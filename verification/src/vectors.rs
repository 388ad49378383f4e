//! Two- and three-component fixed-point vectors.

use crate::fixed;
use crate::fixed::{fx_add, fx_clamp, fx_div, fx_mul, fx_neg, fx_sqrt, fx_sub};
use vstd::prelude::*;

verus! {

/// A two-component fixed-point vector, used for texture coordinates.
#[derive(Debug, Clone, Copy, PartialEq, Eq, Structural)]
pub struct Vec2 {
    pub x: i64,
    pub y: i64,
}

impl Vec2 {
    /// Build a vector from its two components.
    pub fn new(x: i64, y: i64) -> (r: Vec2)
        ensures
            r == (Vec2 { x, y }),
    {
        Vec2 { x, y }
    }
}

/// A three-component fixed-point vector, used for points, directions and colors.
#[derive(Debug, Clone, Copy, PartialEq, Eq, Structural)]
pub struct Vec3 {
    pub x: i64,
    pub y: i64,
    pub z: i64,
}

/// Clamp a value componentwise between two bounds of its own type.
pub trait Clampable: Sized {
    /// What `clamp_to` returns.
    spec fn spec_clamp_to(self, min: Self, max: Self) -> Self;

    /// Clamp `self` into `[min, max]`.
    fn clamp_to(self, min: Self, max: Self) -> (r: Self)
        ensures
            r == self.spec_clamp_to(min, max),
    ;
}

impl Clampable for i64 {
    open spec fn spec_clamp_to(self, min: i64, max: i64) -> i64 {
        fixed::clamp_int(self as int, min as int, max as int) as i64
    }

    fn clamp_to(self, min: i64, max: i64) -> (r: i64) {
        fx_clamp(self, min, max)
    }
}

impl Vec3 {
    /// Build a vector from its three components.
    pub fn new(x: i64, y: i64, z: i64) -> (r: Vec3)
        ensures
            r == (Vec3 { x, y, z }),
    {
        Vec3 { x, y, z }
    }

    /// The zero vector.
    pub fn origin() -> (r: Vec3)
        ensures
            r == (Vec3 { x: 0, y: 0, z: 0 }),
    {
        Vec3 { x: 0, y: 0, z: 0 }
    }

    /// What `add` returns: the saturating componentwise sum.
    pub open spec fn spec_vadd(self, rhs: Vec3) -> Vec3 {
        Vec3 {
            x: fixed::spec_add(self.x as int, rhs.x as int) as i64,
            y: fixed::spec_add(self.y as int, rhs.y as int) as i64,
            z: fixed::spec_add(self.z as int, rhs.z as int) as i64,
        }
    }

    /// Componentwise sum.
    pub fn add(self, rhs: Vec3) -> (r: Vec3)
        ensures
            r == self.spec_vadd(rhs),
    {
        Vec3 { x: fx_add(self.x, rhs.x), y: fx_add(self.y, rhs.y), z: fx_add(self.z, rhs.z) }
    }

    /// What `sub` returns: the saturating componentwise difference.
    pub open spec fn spec_vsub(self, rhs: Vec3) -> Vec3 {
        Vec3 {
            x: fixed::spec_sub(self.x as int, rhs.x as int) as i64,
            y: fixed::spec_sub(self.y as int, rhs.y as int) as i64,
            z: fixed::spec_sub(self.z as int, rhs.z as int) as i64,
        }
    }

    /// Componentwise difference.
    pub fn sub(self, rhs: Vec3) -> (r: Vec3)
        ensures
            r == self.spec_vsub(rhs),
    {
        Vec3 { x: fx_sub(self.x, rhs.x), y: fx_sub(self.y, rhs.y), z: fx_sub(self.z, rhs.z) }
    }

    /// What `mul` returns: the saturating componentwise product.
    pub open spec fn spec_vmul(self, rhs: Vec3) -> Vec3 {
        Vec3 {
            x: fixed::spec_mul(self.x as int, rhs.x as int) as i64,
            y: fixed::spec_mul(self.y as int, rhs.y as int) as i64,
            z: fixed::spec_mul(self.z as int, rhs.z as int) as i64,
        }
    }

    /// Componentwise product.
    pub fn mul(self, rhs: Vec3) -> (r: Vec3)
        ensures
            r == self.spec_vmul(rhs),
    {
        Vec3 { x: fx_mul(self.x, rhs.x), y: fx_mul(self.y, rhs.y), z: fx_mul(self.z, rhs.z) }
    }

    /// What `scale` returns: every component multiplied by one scalar.
    pub open spec fn spec_scale(self, k: int) -> Vec3 {
        Vec3 {
            x: fixed::spec_mul(self.x as int, k) as i64,
            y: fixed::spec_mul(self.y as int, k) as i64,
            z: fixed::spec_mul(self.z as int, k) as i64,
        }
    }

    /// Multiply every component by one scalar.
    pub fn scale(self, k: i64) -> (r: Vec3)
        ensures
            r == self.spec_scale(k as int),
    {
        Vec3 { x: fx_mul(self.x, k), y: fx_mul(self.y, k), z: fx_mul(self.z, k) }
    }

    /// What `div` returns: every component divided by one scalar.
    pub open spec fn spec_vdiv(self, k: int) -> Vec3 {
        Vec3 {
            x: fixed::spec_div(self.x as int, k) as i64,
            y: fixed::spec_div(self.y as int, k) as i64,
            z: fixed::spec_div(self.z as int, k) as i64,
        }
    }

    /// Divide every component by one scalar.
    pub fn div(self, k: i64) -> (r: Vec3)
        ensures
            r == self.spec_vdiv(k as int),
    {
        Vec3 { x: fx_div(self.x, k), y: fx_div(self.y, k), z: fx_div(self.z, k) }
    }

    /// What `neg` returns: the saturating componentwise negation.
    pub open spec fn spec_vneg(self) -> Vec3 {
        Vec3 {
            x: fixed::spec_neg(self.x as int) as i64,
            y: fixed::spec_neg(self.y as int) as i64,
            z: fixed::spec_neg(self.z as int) as i64,
        }
    }

    /// Componentwise negation.
    pub fn neg(self) -> (r: Vec3)
        ensures
            r == self.spec_vneg(),
    {
        Vec3 { x: fx_neg(self.x), y: fx_neg(self.y), z: fx_neg(self.z) }
    }

    /// What `dot` returns.
    pub open spec fn spec_dot(self, rhs: Vec3) -> int {
        fixed::spec_add(
            fixed::spec_add(
                fixed::spec_mul(self.x as int, rhs.x as int),
                fixed::spec_mul(self.y as int, rhs.y as int),
            ),
            fixed::spec_mul(self.z as int, rhs.z as int),
        )
    }

    /// The dot product of two vectors.
    pub fn dot(&self, rhs: &Vec3) -> (r: i64)
        ensures
            r as int == self.spec_dot(*rhs),
    {
        fx_add(fx_add(fx_mul(self.x, rhs.x), fx_mul(self.y, rhs.y)), fx_mul(self.z, rhs.z))
    }

    /// What `length2` returns: the squared magnitude.
    pub open spec fn spec_length2(self) -> int {
        self.spec_dot(self)
    }

    /// The squared magnitude of the vector.
    pub fn length2(&self) -> (r: i64)
        ensures
            r as int == self.spec_length2(),
    {
        self.dot(self)
    }

    /// What `length` returns: the rounded-down square root of `length2`.
    pub open spec fn spec_length(self) -> int {
        fixed::spec_sqrt(self.spec_length2())
    }

    /// The magnitude of the vector.
    pub fn length(&self) -> (r: i64)
        ensures
            r as int == self.spec_length(),
    {
        fx_sqrt(self.length2())
    }

    /// What `normalized` returns: the vector divided by its own length.
    pub open spec fn spec_normalized(self) -> Vec3 {
        self.spec_vdiv(self.spec_length())
    }

    /// Shrink the vector to unit length; the zero vector stays zero.
    pub fn normalized(&self) -> (r: Vec3)
        ensures
            r == self.spec_normalized(),
    {
        let mag = self.length();
        self.div(mag)
    }

    /// What `distance2` returns: the squared distance to another vector.
    pub open spec fn spec_distance2(self, other: Vec3) -> int {
        self.spec_vsub(other).spec_length2()
    }

    /// The squared distance between two vectors.
    pub fn distance2(&self, other: &Vec3) -> (r: i64)
        ensures
            r as int == self.spec_distance2(*other),
    {
        self.sub(*other).length2()
    }

    /// The distance between two vectors.
    pub fn distance(&self, other: &Vec3) -> (r: i64)
        ensures
            r as int == fixed::spec_sqrt(self.spec_distance2(*other)),
    {
        fx_sqrt(self.distance2(other))
    }

    /// What `cross_product` returns.
    pub open spec fn spec_cross(self, other: Vec3) -> Vec3 {
        Vec3 {
            x: fixed::spec_sub(
                fixed::spec_mul(self.y as int, other.z as int),
                fixed::spec_mul(self.z as int, other.y as int),
            ) as i64,
            y: fixed::spec_sub(
                fixed::spec_mul(self.z as int, other.x as int),
                fixed::spec_mul(self.x as int, other.z as int),
            ) as i64,
            z: fixed::spec_sub(
                fixed::spec_mul(self.x as int, other.y as int),
                fixed::spec_mul(self.y as int, other.x as int),
            ) as i64,
        }
    }

    /// The cross product of two vectors.
    pub fn cross_product(&self, other: &Vec3) -> (r: Vec3)
        ensures
            r == self.spec_cross(*other),
    {
        Vec3 {
            x: fx_sub(fx_mul(self.y, other.z), fx_mul(self.z, other.y)),
            y: fx_sub(fx_mul(self.z, other.x), fx_mul(self.x, other.z)),
            z: fx_sub(fx_mul(self.x, other.y), fx_mul(self.y, other.x)),
        }
    }

    /// What `clamp_as_color` returns: every channel limited to `[0, 255]` units.
    pub open spec fn spec_clamp_as_color(self) -> Vec3 {
        Vec3 {
            x: fixed::clamp_int(self.x as int, 0, 255 * fixed::SCALE as int) as i64,
            y: fixed::clamp_int(self.y as int, 0, 255 * fixed::SCALE as int) as i64,
            z: fixed::clamp_int(self.z as int, 0, 255 * fixed::SCALE as int) as i64,
        }
    }

    /// Clamp the vector's channels into the valid color range `[0, 255]`.
    pub fn clamp_as_color(&self) -> (r: Vec3)
        ensures
            r == self.spec_clamp_as_color(),
    {
        Vec3 {
            x: fx_clamp(self.x, 0, 255 * fixed::SCALE),
            y: fx_clamp(self.y, 0, 255 * fixed::SCALE),
            z: fx_clamp(self.z, 0, 255 * fixed::SCALE),
        }
    }

    /// What `min` returns: the componentwise minimum.
    pub open spec fn spec_min(self, rhs: Vec3) -> Vec3 {
        Vec3 {
            x: fixed::min_int(self.x as int, rhs.x as int) as i64,
            y: fixed::min_int(self.y as int, rhs.y as int) as i64,
            z: fixed::min_int(self.z as int, rhs.z as int) as i64,
        }
    }

    /// Componentwise minimum of two vectors.
    pub fn min(self, rhs: &Vec3) -> (r: Vec3)
        ensures
            r == self.spec_min(*rhs),
    {
        Vec3 {
            x: if self.x < rhs.x {
                self.x
            } else {
                rhs.x
            },
            y: if self.y < rhs.y {
                self.y
            } else {
                rhs.y
            },
            z: if self.z < rhs.z {
                self.z
            } else {
                rhs.z
            },
        }
    }

    /// What `max` returns: the componentwise maximum.
    pub open spec fn spec_max(self, rhs: Vec3) -> Vec3 {
        Vec3 {
            x: fixed::max_int(self.x as int, rhs.x as int) as i64,
            y: fixed::max_int(self.y as int, rhs.y as int) as i64,
            z: fixed::max_int(self.z as int, rhs.z as int) as i64,
        }
    }

    /// Componentwise maximum of two vectors.
    pub fn max(self, rhs: &Vec3) -> (r: Vec3)
        ensures
            r == self.spec_max(*rhs),
    {
        Vec3 {
            x: if self.x > rhs.x {
                self.x
            } else {
                rhs.x
            },
            y: if self.y > rhs.y {
                self.y
            } else {
                rhs.y
            },
            z: if self.z > rhs.z {
                self.z
            } else {
                rhs.z
            },
        }
    }

    /// What `dim` returns: the component selected by an axis index.
    pub open spec fn spec_dim(self, dimension: int) -> i64 {
        if dimension == 0 {
            self.x
        } else if dimension == 1 {
            self.y
        } else {
            self.z
        }
    }

    /// Extract one component by its axis index, `x` before `y` before `z`.
    pub fn dim(self, dimension: u32) -> (r: i64)
        requires
            dimension < 3,
        ensures
            r == self.spec_dim(dimension as int),
    {
        if dimension == 0 {
            self.x
        } else if dimension == 1 {
            self.y
        } else {
            self.z
        }
    }

    /// What `rotate` returns, kept exactly as the renderer has always
    /// computed it: a rotation about the x axis whose third component reads
    /// `z` for both trigonometric terms, followed by one about the y axis.
    #[verifier::opaque]
    pub open spec fn spec_rotate(self, theta: Vec3) -> Vec3 {
        let cx = fixed::spec_cos(theta.x as int);
        let sx = fixed::spec_sin(theta.x as int);
        let vy = fixed::spec_add(
            fixed::spec_mul(self.y as int, cx),
            fixed::spec_mul(self.z as int, sx),
        ) as i64;
        let vz = fixed::spec_add(
            fixed::spec_neg(fixed::spec_mul(self.z as int, sx)),
            fixed::spec_mul(self.z as int, cx),
        ) as i64;
        let cy = fixed::spec_cos(theta.y as int);
        let sy = fixed::spec_sin(theta.y as int);
        Vec3 {
            x: fixed::spec_add(
                fixed::spec_mul(self.x as int, cy),
                fixed::spec_mul(vz as int, sy),
            ) as i64,
            y: vy,
            z: fixed::spec_add(
                fixed::spec_neg(fixed::spec_mul(self.x as int, sy)),
                fixed::spec_mul(cy, vz as int),
            ) as i64,
        }
    }

    /// Rotate the vector by the per-axis angles of another vector.
    pub fn rotate(self, theta: Vec3) -> (r: Vec3)
        ensures
            r == self.spec_rotate(theta),
    {
        proof {
            reveal(Vec3::spec_rotate);
        }
        let cx = crate::fixed::fx_cos(theta.x);
        let sx = crate::fixed::fx_sin(theta.x);
        let vy = fx_add(fx_mul(self.y, cx), fx_mul(self.z, sx));
        let vz = fx_add(fx_neg(fx_mul(self.z, sx)), fx_mul(self.z, cx));
        let cy = crate::fixed::fx_cos(theta.y);
        let sy = crate::fixed::fx_sin(theta.y);
        Vec3 {
            x: fx_add(fx_mul(self.x, cy), fx_mul(vz, sy)),
            y: vy,
            z: fx_add(fx_neg(fx_mul(self.x, sy)), fx_mul(cy, vz)),
        }
    }
}

impl Clampable for Vec3 {
    open spec fn spec_clamp_to(self, min: Vec3, max: Vec3) -> Vec3 {
        Vec3 {
            x: fixed::clamp_int(self.x as int, min.x as int, max.x as int) as i64,
            y: fixed::clamp_int(self.y as int, min.y as int, max.y as int) as i64,
            z: fixed::clamp_int(self.z as int, min.z as int, max.z as int) as i64,
        }
    }

    fn clamp_to(self, min: Vec3, max: Vec3) -> (r: Vec3) {
        Vec3 {
            x: fx_clamp(self.x, min.x, max.x),
            y: fx_clamp(self.y, min.y, max.y),
            z: fx_clamp(self.z, min.z, max.z),
        }
    }
}

/// A triangle corner: a position with its surface normal and texture point.
#[derive(Debug, Clone, Copy, PartialEq, Eq, Structural)]
pub struct Vertex {
    pub origin: Vec3,
    pub normal: Vec3,
    pub uv: Vec2,
}

impl Vertex {
    /// Build a vertex from its parts.
    pub fn new(origin: Vec3, normal: Vec3, uv: Vec2) -> (r: Vertex)
        ensures
            r == (Vertex { origin, normal, uv }),
    {
        Vertex { origin, normal, uv }
    }
}

} // verus!
