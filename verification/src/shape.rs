//! The closed set of scene shapes and their exact intersection routines.

use crate::bounds::BoundingBox;
use crate::fixed;
use crate::fixed::{fx_add, fx_asin, fx_atan2, fx_div, fx_mul, fx_sqrt, fx_sub, SCALE};
use crate::material::Material;
use crate::ray::Ray;
use crate::vectors::{Vec2, Vec3, Vertex};
use vstd::prelude::*;

verus! {

/// Half a unit, used to centre texture coordinates.
pub const HALF_UNIT: i64 = 32768;

/// Hits closer than this along the ray are discarded as self-intersections.
pub const PLANE_T_MIN: i64 = 66;

/// How far a plane's bounding box reaches from its origin.
pub const PLANE_FAR: i64 = 6553600000;

/// A found intersection between a ray and a shape.
#[derive(Debug, Clone, Copy, PartialEq, Eq, Structural)]
pub struct Intersection {
    /// The distance along the ray, from `p = origin + t * direction`.
    pub t: i64,
    /// The surface normal at the hit.
    pub normal: Vec3,
    /// The point the ray hit.
    pub origin: Vec3,
    /// The texture position of the hit, in UV space.
    pub text_pos: Vec2,
}

/// A sphere given by centre and radius.
#[derive(Debug, Clone, Copy, PartialEq, Eq, Structural)]
pub struct Sphere {
    pub origin: Vec3,
    pub radius: i64,
    pub material: Material,
}

/// An infinite plane given by a point on it and its normal.
#[derive(Debug, Clone, Copy, PartialEq, Eq, Structural)]
pub struct Plane {
    pub origin: Vec3,
    pub normal: Vec3,
    pub material: Material,
}

/// A triangle given by its three vertices.
#[derive(Debug, Clone, Copy, PartialEq, Eq, Structural)]
pub struct Triangle {
    pub a: Vertex,
    pub b: Vertex,
    pub c: Vertex,
    pub material: Material,
}

impl Sphere {
    /// What `do_intersect` returns: the nearer positive root of the
    /// quadratic, with its hit point, outward normal, and spherical UV.
    #[verifier::opaque]
    pub open spec fn spec_intersect(self, ray: Ray) -> Option<Intersection> {
        let local = self.origin.spec_vsub(ray.origin);
        let tca = local.spec_dot(ray.direction);
        if tca < 0 {
            None
        } else {
            let d2 = fixed::spec_sub(local.spec_length2(), fixed::spec_mul(tca, tca));
            let rr = fixed::spec_mul(self.radius as int, self.radius as int);
            if d2 > rr {
                None
            } else {
                let thc = fixed::spec_sqrt(fixed::spec_sub(rr, d2));
                let t0 = fixed::spec_sub(tca, thc);
                let t1 = fixed::spec_add(tca, thc);
                if t0 < 0 && t1 < 0 {
                    None
                } else {
                    let t = if t0 < 0 {
                        t1
                    } else if t1 < 0 {
                        t0
                    } else {
                        fixed::min_int(t0, t1)
                    };
                    if t <= 0 {
                        None
                    } else {
                        let p = ray.origin.spec_vadd(ray.direction.spec_scale(t));
                        let normal = p.spec_vsub(self.origin).spec_normalized();
                        Some(
                            Intersection {
                                t: t as i64,
                                origin: p,
                                normal,
                                text_pos: Vec2 {
                                    x: fixed::spec_add(
                                        HALF_UNIT as int,
                                        fixed::spec_div(
                                            fixed::spec_div(
                                                fixed::spec_atan2(normal.z as int, normal.x as int),
                                                fixed::PI as int,
                                            ),
                                            2 * SCALE as int,
                                        ),
                                    ) as i64,
                                    y: fixed::spec_sub(
                                        HALF_UNIT as int,
                                        fixed::spec_div(
                                            fixed::spec_asin(normal.y as int),
                                            fixed::PI as int,
                                        ),
                                    ) as i64,
                                },
                            },
                        )
                    }
                }
            }
        }
    }

    /// Test the ray against the sphere.
    pub fn do_intersect(&self, ray: &Ray) -> (r: Option<Intersection>)
        ensures
            r == self.spec_intersect(*ray),
    {
        proof {
            reveal(Sphere::spec_intersect);
        }
        let local = self.origin.sub(ray.origin);
        let tca = local.dot(&ray.direction);
        if tca < 0 {
            return None;
        }
        let d2 = fx_sub(local.length2(), fx_mul(tca, tca));
        let rr = fx_mul(self.radius, self.radius);
        if d2 > rr {
            return None;
        }
        let thc = fx_sqrt(fx_sub(rr, d2));
        let t0 = fx_sub(tca, thc);
        let t1 = fx_add(tca, thc);
        if t0 < 0 && t1 < 0 {
            return None;
        }
        let t = if t0 < 0 {
            t1
        } else if t1 < 0 {
            t0
        } else if t0 < t1 {
            t0
        } else {
            t1
        };
        if t <= 0 {
            return None;
        }
        let p = ray.origin.add(ray.direction.scale(t));
        let normal = p.sub(self.origin).normalized();
        Some(
            Intersection {
                t,
                origin: p,
                normal,
                text_pos: Vec2 {
                    x: fx_add(HALF_UNIT, fx_div(fx_div(fx_atan2(normal.z, normal.x), fixed::PI), 2 * SCALE)),
                    y: fx_sub(HALF_UNIT, fx_div(fx_asin(normal.y), fixed::PI)),
                },
            },
        )
    }

    /// What `bounding_box` returns: the cube of one radius around the centre.
    pub open spec fn spec_bounding_box(self) -> BoundingBox {
        let r = Vec3 { x: self.radius, y: self.radius, z: self.radius };
        BoundingBox {
            min_vector: self.origin.spec_vsub(r),
            max_vector: self.origin.spec_vadd(r),
        }
    }

    /// The box around the sphere.
    pub fn bounding_box(&self) -> (r: BoundingBox)
        ensures
            r == self.spec_bounding_box(),
    {
        let rv = Vec3 { x: self.radius, y: self.radius, z: self.radius };
        BoundingBox { min_vector: self.origin.sub(rv), max_vector: self.origin.add(rv) }
    }
}

impl Plane {
    /// What `do_intersect` returns. A ray running parallel to the plane,
    /// its direction perpendicular to the normal, never intersects.
    #[verifier::opaque]
    pub open spec fn spec_intersect(self, ray: Ray) -> Option<Intersection> {
        let denom = self.normal.spec_dot(ray.direction);
        if denom == 0 {
            None
        } else {
            let t = fixed::spec_div(
                self.origin.spec_vsub(ray.origin).spec_dot(self.normal),
                denom,
            );
            if t < PLANE_T_MIN {
                None
            } else {
                let p = ray.origin.spec_vadd(ray.direction.spec_scale(t));
                Some(
                    Intersection {
                        t: t as i64,
                        origin: p,
                        normal: self.normal,
                        text_pos: Vec2 { x: p.x, y: p.z },
                    },
                )
            }
        }
    }

    /// Test the ray against the plane.
    pub fn do_intersect(&self, ray: &Ray) -> (r: Option<Intersection>)
        ensures
            r == self.spec_intersect(*ray),
            self.normal.spec_dot(ray.direction) == 0 ==> r is None,
    {
        proof {
            reveal(Plane::spec_intersect);
        }
        let denom = self.normal.dot(&ray.direction);
        if denom == 0 {
            return None;
        }
        let t = fx_div(self.origin.sub(ray.origin).dot(&self.normal), denom);
        if t < PLANE_T_MIN {
            return None;
        }
        let p = ray.origin.add(ray.direction.scale(t));
        Some(Intersection { t, origin: p, normal: self.normal, text_pos: Vec2 { x: p.x, y: p.z } })
    }

    /// What `bounding_box` returns: a large slab flattened along the normal.
    pub open spec fn spec_bounding_box(self) -> BoundingBox {
        let far = Vec3 { x: PLANE_FAR, y: PLANE_FAR, z: PLANE_FAR };
        BoundingBox {
            min_vector: self.origin.spec_vsub(far).spec_vadd(self.normal.spec_vmul(far)),
            max_vector: self.origin.spec_vadd(far).spec_vsub(self.normal.spec_vmul(far)),
        }
    }

    /// The box around the reachable part of the plane.
    pub fn bounding_box(&self) -> (r: BoundingBox)
        ensures
            r == self.spec_bounding_box(),
    {
        let far = Vec3 { x: PLANE_FAR, y: PLANE_FAR, z: PLANE_FAR };
        BoundingBox {
            min_vector: self.origin.sub(far).add(self.normal.mul(far)),
            max_vector: self.origin.add(far).sub(self.normal.mul(far)),
        }
    }
}

impl Triangle {
    /// What `do_intersect` returns: the Moeller-Trumbore barycentric test,
    /// with the normal and UV interpolated from the vertices.
    #[verifier::opaque]
    pub open spec fn spec_intersect(self, ray: Ray) -> Option<Intersection> {
        let ab = self.b.origin.spec_vsub(self.a.origin);
        let ac = self.c.origin.spec_vsub(self.a.origin);
        let pvec = ray.direction.spec_cross(ac);
        let det = ab.spec_dot(pvec);
        if det == 0 {
            None
        } else {
            let tvec = ray.origin.spec_vsub(self.a.origin);
            let u = fixed::spec_div(tvec.spec_dot(pvec), det);
            if u < 0 || u > SCALE {
                None
            } else {
                let qvec = tvec.spec_cross(ab);
                let v = fixed::spec_div(ray.direction.spec_dot(qvec), det);
                if v < 0 || fixed::spec_add(u, v) > SCALE {
                    None
                } else {
                    let t = fixed::spec_div(ac.spec_dot(qvec), det);
                    if t < 0 {
                        None
                    } else {
                        let p = ray.origin.spec_vadd(ray.direction.spec_scale(t));
                        let w = SCALE - u - v;
                        let normal = self.a.normal.spec_normalized().spec_scale(w).spec_vadd(
                            self.b.normal.spec_normalized().spec_scale(u),
                        ).spec_vadd(self.c.normal.spec_normalized().spec_scale(v));
                        let text_pos = Vec2 {
                            x: fixed::spec_add(
                                fixed::spec_add(
                                    fixed::spec_mul(self.a.uv.x as int, w),
                                    fixed::spec_mul(self.b.uv.x as int, u),
                                ),
                                fixed::spec_mul(self.c.uv.x as int, v),
                            ) as i64,
                            y: fixed::spec_add(
                                fixed::spec_add(
                                    fixed::spec_mul(self.a.uv.y as int, w),
                                    fixed::spec_mul(self.b.uv.y as int, u),
                                ),
                                fixed::spec_mul(self.c.uv.y as int, v),
                            ) as i64,
                        };
                        Some(Intersection { t: t as i64, origin: p, normal, text_pos })
                    }
                }
            }
        }
    }

    /// Test the ray against the triangle.
    pub fn do_intersect(&self, ray: &Ray) -> (r: Option<Intersection>)
        ensures
            r == self.spec_intersect(*ray),
    {
        proof {
            reveal(Triangle::spec_intersect);
        }
        let ab = self.b.origin.sub(self.a.origin);
        let ac = self.c.origin.sub(self.a.origin);
        let pvec = ray.direction.cross_product(&ac);
        let det = ab.dot(&pvec);
        if det == 0 {
            return None;
        }
        let tvec = ray.origin.sub(self.a.origin);
        let u = fx_div(tvec.dot(&pvec), det);
        if u < 0 || u > SCALE {
            return None;
        }
        let qvec = tvec.cross_product(&ab);
        let v = fx_div(ray.direction.dot(&qvec), det);
        if v < 0 || fx_add(u, v) > SCALE {
            return None;
        }
        let t = fx_div(ac.dot(&qvec), det);
        if t < 0 {
            return None;
        }
        let p = ray.origin.add(ray.direction.scale(t));
        let w = SCALE - u - v;
        let normal = self.a.normal.normalized().scale(w).add(
            self.b.normal.normalized().scale(u),
        ).add(self.c.normal.normalized().scale(v));
        let text_pos = Vec2 {
            x: fx_add(
                fx_add(fx_mul(self.a.uv.x, w), fx_mul(self.b.uv.x, u)),
                fx_mul(self.c.uv.x, v),
            ),
            y: fx_add(
                fx_add(fx_mul(self.a.uv.y, w), fx_mul(self.b.uv.y, u)),
                fx_mul(self.c.uv.y, v),
            ),
        };
        Some(Intersection { t, origin: p, normal, text_pos })
    }

    /// What `bounding_box` returns: the hull of the three corners.
    pub open spec fn spec_bounding_box(self) -> BoundingBox {
        BoundingBox {
            min_vector: self.a.origin.spec_min(self.b.origin).spec_min(self.c.origin),
            max_vector: self.a.origin.spec_max(self.b.origin).spec_max(self.c.origin),
        }
    }

    /// The box around the triangle.
    pub fn bounding_box(&self) -> (r: BoundingBox)
        ensures
            r == self.spec_bounding_box(),
    {
        BoundingBox {
            min_vector: self.a.origin.min(&self.b.origin).min(&self.c.origin),
            max_vector: self.a.origin.max(&self.b.origin).max(&self.c.origin),
        }
    }
}

/// The closed set of shapes a scene can hold.
#[derive(Debug, Clone, Copy, PartialEq, Eq, Structural)]
pub enum Shape {
    Sphere(Sphere),
    Plane(Plane),
    Triangle(Triangle),
}

impl Shape {
    /// The shape's material.
    pub open spec fn spec_mat(self) -> Material {
        match self {
            Shape::Sphere(s) => s.material,
            Shape::Plane(s) => s.material,
            Shape::Triangle(s) => s.material,
        }
    }

    /// Borrow the shape's material.
    pub fn mat(&self) -> (r: &Material)
        ensures
            *r == self.spec_mat(),
    {
        match self {
            Shape::Sphere(s) => &s.material,
            Shape::Plane(s) => &s.material,
            Shape::Triangle(s) => &s.material,
        }
    }

    /// What `do_intersect` returns, by shape kind.
    pub open spec fn spec_intersect(self, ray: Ray) -> Option<Intersection> {
        match self {
            Shape::Sphere(s) => s.spec_intersect(ray),
            Shape::Plane(s) => s.spec_intersect(ray),
            Shape::Triangle(s) => s.spec_intersect(ray),
        }
    }

    /// Test the ray against the shape.
    pub fn do_intersect(&self, ray: &Ray) -> (r: Option<Intersection>)
        ensures
            r == self.spec_intersect(*ray),
    {
        match self {
            Shape::Sphere(s) => s.do_intersect(ray),
            Shape::Plane(s) => s.do_intersect(ray),
            Shape::Triangle(s) => s.do_intersect(ray),
        }
    }

    /// What `bounding_box` returns, by shape kind.
    pub open spec fn spec_bounding_box(self) -> BoundingBox {
        match self {
            Shape::Sphere(s) => s.spec_bounding_box(),
            Shape::Plane(s) => s.spec_bounding_box(),
            Shape::Triangle(s) => s.spec_bounding_box(),
        }
    }

    /// The box around the shape.
    pub fn bounding_box(&self) -> (r: BoundingBox)
        ensures
            r == self.spec_bounding_box(),
    {
        match self {
            Shape::Sphere(s) => s.bounding_box(),
            Shape::Plane(s) => s.bounding_box(),
            Shape::Triangle(s) => s.bounding_box(),
        }
    }
}

/// A ray whose direction is perpendicular to a plane's normal never
/// intersects that plane, whatever its origin.
pub proof fn lemma_perpendicular_ray_misses_plane(plane: Plane, ray: Ray)
    requires
        plane.normal.spec_dot(ray.direction) == 0,
    ensures
        plane.spec_intersect(ray) is None,
{
    reveal(Plane::spec_intersect);
}

} // verus!
