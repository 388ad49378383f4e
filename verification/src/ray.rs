//! Rays with their precomputed traversal helpers.

use crate::fixed;
use crate::fixed::{fx_div, SCALE};
use crate::vectors::Vec3;
use vstd::prelude::*;

verus! {

/// A ray to be cast: an origin, a direction, and a recursion budget, plus
/// the precomputed per-axis inverse direction and sign used by traversal.
#[derive(Debug, Clone, Copy, PartialEq, Eq, Structural)]
pub struct Ray {
    /// The position the ray starts from.
    pub origin: Vec3,
    /// The direction the ray is cast towards.
    pub direction: Vec3,
    /// How many more secondary bounces this ray may spawn.
    pub level: u32,
    /// Precomputed per-axis reciprocal of the direction; a zero component
    /// saturates, standing in for an infinite slope.
    pub inv_dir: Vec3,
    /// Precomputed per-axis sign: one unit where the direction component is
    /// positive, zero otherwise.
    pub sign: Vec3,
}

impl Ray {
    /// What `new` stores as the inverse direction.
    pub open spec fn spec_inv_dir(direction: Vec3) -> Vec3 {
        Vec3 {
            x: fixed::spec_div(SCALE as int, direction.x as int) as i64,
            y: fixed::spec_div(SCALE as int, direction.y as int) as i64,
            z: fixed::spec_div(SCALE as int, direction.z as int) as i64,
        }
    }

    /// What `new` stores as the per-axis sign.
    pub open spec fn spec_sign(direction: Vec3) -> Vec3 {
        Vec3 {
            x: if direction.x > 0 {
                SCALE
            } else {
                0
            },
            y: if direction.y > 0 {
                SCALE
            } else {
                0
            },
            z: if direction.z > 0 {
                SCALE
            } else {
                0
            },
        }
    }

    /// What `new` returns.
    pub open spec fn spec_new(origin: Vec3, direction: Vec3, level: u32) -> Ray {
        Ray {
            origin,
            direction,
            level,
            inv_dir: Ray::spec_inv_dir(direction),
            sign: Ray::spec_sign(direction),
        }
    }

    /// The preferred way to create a ray; precomputes `inv_dir` and `sign`.
    pub fn new(origin: Vec3, direction: Vec3, level: u32) -> (r: Ray)
        ensures
            r == (Ray {
                origin,
                direction,
                level,
                inv_dir: Ray::spec_inv_dir(direction),
                sign: Ray::spec_sign(direction),
            }),
    {
        Ray {
            origin,
            direction,
            level,
            inv_dir: Vec3 {
                x: fx_div(SCALE, direction.x),
                y: fx_div(SCALE, direction.y),
                z: fx_div(SCALE, direction.z),
            },
            sign: Vec3 {
                x: if direction.x > 0 {
                    SCALE
                } else {
                    0
                },
                y: if direction.y > 0 {
                    SCALE
                } else {
                    0
                },
                z: if direction.z > 0 {
                    SCALE
                } else {
                    0
                },
            },
        }
    }
}

} // verus!
