//! Small combinators over vectors.

use crate::fixed;
use crate::fixed::{fx_sub, SCALE};
use crate::vectors::Vec3;
use vstd::prelude::*;

verus! {

/// What `dot` returns.
pub open spec fn spec_comb_dot(a: Vec3, b: Vec3) -> int {
    a.spec_dot(b)
}

/// The dot product of two vectors.
pub fn dot(a: &Vec3, b: &Vec3) -> (r: i64)
    ensures
        r as int == spec_comb_dot(*a, *b),
{
    a.dot(b)
}

/// What `cross` returns.
pub open spec fn spec_comb_cross(a: Vec3, b: Vec3) -> Vec3 {
    a.spec_cross(b)
}

/// The cross product of two vectors.
pub fn cross(a: &Vec3, b: &Vec3) -> (r: Vec3)
    ensures
        r == spec_comb_cross(*a, *b),
{
    a.cross_product(b)
}

/// What `lerp` returns: `a * (1 - t) + b * t`.
pub open spec fn spec_lerp(t: int, a: Vec3, b: Vec3) -> Vec3 {
    a.spec_scale(fixed::spec_sub(SCALE as int, t)).spec_vadd(b.spec_scale(t))
}

/// Interpolate between two vectors.
pub fn lerp(t: i64, a: &Vec3, b: &Vec3) -> (r: Vec3)
    ensures
        r == spec_lerp(t as int, *a, *b),
{
    a.scale(fx_sub(SCALE, t)).add(b.scale(t))
}

} // verus!
