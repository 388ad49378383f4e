//! The perspective camera that projects pixel positions into rays.

use crate::fixed;
use crate::fixed::{fx_add, fx_div, fx_mul, fx_of_count, fx_sub, fx_tan, PI, SCALE};
use crate::ray::Ray;
use crate::vectors::Vec3;
use vstd::prelude::*;

verus! {

/// A simple perspective camera: a position, per-axis view angles, and a
/// field of view in degrees.
#[derive(Debug, Clone, Copy, PartialEq, Eq, Structural)]
pub struct PerspectiveCamera {
    pub position: Vec3,
    pub rotation: Vec3,
    pub fov: i64,
}

impl PerspectiveCamera {
    /// A camera at a position, looking straight ahead with a sixty degree
    /// field of view.
    pub fn new(position: Vec3) -> (r: PerspectiveCamera)
        ensures
            r == (PerspectiveCamera {
                position,
                rotation: Vec3 { x: 0, y: 0, z: 0 },
                fov: 3932160,
            }),
    {
        PerspectiveCamera { position, rotation: Vec3 { x: 0, y: 0, z: 0 }, fov: 60 * SCALE }
    }

    /// Turn the camera by the per-axis angles of a vector.
    pub fn rotate(&mut self, v3: Vec3)
        ensures
            final(self).rotation == old(self).rotation.spec_vadd(v3),
            final(self).position == old(self).position,
            final(self).fov == old(self).fov,
    {
        self.rotation = self.rotation.add(v3);
    }

    /// The tangent of half the field of view, converted to radians.
    pub open spec fn spec_half_fov_tan(self) -> int {
        fixed::spec_tan(
            fixed::spec_div(
                fixed::spec_mul(
                    fixed::spec_div(self.fov as int, 2 * SCALE as int),
                    PI as int,
                ),
                180 * SCALE as int,
            ),
        )
    }

    /// What `project_ray` returns for a pixel of an image: the ray from the
    /// camera through the centre of that pixel, rotated by the camera's
    /// view angles, carrying the given recursion budget.
    pub open spec fn spec_project_ray(self, sx: int, sy: int, w: int, h: int, level: u32) -> Ray {
        let t = self.spec_half_fov_tan();
        let aspect = fixed::spec_div(fixed::spec_of_count(w), fixed::spec_of_count(h));
        let px = fixed::spec_mul(
            fixed::spec_mul(
                fixed::spec_sub(
                    fixed::spec_mul(
                        2 * SCALE as int,
                        fixed::spec_div(
                            fixed::spec_add(fixed::spec_of_count(sx), 32768),
                            fixed::spec_of_count(w),
                        ),
                    ),
                    SCALE as int,
                ),
                aspect,
            ),
            t,
        );
        let py = fixed::spec_mul(
            fixed::spec_sub(
                SCALE as int,
                fixed::spec_mul(
                    2 * SCALE as int,
                    fixed::spec_div(
                        fixed::spec_add(fixed::spec_of_count(sy), 32768),
                        fixed::spec_of_count(h),
                    ),
                ),
            ),
            t,
        );
        let direction = Vec3 { x: px as i64, y: py as i64, z: SCALE }.spec_normalized()
            .spec_rotate(self.rotation);
        Ray::spec_new(self.position, direction, level)
    }

    /// Project the ray for one pixel of a `w` by `h` image.
    pub fn project_ray(&self, sx: usize, sy: usize, w: usize, h: usize, level: u32) -> (r: Ray)
        ensures
            r == self.spec_project_ray(sx as int, sy as int, w as int, h as int, level),
    {
        let t = fx_tan(fx_div(fx_mul(fx_div(self.fov, 2 * SCALE), PI), 180 * SCALE));
        let aspect = fx_div(fx_of_count(w), fx_of_count(h));
        let px = fx_mul(
            fx_mul(
                fx_sub(
                    fx_mul(2 * SCALE, fx_div(fx_add(fx_of_count(sx), 32768), fx_of_count(w))),
                    SCALE,
                ),
                aspect,
            ),
            t,
        );
        let py = fx_mul(
            fx_sub(
                SCALE,
                fx_mul(2 * SCALE, fx_div(fx_add(fx_of_count(sy), 32768), fx_of_count(h))),
            ),
            t,
        );
        let direction = Vec3 { x: px, y: py, z: SCALE }.normalized().rotate(self.rotation);
        Ray::new(self.position, direction, level)
    }
}

} // verus!
