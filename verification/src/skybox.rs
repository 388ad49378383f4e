//! The environment cube sampled when a ray misses everything.

use crate::fixed::{fx_abs, fx_add, fx_div, fx_mul, fx_neg, fx_sub, SCALE};
use crate::fixed;
use crate::texture_map::TextureMap;
use crate::vectors::{Vec2, Vec3};
use vstd::prelude::*;

verus! {

/// The six face textures of the environment cube, by handle, in the order
/// `+x, -x, +y, -y, +z, -z`.
#[derive(Debug, Clone, Copy, PartialEq, Eq, Structural)]
pub struct Skybox {
    pub xp: usize,
    pub xn: usize,
    pub yp: usize,
    pub yn: usize,
    pub zp: usize,
    pub zn: usize,
}

/// A face coordinate folded into `[0, 1]`: `(c / max_axis + 1) / 2`.
pub open spec fn spec_face_uv(c: Vec2, max_axis: i64) -> Vec2 {
    Vec2 {
        x: fixed::spec_mul(
            32768,
            fixed::spec_add(fixed::spec_div(c.x as int, max_axis as int), SCALE as int),
        ) as i64,
        y: fixed::spec_mul(
            32768,
            fixed::spec_add(fixed::spec_div(c.y as int, max_axis as int), SCALE as int),
        ) as i64,
    }
}

/// A face coordinate folded into `[0, 1]`.
fn face_uv(c: Vec2, max_axis: i64) -> (r: Vec2)
    ensures
        r == spec_face_uv(c, max_axis),
{
    Vec2 {
        x: fx_mul(32768, fx_add(fx_div(c.x, max_axis), SCALE)),
        y: fx_mul(32768, fx_add(fx_div(c.y, max_axis), SCALE)),
    }
}

impl Skybox {
    /// Gather the six face handles, in the order `+x, -x, +y, -y, +z, -z`.
    pub fn new(xp: usize, xn: usize, yp: usize, yn: usize, zp: usize, zn: usize) -> (r: Skybox)
        ensures
            r == (Skybox { xp, xn, yp, yn, zp, zn }),
    {
        Skybox { xp, xn, yp, yn, zp, zn }
    }

    /// What `get_uv` returns: the face the direction points at, with the
    /// texture point where it leaves the cube.
    pub open spec fn spec_get_uv(self, v: Vec3) -> Option<(usize, Vec2)> {
        let ax = fixed::spec_abs(v.x as int) as i64;
        let ay = fixed::spec_abs(v.y as int) as i64;
        let az = fixed::spec_abs(v.z as int) as i64;
        if v.x > 0 && ax >= ay && ax >= az {
            Some(
                (
                    self.xp,
                    spec_face_uv(Vec2 { x: fixed::spec_neg(v.z as int) as i64, y: v.y }, ax),
                ),
            )
        } else if !(v.x > 0) && ax >= ay && ax >= az {
            Some((self.xn, spec_face_uv(Vec2 { x: v.z, y: v.y }, ax)))
        } else if v.y > 0 && ay >= ax && ay >= az {
            Some(
                (
                    self.yp,
                    spec_face_uv(Vec2 { x: v.x, y: fixed::spec_neg(v.z as int) as i64 }, ay),
                ),
            )
        } else if !(v.y > 0) && ay >= ax && ay >= az {
            Some((self.yn, spec_face_uv(Vec2 { x: v.x, y: v.z }, ay)))
        } else if v.z > 0 && az >= ay && az >= ax {
            Some((self.zp, spec_face_uv(Vec2 { x: v.x, y: v.y }, az)))
        } else if !(v.z > 0) && az >= ay && az >= ax {
            Some(
                (
                    self.zn,
                    spec_face_uv(Vec2 { x: fixed::spec_neg(v.x as int) as i64, y: v.y }, az),
                ),
            )
        } else {
            None
        }
    }

    /// The face a direction points at, with its texture point.
    pub fn get_uv(&self, v: Vec3) -> (r: Option<(usize, Vec2)>)
        ensures
            r == self.spec_get_uv(v),
    {
        let ax = fx_abs(v.x);
        let ay = fx_abs(v.y);
        let az = fx_abs(v.z);
        if v.x > 0 && ax >= ay && ax >= az {
            Some((self.xp, face_uv(Vec2 { x: fx_neg(v.z), y: v.y }, ax)))
        } else if !(v.x > 0) && ax >= ay && ax >= az {
            Some((self.xn, face_uv(Vec2 { x: v.z, y: v.y }, ax)))
        } else if v.y > 0 && ay >= ax && ay >= az {
            Some((self.yp, face_uv(Vec2 { x: v.x, y: fx_neg(v.z) }, ay)))
        } else if !(v.y > 0) && ay >= ax && ay >= az {
            Some((self.yn, face_uv(Vec2 { x: v.x, y: v.z }, ay)))
        } else if v.z > 0 && az >= ay && az >= ax {
            Some((self.zp, face_uv(Vec2 { x: v.x, y: v.y }, az)))
        } else if !(v.z > 0) && az >= ay && az >= ax {
            Some((self.zn, face_uv(Vec2 { x: fx_neg(v.x), y: v.y }, az)))
        } else {
            None
        }
    }

    /// What `calc_color` returns: the face pixel under the direction, or
    /// nothing when no face or no usable image answers for it.
    #[verifier::opaque]
    pub open spec fn spec_calc_color(self, textures: TextureMap, v: Vec3) -> Option<Vec3> {
        match self.spec_get_uv(v) {
            None => None,
            Some((handle, uv)) => {
                if handle < textures.textures@.len() {
                    let img = textures.textures@[handle as int];
                    if img.width > 0 && img.height > 0 {
                        let x = fixed::spec_floor_u32(
                            fixed::spec_mul(
                                fixed::spec_sub(SCALE as int, uv.x as int),
                                fixed::spec_of_count(img.width as int),
                            ),
                        ) as int % (img.width as int);
                        let y = fixed::spec_floor_u32(
                            fixed::spec_mul(
                                fixed::spec_sub(SCALE as int, uv.y as int),
                                fixed::spec_of_count(img.height as int),
                            ),
                        ) as int % (img.height as int);
                        Some(img.spec_pixel(x, y).spec_to_color())
                    } else {
                        None
                    }
                } else {
                    None
                }
            },
        }
    }

    /// The environment color in a direction, if the cube can answer.
    pub fn calc_color(&self, textures: &TextureMap, v: Vec3) -> (r: Option<Vec3>)
        requires
            textures.wf(),
        ensures
            r == self.spec_calc_color(*textures, v),
    {
        proof {
            reveal(Skybox::spec_calc_color);
        }
        let uv_opt = self.get_uv(v);
        match uv_opt {
            None => None,
            Some((handle, uv)) => {
                match textures.get_image_by_handle(handle) {
                    Err(_) => None,
                    Ok(img) => {
                        if img.width > 0 && img.height > 0 {
                            let x = fixed::fx_floor_u32(
                                fx_mul(fx_sub(SCALE, uv.x), fixed::fx_of_count(img.width)),
                            ) as usize % img.width;
                            let y = fixed::fx_floor_u32(
                                fx_mul(fx_sub(SCALE, uv.y), fixed::fx_of_count(img.height)),
                            ) as usize % img.height;
                            Some(img.get_pixel(x, y).to_color())
                        } else {
                            None
                        }
                    },
                }
            },
        }
    }
}

} // verus!
