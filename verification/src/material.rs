//! Surface materials: an albedo source plus shading coefficients.

use crate::fixed::SCALE;
use crate::vectors::{Vec2, Vec3};
use vstd::prelude::*;

verus! {

/// Where a surface's base color comes from: a constant color, or a texture
/// in the texture map addressed by handle, tiled by a scaling factor.
#[derive(Debug, Clone, Copy, PartialEq, Eq, Structural)]
pub enum MatTex {
    Color(Vec3),
    Texture { handle: usize, scaling: Vec2 },
}

impl MatTex {
    /// A texture reference from a handle, tiled by `scaling`.
    pub fn from_handle(handle: usize, scaling: Vec2) -> (r: MatTex)
        ensures
            r == (MatTex::Texture { handle, scaling }),
    {
        MatTex::Texture { handle, scaling }
    }
}

/// How see-through a surface is, and how the rays bend.
#[derive(Debug, Clone, Copy, PartialEq, Eq, Structural)]
pub struct Transparency {
    pub index_of_refraction: i64,
    pub blurriness: i64,
    pub amount: i64,
}

impl Transparency {
    /// Whether any light passes through at all.
    pub fn is_transparent(&self) -> (r: bool)
        ensures
            r == (self.amount > 0),
    {
        self.amount > 0
    }
}

/// How mirror-like a surface is.
#[derive(Debug, Clone, Copy, PartialEq, Eq, Structural)]
pub struct Reflectivity {
    pub amount: i64,
    pub blurriness: i64,
}

impl Reflectivity {
    /// Whether any light bounces off at all.
    pub fn is_reflective(&self) -> (r: bool)
        ensures
            r == (self.amount > 0),
    {
        self.amount > 0
    }
}

/// A surface material: its albedo source and the four shading coefficients.
/// The coefficients are deliberately not required to sum to one unit.
#[derive(Debug, Clone, Copy, PartialEq, Eq, Structural)]
pub struct Material {
    pub texture: MatTex,
    pub c_diffuse: i64,
    pub c_ambient: i64,
    pub reflectivity: Reflectivity,
    pub transparency: Transparency,
}

impl Material {
    /// A purely diffuse material over the given albedo source.
    pub fn diffuse(texture: MatTex) -> (r: Material)
        ensures
            r == (Material {
                texture,
                c_diffuse: SCALE,
                c_ambient: 0,
                reflectivity: Reflectivity { amount: 0, blurriness: 0 },
                transparency: Transparency { index_of_refraction: SCALE, blurriness: 0, amount: 0 },
            }),
    {
        Material {
            texture,
            c_diffuse: SCALE,
            c_ambient: 0,
            reflectivity: Reflectivity { amount: 0, blurriness: 0 },
            transparency: Transparency { index_of_refraction: SCALE, blurriness: 0, amount: 0 },
        }
    }
}

} // verus!
