//! The numeric and boolean knobs of one render.

use vstd::prelude::*;

verus! {

/// The configuration bundle of a render: per-effect sample counts, the
/// recursion budget, and the feature toggles.
#[derive(Debug, Clone, Copy, PartialEq, Eq, Structural)]
pub struct RenderConfig {
    pub reflection_spp: i32,
    pub refraction_spp: i32,
    pub shadow_spp: i32,
    pub distributed_tracing: bool,
    pub recursion_depth: u32,
    pub denoise: bool,
    pub dither: bool,
    pub multi_thread: bool,
    pub reflections: bool,
    pub refractions: bool,
    pub shadows: bool,
    pub textures: bool,
    pub skybox: bool,
}

impl Default for RenderConfig {
    /// The configuration a render starts from: a few samples per effect,
    /// three bounces, and every feature switched on except dithering.
    fn default() -> (r: Self)
        ensures
            r == RenderConfig::spec_default(),
    {
        RenderConfig {
            reflection_spp: 3,
            refraction_spp: 3,
            shadow_spp: 3,
            distributed_tracing: true,
            recursion_depth: 3,
            denoise: true,
            dither: false,
            multi_thread: true,
            reflections: true,
            refractions: true,
            shadows: true,
            textures: true,
            skybox: true,
        }
    }
}

impl RenderConfig {
    /// What `default` returns.
    pub open spec fn spec_default() -> RenderConfig {
        RenderConfig {
            reflection_spp: 3,
            refraction_spp: 3,
            shadow_spp: 3,
            distributed_tracing: true,
            recursion_depth: 3,
            denoise: true,
            dither: false,
            multi_thread: true,
            reflections: true,
            refractions: true,
            shadows: true,
            textures: true,
            skybox: true,
        }
    }
}

} // verus!
