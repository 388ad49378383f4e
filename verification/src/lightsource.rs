//! Point lights and their visibility-weighted contribution.

use crate::bvh::spec_traverse;
use crate::fixed;
use crate::fixed::{fx_add, fx_div_int};
use crate::ray::Ray;
use crate::sampler::{spec_jitter_vec_of, spec_state_after_vec, Sampler};
use crate::scene::RenderData;
use crate::shape::Intersection;
use crate::vectors::Vec3;
use vstd::prelude::*;

verus! {

/// How far along the surface normal a shadow ray starts, to avoid hitting
/// the surface it leaves from.
pub const SHADOW_BIAS: i64 = 66;

/// The jitter applied to shadow rays under distributed tracing.
pub const SHADOW_BLUR: i64 = 9830;

/// A point light: a position radiating one color in all directions.
#[derive(Debug, Clone, Copy, PartialEq, Eq, Structural)]
pub struct PointLight {
    pub origin: Vec3,
    pub color: Vec3,
}

/// The closed set of light sources a scene can hold.
#[derive(Debug, Clone, Copy, PartialEq, Eq, Structural)]
pub enum Lightsource {
    Point(PointLight),
}

/// How many shadow samples one light draws, and how blurred they are.
pub open spec fn spec_shadow_samples(scene: RenderData) -> (nat, i64) {
    if scene.config.distributed_tracing {
        (
            if scene.config.shadow_spp >= 0 {
                scene.config.shadow_spp as nat
            } else {
                0
            },
            SHADOW_BLUR,
        )
    } else {
        (1, 0)
    }
}

/// The remaining shadow samples of `spec_luminosity`, folded front to
/// back: each sample draws a jittered direction toward the light, casts a
/// shadow ray from just off the surface, and adds its weighted cosine when
/// nothing stands in the way.
#[verifier::opaque]
pub open spec fn spec_lum_fold(
    light: PointLight,
    scene: RenderData,
    inter: Intersection,
    spp: int,
    blur: i64,
    n: nat,
    s: u64,
    acc: i64,
) -> (i64, u64)
    decreases n,
{
    if n == 0 {
        (acc, s)
    } else {
        let jit = spec_jitter_vec_of(s, blur);
        let s1 = spec_state_after_vec(s);
        let light_ray = light.origin.spec_vsub(inter.origin).spec_normalized().spec_rotate(jit);
        let shadow_ray = Ray::spec_new(
            inter.origin.spec_vadd(inter.normal.spec_scale(SHADOW_BIAS as int)),
            light_ray,
            0,
        );
        let blocked = scene.config.shadows && spec_traverse(
            scene.bvh.spec_tree(),
            scene.bvh.spec_primitives(),
            shadow_ray,
        ) is Some;
        if blocked {
            spec_lum_fold(light, scene, inter, spp, blur, (n - 1) as nat, s1, acc)
        } else {
            let dot = inter.normal.spec_dot(light_ray);
            let acc2 = if dot >= 0 {
                fixed::spec_add(acc as int, fixed::div_tz(dot, spp)) as i64
            } else {
                acc
            };
            spec_lum_fold(light, scene, inter, spp, blur, (n - 1) as nat, s1, acc2)
        }
    }
}

/// What `luminosity_at` returns for a point light, with the sampler state
/// it leaves behind.
pub open spec fn spec_luminosity(
    light: PointLight,
    scene: RenderData,
    inter: Intersection,
    s: u64,
) -> (i64, u64) {
    let (n, blur) = spec_shadow_samples(scene);
    spec_lum_fold(light, scene, inter, n as int, blur, n, s, 0)
}

impl PointLight {
    /// The average visibility-weighted cosine of the light at a hit:
    /// the fraction of unoccluded shadow samples, each weighted by
    /// `max(0, normal . light direction)`.
    pub fn luminosity_at(
        &self,
        scene: &RenderData,
        inter: &Intersection,
        sampler: &mut Sampler,
    ) -> (amt: i64)
        requires
            scene.wf(),
        ensures
            (amt, final(sampler).state) == spec_luminosity(
                *self,
                *scene,
                *inter,
                old(sampler).state,
            ),
    {
        let (spp, blurriness): (i32, i64) = if scene.config.distributed_tracing {
            (scene.config.shadow_spp, SHADOW_BLUR)
        } else {
            (1, 0)
        };
        let n: u32 = if spp >= 0 {
            spp as u32
        } else {
            0
        };
        let ghost total = n as nat;
        let ghost s0 = sampler.state;
        let mut amt: i64 = 0;
        let mut k: u32 = 0;
        while k < n
            invariant
                scene.wf(),
                k <= n,
                spp >= 0 ==> n == spp,
                spp < 0 ==> n == 0,
                spec_lum_fold(
                    *self,
                    *scene,
                    *inter,
                    n as int,
                    blurriness,
                    total,
                    s0,
                    0,
                ) == spec_lum_fold(
                    *self,
                    *scene,
                    *inter,
                    n as int,
                    blurriness,
                    (n - k) as nat,
                    sampler.state,
                    amt,
                ),
                total == n as nat,
            decreases n - k,
        {
            proof {
                reveal(spec_lum_fold);
            }
            let jit = sampler.jitter_vec(blurriness);
            let light_ray = self.origin.sub(inter.origin).normalized().rotate(jit);
            let shadow_ray = Ray::new(
                inter.origin.add(inter.normal.scale(SHADOW_BIAS)),
                light_ray,
                0,
            );
            let blocked = scene.config.shadows && scene.bvh.intersect(&shadow_ray).is_some();
            if !blocked {
                let dot = inter.normal.dot(&light_ray);
                if dot >= 0 {
                    amt = fx_add(amt, fx_div_int(dot, spp as i64));
                }
            }
            k = k + 1;
        }
        proof {
            reveal(spec_lum_fold);
        }
        amt
    }

    /// The light's color.
    pub fn color(&self) -> (c: Vec3)
        ensures
            c == self.color,
    {
        self.color
    }
}

impl Lightsource {
    /// What `luminosity_at` returns, by light kind.
    pub open spec fn spec_luminosity_at(self, scene: RenderData, inter: Intersection, s: u64) -> (
        i64,
        u64,
    ) {
        match self {
            Lightsource::Point(l) => spec_luminosity(l, scene, inter, s),
        }
    }

    /// The fraction of the light that reaches a hit, cosine-weighted.
    pub fn luminosity_at(
        &self,
        scene: &RenderData,
        inter: &Intersection,
        sampler: &mut Sampler,
    ) -> (amt: i64)
        requires
            scene.wf(),
        ensures
            (amt, final(sampler).state) == self.spec_luminosity_at(
                *scene,
                *inter,
                old(sampler).state,
            ),
    {
        match self {
            Lightsource::Point(l) => l.luminosity_at(scene, inter, sampler),
        }
    }

    /// The light's color, by light kind.
    pub open spec fn spec_color(self) -> Vec3 {
        match self {
            Lightsource::Point(l) => l.color,
        }
    }

    /// The light's color.
    pub fn color(&self) -> (c: Vec3)
        ensures
            c == self.spec_color(),
    {
        match self {
            Lightsource::Point(l) => l.color(),
        }
    }
}

} // verus!
