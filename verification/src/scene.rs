//! The scene, the render data derived from it, and the radiance evaluator.

use crate::bvh::{lift_hit, spec_traverse, BVHAccel, BVHConstructionAlgorithm, BVHLinearTree};
use crate::camera::PerspectiveCamera;
use crate::fixed;
use crate::fixed::{fx_div, fx_mul, SCALE};
use crate::lightsource::Lightsource;
use crate::material::{MatTex, Material};
use crate::ray::Ray;
use crate::render_config::RenderConfig;
use crate::shape::{Intersection, Shape};
use crate::skybox::Skybox;
use crate::texture_map::TextureMap;
use crate::vectors::{Vec2, Vec3};
use vstd::prelude::*;

verus! {

/// The albedo used when textures are off or a texture cannot answer.
pub const FALLBACK_GREY: i64 = 8323072;

/// A scene as assembled by the caller: shapes and lights still in their
/// original order, before any acceleration structure exists.
pub struct Scene {
    pub camera: PerspectiveCamera,
    pub skybox: Skybox,
    pub config: RenderConfig,
    pub shapes: Vec<Shape>,
    pub lights: Vec<Lightsource>,
}

/// Everything a render needs, read-only once built: the flattened tree
/// over the reordered shapes, the lights, the environment, the textures,
/// the camera and the configuration.
pub struct RenderData {
    pub bvh: BVHLinearTree,
    pub lights: Vec<Lightsource>,
    pub skybox: Skybox,
    pub texture_map: TextureMap,
    pub camera: PerspectiveCamera,
    pub config: RenderConfig,
}

impl RenderData {
    /// Sound render data: a sound tree and consistent textures.
    pub open spec fn wf(self) -> bool {
        &&& self.bvh.wf()
        &&& self.texture_map.wf()
    }
}

/// The hit the scene's tree reports for a ray.
#[verifier::opaque]
pub open spec fn spec_cast(scene: RenderData, ray: Ray) -> Option<(Intersection, int)> {
    spec_traverse(scene.bvh.spec_tree(), scene.bvh.spec_primitives(), ray)
}

impl Ray {
    /// Use the flattened tree to find the nearest intersection.
    pub fn cast(&self, scene: &RenderData) -> (r: Option<(Intersection, usize)>)
        requires
            scene.wf(),
        ensures
            lift_hit(r) == spec_cast(*scene, *self),
            r matches Some((it, idx)) ==> idx < scene.bvh.spec_primitives().len(),
    {
        proof {
            reveal(spec_cast);
        }
        scene.bvh.intersect(self)
    }
}

/// What the surface's base color resolves to: a constant color directly;
/// a texture through the texture map, addressed by the hit's UV scaled
/// into the image, falling back to grey when textures are off or the
/// handle or image cannot answer.
#[verifier::opaque]
pub open spec fn spec_albedo(mat: Material, inter: Intersection, scene: RenderData) -> Vec3 {
    match mat.texture {
        MatTex::Color(col) => col,
        MatTex::Texture { handle, scaling } => {
            if scene.config.textures {
                if handle < scene.texture_map.textures@.len() {
                    let img = scene.texture_map.textures@[handle as int];
                    if img.width > 0 && img.height > 0 {
                        let x = fixed::spec_floor_u32(
                            fixed::spec_div(
                                fixed::spec_mul(
                                    inter.text_pos.x as int,
                                    fixed::spec_of_count(img.width as int),
                                ),
                                scaling.x as int,
                            ),
                        ) as int % (img.width as int);
                        let y = fixed::spec_floor_u32(
                            fixed::spec_div(
                                fixed::spec_mul(
                                    inter.text_pos.y as int,
                                    fixed::spec_of_count(img.height as int),
                                ),
                                scaling.y as int,
                            ),
                        ) as int % (img.height as int);
                        img.spec_pixel(x, y).spec_to_color()
                    } else {
                        Vec3 { x: FALLBACK_GREY, y: FALLBACK_GREY, z: FALLBACK_GREY }
                    }
                } else {
                    Vec3 { x: FALLBACK_GREY, y: FALLBACK_GREY, z: FALLBACK_GREY }
                }
            } else {
                Vec3 { x: FALLBACK_GREY, y: FALLBACK_GREY, z: FALLBACK_GREY }
            }
        },
    }
}

/// Resolve the surface's base color at a hit.
pub fn resolve_albedo(mat: &Material, inter: &Intersection, scene: &RenderData) -> (c: Vec3)
    requires
        scene.wf(),
    ensures
        c == spec_albedo(*mat, *inter, *scene),
{
    proof {
        reveal(spec_albedo);
    }
    match &mat.texture {
        MatTex::Color(col) => *col,
        MatTex::Texture { handle, scaling } => {
            if scene.config.textures {
                match scene.texture_map.get_image_by_handle(*handle) {
                    Ok(img) => {
                        if img.width > 0 && img.height > 0 {
                            let x = fixed::fx_floor_u32(
                                fx_div(
                                    fx_mul(inter.text_pos.x, fixed::fx_of_count(img.width)),
                                    scaling.x,
                                ),
                            ) as usize % img.width;
                            let y = fixed::fx_floor_u32(
                                fx_div(
                                    fx_mul(inter.text_pos.y, fixed::fx_of_count(img.height)),
                                    scaling.y,
                                ),
                            ) as usize % img.height;
                            img.get_pixel(x, y).to_color()
                        } else {
                            Vec3 { x: FALLBACK_GREY, y: FALLBACK_GREY, z: FALLBACK_GREY }
                        }
                    },
                    Err(_) => Vec3 { x: FALLBACK_GREY, y: FALLBACK_GREY, z: FALLBACK_GREY },
                }
            } else {
                Vec3 { x: FALLBACK_GREY, y: FALLBACK_GREY, z: FALLBACK_GREY }
            }
        },
    }
}

/// How far along the surface normal a secondary ray starts, to avoid
/// re-hitting the surface it bounces off.
pub const BOUNCE_BIAS: i64 = 655;

/// A per-effect sample count as a fixed-point divisor.
fn spp_divisor(spp: i32) -> (r: i64)
    ensures
        r as int == (spp as int) * (SCALE as int),
{
    proof {
        assert(-0x8000_0000 * 65536 <= (spp as int) * (SCALE as int) <= 0x8000_0000
            * 65536) by (nonlinear_arith)
            requires
                SCALE as int == 65536,
                -0x8000_0000 <= spp as int <= 0x7fff_ffff,
        ;
    }
    (spp as i64) * SCALE
}

/// How many secondary samples a glossy bounce draws, and how blurred they
/// are: one sharp sample unless distributed tracing is on, in which case
/// the material's blurriness decides.
pub open spec fn spec_bounce_samples(scene: RenderData, mat: Material) -> (i32, i64) {
    if scene.config.distributed_tracing {
        if mat.reflectivity.blurriness == 0 {
            (1, mat.reflectivity.blurriness)
        } else {
            (scene.config.reflection_spp, mat.reflectivity.blurriness)
        }
    } else {
        (1, 0)
    }
}

/// A sample count clamped to zero iterations when negative.
pub open spec fn spec_times(spp: i32) -> nat {
    if spp >= 0 {
        spp as nat
    } else {
        0
    }
}

/// The diffuse term folded over the lights in order: each light adds the
/// albedo, tinted by the light's color, weighted by its visibility.
#[verifier::opaque]
pub open spec fn spec_diffuse_fold(
    scene: RenderData,
    inter: Intersection,
    orig_color: Vec3,
    i: int,
    s: u64,
    acc: Vec3,
) -> (Vec3, u64)
    decreases scene.lights@.len() - i,
{
    if i < 0 || i >= scene.lights@.len() {
        (acc, s)
    } else {
        let light = scene.lights@[i];
        let (lum, s1) = light.spec_luminosity_at(scene, inter, s);
        let acc2 = acc.spec_vadd(
            orig_color.spec_vmul(light.spec_color().spec_vdiv(255 * SCALE as int)).spec_scale(
                lum as int,
            ),
        );
        spec_diffuse_fold(scene, inter, orig_color, i + 1, s1, acc2)
    }
}

/// One bundle of secondary rays folded in order: each sample jitters the
/// base direction, casts, and adds what comes back — the evaluated color,
/// or the environment on a miss when the skybox is on. A glossy bounce
/// divides every sample as it lands; a refracted bundle is divided once,
/// by the caller, after the fold.
#[verifier::opaque]
pub open spec fn spec_bounce_fold(
    scene: RenderData,
    base_origin: Vec3,
    base_dir: Vec3,
    blur: i64,
    level: u32,
    spp: i32,
    divide_each: bool,
    n: nat,
    s: u64,
    col: Vec3,
) -> (Vec3, u64)
    decreases level, 1int, n,
{
    if n == 0 {
        (col, s)
    } else {
        let jit = crate::sampler::spec_jitter_vec_of(s, blur);
        let s1 = crate::sampler::spec_state_after_vec(s);
        let dir = base_dir.spec_rotate(jit);
        let sub_ray = Ray::spec_new(base_origin, dir, level);
        let (sub_col, s2) = spec_color_function(sub_ray, spec_cast(scene, sub_ray), scene, s1);
        let col2 = match sub_col {
            Some(c) => if divide_each {
                col.spec_vadd(c.spec_vdiv((spp as int) * (SCALE as int)))
            } else {
                col.spec_vadd(c)
            },
            None => if scene.config.skybox {
                let sb = match scene.skybox.spec_calc_color(scene.texture_map, dir) {
                    Some(c) => c,
                    None => Vec3 { x: 0, y: 0, z: 0 },
                };
                if divide_each {
                    col.spec_vadd(sb.spec_vdiv((spp as int) * (SCALE as int)))
                } else {
                    col.spec_vadd(sb)
                }
            } else {
                col
            },
        };
        spec_bounce_fold(
            scene,
            base_origin,
            base_dir,
            blur,
            level,
            spp,
            divide_each,
            (n - 1) as nat,
            s2,
            col2,
        )
    }
}

/// The refracted contribution at a hit: nothing while the budget is spent,
/// the surface opaque, or refractions off; otherwise a bundle along the
/// simplified bent direction, averaged over its sample count.
#[verifier::opaque]
pub open spec fn spec_refraction(
    ray: Ray,
    inter: Intersection,
    mat: Material,
    scene: RenderData,
    s: u64,
) -> (Vec3, u64)
    decreases ray.level, 0int, 1int,
{
    if ray.level == 0 || mat.transparency.amount <= 0 || !scene.config.refractions {
        (Vec3 { x: 0, y: 0, z: 0 }, s)
    } else {
        let n_dot_d = inter.normal.spec_dot(ray.direction) as i64;
        let (spp, blur) = spec_bounce_samples(scene, mat);
        let eta = fixed::spec_sub(
            2 * SCALE as int,
            mat.transparency.index_of_refraction as int,
        ) as i64;
        let o = ray.direction.spec_scale(eta as int).spec_vsub(
            inter.normal.spec_scale(
                fixed::spec_add(
                    fixed::spec_neg(n_dot_d as int),
                    fixed::spec_mul(eta as int, n_dot_d as int),
                ),
            ),
        );
        let origin = inter.origin.spec_vsub(inter.normal.spec_scale(BOUNCE_BIAS as int));
        let (total, sx) = spec_bounce_fold(
            scene,
            origin,
            o,
            blur,
            (ray.level - 1) as u32,
            spp,
            false,
            spec_times(spp),
            s,
            Vec3 { x: 0, y: 0, z: 0 },
        );
        (total.spec_vdiv((spp as int) * (SCALE as int)), sx)
    }
}

/// The reflected contribution at a hit: nothing while the budget is spent,
/// the surface matte, or reflections off; otherwise a mirrored bundle,
/// every sample averaged as it lands.
#[verifier::opaque]
pub open spec fn spec_reflection(
    ray: Ray,
    inter: Intersection,
    mat: Material,
    scene: RenderData,
    s: u64,
) -> (Vec3, u64)
    decreases ray.level, 0int, 1int,
{
    if ray.level == 0 || mat.reflectivity.amount <= 0 || !scene.config.reflections {
        (Vec3 { x: 0, y: 0, z: 0 }, s)
    } else {
        let n_dot_d = inter.normal.spec_dot(ray.direction) as i64;
        let (spp, blur) = spec_bounce_samples(scene, mat);
        let reflection_dir = ray.direction.spec_vsub(
            inter.normal.spec_scale(fixed::spec_mul(n_dot_d as int, 2 * SCALE as int)),
        );
        let origin = inter.origin.spec_vadd(inter.normal.spec_scale(BOUNCE_BIAS as int));
        spec_bounce_fold(
            scene,
            origin,
            reflection_dir,
            blur,
            (ray.level - 1) as u32,
            spp,
            true,
            spec_times(spp),
            s,
            Vec3 { x: 0, y: 0, z: 0 },
        )
    }
}

/// The four shading terms combined: each clamped to the valid color range,
/// scaled by its coefficient, and summed. The coefficients are not asked
/// to sum to one unit; the model is deliberately not energy conserving.
pub open spec fn spec_combine(
    orig_color: Vec3,
    diff_color: Vec3,
    refl_color: Vec3,
    refr_color: Vec3,
    mat: Material,
) -> Vec3 {
    orig_color.spec_clamp_as_color().spec_scale(mat.c_ambient as int).spec_vadd(
        diff_color.spec_clamp_as_color().spec_scale(mat.c_diffuse as int),
    ).spec_vadd(
        refl_color.spec_clamp_as_color().spec_scale(mat.reflectivity.amount as int),
    ).spec_vadd(refr_color.spec_clamp_as_color().spec_scale(mat.transparency.amount as int))
}

/// What evaluating a ray at a hit returns, with the sampler state left
/// behind. A miss is nothing — the caller decides what a miss means. At a
/// hit: the albedo; the summed, visibility-weighted diffuse light; then,
/// spent only while the recursion budget lasts, one refracted and one
/// reflected bundle of secondary rays; combined by `spec_combine`.
#[verifier::opaque]
pub open spec fn spec_color_function(
    ray: Ray,
    hit: Option<(Intersection, int)>,
    scene: RenderData,
    s: u64,
) -> (Option<Vec3>, u64)
    decreases ray.level, 0int, 2int,
{
    match hit {
        None => (None, s),
        Some((inter, idx)) => {
            let mat = scene.bvh.spec_primitives()[idx].spec_mat();
            let orig_color = spec_albedo(mat, inter, scene);
            let (diff_color, s1) = spec_diffuse_fold(
                scene,
                inter,
                orig_color,
                0,
                s,
                Vec3 { x: 0, y: 0, z: 0 },
            );
            let (refr_color, s2) = spec_refraction(ray, inter, mat, scene, s1);
            let (refl_color, s3) = spec_reflection(ray, inter, mat, scene, s2);
            (Some(spec_combine(orig_color, diff_color, refl_color, refr_color, mat)), s3)
        },
    }
}

/// An exhausted diffuse fold returns its accumulator.
proof fn lemma_diffuse_fold_done(
    scene: RenderData,
    inter: Intersection,
    orig_color: Vec3,
    i: int,
    s: u64,
    acc: Vec3,
)
    requires
        i >= scene.lights@.len(),
    ensures
        spec_diffuse_fold(scene, inter, orig_color, i, s, acc) == (acc, s),
{
    reveal(spec_diffuse_fold);
}

/// One step of the diffuse fold, spelled out.
proof fn lemma_diffuse_fold_step(
    scene: RenderData,
    inter: Intersection,
    orig_color: Vec3,
    i: int,
    s: u64,
    acc: Vec3,
)
    requires
        0 <= i < scene.lights@.len(),
    ensures
        spec_diffuse_fold(scene, inter, orig_color, i, s, acc) == ({
            let light = scene.lights@[i];
            let (lum, s1) = light.spec_luminosity_at(scene, inter, s);
            let acc2 = acc.spec_vadd(
                orig_color.spec_vmul(light.spec_color().spec_vdiv(255 * SCALE as int)).spec_scale(
                    lum as int,
                ),
            );
            spec_diffuse_fold(scene, inter, orig_color, i + 1, s1, acc2)
        }),
{
    reveal(spec_diffuse_fold);
}

/// An exhausted bounce fold returns its accumulator.
proof fn lemma_bounce_fold_done(
    scene: RenderData,
    base_origin: Vec3,
    base_dir: Vec3,
    blur: i64,
    level: u32,
    spp: i32,
    divide_each: bool,
    s: u64,
    col: Vec3,
)
    ensures
        spec_bounce_fold(scene, base_origin, base_dir, blur, level, spp, divide_each, 0, s, col)
            == (col, s),
{
    reveal_with_fuel(spec_color_function, 2);
    reveal_with_fuel(spec_bounce_fold, 2);
    reveal_with_fuel(spec_refraction, 2);
    reveal_with_fuel(spec_reflection, 2);
}

/// One step of the bounce fold, spelled out.
proof fn lemma_bounce_fold_step(
    scene: RenderData,
    base_origin: Vec3,
    base_dir: Vec3,
    blur: i64,
    level: u32,
    spp: i32,
    divide_each: bool,
    n: nat,
    s: u64,
    col: Vec3,
)
    requires
        n > 0,
    ensures
        spec_bounce_fold(scene, base_origin, base_dir, blur, level, spp, divide_each, n, s, col)
            == ({
            let jit = crate::sampler::spec_jitter_vec_of(s, blur);
            let s1 = crate::sampler::spec_state_after_vec(s);
            let dir = base_dir.spec_rotate(jit);
            let sub_ray = Ray::spec_new(base_origin, dir, level);
            let (sub_col, s2) = spec_color_function(sub_ray, spec_cast(scene, sub_ray), scene, s1);
            let col2 = match sub_col {
                Some(c) => if divide_each {
                    col.spec_vadd(c.spec_vdiv((spp as int) * (SCALE as int)))
                } else {
                    col.spec_vadd(c)
                },
                None => if scene.config.skybox {
                    let sb = match scene.skybox.spec_calc_color(scene.texture_map, dir) {
                        Some(c) => c,
                        None => Vec3 { x: 0, y: 0, z: 0 },
                    };
                    if divide_each {
                        col.spec_vadd(sb.spec_vdiv((spp as int) * (SCALE as int)))
                    } else {
                        col.spec_vadd(sb)
                    }
                } else {
                    col
                },
            };
            spec_bounce_fold(
                scene,
                base_origin,
                base_dir,
                blur,
                level,
                spp,
                divide_each,
                (n - 1) as nat,
                s2,
                col2,
            )
        }),
{
    reveal_with_fuel(spec_color_function, 2);
    reveal_with_fuel(spec_bounce_fold, 2);
    reveal_with_fuel(spec_refraction, 2);
    reveal_with_fuel(spec_reflection, 2);
}

/// The refracted term, spelled out.
proof fn lemma_refraction_unfold(
    ray: Ray,
    inter: Intersection,
    mat: Material,
    scene: RenderData,
    s: u64,
)
    ensures
        spec_refraction(ray, inter, mat, scene, s) == (if ray.level == 0 || mat.transparency.amount
            <= 0 || !scene.config.refractions {
            (Vec3 { x: 0, y: 0, z: 0 }, s)
        } else {
            let n_dot_d = inter.normal.spec_dot(ray.direction) as i64;
            let (spp, blur) = spec_bounce_samples(scene, mat);
            let eta = fixed::spec_sub(
                2 * SCALE as int,
                mat.transparency.index_of_refraction as int,
            ) as i64;
            let o = ray.direction.spec_scale(eta as int).spec_vsub(
                inter.normal.spec_scale(
                    fixed::spec_add(
                        fixed::spec_neg(n_dot_d as int),
                        fixed::spec_mul(eta as int, n_dot_d as int),
                    ),
                ),
            );
            let origin = inter.origin.spec_vsub(inter.normal.spec_scale(BOUNCE_BIAS as int));
            let (total, sx) = spec_bounce_fold(
                scene,
                origin,
                o,
                blur,
                (ray.level - 1) as u32,
                spp,
                false,
                spec_times(spp),
                s,
                Vec3 { x: 0, y: 0, z: 0 },
            );
            (total.spec_vdiv((spp as int) * (SCALE as int)), sx)
        }),
{
    reveal_with_fuel(spec_color_function, 2);
    reveal_with_fuel(spec_bounce_fold, 2);
    reveal_with_fuel(spec_refraction, 2);
    reveal_with_fuel(spec_reflection, 2);
}

/// The reflected term, spelled out.
proof fn lemma_reflection_unfold(
    ray: Ray,
    inter: Intersection,
    mat: Material,
    scene: RenderData,
    s: u64,
)
    ensures
        spec_reflection(ray, inter, mat, scene, s) == (if ray.level == 0 || mat.reflectivity.amount
            <= 0 || !scene.config.reflections {
            (Vec3 { x: 0, y: 0, z: 0 }, s)
        } else {
            let n_dot_d = inter.normal.spec_dot(ray.direction) as i64;
            let (spp, blur) = spec_bounce_samples(scene, mat);
            let reflection_dir = ray.direction.spec_vsub(
                inter.normal.spec_scale(fixed::spec_mul(n_dot_d as int, 2 * SCALE as int)),
            );
            let origin = inter.origin.spec_vadd(inter.normal.spec_scale(BOUNCE_BIAS as int));
            spec_bounce_fold(
                scene,
                origin,
                reflection_dir,
                blur,
                (ray.level - 1) as u32,
                spp,
                true,
                spec_times(spp),
                s,
                Vec3 { x: 0, y: 0, z: 0 },
            )
        }),
{
    reveal_with_fuel(spec_color_function, 2);
    reveal_with_fuel(spec_bounce_fold, 2);
    reveal_with_fuel(spec_refraction, 2);
    reveal_with_fuel(spec_reflection, 2);
}

/// The whole evaluation, spelled out over its opaque pieces.
proof fn lemma_color_function_unfold(
    ray: Ray,
    hit: Option<(Intersection, int)>,
    scene: RenderData,
    s: u64,
)
    ensures
        spec_color_function(ray, hit, scene, s) == (match hit {
            None => (None::<Vec3>, s),
            Some((inter, idx)) => {
                let mat = scene.bvh.spec_primitives()[idx].spec_mat();
                let orig_color = spec_albedo(mat, inter, scene);
                let (diff_color, s1) = spec_diffuse_fold(
                    scene,
                    inter,
                    orig_color,
                    0,
                    s,
                    Vec3 { x: 0, y: 0, z: 0 },
                );
                let (refr_color, s2) = spec_refraction(ray, inter, mat, scene, s1);
                let (refl_color, s3) = spec_reflection(ray, inter, mat, scene, s2);
                (Some(spec_combine(orig_color, diff_color, refl_color, refr_color, mat)), s3)
            },
        }),
{
    reveal_with_fuel(spec_color_function, 2);
    reveal_with_fuel(spec_bounce_fold, 2);
    reveal_with_fuel(spec_refraction, 2);
    reveal_with_fuel(spec_reflection, 2);
}

impl Ray {
    /// Evaluate the radiance this ray carries back from a hit.
    pub fn color_function(
        &self,
        hit: Option<(Intersection, usize)>,
        scene: &RenderData,
        sampler: &mut crate::sampler::Sampler,
    ) -> (r: Option<Vec3>)
        requires
            scene.wf(),
            hit matches Some((it, idx)) ==> idx < scene.bvh.spec_primitives().len(),
        ensures
            (r, final(sampler).state) == spec_color_function(
                *self,
                lift_hit(hit),
                *scene,
                old(sampler).state,
            ),
        decreases self.level, 0int, 2int,
    {
        let (inter, idx) = match hit {
            None => {
                proof {
                    lemma_color_function_unfold(*self, lift_hit(hit), *scene, old(sampler).state);
                }
                return None;
            },
            Some(h) => h,
        };
        let mat = *scene.bvh.primitives[idx].mat();
        let orig_color = resolve_albedo(&mat, &inter, scene);
        // Direct lighting, light by light.
        let ghost s_in = sampler.state;
        let mut diff_color = Vec3::origin();
        let mut li: usize = 0;
        let light_count = scene.lights.len();
        while li < light_count
            invariant
                scene.wf(),
                li <= light_count,
                light_count == scene.lights@.len(),
                spec_diffuse_fold(*scene, inter, orig_color, li as int, sampler.state, diff_color)
                    == spec_diffuse_fold(
                    *scene,
                    inter,
                    orig_color,
                    0,
                    s_in,
                    Vec3 { x: 0, y: 0, z: 0 },
                ),
            decreases light_count - li,
        {
            let light = scene.lights[li];
            let ghost pre_state = sampler.state;
            let ghost pre_diff = diff_color;
            let lum = light.luminosity_at(scene, &inter, sampler);
            diff_color = diff_color.add(
                orig_color.mul(light.color().div(255 * SCALE)).scale(lum),
            );
            proof {
                lemma_diffuse_fold_step(*scene, inter, orig_color, li as int, pre_state, pre_diff);
            }
            li = li + 1;
        }
        proof {
            lemma_diffuse_fold_done(
                *scene,
                inter,
                orig_color,
                li as int,
                sampler.state,
                diff_color,
            );
        }
        let n_dot_d = inter.normal.dot(&self.direction);
        // Refraction: a bent bundle through the surface, averaged.
        let ghost s1 = sampler.state;
        let refr_color = if self.level == 0 || !mat.transparency.is_transparent()
            || !scene.config.refractions {
            Vec3::origin()
        } else {
            let (spp, blur) = bounce_samples(scene, &mat);
            let eta = fixed::fx_sub(2 * SCALE, mat.transparency.index_of_refraction);
            let o = self.direction.scale(eta).sub(
                inter.normal.scale(fixed::fx_add(fixed::fx_neg(n_dot_d), fx_mul(eta, n_dot_d))),
            );
            let origin = inter.origin.sub(inter.normal.scale(BOUNCE_BIAS));
            let total = bounce_bundle(
                scene,
                origin,
                o,
                blur,
                self.level - 1,
                spp,
                false,
                sampler,
            );
            total.div(spp_divisor(spp))
        };
        proof {
            lemma_refraction_unfold(*self, inter, mat, *scene, s1);
            assert((refr_color, sampler.state) == spec_refraction(*self, inter, mat, *scene, s1));
        }
        // Reflection: a mirrored bundle off the surface, each sample
        // already averaged as it lands.
        let ghost s2 = sampler.state;
        let refl_color = if self.level == 0 || !mat.reflectivity.is_reflective()
            || !scene.config.reflections {
            Vec3::origin()
        } else {
            let (spp, blur) = bounce_samples(scene, &mat);
            let reflection_dir = self.direction.sub(
                inter.normal.scale(fx_mul(n_dot_d, 2 * SCALE)),
            );
            let origin = inter.origin.add(inter.normal.scale(BOUNCE_BIAS));
            bounce_bundle(
                scene,
                origin,
                reflection_dir,
                blur,
                self.level - 1,
                spp,
                true,
                sampler,
            )
        };
        proof {
            lemma_reflection_unfold(*self, inter, mat, *scene, s2);
            assert((refl_color, sampler.state) == spec_reflection(*self, inter, mat, *scene, s2));
        }
        let result = spec_combine_exec(orig_color, diff_color, refl_color, refr_color, &mat);
        proof {
            lemma_color_function_unfold(*self, lift_hit(hit), *scene, old(sampler).state);
        }
        Some(result)
    }
}

/// With the recursion budget already spent, evaluation keeps the direct
/// terms but the reflected and refracted terms contribute exactly zero:
/// the answer is the clamped albedo times the ambient coefficient plus the
/// clamped diffuse sum times the diffuse coefficient, and nothing else.
pub proof fn lemma_budget_zero_no_bounces(
    ray: Ray,
    hit: Option<(Intersection, int)>,
    scene: RenderData,
    s: u64,
)
    requires
        ray.level == 0,
    ensures
        spec_color_function(ray, hit, scene, s) == (match hit {
            None => (None::<Vec3>, s),
            Some((inter, idx)) => {
                let mat = scene.bvh.spec_primitives()[idx].spec_mat();
                let orig_color = spec_albedo(mat, inter, scene);
                let (diff_color, s1) = spec_diffuse_fold(
                    scene,
                    inter,
                    orig_color,
                    0,
                    s,
                    Vec3 { x: 0, y: 0, z: 0 },
                );
                (
                    Some(
                        orig_color.spec_clamp_as_color().spec_scale(mat.c_ambient as int).spec_vadd(
                            diff_color.spec_clamp_as_color().spec_scale(mat.c_diffuse as int),
                        ),
                    ),
                    s1,
                )
            },
        }),
{
    reveal_with_fuel(spec_color_function, 2);
    reveal_with_fuel(spec_bounce_fold, 2);
    reveal_with_fuel(spec_refraction, 2);
    reveal_with_fuel(spec_reflection, 2);
    match hit {
        None => {},
        Some((inter, idx)) => {
            let mat = scene.bvh.spec_primitives()[idx].spec_mat();
            let orig_color = spec_albedo(mat, inter, scene);
            let (diff_color, s1) = spec_diffuse_fold(
                scene,
                inter,
                orig_color,
                0,
                s,
                Vec3 { x: 0, y: 0, z: 0 },
            );
            // A zero budget shuts both bounce terms off, and a zero vector
            // scaled by any coefficient stays zero, adding nothing.
            assert(spec_refraction(ray, inter, mat, scene, s1) == (Vec3 { x: 0, y: 0, z: 0 }, s1));
            assert(spec_reflection(ray, inter, mat, scene, s1) == (Vec3 { x: 0, y: 0, z: 0 }, s1));
            let zero = Vec3 { x: 0, y: 0, z: 0 };
            let direct = orig_color.spec_clamp_as_color().spec_scale(mat.c_ambient as int)
                .spec_vadd(diff_color.spec_clamp_as_color().spec_scale(mat.c_diffuse as int));
            assert(zero.spec_clamp_as_color() == zero);
            assert(zero.spec_scale(mat.reflectivity.amount as int) == zero);
            assert(zero.spec_scale(mat.transparency.amount as int) == zero);
            assert(direct.spec_vadd(zero) == direct);
            assert(direct.spec_vadd(zero).spec_vadd(zero) == direct);
            assert(spec_combine(orig_color, diff_color, zero, zero, mat) == direct);
        },
    }
}

/// Combine the four shading terms.
fn spec_combine_exec(
    orig_color: Vec3,
    diff_color: Vec3,
    refl_color: Vec3,
    refr_color: Vec3,
    mat: &Material,
) -> (r: Vec3)
    ensures
        r == spec_combine(orig_color, diff_color, refl_color, refr_color, *mat),
{
    orig_color.clamp_as_color().scale(mat.c_ambient).add(
        diff_color.clamp_as_color().scale(mat.c_diffuse),
    ).add(refl_color.clamp_as_color().scale(mat.reflectivity.amount)).add(
        refr_color.clamp_as_color().scale(mat.transparency.amount),
    )
}

/// The per-bounce sample count and blurriness for this material.
fn bounce_samples(scene: &RenderData, mat: &Material) -> (r: (i32, i64))
    ensures
        r == spec_bounce_samples(*scene, *mat),
{
    if scene.config.distributed_tracing {
        if mat.reflectivity.blurriness == 0 {
            (1, mat.reflectivity.blurriness)
        } else {
            (scene.config.reflection_spp, mat.reflectivity.blurriness)
        }
    } else {
        (1, 0)
    }
}

/// Fire one bundle of jittered secondary rays and fold their colors.
#[verifier::rlimit(100)]
fn bounce_bundle(
    scene: &RenderData,
    base_origin: Vec3,
    base_dir: Vec3,
    blur: i64,
    level: u32,
    spp: i32,
    divide_each: bool,
    sampler: &mut crate::sampler::Sampler,
) -> (col: Vec3)
    requires
        scene.wf(),
    ensures
        (col, final(sampler).state) == spec_bounce_fold(
            *scene,
            base_origin,
            base_dir,
            blur,
            level,
            spp,
            divide_each,
            spec_times(spp),
            old(sampler).state,
            Vec3 { x: 0, y: 0, z: 0 },
        ),
    decreases level, 1int, 0int,
{
    let n: u32 = if spp >= 0 {
        spp as u32
    } else {
        0
    };
    let ghost s0 = sampler.state;
    let mut col = Vec3::origin();
    let mut k: u32 = 0;
    while k < n
        invariant
            scene.wf(),
            k <= n,
            n == spec_times(spp),
            spec_bounce_fold(
                *scene,
                base_origin,
                base_dir,
                blur,
                level,
                spp,
                divide_each,
                (n - k) as nat,
                sampler.state,
                col,
            ) == spec_bounce_fold(
                *scene,
                base_origin,
                base_dir,
                blur,
                level,
                spp,
                divide_each,
                n as nat,
                s0,
                Vec3 { x: 0, y: 0, z: 0 },
            ),
        decreases n - k,
    {
        let ghost pre_state = sampler.state;
        let ghost pre_col = col;
        let jit = sampler.jitter_vec(blur);
        let dir = base_dir.rotate(jit);
        let sub_ray = Ray::new(base_origin, dir, level);
        let sub_hit = sub_ray.cast(scene);
        let sub_col = sub_ray.color_function(sub_hit, scene, sampler);
        match sub_col {
            Some(c) => {
                if divide_each {
                    col = col.add(c.div(spp_divisor(spp)));
                } else {
                    col = col.add(c);
                }
            },
            None => {
                if scene.config.skybox {
                    let sb = match scene.skybox.calc_color(&scene.texture_map, dir) {
                        Some(c) => c,
                        None => Vec3::origin(),
                    };
                    if divide_each {
                        col = col.add(sb.div(spp_divisor(spp)));
                    } else {
                        col = col.add(sb);
                    }
                }
            },
        }
        proof {
            lemma_bounce_fold_step(
                *scene,
                base_origin,
                base_dir,
                blur,
                level,
                spp,
                divide_each,
                (n - k) as nat,
                pre_state,
                pre_col,
            );
        }
        k = k + 1;
    }
    proof {
        lemma_bounce_fold_done(
            *scene,
            base_origin,
            base_dir,
            blur,
            level,
            spp,
            divide_each,
            sampler.state,
            col,
        );
    }
    col
}

/// A finished pixel of the output buffer.
#[derive(Debug, Clone, Copy, PartialEq, Eq, Structural)]
pub struct Rgba8 {
    pub r: u8,
    pub g: u8,
    pub b: u8,
    pub a: u8,
}

/// A fixed-point color value squeezed into one byte channel.
pub open spec fn spec_channel(v: int) -> u8 {
    fixed::clamp_int(fixed::div_tz(v, SCALE as int), 0, 255) as u8
}

/// Squeeze a fixed-point color value into one byte channel.
fn fx_channel(v: i64) -> (r: u8)
    ensures
        r == spec_channel(v as int),
{
    let q = fixed::fx_div_int(v, SCALE);
    if q < 0 {
        0
    } else if q > 255 {
        255
    } else {
        q as u8
    }
}

/// The sampler seed of one pixel, derived from the render seed and the
/// pixel's position so that rows can be drawn in any order.
pub open spec fn spec_pixel_seed(seed: u64, x: u64, y: u64) -> u64 {
    seed ^ (y << 32) ^ x
}

/// What rendering one pixel produces: a camera ray carrying the full
/// recursion budget, evaluated with a sampler seeded from the pixel's own
/// position; a miss shows the environment when the skybox is on, black
/// otherwise.
pub open spec fn spec_render_pixel(
    scene: RenderData,
    x: int,
    y: int,
    w: int,
    h: int,
    seed: u64,
) -> Rgba8 {
    let ray = scene.camera.spec_project_ray(x, y, w, h, scene.config.recursion_depth);
    let s0 = spec_pixel_seed(seed, x as u64, y as u64);
    let (copt, _) = spec_color_function(ray, spec_cast(scene, ray), scene, s0);
    let col = match copt {
        Some(c) => c,
        None => if scene.config.skybox {
            match scene.skybox.spec_calc_color(scene.texture_map, ray.direction) {
                Some(c) => c,
                None => Vec3 { x: 0, y: 0, z: 0 },
            }
        } else {
            Vec3 { x: 0, y: 0, z: 0 }
        },
    };
    Rgba8 {
        r: spec_channel(col.x as int),
        g: spec_channel(col.y as int),
        b: spec_channel(col.z as int),
        a: 255,
    }
}

/// One whole row of rendered pixels.
pub open spec fn spec_render_row(scene: RenderData, y: int, w: int, h: int, seed: u64) -> Seq<
    Rgba8,
> {
    Seq::new(w as nat, |x: int| spec_render_pixel(scene, x, y, w, h, seed))
}

/// The whole rendered buffer, rows laid out one after another.
pub open spec fn spec_render_buffer(scene: RenderData, w: int, h: int, seed: u64) -> Seq<Rgba8> {
    Seq::new((w * h) as nat, |i: int| spec_render_pixel(scene, i % w, i / w, w, h, seed))
}

/// Whichever disjoint row ranges workers render, each finished row is
/// exactly the matching slice of the whole buffer: the output does not
/// depend on who rendered which row, or in what order.
pub proof fn lemma_rows_assemble(scene: RenderData, y: int, w: int, h: int, seed: u64)
    requires
        0 <= y < h,
        0 < w,
    ensures
        spec_render_buffer(scene, w, h, seed).subrange(y * w, y * w + w) == spec_render_row(
            scene,
            y,
            w,
            h,
            seed,
        ),
{
    assert(0 <= y * w && y * w + w <= w * h) by (nonlinear_arith)
        requires
            0 <= y < h,
            0 < w,
    ;
    assert forall|x: int| 0 <= x < w implies spec_render_buffer(scene, w, h, seed).subrange(
        y * w,
        y * w + w,
    )[x] == spec_render_row(scene, y, w, h, seed)[x] by {
        assert((y * w + x) % w == x && (y * w + x) / w == y) by (nonlinear_arith)
            requires
                0 <= x < w,
                0 <= y,
                0 < w,
        ;
    }
    assert(spec_render_buffer(scene, w, h, seed).subrange(y * w, y * w + w) =~= spec_render_row(
        scene,
        y,
        w,
        h,
        seed,
    ));
}

impl RenderData {
    /// Render one pixel.
    pub fn render_pixel(&self, x: usize, y: usize, w: usize, h: usize, seed: u64) -> (p: Rgba8)
        requires
            self.wf(),
        ensures
            p == spec_render_pixel(*self, x as int, y as int, w as int, h as int, seed),
    {
        let ray = self.camera.project_ray(x, y, w, h, self.config.recursion_depth);
        let mut sampler = crate::sampler::Sampler::new(seed ^ ((y as u64) << 32u64) ^ (x as u64));
        let hit = ray.cast(self);
        let copt = ray.color_function(hit, self, &mut sampler);
        let col = match copt {
            Some(c) => c,
            None => {
                if self.config.skybox {
                    match self.skybox.calc_color(&self.texture_map, ray.direction) {
                        Some(c) => c,
                        None => Vec3::origin(),
                    }
                } else {
                    Vec3::origin()
                }
            },
        };
        Rgba8 { r: fx_channel(col.x), g: fx_channel(col.y), b: fx_channel(col.z), a: 255 }
    }

    /// Render one whole row of the image.
    pub fn render_row(&self, y: usize, w: usize, h: usize, seed: u64) -> (row: Vec<Rgba8>)
        requires
            self.wf(),
        ensures
            row@ == spec_render_row(*self, y as int, w as int, h as int, seed),
    {
        let mut row: Vec<Rgba8> = Vec::new();
        let mut x: usize = 0;
        while x < w
            invariant
                self.wf(),
                x <= w,
                row@.len() == x,
                forall|i: int|
                    0 <= i < x ==> row@[i] == spec_render_pixel(
                        *self,
                        i,
                        y as int,
                        w as int,
                        h as int,
                        seed,
                    ),
            decreases w - x,
        {
            let p = self.render_pixel(x, y, w, h, seed);
            row.push(p);
            x = x + 1;
        }
        proof {
            assert(row@ =~= spec_render_row(*self, y as int, w as int, h as int, seed));
        }
        row
    }

    /// Render the whole image into one buffer, row by row, top row first.
    pub fn new_render(&self, w: usize, h: usize, seed: u64) -> (buf: Vec<Rgba8>)
        requires
            self.wf(),
            w * h <= usize::MAX,
        ensures
            buf@ == spec_render_buffer(*self, w as int, h as int, seed),
    {
        let mut buf: Vec<Rgba8> = Vec::new();
        let mut y: usize = 0;
        while y < h
            invariant
                self.wf(),
                y <= h,
                w * h <= usize::MAX,
                buf@.len() == y * w,
                forall|i: int|
                    0 <= i < y * w ==> buf@[i] == spec_render_pixel(
                        *self,
                        i % (w as int),
                        i / (w as int),
                        w as int,
                        h as int,
                        seed,
                    ),
            decreases h - y,
        {
            proof {
                assert((y + 1) * (w as int) <= (h as int) * (w as int) && y * w + w == (y + 1) * (
                w as int) && (w as int) * (h as int) == (h as int) * (w as int)) by (nonlinear_arith)
                    requires
                        0 <= y < h,
                ;
            }
            let mut row = self.render_row(y, w, h, seed);
            let ghost pre = buf@;
            buf.append(&mut row);
            proof {
                assert forall|i: int| 0 <= i < buf@.len() implies buf@[i] == spec_render_pixel(
                    *self,
                    i % (w as int),
                    i / (w as int),
                    w as int,
                    h as int,
                    seed,
                ) by {
                    if i >= pre.len() {
                        let x = i - pre.len();
                        assert(buf@[i] == spec_render_row(
                            *self,
                            y as int,
                            w as int,
                            h as int,
                            seed,
                        )[x]);
                        assert((y * w + x) % (w as int) == x && (y * w + x) / (w as int)
                            == y as int) by (nonlinear_arith)
                            requires
                                0 <= x < w,
                                0 <= y,
                                0 < w,
                        ;
                    }
                }
            }
            y = y + 1;
        }
        proof {
            assert((y as int) * (w as int) == (w as int) * (h as int)) by (nonlinear_arith)
                requires
                    y == h,
            ;
            assert(buf@ =~= spec_render_buffer(*self, w as int, h as int, seed));
        }
        buf
    }
}

impl Scene {
    /// Turn the assembled scene into render data: build the tree over the
    /// shapes with the chosen split policy and bundle everything read-only.
    /// Fails exactly when the scene holds no shapes.
    pub fn compute_render_data(
        self,
        texture_map: TextureMap,
        algorithm: BVHConstructionAlgorithm,
    ) -> (r: Option<RenderData>)
        requires
            texture_map.wf(),
            2 * self.shapes@.len() <= usize::MAX,
        ensures
            r is Some <==> self.shapes@.len() > 0,
            r matches Some(rd) ==> rd.wf() && rd.config == self.config && rd.camera == self.camera
                && rd.skybox == self.skybox && rd.lights == self.lights
                && rd.bvh.spec_primitives().len() == self.shapes@.len(),
    {
        let Scene { camera, skybox, config, shapes, lights } = self;
        let mut accel = BVHAccel::new(algorithm, shapes);
        match accel.construct() {
            None => None,
            Some((total_nodes, node)) => {
                let bvh = accel.flatten(node, total_nodes);
                Some(RenderData { bvh, lights, skybox, texture_map, camera, config })
            },
        }
    }
}

} // verus!
