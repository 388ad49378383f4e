use scoped_threadpool::Pool;
use thruster::bvh::BVHConstructionAlgorithm;
use thruster::camera::PerspectiveCamera;
use thruster::fixed::SCALE;
use thruster::lightsource::{Lightsource, PointLight};
use thruster::material::{MatTex, Material, Reflectivity, Transparency};
use thruster::ray::Ray;
use thruster::render_config::RenderConfig;
use thruster::sampler::Sampler;
use thruster::scene::{RenderData, Rgba8, Scene};
use thruster::shape::{Plane, Shape, Sphere};
use thruster::skybox::Skybox;
use thruster::texture_map::TextureMap;
use thruster::vectors::Vec3;

const S: i64 = SCALE;

fn v(x: i64, y: i64, z: i64) -> Vec3 {
    Vec3::new(x * S, y * S, z * S)
}

fn material(ambient: i64, diffuse: i64, reflect: i64, transparent: i64, color: Vec3) -> Material {
    Material {
        texture: MatTex::Color(color),
        c_diffuse: diffuse,
        c_ambient: ambient,
        reflectivity: Reflectivity { amount: reflect, blurriness: 0 },
        transparency: Transparency { index_of_refraction: S, blurriness: 0, amount: transparent },
    }
}

fn config() -> RenderConfig {
    let mut c = RenderConfig::default();
    c.denoise = false;
    c.skybox = false;
    c
}

fn build(shapes: Vec<Shape>, lights: Vec<Lightsource>, config: RenderConfig) -> RenderData {
    let scene = Scene {
        camera: PerspectiveCamera::new(v(0, 0, -10)),
        skybox: Skybox::new(0, 0, 0, 0, 0, 0),
        config,
        shapes,
        lights,
    };
    scene
        .compute_render_data(TextureMap::new(), BVHConstructionAlgorithm::SAH)
        .expect("the scene holds shapes")
}

#[test]
fn zero_budget_keeps_direct_light_and_drops_bounces() {
    let lights = vec![Lightsource::Point(PointLight {
        origin: v(0, 10, -5),
        color: v(255, 255, 255),
    })];
    // A mirror-and-glass material against the same shape with both bounce
    // amounts zeroed: with no budget left they must agree exactly.
    let bouncy = vec![Shape::Sphere(Sphere {
        origin: v(0, 0, 5),
        radius: 2 * S,
        material: material(S / 2, S, S / 2, S / 4, v(120, 40, 40)),
    })];
    let dull = vec![Shape::Sphere(Sphere {
        origin: v(0, 0, 5),
        radius: 2 * S,
        material: material(S / 2, S, 0, 0, v(120, 40, 40)),
    })];
    let rd_bouncy = build(bouncy, lights.clone(), config());
    let rd_dull = build(dull, lights, config());
    let ray = Ray::new(v(0, 0, -10), v(0, 0, 1), 0);
    let hit_a = ray.cast(&rd_bouncy);
    let hit_b = ray.cast(&rd_dull);
    assert!(hit_a.is_some());
    let mut sampler_a = Sampler::new(99);
    let mut sampler_b = Sampler::new(99);
    let color_a = ray.color_function(hit_a, &rd_bouncy, &mut sampler_a).unwrap();
    let color_b = ray.color_function(hit_b, &rd_dull, &mut sampler_b).unwrap();
    assert_eq!(color_a, color_b);
    assert_eq!(sampler_a.state, sampler_b.state);
    // With budget left, the mirror term shows up.
    let deep = Ray::new(v(0, 0, -10), v(0, 0, 1), 3);
    let mut sampler_c = Sampler::new(99);
    let hit_c = deep.cast(&rd_bouncy);
    let color_c = deep.color_function(hit_c, &rd_bouncy, &mut sampler_c).unwrap();
    assert_ne!(color_a, color_c);
}

#[test]
fn single_threaded_and_pooled_renders_agree() {
    let lights = vec![Lightsource::Point(PointLight {
        origin: v(5, 10, -5),
        color: v(255, 255, 255),
    })];
    let shapes = vec![
        Shape::Sphere(Sphere {
            origin: v(0, 0, 6),
            radius: 2 * S,
            material: material(S / 4, S, S / 2, 0, v(200, 60, 60)),
        }),
        Shape::Sphere(Sphere {
            origin: v(-3, 1, 9),
            radius: S,
            material: material(S / 4, S, 0, 0, v(60, 200, 60)),
        }),
        Shape::Plane(Plane {
            origin: v(0, -2, 0),
            normal: v(0, 1, 0),
            material: material(S / 4, S, 0, 0, v(60, 60, 200)),
        }),
    ];
    let rd = build(shapes, lights, config());
    let (w, h, seed) = (8usize, 6usize, 42u64);
    let single = rd.new_render(w, h, seed);

    let mut rows: Vec<Vec<Rgba8>> = (0..h).map(|_| Vec::new()).collect();
    let mut pool = Pool::new(4);
    pool.scoped(|scope| {
        for (y, slot) in rows.iter_mut().enumerate() {
            let rd = &rd;
            scope.execute(move || {
                *slot = rd.render_row(y, w, h, seed);
            });
        }
    });
    let pooled: Vec<Rgba8> = rows.concat();
    assert_eq!(single, pooled);
}

#[test]
fn ambient_plane_fills_every_pixel() {
    // A plane squarely in front of the camera, lit by nothing: with a pure
    // ambient material every pixel shows the albedo, clamped; with a pure
    // diffuse material and no lights, every pixel is black.
    let facing_plane = |m: Material| {
        vec![Shape::Plane(Plane { origin: v(0, 0, 20), normal: v(0, 0, -1), material: m })]
    };
    let ambient = build(facing_plane(material(S, 0, 0, 0, v(300, 80, 10))), Vec::new(), config());
    let buf = ambient.new_render(6, 6, 7);
    assert_eq!(buf.len(), 36);
    for p in &buf {
        // The red channel was over the valid range and clamps to 255.
        assert_eq!((p.r, p.g, p.b, p.a), (255, 80, 10, 255));
    }
    let dark = build(facing_plane(material(0, S, 0, 0, v(300, 80, 10))), Vec::new(), config());
    let buf = dark.new_render(6, 6, 7);
    for p in &buf {
        assert_eq!((p.r, p.g, p.b, p.a), (0, 0, 0, 255));
    }
}

#[test]
fn missing_texture_handles_are_errors() {
    let map = TextureMap::new();
    assert!(map.get_image_by_handle(0).is_err());
    let img = thruster::texture_map::Image::new(2, 2, Vec::new());
    assert!(img.is_none());
    let px = thruster::texture_map::Rgb8 { r: 1, g: 2, b: 3 };
    let img = thruster::texture_map::Image::new(2, 1, vec![px, px]).unwrap();
    assert_eq!(img.get_pixel(1, 0).g, 2);
}
