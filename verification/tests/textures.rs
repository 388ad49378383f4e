use thruster::bvh::BVHConstructionAlgorithm;
use thruster::camera::PerspectiveCamera;
use thruster::fixed::SCALE;
use thruster::material::{MatTex, Material};
use thruster::ray::Ray;
use thruster::render_config::RenderConfig;
use thruster::sampler::Sampler;
use thruster::scene::Scene;
use thruster::shape::{Plane, Shape};
use thruster::skybox::Skybox;
use thruster::texture_map::{Image, Rgb8, TextureMap};
use thruster::vectors::{Vec2, Vec3};

const S: i64 = SCALE;

fn v(x: i64, y: i64, z: i64) -> Vec3 {
    Vec3::new(x * S, y * S, z * S)
}

fn one_pixel_map(r: u8, g: u8, b: u8) -> (TextureMap, usize) {
    let mut map = TextureMap::new();
    let handle = map.add_image(Image::new(1, 1, vec![Rgb8 { r, g, b }]).unwrap());
    (map, handle)
}

#[test]
fn textured_albedo_reaches_the_pixel() {
    let (map, handle) = one_pixel_map(10, 20, 30);
    let material = Material {
        c_ambient: S,
        ..Material::diffuse(MatTex::from_handle(handle, Vec2::new(S, S)))
    };
    let material = Material { c_diffuse: 0, ..material };
    let scene = Scene {
        camera: PerspectiveCamera::new(v(0, 0, -10)),
        skybox: Skybox::new(0, 0, 0, 0, 0, 0),
        config: RenderConfig { skybox: false, ..RenderConfig::default() },
        shapes: vec![Shape::Plane(Plane {
            origin: v(0, 0, 20),
            normal: v(0, 0, -1),
            material,
        })],
        lights: Vec::new(),
    };
    let rd = scene.compute_render_data(map, BVHConstructionAlgorithm::Middle).unwrap();
    let ray = Ray::new(v(0, 0, -10), v(0, 0, 1), 1);
    let hit = ray.cast(&rd);
    let mut sampler = Sampler::new(1);
    let col = ray.color_function(hit, &rd, &mut sampler).unwrap();
    // A pure ambient material over a one-pixel texture shows that pixel.
    assert_eq!(col, v(10, 20, 30));
}

#[test]
fn skybox_answers_on_a_miss() {
    let (map, handle) = one_pixel_map(7, 8, 9);
    let skybox = Skybox::new(handle, handle, handle, handle, handle, handle);
    let color = skybox.calc_color(&map, v(0, 0, 1)).unwrap();
    assert_eq!(color, v(7, 8, 9));
    // An unknown face handle cannot answer.
    let empty = TextureMap::new();
    assert!(skybox.calc_color(&empty, v(0, 0, 1)).is_none());
}

#[test]
fn fixed_point_roots_and_trig() {
    assert_eq!(thruster::fixed::fx_sqrt(4 * S), 2 * S);
    assert_eq!(thruster::fixed::fx_sqrt(9 * S), 3 * S);
    assert_eq!(thruster::fixed::fx_sqrt(0), 0);
    assert_eq!(thruster::fixed::fx_sqrt(-5), 0);
    assert_eq!(thruster::fixed::fx_sin(0), 0);
    // sin(pi/2) is one, up to the short polynomial's error.
    assert!((thruster::fixed::fx_sin(thruster::fixed::HALF_PI) - S).abs() < 64);
    assert!((thruster::fixed::fx_cos(0) - S).abs() < 64);
    assert!(thruster::fixed::fx_cos(thruster::fixed::PI) + S < 64);
}
