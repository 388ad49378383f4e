use thruster::fixed::SCALE;
use thruster::material::{MatTex, Material};
use thruster::ray::Ray;
use thruster::shape::{Plane, Shape, Sphere};
use thruster::vectors::Vec3;

const S: i64 = SCALE;

fn v(x: i64, y: i64, z: i64) -> Vec3 {
    Vec3::new(x * S, y * S, z * S)
}

fn plain() -> Material {
    Material::diffuse(MatTex::Color(v(200, 0, 0)))
}

#[test]
fn unit_sphere_head_on() {
    let sphere = Sphere { origin: v(0, 0, 0), radius: S, material: plain() };
    let ray = Ray::new(v(0, 0, -2), v(0, 0, 1), 0);
    let hit = sphere.do_intersect(&ray).expect("the ray points straight at the sphere");
    assert_eq!(hit.t, S);
    assert_eq!(hit.normal, v(0, 0, -1));
    assert_eq!(hit.origin, v(0, 0, -1));
}

#[test]
fn perpendicular_ray_never_hits_plane() {
    let plane = Plane { origin: v(0, 0, 0), normal: v(0, 1, 0), material: plain() };
    for origin in [v(0, 5, 0), v(-3, 1, 7), v(100, -2, -50), v(0, 0, 0)] {
        for dir in [v(1, 0, 0), v(0, 0, 1), v(3, 0, -2), v(-7, 0, 5)] {
            assert!(plane.do_intersect(&Ray::new(origin, dir, 0)).is_none());
        }
    }
}

#[test]
fn plane_head_on() {
    let plane = Plane { origin: v(0, 0, 5), normal: v(0, 0, -1), material: plain() };
    let hit = plane.do_intersect(&Ray::new(v(0, 0, 0), v(0, 0, 1), 0)).unwrap();
    assert_eq!(hit.t, 5 * S);
    assert_eq!(hit.origin, v(0, 0, 5));
}

#[test]
fn shape_dispatch() {
    let s = Shape::Sphere(Sphere { origin: v(0, 0, 4), radius: S, material: plain() });
    let hit = s.do_intersect(&Ray::new(v(0, 0, 0), v(0, 0, 1), 0)).unwrap();
    assert_eq!(hit.t, 3 * S);
    assert_eq!(s.mat().c_diffuse, S);
    let bb = s.bounding_box();
    assert_eq!(bb.min_vector, v(-1, -1, 3));
    assert_eq!(bb.max_vector, v(1, 1, 5));
}
