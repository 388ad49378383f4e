use thruster::bvh::{BVHAccel, BVHConstructionAlgorithm};
use thruster::fixed::SCALE;
use thruster::material::{MatTex, Material};
use thruster::ray::Ray;
use thruster::shape::{Shape, Sphere};
use thruster::vectors::Vec3;

const S: i64 = SCALE;

fn v(x: i64, y: i64, z: i64) -> Vec3 {
    Vec3::new(x * S, y * S, z * S)
}

fn plain() -> Material {
    Material::diffuse(MatTex::Color(v(200, 0, 0)))
}

fn spheres() -> Vec<Shape> {
    [
        (0, 0, 30),
        (8, 1, 26),
        (-7, -2, 40),
        (15, 3, 33),
        (-12, 5, 22),
        (4, -6, 50),
        (20, -1, 45),
    ]
    .iter()
    .map(|&(x, y, z)| Shape::Sphere(Sphere { origin: v(x, y, z), radius: S, material: plain() }))
    .collect()
}

fn sample_rays() -> Vec<Ray> {
    let mut rays = Vec::new();
    for x in -4..5i64 {
        for y in -3..4i64 {
            let dir = Vec3::new(x * S / 8, y * S / 8, S).normalized();
            rays.push(Ray::new(v(0, 0, -5), dir, 0));
        }
    }
    // Rays that miss everything.
    rays.push(Ray::new(v(0, 0, -5), v(0, 0, -1), 0));
    rays.push(Ray::new(v(1000, 1000, 0), v(0, 1, 0), 0));
    rays
}

fn check_policy(algorithm: BVHConstructionAlgorithm) {
    let shapes = spheres();
    let n = shapes.len();
    let mut accel = BVHAccel::new(algorithm, shapes);
    let (total_nodes, node) = accel.construct().expect("seven primitives build a tree");
    let tree = accel.flatten(node, total_nodes);
    // With binary splits down to single-primitive leaves the flattened
    // array holds exactly 2N - 1 nodes.
    assert_eq!(tree.linear_nodes.len(), 2 * n - 1);
    // Traversal agrees with a scan over every primitive.
    for ray in sample_rays() {
        let fast = tree.intersect(&ray);
        let slow = tree.intersect_brute_force(&ray);
        match (fast, slow) {
            (None, None) => {}
            (Some((a, ai)), Some((b, bi))) => {
                assert_eq!(a.t, b.t);
                assert_eq!(ai, bi);
                assert_eq!(a.origin, b.origin);
            }
            (a, b) => panic!("traversal and scan disagree: {:?} vs {:?}", a, b),
        }
    }
}

#[test]
fn middle_policy_matches_brute_force() {
    check_policy(BVHConstructionAlgorithm::Middle);
}

#[test]
fn equal_policy_matches_brute_force() {
    check_policy(BVHConstructionAlgorithm::Equal);
}

#[test]
fn sah_policy_matches_brute_force() {
    check_policy(BVHConstructionAlgorithm::SAH);
}

#[test]
fn construct_fails_only_on_empty_input() {
    let mut empty = BVHAccel::new(BVHConstructionAlgorithm::SAH, Vec::new());
    assert!(empty.construct().is_none());
    let mut one = BVHAccel::new(
        BVHConstructionAlgorithm::SAH,
        vec![Shape::Sphere(Sphere { origin: v(0, 0, 3), radius: S, material: plain() })],
    );
    assert!(one.construct().is_some());
}

#[test]
fn equal_policy_orders_by_centroid() {
    // If the median selection handed its input back unchanged, the leaves
    // would keep the reversed input order instead of sorting by centroid.
    let shapes: Vec<Shape> = [9i64, 3, 7, 1, 5]
        .iter()
        .map(|&x| Shape::Sphere(Sphere { origin: v(x, 0, 30), radius: S, material: plain() }))
        .collect();
    let mut accel = BVHAccel::new(BVHConstructionAlgorithm::Equal, shapes);
    let (total_nodes, node) = accel.construct().unwrap();
    let tree = accel.flatten(node, total_nodes);
    let xs: Vec<i64> = tree
        .primitives
        .iter()
        .map(|s| match s {
            Shape::Sphere(sp) => sp.origin.x / S,
            _ => unreachable!(),
        })
        .collect();
    assert_eq!(xs, vec![1, 3, 5, 7, 9]);
}
