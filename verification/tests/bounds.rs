use thruster::bounds::BoundingBox;
use thruster::fixed::SCALE;
use thruster::ray::Ray;
use thruster::vectors::Vec3;

const S: i64 = SCALE;

fn v(x: i64, y: i64, z: i64) -> Vec3 {
    Vec3::new(x * S, y * S, z * S)
}

fn boxed(min: Vec3, max: Vec3) -> BoundingBox {
    BoundingBox { min_vector: min, max_vector: max }
}

fn contains(b: &BoundingBox, p: Vec3) -> bool {
    b.min_vector.x <= p.x && p.x <= b.max_vector.x && b.min_vector.y <= p.y
        && p.y <= b.max_vector.y && b.min_vector.z <= p.z && p.z <= b.max_vector.z
}

#[test]
fn merge_contains_both() {
    let a = boxed(v(-1, -1, -1), v(1, 1, 1));
    let b = boxed(v(2, 0, -3), v(4, 5, 0));
    let m = a.merge(&b);
    assert!(m.min_vector.x <= m.max_vector.x);
    assert!(m.min_vector.y <= m.max_vector.y);
    assert!(m.min_vector.z <= m.max_vector.z);
    for p in [v(-1, -1, -1), v(1, 1, 1), v(0, 0, 0), v(2, 0, -3), v(4, 5, 0), v(3, 2, -1)] {
        assert!(contains(&m, p));
    }
}

#[test]
fn merge_empty_identity() {
    let x = boxed(v(-2, 3, -4), v(7, 8, 9));
    assert_eq!(BoundingBox::empty().merge(&x), x);
    assert_eq!(x.merge(&BoundingBox::empty()), x);
}

#[test]
fn slab_test_hits_and_misses() {
    let b = boxed(v(-1, -1, 4), v(1, 1, 6));
    let hit = Ray::new(v(0, 0, 0), v(0, 0, 1), 0);
    assert!(b.intersects_with(&hit));
    let away = Ray::new(v(0, 0, 0), v(0, 0, -1), 0);
    assert!(!b.intersects_with(&away));
    let sideways = Ray::new(v(0, 5, 5), v(1, 0, 0), 0);
    assert!(!b.intersects_with(&sideways));
    let inside = Ray::new(v(0, 0, 5), v(1, 0, 0), 0);
    assert!(b.intersects_with(&inside));
    // A zero direction component is fine when the origin is inside the slab.
    let diag = Ray::new(v(0, 0, 0), v(1, 1, 5), 0);
    assert!(b.intersects_with(&diag));
}

#[test]
fn surface_area_and_extent() {
    let b = boxed(v(0, 0, 0), v(2, 3, 4));
    // 2 * (2*3 + 2*4 + 3*4) = 52
    assert_eq!(b.surface_area(), 52 * S);
    assert_eq!(b.max_extent(), 2);
    assert_eq!(b.centre(), Vec3::new(S, 3 * S / 2, 2 * S));
    assert_eq!(b.diagonal(), v(2, 3, 4));
}
