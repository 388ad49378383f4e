use thruster::combinators as comb;
use thruster::fixed::SCALE;
use thruster::vectors::{Clampable, Vec3};

const S: i64 = SCALE;

fn v(x: i64, y: i64, z: i64) -> Vec3 {
    Vec3::new(x * S, y * S, z * S)
}

#[test]
fn vector_maths() {
    assert_eq!(v(0, 5, 1).add(v(1, 0, 5)), v(1, 5, 6));
    assert_eq!(v(0, 5, 1).sub(v(1, 0, 5)), v(-1, 5, -4));
    assert_eq!(Vec3::new(S / 2, 5 * S / 2, 0).scale(2 * S), v(1, 5, 0));
    assert_eq!(v(1, 2, 3).scale(5 * S), v(5, 10, 15));
}

#[test]
fn dot_product() {
    assert_eq!(v(1, 5, 3).dot(&v(2, 0, 0)), 2 * S);
    assert_eq!(v(0, 1, 0).dot(&v(0, 1, 0)), S);
    assert_eq!(v(0, 0, 1).dot(&v(0, 1, 0)), 0);
    assert_eq!(v(0, -1, 0).dot(&v(0, 1, 0)), -S);
}

#[test]
fn dot_test() {
    assert_eq!(comb::dot(&v(1, 5, 3), &v(2, 0, 0)), 2 * S);
    assert_eq!(comb::dot(&v(0, 1, 0), &v(0, 1, 0)), S);
    assert_eq!(comb::dot(&v(0, 0, 1), &v(0, 1, 0)), 0);
    assert_eq!(comb::dot(&v(0, -1, 0), &v(0, 1, 0)), -S);
}

#[test]
fn lerp() {
    let a = v(0, 100, 0);
    let b = v(100, 0, 0);
    let res = comb::lerp(S / 2, &a, &b);
    assert_eq!(res, v(50, 50, 0));
}

#[test]
fn length2() {
    assert_eq!(v(0, 0, 0).length2(), 0);
    assert_eq!(v(5, 3, 0).length2(), (25 + 9) * S);
    assert_eq!(v(5, 9, 1).length2(), 107 * S);
}

#[test]
fn length() {
    assert_eq!(v(0, 0, 0).length(), 0);
    // sqrt(107) is about 10.3441; the fixed-point root is exact to one step.
    let l = v(5, 9, 1).length();
    assert!((l - 677912).abs() <= 7);
}

#[test]
fn clamp_as_color() {
    assert_eq!(Vec3::origin().clamp_as_color(), Vec3::origin());
    assert_eq!(v(5, 5, 5).clamp_as_color(), v(5, 5, 5));
    assert_eq!(v(256, 0, 0).clamp_as_color(), v(255, 0, 0));
    assert_eq!(Vec3::new(255 * S + S / 10, 0, 0).clamp_as_color(), v(255, 0, 0));
    assert_eq!(v(-1, 0, 0).clamp_as_color(), v(0, 0, 0));
}

#[test]
fn normalized() {
    assert_eq!(v(1, 0, 0).normalized(), v(1, 0, 0));
    let n = v(1, 1, 0).normalized();
    // Both components sit at sqrt(2)/2, about 0.7071.
    assert!((n.x - 46341).abs() <= 2);
    assert_eq!(n.x, n.y);
    assert_eq!(n.z, 0);
    // A normalized vector has length one, up to fixed-point rounding.
    let m = v(5, 94, 1).normalized();
    assert!((m.length2() - S).abs() <= 8);
}

#[test]
fn min_max() {
    let a = v(0, 1, 2);
    let b = v(5, 2, 1);
    let c = Vec3::origin();
    assert_eq!(a.min(&b), v(0, 1, 1));
    assert_eq!(b.min(&c), c);
    assert_eq!(a.max(&c), a);
    assert_eq!(a.max(&b), v(5, 2, 2));
}

#[test]
fn dim() {
    let a = v(3, 2, 1);
    assert_eq!(a.dim(0), 3 * S);
    assert_eq!(a.dim(1), 2 * S);
    assert_eq!(a.dim(2), 1 * S);
}

#[test]
fn clamp_to_scalars() {
    assert_eq!((5 * S).clamp_to(2 * S, 10 * S), 5 * S);
    assert_eq!((14 * S).clamp_to(2 * S, 10 * S), 10 * S);
    assert_eq!((1 * S).clamp_to(2 * S, 10 * S), 2 * S);
}
