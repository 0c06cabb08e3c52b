use rndr::fixed::{div_trunc, isqrt, mul_fx, SCALE};
use rndr::matrix::{EulerTrig, M3x3};
use rndr::transform::Transform;
use rndr::vector::V3;

#[test]
fn scale_is_one_thousandth() {
    assert_eq!(SCALE, 1000);
}

#[test]
fn truncating_division_rounds_toward_zero() {
    assert_eq!(div_trunc(7, 2), 3);
    assert_eq!(div_trunc(-7, 2), -3);
    assert_eq!(div_trunc(7, -2), -3);
    assert_eq!(div_trunc(-7, -2), 3);
}

#[test]
fn fixed_point_product() {
    // 1.5 * 2.0 == 3.0
    assert_eq!(mul_fx(1500, 2000), 3000);
    // truncation goes toward zero
    assert_eq!(mul_fx(1, 1), 0);
    assert_eq!(mul_fx(-1, 1), 0);
}

#[test]
fn integer_square_root() {
    assert_eq!(isqrt(0), 0);
    assert_eq!(isqrt(1), 1);
    assert_eq!(isqrt(10), 3);
    assert_eq!(isqrt(4_000_000), 2000);
}

#[test]
fn vector_operations_are_exact() {
    let a = V3::new(3000, 4000, 0);
    let b = V3::new(1000, 0, 0);
    let s = a.add(&b);
    assert_eq!((s.x, s.y, s.z), (4000, 4000, 0));
    let d = a.sub(&b);
    assert_eq!((d.x, d.y, d.z), (2000, 4000, 0));
    // |(3, 4, 0)| == 5
    assert_eq!(a.mag(), 5000);
    let n = a.norm();
    assert_eq!((n.x, n.y, n.z), (600, 800, 0));
    // x cross y == z
    let x = V3::new(1000, 0, 0);
    let y = V3::new(0, 1000, 0);
    let c = x.cross(&y);
    assert_eq!((c.x, c.y, c.z), (0, 0, 1000));
    // dot is rescaled once
    assert_eq!(a.dot(&b), 3000);
}

#[test]
fn identity_rotation_keeps_vectors() {
    let t = EulerTrig::identity();
    let v = V3::new(1000, 2000, 3000);
    let r = v.rotate(&t);
    assert_eq!((r.x, r.y, r.z), (1000, 2000, 3000));
}

#[test]
fn quarter_turn_trig_is_exact() {
    let t = EulerTrig::for_right_angles(&V3::new(90_000, 0, 0)).unwrap();
    assert_eq!(t.sin.x, 1000);
    assert_eq!(t.cos.x, 0);
    let t2 = EulerTrig::for_right_angles(&V3::new(-90_000, 180_000, 0)).unwrap();
    assert_eq!(t2.sin.x, -1000);
    assert_eq!(t2.cos.x, 0);
    assert_eq!(t2.sin.y, 0);
    assert_eq!(t2.cos.y, -1000);
    assert!(EulerTrig::for_right_angles(&V3::new(45_000, 0, 0)).is_none());
}

#[test]
fn rotation_about_z_turns_forward_to_left() {
    // a quarter turn about z maps the forward basis (+x) to +y
    let trig = EulerTrig::for_right_angles(&V3::new(0, 0, 90_000)).unwrap();
    let fwd = V3::new(1000, 0, 0);
    let r = fwd.rotate(&trig);
    assert_eq!((r.x, r.y, r.z), (0, 1000, 0));
}

#[test]
fn transform_orientations_at_identity() {
    let tr = Transform::default();
    let t = EulerTrig::identity();
    let (fwd, right, up) = tr.get_orientations_in_bulk(&t);
    assert_eq!((fwd.x, fwd.y, fwd.z), (1000, 0, 0));
    assert_eq!((right.x, right.y, right.z), (0, -1000, 0));
    assert_eq!((up.x, up.y, up.z), (0, 0, 1000));
}

#[test]
fn matrix_vector_product_at_identity_scale() {
    let m = M3x3::new([V3::new(1000, 0, 0), V3::new(0, 1000, 0), V3::new(0, 0, 1000)]);
    let v = V3::new(123, -456, 789);
    let r = m.mul_v3(&v);
    assert_eq!((r.x, r.y, r.z), (123, -456, 789));
}
