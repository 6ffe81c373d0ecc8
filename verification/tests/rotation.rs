//! Quaternion rotation: identity, round trips and length preservation.

use raytracer::rat::Rat;
use raytracer::vector::Vector3;
use raytracer::quaternion::Quaternion;

fn rat(n: i64, d: i64) -> Rat {
    Rat::new(n, d)
}

fn assert_veq(a: &Vector3, b: &Vector3) {
    assert!(a.x.eq_val(&b.x));
    assert!(a.y.eq_val(&b.y));
    assert!(a.z.eq_val(&b.z));
}

#[test]
fn identity_rotation_is_identity() {
    let v = Vector3::new(rat(1, 1), rat(-2, 3), rat(7, 5));
    let w = v.rotate(&Quaternion::identity()).unwrap();
    assert_veq(&w, &v);
}

#[test]
fn x_axis_roundtrip_restores_vector() {
    // cos and sin of the half angle from the 3-4-5 triple: a unit rotation.
    let q = Quaternion::x_rot(rat(3, 5), rat(4, 5));
    let back = Quaternion::x_rot(rat(3, 5), rat(-4, 5));
    let v = Vector3::new(rat(1, 1), rat(2, 1), rat(3, 1));
    let w = v.rotate(&q).unwrap();
    // The rotation moves the vector off its place...
    assert!(w.y.eq_val(&rat(-86, 25)));
    assert!(w.z.eq_val(&rat(27, 25)));
    // ...and the opposite rotation brings it back exactly.
    let u = w.rotate(&back).unwrap();
    assert_veq(&u, &v);
}

#[test]
fn y_axis_roundtrip_restores_vector() {
    let q = Quaternion::y_rot(rat(5, 13), rat(12, 13));
    let back = Quaternion::y_rot(rat(5, 13), rat(-12, 13));
    let v = Vector3::new(rat(-4, 7), rat(1, 3), rat(2, 1));
    let u = v.rotate(&q).unwrap().rotate(&back).unwrap();
    assert_veq(&u, &v);
}

#[test]
fn z_axis_roundtrip_restores_vector() {
    let q = Quaternion::z_rot(rat(8, 17), rat(15, 17));
    let back = Quaternion::z_rot(rat(8, 17), rat(-15, 17));
    let v = Vector3::new(rat(1, 2), rat(1, 5), rat(-3, 1));
    let u = v.rotate(&q).unwrap().rotate(&back).unwrap();
    assert_veq(&u, &v);
}

#[test]
fn inverse_is_conjugate_roundtrip() {
    let q = Quaternion::x_rot(rat(3, 5), rat(4, 5));
    let v = Vector3::new(rat(1, 1), rat(2, 1), rat(3, 1));
    let w = q.apply_quat(&v).unwrap();
    let u = q.inv().apply_quat(&w).unwrap();
    assert_veq(&u, &v);
}

#[test]
fn rotation_preserves_magnitude() {
    let q = Quaternion::x_rot(rat(3, 5), rat(4, 5));
    let v = Vector3::new(rat(1, 1), rat(2, 1), rat(3, 1));
    let w = v.rotate(&q).unwrap();
    let mv = v.magnitude().unwrap();
    let mw = w.magnitude().unwrap();
    assert!(mv.eq_val(&mw));
    // The squared length is preserved exactly: 1 + 4 + 9 = 14 on both sides.
    let sv = v.dot(&v).unwrap();
    let sw = w.dot(&w).unwrap();
    assert!(sv.eq_val(&rat(14, 1)));
    assert!(sw.eq_val(&rat(14, 1)));
}

#[test]
fn composed_rotations_multiply() {
    // Two quarter-ish turns about x compose on the right.
    let a = Quaternion::x_rot(rat(3, 5), rat(4, 5));
    let b = Quaternion::x_rot(rat(3, 5), rat(-4, 5));
    let c = a.mul(&b).unwrap();
    let v = Vector3::new(rat(1, 1), rat(2, 1), rat(3, 1));
    // a * b is the identity rotation, so applying it changes nothing.
    let w = c.apply_quat(&v).unwrap();
    assert_veq(&w, &v);
}
