//! Exact scalar arithmetic, vectors and color packing.

use raytracer::rat::Rat;
use raytracer::vector::Vector3;
use raytracer::color::Color;

fn rat(n: i64, d: i64) -> Rat {
    Rat::new(n, d)
}

#[test]
fn rat_new_reduces() {
    let r = rat(6, 4);
    assert_eq!(r.num(), 3);
    assert_eq!(r.den(), 2);
    let z = rat(0, 7);
    assert_eq!(z.num(), 0);
    assert_eq!(z.den(), 1);
    let m = rat(-10, 4);
    assert_eq!(m.num(), -5);
    assert_eq!(m.den(), 2);
}

#[test]
fn rat_arithmetic_is_exact() {
    let half = rat(1, 2);
    let third = rat(1, 3);
    let sum = half.add(&third).unwrap();
    assert!(sum.eq_val(&rat(5, 6)));
    let one = half.add(&half).unwrap();
    assert_eq!(one.num(), 1);
    assert_eq!(one.den(), 1);
    let prod = half.mul(&third).unwrap();
    assert!(prod.eq_val(&rat(1, 6)));
    let q = half.div(&third).unwrap();
    assert!(q.eq_val(&rat(3, 2)));
    let d = half.sub(&third).unwrap();
    assert!(d.eq_val(&rat(1, 6)));
    assert!(third.lt(&half));
    assert!(third.le(&half));
    assert!(!half.le(&third));
    assert!(rat(2, 4).eq_val(&rat(1, 2)));
}

#[test]
fn rat_overflow_is_reported() {
    let big = Rat::of_int(0x7fff_ffff_ffff_ffff);
    assert!(big.mul(&Rat::of_int(2)).is_none());
    assert!(big.add(&Rat::of_int(1)).is_none());
    assert!(big.mul(&rat(1, 2)).unwrap().eq_val(&rat(0x7fff_ffff_ffff_ffff, 2)));
}

#[test]
fn rat_sqrt_exact_squares() {
    let two = Rat::of_int(4).sqrt();
    assert!(two.eq_val(&Rat::of_int(2)));
    let five = Rat::of_int(25).sqrt();
    assert!(five.eq_val(&Rat::of_int(5)));
    let zero = Rat::of_int(0).sqrt();
    assert!(zero.eq_val(&Rat::of_int(0)));
}

#[test]
fn rat_sqrt_rounds_down() {
    // floor(65536 * sqrt(2)) = 92681.
    let s = Rat::of_int(2).sqrt();
    assert_eq!(s.num(), 92681);
    assert_eq!(s.den(), 65536);
}

#[test]
fn vector_dot_and_cross() {
    let a = Vector3::new(rat(1, 1), rat(2, 1), rat(3, 1));
    let b = Vector3::new(rat(4, 1), rat(-5, 1), rat(6, 1));
    let d = a.dot(&b).unwrap();
    assert!(d.eq_val(&rat(12, 1)));
    let x = Vector3::x_unit();
    let y = Vector3::y_unit();
    let z = x.cross(&y).unwrap();
    assert!(z.x.eq_val(&rat(0, 1)));
    assert!(z.y.eq_val(&rat(0, 1)));
    assert!(z.z.eq_val(&rat(1, 1)));
}

#[test]
fn vector_add_sub_neg_scale() {
    let a = Vector3::new(rat(1, 2), rat(1, 3), rat(1, 6));
    let b = Vector3::new(rat(1, 2), rat(2, 3), rat(5, 6));
    let s = a.add(&b).unwrap();
    assert!(s.x.eq_val(&rat(1, 1)));
    assert!(s.y.eq_val(&rat(1, 1)));
    assert!(s.z.eq_val(&rat(1, 1)));
    let d = b.sub(&a).unwrap();
    assert!(d.y.eq_val(&rat(1, 3)));
    let n = a.neg();
    assert!(n.x.eq_val(&rat(-1, 2)));
    let m = a.mul(&rat(6, 1)).unwrap();
    assert!(m.x.eq_val(&rat(3, 1)));
    assert!(m.y.eq_val(&rat(2, 1)));
    assert!(m.z.eq_val(&rat(1, 1)));
    let q = m.div(&rat(6, 1)).unwrap();
    assert!(q.x.eq_val(&a.x));
}

#[test]
fn vector_magnitude() {
    let v = Vector3::new(rat(3, 1), rat(4, 1), rat(0, 1));
    let m = v.magnitude().unwrap();
    assert!(m.eq_val(&rat(5, 1)));
    let z = Vector3::zero().magnitude().unwrap();
    assert!(z.eq_val(&rat(0, 1)));
}

#[test]
fn color_packing() {
    assert_eq!((0x01u8, 0x02u8, 0x03u8).to_color(), 0x0001_0203);
    assert_eq!((0xffu8, 0x00u8, 0x80u8).to_color(), 0x00ff_0080);
    assert_eq!(0xdead_beefu32.to_color(), 0xdead_beef);
}
