//! Unit-quaternion rotation.
//!
//! A quaternion stores an orientation as four exact scalars.  Rotation of a
//! vector is the sandwich product `q * v * conjugate(q)` with the vector
//! embedded as a pure quaternion; for unit quaternions the conjugate is the
//! inverse.  The type stores orientation and does not police unit length;
//! the rotation laws hold for unit quaternions.

use vstd::prelude::*;
use crate::rat::{
    Rat, Ratio, eqv, o_add, o_sub, oview, pack, r_add, r_int, r_mul, r_neg, wf,
};
use crate::vector::{V3, Vector3, ov3};

verus! {

/// The mathematical value of a quaternion: four fractions.
pub ghost struct QuatV {
    pub w: Ratio,
    pub x: Ratio,
    pub y: Ratio,
    pub z: Ratio,
}

pub open spec fn q_wf(q: QuatV) -> bool {
    wf(q.w) && wf(q.x) && wf(q.y) && wf(q.z)
}

/// Componentwise equality of values.
pub open spec fn q_eqv(a: QuatV, b: QuatV) -> bool {
    eqv(a.w, b.w) && eqv(a.x, b.x) && eqv(a.y, b.y) && eqv(a.z, b.z)
}

/// The squared length `w^2 + x^2 + y^2 + z^2`.
pub open spec fn q_norm_sq(q: QuatV) -> Ratio {
    r_add(r_add(r_add(r_mul(q.w, q.w), r_mul(q.x, q.x)), r_mul(q.y, q.y)), r_mul(q.z, q.z))
}

/// A rotation quaternion: its squared length is one.
pub open spec fn q_unit(q: QuatV) -> bool {
    eqv(q_norm_sq(q), r_int(1))
}

/// The conjugate: the vector part negated.
pub open spec fn q_conj(q: QuatV) -> QuatV {
    QuatV { w: q.w, x: r_neg(q.x), y: r_neg(q.y), z: r_neg(q.z) }
}

/// A vector embedded as a pure quaternion.
pub open spec fn q_embed(v: V3) -> QuatV {
    QuatV { w: r_int(0), x: v.x, y: v.y, z: v.z }
}

/// The checked Hamilton product, each component combined left to right as the
/// executable code combines it.
pub open spec fn cq_mul(a: QuatV, b: QuatV) -> Option<QuatV> {
    let w = o_sub(
        o_sub(o_sub(pack(r_mul(a.w, b.w)), pack(r_mul(a.x, b.x))), pack(r_mul(a.y, b.y))),
        pack(r_mul(a.z, b.z)),
    );
    let x = o_add(
        o_sub(o_add(pack(r_mul(a.x, b.w)), pack(r_mul(a.w, b.x))), pack(r_mul(a.z, b.y))),
        pack(r_mul(a.y, b.z)),
    );
    let y = o_add(
        o_sub(o_add(pack(r_mul(a.y, b.w)), pack(r_mul(a.w, b.y))), pack(r_mul(a.x, b.z))),
        pack(r_mul(a.z, b.x)),
    );
    let z = o_add(
        o_sub(o_add(pack(r_mul(a.z, b.w)), pack(r_mul(a.w, b.z))), pack(r_mul(a.y, b.x))),
        pack(r_mul(a.x, b.y)),
    );
    match (w, x, y, z) {
        (Some(cw), Some(cx), Some(cy), Some(cz)) => Some(QuatV { w: cw, x: cx, y: cy, z: cz }),
        _ => None,
    }
}

/// The checked componentwise sum of two quaternions.
pub open spec fn cq_add(a: QuatV, b: QuatV) -> Option<QuatV> {
    match (
        pack(r_add(a.w, b.w)),
        pack(r_add(a.x, b.x)),
        pack(r_add(a.y, b.y)),
        pack(r_add(a.z, b.z)),
    ) {
        (Some(cw), Some(cx), Some(cy), Some(cz)) => Some(
            QuatV { w: cw, x: cx, y: cy, z: cz },
        ),
        _ => None,
    }
}

/// The checked sandwich product `q * v * conjugate(q)`, keeping the vector
/// part.
pub open spec fn c_rotate(q: QuatV, v: V3) -> Option<V3> {
    match cq_mul(q, q_embed(v)) {
        Some(m1) => match cq_mul(m1, q_conj(q)) {
            Some(m2) => Some(V3 { x: m2.x, y: m2.y, z: m2.z }),
            None => None,
        },
        None => None,
    }
}

/// An orientation as four exact scalars.
#[derive(Clone, Copy, Debug)]
pub struct Quaternion {
    w: Rat,
    x: Rat,
    y: Rat,
    z: Rat,
}

impl View for Quaternion {
    type V = QuatV;

    closed spec fn view(&self) -> QuatV {
        QuatV { w: self.w@, x: self.x@, y: self.y@, z: self.z@ }
    }
}

/// The mathematical values of an optional quaternion.
pub open spec fn oqv(r: Option<Quaternion>) -> Option<QuatV> {
    match r {
        Some(v) => Some(v@),
        None => None,
    }
}

impl Quaternion {
    /// The rotation that leaves every vector in place.
    pub fn identity() -> (r: Quaternion)
        ensures
            r@ == (QuatV { w: r_int(1), x: r_int(0), y: r_int(0), z: r_int(0) }),
    {
        Quaternion {
            w: Rat::of_int(1),
            x: Rat::of_int(0),
            y: Rat::of_int(0),
            z: Rat::of_int(0),
        }
    }

    /// Rotation about the x axis, given the cosine and sine of half the
    /// rotation angle.
    pub fn x_rot(half_cos: Rat, half_sin: Rat) -> (r: Quaternion)
        ensures
            r@ == (QuatV { w: half_cos@, x: half_sin@, y: r_int(0), z: r_int(0) }),
    {
        Quaternion { w: half_cos, x: half_sin, y: Rat::of_int(0), z: Rat::of_int(0) }
    }

    /// Rotation about the y axis, given the cosine and sine of half the
    /// rotation angle.
    pub fn y_rot(half_cos: Rat, half_sin: Rat) -> (r: Quaternion)
        ensures
            r@ == (QuatV { w: half_cos@, x: r_int(0), y: half_sin@, z: r_int(0) }),
    {
        Quaternion { w: half_cos, x: Rat::of_int(0), y: half_sin, z: Rat::of_int(0) }
    }

    /// Rotation about the z axis, given the cosine and sine of half the
    /// rotation angle.
    pub fn z_rot(half_cos: Rat, half_sin: Rat) -> (r: Quaternion)
        ensures
            r@ == (QuatV { w: half_cos@, x: r_int(0), y: r_int(0), z: half_sin@ }),
    {
        Quaternion { w: half_cos, x: Rat::of_int(0), y: Rat::of_int(0), z: half_sin }
    }

    /// The componentwise sum, when every component fits.
    pub fn add(&self, rhs: &Quaternion) -> (r: Option<Quaternion>)
        ensures
            oqv(r) == cq_add(self@, rhs@),
    {
        match (
            self.w.add(&rhs.w),
            self.x.add(&rhs.x),
            self.y.add(&rhs.y),
            self.z.add(&rhs.z),
        ) {
            (Some(w), Some(x), Some(y), Some(z)) => Some(Quaternion { w, x, y, z }),
            _ => None,
        }
    }

    /// The conjugate, which inverts a unit quaternion.
    pub fn inv(&self) -> (r: Quaternion)
        ensures
            r@ == q_conj(self@),
    {
        Quaternion { w: self.w, x: self.x.neg(), y: self.y.neg(), z: self.z.neg() }
    }

    /// The Hamilton product, when every component fits.
    pub fn mul(&self, rhs: &Quaternion) -> (r: Option<Quaternion>)
        ensures
            oqv(r) == cq_mul(self@, rhs@),
    {
        let ww = match self.w.mul(&rhs.w) {
            Some(v) => v,
            None => {
                return None;
            },
        };
        let xx = match self.x.mul(&rhs.x) {
            Some(v) => v,
            None => {
                return None;
            },
        };
        let yy = match self.y.mul(&rhs.y) {
            Some(v) => v,
            None => {
                return None;
            },
        };
        let zz = match self.z.mul(&rhs.z) {
            Some(v) => v,
            None => {
                return None;
            },
        };
        let w = match acc_w(&ww, &xx, &yy, &zz) {
            Some(v) => v,
            None => {
                return None;
            },
        };
        let x = match acc_v(
            &match self.x.mul(&rhs.w) {
                Some(v) => v,
                None => {
                    return None;
                },
            },
            &match self.w.mul(&rhs.x) {
                Some(v) => v,
                None => {
                    return None;
                },
            },
            &match self.z.mul(&rhs.y) {
                Some(v) => v,
                None => {
                    return None;
                },
            },
            &match self.y.mul(&rhs.z) {
                Some(v) => v,
                None => {
                    return None;
                },
            },
        ) {
            Some(v) => v,
            None => {
                return None;
            },
        };
        let y = match acc_v(
            &match self.y.mul(&rhs.w) {
                Some(v) => v,
                None => {
                    return None;
                },
            },
            &match self.w.mul(&rhs.y) {
                Some(v) => v,
                None => {
                    return None;
                },
            },
            &match self.x.mul(&rhs.z) {
                Some(v) => v,
                None => {
                    return None;
                },
            },
            &match self.z.mul(&rhs.x) {
                Some(v) => v,
                None => {
                    return None;
                },
            },
        ) {
            Some(v) => v,
            None => {
                return None;
            },
        };
        let z = match acc_v(
            &match self.z.mul(&rhs.w) {
                Some(v) => v,
                None => {
                    return None;
                },
            },
            &match self.w.mul(&rhs.z) {
                Some(v) => v,
                None => {
                    return None;
                },
            },
            &match self.y.mul(&rhs.x) {
                Some(v) => v,
                None => {
                    return None;
                },
            },
            &match self.x.mul(&rhs.y) {
                Some(v) => v,
                None => {
                    return None;
                },
            },
        ) {
            Some(v) => v,
            None => {
                return None;
            },
        };
        Some(Quaternion { w, x, y, z })
    }

    /// Rotate `v` by this quaternion: the sandwich product
    /// `q * v * conjugate(q)` with `v` embedded as a pure quaternion, keeping
    /// the vector part.
    pub fn apply_quat(&self, v: &Vector3) -> (r: Option<Vector3>)
        ensures
            ov3(r) == c_rotate(self@, v@),
    {
        let p = Quaternion { w: Rat::of_int(0), x: v.x, y: v.y, z: v.z };
        let m1 = match self.mul(&p) {
            Some(m) => m,
            None => {
                return None;
            },
        };
        let m2 = match m1.mul(&self.inv()) {
            Some(m) => m,
            None => {
                return None;
            },
        };
        Some(Vector3::new(m2.x, m2.y, m2.z))
    }
}

impl Vector3 {
    /// The vector rotated by `q`.
    pub fn rotate(&self, q: &Quaternion) -> (r: Option<Vector3>)
        ensures
            ov3(r) == c_rotate(q@, self@),
    {
        q.apply_quat(self)
    }
}

/// The scalar component of a Hamilton product: `t1 - t2 - t3 - t4`.
fn acc_w(t1: &Rat, t2: &Rat, t3: &Rat, t4: &Rat) -> (r: Option<Rat>)
    ensures
        oview(r) == o_sub(o_sub(o_sub(Some(t1@), Some(t2@)), Some(t3@)), Some(t4@)),
{
    let s1 = match t1.sub(t2) {
        Some(v) => v,
        None => {
            return None;
        },
    };
    let s2 = match s1.sub(t3) {
        Some(v) => v,
        None => {
            return None;
        },
    };
    s2.sub(t4)
}

/// A vector component of a Hamilton product: `t1 + t2 - t3 + t4`.
fn acc_v(t1: &Rat, t2: &Rat, t3: &Rat, t4: &Rat) -> (r: Option<Rat>)
    ensures
        oview(r) == o_add(o_sub(o_add(Some(t1@), Some(t2@)), Some(t3@)), Some(t4@)),
{
    let s1 = match t1.add(t2) {
        Some(v) => v,
        None => {
            return None;
        },
    };
    let s2 = match s1.sub(t3) {
        Some(v) => v,
        None => {
            return None;
        },
    };
    s2.add(t4)
}

} // verus!
