//! Three-dimensional vectors over the exact scalar type.
//!
//! Every operation produces a new vector; the mathematical model is `V3`, a
//! triple of fractions.  Operations whose exact result may leave the stored
//! range return `None` in that case.

use vstd::prelude::*;
use crate::rat::{
    Rat, Ratio, eqv, lemma_add_nonneg, lemma_pack_nonneg, lemma_sq_nonneg, o_add, o_sub, oview,
    pack, r_add, r_div, r_int, r_mul, r_neg, rat_sqrt, wf,
};

verus! {

/// The mathematical value of a vector: a triple of fractions.
pub ghost struct V3 {
    pub x: Ratio,
    pub y: Ratio,
    pub z: Ratio,
}

pub open spec fn v3_wf(v: V3) -> bool {
    wf(v.x) && wf(v.y) && wf(v.z)
}

/// Componentwise equality of values.
pub open spec fn v3_eqv(a: V3, b: V3) -> bool {
    eqv(a.x, b.x) && eqv(a.y, b.y) && eqv(a.z, b.z)
}

/// A vector of three exact scalars.
#[derive(Clone, Copy, Debug)]
pub struct Vector3 {
    pub x: Rat,
    pub y: Rat,
    pub z: Rat,
}

impl View for Vector3 {
    type V = V3;

    open spec fn view(&self) -> V3 {
        V3 { x: self.x@, y: self.y@, z: self.z@ }
    }
}

/// The mathematical triples of an optional vector.
pub open spec fn ov3(r: Option<Vector3>) -> Option<V3> {
    match r {
        Some(v) => Some(v@),
        None => None,
    }
}

/// Three optional components assembled into an optional vector.
pub open spec fn o_v3(x: Option<Ratio>, y: Option<Ratio>, z: Option<Ratio>) -> Option<V3> {
    match (x, y, z) {
        (Some(a), Some(b), Some(c)) => Some(V3 { x: a, y: b, z: c }),
        _ => None,
    }
}

pub open spec fn v3_neg(a: V3) -> V3 {
    V3 { x: r_neg(a.x), y: r_neg(a.y), z: r_neg(a.z) }
}

pub open spec fn cv_add(a: V3, b: V3) -> Option<V3> {
    o_v3(pack(r_add(a.x, b.x)), pack(r_add(a.y, b.y)), pack(r_add(a.z, b.z)))
}

pub open spec fn cv_sub(a: V3, b: V3) -> Option<V3> {
    cv_add(a, v3_neg(b))
}

pub open spec fn cv_scale(a: V3, k: Ratio) -> Option<V3> {
    o_v3(pack(r_mul(a.x, k)), pack(r_mul(a.y, k)), pack(r_mul(a.z, k)))
}

pub open spec fn cv_div(a: V3, k: Ratio) -> Option<V3> {
    o_v3(pack(r_div(a.x, k)), pack(r_div(a.y, k)), pack(r_div(a.z, k)))
}

/// The checked dot product: the three componentwise products summed left to
/// right.
pub open spec fn c_dot(a: V3, b: V3) -> Option<Ratio> {
    o_add(o_add(pack(r_mul(a.x, b.x)), pack(r_mul(a.y, b.y))), pack(r_mul(a.z, b.z)))
}

/// The checked right-handed cross product.
pub open spec fn c_cross(a: V3, b: V3) -> Option<V3> {
    o_v3(
        o_sub(pack(r_mul(a.y, b.z)), pack(r_mul(a.z, b.y))),
        o_sub(pack(r_mul(a.z, b.x)), pack(r_mul(a.x, b.z))),
        o_sub(pack(r_mul(a.x, b.y)), pack(r_mul(a.y, b.x))),
    )
}

/// The checked magnitude: the square root of the dot product of the vector
/// with itself, rounded as `rat_sqrt` rounds.
pub open spec fn c_magnitude(a: V3) -> Option<Ratio> {
    match c_dot(a, a) {
        Some(m) => Some(rat_sqrt(m)),
        None => None,
    }
}

impl Vector3 {
    pub fn new(x: Rat, y: Rat, z: Rat) -> (r: Vector3)
        ensures
            r@ == (V3 { x: x@, y: y@, z: z@ }),
    {
        Vector3 { x, y, z }
    }

    pub fn zero() -> (r: Vector3)
        ensures
            r@ == (V3 { x: r_int(0), y: r_int(0), z: r_int(0) }),
    {
        Vector3::new(Rat::of_int(0), Rat::of_int(0), Rat::of_int(0))
    }

    pub fn x_unit() -> (r: Vector3)
        ensures
            r@ == (V3 { x: r_int(1), y: r_int(0), z: r_int(0) }),
    {
        Vector3::new(Rat::of_int(1), Rat::of_int(0), Rat::of_int(0))
    }

    pub fn y_unit() -> (r: Vector3)
        ensures
            r@ == (V3 { x: r_int(0), y: r_int(1), z: r_int(0) }),
    {
        Vector3::new(Rat::of_int(0), Rat::of_int(1), Rat::of_int(0))
    }

    pub fn z_unit() -> (r: Vector3)
        ensures
            r@ == (V3 { x: r_int(0), y: r_int(0), z: r_int(1) }),
    {
        Vector3::new(Rat::of_int(0), Rat::of_int(0), Rat::of_int(1))
    }

    /// Componentwise sum.
    pub fn add(&self, rhs: &Vector3) -> (r: Option<Vector3>)
        ensures
            ov3(r) == cv_add(self@, rhs@),
    {
        match (self.x.add(&rhs.x), self.y.add(&rhs.y), self.z.add(&rhs.z)) {
            (Some(x), Some(y), Some(z)) => Some(Vector3::new(x, y, z)),
            _ => None,
        }
    }

    /// Componentwise negation; always representable.
    pub fn neg(&self) -> (r: Vector3)
        ensures
            r@ == v3_neg(self@),
    {
        Vector3::new(self.x.neg(), self.y.neg(), self.z.neg())
    }

    /// Componentwise difference.
    pub fn sub(&self, rhs: &Vector3) -> (r: Option<Vector3>)
        ensures
            ov3(r) == cv_sub(self@, rhs@),
    {
        self.add(&rhs.neg())
    }

    /// The vector scaled by `k`.
    pub fn mul(&self, k: &Rat) -> (r: Option<Vector3>)
        ensures
            ov3(r) == cv_scale(self@, k@),
    {
        match (self.x.mul(k), self.y.mul(k), self.z.mul(k)) {
            (Some(x), Some(y), Some(z)) => Some(Vector3::new(x, y, z)),
            _ => None,
        }
    }

    /// The vector divided by `k`, which must not be zero.
    pub fn div(&self, k: &Rat) -> (r: Option<Vector3>)
        requires
            k@.n != 0,
        ensures
            ov3(r) == cv_div(self@, k@),
    {
        match (self.x.div(k), self.y.div(k), self.z.div(k)) {
            (Some(x), Some(y), Some(z)) => Some(Vector3::new(x, y, z)),
            _ => None,
        }
    }

    /// The dot product.
    pub fn dot(&self, rhs: &Vector3) -> (r: Option<Rat>)
        ensures
            oview(r) == c_dot(self@, rhs@),
    {
        let xx = match self.x.mul(&rhs.x) {
            Some(v) => v,
            None => {
                return None;
            },
        };
        let yy = match self.y.mul(&rhs.y) {
            Some(v) => v,
            None => {
                return None;
            },
        };
        let zz = match self.z.mul(&rhs.z) {
            Some(v) => v,
            None => {
                return None;
            },
        };
        let s = match xx.add(&yy) {
            Some(v) => v,
            None => {
                return None;
            },
        };
        s.add(&zz)
    }

    /// The right-handed cross product.
    pub fn cross(&self, rhs: &Vector3) -> (r: Option<Vector3>)
        ensures
            ov3(r) == c_cross(self@, rhs@),
    {
        let x = match (self.y.mul(&rhs.z), self.z.mul(&rhs.y)) {
            (Some(a), Some(b)) => a.sub(&b),
            _ => None,
        };
        let y = match (self.z.mul(&rhs.x), self.x.mul(&rhs.z)) {
            (Some(a), Some(b)) => a.sub(&b),
            _ => None,
        };
        let z = match (self.x.mul(&rhs.y), self.y.mul(&rhs.x)) {
            (Some(a), Some(b)) => a.sub(&b),
            _ => None,
        };
        match (x, y, z) {
            (Some(a), Some(b), Some(c)) => Some(Vector3::new(a, b, c)),
            _ => None,
        }
    }

    /// The Euclidean length, rounded as `rat_sqrt` rounds.
    pub fn magnitude(&self) -> (r: Option<Rat>)
        ensures
            oview(r) == c_magnitude(self@),
    {
        let m = match self.dot(self) {
            Some(v) => v,
            None => {
                return None;
            },
        };
        proof {
            use_type_invariant(&self.x);
            use_type_invariant(&self.y);
            use_type_invariant(&self.z);
            lemma_dot_self_nonneg(self@, m@);
        }
        Some(m.sqrt())
    }
}

/// The dot product of a well-formed vector with itself is non-negative.
pub proof fn lemma_dot_self_nonneg(a: V3, m: Ratio)
    requires
        v3_wf(a),
        c_dot(a, a) == Some(m),
    ensures
        m.n >= 0,
{
    lemma_sq_nonneg(a.x);
    lemma_sq_nonneg(a.y);
    lemma_sq_nonneg(a.z);
    lemma_pack_nonneg(r_mul(a.x, a.x));
    lemma_pack_nonneg(r_mul(a.y, a.y));
    lemma_pack_nonneg(r_mul(a.z, a.z));
    let ux = pack(r_mul(a.x, a.x))->Some_0;
    let uy = pack(r_mul(a.y, a.y))->Some_0;
    let uz = pack(r_mul(a.z, a.z))->Some_0;
    lemma_add_nonneg(ux, uy);
    lemma_pack_nonneg(r_add(ux, uy));
    let uxy = pack(r_add(ux, uy))->Some_0;
    lemma_add_nonneg(uxy, uz);
    lemma_pack_nonneg(r_add(uxy, uz));
}

} // verus!
