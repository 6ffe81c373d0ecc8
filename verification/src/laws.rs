//! Laws of the rotation algebra, stated over the same spec functions the
//! executable contracts use.

use vstd::prelude::*;
use crate::rat::{
    Ratio, eqv, lemma_eqv_trans, lemma_ops_wf, lemma_pack_add_step, lemma_pack_eqv,
    lemma_pack_sub_step, pack, r_add, r_int, r_mul, r_neg, r_sub, wf,
};
use crate::vector::{V3, c_dot, c_magnitude, lemma_dot_self_nonneg, v3_eqv, v3_wf};
use crate::quaternion::{QuatV, c_rotate, cq_mul, q_conj, q_embed, q_eqv, q_unit, q_wf};

verus! {

/// The exact, unreduced Hamilton product.
pub open spec fn h_mul(a: QuatV, b: QuatV) -> QuatV {
    QuatV {
        w: r_sub(
            r_sub(r_sub(r_mul(a.w, b.w), r_mul(a.x, b.x)), r_mul(a.y, b.y)),
            r_mul(a.z, b.z),
        ),
        x: r_add(
            r_sub(r_add(r_mul(a.x, b.w), r_mul(a.w, b.x)), r_mul(a.z, b.y)),
            r_mul(a.y, b.z),
        ),
        y: r_add(
            r_sub(r_add(r_mul(a.y, b.w), r_mul(a.w, b.y)), r_mul(a.x, b.z)),
            r_mul(a.z, b.x),
        ),
        z: r_add(
            r_sub(r_add(r_mul(a.z, b.w), r_mul(a.w, b.z)), r_mul(a.y, b.x)),
            r_mul(a.x, b.y),
        ),
    }
}

/// The view of the identity rotation.
pub open spec fn q_identity() -> QuatV {
    QuatV { w: r_int(1), x: r_int(0), y: r_int(0), z: r_int(0) }
}

/// When the checked Hamilton product answers, its answer carries exactly the
/// values of the exact Hamilton product.
pub proof fn lemma_cq_mul_eqv(a: QuatV, b: QuatV)
    requires
        q_wf(a),
        q_wf(b),
    ensures
        match cq_mul(a, b) {
            Some(c) => q_eqv(c, h_mul(a, b)) && q_wf(c),
            None => true,
        },
{
    match cq_mul(a, b) {
        Some(c) => {
            lemma_cq_component_w(a, b);
            lemma_cq_component_x(a.x, a.w, a.z, a.y, b.w, b.x, b.y, b.z);
            lemma_cq_component_x(a.y, a.w, a.x, a.z, b.w, b.y, b.z, b.x);
            lemma_cq_component_x(a.z, a.w, a.y, a.x, b.w, b.z, b.x, b.y);
        },
        None => {},
    }
}

/// The scalar component `p1 - p2 - p3 - p4` of the checked product carries
/// the exact value.
proof fn lemma_cq_component_w(a: QuatV, b: QuatV)
    requires
        q_wf(a),
        q_wf(b),
    ensures
        ({
            let p1 = r_mul(a.w, b.w);
            let p2 = r_mul(a.x, b.x);
            let p3 = r_mul(a.y, b.y);
            let p4 = r_mul(a.z, b.z);
            let exact = r_sub(r_sub(r_sub(p1, p2), p3), p4);
            match crate::rat::o_sub(
                crate::rat::o_sub(crate::rat::o_sub(pack(p1), pack(p2)), pack(p3)),
                pack(p4),
            ) {
                Some(w) => eqv(w, exact) && wf(w),
                None => true,
            }
        }),
{
    let p1 = r_mul(a.w, b.w);
    let p2 = r_mul(a.x, b.x);
    let p3 = r_mul(a.y, b.y);
    let p4 = r_mul(a.z, b.z);
    lemma_ops_wf(a.w, b.w);
    lemma_ops_wf(a.x, b.x);
    lemma_ops_wf(a.y, b.y);
    lemma_ops_wf(a.z, b.z);
    lemma_pack_eqv(p1);
    lemma_pack_eqv(p2);
    lemma_pack_eqv(p3);
    lemma_pack_eqv(p4);
    match (pack(p1), pack(p2), pack(p3), pack(p4)) {
        (Some(t1), Some(t2), Some(t3), Some(t4)) => {
            lemma_pack_sub_step(t1, p1, t2, p2);
            match pack(r_sub(t1, t2)) {
                Some(s1) => {
                    lemma_ops_wf(p1, p2);
                    lemma_pack_sub_step(s1, r_sub(p1, p2), t3, p3);
                    match pack(r_sub(s1, t3)) {
                        Some(s2) => {
                            lemma_ops_wf(r_sub(p1, p2), p3);
                            lemma_pack_sub_step(s2, r_sub(r_sub(p1, p2), p3), t4, p4);
                        },
                        None => {},
                    }
                },
                None => {},
            }
        },
        _ => {},
    }
}

/// A vector component `p1 + p2 - p3 + p4` of the checked product carries the
/// exact value.  The four products are handed over as their factors.
proof fn lemma_cq_component_x(
    f1: Ratio,
    f2: Ratio,
    f3: Ratio,
    f4: Ratio,
    g1: Ratio,
    g2: Ratio,
    g3: Ratio,
    g4: Ratio,
)
    requires
        wf(f1),
        wf(f2),
        wf(f3),
        wf(f4),
        wf(g1),
        wf(g2),
        wf(g3),
        wf(g4),
    ensures
        ({
            let p1 = r_mul(f1, g1);
            let p2 = r_mul(f2, g2);
            let p3 = r_mul(f3, g3);
            let p4 = r_mul(f4, g4);
            let exact = r_add(r_sub(r_add(p1, p2), p3), p4);
            match crate::rat::o_add(
                crate::rat::o_sub(crate::rat::o_add(pack(p1), pack(p2)), pack(p3)),
                pack(p4),
            ) {
                Some(x) => eqv(x, exact) && wf(x),
                None => true,
            }
        }),
{
    let p1 = r_mul(f1, g1);
    let p2 = r_mul(f2, g2);
    let p3 = r_mul(f3, g3);
    let p4 = r_mul(f4, g4);
    lemma_ops_wf(f1, g1);
    lemma_ops_wf(f2, g2);
    lemma_ops_wf(f3, g3);
    lemma_ops_wf(f4, g4);
    lemma_pack_eqv(p1);
    lemma_pack_eqv(p2);
    lemma_pack_eqv(p3);
    lemma_pack_eqv(p4);
    match (pack(p1), pack(p2), pack(p3), pack(p4)) {
        (Some(t1), Some(t2), Some(t3), Some(t4)) => {
            lemma_pack_add_step(t1, p1, t2, p2);
            match pack(r_add(t1, t2)) {
                Some(s1) => {
                    lemma_ops_wf(p1, p2);
                    lemma_pack_sub_step(s1, r_add(p1, p2), t3, p3);
                    match pack(r_sub(s1, t3)) {
                        Some(s2) => {
                            lemma_ops_wf(r_add(p1, p2), p3);
                            lemma_pack_add_step(s2, r_sub(r_add(p1, p2), p3), t4, p4);
                        },
                        None => {},
                    }
                },
                None => {},
            }
        },
        _ => {},
    }
}

/// Rotating a vector by the identity quaternion leaves every component's
/// value unchanged, whenever the checked pipeline answers.
pub proof fn lemma_rotate_identity(v: V3)
    requires
        v3_wf(v),
    ensures
        match c_rotate(q_identity(), v) {
            Some(w) => v3_eqv(w, v) && v3_wf(w),
            None => true,
        },
{
    let idq = q_identity();
    let p = q_embed(v);
    assert(q_conj(idq) == idq);
    assert(q_wf(idq));
    assert(q_wf(p));
    lemma_mul_identity_left(p);
    match cq_mul(idq, p) {
        Some(m1) => {
            lemma_mul_identity_right(m1);
            match cq_mul(m1, idq) {
                Some(m2) => {
                    lemma_eqv_trans(m2.x, m1.x, p.x);
                    lemma_eqv_trans(m2.y, m1.y, p.y);
                    lemma_eqv_trans(m2.z, m1.z, p.z);
                },
                None => {},
            }
        },
        None => {},
    }
}

/// Scaling numerator and denominator by the same three factors keeps the
/// value.
proof fn lemma_scale3(n: int, d: int, a: int, b: int, c: int)
    ensures
        (((n * a) * b) * c) * d == n * (((d * a) * b) * c),
{
    broadcast use vstd::arithmetic::mul::group_mul_properties;

}

/// The shape of the exact product with the identity on the left.
proof fn lemma_id_left_shape(p: QuatV)
    ensures
        h_mul(q_identity(), p).w == (Ratio {
            n: ((p.w.n * p.x.d) * p.y.d) * p.z.d,
            d: ((p.w.d * p.x.d) * p.y.d) * p.z.d,
        }),
        h_mul(q_identity(), p).x == (Ratio {
            n: ((p.x.n * p.w.d) * p.y.d) * p.z.d,
            d: ((p.w.d * p.x.d) * p.y.d) * p.z.d,
        }),
        h_mul(q_identity(), p).y == (Ratio {
            n: ((p.y.n * p.w.d) * p.z.d) * p.x.d,
            d: ((p.w.d * p.y.d) * p.z.d) * p.x.d,
        }),
        h_mul(q_identity(), p).z == (Ratio {
            n: ((p.z.n * p.w.d) * p.x.d) * p.y.d,
            d: ((p.w.d * p.z.d) * p.x.d) * p.y.d,
        }),
{
    broadcast use vstd::arithmetic::mul::group_mul_basics;

}

/// The shape of the exact product with the identity on the right.
proof fn lemma_id_right_shape(p: QuatV)
    ensures
        h_mul(p, q_identity()).w == (Ratio {
            n: ((p.w.n * p.x.d) * p.y.d) * p.z.d,
            d: ((p.w.d * p.x.d) * p.y.d) * p.z.d,
        }),
        h_mul(p, q_identity()).x == (Ratio {
            n: ((p.x.n * p.w.d) * p.z.d) * p.y.d,
            d: ((p.x.d * p.w.d) * p.z.d) * p.y.d,
        }),
        h_mul(p, q_identity()).y == (Ratio {
            n: ((p.y.n * p.w.d) * p.x.d) * p.z.d,
            d: ((p.y.d * p.w.d) * p.x.d) * p.z.d,
        }),
        h_mul(p, q_identity()).z == (Ratio {
            n: ((p.z.n * p.w.d) * p.y.d) * p.x.d,
            d: ((p.z.d * p.w.d) * p.y.d) * p.x.d,
        }),
{
    broadcast use vstd::arithmetic::mul::group_mul_basics;

}

/// A fraction whose parts are the same three-factor scaling of another's
/// carries the same value.
proof fn lemma_scaled_eqv(h: Ratio, p: Ratio, a: int, b: int, c: int)
    requires
        h.n == ((p.n * a) * b) * c,
        h.d == ((p.d * a) * b) * c,
    ensures
        eqv(h, p),
{
    lemma_scale3(p.n, p.d, a, b, c);
}

/// Multiplying by the identity on the left keeps every component's value.
proof fn lemma_mul_identity_left(p: QuatV)
    requires
        q_wf(p),
    ensures
        match cq_mul(q_identity(), p) {
            Some(c) => q_eqv(c, p) && q_wf(c),
            None => true,
        },
{
    let idq = q_identity();
    lemma_cq_mul_eqv(idq, p);
    match cq_mul(idq, p) {
        Some(c) => {
            let h = h_mul(idq, p);
            lemma_id_left_shape(p);
            lemma_scaled_eqv(h.w, p.w, p.x.d, p.y.d, p.z.d);
            lemma_scaled_eqv(
                h.x,
                p.x,
                p.w.d,
                p.y.d,
                p.z.d,
            );
            assert(h.x.d == ((p.x.d * p.w.d) * p.y.d) * p.z.d) by {
                lemma_swap2(p.w.d, p.x.d, p.y.d, p.z.d);
            }
            lemma_scaled_eqv(h.y, p.y, p.w.d, p.z.d, p.x.d);
            assert(h.y.d == ((p.y.d * p.w.d) * p.z.d) * p.x.d) by {
                lemma_swap2(p.w.d, p.y.d, p.z.d, p.x.d);
            }
            lemma_scaled_eqv(h.z, p.z, p.w.d, p.x.d, p.y.d);
            assert(h.z.d == ((p.z.d * p.w.d) * p.x.d) * p.y.d) by {
                lemma_swap2(p.w.d, p.z.d, p.x.d, p.y.d);
            }
            lemma_h_wf(idq, p);
            lemma_eqv_trans(c.w, h.w, p.w);
            lemma_eqv_trans(c.x, h.x, p.x);
            lemma_eqv_trans(c.y, h.y, p.y);
            lemma_eqv_trans(c.z, h.z, p.z);
        },
        None => {},
    }
}

/// The first two factors of a four-factor product may swap.
proof fn lemma_swap2(a: int, b: int, c: int, d: int)
    ensures
        ((a * b) * c) * d == ((b * a) * c) * d,
{
    broadcast use vstd::arithmetic::mul::group_mul_properties;

}

/// Multiplying by the identity on the right keeps every component's value.
proof fn lemma_mul_identity_right(p: QuatV)
    requires
        q_wf(p),
    ensures
        match cq_mul(p, q_identity()) {
            Some(c) => q_eqv(c, p) && q_wf(c),
            None => true,
        },
{
    let idq = q_identity();
    lemma_cq_mul_eqv(p, idq);
    match cq_mul(p, idq) {
        Some(c) => {
            let h = h_mul(p, idq);
            lemma_id_right_shape(p);
            lemma_scaled_eqv(h.w, p.w, p.x.d, p.y.d, p.z.d);
            lemma_scaled_eqv(h.x, p.x, p.w.d, p.z.d, p.y.d);
            lemma_scaled_eqv(h.y, p.y, p.w.d, p.x.d, p.z.d);
            lemma_scaled_eqv(h.z, p.z, p.w.d, p.y.d, p.x.d);
            lemma_h_wf(p, idq);
            lemma_eqv_trans(c.w, h.w, p.w);
            lemma_eqv_trans(c.x, h.x, p.x);
            lemma_eqv_trans(c.y, h.y, p.y);
            lemma_eqv_trans(c.z, h.z, p.z);
        },
        None => {},
    }
}

/// Two vectors whose squared lengths agree in value have the very same
/// rounded magnitude: the rounding of the square root depends only on the
/// scalar value.  This reduces length preservation under rotation to
/// preservation of the squared length.
pub proof fn lemma_magnitude_from_norm_sq(v: V3, w: V3)
    requires
        v3_wf(v),
        v3_wf(w),
        match (c_dot(v, v), c_dot(w, w)) {
            (Some(m1), Some(m2)) => eqv(m1, m2),
            _ => false,
        },
    ensures
        c_magnitude(v) == c_magnitude(w),
{
    match (c_dot(v, v), c_dot(w, w)) {
        (Some(m1), Some(m2)) => {
            lemma_dot_self_nonneg(v, m1);
            lemma_dot_self_nonneg(w, m2);
            crate::rat::lemma_rat_sqrt_eqv(m1, m2);
        },
        _ => {},
    }
}

/// The identity is a unit quaternion.
pub proof fn lemma_identity_is_unit()
    ensures
        q_unit(q_identity()),
{
    let one = r_int(1);
    let zero = r_int(0);
    assert(r_mul(one, one) == one);
    assert(r_mul(zero, zero) == (Ratio { n: 0, d: 1 }));
    assert(r_add(one, zero) == (Ratio { n: 1, d: 1 }));
    assert(crate::quaternion::q_norm_sq(q_identity()) == one);
}

/// An axis rotation built from a rational point on the unit circle — a
/// cosine and sine of the half angle with `c^2 + s^2 = 1` — is a unit
/// quaternion, about any of the three axes.
pub proof fn lemma_axis_rotation_unit(c: Ratio, s: Ratio)
    requires
        wf(c),
        wf(s),
        eqv(r_add(r_mul(c, c), r_mul(s, s)), r_int(1)),
    ensures
        q_unit(QuatV { w: c, x: s, y: r_int(0), z: r_int(0) }),
        q_unit(QuatV { w: c, x: r_int(0), y: s, z: r_int(0) }),
        q_unit(QuatV { w: c, x: r_int(0), y: r_int(0), z: s }),
{
    broadcast use vstd::arithmetic::mul::group_mul_basics;

}

/// An axis rotation by the opposite angle is the conjugate: negating the
/// sine of the half angle negates exactly the vector part, for each of the
/// three axes.  Together with `inv`, this identifies "rotate back" with
/// "apply the conjugate".
pub proof fn lemma_axis_opposite_is_conjugate(c: Ratio, s: Ratio)
    ensures
        q_conj(QuatV { w: c, x: s, y: r_int(0), z: r_int(0) }) == (QuatV {
            w: c,
            x: r_neg(s),
            y: r_int(0),
            z: r_int(0),
        }),
        q_conj(QuatV { w: c, x: r_int(0), y: s, z: r_int(0) }) == (QuatV {
            w: c,
            x: r_int(0),
            y: r_neg(s),
            z: r_int(0),
        }),
        q_conj(QuatV { w: c, x: r_int(0), y: r_int(0), z: s }) == (QuatV {
            w: c,
            x: r_int(0),
            y: r_int(0),
            z: r_neg(s),
        }),
{
}

/// The exact Hamilton product of well-formed quaternions is well formed.
proof fn lemma_h_wf(a: QuatV, b: QuatV)
    requires
        q_wf(a),
        q_wf(b),
    ensures
        q_wf(h_mul(a, b)),
{
    lemma_ops_wf(a.w, b.w);
    lemma_ops_wf(a.x, b.x);
    lemma_ops_wf(a.y, b.y);
    lemma_ops_wf(a.z, b.z);
    lemma_ops_wf(a.x, b.w);
    lemma_ops_wf(a.w, b.x);
    lemma_ops_wf(a.z, b.y);
    lemma_ops_wf(a.y, b.z);
    lemma_ops_wf(a.y, b.w);
    lemma_ops_wf(a.w, b.y);
    lemma_ops_wf(a.x, b.z);
    lemma_ops_wf(a.z, b.x);
    lemma_ops_wf(a.z, b.w);
    lemma_ops_wf(a.w, b.z);
    lemma_ops_wf(a.y, b.x);
    lemma_ops_wf(a.x, b.y);
    lemma_ops_wf(r_mul(a.w, b.w), r_mul(a.x, b.x));
    lemma_ops_wf(r_sub(r_mul(a.w, b.w), r_mul(a.x, b.x)), r_mul(a.y, b.y));
    lemma_ops_wf(r_sub(r_sub(r_mul(a.w, b.w), r_mul(a.x, b.x)), r_mul(a.y, b.y)), r_mul(a.z, b.z));
    lemma_ops_wf(r_mul(a.x, b.w), r_mul(a.w, b.x));
    lemma_ops_wf(r_add(r_mul(a.x, b.w), r_mul(a.w, b.x)), r_mul(a.z, b.y));
    lemma_ops_wf(r_sub(r_add(r_mul(a.x, b.w), r_mul(a.w, b.x)), r_mul(a.z, b.y)), r_mul(a.y, b.z));
    lemma_ops_wf(r_mul(a.y, b.w), r_mul(a.w, b.y));
    lemma_ops_wf(r_add(r_mul(a.y, b.w), r_mul(a.w, b.y)), r_mul(a.x, b.z));
    lemma_ops_wf(r_sub(r_add(r_mul(a.y, b.w), r_mul(a.w, b.y)), r_mul(a.x, b.z)), r_mul(a.z, b.x));
    lemma_ops_wf(r_mul(a.z, b.w), r_mul(a.w, b.z));
    lemma_ops_wf(r_add(r_mul(a.z, b.w), r_mul(a.w, b.z)), r_mul(a.y, b.x));
    lemma_ops_wf(r_sub(r_add(r_mul(a.z, b.w), r_mul(a.w, b.z)), r_mul(a.y, b.x)), r_mul(a.x, b.y));
}

} // verus!
