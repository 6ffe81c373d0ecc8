//! Exact scalar arithmetic.
//!
//! Every scalar the renderer computes with is a fraction of two machine
//! integers.  The mathematical model is `Ratio`, a fraction of unbounded
//! integers; the executable type is `Rat`, which stores a numerator and a
//! positive denominator in `i64` range.  Arithmetic is exact: each operation
//! reduces its result by the greatest common divisor and reports `None` when
//! even the reduced fraction does not fit the stored range.

use vstd::prelude::*;
use vstd::arithmetic::div_mod::*;
use vstd::arithmetic::mul::*;

verus! {

/// Largest magnitude a stored numerator or denominator may take.
pub open spec fn coeff_max() -> int {
    0x7fff_ffff_ffff_ffff
}

/// A scalar as a fraction of unbounded integers: the value `n / d`.
pub ghost struct Ratio {
    pub n: int,
    pub d: int,
}

/// A fraction is well formed when its denominator is positive.
pub open spec fn wf(r: Ratio) -> bool {
    1 <= r.d
}

/// Two fractions denote the same scalar.
pub open spec fn eqv(a: Ratio, b: Ratio) -> bool {
    a.n * b.d == b.n * a.d
}

pub open spec fn r_int(i: int) -> Ratio {
    Ratio { n: i, d: 1 }
}

pub open spec fn r_add(a: Ratio, b: Ratio) -> Ratio {
    Ratio { n: a.n * b.d + b.n * a.d, d: a.d * b.d }
}

pub open spec fn r_neg(a: Ratio) -> Ratio {
    Ratio { n: -a.n, d: a.d }
}

pub open spec fn r_sub(a: Ratio, b: Ratio) -> Ratio {
    r_add(a, r_neg(b))
}

pub open spec fn r_mul(a: Ratio, b: Ratio) -> Ratio {
    Ratio { n: a.n * b.n, d: a.d * b.d }
}

/// Reciprocal, with the sign moved into the numerator.
pub open spec fn r_inv(a: Ratio) -> Ratio {
    if a.n >= 0 {
        Ratio { n: a.d, d: a.n }
    } else {
        Ratio { n: -a.d, d: -a.n }
    }
}

pub open spec fn r_div(a: Ratio, b: Ratio) -> Ratio {
    r_mul(a, r_inv(b))
}

pub open spec fn r_le(a: Ratio, b: Ratio) -> bool {
    a.n * b.d <= b.n * a.d
}

pub open spec fn r_lt(a: Ratio, b: Ratio) -> bool {
    a.n * b.d < b.n * a.d
}

pub open spec fn gcd(a: nat, b: nat) -> nat
    decreases b,
{
    if b == 0 {
        a
    } else {
        gcd(b, a % b)
    }
}

pub open spec fn divides(f: nat, x: nat) -> bool {
    exists|k: nat| x == #[trigger] (f * k)
}

/// The greatest common divisor divides both arguments and is positive as soon
/// as one of them is.
pub proof fn lemma_gcd_divides(a: nat, b: nat)
    ensures
        divides(gcd(a, b), a),
        divides(gcd(a, b), b),
        a > 0 || b > 0 ==> gcd(a, b) >= 1,
    decreases b,
{
    if b == 0 {
        assert(a == gcd(a, b) * 1);
        assert(b == gcd(a, b) * 0);
    } else {
        lemma_gcd_divides(b, a % b);
        let g = gcd(b, a % b);
        assert(g == gcd(a, b));
        let k1 = choose|k: nat| b == #[trigger] (g * k);
        let k2 = choose|k: nat| (a % b) == #[trigger] (g * k);
        lemma_fundamental_div_mod(a as int, b as int);
        let q = a as int / b as int;
        lemma_div_pos_is_pos(a as int, b as int);
        assert(a as int == (g * k1) * q + g * k2);
        assert((g * k1) * q + g * k2 == g * (k1 * q + k2)) by (nonlinear_arith);
        assert(a == g * ((k1 * q + k2) as nat));
        assert(divides(g, a));
    }
}

pub open spec fn abs_i(x: int) -> nat {
    if x >= 0 {
        x as nat
    } else {
        (-x) as nat
    }
}

/// The fraction brought to lowest terms.
pub open spec fn reduce(p: Ratio) -> Ratio {
    let g = gcd(abs_i(p.n), p.d as nat) as int;
    Ratio { n: p.n / g, d: p.d / g }
}

/// The fraction lies within the stored range.
pub open spec fn fits(p: Ratio) -> bool {
    &&& -coeff_max() <= p.n <= coeff_max()
    &&& 1 <= p.d <= coeff_max()
}

/// The reduced fraction, when it fits the stored range.
pub open spec fn pack(p: Ratio) -> Option<Ratio> {
    if fits(reduce(p)) {
        Some(reduce(p))
    } else {
        None
    }
}

/// Reduction keeps the value and the positive denominator.
pub proof fn lemma_reduce_eqv(p: Ratio)
    requires
        wf(p),
    ensures
        wf(reduce(p)),
        eqv(reduce(p), p),
{
    let un = abs_i(p.n);
    let ud = p.d as nat;
    lemma_gcd_divides(un, ud);
    let g = gcd(un, ud);
    let kn = choose|k: nat| un == #[trigger] (g * k);
    let kd = choose|k: nat| ud == #[trigger] (g * k);
    assert(g >= 1);
    lemma_div_multiples_vanish(kn as int, g as int);
    lemma_div_multiples_vanish(kd as int, g as int);
    assert(ud as int / g as int == kd as int);
    if kd == 0 {
        assert(ud == g * 0);
        assert(false);
    }
    assert(reduce(p).d == kd as int);
    if p.n >= 0 {
        assert(p.n == g * kn);
        assert(reduce(p).n == kn as int);
        assert(kn * (g * kd) == (g * kn) * kd) by (nonlinear_arith);
        assert(eqv(reduce(p), p));
    } else {
        assert(-p.n == g * kn);
        assert(g as int * (-(kn as int)) == -(g as int * kn as int)) by (nonlinear_arith);
        lemma_div_multiples_vanish(-(kn as int), g as int);
        assert(reduce(p).n == -(kn as int));
        assert((-(kn as int)) * (g * kd) == (-(g as int * kn as int)) * kd) by (nonlinear_arith);
        assert(eqv(reduce(p), p));
    }
}

/// A packed result, when present, keeps the value of the exact fraction.
pub proof fn lemma_pack_eqv(p: Ratio)
    requires
        wf(p),
    ensures
        match pack(p) {
            Some(v) => wf(v) && eqv(v, p),
            None => true,
        },
{
    lemma_reduce_eqv(p);
}

/// Checked sum: absent as soon as an operand is absent or the result does not
/// fit the stored range.
pub open spec fn o_add(a: Option<Ratio>, b: Option<Ratio>) -> Option<Ratio> {
    match (a, b) {
        (Some(x), Some(y)) => pack(r_add(x, y)),
        _ => None,
    }
}

/// Checked difference.
pub open spec fn o_sub(a: Option<Ratio>, b: Option<Ratio>) -> Option<Ratio> {
    match (a, b) {
        (Some(x), Some(y)) => pack(r_sub(x, y)),
        _ => None,
    }
}

/// A packed result keeps the sign of its numerator.
pub proof fn lemma_pack_nonneg(p: Ratio)
    requires
        wf(p),
        p.n >= 0,
    ensures
        match pack(p) {
            Some(v) => v.n >= 0 && wf(v),
            None => true,
        },
{
    lemma_reduce_eqv(p);
    let v = reduce(p);
    assert(v.n >= 0) by (nonlinear_arith)
        requires
            v.n * p.d == p.n * v.d,
            p.n >= 0,
            p.d >= 1,
            v.d >= 1,
    ;
}

/// A packed result keeps a non-zero numerator non-zero.
pub proof fn lemma_pack_nonzero(p: Ratio)
    requires
        wf(p),
        p.n != 0,
    ensures
        match pack(p) {
            Some(v) => v.n != 0 && wf(v),
            None => true,
        },
{
    lemma_reduce_eqv(p);
    let v = reduce(p);
    assert(v.n != 0) by (nonlinear_arith)
        requires
            v.n * p.d == p.n * v.d,
            p.n != 0,
            p.d >= 1,
            v.d >= 1,
    ;
}

/// Equality of values is transitive through a well-formed middle term.
pub proof fn lemma_eqv_trans(a: Ratio, b: Ratio, c: Ratio) by (nonlinear_arith)
    requires
        eqv(a, b),
        eqv(b, c),
        wf(b),
    ensures
        eqv(a, c),
{
}

/// Sums and products stay well formed.
pub proof fn lemma_ops_wf(a: Ratio, b: Ratio) by (nonlinear_arith)
    requires
        wf(a),
        wf(b),
    ensures
        wf(r_add(a, b)),
        wf(r_sub(a, b)),
        wf(r_mul(a, b)),
        wf(r_neg(a)),
{
}

/// Sums respect equality of values.
pub proof fn lemma_add_congr(a: Ratio, a2: Ratio, b: Ratio, b2: Ratio)
    requires
        wf(a),
        wf(a2),
        wf(b),
        wf(b2),
        eqv(a, a2),
        eqv(b, b2),
    ensures
        eqv(r_add(a, b), r_add(a2, b2)),
{
    lemma_add_congr_ints(a.n, a.d, b.n, b.d, a2.n, a2.d, b2.n, b2.d);
}

/// The cross-multiplied form of `lemma_add_congr`, over plain integers.
proof fn lemma_add_congr_ints(
    an: int,
    ad: int,
    bn: int,
    bd: int,
    a2n: int,
    a2d: int,
    b2n: int,
    b2d: int,
)
    requires
        an * a2d == a2n * ad,
        bn * b2d == b2n * bd,
    ensures
        (an * bd + bn * ad) * (a2d * b2d) == (a2n * b2d + b2n * a2d) * (ad * bd),
{
    broadcast use vstd::arithmetic::mul::group_mul_properties;

    assert((an * bd + bn * ad) * (a2d * b2d) == (an * bd) * (a2d * b2d) + (bn * ad) * (a2d
        * b2d));
    assert((an * bd) * (a2d * b2d) == (an * a2d) * (bd * b2d));
    assert((a2n * ad) * (bd * b2d) == (a2n * b2d) * (ad * bd));
    assert((bn * ad) * (a2d * b2d) == (bn * b2d) * (ad * a2d));
    assert((b2n * bd) * (ad * a2d) == (b2n * a2d) * (ad * bd));
    assert((a2n * b2d + b2n * a2d) * (ad * bd) == (a2n * b2d) * (ad * bd) + (b2n * a2d) * (ad
        * bd));
}

/// Products respect equality of values.
pub proof fn lemma_mul_congr(a: Ratio, a2: Ratio, b: Ratio, b2: Ratio) by (nonlinear_arith)
    requires
        wf(a),
        wf(a2),
        wf(b),
        wf(b2),
        eqv(a, a2),
        eqv(b, b2),
    ensures
        eqv(r_mul(a, b), r_mul(a2, b2)),
{
}

/// Differences and negations respect equality of values.
pub proof fn lemma_sub_congr(a: Ratio, a2: Ratio, b: Ratio, b2: Ratio)
    requires
        wf(a),
        wf(a2),
        wf(b),
        wf(b2),
        eqv(a, a2),
        eqv(b, b2),
    ensures
        eqv(r_sub(a, b), r_sub(a2, b2)),
        eqv(r_neg(a), r_neg(a2)),
{
    assert(eqv(r_neg(a), r_neg(a2)) && eqv(r_neg(b), r_neg(b2))) by (nonlinear_arith)
        requires
            eqv(a, a2),
            eqv(b, b2),
    ;
    lemma_ops_wf(b, b);
    lemma_ops_wf(b2, b2);
    lemma_add_congr(a, a2, r_neg(b), r_neg(b2));
}

/// Sums, differences and products respect equality of values.
pub proof fn lemma_ops_congr(a: Ratio, a2: Ratio, b: Ratio, b2: Ratio)
    requires
        wf(a),
        wf(a2),
        wf(b),
        wf(b2),
        eqv(a, a2),
        eqv(b, b2),
    ensures
        eqv(r_add(a, b), r_add(a2, b2)),
        eqv(r_sub(a, b), r_sub(a2, b2)),
        eqv(r_mul(a, b), r_mul(a2, b2)),
        eqv(r_neg(a), r_neg(a2)),
{
    lemma_add_congr(a, a2, b, b2);
    lemma_mul_congr(a, a2, b, b2);
    lemma_sub_congr(a, a2, b, b2);
}

/// Packing a checked sum of approximations lands on a value equal to the
/// exact sum of what they approximate.
pub proof fn lemma_pack_add_step(u: Ratio, uex: Ratio, t: Ratio, tex: Ratio)
    requires
        wf(u),
        wf(t),
        wf(uex),
        wf(tex),
        eqv(u, uex),
        eqv(t, tex),
    ensures
        match pack(r_add(u, t)) {
            Some(s) => eqv(s, r_add(uex, tex)) && wf(s),
            None => true,
        },
{
    lemma_ops_wf(u, t);
    lemma_ops_wf(uex, tex);
    lemma_ops_congr(u, uex, t, tex);
    lemma_pack_eqv(r_add(u, t));
    match pack(r_add(u, t)) {
        Some(s) => {
            lemma_eqv_trans(s, r_add(u, t), r_add(uex, tex));
        },
        None => {},
    }
}

/// Packing a checked difference of approximations lands on a value equal to
/// the exact difference of what they approximate.
pub proof fn lemma_pack_sub_step(u: Ratio, uex: Ratio, t: Ratio, tex: Ratio)
    requires
        wf(u),
        wf(t),
        wf(uex),
        wf(tex),
        eqv(u, uex),
        eqv(t, tex),
    ensures
        match pack(r_sub(u, t)) {
            Some(s) => eqv(s, r_sub(uex, tex)) && wf(s),
            None => true,
        },
{
    lemma_ops_wf(u, t);
    lemma_ops_wf(uex, tex);
    lemma_ops_congr(u, uex, t, tex);
    lemma_pack_eqv(r_sub(u, t));
    match pack(r_sub(u, t)) {
        Some(s) => {
            lemma_eqv_trans(s, r_sub(u, t), r_sub(uex, tex));
        },
        None => {},
    }
}

/// The sum of two non-negative scalars is non-negative.
pub proof fn lemma_add_nonneg(a: Ratio, b: Ratio) by (nonlinear_arith)
    requires
        wf(a),
        wf(b),
        a.n >= 0,
        b.n >= 0,
    ensures
        r_add(a, b).n >= 0,
        wf(r_add(a, b)),
{
}

/// The square of a scalar has a non-negative numerator.
pub proof fn lemma_sq_nonneg(a: Ratio) by (nonlinear_arith)
    requires
        wf(a),
    ensures
        r_mul(a, a).n >= 0,
        wf(r_mul(a, a)),
{
}

/// An exact scalar: a fraction with a positive denominator, both parts held
/// in `i64` range.
#[derive(Clone, Copy, Debug)]
pub struct Rat {
    pub(crate) n: i64,
    pub(crate) d: i64,
}

impl View for Rat {
    type V = Ratio;

    closed spec fn view(&self) -> Ratio {
        Ratio { n: self.n as int, d: self.d as int }
    }
}

/// The mathematical fractions of an optional scalar.
pub open spec fn oview(r: Option<Rat>) -> Option<Ratio> {
    match r {
        Some(v) => Some(v@),
        None => None,
    }
}

impl Rat {
    #[verifier::type_invariant]
    pub(crate) open spec fn inv(self) -> bool {
        fits(self@)
    }

    /// The whole number `v` as a scalar.
    pub fn of_int(v: i64) -> (r: Rat)
        requires
            -coeff_max() <= v as int,
        ensures
            r@ == r_int(v as int),
    {
        Rat { n: v, d: 1 }
    }

    /// The fraction `n / d`, reduced to lowest terms.
    pub fn new(n: i64, d: i64) -> (r: Rat)
        requires
            -coeff_max() <= n as int,
            1 <= d as int,
        ensures
            r@ == reduce(Ratio { n: n as int, d: d as int }),
            eqv(r@, Ratio { n: n as int, d: d as int }),
    {
        let p: Ghost<Ratio> = Ghost(Ratio { n: n as int, d: d as int });
        proof {
            let g = gcd(abs_i(p@.n), p@.d as nat);
            lemma_gcd_divides(abs_i(p@.n), p@.d as nat);
            lemma_reduce_eqv(p@);
            lemma_abs_div_le(p@.n, g as int);
            lemma_abs_div_le(p@.d, g as int);
            if p@.n >= 0 {
                lemma_div_pos_is_pos(p@.n, g as int);
            }
            assert(fits(reduce(p@)));
        }
        let r = Self::mk(n as i128, d as i128);
        match r {
            Some(v) => v,
            None => {
                proof {
                    assert(false);
                }
                unreached()
            },
        }
    }

    pub fn num(&self) -> (r: i64)
        ensures
            r as int == self@.n,
    {
        self.n
    }

    pub fn den(&self) -> (r: i64)
        ensures
            r as int == self@.d,
    {
        self.d
    }

    /// Store the exact fraction `n / d`: reduce it, then keep it only when it
    /// fits the stored range.
    fn mk(n: i128, d: i128) -> (r: Option<Rat>)
        requires
            1 <= d as int,
            -0x7fff_ffff_ffff_ffff_ffff_ffff_ffff_ffff <= n as int,
        ensures
            oview(r) == pack(Ratio { n: n as int, d: d as int }),
    {
        let ghost p = Ratio { n: n as int, d: d as int };
        let un: u128 = if n >= 0 {
            n as u128
        } else {
            (-n) as u128
        };
        let ud: u128 = d as u128;
        proof {
            assert(un as nat == abs_i(p.n));
            assert(ud as nat == p.d as nat);
        }
        let g: u128 = gcd_u128(un, ud);
        proof {
            lemma_gcd_divides(un as nat, ud as nat);
        }
        let ghost kn = choose|k: nat| un as nat == #[trigger] ((g as nat) * k);
        let ghost kd = choose|k: nat| ud as nat == #[trigger] ((g as nat) * k);
        let rn_mag: u128 = un / g;
        let rd: u128 = ud / g;
        proof {
            lemma_div_multiples_vanish(kn as int, g as int);
            lemma_div_multiples_vanish(kd as int, g as int);
            assert(rn_mag as nat == kn);
            assert(rd as nat == kd);
            if kd == 0 {
                assert(ud as nat == (g as nat) * 0);
                assert(false);
            }
            if p.n >= 0 {
                assert(reduce(p).n == kn as int);
            } else {
                assert((g as int) * (-(kn as int)) == -((g as int) * (kn as int))) by (nonlinear_arith);
                lemma_div_multiples_vanish(-(kn as int), g as int);
                assert(reduce(p).n == -(kn as int));
            }
            assert(reduce(p).d == kd as int);
        }
        if rn_mag <= 0x7fff_ffff_ffff_ffff && rd <= 0x7fff_ffff_ffff_ffff {
            let rn: i64 = if n >= 0 {
                rn_mag as i64
            } else {
                -(rn_mag as i64)
            };
            Some(Rat { n: rn, d: rd as i64 })
        } else {
            None
        }
    }

    /// Exact sum, when it fits.
    pub fn add(&self, rhs: &Rat) -> (r: Option<Rat>)
        ensures
            oview(r) == pack(r_add(self@, rhs@)),
    {
        proof {
            use_type_invariant(self);
            use_type_invariant(rhs);
            lemma_coeff_prod(self@.n, rhs@.d);
            lemma_coeff_prod(rhs@.n, self@.d);
            lemma_coeff_prod(self@.d, rhs@.d);
            lemma_pos_prod(self@.d, rhs@.d);
        }
        let n: i128 = (self.n as i128) * (rhs.d as i128) + (rhs.n as i128) * (self.d as i128);
        let d: i128 = (self.d as i128) * (rhs.d as i128);
        Self::mk(n, d)
    }

    /// Exact negation; always representable.
    pub fn neg(&self) -> (r: Rat)
        ensures
            r@ == r_neg(self@),
    {
        proof {
            use_type_invariant(self);
        }
        Rat { n: -self.n, d: self.d }
    }

    /// Exact difference, when it fits.
    pub fn sub(&self, rhs: &Rat) -> (r: Option<Rat>)
        ensures
            oview(r) == pack(r_sub(self@, rhs@)),
    {
        self.add(&rhs.neg())
    }

    /// Exact product, when it fits.
    pub fn mul(&self, rhs: &Rat) -> (r: Option<Rat>)
        ensures
            oview(r) == pack(r_mul(self@, rhs@)),
    {
        proof {
            use_type_invariant(self);
            use_type_invariant(rhs);
            lemma_coeff_prod(self@.n, rhs@.n);
            lemma_coeff_prod(self@.d, rhs@.d);
            lemma_pos_prod(self@.d, rhs@.d);
        }
        let n: i128 = (self.n as i128) * (rhs.n as i128);
        let d: i128 = (self.d as i128) * (rhs.d as i128);
        Self::mk(n, d)
    }

    /// Exact quotient, when it fits.  The divisor must not be zero.
    pub fn div(&self, rhs: &Rat) -> (r: Option<Rat>)
        requires
            rhs@.n != 0,
        ensures
            oview(r) == pack(r_div(self@, rhs@)),
    {
        proof {
            use_type_invariant(self);
            use_type_invariant(rhs);
            lemma_coeff_prod(self@.n, rhs@.d);
            lemma_coeff_prod(self@.d, rhs@.n);
            if rhs@.n >= 1 {
                lemma_pos_prod(self@.d, rhs@.n);
            } else {
                lemma_pos_prod(self@.d, -rhs@.n);
                assert((self@.d) * (-rhs@.n) == -(self@.d * rhs@.n)) by (nonlinear_arith);
                assert((self@.n) * (-rhs@.d) == -(self@.n * rhs@.d)) by (nonlinear_arith);
            }
        }
        let n: i128 = (self.n as i128) * (rhs.d as i128);
        let d: i128 = (self.d as i128) * (rhs.n as i128);
        if d >= 1 {
            Self::mk(n, d)
        } else {
            Self::mk(-n, -d)
        }
    }

    /// Exact comparison.
    pub fn le(&self, rhs: &Rat) -> (r: bool)
        ensures
            r == r_le(self@, rhs@),
    {
        proof {
            use_type_invariant(self);
            use_type_invariant(rhs);
            lemma_coeff_prod(self@.n, rhs@.d);
            lemma_coeff_prod(rhs@.n, self@.d);
        }
        (self.n as i128) * (rhs.d as i128) <= (rhs.n as i128) * (self.d as i128)
    }

    /// Exact strict comparison.
    pub fn lt(&self, rhs: &Rat) -> (r: bool)
        ensures
            r == r_lt(self@, rhs@),
    {
        proof {
            use_type_invariant(self);
            use_type_invariant(rhs);
            lemma_coeff_prod(self@.n, rhs@.d);
            lemma_coeff_prod(rhs@.n, self@.d);
        }
        (self.n as i128) * (rhs.d as i128) < (rhs.n as i128) * (self.d as i128)
    }

    /// Exact equality of values, whatever the representations.
    pub fn eq_val(&self, rhs: &Rat) -> (r: bool)
        ensures
            r == eqv(self@, rhs@),
    {
        proof {
            use_type_invariant(self);
            use_type_invariant(rhs);
            lemma_coeff_prod(self@.n, rhs@.d);
            lemma_coeff_prod(rhs@.n, self@.d);
        }
        (self.n as i128) * (rhs.d as i128) == (rhs.n as i128) * (self.d as i128)
    }
}

/// A product of two coefficients in range stays within `i128`.
proof fn lemma_coeff_prod(a: int, b: int) by (nonlinear_arith)
    requires
        -coeff_max() <= a <= coeff_max(),
        -coeff_max() <= b <= coeff_max(),
    ensures
        -(coeff_max() * coeff_max()) <= a * b <= coeff_max() * coeff_max(),
{
}

/// A product of two positive factors is positive.
proof fn lemma_pos_prod(a: int, b: int) by (nonlinear_arith)
    requires
        1 <= a,
        1 <= b,
    ensures
        1 <= a * b,
{
}

/// The magnitude of a reduced numerator is no larger than the original.
proof fn lemma_abs_div_le(n: int, g: int)
    requires
        1 <= g,
    ensures
        n >= 0 ==> n / g <= n,
        n < 0 && divides(g as nat, abs_i(n)) ==> -(n / g) <= -n && n / g <= 0,
{
    if n >= 0 {
        lemma_div_is_ordered_by_denominator(n, 1, g);
        lemma_div_basics(n);
    } else {
        if divides(g as nat, abs_i(n)) {
            let k = choose|k: nat| abs_i(n) == #[trigger] ((g as nat) * k);
            assert((g as int) * (-(k as int)) == -((g as int) * (k as int))) by (nonlinear_arith);
            lemma_div_multiples_vanish(-(k as int), g as int);
            assert(n / g == -(k as int));
            assert(k as int <= g * k) by (nonlinear_arith)
                requires
                    1 <= g,
            ;
        }
    }
}

/// How many subdivisions of one the square root is resolved to.
pub open spec fn sqrt_scale() -> int {
    65536
}

/// The integer square root, rounded down.
pub open spec fn isqrt(n: nat) -> nat
    decreases n,
{
    if n == 0 {
        0
    } else {
        let r = isqrt((n - 1) as nat);
        if (r + 1) * (r + 1) <= n {
            r + 1
        } else {
            r
        }
    }
}

/// The integer square root brackets its argument.
pub proof fn lemma_isqrt(n: nat)
    ensures
        isqrt(n) * isqrt(n) <= n,
        n < (isqrt(n) + 1) * (isqrt(n) + 1),
    decreases n,
{
    if n == 0 {
        assert(isqrt(n) == 0);
        assert(0 * 0 <= n);
        assert(n < (0 + 1) * (0 + 1)) by (nonlinear_arith)
            requires
                n == 0,
        ;
    } else {
        lemma_isqrt((n - 1) as nat);
        let r = isqrt((n - 1) as nat);
        if (r + 1) * (r + 1) <= n {
            assert(isqrt(n) == r + 1);
            assert(n < (r + 2) * (r + 2)) by (nonlinear_arith)
                requires
                    n - 1 < (r + 1) * (r + 1),
            ;
            assert(isqrt(n) * isqrt(n) <= n);
            assert(n < (isqrt(n) + 1) * (isqrt(n) + 1));
        } else {
            assert(isqrt(n) == r);
            assert(isqrt(n) * isqrt(n) <= n);
            assert(n < (isqrt(n) + 1) * (isqrt(n) + 1));
        }
    }
}

/// Only one value brackets an argument that way.
proof fn lemma_isqrt_unique(n: nat, r: nat)
    requires
        r * r <= n,
        n < (r + 1) * (r + 1),
    ensures
        r == isqrt(n),
{
    lemma_isqrt(n);
    let s = isqrt(n);
    assert(r == s) by (nonlinear_arith)
        requires
            r * r <= n,
            n < (r + 1) * (r + 1),
            s * s <= n,
            n < (s + 1) * (s + 1),
    ;
}

/// The square root of a non-negative scalar, rounded down to a whole number
/// of `1 / sqrt_scale()` steps.  Equal scalar values give equal results
/// whatever their representation.
pub open spec fn rat_sqrt(p: Ratio) -> Ratio {
    Ratio { n: isqrt(((sqrt_scale() * sqrt_scale() * p.n) / p.d) as nat) as int, d: sqrt_scale() }
}

/// The rounding step of `rat_sqrt` depends only on the scalar value, not on
/// the fraction that carries it.
pub proof fn lemma_rat_sqrt_eqv(p: Ratio, q: Ratio)
    requires
        wf(p),
        wf(q),
        p.n >= 0,
        eqv(p, q),
    ensures
        rat_sqrt(p) == rat_sqrt(q),
{
    let s2 = sqrt_scale() * sqrt_scale();
    assert(q.n >= 0) by (nonlinear_arith)
        requires
            p.n * q.d == q.n * p.d,
            p.n >= 0,
            p.d >= 1,
            q.d >= 1,
    ;
    assert((s2 * p.n) * q.d == (s2 * q.n) * p.d) by (nonlinear_arith)
        requires
            p.n * q.d == q.n * p.d,
    ;
    lemma_div_floor_cross(s2 * p.n, p.d, s2 * q.n, q.d);
    assert((s2 * p.n) / p.d == (s2 * q.n) / q.d);
}

/// Two fractions with the same value have the same floor.
proof fn lemma_div_floor_cross(a: int, b: int, c: int, d: int)
    requires
        1 <= b,
        1 <= d,
        a * d == c * b,
    ensures
        a / b == c / d,
{
    lemma_fundamental_div_mod(a, b);
    lemma_fundamental_div_mod(c, d);
    let qa = a / b;
    let ra = a % b;
    let qc = c / d;
    let rc = c % d;
    lemma_mod_division_less_than_divisor(a, b);
    lemma_mod_division_less_than_divisor(c, d);
    assert((b * qa + ra) * d == (d * qc + rc) * b) by (nonlinear_arith)
        requires
            a == b * qa + ra,
            c == d * qc + rc,
            a * d == c * b,
    ;
    assert(qa == qc) by (nonlinear_arith)
        requires
            (b * qa + ra) * d == (d * qc + rc) * b,
            0 <= ra < b,
            0 <= rc < d,
            1 <= b,
            1 <= d,
    ;
}

/// The integer square root, by bisection.
fn isqrt_u128(n: u128) -> (r: u128)
    ensures
        r as nat == isqrt(n as nat),
        r * r <= n,
{
    if n == 0 {
        proof {
            assert(isqrt(0) == 0);
        }
        return 0;
    }
    let mut lo: u128 = 0;
    let mut hi: u128 = 0x1_0000_0000_0000_0000;
    while lo + 1 < hi
        invariant
            (lo as int) * (lo as int) <= n as int,
            (n as int) < (hi as int) * (hi as int),
            lo < hi,
            hi <= 0x1_0000_0000_0000_0000,
        decreases hi - lo,
    {
        let mid: u128 = lo + (hi - lo) / 2;
        proof {
            assert((mid as int) * (mid as int) <= 0xffff_ffff_ffff_ffff * 0xffff_ffff_ffff_ffff)
                by (nonlinear_arith)
                requires
                    0 <= (mid as int) <= 0xffff_ffff_ffff_ffff,
            ;
        }
        if mid * mid <= n {
            lo = mid;
        } else {
            hi = mid;
        }
    }
    proof {
        lemma_isqrt_unique(n as nat, lo as nat);
    }
    lo
}

impl Rat {
    /// The square root of a non-negative scalar, rounded down to a whole
    /// number of `1 / sqrt_scale()` steps.
    pub fn sqrt(&self) -> (r: Rat)
        requires
            self@.n >= 0,
        ensures
            r@ == rat_sqrt(self@),
    {
        proof {
            use_type_invariant(self);
            lemma_div_pos_is_pos(sqrt_scale() * sqrt_scale() * self@.n, self@.d);
            assert(65536 * 65536 * (self@.n) <= 0x1_0000_0000 * coeff_max()) by (nonlinear_arith)
                requires
                    0 <= self@.n <= coeff_max(),
            ;
            lemma_div_is_ordered(
                sqrt_scale() * sqrt_scale() * self@.n,
                0x1_0000_0000 * coeff_max(),
                self@.d,
            );
            lemma_div_is_ordered_by_denominator(0x1_0000_0000 * coeff_max(), 1, self@.d);
            lemma_div_basics(0x1_0000_0000 * coeff_max());
        }
        let q: u128 = (65536u128 * 65536u128 * (self.n as u128)) / (self.d as u128);
        let r: u128 = isqrt_u128(q);
        proof {
            assert((r as int) * (r as int) <= q as int);
            assert((r as int) < 0x1_0000_0000_0000) by (nonlinear_arith)
                requires
                    (r as int) * (r as int) <= q as int,
                    (q as int) <= 0x1_0000_0000 * coeff_max(),
            ;
        }
        Rat { n: r as i64, d: 65536 }
    }
}

/// Euclid's algorithm.
fn gcd_u128(a0: u128, b0: u128) -> (g: u128)
    ensures
        g as nat == gcd(a0 as nat, b0 as nat),
{
    let mut a: u128 = a0;
    let mut b: u128 = b0;
    while b != 0
        invariant
            gcd(a as nat, b as nat) == gcd(a0 as nat, b0 as nat),
        decreases b,
    {
        let t: u128 = a % b;
        a = b;
        b = t;
    }
    a
}

} // verus!
