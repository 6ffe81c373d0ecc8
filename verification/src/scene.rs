//! Primitives and the nearest-hit resolver.
//!
//! A primitive answers a ray with the exact parameters `t` at which
//! `origin + direction * t` meets it; the scene collects those parameters
//! over all primitives and returns the color of the nearest one inside an
//! optional `[min, max]` range, or black.
//!
//! Arithmetic is exact, so the degenerate inputs that floating point would
//! answer with `NaN` (a zero direction, a ray parallel to a triangle's plane,
//! a degenerate triangle) have no finite parameter here; they yield an empty
//! answer, which resolves to "no hit" exactly as the propagated `NaN` would.

use vstd::prelude::*;
use crate::rat::{
    Rat, Ratio, eqv, lemma_pack_nonzero, oview, pack, r_add, r_div, r_int, r_le, r_lt, r_mul, r_neg,
    r_sub, rat_sqrt,
};
use crate::vector::{V3, Vector3, c_cross, c_dot, cv_add, cv_scale, cv_sub, ov3};
use crate::color::Color;

verus! {

/// The mathematical value of a sphere.
pub ghost struct SphereV {
    pub radius: Ratio,
    pub center: V3,
    pub color: u32,
}

/// The mathematical value of a triangle.
pub ghost struct TriV {
    pub a: V3,
    pub b: V3,
    pub c: V3,
    pub color: u32,
}

/// The mathematical value of a primitive.
pub ghost enum PrimV {
    Sphere(SphereV),
    Triangle(TriV),
}

/// The ray parameters of an optional answer, as fractions.
pub open spec fn oroots(r: Option<Vec<Rat>>) -> Option<Seq<Ratio>> {
    match r {
        Some(v) => Some(v@.map_values(|x: Rat| x@)),
        None => None,
    }
}

/// A primitive: something a ray can hit, with a fixed color.
pub trait Renderable: Color {
    /// The answer the primitive owes to a ray, as checked exact arithmetic
    /// computes it.
    spec fn roots_spec(&self, o: V3, d: V3) -> Option<Seq<Ratio>>;

    /// All ray parameters `t` at which `origin + direction * t` meets the
    /// primitive.  `None` reports that an exact intermediate value left the
    /// stored range.
    fn intersect_ray(&self, origin: &Vector3, direction: &Vector3) -> (r: Option<Vec<Rat>>)
        ensures
            oroots(r) == self.roots_spec(origin@, direction@),
    ;
}

/// A sphere with positive radius.
pub struct Sphere {
    radius: Rat,
    position: Vector3,
    color: u32,
}

impl View for Sphere {
    type V = SphereV;

    closed spec fn view(&self) -> SphereV {
        SphereV { radius: self.radius@, center: self.position@, color: self.color }
    }
}

/// The checked roots of the quadratic `a t^2 + b t + c = 0` that a ray makes
/// with a sphere: `a = d.d`, `b = 2 (o - center).d`,
/// `c = (o - center).(o - center) - radius^2`.  A negative discriminant has
/// no root; a zero discriminant has the tangent root `-b / (2 a)`; otherwise
/// the roots are `(-b + s) / (2 a)` then `(-b - s) / (2 a)` where `s` is the
/// discriminant's square root as `rat_sqrt` rounds it.  A zero `a` (a zero
/// direction) has no finite parameter and yields the empty answer.
pub open spec fn c_sphere_roots(s: SphereV, o: V3, d: V3) -> Option<Seq<Ratio>> {
    match cv_sub(o, s.center) {
        None => None,
        Some(co) => match c_dot(d, d) {
            None => None,
            Some(a) => match c_dot(co, d) {
                None => None,
                Some(b0) => match pack(r_mul(r_int(2), b0)) {
                    None => None,
                    Some(b) => match c_dot(co, co) {
                        None => None,
                        Some(c1) => match pack(r_mul(s.radius, s.radius)) {
                            None => None,
                            Some(r2) => match pack(r_sub(c1, r2)) {
                                None => None,
                                Some(c) => match pack(r_mul(b, b)) {
                                    None => None,
                                    Some(b2) => match pack(r_mul(r_int(4), a)) {
                                        None => None,
                                        Some(fa) => match pack(r_mul(fa, c)) {
                                            None => None,
                                            Some(fac) => match pack(r_sub(b2, fac)) {
                                                None => None,
                                                Some(disc) => c_sphere_solve(a, b, disc),
                                            },
                                        },
                                    },
                                },
                            },
                        },
                    },
                },
            },
        },
    }
}

/// The root set once the quadratic's coefficients and discriminant stand.
pub open spec fn c_sphere_solve(a: Ratio, b: Ratio, disc: Ratio) -> Option<Seq<Ratio>> {
    if r_lt(disc, r_int(0)) {
        Some(Seq::empty())
    } else if eqv(a, r_int(0)) {
        Some(Seq::empty())
    } else {
        match pack(r_mul(r_int(2), a)) {
            None => None,
            Some(two_a) => if eqv(disc, r_int(0)) {
                match pack(r_div(r_neg(b), two_a)) {
                    None => None,
                    Some(t) => Some(seq![t]),
                }
            } else {
                let s = rat_sqrt(disc);
                match pack(r_add(r_neg(b), s)) {
                    None => None,
                    Some(nb1) => match pack(r_div(nb1, two_a)) {
                        None => None,
                        Some(t1) => match pack(r_sub(r_neg(b), s)) {
                            None => None,
                            Some(nb2) => match pack(r_div(nb2, two_a)) {
                                None => None,
                                Some(t2) => Some(seq![t1, t2]),
                            },
                        },
                    },
                }
            },
        }
    }
}

impl Sphere {
    /// A sphere of positive radius centered at `position`.
    pub fn new(radius: Rat, position: Vector3, color: u32) -> (r: Sphere)
        requires
            r_lt(r_int(0), radius@),
        ensures
            r@ == (SphereV { radius: radius@, center: position@, color }),
    {
        Sphere { radius, position, color }
    }
}

impl Color for Sphere {
    open spec fn color_spec(&self) -> u32 {
        self@.color
    }

    fn to_color(&self) -> (c: u32)
        ensures
            c == self.color_spec(),
    {
        self.color
    }
}

impl Renderable for Sphere {
    open spec fn roots_spec(&self, o: V3, d: V3) -> Option<Seq<Ratio>> {
        c_sphere_roots(self@, o, d)
    }

    fn intersect_ray(&self, origin: &Vector3, direction: &Vector3) -> (r: Option<Vec<Rat>>)
        ensures
            oroots(r) == self.roots_spec(origin@, direction@),
    {
        let zero = Rat::of_int(0);
        let co = match origin.sub(&self.position) {
            Some(v) => v,
            None => {
                return None;
            },
        };
        let a = match direction.dot(direction) {
            Some(v) => v,
            None => {
                return None;
            },
        };
        let b0 = match co.dot(direction) {
            Some(v) => v,
            None => {
                return None;
            },
        };
        let b = match Rat::of_int(2).mul(&b0) {
            Some(v) => v,
            None => {
                return None;
            },
        };
        let c1 = match co.dot(&co) {
            Some(v) => v,
            None => {
                return None;
            },
        };
        let r2 = match self.radius.mul(&self.radius) {
            Some(v) => v,
            None => {
                return None;
            },
        };
        let c = match c1.sub(&r2) {
            Some(v) => v,
            None => {
                return None;
            },
        };
        let b2 = match b.mul(&b) {
            Some(v) => v,
            None => {
                return None;
            },
        };
        let fa = match Rat::of_int(4).mul(&a) {
            Some(v) => v,
            None => {
                return None;
            },
        };
        let fac = match fa.mul(&c) {
            Some(v) => v,
            None => {
                return None;
            },
        };
        let disc = match b2.sub(&fac) {
            Some(v) => v,
            None => {
                return None;
            },
        };
        if disc.lt(&zero) {
            let out: Vec<Rat> = Vec::new();
            proof {
                assert(out@.map_values(|x: Rat| x@) =~= Seq::<Ratio>::empty());
            }
            return Some(out);
        }
        if a.eq_val(&zero) {
            let out: Vec<Rat> = Vec::new();
            proof {
                assert(out@.map_values(|x: Rat| x@) =~= Seq::<Ratio>::empty());
            }
            return Some(out);
        }
        let two_a = match Rat::of_int(2).mul(&a) {
            Some(v) => v,
            None => {
                return None;
            },
        };
        proof {
            use_type_invariant(&a);
            lemma_pack_nonzero(r_mul(r_int(2), a@));
        }
        if disc.eq_val(&zero) {
            let t = match b.neg().div(&two_a) {
                Some(v) => v,
                None => {
                    return None;
                },
            };
            let mut out: Vec<Rat> = Vec::new();
            out.push(t);
            proof {
                assert(out@.map_values(|x: Rat| x@) =~= seq![t@]);
            }
            return Some(out);
        }
        let s = disc.sqrt();
        let t1 = match match b.neg().add(&s) {
            Some(v) => v,
            None => {
                return None;
            },
        }.div(&two_a) {
            Some(v) => v,
            None => {
                return None;
            },
        };
        let t2 = match match b.neg().sub(&s) {
            Some(v) => v,
            None => {
                return None;
            },
        }.div(&two_a) {
            Some(v) => v,
            None => {
                return None;
            },
        };
        let mut out: Vec<Rat> = Vec::new();
        out.push(t1);
        out.push(t2);
        proof {
            assert(out@.map_values(|x: Rat| x@) =~= seq![t1@, t2@]);
        }
        Some(out)
    }
}

/// A triangle given by its three vertices.
pub struct Triangle {
    a: Vector3,
    b: Vector3,
    c: Vector3,
    color: u32,
}

impl View for Triangle {
    type V = TriV;

    closed spec fn view(&self) -> TriV {
        TriV { a: self.a@, b: self.b@, c: self.c@, color: self.color }
    }
}

/// The checked ray parameter of a triangle: with `nn = (b - a) x (c - a)`
/// the plane's (unnormalized) normal, the ray meets the plane at
/// `t = (nn.a - nn.origin) / (nn.direction)`; the hit point must lie on the
/// inner side of all three oriented edges `(b, a)`, `(c, a)`, `(a, c)`.
/// Scaling the normal does not move `t` or the side tests, so the normal is
/// left unnormalized and `t` is exact.  A zero `nn.direction` (a parallel
/// ray, or a degenerate triangle) has no finite parameter and yields the
/// empty answer.
pub open spec fn c_triangle_roots(tr: TriV, o: V3, d: V3) -> Option<Seq<Ratio>> {
    match cv_sub(tr.b, tr.a) {
        None => None,
        Some(e1) => match cv_sub(tr.c, tr.a) {
            None => None,
            Some(e2) => match c_cross(e1, e2) {
                None => None,
                Some(nn) => match c_dot(nn, tr.a) {
                    None => None,
                    Some(dist) => match c_dot(nn, o) {
                        None => None,
                        Some(no) => match pack(r_sub(dist, no)) {
                            None => None,
                            Some(num) => match c_dot(nn, d) {
                                None => None,
                                Some(den) => if eqv(den, r_int(0)) {
                                    Some(Seq::empty())
                                } else {
                                    match pack(r_div(num, den)) {
                                        None => None,
                                        Some(t) => match cv_scale(d, t) {
                                            None => None,
                                            Some(dt) => match cv_add(o, dt) {
                                                None => None,
                                                Some(q) => c_triangle_inside(tr, e1, nn, q, t),
                                            },
                                        },
                                    }
                                },
                            },
                        },
                    },
                },
            },
        },
    }
}

/// The three oriented edge tests at the hit point `q`.
pub open spec fn c_triangle_inside(tr: TriV, e1: V3, nn: V3, q: V3, t: Ratio) -> Option<
    Seq<Ratio>,
> {
    match cv_sub(q, tr.a) {
        None => None,
        Some(w1) => match c_cross(e1, w1) {
            None => None,
            Some(cr1) => match c_dot(cr1, nn) {
                None => None,
                Some(s1) => match cv_sub(tr.c, tr.a) {
                    None => None,
                    Some(e2) => match c_cross(e2, w1) {
                        None => None,
                        Some(cr2) => match c_dot(cr2, nn) {
                            None => None,
                            Some(s2) => match cv_sub(tr.a, tr.c) {
                                None => None,
                                Some(e3) => match cv_sub(q, tr.c) {
                                    None => None,
                                    Some(w3) => match c_cross(e3, w3) {
                                        None => None,
                                        Some(cr3) => match c_dot(cr3, nn) {
                                            None => None,
                                            Some(s3) => if r_le(r_int(0), s1) && r_le(
                                                r_int(0),
                                                s2,
                                            ) && r_le(r_int(0), s3) {
                                                Some(seq![t])
                                            } else {
                                                Some(Seq::empty())
                                            },
                                        },
                                    },
                                },
                            },
                        },
                    },
                },
            },
        },
    }
}

impl Triangle {
    /// A triangle over three vertices; degenerate (collinear) vertices are
    /// not rejected, they simply never answer a ray.
    pub fn new(a: Vector3, b: Vector3, c: Vector3, color: u32) -> (r: Triangle)
        ensures
            r@ == (TriV { a: a@, b: b@, c: c@, color }),
    {
        Triangle { a, b, c, color }
    }
}

impl Color for Triangle {
    open spec fn color_spec(&self) -> u32 {
        self@.color
    }

    fn to_color(&self) -> (c: u32)
        ensures
            c == self.color_spec(),
    {
        self.color
    }
}

impl Renderable for Triangle {
    open spec fn roots_spec(&self, o: V3, d: V3) -> Option<Seq<Ratio>> {
        c_triangle_roots(self@, o, d)
    }

    fn intersect_ray(&self, origin: &Vector3, direction: &Vector3) -> (r: Option<Vec<Rat>>)
        ensures
            oroots(r) == self.roots_spec(origin@, direction@),
    {
        let zero = Rat::of_int(0);
        let e1 = match self.b.sub(&self.a) {
            Some(v) => v,
            None => {
                return None;
            },
        };
        let e2 = match self.c.sub(&self.a) {
            Some(v) => v,
            None => {
                return None;
            },
        };
        let nn = match e1.cross(&e2) {
            Some(v) => v,
            None => {
                return None;
            },
        };
        let dist = match nn.dot(&self.a) {
            Some(v) => v,
            None => {
                return None;
            },
        };
        let no = match nn.dot(origin) {
            Some(v) => v,
            None => {
                return None;
            },
        };
        let num = match dist.sub(&no) {
            Some(v) => v,
            None => {
                return None;
            },
        };
        let den = match nn.dot(direction) {
            Some(v) => v,
            None => {
                return None;
            },
        };
        if den.eq_val(&zero) {
            let out: Vec<Rat> = Vec::new();
            proof {
                assert(out@.map_values(|x: Rat| x@) =~= Seq::<Ratio>::empty());
            }
            return Some(out);
        }
        let t = match num.div(&den) {
            Some(v) => v,
            None => {
                return None;
            },
        };
        let dt = match direction.mul(&t) {
            Some(v) => v,
            None => {
                return None;
            },
        };
        let q = match origin.add(&dt) {
            Some(v) => v,
            None => {
                return None;
            },
        };
        let w1 = match q.sub(&self.a) {
            Some(v) => v,
            None => {
                return None;
            },
        };
        let cr1 = match e1.cross(&w1) {
            Some(v) => v,
            None => {
                return None;
            },
        };
        let s1 = match cr1.dot(&nn) {
            Some(v) => v,
            None => {
                return None;
            },
        };
        let e2b = match self.c.sub(&self.a) {
            Some(v) => v,
            None => {
                return None;
            },
        };
        let cr2 = match e2b.cross(&w1) {
            Some(v) => v,
            None => {
                return None;
            },
        };
        let s2 = match cr2.dot(&nn) {
            Some(v) => v,
            None => {
                return None;
            },
        };
        let e3 = match self.a.sub(&self.c) {
            Some(v) => v,
            None => {
                return None;
            },
        };
        let w3 = match q.sub(&self.c) {
            Some(v) => v,
            None => {
                return None;
            },
        };
        let cr3 = match e3.cross(&w3) {
            Some(v) => v,
            None => {
                return None;
            },
        };
        let s3 = match cr3.dot(&nn) {
            Some(v) => v,
            None => {
                return None;
            },
        };
        let inside = !s1.lt(&zero) && !s2.lt(&zero) && !s3.lt(&zero);
        if inside {
            let mut out: Vec<Rat> = Vec::new();
            out.push(t);
            proof {
                assert(out@.map_values(|x: Rat| x@) =~= seq![t@]);
            }
            Some(out)
        } else {
            let out: Vec<Rat> = Vec::new();
            proof {
                assert(out@.map_values(|x: Rat| x@) =~= Seq::<Ratio>::empty());
            }
            Some(out)
        }
    }
}

/// A sphere or a triangle: the closed set of shapes the scene renders.
pub enum Primitive {
    Sphere(Sphere),
    Triangle(Triangle),
}

impl View for Primitive {
    type V = PrimV;

    open spec fn view(&self) -> PrimV {
        match self {
            Primitive::Sphere(s) => PrimV::Sphere(s@),
            Primitive::Triangle(t) => PrimV::Triangle(t@),
        }
    }
}

/// The checked answer a primitive owes to a ray.
pub open spec fn c_prim_roots(p: PrimV, o: V3, d: V3) -> Option<Seq<Ratio>> {
    match p {
        PrimV::Sphere(s) => c_sphere_roots(s, o, d),
        PrimV::Triangle(t) => c_triangle_roots(t, o, d),
    }
}

/// The color a primitive shows.
pub open spec fn prim_color(p: PrimV) -> u32 {
    match p {
        PrimV::Sphere(s) => s.color,
        PrimV::Triangle(t) => t.color,
    }
}

impl Color for Primitive {
    open spec fn color_spec(&self) -> u32 {
        prim_color(self@)
    }

    fn to_color(&self) -> (c: u32)
        ensures
            c == self.color_spec(),
    {
        match self {
            Primitive::Sphere(s) => s.to_color(),
            Primitive::Triangle(t) => t.to_color(),
        }
    }
}

impl Renderable for Primitive {
    open spec fn roots_spec(&self, o: V3, d: V3) -> Option<Seq<Ratio>> {
        c_prim_roots(self@, o, d)
    }

    fn intersect_ray(&self, origin: &Vector3, direction: &Vector3) -> (r: Option<Vec<Rat>>)
        ensures
            oroots(r) == self.roots_spec(origin@, direction@),
    {
        match self {
            Primitive::Sphere(s) => s.intersect_ray(origin, direction),
            Primitive::Triangle(t) => t.intersect_ray(origin, direction),
        }
    }
}

/// The resolver's running state: the tightest upper bound a parameter may
/// still beat, and the color of the primitive that set it.  An absent bound
/// accepts any parameter from above.
pub ghost struct TraceSt {
    pub bound: Option<Ratio>,
    pub color: Option<u32>,
}

/// A parameter is taken when it is at least `min` (when given) and at most
/// the running bound (when one stands).  The `<=` against the bound makes
/// the later of two equally distant hits win.
pub open spec fn accepts(t: Ratio, min: Option<Ratio>, bound: Option<Ratio>) -> bool {
    (match min {
        Some(m) => r_le(m, t),
        None => true,
    }) && (match bound {
        Some(b) => r_le(t, b),
        None => true,
    })
}

/// One primitive's parameters folded into the state, in their given order.
pub open spec fn scan_roots(roots: Seq<Ratio>, col: u32, min: Option<Ratio>, st: TraceSt) -> TraceSt
    decreases roots.len(),
{
    if roots.len() == 0 {
        st
    } else {
        let st1 = if accepts(roots[0], min, st.bound) {
            TraceSt { bound: Some(roots[0]), color: Some(col) }
        } else {
            st
        };
        scan_roots(roots.skip(1), col, min, st1)
    }
}

/// Every primitive's parameters folded into the state, in insertion order.
/// Absent as soon as one primitive's answer is absent.
pub open spec fn scan_prims(
    prims: Seq<PrimV>,
    o: V3,
    d: V3,
    min: Option<Ratio>,
    st: TraceSt,
) -> Option<TraceSt>
    decreases prims.len(),
{
    if prims.len() == 0 {
        Some(st)
    } else {
        match c_prim_roots(prims[0], o, d) {
            Some(roots) => scan_prims(
                prims.skip(1),
                o,
                d,
                min,
                scan_roots(roots, prim_color(prims[0]), min, st),
            ),
            None => None,
        }
    }
}

/// The color of the nearest hit within `[min, max]`, or black.
pub open spec fn c_trace(
    prims: Seq<PrimV>,
    o: V3,
    d: V3,
    min: Option<Ratio>,
    max: Option<Ratio>,
) -> Option<u32> {
    match scan_prims(prims, o, d, min, TraceSt { bound: max, color: None }) {
        Some(st) => match st.color {
            Some(c) => Some(c),
            None => Some(0),
        },
        None => None,
    }
}

/// An ordered collection of primitives, grown by insertion and queried by
/// rays.
pub struct Scene {
    objects: Vec<Primitive>,
}

impl View for Scene {
    type V = Seq<PrimV>;

    closed spec fn view(&self) -> Seq<PrimV> {
        self.objects@.map_values(|p: Primitive| p@)
    }
}

impl Scene {
    /// A scene with no primitives.
    pub fn empty() -> (r: Scene)
        ensures
            r@ == Seq::<PrimV>::empty(),
    {
        let r = Scene { objects: Vec::new() };
        proof {
            assert(r@ =~= Seq::<PrimV>::empty());
        }
        r
    }

    /// Append a primitive; insertion order decides ties (see `accepts`).
    pub fn add(&mut self, object: Primitive)
        ensures
            final(self)@ == old(self)@.push(object@),
    {
        let ghost pv = object@;
        self.objects.push(object);
        proof {
            assert(self@ =~= old(self)@.push(pv));
        }
    }

    /// The color of the nearest hit of the ray `origin + direction * t`
    /// within `t` in `[min, max]` (either end optional), or black when no
    /// primitive is hit there.  Among equally near hits the primitive added
    /// last wins.  `None` reports that an exact intermediate value left the
    /// stored range.
    #[verifier::rlimit(50)]
    pub fn trace_ray(
        &self,
        origin: &Vector3,
        direction: &Vector3,
        min: Option<Rat>,
        max: Option<Rat>,
    ) -> (r: Option<u32>)
        ensures
            r == c_trace(self@, origin@, direction@, oview(min), oview(max)),
    {
        let ghost o = origin@;
        let ghost d = direction@;
        let ghost minv = oview(min);
        let ghost st0 = TraceSt { bound: oview(max), color: None };
        let ghost target = scan_prims(self@, o, d, minv, st0);
        proof {
            assert(self@.skip(0) =~= self@);
        }
        let mut bound: Option<Rat> = max;
        let mut col: Option<u32> = None;
        let n: usize = self.objects.len();
        let mut i: usize = 0;
        while i < n
            invariant
                0 <= i <= n,
                n == self.objects.len(),
                o == origin@,
                d == direction@,
                minv == oview(min),
                target == scan_prims(self@, o, d, minv, st0),
                st0 == (TraceSt { bound: oview(max), color: None }),
                scan_prims(
                    self@.skip(i as int),
                    o,
                    d,
                    minv,
                    TraceSt { bound: oview(bound), color: col },
                ) == target,
            decreases n - i,
        {
            proof {
                assert(self@.len() == self.objects@.len());
                assert(self@.skip(i as int)[0] == self@[i as int]);
                assert(self@.skip(i as int).skip(1) =~= self@.skip(i as int + 1));
            }
            let ghost cur = TraceSt { bound: oview(bound), color: col };
            let obj = &self.objects[i];
            proof {
                assert(obj@ == self@[i as int]);
            }
            let rts = obj.intersect_ray(origin, direction);
            let rv = match rts {
                Some(v) => v,
                None => {
                    return None;
                },
            };
            let ci: u32 = obj.to_color();
            let ghost rvv = rv@.map_values(|x: Rat| x@);
            proof {
                assert(rvv.skip(0) =~= rvv);
                assert(c_prim_roots(self@[i as int], o, d) == Some(rvv));
                assert(scan_prims(self@.skip(i as int), o, d, minv, cur) == scan_prims(
                    self@.skip(i as int + 1),
                    o,
                    d,
                    minv,
                    scan_roots(rvv, ci, minv, cur),
                ));
            }
            let m: usize = rv.len();
            let mut j: usize = 0;
            while j < m
                invariant
                    0 <= j <= m,
                    m == rv.len(),
                    o == origin@,
                    d == direction@,
                    minv == oview(min),
                    target == scan_prims(self@, o, d, minv, st0),
                    rvv == rv@.map_values(|x: Rat| x@),
                    scan_prims(
                        self@.skip(i as int + 1),
                        o,
                        d,
                        minv,
                        scan_roots(
                            rvv.skip(j as int),
                            ci,
                            minv,
                            TraceSt { bound: oview(bound), color: col },
                        ),
                    ) == target,
                decreases m - j,
            {
                proof {
                    assert(rvv.skip(j as int)[0] == rvv[j as int]);
                    assert(rvv.skip(j as int).skip(1) =~= rvv.skip(j as int + 1));
                }
                let t = &rv[j];
                let ok_min: bool = match &min {
                    Some(mm) => mm.le(t),
                    None => true,
                };
                let ok_bound: bool = match &bound {
                    Some(bb) => t.le(bb),
                    None => true,
                };
                if ok_min && ok_bound {
                    bound = Some(*t);
                    col = Some(ci);
                }
                j = j + 1;
            }
            proof {
                assert(rvv.skip(m as int) =~= Seq::<Ratio>::empty());
            }
            i = i + 1;
        }
        proof {
            assert(self@.skip(n as int) =~= Seq::<PrimV>::empty());
        }
        match col {
            Some(c) => Some(c),
            None => Some(0),
        }
    }
}

} // verus!
