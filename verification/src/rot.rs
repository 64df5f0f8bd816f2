//! Rotation of the view plane about the view axis, stored as the
//! cosine/sine pair of its angle: a fixed-point unit complex number.
//! Every mutation renormalizes the pair, so the squared norm stays
//! within `UNIT_TOL` of one — the drift-free orientation invariant.

use vstd::prelude::*;
use crate::fx::Fx;
use crate::fx::FX_ONE;
use crate::fx::tdiv;
use crate::fx::fx_mul;
use crate::fx::isqrt_spec;
use crate::fx::lemma_isqrt_bounds;
use crate::fx::lemma_tdiv_bounds;
use crate::fx::tdiv_i64;
use crate::fx::fx_mul_i64;
use crate::fx::isqrt_u64;

verus! {

/// Accepted drift of the squared norm around `FX_ONE * FX_ONE`, in
/// raw^2 units; relative to 1.0 this is under 1e-5 on the norm itself.
pub const UNIT_TOL: i64 = 8 * FX_ONE;

/// A rotation of the view plane: cosine and sine of its angle.
#[derive(Clone, Copy, PartialEq, Eq, Structural, Debug)]
pub struct Rot2 {
    pub c: Fx,
    pub s: Fx,
}

/// First component of the unrenormalized complex product of `a` and `d`.
pub open spec fn compose_c(a: Rot2, d: Rot2) -> int {
    fx_mul(a.c.raw as int, d.c.raw as int) - fx_mul(a.s.raw as int, d.s.raw as int)
}

/// Second component of the unrenormalized complex product of `a` and `d`.
pub open spec fn compose_s(a: Rot2, d: Rot2) -> int {
    fx_mul(a.s.raw as int, d.c.raw as int) + fx_mul(a.c.raw as int, d.s.raw as int)
}

/// The pair scaled by `FX_ONE` over the integer square root of its
/// squared norm, truncated toward zero: renormalization to unit length.
pub open spec fn renorm_spec(c: int, s: int) -> Rot2 {
    let m = isqrt_spec(c * c + s * s);
    Rot2 {
        c: Fx { raw: tdiv(c * (FX_ONE as int), m) as i64 },
        s: Fx { raw: tdiv(s * (FX_ONE as int), m) as i64 },
    }
}

/// Composition of two rotations, renormalized.
pub open spec fn rotate_spec(a: Rot2, d: Rot2) -> Rot2 {
    renorm_spec(compose_c(a, d), compose_s(a, d))
}

impl Rot2 {
    /// Squared norm in raw^2 units; unit rotations are near `FX_ONE^2`.
    pub open spec fn norm2(self) -> int {
        (self.c.raw as int) * (self.c.raw as int) + (self.s.raw as int) * (self.s.raw as int)
    }

    /// Unit length up to the fixed tolerance: the orientation invariant.
    pub open spec fn is_unit(self) -> bool {
        (FX_ONE as int) * (FX_ONE as int) - UNIT_TOL <= self.norm2()
            <= (FX_ONE as int) * (FX_ONE as int) + UNIT_TOL
    }

    /// The identity rotation (angle zero).
    pub fn identity() -> (r: Rot2)
        ensures
            r.c.raw == FX_ONE,
            r.s.raw == 0,
            r.is_unit(),
    {
        Rot2 { c: Fx { raw: FX_ONE }, s: Fx { raw: 0 } }
    }

    /// Composes `d` into `self` and renormalizes the result, so the
    /// unit-norm invariant survives arbitrarily long chains of calls.
    pub fn rotate_by(self, d: Rot2) -> (r: Rot2)
        requires
            self.is_unit(),
            d.is_unit(),
        ensures
            r == rotate_spec(self, d),
            r.is_unit(),
    {
        proof {
            lemma_compose_bounds(self, d);
            lemma_rotate_unit(self, d);
        }
        let t1: i64 = fx_mul_i64(self.c.raw, d.c.raw);
        let t2: i64 = fx_mul_i64(self.s.raw, d.s.raw);
        let t3: i64 = fx_mul_i64(self.s.raw, d.c.raw);
        let t4: i64 = fx_mul_i64(self.c.raw, d.s.raw);
        renorm(t1 - t2, t3 + t4)
    }
}

/// The norm of a complex product is the product of the norms: the
/// two-squares identity, applied to the pairs `(p, q)` and `(r, t)`.
pub proof fn lemma_two_squares_product(p: int, q: int, r: int, t: int)
    ensures
        (p * r - q * t) * (p * r - q * t) + (q * r + p * t) * (q * r + p * t) == (p * p + q * q) * (
        r * r + t * t),
{
    let a = p * r;
    let b = q * t;
    let c = q * r;
    let d = p * t;
    assert((a - b) * (a - b) == a * a - 2 * (a * b) + b * b) by (nonlinear_arith);
    assert((c + d) * (c + d) == c * c + 2 * (c * d) + d * d) by (nonlinear_arith);
    assert((p * r) * (p * r) == (p * p) * (r * r)) by (nonlinear_arith);
    assert((q * t) * (q * t) == (q * q) * (t * t)) by (nonlinear_arith);
    assert((q * r) * (q * r) == (q * q) * (r * r)) by (nonlinear_arith);
    assert((p * t) * (p * t) == (p * p) * (t * t)) by (nonlinear_arith);
    assert((p * r) * (q * t) == (q * r) * (p * t)) by (nonlinear_arith);
    let u = p * p;
    let v = q * q;
    let w = r * r;
    let z = t * t;
    assert((u + v) * (w + z) == u * w + u * z + v * w + v * z) by (nonlinear_arith);
}

/// Components of a unit rotation are barely above one in magnitude.
pub proof fn lemma_unit_bound(a: Rot2)
    requires
        a.is_unit(),
    ensures
        -(FX_ONE as int + 4) <= a.c.raw as int <= FX_ONE as int + 4,
        -(FX_ONE as int + 4) <= a.s.raw as int <= FX_ONE as int + 4,
{
    let cr = a.c.raw as int;
    let sr = a.s.raw as int;
    assert(cr * cr >= 0 && sr * sr >= 0) by (nonlinear_arith);
    assert(-(1048576int + 4) <= cr <= 1048576int + 4 && -(1048576int + 4) <= sr <= 1048576int
        + 4) by (nonlinear_arith)
        requires
            cr * cr + sr * sr <= 1048576int * 1048576int + 8 * 1048576int,
            cr * cr >= 0,
            sr * sr >= 0,
    ;
}

/// The composed pair stays small and its squared norm lands within
/// `32 * FX_ONE` of `FX_ONE^2`: good enough for renormalization.
pub proof fn lemma_compose_bounds(a: Rot2, d: Rot2)
    requires
        a.is_unit(),
        d.is_unit(),
    ensures
        -2 * (FX_ONE as int) <= fx_mul(a.c.raw as int, d.c.raw as int) <= 2 * (FX_ONE as int),
        -2 * (FX_ONE as int) <= fx_mul(a.s.raw as int, d.s.raw as int) <= 2 * (FX_ONE as int),
        -2 * (FX_ONE as int) <= fx_mul(a.s.raw as int, d.c.raw as int) <= 2 * (FX_ONE as int),
        -2 * (FX_ONE as int) <= fx_mul(a.c.raw as int, d.s.raw as int) <= 2 * (FX_ONE as int),
        -4 * (FX_ONE as int) <= compose_c(a, d) <= 4 * (FX_ONE as int),
        -4 * (FX_ONE as int) <= compose_s(a, d) <= 4 * (FX_ONE as int),
        (FX_ONE as int) * (FX_ONE as int) - 32 * (FX_ONE as int) <= compose_c(a, d) * compose_c(
            a,
            d,
        ) + compose_s(a, d) * compose_s(a, d) <= (FX_ONE as int) * (FX_ONE as int) + 32 * (
        FX_ONE as int),
{
    let f: int = FX_ONE as int;
    let acr = a.c.raw as int;
    let asr = a.s.raw as int;
    let dcr = d.c.raw as int;
    let dsr = d.s.raw as int;
    lemma_unit_bound(a);
    lemma_unit_bound(d);
    let x1 = acr * dcr;
    let x2 = asr * dsr;
    let x3 = asr * dcr;
    let x4 = acr * dsr;
    assert(-(1048580int * 1048580int) <= x1 <= 1048580int * 1048580int && -(1048580int
        * 1048580int) <= x2 <= 1048580int * 1048580int && -(1048580int * 1048580int) <= x3
        <= 1048580int * 1048580int && -(1048580int * 1048580int) <= x4 <= 1048580int
        * 1048580int) by (nonlinear_arith)
        requires
            x1 == acr * dcr,
            x2 == asr * dsr,
            x3 == asr * dcr,
            x4 == acr * dsr,
            -1048580int <= acr <= 1048580int,
            -1048580int <= asr <= 1048580int,
            -1048580int <= dcr <= 1048580int,
            -1048580int <= dsr <= 1048580int,
    ;
    let m1 = tdiv(x1, f);
    let m2 = tdiv(x2, f);
    let m3 = tdiv(x3, f);
    let m4 = tdiv(x4, f);
    lemma_tdiv_bounds(x1, f);
    lemma_tdiv_bounds(x2, f);
    lemma_tdiv_bounds(x3, f);
    lemma_tdiv_bounds(x4, f);
    assert(-2 * 1048576int <= m1 <= 2 * 1048576int && -(1048576int) < 1048576int * m1 - x1 < (
    1048576int) && -2 * 1048576int <= m2 <= 2 * 1048576int && -(1048576int) < 1048576int * m2 - x2
        < (1048576int) && -2 * 1048576int <= m3 <= 2 * 1048576int && -(1048576int) < 1048576int
        * m3 - x3 < (1048576int) && -2 * 1048576int <= m4 <= 2 * 1048576int && -(1048576int) < (
    1048576int) * m4 - x4 < (1048576int)) by (nonlinear_arith)
        requires
            -(1048580int * 1048580int) <= x1 <= 1048580int * 1048580int,
            -(1048580int * 1048580int) <= x2 <= 1048580int * 1048580int,
            -(1048580int * 1048580int) <= x3 <= 1048580int * 1048580int,
            -(1048580int * 1048580int) <= x4 <= 1048580int * 1048580int,
            x1 >= 0 ==> 0 <= m1 && 1048576int * m1 <= x1 && x1 < 1048576int * m1 + 1048576int,
            x1 < 0 ==> m1 <= 0 && 1048576int * m1 >= x1 && x1 > 1048576int * m1 - 1048576int,
            x2 >= 0 ==> 0 <= m2 && 1048576int * m2 <= x2 && x2 < 1048576int * m2 + 1048576int,
            x2 < 0 ==> m2 <= 0 && 1048576int * m2 >= x2 && x2 > 1048576int * m2 - 1048576int,
            x3 >= 0 ==> 0 <= m3 && 1048576int * m3 <= x3 && x3 < 1048576int * m3 + 1048576int,
            x3 < 0 ==> m3 <= 0 && 1048576int * m3 >= x3 && x3 > 1048576int * m3 - 1048576int,
            x4 >= 0 ==> 0 <= m4 && 1048576int * m4 <= x4 && x4 < 1048576int * m4 + 1048576int,
            x4 < 0 ==> m4 <= 0 && 1048576int * m4 >= x4 && x4 > 1048576int * m4 - 1048576int,
    ;
    let cc = m1 - m2;
    let ss = m3 + m4;
    let cbig = x1 - x2;
    let sbig = x3 + x4;
    let n1 = acr * acr + asr * asr;
    let n2 = dcr * dcr + dsr * dsr;
    assert(cbig * cbig >= 0 && sbig * sbig >= 0) by (nonlinear_arith);
    lemma_two_squares_product(acr, asr, dcr, dsr);
    assert(cbig * cbig + sbig * sbig == n1 * n2);
    assert((1048576int * 1048576int - 8 * 1048576int) * (1048576int * 1048576int - 8 * 1048576int)
        <= n1 * n2 <= (1048576int * 1048576int + 8 * 1048576int) * (1048576int * 1048576int + 8
        * 1048576int)) by (nonlinear_arith)
        requires
            1048576int * 1048576int - 8 * 1048576int <= n1 <= 1048576int * 1048576int + 8
                * 1048576int,
            1048576int * 1048576int - 8 * 1048576int <= n2 <= 1048576int * 1048576int + 8
                * 1048576int,
    ;
    assert(-(1048576int * 1048576int + 8 * 1048576int) <= cbig <= 1048576int * 1048576int + 8
        * 1048576int && -(1048576int * 1048576int + 8 * 1048576int) <= sbig <= 1048576int
        * 1048576int + 8 * 1048576int) by (nonlinear_arith)
        requires
            cbig * cbig + sbig * sbig <= (1048576int * 1048576int + 8 * 1048576int) * (1048576int
                * 1048576int + 8 * 1048576int),
            cbig * cbig >= 0,
            sbig * sbig >= 0,
    ;
    assert(1048576int * 1048576int - 32 * 1048576int <= cc * cc + ss * ss <= 1048576int
        * 1048576int + 32 * 1048576int) by (nonlinear_arith)
        requires
            -(1048576int) < 1048576int * m1 - x1 < 1048576int,
            -(1048576int) < 1048576int * m2 - x2 < 1048576int,
            -(1048576int) < 1048576int * m3 - x3 < 1048576int,
            -(1048576int) < 1048576int * m4 - x4 < 1048576int,
            cc == m1 - m2,
            ss == m3 + m4,
            cbig == x1 - x2,
            sbig == x3 + x4,
            -(1048576int * 1048576int + 8 * 1048576int) <= cbig <= 1048576int * 1048576int + 8
                * 1048576int,
            -(1048576int * 1048576int + 8 * 1048576int) <= sbig <= 1048576int * 1048576int + 8
                * 1048576int,
            cbig * cbig + sbig * sbig == n1 * n2,
            (1048576int * 1048576int - 8 * 1048576int) * (1048576int * 1048576int - 8 * 1048576int)
                <= n1 * n2 <= (1048576int * 1048576int + 8 * 1048576int) * (1048576int * 1048576int
                + 8 * 1048576int),
            -2 * 1048576int <= cc <= 2 * 1048576int,
            -2 * 1048576int <= ss <= 2 * 1048576int,
    ;
}

/// Renormalizing a pair whose squared norm is within `32 * FX_ONE` of
/// `FX_ONE^2` yields a unit rotation with small components.
pub proof fn lemma_renorm_unit(c: int, s: int)
    requires
        (FX_ONE as int) * (FX_ONE as int) - 32 * (FX_ONE as int) <= c * c + s * s <= (
        FX_ONE as int) * (FX_ONE as int) + 32 * (FX_ONE as int),
    ensures
        renorm_spec(c, s).is_unit(),
        -(FX_ONE as int + 4) <= tdiv(c * (FX_ONE as int), isqrt_spec(c * c + s * s)) <= (
        FX_ONE as int) + 4,
        -(FX_ONE as int + 4) <= tdiv(s * (FX_ONE as int), isqrt_spec(c * c + s * s)) <= (
        FX_ONE as int) + 4,
        isqrt_spec(c * c + s * s) >= 1,
{
    let f: int = FX_ONE as int;
    let n = c * c + s * s;
    let m = isqrt_spec(n);
    assert(c * c >= 0 && s * s >= 0) by (nonlinear_arith);
    lemma_isqrt_bounds(n);
    assert(524288int <= m <= 2 * 1048576int && -(m + 1) <= c <= m + 1 && -(m + 1) <= s <= m
        + 1) by (nonlinear_arith)
        requires
            n == c * c + s * s,
            1048576int * 1048576int - 32 * 1048576int <= n <= 1048576int * 1048576int + 32
                * 1048576int,
            m >= 0,
            m * m <= n,
            n < (m + 1) * (m + 1),
            c * c <= n,
            s * s <= n,
    ;
    let rc = tdiv(c * f, m);
    let rs = tdiv(s * f, m);
    lemma_tdiv_bounds(c * f, m);
    lemma_tdiv_bounds(s * f, m);
    assert(-(1048576int + 4) <= rc <= 1048576int + 4 && -(1048576int + 4) <= rs <= 1048576int + 4
        && 1048576int * 1048576int - 8 * 1048576int <= rc * rc + rs * rs <= 1048576int * 1048576int
        + 8 * 1048576int) by (nonlinear_arith)
        requires
            524288int <= m <= 2 * 1048576int,
            -(m + 1) <= c <= m + 1,
            -(m + 1) <= s <= m + 1,
            n == c * c + s * s,
            m * m <= n,
            n < (m + 1) * (m + 1),
            c * 1048576int >= 0 ==> 0 <= rc && m * rc <= c * 1048576int && c * 1048576int < m * rc
                + m,
            c * 1048576int < 0 ==> rc <= 0 && m * rc >= c * 1048576int && c * 1048576int > m * rc
                - m,
            s * 1048576int >= 0 ==> 0 <= rs && m * rs <= s * 1048576int && s * 1048576int < m * rs
                + m,
            s * 1048576int < 0 ==> rs <= 0 && m * rs >= s * 1048576int && s * 1048576int > m * rs
                - m,
    ;
}

/// Composing any unit rotation into a unit orientation and then
/// renormalizing yields a unit orientation again.
pub proof fn lemma_rotate_unit(a: Rot2, d: Rot2)
    requires
        a.is_unit(),
        d.is_unit(),
    ensures
        rotate_spec(a, d).is_unit(),
{
    lemma_compose_bounds(a, d);
    lemma_renorm_unit(compose_c(a, d), compose_s(a, d));
}

/// A chain of rotation increments composed in order.
pub open spec fn rotate_all(r: Rot2, ds: Seq<Rot2>) -> Rot2
    decreases ds.len(),
{
    if ds.len() == 0 {
        r
    } else {
        rotate_all(rotate_spec(r, ds[0]), ds.skip(1))
    }
}

/// For every sequence of unit rotation increments, the orientation
/// remains unit-norm within the fixed tolerance after each step: the
/// renormalization in every composition keeps drift from accumulating.
pub proof fn lemma_rotation_chain_unit(r: Rot2, ds: Seq<Rot2>)
    requires
        r.is_unit(),
        forall|i: int| 0 <= i < ds.len() ==> (#[trigger] ds[i]).is_unit(),
    ensures
        rotate_all(r, ds).is_unit(),
    decreases ds.len(),
{
    if ds.len() > 0 {
        lemma_rotate_unit(r, ds[0]);
        assert forall|i: int| 0 <= i < ds.skip(1).len() implies (#[trigger] ds.skip(
            1,
        )[i]).is_unit() by {
            assert(ds.skip(1)[i] == ds[i + 1]);
        }
        lemma_rotation_chain_unit(rotate_spec(r, ds[0]), ds.skip(1));
    }
}

/// Executable renormalization; mirrors `renorm_spec` exactly.
pub(crate) fn renorm(c: i64, s: i64) -> (r: Rot2)
    requires
        (FX_ONE as int) * (FX_ONE as int) - 32 * (FX_ONE as int) <= (c as int) * (c as int) + (
        s as int) * (s as int) <= (FX_ONE as int) * (FX_ONE as int) + 32 * (FX_ONE as int),
        -4 * (FX_ONE as int) <= c as int <= 4 * (FX_ONE as int),
        -4 * (FX_ONE as int) <= s as int <= 4 * (FX_ONE as int),
    ensures
        r == renorm_spec(c as int, s as int),
        r.is_unit(),
{
    proof {
        lemma_renorm_unit(c as int, s as int);
        assert(0 <= (c as int) * (c as int) <= 16 * 1048576int * 1048576int && 0 <= (s as int) * (
        s as int) <= 16 * 1048576int * 1048576int) by (nonlinear_arith)
            requires
                -4 * 1048576int <= c as int <= 4 * 1048576int,
                -4 * 1048576int <= s as int <= 4 * 1048576int,
        ;
    }
    let n: i64 = c * c + s * s;
    let m: u64 = isqrt_u64(n as u64);
    proof {
        lemma_isqrt_bounds(n as int);
        assert(m as int <= 2 * 1048576int) by (nonlinear_arith)
            requires
                m as int >= 0,
                (m as int) * (m as int) <= n as int,
                n as int <= 1048576int * 1048576int + 32 * 1048576int,
        ;
    }
    let mi: i64 = m as i64;
    let rc: i64 = tdiv_i64(c * FX_ONE, mi);
    let rs: i64 = tdiv_i64(s * FX_ONE, mi);
    Rot2 { c: Fx { raw: rc }, s: Fx { raw: rs } }
}

} // verus!
