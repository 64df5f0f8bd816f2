//! Signed binary fixed-point scalars: an `i64` raw value carrying
//! `FX_ONE` units per 1.0 (20 fraction bits). All camera arithmetic is
//! built from these exact integer operations, so the transform contracts
//! can state results to the unit in the last place.

use vstd::prelude::*;
use vstd::arithmetic::div_mod::lemma_fundamental_div_mod;
use vstd::arithmetic::div_mod::lemma_mod_division_less_than_divisor;

verus! {

/// Number of raw units in 1.0 (2^20).
pub const FX_ONE: i64 = 1048576;

/// Truncating (round-toward-zero) division; meaningful for `b >= 1`.
/// This is the rounding performed by the executable operations.
pub open spec fn tdiv(a: int, b: int) -> int {
    if a >= 0 {
        a / b
    } else {
        -((-a) / b)
    }
}

/// Raw value of the fixed-point product `a * b`.
pub open spec fn fx_mul(a: int, b: int) -> int {
    tdiv(a * b, FX_ONE as int)
}

/// Raw value of the fixed-point quotient `a / b`.
pub open spec fn fx_div(a: int, b: int) -> int {
    tdiv(a * (FX_ONE as int), b)
}

/// Truncating division rounds toward zero: the quotient has the sign of
/// `a`, its magnitude never exceeds the magnitude of `a`, and it is off
/// from the exact quotient by less than one unit.
pub proof fn lemma_tdiv_bounds(a: int, b: int)
    requires
        b >= 1,
    ensures
        a >= 0 ==> 0 <= tdiv(a, b) <= a && b * tdiv(a, b) <= a && a < b * tdiv(a, b) + b,
        a < 0 ==> a <= tdiv(a, b) <= 0 && b * tdiv(a, b) >= a && a > b * tdiv(a, b) - b,
{
    if a >= 0 {
        let q: int = a / b;
        lemma_fundamental_div_mod(a, b);
        lemma_mod_division_less_than_divisor(a, b);
        assert(0 <= q <= a) by (nonlinear_arith)
            requires
                b >= 1,
                a >= 0,
                b * q <= a,
                a < b * q + b,
        ;
    } else {
        let q: int = (-a) / b;
        lemma_fundamental_div_mod(-a, b);
        lemma_mod_division_less_than_divisor(-a, b);
        assert(0 <= q <= -a && b * -q >= a && a > b * -q - b) by (nonlinear_arith)
            requires
                b >= 1,
                -a >= 1,
                b * q <= -a,
                -a < b * q + b,
        ;
    }
}

/// Dividing an exact multiple of `b` by `b` loses nothing.
pub proof fn lemma_tdiv_mul_cancel(x: int, b: int)
    requires
        b >= 1,
    ensures
        tdiv(x * b, b) == x,
{
    lemma_tdiv_bounds(x * b, b);
    if x * b >= 0 {
        assert(tdiv(x * b, b) == x) by (nonlinear_arith)
            requires
                b >= 1,
                x * b >= 0,
                b * tdiv(x * b, b) <= x * b,
                x * b < b * tdiv(x * b, b) + b,
        ;
    } else {
        assert(tdiv(x * b, b) == x) by (nonlinear_arith)
            requires
                b >= 1,
                x * b < 0,
                b * tdiv(x * b, b) >= x * b,
                x * b > b * tdiv(x * b, b) - b,
        ;
    }
}

/// Scaling by a positive factor and then by its fixed-point reciprocal
/// comes back to at most the starting value, and the loss is bounded by
/// the rounding of the three truncations involved: with `f = FX_ONE`,
/// the result `s2` of `fx_mul(fx_mul(s, a), fx_div(f, a))` satisfies
/// `0 <= s - s2 < s * a / f^2 + f / a + 1`, stated below multiplied
/// through by `a * f^2`.
pub proof fn lemma_mul_recip_round_trip(s: int, a: int)
    requires
        s >= 1,
        a >= 1,
    ensures
        0 <= fx_mul(fx_mul(s, a), fx_div(FX_ONE as int, a)) <= s,
        a * ((FX_ONE as int) * (FX_ONE as int)) * (s - fx_mul(
            fx_mul(s, a),
            fx_div(FX_ONE as int, a),
        )) < s * a * a + (FX_ONE as int) * ((FX_ONE as int) * (FX_ONE as int)) + a * ((
        FX_ONE as int) * (FX_ONE as int)),
{
    let f: int = FX_ONE as int;
    let s1 = fx_mul(s, a);
    let r = fx_div(f, a);
    let s2 = fx_mul(s1, r);
    assert(s * a >= 1) by (nonlinear_arith)
        requires
            s >= 1,
            a >= 1,
    ;
    lemma_tdiv_bounds(s * a, f);
    lemma_tdiv_bounds(f * f, a);
    assert(s1 * r >= 0) by (nonlinear_arith)
        requires
            s1 >= 0,
            r >= 0,
    ;
    lemma_tdiv_bounds(s1 * r, f);
    assert((f * s1) * (a * r) <= (s * a) * (f * f)) by (nonlinear_arith)
        requires
            0 <= f * s1 <= s * a,
            0 <= a * r <= f * f,
    ;
    assert((f * s1) * (a * r) == (f * a) * (s1 * r)) by (nonlinear_arith);
    assert((s * a) * (f * f) == (f * a) * (s * f)) by (nonlinear_arith);
    assert(s1 * r <= s * f) by (nonlinear_arith)
        requires
            (f * a) * (s1 * r) <= (f * a) * (s * f),
            f >= 1,
            a >= 1,
    ;
    assert(s2 <= s) by (nonlinear_arith)
        requires
            f * s2 <= s1 * r,
            s1 * r <= s * f,
            f >= 1,
    ;
    if s * a < f {
        assert(s1 == 0);
        assert(s1 * r == 0) by (nonlinear_arith)
            requires
                s1 == 0,
        ;
        assert(tdiv(0, f) == 0);
        assert(s2 == 0);
        assert(a * (f * f) * (s - s2) < s * a * a + f * (f * f) + a * (f * f)) by (nonlinear_arith)
            requires
                s2 == 0,
                s >= 1,
                a >= 1,
                f >= 1,
                s * a < f,
    ;
    } else {
        assert((f * s1) * (a * r) >= (s * a - f) * (a * r)) by (nonlinear_arith)
            requires
                f * s1 > s * a - f,
                a * r >= 0,
        ;
        assert((s * a - f) * (a * r) >= (s * a - f) * (f * f - a)) by (nonlinear_arith)
            requires
                s * a - f >= 0,
                a * r > f * f - a,
        ;
        assert((s * a - f) * (f * f - a) == s * a * (f * f) - s * a * a - f * (f * f) + f * a) by (
        nonlinear_arith);
        assert((f * a) * (f * s2) > (f * a) * (s1 * r) - (f * a) * f) by (nonlinear_arith)
            requires
                f * s2 > s1 * r - f,
                f >= 1,
                a >= 1,
        ;
        assert(a * (f * f) * (s - s2) < s * a * a + f * (f * f) + a * (f * f)) by (nonlinear_arith)
            requires
                (f * a) * (f * s2) > (f * a) * (s1 * r) - (f * a) * f,
                (f * a) * (s1 * r) == (f * s1) * (a * r),
                (f * s1) * (a * r) >= (s * a - f) * (a * r),
                (s * a - f) * (a * r) >= (s * a - f) * (f * f - a),
                (s * a - f) * (f * f - a) == s * a * (f * f) - s * a * a - f * (f * f) + f * a,
                f >= 1,
                a >= 1,
                s >= 1,
        ;
    }
}

/// A cap on the dividend caps the truncated quotient.
pub proof fn lemma_tdiv_cap(a: int, b: int, cap: int)
    requires
        b >= 1,
        cap >= 0,
        -(b * cap) <= a <= b * cap,
    ensures
        -cap <= tdiv(a, b) <= cap,
{
    lemma_tdiv_bounds(a, b);
    if a >= 0 {
        assert(tdiv(a, b) <= cap) by (nonlinear_arith)
            requires
                b >= 1,
                cap >= 0,
                b * tdiv(a, b) <= a,
                a <= b * cap,
                tdiv(a, b) >= 0,
        ;
    } else {
        assert(-cap <= tdiv(a, b)) by (nonlinear_arith)
            requires
                b >= 1,
                cap >= 0,
                b * tdiv(a, b) >= a,
                -(b * cap) <= a,
                tdiv(a, b) <= 0,
        ;
    }
}

/// Magnitude bounds multiply through a product.
pub proof fn lemma_mul_mag(x: int, y: int, bx: int, by: int)
    requires
        -bx <= x <= bx,
        -by <= y <= by,
        bx >= 0,
        by >= 0,
    ensures
        -(bx * by) <= x * y <= bx * by,
{
    assert(-(bx * by) <= x * y <= bx * by) by (nonlinear_arith)
        requires
            -bx <= x <= bx,
            -by <= y <= by,
            bx >= 0,
            by >= 0,
    ;
}

/// Integer square root: the largest `r` with `r * r <= n` (0 for `n <= 0`).
pub open spec fn isqrt_spec(n: int) -> int
    decreases n,
{
    if n <= 0 {
        0
    } else {
        let r = isqrt_spec(n - 1);
        if (r + 1) * (r + 1) <= n {
            r + 1
        } else {
            r
        }
    }
}

/// `isqrt_spec(n)` is the integer square root of `n`.
pub proof fn lemma_isqrt_bounds(n: int)
    requires
        n >= 0,
    ensures
        isqrt_spec(n) >= 0,
        isqrt_spec(n) * isqrt_spec(n) <= n,
        n < (isqrt_spec(n) + 1) * (isqrt_spec(n) + 1),
    decreases n,
{
    if n == 0 {
        assert(isqrt_spec(0) == 0);
    } else {
        lemma_isqrt_bounds(n - 1);
        let r = isqrt_spec(n - 1);
        if (r + 1) * (r + 1) <= n {
            assert(n < (r + 2) * (r + 2)) by (nonlinear_arith)
                requires
                    r >= 0,
                    n - 1 < (r + 1) * (r + 1),
            ;
        }
    }
}

/// There is only one integer square root.
pub proof fn lemma_isqrt_unique(n: int, a: int, b: int)
    requires
        a >= 0,
        b >= 0,
        a * a <= n,
        n < (a + 1) * (a + 1),
        b * b <= n,
        n < (b + 1) * (b + 1),
    ensures
        a == b,
{
    assert(a == b) by (nonlinear_arith)
        requires
            a >= 0,
            b >= 0,
            a * a <= n,
            n < (a + 1) * (a + 1),
            b * b <= n,
            n < (b + 1) * (b + 1),
    ;
}

/// Executable integer square root, by binary search.
pub(crate) fn isqrt_u64(n: u64) -> (r: u64)
    ensures
        r == isqrt_spec(n as int),
{
    let mut lo: u64 = 0;
    let mut hi: u64 = 4294967296;
    proof {
        assert((4294967296 as int) * (4294967296 as int) > u64::MAX as int);
    }
    while lo + 1 < hi
        invariant
            0 <= lo < hi <= 4294967296,
            lo * lo <= n,
            (n as int) < (hi as int) * (hi as int),
        decreases hi - lo,
    {
        let mid: u64 = lo + (hi - lo) / 2;
        proof {
            assert((mid as int) * (mid as int) < 4294967296int * 4294967296int) by (nonlinear_arith)
                requires
                    0 <= (mid as int) < 4294967296int,
            ;
        }
        if mid * mid <= n {
            lo = mid;
        } else {
            hi = mid;
        }
    }
    proof {
        lemma_isqrt_bounds(n as int);
        lemma_isqrt_unique(n as int, lo as int, isqrt_spec(n as int));
    }
    lo
}

/// A fixed-point scalar; `raw` counts units of `1 / FX_ONE`.
#[derive(Clone, Copy, PartialEq, Eq, Structural, Debug)]
pub struct Fx {
    pub raw: i64,
}

impl Fx {
    /// Wraps a raw count of `1 / FX_ONE` units.
    pub fn from_raw(raw: i64) -> (r: Fx)
        ensures
            r.raw == raw,
    {
        Fx { raw }
    }

    /// The fixed-point representation of 0.
    pub fn zero() -> (r: Fx)
        ensures
            r.raw == 0,
    {
        Fx { raw: 0 }
    }

    /// The fixed-point representation of 1.
    pub fn one() -> (r: Fx)
        ensures
            r.raw == FX_ONE,
    {
        Fx { raw: FX_ONE }
    }

    /// Fixed-point product, truncated toward zero.
    pub fn times(self, o: Fx) -> (r: Fx)
        requires
            -i64::MAX <= fx_mul(self.raw as int, o.raw as int) <= i64::MAX,
        ensures
            r.raw == fx_mul(self.raw as int, o.raw as int),
    {
        Fx { raw: fx_mul_i64(self.raw, o.raw) }
    }

    /// Fixed-point quotient by a positive divisor, truncated toward zero.
    pub fn divided_by(self, o: Fx) -> (r: Fx)
        requires
            o.raw >= 1,
            -i64::MAX <= fx_div(self.raw as int, o.raw as int) <= i64::MAX,
        ensures
            r.raw == fx_div(self.raw as int, o.raw as int),
    {
        Fx { raw: fx_div_i64(self.raw, o.raw) }
    }

    /// Fixed-point reciprocal of a positive value, truncated toward zero.
    pub fn recip(self) -> (r: Fx)
        requires
            self.raw >= 1,
        ensures
            r.raw == fx_div(FX_ONE as int, self.raw as int),
            0 <= r.raw <= FX_ONE as int * FX_ONE as int,
    {
        proof {
            lemma_tdiv_bounds(FX_ONE as int * FX_ONE as int, self.raw as int);
        }
        Fx { raw: fx_div_i64(FX_ONE, self.raw) }
    }
}

/// Executable truncating division on raw values.
pub(crate) fn tdiv_i64(a: i64, b: i64) -> (r: i64)
    requires
        b >= 1,
        a != i64::MIN,
    ensures
        r == tdiv(a as int, b as int),
{
    proof {
        lemma_tdiv_bounds(a as int, b as int);
    }
    if a >= 0 {
        let q: u64 = (a as u64) / (b as u64);
        q as i64
    } else {
        let m: u64 = (-a) as u64;
        let q: u64 = m / (b as u64);
        -(q as i64)
    }
}

/// Executable fixed-point multiplication on raw values; the wide product
/// is formed in 128 bits, so only the final result must fit.
pub(crate) fn fx_mul_i64(a: i64, b: i64) -> (r: i64)
    requires
        -i64::MAX <= fx_mul(a as int, b as int) <= i64::MAX,
    ensures
        r == fx_mul(a as int, b as int),
{
    let p: i128 = (a as i128) * (b as i128);
    proof {
        lemma_tdiv_bounds(p as int, FX_ONE as int);
    }
    if p >= 0 {
        let q: u128 = (p as u128) / (FX_ONE as u128);
        q as i64
    } else {
        let q: u128 = ((-p) as u128) / (FX_ONE as u128);
        -(q as i64)
    }
}

/// Executable fixed-point division on raw values; the widened dividend
/// is formed in 128 bits, so only the final result must fit.
pub(crate) fn fx_div_i64(a: i64, b: i64) -> (r: i64)
    requires
        b >= 1,
        -i64::MAX <= fx_div(a as int, b as int) <= i64::MAX,
    ensures
        r == fx_div(a as int, b as int),
{
    let p: i128 = (a as i128) * (FX_ONE as i128);
    proof {
        lemma_tdiv_bounds(p as int, b as int);
    }
    if p >= 0 {
        let q: u128 = (p as u128) / (b as u128);
        q as i64
    } else {
        let q: u128 = ((-p) as u128) / (b as u128);
        -(q as i64)
    }
}

} // verus!
