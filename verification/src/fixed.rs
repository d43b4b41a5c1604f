//! Fixed-point scalars and the integer division helpers the library builds on.
//!
//! A world unit is `FX_ONE` subunits; every length, height and scale factor
//! in the crate is an `i64` count of subunits.  Spec-level formulas use the
//! Euclidean `/` of ghost arithmetic, so the executable helpers here are
//! restricted to non-negative dividends, where Rust's truncating division
//! agrees with the Euclidean one.

use vstd::prelude::*;

verus! {

/// Number of fixed-point subunits per world unit.
pub const FX_ONE: i64 = 1_000_000;

/// Truncating division for a possibly negative dividend, as ghost arithmetic:
/// rounds toward zero.
pub open spec fn div_trunc(a: int, b: int) -> int {
    if a >= 0 {
        a / b
    } else {
        -((-a) / b)
    }
}

/// Division rounding to the nearest integer, halves away from zero,
/// as ghost arithmetic.  `b` must be positive.
pub open spec fn div_round(a: int, b: int) -> int {
    if a >= 0 {
        (2 * a + b) / (2 * b)
    } else {
        -((2 * (-a) + b) / (2 * b))
    }
}

/// Truncating division of `a` by a positive divisor `b`.
pub fn div_trunc_i64(a: i64, b: i64) -> (r: i64)
    requires
        b > 0,
        a > i64::MIN,
    ensures
        r == div_trunc(a as int, b as int),
{
    if a >= 0 {
        a / b
    } else {
        let neg = -a;
        -(neg / b)
    }
}

/// Division of `a` by a positive divisor `b` on wide integers, rounding to
/// the nearest integer with halves away from zero.
pub fn div_round_i128(a: i128, b: i128) -> (r: i128)
    requires
        0 < b <= 0x1000_0000_0000_0000_0000_0000_0000_0000,
        -0x1000_0000_0000_0000_0000_0000_0000_0000 <= a
            <= 0x1000_0000_0000_0000_0000_0000_0000_0000,
    ensures
        r == div_round(a as int, b as int),
{
    if a >= 0 {
        (2 * a + b) / (2 * b)
    } else {
        let neg = -a;
        -((2 * neg + b) / (2 * b))
    }
}

/// Truncating division of `a` by a positive divisor `b`, on wide integers.
pub fn div_trunc_i128(a: i128, b: i128) -> (r: i128)
    requires
        b > 0,
        a > i128::MIN,
    ensures
        r == div_trunc(a as int, b as int),
{
    if a >= 0 {
        a / b
    } else {
        let neg = -a;
        -(neg / b)
    }
}

/// Whether `r` is the integer square root (rounded down) of `x`.
pub open spec fn is_sqrt_floor(x: int, r: int) -> bool {
    0 <= r && r * r <= x && x < (r + 1) * (r + 1)
}

/// The integer square root of a non-negative `x`, rounded down.
pub open spec fn sqrt_floor(x: int) -> int {
    choose|r: int| is_sqrt_floor(x, r)
}

/// The integer square root is unique.
pub proof fn lemma_sqrt_floor_unique(x: int, a: int, b: int)
    requires
        is_sqrt_floor(x, a),
        is_sqrt_floor(x, b),
    ensures
        a == b,
{
    assert(a == b) by (nonlinear_arith)
        requires
            0 <= a && a * a <= x && x < (a + 1) * (a + 1),
            0 <= b && b * b <= x && x < (b + 1) * (b + 1);
}

/// Integer square root by bisection: the largest `r` with `r * r <= x`.
pub fn isqrt_u128(x: u128) -> (r: u128)
    ensures
        is_sqrt_floor(x as int, r as int),
        r as int == sqrt_floor(x as int),
        r < 0x1_0000_0000_0000_0000,
{
    let mut lo: u128 = 0;
    let mut hi: u128 = 0x1_0000_0000_0000_0000;
    proof {
        assert((0x1_0000_0000_0000_0000 as int) * (0x1_0000_0000_0000_0000 as int)
            == 0x1_0000_0000_0000_0000_0000_0000_0000_0000 as int);
    }
    while hi - lo > 1
        invariant
            0 <= lo < hi <= 0x1_0000_0000_0000_0000,
            (lo as int) * (lo as int) <= x as int,
            (hi as int) * (hi as int) > x as int,
        decreases hi - lo,
    {
        let mid = lo + (hi - lo) / 2;
        proof {
            assert(mid as int * mid as int <= u128::MAX as int) by (nonlinear_arith)
                requires
                    0 <= mid as int,
                    (mid as int) < 0x1_0000_0000_0000_0000;
        }
        if mid * mid <= x {
            lo = mid;
        } else {
            hi = mid;
        }
    }
    proof {
        assert(is_sqrt_floor(x as int, lo as int));
        lemma_sqrt_floor_unique(x as int, lo as int, sqrt_floor(x as int));
    }
    lo
}

/// Bound on a product from bounds on its factors.
pub proof fn lemma_mul_bound(a: int, b: int, ka: int, kb: int)
    requires
        -ka <= a <= ka,
        -kb <= b <= kb,
        0 <= ka,
        0 <= kb,
    ensures
        -(ka * kb) <= a * b <= ka * kb,
{
    assert(-(ka * kb) <= a * b <= ka * kb) by (nonlinear_arith)
        requires
            -ka <= a <= ka,
            -kb <= b <= kb,
            0 <= ka,
            0 <= kb;
}

/// An exact multiple divided by its factor gives the factor back,
/// for any sign of `a` (Euclidean division by a positive divisor).
pub proof fn lemma_mul_div_exact(a: int, b: int)
    requires
        b > 0,
    ensures
        (a * b) / b == a,
{
    assert((a * b) / b == a) by (nonlinear_arith)
        requires b > 0;
}

/// Bounds of Euclidean division by a positive divisor.
pub proof fn lemma_div_bounds(a: int, b: int)
    requires
        b > 0,
        a >= 0,
    ensures
        0 <= a / b <= a,
        b * (a / b) <= a < b * (a / b) + b,
{
    assert(0 <= a / b <= a && b * (a / b) <= a < b * (a / b) + b) by (nonlinear_arith)
        requires b > 0 && a >= 0;
}

/// Monotonicity of multiplication-then-division over a non-negative range:
/// if `0 <= t <= m` then `0 <= t * d / m <= d` for non-negative `d`.
pub proof fn lemma_mul_div_range(t: int, d: int, m: int)
    requires
        0 <= t <= m,
        0 <= d,
        0 < m,
    ensures
        0 <= (t * d) / m <= d,
{
    assert(0 <= (t * d) / m <= d) by (nonlinear_arith)
        requires 0 <= t <= m && 0 <= d && 0 < m;
}

/// Magnitude bound for truncating division: `|a| <= b * k` gives
/// `|div_trunc(a, b)| <= k`.
pub proof fn lemma_div_trunc_bound(a: int, b: int, k: int)
    requires
        b > 0,
        k >= 0,
        -(b * k) <= a <= b * k,
    ensures
        -k <= div_trunc(a, b) <= k,
{
    if a >= 0 {
        assert(a / b <= k) by (nonlinear_arith)
            requires
                b > 0,
                k >= 0,
                0 <= a <= b * k;
        lemma_div_bounds(a, b);
    } else {
        assert((-a) / b <= k) by (nonlinear_arith)
            requires
                b > 0,
                k >= 0,
                0 <= -a <= b * k;
        lemma_div_bounds(-a, b);
    }
}

/// The remainder of truncating division is smaller than the divisor and
/// has the dividend's sign.
pub proof fn lemma_div_trunc_err(a: int, b: int)
    requires
        b > 0,
    ensures
        -b < a - div_trunc(a, b) * b < b,
        a >= 0 ==> 0 <= a - div_trunc(a, b) * b,
        a < 0 ==> a - div_trunc(a, b) * b <= 0,
{
    if a >= 0 {
        let q = a / b;
        assert(0 <= a - q * b < b) by (nonlinear_arith)
            requires
                b > 0,
                a >= 0,
                q == a / b;
    } else {
        let q = (-a) / b;
        assert(-b < a - (-q) * b <= 0) by (nonlinear_arith)
            requires
                b > 0,
                a < 0,
                q == (-a) / b;
    }
}

/// Truncating division of an exact multiple returns the factor.
pub proof fn lemma_div_trunc_exact(q: int, b: int)
    requires
        b > 0,
    ensures
        div_trunc(q * b, b) == q,
{
    if q * b >= 0 {
        lemma_mul_div_exact(q, b);
    } else {
        assert(-(q * b) == (-q) * b) by (nonlinear_arith);
        lemma_mul_div_exact(-q, b);
    }
}

/// Division by a positive divisor is monotone in the dividend.
pub proof fn lemma_div_monotone(a: int, b: int, c: int)
    requires
        a <= b,
        0 <= a,
        c > 0,
    ensures
        a / c <= b / c,
{
    assert(a / c <= b / c) by (nonlinear_arith)
        requires
            a <= b,
            0 <= a,
            c > 0;
}

/// The rounding error of `div_round` is at most half the divisor:
/// `|a - div_round(a, b) * b| <= b / 2`, stated doubled to stay integral.
pub proof fn lemma_div_round_err(a: int, b: int)
    requires
        b > 0,
    ensures
        -b <= 2 * (a - div_round(a, b) * b) <= b,
{
    if a >= 0 {
        let q = (2 * a + b) / (2 * b);
        assert(-b <= 2 * (a - q * b) <= b) by (nonlinear_arith)
            requires
                b > 0,
                a >= 0,
                q == (2 * a + b) / (2 * b);
    } else {
        let q = (2 * (-a) + b) / (2 * b);
        assert(-b <= 2 * (a - (-q) * b) <= b) by (nonlinear_arith)
            requires
                b > 0,
                a < 0,
                q == (2 * (-a) + b) / (2 * b);
    }
}

/// Rounding a value that is already an exact multiple returns the factor:
/// `div_round(q * b, b) == q`.
pub proof fn lemma_div_round_exact(q: int, b: int)
    requires
        b > 0,
    ensures
        div_round(q * b, b) == q,
{
    if q * b >= 0 {
        assert((2 * (q * b) + b) / (2 * b) == q) by (nonlinear_arith)
            requires b > 0 && q * b >= 0;
    } else {
        assert((2 * (-(q * b)) + b) / (2 * b) == -q) by (nonlinear_arith)
            requires b > 0 && q * b < 0;
    }
}

} // verus!
