//! Fixed-point scalars.
//!
//! A scalar is an `i64` counting ticks of `1 / SCALE` of a world unit, so
//! `SCALE` ticks are 1.0 unit. Products of two scalars are divided by `SCALE`
//! again, and quotients mirror the round-toward-zero division of the
//! hardware. The integer square root here is the magnitude primitive for the
//! vector module.

use vstd::math::abs;
use vstd::prelude::*;

verus! {

/// Number of ticks in one world unit.
pub const SCALE: i64 = 1_000_000;

/// Largest component magnitude the vector operations accept; keeps every
/// intermediate product inside `i64`.
pub const COMP_MAX: i64 = 1_000_000_000;

/// `r` is the integer square root of `n`: the largest integer whose square
/// does not exceed `n`.
pub open spec fn is_sqrt(n: int, r: int) -> bool {
    0 <= r && r * r <= n && n < (r + 1) * (r + 1)
}

/// The integer square root of `n` (0 for negative `n`).
pub open spec fn sqrt_of(n: int) -> int
    decreases n,
{
    if n < 1 {
        0
    } else {
        let r: int = sqrt_of(n - 1);
        if (r + 1) * (r + 1) <= n {
            r + 1
        } else {
            r
        }
    }
}

pub proof fn lemma_sqrt_of_is_sqrt(n: int)
    requires
        0 <= n,
    ensures
        is_sqrt(n, sqrt_of(n)),
    decreases n,
{
    if n >= 1 {
        lemma_sqrt_of_is_sqrt(n - 1);
        let r: int = sqrt_of(n - 1);
        if (r + 1) * (r + 1) <= n {
            assert((r + 2) * (r + 2) > (r + 1) * (r + 1)) by (nonlinear_arith)
                requires
                    r >= 0,
            ;
        }
    }
}

/// The integer square root is the only value satisfying `is_sqrt`.
pub proof fn lemma_sqrt_unique(n: int, r: int)
    requires
        0 <= n,
        is_sqrt(n, r),
    ensures
        r == sqrt_of(n),
{
    lemma_sqrt_of_is_sqrt(n);
    let s: int = sqrt_of(n);
    assert(r == s) by (nonlinear_arith)
        requires
            0 <= r && r * r <= n && n < (r + 1) * (r + 1),
            0 <= s && s * s <= n && n < (s + 1) * (s + 1),
    ;
}

/// A perfect square has its root as integer square root.
pub proof fn lemma_sqrt_of_square(a: int)
    requires
        0 <= a,
    ensures
        sqrt_of(a * a) == a,
{
    assert(is_sqrt(a * a, a)) by (nonlinear_arith)
        requires
            0 <= a,
    ;
    lemma_sqrt_unique(a * a, a);
}

/// Integer square root of `n`, by binary search.
pub fn isqrt(n: i64) -> (r: i64)
    requires
        0 <= n,
    ensures
        r == sqrt_of(n as int),
        is_sqrt(n as int, r as int),
{
    let mut lo: i64 = 0;
    let mut hi: i64 = 3_037_000_499;
    assert(n < (hi + 1) * (hi + 1)) by (nonlinear_arith)
        requires
            n <= 0x7fff_ffff_ffff_ffff,
            hi == 3_037_000_499,
    ;
    while lo < hi
        invariant
            0 <= lo <= hi <= 3_037_000_499,
            lo * lo <= n,
            n < (hi + 1) * (hi + 1),
        decreases hi - lo,
    {
        let mid: i64 = lo + (hi - lo + 1) / 2;
        assert(lo < mid <= hi);
        assert(mid * mid <= 3_037_000_499i64 * 3_037_000_499) by (nonlinear_arith)
            requires
                0 <= mid <= 3_037_000_499,
        ;
        if mid * mid <= n {
            lo = mid;
        } else {
            hi = mid - 1;
        }
    }
    proof {
        lemma_sqrt_unique(n as int, lo as int);
    }
    lo
}

/// `a * k / m` with the quotient rounded toward zero, as the hardware
/// division does.
pub open spec fn mul_div_trunc(a: int, k: int, m: int) -> int {
    if a >= 0 {
        (a * k) / m
    } else {
        -((-a * k) / m)
    }
}

/// The scaled value keeps the sign of `a` and its magnitude shrinks by at
/// least the ratio `k / m`.
pub proof fn lemma_mul_div_trunc_bound(a: int, k: int, m: int)
    requires
        0 <= k,
        1 <= m,
    ensures
        abs(mul_div_trunc(a, k, m)) * m <= abs(a) * k,
        a >= 0 ==> mul_div_trunc(a, k, m) >= 0,
        a < 0 ==> mul_div_trunc(a, k, m) <= 0,
{
    let p: int = abs(a) * k;
    assert(p >= 0) by (nonlinear_arith)
        requires
            p == abs(a) * k,
            k >= 0,
    ;
    vstd::arithmetic::div_mod::lemma_fundamental_div_mod(p as int, m);
    vstd::arithmetic::div_mod::lemma_mod_bound(p as int, m);
    vstd::arithmetic::div_mod::lemma_div_pos_is_pos(p as int, m);
    let q: int = p / m;
    assert(q * m <= p) by (nonlinear_arith)
        requires
            p == m * q + p % m,
            p % m >= 0,
    ;
    if a >= 0 {
        assert(abs(mul_div_trunc(a, k, m)) == q);
    } else {
        assert(-a * k == p);
        assert(abs(mul_div_trunc(a, k, m)) == q);
    }
}

/// Scaling a scalar no larger than the divisor keeps the result within
/// the multiplier: from `|a| <= m` follows `|a * k / m| <= k`.
pub proof fn lemma_mul_div_trunc_le(a: int, k: int, m: int)
    requires
        1 <= m,
        0 <= k,
        abs(a) <= m,
    ensures
        abs(mul_div_trunc(a, k, m)) <= k,
{
    lemma_mul_div_trunc_bound(a, k, m);
    let q: int = mul_div_trunc(a, k, m);
    assert(abs(q) <= k) by (nonlinear_arith)
        requires
            abs(q) * m <= abs(a) * k,
            abs(a) <= m,
            0 <= k,
            1 <= m,
    ;
}

/// Truncating scaled multiply-divide on scalars: `a * k / m`.
pub fn scale_mul_div(a: i64, k: i64, m: i64) -> (r: i64)
    requires
        0 <= k,
        1 <= m,
        -0x7fff_ffff_ffff_ffff <= a * k <= 0x7fff_ffff_ffff_ffff,
        a != i64::MIN,
    ensures
        r == mul_div_trunc(a as int, k as int, m as int),
{
    proof {
        lemma_mul_div_trunc_bound(a as int, k as int, m as int);
    }
    if a >= 0 {
        let p: i64 = a * k;
        proof {
            vstd::arithmetic::div_mod::lemma_div_basics_5(p as int, m as int);
        }
        let q: i64 = ((p as u64) / (m as u64)) as i64;
        q
    } else {
        let na: i64 = -a;
        proof {
            vstd::arithmetic::mul::lemma_mul_unary_negation(a as int, k as int);
        }
        assert(na * k == -(a * k));
        let p: i64 = na * k;
        proof {
            vstd::arithmetic::div_mod::lemma_div_basics_5(p as int, m as int);
        }
        let q: i64 = ((p as u64) / (m as u64)) as i64;
        -q
    }
}

/// Truncating division `a / m` for a possibly negative `a`.
pub open spec fn div_trunc(a: int, m: int) -> int {
    mul_div_trunc(a, 1, m)
}

/// Truncating division on scalars.
pub fn scale_div(a: i64, m: i64) -> (r: i64)
    requires
        1 <= m,
        a != i64::MIN,
    ensures
        r == div_trunc(a as int, m as int),
{
    scale_mul_div(a, 1, m)
}

} // verus!
