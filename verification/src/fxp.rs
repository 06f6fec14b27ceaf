//! Scalar fixed-point helpers: clamping, truncating division, integer
//! square root, and small-angle sine/cosine in milli-radians.

use vstd::prelude::*;

verus! {

/// Clamp of `x` into `[lo, hi]`.
pub open spec fn spec_clamp(x: int, lo: int, hi: int) -> int {
    if x < lo {
        lo
    } else if x > hi {
        hi
    } else {
        x
    }
}

pub fn clamp_i64(x: i64, lo: i64, hi: i64) -> (r: i64)
    requires
        lo <= hi,
    ensures
        r == spec_clamp(x as int, lo as int, hi as int),
        lo <= r <= hi,
{
    if x < lo {
        lo
    } else if x > hi {
        hi
    } else {
        x
    }
}

/// Division rounding toward zero (the semantics of Rust's `/` on signed
/// integers), for a positive divisor.
pub open spec fn tdiv(a: int, b: int) -> int {
    if a >= 0 {
        a / b
    } else {
        -((-a) / b)
    }
}

pub fn div_trunc(a: i64, b: i64) -> (q: i64)
    requires
        b > 0,
        a > i64::MIN,
    ensures
        q == tdiv(a as int, b as int),
{
    if a >= 0 {
        a / b
    } else {
        -((-a) / b)
    }
}

/// `r` is the integer square root of `n`, rounded down.
pub open spec fn is_sqrt_floor(n: int, r: int) -> bool {
    &&& 0 <= r
    &&& r * r <= n
    &&& n < (r + 1) * (r + 1)
}

/// The integer square root as a spec-level value; meaningful for `n >= 0`,
/// where `lemma_sqrt_floor_is` pins it down.
pub closed spec fn sqrt_floor(n: int) -> int {
    choose|r: int| is_sqrt_floor(n, r)
}

pub proof fn lemma_sqrt_floor_unique(n: int, a: int, b: int)
    requires
        is_sqrt_floor(n, a),
        is_sqrt_floor(n, b),
    ensures
        a == b,
{
    assert(a <= b && b <= a) by (nonlinear_arith)
        requires
            0 <= a,
            a * a <= n,
            n < (a + 1) * (a + 1),
            0 <= b,
            b * b <= n,
            n < (b + 1) * (b + 1),
    ;
}

/// For nonnegative `n` the integer square root exists, so `sqrt_floor(n)`
/// satisfies its defining property.
pub proof fn lemma_sqrt_floor_exists(n: int)
    requires
        n >= 0,
    ensures
        is_sqrt_floor(n, sqrt_floor(n)),
    decreases n,
{
    if n == 0 {
        assert(is_sqrt_floor(0, 0));
    } else {
        lemma_sqrt_floor_exists(n - 1);
        let r = sqrt_floor(n - 1);
        if n < (r + 1) * (r + 1) {
            assert(is_sqrt_floor(n, r));
        } else {
            assert(is_sqrt_floor(n, r + 1)) by (nonlinear_arith)
                requires
                    0 <= r,
                    r * r <= n - 1,
                    n - 1 < (r + 1) * (r + 1),
                    n >= (r + 1) * (r + 1),
            ;
        }
    }
}

/// Truncating division is symmetric under negation of the dividend.
pub proof fn lemma_tdiv_neg(a: int, b: int)
    requires
        b > 0,
    ensures
        tdiv(-a, b) == -tdiv(a, b),
{
}

pub proof fn lemma_sqrt_floor_is(n: int, r: int)
    requires
        is_sqrt_floor(n, r),
    ensures
        sqrt_floor(n) == r,
{
    assert(is_sqrt_floor(n, sqrt_floor(n))) by {
        assert(exists|s: int| is_sqrt_floor(n, s)) by {
            assert(is_sqrt_floor(n, r));
        }
    }
    lemma_sqrt_floor_unique(n, sqrt_floor(n), r);
}

/// Sine of an angle given in milli-radians, scaled by 1000, as the
/// truncated cubic series `a - a^3/6` rendered in fixed point.  Exact for
/// the library's purposes on small per-tick turn angles.
pub open spec fn spec_sin_milli(a: int) -> int {
    let m = if a >= 0 {
        a
    } else {
        -a
    };
    let s = m - (m * m * m) / 6_000_000;
    if a >= 0 {
        s
    } else {
        -s
    }
}

/// Cosine of an angle given in milli-radians, scaled by 1000, as the
/// truncated quartic series `1 - a^2/2 + a^4/24` rendered in fixed point.
pub open spec fn spec_cos_milli(a: int) -> int {
    let m = if a >= 0 {
        a
    } else {
        -a
    };
    let m2 = m * m;
    1000 - m2 / 2000 + (m2 * m2) / 24_000_000_000
}

pub fn sin_milli(a: i64) -> (r: i64)
    requires
        -1000 <= a <= 1000,
    ensures
        r == spec_sin_milli(a as int),
        -1000 <= r <= 1000,
{
    let m = if a >= 0 {
        a
    } else {
        -a
    };
    assert(0 <= (m as int) * (m as int) <= 1_000_000 && 0 <= (m as int) * (m as int) * (m as int)
        <= 6_000_000 * m) by (nonlinear_arith)
        requires
            0 <= m <= 1000,
    ;
    let m3 = m * m * m;
    let s = m - m3 / 6_000_000;
    assert(0 <= m3 / 6_000_000 <= m);
    if a >= 0 {
        s
    } else {
        -s
    }
}

pub fn cos_milli(a: i64) -> (r: i64)
    requires
        -1000 <= a <= 1000,
    ensures
        r == spec_cos_milli(a as int),
        500 <= r <= 1041,
{
    let m = if a >= 0 {
        a
    } else {
        -a
    };
    assert(0 <= (m as int) * (m as int) <= 1_000_000) by (nonlinear_arith)
        requires
            0 <= m <= 1000,
    ;
    let m2 = m * m;
    assert(0 <= (m2 as int) * (m2 as int) <= 1_000_000_000_000) by (nonlinear_arith)
        requires
            0 <= m2 <= 1_000_000,
    ;
    let m4 = m2 * m2;
    assert(m2 / 2000 <= 500);
    assert(m4 / 24_000_000_000 <= 41);
    1000 - m2 / 2000 + m4 / 24_000_000_000
}

/// Integer square root by bisection.
pub fn isqrt(n: i64) -> (r: i64)
    requires
        n >= 0,
    ensures
        is_sqrt_floor(n as int, r as int),
        r == sqrt_floor(n as int),
        0 <= r <= 3_037_000_499,
{
    let mut lo: i64 = 0;
    let mut hi: i64 = 3_037_000_500;
    assert((3_037_000_500 as int) * (3_037_000_500 as int) > i64::MAX as int) by (nonlinear_arith);
    while lo + 1 < hi
        invariant
            0 <= lo < hi <= 3_037_000_500,
            (lo as int) * (lo as int) <= n as int,
            (n as int) < (hi as int) * (hi as int),
        decreases hi - lo,
    {
        let mid = lo + (hi - lo) / 2;
        assert(lo < mid < hi);
        assert((mid as int) * (mid as int) <= (3_037_000_499 as int) * (3_037_000_499 as int))
            by (nonlinear_arith)
            requires
                0 <= mid <= 3_037_000_499,
        ;
        assert((3_037_000_499 as int) * (3_037_000_499 as int) < i64::MAX as int) by (nonlinear_arith);
        if mid * mid <= n {
            lo = mid;
        } else {
            hi = mid;
        }
    }
    proof {
        lemma_sqrt_floor_is(n as int, lo as int);
    }
    lo
}

} // verus!
