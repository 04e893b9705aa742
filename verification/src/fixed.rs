//! Fixed-point scalars.
//!
//! Every real quantity of the renderer (a coordinate, a distance, an angle, a
//! blending weight, a time in seconds) is held as an `i64` that counts
//! millionths: the real number `x` is stored as `x * ONE`, rounded toward
//! zero. Products and quotients are formed in 128 bits and rounded toward zero
//! when they are brought back to the scale.
use vstd::prelude::*;

verus! {

/// The fixed-point representation of the number one.
pub const ONE: i64 = 1_000_000;

/// Division of mathematical integers by a positive divisor, rounded toward zero.
pub open spec fn trunc_div(n: int, d: int) -> int {
    if n >= 0 {
        n / d
    } else {
        -((-n) / d)
    }
}

/// The absolute value of a mathematical integer.
pub open spec fn magnitude(x: int) -> int {
    if x >= 0 {
        x
    } else {
        -x
    }
}

/// `x` limited to the interval from `lo` to `hi`.
pub open spec fn spec_clamp(x: int, lo: int, hi: int) -> int {
    if x < lo {
        lo
    } else if x > hi {
        hi
    } else {
        x
    }
}

/// `x` limited to the fixed-point interval from zero to one.
pub open spec fn spec_clamp01(x: int) -> int {
    spec_clamp(x, 0, ONE as int)
}

/// The fixed-point product of two fixed-point numbers.
pub open spec fn spec_fx_mul(a: int, b: int) -> int {
    trunc_div(a * b, ONE as int)
}

/// Linear interpolation from `a` (at weight zero) to `b` (at weight one).
pub open spec fn spec_lerp(a: int, b: int, t: int) -> int {
    a + spec_fx_mul(b - a, t)
}

/// Whether `r` is the integer square root of `n`, rounded down.
pub open spec fn is_sqrt_floor(n: int, r: int) -> bool {
    0 <= r && r * r <= n && n < (r + 1) * (r + 1)
}

/// The integer square root of a natural number, rounded down.
pub closed spec fn sqrt_floor(n: int) -> int {
    choose|r: int| is_sqrt_floor(n, r)
}

/// A product is bounded by the product of the bounds of its factors.
pub proof fn lemma_mul_bound(a: int, b: int, ma: int, mb: int)
    by (nonlinear_arith)
    requires
        -ma <= a <= ma,
        -mb <= b <= mb,
    ensures
        -(ma * mb) <= a * b <= ma * mb,
{
}

/// Truncating division does not increase the magnitude, and divides bounds.
pub proof fn lemma_trunc_div_bound(n: int, d: int, m: int)
    by (nonlinear_arith)
    requires
        d > 0,
        m >= 0,
        -(m * d) <= n <= m * d,
    ensures
        -m <= trunc_div(n, d) <= m,
        n >= 0 ==> trunc_div(n, d) >= 0,
        n <= 0 ==> trunc_div(n, d) <= 0,
{
    if n >= 0 {
        assert(n / d <= m) by {
            if n / d > m {
                assert((n / d) * d >= (m + 1) * d);
                assert((n / d) * d <= n);
            }
        }
        assert(n / d >= 0);
    } else {
        let p = -n;
        assert(p / d <= m) by {
            if p / d > m {
                assert((p / d) * d >= (m + 1) * d);
                assert((p / d) * d <= p);
            }
        }
        assert(p / d >= 0);
    }
}

/// Truncating division is monotone in the dividend.
pub proof fn lemma_trunc_div_monotone(a: int, b: int, d: int)
    by (nonlinear_arith)
    requires
        d > 0,
        a <= b,
    ensures
        trunc_div(a, d) <= trunc_div(b, d),
{
    if a >= 0 {
        assert(a / d <= b / d) by {
            if a / d > b / d {
                assert((a / d) * d >= (b / d + 1) * d);
                assert((a / d) * d <= a);
                assert(b < (b / d + 1) * d);
            }
        }
    } else if b >= 0 {
        assert((-a) / d >= 0);
        assert(b / d >= 0);
    } else {
        let p = -a;
        let q = -b;
        assert(q / d <= p / d) by {
            if q / d > p / d {
                assert((q / d) * d >= (p / d + 1) * d);
                assert((q / d) * d <= q);
                assert(p < (p / d + 1) * d);
            }
        }
    }
}

/// Truncating division of a multiple is exact.
pub proof fn lemma_trunc_div_exact(q: int, d: int)
    by (nonlinear_arith)
    requires
        d > 0,
    ensures
        trunc_div(q * d, d) == q,
{
    if q >= 0 {
        assert(q * d >= 0);
        assert((q * d) / d == q) by {
            let k = (q * d) / d;
            assert(k * d <= q * d < (k + 1) * d);
            if k < q {
                assert((k + 1) * d <= q * d);
            }
            if k > q {
                assert(k * d >= (q + 1) * d);
            }
        }
    } else {
        let p = -q;
        assert(-(q * d) == p * d);
        assert(p * d > 0);
        assert((p * d) / d == p) by {
            let k = (p * d) / d;
            assert(k * d <= p * d < (k + 1) * d);
            if k < p {
                assert((k + 1) * d <= p * d);
            }
            if k > p {
                assert(k * d >= (p + 1) * d);
            }
        }
    }
}

/// A fixed-point product with a factor of magnitude at most one is no larger
/// in magnitude than the other factor, and has the sign of the product.
pub proof fn lemma_fx_mul_unit(a: int, b: int, m: int)
    requires
        -m <= a <= m,
        -(ONE as int) <= b <= ONE as int,
    ensures
        -m <= spec_fx_mul(a, b) <= m,
        a * b >= 0 ==> spec_fx_mul(a, b) >= 0,
        a * b <= 0 ==> spec_fx_mul(a, b) <= 0,
{
    lemma_mul_bound(a, b, m, ONE as int);
    lemma_trunc_div_bound(a * b, ONE as int, m);
}

/// Two integer square roots of one number are equal.
pub proof fn lemma_sqrt_floor_unique(n: int, r1: int, r2: int)
    by (nonlinear_arith)
    requires
        is_sqrt_floor(n, r1),
        is_sqrt_floor(n, r2),
    ensures
        r1 == r2,
{
    if r1 < r2 {
        assert((r1 + 1) * (r1 + 1) <= r2 * r2);
    }
    if r2 < r1 {
        assert((r2 + 1) * (r2 + 1) <= r1 * r1);
    }
}

/// A number that squares to at most `n` and whose successor squares to more
/// than `n` is the integer square root of `n`.
pub proof fn lemma_sqrt_floor_is(n: int, r: int)
    requires
        is_sqrt_floor(n, r),
    ensures
        sqrt_floor(n) == r,
{
    lemma_sqrt_floor_unique(n, r, sqrt_floor(n));
}

/// Every natural number has an integer square root.
pub proof fn lemma_sqrt_floor_exists(n: int)
    requires
        n >= 0,
    ensures
        is_sqrt_floor(n, sqrt_floor(n)),
    decreases n,
{
    if n == 0 {
        assert(is_sqrt_floor(0, 0));
    } else {
        lemma_sqrt_floor_exists(n - 1);
        let r = sqrt_floor(n - 1);
        if (r + 1) * (r + 1) <= n {
            assert(n < (r + 2) * (r + 2)) by (nonlinear_arith)
                requires
                    n - 1 < (r + 1) * (r + 1),
                    r >= 0,
            ;
            assert(is_sqrt_floor(n, r + 1));
        } else {
            assert(is_sqrt_floor(n, r));
        }
    }
}

/// A quotient is at least `k` when the dividend is at least `k` divisors.
pub proof fn lemma_div_lower(p: int, d: int, k: int)
    by (nonlinear_arith)
    requires
        d > 0,
        p >= k * d,
    ensures
        p / d >= k,
{
    if p / d < k {
        assert((p / d + 1) * d <= k * d);
        assert(p < (p / d + 1) * d);
    }
}

/// Limits a fixed-point number to the interval from zero to one.
pub fn clamp01(x: i64) -> (r: i64)
    ensures
        r == spec_clamp01(x as int),
        0 <= r <= ONE,
{
    if x < 0 {
        0
    } else if x > ONE {
        ONE
    } else {
        x
    }
}

/// The absolute value of a 64-bit number, widened so that it always fits.
pub fn abs_wide(x: i64) -> (r: i128)
    ensures
        r == magnitude(x as int),
        0 <= r <= 0x8000_0000_0000_0000,
{
    let w: i128 = x as i128;
    if w >= 0 {
        w
    } else {
        -w
    }
}

/// The exact product of two 64-bit numbers.
pub fn wide_mul(a: i64, b: i64) -> (r: i128)
    ensures
        r == a * b,
        -0x4000_0000_0000_0000_0000_0000_0000_0000 <= r <= 0x4000_0000_0000_0000_0000_0000_0000_0000,
{
    let x: i128 = a as i128;
    let y: i128 = b as i128;
    proof {
        lemma_mul_bound(x as int, y as int, 0x8000_0000_0000_0000, 0x8000_0000_0000_0000);
    }
    x * y
}

/// `a * b / d`, rounded toward zero, with the product formed exactly.
pub fn mul_div(a: i64, b: i64, d: i64) -> (r: i64)
    requires
        d > 0,
        i64::MIN <= trunc_div(a * b, d as int) <= i64::MAX,
    ensures
        r == trunc_div(a * b, d as int),
{
    let p: i128 = wide_mul(a, b);
    let q: i128 = p / (d as i128);
    q as i64
}

/// The fixed-point product of two fixed-point numbers.
pub fn fx_mul(a: i64, b: i64) -> (r: i64)
    requires
        i64::MIN <= spec_fx_mul(a as int, b as int) <= i64::MAX,
    ensures
        r == spec_fx_mul(a as int, b as int),
{
    mul_div(a, b, ONE)
}

/// Linear interpolation between two fixed-point numbers by a weight between
/// zero and one.
pub fn lerp(a: i64, b: i64, t: i64) -> (r: i64)
    requires
        0 <= t <= ONE,
        -0x2000_0000_0000_0000 <= a <= 0x2000_0000_0000_0000,
        -0x2000_0000_0000_0000 <= b <= 0x2000_0000_0000_0000,
    ensures
        r == spec_lerp(a as int, b as int, t as int),
        a <= b ==> a <= r <= b,
        b <= a ==> b <= r <= a,
{
    let d: i64 = b - a;
    proof {
        lemma_fx_mul_unit(d as int, t as int, magnitude(d as int));
        assert(d >= 0 ==> d * t >= 0) by (nonlinear_arith)
            requires
                t >= 0,
        ;
        assert(d <= 0 ==> d * t <= 0) by (nonlinear_arith)
            requires
                t >= 0,
        ;
    }
    let step: i64 = fx_mul(d, t);
    a + step
}

/// The integer square root of `n`, rounded down.
pub fn isqrt(n: u128) -> (r: u64)
    ensures
        is_sqrt_floor(n as int, r as int),
        r == sqrt_floor(n as int),
{
    let mut lo: u128 = 0;
    let mut hi: u128 = 0x1_0000_0000_0000_0000;
    assert(n < hi * hi) by (nonlinear_arith)
        requires
            hi == 0x1_0000_0000_0000_0000,
            n <= u128::MAX,
    ;
    while hi - lo > 1
        invariant
            lo < hi <= 0x1_0000_0000_0000_0000,
            lo * lo <= n,
            n < hi * hi,
        decreases hi - lo,
    {
        let mid: u128 = lo + (hi - lo) / 2;
        assert(mid * mid <= u128::MAX) by (nonlinear_arith)
            requires
                0 <= mid <= 0xFFFF_FFFF_FFFF_FFFF,
        ;
        if mid * mid <= n {
            lo = mid;
        } else {
            hi = mid;
        }
    }
    proof {
        lemma_sqrt_floor_is(n as int, lo as int);
    }
    lo as u64
}

} // verus!
