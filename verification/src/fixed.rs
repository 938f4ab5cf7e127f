//! Fixed-point arithmetic shared by the whole pipeline.
//!
//! A scalar `s` stands for the real number `s / UNIT`.  Screen coordinates are
//! counted in the same way, so one pixel is `UNIT` steps wide and the centre of
//! pixel `p` lies at `p * UNIT + UNIT / 2`.
use vstd::prelude::*;
use vstd::arithmetic::div_mod::lemma_fundamental_div_mod_converse;
use vstd::arithmetic::div_mod::lemma_fundamental_div_mod;

verus! {

/// The fixed-point representation of `1.0`.
pub const UNIT: i32 = 10_000;

/// Screen coordinates are limited to `[COORD_MIN, COORD_MAX]` before they
/// are turned into pixels: this is pixel -10000.
pub const COORD_MIN: i32 = -100_000_000;

/// The upper end of the screen coordinate range: pixel 20000.
pub const COORD_MAX: i32 = 200_000_000;

/// Pi, to four places.
pub const PI: i32 = 31_416;

/// Half of pi, to four places.
pub const HALF_PI: i32 = 15_708;

/// `x` limited to the closed interval `[lo, hi]`.
pub open spec fn clamp_spec(x: int, lo: int, hi: int) -> int {
    if x < lo {
        lo
    } else if x > hi {
        hi
    } else {
        x
    }
}

/// A sine or cosine limited to `[-1, 1]`.
pub open spec fn limited(s: int) -> int {
    clamp_spec(s, -(UNIT as int), UNIT as int)
}

/// The larger of two integers.
pub open spec fn max_spec(a: int, b: int) -> int {
    if a >= b {
        a
    } else {
        b
    }
}

/// The smaller of two integers.
pub open spec fn min_spec(a: int, b: int) -> int {
    if a <= b {
        a
    } else {
        b
    }
}

/// The absolute value of an integer.
pub open spec fn abs_spec(a: int) -> int {
    if a < 0 {
        -a
    } else {
        a
    }
}

/// The quotient `n / d` rounded towards negative infinity, for any non-zero
/// divisor.
pub open spec fn floor_div(n: int, d: int) -> int {
    if d > 0 {
        n / d
    } else {
        (-n) / (-d)
    }
}

/// `r` is the integer square root of `n`: the largest `r` with `r * r <= n`.
pub open spec fn is_isqrt(n: int, r: int) -> bool {
    0 <= r && r * r <= n < (r + 1) * (r + 1)
}

/// The integer square root of a natural number.
pub open spec fn isqrt_spec(n: int) -> int {
    choose|r: int| is_isqrt(n, r)
}

/// At most one number is the integer square root of `n`.
pub proof fn lemma_isqrt_unique(n: int, r1: int, r2: int)
    requires
        is_isqrt(n, r1),
        is_isqrt(n, r2),
    ensures
        r1 == r2,
{
    if r1 < r2 {
        assert((r1 + 1) * (r1 + 1) <= r2 * r2) by (nonlinear_arith)
            requires
                0 <= r1,
                r1 + 1 <= r2,
        ;
    } else if r2 < r1 {
        assert((r2 + 1) * (r2 + 1) <= r1 * r1) by (nonlinear_arith)
            requires
                0 <= r2,
                r2 + 1 <= r1,
        ;
    }
}

/// Every natural number has an integer square root.
pub proof fn lemma_isqrt_exists(n: int)
    requires
        0 <= n,
    ensures
        is_isqrt(n, isqrt_spec(n)),
    decreases n,
{
    if n == 0 {
        assert(is_isqrt(0, 0));
    } else {
        lemma_isqrt_exists(n - 1);
        let r = isqrt_spec(n - 1);
        if n < (r + 1) * (r + 1) {
            assert(is_isqrt(n, r));
        } else {
            assert((r + 2) * (r + 2) > (r + 1) * (r + 1)) by (nonlinear_arith)
                requires
                    r >= 0,
            ;
            assert(is_isqrt(n, r + 1));
        }
    }
}

/// Whatever satisfies [`is_isqrt`] is the value of [`isqrt_spec`].
pub proof fn lemma_isqrt_is(n: int, r: int)
    requires
        is_isqrt(n, r),
    ensures
        isqrt_spec(n) == r,
{
    lemma_isqrt_unique(n, r, isqrt_spec(n));
}

/// `x` limited to the closed interval `[lo, hi]`.
pub fn clamp_i32(x: i32, lo: i32, hi: i32) -> (r: i32)
    requires
        lo <= hi,
    ensures
        r == clamp_spec(x as int, lo as int, hi as int),
{
    if x < lo {
        lo
    } else if x > hi {
        hi
    } else {
        x
    }
}

/// `x` limited to the closed interval `[lo, hi]`.
pub fn clamp_i64(x: i64, lo: i64, hi: i64) -> (r: i64)
    requires
        lo <= hi,
    ensures
        r == clamp_spec(x as int, lo as int, hi as int),
{
    if x < lo {
        lo
    } else if x > hi {
        hi
    } else {
        x
    }
}

/// Division rounded towards negative infinity by a positive divisor.
pub fn div_floor(n: i128, d: i128) -> (q: i128)
    requires
        d > 0,
    ensures
        q == n / d,
        q == floor_div(n as int, d as int),
{
    let q: i128 = n / d;
    let r: i128 = n % d;
    proof {
        if n >= 0 {
            lemma_fundamental_div_mod(n as int, d as int);
        } else {
            let m: int = -(n as int);
            lemma_fundamental_div_mod(m, d as int);
            if r == 0 {
                assert(n as int == q * d + 0) by (nonlinear_arith)
                    requires
                        m == d * (m / (d as int)) + m % (d as int),
                        q == -(m / (d as int)),
                        m % (d as int) == 0,
                        n == -m,
                ;
                lemma_fundamental_div_mod_converse(n as int, d as int, q as int, 0);
            } else {
                assert(n as int == (q - 1) * d + (d + r)) by (nonlinear_arith)
                    requires
                        m == d * (m / (d as int)) + m % (d as int),
                        q == -(m / (d as int)),
                        r == -(m % (d as int)),
                        n == -m,
                ;
                lemma_fundamental_div_mod_converse(n as int, d as int, q - 1, d + r);
                assert(q - 1 >= n) by (nonlinear_arith)
                    requires
                        n as int == (q - 1) * d + (d + r),
                        0 <= d + r < d,
                        n < 0,
                ;
            }
        }
    }
    if r < 0 {
        q - 1
    } else {
        q
    }
}

/// The integer square root, found by bisection.
pub fn isqrt(n: u64) -> (r: u32)
    ensures
        is_isqrt(n as int, r as int),
        r == isqrt_spec(n as int),
{
    let mut lo: u64 = 0;
    let mut hi: u64 = 0x1_0000_0000;
    assert(0x1_0000_0000int * 0x1_0000_0000int > n) by (nonlinear_arith)
        requires
            n <= 0xffff_ffff_ffff_ffff,
    ;
    while hi - lo > 1
        invariant
            lo < hi <= 0x1_0000_0000,
            lo * lo <= n,
            n < hi * hi,
        decreases hi - lo,
    {
        let mid: u64 = lo + (hi - lo) / 2;
        assert(mid * mid <= 0xffff_ffff * 0xffff_ffff) by (nonlinear_arith)
            requires
                0 <= mid <= 0xffff_ffff,
        ;
        if mid * mid <= n {
            lo = mid;
        } else {
            hi = mid;
        }
    }
    proof {
        lemma_isqrt_is(n as int, lo as int);
    }
    lo as u32
}

/// The integer square root of a wide number, found by bisection.
pub fn isqrt_wide(n: u128) -> (r: u64)
    ensures
        is_isqrt(n as int, r as int),
        r == isqrt_spec(n as int),
{
    let mut lo: u128 = 0;
    let mut hi: u128 = 0x1_0000_0000_0000_0000;
    assert(0x1_0000_0000_0000_0000int * 0x1_0000_0000_0000_0000int > n) by (nonlinear_arith)
        requires
            n <= 0xffff_ffff_ffff_ffff_ffff_ffff_ffff_ffff,
    ;
    while hi - lo > 1
        invariant
            lo < hi <= 0x1_0000_0000_0000_0000,
            lo * lo <= n,
            n < hi * hi,
        decreases hi - lo,
    {
        let mid: u128 = lo + (hi - lo) / 2;
        assert(mid * mid <= 0xffff_ffff_ffff_ffff * 0xffff_ffff_ffff_ffff) by (nonlinear_arith)
            requires
                0 <= mid <= 0xffff_ffff_ffff_ffff,
        ;
        if mid * mid <= n {
            lo = mid;
        } else {
            hi = mid;
        }
    }
    proof {
        lemma_isqrt_is(n as int, lo as int);
    }
    lo as u64
}

/// `x` limited to what a 32-bit scalar holds.
pub open spec fn saturated(x: int) -> int {
    clamp_spec(x, i32::MIN as int, i32::MAX as int)
}

/// Brings a wide intermediate result back to a 32-bit scalar, limiting it to
/// the range of the type.
pub fn saturate(x: i128) -> (r: i32)
    ensures
        r == saturated(x as int),
{
    if x < i32::MIN as i128 {
        i32::MIN
    } else if x > i32::MAX as i128 {
        i32::MAX
    } else {
        x as i32
    }
}

/// The fixed-point product of two scalars, rounded down.
pub open spec fn mul_unit(a: int, b: int) -> int {
    a * b / (UNIT as int)
}

/// The blend of `a` and `b` at `t` in `[0, 1]`, rounded down:
/// `a (1 - t) + b t`.
pub open spec fn lerp(a: int, b: int, t: int) -> int {
    (a * (UNIT - t) + b * t) / (UNIT as int)
}

/// The product of two 32-bit numbers fits in 63 bits.
pub proof fn lemma_product_bound(a: int, b: int)
    requires
        -0x8000_0000 <= a <= 0x8000_0000,
        -0x8000_0000 <= b <= 0x8000_0000,
    ensures
        -0x4000_0000_0000_0000 <= a * b <= 0x4000_0000_0000_0000,
{
    assert(-0x4000_0000_0000_0000 <= a * b <= 0x4000_0000_0000_0000) by (nonlinear_arith)
        requires
            -0x8000_0000 <= a <= 0x8000_0000,
            -0x8000_0000 <= b <= 0x8000_0000,
    ;
}

/// The fixed-point product of two scalars, rounded down.
pub fn mul_fixed(a: i32, b: i32) -> (r: i64)
    ensures
        r == mul_unit(a as int, b as int),
        -0x4000_0000_0000_0000 <= r <= 0x4000_0000_0000_0000,
{
    proof {
        lemma_product_bound(a as int, b as int);
    }
    let wide: i128 = a as i128 * b as i128;
    div_floor(wide, UNIT as i128) as i64
}

} // verus!
