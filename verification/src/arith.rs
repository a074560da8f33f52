//! Integer arithmetic shared by the renderer: clamping, the two roundings of
//! a quotient, wrapping into a range, and the integer square root.
//!
//! Everything the renderer computes is an integer. Intermediate values are
//! held in `i128`, which is wide enough for every product formed from `i32`
//! inputs, and are brought back to `i32` by clamping.
use vstd::prelude::*;

verus! {

/// `v` limited to the range `lo ..= hi`.
pub open spec fn clamp(v: int, lo: int, hi: int) -> int {
    if v < lo {
        lo
    } else if v > hi {
        hi
    } else {
        v
    }
}

/// `v` limited to what an `i32` can hold.
pub open spec fn clamp_i32(v: int) -> int {
    clamp(v, i32::MIN as int, i32::MAX as int)
}

/// The quotient `a / b` rounded toward zero, for a positive divisor.
pub open spec fn trunc_div(a: int, b: int) -> int {
    if a >= 0 {
        a / b
    } else {
        -((-a) / b)
    }
}

/// The quotient `a / b` rounded toward negative infinity, for a positive
/// divisor.
pub open spec fn floor_div(a: int, b: int) -> int {
    a / b
}

/// `a` wrapped into `0 .. m`, for a positive `m`.
pub open spec fn wrap(a: int, m: int) -> int {
    a % m
}

/// `r` is the integer square root of `n`: the largest integer whose square
/// does not exceed `n`.
pub open spec fn is_sqrt(n: int, r: int) -> bool {
    0 <= r && r * r <= n < (r + 1) * (r + 1)
}

/// The integer square root of a non-negative `n`.
pub open spec fn sqrt_floor(n: int) -> int {
    choose|r: int| is_sqrt(n, r)
}

/// The integer square root is unique.
pub proof fn lemma_sqrt_unique(n: int, r1: int, r2: int)
    requires
        is_sqrt(n, r1),
        is_sqrt(n, r2),
    ensures
        r1 == r2,
{
    if r1 < r2 {
        assert((r1 + 1) * (r1 + 1) <= r2 * r2) by (nonlinear_arith)
            requires
                0 <= r1,
                r1 + 1 <= r2,
        ;
    }
    if r2 < r1 {
        assert((r2 + 1) * (r2 + 1) <= r1 * r1) by (nonlinear_arith)
            requires
                0 <= r2,
                r2 + 1 <= r1,
        ;
    }
}

/// Every non-negative integer has an integer square root.
pub proof fn lemma_sqrt_exists(n: int)
    requires
        n >= 0,
    ensures
        is_sqrt(n, sqrt_floor(n)),
        0 <= sqrt_floor(n),
    decreases n,
{
    if n == 0 {
        assert(is_sqrt(0, 0));
    } else {
        lemma_sqrt_exists(n - 1);
        let r = sqrt_floor(n - 1);
        if (r + 1) * (r + 1) <= n {
            assert((r + 2) * (r + 2) > n) by (nonlinear_arith)
                requires
                    n - 1 < (r + 1) * (r + 1),
                    r >= 0,
            ;
            assert(is_sqrt(n, r + 1));
        } else {
            assert(is_sqrt(n, r));
        }
    }
}

/// Whatever satisfies `is_sqrt` is the value of `sqrt_floor`.
pub proof fn lemma_sqrt_floor(n: int, r: int)
    requires
        is_sqrt(n, r),
    ensures
        sqrt_floor(n) == r,
{
    lemma_sqrt_unique(n, r, sqrt_floor(n));
}

/// For a positive divisor, rounding toward zero never moves a quotient away
/// from zero, and the two roundings agree on non-negative dividends.
pub proof fn lemma_trunc_div_bounds(a: int, b: int)
    requires
        b > 0,
    ensures
        a >= 0 ==> 0 <= trunc_div(a, b) <= a,
        a <= 0 ==> a <= trunc_div(a, b) <= 0,
        a >= 0 ==> trunc_div(a, b) == floor_div(a, b),
{
    if a >= 0 {
        vstd::arithmetic::div_mod::lemma_div_pos_is_pos(a, b);
        vstd::arithmetic::div_mod::lemma_div_is_ordered_by_denominator(a, 1, b);
    } else {
        vstd::arithmetic::div_mod::lemma_div_pos_is_pos(-a, b);
        vstd::arithmetic::div_mod::lemma_div_is_ordered_by_denominator(-a, 1, b);
    }
}

/// A product is bounded by the product of the bounds of its factors.
pub proof fn lemma_mul_bound(a: int, b: int, bound_a: int, bound_b: int)
    by (nonlinear_arith)
    requires
        -bound_a <= a <= bound_a,
        -bound_b <= b <= bound_b,
    ensures
        -(bound_a * bound_b) <= a * b <= bound_a * bound_b,
{
}

/// Brings a wide value back to `i32`, saturating at both ends.
pub fn clamp_to_i32(v: i128) -> (r: i32)
    ensures
        r == clamp_i32(v as int),
{
    if v < i32::MIN as i128 {
        i32::MIN
    } else if v > i32::MAX as i128 {
        i32::MAX
    } else {
        v as i32
    }
}

/// Limits `v` to `lo ..= hi`.
pub fn clamp_range(v: i64, lo: i32, hi: i32) -> (r: i32)
    requires
        lo <= hi,
    ensures
        r == clamp(v as int, lo as int, hi as int),
{
    if v < lo as i64 {
        lo
    } else if v > hi as i64 {
        hi
    } else {
        v as i32
    }
}

/// Divides rounding toward negative infinity.
pub fn div_floor(a: i128, b: i128) -> (q: i128)
    requires
        b > 0,
    ensures
        q == floor_div(a as int, b as int),
{
    let q: i128 = a / b;
    let r: i128 = a % b;
    proof {
        if a < 0 {
            vstd::arithmetic::div_mod::lemma_fundamental_div_mod(-a, b as int);
            vstd::arithmetic::div_mod::lemma_mod_bound(-a, b as int);
            lemma_trunc_div_bounds(a as int, b as int);
            let t = (-a) / (b as int);
            let m = (-a) % (b as int);
            assert(-a == b * t + m);
            if m == 0 {
                assert(a == (-t) * b + 0) by (nonlinear_arith)
                    requires
                        -a == b * t,
                ;
                vstd::arithmetic::div_mod::lemma_fundamental_div_mod_converse(
                    a as int,
                    b as int,
                    -t,
                    0,
                );
            } else {
                assert(a == (-t - 1) * b + (b - m)) by (nonlinear_arith)
                    requires
                        -a == b * t + m,
                ;
                assert(b * t >= t) by (nonlinear_arith)
                    requires
                        b >= 1,
                        t >= 0,
                ;
                vstd::arithmetic::div_mod::lemma_fundamental_div_mod_converse(
                    a as int,
                    b as int,
                    -t - 1,
                    b - m,
                );
            }
        }
    }
    if r < 0 {
        q - 1
    } else {
        q
    }
}

/// Wraps `a` into `0 .. m`.
pub fn wrap_into(a: i128, m: i128) -> (r: i128)
    requires
        m > 0,
    ensures
        r == wrap(a as int, m as int),
        0 <= r < m,
{
    let r: i128 = a % m;
    proof {
        vstd::arithmetic::div_mod::lemma_mod_bound(a as int, m as int);
        if a < 0 {
            vstd::arithmetic::div_mod::lemma_fundamental_div_mod(-a, m as int);
            vstd::arithmetic::div_mod::lemma_mod_bound(-a, m as int);
            let t = (-a) / (m as int);
            let k = (-a) % (m as int);
            if k == 0 {
                assert(a == (-t) * m + 0) by (nonlinear_arith)
                    requires
                        -a == m * t,
                ;
                vstd::arithmetic::div_mod::lemma_fundamental_div_mod_converse(
                    a as int,
                    m as int,
                    -t,
                    0,
                );
            } else {
                assert(a == (-t - 1) * m + (m - k)) by (nonlinear_arith)
                    requires
                        -a == m * t + k,
                ;
                vstd::arithmetic::div_mod::lemma_fundamental_div_mod_converse(
                    a as int,
                    m as int,
                    -t - 1,
                    m - k,
                );
            }
        }
    }
    if r < 0 {
        r + m
    } else {
        r
    }
}

/// The integer square root, found by bisection.
pub fn isqrt(n: u128) -> (r: u128)
    ensures
        is_sqrt(n as int, r as int),
        r == sqrt_floor(n as int),
        r <= 0xffff_ffff_ffff_ffff,
{
    let mut lo: u128 = 0;
    let mut hi: u128 = 0x1_0000_0000_0000_0000;
    assert(0x1_0000_0000_0000_0000 * 0x1_0000_0000_0000_0000 > u128::MAX) by (nonlinear_arith);
    while hi - lo > 1
        invariant
            lo < hi <= 0x1_0000_0000_0000_0000,
            lo * lo <= n,
            n < hi * hi,
        decreases hi - lo,
    {
        let mid: u128 = lo + (hi - lo) / 2;
        assert(mid * mid <= 0xffff_ffff_ffff_ffff * 0xffff_ffff_ffff_ffff) by (nonlinear_arith)
            requires
                0 <= mid <= 0xffff_ffff_ffff_ffff,
        ;
        if mid * mid <= n {
            lo = mid;
        } else {
            hi = mid;
        }
    }
    proof {
        lemma_sqrt_floor(n as int, lo as int);
    }
    lo
}

} // verus!
