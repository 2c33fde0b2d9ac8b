//! Integer arithmetic primitives for the simulation core: truncating
//! division and the integer square root, with the facts the geometry
//! proofs need about them.

use vstd::prelude::*;
use vstd::arithmetic::div_mod::{
    lemma_div_is_ordered, lemma_div_pos_is_pos, lemma_fundamental_div_mod,
    lemma_remainder_lower, lemma_remainder_upper,
};

verus! {

/// Division that rounds toward zero (hardware division), for a positive
/// divisor. Spec-mode `/` is Euclidean, so the negative case is spelled out.
pub open spec fn tdiv(a: int, b: int) -> int
    recommends
        b >= 1,
{
    if a >= 0 {
        a / b
    } else {
        -((-a) / b)
    }
}

/// Truncating division of `a` by a positive divisor `b`.
pub fn div_trunc(a: i64, b: i64) -> (q: i64)
    requires
        b >= 1,
        a > i64::MIN,
    ensures
        q == tdiv(a as int, b as int),
{
    if a >= 0 {
        a / b
    } else {
        proof {
            lemma_div_pos_is_pos(-(a as int), b as int);
            lemma_div_is_ordered(0, -(a as int), b as int);
            lemma_div_is_ordered(-(a as int), -(i64::MIN + 1) as int, b as int);
            lemma_div_nonincreasing_pos(-(a as int), b as int);
        }
        -((-a) / b)
    }
}

/// For nonnegative `x` and positive `d`, the quotient does not exceed `x`.
proof fn lemma_div_nonincreasing_pos(x: int, d: int)
    requires
        x >= 0,
        d >= 1,
    ensures
        x / d <= x,
{
    lemma_remainder_upper(x, d);
    lemma_fundamental_div_mod(x, d);
    lemma_div_pos_is_pos(x, d);
    assert((x / d) * d >= x / d) by (nonlinear_arith)
        requires
            x / d >= 0,
            d >= 1,
    ;
}

/// The quotient never grows in magnitude and keeps the sign of `a`.
pub proof fn lemma_tdiv_bounds(a: int, b: int)
    requires
        b >= 1,
    ensures
        a >= 0 ==> 0 <= tdiv(a, b) <= a,
        a <= 0 ==> a <= tdiv(a, b) <= 0,
        b * tdiv(a, b) <= a || a < 0,
        a >= 0 ==> a < b * tdiv(a, b) + b,
        a < 0 ==> a <= b * tdiv(a, b) <= 0 && b * tdiv(a, b) - b < a,
{
    if a >= 0 {
        lemma_div_pos_is_pos(a, b);
        lemma_div_nonincreasing_pos(a, b);
        lemma_fundamental_div_mod(a, b);
        lemma_remainder_lower(a, b);
        lemma_remainder_upper(a, b);
    } else {
        lemma_div_pos_is_pos(-a, b);
        lemma_div_nonincreasing_pos(-a, b);
        lemma_fundamental_div_mod(-a, b);
        lemma_remainder_lower(-a, b);
        lemma_remainder_upper(-a, b);
        let q = (-a) / b;
        assert(b * q >= 0) by (nonlinear_arith)
            requires
                q >= 0,
                b >= 1,
        ;
        assert(b * -q == -(b * q)) by (nonlinear_arith);
    }
}

/// Scaling by `n / d` with `n <= d` does not grow the magnitude.
pub proof fn lemma_tdiv_scale_shrinks(a: int, n: int, d: int)
    requires
        d >= 1,
        0 <= n <= d,
    ensures
        a >= 0 ==> 0 <= tdiv(a * n, d) <= a,
        a <= 0 ==> a <= tdiv(a * n, d) <= 0,
{
    if a >= 0 {
        assert(0 <= a * n <= a * d) by (nonlinear_arith)
            requires
                a >= 0,
                0 <= n <= d,
        ;
        lemma_tdiv_bounds(a * n, d);
        lemma_div_is_ordered(a * n, a * d, d);
        vstd::arithmetic::div_mod::lemma_div_by_multiple(a, d);
    } else {
        assert(0 <= (-a) * n <= (-a) * d) by (nonlinear_arith)
            requires
                a <= 0,
                0 <= n <= d,
        ;
        assert((-a) * n == -(a * n) && (-a) * d == -(a * d)) by (nonlinear_arith);
        lemma_tdiv_bounds(a * n, d);
        lemma_div_is_ordered(-(a * n), -(a * d), d);
        vstd::arithmetic::div_mod::lemma_div_by_multiple(-a, d);
    }
}

/// Dividing an exact multiple recovers the factor.
pub proof fn lemma_tdiv_exact(a: int, d: int)
    requires
        d >= 1,
    ensures
        tdiv(a * d, d) == a,
{
    if a >= 0 {
        assert(a * d >= 0) by (nonlinear_arith)
            requires
                a >= 0,
                d >= 1,
        ;
        vstd::arithmetic::div_mod::lemma_div_by_multiple(a, d);
    } else {
        assert(a * d <= 0 && (-a) * d == -(a * d)) by (nonlinear_arith)
            requires
                a <= 0,
                d >= 1,
        ;
        vstd::arithmetic::div_mod::lemma_div_by_multiple(-a, d);
    }
}

/// The quotient scaled back by the divisor lands within one divisor of
/// the dividend, on either side of zero.
pub proof fn lemma_tdiv_near(a: int, b: int)
    requires
        b >= 1,
    ensures
        b * tdiv(a, b) - b < a < b * tdiv(a, b) + b,
{
    lemma_tdiv_bounds(a, b);
}

/// Squares of values within a window `w` of each other differ by less
/// than `2 * w * vm + w * w`, for magnitudes bounded by `vm`.
pub proof fn lemma_sq_window(u: int, v: int, w: int, vm: int)
    requires
        w >= 1,
        vm >= 0,
        v - w < u < v + w,
        -vm <= v <= vm,
    ensures
        u * u < v * v + 2 * w * vm + w * w,
        u * u >= v * v - 2 * w * vm,
{
    if v >= 0 {
        assert(u * u < (v + w) * (v + w)) by (nonlinear_arith)
            requires
                w >= 1,
                v >= 0,
                v - w < u < v + w,
        ;
        assert((v + w) * (v + w) <= v * v + 2 * w * vm + w * w) by (nonlinear_arith)
            requires
                w >= 1,
                0 <= v <= vm,
        ;
        if v >= w {
            assert(u * u > (v - w) * (v - w)) by (nonlinear_arith)
                requires
                    u > v - w >= 0,
            ;
            assert((v - w) * (v - w) >= v * v - 2 * w * vm) by (nonlinear_arith)
                requires
                    w >= 1,
                    0 <= v <= vm,
            ;
        } else {
            assert(u * u >= 0 && v * v - 2 * w * vm <= 0) by (nonlinear_arith)
                requires
                    0 <= v < w,
                    v <= vm,
                    w >= 1,
            ;
        }
    } else {
        assert(u * u < (v - w) * (v - w)) by (nonlinear_arith)
            requires
                w >= 1,
                v < 0,
                v - w < u < v + w,
        ;
        assert((v - w) * (v - w) <= v * v + 2 * w * vm + w * w) by (nonlinear_arith)
            requires
                w >= 1,
                vm >= 0,
                -vm <= v < 0,
        ;
        if -v >= w {
            assert(u * u > (v + w) * (v + w)) by (nonlinear_arith)
                requires
                    u < v + w <= 0,
        ;
            assert((v + w) * (v + w) >= v * v - 2 * w * vm) by (nonlinear_arith)
                requires
                    w >= 1,
                    vm >= 0,
                    -vm <= v < 0,
            ;
        } else {
            assert(u * u >= 0 && v * v - 2 * w * vm <= 0) by (nonlinear_arith)
                requires
                    -w < v < 0,
                    -vm <= v,
                    w >= 1,
            ;
        }
    }
}

/// A dividend bracketed by two multiples has its quotient bracketed by
/// the factors.
pub proof fn lemma_tdiv_between(a: int, b: int, lo: int, hi: int)
    requires
        b >= 1,
        0 <= lo <= hi,
        b * lo <= a <= b * hi,
    ensures
        lo <= tdiv(a, b) <= hi,
{
    assert(a >= 0) by (nonlinear_arith)
        requires
            b >= 1,
            lo >= 0,
            b * lo <= a,
    ;
    assert(b * lo == lo * b && b * hi == hi * b) by (nonlinear_arith);
    lemma_div_is_ordered(lo * b, a, b);
    lemma_div_is_ordered(a, hi * b, b);
    vstd::arithmetic::div_mod::lemma_div_by_multiple(lo, b);
    vstd::arithmetic::div_mod::lemma_div_by_multiple(hi, b);
}

/// A dividend within `b * lim` of zero on either side has its quotient
/// within `lim`.
pub proof fn lemma_tdiv_abs_le(a: int, b: int, lim: int)
    requires
        b >= 1,
        lim >= 0,
        -(b * lim) <= a <= b * lim,
    ensures
        -lim <= tdiv(a, b) <= lim,
{
    if a >= 0 {
        lemma_tdiv_between(a, b, 0, lim);
    } else {
        lemma_tdiv_between(-a, b, 0, lim);
    }
}

/// The integer square root: the largest `r` with `r * r <= n`.
pub open spec fn sqrt_floor(n: int) -> int
    recommends
        n >= 0,
    decreases n,
{
    if n <= 0 {
        0
    } else {
        let r = sqrt_floor(n - 1);
        if (r + 1) * (r + 1) <= n {
            r + 1
        } else {
            r
        }
    }
}

/// The defining bracket of the integer square root.
pub proof fn lemma_sqrt_floor(n: int)
    requires
        n >= 0,
    ensures
        sqrt_floor(n) >= 0,
        sqrt_floor(n) * sqrt_floor(n) <= n,
        n < (sqrt_floor(n) + 1) * (sqrt_floor(n) + 1),
    decreases n,
{
    if n > 0 {
        lemma_sqrt_floor(n - 1);
        let r = sqrt_floor(n - 1);
        if (r + 1) * (r + 1) <= n {
            assert((r + 2) * (r + 2) > (r + 1) * (r + 1)) by (nonlinear_arith)
                requires
                    r >= 0,
            ;
        }
    }
}

/// Any value meeting the bracket is the integer square root.
pub proof fn lemma_sqrt_floor_unique(n: int, r: int)
    requires
        n >= 0,
        r >= 0,
        r * r <= n,
        n < (r + 1) * (r + 1),
    ensures
        r == sqrt_floor(n),
{
    lemma_sqrt_floor(n);
    let s = sqrt_floor(n);
    if r < s {
        assert((r + 1) * (r + 1) <= s * s) by (nonlinear_arith)
            requires
                0 <= r,
                r + 1 <= s,
        ;
    } else if s < r {
        assert((s + 1) * (s + 1) <= r * r) by (nonlinear_arith)
            requires
                0 <= s,
                s + 1 <= r,
        ;
    }
}

/// Computes the integer square root by bisection.
pub fn isqrt(n: i64) -> (r: i64)
    requires
        n >= 0,
    ensures
        r >= 0,
        r * r <= n < (r + 1) * (r + 1),
        r == sqrt_floor(n as int),
{
    let mut lo: i64 = 0;
    let mut hi: i64 = 3037000500;
    proof {
        assert(3037000500int * 3037000500int > i64::MAX);
    }
    while lo + 1 < hi
        invariant
            0 <= lo < hi <= 3037000500,
            lo * lo <= n,
            n < hi * hi,
        decreases hi - lo,
    {
        let mid = lo + (hi - lo) / 2;
        assert(lo < mid < hi);
        assert(mid * mid <= 3037000499i64 * 3037000499i64) by (nonlinear_arith)
            requires
                0 < mid <= 3037000499i64,
        ;
        assert(3037000499int * 3037000499int <= i64::MAX);
        if mid * mid <= n {
            lo = mid;
        } else {
            hi = mid;
        }
    }
    proof {
        lemma_sqrt_floor_unique(n as int, lo as int);
    }
    lo
}

} // verus!
