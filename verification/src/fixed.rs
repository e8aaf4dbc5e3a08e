//! Fixed-point building blocks: the scale, rounded division and integer
//! square root.

use vstd::arithmetic::div_mod::{
    lemma_div_is_ordered, lemma_fundamental_div_mod, lemma_fundamental_div_mod_converse,
};
use vstd::prelude::*;

verus! {

/// Number of fixed-point units in one whole unit.
pub const SCALE: i64 = 1_000_000_000;

/// Largest magnitude that `div_round` accepts for its operands.
pub const DIV_LIMIT: i128 = 0x1000_0000_0000_0000_0000_0000_0000_0000;

/// Absolute value of an integer.
pub open spec fn magnitude(a: int) -> int {
    if a < 0 {
        -a
    } else {
        a
    }
}

/// `a / b` rounded to the nearest integer, halves rounded away from zero.
pub open spec fn round_div(a: int, b: int) -> int
    recommends
        b > 0,
{
    if a >= 0 {
        (2 * a + b) / (2 * b)
    } else {
        -((2 * (-a) + b) / (2 * b))
    }
}

/// The smallest integer `n` with `n * b >= a`.
pub open spec fn ceil_div(a: int, b: int) -> int
    recommends
        b > 0,
{
    -((-a) / b)
}

/// `ceil_div(a, b)` is the smallest integer whose product with `b` reaches `a`.
pub proof fn lemma_ceil_div(a: int, b: int)
    requires
        b > 0,
    ensures
        (ceil_div(a, b) - 1) * b < a <= ceil_div(a, b) * b,
{
    lemma_fundamental_div_mod(-a, b);
    let q = (-a) / b;
    assert((-q - 1) * b < a <= (-q) * b) by (nonlinear_arith)
        requires
            -a == b * q + (-a) % b,
            0 <= (-a) % b < b,
    ;
}

/// `round_div(a, b)` times `b` is within half of `b` of `a`.
pub proof fn lemma_round_div(a: int, b: int)
    requires
        b > 0,
    ensures
        -b <= 2 * (round_div(a, b) * b - a) <= b,
{
    if a >= 0 {
        lemma_fundamental_div_mod(2 * a + b, 2 * b);
        let q = (2 * a + b) / (2 * b);
        assert(-b <= 2 * (q * b - a) <= b) by (nonlinear_arith)
            requires
                2 * a + b == (2 * b) * q + (2 * a + b) % (2 * b),
                0 <= (2 * a + b) % (2 * b) < 2 * b,
        ;
    } else {
        lemma_fundamental_div_mod(2 * (-a) + b, 2 * b);
        let q = (2 * (-a) + b) / (2 * b);
        assert(-b <= 2 * ((-q) * b - a) <= b) by (nonlinear_arith)
            requires
                2 * (-a) + b == (2 * b) * q + (2 * (-a) + b) % (2 * b),
                0 <= (2 * (-a) + b) % (2 * b) < 2 * b,
        ;
    }
}

/// Where `a` is at most `m * b` in magnitude, `round_div(a, b)` is at most `m`.
pub proof fn lemma_round_div_bound(a: int, b: int, m: int)
    requires
        b > 0,
        m >= 0,
        -(m * b) <= a <= m * b,
    ensures
        -m <= round_div(a, b) <= m,
        a >= 0 ==> round_div(a, b) >= 0,
        a <= 0 ==> round_div(a, b) <= 0,
{
    lemma_round_div(a, b);
    let q = round_div(a, b);
    assert(-m <= q <= m) by (nonlinear_arith)
        requires
            b > 0,
            m >= 0,
            -(m * b) <= a <= m * b,
            -b <= 2 * (q * b - a) <= b,
    ;
    assert(a >= 0 ==> q >= 0) by (nonlinear_arith)
        requires
            b > 0,
            -b <= 2 * (q * b - a) <= b,
    ;
    assert(a <= 0 ==> q <= 0) by (nonlinear_arith)
        requires
            b > 0,
            -b <= 2 * (q * b - a) <= b,
    ;
}

/// Rounded division keeps the order of its dividends.
pub proof fn lemma_round_div_monotonic(a1: int, a2: int, b: int)
    requires
        b > 0,
        a1 <= a2,
    ensures
        round_div(a1, b) <= round_div(a2, b),
{
    if a1 >= 0 {
        lemma_div_is_ordered(2 * a1 + b, 2 * a2 + b, 2 * b);
    } else if a2 < 0 {
        lemma_div_is_ordered(2 * (-a2) + b, 2 * (-a1) + b, 2 * b);
    } else {
        lemma_div_is_ordered(0, 2 * a2 + b, 2 * b);
        lemma_div_is_ordered(0, 2 * (-a1) + b, 2 * b);
    }
}

/// A product is bounded by the product of the bounds of its factors.
pub proof fn lemma_mul_bound(a: int, b: int, ma: int, mb: int)
    by (nonlinear_arith)
    requires
        -ma <= a <= ma,
        -mb <= b <= mb,
    ensures
        -(ma * mb) <= a * b <= ma * mb,
{
}

/// Product of two machine integers, in a type that holds it.
pub fn mul_wide(a: i64, b: i64) -> (p: i128)
    ensures
        p == a * b,
{
    proof {
        lemma_mul_bound(a as int, b as int, 0x8000_0000_0000_0000, 0x8000_0000_0000_0000);
    }
    a as i128 * b as i128
}

/// Rounded division on machine integers.
pub fn div_round(a: i128, b: i128) -> (q: i128)
    requires
        0 < b <= DIV_LIMIT,
        -DIV_LIMIT <= a <= DIV_LIMIT,
    ensures
        q == round_div(a as int, b as int),
{
    if a >= 0 {
        (2 * a + b) / (2 * b)
    } else {
        -((2 * (-a) + b) / (2 * b))
    }
}

/// Quotient and remainder of a negative dividend `a`, from those of
/// `-(a + 1)`, which is not negative.
pub proof fn lemma_div_mod_of_negative(a: int, m: int)
    requires
        m > 0,
        a < 0,
    ensures
        a / m == -1 - (-(a + 1)) / m,
        a % m == m - 1 - (-(a + 1)) % m,
{
    let b = -(a + 1);
    lemma_fundamental_div_mod(b, m);
    assert(a == (-1 - b / m) * m + (m - 1 - b % m)) by (nonlinear_arith)
        requires
            b == m * (b / m) + b % m,
            a == -(b + 1),
    ;
    lemma_fundamental_div_mod_converse(a, m, -1 - b / m, m - 1 - b % m);
}

/// Floor division on machine integers: the quotient of Euclidean division by
/// a positive divisor.
pub fn div_floor(a: i128, m: i128) -> (q: i128)
    requires
        m > 0,
        a > i128::MIN,
    ensures
        q == a as int / m as int,
{
    if a >= 0 {
        a / m
    } else {
        let b = -(a + 1);
        proof {
            lemma_div_mod_of_negative(a as int, m as int);
        }
        -1 - b / m
    }
}

/// Remainder of Euclidean division by a positive divisor.
pub fn rem_floor(a: i128, m: i128) -> (r: i128)
    requires
        m > 0,
        a > i128::MIN,
    ensures
        r == a as int % m as int,
        0 <= r < m,
{
    if a >= 0 {
        a % m
    } else {
        let b = -(a + 1);
        proof {
            lemma_div_mod_of_negative(a as int, m as int);
        }
        m - 1 - b % m
    }
}

/// `r` is the integer square root of `n`: the largest integer whose square
/// does not exceed `n`.
pub open spec fn is_sqrt_floor(n: int, r: int) -> bool {
    0 <= r && r * r <= n < (r + 1) * (r + 1)
}

/// The integer square root of `n` (for `n >= 0`).
pub open spec fn sqrt_floor(n: int) -> int {
    choose|r: int| is_sqrt_floor(n, r)
}

/// At most one integer is the integer square root of `n`.
pub proof fn lemma_sqrt_floor_unique(n: int, r1: int, r2: int)
    requires
        is_sqrt_floor(n, r1),
        is_sqrt_floor(n, r2),
    ensures
        r1 == r2,
{
    if r1 < r2 {
        assert((r1 + 1) * (r1 + 1) <= r2 * r2) by (nonlinear_arith)
            requires
                0 <= r1 + 1 <= r2,
        ;
    } else if r2 < r1 {
        assert((r2 + 1) * (r2 + 1) <= r1 * r1) by (nonlinear_arith)
            requires
                0 <= r2 + 1 <= r1,
        ;
    }
}

/// Every integer that is not negative has an integer square root, and
/// `sqrt_floor` is it.
pub proof fn lemma_sqrt_floor_exists(n: int)
    requires
        0 <= n,
    ensures
        is_sqrt_floor(n, sqrt_floor(n)),
    decreases n,
{
    if n == 0 {
        assert(is_sqrt_floor(0, 0));
    } else {
        lemma_sqrt_floor_exists(n - 1);
        let r = sqrt_floor(n - 1);
        if (r + 1) * (r + 1) <= n {
            assert(is_sqrt_floor(n, r + 1)) by (nonlinear_arith)
                requires
                    0 <= r,
                    n - 1 < (r + 1) * (r + 1) <= n,
            ;
        } else {
            assert(is_sqrt_floor(n, r));
        }
    }
}

/// Integer square root by bisection.
pub fn isqrt(n: u128) -> (r: u64)
    ensures
        is_sqrt_floor(n as int, r as int),
        r == sqrt_floor(n as int),
{
    let mut lo: u128 = 0;
    let mut hi: u128 = 0x1_0000_0000_0000_0000;
    assert(0x1_0000_0000_0000_0000 * 0x1_0000_0000_0000_0000 > n) by (nonlinear_arith)
        requires
            n <= u128::MAX,
    ;
    while hi - lo > 1
        invariant
            lo < hi <= 0x1_0000_0000_0000_0000,
            lo * lo <= n < hi * hi,
        decreases hi - lo,
    {
        let mid: u128 = lo + (hi - lo) / 2;
        assert(mid * mid <= 0xffff_ffff_ffff_ffff * 0xffff_ffff_ffff_ffff) by (nonlinear_arith)
            requires
                0 <= mid <= 0xffff_ffff_ffff_ffff,
        ;
        if mid * mid <= n {
            lo = mid;
        } else {
            hi = mid;
        }
    }
    proof {
        lemma_sqrt_floor_unique(n as int, lo as int, sqrt_floor(n as int));
    }
    lo as u64
}

} // verus!
