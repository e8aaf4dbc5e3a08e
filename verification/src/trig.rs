//! Trigonometry on fixed-point degrees.
//!
//! Angles are billionths of a degree; sines and cosines are billionths of one.
//! Internally the series run on radians scaled by `UNIT`.

use vstd::arithmetic::div_mod::{
    lemma_div_by_multiple, lemma_div_is_ordered, lemma_div_is_ordered_by_denominator,
};
use vstd::prelude::*;
use crate::fixed::{
    div_round, is_sqrt_floor, isqrt, lemma_round_div_bound, lemma_sqrt_floor_exists, rem_floor,
    round_div, sqrt_floor, SCALE,
};

verus! {

/// One full turn, 360 degrees.
pub const FULL_TURN: i64 = 360_000_000_000;

/// Half a turn, 180 degrees.
pub const HALF_TURN: i64 = 180_000_000_000;

/// A quarter turn, 90 degrees.
pub const QUARTER_TURN: i64 = 90_000_000_000;

/// Scale of the radians and ratios that the series work on.
pub const UNIT: i128 = 1_000_000_000_000_000_000;

/// Radians in one degree, scaled by `UNIT`.
pub const DEG_TO_RAD: i128 = 17_453_292_519_943_296;

/// A quarter turn in radians, scaled by `UNIT`: the radians of 90 degrees.
pub const QUARTER_RAD: i128 = 1_570_796_326_794_896_640;

/// Square of a quarter turn in radians, scaled by `UNIT` and rounded up.
pub const QUARTER_SQ: i128 = 2_467_401_100_272_339_720;

/// An eighth of a turn, 45 degrees.
pub const EIGHTH_TURN: i64 = 45_000_000_000;

/// An eighth of a turn in radians, scaled by `UNIT`.
pub const EIGHTH_RAD: i128 = 785_398_163_397_448_310;

/// Tangent of a sixteenth of a turn, scaled by `UNIT`.
pub const TAN_SIXTEENTH: i128 = 414_213_562_373_095_049;

/// Degrees in one radian, scaled by a tenth of `UNIT`.
pub const RAD_TO_DEG: i128 = 5_729_577_951_308_232_088;

/// Divisor that takes `RAD_TO_DEG` times radians scaled by `UNIT` to
/// billionths of a degree.
pub const RAD_TO_DEG_DIV: i128 = 100_000_000_000_000_000_000_000_000;

/// Index of the last term of the arctangent series.
pub const ATAN_LAST: i128 = 22;

/// Largest magnitude of a component that `atan2_deg` works on.
pub const COMPONENT_LIMIT: i128 = 0x8000_0000_0000_0000;

/// Radians scaled by `UNIT` of a first-quadrant angle in fixed-point degrees.
pub open spec fn spec_radians(t: int) -> int {
    t * DEG_TO_RAD / (SCALE as int)
}

/// One Horner step of the sine series: `1 - y * acc / d`.
pub open spec fn spec_sin_step(y: int, acc: int, d: int) -> int {
    UNIT - (y * acc / (UNIT as int)) / d
}

/// The alternating series `sin(x) / x` in `y = x * x`, through the term in `x^16`.
pub open spec fn spec_sin_series(y: int) -> int {
    let a8 = spec_sin_step(y, UNIT as int, 272);
    let a7 = spec_sin_step(y, a8, 210);
    let a6 = spec_sin_step(y, a7, 156);
    let a5 = spec_sin_step(y, a6, 110);
    let a4 = spec_sin_step(y, a5, 72);
    let a3 = spec_sin_step(y, a4, 42);
    let a2 = spec_sin_step(y, a3, 20);
    spec_sin_step(y, a2, 6)
}

/// Sine of an angle `t` between 0 and 90 degrees.
pub open spec fn spec_sin_quadrant(t: int) -> int {
    let x = spec_radians(t);
    let y = x * x / (UNIT as int);
    let s = round_div(x * spec_sin_series(y) / (UNIT as int), SCALE as int);
    if s > SCALE {
        SCALE as int
    } else {
        s
    }
}

/// Sine of any angle: the angle is reduced to one turn and folded into the
/// first quadrant.
pub open spec fn spec_sin(a: int) -> int {
    let r = a % (FULL_TURN as int);
    if r <= QUARTER_TURN {
        spec_sin_quadrant(r)
    } else if r <= HALF_TURN {
        spec_sin_quadrant(HALF_TURN - r)
    } else if r <= HALF_TURN + QUARTER_TURN {
        -spec_sin_quadrant(r - HALF_TURN)
    } else {
        -spec_sin_quadrant(FULL_TURN - r)
    }
}

/// Cosine of any angle, as the sine of the angle a quarter turn ahead.
pub open spec fn spec_cos(a: int) -> int {
    spec_sin(a % (FULL_TURN as int) + QUARTER_TURN)
}

/// Tail of the series `atan(u) / u = 1 - v/3 + v^2/5 - ...` in `v = u * u`,
/// from the term of index `k` on, in Horner form.
pub open spec fn spec_atan_tail(v: int, k: int) -> int
    decreases ATAN_LAST + 1 - k,
{
    if k < 0 || k > ATAN_LAST {
        0
    } else {
        (UNIT as int) / (2 * k + 1) - v * spec_atan_tail(v, k + 1) / (UNIT as int)
    }
}

/// Arctangent in radians of a ratio `u` between 0 and 1, by its series.
pub open spec fn spec_atan_series(u: int) -> int {
    u * spec_atan_tail(u * u / (UNIT as int), 0) / (UNIT as int)
}

/// Arctangent in radians of a ratio `t` between 0 and 1. Above the tangent of
/// a sixteenth of a turn the identity `atan(t) = pi/4 - atan((1 - t) / (1 + t))`
/// brings the argument of the series below it.
pub open spec fn spec_atan_unit(t: int) -> int {
    if t > TAN_SIXTEENTH {
        EIGHTH_RAD - spec_atan_series((UNIT - t) * UNIT / (UNIT + t))
    } else {
        spec_atan_series(t)
    }
}

/// Billionths of a degree in an angle of `rad` radians scaled by `UNIT`.
pub open spec fn spec_degrees(rad: int) -> int {
    round_div(rad * RAD_TO_DEG, RAD_TO_DEG_DIV as int)
}

/// Angle between 0 and 90 degrees of the direction `(ax, ay)` with
/// non-negative components.
pub open spec fn spec_atan_first(ay: int, ax: int) -> int {
    if ay <= ax {
        spec_degrees(spec_atan_unit(ay * UNIT / ax))
    } else {
        QUARTER_TURN - spec_degrees(spec_atan_unit(ax * UNIT / ay))
    }
}

/// Angle of the direction `(x, y)`, between -180 and 180 degrees; 0 for the
/// null direction.
pub open spec fn spec_atan2(y: int, x: int) -> int {
    if x == 0 && y == 0 {
        0
    } else {
        let first = spec_atan_first(if y < 0 { -y } else { y }, if x < 0 { -x } else { x });
        if x >= 0 {
            if y >= 0 {
                first
            } else {
                -first
            }
        } else {
            if y >= 0 {
                HALF_TURN - first
            } else {
                first - HALF_TURN
            }
        }
    }
}

/// `sqrt(1 - x * x)` scaled by `UNIT`, for `x` in billionths between -1 and 1.
pub open spec fn spec_cofactor(x: int) -> int {
    sqrt_floor((UNIT - x * x) * UNIT)
}

/// Arcsine of `x` in billionths, for `x` between -1 and 1.
pub open spec fn spec_asin(x: int) -> int {
    spec_atan2(x * SCALE, spec_cofactor(x))
}

/// Arccosine of `x` in billionths, for `x` between -1 and 1.
pub open spec fn spec_acos(x: int) -> int {
    spec_atan2(spec_cofactor(x), x * SCALE)
}

/// A first-quadrant angle in radians lies between 0 and a quarter turn, and
/// its square within `QUARTER_SQ`.
pub proof fn lemma_radians_bound(t: int)
    requires
        0 <= t <= QUARTER_TURN,
    ensures
        0 <= spec_radians(t) <= QUARTER_RAD,
        0 <= spec_radians(t) * spec_radians(t) <= QUARTER_RAD * QUARTER_RAD,
        0 <= spec_radians(t) * spec_radians(t) / (UNIT as int) <= QUARTER_SQ,
{
    assert(0 <= t * DEG_TO_RAD <= 90_000_000_000 * 17_453_292_519_943_296) by (nonlinear_arith)
        requires
            0 <= t <= 90_000_000_000,
            DEG_TO_RAD == 17_453_292_519_943_296,
    ;
    let x = spec_radians(t);
    assert(0 <= x * x <= 1_570_796_326_794_896_640 * 1_570_796_326_794_896_640)
        by (nonlinear_arith)
        requires
            0 <= x <= 1_570_796_326_794_896_640,
    ;
}

/// A Horner step of the sine series stays between 0 and 1.
pub proof fn lemma_sin_step_bound(y: int, acc: int, d: int)
    requires
        0 <= y <= QUARTER_SQ,
        0 <= acc <= UNIT,
        6 <= d,
    ensures
        0 <= y * acc <= QUARTER_SQ * UNIT,
        0 <= y * acc / (UNIT as int) / d <= UNIT,
        0 <= spec_sin_step(y, acc, d) <= UNIT,
{
    assert(0 <= y * acc <= y * UNIT <= QUARTER_SQ * UNIT) by (nonlinear_arith)
        requires
            0 <= y <= QUARTER_SQ,
            0 <= acc <= UNIT,
    ;
    let p = y * acc / (UNIT as int);
    assert(0 <= p <= y);
    lemma_div_is_ordered_by_denominator(p, 6, d);
}

/// The sine series stays between 0 and 1 over the first quadrant.
pub proof fn lemma_sin_series_bound(y: int)
    requires
        0 <= y <= QUARTER_SQ,
    ensures
        0 <= spec_sin_series(y) <= UNIT,
{
    let a8 = spec_sin_step(y, UNIT as int, 272);
    lemma_sin_step_bound(y, UNIT as int, 272);
    let a7 = spec_sin_step(y, a8, 210);
    lemma_sin_step_bound(y, a8, 210);
    let a6 = spec_sin_step(y, a7, 156);
    lemma_sin_step_bound(y, a7, 156);
    let a5 = spec_sin_step(y, a6, 110);
    lemma_sin_step_bound(y, a6, 110);
    let a4 = spec_sin_step(y, a5, 72);
    lemma_sin_step_bound(y, a5, 72);
    let a3 = spec_sin_step(y, a4, 42);
    lemma_sin_step_bound(y, a4, 42);
    let a2 = spec_sin_step(y, a3, 20);
    lemma_sin_step_bound(y, a3, 20);
    lemma_sin_step_bound(y, a2, 6);
}

/// The sine of a first-quadrant angle lies between 0 and 1.
pub proof fn lemma_sin_quadrant_range(t: int)
    requires
        0 <= t <= QUARTER_TURN,
    ensures
        0 <= spec_sin_quadrant(t) <= SCALE,
        0 <= spec_radians(t) * spec_sin_series(
            spec_radians(t) * spec_radians(t) / (UNIT as int),
        ) <= QUARTER_RAD * UNIT,
{
    lemma_radians_bound(t);
    let x = spec_radians(t);
    let series = spec_sin_series(x * x / (UNIT as int));
    lemma_sin_series_bound(x * x / (UNIT as int));
    assert(0 <= x * series <= x * UNIT <= QUARTER_RAD * UNIT) by (nonlinear_arith)
        requires
            0 <= x <= QUARTER_RAD,
            0 <= series <= UNIT,
    ;
    lemma_round_div_bound(x * series / (UNIT as int), SCALE as int, 1_570_796_327);
}

/// Every sine lies between -1 and 1.
pub proof fn lemma_sin_range(a: int)
    ensures
        -SCALE <= spec_sin(a) <= SCALE,
{
    let r = a % (FULL_TURN as int);
    if r <= QUARTER_TURN {
        lemma_sin_quadrant_range(r);
    } else if r <= HALF_TURN {
        lemma_sin_quadrant_range(HALF_TURN - r);
    } else if r <= HALF_TURN + QUARTER_TURN {
        lemma_sin_quadrant_range(r - HALF_TURN);
    } else {
        lemma_sin_quadrant_range(FULL_TURN - r);
    }
}

/// Every tail of the arctangent series lies between 0 and its leading term.
pub proof fn lemma_atan_tail_bound(v: int, k: int)
    requires
        0 <= v <= UNIT,
        0 <= k <= ATAN_LAST + 1,
    ensures
        0 <= spec_atan_tail(v, k) <= (UNIT as int) / (2 * k + 1) <= UNIT,
    decreases ATAN_LAST + 1 - k,
{
    lemma_div_is_ordered_by_denominator(UNIT as int, 1, 2 * k + 1);
    assert(0 <= (UNIT as int) / (2 * k + 1)) by (nonlinear_arith)
        requires
            0 <= k,
    ;
    if k <= ATAN_LAST {
        lemma_atan_tail_bound(v, k + 1);
        let t = spec_atan_tail(v, k + 1);
        assert(0 <= v * t <= UNIT * t) by (nonlinear_arith)
            requires
                0 <= v <= UNIT,
                0 <= t,
        ;
        assert(v * t / (UNIT as int) <= t);
        lemma_div_is_ordered_by_denominator(UNIT as int, 2 * k + 1, 2 * k + 3);
    }
}


/// The arctangent series of a ratio between 0 and 1 lies between 0 and the
/// ratio.
pub proof fn lemma_atan_series_bound(u: int)
    requires
        0 <= u <= UNIT,
    ensures
        0 <= u * u <= UNIT * UNIT,
        0 <= u * u / (UNIT as int) <= UNIT,
        0 <= u * spec_atan_tail(u * u / (UNIT as int), 0) <= u * UNIT,
        0 <= spec_atan_series(u) <= u,
{
    assert(0 <= u * u <= UNIT * UNIT) by (nonlinear_arith)
        requires
            0 <= u <= UNIT,
    ;
    let v = u * u / (UNIT as int);
    lemma_atan_tail_bound(v, 0);
    let tail = spec_atan_tail(v, 0);
    assert(0 <= u * tail <= u * UNIT) by (nonlinear_arith)
        requires
            0 <= u,
            0 <= tail <= UNIT,
    ;
}

/// Above the tangent of a sixteenth of a turn, `(1 - t) / (1 + t)` is at most
/// a half.
pub proof fn lemma_atan_reduced_bound(t: int)
    requires
        TAN_SIXTEENTH < t <= UNIT,
    ensures
        0 <= (UNIT - t) * UNIT <= UNIT * UNIT,
        0 <= (UNIT - t) * UNIT / (UNIT + t) <= 500_000_000_000_000_000,
{
    let a = (UNIT - t) * UNIT;
    let b = UNIT + t;
    assert(0 <= a <= 500_000_000_000_000_000 * b && a <= UNIT * UNIT) by (nonlinear_arith)
        requires
            a == (UNIT - t) * UNIT,
            b == UNIT + t,
            UNIT == 1_000_000_000_000_000_000,
            414_213_562_373_095_049 < t <= UNIT,
    ;
    lemma_div_is_ordered(a, 500_000_000_000_000_000 * b, b);
    lemma_div_by_multiple(500_000_000_000_000_000, b);
    lemma_div_is_ordered(0, a, b);
}

/// The arctangent of a ratio between 0 and 1 lies between 0 and an eighth of
/// a turn.
pub proof fn lemma_atan_unit_bound(t: int)
    requires
        0 <= t <= UNIT,
    ensures
        0 <= spec_atan_unit(t) <= EIGHTH_RAD,
{
    if t > TAN_SIXTEENTH {
        lemma_atan_reduced_bound(t);
        lemma_atan_series_bound((UNIT - t) * UNIT / (UNIT + t));
    } else {
        lemma_atan_series_bound(t);
    }
}

/// An angle of at most an eighth of a turn in radians is at most 45 degrees.
pub proof fn lemma_degrees_bound(rad: int)
    requires
        0 <= rad <= EIGHTH_RAD,
    ensures
        0 <= rad * RAD_TO_DEG <= 4_500_000_000_000_000_002_453_573_476_463_371_280,
        0 <= spec_degrees(rad) <= EIGHTH_TURN,
{
    assert(0 <= rad * RAD_TO_DEG <= 4_500_000_000_000_000_002_453_573_476_463_371_280)
        by (nonlinear_arith)
        requires
            0 <= rad <= 785_398_163_397_448_310,
            RAD_TO_DEG == 5_729_577_951_308_232_088,
    ;
    let p = rad * RAD_TO_DEG;
    assert(0 <= (2 * p + RAD_TO_DEG_DIV) / (2 * RAD_TO_DEG_DIV) <= 45_000_000_000)
        by (nonlinear_arith)
        requires
            0 <= p <= 4_500_000_000_000_000_002_453_573_476_463_371_280,
            RAD_TO_DEG_DIV == 100_000_000_000_000_000_000_000_000,
    ;
}

/// A ratio of a smaller to a larger quantity lies between 0 and 1, and its
/// angle between 0 and 45 degrees.
pub proof fn lemma_atan_ratio_bound(num: int, den: int)
    requires
        0 <= num <= den,
        0 < den,
    ensures
        0 <= num * UNIT / den <= UNIT,
        0 <= spec_degrees(spec_atan_unit(num * UNIT / den)) <= EIGHTH_TURN,
{
    assert(0 <= num * UNIT <= den * UNIT) by (nonlinear_arith)
        requires
            0 <= num <= den,
            UNIT > 0,
    ;
    lemma_div_is_ordered(num * UNIT, UNIT * den, den);
    lemma_div_by_multiple(UNIT as int, den);
    lemma_div_is_ordered(0, num * UNIT, den);
    lemma_atan_unit_bound(num * UNIT / den);
    lemma_degrees_bound(spec_atan_unit(num * UNIT / den));
}

/// The angle of a direction in the first quadrant lies between 0 and 90
/// degrees.
pub proof fn lemma_atan_first_range(ay: int, ax: int)
    requires
        0 <= ay,
        0 <= ax,
        0 < ay + ax,
    ensures
        0 <= spec_atan_first(ay, ax) <= QUARTER_TURN,
{
    if ay <= ax {
        lemma_atan_ratio_bound(ay, ax);
    } else {
        lemma_atan_ratio_bound(ax, ay);
    }
}

/// The angle of a direction lies between -180 and 180 degrees, within 90
/// degrees of zero where `x` is not negative, and is not negative where `y`
/// is not.
pub proof fn lemma_atan2_range(y: int, x: int)
    ensures
        -HALF_TURN <= spec_atan2(y, x) <= HALF_TURN,
        x >= 0 ==> -QUARTER_TURN <= spec_atan2(y, x) <= QUARTER_TURN,
        y >= 0 ==> 0 <= spec_atan2(y, x),
{
    if x != 0 || y != 0 {
        lemma_atan_first_range(if y < 0 { -y } else { y }, if x < 0 { -x } else { x });
    }
}

/// For `x` between -1 and 1, `sqrt(1 - x * x)` is an integer square root
/// between 0 and 1.
pub proof fn lemma_cofactor_bound(x: int)
    requires
        -SCALE <= x <= SCALE,
    ensures
        0 <= (UNIT - x * x) * UNIT <= UNIT * UNIT,
        is_sqrt_floor((UNIT - x * x) * UNIT, spec_cofactor(x)),
        0 <= spec_cofactor(x) <= UNIT,
{
    assert(0 <= x * x <= UNIT) by (nonlinear_arith)
        requires
            -1_000_000_000 <= x <= 1_000_000_000,
            UNIT == 1_000_000_000_000_000_000,
    ;
    let n = (UNIT - x * x) * UNIT;
    assert(0 <= n <= UNIT * UNIT) by (nonlinear_arith)
        requires
            n == (UNIT - x * x) * UNIT,
            0 <= x * x <= UNIT,
            UNIT == 1_000_000_000_000_000_000,
    ;
    lemma_sqrt_floor_exists(n);
    let c = spec_cofactor(x);
    assert(c <= UNIT) by (nonlinear_arith)
        requires
            0 <= c,
            c * c <= n,
            n <= UNIT * UNIT,
            UNIT == 1_000_000_000_000_000_000,
    ;
}

/// The arccosine lies between 0 and 180 degrees.
pub proof fn lemma_acos_range(x: int)
    requires
        -SCALE <= x <= SCALE,
    ensures
        0 <= spec_acos(x) <= HALF_TURN,
{
    lemma_cofactor_bound(x);
    lemma_atan2_range(spec_cofactor(x), x * SCALE);
}

fn sin_step(y: i128, acc: i128, d: i128) -> (r: i128)
    requires
        0 <= y <= QUARTER_SQ,
        0 <= acc <= UNIT,
        6 <= d <= 272,
    ensures
        r == spec_sin_step(y as int, acc as int, d as int),
        0 <= r <= UNIT,
{
    proof {
        lemma_sin_step_bound(y as int, acc as int, d as int);
    }
    UNIT - y * acc / UNIT / d
}

fn sin_series(y: i128) -> (r: i128)
    requires
        0 <= y <= QUARTER_SQ,
    ensures
        r == spec_sin_series(y as int),
        0 <= r <= UNIT,
{
    let a8 = sin_step(y, UNIT, 272);
    let a7 = sin_step(y, a8, 210);
    let a6 = sin_step(y, a7, 156);
    let a5 = sin_step(y, a6, 110);
    let a4 = sin_step(y, a5, 72);
    let a3 = sin_step(y, a4, 42);
    let a2 = sin_step(y, a3, 20);
    sin_step(y, a2, 6)
}

fn sin_quadrant(t: i64) -> (r: i64)
    requires
        0 <= t <= QUARTER_TURN,
    ensures
        r == spec_sin_quadrant(t as int),
        0 <= r <= SCALE,
{
    proof {
        lemma_radians_bound(t as int);
        lemma_sin_quadrant_range(t as int);
    }
    let x: i128 = (t as i128) * DEG_TO_RAD / (SCALE as i128);
    let y: i128 = x * x / UNIT;
    let series = sin_series(y);
    let s = div_round(x * series / UNIT, SCALE as i128);
    if s > SCALE as i128 {
        SCALE
    } else {
        s as i64
    }
}

/// Sine of an angle given in billionths of a degree, in billionths.
pub fn sin_deg(a: i64) -> (r: i64)
    ensures
        r == spec_sin(a as int),
        -SCALE <= r <= SCALE,
{
    let r = rem_floor(a as i128, FULL_TURN as i128) as i64;
    sin_reduced(r)
}

fn sin_reduced(r: i64) -> (s: i64)
    requires
        0 <= r < FULL_TURN + QUARTER_TURN,
    ensures
        s == spec_sin(r as int),
        -SCALE <= s <= SCALE,
{
    let r = if r >= FULL_TURN { r - FULL_TURN } else { r };
    if r <= QUARTER_TURN {
        sin_quadrant(r)
    } else if r <= HALF_TURN {
        sin_quadrant(HALF_TURN - r)
    } else if r <= HALF_TURN + QUARTER_TURN {
        -sin_quadrant(r - HALF_TURN)
    } else {
        -sin_quadrant(FULL_TURN - r)
    }
}

/// Cosine of an angle given in billionths of a degree, in billionths.
pub fn cos_deg(a: i64) -> (r: i64)
    ensures
        r == spec_cos(a as int),
        -SCALE <= r <= SCALE,
{
    let r = rem_floor(a as i128, FULL_TURN as i128) as i64;
    sin_reduced(r + QUARTER_TURN)
}


fn atan_series(u: i128) -> (r: i128)
    requires
        0 <= u <= UNIT,
    ensures
        r == spec_atan_series(u as int),
        0 <= r <= u,
{
    proof {
        lemma_atan_series_bound(u as int);
    }
    let v: i128 = u * u / UNIT;
    let mut acc: i128 = 0;
    let mut k: i128 = ATAN_LAST;
    while k >= 0
        invariant
            -1 <= k <= ATAN_LAST,
            0 <= v <= UNIT,
            acc == spec_atan_tail(v as int, k + 1),
            0 <= acc <= UNIT,
        decreases k + 1,
    {
        proof {
            lemma_atan_tail_bound(v as int, k as int);
            lemma_atan_tail_bound(v as int, k + 1);
        }
        assert(0 <= v * acc <= UNIT * UNIT) by (nonlinear_arith)
            requires
                0 <= v <= UNIT,
                0 <= acc <= UNIT,
        ;
        acc = UNIT / (2 * k + 1) - v * acc / UNIT;
        k = k - 1;
    }
    u * acc / UNIT
}

fn atan_unit(t: i128) -> (r: i128)
    requires
        0 <= t <= UNIT,
    ensures
        r == spec_atan_unit(t as int),
        0 <= r <= EIGHTH_RAD,
{
    proof {
        lemma_atan_unit_bound(t as int);
    }
    if t > TAN_SIXTEENTH {
        proof {
            lemma_atan_reduced_bound(t as int);
        }
        EIGHTH_RAD - atan_series((UNIT - t) * UNIT / (UNIT + t))
    } else {
        atan_series(t)
    }
}

fn to_degrees(rad: i128) -> (r: i64)
    requires
        0 <= rad <= EIGHTH_RAD,
    ensures
        r == spec_degrees(rad as int),
        0 <= r <= EIGHTH_TURN,
{
    proof {
        lemma_degrees_bound(rad as int);
    }
    div_round(rad * RAD_TO_DEG, RAD_TO_DEG_DIV) as i64
}

fn atan_ratio(num: i128, den: i128) -> (r: i64)
    requires
        0 <= num <= den <= COMPONENT_LIMIT,
        0 < den,
    ensures
        r == spec_degrees(spec_atan_unit(num * UNIT / (den as int))),
        0 <= r <= EIGHTH_TURN,
{
    proof {
        lemma_atan_ratio_bound(num as int, den as int);
        assert(0 <= num * UNIT <= COMPONENT_LIMIT * UNIT) by (nonlinear_arith)
            requires
                0 <= num <= COMPONENT_LIMIT,
                UNIT > 0,
        ;
    }
    to_degrees(atan_unit(num * UNIT / den))
}

fn atan_first(ay: i128, ax: i128) -> (r: i64)
    requires
        0 <= ay <= COMPONENT_LIMIT,
        0 <= ax <= COMPONENT_LIMIT,
        0 < ay + ax,
    ensures
        r == spec_atan_first(ay as int, ax as int),
        0 <= r <= QUARTER_TURN,
{
    if ay <= ax {
        atan_ratio(ay, ax)
    } else {
        QUARTER_TURN - atan_ratio(ax, ay)
    }
}

/// Angle of the direction `(x, y)` in billionths of a degree: the arctangent
/// of `y / x` in the quadrant of the point, 0 for the null direction.
pub fn atan2_deg(y: i64, x: i64) -> (r: i64)
    ensures
        r == spec_atan2(y as int, x as int),
        -HALF_TURN <= r <= HALF_TURN,
        x >= 0 ==> -QUARTER_TURN <= r <= QUARTER_TURN,
        y >= 0 ==> 0 <= r,
{
    if x == 0 && y == 0 {
        return 0;
    }
    let ay: i128 = if y < 0 { -(y as i128) } else { y as i128 };
    let ax: i128 = if x < 0 { -(x as i128) } else { x as i128 };
    let first = atan_first(ay, ax);
    if x >= 0 {
        if y >= 0 {
            first
        } else {
            -first
        }
    } else {
        if y >= 0 {
            HALF_TURN - first
        } else {
            first - HALF_TURN
        }
    }
}

fn cofactor(x: i64) -> (c: i64)
    requires
        -SCALE <= x <= SCALE,
    ensures
        c == spec_cofactor(x as int),
        0 <= c <= UNIT,
{
    proof {
        lemma_cofactor_bound(x as int);
    }
    let x: i128 = x as i128;
    isqrt(((UNIT - x * x) * UNIT) as u128) as i64
}

/// Arcsine of a value between -1 and 1, between -90 and 90 degrees.
pub(crate) fn asin_of_unit(x: i64) -> (a: i64)
    requires
        -SCALE <= x <= SCALE,
    ensures
        a == spec_asin(x as int),
        -QUARTER_TURN <= a <= QUARTER_TURN,
{
    let c = cofactor(x);
    atan2_deg(x * SCALE, c)
}

/// Arccosine of a value between -1 and 1, between 0 and 180 degrees.
pub(crate) fn acos_of_unit(x: i64) -> (a: i64)
    requires
        -SCALE <= x <= SCALE,
    ensures
        a == spec_acos(x as int),
        0 <= a <= HALF_TURN,
{
    let c = cofactor(x);
    atan2_deg(c, x * SCALE)
}

/// Arcsine in billionths of a degree of `x` in billionths; `None` where `x`
/// lies outside -1 to 1.
pub fn asin_deg(x: i64) -> (r: Option<i64>)
    ensures
        r is Some <==> -SCALE <= x <= SCALE,
        r matches Some(a) ==> a == spec_asin(x as int) && -QUARTER_TURN <= a <= QUARTER_TURN,
{
    if x < -SCALE || x > SCALE {
        None
    } else {
        Some(asin_of_unit(x))
    }
}

/// Arccosine in billionths of a degree of `x` in billionths; `None` where `x`
/// lies outside -1 to 1.
pub fn acos_deg(x: i64) -> (r: Option<i64>)
    ensures
        r is Some <==> -SCALE <= x <= SCALE,
        r matches Some(a) ==> a == spec_acos(x as int) && 0 <= a <= HALF_TURN,
{
    if x < -SCALE || x > SCALE {
        None
    } else {
        Some(acos_of_unit(x))
    }
}

} // verus!
