//! Fixed-point trigonometry on bearings: sine and cosine scaled by
//! `SIN_ONE`, the bearing of a displacement, and the point of a circle at a
//! given bearing.
//!
//! The sine uses a rational quarter-wave approximation that is exact at
//! every multiple of a quarter turn; the cosine is recovered from the sine
//! through the integer square root, so a point placed on a circle lies on
//! it up to a relative error of about one part in `SIN_ONE`, a bound that
//! is proved, not assumed.

use vstd::prelude::*;
use crate::angle::{FULL_TURN, HALF_TURN, QUARTER_TURN, EIGHTH_TURN, is_bearing};
use crate::num::{
    sqrt_floor, lemma_sqrt_floor, isqrt, tdiv, div_trunc, lemma_tdiv_bounds,
};
use crate::vector::{Vec2M, Vector2, dist_sq};
use vstd::arithmetic::div_mod::{
    lemma_div_is_ordered, lemma_div_pos_is_pos, lemma_div_by_multiple,
};

verus! {

/// Fixed-point scale of the sine and cosine: they range over
/// `[-SIN_ONE, SIN_ONE]`.
pub const SIN_ONE: i64 = 16384;

/// Sine over the first half turn, scaled by `SIN_ONE`: a rational
/// approximation that is zero at `0` and `HALF_TURN` and exactly
/// `SIN_ONE` at `QUARTER_TURN`.
pub open spec fn sin_half(x: int) -> int
    recommends
        0 <= x <= HALF_TURN,
{
    let p = x * (HALF_TURN - x);
    (16 * p * SIN_ONE) / (5 * HALF_TURN * HALF_TURN - 4 * p)
}

/// Sine of a bearing, scaled by `SIN_ONE`.
pub open spec fn sin_bearing(a: int) -> int
    recommends
        is_bearing(a),
{
    if a <= HALF_TURN {
        sin_half(a)
    } else {
        -sin_half(a - HALF_TURN)
    }
}

/// Cosine of a bearing, scaled by `SIN_ONE`: recovered from the sine by
/// the Pythagorean identity, with the sign of the quadrant.
pub open spec fn cos_bearing(a: int) -> int
    recommends
        is_bearing(a),
{
    let s = sin_bearing(a);
    let c = sqrt_floor(SIN_ONE * SIN_ONE - s * s);
    if a <= QUARTER_TURN || a >= 3 * QUARTER_TURN {
        c
    } else {
        -c
    }
}

/// The half-wave sine stays within `[0, SIN_ONE]`.
pub proof fn lemma_sin_half_bounds(x: int)
    requires
        0 <= x <= HALF_TURN,
    ensures
        0 <= sin_half(x) <= SIN_ONE,
{
    let p = x * (HALF_TURN - x);
    let num = 16 * p * SIN_ONE;
    let den = 5 * HALF_TURN * HALF_TURN - 4 * p;
    assert(0 <= p && 4 * p <= HALF_TURN * HALF_TURN) by (nonlinear_arith)
        requires
            0 <= x <= HALF_TURN,
            p == x * (HALF_TURN - x),
    ;
    assert(den >= 4 * HALF_TURN * HALF_TURN >= 1);
    assert(num >= 0);
    lemma_div_pos_is_pos(num, den);
    assert(num <= SIN_ONE * den) by (nonlinear_arith)
        requires
            num == 16 * p * SIN_ONE,
            den == 5 * HALF_TURN * HALF_TURN - 4 * p,
            0 <= p,
            4 * p <= HALF_TURN * HALF_TURN,
    ;
    lemma_div_is_ordered(num, SIN_ONE * den, den);
    lemma_div_by_multiple(SIN_ONE as int, den);
}

/// The sine of any bearing stays within `[-SIN_ONE, SIN_ONE]`.
pub proof fn lemma_sin_bearing_bounds(a: int)
    requires
        is_bearing(a),
    ensures
        -SIN_ONE <= sin_bearing(a) <= SIN_ONE,
        0 <= a <= HALF_TURN ==> sin_bearing(a) >= 0,
        HALF_TURN <= a < FULL_TURN ==> sin_bearing(a) <= 0,
{
    if a <= HALF_TURN {
        lemma_sin_half_bounds(a);
        if a == HALF_TURN {
            lemma_sin_half_exact();
        }
    } else {
        lemma_sin_half_bounds(a - HALF_TURN);
    }
}

/// The half-wave sine is exact at the ends and the middle of its range.
pub proof fn lemma_sin_half_exact()
    ensures
        sin_half(0) == 0,
        sin_half(QUARTER_TURN as int) == SIN_ONE,
        sin_half(HALF_TURN as int) == 0,
{
    let den0 = 5 * HALF_TURN * HALF_TURN;
    vstd::arithmetic::div_mod::lemma_div_of0(den0 as int);
    let p = QUARTER_TURN * (HALF_TURN - QUARTER_TURN);
    let den = 5 * HALF_TURN * HALF_TURN - 4 * p;
    assert(16 * p * SIN_ONE == SIN_ONE * den);
    lemma_div_by_multiple(SIN_ONE as int, den as int);
}

/// Sine and cosine are exact at the four quadrant bearings.
pub proof fn lemma_trig_quadrants()
    ensures
        sin_bearing(0) == 0,
        cos_bearing(0) == SIN_ONE,
        sin_bearing(QUARTER_TURN as int) == SIN_ONE,
        cos_bearing(QUARTER_TURN as int) == 0,
        sin_bearing(HALF_TURN as int) == 0,
        cos_bearing(HALF_TURN as int) == -SIN_ONE,
        sin_bearing(3 * QUARTER_TURN as int) == -SIN_ONE,
        cos_bearing(3 * QUARTER_TURN as int) == 0,
{
    lemma_sin_half_exact();
    crate::num::lemma_sqrt_floor_unique(SIN_ONE * SIN_ONE, SIN_ONE as int);
    crate::num::lemma_sqrt_floor_unique(0, 0);
    assert(sin_bearing(3 * QUARTER_TURN as int) == -sin_half(QUARTER_TURN as int));
    assert(SIN_ONE * SIN_ONE - (-SIN_ONE) * (-SIN_ONE) == 0);
}

/// Sine and cosine of one bearing nearly satisfy the Pythagorean
/// identity: the squared norm never exceeds the scale and falls short of
/// it by less than `2 * SIN_ONE + 1`.
pub proof fn lemma_sin_cos_norm(a: int)
    requires
        is_bearing(a),
    ensures
        -SIN_ONE <= cos_bearing(a) <= SIN_ONE,
        -SIN_ONE <= sin_bearing(a) <= SIN_ONE,
        cos_bearing(a) * cos_bearing(a) + sin_bearing(a) * sin_bearing(a) <= SIN_ONE * SIN_ONE,
        cos_bearing(a) * cos_bearing(a) + sin_bearing(a) * sin_bearing(a)
            > SIN_ONE * SIN_ONE - 2 * SIN_ONE - 1,
{
    lemma_sin_bearing_bounds(a);
    let s = sin_bearing(a);
    assert(0 <= s * s <= SIN_ONE * SIN_ONE) by (nonlinear_arith)
        requires
            -SIN_ONE <= s <= SIN_ONE,
    ;
    let rem = SIN_ONE * SIN_ONE - s * s;
    lemma_sqrt_floor(rem);
    let c = sqrt_floor(rem);
    assert(c * c <= rem < (c + 1) * (c + 1));
    assert(c <= SIN_ONE) by (nonlinear_arith)
        requires
            c >= 0,
            c * c <= SIN_ONE * SIN_ONE,
            SIN_ONE >= 0,
    ;
    assert(c * c + s * s > SIN_ONE * SIN_ONE - 2 * c - 1) by (nonlinear_arith)
        requires
            rem == SIN_ONE * SIN_ONE - s * s,
            rem < (c + 1) * (c + 1),
    ;
    assert(cos_bearing(a) == c || cos_bearing(a) == -c);
    assert((-c) * (-c) == c * c) by (nonlinear_arith);
}

/// Computes the half-wave sine on machine integers.
fn sin_half_exec(x: i64) -> (s: i64)
    requires
        0 <= x <= HALF_TURN,
    ensures
        s == sin_half(x as int),
        0 <= s <= SIN_ONE,
{
    proof {
        assert(0 <= x * (HALF_TURN - x) && 4 * (x * (HALF_TURN - x)) <= HALF_TURN * HALF_TURN)
            by (nonlinear_arith)
            requires
                0 <= x <= HALF_TURN,
        ;
        lemma_sin_half_bounds(x as int);
    }
    let p = x * (HALF_TURN - x);
    let num = 16 * p * SIN_ONE;
    let den = 5 * HALF_TURN * HALF_TURN - 4 * p;
    proof {
        lemma_div_pos_is_pos(num as int, den as int);
        lemma_div_is_ordered(num as int, 16 * (HALF_TURN * HALF_TURN) * SIN_ONE as int, den as int);
        crate::num::lemma_tdiv_bounds(num as int, den as int);
    }
    num / den
}

/// Computes the sine and cosine of a bearing, scaled by `SIN_ONE`.
pub fn sin_cos_units(a: i64) -> (sc: (i64, i64))
    requires
        is_bearing(a as int),
    ensures
        sc.0 == cos_bearing(a as int),
        sc.1 == sin_bearing(a as int),
        -SIN_ONE <= sc.0 <= SIN_ONE,
        -SIN_ONE <= sc.1 <= SIN_ONE,
{
    let s = if a <= HALF_TURN {
        sin_half_exec(a)
    } else {
        -sin_half_exec(a - HALF_TURN)
    };
    proof {
        assert(0 <= s * s <= SIN_ONE * SIN_ONE) by (nonlinear_arith)
            requires
                -SIN_ONE <= s <= SIN_ONE,
        ;
    }
    let rem = SIN_ONE * SIN_ONE - s * s;
    let c0 = isqrt(rem);
    proof {
        assert(c0 <= SIN_ONE) by (nonlinear_arith)
            requires
                c0 >= 0,
                c0 * c0 <= SIN_ONE * SIN_ONE,
                SIN_ONE >= 0,
        ;
    }
    let c = if a <= QUARTER_TURN || a >= 3 * QUARTER_TURN {
        c0
    } else {
        -c0
    };
    (c, s)
}

/// Slope coefficient of the octant arctangent, in angle units scaled by
/// `SIN_ONE`: tuned so the curve is exact at both ends of the octant.
pub const ATAN_C: i64 = 45558;

/// Arctangent of a ratio `z` scaled by `SIN_ONE`, over one octant:
/// the result is in angle units, zero at `z == 0` and exactly
/// `EIGHTH_TURN` at `z == SIN_ONE`.
pub open spec fn atan_unit(z: int) -> int
    recommends
        0 <= z <= SIN_ONE,
{
    (EIGHTH_TURN * z + (ATAN_C * z * (SIN_ONE - z)) / (SIN_ONE as int)) / (SIN_ONE as int)
}

/// The octant arctangent stays within its octant and is exact at the ends.
pub proof fn lemma_atan_unit_bounds(z: int)
    requires
        0 <= z <= SIN_ONE,
    ensures
        0 <= atan_unit(z) <= EIGHTH_TURN,
        z == 0 ==> atan_unit(z) == 0,
        z == SIN_ONE ==> atan_unit(z) == EIGHTH_TURN,
{
    let w = ATAN_C * z * (SIN_ONE - z);
    assert(0 <= w && w <= EIGHTH_TURN * (SIN_ONE - z) * SIN_ONE) by (nonlinear_arith)
        requires
            0 <= z <= SIN_ONE,
            w == ATAN_C * z * (SIN_ONE - z),
    ;
    lemma_div_pos_is_pos(w, SIN_ONE as int);
    assert(EIGHTH_TURN * (SIN_ONE - z) * SIN_ONE == (EIGHTH_TURN * (SIN_ONE - z)) * SIN_ONE)
        by (nonlinear_arith);
    lemma_div_is_ordered(w, (EIGHTH_TURN * (SIN_ONE - z)) * SIN_ONE, SIN_ONE as int);
    lemma_div_by_multiple(EIGHTH_TURN * (SIN_ONE - z), SIN_ONE as int);
    let num = EIGHTH_TURN * z + w / (SIN_ONE as int);
    assert(0 <= EIGHTH_TURN * z <= EIGHTH_TURN * SIN_ONE) by (nonlinear_arith)
        requires
            0 <= z <= SIN_ONE,
    ;
    assert(num <= EIGHTH_TURN * SIN_ONE);
    lemma_div_pos_is_pos(num, SIN_ONE as int);
    lemma_div_is_ordered(num, EIGHTH_TURN * SIN_ONE, SIN_ONE as int);
    lemma_div_by_multiple(EIGHTH_TURN as int, SIN_ONE as int);
    if z == 0 || z == SIN_ONE {
        assert(ATAN_C * z * (SIN_ONE - z) == 0) by (nonlinear_arith)
            requires
                z == 0 || z == SIN_ONE,
        ;
        vstd::arithmetic::div_mod::lemma_div_of0(SIN_ONE as int);
    }
}

/// The bearing of a direction in the first quadrant (both components
/// nonnegative, not both zero), in `[0, QUARTER_TURN]`.
pub open spec fn octant_bearing(ax: int, ay: int) -> int
    recommends
        0 <= ax,
        0 <= ay,
        ax + ay > 0,
{
    if ay <= ax {
        atan_unit((ay * SIN_ONE) / ax)
    } else {
        QUARTER_TURN - atan_unit((ax * SIN_ONE) / ay)
    }
}

/// The first-quadrant bearing stays within its quarter turn.
pub proof fn lemma_octant_bearing_bounds(ax: int, ay: int)
    requires
        0 <= ax,
        0 <= ay,
        ax + ay > 0,
    ensures
        0 <= octant_bearing(ax, ay) <= QUARTER_TURN,
        ay == 0 ==> octant_bearing(ax, ay) == 0,
        ax == 0 ==> octant_bearing(ax, ay) == QUARTER_TURN,
{
    if ay <= ax {
        let z = (ay * SIN_ONE) / (ax as int);
        assert(0 <= ay * SIN_ONE <= ax * SIN_ONE) by (nonlinear_arith)
            requires
                0 <= ay <= ax,
        ;
        lemma_div_pos_is_pos(ay * SIN_ONE, ax as int);
        lemma_div_is_ordered(ay * SIN_ONE, ax * SIN_ONE, ax as int);
        assert(ax * SIN_ONE == SIN_ONE * ax) by (nonlinear_arith);
        lemma_div_by_multiple(SIN_ONE as int, ax as int);
        lemma_atan_unit_bounds(z);
        if ay == 0 {
            vstd::arithmetic::div_mod::lemma_div_of0(ax as int);
        }
    } else {
        let z = (ax * SIN_ONE) / (ay as int);
        assert(0 <= ax * SIN_ONE <= ay * SIN_ONE) by (nonlinear_arith)
            requires
                0 <= ax <= ay,
        ;
        lemma_div_pos_is_pos(ax * SIN_ONE, ay as int);
        lemma_div_is_ordered(ax * SIN_ONE, ay * SIN_ONE, ay as int);
        assert(ay * SIN_ONE == SIN_ONE * ay) by (nonlinear_arith);
        lemma_div_by_multiple(SIN_ONE as int, ay as int);
        lemma_atan_unit_bounds(z);
        if ax == 0 {
            vstd::arithmetic::div_mod::lemma_div_of0(ay as int);
        }
    }
}

/// The bearing of a nonzero displacement, in `[0, FULL_TURN)`. This is
/// the model's definition of angular position: zero along the positive
/// `x` axis, a quarter turn along the positive `y` axis, and so on
/// around the circle.
pub open spec fn bearing_of(v: Vec2M) -> int
    recommends
        !(v.x == 0 && v.y == 0),
{
    let ax = if v.x >= 0 { v.x } else { -v.x };
    let ay = if v.y >= 0 { v.y } else { -v.y };
    let oct = octant_bearing(ax, ay);
    if v.x >= 0 && v.y >= 0 {
        oct
    } else if v.x < 0 && v.y >= 0 {
        HALF_TURN - oct
    } else if v.x < 0 {
        HALF_TURN + oct
    } else if oct == 0 {
        0
    } else {
        FULL_TURN - oct
    }
}

/// The bearing of a displacement is a bearing, lands in the quadrant
/// of its signs, and is exact on the axes.
pub proof fn lemma_bearing_of_range(v: Vec2M)
    requires
        !(v.x == 0 && v.y == 0),
    ensures
        is_bearing(bearing_of(v)),
        v.x >= 0 && v.y >= 0 ==> 0 <= bearing_of(v) <= QUARTER_TURN,
        v.x <= 0 && v.y >= 0 ==> QUARTER_TURN <= bearing_of(v) <= HALF_TURN,
        v.x <= 0 && v.y <= 0 ==> HALF_TURN <= bearing_of(v) <= 3 * QUARTER_TURN,
        v.x >= 0 && v.y <= 0 ==> bearing_of(v) == 0 || 3 * QUARTER_TURN <= bearing_of(v)
            < FULL_TURN,
        v.x > 0 && v.y == 0 ==> bearing_of(v) == 0,
        v.x == 0 && v.y > 0 ==> bearing_of(v) == QUARTER_TURN,
        v.x < 0 && v.y == 0 ==> bearing_of(v) == HALF_TURN,
        v.x == 0 && v.y < 0 ==> bearing_of(v) == 3 * QUARTER_TURN,
{
    let ax = if v.x >= 0 { v.x } else { -v.x };
    let ay = if v.y >= 0 { v.y } else { -v.y };
    lemma_octant_bearing_bounds(ax, ay);
}

/// Computes the octant arctangent on machine integers.
fn atan_unit_exec(z: i64) -> (r: i64)
    requires
        0 <= z <= SIN_ONE,
    ensures
        r == atan_unit(z as int),
        0 <= r <= EIGHTH_TURN,
{
    proof {
        lemma_atan_unit_bounds(z as int);
        assert(0 <= ATAN_C * z * (SIN_ONE - z) <= ATAN_C * SIN_ONE * SIN_ONE) by (nonlinear_arith)
            requires
                0 <= z <= SIN_ONE,
        ;
        lemma_tdiv_bounds(ATAN_C * z * (SIN_ONE - z), SIN_ONE as int);
        assert(0 <= EIGHTH_TURN * z <= EIGHTH_TURN * SIN_ONE) by (nonlinear_arith)
            requires
                0 <= z <= SIN_ONE,
        ;
    }
    let w = ATAN_C * z * (SIN_ONE - z);
    (EIGHTH_TURN * z + w / SIN_ONE) / SIN_ONE
}

/// Computes the bearing of a nonzero displacement.
pub fn bearing_of_vec(v: Vector2) -> (b: i64)
    requires
        -0x2000_0000 <= v@.x <= 0x2000_0000,
        -0x2000_0000 <= v@.y <= 0x2000_0000,
        !(v@.x == 0 && v@.y == 0),
    ensures
        b == bearing_of(v@),
        is_bearing(b as int),
{
    proof {
        lemma_bearing_of_range(v@);
    }
    let ax = if v.x >= 0 { v.x } else { -v.x };
    let ay = if v.y >= 0 { v.y } else { -v.y };
    let oct = if ay <= ax {
        proof {
            assert(0 <= ay * SIN_ONE <= ax * SIN_ONE) by (nonlinear_arith)
                requires
                    0 <= ay <= ax,
            ;
            lemma_div_pos_is_pos(ay * SIN_ONE, ax as int);
            lemma_div_is_ordered(ay * SIN_ONE, ax * SIN_ONE, ax as int);
            assert(ax * SIN_ONE == SIN_ONE * ax) by (nonlinear_arith);
            lemma_div_by_multiple(SIN_ONE as int, ax as int);
        }
        atan_unit_exec((ay * SIN_ONE) / ax)
    } else {
        proof {
            assert(0 <= ax * SIN_ONE <= ay * SIN_ONE) by (nonlinear_arith)
                requires
                    0 <= ax <= ay,
            ;
            lemma_div_pos_is_pos(ax * SIN_ONE, ay as int);
            lemma_div_is_ordered(ax * SIN_ONE, ay * SIN_ONE, ay as int);
            assert(ay * SIN_ONE == SIN_ONE * ay) by (nonlinear_arith);
            lemma_div_by_multiple(SIN_ONE as int, ay as int);
        }
        QUARTER_TURN - atan_unit_exec((ax * SIN_ONE) / ay)
    };
    if v.x >= 0 && v.y >= 0 {
        oct
    } else if v.x < 0 && v.y >= 0 {
        HALF_TURN - oct
    } else if v.x < 0 {
        HALF_TURN + oct
    } else if oct == 0 {
        0
    } else {
        FULL_TURN - oct
    }
}

/// The point of the circle around `center` with the given radius, at the
/// given bearing.
pub open spec fn circle_point(center: Vec2M, radius: int, bearing: int) -> Vec2M
    recommends
        radius >= 1,
        is_bearing(bearing),
{
    Vec2M {
        x: center.x + tdiv(radius * cos_bearing(bearing), SIN_ONE as int),
        y: center.y + tdiv(radius * sin_bearing(bearing), SIN_ONE as int),
    }
}

/// The scaled trigonometric offset keeps its magnitude within the radius
/// and lands within one trigonometric unit of the exact scaled value.
pub proof fn lemma_trig_offset_bounds(radius: int, t: int)
    requires
        radius >= 1,
        -SIN_ONE <= t <= SIN_ONE,
    ensures
        -radius <= tdiv(radius * t, SIN_ONE as int) <= radius,
        radius * t >= 0 ==> 0 <= SIN_ONE * tdiv(radius * t, SIN_ONE as int) <= radius * t
            && SIN_ONE * tdiv(radius * t, SIN_ONE as int) > radius * t - SIN_ONE,
        radius * t < 0 ==> radius * t <= SIN_ONE * tdiv(radius * t, SIN_ONE as int) <= 0
            && SIN_ONE * tdiv(radius * t, SIN_ONE as int) < radius * t + SIN_ONE,
{
    if t >= 0 {
        crate::num::lemma_tdiv_scale_shrinks(radius, t, SIN_ONE as int);
        assert(radius * t >= 0) by (nonlinear_arith)
            requires
                radius >= 1,
                t >= 0,
        ;
    } else {
        assert(radius * t == -(radius * -t) && radius * t < 0) by (nonlinear_arith)
            requires
                radius >= 1,
                t < 0,
        ;
        crate::num::lemma_tdiv_scale_shrinks(radius, -t, SIN_ONE as int);
        assert(tdiv(radius * t, SIN_ONE as int) == -tdiv(radius * -t, SIN_ONE as int));
    }
    lemma_tdiv_bounds(radius * t, SIN_ONE as int);
    let q = tdiv(radius * t, SIN_ONE as int);
    assert(q >= 0 ==> SIN_ONE * q >= 0 && q < 0 ==> SIN_ONE * q < 0) by (nonlinear_arith);
}

/// Squares of values within a truncation unit of each other are within
/// `2 * t * m` of each other, for magnitudes bounded by `m`.
proof fn lemma_sq_bracket(u: int, v: int, t: int, m: int)
    requires
        t >= 1,
        m >= 0,
        -m <= v <= m,
        v >= 0 ==> 0 <= u <= v && u > v - t,
        v < 0 ==> v <= u <= 0 && u < v + t,
    ensures
        u * u <= v * v,
        u * u >= v * v - 2 * t * m,
{
    if v >= 0 {
        assert(u * u <= v * v) by (nonlinear_arith)
            requires
                0 <= u <= v,
        ;
        if v < t {
            assert(u * u >= v * v - 2 * t * m) by (nonlinear_arith)
                requires
                    0 <= v <= m,
                    v < t,
                    t >= 1,
                    m >= 0,
            ;
        } else {
            assert(u * u >= v * v - 2 * t * m) by (nonlinear_arith)
                requires
                    u > v - t >= 0,
                    t >= 1,
                    0 <= v <= m,
            ;
        }
    } else {
        assert(u * u <= v * v) by (nonlinear_arith)
            requires
                v <= u <= 0,
        ;
        if -v < t {
            assert(u * u >= v * v - 2 * t * m) by (nonlinear_arith)
                requires
                    -m <= v < 0,
                    -v < t,
                    t >= 1,
                    m >= 0,
            ;
        } else {
            assert(u * u >= v * v - 2 * t * m) by (nonlinear_arith)
                requires
                    u < v + t <= 0,
                    t >= 1,
                    -m <= v < 0,
            ;
        }
    }
}

/// A point placed on a circle lies on it: its squared distance from the
/// center never exceeds the squared radius, and falls short of it only
/// in proportion to the trigonometric scale.
pub proof fn lemma_circle_point_on_circle(center: Vec2M, radius: int, bearing: int)
    requires
        radius >= 1,
        is_bearing(bearing),
    ensures
        dist_sq(circle_point(center, radius, bearing), center) <= radius * radius,
        dist_sq(circle_point(center, radius, bearing), center) * (SIN_ONE * SIN_ONE)
            >= radius * radius * (SIN_ONE * SIN_ONE) - 2 * radius * radius * SIN_ONE
                - 4 * radius * (SIN_ONE * SIN_ONE),
{
    lemma_sin_cos_norm(bearing);
    let c = cos_bearing(bearing);
    let s = sin_bearing(bearing);
    let qx = tdiv(radius * c, SIN_ONE as int);
    let qy = tdiv(radius * s, SIN_ONE as int);
    lemma_trig_offset_bounds(radius, c);
    lemma_trig_offset_bounds(radius, s);
    let p = circle_point(center, radius, bearing);
    assert(p.x - center.x == qx && p.y - center.y == qy);
    assert(dist_sq(p, center) == qx * qx + qy * qy);
    let m = radius * SIN_ONE;
    assert(-m <= radius * c <= m && -m <= radius * s <= m && m >= 0) by (nonlinear_arith)
        requires
            -SIN_ONE <= c <= SIN_ONE,
            -SIN_ONE <= s <= SIN_ONE,
            radius >= 1,
            m == radius * SIN_ONE,
    ;
    // Each offset component is within one trigonometric unit of the exact
    // scaled value, which brackets its square.
    lemma_sq_bracket(SIN_ONE * qx, radius * c, SIN_ONE as int, m);
    lemma_sq_bracket(SIN_ONE * qy, radius * s, SIN_ONE as int, m);
    assert((SIN_ONE * qx) * (SIN_ONE * qx) == SIN_ONE * SIN_ONE * (qx * qx)
        && (SIN_ONE * qy) * (SIN_ONE * qy) == SIN_ONE * SIN_ONE * (qy * qy)
        && (radius * c) * (radius * c) == radius * radius * (c * c)
        && (radius * s) * (radius * s) == radius * radius * (s * s)) by (nonlinear_arith);
    // Upper bound: the scaled squared norm never exceeds the scaled
    // squared radius.
    assert(radius * radius * (c * c) + radius * radius * (s * s)
        == radius * radius * (c * c + s * s)) by (nonlinear_arith);
    assert(radius * radius * (c * c + s * s) <= radius * radius * (SIN_ONE * SIN_ONE))
        by (nonlinear_arith)
        requires
            c * c + s * s <= SIN_ONE * SIN_ONE,
            radius >= 1,
    ;
    assert(qx * qx + qy * qy <= radius * radius) by (nonlinear_arith)
        requires
            SIN_ONE * SIN_ONE * (qx * qx) + SIN_ONE * SIN_ONE * (qy * qy)
                <= radius * radius * (SIN_ONE * SIN_ONE),
    ;
    // Lower bound: the truncation loses at most `2 * SIN_ONE * m` per
    // component, and the trigonometric norm at most `2 * SIN_ONE` of its
    // scale.
    assert(radius * radius * (c * c + s * s)
        >= radius * radius * (SIN_ONE * SIN_ONE - 2 * SIN_ONE)) by (nonlinear_arith)
        requires
            c * c + s * s > SIN_ONE * SIN_ONE - 2 * SIN_ONE - 1,
            radius >= 1,
    ;
    assert((qx * qx + qy * qy) * (SIN_ONE * SIN_ONE)
        >= radius * radius * (SIN_ONE * SIN_ONE) - 2 * radius * radius * SIN_ONE
            - 4 * radius * (SIN_ONE * SIN_ONE)) by (nonlinear_arith)
        requires
            SIN_ONE * SIN_ONE * (qx * qx) >= radius * radius * (c * c)
                - 2 * (SIN_ONE * (radius * SIN_ONE)),
            SIN_ONE * SIN_ONE * (qy * qy) >= radius * radius * (s * s)
                - 2 * (SIN_ONE * (radius * SIN_ONE)),
            radius * radius * (c * c) + radius * radius * (s * s)
                == radius * radius * (c * c + s * s),
            radius * radius * (c * c + s * s)
                >= radius * radius * (SIN_ONE * SIN_ONE - 2 * SIN_ONE),
    ;
}

/// Places the point of a circle at a bearing, on machine integers.
pub fn circle_point_at(center: Vector2, radius: i64, bearing: i64) -> (p: Vector2)
    requires
        1 <= radius <= 0x100_0000,
        is_bearing(bearing as int),
        -0x800_0000 <= center@.x <= 0x800_0000,
        -0x800_0000 <= center@.y <= 0x800_0000,
    ensures
        p@ == circle_point(center@, radius as int, bearing as int),
        center@.x - radius <= p@.x <= center@.x + radius,
        center@.y - radius <= p@.y <= center@.y + radius,
{
    let (c, s) = sin_cos_units(bearing);
    proof {
        assert(-(radius * SIN_ONE) <= radius * c <= radius * SIN_ONE
            && -(radius * SIN_ONE) <= radius * s <= radius * SIN_ONE) by (nonlinear_arith)
            requires
                -SIN_ONE <= c <= SIN_ONE,
                -SIN_ONE <= s <= SIN_ONE,
                radius >= 1,
        ;
        lemma_trig_offset_bounds(radius as int, c as int);
        lemma_trig_offset_bounds(radius as int, s as int);
    }
    let ox = div_trunc(radius * c, SIN_ONE);
    let oy = div_trunc(radius * s, SIN_ONE);
    Vector2 { x: center.x + ox, y: center.y + oy }
}

} // verus!
