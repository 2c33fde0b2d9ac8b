//! Angular positions ("bearings") on the arena circle, measured in binary
//! angle units: `FULL_TURN` units make one full turn, so wrap-around and the
//! half-turn tie policy are exact integer arithmetic.

use vstd::prelude::*;

verus! {

/// Angle units in one full turn.
pub const FULL_TURN: i64 = 1048576;

/// Angle units in half a turn (the fixed-point analogue of pi radians).
pub const HALF_TURN: i64 = 524288;

/// Angle units in a quarter turn.
pub const QUARTER_TURN: i64 = 262144;

/// Angle units in an eighth of a turn.
pub const EIGHTH_TURN: i64 = 131072;

/// A bearing is an angle unit count in `[0, FULL_TURN)`.
pub open spec fn is_bearing(a: int) -> bool {
    0 <= a < FULL_TURN
}

/// The signed angular difference `to - from`, brought into
/// `(-HALF_TURN, HALF_TURN]` by adding or subtracting one full turn.
/// A difference of exactly half a turn keeps the positive sign: the
/// comparisons are strictly-greater / less-or-equal, so the tie at the
/// opposite point resolves to a positive (counter-clockwise) rotation.
pub open spec fn signed_delta(to: int, from: int) -> int
    recommends
        is_bearing(to),
        is_bearing(from),
{
    let d = to - from;
    if d > HALF_TURN {
        d - FULL_TURN
    } else if d <= -HALF_TURN {
        d + FULL_TURN
    } else {
        d
    }
}

/// Advancing a bearing by a step of at most half a turn in either
/// direction, wrapping around the full turn.
pub open spec fn add_bearing(b: int, d: int) -> int
    recommends
        is_bearing(b),
        -HALF_TURN <= d <= HALF_TURN,
{
    let s = b + d;
    if s < 0 {
        s + FULL_TURN
    } else if s >= FULL_TURN {
        s - FULL_TURN
    } else {
        s
    }
}

/// The unsigned circular gap between two bearings, in `[0, HALF_TURN]`.
pub open spec fn circular_gap(a: int, b: int) -> int
    recommends
        is_bearing(a),
        is_bearing(b),
{
    let d = signed_delta(a, b);
    if d >= 0 {
        d
    } else {
        -d
    }
}

/// The signed difference lands in the half-open-below interval and is
/// congruent to `to - from` modulo one turn.
pub proof fn lemma_signed_delta_range(to: int, from: int)
    requires
        is_bearing(to),
        is_bearing(from),
    ensures
        -HALF_TURN < signed_delta(to, from) <= HALF_TURN,
        signed_delta(to, from) == to - from || signed_delta(to, from) == to - from - FULL_TURN
            || signed_delta(to, from) == to - from + FULL_TURN,
{
}

/// Computes `signed_delta` on machine integers.
pub fn bearing_delta(to: i64, from: i64) -> (d: i64)
    requires
        is_bearing(to as int),
        is_bearing(from as int),
    ensures
        d == signed_delta(to as int, from as int),
{
    let d = to - from;
    if d > HALF_TURN {
        d - FULL_TURN
    } else if d <= -HALF_TURN {
        d + FULL_TURN
    } else {
        d
    }
}

/// Computes `add_bearing` on machine integers.
pub fn bearing_add(b: i64, d: i64) -> (r: i64)
    requires
        is_bearing(b as int),
        -HALF_TURN <= d <= HALF_TURN,
    ensures
        r == add_bearing(b as int, d as int),
        is_bearing(r as int),
{
    let s = b + d;
    if s < 0 {
        s + FULL_TURN
    } else if s >= FULL_TURN {
        s - FULL_TURN
    } else {
        s
    }
}

} // verus!
