//! The pursuing agent and its arc-length-bounded pursuit rule. The
//! chaser lives on the arena circle, so its state is an angular bearing;
//! each tick it either closes the whole angular gap to the runner (when
//! the remaining arc is within one tick of speed) or rotates by exactly
//! its speed's worth of arc in the direction that shortens the gap.

use vstd::prelude::*;
use crate::angle::{
    FULL_TURN, HALF_TURN, is_bearing, signed_delta, add_bearing, circular_gap,
    lemma_signed_delta_range, bearing_delta, bearing_add,
};
use crate::arena::{Arena, ArenaM, DIM_MAX};
use crate::trig::{bearing_of, bearing_of_vec, circle_point, circle_point_at, lemma_bearing_of_range};
use crate::vector::{Vec2M, Vector2};

verus! {

/// General fixed-point scale used to relate arc length to angle units.
pub const FP_ONE: i64 = 65536;

/// Two pi scaled by `FP_ONE`, rounded up, so that a rotation step of
/// `rotation_step` angle units never covers more arc than the speed.
pub const TWO_PI_FP: i64 = 411775;

/// Largest chaser speed the simulation accepts, in sub-pixel units of
/// arc per tick (a machine limit).
pub const CHASER_SPEED_MAX: i64 = 16777216;

/// The angle units a chaser of this speed may rotate through in one
/// tick on a circle of this radius: the fixed-point form of
/// `speed / radius` radians.
pub open spec fn rotation_step(speed: int, radius: int) -> int
    recommends
        speed >= 1,
        radius >= 1,
{
    (speed * FULL_TURN * FP_ONE) / (TWO_PI_FP * radius)
}

/// The relative position of the runner seen from the arena center.
pub open spec fn center_offset(arena: ArenaM, runner_pos: Vec2M) -> Vec2M {
    Vec2M { x: runner_pos.x - arena.center.x, y: runner_pos.y - arena.center.y }
}

/// The chaser's bearing after one pursuit tick. A runner exactly at the
/// center leaves no defined direction: that degenerate tick skips the
/// update.
pub open spec fn pursuit_bearing(arena: ArenaM, runner_pos: Vec2M, chaser: ChaserM) -> int
    recommends
        arena.radius >= 1,
        chaser.speed >= 1,
        is_bearing(chaser.bearing),
{
    let p = center_offset(arena, runner_pos);
    if p.x == 0 && p.y == 0 {
        chaser.bearing
    } else {
        let rb = bearing_of(p);
        let delta = signed_delta(rb, chaser.bearing);
        let gap = if delta >= 0 { delta } else { -delta };
        let step = rotation_step(chaser.speed, arena.radius);
        if gap <= step {
            rb
        } else {
            add_bearing(chaser.bearing, if delta >= 0 { step } else { -step })
        }
    }
}

/// Mathematical model of the chaser.
pub ghost struct ChaserM {
    pub bearing: int,
    pub radius: int,
    pub speed: int,
}

/// The AI agent, constrained to the arena circle.
#[derive(Clone, Copy, Debug, PartialEq, Eq, Structural)]
pub struct Chaser {
    pub bearing: i64,
    pub radius: i64,
    pub speed: i64,
}

impl View for Chaser {
    type V = ChaserM;

    open spec fn view(&self) -> ChaserM {
        ChaserM { bearing: self.bearing as int, radius: self.radius as int, speed: self.speed as int }
    }
}

/// The rotation step is nonnegative, and the arc it covers never
/// exceeds the speed: scaled back to arc units it stays below
/// `speed` worth of circumference.
pub proof fn lemma_rotation_step_bounds(speed: int, radius: int)
    requires
        speed >= 1,
        radius >= 1,
    ensures
        rotation_step(speed, radius) >= 0,
        rotation_step(speed, radius) * (TWO_PI_FP * radius) <= speed * (FULL_TURN as int
            * FP_ONE),
{
    let num = speed * FULL_TURN * FP_ONE;
    let den = TWO_PI_FP * radius;
    assert(num >= 1 && den >= 1 && num == speed * (FULL_TURN as int * FP_ONE))
        by (nonlinear_arith)
        requires
            speed >= 1,
            radius >= 1,
            num == speed * FULL_TURN * FP_ONE,
            den == TWO_PI_FP * radius,
    ;
    vstd::arithmetic::div_mod::lemma_div_pos_is_pos(num, den);
    vstd::arithmetic::div_mod::lemma_fundamental_div_mod(num, den);
    vstd::arithmetic::div_mod::lemma_remainder_lower(num, den);
    assert(den * (num / den) == (num / den) * den) by (nonlinear_arith);
}

/// Advancing a bearing by less than half a turn moves the signed
/// difference by exactly that amount.
pub proof fn lemma_add_bearing_delta(b: int, d: int)
    requires
        is_bearing(b),
        -HALF_TURN < d < HALF_TURN,
    ensures
        is_bearing(add_bearing(b, d)),
        signed_delta(add_bearing(b, d), b) == d,
{
}

/// Full catch-up: when the angular gap is within one tick's rotation,
/// the chaser's new bearing equals the runner's bearing exactly.
pub proof fn lemma_pursuit_full_catchup(arena: ArenaM, runner_pos: Vec2M, chaser: ChaserM)
    requires
        arena.radius >= 1,
        chaser.speed >= 1,
        is_bearing(chaser.bearing),
        ({
            let p = center_offset(arena, runner_pos);
            !(p.x == 0 && p.y == 0)
        }),
        circular_gap(bearing_of(center_offset(arena, runner_pos)), chaser.bearing)
            <= rotation_step(chaser.speed, arena.radius),
    ensures
        pursuit_bearing(arena, runner_pos, chaser) == bearing_of(center_offset(arena, runner_pos)),
{
}

/// Bounded pursuit: when the gap exceeds one tick's rotation, the
/// chaser turns by exactly the rotation step - never more arc than its
/// speed - in the direction that shortens the gap, and the gap shrinks
/// by exactly that step.
pub proof fn lemma_pursuit_bounded_step(arena: ArenaM, runner_pos: Vec2M, chaser: ChaserM)
    requires
        arena.radius >= 1,
        chaser.speed >= 1,
        is_bearing(chaser.bearing),
        ({
            let p = center_offset(arena, runner_pos);
            !(p.x == 0 && p.y == 0)
        }),
        circular_gap(bearing_of(center_offset(arena, runner_pos)), chaser.bearing)
            > rotation_step(chaser.speed, arena.radius),
    ensures
        ({
            let rb = bearing_of(center_offset(arena, runner_pos));
            let nb = pursuit_bearing(arena, runner_pos, chaser);
            let step = rotation_step(chaser.speed, arena.radius);
            &&& is_bearing(nb)
            &&& circular_gap(nb, chaser.bearing) == step
            &&& step * (TWO_PI_FP * arena.radius) <= chaser.speed * (FULL_TURN as int * FP_ONE)
            &&& circular_gap(rb, nb) == circular_gap(rb, chaser.bearing) - step
        }),
{
    let p = center_offset(arena, runner_pos);
    let rb = bearing_of(p);
    lemma_bearing_of_range(p);
    lemma_rotation_step_bounds(chaser.speed, arena.radius);
    lemma_signed_delta_range(rb, chaser.bearing);
    let delta = signed_delta(rb, chaser.bearing);
    let step = rotation_step(chaser.speed, arena.radius);
    let d = if delta >= 0 { step } else { -step };
    lemma_add_bearing_delta(chaser.bearing, d);
    let nb = add_bearing(chaser.bearing, d);
    lemma_signed_delta_range(rb, nb);
}

impl Chaser {
    /// Builds a chaser at a bearing with its body radius and speed.
    pub fn new(bearing: i64, radius: i64, speed: i64) -> (c: Chaser)
        ensures
            c@.bearing == bearing as int,
            c@.radius == radius as int,
            c@.speed == speed as int,
    {
        Chaser { bearing, radius, speed }
    }

    /// The chaser's position: the point of the arena circle at its
    /// bearing.
    pub fn position_on(&self, arena: &Arena) -> (p: Vector2)
        requires
            1 <= arena@.radius <= 2 * DIM_MAX / 5,
            is_bearing(self@.bearing),
            -0x800_0000 <= arena@.center.x <= 0x800_0000,
            -0x800_0000 <= arena@.center.y <= 0x800_0000,
        ensures
            p@ == circle_point(arena@.center, arena@.radius, self@.bearing),
            arena@.center.x - arena@.radius <= p@.x <= arena@.center.x + arena@.radius,
            arena@.center.y - arena@.radius <= p@.y <= arena@.center.y + arena@.radius,
    {
        circle_point_at(arena.center, arena.radius, self.bearing)
    }

    /// One pursuit tick: updates the bearing toward the runner, bounded
    /// by the speed's worth of arc. Radius and speed are untouched.
    pub fn pursue(&mut self, arena: &Arena, runner_pos: Vector2)
        requires
            1 <= arena@.radius <= 2 * DIM_MAX / 5,
            -0x800_0000 <= arena@.center.x <= 0x800_0000,
            -0x800_0000 <= arena@.center.y <= 0x800_0000,
            -0x1800_0000 <= runner_pos@.x <= 0x1800_0000,
            -0x1800_0000 <= runner_pos@.y <= 0x1800_0000,
            1 <= old(self)@.speed <= CHASER_SPEED_MAX,
            is_bearing(old(self)@.bearing),
        ensures
            final(self)@.bearing == pursuit_bearing(arena@, runner_pos@, old(self)@),
            is_bearing(final(self)@.bearing),
            final(self)@.radius == old(self)@.radius,
            final(self)@.speed == old(self)@.speed,
    {
        let rel = Vector2 { x: runner_pos.x - arena.center.x, y: runner_pos.y - arena.center.y };
        if rel.x == 0 && rel.y == 0 {
            return ;
        }
        let rb = bearing_of_vec(rel);
        let delta = bearing_delta(rb, self.bearing);
        let gap = if delta >= 0 {
            delta
        } else {
            -delta
        };
        proof {
            assert(1 <= self.speed * FULL_TURN * FP_ONE <= CHASER_SPEED_MAX as int * FULL_TURN
                * FP_ONE) by (nonlinear_arith)
                requires
                    1 <= self.speed <= CHASER_SPEED_MAX,
            ;
            assert(1 <= TWO_PI_FP * arena@.radius <= TWO_PI_FP * (2 * DIM_MAX as int / 5))
                by (nonlinear_arith)
                requires
                    1 <= arena@.radius <= 2 * DIM_MAX as int / 5,
            ;
            lemma_rotation_step_bounds(self.speed as int, arena@.radius);
            lemma_signed_delta_range(rb as int, self.bearing as int);
        }
        let step = (self.speed * FULL_TURN * FP_ONE) / (TWO_PI_FP * arena.radius);
        if gap <= step {
            self.bearing = rb;
        } else {
            self.bearing = bearing_add(self.bearing, if delta >= 0 { step } else { -step });
        }
    }
}

} // verus!
