//! The round outcome and the judge that decides it each tick.

use vstd::prelude::*;
use crate::vector::{Vec2M, Vector2, dist_sq};

verus! {

/// State of the round: play continues until one agent wins; a terminal
/// value only changes back through an explicit reset.
#[derive(Clone, Copy, Debug, PartialEq, Eq, Structural)]
pub enum RoundOutcome {
    Playing,
    RunnerWins,
    ChaserWins,
}

/// Whether the two agent bodies overlap: their distance is strictly
/// below the sum of their radii.
pub open spec fn collision_holds(
    runner_pos: Vec2M,
    runner_radius: int,
    chaser_pos: Vec2M,
    chaser_radius: int,
) -> bool {
    dist_sq(runner_pos, chaser_pos) < (runner_radius + chaser_radius) * (runner_radius
        + chaser_radius)
}

/// Whether the runner has left the arena: its distance from the center
/// strictly exceeds the radius.
pub open spec fn exit_holds(runner_pos: Vec2M, center: Vec2M, arena_radius: int) -> bool {
    dist_sq(runner_pos, center) > arena_radius * arena_radius
}

/// The verdict for one tick: collision is checked first, so it takes
/// precedence when both winning conditions hold at once.
pub open spec fn judge(
    runner_pos: Vec2M,
    runner_radius: int,
    chaser_pos: Vec2M,
    chaser_radius: int,
    center: Vec2M,
    arena_radius: int,
) -> RoundOutcome {
    if collision_holds(runner_pos, runner_radius, chaser_pos, chaser_radius) {
        RoundOutcome::ChaserWins
    } else if exit_holds(runner_pos, center, arena_radius) {
        RoundOutcome::RunnerWins
    } else {
        RoundOutcome::Playing
    }
}

/// Outcome precedence: when the collision and the boundary exit hold in
/// the same tick, the chaser wins.
pub proof fn lemma_outcome_precedence(
    runner_pos: Vec2M,
    runner_radius: int,
    chaser_pos: Vec2M,
    chaser_radius: int,
    center: Vec2M,
    arena_radius: int,
)
    requires
        collision_holds(runner_pos, runner_radius, chaser_pos, chaser_radius),
        exit_holds(runner_pos, center, arena_radius),
    ensures
        judge(runner_pos, runner_radius, chaser_pos, chaser_radius, center, arena_radius)
            == RoundOutcome::ChaserWins,
{
}

/// The verdict characterised both ways: the chaser wins exactly on
/// contact, the runner wins exactly when it is out of the arena without
/// contact, and play continues exactly when neither condition holds.
pub proof fn lemma_judge_characterisation(
    runner_pos: Vec2M,
    runner_radius: int,
    chaser_pos: Vec2M,
    chaser_radius: int,
    center: Vec2M,
    arena_radius: int,
)
    ensures
        judge(runner_pos, runner_radius, chaser_pos, chaser_radius, center, arena_radius)
            == RoundOutcome::ChaserWins <==> collision_holds(
            runner_pos,
            runner_radius,
            chaser_pos,
            chaser_radius,
        ),
        judge(runner_pos, runner_radius, chaser_pos, chaser_radius, center, arena_radius)
            == RoundOutcome::RunnerWins <==> !collision_holds(
            runner_pos,
            runner_radius,
            chaser_pos,
            chaser_radius,
        ) && exit_holds(runner_pos, center, arena_radius),
        judge(runner_pos, runner_radius, chaser_pos, chaser_radius, center, arena_radius)
            == RoundOutcome::Playing <==> !collision_holds(
            runner_pos,
            runner_radius,
            chaser_pos,
            chaser_radius,
        ) && !exit_holds(runner_pos, center, arena_radius),
{
}

/// Computes the verdict on machine integers.
pub fn judge_outcome(
    runner_pos: Vector2,
    runner_radius: i64,
    chaser_pos: Vector2,
    chaser_radius: i64,
    center: Vector2,
    arena_radius: i64,
) -> (oc: RoundOutcome)
    requires
        -0x2000_0000 <= runner_pos@.x <= 0x2000_0000,
        -0x2000_0000 <= runner_pos@.y <= 0x2000_0000,
        -0x2000_0000 <= chaser_pos@.x <= 0x2000_0000,
        -0x2000_0000 <= chaser_pos@.y <= 0x2000_0000,
        -0x2000_0000 <= center@.x <= 0x2000_0000,
        -0x2000_0000 <= center@.y <= 0x2000_0000,
        0 <= runner_radius <= 0x1000_0000,
        0 <= chaser_radius <= 0x1000_0000,
        0 <= arena_radius <= 0x1000_0000,
    ensures
        oc == judge(
            runner_pos@,
            runner_radius as int,
            chaser_pos@,
            chaser_radius as int,
            center@,
            arena_radius as int,
        ),
{
    let body_span = runner_radius + chaser_radius;
    proof {
        assert(0 <= body_span * body_span <= 0x2000_0000int * 0x2000_0000int)
            by (nonlinear_arith)
            requires
                0 <= body_span <= 0x2000_0000,
        ;
        assert(0 <= arena_radius * arena_radius <= 0x1000_0000int * 0x1000_0000int)
            by (nonlinear_arith)
            requires
                0 <= arena_radius <= 0x1000_0000,
        ;
    }
    if runner_pos.distance_sq(chaser_pos) < body_span * body_span {
        RoundOutcome::ChaserWins
    } else if runner_pos.distance_sq(center) > arena_radius * arena_radius {
        RoundOutcome::RunnerWins
    } else {
        RoundOutcome::Playing
    }
}

} // verus!
