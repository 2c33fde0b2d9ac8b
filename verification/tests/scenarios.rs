//! Whole-round scenarios against the world, in sub-pixel units
//! (256 units to a pixel). The reference surface is 1280 x 960 pixels,
//! so the arena has radius 384 pixels around (640, 480).

use pursuit_core::input::{check_input_in_range, AxisSignal, InputSnapshot};
use pursuit_core::outcome::RoundOutcome;
use pursuit_core::vector::Vector2;
use pursuit_core::world::World;

const W: i64 = 327680;
const H: i64 = 245760;
const CX: i64 = 163840;
const CY: i64 = 122880;
const R: i64 = 98304;
const BODY: i64 = 1280;

fn reference_world() -> World {
    World::new(W, H, BODY, 512, BODY, 4)
}

fn right() -> InputSnapshot {
    InputSnapshot::Directional { horizontal: AxisSignal::Positive, vertical: AxisSignal::Neutral }
}

fn down() -> InputSnapshot {
    InputSnapshot::Directional { horizontal: AxisSignal::Neutral, vertical: AxisSignal::Positive }
}

fn up() -> InputSnapshot {
    InputSnapshot::Directional { horizontal: AxisSignal::Neutral, vertical: AxisSignal::Negative }
}

fn idle() -> InputSnapshot {
    InputSnapshot::Directional { horizontal: AxisSignal::Neutral, vertical: AxisSignal::Neutral }
}

fn fdist(a: Vector2, b: Vector2) -> f64 {
    (((a.x - b.x) * (a.x - b.x) + (a.y - b.y) * (a.y - b.y)) as f64).sqrt()
}

#[test]
fn construction_matches_the_reference_geometry() {
    let w = reference_world();
    let arena = w.arena();
    assert_eq!(arena.center, Vector2::new(CX, CY));
    assert_eq!(arena.radius, R);
    assert_eq!(w.runner().position, Vector2::new(CX, CY));
    assert_eq!(w.runner().speed, 512);
    assert_eq!(w.chaser().speed, 2048);
    assert_eq!(w.chaser_position(), Vector2::new(CX, CY - R));
    assert_eq!(w.outcome(), RoundOutcome::Playing);
    let ring = w.guide_ring();
    assert_eq!(ring.position, Vector2::new(CX, CY));
    assert_eq!(ring.radius, R / 4);
}

#[test]
fn first_tick_moves_the_chaser_along_the_circle_not_straight_at_the_runner() {
    let mut w = reference_world();
    let start = w.chaser_position();
    w.advance(right());
    assert_eq!(w.runner().position, Vector2::new(CX + 512, CY));
    let moved = w.chaser_position();
    // Expected: eight pixels of arc from the top of the circle toward
    // the runner's new bearing.
    let theta = 1.5 * std::f64::consts::PI + 2048.0 / (R as f64);
    let ex = CX as f64 + (R as f64) * theta.cos();
    let ey = CY as f64 + (R as f64) * theta.sin();
    assert!((moved.x as f64 - ex).abs() < 512.0, "x {} vs {}", moved.x, ex);
    assert!((moved.y as f64 - ey).abs() < 512.0, "y {} vs {}", moved.y, ey);
    // Still on the circle, and a speed's worth of arc from the start.
    let d = fdist(moved, w.arena().center);
    assert!(d <= R as f64 && (R as f64) - d < 16.0);
    // Not the point eight pixels straight toward the runner.
    let to_runner = fdist(start, w.runner().position);
    let straight = Vector2::new(
        start.x + ((w.runner().position.x - start.x) as f64 * 2048.0 / to_runner) as i64,
        start.y + ((w.runner().position.y - start.y) as f64 * 2048.0 / to_runner) as i64,
    );
    assert!(fdist(moved, straight) > 1024.0);
}

#[test]
fn pursuit_stays_on_the_circle_and_respects_the_arc_bound() {
    let mut w = reference_world();
    let mut prev_bearing = w.chaser().bearing;
    let mut prev_pos = w.chaser_position();
    for tick in 0..120 {
        w.advance(down());
        let pos = w.chaser_position();
        let d = fdist(pos, w.arena().center);
        assert!(d <= R as f64, "left the circle at tick {}", tick);
        assert!((R as f64) - d < 16.0, "fell inside the circle at tick {}", tick);
        // Arc turned this tick, from the exact bearings: never more
        // than the chaser's speed.
        let mut turned = (w.chaser().bearing - prev_bearing).abs();
        turned = turned.min(1048576 - turned);
        let arc = turned as f64 / 1048576.0 * std::f64::consts::TAU * (R as f64);
        assert!(arc <= 2048.0 + 1.0, "arc {} at tick {}", arc, tick);
        // While the gap stays wide the chaser spends its whole speed.
        assert!(arc >= 2048.0 - 8.0, "arc {} at tick {}", arc, tick);
        // The chord includes the trigonometric placement error of both
        // endpoints, up to about a pixel on this radius.
        let chord = fdist(pos, prev_pos);
        assert!(chord <= 2048.0 + 384.0, "chord {} at tick {}", chord, tick);
        prev_bearing = w.chaser().bearing;
        prev_pos = pos;
        if w.outcome() != RoundOutcome::Playing {
            break;
        }
    }
}

#[test]
fn full_catchup_lands_exactly_on_the_runner_bearing() {
    let mut w = reference_world();
    // Walk fifty pixels right, then hold still; the chaser closes the
    // quarter-turn gap a step at a time and finally snaps onto the
    // runner's exact bearing: the rightmost point of the circle.
    for _ in 0..50 {
        w.advance(right());
    }
    for _ in 0..500 {
        w.advance(idle());
    }
    assert_eq!(w.outcome(), RoundOutcome::Playing);
    assert_eq!(w.runner().position, Vector2::new(CX + 50 * 512, CY));
    assert_eq!(w.chaser_position(), Vector2::new(CX + R, CY));
}

#[test]
fn runner_wins_exactly_when_it_first_leaves_the_arena() {
    // Speed ratio one: the chaser starts opposite and cannot catch up.
    let mut w = World::new(W, H, BODY, 512, BODY, 1);
    for _ in 0..192 {
        w.advance(down());
        assert_eq!(w.outcome(), RoundOutcome::Playing);
    }
    // 192 ticks of 2 pixels reach the boundary exactly: not yet out.
    assert_eq!(w.runner().position, Vector2::new(CX, CY + R));
    w.advance(down());
    assert_eq!(w.outcome(), RoundOutcome::RunnerWins);
}

#[test]
fn chaser_wins_on_contact_and_reset_restores_the_round() {
    let mut w = reference_world();
    // Straight up into the waiting chaser: bodies of five pixels each
    // touch when the centers come within ten pixels.
    let mut ticks = 0;
    while w.outcome() == RoundOutcome::Playing {
        w.advance(up());
        ticks += 1;
        assert!(ticks < 500, "no contact");
    }
    assert_eq!(w.outcome(), RoundOutcome::ChaserWins);
    assert_eq!(ticks, 188);
    let frozen = w.runner().position;
    // A terminal round ignores further input.
    w.advance(down());
    w.advance(right());
    assert_eq!(w.runner().position, frozen);
    assert_eq!(w.outcome(), RoundOutcome::ChaserWins);
    // Reset restores the initial placement and a live round.
    w.reset();
    assert_eq!(w.outcome(), RoundOutcome::Playing);
    assert_eq!(w.runner().position, Vector2::new(CX, CY));
    assert_eq!(w.chaser_position(), Vector2::new(CX, CY - R));
}

#[test]
fn simultaneous_contact_and_exit_goes_to_the_chaser() {
    // A runner fast enough to jump from clear of the chaser to past
    // the boundary in one tick, landing on the chaser's body: both
    // winning conditions hold in that tick, and the chaser's takes
    // precedence.
    let mut w = World::new(W, H, BODY, 4352, BODY, 4);
    for _ in 0..22 {
        w.advance(up());
        assert_eq!(w.outcome(), RoundOutcome::Playing);
    }
    let run = w.runner().position;
    let cha = w.chaser_position();
    assert_eq!(cha.y - run.y, -2560);
    w.advance(up());
    // Now both: out of the arena, and touching the chaser.
    let run = w.runner().position;
    assert!(fdist(run, w.arena().center) > R as f64);
    assert!(fdist(run, w.chaser_position()) < 2560.0);
    assert_eq!(w.outcome(), RoundOutcome::ChaserWins);
}

#[test]
fn resizing_twice_changes_nothing_the_second_time() {
    let mut w = reference_world();
    for _ in 0..30 {
        w.advance(right());
    }
    let nw = 256000;
    let nh = 204800;
    assert!(w.accepts_resize(nw, nh));
    w.on_resize(nw, nh);
    let arena1 = w.arena();
    let runner1 = w.runner();
    let chaser1 = w.chaser();
    let outcome1 = w.outcome();
    assert!(w.accepts_resize(nw, nh));
    w.on_resize(nw, nh);
    assert_eq!(w.arena(), arena1);
    assert_eq!(w.runner(), runner1);
    assert_eq!(w.chaser(), chaser1);
    assert_eq!(w.outcome(), outcome1);
}

#[test]
fn resizing_scales_geometry_by_the_height_ratio() {
    let mut w = reference_world();
    for _ in 0..10 {
        w.advance(right());
    }
    // 960 to 480 pixels: everything halves.
    let nw = 163840;
    let nh = 122880;
    assert!(w.accepts_resize(nw, nh));
    w.on_resize(nw, nh);
    let arena = w.arena();
    assert_eq!(arena.center, Vector2::new(81920, 61440));
    assert_eq!(arena.radius, R / 2);
    assert_eq!(w.runner().speed, 256);
    assert_eq!(w.chaser().speed, 1024);
    assert_eq!(w.runner().radius, BODY / 2);
    // The runner was 10 double-pixel steps right of center.
    assert_eq!(w.runner().position, Vector2::new(81920 + 2560, 61440));
    // The chaser's speed ratio over the runner survives the rescale.
    assert_eq!(w.chaser().speed, 4 * w.runner().speed);
}

#[test]
fn a_rescale_cannot_flip_a_clear_verdict() {
    let mut w = reference_world();
    for _ in 0..10 {
        w.advance(right());
    }
    // Clearly inside the arena and clear of the chaser.
    for &(nw, nh) in [(163840i64, 122880i64), (655360, 491520), (327680, 245760)].iter() {
        assert!(w.accepts_resize(nw, nh));
        w.on_resize(nw, nh);
        assert_eq!(w.outcome(), RoundOutcome::Playing);
        let arena = w.arena();
        let run = w.runner().position;
        let d_center = fdist(run, arena.center);
        assert!(d_center < arena.radius as f64);
        let d_chaser = fdist(run, w.chaser_position());
        assert!(d_chaser > (w.runner().radius + w.chaser().radius) as f64);
    }
}

#[test]
fn an_undersized_rescale_is_refused() {
    let w = reference_world();
    assert!(!w.accepts_resize(4, 245760));
    assert!(!w.accepts_resize(327680, 4));
}

#[test]
fn pointer_input_drives_the_runner_at_world_level() {
    let mut w = reference_world();
    let target = Vector2::new(CX + 2560, CY);
    for _ in 0..5 {
        w.advance(InputSnapshot::Pointer { target });
    }
    assert_eq!(w.runner().position, target);
    assert_eq!(w.outcome(), RoundOutcome::Playing);
}

#[test]
fn a_terminal_round_still_rescales() {
    let mut w = reference_world();
    while w.outcome() == RoundOutcome::Playing {
        w.advance(up());
    }
    assert_eq!(w.outcome(), RoundOutcome::ChaserWins);
    let nw = 163840;
    let nh = 122880;
    assert!(w.accepts_resize(nw, nh));
    w.on_resize(nw, nh);
    assert_eq!(w.outcome(), RoundOutcome::ChaserWins);
    assert_eq!(w.arena().radius, R / 2);
    assert_eq!(w.runner().speed, 256);
}

#[test]
fn pointer_targets_within_the_surface_are_in_range() {
    let fine = InputSnapshot::Pointer { target: Vector2::new(W, H) };
    assert!(check_input_in_range(fine));
    assert!(check_input_in_range(idle()));
    let absurd = InputSnapshot::Pointer { target: Vector2::new(1 << 40, 0) };
    assert!(!check_input_in_range(absurd));
}

#[test]
fn runner_at_the_center_leaves_the_chaser_in_place() {
    let mut w = reference_world();
    // With no input the runner sits exactly at the center: the pursuit
    // direction is undefined, and the tick skips the chaser update.
    let before = w.chaser_position();
    w.advance(idle());
    assert_eq!(w.chaser_position(), before);
    assert_eq!(w.outcome(), RoundOutcome::Playing);
}
