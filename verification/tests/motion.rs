//! Tests of the runner's two motion modes, in sub-pixel units
//! (256 units to a pixel).

use pursuit_core::input::{AxisSignal, InputSnapshot};
use pursuit_core::runner::Runner;
use pursuit_core::vector::Vector2;

fn dist(a: Vector2, b: Vector2) -> f64 {
    (((a.x - b.x) * (a.x - b.x) + (a.y - b.y) * (a.y - b.y)) as f64).sqrt()
}

#[test]
fn axis_aligned_step_is_exactly_one_speed() {
    let mut r = Runner::new(Vector2::new(10000, 20000), 1280, 512);
    r.step(InputSnapshot::Directional {
        horizontal: AxisSignal::Positive,
        vertical: AxisSignal::Neutral,
    });
    assert_eq!(r.position, Vector2::new(10512, 20000));
    r.step(InputSnapshot::Directional {
        horizontal: AxisSignal::Neutral,
        vertical: AxisSignal::Negative,
    });
    assert_eq!(r.position, Vector2::new(10512, 19488));
}

#[test]
fn diagonal_step_magnitude_matches_axis_aligned_speed() {
    for &speed in [512i64, 2048, 300, 77, 1].iter() {
        let start = Vector2::new(50000, 50000);
        let mut r = Runner::new(start, 1280, speed);
        r.step(InputSnapshot::Directional {
            horizontal: AxisSignal::Positive,
            vertical: AxisSignal::Negative,
        });
        let moved = dist(r.position, start);
        assert!(moved <= speed as f64 + 1e-9);
        assert!(
            speed as f64 - moved < 2.5,
            "diagonal step {} for speed {}",
            moved,
            speed
        );
        assert_eq!(r.position.x - start.x, start.y - r.position.y);
    }
}

#[test]
fn neutral_input_does_not_move() {
    let start = Vector2::new(12345, -678);
    let mut r = Runner::new(start, 1280, 512);
    r.step(InputSnapshot::Directional {
        horizontal: AxisSignal::Neutral,
        vertical: AxisSignal::Neutral,
    });
    assert_eq!(r.position, start);
}

#[test]
fn pointer_step_advances_exactly_one_speed_along_the_axis() {
    let mut r = Runner::new(Vector2::new(0, 0), 1280, 512);
    r.step(InputSnapshot::Pointer { target: Vector2::new(2560, 0) });
    assert_eq!(r.position, Vector2::new(512, 0));
}

#[test]
fn pointer_step_never_overshoots() {
    // A 3-4-5 offset: the distance to the target shrinks by exactly the
    // speed, up to a few sub-pixel units of rounding.
    let target = Vector2::new(3000, 4000);
    let mut r = Runner::new(Vector2::new(0, 0), 1280, 512);
    assert_eq!(dist(r.position, target), 5000.0);
    for _ in 0..10 {
        let before = dist(r.position, target);
        r.step(InputSnapshot::Pointer { target });
        let after = dist(r.position, target);
        let expected = (before - 512.0).max(0.0);
        assert!(
            (after - expected).abs() < 4.0,
            "distance {} after a step from {}",
            after,
            before
        );
    }
    assert_eq!(r.position, target);
}

#[test]
fn pointer_snaps_when_within_one_step() {
    let target = Vector2::new(300, -100);
    let mut r = Runner::new(Vector2::new(0, 0), 1280, 512);
    r.step(InputSnapshot::Pointer { target });
    assert_eq!(r.position, target);
    // And stays there: the fixed point of pointer motion is the target.
    r.step(InputSnapshot::Pointer { target });
    assert_eq!(r.position, target);
}
