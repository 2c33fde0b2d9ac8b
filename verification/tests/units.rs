//! Unit tests for the arithmetic, trigonometric and input primitives.

use pursuit_core::angle::{bearing_add, bearing_delta, FULL_TURN, HALF_TURN, QUARTER_TURN};
use pursuit_core::input::{resolve_axis, AxisSignal};
use pursuit_core::layout::centered_box_position;
use pursuit_core::num::{div_trunc, isqrt};
use pursuit_core::trig::{bearing_of_vec, circle_point_at, sin_cos_units, SIN_ONE};
use pursuit_core::vector::Vector2;
use pursuit_core::world::clamp_surface_size;

#[test]
fn isqrt_brackets_its_argument() {
    assert_eq!(isqrt(0), 0);
    assert_eq!(isqrt(1), 1);
    assert_eq!(isqrt(2), 1);
    assert_eq!(isqrt(3), 1);
    assert_eq!(isqrt(4), 2);
    assert_eq!(isqrt(131072), 362);
    assert_eq!(isqrt(99999999), 9999);
    assert_eq!(isqrt(10000019), 3162);
}

#[test]
fn division_truncates_toward_zero() {
    assert_eq!(div_trunc(7, 2), 3);
    assert_eq!(div_trunc(-7, 2), -3);
    assert_eq!(div_trunc(6, 3), 2);
    assert_eq!(div_trunc(-6, 3), -2);
    assert_eq!(div_trunc(0, 5), 0);
}

#[test]
fn vector_arithmetic_is_componentwise() {
    let a = Vector2::new(3, -4);
    let b = Vector2::new(10, 2);
    assert_eq!(a.add(b), Vector2::new(13, -2));
    assert_eq!(b.sub(a), Vector2::new(7, 6));
    assert_eq!(a.magnitude_sq(), 25);
    assert_eq!(a.distance_sq(b), 49 + 36);
}

#[test]
fn negative_direction_wins_on_an_axis() {
    assert_eq!(resolve_axis(true, true), AxisSignal::Negative);
    assert_eq!(resolve_axis(true, false), AxisSignal::Negative);
    assert_eq!(resolve_axis(false, true), AxisSignal::Positive);
    assert_eq!(resolve_axis(false, false), AxisSignal::Neutral);
}

#[test]
fn sine_and_cosine_are_exact_on_the_axes() {
    assert_eq!(sin_cos_units(0), (SIN_ONE, 0));
    assert_eq!(sin_cos_units(QUARTER_TURN), (0, SIN_ONE));
    assert_eq!(sin_cos_units(HALF_TURN), (-SIN_ONE, 0));
    assert_eq!(sin_cos_units(3 * QUARTER_TURN), (0, -SIN_ONE));
}

#[test]
fn sine_and_cosine_stay_near_the_unit_circle() {
    let mut a: i64 = 0;
    while a < FULL_TURN {
        let (c, s) = sin_cos_units(a);
        let norm = c * c + s * s;
        assert!(norm <= SIN_ONE * SIN_ONE);
        assert!(norm > SIN_ONE * SIN_ONE - 2 * SIN_ONE - 1);
        let exact = ((a as f64) / (FULL_TURN as f64) * std::f64::consts::TAU).sin();
        let approx = (s as f64) / (SIN_ONE as f64);
        assert!((exact - approx).abs() < 0.002, "sin off at {}: {} vs {}", a, approx, exact);
        a += 4099;
    }
}

#[test]
fn bearings_of_axis_directions_are_exact() {
    assert_eq!(bearing_of_vec(Vector2::new(5, 0)), 0);
    assert_eq!(bearing_of_vec(Vector2::new(0, 7)), QUARTER_TURN);
    assert_eq!(bearing_of_vec(Vector2::new(-3, 0)), HALF_TURN);
    assert_eq!(bearing_of_vec(Vector2::new(0, -2)), 3 * QUARTER_TURN);
    assert_eq!(bearing_of_vec(Vector2::new(9, 9)), FULL_TURN / 8);
}

#[test]
fn bearing_of_matches_atan2_closely() {
    let probes = [(961, 7), (533, -7), (-890, 412), (-23, -900), (17, 1000), (4, -4)];
    for &(x, y) in probes.iter() {
        let b = bearing_of_vec(Vector2::new(x, y));
        let exact = (y as f64).atan2(x as f64).rem_euclid(std::f64::consts::TAU);
        let approx = (b as f64) / (FULL_TURN as f64) * std::f64::consts::TAU;
        let mut diff = (exact - approx).abs();
        if diff > std::f64::consts::PI {
            diff = std::f64::consts::TAU - diff;
        }
        assert!(diff < 0.005, "bearing off for ({}, {}): {} vs {}", x, y, approx, exact);
    }
}

#[test]
fn bearing_difference_wraps_and_breaks_ties_positively() {
    assert_eq!(bearing_delta(0, 3 * QUARTER_TURN), QUARTER_TURN);
    assert_eq!(bearing_delta(3 * QUARTER_TURN, 0), -QUARTER_TURN);
    assert_eq!(bearing_delta(HALF_TURN, 0), HALF_TURN);
    assert_eq!(bearing_delta(0, HALF_TURN), HALF_TURN);
    assert_eq!(bearing_delta(100, 100), 0);
}

#[test]
fn bearing_addition_wraps_around_the_turn() {
    assert_eq!(bearing_add(FULL_TURN - 1, 2), 1);
    assert_eq!(bearing_add(1, -2), FULL_TURN - 1);
    assert_eq!(bearing_add(QUARTER_TURN, QUARTER_TURN), HALF_TURN);
}

#[test]
fn circle_points_on_the_axes_are_exact() {
    let c = Vector2::new(1000, 2000);
    assert_eq!(circle_point_at(c, 500, 0), Vector2::new(1500, 2000));
    assert_eq!(circle_point_at(c, 500, QUARTER_TURN), Vector2::new(1000, 2500));
    assert_eq!(circle_point_at(c, 500, HALF_TURN), Vector2::new(500, 2000));
    assert_eq!(circle_point_at(c, 500, 3 * QUARTER_TURN), Vector2::new(1000, 1500));
}

#[test]
fn clamping_raises_each_undersized_dimension() {
    assert_eq!(clamp_surface_size(500, 900, 640, 640), (640, 900));
    assert_eq!(clamp_surface_size(900, 500, 640, 640), (900, 640));
    assert_eq!(clamp_surface_size(500, 500, 640, 640), (640, 640));
    assert_eq!(clamp_surface_size(900, 900, 640, 640), (900, 900));
    assert_eq!(clamp_surface_size(640, 640, 640, 640), (640, 640));
}

#[test]
fn end_text_is_centered() {
    assert_eq!(centered_box_position(1280, 960, 300, 64, 50), ((1280 - 300) / 2, 480 - 32));
    assert_eq!(centered_box_position(1280, 960, 500, 32, 75), (390, 720 - 16));
    assert_eq!(centered_box_position(100, 100, 300, 10, 50), (-100, 45));
}
