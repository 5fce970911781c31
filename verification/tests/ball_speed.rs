//! The speed/slope-clamped velocity normalisation.

use pong::ball::Ball;
use pong::geom::Rect;

fn ball_at_rest() -> Ball {
    Ball {
        bound: Rect { x: 295_000, y: 145_000, width: 10_000, height: 10_000 },
        dx: 0,
        dy: 0,
    }
}

#[test]
fn plain_horizontal_velocity_is_kept() {
    let mut b = ball_at_rest();
    b.set_speed(300_000, 0);
    assert_eq!((b.dx, b.dy), (300_000, 0));
}

#[test]
fn speed_magnitude_clamps_to_maximum() {
    let mut b = ball_at_rest();
    b.set_speed(1_000_000, 0);
    assert_eq!((b.dx, b.dy), (800_000, 0));
}

#[test]
fn slope_clamps_to_unit_diagonal() {
    // Slope 2.0 exceeds the limit of 1.0: the velocity is renormalised to
    // the diagonal with the same magnitude, truncated.
    let mut b = ball_at_rest();
    b.set_speed(300_000, 600_000);
    assert_eq!((b.dx, b.dy), (474_077, 474_077));
    // Within both limits the clamp still truncates through the
    // normalisation, but keeps slope and sign.
    let dx2 = b.dx;
    let dy2 = b.dy;
    assert!(dx2 * dx2 + dy2 * dy2 <= 800_000 * 800_000);
}

#[test]
fn sign_of_horizontal_travel_is_preserved() {
    let mut b = ball_at_rest();
    b.set_speed(-300_000, 300_000);
    assert_eq!((b.dx, b.dy), (-299_833, 299_833));
}

#[test]
fn vertical_velocity_stays_vertical() {
    let mut b = ball_at_rest();
    b.set_speed(0, 400_000);
    assert_eq!((b.dx, b.dy), (0, 400_000));
    b.set_speed(0, -900_000);
    assert_eq!((b.dx, b.dy), (0, -800_000));
}

#[test]
fn zero_velocity_is_a_fixed_point() {
    let mut b = ball_at_rest();
    b.set_speed(0, 0);
    assert_eq!((b.dx, b.dy), (0, 0));
}

#[test]
fn clamps_hold_for_extreme_inputs() {
    let cases: [(i64, i64); 6] = [
        (4_000_000, 4_000_000),
        (-4_000_000, 4_000_000),
        (1, 4_000_000),
        (-1, -4_000_000),
        (4_000_000, -1),
        (123_456, 654_321),
    ];
    for &(dx, dy) in cases.iter() {
        let mut b = ball_at_rest();
        b.set_speed(dx, dy);
        assert!(b.dx * b.dx + b.dy * b.dy <= 800_000 * 800_000);
        if dx != 0 {
            assert!(b.dy.abs() <= b.dx.abs());
        }
    }
}
