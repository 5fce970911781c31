//! The continuous-collision solver and the reflection law on concrete
//! geometry.

use pong::collide::{collides, reflect};

#[test]
fn head_on_contact_at_half_step() {
    // Ball centre at (100, 150) moving 200 units right; a vertical segment
    // at x = 200 spanning the full arena height.  The path crosses the
    // segment halfway along both the path and the segment.
    let r = collides(100_000, 150_000, 200_000, 0, 200_000, 0, 0, 300_000);
    assert_eq!(r, Some((500, 500)));
}

#[test]
fn contact_fraction_quarters() {
    // Same segment, but the ball starts three quarters of the way up.
    let r = collides(100_000, 225_000, 200_000, 0, 200_000, 0, 0, 300_000);
    assert_eq!(r, Some((500, 750)));
}

#[test]
fn no_contact_when_moving_away() {
    let r = collides(100_000, 150_000, -200_000, 0, 200_000, 0, 0, 300_000);
    assert_eq!(r, None);
}

#[test]
fn no_contact_when_step_falls_short() {
    // The displacement ends before the segment's supporting line.
    let r = collides(100_000, 150_000, 50_000, 0, 200_000, 0, 0, 300_000);
    assert_eq!(r, None);
}

#[test]
fn no_contact_outside_segment_bounds() {
    // The path crosses the supporting line below the segment.
    let r = collides(100_000, 150_000, 200_000, 0, 200_000, 200_000, 0, 100_000);
    assert_eq!(r, None);
}

#[test]
fn degenerate_segment_never_collides() {
    let r = collides(100_000, 150_000, 200_000, 0, 200_000, 0, 0, 0);
    assert_eq!(r, None);
    // Shorter than one arena unit counts as degenerate too.
    let r = collides(100_000, 150_000, 200_000, 0, 200_000, 0, 0, 999);
    assert_eq!(r, None);
}

#[test]
fn wall_reflection_flips_one_component() {
    // Normal pointing down from the top wall.
    assert_eq!(reflect(300_000, 400_000, 0, -1000), (300_000, -400_000));
    // Normal pointing up from the bottom wall.
    assert_eq!(reflect(300_000, -400_000, 0, 1000), (300_000, 400_000));
    // Goal borders reflect horizontally.
    assert_eq!(reflect(-300_000, 150_000, 1000, 0), (300_000, 150_000));
}

#[test]
fn wall_reflection_preserves_speed_magnitude() {
    let (vx, vy) = (300_000i64, 400_000i64);
    let (rx, ry) = reflect(vx, vy, 0, -1000);
    assert_eq!(rx * rx + ry * ry, vx * vx + vy * vy);
}

#[test]
fn curved_reflection_changes_angle() {
    // A paddle-style normal with a vertical part: the reflected velocity
    // gains a vertical component.
    let (rx, ry) = reflect(-300_000, 0, 1000, 250);
    assert!(rx > 0);
    assert!(ry != 0);
}
