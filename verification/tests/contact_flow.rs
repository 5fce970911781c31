//! Ticks in which the ball actually strikes a collider: paddle contacts
//! with their speed-up and freeze timer, and plain wall bounces.

use pong::board::Board;

#[test]
fn paddle_contact_speeds_the_ball_up() {
    let mut b = Board::new();
    b.start_game(true);
    // Ball just right of the player paddle's face (the plane x = 20),
    // moving left, dead centre on the face.
    b.ball.bound.x = 30_000;
    b.ball.bound.y = 145_000;
    b.ball.dx = -300_000;
    b.ball.dy = 0;
    let ev = b.update(100);
    assert!(ev.hit_paddle);
    assert!(ev.hit_any);
    assert!(!ev.scored);
    // Centre contact reflects straight back, sped up by 1.05.
    assert_eq!(b.ball.dx, 315_000);
    assert_eq!(b.ball.dy, 0);
    // The contact lies halfway through the displacement: the ball advanced
    // to the face and the rest of the tick fell inside the freeze window.
    assert_eq!(b.ball.bound.x, 15_000);
}

#[test]
fn paddle_contact_arms_the_freeze_timer() {
    let mut b = Board::new();
    b.start_game(true);
    b.ball.bound.x = 30_000;
    b.ball.bound.y = 145_000;
    b.ball.dx = -300_000;
    b.ball.dy = 0;
    // The contact happens 55.5% into a 90 ms tick; the 40 ms that remain
    // fall inside the 50 ms freeze window, so travel stops and the timer
    // keeps the rest.
    let ev = b.update(90);
    assert!(ev.hit_paddle);
    assert_eq!(b.delay, 10);
    assert_eq!(b.ball.dx, 315_000);
    assert_eq!(b.ball.bound.x, 15_015);
    // A short tick is wholly absorbed by the timer.
    let ev = b.update(5);
    assert!(!ev.hit_any);
    assert_eq!(b.delay, 5);
    assert_eq!(b.ball.bound.x, 15_015);
    // A longer tick spends the timer first, then travels the remainder.
    let ev = b.update(20);
    assert!(!ev.hit_any);
    assert_eq!(b.delay, 0);
    assert_eq!(b.ball.bound.x, 15_015 + 4_725);
}

#[test]
fn moving_paddle_imparts_spin() {
    let mut b = Board::new();
    b.start_game(true);
    b.ball.bound.x = 30_000;
    b.ball.bound.y = 145_000;
    b.ball.dx = -300_000;
    b.ball.dy = 0;
    // A paddle sweeping upward through the contact bends the reflection.
    b.lhs_paddle.dy = 400_000;
    let ev = b.update(100);
    assert!(ev.hit_paddle);
    assert!(b.ball.dx > 0);
    assert_ne!(b.ball.dy, 0);
}

#[test]
fn wall_bounce_reports_a_plain_contact() {
    let mut b = Board::new();
    b.start_game(false);
    // Up-and-right at unit slope, close under the top wall.
    b.ball.bound.y = 280_000;
    b.ball.dy = 300_000;
    let ev = b.update(100);
    assert!(ev.hit_any);
    assert!(!ev.hit_paddle);
    assert!(!ev.scored);
    // The wall flips the vertical component; the renormalisation then
    // truncates both components at the same diagonal magnitude.
    assert_eq!(b.ball.dx, 299_833);
    assert_eq!(b.ball.dy, -299_833);
    assert_eq!(b.ball.bound.x, 324_778);
    assert_eq!(b.ball.bound.y, 270_202);
}
