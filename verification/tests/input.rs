//! Key-event mapping onto the player paddle and the debug aids.

use pong::board::{Board, Key};

#[test]
fn direction_keys_set_player_acceleration() {
    let mut b = Board::new();
    b.handle_input(Key::Up, true);
    assert_eq!(b.lhs_paddle.ddy, 2_000_000);
    b.handle_input(Key::Down, true);
    assert_eq!(b.lhs_paddle.ddy, -2_000_000);
}

#[test]
fn releasing_a_key_clears_only_its_own_direction() {
    let mut b = Board::new();
    b.handle_input(Key::Up, true);
    b.handle_input(Key::Down, true);
    // Releasing the first key must not cancel acceleration set by the
    // opposite key still held.
    b.handle_input(Key::Up, false);
    assert_eq!(b.lhs_paddle.ddy, -2_000_000);
    b.handle_input(Key::Down, false);
    assert_eq!(b.lhs_paddle.ddy, 0);
}

#[test]
fn key_releases_are_otherwise_inert() {
    let mut b = Board::new();
    b.handle_input(Key::Up, true);
    b.handle_input(Key::Down, false);
    assert_eq!(b.lhs_paddle.ddy, 2_000_000);
}

#[test]
fn override_toggle_flips_each_press() {
    let mut b = Board::new();
    b.handle_input(Key::ToggleBallSim, true);
    assert!(b.override_ball_sim);
    b.handle_input(Key::ToggleBallSim, true);
    assert!(!b.override_ball_sim);
}

#[test]
fn nudges_move_the_ball_only_under_override() {
    let mut b = Board::new();
    let y0 = b.ball.bound.y;
    b.handle_input(Key::NudgeUp, true);
    assert_eq!(b.ball.bound.y, y0);
    b.handle_input(Key::ToggleBallSim, true);
    b.handle_input(Key::NudgeUp, true);
    assert_eq!(b.ball.bound.y, y0 + 100_000);
    b.handle_input(Key::NudgeDown, true);
    b.handle_input(Key::NudgeDown, true);
    assert_eq!(b.ball.bound.y, y0 - 100_000);
}

#[test]
fn restart_key_resets_the_round() {
    let mut b = Board::new();
    b.handle_input(Key::Up, true);
    b.update(100);
    b.handle_input(Key::Restart, true);
    assert_eq!(b.ball.bound.x, 295_000);
    assert_eq!(b.ball.dx, -300_000);
    assert_eq!(b.lhs_paddle.bound.y, 120_000);
    assert_eq!(b.lhs_paddle.dy, 0);
}

#[test]
fn override_suspends_ball_travel() {
    let mut b = Board::new();
    b.start_game(false);
    b.handle_input(Key::ToggleBallSim, true);
    let x0 = b.ball.bound.x;
    let ev = b.update(100);
    assert!(!ev.scored);
    assert_eq!(b.ball.bound.x, x0);
}
