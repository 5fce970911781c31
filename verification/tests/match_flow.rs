//! Match-level behaviour: round resets, scoring, win detection and the
//! freeze timer.

use pong::board::Board;

#[test]
fn fresh_match_state() {
    let b = Board::new();
    assert_eq!((b.lhs_score, b.rhs_score), (0, 0));
    assert_eq!((b.width, b.height), (600_000, 300_000));
    assert_eq!((b.lhs_goal_height, b.rhs_goal_height), (240_000, 240_000));
    assert_eq!(b.lhs_paddle.bound.x, 5_000);
    assert_eq!(b.rhs_paddle.bound.x, 585_000);
    assert_eq!((b.lhs_paddle.bound.y, b.rhs_paddle.bound.y), (120_000, 120_000));
    assert_eq!((b.ball.bound.x, b.ball.bound.y), (295_000, 145_000));
    assert_eq!((b.ball.dx, b.ball.dy), (0, 0));
}

#[test]
fn round_reset_serves_toward_chosen_side() {
    let mut b = Board::new();
    b.start_game(true);
    assert_eq!(b.ball.dx, -300_000);
    assert_eq!(b.ball.dy, 0);
    assert_eq!((b.ball.bound.x, b.ball.bound.y), (295_000, 145_000));
    b.start_game(false);
    assert_eq!(b.ball.dx, 300_000);
}

#[test]
fn round_reset_keeps_scores() {
    let mut b = Board::new();
    b.lhs_score = 3;
    b.rhs_score = 7;
    b.start_game(true);
    assert_eq!((b.lhs_score, b.rhs_score), (3, 7));
}

#[test]
fn round_reset_is_idempotent() {
    let mut b = Board::new();
    b.lhs_score = 2;
    b.ball.bound.y = 222_000;
    b.lhs_paddle.bound.y = 10_000;
    b.ai_accum_offset = 55;
    b.start_game(true);
    let once = b;
    b.start_game(true);
    assert_eq!(b, once);
}

#[test]
fn winner_is_the_side_at_the_threshold() {
    let mut b = Board::new();
    assert_eq!(b.winner(), None);
    b.lhs_score = 9;
    b.rhs_score = 9;
    assert_eq!(b.winner(), None);
    b.lhs_score = 10;
    assert_eq!(b.winner(), Some(true));
    b.lhs_score = 4;
    b.rhs_score = 10;
    assert_eq!(b.winner(), Some(false));
}

#[test]
fn crossing_the_right_boundary_scores_for_the_left() {
    let mut b = Board::new();
    b.start_game(false);
    b.ball.bound.x = 599_000;
    let ev = b.update(1_000);
    assert!(ev.scored);
    assert_eq!((b.lhs_score, b.rhs_score), (1, 0));
    // The ball is back at the arena's horizontal centre, serving toward the
    // side that was scored upon.
    assert_eq!(b.ball.bound.x, 295_000);
    assert_eq!(b.ball.dx, 300_000);
}

#[test]
fn crossing_the_left_boundary_scores_for_the_right() {
    let mut b = Board::new();
    b.start_game(true);
    b.ball.bound.x = 1_000;
    let ev = b.update(1_000);
    assert!(ev.scored);
    assert_eq!((b.lhs_score, b.rhs_score), (0, 1));
    assert_eq!(b.ball.bound.x, 295_000);
    assert_eq!(b.ball.dx, -300_000);
}

#[test]
fn a_ball_inside_the_arena_scores_nothing() {
    let mut b = Board::new();
    b.start_game(false);
    let ev = b.update(16);
    assert!(!ev.scored);
    assert_eq!((b.lhs_score, b.rhs_score), (0, 0));
    // Linear motion while nothing is hit: 300 units/s for 16 ms.
    assert_eq!(b.ball.bound.x, 295_000 + 4_800);
    assert_eq!(b.ball.bound.y, 145_000);
}

#[test]
fn vertical_ball_bounces_elastically_between_the_walls() {
    let mut b = Board::new();
    b.start_game(true);
    b.ball.dx = 0;
    b.ball.dy = 400_000;
    for _ in 0..50 {
        let ev = b.update(100);
        // The ball never reaches a paddle or a goal border: their normals
        // are horizontal and the skip test passes them over.
        assert!(!ev.hit_paddle);
        assert!(!ev.scored);
        // Pure elastic wall play: speed magnitude and verticality are kept.
        assert_eq!(b.ball.dx, 0);
        assert_eq!(b.ball.dy.abs(), 400_000);
        assert!(b.ball.bound.y >= 0);
        assert!(b.ball.bound.y + b.ball.bound.height <= 300_000);
    }
}

#[test]
fn armed_freeze_timer_absorbs_the_tick() {
    let mut b = Board::new();
    b.start_game(false);
    b.delay = 30;
    let before = b;
    let ev = b.update(10);
    assert!(!ev.scored && !ev.hit_any && !ev.hit_paddle);
    assert_eq!(b.delay, 20);
    assert_eq!(b.ball, before.ball);
    assert_eq!(b.lhs_paddle, before.lhs_paddle);
    assert_eq!(b.rhs_paddle, before.rhs_paddle);
}

#[test]
fn zero_length_tick_changes_nothing() {
    let mut b = Board::new();
    b.start_game(true);
    let before = b;
    let ev = b.update(0);
    assert_eq!(b, before);
    assert!(!ev.scored && !ev.hit_any && !ev.hit_paddle);
}

#[test]
fn controller_accumulator_resets_on_offset_sign_flip() {
    let mut b = Board::new();
    b.start_game(false);
    // Ball travelling toward the controlled paddle, well below its centre:
    // the offset is negative, and the fresh accumulator (whose zero counts
    // as positive) resets rather than accumulating.
    b.ball.bound.y = 50_000;
    b.update(1);
    assert_eq!(b.ai_last_offset, -95_000);
    assert_eq!(b.ai_accum_offset, 0);
}

#[test]
fn controller_accumulator_grows_while_sign_holds() {
    let mut b = Board::new();
    b.start_game(false);
    // Ball above the paddle's centre: positive offset accumulates.
    b.ball.bound.y = 200_000;
    b.update(1);
    assert_eq!(b.ai_last_offset, 55_000);
    assert_eq!(b.ai_accum_offset, 55_000);
}

#[test]
fn controller_tracks_the_midline_while_ball_travels_away() {
    let mut b = Board::new();
    b.start_game(true);
    // Ball moving left: the target is the arena midline, which matches the
    // paddle's starting centre, so the offset is zero.
    b.ball.bound.y = 200_000;
    b.update(1);
    assert_eq!(b.ai_last_offset, 0);
}
