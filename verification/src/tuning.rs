//! Fixed tuning constants of the arena, in milliunits (see [`crate::fixed`]).
//!
//! The arena geometry and the physics limits are fixed at build time; no
//! runtime configuration exists.

use vstd::prelude::*;

verus! {

/// Arena width: 600 units.
pub const BOARD_WIDTH: i64 = 600_000;

/// Arena height: 300 units.
pub const BOARD_HEIGHT: i64 = 300_000;

/// Horizontal distance from a goal line to the centre of its paddle: 10 units.
pub const PADDLE_X_OFFSET: i64 = 10_000;

/// Paddle thickness: 10 units.
pub const PADDLE_WIDTH: i64 = 10_000;

/// Paddle length: 60 units.
pub const PADDLE_HEIGHT: i64 = 60_000;

/// Vertical size of each goal opening: 240 units.
pub const GOAL_HEIGHT: i64 = 240_000;

/// Ball radius: 5 units.
pub const BALL_RADIUS: i64 = 5_000;

/// Largest ball speed the reflection policy allows: 800 units per second.
pub const BALL_MAX_SPEED: i64 = 800_000;

/// Largest |dy/dx| slope the reflection policy allows: 1.0, scaled.
pub const BALL_MAX_SLOPE: i64 = 1_000;

/// Per-hit speed-up multiplier on paddle contacts: 1.05, scaled.
pub const BALL_SPEEDUP: i64 = 1_050;

/// Horizontal ball speed at the start of a round: 300 units per second.
pub const BALL_START_SPEED: i64 = 300_000;

/// Largest paddle speed: 500 units per second.
pub const PADDLE_MAX_SPEED: i64 = 500_000;

/// Per-millisecond exponential decay factor of paddle speed, scaled.
/// This is the thousandth root of a per-second friction coefficient of
/// 0.005, rounded to milliunits.
pub const PADDLE_FRICTION_MS: i64 = 995;

/// Fraction of a paddle's own speed imparted to the ball on contact: 0.3, scaled.
pub const PADDLE_BALL_INFLUENCE: i64 = 300;

/// Vertical spread of the paddle contact normal across the face: 0.5, scaled.
pub const PADDLE_CURVE: i64 = 500;

/// Acceleration applied while a player direction key is held: 2000 units/s^2.
pub const PLAYER_PADDLE_ACCEL: i64 = 2_000_000;

/// Freeze time after a paddle hit before ball travel resumes: 50 ms.
pub const HIT_DELAY: i64 = 50;

/// Proportional gain of the paddle controller (unitless).
pub const AI_PADDLE_P_FACTOR: i64 = 40;

/// Integral gain of the paddle controller: 0.1, scaled.
pub const AI_PADDLE_I_FACTOR: i64 = 100;

/// Derivative gain of the paddle controller (unitless).
pub const AI_PADDLE_D_FACTOR: i64 = 2;

/// Largest change of the controlled paddle's acceleration per tick: 1800 units/s^2.
pub const AI_PADDLE_MAX_ACCEL: i64 = 1_800_000;

/// Score at which a side wins the match.
pub const WIN_SCORE: u32 = 10;

/// Cap on collision sub-steps within one tick.
pub const MAX_ITERATIONS: u32 = 10;

/// Largest elapsed time one tick may carry: 10 seconds.
pub const DT_MAX: i64 = 10_000;

/// Defensive saturation bound on the ball's vertical position.  Normal play
/// never approaches it: the walls reflect the ball long before.
pub const BALL_POS_SAT: i64 = 1_000_000_000;

/// Bound kept on the controller's integral accumulator (anti-windup saturation).
pub const AI_ACCUM_SAT: i64 = 1_000_000_000_000;

/// Bound kept on the controlled paddle's acceleration by construction.
pub const AI_DDY_BOUND: i64 = 10_000_000_000_000;

} // verus!
