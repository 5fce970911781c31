//! A two-paddle ball-and-goal arena simulation (a Pong variant), verified.
//!
//! All quantities live in fixed-point "milliunit" arithmetic: one arena unit
//! is `fixed::SCALE` (1000) milliunits, and one second of simulated time is
//! `SCALE` milliseconds.  The simulation advances paddle motion, resolves the
//! ball's continuous-time collisions against walls, goal borders and paddles,
//! and tracks scoring and win conditions.  Rendering, input sources and audio
//! live outside this crate; they call [`board::Board::update`] once per frame,
//! forward key events through [`board::Board::handle_input`], and read the
//! entity state back to draw.
//!
//! Every public function carries an exact contract; a few facts worth
//! singling out are proved where they belong: the wall clamp on paddles in
//! [`paddle::Paddle::step`], the speed and slope clamps on the ball in
//! [`ball::Ball::set_speed`], elasticity of the static-normal reflection in
//! [`collide::lemma_reflect_elastic`], linearity of contact-free ball travel
//! in [`board::lemma_linear_motion`], the scoring law in
//! [`board::lemma_scoring`], idempotence of the round reset in
//! [`board::lemma_start_game_idempotent`], and termination of the sub-step
//! collision loop within its iteration cap, by its `decreases` clause.

pub mod ai;
pub mod ball;
pub mod board;
pub mod collide;
pub mod fixed;
pub mod geom;
pub mod paddle;
pub mod tuning;
