//! Paddle kinematics: acceleration, speed clamp, exponential friction and
//! wall clamping.

use crate::fixed::{
    abs, abs_s, clamp, clamp_s, fmul, fmul_s, lemma_dtz_bound, lemma_mul_bound, SCALE,
};
use crate::geom::Rect;
use crate::tuning::{
    AI_DDY_BOUND, BOARD_HEIGHT, DT_MAX, PADDLE_FRICTION_MS, PADDLE_HEIGHT, PADDLE_MAX_SPEED,
    PADDLE_WIDTH,
};
use vstd::prelude::*;

verus! {

/// A paddle: its bounding rectangle, vertical velocity and acceleration.
#[derive(Clone, Copy, PartialEq, Eq, Structural, Debug)]
pub struct Paddle {
    pub bound: Rect,
    pub dy: i64,
    pub ddy: i64,
}

/// Friction decay factor over `n` milliseconds: the per-millisecond factor
/// [`PADDLE_FRICTION_MS`] raised to the `n`-th power in fixed point.
pub open spec fn fric_factor(n: nat) -> int
    decreases n,
{
    if n == 0 {
        SCALE as int
    } else {
        fmul_s(fric_factor((n - 1) as nat), PADDLE_FRICTION_MS as int)
    }
}

/// The friction factor always lies in `[0, SCALE]`: it only ever damps.
pub proof fn lemma_fric_factor_bounds(n: nat)
    ensures
        0 <= fric_factor(n) <= SCALE,
    decreases n,
{
    if n > 0 {
        lemma_fric_factor_bounds((n - 1) as nat);
        let v = fric_factor((n - 1) as nat);
        assert(0 <= v * PADDLE_FRICTION_MS <= SCALE * SCALE) by (nonlinear_arith)
            requires
                0 <= v <= SCALE,
                0 <= PADDLE_FRICTION_MS <= SCALE,
        ;
        lemma_dtz_bound(v * PADDLE_FRICTION_MS, SCALE as int, SCALE as int, SCALE * SCALE);
    }
}

/// Compute the friction decay factor for an elapsed time of `dt` milliseconds.
pub fn friction_decay(dt: i64) -> (f: i64)
    requires
        0 <= dt <= DT_MAX,
    ensures
        f as int == fric_factor(dt as nat),
        0 <= f <= SCALE,
{
    let mut f: i64 = SCALE;
    let mut i: i64 = 0;
    proof {
        lemma_fric_factor_bounds(0);
    }
    while i < dt
        invariant
            0 <= i <= dt <= DT_MAX,
            f as int == fric_factor(i as nat),
            0 <= f <= SCALE,
        decreases dt - i,
    {
        proof {
            lemma_fric_factor_bounds((i + 1) as nat);
        }
        f = fmul(f, PADDLE_FRICTION_MS);
        i = i + 1;
    }
    f
}

/// The paddle state after one kinematics step of `dt` milliseconds:
/// velocity integrated from acceleration and clamped, exponential friction
/// applied, position integrated and clamped to the arena's vertical bounds;
/// on a clamp the velocity is turned to point away from the wall.
pub open spec fn paddle_step_spec(p: Paddle, dt: int) -> Paddle
    recommends
        0 <= dt,
{
    let dy1 = clamp_s(p.dy + fmul_s(dt, p.ddy as int), PADDLE_MAX_SPEED as int);
    let dy2 = fmul_s(dy1, fric_factor(dt as nat));
    let y1 = p.bound.y + fmul_s(dy2, dt);
    if y1 < 0 {
        Paddle { bound: Rect { y: 0, ..p.bound }, dy: abs_s(dy2) as i64, ddy: p.ddy }
    } else if y1 + p.bound.height > BOARD_HEIGHT {
        Paddle {
            bound: Rect { y: (BOARD_HEIGHT - p.bound.height) as i64, ..p.bound },
            dy: -abs_s(dy2) as i64,
            ddy: p.ddy,
        }
    } else {
        Paddle { bound: Rect { y: y1 as i64, ..p.bound }, dy: dy2 as i64, ddy: p.ddy }
    }
}

impl Paddle {
    /// A well-formed paddle: paddle-sized, inside the arena's vertical
    /// bounds, with bounded velocity and acceleration.
    pub open spec fn wf(self) -> bool {
        &&& self.bound.width == PADDLE_WIDTH
        &&& self.bound.height == PADDLE_HEIGHT
        &&& 0 <= self.bound.y
        &&& self.bound.y + self.bound.height <= BOARD_HEIGHT
        &&& abs_s(self.dy as int) <= PADDLE_MAX_SPEED
        &&& abs_s(self.ddy as int) <= AI_DDY_BOUND
    }

    /// Advance this paddle by `dt` milliseconds of kinematics.  The wall
    /// clamp invariant holds afterwards: the paddle lies within
    /// `[0, BOARD_HEIGHT - PADDLE_HEIGHT]`.
    pub fn step(&mut self, dt: i64)
        requires
            old(self).wf(),
            0 <= dt <= DT_MAX,
        ensures
            *final(self) == paddle_step_spec(*old(self), dt as int),
            final(self).wf(),
            0 <= final(self).bound.y,
            final(self).bound.y + PADDLE_HEIGHT <= BOARD_HEIGHT,
            final(self).ddy == old(self).ddy,
            final(self).bound.x == old(self).bound.x,
    {
        proof {
            lemma_mul_bound(dt as int, self.ddy as int, DT_MAX as int, AI_DDY_BOUND as int);
            lemma_dtz_bound(
                dt as int * self.ddy as int,
                SCALE as int,
                SCALE as int,
                DT_MAX * AI_DDY_BOUND,
            );
        }
        let dy1 = clamp(self.dy + fmul(dt, self.ddy), PADDLE_MAX_SPEED);
        let f = friction_decay(dt);
        proof {
            lemma_mul_bound(dy1 as int, f as int, PADDLE_MAX_SPEED as int, SCALE as int);
            lemma_dtz_bound(
                dy1 as int * f as int,
                SCALE as int,
                SCALE as int,
                PADDLE_MAX_SPEED * SCALE,
            );
        }
        let dy2 = fmul(dy1, f);
        proof {
            lemma_mul_bound(dy2 as int, dt as int, PADDLE_MAX_SPEED as int, DT_MAX as int);
            lemma_dtz_bound(
                dy2 as int * dt as int,
                SCALE as int,
                SCALE as int,
                PADDLE_MAX_SPEED * DT_MAX,
            );
        }
        let y1 = self.bound.y + fmul(dy2, dt);
        if y1 < 0 {
            self.bound.y = 0;
            self.dy = abs(dy2);
        } else if y1 + self.bound.height > BOARD_HEIGHT {
            self.bound.y = BOARD_HEIGHT - self.bound.height;
            self.dy = -abs(dy2);
        } else {
            self.bound.y = y1;
            self.dy = dy2;
        }
    }
}

} // verus!
