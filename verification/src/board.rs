//! The match state and its per-tick simulation: controller and paddle
//! updates, iterative sub-step collision resolution, scoring, round reset
//! and win detection.

use crate::ai::{ai_step, ai_step_spec, AI_OFFSET_LIMIT};
use crate::ball::{set_speed_spec, Ball, BALL_SET_LIMIT};
use crate::collide::{
    collides, contact_valid, path_frac, reflect, reflect_x_s, reflect_y_s, seg_frac,
    CCD_DISP_LIMIT, CCD_GEO_LIMIT, CCD_POS_LIMIT,
};
use crate::fixed::{
    abs_s, clamp, clamp_s, div_tz, dtz, fmul, fmul_s, isqrt, lemma_dtz_bound, lemma_dtz_le_self,
    lemma_dtz_mag_monotone, lemma_mul_bound, lemma_sqrt_floor, lemma_sqrt_floor_monotone, sgn_s,
    sqrt_floor, SCALE,
};
use crate::geom::Rect;
use crate::paddle::{paddle_step_spec, Paddle};
use crate::tuning::{
    AI_ACCUM_SAT, BALL_MAX_SPEED, BALL_POS_SAT, BALL_RADIUS, BALL_SPEEDUP,
    BALL_START_SPEED, BOARD_HEIGHT, BOARD_WIDTH, DT_MAX, GOAL_HEIGHT, HIT_DELAY, MAX_ITERATIONS,
    PADDLE_BALL_INFLUENCE, PADDLE_CURVE, PADDLE_HEIGHT, PADDLE_MAX_SPEED, PADDLE_WIDTH,
    PADDLE_X_OFFSET, PLAYER_PADDLE_ACCEL, WIN_SCORE,
};
use vstd::prelude::*;

verus! {

/// A logical key the simulation reacts to.
#[derive(Clone, Copy, PartialEq, Eq, Structural, Debug)]
pub enum Key {
    /// Accelerate the player paddle upward while held.
    Up,
    /// Accelerate the player paddle downward while held.
    Down,
    /// Toggle the ball-simulation override (debug aid).
    ToggleBallSim,
    /// Nudge the ball upward while the override is active (debug aid).
    NudgeUp,
    /// Nudge the ball downward while the override is active (debug aid).
    NudgeDown,
    /// Force an immediate round reset.
    Restart,
}

/// What one tick asked of the outside audio collaborator.
#[derive(Clone, Copy, PartialEq, Eq, Structural, Debug)]
pub struct TickEvents {
    /// A paddle was hit this tick.
    pub hit_paddle: bool,
    /// Any collider was hit this tick.
    pub hit_any: bool,
    /// A side scored this tick.
    pub scored: bool,
}

/// One collision target of the per-tick collider table: a segment from
/// `(tx, ty)` along `(tdx, tdy)`, with its reflection normal `(nx, ny)`.
/// For a paddle face the normal's vertical part is not `ny` but a function
/// of where along the face the ball struck and of `pdy`, the paddle's
/// velocity when the table was built.
#[derive(Clone, Copy, PartialEq, Eq, Structural, Debug)]
pub struct Collider {
    pub tx: i64,
    pub ty: i64,
    pub tdx: i64,
    pub tdy: i64,
    pub nx: i64,
    pub ny: i64,
    /// This collider is a paddle face: it reflects dynamically, and a hit
    /// on it ends the sub-step loop for this tick.
    pub paddle: bool,
    /// For a paddle face, whether it is the left paddle's.
    pub left: bool,
    /// For a paddle face, the paddle's vertical velocity.
    pub pdy: i64,
}

/// The aggregate match state.
#[derive(Clone, Copy, PartialEq, Eq, Structural, Debug)]
pub struct Board {
    pub lhs_score: u32,
    pub rhs_score: u32,
    pub width: i64,
    pub height: i64,
    pub lhs_goal_height: i64,
    pub rhs_goal_height: i64,
    pub lhs_paddle: Paddle,
    pub rhs_paddle: Paddle,
    pub ball: Ball,
    /// Remaining freeze time after a paddle hit, in milliseconds.
    pub delay: i64,
    /// Debug override: suspend the ball's forward travel.
    pub override_ball_sim: bool,
    /// Controller state: the offset seen last tick.
    pub ai_last_offset: i64,
    /// Controller state: the integral accumulator.
    pub ai_accum_offset: i64,
}

/// Horizontal position of the left paddle's bound.
pub open spec fn lhs_paddle_x() -> int {
    PADDLE_X_OFFSET - PADDLE_WIDTH / 2
}

/// Horizontal position of the right paddle's bound.
pub open spec fn rhs_paddle_x() -> int {
    BOARD_WIDTH - PADDLE_X_OFFSET - PADDLE_WIDTH / 2
}

impl Board {
    /// A well-formed match: the fixed arena geometry, well-formed paddles at
    /// their posts, a well-formed ball, and bounded timer and controller
    /// state.
    pub open spec fn wf(self) -> bool {
        &&& self.width == BOARD_WIDTH
        &&& self.height == BOARD_HEIGHT
        &&& self.lhs_goal_height == GOAL_HEIGHT
        &&& self.rhs_goal_height == GOAL_HEIGHT
        &&& self.lhs_paddle.wf()
        &&& self.lhs_paddle.bound.x == lhs_paddle_x()
        &&& self.rhs_paddle.wf()
        &&& self.rhs_paddle.bound.x == rhs_paddle_x()
        &&& self.ball.wf()
        &&& 0 <= self.delay <= HIT_DELAY
        &&& abs_s(self.ai_last_offset as int) <= AI_OFFSET_LIMIT
        &&& abs_s(self.ai_accum_offset as int) <= AI_ACCUM_SAT
    }
}

/// Bounds that every collider of a well-formed board satisfies; they are
/// what the collision solver's contract asks of a target segment.
pub open spec fn collider_ok(c: Collider) -> bool {
    &&& abs_s(c.tx as int) <= CCD_GEO_LIMIT
    &&& abs_s(c.ty as int) <= CCD_GEO_LIMIT
    &&& abs_s(c.tdx as int) <= CCD_GEO_LIMIT
    &&& abs_s(c.tdy as int) <= CCD_GEO_LIMIT
    &&& abs_s(c.nx as int) <= 2 * SCALE
    &&& abs_s(c.ny as int) <= 2 * SCALE
    &&& abs_s(c.pdy as int) <= PADDLE_MAX_SPEED
    &&& (c.paddle ==> (c.nx == SCALE || c.nx == -SCALE) && c.ny == 0)
    &&& (!c.paddle ==> (c.nx == 0 && (c.ny == SCALE || c.ny == -SCALE)) || (c.ny == 0 && (c.nx
        == SCALE || c.nx == -SCALE)))
}

/// The per-tick collider table, in its fixed priority order: top wall,
/// bottom wall, the goal-border stubs above and below each goal mouth, then
/// the two paddle faces.
pub open spec fn colliders_spec(b: Board) -> Seq<Collider> {
    let lgb = dtz(b.height - b.lhs_goal_height, 2);
    let rgb = dtz(b.height - b.rhs_goal_height, 2);
    seq![
        Collider {
            tx: 0,
            ty: BALL_RADIUS,
            tdx: b.width,
            tdy: 0,
            nx: 0,
            ny: SCALE,
            paddle: false,
            left: false,
            pdy: 0,
        },
        Collider {
            tx: 0,
            ty: (b.height - BALL_RADIUS) as i64,
            tdx: b.width,
            tdy: 0,
            nx: 0,
            ny: (-(SCALE as int)) as i64,
            paddle: false,
            left: false,
            pdy: 0,
        },
        Collider {
            tx: BALL_RADIUS,
            ty: 0,
            tdx: 0,
            tdy: lgb as i64,
            nx: SCALE,
            ny: 0,
            paddle: false,
            left: false,
            pdy: 0,
        },
        Collider {
            tx: BALL_RADIUS,
            ty: b.height,
            tdx: 0,
            tdy: -lgb as i64,
            nx: SCALE,
            ny: 0,
            paddle: false,
            left: false,
            pdy: 0,
        },
        Collider {
            tx: (b.width - BALL_RADIUS) as i64,
            ty: 0,
            tdx: 0,
            tdy: rgb as i64,
            nx: (-(SCALE as int)) as i64,
            ny: 0,
            paddle: false,
            left: false,
            pdy: 0,
        },
        Collider {
            tx: (b.width - BALL_RADIUS) as i64,
            ty: b.height,
            tdx: 0,
            tdy: -rgb as i64,
            nx: (-(SCALE as int)) as i64,
            ny: 0,
            paddle: false,
            left: false,
            pdy: 0,
        },
        Collider {
            tx: (b.lhs_paddle.bound.x + b.lhs_paddle.bound.width + BALL_RADIUS) as i64,
            ty: (b.lhs_paddle.bound.y - BALL_RADIUS) as i64,
            tdx: 0,
            tdy: (b.lhs_paddle.bound.height + 2 * BALL_RADIUS) as i64,
            nx: SCALE,
            ny: 0,
            paddle: true,
            left: true,
            pdy: b.lhs_paddle.dy,
        },
        Collider {
            tx: (b.rhs_paddle.bound.x - BALL_RADIUS) as i64,
            ty: (b.rhs_paddle.bound.y - BALL_RADIUS) as i64,
            tdx: 0,
            tdy: (b.rhs_paddle.bound.height + 2 * BALL_RADIUS) as i64,
            nx: (-(SCALE as int)) as i64,
            ny: 0,
            paddle: true,
            left: false,
            pdy: b.rhs_paddle.dy,
        },
    ]
}

/// Build the collider table of a well-formed board.
fn build_colliders(b: &Board) -> (v: Vec<Collider>)
    requires
        b.wf(),
    ensures
        v@ == colliders_spec(*b),
        v@.len() == 8,
        forall|i: int| 0 <= i < v@.len() ==> collider_ok(#[trigger] v@[i]),
{
    let lgb = div_tz(b.height - b.lhs_goal_height, 2);
    let rgb = div_tz(b.height - b.rhs_goal_height, 2);
    let mut v: Vec<Collider> = Vec::new();
    v.push(
        Collider {
            tx: 0,
            ty: BALL_RADIUS,
            tdx: b.width,
            tdy: 0,
            nx: 0,
            ny: SCALE,
            paddle: false,
            left: false,
            pdy: 0,
        },
    );
    v.push(
        Collider {
            tx: 0,
            ty: b.height - BALL_RADIUS,
            tdx: b.width,
            tdy: 0,
            nx: 0,
            ny: -SCALE,
            paddle: false,
            left: false,
            pdy: 0,
        },
    );
    v.push(
        Collider {
            tx: BALL_RADIUS,
            ty: 0,
            tdx: 0,
            tdy: lgb,
            nx: SCALE,
            ny: 0,
            paddle: false,
            left: false,
            pdy: 0,
        },
    );
    v.push(
        Collider {
            tx: BALL_RADIUS,
            ty: b.height,
            tdx: 0,
            tdy: -lgb,
            nx: SCALE,
            ny: 0,
            paddle: false,
            left: false,
            pdy: 0,
        },
    );
    v.push(
        Collider {
            tx: b.width - BALL_RADIUS,
            ty: 0,
            tdx: 0,
            tdy: rgb,
            nx: -SCALE,
            ny: 0,
            paddle: false,
            left: false,
            pdy: 0,
        },
    );
    v.push(
        Collider {
            tx: b.width - BALL_RADIUS,
            ty: b.height,
            tdx: 0,
            tdy: -rgb,
            nx: -SCALE,
            ny: 0,
            paddle: false,
            left: false,
            pdy: 0,
        },
    );
    v.push(
        Collider {
            tx: b.lhs_paddle.bound.x + b.lhs_paddle.bound.width + BALL_RADIUS,
            ty: b.lhs_paddle.bound.y - BALL_RADIUS,
            tdx: 0,
            tdy: b.lhs_paddle.bound.height + 2 * BALL_RADIUS,
            nx: SCALE,
            ny: 0,
            paddle: true,
            left: true,
            pdy: b.lhs_paddle.dy,
        },
    );
    v.push(
        Collider {
            tx: b.rhs_paddle.bound.x - BALL_RADIUS,
            ty: b.rhs_paddle.bound.y - BALL_RADIUS,
            tdx: 0,
            tdy: b.rhs_paddle.bound.height + 2 * BALL_RADIUS,
            nx: -SCALE,
            ny: 0,
            paddle: true,
            left: false,
            pdy: b.rhs_paddle.dy,
        },
    );
    proof {
        assert(v@ =~= colliders_spec(*b));
    }
    v
}

/// The curved paddle reflection: the incoming velocity is taken as the
/// ball's speed magnitude along its horizontal sense of travel plus a share
/// of the paddle's own velocity, mirrored across a normal whose vertical
/// part spreads with the contact point along the face, and sped up by
/// [`BALL_SPEEDUP`].
pub open spec fn paddle_reflect_spec(nx: int, pdy: int, ct: int, bdx: int, bdy: int) -> (
    int,
    int,
) {
    let vx = sgn_s(bdx) * sqrt_floor(bdx * bdx + bdy * bdy);
    let vy = fmul_s(pdy, PADDLE_BALL_INFLUENCE as int);
    let ny = fmul_s(2 * ct - SCALE, PADDLE_CURVE as int);
    let rx = reflect_x_s(vx, vy, nx, ny);
    let ry = reflect_y_s(vx, vy, nx, ny);
    (fmul_s(rx, BALL_SPEEDUP as int), fmul_s(ry, BALL_SPEEDUP as int))
}

/// Compute the curved paddle reflection of the ball's velocity.
fn paddle_reflect(nx: i64, pdy: i64, ct: i64, bdx: i64, bdy: i64) -> (r: (i64, i64))
    requires
        nx == SCALE || nx == -SCALE,
        abs_s(pdy as int) <= PADDLE_MAX_SPEED,
        0 < ct <= SCALE,
        bdx * bdx + bdy * bdy <= BALL_MAX_SPEED * BALL_MAX_SPEED,
    ensures
        (r.0 as int, r.1 as int) == paddle_reflect_spec(
            nx as int,
            pdy as int,
            ct as int,
            bdx as int,
            bdy as int,
        ),
        abs_s(r.0 as int) <= BALL_SET_LIMIT,
        abs_s(r.1 as int) <= BALL_SET_LIMIT,
{
    proof {
        crate::ball::lemma_speed_bound(bdx as int, bdy as int);
        lemma_mul_bound(bdx as int, bdx as int, BALL_MAX_SPEED as int, BALL_MAX_SPEED as int);
        lemma_mul_bound(bdy as int, bdy as int, BALL_MAX_SPEED as int, BALL_MAX_SPEED as int);
        lemma_sqrt_floor_monotone(
            bdx as int * bdx as int + bdy as int * bdy as int,
            BALL_MAX_SPEED * BALL_MAX_SPEED,
        );
        lemma_sqrt_floor(BALL_MAX_SPEED * BALL_MAX_SPEED);
        assert(sqrt_floor(BALL_MAX_SPEED * BALL_MAX_SPEED) == BALL_MAX_SPEED) by {
            let s = sqrt_floor(BALL_MAX_SPEED * BALL_MAX_SPEED);
            assert(s == BALL_MAX_SPEED) by (nonlinear_arith)
                requires
                    s >= 0,
                    s * s <= BALL_MAX_SPEED * BALL_MAX_SPEED,
                    (s + 1) * (s + 1) > BALL_MAX_SPEED * BALL_MAX_SPEED,
            ;
        }
    }
    let mag = isqrt(bdx * bdx + bdy * bdy);
    let vx = if bdx >= 0 {
        mag
    } else {
        -mag
    };
    proof {
        lemma_mul_bound(pdy as int, PADDLE_BALL_INFLUENCE as int, PADDLE_MAX_SPEED as int, 300int);
        lemma_dtz_bound(
            pdy as int * PADDLE_BALL_INFLUENCE as int,
            SCALE as int,
            SCALE as int,
            PADDLE_MAX_SPEED * 300,
        );
        lemma_mul_bound(2 * ct as int - SCALE, PADDLE_CURVE as int, SCALE as int, 500int);
        lemma_dtz_bound(
            (2 * ct as int - SCALE) * PADDLE_CURVE as int,
            SCALE as int,
            SCALE as int,
            SCALE * 500,
        );
    }
    let vy = fmul(pdy, PADDLE_BALL_INFLUENCE);
    let ny = fmul(2 * ct - SCALE, PADDLE_CURVE);
    proof {
        assert(nx as int * nx as int + ny as int * ny as int >= SCALE * SCALE && nx as int
            * nx as int + ny as int * ny as int <= 2 * SCALE * SCALE) by (nonlinear_arith)
            requires
                nx as int == SCALE || nx as int == -(SCALE as int),
                -(SCALE as int) <= ny as int <= SCALE,
        ;
        assert(vx as int == sgn_s(bdx as int) * mag as int) by (nonlinear_arith)
            requires
                vx as int == (if bdx as int >= 0 {
                    mag as int
                } else {
                    -(mag as int)
                }),
                sgn_s(bdx as int) == (if bdx as int >= 0 {
                    1int
                } else {
                    -1int
                }),
        ;
    }
    let (rx, ry) = reflect(vx, vy, nx, ny);
    proof {
        let dot = crate::fixed::dot2(nx as int, ny as int, vx as int, vy as int);
        lemma_mul_bound(nx as int, vx as int, SCALE as int, BALL_MAX_SPEED as int);
        lemma_mul_bound(ny as int, vy as int, SCALE as int, 150_000int);
        lemma_mul_bound(2 * dot, nx as int, 1_900_000_000int, SCALE as int);
        lemma_mul_bound(2 * dot, ny as int, 1_900_000_000int, SCALE as int);
        lemma_dtz_bound(
            2 * dot * nx as int,
            nx as int * nx as int + ny as int * ny as int,
            SCALE * SCALE,
            1_900_000_000_000int,
        );
        lemma_dtz_bound(
            2 * dot * ny as int,
            nx as int * nx as int + ny as int * ny as int,
            SCALE * SCALE,
            1_900_000_000_000int,
        );
        lemma_mul_bound(rx as int, BALL_SPEEDUP as int, 2_700_000int, BALL_SPEEDUP as int);
        lemma_mul_bound(ry as int, BALL_SPEEDUP as int, 2_700_000int, BALL_SPEEDUP as int);
        lemma_dtz_bound(
            rx as int * BALL_SPEEDUP as int,
            SCALE as int,
            SCALE as int,
            2_700_000 * BALL_SPEEDUP,
        );
        lemma_dtz_bound(
            ry as int * BALL_SPEEDUP as int,
            SCALE as int,
            SCALE as int,
            2_700_000 * BALL_SPEEDUP,
        );
    }
    (fmul(rx, BALL_SPEEDUP), fmul(ry, BALL_SPEEDUP))
}

/// Horizontal centre of the ball.
pub open spec fn ball_cx(ball: Ball) -> int {
    ball.bound.x + BALL_RADIUS
}

/// Vertical centre of the ball.
pub open spec fn ball_cy(ball: Ball) -> int {
    ball.bound.y + BALL_RADIUS
}

/// The ball hits collider `c` within the displacement `(idx, idy)`: it is
/// moving toward the collider's normal (this skip test prevents re-colliding
/// with a surface just left) and the contact is valid.
pub open spec fn collider_hit(ball: Ball, c: Collider, idx: int, idy: int) -> bool {
    &&& c.nx * ball.dx + c.ny * ball.dy < 0
    &&& contact_valid(
        ball_cx(ball),
        ball_cy(ball),
        idx,
        idy,
        c.tx as int,
        c.ty as int,
        c.tdx as int,
        c.tdy as int,
    )
}

/// The first collider from index `i` on that the ball hits, with its two
/// contact fractions; colliders are tried in the table's fixed priority
/// order, not by earliest contact time.
pub open spec fn scan_spec(ball: Ball, cols: Seq<Collider>, i: int, idx: int, idy: int) -> Option<
    (int, int, int),
>
    decreases cols.len() - i,
{
    if i < 0 || i >= cols.len() {
        None
    } else if collider_hit(ball, cols[i], idx, idy) {
        Some(
            (
                i,
                path_frac(
                    ball_cx(ball),
                    ball_cy(ball),
                    idx,
                    idy,
                    cols[i].tx as int,
                    cols[i].ty as int,
                    cols[i].tdx as int,
                    cols[i].tdy as int,
                ),
                seg_frac(
                    ball_cx(ball),
                    ball_cy(ball),
                    idx,
                    idy,
                    cols[i].tx as int,
                    cols[i].ty as int,
                    cols[i].tdx as int,
                    cols[i].tdy as int,
                ),
            ),
        )
    } else {
        scan_spec(ball, cols, i + 1, idx, idy)
    }
}

/// Scan the collider table for the first hit.
fn scan_colliders(ball: &Ball, cols: &Vec<Collider>, idx: i64, idy: i64) -> (r: Option<
    (usize, i64, i64),
>)
    requires
        forall|j: int| 0 <= j < cols@.len() ==> collider_ok(#[trigger] cols@[j]),
        abs_s(ball_cx(*ball)) <= CCD_POS_LIMIT,
        abs_s(ball_cy(*ball)) <= CCD_POS_LIMIT,
        abs_s(idx as int) <= CCD_DISP_LIMIT,
        abs_s(idy as int) <= CCD_DISP_LIMIT,
        ball.dx * ball.dx + ball.dy * ball.dy <= BALL_MAX_SPEED * BALL_MAX_SPEED,
        abs_s(ball.bound.x as int) < 0x7000_0000_0000_0000,
        abs_s(ball.bound.y as int) < 0x7000_0000_0000_0000,
    ensures
        match r {
            Some(hit) => {
                &&& 0 <= hit.0 < cols@.len()
                &&& scan_spec(*ball, cols@, 0, idx as int, idy as int) == Some(
                    (hit.0 as int, hit.1 as int, hit.2 as int),
                )
                &&& collider_hit(*ball, cols@[hit.0 as int], idx as int, idy as int)
                &&& 0 < hit.1 <= SCALE
                &&& 0 < hit.2 <= SCALE
            },
            None => scan_spec(*ball, cols@, 0, idx as int, idy as int) is None,
        },
{
    proof {
        crate::ball::lemma_speed_bound(ball.dx as int, ball.dy as int);
    }
    let mut i: usize = 0;
    while i < cols.len()
        invariant
            0 <= i <= cols@.len(),
            scan_spec(*ball, cols@, 0, idx as int, idy as int) == scan_spec(
                *ball,
                cols@,
                i as int,
                idx as int,
                idy as int,
            ),
            forall|j: int| 0 <= j < cols@.len() ==> collider_ok(#[trigger] cols@[j]),
            abs_s(ball_cx(*ball)) <= CCD_POS_LIMIT,
            abs_s(ball_cy(*ball)) <= CCD_POS_LIMIT,
            abs_s(idx as int) <= CCD_DISP_LIMIT,
            abs_s(idy as int) <= CCD_DISP_LIMIT,
            abs_s(ball.dx as int) <= BALL_MAX_SPEED,
            abs_s(ball.dy as int) <= BALL_MAX_SPEED,
            abs_s(ball.bound.x as int) < 0x7000_0000_0000_0000,
            abs_s(ball.bound.y as int) < 0x7000_0000_0000_0000,
        decreases cols@.len() - i,
    {
        let c = cols[i];
        proof {
            lemma_mul_bound(c.nx as int, ball.dx as int, 2 * SCALE as int, BALL_MAX_SPEED as int);
            lemma_mul_bound(c.ny as int, ball.dy as int, 2 * SCALE as int, BALL_MAX_SPEED as int);
        }
        let nd = c.nx * ball.dx + c.ny * ball.dy;
        if nd < 0 {
            match collides(
                ball.bound.x + BALL_RADIUS,
                ball.bound.y + BALL_RADIUS,
                idx,
                idy,
                c.tx,
                c.ty,
                c.tdx,
                c.tdy,
            ) {
                Some(frac) => {
                    return Some((i, frac.0, frac.1));
                },
                None => {},
            }
        }
        i = i + 1;
    }
    None
}

/// The ball's velocity after reflecting off collider `c` at contact
/// fraction `ct` along it: curved and sped up for a paddle face, the plain
/// mirror formula for a static collider.
pub open spec fn hit_velocity_spec(c: Collider, ct: int, dx: int, dy: int) -> (int, int) {
    if c.paddle {
        paddle_reflect_spec(c.nx as int, c.pdy as int, ct, dx, dy)
    } else {
        (reflect_x_s(dx, dy, c.nx as int, c.ny as int), reflect_y_s(dx, dy, c.nx as int, c.ny as int))
    }
}

/// The ball after one accepted contact: advanced by the fraction `cs` of its
/// displacement, its velocity reflected and re-normalised.
pub open spec fn apply_hit_spec(ball: Ball, c: Collider, cs: int, ct: int, idx: int, idy: int) -> Ball {
    let hv = hit_velocity_spec(c, ct, ball.dx as int, ball.dy as int);
    let nv = set_speed_spec(hv.0, hv.1);
    Ball {
        bound: Rect {
            x: (ball.bound.x + fmul_s(idx, cs)) as i64,
            y: (ball.bound.y + fmul_s(idy, cs)) as i64,
            ..ball.bound
        },
        dx: nv.0 as i64,
        dy: nv.1 as i64,
    }
}

/// The iterative sub-step collision resolution: while time remains, the
/// previous pass found a contact, and the iteration cap is not exhausted,
/// accept the first valid contact in table order, advance and reflect the
/// ball, shrink the remaining time by the accepted fraction, and rescan.  A
/// paddle hit ends the loop for this tick.  Returns the ball, the remaining
/// time, and the left-paddle, right-paddle and any-contact hit flags.
pub open spec fn resolve_rec(
    ball: Ball,
    cols: Seq<Collider>,
    dtl: int,
    iters: nat,
    hl: bool,
    hr: bool,
    ha: bool,
) -> (Ball, int, bool, bool, bool)
    decreases iters,
{
    if iters == 0 || dtl <= 0 {
        (ball, dtl, hl, hr, ha)
    } else {
        let idx = fmul_s(ball.dx as int, dtl);
        let idy = fmul_s(ball.dy as int, dtl);
        match scan_spec(ball, cols, 0, idx, idy) {
            None => (ball, dtl, hl, hr, ha),
            Some(hit) => {
                let c = cols[hit.0];
                let b2 = apply_hit_spec(ball, c, hit.1, hit.2, idx, idy);
                let dtl2 = fmul_s(dtl, SCALE - hit.1);
                let hl2 = hl || (c.paddle && c.left);
                let hr2 = hr || (c.paddle && !c.left);
                if c.paddle {
                    (b2, dtl2, hl2, hr2, true)
                } else {
                    resolve_rec(b2, cols, dtl2, (iters - 1) as nat, hl2, hr2, true)
                }
            },
        }
    }
}

/// Run the sub-step collision resolution loop on `ball` for `dt`
/// milliseconds against the collider table `cols`.
fn resolve_collisions(ball: &mut Ball, cols: &Vec<Collider>, dt: i64) -> (r: (i64, bool, bool, bool))
    requires
        old(ball).wf(),
        0 <= dt <= DT_MAX,
        forall|j: int| 0 <= j < cols@.len() ==> collider_ok(#[trigger] cols@[j]),
    ensures
        (*final(ball), r.0 as int, r.1, r.2, r.3) == resolve_rec(
            *old(ball),
            cols@,
            dt as int,
            MAX_ITERATIONS as nat,
            false,
            false,
            false,
        ),
        0 <= r.0 <= dt,
        final(ball).dx * final(ball).dx + final(ball).dy * final(ball).dy <= BALL_MAX_SPEED
            * BALL_MAX_SPEED,
        final(ball).bound.width == old(ball).bound.width,
        final(ball).bound.height == old(ball).bound.height,
        abs_s(final(ball).bound.x as int) <= BOARD_WIDTH + 100_000_000,
        abs_s(final(ball).bound.y as int) <= BALL_POS_SAT + 100_000_000,
{
    let ghost ball0 = *ball;
    let mut iterations: u32 = 0;
    let mut has_collide = true;
    let mut kill_early = false;
    let mut dtl: i64 = dt;
    let mut hl = false;
    let mut hr = false;
    let mut ha = false;
    while dtl > 0 && has_collide && iterations < MAX_ITERATIONS && !kill_early
        invariant
            0 <= iterations <= MAX_ITERATIONS,
            0 <= dtl <= dt <= DT_MAX,
            forall|j: int| 0 <= j < cols@.len() ==> collider_ok(#[trigger] cols@[j]),
            ball.bound.width == ball0.bound.width,
            ball.bound.height == ball0.bound.height,
            ball0.wf(),
            ball.dx * ball.dx + ball.dy * ball.dy <= BALL_MAX_SPEED * BALL_MAX_SPEED,
            abs_s(ball.bound.x as int) <= BOARD_WIDTH + iterations * 10_000_000,
            abs_s(ball.bound.y as int) <= BALL_POS_SAT + iterations * 10_000_000,
            resolve_rec(ball0, cols@, dt as int, MAX_ITERATIONS as nat, false, false, false) == (
            if dtl > 0 && has_collide && iterations < MAX_ITERATIONS && !kill_early {
                resolve_rec(
                    *ball,
                    cols@,
                    dtl as int,
                    (MAX_ITERATIONS - iterations) as nat,
                    hl,
                    hr,
                    ha,
                )
            } else {
                (*ball, dtl as int, hl, hr, ha)
            }),
        decreases MAX_ITERATIONS - iterations,
    {
        let ghost iters_left = (MAX_ITERATIONS - iterations) as nat;
        let ghost ball_in = *ball;
        let ghost dtl_in = dtl as int;
        let ghost hl0 = hl;
        let ghost hr0 = hr;
        let ghost ha0 = ha;
        iterations = iterations + 1;
        has_collide = false;
        proof {
            crate::ball::lemma_speed_bound(ball.dx as int, ball.dy as int);
            lemma_mul_bound(ball.dx as int, dtl as int, BALL_MAX_SPEED as int, DT_MAX as int);
            lemma_mul_bound(ball.dy as int, dtl as int, BALL_MAX_SPEED as int, DT_MAX as int);
            lemma_dtz_bound(
                ball.dx as int * dtl as int,
                SCALE as int,
                SCALE as int,
                BALL_MAX_SPEED * DT_MAX,
            );
            lemma_dtz_bound(
                ball.dy as int * dtl as int,
                SCALE as int,
                SCALE as int,
                BALL_MAX_SPEED * DT_MAX,
            );
        }
        let idx = fmul(ball.dx, dtl);
        let idy = fmul(ball.dy, dtl);
        match scan_colliders(ball, cols, idx, idy) {
            None => {
                proof {
                    assert(resolve_rec(ball_in, cols@, dtl_in, iters_left, hl0, hr0, ha0) == (
                    *ball,
                    dtl as int,
                    hl,
                    hr,
                    ha,
                    ));
                }
            },
            Some(hit) => {
                let j = hit.0;
                let cs = hit.1;
                let ct = hit.2;
                let c = cols[j];
                proof {
                    lemma_mul_bound(idx as int, cs as int, 8_000_000int, SCALE as int);
                    lemma_mul_bound(idy as int, cs as int, 8_000_000int, SCALE as int);
                    lemma_dtz_bound(
                        idx as int * cs as int,
                        SCALE as int,
                        SCALE as int,
                        8_000_000 * SCALE,
                    );
                    lemma_dtz_bound(
                        idy as int * cs as int,
                        SCALE as int,
                        SCALE as int,
                        8_000_000 * SCALE,
                    );
                }
                ball.bound.x = ball.bound.x + fmul(idx, cs);
                ball.bound.y = ball.bound.y + fmul(idy, cs);
                let hv: (i64, i64) = if c.paddle {
                    paddle_reflect(c.nx, c.pdy, ct, ball.dx, ball.dy)
                } else {
                    proof {
                        assert(c.nx as int * c.nx as int + c.ny as int * c.ny as int == SCALE
                            * SCALE) by (nonlinear_arith)
                            requires
                                (c.nx == 0 && (c.ny == SCALE || c.ny as int == -(SCALE as int)))
                                    || (c.ny == 0 && (c.nx == SCALE || c.nx as int == -(
                                SCALE as int))),
                        ;
                        crate::ball::lemma_speed_bound(ball.dx as int, ball.dy as int);
                    }
                    let rv = reflect(ball.dx, ball.dy, c.nx, c.ny);
                    proof {
                        crate::collide::lemma_reflect_elastic(
                            ball.dx as int,
                            ball.dy as int,
                            c.nx as int,
                            c.ny as int,
                        );
                        crate::ball::lemma_speed_bound(rv.0 as int, rv.1 as int);
                    }
                    rv
                };
                ball.set_speed(hv.0, hv.1);
                proof {
                    assert(*ball == apply_hit_spec(
                        ball_in,
                        c,
                        cs as int,
                        ct as int,
                        idx as int,
                        idy as int,
                    ));
                }
                has_collide = true;
                ha = true;
                if c.paddle {
                    kill_early = true;
                    if c.left {
                        hl = true;
                    } else {
                        hr = true;
                    }
                }
                proof {
                    assert(0 <= dtl as int * (SCALE - cs as int) <= dtl as int * SCALE)
                        by (nonlinear_arith)
                        requires
                            0 <= dtl as int,
                            0 <= SCALE - cs as int <= SCALE,
                    ;
                    lemma_mul_bound(dtl as int, SCALE - cs as int, DT_MAX as int, SCALE as int);
                    lemma_dtz_le_self(dtl as int * (SCALE - cs as int), SCALE as int);
                    crate::fixed::lemma_dtz_exact(dtl as int, SCALE as int);
                    lemma_dtz_mag_monotone(
                        dtl as int * (SCALE - cs as int),
                        dtl as int * SCALE,
                        SCALE as int,
                    );
                }
                let dtl_next = fmul(dtl, SCALE - cs);
                proof {
                    assert(0 <= dtl_next <= dtl);
                }
                dtl = dtl_next;
                proof {
                    let cg = cols@[j as int];
                    let b2 = apply_hit_spec(
                        ball_in,
                        cg,
                        cs as int,
                        ct as int,
                        idx as int,
                        idy as int,
                    );
                    let dtl2 = fmul_s(dtl_in, SCALE - cs as int);
                    let hl2 = hl0 || (cg.paddle && cg.left);
                    let hr2 = hr0 || (cg.paddle && !cg.left);
                    assert(resolve_rec(ball_in, cols@, dtl_in, iters_left, hl0, hr0, ha0) == (
                    if cg.paddle {
                        (b2, dtl2, hl2, hr2, true)
                    } else {
                        resolve_rec(b2, cols@, dtl2, (iters_left - 1) as nat, hl2, hr2, true)
                    }));
                    assert(*ball == b2 && dtl as int == dtl2 && hl == hl2 && hr == hr2 && ha);
                    if !cg.paddle && !(dtl > 0 && iterations < MAX_ITERATIONS) {
                        assert(resolve_rec(b2, cols@, dtl2, (iters_left - 1) as nat, hl2, hr2, true)
                            == (b2, dtl2, hl2, hr2, true));
                    }
                }
            },
        }
    }
    (dtl, hl, hr, ha)
}

/// Vertical position at which both paddles start a round.
pub open spec fn paddle_start_y() -> int {
    BOARD_HEIGHT / 2 - PADDLE_HEIGHT / 2
}

/// Horizontal position at which the ball starts a round.
pub open spec fn ball_start_x() -> int {
    BOARD_WIDTH / 2 - BALL_RADIUS
}

/// Vertical position at which the ball starts a round.
pub open spec fn ball_start_y() -> int {
    BOARD_HEIGHT / 2 - BALL_RADIUS
}

/// The board after a round reset: both paddles centred and at rest, the
/// ball at the arena centre moving horizontally toward the serving side,
/// the freeze timer and the controller state cleared.  Scores, the debug
/// override and the arena geometry are untouched.
pub open spec fn start_game_spec(b: Board, lhs_start: bool) -> Board {
    Board {
        lhs_paddle: Paddle {
            bound: Rect {
                x: lhs_paddle_x() as i64,
                y: paddle_start_y() as i64,
                ..b.lhs_paddle.bound
            },
            dy: 0,
            ddy: 0,
        },
        rhs_paddle: Paddle {
            bound: Rect {
                x: rhs_paddle_x() as i64,
                y: paddle_start_y() as i64,
                ..b.rhs_paddle.bound
            },
            dy: 0,
            ddy: 0,
        },
        delay: 0,
        ball: Ball {
            bound: Rect { x: ball_start_x() as i64, y: ball_start_y() as i64, ..b.ball.bound },
            dx: if lhs_start {
                (-(BALL_START_SPEED as int)) as i64
            } else {
                BALL_START_SPEED
            },
            dy: 0,
        },
        ai_last_offset: 0,
        ai_accum_offset: 0,
        ..b
    }
}

/// The controller's tracking target: the ball's vertical centre while the
/// ball travels toward the controlled paddle, else the arena's midline.
pub open spec fn ai_target_spec(b: Board) -> int {
    if b.ball.dx > 0 {
        b.ball.bound.y + dtz(b.ball.bound.height as int, 2)
    } else {
        dtz(b.height as int, 2)
    }
}

/// The board after the controller phase: the right paddle's acceleration
/// and the controller state advance by one tick.
pub open spec fn control_phase_spec(b: Board, dt: int) -> Board {
    let pc = b.rhs_paddle.bound.y + dtz(b.rhs_paddle.bound.height as int, 2);
    let st = ai_step_spec(
        ai_target_spec(b),
        pc,
        dt,
        b.ai_last_offset as int,
        b.ai_accum_offset as int,
        b.rhs_paddle.ddy as int,
    );
    Board {
        rhs_paddle: Paddle { ddy: st.0 as i64, ..b.rhs_paddle },
        ai_accum_offset: st.1 as i64,
        ai_last_offset: st.2 as i64,
        ..b
    }
}

/// The board after both paddles' kinematics steps.
pub open spec fn paddle_phase_spec(b: Board, dt: int) -> Board {
    Board {
        lhs_paddle: paddle_step_spec(b.lhs_paddle, dt),
        rhs_paddle: paddle_step_spec(b.rhs_paddle, dt),
        ..b
    }
}

/// The board just before collision resolution: controller, then paddles.
pub open spec fn pre_collision_spec(b: Board, dt: int) -> Board {
    paddle_phase_spec(control_phase_spec(b, dt), dt)
}

/// The board after the ball's remaining travel of the tick: a fresh paddle
/// hit arms the freeze timer and withholds travel that falls inside it; the
/// ball then advances linearly by whatever time is left.  The vertical
/// position saturates at [`BALL_POS_SAT`] as a defensive bound.
pub open spec fn travel_phase_spec(b: Board, ball1: Ball, dtl: int, hit_paddle: bool) -> Board {
    let armed = if b.override_ball_sim {
        (ball1, 0int)
    } else {
        let d1: int = if hit_paddle {
            HIT_DELAY as int
        } else {
            0
        };
        if dtl < d1 {
            (ball1, HIT_DELAY - dtl)
        } else {
            (
                Ball {
                    bound: Rect {
                        x: (ball1.bound.x + fmul_s(ball1.dx as int, dtl - d1)) as i64,
                        y: (ball1.bound.y + fmul_s(ball1.dy as int, dtl - d1)) as i64,
                        ..ball1.bound
                    },
                    ..ball1
                },
                0int,
            )
        }
    };
    let moved = armed.0;
    Board {
        ball: Ball {
            bound: Rect {
                y: clamp_s(moved.bound.y as int, BALL_POS_SAT as int) as i64,
                ..moved.bound
            },
            ..moved
        },
        delay: armed.1 as i64,
        ..b
    }
}

/// The scoring step: a ball past the left boundary scores for the right
/// side and the round restarts serving left; past the right boundary the
/// left side scores and the round restarts serving right.
pub open spec fn score_phase_spec(b: Board) -> (Board, bool) {
    if b.ball.bound.x < 0 {
        (start_game_spec(Board { rhs_score: (b.rhs_score + 1) as u32, ..b }, true), true)
    } else if b.ball.bound.x > b.width {
        (start_game_spec(Board { lhs_score: (b.lhs_score + 1) as u32, ..b }, false), true)
    } else {
        (b, false)
    }
}

/// One full tick of `dt` milliseconds: the freeze timer absorbs the tick
/// wholly or in part; then the controller, the paddle kinematics, the
/// collision resolution loop, the remaining ball travel, and the scoring
/// check run in order.
pub open spec fn update_spec(b: Board, dt: int) -> (Board, TickEvents) {
    if b.delay >= dt {
        (
            Board { delay: (b.delay - dt) as i64, ..b },
            TickEvents { hit_paddle: false, hit_any: false, scored: false },
        )
    } else {
        let dt2 = dt - b.delay;
        let b1 = pre_collision_spec(Board { delay: 0, ..b }, dt2);
        let res = resolve_rec(
            b1.ball,
            colliders_spec(b1),
            dt2,
            MAX_ITERATIONS as nat,
            false,
            false,
            false,
        );
        let hit_paddle = res.2 || res.3;
        let b2 = travel_phase_spec(b1, res.0, res.1, hit_paddle);
        let sc = score_phase_spec(b2);
        (sc.0, TickEvents { hit_paddle: hit_paddle, hit_any: res.4, scored: sc.1 })
    }
}

impl Board {
    /// A fresh match: zero scores, centred paddles at rest, the ball at
    /// rest at the arena centre, cleared timers and controller state.
    pub fn new() -> (b: Board)
        ensures
            b.wf(),
            b.lhs_score == 0 && b.rhs_score == 0,
            b.width == BOARD_WIDTH && b.height == BOARD_HEIGHT,
            b.lhs_goal_height == GOAL_HEIGHT && b.rhs_goal_height == GOAL_HEIGHT,
            b.lhs_paddle.bound.y == paddle_start_y() && b.rhs_paddle.bound.y == paddle_start_y(),
            b.lhs_paddle.dy == 0 && b.lhs_paddle.ddy == 0,
            b.rhs_paddle.dy == 0 && b.rhs_paddle.ddy == 0,
            b.ball.bound.x == ball_start_x() && b.ball.bound.y == ball_start_y(),
            b.ball.dx == 0 && b.ball.dy == 0,
            b.delay == 0 && !b.override_ball_sim,
            b.ai_last_offset == 0 && b.ai_accum_offset == 0,
    {
        Board {
            lhs_score: 0,
            rhs_score: 0,
            width: BOARD_WIDTH,
            height: BOARD_HEIGHT,
            lhs_goal_height: GOAL_HEIGHT,
            rhs_goal_height: GOAL_HEIGHT,
            lhs_paddle: Paddle {
                bound: Rect {
                    x: PADDLE_X_OFFSET - PADDLE_WIDTH / 2,
                    y: BOARD_HEIGHT / 2 - PADDLE_HEIGHT / 2,
                    width: PADDLE_WIDTH,
                    height: PADDLE_HEIGHT,
                },
                dy: 0,
                ddy: 0,
            },
            rhs_paddle: Paddle {
                bound: Rect {
                    x: BOARD_WIDTH - PADDLE_X_OFFSET - PADDLE_WIDTH / 2,
                    y: BOARD_HEIGHT / 2 - PADDLE_HEIGHT / 2,
                    width: PADDLE_WIDTH,
                    height: PADDLE_HEIGHT,
                },
                dy: 0,
                ddy: 0,
            },
            ball: Ball {
                bound: Rect {
                    x: BOARD_WIDTH / 2 - BALL_RADIUS,
                    y: BOARD_HEIGHT / 2 - BALL_RADIUS,
                    width: 2 * BALL_RADIUS,
                    height: 2 * BALL_RADIUS,
                },
                dx: 0,
                dy: 0,
            },
            delay: 0,
            override_ball_sim: false,
            ai_last_offset: 0,
            ai_accum_offset: 0,
        }
    }

    /// Which side has won: the left side exactly when its score stands at
    /// the win threshold, else the right side exactly when its score does;
    /// `None` while neither has reached it.
    pub fn winner(&self) -> (r: Option<bool>)
        ensures
            (r == Some(true)) <==> self.lhs_score == WIN_SCORE,
            (r == Some(false)) <==> (self.lhs_score != WIN_SCORE && self.rhs_score == WIN_SCORE),
            (r is None) <==> (self.lhs_score != WIN_SCORE && self.rhs_score != WIN_SCORE),
    {
        if self.lhs_score == WIN_SCORE {
            Some(true)
        } else if self.rhs_score == WIN_SCORE {
            Some(false)
        } else {
            None
        }
    }

    /// Reset round-start geometry without touching the scores: paddles
    /// centred and at rest, ball at the centre serving toward the side
    /// given by `lhs_start`, timers and controller state cleared.
    pub fn start_game(&mut self, lhs_start: bool)
        ensures
            *final(self) == start_game_spec(*old(self), lhs_start),
            fixed_geometry_wf(*old(self)) ==> final(self).wf(),
    {
        self.lhs_paddle.bound.x = PADDLE_X_OFFSET - PADDLE_WIDTH / 2;
        self.lhs_paddle.bound.y = BOARD_HEIGHT / 2 - PADDLE_HEIGHT / 2;
        self.lhs_paddle.dy = 0;
        self.lhs_paddle.ddy = 0;
        self.rhs_paddle.bound.x = BOARD_WIDTH - PADDLE_X_OFFSET - PADDLE_WIDTH / 2;
        self.rhs_paddle.bound.y = BOARD_HEIGHT / 2 - PADDLE_HEIGHT / 2;
        self.rhs_paddle.dy = 0;
        self.rhs_paddle.ddy = 0;
        self.delay = 0;
        self.ball.bound.x = BOARD_WIDTH / 2 - BALL_RADIUS;
        self.ball.bound.y = BOARD_HEIGHT / 2 - BALL_RADIUS;
        self.ball.dx = if lhs_start {
            -BALL_START_SPEED
        } else {
            BALL_START_SPEED
        };
        self.ball.dy = 0;
        self.ai_last_offset = 0;
        self.ai_accum_offset = 0;
        proof {
            assert(*self == start_game_spec(*old(self), lhs_start));
            if fixed_geometry_wf(*old(self)) {
                assert(self.ball.dx * self.ball.dx + self.ball.dy * self.ball.dy
                    == BALL_START_SPEED * BALL_START_SPEED) by (nonlinear_arith)
                    requires
                        self.ball.dx as int == BALL_START_SPEED || self.ball.dx as int == -(
                        BALL_START_SPEED as int),
                        self.ball.dy == 0,
                ;
            }
        }
    }

    /// Translate a key event into a state change: a held direction key sets
    /// the player paddle's acceleration, and a release clears it only if it
    /// still points the released way (so releasing one key never cancels
    /// acceleration set by the opposite key still held); the debug keys
    /// toggle the ball-simulation override and nudge the ball; the restart
    /// key forces an immediate round reset.
    pub fn handle_input(&mut self, key: Key, pressed: bool)
        requires
            old(self).wf(),
        ensures
            *final(self) == handle_input_spec(*old(self), key, pressed),
            final(self).wf(),
    {
        match (key, pressed) {
            (Key::Up, true) => {
                self.lhs_paddle.ddy = PLAYER_PADDLE_ACCEL;
            },
            (Key::Up, false) => {
                if self.lhs_paddle.ddy > 0 {
                    self.lhs_paddle.ddy = 0;
                }
            },
            (Key::Down, true) => {
                self.lhs_paddle.ddy = -PLAYER_PADDLE_ACCEL;
            },
            (Key::Down, false) => {
                if self.lhs_paddle.ddy < 0 {
                    self.lhs_paddle.ddy = 0;
                }
            },
            (Key::ToggleBallSim, true) => {
                self.override_ball_sim = !self.override_ball_sim;
            },
            (Key::NudgeUp, true) => {
                if self.override_ball_sim {
                    self.ball.bound.y = clamp(self.ball.bound.y + 100 * SCALE, BALL_POS_SAT);
                }
            },
            (Key::NudgeDown, true) => {
                if self.override_ball_sim {
                    self.ball.bound.y = clamp(self.ball.bound.y - 100 * SCALE, BALL_POS_SAT);
                }
            },
            (Key::Restart, true) => {
                self.start_game(true);
            },
            _ => {},
        }
    }
}

/// The state change of one key event; see [`Board::handle_input`].
pub open spec fn handle_input_spec(b: Board, key: Key, pressed: bool) -> Board {
    match (key, pressed) {
        (Key::Up, true) => Board {
            lhs_paddle: Paddle { ddy: PLAYER_PADDLE_ACCEL, ..b.lhs_paddle },
            ..b
        },
        (Key::Up, false) => if b.lhs_paddle.ddy > 0 {
            Board { lhs_paddle: Paddle { ddy: 0, ..b.lhs_paddle }, ..b }
        } else {
            b
        },
        (Key::Down, true) => Board {
            lhs_paddle: Paddle { ddy: (-(PLAYER_PADDLE_ACCEL as int)) as i64, ..b.lhs_paddle },
            ..b
        },
        (Key::Down, false) => if b.lhs_paddle.ddy < 0 {
            Board { lhs_paddle: Paddle { ddy: 0, ..b.lhs_paddle }, ..b }
        } else {
            b
        },
        (Key::ToggleBallSim, true) => Board { override_ball_sim: !b.override_ball_sim, ..b },
        (Key::NudgeUp, true) => if b.override_ball_sim {
            Board {
                ball: Ball {
                    bound: Rect {
                        y: clamp_s(b.ball.bound.y + 100 * SCALE, BALL_POS_SAT as int) as i64,
                        ..b.ball.bound
                    },
                    ..b.ball
                },
                ..b
            }
        } else {
            b
        },
        (Key::NudgeDown, true) => if b.override_ball_sim {
            Board {
                ball: Ball {
                    bound: Rect {
                        y: clamp_s(b.ball.bound.y - 100 * SCALE, BALL_POS_SAT as int) as i64,
                        ..b.ball.bound
                    },
                    ..b.ball
                },
                ..b
            }
        } else {
            b
        },
        (Key::Restart, true) => start_game_spec(b, true),
        _ => b,
    }
}

/// The build-time-fixed geometry of the match: the arena extents, the goal
/// openings and the entity sizes.  A round reset preserves it and needs no
/// more than it to restore full well-formedness.
pub open spec fn fixed_geometry_wf(b: Board) -> bool {
    &&& b.width == BOARD_WIDTH
    &&& b.height == BOARD_HEIGHT
    &&& b.lhs_goal_height == GOAL_HEIGHT
    &&& b.rhs_goal_height == GOAL_HEIGHT
    &&& b.lhs_paddle.bound.width == PADDLE_WIDTH
    &&& b.lhs_paddle.bound.height == PADDLE_HEIGHT
    &&& b.rhs_paddle.bound.width == PADDLE_WIDTH
    &&& b.rhs_paddle.bound.height == PADDLE_HEIGHT
    &&& b.ball.bound.width == 2 * BALL_RADIUS
    &&& b.ball.bound.height == 2 * BALL_RADIUS
}

impl Board {
    /// Advance the match by `dt` milliseconds: absorb the tick into an
    /// armed freeze timer, else run the controller, the paddle kinematics,
    /// the sub-step collision resolution, the remaining ball travel and the
    /// scoring check.  Returns which audio side effects the tick asks for.
    pub fn update(&mut self, dt: i64) -> (ev: TickEvents)
        requires
            old(self).wf(),
            0 <= dt <= DT_MAX,
            old(self).lhs_score < u32::MAX,
            old(self).rhs_score < u32::MAX,
        ensures
            *final(self) == update_spec(*old(self), dt as int).0,
            ev == update_spec(*old(self), dt as int).1,
            final(self).wf(),
    {
        if self.delay >= dt {
            self.delay = self.delay - dt;
            return TickEvents { hit_paddle: false, hit_any: false, scored: false };
        }
        let dt2 = dt - self.delay;
        self.delay = 0;
        let ghost bd = *self;
        let target = if self.ball.dx > 0 {
            self.ball.bound.y + div_tz(self.ball.bound.height, 2)
        } else {
            div_tz(self.height, 2)
        };
        let pc = self.rhs_paddle.bound.y + div_tz(self.rhs_paddle.bound.height, 2);
        let st = ai_step(
            target,
            pc,
            dt2,
            self.ai_last_offset,
            self.ai_accum_offset,
            self.rhs_paddle.ddy,
        );
        self.rhs_paddle.ddy = st.0;
        self.ai_accum_offset = st.1;
        self.ai_last_offset = st.2;
        proof {
            assert(*self == control_phase_spec(bd, dt2 as int));
        }
        self.lhs_paddle.step(dt2);
        self.rhs_paddle.step(dt2);
        let ghost b1 = *self;
        proof {
            assert(b1 == pre_collision_spec(bd, dt2 as int));
        }
        let cols = build_colliders(&*self);
        let res = resolve_collisions(&mut self.ball, &cols, dt2);
        let dtl = res.0;
        let hl = res.1;
        let hr = res.2;
        let ha = res.3;
        let hit_paddle = hl || hr;
        let ghost ball1 = self.ball;
        if !self.override_ball_sim {
            let d1: i64 = if hit_paddle {
                HIT_DELAY
            } else {
                0
            };
            if dtl < d1 {
                self.delay = HIT_DELAY - dtl;
            } else {
                let move_t = dtl - d1;
                proof {
                    crate::ball::lemma_speed_bound(self.ball.dx as int, self.ball.dy as int);
                    lemma_mul_bound(
                        self.ball.dx as int,
                        move_t as int,
                        BALL_MAX_SPEED as int,
                        DT_MAX as int,
                    );
                    lemma_mul_bound(
                        self.ball.dy as int,
                        move_t as int,
                        BALL_MAX_SPEED as int,
                        DT_MAX as int,
                    );
                    lemma_dtz_bound(
                        self.ball.dx as int * move_t as int,
                        SCALE as int,
                        SCALE as int,
                        BALL_MAX_SPEED * DT_MAX,
                    );
                    lemma_dtz_bound(
                        self.ball.dy as int * move_t as int,
                        SCALE as int,
                        SCALE as int,
                        BALL_MAX_SPEED * DT_MAX,
                    );
                }
                self.ball.bound.x = self.ball.bound.x + fmul(self.ball.dx, move_t);
                self.ball.bound.y = self.ball.bound.y + fmul(self.ball.dy, move_t);
            }
        }
        self.ball.bound.y = clamp(self.ball.bound.y, BALL_POS_SAT);
        let ghost b2 = *self;
        proof {
            assert(b2 == travel_phase_spec(b1, ball1, dtl as int, hit_paddle));
        }
        let scored: bool;
        if self.ball.bound.x < 0 {
            self.rhs_score = self.rhs_score + 1;
            self.start_game(true);
            scored = true;
        } else if self.ball.bound.x > self.width {
            self.lhs_score = self.lhs_score + 1;
            self.start_game(false);
            scored = true;
        } else {
            scored = false;
        }
        proof {
            assert((*self, scored) == score_phase_spec(b2));
        }
        TickEvents { hit_paddle: hit_paddle, hit_any: ha, scored: scored }
    }
}

/// A round reset is idempotent: resetting twice in a row with the same
/// serving side yields exactly the state of resetting once.
pub proof fn lemma_start_game_idempotent(b: Board, lhs_start: bool)
    ensures
        start_game_spec(start_game_spec(b, lhs_start), lhs_start) == start_game_spec(b, lhs_start),
{
}

/// Scoring: a ball past the left boundary increments only the right score,
/// by exactly one, and restarts the round serving left (the ball reset to
/// the arena's horizontal centre, moving left); a ball past the right
/// boundary increments only the left score and restarts serving right; a
/// ball within the arena changes nothing and scores nothing.
pub proof fn lemma_scoring(b: Board)
    requires
        b.lhs_score < u32::MAX,
        b.rhs_score < u32::MAX,
        b.width >= 0,
    ensures
        b.ball.bound.x < 0 ==> ({
            let r = score_phase_spec(b);
            &&& r.1
            &&& r.0.rhs_score == b.rhs_score + 1
            &&& r.0.lhs_score == b.lhs_score
            &&& r.0 == start_game_spec(
                Board { rhs_score: (b.rhs_score + 1) as u32, ..b },
                true,
            )
            &&& r.0.ball.bound.x == ball_start_x()
            &&& r.0.ball.dx == -(BALL_START_SPEED as int)
        }),
        b.ball.bound.x > b.width ==> ({
            let r = score_phase_spec(b);
            &&& r.1
            &&& r.0.lhs_score == b.lhs_score + 1
            &&& r.0.rhs_score == b.rhs_score
            &&& r.0 == start_game_spec(
                Board { lhs_score: (b.lhs_score + 1) as u32, ..b },
                false,
            )
            &&& r.0.ball.bound.x == ball_start_x()
            &&& r.0.ball.dx == BALL_START_SPEED
        }),
        0 <= b.ball.bound.x <= b.width ==> score_phase_spec(b) == (b, false),
{
}

/// Linear motion: on a tick in which the first collider scan finds no
/// contact, no freeze timer is armed and the override is off, the ball's
/// position advances linearly by its velocity times the elapsed time, and
/// its velocity is unchanged.
pub proof fn lemma_linear_motion(b: Board, dt: int)
    requires
        b.wf(),
        0 < dt <= DT_MAX,
        b.delay == 0,
        !b.override_ball_sim,
        ({
            let b1 = pre_collision_spec(b, dt);
            scan_spec(
                b1.ball,
                colliders_spec(b1),
                0,
                fmul_s(b1.ball.dx as int, dt),
                fmul_s(b1.ball.dy as int, dt),
            ) is None
        }),
        0 <= b.ball.bound.x + fmul_s(b.ball.dx as int, dt) <= b.width,
        abs_s(b.ball.bound.y + fmul_s(b.ball.dy as int, dt)) <= BALL_POS_SAT,
    ensures
        update_spec(b, dt).0.ball.bound.x == b.ball.bound.x + fmul_s(b.ball.dx as int, dt),
        update_spec(b, dt).0.ball.bound.y == b.ball.bound.y + fmul_s(b.ball.dy as int, dt),
        update_spec(b, dt).0.ball.dx == b.ball.dx,
        update_spec(b, dt).0.ball.dy == b.ball.dy,
        update_spec(b, dt).1 == (TickEvents { hit_paddle: false, hit_any: false, scored: false }),
{
    let bd = Board { delay: 0, ..b };
    assert(bd == b);
    let b1 = pre_collision_spec(b, dt);
    assert(b1.ball == b.ball);
    let cols = colliders_spec(b1);
    let idx = fmul_s(b.ball.dx as int, dt);
    let idy = fmul_s(b.ball.dy as int, dt);
    assert(resolve_rec(b1.ball, cols, dt, MAX_ITERATIONS as nat, false, false, false) == (
    b1.ball,
    dt,
    false,
    false,
    false,
    ));
    let b2 = travel_phase_spec(b1, b1.ball, dt, false);
    assert(b2.ball.bound.x == b.ball.bound.x + idx);
    assert(b2.ball.bound.y == b.ball.bound.y + idy);
    assert(score_phase_spec(b2) == (b2, false));
}

} // verus!
