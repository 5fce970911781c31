//! The controller that drives the right-hand paddle: a PID law on the
//! vertical offset between the paddle's centre and its tracking target.

use crate::fixed::{
    clamp, clamp_s, fdiv, fdiv_s, fmul, fmul_s, lemma_dtz_bound, lemma_dtz_le_self,
    lemma_mul_bound, sgn, sgn_s, SCALE,
};
use crate::tuning::{
    AI_ACCUM_SAT, AI_DDY_BOUND, AI_PADDLE_D_FACTOR, AI_PADDLE_I_FACTOR, AI_PADDLE_MAX_ACCEL,
    AI_PADDLE_P_FACTOR, DT_MAX,
};
use vstd::prelude::*;

verus! {

/// Largest tracking-target magnitude the controller accepts.
pub const AI_TARGET_LIMIT: i64 = 1_100_000_000;

/// Largest paddle-centre magnitude the controller accepts.
pub const AI_CENTER_LIMIT: i64 = 1_000_000;

/// Largest remembered-offset magnitude the controller accepts and produces.
pub const AI_OFFSET_LIMIT: i64 = 2_000_000_000;

/// The integral accumulator after one tick: it resets to zero whenever the
/// offset's sign flips (anti-windup), and otherwise accumulates the offset,
/// saturating at [`AI_ACCUM_SAT`].
pub open spec fn ai_accum_spec(accum: int, offset: int) -> int {
    if sgn_s(accum) != sgn_s(offset) {
        0
    } else {
        clamp_s(accum + offset, AI_ACCUM_SAT as int)
    }
}

/// One controller tick: `(new acceleration, new accumulator, new last offset)`
/// from the tracking target, the paddle centre, the elapsed time and the
/// previous controller state.  The derivative term is skipped on a
/// zero-length tick, and the change of acceleration is clamped to
/// [`AI_PADDLE_MAX_ACCEL`] per tick.
pub open spec fn ai_step_spec(
    target: int,
    pc: int,
    dt: int,
    last: int,
    accum: int,
    ddy: int,
) -> (int, int, int) {
    let offset = target - pc;
    let accum2 = ai_accum_spec(accum, offset);
    let d = if dt == 0 {
        0
    } else {
        fdiv_s(offset - last, dt)
    };
    let want = AI_PADDLE_P_FACTOR * offset + fmul_s(accum2, AI_PADDLE_I_FACTOR as int)
        + AI_PADDLE_D_FACTOR * d;
    let ddy2 = ddy + clamp_s(want - ddy, AI_PADDLE_MAX_ACCEL as int);
    (ddy2, accum2, offset)
}

/// Run one controller tick.
pub fn ai_step(target: i64, pc: i64, dt: i64, last: i64, accum: i64, ddy: i64) -> (r: (
    i64,
    i64,
    i64,
))
    requires
        -AI_TARGET_LIMIT <= target <= AI_TARGET_LIMIT,
        -AI_CENTER_LIMIT <= pc <= AI_CENTER_LIMIT,
        0 <= dt <= DT_MAX,
        -AI_OFFSET_LIMIT <= last <= AI_OFFSET_LIMIT,
        -AI_ACCUM_SAT <= accum <= AI_ACCUM_SAT,
        -AI_DDY_BOUND <= ddy <= AI_DDY_BOUND,
    ensures
        (r.0 as int, r.1 as int, r.2 as int) == ai_step_spec(
            target as int,
            pc as int,
            dt as int,
            last as int,
            accum as int,
            ddy as int,
        ),
        -AI_DDY_BOUND <= r.0 <= AI_DDY_BOUND,
        -AI_ACCUM_SAT <= r.1 <= AI_ACCUM_SAT,
        -AI_OFFSET_LIMIT <= r.2 <= AI_OFFSET_LIMIT,
{
    let offset = target - pc;
    let accum2 = if sgn(accum) != sgn(offset) {
        0
    } else {
        clamp(accum + offset, AI_ACCUM_SAT)
    };
    let d = if dt == 0 {
        0
    } else {
        fdiv(offset - last, dt)
    };
    proof {
        if dt != 0 {
            lemma_dtz_le_self((offset as int - last as int) * SCALE, dt as int);
        }
        lemma_mul_bound(accum2 as int, AI_PADDLE_I_FACTOR as int, AI_ACCUM_SAT as int, 100int);
        lemma_dtz_bound(
            accum2 as int * AI_PADDLE_I_FACTOR as int,
            SCALE as int,
            SCALE as int,
            AI_ACCUM_SAT * 100,
        );
    }
    let want = AI_PADDLE_P_FACTOR * offset + fmul(accum2, AI_PADDLE_I_FACTOR)
        + AI_PADDLE_D_FACTOR * d;
    let ddy2 = ddy + clamp(want - ddy, AI_PADDLE_MAX_ACCEL);
    (ddy2, accum2, offset)
}

} // verus!
