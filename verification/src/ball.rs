//! The ball and its velocity-normalising reflection policy.

use crate::fixed::{
    abs, abs_s, clamp, clamp_s, div_tz, dtz, fdiv, fdiv_s, isqrt, isqrt_ceil,
    lemma_sqrt_ceil, lemma_sqrt_floor, sgn_s, sqrt_ceil, sqrt_floor, SCALE,
};
use crate::geom::Rect;
use crate::tuning::{BALL_MAX_SLOPE, BALL_MAX_SPEED, BALL_POS_SAT, BALL_RADIUS, BOARD_WIDTH};
use vstd::prelude::*;

verus! {

/// Largest velocity component magnitude [`Ball::set_speed`] accepts; every
/// reflected velocity the simulation produces stays well below it.
pub const BALL_SET_LIMIT: i64 = 4_000_000;

/// The ball: its bounding square and its velocity in milliunits per second.
#[derive(Clone, Copy, PartialEq, Eq, Structural, Debug)]
pub struct Ball {
    pub bound: Rect,
    pub dx: i64,
    pub dy: i64,
}

/// The velocity `(dx, dy)` after the speed/slope-clamped normalisation.
///
/// The speed magnitude is clamped to [`BALL_MAX_SPEED`] and the slope
/// `dy/dx` to [`BALL_MAX_SLOPE`], preserving the sign of `dx`; a purely
/// vertical velocity keeps its direction and only has its magnitude clamped.
pub open spec fn set_speed_spec(dx: int, dy: int) -> (int, int) {
    if dx == 0 && dy == 0 {
        (0, 0)
    } else if dx == 0 {
        let mag = if abs_s(dy) > BALL_MAX_SPEED {
            BALL_MAX_SPEED as int
        } else {
            abs_s(dy)
        };
        (0, sgn_s(dy) * mag)
    } else {
        let mag0 = sqrt_floor(dx * dx + dy * dy);
        let mag = if mag0 > BALL_MAX_SPEED {
            BALL_MAX_SPEED as int
        } else {
            mag0
        };
        let slope = clamp_s(fdiv_s(dy, dx), BALL_MAX_SLOPE as int);
        let den = sqrt_ceil(SCALE * SCALE + slope * slope);
        (sgn_s(dx) * dtz(mag * SCALE, den), sgn_s(dx) * dtz(mag * slope, den))
    }
}

impl Ball {
    /// A well-formed ball: a square of ball diameter, horizontally inside
    /// the arena, vertically within the defensive saturation bound, moving
    /// no faster than the speed limit.
    pub open spec fn wf(self) -> bool {
        &&& self.bound.width == 2 * BALL_RADIUS
        &&& self.bound.height == 2 * BALL_RADIUS
        &&& 0 <= self.bound.x <= BOARD_WIDTH
        &&& abs_s(self.bound.y as int) <= BALL_POS_SAT
        &&& self.dx * self.dx + self.dy * self.dy <= BALL_MAX_SPEED * BALL_MAX_SPEED
    }

    /// Set the velocity to `(dx, dy)` normalised by the clamped reflection
    /// policy: speed magnitude at most [`BALL_MAX_SPEED`], slope at most
    /// [`BALL_MAX_SLOPE`] whenever the incoming velocity has a horizontal
    /// component, and the horizontal sense of travel preserved.
    pub fn set_speed(&mut self, dx: i64, dy: i64)
        requires
            abs_s(dx as int) <= BALL_SET_LIMIT,
            abs_s(dy as int) <= BALL_SET_LIMIT,
        ensures
            final(self).bound == old(self).bound,
            (final(self).dx as int, final(self).dy as int) == set_speed_spec(
                dx as int,
                dy as int,
            ),
            final(self).dx * final(self).dx + final(self).dy * final(self).dy <= BALL_MAX_SPEED
                * BALL_MAX_SPEED,
            dx != 0 ==> abs_s(final(self).dy as int) * SCALE <= abs_s(final(self).dx as int)
                * BALL_MAX_SLOPE,
            dx != 0 ==> sgn_s(final(self).dx as int) == sgn_s(dx as int) || final(self).dx == 0,
    {
        if dx == 0 && dy == 0 {
            self.dx = 0;
            self.dy = 0;
            proof {
                assert(set_speed_spec(dx as int, dy as int) == (0int, 0int));
            }
            return ;
        }
        if dx == 0 {
            let mut mag = abs(dy);
            if mag > BALL_MAX_SPEED {
                mag = BALL_MAX_SPEED;
            }
            self.dx = 0;
            self.dy = if dy >= 0 {
                mag
            } else {
                -mag
            };
            proof {
                assert(self.dy as int == sgn_s(dy as int) * mag as int && self.dy * self.dy
                    <= BALL_MAX_SPEED * BALL_MAX_SPEED) by (nonlinear_arith)
                    requires
                        0 <= mag as int <= BALL_MAX_SPEED,
                        self.dy as int == (if dy as int >= 0 {
                            mag as int
                        } else {
                            -(mag as int)
                        }),
                        sgn_s(dy as int) == (if dy as int >= 0 {
                            1int
                        } else {
                            -1int
                        }),
                ;
            }
            return ;
        }
        proof {
            assert(0 <= dx as int * dx as int <= BALL_SET_LIMIT * BALL_SET_LIMIT && 0 <= dy as int
                * dy as int <= BALL_SET_LIMIT * BALL_SET_LIMIT) by (nonlinear_arith)
                requires
                    -(BALL_SET_LIMIT as int) <= dx as int <= BALL_SET_LIMIT,
                    -(BALL_SET_LIMIT as int) <= dy as int <= BALL_SET_LIMIT,
            ;
        }
        let mag0 = isqrt(dx * dx + dy * dy);
        let mag = if mag0 > BALL_MAX_SPEED {
            BALL_MAX_SPEED
        } else {
            mag0
        };
        let slope = clamp(fdiv(dy, dx), BALL_MAX_SLOPE);
        proof {
            assert(0 <= slope * slope <= BALL_MAX_SLOPE * BALL_MAX_SLOPE) by (nonlinear_arith)
                requires
                    -(BALL_MAX_SLOPE as int) <= slope as int <= BALL_MAX_SLOPE,
            ;
        }
        let den = isqrt_ceil(SCALE * SCALE + slope * slope);
        proof {
            lemma_sqrt_ceil((SCALE * SCALE + slope * slope) as int);
            assert(den >= SCALE) by (nonlinear_arith)
                requires
                    den >= 0,
                    den * den >= SCALE * SCALE + slope * slope,
                    slope * slope >= 0,
            ;
        }
        let q1 = div_tz(mag * SCALE, den);
        proof {
            assert(-(BALL_MAX_SPEED as int) * BALL_MAX_SLOPE <= mag as int * slope as int
                <= BALL_MAX_SPEED * BALL_MAX_SLOPE) by (nonlinear_arith)
                requires
                    0 <= mag as int <= BALL_MAX_SPEED,
                    -(BALL_MAX_SLOPE as int) <= slope as int <= BALL_MAX_SLOPE,
            ;
        }
        let q2 = div_tz(mag * slope, den);
        proof {
            lemma_set_speed_clamped(mag as int, slope as int, den as int, q1 as int, q2 as int);
        }
        self.dx = if dx >= 0 {
            q1
        } else {
            -q1
        };
        self.dy = if dx >= 0 {
            q2
        } else {
            -q2
        };
        proof {
            let sg = sgn_s(dx as int);
            assert(self.dx as int == sg * q1 as int && self.dy as int == sg * q2 as int
                && self.dx as int * self.dx as int == q1 as int * q1 as int && self.dy as int
                * self.dy as int == q2 as int * q2 as int && abs_s(self.dx as int) == abs_s(
                q1 as int,
            ) && abs_s(self.dy as int) == abs_s(q2 as int)) by (nonlinear_arith)
                requires
                    sg == (if dx as int >= 0 {
                        1int
                    } else {
                        -1int
                    }),
                    self.dx as int == (if dx as int >= 0 {
                        q1 as int
                    } else {
                        -(q1 as int)
                    }),
                    self.dy as int == (if dx as int >= 0 {
                        q2 as int
                    } else {
                        -(q2 as int)
                    }),
            ;
        }
    }
}

/// A velocity whose squared magnitude is within the speed limit has both
/// components within it too.
pub proof fn lemma_speed_bound(dx: int, dy: int)
    requires
        dx * dx + dy * dy <= BALL_MAX_SPEED * BALL_MAX_SPEED,
    ensures
        abs_s(dx) <= BALL_MAX_SPEED,
        abs_s(dy) <= BALL_MAX_SPEED,
        0 <= dx * dx + dy * dy,
        0 <= sqrt_floor(dx * dx + dy * dy) <= BALL_MAX_SPEED,
{
    assert(0 <= dx * dx && 0 <= dy * dy && (abs_s(dx) > BALL_MAX_SPEED ==> dx * dx
        > BALL_MAX_SPEED * BALL_MAX_SPEED) && (abs_s(dy) > BALL_MAX_SPEED ==> dy * dy
        > BALL_MAX_SPEED * BALL_MAX_SPEED)) by (nonlinear_arith);
    crate::fixed::lemma_sqrt_floor_monotone(dx * dx + dy * dy, BALL_MAX_SPEED * BALL_MAX_SPEED);
    lemma_sqrt_floor(BALL_MAX_SPEED * BALL_MAX_SPEED);
    lemma_sqrt_floor(dx * dx + dy * dy);
    let s = sqrt_floor(BALL_MAX_SPEED * BALL_MAX_SPEED);
    assert(s == BALL_MAX_SPEED) by (nonlinear_arith)
        requires
            s >= 0,
            s * s <= BALL_MAX_SPEED * BALL_MAX_SPEED,
            (s + 1) * (s + 1) > BALL_MAX_SPEED * BALL_MAX_SPEED,
    ;
}

/// The core clamp argument: components obtained by dividing `mag * SCALE`
/// and `mag * slope` by a denominator whose square dominates
/// `SCALE^2 + slope^2` have squared magnitude at most `mag^2`, and the
/// vertical one is at most `slope / SCALE` times the horizontal one.
proof fn lemma_set_speed_clamped(mag: int, slope: int, den: int, q1: int, q2: int)
    requires
        0 <= mag <= BALL_MAX_SPEED,
        abs_s(slope) <= BALL_MAX_SLOPE,
        den >= SCALE,
        den * den >= SCALE * SCALE + slope * slope,
        q1 == dtz(mag * SCALE, den),
        q2 == dtz(mag * slope, den),
    ensures
        q1 * q1 + q2 * q2 <= BALL_MAX_SPEED * BALL_MAX_SPEED,
        abs_s(q2) * SCALE <= abs_s(q1) * BALL_MAX_SLOPE,
        0 <= q1 <= BALL_MAX_SPEED,
        abs_s(q2) <= BALL_MAX_SPEED,
{
    let s = SCALE as int;
    let sa = abs_s(slope);
    let qa = abs_s(q2);
    assert(mag * SCALE >= 0 && mag * sa >= 0 && mag * sa <= mag * s) by (nonlinear_arith)
        requires
            mag >= 0,
            0 <= sa <= s,
    ;
    crate::fixed::lemma_dtz_le_self(mag * s, den);
    crate::fixed::lemma_dtz_le_self(mag * slope, den);
    assert(q1 == (mag * s) / den);
    vstd::arithmetic::div_mod::lemma_fundamental_div_mod(mag * s, den);
    vstd::arithmetic::div_mod::lemma_mod_bound(mag * s, den);
    assert(q1 * den <= mag * s);
    assert(qa == (mag * sa) / den && (if slope >= 0 { mag * slope == mag * sa } else { mag * slope
        == -(mag * sa) })) by (nonlinear_arith)
        requires
            mag >= 0,
            sa == abs_s(slope),
            qa == abs_s(q2),
            q2 == dtz(mag * slope, den),
            den > 0,
    ;
    vstd::arithmetic::div_mod::lemma_fundamental_div_mod(mag * sa, den);
    vstd::arithmetic::div_mod::lemma_mod_bound(mag * sa, den);
    assert(qa * den <= mag * sa);
    assert(qa >= 0 && q1 >= 0) by {
        vstd::arithmetic::div_mod::lemma_div_pos_is_pos(mag * s, den);
        vstd::arithmetic::div_mod::lemma_div_pos_is_pos(mag * sa, den);
    }
    // Slope clamp: larger numerator gives larger quotient.
    crate::fixed::lemma_dtz_mag_monotone(mag * slope, mag * s, den);
    assert(qa <= q1);
    assert(qa * SCALE <= q1 * BALL_MAX_SLOPE) by (nonlinear_arith)
        requires
            0 <= qa <= q1,
            SCALE == BALL_MAX_SLOPE,
    ;
    // Speed clamp: square both component bounds and divide by den^2.
    assert((q1 * q1 + qa * qa) * (den * den) <= ((mag * mag) * (s * s + sa * sa)))
        by (nonlinear_arith)
        requires
            0 <= q1 * den <= mag * s,
            0 <= qa * den <= mag * sa,
            q1 >= 0,
            qa >= 0,
            den > 0,
            mag >= 0,
    ;
    assert((mag * mag) * (s * s + sa * sa) <= (mag * mag) * (den * den)) by (nonlinear_arith)
        requires
            den * den >= s * s + slope * slope,
            sa == abs_s(slope),
            mag * mag >= 0,
    ;
    assert(q1 * q1 + qa * qa <= mag * mag) by (nonlinear_arith)
        requires
            (q1 * q1 + qa * qa) * (den * den) <= (mag * mag) * (den * den),
            den > 0,
    ;
    assert(mag * mag <= BALL_MAX_SPEED * BALL_MAX_SPEED) by (nonlinear_arith)
        requires
            0 <= mag <= BALL_MAX_SPEED,
    ;
    assert(qa * qa == q2 * q2) by (nonlinear_arith)
        requires
            qa == abs_s(q2),
    ;
    assert(q1 <= BALL_MAX_SPEED && qa <= BALL_MAX_SPEED) by (nonlinear_arith)
        requires
            q1 >= 0,
            qa >= 0,
            q1 * q1 + qa * qa <= BALL_MAX_SPEED * BALL_MAX_SPEED,
    ;
}

} // verus!
