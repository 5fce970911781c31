//! Fixed-point arithmetic on milliunits.
//!
//! A quantity of one arena unit (or one second) is represented by `SCALE`
//! milliunits.  Products and quotients round toward zero, as the executable
//! helpers here compute them; the spec functions state that rounding exactly.

use vstd::arithmetic::div_mod::{
    lemma_div_is_ordered, lemma_div_is_ordered_by_denominator, lemma_div_multiples_vanish,
    lemma_div_nonincreasing, lemma_div_pos_is_pos,
};
use vstd::prelude::*;

verus! {

/// Milliunits per arena unit (and milliseconds per second).
pub const SCALE: i64 = 1000;

/// Sign of `x`, where zero counts as positive.
pub open spec fn sgn_s(x: int) -> int {
    if x >= 0 {
        1
    } else {
        -1
    }
}

/// Absolute value.
pub open spec fn abs_s(x: int) -> int {
    if x >= 0 {
        x
    } else {
        -x
    }
}

/// Clamp `x` into `[-lim, lim]`.
pub open spec fn clamp_s(x: int, lim: int) -> int {
    if x > lim {
        lim
    } else if x < -lim {
        -lim
    } else {
        x
    }
}

/// Dot product of the plane vectors `(ax, ay)` and `(bx, by)`.
pub open spec fn dot2(ax: int, ay: int, bx: int, by: int) -> int {
    ax * bx + ay * by
}

/// Quotient of `a` by a positive `b`, rounded toward zero.
pub open spec fn dtz(a: int, b: int) -> int
    recommends
        b > 0,
{
    if a >= 0 {
        a / b
    } else {
        -((-a) / b)
    }
}

/// Quotient of `a` by a nonzero `b` of either sign, rounded toward zero.
pub open spec fn qtz(a: int, b: int) -> int
    recommends
        b != 0,
{
    if b > 0 {
        dtz(a, b)
    } else {
        dtz(-a, -b)
    }
}

/// Fixed-point product: `a * b` scaled back down, rounded toward zero.
pub open spec fn fmul_s(a: int, b: int) -> int {
    dtz(a * b, SCALE as int)
}

/// Fixed-point quotient: `a / b` scaled up, rounded toward zero.
pub open spec fn fdiv_s(a: int, b: int) -> int
    recommends
        b != 0,
{
    qtz(a * SCALE, b)
}

/// Largest `r` with `r * r <= x` (0 for negative `x`).
pub open spec fn sqrt_floor(x: int) -> int
    decreases x,
{
    if x < 1 {
        0
    } else {
        let r = sqrt_floor(x - 1);
        if (r + 1) * (r + 1) <= x {
            r + 1
        } else {
            r
        }
    }
}

/// Smallest `r` with `r * r >= x` (0 for negative `x`).
pub open spec fn sqrt_ceil(x: int) -> int {
    let r = sqrt_floor(x);
    if r * r == x {
        r
    } else {
        r + 1
    }
}

/// The floor square root brackets its argument.
pub proof fn lemma_sqrt_floor(x: int)
    requires
        x >= 0,
    ensures
        sqrt_floor(x) >= 0,
        sqrt_floor(x) * sqrt_floor(x) <= x,
        (sqrt_floor(x) + 1) * (sqrt_floor(x) + 1) > x,
    decreases x,
{
    if x >= 1 {
        lemma_sqrt_floor(x - 1);
        let p = sqrt_floor(x - 1);
        if (p + 1) * (p + 1) <= x {
            assert((p + 2) * (p + 2) > (p + 1) * (p + 1)) by (nonlinear_arith)
                requires
                    p >= 0,
            ;
        }
    }
}

/// The ceiling square root brackets its argument.
pub proof fn lemma_sqrt_ceil(x: int)
    requires
        x >= 0,
    ensures
        sqrt_ceil(x) >= 0,
        sqrt_ceil(x) * sqrt_ceil(x) >= x,
        sqrt_ceil(x) <= sqrt_floor(x) + 1,
{
    lemma_sqrt_floor(x);
}

/// The floor square root is monotone.
pub proof fn lemma_sqrt_floor_monotone(x: int, y: int)
    requires
        x <= y,
    ensures
        sqrt_floor(x) <= sqrt_floor(y),
    decreases y - x,
{
    if x < y {
        lemma_sqrt_floor_monotone(x, y - 1);
        if y >= 1 {
            assert(sqrt_floor(y) >= sqrt_floor(y - 1));
        }
    }
}

/// A quotient rounded toward zero keeps the magnitude of division: dividing
/// a value of magnitude at most `c` by a divisor at least `m` gives a value
/// of magnitude at most `c / m`.
pub proof fn lemma_dtz_bound(a: int, b: int, m: int, c: int)
    requires
        0 < m <= b,
        -c <= a <= c,
    ensures
        -(c / m) <= dtz(a, b) <= c / m,
        c / m >= 0,
{
    lemma_div_pos_is_pos(c, m);
    if a >= 0 {
        lemma_div_is_ordered(a, c, b);
        lemma_div_is_ordered_by_denominator(c, m, b);
        lemma_div_pos_is_pos(a, b);
    } else {
        lemma_div_is_ordered(-a, c, b);
        lemma_div_is_ordered_by_denominator(c, m, b);
        lemma_div_pos_is_pos(-a, b);
    }
}

/// Rounding toward zero never increases magnitude past the dividend.
pub proof fn lemma_dtz_le_self(a: int, b: int)
    requires
        b > 0,
    ensures
        abs_s(dtz(a, b)) <= abs_s(a),
        a >= 0 ==> dtz(a, b) >= 0,
        a <= 0 ==> dtz(a, b) <= 0,
{
    if a >= 0 {
        lemma_div_nonincreasing(a, b);
        lemma_div_pos_is_pos(a, b);
    } else {
        lemma_div_nonincreasing(-a, b);
        lemma_div_pos_is_pos(-a, b);
    }
}

/// An exact multiple divides back to its factor.
pub proof fn lemma_dtz_exact(k: int, b: int)
    requires
        b > 0,
    ensures
        dtz(k * b, b) == k,
{
    if k * b >= 0 {
        assert(k * b == b * k) by (nonlinear_arith);
        lemma_div_multiples_vanish(k, b);
    } else {
        assert(-(k * b) == b * (-k)) by (nonlinear_arith);
        lemma_div_multiples_vanish(-k, b);
    }
}

/// Quotient toward zero is monotone in the magnitude of the dividend.
pub proof fn lemma_dtz_mag_monotone(a1: int, a2: int, b: int)
    requires
        b > 0,
        abs_s(a1) <= abs_s(a2),
    ensures
        abs_s(dtz(a1, b)) <= abs_s(dtz(a2, b)),
{
    lemma_dtz_le_self(a1, b);
    lemma_dtz_le_self(a2, b);
    lemma_div_is_ordered(abs_s(a1), abs_s(a2), b);
    assert(abs_s(dtz(a1, b)) == abs_s(a1) / b);
    assert(abs_s(dtz(a2, b)) == abs_s(a2) / b);
}

/// A product is bounded by the product of the bounds of its factors.
pub proof fn lemma_mul_bound(a: int, b: int, c: int, d: int)
    requires
        abs_s(a) <= c,
        abs_s(b) <= d,
    ensures
        -(c * d) <= a * b <= c * d,
        abs_s(a * b) <= c * d,
{
    assert(-(c * d) <= a * b <= c * d) by (nonlinear_arith)
        requires
            -c <= a <= c,
            -d <= b <= d,
            c >= 0,
            d >= 0,
    ;
}

/// Sign of `x` as executable code, with zero counting as positive.
pub fn sgn(x: i64) -> (r: i64)
    ensures
        r as int == sgn_s(x as int),
{
    if x >= 0 {
        1
    } else {
        -1
    }
}

/// Absolute value as executable code.
pub fn abs(x: i64) -> (r: i64)
    requires
        x > i64::MIN,
    ensures
        r as int == abs_s(x as int),
{
    if x >= 0 {
        x
    } else {
        -x
    }
}

/// Clamp `x` into `[-lim, lim]` as executable code.
pub fn clamp(x: i64, lim: i64) -> (r: i64)
    requires
        lim >= 0,
    ensures
        r as int == clamp_s(x as int, lim as int),
{
    if x > lim {
        lim
    } else if x < -lim {
        -lim
    } else {
        x
    }
}

/// Divide toward zero by a positive divisor.
pub fn div_tz(a: i64, b: i64) -> (q: i64)
    requires
        b > 0,
        a > i64::MIN,
    ensures
        q as int == dtz(a as int, b as int),
{
    proof {
        lemma_dtz_le_self(a as int, b as int);
    }
    if a >= 0 {
        ((a as u64) / (b as u64)) as i64
    } else {
        -((((-a) as u64) / (b as u64)) as i64)
    }
}

/// Divide toward zero by a positive divisor, on wide intermediates.
pub fn div_tz_wide(a: i128, b: i128) -> (q: i128)
    requires
        b > 0,
        a > i128::MIN,
    ensures
        q as int == dtz(a as int, b as int),
{
    proof {
        lemma_dtz_le_self(a as int, b as int);
    }
    if a >= 0 {
        ((a as u128) / (b as u128)) as i128
    } else {
        -((((-a) as u128) / (b as u128)) as i128)
    }
}

/// Fixed-point product, rounded toward zero.
pub fn fmul(a: i64, b: i64) -> (r: i64)
    requires
        -0x4000_0000_0000_0000 <= (a as int) * (b as int) <= 0x4000_0000_0000_0000,
    ensures
        r as int == fmul_s(a as int, b as int),
{
    proof {
        assert((a as i128) * (b as i128) == (a as int) * (b as int)) by (nonlinear_arith);
        lemma_dtz_le_self((a as int) * (b as int), SCALE as int);
    }
    let p: i128 = (a as i128) * (b as i128);
    div_tz_wide(p, SCALE as i128) as i64
}

/// Fixed-point quotient by a nonzero divisor, rounded toward zero.
pub fn fdiv(a: i64, b: i64) -> (r: i64)
    requires
        b != 0,
        b > i64::MIN,
        -0x4000_0000_0000_0000 <= (a as int) * (SCALE as int) <= 0x4000_0000_0000_0000,
    ensures
        r as int == fdiv_s(a as int, b as int),
{
    proof {
        assert((a as i128) * (SCALE as i128) == (a as int) * (SCALE as int)) by (nonlinear_arith);
        if b > 0 {
            lemma_dtz_le_self((a as int) * (SCALE as int), b as int);
        } else {
            lemma_dtz_le_self(-((a as int) * (SCALE as int)), -(b as int));
        }
    }
    let num: i128 = (a as i128) * (SCALE as i128);
    if b > 0 {
        div_tz_wide(num, b as i128) as i64
    } else {
        div_tz_wide(-num, -(b as i128)) as i64
    }
}

/// Floor square root of a nonnegative value below `2^62`.
pub fn isqrt(x: i64) -> (r: i64)
    requires
        0 <= x < 0x4000_0000_0000_0000,
    ensures
        r as int == sqrt_floor(x as int),
        0 <= r,
        r * r <= x,
{
    proof {
        lemma_sqrt_floor(x as int);
    }
    let mut lo: i64 = 0;
    let mut hi: i64 = 0x8000_0000;
    while lo + 1 < hi
        invariant
            0 <= lo < hi <= 0x8000_0000,
            lo * lo <= x,
            hi * hi > x,
            0 <= x < 0x4000_0000_0000_0000,
        decreases hi - lo,
    {
        let mid: i64 = lo + (hi - lo) / 2;
        assert(lo < mid < hi);
        assert(mid * mid <= 0x8000_0000i64 * 0x8000_0000i64) by (nonlinear_arith)
            requires
                0 < mid <= 0x8000_0000i64,
        ;
        if mid * mid <= x {
            lo = mid;
        } else {
            hi = mid;
        }
    }
    proof {
        lemma_sqrt_floor(x as int);
        let s = sqrt_floor(x as int);
        assert((lo + 1) * (lo + 1) >= hi * hi) by (nonlinear_arith)
            requires
                0 < hi,
                lo + 1 >= hi,
        ;
        assert(s == lo) by (nonlinear_arith)
            requires
                s >= 0,
                lo >= 0,
                s * s <= x as int,
                (s + 1) * (s + 1) > x as int,
                lo * lo <= x as int,
                (lo + 1) * (lo + 1) > x as int,
        ;
    }
    lo
}

/// Ceiling square root of a nonnegative value below `2^62`.
pub fn isqrt_ceil(x: i64) -> (r: i64)
    requires
        0 <= x < 0x4000_0000_0000_0000,
    ensures
        r as int == sqrt_ceil(x as int),
        0 <= r,
        r * r >= x,
{
    proof {
        lemma_sqrt_floor(x as int);
        lemma_sqrt_ceil(x as int);
    }
    let r = isqrt(x);
    proof {
        assert(r <= 0x8000_0000) by (nonlinear_arith)
            requires
                r >= 0,
                r * r <= x,
                x < 0x4000_0000_0000_0000,
        ;
    }
    if r * r == x {
        r
    } else {
        r + 1
    }
}

} // verus!
