//! Continuous collision detection between the ball's path and a line segment,
//! and elastic reflection of a velocity across a contact normal.
//!
//! The solver works on the ball's centre point `(sx, sy)`, its displacement
//! for the remaining sub-step `(sdx, sdy)`, and a target segment given by an
//! anchor `(tx, ty)` and a direction vector `(tdx, tdy)`.  It produces two
//! scaled fractions: `cs`, the fraction of the ball's own displacement at
//! which contact happens, and `ct`, the fraction along the target segment of
//! the contact point.  A contact is valid only when both lie in `(0, SCALE]`.

use crate::fixed::{
    abs_s, div_tz_wide, dot2, dtz, lemma_dtz_bound, lemma_dtz_exact, lemma_dtz_le_self,
    lemma_mul_bound, SCALE,
};
use vstd::prelude::*;

verus! {

/// Largest ball-centre coordinate magnitude the solver accepts.
pub const CCD_POS_LIMIT: i64 = 0x1_0000_0000;

/// Largest displacement component magnitude the solver accepts.
pub const CCD_DISP_LIMIT: i64 = 0x800_0000;

/// Largest segment anchor or direction component magnitude the solver accepts.
pub const CCD_GEO_LIMIT: i64 = 0x10_0000;

/// Squared length of the target segment's direction vector.
pub open spec fn seg_len2(tdx: int, tdy: int) -> int {
    tdx * tdx + tdy * tdy
}

/// Scaled fraction along the segment's supporting line of the foot of the
/// perpendicular from the ball's start position.
pub open spec fn foot_frac(sx: int, sy: int, tx: int, ty: int, tdx: int, tdy: int) -> int {
    dtz(dot2(tdx, tdy, sx - tx, sy - ty) * SCALE, seg_len2(tdx, tdy))
}

/// Horizontal part of the perpendicular offset from the ball's start position
/// to the segment's supporting line.
pub open spec fn perp_x(sx: int, sy: int, tx: int, ty: int, tdx: int, tdy: int) -> int {
    tx + dtz(foot_frac(sx, sy, tx, ty, tdx, tdy) * tdx, SCALE as int) - sx
}

/// Vertical part of the perpendicular offset.
pub open spec fn perp_y(sx: int, sy: int, tx: int, ty: int, tdx: int, tdy: int) -> int {
    ty + dtz(foot_frac(sx, sy, tx, ty, tdx, tdy) * tdy, SCALE as int) - sy
}

/// Squared length of the perpendicular offset.
pub open spec fn perp_len2(sx: int, sy: int, tx: int, ty: int, tdx: int, tdy: int) -> int {
    let nx = perp_x(sx, sy, tx, ty, tdx, tdy);
    let ny = perp_y(sx, sy, tx, ty, tdx, tdy);
    nx * nx + ny * ny
}

/// Component of the ball's displacement along the perpendicular offset.
pub open spec fn approach(
    sx: int,
    sy: int,
    sdx: int,
    sdy: int,
    tx: int,
    ty: int,
    tdx: int,
    tdy: int,
) -> int {
    dot2(perp_x(sx, sy, tx, ty, tdx, tdy), perp_y(sx, sy, tx, ty, tdx, tdy), sdx, sdy)
}

/// Scaled fraction of the ball's displacement at which it reaches the
/// segment's supporting line.
pub open spec fn path_frac(
    sx: int,
    sy: int,
    sdx: int,
    sdy: int,
    tx: int,
    ty: int,
    tdx: int,
    tdy: int,
) -> int {
    dtz(
        perp_len2(sx, sy, tx, ty, tdx, tdy) * SCALE,
        approach(sx, sy, sdx, sdy, tx, ty, tdx, tdy),
    )
}

/// Scaled fraction along the target segment of the contact point.
pub open spec fn seg_frac(
    sx: int,
    sy: int,
    sdx: int,
    sdy: int,
    tx: int,
    ty: int,
    tdx: int,
    tdy: int,
) -> int {
    let cs = path_frac(sx, sy, sdx, sdy, tx, ty, tdx, tdy);
    let px = sx + dtz(cs * sdx, SCALE as int) - tx;
    let py = sy + dtz(cs * sdy, SCALE as int) - ty;
    dtz(dot2(px, py, tdx, tdy) * SCALE, seg_len2(tdx, tdy))
}

/// The ball actually enters the bounded segment within this sub-step:
/// the segment is at least one unit long, the ball starts off the supporting
/// line and moves toward it, and both contact fractions lie in `(0, SCALE]`.
pub open spec fn contact_valid(
    sx: int,
    sy: int,
    sdx: int,
    sdy: int,
    tx: int,
    ty: int,
    tdx: int,
    tdy: int,
) -> bool {
    &&& seg_len2(tdx, tdy) >= SCALE * SCALE
    &&& perp_len2(sx, sy, tx, ty, tdx, tdy) > 0
    &&& approach(sx, sy, sdx, sdy, tx, ty, tdx, tdy) > 0
    &&& 0 < path_frac(sx, sy, sdx, sdy, tx, ty, tdx, tdy) <= SCALE
    &&& 0 < seg_frac(sx, sy, sdx, sdy, tx, ty, tdx, tdy) <= SCALE
}

/// Parametric segment/segment continuous-collision solver.
///
/// Returns `Some((cs, ct))` exactly when the contact is valid, with `cs` the
/// scaled fraction of the displacement `(sdx, sdy)` at which the contact
/// happens and `ct` the scaled fraction along the target segment.  Segments
/// shorter than one arena unit are treated as degenerate and never collide,
/// which also covers the zero-length hazard of the parametric solver.
pub fn collides(
    sx: i64,
    sy: i64,
    sdx: i64,
    sdy: i64,
    tx: i64,
    ty: i64,
    tdx: i64,
    tdy: i64,
) -> (r: Option<(i64, i64)>)
    requires
        abs_s(sx as int) <= CCD_POS_LIMIT,
        abs_s(sy as int) <= CCD_POS_LIMIT,
        abs_s(sdx as int) <= CCD_DISP_LIMIT,
        abs_s(sdy as int) <= CCD_DISP_LIMIT,
        abs_s(tx as int) <= CCD_GEO_LIMIT,
        abs_s(ty as int) <= CCD_GEO_LIMIT,
        abs_s(tdx as int) <= CCD_GEO_LIMIT,
        abs_s(tdy as int) <= CCD_GEO_LIMIT,
    ensures
        match r {
            Some(frac) => {
                &&& contact_valid(
                    sx as int,
                    sy as int,
                    sdx as int,
                    sdy as int,
                    tx as int,
                    ty as int,
                    tdx as int,
                    tdy as int,
                )
                &&& frac.0 as int == path_frac(
                    sx as int,
                    sy as int,
                    sdx as int,
                    sdy as int,
                    tx as int,
                    ty as int,
                    tdx as int,
                    tdy as int,
                )
                &&& frac.1 as int == seg_frac(
                    sx as int,
                    sy as int,
                    sdx as int,
                    sdy as int,
                    tx as int,
                    ty as int,
                    tdx as int,
                    tdy as int,
                )
                &&& 0 < frac.0 <= SCALE
                &&& 0 < frac.1 <= SCALE
            },
            None => !contact_valid(
                sx as int,
                sy as int,
                sdx as int,
                sdy as int,
                tx as int,
                ty as int,
                tdx as int,
                tdy as int,
            ),
        },
{
    let sx_w = sx as i128;
    let sy_w = sy as i128;
    let sdx_w = sdx as i128;
    let sdy_w = sdy as i128;
    let tx_w = tx as i128;
    let ty_w = ty as i128;
    let tdx_w = tdx as i128;
    let tdy_w = tdy as i128;

    proof {
        lemma_mul_bound(tdx as int, tdx as int, CCD_GEO_LIMIT as int, CCD_GEO_LIMIT as int);
        lemma_mul_bound(tdy as int, tdy as int, CCD_GEO_LIMIT as int, CCD_GEO_LIMIT as int);
    }
    let tt: i128 = tdx_w * tdx_w + tdy_w * tdy_w;
    if tt < (SCALE * SCALE) as i128 {
        return None;
    }
    let stx: i128 = sx_w - tx_w;
    let sty: i128 = sy_w - ty_w;
    proof {
        lemma_mul_bound(tdx as int, stx as int, CCD_GEO_LIMIT as int, 4_300_000_000int);
        lemma_mul_bound(tdy as int, sty as int, CCD_GEO_LIMIT as int, 4_300_000_000int);
        lemma_mul_bound(
            tdx as int * stx as int + tdy as int * sty as int,
            SCALE as int,
            9_020_000_000_000_000int,
            SCALE as int,
        );
    }
    let cn_num: i128 = (tdx_w * stx + tdy_w * sty) * (SCALE as i128);
    proof {
        lemma_dtz_bound(
            cn_num as int,
            tt as int,
            (SCALE * SCALE) as int,
            9_020_000_000_000_000_000int,
        );
    }
    let cn: i128 = div_tz_wide(cn_num, tt);
    proof {
        lemma_mul_bound(cn as int, tdx as int, 9_020_000_000_000int, CCD_GEO_LIMIT as int);
        lemma_mul_bound(cn as int, tdy as int, 9_020_000_000_000int, CCD_GEO_LIMIT as int);
        lemma_dtz_bound(cn as int * tdx as int, SCALE as int, SCALE as int, 9_460_000_000_000_000_000int);
        lemma_dtz_bound(cn as int * tdy as int, SCALE as int, SCALE as int, 9_460_000_000_000_000_000int);
    }
    let nx: i128 = tx_w + div_tz_wide(cn * tdx_w, SCALE as i128) - sx_w;
    let ny: i128 = ty_w + div_tz_wide(cn * tdy_w, SCALE as i128) - sy_w;
    proof {
        lemma_mul_bound(nx as int, nx as int, 9_470_000_000_000_000int, 9_470_000_000_000_000int);
        lemma_mul_bound(ny as int, ny as int, 9_470_000_000_000_000int, 9_470_000_000_000_000int);
    }
    let nn: i128 = nx * nx + ny * ny;
    if nn == 0 {
        return None;
    }
    proof {
        lemma_mul_bound(nx as int, sdx as int, 9_470_000_000_000_000int, CCD_DISP_LIMIT as int);
        lemma_mul_bound(ny as int, sdy as int, 9_470_000_000_000_000int, CCD_DISP_LIMIT as int);
    }
    let nsd: i128 = nx * sdx_w + ny * sdy_w;
    if nsd <= 0 {
        return None;
    }
    proof {
        lemma_mul_bound(
            nn as int,
            SCALE as int,
            180_000_000_000_000_000_000_000_000_000_000int,
            SCALE as int,
        );
        lemma_dtz_le_self(nn as int * SCALE as int, nsd as int);
    }
    let cs: i128 = div_tz_wide(nn * (SCALE as i128), nsd);
    if cs <= 0 || cs > SCALE as i128 {
        return None;
    }
    proof {
        lemma_mul_bound(cs as int, sdx as int, SCALE as int, CCD_DISP_LIMIT as int);
        lemma_mul_bound(cs as int, sdy as int, SCALE as int, CCD_DISP_LIMIT as int);
        lemma_dtz_bound(cs as int * sdx as int, SCALE as int, SCALE as int, 135_000_000_000int);
        lemma_dtz_bound(cs as int * sdy as int, SCALE as int, SCALE as int, 135_000_000_000int);
    }
    let px: i128 = sx_w + div_tz_wide(cs * sdx_w, SCALE as i128) - tx_w;
    let py: i128 = sy_w + div_tz_wide(cs * sdy_w, SCALE as i128) - ty_w;
    proof {
        lemma_mul_bound(px as int, tdx as int, 4_440_000_000int, CCD_GEO_LIMIT as int);
        lemma_mul_bound(py as int, tdy as int, 4_440_000_000int, CCD_GEO_LIMIT as int);
        lemma_mul_bound(
            px as int * tdx as int + py as int * tdy as int,
            SCALE as int,
            9_320_000_000_000_000int,
            SCALE as int,
        );
        lemma_dtz_le_self(
            (px as int * tdx as int + py as int * tdy as int) * SCALE as int,
            tt as int,
        );
    }
    let ct: i128 = div_tz_wide((px * tdx_w + py * tdy_w) * (SCALE as i128), tt);
    if ct <= 0 || ct > SCALE as i128 {
        return None;
    }
    Some((cs as i64, ct as i64))
}

/// Mirror reflection of the velocity `(vx, vy)` across the contact normal
/// `(nx, ny)`: the physical formula `v' = v - 2 (v . n) n / (n . n)`, with
/// each component's correction rounded toward zero.
pub open spec fn reflect_x_s(vx: int, vy: int, nx: int, ny: int) -> int {
    vx - dtz(2 * dot2(nx, ny, vx, vy) * nx, nx * nx + ny * ny)
}

/// Vertical component of the mirror reflection; see [`reflect_x_s`].
pub open spec fn reflect_y_s(vx: int, vy: int, nx: int, ny: int) -> int {
    vy - dtz(2 * dot2(nx, ny, vx, vy) * ny, nx * nx + ny * ny)
}

/// Reflect the velocity `(vx, vy)` across the normal `(nx, ny)`.
pub fn reflect(vx: i64, vy: i64, nx: i64, ny: i64) -> (r: (i64, i64))
    requires
        nx * nx + ny * ny > 0,
        abs_s(vx as int) <= 0x400_0000,
        abs_s(vy as int) <= 0x400_0000,
        abs_s(nx as int) <= 2 * SCALE,
        abs_s(ny as int) <= 2 * SCALE,
    ensures
        r.0 as int == reflect_x_s(vx as int, vy as int, nx as int, ny as int),
        r.1 as int == reflect_y_s(vx as int, vy as int, nx as int, ny as int),
        abs_s(r.0 as int) <= 0x4_0000_0000_0000,
        abs_s(r.1 as int) <= 0x4_0000_0000_0000,
{
    proof {
        lemma_mul_bound(nx as int, vx as int, 2 * SCALE as int, 0x400_0000int);
        lemma_mul_bound(ny as int, vy as int, 2 * SCALE as int, 0x400_0000int);
        lemma_mul_bound(
            2 * (nx as int * vx as int + ny as int * vy as int),
            nx as int,
            0x7d_0000_0000int,
            2 * SCALE as int,
        );
        lemma_mul_bound(
            2 * (nx as int * vx as int + ny as int * vy as int),
            ny as int,
            0x7d_0000_0000int,
            2 * SCALE as int,
        );
        lemma_mul_bound(nx as int, nx as int, 2 * SCALE as int, 2 * SCALE as int);
        lemma_mul_bound(ny as int, ny as int, 2 * SCALE as int, 2 * SCALE as int);
        lemma_dtz_le_self(
            2 * (nx as int * vx as int + ny as int * vy as int) * nx as int,
            nx as int * nx as int + ny as int * ny as int,
        );
        lemma_dtz_le_self(
            2 * (nx as int * vx as int + ny as int * vy as int) * ny as int,
            nx as int * nx as int + ny as int * ny as int,
        );
    }
    let vx_w = vx as i128;
    let vy_w = vy as i128;
    let nx_w = nx as i128;
    let ny_w = ny as i128;
    proof {
        assert(0 <= nx_w as int * nx_w as int <= 4_000_000) by (nonlinear_arith)
            requires
                -2000 <= nx_w as int <= 2000,
        ;
        assert(0 <= ny_w as int * ny_w as int <= 4_000_000) by (nonlinear_arith)
            requires
                -2000 <= ny_w as int <= 2000,
        ;
    }
    let nn: i128 = nx_w * nx_w + ny_w * ny_w;
    let nv2: i128 = 2 * (nx_w * vx_w + ny_w * vy_w);
    let rx: i128 = vx_w - div_tz_wide(nv2 * nx_w, nn);
    let ry: i128 = vy_w - div_tz_wide(nv2 * ny_w, nn);
    (rx as i64, ry as i64)
}

/// Elastic-collision law for the static colliders of the arena: reflecting
/// across an axis-aligned unit normal flips one velocity component exactly,
/// so the post-reflection speed magnitude equals the pre-reflection one.
pub proof fn lemma_reflect_elastic(vx: int, vy: int, nx: int, ny: int)
    requires
        (nx == 0 && (ny == SCALE || ny == -(SCALE as int))) || (ny == 0 && (nx == SCALE || nx == -(
        SCALE as int))),
    ensures
        ({
            let rx = reflect_x_s(vx, vy, nx, ny);
            let ry = reflect_y_s(vx, vy, nx, ny);
            rx * rx + ry * ry == vx * vx + vy * vy
        }),
{
    let s = SCALE as int;
    if nx == 0 {
        assert(2 * (nx * vx + ny * vy) * nx == 0 * (s * s)) by (nonlinear_arith)
            requires
                nx == 0,
        ;
        assert(2 * (nx * vx + ny * vy) * ny == (2 * vy) * (s * s)) by (nonlinear_arith)
            requires
                nx == 0,
                ny == s || ny == -s,
        ;
        assert(nx * nx + ny * ny == s * s) by (nonlinear_arith)
            requires
                nx == 0,
                ny == s || ny == -s,
        ;
        lemma_dtz_exact(0, s * s);
        lemma_dtz_exact(2 * vy, s * s);
        assert(reflect_x_s(vx, vy, nx, ny) == vx);
        assert(reflect_y_s(vx, vy, nx, ny) == vy - 2 * vy);
        assert((vy - 2 * vy) * (vy - 2 * vy) == vy * vy) by (nonlinear_arith);
    } else {
        assert(2 * (nx * vx + ny * vy) * ny == 0 * (s * s)) by (nonlinear_arith)
            requires
                ny == 0,
        ;
        assert(2 * (nx * vx + ny * vy) * nx == (2 * vx) * (s * s)) by (nonlinear_arith)
            requires
                ny == 0,
                nx == s || nx == -s,
        ;
        assert(nx * nx + ny * ny == s * s) by (nonlinear_arith)
            requires
                ny == 0,
                nx == s || nx == -s,
        ;
        lemma_dtz_exact(0, s * s);
        lemma_dtz_exact(2 * vx, s * s);
        assert(reflect_x_s(vx, vy, nx, ny) == vx - 2 * vx);
        assert(reflect_y_s(vx, vy, nx, ny) == vy);
        assert((vx - 2 * vx) * (vx - 2 * vx) == vx * vx) by (nonlinear_arith);
    }
}

} // verus!
