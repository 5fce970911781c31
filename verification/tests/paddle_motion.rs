//! Paddle kinematics: integration, friction and the wall clamp.

use pong::geom::Rect;
use pong::paddle::{friction_decay, Paddle};

fn centred_paddle() -> Paddle {
    Paddle {
        bound: Rect { x: 5_000, y: 120_000, width: 10_000, height: 60_000 },
        dy: 0,
        ddy: 0,
    }
}

#[test]
fn friction_factor_decays_per_millisecond() {
    assert_eq!(friction_decay(0), 1000);
    assert_eq!(friction_decay(1), 995);
    // 995 * 995 / 1000, truncated.
    assert_eq!(friction_decay(2), 990);
}

#[test]
fn paddle_at_rest_stays_put() {
    let mut p = centred_paddle();
    p.step(100);
    assert_eq!(p.bound.y, 120_000);
    assert_eq!(p.dy, 0);
}

#[test]
fn acceleration_integrates_into_motion() {
    let mut p = centred_paddle();
    p.ddy = 2_000_000;
    p.step(100);
    // dy = 2000 * 0.1 = 200 units/s, under the 500 limit; one decayed step
    // then moves the paddle upward.
    assert!(p.dy > 0);
    assert!(p.bound.y > 120_000);
    assert!(p.bound.y + p.bound.height <= 300_000);
}

#[test]
fn wall_clamp_holds_at_the_bottom() {
    let mut p = centred_paddle();
    p.bound.y = 1_000;
    p.ddy = -2_000_000;
    p.step(100);
    assert_eq!(p.bound.y, 0);
    // On a clamp the velocity points away from the wall.
    assert!(p.dy >= 0);
}

#[test]
fn wall_clamp_holds_at_the_top() {
    let mut p = centred_paddle();
    p.bound.y = 239_000;
    p.ddy = 2_000_000;
    p.step(100);
    assert_eq!(p.bound.y, 240_000);
    assert!(p.dy <= 0);
}

#[test]
fn kinematics_keeps_paddle_inside_arena() {
    let dts: [i64; 4] = [1, 16, 100, 1_000];
    let accels: [i64; 3] = [-2_000_000, 0, 2_000_000];
    for &a in accels.iter() {
        let mut p = centred_paddle();
        p.ddy = a;
        for &dt in dts.iter() {
            p.step(dt);
            assert!(p.bound.y >= 0);
            assert!(p.bound.y + p.bound.height <= 300_000);
            assert!(p.dy.abs() <= 500_000);
        }
    }
}
