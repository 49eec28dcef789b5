use ballistics::model::{Config, Hit, Mode, Point2D, Rect, RelativeTarget, SolveError};
use ballistics::solver::{solve, solve_angle, solve_velocity};
use ballistics::trig::tan_lookup;

fn test_config() -> Config {
    // Gravity of 10 units per squared second and a fixed launch speed
    // of 20 units per second: the maximum range is v*v/g = 40 units.
    Config { gravity_milli: 10_000, v0_milli: 20_000, tol_milli: 1_000 }
}

#[test]
fn angle_mode_max_range_hits_once_at_45() {
    let c = test_config();
    let hits = solve_angle(&c, 40, 0);
    assert_eq!(hits, vec![Hit { angle: 45, velocity: 20_000, time: 2_828 }]);
}

#[test]
fn angle_mode_two_complementary_angles() {
    let c = Config { gravity_milli: 10_000, v0_milli: 25_000, tol_milli: 1_000 };
    let hits = solve_angle(&c, 40, 0);
    assert_eq!(
        hits,
        vec![
            Hit { angle: 20, velocity: 25_000, time: 1_702 },
            Hit { angle: 70, velocity: 25_000, time: 4_676 },
        ]
    );
    assert_eq!(hits[0].angle + hits[1].angle, 90);
}

#[test]
fn angle_mode_vertical_target_hits_straight_up() {
    let c = test_config();
    let hits = solve_angle(&c, 0, 50);
    assert_eq!(hits, vec![Hit { angle: 90, velocity: 31_622, time: 3_162 }]);
}

#[test]
fn angle_mode_vertical_target_below_is_empty() {
    let c = test_config();
    assert!(solve_angle(&c, 0, -50).is_empty());
    assert!(solve_angle(&c, 0, 0).is_empty());
}

#[test]
fn angle_mode_out_of_range_is_empty() {
    let c = test_config();
    // Far beyond the 40-unit maximum range.
    assert!(solve_angle(&c, 1_000, 0).is_empty());
}

#[test]
fn angle_mode_hits_satisfy_range_equation_within_tolerance() {
    let c = Config { gravity_milli: 10_000, v0_milli: 25_000, tol_milli: 1_000 };
    let (dx, dy): (i64, i64) = (40, 0);
    let k: i128 = 500_000 * (c.gravity_milli as i128) * (dx as i128) * (dx as i128)
        / ((c.v0_milli as i128) * (c.v0_milli as i128));
    for h in solve_angle(&c, dx, dy) {
        let t = tan_lookup(h.angle) as i128;
        let height = (dx as i128) * t - k - k * (t * t) / 1_000_000;
        assert!((height - 1_000 * (dy as i128)).abs() <= c.tol_milli as i128);
    }
}

#[test]
fn velocity_mode_exact_speed_at_45_degrees() {
    let c = test_config();
    let hits = solve_velocity(&c, 40, 0);
    assert_eq!(hits.len(), 89);
    assert_eq!(hits[0], Hit { angle: 45, velocity: 20_000, time: 2_828 });
}

#[test]
fn velocity_mode_sorted_by_speed_then_angle() {
    let c = test_config();
    let hits = solve_velocity(&c, 40, 10);
    for w in hits.windows(2) {
        let better = w[0].velocity < w[1].velocity
            || (w[0].velocity == w[1].velocity
                && (w[0].angle < w[1].angle
                    || (w[0].angle == w[1].angle && w[0].time <= w[1].time)));
        assert!(better);
    }
}

#[test]
fn velocity_mode_hits_satisfy_range_equation() {
    let c = test_config();
    let (dx, dy): (i64, i64) = (40, 10);
    for h in solve_velocity(&c, dx, dy) {
        let t = tan_lookup(h.angle) as i128;
        let den = (dx as i128) * t - 1_000 * (dy as i128);
        assert!(den > 0);
        let num = (c.gravity_milli as i128) * (dx as i128) * (dx as i128)
            * (1_000_000 + t * t);
        let vsq = num / (2 * den);
        let v = h.velocity as i128;
        assert!(v * v <= vsq);
        assert!(vsq < (v + 1) * (v + 1));
    }
}

#[test]
fn velocity_mode_unreachable_angle_contributes_no_hit() {
    let c = test_config();
    // A target a million units straight up over one unit across: no
    // swept angle has a positive denominator, so no speed is real.
    let hits = solve_velocity(&c, 1, 1_000_000);
    assert!(hits.is_empty());
}

#[test]
fn velocity_mode_mirrors_negative_dx() {
    let c = test_config();
    assert_eq!(solve_velocity(&c, -40, 0), solve_velocity(&c, 40, 0));
}

#[test]
fn solve_is_idempotent() {
    let c = test_config();
    let t = RelativeTarget { dx: 37, dy: -12 };
    assert_eq!(solve(&c, Mode::Velocity, &t), solve(&c, Mode::Velocity, &t));
    assert_eq!(solve(&c, Mode::Angle, &t), solve(&c, Mode::Angle, &t));
}

#[test]
fn solve_dispatches_on_mode() {
    let c = test_config();
    let t = RelativeTarget { dx: 40, dy: 0 };
    assert_eq!(solve(&c, Mode::Angle, &t), solve_angle(&c, 40, 0));
    assert_eq!(solve(&c, Mode::Velocity, &t), solve_velocity(&c, 40, 0));
}

#[test]
fn translate_flips_vertical_axis() {
    let rect = Rect { left: 0, top: 0, right: 800, bottom: 600 };
    let from = Point2D { x: 100, y: 500 };
    let to = Point2D { x: 140, y: 450 };
    let r = ballistics::model::translate(&rect, &from, &to).unwrap();
    // The target sits above the origin on screen, so dy is positive.
    assert_eq!(r, RelativeTarget { dx: 40, dy: 50 });
}

#[test]
fn translate_swap_negates_both_components() {
    let rect = Rect { left: 0, top: 0, right: 800, bottom: 600 };
    let a = Point2D { x: 320, y: 200 };
    let b = Point2D { x: 17, y: 590 };
    let ab = ballistics::model::translate(&rect, &a, &b).unwrap();
    let ba = ballistics::model::translate(&rect, &b, &a).unwrap();
    assert_eq!(ab.dx, -ba.dx);
    assert_eq!(ab.dy, -ba.dy);
}

#[test]
fn translate_rejects_degenerate_rect() {
    let rect = Rect { left: 10, top: 10, right: 10, bottom: 600 };
    let p = Point2D { x: 0, y: 0 };
    assert_eq!(
        ballistics::model::translate(&rect, &p, &p),
        Err(SolveError::InvalidInput)
    );
}
