use ballistics::model::{Config, Hit, Mode, Point2D, SHOW_MAX_HITS};
use ballistics::organize::{bucket_of_angle, format_hits, into_angle_categories};
use ballistics::session::{Action, KeyEdge, Session};

fn hit(angle: i32, velocity: u64, time: u64) -> Hit {
    Hit { angle, velocity, time }
}

#[test]
fn buckets_use_floor_semantics_for_negative_angles() {
    assert_eq!(bucket_of_angle(-5), -10);
    assert_eq!(bucket_of_angle(-10), -10);
    assert_eq!(bucket_of_angle(-11), -20);
    assert_eq!(bucket_of_angle(37), 30);
    assert_eq!(bucket_of_angle(0), 0);
    assert_eq!(bucket_of_angle(90), 90);
}

#[test]
fn categories_group_by_bucket_in_ascending_key_order() {
    let hits = vec![hit(37, 3, 1), hit(-5, 1, 2), hit(33, 2, 3)];
    let cats = into_angle_categories(&hits);
    assert_eq!(cats.len(), 2);
    assert_eq!(cats[0].0, -10);
    assert_eq!(cats[0].1, vec![hit(-5, 1, 2)]);
    assert_eq!(cats[1].0, 30);
    // Hits keep their incoming order inside the bucket.
    assert_eq!(cats[1].1, vec![hit(37, 3, 1), hit(33, 2, 3)]);
}

#[test]
fn categories_of_empty_input_are_empty() {
    let hits: Vec<Hit> = Vec::new();
    assert!(into_angle_categories(&hits).is_empty());
    assert_eq!(format_hits(&hits, SHOW_MAX_HITS), "");
}

#[test]
fn categories_partition_every_hit_exactly_once() {
    let hits = vec![hit(1, 1, 1), hit(11, 2, 2), hit(15, 3, 3), hit(89, 4, 4), hit(-45, 5, 5)];
    let cats = into_angle_categories(&hits);
    let total: usize = cats.iter().map(|(_, v)| v.len()).sum();
    assert_eq!(total, hits.len());
    for (key, bucket) in &cats {
        assert_eq!(key % 10, 0);
        assert!(!bucket.is_empty());
        for h in bucket {
            assert_eq!(bucket_of_angle(h.angle), *key);
        }
    }
    for w in cats.windows(2) {
        assert!(w[0].0 < w[1].0);
    }
}

#[test]
fn format_renders_exact_tokens() {
    let hits = vec![hit(45, 20_000, 2_828)];
    assert_eq!(format_hits(&hits, 5), "angle=45,v=20.000,t=2.828");
    let hits = vec![hit(-5, 1_234, 500), hit(90, 31_622, 3_162)];
    assert_eq!(
        format_hits(&hits, 5),
        "angle=-5,v=1.234,t=0.500 angle=90,v=31.622,t=3.162"
    );
}

#[test]
fn format_caps_tokens_at_max_count() {
    let hits: Vec<Hit> = (1..=9).map(|a| hit(a, a as u64 * 1_000, 100)).collect();
    let line = format_hits(&hits, SHOW_MAX_HITS);
    assert_eq!(line.split(' ').count(), SHOW_MAX_HITS);
    // The data itself is untouched.
    assert_eq!(hits.len(), 9);
    assert_eq!(format_hits(&hits, 0), "");
}

#[test]
fn format_of_real_solver_output_is_stable() {
    let c = Config { gravity_milli: 10_000, v0_milli: 20_000, tol_milli: 1_000 };
    let hits = ballistics::solver::solve_angle(&c, 40, 0);
    assert_eq!(format_hits(&hits, SHOW_MAX_HITS), "angle=45,v=20.000,t=2.828");
}

#[test]
fn mode_name_and_toggle() {
    assert_eq!(Mode::Angle.name(), "ANGLE");
    assert_eq!(Mode::Velocity.name(), "VELOCITY");
    assert_eq!(Mode::Angle.toggled(), Mode::Velocity);
    assert_eq!(Mode::Velocity.toggled(), Mode::Angle);
    assert_eq!(Mode::Angle.toggled().toggled(), Mode::Angle);
}

#[test]
fn key_edge_fires_only_on_rising_edge() {
    let mut k = KeyEdge::new();
    assert!(k.update(true));
    assert!(!k.update(true));
    assert!(!k.update(false));
    assert!(k.update(true));
}

#[test]
fn session_keys_store_points_and_calculate() {
    let s = Session::new();
    assert_eq!(s.mode, Mode::Velocity);
    let p1 = Point2D { x: 10, y: 20 };
    let p2 = Point2D { x: 30, y: 5 };
    let (s, a) = s.on_key(3, p1);
    assert_eq!(a, Action::Idle);
    let (s, a) = s.on_key(1, p1);
    assert_eq!(a, Action::Redraw);
    let (s, a) = s.on_key(2, p2);
    assert_eq!(a, Action::Redraw);
    let (s, a) = s.on_key(3, p2);
    assert_eq!(a, Action::Calculate);
    assert_eq!(s.source, Some(p1));
    assert_eq!(s.target, Some(p2));
    let (s, a) = s.on_key(5, p2);
    assert_eq!(a, Action::Redraw);
    assert_eq!(s.mode, Mode::Angle);
    let (s, a) = s.on_key(4, p2);
    assert_eq!(a, Action::Redraw);
    assert_eq!(s.source, None);
    assert_eq!(s.target, None);
    let (_, a) = s.on_key(9, p2);
    assert_eq!(a, Action::Idle);
}
