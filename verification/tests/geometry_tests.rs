use railsim::geometry::{heading_unit, interpolate_angle, Point, COORD_SCALE, TURN_UNITS};
use railsim::track::Rail;

fn to_world(v: i64) -> f64 {
    v as f64 / COORD_SCALE as f64
}

#[test]
fn straight_points_are_collinear_and_evenly_spaced() {
    let rail = Rail::new_straight(Point { x: 0, y: 0 }, 0, false, 30, 8);
    assert_eq!(rail.points.len(), 8);
    assert_eq!(rail.points[0], Point { x: 0, y: 0 });
    // Heading zero: every step is exactly (30 * COORD_SCALE, 0).
    for i in 0..8 {
        assert_eq!(rail.points[i], Point { x: i as i64 * 30 * COORD_SCALE, y: 0 });
    }
    // In world units each gap is exactly 30.
    for i in 1..8 {
        let dx = to_world(rail.points[i].x - rail.points[i - 1].x);
        let dy = to_world(rail.points[i].y - rail.points[i - 1].y);
        assert_eq!(dx, 30.0);
        assert_eq!(dy, 0.0);
    }
}

#[test]
fn straight_points_diagonal_heading_collinear() {
    // Heading 4 is a 45 degree diagonal: equal x and y steps.
    let rail = Rail::new_straight(Point { x: 0, y: 0 }, 4, false, 30, 6);
    for i in 0..6 {
        let p = rail.points[i];
        assert_eq!(p.x, p.y);
        assert_eq!(p.x, i as i64 * 30 * 46341);
    }
    // Step length is 30 world units within fixed-point rounding.
    for i in 1..6 {
        let dx = to_world(rail.points[i].x - rail.points[i - 1].x);
        let dy = to_world(rail.points[i].y - rail.points[i - 1].y);
        let len = (dx * dx + dy * dy).sqrt();
        assert!((len - 30.0).abs() < 0.01, "step length {len}");
    }
}

#[test]
fn curved_points_follow_unit_table() {
    let rail = Rail::new_curved(Point { x: 0, y: 0 }, 0, false, 30, 3, 1);
    assert_eq!(rail.points[0], Point { x: 0, y: 0 });
    // Step into point 1 uses heading 1, into point 2 heading 2.
    assert_eq!(rail.points[1], Point { x: 30 * 64277, y: 30 * 12785 });
    assert_eq!(
        rail.points[2],
        Point { x: 30 * 64277 + 30 * 60547, y: 30 * 12785 + 30 * 25080 },
    );
}

#[test]
fn curved_steps_have_constant_length_and_heading_step() {
    let rail = Rail::new_curved(Point { x: 0, y: 0 }, 0, false, 30, 7, 1);
    let mut prev_angle: Option<f64> = None;
    for i in 1..7 {
        let dx = to_world(rail.points[i].x - rail.points[i - 1].x);
        let dy = to_world(rail.points[i].y - rail.points[i - 1].y);
        let len = (dx * dx + dy * dy).sqrt();
        assert!((len - 30.0).abs() < 0.01, "step length {len}");
        let angle = dy.atan2(dx);
        if let Some(a) = prev_angle {
            let step = angle - a;
            let expected = std::f64::consts::PI / 16.0;
            assert!((step - expected).abs() < 1e-3, "heading step {step}");
        }
        prev_angle = Some(angle);
    }
}

#[test]
fn heading_unit_matches_cardinal_directions() {
    assert_eq!(heading_unit(0), (65536, 0));
    assert_eq!(heading_unit(8), (0, 65536));
    assert_eq!(heading_unit(16), (-65536, 0));
    assert_eq!(heading_unit(24), (0, -65536));
    assert_eq!(heading_unit(4), (46341, 46341));
}

#[test]
fn interpolate_angle_endpoints() {
    assert_eq!(interpolate_angle(100, 200, 0, 10), 100);
    assert_eq!(interpolate_angle(100, 200, 10, 10), 200);
    assert_eq!(interpolate_angle(100, 200, 5, 10), 150);
}

#[test]
fn interpolate_angle_halfway_between_opposites_takes_negative_quarter() {
    // From heading 0 toward half a turn (pi), progress one half: the
    // result is three quarters of a turn, i.e. -pi/2, never the long
    // way around through +pi/2 .. pi.
    let half = TURN_UNITS / 2;
    let r = interpolate_angle(0, half, 1, 2);
    assert_eq!(r, 3 * TURN_UNITS / 4);
    let radians = r as f64 / TURN_UNITS as f64 * std::f64::consts::TAU;
    assert!((radians - 1.5 * std::f64::consts::PI).abs() < 1e-9);
    // A quarter of the way it is already moving through the negative
    // side (seven eighths of a turn), not the positive side.
    let quarter_way = interpolate_angle(0, half, 1, 4);
    assert_eq!(quarter_way, 7 * TURN_UNITS / 8);
}

#[test]
fn interpolate_angle_wraps_across_zero() {
    // From just under a full turn toward a small positive heading, the
    // short path crosses zero upward.
    let r = interpolate_angle(1048000, 500, 1, 2);
    assert_eq!(r, 1048538);
    // And the result is normalized into [0, TURN_UNITS).
    assert!(0 <= r && r < TURN_UNITS);
}
