use nvfancontrol::fanspeedcurve::{remove_redundant_points, CurveError, FanspeedCurve};

#[test]
fn test_remove_redundant_points() {
    let p = vec![(1, 1),
                 (2, 2), (2, 5), (2, 5),
                 (3, 8), (3, 9), (3, 10),
                 (4, 10),
                 (5, 11), (6, 11), (7, 11),
                 (8, 12)];

    let q = remove_redundant_points(p);

    assert_eq!(q, vec![(1, 1), (2, 2), (2, 5), (3, 8), (3, 10),
                       (4, 10), (5, 11), (7, 11), (8, 12)]);

    assert!(FanspeedCurve::new(q).is_ok());
}

#[test]
fn test_empty() {
    assert_eq!(FanspeedCurve::new(vec![]).err(), Some(CurveError::InsufficientPoints));
    assert_eq!(CurveError::InsufficientPoints.message(), "not enough data points");
}

#[test]
fn test_dot_only() {
    assert_eq!(FanspeedCurve::new(vec![(4, 6),]).err(), Some(CurveError::InsufficientPoints));
}

#[test]
fn test_decreasing() {
    let down = FanspeedCurve::new(vec![(0, 10), (2, 5), (3, 1)]);

    assert_eq!(down.err(), Some(CurveError::NotMonotonic));
    assert_eq!(CurveError::NotMonotonic.message(), "not monotonically increasing");
}

#[test]
fn test_non_monotonic() {
    let up_down = FanspeedCurve::new(vec![(0, 0), (50, 20), (100, 10)]);

    assert_eq!(up_down.err(), Some(CurveError::NotMonotonic));
}

#[test]
fn test_single_slope() {
    let single_slope = FanspeedCurve::new(vec![(5, 0), (105, 20),]).unwrap();

    assert_eq!(single_slope.speed_y(0), None);
    assert_eq!(single_slope.speed_y(3), None);
    assert_eq!(single_slope.speed_y(5 + 0), Some(0));
    assert_eq!(single_slope.speed_y(5 + 25), Some(5));
    assert_eq!(single_slope.speed_y(5 + 50), Some(10));
    assert_eq!(single_slope.speed_y(5 + 75), Some(15));
    assert_eq!(single_slope.speed_y(5 + 100), Some(20));
    assert_eq!(single_slope.speed_y(5 + 101), Some(20));
    assert_eq!(single_slope.speed_y(10101), Some(20));

    assert_eq!(single_slope.temp_x(0), Some(5 + 0));
    assert_eq!(single_slope.temp_x(5), Some(5 + 25));
    assert_eq!(single_slope.temp_x(10), Some(5 + 50));
    assert_eq!(single_slope.temp_x(15), Some(5 + 75));
    assert_eq!(single_slope.temp_x(20), Some(5 + 100));
    assert_eq!(single_slope.temp_x(21), None);

    assert_eq!(single_slope.minspeed(), 0);
}

#[test]
fn test_multiple_values() {
    let multiple = FanspeedCurve::new(vec![(0, 1), (5, 10), (10, 60)]).unwrap();

    assert_eq!(multiple.speed_y(0), Some(1));
    assert_eq!(multiple.speed_y(5), Some(10));
    assert_eq!(multiple.speed_y(10), Some(60));
    assert_eq!(multiple.speed_y(11), Some(60));
    assert_eq!(multiple.speed_y(101), Some(60));

    assert_eq!(multiple.temp_x(0), None);
    assert_eq!(multiple.temp_x(1), Some(0));
    assert_eq!(multiple.temp_x(10), Some(5));
    assert_eq!(multiple.temp_x(20), Some(6));
    assert_eq!(multiple.temp_x(50), Some(9));
    assert_eq!(multiple.temp_x(60), Some(10));
    assert_eq!(multiple.temp_x(61), None);

    assert_eq!(multiple.minspeed(), 1);
}

#[test]
fn test_horizontal() {
    let horizon = FanspeedCurve::new(vec![(20, 35), (22, 35), (25, 35), (60, 35)]);

    assert!(horizon.is_ok());
    let horizon = horizon.unwrap();

    assert_eq!(horizon.speed_y(19), None);
    assert_eq!(horizon.speed_y(20), Some(35));
    assert_eq!(horizon.speed_y(21), Some(35));
    assert_eq!(horizon.speed_y(59), Some(35));
    assert_eq!(horizon.speed_y(60), Some(35));
    assert_eq!(horizon.speed_y(61), Some(35));

    assert_eq!(horizon.temp_x(34), None);
    assert_eq!(horizon.temp_x(35), Some(60));
    assert_eq!(horizon.temp_x(36), None);
}

#[test]
fn test_vertical() {
    let vertical = FanspeedCurve::new(vec![(20, 5), (20, 10), (20, 50), (20, 55)]);

    assert!(vertical.is_ok());
    let vertical = vertical.unwrap();

    assert_eq!(vertical.speed_y(19), None);
    assert_eq!(vertical.speed_y(20), Some(55));
    assert_eq!(vertical.speed_y(21), Some(55));

    assert_eq!(vertical.temp_x(4), None);
    assert_eq!(vertical.temp_x(5), Some(20));
    assert_eq!(vertical.temp_x(6), Some(20));
    assert_eq!(vertical.temp_x(54), Some(20));
    assert_eq!(vertical.temp_x(55), Some(20));
    assert_eq!(vertical.temp_x(56), None);
}

#[test]
fn test_plateau_values() {
    let plateau = FanspeedCurve::new(vec![(0, 0), (10, 50), (20, 50), (30, 100)]);

    assert!(plateau.is_ok());
    let plateau = plateau.unwrap();

    assert_eq!(plateau.speed_y(10), Some(50));
    assert_eq!(plateau.speed_y(15), Some(50));
    assert_eq!(plateau.speed_y(20), Some(50));

    assert_eq!(plateau.temp_x(50), Some(20));
}

#[test]
fn test_cliff_values() {
    let cliff = FanspeedCurve::new(vec![(5, 5), (10, 20), (10, 40), (10, 50), (30, 90)]);

    assert!(cliff.is_ok());
    let cliff = cliff.unwrap();

    assert_eq!(cliff.speed_y(4), None);
    assert_eq!(cliff.speed_y(10), Some(50));
    assert_eq!(cliff.speed_y(30), Some(90));
    assert_eq!(cliff.speed_y(31), Some(90));

    assert_eq!(cliff.temp_x(20), Some(10));
    assert_eq!(cliff.temp_x(43), Some(10));
    assert_eq!(cliff.temp_x(50), Some(10));
    assert_eq!(cliff.temp_x(90), Some(30));
}

#[test]
fn test_stairs() {
    let stairs = FanspeedCurve::new(
        vec![(10, 1), (10, 5), (10, 10), (20, 10), (20, 20), (30, 20), (30, 30), (30, 40)]);

    assert!(stairs.is_ok());
    let stairs = stairs.unwrap();

    assert_eq!(stairs.speed_y(30), Some(40));

    assert_eq!(stairs.speed_y(9), None);
    assert_eq!(stairs.speed_y(10), Some(10));
    assert_eq!(stairs.speed_y(11), Some(10));
    assert_eq!(stairs.speed_y(19), Some(10));
    assert_eq!(stairs.speed_y(20), Some(20));
    assert_eq!(stairs.speed_y(20), Some(20));
    assert_eq!(stairs.speed_y(21), Some(20));
    assert_eq!(stairs.speed_y(29), Some(20));
    assert_eq!(stairs.speed_y(31), Some(40));
    assert_eq!(stairs.speed_y(60), Some(40));
}

#[test]
fn speed_never_falls_as_temperature_rises() {
    let curve = FanspeedCurve::new(
        vec![(30, 10), (40, 10), (40, 30), (55, 47), (70, 90), (90, 100)]).unwrap();
    let mut last = curve.speed_y(30).unwrap();
    for t in 30u16..200 {
        let s = curve.speed_y(t).unwrap();
        assert!(s >= last, "speed fell at {}", t);
        last = s;
    }
}

#[test]
fn speed_clamped_above_and_absent_below() {
    let curve = FanspeedCurve::new(vec![(40, 20), (80, 80)]).unwrap();
    assert_eq!(curve.speed_y(80), Some(80));
    assert_eq!(curve.speed_y(65535), Some(80));
    assert_eq!(curve.speed_y(39), None);
    assert_eq!(curve.speed_y(0), None);
}

#[test]
fn temp_absent_outside_speed_range() {
    let curve = FanspeedCurve::new(vec![(40, 20), (80, 80)]).unwrap();
    assert_eq!(curve.temp_x(19), None);
    assert_eq!(curve.temp_x(81), None);
    assert_eq!(curve.temp_x(80), Some(80));
    assert_eq!(curve.temp_x(50), Some(60));
}

#[test]
fn interpolation_truncates() {
    let curve = FanspeedCurve::new(vec![(0, 0), (3, 1)]).unwrap();
    assert_eq!(curve.speed_y(1), Some(0));
    assert_eq!(curve.speed_y(2), Some(0));
    let inverse = FanspeedCurve::new(vec![(0, 0), (1, 3)]).unwrap();
    assert_eq!(inverse.temp_x(2), Some(0));
}

#[test]
fn redundant_removal_twice_is_once() {
    let p = vec![(1, 1), (2, 2), (2, 5), (2, 5), (3, 8), (3, 9), (3, 10), (4, 10),
                 (5, 11), (6, 11), (7, 11), (8, 12)];
    let once = remove_redundant_points(p.clone());
    let twice = remove_redundant_points(once.clone());
    assert_eq!(once, twice);
    let full = FanspeedCurve::new(p).unwrap();
    let reduced = FanspeedCurve::new(once).unwrap();
    for t in 0u16..20 {
        assert_eq!(full.speed_y(t), reduced.speed_y(t));
        assert_eq!(full.temp_x(t), reduced.temp_x(t));
    }
}

#[test]
fn removal_keeps_ends_and_drops_straight_runs() {
    assert_eq!(remove_redundant_points(vec![(0, 5), (1, 5), (2, 5), (3, 5)]), vec![(0, 5), (3, 5)]);
    assert_eq!(remove_redundant_points(vec![(7, 1), (7, 2), (7, 3)]), vec![(7, 1), (7, 3)]);
    assert_eq!(remove_redundant_points(vec![(0, 0), (1, 1), (2, 2)]), vec![(0, 0), (1, 1), (2, 2)]);
    assert_eq!(remove_redundant_points(vec![]), Vec::<(u16, u16)>::new());
}

#[test]
fn scenario_single_slope() {
    let c = FanspeedCurve::new(vec![(5, 0), (105, 20)]).unwrap();
    assert_eq!(c.speed_y(5), Some(0));
    assert_eq!(c.speed_y(55), Some(10));
    assert_eq!(c.speed_y(1000), Some(20));
    assert_eq!(c.temp_x(10), Some(55));
    assert_eq!(c.temp_x(21), None);
}

#[test]
fn scenario_three_points() {
    let c = FanspeedCurve::new(vec![(0, 1), (5, 10), (10, 60)]).unwrap();
    assert_eq!(c.speed_y(11), Some(60));
    assert_eq!(c.temp_x(0), None);
    assert_eq!(c.minspeed(), 1);
}

#[test]
fn largest_values_do_not_overflow() {
    let c = FanspeedCurve::new(vec![(0, 0), (65535, 65535)]).unwrap();
    assert_eq!(c.speed_y(65534), Some(65534));
    assert_eq!(c.temp_x(65534), Some(65534));
    assert_eq!(c.speed_y(65535), Some(65535));
}
