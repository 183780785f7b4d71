use nvfancontrol::fanflicker::{FanFlickerFix, FanFlickerRange, FlickerRangeError};
use nvfancontrol::fanspeedcurve::FanspeedCurve;

fn range(minimum_allowed: i32, fickering_starts: i32) -> FanFlickerRange {
    FanFlickerRange { minimum_allowed, fickering_starts }
}

fn curve() -> FanspeedCurve {
    FanspeedCurve::new(vec![(41, 20), (49, 30), (57, 45), (66, 55), (75, 63), (78, 72), (80, 80)])
        .unwrap()
}

#[test]
fn stopped_fan_restarts_at_upper_bound() {
    for requested in [-5, 0, 10, 20, 30, 40, 41, 100] {
        let mut fix = FanFlickerFix::new(range(20, 40), 30);
        assert_eq!(fix.fix_speed(0, requested), 40);
        // the previous speed is now the upper bound
        assert_eq!(fix.fix_speed(1000, 39), 39);
    }
}

#[test]
fn rise_inside_range_is_damped() {
    let mut fix = FanFlickerFix::new(range(20, 40), 30);
    assert_eq!(fix.fix_speed(1200, 35), 32);
    assert_eq!(fix.fix_speed(1200, 35), 34);
    assert_eq!(fix.fix_speed(1200, 35), 35);
    assert_eq!(fix.fix_speed(1200, 35), 35);
}

#[test]
fn fall_inside_range_is_damped() {
    let mut fix = FanFlickerFix::new(range(20, 40), 30);
    assert_eq!(fix.fix_speed(1200, 25), 29);
    assert_eq!(fix.fix_speed(1200, 25), 28);
    assert_eq!(fix.fix_speed(1200, 28), 28);
    assert_eq!(fix.fix_speed(1200, 27), 27);
}

#[test]
fn fall_below_range_stops_at_floor() {
    let mut fix = FanFlickerFix::new(range(20, 40), 21);
    assert_eq!(fix.fix_speed(900, 5), 20);
    assert_eq!(fix.fix_speed(900, 5), 20);
    assert_eq!(fix.minimum(), 20);
}

#[test]
fn above_range_is_passed_through() {
    let mut fix = FanFlickerFix::new(range(20, 40), 30);
    assert_eq!(fix.fix_speed(1200, 70), 70);
    assert_eq!(fix.fix_speed(1200, 60), 60);
}

#[test]
fn from_above_into_range_holds_top() {
    let mut fix = FanFlickerFix::new(range(20, 40), 41);
    assert_eq!(fix.fix_speed(1200, 25), 40);
    let mut fix = FanFlickerFix::new(range(20, 40), 80);
    assert_eq!(fix.fix_speed(1200, 5), 40);
}

#[test]
fn scenario_previous_at_upper_bound_descends() {
    // A previous speed equal to the upper bound lies inside the (inclusive)
    // range, so the descent is damped by one point.
    let mut fix = FanFlickerFix::new(range(20, 40), 40);
    assert_eq!(fix.fix_speed(1200, 25), 39);
}

#[test]
fn scenario_rise_from_thirty() {
    let mut fix = FanFlickerFix::new(range(20, 40), 30);
    assert_eq!(fix.fix_speed(1200, 35), 32);
}

#[test]
fn from_below_range_snaps_to_top() {
    let mut fix = FanFlickerFix::new(range(20, 40), 10);
    assert_eq!(fix.fix_speed(500, 30), 40);
}

#[test]
fn range_minimum_zero_refused() {
    let err = FanFlickerRange::new((0, 30), &curve(), &Some((20, 80))).err().unwrap();
    assert_eq!(err, FlickerRangeError::MinimumNotPositive);
    assert!(err.message().contains("greater than zero"));
    assert_eq!(err.message(), "fanflicker: `minimum` must be greater than zero");
    let err = FanFlickerRange::new((0, 30), &curve(), &None).err().unwrap();
    assert_eq!(err, FlickerRangeError::MinimumNotPositive);
}

#[test]
fn range_minimum_not_below_start_refused() {
    let err = FanFlickerRange::new((30, 30), &curve(), &None).err().unwrap();
    assert_eq!(err, FlickerRangeError::MinimumNotBelowStart { minimum: 30, starts: 30 });
    assert!(err.message().contains("not less than"));
    assert_eq!(err.message(), "fanflicker: `minimum` (30) not less than `starts` (30)");
}

#[test]
fn range_outside_limits_refused() {
    let err = FanFlickerRange::new((10, 30), &curve(), &Some((20, 80))).err().unwrap();
    assert_eq!(err, FlickerRangeError::OutsideLimits { minimum: 10, starts: 30, low: 20, high: 80 });
    assert!(err.message().contains("[10, 30]"));
    assert_eq!(err.message(), "fanflicker range [10, 30] not within general fan limits [20, 80]");
    let err = FanFlickerRange::new((25, 90), &curve(), &Some((20, 80))).err().unwrap();
    assert_eq!(err, FlickerRangeError::OutsideLimits { minimum: 25, starts: 90, low: 20, high: 80 });
}

#[test]
fn range_too_hot_refused() {
    // speed 72 is reached at 78 °C
    let err = FanFlickerRange::new((20, 72), &curve(), &None).err().unwrap();
    assert_eq!(err, FlickerRangeError::TooHot { starts: 72, temp: 78 });
    assert!(err.message().contains("exceeds the safe limit of 75"));
    assert!(err.message().starts_with(
        "fanflicker: upper fanspeed limit of 72 allows a temperature of 78°C which exceeds the safe limit of 75°C:"));
    let negative = FlickerRangeError::TooHot { starts: 5, temp: -12 };
    assert!(negative.message().contains("a temperature of -12°C"));
}

#[test]
fn range_unreachable_refused() {
    let err = FanFlickerRange::new((20, 85), &curve(), &None).err().unwrap();
    assert_eq!(err, FlickerRangeError::Unreachable { starts: 85 });
    assert!(err.message().contains("unreachable"));
    assert!(err.message().starts_with(
        "fanflicker: upper fanspeed limit of 85 is unreachable with the given points, so the safe temperature limit of 75°C can not be guaranteed:"));
}

#[test]
fn range_accepted() {
    let r = FanFlickerRange::new((20, 30), &curve(), &Some((20, 80))).ok().unwrap();
    assert_eq!(r.minimum_allowed, 20);
    assert_eq!(r.fickering_starts, 30);
    // speed 63 is reached at exactly 75 °C
    let r = FanFlickerRange::new((20, 63), &curve(), &None).ok().unwrap();
    assert_eq!(r.fickering_starts, 63);
}
