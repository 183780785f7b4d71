use nvfancontrol::control::{
    clip_limits, flicker_fix_for, parse_ascending_arg_pair, true_speed, Action, ArgPairError,
    ControlLoop, NVCtrlFanControlState, Readings,
};
use nvfancontrol::fanflicker::FanFlickerRange;
use nvfancontrol::fanspeedcurve::FanspeedCurve;
use nvfancontrol::text::ParseError;

fn curve() -> FanspeedCurve {
    FanspeedCurve::new(vec![(41, 20), (49, 30), (57, 45), (66, 55), (75, 63), (78, 72), (80, 80)])
        .unwrap()
}

fn reading(temp: u16, rpm: i32, util: Option<i32>, now_ms: u64) -> Readings {
    Readings {
        temp,
        ctrl_status: NVCtrlFanControlState::Manual,
        rpm,
        graphics_util: util,
        now_ms,
    }
}

#[test]
fn monitor_mode_does_nothing() {
    let mut l = ControlLoop::new(curve(), false, true, None);
    assert_eq!(l.update(reading(70, 1000, None, 0)), Action::Nothing);
    assert_eq!(l.on_time, None);
}

#[test]
fn auto_spinning_fan_is_left_alone_unless_forced() {
    let mut r = reading(70, 1000, None, 0);
    r.ctrl_status = NVCtrlFanControlState::Auto;
    let mut l = ControlLoop::new(curve(), false, false, None);
    assert_eq!(l.update(r), Action::Nothing);
    let mut forced = ControlLoop::new(curve(), true, false, None);
    assert_eq!(forced.update(r), Action::SetSpeed(58));
}

#[test]
fn curve_speed_is_set_and_time_noted() {
    let mut l = ControlLoop::new(curve(), false, false, None);
    assert_eq!(l.update(reading(49, 900, None, 5_000)), Action::SetSpeed(30));
    assert_eq!(l.on_time, Some(5_000));
}

#[test]
fn grace_period_holds_least_speed() {
    let mut l = ControlLoop::new(curve(), false, false, None);
    assert_eq!(l.update(reading(60, 900, None, 1_000)), Action::SetSpeed(48));
    assert_eq!(l.update(reading(30, 900, None, 100_000)), Action::SetSpeed(20));
    assert_eq!(l.on_time, Some(1_000));
    assert_eq!(l.update(reading(30, 900, Some(50), 500_000)), Action::SetSpeed(20));
    assert_eq!(l.update(reading(30, 900, Some(25), 500_000)), Action::ResetToAuto);
    assert_eq!(l.on_time, None);
    assert_eq!(l.update(reading(30, 0, None, 600_000)), Action::ResetToAuto);
}

#[test]
fn compensator_prevents_fan_off() {
    let range = FanFlickerRange::new((20, 30), &curve(), &Some((20, 80))).ok().unwrap();
    let fix = flicker_fix_for(range, 25);
    let mut l = ControlLoop::new(curve(), false, false, Some(fix));
    assert_eq!(l.update(reading(30, 800, None, 0)), Action::SetSpeed(29));
    assert_eq!(l.update(reading(30, 0, None, 0)), Action::SetSpeed(30));
    assert_eq!(l.update(reading(60, 800, None, 0)), Action::SetSpeed(48));
    assert_eq!(l.on_time, None);
}

#[test]
fn flicker_fix_starts_at_least_at_upper_bound() {
    let range = FanFlickerRange { minimum_allowed: 20, fickering_starts: 30 };
    let mut fix = flicker_fix_for(range, 55);
    assert_eq!(fix.fix_speed(100, 25), 30);
}

#[test]
fn limits_are_clipped() {
    assert_eq!(clip_limits(None), (0, 100));
    assert_eq!(clip_limits(Some((20, 80))), (20, 80));
    assert_eq!(clip_limits(Some((20, 120))), (20, 100));
}

#[test]
fn speed_is_clamped_to_limits() {
    assert_eq!(true_speed((20, 80), 10), 20);
    assert_eq!(true_speed((20, 80), 90), 80);
    assert_eq!(true_speed((20, 80), 50), 50);
    assert_eq!(true_speed((20, 80), -3), 20);
}

#[test]
fn arg_pair_values() {
    assert_eq!(parse_ascending_arg_pair("l", "20,80").ok().unwrap(), Some((20, 80)));
    assert_eq!(parse_ascending_arg_pair("l", " 20 , 80 ").ok().unwrap(), Some((20, 80)));
    assert_eq!(parse_ascending_arg_pair("l", "20,120").ok().unwrap(), Some((20, 100)));
    assert_eq!(parse_ascending_arg_pair("l", "150,200").ok().unwrap(), Some((100, 100)));
    assert_eq!(parse_ascending_arg_pair("l", "100,100").ok().unwrap(), Some((100, 100)));
    assert_eq!(parse_ascending_arg_pair("l", "0").ok().unwrap(), None);
    assert_eq!(parse_ascending_arg_pair("l", " 0 ").ok().unwrap(), None);
}

#[test]
fn arg_pair_errors() {
    match parse_ascending_arg_pair("l", "5").err().unwrap() {
        ArgPairError::NotZero { part } => assert_eq!(part, "5"),
        e => panic!("unexpected {:?}", e),
    }
    let e = parse_ascending_arg_pair("l", "x,5").err().unwrap();
    match e {
        ArgPairError::BadLower { ref part, reason } => {
            assert_eq!(part, "x");
            assert_eq!(reason, ParseError::InvalidDigit);
        }
        ref e => panic!("unexpected {:?}", e),
    }
    assert_eq!(e.message("l"),
               "Invalid option for \"-l\": could not parse x as lower limit: invalid digit found in string");
    let e = parse_ascending_arg_pair("l", "5, 70000 ").err().unwrap();
    match e {
        ArgPairError::BadUpper { ref part, reason } => {
            assert_eq!(part, "70000");
            assert_eq!(reason, ParseError::PosOverflow);
        }
        ref e => panic!("unexpected {:?}", e),
    }
    assert_eq!(e.message("l"),
               "Invalid option for \"-l\": could not parse 70000 as upper limit: number too large to fit in target type");
    let e = parse_ascending_arg_pair("l", "5,").err().unwrap();
    assert_eq!(e.message("l"),
               "Invalid option for \"-l\": could not parse  as upper limit: cannot parse integer from empty string");
    assert_eq!(parse_ascending_arg_pair("l", "5").err().unwrap().message("l"),
               "Invalid option for \"-l\": 5");
    let e = parse_ascending_arg_pair("r", "50,20").err().unwrap();
    match e {
        ArgPairError::Descending { lower, upper } => assert_eq!((lower, upper), (50, 20)),
        ref e => panic!("unexpected {:?}", e),
    }
    assert_eq!(e.message("r"), "Invalid option for \"-r\": lower limit 50 is greater than upper limit 20");
    let e = parse_ascending_arg_pair("l", "1,2,3").err().unwrap();
    match e {
        ArgPairError::WrongCount { count } => assert_eq!(count, 3),
        ref e => panic!("unexpected {:?}", e),
    }
    assert_eq!(e.message("l"),
               "Invalid option for \"-l\": expected one or two comma-separated values, got 3");
}
