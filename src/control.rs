//! The decisions of the control loop. Each tick the loop reads the GPU's
//! temperature, control mode, fan RPM and utilization, hands them to
//! `ControlLoop::update`, and performs the action that comes back.
use vstd::prelude::*;
use crate::fanflicker::{compensated_speed, FanFlickerFix, FanFlickerRange};
use crate::fanspeedcurve::{speed_at, FanspeedCurve};
use crate::text::{
    chars_of,
    decimal,
    decimal_string,
    parse_error_text,
    parse_u16,
    parse_u16_checked,
    parse_u16_result,
    split,
    split_chars,
    string_of,
    trim,
    trim_chars,
    ParseError,
};

verus! {

/// After the curve last gave a speed, the fan keeps turning at the curve's
/// least speed for this long (milliseconds) before it is switched off.
pub const GRACE_PERIOD_MS: u64 = 240_000;

/// Above this graphics utilization (%) the fan is not switched off.
pub const UTILIZATION_THRESHOLD: i32 = 25;

/// Who governs the fan: the driver (`Auto`) or this program (`Manual`).
#[derive(Debug, Clone, Copy, PartialEq, Eq, Structural)]
pub enum NVCtrlFanControlState {
    Auto,
    Manual,
}

/// The operations that the control loop needs from a fan driver, per GPU id
/// and cooler id. Every operation may fail with a description of the failure.
pub trait NvFanController {
    /// The GPU's temperature, °C.
    fn get_temp(&self, gpu: u32) -> Result<i32, String>;

    /// Who currently governs the GPU's fan.
    fn get_ctrl_status(&self, gpu: u32) -> Result<NVCtrlFanControlState, String>;

    /// Hands the GPU's fan to the driver or takes it over.
    fn set_ctrl_type(&self, gpu: u32, state: NVCtrlFanControlState) -> Result<(), String>;

    /// A cooler's speed, %.
    fn get_fanspeed(&self, gpu: u32, id: u32) -> Result<i32, String>;

    /// A cooler's speed, RPM.
    fn get_fanspeed_rpm(&self, gpu: u32, id: u32) -> Result<i32, String>;

    /// Sets a cooler's speed (%), clamped to the global limits.
    fn set_fanspeed(&self, gpu: u32, id: u32, speed: i32) -> Result<(), String>;

    /// The driver's version.
    fn get_version(&self) -> Result<String, String>;

    /// The name of the graphics adapter.
    fn get_adapter(&self, id: u32) -> Result<String, String>;

    /// Utilization (%) by domain: `graphics`, `memory`, `video` and others.
    fn get_utilization(&self, id: u32) -> Result<std::collections::HashMap<String, i32>, String>;

    /// The number of GPUs.
    fn gpu_count(&self) -> Result<u32, String>;

    /// The cooler ids of a GPU.
    fn gpu_coolers(&self, gpu: u32) -> Result<Vec<u32>, String>;
}

/// What the loop observed at the start of a tick.
#[derive(Debug, Clone, Copy, PartialEq, Eq, Structural)]
pub struct Readings {
    /// GPU temperature, °C.
    pub temp: u16,
    /// The current control mode of the fan.
    pub ctrl_status: NVCtrlFanControlState,
    /// Speed of the first cooler, RPM.
    pub rpm: i32,
    /// Graphics utilization (%), if the driver reports it.
    pub graphics_util: Option<i32>,
    /// The time of the tick, milliseconds since the Unix epoch.
    pub now_ms: u64,
}

/// What the loop does to the fan in a tick.
#[derive(Debug, Clone, Copy, PartialEq, Eq, Structural)]
pub enum Action {
    /// Leave the fan alone.
    Nothing,
    /// Take manual control and set every cooler to this speed (%).
    SetSpeed(i32),
    /// Hand the fan back to the driver's automatic control.
    ResetToAuto,
}

/// The state of the control loop of one GPU.
pub struct ControlLoop {
    /// The curve that maps temperature to speed.
    pub curve: FanspeedCurve,
    /// When the curve last gave a speed (milliseconds since the epoch).
    pub on_time: Option<u64>,
    /// Drive the fan even when the driver already turns it in automatic mode.
    pub force: bool,
    /// Only observe; never drive the fan.
    pub monitor: bool,
    /// The anti-flicker compensator, if a flicker range is configured.
    pub fanflicker: Option<FanFlickerFix>,
}

/// The fan is left alone: in monitor mode, or when the driver already turns
/// it in automatic mode and the loop is not forced.
pub open spec fn defers(monitor: bool, force: bool, r: Readings) -> bool {
    monitor || (r.rpm > 0 && !force && r.ctrl_status == NVCtrlFanControlState::Auto)
}

/// Within the grace period after `on`, or under high graphics load, the fan
/// is kept turning although the curve gives no speed. An unknown load does
/// not count as high.
pub open spec fn keeps_turning(on: u64, r: Readings) -> bool {
    r.now_ms - on < GRACE_PERIOD_MS || (r.graphics_util matches Some(u) && u
        > UTILIZATION_THRESHOLD)
}

/// The action and the new `on_time` of a tick without a compensator.
pub open spec fn plain_tick(curve: Seq<(u16, u16)>, on_time: Option<u64>, r: Readings) -> (
    Action,
    Option<u64>,
) {
    match speed_at(curve, r.temp as int) {
        Some(v) => (Action::SetSpeed(v as i32), Some(r.now_ms)),
        None => match on_time {
            Some(t) => if keeps_turning(t, r) {
                (Action::SetSpeed(curve[0].1 as i32), on_time)
            } else {
                (Action::ResetToAuto, None)
            },
            None => (Action::ResetToAuto, None),
        },
    }
}

/// The speed that a loop with a compensator sets in a tick: the curve's speed,
/// or the range's lower bound below the curve, through the compensator.
pub open spec fn flicker_tick(s: ControlLoop, r: Readings) -> int {
    let f = s.fanflicker->0;
    let requested = match speed_at(s.curve@, r.temp as int) {
        Some(v) => v,
        None => f.lower(),
    };
    compensated_speed(f.lower(), f.upper(), f.previous(), r.rpm as int, requested)
}

/// The compensator `g` is `f` after it set speed `v`.
pub open spec fn stepped(f: FanFlickerFix, g: Option<FanFlickerFix>, v: int) -> bool {
    g matches Some(g) && g.lower() == f.lower() && g.upper() == f.upper() && g.previous() == v
}

/// A compensator for `range` whose previous speed is the larger of the range's
/// upper bound and the fan's current speed.
pub fn flicker_fix_for(range: FanFlickerRange, current_speed: i32) -> (r: FanFlickerFix)
    requires
        range.wf(),
    ensures
        r.lower() == range.minimum_allowed,
        r.upper() == range.fickering_starts,
        r.previous() == vstd::math::max(range.fickering_starts as int, current_speed as int),
{
    let starts = range.fickering_starts;
    let prev = if current_speed > starts {
        current_speed
    } else {
        starts
    };
    FanFlickerFix::new(range, prev)
}

impl ControlLoop {
    /// A loop that has not yet driven the fan.
    pub fn new(
        curve: FanspeedCurve,
        force: bool,
        monitor: bool,
        fanflicker: Option<FanFlickerFix>,
    ) -> (r: ControlLoop)
        ensures
            r.curve@ == curve@,
            r.on_time is None,
            r.force == force,
            r.monitor == monitor,
            r.fanflicker == fanflicker,
    {
        ControlLoop { curve, on_time: None, force, monitor, fanflicker }
    }

    /// Decides what to do with the fan in a tick with readings `r`.
    ///
    /// Without a compensator the curve's speed is set and the time noted;
    /// below the curve the fan keeps the curve's least speed during the grace
    /// period or under load, and is handed back to the driver after that.
    /// With a compensator every speed goes through it, and below the curve
    /// it is asked for the range's lower bound, so the fan never stops.
    pub fn update(&mut self, r: Readings) -> (a: Action)
        ensures
            final(self).curve@ == old(self).curve@,
            final(self).force == old(self).force,
            final(self).monitor == old(self).monitor,
            defers(old(self).monitor, old(self).force, r) ==> {
                &&& a == Action::Nothing
                &&& final(self).on_time == old(self).on_time
                &&& final(self).fanflicker == old(self).fanflicker
            },
            !defers(old(self).monitor, old(self).force, r) && old(self).fanflicker is None ==> {
                &&& (a, final(self).on_time) == plain_tick(old(self).curve@, old(self).on_time, r)
                &&& final(self).fanflicker is None
            },
            !defers(old(self).monitor, old(self).force, r) && old(self).fanflicker is Some ==> {
                &&& a == Action::SetSpeed(flicker_tick(*old(self), r) as i32)
                &&& final(self).on_time == old(self).on_time
                &&& stepped(old(self).fanflicker->0, final(self).fanflicker, flicker_tick(*old(self), r))
            },
    {
        if self.monitor {
            return Action::Nothing;
        }
        if r.rpm > 0 && !self.force {
            if let NVCtrlFanControlState::Auto = r.ctrl_status {
                return Action::Nothing;
            }
        }
        let speed = self.curve.speed_y(r.temp);
        match &mut self.fanflicker {
            None => {
                match speed {
                    Some(s) => {
                        self.on_time = Some(r.now_ms);
                        Action::SetSpeed(s)
                    },
                    None => {
                        match self.on_time {
                            Some(t) => {
                                let elapsed = r.now_ms.saturating_sub(t);
                                let busy = match r.graphics_util {
                                    Some(u) => u > UTILIZATION_THRESHOLD,
                                    None => false,
                                };
                                if elapsed < GRACE_PERIOD_MS || busy {
                                    Action::SetSpeed(self.curve.minspeed())
                                } else {
                                    self.on_time = None;
                                    Action::ResetToAuto
                                }
                            },
                            None => {
                                self.on_time = None;
                                Action::ResetToAuto
                            },
                        }
                    },
                }
            },
            Some(fff) => {
                let requested = match speed {
                    Some(s) => s,
                    None => fff.minimum(),
                };
                Action::SetSpeed(fff.fix_speed(r.rpm, requested))
            },
        }
    }
}

/// The global fan speed limits `(low, high)` in effect: `high` is clipped to
/// 100, and no limits mean `(0, 100)`.
pub fn clip_limits(lim: Option<(u16, u16)>) -> (r: (u16, u16))
    ensures
        lim is None ==> r == (0u16, 100u16),
        lim matches Some((low, high)) ==> r == (low, if high > 100 {
            100u16
        } else {
            high
        }),
{
    match lim {
        Some((low, high)) => {
            if high > 100 {
                (low, 100)
            } else {
                (low, high)
            }
        },
        None => (0, 100),
    }
}

/// The speed actually sent to the fan for a requested `speed`: clamped to the
/// limits `(low, high)`.
pub fn true_speed(limits: (u16, u16), speed: i32) -> (r: u16)
    ensures
        speed < limits.0 ==> r == limits.0,
        speed >= limits.0 && speed > limits.1 ==> r == limits.1,
        limits.0 <= speed <= limits.1 ==> r == speed,
{
    let (low, high) = limits;
    if speed < low as i32 {
        low
    } else if speed > high as i32 {
        high
    } else {
        speed as u16
    }
}

/// Why a `LOWER,UPPER` option value was refused.
#[derive(Debug)]
pub enum ArgPairError {
    /// A single value that is not `0`.
    NotZero { part: String },
    /// The lower limit is not a 16-bit number.
    BadLower { part: String, reason: ParseError },
    /// The upper limit is not a 16-bit number.
    BadUpper { part: String, reason: ParseError },
    /// The lower limit exceeds the upper one.
    Descending { lower: u16, upper: u16 },
    /// More than two comma-separated values.
    WrongCount { count: usize },
}

/// The message of a refused value of option `-nm`: it names the problem and
/// the values involved.
pub open spec fn arg_pair_message(e: ArgPairError, nm: Seq<char>) -> Seq<char> {
    "Invalid option for \"-"@ + nm + "\""@ + match e {
        ArgPairError::NotZero { part } => ": "@ + part@,
        ArgPairError::BadLower { part, reason } => ": could not parse "@ + part@
            + " as lower limit: "@ + parse_error_text(reason),
        ArgPairError::BadUpper { part, reason } => ": could not parse "@ + part@
            + " as upper limit: "@ + parse_error_text(reason),
        ArgPairError::Descending { lower, upper } => ": lower limit "@ + decimal(lower as nat)
            + " is greater than upper limit "@ + decimal(upper as nat),
        ArgPairError::WrongCount { count } => ": expected one or two comma-separated values, got "@
            + decimal(count as nat),
    }
}

impl ArgPairError {
    /// A human-readable description of the error for option `-nm`.
    pub fn message(&self, nm: &str) -> (r: String)
        ensures
            r@ == arg_pair_message(*self, nm@),
    {
        let mut r = String::from_str("Invalid option for \"-");
        r.append(nm);
        r.append("\"");
        let ghost head = r@;
        match self {
            ArgPairError::NotZero { part } => {
                r.append(": ");
                r.append(part.as_str());
            },
            ArgPairError::BadLower { part, reason } => {
                r.append(": could not parse ");
                r.append(part.as_str());
                r.append(" as lower limit: ");
                r.append(reason.message());
            },
            ArgPairError::BadUpper { part, reason } => {
                r.append(": could not parse ");
                r.append(part.as_str());
                r.append(" as upper limit: ");
                r.append(reason.message());
            },
            ArgPairError::Descending { lower, upper } => {
                r.append(": lower limit ");
                r.append(decimal_string(*lower as u64).as_str());
                r.append(" is greater than upper limit ");
                r.append(decimal_string(*upper as u64).as_str());
            },
            ArgPairError::WrongCount { count } => {
                r.append(": expected one or two comma-separated values, got ");
                r.append(decimal_string(*count as u64).as_str());
            },
        }
        assert(r@ =~= arg_pair_message(*self, nm@));
        r
    }
}

/// The text `0`.
pub open spec fn zero_text() -> Seq<char> {
    seq!['0']
}

/// Reads an option value `LOWER,UPPER` of two ascending 16-bit numbers, both
/// clipped to 100, or `0` for none. Blanks around the values are
/// ignored.
pub fn parse_ascending_arg_pair(nm: &str, res: &str) -> (r: Result<Option<(u16, u16)>, ArgPairError>)
    ensures
        ({
            let parts = split(res@, ',');
            &&& parts.len() == 1 && trim(parts[0]) == zero_text() ==> r == Ok::<
                Option<(u16, u16)>,
                ArgPairError,
            >(None)
            &&& parts.len() == 1 && trim(parts[0]) != zero_text() ==> (r matches Err(
                ArgPairError::NotZero { part },
            ) && part@ == trim(parts[0]))
            &&& parts.len() == 2 ==> match parse_u16_result(trim(parts[0])) {
                Err(why) => r matches Err(ArgPairError::BadLower { part, reason }) && part@ == trim(
                    parts[0],
                ) && reason == why,
                Ok(_) => true,
            }
            &&& parts.len() == 2 && parse_u16(trim(parts[0])) is Some ==> match parse_u16_result(
                trim(parts[1]),
            ) {
                Err(why) => r matches Err(ArgPairError::BadUpper { part, reason }) && part@ == trim(
                    parts[1],
                ) && reason == why,
                Ok(_) => true,
            }
            &&& parts.len() == 2 ==> match (parse_u16(trim(parts[0])), parse_u16(trim(parts[1]))) {
                (Some(lo), Some(hi)) => {
                    &&& lo > hi ==> (r matches Err(ArgPairError::Descending { lower, upper })
                        && lower == lo && upper == hi)
                    &&& lo <= hi && hi > 100 ==> r == Ok::<Option<(u16, u16)>, ArgPairError>(
                        Some((if lo > 100 { 100u16 } else { lo }, 100u16)),
                    )
                    &&& lo <= hi && hi <= 100 ==> r == Ok::<Option<(u16, u16)>, ArgPairError>(
                        Some((lo, hi)),
                    )
                },
                _ => true,
            }
            &&& parts.len() > 2 ==> (r matches Err(ArgPairError::WrongCount { count }) && count
                == parts.len())
        }),
{
    let chars = chars_of(res);
    let pieces = split_chars(&chars, ',');
    if pieces.len() == 1 {
        let p0 = trim_chars(&pieces[0]);
        if p0.len() == 1 && p0[0] == '0' {
            assert(p0@ =~= zero_text());
            Ok(None)
        } else {
            assert(p0@ != zero_text());
            Err(ArgPairError::NotZero { part: string_of(&p0) })
        }
    } else if pieces.len() == 2 {
        let p0 = trim_chars(&pieces[0]);
        let p1 = trim_chars(&pieces[1]);
        match parse_u16_checked(&p0) {
            Err(reason) => Err(ArgPairError::BadLower { part: string_of(&p0), reason }),
            Ok(lower) => match parse_u16_checked(&p1) {
                Err(reason) => Err(ArgPairError::BadUpper { part: string_of(&p1), reason }),
                Ok(upper) => {
                    if lower > upper {
                        Err(ArgPairError::Descending { lower, upper })
                    } else if upper > 100 {
                        let low = if lower > 100 {
                            100
                        } else {
                            lower
                        };
                        Ok(Some((low, 100)))
                    } else {
                        Ok(Some((lower, upper)))
                    }
                },
            },
        }
    } else {
        Err(ArgPairError::WrongCount { count: pieces.len() })
    }
}

} // verus!
