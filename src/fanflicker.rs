//! Prevention of fan flicker: a fan whose speed is set inside a fragile
//! low-speed range may stop and restart over and over. The compensator damps
//! speed changes inside that range and never lets the fan stop.
use vstd::prelude::*;
use crate::fanspeedcurve::{FanspeedCurve, temp_at};
use crate::text::{
    contains,
    decimal,
    decimal_string,
    lemma_contains_end,
    lemma_contains_extend,
    signed_decimal,
    signed_decimal_string,
};

verus! {

/// The highest temperature (°C) that the curve may reach at the upper bound
/// of a flicker range.
pub const FLICKER_TEMP_MAX: i32 = 75;

/// Percentage points by which a speed inside the range may rise per tick.
pub const FLICKER_INCREMENT: i32 = 2;

/// Percentage points by which a speed inside the range may fall per tick.
pub const FLICKER_DECREMENT: i32 = 1;

/// The range of speeds `[minimum_allowed, fickering_starts]` in which a fan
/// is prone to flicker.
pub struct FanFlickerRange {
    pub minimum_allowed: i32,
    pub fickering_starts: i32,
}

impl FanFlickerRange {
    /// The bounds of a validated range: `1 <= minimum_allowed <
    /// fickering_starts`, both percentages read as 16-bit values.
    pub open spec fn wf(&self) -> bool {
        1 <= self.minimum_allowed < self.fickering_starts <= 0xffff
    }
}

/// Why a flicker range was refused.
#[derive(Debug, Clone, Copy, PartialEq, Eq, Structural)]
pub enum FlickerRangeError {
    /// The lower bound is zero.
    MinimumNotPositive,
    /// The lower bound is not below the upper bound.
    MinimumNotBelowStart { minimum: u16, starts: u16 },
    /// The range does not lie within the global fan speed limits.
    OutsideLimits { minimum: u16, starts: u16, low: u16, high: u16 },
    /// At the upper bound the curve allows a temperature above
    /// `FLICKER_TEMP_MAX`.
    TooHot { starts: u16, temp: i32 },
    /// The curve never reaches the upper bound.
    Unreachable { starts: u16 },
}

/// Why a temperature above `FLICKER_TEMP_MAX` matters.
pub open spec fn flicker_reason() -> Seq<char> {
    "\n        below the limit speed adjustments are not instant, so the temperature might temporarily rise higher"@
}

/// The message of a refused flicker range: it names the check that failed
/// and the values involved.
pub open spec fn flicker_message(e: FlickerRangeError) -> Seq<char> {
    match e {
        FlickerRangeError::MinimumNotPositive => "fanflicker: `minimum` must be "@
            + "greater than zero"@,
        FlickerRangeError::MinimumNotBelowStart { minimum, starts } => "fanflicker: `minimum` ("@
            + decimal(minimum as nat) + ") "@ + "not less than"@ + " `starts` ("@ + decimal(
            starts as nat,
        ) + ")"@,
        FlickerRangeError::OutsideLimits { minimum, starts, low, high } => "fanflicker range ["@
            + decimal(minimum as nat) + ", "@ + decimal(starts as nat) + "] "@
            + "not within general fan limits"@ + " ["@ + decimal(low as nat) + ", "@ + decimal(
            high as nat,
        ) + "]"@,
        FlickerRangeError::TooHot { starts, temp } => "fanflicker: upper fanspeed limit of "@
            + decimal(starts as nat) + " allows a temperature of "@ + signed_decimal(temp as int)
            + "°C which "@ + "exceeds the safe limit of "@ + decimal(FLICKER_TEMP_MAX as nat)
            + "°C:"@ + flicker_reason(),
        FlickerRangeError::Unreachable { starts } => "fanflicker: upper fanspeed limit of "@
            + decimal(starts as nat) + " is "@ + "unreachable"@
            + " with the given points, so the safe temperature limit of "@ + decimal(
            FLICKER_TEMP_MAX as nat,
        ) + "°C can not be guaranteed:"@ + flicker_reason(),
    }
}

impl FlickerRangeError {
    /// A human-readable description of the error.
    pub fn message(&self) -> (r: String)
        ensures
            r@ == flicker_message(*self),
    {
        let reason = "\n        below the limit speed adjustments are not instant, so the temperature might temporarily rise higher";
        match self {
            FlickerRangeError::MinimumNotPositive => {
                let mut r = String::from_str("fanflicker: `minimum` must be ");
                r.append("greater than zero");
                r
            },
            FlickerRangeError::MinimumNotBelowStart { minimum, starts } => {
                let mut r = String::from_str("fanflicker: `minimum` (");
                r.append(decimal_string(*minimum as u64).as_str());
                r.append(") ");
                r.append("not less than");
                r.append(" `starts` (");
                r.append(decimal_string(*starts as u64).as_str());
                r.append(")");
                r
            },
            FlickerRangeError::OutsideLimits { minimum, starts, low, high } => {
                let mut r = String::from_str("fanflicker range [");
                r.append(decimal_string(*minimum as u64).as_str());
                r.append(", ");
                r.append(decimal_string(*starts as u64).as_str());
                r.append("] ");
                r.append("not within general fan limits");
                r.append(" [");
                r.append(decimal_string(*low as u64).as_str());
                r.append(", ");
                r.append(decimal_string(*high as u64).as_str());
                r.append("]");
                r
            },
            FlickerRangeError::TooHot { starts, temp } => {
                let mut r = String::from_str("fanflicker: upper fanspeed limit of ");
                r.append(decimal_string(*starts as u64).as_str());
                r.append(" allows a temperature of ");
                r.append(signed_decimal_string(*temp).as_str());
                r.append("°C which ");
                r.append("exceeds the safe limit of ");
                r.append(decimal_string(FLICKER_TEMP_MAX as u64).as_str());
                r.append("°C:");
                r.append(reason);
                r
            },
            FlickerRangeError::Unreachable { starts } => {
                let mut r = String::from_str("fanflicker: upper fanspeed limit of ");
                r.append(decimal_string(*starts as u64).as_str());
                r.append(" is ");
                r.append("unreachable");
                r.append(" with the given points, so the safe temperature limit of ");
                r.append(decimal_string(FLICKER_TEMP_MAX as u64).as_str());
                r.append("°C can not be guaranteed:");
                r.append(reason);
                r
            },
        }
    }
}

/// The error, if any, that validating `range` against `curve` and `limits`
/// gives; the checks are made in this order.
pub open spec fn flicker_range_error(
    range: (u16, u16),
    curve: Seq<(u16, u16)>,
    limits: Option<(u16, u16)>,
) -> Option<FlickerRangeError> {
    let (m, s) = range;
    if m < 1 {
        Some(FlickerRangeError::MinimumNotPositive)
    } else if m >= s {
        Some(FlickerRangeError::MinimumNotBelowStart { minimum: m, starts: s })
    } else if limits matches Some((low, high)) && (m < low || s > high) {
        match limits {
            Some((low, high)) => Some(
                FlickerRangeError::OutsideLimits { minimum: m, starts: s, low, high },
            ),
            None => None,
        }
    } else {
        match temp_at(curve, s as int) {
            Some(t) => if t > FLICKER_TEMP_MAX {
                Some(FlickerRangeError::TooHot { starts: s, temp: t as i32 })
            } else {
                None
            },
            None => Some(FlickerRangeError::Unreachable { starts: s }),
        }
    }
}

impl FanFlickerRange {
    /// Validates the flicker range `range = (minimum_allowed,
    /// fickering_starts)` against the curve and, if given, the global fan
    /// speed limits `(low, high)`.
    pub fn new(range: (u16, u16), curve: &FanspeedCurve, limits: &Option<(u16, u16)>) -> (r: Result<
        FanFlickerRange,
        FlickerRangeError,
    >)
        ensures
            match flicker_range_error(range, curve@, *limits) {
                Some(e) => r == Err::<FanFlickerRange, FlickerRangeError>(e),
                None => r matches Ok(fr) && fr.minimum_allowed == range.0 && fr.fickering_starts
                    == range.1 && fr.wf(),
            },
    {
        let minimum_allowed = range.0;
        let fickering_starts = range.1;
        let temp = curve.temp_x(fickering_starts);
        if minimum_allowed < 1 {
            return Err(FlickerRangeError::MinimumNotPositive);
        }
        if minimum_allowed >= fickering_starts {
            return Err(
                FlickerRangeError::MinimumNotBelowStart {
                    minimum: minimum_allowed,
                    starts: fickering_starts,
                },
            );
        }
        if let Some((low, high)) = limits {
            if minimum_allowed < *low || fickering_starts > *high {
                return Err(
                    FlickerRangeError::OutsideLimits {
                        minimum: minimum_allowed,
                        starts: fickering_starts,
                        low: *low,
                        high: *high,
                    },
                );
            }
        }
        match temp {
            Some(t) => {
                if t > FLICKER_TEMP_MAX {
                    return Err(FlickerRangeError::TooHot { starts: fickering_starts, temp: t });
                }
            },
            None => {
                return Err(FlickerRangeError::Unreachable { starts: fickering_starts });
            },
        }
        Ok(
            FanFlickerRange {
                minimum_allowed: minimum_allowed as i32,
                fickering_starts: fickering_starts as i32,
            },
        )
    }
}

/// Where a speed lies relative to the flicker range.
pub enum Pos {
    Above,
    InRange,
    Below,
}

/// The direction of a requested change; equality counts as a decrease.
pub enum Dir {
    Inc,
    Dec,
}

/// The position of `speed` relative to `[minimum_allowed, fickering_starts]`.
pub open spec fn position(minimum_allowed: int, fickering_starts: int, speed: int) -> Pos {
    if speed < minimum_allowed {
        Pos::Below
    } else if speed > fickering_starts {
        Pos::Above
    } else {
        Pos::InRange
    }
}

/// The speed that the compensator commands, and keeps as its previous speed,
/// for a request of `requested` when the fan turns at `current_rpm` and the
/// previous speed was `previous`.
pub open spec fn compensated_speed(
    minimum_allowed: int,
    fickering_starts: int,
    previous: int,
    current_rpm: int,
    requested: int,
) -> int {
    if current_rpm == 0 {
        fickering_starts
    } else if requested > fickering_starts {
        requested
    } else if previous < minimum_allowed {
        fickering_starts
    } else if previous > fickering_starts {
        fickering_starts
    } else if requested >= minimum_allowed {
        if requested > previous {
            vstd::math::min(previous + FLICKER_INCREMENT, requested)
        } else {
            vstd::math::max(previous - FLICKER_DECREMENT, requested)
        }
    } else {
        vstd::math::max(previous - FLICKER_DECREMENT, minimum_allowed)
    }
}

/// A stopped fan is restarted at the upper bound of the range, whatever speed
/// was requested and whatever was set before.
pub proof fn lemma_stopped_fan_restarts(
    minimum_allowed: int,
    fickering_starts: int,
    previous: int,
    requested: int,
)
    ensures
        compensated_speed(minimum_allowed, fickering_starts, previous, 0, requested)
            == fickering_starts,
{
}

/// Inside the range the speed rises by at most two points per call and falls
/// by at most one point per call.
pub proof fn lemma_damped_in_range(
    minimum_allowed: int,
    fickering_starts: int,
    previous: int,
    current_rpm: int,
    requested: int,
)
    requires
        current_rpm != 0,
        minimum_allowed <= previous <= fickering_starts,
        minimum_allowed <= requested <= fickering_starts,
    ensures
        ({
            let v = compensated_speed(
                minimum_allowed,
                fickering_starts,
                previous,
                current_rpm,
                requested,
            );
            &&& requested > previous ==> previous < v <= previous + 2
            &&& requested <= previous ==> previous - 1 <= v <= previous
        }),
{
}

/// A flicker range is refused when its lower bound is zero, when it is not
/// below its upper bound, when the range leaves the given global limits, and
/// when the curve reaches the upper bound only above `FLICKER_TEMP_MAX` or
/// never.
pub proof fn lemma_flicker_range_refusals(
    range: (u16, u16),
    curve: Seq<(u16, u16)>,
    limits: Option<(u16, u16)>,
)
    ensures
        range.0 < 1 ==> flicker_range_error(range, curve, limits) is Some,
        range.0 >= range.1 ==> flicker_range_error(range, curve, limits) is Some,
        (limits matches Some((low, high)) && (range.0 < low || range.1 > high))
            ==> flicker_range_error(range, curve, limits) is Some,
        temp_at(curve, range.1 as int) is None ==> flicker_range_error(range, curve, limits) is Some,
        (temp_at(curve, range.1 as int) matches Some(t) && t > FLICKER_TEMP_MAX)
            ==> flicker_range_error(range, curve, limits) is Some,
{
}

/// The message of each refusal names the check that failed: a zero lower
/// bound, a lower bound not below the upper one, a range outside the global
/// limits, an upper bound that the curve reaches only above 75 °C, or one
/// that it never reaches.
pub proof fn lemma_flicker_range_messages(
    range: (u16, u16),
    curve: Seq<(u16, u16)>,
    limits: Option<(u16, u16)>,
)
    ensures
        range.0 < 1 ==> (flicker_range_error(range, curve, limits) matches Some(e) && contains(
            flicker_message(e),
            "greater than zero"@,
        )),
        1 <= range.0 && range.0 >= range.1 ==> (flicker_range_error(range, curve, limits)
            matches Some(e) && contains(flicker_message(e), "not less than"@)),
        1 <= range.0 < range.1 && (limits matches Some((low, high)) && (range.0 < low || range.1
            > high)) ==> (flicker_range_error(range, curve, limits) matches Some(e) && contains(
            flicker_message(e),
            "not within general fan limits"@,
        )),
        1 <= range.0 < range.1 && !(limits matches Some((low, high)) && (range.0 < low || range.1
            > high)) && temp_at(curve, range.1 as int) is None ==> (flicker_range_error(
            range,
            curve,
            limits,
        ) matches Some(e) && contains(flicker_message(e), "unreachable"@)),
        1 <= range.0 < range.1 && !(limits matches Some((low, high)) && (range.0 < low || range.1
            > high)) && (temp_at(curve, range.1 as int) matches Some(t) && t > FLICKER_TEMP_MAX)
            ==> (flicker_range_error(range, curve, limits) matches Some(e) && contains(
            flicker_message(e),
            "exceeds the safe limit of "@ + seq!['7', '5'],
        )),
{
    match flicker_range_error(range, curve, limits) {
        Some(FlickerRangeError::MinimumNotPositive) => {
            lemma_contains_end("fanflicker: `minimum` must be "@, "greater than zero"@);
        },
        Some(FlickerRangeError::MinimumNotBelowStart { minimum, starts }) => {
            let x = "fanflicker: `minimum` ("@ + decimal(minimum as nat) + ") "@;
            let p = "not less than"@;
            lemma_contains_end(x, p);
            lemma_contains_extend(x + p, " `starts` ("@, p);
            lemma_contains_extend(x + p + " `starts` ("@, decimal(starts as nat), p);
            lemma_contains_extend(x + p + " `starts` ("@ + decimal(starts as nat), ")"@, p);
        },
        Some(FlickerRangeError::OutsideLimits { minimum, starts, low, high }) => {
            let x = "fanflicker range ["@ + decimal(minimum as nat) + ", "@ + decimal(starts as nat)
                + "] "@;
            let p = "not within general fan limits"@;
            lemma_contains_end(x, p);
            let y1 = x + p + " ["@;
            lemma_contains_extend(x + p, " ["@, p);
            lemma_contains_extend(y1, decimal(low as nat), p);
            lemma_contains_extend(y1 + decimal(low as nat), ", "@, p);
            lemma_contains_extend(y1 + decimal(low as nat) + ", "@, decimal(high as nat), p);
            lemma_contains_extend(y1 + decimal(low as nat) + ", "@ + decimal(high as nat), "]"@, p);
        },
        Some(FlickerRangeError::TooHot { starts, temp }) => {
            reveal_with_fuel(decimal, 3);
            assert(decimal(FLICKER_TEMP_MAX as nat) =~= seq!['7', '5']);
            let x = "fanflicker: upper fanspeed limit of "@ + decimal(starts as nat)
                + " allows a temperature of "@ + signed_decimal(temp as int) + "°C which "@;
            let e = "exceeds the safe limit of "@;
            let d = decimal(FLICKER_TEMP_MAX as nat);
            assert(x + e + d =~= x + (e + d));
            lemma_contains_end(x, e + d);
            lemma_contains_extend(x + e + d, "°C:"@, e + d);
            lemma_contains_extend(x + e + d + "°C:"@, flicker_reason(), e + d);
        },
        Some(FlickerRangeError::Unreachable { starts }) => {
            let x = "fanflicker: upper fanspeed limit of "@ + decimal(starts as nat) + " is "@;
            let p = "unreachable"@;
            let y = " with the given points, so the safe temperature limit of "@;
            let d = decimal(FLICKER_TEMP_MAX as nat);
            lemma_contains_end(x, p);
            lemma_contains_extend(x + p, y, p);
            lemma_contains_extend(x + p + y, d, p);
            lemma_contains_extend(x + p + y + d, "°C can not be guaranteed:"@, p);
            lemma_contains_extend(
                x + p + y + d + "°C can not be guaranteed:"@,
                flicker_reason(),
                p,
            );
        },
        None => {},
    }
}

/// The anti-flicker state of one fan: its range and the speed last set.
pub struct FanFlickerFix {
    range: FanFlickerRange,
    previous_speed: i32,
}

impl FanFlickerFix {
    #[verifier::type_invariant]
    spec fn inv(&self) -> bool {
        self.range.wf()
    }

    /// The lower bound of the range.
    pub closed spec fn lower(&self) -> int {
        self.range.minimum_allowed as int
    }

    /// The upper bound of the range.
    pub closed spec fn upper(&self) -> int {
        self.range.fickering_starts as int
    }

    /// The speed last set.
    pub closed spec fn previous(&self) -> int {
        self.previous_speed as int
    }

    /// A compensator for `range` whose last set speed was `previous_speed`.
    pub fn new(range: FanFlickerRange, previous_speed: i32) -> (r: FanFlickerFix)
        requires
            range.wf(),
        ensures
            r.lower() == range.minimum_allowed,
            r.upper() == range.fickering_starts,
            r.previous() == previous_speed,
    {
        FanFlickerFix { range, previous_speed }
    }

    /// The lower bound of the range: the least speed the compensator sets
    /// while the fan turns.
    pub fn minimum(&self) -> (r: i32)
        ensures
            r == self.lower(),
            1 <= self.lower() < self.upper() <= 0xffff,
    {
        proof {
            use_type_invariant(self);
        }
        self.range.minimum_allowed
    }

    /// Damps the change from the previous speed to `requested` inside the
    /// flicker range, and restarts a stopped fan (`current_rpm == 0`) at the
    /// upper bound of the range. The result becomes the previous speed.
    pub fn fix_speed(&mut self, current_rpm: i32, requested: i32) -> (r: i32)
        ensures
            r == compensated_speed(
                old(self).lower(),
                old(self).upper(),
                old(self).previous(),
                current_rpm as int,
                requested as int,
            ),
            final(self).previous() == r,
            final(self).lower() == old(self).lower(),
            final(self).upper() == old(self).upper(),
    {
        proof {
            use_type_invariant(&*self);
        }
        let fickering_starts = self.range.fickering_starts;
        let minimum_allowed = self.range.minimum_allowed;

        if current_rpm == 0 {
            self.previous_speed = fickering_starts;
            return self.previous_speed;
        }

        let from = classify(minimum_allowed, fickering_starts, self.previous_speed);
        let to = classify(minimum_allowed, fickering_starts, requested);
        let dir = if requested > self.previous_speed {
            Dir::Inc
        } else {
            Dir::Dec
        };
        let prev = self.previous_speed;

        let new_speed = match (from, to, dir) {
            // Only the flicker range is watched over.
            (_, Pos::Above, _) => requested,
            // A speed below the range means that the fan stopped, which is
            // caught above; recover all the same.
            (Pos::Below, _, _) => fickering_starts,
            // Cannot happen: from above, only a request above increases.
            (Pos::Above, _, Dir::Inc) => {
                proof {
                    assert(false);
                }
                fickering_starts
            },
            // Cannot happen: from inside the range, a request below decreases.
            (Pos::InRange, Pos::Below, Dir::Inc) => {
                proof {
                    assert(false);
                }
                fickering_starts
            },
            // Jumping down into the range, or through it: hold its top.
            (Pos::Above, _, Dir::Dec) => fickering_starts,
            // Rising inside the range: slowly.
            (Pos::InRange, Pos::InRange, Dir::Inc) => {
                let step = prev + FLICKER_INCREMENT;
                if step < requested {
                    step
                } else {
                    requested
                }
            },
            // Falling inside the range: one step at a time.
            (Pos::InRange, Pos::InRange, Dir::Dec) => {
                let step = prev - FLICKER_DECREMENT;
                if step > requested {
                    step
                } else {
                    requested
                }
            },
            // Falling below the range: ease down to its floor.
            (Pos::InRange, Pos::Below, Dir::Dec) => {
                let step = prev - FLICKER_DECREMENT;
                if step > minimum_allowed {
                    step
                } else {
                    minimum_allowed
                }
            },
        };

        self.previous_speed = new_speed;
        new_speed
    }
}

/// The position of `speed` relative to `[minimum_allowed, fickering_starts]`.
fn classify(minimum_allowed: i32, fickering_starts: i32, speed: i32) -> (r: Pos)
    ensures
        r == position(minimum_allowed as int, fickering_starts as int, speed as int),
{
    if speed < minimum_allowed {
        Pos::Below
    } else if speed > fickering_starts {
        Pos::Above
    } else {
        Pos::InRange
    }
}

} // verus!
