//! Temperature scales, time units, and the conversions between them.

use crate::fixed::{div_round, lemma_round_div_between, round_div, MICRO};
use crate::schedule::error::ScheduleError;
use crate::schedule::text::same_text;
use vstd::prelude::*;
use vstd::string::StringExecFns;

verus! {

/// The scale a temperature is written in. Schedules are normalized to Celsius.
#[derive(Clone, Copy, Debug, PartialEq, Eq, Structural)]
pub enum TemperatureScale {
    Celsius,
    Fahrenheit,
    Kelvin,
}

/// A unit of time of the step language.
#[derive(Clone, Copy, Debug, PartialEq, Eq, Structural)]
pub enum TimeUnit {
    Hours,
    Minutes,
    Seconds,
}

/// A length of time: `value` millionths of `unit`.
#[derive(Clone, Copy, Debug, PartialEq, Eq, Structural)]
pub struct Duration {
    pub value: u64,
    pub unit: TimeUnit,
}

/// A rate of change: `value` millionths of a degree per `unit`.
#[derive(Clone, Copy, Debug, PartialEq, Eq, Structural)]
pub struct Rate {
    pub value: u64,
    pub unit: TimeUnit,
}

/// The freezing point of water in millionths of a degree Fahrenheit.
pub const FAHRENHEIT_OFFSET: i64 = 32_000_000;

/// The freezing point of water in millionths of a kelvin.
pub const KELVIN_OFFSET: i64 = 273_150_000;

/// The largest time, in seconds, that the time axis of a schedule holds.
pub const MAX_SECONDS: u32 = 0xffff_ffff;

/// Degrees Fahrenheit as degrees Celsius, both in millionths: `(t - 32) / 1.8`.
pub open spec fn fahrenheit_as_celsius(temp: int) -> int {
    round_div((temp - FAHRENHEIT_OFFSET) * 5, 9)
}

/// Kelvin as degrees Celsius, both in millionths: `t - 273.15`.
pub open spec fn kelvin_as_celsius(temp: int) -> int {
    temp - KELVIN_OFFSET
}

impl TemperatureScale {
    /// The scale that a letter names: `C`, `F` or `K`.
    pub open spec fn named(input: Seq<char>) -> Option<TemperatureScale> {
        if input == "C"@ {
            Some(TemperatureScale::Celsius)
        } else if input == "F"@ {
            Some(TemperatureScale::Fahrenheit)
        } else if input == "K"@ {
            Some(TemperatureScale::Kelvin)
        } else {
            None
        }
    }

    /// Reads the letter of a scale.
    pub fn from_str(input: &str) -> (scale: Result<TemperatureScale, ScheduleError>)
        ensures
            match TemperatureScale::named(input@) {
                Some(named) => scale == Ok::<TemperatureScale, ScheduleError>(named),
                None => scale matches Err(ScheduleError::InvalidStep { description })
                    && description@ == "unknown temperature scale provided"@,
            },
    {
        if same_text(input, "C") {
            Ok(TemperatureScale::Celsius)
        } else if same_text(input, "F") {
            Ok(TemperatureScale::Fahrenheit)
        } else if same_text(input, "K") {
            Ok(TemperatureScale::Kelvin)
        } else {
            Err(
                ScheduleError::InvalidStep {
                    description: String::from_str("unknown temperature scale provided"),
                },
            )
        }
    }

    /// A temperature of this scale as degrees Celsius, both in millionths.
    pub open spec fn as_celsius(self, temp: int) -> int {
        match self {
            TemperatureScale::Celsius => temp,
            TemperatureScale::Fahrenheit => fahrenheit_as_celsius(temp),
            TemperatureScale::Kelvin => kelvin_as_celsius(temp),
        }
    }

    /// Converts a temperature of this scale to degrees Celsius. A
    /// temperature in kelvin must leave room for the offset.
    pub fn to_celsius(self, temp: i64) -> (celsius: i64)
        requires
            self is Kelvin ==> temp - KELVIN_OFFSET >= i64::MIN,
        ensures
            celsius == self.as_celsius(temp as int),
    {
        match self {
            TemperatureScale::Celsius => temp,
            TemperatureScale::Fahrenheit => fahrenheit_to_celcius(temp),
            TemperatureScale::Kelvin => kelvin_to_celcius(temp),
        }
    }
}

impl TimeUnit {
    /// The unit that a word names: `hour`, `minute` or `second`.
    pub open spec fn named(input: Seq<char>) -> Option<TimeUnit> {
        if input == "hour"@ {
            Some(TimeUnit::Hours)
        } else if input == "minute"@ {
            Some(TimeUnit::Minutes)
        } else if input == "second"@ {
            Some(TimeUnit::Seconds)
        } else {
            None
        }
    }

    /// Reads the name of a unit of time.
    pub fn from_str(input: &str) -> (unit: Result<TimeUnit, ScheduleError>)
        ensures
            match TimeUnit::named(input@) {
                Some(named) => unit == Ok::<TimeUnit, ScheduleError>(named),
                None => unit matches Err(ScheduleError::InvalidStep { description })
                    && description@ == "unknown time unit provided"@,
            },
    {
        if same_text(input, "hour") {
            Ok(TimeUnit::Hours)
        } else if same_text(input, "minute") {
            Ok(TimeUnit::Minutes)
        } else if same_text(input, "second") {
            Ok(TimeUnit::Seconds)
        } else {
            Err(
                ScheduleError::InvalidStep {
                    description: String::from_str("unknown time unit provided"),
                },
            )
        }
    }

    /// How many seconds one unit lasts.
    pub open spec fn spec_seconds(self) -> u32 {
        match self {
            TimeUnit::Hours => 3600,
            TimeUnit::Minutes => 60,
            TimeUnit::Seconds => 1,
        }
    }

    /// How many seconds one unit lasts.
    #[verifier::when_used_as_spec(spec_seconds)]
    pub fn seconds(self) -> (s: u32)
        ensures
            s == self.spec_seconds(),
    {
        match self {
            TimeUnit::Hours => 3600,
            TimeUnit::Minutes => 60,
            TimeUnit::Seconds => 1,
        }
    }
}

/// Converts millionths of a degree Fahrenheit to millionths of a degree Celsius.
pub fn fahrenheit_to_celcius(temp: i64) -> (celsius: i64)
    ensures
        celsius == fahrenheit_as_celsius(temp as int),
{
    let scaled: i128 = (temp as i128 - FAHRENHEIT_OFFSET as i128) * 5;
    proof {
        lemma_round_div_between(scaled as int, 9, i64::MIN as int, i64::MAX as int);
    }
    div_round(scaled, 9) as i64
}

/// Converts millionths of a kelvin to millionths of a degree Celsius. The
/// temperature must leave room for the offset.
pub fn kelvin_to_celcius(temp: i64) -> (celsius: i64)
    requires
        temp - KELVIN_OFFSET >= i64::MIN,
    ensures
        celsius == kelvin_as_celsius(temp as int),
{
    temp - KELVIN_OFFSET
}

/// The seconds that a duration lasts, rounded to the nearest second.
pub open spec fn duration_seconds(duration: Duration) -> nat {
    round_div(duration.value * duration.unit.spec_seconds(), MICRO as int) as nat
}

/// The seconds that a change from `start_temperature` to `end_temperature`
/// takes at `rate`, rounded to the nearest second; `None` at a rate of zero,
/// which no change can be made at.
pub open spec fn rate_seconds(start_temperature: int, end_temperature: int, rate: Rate) -> Option<
    nat,
> {
    if rate.value == 0 {
        None
    } else {
        let change = if end_temperature >= start_temperature {
            end_temperature - start_temperature
        } else {
            start_temperature - end_temperature
        };
        Some(round_div(change * rate.unit.spec_seconds(), rate.value as int) as nat)
    }
}

/// The seconds that `duration` lasts, where they fit the time axis.
pub fn duration_to_seconds(duration: &Duration) -> (seconds: Option<u32>)
    ensures
        seconds == (if duration_seconds(*duration) <= MAX_SECONDS {
            Some(duration_seconds(*duration) as u32)
        } else {
            None
        }),
{
    let unit = duration.unit.seconds();
    assert(0 <= duration.value * unit <= 0xffff_ffff_ffff_ffff * 3600) by (nonlinear_arith)
        requires
            0 <= duration.value <= 0xffff_ffff_ffff_ffff,
            0 <= unit <= 3600,
    ;
    let scaled: i128 = duration.value as i128 * unit as i128;
    proof {
        lemma_round_div_between(scaled as int, MICRO as int, 0, scaled as int);
    }
    let seconds = div_round(scaled, MICRO as i128);
    if seconds <= MAX_SECONDS as i128 {
        Some(seconds as u32)
    } else {
        None
    }
}

/// The seconds that the change between the two temperatures takes at
/// `rate`, where the rate is not zero and they fit the time axis.
pub fn rate_to_seconds(start_temperature: i64, end_temperature: i64, rate: &Rate) -> (seconds:
    Option<u32>)
    ensures
        seconds == (match rate_seconds(start_temperature as int, end_temperature as int, *rate) {
            Some(s) => if s <= MAX_SECONDS {
                Some(s as u32)
            } else {
                None
            },
            None => None,
        }),
{
    if rate.value == 0 {
        return None;
    }
    let change: i128 = if end_temperature >= start_temperature {
        end_temperature as i128 - start_temperature as i128
    } else {
        start_temperature as i128 - end_temperature as i128
    };
    let unit = rate.unit.seconds();
    assert(0 <= change * unit <= 0x1_0000_0000_0000_0000 * 3600) by (nonlinear_arith)
        requires
            0 <= change <= 0x1_0000_0000_0000_0000,
            0 <= unit <= 3600,
    ;
    let scaled: i128 = change * unit as i128;
    proof {
        assert(scaled <= scaled * rate.value) by (nonlinear_arith)
            requires
                scaled >= 0,
                rate.value >= 1,
        ;
        lemma_round_div_between(scaled as int, rate.value as int, 0, scaled as int);
    }
    let seconds = div_round(scaled, rate.value as i128);
    if seconds <= MAX_SECONDS as i128 {
        Some(seconds as u32)
    } else {
        None
    }
}

} // verus!
