//! A step of a schedule as it was written, and the segment it becomes.

use crate::schedule::error::ScheduleError;
use crate::schedule::normalized::NormalizedStep;
use crate::schedule::units::{
    duration_seconds, duration_to_seconds, rate_seconds, rate_to_seconds, Duration, Rate,
    MAX_SECONDS,
};
use vstd::prelude::*;
use vstd::string::StringExecFns;

verus! {

/// The three shapes of a step, and `Unknown` for text that is none of them.
#[derive(Clone, Copy, Debug, PartialEq, Eq, Structural)]
pub enum StepType {
    Duration,
    Rate,
    Hold,
    Unknown,
}

/// A step as it was written. Temperatures are millionths of a degree
/// Celsius.
#[derive(Clone, Copy, Debug, PartialEq, Eq, Structural)]
pub enum Step {
    /// `hold for <length>`: stay at the temperature reached so far.
    Hold { length: Duration },
    /// `<start> to <end> over <length>`.
    Duration { start_temperature: i64, end_temperature: i64, length: Duration },
    /// `<start> to <end> by <rate>`.
    Rate { start_temperature: i64, end_temperature: i64, rate: Rate },
}

/// The end of the step before, or the origin for the first step.
pub open spec fn anchor(previous: Option<NormalizedStep>) -> NormalizedStep {
    match previous {
        Some(step) => step,
        None => NormalizedStep { start_time: 0, end_time: 0, start_temperature: 0, end_temperature: 0 },
    }
}

/// What is said of a step that does not fit the time axis.
pub open spec fn too_long() -> Seq<char> {
    "step takes too long"@
}

impl Step {
    /// The shape of the step.
    pub open spec fn spec_kind(&self) -> StepType {
        match *self {
            Step::Hold { .. } => StepType::Hold,
            Step::Duration { .. } => StepType::Duration,
            Step::Rate { .. } => StepType::Rate,
        }
    }

    /// The shape of the step.
    #[verifier::when_used_as_spec(spec_kind)]
    pub fn kind(&self) -> (kind: StepType)
        ensures
            kind == self.spec_kind(),
    {
        match self {
            Step::Hold { .. } => StepType::Hold,
            Step::Duration { .. } => StepType::Duration,
            Step::Rate { .. } => StepType::Rate,
        }
    }

    /// The seconds the step takes: its length, or the time its change of
    /// temperature takes at its rate. `None` for a rate of zero.
    pub open spec fn seconds(self) -> Option<nat> {
        match self {
            Step::Hold { length } => Some(duration_seconds(length)),
            Step::Duration { length, .. } => Some(duration_seconds(length)),
            Step::Rate { start_temperature, end_temperature, rate } => rate_seconds(
                start_temperature as int,
                end_temperature as int,
                rate,
            ),
        }
    }

    /// The segment that the step becomes after `previous`: it starts where
    /// the step before ended, or at 0, and lasts the step's seconds. A hold
    /// stays at the temperature that the step before ended at, or at 0.
    /// `None` where the step has no seconds or would end after the largest
    /// time a schedule holds.
    pub open spec fn normalized(self, previous: Option<NormalizedStep>) -> Option<NormalizedStep> {
        let before = anchor(previous);
        match self.seconds() {
            Some(seconds) => if before.end_time + seconds <= MAX_SECONDS {
                Some(
                    NormalizedStep {
                        start_time: before.end_time,
                        end_time: (before.end_time + seconds) as u32,
                        start_temperature: match self {
                            Step::Hold { .. } => before.end_temperature,
                            Step::Duration { start_temperature, .. } => start_temperature,
                            Step::Rate { start_temperature, .. } => start_temperature,
                        },
                        end_temperature: match self {
                            Step::Hold { .. } => before.end_temperature,
                            Step::Duration { end_temperature, .. } => end_temperature,
                            Step::Rate { end_temperature, .. } => end_temperature,
                        },
                    },
                )
            } else {
                None
            },
            None => None,
        }
    }

    /// The temperatures that the step starts and ends at, both 0 for a hold,
    /// which names none.
    pub open spec fn temperatures(self) -> (i64, i64) {
        match self {
            Step::Hold { .. } => (0i64, 0i64),
            Step::Duration { start_temperature, end_temperature, .. } => (
                start_temperature,
                end_temperature,
            ),
            Step::Rate { start_temperature, end_temperature, .. } => (
                start_temperature,
                end_temperature,
            ),
        }
    }

    /// The seconds that the step's change of temperature takes at `rate`,
    /// where the rate is not zero and they fit the time axis.
    pub fn rate_to_seconds(step: &Step, rate: &Rate) -> (seconds: Option<u32>)
        ensures
            seconds == (match rate_seconds(
                step.temperatures().0 as int,
                step.temperatures().1 as int,
                *rate,
            ) {
                Some(s) => if s <= MAX_SECONDS {
                    Some(s as u32)
                } else {
                    None
                },
                None => None,
            }),
    {
        match step {
            Step::Hold { .. } => rate_to_seconds(0, 0, rate),
            Step::Duration { start_temperature, end_temperature, .. } => rate_to_seconds(
                *start_temperature,
                *end_temperature,
                rate,
            ),
            Step::Rate { start_temperature, end_temperature, .. } => rate_to_seconds(
                *start_temperature,
                *end_temperature,
                rate,
            ),
        }
    }

    /// The seconds that `duration` lasts, where they fit the time axis.
    pub fn duration_to_seconds(duration: &Duration) -> (seconds: Option<u32>)
        ensures
            seconds == (if duration_seconds(*duration) <= MAX_SECONDS {
                Some(duration_seconds(*duration) as u32)
            } else {
                None
            }),
    {
        duration_to_seconds(duration)
    }

    /// Checks a step by itself: whether it could open a schedule.
    pub fn validate(&self) -> (checked: Result<(), ScheduleError>)
        ensures
            match self.normalized(None) {
                Some(_) => checked is Ok,
                None => checked matches Err(ScheduleError::InvalidStep { description })
                    && description@ == too_long(),
            },
    {
        match self.normalize(None) {
            Ok(_) => Ok(()),
            Err(error) => Err(error),
        }
    }

    /// Turns the step into the segment that follows `previous`.
    pub fn normalize(&self, previous: Option<NormalizedStep>) -> (segment: Result<
        NormalizedStep,
        ScheduleError,
    >)
        ensures
            match self.normalized(previous) {
                Some(step) => segment == Ok::<NormalizedStep, ScheduleError>(step),
                None => segment matches Err(ScheduleError::InvalidStep { description })
                    && description@ == too_long(),
            },
    {
        match self {
            Step::Hold { length } => hold_from_parsed(length, previous),
            Step::Duration { start_temperature, end_temperature, length } => duration_from_parsed(
                *start_temperature,
                *end_temperature,
                length,
                previous,
            ),
            Step::Rate { start_temperature, end_temperature, rate } => rate_from_parsed(
                *start_temperature,
                *end_temperature,
                rate,
                previous,
            ),
        }
    }
}

/// The segment from the end of `previous` that lasts `seconds`, where it
/// fits the time axis.
fn segment_after(
    previous: Option<NormalizedStep>,
    seconds: Option<u32>,
    start_temperature: i64,
    end_temperature: i64,
) -> (segment: Result<NormalizedStep, ScheduleError>)
    ensures
        match seconds {
            Some(s) => if anchor(previous).end_time + s <= MAX_SECONDS {
                segment == Ok::<NormalizedStep, ScheduleError>(
                    NormalizedStep {
                        start_time: anchor(previous).end_time,
                        end_time: (anchor(previous).end_time + s) as u32,
                        start_temperature,
                        end_temperature,
                    },
                )
            } else {
                segment matches Err(ScheduleError::InvalidStep { description }) && description@
                    == too_long()
            },
            None => segment matches Err(ScheduleError::InvalidStep { description }) && description@
                == too_long(),
        },
{
    let start_time = match previous {
        Some(step) => step.end_time,
        None => 0,
    };
    match seconds {
        Some(s) => {
            if s <= MAX_SECONDS - start_time {
                return Ok(
                    NormalizedStep {
                        start_time,
                        end_time: start_time + s,
                        start_temperature,
                        end_temperature,
                    },
                );
            }
        },
        None => {},
    }
    Err(ScheduleError::InvalidStep { description: String::from_str("step takes too long") })
}

/// The segment of `hold for <length>` after `previous`.
pub fn hold_from_parsed(length: &Duration, previous: Option<NormalizedStep>) -> (segment: Result<
    NormalizedStep,
    ScheduleError,
>)
    ensures
        match (Step::Hold { length: *length }).normalized(previous) {
            Some(step) => segment == Ok::<NormalizedStep, ScheduleError>(step),
            None => segment matches Err(ScheduleError::InvalidStep { description }) && description@
                == too_long(),
        },
{
    let temperature = match previous {
        Some(step) => step.end_temperature,
        None => 0,
    };
    segment_after(previous, duration_to_seconds(length), temperature, temperature)
}

/// The segment of `<start> to <end> over <length>` after `previous`.
pub fn duration_from_parsed(
    start_temperature: i64,
    end_temperature: i64,
    length: &Duration,
    previous: Option<NormalizedStep>,
) -> (segment: Result<NormalizedStep, ScheduleError>)
    ensures
        match (Step::Duration { start_temperature, end_temperature, length: *length }).normalized(
            previous,
        ) {
            Some(step) => segment == Ok::<NormalizedStep, ScheduleError>(step),
            None => segment matches Err(ScheduleError::InvalidStep { description }) && description@
                == too_long(),
        },
{
    segment_after(previous, duration_to_seconds(length), start_temperature, end_temperature)
}

/// The segment of `<start> to <end> by <rate>` after `previous`.
pub fn rate_from_parsed(
    start_temperature: i64,
    end_temperature: i64,
    rate: &Rate,
    previous: Option<NormalizedStep>,
) -> (segment: Result<NormalizedStep, ScheduleError>)
    ensures
        match (Step::Rate { start_temperature, end_temperature, rate: *rate }).normalized(previous) {
            Some(step) => segment == Ok::<NormalizedStep, ScheduleError>(step),
            None => segment matches Err(ScheduleError::InvalidStep { description }) && description@
                == too_long(),
        },
{
    segment_after(
        previous,
        rate_to_seconds(start_temperature, end_temperature, rate),
        start_temperature,
        end_temperature,
    )
}

/// A step's segment lasts the step's seconds, whatever came before.
pub proof fn lemma_segment_lasts_seconds(step: Step, previous: Option<NormalizedStep>)
    requires
        step.normalized(previous) is Some,
    ensures
        step.seconds() is Some,
        step.normalized(previous)->0.start_time == anchor(previous).end_time,
        step.normalized(previous)->0.end_time == anchor(previous).end_time + step.seconds()->0,
{
}

} // verus!
