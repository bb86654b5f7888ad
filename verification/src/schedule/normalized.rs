//! The normalized schedule: a piecewise-linear curve of target
//! temperature over cumulative seconds.

use crate::fixed::{div_round, lemma_round_div_between, lemma_round_div_exact, round_div};
use crate::schedule::units::TemperatureScale;
use vstd::prelude::*;

verus! {

/// One segment of the curve: from `start_temperature` at `start_time` to
/// `end_temperature` at `end_time`. Times are seconds from the start of the
/// schedule, temperatures millionths of a degree Celsius.
#[derive(Clone, Copy, Debug, PartialEq, Eq, Structural)]
pub struct NormalizedStep {
    pub start_time: u32,
    pub end_time: u32,
    pub start_temperature: i64,
    pub end_temperature: i64,
}

impl Default for NormalizedStep {
    fn default() -> (step: NormalizedStep)
        ensures
            step == (NormalizedStep {
                start_time: 0,
                end_time: 0,
                start_temperature: 0,
                end_temperature: 0,
            }),
    {
        NormalizedStep { start_time: 0, end_time: 0, start_temperature: 0, end_temperature: 0 }
    }
}

/// A schedule whose steps are segments on one time axis.
#[derive(Clone, Debug, PartialEq, Eq)]
pub struct NormalizedSchedule {
    pub name: String,
    pub description: Option<String>,
    pub scale: TemperatureScale,
    pub steps: Vec<NormalizedStep>,
}

/// Whether `time` lies within the step, its two ends included.
pub open spec fn covers(step: NormalizedStep, time: nat) -> bool {
    step.start_time <= time <= step.end_time
}

/// The temperature on the step's line at `time`. A step of no length
/// has slope zero and stays at its start temperature.
pub open spec fn interpolate(step: NormalizedStep, time: nat) -> int {
    if step.end_time == step.start_time {
        step.start_temperature as int
    } else {
        step.start_temperature + round_div(
            (step.end_temperature - step.start_temperature) * (time - step.start_time),
            step.end_time - step.start_time,
        )
    }
}

/// The end of the last step, or 0 where there is none.
pub open spec fn total_duration_of(steps: Seq<NormalizedStep>) -> nat {
    if steps.len() == 0 {
        0
    } else {
        steps.last().end_time as nat
    }
}

/// The first step at or after index `from` that covers `time`.
pub open spec fn covering_from(steps: Seq<NormalizedStep>, time: nat, from: int) -> Option<int>
    decreases steps.len() - from,
{
    if from < 0 || from >= steps.len() {
        None
    } else if covers(steps[from], time) {
        Some(from)
    } else {
        covering_from(steps, time, from + 1)
    }
}

/// The target temperature at `time`: on the line of the earliest step that
/// covers `time`, and 0 after the end of the schedule or where no step
/// covers it.
pub open spec fn target_at(steps: Seq<NormalizedStep>, time: nat) -> int {
    if time > total_duration_of(steps) {
        0
    } else {
        match covering_from(steps, time, 0) {
            Some(i) => interpolate(steps[i], time),
            None => 0,
        }
    }
}

/// The steps form one unbroken time axis: there is a first step, it starts
/// at 0, no step ends before it starts, and each starts where the one
/// before it ended.
pub open spec fn is_chain(steps: Seq<NormalizedStep>) -> bool {
    &&& steps.len() > 0
    &&& steps[0].start_time == 0
    &&& forall|i: int| 0 <= i < steps.len() ==> (#[trigger] steps[i]).start_time <= steps[i].end_time
    &&& forall|i: int|
        0 <= i < steps.len() - 1 ==> (#[trigger] steps[i]).end_time == steps[i + 1].start_time
}

/// What [`covering_from`] finds is the least covering index at or after
/// `from`, and it finds one wherever one exists.
pub proof fn lemma_covering_from(steps: Seq<NormalizedStep>, time: nat, from: int)
    requires
        0 <= from,
    ensures
        match covering_from(steps, time, from) {
            Some(i) => from <= i < steps.len() && covers(steps[i], time) && forall|j: int|
                from <= j < i ==> !covers(#[trigger] steps[j], time),
            None => forall|j: int| from <= j < steps.len() ==> !covers(#[trigger] steps[j], time),
        },
    decreases steps.len() - from,
{
    if from < steps.len() && !covers(steps[from], time) {
        lemma_covering_from(steps, time, from + 1);
    }
}

/// The line of a step stays between its two temperatures.
pub proof fn lemma_interpolate_between(step: NormalizedStep, time: nat)
    requires
        covers(step, time),
    ensures
        step.start_temperature <= step.end_temperature ==> step.start_temperature <= interpolate(
            step,
            time,
        ) <= step.end_temperature,
        step.start_temperature >= step.end_temperature ==> step.end_temperature <= interpolate(
            step,
            time,
        ) <= step.start_temperature,
{
    if step.end_time != step.start_time {
        let rise = step.end_temperature - step.start_temperature;
        let run = step.end_time - step.start_time;
        let elapsed = time - step.start_time;
        if rise >= 0 {
            assert(0 * run <= rise * elapsed <= rise * run) by (nonlinear_arith)
                requires
                    0 <= elapsed <= run,
                    rise >= 0,
            ;
            lemma_round_div_between(rise * elapsed, run, 0, rise);
        } else {
            assert(rise * run <= rise * elapsed <= 0 * run) by (nonlinear_arith)
                requires
                    0 <= elapsed <= run,
                    rise < 0,
            ;
            lemma_round_div_between(rise * elapsed, run, rise, 0);
        }
    }
}

/// In time order, later steps end no earlier.
pub proof fn lemma_chain_ordered(steps: Seq<NormalizedStep>, i: int, j: int)
    requires
        is_chain(steps),
        0 <= i <= j < steps.len(),
    ensures
        steps[i].end_time <= steps[j].end_time,
        steps[i].start_time <= steps[j].start_time,
    decreases j - i,
{
    if i < j {
        lemma_chain_ordered(steps, i, j - 1);
    }
}

/// Within one step the curve is that step's line: at any time after the
/// step's start and up to its end the target lies on the line of that step.
pub proof fn lemma_target_on_step(steps: Seq<NormalizedStep>, i: int, time: nat)
    requires
        is_chain(steps),
        0 <= i < steps.len(),
        steps[i].start_time < time <= steps[i].end_time,
    ensures
        target_at(steps, time) == interpolate(steps[i], time),
{
    lemma_chain_ordered(steps, i, steps.len() - 1);
    lemma_covering_from(steps, time, 0);
    assert forall|j: int| 0 <= j < i implies !covers(#[trigger] steps[j], time) by {
        lemma_chain_ordered(steps, j, i - 1);
    };
}

/// The curve starts at the first step's start temperature.
pub proof fn lemma_target_at_start(steps: Seq<NormalizedStep>)
    requires
        is_chain(steps),
    ensures
        target_at(steps, 0) == steps[0].start_temperature,
{
    if steps[0].end_time != steps[0].start_time {
        lemma_round_div_exact(0, steps[0].end_time - steps[0].start_time);
    }
}

/// The curve meets the joints: at the end of a step that has a length the
/// target is that step's end temperature. Where the next step starts at the
/// temperature this one ended at, the target equals both, and the next
/// step's line starts from it, so the curve is continuous there.
pub proof fn lemma_target_at_joint(steps: Seq<NormalizedStep>, i: int)
    requires
        is_chain(steps),
        0 <= i < steps.len(),
        steps[i].start_time < steps[i].end_time,
    ensures
        target_at(steps, steps[i].end_time as nat) == steps[i].end_temperature,
        i + 1 < steps.len() ==> interpolate(steps[i + 1], steps[i].end_time as nat) == steps[i
            + 1].start_temperature,
        i + 1 < steps.len() && steps[i + 1].start_temperature == steps[i].end_temperature
            ==> target_at(steps, steps[i].end_time as nat) == interpolate(
            steps[i + 1],
            steps[i + 1].start_time as nat,
        ),
{
    let step = steps[i];
    lemma_target_on_step(steps, i, step.end_time as nat);
    lemma_round_div_exact(
        step.end_temperature - step.start_temperature,
        step.end_time - step.start_time,
    );
    if i + 1 < steps.len() {
        let next = steps[i + 1];
        if next.end_time != next.start_time {
            lemma_round_div_exact(0, next.end_time - next.start_time);
        }
    }
}

/// After the end of the schedule the target is 0.
pub proof fn lemma_target_after_end(steps: Seq<NormalizedStep>, time: nat)
    requires
        time > total_duration_of(steps),
    ensures
        target_at(steps, time) == 0,
{
}

impl NormalizedSchedule {
    /// The steps form one unbroken time axis (see [`is_chain`]).
    pub open spec fn wf(&self) -> bool {
        is_chain(self.steps@)
    }

    /// The end of the last step in seconds, or 0 for a schedule without steps.
    pub fn total_duration(&self) -> (seconds: u32)
        ensures
            seconds == total_duration_of(self.steps@),
    {
        let n = self.steps.len();
        if n == 0 {
            0
        } else {
            self.steps[n - 1].end_time
        }
    }

    /// The earliest step that covers `time`.
    fn step_at_time(&self, time: u32) -> (found: Option<usize>)
        ensures
            match found {
                Some(i) => covering_from(self.steps@, time as nat, 0) == Some(i as int),
                None => covering_from(self.steps@, time as nat, 0) is None,
            },
    {
        let mut i: usize = 0;
        while i < self.steps.len()
            invariant
                i <= self.steps.len(),
                covering_from(self.steps@, time as nat, 0) == covering_from(
                    self.steps@,
                    time as nat,
                    i as int,
                ),
            decreases self.steps.len() - i,
        {
            let step = &self.steps[i];
            if step.start_time <= time && time <= step.end_time {
                return Some(i);
            }
            i += 1;
        }
        None
    }

    /// The target temperature (set point) at `time` seconds into the schedule.
    pub fn target_temperature(&self, time: u32) -> (target: i64)
        ensures
            target == target_at(self.steps@, time as nat),
            time > total_duration_of(self.steps@) ==> target == 0,
    {
        if time > self.total_duration() {
            return 0;
        }
        let found = self.step_at_time(time);
        proof {
            lemma_covering_from(self.steps@, time as nat, 0);
        }
        match found {
            Some(i) => {
                let step = &self.steps[i];
                if step.end_time == step.start_time {
                    step.start_temperature
                } else {
                    let rise: i128 = step.end_temperature as i128 - step.start_temperature as i128;
                    let run: i128 = (step.end_time - step.start_time) as i128;
                    let elapsed: i128 = (time - step.start_time) as i128;
                    proof {
                        lemma_interpolate_between(*step, time as nat);
                        assert(-0x1_0000_0000_0000_0000 * 0x1_0000_0000 <= rise * elapsed
                            <= 0x1_0000_0000_0000_0000 * 0x1_0000_0000) by (nonlinear_arith)
                            requires
                                -0x1_0000_0000_0000_0000 <= rise <= 0x1_0000_0000_0000_0000,
                                0 <= elapsed <= 0x1_0000_0000,
                        ;
                    }
                    (step.start_temperature as i128 + div_round(rise * elapsed, run)) as i64
                }
            },
            None => 0,
        }
    }
}

} // verus!
