//! The schedule as its author wrote it: a name and steps in the step
//! language.

use crate::schedule::error::{ScheduleError, ScheduleErrorView};
use crate::schedule::name::{joined, name_result, to_filename};
use crate::schedule::normalized::{is_chain, total_duration_of, NormalizedSchedule, NormalizedStep};
use crate::schedule::parser::{parse_step, parsed, step_result};
use crate::schedule::step::lemma_segment_lasts_seconds;
use crate::schedule::units::TemperatureScale;
use vstd::prelude::*;
use vstd::string::StringExecFns;

verus! {

/// A schedule for a person to read and write, before it is normalized.
#[derive(Clone, Debug, PartialEq, Eq)]
pub struct Schedule {
    pub name: String,
    pub description: Option<String>,
    pub scale: TemperatureScale,
    pub steps: Vec<String>,
}

/// The texts of the steps.
pub open spec fn texts(steps: Seq<String>) -> Seq<Seq<char>> {
    steps.map_values(|step: String| step@)
}

/// The last of the segments, if there is one.
pub open spec fn last_of(done: Seq<NormalizedStep>) -> Option<NormalizedStep> {
    if done.len() == 0 {
        None
    } else {
        Some(done.last())
    }
}

/// The segments that the texts of the steps normalize to, each step
/// following the one before it; or what is wrong with the first step that
/// has no segment.
pub open spec fn segments(texts: Seq<Seq<char>>) -> Result<Seq<NormalizedStep>, Seq<char>>
    decreases texts.len(),
{
    if texts.len() == 0 {
        Ok(Seq::empty())
    } else {
        match segments(texts.drop_last()) {
            Ok(before) => match step_result(texts.last(), last_of(before)) {
                Ok(step) => Ok(before.push(step)),
                Err(reason) => Err(reason),
            },
            Err(reason) => Err(reason),
        }
    }
}

/// What is wrong with each step that opens no schedule, in the order of
/// the steps.
pub open spec fn complaints(texts: Seq<Seq<char>>) -> Seq<Seq<char>>
    decreases texts.len(),
{
    if texts.len() == 0 {
        Seq::empty()
    } else {
        match step_result(texts.last(), None) {
            Ok(_) => complaints(texts.drop_last()),
            Err(reason) => complaints(texts.drop_last()).push(reason),
        }
    }
}

/// The seconds that the step written by the text takes, 0 where the text
/// writes no step or the step has no seconds.
pub open spec fn step_seconds(text: Seq<char>) -> nat {
    match parsed(text) {
        Some(step) => match step.seconds() {
            Some(seconds) => seconds,
            None => 0,
        },
        None => 0,
    }
}

/// The seconds of all the steps together.
pub open spec fn sum_seconds(texts: Seq<Seq<char>>) -> nat
    decreases texts.len(),
{
    if texts.len() == 0 {
        0
    } else {
        sum_seconds(texts.drop_last()) + step_seconds(texts.last())
    }
}

/// What is said of a schedule with fewer than two steps.
pub open spec fn not_enough_steps() -> Seq<char> {
    "not enough steps in schedule. more than 2 required"@
}

/// The file of the schedule with the id in a directory.
pub open spec fn file_path(directory: Seq<char>, id: Seq<char>) -> Seq<char> {
    directory + "/"@ + id + ".yaml"@
}

/// What validating a schedule gives: nothing to say, or what is wrong
/// with it. The name is looked at first, then the number of steps, then
/// each step by itself; what is wrong with several steps makes one error
/// with a line for each.
pub open spec fn validity(schedule: Schedule) -> Result<(), ScheduleErrorView> {
    match name_result(schedule.name@) {
        Err(reason) => Err(ScheduleErrorView::InvalidName(reason)),
        Ok(_) => if schedule.steps.len() < 2 {
            Err(ScheduleErrorView::InvalidStep { description: not_enough_steps() })
        } else if complaints(texts(schedule.steps@)).len() > 0 {
            Err(
                ScheduleErrorView::InvalidStep {
                    description: joined(complaints(texts(schedule.steps@)), "\n"@),
                },
            )
        } else {
            Ok(())
        },
    }
}

/// Whether a schedule is valid: its name gives a legal file name, it has
/// two steps or more, and each of its steps could open a schedule.
pub open spec fn is_valid(schedule: Schedule) -> bool {
    &&& name_result(schedule.name@) is Ok
    &&& schedule.steps.len() >= 2
    &&& complaints(texts(schedule.steps@)).len() == 0
}

/// Where the steps up to some step have no segments, all the steps have
/// none, for the same reason.
pub proof fn lemma_segments_fail_early(texts: Seq<Seq<char>>, n: int)
    requires
        0 <= n <= texts.len(),
        segments(texts.take(n)) is Err,
    ensures
        segments(texts) == segments(texts.take(n)),
    decreases texts.len() - n,
{
    if n < texts.len() {
        assert(texts.take(n + 1).drop_last() =~= texts.take(n));
        lemma_segments_fail_early(texts, n + 1);
    } else {
        assert(texts.take(n) =~= texts);
    }
}

/// The segments of a schedule are as many as its steps and form one
/// unbroken time axis, and the schedule lasts as long as its steps together.
pub proof fn lemma_segments_sum(texts: Seq<Seq<char>>)
    requires
        segments(texts) is Ok,
    ensures
        segments(texts)->Ok_0.len() == texts.len(),
        texts.len() > 0 ==> is_chain(segments(texts)->Ok_0),
        total_duration_of(segments(texts)->Ok_0) == sum_seconds(texts),
    decreases texts.len(),
{
    if texts.len() > 0 {
        let front = texts.drop_last();
        lemma_segments_sum(front);
        lemma_segment_lasts_seconds(parsed(texts.last())->0, last_of(segments(front)->Ok_0));
    }
}

impl Schedule {
    /// Checks a schedule: its name first, then the number of its steps,
    /// then each step by itself. What is wrong with several steps is
    /// reported in one error, a line for each.
    pub fn validate(schedule: &Schedule) -> (checked: Result<(), ScheduleError>)
        ensures
            checked is Ok <==> is_valid(*schedule),
            match validity(*schedule) {
                Ok(_) => checked is Ok,
                Err(problem) => checked matches Err(error) && error@ == problem,
            },
    {
        match to_filename(&schedule.name) {
            Ok(_) => {},
            Err(error) => {
                return Err(error);
            },
        }
        let ghost all = texts(schedule.steps@);
        let mut report = String::new();
        let mut failures: usize = 0;
        let mut i: usize = 0;
        while i < schedule.steps.len()
            invariant
                i <= schedule.steps.len(),
                all == texts(schedule.steps@),
                failures == complaints(all.take(i as int)).len(),
                failures <= i,
                report@ == joined(complaints(all.take(i as int)), "\n"@),
            decreases schedule.steps.len() - i,
        {
            let ghost before = complaints(all.take(i as int));
            proof {
                assert(all.take(i + 1).drop_last() =~= all.take(i as int));
            }
            match parse_step(schedule.steps[i].as_str(), None) {
                Ok(_) => {},
                Err(error) => {
                    match error {
                        ScheduleError::InvalidStep { description } => {
                            proof {
                                assert(before.push(description@).drop_last() =~= before);
                            }
                            if failures > 0 {
                                report.append("\n");
                            }
                            report.append(description.as_str());
                            failures += 1;
                        },
                        _ => {},
                    }
                },
            }
            i += 1;
        }
        proof {
            assert(all.take(schedule.steps.len() as int) =~= all);
        }
        if schedule.steps.len() < 2 {
            Err(
                ScheduleError::InvalidStep {
                    description: String::from_str(
                        "not enough steps in schedule. more than 2 required",
                    ),
                },
            )
        } else if failures > 0 {
            Err(ScheduleError::InvalidStep { description: report })
        } else {
            Ok(())
        }
    }

    /// Tries to turn a schedule's name into a file name.
    pub fn to_filename(name: &String) -> (checked: Result<String, ScheduleError>)
        ensures
            match name_result(name@) {
                Ok(filename) => checked matches Ok(text) && text@ == filename,
                Err(reason) => checked matches Err(ScheduleError::InvalidName(text)) && text@
                    == reason,
            },
    {
        to_filename(name)
    }

    /// Normalizes the schedule: parses each step in order, each after the
    /// segment of the step before it, so that the segments share one time
    /// axis and a hold stays at the temperature reached. Fails with what
    /// is wrong with the first step that has no segment.
    pub fn normalize(self) -> (normalized: Result<NormalizedSchedule, ScheduleError>)
        ensures
            match segments(texts(self.steps@)) {
                Ok(steps) => normalized matches Ok(schedule) && schedule.steps@ == steps
                    && schedule.name == self.name && schedule.description == self.description
                    && schedule.scale == self.scale && (steps.len() > 0 ==> schedule.wf())
                    && total_duration_of(schedule.steps@) == sum_seconds(texts(self.steps@)),
                Err(reason) => normalized matches Err(ScheduleError::InvalidStep { description })
                    && description@ == reason,
            },
    {
        let ghost all = texts(self.steps@);
        let mut steps: Vec<NormalizedStep> = Vec::new();
        let mut previous: Option<NormalizedStep> = None;
        let mut i: usize = 0;
        while i < self.steps.len()
            invariant
                i <= self.steps.len(),
                all == texts(self.steps@),
                segments(all.take(i as int)) == Ok::<Seq<NormalizedStep>, Seq<char>>(steps@),
                previous == last_of(steps@),
            decreases self.steps.len() - i,
        {
            proof {
                assert(all.take(i + 1).drop_last() =~= all.take(i as int));
            }
            match parse_step(self.steps[i].as_str(), previous) {
                Ok(step) => {
                    steps.push(step);
                    previous = Some(step);
                },
                Err(error) => {
                    proof {
                        lemma_segments_fail_early(all, i + 1);
                    }
                    return Err(error);
                },
            }
            i += 1;
        }
        proof {
            assert(all.take(self.steps.len() as int) =~= all);
            lemma_segments_sum(all);
        }
        Ok(
            NormalizedSchedule {
                name: self.name,
                description: self.description,
                scale: self.scale,
                steps,
            },
        )
    }

    /// The file that holds the schedule with the name.
    pub fn by_name(name: &String, schedule_directory: &String) -> (path: String)
        ensures
            path@ == file_path(schedule_directory@, name@),
    {
        schedule_directory.clone().concat("/").concat(name.as_str()).concat(".yaml")
    }

    /// Where to store a new schedule: its id, which is the file name that
    /// its name gives, and the file to write. Fails for a schedule that is
    /// not valid, as [`Schedule::validate`] does.
    pub fn new(schedule: &Schedule, schedule_directory: &String) -> (stored: Result<
        (String, String),
        ScheduleError,
    >)
        ensures
            stored is Ok <==> is_valid(*schedule),
            stored matches Ok((id, path)) ==> name_result(schedule.name@) == Ok::<
                Seq<char>,
                Seq<char>,
            >(id@) && path@ == file_path(schedule_directory@, id@),
            stored matches Err(error) ==> validity(*schedule) == Err::<(), ScheduleErrorView>(
                error@,
            ),
    {
        match Schedule::validate(schedule) {
            Ok(()) => {},
            Err(error) => {
                return Err(error);
            },
        }
        match Schedule::to_filename(&schedule.name) {
            Ok(id) => {
                let path = Schedule::by_name(&id, schedule_directory);
                Ok((id, path))
            },
            Err(error) => Err(error),
        }
    }

    /// Where to store a schedule in place of the one with the id: the id
    /// and the file to write. Fails for a schedule that is not valid.
    pub fn update(id: String, schedule: &Schedule, schedule_directory: &String) -> (stored: Result<
        (String, String),
        ScheduleError,
    >)
        ensures
            stored is Ok <==> is_valid(*schedule),
            stored matches Ok((same, path)) ==> same@ == id@ && path@ == file_path(
                schedule_directory@,
                id@,
            ),
            stored matches Err(error) ==> validity(*schedule) == Err::<(), ScheduleErrorView>(
                error@,
            ),
    {
        match Schedule::validate(schedule) {
            Ok(()) => {
                let path = Schedule::by_name(&id, schedule_directory);
                Ok((id, path))
            },
            Err(error) => Err(error),
        }
    }

    /// What to remove to delete the schedule with the id: the id and its file.
    pub fn delete(id: String, schedule_directory: &String) -> (removed: (String, String))
        ensures
            removed.0@ == id@,
            removed.1@ == file_path(schedule_directory@, id@),
    {
        let path = Schedule::by_name(&id, schedule_directory);
        (id, path)
    }

    /// Parses one step as the first step of a schedule.
    pub fn parse(input: &String) -> (segment: Result<NormalizedStep, ScheduleError>)
        ensures
            match step_result(input@, None) {
                Ok(step) => segment == Ok::<NormalizedStep, ScheduleError>(step),
                Err(reason) => segment matches Err(ScheduleError::InvalidStep { description })
                    && description@ == reason,
            },
    {
        parse_step(input.as_str(), None)
    }
}

} // verus!
