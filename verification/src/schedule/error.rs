//! What can be wrong with a schedule.

use vstd::prelude::*;
use vstd::string::StringExecFns;

verus! {

/// Why a schedule, one of its steps, or its stored form was refused.
#[derive(Clone, Debug, PartialEq, Eq)]
pub enum ScheduleError {
    /// A step does not follow the step language, or does not fit the time axis.
    InvalidStep { description: String },
    /// The stored schedule could not be read or written.
    IOError { description: String },
    /// The stored schedule is not the YAML of a schedule.
    InvalidYaml { location: String },
    /// The stored schedule is not the JSON of a schedule.
    InvalidJson {  },
    /// The name does not give a legal file name.
    InvalidName(String),
}

/// A schedule error as mathematics: its kind, and its text as a sequence
/// of characters.
pub enum ScheduleErrorView {
    InvalidStep { description: Seq<char> },
    IOError { description: Seq<char> },
    InvalidYaml { location: Seq<char> },
    InvalidJson,
    InvalidName(Seq<char>),
}

impl View for ScheduleError {
    type V = ScheduleErrorView;

    open spec fn view(&self) -> ScheduleErrorView {
        match *self {
            ScheduleError::InvalidStep { description } => ScheduleErrorView::InvalidStep {
                description: description@,
            },
            ScheduleError::IOError { description } => ScheduleErrorView::IOError {
                description: description@,
            },
            ScheduleError::InvalidYaml { location } => ScheduleErrorView::InvalidYaml {
                location: location@,
            },
            ScheduleError::InvalidJson {  } => ScheduleErrorView::InvalidJson,
            ScheduleError::InvalidName(name) => ScheduleErrorView::InvalidName(name@),
        }
    }
}

impl ScheduleErrorView {
    /// The error as a sentence for a person.
    pub open spec fn message(self) -> Seq<char> {
        match self {
            ScheduleErrorView::InvalidStep { description } => "invalid step: "@ + description,
            ScheduleErrorView::IOError { description } => "error reading "@ + description,
            ScheduleErrorView::InvalidYaml { location } => "error reading yaml: "@ + location,
            ScheduleErrorView::InvalidJson => "error reading json"@,
            ScheduleErrorView::InvalidName(name) => "invalid schedule name ["@ + name + "]"@,
        }
    }
}

impl ScheduleError {
    /// The error as a sentence for a person.
    pub fn message(&self) -> (text: String)
        ensures
            text@ == self@.message(),
    {
        match self {
            ScheduleError::InvalidStep { description } => String::from_str("invalid step: ").concat(
                description.as_str(),
            ),
            ScheduleError::IOError { description } => String::from_str("error reading ").concat(
                description.as_str(),
            ),
            ScheduleError::InvalidYaml { location } => String::from_str(
                "error reading yaml: ",
            ).concat(location.as_str()),
            ScheduleError::InvalidJson {  } => String::from_str("error reading json"),
            ScheduleError::InvalidName(name) => String::from_str("invalid schedule name [").concat(
                name.as_str(),
            ).concat("]"),
        }
    }
}

} // verus!
