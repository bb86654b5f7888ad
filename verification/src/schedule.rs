//! Firing schedules: the authored form, its step language, and the
//! piecewise-linear curve it normalizes to.

pub mod authored;
pub mod error;
pub mod lexer;
pub mod name;
pub mod normalized;
pub mod parser;
pub mod step;
pub mod text;
pub mod units;

pub use authored::Schedule;
pub use error::{ScheduleError, ScheduleErrorView};
pub use normalized::{NormalizedSchedule, NormalizedStep};
pub use parser::parse_step;
pub use step::{Step, StepType};
pub use units::{Duration, Rate, TemperatureScale, TimeUnit};
