//! Control logic of a networked kiln controller.
//!
//! - [`schedule`]: firing schedules, their step language, and the
//!   piecewise-linear curve of target temperature they normalize to.
//! - [`kiln`]: the bounded PID controller and the state machine of the
//!   control loop.
//! - [`server`]: the event hub with its channels and clients, and what the
//!   web surface answers.
//! - [`sensor`]: the register format of the thermocouple converter.
//! - [`config`]: the settings and their defaults.
//! - [`fixed`]: the fixed-point arithmetic under all of it.
//!
//! Temperatures, controller gains and duty cycles are fixed-point numbers
//! counted in millionths; times are whole seconds or milliseconds, as each
//! item says. The library reads no clock, file or device: whoever calls it
//! passes in what was read and carries out what is answered.

pub mod config;
pub mod fixed;
pub mod kiln;
pub mod schedule;
pub mod sensor;
pub mod server;
