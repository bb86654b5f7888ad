//! The thermocouple: the register format of the MCP960X converter, and a
//! simulated thermocouple for machines without one.

pub mod mcp960x;
pub mod thermocouple;

pub use thermocouple::{Simulated, Thermocouple, ThermocoupleError, I2C, SPI};
