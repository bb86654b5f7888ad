//! What a thermocouple offers, and one that only pretends.

use vstd::prelude::*;

verus! {

/// Why a thermocouple could not be read.
#[derive(Clone, Debug, PartialEq, Eq)]
pub enum ThermocoupleError {
    UnsupportedPlatform { message: String },
    OpenCircuit,
    ShortCircuit,
    Unknown,
    /// The bus failed; `description` says how.
    I2CError { description: String },
}

/// A source of temperatures, in millionths of a degree Celsius.
pub trait Thermocouple {
    /// The temperature of the cold junction, inside the converter.
    fn read_internal(&self) -> i64;

    /// The temperature of the hot junction, in the kiln.
    fn read(&self) -> i64;

    /// What went wrong last.
    fn read_error(&self) -> ThermocoupleError;
}

/// A thermocouple on the I2C bus.
pub trait I2C: Sized {
    fn new(address: u16) -> Self;
}

/// A thermocouple on the SPI bus.
pub trait SPI: Sized {
    fn new(clock_pin: u8, chip_select_pin: u8, master_in_slave_out_pin: u8) -> Self;
}

/// A thermocouple that answers with what it was told to answer.
#[derive(Clone, Debug, PartialEq, Eq)]
pub struct Simulated {
    pub next_error: ThermocoupleError,
    pub next_internal: i64,
    pub next_hotend: i64,
}

impl SPI for Simulated {
    fn new(clock_pin: u8, chip_select_pin: u8, master_in_slave_out_pin: u8) -> (simulated: Self)
        ensures
            simulated.next_internal == 0,
            simulated.next_hotend == 0,
            simulated.next_error == ThermocoupleError::Unknown,
    {
        Simulated { next_internal: 0, next_hotend: 0, next_error: ThermocoupleError::Unknown }
    }
}

impl Thermocouple for Simulated {
    fn read_internal(&self) -> (temperature: i64)
        ensures
            temperature == self.next_internal,
    {
        self.next_internal
    }

    fn read(&self) -> (temperature: i64)
        ensures
            temperature == self.next_hotend,
    {
        self.next_hotend
    }

    fn read_error(&self) -> (error: ThermocoupleError)
        ensures
            error == self.next_error,
    {
        match &self.next_error {
            ThermocoupleError::UnsupportedPlatform { message } => {
                ThermocoupleError::UnsupportedPlatform { message: message.clone() }
            },
            ThermocoupleError::OpenCircuit => ThermocoupleError::OpenCircuit,
            ThermocoupleError::ShortCircuit => ThermocoupleError::ShortCircuit,
            ThermocoupleError::Unknown => ThermocoupleError::Unknown,
            ThermocoupleError::I2CError { description } => ThermocoupleError::I2CError {
                description: description.clone(),
            },
        }
    }
}

} // verus!
