//! The MCP960X thermocouple converter: which registers hold the
//! temperatures, what to send to read one, and what its two bytes mean.
//!
//! A temperature register holds two bytes, the upper first. The top bit
//! of the upper byte is the sign. Of the rest of the upper byte each unit
//! is 16 degrees, and each unit of the lower byte is a sixteenth of a
//! degree:
//!
//! ```text
//!         | bit 7 | bit 6 | bit 5 | bit 4 | bit 3 | bit 2 |  bit 1 |   bit 0 |
//! | upper |  SIGN | 1024C |  512C |  256C |  128C |   64C |    32C |     16C |
//! | lower |    8C |    4C |    2C |    1C |  0.5C | 0.25C | 0.125C | 0.0625C |
//! ```
//!
//! The cold junction's register repeats the sign in the upper four bits of
//! the upper byte.

use vstd::prelude::*;

verus! {

/// The register of the hot junction's temperature.
pub const HOT_JUNCTION_TEMPERATURE: u8 = 0x00;

/// The register of the cold junction's temperature.
pub const COLD_JUNCTION_TEMPERATURE: u8 = 0x02;

/// The bits of the upper byte that count for the hot junction: all but the sign.
pub const FIRST_BIT_SIGN: u8 = 0x7F;

/// The bits of the upper byte that count for the cold junction: the lower four.
pub const TOP_HALF_SIGN: u8 = 0x0F;

/// What the bytes of a register mean, in millionths of a degree Celsius:
/// the sign times `(upper & sign_mask) * 16 + lower / 16` degrees.
pub open spec fn register_value(upper: u8, lower: u8, sign_mask: u8) -> int {
    let size = (upper & sign_mask) * 16 * 1_000_000 + lower * 62_500;
    if upper & 0x80 == 0 {
        size
    } else {
        -size
    }
}

/// Converts the two bytes of a temperature register to millionths of a
/// degree Celsius.
pub fn to_celsius(register: [u8; 2], sign_mask: u8) -> (temperature: i64)
    ensures
        temperature == register_value(register[0], register[1], sign_mask),
        -4_095_937_500 <= temperature <= 4_095_937_500,
{
    let upper = register[0];
    let lower = register[1];
    let masked = upper & sign_mask;
    let size: i64 = masked as i64 * 16 * 1_000_000 + lower as i64 * 62_500;
    if upper & 0x80 == 0 {
        size
    } else {
        -size
    }
}

/// The hot junction's temperature from its register.
pub fn hot_junction(register: [u8; 2]) -> (temperature: i64)
    ensures
        temperature == register_value(register[0], register[1], FIRST_BIT_SIGN),
{
    to_celsius(register, FIRST_BIT_SIGN)
}

/// The cold junction's temperature from its register.
pub fn cold_junction(register: [u8; 2]) -> (temperature: i64)
    ensures
        temperature == register_value(register[0], register[1], TOP_HALF_SIGN),
{
    to_celsius(register, TOP_HALF_SIGN)
}

/// The byte that opens a write to the converter at `address`: the
/// address's lower seven bits, moved up by one.
pub open spec fn write_byte(address: u16) -> u8 {
    ((address % 128) * 2) as u8
}

/// What reading a register takes: the command bytes for the converter at an
/// address, and the register to read.
#[derive(Clone, Copy, Debug, PartialEq, Eq, Structural)]
pub struct ReadRequest {
    pub write_command: u8,
    pub read_command: u8,
    pub register: u8,
}

/// What to send to the converter at `address` to read `junction`.
pub fn read_request(address: u16, junction: u8) -> (request: ReadRequest)
    ensures
        request == (ReadRequest {
            write_command: write_byte(address),
            read_command: (write_byte(address) + 1) as u8,
            register: junction,
        }),
{
    let write_command: u8 = ((address % 128) * 2) as u8;
    ReadRequest { write_command, read_command: write_command + 1, register: junction }
}

} // verus!
