use caminatus::sensor::mcp960x::{
    cold_junction, hot_junction, read_request, to_celsius, ReadRequest, COLD_JUNCTION_TEMPERATURE,
    FIRST_BIT_SIGN, HOT_JUNCTION_TEMPERATURE, TOP_HALF_SIGN,
};
use caminatus::sensor::{Simulated, Thermocouple, ThermocoupleError, SPI};

fn to_float(register: [u8; 2], sign_mask: u8) -> f64 {
    to_celsius(register, sign_mask) as f64 / 1_000_000.0
}

fn test_hot_to_float(upper: u8, lower: u8, expected_output: f64) {
    let input: [u8; 2] = [upper, lower];
    let output: f64 = to_float(input, FIRST_BIT_SIGN);

    assert_eq!(output, expected_output);
}

fn test_cold_to_float(upper: u8, lower: u8, expected_output: f64) {
    let input: [u8; 2] = [upper, lower];
    let output: f64 = to_float(input, TOP_HALF_SIGN);

    assert_eq!(output, expected_output);
}

#[test]
fn mcp960x_works() {
    // Sanity check
    assert_eq!(to_float([0u8; 2], FIRST_BIT_SIGN), 0.0);
}

#[test]
fn mcp960x_can_get_the_correct_sign() {
    let input: [u8; 2] = [0b0111_1111, 0b0000_0000];
    let output: f64 = to_float(input, FIRST_BIT_SIGN);

    assert!(output > 0.0, "result was less than zero");

    let input: [u8; 2] = [0b1111_1111, 0b0000_0000];
    let output: f64 = to_float(input, FIRST_BIT_SIGN);

    assert!(output < 0.0, "result was greater than zero");
}

#[test]
fn mcp960x_can_convert_hot_temperatures_correctly() {
    // Test every individual bit, to start.
    test_hot_to_float(0b0000_0000, 0b0000_0000, 0.0);
    test_hot_to_float(0b0000_0000, 0b0000_0001, 0.0625);
    test_hot_to_float(0b0000_0000, 0b0000_0010, 0.125);
    test_hot_to_float(0b0000_0000, 0b0000_0100, 0.25);
    test_hot_to_float(0b0000_0000, 0b0000_1000, 0.5);
    test_hot_to_float(0b0000_0000, 0b0001_0000, 1.0);
    test_hot_to_float(0b0000_0000, 0b0010_0000, 2.0);
    test_hot_to_float(0b0000_0000, 0b0100_0000, 4.0);
    test_hot_to_float(0b0000_0000, 0b1000_0000, 8.0);

    test_hot_to_float(0b0000_0001, 0b0000_0000, 16.0);
    test_hot_to_float(0b0000_0010, 0b0000_0000, 32.0);
    test_hot_to_float(0b0000_0100, 0b0000_0000, 64.0);
    test_hot_to_float(0b0000_1000, 0b0000_0000, 128.0);
    test_hot_to_float(0b0001_0000, 0b0000_0000, 256.0);
    test_hot_to_float(0b0010_0000, 0b0000_0000, 512.0);
    test_hot_to_float(0b0100_0000, 0b0000_0000, 1024.0);
    test_hot_to_float(0b1100_0000, 0b0000_0000, -1024.0);

    // -0, actually. not sure if this is a valid output
    test_hot_to_float(0b1000_0000, 0b0000_0000, 0.0);
}

#[test]
fn mcp960x_can_convert_cold_temperatures_correctly() {
    test_cold_to_float(0b0000_0000, 0b0000_0000, 0.0);
    test_cold_to_float(0b0000_0000, 0b0000_0001, 0.0625);
    test_cold_to_float(0b0000_0000, 0b0000_0010, 0.125);
    test_cold_to_float(0b0000_0000, 0b0000_0100, 0.25);
    test_cold_to_float(0b0000_0000, 0b0000_1000, 0.5);
    test_cold_to_float(0b0000_0000, 0b0001_0000, 1.0);
    test_cold_to_float(0b0000_0000, 0b0010_0000, 2.0);
    test_cold_to_float(0b0000_0000, 0b0100_0000, 4.0);
    test_cold_to_float(0b0000_0000, 0b1000_0000, 8.0);

    test_cold_to_float(0b0000_0001, 0b0000_0000, 16.0);
    test_cold_to_float(0b0000_0010, 0b0000_0000, 32.0);
    test_cold_to_float(0b0000_0100, 0b0000_0000, 64.0);
    test_cold_to_float(0b0000_1000, 0b0000_0000, 128.0);

    // -0, actually. not sure if this is a valid output
    test_cold_to_float(0b0001_0000, 0b0000_0000, 0.0);
    test_cold_to_float(0b0010_0000, 0b0000_0000, 0.0);
    test_cold_to_float(0b0100_0000, 0b0000_0000, 0.0);
    test_cold_to_float(0b1000_0000, 0b0000_0000, 0.0);
}

#[test]
fn decodes_the_registers_of_both_junctions() {
    assert_eq!(hot_junction([0x40, 0x00]), 1_024_000_000);
    assert_eq!(hot_junction([0xC0, 0x00]), -1_024_000_000);
    assert_eq!(hot_junction([0x00, 0x01]), 62_500);
    assert_eq!(cold_junction([0x08, 0x00]), 128_000_000);
    assert_eq!(hot_junction([0x01, 0x94]), 25_250_000);
    assert_eq!(hot_junction([0x81, 0x94]), -25_250_000);
    assert_eq!(cold_junction([0xF1, 0x94]), -25_250_000);
    assert_eq!(hot_junction([0x7F, 0xFF]), 2_047_937_500);
    assert_eq!(hot_junction([0xFF, 0xFF]), -2_047_937_500);
    assert_eq!(cold_junction([0x7F, 0xFF]), 255_937_500);
    assert_eq!(to_celsius([0xFF, 0xFF], 0xFF), -4_095_937_500);
}

#[test]
fn says_what_to_send_for_a_register() {
    assert_eq!(
        read_request(0x60, HOT_JUNCTION_TEMPERATURE),
        ReadRequest { write_command: 0xC0, read_command: 0xC1, register: 0x00 }
    );
    assert_eq!(
        read_request(0x67, COLD_JUNCTION_TEMPERATURE),
        ReadRequest { write_command: 0xCE, read_command: 0xCF, register: 0x02 }
    );
    assert_eq!(
        read_request(0x1E0, COLD_JUNCTION_TEMPERATURE),
        ReadRequest { write_command: 0xC0, read_command: 0xC1, register: 0x02 }
    );
}

#[test]
fn simulates_a_thermocouple() {
    let mut simulated: Simulated = SPI::new(11, 8, 9);
    assert_eq!(simulated.read(), 0);
    assert_eq!(simulated.read_internal(), 0);
    assert_eq!(simulated.read_error(), ThermocoupleError::Unknown);
    simulated.next_hotend = 1_000_500_000;
    simulated.next_internal = 21_000_000;
    simulated.next_error = ThermocoupleError::I2CError { description: "nack".to_string() };
    assert_eq!(simulated.read(), 1_000_500_000);
    assert_eq!(simulated.read_internal(), 21_000_000);
    assert_eq!(
        simulated.read_error(),
        ThermocoupleError::I2CError { description: "nack".to_string() }
    );
}
