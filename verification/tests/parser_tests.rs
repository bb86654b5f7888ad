use caminatus::schedule::parser::{parse_step, step_type};
use caminatus::schedule::{
    NormalizedStep, Schedule, ScheduleError, StepType, TemperatureScale,
};

fn degrees(value: f64) -> i64 {
    (value * 1_000_000.0).round() as i64
}

fn celsius(value: i64) -> f64 {
    value as f64 / 1_000_000.0
}

#[test]
fn should_parse_holds() -> Result<(), ScheduleError> {
    let input = "hold for 30 minutes";
    let output = parse_step(input, None)?;
    assert_eq!(
        output,
        NormalizedStep {
            start_time: 0,
            end_time: 30 * 60,
            start_temperature: degrees(0.0),
            end_temperature: degrees(0.0),
        },
        "input: [{}] failed",
        input
    );

    let input = "Hold for 1 hour.";
    let output = parse_step(input, None)?;
    assert_eq!(
        output,
        NormalizedStep {
            start_time: 0,
            end_time: 60 * 60,
            start_temperature: degrees(0.0),
            end_temperature: degrees(0.0),
        },
        "input: [{}] failed",
        input
    );

    let input = "hold for 10 seconds";
    let output = parse_step(input, None)?;
    assert_eq!(
        output,
        NormalizedStep {
            start_time: 0,
            end_time: 10,
            start_temperature: degrees(0.0),
            end_temperature: degrees(0.0),
        },
        "input: [{}] failed",
        input
    );

    Ok(())
}

#[test]
fn should_parse_durations() -> Result<(), ScheduleError> {
    let input = "ambient to 200 over 2 hours";
    let output = parse_step(input, None)?;
    assert_eq!(
        output,
        NormalizedStep {
            start_temperature: degrees(25.0),
            end_temperature: degrees(200.0),
            start_time: 0,
            end_time: 7200
        }
    );

    let input = "100 to 300 over 30 minutes";
    let output = parse_step(input, None)?;
    assert_eq!(
        output,
        NormalizedStep {
            start_temperature: degrees(100.0),
            end_temperature: degrees(300.0),
            start_time: 0,
            end_time: 30 * 60
        }
    );

    let input = "200 to 700 over 8 hours";
    let output = parse_step(input, None)?;
    assert_eq!(celsius(output.start_temperature), 200.0);
    assert_eq!(celsius(output.end_temperature), 700.0);

    Ok(())
}

#[test]
fn should_parse_rates() -> Result<(), ScheduleError> {
    let input = "100 to 120 by 20 per hour";
    let output = parse_step(input, None)?;

    assert_eq!(
        output,
        NormalizedStep {
            start_temperature: degrees(100.0),
            end_temperature: degrees(120.0),
            start_time: 0,
            end_time: 60 * 60,
        },
        "input: [{}] failed",
        input
    );

    Ok(())
}

#[test]
fn should_parse_string_to_duration() -> Result<(), ScheduleError> {
    let input = "ambient to 200 over 2 hours";
    let output = parse_step(input, None)?;
    assert_eq!(
        output,
        NormalizedStep {
            start_temperature: degrees(25.0),
            end_temperature: degrees(200.0),
            start_time: 0,
            end_time: 7200
        }
    );

    let input = "100 to 300 by 100 degrees per hour";
    let output = parse_step(input, None)?;
    assert_eq!(
        output,
        NormalizedStep {
            start_temperature: degrees(100.0),
            end_temperature: degrees(300.0),
            start_time: 0,
            end_time: 7200
        }
    );

    let input = "200 to 700 over 8 hours";
    let output = parse_step(input, None)?;
    assert_eq!(celsius(output.start_temperature), 200.0);
    assert_eq!(celsius(output.end_temperature), 700.0);

    Ok(())
}

#[test]
fn should_recognize_ambient() -> Result<(), ScheduleError> {
    let input = "ambient to 200 over 2 hours";
    let output = parse_step(input, None)?;
    assert_eq!(celsius(output.start_temperature), 25.0);
    assert_eq!(celsius(output.end_temperature), 200.0);

    let input = "Ambient to 100 by 20 degrees per hour.";
    let output = parse_step(input, None)?;
    assert_eq!(celsius(output.start_temperature), 25.0);
    assert_eq!(celsius(output.end_temperature), 100.0);

    Ok(())
}

#[test]
fn parser_should_get_target_temp() -> Result<(), ScheduleError> {
    let schedule = Schedule {
        name: "test 1".to_string(),
        description: None,
        scale: TemperatureScale::Celsius,
        steps: vec![
            "0 to 100 over 1 hour".to_string(),
            "100 to 200 over 1 hour".to_string(),
        ],
    };
    let normalized = schedule.normalize()?;

    let time = 0;
    let target = normalized.target_temperature(time);
    assert_eq!(celsius(target), 0.0);

    let time = 1800;
    let target = normalized.target_temperature(time);
    assert_eq!(celsius(target), 50.0);

    let time = 3600;
    let target = normalized.target_temperature(time);
    assert_eq!(celsius(target), 100.0);

    let time = 5400;
    let target = normalized.target_temperature(time);
    assert_eq!(celsius(target), 150.0);

    let time = 7200;
    let target = normalized.target_temperature(time);
    assert_eq!(celsius(target), 200.0);

    // Outside the schedule's range.
    let time = 3600 * 3;
    let target = normalized.target_temperature(time);
    assert_eq!(celsius(target), 0.0);

    Ok(())
}

#[test]
fn should_create_and_validate_schedule_names() -> Result<(), ScheduleError> {
    let name = Schedule::to_filename(&"name".to_string())?;
    assert_eq!(name, "name".to_string());

    let name = Schedule::to_filename(&"with spaces too".to_string())?;
    assert_eq!(name, "with_spaces_too".to_string());

    Ok(())
}

#[test]
#[should_panic]
fn should_reject_bad_filenames() {
    let name = Schedule::to_filename(&"with@spaces@too".to_string()).unwrap();
    assert_eq!(name, "nope".to_string());

    let name = Schedule::to_filename(&"nul".to_string()).unwrap();
    assert_eq!(name, "not even".to_string());
}

#[test]
fn rejects_reserved_and_illegal_names() {
    assert_eq!(
        Schedule::to_filename(&"nul".to_string()),
        Err(ScheduleError::InvalidName("reserved names [nul]".to_string()))
    );
    assert_eq!(
        Schedule::to_filename(&"com1.yaml".to_string()),
        Err(ScheduleError::InvalidName("reserved names [com1.yaml]".to_string()))
    );
    assert_eq!(
        Schedule::to_filename(&"with@sign".to_string()),
        Err(ScheduleError::InvalidName("with@sign".to_string()))
    );
    assert_eq!(
        Schedule::to_filename(&"   ".to_string()),
        Err(ScheduleError::InvalidName("name is empty".to_string()))
    );
    assert_eq!(
        Schedule::to_filename(&"console".to_string()),
        Ok("console".to_string())
    );
}

#[test]
fn joins_the_words_of_a_name() {
    assert_eq!(
        Schedule::to_filename(&"  bisque \t cone   04\n".to_string()),
        Ok("bisque_cone_04".to_string())
    );
    assert_eq!(
        Schedule::to_filename(&"glaze-v1.2_final".to_string()),
        Ok("glaze-v1.2_final".to_string())
    );
}

#[test]
fn limits_the_length_of_a_name() {
    let longest = "a".repeat(256);
    assert_eq!(Schedule::to_filename(&longest), Ok(longest.clone()));
    let too_long = "a".repeat(257);
    assert_eq!(
        Schedule::to_filename(&too_long),
        Err(ScheduleError::InvalidName(format!("name too long [{}]", too_long)))
    );
}

#[test]
fn converts_scales_to_celsius() -> Result<(), ScheduleError> {
    let output = parse_step("32F to 273.15K over 1 hour", None)?;
    assert_eq!(celsius(output.start_temperature), 0.0);
    assert_eq!(celsius(output.end_temperature), 0.0);
    assert_eq!(output.end_time, 3600);

    let output = parse_step("212 F to 373.15 K over 90 seconds.", None)?;
    assert_eq!(celsius(output.start_temperature), 100.0);
    assert_eq!(celsius(output.end_temperature), 100.0);
    assert_eq!(output.end_time, 90);

    let output = parse_step("0F to 100C over 1 minute", None)?;
    assert_eq!(output.start_temperature, -17_777_778);
    assert_eq!(output.end_temperature, 100_000_000);

    let output = parse_step("ambient F to 0K over 1 minute", None)?;
    assert_eq!(output.start_temperature, -3_888_889);
    assert_eq!(output.end_temperature, -273_150_000);
    Ok(())
}

#[test]
fn parses_decimal_numbers() -> Result<(), ScheduleError> {
    let output = parse_step("20.5 to 100.25 over 1.5 hours", None)?;
    assert_eq!(output.start_temperature, 20_500_000);
    assert_eq!(output.end_temperature, 100_250_000);
    assert_eq!(output.end_time, 5400);

    // digits after the sixth decimal place are dropped
    let output = parse_step("0.12345678 to 1 over 0.5 seconds", None)?;
    assert_eq!(output.start_temperature, 123_456);
    // half a second rounds up
    assert_eq!(output.end_time, 1);

    let output = parse_step("hold for 0.4 seconds", None)?;
    assert_eq!(output.end_time, 0);
    Ok(())
}

#[test]
fn follows_the_previous_step() -> Result<(), ScheduleError> {
    let previous = NormalizedStep {
        start_time: 0,
        end_time: 7200,
        start_temperature: degrees(25.0),
        end_temperature: degrees(200.0),
    };
    let hold = parse_step("hold for 30 minutes", Some(previous))?;
    assert_eq!(
        hold,
        NormalizedStep {
            start_time: 7200,
            end_time: 9000,
            start_temperature: degrees(200.0),
            end_temperature: degrees(200.0),
        }
    );
    let rate = parse_step("200 to 100 by 50 degrees per hour", Some(hold))?;
    assert_eq!(
        rate,
        NormalizedStep {
            start_time: 9000,
            end_time: 9000 + 7200,
            start_temperature: degrees(200.0),
            end_temperature: degrees(100.0),
        }
    );
    Ok(())
}

#[test]
fn is_flexible_about_blanks_and_case() -> Result<(), ScheduleError> {
    let expected = NormalizedStep {
        start_time: 0,
        end_time: 3600,
        start_temperature: degrees(100.0),
        end_temperature: degrees(120.0),
    };
    assert_eq!(parse_step("  100   TO\t120  By 20 DEGREES Per HOUR . ", None)?, expected);
    assert_eq!(parse_step("100 to 120 by 20 degrees hour", None)?, expected);
    assert_eq!(parse_step("100 to 120 by 20 hours", None)?, expected);
    assert_eq!(parse_step("100C to 120 C over 60 Minutes", None)?, expected);
    Ok(())
}

fn unrecognized(input: &str) -> Result<NormalizedStep, ScheduleError> {
    Err(ScheduleError::InvalidStep {
        description: format!("unrecognized step provided: {}", input),
    })
}

#[test]
fn rejects_what_is_no_step() {
    let inputs = [
        "",
        ".",
        "hold",
        "hold for 30",
        "hold for minutes",
        "hold for 30 minutes..",
        "hold for 30 fortnights",
        "hold 30 minutes",
        "-5 to 100 over 1 hour",
        "five to 100 over 1 hour",
        "100 to 200",
        "100 to 200 over",
        "100 to 200 over 1",
        "100 to 200 over 1 hour 2",
        "100 to 200 by per hour",
        "100 to 200 by 20 per degrees hour",
        "100 200 over 1 hour",
        "100c to 200 over 1 hour",
        "100X to 200 over 1 hour",
        "100 to 200 over 1 hour!",
        "1. to 2 over 1 hour",
        ".5 to 2 over 1 hour",
        "99999999999999 to 2 over 1 hour",
    ];
    for input in inputs {
        assert_eq!(parse_step(input, None), unrecognized(input), "input: [{}]", input);
        assert_eq!(step_type(input), StepType::Unknown, "input: [{}]", input);
    }
}

#[test]
fn accepts_the_largest_number() -> Result<(), ScheduleError> {
    let output = parse_step("9223372036854.775807 to 0 over 1 second", None)?;
    assert_eq!(output.start_temperature, i64::MAX);
    assert_eq!(
        parse_step("9223372036854.775808 to 0 over 1 second", None),
        unrecognized("9223372036854.775808 to 0 over 1 second")
    );
    Ok(())
}

fn too_long() -> Result<NormalizedStep, ScheduleError> {
    Err(ScheduleError::InvalidStep { description: "step takes too long".to_string() })
}

#[test]
fn rejects_steps_that_do_not_fit_the_time_axis() {
    assert_eq!(parse_step("hold for 4294967295 seconds", None).map(|s| s.end_time), Ok(u32::MAX));
    assert_eq!(parse_step("hold for 4294967296 seconds", None), too_long());
    assert_eq!(parse_step("0 to 100 over 1200000 hours", None), too_long());
    assert_eq!(parse_step("0 to 100 by 0 degrees per hour", None), too_long());
    assert_eq!(parse_step("100 to 100 by 0 per hour", None), too_long());
    let previous = NormalizedStep {
        start_time: 0,
        end_time: u32::MAX - 59,
        start_temperature: 0,
        end_temperature: 0,
    };
    assert_eq!(parse_step("hold for 59 seconds", Some(previous)).map(|s| s.end_time), Ok(u32::MAX));
    assert_eq!(parse_step("hold for 1 minute", Some(previous)), too_long());
}

#[test]
fn tells_the_shapes_of_steps_apart() {
    assert_eq!(step_type("hold for 1 hour"), StepType::Hold);
    assert_eq!(step_type("ambient to 200 over 2 hours"), StepType::Duration);
    assert_eq!(step_type("100 to 120 by 20 per hour."), StepType::Rate);
    assert_eq!(step_type("fire it up"), StepType::Unknown);
}

#[test]
fn parses_a_single_step() {
    assert_eq!(
        Schedule::parse(&"100 to 120 by 20 per hour".to_string()),
        Ok(NormalizedStep {
            start_time: 0,
            end_time: 3600,
            start_temperature: degrees(100.0),
            end_temperature: degrees(120.0),
        })
    );
    assert!(Schedule::parse(&"nonsense".to_string()).is_err());
}
