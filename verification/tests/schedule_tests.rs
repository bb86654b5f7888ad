use caminatus::schedule::units::{
    duration_to_seconds, fahrenheit_to_celcius, kelvin_to_celcius, rate_to_seconds,
};
use caminatus::schedule::{
    Duration, NormalizedSchedule, NormalizedStep, Rate, Schedule, ScheduleError, Step,
    TemperatureScale, TimeUnit,
};

fn degrees(value: f64) -> i64 {
    (value * 1_000_000.0).round() as i64
}

fn celsius(value: i64) -> f64 {
    value as f64 / 1_000_000.0
}

fn millionths(value: u64) -> u64 {
    value * 1_000_000
}

fn schedule(name: &str, steps: &[&str]) -> Schedule {
    Schedule {
        name: name.to_string(),
        description: None,
        scale: TemperatureScale::Celsius,
        steps: steps.iter().map(|s| s.to_string()).collect(),
    }
}

#[test]
fn should_convert_rate_to_seconds() {
    let rate = Rate {
        value: millionths(100),
        unit: TimeUnit::Hours,
    };

    let step = Step::Duration {
        start_temperature: degrees(0.0),
        end_temperature: degrees(1000.0),
        length: Duration { value: 0, unit: TimeUnit::Seconds },
    };

    let seconds = Step::rate_to_seconds(&step, &rate);

    assert_eq!(seconds, Some(36_000));
}

#[test]
fn should_convert_duration_to_seconds() {
    let duration = Duration {
        value: millionths(10),
        unit: TimeUnit::Hours,
    };

    let seconds = Step::duration_to_seconds(&duration);
    assert_eq!(seconds, Some(36_000));

    let duration = Duration {
        value: millionths(60),
        unit: TimeUnit::Minutes,
    };

    let seconds = Step::duration_to_seconds(&duration);
    assert_eq!(seconds, Some(3_600));

    let duration = Duration {
        value: millionths(10),
        unit: TimeUnit::Seconds,
    };

    let seconds = Step::duration_to_seconds(&duration);
    assert_eq!(seconds, Some(10));
}

#[test]
fn schedule_should_get_target_temp() {
    let first = Step::Duration {
        start_temperature: degrees(0.0),
        end_temperature: degrees(100.0),
        length: Duration { value: millionths(1), unit: TimeUnit::Hours },
    }
    .normalize(None)
    .unwrap();
    let second = Step::Duration {
        start_temperature: degrees(100.0),
        end_temperature: degrees(200.0),
        length: Duration { value: millionths(1), unit: TimeUnit::Hours },
    }
    .normalize(Some(first))
    .unwrap();
    let normalized = NormalizedSchedule {
        name: "test 1".to_string(),
        description: None,
        scale: TemperatureScale::Celsius,
        steps: vec![first, second],
    };

    println!("{:?}", normalized);

    let time = 0;
    let target = normalized.target_temperature(time);
    assert_eq!(celsius(target), 0.0);

    let time = 1800;
    let target = normalized.target_temperature(time);
    assert_eq!(celsius(target), 50.0);

    let time = 3600;
    let target = normalized.target_temperature(time);
    assert_eq!(celsius(target), 100.0);

    let time = 5400;
    let target = normalized.target_temperature(time);
    assert_eq!(celsius(target), 150.0);

    let time = 7200;
    let target = normalized.target_temperature(time);
    assert_eq!(celsius(target), 200.0);

    // Outside the schedule's range.
    let time = 3600 * 3;
    let target = normalized.target_temperature(time);
    assert_eq!(celsius(target), 0.0);
}

#[test]
fn normalizes_ambient_and_hold() {
    let normalized = schedule("bisque", &["ambient to 200 over 2 hours", "hold for 30 minutes"])
        .normalize()
        .unwrap();
    assert_eq!(
        normalized.steps,
        vec![
            NormalizedStep {
                start_time: 0,
                end_time: 7200,
                start_temperature: degrees(25.0),
                end_temperature: degrees(200.0),
            },
            NormalizedStep {
                start_time: 7200,
                end_time: 9000,
                start_temperature: degrees(200.0),
                end_temperature: degrees(200.0),
            },
        ]
    );
    assert_eq!(celsius(normalized.target_temperature(7200)), 200.0);
    assert_eq!(celsius(normalized.target_temperature(8100)), 200.0);
    assert_eq!(normalized.total_duration(), 9000);
    assert_eq!(normalized.name, "bisque");
    assert_eq!(normalized.scale, TemperatureScale::Celsius);
}

#[test]
fn total_duration_is_the_sum_of_the_steps() {
    let steps = [
        "ambient to 200 over 2 hours",
        "200 to 500 by 100 degrees per hour",
        "hold for 30 minutes",
        "500 to 100 by 200 per hour.",
        "hold for 45 seconds",
    ];
    let mut sum = 0;
    for step in steps {
        sum += Schedule::parse(&step.to_string()).unwrap().end_time;
    }
    assert_eq!(sum, 7200 + 10800 + 1800 + 7200 + 45);
    let normalized = schedule("glaze", &steps).normalize().unwrap();
    assert_eq!(normalized.total_duration(), sum);
    for pair in normalized.steps.windows(2) {
        assert_eq!(pair[0].end_time, pair[1].start_time);
    }
    assert_eq!(normalized.steps[0].start_time, 0);
}

#[test]
fn target_is_continuous_at_the_joints() {
    let normalized = schedule(
        "glaze",
        &["ambient to 200 over 2 hours", "hold for 30 minutes", "200 to 1000 over 7 hours"],
    )
    .normalize()
    .unwrap();
    for pair in normalized.steps.windows(2) {
        let joint = pair[0].end_time;
        assert_eq!(normalized.target_temperature(joint), pair[0].end_temperature);
        assert_eq!(normalized.target_temperature(joint), pair[1].start_temperature);
    }
    // one second to either side of a joint the target has moved by less than a degree
    let before = normalized.target_temperature(7199);
    let after = normalized.target_temperature(9001);
    assert!((degrees(200.0) - before).abs() < degrees(1.0));
    assert!((after - degrees(200.0)).abs() < degrees(1.0));
}

#[test]
fn target_is_zero_after_the_end() {
    let normalized = schedule("short", &["0 to 100 over 10 seconds", "hold for 5 seconds"])
        .normalize()
        .unwrap();
    assert_eq!(normalized.target_temperature(15), degrees(100.0));
    assert_eq!(normalized.target_temperature(16), 0);
    assert_eq!(normalized.target_temperature(u32::MAX), 0);
}

#[test]
fn target_rounds_to_the_nearest_millionth() {
    let normalized = schedule("thirds", &["0 to 1 over 3 seconds", "1 to 0 over 3 seconds"])
        .normalize()
        .unwrap();
    assert_eq!(normalized.target_temperature(1), 333_333);
    assert_eq!(normalized.target_temperature(2), 666_667);
    assert_eq!(normalized.target_temperature(4), 666_667);
    assert_eq!(normalized.target_temperature(5), 333_333);
}

#[test]
fn target_prefers_the_earliest_step() {
    let normalized = NormalizedSchedule {
        name: "steps".to_string(),
        description: None,
        scale: TemperatureScale::Celsius,
        steps: vec![
            NormalizedStep { start_time: 0, end_time: 0, start_temperature: 7, end_temperature: 9 },
            NormalizedStep { start_time: 0, end_time: 10, start_temperature: 100, end_temperature: 200 },
            NormalizedStep { start_time: 10, end_time: 10, start_temperature: 5, end_temperature: 6 },
            NormalizedStep { start_time: 10, end_time: 20, start_temperature: 300, end_temperature: 400 },
        ],
    };
    // a step without length has slope zero
    assert_eq!(normalized.target_temperature(0), 7);
    assert_eq!(normalized.target_temperature(5), 150);
    assert_eq!(normalized.target_temperature(10), 200);
    assert_eq!(normalized.target_temperature(15), 350);
}

#[test]
fn target_of_an_empty_schedule_is_zero() {
    let normalized = NormalizedSchedule {
        name: "empty".to_string(),
        description: None,
        scale: TemperatureScale::Kelvin,
        steps: vec![],
    };
    assert_eq!(normalized.total_duration(), 0);
    assert_eq!(normalized.target_temperature(0), 0);
    assert_eq!(normalized.target_temperature(1), 0);
}

#[test]
fn validates_schedules() {
    assert_eq!(
        Schedule::validate(&schedule("valid one", &["0 to 100 over 1 hour", "hold for 1 hour"])),
        Ok(())
    );
}

#[test]
fn refuses_a_schedule_with_too_few_steps() {
    let expected = Err(ScheduleError::InvalidStep {
        description: "not enough steps in schedule. more than 2 required".to_string(),
    });
    assert_eq!(Schedule::validate(&schedule("one", &["0 to 100 over 1 hour"])), expected);
    assert_eq!(Schedule::validate(&schedule("none", &[])), expected);
    assert_eq!(Schedule::validate(&schedule("broken", &["nonsense"])), expected);
}

#[test]
fn refuses_a_schedule_with_invalid_steps() {
    let checked = Schedule::validate(&schedule(
        "bad steps",
        &["0 to 100 over 1 hour and a bit", "hold for 1 hour", "0 to 100 by 0 per hour"],
    ));
    assert_eq!(
        checked,
        Err(ScheduleError::InvalidStep {
            description:
                "unrecognized step provided: 0 to 100 over 1 hour and a bit\nstep takes too long"
                    .to_string(),
        })
    );
}

#[test]
fn refuses_a_schedule_with_an_invalid_name() {
    assert_eq!(
        Schedule::validate(&schedule("what?", &["nonsense"])),
        Err(ScheduleError::InvalidName("what?".to_string()))
    );
    assert_eq!(
        Schedule::validate(&schedule("nul", &["0 to 100 over 1 hour", "hold for 1 hour"])),
        Err(ScheduleError::InvalidName("reserved names [nul]".to_string()))
    );
}

#[test]
fn normalize_fails_on_the_first_bad_step() {
    let failed = schedule("bad", &["0 to 100 over 1 hour", "what", "also what"]).normalize();
    match failed {
        Err(ScheduleError::InvalidStep { description }) => {
            assert_eq!(description, "unrecognized step provided: what")
        }
        other => panic!("unexpected {:?}", other),
    }
    // each step fits by itself, together they do not
    let failed = schedule(
        "long",
        &["hold for 4294967295 seconds", "hold for 1 second"],
    );
    assert_eq!(Schedule::validate(&failed), Ok(()));
    match failed.normalize() {
        Err(ScheduleError::InvalidStep { description }) => {
            assert_eq!(description, "step takes too long")
        }
        other => panic!("unexpected {:?}", other),
    }
}

#[test]
fn normalizes_a_schedule_without_steps() {
    let normalized = schedule("nothing", &[]).normalize().unwrap();
    assert!(normalized.steps.is_empty());
}

#[test]
fn converts_between_scales() {
    assert_eq!(fahrenheit_to_celcius(degrees(32.0)), 0);
    assert_eq!(fahrenheit_to_celcius(degrees(212.0)), degrees(100.0));
    assert_eq!(fahrenheit_to_celcius(degrees(-40.0)), degrees(-40.0));
    assert_eq!(fahrenheit_to_celcius(degrees(100.0)), 37_777_778);
    assert_eq!(fahrenheit_to_celcius(i64::MAX), 5_124_095_576_012_653_226);
    assert_eq!(fahrenheit_to_celcius(i64::MIN), -5_124_095_576_048_208_782);
    assert_eq!(kelvin_to_celcius(degrees(273.15)), 0);
    assert_eq!(kelvin_to_celcius(0), degrees(-273.15));
    assert_eq!(TemperatureScale::Celsius.to_celsius(degrees(21.5)), degrees(21.5));
    assert_eq!(TemperatureScale::Fahrenheit.to_celsius(degrees(50.0)), degrees(10.0));
    assert_eq!(TemperatureScale::Kelvin.to_celsius(degrees(300.0)), degrees(26.85));
}

#[test]
fn rounds_seconds_to_the_nearest() {
    let hours = |value: u64| Duration { value, unit: TimeUnit::Hours };
    assert_eq!(duration_to_seconds(&hours(1_500_000)), Some(5400));
    // 0.000138 h = 0.4968 s, 0.000139 h = 0.5004 s
    assert_eq!(duration_to_seconds(&hours(138)), Some(0));
    assert_eq!(duration_to_seconds(&hours(139)), Some(1));
    assert_eq!(duration_to_seconds(&Duration { value: 500_000, unit: TimeUnit::Seconds }), Some(1));
    assert_eq!(duration_to_seconds(&Duration { value: 499_999, unit: TimeUnit::Seconds }), Some(0));
    assert_eq!(duration_to_seconds(&Duration { value: u64::MAX, unit: TimeUnit::Hours }), None);
    assert_eq!(
        duration_to_seconds(&Duration { value: millionths(4_294_967_295), unit: TimeUnit::Seconds }),
        Some(u32::MAX)
    );
    assert_eq!(
        duration_to_seconds(&Duration { value: millionths(4_294_967_296), unit: TimeUnit::Seconds }),
        None
    );

    let per_minute = |value: u64| Rate { value, unit: TimeUnit::Minutes };
    assert_eq!(rate_to_seconds(0, degrees(10.0), &per_minute(millionths(3))), Some(200));
    assert_eq!(rate_to_seconds(degrees(10.0), 0, &per_minute(millionths(3))), Some(200));
    assert_eq!(rate_to_seconds(0, degrees(1.0), &per_minute(millionths(7))), Some(9));
    assert_eq!(rate_to_seconds(5, 5, &per_minute(1)), Some(0));
    assert_eq!(rate_to_seconds(0, degrees(1.0), &per_minute(0)), None);
    assert_eq!(rate_to_seconds(i64::MIN, i64::MAX, &per_minute(1)), None);
    assert_eq!(TimeUnit::Hours.seconds(), 3600);
    assert_eq!(TimeUnit::Minutes.seconds(), 60);
    assert_eq!(TimeUnit::Seconds.seconds(), 1);
}

#[test]
fn says_what_is_wrong() {
    assert_eq!(
        ScheduleError::InvalidStep { description: "x".to_string() }.message(),
        "invalid step: x"
    );
    assert_eq!(
        ScheduleError::IOError { description: "disk".to_string() }.message(),
        "error reading disk"
    );
    assert_eq!(
        ScheduleError::InvalidYaml { location: "line 3".to_string() }.message(),
        "error reading yaml: line 3"
    );
    assert_eq!(ScheduleError::InvalidJson {}.message(), "error reading json");
    assert_eq!(
        ScheduleError::InvalidName("a b".to_string()).message(),
        "invalid schedule name [a b]"
    );
}

#[test]
fn reads_units_and_scales_by_name() {
    assert_eq!(TimeUnit::from_str("hour"), Ok(TimeUnit::Hours));
    assert_eq!(TimeUnit::from_str("minute"), Ok(TimeUnit::Minutes));
    assert_eq!(TimeUnit::from_str("second"), Ok(TimeUnit::Seconds));
    assert_eq!(
        TimeUnit::from_str("hours"),
        Err(ScheduleError::InvalidStep { description: "unknown time unit provided".to_string() })
    );
    assert_eq!(TemperatureScale::from_str("C"), Ok(TemperatureScale::Celsius));
    assert_eq!(TemperatureScale::from_str("F"), Ok(TemperatureScale::Fahrenheit));
    assert_eq!(TemperatureScale::from_str("K"), Ok(TemperatureScale::Kelvin));
    assert_eq!(
        TemperatureScale::from_str("c"),
        Err(ScheduleError::InvalidStep {
            description: "unknown temperature scale provided".to_string()
        })
    );
}

#[test]
fn says_where_schedules_are_stored() {
    let directory = "./schedules".to_string();
    assert_eq!(
        Schedule::by_name(&"bisque".to_string(), &directory),
        "./schedules/bisque.yaml"
    );
    let valid = schedule("cone 04 bisque", &["0 to 100 over 1 hour", "hold for 1 hour"]);
    assert_eq!(
        Schedule::new(&valid, &directory),
        Ok(("cone_04_bisque".to_string(), "./schedules/cone_04_bisque.yaml".to_string()))
    );
    assert_eq!(
        Schedule::update("old".to_string(), &valid, &directory),
        Ok(("old".to_string(), "./schedules/old.yaml".to_string()))
    );
    assert_eq!(
        Schedule::delete("old".to_string(), &directory),
        ("old".to_string(), "./schedules/old.yaml".to_string())
    );
    let invalid = schedule("cone 04 bisque", &["0 to 100 over 1 hour"]);
    let not_enough = Err(ScheduleError::InvalidStep {
        description: "not enough steps in schedule. more than 2 required".to_string(),
    });
    assert_eq!(Schedule::new(&invalid, &directory), not_enough);
    assert_eq!(Schedule::update("old".to_string(), &invalid, &directory), not_enough);
    let unnamed = schedule("a/b", &["0 to 100 over 1 hour", "hold for 1 hour"]);
    assert_eq!(
        Schedule::new(&unnamed, &directory),
        Err(ScheduleError::InvalidName("a/b".to_string()))
    );
}

#[test]
fn validates_a_step_by_itself() {
    let hold = Step::Hold { length: Duration { value: millionths(30), unit: TimeUnit::Minutes } };
    assert_eq!(hold.validate(), Ok(()));
    assert_eq!(hold.kind(), caminatus::schedule::StepType::Hold);
    let never = Step::Rate {
        start_temperature: 0,
        end_temperature: degrees(100.0),
        rate: Rate { value: 0, unit: TimeUnit::Hours },
    };
    assert_eq!(
        never.validate(),
        Err(ScheduleError::InvalidStep { description: "step takes too long".to_string() })
    );
    assert_eq!(never.kind(), caminatus::schedule::StepType::Rate);
}
