use caminatus::config::KilnConfig;
use caminatus::kiln::{Action, Kiln, KilnError, KilnEvent, KilnState, KilnUpdate, RunState, PID};
use caminatus::schedule::{NormalizedSchedule, NormalizedStep, Schedule, TemperatureScale};
use caminatus::server::Command;

const ONE: i64 = 1_000_000;

fn degrees(value: f64) -> i64 {
    (value * 1_000_000.0).round() as i64
}

fn config(proportional: f64, integral: f64, derivative: f64) -> KilnConfig {
    KilnConfig {
        fuzzy_step_size: degrees(5.0),
        max_difference: degrees(10.0),
        proportional: degrees(proportional),
        integral: degrees(integral),
        derivative: degrees(derivative),
    }
}

fn schedule(steps: &[&str]) -> NormalizedSchedule {
    Schedule {
        name: "test".to_string(),
        description: None,
        scale: TemperatureScale::Celsius,
        steps: steps.iter().map(|s| s.to_string()).collect(),
    }
    .normalize()
    .unwrap()
}

fn kiln(interval: u32, settings: &KilnConfig) -> Kiln {
    Kiln::start(0x60, 4, interval, settings, 0).0
}

#[test]
fn pid_clamps_its_output() {
    let mut pid = PID::init(0, degrees(10.0), 0, 0);
    assert_eq!(pid.compute(degrees(100.0), degrees(0.0), 1), ONE);
    assert_eq!(pid.i_term(), 0);
    assert_eq!(pid.compute(degrees(0.0), degrees(100.0), 2), -ONE);
}

#[test]
fn pid_adds_its_three_terms() {
    // gains: integral 0.01, proportional 0.02, derivative 0.03
    let mut pid = PID::init(10_000, 20_000, 30_000, 100);
    // error 10 degrees for 2 seconds:
    // p = 0.02 * 10 = 0.2, i = 10 * 2 * 0.01 = 0.2, d = 0.03 * (10 - 0) / 2 = 0.15
    assert_eq!(pid.compute(degrees(110.0), degrees(100.0), 102), 550_000);
    assert_eq!(pid.i_term(), 200_000);
    // error 4 degrees for 3 seconds:
    // p = 0.08, i = 0.2 + 4 * 3 * 0.01 = 0.32, d = 0.03 * (4 - 10) / 3 = -0.06
    assert_eq!(pid.compute(degrees(110.0), degrees(106.0), 105), 340_000);
    assert_eq!(pid.i_term(), 320_000);
    // error -5 degrees for 1 second:
    // p = -0.1, i = 0.32 - 0.05 = 0.27, d = 0.03 * (-5 - 4) / 1 = -0.27
    assert_eq!(pid.compute(degrees(110.0), degrees(115.0), 106), -100_000);
    assert_eq!(pid.i_term(), 270_000);
}

#[test]
fn pid_counts_no_time_as_one_second() {
    let mut pid = PID::init(10_000, 0, 0, 50);
    assert_eq!(pid.compute(degrees(10.0), 0, 50), 100_000);
    // a clock that ran backwards counts as one second too
    assert_eq!(pid.compute(degrees(10.0), 0, 40), 200_000);
    assert_eq!(pid.compute(degrees(10.0), 0, 42), 400_000);
}

#[test]
fn pid_holds_its_integral_term_within_bounds() {
    let mut pid = PID::init(degrees(1.0), 0, 0, 0);
    assert_eq!(pid.compute(degrees(1000.0), 0, 1), ONE);
    assert_eq!(pid.i_term(), ONE);
    assert_eq!(pid.compute(degrees(1000.0), 0, 2), ONE);
    assert_eq!(pid.i_term(), ONE);
    // it comes back from the bound at once
    assert_eq!(pid.compute(0, degrees(0.5), 3), 500_000);
    assert_eq!(pid.i_term(), 500_000);
    assert_eq!(pid.compute(0, degrees(1000.0), 4), -ONE);
    assert_eq!(pid.i_term(), -ONE);
}

#[test]
fn pid_stays_within_bounds_for_extreme_inputs() {
    let extremes = [i64::MIN, -ONE, -1, 0, 1, ONE, i64::MAX];
    let times = [0, 1, 2, u64::MAX];
    for k_p in extremes {
        for k_i in extremes {
            for k_d in extremes {
                let mut pid = PID::init(k_i, k_p, k_d, 1);
                for set_point in extremes {
                    for is_point in extremes {
                        for now in times {
                            let duty = pid.compute(set_point, is_point, now);
                            assert!((-ONE..=ONE).contains(&duty));
                            assert!((-ONE..=ONE).contains(&pid.i_term()));
                        }
                    }
                }
            }
        }
    }
}

#[test]
fn starts_at_rest_and_registers_its_channel() {
    let (kiln, command) = Kiln::start(0x60, 4, 1000, &config(0.1, 0.0, 0.0), 7);
    assert_eq!(kiln.state(), KilnState::Idle);
    assert_eq!(kiln.runtime(), 0);
    assert_eq!(kiln.pending(), 0);
    assert_eq!(kiln.interval(), 1000);
    assert_eq!(kiln.thermocouple_address(), 0x60);
    assert_eq!(kiln.heater_pin(), 4);
    match command {
        Command::Register { channel } => assert_eq!(channel, "kiln"),
        other => panic!("unexpected {:?}", other),
    }
}

#[test]
fn idle_tick_sleeps_and_reports() {
    let mut kiln = kiln(1000, &config(0.1, 0.0, 0.0));
    let tick = kiln.tick(Some(degrees(21.5)), 1);
    assert_eq!(tick.actions, vec![Action::Sleep(1000)]);
    assert_eq!(
        tick.update,
        KilnUpdate {
            temperature: degrees(21.5),
            state: KilnState::Idle,
            runtime: 0,
            set_point: 0
        }
    );
}

#[test]
fn running_tick_switches_the_heater_once_and_leaves_it_off() {
    let mut kiln = kiln(1000, &config(0.01, 0.0, 0.0));
    assert!(kiln.enqueue(KilnEvent::Start(schedule(&["100 to 200 over 100 seconds", "hold for 10 seconds"]))));
    // error 25 degrees, duty 0.25
    let tick = kiln.tick(Some(degrees(75.0)), 1);
    assert_eq!(
        tick.actions,
        vec![Action::On, Action::Sleep(250), Action::Off, Action::Sleep(750)]
    );
    assert_eq!(
        tick.update,
        KilnUpdate {
            temperature: degrees(75.0),
            state: KilnState::Running,
            runtime: 1,
            set_point: degrees(100.0)
        }
    );
    // one second on the set point is 101 degrees; the kiln is too hot: duty -0.09
    let tick = kiln.tick(Some(degrees(110.0)), 2);
    assert_eq!(
        tick.actions,
        vec![Action::On, Action::Sleep(0), Action::Off, Action::Sleep(1000)]
    );
    assert_eq!(tick.update.set_point, degrees(101.0));
    assert_eq!(tick.update.runtime, 2);
    // far too cold: the heater is on for the whole tick
    let tick = kiln.tick(Some(degrees(-500.0)), 3);
    assert_eq!(
        tick.actions,
        vec![Action::On, Action::Sleep(1000), Action::Off, Action::Sleep(0)]
    );
}

#[test]
fn every_tick_ends_with_the_heater_off() {
    let mut kiln = kiln(700, &config(0.003, 0.0001, 0.002));
    kiln.enqueue(KilnEvent::Start(schedule(&["ambient to 300 by 600 per minute", "hold for 10 seconds"])));
    for second in 0..60u64 {
        let reading = if second % 7 == 3 { None } else { Some(degrees(20.0 + 4.0 * second as f64)) };
        let tick = kiln.tick(reading, second);
        let switches: Vec<&Action> = tick.actions.iter().filter(|a| !matches!(a, Action::Sleep(_))).collect();
        if tick.update.state == KilnState::Running {
            assert_eq!(switches.last(), Some(&&Action::Off));
        } else {
            assert!(switches.is_empty());
        }
        assert!(tick.actions.iter().filter(|a| **a == Action::On).count() <= 1);
        let slept: u32 = tick
            .actions
            .iter()
            .map(|a| match a {
                Action::Sleep(ms) => *ms,
                _ => 0,
            })
            .sum();
        assert_eq!(slept, 700);
    }
}

#[test]
fn duty_is_rounded_down_to_whole_milliseconds() {
    let mut kiln = kiln(999, &config(0.01, 0.0, 0.0));
    kiln.enqueue(KilnEvent::Start(schedule(&["100 to 100 over 1 hour", "hold for 1 hour"])));
    // error 33.3333 degrees, duty 0.333333, on for 332.99 ms
    let tick = kiln.tick(Some(66_666_700), 1);
    assert_eq!(
        tick.actions,
        vec![Action::On, Action::Sleep(332), Action::Off, Action::Sleep(667)]
    );
    // ticks shorter than a second do not advance the runtime
    assert_eq!(tick.update.runtime, 0);
}

#[test]
fn start_while_running_changes_nothing() {
    let mut kiln = kiln(1000, &config(0.01, 0.0, 0.0));
    kiln.enqueue(KilnEvent::Start(schedule(&["100 to 200 over 100 seconds", "hold for 10 seconds"])));
    kiln.tick(Some(0), 1);
    kiln.tick(Some(0), 2);
    assert_eq!(kiln.state(), KilnState::Running);
    assert_eq!(kiln.runtime(), 2);
    kiln.enqueue(KilnEvent::Start(schedule(&["500 to 600 over 5 seconds", "hold for 1 second"])));
    let tick = kiln.tick(Some(0), 3);
    assert_eq!(kiln.state(), KilnState::Running);
    // the first schedule runs on: its set point after two seconds, and a third second passed
    assert_eq!(tick.update.set_point, degrees(102.0));
    assert_eq!(kiln.runtime(), 3);
    assert_eq!(kiln.pending(), 0);
}

#[test]
fn stop_while_idle_leaves_the_kiln_idle() {
    let mut kiln = kiln(1000, &config(0.01, 0.0, 0.0));
    assert!(kiln.enqueue(KilnEvent::Stop));
    let tick = kiln.tick(Some(0), 1);
    assert_eq!(kiln.state(), KilnState::Idle);
    assert_eq!(kiln.runtime(), 0);
    assert_eq!(tick.actions, vec![Action::Sleep(1000)]);
}

#[test]
fn stop_ends_the_run() {
    let mut kiln = kiln(1000, &config(0.01, 0.0, 0.0));
    kiln.enqueue(KilnEvent::Start(schedule(&["100 to 200 over 100 seconds", "hold for 10 seconds"])));
    kiln.tick(Some(0), 1);
    kiln.enqueue(KilnEvent::Stop);
    let tick = kiln.tick(Some(0), 2);
    assert_eq!(
        tick.update,
        KilnUpdate { temperature: 0, state: KilnState::Idle, runtime: 0, set_point: 0 }
    );
    assert_eq!(tick.actions, vec![Action::Sleep(1000)]);
}

#[test]
fn handles_events_in_order_one_per_tick() {
    let mut kiln = kiln(1000, &config(0.01, 0.0, 0.0));
    kiln.enqueue(KilnEvent::Start(schedule(&["100 to 200 over 100 seconds", "hold for 10 seconds"])));
    kiln.enqueue(KilnEvent::Stop);
    kiln.enqueue(KilnEvent::Start(schedule(&["500 to 600 over 50 seconds", "hold for 10 seconds"])));
    assert_eq!(kiln.pending(), 3);
    assert_eq!(kiln.tick(Some(0), 1).update.set_point, degrees(100.0));
    assert_eq!(kiln.pending(), 2);
    assert_eq!(kiln.tick(Some(0), 2).update.state, KilnState::Idle);
    assert_eq!(kiln.pending(), 1);
    assert_eq!(kiln.tick(Some(0), 3).update.set_point, degrees(500.0));
    assert_eq!(kiln.pending(), 0);
}

#[test]
fn only_start_and_stop_enter_the_inbox() {
    let mut kiln = kiln(1000, &config(0.01, 0.0, 0.0));
    assert!(!kiln.enqueue(KilnEvent::Complete));
    assert!(!kiln.enqueue(KilnEvent::Started));
    assert!(!kiln.enqueue(KilnEvent::Stopped));
    assert!(!kiln.enqueue(KilnEvent::Unchanged));
    assert!(!kiln.enqueue(KilnEvent::Update));
    assert!(!kiln.enqueue(KilnEvent::Failure("no".to_string())));
    assert_eq!(kiln.pending(), 0);
}

#[test]
fn completes_a_schedule_once() {
    let mut kiln = kiln(1000, &config(0.01, 0.0, 0.0));
    kiln.enqueue(KilnEvent::Start(schedule(&["100 to 200 over 2 seconds", "hold for 1 second"])));
    // runtime 1, 2, 3: within the schedule
    for second in 1..=3u64 {
        let tick = kiln.tick(Some(0), second);
        assert_eq!(tick.update.state, KilnState::Running);
        assert_eq!(tick.update.runtime, second as u32);
        assert_eq!(kiln.pending(), 0);
    }
    // the fourth second passes the end
    let tick = kiln.tick(Some(0), 4);
    assert_eq!(tick.update.state, KilnState::Running);
    assert_eq!(tick.update.set_point, degrees(200.0));
    assert_eq!(tick.update.runtime, 4);
    assert_eq!(kiln.pending(), 1);
    // the next tick handles the completion
    let tick = kiln.tick(Some(0), 5);
    assert_eq!(
        tick.update,
        KilnUpdate { temperature: 0, state: KilnState::Idle, runtime: 0, set_point: 0 }
    );
    assert_eq!(kiln.pending(), 0);
}

#[test]
fn completion_is_not_repeated_behind_other_events() {
    let mut kiln = kiln(2000, &config(0.01, 0.0, 0.0));
    kiln.enqueue(KilnEvent::Start(schedule(&["100 to 200 over 1 second", "hold for 0 seconds"])));
    kiln.enqueue(KilnEvent::Start(schedule(&["100 to 200 over 1 second", "hold for 0 seconds"])));
    // two seconds pass in the first tick: the end is passed
    kiln.tick(Some(0), 1);
    assert_eq!(kiln.pending(), 2);
    // the second start is passed over, and no second completion joins the inbox
    let tick = kiln.tick(Some(0), 2);
    assert_eq!(tick.update.state, KilnState::Running);
    assert_eq!(tick.update.set_point, 0);
    assert_eq!(kiln.pending(), 1);
    kiln.tick(Some(0), 3);
    assert_eq!(kiln.state(), KilnState::Idle);
    assert_eq!(kiln.pending(), 0);
}

#[test]
fn keeps_the_heater_off_without_a_reading() {
    let mut kiln = kiln(1000, &config(0.01, 0.01, 0.0));
    kiln.enqueue(KilnEvent::Start(schedule(&["100 to 200 over 100 seconds", "hold for 10 seconds"])));
    let tick = kiln.tick(Some(degrees(90.0)), 1);
    assert_eq!(tick.actions[1], Action::Sleep(200));
    let tick = kiln.tick(None, 2);
    assert_eq!(tick.actions, vec![Action::Off, Action::Sleep(1000)]);
    assert_eq!(
        tick.update,
        KilnUpdate {
            temperature: degrees(90.0),
            state: KilnState::Running,
            runtime: 2,
            set_point: degrees(101.0)
        }
    );
    assert_eq!(kiln.last_reading(), degrees(90.0));
    // the controller did not see the tick without a reading:
    // error 12, p = 0.12, i = 0.1 + 12 * 2 * 0.01 = 0.34
    let tick = kiln.tick(Some(degrees(90.0)), 3);
    assert_eq!(tick.actions[1], Action::Sleep(460));
    // an idle kiln without a reading reports the last one too
    kiln.enqueue(KilnEvent::Stop);
    let tick = kiln.tick(None, 4);
    assert_eq!(tick.update.temperature, degrees(90.0));
    assert_eq!(tick.actions, vec![Action::Sleep(1000)]);
}

#[test]
fn runtime_stops_at_the_largest_count() {
    let mut kiln = kiln(u32::MAX, &config(0.0, 0.0, 0.0));
    let long = NormalizedSchedule {
        name: "long".to_string(),
        description: None,
        scale: TemperatureScale::Celsius,
        steps: vec![NormalizedStep {
            start_time: 0,
            end_time: u32::MAX,
            start_temperature: 0,
            end_temperature: 0,
        }],
    };
    kiln.enqueue(KilnEvent::Start(long));
    let step = u32::MAX / 1000;
    for n in 1..=1000u32 {
        assert_eq!(kiln.tick(Some(0), 1).update.runtime, n * step);
    }
    assert_eq!(kiln.tick(Some(0), 1).update.runtime, u32::MAX);
    assert_eq!(kiln.tick(Some(0), 1).update.runtime, u32::MAX);
    assert_eq!(kiln.pending(), 0);
}

#[test]
fn run_state_follows_the_events() {
    let mut run = RunState::new();
    assert_eq!(run.state(), KilnState::Idle);
    assert_eq!(run.set_point(), 0);
    run.handle(KilnEvent::Update);
    assert_eq!(run.state(), KilnState::Idle);
    run.handle(KilnEvent::Start(schedule(&["100 to 200 over 100 seconds", "hold for 10 seconds"])));
    assert_eq!(run.state(), KilnState::Running);
    assert_eq!(run.set_point(), degrees(100.0));
    assert!(!run.advance(50_000));
    assert_eq!(run.runtime(), 50);
    assert_eq!(run.set_point(), degrees(150.0));
    assert!(!run.advance(60_000));
    assert!(run.advance(1_000));
    assert!(!run.advance(1_000));
    assert_eq!(run.runtime(), 112);
    assert_eq!(run.set_point(), 0);
    run.handle(KilnEvent::Complete);
    assert_eq!(run.state(), KilnState::Idle);
    assert_eq!(run.runtime(), 0);
}

#[test]
fn names_the_error_of_the_loop() {
    assert_eq!(KilnError {}.message(), "Kiln Error");
}
