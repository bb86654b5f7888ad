//! The kiln's control loop as a state machine: each tick takes the
//! thermocouple's reading and the time, handles one pending event, and
//! answers with what to do to the heater and what to report.

pub mod controller;

pub use controller::{PidModel, PID};

use crate::config::KilnConfig;
use crate::fixed::MICRO;
use crate::schedule::normalized::{target_at, total_duration_of, NormalizedSchedule, NormalizedStep};
use crate::server::command::Command;
use std::collections::VecDeque;
use vstd::prelude::*;
use vstd::string::StringExecFns;

verus! {

/// Whether a schedule is being fired.
#[derive(Copy, Clone, Debug, PartialEq, Eq, Structural)]
pub enum KilnState {
    Idle,
    Running,
}

/// A message in the kiln's inbox. The loop acts on `Start`, `Stop` and
/// `Complete` and passes over the others.
#[derive(Debug)]
pub enum KilnEvent {
    Complete,
    Start(NormalizedSchedule),
    Started,
    Stop,
    Stopped,
    Unchanged,
    Failure(String),
    Update,
}

/// The telemetry of one tick: temperatures in millionths of a degree
/// Celsius, the runtime of the schedule in seconds.
#[derive(Clone, Copy, Debug, PartialEq, Eq, Structural)]
pub struct KilnUpdate {
    pub temperature: i64,
    pub state: KilnState,
    pub runtime: u32,
    pub set_point: i64,
}

/// One thing to do within a tick: switch the heater, or wait for so many
/// milliseconds.
#[derive(Clone, Copy, Debug, PartialEq, Eq, Structural)]
pub enum Action {
    On,
    Off,
    Sleep(u32),
}

/// What a tick asks of its caller: the actions to carry out in order, then
/// the update to publish on the kiln's channel.
#[derive(Debug)]
pub struct Tick {
    pub update: KilnUpdate,
    pub actions: Vec<Action>,
}

/// The error of the kiln's loop.
#[derive(Clone, Copy, Debug, PartialEq, Eq, Structural)]
pub struct KilnError {}

impl KilnError {
    /// The error as a sentence for a person.
    pub fn message(&self) -> (text: String)
        ensures
            text@ == "Kiln Error"@,
    {
        String::from_str("Kiln Error")
    }
}

/// Whether the heater is on after the actions, given whether it was on
/// before them.
pub open spec fn heater_after(actions: Seq<Action>, on_before: bool) -> bool
    decreases actions.len(),
{
    if actions.len() == 0 {
        on_before
    } else {
        match actions.last() {
            Action::On => true,
            Action::Off => false,
            Action::Sleep(_) => heater_after(actions.drop_last(), on_before),
        }
    }
}

/// How many times the actions switch the heater on.
pub open spec fn switch_ons(actions: Seq<Action>) -> nat
    decreases actions.len(),
{
    if actions.len() == 0 {
        0
    } else {
        switch_ons(actions.drop_last()) + if actions.last() == Action::On {
            1nat
        } else {
            0nat
        }
    }
}

/// The milliseconds that the actions wait in all.
pub open spec fn slept(actions: Seq<Action>) -> nat
    decreases actions.len(),
{
    if actions.len() == 0 {
        0
    } else {
        slept(actions.drop_last()) + match actions.last() {
            Action::Sleep(ms) => ms as nat,
            _ => 0nat,
        }
    }
}

/// The run of a schedule as mathematics.
pub struct RunModel {
    pub state: KilnState,
    pub runtime: nat,
    pub schedule: Option<NormalizedSchedule>,
}

impl RunModel {
    /// The steps of the schedule being fired, none where there is no schedule.
    pub open spec fn steps(self) -> Seq<NormalizedStep> {
        match self.schedule {
            Some(schedule) => schedule.steps@,
            None => Seq::empty(),
        }
    }

    /// The run after one event from the inbox. `Start` begins a run only
    /// from `Idle` and is passed over while one is running; `Stop` and
    /// `Complete` end the run from either state; any other event changes
    /// nothing.
    pub open spec fn handled(self, event: KilnEvent) -> RunModel {
        match event {
            KilnEvent::Start(schedule) => if self.state == KilnState::Idle {
                RunModel { state: KilnState::Running, runtime: 0, schedule: Some(schedule) }
            } else {
                self
            },
            KilnEvent::Stop | KilnEvent::Complete => RunModel {
                state: KilnState::Idle,
                runtime: 0,
                schedule: None,
            },
            _ => self,
        }
    }

    /// The target temperature at the current runtime, 0 while idle.
    pub open spec fn set_point(self) -> int {
        if self.state == KilnState::Running {
            target_at(self.steps(), self.runtime)
        } else {
            0
        }
    }

    /// The runtime after a tick of `interval` milliseconds: whole seconds
    /// are added, and the count stops at the largest `u32`.
    pub open spec fn advanced(self, interval: nat) -> nat {
        if self.runtime + interval / 1000 > u32::MAX {
            u32::MAX as nat
        } else {
            self.runtime + interval / 1000
        }
    }

    /// Whether a tick of `interval` milliseconds takes the runtime past the
    /// end of the schedule.
    pub open spec fn completes(self, interval: nat) -> bool {
        self.runtime <= total_duration_of(self.steps()) < self.advanced(interval)
    }
}

/// What the control loop knows of the current run.
#[derive(Debug)]
pub struct RunState {
    runtime: u32,
    schedule: Option<NormalizedSchedule>,
    state: KilnState,
}

impl View for RunState {
    type V = RunModel;

    closed spec fn view(&self) -> RunModel {
        RunModel { state: self.state, runtime: self.runtime as nat, schedule: self.schedule }
    }
}

impl RunState {
    #[verifier::type_invariant]
    spec fn running_has_schedule(self) -> bool {
        self.state == KilnState::Running ==> self.schedule is Some
    }

    /// The state before any schedule was started.
    pub fn new() -> (run: RunState)
        ensures
            run@ == (RunModel { state: KilnState::Idle, runtime: 0, schedule: None }),
    {
        RunState { runtime: 0, schedule: None, state: KilnState::Idle }
    }

    /// Whether a schedule is being fired. While one is, there is a schedule.
    pub fn state(&self) -> (state: KilnState)
        ensures
            state == self@.state,
            state == KilnState::Running ==> self@.schedule is Some,
    {
        proof {
            use_type_invariant(self);
        }
        self.state
    }

    /// The seconds the schedule has been running for.
    pub fn runtime(&self) -> (runtime: u32)
        ensures
            runtime == self@.runtime,
    {
        self.runtime
    }

    /// Takes one event from the inbox into account.
    pub fn handle(&mut self, event: KilnEvent)
        ensures
            final(self)@ == old(self)@.handled(event),
    {
        match event {
            KilnEvent::Start(schedule) => {
                if self.state == KilnState::Idle {
                    self.schedule = Some(schedule);
                    self.runtime = 0;
                    self.state = KilnState::Running;
                }
            },
            KilnEvent::Stop | KilnEvent::Complete => {
                self.state = KilnState::Idle;
                self.runtime = 0;
                self.schedule = None;
            },
            _ => {},
        }
    }

    /// The target temperature at the current runtime, 0 while idle.
    pub fn set_point(&self) -> (target: i64)
        ensures
            target == self@.set_point(),
    {
        match &self.schedule {
            Some(schedule) => if self.state == KilnState::Running {
                schedule.target_temperature(self.runtime)
            } else {
                0
            },
            None => {
                proof {
                    use_type_invariant(self);
                }
                0
            },
        }
    }

    /// Lets `interval` milliseconds of the run pass, and says whether that
    /// took the runtime past the end of the schedule.
    pub fn advance(&mut self, interval: u32) -> (completes: bool)
        ensures
            final(self)@ == (RunModel { runtime: old(self)@.advanced(interval as nat), ..old(self)@ }),
            completes == old(self)@.completes(interval as nat),
    {
        proof {
            use_type_invariant(&*self);
        }
        let total = match &self.schedule {
            Some(schedule) => schedule.total_duration(),
            None => 0,
        };
        let before = self.runtime;
        let seconds = interval / 1000;
        let after = if seconds > u32::MAX - before {
            u32::MAX
        } else {
            before + seconds
        };
        self.runtime = after;
        before <= total && total < after
    }
}

/// The control loop as mathematics.
pub struct KilnModel {
    pub run: RunModel,
    pub pid: PidModel,
    pub inbox: Seq<KilnEvent>,
    /// The length of a tick in milliseconds.
    pub interval: nat,
    /// The last temperature that was read, 0 before the first.
    pub last_reading: int,
    /// The address of the thermocouple on its bus.
    pub thermocouple_address: u16,
    /// The heater relay's pin.
    pub heater_pin: u8,
}

impl KilnModel {
    /// The temperature that a tick works with: the reading, or the last
    /// one where the thermocouple could not be read.
    pub open spec fn temperature(self, reading: Option<i64>) -> int {
        match reading {
            Some(t) => t as int,
            None => self.last_reading,
        }
    }

    /// The loop after it took the first pending event, if there is one, out
    /// of the inbox and handled it.
    pub open spec fn drained(self) -> KilnModel {
        if self.inbox.len() == 0 {
            self
        } else {
            KilnModel {
                run: self.run.handled(self.inbox[0]),
                inbox: self.inbox.drop_first(),
                ..self
            }
        }
    }

    /// The milliseconds of a tick for which a duty keeps the heater on:
    /// the duty's share of the tick, rounded down, and nothing for a duty
    /// that is not positive.
    pub open spec fn on_time(self, duty: int) -> nat {
        if duty <= 0 {
            0
        } else if duty >= MICRO {
            self.interval
        } else {
            (self.interval * duty / (MICRO as int)) as nat
        }
    }

    /// What the loop, with its event handled, does to the heater in a tick.
    pub open spec fn script(self, reading: Option<i64>, now: nat) -> Seq<Action> {
        if self.run.state == KilnState::Running {
            match reading {
                Some(t) => {
                    let on = self.on_time(self.pid.output(self.run.set_point(), t as int, now));
                    seq![
                        Action::On,
                        Action::Sleep(on as u32),
                        Action::Off,
                        Action::Sleep((self.interval - on) as u32),
                    ]
                },
                None => seq![Action::Off, Action::Sleep(self.interval as u32)],
            }
        } else {
            seq![Action::Sleep(self.interval as u32)]
        }
    }

    /// The loop, with its event handled, after it acted for a tick: while
    /// running the controller has seen the reading, the runtime has
    /// advanced, and `Complete` has joined the inbox if the end of the
    /// schedule was passed.
    pub open spec fn acted(self, reading: Option<i64>, now: nat) -> KilnModel {
        let last_reading = self.temperature(reading);
        if self.run.state == KilnState::Running {
            KilnModel {
                run: RunModel { runtime: self.run.advanced(self.interval), ..self.run },
                pid: match reading {
                    Some(t) => self.pid.after(self.run.set_point(), t as int, now),
                    None => self.pid,
                },
                inbox: if self.run.completes(self.interval) {
                    self.inbox.push(KilnEvent::Complete)
                } else {
                    self.inbox
                },
                last_reading,
                ..self
            }
        } else {
            KilnModel { last_reading, ..self }
        }
    }

    /// The loop after a whole tick.
    pub open spec fn ticked(self, reading: Option<i64>, now: nat) -> KilnModel {
        self.drained().acted(reading, now)
    }

    /// What a tick asks to be done to the heater.
    pub open spec fn plan(self, reading: Option<i64>, now: nat) -> Seq<Action> {
        self.drained().script(reading, now)
    }

    /// What a tick reports: the temperature it worked with, the state and
    /// set point after the event was handled, and the runtime at its end.
    pub open spec fn report(self, reading: Option<i64>, now: nat) -> KilnUpdate {
        KilnUpdate {
            temperature: self.temperature(reading) as i64,
            state: self.drained().run.state,
            runtime: self.ticked(reading, now).run.runtime as u32,
            set_point: self.drained().run.set_point() as i64,
        }
    }
}

/// The kiln's control loop: the run, the controller, and the inbox of
/// events that have arrived and were not handled yet.
#[derive(Debug)]
pub struct Kiln {
    run: RunState,
    pid: PID,
    inbox: VecDeque<KilnEvent>,
    interval: u32,
    last_reading: i64,
    thermocouple_address: u16,
    heater_pin: u8,
}

impl View for Kiln {
    type V = KilnModel;

    closed spec fn view(&self) -> KilnModel {
        KilnModel {
            run: self.run@,
            pid: self.pid@,
            inbox: self.inbox@,
            interval: self.interval as nat,
            last_reading: self.last_reading as int,
            thermocouple_address: self.thermocouple_address,
            heater_pin: self.heater_pin,
        }
    }
}

/// The name of the channel that the kiln publishes its updates on.
pub const KILN_CHANNEL: &'static str = "kiln";

impl Kiln {
    /// A loop at rest for the thermocouple at the given address and the
    /// heater on the given pin, with ticks of `interval` milliseconds and a
    /// controller tuned as `config` says; `now` is the time in seconds.
    /// With it comes the command that registers the kiln's channel with the
    /// hub.
    pub fn start(
        thermocouple_address: u16,
        heater_pin: u8,
        interval: u32,
        config: &KilnConfig,
        now: u64,
    ) -> (started: (Kiln, Command))
        ensures
            started.0@ == (KilnModel {
                run: RunModel { state: KilnState::Idle, runtime: 0, schedule: None },
                pid: PidModel {
                    k_i: config.integral as int,
                    k_p: config.proportional as int,
                    k_d: config.derivative as int,
                    last_time: now as nat,
                    i_term: 0,
                    last_error: 0,
                },
                inbox: Seq::empty(),
                interval: interval as nat,
                last_reading: 0,
                thermocouple_address,
                heater_pin,
            }),
            started.1 matches Command::Register { channel } && channel@ == KILN_CHANNEL@,
    {
        let kiln = Kiln {
            run: RunState::new(),
            pid: PID::init(config.integral, config.proportional, config.derivative, now),
            inbox: VecDeque::new(),
            interval,
            last_reading: 0,
            thermocouple_address,
            heater_pin,
        };
        (kiln, Command::Register { channel: String::from_str(KILN_CHANNEL) })
    }

    /// Puts an event that arrived into the inbox. Only `Start` and `Stop`
    /// come from outside: any other event is dropped, and the answer is
    /// `false`.
    pub fn enqueue(&mut self, event: KilnEvent) -> (accepted: bool)
        ensures
            accepted == (event is Start || event is Stop),
            final(self)@ == (KilnModel {
                inbox: if accepted {
                    old(self)@.inbox.push(event)
                } else {
                    old(self)@.inbox
                },
                ..old(self)@
            }),
    {
        match event {
            KilnEvent::Start(schedule) => {
                self.inbox.push_back(KilnEvent::Start(schedule));
                true
            },
            KilnEvent::Stop => {
                self.inbox.push_back(KilnEvent::Stop);
                true
            },
            _ => false,
        }
    }

    /// Whether a schedule is being fired.
    pub fn state(&self) -> (state: KilnState)
        ensures
            state == self@.run.state,
    {
        self.run.state()
    }

    /// The seconds the schedule has been running for.
    pub fn runtime(&self) -> (runtime: u32)
        ensures
            runtime == self@.run.runtime,
    {
        self.run.runtime()
    }

    /// The number of events that wait in the inbox.
    pub fn pending(&self) -> (count: usize)
        ensures
            count == self@.inbox.len(),
    {
        self.inbox.len()
    }

    /// The length of a tick in milliseconds.
    pub fn interval(&self) -> (interval: u32)
        ensures
            interval == self@.interval,
    {
        self.interval
    }

    /// The last temperature that was read, 0 before the first.
    pub fn last_reading(&self) -> (temperature: i64)
        ensures
            temperature == self@.last_reading,
    {
        self.last_reading
    }

    /// The address of the thermocouple on its bus.
    pub fn thermocouple_address(&self) -> (address: u16)
        ensures
            address == self@.thermocouple_address,
    {
        self.thermocouple_address
    }

    /// The heater relay's pin.
    pub fn heater_pin(&self) -> (pin: u8)
        ensures
            pin == self@.heater_pin,
    {
        self.heater_pin
    }

    /// The milliseconds of a tick for which `duty` keeps the heater on.
    fn on_time(&self, duty: i64) -> (on: u32)
        ensures
            on == self@.on_time(duty as int),
            on <= self.interval,
    {
        if duty <= 0 {
            0
        } else if duty >= MICRO {
            self.interval
        } else {
            assert(self.interval * duty <= 0xffff_ffff * 1_000_000) by (nonlinear_arith)
                requires
                    0 <= self.interval <= 0xffff_ffff,
                    0 < duty < 1_000_000,
            ;
            let share: u64 = self.interval as u64 * duty as u64;
            proof {
                assert(share / (MICRO as u64) <= self.interval) by (nonlinear_arith)
                    requires
                        share == self.interval * duty,
                        0 < duty < MICRO,
                        MICRO == 1_000_000,
                ;
            }
            (share / MICRO as u64) as u32
        }
    }

    /// One tick of the loop. `reading` is the thermocouple's temperature
    /// in millionths of a degree Celsius, or `None` where it could not be
    /// read; `now` is the time in seconds.
    ///
    /// The tick takes one event from the inbox, if one is pending, and
    /// handles it. While a schedule is running it then asks the controller
    /// for a duty at the schedule's set point, keeps the heater on for that
    /// share of the tick and off for the rest, lets the runtime advance,
    /// and puts `Complete` into its own inbox if that passed the end of the
    /// schedule. Without a reading the heater is kept off for the whole tick,
    /// the controller is left alone, and the update carries the last
    /// temperature that was read.
    pub fn tick(&mut self, reading: Option<i64>, now: u64) -> (tick: Tick)
        ensures
            final(self)@ == old(self)@.ticked(reading, now as nat),
            tick.actions@ == old(self)@.plan(reading, now as nat),
            tick.update == old(self)@.report(reading, now as nat),
            old(self)@.drained().run.state == KilnState::Running ==> forall|on_before: bool|
                !heater_after(tick.actions@, on_before),
            forall|on_before: bool| heater_after(tick.actions@, on_before) ==> on_before,
            switch_ons(tick.actions@) <= 1,
            slept(tick.actions@) == old(self)@.interval,
    {
        let temperature = match reading {
            Some(t) => t,
            None => self.last_reading,
        };
        self.last_reading = temperature;
        match self.inbox.pop_front() {
            Some(event) => {
                self.run.handle(event);
            },
            None => {},
        }
        let state = self.run.state();
        let set_point = self.run.set_point();
        let mut actions: Vec<Action> = Vec::new();
        match state {
            KilnState::Running => {
                match reading {
                    Some(t) => {
                        let duty = self.pid.compute(set_point, t, now);
                        let on = self.on_time(duty);
                        actions.push(Action::On);
                        actions.push(Action::Sleep(on));
                        actions.push(Action::Off);
                        actions.push(Action::Sleep(self.interval - on));
                    },
                    None => {
                        actions.push(Action::Off);
                        actions.push(Action::Sleep(self.interval));
                    },
                }
                if self.run.advance(self.interval) {
                    self.inbox.push_back(KilnEvent::Complete);
                }
            },
            KilnState::Idle => {
                actions.push(Action::Sleep(self.interval));
            },
        }
        proof {
            lemma_script_ends_off(old(self)@.drained(), reading, now as nat);
            assert(actions@ =~= old(self)@.plan(reading, now as nat));
        }
        Tick {
            update: KilnUpdate { temperature, state, runtime: self.run.runtime(), set_point },
            actions,
        }
    }
}

/// The heater ends every running tick off, is never left on by a tick
/// that found it off, is switched on at most once in a tick, and the
/// waits of a tick add up to its length.
pub proof fn lemma_script_ends_off(kiln: KilnModel, reading: Option<i64>, now: nat)
    requires
        kiln.interval <= u32::MAX,
    ensures
        kiln.run.state == KilnState::Running ==> forall|on_before: bool|
            !heater_after(kiln.script(reading, now), on_before),
        forall|on_before: bool| heater_after(kiln.script(reading, now), on_before) ==> on_before,
        switch_ons(kiln.script(reading, now)) <= 1,
        slept(kiln.script(reading, now)) == kiln.interval,
{
    let script = kiln.script(reading, now);
    reveal_with_fuel(heater_after, 3);
    reveal_with_fuel(switch_ons, 5);
    reveal_with_fuel(slept, 5);
    if kiln.run.state == KilnState::Running {
        match reading {
            Some(t) => {
                lemma_on_time_within(kiln, kiln.pid.output(kiln.run.set_point(), t as int, now));
                let rest = script.drop_last().drop_last().drop_last();
                assert(rest.len() == 1);
            },
            None => {
                assert(script.drop_last().len() == 1);
            },
        }
    }
}

/// The heater is never asked to stay on for longer than a tick.
pub proof fn lemma_on_time_within(kiln: KilnModel, duty: int)
    ensures
        kiln.on_time(duty) <= kiln.interval,
{
    if 0 < duty < MICRO {
        assert(kiln.interval * duty / (MICRO as int) <= kiln.interval) by (nonlinear_arith)
            requires
                0 < duty < MICRO,
                MICRO == 1_000_000,
                kiln.interval >= 0,
        ;
    }
}

/// A run is completed once: the tick that takes the runtime past the end
/// of the schedule completes it, and no tick after that one does, however
/// long the ticks are, for the runtime never goes back during a run.
pub proof fn lemma_completes_once(run: RunModel, interval: nat, later: nat)
    requires
        run.runtime <= u32::MAX,
    ensures
        run.advanced(interval) >= run.runtime,
        run.runtime > total_duration_of(run.steps()) ==> !run.completes(later),
        run.completes(interval) ==> !(RunModel {
            runtime: run.advanced(interval),
            ..run
        }).completes(later),
{
}

/// Starting while a schedule is running changes neither the state, the
/// runtime nor the schedule.
pub proof fn lemma_start_while_running(run: RunModel, schedule: NormalizedSchedule)
    requires
        run.state == KilnState::Running,
    ensures
        run.handled(KilnEvent::Start(schedule)) == run,
{
}

/// Stopping while idle leaves the state idle.
pub proof fn lemma_stop_while_idle(run: RunModel)
    requires
        run.state == KilnState::Idle,
    ensures
        run.handled(KilnEvent::Stop).state == KilnState::Idle,
{
}

} // verus!
