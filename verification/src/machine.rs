//! The run/stop state machine of the stopwatch.
//!
//! The machine decides; it touches neither clock nor display. An interrupt
//! handler hands it an [`Event`], performs the [`Action`]s that come back in
//! their order, and answers [`Action::ReadClock`], which is always the last
//! one, with [`Event::ClockRead`]. A handler holds everything that the
//! machine and the actions touch until its last action is done, so no event
//! of another handler comes in between: [`Phase::accepts`] says which event
//! may come in which phase.

use vstd::prelude::*;
use crate::date_time::DateTime;
use crate::rel_time::{epoch, lemma_raw_names_elapsed_time, RelTime, REFERENCE_YEAR};

verus! {

/// The seconds from one periodic wakeup to the next.
pub const WAKEUP_PERIOD_SECONDS: u32 = 1;

/// What an interrupt handler reports to the machine.
#[derive(Clone, Copy, Debug, PartialEq, Eq, Structural)]
pub enum Event {
    /// The button interrupt fired; each flag says whether that button's
    /// interrupt was found pending.
    Buttons { board: bool, startstop: bool },
    /// The periodic wakeup fired.
    Wakeup,
    /// The clock was read, as the machine had asked, and held this
    /// timestamp.
    ClockRead(DateTime),
}

/// What the machine asks of the buttons, the clock and the display.
#[derive(Clone, Copy, Debug, PartialEq, Eq, Structural)]
pub enum Action {
    /// Clear the pending interrupt of the board button.
    ClearBoardButton,
    /// Clear the pending interrupt of the start/stop button.
    ClearStartStopButton,
    /// Set the clock to the timestamp.
    SetClock(DateTime),
    /// Let the clock wake the system every `WAKEUP_PERIOD_SECONDS`.
    EnableWakeup,
    /// Stop the periodic wakeup.
    DisableWakeup,
    /// Read the clock and report the timestamp as `Event::ClockRead`.
    ReadClock,
    /// Clear the pending wakeup interrupt.
    ClearWakeup,
    /// Show the timestamp's elapsed time on the display.
    Render(DateTime),
}

/// Where the stopwatch stands.
#[derive(Clone, Copy, Debug, PartialEq, Eq, Structural)]
pub enum Phase {
    /// Time is running: the clock holds the elapsed time.
    Running,
    /// The start/stop button was pressed while time was running, and the
    /// clock's answer is awaited.
    Stopping,
    /// A wakeup came while time was running, and the clock's answer is
    /// awaited.
    Refreshing,
    /// Time stands still at the elapsed time held here.
    Stopped(RelTime),
}

impl Phase {
    /// The elapsed time that is held while time stands still.
    pub open spec fn stoptime(self) -> Option<RelTime> {
        match self {
            Phase::Stopped(frozen) => Some(frozen),
            _ => None,
        }
    }

    /// No handler is at work: time is running or stands still.
    pub open spec fn is_idle(self) -> bool {
        self is Running || self is Stopped
    }

    /// An elapsed time that is held lies in the reference year.
    pub open spec fn wf(self) -> bool {
        self matches Phase::Stopped(frozen) ==> frozen.wf()
    }

    /// Whether `event` may come in this phase. A handler starts only while
    /// no other is at work, and the clock answers only when asked, with a
    /// timestamp of the reference year.
    pub open spec fn accepts(self, event: Event) -> bool {
        match event {
            Event::Buttons { .. } => self.is_idle(),
            Event::Wakeup => self.is_idle(),
            Event::ClockRead(now) => !self.is_idle() && now.spec_year() == REFERENCE_YEAR,
        }
    }

    /// What a press of the start/stop button asks for. While time stands
    /// still, the clock is set to the elapsed time held and wakes the system
    /// again. While it runs, the wakeup stops and the clock is read.
    pub open spec fn toggle_actions(self) -> Seq<Action> {
        match self {
            Phase::Stopped(frozen) => seq![Action::SetClock(frozen.raw()), Action::EnableWakeup],
            _ => seq![Action::DisableWakeup, Action::ReadClock],
        }
    }

    /// The phase after `event`, and the actions that it asks for, in order.
    pub open spec fn step(self, event: Event) -> (Phase, Seq<Action>) {
        match event {
            Event::Buttons { board, startstop } => {
                let cleared_board = if board {
                    seq![Action::ClearBoardButton]
                } else {
                    seq![]
                };
                if startstop {
                    (
                        if self is Stopped {
                            Phase::Running
                        } else {
                            Phase::Stopping
                        },
                        cleared_board + seq![Action::ClearStartStopButton] + self.toggle_actions(),
                    )
                } else {
                    (self, cleared_board)
                }
            },
            Event::Wakeup => match self {
                Phase::Stopped(frozen) => (self, seq![Action::Render(frozen.raw())]),
                _ => (Phase::Refreshing, seq![Action::ReadClock]),
            },
            Event::ClockRead(now) => match self {
                Phase::Stopping => (Phase::Stopped(RelTime::from_raw(now)), seq![]),
                _ => (Phase::Running, seq![Action::ClearWakeup, Action::Render(now)]),
            },
        }
    }
}

/// The clock, as far as the stopwatch relies on it: the timestamp that it
/// holds, which is also what it answers when read, and whether it wakes the
/// system.
pub struct Clock {
    pub now: DateTime,
    pub wakeup_enabled: bool,
    pub wakeup_pending: bool,
}

impl Clock {
    /// The clock once `action` is performed, with no time passing.
    pub open spec fn after(self, action: Action) -> Clock {
        match action {
            Action::SetClock(now) => Clock { now, ..self },
            Action::EnableWakeup => Clock { wakeup_enabled: true, ..self },
            Action::DisableWakeup => Clock { wakeup_enabled: false, ..self },
            Action::ClearWakeup => Clock { wakeup_pending: false, ..self },
            _ => self,
        }
    }

    /// The clock once `actions` are performed in order, with no time
    /// passing.
    pub open spec fn after_all(self, actions: Seq<Action>) -> Clock
        decreases actions.len(),
    {
        if actions.len() == 0 {
            self
        } else {
            self.after_all(actions.drop_last()).after(actions.last())
        }
    }
}

/// What one run of a handler on `event` leads to, with no time passing: the
/// phase and the clock at its end and all actions performed. Where the
/// machine asks for the clock to be read, the clock's answer is handed in
/// and what that asks for is performed too.
pub open spec fn run_handler(phase: Phase, clock: Clock, event: Event) -> (Phase, Clock, Seq<Action>) {
    let (asked, first) = phase.step(event);
    let read = clock.after_all(first);
    if first.len() > 0 && first.last() == Action::ReadClock {
        let (answered, second) = asked.step(Event::ClockRead(read.now));
        (answered, read.after_all(second), first + second)
    } else {
        (asked, read, first)
    }
}

/// The timestamp whose elapsed time is the stopwatch's, while no handler is
/// at work: the one held while time stands still, the clock's while it
/// runs.
pub open spec fn time_shown(phase: Phase, clock: Clock) -> DateTime {
    match phase {
        Phase::Stopped(frozen) => frozen.raw(),
        _ => clock.now,
    }
}

/// Whatever the machine takes in, an elapsed time that it holds afterwards
/// lies in the reference year.
pub proof fn lemma_step_keeps_wf(phase: Phase, event: Event)
    requires
        phase.wf(),
        phase.accepts(event),
    ensures
        phase.step(event).0.wf(),
{
    if let Event::ClockRead(now) = event {
        lemma_raw_names_elapsed_time(RelTime::from_raw(now), now);
    }
}

/// A pending button interrupt is cleared whenever it is found, and only
/// then; the board button does nothing else.
pub proof fn lemma_buttons_are_cleared(phase: Phase, board: bool, startstop: bool)
    ensures
        phase.step(Event::Buttons { board, startstop }).1.contains(Action::ClearBoardButton)
            == board,
        phase.step(Event::Buttons { board, startstop }).1.contains(Action::ClearStartStopButton)
            == startstop,
        phase.step(Event::Buttons { board, startstop: false }).0 == phase,
        phase.step(Event::Buttons { board, startstop }).0 == phase.step(
            Event::Buttons { board: false, startstop },
        ).0,
{
    let actions = phase.step(Event::Buttons { board, startstop }).1;
    if board {
        assert(actions[0] == Action::ClearBoardButton);
    }
    if startstop {
        let at = if board { 1int } else { 0int };
        assert(actions[at] == Action::ClearStartStopButton);
    }
}

/// What is rendered is never taken from a toggle half done. A render is
/// asked for only at a wakeup while time stands still, with the timestamp
/// held, or with the clock's answer to a wakeup while time runs: never
/// between the press of the start/stop button and the clock's answer to it.
/// The timestamp lies in the reference year.
pub proof fn lemma_render_is_whole(phase: Phase, event: Event, at: int)
    requires
        phase.wf(),
        phase.accepts(event),
        0 <= at < phase.step(event).1.len(),
        phase.step(event).1[at] is Render,
    ensures
        !(phase is Stopping),
        phase.step(event).1[at] == Action::Render(
            match phase {
                Phase::Stopped(frozen) => frozen.raw(),
                _ => event->ClockRead_0,
            },
        ),
        phase is Stopped ==> event is Wakeup,
        !(phase is Stopped) ==> phase is Refreshing && event is ClockRead,
        phase.step(event).1[at]->Render_0.spec_year() == REFERENCE_YEAR,
{
}

/// A wakeup renders the timestamp that the stopwatch shows, and leaves the
/// phase as it was.
pub proof fn lemma_wakeup_renders_time_shown(phase: Phase, clock: Clock)
    requires
        phase.is_idle(),
    ensures
        run_handler(phase, clock, Event::Wakeup).0 == phase,
        run_handler(phase, clock, Event::Wakeup).2.last() == Action::Render(
            time_shown(phase, clock),
        ),
        run_handler(phase, clock, Event::Wakeup).1.now == clock.now,
{
    let first = phase.step(Event::Wakeup).1;
    lemma_after_all_unfolds(clock, first);
    if phase is Running {
        let second = Phase::Refreshing.step(Event::ClockRead(clock.now)).1;
        lemma_after_all_unfolds(clock, second);
    }
}

/// A press of the start/stop button toggles between time running and time
/// standing still, and with no time passing it leaves the timestamp that
/// the stopwatch shows as it was: a render before the press and one after
/// it show the same.
pub proof fn lemma_toggle_keeps_time_shown(phase: Phase, clock: Clock, board: bool)
    requires
        phase.is_idle(),
        phase.wf(),
        phase is Running ==> clock.now.spec_year() == REFERENCE_YEAR,
    ensures
        ({
            let (toggled, set, actions) = run_handler(
                phase,
                clock,
                Event::Buttons { board, startstop: true },
            );
            &&& toggled.is_idle()
            &&& toggled.wf()
            &&& toggled is Running <==> phase is Stopped
            &&& time_shown(toggled, set) == time_shown(phase, clock)
            &&& set.wakeup_enabled == toggled is Running
        }),
{
    let press = Event::Buttons { board, startstop: true };
    let first = phase.step(press).1;
    lemma_after_all_unfolds(clock, first);
    if phase is Running {
        let read = clock.after_all(first);
        lemma_raw_names_elapsed_time(RelTime::from_raw(read.now), read.now);
    }
}

/// Stop, start, stop: with time standing still at an elapsed time of the
/// reference year, two presses of the start/stop button with no time
/// passing leave time standing still at that very elapsed time, and so at
/// the same number of elapsed seconds.
pub proof fn lemma_toggle_round_trip(frozen: RelTime, clock: Clock, board: bool)
    requires
        frozen.wf(),
    ensures
        ({
            let press = Event::Buttons { board, startstop: true };
            let started = run_handler(Phase::Stopped(frozen), clock, press);
            let stopped = run_handler(started.0, started.1, press);
            &&& started.0 == Phase::Running
            &&& stopped.0 == Phase::Stopped(frozen)
            &&& stopped.0.stoptime().unwrap().elapsed() == frozen.elapsed()
        }),
{
    let press = Event::Buttons { board, startstop: true };
    lemma_toggle_keeps_time_shown(Phase::Stopped(frozen), clock, board);
    let started = run_handler(Phase::Stopped(frozen), clock, press);
    lemma_toggle_keeps_time_shown(started.0, started.1, board);
    let stopped = run_handler(started.0, started.1, press);
    lemma_raw_names_elapsed_time(stopped.0.stoptime().unwrap(), frozen.raw());
    lemma_raw_names_elapsed_time(frozen, frozen.raw());
}

/// The clock after up to four actions, written out.
proof fn lemma_after_all_unfolds(clock: Clock, actions: Seq<Action>)
    requires
        actions.len() <= 4,
    ensures
        actions.len() == 0 ==> clock.after_all(actions) == clock,
        actions.len() == 1 ==> clock.after_all(actions) == clock.after(actions[0]),
        actions.len() == 2 ==> clock.after_all(actions) == clock.after(actions[0]).after(
            actions[1],
        ),
        actions.len() == 3 ==> clock.after_all(actions) == clock.after(actions[0]).after(
            actions[1],
        ).after(actions[2]),
        actions.len() == 4 ==> clock.after_all(actions) == clock.after(actions[0]).after(
            actions[1],
        ).after(actions[2]).after(actions[3]),
    decreases actions.len(),
{
    if actions.len() > 0 {
        lemma_after_all_unfolds(clock, actions.drop_last());
    }
}

/// The stopwatch: its phase, and with it the elapsed time that is held
/// while time stands still.
#[derive(Clone, Copy, Debug)]
pub struct Stopwatch {
    phase: Phase,
}

impl Stopwatch {
    #[verifier::type_invariant]
    spec fn inv(self) -> bool {
        self.phase.wf()
    }

    /// Where the stopwatch stands.
    pub closed spec fn spec_phase(&self) -> Phase {
        self.phase
    }

    /// The actions that start the stopwatch: the clock is set to no time
    /// elapsed and wakes the system periodically.
    pub open spec fn startup_actions() -> Seq<Action> {
        seq![Action::SetClock(epoch()), Action::EnableWakeup]
    }

    /// A stopwatch with time running, and the actions that start it.
    pub fn new() -> (r: (Self, Vec<Action>))
        ensures
            r.0.phase() == Phase::Running,
            r.1@ == Self::startup_actions(),
    {
        let mut actions: Vec<Action> = Vec::new();
        actions.push(Action::SetClock(RelTime::zero().raw()));
        actions.push(Action::EnableWakeup);
        assert(actions@ =~= Self::startup_actions());
        (Stopwatch { phase: Phase::Running }, actions)
    }

    /// Where the stopwatch stands.
    #[verifier::when_used_as_spec(spec_phase)]
    pub fn phase(&self) -> (phase: Phase)
        ensures
            phase == self.spec_phase(),
            phase.wf(),
    {
        proof {
            use_type_invariant(self);
        }
        self.phase
    }

    /// The elapsed time that is held while time stands still.
    pub fn stoptime(&self) -> (frozen: Option<RelTime>)
        ensures
            frozen == self.phase().stoptime(),
            frozen matches Some(t) ==> t.wf(),
    {
        proof {
            use_type_invariant(self);
        }
        match self.phase {
            Phase::Stopped(frozen) => Some(frozen),
            _ => None,
        }
    }

    /// Whether `event` may come now.
    pub fn accepts(&self, event: &Event) -> (r: bool)
        ensures
            r == self.phase().accepts(*event),
    {
        let idle: bool = match self.phase {
            Phase::Running => true,
            Phase::Stopped(_) => true,
            _ => false,
        };
        match event {
            Event::ClockRead(now) => !idle && now.year() == REFERENCE_YEAR,
            _ => idle,
        }
    }

    /// Takes `event` in: moves to the next phase and returns the actions to
    /// perform, in order.
    pub fn handle(&mut self, event: Event) -> (actions: Vec<Action>)
        requires
            old(self).phase().accepts(event),
        ensures
            (final(self).phase(), actions@) == old(self).phase().step(event),
    {
        proof {
            use_type_invariant(&*self);
        }
        let mut actions: Vec<Action> = Vec::new();
        match event {
            Event::Buttons { board, startstop } => {
                if board {
                    actions.push(Action::ClearBoardButton);
                }
                if startstop {
                    actions.push(Action::ClearStartStopButton);
                    match self.phase {
                        Phase::Stopped(frozen) => {
                            actions.push(Action::SetClock(frozen.raw()));
                            actions.push(Action::EnableWakeup);
                            self.phase = Phase::Running;
                        },
                        _ => {
                            actions.push(Action::DisableWakeup);
                            actions.push(Action::ReadClock);
                            self.phase = Phase::Stopping;
                        },
                    }
                }
            },
            Event::Wakeup => match self.phase {
                Phase::Stopped(frozen) => {
                    actions.push(Action::Render(frozen.raw()));
                },
                _ => {
                    actions.push(Action::ReadClock);
                    self.phase = Phase::Refreshing;
                },
            },
            Event::ClockRead(now) => match self.phase {
                Phase::Stopping => {
                    self.phase = Phase::Stopped(RelTime::from_raw(now));
                },
                _ => {
                    actions.push(Action::ClearWakeup);
                    actions.push(Action::Render(now));
                    self.phase = Phase::Running;
                },
            },
        }
        assert(actions@ =~= old(self).phase().step(event).1);
        actions
    }
}

} // verus!
