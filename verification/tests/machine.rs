use stopwatch::machine::WAKEUP_PERIOD_SECONDS;
use stopwatch::{Action, DateTime, Event, Phase, RelTime, Stopwatch};

const PRESS: Event = Event::Buttons { board: false, startstop: true };

fn stamp(ordinal: u16, hour: u8, minute: u8, second: u8) -> DateTime {
    DateTime::new(1970, ordinal, hour, minute, second, 0).unwrap()
}

/// A clock that holds what it was set to and does not tick.
struct StillClock {
    now: DateTime,
    wakeup: bool,
    wakeup_pending: bool,
}

/// Runs one handler: performs the actions on the clock, answers a read with
/// what the clock holds, and returns everything that was asked for.
fn run(stopwatch: &mut Stopwatch, clock: &mut StillClock, event: Event) -> Vec<Action> {
    assert!(stopwatch.accepts(&event));
    let mut all = Vec::new();
    let mut actions = stopwatch.handle(event);
    loop {
        let mut read = false;
        for action in &actions {
            assert!(!read);
            match action {
                Action::SetClock(now) => clock.now = *now,
                Action::EnableWakeup => clock.wakeup = true,
                Action::DisableWakeup => clock.wakeup = false,
                Action::ClearWakeup => clock.wakeup_pending = false,
                Action::ReadClock => read = true,
                _ => {}
            }
        }
        all.append(&mut actions);
        if !read {
            return all;
        }
        let answer = Event::ClockRead(clock.now);
        assert!(stopwatch.accepts(&answer));
        actions = stopwatch.handle(answer);
    }
}

fn started() -> (Stopwatch, StillClock) {
    let (stopwatch, actions) = Stopwatch::new();
    let mut clock = StillClock { now: stamp(300, 1, 2, 3), wakeup: false, wakeup_pending: false };
    for action in actions {
        match action {
            Action::SetClock(now) => clock.now = now,
            Action::EnableWakeup => clock.wakeup = true,
            other => panic!("{:?}", other),
        }
    }
    (stopwatch, clock)
}

#[test]
fn the_wakeup_comes_every_second() {
    assert_eq!(WAKEUP_PERIOD_SECONDS, 1);
}

#[test]
fn new_runs_from_zero() {
    let (stopwatch, actions) = Stopwatch::new();
    assert_eq!(stopwatch.phase(), Phase::Running);
    assert_eq!(stopwatch.stoptime(), None);
    assert_eq!(actions, vec![Action::SetClock(RelTime::zero().raw()), Action::EnableWakeup]);
}

#[test]
fn press_while_running_stops_the_wakeup_and_asks_for_the_clock() {
    let (mut stopwatch, _) = Stopwatch::new();
    let actions = stopwatch.handle(PRESS);
    assert_eq!(
        actions,
        vec![Action::ClearStartStopButton, Action::DisableWakeup, Action::ReadClock]
    );
    assert_eq!(stopwatch.phase(), Phase::Stopping);
    assert_eq!(stopwatch.stoptime(), None);
}

#[test]
fn the_clocks_answer_to_a_press_is_held() {
    let (mut stopwatch, _) = Stopwatch::new();
    stopwatch.handle(PRESS);
    let actions = stopwatch.handle(Event::ClockRead(stamp(1, 0, 1, 5)));
    assert_eq!(actions, vec![]);
    assert_eq!(stopwatch.phase(), Phase::Stopped(RelTime::from_raw(stamp(1, 0, 1, 5))));
    assert_eq!(stopwatch.stoptime().unwrap().seconds(), 65);
}

#[test]
fn press_while_stopped_sets_the_clock_and_wakes_again() {
    let (mut stopwatch, _) = Stopwatch::new();
    stopwatch.handle(PRESS);
    stopwatch.handle(Event::ClockRead(stamp(2, 3, 4, 5)));
    let actions = stopwatch.handle(PRESS);
    assert_eq!(
        actions,
        vec![
            Action::ClearStartStopButton,
            Action::SetClock(stamp(2, 3, 4, 5)),
            Action::EnableWakeup
        ]
    );
    assert_eq!(stopwatch.phase(), Phase::Running);
    assert_eq!(stopwatch.stoptime(), None);
}

#[test]
fn wakeup_while_running_reads_the_clock_then_clears_and_renders() {
    let (mut stopwatch, _) = Stopwatch::new();
    assert_eq!(stopwatch.handle(Event::Wakeup), vec![Action::ReadClock]);
    assert_eq!(stopwatch.phase(), Phase::Refreshing);
    let actions = stopwatch.handle(Event::ClockRead(stamp(1, 0, 0, 42)));
    assert_eq!(actions, vec![Action::ClearWakeup, Action::Render(stamp(1, 0, 0, 42))]);
    assert_eq!(stopwatch.phase(), Phase::Running);
}

#[test]
fn wakeup_while_stopped_renders_what_is_held_and_leaves_the_clock_alone() {
    let (mut stopwatch, _) = Stopwatch::new();
    stopwatch.handle(PRESS);
    stopwatch.handle(Event::ClockRead(stamp(1, 0, 0, 7)));
    let actions = stopwatch.handle(Event::Wakeup);
    assert_eq!(actions, vec![Action::Render(stamp(1, 0, 0, 7))]);
    assert_eq!(stopwatch.phase(), Phase::Stopped(RelTime::from_raw(stamp(1, 0, 0, 7))));
}

#[test]
fn the_board_button_is_cleared_and_nothing_else() {
    let (mut stopwatch, _) = Stopwatch::new();
    let actions = stopwatch.handle(Event::Buttons { board: true, startstop: false });
    assert_eq!(actions, vec![Action::ClearBoardButton]);
    assert_eq!(stopwatch.phase(), Phase::Running);
    stopwatch.handle(PRESS);
    stopwatch.handle(Event::ClockRead(stamp(1, 0, 0, 7)));
    let held = stopwatch.phase();
    let actions = stopwatch.handle(Event::Buttons { board: true, startstop: false });
    assert_eq!(actions, vec![Action::ClearBoardButton]);
    assert_eq!(stopwatch.phase(), held);
}

#[test]
fn both_buttons_at_once_are_both_cleared() {
    let (mut stopwatch, _) = Stopwatch::new();
    let actions = stopwatch.handle(Event::Buttons { board: true, startstop: true });
    assert_eq!(
        actions,
        vec![
            Action::ClearBoardButton,
            Action::ClearStartStopButton,
            Action::DisableWakeup,
            Action::ReadClock
        ]
    );
}

#[test]
fn a_button_interrupt_with_nothing_pending_asks_for_nothing() {
    let (mut stopwatch, _) = Stopwatch::new();
    let actions = stopwatch.handle(Event::Buttons { board: false, startstop: false });
    assert_eq!(actions, vec![]);
    assert_eq!(stopwatch.phase(), Phase::Running);
}

#[test]
fn accepts_follows_the_phase() {
    let (mut stopwatch, _) = Stopwatch::new();
    let answer = Event::ClockRead(stamp(1, 0, 0, 0));
    assert!(stopwatch.accepts(&PRESS));
    assert!(stopwatch.accepts(&Event::Wakeup));
    assert!(!stopwatch.accepts(&answer));
    stopwatch.handle(PRESS);
    assert!(!stopwatch.accepts(&PRESS));
    assert!(!stopwatch.accepts(&Event::Wakeup));
    assert!(stopwatch.accepts(&answer));
    stopwatch.handle(answer);
    assert!(stopwatch.accepts(&PRESS));
    assert!(stopwatch.accepts(&Event::Wakeup));
    assert!(!stopwatch.accepts(&answer));
    stopwatch.handle(PRESS);
    stopwatch.handle(Event::Wakeup);
    assert!(!stopwatch.accepts(&Event::Wakeup));
    assert!(stopwatch.accepts(&answer));
}

#[test]
fn accepts_no_clock_outside_the_reference_year() {
    let (mut stopwatch, _) = Stopwatch::new();
    stopwatch.handle(PRESS);
    let late = DateTime::new(1971, 1, 0, 0, 0, 0).unwrap();
    assert!(!stopwatch.accepts(&Event::ClockRead(late)));
    let early = DateTime::new(1969, 365, 23, 59, 59, 0).unwrap();
    assert!(!stopwatch.accepts(&Event::ClockRead(early)));
}

#[test]
fn the_wakeup_is_on_exactly_while_time_runs() {
    let (mut stopwatch, mut clock) = started();
    assert!(clock.wakeup);
    run(&mut stopwatch, &mut clock, PRESS);
    assert!(!clock.wakeup);
    run(&mut stopwatch, &mut clock, PRESS);
    assert!(clock.wakeup);
}

#[test]
fn stop_start_stop_keeps_the_elapsed_seconds() {
    let (mut stopwatch, mut clock) = started();
    clock.now = stamp(1, 2, 46, 40);
    run(&mut stopwatch, &mut clock, PRESS);
    let before = stopwatch.stoptime().unwrap();
    assert_eq!(before.seconds(), 10_000);
    // whatever the clock did while time stood still is of no account
    clock.now = stamp(9, 9, 9, 9);
    run(&mut stopwatch, &mut clock, PRESS);
    assert_eq!(stopwatch.phase(), Phase::Running);
    assert_eq!(clock.now, before.raw());
    run(&mut stopwatch, &mut clock, PRESS);
    let after = stopwatch.stoptime().unwrap();
    assert_eq!(after.seconds(), 10_000);
    assert_eq!(after, before);
}

#[test]
fn a_toggle_does_not_change_what_a_wakeup_renders() {
    let (mut stopwatch, mut clock) = started();
    clock.now = stamp(1, 0, 20, 34);
    let expected = vec![Action::Render(stamp(1, 0, 20, 34))];
    let rendered = |actions: Vec<Action>| -> Vec<Action> {
        actions.into_iter().filter(|a| matches!(a, Action::Render(_))).collect()
    };
    assert_eq!(rendered(run(&mut stopwatch, &mut clock, Event::Wakeup)), expected);
    run(&mut stopwatch, &mut clock, PRESS);
    assert_eq!(rendered(run(&mut stopwatch, &mut clock, Event::Wakeup)), expected);
    run(&mut stopwatch, &mut clock, PRESS);
    assert_eq!(rendered(run(&mut stopwatch, &mut clock, Event::Wakeup)), expected);
}

#[test]
fn a_wakeup_clears_its_flag_while_time_runs() {
    let (mut stopwatch, mut clock) = started();
    clock.wakeup_pending = true;
    run(&mut stopwatch, &mut clock, Event::Wakeup);
    assert!(!clock.wakeup_pending);
}

#[test]
fn time_runs_on_from_where_it_stood() {
    let (mut stopwatch, mut clock) = started();
    clock.now = stamp(1, 0, 0, 30);
    run(&mut stopwatch, &mut clock, PRESS);
    run(&mut stopwatch, &mut clock, PRESS);
    // ten seconds pass on the clock
    let mut ticking = RelTime::from_raw(clock.now);
    for _ in 0..10 {
        ticking.add_second();
    }
    clock.now = ticking.raw();
    let actions = run(&mut stopwatch, &mut clock, Event::Wakeup);
    assert_eq!(
        actions,
        vec![Action::ReadClock, Action::ClearWakeup, Action::Render(stamp(1, 0, 0, 40))]
    );
}
