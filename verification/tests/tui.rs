use std::collections::VecDeque;
use std::io;
use testnice::log::{LogEntry, LogError};
use testnice::nice::GetniceError;
use testnice::sched::{Sched, SchedCreationError};
use testnice::style::Color;
use testnice::tui::{
    can_hold, layout, log_entries_shown, quits, Action, Area, Event, Input, PeriodicallyUpdate, Phase, Pixel,
    Step, Tui, TuiError, INPUT_POLL_TIMEOUT, LOGS_HEIGHT, LOG_ENTRIES_UPDATE_FREQ,
};

const MS: u64 = 1_000_000;

fn io_error() -> io::Error {
    io::Error::new(io::ErrorKind::Other, "broken")
}

fn quit() -> Event {
    Event::Input(Ok(Input::Key { pressed: true, character: Some('q') }))
}

fn entries(pids: &[i32]) -> VecDeque<LogEntry> {
    pids.iter().map(|pid| LogEntry { pid: *pid }).collect()
}

/// A dashboard that took over the terminal and waits for the clock.
fn running(now: u64) -> Tui {
    let mut tui = Tui::start(10, 20, now);
    assert_eq!(tui.action(), Action::InitTerminal);
    tui.handle(Event::TerminalReady(Ok(())));
    assert_eq!(tui.action(), Action::ReadClock);
    tui
}

/// Drives a stopping dashboard to its end and says what it did on the way.
fn run_down(tui: &mut Tui, restored: Result<(), io::Error>) -> Vec<Action> {
    let mut actions = Vec::new();
    let mut restored = Some(restored);
    loop {
        let action = tui.action();
        actions.push(action);
        match action {
            Action::Terminate { .. } => tui.handle(Event::Signalled),
            Action::RestoreTerminal => tui.handle(Event::Restored(restored.take().unwrap())),
            Action::Finish => return actions,
            other => panic!("{other:?} while stopping"),
        }
    }
}

const STOPPING: [Action; 4] = [
    Action::Terminate { pid: 10 },
    Action::Terminate { pid: 20 },
    Action::RestoreTerminal,
    Action::Finish,
];

#[test]
fn refresh_periods() {
    assert_eq!(LOG_ENTRIES_UPDATE_FREQ, 200 * MS);
    assert_eq!(INPUT_POLL_TIMEOUT, 250 * MS);
    let mut value: PeriodicallyUpdate<u32> = PeriodicallyUpdate::new(200 * MS, 1000);
    assert_eq!(value.val, 0);
    assert_eq!(value.freq, 200 * MS);
    assert_eq!(value.last_update, 1000);
    assert!(!value.should_update(1000));
    assert!(!value.should_update(999));
    assert!(!value.should_update(0));
    assert!(!value.should_update(1000 + 200 * MS));
    assert_eq!(value.last_update, 1000);
    assert!(value.should_update(1001 + 200 * MS));
    assert_eq!(value.last_update, 1001 + 200 * MS);
    assert!(!value.should_update(1001 + 400 * MS));
    assert!(value.should_update(u64::MAX));
    assert_eq!(value.last_update, u64::MAX);
    assert_eq!(value.val, 0);
}

#[test]
fn a_round_with_nothing_due() {
    let mut tui = running(0);
    assert_eq!(tui.phase(), Phase::Running);
    tui.handle(Event::Clock { now: 200 * MS, width: 80 });
    assert_eq!(tui.action(), Action::Draw);
    tui.handle(Event::Drawn(Ok(())));
    assert_eq!(tui.action(), Action::PollInput { timeout: 250 * MS });
    tui.handle(Event::Input(Ok(Input::Nothing)));
    assert_eq!(tui.action(), Action::ReadClock);
    assert_eq!(tui.phase(), Phase::Running);
    assert!(tui.log_entries.val.is_empty());
}

#[test]
fn a_round_with_everything_due() {
    let mut tui = running(5);
    tui.handle(Event::Clock { now: 6 + 200 * MS, width: 80 });
    assert_eq!(tui.action(), Action::ReadLog { count: 78 });
    tui.handle(Event::Log(Ok(entries(&[10, 20, 10]))));
    assert_eq!(tui.action(), Action::ReadSched { pid: 10 });
    let mut first = Sched::default();
    first.ni = -5;
    tui.handle(Event::Sched(Ok(first)));
    assert_eq!(tui.action(), Action::ReadSched { pid: 20 });
    let mut second = Sched::default();
    second.ni = 5;
    tui.handle(Event::Sched(Ok(second)));
    assert_eq!(tui.action(), Action::Draw);
    assert_eq!(tui.log_entries.val, entries(&[10, 20, 10]));
    assert_eq!(tui.sched1.val.ni, -5);
    assert_eq!(tui.sched2.val.ni, 5);
    for value in [tui.log_entries.last_update, tui.sched1.last_update, tui.sched2.last_update] {
        assert_eq!(value, 6 + 200 * MS);
    }
    tui.handle(Event::Drawn(Ok(())));
    tui.handle(Event::Input(Ok(Input::Key { pressed: true, character: Some('x') })));
    assert_eq!(tui.action(), Action::ReadClock);
    // Nothing is due again before the period has passed once more.
    tui.handle(Event::Clock { now: 6 + 400 * MS, width: 80 });
    assert_eq!(tui.action(), Action::Draw);
    tui.handle(Event::Drawn(Ok(())));
    tui.handle(Event::Input(Ok(Input::Nothing)));
    tui.handle(Event::Clock { now: 7 + 400 * MS, width: 1 });
    assert_eq!(tui.action(), Action::ReadLog { count: 0 });
}

#[test]
fn quit_stops_the_workers_and_restores_the_terminal() {
    let mut tui = running(0);
    tui.handle(Event::Clock { now: 1, width: 80 });
    tui.handle(Event::Drawn(Ok(())));
    tui.handle(quit());
    assert_eq!(tui.phase(), Phase::Stopping);
    assert_eq!(run_down(&mut tui, Ok(())), STOPPING.to_vec());
    assert_eq!(tui.phase(), Phase::Terminated);
    assert!(tui.into_result().is_ok());
}

#[test]
fn quit_after_a_failed_poll_still_cleans_up() {
    // The poll before the key fails: the dashboard stops at once, and the
    // key that comes after changes nothing.
    let mut tui = running(0);
    tui.handle(Event::Clock { now: 1 + 200 * MS, width: 80 });
    assert_eq!(tui.action(), Action::ReadLog { count: 78 });
    tui.handle(Event::Log(Err(LogError::Io(io_error()))));
    assert_eq!(tui.phase(), Phase::Stopping);
    tui.handle(quit());
    assert_eq!(run_down(&mut tui, Ok(())), STOPPING.to_vec());
    let result = tui.into_result();
    assert!(matches!(result, Err(TuiError::LogError(LogError::Io(_)))));
    assert_eq!(
        result.unwrap_err().to_string(),
        "while using shared logfile (maybe it was deleted?)"
    );
}

#[test]
fn every_failure_stops_the_workers_and_restores_the_terminal() {
    let failures: Vec<(Vec<Event>, &str)> = vec![
        (vec![Event::TerminalReady(Err(io_error()))], "something went wrong with the tui. probably restart"),
        (
            vec![
                Event::TerminalReady(Ok(())),
                Event::Clock { now: 300 * MS, width: 9 },
                Event::Log(Err(LogError::InvalidFormat)),
            ],
            "corrupted logfile",
        ),
        (
            vec![
                Event::TerminalReady(Ok(())),
                Event::Clock { now: 300 * MS, width: 9 },
                Event::Log(Ok(VecDeque::new())),
                Event::Sched(Err(SchedCreationError::FileError)),
            ],
            "could not read sched file",
        ),
        (
            vec![
                Event::TerminalReady(Ok(())),
                Event::Clock { now: 300 * MS, width: 9 },
                Event::Log(Ok(VecDeque::new())),
                Event::Sched(Ok(Sched::default())),
                Event::Sched(Err(SchedCreationError::GetniceError(GetniceError::Permission))),
            ],
            "user lacks permissions to /sched info",
        ),
        (
            vec![
                Event::TerminalReady(Ok(())),
                Event::Clock { now: 1, width: 9 },
                Event::Drawn(Err(io_error())),
            ],
            "something went wrong with the tui. probably restart",
        ),
        (
            vec![
                Event::TerminalReady(Ok(())),
                Event::Clock { now: 1, width: 9 },
                Event::Drawn(Ok(())),
                Event::Input(Err(io_error())),
            ],
            "something went wrong with the tui. probably restart",
        ),
    ];
    for (events, message) in failures {
        let mut tui = Tui::start(10, 20, 0);
        for event in events {
            assert_eq!(tui.phase(), Phase::Running);
            tui.handle(event);
        }
        assert_eq!(tui.phase(), Phase::Stopping);
        // Giving the terminal back fails too: the first failure is kept.
        assert_eq!(run_down(&mut tui, Err(io_error())), STOPPING.to_vec());
        assert_eq!(tui.into_result().unwrap_err().to_string(), message);
    }
}

#[test]
fn a_failure_to_restore_the_terminal_is_reported() {
    let mut tui = running(0);
    tui.handle(Event::Clock { now: 1, width: 80 });
    tui.handle(Event::Drawn(Ok(())));
    tui.handle(quit());
    assert_eq!(run_down(&mut tui, Err(io_error())), STOPPING.to_vec());
    assert!(matches!(tui.into_result(), Err(TuiError::Io(_))));
}

#[test]
fn terminated_is_final() {
    let mut tui = running(0);
    tui.handle(Event::Clock { now: 1, width: 80 });
    tui.handle(Event::Drawn(Ok(())));
    tui.handle(quit());
    run_down(&mut tui, Ok(()));
    for event in [
        Event::TerminalReady(Ok(())),
        Event::Clock { now: u64::MAX, width: 80 },
        Event::Log(Err(LogError::InvalidFormat)),
        Event::Sched(Err(SchedCreationError::FileError)),
        Event::Drawn(Err(io_error())),
        Event::Input(Ok(Input::Nothing)),
        Event::Signalled,
        Event::Restored(Err(io_error())),
    ] {
        tui.handle(event);
        assert_eq!(tui.step, Step::Done);
        assert_eq!(tui.action(), Action::Finish);
        assert!(tui.failure.is_none());
    }
}

#[test]
fn an_event_that_is_not_awaited_changes_nothing() {
    let mut tui = running(0);
    tui.handle(Event::Drawn(Err(io_error())));
    tui.handle(quit());
    tui.handle(Event::Signalled);
    tui.handle(Event::Log(Err(LogError::InvalidFormat)));
    assert_eq!(tui.step, Step::Clock);
    assert!(tui.failure.is_none());
}

#[test]
fn keys() {
    assert!(quits(Input::Key { pressed: true, character: Some('q') }));
    assert!(!quits(Input::Key { pressed: false, character: Some('q') }));
    assert!(!quits(Input::Key { pressed: true, character: Some('Q') }));
    assert!(!quits(Input::Key { pressed: true, character: None }));
    assert!(!quits(Input::Nothing));
}

#[test]
fn pixels() {
    let mut tui = Tui::start(10, 20, 0);
    let magenta = Some(Color::Rgb(255, 0, 255));
    let black = Some(Color::Black);
    assert_eq!(tui.fmt_pid_pixel(10, true), Pixel { text: "1", background: magenta, foreground: black });
    assert_eq!(tui.fmt_pid_pixel(10, false), Pixel { text: " ", background: magenta, foreground: black });
    assert_eq!(
        tui.fmt_pid_pixel(20, true),
        Pixel { text: "2", background: Some(Color::Yellow), foreground: black }
    );
    assert_eq!(
        tui.fmt_pid_pixel(20, false),
        Pixel { text: " ", background: Some(Color::Yellow), foreground: black }
    );
    assert_eq!(tui.fmt_pid_pixel(30, true), Pixel { text: "?", background: None, foreground: None });
    assert_eq!(tui.fmt_pid_pixel(30, false), Pixel { text: " ", background: None, foreground: None });
    assert_eq!(tui.frame_color(10), Color::Rgb(255, 0, 255));
    assert_eq!(tui.frame_color(20), Color::Yellow);
    assert_eq!(tui.frame_color(30), Color::Yellow);
    assert!(tui.log_pixels().is_empty());
    tui.log_entries.val = entries(&[20, 10, 30]);
    let backgrounds: Vec<Option<Color>> = tui.log_pixels().iter().map(|p| p.background).collect();
    assert_eq!(backgrounds, vec![Some(Color::Yellow), magenta, None]);
    assert!(tui.log_pixels().iter().all(|p| p.text == " "));
    // Where both processes are the same, the first colour wins.
    assert_eq!(Tui::start(5, 5, 0).fmt_pid_pixel(5, true).text, "1");
}

#[test]
fn layout_of_the_screen() {
    assert_eq!(LOGS_HEIGHT, 3);
    let found = layout(Area { x: 0, y: 0, width: 80, height: 24 });
    assert_eq!(found.logs, Area { x: 0, y: 0, width: 80, height: 3 });
    assert_eq!(found.sched1, Area { x: 0, y: 3, width: 40, height: 21 });
    assert_eq!(found.sched2, Area { x: 40, y: 3, width: 40, height: 21 });
    assert_eq!(found.sched1_width, 38);
    assert_eq!(found.sched2_width, 38);
    let found = layout(Area { x: 2, y: 1, width: 81, height: 3 });
    assert_eq!(found.logs, Area { x: 2, y: 1, width: 81, height: 3 });
    assert_eq!(found.sched1, Area { x: 2, y: 4, width: 40, height: 0 });
    assert_eq!(found.sched2, Area { x: 42, y: 4, width: 41, height: 0 });
    assert_eq!(found.sched2_width, 38);
    let found = layout(Area { x: 0, y: 0, width: 4, height: u16::MAX });
    assert_eq!(found.sched1_width, 0);
    assert_eq!(found.sched2.height, u16::MAX - 3);
    let found = layout(Area { x: 0, y: 0, width: u16::MAX, height: 10 });
    assert_eq!(found.sched2, Area { x: 32767, y: 3, width: 32768, height: 7 });
}

#[test]
fn frames_that_hold_the_dashboard() {
    assert!(can_hold(Area { x: 0, y: 0, width: 4, height: 3 }));
    assert!(can_hold(Area { x: 0, y: 0, width: u16::MAX, height: u16::MAX }));
    assert!(can_hold(Area { x: u16::MAX - 2, y: u16::MAX - 3, width: 4, height: 3 }));
    assert!(!can_hold(Area { x: 0, y: 0, width: 3, height: 3 }));
    assert!(!can_hold(Area { x: 0, y: 0, width: 4, height: 2 }));
    assert!(!can_hold(Area { x: u16::MAX - 1, y: 0, width: 4, height: 3 }));
    assert!(!can_hold(Area { x: 0, y: u16::MAX - 2, width: 4, height: 3 }));
}

#[test]
fn entries_shown() {
    assert_eq!(log_entries_shown(0), 0);
    assert_eq!(log_entries_shown(1), 0);
    assert_eq!(log_entries_shown(2), 0);
    assert_eq!(log_entries_shown(3), 1);
    assert_eq!(log_entries_shown(80), 78);
    assert_eq!(log_entries_shown(u16::MAX), 65533);
}

#[test]
fn tui_error_messages() {
    assert_eq!(
        TuiError::from(io_error()).to_string(),
        "something went wrong with the tui. probably restart"
    );
    assert_eq!(TuiError::from(LogError::InvalidFormat).to_string(), "corrupted logfile");
    assert_eq!(
        TuiError::from(SchedCreationError::UnexpectedFileFormat).to_string(),
        "sched file contained unexpected format"
    );
    assert!(matches!(TuiError::from(io_error()), TuiError::Io(_)));
    assert!(matches!(
        TuiError::from(SchedCreationError::FileError),
        TuiError::SchedCreationError(SchedCreationError::FileError)
    ));
}
