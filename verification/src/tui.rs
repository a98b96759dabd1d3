//! The dashboard: what it shows, and the order in which it does things.
//!
//! The dashboard itself touches neither terminal, file nor process. It is a
//! state that says what has to be done next (`Tui::action`) and takes what
//! came of it (`Tui::handle`). Whoever drives it does what it says, in a
//! loop, until it says `Finish`.

use crate::log::{LogEntry, LogError};
use crate::sched::{Sched, SchedCreationError};
use crate::style::Color;
use std::collections::VecDeque;
use vstd::prelude::*;

verus! {

/// How long a value that was read is shown before it is read again, in
/// nanoseconds.
pub const LOG_ENTRIES_UPDATE_FREQ: u64 = 200_000_000;

/// How long the dashboard waits for a key before it goes round again, in
/// nanoseconds.
pub const INPUT_POLL_TIMEOUT: u64 = 250_000_000;

/// The colour of the first process.
pub open spec fn p1_color() -> Color {
    Color::Rgb(255, 0, 255)
}

/// The colour of the second process.
pub open spec fn p2_color() -> Color {
    Color::Yellow
}

/// A value with the time at which it was last read, and how long it is
/// kept. Times are readings of one clock that never runs backward, in
/// nanoseconds.
pub struct PeriodicallyUpdate<T> {
    /// The value as it was last read.
    pub val: T,
    /// How long the value is kept.
    pub freq: u64,
    /// When the value was last read.
    pub last_update: u64,
}

impl<T> PeriodicallyUpdate<T> {
    /// Whether the value is due at `now`: more than `freq` has passed since
    /// it was last read.
    pub open spec fn due(&self, now: u64) -> bool {
        now > self.last_update && now - self.last_update > self.freq
    }

    /// Says whether the value is due at `now`, and if it is, takes `now` as
    /// the time at which it was read.
    pub fn should_update(&mut self, now: u64) -> (due: bool)
        ensures
            due == old(self).due(now),
            final(self).val == old(self).val,
            final(self).freq == old(self).freq,
            final(self).last_update == (if due {
                now
            } else {
                old(self).last_update
            }),
    {
        if now > self.last_update && now - self.last_update > self.freq {
            self.last_update = now;
            true
        } else {
            false
        }
    }
}

impl<T: Default> PeriodicallyUpdate<T> {
    /// A value that was not read yet: it is due once `freq` has passed
    /// since `now`.
    pub fn new(freq: u64, now: u64) -> (r: Self)
        ensures
            call_ensures(T::default, (), r.val),
            r.freq == freq,
            r.last_update == now,
    {
        Self { val: T::default(), freq, last_update: now }
    }
}

/// Why the dashboard stopped.
#[derive(Debug)]
pub enum TuiError {
    /// The terminal could not be used.
    Io(std::io::Error),
    /// The log could not be read.
    LogError(LogError),
    /// The statistics of a process could not be read.
    SchedCreationError(SchedCreationError),
}

impl vstd::std_specs::convert::FromSpecImpl<LogError> for TuiError {
    open spec fn obeys_from_spec() -> bool {
        true
    }

    open spec fn from_spec(value: LogError) -> Self {
        TuiError::LogError(value)
    }
}

impl From<LogError> for TuiError {
    fn from(value: LogError) -> (r: Self) {
        TuiError::LogError(value)
    }
}

impl vstd::std_specs::convert::FromSpecImpl<std::io::Error> for TuiError {
    open spec fn obeys_from_spec() -> bool {
        true
    }

    open spec fn from_spec(value: std::io::Error) -> Self {
        TuiError::Io(value)
    }
}

impl From<std::io::Error> for TuiError {
    fn from(value: std::io::Error) -> (r: Self) {
        TuiError::Io(value)
    }
}

impl vstd::std_specs::convert::FromSpecImpl<SchedCreationError> for TuiError {
    open spec fn obeys_from_spec() -> bool {
        true
    }

    open spec fn from_spec(value: SchedCreationError) -> Self {
        TuiError::SchedCreationError(value)
    }
}

impl From<SchedCreationError> for TuiError {
    fn from(value: SchedCreationError) -> (r: Self) {
        TuiError::SchedCreationError(value)
    }
}

impl TuiError {
    /// What to tell the user about this failure: for a failure of the log
    /// or of the statistics, what that failure says of itself.
    pub fn to_string(&self) -> (message: String)
        ensures
            self is Io ==> message@ == "something went wrong with the tui. probably restart"@,
            self matches TuiError::LogError(e) ==> (e is Io ==> message@
                == "while using shared logfile (maybe it was deleted?)"@) && (e is InvalidFormat
                ==> message@ == "corrupted logfile"@),
            self matches TuiError::SchedCreationError(e) ==> (e is FileError ==> message@
                == "could not read sched file"@) && (e is UnexpectedFileFormat ==> message@
                == "sched file contained unexpected format"@) && (e is GetniceError ==> message@
                == "user lacks permissions to /sched info"@),
    {
        match self {
            TuiError::Io(..) => "something went wrong with the tui. probably restart".to_owned(),
            TuiError::LogError(err) => err.to_string(),
            TuiError::SchedCreationError(err) => err.to_string(),
        }
    }
}

/// One cell of the short log: a character on a background.
#[derive(Debug, Clone, Copy, PartialEq, Eq)]
pub struct Pixel {
    /// What the cell shows.
    pub text: &'static str,
    /// The background, where the cell has one of its own.
    pub background: Option<Color>,
    /// The colour of the character, where the cell has one of its own.
    pub foreground: Option<Color>,
}

/// The cell that stands for a task completed by `pid`, where the two
/// processes shown are `pid1` and `pid2`: in the colour of the process,
/// with its number where `include_text` holds. A process that is neither
/// gets a plain cell, with a question mark in place of the number.
pub open spec fn pixel_for(pid1: i32, pid2: i32, pid: i32, include_text: bool) -> Pixel {
    if pid == pid1 {
        Pixel {
            text: if include_text {
                "1"
            } else {
                " "
            },
            background: Some(p1_color()),
            foreground: Some(Color::Black),
        }
    } else if pid == pid2 {
        Pixel {
            text: if include_text {
                "2"
            } else {
                " "
            },
            background: Some(p2_color()),
            foreground: Some(Color::Black),
        }
    } else {
        Pixel {
            text: if include_text {
                "?"
            } else {
                " "
            },
            background: None,
            foreground: None,
        }
    }
}

/// A rectangle of the terminal.
#[derive(Debug, Clone, Copy, PartialEq, Eq, Structural)]
pub struct Area {
    pub x: u16,
    pub y: u16,
    pub width: u16,
    pub height: u16,
}

/// Where the parts of the dashboard stand.
#[derive(Debug, Clone, Copy, PartialEq, Eq, Structural)]
pub struct Layout {
    /// The frame of the short log, across the top.
    pub logs: Area,
    /// The frame of the first process, below on the left.
    pub sched1: Area,
    /// The frame of the second process, below on the right.
    pub sched2: Area,
    /// How wide a line inside the frame of the first process is.
    pub sched1_width: usize,
    /// How wide a line inside the frame of the second process is.
    pub sched2_width: usize,
}

/// The height of the frame of the short log.
pub const LOGS_HEIGHT: u16 = 3;

/// Whether a terminal of this size can hold the dashboard: the short log
/// and something below it, and two frames side by side.
pub open spec fn fits(frame: Area) -> bool {
    &&& frame.height >= LOGS_HEIGHT
    &&& frame.width >= 4
    &&& frame.x + frame.width / 2 <= u16::MAX
    &&& frame.y + LOGS_HEIGHT <= u16::MAX
}

/// Where the parts of the dashboard stand in a terminal of size `frame`:
/// the short log takes the top three lines, and the two processes share
/// what is below, each half the width; where the width is odd the second
/// frame is one wider.
pub open spec fn layout_of(frame: Area) -> Layout {
    let half = (frame.width / 2) as u16;
    let below = (frame.height - LOGS_HEIGHT) as u16;
    let second = if frame.width % 2 == 1 {
        (half + 1) as u16
    } else {
        half
    };
    Layout {
        logs: Area { x: frame.x, y: frame.y, width: frame.width, height: LOGS_HEIGHT },
        sched1: Area {
            x: frame.x,
            y: (frame.y + LOGS_HEIGHT) as u16,
            width: half,
            height: below,
        },
        sched2: Area {
            x: (frame.x + half) as u16,
            y: (frame.y + LOGS_HEIGHT) as u16,
            width: second,
            height: below,
        },
        sched1_width: (half - 2) as usize,
        sched2_width: (half - 2) as usize,
    }
}

/// Whether a terminal of size `frame` can hold the dashboard.
pub fn can_hold(frame: Area) -> (r: bool)
    ensures
        r == fits(frame),
{
    frame.height >= LOGS_HEIGHT && frame.width >= 4 && frame.x <= u16::MAX - frame.width / 2
        && frame.y <= u16::MAX - LOGS_HEIGHT
}

/// Lays the dashboard out in a terminal of size `frame`.
pub fn layout(frame: Area) -> (r: Layout)
    requires
        fits(frame),
    ensures
        r == layout_of(frame),
{
    let half: u16 = frame.width / 2;
    let below: u16 = frame.height - LOGS_HEIGHT;
    let second: u16 = if frame.width % 2 == 1 {
        half + 1
    } else {
        half
    };
    Layout {
        logs: Area { x: frame.x, y: frame.y, width: frame.width, height: LOGS_HEIGHT },
        sched1: Area { x: frame.x, y: frame.y + LOGS_HEIGHT, width: half, height: below },
        sched2: Area { x: frame.x + half, y: frame.y + LOGS_HEIGHT, width: second, height: below },
        sched1_width: (half - 2) as usize,
        sched2_width: (half - 2) as usize,
    }
}

/// How many entries of the log a terminal `width` wide can show: one for
/// each cell inside the frame.
pub open spec fn log_capacity(width: u16) -> usize {
    if width >= 2 {
        (width - 2) as usize
    } else {
        0
    }
}

/// What the dashboard is waiting for.
#[derive(Debug, Clone, Copy, PartialEq, Eq, Structural)]
pub enum Step {
    /// The terminal is being taken over.
    Init,
    /// A round begins: the clock and the width of the terminal are read.
    Clock,
    /// The log is being read.
    PollLog,
    /// The statistics of the first process are being read.
    PollSched1,
    /// The statistics of the second process are being read.
    PollSched2,
    /// The screen is being drawn.
    Draw,
    /// A key is awaited.
    Input,
    /// The first process is being told to end.
    Kill1,
    /// The second process is being told to end.
    Kill2,
    /// The terminal is being given back.
    Restore,
    /// Nothing: the dashboard has ended.
    Done,
}

/// The three phases of the dashboard's life.
#[derive(Debug, Clone, Copy, PartialEq, Eq, Structural)]
pub enum Phase {
    Running,
    Stopping,
    Terminated,
}

/// The phase that a step belongs to.
pub open spec fn phase_of(step: Step) -> Phase {
    match step {
        Step::Kill1 | Step::Kill2 | Step::Restore => Phase::Stopping,
        Step::Done => Phase::Terminated,
        _ => Phase::Running,
    }
}

/// What has to be done next.
#[derive(Debug, Clone, Copy, PartialEq, Eq, Structural)]
pub enum Action {
    /// Take over the terminal: raw mode, alternate screen.
    InitTerminal,
    /// Read the clock and the width of the terminal.
    ReadClock,
    /// Read the newest `count` entries of the log.
    ReadLog { count: usize },
    /// Read the statistics of the process `pid`.
    ReadSched { pid: i32 },
    /// Draw the screen from what the dashboard holds.
    Draw,
    /// Wait for a key, `timeout` nanoseconds at most.
    PollInput { timeout: u64 },
    /// Send the process `pid` the signal to end, and do not wait for it.
    Terminate { pid: i32 },
    /// Give the terminal back as it was.
    RestoreTerminal,
    /// Leave, with what `Tui::into_result` says.
    Finish,
}

/// What the user did while the dashboard waited for a key.
#[derive(Debug, Clone, Copy, PartialEq, Eq, Structural)]
pub enum Input {
    /// Nothing, or nothing on the keyboard.
    Nothing,
    /// Something on the keyboard: `pressed` where a key went down, and the
    /// character of the key where it has one.
    Key { pressed: bool, character: Option<char> },
}

/// Whether `input` asks the dashboard to end: the key `q` went down.
pub open spec fn is_quit(input: Input) -> bool {
    input matches Input::Key { pressed, character } && pressed && character == Some('q')
}

/// What came of the last action.
#[derive(Debug)]
pub enum Event {
    /// The terminal was taken over, or could not be.
    TerminalReady(Result<(), std::io::Error>),
    /// The clock says `now`, and the terminal is `width` wide.
    Clock { now: u64, width: u16 },
    /// The log was read, or could not be.
    Log(Result<VecDeque<LogEntry>, LogError>),
    /// The statistics were read, or could not be.
    Sched(Result<Sched, SchedCreationError>),
    /// The screen was drawn, or could not be.
    Drawn(Result<(), std::io::Error>),
    /// The wait for a key ended, or failed.
    Input(Result<Input, std::io::Error>),
    /// The signal was sent, or could not be: it makes no difference.
    Signalled,
    /// The terminal was given back, or could not be.
    Restored(Result<(), std::io::Error>),
}

/// The state of the dashboard.
pub struct Tui {
    /// The first process shown.
    pub pid1: i32,
    /// The second process shown.
    pub pid2: i32,
    /// The newest entries of the log.
    pub log_entries: PeriodicallyUpdate<VecDeque<LogEntry>>,
    /// The statistics of the first process.
    pub sched1: PeriodicallyUpdate<Sched>,
    /// The statistics of the second process.
    pub sched2: PeriodicallyUpdate<Sched>,
    /// What the dashboard is waiting for.
    pub step: Step,
    /// The time at which this round began.
    pub now: u64,
    /// The width of the terminal in this round.
    pub width: u16,
    /// Why the dashboard is ending, where it is not the user who ended it.
    pub failure: Option<TuiError>,
}

impl Tui {
    /// This state at another step.
    pub open spec fn at(self, step: Step) -> Tui {
        Tui { step, ..self }
    }

    /// The state after a failure: the dashboard begins to stop, and keeps
    /// the reason.
    pub open spec fn failed(self, error: TuiError) -> Tui {
        Tui { step: Step::Kill1, failure: Some(error), ..self }
    }

    /// Goes on to the second process's statistics if they are due, or else
    /// to drawing.
    pub open spec fn from_sched2(self) -> Tui {
        if self.sched2.due(self.now) {
            Tui {
                step: Step::PollSched2,
                sched2: PeriodicallyUpdate { last_update: self.now, ..self.sched2 },
                ..self
            }
        } else {
            self.at(Step::Draw)
        }
    }

    /// Goes on to the first process's statistics if they are due, or else
    /// to what follows them.
    pub open spec fn from_sched1(self) -> Tui {
        if self.sched1.due(self.now) {
            Tui {
                step: Step::PollSched1,
                sched1: PeriodicallyUpdate { last_update: self.now, ..self.sched1 },
                ..self
            }
        } else {
            self.from_sched2()
        }
    }

    /// Goes on to the log if it is due, or else to what follows it.
    pub open spec fn from_log(self) -> Tui {
        if self.log_entries.due(self.now) {
            Tui {
                step: Step::PollLog,
                log_entries: PeriodicallyUpdate { last_update: self.now, ..self.log_entries },
                ..self
            }
        } else {
            self.from_sched1()
        }
    }

    /// The state that follows this one when `event` comes in.
    ///
    /// While it runs, the dashboard goes round: clock, then each of the
    /// log and the two processes' statistics that is due, then the screen,
    /// then the keyboard. Any failure, and the key `q`, make it stop: it
    /// tells both processes to end, gives the terminal back, and is done.
    /// An event that is not what the dashboard is waiting for changes
    /// nothing; once done, nothing changes any more.
    pub open spec fn after(self, event: Event) -> Tui {
        match (self.step, event) {
            (Step::Init, Event::TerminalReady(Ok(_))) => self.at(Step::Clock),
            (Step::Init, Event::TerminalReady(Err(e))) => self.failed(TuiError::Io(e)),
            (Step::Clock, Event::Clock { now, width }) => (Tui { now, width, ..self }).from_log(),
            (Step::PollLog, Event::Log(Ok(entries))) => (Tui {
                log_entries: PeriodicallyUpdate { val: entries, ..self.log_entries },
                ..self
            }).from_sched1(),
            (Step::PollLog, Event::Log(Err(e))) => self.failed(TuiError::LogError(e)),
            (Step::PollSched1, Event::Sched(Ok(sched))) => (Tui {
                sched1: PeriodicallyUpdate { val: sched, ..self.sched1 },
                ..self
            }).from_sched2(),
            (Step::PollSched1, Event::Sched(Err(e))) => self.failed(
                TuiError::SchedCreationError(e),
            ),
            (Step::PollSched2, Event::Sched(Ok(sched))) => (Tui {
                sched2: PeriodicallyUpdate { val: sched, ..self.sched2 },
                ..self
            }).at(Step::Draw),
            (Step::PollSched2, Event::Sched(Err(e))) => self.failed(
                TuiError::SchedCreationError(e),
            ),
            (Step::Draw, Event::Drawn(Ok(_))) => self.at(Step::Input),
            (Step::Draw, Event::Drawn(Err(e))) => self.failed(TuiError::Io(e)),
            (Step::Input, Event::Input(Ok(input))) => if is_quit(input) {
                self.at(Step::Kill1)
            } else {
                self.at(Step::Clock)
            },
            (Step::Input, Event::Input(Err(e))) => self.failed(TuiError::Io(e)),
            (Step::Kill1, Event::Signalled) => self.at(Step::Kill2),
            (Step::Kill2, Event::Signalled) => self.at(Step::Restore),
            (Step::Restore, Event::Restored(Ok(_))) => self.at(Step::Done),
            (Step::Restore, Event::Restored(Err(e))) => if self.failure is None {
                Tui { step: Step::Done, failure: Some(TuiError::Io(e)), ..self }
            } else {
                self.at(Step::Done)
            },
            _ => self,
        }
    }

    /// What has to be done at this step.
    pub open spec fn action_of(self) -> Action {
        match self.step {
            Step::Init => Action::InitTerminal,
            Step::Clock => Action::ReadClock,
            Step::PollLog => Action::ReadLog { count: log_capacity(self.width) },
            Step::PollSched1 => Action::ReadSched { pid: self.pid1 },
            Step::PollSched2 => Action::ReadSched { pid: self.pid2 },
            Step::Draw => Action::Draw,
            Step::Input => Action::PollInput { timeout: INPUT_POLL_TIMEOUT },
            Step::Kill1 => Action::Terminate { pid: self.pid1 },
            Step::Kill2 => Action::Terminate { pid: self.pid2 },
            Step::Restore => Action::RestoreTerminal,
            Step::Done => Action::Finish,
        }
    }
}

/// How many entries of the log a terminal `width` wide can show.
pub fn log_entries_shown(width: u16) -> (count: usize)
    ensures
        count == log_capacity(width),
{
    if width >= 2 {
        (width - 2) as usize
    } else {
        0
    }
}

/// Whether `input` asks the dashboard to end.
pub fn quits(input: Input) -> (quit: bool)
    ensures
        quit == is_quit(input),
{
    match input {
        Input::Key { pressed, character } => pressed && character == Some('q'),
        Input::Nothing => false,
    }
}

impl Tui {
    /// The dashboard for the processes `pid1` and `pid2`, begun at `now`:
    /// nothing was read yet, and nothing is read before the refresh period
    /// has passed.
    pub fn start(pid1: i32, pid2: i32, now: u64) -> (tui: Tui)
        ensures
            tui.pid1 == pid1,
            tui.pid2 == pid2,
            tui.step == Step::Init,
            tui.failure is None,
            tui.log_entries.val@ == Seq::<LogEntry>::empty(),
            tui.log_entries.freq == LOG_ENTRIES_UPDATE_FREQ,
            tui.log_entries.last_update == now,
            tui.sched1.val.is_blank(),
            tui.sched1.freq == LOG_ENTRIES_UPDATE_FREQ,
            tui.sched1.last_update == now,
            tui.sched2.val.is_blank(),
            tui.sched2.freq == LOG_ENTRIES_UPDATE_FREQ,
            tui.sched2.last_update == now,
            tui.now == now,
            tui.width == 0,
    {
        Tui {
            pid1,
            pid2,
            log_entries: PeriodicallyUpdate::new(LOG_ENTRIES_UPDATE_FREQ, now),
            sched1: PeriodicallyUpdate::new(LOG_ENTRIES_UPDATE_FREQ, now),
            sched2: PeriodicallyUpdate::new(LOG_ENTRIES_UPDATE_FREQ, now),
            step: Step::Init,
            now,
            width: 0,
            failure: None,
        }
    }

    /// What has to be done next.
    pub fn action(&self) -> (action: Action)
        ensures
            action == self.action_of(),
    {
        match self.step {
            Step::Init => Action::InitTerminal,
            Step::Clock => Action::ReadClock,
            Step::PollLog => Action::ReadLog { count: log_entries_shown(self.width) },
            Step::PollSched1 => Action::ReadSched { pid: self.pid1 },
            Step::PollSched2 => Action::ReadSched { pid: self.pid2 },
            Step::Draw => Action::Draw,
            Step::Input => Action::PollInput { timeout: INPUT_POLL_TIMEOUT },
            Step::Kill1 => Action::Terminate { pid: self.pid1 },
            Step::Kill2 => Action::Terminate { pid: self.pid2 },
            Step::Restore => Action::RestoreTerminal,
            Step::Done => Action::Finish,
        }
    }

    /// The phase that the dashboard is in.
    pub fn phase(&self) -> (phase: Phase)
        ensures
            phase == phase_of(self.step),
    {
        match self.step {
            Step::Kill1 | Step::Kill2 | Step::Restore => Phase::Stopping,
            Step::Done => Phase::Terminated,
            _ => Phase::Running,
        }
    }

    /// Begins to stop because of `error`.
    fn fail(&mut self, error: TuiError)
        ensures
            *final(self) == old(self).failed(error),
    {
        self.failure = Some(error);
        self.step = Step::Kill1;
    }

    /// Goes on to the second process's statistics, or to drawing.
    fn go_from_sched2(&mut self)
        ensures
            *final(self) == old(self).from_sched2(),
    {
        let now: u64 = self.now;
        if self.sched2.should_update(now) {
            self.step = Step::PollSched2;
        } else {
            self.step = Step::Draw;
        }
    }

    /// Goes on to the first process's statistics, or to what follows.
    fn go_from_sched1(&mut self)
        ensures
            *final(self) == old(self).from_sched1(),
    {
        let now: u64 = self.now;
        if self.sched1.should_update(now) {
            self.step = Step::PollSched1;
        } else {
            self.go_from_sched2();
        }
    }

    /// Goes on to the log, or to what follows.
    fn go_from_log(&mut self)
        ensures
            *final(self) == old(self).from_log(),
    {
        let now: u64 = self.now;
        if self.log_entries.should_update(now) {
            self.step = Step::PollLog;
        } else {
            self.go_from_sched1();
        }
    }

    /// Takes what came of the last action, and moves on.
    pub fn handle(&mut self, event: Event)
        ensures
            *final(self) == old(self).after(event),
    {
        match (self.step, event) {
            (Step::Init, Event::TerminalReady(Ok(_))) => {
                self.step = Step::Clock;
            },
            (Step::Init, Event::TerminalReady(Err(e))) => {
                self.fail(TuiError::Io(e));
            },
            (Step::Clock, Event::Clock { now, width }) => {
                self.now = now;
                self.width = width;
                self.go_from_log();
            },
            (Step::PollLog, Event::Log(Ok(entries))) => {
                self.log_entries.val = entries;
                self.go_from_sched1();
            },
            (Step::PollLog, Event::Log(Err(e))) => {
                self.fail(TuiError::LogError(e));
            },
            (Step::PollSched1, Event::Sched(Ok(sched))) => {
                self.sched1.val = sched;
                self.go_from_sched2();
            },
            (Step::PollSched1, Event::Sched(Err(e))) => {
                self.fail(TuiError::SchedCreationError(e));
            },
            (Step::PollSched2, Event::Sched(Ok(sched))) => {
                self.sched2.val = sched;
                self.step = Step::Draw;
            },
            (Step::PollSched2, Event::Sched(Err(e))) => {
                self.fail(TuiError::SchedCreationError(e));
            },
            (Step::Draw, Event::Drawn(Ok(_))) => {
                self.step = Step::Input;
            },
            (Step::Draw, Event::Drawn(Err(e))) => {
                self.fail(TuiError::Io(e));
            },
            (Step::Input, Event::Input(Ok(input))) => {
                if quits(input) {
                    self.step = Step::Kill1;
                } else {
                    self.step = Step::Clock;
                }
            },
            (Step::Input, Event::Input(Err(e))) => {
                self.fail(TuiError::Io(e));
            },
            (Step::Kill1, Event::Signalled) => {
                self.step = Step::Kill2;
            },
            (Step::Kill2, Event::Signalled) => {
                self.step = Step::Restore;
            },
            (Step::Restore, Event::Restored(Ok(_))) => {
                self.step = Step::Done;
            },
            (Step::Restore, Event::Restored(Err(e))) => {
                if self.failure.is_none() {
                    self.failure = Some(TuiError::Io(e));
                }
                self.step = Step::Done;
            },
            _ => {},
        }
    }

    /// How the dashboard ended: with the failure that made it stop, if
    /// there was one.
    pub fn into_result(self) -> (r: Result<(), TuiError>)
        ensures
            r == (match self.failure {
                Some(e) => Err::<(), TuiError>(e),
                None => Ok::<(), TuiError>(()),
            }),
    {
        match self.failure {
            Some(e) => Err(e),
            None => Ok(()),
        }
    }

    /// The cell that stands for a task completed by `pid`.
    pub fn fmt_pid_pixel(&self, pid: i32, include_text: bool) -> (pixel: Pixel)
        ensures
            pixel == pixel_for(self.pid1, self.pid2, pid, include_text),
    {
        if pid == self.pid1 {
            Pixel {
                text: if include_text {
                    "1"
                } else {
                    " "
                },
                background: Some(Color::Rgb(255, 0, 255)),
                foreground: Some(Color::Black),
            }
        } else if pid == self.pid2 {
            Pixel {
                text: if include_text {
                    "2"
                } else {
                    " "
                },
                background: Some(Color::Yellow),
                foreground: Some(Color::Black),
            }
        } else {
            Pixel {
                text: if include_text {
                    "?"
                } else {
                    " "
                },
                background: None,
                foreground: None,
            }
        }
    }

    /// The cells of the short log: one for each entry held, oldest first,
    /// in the colour of its process and without a character.
    pub fn log_pixels(&self) -> (pixels: Vec<Pixel>)
        ensures
            pixels@.len() == self.log_entries.val@.len(),
            forall|i: int|
                0 <= i < pixels@.len() ==> #[trigger] pixels@[i] == pixel_for(
                    self.pid1,
                    self.pid2,
                    self.log_entries.val@[i].pid,
                    false,
                ),
    {
        let mut pixels: Vec<Pixel> = Vec::new();
        let n: usize = self.log_entries.val.len();
        let mut i: usize = 0;
        while i < n
            invariant
                i <= n,
                n == self.log_entries.val@.len(),
                pixels@.len() == i,
                forall|j: int|
                    0 <= j < i ==> #[trigger] pixels@[j] == pixel_for(
                        self.pid1,
                        self.pid2,
                        self.log_entries.val@[j].pid,
                        false,
                    ),
            decreases n - i,
        {
            let entry: &LogEntry = &self.log_entries.val[i];
            pixels.push(self.fmt_pid_pixel(entry.pid, false));
            i = i + 1;
        }
        pixels
    }

    /// The colour of the frame of the process `pid`: that of the first
    /// process for the first, that of the second for any other.
    pub fn frame_color(&self, pid: i32) -> (color: Color)
        ensures
            color == (if pid == self.pid1 {
                p1_color()
            } else {
                p2_color()
            }),
    {
        if pid == self.pid1 {
            Color::Rgb(255, 0, 255)
        } else {
            Color::Yellow
        }
    }
}

/// The failure that `event` reports, if it reports one.
pub open spec fn failure_in(event: Event) -> Option<TuiError> {
    match event {
        Event::TerminalReady(Err(e)) => Some(TuiError::Io(e)),
        Event::Log(Err(e)) => Some(TuiError::LogError(e)),
        Event::Sched(Err(e)) => Some(TuiError::SchedCreationError(e)),
        Event::Drawn(Err(e)) => Some(TuiError::Io(e)),
        Event::Input(Err(e)) => Some(TuiError::Io(e)),
        Event::Restored(Err(e)) => Some(TuiError::Io(e)),
        _ => None,
    }
}

/// Whether `event` is what the dashboard waits for at `step`.
pub open spec fn awaited(step: Step, event: Event) -> bool {
    match (step, event) {
        (Step::Init, Event::TerminalReady(_)) => true,
        (Step::Clock, Event::Clock { .. }) => true,
        (Step::PollLog, Event::Log(_)) => true,
        (Step::PollSched1, Event::Sched(_)) => true,
        (Step::PollSched2, Event::Sched(_)) => true,
        (Step::Draw, Event::Drawn(_)) => true,
        (Step::Input, Event::Input(_)) => true,
        (Step::Kill1, Event::Signalled) => true,
        (Step::Kill2, Event::Signalled) => true,
        (Step::Restore, Event::Restored(_)) => true,
        _ => false,
    }
}

/// Once the dashboard has ended, nothing changes it.
pub proof fn lemma_terminated_is_final(tui: Tui, event: Event)
    requires
        tui.step == Step::Done,
    ensures
        tui.after(event) == tui,
{
}

/// While the dashboard runs, any failure of what it waits for makes it
/// stop, and that failure is what it keeps.
pub proof fn lemma_failure_stops(tui: Tui, event: Event)
    requires
        phase_of(tui.step) == Phase::Running,
        awaited(tui.step, event),
        failure_in(event) is Some,
    ensures
        tui.after(event).step == Step::Kill1,
        tui.after(event).failure == failure_in(event),
        tui.after(event).pid1 == tui.pid1,
        tui.after(event).pid2 == tui.pid2,
{
}

/// The key `q` makes the dashboard stop, and is no failure.
pub proof fn lemma_quit_stops(tui: Tui, input: Input)
    requires
        tui.step == Step::Input,
        is_quit(input),
    ensures
        tui.after(Event::Input(Ok(input))).step == Step::Kill1,
        tui.after(Event::Input(Ok(input))).failure == tui.failure,
{
}

/// The dashboard keeps running only on good news: where it waited for
/// `event` while running and runs on, `event` reported no failure and was
/// not the key `q`.
pub proof fn lemma_runs_on_good_news(tui: Tui, event: Event)
    requires
        phase_of(tui.step) == Phase::Running,
        awaited(tui.step, event),
        phase_of(tui.after(event).step) == Phase::Running,
    ensures
        failure_in(event) is None,
        event matches Event::Input(Ok(input)) ==> !is_quit(input),
{
}

/// From where it begins to stop, the dashboard tells the first process to
/// end, then the second, then gives the terminal back, whatever comes of
/// each, and has then ended. It ends with the failure that made it stop;
/// had there been none, with that of giving the terminal back, if any.
pub proof fn lemma_stop_runs_to_end(tui: Tui, restored: Result<(), std::io::Error>)
    requires
        tui.step == Step::Kill1,
    ensures
        ({
            let second = tui.after(Event::Signalled);
            let third = second.after(Event::Signalled);
            let last = third.after(Event::Restored(restored));
            &&& tui.action_of() == (Action::Terminate { pid: tui.pid1 })
            &&& second.action_of() == (Action::Terminate { pid: tui.pid2 })
            &&& third.action_of() == Action::RestoreTerminal
            &&& last.action_of() == Action::Finish
            &&& last.failure == (if tui.failure is Some {
                tui.failure
            } else {
                failure_in(Event::Restored(restored))
            })
        }),
{
}

/// The dashboard ends only after it gave the terminal back, gives it back
/// only after it told the second process to end, and tells the second only
/// after the first. Its phases follow one another and never come again,
/// the two processes stay the same, and the failure that made it stop is
/// kept.
pub proof fn lemma_stops_in_order(tui: Tui, event: Event)
    ensures
        ({
            let next = tui.after(event);
            &&& next.step == Step::Done ==> tui.step == Step::Done || tui.step == Step::Restore
            &&& next.step == Step::Restore ==> tui.step == Step::Restore || tui.step == Step::Kill2
            &&& next.step == Step::Kill2 ==> tui.step == Step::Kill2 || tui.step == Step::Kill1
            &&& phase_of(tui.step) == Phase::Stopping ==> phase_of(next.step) != Phase::Running
            &&& phase_of(tui.step) == Phase::Terminated ==> phase_of(next.step) == Phase::Terminated
            &&& next.pid1 == tui.pid1
            &&& next.pid2 == tui.pid2
            &&& phase_of(tui.step) != Phase::Running && tui.failure is Some ==> next.failure
                == tui.failure
        }),
{
}

} // verus!
