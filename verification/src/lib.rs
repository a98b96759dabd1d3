//! Scheduling-priority demonstration: a shared append log with a reverse tail
//! reader, a parser for per-process scheduler statistics, and the control
//! state of the dashboard that shows both.
//!
//! Nothing here touches a file, a process or a terminal: the library says
//! what is to be written, read or done, and what follows from what came
//! back.

pub mod cli;
pub mod command;
pub mod log;
pub mod nice;
pub mod sched;
pub mod style;
pub mod text;
pub mod tui;
