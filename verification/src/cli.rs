//! The commands, as the command line gives them.

use crate::nice::NiceLevel;
use crate::text::{ascii_chars, decimal_digits, decimal_text, push_decimal_str, push_unsigned_str};
use vstd::prelude::*;
use vstd::string::StringExecFns;

verus! {

/// Flood the processor with work, and log each piece that is done.
#[derive(Clone, Debug)]
pub struct FloodCommand {
    /// The niceness at which the work is done.
    pub ni: NiceLevel,
    /// How many threads do the work.
    pub thread_count: usize,
    /// How many steps one piece of work takes.
    pub steps: Option<usize>,
    /// The path of the log.
    pub logfile: String,
}

/// Show two flooding processes side by side.
#[derive(Clone, Debug)]
pub struct TuiCommand {
    /// The niceness of the first process.
    pub ni1: NiceLevel,
    /// The niceness of the second process.
    pub ni2: NiceLevel,
    /// How many steps one piece of work takes.
    pub steps: Option<usize>,
    /// The path of the log.
    pub logfile: String,
    /// The path of this program, which the processes run.
    pub this: String,
}

/// What the program is asked to do.
#[derive(Clone, Debug)]
pub enum Command {
    Flood(FloodCommand),
    Tui(TuiCommand),
}

/// The command line.
#[derive(Clone, Debug)]
pub struct Cli {
    pub command: Command,
}

/// The argument `--name=value` for a number.
pub open spec fn number_flag(name: Seq<char>, value: Seq<u8>) -> Seq<char> {
    name + ascii_chars(value)
}

/// The arguments that make this program run the command `flood`.
pub open spec fn flood_args(flood: FloodCommand) -> Seq<Seq<char>> {
    let head = seq![
        "flood"@,
        number_flag("--ni="@, decimal_text(flood.ni@)),
        number_flag("--thread-count="@, decimal_digits(flood.thread_count as nat)),
    ];
    let steps = match flood.steps {
        Some(steps) => seq![number_flag("--steps="@, decimal_digits(steps as nat))],
        None => Seq::empty(),
    };
    head + steps + seq!["--logfile="@ + flood.logfile@]
}

/// The views of a list of strings.
pub open spec fn views(args: Seq<String>) -> Seq<Seq<char>> {
    args.map_values(|arg: String| arg@)
}

impl FloodCommand {
    /// Whether the work is spread over threads of its own: it is where
    /// more than one thread is asked for, and is done by the caller itself
    /// otherwise.
    pub fn spawns_threads(&self) -> (threads: bool)
        ensures
            threads == (self.thread_count > 1),
    {
        self.thread_count > 1
    }

    /// The arguments with which this program is started to run this
    /// command in a process of its own.
    pub fn process_args(&self) -> (args: Vec<String>)
        ensures
            views(args@) == flood_args(*self),
    {
        let mut args: Vec<String> = Vec::new();
        args.push("flood".to_owned());
        let mut ni: String = "--ni=".to_owned();
        push_decimal_str(&mut ni, self.ni.get() as i64);
        args.push(ni);
        let mut threads: String = "--thread-count=".to_owned();
        push_unsigned_str(&mut threads, self.thread_count as u64);
        args.push(threads);
        if let Some(steps) = self.steps {
            let mut flag: String = "--steps=".to_owned();
            push_unsigned_str(&mut flag, steps as u64);
            args.push(flag);
        }
        let mut logfile: String = "--logfile=".to_owned();
        logfile.append(self.logfile.as_str());
        args.push(logfile);
        assert(views(args@) =~= flood_args(*self));
        args
    }
}

impl TuiCommand {
    /// The two commands whose processes the dashboard shows: each floods
    /// on one thread, at its own niceness, with the steps and the log of
    /// this command.
    pub fn workers(&self) -> (workers: (FloodCommand, FloodCommand))
        ensures
            workers.0.ni == self.ni1,
            workers.1.ni == self.ni2,
            workers.0.thread_count == 1 && workers.1.thread_count == 1,
            workers.0.steps == self.steps && workers.1.steps == self.steps,
            workers.0.logfile@ == self.logfile@ && workers.1.logfile@ == self.logfile@,
    {
        (
            FloodCommand {
                ni: self.ni1,
                thread_count: 1,
                steps: self.steps,
                logfile: self.logfile.clone(),
            },
            FloodCommand {
                ni: self.ni2,
                thread_count: 1,
                steps: self.steps,
                logfile: self.logfile.clone(),
            },
        )
    }
}

} // verus!
