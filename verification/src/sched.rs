//! The scheduler's statistics of one process, as the operating system
//! prints them: lines of `key : value`, read here into a snapshot.
//!
//! Each value is found by the key that its line begins with, wherever in
//! the text that line stands.

use crate::nice::GetniceError;
use crate::style::Color;
use crate::text::{
    check_float_literal, decimal_digits, decimal_text, find_byte, find_byte_from, i32_literal,
    i64_literal, is_float_literal, occurs_at, parse_i32, parse_i64, parse_u64, push_decimal,
    push_signed_decimal, trim, trim_range, u64_literal,
};
use vstd::prelude::*;
use vstd::slice::{slice_subrange, slice_to_vec};
use vstd::string::StringSliceAdditionalSpecFns;

verus! {

/// The byte `:`.
pub const COLON: u8 = 0x3a;

/// The line feed.
pub const NEWLINE: u8 = 0x0a;

/// The scheduling class that governs a process.
#[derive(Debug, Clone, Copy, PartialEq, Eq, Structural)]
pub enum SchedPolicy {
    /// `SCHED_OTHER`, the default time-sharing class.
    Other,
    /// `SCHED_BATCH`.
    Batch,
    /// `SCHED_IDLE`.
    Idle,
    /// `SCHED_FIFO`.
    Fifo,
    /// `SCHED_RR`.
    RoundRobin,
    /// `SCHED_DEADLINE`.
    Deadline,
    /// A class that this library does not know.
    Unknown,
}

/// The class that the operating system numbers `code`.
pub open spec fn policy_of_code(code: int) -> SchedPolicy {
    if code == 0 {
        SchedPolicy::Other
    } else if code == 1 {
        SchedPolicy::Fifo
    } else if code == 2 {
        SchedPolicy::RoundRobin
    } else if code == 3 {
        SchedPolicy::Batch
    } else if code == 5 {
        SchedPolicy::Idle
    } else if code == 6 {
        SchedPolicy::Deadline
    } else {
        SchedPolicy::Unknown
    }
}

/// The class that the text `s` names by its number, where `s` is a number.
pub open spec fn policy_literal(s: Seq<u8>) -> Option<SchedPolicy> {
    match i32_literal(s) {
        Some(code) => Some(policy_of_code(code as int)),
        None => None,
    }
}

impl Default for SchedPolicy {
    fn default() -> (policy: Self)
        ensures
            policy == SchedPolicy::Other,
    {
        SchedPolicy::Other
    }
}

impl SchedPolicy {
    /// The class that the operating system numbers `code`.
    pub fn from_code(code: i32) -> (policy: Self)
        ensures
            policy == policy_of_code(code as int),
    {
        if code == 0 {
            SchedPolicy::Other
        } else if code == 1 {
            SchedPolicy::Fifo
        } else if code == 2 {
            SchedPolicy::RoundRobin
        } else if code == 3 {
            SchedPolicy::Batch
        } else if code == 5 {
            SchedPolicy::Idle
        } else if code == 6 {
            SchedPolicy::Deadline
        } else {
            SchedPolicy::Unknown
        }
    }

    /// Reads a class from the decimal text of its number.
    pub fn parse(s: &[u8]) -> (r: Result<Self, ()>)
        ensures
            match policy_literal(s@) {
                Some(policy) => r == Ok::<Self, ()>(policy),
                None => r is Err,
            },
    {
        match parse_i32(s) {
            Some(code) => Ok(Self::from_code(code)),
            None => Err(()),
        }
    }

    /// The operating system's name for this class.
    pub fn name(&self) -> (name: &'static str)
        ensures
            name@ == policy_name(*self)@,
    {
        match self {
            SchedPolicy::Other => "SCHED_OTHER",
            SchedPolicy::Batch => "SCHED_BATCH",
            SchedPolicy::Idle => "SCHED_IDLE",
            SchedPolicy::Fifo => "SCHED_FIFO",
            SchedPolicy::RoundRobin => "SCHED_RR",
            SchedPolicy::Deadline => "SCHED_DEADLINE",
            SchedPolicy::Unknown => "unknown schedule",
        }
    }

    /// The operating system's name for this class, as a string of its own.
    pub fn to_string(&self) -> (name: String)
        ensures
            name@ == policy_name(*self)@,
    {
        self.name().to_owned()
    }
}

/// The operating system's name for the class `policy`.
pub open spec fn policy_name(policy: SchedPolicy) -> &'static str {
    match policy {
        SchedPolicy::Other => "SCHED_OTHER",
        SchedPolicy::Batch => "SCHED_BATCH",
        SchedPolicy::Idle => "SCHED_IDLE",
        SchedPolicy::Fifo => "SCHED_FIFO",
        SchedPolicy::RoundRobin => "SCHED_RR",
        SchedPolicy::Deadline => "SCHED_DEADLINE",
        SchedPolicy::Unknown => "unknown schedule",
    }
}

impl std::str::FromStr for SchedPolicy {
    type Err = ();

    fn from_str(s: &str) -> (r: Result<Self, Self::Err>)
        ensures
            match policy_literal(s.spec_bytes()) {
                Some(policy) => r == Ok::<Self, ()>(policy),
                None => r is Err,
            },
    {
        SchedPolicy::parse(s.as_bytes())
    }
}

/// Why the statistics of a process could not be had.
#[derive(Debug, Clone, Copy, PartialEq, Eq, PartialOrd, Structural)]
pub enum SchedCreationError {
    /// The statistics could not be read at all: the process may be gone.
    FileError,
    /// A value is missing from the statistics, or is not what it should be.
    UnexpectedFileFormat,
    /// The niceness of the process could not be read.
    GetniceError(GetniceError),
}

impl vstd::std_specs::convert::FromSpecImpl<GetniceError> for SchedCreationError {
    open spec fn obeys_from_spec() -> bool {
        true
    }

    open spec fn from_spec(value: GetniceError) -> Self {
        SchedCreationError::GetniceError(value)
    }
}

impl From<GetniceError> for SchedCreationError {
    fn from(value: GetniceError) -> (r: Self) {
        SchedCreationError::GetniceError(value)
    }
}

impl SchedCreationError {
    /// What to tell the user about this failure.
    pub fn to_string(&self) -> (message: String)
        ensures
            self is FileError ==> message@ == "could not read sched file"@,
            self is UnexpectedFileFormat ==> message@ == "sched file contained unexpected format"@,
            self is GetniceError ==> message@ == "user lacks permissions to /sched info"@,
    {
        match self {
            SchedCreationError::FileError => "could not read sched file".to_owned(),
            SchedCreationError::UnexpectedFileFormat => "sched file contained unexpected format".to_owned(),
            SchedCreationError::GetniceError(_) => "user lacks permissions to /sched info".to_owned(),
        }
    }
}

/// The first place at or after `from` where a line of `text` begins with
/// `key`.
pub open spec fn key_line_from(text: Seq<u8>, key: Seq<u8>, from: int) -> Option<int>
    decreases text.len() - from,
{
    if from < 0 || from + key.len() > text.len() {
        None
    } else if (from == 0 || text[from - 1] == NEWLINE) && text.subrange(from, from + key.len())
        == key {
        Some(from)
    } else if from >= text.len() {
        None
    } else {
        key_line_from(text, key, from + 1)
    }
}

/// The value that `text` gives for `key`: in the first line that begins
/// with `key`, what stands between the first `:` and the end of the line,
/// without the white space around it. `None` where no line begins with
/// `key`, or no `:` follows.
pub open spec fn field_value(text: Seq<u8>, key: Seq<u8>) -> Option<Seq<u8>> {
    match key_line_from(text, key, 0) {
        None => None,
        Some(at) => {
            let colon = find_byte_from(text, COLON, at);
            if colon >= text.len() {
                None
            } else {
                Some(trim(text.subrange(colon + 1, find_byte_from(text, NEWLINE, colon + 1))))
            }
        },
    }
}

/// Finds the first line of `text` that begins with `key`.
fn find_key_line(text: &[u8], key: &[u8]) -> (r: Option<usize>)
    ensures
        r matches Some(at) ==> key_line_from(text@, key@, 0) == Some(at as int) && at + key@.len()
            <= text@.len(),
        r is None ==> key_line_from(text@, key@, 0) is None,
{
    let n: usize = text.len();
    let k: usize = key.len();
    if k > n {
        return None;
    }
    let last: usize = n - k;
    let mut i: usize = 0;
    loop
        invariant
            k <= n,
            n == text@.len(),
            k == key@.len(),
            last == n - k,
            i <= last,
            key_line_from(text@, key@, 0) == key_line_from(text@, key@, i as int),
        decreases last - i,
    {
        if (i == 0 || text[i - 1] == NEWLINE) && occurs_at(text, key, i) {
            return Some(i);
        }
        if i == last {
            return None;
        }
        i = i + 1;
    }
}

/// Finds the value that `text` gives for `key`, as the part of `text` that
/// holds it.
fn lookup(text: &[u8], key: &str) -> (r: Option<(usize, usize)>)
    ensures
        match field_value(text@, key.spec_bytes()) {
            Some(value) => r matches Some((lo, hi)) && lo <= hi <= text@.len() && text@.subrange(
                lo as int,
                hi as int,
            ) == value,
            None => r is None,
        },
{
    match find_key_line(text, key.as_bytes()) {
        None => None,
        Some(at) => {
            let colon: usize = find_byte(text, COLON, at);
            if colon >= text.len() {
                None
            } else {
                let end: usize = find_byte(text, NEWLINE, colon + 1);
                Some(trim_range(text, colon + 1, end))
            }
        },
    }
}

/// The unsigned number that `text` gives for `key`.
pub open spec fn u64_field(text: Seq<u8>, key: Seq<u8>) -> Option<u64> {
    match field_value(text, key) {
        Some(value) => u64_literal(value),
        None => None,
    }
}

/// The signed number that `text` gives for `key`.
pub open spec fn i64_field(text: Seq<u8>, key: Seq<u8>) -> Option<i64> {
    match field_value(text, key) {
        Some(value) => i64_literal(value),
        None => None,
    }
}

/// The scheduling class that `text` gives for `key`.
pub open spec fn policy_field(text: Seq<u8>, key: Seq<u8>) -> Option<SchedPolicy> {
    match field_value(text, key) {
        Some(value) => policy_literal(value),
        None => None,
    }
}

/// The decimal number that `text` gives for `key`, as it is written.
pub open spec fn decimal_field(text: Seq<u8>, key: Seq<u8>) -> Option<Seq<u8>> {
    match field_value(text, key) {
        Some(value) => if is_float_literal(value) {
            Some(value)
        } else {
            None
        },
        None => None,
    }
}

/// A decimal number, kept as the text that it was written with: a
/// floating-point literal as the standard library reads one.
#[derive(Debug)]
pub struct Decimal {
    text: Vec<u8>,
}

impl Clone for Decimal {
    fn clone(&self) -> (copy: Self)
        ensures
            copy@ == self@,
    {
        proof {
            use_type_invariant(self);
        }
        Decimal { text: slice_to_vec(self.text.as_slice()) }
    }
}

impl View for Decimal {
    type V = Seq<u8>;

    closed spec fn view(&self) -> Seq<u8> {
        self.text@
    }
}

impl Decimal {
    #[verifier::type_invariant]
    spec fn is_literal(self) -> bool {
        is_float_literal(self.text@)
    }

    /// The number that `s` writes, where `s` is a floating-point literal.
    pub fn parse(s: &[u8]) -> (r: Option<Decimal>)
        ensures
            is_float_literal(s@) ==> (r matches Some(d) && d@ == s@),
            !is_float_literal(s@) ==> r is None,
    {
        if check_float_literal(s) {
            Some(Decimal { text: slice_to_vec(s) })
        } else {
            None
        }
    }

    /// The text of the number, which is a floating-point literal.
    pub fn as_bytes(&self) -> (bytes: &[u8])
        ensures
            bytes@ == self@,
            is_float_literal(bytes@),
    {
        proof {
            use_type_invariant(self);
        }
        self.text.as_slice()
    }
}

impl Default for Decimal {
    fn default() -> (zero: Self)
        ensures
            zero@ == seq![0x30u8],
    {
        let mut text: Vec<u8> = Vec::new();
        text.push(0x30);
        assert(text@ =~= seq![0x30u8]);
        assert(is_float_literal(text@)) by {
            reveal_with_fuel(crate::text::digits_end, 3);
        }
        Decimal { text }
    }
}

/// Reads the unsigned number that `text` gives for `key`.
fn read_u64(text: &[u8], key: &str) -> (r: Option<u64>)
    ensures
        r == u64_field(text@, key.spec_bytes()),
{
    match lookup(text, key) {
        Some((lo, hi)) => parse_u64(slice_subrange(text, lo, hi)),
        None => None,
    }
}

/// Reads the signed number that `text` gives for `key`.
fn read_i64(text: &[u8], key: &str) -> (r: Option<i64>)
    ensures
        r == i64_field(text@, key.spec_bytes()),
{
    match lookup(text, key) {
        Some((lo, hi)) => parse_i64(slice_subrange(text, lo, hi)),
        None => None,
    }
}

/// Reads the scheduling class that `text` gives for `key`.
fn read_policy(text: &[u8], key: &str) -> (r: Option<SchedPolicy>)
    ensures
        r == policy_field(text@, key.spec_bytes()),
{
    match lookup(text, key) {
        Some((lo, hi)) => match SchedPolicy::parse(slice_subrange(text, lo, hi)) {
            Ok(policy) => Some(policy),
            Err(_) => None,
        },
        None => None,
    }
}

/// Reads the decimal number that `text` gives for `key`.
fn read_decimal(text: &[u8], key: &str) -> (r: Option<Decimal>)
    ensures
        match decimal_field(text@, key.spec_bytes()) {
            Some(value) => r matches Some(d) && d@ == value,
            None => r is None,
        },
{
    match lookup(text, key) {
        Some((lo, hi)) => Decimal::parse(slice_subrange(text, lo, hi)),
        None => None,
    }
}

/// The key of the niceness, which the statistics themselves do not hold.
pub const NI: &'static str = "ni";

/// The key of `exec_start`.
pub const EXEC_START: &'static str = "se.exec_start";

/// The key of `vruntime`.
pub const VRUNTIME: &'static str = "se.vruntime";

/// The key of `sum_exec_runtime`.
pub const SUM_EXEC_RUNTIME: &'static str = "se.sum_exec_runtime";

/// The key of `nr_migrations`.
pub const NR_MIGRATIONS: &'static str = "se.nr_migrations";

/// The key of `nr_switches`.
pub const NR_SWITCHES: &'static str = "nr_switches";

/// The key of `nr_voluntary_switches`.
pub const NR_VOLUNTARY_SWITCHES: &'static str = "nr_voluntary_switches";

/// The key of `nr_involuntary_switches`.
pub const NR_INVOLUNTARY_SWITCHES: &'static str = "nr_involuntary_switches";

/// The key of `load_weight`.
pub const LOAD_WEIGHT: &'static str = "se.load.weight";

/// The key of `avg_load_sum`.
pub const AVG_LOAD_SUM: &'static str = "se.avg.load_sum";

/// The key of `avg_runnable_sum`.
pub const AVG_RUNNABLE_SUM: &'static str = "se.avg.runnable_sum";

/// The key of `avg_util_sum`.
pub const AVG_UTIL_SUM: &'static str = "se.avg.util_sum";

/// The key of `avg_load_avg`.
pub const AVG_LOAD_AVG: &'static str = "se.avg.load_avg";

/// The key of `avg_runnable_avg`.
pub const AVG_RUNNABLE_AVG: &'static str = "se.avg.runnable_avg";

/// The key of `avg_util_avg`.
pub const AVG_UTIL_AVG: &'static str = "se.avg.util_avg";

/// The key of `avg_last_update_time`.
pub const AVG_LAST_UPDATE_TIME: &'static str = "se.avg.last_update_time";

/// The key of `avg_util_est_ewma`.
pub const AVG_UTIL_EST_EWMA: &'static str = "se.avg.util_est.ewma";

/// The key of `avg_util_est_enqueued`.
pub const AVG_UTIL_EST_ENQUEUED: &'static str = "se.avg.util_est.enqueued";

/// The key of `uclamp_min`.
pub const UCLAMP_MIN: &'static str = "uclamp.min";

/// The key of `uclamp_max`.
pub const UCLAMP_MAX: &'static str = "uclamp.max";

/// The key of `effective_uclamp_min`.
pub const EFFECTIVE_UCLAMP_MIN: &'static str = "effective uclamp.min";

/// The key of `effective_uclamp_max`.
pub const EFFECTIVE_UCLAMP_MAX: &'static str = "effective uclamp.max";

/// The key of `policy`.
pub const POLICY: &'static str = "policy";

/// The key of `prio`.
pub const PRIO: &'static str = "prio";

/// The key of `clock_delta`.
pub const CLOCK_DELTA: &'static str = "clock-delta";

/// The key of `numa_scan_seq`.
pub const NUMA_SCAN_SEQ: &'static str = "mm->numa_scan_seq";

/// The key of `numa_pages_migrated`.
pub const NUMA_PAGES_MIGRATED: &'static str = "numa_pages_migrated";

/// The key of `numa_preferred_nid`.
pub const NUMA_PREFERRED_NID: &'static str = "numa_preferred_nid";

/// The key of `total_numa_faults`.
pub const TOTAL_NUMA_FAULTS: &'static str = "total_numa_faults";

/// A snapshot of the scheduler's statistics of one process.
#[non_exhaustive]
#[derive(Debug, Clone)]
pub struct Sched {
    /// `se.exec_start`
    pub exec_start: Decimal,
    /// `se.vruntime`
    pub vruntime: Decimal,
    /// `se.sum_exec_runtime`
    pub sum_exec_runtime: Decimal,
    /// `se.nr_migrations`
    pub nr_migrations: u64,
    /// `nr_switches`
    pub nr_switches: u64,
    /// `nr_voluntary_switches`
    pub nr_voluntary_switches: u64,
    /// `nr_involuntary_switches`
    pub nr_involuntary_switches: u64,
    /// `se.load.weight`
    pub load_weight: u64,
    /// `se.avg.load_sum`
    pub avg_load_sum: u64,
    /// `se.avg.runnable_sum`
    pub avg_runnable_sum: u64,
    /// `se.avg.util_sum`
    pub avg_util_sum: u64,
    /// `se.avg.load_avg`
    pub avg_load_avg: u64,
    /// `se.avg.runnable_avg`
    pub avg_runnable_avg: u64,
    /// `se.avg.util_avg`
    pub avg_util_avg: u64,
    /// `se.avg.last_update_time`
    pub avg_last_update_time: u64,
    /// `se.avg.util_est.ewma`
    pub avg_util_est_ewma: u64,
    /// `se.avg.util_est.enqueued`
    pub avg_util_est_enqueued: u64,
    /// `uclamp.min`
    pub uclamp_min: u64,
    /// `uclamp.max`
    pub uclamp_max: u64,
    /// `effective uclamp.min`
    pub effective_uclamp_min: u64,
    /// `effective uclamp.max`
    pub effective_uclamp_max: u64,
    /// `policy`
    pub policy: SchedPolicy,
    /// `prio`
    pub prio: u64,
    /// `clock-delta`
    pub clock_delta: u64,
    /// `mm->numa_scan_seq`
    pub numa_scan_seq: u64,
    /// `numa_pages_migrated`
    pub numa_pages_migrated: u64,
    /// `numa_preferred_nid`
    pub numa_preferred_nid: i64,
    /// `total_numa_faults`
    pub total_numa_faults: u64,
    /// The niceness of the process, which the statistics themselves do not
    /// hold.
    pub ni: i32,
}

/// Whether `text` gives every value of a snapshot, each as what it should
/// be.
pub open spec fn readable(text: Seq<u8>) -> bool {
    &&& decimal_field(text, EXEC_START.spec_bytes()) is Some
    &&& decimal_field(text, VRUNTIME.spec_bytes()) is Some
    &&& decimal_field(text, SUM_EXEC_RUNTIME.spec_bytes()) is Some
    &&& u64_field(text, NR_MIGRATIONS.spec_bytes()) is Some
    &&& u64_field(text, NR_SWITCHES.spec_bytes()) is Some
    &&& u64_field(text, NR_VOLUNTARY_SWITCHES.spec_bytes()) is Some
    &&& u64_field(text, NR_INVOLUNTARY_SWITCHES.spec_bytes()) is Some
    &&& u64_field(text, LOAD_WEIGHT.spec_bytes()) is Some
    &&& u64_field(text, AVG_LOAD_SUM.spec_bytes()) is Some
    &&& u64_field(text, AVG_RUNNABLE_SUM.spec_bytes()) is Some
    &&& u64_field(text, AVG_UTIL_SUM.spec_bytes()) is Some
    &&& u64_field(text, AVG_LOAD_AVG.spec_bytes()) is Some
    &&& u64_field(text, AVG_RUNNABLE_AVG.spec_bytes()) is Some
    &&& u64_field(text, AVG_UTIL_AVG.spec_bytes()) is Some
    &&& u64_field(text, AVG_LAST_UPDATE_TIME.spec_bytes()) is Some
    &&& u64_field(text, AVG_UTIL_EST_EWMA.spec_bytes()) is Some
    &&& u64_field(text, AVG_UTIL_EST_ENQUEUED.spec_bytes()) is Some
    &&& u64_field(text, UCLAMP_MIN.spec_bytes()) is Some
    &&& u64_field(text, UCLAMP_MAX.spec_bytes()) is Some
    &&& u64_field(text, EFFECTIVE_UCLAMP_MIN.spec_bytes()) is Some
    &&& u64_field(text, EFFECTIVE_UCLAMP_MAX.spec_bytes()) is Some
    &&& policy_field(text, POLICY.spec_bytes()) is Some
    &&& u64_field(text, PRIO.spec_bytes()) is Some
    &&& u64_field(text, CLOCK_DELTA.spec_bytes()) is Some
    &&& u64_field(text, NUMA_SCAN_SEQ.spec_bytes()) is Some
    &&& u64_field(text, NUMA_PAGES_MIGRATED.spec_bytes()) is Some
    &&& i64_field(text, NUMA_PREFERRED_NID.spec_bytes()) is Some
    &&& u64_field(text, TOTAL_NUMA_FAULTS.spec_bytes()) is Some
}

impl Sched {
    /// Whether this snapshot holds what `text` gives for each key.
    pub open spec fn holds(&self, text: Seq<u8>) -> bool {
        &&& decimal_field(text, EXEC_START.spec_bytes()) == Some(self.exec_start@)
        &&& decimal_field(text, VRUNTIME.spec_bytes()) == Some(self.vruntime@)
        &&& decimal_field(text, SUM_EXEC_RUNTIME.spec_bytes()) == Some(self.sum_exec_runtime@)
        &&& u64_field(text, NR_MIGRATIONS.spec_bytes()) == Some(self.nr_migrations)
        &&& u64_field(text, NR_SWITCHES.spec_bytes()) == Some(self.nr_switches)
        &&& u64_field(text, NR_VOLUNTARY_SWITCHES.spec_bytes()) == Some(self.nr_voluntary_switches)
        &&& u64_field(text, NR_INVOLUNTARY_SWITCHES.spec_bytes()) == Some(self.nr_involuntary_switches)
        &&& u64_field(text, LOAD_WEIGHT.spec_bytes()) == Some(self.load_weight)
        &&& u64_field(text, AVG_LOAD_SUM.spec_bytes()) == Some(self.avg_load_sum)
        &&& u64_field(text, AVG_RUNNABLE_SUM.spec_bytes()) == Some(self.avg_runnable_sum)
        &&& u64_field(text, AVG_UTIL_SUM.spec_bytes()) == Some(self.avg_util_sum)
        &&& u64_field(text, AVG_LOAD_AVG.spec_bytes()) == Some(self.avg_load_avg)
        &&& u64_field(text, AVG_RUNNABLE_AVG.spec_bytes()) == Some(self.avg_runnable_avg)
        &&& u64_field(text, AVG_UTIL_AVG.spec_bytes()) == Some(self.avg_util_avg)
        &&& u64_field(text, AVG_LAST_UPDATE_TIME.spec_bytes()) == Some(self.avg_last_update_time)
        &&& u64_field(text, AVG_UTIL_EST_EWMA.spec_bytes()) == Some(self.avg_util_est_ewma)
        &&& u64_field(text, AVG_UTIL_EST_ENQUEUED.spec_bytes()) == Some(self.avg_util_est_enqueued)
        &&& u64_field(text, UCLAMP_MIN.spec_bytes()) == Some(self.uclamp_min)
        &&& u64_field(text, UCLAMP_MAX.spec_bytes()) == Some(self.uclamp_max)
        &&& u64_field(text, EFFECTIVE_UCLAMP_MIN.spec_bytes()) == Some(self.effective_uclamp_min)
        &&& u64_field(text, EFFECTIVE_UCLAMP_MAX.spec_bytes()) == Some(self.effective_uclamp_max)
        &&& policy_field(text, POLICY.spec_bytes()) == Some(self.policy)
        &&& u64_field(text, PRIO.spec_bytes()) == Some(self.prio)
        &&& u64_field(text, CLOCK_DELTA.spec_bytes()) == Some(self.clock_delta)
        &&& u64_field(text, NUMA_SCAN_SEQ.spec_bytes()) == Some(self.numa_scan_seq)
        &&& u64_field(text, NUMA_PAGES_MIGRATED.spec_bytes()) == Some(self.numa_pages_migrated)
        &&& i64_field(text, NUMA_PREFERRED_NID.spec_bytes()) == Some(self.numa_preferred_nid)
        &&& u64_field(text, TOTAL_NUMA_FAULTS.spec_bytes()) == Some(self.total_numa_faults)
    }

    /// Reads a snapshot from the text of the statistics. The niceness is
    /// not in that text, and is zero in the result.
    pub fn parse(text: &[u8]) -> (r: Result<Sched, SchedCreationError>)
        ensures
            readable(text@) ==> (r matches Ok(sched) && sched.holds(text@) && sched.ni == 0),
            !readable(text@) ==> r matches Err(SchedCreationError::UnexpectedFileFormat),
    {
        let exec_start: Decimal = match read_decimal(text, EXEC_START) {
            Some(value) => value,
            None => return Err(SchedCreationError::UnexpectedFileFormat),
        };
        let vruntime: Decimal = match read_decimal(text, VRUNTIME) {
            Some(value) => value,
            None => return Err(SchedCreationError::UnexpectedFileFormat),
        };
        let sum_exec_runtime: Decimal = match read_decimal(text, SUM_EXEC_RUNTIME) {
            Some(value) => value,
            None => return Err(SchedCreationError::UnexpectedFileFormat),
        };
        let nr_migrations: u64 = match read_u64(text, NR_MIGRATIONS) {
            Some(value) => value,
            None => return Err(SchedCreationError::UnexpectedFileFormat),
        };
        let nr_switches: u64 = match read_u64(text, NR_SWITCHES) {
            Some(value) => value,
            None => return Err(SchedCreationError::UnexpectedFileFormat),
        };
        let nr_voluntary_switches: u64 = match read_u64(text, NR_VOLUNTARY_SWITCHES) {
            Some(value) => value,
            None => return Err(SchedCreationError::UnexpectedFileFormat),
        };
        let nr_involuntary_switches: u64 = match read_u64(text, NR_INVOLUNTARY_SWITCHES) {
            Some(value) => value,
            None => return Err(SchedCreationError::UnexpectedFileFormat),
        };
        let load_weight: u64 = match read_u64(text, LOAD_WEIGHT) {
            Some(value) => value,
            None => return Err(SchedCreationError::UnexpectedFileFormat),
        };
        let avg_load_sum: u64 = match read_u64(text, AVG_LOAD_SUM) {
            Some(value) => value,
            None => return Err(SchedCreationError::UnexpectedFileFormat),
        };
        let avg_runnable_sum: u64 = match read_u64(text, AVG_RUNNABLE_SUM) {
            Some(value) => value,
            None => return Err(SchedCreationError::UnexpectedFileFormat),
        };
        let avg_util_sum: u64 = match read_u64(text, AVG_UTIL_SUM) {
            Some(value) => value,
            None => return Err(SchedCreationError::UnexpectedFileFormat),
        };
        let avg_load_avg: u64 = match read_u64(text, AVG_LOAD_AVG) {
            Some(value) => value,
            None => return Err(SchedCreationError::UnexpectedFileFormat),
        };
        let avg_runnable_avg: u64 = match read_u64(text, AVG_RUNNABLE_AVG) {
            Some(value) => value,
            None => return Err(SchedCreationError::UnexpectedFileFormat),
        };
        let avg_util_avg: u64 = match read_u64(text, AVG_UTIL_AVG) {
            Some(value) => value,
            None => return Err(SchedCreationError::UnexpectedFileFormat),
        };
        let avg_last_update_time: u64 = match read_u64(text, AVG_LAST_UPDATE_TIME) {
            Some(value) => value,
            None => return Err(SchedCreationError::UnexpectedFileFormat),
        };
        let avg_util_est_ewma: u64 = match read_u64(text, AVG_UTIL_EST_EWMA) {
            Some(value) => value,
            None => return Err(SchedCreationError::UnexpectedFileFormat),
        };
        let avg_util_est_enqueued: u64 = match read_u64(text, AVG_UTIL_EST_ENQUEUED) {
            Some(value) => value,
            None => return Err(SchedCreationError::UnexpectedFileFormat),
        };
        let uclamp_min: u64 = match read_u64(text, UCLAMP_MIN) {
            Some(value) => value,
            None => return Err(SchedCreationError::UnexpectedFileFormat),
        };
        let uclamp_max: u64 = match read_u64(text, UCLAMP_MAX) {
            Some(value) => value,
            None => return Err(SchedCreationError::UnexpectedFileFormat),
        };
        let effective_uclamp_min: u64 = match read_u64(text, EFFECTIVE_UCLAMP_MIN) {
            Some(value) => value,
            None => return Err(SchedCreationError::UnexpectedFileFormat),
        };
        let effective_uclamp_max: u64 = match read_u64(text, EFFECTIVE_UCLAMP_MAX) {
            Some(value) => value,
            None => return Err(SchedCreationError::UnexpectedFileFormat),
        };
        let policy: SchedPolicy = match read_policy(text, POLICY) {
            Some(value) => value,
            None => return Err(SchedCreationError::UnexpectedFileFormat),
        };
        let prio: u64 = match read_u64(text, PRIO) {
            Some(value) => value,
            None => return Err(SchedCreationError::UnexpectedFileFormat),
        };
        let clock_delta: u64 = match read_u64(text, CLOCK_DELTA) {
            Some(value) => value,
            None => return Err(SchedCreationError::UnexpectedFileFormat),
        };
        let numa_scan_seq: u64 = match read_u64(text, NUMA_SCAN_SEQ) {
            Some(value) => value,
            None => return Err(SchedCreationError::UnexpectedFileFormat),
        };
        let numa_pages_migrated: u64 = match read_u64(text, NUMA_PAGES_MIGRATED) {
            Some(value) => value,
            None => return Err(SchedCreationError::UnexpectedFileFormat),
        };
        let numa_preferred_nid: i64 = match read_i64(text, NUMA_PREFERRED_NID) {
            Some(value) => value,
            None => return Err(SchedCreationError::UnexpectedFileFormat),
        };
        let total_numa_faults: u64 = match read_u64(text, TOTAL_NUMA_FAULTS) {
            Some(value) => value,
            None => return Err(SchedCreationError::UnexpectedFileFormat),
        };
        Ok(
            Sched {
                exec_start,
                vruntime,
                sum_exec_runtime,
                nr_migrations,
                nr_switches,
                nr_voluntary_switches,
                nr_involuntary_switches,
                load_weight,
                avg_load_sum,
                avg_runnable_sum,
                avg_util_sum,
                avg_load_avg,
                avg_runnable_avg,
                avg_util_avg,
                avg_last_update_time,
                avg_util_est_ewma,
                avg_util_est_enqueued,
                uclamp_min,
                uclamp_max,
                effective_uclamp_min,
                effective_uclamp_max,
                policy,
                prio,
                clock_delta,
                numa_scan_seq,
                numa_pages_migrated,
                numa_preferred_nid,
                total_numa_faults,
                ni: 0,
            },
        )
    }

    /// Makes a snapshot of what was read of a process: the text of its
    /// statistics, or `None` where that could not be read. The niceness is
    /// zero in the result.
    pub fn of(text: Option<&[u8]>) -> (r: Result<Sched, SchedCreationError>)
        ensures
            match text {
                None => r matches Err(SchedCreationError::FileError),
                Some(t) => if readable(t@) {
                    r matches Ok(sched) && sched.holds(t@) && sched.ni == 0
                } else {
                    r matches Err(SchedCreationError::UnexpectedFileFormat)
                },
            },
    {
        match text {
            None => Err(SchedCreationError::FileError),
            Some(t) => Sched::parse(t),
        }
    }

    /// Whether this snapshot holds nothing yet: every number is zero, and
    /// the scheduling class is the default one.
    pub open spec fn is_blank(&self) -> bool {
        &&& self.exec_start@ == seq![0x30u8]
        &&& self.vruntime@ == seq![0x30u8]
        &&& self.sum_exec_runtime@ == seq![0x30u8]
        &&& self.nr_migrations == 0
        &&& self.nr_switches == 0
        &&& self.nr_voluntary_switches == 0
        &&& self.nr_involuntary_switches == 0
        &&& self.load_weight == 0
        &&& self.avg_load_sum == 0
        &&& self.avg_runnable_sum == 0
        &&& self.avg_util_sum == 0
        &&& self.avg_load_avg == 0
        &&& self.avg_runnable_avg == 0
        &&& self.avg_util_avg == 0
        &&& self.avg_last_update_time == 0
        &&& self.avg_util_est_ewma == 0
        &&& self.avg_util_est_enqueued == 0
        &&& self.uclamp_min == 0
        &&& self.uclamp_max == 0
        &&& self.effective_uclamp_min == 0
        &&& self.effective_uclamp_max == 0
        &&& self.policy == SchedPolicy::Other
        &&& self.prio == 0
        &&& self.clock_delta == 0
        &&& self.numa_scan_seq == 0
        &&& self.numa_pages_migrated == 0
        &&& self.numa_preferred_nid == 0
        &&& self.total_numa_faults == 0
        &&& self.ni == 0
    }

    /// This snapshot with the niceness `ni`.
    pub open spec fn having_nice(self, ni: i32) -> Sched {
        Sched { ni, ..self }
    }

    /// Adds to a snapshot the niceness of the process, which is read
    /// apart, or fails with what kept it from being read.
    pub fn with_nice(self, nice: Result<i32, GetniceError>) -> (r: Result<
        Sched,
        SchedCreationError,
    >)
        ensures
            match nice {
                Ok(ni) => r == Ok::<Sched, SchedCreationError>(self.having_nice(ni)),
                Err(e) => r matches Err(SchedCreationError::GetniceError(why)) && why == e,
            },
    {
        match nice {
            Err(e) => Err(SchedCreationError::GetniceError(e)),
            Ok(ni) => {
                let mut sched: Sched = self;
                sched.ni = ni;
                Ok(sched)
            },
        }
    }
}

impl Default for Sched {
    fn default() -> (sched: Self)
        ensures
            sched.is_blank(),
    {
        Sched {
            exec_start: Decimal::default(),
            vruntime: Decimal::default(),
            sum_exec_runtime: Decimal::default(),
            nr_migrations: 0,
            nr_switches: 0,
            nr_voluntary_switches: 0,
            nr_involuntary_switches: 0,
            load_weight: 0,
            avg_load_sum: 0,
            avg_runnable_sum: 0,
            avg_util_sum: 0,
            avg_load_avg: 0,
            avg_runnable_avg: 0,
            avg_util_avg: 0,
            avg_last_update_time: 0,
            avg_util_est_ewma: 0,
            avg_util_est_enqueued: 0,
            uclamp_min: 0,
            uclamp_max: 0,
            effective_uclamp_min: 0,
            effective_uclamp_max: 0,
            policy: SchedPolicy::Other,
            prio: 0,
            clock_delta: 0,
            numa_scan_seq: 0,
            numa_pages_migrated: 0,
            numa_preferred_nid: 0,
            total_numa_faults: 0,
            ni: 0,
        }
    }
}

/// One line of a shown snapshot: the key in bold on the left, then `gap`
/// spaces, then the value in its colour.
#[derive(Debug, Clone)]
pub struct Row {
    pub label: &'static str,
    pub gap: usize,
    pub value: Vec<u8>,
    pub color: Color,
}

/// How many spaces stand between a key of `label` bytes and a value of
/// `value` bytes in a line of `width`: as many as fill the line, or one
/// where the two do not leave room.
pub open spec fn gap_for(width: int, label: int, value: int) -> int {
    if label + value < width {
        width - (label + value)
    } else {
        1
    }
}

impl Row {
    /// Whether this is the line that shows `value` for `label` in `color`,
    /// laid out for lines of `width`.
    pub open spec fn shows(&self, width: int, label: &str, value: Seq<u8>, color: Color) -> bool {
        &&& self.label@ == label@
        &&& self.value@ == value
        &&& self.color == color
        &&& self.gap == gap_for(width, label.spec_bytes().len() as int, value.len() as int)
    }
}

/// The line that shows the text `value` for `label`.
fn text_row(width: usize, label: &'static str, value: &[u8], color: Color) -> (row: Row)
    ensures
        row.shows(width as int, label, value@, color),
{
    let value_len: usize = value.len();
    let label_len: usize = label.as_bytes().len();
    let gap: usize = if value_len < width && label_len < width - value_len {
        width - value_len - label_len
    } else {
        1
    };
    Row { label, gap, value: slice_to_vec(value), color }
}

/// The line that shows the number `value` for `label`.
fn unsigned_row(width: usize, label: &'static str, value: u64, color: Color) -> (row: Row)
    ensures
        row.shows(width as int, label, decimal_digits(value as nat), color),
{
    let mut text: Vec<u8> = Vec::new();
    push_decimal(&mut text, value);
    assert(text@ =~= decimal_digits(value as nat));
    text_row(width, label, text.as_slice(), color)
}

/// The line that shows the signed number `value` for `label`.
fn signed_row(width: usize, label: &'static str, value: i64, color: Color) -> (row: Row)
    ensures
        row.shows(width as int, label, decimal_text(value as int), color),
{
    let mut text: Vec<u8> = Vec::new();
    push_signed_decimal(&mut text, value);
    assert(text@ =~= decimal_text(value as int));
    text_row(width, label, text.as_slice(), color)
}

impl Sched {
    /// The lines that show this snapshot in a pane whose lines are `width`
    /// wide: the niceness first, then each value in the order in which the
    /// operating system prints them.
    pub fn as_rows(&self, width: usize) -> (rows: Vec<Row>)
        ensures
            rows@.len() == 29,
            rows@[0].shows(width as int, NI, decimal_text(self.ni as int), Color::LightBlue),
            rows@[1].shows(width as int, EXEC_START, self.exec_start@, Color::Red),
            rows@[2].shows(width as int, VRUNTIME, self.vruntime@, Color::Red),
            rows@[3].shows(width as int, SUM_EXEC_RUNTIME, self.sum_exec_runtime@, Color::Red),
            rows@[4].shows(width as int, NR_MIGRATIONS, decimal_digits(self.nr_migrations as nat), Color::Green),
            rows@[5].shows(width as int, NR_SWITCHES, decimal_digits(self.nr_switches as nat), Color::Green),
            rows@[6].shows(width as int, NR_VOLUNTARY_SWITCHES, decimal_digits(self.nr_voluntary_switches as nat), Color::Green),
            rows@[7].shows(width as int, NR_INVOLUNTARY_SWITCHES, decimal_digits(self.nr_involuntary_switches as nat), Color::Green),
            rows@[8].shows(width as int, LOAD_WEIGHT, decimal_digits(self.load_weight as nat), Color::Green),
            rows@[9].shows(width as int, AVG_LOAD_SUM, decimal_digits(self.avg_load_sum as nat), Color::Green),
            rows@[10].shows(width as int, AVG_RUNNABLE_SUM, decimal_digits(self.avg_runnable_sum as nat), Color::Green),
            rows@[11].shows(width as int, AVG_UTIL_SUM, decimal_digits(self.avg_util_sum as nat), Color::Green),
            rows@[12].shows(width as int, AVG_LOAD_AVG, decimal_digits(self.avg_load_avg as nat), Color::Green),
            rows@[13].shows(width as int, AVG_RUNNABLE_AVG, decimal_digits(self.avg_runnable_avg as nat), Color::Green),
            rows@[14].shows(width as int, AVG_UTIL_AVG, decimal_digits(self.avg_util_avg as nat), Color::Green),
            rows@[15].shows(width as int, AVG_LAST_UPDATE_TIME, decimal_digits(self.avg_last_update_time as nat), Color::Green),
            rows@[16].shows(width as int, AVG_UTIL_EST_EWMA, decimal_digits(self.avg_util_est_ewma as nat), Color::Green),
            rows@[17].shows(width as int, AVG_UTIL_EST_ENQUEUED, decimal_digits(self.avg_util_est_enqueued as nat), Color::Green),
            rows@[18].shows(width as int, UCLAMP_MIN, decimal_digits(self.uclamp_min as nat), Color::Green),
            rows@[19].shows(width as int, UCLAMP_MAX, decimal_digits(self.uclamp_max as nat), Color::Green),
            rows@[20].shows(width as int, EFFECTIVE_UCLAMP_MIN, decimal_digits(self.effective_uclamp_min as nat), Color::Green),
            rows@[21].shows(width as int, EFFECTIVE_UCLAMP_MAX, decimal_digits(self.effective_uclamp_max as nat), Color::Green),
            rows@[22].shows(width as int, POLICY, policy_name(self.policy).spec_bytes(), Color::Reset),
            rows@[23].shows(width as int, PRIO, decimal_digits(self.prio as nat), Color::Green),
            rows@[24].shows(width as int, CLOCK_DELTA, decimal_digits(self.clock_delta as nat), Color::Green),
            rows@[25].shows(width as int, NUMA_SCAN_SEQ, decimal_digits(self.numa_scan_seq as nat), Color::Green),
            rows@[26].shows(width as int, NUMA_PAGES_MIGRATED, decimal_digits(self.numa_pages_migrated as nat), Color::Green),
            rows@[27].shows(width as int, NUMA_PREFERRED_NID, decimal_text(self.numa_preferred_nid as int), Color::LightBlue),
            rows@[28].shows(width as int, TOTAL_NUMA_FAULTS, decimal_digits(self.total_numa_faults as nat), Color::Green),
    {
        let mut rows: Vec<Row> = Vec::new();
        rows.push(signed_row(width, NI, self.ni as i64, Color::LightBlue));
        rows.push(text_row(width, EXEC_START, self.exec_start.as_bytes(), Color::Red));
        rows.push(text_row(width, VRUNTIME, self.vruntime.as_bytes(), Color::Red));
        rows.push(text_row(width, SUM_EXEC_RUNTIME, self.sum_exec_runtime.as_bytes(), Color::Red));
        rows.push(unsigned_row(width, NR_MIGRATIONS, self.nr_migrations, Color::Green));
        rows.push(unsigned_row(width, NR_SWITCHES, self.nr_switches, Color::Green));
        rows.push(unsigned_row(width, NR_VOLUNTARY_SWITCHES, self.nr_voluntary_switches, Color::Green));
        rows.push(unsigned_row(width, NR_INVOLUNTARY_SWITCHES, self.nr_involuntary_switches, Color::Green));
        rows.push(unsigned_row(width, LOAD_WEIGHT, self.load_weight, Color::Green));
        rows.push(unsigned_row(width, AVG_LOAD_SUM, self.avg_load_sum, Color::Green));
        rows.push(unsigned_row(width, AVG_RUNNABLE_SUM, self.avg_runnable_sum, Color::Green));
        rows.push(unsigned_row(width, AVG_UTIL_SUM, self.avg_util_sum, Color::Green));
        rows.push(unsigned_row(width, AVG_LOAD_AVG, self.avg_load_avg, Color::Green));
        rows.push(unsigned_row(width, AVG_RUNNABLE_AVG, self.avg_runnable_avg, Color::Green));
        rows.push(unsigned_row(width, AVG_UTIL_AVG, self.avg_util_avg, Color::Green));
        rows.push(unsigned_row(width, AVG_LAST_UPDATE_TIME, self.avg_last_update_time, Color::Green));
        rows.push(unsigned_row(width, AVG_UTIL_EST_EWMA, self.avg_util_est_ewma, Color::Green));
        rows.push(unsigned_row(width, AVG_UTIL_EST_ENQUEUED, self.avg_util_est_enqueued, Color::Green));
        rows.push(unsigned_row(width, UCLAMP_MIN, self.uclamp_min, Color::Green));
        rows.push(unsigned_row(width, UCLAMP_MAX, self.uclamp_max, Color::Green));
        rows.push(unsigned_row(width, EFFECTIVE_UCLAMP_MIN, self.effective_uclamp_min, Color::Green));
        rows.push(unsigned_row(width, EFFECTIVE_UCLAMP_MAX, self.effective_uclamp_max, Color::Green));
        rows.push(text_row(width, POLICY, self.policy.name().as_bytes(), Color::Reset));
        rows.push(unsigned_row(width, PRIO, self.prio, Color::Green));
        rows.push(unsigned_row(width, CLOCK_DELTA, self.clock_delta, Color::Green));
        rows.push(unsigned_row(width, NUMA_SCAN_SEQ, self.numa_scan_seq, Color::Green));
        rows.push(unsigned_row(width, NUMA_PAGES_MIGRATED, self.numa_pages_migrated, Color::Green));
        rows.push(signed_row(width, NUMA_PREFERRED_NID, self.numa_preferred_nid, Color::LightBlue));
        rows.push(unsigned_row(width, TOTAL_NUMA_FAULTS, self.total_numa_faults, Color::Green));
        rows
    }
}

} // verus!
