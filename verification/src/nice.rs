//! Niceness: its bounds, a checked niceness value, and what the operating
//! system's answers to setting and reading a niceness mean.

use crate::text::{ascii_chars, decimal_text, i32_literal, parse_i32, push_decimal_str};
use vstd::prelude::*;
use vstd::string::StringSliceAdditionalSpecFns;

verus! {

/// The lowest niceness the operating system accepts (highest priority).
pub const MIN_NICE_LEVEL: i32 = -20;

/// The highest niceness the operating system accepts (lowest priority).
pub const MAX_NICE_LEVEL: i32 = 19;

/// The operating system's error number for "operation not permitted".
pub const EPERM: i32 = 1;

/// The operating system's error number for "permission denied".
pub const EACCES: i32 = 13;

/// What is said when the niceness may not be lowered.
pub const EACCES_DESC: &'static str =
    "The caller attempted to set a lower nice value (i.e., a higher process priority), but did not have the required privilege (on Linux: did not have the CAP_SYS_NICE capability).";

/// What is said when the process belongs to somebody else.
pub const EPERM_DESC: &'static str =
    "A process was located, but its effective user ID did not match either the effective or the real user ID of the caller, and was not privileged (on Linux: did not have the CAP_SYS_NICE capability). See https://man7.org/linux/man-pages/man2/getpriority.2.html";

/// Whether `prio` lies in the niceness range.
pub open spec fn valid_nice_level(prio: int) -> bool {
    MIN_NICE_LEVEL <= prio <= MAX_NICE_LEVEL
}

/// Bounds check of a niceness value.
pub fn is_valid_nice_level(prio: i32) -> (valid: bool)
    ensures
        valid == valid_nice_level(prio as int),
{
    !(prio > MAX_NICE_LEVEL || prio < MIN_NICE_LEVEL)
}

/// A niceness that is known to lie in the niceness range.
#[derive(Clone, Copy, Debug, PartialEq, Eq, PartialOrd, Ord, Structural)]
pub struct NiceLevel(i32);

impl View for NiceLevel {
    type V = int;

    closed spec fn view(&self) -> int {
        self.0 as int
    }
}

/// What reading the text `s` as a niceness gives: the niceness, or what is
/// wrong with the text.
pub open spec fn nice_level_of_text(s: Seq<u8>) -> Result<int, Seq<char>> {
    match i32_literal(s) {
        None => Err("not an integer"@),
        Some(level) => if valid_nice_level(level as int) {
            Ok(level as int)
        } else {
            Err("invalid nice level"@)
        },
    }
}

impl NiceLevel {
    #[verifier::type_invariant]
    spec fn in_range(self) -> bool {
        valid_nice_level(self.0 as int)
    }

    /// Makes a niceness of `inner`, if that is one.
    pub fn new(inner: i32) -> (level: Option<Self>)
        ensures
            valid_nice_level(inner as int) ==> (level matches Some(l) && l@ == inner),
            !valid_nice_level(inner as int) ==> level is None,
    {
        if is_valid_nice_level(inner) {
            Some(Self(inner))
        } else {
            None
        }
    }

    /// The niceness as a number.
    pub fn get(&self) -> (level: i32)
        ensures
            level == self@,
            valid_nice_level(level as int),
    {
        proof {
            use_type_invariant(self);
        }
        self.0
    }

    /// Reads a niceness from its decimal text.
    pub fn parse(s: &[u8]) -> (r: Result<Self, String>)
        ensures
            match nice_level_of_text(s@) {
                Ok(level) => r matches Ok(l) && l@ == level,
                Err(message) => r matches Err(m) && m@ == message,
            },
    {
        match parse_i32(s) {
            None => Err("not an integer".to_owned()),
            Some(inner) => match Self::new(inner) {
                Some(level) => Ok(level),
                None => Err("invalid nice level".to_owned()),
            },
        }
    }
}

impl std::str::FromStr for NiceLevel {
    type Err = String;

    fn from_str(s: &str) -> (r: Result<Self, Self::Err>)
        ensures
            match nice_level_of_text(s.spec_bytes()) {
                Ok(level) => r matches Ok(l) && l@ == level,
                Err(message) => r matches Err(m) && m@ == message,
            },
    {
        NiceLevel::parse(s.as_bytes())
    }
}

/// Why the niceness of this process could not be set.
#[derive(Debug)]
pub enum ReniceError {
    /// The requested value is no niceness.
    InvalidNiceLevel(i32),
    /// The caller may not lower its niceness (`EACCES`).
    Access,
    /// The caller may not touch the process (`EPERM`).
    Permission,
}

impl ReniceError {
    /// What to tell the user about this failure.
    pub fn to_string(&self) -> (message: String)
        ensures
            self is Access ==> message@ == EACCES_DESC@,
            self is Permission ==> message@ == EPERM_DESC@,
            self matches ReniceError::InvalidNiceLevel(level) ==> message@
                == "Received invalid nice level: "@ + ascii_chars(decimal_text(*level as int)),
    {
        match self {
            ReniceError::Access => EACCES_DESC.to_owned(),
            ReniceError::Permission => EPERM_DESC.to_owned(),
            ReniceError::InvalidNiceLevel(level) => {
                let mut message: String = "Received invalid nice level: ".to_owned();
                push_decimal_str(&mut message, *level as i64);
                message
            },
        }
    }
}

/// Why the niceness of a process could not be read.
#[derive(Debug, Clone, Copy, PartialEq, Eq, PartialOrd, Ord, Structural)]
pub enum GetniceError {
    /// The caller may not look at the process (`EPERM`).
    Permission,
}

impl GetniceError {
    /// What to tell the user about this failure.
    pub fn to_string(&self) -> (message: String)
        ensures
            message@ == EPERM_DESC@,
    {
        EPERM_DESC.to_owned()
    }
}

/// Decides whether the operating system is asked to set the niceness
/// `new_prio`: only a value in the niceness range is handed on.
pub fn renice_request(new_prio: i32) -> (r: Result<NiceLevel, ReniceError>)
    ensures
        valid_nice_level(new_prio as int) ==> (r matches Ok(level) && level@ == new_prio),
        !valid_nice_level(new_prio as int) ==> (r matches Err(ReniceError::InvalidNiceLevel(p))
            && p == new_prio),
{
    match NiceLevel::new(new_prio) {
        Some(level) => Ok(level),
        None => Err(ReniceError::InvalidNiceLevel(new_prio)),
    }
}

/// What the operating system's answer to setting the niceness means.
/// `status` is what the call returned and `errno` the error number that it
/// left. Of the errors only `EACCES` and `EPERM` can come of a call that
/// names this process and a niceness in range.
pub fn renice_outcome(status: i32, errno: i32) -> (r: Result<(), ReniceError>)
    requires
        status == -1 ==> errno == EACCES || errno == EPERM,
    ensures
        status != -1 ==> r is Ok,
        status == -1 && errno == EACCES ==> r matches Err(ReniceError::Access),
        status == -1 && errno == EPERM ==> r matches Err(ReniceError::Permission),
{
    if status == -1 {
        if errno == EACCES {
            Err(ReniceError::Access)
        } else {
            Err(ReniceError::Permission)
        }
    } else {
        Ok(())
    }
}

/// What the operating system's answer to reading a niceness means. `prio`
/// is what the call returned and `errno` the error number that it left,
/// which was zero before the call: `-1` is a niceness unless an error
/// number came with it. Of the errors only `EPERM` can come.
pub fn getnice_outcome(prio: i32, errno: i32) -> (r: Result<i32, GetniceError>)
    requires
        prio == -1 && errno != 0 ==> errno == EPERM,
    ensures
        prio == -1 && errno != 0 ==> r matches Err(GetniceError::Permission),
        !(prio == -1 && errno != 0) ==> r == Ok::<i32, GetniceError>(prio),
{
    if prio == -1 && errno != 0 {
        Err(GetniceError::Permission)
    } else {
        Ok(prio)
    }
}

} // verus!
