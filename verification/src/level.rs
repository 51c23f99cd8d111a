//! Log severity levels, ordered from least to most severe.

use vstd::prelude::*;

verus! {

/// A log record's severity. Levels are ordered
/// `Trace < Debug < Info < Warn < Error`.
#[derive(Clone, Copy, PartialEq, Eq, Structural, Debug)]
pub enum Level {
    Trace,
    Debug,
    Info,
    Warn,
    Error,
}

impl Level {
    /// The numeric rank of a level; larger means more severe.
    pub open spec fn severity(self) -> int {
        match self {
            Level::Trace => 0,
            Level::Debug => 1,
            Level::Info => 2,
            Level::Warn => 3,
            Level::Error => 4,
        }
    }

    /// The level's upper-case name, as it appears in a wire message.
    pub open spec fn name(self) -> Seq<char> {
        match self {
            Level::Trace => "TRACE"@,
            Level::Debug => "DEBUG"@,
            Level::Info => "INFO"@,
            Level::Warn => "WARN"@,
            Level::Error => "ERROR"@,
        }
    }

    /// The level's upper-case name.
    pub fn as_str(self) -> (s: &'static str)
        ensures
            s@ == self.name(),
    {
        match self {
            Level::Trace => "TRACE",
            Level::Debug => "DEBUG",
            Level::Info => "INFO",
            Level::Warn => "WARN",
            Level::Error => "ERROR",
        }
    }

    /// True when `self` is at least as severe as `other`.
    pub fn at_least(self, other: Level) -> (r: bool)
        ensures
            r == (self.severity() >= other.severity()),
    {
        let a: u8 = match self {
            Level::Trace => 0,
            Level::Debug => 1,
            Level::Info => 2,
            Level::Warn => 3,
            Level::Error => 4,
        };
        let b: u8 = match other {
            Level::Trace => 0,
            Level::Debug => 1,
            Level::Info => 2,
            Level::Warn => 3,
            Level::Error => 4,
        };
        a >= b
    }
}

} // verus!
