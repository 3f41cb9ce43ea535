//! Log levels and the filtering decision; the bytes themselves leave through
//! the serial console outside this crate.

use vstd::prelude::*;

verus! {

/// Message severities, most severe first.
#[derive(Clone, Copy, PartialEq, Eq, Structural, Debug)]
pub enum LogLevel {
    Off,
    Fatal,
    Error,
    Warn,
    Info,
    Debug,
}

impl LogLevel {
    /// Verbosity rank: higher ranks include more.
    pub open spec fn rank(self) -> u32 {
        match self {
            LogLevel::Off => 0,
            LogLevel::Fatal => 1,
            LogLevel::Error => 2,
            LogLevel::Warn => 3,
            LogLevel::Info => 4,
            LogLevel::Debug => 5,
        }
    }

    /// Verbosity rank: higher ranks include more.
    pub fn rank_value(self) -> (r: u32)
        ensures
            r == self.rank(),
    {
        match self {
            LogLevel::Off => 0,
            LogLevel::Fatal => 1,
            LogLevel::Error => 2,
            LogLevel::Warn => 3,
            LogLevel::Info => 4,
            LogLevel::Debug => 5,
        }
    }
}

/// The logger: the threshold below which messages pass.
pub struct Logger {
    pub level: LogLevel,
}

impl Logger {
    /// A logger that lets everything through.
    pub fn new() -> (r: Logger)
        ensures
            r.level == LogLevel::Debug,
    {
        Logger { level: LogLevel::Debug }
    }

    /// Raises or lowers the threshold.
    pub fn set_log_level(&mut self, level: LogLevel)
        ensures
            final(self).level == level,
    {
        self.level = level;
    }

    /// Whether a message of this severity passes the current threshold.
    pub fn should_log(&self, level: LogLevel) -> (r: bool)
        ensures
            r == (level.rank() <= self.level.rank()),
    {
        level.rank_value() <= self.level.rank_value()
    }
}

} // verus!
