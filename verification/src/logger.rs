//! Which messages a logger lets through, and how a log line reads.

use vstd::prelude::*;
use vstd::string::StringExecFns;
use crate::clock::{CivilTime, date_stamp};

verus! {

/// How grave a message is. A logger is set to a level and lets through the
/// messages that are at least as grave.
#[derive(Clone, Copy, Debug, PartialEq, Eq, Structural)]
pub enum LogLevel {
    Error,
    Warning,
    Info,
}

impl LogLevel {
    /// The place of the level in the order from gravest to lightest.
    pub open spec fn rank(self) -> int {
        match self {
            LogLevel::Error => 0,
            LogLevel::Warning => 1,
            LogLevel::Info => 2,
        }
    }

    /// The tag that stands for the level in a log line.
    pub open spec fn prefix_text(self) -> Seq<char> {
        match self {
            LogLevel::Info => "[INFO]"@,
            LogLevel::Warning => "[WARN]"@,
            LogLevel::Error => "[ERROR]"@,
        }
    }

    /// Whether a message of this level is at least as grave as `limit`.
    pub fn passes(self, limit: LogLevel) -> (through: bool)
        ensures
            through == (self.rank() <= limit.rank()),
    {
        match (self, limit) {
            (LogLevel::Error, _) => true,
            (LogLevel::Warning, LogLevel::Error) => false,
            (LogLevel::Warning, _) => true,
            (LogLevel::Info, LogLevel::Info) => true,
            (LogLevel::Info, _) => false,
        }
    }

    /// The tag that stands for the level in a log line.
    pub fn prefix(self) -> (tag: &'static str)
        ensures
            tag@ == self.prefix_text(),
    {
        match self {
            LogLevel::Info => "[INFO]",
            LogLevel::Warning => "[WARN]",
            LogLevel::Error => "[ERROR]",
        }
    }
}

/// A logger: the level it is set to, and whether it also writes to the
/// system log.
#[derive(Clone, Copy, Debug)]
pub struct Logger {
    level: LogLevel,
    syslog: bool,
}

/// A log line: the time, the tag of the level, and the message.
pub open spec fn log_line(stamp: Seq<char>, level: LogLevel, msg: Seq<char>) -> Seq<char> {
    stamp + " "@ + level.prefix_text() + ": "@ + msg
}

impl Logger {
    /// The level the logger is set to.
    pub closed spec fn level(&self) -> LogLevel {
        self.level
    }

    /// Whether the logger also writes to the system log.
    pub closed spec fn syslog(&self) -> bool {
        self.syslog
    }

    /// A logger set to `level`.
    pub fn new(level: LogLevel, syslog: bool) -> (logger: Logger)
        ensures
            logger.level() == level,
            logger.syslog() == syslog,
    {
        Logger { level, syslog }
    }

    /// Whether every message goes to the system log as well, whatever its
    /// level.
    pub fn uses_syslog(&self) -> (syslog: bool)
        ensures
            syslog == self.syslog(),
    {
        self.syslog
    }

    /// The line that shows the date of the instant `now`, given in seconds
    /// since the start of 1970.
    pub fn println_info(&self, now: Option<u64>) -> (line: String)
        ensures
            match now {
                Some(secs) => exists|time: CivilTime| #[trigger]
                    time.is_time_of(secs) && line@ == time.date_text(),
                None => line@ == "[Wrong System Time]"@,
            },
    {
        date_stamp(now)
    }

    /// The line to print for a message of level `level` at the time
    /// `stamp`, or `None` if the message is lighter than the logger's
    /// level. The line carries the tag of the logger's own level.
    pub fn send(&self, level: LogLevel, msg: &str, stamp: &str) -> (line: Option<String>)
        ensures
            match line {
                Some(text) => level.rank() <= self.level().rank() && text@ == log_line(
                    stamp@,
                    self.level(),
                    msg@,
                ),
                None => level.rank() > self.level().rank(),
            },
    {
        if !level.passes(self.level) {
            return None;
        }
        let mut text = String::from_str(stamp);
        text.append(" ");
        text.append(self.level.prefix());
        text.append(": ");
        text.append(msg);
        Some(text)
    }
}

} // verus!
