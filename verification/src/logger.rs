//! Which messages are worth writing down, and how they are marked.

use crate::utils::error::{rendered, Error};
use vstd::prelude::*;
use vstd::string::StringExecFns;

verus! {

/// Above every message: a logger at this level writes nothing.
pub const LOG_LEVEL_HIGHEST: u8 = 4;

/// The level of errors.
pub const LOG_LEVEL_ERROR: u8 = 3;

/// The level of warnings.
pub const LOG_LEVEL_WARNING: u8 = 2;

/// The level of information.
pub const LOG_LEVEL_INFO: u8 = 1;

/// The level of messages for debugging.
pub const LOG_LEVEL_DEBUG: u8 = 0;

/// How much a server is configured to say.
#[derive(Debug, Clone, Copy, PartialEq, Eq, Structural)]
pub enum LogLevel {
    Critical,
    Normal,
    Debug,
    Off,
}

/// Decides which messages are written: those at or above its level.
#[derive(Debug, Clone, Copy, PartialEq, Eq, Structural)]
pub struct Logger {
    minimum_level: u8,
}

/// The lowest level that is written under a configured level: warnings when
/// only critical messages are wanted, information normally, everything for
/// debugging, and nothing at all when logging is off.
pub open spec fn minimum_level_of(log_level: LogLevel) -> u8 {
    match log_level {
        LogLevel::Critical => LOG_LEVEL_WARNING,
        LogLevel::Normal => LOG_LEVEL_INFO,
        LogLevel::Debug => LOG_LEVEL_DEBUG,
        LogLevel::Off => LOG_LEVEL_HIGHEST,
    }
}

/// A message of `level` as a logger with the lowest level `minimum` writes
/// it: after `mark`, or not at all if the level is too low.
pub open spec fn written(minimum: u8, level: u8, mark: Seq<char>, message: Seq<char>) -> Option<
    Seq<char>,
> {
    if minimum <= level {
        Some(mark + message)
    } else {
        None
    }
}

/// The view of an optional line.
pub open spec fn line_view(line: Option<String>) -> Option<Seq<char>> {
    match line {
        Some(text) => Some(text@),
        None => None,
    }
}

impl Logger {
    /// The lowest level that the logger writes.
    pub closed spec fn minimum(&self) -> u8 {
        self.minimum_level
    }

    /// The logger for a configured level.
    pub fn from(log_level: LogLevel) -> (logger: Logger)
        ensures
            logger.minimum() == minimum_level_of(log_level),
    {
        Logger {
            minimum_level: match log_level {
                LogLevel::Critical => LOG_LEVEL_WARNING,
                LogLevel::Normal => LOG_LEVEL_INFO,
                LogLevel::Debug => LOG_LEVEL_DEBUG,
                LogLevel::Off => LOG_LEVEL_HIGHEST,
            },
        }
    }

    fn write(&self, level: u8, mark: &str, message: &str) -> (line: Option<String>)
        ensures
            line_view(line) == written(self.minimum(), level, mark@, message@),
    {
        if self.minimum_level <= level {
            let mut line = String::from_str(mark);
            line.append(message);
            Some(line)
        } else {
            None
        }
    }

    /// The line for an error, in its detailed form.
    pub fn error(&self, error: &Error) -> (line: Option<String>)
        requires
            error@.nesting() <= usize::MAX,
        ensures
            line_view(line) == written(
                self.minimum(),
                LOG_LEVEL_ERROR,
                "[maidono: error] "@,
                rendered(error@.detailed(0)),
            ),
    {
        if self.minimum_level <= LOG_LEVEL_ERROR {
            let text = error.to_detailed_string();
            self.write(LOG_LEVEL_ERROR, "[maidono: error] ", text.as_str())
        } else {
            None
        }
    }

    /// The line for a message about an error.
    pub fn error_message(&self, message: &str) -> (line: Option<String>)
        ensures
            line_view(line) == written(
                self.minimum(),
                LOG_LEVEL_ERROR,
                "[maidono: error] "@,
                message@,
            ),
    {
        self.write(LOG_LEVEL_ERROR, "[maidono: error] ", message)
    }

    /// The line for a piece of information.
    pub fn log(&self, message: &str) -> (line: Option<String>)
        ensures
            line_view(line) == written(
                self.minimum(),
                LOG_LEVEL_INFO,
                "[maidono: info] "@,
                message@,
            ),
    {
        self.write(LOG_LEVEL_INFO, "[maidono: info] ", message)
    }

    /// The line for a message that helps debugging.
    pub fn debug_message(&self, message: &str) -> (line: Option<String>)
        ensures
            line_view(line) == written(
                self.minimum(),
                LOG_LEVEL_DEBUG,
                "[maidono: debug] "@,
                message@,
            ),
    {
        self.write(LOG_LEVEL_DEBUG, "[maidono: debug] ", message)
    }
}

} // verus!
