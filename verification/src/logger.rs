//! Logging configuration and its filtering rule.
//!
//! The state lives in one value the host keeps wherever it likes; the
//! decision of whether a message at some level passes the configured
//! threshold is made here.  Writing the message out is the host's business.

use vstd::prelude::*;

verus! {

/// A log message's severity, least severe first.
#[derive(Clone, Copy, PartialEq, Eq, Structural, Debug)]
pub enum LogLevel {
    Debug,
    Info,
    Warn,
    Error,
}

/// The rank of a level: a message passes when its rank is at least the
/// configured level's rank.
pub open spec fn severity(level: LogLevel) -> int {
    match level {
        LogLevel::Debug => 0,
        LogLevel::Info => 1,
        LogLevel::Warn => 2,
        LogLevel::Error => 3,
    }
}

/// The logging switch and threshold.
pub struct LoggerState {
    enabled: bool,
    level: LogLevel,
}

impl LoggerState {
    pub closed spec fn spec_enabled(self) -> bool {
        self.enabled
    }

    pub closed spec fn spec_level(self) -> LogLevel {
        self.level
    }

    /// Logging starts disabled, with the threshold at `Info`.
    pub fn new() -> (r: LoggerState)
        ensures
            !r.spec_enabled(),
            r.spec_level() == LogLevel::Info,
    {
        LoggerState { enabled: false, level: LogLevel::Info }
    }
}

/// Turns log output on or off.
pub fn enable_logging(state: &mut LoggerState, enable: bool)
    ensures
        final(state).spec_enabled() == enable,
        final(state).spec_level() == old(state).spec_level(),
{
    state.enabled = enable;
}

/// Whether log output is on.
pub fn is_logging_enabled(state: &LoggerState) -> (r: bool)
    ensures
        r == state.spec_enabled(),
{
    state.enabled
}

/// Sets the threshold level.
pub fn set_log_level(state: &mut LoggerState, level: LogLevel)
    ensures
        final(state).spec_level() == level,
        final(state).spec_enabled() == old(state).spec_enabled(),
{
    state.level = level;
}

/// The configured threshold level.
pub fn get_log_level(state: &LoggerState) -> (r: LogLevel)
    ensures
        r == state.spec_level(),
{
    state.level
}

/// Whether a message at `level` should be written: logging must be on and
/// the message at least as severe as the threshold.
pub fn should_log(state: &LoggerState, level: LogLevel) -> (r: bool)
    ensures
        r == (state.spec_enabled() && severity(level) >= severity(state.spec_level())),
{
    if !state.enabled {
        return false;
    }
    match (state.level, level) {
        (LogLevel::Debug, _) => true,
        (LogLevel::Info, LogLevel::Info) => true,
        (LogLevel::Info, LogLevel::Warn) => true,
        (LogLevel::Info, LogLevel::Error) => true,
        (LogLevel::Warn, LogLevel::Warn) => true,
        (LogLevel::Warn, LogLevel::Error) => true,
        (LogLevel::Error, LogLevel::Error) => true,
        _ => false,
    }
}

} // verus!
