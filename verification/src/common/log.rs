//! Levels of log messages.
use vstd::prelude::*;

verus! {

/// Level of a log message.
#[derive(Debug, Clone, Copy, PartialEq, Eq, PartialOrd, Ord, Hash, Structural)]
pub enum LogLevel {
    Quiet,
    Panic,
    Fatal,
    Error,
    Warning,
    Info,
    Verbose,
    Debug,
    Trace,
}

impl LogLevel {
    /// The number by which it is known.
    pub open spec fn code(self) -> int {
        match self {
            LogLevel::Quiet => -8,
            LogLevel::Panic => 0,
            LogLevel::Fatal => 8,
            LogLevel::Error => 16,
            LogLevel::Warning => 24,
            LogLevel::Info => 32,
            LogLevel::Verbose => 40,
            LogLevel::Debug => 48,
            LogLevel::Trace => 56,
        }
    }

    /// The number by which it is known.
    pub fn number(self) -> (r: i32)
        ensures
            r == self.code(),
    {
        match self {
            LogLevel::Quiet => -8,
            LogLevel::Panic => 0,
            LogLevel::Fatal => 8,
            LogLevel::Error => 16,
            LogLevel::Warning => 24,
            LogLevel::Info => 32,
            LogLevel::Verbose => 40,
            LogLevel::Debug => 48,
            LogLevel::Trace => 56,
        }
    }
}

/// Severity of a log record.
#[derive(Debug, Clone, Copy, PartialEq, Eq, Structural)]
pub enum Severity {
    Error,
    Warn,
    Info,
    Debug,
    Trace,
}

impl LogLevel {
    /// The severity of the records of this level.
    pub open spec fn severity(self) -> Severity {
        match self {
            LogLevel::Quiet | LogLevel::Panic | LogLevel::Fatal | LogLevel::Error => Severity::Error,
            LogLevel::Warning => Severity::Warn,
            LogLevel::Info | LogLevel::Verbose => Severity::Info,
            LogLevel::Debug => Severity::Debug,
            LogLevel::Trace => Severity::Trace,
        }
    }

    /// The severity of the records of this level.
    pub fn to_tracing_level(self) -> (r: Severity)
        ensures
            r == self.severity(),
    {
        match self {
            LogLevel::Quiet | LogLevel::Panic | LogLevel::Fatal | LogLevel::Error => Severity::Error,
            LogLevel::Warning => Severity::Warn,
            LogLevel::Info | LogLevel::Verbose => Severity::Info,
            LogLevel::Debug => Severity::Debug,
            LogLevel::Trace => Severity::Trace,
        }
    }
}

} // verus!
