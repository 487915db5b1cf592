//! Runtime-agnostic logging.
//!
//! Hosts hand the crate a logger of their own; a console logger and a silent
//! one come built in. The line a console logger prints is assembled here; the
//! printing itself is the one trusted step.

use std::io::Write;
use vstd::prelude::*;

verus! {

use vstd::string::StringExecFns;

/// Logger abstraction for the crate's diagnostics.
pub trait Logger {
    /// Log a debug message.
    fn debug(&self, message: &str);

    /// Log an informational message.
    fn info(&self, message: &str);

    /// Log a warning.
    fn warn(&self, message: &str);

    /// Log an error.
    fn error(&self, message: &str);
}

/// A logger that does nothing; for tests and hosts without diagnostics.
#[derive(Clone, Copy)]
pub struct NoOpLogger;

impl NoOpLogger {
    /// Make a silent logger.
    pub fn new() -> (r: Self) {
        NoOpLogger
    }
}

impl Logger for NoOpLogger {
    fn debug(&self, message: &str) {
    }

    fn info(&self, message: &str) {
    }

    fn warn(&self, message: &str) {
    }

    fn error(&self, message: &str) {
    }
}

/// Relies on writeln to standard output.
#[verifier::external_body]
fn print_out(line: &str) {
    let mut out = std::io::stdout();
    let _ = writeln!(out, "{}", line);
}

/// Relies on writeln to standard error.
#[verifier::external_body]
fn print_err(line: &str) {
    let mut err = std::io::stderr();
    let _ = writeln!(err, "{}", line);
}

/// A logger that prints to the console: informational messages to standard
/// output, the rest to standard error.
pub struct ConsoleLogger {
    /// The prefix every printed line starts with.
    pub prefix: String,
}

impl ConsoleLogger {
    /// A console logger with the default prefix.
    pub fn new() -> (r: Self)
        ensures
            r.prefix@ == "[OpenLLM]"@,
    {
        ConsoleLogger { prefix: String::from_str("[OpenLLM]") }
    }

    /// A console logger with a custom prefix.
    pub fn with_prefix(prefix: &str) -> (r: Self)
        ensures
            r.prefix@ == prefix@,
    {
        ConsoleLogger { prefix: String::from_str(prefix) }
    }

    /// The line printed for a level and message: prefix, level, message.
    pub fn format_line(&self, level: &str, message: &str) -> (r: String)
        ensures
            r@ == self.prefix@ + " "@ + level@ + ": "@ + message@,
    {
        let mut s = self.prefix.clone();
        s.append(" ");
        s.append(level);
        s.append(": ");
        s.append(message);
        s
    }
}

impl Logger for ConsoleLogger {
    fn debug(&self, message: &str) {
        let line = self.format_line("DEBUG", message);
        print_err(line.as_str());
    }

    fn info(&self, message: &str) {
        let line = self.format_line("INFO", message);
        print_out(line.as_str());
    }

    fn warn(&self, message: &str) {
        let line = self.format_line("WARN", message);
        print_err(line.as_str());
    }

    fn error(&self, message: &str) {
        let line = self.format_line("ERROR", message);
        print_err(line.as_str());
    }
}

/// Severity of a log line.
#[derive(Clone, Copy, PartialEq, Eq, PartialOrd, Ord, Debug)]
pub enum LogLevel {
    Trace,
    Debug,
    Info,
    Warn,
    Error,
}

impl LogLevel {
    /// The level's label, as the log file shows it.
    pub fn as_label(&self) -> (r: &'static str)
        ensures
            match self {
                LogLevel::Trace => r@ == "TRACE"@,
                LogLevel::Debug => r@ == "DEBUG"@,
                LogLevel::Info => r@ == "INFO "@,
                LogLevel::Warn => r@ == "WARN "@,
                LogLevel::Error => r@ == "ERROR"@,
            },
    {
        match self {
            LogLevel::Trace => "TRACE",
            LogLevel::Debug => "DEBUG",
            LogLevel::Info => "INFO ",
            LogLevel::Warn => "WARN ",
            LogLevel::Error => "ERROR",
        }
    }

    /// The level's rank: higher means more severe.
    pub open spec fn spec_rank(&self) -> u8 {
        match self {
            LogLevel::Trace => 0,
            LogLevel::Debug => 1,
            LogLevel::Info => 2,
            LogLevel::Warn => 3,
            LogLevel::Error => 4,
        }
    }

    /// The level's rank, as a value.
    pub fn rank(&self) -> (r: u8)
        ensures
            r == self.spec_rank(),
    {
        match self {
            LogLevel::Trace => 0,
            LogLevel::Debug => 1,
            LogLevel::Info => 2,
            LogLevel::Warn => 3,
            LogLevel::Error => 4,
        }
    }
}

/// Whether a line at this level passes a threshold: it does exactly when
/// logging is enabled and the level's rank reaches the threshold's.
pub fn should_log(enabled: bool, min_level: LogLevel, level: LogLevel) -> (r: bool)
    ensures
        r == (enabled && level.spec_rank() >= min_level.spec_rank()),
{
    enabled && level.rank() >= min_level.rank()
}

} // verus!
