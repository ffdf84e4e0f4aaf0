//! Log filtering over the standard severity levels: a logger holds the
//! threshold its verbosity asks for, decides which messages pass it, and
//! writes the ones it keeps, one tagged line each. The decision is the
//! logic here; the line itself goes to the standard error stream, where a
//! log sink would put it.

use vstd::prelude::*;
use std::io::Write;
use crate::cli::OutputLevel;

verus! {

/// A message's severity, or a logger's threshold: a message passes a
/// threshold exactly when its rank is no higher.
#[derive(Clone, Copy, PartialEq, Eq, Structural, Debug)]
pub enum LevelFilter {
    Error,
    Warn,
    Info,
    Debug,
    Trace,
}

/// The rank of a severity: the more verbose, the higher.
pub open spec fn rank(level: LevelFilter) -> nat {
    match level {
        LevelFilter::Error => 1,
        LevelFilter::Warn => 2,
        LevelFilter::Info => 3,
        LevelFilter::Debug => 4,
        LevelFilter::Trace => 5,
    }
}

/// A message at `severity` passes a logger whose threshold is `filter`.
pub open spec fn passes(filter: LevelFilter, severity: LevelFilter) -> bool {
    rank(severity) <= rank(filter)
}

/// The threshold each verbosity choice asks for.
pub open spec fn spec_level_of(level: OutputLevel) -> LevelFilter {
    match level {
        OutputLevel::All => LevelFilter::Trace,
        OutputLevel::Default => LevelFilter::Error,
        OutputLevel::Info => LevelFilter::Info,
        OutputLevel::Warning => LevelFilter::Warn,
        OutputLevel::Error => LevelFilter::Error,
        OutputLevel::Debug => LevelFilter::Debug,
    }
}

/// Relies on std::io::Stderr's write: one line, tag then message, on the
/// standard error stream, as a log sink would print it.
#[verifier::external_body]
fn emit_line(tag: &str, message: &str) {
    let _ = writeln!(std::io::stderr(), "[{}] {}", tag, message);
}

/// A logger: it keeps the threshold its verbosity asks for and writes
/// exactly the messages that pass it.
pub struct Logger {
    pub filter: LevelFilter,
}

impl Logger {
    /// A logger filtering at the threshold that `level` asks for.
    pub fn new(level: &OutputLevel) -> (r: Logger)
        ensures
            r.filter == spec_level_of(*level),
    {
        Logger { filter: Logger::from_output_level(level) }
    }

    /// What `new` returns, under the name some callers use.
    pub fn create_instance(level: &OutputLevel) -> (r: Logger)
        ensures
            r.filter == spec_level_of(*level),
    {
        Logger::new(level)
    }

    /// The numeric rank of this logger's threshold.
    fn rank_of(level: LevelFilter) -> (r: u8)
        ensures
            r as nat == rank(level),
    {
        match level {
            LevelFilter::Error => 1,
            LevelFilter::Warn => 2,
            LevelFilter::Info => 3,
            LevelFilter::Debug => 4,
            LevelFilter::Trace => 5,
        }
    }

    /// Whether a message at `severity` would be written.
    pub fn enabled(&self, severity: LevelFilter) -> (b: bool)
        ensures
            b == passes(self.filter, severity),
    {
        Logger::rank_of(severity) <= Logger::rank_of(self.filter)
    }

    /// Writes `message` as information, if the threshold lets it through.
    pub fn info(&self, message: &str) {
        if self.enabled(LevelFilter::Info) {
            emit_line("INFO", message);
        }
    }

    /// Writes `message` as an error, if the threshold lets it through.
    pub fn error(&self, message: &str) {
        if self.enabled(LevelFilter::Error) {
            emit_line("ERROR", message);
        }
    }

    /// Writes `message` as a warning, if the threshold lets it through.
    pub fn warn(&self, message: &str) {
        if self.enabled(LevelFilter::Warn) {
            emit_line("WARN", message);
        }
    }

    /// Writes `message` as debugging detail, if the threshold lets it
    /// through.
    pub fn debug(&self, message: &str) {
        if self.enabled(LevelFilter::Debug) {
            emit_line("DEBUG", message);
        }
    }

    /// Writes `message` as tracing detail, if the threshold lets it
    /// through.
    pub fn trace(&self, message: &str) {
        if self.enabled(LevelFilter::Trace) {
            emit_line("TRACE", message);
        }
    }

    /// Writes one message at every severity: what of it appears shows
    /// where the threshold stands.
    pub fn test_all(&self) {
        self.info("Information");
        self.error("Error");
        self.warn("Warning");
        self.debug("Debug");
        self.trace("Tracing");
    }

    /// The threshold that a verbosity choice asks for.
    fn from_output_level(level: &OutputLevel) -> (r: LevelFilter)
        ensures
            r == spec_level_of(*level),
    {
        match level {
            OutputLevel::All => LevelFilter::Trace,
            OutputLevel::Default => LevelFilter::Error,
            OutputLevel::Info => LevelFilter::Info,
            OutputLevel::Warning => LevelFilter::Warn,
            OutputLevel::Error => LevelFilter::Error,
            OutputLevel::Debug => LevelFilter::Debug,
        }
    }
}

} // verus!
