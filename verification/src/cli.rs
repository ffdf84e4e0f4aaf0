//! The command-line surface as data: the two subcommands and their
//! arguments. Reading the actual command line happens outside the library;
//! these types carry what it yields.

use vstd::prelude::*;

verus! {

/// The verbosity a user can ask for.
#[derive(Clone, Copy, PartialEq, Eq, Structural, Debug)]
pub enum OutputLevel {
    All,
    Default,
    Info,
    Warning,
    Error,
    Debug,
}

impl Default for OutputLevel {
    /// The verbosity used when none is asked for.
    fn default() -> (r: OutputLevel)
        ensures
            r == OutputLevel::Default,
    {
        OutputLevel::Default
    }
}

/// Arguments of the ping subcommand.
pub struct PingArgs {
    pub dest: String,
    pub ttl: u8,
    pub verbosity: OutputLevel,
}

impl Default for PingArgs {
    /// An empty destination, the default time-to-live of 128, and the
    /// default verbosity.
    fn default() -> (r: PingArgs)
        ensures
            r.dest@ == Seq::<char>::empty(),
            r.ttl == 128,
            r.verbosity == OutputLevel::Default,
    {
        PingArgs { dest: String::new(), ttl: 128, verbosity: OutputLevel::Default }
    }
}

/// Arguments of the trace subcommand, which prints its arguments and
/// performs no trace yet.
pub struct TraceArgs {
    pub dest: String,
    pub ttl: u8,
}

impl Default for TraceArgs {
    /// An empty destination and the default time-to-live of 128.
    fn default() -> (r: TraceArgs)
        ensures
            r.dest@ == Seq::<char>::empty(),
            r.ttl == 128,
    {
        TraceArgs { dest: String::new(), ttl: 128 }
    }
}

/// The subcommands the tool offers.
pub enum Commands {
    Ping(PingArgs),
    Trace(TraceArgs),
}

/// A parsed invocation: the chosen subcommand with its arguments.
pub struct Cli {
    pub command: Commands,
}

} // verus!
