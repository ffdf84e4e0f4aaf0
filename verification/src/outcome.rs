//! The data a probe produces: the resolved destination, the terminal
//! outcome of one echo exchange, and the failure values on the way there.

use vstd::prelude::*;

verus! {

/// A resolved destination: a routable IPv4 address and the name shown for
/// it.
#[derive(Debug)]
pub struct ResolvedTarget {
    pub address: u32,
    pub display_name: String,
}

/// The model of a resolved destination.
pub ghost struct TargetModel {
    pub address: u32,
    pub display_name: Seq<char>,
}

impl View for ResolvedTarget {
    type V = TargetModel;

    open spec fn view(&self) -> TargetModel {
        TargetModel { address: self.address, display_name: self.display_name@ }
    }
}

/// No usable IPv4 address could be obtained for a destination. Fatal for
/// the probe that hit it; it carries the raw input and the underlying
/// cause.
#[derive(Debug)]
pub struct ResolutionFailure {
    pub input: String,
    pub cause: String,
}

/// The model of a resolution failure.
pub ghost struct FailureModel {
    pub input: Seq<char>,
    pub cause: Seq<char>,
}

impl View for ResolutionFailure {
    type V = FailureModel;

    open spec fn view(&self) -> FailureModel {
        FailureModel { input: self.input@, cause: self.cause@ }
    }
}

/// The model of a resolver result.
pub open spec fn resolve_result_view(r: Result<ResolvedTarget, ResolutionFailure>) -> Result<
    TargetModel,
    FailureModel,
> {
    match r {
        Ok(t) => Ok(t@),
        Err(f) => Err(f@),
    }
}

/// The terminal artifact of one probe: a reply from a responder, a failure
/// the operating system reported, or a destination that could not be
/// resolved.
#[derive(Debug)]
pub enum EchoOutcome {
    Success { responder: u32, reply: Vec<u8> },
    OsFailure { code: u32, message: String },
    ResolutionFailure { input: String, cause: String },
}

/// The model of a probe outcome.
pub ghost enum OutcomeModel {
    Success { responder: u32, reply: Seq<u8> },
    OsFailure { code: u32, message: Seq<char> },
    ResolutionFailure { input: Seq<char>, cause: Seq<char> },
}

impl View for EchoOutcome {
    type V = OutcomeModel;

    open spec fn view(&self) -> OutcomeModel {
        match self {
            EchoOutcome::Success { responder, reply } => OutcomeModel::Success {
                responder: *responder,
                reply: reply@,
            },
            EchoOutcome::OsFailure { code, message } => OutcomeModel::OsFailure {
                code: *code,
                message: message@,
            },
            EchoOutcome::ResolutionFailure { input, cause } => OutcomeModel::ResolutionFailure {
                input: input@,
                cause: cause@,
            },
        }
    }
}

/// A reply buffer too short to hold the reply header it claims: a sizing
/// bug in the caller, kept apart from the network-level failures.
#[derive(Debug)]
pub struct MalformedReply {
    pub have: usize,
    pub need: usize,
}

} // verus!
