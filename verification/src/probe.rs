//! One probe as a state machine, and the orchestrator over it. A probe
//! moves strictly forward, `Created` to `Resolving` to `Sending` to
//! `Interpreting` to `Done`; a resolution failure jumps straight to `Done`,
//! and `Done` is terminal. The orchestrator runs any number of such probes,
//! each against its own copy of the request and its own answers from the
//! environment, and aggregates one outcome per probe: a failure of one
//! probe never touches a sibling.

use vstd::prelude::*;
use crate::addr;
use crate::addr::{ipv4_value, is_ipv4_literal};
use crate::icmp::{interpret, interpret_model, interpret_result_view};
use crate::outcome::{
    EchoOutcome, FailureModel, MalformedReply, OutcomeModel, ResolutionFailure, ResolvedTarget,
    TargetModel,
};
use crate::request::{ProbeRequest, RequestModel};
use crate::resolve::{resolve_from_lookup, resolve_literal, resolve_lookup_model, lookup_view};

verus! {

/// Where one probe stands: each variant carries what the probe owns there.
pub enum ProbeState {
    Created { request: ProbeRequest },
    Resolving { request: ProbeRequest },
    Sending { request: ProbeRequest, target: ResolvedTarget },
    Interpreting {
        request: ProbeRequest,
        target: ResolvedTarget,
        result_code: u32,
        reply: Vec<u8>,
        last_error: u32,
        error_text: String,
    },
    Done { outcome: EchoOutcome },
}

/// How far along a probe is: transitions only ever increase it.
pub open spec fn phase_index(s: ProbeState) -> nat {
    match s {
        ProbeState::Created { .. } => 0,
        ProbeState::Resolving { .. } => 1,
        ProbeState::Sending { .. } => 2,
        ProbeState::Interpreting { .. } => 3,
        ProbeState::Done { .. } => 4,
    }
}

impl ProbeState {
    /// Begins the pipeline: a created probe starts resolving.
    pub fn start(self) -> (r: ProbeState)
        requires
            self is Created,
        ensures
            phase_index(r) > phase_index(self),
            self matches ProbeState::Created { request } ==> r == (ProbeState::Resolving {
                request,
            }),
    {
        match self {
            ProbeState::Created { request } => ProbeState::Resolving { request },
            _ => unreached(),
        }
    }

    /// Takes what the resolver decided: a resolved target moves the probe on
    /// to sending; a resolution failure is terminal and becomes the
    /// probe's outcome.
    pub fn on_resolved(self, resolution: Result<ResolvedTarget, ResolutionFailure>) -> (r:
        ProbeState)
        requires
            self is Resolving,
        ensures
            phase_index(r) > phase_index(self),
            self matches ProbeState::Resolving { request } ==> (resolution matches Ok(target)
                ==> r == (ProbeState::Sending { request, target })),
            resolution matches Err(f) ==> r == (ProbeState::Done {
                outcome: EchoOutcome::ResolutionFailure { input: f.input, cause: f.cause },
            }),
    {
        match (self, resolution) {
            (ProbeState::Resolving { request }, Ok(target)) => ProbeState::Sending {
                request,
                target,
            },
            (ProbeState::Resolving { request: _ }, Err(f)) => ProbeState::Done {
                outcome: EchoOutcome::ResolutionFailure { input: f.input, cause: f.cause },
            },
            _ => unreached(),
        }
    }

    /// Takes what the echo call returned, verbatim, together with the OS's
    /// account of the last error for the case where the result code turns
    /// out to be the failure sentinel.
    pub fn on_reply(self, result_code: u32, reply: Vec<u8>, last_error: u32, error_text: String) -> (r:
        ProbeState)
        requires
            self is Sending,
        ensures
            phase_index(r) > phase_index(self),
            self matches ProbeState::Sending { request, target } ==> r == (ProbeState::Interpreting {
                request,
                target,
                result_code,
                reply,
                last_error,
                error_text,
            }),
    {
        match self {
            ProbeState::Sending { request, target } => ProbeState::Interpreting {
                request,
                target,
                result_code,
                reply,
                last_error,
                error_text,
            },
            _ => unreached(),
        }
    }

    /// Interprets the raw exchange and finishes the probe; a reply buffer
    /// too short for the declared header is a sizing bug and surfaces as
    /// `MalformedReply` instead of an outcome.
    pub fn on_interpreted(self, header_size: usize) -> (r: Result<ProbeState, MalformedReply>)
        requires
            self is Interpreting,
        ensures
            self matches ProbeState::Interpreting {
                request: _,
                target: _,
                result_code,
                reply,
                last_error,
                error_text,
            } ==> (match r {
                Ok(s2) => phase_index(s2) > phase_index(self) && (s2 matches ProbeState::Done {
                    outcome,
                } && interpret_model(result_code, reply@, header_size, last_error, error_text@)
                    == Ok::<OutcomeModel, MalformedReply>(outcome@)),
                Err(m) => interpret_model(result_code, reply@, header_size, last_error, error_text@)
                    == Err::<OutcomeModel, MalformedReply>(m),
            }),
    {
        match self {
            ProbeState::Interpreting {
                request: _,
                target: _,
                result_code,
                reply,
                last_error,
                error_text,
            } => {
                match interpret(result_code, reply, header_size, last_error, error_text) {
                    Ok(outcome) => Ok(ProbeState::Done { outcome }),
                    Err(m) => Err(m),
                }
            },
            _ => unreached(),
        }
    }
}

/// The environment's answers for one probe: what its reverse lookup, its
/// forward lookup and its echo exchange returned. A deterministic stand-in
/// for the network, so that a probe's behaviour is a function of it.
pub struct ProbeTranscript {
    pub reverse: Option<String>,
    pub lookup: Result<Vec<String>, String>,
    pub result_code: u32,
    pub reply: Vec<u8>,
    pub last_error: u32,
    pub error_text: String,
}

/// The model of one probe's environment answers.
pub ghost struct TranscriptModel {
    pub reverse: Option<Seq<char>>,
    pub lookup: Result<Seq<Seq<char>>, Seq<char>>,
    pub result_code: u32,
    pub reply: Seq<u8>,
    pub last_error: u32,
    pub error_text: Seq<char>,
}

impl View for ProbeTranscript {
    type V = TranscriptModel;

    open spec fn view(&self) -> TranscriptModel {
        TranscriptModel {
            reverse: match self.reverse {
                Some(n) => Some(n@),
                None => None,
            },
            lookup: lookup_view(self.lookup),
            result_code: self.result_code,
            reply: self.reply@,
            last_error: self.last_error,
            error_text: self.error_text@,
        }
    }
}

/// What resolution yields for `destination` under the answers in `t`: a
/// literal stands for itself, named by its reverse lookup where that
/// succeeded; anything else is decided by the forward lookup.
pub open spec fn resolution_model(destination: Seq<char>, t: TranscriptModel) -> Result<
    TargetModel,
    FailureModel,
> {
    if is_ipv4_literal(destination) {
        Ok(
            TargetModel {
                address: ipv4_value(destination),
                display_name: match t.reverse {
                    Some(n) => n,
                    None => destination,
                },
            },
        )
    } else {
        resolve_lookup_model(destination, t.lookup)
    }
}

/// The outcome one probe produces for `request` under the answers in `t`:
/// a resolution failure is itself the outcome, anything resolved goes on
/// to the exchange and its interpretation.
pub open spec fn probe_model(request: RequestModel, header_size: usize, t: TranscriptModel) -> Result<
    OutcomeModel,
    MalformedReply,
> {
    match resolution_model(request.destination, t) {
        Err(f) => Ok(OutcomeModel::ResolutionFailure { input: f.input, cause: f.cause }),
        Ok(_) => interpret_model(t.result_code, t.reply, header_size, t.last_error, t.error_text),
    }
}

/// Runs one probe's whole pipeline against the answers in `t`, through the
/// state machine: resolve, exchange, interpret. The outcome is exactly
/// what `probe_model` says for these inputs.
pub fn probe_with(request: &ProbeRequest, header_size: usize, t: ProbeTranscript) -> (r: Result<
    EchoOutcome,
    MalformedReply,
>)
    ensures
        interpret_result_view(r) == probe_model(request@, header_size, t@),
{
    let ghost tm = t@;
    let ProbeTranscript { reverse, lookup, result_code, reply, last_error, error_text } = t;
    let state = ProbeState::Created { request: request.duplicate() };
    let state = state.start();
    let resolution = match addr::parse_ipv4(request.destination.as_str()) {
        Some(_) => Ok(resolve_literal(request.destination.as_str(), reverse)),
        None => resolve_from_lookup(request.destination.as_str(), lookup),
    };
    proof {
        assert(crate::outcome::resolve_result_view(resolution) == resolution_model(
            request@.destination,
            tm,
        ));
    }
    let state = state.on_resolved(resolution);
    match state {
        ProbeState::Done { outcome } => Ok(outcome),
        ProbeState::Sending { request: owned_request, target } => {
            let state = ProbeState::Sending { request: owned_request, target }.on_reply(
                result_code,
                reply,
                last_error,
                error_text,
            );
            match state.on_interpreted(header_size) {
                Ok(finished) => match finished {
                    ProbeState::Done { outcome } => Ok(outcome),
                    _ => unreached(),
                },
                Err(m) => Err(m),
            }
        },
        _ => unreached(),
    }
}

/// Runs one independent probe per transcript against the same request and
/// aggregates their outcomes in order: exactly one outcome per probe, each
/// a function of that probe's own answers alone, so no probe's failure can
/// touch a sibling's outcome.
pub fn run(request: &ProbeRequest, header_size: usize, transcripts: Vec<ProbeTranscript>) -> (r: Vec<
    Result<EchoOutcome, MalformedReply>,
>)
    ensures
        r@.len() == transcripts@.len(),
        forall|i: int| 0 <= i < r@.len() ==> interpret_result_view(#[trigger] r@[i]) == probe_model(
            request@,
            header_size,
            transcripts@[i]@,
        ),
{
    let ghost orig = transcripts@;
    let mut remaining = transcripts;
    let mut results: Vec<Result<EchoOutcome, MalformedReply>> = Vec::new();
    proof {
        assert(remaining@ =~= orig.skip(0));
    }
    while remaining.len() > 0
        invariant
            results@.len() + remaining@.len() == orig.len(),
            remaining@ == orig.skip(results@.len() as int),
            forall|i: int| 0 <= i < results@.len() ==> interpret_result_view(#[trigger] results@[i])
                == probe_model(request@, header_size, orig[i]@),
        decreases remaining@.len(),
    {
        let ghost k = results@.len() as int;
        proof {
            assert(remaining@[0] == orig[k]);
        }
        let t = remaining.remove(0);
        let outcome = probe_with(request, header_size, t);
        results.push(outcome);
        proof {
            assert(remaining@ =~= orig.skip(results@.len() as int));
        }
    }
    results
}

} // verus!
