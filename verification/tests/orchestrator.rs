use icmp_probe::outcome::{EchoOutcome, ResolutionFailure, ResolvedTarget};
use icmp_probe::probe::{probe_with, run, ProbeState, ProbeTranscript};
use icmp_probe::request::ProbeRequest;

const HEADER_SIZE: usize = 28;

fn success_transcript(head: [u8; 4]) -> ProbeTranscript {
    let mut reply = vec![0u8; HEADER_SIZE + 8 + 10];
    reply[..4].copy_from_slice(&head);
    ProbeTranscript {
        reverse: None,
        lookup: Ok(Vec::new()),
        result_code: 46,
        reply,
        last_error: 0,
        error_text: String::new(),
    }
}

fn failing_transcript(cause: &str) -> ProbeTranscript {
    ProbeTranscript {
        reverse: None,
        lookup: Err(cause.to_string()),
        result_code: 0,
        reply: Vec::new(),
        last_error: 0,
        error_text: String::new(),
    }
}

#[test]
fn pipeline_reaches_a_reply() {
    let request = ProbeRequest::new("1.2.3.4".to_string(), 128, 4000);
    let outcome = probe_with(&request, HEADER_SIZE, success_transcript([9, 9, 9, 9]));
    match outcome.unwrap() {
        EchoOutcome::Success { responder, .. } => assert_eq!(responder, 0x09090909),
        _ => panic!("a sound exchange must end in a reply"),
    }
}

#[test]
fn pipeline_surfaces_resolution_failure() {
    let request = ProbeRequest::new("host.example".to_string(), 128, 4000);
    let outcome = probe_with(&request, HEADER_SIZE, failing_transcript("lookup refused"));
    match outcome.unwrap() {
        EchoOutcome::ResolutionFailure { input, cause } => {
            assert_eq!(input, "host.example");
            assert_eq!(cause, "lookup refused");
        },
        _ => panic!("a failed resolution must end the probe"),
    }
}

#[test]
fn pipeline_flags_sizing_bug() {
    let request = ProbeRequest::new("1.2.3.4".to_string(), 128, 4000);
    let mut t = success_transcript([9, 9, 9, 9]);
    t.reply = vec![0u8; 5];
    let malformed = probe_with(&request, HEADER_SIZE, t).unwrap_err();
    assert_eq!(malformed.have, 5);
    assert_eq!(malformed.need, HEADER_SIZE);
}

#[test]
fn two_probes_give_two_outcomes() {
    let request = ProbeRequest::new("1.2.3.4".to_string(), 128, 4000);
    let transcripts = vec![success_transcript([9, 9, 9, 9]), success_transcript([8, 8, 8, 8])];
    let outcomes = run(&request, HEADER_SIZE, transcripts);
    assert_eq!(outcomes.len(), 2);
    match outcomes[0].as_ref().unwrap() {
        EchoOutcome::Success { responder, .. } => assert_eq!(*responder, 0x09090909),
        _ => panic!("first probe must succeed"),
    }
    match outcomes[1].as_ref().unwrap() {
        EchoOutcome::Success { responder, .. } => assert_eq!(*responder, 0x08080808),
        _ => panic!("second probe must succeed"),
    }
}

#[test]
fn probes_fail_in_isolation() {
    let request = ProbeRequest::new("host.example".to_string(), 128, 4000);
    let transcripts = vec![failing_transcript("boom-one"), failing_transcript("boom-two")];
    let outcomes = run(&request, HEADER_SIZE, transcripts);
    assert_eq!(outcomes.len(), 2);
    match outcomes[0].as_ref().unwrap() {
        EchoOutcome::ResolutionFailure { cause, .. } => assert_eq!(cause, "boom-one"),
        _ => panic!("first probe must carry its own failure"),
    }
    match outcomes[1].as_ref().unwrap() {
        EchoOutcome::ResolutionFailure { cause, .. } => assert_eq!(cause, "boom-two"),
        _ => panic!("second probe must carry its own failure"),
    }
}

#[test]
fn state_machine_moves_forward() {
    let request = ProbeRequest::new("1.2.3.4".to_string(), 128, 4000);
    let state = ProbeState::Created { request };
    let state = state.start();
    assert!(matches!(state, ProbeState::Resolving { .. }));
    let target = ResolvedTarget { address: 0x01020304, display_name: "1.2.3.4".to_string() };
    let state = state.on_resolved(Ok(target));
    assert!(matches!(state, ProbeState::Sending { .. }));
    let mut reply = vec![0u8; HEADER_SIZE + 8 + 10];
    reply[..4].copy_from_slice(&[1, 2, 3, 4]);
    let state = state.on_reply(46, reply, 0, String::new());
    assert!(matches!(state, ProbeState::Interpreting { .. }));
    let state = state.on_interpreted(HEADER_SIZE).unwrap();
    match state {
        ProbeState::Done { outcome: EchoOutcome::Success { responder, .. } } => {
            assert_eq!(responder, 0x01020304)
        },
        _ => panic!("the pipeline must end in a reply outcome"),
    }
}

#[test]
fn resolution_failure_is_terminal() {
    let request = ProbeRequest::new("host.example".to_string(), 128, 4000);
    let state = ProbeState::Created { request }.start();
    let failure = ResolutionFailure {
        input: "host.example".to_string(),
        cause: "no usable IPv4 address".to_string(),
    };
    let state = state.on_resolved(Err(failure));
    match state {
        ProbeState::Done { outcome: EchoOutcome::ResolutionFailure { input, cause } } => {
            assert_eq!(input, "host.example");
            assert_eq!(cause, "no usable IPv4 address");
        },
        _ => panic!("a resolution failure must finish the probe"),
    }
}
