use icmp_probe::addr::format_ipv4;
use icmp_probe::icmp::{
    build_send_plan, decode_reply, interpret, reply_buffer_size, ERROR_DATA_SPACE,
    MIN_REPLY_HEADER,
};
use icmp_probe::outcome::{EchoOutcome, ResolvedTarget};
use icmp_probe::request::ProbeRequest;

const HEADER_SIZE: usize = 28;

fn reply_with_head(head: [u8; 4], len: usize) -> Vec<u8> {
    let mut buf = vec![0u8; len];
    buf[..4].copy_from_slice(&head);
    buf
}

#[test]
fn buffer_size_is_header_plus_eight_plus_payload() {
    assert_eq!(reply_buffer_size(HEADER_SIZE, 10), Some(HEADER_SIZE + 8 + 10));
    assert_eq!(reply_buffer_size(HEADER_SIZE, 0), Some(HEADER_SIZE + 8));
    assert_eq!(reply_buffer_size(40, 10), Some(58));
    assert_eq!(ERROR_DATA_SPACE, 8);
}

#[test]
fn buffer_size_refuses_overflow() {
    assert_eq!(reply_buffer_size(usize::MAX, 1), None);
    assert_eq!(reply_buffer_size(usize::MAX - 8, 1), None);
    assert_eq!(reply_buffer_size(usize::MAX - 9, 1), Some(usize::MAX));
}

#[test]
fn send_plan_uses_network_byte_order() {
    let request = ProbeRequest::new("8.8.8.8".to_string(), 128, 4000);
    let target = ResolvedTarget { address: 0x08080808, display_name: "8.8.8.8".to_string() };
    let plan = build_send_plan(&target, &request, HEADER_SIZE).unwrap();
    assert_eq!(plan.address_net, 0x08080808);

    let target = ResolvedTarget { address: 0x01020304, display_name: "1.2.3.4".to_string() };
    let plan = build_send_plan(&target, &request, HEADER_SIZE).unwrap();
    // Skipping the conversion would hand over the host-order 0x01020304.
    assert_eq!(plan.address_net, 0x04030201);
}

#[test]
fn send_plan_carries_the_request() {
    let request = ProbeRequest::new("8.8.8.8".to_string(), 99, 2500);
    let target = ResolvedTarget { address: 0x08080808, display_name: "8.8.8.8".to_string() };
    let plan = build_send_plan(&target, &request, HEADER_SIZE).unwrap();
    assert_eq!(plan.payload, b"muttumuttu".to_vec());
    assert_eq!(plan.payload_len, 10);
    assert_eq!(plan.time_to_live, 99);
    assert_eq!(plan.timeout_millis, 2500);
    assert_eq!(plan.reply_buffer_len, HEADER_SIZE + 8 + 10);
}

#[test]
fn zero_result_code_is_an_os_failure() {
    let reply = vec![0u8; HEADER_SIZE + 8 + 10];
    let outcome = interpret(0, reply, HEADER_SIZE, 11010, "request timed out".to_string());
    match outcome.unwrap() {
        EchoOutcome::OsFailure { code, message } => {
            assert_eq!(code, 11010);
            assert_eq!(message, "request timed out");
        },
        _ => panic!("a zero result code must never read as a reply"),
    }
}

#[test]
fn reply_header_names_the_responder() {
    let reply = reply_with_head([1, 2, 3, 4], HEADER_SIZE + 8 + 10);
    let expected = reply.clone();
    let outcome = interpret(46, reply, HEADER_SIZE, 0, String::new());
    match outcome.unwrap() {
        EchoOutcome::Success { responder, reply } => {
            assert_eq!(responder, 0x01020304);
            assert_eq!(format_ipv4(responder), "1.2.3.4");
            assert_eq!(reply, expected);
        },
        _ => panic!("a non-zero result code with a sound buffer must read as a reply"),
    }
}

#[test]
fn short_buffer_is_malformed_not_a_failure() {
    let outcome = interpret(46, vec![0u8; 10], HEADER_SIZE, 0, String::new());
    let malformed = outcome.unwrap_err();
    assert_eq!(malformed.have, 10);
    assert_eq!(malformed.need, HEADER_SIZE);
}

#[test]
fn undersized_header_is_malformed() {
    let malformed = decode_reply(&vec![0u8; 64], MIN_REPLY_HEADER - 1).unwrap_err();
    assert_eq!(malformed.need, MIN_REPLY_HEADER);
    assert_eq!(malformed.have, 64);
}

#[test]
fn decode_reads_status_and_round_trip() {
    let mut buf = reply_with_head([9, 9, 9, 9], HEADER_SIZE + 8);
    buf[4] = 0x2A; // status 42, little-endian
    buf[8] = 0x05; // round trip 5 ms, little-endian
    let header = decode_reply(&buf, HEADER_SIZE).unwrap();
    assert_eq!(header.responder, 0x09090909);
    assert_eq!(header.status, 42);
    assert_eq!(header.round_trip_ms, 5);
}
