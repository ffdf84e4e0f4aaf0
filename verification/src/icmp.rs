//! The echo exchange around the operating system's ICMP facility: the
//! parameters the send call is handed (address in network byte order,
//! exact reply-buffer size) and the bounds-checked interpretation of the
//! raw result it returns.

use vstd::prelude::*;
use crate::addr::{ipv4_from_octets, network_order};
use crate::outcome::{EchoOutcome, MalformedReply, OutcomeModel, ResolvedTarget};
use crate::request::ProbeRequest;

verus! {

/// Space the reply buffer reserves beyond the header and the echoed
/// payload: the size of an ICMP error message.
pub const ERROR_DATA_SPACE: usize = 8;

/// The least header size the interpreter can decode: the responder's
/// address, the status and the round-trip time, four bytes each.
pub const MIN_REPLY_HEADER: usize = 12;

/// The exact size of the reply buffer for one exchange: the OS-defined
/// reply header, eight bytes reserved for an ICMP error message, and room
/// for the echoed payload. An undersized buffer makes the call fail, so
/// nothing smaller is ever produced; nothing at all is when the sum does
/// not fit the machine.
pub fn reply_buffer_size(header_size: usize, payload_len: usize) -> (r: Option<usize>)
    ensures
        r matches Some(size) ==> size == header_size + ERROR_DATA_SPACE + payload_len,
        r is None <==> header_size + ERROR_DATA_SPACE + payload_len > usize::MAX,
{
    if header_size > usize::MAX - ERROR_DATA_SPACE {
        return None;
    }
    let with_error_space = header_size + ERROR_DATA_SPACE;
    if payload_len > usize::MAX - with_error_space {
        return None;
    }
    Some(with_error_space + payload_len)
}

/// Everything the echo call is handed for one probe: the destination in
/// network byte order, the payload with its length as the call wants it,
/// the time-to-live, the wait bound, and the exact reply-buffer size.
pub struct SendPlan {
    pub address_net: u32,
    pub payload: Vec<u8>,
    pub payload_len: u16,
    pub time_to_live: u8,
    pub timeout_millis: u32,
    pub reply_buffer_len: usize,
}

/// Builds the parameters for one exchange. Nothing is built when the
/// payload cannot be described to the call (longer than a 16-bit length
/// allows) or the reply buffer cannot be sized.
pub fn build_send_plan(target: &ResolvedTarget, request: &ProbeRequest, header_size: usize) -> (r:
    Option<SendPlan>)
    ensures
        r matches Some(p) ==> {
            &&& p.address_net as nat == network_order(target.address)
            &&& p.payload@ == request@.payload
            &&& p.payload_len as nat == request@.payload.len()
            &&& p.time_to_live == request@.time_to_live
            &&& p.timeout_millis == request@.timeout_millis
            &&& p.reply_buffer_len == header_size + ERROR_DATA_SPACE + request@.payload.len()
        },
        r is None <==> (request@.payload.len() > u16::MAX || header_size + ERROR_DATA_SPACE
            + request@.payload.len() > usize::MAX),
{
    if request.payload.len() > u16::MAX as usize {
        return None;
    }
    let reply_buffer_len = match reply_buffer_size(header_size, request.payload.len()) {
        Some(size) => size,
        None => {
            return None;
        },
    };
    let payload = request.payload.clone();
    proof {
        assert(payload@ =~= request.payload@);
    }
    Some(
        SendPlan {
            address_net: crate::addr::to_network_order(target.address),
            payload,
            payload_len: request.payload.len() as u16,
            time_to_live: request.time_to_live,
            timeout_millis: request.timeout_millis,
            reply_buffer_len,
        },
    )
}

/// The little-endian 32-bit value whose four bytes stand at `i`.
pub open spec fn le32_at(bytes: Seq<u8>, i: int) -> nat {
    bytes[i] as nat + bytes[i + 1] as nat * 0x100 + bytes[i + 2] as nat * 0x10000 + bytes[i + 3] as nat
        * 0x1000000
}

/// The address value spelled by the four leading bytes of a reply buffer:
/// the OS writes the responder there in network byte order, highest octet
/// in the first byte.
pub open spec fn responder_of(bytes: Seq<u8>) -> u32 {
    ipv4_from_octets(bytes[0] as nat, bytes[1] as nat, bytes[2] as nat, bytes[3] as nat) as u32
}

/// The fields of an echo-reply header, decoded from the raw buffer: the
/// responding address, the reply status, and the round-trip time.
#[derive(Debug)]
pub struct ReplyHeader {
    pub responder: u32,
    pub status: u32,
    pub round_trip_ms: u32,
}

/// Decodes the echo-reply header at the head of a reply buffer, validating
/// the length first: a buffer shorter than the declared header, or a
/// declared header too short to hold the fields, is malformed and no byte
/// of it is interpreted.
pub fn decode_reply(buffer: &Vec<u8>, header_size: usize) -> (r: Result<ReplyHeader, MalformedReply>)
    ensures
        r matches Ok(h) ==> {
            &&& buffer@.len() >= header_size >= MIN_REPLY_HEADER
            &&& h.responder == responder_of(buffer@)
            &&& h.status as nat == le32_at(buffer@, 4)
            &&& h.round_trip_ms as nat == le32_at(buffer@, 8)
        },
        r matches Err(m) ==> {
            &&& (buffer@.len() < header_size || header_size < MIN_REPLY_HEADER)
            &&& m.have == buffer@.len()
            &&& m.need == if header_size >= MIN_REPLY_HEADER {
                header_size as int
            } else {
                MIN_REPLY_HEADER as int
            }
        },
{
    if header_size < MIN_REPLY_HEADER {
        return Err(MalformedReply { have: buffer.len(), need: MIN_REPLY_HEADER });
    }
    if buffer.len() < header_size {
        return Err(MalformedReply { have: buffer.len(), need: header_size });
    }
    let responder = crate::addr::from_octets(buffer[0], buffer[1], buffer[2], buffer[3]);
    let status = (buffer[4] as u32) + (buffer[5] as u32) * 0x100 + (buffer[6] as u32) * 0x10000 + (
    buffer[7] as u32) * 0x1000000;
    let round_trip_ms = (buffer[8] as u32) + (buffer[9] as u32) * 0x100 + (buffer[10] as u32)
        * 0x10000 + (buffer[11] as u32) * 0x1000000;
    proof {
        crate::addr::lemma_octets_extract(
            buffer@[0] as nat,
            buffer@[1] as nat,
            buffer@[2] as nat,
            buffer@[3] as nat,
        );
    }
    Ok(ReplyHeader { responder, status, round_trip_ms })
}

/// What the interpreter makes of a raw exchange result: a zero result code
/// is the failure sentinel and carries the last OS error, a non-zero one
/// declares a reply whose header is decoded from the buffer; a buffer that
/// cannot hold the header is a sizing bug, not a network condition.
pub open spec fn interpret_model(
    result_code: u32,
    reply: Seq<u8>,
    header_size: usize,
    last_error: u32,
    error_text: Seq<char>,
) -> Result<OutcomeModel, MalformedReply> {
    if result_code == 0 {
        Ok(OutcomeModel::OsFailure { code: last_error, message: error_text })
    } else if reply.len() >= header_size && header_size >= MIN_REPLY_HEADER {
        Ok(OutcomeModel::Success { responder: responder_of(reply), reply: reply })
    } else {
        Err(
            MalformedReply {
                have: reply.len() as usize,
                need: if header_size >= MIN_REPLY_HEADER {
                    header_size
                } else {
                    MIN_REPLY_HEADER
                },
            },
        )
    }
}

/// Interprets one exchange: `result_code` and `reply` came back from the
/// echo call verbatim, `last_error` and `error_text` are the OS's account
/// of the failure when the result code is the failure sentinel.
pub fn interpret(
    result_code: u32,
    reply: Vec<u8>,
    header_size: usize,
    last_error: u32,
    error_text: String,
) -> (r: Result<EchoOutcome, MalformedReply>)
    ensures
        interpret_result_view(r) == interpret_model(
            result_code,
            reply@,
            header_size,
            last_error,
            error_text@,
        ),
{
    if result_code == 0 {
        return Ok(EchoOutcome::OsFailure { code: last_error, message: error_text });
    }
    match decode_reply(&reply, header_size) {
        Ok(header) => Ok(EchoOutcome::Success { responder: header.responder, reply }),
        Err(m) => Err(m),
    }
}

/// The model of an interpreter result.
pub open spec fn interpret_result_view(r: Result<EchoOutcome, MalformedReply>) -> Result<
    OutcomeModel,
    MalformedReply,
> {
    match r {
        Ok(o) => Ok(o@),
        Err(m) => Err(m),
    }
}

/// A reply buffer sized by this library's own formula is never judged
/// malformed: whatever the exchange returned, the interpreter produces an
/// outcome.
pub proof fn lemma_sized_reply_interprets(
    result_code: u32,
    reply: Seq<u8>,
    header_size: usize,
    last_error: u32,
    error_text: Seq<char>,
    payload_len: usize,
)
    requires
        header_size >= MIN_REPLY_HEADER,
        reply.len() == header_size + ERROR_DATA_SPACE + payload_len,
    ensures
        interpret_model(result_code, reply, header_size, last_error, error_text) is Ok,
{
}

} // verus!
