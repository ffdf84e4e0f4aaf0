//! The probe request: what one probe is asked to do. Immutable once
//! constructed, and owned by the probe that issues it; concurrent probes
//! each carry their own copy and share nothing mutable.

use vstd::prelude::*;

verus! {

/// The time-to-live a probe uses unless told otherwise.
pub const DEFAULT_TIME_TO_LIVE: u8 = 128;

/// How long a probe waits for a reply unless told otherwise, in
/// milliseconds.
pub const DEFAULT_TIMEOUT_MILLIS: u32 = 4000;

/// The bytes of the payload every probe echoes unless told otherwise.
pub open spec fn default_payload_bytes() -> Seq<u8> {
    "muttumuttu"@.map_values(|c: char| c as u8)
}

/// One probe's parameters: the raw destination text, the outgoing
/// time-to-live, the wait bound, and the payload to echo.
pub struct ProbeRequest {
    pub destination: String,
    pub time_to_live: u8,
    pub timeout_millis: u32,
    pub payload: Vec<u8>,
}

/// The model of a probe request.
pub ghost struct RequestModel {
    pub destination: Seq<char>,
    pub time_to_live: u8,
    pub timeout_millis: u32,
    pub payload: Seq<u8>,
}

impl View for ProbeRequest {
    type V = RequestModel;

    open spec fn view(&self) -> RequestModel {
        RequestModel {
            destination: self.destination@,
            time_to_live: self.time_to_live,
            timeout_millis: self.timeout_millis,
            payload: self.payload@,
        }
    }
}

/// The payload every probe echoes unless told otherwise.
pub fn default_payload() -> (r: Vec<u8>)
    ensures
        r@ == default_payload_bytes(),
{
    proof {
        reveal_strlit("muttumuttu");
    }
    let r: Vec<u8> = vec![109, 117, 116, 116, 117, 109, 117, 116, 116, 117];
    proof {
        assert(r@ =~= default_payload_bytes());
    }
    r
}

impl ProbeRequest {
    /// A request for `destination` with the given time-to-live and wait
    /// bound, echoing the default payload.
    pub fn new(destination: String, time_to_live: u8, timeout_millis: u32) -> (r: ProbeRequest)
        ensures
            r@ == (RequestModel {
                destination: destination@,
                time_to_live: time_to_live,
                timeout_millis: timeout_millis,
                payload: default_payload_bytes(),
            }),
    {
        ProbeRequest { destination, time_to_live, timeout_millis, payload: default_payload() }
    }

    /// An identical request of its own: what each concurrent probe takes
    /// so that none shares state with a sibling.
    pub fn duplicate(&self) -> (r: ProbeRequest)
        ensures
            r@ == self@,
    {
        let payload = self.payload.clone();
        proof {
            assert(payload@ =~= self.payload@);
        }
        ProbeRequest {
            destination: self.destination.clone(),
            time_to_live: self.time_to_live,
            timeout_millis: self.timeout_millis,
            payload,
        }
    }
}

} // verus!
