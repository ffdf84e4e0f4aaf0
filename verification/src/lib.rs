//! A host-reachability probe library: resolving a destination given as an
//! IPv4 literal or a DNS name, building an ICMP echo exchange (request
//! parameters, reply-buffer sizing, byte-order handling), interpreting the
//! raw reply, and orchestrating independent probes.

pub mod addr;
pub mod cli;
pub mod icmp;
pub mod logger;
pub mod outcome;
pub mod probe;
pub mod request;
pub mod resolve;
