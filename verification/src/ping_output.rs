use vstd::prelude::*;

use crate::addr::Ipv4Addr;
use crate::sequence_number::SequenceNumber;

verus! {

/// One result per expected reply, produced by the correlation buffer and
/// consumed by the session's caller.
#[derive(Debug, Clone, PartialEq, Eq)]
pub enum PingOutput {
    /// A reply was matched to the request that produced it.
    Success {
        /// The matched request's payload size, in bytes.
        payload_size: usize,
        /// The pinged address.
        ip_addr: Ipv4Addr,
        /// The sequence number shared by request and reply.
        sequence_number: SequenceNumber,
        /// Round-trip duration: receive timestamp minus send timestamp, in
        /// nanoseconds (zero when the clock stepped backwards in between).
        ping_duration: u64,
    },
    /// A failure, carrying its description.
    Failure {
        message: String,
    },
}

impl PingOutput {
    /// Whether this output reports a matched reply.
    pub fn is_success(&self) -> (r: bool)
        ensures
            r == self is Success,
    {
        match self {
            PingOutput::Success { .. } => true,
            PingOutput::Failure { .. } => false,
        }
    }
}

} // verus!
