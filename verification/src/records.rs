use vstd::prelude::*;

use crate::addr::Ipv4Addr;
use crate::sequence_number::SequenceNumber;

verus! {

/// What the sender publishes immediately after one successful transmission;
/// consumed exactly once by the correlation buffer.
#[derive(Clone, Copy, Debug, PartialEq, Eq, Structural)]
pub struct PingSendRecord {
    /// Size of the request's payload, in bytes.
    pub payload_size: usize,
    /// The target the request went to.
    pub ip_addr: Ipv4Addr,
    /// The round's sequence number, embedded in the request.
    pub sequence_number: SequenceNumber,
    /// Timestamp taken right after the transport call returned, in
    /// nanoseconds.
    pub send_time: u64,
}

/// What the receiver publishes after one successful parse of an incoming
/// reply; consumed exactly once by the correlation buffer.
#[derive(Clone, Copy, Debug, PartialEq, Eq, Structural)]
pub struct PingReceiveRecord {
    /// Number of bytes the reply datagram held.
    pub payload_size: usize,
    /// The address the reply came from.
    pub ip_addr: Ipv4Addr,
    /// The sequence number echoed back in the reply.
    pub sequence_number: SequenceNumber,
    /// Timestamp taken when the reply arrived, in nanoseconds.
    pub receive_time: u64,
}

/// A unit token standing for one completed send: its only meaning is "one
/// send just completed", telling the receiver to attempt one receive now.
#[derive(Clone, Copy, Debug, PartialEq, Eq, Structural)]
pub struct PingSentToken {}

} // verus!
