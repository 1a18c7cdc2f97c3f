use vstd::prelude::*;

use crate::addr::Ipv4Addr;
use crate::ping_error::PingError;
use crate::sequence_number::SequenceNumber;

verus! {

/// One attempt to receive a datagram. "No data available yet" is a
/// distinguished, non-error outcome: it is the normal result when a
/// timeout-bounded or non-blocking read finds nothing, and callers treat it
/// as "no reply right now", never as a failure.
#[derive(Debug, Clone, PartialEq, Eq)]
pub enum RecvOutcome {
    /// A datagram arrived: its bytes, the address it came from, and the
    /// time-to-live of the carrying packet (read but not otherwise used).
    Data { bytes: Vec<u8>, from: Ipv4Addr, ttl: u8 },
    /// No data was available within the current attempt.
    WouldBlock,
}

/// The transport capability over a raw or datagram socket: send a buffer to
/// an address, receive a datagram with "no data yet" reported as a distinct,
/// non-error outcome.
///
/// Backed in production by a real ICMP datagram socket (whose syscalls live
/// outside this library), and in tests by the scriptable [`SocketMock`].
/// Nothing is promised of what an implementation sends or returns: the
/// network is not this library's to specify, so every caller states what
/// holds whatever came back.
pub trait Socket {
    /// Transmits `buf` to `addr`; on success returns the number of bytes
    /// sent.
    fn send_to(&mut self, buf: &Vec<u8>, addr: Ipv4Addr) -> Result<usize, PingError>;

    /// Attempts to receive one datagram, blocking at most for the
    /// implementation's configured receive timeout.
    fn recv_from(&mut self) -> Result<RecvOutcome, PingError>;
}

/// The receive timeout a production transport is configured with, in
/// nanoseconds: it bounds how long one receive call can block, and with it
/// the latency of a cooperative halt.
pub fn default_timeout() -> (r: u64)
    ensures
        r == 2_000_000_000u64,
{
    2_000_000_000u64
}

/// What the scriptable mock does with each send.
#[derive(Clone, Copy, Debug, PartialEq, Eq, Structural)]
pub enum OnSend {
    /// Every send fails immediately.
    ReturnErr,
    /// Every send succeeds and is logged.
    ReturnDefault,
}

/// What the scriptable mock does with each receive attempt.
#[derive(Clone, Copy, Debug, PartialEq, Eq, Structural)]
pub enum OnReceive {
    /// Every receive reports "no data yet".
    ReturnWouldBlock,
    /// The next `n` receives return a canned reply, then "no data yet"
    /// forever.
    ReturnDefault(usize),
}

/// A deterministic, scriptable transport for tests: sends are logged (or
/// fail, as scripted), and each of a configured number of receive attempts
/// yields one canned Echo Reply — echoing the sequence number and target of
/// the oldest not-yet-reflected logged send, as a conforming peer would, or a
/// zero sequence number from localhost when nothing was sent — after which
/// every attempt reports "no data yet".
pub struct SocketMock {
    on_send: OnSend,
    on_receive: OnReceive,
    sent: Vec<(Vec<u8>, Ipv4Addr)>,
    received_cnt: usize,
    reply_cursor: usize,
}

impl SocketMock {
    /// The log of sent buffers and their destinations, oldest first.
    pub closed spec fn sent_log(self) -> Seq<(Vec<u8>, Ipv4Addr)> {
        self.sent@
    }

    /// How many receive attempts returned a canned reply so far.
    pub closed spec fn received_count(self) -> usize {
        self.received_cnt
    }

    /// A mock scripted to handle sends with `on_send` and receive attempts
    /// with `on_receive`.
    pub fn new(on_send: OnSend, on_receive: OnReceive) -> (r: SocketMock)
        ensures
            r.sent_log() == Seq::<(Vec<u8>, Ipv4Addr)>::empty(),
            r.received_count() == 0,
    {
        SocketMock {
            on_send,
            on_receive,
            sent: Vec::new(),
            received_cnt: 0,
            reply_cursor: 0,
        }
    }

    /// Whether exactly `n` sends were logged.
    pub fn should_send_number_of_messages(&self, n: usize) -> (r: bool)
        ensures
            r == (n == self.sent_log().len()),
    {
        n == self.sent.len()
    }

    /// Whether some logged send went to `addr`.
    pub fn should_send_to_address(&self, addr: Ipv4Addr) -> (r: bool)
        ensures
            r == exists|j: int| 0 <= j < self.sent_log().len() && #[trigger] self.sent_log()[j].1 == addr,
    {
        let mut found = false;
        let mut i: usize = 0;
        while i < self.sent.len()
            invariant
                i <= self.sent_log().len(),
                found == exists|j: int| 0 <= j < i && #[trigger] self.sent_log()[j].1 == addr,
            decreases self.sent_log().len() - i,
        {
            let entry = &self.sent[i];
            if entry.1 == addr {
                found = true;
                proof {
                    assert(self.sent_log()[i as int].1 == addr);
                }
            }
            i = i + 1;
        }
        found
    }

    /// Whether exactly `n` receive attempts returned a canned reply.
    pub fn should_receive_number_of_messages(&self, n: usize) -> (r: bool)
        ensures
            r == (n == self.received_count()),
    {
        n == self.received_cnt
    }
}

impl Socket for SocketMock {
    fn send_to(&mut self, buf: &Vec<u8>, addr: Ipv4Addr) -> Result<usize, PingError> {
        match self.on_send {
            OnSend::ReturnErr => Err(PingError::new("simulating error in mock")),
            OnSend::ReturnDefault => {
                let len = buf.len();
                self.sent.push((buf.clone(), addr));
                Ok(len)
            },
        }
    }

    fn recv_from(&mut self) -> Result<RecvOutcome, PingError> {
        match self.on_receive {
            OnReceive::ReturnWouldBlock => Ok(RecvOutcome::WouldBlock),
            OnReceive::ReturnDefault(cnt) => {
                self.on_receive = if cnt <= 1 {
                    OnReceive::ReturnWouldBlock
                } else {
                    OnReceive::ReturnDefault(cnt - 1)
                };
                let (sn, from) = if self.reply_cursor < self.sent.len() {
                    let entry = &self.sent[self.reply_cursor];
                    let sn = if entry.0.len() >= 8 && entry.0.len() <= 0xFFFF {
                        let (_payload_size, sn) = crate::icmpv4::parse_echo_reply(&entry.0);
                        sn
                    } else {
                        SequenceNumber(0)
                    };
                    let from = entry.1;
                    self.reply_cursor = self.reply_cursor + 1;
                    (sn, from)
                } else {
                    (SequenceNumber(0), Ipv4Addr::new(127, 0, 0, 1))
                };
                if self.received_cnt < usize::MAX {
                    self.received_cnt = self.received_cnt + 1;
                }
                let payload: Vec<u8> = vec![0xFFu8, 0xFFu8, 0xFFu8, 0xFFu8];
                let bytes = crate::icmpv4::build_echo_reply(sn, &payload);
                Ok(RecvOutcome::Data { bytes, from, ttl: 128 })
            },
        }
    }
}

} // verus!
