use vstd::prelude::*;

use vstd::arithmetic::div_mod::lemma_fundamental_div_mod;
use vstd::arithmetic::div_mod::lemma_mod_multiples_vanish;
use vstd::arithmetic::div_mod::lemma_small_mod;
use vstd::arithmetic::div_mod::lemma_sub_mod_noop;

use crate::addr::Ipv4Addr;
use crate::ping_error::PingError;
use crate::sequence_number::SequenceNumber;
use crate::socket::RecvOutcome;
use crate::socket::Socket;
use crate::time::now_nanos;

verus! {

/// Fixed size of every request's payload, in bytes: its length is the only
/// externally observable payload property.
pub const PAYLOAD_SIZE: usize = 56;

/// ICMPv4 message type of an Echo Request.
pub const ECHO_REQUEST_TYPE: u8 = 8;

/// ICMPv4 message type of an Echo Reply.
pub const ECHO_REPLY_TYPE: u8 = 0;

/// The 16-bit big-endian word starting at even offset `i`, an odd trailing
/// byte padded with a zero low byte, as the internet checksum reads a message.
pub open spec fn word_at(b: Seq<u8>, i: int) -> nat
    recommends
        0 <= i < b.len(),
{
    if i + 1 < b.len() {
        (b[i] as nat) * 256 + (b[i + 1] as nat)
    } else {
        (b[i] as nat) * 256
    }
}

/// The plain sum of the message's 16-bit words from offset `i` on.
pub open spec fn sum_words_from(b: Seq<u8>, i: int) -> nat
    decreases b.len() + 2 - i,
{
    if i < 0 || i >= b.len() {
        0
    } else {
        word_at(b, i) + sum_words_from(b, i + 2)
    }
}

/// The plain sum of all the message's 16-bit words.
pub open spec fn sum_words(b: Seq<u8>) -> nat {
    sum_words_from(b, 0)
}

/// The one's-complement 16-bit sum: the unique value in [0, 0xFFFF] congruent
/// to `s` modulo 0xFFFF that is zero only when `s` is zero — what folding the
/// carries of a plain word sum yields.
pub open spec fn fold16(s: nat) -> nat {
    if s == 0 {
        0
    } else if s % 0xFFFF == 0 {
        0xFFFF
    } else {
        s % 0xFFFF
    }
}

/// The standard ICMP checksum of a message: the one's complement of the
/// one's-complement sum of its 16-bit words.
pub open spec fn checksum_spec(b: Seq<u8>) -> u16 {
    (0xFFFF - fold16(sum_words(b))) as u16
}

/// The sequence number an Echo Reply (or Request) carries: the big-endian
/// 16-bit field at offsets 6 and 7.
pub open spec fn reply_sequence_number(b: Seq<u8>) -> u16
    recommends
        b.len() >= 8,
{
    ((b[6] as nat) * 256 + (b[7] as nat)) as u16
}

/// An echo message before its checksum is written: type, code 0, a zeroed
/// checksum field, identifier 0, the big-endian sequence number, then the
/// payload.
pub open spec fn zeroed_echo_message(icmp_type: u8, sn: u16, payload: Seq<u8>) -> Seq<u8> {
    seq![icmp_type, 0u8, 0u8, 0u8, 0u8, 0u8, (sn / 256) as u8, (sn % 256) as u8] + payload
}

/// A complete echo message: the zeroed layout with the checksum over that
/// layout written back into bytes 2 and 3.
pub open spec fn echo_message_bytes(icmp_type: u8, sn: u16, payload: Seq<u8>) -> Seq<u8> {
    let zeroed = zeroed_echo_message(icmp_type, sn, payload);
    let c = checksum_spec(zeroed);
    zeroed.update(2, (c / 256) as u8).update(3, (c % 256) as u8)
}

/// Two messages of equal length that agree from offset `i` on have the same
/// word sum from `i` on.
proof fn lemma_sum_words_agree(a: Seq<u8>, b: Seq<u8>, i: int)
    requires
        a.len() == b.len(),
        forall|j: int| i <= j < a.len() ==> a[j] == b[j],
    ensures
        sum_words_from(a, i) == sum_words_from(b, i),
    decreases a.len() + 2 - i,
{
    if 0 <= i < a.len() {
        lemma_sum_words_agree(a, b, i + 2);
    }
}

/// Writing the checksum computed over a zero-checksum message back into its
/// checksum field yields a message whose own checksum is zero: recomputing
/// the ICMP checksum over the completed bytes gives 0.
pub proof fn lemma_checksum_self_verifying(b0: Seq<u8>, c: u16)
    requires
        b0.len() >= 4,
        b0[2] == 0,
        b0[3] == 0,
        c == checksum_spec(b0),
    ensures
        checksum_spec(b0.update(2, (c / 256) as u8).update(3, (c % 256) as u8)) == 0,
{
    let m: int = 0xFFFF;
    let hi = (c / 256) as u8;
    let lo = (c % 256) as u8;
    let b1 = b0.update(2, hi).update(3, lo);
    assert(b1.len() == b0.len());
    lemma_sum_words_agree(b0, b1, 4);
    assert(sum_words_from(b0, 2) == word_at(b0, 2) + sum_words_from(b0, 4));
    assert(sum_words_from(b0, 0) == word_at(b0, 0) + sum_words_from(b0, 2));
    assert(sum_words_from(b1, 2) == word_at(b1, 2) + sum_words_from(b1, 4));
    assert(sum_words_from(b1, 0) == word_at(b1, 0) + sum_words_from(b1, 2));
    assert(word_at(b1, 0) == word_at(b0, 0));
    assert(word_at(b0, 2) == 0);
    assert(word_at(b1, 2) == (hi as nat) * 256 + (lo as nat));
    lemma_fundamental_div_mod(c as int, 256);
    assert(word_at(b1, 2) == c as nat);
    let s0 = sum_words(b0);
    let s1 = sum_words(b1);
    assert(s1 == s0 + c);
    if s0 == 0 {
        assert(fold16(s0) == 0);
        assert(c == 0xFFFF);
        assert(s1 == 0xFFFF);
        assert(s1 % 0xFFFF == 0) by {
            lemma_mod_multiples_vanish(1, 0, m);
        }
        assert(fold16(s1) == 0xFFFF);
    } else {
        let f = fold16(s0);
        assert(c == 0xFFFF - f);
        // f is congruent to s0 modulo 0xFFFF
        assert(f as int % m == s0 as int % m) by {
            if s0 % 0xFFFF == 0 {
                assert(f == 0xFFFF);
                lemma_mod_multiples_vanish(1, 0, m);
            } else {
                assert(f == s0 % 0xFFFF);
                lemma_small_mod((s0 % 0xFFFF) as nat, 0xFFFF as nat);
            }
        }
        // f never exceeds s0, so s1 == (s0 - f) + 0xFFFF as a sum of naturals
        assert(f <= s0) by {
            if s0 % 0xFFFF == 0 {
                if s0 < 0xFFFF {
                    lemma_small_mod(s0, 0xFFFF as nat);
                }
            } else {
                vstd::arithmetic::div_mod::lemma_mod_decreases(s0, 0xFFFF as nat);
            }
        }
        assert((s0 - f) as int % m == 0) by {
            lemma_sub_mod_noop(s0 as int, f as int, m);
        }
        assert(s1 as int % m == 0) by {
            assert(s1 as int == m * 1 + (s0 - f));
            lemma_mod_multiples_vanish(1, (s0 - f) as int, m);
        }
        assert(s1 > 0);
        assert(fold16(s1) == 0xFFFF);
    }
    assert(checksum_spec(b1) == 0);
}

/// Law: for any built echo message, recomputing the ICMP checksum over the
/// built bytes yields zero.
pub proof fn lemma_built_message_checksum(icmp_type: u8, sn: u16, payload: Seq<u8>)
    ensures
        checksum_spec(echo_message_bytes(icmp_type, sn, payload)) == 0,
{
    let zeroed = zeroed_echo_message(icmp_type, sn, payload);
    let c = checksum_spec(zeroed);
    assert(zeroed.len() >= 8);
    assert(zeroed[2] == 0);
    assert(zeroed[3] == 0);
    lemma_checksum_self_verifying(zeroed, c);
}

/// Law (codec round trip): parsing a reply built by reflecting an Echo
/// Request's sequence number back through the codec recovers that sequence
/// number, whatever the payload.
pub proof fn lemma_codec_round_trip(icmp_type: u8, sn: u16, payload: Seq<u8>)
    ensures
        reply_sequence_number(echo_message_bytes(icmp_type, sn, payload)) == sn,
        echo_message_bytes(icmp_type, sn, payload).len() == 8 + payload.len(),
{
    let b = echo_message_bytes(icmp_type, sn, payload);
    assert(b[6] == (sn / 256) as u8);
    assert(b[7] == (sn % 256) as u8);
    lemma_fundamental_div_mod(sn as int, 256);
}

/// The ICMP checksum of a message, as an executable computation: sums the
/// 16-bit big-endian words, folds the carries, and complements.
pub fn compute_icmp_checksum(b: &Vec<u8>) -> (c: u16)
    requires
        b@.len() <= 0xFFFF,
    ensures
        c == checksum_spec(b@),
{
    let n = b.len();
    let mut sum: u64 = 0;
    let mut i: usize = 0;
    while i < n
        invariant
            n == b@.len(),
            n <= 0xFFFF,
            i <= n + 1,
            sum + sum_words_from(b@, i as int) == sum_words(b@),
            sum <= (i as nat) * 0x10000,
        decreases n + 2 - i,
    {
        let hi = b[i] as u64;
        let lo = if i + 1 < n {
            b[i + 1] as u64
        } else {
            0u64
        };
        proof {
            assert(word_at(b@, i as int) == (hi as nat) * 256 + (lo as nat));
            assert(sum_words_from(b@, i as int) == word_at(b@, i as int) + sum_words_from(
                b@,
                i as int + 2,
            ));
            assert(sum + hi * 256 + lo <= (i as nat) * 0x10000 + 0x10000) by (nonlinear_arith)
                requires
                    sum <= (i as nat) * 0x10000,
                    hi < 256,
                    lo < 256,
            ;
        }
        sum = sum + hi * 256 + lo;
        i = i + 2;
    }
    assert(sum_words_from(b@, i as int) == 0);
    assert(sum == sum_words(b@));
    let ghost total = sum_words(b@);
    while sum > 0xFFFF
        invariant
            sum % 0xFFFF == total % 0xFFFF,
            (sum == 0) == (total == 0),
        decreases sum,
    {
        let q = sum / 0x10000;
        let r = sum % 0x10000;
        proof {
            lemma_fundamental_div_mod(sum as int, 0x10000);
            assert(sum == 0x10000 * q + r);
            assert(q >= 1);
            assert(sum == 0xFFFF * q + (q + r));
            lemma_mod_multiples_vanish(q as int, q as int + r as int, 0xFFFF as int);
            assert((q + r) % 0xFFFF == sum % 0xFFFF);
            assert(q + r < sum) by (nonlinear_arith)
                requires
                    sum == 0x10000 * q + r,
                    q >= 1,
            ;
        }
        sum = q + r;
    }
    proof {
        if total != 0 {
            assert(sum != 0);
            if total % 0xFFFF == 0 {
                if sum < 0xFFFF {
                    lemma_small_mod(sum as nat, 0xFFFF as nat);
                }
                assert(sum == 0xFFFF);
            } else {
                if sum == 0xFFFF {
                    assert(sum % 0xFFFF == 0) by {
                        lemma_mod_multiples_vanish(1, 0, 0xFFFF as int);
                    }
                }
                assert(sum < 0xFFFF);
                lemma_small_mod(sum as nat, 0xFFFF as nat);
                assert(sum == total % 0xFFFF);
            }
        }
        assert(sum == fold16(total));
    }
    (0xFFFF - sum) as u16
}

/// Builds a complete echo message: the given type byte, code 0, identifier 0,
/// the given sequence number, the given payload, and a checksum such that
/// recomputing it over the result yields zero.
pub fn build_echo_message(icmp_type: u8, sn: SequenceNumber, payload: &Vec<u8>) -> (r: Vec<u8>)
    requires
        payload@.len() <= 0xFFF7,
    ensures
        r@ == echo_message_bytes(icmp_type, sn.0, payload@),
        checksum_spec(r@) == 0,
{
    let mut b: Vec<u8> = Vec::new();
    b.push(icmp_type);
    b.push(0u8);
    b.push(0u8);
    b.push(0u8);
    b.push(0u8);
    b.push(0u8);
    b.push((sn.0 / 256) as u8);
    b.push((sn.0 % 256) as u8);
    let mut i: usize = 0;
    while i < payload.len()
        invariant
            i <= payload@.len(),
            payload@.len() <= 0xFFF7,
            b@.len() == 8 + i,
            b@ == zeroed_echo_message(icmp_type, sn.0, payload@.subrange(0, i as int)),
        decreases payload@.len() - i,
    {
        b.push(payload[i]);
        i = i + 1;
        proof {
            assert(b@ =~= zeroed_echo_message(icmp_type, sn.0, payload@.subrange(0, i as int)));
        }
    }
    proof {
        assert(payload@.subrange(0, payload@.len() as int) =~= payload@);
    }
    let ghost zeroed = zeroed_echo_message(icmp_type, sn.0, payload@);
    let c = compute_icmp_checksum(&b);
    b[2] = (c / 256) as u8;
    b[3] = (c % 256) as u8;
    proof {
        assert(b@ == zeroed.update(2, (c / 256) as u8).update(3, (c % 256) as u8));
        lemma_built_message_checksum(icmp_type, sn.0, payload@);
    }
    b
}

/// Builds an Echo Reply carrying the given sequence number and payload, as a
/// conforming peer reflects a request.
pub fn build_echo_reply(sn: SequenceNumber, payload: &Vec<u8>) -> (r: Vec<u8>)
    requires
        payload@.len() <= 0xFFF7,
    ensures
        r@ == echo_message_bytes(ECHO_REPLY_TYPE, sn.0, payload@),
        r@.len() == 8 + payload@.len(),
        reply_sequence_number(r@) == sn.0,
        checksum_spec(r@) == 0,
{
    let r = build_echo_message(ECHO_REPLY_TYPE, sn, payload);
    proof {
        lemma_codec_round_trip(ECHO_REPLY_TYPE, sn.0, payload@);
    }
    r
}

/// Interprets a received buffer as an Echo Reply: its payload size and the
/// sequence number it echoes. Callers must guarantee the buffer holds at
/// least a full ICMP header.
pub fn parse_echo_reply(b: &Vec<u8>) -> (r: (usize, SequenceNumber))
    requires
        b@.len() >= 8,
    ensures
        r.0 == b@.len() - 8,
        r.1.0 == reply_sequence_number(b@),
{
    let hi = b[6] as u16;
    let lo = b[7] as u16;
    (b.len() - 8, SequenceNumber(hi * 256 + lo))
}

/// Relies on rand::thread_rng and rand::Rng::fill: fills a fresh buffer of
/// the requested length with random bytes, leaving its length unchanged.
/// Nothing is promised of the contents: they depend on the thread-local
/// generator's state.
#[verifier::external_body]
fn random_payload(len: usize) -> (r: Vec<u8>)
    ensures
        r@.len() == len,
{
    let mut buf = vec![0u8; len];
    rand::Rng::fill(&mut rand::thread_rng(), &mut buf[..]);
    buf
}

/// The packet codec: builds Echo Request byte layouts and parses Echo Reply
/// byte layouts. The payload is generated randomly once, at codec creation,
/// and reused for every request this codec issues: only its length, fixed at
/// [`PAYLOAD_SIZE`], is observable.
pub struct IcmpV4 {
    payload: Vec<u8>,
}

impl IcmpV4 {
    /// The codec's fixed payload always has length [`PAYLOAD_SIZE`].
    pub closed spec fn wf(self) -> bool {
        self.payload@.len() == PAYLOAD_SIZE
    }

    /// The payload this codec embeds in every request.
    pub closed spec fn payload_view(self) -> Seq<u8> {
        self.payload@
    }

    /// Creates a codec with a fresh random payload of [`PAYLOAD_SIZE`] bytes.
    pub fn create() -> (r: IcmpV4)
        ensures
            r.wf(),
    {
        IcmpV4 { payload: random_payload(PAYLOAD_SIZE) }
    }

    /// Constructs one Echo Request carrying this codec's payload and the
    /// given sequence number; recomputing the checksum over the result
    /// yields zero.
    pub fn new_icmpv4_package(&self, sequence_number: SequenceNumber) -> (r: Vec<u8>)
        requires
            self.wf(),
        ensures
            r@ == echo_message_bytes(ECHO_REQUEST_TYPE, sequence_number.0, self.payload_view()),
            r@.len() == 8 + PAYLOAD_SIZE,
            reply_sequence_number(r@) == sequence_number.0,
            checksum_spec(r@) == 0,
    {
        let r = build_echo_message(ECHO_REQUEST_TYPE, sequence_number, &self.payload);
        proof {
            lemma_codec_round_trip(ECHO_REQUEST_TYPE, sequence_number.0, self.payload@);
        }
        r
    }

    /// Builds one Echo Request and hands it to the transport. On success
    /// returns the payload size, the target address, the round's sequence
    /// number, and a send timestamp taken right after the transport call
    /// returned; on failure, the transport's error.
    pub fn send_one_ping<S: Socket>(
        &self,
        socket: &mut S,
        ipv4: Ipv4Addr,
        sequence_number: SequenceNumber,
    ) -> (r: Result<(usize, Ipv4Addr, SequenceNumber, u64), PingError>)
        requires
            self.wf(),
        ensures
            r is Ok ==> (r->Ok_0.0 == PAYLOAD_SIZE && r->Ok_0.1 == ipv4 && r->Ok_0.2
                == sequence_number),
    {
        let package = self.new_icmpv4_package(sequence_number);
        match socket.send_to(&package, ipv4) {
            Ok(_) => {
                let send_time = now_nanos();
                Ok((PAYLOAD_SIZE, ipv4, sequence_number, send_time))
            },
            Err(e) => Err(e),
        }
    }

    /// Attempts to receive one reply. "No data yet" and a datagram too short
    /// to be a reply both return cleanly with nothing; a parsed reply returns
    /// its received byte count, source address, echoed sequence number and a
    /// receive timestamp; a genuine transport error is propagated.
    pub fn try_receive<S: Socket>(socket: &mut S) -> (r: Result<
        Option<(usize, Ipv4Addr, SequenceNumber, u64)>,
        PingError,
    >)
        ensures
            r matches Ok(Some(d)) ==> d.0 >= 8,
    {
        match socket.recv_from() {
            Err(e) => Err(e),
            Ok(RecvOutcome::WouldBlock) => Ok(None),
            Ok(RecvOutcome::Data { bytes, from, ttl: _ }) => {
                let receive_time = now_nanos();
                if bytes.len() >= 8 {
                    let (_payload_size, sn) = parse_echo_reply(&bytes);
                    Ok(Some((bytes.len(), from, sn, receive_time)))
                } else {
                    Ok(None)
                }
            },
        }
    }
}

} // verus!
