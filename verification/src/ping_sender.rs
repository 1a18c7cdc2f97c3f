use vstd::prelude::*;

use vstd::arithmetic::div_mod::lemma_div_multiples_vanish_fancy;
use vstd::arithmetic::div_mod::lemma_mod_multiples_vanish;
use vstd::arithmetic::div_mod::lemma_small_mod;

use crate::addr::Ipv4Addr;
use crate::icmpv4::IcmpV4;
use crate::icmpv4::PAYLOAD_SIZE;
use crate::ping_error::PingError;
use crate::ping_error::PingResult;
use crate::records::PingSendRecord;
use crate::records::PingSentToken;
use crate::sequence_number::lemma_seq_at_step;
use crate::sequence_number::seq_at;
use crate::sequence_number::SequenceNumber;
use crate::socket::Socket;

verus! {

/// The sending half of the engine: owns the codec and the ordered target
/// addresses, allocates one sequence number per round (shared by every
/// address of that round), and publishes one send record per successful
/// transmission.
///
/// The record of everything it ever published is carried as ghost state, so
/// that what a whole run produces — not just one round — is pinned down: see
/// [`PingSender::lemma_send_records_shape`].
pub struct PingSender {
    icmpv4: IcmpV4,
    ips: Vec<Ipv4Addr>,
    sequence_number: SequenceNumber,
    history: Ghost<Seq<PingSendRecord>>,
    rounds: Ghost<nat>,
    start: Ghost<u16>,
    failed: Ghost<bool>,
}

impl PingSender {
    /// The ordered target addresses, one request each per round.
    pub closed spec fn ips_view(self) -> Seq<Ipv4Addr> {
        self.ips@
    }

    /// The sequence number the next round will use.
    pub closed spec fn seq_value(self) -> u16 {
        self.sequence_number.0
    }

    /// Every send record this sender ever published, oldest first.
    pub closed spec fn sent_history(self) -> Seq<PingSendRecord> {
        self.history@
    }

    /// How many rounds were started (each allocates one sequence number).
    pub closed spec fn rounds_completed(self) -> nat {
        self.rounds@
    }

    /// The sequence number the first round used.
    pub closed spec fn initial_seq(self) -> u16 {
        self.start@
    }

    /// Whether some transmission has failed; after a failure the round was
    /// aborted and the sender makes no promise about its history's shape.
    pub closed spec fn has_failed(self) -> bool {
        self.failed@
    }

    /// The codec's own invariant.
    pub closed spec fn codec_wf(self) -> bool {
        self.icmpv4.wf()
    }

    /// The `k`-th send record a failure-free sender publishes: the round's
    /// sequence number — the initial value advanced once per completed round
    /// — to the addresses in order, always with the fixed payload size.
    pub open spec fn record_shape(self, k: int, r: PingSendRecord) -> bool {
        let n = self.ips_view().len() as int;
        &&& r.payload_size == PAYLOAD_SIZE
        &&& r.ip_addr == self.ips_view()[k % n]
        &&& r.sequence_number.0 == seq_at(self.initial_seq(), (k / n) as nat)
    }

    /// Well-formedness: absent any transmission failure the history holds
    /// exactly one record per address per completed round, shaped as
    /// [`PingSender::record_shape`] says, and the counter stands at the next
    /// round's number.
    pub open spec fn wf(self) -> bool {
        &&& self.codec_wf()
        &&& !self.has_failed() ==> {
            &&& self.sent_history().len() == self.rounds_completed() * self.ips_view().len()
            &&& self.seq_value() == seq_at(self.initial_seq(), self.rounds_completed())
            &&& forall|k: int|
                0 <= k < self.sent_history().len() ==> self.record_shape(
                    k,
                    #[trigger] self.sent_history()[k],
                )
        }
    }

    /// A fresh sender over the given codec and targets, with no history and
    /// its counter at the fixed start value.
    pub fn new(icmpv4: IcmpV4, ips: Vec<Ipv4Addr>) -> (r: PingSender)
        requires
            icmpv4.wf(),
        ensures
            r.wf(),
            !r.has_failed(),
            r.ips_view() == ips@,
            r.seq_value() == 0,
            r.initial_seq() == 0,
            r.rounds_completed() == 0,
            r.sent_history() == Seq::<PingSendRecord>::empty(),
    {
        PingSender {
            icmpv4,
            ips,
            sequence_number: SequenceNumber::start_value(),
            history: Ghost(Seq::empty()),
            rounds: Ghost(0),
            start: Ghost(0),
            failed: Ghost(false),
        }
    }

    /// Builds and transmits one Echo Request to `ip` carrying
    /// `sequence_number`; on success returns the send record to publish,
    /// stamped right after the transport call returned.
    pub fn send_one<S: Socket>(
        &self,
        socket: &mut S,
        ip: Ipv4Addr,
        sequence_number: SequenceNumber,
    ) -> (r: PingResult<PingSendRecord>)
        requires
            self.codec_wf(),
        ensures
            r matches Ok(rec) ==> (rec.payload_size == PAYLOAD_SIZE && rec.ip_addr == ip
                && rec.sequence_number == sequence_number),
    {
        match self.icmpv4.send_one_ping(socket, ip, sequence_number) {
            Ok((payload_size, ip_addr, sequence_number, send_time)) => Ok(
                PingSendRecord { payload_size, ip_addr, sequence_number, send_time },
            ),
            Err(e) => Err(e),
        }
    }

    /// One round: allocates the round's sequence number (the current counter
    /// value; the counter advances by one, wrapping), then sends one request
    /// per address in order, appending one send record per success to
    /// `sent_record_tx` and yielding one token per success. If any send
    /// fails the round is aborted — no further address is attempted, the
    /// failure is returned — but the records already appended stay: no
    /// rollback.
    pub fn send_ping_to_each_address<S: Socket>(
        &mut self,
        socket: &mut S,
        sent_record_tx: &mut Vec<PingSendRecord>,
    ) -> (r: PingResult<Vec<PingSentToken>>)
        requires
            old(self).wf(),
        ensures
            final(self).wf(),
            final(self).ips_view() == old(self).ips_view(),
            final(self).initial_seq() == old(self).initial_seq(),
            final(self).rounds_completed() == old(self).rounds_completed() + 1,
            final(self).seq_value() == (old(self).seq_value() + 1) % 0x10000,
            old(sent_record_tx)@.is_prefix_of(final(sent_record_tx)@),
            final(sent_record_tx)@.len() - old(sent_record_tx)@.len() <= old(self).ips_view().len(),
            forall|j: int|
                0 <= j < final(sent_record_tx)@.len() - old(sent_record_tx)@.len() ==> {
                    let rec = #[trigger] final(sent_record_tx)@[old(sent_record_tx)@.len() + j];
                    &&& rec.payload_size == PAYLOAD_SIZE
                    &&& rec.ip_addr == old(self).ips_view()[j]
                    &&& rec.sequence_number.0 == old(self).seq_value()
                },
            final(self).sent_history() == old(self).sent_history() + final(sent_record_tx)@.subrange(
                old(sent_record_tx)@.len() as int,
                final(sent_record_tx)@.len() as int,
            ),
            r matches Ok(tokens) ==> {
                &&& final(sent_record_tx)@.len() == old(sent_record_tx)@.len() + old(
                    self,
                ).ips_view().len()
                &&& tokens@.len() == old(self).ips_view().len()
                &&& final(self).has_failed() == old(self).has_failed()
            },
            r is Err ==> {
                &&& final(sent_record_tx)@.len() - old(sent_record_tx)@.len() < old(
                    self,
                ).ips_view().len()
                &&& final(self).has_failed()
            },
    {
        let ghost self0 = *self;
        let ghost old_tx = sent_record_tx@;
        let sequence_number = self.sequence_number;
        self.sequence_number = self.sequence_number.next();
        let ghost self1 = *self;
        let mut result: Vec<PingSentToken> = Vec::new();
        let mut failure: Option<PingError> = None;
        let mut i: usize = 0;
        while i < self.ips.len() && failure.is_none()
            invariant
                *self == self1,
                self1.icmpv4 == self0.icmpv4,
                self1.ips == self0.ips,
                self0.codec_wf(),
                i <= self.ips@.len(),
                failure is Some ==> i < self.ips@.len(),
                result@.len() == i,
                sent_record_tx@.len() == old_tx.len() + i,
                old_tx.is_prefix_of(sent_record_tx@),
                forall|j: int|
                    0 <= j < i ==> {
                        let rec = #[trigger] sent_record_tx@[old_tx.len() + j];
                        &&& rec.payload_size == PAYLOAD_SIZE
                        &&& rec.ip_addr == self0.ips@[j]
                        &&& rec.sequence_number == sequence_number
                    },
            decreases self.ips@.len() - i, if failure is None { 1int } else { 0int },
        {
            let ip = self.ips[i];
            match self.send_one(socket, ip, sequence_number) {
                Ok(record) => {
                    sent_record_tx.push(record);
                    result.push(PingSentToken {});
                    i = i + 1;
                },
                Err(e) => {
                    failure = Some(e);
                },
            }
        }
        let ghost added = sent_record_tx@.subrange(
            old_tx.len() as int,
            sent_record_tx@.len() as int,
        );
        self.rounds = Ghost(self.rounds@ + 1);
        self.history = Ghost(self.history@ + added);
        proof {
            assert(old_tx =~= sent_record_tx@.subrange(0, old_tx.len() as int));
        }
        match failure {
            None => {
                proof {
                    lemma_seq_at_step(self0.start@, self0.rounds@);
                    if !self0.failed@ {
                        assert forall|j: int| 0 <= j < added.len() implies (#[trigger] added[j])
                            == sent_record_tx@[old_tx.len() + j] by {}
                        lemma_round_extends_shape(self0, *self, added, sequence_number);
                    }
                }
                Ok(result)
            },
            Some(e) => {
                self.failed = Ghost(true);
                Err(e)
            },
        }
    }

    /// Law: absent any transmission failure, a sender that has completed R
    /// rounds has published exactly R × |addresses| send records; each
    /// record of round r carries the round's sequence number — constant
    /// within the round — to the round's addresses in order; and the
    /// sequence number advances by exactly one modulo 2^16 from each round
    /// to the next: strictly increasing modulo 2^16.
    pub proof fn lemma_send_records_shape(self)
        requires
            self.wf(),
            !self.has_failed(),
        ensures
            self.sent_history().len() == self.rounds_completed() * self.ips_view().len(),
            forall|k: int|
                0 <= k < self.sent_history().len() ==> self.record_shape(
                    k,
                    #[trigger] self.sent_history()[k],
                ),
            forall|k1: int, k2: int|
                (0 <= k1 < self.sent_history().len() && 0 <= k2 < self.sent_history().len() && k1
                    / self.ips_view().len() as int == k2 / self.ips_view().len() as int) ==> (
                #[trigger] self.sent_history()[k1]).sequence_number == (
                #[trigger] self.sent_history()[k2]).sequence_number,
            forall|r: nat|
                #[trigger] seq_at(self.initial_seq(), r + 1) == (seq_at(self.initial_seq(), r) + 1)
                    % 0x10000,
    {
        assert forall|r: nat|
            #[trigger] seq_at(self.initial_seq(), r + 1) == (seq_at(self.initial_seq(), r) + 1)
                % 0x10000 by {
            lemma_seq_at_step(self.initial_seq(), r);
        }
    }
}

/// After one failure-free round the extended history keeps the shape
/// invariant: the new block lands at indices `R·n ..= R·n + n - 1`, whose
/// division and remainder by `n` pick out round `R` and the addresses in
/// order.
proof fn lemma_round_extends_shape(
    pre: PingSender,
    post: PingSender,
    added: Seq<PingSendRecord>,
    round_seq: SequenceNumber,
)
    requires
        pre.wf(),
        !pre.has_failed(),
        added.len() == pre.ips_view().len(),
        round_seq.0 == pre.seq_value(),
        forall|j: int|
            0 <= j < added.len() ==> {
                &&& (#[trigger] added[j]).payload_size == PAYLOAD_SIZE
                &&& added[j].ip_addr == pre.ips_view()[j]
                &&& added[j].sequence_number == round_seq
            },
        post.ips_view() == pre.ips_view(),
        post.initial_seq() == pre.initial_seq(),
        post.rounds_completed() == pre.rounds_completed() + 1,
        post.sent_history() == pre.sent_history() + added,
        !post.has_failed(),
    ensures
        post.sent_history().len() == post.rounds_completed() * post.ips_view().len(),
        forall|k: int|
            0 <= k < post.sent_history().len() ==> post.record_shape(
                k,
                #[trigger] post.sent_history()[k],
            ),
{
    let n = pre.ips_view().len() as int;
    let rounds = pre.rounds_completed() as int;
    let old_len = pre.sent_history().len() as int;
    assert(old_len == rounds * n);
    assert(post.sent_history().len() == rounds * n + n);
    assert((rounds + 1) * n == rounds * n + n) by (nonlinear_arith);
    assert(n * rounds == rounds * n) by (nonlinear_arith);
    assert forall|k: int| 0 <= k < post.sent_history().len() implies post.record_shape(
        k,
        #[trigger] post.sent_history()[k],
    ) by {
        if k < old_len {
            assert(post.sent_history()[k] == pre.sent_history()[k]);
            assert(pre.record_shape(k, pre.sent_history()[k]));
        } else {
            let j = k - old_len;
            assert(post.sent_history()[k] == added[j]);
            assert(k == n * rounds + j);
            lemma_mod_multiples_vanish(rounds, j, n);
            lemma_small_mod(j as nat, n as nat);
            lemma_div_multiples_vanish_fancy(rounds, j, n);
            assert(k % n == j);
            assert(k / n == rounds);
        }
    }
}

} // verus!
