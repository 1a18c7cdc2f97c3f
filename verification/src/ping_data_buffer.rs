use vstd::prelude::*;

use crate::ping_output::PingOutput;
use crate::records::PingReceiveRecord;
use crate::records::PingSendRecord;

verus! {

/// Whether a receive record answers a send record: the matching key is
/// equality of (address, sequence number).
pub open spec fn keys_match(s: PingSendRecord, r: PingReceiveRecord) -> bool {
    s.ip_addr == r.ip_addr && s.sequence_number == r.sequence_number
}

/// Round-trip duration: receive timestamp minus send timestamp, clamped to
/// zero when the clock stepped backwards in between.
pub open spec fn duration_between(send_time: u64, receive_time: u64) -> u64 {
    if receive_time >= send_time {
        (receive_time - send_time) as u64
    } else {
        0
    }
}

/// The output emitted for a matched pair: the send record's payload size,
/// address and sequence number, with the pair's round-trip duration.
pub open spec fn output_of(s: PingSendRecord, r: PingReceiveRecord) -> PingOutput {
    PingOutput::Success {
        payload_size: s.payload_size,
        ip_addr: s.ip_addr,
        sequence_number: s.sequence_number,
        ping_duration: duration_between(s.send_time, r.receive_time),
    }
}

/// Index of the first pending send record matching `r`, or -1 when none
/// does.
pub open spec fn first_match(pending: Seq<PingSendRecord>, r: PingReceiveRecord) -> int
    decreases pending.len(),
{
    if pending.len() == 0 {
        -1
    } else if keys_match(pending[0], r) {
        0
    } else {
        let m = first_match(pending.drop_first(), r);
        if m == -1 {
            -1
        } else {
            m + 1
        }
    }
}

/// What one receive record does to the pending send records: the first match
/// leaves the buffer and becomes one output; an unmatched record — noise, or
/// a duplicate of an already-matched key — is dropped and emits nothing.
pub open spec fn correlate_one(pending: Seq<PingSendRecord>, r: PingReceiveRecord) -> (
    Seq<PingSendRecord>,
    Seq<PingOutput>,
) {
    let m = first_match(pending, r);
    if m == -1 {
        (pending, Seq::<PingOutput>::empty())
    } else {
        (pending.remove(m), seq![output_of(pending[m], r)])
    }
}

/// What a batch of receive records, processed in arrival order, does to the
/// pending send records, and the outputs it emits in the order the matches
/// are discovered.
pub open spec fn correlate(pending: Seq<PingSendRecord>, rs: Seq<PingReceiveRecord>) -> (
    Seq<PingSendRecord>,
    Seq<PingOutput>,
)
    decreases rs.len(),
{
    if rs.len() == 0 {
        (pending, Seq::<PingOutput>::empty())
    } else {
        let one = correlate_one(pending, rs[0]);
        let rest = correlate(one.0, rs.drop_first());
        (rest.0, one.1 + rest.1)
    }
}

/// `first_match` finds the least matching index: -1 means nothing matches,
/// and a found index matches while everything before it does not.
pub proof fn lemma_first_match_spec(pending: Seq<PingSendRecord>, r: PingReceiveRecord)
    ensures
        first_match(pending, r) == -1 ==> forall|j: int|
            0 <= j < pending.len() ==> !keys_match(#[trigger] pending[j], r),
        first_match(pending, r) != -1 ==> {
            let m = first_match(pending, r);
            &&& 0 <= m < pending.len()
            &&& keys_match(pending[m], r)
            &&& forall|j: int| 0 <= j < m ==> !keys_match(#[trigger] pending[j], r)
        },
    decreases pending.len(),
{
    if pending.len() > 0 && !keys_match(pending[0], r) {
        let tail = pending.drop_first();
        lemma_first_match_spec(tail, r);
        if first_match(pending, r) == -1 {
            assert(first_match(tail, r) == -1);
            assert forall|j: int| 0 <= j < pending.len() implies !keys_match(
                #[trigger] pending[j],
                r,
            ) by {
                if j > 0 {
                    assert(tail[j - 1] == pending[j]);
                    assert(!keys_match(tail[j - 1], r));
                }
            }
        } else {
            let m = first_match(pending, r);
            assert(m == first_match(tail, r) + 1);
            assert(tail[m - 1] == pending[m]);
            assert(keys_match(pending[m], r));
            assert forall|j: int| 0 <= j < m implies !keys_match(#[trigger] pending[j], r) by {
                if j > 0 {
                    assert(tail[j - 1] == pending[j]);
                    assert(!keys_match(tail[j - 1], r));
                }
            }
        }
    }
}

/// Unfolds one step of `correlate` on the tail of a batch.
proof fn lemma_correlate_step(
    pending: Seq<PingSendRecord>,
    rs: Seq<PingReceiveRecord>,
    i: int,
)
    requires
        0 <= i < rs.len(),
    ensures
        ({
            let one = correlate_one(pending, rs[i]);
            let rest = correlate(one.0, rs.subrange(i + 1, rs.len() as int));
            &&& correlate(pending, rs.subrange(i, rs.len() as int)).0 == rest.0
            &&& correlate(pending, rs.subrange(i, rs.len() as int)).1 == one.1 + rest.1
        }),
{
    let sub = rs.subrange(i, rs.len() as int);
    assert(sub.len() > 0);
    assert(sub[0] == rs[i]);
    assert(sub.drop_first() =~= rs.subrange(i + 1, rs.len() as int));
}

/// The correlation buffer: consumes send records and receive records,
/// matches them by (address, sequence number), computes round-trip durations
/// and publishes ordered outputs. Send records with no reply yet stay
/// buffered awaiting a future match; no timeout is imposed here, so a round
/// that never gets a reply leaves its record pending indefinitely — a
/// deliberately open retention question.
pub struct PingDataBuffer {
    pending: Vec<PingSendRecord>,
}

impl PingDataBuffer {
    /// The send records still awaiting their reply, oldest first.
    pub closed spec fn pending_view(self) -> Seq<PingSendRecord> {
        self.pending@
    }

    /// An empty buffer.
    pub fn new() -> (r: PingDataBuffer)
        ensures
            r.pending_view() == Seq::<PingSendRecord>::empty(),
    {
        PingDataBuffer { pending: Vec::new() }
    }

    /// How many send records await a reply.
    pub fn pending_count(&self) -> (r: usize)
        ensures
            r == self.pending_view().len(),
    {
        self.pending.len()
    }

    /// Drains whatever send records and receive records have accumulated
    /// since the last call, matches them in arrival order, and appends one
    /// output per newly matched pair to `output_tx`, in the order the
    /// matches are discovered: exactly what [`correlate`] says.
    pub fn update(
        &mut self,
        send_record_rx: &mut Vec<PingSendRecord>,
        receive_record_rx: &mut Vec<PingReceiveRecord>,
        output_tx: &mut Vec<PingOutput>,
    )
        ensures
            final(send_record_rx)@ == Seq::<PingSendRecord>::empty(),
            final(receive_record_rx)@ == Seq::<PingReceiveRecord>::empty(),
            final(self).pending_view() == correlate(
                old(self).pending_view() + old(send_record_rx)@,
                old(receive_record_rx)@,
            ).0,
            final(output_tx)@ == old(output_tx)@ + correlate(
                old(self).pending_view() + old(send_record_rx)@,
                old(receive_record_rx)@,
            ).1,
    {
        let ghost pending0 = self.pending@ + send_record_rx@;
        let ghost rs = receive_record_rx@;
        let ghost outs0 = output_tx@;
        self.pending.append(send_record_rx);
        proof {
            assert(rs.subrange(0, rs.len() as int) =~= rs);
        }
        let mut i: usize = 0;
        while i < receive_record_rx.len()
            invariant
                i <= rs.len(),
                receive_record_rx@ == rs,
                correlate(pending0, rs).0 == correlate(
                    self.pending@,
                    rs.subrange(i as int, rs.len() as int),
                ).0,
                outs0 + correlate(pending0, rs).1 == output_tx@ + correlate(
                    self.pending@,
                    rs.subrange(i as int, rs.len() as int),
                ).1,
            decreases rs.len() - i,
        {
            let ghost pending_pre = self.pending@;
            let ghost outs_pre = output_tx@;
            let r = receive_record_rx[i];
            let mut j: usize = 0;
            let mut found: Option<usize> = None;
            while j < self.pending.len() && found.is_none()
                invariant
                    j <= self.pending@.len(),
                    self.pending@ == pending_pre,
                    found is None ==> forall|k: int|
                        0 <= k < j ==> !keys_match(#[trigger] self.pending@[k], r),
                    found matches Some(f) ==> {
                        &&& f < self.pending@.len()
                        &&& keys_match(self.pending@[f as int], r)
                        &&& forall|k: int|
                            0 <= k < f ==> !keys_match(#[trigger] self.pending@[k], r)
                    },
                decreases self.pending@.len() - j, if found is None { 1int } else { 0int },
            {
                let candidate = &self.pending[j];
                if candidate.ip_addr == r.ip_addr && candidate.sequence_number == r.sequence_number {
                    found = Some(j);
                } else {
                    j = j + 1;
                }
            }
            proof {
                lemma_first_match_spec(self.pending@, r);
                lemma_correlate_step(self.pending@, rs, i as int);
            }
            match found {
                Some(f) => {
                    proof {
                        assert(first_match(self.pending@, r) == f);
                    }
                    let s = self.pending[f];
                    let ping_duration: u64 = if r.receive_time >= s.send_time {
                        r.receive_time - s.send_time
                    } else {
                        0
                    };
                    let out = PingOutput::Success {
                        payload_size: s.payload_size,
                        ip_addr: s.ip_addr,
                        sequence_number: s.sequence_number,
                        ping_duration,
                    };
                    proof {
                        assert(out == output_of(s, r));
                        assert(correlate_one(pending_pre, r).1 =~= seq![out]);
                    }
                    self.pending.remove(f);
                    output_tx.push(out);
                    proof {
                        assert(output_tx@ =~= outs_pre + seq![out]);
                    }
                },
                None => {
                    proof {
                        assert(first_match(self.pending@, r) == -1);
                        assert(correlate_one(pending_pre, r).0 == pending_pre);
                        assert(correlate_one(pending_pre, r).1 =~= Seq::<PingOutput>::empty());
                        assert(output_tx@ =~= outs_pre + Seq::<PingOutput>::empty());
                    }
                },
            }
            i = i + 1;
        }
        proof {
            assert(rs.subrange(rs.len() as int, rs.len() as int) =~= Seq::<
                PingReceiveRecord,
            >::empty());
            assert(correlate(self.pending@, Seq::<PingReceiveRecord>::empty()).0 == self.pending@);
        }
        receive_record_rx.clear();
    }
}

/// Whether `o` reproduces the send record `s`: a success carrying exactly
/// its payload size, address and sequence number (the duration additionally
/// depends on the matching receive record's timestamp).
pub open spec fn output_from_send(o: PingOutput, s: PingSendRecord) -> bool {
    o matches PingOutput::Success { payload_size, ip_addr, sequence_number, ping_duration: _ }
        && payload_size == s.payload_size && ip_addr == s.ip_addr && sequence_number
        == s.sequence_number
}

/// Whether `o` reproduces one of the send records of `sends`.
pub open spec fn from_some_send(o: PingOutput, sends: Seq<PingSendRecord>) -> bool {
    exists|i: int| 0 <= i < sends.len() && output_from_send(o, #[trigger] sends[i])
}

/// Law (correlation origins): the buffer never invents anything. Whatever
/// receive records arrive, every record still pending afterwards was pending
/// before (or newly enqueued), and every emitted output reproduces one of
/// those send records.
pub proof fn lemma_correlate_origins(pending: Seq<PingSendRecord>, rs: Seq<PingReceiveRecord>)
    ensures
        forall|k: int|
            0 <= k < correlate(pending, rs).0.len() ==> pending.contains(
                #[trigger] correlate(pending, rs).0[k],
            ),
        forall|k: int|
            0 <= k < correlate(pending, rs).1.len() ==> from_some_send(
                #[trigger] correlate(pending, rs).1[k],
                pending,
            ),
    decreases rs.len(),
{
    if rs.len() == 0 {
        assert forall|k: int| 0 <= k < correlate(pending, rs).0.len() implies pending.contains(
            #[trigger] correlate(pending, rs).0[k],
        ) by {
            assert(pending[k] == correlate(pending, rs).0[k]);
        }
    } else {
        let r0 = rs[0];
        let tail = rs.drop_first();
        lemma_first_match_spec(pending, r0);
        let one = correlate_one(pending, r0);
        let m = first_match(pending, r0);
        lemma_correlate_origins(one.0, tail);
        // whatever ends up pending, or reproduced in an output, after the
        // first step comes from `one.0`, and `one.0` comes from `pending`
        assert forall|k: int| 0 <= k < one.0.len() implies pending.contains(
            #[trigger] one.0[k],
        ) by {
            if m == -1 {
                assert(one.0[k] == pending[k]);
            } else {
                pending.remove_ensures(m);
                if k < m {
                    assert(one.0[k] == pending[k]);
                } else {
                    assert(one.0[k] == pending[k + 1]);
                }
            }
        }
        let rest = correlate(one.0, tail);
        assert(correlate(pending, rs).0 == rest.0);
        assert(correlate(pending, rs).1 == one.1 + rest.1);
        assert forall|k: int| 0 <= k < rest.0.len() implies pending.contains(
            #[trigger] rest.0[k],
        ) by {
            assert(one.0.contains(rest.0[k]));
            let i = choose|i: int| 0 <= i < one.0.len() && one.0[i] == rest.0[k];
            assert(pending.contains(one.0[i]));
        }
        assert forall|k: int| 0 <= k < correlate(pending, rs).1.len() implies from_some_send(
            #[trigger] correlate(pending, rs).1[k],
            pending,
        ) by {
            if m != -1 && k < 1 {
                assert(correlate(pending, rs).1[k] == output_of(pending[m], r0));
                assert(output_from_send(output_of(pending[m], r0), pending[m]));
            } else {
                let kk = k - one.1.len();
                assert(correlate(pending, rs).1[k] == rest.1[kk]);
                assert(from_some_send(rest.1[kk], one.0));
                let i = choose|i: int| 0 <= i < one.0.len() && output_from_send(rest.1[kk], one.0[i]);
                assert(pending.contains(one.0[i]));
                let j = choose|j: int| 0 <= j < pending.len() && pending[j] == one.0[i];
                assert(output_from_send(rest.1[kk], pending[j]));
            }
        }
    }
}

/// Law (correlation, matched): a send record and a receive record sharing
/// (address, sequence number) produce exactly one output — the send record
/// leaves the buffer — and its round-trip duration is the receive timestamp
/// minus the send timestamp.
pub proof fn lemma_matching_pair_yields_one_output(s: PingSendRecord, r: PingReceiveRecord)
    requires
        keys_match(s, r),
        r.receive_time >= s.send_time,
    ensures
        correlate(seq![s], seq![r]).0 == Seq::<PingSendRecord>::empty(),
        correlate(seq![s], seq![r]).1 == seq![
            PingOutput::Success {
                payload_size: s.payload_size,
                ip_addr: s.ip_addr,
                sequence_number: s.sequence_number,
                ping_duration: (r.receive_time - s.send_time) as u64,
            },
        ],
{
    let ps = seq![s];
    let rs = seq![r];
    assert(first_match(ps, r) == 0);
    let one = correlate_one(ps, r);
    assert(one.0 =~= Seq::<PingSendRecord>::empty());
    assert(one.1 == seq![output_of(s, r)]);
    let tail = rs.drop_first();
    assert(tail.len() == 0);
    assert(correlate(one.0, tail).0 == one.0);
    assert(correlate(one.0, tail).1 == Seq::<PingOutput>::empty());
    assert(correlate(ps, rs).0 == correlate(one.0, tail).0);
    assert(correlate(ps, rs).1 == one.1 + correlate(one.0, tail).1);
    assert(one.1 + Seq::<PingOutput>::empty() =~= one.1);
}

/// Law (correlation, unmatched): a receive record matching none of the
/// pending send records — noise, or a duplicate of an already-matched key —
/// emits zero outputs and leaves the buffer exactly as it was.
pub proof fn lemma_unmatched_receive_yields_nothing(
    pending: Seq<PingSendRecord>,
    r: PingReceiveRecord,
)
    requires
        forall|j: int| 0 <= j < pending.len() ==> !keys_match(#[trigger] pending[j], r),
    ensures
        correlate(pending, seq![r]).0 == pending,
        correlate(pending, seq![r]).1 == Seq::<PingOutput>::empty(),
{
    let rs = seq![r];
    lemma_first_match_spec(pending, r);
    if first_match(pending, r) != -1 {
        assert(keys_match(pending[first_match(pending, r)], r));
    }
    assert(first_match(pending, r) == -1);
    let one = correlate_one(pending, r);
    assert(one.0 == pending);
    assert(one.1 == Seq::<PingOutput>::empty());
    let tail = rs.drop_first();
    assert(tail.len() == 0);
    assert(correlate(one.0, tail).0 == one.0);
    assert(correlate(one.0, tail).1 == Seq::<PingOutput>::empty());
    assert(correlate(pending, rs).0 == correlate(one.0, tail).0);
    assert(correlate(pending, rs).1 == one.1 + correlate(one.0, tail).1);
    assert(one.1 + Seq::<PingOutput>::empty() =~= Seq::<PingOutput>::empty());
}

} // verus!
