use vstd::prelude::*;

use crate::addr::Ipv4Addr;
use crate::icmpv4::IcmpV4;
use crate::ping_data_buffer::from_some_send;
use crate::ping_data_buffer::lemma_correlate_origins;
use crate::ping_data_buffer::output_from_send;
use crate::ping_data_buffer::PingDataBuffer;
use crate::ping_error::PingError;
use crate::ping_error::PingResult;
use crate::ping_output::PingOutput;
use crate::ping_receiver::PingReceiver;
use crate::ping_sender::PingSender;
use crate::records::PingReceiveRecord;
use crate::records::PingSendRecord;
use crate::socket::Socket;

verus! {

/// The wired-up engine a running session owns: the sender, the receiver's
/// transport, the correlation buffer, and the queues standing between them
/// (send records, receive records, outputs — each written at one end and
/// drained at the other, as the channels of the concurrent arrangement are).
///
/// The engine is driven on demand: each [`PingSession::next_output`] call
/// performs rounds — one send per address, one receive attempt per completed
/// send, one correlation pass per receive attempt — until an output is
/// available or no more can come. Sleeping between rounds and running the
/// two halves on their own threads is the embedding program's business, not
/// the library's; the configured inter-round interval is carried for it.
pub struct PingSession<S: Socket> {
    socket: S,
    sender: PingSender,
    buffer: PingDataBuffer,
    send_record_queue: Vec<PingSendRecord>,
    receive_record_queue: Vec<PingReceiveRecord>,
    output_queue: Vec<PingOutput>,
    rounds_left: u16,
    total_rounds: Ghost<u16>,
    interval: u64,
    channel_size: usize,
    alive: bool,
}

impl<S: Socket> PingSession<S> {
    /// The outputs ready to be consumed, oldest first.
    pub closed spec fn outputs_view(self) -> Seq<PingOutput> {
        self.output_queue@
    }

    /// How many rounds remain to be sent.
    pub closed spec fn remaining_rounds(self) -> u16 {
        self.rounds_left
    }

    /// How many rounds the session was configured to run.
    pub closed spec fn total_rounds(self) -> u16 {
        self.total_rounds@
    }

    /// Whether both engine halves can still make progress: a transmission or
    /// reception failure clears this, after which no further round runs.
    pub closed spec fn is_alive(self) -> bool {
        self.alive
    }

    /// The sender, with its ghost history of everything published.
    pub closed spec fn sender_view(self) -> PingSender {
        self.sender
    }

    /// The send records queued for the correlation buffer, oldest first.
    pub closed spec fn send_queue_view(self) -> Seq<PingSendRecord> {
        self.send_record_queue@
    }

    /// The send records pending in the correlation buffer, oldest first.
    pub closed spec fn pending_view(self) -> Seq<PingSendRecord> {
        self.buffer.pending_view()
    }

    /// The engine never invents data: every queued send record and every
    /// record pending in the buffer was published by the sender, and every
    /// output waiting to be consumed reproduces one of the sender's
    /// published records.
    pub open spec fn queues_known(self) -> bool {
        queues_known_of(
            self.sender_view().sent_history(),
            self.send_queue_view(),
            self.pending_view(),
            self.outputs_view(),
        )
    }

    /// Well-formedness: the sender is well-formed, while the engine is alive
    /// no transmission has failed, and everything queued or buffered traces
    /// back to the sender's published records.
    pub open spec fn wf(self) -> bool {
        &&& self.sender_view().wf()
        &&& self.is_alive() ==> !self.sender_view().has_failed()
        &&& self.is_alive() ==> self.sender_view().rounds_completed() + self.remaining_rounds()
            == self.total_rounds()
        &&& self.queues_known()
    }

    /// A fresh engine: a new codec with a fresh random payload, a sender over
    /// `ips` with `count` rounds to run, empty queues, an empty buffer.
    pub fn new(socket: S, ips: Vec<Ipv4Addr>, count: u16, interval: u64, channel_size: usize) -> (r:
        PingSession<S>)
        ensures
            r.wf(),
            r.is_alive(),
            r.remaining_rounds() == count,
            r.total_rounds() == count,
            r.outputs_view() == Seq::<PingOutput>::empty(),
            r.sender_view().ips_view() == ips@,
            r.sender_view().sent_history() == Seq::<PingSendRecord>::empty(),
            !r.sender_view().has_failed(),
    {
        let icmpv4 = IcmpV4::create();
        let sender = PingSender::new(icmpv4, ips);
        PingSession {
            socket,
            sender,
            buffer: PingDataBuffer::new(),
            send_record_queue: Vec::new(),
            receive_record_queue: Vec::new(),
            output_queue: Vec::new(),
            rounds_left: count,
            total_rounds: Ghost(count),
            interval,
            channel_size,
            alive: true,
        }
    }

    /// Blocks (by driving the engine) until one output is available or the
    /// output queue is permanently closed — no output buffered, and no round
    /// left to produce one — which surfaces as an error. Outputs leave in
    /// the order the correlation buffer emitted them.
    pub fn next_output(&mut self) -> (r: PingResult<PingOutput>)
        requires
            old(self).wf(),
        ensures
            final(self).wf(),
            old(self).outputs_view().len() > 0 ==> (r matches Ok(out) && out == old(
                self,
            ).outputs_view()[0] && final(self).outputs_view() == old(
                self,
            ).outputs_view().drop_first() && final(self).sender_view() == old(self).sender_view()
                && final(self).remaining_rounds() == old(self).remaining_rounds()),
            (old(self).outputs_view().len() == 0 && (old(self).remaining_rounds() == 0 || !old(
                self,
            ).is_alive())) ==> (r is Err && *final(self) == *old(self)),
            r is Err ==> final(self).outputs_view().len() == 0,
            r is Err ==> (final(self).remaining_rounds() == 0 || !final(self).is_alive()),
            r matches Ok(out) ==> from_some_send(out, final(self).sender_view().sent_history()),
            final(self).sender_view().ips_view() == old(self).sender_view().ips_view(),
            final(self).total_rounds() == old(self).total_rounds(),
    {
        let ghost entry = *self;
        while self.output_queue.len() == 0 && self.alive && self.rounds_left > 0
            invariant
                self.wf(),
                self.sender_view().ips_view() == entry.sender_view().ips_view(),
                self.total_rounds() == entry.total_rounds(),
                entry.outputs_view().len() > 0 ==> *self == entry,
                (entry.outputs_view().len() == 0 && (entry.remaining_rounds() == 0
                    || !entry.is_alive())) ==> *self == entry,
            decreases self.rounds_left,
        {
            proof {
                if entry.outputs_view().len() > 0 {
                    assert(self.output_queue@.len() > 0);
                }
            }
            let ghost pre_round = *self;
            self.rounds_left = self.rounds_left - 1;
            let pre_len = self.send_record_queue.len();
            let round_failed: bool = match self.sender.send_ping_to_each_address(
                &mut self.socket,
                &mut self.send_record_queue,
            ) {
                Ok(_tokens) => false,
                Err(_e) => true,
            };
            if round_failed {
                self.alive = false;
            }
            proof {
                assert(pre_round.queues_known());
                lemma_round_keeps_queues_known(
                    pre_round.sender_view().sent_history(),
                    self.sender_view().sent_history(),
                    pre_round.send_queue_view(),
                    self.send_queue_view(),
                    pre_round.pending_view(),
                    pre_round.outputs_view(),
                );
                assert(self.queues_known());
            }
            let k = self.send_record_queue.len() - pre_len;
            let ghost mid = *self;
            let mut recv_ok = true;
            let mut t: usize = 0;
            while t < k && recv_ok
                invariant
                    self.wf(),
                    self.sender == mid.sender,
                    self.rounds_left == mid.rounds_left,
                    self.total_rounds == mid.total_rounds,
                    self.alive ==> mid.alive,
                decreases k - t, if recv_ok { 1int } else { 0int },
            {
                match PingReceiver::receive(&mut self.socket, &mut self.receive_record_queue) {
                    Ok(()) => {
                        let ghost pre_update = *self;
                        self.buffer.update(
                            &mut self.send_record_queue,
                            &mut self.receive_record_queue,
                            &mut self.output_queue,
                        );
                        proof {
                            assert(pre_update.queues_known());
                            lemma_update_keeps_queues_known(
                                pre_update.sender_view().sent_history(),
                                pre_update.send_queue_view(),
                                pre_update.pending_view(),
                                pre_update.outputs_view(),
                                pre_update.receive_record_queue@,
                            );
                            assert(self.queues_known());
                        }
                        t = t + 1;
                    },
                    Err(_e) => {
                        recv_ok = false;
                        self.alive = false;
                    },
                }
            }
        }
        if self.output_queue.len() > 0 {
            let ghost pre_pop = *self;
            let out = self.output_queue.remove(0);
            proof {
                if entry.outputs_view().len() > 0 {
                    assert(self.output_queue@ =~= entry.outputs_view().drop_first());
                }
                assert(pre_pop.queues_known());
                assert(out == pre_pop.outputs_view()[0]);
                assert(from_some_send(out, pre_pop.sender_view().sent_history()));
                pre_pop.outputs_view().remove_ensures(0);
                assert forall|kk: int| 0 <= kk < self.outputs_view().len() implies from_some_send(
                    #[trigger] self.outputs_view()[kk],
                    self.sender_view().sent_history(),
                ) by {
                    assert(self.outputs_view()[kk] == pre_pop.outputs_view()[kk + 1]);
                }
                assert(self.queues_known());
            }
            Ok(out)
        } else {
            Err(
                PingError::new(
                    "output channel closed: every expected ping output has been consumed",
                ),
            )
        }
    }

    /// Law: a session over an empty address list publishes no send record
    /// and can hold no output: it yields exactly zero outputs.
    pub proof fn lemma_empty_address_list_publishes_nothing(self)
        requires
            self.wf(),
            self.is_alive(),
            self.sender_view().ips_view().len() == 0,
        ensures
            self.sender_view().sent_history().len() == 0,
            self.outputs_view().len() == 0,
    {
        assert(self.sender_view().sent_history().len() == self.sender_view().rounds_completed()
            * 0);
        if self.outputs_view().len() > 0 {
            assert(from_some_send(self.outputs_view()[0], self.sender_view().sent_history()));
        }
    }

    /// Law: a session that stayed alive through all its configured rounds —
    /// no transmission or reception failure — had its sender publish exactly
    /// (round count) × |addresses| send records, shaped as
    /// [`PingSender::lemma_send_records_shape`] says.
    pub proof fn lemma_complete_session_record_count(self)
        requires
            self.wf(),
            self.is_alive(),
            self.remaining_rounds() == 0,
        ensures
            self.sender_view().sent_history().len() == self.total_rounds()
                * self.sender_view().ips_view().len(),
    {
        self.sender_view().lemma_send_records_shape();
    }

    /// The configured inter-round interval, in nanoseconds, for the embedding
    /// program to sleep between rounds.
    pub fn interval(&self) -> (r: u64)
        ensures
            r == self.interval_view(),
    {
        self.interval
    }

    /// The configured channel capacity, for an embedding program that stands
    /// the queues up as real bounded channels.
    pub fn channel_size(&self) -> (r: usize)
        ensures
            r == self.channel_size_view(),
    {
        self.channel_size
    }

    /// The configured inter-round interval, in nanoseconds.
    pub closed spec fn interval_view(self) -> u64 {
        self.interval
    }

    /// The configured channel capacity.
    pub closed spec fn channel_size_view(self) -> usize {
        self.channel_size
    }
}

/// The origin bookkeeping of [`PingSession::queues_known`], over the plain
/// sequences involved: the sender's history, the queued send records, the
/// buffer's pending send records, and the queued outputs.
pub open spec fn queues_known_of(
    history: Seq<PingSendRecord>,
    queued: Seq<PingSendRecord>,
    pending: Seq<PingSendRecord>,
    outputs: Seq<PingOutput>,
) -> bool {
    &&& forall|k: int| 0 <= k < queued.len() ==> history.contains(#[trigger] queued[k])
    &&& forall|k: int| 0 <= k < pending.len() ==> history.contains(#[trigger] pending[k])
    &&& forall|k: int| 0 <= k < outputs.len() ==> from_some_send(#[trigger] outputs[k], history)
}

/// One sender round keeps the queues known: the records it appended to the
/// send queue are exactly what it appended to its own history, and the
/// history only grows.
proof fn lemma_round_keeps_queues_known(
    h_old: Seq<PingSendRecord>,
    h_new: Seq<PingSendRecord>,
    q_old: Seq<PingSendRecord>,
    q_new: Seq<PingSendRecord>,
    pending: Seq<PingSendRecord>,
    outputs: Seq<PingOutput>,
)
    requires
        queues_known_of(h_old, q_old, pending, outputs),
        h_new == h_old + q_new.subrange(q_old.len() as int, q_new.len() as int),
        q_old.is_prefix_of(q_new),
    ensures
        queues_known_of(h_new, q_new, pending, outputs),
{
    assert forall|k: int| 0 <= k < q_new.len() implies h_new.contains(#[trigger] q_new[k]) by {
        if k < q_old.len() {
            assert(q_new[k] == q_old[k]);
            assert(h_old.contains(q_old[k]));
            let i = choose|i: int| 0 <= i < h_old.len() && h_old[i] == q_old[k];
            assert(h_new[i] == q_new[k]);
        } else {
            assert(h_new[h_old.len() + (k - q_old.len())] == q_new[k]);
        }
    }
    assert forall|k: int| 0 <= k < pending.len() implies h_new.contains(
        #[trigger] pending[k],
    ) by {
        assert(h_old.contains(pending[k]));
        let i = choose|i: int| 0 <= i < h_old.len() && h_old[i] == pending[k];
        assert(h_new[i] == pending[k]);
    }
    assert forall|k: int| 0 <= k < outputs.len() implies from_some_send(
        #[trigger] outputs[k],
        h_new,
    ) by {
        assert(from_some_send(outputs[k], h_old));
        let i = choose|i: int|
            0 <= i < h_old.len() && output_from_send(outputs[k], #[trigger] h_old[i]);
        assert(h_new[i] == h_old[i]);
        assert(output_from_send(outputs[k], h_new[i]));
    }
}

/// One correlation pass keeps the queues known: the buffer emits only
/// outputs that reproduce records it was holding, and keeps only records it
/// was holding — all of which the sender published.
proof fn lemma_update_keeps_queues_known(
    history: Seq<PingSendRecord>,
    queued: Seq<PingSendRecord>,
    pending: Seq<PingSendRecord>,
    outputs: Seq<PingOutput>,
    rs: Seq<PingReceiveRecord>,
)
    requires
        queues_known_of(history, queued, pending, outputs),
    ensures
        queues_known_of(
            history,
            Seq::<PingSendRecord>::empty(),
            crate::ping_data_buffer::correlate(pending + queued, rs).0,
            outputs + crate::ping_data_buffer::correlate(pending + queued, rs).1,
        ),
{
    let h = history;
    let pending0 = pending + queued;
    lemma_correlate_origins(pending0, rs);
    assert forall|k: int| 0 <= k < pending0.len() implies h.contains(#[trigger] pending0[k]) by {
        if k < pending.len() {
            assert(pending0[k] == pending[k]);
            assert(h.contains(pending[k]));
        } else {
            assert(pending0[k] == queued[k - pending.len()]);
            assert(h.contains(queued[k - pending.len()]));
        }
    }
    let correlated = crate::ping_data_buffer::correlate(pending0, rs);
    assert forall|k: int| 0 <= k < correlated.0.len() implies h.contains(
        #[trigger] correlated.0[k],
    ) by {
        assert(pending0.contains(correlated.0[k]));
        let i = choose|i: int| 0 <= i < pending0.len() && pending0[i] == correlated.0[k];
        assert(h.contains(pending0[i]));
    }
    let new_outputs = outputs + correlated.1;
    assert forall|k: int| 0 <= k < new_outputs.len() implies from_some_send(
        #[trigger] new_outputs[k],
        h,
    ) by {
        let o = new_outputs[k];
        if k < outputs.len() {
            assert(o == outputs[k]);
            assert(from_some_send(outputs[k], h));
        } else {
            assert(o == correlated.1[k - outputs.len()]);
            assert(from_some_send(o, pending0));
            let i = choose|i: int|
                0 <= i < pending0.len() && output_from_send(o, #[trigger] pending0[i]);
            assert(h.contains(pending0[i]));
            let j = choose|j: int| 0 <= j < h.len() && h[j] == pending0[i];
            assert(output_from_send(o, h[j]));
        }
    }
}

} // verus!
