use vstd::prelude::*;

use crate::addr::Ipv4Addr;
use crate::ping_data_buffer::from_some_send;
use crate::ping_error::PingError;
use crate::ping_error::PingResult;
use crate::ping_output::PingOutput;
use crate::session::PingSession;
use crate::socket::Socket;

verus! {

/// The lifecycle states of a [`PingRs`] session, strictly forward-only:
/// New, then Running, then the terminal Halted.
#[derive(Clone, Copy, Debug, PartialEq, Eq, Structural)]
pub enum State {
    New,
    Running,
    Halted,
}

/// The session entry point: owns the engine, exposes a blocking "next
/// output" call, and implements the forward-only lifecycle — `run` is only
/// legal from New, `next_ping_output` only while Running, and `halt` is an
/// idempotent transition to the terminal Halted.
pub struct PingRs<S: Socket> {
    states: Vec<State>,
    channel_size: usize,
    inner: Option<PingSession<S>>,
}

impl<S: Socket> PingRs<S> {
    /// The ordered history of state transitions, oldest first.
    pub closed spec fn states_view(self) -> Seq<State> {
        self.states@
    }

    /// The engine, present exactly while Running.
    pub closed spec fn inner_view(self) -> Option<PingSession<S>> {
        self.inner
    }

    /// Whether the session currently stands in `state` (its latest
    /// transition).
    pub open spec fn in_state(self, state: State) -> bool {
        self.states_view().len() > 0 && self.states_view().last() == state
    }

    /// Well-formedness: the history is never empty and starts at New, and
    /// the engine exists — well-formed — exactly while Running.
    pub open spec fn wf(self) -> bool {
        &&& self.states_view().len() > 0
        &&& self.states_view()[0] == State::New
        &&& self.inner_view() is Some <==> self.in_state(State::Running)
        &&& self.inner_view() matches Some(session) ==> session.wf()
    }

    /// A fresh session in state New. The channel capacity is carried for the
    /// embedding program; the in-process queues need no bound.
    pub fn new(channel_size: usize) -> (r: PingRs<S>)
        ensures
            r.wf(),
            r.states_view() == seq![State::New],
            r.inner_view() is None,
    {
        let mut states: Vec<State> = Vec::new();
        states.push(State::New);
        PingRs { states, channel_size, inner: None }
    }

    /// Starts the session: legal only from New, where it wires a fresh
    /// engine over the given transport and targets and transitions to
    /// Running. From any other state it returns a state error and has no
    /// side effect whatsoever.
    pub fn run(&mut self, socket: S, ips: Vec<Ipv4Addr>, count: u16, interval: u64) -> (r:
        PingResult<()>)
        requires
            old(self).wf(),
        ensures
            final(self).wf(),
            !old(self).in_state(State::New) ==> (r is Err && *final(self) == *old(self)),
            old(self).in_state(State::New) ==> (r is Ok && final(self).states_view() == old(
                self,
            ).states_view().push(State::Running) && final(self).in_state(State::Running) && (
            final(self).inner_view() matches Some(session) && session.sender_view().ips_view()
                == ips@ && session.remaining_rounds() == count && session.is_alive()
                && session.outputs_view().len() == 0 && session.sender_view().sent_history().len()
                == 0)),
    {
        if !self.is_in_state(State::New) {
            return Err(PingError::new("cannot run() PingRunner when it is not in state New"));
        }
        let session = PingSession::new(socket, ips, count, interval, self.channel_size);
        self.inner = Some(session);
        self.states.push(State::Running);
        Ok(())
    }

    /// Hands out the next ping output, driving the engine until one is
    /// available; once every expected output has been consumed the closed
    /// output queue surfaces as an error. Legal only while Running: from any
    /// other state it returns a state error and has no side effect.
    pub fn next_ping_output(&mut self) -> (r: PingResult<PingOutput>)
        requires
            old(self).wf(),
        ensures
            final(self).wf(),
            final(self).states_view() == old(self).states_view(),
            !old(self).in_state(State::Running) ==> (r is Err && *final(self) == *old(self)),
            r matches Ok(out) ==> (final(self).inner_view() matches Some(session)
                && from_some_send(out, session.sender_view().sent_history())),
            old(self).inner_view() matches Some(s) ==> (s.outputs_view().len() > 0 ==> (
            r matches Ok(out2) && (final(self).inner_view() matches Some(s2) && out2
                == s.outputs_view()[0] && s2.outputs_view() == s.outputs_view().drop_first()))),
            (old(self).in_state(State::Running) && r is Err) ==> (final(self).inner_view() matches
                Some(s2) && s2.outputs_view().len() == 0 && (s2.remaining_rounds() == 0
                || !s2.is_alive())),
            old(self).inner_view() matches Some(s) ==> (final(self).inner_view() matches Some(s2)
                && s2.sender_view().ips_view() == s.sender_view().ips_view() && s2.total_rounds()
                == s.total_rounds()),
    {
        if !self.is_in_state(State::Running) {
            return Err(
                PingError::new("cannot next_ping_output() when PingRunner is not in state Running"),
            );
        }
        match &mut self.inner {
            Some(session) => session.next_output(),
            None => Err(PingError::new("no engine while Running")),
        }
    }

    /// Halts the session: discards the engine (the synchronous engine has no
    /// worker threads to signal and join) and transitions to Halted. Calling
    /// it while already Halted is a no-op success: halt is idempotent.
    pub fn halt(&mut self) -> (r: PingResult<()>)
        requires
            old(self).wf(),
        ensures
            final(self).wf(),
            r is Ok,
            old(self).in_state(State::Halted) ==> *final(self) == *old(self),
            !old(self).in_state(State::Halted) ==> (final(self).states_view() == old(
                self,
            ).states_view().push(State::Halted) && final(self).inner_view() is None),
    {
        if self.is_in_state(State::Halted) {
            return Ok(());
        }
        self.inner = None;
        self.states.push(State::Halted);
        Ok(())
    }

    /// The ordered history of state transitions (diagnostic surface).
    pub fn get_states(&self) -> (r: Vec<State>)
        ensures
            r@ == self.states_view(),
    {
        let mut r: Vec<State> = Vec::new();
        let mut i: usize = 0;
        while i < self.states.len()
            invariant
                i <= self.states@.len(),
                r@ == self.states@.subrange(0, i as int),
            decreases self.states@.len() - i,
        {
            r.push(self.states[i]);
            proof {
                assert(r@ =~= self.states@.subrange(0, i + 1));
            }
            i = i + 1;
        }
        proof {
            assert(self.states@.subrange(0, self.states@.len() as int) =~= self.states@);
        }
        r
    }

    /// Whether the latest transition put the session in `state`.
    fn is_in_state(&self, state: State) -> (r: bool)
        ensures
            r == self.in_state(state),
    {
        let n = self.states.len();
        if n == 0 {
            false
        } else {
            self.states[n - 1] == state
        }
    }
}

} // verus!
