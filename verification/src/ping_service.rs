use vstd::prelude::*;

use crate::addr::Ipv4Addr;
use crate::ping_data_buffer::from_some_send;
use crate::ping_error::PingError;
use crate::ping_error::PingResult;
use crate::ping_output::PingOutput;
use crate::session::PingSession;
use crate::socket::Socket;

verus! {

/// The lifecycle states of a [`PingService`]: Running from creation, then
/// the terminal Halted, strictly forward-only.
#[derive(Clone, Copy, Debug, PartialEq, Eq, Structural)]
pub enum State {
    Running,
    Halted,
}

/// The session's construction-time inputs: ordered target addresses, round
/// count (0 runs zero rounds), inter-round interval in nanoseconds, and the
/// capacity an embedding program gives each channel. Immutable afterwards.
pub struct PingServiceConfig {
    pub ips: Vec<Ipv4Addr>,
    pub count: u16,
    pub interval: u64,
    pub channel_size: usize,
}

/// A create-and-run session: born Running, with `next_ping_output` legal
/// until the idempotent `halt`.
pub struct PingService<S: Socket> {
    states: Vec<State>,
    inner: Option<PingSession<S>>,
}

impl<S: Socket> PingService<S> {
    /// The ordered history of state transitions, oldest first.
    pub closed spec fn states_view(self) -> Seq<State> {
        self.states@
    }

    /// The engine, present exactly while Running.
    pub closed spec fn inner_view(self) -> Option<PingSession<S>> {
        self.inner
    }

    /// Whether the service currently stands in `state` (its latest
    /// transition).
    pub open spec fn in_state(self, state: State) -> bool {
        self.states_view().len() > 0 && self.states_view().last() == state
    }

    /// Well-formedness: the history is never empty and starts at Running,
    /// and the engine exists — well-formed — exactly while Running.
    pub open spec fn wf(self) -> bool {
        &&& self.states_view().len() > 0
        &&& self.states_view()[0] == State::Running
        &&& self.inner_view() is Some <==> self.in_state(State::Running)
        &&& self.inner_view() matches Some(session) ==> session.wf()
    }

    /// Creates and runs a ping service over the given transport: the engine
    /// is wired immediately and the service is born Running. With the
    /// transport supplied by the caller, creation itself cannot fail.
    pub fn create(socket: S, config: PingServiceConfig) -> (r: PingResult<PingService<S>>)
        ensures
            r is Ok,
            r matches Ok(service) ==> (service.wf() && service.states_view() == seq![
                State::Running,
            ] && service.in_state(State::Running) && (service.inner_view() matches Some(session)
                && session.sender_view().ips_view() == config.ips@ && session.remaining_rounds()
                == config.count && session.is_alive() && session.outputs_view().len() == 0)),
    {
        let session = PingSession::new(
            socket,
            config.ips,
            config.count,
            config.interval,
            config.channel_size,
        );
        let mut states: Vec<State> = Vec::new();
        states.push(State::Running);
        Ok(PingService { states, inner: Some(session) })
    }

    /// Hands out the next ping output, driving the engine until one is
    /// available; once every expected output has been consumed the closed
    /// output queue surfaces as an error. Legal only while Running: from any
    /// other state it returns a state error and has no side effect.
    pub fn next_ping_output(&mut self) -> (r: PingResult<PingOutput>)
        requires
            old(self).wf(),
        ensures
            final(self).wf(),
            final(self).states_view() == old(self).states_view(),
            !old(self).in_state(State::Running) ==> (r is Err && *final(self) == *old(self)),
            r matches Ok(out) ==> (final(self).inner_view() matches Some(session)
                && from_some_send(out, session.sender_view().sent_history())),
            old(self).inner_view() matches Some(s) ==> (s.outputs_view().len() > 0 ==> (
            r matches Ok(out2) && (final(self).inner_view() matches Some(s2) && out2
                == s.outputs_view()[0] && s2.outputs_view() == s.outputs_view().drop_first()))),
            (old(self).in_state(State::Running) && r is Err) ==> (final(self).inner_view() matches
                Some(s2) && s2.outputs_view().len() == 0 && (s2.remaining_rounds() == 0
                || !s2.is_alive())),
            old(self).inner_view() matches Some(s) ==> (final(self).inner_view() matches Some(s2)
                && s2.sender_view().ips_view() == s.sender_view().ips_view() && s2.total_rounds()
                == s.total_rounds()),
    {
        if !self.is_in_state(State::Running) {
            return Err(
                PingError::new("cannot next_ping_output() when PingRunner is not in state Running"),
            );
        }
        match &mut self.inner {
            Some(session) => session.next_output(),
            None => Err(PingError::new("no engine while Running")),
        }
    }

    /// Halts the service: discards the engine (the synchronous engine has no
    /// worker threads to signal and join) and transitions to Halted. Calling
    /// it while already Halted is a no-op success: halt is idempotent.
    pub fn halt(&mut self) -> (r: PingResult<()>)
        requires
            old(self).wf(),
        ensures
            final(self).wf(),
            r is Ok,
            old(self).in_state(State::Halted) ==> *final(self) == *old(self),
            !old(self).in_state(State::Halted) ==> (final(self).states_view() == old(
                self,
            ).states_view().push(State::Halted) && final(self).inner_view() is None),
    {
        if self.is_in_state(State::Halted) {
            return Ok(());
        }
        self.inner = None;
        self.states.push(State::Halted);
        Ok(())
    }

    /// Whether the latest transition put the service in `state`.
    fn is_in_state(&self, state: State) -> (r: bool)
        ensures
            r == self.in_state(state),
    {
        let n = self.states.len();
        if n == 0 {
            false
        } else {
            self.states[n - 1] == state
        }
    }
}

} // verus!
