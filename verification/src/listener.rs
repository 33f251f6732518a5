//! One listening endpoint's state machine: it binds its address exactly
//! once, reports that one outcome to the supervisor, and only then accepts
//! connections, skipping failed accept attempts and spawning one session for
//! each accepted one.

use vstd::prelude::*;

use crate::handler::StreamHandler;
use crate::message::Message;
use crate::session::{ConnectionSession, SessionStatus};

verus! {

/// What the transport answered when the listener tried to bind its address.
#[derive(Debug, PartialEq, Eq)]
pub enum BindOutcome {
    Bound,
    BindFailed(String),
}

/// The one-shot signal a listener sends its supervisor: whether its endpoint
/// came up, and if not, why.
#[derive(Debug, PartialEq, Eq)]
pub enum BindResult {
    Success,
    Failure(String),
}

/// Where an endpoint stands in its lifetime.
#[derive(Debug, PartialEq, Eq)]
pub enum BindState {
    Unbound,
    Bound,
    Failed,
}

/// What the transport answered for one incoming connection attempt.
#[derive(Debug, PartialEq, Eq)]
pub enum AcceptEvent {
    Accepted,
    AcceptFailed(String),
}

/// The listener's decision about one connection attempt: start an
/// independent session, or skip the attempt and keep accepting.
#[derive(Debug, PartialEq, Eq)]
pub enum AcceptAction {
    SpawnSession,
    Skip,
}

/// How many of the connection attempts in `events` were accepted.
pub open spec fn accepted_count(events: Seq<AcceptEvent>) -> int
    decreases events.len(),
{
    if events.len() == 0 {
        0int
    } else {
        accepted_count(events.drop_last()) + (if events.last() is Accepted {
            1int
        } else {
            0int
        })
    }
}

/// One listening endpoint: its address, its bind state, and how many
/// connections it has accepted.
pub struct Listener {
    pub addr: String,
    pub state: BindState,
    pub accepted: Ghost<nat>,
}

impl Listener {
    /// An endpoint that has not tried to bind yet.
    pub fn new(addr: String) -> (l: Self)
        ensures
            l.addr == addr,
            l.state is Unbound,
            l.accepted@ == 0,
    {
        Listener { addr, state: BindState::Unbound, accepted: Ghost(0) }
    }

    /// Record the one bind attempt and produce the one report owed to the
    /// supervisor: success exactly when the address came up. A listener can
    /// only bind once, so exactly one report ever exists per endpoint.
    pub fn on_bind(&mut self, outcome: BindOutcome) -> (report: BindResult)
        requires
            old(self).state is Unbound,
        ensures
            final(self).addr == old(self).addr,
            final(self).accepted == old(self).accepted,
            outcome matches BindOutcome::Bound ==> (final(self).state is Bound && report
                == BindResult::Success),
            outcome matches BindOutcome::BindFailed(e) ==> (final(self).state is Failed && report
                == BindResult::Failure(e)),
    {
        match outcome {
            BindOutcome::Bound => {
                self.state = BindState::Bound;
                BindResult::Success
            },
            BindOutcome::BindFailed(e) => {
                self.state = BindState::Failed;
                BindResult::Failure(e)
            },
        }
    }

    /// Decide one incoming connection attempt. Only a listener that has
    /// bound — and so has already sent its report — accepts; a failed
    /// attempt is skipped and is fatal to nothing.
    pub fn on_accept(&mut self, event: &AcceptEvent) -> (action: AcceptAction)
        requires
            old(self).state is Bound,
        ensures
            final(self).addr == old(self).addr,
            final(self).state == old(self).state,
            (*event) matches AcceptEvent::Accepted ==> (action == AcceptAction::SpawnSession
                && final(self).accepted@ == old(self).accepted@ + 1),
            (*event) matches AcceptEvent::AcceptFailed(e) ==> (action == AcceptAction::Skip
                && final(self).accepted@ == old(self).accepted@),
    {
        match event {
            AcceptEvent::Accepted => {
                proof {
                    self.accepted@ = self.accepted@ + 1;
                }
                AcceptAction::SpawnSession
            },
            AcceptEvent::AcceptFailed(_) => AcceptAction::Skip,
        }
    }

    /// Start the session for one accepted connection: the one handler built
    /// for it is owned by that session and by nothing else.
    pub fn accept_connection<H: StreamHandler>(&mut self, handler: H) -> (s: ConnectionSession<H>)
        requires
            old(self).state is Bound,
            handler.wf(),
        ensures
            final(self).addr == old(self).addr,
            final(self).state == old(self).state,
            final(self).accepted@ == old(self).accepted@ + 1,
            s.wf(),
            s.handler == handler,
            s.outbox@ == Seq::<Message>::empty(),
            s.status == SessionStatus::Active,
    {
        proof {
            self.accepted@ = self.accepted@ + 1;
        }
        ConnectionSession::new(handler)
    }

    /// The accept loop's bookkeeping over a whole stream of connection
    /// attempts: every accepted one spawns a session, every failed one is
    /// skipped, and the loop survives them all.
    pub fn run_accept_loop(&mut self, events: &Vec<AcceptEvent>) -> (spawned: usize)
        requires
            old(self).state is Bound,
        ensures
            final(self).addr == old(self).addr,
            final(self).state == old(self).state,
            spawned as int == accepted_count(events@),
            final(self).accepted@ == old(self).accepted@ + accepted_count(events@),
    {
        let mut spawned: usize = 0;
        let mut i: usize = 0;
        proof {
            assert(events@.take(0) =~= Seq::<AcceptEvent>::empty());
        }
        while i < events.len()
            invariant
                i <= events.len(),
                self.state is Bound,
                self.state == old(self).state,
                self.addr == old(self).addr,
                spawned as int == accepted_count(events@.take(i as int)),
                spawned <= i,
                self.accepted@ == old(self).accepted@ + accepted_count(events@.take(i as int)),
            decreases events.len() - i,
        {
            let action = self.on_accept(&events[i]);
            proof {
                assert(events@.take(i as int + 1).drop_last() =~= events@.take(i as int));
                assert(events@.take(i as int + 1).last() == events@[i as int]);
            }
            match action {
                AcceptAction::SpawnSession => {
                    spawned = spawned + 1;
                },
                AcceptAction::Skip => {},
            }
            i = i + 1;
        }
        proof {
            assert(events@.take(events@.len() as int) =~= events@);
        }
        spawned
    }
}

} // verus!
