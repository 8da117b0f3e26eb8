//! The listener: it binds once, then accepts for as long as the process
//! lives, and hands every connection to a task of its own. It waits for no
//! handler and limits nothing.

use crate::failure::{concerns_listener, is_fatal, Failure};
use vstd::prelude::*;

verus! {

/// Where the listener stands.
#[derive(Debug, Clone, Copy, PartialEq, Eq, Structural)]
pub enum ListenerState {
    /// Waiting for the outcome of the bind.
    Binding,
    /// Bound, and accepting.
    Listening,
    /// The bind failed. The process is to end.
    Aborted,
}

/// What the driver reports to the listener.
#[derive(Debug, Clone, Copy, PartialEq, Eq, Structural)]
pub enum ListenerEvent {
    Bound,
    BindFailed,
    Accepted,
    AcceptFailed,
}

/// What the driver is to do next.
#[derive(Debug, Clone, Copy, PartialEq, Eq, Structural)]
pub enum ListenerAction {
    /// Bind the endpoint.
    Bind,
    /// Accept the next connection.
    Accept,
    /// Start a task of its own for the connection just accepted, and,
    /// without waiting for it, accept the next.
    Dispatch,
    /// End the process.
    Abort,
}

/// One decision of the listener.
#[derive(Debug, Clone, Copy, PartialEq, Eq, Structural)]
pub struct Decision {
    pub next: ListenerState,
    pub action: ListenerAction,
    pub failure: Option<Failure>,
}

/// The decision for `event` in `state`. An event that the state does not
/// wait for changes nothing.
pub open spec fn decide(state: ListenerState, event: ListenerEvent) -> Decision {
    match state {
        ListenerState::Binding => match event {
            ListenerEvent::Bound => Decision {
                next: ListenerState::Listening,
                action: ListenerAction::Accept,
                failure: None,
            },
            ListenerEvent::BindFailed => Decision {
                next: ListenerState::Aborted,
                action: ListenerAction::Abort,
                failure: Some(Failure::BindError),
            },
            _ => Decision {
                next: ListenerState::Binding,
                action: ListenerAction::Bind,
                failure: Some(Failure::OutOfTurn),
            },
        },
        ListenerState::Listening => match event {
            ListenerEvent::Accepted => Decision {
                next: ListenerState::Listening,
                action: ListenerAction::Dispatch,
                failure: None,
            },
            ListenerEvent::AcceptFailed => Decision {
                next: ListenerState::Listening,
                action: ListenerAction::Accept,
                failure: Some(Failure::AcceptError),
            },
            _ => Decision {
                next: ListenerState::Listening,
                action: ListenerAction::Accept,
                failure: Some(Failure::OutOfTurn),
            },
        },
        ListenerState::Aborted => Decision {
            next: ListenerState::Aborted,
            action: ListenerAction::Abort,
            failure: None,
        },
    }
}

/// Once it listens, the listener listens for good: no event ends it, a
/// failed accept least of all.
pub proof fn lemma_listening_never_ends(event: ListenerEvent)
    ensures
        decide(ListenerState::Listening, event).next == ListenerState::Listening,
        decide(ListenerState::Listening, event).action != ListenerAction::Abort,
{
}

/// The listener gives up for one reason only: the bind at startup failed.
pub proof fn lemma_only_a_failed_bind_aborts(state: ListenerState, event: ListenerEvent)
    requires
        state != ListenerState::Aborted,
    ensures
        decide(state, event).next == ListenerState::Aborted <==> state == ListenerState::Binding
            && event == ListenerEvent::BindFailed,
        decide(state, event).action == ListenerAction::Abort <==> decide(state, event).failure
            == Some(Failure::BindError),
        decide(state, event).failure matches Some(failure) ==> (is_fatal(failure) <==> decide(
            state,
            event,
        ).next == ListenerState::Aborted),
{
}

/// Every connection that is accepted is dispatched, and at once.
pub proof fn lemma_accepted_is_dispatched()
    ensures
        decide(ListenerState::Listening, ListenerEvent::Accepted) == (Decision {
            next: ListenerState::Listening,
            action: ListenerAction::Dispatch,
            failure: None,
        }),
{
}

/// What the listener records is a failure of its own or an event out of
/// turn; the failures of connections never show up here.
pub proof fn lemma_listener_records_its_own_failures(state: ListenerState, event: ListenerEvent)
    ensures
        decide(state, event).failure matches Some(failure) ==> concerns_listener(failure)
            || failure == Failure::OutOfTurn,
{
}

impl ListenerState {
    /// The state every listener starts in; the first thing to do is to
    /// bind.
    pub fn start() -> (state: ListenerState)
        ensures
            state == ListenerState::Binding,
    {
        ListenerState::Binding
    }

    /// Decides what follows `event` in this state.
    pub fn on_event(self, event: ListenerEvent) -> (decision: Decision)
        ensures
            decision == decide(self, event),
    {
        match self {
            ListenerState::Binding => match event {
                ListenerEvent::Bound => Decision {
                    next: ListenerState::Listening,
                    action: ListenerAction::Accept,
                    failure: None,
                },
                ListenerEvent::BindFailed => Decision {
                    next: ListenerState::Aborted,
                    action: ListenerAction::Abort,
                    failure: Some(Failure::BindError),
                },
                _ => Decision {
                    next: ListenerState::Binding,
                    action: ListenerAction::Bind,
                    failure: Some(Failure::OutOfTurn),
                },
            },
            ListenerState::Listening => match event {
                ListenerEvent::Accepted => Decision {
                    next: ListenerState::Listening,
                    action: ListenerAction::Dispatch,
                    failure: None,
                },
                ListenerEvent::AcceptFailed => Decision {
                    next: ListenerState::Listening,
                    action: ListenerAction::Accept,
                    failure: Some(Failure::AcceptError),
                },
                _ => Decision {
                    next: ListenerState::Listening,
                    action: ListenerAction::Accept,
                    failure: Some(Failure::OutOfTurn),
                },
            },
            ListenerState::Aborted => Decision {
                next: ListenerState::Aborted,
                action: ListenerAction::Abort,
                failure: None,
            },
        }
    }
}

} // verus!
