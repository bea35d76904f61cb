//! Typed connection state machine.
//!
//! Activation state is modelled explicitly instead of as scattered booleans.
//! A connection may only move between states through
//! [`ConnectionState::transition_to`], which rejects invalid jumps so the
//! daemon can never pretend an activation succeeded unless the underlying
//! operation actually reported success.

use vstd::prelude::*;

use crate::connection::activation::ActiveConnectionId;
use crate::connection::profile::ProfileId;
use crate::text::{concat2, concat3};

verus! {

/// The lifecycle state of an active connection.
#[derive(Clone, Copy, Debug, PartialEq, Eq, Hash, Structural)]
pub enum ConnectionState {
    /// No information about this connection is available yet.
    Unknown,
    /// The connection is known but not active.
    Disconnected,
    /// Activation started: the device is being prepared.
    Preparing,
    /// Device configuration is being applied.
    Configuring,
    /// The connection is being brought up (association, IP, routes).
    Activating,
    /// The underlying operation has reported the connection as up.
    Activated,
    /// Teardown has been requested.
    Deactivating,
    /// The connection attempt or teardown failed.
    Failed,
}

impl Default for ConnectionState {
    fn default() -> (r: Self)
        ensures
            r == ConnectionState::Unknown,
    {
        ConnectionState::Unknown
    }
}

/// Whether a connection may move from one state to another.
pub open spec fn allowed(from: ConnectionState, to: ConnectionState) -> bool {
    match from {
        ConnectionState::Unknown => to == ConnectionState::Disconnected,
        ConnectionState::Disconnected => to == ConnectionState::Preparing,
        ConnectionState::Preparing => to == ConnectionState::Configuring || to
            == ConnectionState::Failed,
        ConnectionState::Configuring => to == ConnectionState::Activating || to
            == ConnectionState::Failed,
        ConnectionState::Activating => to == ConnectionState::Activated || to
            == ConnectionState::Failed,
        ConnectionState::Activated => to == ConnectionState::Deactivating || to
            == ConnectionState::Failed,
        ConnectionState::Deactivating => to == ConnectionState::Disconnected || to
            == ConnectionState::Failed,
        ConnectionState::Failed => to == ConnectionState::Disconnected,
    }
}

impl ConnectionState {
    /// The name of the state.
    pub open spec fn text(self) -> Seq<char> {
        match self {
            ConnectionState::Unknown => "unknown"@,
            ConnectionState::Disconnected => "disconnected"@,
            ConnectionState::Preparing => "preparing"@,
            ConnectionState::Configuring => "configuring"@,
            ConnectionState::Activating => "activating"@,
            ConnectionState::Activated => "activated"@,
            ConnectionState::Deactivating => "deactivating"@,
            ConnectionState::Failed => "failed"@,
        }
    }

    /// Names the state.
    pub fn to_string(&self) -> (r: String)
        ensures
            r@ == self.text(),
    {
        match self {
            ConnectionState::Unknown => "unknown".to_owned(),
            ConnectionState::Disconnected => "disconnected".to_owned(),
            ConnectionState::Preparing => "preparing".to_owned(),
            ConnectionState::Configuring => "configuring".to_owned(),
            ConnectionState::Activating => "activating".to_owned(),
            ConnectionState::Activated => "activated".to_owned(),
            ConnectionState::Deactivating => "deactivating".to_owned(),
            ConnectionState::Failed => "failed".to_owned(),
        }
    }

    /// Returns whether a transition from `self` to `next` is allowed.
    pub fn can_transition_to(self, next: ConnectionState) -> (r: bool)
        ensures
            r == allowed(self, next),
    {
        match self {
            ConnectionState::Unknown => matches!(next, ConnectionState::Disconnected),
            ConnectionState::Disconnected => matches!(next, ConnectionState::Preparing),
            ConnectionState::Preparing => matches!(
                next,
                ConnectionState::Configuring | ConnectionState::Failed
            ),
            ConnectionState::Configuring => matches!(
                next,
                ConnectionState::Activating | ConnectionState::Failed
            ),
            ConnectionState::Activating => matches!(
                next,
                ConnectionState::Activated | ConnectionState::Failed
            ),
            ConnectionState::Activated => matches!(
                next,
                ConnectionState::Deactivating | ConnectionState::Failed
            ),
            ConnectionState::Deactivating => matches!(
                next,
                ConnectionState::Disconnected | ConnectionState::Failed
            ),
            ConnectionState::Failed => matches!(next, ConnectionState::Disconnected),
        }
    }

    /// Attempts a state transition, rejecting invalid jumps.
    pub fn transition_to(self, next: ConnectionState) -> (r: Result<ConnectionState, StateError>)
        ensures
            r == if allowed(self, next) {
                Ok::<ConnectionState, StateError>(next)
            } else {
                Err(StateError::InvalidTransition { from: self, to: next })
            },
    {
        if self.can_transition_to(next) {
            Ok(next)
        } else {
            Err(StateError::InvalidTransition { from: self, to: next })
        }
    }
}

/// Errors reported by invalid state transitions.
#[derive(Clone, Copy, Debug, PartialEq, Eq, Structural)]
pub enum StateError {
    InvalidTransition { from: ConnectionState, to: ConnectionState },
}

impl StateError {
    /// What the error says of itself.
    pub open spec fn text(self) -> Seq<char> {
        match self {
            StateError::InvalidTransition { from, to } => "invalid connection state transition "@
                + from.text() + " -> "@ + to.text(),
        }
    }

    /// Describes the error.
    pub fn to_string(&self) -> (r: String)
        ensures
            r@ == self.text(),
    {
        match self {
            StateError::InvalidTransition { from, to } => {
                let head: String = concat3(
                    "invalid connection state transition ",
                    from.to_string().as_str(),
                    " -> ",
                );
                concat2(head.as_str(), to.to_string().as_str())
            },
        }
    }
}

/// Typed events produced by the activation manager.
#[derive(Debug, PartialEq, Eq)]
pub enum ConnectionEvent {
    StateChanged {
        active_id: ActiveConnectionId,
        profile_id: ProfileId,
        previous: ConnectionState,
        current: ConnectionState,
    },
    Activated { active_id: ActiveConnectionId, profile_id: ProfileId },
    Deactivated { active_id: ActiveConnectionId, profile_id: ProfileId },
    Failed { active_id: ActiveConnectionId, profile_id: ProfileId, reason: String },
}

/// An event, with its texts as sequences.
#[verifier::ext_equal]
pub enum ConnectionEventView {
    StateChanged {
        active_id: ActiveConnectionId,
        profile_id: Seq<char>,
        previous: ConnectionState,
        current: ConnectionState,
    },
    Activated { active_id: ActiveConnectionId, profile_id: Seq<char> },
    Deactivated { active_id: ActiveConnectionId, profile_id: Seq<char> },
    Failed { active_id: ActiveConnectionId, profile_id: Seq<char>, reason: Seq<char> },
}

impl ConnectionEvent {
    pub open spec fn view(&self) -> ConnectionEventView {
        match self {
            ConnectionEvent::StateChanged { active_id, profile_id, previous, current } => ConnectionEventView::StateChanged {
                active_id: *active_id,
                profile_id: profile_id@,
                previous: *previous,
                current: *current,
            },
            ConnectionEvent::Activated { active_id, profile_id } => ConnectionEventView::Activated {
                active_id: *active_id,
                profile_id: profile_id@,
            },
            ConnectionEvent::Deactivated { active_id, profile_id } => ConnectionEventView::Deactivated {
                active_id: *active_id,
                profile_id: profile_id@,
            },
            ConnectionEvent::Failed { active_id, profile_id, reason } => ConnectionEventView::Failed {
                active_id: *active_id,
                profile_id: profile_id@,
                reason: reason@,
            },
        }
    }
}

/// The views of a list of events.
pub open spec fn connection_event_views(events: Seq<ConnectionEvent>) -> Seq<ConnectionEventView> {
    events.map_values(|event: ConnectionEvent| event@)
}

// --- What the transitions amount to ---------------------------------------------------------

/// Whether every step of a walk through the states is allowed.
pub open spec fn is_walk(states: Seq<ConnectionState>) -> bool {
    forall|i: int| 0 < i < states.len() ==> allowed(states[i - 1], #[trigger] states[i])
}

/// A connection that started out unknown or disconnected is activated only at
/// the end of preparing, configuring and activating, in that order.
pub proof fn lemma_activated_in_steps(states: Seq<ConnectionState>)
    requires
        is_walk(states),
        states.len() > 0,
        states[0] == ConnectionState::Unknown || states[0] == ConnectionState::Disconnected,
        states.last() == ConnectionState::Activated,
    ensures
        states.len() >= 5,
        states.subrange(states.len() - 5, states.len() as int) == seq![
            ConnectionState::Disconnected,
            ConnectionState::Preparing,
            ConnectionState::Configuring,
            ConnectionState::Activating,
            ConnectionState::Activated,
        ],
{
    let n = states.len() as int;
    assert(n > 1 && allowed(states[n - 2], states[n - 1]));
    assert(n > 2 && allowed(states[n - 3], states[n - 2]));
    assert(n > 3 && allowed(states[n - 4], states[n - 3]));
    assert(n > 4 && allowed(states[n - 5], states[n - 4]));
    assert(states.subrange(n - 5, n) =~= seq![
        ConnectionState::Disconnected,
        ConnectionState::Preparing,
        ConnectionState::Configuring,
        ConnectionState::Activating,
        ConnectionState::Activated,
    ]);
}

/// From every state on the way up, and from the active ones, a connection may
/// fail; from a failure it can only go back to disconnected.
pub proof fn lemma_failure_is_an_escape(state: ConnectionState)
    ensures
        allowed(state, ConnectionState::Failed) <==> state != ConnectionState::Unknown && state
            != ConnectionState::Disconnected && state != ConnectionState::Failed,
        allowed(ConnectionState::Failed, state) <==> state == ConnectionState::Disconnected,
{
}

} // verus!
