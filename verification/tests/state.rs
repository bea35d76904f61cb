//! The connection state machine.

use network_manager_rs::connection::activation::ActiveConnectionId;
use network_manager_rs::connection::state::{ConnectionEvent, ConnectionState, StateError};

#[test]
fn success_path_follows_the_full_lifecycle() {
    let path = [
        ConnectionState::Unknown,
        ConnectionState::Disconnected,
        ConnectionState::Preparing,
        ConnectionState::Configuring,
        ConnectionState::Activating,
        ConnectionState::Activated,
        ConnectionState::Deactivating,
        ConnectionState::Disconnected,
        ConnectionState::Preparing,
        ConnectionState::Failed,
        ConnectionState::Disconnected,
    ];
    for pair in path.windows(2) {
        let from = pair[0];
        let to = pair[1];
        assert_eq!(
            from.transition_to(to).unwrap(),
            to,
            "{from:?} -> {to:?} should be allowed"
        );
    }
}

#[test]
fn impossible_jumps_are_rejected() {
    let impossible = [
        (ConnectionState::Disconnected, ConnectionState::Activated),
        (ConnectionState::Preparing, ConnectionState::Activated),
        (ConnectionState::Activated, ConnectionState::Configuring),
        (ConnectionState::Activated, ConnectionState::Preparing),
        (ConnectionState::Unknown, ConnectionState::Activated),
        (ConnectionState::Failed, ConnectionState::Preparing),
        (ConnectionState::Failed, ConnectionState::Activating),
    ];
    for (from, to) in impossible {
        assert!(
            !from.can_transition_to(to),
            "{from:?} -> {to:?} must not be allowed"
        );
        assert_eq!(
            from.transition_to(to),
            Err(StateError::InvalidTransition { from, to }),
            "{from:?} -> {to:?} must report an error"
        );
    }
}

#[test]
fn failure_is_always_an_escape_hatch_before_activation() {
    for from in [ConnectionState::Preparing, ConnectionState::Configuring, ConnectionState::Activating] {
        assert_eq!(from.transition_to(ConnectionState::Failed).unwrap(), ConnectionState::Failed);
    }
}

#[test]
fn failed_connections_can_only_go_back_to_disconnected() {
    assert_eq!(ConnectionState::Failed.transition_to(ConnectionState::Disconnected).unwrap(), ConnectionState::Disconnected);
    assert!(matches!(
        ConnectionState::Failed.transition_to(ConnectionState::Preparing),
        Err(StateError::InvalidTransition { .. })
    ));
}

#[test]
fn events_are_comparable_and_self_describing() {
    let event = ConnectionEvent::Activated {
        active_id: ActiveConnectionId::new(7),
        profile_id: "home".to_string(),
    };
    assert_eq!(
        event,
        ConnectionEvent::Activated {
            active_id: ActiveConnectionId::new(7),
            profile_id: "home".to_string(),
        }
    );
}
