//! The activation manager.

use network_manager_rs::connection::activation::{
    ActivationEngine, ActivationError, ActivationManager, ActiveConnectionId,
};
use network_manager_rs::connection::device::DeviceInfo;
use network_manager_rs::connection::ip::ActivationOutcome;
use network_manager_rs::connection::profile::{ConnectionProfile, WifiSecurity};
use network_manager_rs::connection::secrets::SecretReference;
use network_manager_rs::connection::state::{ConnectionEvent, ConnectionState};
use network_manager_rs::connection::store::{InMemoryProfileStore, ProfileStore};
use network_manager_rs::linux::model::Ssid;

fn wifi_device() -> DeviceInfo {
    DeviceInfo::wifi("wlan0", Some([0x00, 0x11, 0x22, 0x33, 0x44, 0x55]))
}

fn ethernet_device() -> DeviceInfo {
    DeviceInfo::ethernet("eth0", Some([0xaa, 0xbb, 0xcc, 0xdd, 0xee, 0xff]))
}

fn open_profile(id: &str) -> ConnectionProfile {
    ConnectionProfile::wifi(
        id,
        id,
        Ssid::from_bytes(b"home").unwrap(),
        WifiSecurity::open(),
    )
    .unwrap()
}

fn psk_profile(id: &str) -> ConnectionProfile {
    ConnectionProfile::wifi(
        id,
        id,
        Ssid::from_bytes(b"home").unwrap(),
        WifiSecurity::psk(SecretReference::Keyring {
            identifier: format!("nmd/{id}"),
        }),
    )
    .unwrap()
}

struct ScriptedEngine {
    activate_ok: bool,
    deactivate_ok: bool,
}

impl Default for ScriptedEngine {
    fn default() -> Self {
        Self {
            activate_ok: true,
            deactivate_ok: true,
        }
    }
}

impl ActivationEngine for ScriptedEngine {
    fn activate(
        &mut self,
        _profile: &ConnectionProfile,
        _device: &DeviceInfo,
    ) -> Result<ActivationOutcome, ActivationError> {
        if self.activate_ok {
            Ok(ActivationOutcome::default())
        } else {
            Err(ActivationError::Engine(
                "simulated activate failure".to_string(),
            ))
        }
    }

    fn deactivate(&mut self, _profile: &ConnectionProfile) -> Result<(), ActivationError> {
        if self.deactivate_ok {
            Ok(())
        } else {
            Err(ActivationError::Engine(
                "simulated deactivate failure".to_string(),
            ))
        }
    }
}

fn failing_activate_engine() -> ScriptedEngine {
    ScriptedEngine {
        activate_ok: false,
        deactivate_ok: true,
    }
}

fn failing_deactivate_engine() -> ScriptedEngine {
    ScriptedEngine {
        activate_ok: true,
        deactivate_ok: false,
    }
}

#[test]
fn activation_lifecycle_reports_events_in_order() {
    let mut store = InMemoryProfileStore::new();
    store.create(open_profile("home")).unwrap();
    let mut manager = ActivationManager::new(ScriptedEngine::default());

    let active = manager
        .activate_profile(&store, &"home".to_string(), &wifi_device())
        .unwrap();
    assert_eq!(active.state, ConnectionState::Activated);
    assert_eq!(
        manager.state(&"home".to_string()),
        ConnectionState::Activated
    );
    assert_eq!(manager.active_connections().len(), 1);
    assert!(manager.is_active(&"home".to_string()));

    let events = manager.drain_events();
    assert!(matches!(
        events[0],
        ConnectionEvent::StateChanged {
            previous: ConnectionState::Disconnected,
            current: ConnectionState::Preparing,
            ..
        }
    ));
    assert!(matches!(
        events[1],
        ConnectionEvent::StateChanged {
            previous: ConnectionState::Preparing,
            current: ConnectionState::Configuring,
            ..
        }
    ));
    assert!(matches!(
        events[2],
        ConnectionEvent::StateChanged {
            previous: ConnectionState::Configuring,
            current: ConnectionState::Activating,
            ..
        }
    ));
    assert!(matches!(
        events[3],
        ConnectionEvent::StateChanged {
            previous: ConnectionState::Activating,
            current: ConnectionState::Activated,
            ..
        }
    ));
    assert!(matches!(events[4], ConnectionEvent::Activated { .. }));
}

#[test]
fn activation_failure_leaves_connection_in_failed_state() {
    let mut store = InMemoryProfileStore::new();
    store.create(open_profile("home")).unwrap();
    let mut manager = ActivationManager::new(failing_activate_engine());

    let err = manager
        .activate_profile(&store, &"home".to_string(), &wifi_device())
        .unwrap_err();
    assert!(matches!(err, ActivationError::Engine(_)));
    assert_eq!(manager.state(&"home".to_string()), ConnectionState::Failed);
    assert!(matches!(
        manager.drain_events().last(),
        Some(ConnectionEvent::Failed { .. })
    ));
}

#[test]
fn activation_rejects_incompatible_devices_and_unknown_profiles() {
    let mut store = InMemoryProfileStore::new();
    store.create(open_profile("home")).unwrap();
    let mut manager = ActivationManager::new(ScriptedEngine::default());

    assert!(matches!(
        manager
            .activate_profile(&store, &"home".to_string(), &ethernet_device())
            .unwrap_err(),
        ActivationError::DeviceIncompatible { .. }
    ));
    assert!(matches!(
        manager
            .activate_profile(&store, &"ghost".to_string(), &wifi_device())
            .unwrap_err(),
        ActivationError::ProfileNotFound(_)
    ));
    assert!(manager.active_connections().is_empty());
}

#[test]
fn a_profile_can_only_be_active_once() {
    let mut store = InMemoryProfileStore::new();
    store.create(open_profile("home")).unwrap();
    let mut manager = ActivationManager::new(ScriptedEngine::default());

    manager
        .activate_profile(&store, &"home".to_string(), &wifi_device())
        .unwrap();
    assert!(matches!(
        manager
            .activate_profile(&store, &"home".to_string(), &wifi_device())
            .unwrap_err(),
        ActivationError::AlreadyActive(_)
    ));
}

#[test]
fn autoconnect_activation_picks_the_best_profile() {
    let mut store = InMemoryProfileStore::new();
    let mut low = psk_profile("low");
    low.priority = 1;
    let mut high = psk_profile("high");
    high.priority = 10;
    let mut disabled = psk_profile("disabled");
    disabled.enabled = false;
    store.create(low).unwrap();
    store.create(high).unwrap();
    store.create(disabled).unwrap();

    let mut manager = ActivationManager::new(ScriptedEngine::default());
    let active = manager.activate(&store, &wifi_device()).unwrap();
    assert_eq!(active.profile.id, "high");
}

#[test]
fn autoconnect_activation_reports_when_no_profile_matches() {
    let store = InMemoryProfileStore::new();
    let mut manager = ActivationManager::new(ScriptedEngine::default());
    assert!(matches!(
        manager.activate(&store, &wifi_device()).unwrap_err(),
        ActivationError::NoSuitableProfile(_)
    ));
}

#[test]
fn deactivation_returns_profile_to_disconnected() {
    let mut store = InMemoryProfileStore::new();
    store.create(open_profile("home")).unwrap();
    let mut manager = ActivationManager::new(ScriptedEngine::default());
    let active = manager
        .activate_profile(&store, &"home".to_string(), &wifi_device())
        .unwrap();
    manager.drain_events();

    manager.deactivate(active.id).unwrap();
    assert_eq!(
        manager.state(&"home".to_string()),
        ConnectionState::Disconnected
    );
    assert!(manager.active_connections().is_empty());

    let events = manager.drain_events();
    assert!(matches!(
        events[0],
        ConnectionEvent::StateChanged {
            previous: ConnectionState::Activated,
            current: ConnectionState::Deactivating,
            ..
        }
    ));
    assert!(matches!(
        events[1],
        ConnectionEvent::StateChanged {
            previous: ConnectionState::Deactivating,
            current: ConnectionState::Disconnected,
            ..
        }
    ));
    assert!(matches!(events[2], ConnectionEvent::Deactivated { .. }));
}

#[test]
fn deactivating_an_unknown_connection_is_rejected() {
    let mut manager = ActivationManager::new(ScriptedEngine::default());
    assert!(matches!(
        manager
            .deactivate(ActiveConnectionId::new(999))
            .unwrap_err(),
        ActivationError::UnknownActiveConnection(_)
    ));
}

#[test]
fn a_failed_connection_cannot_be_deactivated() {
    let mut store = InMemoryProfileStore::new();
    store.create(open_profile("home")).unwrap();
    let mut manager = ActivationManager::new(failing_activate_engine());
    manager
        .activate_profile(&store, &"home".to_string(), &wifi_device())
        .unwrap_err();

    let failed = manager.active_connections()[0].id;
    assert!(matches!(
        manager.deactivate(failed).unwrap_err(),
        ActivationError::InvalidState { .. }
    ));
}

#[test]
fn deactivation_failure_marks_connection_failed() {
    let mut store = InMemoryProfileStore::new();
    store.create(open_profile("home")).unwrap();
    let mut manager = ActivationManager::new(failing_deactivate_engine());
    let active = manager
        .activate_profile(&store, &"home".to_string(), &wifi_device())
        .unwrap();

    assert!(matches!(
        manager.deactivate(active.id).unwrap_err(),
        ActivationError::Engine(_)
    ));
    assert_eq!(manager.state(&"home".to_string()), ConnectionState::Failed);
    assert!(matches!(
        manager.drain_events().last(),
        Some(ConnectionEvent::Failed { .. })
    ));
}

#[test]
fn active_connection_ids_are_unique_and_displayable() {
    let mut store = InMemoryProfileStore::new();
    store.create(open_profile("home")).unwrap();
    store.create(psk_profile("office")).unwrap();
    let mut manager = ActivationManager::new(ScriptedEngine::default());

    let first = manager
        .activate_profile(&store, &"home".to_string(), &wifi_device())
        .unwrap();
    manager.deactivate(first.id).unwrap();
    let second = manager
        .activate_profile(&store, &"office".to_string(), &wifi_device())
        .unwrap();
    assert_ne!(first.id, second.id);
    assert_eq!(second.id.to_string(), "2");
    assert_eq!(second.id.as_u64(), 2);
}
