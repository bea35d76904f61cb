//! Association through the supplicant.

use network_manager_rs::connection::activation::{ActivationEngine, ActivationError};
use network_manager_rs::connection::device::DeviceInfo;
use network_manager_rs::connection::profile::{
    ConnectionProfile, ConnectionType, KeyManagement, WifiSecurity,
};
use network_manager_rs::connection::secrets::{SecretError, SecretProvider, SecretReference};
use network_manager_rs::connection::supplicant_engine::{
    retrieve_passphrase, supplicant_key_mgmt, WpaSupplicantActivationEngine,
};
use network_manager_rs::linux::model::{Bssid, Ssid};
use network_manager_rs::linux::supplicant::{SupplicantControl, SupplicantError};

const PASSPHRASE: &str = "correct-horse-battery-staple";

/// A static provider returning a passphrase for any reference.
struct StaticProvider {
    present: bool,
}

impl SecretProvider for StaticProvider {
    fn retrieve(&self, _reference: &SecretReference) -> Result<Option<Vec<u8>>, SecretError> {
        if self.present {
            Ok(Some(PASSPHRASE.as_bytes().to_vec()))
        } else {
            Ok(None)
        }
    }
}

/// Shared recording state captured by the scripted control and readable
/// by the test after the control has been moved into the engine.
#[derive(Default)]
struct RecordingData {
    added_ssid: Option<Ssid>,
    added_key_mgmt: Option<String>,
    added_psk: Option<Vec<u8>>,
    added_identity: Option<String>,
    added_bssid: Option<Bssid>,
    added_hidden: Option<bool>,
    selected: Option<String>,
    removed: Vec<String>,
    disconnect_count: usize,
}

/// A recording, scripted supplicant control used to exercise the engine.
struct RecordingControl {
    ifname: String,
    add_ok: bool,
    completed: bool,
    data: std::sync::Arc<std::sync::Mutex<RecordingData>>,
}

impl RecordingControl {
    fn ok() -> Self {
        Self {
            ifname: "wlan0".to_string(),
            add_ok: true,
            completed: true,
            data: std::sync::Arc::new(std::sync::Mutex::new(RecordingData::default())),
        }
    }
}

impl SupplicantControl for RecordingControl {
    fn ifname(&self) -> &str {
        &self.ifname
    }

    fn add_network(
        &mut self,
        ssid: &Ssid,
        key_mgmt: &str,
        psk: Option<&[u8]>,
        identity: Option<&str>,
        bssid: Option<&Bssid>,
        hidden: bool,
    ) -> Result<String, SupplicantError> {
        if !self.add_ok {
            return Err(SupplicantError::NetworkRejected("simulated".to_string()));
        }
        let mut data = self.data.lock().unwrap();
        data.added_ssid = Some(ssid.clone());
        data.added_key_mgmt = Some(key_mgmt.to_string());
        data.added_psk = psk.map(|bytes| bytes.to_vec());
        data.added_identity = identity.map(|value| value.to_string());
        data.added_bssid = bssid.cloned();
        data.added_hidden = Some(hidden);
        Ok("/fi/w1/wpa_supplicant1/Interfaces/1/Networks/1".to_string())
    }

    fn select_network(&mut self, network_path: &str) -> Result<(), SupplicantError> {
        self.data.lock().unwrap().selected = Some(network_path.to_string());
        Ok(())
    }

    fn remove_network(&mut self, network_path: &str) -> Result<(), SupplicantError> {
        self.data
            .lock()
            .unwrap()
            .removed
            .push(network_path.to_string());
        Ok(())
    }

    fn disconnect(&mut self) -> Result<(), SupplicantError> {
        self.data.lock().unwrap().disconnect_count += 1;
        Ok(())
    }

    fn wait_for_completed(&mut self, _timeout_millis: u64) -> Result<(), SupplicantError> {
        if self.completed {
            Ok(())
        } else {
            Err(SupplicantError::Disassociated { reason: 15 })
        }
    }
}

fn wifi_device() -> DeviceInfo {
    DeviceInfo::wifi("wlan0", Some([0x00, 0x11, 0x22, 0x33, 0x44, 0x55]))
}

fn psk_profile(id: &str) -> ConnectionProfile {
    ConnectionProfile::wifi(
        id,
        id,
        Ssid::from_bytes(b"home").unwrap(),
        WifiSecurity::psk(SecretReference::Keyring {
            identifier: format!("nmd/{id}"),
        }),
    )
    .unwrap()
}

fn open_profile(id: &str) -> ConnectionProfile {
    ConnectionProfile::wifi(
        id,
        id,
        Ssid::from_bytes(b"open").unwrap(),
        WifiSecurity::open(),
    )
    .unwrap()
}

fn engine(control: RecordingControl) -> WpaSupplicantActivationEngine<RecordingControl, StaticProvider> {
    WpaSupplicantActivationEngine::with_timeout(
        control,
        StaticProvider { present: true },
        1,
    )
}

#[test]
fn psk_activation_reaches_completed_and_passes_the_passphrase() {
    let control = RecordingControl::ok();
    let data = control.data.clone();
    let mut engine = engine(control);
    engine
        .activate(&psk_profile("home"), &wifi_device())
        .unwrap();

    let data = data.lock().unwrap();
    assert_eq!(data.added_ssid, Some(Ssid::from_bytes(b"home").unwrap()));
    assert_eq!(data.added_key_mgmt.as_deref(), Some("WPA-PSK"));
    assert_eq!(data.added_psk.as_deref(), Some(PASSPHRASE.as_bytes()));
    assert_eq!(data.added_identity, None);
    assert_eq!(
        data.selected.as_deref(),
        Some("/fi/w1/wpa_supplicant1/Interfaces/1/Networks/1")
    );
    assert!(engine.active_network.is_some());
}

#[test]
fn open_activation_passes_no_secret() {
    let control = RecordingControl::ok();
    let data = control.data.clone();
    let mut engine = engine(control);
    engine
        .activate(&open_profile("open"), &wifi_device())
        .unwrap();

    let data = data.lock().unwrap();
    assert_eq!(data.added_key_mgmt.as_deref(), Some("NONE"));
    assert!(data.added_psk.is_none());
}

#[test]
fn activation_failure_is_honest_and_cleans_up() {
    let control = RecordingControl {
        completed: false,
        ..RecordingControl::ok()
    };
    let data = control.data.clone();
    let mut engine = engine(control);

    let err = engine
        .activate(&psk_profile("home"), &wifi_device())
        .unwrap_err();
    assert!(matches!(err, ActivationError::Engine(_)));
    assert!(!err.to_string().contains(PASSPHRASE));
    assert!(engine.active_network.is_none());
    assert_eq!(
        data.lock().unwrap().removed.len(),
        1,
        "failed network is removed"
    );
}

#[test]
fn missing_secret_is_reported_without_material() {
    let control = RecordingControl::ok();
    let mut engine = WpaSupplicantActivationEngine::with_timeout(
        control,
        StaticProvider { present: false },
        1,
    );
    let err = engine
        .activate(&psk_profile("home"), &wifi_device())
        .unwrap_err();
    assert!(matches!(err, ActivationError::Engine(_)));
    assert!(!err.to_string().contains(PASSPHRASE));
    assert!(!format!("{err:?}").contains(PASSPHRASE));
}

#[test]
fn enterprise_profiles_are_rejected_honestly() {
    let control = RecordingControl::ok();
    let mut engine = engine(control);
    let profile = ConnectionProfile::wifi(
        "corp",
        "corp",
        Ssid::from_bytes(b"corp").unwrap(),
        WifiSecurity::enterprise("user@example.org"),
    )
    .unwrap();
    let err = engine.activate(&profile, &wifi_device()).unwrap_err();
    assert!(matches!(err, ActivationError::Engine(_)));
    assert!(err.to_string().contains("not yet implemented"));
}

#[test]
fn non_wifi_profiles_are_rejected() {
    let control = RecordingControl::ok();
    let mut engine = engine(control);
    let profile = ConnectionProfile::ethernet("eth", "eth").unwrap();
    let err = engine
        .activate(&profile, &DeviceInfo::ethernet("eth0", None))
        .unwrap_err();
    assert!(matches!(err, ActivationError::Engine(_)));
}

#[test]
fn mismatched_interface_is_rejected() {
    let control = RecordingControl {
        ifname: "wlan1".to_string(),
        ..RecordingControl::ok()
    };
    let mut engine = engine(control);
    let err = engine
        .activate(&open_profile("open"), &wifi_device())
        .unwrap_err();
    assert!(matches!(err, ActivationError::Engine(_)));
}

#[test]
fn supplicant_engine_second_activation_while_active_is_rejected() {
    let control = RecordingControl::ok();
    let mut engine = engine(control);
    engine
        .activate(&psk_profile("home"), &wifi_device())
        .unwrap();
    let err = engine
        .activate(&psk_profile("office"), &wifi_device())
        .unwrap_err();
    assert!(matches!(err, ActivationError::Engine(_)));
    assert!(err.to_string().contains("in progress"));
}

#[test]
fn deactivation_disconnects_and_removes_the_network() {
    let control = RecordingControl::ok();
    let data = control.data.clone();
    let mut engine = engine(control);
    let profile = psk_profile("home");
    engine.activate(&profile, &wifi_device()).unwrap();

    engine.deactivate(&profile).unwrap();
    assert_eq!(data.lock().unwrap().disconnect_count, 1);
    assert_eq!(data.lock().unwrap().removed.len(), 1);
    assert!(engine.active_network.is_none());
}

#[test]
fn deactivation_without_an_active_network_errors() {
    let control = RecordingControl::ok();
    let mut engine = engine(control);
    let err = engine.deactivate(&psk_profile("home")).unwrap_err();
    assert!(matches!(err, ActivationError::Engine(_)));
}

#[test]
fn deactivation_of_a_different_profile_errors() {
    let control = RecordingControl::ok();
    let mut engine = engine(control);
    engine
        .activate(&psk_profile("home"), &wifi_device())
        .unwrap();
    let err = engine.deactivate(&psk_profile("office")).unwrap_err();
    assert!(matches!(err, ActivationError::Engine(_)));
}

#[test]
fn hidden_and_bssid_constraints_reach_the_supplicant() {
    let control = RecordingControl::ok();
    let data = control.data.clone();
    let mut engine = engine(control);
    let mut profile = psk_profile("home");
    let bssid = Bssid([0x00, 0x11, 0x22, 0x33, 0x44, 0x55]);
    if let ConnectionType::Wifi(settings) =
        &mut profile.connection_type
    {
        settings.hidden = true;
        settings.bssid = Some(bssid);
    }
    engine.activate(&profile, &wifi_device()).unwrap();

    let data = data.lock().unwrap();
    assert_eq!(data.added_hidden, Some(true));
    assert_eq!(data.added_bssid, Some(bssid));
}

#[test]
fn key_management_strings_match_supplicant_expected_values() {
    assert_eq!(supplicant_key_mgmt(KeyManagement::Open), "NONE");
    assert_eq!(supplicant_key_mgmt(KeyManagement::WpaPsk), "WPA-PSK");
    assert_eq!(supplicant_key_mgmt(KeyManagement::Sae), "SAE");
    assert_eq!(supplicant_key_mgmt(KeyManagement::Owe), "OWE");
    assert_eq!(supplicant_key_mgmt(KeyManagement::WpaEap), "WPA-EAP");
}

#[test]
fn secrets_are_asked_for_by_their_reference() {
    let provider = StaticProvider { present: true };
    let mut security = WifiSecurity::open();
    assert_eq!(
        retrieve_passphrase(&provider, &security),
        Err(ActivationError::Engine(
            "profile is missing a secret reference".to_string()
        ))
    );
    security.secret = Some(SecretReference::Agent {
        identifier: "nmd/session".to_string(),
    });
    assert_eq!(
        retrieve_passphrase(&provider, &security),
        Ok(PASSPHRASE.as_bytes().to_vec())
    );
    assert_eq!(
        retrieve_passphrase(&StaticProvider { present: false }, &security),
        Err(ActivationError::Engine(
            "no secret is available for this profile's authentication".to_string()
        ))
    );
}
