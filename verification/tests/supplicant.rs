//! The supplicant boundary.

use network_manager_rs::linux::model::{Bssid, Ssid};
use network_manager_rs::linux::supplicant::{
    check_network_path, classify_state, network_config_dict, poll_decision, NetworkConfig,
    NetworkValue, SupplicantControl, SupplicantError,
};

/// A scripted control implementation used to exercise the trait contract
/// without a bus.
struct FakeControl {
    ifname: String,
}

impl SupplicantControl for FakeControl {
    fn ifname(&self) -> &str {
        &self.ifname
    }

    fn add_network(
        &mut self,
        _ssid: &Ssid,
        _key_mgmt: &str,
        _psk: Option<&[u8]>,
        _identity: Option<&str>,
        _bssid: Option<&Bssid>,
        _hidden: bool,
    ) -> Result<String, SupplicantError> {
        Ok("/fi/w1/wpa_supplicant1/Interfaces/1/Networks/1".to_string())
    }

    fn select_network(&mut self, _network_path: &str) -> Result<(), SupplicantError> {
        Ok(())
    }

    fn remove_network(&mut self, _network_path: &str) -> Result<(), SupplicantError> {
        Ok(())
    }

    fn disconnect(&mut self) -> Result<(), SupplicantError> {
        Ok(())
    }

    fn wait_for_completed(&mut self, _timeout_millis: u64) -> Result<(), SupplicantError> {
        Ok(())
    }
}

fn config_of<'a>(config: &'a NetworkConfig, key: &str) -> Option<&'a NetworkValue> {
    config.get(key)
}

fn as_string(value: &NetworkValue) -> Option<String> {
    match value {
        NetworkValue::Text(text) => Some(text.clone()),
        _ => None,
    }
}

fn as_bytes(value: &NetworkValue) -> Option<Vec<u8>> {
    match value {
        NetworkValue::Octets(octets) => Some(octets.clone()),
        _ => None,
    }
}

#[test]
fn open_network_config_omits_secret_fields() {
    let ssid = Ssid::from_bytes(b"OpenNet").unwrap();
    let config = network_config_dict(&ssid, "NONE", None, None, None, false);

    assert_eq!(
        as_string(config_of(&config, "key_mgmt").unwrap()),
        Some("NONE".to_string())
    );
    assert_eq!(
        as_string(config_of(&config, "ssid").unwrap()),
        None,
        "ssid is bytes, not a string"
    );
    assert_eq!(
        as_bytes(config_of(&config, "ssid").unwrap()),
        Some(b"OpenNet".to_vec())
    );
    assert!(!config.contains_key("psk"));
    assert!(!config.contains_key("identity"));
    assert!(!config.contains_key("scan_ssid"));
}

#[test]
fn psk_network_config_carries_passphrase_without_leaking_it_as_a_key() {
    let ssid = Ssid::from_bytes(b"home").unwrap();
    let config =
        network_config_dict(&ssid, "WPA-PSK", Some(b"correct horse"), None, None, false);

    assert_eq!(
        as_string(config_of(&config, "psk").unwrap()),
        Some("correct horse".to_string())
    );
    assert_eq!(
        as_string(config_of(&config, "key_mgmt").unwrap()),
        Some("WPA-PSK".to_string())
    );
}

#[test]
fn hidden_networks_set_scan_ssid() {
    let ssid = Ssid::from_bytes(b"hidden").unwrap();
    let config = network_config_dict(&ssid, "WPA-PSK", None, None, None, true);
    assert!(config.contains_key("scan_ssid"));
}

#[test]
fn enterprise_and_bssid_config_fields_are_present() {
    let ssid = Ssid::from_bytes(b"corp").unwrap();
    let bssid = Bssid([0x00, 0x11, 0x22, 0x33, 0x44, 0x55]);
    let config = network_config_dict(
        &ssid,
        "WPA-EAP",
        None,
        Some("user@example.org"),
        Some(&bssid),
        false,
    );
    assert_eq!(
        as_string(config_of(&config, "identity").unwrap()),
        Some("user@example.org".to_string())
    );
    assert_eq!(
        as_string(config_of(&config, "bssid").unwrap()),
        Some("00:11:22:33:44:55".to_string())
    );
}

#[test]
fn supplicant_errors_never_contain_passphrase_material() {
    for error in [
        SupplicantError::Bus("method failed".to_string()),
        SupplicantError::NetworkRejected("invalid psk".to_string()),
        SupplicantError::Disassociated { reason: 15 },
        SupplicantError::NotConnected {
            state: "disconnected".to_string(),
        },
        SupplicantError::AssociationTimeout,
    ] {
        assert!(!error.to_string().contains("correct horse"));
        assert!(!format!("{error:?}").contains("correct horse"));
    }
}

#[test]
fn fake_control_honors_the_trait_contract() {
    let mut control = FakeControl {
        ifname: "wlan0".to_string(),
    };
    let path = control
        .add_network(
            &Ssid::from_bytes(b"home").unwrap(),
            "WPA-PSK",
            Some(b"hunter2"),
            None,
            None,
            false,
        )
        .unwrap();
    assert!(path.contains("Networks/1"));
    control.select_network(&path).unwrap();
    control.remove_network(&path).unwrap();
    control.disconnect().unwrap();
    control.wait_for_completed(1000).unwrap();
    assert_eq!(control.ifname(), "wlan0");
}

#[test]
fn timeout_error_is_self_describing() {
    assert!(
        SupplicantError::AssociationTimeout
            .to_string()
            .contains("timeout")
    );
}

#[test]
fn state_classification_is_exact() {
    assert!(matches!(classify_state("completed", 0), Some(Ok(()))));
    assert!(matches!(
        classify_state("disconnected", 15),
        Some(Err(SupplicantError::Disassociated { reason: 15 }))
    ));
    assert!(matches!(
        classify_state("inactive", 0),
        Some(Err(SupplicantError::NotConnected { .. }))
    ));
    for state in [
        "scanning",
        "authenticating",
        "associating",
        "4way_handshake",
        "group_handshake",
    ] {
        assert!(classify_state(state, 0).is_none(), "{state} is ongoing");
        assert!(classify_state(state, 2).is_none(), "{state} is ongoing");
    }
    assert!(classify_state("disconnected", 0).is_none());
}

#[test]
fn a_passphrase_that_is_no_text_is_decoded_with_replacements() {
    let ssid = Ssid::from_bytes(b"home").unwrap();
    let config = network_config_dict(&ssid, "WPA-PSK", Some(&[0x61, 0xff]), None, None, false);
    assert_eq!(
        as_string(config_of(&config, "psk").unwrap()),
        Some("a\u{fffd}".to_string())
    );
}

#[test]
fn network_paths_are_checked() {
    assert!(check_network_path("/fi/w1/wpa_supplicant1/Interfaces/1/Networks/1").is_ok());
    assert!(check_network_path("/").is_ok());
    for path in ["", "networks/1", "/networks/", "/net-works"] {
        assert!(
            matches!(check_network_path(path), Err(SupplicantError::Bus(_))),
            "{path} is no object path"
        );
    }
}

#[test]
fn polling_ends_with_the_state_or_with_the_time() {
    assert!(matches!(poll_decision("completed", 0, true), Some(Ok(()))));
    assert!(poll_decision("scanning", 0, false).is_none());
    assert!(matches!(
        poll_decision("scanning", 0, true),
        Some(Err(SupplicantError::AssociationTimeout))
    ));
}
