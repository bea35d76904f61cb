//! Connection profiles.

use network_manager_rs::connection::device::DeviceInfo;
use network_manager_rs::connection::profile::{
    ConnectionProfile, ConnectionType, DeviceMatch, EthernetSettings, IpConfig, IpMethod,
    KeyManagement, ProfileValidationError, WifiSecurity,
};
use network_manager_rs::connection::secrets::SecretReference;
use network_manager_rs::linux::model::Ssid;
use network_manager_rs::net::{IpAddr, Ipv4Addr};

fn secret() -> SecretReference {
    SecretReference::Keyring {
        identifier: "nmd/test".to_string(),
    }
}

fn wifi_device() -> DeviceInfo {
    DeviceInfo::wifi("wlan0", Some([0x00, 0x11, 0x22, 0x33, 0x44, 0x55]))
}

fn wifi_profile(id: &str) -> ConnectionProfile {
    ConnectionProfile::wifi(
        id,
        id,
        Ssid::from_bytes(b"home").unwrap(),
        WifiSecurity::open(),
    )
    .unwrap()
}

#[test]
fn open_wifi_profile_validates() {
    wifi_profile("home").validate().unwrap();
}

#[test]
fn psk_wifi_profile_requires_a_secret_reference() {
    let ok = ConnectionProfile::wifi(
        "home",
        "home",
        Ssid::from_bytes(b"home").unwrap(),
        WifiSecurity::psk(secret()),
    );
    assert!(ok.is_ok());

    let missing = WifiSecurity {
        secret: None,
        ..WifiSecurity::psk(secret())
    };
    assert_eq!(
        ConnectionProfile::wifi("home", "home", Ssid::from_bytes(b"home").unwrap(), missing)
            .unwrap_err(),
        ProfileValidationError::MissingSecret
    );
}

#[test]
fn enterprise_wifi_profile_requires_an_identity() {
    let ok = ConnectionProfile::wifi(
        "corp",
        "corp",
        Ssid::from_bytes(b"corp").unwrap(),
        WifiSecurity::enterprise("user@example.org"),
    );
    assert!(ok.is_ok());

    let without_identity = WifiSecurity {
        key_management: KeyManagement::WpaEap,
        secret: None,
        identity: None,
    };
    assert_eq!(
        ConnectionProfile::wifi(
            "corp",
            "corp",
            Ssid::from_bytes(b"corp").unwrap(),
            without_identity
        )
        .unwrap_err(),
        ProfileValidationError::MissingIdentity
    );
}

#[test]
fn open_wifi_must_not_carry_a_secret() {
    let with_secret = WifiSecurity {
        secret: Some(secret()),
        ..WifiSecurity::open()
    };
    assert_eq!(
        ConnectionProfile::wifi(
            "home",
            "home",
            Ssid::from_bytes(b"home").unwrap(),
            with_secret
        )
        .unwrap_err(),
        ProfileValidationError::SecretNotAllowed
    );
}

#[test]
fn ssid_length_is_checked() {
    let mut profile = wifi_profile("home");
    if let ConnectionType::Wifi(settings) = &mut profile.connection_type {
        settings.ssid = Ssid(vec![b'a'; 33]);
    }
    assert_eq!(
        profile.validate(),
        Err(ProfileValidationError::SsidTooLong(33))
    );

    let mut boundary = wifi_profile("home");
    if let ConnectionType::Wifi(settings) = &mut boundary.connection_type {
        settings.ssid = Ssid(vec![b'a'; 32]);
    }
    assert!(boundary.validate().is_ok());
}

#[test]
fn id_must_be_non_empty_and_sanitized() {
    assert_eq!(
        wifi_profile("home").validate().unwrap(),
        (),
        "valid profile passes"
    );

    let mut empty = wifi_profile("home");
    empty.id = String::new();
    assert_eq!(empty.validate(), Err(ProfileValidationError::EmptyId));

    let mut unsafe_chars = wifi_profile("home");
    unsafe_chars.id = "a/b".to_string();
    assert_eq!(
        unsafe_chars.validate(),
        Err(ProfileValidationError::InvalidIdChars("a/b".to_string()))
    );

    let mut uppercase = wifi_profile("home");
    uppercase.id = "Home_Net-2".to_string();
    assert!(uppercase.validate().is_ok());
}

#[test]
fn manual_ip_configuration_is_fully_validated() {
    let mut profile = wifi_profile("home");

    profile.ipv4 = IpConfig {
        method: IpMethod::Manual,
        ..IpConfig::default()
    };
    assert_eq!(
        profile.validate(),
        Err(ProfileValidationError::ManualAddressRequired)
    );

    profile.ipv4 = IpConfig {
        method: IpMethod::Manual,
        address: Some(IpAddr::V4(Ipv4Addr::new(192, 168, 1, 10))),
        ..IpConfig::default()
    };
    assert_eq!(
        profile.validate(),
        Err(ProfileValidationError::ManualPrefixRequired)
    );

    profile.ipv4.prefix_length = Some(40);
    assert_eq!(
        profile.validate(),
        Err(ProfileValidationError::PrefixOutOfRange(40))
    );

    profile.ipv4 = IpConfig {
        method: IpMethod::Manual,
        address: Some(IpAddr::V4(Ipv4Addr::new(192, 168, 1, 10))),
        prefix_length: Some(24),
        gateway: Some(IpAddr::V4(Ipv4Addr::new(192, 168, 1, 1))),
        dns_servers: vec![IpAddr::V4(Ipv4Addr::new(192, 168, 1, 1))],
        routes: Vec::new(),
    };
    assert!(profile.validate().is_ok());
}

#[test]
fn manual_config_rejects_address_of_the_wrong_family() {
    let mut profile = wifi_profile("home");
    profile.ipv6 = IpConfig {
        method: IpMethod::Manual,
        address: Some(IpAddr::V4(Ipv4Addr::new(192, 168, 1, 10))),
        prefix_length: Some(24),
        ..IpConfig::default()
    };
    assert_eq!(
        profile.validate(),
        Err(ProfileValidationError::AddressFamilyMismatch)
    );
}

#[test]
fn device_matching_checks_kind_name_and_mac() {
    let mut profile = wifi_profile("home");
    assert!(profile.matches(&wifi_device()));
    assert!(!profile.matches(&DeviceInfo::ethernet("eth0", None)));

    profile.device_match = DeviceMatch {
        interface_name: Some("wlan0".to_string()),
        mac_address: None,
    };
    assert!(profile.matches(&wifi_device()));
    assert!(!profile.matches(&DeviceInfo::wifi("wlan1", None)));

    profile.device_match = DeviceMatch {
        interface_name: None,
        mac_address: Some([0x00, 0x11, 0x22, 0x33, 0x44, 0x55].into()),
    };
    assert!(profile.matches(&wifi_device()));
    assert!(!profile.matches(&DeviceInfo::wifi(
        "wlan0",
        Some([0xde, 0xad, 0xbe, 0xef, 0x00, 0x00])
    )));
}

#[test]
fn ethernet_profile_validates_and_matches_ethernet() {
    let mut profile = ConnectionProfile::ethernet("eth", "eth").unwrap();
    if let ConnectionType::Ethernet(settings) = &mut profile.connection_type {
        settings.speed_mbit = Some(0);
    }
    assert_eq!(
        profile.validate(),
        Err(ProfileValidationError::InvalidSpeed)
    );

    let profile = ConnectionProfile::ethernet("eth", "eth").unwrap();
    assert!(profile.matches(&DeviceInfo::ethernet("eth0", None)));
    assert!(!profile.matches(&wifi_device()));
}

#[test]
fn connection_type_and_key_management_are_self_describing() {
    assert_eq!(wifi_profile("home").connection_type.to_string(), "wifi");
    assert_eq!(
        ConnectionType::Ethernet(EthernetSettings::default()).to_string(),
        "ethernet"
    );
    assert_eq!(KeyManagement::Sae.to_string(), "sae");
    assert_eq!(IpMethod::Disabled.to_string(), "disabled");
}
