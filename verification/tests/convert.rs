//! Profiles as settings, and back.

use network_manager_rs::connection::profile::{
    ConnectionProfile, ConnectionType, IpConfig, IpMethod, WifiSecurity,
};
use network_manager_rs::connection::secrets::SecretReference;
use network_manager_rs::dbus::convert::{
    profile_to_settings, settings_to_profile, stable_uuid, val_numbers,
};
use network_manager_rs::dbus::error::FacadeError;
use network_manager_rs::dbus::value::Value;
use network_manager_rs::linux::model::{IpFamily, Route, RouteKind, RouteScope, Ssid};
use network_manager_rs::net::{IpAddr, Ipv4Addr, Ipv6Addr};

fn open_profile(id: &str) -> ConnectionProfile {
    ConnectionProfile::wifi(
        id,
        id,
        Ssid::from_bytes(b"home").unwrap(),
        WifiSecurity::open(),
    )
    .unwrap()
}

fn psk_profile(id: &str) -> ConnectionProfile {
    ConnectionProfile::wifi(
        id,
        id,
        Ssid::from_bytes(b"home").unwrap(),
        WifiSecurity::psk(SecretReference::Keyring {
            identifier: format!("nmd/{id}"),
        }),
    )
    .unwrap()
}

#[test]
fn profile_round_trips_through_the_settings_dict() {
    let mut profile = psk_profile("home");
    profile.ipv4 = IpConfig {
        method: IpMethod::Manual,
        address: Some(IpAddr::V4(Ipv4Addr::new(192, 168, 1, 10))),
        prefix_length: Some(24),
        gateway: Some(IpAddr::V4(Ipv4Addr::new(192, 168, 1, 1))),
        dns_servers: vec![IpAddr::V4(Ipv4Addr::new(192, 168, 1, 1))],
        routes: Vec::new(),
    };

    let dict = profile_to_settings(&profile);
    let decoded = settings_to_profile(&dict).unwrap();
    assert_eq!(decoded.id, profile.id);
    assert_eq!(decoded.autoconnect, profile.autoconnect);
    let ConnectionType::Wifi(decoded_wifi) = &decoded.connection_type else {
        panic!("decoded profile is not a wifi profile");
    };
    let ConnectionType::Wifi(original_wifi) = &profile.connection_type else {
        panic!("original profile is not a wifi profile");
    };
    assert_eq!(decoded_wifi.ssid, original_wifi.ssid);
    assert_eq!(decoded_wifi.hidden, original_wifi.hidden);
    assert_eq!(
        decoded_wifi.security.key_management,
        original_wifi.security.key_management
    );
    assert_eq!(decoded.ipv4, profile.ipv4);
}

#[test]
fn open_wifi_dict_round_trips() {
    let dict = profile_to_settings(&open_profile("open"));
    assert!(!dict.contains_key("802-11-wireless-security"));
    let decoded = settings_to_profile(&dict).unwrap();
    assert_eq!(
        decoded.connection_type,
        open_profile("open").connection_type
    );
}

#[test]
fn secrets_are_never_emitted() {
    let dict = profile_to_settings(&psk_profile("home"));
    let security = dict.get("802-11-wireless-security").unwrap();
    assert!(!security.contains_key("psk"), "secrets must not leak");
}

#[test]
fn stable_uuid_is_deterministic_and_formatted() {
    let first = stable_uuid("home");
    assert_eq!(first, stable_uuid("home"));
    assert_ne!(first, stable_uuid("office"));
    let parts: Vec<&str> = first.split('-').collect();
    assert_eq!(parts.len(), 5);
    assert_eq!(parts[0].len(), 8);
    assert_eq!(parts[1].len(), 4);
    assert_eq!(parts[2].len(), 4);
    assert_eq!(parts[3].len(), 4);
    assert_eq!(parts[4].len(), 12);
}

#[test]
fn unsupported_connection_types_are_rejected() {
    let mut dict = profile_to_settings(&open_profile("home"));
    dict.put("connection", "type", Value::Str("vpn".to_string()));
    assert!(settings_to_profile(&dict).is_err());
}

#[test]
fn profile_validation_error_becomes_invalid_setting() {
    let mut profile = open_profile("home");
    profile.id = "a/b".to_string();
    let error: FacadeError =
        FacadeError::from(profile.validate().unwrap_err());
    assert!(matches!(
        error,
        FacadeError::InvalidSetting(_)
    ));
}

#[test]
fn manual_address_family_mismatch_is_reported() {
    let mut profile = open_profile("home");
    profile.ipv6 = IpConfig {
        method: IpMethod::Manual,
        address: Some(IpAddr::V4(Ipv4Addr::new(192, 168, 1, 10))),
        prefix_length: Some(24),
        ..IpConfig::default()
    };
    let dict = profile_to_settings(&profile);
    assert!(settings_to_profile(&dict).is_err());
}

fn static_v4_route(
    destination: Ipv4Addr,
    prefix_length: u8,
    gateway: Option<Ipv4Addr>,
    metric: Option<u32>,
) -> Route {
    Route {
        family: IpFamily::V4,
        destination: IpAddr::V4(destination),
        prefix_length,
        gateway: gateway.map(IpAddr::V4),
        output_interface: None,
        metric,
        kind: RouteKind::Unicast,
        scope: if prefix_length == 0 {
            RouteScope::Universe
        } else {
            RouteScope::Link
        },
    }
}

fn static_v6_route(
    destination: Ipv6Addr,
    prefix_length: u8,
    gateway: Option<Ipv6Addr>,
    metric: Option<u32>,
) -> Route {
    Route {
        family: IpFamily::V6,
        destination: IpAddr::V6(destination),
        prefix_length,
        gateway: gateway.map(IpAddr::V6),
        output_interface: None,
        metric,
        kind: RouteKind::Unicast,
        scope: if prefix_length == 0 {
            RouteScope::Universe
        } else {
            RouteScope::Link
        },
    }
}

#[test]
fn ipv4_routes_round_trip_through_the_settings_dict() {
    let mut profile = open_profile("home");
    profile.ipv4 = IpConfig {
        method: IpMethod::Manual,
        address: Some(IpAddr::V4(Ipv4Addr::new(10, 0, 0, 5))),
        prefix_length: Some(24),
        gateway: Some(IpAddr::V4(Ipv4Addr::new(10, 0, 0, 1))),
        dns_servers: Vec::new(),
        routes: vec![
            static_v4_route(
                Ipv4Addr::new(10, 10, 0, 0),
                16,
                Some(Ipv4Addr::new(10, 0, 0, 1)),
                Some(100),
            ),
            static_v4_route(
                Ipv4Addr::new(172, 16, 0, 0),
                12,
                Some(Ipv4Addr::new(10, 0, 0, 1)),
                Some(200),
            ),
            static_v4_route(
                Ipv4Addr::new(0, 0, 0, 0),
                0,
                Some(Ipv4Addr::new(10, 0, 0, 1)),
                Some(50),
            ),
            static_v4_route(Ipv4Addr::new(10, 20, 0, 0), 24, None, None),
        ],
    };

    let dict = profile_to_settings(&profile);
    let decoded = settings_to_profile(&dict).unwrap();
    assert_eq!(decoded.ipv4.routes, profile.ipv4.routes);
}

#[test]
fn ipv6_routes_round_trip_through_the_settings_dict() {
    let mut profile = open_profile("home");
    profile.ipv6 = IpConfig {
        method: IpMethod::Manual,
        address: IpAddr::parse("2001:db8:1::2"),
        prefix_length: Some(64),
        gateway: IpAddr::parse("2001:db8:1::1"),
        dns_servers: Vec::new(),
        routes: vec![
            static_v6_route(
                Ipv6Addr::parse("fd00::").unwrap(),
                8,
                Ipv6Addr::parse("2001:db8:1::1"),
                Some(100),
            ),
            static_v6_route(
                Ipv6Addr::parse("2001:db8:10::").unwrap(),
                64,
                Ipv6Addr::parse("2001:db8:1::1"),
                Some(200),
            ),
            static_v6_route(
                Ipv6Addr::parse("::").unwrap(),
                0,
                Ipv6Addr::parse("2001:db8:1::1"),
                Some(50),
            ),
            static_v6_route(Ipv6Addr::parse("fd11::").unwrap(), 32, None, None),
        ],
    };

    let dict = profile_to_settings(&profile);
    let decoded = settings_to_profile(&dict).unwrap();
    assert_eq!(decoded.ipv6.routes, profile.ipv6.routes);
}

#[test]
fn routes_of_the_wrong_family_are_dropped_from_the_section() {
    let mut profile = open_profile("home");
    profile.ipv4 = IpConfig {
        method: IpMethod::Manual,
        address: Some(IpAddr::V4(Ipv4Addr::new(10, 0, 0, 5))),
        prefix_length: Some(24),
        gateway: Some(IpAddr::V4(Ipv4Addr::new(10, 0, 0, 1))),
        dns_servers: Vec::new(),
        routes: vec![static_v6_route(
            Ipv6Addr::parse("fd00::").unwrap(),
            8,
            Ipv6Addr::parse("2001:db8:1::1"),
            Some(100),
        )],
    };

    let dict = profile_to_settings(&profile);
    let decoded = settings_to_profile(&dict).unwrap();
    assert!(
        decoded.ipv4.routes.is_empty(),
        "a v6 route in ipv4.routes must not survive the round trip"
    );
}

#[test]
fn invalid_v4_route_prefixes_are_rejected() {
    let mut profile = open_profile("home");
    profile.ipv4 = IpConfig {
        method: IpMethod::Manual,
        address: Some(IpAddr::V4(Ipv4Addr::new(10, 0, 0, 5))),
        prefix_length: Some(24),
        gateway: Some(IpAddr::V4(Ipv4Addr::new(10, 0, 0, 1))),
        dns_servers: Vec::new(),
        routes: Vec::new(),
    };
    let mut dict = profile_to_settings(&profile);
    dict.put(
        "ipv4",
        "routes",
        Value::Array(vec![val_numbers(&vec![0, 33, 0, 0])]),
    );
    assert!(settings_to_profile(&dict).is_err());
}
