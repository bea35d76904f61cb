//! The bus facade.

use network_manager_rs::connection::activation::{
    ActivationEngine, ActivationError, ActiveConnectionId,
};
use network_manager_rs::connection::device::DeviceInfo;
use network_manager_rs::connection::ip::{
    ActivationOutcome, DhcpLease, Ipv4Outcome, Ipv4Source, Ipv6Outcome, Ipv6Source,
};
use network_manager_rs::connection::profile::ConnectionProfile;
use network_manager_rs::connection::state::{ConnectionEvent, ConnectionState};
use network_manager_rs::connection::store::{InMemoryProfileStore, StoreError};
use network_manager_rs::daemon::{Daemon, NetworkBackend};
use network_manager_rs::dbus::access_point;
use network_manager_rs::dbus::access_point::{
    access_point_paths, device_access_points, find_access_point, security_flags, strength_pct,
};
use network_manager_rs::dbus::active_connection::{active_by_id, connection_devices, nm_state};
use network_manager_rs::dbus::convert::{
    connection_path, profile_to_settings, settings_to_profile, stable_uuid,
};
use network_manager_rs::dbus::device::{
    connection_to_device_state, device_connectivity, device_index_by_name, device_state,
    enumerate_devices, find_device, has_wifi, primary_wifi, DeviceKind,
};
use network_manager_rs::dbus::error::FacadeError;
use network_manager_rs::dbus::ipconfig::{dhcp4_options, Ip4Config, Ip6Config};
use network_manager_rs::dbus::object_path::is_valid_path;
use network_manager_rs::dbus::root::{
    activate, activating_connection, active_id, active_paths, check_connectivity,
    current_nm_state, deactivate_connection, device_paths, get_permissions, path_index,
    primary_connection, primary_connection_type, version_info,
};
use network_manager_rs::dbus::settings::{
    add_connection, delete_connection, get_settings, update_connection,
};
use network_manager_rs::dbus::shared::{BusSignal, Registry};
use network_manager_rs::dbus::value::{Section, SettingsDict, Value};
use network_manager_rs::dbus::{access_point_path, active_path, device_path};
use network_manager_rs::linux::model::{
    AccessPoint, AccessPointSecurity, Address, Bssid, InterfaceType, IpFamily, Link, LinkFlags,
    NetlinkError, NetworkEvent, NetworkEventSource, Route, RouteKind, RouteScope, Ssid, WifiBand,
    WifiBandId, WifiCapabilities, WifiCipher, WirelessInterface,
};
use network_manager_rs::net::{IpAddr, Ipv4Addr, Ipv6Addr};

struct EmptyEventSource;

impl NetworkEventSource for EmptyEventSource {
    fn next_event(&mut self) -> Result<Option<NetworkEvent>, NetlinkError> {
        Ok(None)
    }
}

/// A configurable [`NetworkBackend`] for driving the facade in tests.
#[derive(Clone, Default)]
struct FakeBackend {
    links: Vec<Link>,
    wifi: Vec<WirelessInterface>,
    access_points: Vec<AccessPoint>,
}

impl FakeBackend {
    fn with_link(mut self, link: Link) -> Self {
        self.links.push(link);
        self
    }

    fn with_wifi(mut self, interface: WirelessInterface) -> Self {
        self.wifi.push(interface);
        self
    }

    fn with_access_point(mut self, access_point: AccessPoint) -> Self {
        self.access_points.push(access_point);
        self
    }
}

impl NetworkBackend for FakeBackend {
    type Events = EmptyEventSource;

    fn links(&self) -> Result<Vec<Link>, NetlinkError> {
        Ok(self.links.clone())
    }

    fn addresses(&self) -> Result<Vec<Address>, NetlinkError> {
        Ok(Vec::new())
    }

    fn routes(&self) -> Result<Vec<Route>, NetlinkError> {
        Ok(Vec::new())
    }

    fn events(&self) -> Result<EmptyEventSource, NetlinkError> {
        Ok(EmptyEventSource)
    }

    fn wifi_interfaces(&self) -> Result<Vec<WirelessInterface>, NetlinkError> {
        Ok(self.wifi.clone())
    }

    fn access_points(&self) -> Result<Vec<AccessPoint>, NetlinkError> {
        Ok(self.access_points.clone())
    }

    fn scan_wifi(&self) -> Result<Vec<AccessPoint>, NetlinkError> {
        Ok(self.access_points.clone())
    }

    fn wifi_events(&self) -> Result<EmptyEventSource, NetlinkError> {
        Ok(EmptyEventSource)
    }
}

fn ethernet_link(index: i32, name: &str, up: bool) -> Link {
    Link {
        index,
        name: name.to_string(),
        flags: LinkFlags::from_bits(if up { 0x1 } else { 0 }),
    }
}

fn loopback_link(index: i32) -> Link {
    Link {
        index,
        name: "lo".to_string(),
        flags: LinkFlags::from_bits(0x1 | 0x8),
    }
}

fn wifi_interface(index: i32, name: &str, mac: [u8; 6]) -> WirelessInterface {
    WirelessInterface {
        index,
        name: name.to_string(),
        wiphy_index: Some(index as u32),
        wiphy_name: Some(format!("phy{index}")),
        interface_type: InterfaceType::Station,
        mac: Some(mac),
        up: true,
        capabilities: WifiCapabilities {
            supported_interfaces: vec![InterfaceType::Station],
            cipher_suites: vec![WifiCipher::Ccmp],
            bands: vec![WifiBand {
                id: WifiBandId::Ghz2,
                channels: vec![1, 6, 11],
                frequencies: vec![2412, 2437, 2462],
                ht_capabilities: None,
                vht_capabilities: None,
            }],
            max_scan_ssids: Some(4),
            scan_supported: true,
        },
    }
}

fn access_point(
    bssid: [u8; 6],
    ssid: &str,
    frequency_mhz: u32,
    signal_dbm: i32,
) -> AccessPoint {
    AccessPoint {
        bssid: Some(Bssid(bssid)),
        ssid: Ssid::from_bytes(ssid.as_bytes()),
        frequency: Some(frequency_mhz),
        channel: None,
        signal_dbm: Some(signal_dbm),
        signal_unspecified: None,
        capability: Some(0x0401),
        security: AccessPointSecurity::default(),
        seen_millis_ago: Some(1000),
    }
}

/// An activation engine that reports a fixed IPv4 configuration.
#[derive(Default)]
struct SuccessEngine;

impl ActivationEngine for SuccessEngine {
    fn activate(
        &mut self,
        _profile: &ConnectionProfile,
        _device: &DeviceInfo,
    ) -> Result<ActivationOutcome, ActivationError> {
        let outcome = ActivationOutcome {
            ipv4: Some(Ipv4Outcome {
                address: Ipv4Addr::new(192, 168, 1, 184),
                prefix_length: 24,
                gateway: Some(Ipv4Addr::new(192, 168, 1, 1)),
                dns_servers: vec![IpAddr::V4(Ipv4Addr::new(192, 168, 1, 1))],
                search_domains: vec!["lan".to_string()],
                source: Ipv4Source::AutomaticDhcp,
                routes: vec![Route {
                    family: IpFamily::V4,
                    destination: IpAddr::V4(Ipv4Addr::new(192, 168, 1, 0)),
                    prefix_length: 24,
                    gateway: None,
                    output_interface: Some(3),
                    metric: Some(600),
                    kind: RouteKind::Unicast,
                    scope: RouteScope::Link,
                }],
                lease: None,
            }),
            ipv6: None,
            degradation: None,
        };
        Ok(outcome)
    }

    fn deactivate(&mut self, _profile: &ConnectionProfile) -> Result<(), ActivationError> {
        Ok(())
    }
}

fn wifi_backend() -> FakeBackend {
    FakeBackend::default().with_wifi(wifi_interface(
        2,
        "wlan0",
        [0x00, 0x11, 0x22, 0x33, 0x44, 0x55],
    ))
}

fn ethernet_settings(id: &str) -> SettingsDict {
    let mut settings = SettingsDict::new();
    settings.put("connection", "id", Value::Str(id.to_string()));
    settings.put("connection", "type", Value::Str("802-3-ethernet".to_string()));
    settings
}

#[test]
fn p2p_probe_root_devices_property() {
    let daemon = Daemon::new(wifi_backend());
    let devices = enumerate_devices(&daemon).unwrap();
    assert_eq!(
        device_paths(&devices),
        vec!["/org/freedesktop/NetworkManager/Devices/2"]
    );
}

#[test]
fn p2p_probe_device_property_read_completes() {
    let daemon = Daemon::new(wifi_backend());
    let devices = enumerate_devices(&daemon).unwrap();
    let device = find_device(&devices, 2).unwrap();
    assert_eq!(
        device_state(&device, daemon.active_connections()),
        30,
        "an up device with no active connection is disconnected"
    );
}

#[test]
fn p2p_probe_ethernet_devices_are_enumerated() {
    let daemon = Daemon::new(wifi_backend().with_link(ethernet_link(3, "eth0", true)));
    let devices = enumerate_devices(&daemon).unwrap();
    assert_eq!(
        device_paths(&devices),
        vec![
            "/org/freedesktop/NetworkManager/Devices/2",
            "/org/freedesktop/NetworkManager/Devices/3"
        ]
    );
}

/// The deprecated IPv4 scalars carry the four address octets as a
/// little-endian number, as NetworkManager publishes them.
#[test]
fn p2p_probe_ip4config_values_match_networkmanager_encoding() {
    let backend = FakeBackend::default().with_link(ethernet_link(3, "eth0", true));
    let mut daemon = Daemon::with_engine(backend, SuccessEngine);
    let settings = ethernet_settings("eth0-conn");

    let profile = add_connection(&mut daemon, &settings).unwrap();
    assert!(is_valid_path(&connection_path(&profile.id)));
    let path = "/org/freedesktop/NetworkManager/Devices/3";
    let active = activate(&mut daemon, &profile_to_settings(&profile), path).unwrap();
    let path = active_path(active.id);
    let id = active_id(&path).unwrap();
    let found = active_by_id(daemon.active_connections(), id).unwrap();
    let ip4 = Ip4Config {
        outcome: found.outcome.ipv4.as_ref(),
    };

    assert_eq!(ip4.addresses(), vec![vec![3087116480, 24, 16885952]]);
    assert_eq!(ip4.nameservers(), vec![16885952]);
    assert_eq!(ip4.routes(), vec![vec![108736, 24, 0, 600]]);
}

fn connected_daemon() -> Daemon<FakeBackend, InMemoryProfileStore, SuccessEngine> {
    let backend = wifi_backend().with_link(ethernet_link(3, "eth0", true));
    let mut daemon = Daemon::with_engine(backend, SuccessEngine);
    let profile = add_connection(&mut daemon, &ethernet_settings("office")).unwrap();
    let path = "/org/freedesktop/NetworkManager/Devices/3";
    activate(&mut daemon, &profile_to_settings(&profile), path).unwrap();
    daemon
}

fn text_of<'a>(section: &'a Section, key: &str) -> Option<&'a str> {
    section.text(key)
}

#[test]
fn every_interface_is_listed_once() {
    let backend = wifi_backend()
        .with_link(loopback_link(1))
        .with_link(ethernet_link(2, "wlan0", true))
        .with_link(ethernet_link(3, "eth0", false));
    let devices = enumerate_devices(&Daemon::new(backend)).unwrap();
    let listed: Vec<(i32, DeviceKind)> = devices.iter().map(|d| (d.index, d.kind)).collect();
    assert_eq!(
        listed,
        vec![
            (1, DeviceKind::Loopback),
            (2, DeviceKind::Wifi),
            (3, DeviceKind::Ethernet)
        ]
    );
    assert_eq!(devices[1].hw_address(), "00:11:22:33:44:55");
    assert_eq!(devices[2].hw_address(), "");
    assert_eq!(device_state(&devices[2], &[]), 20);
    assert_eq!(device_index_by_name(&devices, "eth0"), Some(3));
    assert_eq!(device_index_by_name(&devices, "eth9"), None);
    assert!(has_wifi(&devices));
    assert_eq!(primary_wifi(&devices), Some(2));
    assert!(matches!(
        find_device(&devices, 9),
        Err(FacadeError::UnknownDevice(_))
    ));
}

#[test]
fn states_of_connections_and_devices_have_their_numbers() {
    let expected = [
        (ConnectionState::Unknown, 0, 4),
        (ConnectionState::Disconnected, 30, 4),
        (ConnectionState::Preparing, 40, 1),
        (ConnectionState::Configuring, 50, 1),
        (ConnectionState::Activating, 70, 1),
        (ConnectionState::Activated, 100, 2),
        (ConnectionState::Deactivating, 110, 3),
        (ConnectionState::Failed, 120, 4),
    ];
    for (state, device, client) in expected {
        assert_eq!(connection_to_device_state(state), device);
        assert_eq!(nm_state(state), client);
    }
}

#[test]
fn paths_name_numbers() {
    let prefix = "/org/freedesktop/NetworkManager/Devices/";
    assert_eq!(path_index("/org/freedesktop/NetworkManager/Devices/2", prefix), Some(2));
    assert_eq!(path_index("/org/freedesktop/NetworkManager/Devices/2/x", prefix), Some(2));
    assert_eq!(path_index("/org/freedesktop/NetworkManager/Devices/", prefix), None);
    assert_eq!(path_index("/org/freedesktop/NetworkManager/Devices/two", prefix), None);
    assert_eq!(path_index("/", prefix), None);
    assert_eq!(device_path(2), "/org/freedesktop/NetworkManager/Devices/2");
    assert_eq!(
        access_point_path(2, &[0xde, 0xad, 0xbe, 0xef, 0x00, 0x01]),
        "/org/freedesktop/NetworkManager/AccessPoint/2_deadbeef0001"
    );
    let id = ActiveConnectionId::new(7);
    assert_eq!(active_id(&active_path(id)).unwrap(), id);
    assert!(is_valid_path(&active_path(id)));
    assert!(active_id("/").is_err());
}

#[test]
fn object_paths_are_valid_or_not() {
    for path in ["/", "/a", "/a/b_9"] {
        assert!(is_valid_path(path), "{path}");
    }
    for path in ["", "a", "//", "/a/", "/a//b", "/a-b", "/\u{e9}"] {
        assert!(!is_valid_path(path), "{path}");
    }
}

#[test]
fn the_root_reports_the_active_connection() {
    let daemon = Daemon::new(wifi_backend());
    assert_eq!(current_nm_state(&daemon), 20);
    assert_eq!(check_connectivity(daemon.active_connections()), 1);
    assert_eq!(primary_connection(daemon.active_connections()), None);
    assert_eq!(primary_connection_type(daemon.active_connections()), "");

    let daemon = connected_daemon();
    let active = daemon.active_connections();
    assert_eq!(current_nm_state(&daemon), 70);
    assert_eq!(check_connectivity(active), 4);
    assert_eq!(primary_connection(active), Some(active[0].id));
    assert_eq!(primary_connection_type(active), "802-3-ethernet");
    assert_eq!(activating_connection(active), "/");
    assert_eq!(active_paths(active), vec![active_path(active[0].id)]);
    let devices = enumerate_devices(&daemon).unwrap();
    assert_eq!(
        connection_devices(&active[0], &devices),
        vec!["/org/freedesktop/NetworkManager/Devices/3"]
    );
    let device = find_device(&devices, 3).unwrap();
    assert_eq!(device_state(&device, active), 100);
    assert_eq!(device_connectivity(active, "eth0"), 4);
    assert_eq!(device_connectivity(active, "wlan0"), 1);
}

#[test]
fn every_permission_is_granted() {
    let permissions = get_permissions();
    assert_eq!(permissions.len(), 11);
    assert!(permissions.iter().all(|(_, answer)| answer == "yes"));
}

#[test]
fn versions_are_taken_apart() {
    assert_eq!(version_info("1.2.3"), vec![1, 2, 3, 0]);
    assert_eq!(version_info("1.x"), vec![1, 0, 0, 0]);
    assert_eq!(version_info("1.2.3.4"), vec![1, 2, 3, 0]);
    assert_eq!(version_info("4294967296.1"), vec![0, 1, 0, 0]);
}

#[test]
fn activation_of_an_unknown_device_is_refused() {
    let mut daemon = Daemon::with_engine(wifi_backend(), SuccessEngine);
    for path in ["/", "/org/freedesktop/NetworkManager/Devices/9"] {
        assert!(matches!(
            activate(&mut daemon, &SettingsDict::new(), path),
            Err(FacadeError::UnknownDevice(_))
        ));
    }
    let none = activate(
        &mut daemon,
        &SettingsDict::new(),
        "/org/freedesktop/NetworkManager/Devices/2",
    );
    assert!(matches!(none, Err(FacadeError::InvalidSetting(_))));
}

#[test]
fn a_deactivated_connection_is_gone() {
    let mut daemon = connected_daemon();
    let path = active_path(daemon.active_connections()[0].id);
    deactivate_connection(&mut daemon, &path).unwrap();
    assert!(daemon.active_connections().is_empty());
    assert!(matches!(
        deactivate_connection(&mut daemon, &path),
        Err(FacadeError::UnknownActiveConnection(_))
    ));
    assert!(matches!(
        deactivate_connection(&mut daemon, "/"),
        Err(FacadeError::UnknownActiveConnection(_))
    ));
}

#[test]
fn stored_connections_are_rendered_updated_and_deleted() {
    let mut daemon = Daemon::with_engine(wifi_backend(), SuccessEngine);
    let id = add_connection(&mut daemon, &ethernet_settings("office")).unwrap().id;
    let settings = get_settings(&daemon, &id).unwrap();
    let connection = settings.get("connection").unwrap();
    assert_eq!(text_of(connection, "id"), Some("office"));
    assert_eq!(text_of(connection, "uuid"), Some(stable_uuid("office").as_str()));
    assert_eq!(text_of(connection, "type"), Some("802-3-ethernet"));

    assert!(matches!(
        add_connection(&mut daemon, &ethernet_settings("office")),
        Err(FacadeError::InvalidSetting(_))
    ));
    let mut changed = ethernet_settings("office");
    changed.put("connection", "autoconnect", Value::Bool(false));
    update_connection(&mut daemon, &id, &changed).unwrap();
    assert!(!daemon.get_profile(&id).unwrap().autoconnect);

    delete_connection(&mut daemon, &id).unwrap();
    assert!(matches!(
        get_settings(&daemon, &id),
        Err(FacadeError::UnknownConnection(_))
    ));
    assert!(matches!(
        delete_connection(&mut daemon, &id),
        Err(FacadeError::UnknownConnection(_))
    ));
}

#[test]
fn settings_without_a_connection_are_refused() {
    assert!(matches!(
        settings_to_profile(&SettingsDict::new()),
        Err(FacadeError::MissingSetting(_))
    ));
    let mut untyped = SettingsDict::new();
    untyped.put("connection", "id", Value::Str("x".to_string()));
    assert!(settings_to_profile(&untyped).is_err());
    let mut wireless = SettingsDict::new();
    wireless.put("connection", "id", Value::Str("x".to_string()));
    wireless.put("connection", "type", Value::Str("802-11-wireless".to_string()));
    assert!(settings_to_profile(&wireless).is_err());
    wireless.put("802-11-wireless", "ssid", Value::Array(vec![Value::U8(0x61)]));
    assert!(settings_to_profile(&wireless).is_ok());
}

#[test]
fn short_route_structures_are_refused() {
    let mut settings = ethernet_settings("office");
    settings.put("ipv6", "method", Value::Str("auto".to_string()));
    settings.put(
        "ipv6",
        "routes",
        Value::Array(vec![Value::Structure(vec![Value::U32(1)])]),
    );
    assert!(matches!(
        settings_to_profile(&settings),
        Err(FacadeError::InvalidProperty(_))
    ));
}

#[test]
fn errors_have_their_names_on_the_bus() {
    let text = || "x".to_string();
    let named = [
        (
            FacadeError::UnknownConnection(text()),
            "org.freedesktop.NetworkManager.Settings.Connection.UnknownConnection",
        ),
        (
            FacadeError::InvalidSetting(text()),
            "org.freedesktop.NetworkManager.Settings.Connection.InvalidSetting",
        ),
        (
            FacadeError::InvalidProperty(text()),
            "org.freedesktop.NetworkManager.Settings.Connection.InvalidProperty",
        ),
        (
            FacadeError::MissingSetting(text()),
            "org.freedesktop.NetworkManager.Settings.Connection.MissingSetting",
        ),
        (
            FacadeError::UnknownDevice(text()),
            "org.freedesktop.NetworkManager.UnknownDevice",
        ),
        (
            FacadeError::UnknownActiveConnection(text()),
            "org.freedesktop.NetworkManager.UnknownActiveConnection",
        ),
        (FacadeError::NotActive(text()), "org.freedesktop.NetworkManager.NotActive"),
        (
            FacadeError::AlreadyActive(text()),
            "org.freedesktop.NetworkManager.AlreadyActive",
        ),
        (
            FacadeError::PermissionDenied(text()),
            "org.freedesktop.NetworkManager.PermissionDenied",
        ),
        (
            FacadeError::NotSupported(text()),
            "org.freedesktop.NetworkManager.NotSupported",
        ),
        (FacadeError::Internal(text()), "org.freedesktop.DBus.Error.Failed"),
    ];
    for (error, name) in named {
        assert_eq!(error.name(), name);
        assert_eq!(error.description(), "x");
        assert_eq!(error.to_string(), format!("{name}: x"));
    }
}

#[test]
fn errors_of_the_library_become_errors_of_the_bus() {
    assert_eq!(
        FacadeError::from(StoreError::NotFound("a".to_string())),
        FacadeError::UnknownConnection("a".to_string())
    );
    assert_eq!(
        FacadeError::from(StoreError::AlreadyExists("a\"b".to_string())),
        FacadeError::InvalidSetting("connection \"a\\\"b\" already exists".to_string())
    );
    assert_eq!(
        FacadeError::from(ActivationError::AlreadyActive("a".to_string())),
        FacadeError::AlreadyActive("a".to_string())
    );
    assert_eq!(
        FacadeError::from(ActivationError::Engine("no".to_string())),
        FacadeError::NotSupported("no".to_string())
    );
    assert_eq!(
        FacadeError::from(ActivationError::UnknownActiveConnection(ActiveConnectionId::new(3))),
        FacadeError::UnknownActiveConnection("3".to_string())
    );
}

#[test]
fn access_points_are_described() {
    let mut point = access_point([0xde, 0xad, 0xbe, 0xef, 0x00, 0x01], "test-net", 2412, -45);
    assert_eq!(strength_pct(point.signal_dbm), 55);
    assert_eq!(strength_pct(None), 0);
    assert_eq!(strength_pct(Some(i32::MIN)), 0);
    assert_eq!(strength_pct(Some(i32::MAX)), 100);
    assert_eq!(access_point::ssid(&point), b"test-net".to_vec());
    assert_eq!(access_point::frequency(&point), 2412);
    assert_eq!(access_point::channel(&point), 1);
    assert_eq!(access_point::last_seen(&point), 1);
    assert_eq!(access_point::flags(&point), 0);
    assert_eq!(security_flags(&point), 0);
    point.security.wpa2 = true;
    assert_eq!(access_point::flags(&point), 1);
    assert_eq!(security_flags(&point), 0x100 + 0x200);
    point.security.wpa3 = true;
    assert_eq!(security_flags(&point), 0x100 + 0x200 + 0x400 + 0x800);

    let hidden = AccessPoint { bssid: None, ..access_point([0; 6], "x", 2437, -70) };
    let points = vec![hidden, point];
    assert_eq!(
        access_point_paths(&points, Some(2)),
        vec!["/org/freedesktop/NetworkManager/AccessPoint/2_deadbeef0001"]
    );
    assert!(access_point_paths(&points, None).is_empty());
    let found = find_access_point(&points, &[0xde, 0xad, 0xbe, 0xef, 0x00, 0x01]).unwrap();
    assert_eq!(found.frequency, Some(2412));
    assert!(matches!(
        find_access_point(&points, &[0; 6]),
        Err(FacadeError::UnknownDevice(_))
    ));
}

#[test]
fn lease_options_are_listed() {
    let mut daemon = connected_daemon();
    let id = daemon.active_connections()[0].id;
    let mut outcome = active_by_id(daemon.active_connections(), id)
        .unwrap()
        .outcome
        .ipv4
        .clone()
        .unwrap();
    daemon.deactivate(id).unwrap();
    outcome.lease = Some(DhcpLease {
        interface_index: 3,
        interface_name: "eth0".to_string(),
        address: outcome.address,
        prefix_length: 24,
        netmask: Ipv4Addr::new(255, 255, 255, 0),
        gateway: outcome.gateway,
        dns_servers: Vec::new(),
        search_domains: Vec::new(),
        server_identifier: Some(Ipv4Addr::new(192, 168, 1, 1)),
        lease_seconds: Some(600),
        t1_seconds: None,
        t2_seconds: None,
    });
    let options = dhcp4_options(Some(&outcome), Some(1000));
    let expected = [
        ("ip_address", "192.168.1.184"),
        ("subnet_mask", "255.255.255.0"),
        ("routers", "192.168.1.1"),
        ("domain_name_servers", "192.168.1.1"),
        ("dhcp_server_identifier", "192.168.1.1"),
        ("dhcp_lease_time", "600"),
        ("expiry", "1600"),
        ("broadcast_address", "192.168.1.255"),
    ];
    for (key, value) in expected {
        assert_eq!(text_of(&options, key), Some(value), "{key}");
    }
    assert_eq!(options.get("ip_prefix").and_then(|value| value.u32()), Some(24));
    assert_eq!(text_of(&dhcp4_options(Some(&outcome), None), "expiry"), Some("0"));
    assert!(!dhcp4_options(None, Some(1)).contains_key("ip_address"));
}

#[test]
fn ip_configurations_are_rendered() {
    let daemon = connected_daemon();
    let ip4 = Ip4Config { outcome: daemon.active_connections()[0].outcome.ipv4.as_ref() };
    assert_eq!(ip4.gateway(), "192.168.1.1");
    assert_eq!(ip4.searches(), vec!["lan"]);
    assert_eq!(text_of(&ip4.address_data()[0], "address"), Some("192.168.1.184"));
    assert_eq!(text_of(&ip4.route_data()[0], "dest"), Some("192.168.1.0"));
    assert_eq!(text_of(&ip4.nameserver_data()[0], "address"), Some("192.168.1.1"));
    let none = Ip4Config { outcome: None };
    assert!(none.addresses().is_empty());
    assert_eq!(none.gateway(), "");

    let outcome = Ipv6Outcome {
        address: None,
        prefix_length: 0,
        gateway: None,
        dns_servers: vec![IpAddr::V6(Ipv6Addr::localhost())],
        search_domains: Vec::new(),
        link_local: Ipv6Addr::parse("fe80::1"),
        source: Ipv6Source::default(),
        routes: Vec::new(),
    };
    let ip6 = Ip6Config { outcome: Some(&outcome) };
    assert_eq!(ip6.address(), Some((Ipv6Addr::parse("fe80::1").unwrap(), 64)));
    assert_eq!(text_of(&ip6.address_data()[0], "address"), Some("fe80::1"));
    assert_eq!(ip6.addresses()[0].2, vec![0; 16]);
    assert_eq!(ip6.nameservers(), vec![Ipv6Addr::localhost().octets().to_vec()]);
}

#[test]
fn events_are_mirrored_once() {
    let daemon = connected_daemon();
    let devices = enumerate_devices(&daemon).unwrap();
    let active = daemon.active_connections();
    let id = active[0].id;
    let mut registry = Registry::new();
    registry.register_device(&find_device(&devices, 3).unwrap(), 30);
    registry.register_active_connection(id);

    let preparing = ConnectionEvent::StateChanged {
        active_id: id,
        profile_id: "office".to_string(),
        previous: ConnectionState::Disconnected,
        current: ConnectionState::Preparing,
    };
    assert_eq!(
        registry.mirror_event(&preparing, active, &devices),
        vec![
            BusSignal::ActiveState { id, state: 1, previous: 4 },
            BusSignal::DeviceState { index: 3, state: 40, previous: 30 },
        ]
    );
    assert_eq!(
        registry.mirror_event(&preparing, active, &devices),
        vec![BusSignal::ActiveState { id, state: 1, previous: 4 }]
    );
    let gone = ConnectionEvent::Deactivated {
        active_id: id,
        profile_id: "office".to_string(),
    };
    assert!(registry.is_active_connection_registered(id));
    assert_eq!(
        registry.mirror_event(&gone, &[], &devices),
        vec![
            BusSignal::ActiveRemoved { id },
            BusSignal::DeviceState { index: 3, state: 30, previous: 40 },
        ]
    );
    assert!(!registry.is_active_connection_registered(id));
}

#[test]
fn the_registry_remembers_objects() {
    let daemon = connected_daemon();
    let devices = enumerate_devices(&daemon).unwrap();
    let mut registry = Registry::new();
    for device in &devices {
        registry.register_device(device, 30);
    }
    assert!(registry.is_device_registered(2));
    let mut indices = registry.registered_device_indices();
    indices.sort();
    assert_eq!(indices, vec![2, 3]);
    assert_eq!(registry.take_device_interface(3).as_deref(), Some("eth0"));
    assert_eq!(registry.take_device_interface(3), None);

    let path = registry.register_connection("office");
    assert_eq!(path, connection_path("office"));
    assert_eq!(registry.connection_path_lookup("office"), Some(path.clone()));
    let profiles = daemon.list_profiles().unwrap();
    assert_eq!(registry.connection_paths(&profiles, None), vec![path.clone()]);
    assert_eq!(
        registry.connection_by_uuid(&profiles, &stable_uuid("office")).unwrap(),
        path
    );
    assert!(registry.connection_by_uuid(&profiles, "none").is_err());
    assert_eq!(registry.take_connection_path("office"), Some(path));
    assert_eq!(registry.connection_path_lookup("office"), None);

    let bssid = Bssid([1, 2, 3, 4, 5, 6]);
    registry.register_access_point(bssid);
    assert_eq!(registry.registered_access_point_bssids(), vec![bssid]);
    registry.unregister_access_point(&bssid);
    assert!(registry.registered_access_point_bssids().is_empty());

    assert!(registry.emit_root_state_if_changed(70));
    assert!(!registry.emit_root_state_if_changed(70));
}

#[test]
fn pending_events_are_mirrored_with_the_overall_state() {
    let daemon = connected_daemon();
    let devices = enumerate_devices(&daemon).unwrap();
    let active = daemon.active_connections();
    let id = active[0].id;
    let step = |previous: ConnectionState, current: ConnectionState| {
        ConnectionEvent::StateChanged {
            active_id: id,
            profile_id: "office".to_string(),
            previous,
            current,
        }
    };
    let mut registry = Registry::new();
    let events = vec![
        step(ConnectionState::Disconnected, ConnectionState::Preparing),
        step(ConnectionState::Activating, ConnectionState::Activated),
    ];
    assert_eq!(
        registry.mirror_events(&events, active, &devices),
        vec![
            BusSignal::ActiveState { id, state: 1, previous: 4 },
            BusSignal::DeviceState { index: 3, state: 40, previous: 0 },
            BusSignal::ActiveState { id, state: 2, previous: 1 },
            BusSignal::DeviceState { index: 3, state: 100, previous: 40 },
            BusSignal::RootState { state: 70 },
        ]
    );
    assert!(registry.mirror_events(&Vec::new(), active, &devices).is_empty());
    assert_eq!(
        registry.mirror_events(&Vec::new(), &[], &devices),
        vec![BusSignal::RootState { state: 20 }]
    );
}

#[test]
fn only_the_first_wifi_device_lists_access_points() {
    let backend = wifi_backend().with_wifi(wifi_interface(4, "wlan1", [0; 6]));
    let devices = enumerate_devices(&Daemon::new(backend)).unwrap();
    let points = vec![access_point([1, 2, 3, 4, 5, 6], "x", 2412, -45)];
    assert_eq!(
        device_access_points(&devices, &points, 2),
        vec!["/org/freedesktop/NetworkManager/AccessPoint/2_010203040506"]
    );
    assert!(device_access_points(&devices, &points, 4).is_empty());
}

#[test]
fn a_deactivation_is_told_of_its_device() {
    let mut daemon = connected_daemon();
    let devices = enumerate_devices(&daemon).unwrap();
    let id = daemon.active_connections()[0].id;
    let mut registry = Registry::new();
    registry.register_device(&find_device(&devices, 3).unwrap(), 30);
    registry.register_active_connection(id);

    let up = daemon.connection_events();
    let told = registry.mirror_events(&up, daemon.active_connections(), &devices);
    assert_eq!(
        told[told.len() - 2..],
        [
            BusSignal::DeviceState { index: 3, state: 100, previous: 70 },
            BusSignal::RootState { state: 70 },
        ]
    );

    daemon.deactivate(id).unwrap();
    assert!(daemon.active_connections().is_empty());
    let down = daemon.connection_events();
    assert_eq!(
        registry.mirror_events(&down, daemon.active_connections(), &devices),
        vec![
            BusSignal::ActiveState { id, state: 3, previous: 2 },
            BusSignal::DeviceState { index: 3, state: 110, previous: 100 },
            BusSignal::ActiveState { id, state: 4, previous: 3 },
            BusSignal::DeviceState { index: 3, state: 30, previous: 110 },
            BusSignal::ActiveRemoved { id },
            BusSignal::RootState { state: 20 },
        ]
    );
    assert!(!registry.is_active_connection_registered(id));
    assert!(registry
        .mirror_events(&daemon.connection_events(), &[], &devices)
        .is_empty());
}
