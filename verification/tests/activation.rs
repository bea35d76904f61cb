//! Activation of a connection, link and IP.

use network_manager_rs::connection::activation::ActivationError;
use network_manager_rs::connection::device::DeviceInfo;
use network_manager_rs::connection::ip::{
    DhcpClient, DhcpError, DhcpLease, DhcpRequest, DnsConfig, DnsError, DnsManager, DnsOwnership,
    IpConfigError, IpConfigurator, Ipv4Config, Ipv6Config,
};
use network_manager_rs::connection::profile::{ConnectionProfile, WifiSecurity};
use network_manager_rs::connection::secrets::{SecretError, SecretProvider, SecretReference};
use network_manager_rs::io_error::IoError;
use network_manager_rs::linux::activation::LinuxActivationEngine;
use network_manager_rs::linux::ip_engine::{IpEngineError, LinuxIpEngine};
use network_manager_rs::linux::model::{Bssid, Link, LinkFlags, NetlinkError, Route, Ssid};
use network_manager_rs::linux::supplicant::{SupplicantControl, SupplicantError};
use network_manager_rs::net::Ipv4Addr;
use std::sync::{Arc, Mutex};

// --- Scripted backends with shared recording state --------------------

#[derive(Default)]
struct Recording {
    connected: bool,
    disconnect_count: usize,
    networks_removed: usize,
    dhcp_acquire_count: usize,
    fail_dhcp: bool,
}

#[derive(Clone)]
struct OkControl {
    ifname: String,
    record: Arc<Mutex<Recording>>,
}

impl SupplicantControl for OkControl {
    fn ifname(&self) -> &str {
        &self.ifname
    }

    fn add_network(
        &mut self,
        _ssid: &Ssid,
        _key_mgmt: &str,
        _psk: Option<&[u8]>,
        _identity: Option<&str>,
        _bssid: Option<&Bssid>,
        _hidden: bool,
    ) -> Result<String, SupplicantError> {
        Ok("/networks/1".to_string())
    }

    fn select_network(&mut self, _network_path: &str) -> Result<(), SupplicantError> {
        Ok(())
    }

    fn remove_network(&mut self, _network_path: &str) -> Result<(), SupplicantError> {
        self.record.lock().unwrap().networks_removed += 1;
        Ok(())
    }

    fn disconnect(&mut self) -> Result<(), SupplicantError> {
        self.record.lock().unwrap().disconnect_count += 1;
        self.record.lock().unwrap().connected = false;
        Ok(())
    }

    fn wait_for_completed(&mut self, _timeout_millis: u64) -> Result<(), SupplicantError> {
        self.record.lock().unwrap().connected = true;
        Ok(())
    }
}

#[derive(Clone, Default)]
struct FakeIpConfigurator;

impl IpConfigurator for FakeIpConfigurator {
    fn configure_ipv4(
        &mut self,
        _interface_index: i32,
        _config: &Ipv4Config,
    ) -> Result<(), IpConfigError> {
        Ok(())
    }

    fn remove_ipv4(
        &mut self,
        _interface_index: i32,
        _config: &Ipv4Config,
    ) -> Result<(), IpConfigError> {
        Ok(())
    }

    fn configure_ipv6(
        &mut self,
        _interface_index: i32,
        _config: &Ipv6Config,
    ) -> Result<(), IpConfigError> {
        Ok(())
    }

    fn remove_ipv6(
        &mut self,
        _interface_index: i32,
        _config: &Ipv6Config,
    ) -> Result<(), IpConfigError> {
        Ok(())
    }

    fn add_route(&mut self, _route: &Route) -> Result<(), IpConfigError> {
        Ok(())
    }

    fn remove_route(&mut self, _route: &Route) -> Result<(), IpConfigError> {
        Ok(())
    }
}

#[derive(Clone, Default)]
struct FakeDhcpClient {
    record: Arc<Mutex<Recording>>,
}

impl DhcpClient for FakeDhcpClient {
    fn acquire(&mut self, request: &DhcpRequest) -> Result<DhcpLease, DhcpError> {
        let mut record = self.record.lock().unwrap();
        if record.fail_dhcp {
            return Err(DhcpError::Timeout {
                interface: request.interface_name.clone(),
            });
        }
        record.dhcp_acquire_count += 1;
        Ok(DhcpLease {
            interface_index: request.interface_index,
            interface_name: request.interface_name.clone(),
            address: Ipv4Addr::new(10, 99, 0, 50),
            prefix_length: 24,
            netmask: Ipv4Addr::new(255, 255, 255, 0),
            gateway: Some(Ipv4Addr::new(10, 99, 0, 1)),
            dns_servers: vec![Ipv4Addr::new(10, 99, 0, 1)],
            search_domains: vec!["nmd.test".to_string()],
            server_identifier: Some(Ipv4Addr::new(10, 99, 0, 1)),
            lease_seconds: Some(600),
            t1_seconds: Some(300),
            t2_seconds: Some(525),
        })
    }

    fn release(&mut self, _lease: &DhcpLease) -> Result<(), DhcpError> {
        Ok(())
    }
}

#[derive(Clone, Default)]
struct FakeDnsManager;

impl DnsManager for FakeDnsManager {
    fn apply(&mut self, _owner: &str, _config: &DnsConfig) -> Result<DnsOwnership, DnsError> {
        Ok(DnsOwnership {
            owner: _owner.to_string(),
            path: "/etc/resolv.conf".to_string(),
        })
    }

    fn remove(&mut self, _ownership: &DnsOwnership) -> Result<(), DnsError> {
        Ok(())
    }
}

/// A harness bundling the composite engine with its shared recording state.
struct Harness {
    engine: LinuxActivationEngine<
        OkControl,
        StaticProvider,
        FakeIpConfigurator,
        FakeDhcpClient,
        FakeDnsManager,
    >,
    record: Arc<Mutex<Recording>>,
}

impl Harness {
    fn new() -> Self {
        let record = Arc::new(Mutex::new(Recording::default()));
        let ip = LinuxIpEngine::with_components(
            FakeIpConfigurator,
            FakeDhcpClient {
                record: record.clone(),
            },
            FakeDnsManager,
        );
        let control = OkControl {
            ifname: "lo".to_string(),
            record: record.clone(),
        };
        let engine = LinuxActivationEngine::with_components(
            control,
            StaticProvider,
            ip,
            1,
        );
        Self { engine, record }
    }
}

struct StaticProvider;

impl SecretProvider for StaticProvider {
    fn retrieve(&self, _reference: &SecretReference) -> Result<Option<Vec<u8>>, SecretError> {
        Ok(Some(b"passphrase".to_vec()))
    }
}

fn wifi_profile() -> ConnectionProfile {
    ConnectionProfile::wifi(
        "home",
        "home",
        Ssid::from_bytes(b"home").unwrap(),
        WifiSecurity::open(),
    )
    .unwrap()
}

fn links() -> Vec<Link> {
    vec![Link {
        index: 1,
        name: "lo".to_string(),
        flags: LinkFlags::from_bits(0x9),
    }]
}

fn loopback_device() -> DeviceInfo {
    DeviceInfo::wifi("lo", Some([0x02, 0x00, 0x00, 0x00, 0x00, 0x01]))
}

#[test]
fn activation_brings_up_supplicant_then_ip_and_records_state() {
    let mut harness = Harness::new();
    let profile = wifi_profile();
    let outcome = harness
        .engine
        .activate(&profile, &loopback_device(), &links(), None)
        .unwrap();

    let record = harness.record.lock().unwrap();
    assert!(record.connected, "supplicant reached completed");
    assert_eq!(record.dhcp_acquire_count, 1, "IP ran after the link");

    let ipv4 = outcome.ipv4.expect("outcome carries ipv4");
    assert_eq!(ipv4.address, Ipv4Addr::new(10, 99, 0, 50));
    drop(record);

    harness.engine.deactivate(&profile).unwrap();
    let record = harness.record.lock().unwrap();
    assert_eq!(record.disconnect_count, 1);
    assert_eq!(record.networks_removed, 1);
}

#[test]
fn ip_failure_rolls_back_the_supplicant_link() {
    let mut harness = Harness::new();
    harness.record.lock().unwrap().fail_dhcp = true;
    let profile = wifi_profile();

    let err = harness
        .engine
        .activate(&profile, &loopback_device(), &links(), None)
        .unwrap_err();
    assert!(matches!(err, ActivationError::Engine(_)));

    let record = harness.record.lock().unwrap();
    assert_eq!(
        record.disconnect_count, 1,
        "link is torn down on IP failure"
    );
    assert_eq!(record.networks_removed, 1);
}

#[test]
fn deactivation_tears_down_ip_state() {
    let mut harness = Harness::new();
    let profile = wifi_profile();
    harness
        .engine
        .activate(&profile, &loopback_device(), &links(), None)
        .unwrap();
    harness.engine.deactivate(&profile).unwrap();

    // teardown ran: the DHCP release + route removal went through the fake
    // configurator without error, which is what teardown() calls.
    let record = harness.record.lock().unwrap();
    assert_eq!(record.disconnect_count, 1);
    drop(record);
}

#[test]
fn deactivation_without_an_active_connection_errors() {
    let mut harness = Harness::new();
    let err = harness.engine.deactivate(&wifi_profile()).unwrap_err();
    assert!(matches!(err, ActivationError::Engine(_)));
}

#[test]
fn activation_second_activation_while_active_is_rejected() {
    let mut harness = Harness::new();
    let profile = wifi_profile();
    harness
        .engine
        .activate(&profile, &loopback_device(), &links(), None)
        .unwrap();
    let err = harness
        .engine
        .activate(&profile, &loopback_device(), &links(), None)
        .unwrap_err();
    assert!(matches!(err, ActivationError::Engine(_)));
}

#[test]
fn ip_engine_error_impl_is_self_describing() {
    let err = IpEngineError::InterfaceNotFound("ghost0".to_string());
    assert!(err.to_string().contains("ghost0"));
    let err: IpEngineError =
        NetlinkError::Io(IoError::other("test")).into();
    assert!(err.to_string().contains("test"));
}

#[test]
fn a_device_without_a_link_is_not_associated() {
    let mut harness = Harness::new();
    let err = harness
        .engine
        .activate(&wifi_profile(), &loopback_device(), &Vec::new(), None)
        .unwrap_err();
    assert!(err.to_string().contains("lo"));
    assert!(!harness.record.lock().unwrap().connected);
}
