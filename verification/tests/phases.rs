//! The phases of an activation, and the order of what they do.

use network_manager_rs::connection::device::DeviceInfo;
use network_manager_rs::connection::ip::{
    DhcpClient, DhcpError, DhcpLease, DhcpRequest, DnsConfig, DnsError, DnsManager, DnsOwnership,
    IpConfigError, IpConfigurator, Ipv4Config, Ipv6Config,
};
use network_manager_rs::connection::profile::{
    ConnectionProfile, IpConfig, IpMethod, WifiSecurity,
};
use network_manager_rs::connection::secrets::{SecretError, SecretProvider, SecretReference};
use network_manager_rs::linux::activation::LinuxActivationEngine;
use network_manager_rs::linux::ip_engine::{IpEngineError, LinuxIpEngine};
use network_manager_rs::linux::model::{Bssid, Link, LinkFlags, Route, Ssid};
use network_manager_rs::linux::supplicant::{SupplicantControl, SupplicantError};
use network_manager_rs::net::{Ipv4Addr, Ipv6Addr};
use std::cell::RefCell;
use std::rc::Rc;

/// What the components were asked for, in order, and whether IPv6 fails.
#[derive(Clone, Default)]
struct Host {
    asked: Rc<RefCell<Vec<&'static str>>>,
    fail_ipv6: bool,
}

impl Host {
    fn note(&self, what: &'static str) {
        self.asked.borrow_mut().push(what);
    }

    fn take(&self) -> Vec<&'static str> {
        std::mem::take(&mut *self.asked.borrow_mut())
    }
}

impl IpConfigurator for Host {
    fn configure_ipv4(&mut self, _: i32, _: &Ipv4Config) -> Result<(), IpConfigError> {
        self.note("configure-ipv4");
        Ok(())
    }

    fn remove_ipv4(&mut self, _: i32, _: &Ipv4Config) -> Result<(), IpConfigError> {
        self.note("remove-ipv4");
        Ok(())
    }

    fn configure_ipv6(&mut self, _: i32, _: &Ipv6Config) -> Result<(), IpConfigError> {
        self.note("configure-ipv6");
        if self.fail_ipv6 {
            Err(IpConfigError::InvalidConfig("simulated"))
        } else {
            Ok(())
        }
    }

    fn remove_ipv6(&mut self, _: i32, _: &Ipv6Config) -> Result<(), IpConfigError> {
        self.note("remove-ipv6");
        Ok(())
    }

    fn add_route(&mut self, _: &Route) -> Result<(), IpConfigError> {
        self.note("add-route");
        Ok(())
    }

    fn remove_route(&mut self, _: &Route) -> Result<(), IpConfigError> {
        self.note("remove-route");
        Ok(())
    }
}

impl DhcpClient for Host {
    fn acquire(&mut self, request: &DhcpRequest) -> Result<DhcpLease, DhcpError> {
        self.note("acquire");
        Ok(DhcpLease {
            interface_index: request.interface_index,
            interface_name: request.interface_name.clone(),
            address: Ipv4Addr::new(10, 99, 0, 50),
            prefix_length: 24,
            netmask: Ipv4Addr::new(255, 255, 255, 0),
            gateway: None,
            dns_servers: vec![Ipv4Addr::new(10, 99, 0, 1)],
            search_domains: Vec::new(),
            server_identifier: None,
            lease_seconds: None,
            t1_seconds: None,
            t2_seconds: None,
        })
    }

    fn release(&mut self, _: &DhcpLease) -> Result<(), DhcpError> {
        self.note("release");
        Ok(())
    }
}

impl DnsManager for Host {
    fn apply(&mut self, owner: &str, _: &DnsConfig) -> Result<DnsOwnership, DnsError> {
        self.note("apply-dns");
        Ok(DnsOwnership {
            owner: owner.to_string(),
            path: "/etc/resolv.conf".to_string(),
        })
    }

    fn remove(&mut self, _: &DnsOwnership) -> Result<(), DnsError> {
        self.note("remove-dns");
        Ok(())
    }
}

impl SupplicantControl for Host {
    fn ifname(&self) -> &str {
        "wlan0"
    }

    fn add_network(
        &mut self,
        _: &Ssid,
        _: &str,
        _: Option<&[u8]>,
        _: Option<&str>,
        _: Option<&Bssid>,
        _: bool,
    ) -> Result<String, SupplicantError> {
        self.note("add-network");
        Ok("/networks/1".to_string())
    }

    fn select_network(&mut self, _: &str) -> Result<(), SupplicantError> {
        self.note("select-network");
        Ok(())
    }

    fn remove_network(&mut self, _: &str) -> Result<(), SupplicantError> {
        self.note("remove-network");
        Ok(())
    }

    fn disconnect(&mut self) -> Result<(), SupplicantError> {
        self.note("disconnect");
        Ok(())
    }

    fn wait_for_completed(&mut self, _: u64) -> Result<(), SupplicantError> {
        self.note("wait");
        Ok(())
    }
}

impl SecretProvider for Host {
    fn retrieve(&self, _: &SecretReference) -> Result<Option<Vec<u8>>, SecretError> {
        Ok(None)
    }
}

fn ip_engine(host: &Host) -> LinuxIpEngine<Host, Host, Host> {
    LinuxIpEngine::with_components(host.clone(), host.clone(), host.clone())
}

fn link_engine(host: &Host) -> LinuxActivationEngine<Host, Host, Host, Host, Host> {
    LinuxActivationEngine::with_components(host.clone(), host.clone(), ip_engine(host), 1)
}

fn profile(ipv6: IpConfig) -> ConnectionProfile {
    let mut profile = ConnectionProfile::wifi(
        "home",
        "home",
        Ssid::from_bytes(b"home").unwrap(),
        WifiSecurity::open(),
    )
    .unwrap();
    profile.ipv6 = ipv6;
    profile
}

fn manual_ipv6() -> IpConfig {
    IpConfig {
        method: IpMethod::Manual,
        address: network_manager_rs::net::IpAddr::parse("2001:db8::2"),
        prefix_length: Some(64),
        ..IpConfig::default()
    }
}

fn device() -> DeviceInfo {
    DeviceInfo::wifi("wlan0", None)
}

fn links() -> Vec<Link> {
    vec![Link {
        index: 3,
        name: "wlan0".to_string(),
        flags: LinkFlags::from_bits(1),
    }]
}

#[test]
fn an_address_seen_after_the_ipv4_phase_is_reported() {
    let host = Host::default();
    let mut engine = ip_engine(&host);
    let reached = engine
        .activate_ipv4_phase(3, "wlan0", &IpConfig::default(), "owner")
        .unwrap();
    assert_eq!(
        host.take(),
        ["acquire", "configure-ipv4", "apply-dns"]
    );
    let seen = Ipv6Addr::parse("fe80::1");
    let (outcome, state) = engine
        .activate_ipv6_phase(reached, 3, &IpConfig::default(), seen)
        .unwrap();
    assert!(host.take().is_empty());
    assert_eq!(outcome.ipv6.unwrap().link_local, seen);
    assert!(outcome.ipv4.is_some());
    assert!(state.dns_owner.is_some());
}

#[test]
fn teardown_releases_the_lease_before_the_address_goes() {
    let host = Host::default();
    let mut engine = ip_engine(&host);
    let (_, state) = engine
        .activate(3, "wlan0", &IpConfig::default(), &manual_ipv6(), "owner", None)
        .unwrap();
    host.take();
    engine.teardown(&state).unwrap();
    assert_eq!(
        host.take(),
        [
            "remove-dns",
            "remove-route",
            "release",
            "remove-ipv4",
            "remove-route",
            "remove-ipv6"
        ]
    );
}

#[test]
fn a_failed_ipv6_phase_undoes_both_phases() {
    let host = Host {
        fail_ipv6: true,
        ..Host::default()
    };
    let mut engine = ip_engine(&host);
    let reached = engine
        .activate_ipv4_phase(3, "wlan0", &IpConfig::default(), "owner")
        .unwrap();
    host.take();
    assert!(matches!(
        engine.activate_ipv6_phase(reached, 3, &manual_ipv6(), None),
        Err(IpEngineError::IpConfig(_))
    ));
    assert_eq!(
        host.take(),
        [
            "configure-ipv6",
            "remove-dns",
            "remove-route",
            "release",
            "remove-ipv4",
            "remove-route",
            "remove-ipv6"
        ]
    );
}

#[test]
fn a_connection_comes_up_and_goes_down_in_stages() {
    let host = Host::default();
    let mut engine = link_engine(&host);
    let profile = profile(IpConfig::default());
    let index = engine.associate(&profile, &device(), &links()).unwrap();
    assert_eq!(index, 3);
    assert_eq!(host.take(), ["add-network", "select-network", "wait"]);
    let reached = engine.configure_ipv4(&profile, &device(), index).unwrap();
    let seen = Ipv6Addr::parse("fe80::1");
    let outcome = engine
        .configure_ipv6(&profile, index, reached, seen)
        .unwrap();
    assert_eq!(outcome.ipv6.unwrap().link_local, seen);
    host.take();
    engine.deactivate(&profile).unwrap();
    assert_eq!(
        host.take(),
        [
            "remove-dns",
            "remove-route",
            "release",
            "remove-ipv4",
            "disconnect",
            "remove-network"
        ]
    );
}

#[test]
fn a_failed_phase_takes_the_link_down_last() {
    let host = Host {
        fail_ipv6: true,
        ..Host::default()
    };
    let mut engine = link_engine(&host);
    let profile = profile(manual_ipv6());
    let index = engine.associate(&profile, &device(), &links()).unwrap();
    let reached = engine.configure_ipv4(&profile, &device(), index).unwrap();
    host.take();
    assert!(engine.configure_ipv6(&profile, index, reached, None).is_err());
    let asked = host.take();
    assert_eq!(asked.first(), Some(&"configure-ipv6"));
    assert_eq!(asked[asked.len() - 2..], ["disconnect", "remove-network"]);
    assert!(engine.active.is_none());
}
