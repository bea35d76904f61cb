//! IP configuration of an interface.

use network_manager_rs::connection::ip::{
    DhcpClient, DhcpError, DhcpLease, DhcpRequest, DnsConfig, DnsError, DnsManager, DnsOwnership,
    IpConfigError, IpConfigurator, Ipv4Config, Ipv4Source, Ipv6Config,
};
use network_manager_rs::connection::profile::{IpConfig, IpMethod};
use network_manager_rs::linux::ip_engine::{IpEngineError, LinuxIpEngine};
use network_manager_rs::linux::model::{IpFamily, Route, RouteKind, RouteScope};
use network_manager_rs::net::{IpAddr, Ipv4Addr, Ipv6Addr};
use std::cell::RefCell;
use std::rc::Rc;

// --- Scripted backends with shared recording state --------------------

#[derive(Default)]
struct Recording {
    configured: Vec<(i32, Ipv4Config)>,
    removed: Vec<(i32, Ipv4Config)>,
    routes_added: usize,
    routes_removed: usize,
    acquire_count: usize,
    released: Vec<String>,
    dns_applied: Vec<String>,
    dns_removed: Vec<String>,
    fail_configure: bool,
    fail_acquire: bool,
    fail_route_at: Option<usize>,
}

#[derive(Clone, Default)]
struct FakeIpConfigurator {
    record: Rc<RefCell<Recording>>,
}

impl IpConfigurator for FakeIpConfigurator {
    fn configure_ipv4(
        &mut self,
        interface_index: i32,
        config: &Ipv4Config,
    ) -> Result<(), IpConfigError> {
        let mut record = self.record.borrow_mut();
        if record.fail_configure {
            return Err(IpConfigError::InvalidConfig("simulated"));
        }
        record.configured.push((interface_index, config.clone()));
        Ok(())
    }

    fn remove_ipv4(
        &mut self,
        interface_index: i32,
        config: &Ipv4Config,
    ) -> Result<(), IpConfigError> {
        self.record
            .borrow_mut()
            .removed
            .push((interface_index, config.clone()));
        Ok(())
    }

    fn configure_ipv6(
        &mut self,
        _interface_index: i32,
        _config: &Ipv6Config,
    ) -> Result<(), IpConfigError> {
        Ok(())
    }

    fn remove_ipv6(
        &mut self,
        _interface_index: i32,
        _config: &Ipv6Config,
    ) -> Result<(), IpConfigError> {
        Ok(())
    }

    fn add_route(&mut self, _route: &Route) -> Result<(), IpConfigError> {
        let mut record = self.record.borrow_mut();
        if record.fail_route_at == Some(record.routes_added + 1) {
            return Err(IpConfigError::InvalidConfig("simulated route failure"));
        }
        record.routes_added += 1;
        Ok(())
    }

    fn remove_route(&mut self, _route: &Route) -> Result<(), IpConfigError> {
        self.record.borrow_mut().routes_removed += 1;
        Ok(())
    }
}

#[derive(Clone, Default)]
struct FakeDhcpClient {
    record: Rc<RefCell<Recording>>,
}

impl DhcpClient for FakeDhcpClient {
    fn acquire(
        &mut self,
        request: &DhcpRequest,
    ) -> Result<DhcpLease, DhcpError> {
        let mut record = self.record.borrow_mut();
        if record.fail_acquire {
            return Err(DhcpError::Timeout {
                interface: request.interface_name.clone(),
            });
        }
        record.acquire_count += 1;
        Ok(DhcpLease {
            interface_index: request.interface_index,
            interface_name: request.interface_name.clone(),
            address: Ipv4Addr::new(10, 99, 0, 50),
            prefix_length: 24,
            netmask: Ipv4Addr::new(255, 255, 255, 0),
            gateway: Some(Ipv4Addr::new(10, 99, 0, 1)),
            dns_servers: vec![Ipv4Addr::new(10, 99, 0, 1)],
            search_domains: vec!["nmd.test".to_string()],
            server_identifier: Some(Ipv4Addr::new(10, 99, 0, 1)),
            lease_seconds: Some(600),
            t1_seconds: Some(300),
            t2_seconds: Some(525),
        })
    }

    fn release(&mut self, lease: &DhcpLease) -> Result<(), DhcpError> {
        self.record
            .borrow_mut()
            .released
            .push(lease.interface_name.clone());
        Ok(())
    }
}

#[derive(Clone, Default)]
struct FakeDnsManager {
    record: Rc<RefCell<Recording>>,
}

impl DnsManager for FakeDnsManager {
    fn apply(&mut self, owner: &str, _config: &DnsConfig) -> Result<DnsOwnership, DnsError> {
        self.record.borrow_mut().dns_applied.push(owner.to_string());
        Ok(DnsOwnership {
            owner: owner.to_string(),
            path: "/etc/resolv.conf".to_string(),
        })
    }

    fn remove(&mut self, ownership: &DnsOwnership) -> Result<(), DnsError> {
        self.record
            .borrow_mut()
            .dns_removed
            .push(ownership.owner.clone());
        Ok(())
    }
}

/// A test harness bundling the engine with its shared recording state.
struct Harness {
    engine: LinuxIpEngine<FakeIpConfigurator, FakeDhcpClient, FakeDnsManager>,
    record: Rc<RefCell<Recording>>,
}

impl Harness {
    fn new() -> Self {
        let record = Rc::new(RefCell::new(Recording::default()));
        let engine = LinuxIpEngine::with_components(
            FakeIpConfigurator {
                record: record.clone(),
            },
            FakeDhcpClient {
                record: record.clone(),
            },
            FakeDnsManager {
                record: record.clone(),
            },
        );
        Self { engine, record }
    }
}

fn automatic_config() -> IpConfig {
    IpConfig {
        method: IpMethod::Automatic,
        ..IpConfig::default()
    }
}

fn manual_config() -> IpConfig {
    IpConfig {
        method: IpMethod::Manual,
        address: Some(IpAddr::V4(Ipv4Addr::new(10, 0, 0, 5))),
        prefix_length: Some(24),
        gateway: Some(IpAddr::V4(Ipv4Addr::new(10, 0, 0, 1))),
        dns_servers: vec![IpAddr::V4(Ipv4Addr::new(10, 0, 0, 1))],
        routes: Vec::new(),
    }
}

fn disabled_config() -> IpConfig {
    IpConfig {
        method: IpMethod::Disabled,
        ..IpConfig::default()
    }
}

#[test]
fn automatic_activation_acquires_dhcp_installs_address_route_and_dns() {
    let mut harness = Harness::new();
    let (outcome, state) = harness
        .engine
        .activate(
            1,
            "veth0",
            &automatic_config(),
            &IpConfig::default(),
            "profile-dhcp",
            None,
        )
        .unwrap();

    let record = harness.record.borrow();
    assert_eq!(record.acquire_count, 1);
    assert_eq!(record.configured.len(), 1);
    assert_eq!(record.configured[0].1.address, Ipv4Addr::new(10, 99, 0, 50));
    assert_eq!(record.dns_applied, vec!["profile-dhcp"]);

    let ipv4 = outcome.ipv4.expect("automatic outcome has ipv4");
    assert_eq!(ipv4.address, Ipv4Addr::new(10, 99, 0, 50));
    assert_eq!(ipv4.gateway, Some(Ipv4Addr::new(10, 99, 0, 1)));
    assert_eq!(
        ipv4.dns_servers,
        vec![IpAddr::V4(Ipv4Addr::new(10, 99, 0, 1))]
    );
    assert_eq!(ipv4.search_domains, vec!["nmd.test"]);
    assert_eq!(ipv4.source, Ipv4Source::AutomaticDhcp);

    let active = state.ipv4.unwrap();
    assert_eq!(active.interface_index, 1);
    assert!(active.lease.is_some());
    assert_eq!(active.routes.len(), 2, "connected and default route");
    assert!(state.dns_owner.is_some());
}

#[test]
fn manual_activation_installs_static_address_and_dns() {
    let mut harness = Harness::new();
    let (outcome, state) = harness
        .engine
        .activate(
            1,
            "eth0",
            &manual_config(),
            &IpConfig::default(),
            "profile-manual",
            None,
        )
        .unwrap();

    let record = harness.record.borrow();
    assert_eq!(record.acquire_count, 0, "manual mode never runs DHCP");
    assert_eq!(record.configured.len(), 1);
    assert_eq!(record.configured[0].1.address, Ipv4Addr::new(10, 0, 0, 5));
    assert_eq!(record.dns_applied, vec!["profile-manual"]);

    let ipv4 = outcome.ipv4.unwrap();
    assert_eq!(ipv4.source, Ipv4Source::Manual);
    assert_eq!(ipv4.address, Ipv4Addr::new(10, 0, 0, 5));
    assert!(state.ipv4.unwrap().lease.is_none());
}

#[test]
fn manual_activation_without_address_is_rejected_before_kernel_changes() {
    let mut harness = Harness::new();
    let config = IpConfig {
        method: IpMethod::Manual,
        ..IpConfig::default()
    };
    let err = harness
        .engine
        .activate(1, "eth0", &config, &IpConfig::default(), "profile-manual", None)
        .unwrap_err();
    assert!(matches!(err, IpEngineError::InvalidConfig(_)));
    assert!(harness.record.borrow().configured.is_empty());
}

#[test]
fn disabled_method_changes_nothing() {
    let mut harness = Harness::new();
    let (outcome, state) = harness
        .engine
        .activate(
            1,
            "eth0",
            &disabled_config(),
            &IpConfig::default(),
            "profile-off",
            None,
        )
        .unwrap();
    assert!(outcome.ipv4.is_none());
    assert!(state.ipv4.is_none());
    assert!(state.dns_owner.is_none());
    assert!(harness.record.borrow().configured.is_empty());
}

#[test]
fn dhcp_failure_propagates_and_changes_nothing() {
    let mut harness = Harness::new();
    harness.record.borrow_mut().fail_acquire = true;
    let err = harness
        .engine
        .activate(
            1,
            "eth0",
            &automatic_config(),
            &IpConfig::default(),
            "profile-dhcp",
            None,
        )
        .unwrap_err();
    assert!(matches!(err, IpEngineError::Dhcp(_)));
    assert!(harness.record.borrow().configured.is_empty());
    assert!(harness.record.borrow().dns_applied.is_empty());
}

#[test]
fn teardown_reverses_everything_in_order() {
    let mut harness = Harness::new();
    let (_, state) = harness
        .engine
        .activate(
            1,
            "veth0",
            &automatic_config(),
            &IpConfig::default(),
            "profile-dhcp",
            None,
        )
        .unwrap();
    harness.engine.teardown(&state).unwrap();

    let record = harness.record.borrow();
    assert_eq!(record.dns_removed, vec!["profile-dhcp"]);
    assert_eq!(record.released, vec!["veth0"]);
    assert_eq!(record.routes_removed, 2, "connected and default route");
    assert_eq!(record.removed.len(), 1);
    assert_eq!(record.removed[0].1.address, Ipv4Addr::new(10, 99, 0, 50));
}

fn static_route_v4(
    destination: Ipv4Addr,
    prefix_length: u8,
    gateway: Ipv4Addr,
    metric: u32,
) -> Route {
    Route {
        family: IpFamily::V4,
        destination: IpAddr::V4(destination),
        prefix_length,
        gateway: Some(IpAddr::V4(gateway)),
        output_interface: None,
        metric: Some(metric),
        kind: RouteKind::Unicast,
        scope: RouteScope::Universe,
    }
}

fn static_route_v6(
    destination: Ipv6Addr,
    prefix_length: u8,
    gateway: Ipv6Addr,
    metric: u32,
) -> Route {
    Route {
        family: IpFamily::V6,
        destination: IpAddr::V6(destination),
        prefix_length,
        gateway: Some(IpAddr::V6(gateway)),
        output_interface: None,
        metric: Some(metric),
        kind: RouteKind::Unicast,
        scope: RouteScope::Universe,
    }
}

#[test]
fn manual_activation_installs_and_reports_the_static_routes() {
    let mut harness = Harness::new();
    let static_10 = static_route_v4(
        Ipv4Addr::new(10, 10, 0, 0),
        16,
        Ipv4Addr::new(10, 0, 0, 1),
        100,
    );
    let static_172 = static_route_v4(
        Ipv4Addr::new(172, 16, 0, 0),
        12,
        Ipv4Addr::new(10, 0, 0, 1),
        200,
    );
    let config = IpConfig {
        method: IpMethod::Manual,
        address: Some(IpAddr::V4(Ipv4Addr::new(10, 0, 0, 5))),
        prefix_length: Some(24),
        gateway: Some(IpAddr::V4(Ipv4Addr::new(10, 0, 0, 1))),
        routes: vec![static_10.clone(), static_172.clone()],
        ..IpConfig::default()
    };
    let (outcome, state) = harness
        .engine
        .activate(1, "eth0", &config, &IpConfig::default(), "profile-manual", None)
        .unwrap();

    assert_eq!(harness.record.borrow().routes_added, 2);
    let ipv4 = outcome.ipv4.unwrap();
    assert!(ipv4.routes.contains(&static_10));
    assert!(ipv4.routes.contains(&static_172));
    assert_eq!(
        ipv4.routes.len(),
        4,
        "connected, default, and the two static routes"
    );
    let active = state.ipv4.as_ref().unwrap();
    assert!(active.routes.contains(&static_10));
    assert!(active.routes.contains(&static_172));

    harness.engine.teardown(&state).unwrap();
    assert_eq!(
        harness.record.borrow().routes_removed,
        4,
        "teardown removes every tracked route"
    );
}

#[test]
fn automatic_activation_installs_and_reports_the_static_routes() {
    let mut harness = Harness::new();
    let static_10 = static_route_v4(
        Ipv4Addr::new(10, 10, 0, 0),
        16,
        Ipv4Addr::new(10, 99, 0, 1),
        100,
    );
    let config = IpConfig {
        method: IpMethod::Automatic,
        routes: vec![static_10.clone()],
        ..IpConfig::default()
    };
    let (outcome, _state) = harness
        .engine
        .activate(1, "veth0", &config, &IpConfig::default(), "profile-dhcp", None)
        .unwrap();

    assert_eq!(harness.record.borrow().routes_added, 1);
    let ipv4 = outcome.ipv4.unwrap();
    assert!(ipv4.routes.contains(&static_10));
    assert_eq!(
        ipv4.routes.len(),
        3,
        "connected, default, and the static route"
    );
}

#[test]
fn routes_of_the_other_family_are_ignored() {
    let mut harness = Harness::new();
    let v6_route = static_route_v6(
        Ipv6Addr::parse("2001:db8:10::").unwrap(),
        64,
        Ipv6Addr::parse("2001:db8:1::1").unwrap(),
        200,
    );
    let v4_config = IpConfig {
        method: IpMethod::Manual,
        address: Some(IpAddr::V4(Ipv4Addr::new(10, 0, 0, 5))),
        prefix_length: Some(24),
        gateway: Some(IpAddr::V4(Ipv4Addr::new(10, 0, 0, 1))),
        routes: vec![v6_route.clone()],
        ..IpConfig::default()
    };
    let (outcome, state) = harness
        .engine
        .activate(
            1,
            "eth0",
            &v4_config,
            &IpConfig::default(),
            "profile-manual",
            None,
        )
        .unwrap();

    assert_eq!(
        harness.record.borrow().routes_added,
        0,
        "a v6 route in ipv4.routes is never installed"
    );
    let ipv4 = outcome.ipv4.unwrap();
    assert!(!ipv4.routes.contains(&v6_route));
    assert_eq!(ipv4.routes.len(), 2, "only connected and default route");
    let active = state.ipv4.unwrap();
    assert!(!active.routes.contains(&v6_route));
}

#[test]
fn manual_ipv6_activation_installs_and_reports_the_static_routes() {
    let mut harness = Harness::new();
    let static_fd = static_route_v6(
        Ipv6Addr::parse("fd00::").unwrap(),
        8,
        Ipv6Addr::parse("2001:db8:1::1").unwrap(),
        100,
    );
    let v4_route = static_route_v4(
        Ipv4Addr::new(10, 10, 0, 0),
        16,
        Ipv4Addr::new(10, 0, 0, 1),
        100,
    );
    let v6_config = IpConfig {
        method: IpMethod::Manual,
        address: IpAddr::parse("2001:db8:1::2"),
        prefix_length: Some(64),
        gateway: IpAddr::parse("2001:db8:1::1"),
        routes: vec![static_fd.clone(), v4_route.clone()],
        ..IpConfig::default()
    };
    let (outcome, state) = harness
        .engine
        .activate(
            1,
            "eth0",
            &IpConfig {
                method: IpMethod::Disabled,
                ..IpConfig::default()
            },
            &v6_config,
            "profile-manual",
            None,
        )
        .unwrap();

    assert_eq!(
        harness.record.borrow().routes_added,
        1,
        "only the v6 route is installed from ipv6.routes"
    );
    let ipv6 = outcome.ipv6.unwrap();
    assert!(ipv6.routes.contains(&static_fd));
    assert!(!ipv6.routes.contains(&v4_route));
    assert_eq!(
        ipv6.routes.len(),
        3,
        "connected, default, and the static route"
    );

    harness.engine.teardown(&state).unwrap();
    assert_eq!(harness.record.borrow().routes_removed, 3);
}

#[test]
fn a_failed_static_route_rolls_back_everything() {
    let mut harness = Harness::new();
    let static_10 = static_route_v4(
        Ipv4Addr::new(10, 10, 0, 0),
        16,
        Ipv4Addr::new(10, 0, 0, 1),
        100,
    );
    let static_bad = static_route_v4(
        Ipv4Addr::new(10, 30, 0, 0),
        16,
        Ipv4Addr::new(10, 200, 0, 1),
        100,
    );
    let config = IpConfig {
        method: IpMethod::Manual,
        address: Some(IpAddr::V4(Ipv4Addr::new(10, 0, 0, 5))),
        prefix_length: Some(24),
        gateway: Some(IpAddr::V4(Ipv4Addr::new(10, 0, 0, 1))),
        routes: vec![static_10.clone(), static_bad.clone()],
        ..IpConfig::default()
    };
    harness.record.borrow_mut().fail_route_at = Some(2);

    let err = harness
        .engine
        .activate(
            1,
            "eth0",
            &config,
            &IpConfig {
                method: IpMethod::Disabled,
                ..IpConfig::default()
            },
            "profile-manual",
            None,
        )
        .unwrap_err();
    assert!(matches!(err, IpEngineError::IpConfig(_)));

    let record = harness.record.borrow();
    assert_eq!(
        record.routes_added, 1,
        "the failing route is the second add_route call"
    );
    assert_eq!(
        record.routes_removed, 4,
        "rollback attempts to remove every tracked route exactly once"
    );
    assert_eq!(record.removed.len(), 1, "the configured address is removed");
    assert!(
        record.dns_applied.is_empty(),
        "DNS is never applied on failure"
    );
}
