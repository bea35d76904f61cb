//! Kernel requests for addresses and routes.

use network_manager_rs::connection::ip::{IpConfigError, Ipv4Config, Ipv6Config};
use network_manager_rs::linux::ipconfig::{build_route_message, LinuxIpConfigurator};
use network_manager_rs::linux::model::{IpFamily, Route, RouteKind, RouteScope};
use network_manager_rs::linux::netlink::{AF_INET6, NLM_F_REQUEST, RTM_NEWROUTE};
use network_manager_rs::net::{IpAddr, Ipv4Addr, Ipv6Addr};

#[test]
fn default_route_message_omits_explicit_destination() {
    let route = Route {
        family: IpFamily::V4,
        destination: IpAddr::V4(Ipv4Addr::unspecified()),
        prefix_length: 0,
        gateway: Some(IpAddr::V4(Ipv4Addr::new(10, 0, 0, 1))),
        output_interface: Some(7),
        metric: Some(100),
        kind: RouteKind::Unicast,
        scope: RouteScope::Universe,
    };
    let message = build_route_message(RTM_NEWROUTE, NLM_F_REQUEST, &route);
    assert!(!message.is_empty());
}

#[test]
fn ipv4_config_requires_valid_prefix_length() {
    let mut configurator = LinuxIpConfigurator::new();
    let config = Ipv4Config {
        address: Ipv4Addr::new(10, 0, 0, 5),
        prefix_length: 33,
        gateway: None,
    };
    assert!(matches!(
        configurator.configure_ipv4(7, &config),
        Err(IpConfigError::InvalidConfig(_))
    ));
}

#[test]
fn ipv6_config_requires_valid_prefix_length() {
    let mut configurator = LinuxIpConfigurator::new();
    let config = Ipv6Config {
        address: Ipv6Addr::from_octets([0; 16]),
        prefix_length: 129,
        gateway: None,
    };
    assert!(matches!(
        configurator.configure_ipv6(7, &config),
        Err(IpConfigError::InvalidConfig(_))
    ));
}

#[test]
fn route_message_includes_destination_for_non_default_routes() {
    let route = Route {
        family: IpFamily::V6,
        destination: IpAddr::V6(Ipv6Addr::from_octets([
            0x20, 0x01, 0x0d, 0xb8, 0, 0, 0, 0, 0, 0, 0, 0, 0, 0, 0, 0,
        ])),
        prefix_length: 48,
        gateway: None,
        output_interface: Some(7),
        metric: None,
        kind: RouteKind::Unicast,
        scope: RouteScope::Link,
    };
    let message = build_route_message(RTM_NEWROUTE, NLM_F_REQUEST, &route);
    let body = &message[16..];
    assert_eq!(body[0], AF_INET6);
    assert_eq!(body[1], 48);
}
