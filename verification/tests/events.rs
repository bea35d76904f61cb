//! Event queues, plans of kernel requests, and what is observed of the host.

use network_manager_rs::connection::ip::{IpConfigError, Ipv4Config};
use network_manager_rs::io_error::{IoError, IoErrorKind};
use network_manager_rs::linux::events::{ErrorStep, EventQueue, EventStep};
use network_manager_rs::linux::ip_engine::{
    link_local_address, resolve_interface_index, IpEngineError,
};
use network_manager_rs::linux::ipconfig::{build_address_message, LinuxIpConfigurator};
use network_manager_rs::linux::model::{
    Address, AddressEventKind, InterfaceType, Link, LinkFlags, NetlinkError, NetworkEvent,
    WifiCapabilities, WirelessInterface,
};
use network_manager_rs::linux::netlink::{RTM_DELADDR, RTM_NEWADDR};
use network_manager_rs::linux::nl80211::WiphyInfo;
use network_manager_rs::linux::wifi::{lookup_wiphy, merge_wiphys, scan_interface_index};
use network_manager_rs::net::{IpAddr, Ipv4Addr, Ipv6Addr};

fn kind_of(step: EventStep) -> AddressEventKind {
    match step {
        EventStep::Deliver(NetworkEvent::Address(event)) => event.kind,
        other => panic!("{other:?} delivers no address event"),
    }
}

#[test]
fn events_are_delivered_in_the_order_they_came() {
    let address = IpAddr::V4(Ipv4Addr::new(10, 0, 0, 5));
    let mut buffer = build_address_message(RTM_NEWADDR, 0, 7, address, 24);
    buffer.extend(build_address_message(RTM_DELADDR, 0, 7, address, 24));
    let mut queue = EventQueue::new();
    assert_eq!(queue.next(false), EventStep::Receive);
    queue.on_notifications(&buffer).unwrap();
    assert_eq!(kind_of(queue.next(true)), AddressEventKind::Added);
    assert_eq!(kind_of(queue.next(true)), AddressEventKind::Removed);
    assert_eq!(queue.next(true), EventStep::Stop);
    assert!(queue.on_notifications(&[1, 2, 3]).is_err());
}

#[test]
fn idle_sockets_are_tried_again_until_shutdown() {
    let queue = EventQueue::new();
    let idle = || {
        NetlinkError::Io(IoError::new(
            IoErrorKind::WouldBlock,
            "nothing there".to_string(),
        ))
    };
    assert_eq!(queue.on_error(idle(), false), ErrorStep::Wait);
    assert_eq!(queue.on_error(idle(), true), ErrorStep::Stop);
    assert_eq!(
        queue.on_error(NetlinkError::Kernel(-1), true),
        ErrorStep::Fail(NetlinkError::Kernel(-1))
    );
}

#[test]
fn a_plan_fails_with_its_first_required_step() {
    let config = Ipv4Config {
        address: Ipv4Addr::new(10, 0, 0, 5),
        prefix_length: 24,
        gateway: Some(Ipv4Addr::new(10, 0, 0, 1)),
    };
    let mut plan = LinuxIpConfigurator::new().configure_ipv4(7, &config).unwrap();
    let mut sent = 0;
    while plan.request().is_some() {
        plan.on_reply(Ok(())).unwrap();
        sent += 1;
    }
    assert_eq!(sent, plan.steps.len());

    let mut plan = LinuxIpConfigurator::new().configure_ipv4(7, &config).unwrap();
    assert!(plan.steps[0].required);
    assert!(matches!(
        plan.on_reply(Err(NetlinkError::Kernel(-1))),
        Err(IpConfigError::Netlink(NetlinkError::Kernel(-1)))
    ));

    let mut removal = LinuxIpConfigurator::new().remove_ipv4(7, &config);
    while removal.request().is_some() {
        let required = removal.steps[removal.next].required;
        assert_eq!(removal.on_reply(Err(NetlinkError::Kernel(-1))).is_err(), required);
    }
}

#[test]
fn interfaces_are_found_by_name() {
    let links = vec![Link {
        index: 4,
        name: "eth0".to_string(),
        flags: LinkFlags::from_bits(1),
    }];
    assert!(matches!(resolve_interface_index(&links, "eth0"), Ok(4)));
    assert!(matches!(
        resolve_interface_index(&links, "eth1"),
        Err(IpEngineError::InterfaceNotFound(_))
    ));
}

#[test]
fn only_link_local_addresses_of_the_interface_count() {
    let at = |interface_index: u32, text: &str| Address {
        interface_index,
        address: IpAddr::parse(text).unwrap(),
        prefix_length: 64,
    };
    let addresses = vec![
        at(4, "10.0.0.5"),
        at(4, "2001:db8::1"),
        at(5, "fe80::5"),
        at(4, "fe80::4"),
    ];
    assert_eq!(link_local_address(&addresses, 4), Ipv6Addr::parse("fe80::4"));
    assert_eq!(link_local_address(&addresses, 6), None);
}

fn interface(index: i32, interface_type: InterfaceType) -> WirelessInterface {
    WirelessInterface {
        index,
        name: format!("wlan{index}"),
        wiphy_index: Some(0),
        wiphy_name: None,
        interface_type,
        mac: None,
        up: true,
        capabilities: WifiCapabilities::default(),
    }
}

#[test]
fn stations_are_preferred_for_scanning() {
    let ap = || interface(1, InterfaceType::Ap);
    let monitor = || interface(2, InterfaceType::Monitor);
    let station = || interface(3, InterfaceType::Station);
    assert_eq!(scan_interface_index(&vec![ap(), monitor(), station()]), Ok(3));
    assert_eq!(scan_interface_index(&vec![monitor(), ap()]), Ok(1));
    assert!(scan_interface_index(&vec![monitor()]).is_err());
}

#[test]
fn interfaces_take_name_and_capabilities_of_their_wiphy() {
    let wiphys = vec![WiphyInfo {
        index: 0,
        name: "phy0".to_string(),
        capabilities: WifiCapabilities {
            max_scan_ssids: Some(4),
            ..WifiCapabilities::default()
        },
    }];
    assert!(lookup_wiphy(&wiphys, Some(1)).is_none());
    assert!(lookup_wiphy(&wiphys, None).is_none());
    let merged = merge_wiphys(&vec![interface(3, InterfaceType::Station)], &wiphys);
    assert_eq!(merged[0].wiphy_name.as_deref(), Some("phy0"));
    assert_eq!(merged[0].capabilities.max_scan_ssids, Some(4));
}
