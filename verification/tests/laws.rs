//! Laws of the library, on concrete values.

use network_manager_rs::bytes::{
    is_little_endian, push_be16, push_be32, push_le16, push_le32, push_ne16, push_ne32, read_be16,
    read_be32, read_le16, read_le32, read_ne16, read_ne32,
};
use network_manager_rs::connection::activation::ActiveConnectionId;
use network_manager_rs::connection::policy::order_for_autoconnect;
use network_manager_rs::connection::profile::{ConnectionProfile, ConnectionType, WifiSecurity};
use network_manager_rs::connection::secrets::SecretReference;
use network_manager_rs::dbus::convert::{
    connection_path, profile_to_settings, settings_to_profile, stable_uuid,
};
use network_manager_rs::dbus::object_path::is_valid_path;
use network_manager_rs::dbus::value::Value;
use network_manager_rs::dbus::{active_path, device_path};
use network_manager_rs::linux::dhcp::packet::{build_options, prefix_length_from_netmask};
use network_manager_rs::linux::genl::{build_message, parse_genl_messages};
use network_manager_rs::linux::ipconfig::{build_address_message, build_route_message};
use network_manager_rs::linux::model::{
    IpFamily, Link, LinkFlags, Route, RouteKind, RouteScope, Ssid,
};
use network_manager_rs::linux::netlink::{
    order_links, parse_address, parse_route, NlMsgHdr, RTM_NEWADDR, RTM_NEWROUTE,
};
use network_manager_rs::net::{network_address, subnet_mask, IpAddr, Ipv4Addr};
use network_manager_rs::text::{chars_of, decimal_text, parse_u64};

#[test]
fn numbers_are_read_back() {
    let mut octets = Vec::new();
    push_le16(&mut octets, 0x1234);
    push_le32(&mut octets, 0x89ab_cdef);
    push_be16(&mut octets, 0x1234);
    push_be32(&mut octets, 0x89ab_cdef);
    assert_eq!(
        octets,
        [0x34, 0x12, 0xef, 0xcd, 0xab, 0x89, 0x12, 0x34, 0x89, 0xab, 0xcd, 0xef]
    );
    assert_eq!(read_le16(&octets, 0), 0x1234);
    assert_eq!(read_le32(&octets, 2), 0x89ab_cdef);
    assert_eq!(read_be16(&octets, 6), 0x1234);
    assert_eq!(read_be32(&octets, 8), 0x89ab_cdef);
}

#[test]
fn numbers_in_host_order_are_those_of_the_host() {
    let mut octets = Vec::new();
    push_ne16(&mut octets, 0x1234);
    push_ne32(&mut octets, 0x89ab_cdef);
    assert_eq!(octets[..2], 0x1234_u16.to_ne_bytes());
    assert_eq!(octets[2..], 0x89ab_cdef_u32.to_ne_bytes());
    assert_eq!(read_ne16(&octets, 0), 0x1234);
    assert_eq!(read_ne32(&octets, 2), 0x89ab_cdef);
    assert_eq!(is_little_endian(), octets[0] == 0x34);
}

#[test]
fn decimal_numbers_are_read_back() {
    for n in [0, 7, 10, 4294967296, u64::MAX] {
        let text = decimal_text(n);
        assert_eq!(text, format!("{n}"));
        assert_eq!(parse_u64(&chars_of(&text)), Some(n));
    }
}

#[test]
fn links_keep_their_order_where_indices_are_equal() {
    let link = |index: i32, name: &str| Link {
        index,
        name: name.to_string(),
        flags: LinkFlags::from_bits(0),
    };
    let ordered = order_links(vec![link(2, "b"), link(1, "c"), link(2, "a")]);
    let names: Vec<String> = ordered.into_iter().map(|link| link.name).collect();
    assert_eq!(names, ["c", "b", "a"]);
}

#[test]
fn headers_are_read_back() {
    let header = NlMsgHdr {
        nlmsg_len: 20,
        nlmsg_type: 16,
        nlmsg_flags: 5,
        nlmsg_seq: 7,
        nlmsg_pid: 9,
    };
    let mut octets = Vec::new();
    header.append_to(&mut octets);
    assert_eq!(octets.len(), 16);
    assert_eq!(NlMsgHdr::read_from(&octets).unwrap(), header);
}

#[test]
fn addresses_are_read_back_from_requests() {
    for (text, prefix) in [("10.0.0.5", 24), ("2001:db8::5", 64)] {
        let address = IpAddr::parse(text).unwrap();
        let message = build_address_message(RTM_NEWADDR, 0x0605, 7, address, prefix);
        let found = parse_address(&message[16..]).unwrap().unwrap();
        assert_eq!(found.interface_index, 7);
        assert_eq!(found.address, address);
        assert_eq!(found.prefix_length, prefix);
    }
}

#[test]
fn routes_are_read_back_from_requests() {
    let route = Route {
        family: IpFamily::V4,
        destination: IpAddr::V4(Ipv4Addr::new(10, 10, 0, 0)),
        prefix_length: 16,
        gateway: IpAddr::parse("10.0.0.1"),
        output_interface: Some(7),
        metric: Some(100),
        kind: RouteKind::Unicast,
        scope: RouteScope::Universe,
    };
    let message = build_route_message(RTM_NEWROUTE, 0x0605, &route);
    assert_eq!(parse_route(&message[16..]).unwrap(), Some(route));
}

#[test]
fn generic_messages_are_read_back() {
    let attrs = [(3_u16, vec![1, 2, 3]), (4_u16, vec![9])];
    let message = build_message(0x1c, 5, 1, 1, &attrs);
    let found = parse_genl_messages(&message).unwrap();
    assert_eq!(found.len(), 1);
    assert_eq!(found[0].nlmsg_type, 0x1c);
    assert_eq!(found[0].cmd, Some(5));
    assert_eq!(found[0].attrs.len(), 2);
    assert_eq!(found[0].attrs[0].typ, 3);
    assert_eq!(found[0].attrs[0].payload, [1, 2, 3]);
}

#[test]
fn generic_messages_behind_each_other_are_read_in_turn() {
    let mut buffer = build_message(0x1c, 5, 1, 1, &[(3, vec![1])]);
    buffer.extend(build_message(0x1d, 6, 1, 2, &[]));
    let found = parse_genl_messages(&buffer).unwrap();
    let seen: Vec<(u16, Option<u8>)> = found.iter().map(|m| (m.nlmsg_type, m.cmd)).collect();
    assert_eq!(seen, [(0x1c, Some(5)), (0x1d, Some(6))]);
}

#[test]
fn masks_are_read_back_as_prefix_lengths() {
    for prefix in 0..=32 {
        assert_eq!(prefix_length_from_netmask(subnet_mask(prefix)), prefix);
    }
}

#[test]
fn options_end_with_the_end_option() {
    assert_eq!(
        build_options(&vec![(53, vec![1]), (12, vec![104, 105])]),
        [53, 1, 1, 12, 2, 104, 105, 255]
    );
}

#[test]
fn kernel_numbers_of_routes_are_kept() {
    for number in 0..=255 {
        assert_eq!(RouteKind::from_u8(number).as_u8(), number);
        assert_eq!(RouteScope::from_u8(number).as_u8(), number);
    }
}

#[test]
fn the_network_of_a_network_is_itself() {
    let network = network_address(IpAddr::parse("172.16.9.1").unwrap(), 12);
    assert_eq!(network.to_string(), "172.16.0.0");
    assert_eq!(network_address(network, 12), network);
}

fn profile(id: &str, priority: i32) -> ConnectionProfile {
    let mut profile = ConnectionProfile::ethernet(id, id).unwrap();
    profile.priority = priority;
    profile
}

#[test]
fn the_autoconnect_order_does_not_depend_on_the_listing() {
    let one = vec![profile("a", 1), profile("b", 5), profile("c", 1)];
    let two = vec![profile("c", 1), profile("a", 1), profile("b", 5)];
    assert_eq!(order_for_autoconnect(&one), order_for_autoconnect(&two));
    assert_eq!(order_for_autoconnect(&one), ["b", "a", "c"]);
}

#[test]
fn uuids_have_their_form_and_paths_are_valid() {
    assert_eq!(stable_uuid(""), "cbf29ce4-2325-5422-8ce4-84222325cbf2");
    assert_eq!(stable_uuid("home"), "402d1bcc-9d6e-5e6f-8e43-159d945e6c31");
    assert!(is_valid_path(&connection_path("home")));
    assert!(!is_valid_path(&stable_uuid("home")));
}

#[test]
fn paths_of_different_objects_differ() {
    assert_ne!(
        active_path(ActiveConnectionId::new(1)),
        active_path(ActiveConnectionId::new(11))
    );
    assert_ne!(device_path(1), device_path(-1));
    assert!(is_valid_path(&active_path(ActiveConnectionId::new(u64::MAX))));
    assert!(is_valid_path(&device_path(i32::MAX)));
    assert!(!is_valid_path(&device_path(-1)));
}

#[test]
fn incoming_secrets_are_dropped() {
    let profile = ConnectionProfile::wifi(
        "home",
        "home",
        Ssid::from_bytes(b"home").unwrap(),
        WifiSecurity::psk(SecretReference::Agent {
            identifier: "elsewhere".to_string(),
        }),
    )
    .unwrap();
    let mut dict = profile_to_settings(&profile);
    let plain = settings_to_profile(&dict).unwrap();
    dict.put(
        "802-11-wireless-security",
        "psk",
        Value::Str("hunter22".to_string()),
    );
    let decoded = settings_to_profile(&dict).unwrap();
    assert_eq!(decoded, plain);
    let ConnectionType::Wifi(settings) = &decoded.connection_type else {
        panic!("decoded profile is not a wifi profile");
    };
    assert_eq!(
        settings.security.secret,
        Some(SecretReference::Keyring {
            identifier: "nmd/wifi-psk".to_string()
        })
    );
    assert_eq!(settings_to_profile(&profile_to_settings(&decoded)).unwrap(), decoded);
}
