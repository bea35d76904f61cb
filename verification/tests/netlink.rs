//! The rtnetlink wire format.

use network_manager_rs::linux::model::{
    Address, AddressEvent, AddressEventKind, IpFamily, Link, LinkEvent, LinkEventKind, LinkFlags,
    NetlinkError, NetworkEvent, RouteEvent, RouteEventKind, RouteKind, RouteScope,
};
use network_manager_rs::linux::netlink::{
    build_netlink_message, ifaddr_payload, parse_address_messages, parse_kernel_error_code,
    parse_link_messages, parse_network_events, parse_route_messages, push_attr, rtmsg_payload,
    IfAddrMsg, IfInfoMsg, NlMsgHdr, RtMsg, AF_INET, AF_INET6, IFA_ADDRESS, IFA_LOCAL, IFLA_IFNAME,
    NLMSG_DONE, NLMSG_ERROR, NLM_F_ACK, NLM_F_CREATE, NLM_F_EXCL, NLM_F_REPLACE, NLM_F_REQUEST,
    RTA_DST, RTA_GATEWAY, RTA_OIF, RTA_PRIORITY, RTM_DELADDR, RTM_DELLINK, RTM_DELROUTE,
    RTM_NEWADDR, RTM_NEWLINK, RTM_NEWROUTE, RTN_UNICAST, RTPROT_STATIC, RT_SCOPE_LINK,
    RT_TABLE_MAIN,
};
use network_manager_rs::net::{IpAddr, Ipv4Addr, Ipv6Addr};

struct RtAttr {
    rta_len: u16,
    rta_type: u16,
}

trait Raw {
    fn put(&self, out: &mut Vec<u8>);
}

impl Raw for NlMsgHdr {
    fn put(&self, out: &mut Vec<u8>) {
        self.append_to(out);
    }
}

impl Raw for IfInfoMsg {
    fn put(&self, out: &mut Vec<u8>) {
        self.append_to(out);
    }
}

impl Raw for IfAddrMsg {
    fn put(&self, out: &mut Vec<u8>) {
        self.append_to(out);
    }
}

impl Raw for RtMsg {
    fn put(&self, out: &mut Vec<u8>) {
        self.append_to(out);
    }
}

impl Raw for RtAttr {
    fn put(&self, out: &mut Vec<u8>) {
        out.extend_from_slice(&self.rta_len.to_ne_bytes());
        out.extend_from_slice(&self.rta_type.to_ne_bytes());
    }
}

impl Raw for i32 {
    fn put(&self, out: &mut Vec<u8>) {
        out.extend_from_slice(&self.to_ne_bytes());
    }
}

fn push_struct<T: Raw>(out: &mut Vec<u8>, value: &T) {
    value.put(out);
}

fn align(len: usize) -> usize {
    (len + 3) / 4 * 4
}

fn link_message(
    message_type: u16,
    flags: u16,
    index: i32,
    name: &[u8],
    link_flags: u32,
) -> Vec<u8> {
    let attr_len = 4 + name.len();
    let payload_len = 16 + align(attr_len);
    let mut message = Vec::new();
    push_struct(
        &mut message,
        &NlMsgHdr {
            nlmsg_len: (16 + payload_len) as u32,
            nlmsg_type: message_type,
            nlmsg_flags: flags,
            nlmsg_seq: 1,
            nlmsg_pid: 0,
        },
    );
    push_struct(
        &mut message,
        &IfInfoMsg {
            ifi_family: 0,
            ifi_pad: 0,
            ifi_type: 1,
            ifi_index: index,
            ifi_flags: link_flags,
            ifi_change: 0,
        },
    );
    push_struct(
        &mut message,
        &RtAttr {
            rta_len: attr_len as u16,
            rta_type: IFLA_IFNAME,
        },
    );
    message.extend_from_slice(name);
    message.resize(16 + payload_len, 0);
    message
}

fn unsupported_message() -> Vec<u8> {
    let mut message = Vec::new();
    push_struct(
        &mut message,
        &NlMsgHdr {
            nlmsg_len: 16 as u32,
            nlmsg_type: 999,
            nlmsg_flags: 0,
            nlmsg_seq: 1,
            nlmsg_pid: 0,
        },
    );
    message
}

fn address_message(
    message_type: u16,
    family: u8,
    index: u32,
    prefix_length: u8,
    address: &[u8],
) -> Vec<u8> {
    let attr_len = 4 + address.len();
    let payload_len = 8 + align(attr_len);
    let mut message = Vec::new();
    push_struct(
        &mut message,
        &NlMsgHdr {
            nlmsg_len: (16 + payload_len) as u32,
            nlmsg_type: message_type,
            nlmsg_flags: 0,
            nlmsg_seq: 1,
            nlmsg_pid: 0,
        },
    );
    push_struct(
        &mut message,
        &IfAddrMsg {
            ifa_family: family,
            ifa_prefixlen: prefix_length,
            ifa_flags: 0,
            ifa_scope: 0,
            ifa_index: index,
        },
    );
    push_struct(
        &mut message,
        &RtAttr {
            rta_len: attr_len as u16,
            rta_type: IFA_LOCAL,
        },
    );
    message.extend_from_slice(address);
    message.resize(16 + payload_len, 0);
    message
}

fn route_message(
    message_type: u16,
    family: u8,
    dst_len: u8,
    table: u8,
    route_type: u8,
    scope: u8,
    attrs: &[(u16, Vec<u8>)],
) -> Vec<u8> {
    let mut attrs_bytes = Vec::new();
    for (attr_type, value) in attrs {
        push_attr(&mut attrs_bytes, *attr_type, value);
    }
    let payload_len = 12 + attrs_bytes.len();
    let mut message = Vec::new();
    push_struct(
        &mut message,
        &NlMsgHdr {
            nlmsg_len: (16 + payload_len) as u32,
            nlmsg_type: message_type,
            nlmsg_flags: 0,
            nlmsg_seq: 1,
            nlmsg_pid: 0,
        },
    );
    push_struct(
        &mut message,
        &RtMsg {
            rtm_family: family,
            rtm_dst_len: dst_len,
            rtm_src_len: 0,
            rtm_tos: 0,
            rtm_table: table,
            rtm_protocol: 4,
            rtm_scope: scope,
            rtm_type: route_type,
            rtm_flags: 0,
        },
    );
    message.extend_from_slice(&attrs_bytes);
    message
}

#[test]
fn parses_link_dump_fixture() {
    let mut message = link_message(RTM_NEWLINK, 0, 7, b"eth0\0", 0x1);
    push_struct(
        &mut message,
        &NlMsgHdr {
            nlmsg_len: 16 as u32,
            nlmsg_type: NLMSG_DONE,
            nlmsg_flags: 0,
            nlmsg_seq: 1,
            nlmsg_pid: 0,
        },
    );

    let mut links = Vec::new();
    assert!(parse_link_messages(&message, &mut links).unwrap());
    assert_eq!(links.len(), 1);
    assert_eq!(links[0].index, 7);
    assert_eq!(links[0].name, "eth0");
    assert!(links[0].flags.is_up());
}

#[test]
fn parses_valid_link_creation_event() {
    let events =
        parse_network_events(&link_message(RTM_NEWLINK, NLM_F_CREATE, 7, b"eth0\0", 0x1))
            .unwrap();
    assert_eq!(events.len(), 1);
    assert_eq!(
        events[0],
        NetworkEvent::Link(LinkEvent {
            kind: LinkEventKind::Created,
            link: Link {
                index: 7,
                name: "eth0".to_string(),
                flags: LinkFlags::from_bits(0x1),
            },
        })
    );
}

#[test]
fn parses_valid_link_removal_event() {
    let events = parse_network_events(&link_message(RTM_DELLINK, 0, 8, b"veth0\0", 0)).unwrap();
    assert_eq!(events.len(), 1);
    assert_eq!(
        events[0],
        NetworkEvent::Link(LinkEvent {
            kind: LinkEventKind::Removed,
            link: Link {
                index: 8,
                name: "veth0".to_string(),
                flags: LinkFlags::from_bits(0),
            },
        })
    );
}

#[test]
fn parses_valid_link_state_change_event() {
    let events =
        parse_network_events(&link_message(RTM_NEWLINK, 0, 9, b"wlan0\0", 0x1000)).unwrap();
    assert_eq!(events.len(), 1);
    assert_eq!(
        events[0],
        NetworkEvent::Link(LinkEvent {
            kind: LinkEventKind::Changed,
            link: Link {
                index: 9,
                name: "wlan0".to_string(),
                flags: LinkFlags::from_bits(0x1000),
            },
        })
    );
}

#[test]
fn rejects_truncated_header_length() {
    let mut message = Vec::new();
    push_struct(
        &mut message,
        &NlMsgHdr {
            nlmsg_len: 8,
            nlmsg_type: RTM_NEWLINK,
            nlmsg_flags: 0,
            nlmsg_seq: 1,
            nlmsg_pid: 0,
        },
    );
    let mut links = Vec::new();
    assert!(matches!(
        parse_link_messages(&message, &mut links),
        Err(NetlinkError::MalformedMessage(_))
    ));
    assert!(matches!(
        parse_network_events(&message),
        Err(NetlinkError::MalformedMessage(_))
    ));
}

#[test]
fn ignores_unsupported_message_type() {
    let events = parse_network_events(&unsupported_message()).unwrap();
    assert!(events.is_empty());
}

#[test]
fn rejects_malformed_attributes() {
    let mut message = link_message(RTM_NEWLINK, 0, 10, b"bad0\0", 0);
    let attr_offset = 16 + 16;
    message[attr_offset] = 1;
    message[attr_offset + 1] = 0;
    assert!(matches!(
        parse_network_events(&message),
        Err(NetlinkError::MalformedMessage(_))
    ));
}

#[test]
fn netlink_parses_multiple_messages_in_one_buffer() {
    let mut message = link_message(RTM_NEWLINK, NLM_F_CREATE, 11, b"a0\0", 0x1);
    message.extend_from_slice(&unsupported_message());
    message.extend_from_slice(&link_message(RTM_DELLINK, 0, 12, b"b0\0", 0));

    let events = parse_network_events(&message).unwrap();
    assert_eq!(events.len(), 2);
    assert!(matches!(
        events[0],
        NetworkEvent::Link(LinkEvent {
            kind: LinkEventKind::Created,
            ..
        })
    ));
    assert!(matches!(
        events[1],
        NetworkEvent::Link(LinkEvent {
            kind: LinkEventKind::Removed,
            ..
        })
    ));
}

#[test]
fn parses_ipv4_address_enumeration() {
    let mut message = address_message(RTM_NEWADDR, AF_INET, 2, 24, &[192, 0, 2, 10]);
    push_struct(
        &mut message,
        &NlMsgHdr {
            nlmsg_len: 16 as u32,
            nlmsg_type: NLMSG_DONE,
            nlmsg_flags: 0,
            nlmsg_seq: 1,
            nlmsg_pid: 0,
        },
    );
    let mut addresses = Vec::new();
    assert!(parse_address_messages(&message, &mut addresses).unwrap());
    assert_eq!(
        addresses,
        vec![Address {
            interface_index: 2,
            address: IpAddr::V4(Ipv4Addr::new(192, 0, 2, 10)),
            prefix_length: 24,
        }]
    );
}

#[test]
fn parses_ipv6_address_enumeration() {
    let octets = [0x20, 0x01, 0x0d, 0xb8, 0, 0, 0, 0, 0, 0, 0, 0, 0, 0, 0, 1];
    let mut message = address_message(RTM_NEWADDR, AF_INET6, 3, 64, &octets);
    push_struct(
        &mut message,
        &NlMsgHdr {
            nlmsg_len: 16 as u32,
            nlmsg_type: NLMSG_DONE,
            nlmsg_flags: 0,
            nlmsg_seq: 1,
            nlmsg_pid: 0,
        },
    );
    let mut addresses = Vec::new();
    assert!(parse_address_messages(&message, &mut addresses).unwrap());
    assert_eq!(
        addresses,
        vec![Address {
            interface_index: 3,
            address: IpAddr::V6(Ipv6Addr::from_octets(octets)),
            prefix_length: 64,
        }]
    );
}

#[test]
fn parses_address_added_event() {
    let events = parse_network_events(&address_message(
        RTM_NEWADDR,
        AF_INET,
        4,
        24,
        &[198, 51, 100, 7],
    ))
    .unwrap();
    assert_eq!(
        events,
        vec![NetworkEvent::Address(AddressEvent {
            kind: AddressEventKind::Added,
            address: Address {
                interface_index: 4,
                address: IpAddr::V4(Ipv4Addr::new(198, 51, 100, 7)),
                prefix_length: 24,
            },
        })]
    );
}

#[test]
fn parses_address_removed_event() {
    let events = parse_network_events(&address_message(
        RTM_DELADDR,
        AF_INET,
        5,
        32,
        &[203, 0, 113, 9],
    ))
    .unwrap();
    assert_eq!(
        events,
        vec![NetworkEvent::Address(AddressEvent {
            kind: AddressEventKind::Removed,
            address: Address {
                interface_index: 5,
                address: IpAddr::V4(Ipv4Addr::new(203, 0, 113, 9)),
                prefix_length: 32,
            },
        })]
    );
}

#[test]
fn rejects_truncated_address_message() {
    let mut message = Vec::new();
    push_struct(
        &mut message,
        &NlMsgHdr {
            nlmsg_len: (16 + 2) as u32,
            nlmsg_type: RTM_NEWADDR,
            nlmsg_flags: 0,
            nlmsg_seq: 1,
            nlmsg_pid: 0,
        },
    );
    message.extend_from_slice(&[AF_INET, 24]);
    assert!(matches!(
        parse_network_events(&message),
        Err(NetlinkError::MalformedMessage(_))
    ));
}

#[test]
fn rejects_malformed_address_attributes() {
    let mut message = address_message(RTM_NEWADDR, AF_INET, 6, 24, &[192, 0, 2, 1]);
    let attr_offset = 16 + 8;
    message[attr_offset] = 1;
    message[attr_offset + 1] = 0;
    assert!(matches!(
        parse_network_events(&message),
        Err(NetlinkError::MalformedMessage(_))
    ));
}

#[test]
fn ignores_unsupported_address_family() {
    let events =
        parse_network_events(&address_message(RTM_NEWADDR, 42, 7, 24, &[1, 2, 3, 4])).unwrap();
    assert!(events.is_empty());
}

#[test]
fn parses_multiple_mixed_messages_in_one_buffer() {
    let mut message = link_message(RTM_NEWLINK, NLM_F_CREATE, 21, b"mix0\0", 0x1);
    message.extend_from_slice(&address_message(
        RTM_NEWADDR,
        AF_INET,
        21,
        24,
        &[10, 0, 0, 1],
    ));
    message.extend_from_slice(&address_message(
        RTM_DELADDR,
        AF_INET6,
        21,
        64,
        &[0xfd, 0, 0, 0, 0, 0, 0, 0, 0, 0, 0, 0, 0, 0, 0, 1],
    ));

    let events = parse_network_events(&message).unwrap();
    assert_eq!(events.len(), 3);
    assert!(matches!(events[0], NetworkEvent::Link(_)));
    assert!(matches!(
        events[1],
        NetworkEvent::Address(AddressEvent {
            kind: AddressEventKind::Added,
            ..
        })
    ));
    assert!(matches!(
        events[2],
        NetworkEvent::Address(AddressEvent {
            kind: AddressEventKind::Removed,
            ..
        })
    ));
}

#[test]
fn parses_ipv4_default_route_enumeration() {
    let mut message = route_message(
        RTM_NEWROUTE,
        AF_INET,
        0,
        254,
        1,
        0,
        &[
            (RTA_GATEWAY, vec![192, 168, 1, 1]),
            (RTA_OIF, 3_i32.to_ne_bytes().to_vec()),
            (RTA_PRIORITY, 100_u32.to_ne_bytes().to_vec()),
        ],
    );
    push_struct(
        &mut message,
        &NlMsgHdr {
            nlmsg_len: 16 as u32,
            nlmsg_type: NLMSG_DONE,
            nlmsg_flags: 0,
            nlmsg_seq: 1,
            nlmsg_pid: 0,
        },
    );

    let mut routes = Vec::new();
    assert!(parse_route_messages(&message, &mut routes).unwrap());
    assert_eq!(routes.len(), 1);
    assert!(routes[0].is_default());
    assert_eq!(routes[0].family, IpFamily::V4);
    assert_eq!(
        routes[0].gateway,
        Some(IpAddr::V4(Ipv4Addr::new(192, 168, 1, 1)))
    );
    assert_eq!(routes[0].output_interface, Some(3));
    assert_eq!(routes[0].metric, Some(100));
    assert_eq!(routes[0].kind, RouteKind::Unicast);
    assert_eq!(routes[0].scope, RouteScope::Universe);
}

#[test]
fn parses_ipv6_static_route_enumeration() {
    let destination = [0x20, 0x01, 0x0d, 0xb8, 0, 0, 0, 0, 0, 0, 0, 0, 0, 0, 0, 0];
    let gateway = [0xfe, 0x80, 0, 0, 0, 0, 0, 0, 0, 0, 0, 0, 0, 0, 0, 1];
    let mut message = route_message(
        RTM_NEWROUTE,
        AF_INET6,
        48,
        254,
        1,
        0,
        &[
            (RTA_DST, destination.to_vec()),
            (RTA_GATEWAY, gateway.to_vec()),
            (RTA_OIF, 3_i32.to_ne_bytes().to_vec()),
        ],
    );
    push_struct(
        &mut message,
        &NlMsgHdr {
            nlmsg_len: 16 as u32,
            nlmsg_type: NLMSG_DONE,
            nlmsg_flags: 0,
            nlmsg_seq: 1,
            nlmsg_pid: 0,
        },
    );

    let mut routes = Vec::new();
    assert!(parse_route_messages(&message, &mut routes).unwrap());
    assert_eq!(routes.len(), 1);
    assert_eq!(
        routes[0].destination,
        IpAddr::V6(Ipv6Addr::from_octets(destination))
    );
    assert_eq!(routes[0].prefix_length, 48);
    assert_eq!(routes[0].family, IpFamily::V6);
}

#[test]
fn parses_route_added_and_removed_events() {
    let added = route_message(
        RTM_NEWROUTE,
        AF_INET,
        0,
        254,
        1,
        0,
        &[
            (RTA_GATEWAY, vec![10, 0, 0, 1]),
            (RTA_OIF, 4_i32.to_ne_bytes().to_vec()),
        ],
    );
    let events = parse_network_events(&added).unwrap();
    assert_eq!(events.len(), 1);
    assert!(matches!(
        events[0],
        NetworkEvent::Route(RouteEvent {
            kind: RouteEventKind::Changed,
            ..
        })
    ));

    let removed = route_message(
        RTM_DELROUTE,
        AF_INET,
        0,
        254,
        1,
        0,
        &[
            (RTA_GATEWAY, vec![10, 0, 0, 1]),
            (RTA_OIF, 4_i32.to_ne_bytes().to_vec()),
        ],
    );
    let events = parse_network_events(&removed).unwrap();
    assert!(matches!(
        events[0],
        NetworkEvent::Route(RouteEvent {
            kind: RouteEventKind::Removed,
            ..
        })
    ));
}

#[test]
fn route_dump_skips_non_main_tables_and_special_routes() {
    let in_local_table = route_message(RTM_NEWROUTE, AF_INET, 24, 255, 2, 0, &[]);
    let local_route = route_message(RTM_NEWROUTE, AF_INET, 24, 254, 2, 0, &[]);
    let unicast = route_message(RTM_NEWROUTE, AF_INET, 24, 254, 1, 253, &[]);
    let mut buffer = Vec::new();
    buffer.extend_from_slice(&in_local_table);
    buffer.extend_from_slice(&local_route);
    buffer.extend_from_slice(&unicast);

    let routes = parse_network_events(&buffer).unwrap();
    assert_eq!(
        routes.len(),
        1,
        "only the main-table unicast route is reported"
    );
    match &routes[0] {
        NetworkEvent::Route(RouteEvent { route, .. }) => {
            assert_eq!(route.kind, RouteKind::Unicast);
            assert_eq!(route.scope, RouteScope::Link);
        }
        _ => panic!("expected a route event"),
    }
}

#[test]
fn rejects_malformed_route_attributes() {
    let mut message = route_message(
        RTM_NEWROUTE,
        AF_INET,
        0,
        254,
        1,
        0,
        &[(RTA_GATEWAY, vec![10, 0, 0, 1])],
    );
    let attr_offset = 16 + 12;
    message[attr_offset] = 1;
    message[attr_offset + 1] = 0;
    assert!(matches!(
        parse_network_events(&message),
        Err(NetlinkError::MalformedMessage(_))
    ));
}

#[test]
fn builds_ipv4_address_request() {
    let message = build_netlink_message(
        RTM_NEWADDR,
        NLM_F_REQUEST | NLM_F_CREATE | NLM_F_EXCL | NLM_F_ACK,
        &ifaddr_payload(
            AF_INET,
            24,
            5,
            &[
                (IFA_LOCAL, vec![10, 0, 0, 5]),
                (IFA_ADDRESS, vec![10, 0, 0, 5]),
            ],
        ),
    );
    let header = NlMsgHdr::read_from(&message).unwrap();
    assert_eq!(header.nlmsg_type, RTM_NEWADDR);
    assert_eq!(
        header.nlmsg_flags,
        NLM_F_REQUEST | NLM_F_CREATE | NLM_F_EXCL | NLM_F_ACK
    );
    assert_eq!(header.nlmsg_len as usize, message.len());
    let info = IfAddrMsg::read_from(&message[16..]).unwrap();
    assert_eq!(info.ifa_family, AF_INET);
    assert_eq!(info.ifa_prefixlen, 24);
    assert_eq!(info.ifa_index, 5);
}

#[test]
fn builds_route_request_with_attributes() {
    let message = build_netlink_message(
        RTM_NEWROUTE,
        NLM_F_REQUEST | NLM_F_CREATE | NLM_F_REPLACE | NLM_F_ACK,
        &rtmsg_payload(
            AF_INET,
            24,
            RT_TABLE_MAIN,
            RT_SCOPE_LINK,
            RTN_UNICAST,
            &[
                (RTA_DST, vec![192, 168, 5, 0]),
                (RTA_OIF, 5_i32.to_ne_bytes().to_vec()),
            ],
        ),
    );
    let info = RtMsg::read_from(&message[16..]).unwrap();
    assert_eq!(info.rtm_family, AF_INET);
    assert_eq!(info.rtm_dst_len, 24);
    assert_eq!(info.rtm_table, RT_TABLE_MAIN);
    assert_eq!(info.rtm_scope, RT_SCOPE_LINK);
    assert_eq!(info.rtm_type, RTN_UNICAST);
    assert_eq!(info.rtm_protocol, RTPROT_STATIC);
}

#[test]
fn ack_transaction_interprets_kernel_error_codes() {
    assert_eq!(parse_kernel_error_code(&0_i32.to_ne_bytes()).unwrap(), 0);
    assert_eq!(
        parse_kernel_error_code(&(-17_i32).to_ne_bytes()).unwrap(),
        -17
    );
    assert!(matches!(
        parse_kernel_error_code(&[]),
        Err(NetlinkError::MalformedMessage(_))
    ));

    let failure = {
        let mut message = Vec::new();
        push_struct(
            &mut message,
            &NlMsgHdr {
                nlmsg_len: (16 + 4) as u32,
                nlmsg_type: NLMSG_ERROR,
                nlmsg_flags: 0,
                nlmsg_seq: 1,
                nlmsg_pid: 0,
            },
        );
        push_struct(&mut message, &(-17_i32));
        message
    };
    let events = parse_network_events(&failure);
    assert!(matches!(
        events,
        Err(NetlinkError::Kernel(code)) if code == -17
    ));
}
