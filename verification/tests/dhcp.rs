//! DHCP packets.

use network_manager_rs::linux::dhcp::packet;
use network_manager_rs::linux::dhcp::packet::{
    base_packet, parse, prefix_length_from_netmask, serialize, DhcpMessageType, DhcpPacket,
    OPTION_MESSAGE_TYPE, OP_BOOTREQUEST,
};
use network_manager_rs::net::Ipv4Addr;

#[test]
fn prefix_length_from_common_netmasks() {
    assert_eq!(
        prefix_length_from_netmask(Ipv4Addr::new(255, 255, 255, 0)),
        24
    );
    assert_eq!(
        prefix_length_from_netmask(Ipv4Addr::new(255, 255, 0, 0)),
        16
    );
    assert_eq!(prefix_length_from_netmask(Ipv4Addr::new(255, 0, 0, 0)), 8);
    assert_eq!(prefix_length_from_netmask(Ipv4Addr::new(0, 0, 0, 0)), 0);
}

#[test]
fn message_type_round_trip() {
    for value in [1, 2, 3, 4, 5, 6, 7, 8, 99] {
        assert_eq!(DhcpMessageType::from_u8(value).as_u8(), value);
    }
    assert_eq!(DhcpMessageType::from_u8(99), DhcpMessageType::Unknown(99));
}

#[test]
fn packet_round_trip_keeps_header_fields() {
    let packet = base_packet(
        OP_BOOTREQUEST,
        0xdead_beef,
        0x8000,
        Ipv4Addr::new(192, 168, 1, 50),
        Ipv4Addr::unspecified(),
        [0x02, 0x00, 0x00, 0x00, 0x00, 0x0a],
        vec![(OPTION_MESSAGE_TYPE, vec![DhcpMessageType::Discover.as_u8()])],
    );
    let bytes = serialize(&packet);
    let parsed = parse(&bytes).unwrap();
    assert_eq!(parsed.xid, 0xdead_beef);
    assert_eq!(parsed.flags, 0x8000);
    assert_eq!(parsed.ciaddr(), Some(Ipv4Addr::new(192, 168, 1, 50)));
    assert_eq!(
        parsed.hardware_address(),
        [0x02, 0x00, 0x00, 0x00, 0x00, 0x0a]
    );
    assert_eq!(parsed.message_type(), DhcpMessageType::Discover);
}

#[test]
fn dhcp_request_produces_valid_discover() {
    let mac = [0x02, 0x00, 0x00, 0x00, 0x00, 0x01];
    let discover = DhcpPacket::build_discover(0x11223344, mac, Some("nmdhost"), None);
    let parsed = packet::parse(&discover).unwrap();
    assert_eq!(parsed.xid, 0x11223344);
    assert_eq!(parsed.message_type(), DhcpMessageType::Discover);
    assert_eq!(parsed.hardware_address(), mac);
    assert_eq!(parsed.flags & 0x8000, 0x8000);
    assert_eq!(
        parsed.hostname().as_deref(),
        Some("nmdhost"),
        "hostname option is echoed back"
    );
}

#[test]
fn discover_round_trips_through_parse() {
    let mac = [0x02, 0x00, 0x00, 0x00, 0x00, 0x02];
    let discover = DhcpPacket::build_discover(0xabcdef00, mac, None, None);
    let parsed = packet::parse(&discover).unwrap();
    assert_eq!(packet::serialize(&parsed), discover);
}

#[test]
fn offer_parses_lease_options() {
    let mac = [0x02, 0x00, 0x00, 0x00, 0x00, 0x03];
    let offer = DhcpPacket::build_reply(
        DhcpMessageType::Offer,
        0x99,
        mac,
        Ipv4Addr::new(10, 1, 1, 20),
        &[
            (1, vec![255, 255, 255, 0]),
            (3, vec![10, 1, 1, 1]),
            (6, vec![10, 1, 1, 2, 10, 1, 1, 3]),
            (15, b"lan.example".to_vec()),
            (51, 3600_u32.to_be_bytes().to_vec()),
            (54, vec![10, 1, 1, 1]),
            (58, 1800_u32.to_be_bytes().to_vec()),
            (59, 3150_u32.to_be_bytes().to_vec()),
        ],
    );
    let parsed = packet::parse(&offer).unwrap();
    assert_eq!(parsed.message_type(), DhcpMessageType::Offer);
    assert_eq!(parsed.yiaddr(), Some(Ipv4Addr::new(10, 1, 1, 20)));
    assert_eq!(parsed.subnet_mask(), Some(Ipv4Addr::new(255, 255, 255, 0)));
    assert_eq!(parsed.routers(), vec![Ipv4Addr::new(10, 1, 1, 1)]);
    assert_eq!(
        parsed.dns_servers(),
        vec![Ipv4Addr::new(10, 1, 1, 2), Ipv4Addr::new(10, 1, 1, 3)]
    );
    assert_eq!(parsed.domain_name().as_deref(), Some("lan.example"));
    assert_eq!(parsed.lease_seconds(), Some(3600));
    assert_eq!(parsed.server_identifier(), Some(Ipv4Addr::new(10, 1, 1, 1)));
    assert_eq!(parsed.t1_seconds(), Some(1800));
    assert_eq!(parsed.t2_seconds(), Some(3150));
}

#[test]
fn rejects_truncated_packets_and_wrong_magic() {
    assert!(packet::parse(&[0u8; 10]).is_err());
    let mut packet = DhcpPacket::build_discover(1, [0u8; 6], None, None);
    packet[236] = 0;
    assert!(packet::parse(&packet).is_err());
}

#[test]
fn lease_derivation_from_ack() {
    let mac = [0x02, 0x00, 0x00, 0x00, 0x00, 0x04];
    let ack = DhcpPacket::build_reply(
        DhcpMessageType::Ack,
        0x77,
        mac,
        Ipv4Addr::new(10, 2, 2, 10),
        &[
            (1, vec![255, 255, 0, 0]),
            (3, vec![10, 2, 2, 1]),
            (6, vec![8, 8, 8, 8]),
            (51, 7200_u32.to_be_bytes().to_vec()),
            (54, vec![10, 2, 2, 1]),
        ],
    );
    let parsed = packet::parse(&ack).unwrap();
    let lease = parsed
        .to_lease(9, "nmdv1", mac)
        .expect("ack should yield a lease");
    assert_eq!(lease.address, Ipv4Addr::new(10, 2, 2, 10));
    assert_eq!(lease.prefix_length, 16);
    assert_eq!(lease.netmask, Ipv4Addr::new(255, 255, 0, 0));
    assert_eq!(lease.gateway, Some(Ipv4Addr::new(10, 2, 2, 1)));
    assert_eq!(lease.dns_servers, vec![Ipv4Addr::new(8, 8, 8, 8)]);
    assert_eq!(lease.lease_seconds, Some(7200));
    assert_eq!(lease.server_identifier, Some(Ipv4Addr::new(10, 2, 2, 1)));
    assert_eq!(lease.interface_name, "nmdv1");
}
