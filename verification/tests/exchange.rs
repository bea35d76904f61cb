//! The DHCP exchange, and the decisions around its sockets.

use network_manager_rs::connection::ip::{DhcpError, DhcpLease, DhcpRequest};
use network_manager_rs::io_error::{IoError, IoErrorKind};
use network_manager_rs::linux::dhcp::packet::{parse, DhcpMessageType, DhcpPacket};
use network_manager_rs::linux::dhcp::{
    after_poll, after_receive, match_packet, parse_hardware_address, poll_timeout, transaction_id,
    Dhcpv4Client, Exchange, ExchangeStep, Received, Waited,
};
use network_manager_rs::net::Ipv4Addr;

const MAC: [u8; 6] = [0x02, 0x00, 0x00, 0x00, 0x00, 0x05];

fn request() -> DhcpRequest {
    DhcpRequest {
        interface_index: 9,
        interface_name: "eth0".to_string(),
        hostname: Some("nmdhost".to_string()),
        requested_address: None,
        timeout_millis: 0,
    }
}

fn reply(kind: DhcpMessageType, xid: u32) -> Vec<u8> {
    DhcpPacket::build_reply(
        kind,
        xid,
        MAC,
        Ipv4Addr::new(10, 1, 1, 20),
        &[(1, vec![255, 255, 255, 0]), (54, vec![10, 1, 1, 1])],
    )
}

#[test]
fn an_exchange_ends_with_the_acknowledged_lease() {
    let (mut exchange, discover) = Exchange::begin(&request(), 0x42, MAC);
    let discover = parse(&discover).unwrap();
    assert_eq!(discover.message_type(), DhcpMessageType::Discover);
    assert_eq!(discover.hostname().as_deref(), Some("nmdhost"));

    assert_eq!(exchange.on_datagram(&[1, 2, 3]), ExchangeStep::Ignore);
    assert_eq!(
        exchange.on_datagram(&reply(DhcpMessageType::Offer, 0x43)),
        ExchangeStep::Ignore
    );
    let ExchangeStep::Send(sent) = exchange.on_datagram(&reply(DhcpMessageType::Offer, 0x42))
    else {
        panic!("an offer is answered");
    };
    let sent = parse(&sent).unwrap();
    assert_eq!(sent.message_type(), DhcpMessageType::Request);
    assert_eq!(sent.server_identifier(), Some(Ipv4Addr::new(10, 1, 1, 1)));

    let ExchangeStep::Done(lease) = exchange.on_datagram(&reply(DhcpMessageType::Ack, 0x42))
    else {
        panic!("an acknowledgement grants the lease");
    };
    assert_eq!(lease.address, Ipv4Addr::new(10, 1, 1, 20));
    assert_eq!(lease.prefix_length, 24);
    assert_eq!(lease.interface_index, 9);
    assert_eq!(lease.interface_name, "eth0");
}

#[test]
fn a_refused_exchange_fails() {
    let (mut exchange, _) = Exchange::begin(&request(), 0x42, MAC);
    assert_eq!(
        exchange.on_datagram(&reply(DhcpMessageType::Ack, 0x42)),
        ExchangeStep::Fail(DhcpError::MalformedPacket(
            "expected a DHCPOFFER in response to DISCOVER"
        ))
    );
    exchange.on_datagram(&reply(DhcpMessageType::Offer, 0x42));
    assert_eq!(
        exchange.on_datagram(&reply(DhcpMessageType::Nak, 0x42)),
        ExchangeStep::Fail(DhcpError::MalformedPacket("server returned DHCPNAK"))
    );
    assert_eq!(
        exchange.on_datagram(&reply(DhcpMessageType::Offer, 0x42)),
        ExchangeStep::Fail(DhcpError::MalformedPacket(
            "expected a DHCPACK in response to REQUEST"
        ))
    );
}

#[test]
fn hardware_addresses_are_read_from_text() {
    assert_eq!(
        parse_hardware_address("02:00:00:00:00:0a\n"),
        Ok([0x02, 0x00, 0x00, 0x00, 0x00, 0x0a])
    );
    assert!(parse_hardware_address("02:00:00\n").is_err());
    assert!(parse_hardware_address("xx:00:00:00:00:0a").is_err());
}

#[test]
fn transaction_ids_mix_the_time_with_the_process() {
    assert_eq!(transaction_id(0x1_0000_0001, 0x0002_0003), 0x0003_0003);
    assert_eq!(transaction_id(0x1_0000_0001, 0), 1);
}

#[test]
fn waiting_ends_at_the_deadline() {
    assert_eq!(poll_timeout(5, 5), None);
    assert_eq!(poll_timeout(0, 3_500_000), Some(3));
    assert_eq!(poll_timeout(0, u128::MAX), Some(i32::MAX));
}

#[test]
fn interrupted_waits_are_repeated() {
    assert_eq!(
        after_poll(
            Err(IoError::new(IoErrorKind::Interrupted, "interrupted".to_string())),
            "eth0"
        ),
        Waited::Again
    );
    assert_eq!(
        after_poll(Ok(0), "eth0"),
        Waited::Fail(DhcpError::Timeout {
            interface: "eth0".to_string()
        })
    );
    assert_eq!(after_poll(Ok(1), "eth0"), Waited::Receive);
    assert!(matches!(
        after_poll(Err(IoError::other("down")), "eth0"),
        Waited::Fail(DhcpError::Io(_))
    ));
}

#[test]
fn packets_of_another_transaction_do_not_match() {
    let ack = reply(DhcpMessageType::Ack, 7);
    assert!(match_packet(&ack, 7).is_some());
    assert!(match_packet(&ack, 8).is_none());
    assert!(match_packet(&ack[..100], 7).is_none());
}

#[test]
fn a_request_has_its_own_time_or_that_of_the_client() {
    let client = Dhcpv4Client::default();
    assert_eq!(client.effective_timeout(&request()), 4000);
    let hurried = DhcpRequest {
        timeout_millis: 5,
        ..request()
    };
    assert_eq!(client.effective_timeout(&hurried), 5);
}

#[test]
fn a_release_goes_to_the_server_or_to_all() {
    let client = Dhcpv4Client::new(1);
    let mut lease = DhcpLease {
        interface_index: 9,
        interface_name: "eth0".to_string(),
        address: Ipv4Addr::new(10, 1, 1, 20),
        prefix_length: 24,
        netmask: Ipv4Addr::new(255, 255, 255, 0),
        gateway: None,
        dns_servers: Vec::new(),
        search_domains: Vec::new(),
        server_identifier: Some(Ipv4Addr::new(10, 1, 1, 1)),
        lease_seconds: None,
        t1_seconds: None,
        t2_seconds: None,
    };
    let (octets, server) = client.release_message(&lease, 3, MAC);
    let packet = parse(&octets).unwrap();
    assert_eq!(packet.message_type(), DhcpMessageType::Release);
    assert_eq!(packet.ciaddr(), Some(Ipv4Addr::new(10, 1, 1, 20)));
    assert_eq!(server, Ipv4Addr::new(10, 1, 1, 1));
    lease.server_identifier = None;
    let (_, server) = client.release_message(&lease, 3, MAC);
    assert_eq!(server, Ipv4Addr::new(255, 255, 255, 255));
}

#[test]
fn netmasks_count_their_leading_ones() {
    let packet = DhcpPacket::build_reply(
        DhcpMessageType::Ack,
        1,
        MAC,
        Ipv4Addr::new(10, 0, 0, 9),
        &[(1, vec![255, 0, 255, 0])],
    );
    let lease = parse(&packet).unwrap().to_lease(1, "eth0", MAC).unwrap();
    assert_eq!(lease.prefix_length, 8);
}

#[test]
fn an_acknowledgement_without_an_address_grants_nothing() {
    let packet = DhcpPacket::build_reply(
        DhcpMessageType::Ack,
        1,
        MAC,
        Ipv4Addr::unspecified(),
        &[],
    );
    assert!(parse(&packet).unwrap().to_lease(1, "eth0", MAC).is_err());
}

#[test]
fn empty_and_interrupted_receives_are_repeated() {
    assert_eq!(after_receive(Ok(0)), Received::Again);
    assert_eq!(after_receive(Ok(300)), Received::Datagram(300));
    assert_eq!(
        after_receive(Err(IoError::new(
            IoErrorKind::Interrupted,
            "interrupted".to_string()
        ))),
        Received::Again
    );
    assert!(matches!(
        after_receive(Err(IoError::other("down"))),
        Received::Fail(DhcpError::Io(_))
    ));
}

#[test]
fn octets_behind_the_end_of_a_packet_are_ignored() {
    let mut padded = reply(DhcpMessageType::Ack, 7);
    let plain = parse(&padded).unwrap();
    padded.extend_from_slice(&[1, 200, 3]);
    let parsed = parse(&padded).unwrap();
    assert_eq!(parsed.options, plain.options);
    assert_eq!(parsed.yiaddr(), plain.yiaddr());
}
