//! The command line.

use network_manager_rs::command::{
    access_point_line, address_line, event_line, link_line, parse_command, profile_line,
    wifi_line, Command, USAGE,
};
use network_manager_rs::connection::profile::ConnectionProfile;
use network_manager_rs::linux::model::{
    AccessPoint, AccessPointSecurity, Address, AddressEvent, AddressEventKind, Bssid,
    InterfaceType, Link, LinkEvent, LinkEventKind, LinkFlags, NetworkEvent, Ssid,
    WifiCapabilities, WifiEvent, WifiEventKind, WirelessInterface,
};
use network_manager_rs::net::IpAddr;

fn link() -> Link {
    Link {
        index: 3,
        name: "eth0".to_string(),
        flags: LinkFlags::from_bits(0x1043),
    }
}

fn address() -> Address {
    Address {
        interface_index: 3,
        address: IpAddr::parse("fe80::1").unwrap(),
        prefix_length: 64,
    }
}

fn parse(words: &[&str]) -> Result<Command, String> {
    let arguments: Vec<String> = words.iter().map(|word| word.to_string()).collect();
    parse_command(&arguments)
}

#[test]
fn the_first_word_is_the_command() {
    assert_eq!(parse(&[]), Ok(Command::Links));
    assert_eq!(parse(&["links"]), Ok(Command::Links));
    assert_eq!(parse(&["addresses"]), Ok(Command::Addresses));
    assert_eq!(parse(&["wifi"]), Ok(Command::Wifi));
    assert_eq!(parse(&["connections"]), Ok(Command::Connections));
    assert_eq!(parse(&["monitor"]), Ok(Command::Monitor));
    assert_eq!(parse(&["--help"]), Ok(Command::Help));
    assert_eq!(parse(&["-h"]), Ok(Command::Help));
    assert_eq!(parse(&["links", "more"]), Ok(Command::Links));
}

#[test]
fn wifi_scans_when_the_second_word_says_so() {
    assert_eq!(parse(&["wifi", "scan"]), Ok(Command::WifiScan));
    assert_eq!(parse(&["wifi", "list"]), Ok(Command::Wifi));
    assert_eq!(
        parse(&["scan"]),
        Err("unknown command 'scan'".to_string())
    );
}

#[test]
fn connecting_takes_a_profile_and_an_interface() {
    assert_eq!(
        parse(&["connect", "home", "wlan0"]),
        Ok(Command::Connect {
            profile: "home".to_string(),
            interface: "wlan0".to_string()
        })
    );
    assert_eq!(
        parse(&["connect"]),
        Err("connect: missing operand <profile>".to_string())
    );
    assert_eq!(
        parse(&["connect", "home"]),
        Err("connect: missing operand <interface>".to_string())
    );
}

#[test]
fn disconnecting_takes_an_interface() {
    assert_eq!(
        parse(&["disconnect", "wlan0"]),
        Ok(Command::Disconnect {
            interface: "wlan0".to_string()
        })
    );
    assert_eq!(
        parse(&["disconnect"]),
        Err("disconnect: missing operand <interface>".to_string())
    );
}

#[test]
fn only_words_that_begin_no_command_are_unknown() {
    for word in ["Links", "", "wifi ", "connection"] {
        assert_eq!(parse(&[word]), Err(format!("unknown command '{word}'")));
    }
    for word in [
        "links", "addresses", "wifi", "connections", "monitor", "connect", "disconnect",
    ] {
        assert!(parse(&[word, "a", "b"]).is_ok(), "{word}");
        assert!(USAGE.contains(word), "{word}");
    }
}

#[test]
fn wireless_interfaces_are_listed_on_lines() {
    let mut interface = WirelessInterface {
        index: 2,
        name: "wlan0".to_string(),
        wiphy_index: Some(0),
        wiphy_name: None,
        interface_type: InterfaceType::Station,
        mac: Some([0x00, 0x11, 0x22, 0x33, 0x44, 0x55]),
        up: true,
        capabilities: WifiCapabilities::default(),
    };
    assert_eq!(
        wifi_line(&interface),
        "2\twlan0\ttype=station\tup=true\tmac=00:11:22:33:44:55"
    );
    interface.mac = None;
    assert_eq!(
        wifi_line(&interface),
        "2\twlan0\ttype=station\tup=true\tmac=none"
    );
}

#[test]
fn access_points_are_listed_on_lines() {
    let mut point = AccessPoint {
        bssid: Some(Bssid([0xde, 0xad, 0xbe, 0xef, 0x00, 0x01])),
        ssid: Ssid::from_bytes(b"caf\xe9"),
        frequency: Some(2412),
        channel: None,
        signal_dbm: Some(-45),
        signal_unspecified: None,
        capability: None,
        security: AccessPointSecurity::default(),
        seen_millis_ago: None,
    };
    point.security.wpa2 = true;
    assert_eq!(
        access_point_line(&point),
        "de:ad:be:ef:00:01\tcaf\\xe9\tfrequency=2412\tsignal=-45\twep=false\twpa1=false\twpa2=true\twpa3=false\tenterprise=false"
    );
    point.bssid = None;
    point.ssid = None;
    point.frequency = None;
    point.signal_dbm = None;
    assert_eq!(
        access_point_line(&point),
        "none\t(hidden)\tfrequency=none\tsignal=none\twep=false\twpa1=false\twpa2=true\twpa3=false\tenterprise=false"
    );
}

#[test]
fn profiles_are_listed_on_lines() {
    let mut profile = ConnectionProfile::ethernet("office", "The office").unwrap();
    profile.priority = -1;
    assert_eq!(
        profile_line(&profile),
        "office\tThe office\ttype=ethernet\tpriority=-1\tautoconnect=true\tenabled=true"
    );
}

#[test]
fn links_and_addresses_are_listed_on_lines() {
    assert_eq!(
        link_line(&link()),
        "3\teth0\tflags=0x1043\tup=true\tloopback=false"
    );
    assert_eq!(address_line(&address()), "ifindex=3\taddress=fe80::1/64");
}

#[test]
fn events_of_links_and_addresses_are_told() {
    assert_eq!(
        event_line(&NetworkEvent::Link(LinkEvent {
            kind: LinkEventKind::Changed,
            link: link(),
        }))
        .as_deref(),
        Some("link-changed\tindex=3\tname=eth0\tflags=0x1043\tup=true\tloopback=false")
    );
    assert_eq!(
        event_line(&NetworkEvent::Address(AddressEvent {
            kind: AddressEventKind::Removed,
            address: address(),
        }))
        .as_deref(),
        Some("address-removed\tifindex=3\taddress=fe80::1/64")
    );
    assert_eq!(
        event_line(&NetworkEvent::Wifi(WifiEvent {
            kind: WifiEventKind::ScanAborted,
            interface_index: 3,
            interface_name: None,
            frequency: None,
        })),
        None
    );
}
