//! Addresses and their texts, ordering and tables.

use network_manager_rs::net::{
    broadcast_address, network_address, subnet_mask, IpAddr, Ipv4Addr, Ipv6Addr,
};
use network_manager_rs::sort::is_text_before;
use network_manager_rs::table::Table;

#[test]
fn addresses_are_read_back_from_their_texts() {
    for text in [
        "0.0.0.0",
        "192.168.1.184",
        "255.255.255.255",
        "::",
        "::1",
        "1::",
        "fe80::1",
        "2001:db8::1:0:0:1",
        "2001:db8:1:2:3:4:5:6",
        "::ffff:10.0.0.1",
    ] {
        let address = IpAddr::parse(text).unwrap();
        assert_eq!(address.to_string(), text);
    }
    assert_eq!(
        Ipv6Addr::parse("2001:DB8:0:0:0:0:0:1").unwrap().to_string(),
        "2001:db8::1"
    );
    for text in ["", "1.2.3", "256.0.0.1", "01.2.3.4", "1.2.3.4.5", ":", "1:::2", "1:2", "g::"] {
        assert_eq!(IpAddr::parse(text), None, "{text}");
    }
}

#[test]
fn networks_masks_and_broadcasts() {
    let address = Ipv4Addr::new(192, 168, 1, 184);
    assert_eq!(
        network_address(IpAddr::V4(address), 24),
        IpAddr::V4(Ipv4Addr::new(192, 168, 1, 0))
    );
    assert_eq!(
        network_address(IpAddr::parse("2001:db8:1::2").unwrap(), 32).to_string(),
        "2001:db8::"
    );
    assert_eq!(subnet_mask(0), Ipv4Addr::new(0, 0, 0, 0));
    assert_eq!(subnet_mask(20), Ipv4Addr::new(255, 255, 240, 0));
    assert_eq!(broadcast_address(address, 24), Ipv4Addr::new(192, 168, 1, 255));
    assert_eq!(Ipv4Addr::from_scalar(address.to_scalar()), address);
}

#[test]
fn texts_are_ordered_by_their_characters() {
    assert!(is_text_before("a", "b"));
    assert!(is_text_before("a", "ab"));
    assert!(!is_text_before("b", "ab"));
    assert!(!is_text_before("a", "a"));
}

#[test]
fn tables_keep_one_value_for_a_key() {
    let mut table: Table<u64, i32> = Table::new();
    table.insert(1, 10);
    table.insert(2, 20);
    table.insert(1, 11);
    assert_eq!(table.get(&1), Some(&11));
    assert_eq!(table.remove(&1), Some(11));
    assert_eq!(table.remove(&1), None);
    assert_eq!(table.keys(), vec![2]);
}
