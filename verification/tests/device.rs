//! Devices that profiles are matched against.

use network_manager_rs::connection::device::{DeviceInfo, DeviceKind, MacAddress};
use network_manager_rs::linux::model::{
    InterfaceType, WifiBand, WifiBandId, WifiCapabilities, WifiCipher, WirelessInterface,
};

fn wireless_interface(name: &str, mac: Option<[u8; 6]>) -> WirelessInterface {
    WirelessInterface {
        index: 2,
        name: name.to_string(),
        wiphy_index: Some(0),
        wiphy_name: Some("phy0".to_string()),
        interface_type: InterfaceType::Station,
        mac,
        up: true,
        capabilities: WifiCapabilities {
            supported_interfaces: vec![InterfaceType::Station],
            cipher_suites: vec![WifiCipher::Ccmp],
            bands: vec![WifiBand {
                id: WifiBandId::Ghz2,
                channels: vec![1],
                frequencies: vec![2412],
                ht_capabilities: None,
                vht_capabilities: None,
            }],
            max_scan_ssids: Some(4),
            scan_supported: true,
        },
    }
}

#[test]
fn converts_wireless_interface_to_device_info() {
    let interface = wireless_interface("wlan0", Some([0x00, 0x11, 0x22, 0x33, 0x44, 0x55]));
    let device = DeviceInfo::from_wireless(&interface);
    assert_eq!(device.kind, DeviceKind::Wifi);
    assert_eq!(device.interface_name, "wlan0");
    assert_eq!(
        device.mac_address,
        Some(MacAddress([0x00, 0x11, 0x22, 0x33, 0x44, 0x55]))
    );
}

#[test]
fn preserves_missing_mac_address() {
    let interface = wireless_interface("wlan1", None);
    assert_eq!(DeviceInfo::from_wireless(&interface).mac_address, None);
}

#[test]
fn mac_address_formats_and_round_trips_through_serde() {
    let mac = MacAddress([0xde, 0xad, 0xbe, 0xef, 0x00, 0x01]);
    assert_eq!(mac.to_string(), "de:ad:be:ef:00:01");

    assert_eq!(MacAddress::parse(&mac.to_string()), Some(mac));
}

#[test]
fn mac_address_rejects_invalid_input() {
    assert!(MacAddress::parse("not-a-mac").is_none());
}

#[test]
fn device_kind_is_self_describing() {
    assert_eq!(DeviceKind::Wifi.to_string(), "wifi");
    assert_eq!(DeviceKind::Ethernet.to_string(), "ethernet");
}
