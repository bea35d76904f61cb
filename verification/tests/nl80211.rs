//! The nl80211 wire format.

use network_manager_rs::linux::elements::{ssid_from_ies, IE_RSN, IE_SSID, IE_VENDOR, WPA_OUI_TYPE};
use network_manager_rs::linux::genl::{
    build_message, parse_ack_error, parse_attrs, parse_genl_messages, read_u32, RawAttr,
};
use network_manager_rs::linux::model::{
    frequency_to_channel, Bssid, InterfaceType, NetlinkError, Ssid, WifiAuthSuite, WifiBandId,
    WifiCipher, WifiEventKind,
};
use network_manager_rs::linux::netlink::{NlMsgHdr, NLMSG_DONE, NLM_F_REQUEST};
use network_manager_rs::linux::nl80211::{
    family_info_from_attrs, interface_from_attrs, parse_interface_messages, parse_scan_events,
    parse_scan_messages, parse_wiphy_messages, wiphy_from_attrs, CTRL_ATTR_FAMILY_ID, CTRL_ATTR_MCAST_GROUPS, CTRL_ATTR_MCAST_GRP_ID, CTRL_ATTR_MCAST_GRP_NAME, GENL_ID_CTRL, NL80211_ATTR_BSS, NL80211_ATTR_CIPHER_SUITES, NL80211_ATTR_IFINDEX, NL80211_ATTR_IFNAME, NL80211_ATTR_IFTYPE, NL80211_ATTR_MAX_NUM_SCAN_SSIDS, NL80211_ATTR_SSID, NL80211_ATTR_SUPPORTED_IFTYPES, NL80211_ATTR_WIPHY, NL80211_ATTR_WIPHY_BANDS, NL80211_ATTR_WIPHY_FREQ, NL80211_ATTR_WIPHY_NAME, NL80211_BAND_ATTR_FREQS, NL80211_BAND_ATTR_HT_CAPA, NL80211_BAND_ATTR_VHT_CAPA, NL80211_BSS_BSSID, NL80211_BSS_CAPABILITY, NL80211_BSS_FREQUENCY, NL80211_BSS_INFORMATION_ELEMENTS, NL80211_BSS_SIGNAL_MBM, NL80211_BSS_SIGNAL_UNSPEC, NL80211_CMD_GET_INTERFACE, NL80211_CMD_GET_SCAN, NL80211_CMD_GET_WIPHY, NL80211_CMD_NEW_SCAN_RESULTS, NL80211_CMD_SCAN_ABORTED, NL80211_FREQUENCY_ATTR_FREQ,
};

const GENL_HDRLEN: usize = 4;
const NLA_ALIGNTO: usize = 4;
const NLA_F_NESTED: u16 = 0x8000;
const WPA_OUI: [u8; 3] = [0x00, 0x50, 0xf2];

const FAMILY_ID: u16 = 0x15;

fn push_message(buf: &mut Vec<u8>, nlmsg_type: u16, cmd: u8, attrs: &[u8]) {
    let len = 16 + GENL_HDRLEN + attrs.len();
    buf.extend_from_slice(&(len as u32).to_ne_bytes());
    buf.extend_from_slice(&nlmsg_type.to_ne_bytes());
    buf.extend_from_slice(&0_u16.to_ne_bytes());
    buf.extend_from_slice(&1_u32.to_ne_bytes());
    buf.extend_from_slice(&0_u32.to_ne_bytes());
    buf.extend_from_slice(&[cmd, 1, 0, 0]);
    buf.extend_from_slice(attrs);
}

fn push_plain(buf: &mut Vec<u8>, nlmsg_type: u16, payload: &[u8]) {
    let len = 16 + payload.len();
    buf.extend_from_slice(&(len as u32).to_ne_bytes());
    buf.extend_from_slice(&nlmsg_type.to_ne_bytes());
    buf.extend_from_slice(&0_u16.to_ne_bytes());
    buf.extend_from_slice(&1_u32.to_ne_bytes());
    buf.extend_from_slice(&0_u32.to_ne_bytes());
    buf.extend_from_slice(payload);
}

fn push_done(buf: &mut Vec<u8>) {
    push_plain(buf, NLMSG_DONE, &[]);
}

fn attr_bytes(typ: u16, payload: &[u8]) -> Vec<u8> {
    let mut out = Vec::new();
    out.extend_from_slice(&((4 + payload.len()) as u16).to_ne_bytes());
    out.extend_from_slice(&typ.to_ne_bytes());
    out.extend_from_slice(payload);
    while out.len() % NLA_ALIGNTO != 0 {
        out.push(0);
    }
    out
}

fn nested_bytes(typ: u16, inner: &[u8]) -> Vec<u8> {
    attr_bytes(typ | NLA_F_NESTED, inner)
}

fn flag_attr(typ: u16) -> Vec<u8> {
    attr_bytes(typ, &[])
}

fn u8_attr(typ: u16, value: u8) -> Vec<u8> {
    attr_bytes(typ, &value.to_ne_bytes())
}

fn u16_attr(typ: u16, value: u16) -> Vec<u8> {
    attr_bytes(typ, &value.to_ne_bytes())
}

fn u32_attr(typ: u16, value: u32) -> Vec<u8> {
    attr_bytes(typ, &value.to_ne_bytes())
}

fn i32_attr(typ: u16, value: i32) -> Vec<u8> {
    attr_bytes(typ, &value.to_ne_bytes())
}

fn string_attr(typ: u16, value: &str) -> Vec<u8> {
    let mut payload = value.as_bytes().to_vec();
    payload.push(0);
    attr_bytes(typ, &payload)
}

fn mac_attr(typ: u16, value: [u8; 6]) -> Vec<u8> {
    attr_bytes(typ, &value)
}

fn frequency_entry(channel: u16, frequency: u32) -> Vec<u8> {
    nested_bytes(
        channel,
        &attr_bytes(NL80211_FREQUENCY_ATTR_FREQ, &frequency.to_ne_bytes()),
    )
}

fn ssid_ie(name: &[u8]) -> Vec<u8> {
    let mut ie = vec![IE_SSID, name.len() as u8];
    ie.extend_from_slice(name);
    ie
}

fn rsn_ie(akm_suites: &[u32], mfp_capable: bool) -> Vec<u8> {
    let mut body = Vec::new();
    body.extend_from_slice(&1_u16.to_le_bytes());
    body.extend_from_slice(&0x000FAC04_u32.to_le_bytes());
    body.extend_from_slice(&1_u16.to_le_bytes());
    body.extend_from_slice(&0x000FAC04_u32.to_le_bytes());
    body.extend_from_slice(&(akm_suites.len() as u16).to_le_bytes());
    for suite in akm_suites {
        body.extend_from_slice(&suite.to_le_bytes());
    }
    let capabilities = if mfp_capable { 0x0080_u16 } else { 0 };
    body.extend_from_slice(&capabilities.to_le_bytes());
    let mut ie = vec![IE_RSN, body.len() as u8];
    ie.extend_from_slice(&body);
    ie
}

fn wpa_ie(akm_values: &[u32]) -> Vec<u8> {
    let mut body = Vec::new();
    body.extend_from_slice(&1_u16.to_le_bytes());
    body.extend_from_slice(&0x000FAC02_u32.to_le_bytes());
    body.extend_from_slice(&1_u16.to_le_bytes());
    body.extend_from_slice(&0x000FAC02_u32.to_le_bytes());
    body.extend_from_slice(&(akm_values.len() as u16).to_le_bytes());
    for value in akm_values {
        body.extend_from_slice(&value.to_le_bytes());
    }
    let mut data = Vec::new();
    data.extend_from_slice(&WPA_OUI);
    data.push(WPA_OUI_TYPE);
    data.extend_from_slice(&body);
    let mut ie = vec![IE_VENDOR, data.len() as u8];
    ie.extend_from_slice(&data);
    ie
}

fn interface_message(ifindex: i32, name: &str, wiphy: u32, iftype: u8) -> Vec<u8> {
    let mut attrs = Vec::new();
    attrs.extend(u32_attr(NL80211_ATTR_IFINDEX, ifindex as u32));
    attrs.extend(string_attr(NL80211_ATTR_IFNAME, name));
    attrs.extend(u32_attr(NL80211_ATTR_WIPHY, wiphy));
    attrs.extend(u8_attr(NL80211_ATTR_IFTYPE, iftype));
    let mut message = Vec::new();
    push_message(&mut message, FAMILY_ID, NL80211_CMD_GET_INTERFACE, &attrs);
    message
}

fn bss_message(
    bssid: Option<[u8; 6]>,
    ssid: Option<&[u8]>,
    frequency: u32,
    signal_mbm: i32,
    capability: u16,
    ies: &[u8],
) -> Vec<u8> {
    let mut bss = Vec::new();
    if let Some(bssid) = bssid {
        bss.extend(mac_attr(NL80211_BSS_BSSID, bssid));
    }
    bss.extend(u32_attr(NL80211_BSS_FREQUENCY, frequency));
    bss.extend(u16_attr(NL80211_BSS_CAPABILITY, capability));
    bss.extend(i32_attr(NL80211_BSS_SIGNAL_MBM, signal_mbm));
    if !ies.is_empty() {
        bss.extend(attr_bytes(NL80211_BSS_INFORMATION_ELEMENTS, ies));
    }
    let mut attrs = Vec::new();
    attrs.extend(nested_bytes(NL80211_ATTR_BSS, &bss));
    if let Some(ssid) = ssid {
        attrs.extend(attr_bytes(NL80211_ATTR_SSID, ssid));
    }
    let mut message = Vec::new();
    push_message(&mut message, FAMILY_ID, NL80211_CMD_GET_SCAN, &attrs);
    message
}

fn scan_event_message(cmd: u8, ifindex: u32, frequency: u32) -> Vec<u8> {
    let mut attrs = Vec::new();
    attrs.extend(u32_attr(NL80211_ATTR_IFINDEX, ifindex));
    attrs.extend(u32_attr(NL80211_ATTR_WIPHY_FREQ, frequency));
    let mut message = Vec::new();
    push_message(&mut message, FAMILY_ID, cmd, &attrs);
    message
}

#[test]
fn parses_interface_dump() {
    let mut buffer = Vec::new();
    buffer.extend(interface_message(3, "wlan0", 0, 2));
    buffer.extend(interface_message(5, "wlx01", 1, 6));
    push_done(&mut buffer);

    let interfaces = parse_interface_messages(&buffer).unwrap();
    assert_eq!(interfaces.len(), 2);
    assert_eq!(interfaces[0].index, 3);
    assert_eq!(interfaces[0].name, "wlan0");
    assert_eq!(interfaces[0].wiphy_index, Some(0));
    assert_eq!(interfaces[0].interface_type, InterfaceType::Station);
    assert_eq!(interfaces[1].interface_type, InterfaceType::Monitor);
}

#[test]
fn parses_wiphy_capabilities() {
    let mut freq_2ghz = Vec::new();
    freq_2ghz.extend(frequency_entry(1, 2412));
    freq_2ghz.extend(frequency_entry(6, 2437));
    freq_2ghz.extend(frequency_entry(11, 2462));
    let mut band_2ghz = Vec::new();
    band_2ghz.extend(nested_bytes(NL80211_BAND_ATTR_FREQS, &freq_2ghz));
    band_2ghz.extend(u16_attr(NL80211_BAND_ATTR_HT_CAPA, 0x01ff));

    let mut freq_5ghz = Vec::new();
    freq_5ghz.extend(frequency_entry(36, 5180));
    freq_5ghz.extend(frequency_entry(149, 5745));
    let mut band_5ghz = Vec::new();
    band_5ghz.extend(nested_bytes(NL80211_BAND_ATTR_FREQS, &freq_5ghz));
    band_5ghz.extend(u32_attr(NL80211_BAND_ATTR_VHT_CAPA, 0x0e000000));

    let mut bands = Vec::new();
    bands.extend(nested_bytes(0, &band_2ghz));
    bands.extend(nested_bytes(1, &band_5ghz));

    let mut supported = Vec::new();
    supported.extend(flag_attr(2));
    supported.extend(flag_attr(3));
    supported.extend(flag_attr(6));

    let mut ciphers = Vec::new();
    ciphers.extend(0x000FAC04_u32.to_ne_bytes());
    ciphers.extend(0x000FAC02_u32.to_ne_bytes());
    ciphers.extend(0x000FAC01_u32.to_ne_bytes());

    let mut attrs = Vec::new();
    attrs.extend(u32_attr(NL80211_ATTR_WIPHY, 0));
    attrs.extend(string_attr(NL80211_ATTR_WIPHY_NAME, "phy0"));
    attrs.extend(nested_bytes(NL80211_ATTR_SUPPORTED_IFTYPES, &supported));
    attrs.extend(attr_bytes(NL80211_ATTR_CIPHER_SUITES, &ciphers));
    attrs.extend(u8_attr(NL80211_ATTR_MAX_NUM_SCAN_SSIDS, 8));
    attrs.extend(nested_bytes(NL80211_ATTR_WIPHY_BANDS, &bands));

    let mut buffer = Vec::new();
    push_message(&mut buffer, FAMILY_ID, NL80211_CMD_GET_WIPHY, &attrs);
    push_done(&mut buffer);

    let wiphys = parse_wiphy_messages(&buffer).unwrap();
    assert_eq!(wiphys.len(), 1);
    let capabilities = &wiphys[0].capabilities;
    assert_eq!(wiphys[0].index, 0);
    assert_eq!(wiphys[0].name, "phy0");
    assert_eq!(
        capabilities.supported_interfaces,
        vec![
            InterfaceType::Station,
            InterfaceType::Ap,
            InterfaceType::Monitor
        ]
    );
    assert_eq!(
        capabilities.cipher_suites,
        vec![WifiCipher::Ccmp, WifiCipher::Tkip, WifiCipher::Wep40]
    );
    assert_eq!(capabilities.max_scan_ssids, Some(8));
    assert!(capabilities.scan_supported);
    assert_eq!(capabilities.bands.len(), 2);
    assert_eq!(capabilities.bands[0].id, WifiBandId::Ghz2);
    assert_eq!(capabilities.bands[0].channels, vec![1, 6, 11]);
    assert_eq!(capabilities.bands[0].frequencies, vec![2412, 2437, 2462]);
    assert_eq!(capabilities.bands[0].ht_capabilities, Some(0x01ff));
    assert_eq!(capabilities.bands[1].id, WifiBandId::Ghz5);
    assert_eq!(capabilities.bands[1].channels, vec![36, 149]);
    assert_eq!(capabilities.bands[1].frequencies, vec![5180, 5745]);
    assert_eq!(capabilities.bands[1].vht_capabilities, Some(0x0e000000));
}

#[test]
fn parses_open_access_point() {
    let mut ies = Vec::new();
    ies.extend(ssid_ie(b"OpenNet"));
    let mut buffer = Vec::new();
    buffer.extend(bss_message(
        Some([0xaa, 0xbb, 0xcc, 0xdd, 0xee, 0xff]),
        Some(b"OpenNet"),
        2437,
        -4500,
        0x0001,
        &ies,
    ));
    push_done(&mut buffer);

    let points = parse_scan_messages(&buffer).unwrap();
    assert_eq!(points.len(), 1);
    let point = &points[0];
    assert_eq!(
        point.bssid,
        Some(Bssid([0xaa, 0xbb, 0xcc, 0xdd, 0xee, 0xff]))
    );
    assert_eq!(point.ssid, Ssid::from_bytes(b"OpenNet"));
    assert_eq!(point.frequency, Some(2437));
    assert_eq!(point.channel, Some(6));
    assert_eq!(point.signal_dbm, Some(-45));
    assert!(!point.security.wep);
    assert!(!point.security.wpa1);
    assert!(!point.security.wpa2);
    assert!(!point.security.wpa3);
    assert!(!point.security.enterprise);
}

#[test]
fn parses_wpa_wpa2_security() {
    let mut ies = Vec::new();
    ies.extend(wpa_ie(&[2]));
    ies.extend(rsn_ie(&[0x000FAC02], false));
    let mut buffer = Vec::new();
    buffer.extend(bss_message(
        Some([1, 2, 3, 4, 5, 6]),
        Some(b"SecureNet"),
        5180,
        -5200,
        0x0011,
        &ies,
    ));
    push_done(&mut buffer);

    let points = parse_scan_messages(&buffer).unwrap();
    let security = &points[0].security;
    assert!(!security.wep);
    assert!(security.wpa1);
    assert!(security.wpa2);
    assert!(!security.wpa3);
    assert!(!security.enterprise);
    assert_eq!(
        security.auth_suites,
        vec![WifiAuthSuite::Wpa1Psk, WifiAuthSuite::RsnPsk]
    );
}

#[test]
fn parses_wpa2_wpa3_transition_security() {
    let mut ies = Vec::new();
    ies.extend(rsn_ie(&[0x000FAC08, 0x000FAC02], true));
    let mut buffer = Vec::new();
    buffer.extend(bss_message(
        Some([2, 3, 4, 5, 6, 7]),
        Some(b"Transition"),
        5500,
        -4300,
        0x0011,
        &ies,
    ));
    push_done(&mut buffer);

    let points = parse_scan_messages(&buffer).unwrap();
    let security = &points[0].security;
    assert!(security.wpa2);
    assert!(security.wpa3);
    assert!(security.management_frame_protection);
}

#[test]
fn parses_wpa3_only_sae_security() {
    let mut ies = Vec::new();
    ies.extend(rsn_ie(&[0x000FAC08], true));
    let mut buffer = Vec::new();
    buffer.extend(bss_message(
        Some([3, 4, 5, 6, 7, 8]),
        Some(b"Wpa3Only"),
        5825,
        -6000,
        0x0011,
        &ies,
    ));
    push_done(&mut buffer);

    let points = parse_scan_messages(&buffer).unwrap();
    let security = &points[0].security;
    assert!(!security.wpa2);
    assert!(security.wpa3);
}

#[test]
fn parses_enterprise_security() {
    let mut ies = Vec::new();
    ies.extend(wpa_ie(&[1]));
    let mut buffer = Vec::new();
    buffer.extend(bss_message(
        Some([4, 5, 6, 7, 8, 9]),
        Some(b"CorpNet"),
        2412,
        -4700,
        0x0011,
        &ies,
    ));
    push_done(&mut buffer);

    let points = parse_scan_messages(&buffer).unwrap();
    let security = &points[0].security;
    assert!(security.wpa1);
    assert!(security.enterprise);
    assert!(!security.wep);
}

#[test]
fn parses_wep_security() {
    let mut ies = Vec::new();
    ies.extend(ssid_ie(b"WepNet"));
    let mut buffer = Vec::new();
    buffer.extend(bss_message(
        Some([5, 6, 7, 8, 9, 10]),
        Some(b"WepNet"),
        2462,
        -5500,
        0x0011,
        &ies,
    ));
    push_done(&mut buffer);

    let points = parse_scan_messages(&buffer).unwrap();
    assert!(points[0].security.wep);
    assert!(!points[0].security.wpa1);
    assert!(!points[0].security.wpa2);
}

#[test]
fn derives_ssid_from_beacon_ie_when_attr_missing() {
    let mut ies = Vec::new();
    ies.extend(ssid_ie(b"BeaconSsid"));
    let mut buffer = Vec::new();
    buffer.extend(bss_message(
        Some([6, 7, 8, 9, 10, 11]),
        None,
        2437,
        -5000,
        0x0001,
        &ies,
    ));
    push_done(&mut buffer);

    let points = parse_scan_messages(&buffer).unwrap();
    assert_eq!(points[0].ssid, Ssid::from_bytes(b"BeaconSsid"));
}

#[test]
fn parses_signal_strength_mbm_and_unspecified() {
    let mut ies = Vec::new();
    ies.extend(ssid_ie(b"Signal"));
    let mut bss = Vec::new();
    bss.extend(mac_attr(NL80211_BSS_BSSID, [7, 8, 9, 10, 11, 12]));
    bss.extend(u32_attr(NL80211_BSS_FREQUENCY, 5180));
    bss.extend(i32_attr(NL80211_BSS_SIGNAL_MBM, -3100));
    bss.extend(u8_attr(NL80211_BSS_SIGNAL_UNSPEC, 75));
    bss.extend(attr_bytes(NL80211_BSS_INFORMATION_ELEMENTS, &ies));
    let mut attrs = Vec::new();
    attrs.extend(nested_bytes(NL80211_ATTR_BSS, &bss));
    let mut buffer = Vec::new();
    push_message(&mut buffer, FAMILY_ID, NL80211_CMD_GET_SCAN, &attrs);
    push_done(&mut buffer);

    let points = parse_scan_messages(&buffer).unwrap();
    assert_eq!(points[0].signal_dbm, Some(-31));
    assert_eq!(points[0].signal_unspecified, Some(75));
    assert_eq!(points[0].channel, Some(36));
}

#[test]
fn nl80211_parses_multiple_messages_in_one_buffer() {
    let mut buffer = Vec::new();
    let mut ies_a = Vec::new();
    ies_a.extend(ssid_ie(b"NetA"));
    buffer.extend(bss_message(
        Some([0, 1, 2, 3, 4, 5]),
        Some(b"NetA"),
        2437,
        -5000,
        0x0011,
        &ies_a,
    ));
    let mut ies_b = Vec::new();
    ies_b.extend(ssid_ie(b"NetB"));
    buffer.extend(bss_message(
        Some([0, 1, 2, 3, 4, 6]),
        Some(b"NetB"),
        5180,
        -5100,
        0x0001,
        &ies_b,
    ));
    buffer.extend(scan_event_message(NL80211_CMD_NEW_SCAN_RESULTS, 3, 5180));
    buffer.extend(scan_event_message(NL80211_CMD_SCAN_ABORTED, 5, 2437));
    push_done(&mut buffer);

    let points = parse_scan_messages(&buffer).unwrap();
    assert_eq!(points.len(), 2);
    assert_eq!(points[0].ssid, Ssid::from_bytes(b"NetA"));
    assert_eq!(points[1].ssid, Ssid::from_bytes(b"NetB"));

    let events = parse_scan_events(&buffer).unwrap();
    assert_eq!(events.len(), 2);
    assert_eq!(events[0].kind, WifiEventKind::ScanResults);
    assert_eq!(events[0].interface_index, 3);
    assert_eq!(events[0].frequency, Some(5180));
    assert_eq!(events[1].kind, WifiEventKind::ScanAborted);
    assert_eq!(events[1].interface_index, 5);
}

#[test]
fn parses_scan_events_without_frequency() {
    let mut buffer = Vec::new();
    buffer.extend(scan_event_message(NL80211_CMD_NEW_SCAN_RESULTS, 3, 0));
    push_done(&mut buffer);
    let events = parse_scan_events(&buffer).unwrap();
    assert_eq!(events.len(), 1);
    assert_eq!(events[0].kind, WifiEventKind::ScanResults);
    assert_eq!(events[0].frequency, None);
}

#[test]
fn parses_family_info() {
    let mut groups = Vec::new();
    let mut scan_group = Vec::new();
    scan_group.extend(string_attr(CTRL_ATTR_MCAST_GRP_NAME, "scan"));
    scan_group.extend(u32_attr(CTRL_ATTR_MCAST_GRP_ID, 17));
    groups.extend(nested_bytes(0, &scan_group));
    let mut mlme_group = Vec::new();
    mlme_group.extend(string_attr(CTRL_ATTR_MCAST_GRP_NAME, "mlme"));
    mlme_group.extend(u32_attr(CTRL_ATTR_MCAST_GRP_ID, 21));
    groups.extend(nested_bytes(1, &mlme_group));

    let mut attrs = Vec::new();
    attrs.extend(u16_attr(CTRL_ATTR_FAMILY_ID, FAMILY_ID));
    attrs.extend(nested_bytes(CTRL_ATTR_MCAST_GROUPS, &groups));

    let mut buffer = Vec::new();
    push_message(&mut buffer, GENL_ID_CTRL, 2, &attrs);

    let messages = parse_genl_messages(&buffer).unwrap();
    let info = family_info_from_attrs(&messages[0].attrs).unwrap().unwrap();
    assert_eq!(info.id, FAMILY_ID);
    assert_eq!(
        info.mcast_groups,
        vec![("scan".to_string(), 17), ("mlme".to_string(), 21)]
    );
}

#[test]
fn rejects_truncated_genl_message() {
    let mut buffer = Vec::new();
    buffer.extend_from_slice(&16_u32.to_ne_bytes());
    buffer.extend_from_slice(&FAMILY_ID.to_ne_bytes());
    buffer.extend_from_slice(&0_u16.to_ne_bytes());
    buffer.extend_from_slice(&1_u32.to_ne_bytes());
    buffer.extend_from_slice(&0_u32.to_ne_bytes());
    assert!(matches!(
        parse_genl_messages(&buffer),
        Err(NetlinkError::MalformedMessage(_))
    ));
}

#[test]
fn rejects_short_genl_header() {
    let mut buffer = Vec::new();
    let len = 16 + 2;
    buffer.extend_from_slice(&(len as u32).to_ne_bytes());
    buffer.extend_from_slice(&FAMILY_ID.to_ne_bytes());
    buffer.extend_from_slice(&0_u16.to_ne_bytes());
    buffer.extend_from_slice(&1_u32.to_ne_bytes());
    buffer.extend_from_slice(&0_u32.to_ne_bytes());
    buffer.extend_from_slice(&[0, 0]);
    assert!(matches!(
        parse_genl_messages(&buffer),
        Err(NetlinkError::MalformedMessage(_))
    ));
}

#[test]
fn rejects_trailing_partial_message() {
    let mut buffer = Vec::new();
    buffer.extend(interface_message(3, "wlan0", 0, 2));
    buffer.extend_from_slice(&[0x01]);
    assert!(matches!(
        parse_genl_messages(&buffer),
        Err(NetlinkError::MalformedMessage(_))
    ));
}

#[test]
fn rejects_malformed_attribute_length() {
    let mut buffer = Vec::new();
    let mut attrs = Vec::new();
    attrs.extend_from_slice(&1_u16.to_ne_bytes());
    attrs.extend_from_slice(&NL80211_ATTR_IFINDEX.to_ne_bytes());
    push_message(&mut buffer, FAMILY_ID, NL80211_CMD_GET_INTERFACE, &attrs);
    assert!(matches!(
        parse_genl_messages(&buffer),
        Err(NetlinkError::MalformedMessage(_))
    ));
}

#[test]
fn rejects_oversized_attribute() {
    let mut buffer = Vec::new();
    let mut attrs = Vec::new();
    attrs.extend_from_slice(&100_u16.to_ne_bytes());
    attrs.extend_from_slice(&NL80211_ATTR_IFINDEX.to_ne_bytes());
    push_message(&mut buffer, FAMILY_ID, NL80211_CMD_GET_INTERFACE, &attrs);
    assert!(matches!(
        parse_genl_messages(&buffer),
        Err(NetlinkError::MalformedMessage(_))
    ));
}

#[test]
fn rejects_wrong_sized_scalar_attribute() {
    let attrs = vec![RawAttr {
        typ: NL80211_ATTR_IFINDEX,
        nested: false,
        payload: vec![1, 2, 3],
    }];
    assert!(matches!(
        read_u32(&attrs, NL80211_ATTR_IFINDEX),
        Err(NetlinkError::MalformedMessage(_))
    ));
}

#[test]
fn ignores_unsupported_attributes() {
    let mut raw = Vec::new();
    raw.extend(u32_attr(NL80211_ATTR_IFINDEX, 3));
    raw.extend(u8_attr(999, 1));
    raw.extend(string_attr(NL80211_ATTR_IFNAME, "wlan0"));
    let attrs = parse_attrs(&raw).unwrap();
    let interface = interface_from_attrs(&attrs).unwrap().unwrap();
    assert_eq!(interface.index, 3);
    assert_eq!(interface.name, "wlan0");
}

#[test]
fn rejects_malformed_rsn_ie() {
    let mut ies = Vec::new();
    ies.extend_from_slice(&[IE_RSN, 20]);
    ies.extend_from_slice(&[0, 1, 0, 0]);
    let mut buffer = Vec::new();
    buffer.extend(bss_message(
        Some([9, 9, 9, 9, 9, 9]),
        Some(b"BadRsn"),
        2437,
        -5000,
        0x0011,
        &ies,
    ));
    push_done(&mut buffer);
    assert!(matches!(
        parse_scan_messages(&buffer),
        Err(NetlinkError::MalformedMessage(_))
    ));
}

#[test]
fn rejects_truncated_information_element() {
    let mut ies = Vec::new();
    ies.extend_from_slice(&[IE_RSN, 30, 0, 1]);
    let mut buffer = Vec::new();
    buffer.extend(bss_message(
        Some([8, 8, 8, 8, 8, 8]),
        Some(b"TruncIe"),
        2437,
        -5000,
        0x0001,
        &ies,
    ));
    push_done(&mut buffer);
    assert!(matches!(
        parse_scan_messages(&buffer),
        Err(NetlinkError::MalformedMessage(_))
    ));
}

#[test]
fn rejects_malformed_cipher_suite_list() {
    let mut raw = Vec::new();
    raw.extend(u32_attr(NL80211_ATTR_WIPHY, 0));
    raw.extend(attr_bytes(NL80211_ATTR_CIPHER_SUITES, &[1, 2, 3]));
    let attrs = parse_attrs(&raw).unwrap();
    let wiphy = wiphy_from_attrs(&attrs);
    assert!(matches!(wiphy, Err(NetlinkError::MalformedMessage(_))));
}

#[test]
fn parses_ssid_with_binary_octets() {
    let mut ies = Vec::new();
    ies.extend(ssid_ie(&[0xde, 0xad, 0x01, 0x02]));
    let ssid = ssid_from_ies(&ies).unwrap();
    assert_eq!(ssid.display_string(), "\\xde\\xad\\x01\\x02");
    assert_eq!(
        Ssid::from_bytes(b"plain").unwrap().display_string(),
        "plain"
    );
    assert_eq!(Ssid::from_bytes(b"").unwrap().display_string(), "(hidden)");
}

#[test]
fn formats_bssid_and_ssid() {
    assert_eq!(
        Bssid([0xaa, 0xbb, 0xcc, 0xdd, 0xee, 0xff]).to_string(),
        "aa:bb:cc:dd:ee:ff"
    );
    assert_eq!(Ssid::from_bytes(b"home").unwrap().to_string(), "home");
}

#[test]
fn maps_frequency_to_channel() {
    assert_eq!(frequency_to_channel(2412), Some(1));
    assert_eq!(frequency_to_channel(2437), Some(6));
    assert_eq!(frequency_to_channel(2462), Some(11));
    assert_eq!(frequency_to_channel(2484), Some(14));
    assert_eq!(frequency_to_channel(5180), Some(36));
    assert_eq!(frequency_to_channel(5745), Some(149));
    assert_eq!(frequency_to_channel(5955), Some(1));
    assert_eq!(frequency_to_channel(6135), Some(37));
    assert_eq!(frequency_to_channel(100), None);
}

#[test]
fn builds_well_formed_request() {
    let request = build_message(FAMILY_ID, NL80211_CMD_GET_INTERFACE, NLM_F_REQUEST, 7, &[]);
    assert_eq!(
        request.len() as u32,
        u32::from_ne_bytes(request[0..4].try_into().unwrap())
    );
    let header = NlMsgHdr::read_from(&request).unwrap();
    assert_eq!(header.nlmsg_type, FAMILY_ID);
    assert_eq!(header.nlmsg_flags, NLM_F_REQUEST);
    assert_eq!(header.nlmsg_seq, 7);
    assert_eq!(request[16..20], [NL80211_CMD_GET_INTERFACE, 1, 0, 0]);
}

#[test]
fn parses_ack_and_kernel_error() {
    let mut ok = vec![0_u8; 4];
    assert!(parse_ack_error(&ok).is_ok());
    ok[0] = 0xff;
    ok[1] = 0xff;
    ok[2] = 0xff;
    ok[3] = 0xff;
    assert!(matches!(
        parse_ack_error(&ok),
        Err(NetlinkError::Kernel(-1))
    ));
    let short = vec![0_u8; 2];
    assert!(matches!(
        parse_ack_error(&short),
        Err(NetlinkError::MalformedMessage(_))
    ));
}

#[test]
fn parses_multiple_events_with_padding() {
    let mut buffer = Vec::new();
    buffer.extend(scan_event_message(NL80211_CMD_NEW_SCAN_RESULTS, 3, 2437));
    while buffer.len() % 4 != 0 {
        buffer.push(0);
    }
    buffer.extend(scan_event_message(NL80211_CMD_SCAN_ABORTED, 4, 5180));
    push_done(&mut buffer);
    let events = parse_scan_events(&buffer).unwrap();
    assert_eq!(events.len(), 2);
    assert_eq!(events[0].interface_index, 3);
    assert_eq!(events[1].interface_index, 4);
}
