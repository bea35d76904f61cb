//! Wireless interfaces, radios and the requests for them.

use vstd::prelude::*;

use crate::bytes;
use crate::laws::rtnetlink;
use crate::linux::genl;
use crate::linux::genl::{AttrView, MsgView};
use crate::linux::model::{
    InterfaceType, NetlinkError, WifiBandId, WifiBandView, WifiCipher, WirelessInterface,
    WirelessInterfaceView,
};
use crate::linux::netlink;
use crate::linux::netlink::NlMsgHdr;
use crate::linux::nl80211;
use crate::linux::nl80211::{FamilyView, WiphyView};
use crate::linux::wifi;
use crate::text;

verus! {

/// An attribute is known by the lower fourteen bits of its type; the top bit marks
/// that attributes are nested in it.
pub proof fn lemma_attribute_types(payload: Seq<u8>, i: int)
    requires
        genl::attrs_in(payload) is Ok,
        0 <= i < rtnetlink::attributes(payload).len(),
    ensures
        ({
            let raw = rtnetlink::attributes(payload)[i];
            let found = genl::attrs_in(payload)->Ok_0;
            &&& found.len() == rtnetlink::attributes(payload).len()
            &&& found[i].typ == raw.0 % 0x4000
            &&& found[i].nested <==> raw.0 / 0x8000 == 1
            &&& found[i].payload == raw.1
        }),
{
}

/// Whether a name is the text of an attribute, up to a zero octet.
pub open spec fn is_named(attrs: Seq<AttrView>, typ: u16, name: Seq<char>) -> bool {
    match genl::find(attrs, typ) {
        Some(octets) => name == text::lossy_text(bytes::until_zero(octets)),
        None => name.len() == 0,
    }
}

/// The interface that is reported of attributes holds what they say: each value that
/// of the attribute with its number.
pub proof fn lemma_interface_is_reported(attrs: Seq<AttrView>)
    ensures
        genl::find(attrs, 3) is None <==> nl80211::interface_of(attrs) == Ok::<
            Option<WirelessInterfaceView>,
            NetlinkError,
        >(None),
        nl80211::interface_of(attrs) matches Ok(Some(interface)) ==> {
            &&& genl::find(attrs, 3) matches Some(octets) && octets.len() == 4 && interface.index
                == bytes::signed32(bytes::ne32(octets, 0))
            &&& is_named(attrs, 4, interface.name)
            &&& match genl::find(attrs, 1) {
                Some(octets) => octets.len() == 4 && interface.wiphy_index == Some(
                    bytes::ne32(octets, 0) as u32,
                ),
                None => interface.wiphy_index is None,
            }
            &&& match genl::find(attrs, 5) {
                Some(octets) => octets.len() == 1 && interface.interface_type == InterfaceType::of(
                    octets[0],
                ),
                None => interface.interface_type == InterfaceType::Unspecified,
            }
            &&& interface.mac == genl::find(attrs, 6)
            &&& interface.mac matches Some(mac) ==> mac.len() == 6
        },
{
    if let Some(octets) = genl::find(attrs, 3) {
        if octets.len() == 4 {
            rtnetlink::lemma_word(octets, 0);
        }
    }
}

/// The kinds of interfaces, the bands and the ciphers, by their numbers.
pub proof fn lemma_numbers_of_radios(other: u8, cipher: u32)
    ensures
        InterfaceType::of(0) == InterfaceType::Unspecified,
        InterfaceType::of(1) == InterfaceType::Adhoc,
        InterfaceType::of(2) == InterfaceType::Station,
        InterfaceType::of(3) == InterfaceType::Ap,
        InterfaceType::of(4) == InterfaceType::ApVlan,
        InterfaceType::of(5) == InterfaceType::Wds,
        InterfaceType::of(6) == InterfaceType::Monitor,
        InterfaceType::of(7) == InterfaceType::MeshPoint,
        InterfaceType::of(8) == InterfaceType::P2pClient,
        InterfaceType::of(9) == InterfaceType::P2pGo,
        InterfaceType::of(10) == InterfaceType::P2pDevice,
        InterfaceType::of(11) == InterfaceType::Ocb,
        InterfaceType::of(12) == InterfaceType::Nan,
        InterfaceType::of(13) == InterfaceType::NanData,
        other > 13 ==> InterfaceType::of(other) == InterfaceType::Other(other),
        WifiBandId::of(0) == WifiBandId::Ghz2,
        WifiBandId::of(1) == WifiBandId::Ghz5,
        WifiBandId::of(2) == WifiBandId::Ghz60,
        WifiBandId::of(3) == WifiBandId::Ghz6,
        WifiBandId::of(4) == WifiBandId::SubGhz,
        WifiBandId::of(5) == WifiBandId::Lc,
        other > 5 ==> WifiBandId::of(other) == WifiBandId::Other(other),
        WifiCipher::of(0x000FAC01) == WifiCipher::Wep40,
        WifiCipher::of(0x000FAC02) == WifiCipher::Tkip,
        WifiCipher::of(0x000FAC04) == WifiCipher::Ccmp,
        WifiCipher::of(0x000FAC05) == WifiCipher::Wep104,
        WifiCipher::of(0x000FAC06) == WifiCipher::AesCmac,
        WifiCipher::of(0x000FAC08) == WifiCipher::Gcmp,
        WifiCipher::of(0x000FAC09) == WifiCipher::Gcmp256,
        WifiCipher::of(0x000FAC0A) == WifiCipher::Ccmp256,
        WifiCipher::of(0x000FAC0B) == WifiCipher::BipCmac256,
        WifiCipher::of(0x000FAC0C) == WifiCipher::BipGmac128,
        WifiCipher::of(0x000FAC0D) == WifiCipher::BipGmac256,
        WifiCipher::of(0x00147201) == WifiCipher::WapiSms4,
        cipher == 0x000FAC03 || cipher == 0x000FAC07 || cipher < 0x000FAC01 || (0x000FAC0D < cipher
            && cipher != 0x00147201) ==> WifiCipher::of(cipher) == WifiCipher::Other(cipher),
{
}

/// The radio that is reported of attributes holds what they say: its index and name,
/// the kinds of interfaces that are nested in attribute 32, the ciphers of attribute
/// 57, the bands that are nested in attribute 22, and how many names it can scan for,
/// in attribute 43; one that says so can scan.
pub proof fn lemma_radio_is_reported(attrs: Seq<AttrView>)
    ensures
        nl80211::wiphy_of(attrs) matches Ok(Some(wiphy)) ==> {
            let found = wiphy.capabilities;
            let kinds = match genl::find(attrs, 32) {
                Some(octets) => genl::attrs_in(octets)->Ok_0,
                None => Seq::empty(),
            };
            &&& genl::find(attrs, 1) matches Some(octets) && octets.len() == 4 && wiphy.index
                == bytes::ne32(octets, 0)
            &&& is_named(attrs, 2, wiphy.name)
            &&& found.supported_interfaces.len() == kinds.len()
            &&& forall|i: int|
                0 <= i < kinds.len() ==> #[trigger] found.supported_interfaces[i]
                    == InterfaceType::of((kinds[i].typ % 256) as u8)
            &&& match genl::find(attrs, 57) {
                Some(octets) => found.cipher_suites.len() * 4 == octets.len() && forall|i: int|
                    0 <= i < found.cipher_suites.len() ==> #[trigger] found.cipher_suites[i]
                        == WifiCipher::of(bytes::ne32(octets, 4 * i) as u32),
                None => found.cipher_suites.len() == 0,
            }
            &&& match genl::find(attrs, 43) {
                Some(octets) => octets.len() == 1 && found.max_scan_ssids == Some(octets[0] as u32)
                    && found.scan_supported,
                None => found.max_scan_ssids is None && !found.scan_supported,
            }
            &&& match genl::find(attrs, 22) {
                Some(octets) => genl::attrs_in(octets) matches Ok(entries) && are_bands(
                    entries,
                    found.bands,
                ),
                None => found.bands.len() == 0,
            }
        },
{
    if let Ok(Some(wiphy)) = nl80211::wiphy_of(attrs) {
        if let Some(octets) = genl::find(attrs, 1) {
            rtnetlink::lemma_word(octets, 0);
        }
        if let Some(octets) = genl::find(attrs, 22) {
            lemma_bands(genl::attrs_in(octets)->Ok_0);
        }
    }
}

/// Whether bands are those of nested attributes, one for each and in order.
pub open spec fn are_bands(entries: Seq<AttrView>, bands: Seq<WifiBandView>) -> bool {
    &&& bands.len() == entries.len()
    &&& forall|i: int| 0 <= i < bands.len() ==> is_band(entries[i], #[trigger] bands[i])
}

/// Whether a band is the one that an attribute describes: its id is the attribute's
/// type, its capabilities stand in attributes 4 and 8, and its frequencies are those
/// of attribute 1 that are not disabled.
pub open spec fn is_band(entry: AttrView, band: WifiBandView) -> bool {
    &&& band.id == WifiBandId::of((entry.typ % 256) as u8)
    &&& genl::attrs_in(entry.payload) matches Ok(attrs)
    &&& match genl::find(attrs, 4) {
        Some(octets) => octets.len() == 2 && band.ht_capabilities == Some(
            bytes::ne16(octets, 0) as u16,
        ),
        None => band.ht_capabilities is None,
    }
    &&& match genl::find(attrs, 8) {
        Some(octets) => octets.len() == 4 && band.vht_capabilities == Some(
            bytes::ne32(octets, 0) as u32,
        ),
        None => band.vht_capabilities is None,
    }
    &&& match genl::find(attrs, 1) {
        Some(octets) => genl::attrs_in(octets) matches Ok(entries) && nl80211::frequencies_of(
            entries,
        ) == Ok::<(Seq<u16>, Seq<u32>), NetlinkError>((band.channels, band.frequencies)),
        None => band.channels.len() == 0 && band.frequencies.len() == 0,
    }
}

proof fn lemma_bands(entries: Seq<AttrView>)
    ensures
        nl80211::bands_of(entries) matches Ok(bands) ==> are_bands(entries, bands),
    decreases entries.len(),
{
    if entries.len() > 0 {
        let more = entries.skip(1);
        lemma_bands(more);
        if let Ok(bands) = nl80211::bands_of(entries) {
            let rest = nl80211::bands_of(more)->Ok_0;
            assert forall|i: int| 0 <= i < bands.len() implies is_band(
                entries[i],
                #[trigger] bands[i],
            ) by {
                if i > 0 {
                    assert(bands[i] == rest[i - 1]);
                    assert(more[i - 1] == entries[i]);
                } else {
                    assert(is_band(entries[0], bands[0]));
                }
            }
        }
    }
}

/// The frequencies of a band are those of its entries, in order, each under the number
/// of its entry. An entry that is marked as disabled, by attribute 2, or that has no
/// frequency, in attribute 1, adds nothing.
pub proof fn lemma_frequencies_of_a_band(entry: AttrView, more: Seq<AttrView>)
    ensures
        nl80211::frequencies_of(Seq::empty()) matches Ok((channels, frequencies))
            && channels.len() == 0 && frequencies.len() == 0,
        nl80211::frequencies_of(seq![entry] + more) matches Ok((channels, frequencies)) ==> {
            &&& genl::attrs_in(entry.payload) matches Ok(inner)
            &&& nl80211::frequencies_of(more) matches Ok((channels_of_more, frequencies_of_more))
            &&& if genl::find(inner, 2) is None && genl::find(inner, 1) is Some {
                &&& genl::find(inner, 1)->0.len() == 4
                &&& channels == seq![entry.typ] + channels_of_more
                &&& frequencies == seq![bytes::ne32(genl::find(inner, 1)->0, 0) as u32]
                    + frequencies_of_more
            } else {
                channels == channels_of_more && frequencies == frequencies_of_more
            }
        },
{
    let all = seq![entry] + more;
    assert(all.skip(1) =~= more);
    assert(all[0] == entry);
}

// --- Requests --------------------------------------------------------------------------

/// Whether a message is a generic request: its length, its family as its type, its
/// flags and sequence number, a command in its first version, and attributes.
pub open spec fn is_request(
    message: Seq<u8>,
    family: int,
    command: int,
    flags: int,
    attrs: Seq<(u16, Seq<u8>)>,
) -> bool {
    &&& message.len() >= 20
    &&& bytes::ne32(message, 0) == message.len()
    &&& bytes::ne16(message, 4) == family
    &&& bytes::ne16(message, 6) == flags
    &&& bytes::ne32(message, 8) == 1
    &&& bytes::ne32(message, 12) == 0
    &&& message[16] == command
    &&& message[17] == 1
    &&& message[18] == 0
    &&& message[19] == 0
    &&& rtnetlink::attributes(message.skip(20)) == attrs
}

proof fn lemma_request(family: u16, command: u8, flags: u16, attrs: Seq<(u16, Seq<u8>)>)
    requires
        attrs.len() <= 4,
        forall|i: int| 0 <= i < attrs.len() ==> (#[trigger] attrs[i]).1.len() <= 16,
    ensures
        is_request(
            genl::genl_octets(family, command, flags, 1, attrs),
            family as int,
            command as int,
            flags as int,
            attrs,
        ),
{
    let tail = netlink::attrs_octets(attrs);
    let body = seq![command, 1u8, 0u8, 0u8] + tail;
    let message = genl::genl_octets(family, command, flags, 1, attrs);
    let header = NlMsgHdr {
        nlmsg_len: ((body.len() + 16) % 0x1_0000_0000) as u32,
        nlmsg_type: family,
        nlmsg_flags: flags,
        nlmsg_seq: 1,
        nlmsg_pid: 0,
    };
    netlink::lemma_attrs_round_trip(attrs);
    rtnetlink::lemma_attributes_size(attrs);
    netlink::lemma_header(header, body);
    assert(message == header.octets() + body);
    assert(message.skip(20) =~= tail);
    rtnetlink::lemma_word(message, 0);
    rtnetlink::lemma_word(message, 8);
    rtnetlink::lemma_word(message, 12);
}

/// The family is asked for by its name; interfaces and radios are asked for as dumps; a
/// scan is triggered, and its results are asked for, on one interface.
pub proof fn lemma_requests_of_radios(family: u16, index: i32)
    ensures
        is_request(
            genl::genl_octets(
                nl80211::GENL_ID_CTRL,
                nl80211::CTRL_CMD_GETFAMILY,
                nl80211::REQUEST_FLAGS,
                1,
                seq![(nl80211::CTRL_ATTR_FAMILY_NAME, nl80211::family_name())],
            ),
            16,
            3,
            0x1,
            seq![
                (
                    2u16,
                    seq![
                        'n' as u8,
                        'l' as u8,
                        '8' as u8,
                        '0' as u8,
                        '2' as u8,
                        '1' as u8,
                        '1' as u8,
                    ],
                ),
            ],
        ),
        is_request(
            genl::genl_octets(
                family,
                nl80211::NL80211_CMD_GET_INTERFACE,
                nl80211::DUMP_FLAGS,
                1,
                Seq::empty(),
            ),
            family as int,
            5,
            0x301,
            Seq::empty(),
        ),
        is_request(
            genl::genl_octets(
                family,
                nl80211::NL80211_CMD_GET_WIPHY,
                nl80211::DUMP_FLAGS,
                1,
                Seq::empty(),
            ),
            family as int,
            1,
            0x301,
            Seq::empty(),
        ),
        is_request(
            genl::genl_octets(
                family,
                nl80211::NL80211_CMD_TRIGGER_SCAN,
                nl80211::ACK_FLAGS,
                1,
                nl80211::index_attr(index),
            ),
            family as int,
            33,
            0x5,
            nl80211::index_attr(index),
        ),
        is_request(
            genl::genl_octets(
                family,
                nl80211::NL80211_CMD_GET_SCAN,
                nl80211::DUMP_FLAGS,
                1,
                nl80211::index_attr(index),
            ),
            family as int,
            32,
            0x301,
            nl80211::index_attr(index),
        ),
        nl80211::index_attr(index).len() == 1,
        nl80211::index_attr(index)[0].0 == 3,
        nl80211::index_attr(index)[0].1.len() == 4,
        bytes::signed32(bytes::ne32(nl80211::index_attr(index)[0].1, 0)) == index,
{
    let name = seq!['n' as u8, 'l' as u8, '8' as u8, '0' as u8, '2' as u8, '1' as u8, '1' as u8];
    assert(nl80211::family_name() =~= name);
    bytes::lemma_ne32(bytes::unsigned32(index as int));
    lemma_request(16, 3, 0x1, seq![(2u16, name)]);
    lemma_request(family, 5, 0x301, Seq::empty());
    lemma_request(family, 1, 0x301, Seq::empty());
    lemma_request(family, 33, 0x5, nl80211::index_attr(index));
    lemma_request(family, 32, 0x301, nl80211::index_attr(index));
}

// --- Interfaces ------------------------------------------------------------------------

/// A dump reports one interface for each of its messages of interfaces that gives an
/// index, and one radio for each of its messages of radios that does, in order, and
/// nothing for other messages.
pub proof fn lemma_each_radio_is_reported(messages: Seq<MsgView>, message: MsgView)
    ensures
        nl80211::interfaces_of(messages) matches Ok(found) ==> {
            let all = nl80211::interfaces_of(seq![message] + messages);
            if message.cmd == Some(5u8) || message.cmd == Some(7u8) {
                match nl80211::interface_of(message.attrs) {
                    Err(e) => all is Err,
                    Ok(Some(interface)) => all matches Ok(more) && more == seq![interface] + found,
                    Ok(None) => all matches Ok(more) && more == found,
                }
            } else {
                all matches Ok(more) && more == found
            }
        },
        nl80211::wiphys_of(messages) matches Ok(found) ==> {
            let all = nl80211::wiphys_of(seq![message] + messages);
            if message.cmd == Some(1u8) || message.cmd == Some(3u8) {
                match nl80211::wiphy_of(message.attrs) {
                    Err(e) => all is Err,
                    Ok(Some(wiphy)) => all matches Ok(more) && more == seq![wiphy] + found,
                    Ok(None) => all matches Ok(more) && more == found,
                }
            } else {
                all matches Ok(more) && more == found
            }
        },
        nl80211::interfaces_of(Seq::empty()) matches Ok(none) && none.len() == 0,
        nl80211::wiphys_of(Seq::empty()) matches Ok(none) && none.len() == 0,
{
    let all = seq![message] + messages;
    assert(all.skip(1) =~= messages);
    assert(all[0] == message);
}

/// The family that is reported of a reply has the number of its attribute 1, and the
/// groups that are nested in its attribute 7: each by its name, in attribute 1, and its
/// number, in attribute 2.
pub proof fn lemma_family_is_reported(attrs: Seq<AttrView>, entry: AttrView, more: Seq<AttrView>)
    ensures
        genl::find(attrs, 1) is None <==> nl80211::family_of_attrs(attrs) == Ok::<
            Option<FamilyView>,
            NetlinkError,
        >(None),
        nl80211::family_of_attrs(attrs) matches Ok(Some(family)) ==> {
            &&& genl::find(attrs, 1) matches Some(octets) && octets.len() == 2 && family.id
                == bytes::ne16(octets, 0)
            &&& match genl::find(attrs, 7) {
                Some(octets) => genl::attrs_in(octets) matches Ok(entries) && nl80211::groups_of(
                    entries,
                ) == Ok::<Seq<(Seq<char>, u32)>, NetlinkError>(family.mcast_groups),
                None => family.mcast_groups.len() == 0,
            }
        },
        nl80211::groups_of(seq![entry] + more) matches Ok(all) ==> {
            &&& genl::attrs_in(entry.payload) matches Ok(inner)
            &&& nl80211::groups_of(more) matches Ok(rest)
            &&& match (genl::find(inner, 1), genl::find(inner, 2)) {
                (Some(name), Some(number)) => number.len() == 4 && all == seq![
                    (
                        text::lossy_text(bytes::until_zero(name)),
                        bytes::ne32(number, 0) as u32,
                    ),
                ] + rest,
                _ => all == rest,
            }
        },
{
    let all = seq![entry] + more;
    assert(all.skip(1) =~= more);
    assert(all[0] == entry);
}

/// A group of a family is found by its name: the first with it, and zero without one.
pub proof fn lemma_groups_are_found(
    groups: Seq<(Seq<char>, u32)>,
    name: Seq<char>,
    k: int,
)
    requires
        0 <= k <= groups.len(),
        forall|i: int| 0 <= i < k ==> (#[trigger] groups[i]).0 != name,
        k < groups.len() ==> groups[k].0 == name,
    ensures
        nl80211::group_id(groups, name) == if k < groups.len() {
            groups[k].1
        } else {
            0
        },
    decreases k,
{
    if k > 0 {
        let more = groups.skip(1);
        assert(groups[0].0 != name);
        assert forall|i: int| 0 <= i < k - 1 implies (#[trigger] more[i]).0 != name by {
            assert(more[i] == groups[i + 1]);
        }
        lemma_groups_are_found(more, name, k - 1);
    }
}

/// An interface takes the name and the capabilities of its radio, if that is among
/// them, and keeps everything else.
pub proof fn lemma_interface_knows_its_radio(
    interface: WirelessInterfaceView,
    wiphys: Seq<WiphyView>,
    k: int,
)
    requires
        0 <= k <= wiphys.len(),
        forall|i: int|
            0 <= i < k ==> interface.wiphy_index != Some((#[trigger] wiphys[i]).index),
        k < wiphys.len() ==> interface.wiphy_index == Some(wiphys[k].index),
    ensures
        ({
            let all = wifi::merged(interface, wiphys);
            &&& all.index == interface.index
            &&& all.name == interface.name
            &&& all.mac == interface.mac
            &&& all.interface_type == interface.interface_type
            &&& all.up == interface.up
            &&& all.wiphy_index == interface.wiphy_index
            &&& if k < wiphys.len() {
                all.wiphy_name == Some(wiphys[k].name) && all.capabilities
                    == wiphys[k].capabilities
            } else {
                all.wiphy_name == interface.wiphy_name && all.capabilities
                    == interface.capabilities
            }
        }),
{
    lemma_wiphy_at(wiphys, interface.wiphy_index, k);
}

proof fn lemma_wiphy_at(wiphys: Seq<WiphyView>, index: Option<u32>, k: int)
    requires
        0 <= k <= wiphys.len(),
        forall|i: int| 0 <= i < k ==> index != Some((#[trigger] wiphys[i]).index),
        k < wiphys.len() ==> index == Some(wiphys[k].index),
    ensures
        wifi::wiphy_at(wiphys, index) == if k < wiphys.len() {
            Some(wiphys[k])
        } else {
            None
        },
    decreases k,
{
    if k > 0 {
        let more = wiphys.skip(1);
        assert(index != Some(wiphys[0].index));
        assert forall|i: int| 0 <= i < k - 1 implies index != Some((#[trigger] more[i]).index) by {
            assert(more[i] == wiphys[i + 1]);
        }
        lemma_wiphy_at(more, index, k - 1);
    }
}

/// A scan is made with the first station, or, without one, with the first interface
/// that is no monitor; there is none when all are monitors.
pub proof fn lemma_scan_is_made_with_a_station(interfaces: Seq<WirelessInterface>, k: int)
    requires
        0 <= k < interfaces.len(),
    ensures
        interfaces[k].interface_type == InterfaceType::Station && (forall|i: int|
            0 <= i < k ==> (#[trigger] interfaces[i]).interface_type != InterfaceType::Station)
            ==> wifi::scan_index(interfaces) == Some(interfaces[k].index),
        (forall|i: int|
            0 <= i < interfaces.len() ==> (#[trigger] interfaces[i]).interface_type
                != InterfaceType::Station) && interfaces[k].interface_type != InterfaceType::Monitor
            && (forall|i: int|
            0 <= i < k ==> (#[trigger] interfaces[i]).interface_type == InterfaceType::Monitor)
            ==> wifi::scan_index(interfaces) == Some(interfaces[k].index),
        (forall|i: int|
            0 <= i < interfaces.len() ==> (#[trigger] interfaces[i]).interface_type
                == InterfaceType::Monitor) ==> wifi::scan_index(interfaces) is None,
{
    let station = |t: InterfaceType| t == InterfaceType::Station;
    let usable = |t: InterfaceType| t != InterfaceType::Monitor;
    let n = interfaces.len() as int;
    if interfaces[k].interface_type == InterfaceType::Station && (forall|i: int|
        0 <= i < k ==> (#[trigger] interfaces[i]).interface_type != InterfaceType::Station) {
        lemma_first_index(interfaces, station, k);
    }
    if forall|i: int|
        0 <= i < n ==> (#[trigger] interfaces[i]).interface_type != InterfaceType::Station {
        lemma_first_index(interfaces, station, n);
        if interfaces[k].interface_type != InterfaceType::Monitor && (forall|i: int|
            0 <= i < k ==> (#[trigger] interfaces[i]).interface_type == InterfaceType::Monitor) {
            lemma_first_index(interfaces, usable, k);
        }
    }
    if forall|i: int|
        0 <= i < n ==> (#[trigger] interfaces[i]).interface_type == InterfaceType::Monitor {
        lemma_first_index(interfaces, station, n);
        lemma_first_index(interfaces, usable, n);
    }
}

proof fn lemma_first_index(
    interfaces: Seq<WirelessInterface>,
    f: spec_fn(InterfaceType) -> bool,
    k: int,
)
    requires
        0 <= k <= interfaces.len(),
        forall|i: int| 0 <= i < k ==> !f((#[trigger] interfaces[i]).interface_type),
        k < interfaces.len() ==> f(interfaces[k].interface_type),
    ensures
        wifi::first_index(interfaces, f) == if k < interfaces.len() {
            Some(interfaces[k].index)
        } else {
            None
        },
    decreases k,
{
    if k > 0 {
        let more = interfaces.skip(1);
        assert(!f(interfaces[0].interface_type));
        assert forall|i: int| 0 <= i < k - 1 implies !f((#[trigger] more[i]).interface_type) by {
            assert(more[i] == interfaces[i + 1]);
        }
        lemma_first_index(more, f, k - 1);
    }
}

} // verus!
