//! nl80211 over generic netlink: enough of the protocol for Wi-Fi discovery,
//! that is family resolution, wiphy and interface dumps, scan triggering,
//! scan-result dumps, and scan events.

use vstd::prelude::*;

use crate::bytes;
use crate::bytes::{ne32_vec, read_ne16, read_ne32, to_signed, to_unsigned};
use crate::linux::elements;
use crate::linux::elements::{parse_security, ssid_from_ies};
use crate::linux::genl;
use crate::linux::genl::{
    build_message, find_attr, nested_attrs, parse_attrs, parse_genl_messages, read_i32, read_mac,
    read_ssid, read_string, read_u16, read_u32, read_u8, AttrView, MsgView, RawAttr, RawMsg,
};
use crate::linux::model;
use crate::linux::model::{
    frequency_to_channel, AccessPoint, AccessPointView, Bssid, InterfaceType, NetlinkError, Ssid,
    WifiBand, WifiBandId, WifiBandView, WifiCapabilities, WifiCapabilitiesView, WifiCipher,
    WifiEvent, WifiEventKind, WifiEventView, WirelessInterface, WirelessInterfaceView,
};
use crate::linux::netlink;
use crate::sort;
use crate::sort::{sort, Ranked};
use crate::text;
use crate::text::same_text;

verus! {

pub const GENL_ID_CTRL: u16 = 0x10;

pub const CTRL_CMD_GETFAMILY: u8 = 3;

pub const CTRL_ATTR_FAMILY_ID: u16 = 1;

pub const CTRL_ATTR_FAMILY_NAME: u16 = 2;

pub const CTRL_ATTR_MCAST_GROUPS: u16 = 7;

pub const CTRL_ATTR_MCAST_GRP_NAME: u16 = 1;

pub const CTRL_ATTR_MCAST_GRP_ID: u16 = 2;

pub const NL80211_CMD_GET_WIPHY: u8 = 1;

pub const NL80211_CMD_NEW_WIPHY: u8 = 3;

pub const NL80211_CMD_GET_INTERFACE: u8 = 5;

pub const NL80211_CMD_NEW_INTERFACE: u8 = 7;

pub const NL80211_CMD_GET_SCAN: u8 = 32;

pub const NL80211_CMD_TRIGGER_SCAN: u8 = 33;

pub const NL80211_CMD_NEW_SCAN_RESULTS: u8 = 34;

pub const NL80211_CMD_SCAN_ABORTED: u8 = 35;

pub const NL80211_ATTR_WIPHY: u16 = 1;

pub const NL80211_ATTR_WIPHY_NAME: u16 = 2;

pub const NL80211_ATTR_IFINDEX: u16 = 3;

pub const NL80211_ATTR_IFNAME: u16 = 4;

pub const NL80211_ATTR_IFTYPE: u16 = 5;

pub const NL80211_ATTR_MAC: u16 = 6;

pub const NL80211_ATTR_WIPHY_BANDS: u16 = 22;

pub const NL80211_ATTR_SUPPORTED_IFTYPES: u16 = 32;

pub const NL80211_ATTR_WIPHY_FREQ: u16 = 38;

pub const NL80211_ATTR_MAX_NUM_SCAN_SSIDS: u16 = 43;

pub const NL80211_ATTR_BSS: u16 = 47;

pub const NL80211_ATTR_SSID: u16 = 52;

pub const NL80211_ATTR_CIPHER_SUITES: u16 = 57;

pub const NL80211_BSS_BSSID: u16 = 1;

pub const NL80211_BSS_FREQUENCY: u16 = 2;

pub const NL80211_BSS_CAPABILITY: u16 = 5;

pub const NL80211_BSS_INFORMATION_ELEMENTS: u16 = 6;

pub const NL80211_BSS_SIGNAL_MBM: u16 = 7;

pub const NL80211_BSS_SIGNAL_UNSPEC: u16 = 8;

pub const NL80211_BSS_SEEN_MS_AGO: u16 = 10;

pub const NL80211_BSS_BEACON_IES: u16 = 11;

pub const NL80211_BAND_ATTR_FREQS: u16 = 1;

pub const NL80211_BAND_ATTR_HT_CAPA: u16 = 4;

pub const NL80211_BAND_ATTR_VHT_CAPA: u16 = 8;

pub const NL80211_FREQUENCY_ATTR_FREQ: u16 = 1;

pub const NL80211_FREQUENCY_ATTR_DISABLED: u16 = 2;

/// Request a dump.
pub const DUMP_FLAGS: u16 = 0x0301;

/// Request an acknowledgement.
pub const ACK_FLAGS: u16 = 0x0005;

/// A plain request.
pub const REQUEST_FLAGS: u16 = 0x0001;

// --- The family ------------------------------------------------------------------------

/// Resolved generic netlink family information.
#[derive(Debug, PartialEq, Eq)]
pub struct FamilyInfo {
    pub id: u16,
    pub mcast_groups: Vec<(String, u32)>,
}

/// Family information, with the names of its groups as text.
#[verifier::ext_equal]
pub struct FamilyView {
    pub id: u16,
    pub mcast_groups: Seq<(Seq<char>, u32)>,
}

/// The views of a list of multicast groups.
pub open spec fn group_views(groups: Seq<(String, u32)>) -> Seq<(Seq<char>, u32)> {
    groups.map_values(|group: (String, u32)| (group.0@, group.1))
}

impl FamilyInfo {
    pub open spec fn view(&self) -> FamilyView {
        FamilyView { id: self.id, mcast_groups: group_views(self.mcast_groups@) }
    }

    /// The id of the multicast group that announces scans; zero without one.
    pub fn scan_group(&self) -> (r: u32)
        ensures
            r == group_id(self@.mcast_groups, "scan"@),
    {
        let ghost views = self@.mcast_groups;
        let mut i: usize = 0;
        assert(views.skip(0) =~= views);
        while i < self.mcast_groups.len()
            invariant
                i <= self.mcast_groups@.len(),
                views == group_views(self.mcast_groups@),
                group_id(views, "scan"@) == group_id(views.skip(i as int), "scan"@),
            decreases self.mcast_groups@.len() - i,
        {
            assert(views.skip(i as int)[0] == (
                self.mcast_groups@[i as int].0@,
                self.mcast_groups@[i as int].1,
            ));
            assert(views.skip(i as int).skip(1) =~= views.skip(i + 1));
            if same_text(self.mcast_groups[i].0.as_str(), "scan") {
                return self.mcast_groups[i].1;
            }
            i = i + 1;
        }
        0
    }
}

/// The id of the first group with a name; zero without one.
pub open spec fn group_id(groups: Seq<(Seq<char>, u32)>, name: Seq<char>) -> u32
    decreases groups.len(),
{
    if groups.len() == 0 {
        0
    } else if groups[0].0 == name {
        groups[0].1
    } else {
        group_id(groups.skip(1), name)
    }
}

/// The multicast groups that nested attributes describe. A group without a
/// name or an id is left out.
pub open spec fn groups_of(entries: Seq<AttrView>) -> Result<Seq<(Seq<char>, u32)>, NetlinkError>
    decreases entries.len(),
{
    if entries.len() == 0 {
        Ok(Seq::empty())
    } else {
        match genl::attrs_in(entries[0].payload) {
            Err(e) => Err(e),
            Ok(inner) => match genl::u32_in(inner, CTRL_ATTR_MCAST_GRP_ID) {
                Err(e) => Err(e),
                Ok(id) => match groups_of(entries.skip(1)) {
                    Err(e) => Err(e),
                    Ok(more) => match (genl::string_in(inner, CTRL_ATTR_MCAST_GRP_NAME), id) {
                        (Some(name), Some(id)) => Ok(seq![(name, id)] + more),
                        _ => Ok(more),
                    },
                },
            },
        }
    }
}

/// The family that the attributes of a reply describe, if they name one.
pub open spec fn family_of_attrs(attrs: Seq<AttrView>) -> Result<Option<FamilyView>, NetlinkError> {
    match genl::find(attrs, CTRL_ATTR_FAMILY_ID) {
        None => Ok(None),
        Some(payload) => if payload.len() != 2 {
            Err(NetlinkError::MalformedMessage("invalid family id length"))
        } else {
            match genl::nested_in(attrs, CTRL_ATTR_MCAST_GROUPS) {
                Err(e) => Err(e),
                Ok(entries) => match groups_of(entries) {
                    Err(e) => Err(e),
                    Ok(mcast_groups) => Ok(
                        Some(FamilyView { id: bytes::ne16(payload, 0) as u16, mcast_groups }),
                    ),
                },
            }
        },
    }
}

fn parse_groups(entries: &Vec<RawAttr>) -> (r: Result<Vec<(String, u32)>, NetlinkError>)
    ensures
        match r {
            Ok(groups) => groups_of(genl::raw_views(entries@)) == Ok::<
                Seq<(Seq<char>, u32)>,
                NetlinkError,
            >(group_views(groups@)),
            Err(e) => groups_of(genl::raw_views(entries@)) == Err::<
                Seq<(Seq<char>, u32)>,
                NetlinkError,
            >(e),
        },
{
    let ghost views = genl::raw_views(entries@);
    let mut groups: Vec<(String, u32)> = Vec::new();
    let mut i: usize = 0;
    proof {
        assert(views.skip(0) =~= views);
        if let Ok(all) = groups_of(views) {
            assert(group_views(groups@) + all =~= all);
        }
    }
    while i < entries.len()
        invariant
            i <= entries@.len(),
            views == genl::raw_views(entries@),
            match groups_of(views.skip(i as int)) {
                Ok(more) => groups_of(views) == Ok::<Seq<(Seq<char>, u32)>, NetlinkError>(
                    group_views(groups@) + more,
                ),
                Err(e) => groups_of(views) == Err::<Seq<(Seq<char>, u32)>, NetlinkError>(e),
            },
        decreases entries@.len() - i,
    {
        let ghost rest = views.skip(i as int);
        let ghost before = group_views(groups@);
        assert(rest[0] == entries@[i as int]@);
        assert(rest.skip(1) =~= views.skip(i + 1));
        let inner: Vec<RawAttr> = match parse_attrs(entries[i].payload.as_slice()) {
            Err(err) => {
                return Err(err);
            },
            Ok(inner) => inner,
        };
        let name: Option<String> = read_string(inner.as_slice(), CTRL_ATTR_MCAST_GRP_NAME);
        let id: Option<u32> = match read_u32(inner.as_slice(), CTRL_ATTR_MCAST_GRP_ID) {
            Err(err) => {
                return Err(err);
            },
            Ok(id) => id,
        };
        match (name, id) {
            (Some(name), Some(id)) => {
                let ghost seen = (name@, id);
                groups.push((name, id));
                proof {
                    assert(group_views(groups@) =~= before.push(seen));
                    if let Ok(more) = groups_of(rest.skip(1)) {
                        assert(before + (seq![seen] + more) =~= before.push(seen) + more);
                    }
                }
            },
            _ => {},
        }
        i = i + 1;
    }
    assert(group_views(groups@) + Seq::<(Seq<char>, u32)>::empty() =~= group_views(groups@));
    Ok(groups)
}

/// Reads the family that the attributes of a reply describe.
pub fn family_info_from_attrs(attrs: &[RawAttr]) -> (r: Result<Option<FamilyInfo>, NetlinkError>)
    ensures
        match r {
            Ok(Some(info)) => family_of_attrs(genl::raw_views(attrs@)) == Ok::<
                Option<FamilyView>,
                NetlinkError,
            >(Some(info@)),
            Ok(None) => family_of_attrs(genl::raw_views(attrs@)) == Ok::<
                Option<FamilyView>,
                NetlinkError,
            >(None),
            Err(e) => family_of_attrs(genl::raw_views(attrs@)) == Err::<
                Option<FamilyView>,
                NetlinkError,
            >(e),
        },
{
    let id: u16 = match find_attr(attrs, CTRL_ATTR_FAMILY_ID) {
        None => {
            return Ok(None);
        },
        Some(payload) => {
            if payload.len() != 2 {
                return Err(NetlinkError::MalformedMessage("invalid family id length"));
            }
            read_ne16(payload, 0)
        },
    };
    match nested_attrs(attrs, CTRL_ATTR_MCAST_GROUPS) {
        Err(err) => Err(err),
        Ok(entries) => match parse_groups(&entries) {
            Err(err) => Err(err),
            Ok(mcast_groups) => Ok(Some(FamilyInfo { id, mcast_groups })),
        },
    }
}

/// The first family that the messages of a buffer describe.
pub open spec fn family_among(messages: Seq<MsgView>) -> Result<Option<FamilyView>, NetlinkError>
    decreases messages.len(),
{
    if messages.len() == 0 {
        Ok(None)
    } else if messages[0].cmd is None {
        family_among(messages.skip(1))
    } else {
        match family_of_attrs(messages[0].attrs) {
            Ok(None) => family_among(messages.skip(1)),
            found => found,
        }
    }
}

/// Takes a buffer of replies to the family request: nothing means that another
/// buffer has to be received.
pub fn take_family(buf: &[u8]) -> (r: Result<Option<FamilyInfo>, NetlinkError>)
    ensures
        ({
            let expected = match genl::messages_of(buf@) {
                Err(e) => Err(e),
                Ok(all) => family_among(all),
            };
            match r {
                Ok(Some(info)) => expected == Ok::<Option<FamilyView>, NetlinkError>(Some(info@)),
                Ok(None) => expected == Ok::<Option<FamilyView>, NetlinkError>(None),
                Err(e) => expected == Err::<Option<FamilyView>, NetlinkError>(e),
            }
        }),
{
    let found: Vec<RawMsg> = match parse_genl_messages(buf) {
        Err(err) => {
            return Err(err);
        },
        Ok(found) => found,
    };
    let ghost all = genl::msg_views(found@);
    let mut i: usize = 0;
    assert(all.skip(0) =~= all);
    while i < found.len()
        invariant
            i <= found@.len(),
            all == genl::msg_views(found@),
            genl::messages_of(buf@) == Ok::<Seq<MsgView>, NetlinkError>(all),
            family_among(all) == family_among(all.skip(i as int)),
        decreases found@.len() - i,
    {
        assert(all.skip(i as int)[0] == found@[i as int]@);
        assert(all.skip(i as int).skip(1) =~= all.skip(i + 1));
        if found[i].cmd.is_some() {
            match family_info_from_attrs(found[i].attrs.as_slice()) {
                Err(err) => {
                    return Err(err);
                },
                Ok(Some(info)) => {
                    return Ok(Some(info));
                },
                Ok(None) => {},
            }
        }
        i = i + 1;
    }
    Ok(None)
}

// --- Interfaces --------------------------------------------------------------------------

/// The interface that attributes describe, if they give its index.
pub open spec fn interface_of(attrs: Seq<AttrView>) -> Result<
    Option<WirelessInterfaceView>,
    NetlinkError,
> {
    match genl::u32_in(attrs, NL80211_ATTR_IFINDEX) {
        Err(e) => Err(e),
        Ok(None) => Ok(None),
        Ok(Some(index)) => match genl::u32_in(attrs, NL80211_ATTR_WIPHY) {
            Err(e) => Err(e),
            Ok(wiphy_index) => match genl::u8_in(attrs, NL80211_ATTR_IFTYPE) {
                Err(e) => Err(e),
                Ok(number) => match genl::mac_in(attrs, NL80211_ATTR_MAC) {
                    Err(e) => Err(e),
                    Ok(mac) => Ok(
                        Some(
                            WirelessInterfaceView {
                                index: bytes::signed32(index as nat) as i32,
                                name: match genl::string_in(attrs, NL80211_ATTR_IFNAME) {
                                    Some(name) => name,
                                    None => Seq::empty(),
                                },
                                wiphy_index,
                                wiphy_name: None,
                                interface_type: match number {
                                    Some(value) => InterfaceType::of(value),
                                    None => InterfaceType::Unspecified,
                                },
                                mac,
                                up: false,
                                capabilities: WifiCapabilitiesView::none(),
                            },
                        ),
                    ),
                },
            },
        },
    }
}

fn text_or_empty(text: Option<String>) -> (r: String)
    ensures
        r@ == match text::text_view(text) {
            Some(value) => value,
            None => Seq::empty(),
        },
{
    match text {
        Some(value) => value,
        None => String::new(),
    }
}

/// Reads the interface that attributes describe.
pub fn interface_from_attrs(attrs: &[RawAttr]) -> (r: Result<
    Option<WirelessInterface>,
    NetlinkError,
>)
    ensures
        match r {
            Ok(Some(interface)) => interface_of(genl::raw_views(attrs@)) == Ok::<
                Option<WirelessInterfaceView>,
                NetlinkError,
            >(Some(interface@)),
            Ok(None) => interface_of(genl::raw_views(attrs@)) == Ok::<
                Option<WirelessInterfaceView>,
                NetlinkError,
            >(None),
            Err(e) => interface_of(genl::raw_views(attrs@)) == Err::<
                Option<WirelessInterfaceView>,
                NetlinkError,
            >(e),
        },
{
    let index: u32 = match read_u32(attrs, NL80211_ATTR_IFINDEX) {
        Err(err) => {
            return Err(err);
        },
        Ok(None) => {
            return Ok(None);
        },
        Ok(Some(index)) => index,
    };
    let name: String = text_or_empty(read_string(attrs, NL80211_ATTR_IFNAME));
    let wiphy_index: Option<u32> = match read_u32(attrs, NL80211_ATTR_WIPHY) {
        Err(err) => {
            return Err(err);
        },
        Ok(wiphy_index) => wiphy_index,
    };
    let interface_type: InterfaceType = match read_u8(attrs, NL80211_ATTR_IFTYPE) {
        Err(err) => {
            return Err(err);
        },
        Ok(Some(value)) => InterfaceType::from_u8(value),
        Ok(None) => InterfaceType::Unspecified,
    };
    match read_mac(attrs, NL80211_ATTR_MAC) {
        Err(err) => Err(err),
        Ok(mac) => Ok(
            Some(
                WirelessInterface {
                    index: to_signed(index),
                    name,
                    wiphy_index,
                    wiphy_name: None,
                    interface_type,
                    mac,
                    up: false,
                    capabilities: WifiCapabilities::default(),
                },
            ),
        ),
    }
}

/// The interfaces that the messages of a dump describe, in order.
pub open spec fn interfaces_of(messages: Seq<MsgView>) -> Result<
    Seq<WirelessInterfaceView>,
    NetlinkError,
>
    decreases messages.len(),
{
    if messages.len() == 0 {
        Ok(Seq::empty())
    } else if messages[0].cmd != Some(NL80211_CMD_GET_INTERFACE) && messages[0].cmd != Some(
        NL80211_CMD_NEW_INTERFACE,
    ) {
        interfaces_of(messages.skip(1))
    } else {
        match interface_of(messages[0].attrs) {
            Err(e) => Err(e),
            Ok(found) => match interfaces_of(messages.skip(1)) {
                Err(e) => Err(e),
                Ok(more) => match found {
                    Some(interface) => Ok(seq![interface] + more),
                    None => Ok(more),
                },
            },
        }
    }
}

fn is_command(message: &RawMsg, a: u8, b: u8) -> (r: bool)
    ensures
        r == (message@.cmd == Some(a) || message@.cmd == Some(b)),
{
    match message.cmd {
        Some(cmd) => cmd == a || cmd == b,
        None => false,
    }
}

/// Reads the interfaces that the messages of a dump describe.
pub fn interfaces_from(messages: &Vec<RawMsg>) -> (r: Result<Vec<WirelessInterface>, NetlinkError>)
    ensures
        match r {
            Ok(found) => interfaces_of(genl::msg_views(messages@)) == Ok::<
                Seq<WirelessInterfaceView>,
                NetlinkError,
            >(model::wireless_views(found@)),
            Err(e) => interfaces_of(genl::msg_views(messages@)) == Err::<
                Seq<WirelessInterfaceView>,
                NetlinkError,
            >(e),
        },
{
    let ghost views = genl::msg_views(messages@);
    let mut out: Vec<WirelessInterface> = Vec::new();
    let mut i: usize = 0;
    proof {
        assert(views.skip(0) =~= views);
        if let Ok(all) = interfaces_of(views) {
            assert(model::wireless_views(out@) + all =~= all);
        }
    }
    while i < messages.len()
        invariant
            i <= messages@.len(),
            views == genl::msg_views(messages@),
            match interfaces_of(views.skip(i as int)) {
                Ok(more) => interfaces_of(views) == Ok::<Seq<WirelessInterfaceView>, NetlinkError>(
                    model::wireless_views(out@) + more,
                ),
                Err(e) => interfaces_of(views) == Err::<Seq<WirelessInterfaceView>, NetlinkError>(
                    e,
                ),
            },
        decreases messages@.len() - i,
    {
        let ghost rest = views.skip(i as int);
        let ghost before = model::wireless_views(out@);
        assert(rest[0] == messages@[i as int]@);
        assert(rest.skip(1) =~= views.skip(i + 1));
        if is_command(&messages[i], NL80211_CMD_GET_INTERFACE, NL80211_CMD_NEW_INTERFACE) {
            match interface_from_attrs(messages[i].attrs.as_slice()) {
                Err(err) => {
                    return Err(err);
                },
                Ok(None) => {},
                Ok(Some(interface)) => {
                    let ghost seen = interface@;
                    out.push(interface);
                    proof {
                        assert(model::wireless_views(out@) =~= before.push(seen));
                        if let Ok(more) = interfaces_of(rest.skip(1)) {
                            assert(before + (seq![seen] + more) =~= before.push(seen) + more);
                        }
                    }
                },
            }
        }
        i = i + 1;
    }
    assert(model::wireless_views(out@) + Seq::<WirelessInterfaceView>::empty() =~= model::wireless_views(out@));
    Ok(out)
}

/// Parses an nl80211 interface dump buffer into typed interfaces.
pub fn parse_interface_messages(buf: &[u8]) -> (r: Result<Vec<WirelessInterface>, NetlinkError>)
    ensures
        ({
            let expected = match genl::messages_of(buf@) {
                Err(e) => Err(e),
                Ok(all) => interfaces_of(all),
            };
            match r {
                Ok(found) => expected == Ok::<Seq<WirelessInterfaceView>, NetlinkError>(
                    model::wireless_views(found@),
                ),
                Err(e) => expected == Err::<Seq<WirelessInterfaceView>, NetlinkError>(e),
            }
        }),
{
    match parse_genl_messages(buf) {
        Err(err) => Err(err),
        Ok(messages) => interfaces_from(&messages),
    }
}

impl Ranked for WirelessInterface {
    open spec fn precedes(self, other: Self) -> bool {
        self.index < other.index
    }

    fn goes_before(&self, other: &Self) -> (r: bool) {
        self.index < other.index
    }

    proof fn asymmetric(a: Self, b: Self) {
    }

    proof fn transitive(a: Self, b: Self, c: Self) {
    }
}

/// Orders interfaces by index.
pub fn order_interfaces(interfaces: Vec<WirelessInterface>) -> (r: Vec<WirelessInterface>)
    ensures
        r@ == sort::stable_sort(interfaces@),
{
    sort(interfaces)
}

// --- Wiphys --------------------------------------------------------------------------------

/// A wiphy together with the capabilities it advertises.
#[derive(Debug, PartialEq, Eq)]
pub struct WiphyInfo {
    pub index: u32,
    pub name: String,
    pub capabilities: WifiCapabilities,
}

/// A wiphy, with its name as text.
#[verifier::ext_equal]
pub struct WiphyView {
    pub index: u32,
    pub name: Seq<char>,
    pub capabilities: WifiCapabilitiesView,
}

impl WiphyInfo {
    pub open spec fn view(&self) -> WiphyView {
        WiphyView { index: self.index, name: self.name@, capabilities: self.capabilities@ }
    }
}

/// The views of a list of wiphys.
pub open spec fn wiphy_views(wiphys: Seq<WiphyInfo>) -> Seq<WiphyView> {
    wiphys.map_values(|wiphy: WiphyInfo| wiphy@)
}

/// The cipher suites that a payload lists.
pub open spec fn ciphers_of(payload: Seq<u8>) -> Result<Seq<WifiCipher>, NetlinkError> {
    if payload.len() % 4 != 0 {
        Err(NetlinkError::MalformedMessage("invalid cipher suite length"))
    } else {
        Ok(
            Seq::new(
                payload.len() / 4,
                |i: int| WifiCipher::of(bytes::ne32(payload, 4 * i) as u32),
            ),
        )
    }
}

/// Reads the cipher suites that a payload lists.
pub fn parse_cipher_suites(payload: &[u8]) -> (r: Result<Vec<WifiCipher>, NetlinkError>)
    ensures
        match r {
            Ok(ciphers) => ciphers_of(payload@) == Ok::<Seq<WifiCipher>, NetlinkError>(ciphers@),
            Err(e) => ciphers_of(payload@) == Err::<Seq<WifiCipher>, NetlinkError>(e),
        },
{
    if payload.len() % 4 != 0 {
        return Err(NetlinkError::MalformedMessage("invalid cipher suite length"));
    }
    let count: usize = payload.len() / 4;
    let mut ciphers: Vec<WifiCipher> = Vec::new();
    let mut i: usize = 0;
    while i < count
        invariant
            i <= count,
            payload@.len() == payload.len(),
            4 * count == payload@.len(),
            ciphers@.len() == i,
            forall|j: int|
                0 <= j < i ==> ciphers@[j] == WifiCipher::of(bytes::ne32(payload@, 4 * j) as u32),
        decreases count - i,
    {
        ciphers.push(WifiCipher::from_u32(read_ne32(payload, 4 * i)));
        i = i + 1;
    }
    assert(ciphers@ =~= Seq::new(
        payload@.len() / 4,
        |i: int| WifiCipher::of(bytes::ne32(payload@, 4 * i) as u32),
    ));
    Ok(ciphers)
}

/// The channels and frequencies that nested attributes list. Disabled ones and
/// those without a frequency are left out.
pub open spec fn frequencies_of(entries: Seq<AttrView>) -> Result<
    (Seq<u16>, Seq<u32>),
    NetlinkError,
>
    decreases entries.len(),
{
    if entries.len() == 0 {
        Ok((Seq::empty(), Seq::empty()))
    } else {
        match genl::attrs_in(entries[0].payload) {
            Err(e) => Err(e),
            Ok(inner) => if genl::find(inner, NL80211_FREQUENCY_ATTR_DISABLED) is Some {
                frequencies_of(entries.skip(1))
            } else {
                match genl::u32_in(inner, NL80211_FREQUENCY_ATTR_FREQ) {
                    Err(e) => Err(e),
                    Ok(found) => match frequencies_of(entries.skip(1)) {
                        Err(e) => Err(e),
                        Ok(more) => match found {
                            Some(frequency) => Ok(
                                (seq![entries[0].typ] + more.0, seq![frequency] + more.1),
                            ),
                            None => Ok(more),
                        },
                    },
                }
            },
        }
    }
}

fn parse_frequencies(entries: &Vec<RawAttr>) -> (r: Result<(Vec<u16>, Vec<u32>), NetlinkError>)
    ensures
        match r {
            Ok((channels, frequencies)) => frequencies_of(genl::raw_views(entries@)) == Ok::<
                (Seq<u16>, Seq<u32>),
                NetlinkError,
            >((channels@, frequencies@)),
            Err(e) => frequencies_of(genl::raw_views(entries@)) == Err::<
                (Seq<u16>, Seq<u32>),
                NetlinkError,
            >(e),
        },
{
    let ghost views = genl::raw_views(entries@);
    let mut channels: Vec<u16> = Vec::new();
    let mut frequencies: Vec<u32> = Vec::new();
    let mut i: usize = 0;
    proof {
        assert(views.skip(0) =~= views);
        if let Ok(all) = frequencies_of(views) {
            assert(channels@ + all.0 =~= all.0);
            assert(frequencies@ + all.1 =~= all.1);
        }
    }
    while i < entries.len()
        invariant
            i <= entries@.len(),
            views == genl::raw_views(entries@),
            match frequencies_of(views.skip(i as int)) {
                Ok(more) => frequencies_of(views) == Ok::<(Seq<u16>, Seq<u32>), NetlinkError>(
                    (channels@ + more.0, frequencies@ + more.1),
                ),
                Err(e) => frequencies_of(views) == Err::<(Seq<u16>, Seq<u32>), NetlinkError>(e),
            },
        decreases entries@.len() - i,
    {
        let ghost rest = views.skip(i as int);
        assert(rest[0] == entries@[i as int]@);
        assert(rest.skip(1) =~= views.skip(i + 1));
        let inner: Vec<RawAttr> = match parse_attrs(entries[i].payload.as_slice()) {
            Err(err) => {
                return Err(err);
            },
            Ok(inner) => inner,
        };
        let disabled: bool = find_attr(
            inner.as_slice(),
            NL80211_FREQUENCY_ATTR_DISABLED,
        ).is_some();
        if !disabled {
            match read_u32(inner.as_slice(), NL80211_FREQUENCY_ATTR_FREQ) {
                Err(err) => {
                    return Err(err);
                },
                Ok(None) => {},
                Ok(Some(frequency)) => {
                    let ghost before = (channels@, frequencies@);
                    channels.push(entries[i].typ);
                    frequencies.push(frequency);
                    proof {
                        if let Ok(more) = frequencies_of(rest.skip(1)) {
                            assert(before.0 + (seq![rest[0].typ] + more.0) =~= channels@ + more.0);
                            assert(before.1 + (seq![frequency] + more.1) =~= frequencies@
                                + more.1);
                        }
                    }
                },
            }
        }
        i = i + 1;
    }
    assert(channels@ + Seq::<u16>::empty() =~= channels@);
    assert(frequencies@ + Seq::<u32>::empty() =~= frequencies@);
    Ok((channels, frequencies))
}

/// The band that a payload describes.
pub open spec fn band_of(band_id: u8, payload: Seq<u8>) -> Result<WifiBandView, NetlinkError> {
    match genl::attrs_in(payload) {
        Err(e) => Err(e),
        Ok(attrs) => match genl::nested_in(attrs, NL80211_BAND_ATTR_FREQS) {
            Err(e) => Err(e),
            Ok(entries) => match frequencies_of(entries) {
                Err(e) => Err(e),
                Ok((channels, frequencies)) => match genl::u16_in(attrs, NL80211_BAND_ATTR_HT_CAPA) {
                    Err(e) => Err(e),
                    Ok(ht_capabilities) => match genl::u32_in(attrs, NL80211_BAND_ATTR_VHT_CAPA) {
                        Err(e) => Err(e),
                        Ok(vht_capabilities) => Ok(
                            WifiBandView {
                                id: WifiBandId::of(band_id),
                                channels,
                                frequencies,
                                ht_capabilities,
                                vht_capabilities,
                            },
                        ),
                    },
                },
            },
        },
    }
}

/// Reads the band that a payload describes.
pub fn band_from_attrs(band_id: u8, payload: &[u8]) -> (r: Result<WifiBand, NetlinkError>)
    ensures
        match r {
            Ok(band) => band_of(band_id, payload@) == Ok::<WifiBandView, NetlinkError>(band@),
            Err(e) => band_of(band_id, payload@) == Err::<WifiBandView, NetlinkError>(e),
        },
{
    let attrs: Vec<RawAttr> = match parse_attrs(payload) {
        Err(err) => {
            return Err(err);
        },
        Ok(attrs) => attrs,
    };
    let entries: Vec<RawAttr> = match nested_attrs(attrs.as_slice(), NL80211_BAND_ATTR_FREQS) {
        Err(err) => {
            return Err(err);
        },
        Ok(entries) => entries,
    };
    let (channels, frequencies): (Vec<u16>, Vec<u32>) = match parse_frequencies(&entries) {
        Err(err) => {
            return Err(err);
        },
        Ok(lists) => lists,
    };
    let ht_capabilities: Option<u16> = match read_u16(
        attrs.as_slice(),
        NL80211_BAND_ATTR_HT_CAPA,
    ) {
        Err(err) => {
            return Err(err);
        },
        Ok(value) => value,
    };
    match read_u32(attrs.as_slice(), NL80211_BAND_ATTR_VHT_CAPA) {
        Err(err) => Err(err),
        Ok(vht_capabilities) => Ok(
            WifiBand {
                id: WifiBandId::from_u8(band_id),
                channels,
                frequencies,
                ht_capabilities,
                vht_capabilities,
            },
        ),
    }
}

/// The bands that nested attributes describe; the type of each is its id.
pub open spec fn bands_of(entries: Seq<AttrView>) -> Result<Seq<WifiBandView>, NetlinkError>
    decreases entries.len(),
{
    if entries.len() == 0 {
        Ok(Seq::empty())
    } else {
        match band_of((entries[0].typ % 256) as u8, entries[0].payload) {
            Err(e) => Err(e),
            Ok(band) => match bands_of(entries.skip(1)) {
                Err(e) => Err(e),
                Ok(more) => Ok(seq![band] + more),
            },
        }
    }
}

fn parse_bands(entries: &Vec<RawAttr>) -> (r: Result<Vec<WifiBand>, NetlinkError>)
    ensures
        match r {
            Ok(bands) => bands_of(genl::raw_views(entries@)) == Ok::<Seq<WifiBandView>, NetlinkError>(
                model::band_views(bands@),
            ),
            Err(e) => bands_of(genl::raw_views(entries@)) == Err::<Seq<WifiBandView>, NetlinkError>(e),
        },
{
    let ghost views = genl::raw_views(entries@);
    let mut bands: Vec<WifiBand> = Vec::new();
    let mut i: usize = 0;
    proof {
        assert(views.skip(0) =~= views);
        if let Ok(all) = bands_of(views) {
            assert(model::band_views(bands@) + all =~= all);
        }
    }
    while i < entries.len()
        invariant
            i <= entries@.len(),
            views == genl::raw_views(entries@),
            match bands_of(views.skip(i as int)) {
                Ok(more) => bands_of(views) == Ok::<Seq<WifiBandView>, NetlinkError>(
                    model::band_views(bands@) + more,
                ),
                Err(e) => bands_of(views) == Err::<Seq<WifiBandView>, NetlinkError>(e),
            },
        decreases entries@.len() - i,
    {
        let ghost rest = views.skip(i as int);
        let ghost before = model::band_views(bands@);
        assert(rest[0] == entries@[i as int]@);
        assert(rest.skip(1) =~= views.skip(i + 1));
        match band_from_attrs((entries[i].typ % 256) as u8, entries[i].payload.as_slice()) {
            Err(err) => {
                return Err(err);
            },
            Ok(band) => {
                let ghost seen = band@;
                bands.push(band);
                proof {
                    assert(model::band_views(bands@) =~= before.push(seen));
                    if let Ok(more) = bands_of(rest.skip(1)) {
                        assert(before + (seq![seen] + more) =~= before.push(seen) + more);
                    }
                }
            },
        }
        i = i + 1;
    }
    assert(model::band_views(bands@) + Seq::<WifiBandView>::empty() =~= model::band_views(bands@));
    Ok(bands)
}

/// The interface types that nested attributes stand for.
pub open spec fn types_of(entries: Seq<AttrView>) -> Seq<InterfaceType> {
    entries.map_values(|entry: AttrView| InterfaceType::of((entry.typ % 256) as u8))
}

fn parse_types(entries: &Vec<RawAttr>) -> (r: Vec<InterfaceType>)
    ensures
        r@ == types_of(genl::raw_views(entries@)),
{
    let mut types: Vec<InterfaceType> = Vec::new();
    let mut i: usize = 0;
    while i < entries.len()
        invariant
            i <= entries@.len(),
            types@.len() == i,
            forall|j: int|
                0 <= j < i ==> types@[j] == InterfaceType::of((entries@[j].typ % 256) as u8),
        decreases entries@.len() - i,
    {
        types.push(InterfaceType::from_u8((entries[i].typ % 256) as u8));
        i = i + 1;
    }
    assert(types@ =~= types_of(genl::raw_views(entries@)));
    types
}

/// The wiphy that attributes describe, if they give its index. One that says
/// how many names it can scan for supports scanning.
pub open spec fn wiphy_of(attrs: Seq<AttrView>) -> Result<Option<WiphyView>, NetlinkError> {
    match genl::u32_in(attrs, NL80211_ATTR_WIPHY) {
        Err(e) => Err(e),
        Ok(None) => Ok(None),
        Ok(Some(index)) => match genl::nested_in(attrs, NL80211_ATTR_SUPPORTED_IFTYPES) {
            Err(e) => Err(e),
            Ok(types) => match (match genl::find(attrs, NL80211_ATTR_CIPHER_SUITES) {
                None => Ok(Seq::empty()),
                Some(payload) => ciphers_of(payload),
            }) {
                Err(e) => Err(e),
                Ok(cipher_suites) => match genl::u8_in(attrs, NL80211_ATTR_MAX_NUM_SCAN_SSIDS) {
                    Err(e) => Err(e),
                    Ok(max) => match genl::nested_in(attrs, NL80211_ATTR_WIPHY_BANDS) {
                        Err(e) => Err(e),
                        Ok(entries) => match bands_of(entries) {
                            Err(e) => Err(e),
                            Ok(bands) => Ok(
                                Some(
                                    WiphyView {
                                        index,
                                        name: match genl::string_in(attrs, NL80211_ATTR_WIPHY_NAME) {
                                            Some(name) => name,
                                            None => Seq::empty(),
                                        },
                                        capabilities: WifiCapabilitiesView {
                                            supported_interfaces: types_of(types),
                                            cipher_suites,
                                            bands,
                                            max_scan_ssids: match max {
                                                Some(count) => Some(count as u32),
                                                None => None,
                                            },
                                            scan_supported: max is Some,
                                        },
                                    },
                                ),
                            ),
                        },
                    },
                },
            },
        },
    }
}

/// Reads the wiphy that attributes describe.
pub fn wiphy_from_attrs(attrs: &[RawAttr]) -> (r: Result<Option<WiphyInfo>, NetlinkError>)
    ensures
        match r {
            Ok(Some(wiphy)) => wiphy_of(genl::raw_views(attrs@)) == Ok::<Option<WiphyView>, NetlinkError>(
                Some(wiphy@),
            ),
            Ok(None) => wiphy_of(genl::raw_views(attrs@)) == Ok::<Option<WiphyView>, NetlinkError>(None),
            Err(e) => wiphy_of(genl::raw_views(attrs@)) == Err::<Option<WiphyView>, NetlinkError>(e),
        },
{
    let index: u32 = match read_u32(attrs, NL80211_ATTR_WIPHY) {
        Err(err) => {
            return Err(err);
        },
        Ok(None) => {
            return Ok(None);
        },
        Ok(Some(index)) => index,
    };
    let name: String = text_or_empty(read_string(attrs, NL80211_ATTR_WIPHY_NAME));
    let supported_interfaces: Vec<InterfaceType> = match nested_attrs(
        attrs,
        NL80211_ATTR_SUPPORTED_IFTYPES,
    ) {
        Err(err) => {
            return Err(err);
        },
        Ok(entries) => parse_types(&entries),
    };
    let cipher_suites: Vec<WifiCipher> = match find_attr(attrs, NL80211_ATTR_CIPHER_SUITES) {
        None => Vec::new(),
        Some(payload) => match parse_cipher_suites(payload) {
            Err(err) => {
                return Err(err);
            },
            Ok(ciphers) => ciphers,
        },
    };
    let max: Option<u8> = match read_u8(attrs, NL80211_ATTR_MAX_NUM_SCAN_SSIDS) {
        Err(err) => {
            return Err(err);
        },
        Ok(max) => max,
    };
    let bands: Vec<WifiBand> = match nested_attrs(attrs, NL80211_ATTR_WIPHY_BANDS) {
        Err(err) => {
            return Err(err);
        },
        Ok(entries) => match parse_bands(&entries) {
            Err(err) => {
                return Err(err);
            },
            Ok(bands) => bands,
        },
    };
    let max_scan_ssids: Option<u32> = match max {
        Some(count) => Some(count as u32),
        None => None,
    };
    Ok(
        Some(
            WiphyInfo {
                index,
                name,
                capabilities: WifiCapabilities {
                    supported_interfaces,
                    cipher_suites,
                    bands,
                    max_scan_ssids,
                    scan_supported: max.is_some(),
                },
            },
        ),
    )
}

/// The wiphys that the messages of a dump describe, in order.
pub open spec fn wiphys_of(messages: Seq<MsgView>) -> Result<Seq<WiphyView>, NetlinkError>
    decreases messages.len(),
{
    if messages.len() == 0 {
        Ok(Seq::empty())
    } else if messages[0].cmd != Some(NL80211_CMD_GET_WIPHY) && messages[0].cmd != Some(
        NL80211_CMD_NEW_WIPHY,
    ) {
        wiphys_of(messages.skip(1))
    } else {
        match wiphy_of(messages[0].attrs) {
            Err(e) => Err(e),
            Ok(found) => match wiphys_of(messages.skip(1)) {
                Err(e) => Err(e),
                Ok(more) => match found {
                    Some(wiphy) => Ok(seq![wiphy] + more),
                    None => Ok(more),
                },
            },
        }
    }
}

/// Reads the wiphys that the messages of a dump describe.
pub fn wiphys_from(messages: &Vec<RawMsg>) -> (r: Result<Vec<WiphyInfo>, NetlinkError>)
    ensures
        match r {
            Ok(found) => wiphys_of(genl::msg_views(messages@)) == Ok::<Seq<WiphyView>, NetlinkError>(
                wiphy_views(found@),
            ),
            Err(e) => wiphys_of(genl::msg_views(messages@)) == Err::<Seq<WiphyView>, NetlinkError>(e),
        },
{
    let ghost views = genl::msg_views(messages@);
    let mut out: Vec<WiphyInfo> = Vec::new();
    let mut i: usize = 0;
    proof {
        assert(views.skip(0) =~= views);
        if let Ok(all) = wiphys_of(views) {
            assert(wiphy_views(out@) + all =~= all);
        }
    }
    while i < messages.len()
        invariant
            i <= messages@.len(),
            views == genl::msg_views(messages@),
            match wiphys_of(views.skip(i as int)) {
                Ok(more) => wiphys_of(views) == Ok::<Seq<WiphyView>, NetlinkError>(
                    wiphy_views(out@) + more,
                ),
                Err(e) => wiphys_of(views) == Err::<Seq<WiphyView>, NetlinkError>(e),
            },
        decreases messages@.len() - i,
    {
        let ghost rest = views.skip(i as int);
        let ghost before = wiphy_views(out@);
        assert(rest[0] == messages@[i as int]@);
        assert(rest.skip(1) =~= views.skip(i + 1));
        if is_command(&messages[i], NL80211_CMD_GET_WIPHY, NL80211_CMD_NEW_WIPHY) {
            match wiphy_from_attrs(messages[i].attrs.as_slice()) {
                Err(err) => {
                    return Err(err);
                },
                Ok(None) => {},
                Ok(Some(wiphy)) => {
                    let ghost seen = wiphy@;
                    out.push(wiphy);
                    proof {
                        assert(wiphy_views(out@) =~= before.push(seen));
                        if let Ok(more) = wiphys_of(rest.skip(1)) {
                            assert(before + (seq![seen] + more) =~= before.push(seen) + more);
                        }
                    }
                },
            }
        }
        i = i + 1;
    }
    assert(wiphy_views(out@) + Seq::<WiphyView>::empty() =~= wiphy_views(out@));
    Ok(out)
}

/// Parses an nl80211 wiphy dump buffer into wiphys and capabilities.
pub fn parse_wiphy_messages(buf: &[u8]) -> (r: Result<Vec<WiphyInfo>, NetlinkError>)
    ensures
        ({
            let expected = match genl::messages_of(buf@) {
                Err(e) => Err(e),
                Ok(all) => wiphys_of(all),
            };
            match r {
                Ok(found) => expected == Ok::<Seq<WiphyView>, NetlinkError>(wiphy_views(found@)),
                Err(e) => expected == Err::<Seq<WiphyView>, NetlinkError>(e),
            }
        }),
{
    match parse_genl_messages(buf) {
        Err(err) => Err(err),
        Ok(messages) => wiphys_from(&messages),
    }
}

impl Ranked for WiphyInfo {
    open spec fn precedes(self, other: Self) -> bool {
        self.index < other.index
    }

    fn goes_before(&self, other: &Self) -> (r: bool) {
        self.index < other.index
    }

    proof fn asymmetric(a: Self, b: Self) {
    }

    proof fn transitive(a: Self, b: Self, c: Self) {
    }
}

/// Orders wiphys by index.
pub fn order_wiphys(wiphys: Vec<WiphyInfo>) -> (r: Vec<WiphyInfo>)
    ensures
        r@ == sort::stable_sort(wiphys@),
{
    sort(wiphys)
}

// --- Access points -----------------------------------------------------------------------------

/// A signal strength in whole dBm; hundredths are cut off towards zero.
pub open spec fn whole_dbm(mbm: i32) -> i32 {
    if mbm >= 0 {
        (mbm as int / 100) as i32
    } else {
        (-((-mbm) / 100)) as i32
    }
}

fn to_dbm(mbm: i32) -> (r: i32)
    ensures
        r == whole_dbm(mbm),
{
    if mbm >= 0 {
        mbm / 100
    } else {
        let size: i64 = -(mbm as i64);
        (-(size / 100)) as i32
    }
}

/// The information elements of a scan entry: those of the probe response, or
/// else those of the beacon.
pub open spec fn elements_in(bss: Seq<AttrView>) -> Option<Seq<u8>> {
    match genl::find(bss, NL80211_BSS_INFORMATION_ELEMENTS) {
        Some(payload) => Some(payload),
        None => genl::find(bss, NL80211_BSS_BEACON_IES),
    }
}

/// The access point that attributes describe, if they hold a scan entry.
pub open spec fn bss_of(attrs: Seq<AttrView>) -> Result<Option<AccessPointView>, NetlinkError> {
    match genl::find(attrs, NL80211_ATTR_BSS) {
        None => Ok(None),
        Some(payload) => match genl::attrs_in(payload) {
            Err(e) => Err(e),
            Ok(bss) => match entry_of(attrs, bss) {
                Err(e) => Err(e),
                Ok(point) => Ok(Some(point)),
            },
        },
    }
}

/// The access point that a scan entry describes. A name outside of the entry
/// goes before one among its elements.
pub open spec fn entry_of(attrs: Seq<AttrView>, bss: Seq<AttrView>) -> Result<
    AccessPointView,
    NetlinkError,
> {
    let elements = match elements_in(bss) {
        Some(octets) => octets,
        None => Seq::empty(),
    };
    match (genl::mac_in(bss, NL80211_BSS_BSSID), genl::u32_in(bss, NL80211_BSS_FREQUENCY)) {
        (Err(e), _) => Err(e),
        (_, Err(e)) => Err(e),
        (Ok(bssid), Ok(frequency)) => match (
            genl::u16_in(bss, NL80211_BSS_CAPABILITY),
            genl::i32_in(bss, NL80211_BSS_SIGNAL_MBM),
        ) {
            (Err(e), _) => Err(e),
            (_, Err(e)) => Err(e),
            (Ok(capability), Ok(mbm)) => match (
                genl::u8_in(bss, NL80211_BSS_SIGNAL_UNSPEC),
                genl::u32_in(bss, NL80211_BSS_SEEN_MS_AGO),
            ) {
                (Err(e), _) => Err(e),
                (_, Err(e)) => Err(e),
                (Ok(signal_unspecified), Ok(seen_millis_ago)) => match (
                    genl::ssid_in(attrs, NL80211_ATTR_SSID),
                    elements::scan_of(elements),
                ) {
                    (Err(e), _) => Err(e),
                    (_, Err(e)) => Err(e),
                    (Ok(name), Ok(scan)) => Ok(
                        AccessPointView {
                            bssid,
                            ssid: match name {
                                Some(octets) => Some(octets),
                                None => elements::name_in(elements),
                            },
                            frequency,
                            channel: match frequency {
                                Some(mhz) => model::channel_of(mhz),
                                None => None,
                            },
                            signal_dbm: match mbm {
                                Some(value) => Some(whole_dbm(value)),
                                None => None,
                            },
                            signal_unspecified,
                            capability,
                            security: elements::security_of(scan, capability),
                            seen_millis_ago,
                        },
                    ),
                },
            },
        },
    }
}

fn parse_entry(attrs: &[RawAttr], bss: &[RawAttr]) -> (r: Result<AccessPoint, NetlinkError>)
    ensures
        match r {
            Ok(point) => entry_of(genl::raw_views(attrs@), genl::raw_views(bss@)) == Ok::<
                AccessPointView,
                NetlinkError,
            >(point@),
            Err(e) => entry_of(genl::raw_views(attrs@), genl::raw_views(bss@)) == Err::<
                AccessPointView,
                NetlinkError,
            >(e),
        },
{
    let bssid: Option<Bssid> = match read_mac(bss, NL80211_BSS_BSSID) {
        Err(err) => {
            return Err(err);
        },
        Ok(Some(mac)) => Some(Bssid(mac)),
        Ok(None) => None,
    };
    let frequency: Option<u32> = match read_u32(bss, NL80211_BSS_FREQUENCY) {
        Err(err) => {
            return Err(err);
        },
        Ok(frequency) => frequency,
    };
    let channel: Option<u16> = match frequency {
        Some(mhz) => frequency_to_channel(mhz),
        None => None,
    };
    let capability: Option<u16> = match read_u16(bss, NL80211_BSS_CAPABILITY) {
        Err(err) => {
            return Err(err);
        },
        Ok(capability) => capability,
    };
    let signal_dbm: Option<i32> = match read_i32(bss, NL80211_BSS_SIGNAL_MBM) {
        Err(err) => {
            return Err(err);
        },
        Ok(Some(mbm)) => Some(to_dbm(mbm)),
        Ok(None) => None,
    };
    let signal_unspecified: Option<u8> = match read_u8(bss, NL80211_BSS_SIGNAL_UNSPEC) {
        Err(err) => {
            return Err(err);
        },
        Ok(signal) => signal,
    };
    let seen_millis_ago: Option<u32> = match read_u32(bss, NL80211_BSS_SEEN_MS_AGO) {
        Err(err) => {
            return Err(err);
        },
        Ok(seen) => seen,
    };
    let elements: Vec<u8> = match find_attr(bss, NL80211_BSS_INFORMATION_ELEMENTS) {
        Some(payload) => vstd::slice::slice_to_vec(payload),
        None => match find_attr(bss, NL80211_BSS_BEACON_IES) {
            Some(payload) => vstd::slice::slice_to_vec(payload),
            None => Vec::new(),
        },
    };
    let ssid: Option<Ssid> = match read_ssid(attrs, NL80211_ATTR_SSID) {
        Err(err) => {
            return Err(err);
        },
        Ok(Some(ssid)) => Some(ssid),
        Ok(None) => ssid_from_ies(elements.as_slice()),
    };
    match parse_security(elements.as_slice(), capability) {
        Err(err) => Err(err),
        Ok(security) => Ok(
            AccessPoint {
                bssid,
                ssid,
                frequency,
                channel,
                signal_dbm,
                signal_unspecified,
                capability,
                security,
                seen_millis_ago,
            },
        ),
    }
}

/// Reads the access point that attributes describe.
pub fn bss_from_attrs(attrs: &[RawAttr]) -> (r: Result<Option<AccessPoint>, NetlinkError>)
    ensures
        match r {
            Ok(Some(point)) => bss_of(genl::raw_views(attrs@)) == Ok::<
                Option<AccessPointView>,
                NetlinkError,
            >(Some(point@)),
            Ok(None) => bss_of(genl::raw_views(attrs@)) == Ok::<Option<AccessPointView>, NetlinkError>(
                None,
            ),
            Err(e) => bss_of(genl::raw_views(attrs@)) == Err::<Option<AccessPointView>, NetlinkError>(e),
        },
{
    match find_attr(attrs, NL80211_ATTR_BSS) {
        None => Ok(None),
        Some(payload) => match parse_attrs(payload) {
            Err(err) => Err(err),
            Ok(bss) => match parse_entry(attrs, bss.as_slice()) {
                Err(err) => Err(err),
                Ok(point) => Ok(Some(point)),
            },
        },
    }
}

/// The access points that the messages of a dump describe, in order.
pub open spec fn points_of(messages: Seq<MsgView>) -> Result<Seq<AccessPointView>, NetlinkError>
    decreases messages.len(),
{
    if messages.len() == 0 {
        Ok(Seq::empty())
    } else if messages[0].cmd != Some(NL80211_CMD_GET_SCAN) && messages[0].cmd != Some(
        NL80211_CMD_NEW_SCAN_RESULTS,
    ) {
        points_of(messages.skip(1))
    } else {
        match bss_of(messages[0].attrs) {
            Err(e) => Err(e),
            Ok(found) => match points_of(messages.skip(1)) {
                Err(e) => Err(e),
                Ok(more) => match found {
                    Some(point) => Ok(seq![point] + more),
                    None => Ok(more),
                },
            },
        }
    }
}

/// Reads the access points that the messages of a dump describe.
pub fn points_from(messages: &Vec<RawMsg>) -> (r: Result<Vec<AccessPoint>, NetlinkError>)
    ensures
        match r {
            Ok(found) => points_of(genl::msg_views(messages@)) == Ok::<
                Seq<AccessPointView>,
                NetlinkError,
            >(model::access_point_views(found@)),
            Err(e) => points_of(genl::msg_views(messages@)) == Err::<Seq<AccessPointView>, NetlinkError>(
                e,
            ),
        },
{
    let ghost views = genl::msg_views(messages@);
    let mut out: Vec<AccessPoint> = Vec::new();
    let mut i: usize = 0;
    proof {
        assert(views.skip(0) =~= views);
        if let Ok(all) = points_of(views) {
            assert(model::access_point_views(out@) + all =~= all);
        }
    }
    while i < messages.len()
        invariant
            i <= messages@.len(),
            views == genl::msg_views(messages@),
            match points_of(views.skip(i as int)) {
                Ok(more) => points_of(views) == Ok::<Seq<AccessPointView>, NetlinkError>(
                    model::access_point_views(out@) + more,
                ),
                Err(e) => points_of(views) == Err::<Seq<AccessPointView>, NetlinkError>(e),
            },
        decreases messages@.len() - i,
    {
        let ghost rest = views.skip(i as int);
        let ghost before = model::access_point_views(out@);
        assert(rest[0] == messages@[i as int]@);
        assert(rest.skip(1) =~= views.skip(i + 1));
        if is_command(&messages[i], NL80211_CMD_GET_SCAN, NL80211_CMD_NEW_SCAN_RESULTS) {
            match bss_from_attrs(messages[i].attrs.as_slice()) {
                Err(err) => {
                    return Err(err);
                },
                Ok(None) => {},
                Ok(Some(point)) => {
                    let ghost seen = point@;
                    out.push(point);
                    proof {
                        assert(model::access_point_views(out@) =~= before.push(seen));
                        if let Ok(more) = points_of(rest.skip(1)) {
                            assert(before + (seq![seen] + more) =~= before.push(seen) + more);
                        }
                    }
                },
            }
        }
        i = i + 1;
    }
    assert(model::access_point_views(out@) + Seq::<AccessPointView>::empty() =~= model::access_point_views(out@));
    Ok(out)
}

/// Parses an nl80211 scan dump buffer into typed access points.
pub fn parse_scan_messages(buf: &[u8]) -> (r: Result<Vec<AccessPoint>, NetlinkError>)
    ensures
        ({
            let expected = match genl::messages_of(buf@) {
                Err(e) => Err(e),
                Ok(all) => points_of(all),
            };
            match r {
                Ok(found) => expected == Ok::<Seq<AccessPointView>, NetlinkError>(
                    model::access_point_views(found@),
                ),
                Err(e) => expected == Err::<Seq<AccessPointView>, NetlinkError>(e),
            }
        }),
{
    match parse_genl_messages(buf) {
        Err(err) => Err(err),
        Ok(messages) => points_from(&messages),
    }
}

// --- Scan events --------------------------------------------------------------------------------

/// The scan event that a message announces. A frequency of zero is none.
pub open spec fn scan_event_of(message: MsgView) -> Result<Option<WifiEventView>, NetlinkError> {
    let kind = if message.cmd == Some(NL80211_CMD_NEW_SCAN_RESULTS) {
        Some(WifiEventKind::ScanResults)
    } else if message.cmd == Some(NL80211_CMD_SCAN_ABORTED) {
        Some(WifiEventKind::ScanAborted)
    } else {
        None
    };
    match kind {
        None => Ok(None),
        Some(kind) => match genl::u32_in(message.attrs, NL80211_ATTR_IFINDEX) {
            Err(e) => Err(e),
            Ok(None) => Ok(None),
            Ok(Some(index)) => match genl::u32_in(message.attrs, NL80211_ATTR_WIPHY_FREQ) {
                Err(e) => Err(e),
                Ok(frequency) => Ok(
                    Some(
                        WifiEventView {
                            kind,
                            interface_index: bytes::signed32(index as nat) as i32,
                            interface_name: None,
                            frequency: if frequency == Some(0u32) {
                                None
                            } else {
                                frequency
                            },
                        },
                    ),
                ),
            },
        },
    }
}

/// Reads the scan event that a message announces.
pub fn scan_event_from(message: &RawMsg) -> (r: Result<Option<WifiEvent>, NetlinkError>)
    ensures
        match r {
            Ok(Some(event)) => scan_event_of(message@) == Ok::<
                Option<WifiEventView>,
                NetlinkError,
            >(Some(event@)),
            Ok(None) => scan_event_of(message@) == Ok::<Option<WifiEventView>, NetlinkError>(None),
            Err(e) => scan_event_of(message@) == Err::<Option<WifiEventView>, NetlinkError>(e),
        },
{
    let kind: WifiEventKind = match message.cmd {
        Some(cmd) => {
            if cmd == NL80211_CMD_NEW_SCAN_RESULTS {
                WifiEventKind::ScanResults
            } else if cmd == NL80211_CMD_SCAN_ABORTED {
                WifiEventKind::ScanAborted
            } else {
                return Ok(None);
            }
        },
        None => {
            return Ok(None);
        },
    };
    let index: u32 = match read_u32(message.attrs.as_slice(), NL80211_ATTR_IFINDEX) {
        Err(err) => {
            return Err(err);
        },
        Ok(None) => {
            return Ok(None);
        },
        Ok(Some(index)) => index,
    };
    match read_u32(message.attrs.as_slice(), NL80211_ATTR_WIPHY_FREQ) {
        Err(err) => Err(err),
        Ok(frequency) => {
            let frequency: Option<u32> = match frequency {
                Some(mhz) => {
                    if mhz == 0 {
                        None
                    } else {
                        Some(mhz)
                    }
                },
                None => None,
            };
            Ok(
                Some(
                    WifiEvent {
                        kind,
                        interface_index: to_signed(index),
                        interface_name: None,
                        frequency,
                    },
                ),
            )
        },
    }
}

/// The scan events that messages announce, in order.
pub open spec fn scan_events_of(messages: Seq<MsgView>) -> Result<Seq<WifiEventView>, NetlinkError>
    decreases messages.len(),
{
    if messages.len() == 0 {
        Ok(Seq::empty())
    } else {
        match scan_event_of(messages[0]) {
            Err(e) => Err(e),
            Ok(found) => match scan_events_of(messages.skip(1)) {
                Err(e) => Err(e),
                Ok(more) => match found {
                    Some(event) => Ok(seq![event] + more),
                    None => Ok(more),
                },
            },
        }
    }
}

/// Parses nl80211 scan notifications (new results / aborted) from a buffer.
pub fn parse_scan_events(buf: &[u8]) -> (r: Result<Vec<WifiEvent>, NetlinkError>)
    ensures
        ({
            let expected = match genl::messages_of(buf@) {
                Err(e) => Err(e),
                Ok(all) => scan_events_of(all),
            };
            match r {
                Ok(found) => expected == Ok::<Seq<WifiEventView>, NetlinkError>(
                    model::wifi_event_views(found@),
                ),
                Err(e) => expected == Err::<Seq<WifiEventView>, NetlinkError>(e),
            }
        }),
{
    let messages: Vec<RawMsg> = match parse_genl_messages(buf) {
        Err(err) => {
            return Err(err);
        },
        Ok(messages) => messages,
    };
    let ghost views = genl::msg_views(messages@);
    let mut out: Vec<WifiEvent> = Vec::new();
    let mut i: usize = 0;
    proof {
        assert(views.skip(0) =~= views);
        if let Ok(all) = scan_events_of(views) {
            assert(model::wifi_event_views(out@) + all =~= all);
        }
    }
    while i < messages.len()
        invariant
            i <= messages@.len(),
            views == genl::msg_views(messages@),
            genl::messages_of(buf@) == Ok::<Seq<MsgView>, NetlinkError>(views),
            match scan_events_of(views.skip(i as int)) {
                Ok(more) => scan_events_of(views) == Ok::<Seq<WifiEventView>, NetlinkError>(
                    model::wifi_event_views(out@) + more,
                ),
                Err(e) => scan_events_of(views) == Err::<Seq<WifiEventView>, NetlinkError>(e),
            },
        decreases messages@.len() - i,
    {
        let ghost rest = views.skip(i as int);
        let ghost before = model::wifi_event_views(out@);
        assert(rest[0] == messages@[i as int]@);
        assert(rest.skip(1) =~= views.skip(i + 1));
        match scan_event_from(&messages[i]) {
            Err(err) => {
                return Err(err);
            },
            Ok(None) => {},
            Ok(Some(event)) => {
                let ghost seen = event@;
                out.push(event);
                proof {
                    assert(model::wifi_event_views(out@) =~= before.push(seen));
                    if let Ok(more) = scan_events_of(rest.skip(1)) {
                        assert(before + (seq![seen] + more) =~= before.push(seen) + more);
                    }
                }
            },
        }
        i = i + 1;
    }
    assert(model::wifi_event_views(out@) + Seq::<WifiEventView>::empty() =~= model::wifi_event_views(out@));
    Ok(out)
}

// --- Requests ---------------------------------------------------------------------------------------

/// The name of the family, as it goes on the wire.
pub open spec fn family_name() -> Seq<u8> {
    seq![0x6eu8, 0x6cu8, 0x38u8, 0x30u8, 0x32u8, 0x31u8, 0x31u8]
}

/// The request that resolves the nl80211 family.
pub fn family_request() -> (r: Vec<u8>)
    ensures
        r@ == genl::genl_octets(
            GENL_ID_CTRL,
            CTRL_CMD_GETFAMILY,
            REQUEST_FLAGS,
            1,
            seq![(CTRL_ATTR_FAMILY_NAME, family_name())],
        ),
{
    let name: Vec<u8> = vec![0x6e, 0x6c, 0x38, 0x30, 0x32, 0x31, 0x31];
    assert(name@ =~= family_name());
    let mut attrs: Vec<(u16, Vec<u8>)> = Vec::new();
    attrs.push((CTRL_ATTR_FAMILY_NAME, name));
    assert(netlink::attr_views(attrs@) =~= seq![(CTRL_ATTR_FAMILY_NAME, family_name())]);
    build_message(GENL_ID_CTRL, CTRL_CMD_GETFAMILY, REQUEST_FLAGS, 1, attrs.as_slice())
}

/// The request for all interfaces.
pub fn interface_request(family_id: u16) -> (r: Vec<u8>)
    ensures
        r@ == genl::genl_octets(family_id, NL80211_CMD_GET_INTERFACE, DUMP_FLAGS, 1, Seq::empty()),
{
    let attrs: Vec<(u16, Vec<u8>)> = Vec::new();
    assert(netlink::attr_views(attrs@) =~= Seq::empty());
    build_message(family_id, NL80211_CMD_GET_INTERFACE, DUMP_FLAGS, 1, attrs.as_slice())
}

/// The request for all wiphys.
pub fn wiphy_request(family_id: u16) -> (r: Vec<u8>)
    ensures
        r@ == genl::genl_octets(family_id, NL80211_CMD_GET_WIPHY, DUMP_FLAGS, 1, Seq::empty()),
{
    let attrs: Vec<(u16, Vec<u8>)> = Vec::new();
    assert(netlink::attr_views(attrs@) =~= Seq::empty());
    build_message(family_id, NL80211_CMD_GET_WIPHY, DUMP_FLAGS, 1, attrs.as_slice())
}

/// The attribute that names an interface.
pub open spec fn index_attr(ifindex: i32) -> Seq<(u16, Seq<u8>)> {
    seq![(NL80211_ATTR_IFINDEX, bytes::ne32_octets(bytes::unsigned32(ifindex as int)))]
}

fn index_attrs(ifindex: i32) -> (r: Vec<(u16, Vec<u8>)>)
    ensures
        netlink::attr_views(r@) == index_attr(ifindex),
{
    let mut attrs: Vec<(u16, Vec<u8>)> = Vec::new();
    attrs.push((NL80211_ATTR_IFINDEX, ne32_vec(to_unsigned(ifindex))));
    assert(netlink::attr_views(attrs@) =~= index_attr(ifindex));
    attrs
}

/// The request that triggers a scan on an interface.
pub fn trigger_scan_request(family_id: u16, ifindex: i32) -> (r: Vec<u8>)
    ensures
        r@ == genl::genl_octets(family_id, NL80211_CMD_TRIGGER_SCAN, ACK_FLAGS, 1, index_attr(ifindex)),
{
    let attrs: Vec<(u16, Vec<u8>)> = index_attrs(ifindex);
    build_message(family_id, NL80211_CMD_TRIGGER_SCAN, ACK_FLAGS, 1, attrs.as_slice())
}

/// The request for the scan results of an interface.
pub fn scan_request(family_id: u16, ifindex: i32) -> (r: Vec<u8>)
    ensures
        r@ == genl::genl_octets(family_id, NL80211_CMD_GET_SCAN, DUMP_FLAGS, 1, index_attr(ifindex)),
{
    let attrs: Vec<(u16, Vec<u8>)> = index_attrs(ifindex);
    build_message(family_id, NL80211_CMD_GET_SCAN, DUMP_FLAGS, 1, attrs.as_slice())
}

} // verus!
