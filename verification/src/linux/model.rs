//! What the kernel reports: links, addresses, routes, wireless interfaces and
//! access points.

use vstd::prelude::*;

use crate::bytes;
use crate::io_error::IoError;
use crate::net::IpAddr;
use crate::text;
use crate::text::{
    chars_of, concat2, concat3, decimal_text, fixed_hex_text, hex_value, signed_text, split_text,
};

verus! {

// --- Errors ---------------------------------------------------------------------

/// Errors surfaced by the Linux netlink backends.
///
/// Malformed protocol data is reported as a controlled value, so that callers
/// can decide how to react.
#[derive(Debug, PartialEq, Eq)]
pub enum NetlinkError {
    /// Underlying socket I/O failed.
    Io(IoError),
    /// The kernel returned a negative errno-style netlink error code.
    Kernel(i32),
    /// Protocol data did not conform to the expected structure.
    MalformedMessage(&'static str),
}

impl NetlinkError {
    /// What the error says of itself.
    pub open spec fn text(self) -> Seq<char> {
        match self {
            NetlinkError::Io(err) => "netlink I/O failed: "@ + err.text(),
            NetlinkError::Kernel(code) => "kernel returned netlink error "@ + text::signed_decimal(
                code as int,
            ),
            NetlinkError::MalformedMessage(msg) => "malformed netlink message: "@ + msg@,
        }
    }

    /// Describes the error.
    pub fn to_string(&self) -> (r: String)
        ensures
            r@ == self.text(),
    {
        match self {
            NetlinkError::Io(err) => concat2("netlink I/O failed: ", err.to_string().as_str()),
            NetlinkError::Kernel(code) => concat2(
                "kernel returned netlink error ",
                signed_text(*code).as_str(),
            ),
            NetlinkError::MalformedMessage(msg) => concat2("malformed netlink message: ", msg),
        }
    }
}

// --- Links and addresses -----------------------------------------------------------

/// Raw interface flags as reported by the kernel.
#[derive(Clone, Copy, Debug, PartialEq, Eq, Structural)]
pub struct LinkFlags(pub u32);

impl LinkFlags {
    /// The flags with the given bits.
    pub fn from_bits(bits: u32) -> (r: Self)
        ensures
            r == LinkFlags(bits),
    {
        LinkFlags(bits)
    }

    /// The bits of the flags.
    pub fn bits(self) -> (r: u32)
        ensures
            r == self.0,
    {
        self.0
    }

    /// Whether the lowest bit, "up", is set.
    pub open spec fn up(self) -> bool {
        self.0 % 2 == 1
    }

    /// Whether the "loopback" bit is set.
    pub open spec fn loopback(self) -> bool {
        self.0 / 8 % 2 == 1
    }

    /// Whether the interface is up.
    pub fn is_up(self) -> (r: bool)
        ensures
            r == self.up(),
    {
        let bits: u32 = self.0;
        assert((bits & 0x1 != 0) == (bits % 2 == 1)) by (bit_vector);
        bits & 0x1 != 0
    }

    /// Whether the interface is the loopback interface.
    pub fn is_loopback(self) -> (r: bool)
        ensures
            r == self.loopback(),
    {
        let bits: u32 = self.0;
        assert((bits & 0x8 != 0) == (bits / 8 % 2 == 1)) by (bit_vector);
        bits & 0x8 != 0
    }
}

/// A kernel network link.
#[derive(Debug, PartialEq, Eq)]
pub struct Link {
    pub index: i32,
    pub name: String,
    pub flags: LinkFlags,
}

/// A link, with its name as text.
#[verifier::ext_equal]
pub struct LinkView {
    pub index: i32,
    pub name: Seq<char>,
    pub flags: LinkFlags,
}

impl Link {
    pub open spec fn view(&self) -> LinkView {
        LinkView { index: self.index, name: self.name@, flags: self.flags }
    }
}

impl Clone for Link {
    fn clone(&self) -> (r: Self)
        ensures
            r == *self,
    {
        Link { index: self.index, name: self.name.clone(), flags: self.flags }
    }
}

/// The views of a list of links.
pub open spec fn link_views(links: Seq<Link>) -> Seq<LinkView> {
    links.map_values(|link: Link| link@)
}

/// A kernel interface address.
#[derive(Clone, Copy, Debug, PartialEq, Eq, Structural)]
pub struct Address {
    pub interface_index: u32,
    pub address: IpAddr,
    pub prefix_length: u8,
}

// --- Routes ----------------------------------------------------------------------------

/// The address family of a route.
#[derive(Clone, Copy, Debug, PartialEq, Eq, PartialOrd, Ord, Structural)]
pub enum IpFamily {
    V4,
    V6,
}

/// What a route does with the packets that it matches.
#[derive(Clone, Copy, Debug, PartialEq, Eq, Structural)]
pub enum RouteKind {
    Unspecified,
    Unicast,
    Local,
    Broadcast,
    Anycast,
    Multicast,
    Blackhole,
    Unreachable,
    Prohibit,
    Throw,
    Nat,
    Other(u8),
}

impl RouteKind {
    /// The kind with the given kernel number.
    pub open spec fn of(value: u8) -> Self {
        match value {
            0 => RouteKind::Unspecified,
            1 => RouteKind::Unicast,
            2 => RouteKind::Local,
            3 => RouteKind::Broadcast,
            4 => RouteKind::Anycast,
            5 => RouteKind::Multicast,
            6 => RouteKind::Blackhole,
            7 => RouteKind::Unreachable,
            8 => RouteKind::Prohibit,
            9 => RouteKind::Throw,
            10 => RouteKind::Nat,
            other => RouteKind::Other(other),
        }
    }

    /// The kernel number of the kind.
    pub open spec fn number(self) -> u8 {
        match self {
            RouteKind::Unspecified => 0,
            RouteKind::Unicast => 1,
            RouteKind::Local => 2,
            RouteKind::Broadcast => 3,
            RouteKind::Anycast => 4,
            RouteKind::Multicast => 5,
            RouteKind::Blackhole => 6,
            RouteKind::Unreachable => 7,
            RouteKind::Prohibit => 8,
            RouteKind::Throw => 9,
            RouteKind::Nat => 10,
            RouteKind::Other(value) => value,
        }
    }

    /// The kind with the given kernel number.
    pub fn from_u8(value: u8) -> (r: Self)
        ensures
            r == RouteKind::of(value),
    {
        match value {
            0 => RouteKind::Unspecified,
            1 => RouteKind::Unicast,
            2 => RouteKind::Local,
            3 => RouteKind::Broadcast,
            4 => RouteKind::Anycast,
            5 => RouteKind::Multicast,
            6 => RouteKind::Blackhole,
            7 => RouteKind::Unreachable,
            8 => RouteKind::Prohibit,
            9 => RouteKind::Throw,
            10 => RouteKind::Nat,
            other => RouteKind::Other(other),
        }
    }

    /// The kernel number of the kind.
    pub fn as_u8(self) -> (r: u8)
        ensures
            r == self.number(),
    {
        match self {
            RouteKind::Unspecified => 0,
            RouteKind::Unicast => 1,
            RouteKind::Local => 2,
            RouteKind::Broadcast => 3,
            RouteKind::Anycast => 4,
            RouteKind::Multicast => 5,
            RouteKind::Blackhole => 6,
            RouteKind::Unreachable => 7,
            RouteKind::Prohibit => 8,
            RouteKind::Throw => 9,
            RouteKind::Nat => 10,
            RouteKind::Other(value) => value,
        }
    }
}

/// How far away the destination of a route is.
#[derive(Clone, Copy, Debug, PartialEq, Eq, Structural)]
pub enum RouteScope {
    Universe,
    Site,
    Link,
    Host,
    Nowhere,
    Other(u8),
}

impl RouteScope {
    /// The scope with the given kernel number.
    pub open spec fn of(value: u8) -> Self {
        match value {
            0 => RouteScope::Universe,
            200 => RouteScope::Site,
            253 => RouteScope::Link,
            254 => RouteScope::Host,
            255 => RouteScope::Nowhere,
            other => RouteScope::Other(other),
        }
    }

    /// The kernel number of the scope.
    pub open spec fn number(self) -> u8 {
        match self {
            RouteScope::Universe => 0,
            RouteScope::Site => 200,
            RouteScope::Link => 253,
            RouteScope::Host => 254,
            RouteScope::Nowhere => 255,
            RouteScope::Other(value) => value,
        }
    }

    /// The scope with the given kernel number.
    pub fn from_u8(value: u8) -> (r: Self)
        ensures
            r == RouteScope::of(value),
    {
        match value {
            0 => RouteScope::Universe,
            200 => RouteScope::Site,
            253 => RouteScope::Link,
            254 => RouteScope::Host,
            255 => RouteScope::Nowhere,
            other => RouteScope::Other(other),
        }
    }

    /// The kernel number of the scope.
    pub fn as_u8(self) -> (r: u8)
        ensures
            r == self.number(),
    {
        match self {
            RouteScope::Universe => 0,
            RouteScope::Site => 200,
            RouteScope::Link => 253,
            RouteScope::Host => 254,
            RouteScope::Nowhere => 255,
            RouteScope::Other(value) => value,
        }
    }
}

/// The number of a kernel route kind or scope survives being read.
pub proof fn lemma_route_numbers(value: u8)
    ensures
        RouteKind::of(value).number() == value,
        RouteScope::of(value).number() == value,
{
}

/// A kernel route.
#[derive(Clone, Copy, Debug, PartialEq, Eq, Structural)]
pub struct Route {
    pub family: IpFamily,
    pub destination: IpAddr,
    pub prefix_length: u8,
    pub gateway: Option<IpAddr>,
    pub output_interface: Option<i32>,
    pub metric: Option<u32>,
    pub kind: RouteKind,
    pub scope: RouteScope,
}

impl Route {
    /// Whether the route matches every destination.
    pub open spec fn default_route(self) -> bool {
        self.prefix_length == 0 && match self.destination {
            IpAddr::V4(a) => a.bits == 0,
            IpAddr::V6(a) => a.bits == 0,
        }
    }

    /// Whether the route matches every destination.
    pub fn is_default(&self) -> (r: bool)
        ensures
            r == self.default_route(),
    {
        self.prefix_length == 0 && match self.destination {
            IpAddr::V4(a) => a.is_unspecified(),
            IpAddr::V6(a) => a.is_unspecified(),
        }
    }
}

// --- Events ------------------------------------------------------------------------------

/// How a link changed.
#[derive(Clone, Copy, Debug, PartialEq, Eq, Structural)]
pub enum LinkEventKind {
    Created,
    Removed,
    Changed,
}

/// A link was created, removed or changed.
#[derive(Debug, PartialEq, Eq)]
pub struct LinkEvent {
    pub kind: LinkEventKind,
    pub link: Link,
}

impl Clone for LinkEvent {
    fn clone(&self) -> (r: Self)
        ensures
            r == *self,
    {
        LinkEvent { kind: self.kind, link: self.link.clone() }
    }
}

/// How an address changed.
#[derive(Clone, Copy, Debug, PartialEq, Eq, Structural)]
pub enum AddressEventKind {
    Added,
    Removed,
}

/// An address was added or removed.
#[derive(Clone, Copy, Debug, PartialEq, Eq, Structural)]
pub struct AddressEvent {
    pub kind: AddressEventKind,
    pub address: Address,
}

/// How a route changed.
#[derive(Clone, Copy, Debug, PartialEq, Eq, Structural)]
pub enum RouteEventKind {
    Added,
    Removed,
    Changed,
}

/// A route was added, removed or changed.
#[derive(Clone, Copy, Debug, PartialEq, Eq, Structural)]
pub struct RouteEvent {
    pub kind: RouteEventKind,
    pub route: Route,
}

/// How a scan ended.
#[derive(Clone, Copy, Debug, PartialEq, Eq, Structural)]
pub enum WifiEventKind {
    ScanResults,
    ScanAborted,
}

/// A scan ended on a wireless interface.
#[derive(Debug, PartialEq, Eq)]
pub struct WifiEvent {
    pub kind: WifiEventKind,
    pub interface_index: i32,
    pub interface_name: Option<String>,
    pub frequency: Option<u32>,
}

/// A scan event, with its interface name as text.
#[verifier::ext_equal]
pub struct WifiEventView {
    pub kind: WifiEventKind,
    pub interface_index: i32,
    pub interface_name: Option<Seq<char>>,
    pub frequency: Option<u32>,
}

impl WifiEvent {
    pub open spec fn view(&self) -> WifiEventView {
        WifiEventView {
            kind: self.kind,
            interface_index: self.interface_index,
            interface_name: text::text_view(self.interface_name),
            frequency: self.frequency,
        }
    }
}

impl Clone for WifiEvent {
    fn clone(&self) -> (r: Self)
        ensures
            r == *self,
    {
        WifiEvent {
            kind: self.kind,
            interface_index: self.interface_index,
            interface_name: crate::text::copy_text(&self.interface_name),
            frequency: self.frequency,
        }
    }
}

/// The views of a list of scan events.
pub open spec fn wifi_event_views(events: Seq<WifiEvent>) -> Seq<WifiEventView> {
    events.map_values(|event: WifiEvent| event@)
}

/// Typed network events emitted by the daemon's event sources.
#[derive(Debug, PartialEq, Eq)]
pub enum NetworkEvent {
    Link(LinkEvent),
    Address(AddressEvent),
    Route(RouteEvent),
    Wifi(WifiEvent),
}

/// A network event, with its texts as sequences of characters.
#[verifier::ext_equal]
pub enum NetworkEventView {
    Link(LinkEventKind, LinkView),
    Address(AddressEvent),
    Route(RouteEvent),
    Wifi(WifiEventView),
}

impl NetworkEvent {
    pub open spec fn view(&self) -> NetworkEventView {
        match self {
            NetworkEvent::Link(event) => NetworkEventView::Link(event.kind, event.link@),
            NetworkEvent::Address(event) => NetworkEventView::Address(*event),
            NetworkEvent::Route(event) => NetworkEventView::Route(*event),
            NetworkEvent::Wifi(event) => NetworkEventView::Wifi(event@),
        }
    }
}

impl Clone for NetworkEvent {
    fn clone(&self) -> (r: Self)
        ensures
            r == *self,
    {
        match self {
            NetworkEvent::Link(event) => NetworkEvent::Link(event.clone()),
            NetworkEvent::Address(event) => NetworkEvent::Address(*event),
            NetworkEvent::Route(event) => NetworkEvent::Route(*event),
            NetworkEvent::Wifi(event) => NetworkEvent::Wifi(event.clone()),
        }
    }
}

/// The views of a list of events.
pub open spec fn event_views(events: Seq<NetworkEvent>) -> Seq<NetworkEventView> {
    events.map_values(|event: NetworkEvent| event@)
}

// --- Channels ------------------------------------------------------------------------------

/// The 802.11 channel whose center frequency is given in MHz.
pub open spec fn channel_of(freq_mhz: u32) -> Option<u16> {
    if 2412 <= freq_mhz <= 2472 {
        Some(((freq_mhz - 2407) / 5) as u16)
    } else if freq_mhz == 2484 {
        Some(14)
    } else if 5000 <= freq_mhz <= 5895 {
        Some(((freq_mhz - 5000) / 5) as u16)
    } else if 5955 <= freq_mhz <= 7115 {
        Some(((freq_mhz - 5950) / 5) as u16)
    } else {
        None
    }
}

/// Maps a center frequency in MHz to the 802.11 channel number.
pub fn frequency_to_channel(freq_mhz: u32) -> (r: Option<u16>)
    ensures
        r == channel_of(freq_mhz),
{
    if 2412 <= freq_mhz && freq_mhz <= 2472 {
        Some(((freq_mhz - 2407) / 5) as u16)
    } else if freq_mhz == 2484 {
        Some(14)
    } else if 5000 <= freq_mhz && freq_mhz <= 5895 {
        Some(((freq_mhz - 5000) / 5) as u16)
    } else if 5955 <= freq_mhz && freq_mhz <= 7115 {
        Some(((freq_mhz - 5950) / 5) as u16)
    } else {
        None
    }
}

// --- Hardware addresses ------------------------------------------------------------------------

/// A 48-bit hardware address as six two-digit groups between colons.
pub open spec fn mac_text(mac: Seq<u8>) -> Seq<char> {
    text::join(mac.map_values(|b: u8| text::fixed_hex(b as nat, 2)), ':')
}

/// Writes a 48-bit hardware address.
pub fn format_mac_address(mac: &[u8; 6]) -> (r: String)
    ensures
        r@ == mac_text(mac@),
{
    let mut out: String = fixed_hex_text(mac[0] as u64, 2);
    out.push(':');
    out.append(fixed_hex_text(mac[1] as u64, 2).as_str());
    out.push(':');
    out.append(fixed_hex_text(mac[2] as u64, 2).as_str());
    out.push(':');
    out.append(fixed_hex_text(mac[3] as u64, 2).as_str());
    out.push(':');
    out.append(fixed_hex_text(mac[4] as u64, 2).as_str());
    out.push(':');
    out.append(fixed_hex_text(mac[5] as u64, 2).as_str());
    proof {
        let p = mac@.map_values(|b: u8| text::fixed_hex(b as nat, 2));
        let p1 = p.skip(1);
        let p2 = p1.skip(1);
        let p3 = p2.skip(1);
        let p4 = p3.skip(1);
        let p5 = p4.skip(1);
        assert(p5 =~= seq![p[5]]);
        assert(text::join(p5, ':') == p[5]);
        assert(text::join(p4, ':') =~= p[4].push(':') + p[5]);
        assert(text::join(p3, ':') =~= p[3].push(':') + text::join(p4, ':'));
        assert(text::join(p2, ':') =~= p[2].push(':') + text::join(p3, ':'));
        assert(text::join(p1, ':') =~= p[1].push(':') + text::join(p2, ':'));
        assert(out@ =~= text::join(p, ':'));
    }
    out
}

/// The octet that two hexadecimal digits stand for.
pub open spec fn hex_octet(s: Seq<char>) -> Option<u8> {
    if s.len() == 2 && text::hex_digit_value(s[0]) is Some && text::hex_digit_value(s[1]) is Some {
        Some((16 * (text::hex_digit_value(s[0])->0) + text::hex_digit_value(s[1])->0) as u8)
    } else {
        None
    }
}

/// Whether `mac` is the address that six two-digit groups between colons
/// stand for.
pub open spec fn is_mac_of(s: Seq<char>, mac: Seq<u8>) -> bool {
    let pieces = text::split(s, ':');
    pieces.len() == 6 && mac.len() == 6 && forall|i: int|
        0 <= i < 6 ==> hex_octet(#[trigger] pieces[i]) == Some(mac[i])
}

/// Reads a 48-bit hardware address.
pub fn parse_mac_address(text: &str) -> (r: Option<[u8; 6]>)
    ensures
        match r {
            Some(mac) => is_mac_of(text@, mac@),
            None => forall|mac: Seq<u8>| !is_mac_of(text@, mac),
        },
{
    let pieces: Vec<Vec<char>> = split_text(chars_of(text).as_slice(), ':');
    let ghost texts = text::char_views(pieces@);
    if pieces.len() != 6 {
        return None;
    }
    let mut mac: [u8; 6] = [0; 6];
    let mut i: usize = 0;
    while i < 6
        invariant
            i <= 6,
            pieces@.len() == 6,
            texts == text::char_views(pieces@),
            texts == text::split(text@, ':'),
            forall|j: int| 0 <= j < i ==> hex_octet(#[trigger] texts[j]) == Some(mac@[j]),
        decreases 6 - i,
    {
        let piece: &Vec<char> = &pieces[i];
        assert(texts[i as int] == piece@);
        if piece.len() != 2 {
            return None;
        }
        match (hex_value(piece[0]), hex_value(piece[1])) {
            (Some(high), Some(low)) => {
                mac[i] = 16 * high + low;
            },
            _ => {
                return None;
            },
        }
        i = i + 1;
    }
    Some(mac)
}

/// Reading what was written gives the hardware address.
pub proof fn lemma_mac_text(mac: Seq<u8>)
    requires
        mac.len() == 6,
    ensures
        is_mac_of(mac_text(mac), mac),
{
    let p = mac.map_values(|b: u8| text::fixed_hex(b as nat, 2));
    assert forall|i: int| 0 <= i < 6 implies !(#[trigger] p[i]).contains(':') && hex_octet(p[i])
        == Some(mac[i]) by {
        lemma_octet_hex(mac[i]);
    }
    text::lemma_split_join(p, ':');
}

proof fn lemma_octet_hex(b: u8)
    ensures
        !text::fixed_hex(b as nat, 2).contains(':'),
        hex_octet(text::fixed_hex(b as nat, 2)) == Some(b),
{
    let n = b as nat;
    reveal_with_fuel(text::fixed_hex, 3);
    text::lemma_hex_digit(n / 16);
    text::lemma_hex_digit(n % 16);
    let s = text::fixed_hex(n, 2);
    assert(s.len() == 2);
    assert(n / 16 % 16 == n / 16);
    assert forall|i: int| 0 <= i < 2 implies s[i] != ':' by {
        assert(text::hex_digit_value(s[i]) is Some);
    }
}

/// A text stands for at most one hardware address.
pub proof fn lemma_mac_unique(s: Seq<char>, a: Seq<u8>, b: Seq<u8>)
    requires
        is_mac_of(s, a),
        is_mac_of(s, b),
    ensures
        a == b,
{
    let pieces = text::split(s, ':');
    assert forall|i: int| 0 <= i < 6 implies a[i] == b[i] by {
        assert(hex_octet(pieces[i]) == Some(a[i]));
    }
    assert(a =~= b);
}

// --- Wireless ------------------------------------------------------------------------------------

/// An 802.11 service set identifier (0..32 octets).
///
/// SSIDs are octet strings and are not required to be valid UTF-8, so the raw
/// bytes are preserved and a display form is derived on demand.
#[derive(Debug, PartialEq, Eq, Hash)]
pub struct Ssid(pub Vec<u8>);

/// Octets as text, each one that is not printable ASCII, and the backslash,
/// written as `\xNN`.
pub open spec fn escaped(octets: Seq<u8>) -> Seq<char>
    decreases octets.len(),
{
    if octets.len() == 0 {
        Seq::empty()
    } else {
        let b = octets.last();
        escaped(octets.drop_last()) + (if 0x20 <= b <= 0x7e && b != 0x5c {
            seq![b as char]
        } else {
            "\\x"@ + text::fixed_hex(b as nat, 2)
        })
    }
}

impl Ssid {
    pub open spec fn view(&self) -> Seq<u8> {
        self.0@
    }

    /// The identifier with the given octets, if there are at most 32.
    pub fn from_bytes(bytes: &[u8]) -> (r: Option<Self>)
        ensures
            match r {
                Some(ssid) => bytes@.len() <= 32 && ssid@ == bytes@,
                None => bytes@.len() > 32,
            },
    {
        if bytes.len() <= 32 {
            Some(Ssid(vstd::slice::slice_to_vec(bytes)))
        } else {
            None
        }
    }

    /// The octets of the identifier.
    pub fn as_bytes(&self) -> (r: &[u8])
        ensures
            r@ == self@,
    {
        self.0.as_slice()
    }

    /// The human-readable form.
    pub open spec fn text(self) -> Seq<char> {
        if self@.len() == 0 {
            "(hidden)"@
        } else {
            escaped(self@)
        }
    }

    /// Human-readable form with non-printable octets escaped as `\xNN`.
    pub fn display_string(&self) -> (r: String)
        ensures
            r@ == self.text(),
    {
        if self.0.is_empty() {
            return "(hidden)".to_owned();
        }
        let mut out: String = String::new();
        let mut i: usize = 0;
        assert(self@.take(0) =~= Seq::<u8>::empty());
        assert(out@ =~= escaped(self@.take(0)));
        while i < self.0.len()
            invariant
                i <= self@.len(),
                out@ == escaped(self@.take(i as int)),
            decreases self@.len() - i,
        {
            let byte: u8 = self.0[i];
            let ghost before = out@;
            if 0x20 <= byte && byte <= 0x7e && byte != 0x5c {
                out.push(byte as char);
                assert(out@ =~= before + seq![byte as char]);
            } else {
                out.append("\\x");
                out.append(fixed_hex_text(byte as u64, 2).as_str());
                assert(out@ =~= before + ("\\x"@ + text::fixed_hex(byte as nat, 2)));
            }
            i = i + 1;
            assert(self@.take(i as int).drop_last() =~= self@.take(i - 1));
        }
        assert(self@.take(i as int) =~= self@);
        out
    }

    /// The human-readable form.
    pub fn to_string(&self) -> (r: String)
        ensures
            r@ == self.text(),
    {
        self.display_string()
    }
}

impl Clone for Ssid {
    fn clone(&self) -> (r: Self)
        ensures
            r@ == self@,
    {
        Ssid(vstd::slice::slice_to_vec(self.0.as_slice()))
    }
}

/// The view of an optional SSID.
pub open spec fn ssid_view(ssid: Option<Ssid>) -> Option<Seq<u8>> {
    match ssid {
        Some(value) => Some(value@),
        None => None,
    }
}

/// An 802.11 basic service set identifier (48-bit MAC address).
#[derive(Clone, Copy, Debug, PartialEq, Eq, PartialOrd, Ord, Hash)]
pub struct Bssid(pub [u8; 6]);

impl Bssid {
    /// The octets of the identifier.
    pub fn as_bytes(&self) -> (r: &[u8; 6])
        ensures
            *r == self.0,
    {
        &self.0
    }

    /// Writes the identifier as six groups between colons.
    pub fn to_string(&self) -> (r: String)
        ensures
            r@ == mac_text(self.0@),
    {
        format_mac_address(&self.0)
    }
}

/// nl80211 interface mode.
#[derive(Clone, Copy, Debug, PartialEq, Eq, Structural)]
pub enum InterfaceType {
    Unspecified,
    Adhoc,
    Station,
    Ap,
    ApVlan,
    Wds,
    Monitor,
    MeshPoint,
    P2pClient,
    P2pGo,
    P2pDevice,
    Ocb,
    Nan,
    NanData,
    Other(u8),
}

impl InterfaceType {
    /// The mode with the given kernel number.
    pub open spec fn of(value: u8) -> Self {
        match value {
            0 => InterfaceType::Unspecified,
            1 => InterfaceType::Adhoc,
            2 => InterfaceType::Station,
            3 => InterfaceType::Ap,
            4 => InterfaceType::ApVlan,
            5 => InterfaceType::Wds,
            6 => InterfaceType::Monitor,
            7 => InterfaceType::MeshPoint,
            8 => InterfaceType::P2pClient,
            9 => InterfaceType::P2pGo,
            10 => InterfaceType::P2pDevice,
            11 => InterfaceType::Ocb,
            12 => InterfaceType::Nan,
            13 => InterfaceType::NanData,
            other => InterfaceType::Other(other),
        }
    }

    /// The mode with the given kernel number.
    pub fn from_u8(value: u8) -> (r: Self)
        ensures
            r == InterfaceType::of(value),
    {
        match value {
            0 => InterfaceType::Unspecified,
            1 => InterfaceType::Adhoc,
            2 => InterfaceType::Station,
            3 => InterfaceType::Ap,
            4 => InterfaceType::ApVlan,
            5 => InterfaceType::Wds,
            6 => InterfaceType::Monitor,
            7 => InterfaceType::MeshPoint,
            8 => InterfaceType::P2pClient,
            9 => InterfaceType::P2pGo,
            10 => InterfaceType::P2pDevice,
            11 => InterfaceType::Ocb,
            12 => InterfaceType::Nan,
            13 => InterfaceType::NanData,
            other => InterfaceType::Other(other),
        }
    }

    /// The name of the mode.
    pub open spec fn text(self) -> Seq<char> {
        match self {
            InterfaceType::Unspecified => "unspecified"@,
            InterfaceType::Adhoc => "adhoc"@,
            InterfaceType::Station => "station"@,
            InterfaceType::Ap => "access-point"@,
            InterfaceType::ApVlan => "ap-vlan"@,
            InterfaceType::Wds => "wds"@,
            InterfaceType::Monitor => "monitor"@,
            InterfaceType::MeshPoint => "mesh-point"@,
            InterfaceType::P2pClient => "p2p-client"@,
            InterfaceType::P2pGo => "p2p-group-owner"@,
            InterfaceType::P2pDevice => "p2p-device"@,
            InterfaceType::Ocb => "ocb"@,
            InterfaceType::Nan => "nan"@,
            InterfaceType::NanData => "nan-data"@,
            InterfaceType::Other(value) => "unknown("@ + text::decimal(value as nat) + ")"@,
        }
    }

    /// Names the mode.
    pub fn to_string(&self) -> (r: String)
        ensures
            r@ == self.text(),
    {
        match self {
            InterfaceType::Unspecified => "unspecified".to_owned(),
            InterfaceType::Adhoc => "adhoc".to_owned(),
            InterfaceType::Station => "station".to_owned(),
            InterfaceType::Ap => "access-point".to_owned(),
            InterfaceType::ApVlan => "ap-vlan".to_owned(),
            InterfaceType::Wds => "wds".to_owned(),
            InterfaceType::Monitor => "monitor".to_owned(),
            InterfaceType::MeshPoint => "mesh-point".to_owned(),
            InterfaceType::P2pClient => "p2p-client".to_owned(),
            InterfaceType::P2pGo => "p2p-group-owner".to_owned(),
            InterfaceType::P2pDevice => "p2p-device".to_owned(),
            InterfaceType::Ocb => "ocb".to_owned(),
            InterfaceType::Nan => "nan".to_owned(),
            InterfaceType::NanData => "nan-data".to_owned(),
            InterfaceType::Other(value) => concat3(
                "unknown(",
                decimal_text(*value as u64).as_str(),
                ")",
            ),
        }
    }
}

/// 802.11 radio band identifiers reported by nl80211.
#[derive(Clone, Copy, Debug, PartialEq, Eq, Structural)]
pub enum WifiBandId {
    Ghz2,
    Ghz5,
    Ghz60,
    Ghz6,
    SubGhz,
    Lc,
    Other(u8),
}

impl WifiBandId {
    /// The band with the given kernel number.
    pub open spec fn of(value: u8) -> Self {
        match value {
            0 => WifiBandId::Ghz2,
            1 => WifiBandId::Ghz5,
            2 => WifiBandId::Ghz60,
            3 => WifiBandId::Ghz6,
            4 => WifiBandId::SubGhz,
            5 => WifiBandId::Lc,
            other => WifiBandId::Other(other),
        }
    }

    /// The band with the given kernel number.
    pub fn from_u8(value: u8) -> (r: Self)
        ensures
            r == WifiBandId::of(value),
    {
        match value {
            0 => WifiBandId::Ghz2,
            1 => WifiBandId::Ghz5,
            2 => WifiBandId::Ghz60,
            3 => WifiBandId::Ghz6,
            4 => WifiBandId::SubGhz,
            5 => WifiBandId::Lc,
            other => WifiBandId::Other(other),
        }
    }

    /// The name of the band.
    pub open spec fn text(self) -> Seq<char> {
        match self {
            WifiBandId::Ghz2 => "2.4GHz"@,
            WifiBandId::Ghz5 => "5GHz"@,
            WifiBandId::Ghz60 => "60GHz"@,
            WifiBandId::Ghz6 => "6GHz"@,
            WifiBandId::SubGhz => "sub-GHz"@,
            WifiBandId::Lc => "light-communication"@,
            WifiBandId::Other(value) => "band("@ + text::decimal(value as nat) + ")"@,
        }
    }

    /// Names the band.
    pub fn to_string(&self) -> (r: String)
        ensures
            r@ == self.text(),
    {
        match self {
            WifiBandId::Ghz2 => "2.4GHz".to_owned(),
            WifiBandId::Ghz5 => "5GHz".to_owned(),
            WifiBandId::Ghz60 => "60GHz".to_owned(),
            WifiBandId::Ghz6 => "6GHz".to_owned(),
            WifiBandId::SubGhz => "sub-GHz".to_owned(),
            WifiBandId::Lc => "light-communication".to_owned(),
            WifiBandId::Other(value) => concat3("band(", decimal_text(*value as u64).as_str(), ")"),
        }
    }
}

/// A single 802.11 operating band with the channels/frequencies it supports.
#[derive(Debug, PartialEq, Eq)]
pub struct WifiBand {
    pub id: WifiBandId,
    pub channels: Vec<u16>,
    pub frequencies: Vec<u32>,
    pub ht_capabilities: Option<u16>,
    pub vht_capabilities: Option<u32>,
}

/// A band, with its lists as sequences.
#[verifier::ext_equal]
pub struct WifiBandView {
    pub id: WifiBandId,
    pub channels: Seq<u16>,
    pub frequencies: Seq<u32>,
    pub ht_capabilities: Option<u16>,
    pub vht_capabilities: Option<u32>,
}

impl WifiBand {
    pub open spec fn view(&self) -> WifiBandView {
        WifiBandView {
            id: self.id,
            channels: self.channels@,
            frequencies: self.frequencies@,
            ht_capabilities: self.ht_capabilities,
            vht_capabilities: self.vht_capabilities,
        }
    }
}

impl Clone for WifiBand {
    fn clone(&self) -> (r: Self)
        ensures
            r@ == self@,
    {
        WifiBand {
            id: self.id,
            channels: vstd::slice::slice_to_vec(self.channels.as_slice()),
            frequencies: vstd::slice::slice_to_vec(self.frequencies.as_slice()),
            ht_capabilities: self.ht_capabilities,
            vht_capabilities: self.vht_capabilities,
        }
    }
}

/// The views of a list of bands.
pub open spec fn band_views(bands: Seq<WifiBand>) -> Seq<WifiBandView> {
    bands.map_values(|band: WifiBand| band@)
}

/// IEEE 802.11 cipher suites (well-known OUI 00-0F-AC values).
#[derive(Clone, Copy, Debug, PartialEq, Eq, Structural)]
pub enum WifiCipher {
    Wep40,
    Wep104,
    Tkip,
    Ccmp,
    Ccmp256,
    Gcmp,
    Gcmp256,
    AesCmac,
    BipCmac256,
    BipGmac128,
    BipGmac256,
    WapiSms4,
    Other(u32),
}

impl WifiCipher {
    /// The suite with the given number.
    pub open spec fn of(value: u32) -> Self {
        match value {
            0x000FAC01 => WifiCipher::Wep40,
            0x000FAC05 => WifiCipher::Wep104,
            0x000FAC02 => WifiCipher::Tkip,
            0x000FAC04 => WifiCipher::Ccmp,
            0x000FAC0A => WifiCipher::Ccmp256,
            0x000FAC08 => WifiCipher::Gcmp,
            0x000FAC09 => WifiCipher::Gcmp256,
            0x000FAC06 => WifiCipher::AesCmac,
            0x000FAC0B => WifiCipher::BipCmac256,
            0x000FAC0C => WifiCipher::BipGmac128,
            0x000FAC0D => WifiCipher::BipGmac256,
            0x00147201 => WifiCipher::WapiSms4,
            other => WifiCipher::Other(other),
        }
    }

    /// The suite with the given number.
    pub fn from_u32(value: u32) -> (r: Self)
        ensures
            r == WifiCipher::of(value),
    {
        match value {
            0x000FAC01 => WifiCipher::Wep40,
            0x000FAC05 => WifiCipher::Wep104,
            0x000FAC02 => WifiCipher::Tkip,
            0x000FAC04 => WifiCipher::Ccmp,
            0x000FAC0A => WifiCipher::Ccmp256,
            0x000FAC08 => WifiCipher::Gcmp,
            0x000FAC09 => WifiCipher::Gcmp256,
            0x000FAC06 => WifiCipher::AesCmac,
            0x000FAC0B => WifiCipher::BipCmac256,
            0x000FAC0C => WifiCipher::BipGmac128,
            0x000FAC0D => WifiCipher::BipGmac256,
            0x00147201 => WifiCipher::WapiSms4,
            other => WifiCipher::Other(other),
        }
    }

    /// The short name of the suite.
    pub open spec fn name(self) -> Seq<char> {
        match self {
            WifiCipher::Wep40 => "WEP-40"@,
            WifiCipher::Wep104 => "WEP-104"@,
            WifiCipher::Tkip => "TKIP"@,
            WifiCipher::Ccmp => "CCMP"@,
            WifiCipher::Ccmp256 => "CCMP-256"@,
            WifiCipher::Gcmp => "GCMP"@,
            WifiCipher::Gcmp256 => "GCMP-256"@,
            WifiCipher::AesCmac => "AES-CMAC"@,
            WifiCipher::BipCmac256 => "BIP-CMAC-256"@,
            WifiCipher::BipGmac128 => "BIP-GMAC-128"@,
            WifiCipher::BipGmac256 => "BIP-GMAC-256"@,
            WifiCipher::WapiSms4 => "WAPI-SMS4"@,
            WifiCipher::Other(_) => "other"@,
        }
    }

    /// The short name of the suite.
    pub fn as_str(self) -> (r: &'static str)
        ensures
            r@ == self.name(),
    {
        match self {
            WifiCipher::Wep40 => "WEP-40",
            WifiCipher::Wep104 => "WEP-104",
            WifiCipher::Tkip => "TKIP",
            WifiCipher::Ccmp => "CCMP",
            WifiCipher::Ccmp256 => "CCMP-256",
            WifiCipher::Gcmp => "GCMP",
            WifiCipher::Gcmp256 => "GCMP-256",
            WifiCipher::AesCmac => "AES-CMAC",
            WifiCipher::BipCmac256 => "BIP-CMAC-256",
            WifiCipher::BipGmac128 => "BIP-GMAC-128",
            WifiCipher::BipGmac256 => "BIP-GMAC-256",
            WifiCipher::WapiSms4 => "WAPI-SMS4",
            WifiCipher::Other(_) => "other",
        }
    }

    /// The name of the suite, with the number of one that has no name.
    pub open spec fn text(self) -> Seq<char> {
        match self {
            WifiCipher::Other(value) => "other(0x"@ + text::fixed_hex(value as nat, 8) + ")"@,
            _ => self.name(),
        }
    }

    /// Names the suite.
    pub fn to_string(&self) -> (r: String)
        ensures
            r@ == self.text(),
    {
        match self {
            WifiCipher::Other(value) => concat3(
                "other(0x",
                fixed_hex_text(*value as u64, 8).as_str(),
                ")",
            ),
            _ => self.as_str().to_owned(),
        }
    }
}

/// A wiphy's Wi-Fi capabilities as advertised through nl80211.
#[derive(Debug, PartialEq, Eq)]
pub struct WifiCapabilities {
    pub supported_interfaces: Vec<InterfaceType>,
    pub cipher_suites: Vec<WifiCipher>,
    pub bands: Vec<WifiBand>,
    pub max_scan_ssids: Option<u32>,
    pub scan_supported: bool,
}

/// Capabilities, with their lists as sequences.
#[verifier::ext_equal]
pub struct WifiCapabilitiesView {
    pub supported_interfaces: Seq<InterfaceType>,
    pub cipher_suites: Seq<WifiCipher>,
    pub bands: Seq<WifiBandView>,
    pub max_scan_ssids: Option<u32>,
    pub scan_supported: bool,
}

impl WifiCapabilitiesView {
    /// The capabilities of an interface about which nothing is known.
    pub open spec fn none() -> Self {
        WifiCapabilitiesView {
            supported_interfaces: Seq::empty(),
            cipher_suites: Seq::empty(),
            bands: Seq::empty(),
            max_scan_ssids: None,
            scan_supported: false,
        }
    }
}

impl WifiCapabilities {
    pub open spec fn view(&self) -> WifiCapabilitiesView {
        WifiCapabilitiesView {
            supported_interfaces: self.supported_interfaces@,
            cipher_suites: self.cipher_suites@,
            bands: band_views(self.bands@),
            max_scan_ssids: self.max_scan_ssids,
            scan_supported: self.scan_supported,
        }
    }
}

impl Default for WifiCapabilities {
    fn default() -> (r: Self)
        ensures
            r@ == WifiCapabilitiesView::none(),
    {
        let r = WifiCapabilities {
            supported_interfaces: Vec::new(),
            cipher_suites: Vec::new(),
            bands: Vec::new(),
            max_scan_ssids: None,
            scan_supported: false,
        };
        assert(r@ =~= WifiCapabilitiesView::none());
        r
    }
}

impl Clone for WifiCapabilities {
    fn clone(&self) -> (r: Self)
        ensures
            r@ == self@,
    {
        let mut bands: Vec<WifiBand> = Vec::new();
        let mut i: usize = 0;
        while i < self.bands.len()
            invariant
                i <= self.bands@.len(),
                band_views(bands@) == band_views(self.bands@).take(i as int),
            decreases self.bands@.len() - i,
        {
            let ghost before = band_views(bands@);
            bands.push(self.bands[i].clone());
            i = i + 1;
            assert(band_views(bands@) =~= before.push(self.bands@[i - 1]@));
            assert(band_views(self.bands@).take(i as int) =~= before.push(self.bands@[i - 1]@));
        }
        let r = WifiCapabilities {
            supported_interfaces: vstd::slice::slice_to_vec(self.supported_interfaces.as_slice()),
            cipher_suites: vstd::slice::slice_to_vec(self.cipher_suites.as_slice()),
            bands,
            max_scan_ssids: self.max_scan_ssids,
            scan_supported: self.scan_supported,
        };
        assert(r@ =~= self@);
        r
    }
}

/// A discovered wireless interface.
#[derive(Debug, PartialEq, Eq)]
pub struct WirelessInterface {
    pub index: i32,
    pub name: String,
    pub wiphy_index: Option<u32>,
    pub wiphy_name: Option<String>,
    pub interface_type: InterfaceType,
    pub mac: Option<[u8; 6]>,
    pub up: bool,
    pub capabilities: WifiCapabilities,
}

/// A wireless interface, with its texts and lists as sequences.
#[verifier::ext_equal]
pub struct WirelessInterfaceView {
    pub index: i32,
    pub name: Seq<char>,
    pub wiphy_index: Option<u32>,
    pub wiphy_name: Option<Seq<char>>,
    pub interface_type: InterfaceType,
    pub mac: Option<Seq<u8>>,
    pub up: bool,
    pub capabilities: WifiCapabilitiesView,
}

/// The view of an optional hardware address.
pub open spec fn mac_view(mac: Option<[u8; 6]>) -> Option<Seq<u8>> {
    match mac {
        Some(value) => Some(value@),
        None => None,
    }
}

impl WirelessInterface {
    pub open spec fn view(&self) -> WirelessInterfaceView {
        WirelessInterfaceView {
            index: self.index,
            name: self.name@,
            wiphy_index: self.wiphy_index,
            wiphy_name: text::text_view(self.wiphy_name),
            interface_type: self.interface_type,
            mac: mac_view(self.mac),
            up: self.up,
            capabilities: self.capabilities@,
        }
    }
}

impl Clone for WirelessInterface {
    fn clone(&self) -> (r: Self)
        ensures
            r@ == self@,
    {
        WirelessInterface {
            index: self.index,
            name: self.name.clone(),
            wiphy_index: self.wiphy_index,
            wiphy_name: crate::text::copy_text(&self.wiphy_name),
            interface_type: self.interface_type,
            mac: self.mac,
            up: self.up,
            capabilities: self.capabilities.clone(),
        }
    }
}

/// The views of a list of wireless interfaces.
pub open spec fn wireless_views(interfaces: Seq<WirelessInterface>) -> Seq<WirelessInterfaceView> {
    interfaces.map_values(|interface: WirelessInterface| interface@)
}

/// Key management / authentication suites advertised by an access point.
///
/// WPA (vendor IE) uses suite values 1 (IEEE 802.1X) and 2 (PSK); RSN uses the
/// IEEE 802.11 AKM suite identifiers.
#[derive(Clone, Copy, Debug, PartialEq, Eq, Structural)]
pub enum WifiAuthSuite {
    Wpa1Psk,
    Wpa18021x,
    Rsn8021x,
    RsnPsk,
    RsnFt8021x,
    RsnFtPsk,
    Rsn8021xSha256,
    RsnPskSha256,
    RsnSae,
    RsnSaeFt,
    RsnApPsk,
    RsnSuiteB,
    RsnSuiteB192,
    RsnFt8021xSha384,
    RsnFilsSha256,
    RsnFilsSha384,
    RsnFtFilsSha256,
    RsnFtFilsSha384,
    RsnOwe,
    RsnFtPskSha384,
    RsnPskSha384,
    RsnPasn,
    Other(u32),
}

impl WifiAuthSuite {
    /// The suite with the given RSN number.
    pub open spec fn of_rsn(value: u32) -> Self {
        match value {
            0x000FAC01 => WifiAuthSuite::Rsn8021x,
            0x000FAC02 => WifiAuthSuite::RsnPsk,
            0x000FAC03 => WifiAuthSuite::RsnFt8021x,
            0x000FAC04 => WifiAuthSuite::RsnFtPsk,
            0x000FAC05 => WifiAuthSuite::Rsn8021xSha256,
            0x000FAC06 => WifiAuthSuite::RsnPskSha256,
            0x000FAC08 => WifiAuthSuite::RsnSae,
            0x000FAC09 => WifiAuthSuite::RsnSaeFt,
            0x000FAC0A => WifiAuthSuite::RsnApPsk,
            0x000FAC0B => WifiAuthSuite::RsnSuiteB,
            0x000FAC0C => WifiAuthSuite::RsnSuiteB192,
            0x000FAC0D => WifiAuthSuite::RsnFt8021xSha384,
            0x000FAC0E => WifiAuthSuite::RsnFilsSha256,
            0x000FAC0F => WifiAuthSuite::RsnFilsSha384,
            0x000FAC10 => WifiAuthSuite::RsnFtFilsSha256,
            0x000FAC11 => WifiAuthSuite::RsnFtFilsSha384,
            0x000FAC12 => WifiAuthSuite::RsnOwe,
            0x000FAC13 => WifiAuthSuite::RsnFtPskSha384,
            0x000FAC14 => WifiAuthSuite::RsnPskSha384,
            0x000FAC15 => WifiAuthSuite::RsnPasn,
            other => WifiAuthSuite::Other(other),
        }
    }

    /// The suite with the given RSN number.
    pub fn from_rsn_akm(value: u32) -> (r: Self)
        ensures
            r == WifiAuthSuite::of_rsn(value),
    {
        match value {
            0x000FAC01 => WifiAuthSuite::Rsn8021x,
            0x000FAC02 => WifiAuthSuite::RsnPsk,
            0x000FAC03 => WifiAuthSuite::RsnFt8021x,
            0x000FAC04 => WifiAuthSuite::RsnFtPsk,
            0x000FAC05 => WifiAuthSuite::Rsn8021xSha256,
            0x000FAC06 => WifiAuthSuite::RsnPskSha256,
            0x000FAC08 => WifiAuthSuite::RsnSae,
            0x000FAC09 => WifiAuthSuite::RsnSaeFt,
            0x000FAC0A => WifiAuthSuite::RsnApPsk,
            0x000FAC0B => WifiAuthSuite::RsnSuiteB,
            0x000FAC0C => WifiAuthSuite::RsnSuiteB192,
            0x000FAC0D => WifiAuthSuite::RsnFt8021xSha384,
            0x000FAC0E => WifiAuthSuite::RsnFilsSha256,
            0x000FAC0F => WifiAuthSuite::RsnFilsSha384,
            0x000FAC10 => WifiAuthSuite::RsnFtFilsSha256,
            0x000FAC11 => WifiAuthSuite::RsnFtFilsSha384,
            0x000FAC12 => WifiAuthSuite::RsnOwe,
            0x000FAC13 => WifiAuthSuite::RsnFtPskSha384,
            0x000FAC14 => WifiAuthSuite::RsnPskSha384,
            0x000FAC15 => WifiAuthSuite::RsnPasn,
            other => WifiAuthSuite::Other(other),
        }
    }

    /// The suite with the given WPA number.
    pub open spec fn of_wpa(value: u32) -> Self {
        match value {
            1 => WifiAuthSuite::Wpa18021x,
            2 => WifiAuthSuite::Wpa1Psk,
            other => WifiAuthSuite::Other(other),
        }
    }

    /// The suite with the given WPA number.
    pub fn from_wpa(value: u32) -> (r: Self)
        ensures
            r == WifiAuthSuite::of_wpa(value),
    {
        match value {
            1 => WifiAuthSuite::Wpa18021x,
            2 => WifiAuthSuite::Wpa1Psk,
            other => WifiAuthSuite::Other(other),
        }
    }

    /// Whether the suite makes an access point a WPA3 one.
    pub open spec fn wpa3(self) -> bool {
        ||| self == WifiAuthSuite::RsnSae
        ||| self == WifiAuthSuite::RsnSaeFt
        ||| self == WifiAuthSuite::RsnOwe
        ||| self == WifiAuthSuite::RsnPskSha384
        ||| self == WifiAuthSuite::RsnFt8021xSha384
        ||| self == WifiAuthSuite::RsnFtPskSha384
        ||| self == WifiAuthSuite::RsnSuiteB192
        ||| self == WifiAuthSuite::RsnPasn
    }

    /// Whether the suite, next to an RSN element, makes an access point a
    /// WPA2 one.
    pub open spec fn wpa2(self) -> bool {
        &&& self != WifiAuthSuite::RsnSae
        &&& self != WifiAuthSuite::RsnSaeFt
        &&& self != WifiAuthSuite::RsnOwe
        &&& self != WifiAuthSuite::RsnPasn
        &&& self !is Other
    }

    /// Whether the suite authenticates against an 802.1X server.
    pub open spec fn enterprise(self) -> bool {
        ||| self == WifiAuthSuite::Wpa18021x
        ||| self == WifiAuthSuite::Rsn8021x
        ||| self == WifiAuthSuite::RsnFt8021x
        ||| self == WifiAuthSuite::Rsn8021xSha256
        ||| self == WifiAuthSuite::RsnFt8021xSha384
        ||| self == WifiAuthSuite::RsnSuiteB
        ||| self == WifiAuthSuite::RsnSuiteB192
    }

    /// Whether the suite makes an access point a WPA3 one.
    pub fn is_wpa3(self) -> (r: bool)
        ensures
            r == self.wpa3(),
    {
        matches!(
            self,
            WifiAuthSuite::RsnSae | WifiAuthSuite::RsnSaeFt | WifiAuthSuite::RsnOwe
                | WifiAuthSuite::RsnPskSha384 | WifiAuthSuite::RsnFt8021xSha384
                | WifiAuthSuite::RsnFtPskSha384 | WifiAuthSuite::RsnSuiteB192 | WifiAuthSuite::RsnPasn
        )
    }

    /// Whether the suite, next to an RSN element, makes an access point a
    /// WPA2 one.
    pub fn is_wpa2(self) -> (r: bool)
        ensures
            r == self.wpa2(),
    {
        !matches!(
            self,
            WifiAuthSuite::RsnSae | WifiAuthSuite::RsnSaeFt | WifiAuthSuite::RsnOwe
                | WifiAuthSuite::RsnPasn | WifiAuthSuite::Other(_)
        )
    }

    /// Whether the suite authenticates against an 802.1X server.
    pub fn is_enterprise(self) -> (r: bool)
        ensures
            r == self.enterprise(),
    {
        matches!(
            self,
            WifiAuthSuite::Wpa18021x | WifiAuthSuite::Rsn8021x | WifiAuthSuite::RsnFt8021x
                | WifiAuthSuite::Rsn8021xSha256 | WifiAuthSuite::RsnFt8021xSha384
                | WifiAuthSuite::RsnSuiteB | WifiAuthSuite::RsnSuiteB192
        )
    }

    /// The short name of the suite.
    pub open spec fn name(self) -> Seq<char> {
        match self {
            WifiAuthSuite::Wpa1Psk => "WPA-PSK"@,
            WifiAuthSuite::Wpa18021x => "WPA-802.1X"@,
            WifiAuthSuite::Rsn8021x => "WPA2-802.1X"@,
            WifiAuthSuite::RsnPsk => "WPA2-PSK"@,
            WifiAuthSuite::RsnFt8021x => "FT-802.1X"@,
            WifiAuthSuite::RsnFtPsk => "FT-PSK"@,
            WifiAuthSuite::Rsn8021xSha256 => "802.1X-SHA256"@,
            WifiAuthSuite::RsnPskSha256 => "PSK-SHA256"@,
            WifiAuthSuite::RsnSae => "SAE"@,
            WifiAuthSuite::RsnSaeFt => "FT-SAE"@,
            WifiAuthSuite::RsnApPsk => "AP-PSK"@,
            WifiAuthSuite::RsnSuiteB => "SUITE-B"@,
            WifiAuthSuite::RsnSuiteB192 => "SUITE-B-192"@,
            WifiAuthSuite::RsnFt8021xSha384 => "FT-802.1X-SHA384"@,
            WifiAuthSuite::RsnFilsSha256 => "FILS-SHA256"@,
            WifiAuthSuite::RsnFilsSha384 => "FILS-SHA384"@,
            WifiAuthSuite::RsnFtFilsSha256 => "FT-FILS-SHA256"@,
            WifiAuthSuite::RsnFtFilsSha384 => "FT-FILS-SHA384"@,
            WifiAuthSuite::RsnOwe => "OWE"@,
            WifiAuthSuite::RsnFtPskSha384 => "FT-PSK-SHA384"@,
            WifiAuthSuite::RsnPskSha384 => "PSK-SHA384"@,
            WifiAuthSuite::RsnPasn => "PASN"@,
            WifiAuthSuite::Other(_) => "other"@,
        }
    }

    /// The short name of the suite.
    pub fn as_str(self) -> (r: &'static str)
        ensures
            r@ == self.name(),
    {
        match self {
            WifiAuthSuite::Wpa1Psk => "WPA-PSK",
            WifiAuthSuite::Wpa18021x => "WPA-802.1X",
            WifiAuthSuite::Rsn8021x => "WPA2-802.1X",
            WifiAuthSuite::RsnPsk => "WPA2-PSK",
            WifiAuthSuite::RsnFt8021x => "FT-802.1X",
            WifiAuthSuite::RsnFtPsk => "FT-PSK",
            WifiAuthSuite::Rsn8021xSha256 => "802.1X-SHA256",
            WifiAuthSuite::RsnPskSha256 => "PSK-SHA256",
            WifiAuthSuite::RsnSae => "SAE",
            WifiAuthSuite::RsnSaeFt => "FT-SAE",
            WifiAuthSuite::RsnApPsk => "AP-PSK",
            WifiAuthSuite::RsnSuiteB => "SUITE-B",
            WifiAuthSuite::RsnSuiteB192 => "SUITE-B-192",
            WifiAuthSuite::RsnFt8021xSha384 => "FT-802.1X-SHA384",
            WifiAuthSuite::RsnFilsSha256 => "FILS-SHA256",
            WifiAuthSuite::RsnFilsSha384 => "FILS-SHA384",
            WifiAuthSuite::RsnFtFilsSha256 => "FT-FILS-SHA256",
            WifiAuthSuite::RsnFtFilsSha384 => "FT-FILS-SHA384",
            WifiAuthSuite::RsnOwe => "OWE",
            WifiAuthSuite::RsnFtPskSha384 => "FT-PSK-SHA384",
            WifiAuthSuite::RsnPskSha384 => "PSK-SHA384",
            WifiAuthSuite::RsnPasn => "PASN",
            WifiAuthSuite::Other(_) => "other",
        }
    }

    /// The name of the suite, with the number of one that has no name.
    pub open spec fn text(self) -> Seq<char> {
        match self {
            WifiAuthSuite::Other(value) => "other(0x"@ + text::fixed_hex(value as nat, 8) + ")"@,
            _ => self.name(),
        }
    }

    /// Names the suite.
    pub fn to_string(&self) -> (r: String)
        ensures
            r@ == self.text(),
    {
        match self {
            WifiAuthSuite::Other(value) => concat3(
                "other(0x",
                fixed_hex_text(*value as u64, 8).as_str(),
                ")",
            ),
            _ => self.as_str().to_owned(),
        }
    }
}

/// Security/authentication capabilities of an access point.
#[derive(Debug, PartialEq, Eq)]
pub struct AccessPointSecurity {
    pub wep: bool,
    pub wpa1: bool,
    pub wpa2: bool,
    pub wpa3: bool,
    pub enterprise: bool,
    pub management_frame_protection: bool,
    pub auth_suites: Vec<WifiAuthSuite>,
}

/// Security capabilities, with the suites as a sequence.
#[verifier::ext_equal]
pub struct SecurityView {
    pub wep: bool,
    pub wpa1: bool,
    pub wpa2: bool,
    pub wpa3: bool,
    pub enterprise: bool,
    pub management_frame_protection: bool,
    pub auth_suites: Seq<WifiAuthSuite>,
}

impl AccessPointSecurity {
    pub open spec fn view(&self) -> SecurityView {
        SecurityView {
            wep: self.wep,
            wpa1: self.wpa1,
            wpa2: self.wpa2,
            wpa3: self.wpa3,
            enterprise: self.enterprise,
            management_frame_protection: self.management_frame_protection,
            auth_suites: self.auth_suites@,
        }
    }
}

impl Default for AccessPointSecurity {
    fn default() -> (r: Self)
        ensures
            !r.wep && !r.wpa1 && !r.wpa2 && !r.wpa3 && !r.enterprise
                && !r.management_frame_protection,
            r.auth_suites@.len() == 0,
    {
        AccessPointSecurity {
            wep: false,
            wpa1: false,
            wpa2: false,
            wpa3: false,
            enterprise: false,
            management_frame_protection: false,
            auth_suites: Vec::new(),
        }
    }
}

impl Clone for AccessPointSecurity {
    fn clone(&self) -> (r: Self)
        ensures
            r@ == self@,
    {
        AccessPointSecurity {
            wep: self.wep,
            wpa1: self.wpa1,
            wpa2: self.wpa2,
            wpa3: self.wpa3,
            enterprise: self.enterprise,
            management_frame_protection: self.management_frame_protection,
            auth_suites: vstd::slice::slice_to_vec(self.auth_suites.as_slice()),
        }
    }
}

/// A typed Wi-Fi access point discovered through nl80211 scanning.
#[derive(Debug, PartialEq, Eq)]
pub struct AccessPoint {
    pub bssid: Option<Bssid>,
    pub ssid: Option<Ssid>,
    pub frequency: Option<u32>,
    pub channel: Option<u16>,
    pub signal_dbm: Option<i32>,
    pub signal_unspecified: Option<u8>,
    pub capability: Option<u16>,
    pub security: AccessPointSecurity,
    pub seen_millis_ago: Option<u32>,
}

/// An access point, with its identifiers as sequences of octets.
#[verifier::ext_equal]
pub struct AccessPointView {
    pub bssid: Option<Seq<u8>>,
    pub ssid: Option<Seq<u8>>,
    pub frequency: Option<u32>,
    pub channel: Option<u16>,
    pub signal_dbm: Option<i32>,
    pub signal_unspecified: Option<u8>,
    pub capability: Option<u16>,
    pub security: SecurityView,
    pub seen_millis_ago: Option<u32>,
}

/// The view of an optional BSSID.
pub open spec fn bssid_view(bssid: Option<Bssid>) -> Option<Seq<u8>> {
    match bssid {
        Some(value) => Some(value.0@),
        None => None,
    }
}

impl AccessPoint {
    pub open spec fn view(&self) -> AccessPointView {
        AccessPointView {
            bssid: bssid_view(self.bssid),
            ssid: ssid_view(self.ssid),
            frequency: self.frequency,
            channel: self.channel,
            signal_dbm: self.signal_dbm,
            signal_unspecified: self.signal_unspecified,
            capability: self.capability,
            security: self.security@,
            seen_millis_ago: self.seen_millis_ago,
        }
    }
}

impl Clone for AccessPoint {
    fn clone(&self) -> (r: Self)
        ensures
            r@ == self@,
    {
        AccessPoint {
            bssid: self.bssid,
            ssid: match &self.ssid {
                Some(ssid) => Some(ssid.clone()),
                None => None,
            },
            frequency: self.frequency,
            channel: self.channel,
            signal_dbm: self.signal_dbm,
            signal_unspecified: self.signal_unspecified,
            capability: self.capability,
            security: self.security.clone(),
            seen_millis_ago: self.seen_millis_ago,
        }
    }
}

/// The views of a list of access points.
pub open spec fn access_point_views(points: Seq<AccessPoint>) -> Seq<AccessPointView> {
    points.map_values(|point: AccessPoint| point@)
}

/// A blocking source of typed [`NetworkEvent`] values.
///
/// What a source may answer, and what becomes of it, is up to the source.
pub trait NetworkEventSource: Sized {
    /// Whether the source may answer with `reply` and turn into `after`.
    open spec fn may_yield(
        &self,
        reply: Result<Option<NetworkEvent>, NetlinkError>,
        after: Self,
    ) -> bool {
        true
    }

    /// Returns the next event, or `None` once a shutdown has been requested.
    fn next_event(&mut self) -> (r: Result<Option<NetworkEvent>, NetlinkError>)
        ensures
            old(self).may_yield(r, *final(self)),
    ;
}

} // verus!
