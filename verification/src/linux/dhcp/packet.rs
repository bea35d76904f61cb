//! BOOTP/DHCP packet codec (RFC 2131, RFC 2132).
//!
//! Serialization and parsing are symmetric: what one writes, the other reads.

use vstd::prelude::*;

use vstd::arithmetic::power2::*;
use vstd::utf8::*;

use crate::bytes;
use crate::bytes::{
    append_octets, copy_octets, copy_until_zero, push_be16, push_be32, read_be16, read_be32,
    same_octets,
};
use crate::connection::ip::{DhcpError, DhcpLease, DhcpLeaseView};
use crate::net;
use crate::net::Ipv4Addr;
use crate::text;
use crate::text::{chars_of, decode_lossy, text_of, trim};

verus! {

/// Server UDP port.
pub const BOOTP_SERVER_PORT: u16 = 67;

/// Client UDP port.
pub const BOOTP_CLIENT_PORT: u16 = 68;

pub const OP_BOOTREQUEST: u8 = 1;

pub const OP_BOOTREPLY: u8 = 2;

pub const HTYPE_ETHERNET: u8 = 1;

pub const HLEN_ETHERNET: u8 = 6;

/// Fixed header and magic cookie; options start here.
pub const OPTIONS_OFFSET: usize = 240;

pub const OPTION_PAD: u8 = 0;

pub const OPTION_SUBNET_MASK: u8 = 1;

pub const OPTION_ROUTER: u8 = 3;

pub const OPTION_DNS: u8 = 6;

pub const OPTION_HOSTNAME: u8 = 12;

pub const OPTION_DOMAIN_NAME: u8 = 15;

pub const OPTION_REQUESTED_IP: u8 = 50;

pub const OPTION_LEASE_TIME: u8 = 51;

pub const OPTION_MESSAGE_TYPE: u8 = 53;

pub const OPTION_SERVER_ID: u8 = 54;

pub const OPTION_T1: u8 = 58;

pub const OPTION_T2: u8 = 59;

pub const OPTION_END: u8 = 255;

/// The flag by which a client asks for replies by broadcast.
pub const BROADCAST_FLAG: u16 = 0x8000;

// --- Message types ---------------------------------------------------------------------

/// DHCP message type (option 53).
#[derive(Clone, Copy, Debug, PartialEq, Eq, Structural)]
pub enum DhcpMessageType {
    Discover,
    Offer,
    Request,
    Decline,
    Ack,
    Nak,
    Release,
    Inform,
    Unknown(u8),
}

impl DhcpMessageType {
    /// The type with a number.
    pub open spec fn of(value: u8) -> Self {
        match value {
            1 => DhcpMessageType::Discover,
            2 => DhcpMessageType::Offer,
            3 => DhcpMessageType::Request,
            4 => DhcpMessageType::Decline,
            5 => DhcpMessageType::Ack,
            6 => DhcpMessageType::Nak,
            7 => DhcpMessageType::Release,
            8 => DhcpMessageType::Inform,
            other => DhcpMessageType::Unknown(other),
        }
    }

    /// The number of a type.
    pub open spec fn number(self) -> u8 {
        match self {
            DhcpMessageType::Discover => 1,
            DhcpMessageType::Offer => 2,
            DhcpMessageType::Request => 3,
            DhcpMessageType::Decline => 4,
            DhcpMessageType::Ack => 5,
            DhcpMessageType::Nak => 6,
            DhcpMessageType::Release => 7,
            DhcpMessageType::Inform => 8,
            DhcpMessageType::Unknown(value) => value,
        }
    }

    /// The type with a number.
    pub fn from_u8(value: u8) -> (r: Self)
        ensures
            r == DhcpMessageType::of(value),
    {
        match value {
            1 => DhcpMessageType::Discover,
            2 => DhcpMessageType::Offer,
            3 => DhcpMessageType::Request,
            4 => DhcpMessageType::Decline,
            5 => DhcpMessageType::Ack,
            6 => DhcpMessageType::Nak,
            7 => DhcpMessageType::Release,
            8 => DhcpMessageType::Inform,
            other => DhcpMessageType::Unknown(other),
        }
    }

    /// The number of a type.
    pub fn as_u8(self) -> (r: u8)
        ensures
            r == self.number(),
    {
        match self {
            DhcpMessageType::Discover => 1,
            DhcpMessageType::Offer => 2,
            DhcpMessageType::Request => 3,
            DhcpMessageType::Decline => 4,
            DhcpMessageType::Ack => 5,
            DhcpMessageType::Nak => 6,
            DhcpMessageType::Release => 7,
            DhcpMessageType::Inform => 8,
            DhcpMessageType::Unknown(value) => value,
        }
    }
}

/// The number of a message type survives being read.
pub proof fn lemma_message_type(value: u8)
    ensures
        DhcpMessageType::of(value).number() == value,
{
}

// --- Packets -----------------------------------------------------------------------------

/// A parsed BOOTP/DHCP message.
#[derive(Debug, PartialEq, Eq)]
pub struct DhcpPacket {
    pub op: u8,
    pub xid: u32,
    pub flags: u16,
    pub ciaddr: [u8; 4],
    pub yiaddr: [u8; 4],
    pub siaddr: [u8; 4],
    pub giaddr: [u8; 4],
    pub chaddr: [u8; 16],
    pub sname: [u8; 64],
    pub file: [u8; 128],
    pub options: Vec<(u8, Vec<u8>)>,
}

/// A message, with its fields as sequences of octets.
#[verifier::ext_equal]
pub struct PacketView {
    pub op: u8,
    pub xid: u32,
    pub flags: u16,
    pub ciaddr: Seq<u8>,
    pub yiaddr: Seq<u8>,
    pub siaddr: Seq<u8>,
    pub giaddr: Seq<u8>,
    pub chaddr: Seq<u8>,
    pub sname: Seq<u8>,
    pub file: Seq<u8>,
    pub options: Seq<(u8, Seq<u8>)>,
}

/// The views of a list of options.
pub open spec fn option_views(options: Seq<(u8, Vec<u8>)>) -> Seq<(u8, Seq<u8>)> {
    options.map_values(|entry: (u8, Vec<u8>)| (entry.0, entry.1@))
}

impl DhcpPacket {
    pub open spec fn view(&self) -> PacketView {
        PacketView {
            op: self.op,
            xid: self.xid,
            flags: self.flags,
            ciaddr: self.ciaddr@,
            yiaddr: self.yiaddr@,
            siaddr: self.siaddr@,
            giaddr: self.giaddr@,
            chaddr: self.chaddr@,
            sname: self.sname@,
            file: self.file@,
            options: option_views(self.options@),
        }
    }
}

/// The octets that mark the options of a DHCP message.
pub open spec fn magic_cookie() -> Seq<u8> {
    seq![0x63u8, 0x82u8, 0x53u8, 0x63u8]
}

/// The octets of one option. Padding and end markers are no options of their
/// own and are left out.
pub open spec fn option_octets(entry: (u8, Seq<u8>)) -> Seq<u8> {
    if entry.0 == OPTION_PAD || entry.0 == OPTION_END {
        Seq::empty()
    } else {
        seq![entry.0, (entry.1.len() % 256) as u8] + entry.1
    }
}

/// The octets of a list of options, without an end marker.
pub open spec fn entries_octets(entries: Seq<(u8, Seq<u8>)>) -> Seq<u8>
    decreases entries.len(),
{
    if entries.len() == 0 {
        Seq::empty()
    } else {
        entries_octets(entries.drop_last()) + option_octets(entries.last())
    }
}

/// Encodes a list of DHCP options as raw bytes, with an end marker.
pub fn build_options(entries: &Vec<(u8, Vec<u8>)>) -> (r: Vec<u8>)
    ensures
        r@ == entries_octets(option_views(entries@)) + seq![OPTION_END],
{
    let ghost views = option_views(entries@);
    let mut bytes: Vec<u8> = Vec::new();
    let mut i: usize = 0;
    assert(views.take(0) =~= Seq::empty());
    while i < entries.len()
        invariant
            i <= entries@.len(),
            views == option_views(entries@),
            bytes@ == entries_octets(views.take(i as int)),
        decreases entries@.len() - i,
    {
        let ghost before = bytes@;
        let code: u8 = entries[i].0;
        if code != OPTION_PAD && code != OPTION_END {
            bytes.push(code);
            bytes.push((entries[i].1.len() % 256) as u8);
            append_octets(&mut bytes, entries[i].1.as_slice());
        }
        i = i + 1;
        proof {
            let now = views.take(i as int);
            assert(now.drop_last() =~= views.take(i - 1));
            assert(now.last() == views[i - 1]);
            assert(bytes@ =~= before + option_octets(views[i - 1]));
        }
    }
    assert(views.take(i as int) =~= views);
    bytes.push(OPTION_END);
    assert(bytes@ =~= entries_octets(views) + seq![OPTION_END]);
    bytes
}

/// The fixed part of a packet.
pub open spec fn header_octets(packet: PacketView) -> Seq<u8> {
    seq![packet.op, HTYPE_ETHERNET, HLEN_ETHERNET, 0u8] + bytes::be32_octets(packet.xid as nat) + seq![
        0u8,
        0u8,
    ] + bytes::be16_octets(packet.flags as nat) + packet.ciaddr + packet.yiaddr + packet.siaddr
        + packet.giaddr + packet.chaddr + packet.sname + packet.file + magic_cookie()
}

/// The octets of a packet.
pub open spec fn packet_octets(packet: PacketView) -> Seq<u8> {
    header_octets(packet) + (entries_octets(packet.options) + seq![OPTION_END])
}

/// Serializes a packet to raw UDP payload bytes.
pub fn serialize(packet: &DhcpPacket) -> (r: Vec<u8>)
    ensures
        r@ == packet_octets(packet@),
{
    let mut bytes: Vec<u8> = Vec::new();
    bytes.push(packet.op);
    bytes.push(HTYPE_ETHERNET);
    bytes.push(HLEN_ETHERNET);
    bytes.push(0);
    assert(bytes@ =~= seq![packet.op, HTYPE_ETHERNET, HLEN_ETHERNET, 0u8]);
    push_be32(&mut bytes, packet.xid);
    bytes.push(0);
    bytes.push(0);
    assert(bytes@ =~= seq![packet.op, HTYPE_ETHERNET, HLEN_ETHERNET, 0u8] + bytes::be32_octets(
        packet.xid as nat,
    ) + seq![0u8, 0u8]);
    push_be16(&mut bytes, packet.flags);
    append_octets(&mut bytes, packet.ciaddr.as_slice());
    append_octets(&mut bytes, packet.yiaddr.as_slice());
    append_octets(&mut bytes, packet.siaddr.as_slice());
    append_octets(&mut bytes, packet.giaddr.as_slice());
    append_octets(&mut bytes, packet.chaddr.as_slice());
    append_octets(&mut bytes, packet.sname.as_slice());
    append_octets(&mut bytes, packet.file.as_slice());
    let ghost before = bytes@;
    bytes.push(0x63);
    bytes.push(0x82);
    bytes.push(0x53);
    bytes.push(0x63);
    assert(bytes@ =~= before + magic_cookie());
    assert(bytes@ == header_octets(packet@));
    let options: Vec<u8> = build_options(&packet.options);
    append_octets(&mut bytes, options.as_slice());
    bytes
}

/// The options that a payload holds, up to the end marker or its end.
pub open spec fn options_of(rest: Seq<u8>) -> Result<Seq<(u8, Seq<u8>)>, DhcpError>
    decreases rest.len(),
{
    if rest.len() == 0 || rest[0] == OPTION_END {
        Ok(Seq::empty())
    } else if rest[0] == OPTION_PAD {
        options_of(rest.skip(1))
    } else if rest.len() < 2 {
        Err(DhcpError::MalformedPacket("truncated DHCP option header"))
    } else if rest.len() < 2 + rest[1] {
        Err(DhcpError::MalformedPacket("truncated DHCP option value"))
    } else {
        match options_of(rest.skip(2 + rest[1])) {
            Err(e) => Err(e),
            Ok(more) => Ok(seq![(rest[0], rest.subrange(2, 2 + rest[1]))] + more),
        }
    }
}

fn parse_options(bytes: &[u8], start: usize) -> (r: Result<Vec<(u8, Vec<u8>)>, DhcpError>)
    requires
        start <= bytes@.len(),
    ensures
        match r {
            Ok(options) => options_of(bytes@.skip(start as int)) == Ok::<
                Seq<(u8, Seq<u8>)>,
                DhcpError,
            >(option_views(options@)),
            Err(e) => options_of(bytes@.skip(start as int)) == Err::<
                Seq<(u8, Seq<u8>)>,
                DhcpError,
            >(e),
        },
{
    let ghost whole = options_of(bytes@.skip(start as int));
    let mut options: Vec<(u8, Vec<u8>)> = Vec::new();
    let mut offset: usize = start;
    proof {
        if let Ok(all) = whole {
            assert(option_views(options@) + all =~= all);
        }
    }
    while offset < bytes.len()
        invariant
            start <= offset <= bytes@.len(),
            bytes@.len() == bytes.len(),
            whole == options_of(bytes@.skip(start as int)),
            match options_of(bytes@.skip(offset as int)) {
                Ok(more) => whole == Ok::<Seq<(u8, Seq<u8>)>, DhcpError>(
                    option_views(options@) + more,
                ),
                Err(e) => whole == Err::<Seq<(u8, Seq<u8>)>, DhcpError>(e),
            },
        decreases bytes@.len() - offset,
    {
        let ghost rest = bytes@.skip(offset as int);
        let ghost before = option_views(options@);
        let code: u8 = bytes[offset];
        assert(rest[0] == code);
        if code == OPTION_END {
            assert(before + Seq::<(u8, Seq<u8>)>::empty() =~= before);
            return Ok(options);
        }
        if code == OPTION_PAD {
            assert(rest.skip(1) =~= bytes@.skip(offset + 1));
            offset = offset + 1;
        } else {
            if bytes.len() - offset < 2 {
                return Err(DhcpError::MalformedPacket("truncated DHCP option header"));
            }
            let len: usize = bytes[offset + 1] as usize;
            assert(rest[1] == len);
            if bytes.len() - offset - 2 < len {
                return Err(DhcpError::MalformedPacket("truncated DHCP option value"));
            }
            let value: Vec<u8> = copy_octets(bytes, offset + 2, offset + 2 + len);
            let ghost seen = (code, value@);
            options.push((code, value));
            proof {
                assert(seen.1 =~= rest.subrange(2, 2 + len));
                assert(rest.skip(2 + len) =~= bytes@.skip(offset + 2 + len));
                assert(option_views(options@) =~= before.push(seen));
                if let Ok(more) = options_of(rest.skip(2 + len)) {
                    assert(before + (seq![seen] + more) =~= before.push(seen) + more);
                }
            }
            offset = offset + 2 + len;
        }
    }
    assert(option_views(options@) + Seq::<(u8, Seq<u8>)>::empty() =~= option_views(options@));
    Ok(options)
}

/// The packet that a payload holds.
pub open spec fn packet_of(bytes: Seq<u8>) -> Result<PacketView, DhcpError> {
    if bytes.len() < 240 {
        Err(DhcpError::MalformedPacket("packet shorter than fixed header"))
    } else if bytes.subrange(236, 240) != magic_cookie() {
        Err(DhcpError::MalformedPacket("missing DHCP magic cookie"))
    } else {
        match options_of(bytes.skip(240)) {
            Err(e) => Err(e),
            Ok(options) => Ok(
                PacketView {
                    op: bytes[0],
                    xid: bytes::be32(bytes, 4) as u32,
                    flags: bytes::be16(bytes, 10) as u16,
                    ciaddr: bytes.subrange(12, 16),
                    yiaddr: bytes.subrange(16, 20),
                    siaddr: bytes.subrange(20, 24),
                    giaddr: bytes.subrange(24, 28),
                    chaddr: bytes.subrange(28, 44),
                    sname: bytes.subrange(44, 108),
                    file: bytes.subrange(108, 236),
                    options,
                },
            ),
        }
    }
}

fn four(bytes: &[u8], start: usize) -> (r: [u8; 4])
    requires
        start + 4 <= bytes@.len(),
    ensures
        r@ == bytes@.subrange(start as int, start + 4),
{
    let r: [u8; 4] = [bytes[start], bytes[start + 1], bytes[start + 2], bytes[start + 3]];
    assert(r@ =~= bytes@.subrange(start as int, start + 4));
    r
}

fn sixteen(bytes: &[u8], start: usize) -> (r: [u8; 16])
    requires
        start + 16 <= bytes@.len(),
    ensures
        r@ == bytes@.subrange(start as int, start + 16),
{
    let mut r: [u8; 16] = [0; 16];
    let mut i: usize = 0;
    while i < 16
        invariant
            i <= 16,
            bytes@.len() == bytes.len(),
            start + 16 <= bytes@.len(),
            forall|j: int| 0 <= j < i ==> r@[j] == bytes@[start + j],
        decreases 16 - i,
    {
        r[i] = bytes[start + i];
        i = i + 1;
    }
    assert(r@ =~= bytes@.subrange(start as int, start + 16));
    r
}

fn sixty_four(bytes: &[u8], start: usize) -> (r: [u8; 64])
    requires
        start + 64 <= bytes@.len(),
    ensures
        r@ == bytes@.subrange(start as int, start + 64),
{
    let mut r: [u8; 64] = [0; 64];
    let mut i: usize = 0;
    while i < 64
        invariant
            i <= 64,
            bytes@.len() == bytes.len(),
            start + 64 <= bytes@.len(),
            forall|j: int| 0 <= j < i ==> r@[j] == bytes@[start + j],
        decreases 64 - i,
    {
        r[i] = bytes[start + i];
        i = i + 1;
    }
    assert(r@ =~= bytes@.subrange(start as int, start + 64));
    r
}

fn file_field(bytes: &[u8], start: usize) -> (r: [u8; 128])
    requires
        start + 128 <= bytes@.len(),
    ensures
        r@ == bytes@.subrange(start as int, start + 128),
{
    let mut r: [u8; 128] = [0; 128];
    let mut i: usize = 0;
    while i < 128
        invariant
            i <= 128,
            bytes@.len() == bytes.len(),
            start + 128 <= bytes@.len(),
            forall|j: int| 0 <= j < i ==> r@[j] == bytes@[start + j],
        decreases 128 - i,
    {
        r[i] = bytes[start + i];
        i = i + 1;
    }
    assert(r@ =~= bytes@.subrange(start as int, start + 128));
    r
}

/// Parses a raw UDP payload into a [`DhcpPacket`], validating the magic cookie.
pub fn parse(bytes: &[u8]) -> (r: Result<DhcpPacket, DhcpError>)
    ensures
        match r {
            Ok(packet) => packet_of(bytes@) == Ok::<PacketView, DhcpError>(packet@),
            Err(e) => packet_of(bytes@) == Err::<PacketView, DhcpError>(e),
        },
{
    if bytes.len() < OPTIONS_OFFSET {
        return Err(DhcpError::MalformedPacket("packet shorter than fixed header"));
    }
    let cookie: [u8; 4] = four(bytes, 236);
    if !(cookie[0] == 0x63 && cookie[1] == 0x82 && cookie[2] == 0x53 && cookie[3] == 0x63) {
        proof {
            let found = bytes@.subrange(236, 240);
            assert(found[0] == cookie@[0] && found[1] == cookie@[1] && found[2] == cookie@[2]
                && found[3] == cookie@[3]);
            assert(found != magic_cookie());
        }
        return Err(DhcpError::MalformedPacket("missing DHCP magic cookie"));
    }
    assert(bytes@.subrange(236, 240) =~= magic_cookie());
    match parse_options(bytes, OPTIONS_OFFSET) {
        Err(err) => Err(err),
        Ok(options) => Ok(
            DhcpPacket {
                op: bytes[0],
                xid: read_be32(bytes, 4),
                flags: read_be16(bytes, 10),
                ciaddr: four(bytes, 12),
                yiaddr: four(bytes, 16),
                siaddr: four(bytes, 20),
                giaddr: four(bytes, 24),
                chaddr: sixteen(bytes, 28),
                sname: sixty_four(bytes, 44),
                file: file_field(bytes, 108),
                options,
            },
        ),
    }
}

// --- Reading back what was written ----------------------------------------------------------

/// Whether a packet can be written without loss: its fields have their lengths,
/// and each option has a code of its own and a value of at most 255 octets.
pub open spec fn writable(packet: PacketView) -> bool {
    &&& packet.ciaddr.len() == 4
    &&& packet.yiaddr.len() == 4
    &&& packet.siaddr.len() == 4
    &&& packet.giaddr.len() == 4
    &&& packet.chaddr.len() == 16
    &&& packet.sname.len() == 64
    &&& packet.file.len() == 128
    &&& writable_options(packet.options)
}

/// Whether options can be written without loss.
pub open spec fn writable_options(options: Seq<(u8, Seq<u8>)>) -> bool {
    forall|i: int|
        0 <= i < options.len() ==> (#[trigger] options[i]).0 != OPTION_PAD && options[i].0
            != OPTION_END && options[i].1.len() <= 255
}

proof fn lemma_entries_front(entries: Seq<(u8, Seq<u8>)>)
    requires
        entries.len() > 0,
    ensures
        entries_octets(entries) == option_octets(entries[0]) + entries_octets(entries.skip(1)),
    decreases entries.len(),
{
    let first = option_octets(entries[0]);
    let last = option_octets(entries.last());
    if entries.len() == 1 {
        assert(entries.drop_last() =~= Seq::empty());
        assert(entries.skip(1) =~= Seq::empty());
        assert(entries_octets(entries) =~= first + entries_octets(entries.skip(1)));
    } else {
        lemma_entries_front(entries.drop_last());
        assert(entries.drop_last().skip(1) =~= entries.skip(1).drop_last());
        let middle = entries_octets(entries.skip(1).drop_last());
        assert((first + middle) + last =~= first + (middle + last));
    }
}

/// Options that were written are read back, whatever stands behind the end
/// marker.
pub proof fn lemma_options_padded(entries: Seq<(u8, Seq<u8>)>, padding: Seq<u8>)
    requires
        writable_options(entries),
    ensures
        options_of(entries_octets(entries) + seq![OPTION_END] + padding) == Ok::<
            Seq<(u8, Seq<u8>)>,
            DhcpError,
        >(entries),
    decreases entries.len(),
{
    let end = seq![OPTION_END];
    let whole = entries_octets(entries) + end + padding;
    if entries.len() == 0 {
        assert(whole[0] == OPTION_END);
        assert(entries =~= Seq::empty());
    } else {
        let more = entries.skip(1);
        let (code, value) = entries[0];
        assert forall|i: int| 0 <= i < more.len() implies (#[trigger] more[i]).0 != OPTION_PAD
            && more[i].0 != OPTION_END && more[i].1.len() <= 255 by {
            assert(more[i] == entries[i + 1]);
        }
        lemma_options_padded(more, padding);
        lemma_entries_front(entries);
        let tail = entries_octets(more) + end + padding;
        let first = seq![code, (value.len() % 256) as u8] + value;
        assert(option_octets(entries[0]) == first);
        assert(whole =~= first + tail);
        assert(whole[0] == code && whole[1] == value.len());
        assert(whole.subrange(2, 2 + value.len() as int) =~= value);
        assert(whole.skip(2 + value.len() as int) =~= tail);
        assert(seq![(code, value)] + more =~= entries);
    }
}

/// Options that were written are read back.
pub proof fn lemma_options_round_trip(entries: Seq<(u8, Seq<u8>)>)
    requires
        writable_options(entries),
    ensures
        options_of(entries_octets(entries) + seq![OPTION_END]) == Ok::<
            Seq<(u8, Seq<u8>)>,
            DhcpError,
        >(entries),
{
    lemma_options_padded(entries, Seq::empty());
    let whole = entries_octets(entries) + seq![OPTION_END];
    assert(whole + Seq::<u8>::empty() =~= whole);
}

/// A packet that was written is read back, whatever is behind its end marker.
pub proof fn lemma_packet_padded(packet: PacketView, padding: Seq<u8>)
    requires
        writable(packet),
    ensures
        packet_of(packet_octets(packet) + padding) == Ok::<PacketView, DhcpError>(packet),
{
    let s = packet_octets(packet) + padding;
    let h = header_octets(packet);
    lemma_options_padded(packet.options, padding);
    bytes::lemma_be32(packet.xid as nat);
    bytes::lemma_be16(packet.flags as nat);
    lemma_header_fields(packet);
    assert(h.len() == 240);
    assert(s.skip(240) =~= entries_octets(packet.options) + seq![OPTION_END] + padding);
    assert(s.subrange(236, 240) =~= h.subrange(236, 240));
    let x = bytes::be32_octets(packet.xid as nat);
    assert(h.subrange(4, 8)[0] == s[4] && h.subrange(4, 8)[1] == s[5] && h.subrange(4, 8)[2] == s[6]
        && h.subrange(4, 8)[3] == s[7]);
    let f = bytes::be16_octets(packet.flags as nat);
    assert(h.subrange(10, 12)[0] == s[10] && h.subrange(10, 12)[1] == s[11]);
    assert(s.subrange(12, 16) =~= h.subrange(12, 16));
    assert(s.subrange(16, 20) =~= h.subrange(16, 20));
    assert(s.subrange(20, 24) =~= h.subrange(20, 24));
    assert(s.subrange(24, 28) =~= h.subrange(24, 28));
    assert(s.subrange(28, 44) =~= h.subrange(28, 44));
    assert(s.subrange(44, 108) =~= h.subrange(44, 108));
    assert(s.subrange(108, 236) =~= h.subrange(108, 236));
}

/// A packet that was written is read back.
pub proof fn lemma_packet_round_trip(packet: PacketView)
    requires
        writable(packet),
    ensures
        packet_of(packet_octets(packet)) == Ok::<PacketView, DhcpError>(packet),
{
    lemma_packet_padded(packet, Seq::empty());
    assert(packet_octets(packet) + Seq::<u8>::empty() =~= packet_octets(packet));
}

proof fn lemma_header_fields(packet: PacketView)
    requires
        writable(packet),
    ensures
        ({
            let h = header_octets(packet);
            &&& h.len() == 240
            &&& h[0] == packet.op
            &&& h.subrange(4, 8) == bytes::be32_octets(packet.xid as nat)
            &&& h.subrange(10, 12) == bytes::be16_octets(packet.flags as nat)
            &&& h.subrange(12, 16) == packet.ciaddr
            &&& h.subrange(16, 20) == packet.yiaddr
            &&& h.subrange(20, 24) == packet.siaddr
            &&& h.subrange(24, 28) == packet.giaddr
            &&& h.subrange(28, 44) == packet.chaddr
            &&& h.subrange(44, 108) == packet.sname
            &&& h.subrange(108, 236) == packet.file
            &&& h.subrange(236, 240) == magic_cookie()
        }),
{
    let h = header_octets(packet);
    assert(h.subrange(4, 8) =~= bytes::be32_octets(packet.xid as nat));
    assert(h.subrange(10, 12) =~= bytes::be16_octets(packet.flags as nat));
    assert(h.subrange(12, 16) =~= packet.ciaddr);
    assert(h.subrange(16, 20) =~= packet.yiaddr);
    assert(h.subrange(20, 24) =~= packet.siaddr);
    assert(h.subrange(24, 28) =~= packet.giaddr);
    assert(h.subrange(28, 44) =~= packet.chaddr);
    assert(h.subrange(44, 108) =~= packet.sname);
    assert(h.subrange(108, 236) =~= packet.file);
    assert(h.subrange(236, 240) =~= magic_cookie());
}

/// Options that were read can be written without loss.
proof fn lemma_options_writable(rest: Seq<u8>)
    ensures
        options_of(rest) is Ok ==> writable_options(options_of(rest)->Ok_0),
    decreases rest.len(),
{
    if rest.len() > 0 && rest[0] == OPTION_PAD {
        lemma_options_writable(rest.skip(1));
    } else if rest.len() >= 2 && rest[0] != OPTION_END && rest.len() >= 2 + rest[1] {
        lemma_options_writable(rest.skip(2 + rest[1]));
    }
}

/// A packet that was read, written and read again is the same.
pub proof fn lemma_packet_stable(bytes: Seq<u8>)
    requires
        packet_of(bytes) is Ok,
    ensures
        packet_of(packet_octets(packet_of(bytes)->Ok_0)) == packet_of(bytes),
{
    lemma_options_writable(bytes.skip(240));
    lemma_packet_round_trip(packet_of(bytes)->Ok_0);
}

// --- What a packet says ------------------------------------------------------------------------

/// The value of the first option with a code.
pub open spec fn option_in(options: Seq<(u8, Seq<u8>)>, code: u8) -> Option<Seq<u8>>
    decreases options.len(),
{
    if options.len() == 0 {
        None
    } else if options[0].0 == code {
        Some(options[0].1)
    } else {
        option_in(options.skip(1), code)
    }
}

/// The address with four octets; none when it is the unspecified one.
pub open spec fn address_field(octets: Seq<u8>) -> Option<Ipv4Addr> {
    if bytes::be32(octets, 0) == 0 {
        None
    } else {
        Some(Ipv4Addr { bits: bytes::be32(octets, 0) as u32 })
    }
}

/// The addresses that a value lists. Octets that do not make up another one are
/// ignored.
pub open spec fn addresses_in(value: Option<Seq<u8>>) -> Seq<Ipv4Addr> {
    match value {
        None => Seq::empty(),
        Some(octets) => Seq::new(
            octets.len() / 4,
            |i: int| Ipv4Addr { bits: bytes::be32(octets, 4 * i) as u32 },
        ),
    }
}

/// The address that a value holds, if it has the length of one.
pub open spec fn address_in(value: Option<Seq<u8>>) -> Option<Ipv4Addr> {
    match value {
        Some(octets) if octets.len() == 4 => Some(
            Ipv4Addr { bits: bytes::be32(octets, 0) as u32 },
        ),
        _ => None,
    }
}

/// The number that a value holds, if it has the length of one.
pub open spec fn seconds_in(value: Option<Seq<u8>>) -> Option<u32> {
    match value {
        Some(octets) if octets.len() == 4 => Some(bytes::be32(octets, 0) as u32),
        _ => None,
    }
}

/// The text that a value holds, up to the first zero octet, without white space
/// around it.
pub open spec fn text_in(value: Option<Seq<u8>>) -> Option<Seq<char>> {
    match value {
        Some(octets) => Some(text::trimmed(text::lossy_text(bytes::until_zero(octets)))),
        None => None,
    }
}

impl PacketView {
    /// The value of the first option with a code.
    pub open spec fn option(self, code: u8) -> Option<Seq<u8>> {
        option_in(self.options, code)
    }

    /// The message type; unknown without one.
    pub open spec fn kind(self) -> DhcpMessageType {
        match self.option(OPTION_MESSAGE_TYPE) {
            Some(value) if value.len() > 0 => DhcpMessageType::of(value[0]),
            _ => DhcpMessageType::Unknown(0),
        }
    }
}

fn as_ipv4(octets: &[u8], at: usize) -> (r: Ipv4Addr)
    requires
        at + 4 <= octets@.len(),
    ensures
        r == (Ipv4Addr { bits: bytes::be32(octets@, at as int) as u32 }),
{
    Ipv4Addr { bits: read_be32(octets, at) }
}

fn list_addresses(value: Option<&[u8]>) -> (r: Vec<Ipv4Addr>)
    ensures
        r@ == addresses_in(
            match value {
                Some(octets) => Some(octets@),
                None => None,
            },
        ),
{
    let mut out: Vec<Ipv4Addr> = Vec::new();
    match value {
        None => {},
        Some(octets) => {
            let count: usize = octets.len() / 4;
            let mut i: usize = 0;
            while i < count
                invariant
                    i <= count,
                    octets@.len() == octets.len(),
                    4 * count <= octets@.len(),
                    out@.len() == i,
                    forall|j: int|
                        0 <= j < i ==> #[trigger] out@[j] == (Ipv4Addr {
                            bits: bytes::be32(octets@, 4 * j) as u32,
                        }),
                decreases count - i,
            {
                out.push(as_ipv4(octets, 4 * i));
                i = i + 1;
            }
            assert(out@ =~= addresses_in(Some(octets@)));
        },
    }
    assert(out@ =~= addresses_in(
        match value {
            Some(octets) => Some(octets@),
            None => None,
        },
    ));
    out
}

impl DhcpPacket {
    /// Finds the value of the first option with a code.
    pub fn get_option(&self, code: u8) -> (r: Option<&[u8]>)
        ensures
            match r {
                Some(value) => self@.option(code) == Some(value@),
                None => self@.option(code) is None,
            },
    {
        let ghost views = self@.options;
        let mut i: usize = 0;
        assert(views.skip(0) =~= views);
        while i < self.options.len()
            invariant
                i <= self.options@.len(),
                views == option_views(self.options@),
                option_in(views, code) == option_in(views.skip(i as int), code),
            decreases self.options@.len() - i,
        {
            assert(views.skip(i as int)[0] == views[i as int]);
            assert(views.skip(i as int).skip(1) =~= views.skip(i + 1));
            if self.options[i].0 == code {
                return Some(self.options[i].1.as_slice());
            }
            i = i + 1;
        }
        None
    }

    /// The message type of the packet.
    pub fn message_type(&self) -> (r: DhcpMessageType)
        ensures
            r == self@.kind(),
    {
        match self.get_option(OPTION_MESSAGE_TYPE) {
            Some(value) => {
                if value.len() > 0 {
                    DhcpMessageType::from_u8(value[0])
                } else {
                    DhcpMessageType::Unknown(0)
                }
            },
            None => DhcpMessageType::Unknown(0),
        }
    }

    /// The hardware address of the client.
    pub fn hardware_address(&self) -> (r: [u8; 6])
        ensures
            r@ == self@.chaddr.take(6),
    {
        let mac: [u8; 6] = [
            self.chaddr[0],
            self.chaddr[1],
            self.chaddr[2],
            self.chaddr[3],
            self.chaddr[4],
            self.chaddr[5],
        ];
        assert(mac@ =~= self@.chaddr.take(6));
        mac
    }

    /// The address that the server hands out.
    pub fn yiaddr(&self) -> (r: Option<Ipv4Addr>)
        ensures
            r == address_field(self@.yiaddr),
    {
        let address: Ipv4Addr = as_ipv4(self.yiaddr.as_slice(), 0);
        if address.is_unspecified() {
            None
        } else {
            Some(address)
        }
    }

    /// The address that the client already has.
    pub fn ciaddr(&self) -> (r: Option<Ipv4Addr>)
        ensures
            r == address_field(self@.ciaddr),
    {
        let address: Ipv4Addr = as_ipv4(self.ciaddr.as_slice(), 0);
        if address.is_unspecified() {
            None
        } else {
            Some(address)
        }
    }

    /// The address of the server.
    pub fn source_address(&self) -> (r: Option<Ipv4Addr>)
        ensures
            r == address_field(self@.siaddr),
    {
        let address: Ipv4Addr = as_ipv4(self.siaddr.as_slice(), 0);
        if address.is_unspecified() {
            None
        } else {
            Some(address)
        }
    }

    fn address_option(&self, code: u8) -> (r: Option<Ipv4Addr>)
        ensures
            r == address_in(self@.option(code)),
    {
        match self.get_option(code) {
            Some(value) => {
                if value.len() == 4 {
                    Some(as_ipv4(value, 0))
                } else {
                    None
                }
            },
            None => None,
        }
    }

    /// The subnet mask of the network.
    pub fn subnet_mask(&self) -> (r: Option<Ipv4Addr>)
        ensures
            r == address_in(self@.option(OPTION_SUBNET_MASK)),
    {
        self.address_option(OPTION_SUBNET_MASK)
    }

    /// The routers of the network.
    pub fn routers(&self) -> (r: Vec<Ipv4Addr>)
        ensures
            r@ == addresses_in(self@.option(OPTION_ROUTER)),
    {
        list_addresses(self.get_option(OPTION_ROUTER))
    }

    /// The name servers of the network.
    pub fn dns_servers(&self) -> (r: Vec<Ipv4Addr>)
        ensures
            r@ == addresses_in(self@.option(OPTION_DNS)),
    {
        list_addresses(self.get_option(OPTION_DNS))
    }

    fn string_option(&self, code: u8) -> (r: Option<String>)
        ensures
            text::text_view(r) == text_in(self@.option(code)),
    {
        match self.get_option(code) {
            Some(value) => {
                let whole: String = decode_lossy(copy_until_zero(value).as_slice());
                let chars: Vec<char> = chars_of(whole.as_str());
                let inner: Vec<char> = trim(chars.as_slice());
                Some(text_of(inner.as_slice()))
            },
            None => None,
        }
    }

    /// The host name.
    pub fn hostname(&self) -> (r: Option<String>)
        ensures
            text::text_view(r) == text_in(self@.option(OPTION_HOSTNAME)),
    {
        self.string_option(OPTION_HOSTNAME)
    }

    /// The domain name.
    pub fn domain_name(&self) -> (r: Option<String>)
        ensures
            text::text_view(r) == text_in(self@.option(OPTION_DOMAIN_NAME)),
    {
        self.string_option(OPTION_DOMAIN_NAME)
    }

    fn u32_option(&self, code: u8) -> (r: Option<u32>)
        ensures
            r == seconds_in(self@.option(code)),
    {
        match self.get_option(code) {
            Some(value) => {
                if value.len() == 4 {
                    Some(read_be32(value, 0))
                } else {
                    None
                }
            },
            None => None,
        }
    }

    /// How long the lease lasts.
    pub fn lease_seconds(&self) -> (r: Option<u32>)
        ensures
            r == seconds_in(self@.option(OPTION_LEASE_TIME)),
    {
        self.u32_option(OPTION_LEASE_TIME)
    }

    /// When the lease is to be renewed.
    pub fn t1_seconds(&self) -> (r: Option<u32>)
        ensures
            r == seconds_in(self@.option(OPTION_T1)),
    {
        self.u32_option(OPTION_T1)
    }

    /// When the lease is to be rebound.
    pub fn t2_seconds(&self) -> (r: Option<u32>)
        ensures
            r == seconds_in(self@.option(OPTION_T2)),
    {
        self.u32_option(OPTION_T2)
    }

    /// The identifier of the server.
    pub fn server_identifier(&self) -> (r: Option<Ipv4Addr>)
        ensures
            r == address_in(self@.option(OPTION_SERVER_ID)),
    {
        self.address_option(OPTION_SERVER_ID)
    }
}

// --- Leases --------------------------------------------------------------------------------------

/// How many of the leading bits of a 32-bit number are set, counting at most
/// `width` of them.
pub open spec fn leading_ones(n: nat, width: nat) -> nat
    decreases width,
{
    if width == 0 || n < 0x8000_0000 {
        0
    } else {
        1 + leading_ones((2 * (n - 0x8000_0000)) as nat, (width - 1) as nat)
    }
}

/// Counts the leading set bits of an IPv4 netmask (its prefix length).
pub fn prefix_length_from_netmask(netmask: Ipv4Addr) -> (r: u8)
    ensures
        r == leading_ones(netmask.bits as nat, 32),
        r <= 32,
{
    let mut rest: u64 = netmask.bits as u64;
    let mut count: u8 = 0;
    while count < 32 && rest >= 0x8000_0000
        invariant
            count <= 32,
            rest < 0x1_0000_0000,
            leading_ones(netmask.bits as nat, 32) == count + leading_ones(
                rest as nat,
                (32 - count) as nat,
            ),
        decreases 32 - count,
    {
        rest = 2 * (rest - 0x8000_0000);
        count = count + 1;
    }
    count
}

proof fn lemma_mask_ones(prefix: nat, width: nat)
    requires
        prefix <= width <= 32,
    ensures
        leading_ones((0x1_0000_0000 - pow2((32 - prefix) as nat)) as nat, width) == prefix,
    decreases prefix,
{
    lemma2_to64();
    let k = (32 - prefix) as nat;
    lemma_pow2_pos(k);
    if prefix > 0 {
        lemma_mask_ones((prefix - 1) as nat, (width - 1) as nat);
        lemma_pow2_unfold((k + 1) as nat);
        if k < 31 {
            lemma_pow2_strictly_increases(k, 31);
        }
    }
}

/// The prefix length of the subnet mask of a prefix length is that length.
pub proof fn lemma_prefix_of_mask(prefix: nat)
    requires
        prefix <= 32,
    ensures
        leading_ones((0x1_0000_0000 - net::host_count(32, prefix)) as nat, 32) == prefix,
{
    lemma2_to64();
    lemma_mask_ones(prefix, 32);
}

/// The mask of a network whose reply gave none: that of the address's class.
pub open spec fn class_mask(address: Ipv4Addr) -> Ipv4Addr {
    if address.bits < 0x8000_0000 {
        Ipv4Addr { bits: 0xff00_0000 }
    } else if address.bits < 0xc000_0000 {
        Ipv4Addr { bits: 0xffff_0000 }
    } else {
        Ipv4Addr { bits: 0xffff_ff00 }
    }
}

/// The mask that a reply gives an address.
pub open spec fn netmask_in(packet: PacketView, address: Ipv4Addr) -> Ipv4Addr {
    match address_in(packet.option(OPTION_SUBNET_MASK)) {
        Some(mask) => mask,
        None => class_mask(address),
    }
}

/// The lease that an acknowledgement grants.
pub open spec fn lease_of(
    packet: PacketView,
    interface_index: i32,
    interface_name: Seq<char>,
    mac: Seq<u8>,
) -> Result<DhcpLeaseView, DhcpError> {
    match address_field(packet.yiaddr) {
        None => Err(DhcpError::MalformedPacket("DHCPACK carried no address")),
        Some(address) => if packet.chaddr.take(6) != mac {
            Err(DhcpError::MalformedPacket("DHCPACK addressed to another client"))
        } else {
            let routers = addresses_in(packet.option(OPTION_ROUTER));
            Ok(
                DhcpLeaseView {
                    interface_index,
                    interface_name,
                    address,
                    prefix_length: leading_ones(
                        netmask_in(packet, address).bits as nat,
                        32,
                    ) as u8,
                    netmask: netmask_in(packet, address),
                    gateway: if routers.len() > 0 {
                        Some(routers[0])
                    } else {
                        None
                    },
                    dns_servers: addresses_in(packet.option(OPTION_DNS)),
                    search_domains: match text_in(packet.option(OPTION_DOMAIN_NAME)) {
                        Some(domain) => seq![domain],
                        None => Seq::empty(),
                    },
                    server_identifier: address_in(packet.option(OPTION_SERVER_ID)),
                    lease_seconds: seconds_in(packet.option(OPTION_LEASE_TIME)),
                    t1_seconds: seconds_in(packet.option(OPTION_T1)),
                    t2_seconds: seconds_in(packet.option(OPTION_T2)),
                },
            )
        },
    }
}

impl DhcpPacket {
    /// Derives a lease from a validated DHCPACK.
    pub fn to_lease(&self, interface_index: i32, interface_name: &str, mac: [u8; 6]) -> (r: Result<
        DhcpLease,
        DhcpError,
    >)
        ensures
            match r {
                Ok(lease) => lease_of(self@, interface_index, interface_name@, mac@) == Ok::<
                    DhcpLeaseView,
                    DhcpError,
                >(lease@),
                Err(e) => lease_of(self@, interface_index, interface_name@, mac@) == Err::<
                    DhcpLeaseView,
                    DhcpError,
                >(e),
            },
    {
        let address: Ipv4Addr = match self.yiaddr() {
            Some(address) => address,
            None => {
                return Err(DhcpError::MalformedPacket("DHCPACK carried no address"));
            },
        };
        let own: [u8; 6] = self.hardware_address();
        if !same_octets(own.as_slice(), mac.as_slice()) {
            return Err(DhcpError::MalformedPacket("DHCPACK addressed to another client"));
        }
        let netmask: Ipv4Addr = match self.subnet_mask() {
            Some(mask) => mask,
            None => {
                if address.bits < 0x8000_0000 {
                    Ipv4Addr { bits: 0xff00_0000 }
                } else if address.bits < 0xc000_0000 {
                    Ipv4Addr { bits: 0xffff_0000 }
                } else {
                    Ipv4Addr { bits: 0xffff_ff00 }
                }
            },
        };
        let routers: Vec<Ipv4Addr> = self.routers();
        let gateway: Option<Ipv4Addr> = if routers.len() > 0 {
            Some(routers[0])
        } else {
            None
        };
        let mut search_domains: Vec<String> = Vec::new();
        match self.domain_name() {
            Some(domain) => {
                search_domains.push(domain);
            },
            None => {},
        }
        assert(text::string_views(search_domains@) =~= match text_in(
            self@.option(OPTION_DOMAIN_NAME),
        ) {
            Some(domain) => seq![domain],
            None => Seq::empty(),
        });
        Ok(
            DhcpLease {
                interface_index,
                interface_name: interface_name.to_owned(),
                address,
                prefix_length: prefix_length_from_netmask(netmask),
                netmask,
                gateway,
                dns_servers: self.dns_servers(),
                search_domains,
                server_identifier: self.server_identifier(),
                lease_seconds: self.lease_seconds(),
                t1_seconds: self.t1_seconds(),
                t2_seconds: self.t2_seconds(),
            },
        )
    }
}

// --- Building packets ------------------------------------------------------------------------------

/// Zero octets.
pub open spec fn zeros(count: nat) -> Seq<u8> {
    Seq::new(count, |i: int| 0u8)
}

/// A packet with the given header fields and options, and zeros elsewhere.
pub open spec fn plain_packet(
    op: u8,
    xid: u32,
    flags: u16,
    ciaddr: Ipv4Addr,
    yiaddr: Ipv4Addr,
    mac: Seq<u8>,
    options: Seq<(u8, Seq<u8>)>,
) -> PacketView {
    PacketView {
        op,
        xid,
        flags,
        ciaddr: ciaddr.octets_view(),
        yiaddr: yiaddr.octets_view(),
        siaddr: zeros(4),
        giaddr: zeros(4),
        chaddr: mac + zeros(10),
        sname: zeros(64),
        file: zeros(128),
        options,
    }
}

/// Builds a packet with the given header fields and options, and zeros
/// elsewhere.
pub fn base_packet(
    op: u8,
    xid: u32,
    flags: u16,
    ciaddr: Ipv4Addr,
    yiaddr: Ipv4Addr,
    mac: [u8; 6],
    options: Vec<(u8, Vec<u8>)>,
) -> (r: DhcpPacket)
    ensures
        r@ == plain_packet(op, xid, flags, ciaddr, yiaddr, mac@, option_views(options@)),
{
    let mut chaddr: [u8; 16] = [0; 16];
    chaddr[0] = mac[0];
    chaddr[1] = mac[1];
    chaddr[2] = mac[2];
    chaddr[3] = mac[3];
    chaddr[4] = mac[4];
    chaddr[5] = mac[5];
    let packet = DhcpPacket {
        op,
        xid,
        flags,
        ciaddr: ciaddr.octets(),
        yiaddr: yiaddr.octets(),
        siaddr: [0; 4],
        giaddr: [0; 4],
        chaddr,
        sname: [0; 64],
        file: [0; 128],
        options,
    };
    assert(packet@.chaddr =~= mac@ + zeros(10));
    assert(packet@.siaddr =~= zeros(4));
    assert(packet@.giaddr =~= zeros(4));
    assert(packet@.sname =~= zeros(64));
    assert(packet@.file =~= zeros(128));
    packet
}

/// The option that says what kind of message a packet is.
pub open spec fn kind_option(kind: DhcpMessageType) -> (u8, Seq<u8>) {
    (OPTION_MESSAGE_TYPE, seq![kind.number()])
}

/// An option that names the host, if there is a name.
pub open spec fn host_option(hostname: Option<Seq<char>>) -> Seq<(u8, Seq<u8>)> {
    match hostname {
        Some(name) => seq![(OPTION_HOSTNAME, encode_utf8(name))],
        None => Seq::empty(),
    }
}

/// An option that holds an address, if there is one.
pub open spec fn address_entry(code: u8, address: Option<Ipv4Addr>) -> Seq<(u8, Seq<u8>)> {
    match address {
        Some(value) => seq![(code, value.octets_view())],
        None => Seq::empty(),
    }
}

/// The packet by which a client looks for servers.
pub open spec fn discover_packet(
    xid: u32,
    mac: Seq<u8>,
    hostname: Option<Seq<char>>,
    requested_address: Option<Ipv4Addr>,
) -> PacketView {
    plain_packet(
        OP_BOOTREQUEST,
        xid,
        BROADCAST_FLAG,
        Ipv4Addr { bits: 0 },
        Ipv4Addr { bits: 0 },
        mac,
        seq![kind_option(DhcpMessageType::Discover)] + host_option(hostname) + address_entry(
            OPTION_REQUESTED_IP,
            requested_address,
        ),
    )
}

/// The packet by which a client confirms an offered address.
pub open spec fn request_packet(
    xid: u32,
    mac: Seq<u8>,
    requested_address: Option<Ipv4Addr>,
    server_identifier: Option<Ipv4Addr>,
    hostname: Option<Seq<char>>,
) -> PacketView {
    plain_packet(
        OP_BOOTREQUEST,
        xid,
        BROADCAST_FLAG,
        Ipv4Addr { bits: 0 },
        Ipv4Addr { bits: 0 },
        mac,
        seq![kind_option(DhcpMessageType::Request)] + address_entry(
            OPTION_REQUESTED_IP,
            requested_address,
        ) + address_entry(OPTION_SERVER_ID, server_identifier) + host_option(hostname),
    )
}

/// The packet by which a client gives up an address.
pub open spec fn release_packet(
    xid: u32,
    mac: Seq<u8>,
    address: Ipv4Addr,
    server_identifier: Ipv4Addr,
) -> PacketView {
    plain_packet(
        OP_BOOTREQUEST,
        xid,
        0,
        address,
        Ipv4Addr { bits: 0 },
        mac,
        seq![
            kind_option(DhcpMessageType::Release),
            (OPTION_SERVER_ID, server_identifier.octets_view()),
        ],
    )
}

fn kind_entry(kind: DhcpMessageType) -> (r: Vec<(u8, Vec<u8>)>)
    ensures
        option_views(r@) == seq![kind_option(kind)],
{
    let mut value: Vec<u8> = Vec::new();
    value.push(kind.as_u8());
    let mut options: Vec<(u8, Vec<u8>)> = Vec::new();
    options.push((OPTION_MESSAGE_TYPE, value));
    assert(value@ =~= seq![kind.number()]);
    assert(option_views(options@) =~= seq![kind_option(kind)]);
    options
}

fn push_option(options: &mut Vec<(u8, Vec<u8>)>, code: u8, value: Vec<u8>)
    ensures
        option_views(final(options)@) == option_views(old(options)@) + seq![(code, value@)],
{
    options.push((code, value));
    assert(option_views(options@) =~= option_views(old(options)@) + seq![(code, value@)]);
}

fn push_address(options: &mut Vec<(u8, Vec<u8>)>, code: u8, address: Option<Ipv4Addr>)
    ensures
        option_views(final(options)@) == option_views(old(options)@) + address_entry(code, address),
{
    match address {
        Some(value) => {
            push_option(options, code, value.octets_vec());
        },
        None => {
            assert(option_views(options@) =~= option_views(old(options)@) + address_entry(
                code,
                address,
            ));
        },
    }
}

fn push_host(options: &mut Vec<(u8, Vec<u8>)>, hostname: Option<&str>)
    ensures
        option_views(final(options)@) == option_views(old(options)@) + host_option(
            text::str_view(hostname),
        ),
{
    match hostname {
        Some(name) => {
            push_option(options, OPTION_HOSTNAME, vstd::slice::slice_to_vec(name.as_bytes()));
        },
        None => {
            assert(option_views(options@) =~= option_views(old(options)@) + host_option(None));
        },
    }
}

impl DhcpPacket {
    /// Builds a DISCOVER request as raw bytes.
    pub fn build_discover(
        xid: u32,
        mac: [u8; 6],
        hostname: Option<&str>,
        requested_address: Option<Ipv4Addr>,
    ) -> (r: Vec<u8>)
        ensures
            r@ == packet_octets(
                discover_packet(xid, mac@, text::str_view(hostname), requested_address),
            ),
    {
        let mut options: Vec<(u8, Vec<u8>)> = kind_entry(DhcpMessageType::Discover);
        push_host(&mut options, hostname);
        push_address(&mut options, OPTION_REQUESTED_IP, requested_address);
        let packet: DhcpPacket = base_packet(
            OP_BOOTREQUEST,
            xid,
            BROADCAST_FLAG,
            Ipv4Addr::unspecified(),
            Ipv4Addr::unspecified(),
            mac,
            options,
        );
        serialize(&packet)
    }

    /// Builds a REQUEST confirming the offered address.
    pub fn build_request(
        xid: u32,
        mac: [u8; 6],
        requested_address: Option<Ipv4Addr>,
        server_identifier: Option<Ipv4Addr>,
        hostname: Option<&str>,
    ) -> (r: Vec<u8>)
        ensures
            r@ == packet_octets(
                request_packet(
                    xid,
                    mac@,
                    requested_address,
                    server_identifier,
                    text::str_view(hostname),
                ),
            ),
    {
        let mut options: Vec<(u8, Vec<u8>)> = kind_entry(DhcpMessageType::Request);
        push_address(&mut options, OPTION_REQUESTED_IP, requested_address);
        push_address(&mut options, OPTION_SERVER_ID, server_identifier);
        push_host(&mut options, hostname);
        let packet: DhcpPacket = base_packet(
            OP_BOOTREQUEST,
            xid,
            BROADCAST_FLAG,
            Ipv4Addr::unspecified(),
            Ipv4Addr::unspecified(),
            mac,
            options,
        );
        serialize(&packet)
    }

    /// Builds a RELEASE for a lease the client no longer needs.
    pub fn build_release(
        xid: u32,
        mac: [u8; 6],
        address: Ipv4Addr,
        server_identifier: Ipv4Addr,
    ) -> (r: Vec<u8>)
        ensures
            r@ == packet_octets(release_packet(xid, mac@, address, server_identifier)),
    {
        let mut options: Vec<(u8, Vec<u8>)> = kind_entry(DhcpMessageType::Release);
        push_option(&mut options, OPTION_SERVER_ID, server_identifier.octets_vec());
        let packet: DhcpPacket = base_packet(
            OP_BOOTREQUEST,
            xid,
            0,
            address,
            Ipv4Addr::unspecified(),
            mac,
            options,
        );
        assert(option_views(options@) =~= seq![
            kind_option(DhcpMessageType::Release),
            (OPTION_SERVER_ID, server_identifier.octets_view()),
        ]);
        serialize(&packet)
    }

    /// Builds a server reply.
    pub fn build_reply(
        message_type: DhcpMessageType,
        xid: u32,
        mac: [u8; 6],
        yiaddr: Ipv4Addr,
        extra_options: &[(u8, Vec<u8>)],
    ) -> (r: Vec<u8>)
        ensures
            r@ == packet_octets(
                plain_packet(
                    OP_BOOTREPLY,
                    xid,
                    0,
                    Ipv4Addr { bits: 0 },
                    yiaddr,
                    mac@,
                    seq![kind_option(message_type)] + option_views(extra_options@),
                ),
            ),
    {
        let mut options: Vec<(u8, Vec<u8>)> = kind_entry(message_type);
        let ghost first = option_views(options@);
        let ghost extra = option_views(extra_options@);
        let mut i: usize = 0;
        assert(first + extra.take(0) =~= first);
        while i < extra_options.len()
            invariant
                i <= extra_options@.len(),
                extra == option_views(extra_options@),
                option_views(options@) == first + extra.take(i as int),
            decreases extra_options@.len() - i,
        {
            push_option(
                &mut options,
                extra_options[i].0,
                vstd::slice::slice_to_vec(extra_options[i].1.as_slice()),
            );
            i = i + 1;
            assert((first + extra.take(i - 1)) + seq![extra[i - 1]] =~= first + extra.take(
                i as int,
            ));
        }
        assert(extra.take(i as int) =~= extra);
        let packet: DhcpPacket = base_packet(
            OP_BOOTREPLY,
            xid,
            0,
            Ipv4Addr::unspecified(),
            yiaddr,
            mac,
            options,
        );
        serialize(&packet)
    }
}

/// A packet that was built from header fields and options that fit is read back
/// as it was built.
pub proof fn lemma_built_packet(
    op: u8,
    xid: u32,
    flags: u16,
    ciaddr: Ipv4Addr,
    yiaddr: Ipv4Addr,
    mac: Seq<u8>,
    options: Seq<(u8, Seq<u8>)>,
)
    requires
        mac.len() == 6,
        writable_options(options),
    ensures
        ({
            let packet = plain_packet(op, xid, flags, ciaddr, yiaddr, mac, options);
            &&& packet_of(packet_octets(packet)) == Ok::<PacketView, DhcpError>(packet)
            &&& packet.chaddr.take(6) == mac
            &&& address_field(packet.yiaddr) == if yiaddr.bits == 0 {
                None
            } else {
                Some(yiaddr)
            }
            &&& address_field(packet.ciaddr) == if ciaddr.bits == 0 {
                None
            } else {
                Some(ciaddr)
            }
        }),
{
    let packet = plain_packet(op, xid, flags, ciaddr, yiaddr, mac, options);
    bytes::lemma_be32(ciaddr.bits as nat);
    bytes::lemma_be32(yiaddr.bits as nat);
    lemma_packet_round_trip(packet);
    assert(packet.chaddr.take(6) =~= mac);
}

} // verus!
