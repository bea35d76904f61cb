//! rtnetlink messages: framing, attributes, links, addresses and routes.
//!
//! Multi-byte fields are in the order of the host.

use vstd::prelude::*;

use crate::bytes;
use crate::bytes::{
    append_octets, append_zeros, copy_until_zero, push_ne16, push_ne32, read_ne16, read_ne32,
    to_signed, to_unsigned,
};
use crate::linux::model;
use crate::linux::model::{
    Address, AddressEvent, AddressEventKind, IpFamily, Link, LinkEvent, LinkEventKind, LinkFlags,
    LinkView, NetlinkError, NetworkEvent, NetworkEventView, Route, RouteEvent, RouteEventKind,
    RouteKind, RouteScope,
};
use crate::net;
use crate::net::{IpAddr, Ipv4Addr, Ipv6Addr};
use crate::sort;
use crate::sort::{sort, Ranked};
use crate::text;
use crate::text::decode_lossy;

verus! {

pub const NLM_F_REQUEST: u16 = 0x0001;

pub const NLM_F_ACK: u16 = 0x0004;

pub const NLM_F_REPLACE: u16 = 0x0100;

pub const NLM_F_DUMP: u16 = 0x0300;

pub const NLM_F_EXCL: u16 = 0x0200;

pub const NLM_F_CREATE: u16 = 0x0400;

pub const NLMSG_ERROR: u16 = 2;

pub const NLMSG_DONE: u16 = 3;

pub const RTM_NEWLINK: u16 = 16;

pub const RTM_DELLINK: u16 = 17;

pub const RTM_GETLINK: u16 = 18;

pub const RTM_NEWADDR: u16 = 20;

pub const RTM_DELADDR: u16 = 21;

pub const RTM_GETADDR: u16 = 22;

pub const RTM_NEWROUTE: u16 = 24;

pub const RTM_DELROUTE: u16 = 25;

pub const RTM_GETROUTE: u16 = 26;

pub const IFLA_IFNAME: u16 = 3;

pub const IFA_ADDRESS: u16 = 1;

pub const IFA_LOCAL: u16 = 2;

pub const RTA_DST: u16 = 1;

pub const RTA_OIF: u16 = 4;

pub const RTA_GATEWAY: u16 = 5;

pub const RTA_PRIORITY: u16 = 6;

pub const RT_TABLE_MAIN: u8 = 254;

pub const RTN_UNICAST: u8 = 1;

pub const RTPROT_STATIC: u8 = 4;

pub const RT_SCOPE_LINK: u8 = 253;

pub const AF_INET: u8 = 2;

pub const AF_INET6: u8 = 10;

// --- Fixed structures ---------------------------------------------------------------

/// The header of a netlink message.
#[derive(Clone, Copy, Debug, PartialEq, Eq, Structural)]
pub struct NlMsgHdr {
    pub nlmsg_len: u32,
    pub nlmsg_type: u16,
    pub nlmsg_flags: u16,
    pub nlmsg_seq: u32,
    pub nlmsg_pid: u32,
}

impl NlMsgHdr {
    /// The octets of the header.
    pub open spec fn octets(self) -> Seq<u8> {
        bytes::ne32_octets(self.nlmsg_len as nat) + bytes::ne16_octets(self.nlmsg_type as nat) + bytes::ne16_octets(
            self.nlmsg_flags as nat,
        ) + bytes::ne32_octets(self.nlmsg_seq as nat) + bytes::ne32_octets(self.nlmsg_pid as nat)
    }

    /// The header at the start of a buffer.
    pub open spec fn at(buf: Seq<u8>) -> Self {
        NlMsgHdr {
            nlmsg_len: bytes::ne32(buf, 0) as u32,
            nlmsg_type: bytes::ne16(buf, 4) as u16,
            nlmsg_flags: bytes::ne16(buf, 6) as u16,
            nlmsg_seq: bytes::ne32(buf, 8) as u32,
            nlmsg_pid: bytes::ne32(buf, 12) as u32,
        }
    }

    /// Appends the octets of the header.
    pub fn append_to(&self, out: &mut Vec<u8>)
        ensures
            final(out)@ == old(out)@ + self.octets(),
    {
        push_ne32(out, self.nlmsg_len);
        push_ne16(out, self.nlmsg_type);
        push_ne16(out, self.nlmsg_flags);
        push_ne32(out, self.nlmsg_seq);
        push_ne32(out, self.nlmsg_pid);
        assert(out@ =~= old(out)@ + self.octets());
    }

    /// Reads the header at the start of a buffer.
    pub fn read_from(buf: &[u8]) -> (r: Result<Self, NetlinkError>)
        ensures
            r == if buf@.len() < 16 {
                Err(NetlinkError::MalformedMessage("short structured data"))
            } else {
                Ok(NlMsgHdr::at(buf@))
            },
    {
        if buf.len() < 16 {
            return Err(NetlinkError::MalformedMessage("short structured data"));
        }
        Ok(
            NlMsgHdr {
                nlmsg_len: read_ne32(buf, 0),
                nlmsg_type: read_ne16(buf, 4),
                nlmsg_flags: read_ne16(buf, 6),
                nlmsg_seq: read_ne32(buf, 8),
                nlmsg_pid: read_ne32(buf, 12),
            },
        )
    }
}

/// Reading the octets of a header gives the header, whatever follows them.
pub proof fn lemma_header(h: NlMsgHdr, rest: Seq<u8>)
    ensures
        h.octets().len() == 16,
        NlMsgHdr::at(h.octets() + rest) == h,
{
    bytes::lemma_ne32(h.nlmsg_len as nat);
    bytes::lemma_ne16(h.nlmsg_type as nat);
    bytes::lemma_ne16(h.nlmsg_flags as nat);
    bytes::lemma_ne32(h.nlmsg_seq as nat);
    bytes::lemma_ne32(h.nlmsg_pid as nat);
    let s = h.octets() + rest;
    let a = bytes::ne32_octets(h.nlmsg_len as nat);
    let b = bytes::ne16_octets(h.nlmsg_type as nat);
    let c = bytes::ne16_octets(h.nlmsg_flags as nat);
    let d = bytes::ne32_octets(h.nlmsg_seq as nat);
    let e = bytes::ne32_octets(h.nlmsg_pid as nat);
    assert(s[0] == a[0] && s[1] == a[1] && s[2] == a[2] && s[3] == a[3]);
    assert(s[4] == b[0] && s[5] == b[1]);
    assert(s[6] == c[0] && s[7] == c[1]);
    assert(s[8] == d[0] && s[9] == d[1] && s[10] == d[2] && s[11] == d[3]);
    assert(s[12] == e[0] && s[13] == e[1] && s[14] == e[2] && s[15] == e[3]);
}

/// The fixed part of an address message.
#[derive(Clone, Copy, Debug, PartialEq, Eq, Structural)]
pub struct IfAddrMsg {
    pub ifa_family: u8,
    pub ifa_prefixlen: u8,
    pub ifa_flags: u8,
    pub ifa_scope: u8,
    pub ifa_index: u32,
}

impl IfAddrMsg {
    /// The octets of the structure.
    pub open spec fn octets(self) -> Seq<u8> {
        seq![self.ifa_family, self.ifa_prefixlen, self.ifa_flags, self.ifa_scope] + bytes::ne32_octets(
            self.ifa_index as nat,
        )
    }

    /// The structure at the start of a buffer.
    pub open spec fn at(buf: Seq<u8>) -> Self {
        IfAddrMsg {
            ifa_family: buf[0],
            ifa_prefixlen: buf[1],
            ifa_flags: buf[2],
            ifa_scope: buf[3],
            ifa_index: bytes::ne32(buf, 4) as u32,
        }
    }

    /// Appends the octets of the structure.
    pub fn append_to(&self, out: &mut Vec<u8>)
        ensures
            final(out)@ == old(out)@ + self.octets(),
    {
        out.push(self.ifa_family);
        out.push(self.ifa_prefixlen);
        out.push(self.ifa_flags);
        out.push(self.ifa_scope);
        push_ne32(out, self.ifa_index);
        assert(out@ =~= old(out)@ + self.octets());
    }

    /// Reads the structure at the start of a buffer.
    pub fn read_from(buf: &[u8]) -> (r: Result<Self, NetlinkError>)
        ensures
            r == if buf@.len() < 8 {
                Err(NetlinkError::MalformedMessage("short structured data"))
            } else {
                Ok(IfAddrMsg::at(buf@))
            },
    {
        if buf.len() < 8 {
            return Err(NetlinkError::MalformedMessage("short structured data"));
        }
        Ok(
            IfAddrMsg {
                ifa_family: buf[0],
                ifa_prefixlen: buf[1],
                ifa_flags: buf[2],
                ifa_scope: buf[3],
                ifa_index: read_ne32(buf, 4),
            },
        )
    }
}

/// Reading the octets of an address structure gives the structure, whatever
/// follows them.
pub proof fn lemma_ifaddr(info: IfAddrMsg, rest: Seq<u8>)
    ensures
        info.octets().len() == 8,
        IfAddrMsg::at(info.octets() + rest) == info,
        (info.octets() + rest).skip(8) == rest,
{
    bytes::lemma_ne32(info.ifa_index as nat);
    let s = info.octets() + rest;
    let a = bytes::ne32_octets(info.ifa_index as nat);
    assert(s[4] == a[0] && s[5] == a[1] && s[6] == a[2] && s[7] == a[3]);
    assert(s.skip(8) =~= rest);
}

/// The fixed part of a route message.
#[derive(Clone, Copy, Debug, PartialEq, Eq, Structural)]
pub struct RtMsg {
    pub rtm_family: u8,
    pub rtm_dst_len: u8,
    pub rtm_src_len: u8,
    pub rtm_tos: u8,
    pub rtm_table: u8,
    pub rtm_protocol: u8,
    pub rtm_scope: u8,
    pub rtm_type: u8,
    pub rtm_flags: u32,
}

impl RtMsg {
    /// The octets of the structure.
    pub open spec fn octets(self) -> Seq<u8> {
        seq![
            self.rtm_family,
            self.rtm_dst_len,
            self.rtm_src_len,
            self.rtm_tos,
            self.rtm_table,
            self.rtm_protocol,
            self.rtm_scope,
            self.rtm_type,
        ] + bytes::ne32_octets(self.rtm_flags as nat)
    }

    /// The structure at the start of a buffer.
    pub open spec fn at(buf: Seq<u8>) -> Self {
        RtMsg {
            rtm_family: buf[0],
            rtm_dst_len: buf[1],
            rtm_src_len: buf[2],
            rtm_tos: buf[3],
            rtm_table: buf[4],
            rtm_protocol: buf[5],
            rtm_scope: buf[6],
            rtm_type: buf[7],
            rtm_flags: bytes::ne32(buf, 8) as u32,
        }
    }

    /// Appends the octets of the structure.
    pub fn append_to(&self, out: &mut Vec<u8>)
        ensures
            final(out)@ == old(out)@ + self.octets(),
    {
        out.push(self.rtm_family);
        out.push(self.rtm_dst_len);
        out.push(self.rtm_src_len);
        out.push(self.rtm_tos);
        out.push(self.rtm_table);
        out.push(self.rtm_protocol);
        out.push(self.rtm_scope);
        out.push(self.rtm_type);
        push_ne32(out, self.rtm_flags);
        assert(out@ =~= old(out)@ + self.octets());
    }

    /// Reads the structure at the start of a buffer.
    pub fn read_from(buf: &[u8]) -> (r: Result<Self, NetlinkError>)
        ensures
            r == if buf@.len() < 12 {
                Err(NetlinkError::MalformedMessage("short structured data"))
            } else {
                Ok(RtMsg::at(buf@))
            },
    {
        if buf.len() < 12 {
            return Err(NetlinkError::MalformedMessage("short structured data"));
        }
        Ok(
            RtMsg {
                rtm_family: buf[0],
                rtm_dst_len: buf[1],
                rtm_src_len: buf[2],
                rtm_tos: buf[3],
                rtm_table: buf[4],
                rtm_protocol: buf[5],
                rtm_scope: buf[6],
                rtm_type: buf[7],
                rtm_flags: read_ne32(buf, 8),
            },
        )
    }
}

/// Reading the octets of a route structure gives the structure, whatever
/// follows them.
pub proof fn lemma_rtmsg(info: RtMsg, rest: Seq<u8>)
    ensures
        info.octets().len() == 12,
        RtMsg::at(info.octets() + rest) == info,
        (info.octets() + rest).skip(12) == rest,
{
    bytes::lemma_ne32(info.rtm_flags as nat);
    let s = info.octets() + rest;
    let a = bytes::ne32_octets(info.rtm_flags as nat);
    assert(s[8] == a[0] && s[9] == a[1] && s[10] == a[2] && s[11] == a[3]);
    assert(s.skip(12) =~= rest);
}

/// The fixed part of a link message.
#[derive(Clone, Copy, Debug, PartialEq, Eq, Structural)]
pub struct IfInfoMsg {
    pub ifi_family: u8,
    pub ifi_pad: u8,
    pub ifi_type: u16,
    pub ifi_index: i32,
    pub ifi_flags: u32,
    pub ifi_change: u32,
}

impl IfInfoMsg {
    /// The octets of the structure.
    pub open spec fn octets(self) -> Seq<u8> {
        seq![self.ifi_family, self.ifi_pad] + bytes::ne16_octets(self.ifi_type as nat) + bytes::ne32_octets(
            bytes::unsigned32(self.ifi_index as int),
        ) + bytes::ne32_octets(self.ifi_flags as nat) + bytes::ne32_octets(self.ifi_change as nat)
    }

    /// Appends the octets of the structure.
    pub fn append_to(&self, out: &mut Vec<u8>)
        ensures
            final(out)@ == old(out)@ + self.octets(),
    {
        out.push(self.ifi_family);
        out.push(self.ifi_pad);
        push_ne16(out, self.ifi_type);
        push_ne32(out, to_unsigned(self.ifi_index));
        push_ne32(out, self.ifi_flags);
        push_ne32(out, self.ifi_change);
        assert(out@ =~= old(out)@ + self.octets());
    }
}

// --- Framing ------------------------------------------------------------------------------

/// A length rounded up to a multiple of four.
pub open spec fn aligned(n: nat) -> nat {
    (n + 3) / 4 * 4
}

/// What follows an item of `n` octets and its padding.
pub open spec fn after(rest: Seq<u8>, n: nat) -> Seq<u8> {
    if aligned(n) >= rest.len() {
        Seq::empty()
    } else {
        rest.skip(aligned(n) as int)
    }
}

/// What stands at the start of a buffer of messages.
#[verifier::ext_equal]
pub enum Frame {
    /// Fewer octets than a header takes.
    End,
    /// A header whose length is too small, or reaches past the buffer.
    Malformed,
    /// A message.
    Message { header: NlMsgHdr, payload: Seq<u8> },
}

/// What stands at the start of a buffer of messages.
pub open spec fn frame_at(rest: Seq<u8>) -> Frame {
    if rest.len() < 16 {
        Frame::End
    } else {
        let header = NlMsgHdr::at(rest);
        if header.nlmsg_len < 16 || header.nlmsg_len > rest.len() {
            Frame::Malformed
        } else {
            Frame::Message { header, payload: rest.subrange(16, header.nlmsg_len as int) }
        }
    }
}

/// A message found in a buffer: its header and where its payload and the next
/// message are. `padded` is unset when the buffer ends within the padding.
pub struct Message {
    pub header: NlMsgHdr,
    pub start: usize,
    pub end: usize,
    pub next: usize,
    pub padded: bool,
}

/// The error for a message whose header has an impossible length.
pub open spec fn bad_length() -> NetlinkError {
    NetlinkError::MalformedMessage("invalid nlmsghdr length")
}

/// Finds the message at `offset`.
pub fn next_message(buf: &[u8], offset: usize) -> (r: Result<Option<Message>, NetlinkError>)
    requires
        offset <= buf@.len(),
    ensures
        match (frame_at(buf@.skip(offset as int)), r) {
            (Frame::End, Ok(None)) => true,
            (Frame::Malformed, Err(e)) => e == bad_length(),
            (Frame::Message { header, payload }, Ok(Some(m))) => {
                let rest = buf@.skip(offset as int);
                &&& m.header == header
                &&& offset < m.start <= m.end <= m.next <= buf@.len()
                &&& buf@.subrange(m.start as int, m.end as int) == payload
                &&& buf@.skip(m.next as int) == after(rest, header.nlmsg_len as nat)
                &&& m.padded == (aligned(header.nlmsg_len as nat) <= rest.len())
            },
            _ => false,
        },
{
    let ghost rest = buf@.skip(offset as int);
    let left: usize = buf.len() - offset;
    if left < 16 {
        return Ok(None);
    }
    let tail: &[u8] = vstd::slice::slice_subrange(buf, offset, buf.len());
    assert(tail@ =~= rest);
    let header: NlMsgHdr = match NlMsgHdr::read_from(tail) {
        Ok(header) => header,
        Err(_) => {
            return Ok(None);
        },
    };
    let len: usize = header.nlmsg_len as usize;
    if len < 16 || len > left {
        return Err(NetlinkError::MalformedMessage("invalid nlmsghdr length"));
    }
    let pad: usize = (4 - len % 4) % 4;
    let padded: bool = pad <= left - len;
    let next: usize = if padded {
        offset + len + pad
    } else {
        buf.len()
    };
    proof {
        assert(aligned(len as nat) == len + pad);
        assert(buf@.subrange(offset + 16, offset + len) =~= rest.subrange(16, len as int));
        assert(buf@.skip(next as int) =~= after(rest, len as nat));
    }
    Ok(Some(Message { header, start: offset + 16, end: offset + len, next, padded }))
}

// --- Attributes -----------------------------------------------------------------------------

/// The attributes in a payload, up to the first one that is malformed.
#[verifier::ext_equal]
pub struct Attrs {
    pub list: Seq<(u16, Seq<u8>)>,
    /// Whether no attribute was malformed.
    pub whole: bool,
}

/// The attributes in a payload: each has a length, a type and a value, and is
/// padded to a multiple of four octets.
pub open spec fn attrs_of(rest: Seq<u8>) -> Attrs
    decreases rest.len(),
{
    if rest.len() < 4 {
        Attrs { list: Seq::empty(), whole: true }
    } else {
        let n = bytes::ne16(rest, 0);
        if n < 4 || n > rest.len() {
            Attrs { list: Seq::empty(), whole: false }
        } else {
            let more = attrs_of(after(rest, n));
            Attrs {
                list: seq![(bytes::ne16(rest, 2) as u16, rest.subrange(4, n as int))] + more.list,
                whole: more.whole,
            }
        }
    }
}

/// An attribute found in a payload, or what stands in its place.
pub enum AttrStep {
    End,
    Malformed,
    Attr { typ: u16, start: usize, end: usize, next: usize },
}

/// Finds the attribute at `offset`.
pub fn next_attr(payload: &[u8], offset: usize) -> (r: AttrStep)
    requires
        offset <= payload@.len(),
    ensures
        ({
            let rest = payload@.skip(offset as int);
            let all = attrs_of(rest);
            match r {
                AttrStep::End => all == (Attrs { list: Seq::empty(), whole: true }),
                AttrStep::Malformed => all == (Attrs { list: Seq::empty(), whole: false }),
                AttrStep::Attr { typ, start, end, next } => {
                    let more = attrs_of(payload@.skip(next as int));
                    &&& offset < start <= end <= next <= payload@.len()
                    &&& all == (Attrs {
                        list: seq![(typ, payload@.subrange(start as int, end as int))] + more.list,
                        whole: more.whole,
                    })
                },
            }
        }),
{
    let ghost rest = payload@.skip(offset as int);
    let left: usize = payload.len() - offset;
    if left < 4 {
        return AttrStep::End;
    }
    let tail: &[u8] = vstd::slice::slice_subrange(payload, offset, payload.len());
    assert(tail@ =~= rest);
    let len: usize = read_ne16(tail, 0) as usize;
    let typ: u16 = read_ne16(tail, 2);
    if len < 4 || len > left {
        return AttrStep::Malformed;
    }
    let pad: usize = (4 - len % 4) % 4;
    let next: usize = if pad <= left - len {
        offset + len + pad
    } else {
        payload.len()
    };
    proof {
        assert(aligned(len as nat) == len + pad);
        assert(payload@.subrange(offset + 4, offset + len) =~= rest.subrange(4, len as int));
        assert(payload@.skip(next as int) =~= after(rest, len as nat));
    }
    AttrStep::Attr { typ, start: offset + 4, end: offset + len, next }
}

/// The value of the first attribute of a type.
pub open spec fn first_attr(attrs: Seq<(u16, Seq<u8>)>, typ: u16) -> Option<Seq<u8>>
    decreases attrs.len(),
{
    if attrs.len() == 0 {
        None
    } else if attrs[0].0 == typ {
        Some(attrs[0].1)
    } else {
        first_attr(attrs.skip(1), typ)
    }
}

/// The value of the last attribute of a type.
pub open spec fn last_attr(attrs: Seq<(u16, Seq<u8>)>, typ: u16) -> Option<Seq<u8>>
    decreases attrs.len(),
{
    if attrs.len() == 0 {
        None
    } else if attrs.last().0 == typ {
        Some(attrs.last().1)
    } else {
        last_attr(attrs.drop_last(), typ)
    }
}

/// Prepending an attribute to the ones that were scanned and the ones to come.
proof fn lemma_shift(
    done: Seq<(u16, Seq<u8>)>,
    attr: (u16, Seq<u8>),
    more: Seq<(u16, Seq<u8>)>,
)
    ensures
        done + (seq![attr] + more) == done.push(attr) + more,
{
    assert(done + (seq![attr] + more) =~= done.push(attr) + more);
}

// --- Kernel errors ----------------------------------------------------------------------------

/// The error code that an error message carries.
pub open spec fn error_code(payload: Seq<u8>) -> Result<i32, NetlinkError> {
    if payload.len() < 4 {
        Err(NetlinkError::MalformedMessage("short nlmsgerr"))
    } else {
        Ok(bytes::signed32(bytes::ne32(payload, 0)) as i32)
    }
}

/// Reads the error code of an error message.
pub fn parse_kernel_error_code(payload: &[u8]) -> (r: Result<i32, NetlinkError>)
    ensures
        r == error_code(payload@),
{
    if payload.len() < 4 {
        return Err(NetlinkError::MalformedMessage("short nlmsgerr"));
    }
    Ok(to_signed(read_ne32(payload, 0)))
}

/// The error that an error message stands for.
pub open spec fn kernel_error(payload: Seq<u8>) -> NetlinkError {
    match error_code(payload) {
        Ok(code) => NetlinkError::Kernel(code),
        Err(err) => err,
    }
}

/// Reads an error message.
pub fn parse_kernel_error(payload: &[u8]) -> (r: NetlinkError)
    ensures
        r == kernel_error(payload@),
{
    match parse_kernel_error_code(payload) {
        Ok(code) => NetlinkError::Kernel(code),
        Err(err) => err,
    }
}

// --- Links --------------------------------------------------------------------------------------

/// The error for a malformed attribute.
pub open spec fn bad_attr() -> NetlinkError {
    NetlinkError::MalformedMessage("invalid rtattr length")
}

/// The link that a payload describes, if it names one.
pub open spec fn link_of(payload: Seq<u8>) -> Result<Option<LinkView>, NetlinkError> {
    if payload.len() < 16 {
        Err(NetlinkError::MalformedMessage("short ifinfomsg"))
    } else {
        let attrs = attrs_of(payload.skip(16));
        if !attrs.whole {
            Err(bad_attr())
        } else {
            match last_attr(attrs.list, IFLA_IFNAME) {
                Some(value) => Ok(
                    Some(
                        LinkView {
                            index: bytes::signed32(bytes::ne32(payload, 4)) as i32,
                            name: text::lossy_text(bytes::until_zero(value)),
                            flags: LinkFlags(bytes::ne32(payload, 8) as u32),
                        },
                    ),
                ),
                None => Ok(None),
            }
        }
    }
}

/// Reads a link.
pub fn parse_link(payload: &[u8]) -> (r: Result<Option<Link>, NetlinkError>)
    ensures
        match r {
            Ok(Some(link)) => link_of(payload@) == Ok::<Option<LinkView>, NetlinkError>(
                Some(link@),
            ),
            Ok(None) => link_of(payload@) == Ok::<Option<LinkView>, NetlinkError>(None),
            Err(e) => link_of(payload@) == Err::<Option<LinkView>, NetlinkError>(e),
        },
{
    if payload.len() < 16 {
        return Err(NetlinkError::MalformedMessage("short ifinfomsg"));
    }
    let index: i32 = to_signed(read_ne32(payload, 4));
    let flags: LinkFlags = LinkFlags::from_bits(read_ne32(payload, 8));
    let mut name: Option<String> = None;
    let mut offset: usize = 16;
    let ghost all = attrs_of(payload@.skip(16));
    let ghost mut done: Seq<(u16, Seq<u8>)> = Seq::empty();
    assert(done + all.list =~= all.list);
    loop
        invariant
            16 <= offset <= payload@.len(),
            all.list == done + attrs_of(payload@.skip(offset as int)).list,
            all.whole == attrs_of(payload@.skip(offset as int)).whole,
            all == attrs_of(payload@.skip(16)),
            index == bytes::signed32(bytes::ne32(payload@, 4)),
            flags == LinkFlags(bytes::ne32(payload@, 8) as u32),
            match name {
                Some(text) => last_attr(done, IFLA_IFNAME) is Some && text@ == text::lossy_text(
                    bytes::until_zero(last_attr(done, IFLA_IFNAME)->0),
                ),
                None => last_attr(done, IFLA_IFNAME) is None,
            },
        decreases payload@.len() - offset,
    {
        match next_attr(payload, offset) {
            AttrStep::End => {
                assert(done + Seq::<(u16, Seq<u8>)>::empty() =~= done);
                return match name {
                    Some(text) => Ok(Some(Link { index, name: text, flags })),
                    None => Ok(None),
                };
            },
            AttrStep::Malformed => {
                return Err(NetlinkError::MalformedMessage("invalid rtattr length"));
            },
            AttrStep::Attr { typ, start, end, next } => {
                let value: &[u8] = vstd::slice::slice_subrange(payload, start, end);
                if typ == IFLA_IFNAME {
                    name = Some(decode_lossy(copy_until_zero(value).as_slice()));
                }
                proof {
                    let more = attrs_of(payload@.skip(next as int)).list;
                    lemma_shift(done, (typ, value@), more);
                    assert(done.push((typ, value@)).drop_last() =~= done);
                    done = done.push((typ, value@));
                }
                offset = next;
            },
        }
    }
}

// --- Addresses ------------------------------------------------------------------------------------

/// How many octets an address of a family takes, for the families that are
/// understood.
pub open spec fn address_length(family: u8) -> Option<nat> {
    if family == AF_INET {
        Some(4)
    } else if family == AF_INET6 {
        Some(16)
    } else {
        None
    }
}

/// The address with the given octets.
pub open spec fn address_from(octets: Seq<u8>) -> IpAddr {
    if octets.len() == 4 {
        IpAddr::V4(Ipv4Addr { bits: net::octets_value(octets) as u32 })
    } else {
        IpAddr::V6(Ipv6Addr { bits: net::octets_value(octets) as u128 })
    }
}

/// The value of the first attribute that carries an interface address.
pub open spec fn first_address(attrs: Seq<(u16, Seq<u8>)>) -> Option<Seq<u8>>
    decreases attrs.len(),
{
    if attrs.len() == 0 {
        None
    } else if attrs[0].0 == IFA_LOCAL || attrs[0].0 == IFA_ADDRESS {
        Some(attrs[0].1)
    } else {
        first_address(attrs.skip(1))
    }
}

/// The address that a payload describes. Families other than IPv4 and IPv6,
/// and messages without an address, describe none.
pub open spec fn address_of(payload: Seq<u8>) -> Result<Option<Address>, NetlinkError> {
    if payload.len() < 8 {
        Err(NetlinkError::MalformedMessage("short ifaddrmsg"))
    } else {
        let info = IfAddrMsg::at(payload);
        match address_length(info.ifa_family) {
            None => Ok(None),
            Some(n) => {
                let attrs = attrs_of(payload.skip(8));
                match first_address(attrs.list) {
                    Some(value) if value.len() != n => Err(
                        NetlinkError::MalformedMessage("invalid address attribute length"),
                    ),
                    found => if !attrs.whole {
                        Err(bad_attr())
                    } else {
                        match found {
                            Some(value) => Ok(
                                Some(
                                    Address {
                                        interface_index: info.ifa_index,
                                        address: address_from(value),
                                        prefix_length: info.ifa_prefixlen,
                                    },
                                ),
                            ),
                            None => Ok(None),
                        }
                    },
                }
            },
        }
    }
}

/// The address with the given octets.
pub fn address_from_bytes(octets: &[u8]) -> (r: IpAddr)
    requires
        octets@.len() == 4 || octets@.len() == 16,
    ensures
        r == address_from(octets@),
{
    if octets.len() == 4 {
        let a = Ipv4Addr::new(octets[0], octets[1], octets[2], octets[3]);
        proof {
            reveal_with_fuel(net::octets_value, 5);
            let s = octets@;
            assert(s.drop_last()[2] == s[2]);
            assert(s.drop_last().drop_last()[1] == s[1]);
            assert(s.drop_last().drop_last().drop_last()[0] == s[0]);
        }
        IpAddr::V4(a)
    } else {
        let mut all: [u8; 16] = [0; 16];
        let mut i: usize = 0;
        while i < 16
            invariant
                i <= 16,
                octets@.len() == 16,
                forall|j: int| 0 <= j < i ==> all@[j] == octets@[j],
            decreases 16 - i,
        {
            all[i] = octets[i];
            i = i + 1;
        }
        assert(all@ =~= octets@);
        IpAddr::V6(Ipv6Addr::from_octets(all))
    }
}

/// Appending an attribute behind the first address does not change it.
proof fn lemma_first_address_push(done: Seq<(u16, Seq<u8>)>, attr: (u16, Seq<u8>))
    ensures
        first_address(done.push(attr)) == match first_address(done) {
            Some(value) => Some(value),
            None => if attr.0 == IFA_LOCAL || attr.0 == IFA_ADDRESS {
                Some(attr.1)
            } else {
                None
            },
        },
    decreases done.len(),
{
    reveal_with_fuel(first_address, 2);
    if done.len() > 0 {
        lemma_first_address_push(done.skip(1), attr);
        assert(done.push(attr).skip(1) =~= done.skip(1).push(attr));
    } else {
        assert(done.push(attr).skip(1) =~= Seq::<(u16, Seq<u8>)>::empty());
    }
}

/// The first address among attributes is the first among those that were
/// scanned, if there is one.
proof fn lemma_first_address_concat(done: Seq<(u16, Seq<u8>)>, more: Seq<(u16, Seq<u8>)>)
    ensures
        first_address(done) is Some ==> first_address(done + more) == first_address(done),
    decreases done.len(),
{
    if done.len() > 0 {
        lemma_first_address_concat(done.skip(1), more);
        assert((done + more).skip(1) =~= done.skip(1) + more);
    }
}

/// Reads an address.
pub fn parse_address(payload: &[u8]) -> (r: Result<Option<Address>, NetlinkError>)
    ensures
        r == address_of(payload@),
{
    if payload.len() < 8 {
        return Err(NetlinkError::MalformedMessage("short ifaddrmsg"));
    }
    let info: IfAddrMsg = match IfAddrMsg::read_from(payload) {
        Ok(info) => info,
        Err(err) => {
            return Err(err);
        },
    };
    let expected: usize = if info.ifa_family == AF_INET {
        4
    } else if info.ifa_family == AF_INET6 {
        16
    } else {
        return Ok(None);
    };
    let mut found: Option<Vec<u8>> = None;
    let mut offset: usize = 8;
    let ghost all = attrs_of(payload@.skip(8));
    let ghost mut done: Seq<(u16, Seq<u8>)> = Seq::empty();
    assert(done + all.list =~= all.list);
    loop
        invariant
            8 <= offset <= payload@.len(),
            all.list == done + attrs_of(payload@.skip(offset as int)).list,
            all.whole == attrs_of(payload@.skip(offset as int)).whole,
            all == attrs_of(payload@.skip(8)),
            info == IfAddrMsg::at(payload@),
            address_length(info.ifa_family) == Some(expected as nat),
            expected == 4 || expected == 16,
            match found {
                Some(value) => value@.len() == expected && first_address(done) == Some(value@),
                None => first_address(done) is None,
            },
        decreases payload@.len() - offset,
    {
        match next_attr(payload, offset) {
            AttrStep::End => {
                assert(done + Seq::<(u16, Seq<u8>)>::empty() =~= done);
                return match found {
                    Some(value) => Ok(
                        Some(
                            Address {
                                interface_index: info.ifa_index,
                                address: address_from_bytes(value.as_slice()),
                                prefix_length: info.ifa_prefixlen,
                            },
                        ),
                    ),
                    None => Ok(None),
                };
            },
            AttrStep::Malformed => {
                assert(done + Seq::<(u16, Seq<u8>)>::empty() =~= done);
                return Err(NetlinkError::MalformedMessage("invalid rtattr length"));
            },
            AttrStep::Attr { typ, start, end, next } => {
                let value: &[u8] = vstd::slice::slice_subrange(payload, start, end);
                proof {
                    let more = attrs_of(payload@.skip(next as int)).list;
                    lemma_shift(done, (typ, value@), more);
                    lemma_first_address_push(done, (typ, value@));
                    lemma_first_address_concat(done.push((typ, value@)), more);
                    done = done.push((typ, value@));
                }
                if typ == IFA_LOCAL || typ == IFA_ADDRESS {
                    if found.is_none() {
                        if value.len() != expected {
                            return Err(
                                NetlinkError::MalformedMessage("invalid address attribute length"),
                            );
                        }
                        found = Some(vstd::slice::slice_to_vec(value));
                    }
                }
                offset = next;
            },
        }
    }
}

// --- Routes ------------------------------------------------------------------------------------------

/// The error that the length of a route attribute's value is, if it is one.
pub open spec fn route_attr_error(attr: (u16, Seq<u8>), n: nat) -> Option<NetlinkError> {
    if attr.0 == RTA_DST && attr.1.len() != n {
        Some(NetlinkError::MalformedMessage("invalid route destination length"))
    } else if attr.0 == RTA_GATEWAY && attr.1.len() != n {
        Some(NetlinkError::MalformedMessage("invalid route gateway length"))
    } else if attr.0 == RTA_OIF && attr.1.len() != 4 {
        Some(NetlinkError::MalformedMessage("invalid route oif length"))
    } else if attr.0 == RTA_PRIORITY && attr.1.len() != 4 {
        Some(NetlinkError::MalformedMessage("invalid route metric length"))
    } else {
        None
    }
}

/// The first error among route attributes.
pub open spec fn route_attrs_error(attrs: Seq<(u16, Seq<u8>)>, n: nat) -> Option<NetlinkError>
    decreases attrs.len(),
{
    if attrs.len() == 0 {
        None
    } else {
        match route_attr_error(attrs[0], n) {
            Some(e) => Some(e),
            None => route_attrs_error(attrs.skip(1), n),
        }
    }
}

/// The address family with the given number.
pub open spec fn family_of(family: u8) -> Option<IpFamily> {
    if family == AF_INET {
        Some(IpFamily::V4)
    } else if family == AF_INET6 {
        Some(IpFamily::V6)
    } else {
        None
    }
}

/// The address that matches everything, of a family.
pub open spec fn any_address(family: IpFamily) -> IpAddr {
    match family {
        IpFamily::V4 => IpAddr::V4(Ipv4Addr { bits: 0 }),
        IpFamily::V6 => IpAddr::V6(Ipv6Addr { bits: 0 }),
    }
}

/// Whether a route message speaks of a route that is reported: one of the main
/// table that forwards, drops or refuses packets.
pub open spec fn reported(info: RtMsg) -> bool {
    &&& info.rtm_table == 0 || info.rtm_table == RT_TABLE_MAIN
    &&& RouteKind::of(info.rtm_type) == RouteKind::Unicast || RouteKind::of(info.rtm_type)
        == RouteKind::Blackhole || RouteKind::of(info.rtm_type) == RouteKind::Unreachable
}

/// The route that the fixed part and the attributes of a message describe.
pub open spec fn route_from(info: RtMsg, family: IpFamily, attrs: Seq<(u16, Seq<u8>)>) -> Route {
    Route {
        family,
        destination: match last_attr(attrs, RTA_DST) {
            Some(value) => address_from(value),
            None => any_address(family),
        },
        prefix_length: info.rtm_dst_len,
        gateway: match last_attr(attrs, RTA_GATEWAY) {
            Some(value) => Some(address_from(value)),
            None => None,
        },
        output_interface: match last_attr(attrs, RTA_OIF) {
            Some(value) => Some(bytes::signed32(bytes::ne32(value, 0)) as i32),
            None => None,
        },
        metric: match last_attr(attrs, RTA_PRIORITY) {
            Some(value) => Some(bytes::ne32(value, 0) as u32),
            None => None,
        },
        kind: RouteKind::of(info.rtm_type),
        scope: RouteScope::of(info.rtm_scope),
    }
}

/// The route that a payload describes, if it is one that is reported.
pub open spec fn route_of(payload: Seq<u8>) -> Result<Option<Route>, NetlinkError> {
    if payload.len() < 12 {
        Err(NetlinkError::MalformedMessage("short rtmsg"))
    } else {
        let info = RtMsg::at(payload);
        match family_of(info.rtm_family) {
            None => Ok(None),
            Some(family) => if !reported(info) {
                Ok(None)
            } else {
                let attrs = attrs_of(payload.skip(12));
                match route_attrs_error(attrs.list, address_length(info.rtm_family)->0) {
                    Some(e) => Err(e),
                    None => if !attrs.whole {
                        Err(bad_attr())
                    } else {
                        Ok(Some(route_from(info, family, attrs.list)))
                    },
                }
            },
        }
    }
}

/// The first error among attributes is that among those that were scanned, if
/// there is one, or else that among the others.
proof fn lemma_route_error_concat(
    done: Seq<(u16, Seq<u8>)>,
    more: Seq<(u16, Seq<u8>)>,
    n: nat,
)
    ensures
        route_attrs_error(done + more, n) == match route_attrs_error(done, n) {
            Some(e) => Some(e),
            None => route_attrs_error(more, n),
        },
    decreases done.len(),
{
    if done.len() > 0 {
        lemma_route_error_concat(done.skip(1), more, n);
        assert((done + more).skip(1) =~= done.skip(1) + more);
    } else {
        assert(done + more =~= more);
    }
}

/// Reads a route.
pub fn parse_route(payload: &[u8]) -> (r: Result<Option<Route>, NetlinkError>)
    ensures
        r == route_of(payload@),
{
    if payload.len() < 12 {
        return Err(NetlinkError::MalformedMessage("short rtmsg"));
    }
    let info: RtMsg = match RtMsg::read_from(payload) {
        Ok(info) => info,
        Err(err) => {
            return Err(err);
        },
    };
    let family: IpFamily = if info.rtm_family == AF_INET {
        IpFamily::V4
    } else if info.rtm_family == AF_INET6 {
        IpFamily::V6
    } else {
        return Ok(None);
    };
    if info.rtm_table != 0 && info.rtm_table != RT_TABLE_MAIN {
        return Ok(None);
    }
    let kind: RouteKind = RouteKind::from_u8(info.rtm_type);
    if kind != RouteKind::Unicast && kind != RouteKind::Blackhole && kind != RouteKind::Unreachable {
        return Ok(None);
    }
    let expected: usize = match family {
        IpFamily::V4 => 4,
        IpFamily::V6 => 16,
    };
    let mut destination: IpAddr = match family {
        IpFamily::V4 => IpAddr::V4(Ipv4Addr::unspecified()),
        IpFamily::V6 => IpAddr::V6(Ipv6Addr::unspecified()),
    };
    let mut gateway: Option<IpAddr> = None;
    let mut output_interface: Option<i32> = None;
    let mut metric: Option<u32> = None;
    let mut offset: usize = 12;
    let ghost all = attrs_of(payload@.skip(12));
    let ghost mut done: Seq<(u16, Seq<u8>)> = Seq::empty();
    assert(done + all.list =~= all.list);
    loop
        invariant
            12 <= offset <= payload@.len(),
            all.list == done + attrs_of(payload@.skip(offset as int)).list,
            all.whole == attrs_of(payload@.skip(offset as int)).whole,
            all == attrs_of(payload@.skip(12)),
            info == RtMsg::at(payload@),
            family_of(info.rtm_family) == Some(family),
            address_length(info.rtm_family) == Some(expected as nat),
            expected == 4 || expected == 16,
            kind == RouteKind::of(info.rtm_type),
            reported(info),
            route_attrs_error(done, expected as nat) is None,
            route_from(info, family, done) == (Route {
                family,
                destination,
                prefix_length: info.rtm_dst_len,
                gateway,
                output_interface,
                metric,
                kind,
                scope: RouteScope::of(info.rtm_scope),
            }),
        decreases payload@.len() - offset,
    {
        match next_attr(payload, offset) {
            AttrStep::End => {
                assert(done + Seq::<(u16, Seq<u8>)>::empty() =~= done);
                return Ok(
                    Some(
                        Route {
                            family,
                            destination,
                            prefix_length: info.rtm_dst_len,
                            gateway,
                            output_interface,
                            metric,
                            kind,
                            scope: RouteScope::from_u8(info.rtm_scope),
                        },
                    ),
                );
            },
            AttrStep::Malformed => {
                assert(done + Seq::<(u16, Seq<u8>)>::empty() =~= done);
                return Err(NetlinkError::MalformedMessage("invalid rtattr length"));
            },
            AttrStep::Attr { typ, start, end, next } => {
                let value: &[u8] = vstd::slice::slice_subrange(payload, start, end);
                let ghost attr = (typ, value@);
                let ghost more = attrs_of(payload@.skip(next as int)).list;
                proof {
                    lemma_shift(done, attr, more);
                    lemma_route_error_concat(done, seq![attr] + more, expected as nat);
                    lemma_route_error_concat(done, seq![attr], expected as nat);
                    reveal_with_fuel(route_attrs_error, 2);
                    assert((seq![attr] + more)[0] == attr);
                    assert(seq![attr].skip(1) =~= Seq::<(u16, Seq<u8>)>::empty());
                    assert(done.push(attr) =~= done + seq![attr]);
                    assert(done.push(attr).drop_last() =~= done);
                }
                if typ == RTA_DST {
                    if value.len() != expected {
                        return Err(
                            NetlinkError::MalformedMessage("invalid route destination length"),
                        );
                    }
                    destination = address_from_bytes(value);
                } else if typ == RTA_GATEWAY {
                    if value.len() != expected {
                        return Err(NetlinkError::MalformedMessage("invalid route gateway length"));
                    }
                    gateway = Some(address_from_bytes(value));
                } else if typ == RTA_OIF {
                    if value.len() != 4 {
                        return Err(NetlinkError::MalformedMessage("invalid route oif length"));
                    }
                    output_interface = Some(to_signed(read_ne32(value, 0)));
                } else if typ == RTA_PRIORITY {
                    if value.len() != 4 {
                        return Err(NetlinkError::MalformedMessage("invalid route metric length"));
                    }
                    metric = Some(read_ne32(value, 0));
                }
                proof {
                    done = done.push(attr);
                }
                offset = next;
            },
        }
    }
}

// --- Dumps ---------------------------------------------------------------------------------------------

/// The items that a buffer of a dump holds, in order, and how reading it ends:
/// `Ok(true)` at the message that ends the dump, `Ok(false)` when more buffers
/// follow, or the first error.
pub open spec fn dump<T>(
    rest: Seq<u8>,
    wanted: u16,
    item: spec_fn(Seq<u8>) -> Result<Option<T>, NetlinkError>,
) -> (Seq<T>, Result<bool, NetlinkError>)
    decreases rest.len(),
{
    match frame_at(rest) {
        Frame::End => (Seq::empty(), Ok(false)),
        Frame::Malformed => (Seq::empty(), Err(bad_length())),
        Frame::Message { header, payload } => {
            let next = after(rest, header.nlmsg_len as nat);
            if header.nlmsg_type == NLMSG_DONE {
                (Seq::empty(), Ok(true))
            } else if header.nlmsg_type == NLMSG_ERROR {
                (Seq::empty(), Err(kernel_error(payload)))
            } else if header.nlmsg_type == wanted {
                match item(payload) {
                    Err(e) => (Seq::empty(), Err(e)),
                    Ok(None) => dump(next, wanted, item),
                    Ok(Some(found)) => {
                        let more = dump(next, wanted, item);
                        (seq![found] + more.0, more.1)
                    },
                }
            } else {
                dump(next, wanted, item)
            }
        },
    }
}

/// The links that a buffer of a link dump holds.
pub open spec fn link_dump(buf: Seq<u8>) -> (Seq<LinkView>, Result<bool, NetlinkError>) {
    dump(buf, RTM_NEWLINK, |payload: Seq<u8>| link_of(payload))
}

/// The addresses that a buffer of an address dump holds.
pub open spec fn address_dump(buf: Seq<u8>) -> (Seq<Address>, Result<bool, NetlinkError>) {
    dump(buf, RTM_NEWADDR, |payload: Seq<u8>| address_of(payload))
}

/// The routes that a buffer of a route dump holds.
pub open spec fn route_dump(buf: Seq<u8>) -> (Seq<Route>, Result<bool, NetlinkError>) {
    dump(buf, RTM_NEWROUTE, |payload: Seq<u8>| route_of(payload))
}

/// Reads one buffer of a link dump.
pub fn parse_link_messages(buf: &[u8], links: &mut Vec<Link>) -> (r: Result<bool, NetlinkError>)
    ensures
        model::link_views(final(links)@) == model::link_views(old(links)@) + link_dump(buf@).0,
        r == link_dump(buf@).1,
{
    let ghost item = |payload: Seq<u8>| link_of(payload);
    let ghost whole = link_dump(buf@);
    let mut offset: usize = 0;
    assert(buf@.skip(0) =~= buf@);
    loop
        invariant
            offset <= buf@.len(),
            item == (|payload: Seq<u8>| link_of(payload)),
            model::link_views(links@) + dump(buf@.skip(offset as int), RTM_NEWLINK, item).0 == model::link_views(
                old(links)@,
            ) + whole.0,
            dump(buf@.skip(offset as int), RTM_NEWLINK, item).1 == whole.1,
            whole == link_dump(buf@),
        decreases buf@.len() - offset,
    {
        let ghost rest = buf@.skip(offset as int);
        let ghost views = model::link_views(links@);
        assert(views + Seq::<LinkView>::empty() =~= views);
        match next_message(buf, offset) {
            Err(err) => {
                return Err(err);
            },
            Ok(None) => {
                return Ok(false);
            },
            Ok(Some(message)) => {
                let payload: &[u8] = vstd::slice::slice_subrange(buf, message.start, message.end);
                let kind: u16 = message.header.nlmsg_type;
                if kind == NLMSG_DONE {
                    return Ok(true);
                }
                if kind == NLMSG_ERROR {
                    return Err(parse_kernel_error(payload));
                }
                if kind == RTM_NEWLINK {
                    match parse_link(payload) {
                        Err(err) => {
                            return Err(err);
                        },
                        Ok(None) => {},
                        Ok(Some(link)) => {
                            let ghost more = dump(
                                buf@.skip(message.next as int),
                                RTM_NEWLINK,
                                item,
                            ).0;
                            let ghost seen = link@;
                            links.push(link);
                            assert(model::link_views(links@) =~= views.push(seen));
                            assert(views + (seq![seen] + more) =~= views.push(seen) + more);
                        },
                    }
                }
                offset = message.next;
            },
        }
    }
}

/// Reads one buffer of an address dump.
pub fn parse_address_messages(buf: &[u8], addresses: &mut Vec<Address>) -> (r: Result<
    bool,
    NetlinkError,
>)
    ensures
        final(addresses)@ == old(addresses)@ + address_dump(buf@).0,
        r == address_dump(buf@).1,
{
    let ghost item = |payload: Seq<u8>| address_of(payload);
    let ghost whole = address_dump(buf@);
    let mut offset: usize = 0;
    assert(buf@.skip(0) =~= buf@);
    loop
        invariant
            offset <= buf@.len(),
            item == (|payload: Seq<u8>| address_of(payload)),
            addresses@ + dump(buf@.skip(offset as int), RTM_NEWADDR, item).0 == old(addresses)@
                + whole.0,
            dump(buf@.skip(offset as int), RTM_NEWADDR, item).1 == whole.1,
            whole == address_dump(buf@),
        decreases buf@.len() - offset,
    {
        let ghost rest = buf@.skip(offset as int);
        let ghost before = addresses@;
        assert(before + Seq::<Address>::empty() =~= before);
        match next_message(buf, offset) {
            Err(err) => {
                return Err(err);
            },
            Ok(None) => {
                return Ok(false);
            },
            Ok(Some(message)) => {
                let payload: &[u8] = vstd::slice::slice_subrange(buf, message.start, message.end);
                let kind: u16 = message.header.nlmsg_type;
                if kind == NLMSG_DONE {
                    return Ok(true);
                }
                if kind == NLMSG_ERROR {
                    return Err(parse_kernel_error(payload));
                }
                if kind == RTM_NEWADDR {
                    match parse_address(payload) {
                        Err(err) => {
                            return Err(err);
                        },
                        Ok(None) => {},
                        Ok(Some(address)) => {
                            let ghost more = dump(
                                buf@.skip(message.next as int),
                                RTM_NEWADDR,
                                item,
                            ).0;
                            addresses.push(address);
                            assert(before + (seq![address] + more) =~= addresses@ + more);
                        },
                    }
                }
                offset = message.next;
            },
        }
    }
}

/// Reads one buffer of a route dump.
pub fn parse_route_messages(buf: &[u8], routes: &mut Vec<Route>) -> (r: Result<bool, NetlinkError>)
    ensures
        final(routes)@ == old(routes)@ + route_dump(buf@).0,
        r == route_dump(buf@).1,
{
    let ghost item = |payload: Seq<u8>| route_of(payload);
    let ghost whole = route_dump(buf@);
    let mut offset: usize = 0;
    assert(buf@.skip(0) =~= buf@);
    loop
        invariant
            offset <= buf@.len(),
            item == (|payload: Seq<u8>| route_of(payload)),
            routes@ + dump(buf@.skip(offset as int), RTM_NEWROUTE, item).0 == old(routes)@
                + whole.0,
            dump(buf@.skip(offset as int), RTM_NEWROUTE, item).1 == whole.1,
            whole == route_dump(buf@),
        decreases buf@.len() - offset,
    {
        let ghost rest = buf@.skip(offset as int);
        let ghost before = routes@;
        assert(before + Seq::<Route>::empty() =~= before);
        match next_message(buf, offset) {
            Err(err) => {
                return Err(err);
            },
            Ok(None) => {
                return Ok(false);
            },
            Ok(Some(message)) => {
                let payload: &[u8] = vstd::slice::slice_subrange(buf, message.start, message.end);
                let kind: u16 = message.header.nlmsg_type;
                if kind == NLMSG_DONE {
                    return Ok(true);
                }
                if kind == NLMSG_ERROR {
                    return Err(parse_kernel_error(payload));
                }
                if kind == RTM_NEWROUTE {
                    match parse_route(payload) {
                        Err(err) => {
                            return Err(err);
                        },
                        Ok(None) => {},
                        Ok(Some(route)) => {
                            let ghost more = dump(
                                buf@.skip(message.next as int),
                                RTM_NEWROUTE,
                                item,
                            ).0;
                            routes.push(route);
                            assert(before + (seq![route] + more) =~= routes@ + more);
                        },
                    }
                }
                offset = message.next;
            },
        }
    }
}

// --- Events --------------------------------------------------------------------------------------------

/// Whether a message's flags say that the kernel created something.
pub open spec fn created(flags: u16) -> bool {
    flags / 0x400 % 2 == 1
}

/// The event that a message stands for, if it is one that is reported.
pub open spec fn event_of(header: NlMsgHdr, payload: Seq<u8>) -> Result<
    Option<NetworkEventView>,
    NetlinkError,
> {
    if header.nlmsg_type == RTM_NEWLINK || header.nlmsg_type == RTM_DELLINK {
        match link_of(payload) {
            Err(e) => Err(e),
            Ok(None) => Ok(None),
            Ok(Some(link)) => Ok(
                Some(
                    NetworkEventView::Link(
                        if header.nlmsg_type == RTM_DELLINK {
                            LinkEventKind::Removed
                        } else if created(header.nlmsg_flags) {
                            LinkEventKind::Created
                        } else {
                            LinkEventKind::Changed
                        },
                        link,
                    ),
                ),
            ),
        }
    } else if header.nlmsg_type == RTM_NEWADDR || header.nlmsg_type == RTM_DELADDR {
        match address_of(payload) {
            Err(e) => Err(e),
            Ok(None) => Ok(None),
            Ok(Some(address)) => Ok(
                Some(
                    NetworkEventView::Address(
                        AddressEvent {
                            kind: if header.nlmsg_type == RTM_NEWADDR {
                                AddressEventKind::Added
                            } else {
                                AddressEventKind::Removed
                            },
                            address,
                        },
                    ),
                ),
            ),
        }
    } else if header.nlmsg_type == RTM_NEWROUTE || header.nlmsg_type == RTM_DELROUTE {
        match route_of(payload) {
            Err(e) => Err(e),
            Ok(None) => Ok(None),
            Ok(Some(route)) => Ok(
                Some(
                    NetworkEventView::Route(
                        RouteEvent {
                            kind: if header.nlmsg_type == RTM_DELROUTE {
                                RouteEventKind::Removed
                            } else if created(header.nlmsg_flags) {
                                RouteEventKind::Added
                            } else {
                                RouteEventKind::Changed
                            },
                            route,
                        },
                    ),
                ),
            ),
        }
    } else {
        Ok(None)
    }
}

/// The error for a buffer that does not end at the end of a message.
pub open spec fn trailing() -> NetlinkError {
    NetlinkError::MalformedMessage("trailing partial nlmsghdr")
}

/// The events that a buffer holds, in order.
pub open spec fn events_of(rest: Seq<u8>) -> Result<Seq<NetworkEventView>, NetlinkError>
    decreases rest.len(),
{
    match frame_at(rest) {
        Frame::End => if rest.len() == 0 {
            Ok(Seq::empty())
        } else {
            Err(trailing())
        },
        Frame::Malformed => Err(bad_length()),
        Frame::Message { header, payload } => if header.nlmsg_type == NLMSG_DONE {
            Ok(Seq::empty())
        } else if header.nlmsg_type == NLMSG_ERROR {
            Err(kernel_error(payload))
        } else {
            match event_of(header, payload) {
                Err(e) => Err(e),
                Ok(found) => if aligned(header.nlmsg_len as nat) > rest.len() {
                    Err(trailing())
                } else {
                    match events_of(after(rest, header.nlmsg_len as nat)) {
                        Err(e) => Err(e),
                        Ok(more) => match found {
                            Some(event) => Ok(seq![event] + more),
                            None => Ok(more),
                        },
                    }
                },
            }
        },
    }
}

/// Reads the event that a message stands for.
pub fn parse_event(header: NlMsgHdr, payload: &[u8]) -> (r: Result<
    Option<NetworkEvent>,
    NetlinkError,
>)
    ensures
        match r {
            Ok(Some(event)) => event_of(header, payload@) == Ok::<
                Option<NetworkEventView>,
                NetlinkError,
            >(Some(event@)),
            Ok(None) => event_of(header, payload@) == Ok::<Option<NetworkEventView>, NetlinkError>(
                None,
            ),
            Err(e) => event_of(header, payload@) == Err::<Option<NetworkEventView>, NetlinkError>(
                e,
            ),
        },
{
    let kind: u16 = header.nlmsg_type;
    let flags: u16 = header.nlmsg_flags;
    assert((flags & 0x400 != 0) == (flags / 0x400 % 2 == 1)) by (bit_vector);
    let create: bool = flags & NLM_F_CREATE != 0;
    if kind == RTM_NEWLINK || kind == RTM_DELLINK {
        match parse_link(payload) {
            Err(err) => Err(err),
            Ok(None) => Ok(None),
            Ok(Some(link)) => {
                let change = if kind == RTM_DELLINK {
                    LinkEventKind::Removed
                } else if create {
                    LinkEventKind::Created
                } else {
                    LinkEventKind::Changed
                };
                Ok(Some(NetworkEvent::Link(LinkEvent { kind: change, link })))
            },
        }
    } else if kind == RTM_NEWADDR || kind == RTM_DELADDR {
        match parse_address(payload) {
            Err(err) => Err(err),
            Ok(None) => Ok(None),
            Ok(Some(address)) => {
                let change = if kind == RTM_NEWADDR {
                    AddressEventKind::Added
                } else {
                    AddressEventKind::Removed
                };
                Ok(Some(NetworkEvent::Address(AddressEvent { kind: change, address })))
            },
        }
    } else if kind == RTM_NEWROUTE || kind == RTM_DELROUTE {
        match parse_route(payload) {
            Err(err) => Err(err),
            Ok(None) => Ok(None),
            Ok(Some(route)) => {
                let change = if kind == RTM_DELROUTE {
                    RouteEventKind::Removed
                } else if create {
                    RouteEventKind::Added
                } else {
                    RouteEventKind::Changed
                };
                Ok(Some(NetworkEvent::Route(RouteEvent { kind: change, route })))
            },
        }
    } else {
        Ok(None)
    }
}

/// Reads the events that a buffer holds, in order.
pub fn parse_network_events(buf: &[u8]) -> (r: Result<Vec<NetworkEvent>, NetlinkError>)
    ensures
        match r {
            Ok(events) => events_of(buf@) == Ok::<Seq<NetworkEventView>, NetlinkError>(
                model::event_views(events@),
            ),
            Err(e) => events_of(buf@) == Err::<Seq<NetworkEventView>, NetlinkError>(e),
        },
{
    let mut events: Vec<NetworkEvent> = Vec::new();
    let mut offset: usize = 0;
    assert(buf@.skip(0) =~= buf@);
    proof {
        if let Ok(all) = events_of(buf@) {
            assert(model::event_views(events@) + all =~= all);
        }
    }
    loop
        invariant
            offset <= buf@.len(),
            match events_of(buf@.skip(offset as int)) {
                Ok(more) => events_of(buf@) == Ok::<Seq<NetworkEventView>, NetlinkError>(
                    model::event_views(events@) + more,
                ),
                Err(e) => events_of(buf@) == Err::<Seq<NetworkEventView>, NetlinkError>(e),
            },
        decreases buf@.len() - offset,
    {
        let ghost views = model::event_views(events@);
        assert(views + Seq::<NetworkEventView>::empty() =~= views);
        match next_message(buf, offset) {
            Err(err) => {
                return Err(err);
            },
            Ok(None) => {
                if offset != buf.len() {
                    return Err(NetlinkError::MalformedMessage("trailing partial nlmsghdr"));
                }
                return Ok(events);
            },
            Ok(Some(message)) => {
                let payload: &[u8] = vstd::slice::slice_subrange(buf, message.start, message.end);
                let kind: u16 = message.header.nlmsg_type;
                if kind == NLMSG_DONE {
                    return Ok(events);
                }
                if kind == NLMSG_ERROR {
                    return Err(parse_kernel_error(payload));
                }
                match parse_event(message.header, payload) {
                    Err(err) => {
                        return Err(err);
                    },
                    Ok(None) => {},
                    Ok(Some(event)) => {
                        let ghost seen = event@;
                        events.push(event);
                        proof {
                            assert(model::event_views(events@) =~= views.push(seen));
                            if let Ok(more) = events_of(buf@.skip(message.next as int)) {
                                assert(views + (seq![seen] + more) =~= views.push(seen) + more);
                            }
                        }
                    },
                }
                if !message.padded {
                    return Err(NetlinkError::MalformedMessage("trailing partial nlmsghdr"));
                }
                offset = message.next;
            },
        }
    }
}

// --- Requests and their replies --------------------------------------------------------------------------

/// The octets of an attribute: length, type, value and padding.
pub open spec fn attr_octets(typ: u16, value: Seq<u8>) -> Seq<u8> {
    bytes::ne16_octets((value.len() + 4) % 65536) + bytes::ne16_octets(typ as nat) + value + Seq::new(
        (aligned(value.len() + 4) - (value.len() + 4)) as nat,
        |i: int| 0u8,
    )
}

/// The octets of a list of attributes.
pub open spec fn attrs_octets(attrs: Seq<(u16, Seq<u8>)>) -> Seq<u8>
    decreases attrs.len(),
{
    if attrs.len() == 0 {
        Seq::empty()
    } else {
        attrs_octets(attrs.drop_last()) + attr_octets(attrs.last().0, attrs.last().1)
    }
}

/// The views of a list of attributes.
pub open spec fn attr_views(attrs: Seq<(u16, Vec<u8>)>) -> Seq<(u16, Seq<u8>)> {
    attrs.map_values(|attr: (u16, Vec<u8>)| (attr.0, attr.1@))
}

/// Appends an attribute: header, value and padding to a multiple of four.
pub fn push_attr(message: &mut Vec<u8>, attr_type: u16, value: &[u8])
    ensures
        final(message)@ == old(message)@ + attr_octets(attr_type, value@),
{
    let count: usize = value.len();
    push_ne16(message, ((count % 65536 + 4) % 65536) as u16);
    push_ne16(message, attr_type);
    append_octets(message, value);
    let pad: usize = (4 - count % 4) % 4;
    append_zeros(message, pad);
    proof {
        assert((count % 65536 + 4) % 65536 == (count + 4) % 65536);
        assert(aligned(count as nat + 4) - (count + 4) == pad);
        assert(message@ =~= old(message)@ + attr_octets(attr_type, value@));
    }
}

/// Appends a list of attributes.
pub fn push_attrs(message: &mut Vec<u8>, attrs: &[(u16, Vec<u8>)])
    ensures
        final(message)@ == old(message)@ + attrs_octets(attr_views(attrs@)),
{
    let ghost views = attr_views(attrs@);
    let mut i: usize = 0;
    assert(views.take(0) =~= Seq::<(u16, Seq<u8>)>::empty());
    assert(message@ =~= old(message)@ + attrs_octets(views.take(0)));
    while i < attrs.len()
        invariant
            i <= attrs@.len(),
            views == attr_views(attrs@),
            message@ == old(message)@ + attrs_octets(views.take(i as int)),
        decreases attrs@.len() - i,
    {
        push_attr(message, attrs[i].0, attrs[i].1.as_slice());
        i = i + 1;
        proof {
            let now = views.take(i as int);
            assert(now.drop_last() =~= views.take(i - 1));
            assert(now.last() == views[i - 1]);
            assert(message@ =~= old(message)@ + attrs_octets(now));
        }
    }
    assert(views.take(i as int) =~= views);
}

/// The octets of a list of attributes start with those of the first one.
proof fn lemma_attrs_octets_front(attrs: Seq<(u16, Seq<u8>)>)
    requires
        attrs.len() > 0,
    ensures
        attrs_octets(attrs) == attr_octets(attrs[0].0, attrs[0].1) + attrs_octets(attrs.skip(1)),
    decreases attrs.len(),
{
    let first = attr_octets(attrs[0].0, attrs[0].1);
    let last = attr_octets(attrs.last().0, attrs.last().1);
    if attrs.len() == 1 {
        assert(attrs.drop_last() =~= Seq::empty());
        assert(attrs.skip(1) =~= Seq::empty());
        assert(attrs_octets(attrs) =~= first + attrs_octets(attrs.skip(1)));
    } else {
        lemma_attrs_octets_front(attrs.drop_last());
        assert(attrs.drop_last().skip(1) =~= attrs.skip(1).drop_last());
        let middle = attrs_octets(attrs.skip(1).drop_last());
        assert((first + middle) + last =~= first + (middle + last));
    }
}

/// An attribute that was written is read back, and so is what follows it.
proof fn lemma_attr_then(typ: u16, value: Seq<u8>, rest: Seq<u8>)
    requires
        value.len() <= 65531,
    ensures
        attrs_of(attr_octets(typ, value) + rest) == (Attrs {
            list: seq![(typ, value)] + attrs_of(rest).list,
            whole: attrs_of(rest).whole,
        }),
{
    let n = value.len() + 4;
    let whole = attr_octets(typ, value) + rest;
    bytes::lemma_ne16(n);
    bytes::lemma_ne16(typ as nat);
    assert(n % 65536 == n);
    let a = bytes::ne16_octets(n);
    let b = bytes::ne16_octets(typ as nat);
    assert(whole[0] == a[0] && whole[1] == a[1] && whole[2] == b[0] && whole[3] == b[1]);
    assert(bytes::ne16(whole, 0) == n);
    assert(bytes::ne16(whole, 2) == typ);
    assert(attr_octets(typ, value).len() == aligned(n));
    assert(whole.subrange(4, n as int) =~= value);
    assert(after(whole, n) =~= rest);
}

/// The attributes of a list that was written are the list, as long as each
/// value fits an attribute.
pub proof fn lemma_attrs_round_trip(attrs: Seq<(u16, Seq<u8>)>)
    requires
        forall|i: int| 0 <= i < attrs.len() ==> (#[trigger] attrs[i]).1.len() <= 65531,
    ensures
        attrs_of(attrs_octets(attrs)) == (Attrs { list: attrs, whole: true }),
    decreases attrs.len(),
{
    if attrs.len() == 0 {
        assert(attrs_of(attrs_octets(attrs)).list =~= attrs);
    } else {
        let more = attrs.skip(1);
        assert forall|i: int| 0 <= i < more.len() implies (#[trigger] more[i]).1.len() <= 65531 by {
            assert(more[i] == attrs[i + 1]);
        }
        lemma_attrs_round_trip(more);
        lemma_attrs_octets_front(attrs);
        lemma_attr_then(attrs[0].0, attrs[0].1, attrs_octets(more));
        assert(seq![(attrs[0].0, attrs[0].1)] + more =~= attrs);
    }
}

/// The octets of a request: a header of sequence number one, and a payload.
pub open spec fn request_octets(message_type: u16, flags: u16, payload: Seq<u8>) -> Seq<u8> {
    (NlMsgHdr {
        nlmsg_len: ((payload.len() + 16) % 0x1_0000_0000) as u32,
        nlmsg_type: message_type,
        nlmsg_flags: flags,
        nlmsg_seq: 1,
        nlmsg_pid: 0,
    }).octets() + payload
}

/// Builds a single netlink message from a type, flags and raw payload.
pub fn build_netlink_message(message_type: u16, flags: u16, payload: &[u8]) -> (r: Vec<u8>)
    ensures
        r@ == request_octets(message_type, flags, payload@),
{
    let mut message: Vec<u8> = Vec::new();
    let count: u64 = payload.len() as u64 % 0x1_0000_0000;
    let header = NlMsgHdr {
        nlmsg_len: ((count + 16) % 0x1_0000_0000) as u32,
        nlmsg_type: message_type,
        nlmsg_flags: flags,
        nlmsg_seq: 1,
        nlmsg_pid: 0,
    };
    proof {
        vstd::arithmetic::div_mod::lemma_add_mod_noop(
            payload@.len() as int,
            16,
            0x1_0000_0000,
        );
    }
    let ghost head = header.octets();
    header.append_to(&mut message);
    assert(message@ =~= head);
    append_octets(&mut message, payload);
    message
}

/// A request that was built is framed as one message with its payload, with
/// nothing left over, as long as its length fits the header.
pub proof fn lemma_request_round_trip(message_type: u16, flags: u16, payload: Seq<u8>)
    requires
        payload.len() + 16 < 0x1_0000_0000,
    ensures
        ({
            let request = request_octets(message_type, flags, payload);
            let header = NlMsgHdr {
                nlmsg_len: (payload.len() + 16) as u32,
                nlmsg_type: message_type,
                nlmsg_flags: flags,
                nlmsg_seq: 1,
                nlmsg_pid: 0,
            };
            &&& frame_at(request) == (Frame::Message { header, payload })
            &&& after(request, request.len()) == Seq::<u8>::empty()
        }),
{
    let request = request_octets(message_type, flags, payload);
    assert((payload.len() + 16) % 0x1_0000_0000 == payload.len() + 16) by {
        vstd::arithmetic::div_mod::lemma_small_mod(payload.len() + 16, 0x1_0000_0000);
    }
    let header = NlMsgHdr {
        nlmsg_len: (payload.len() + 16) as u32,
        nlmsg_type: message_type,
        nlmsg_flags: flags,
        nlmsg_seq: 1,
        nlmsg_pid: 0,
    };
    lemma_header(header, payload);
    assert(request == header.octets() + payload);
    assert(request.subrange(16, request.len() as int) =~= payload);
}

/// The octets of an address request's payload.
pub open spec fn ifaddr_octets(
    family: u8,
    prefix_length: u8,
    index: i32,
    attrs: Seq<(u16, Seq<u8>)>,
) -> Seq<u8> {
    (IfAddrMsg {
        ifa_family: family,
        ifa_prefixlen: prefix_length,
        ifa_flags: 0,
        ifa_scope: 0,
        ifa_index: bytes::unsigned32(index as int) as u32,
    }).octets() + attrs_octets(attrs)
}

/// Builds the payload of an address request with the given attributes.
pub fn ifaddr_payload(family: u8, prefix_length: u8, index: i32, attrs: &[(u16, Vec<u8>)]) -> (r:
    Vec<u8>)
    ensures
        r@ == ifaddr_octets(family, prefix_length, index, attr_views(attrs@)),
{
    let mut payload: Vec<u8> = Vec::new();
    let info = IfAddrMsg {
        ifa_family: family,
        ifa_prefixlen: prefix_length,
        ifa_flags: 0,
        ifa_scope: 0,
        ifa_index: to_unsigned(index),
    };
    info.append_to(&mut payload);
    push_attrs(&mut payload, attrs);
    assert(payload@ =~= ifaddr_octets(family, prefix_length, index, attr_views(attrs@)));
    payload
}

/// The octets of a route request's payload.
pub open spec fn rtmsg_octets(
    family: u8,
    dst_len: u8,
    table: u8,
    scope: u8,
    route_type: u8,
    attrs: Seq<(u16, Seq<u8>)>,
) -> Seq<u8> {
    (RtMsg {
        rtm_family: family,
        rtm_dst_len: dst_len,
        rtm_src_len: 0,
        rtm_tos: 0,
        rtm_table: table,
        rtm_protocol: RTPROT_STATIC,
        rtm_scope: scope,
        rtm_type: route_type,
        rtm_flags: 0,
    }).octets() + attrs_octets(attrs)
}

/// Builds the payload of a route request with the given attributes.
pub fn rtmsg_payload(
    family: u8,
    dst_len: u8,
    table: u8,
    scope: u8,
    route_type: u8,
    attrs: &[(u16, Vec<u8>)],
) -> (r: Vec<u8>)
    ensures
        r@ == rtmsg_octets(family, dst_len, table, scope, route_type, attr_views(attrs@)),
{
    let mut payload: Vec<u8> = Vec::new();
    let info = RtMsg {
        rtm_family: family,
        rtm_dst_len: dst_len,
        rtm_src_len: 0,
        rtm_tos: 0,
        rtm_table: table,
        rtm_protocol: RTPROT_STATIC,
        rtm_scope: scope,
        rtm_type: route_type,
        rtm_flags: 0,
    };
    info.append_to(&mut payload);
    push_attrs(&mut payload, attrs);
    assert(payload@ =~= rtmsg_octets(family, dst_len, table, scope, route_type, attr_views(attrs@)));
    payload
}

/// The octets of a request for a dump: a header and `count` zero octets.
pub open spec fn dump_request(message_type: u16, sequence: u32, count: nat) -> Seq<u8> {
    (NlMsgHdr {
        nlmsg_len: (count + 16) as u32,
        nlmsg_type: message_type,
        nlmsg_flags: 0x301,
        nlmsg_seq: sequence,
        nlmsg_pid: 0,
    }).octets() + Seq::new(count, |i: int| 0u8)
}

fn build_dump_request(message_type: u16, sequence: u32, count: usize) -> (r: Vec<u8>)
    requires
        count < 1000,
    ensures
        r@ == dump_request(message_type, sequence, count as nat),
{
    let mut message: Vec<u8> = Vec::new();
    let header = NlMsgHdr {
        nlmsg_len: (count + 16) as u32,
        nlmsg_type: message_type,
        nlmsg_flags: 0x301,
        nlmsg_seq: sequence,
        nlmsg_pid: 0,
    };
    header.append_to(&mut message);
    append_zeros(&mut message, count);
    assert(message@ =~= dump_request(message_type, sequence, count as nat));
    message
}

/// The request for all links.
pub fn link_dump_request(sequence: u32) -> (r: Vec<u8>)
    ensures
        r@ == dump_request(RTM_GETLINK, sequence, 16),
{
    build_dump_request(RTM_GETLINK, sequence, 16)
}

/// The request for all addresses.
pub fn address_dump_request(sequence: u32) -> (r: Vec<u8>)
    ensures
        r@ == dump_request(RTM_GETADDR, sequence, 8),
{
    build_dump_request(RTM_GETADDR, sequence, 8)
}

/// The request for all routes.
pub fn route_dump_request(sequence: u32) -> (r: Vec<u8>)
    ensures
        r@ == dump_request(RTM_GETROUTE, sequence, 12),
{
    build_dump_request(RTM_GETROUTE, sequence, 12)
}

/// What a buffer of replies says of a request: nothing yet, that it was done,
/// or why it failed.
pub open spec fn ack_in(rest: Seq<u8>) -> Option<Result<(), NetlinkError>>
    decreases rest.len(),
{
    match frame_at(rest) {
        Frame::End => None,
        Frame::Malformed => Some(Err(NetlinkError::MalformedMessage("invalid ack length"))),
        Frame::Message { header, payload } => if header.nlmsg_type == NLMSG_ERROR {
            Some(
                match error_code(payload) {
                    Ok(code) => if code == 0 {
                        Ok(())
                    } else {
                        Err(NetlinkError::Kernel(code))
                    },
                    Err(e) => Err(e),
                },
            )
        } else {
            ack_in(after(rest, header.nlmsg_len as nat))
        },
    }
}

/// Looks for the kernel's answer to a request in a buffer of replies.
pub fn read_ack(buf: &[u8]) -> (r: Option<Result<(), NetlinkError>>)
    ensures
        r == ack_in(buf@),
{
    let mut offset: usize = 0;
    assert(buf@.skip(0) =~= buf@);
    loop
        invariant
            offset <= buf@.len(),
            ack_in(buf@) == ack_in(buf@.skip(offset as int)),
        decreases buf@.len() - offset,
    {
        match next_message(buf, offset) {
            Err(_) => {
                return Some(Err(NetlinkError::MalformedMessage("invalid ack length")));
            },
            Ok(None) => {
                return None;
            },
            Ok(Some(message)) => {
                if message.header.nlmsg_type == NLMSG_ERROR {
                    let payload: &[u8] = vstd::slice::slice_subrange(
                        buf,
                        message.start,
                        message.end,
                    );
                    return match parse_kernel_error_code(payload) {
                        Ok(code) => if code == 0 {
                            Some(Ok(()))
                        } else {
                            Some(Err(NetlinkError::Kernel(code)))
                        },
                        Err(err) => Some(Err(err)),
                    };
                }
                offset = message.next;
            },
        }
    }
}

// --- The order of what is reported ---------------------------------------------------------------------------

impl Ranked for Link {
    open spec fn precedes(self, other: Self) -> bool {
        self.index < other.index
    }

    fn goes_before(&self, other: &Self) -> (r: bool) {
        self.index < other.index
    }

    proof fn asymmetric(a: Self, b: Self) {
    }

    proof fn transitive(a: Self, b: Self, c: Self) {
    }
}

/// Whether an address goes before another: IPv4 goes before IPv6, and within
/// a family the smaller number goes first.
pub open spec fn ip_before(a: IpAddr, b: IpAddr) -> bool {
    match (a, b) {
        (IpAddr::V4(x), IpAddr::V4(y)) => x.bits < y.bits,
        (IpAddr::V6(x), IpAddr::V6(y)) => x.bits < y.bits,
        (IpAddr::V4(_), IpAddr::V6(_)) => true,
        (IpAddr::V6(_), IpAddr::V4(_)) => false,
    }
}

fn is_ip_before(a: IpAddr, b: IpAddr) -> (r: bool)
    ensures
        r == ip_before(a, b),
{
    match (a, b) {
        (IpAddr::V4(x), IpAddr::V4(y)) => x.bits < y.bits,
        (IpAddr::V6(x), IpAddr::V6(y)) => x.bits < y.bits,
        (IpAddr::V4(_), IpAddr::V6(_)) => true,
        (IpAddr::V6(_), IpAddr::V4(_)) => false,
    }
}

impl Ranked for Address {
    open spec fn precedes(self, other: Self) -> bool {
        self.interface_index < other.interface_index || (self.interface_index
            == other.interface_index && ip_before(self.address, other.address))
    }

    fn goes_before(&self, other: &Self) -> (r: bool) {
        self.interface_index < other.interface_index || (self.interface_index
            == other.interface_index && is_ip_before(self.address, other.address))
    }

    proof fn asymmetric(a: Self, b: Self) {
    }

    proof fn transitive(a: Self, b: Self, c: Self) {
    }
}

/// Whether an optional number goes before another: an absent one goes first.
pub open spec fn option_before(a: Option<int>, b: Option<int>) -> bool {
    match (a, b) {
        (None, Some(_)) => true,
        (Some(x), Some(y)) => x < y,
        _ => false,
    }
}

/// A metric as an optional number.
pub open spec fn metric_key(route: Route) -> Option<int> {
    match route.metric {
        Some(x) => Some(x as int),
        None => None,
    }
}

/// An output interface as an optional number.
pub open spec fn output_key(route: Route) -> Option<int> {
    match route.output_interface {
        Some(x) => Some(x as int),
        None => None,
    }
}

/// Whether a family goes before another: IPv4 goes first.
pub open spec fn family_before(a: IpFamily, b: IpFamily) -> bool {
    a == IpFamily::V4 && b == IpFamily::V6
}

impl Ranked for Route {
    /// Routes are ordered by family, destination, prefix length, metric and
    /// output interface.
    open spec fn precedes(self, other: Self) -> bool {
        if self.family != other.family {
            family_before(self.family, other.family)
        } else if self.destination != other.destination {
            ip_before(self.destination, other.destination)
        } else if self.prefix_length != other.prefix_length {
            self.prefix_length < other.prefix_length
        } else if self.metric != other.metric {
            option_before(metric_key(self), metric_key(other))
        } else {
            option_before(output_key(self), output_key(other))
        }
    }

    fn goes_before(&self, other: &Self) -> (r: bool) {
        if self.family != other.family {
            self.family == IpFamily::V4 && other.family == IpFamily::V6
        } else if self.destination != other.destination {
            is_ip_before(self.destination, other.destination)
        } else if self.prefix_length != other.prefix_length {
            self.prefix_length < other.prefix_length
        } else if self.metric != other.metric {
            match (self.metric, other.metric) {
                (None, Some(_)) => true,
                (Some(x), Some(y)) => x < y,
                _ => false,
            }
        } else {
            match (self.output_interface, other.output_interface) {
                (None, Some(_)) => true,
                (Some(x), Some(y)) => x < y,
                _ => false,
            }
        }
    }

    proof fn asymmetric(a: Self, b: Self) {
    }

    proof fn transitive(a: Self, b: Self, c: Self) {
    }
}

/// Orders the links of a dump by index.
pub fn order_links(links: Vec<Link>) -> (r: Vec<Link>)
    ensures
        r@ == sort::stable_sort(links@),
{
    sort(links)
}

/// Orders the addresses of a dump by interface and address.
pub fn order_addresses(addresses: Vec<Address>) -> (r: Vec<Address>)
    ensures
        r@ == sort::stable_sort(addresses@),
{
    sort(addresses)
}

/// Orders the routes of a dump.
pub fn order_routes(routes: Vec<Route>) -> (r: Vec<Route>)
    ensures
        r@ == sort::stable_sort(routes@),
{
    sort(routes)
}

} // verus!
