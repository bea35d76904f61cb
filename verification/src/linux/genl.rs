//! Generic netlink: messages with a command and typed attributes.
//!
//! All parsing is done by pure functions over byte buffers.

use vstd::prelude::*;

use crate::bytes;
use crate::bytes::{copy_octets, copy_until_zero, read_ne16, read_ne32, to_signed, append_octets};
use crate::linux::model;
use crate::linux::model::{NetlinkError, Ssid};
use crate::linux::netlink;
use crate::linux::netlink::{
    next_attr, next_message, parse_kernel_error, push_attrs, AttrStep, Frame, NlMsgHdr, NLMSG_DONE,
    NLMSG_ERROR,
};
use crate::text;
use crate::text::decode_lossy;

verus! {

/// A decoded netlink attribute with an owned payload.
#[derive(Debug, PartialEq, Eq)]
pub struct RawAttr {
    pub typ: u16,
    pub nested: bool,
    pub payload: Vec<u8>,
}

/// An attribute, with its payload as a sequence.
#[verifier::ext_equal]
pub struct AttrView {
    pub typ: u16,
    pub nested: bool,
    pub payload: Seq<u8>,
}

impl RawAttr {
    pub open spec fn view(&self) -> AttrView {
        AttrView { typ: self.typ, nested: self.nested, payload: self.payload@ }
    }
}

/// The views of a list of attributes.
pub open spec fn raw_views(attrs: Seq<RawAttr>) -> Seq<AttrView> {
    attrs.map_values(|attr: RawAttr| attr@)
}

/// A decoded generic netlink message with an owned payload.
#[derive(Debug, PartialEq, Eq)]
pub struct RawMsg {
    pub nlmsg_type: u16,
    pub nlmsg_flags: u16,
    pub cmd: Option<u8>,
    pub attrs: Vec<RawAttr>,
    /// Raw netlink payload after the message header.
    pub payload: Vec<u8>,
}

/// A message, with its attributes and payload as sequences.
#[verifier::ext_equal]
pub struct MsgView {
    pub nlmsg_type: u16,
    pub nlmsg_flags: u16,
    pub cmd: Option<u8>,
    pub attrs: Seq<AttrView>,
    pub payload: Seq<u8>,
}

impl RawMsg {
    pub open spec fn view(&self) -> MsgView {
        MsgView {
            nlmsg_type: self.nlmsg_type,
            nlmsg_flags: self.nlmsg_flags,
            cmd: self.cmd,
            attrs: raw_views(self.attrs@),
            payload: self.payload@,
        }
    }
}

/// The views of a list of messages.
pub open spec fn msg_views(messages: Seq<RawMsg>) -> Seq<MsgView> {
    messages.map_values(|message: RawMsg| message@)
}

// --- Attributes -------------------------------------------------------------------

/// An attribute as it stands on the wire: the top bit of the type marks nesting
/// and the lower fourteen bits are the type.
pub open spec fn decoded(attr: (u16, Seq<u8>)) -> AttrView {
    AttrView {
        typ: (attr.0 % 0x4000) as u16,
        nested: attr.0 >= 0x8000,
        payload: attr.1,
    }
}

/// A list of attributes as they stand on the wire.
pub open spec fn all_decoded(attrs: Seq<(u16, Seq<u8>)>) -> Seq<AttrView> {
    attrs.map_values(|attr: (u16, Seq<u8>)| decoded(attr))
}

/// The attributes in a payload.
pub open spec fn attrs_in(payload: Seq<u8>) -> Result<Seq<AttrView>, NetlinkError> {
    if netlink::attrs_of(payload).whole {
        Ok(all_decoded(netlink::attrs_of(payload).list))
    } else {
        Err(NetlinkError::MalformedMessage("invalid nlattr length"))
    }
}

/// Parses a sequence of netlink attributes out of a payload.
pub fn parse_attrs(payload: &[u8]) -> (r: Result<Vec<RawAttr>, NetlinkError>)
    ensures
        match r {
            Ok(attrs) => attrs_in(payload@) == Ok::<Seq<AttrView>, NetlinkError>(raw_views(attrs@)),
            Err(e) => attrs_in(payload@) == Err::<Seq<AttrView>, NetlinkError>(e),
        },
{
    let mut attrs: Vec<RawAttr> = Vec::new();
    let mut offset: usize = 0;
    let ghost all = netlink::attrs_of(payload@);
    proof {
        assert(payload@.skip(0) =~= payload@);
        assert(raw_views(attrs@) + all_decoded(all.list) =~= all_decoded(all.list));
    }
    loop
        invariant
            offset <= payload@.len(),
            all == netlink::attrs_of(payload@),
            all.whole == netlink::attrs_of(payload@.skip(offset as int)).whole,
            all_decoded(all.list) == raw_views(attrs@) + all_decoded(
                netlink::attrs_of(payload@.skip(offset as int)).list,
            ),
        decreases payload@.len() - offset,
    {
        match next_attr(payload, offset) {
            AttrStep::End => {
                assert(raw_views(attrs@) + all_decoded(Seq::empty()) =~= raw_views(attrs@));
                return Ok(attrs);
            },
            AttrStep::Malformed => {
                return Err(NetlinkError::MalformedMessage("invalid nlattr length"));
            },
            AttrStep::Attr { typ, start, end, next } => {
                let ghost before = raw_views(attrs@);
                let ghost more = netlink::attrs_of(payload@.skip(next as int)).list;
                let attr = RawAttr {
                    typ: typ % 0x4000,
                    nested: typ >= 0x8000,
                    payload: copy_octets(payload, start, end),
                };
                let ghost wire = (typ, payload@.subrange(start as int, end as int));
                let ghost seen = attr@;
                attrs.push(attr);
                proof {
                    assert(seen == decoded(wire));
                    assert(raw_views(attrs@) =~= before.push(seen));
                    assert(all_decoded(seq![wire] + more) =~= seq![seen] + all_decoded(more));
                    assert(before + (seq![seen] + all_decoded(more)) =~= before.push(seen)
                        + all_decoded(more));
                }
                offset = next;
            },
        }
    }
}

/// The payload of the first attribute of a type.
pub open spec fn find(attrs: Seq<AttrView>, typ: u16) -> Option<Seq<u8>>
    decreases attrs.len(),
{
    if attrs.len() == 0 {
        None
    } else if attrs[0].typ == typ {
        Some(attrs[0].payload)
    } else {
        find(attrs.skip(1), typ)
    }
}

/// Finds the payload of the first attribute of a type.
pub fn find_attr(attrs: &[RawAttr], typ: u16) -> (r: Option<&[u8]>)
    ensures
        match r {
            Some(payload) => find(raw_views(attrs@), typ) == Some(payload@),
            None => find(raw_views(attrs@), typ) is None,
        },
{
    let mut i: usize = 0;
    let ghost views = raw_views(attrs@);
    assert(views.skip(0) =~= views);
    while i < attrs.len()
        invariant
            i <= attrs@.len(),
            views == raw_views(attrs@),
            find(views, typ) == find(views.skip(i as int), typ),
        decreases attrs@.len() - i,
    {
        if attrs[i].typ == typ {
            assert(views.skip(i as int)[0] == attrs@[i as int]@);
            return Some(attrs[i].payload.as_slice());
        }
        assert(views.skip(i as int).skip(1) =~= views.skip(i + 1));
        assert(views.skip(i as int)[0] == attrs@[i as int]@);
        i = i + 1;
    }
    None
}

/// The 8-bit value of an attribute.
pub open spec fn u8_in(attrs: Seq<AttrView>, typ: u16) -> Result<Option<u8>, NetlinkError> {
    match find(attrs, typ) {
        None => Ok(None),
        Some(payload) => if payload.len() != 1 {
            Err(NetlinkError::MalformedMessage("invalid u8 attribute length"))
        } else {
            Ok(Some(payload[0]))
        },
    }
}

/// Reads the 8-bit value of an attribute.
pub fn read_u8(attrs: &[RawAttr], typ: u16) -> (r: Result<Option<u8>, NetlinkError>)
    ensures
        r == u8_in(raw_views(attrs@), typ),
{
    match find_attr(attrs, typ) {
        None => Ok(None),
        Some(payload) => {
            if payload.len() != 1 {
                return Err(NetlinkError::MalformedMessage("invalid u8 attribute length"));
            }
            Ok(Some(payload[0]))
        },
    }
}

/// The 16-bit value of an attribute.
pub open spec fn u16_in(attrs: Seq<AttrView>, typ: u16) -> Result<Option<u16>, NetlinkError> {
    match find(attrs, typ) {
        None => Ok(None),
        Some(payload) => if payload.len() != 2 {
            Err(NetlinkError::MalformedMessage("invalid u16 attribute length"))
        } else {
            Ok(Some(bytes::ne16(payload, 0) as u16))
        },
    }
}

/// Reads the 16-bit value of an attribute.
pub fn read_u16(attrs: &[RawAttr], typ: u16) -> (r: Result<Option<u16>, NetlinkError>)
    ensures
        r == u16_in(raw_views(attrs@), typ),
{
    match find_attr(attrs, typ) {
        None => Ok(None),
        Some(payload) => {
            if payload.len() != 2 {
                return Err(NetlinkError::MalformedMessage("invalid u16 attribute length"));
            }
            Ok(Some(read_ne16(payload, 0)))
        },
    }
}

/// The 32-bit value of an attribute.
pub open spec fn u32_in(attrs: Seq<AttrView>, typ: u16) -> Result<Option<u32>, NetlinkError> {
    match find(attrs, typ) {
        None => Ok(None),
        Some(payload) => if payload.len() != 4 {
            Err(NetlinkError::MalformedMessage("invalid u32 attribute length"))
        } else {
            Ok(Some(bytes::ne32(payload, 0) as u32))
        },
    }
}

/// Reads the 32-bit value of an attribute.
pub fn read_u32(attrs: &[RawAttr], typ: u16) -> (r: Result<Option<u32>, NetlinkError>)
    ensures
        r == u32_in(raw_views(attrs@), typ),
{
    match find_attr(attrs, typ) {
        None => Ok(None),
        Some(payload) => {
            if payload.len() != 4 {
                return Err(NetlinkError::MalformedMessage("invalid u32 attribute length"));
            }
            Ok(Some(read_ne32(payload, 0)))
        },
    }
}

/// The signed 32-bit value of an attribute.
pub open spec fn i32_in(attrs: Seq<AttrView>, typ: u16) -> Result<Option<i32>, NetlinkError> {
    match find(attrs, typ) {
        None => Ok(None),
        Some(payload) => if payload.len() != 4 {
            Err(NetlinkError::MalformedMessage("invalid i32 attribute length"))
        } else {
            Ok(Some(bytes::signed32(bytes::ne32(payload, 0)) as i32))
        },
    }
}

/// Reads the signed 32-bit value of an attribute.
pub fn read_i32(attrs: &[RawAttr], typ: u16) -> (r: Result<Option<i32>, NetlinkError>)
    ensures
        r == i32_in(raw_views(attrs@), typ),
{
    match find_attr(attrs, typ) {
        None => Ok(None),
        Some(payload) => {
            if payload.len() != 4 {
                return Err(NetlinkError::MalformedMessage("invalid i32 attribute length"));
            }
            Ok(Some(to_signed(read_ne32(payload, 0))))
        },
    }
}

/// The hardware address that an attribute holds.
pub open spec fn mac_in(attrs: Seq<AttrView>, typ: u16) -> Result<Option<Seq<u8>>, NetlinkError> {
    match find(attrs, typ) {
        None => Ok(None),
        Some(payload) => if payload.len() != 6 {
            Err(NetlinkError::MalformedMessage("invalid mac attribute length"))
        } else {
            Ok(Some(payload))
        },
    }
}

/// Reads the hardware address that an attribute holds.
pub fn read_mac(attrs: &[RawAttr], typ: u16) -> (r: Result<Option<[u8; 6]>, NetlinkError>)
    ensures
        match r {
            Ok(mac) => mac_in(raw_views(attrs@), typ) == Ok::<Option<Seq<u8>>, NetlinkError>(
                model::mac_view(mac),
            ),
            Err(e) => mac_in(raw_views(attrs@), typ) == Err::<Option<Seq<u8>>, NetlinkError>(e),
        },
{
    match find_attr(attrs, typ) {
        None => Ok(None),
        Some(payload) => {
            if payload.len() != 6 {
                return Err(NetlinkError::MalformedMessage("invalid mac attribute length"));
            }
            let mac: [u8; 6] = [
                payload[0],
                payload[1],
                payload[2],
                payload[3],
                payload[4],
                payload[5],
            ];
            assert(mac@ =~= payload@);
            Ok(Some(mac))
        },
    }
}

/// The text that an attribute holds, up to the first zero octet.
pub open spec fn string_in(attrs: Seq<AttrView>, typ: u16) -> Option<Seq<char>> {
    match find(attrs, typ) {
        None => None,
        Some(payload) => Some(text::lossy_text(bytes::until_zero(payload))),
    }
}

/// Reads the text that an attribute holds.
pub fn read_string(attrs: &[RawAttr], typ: u16) -> (r: Option<String>)
    ensures
        text::text_view(r) == string_in(raw_views(attrs@), typ),
{
    match find_attr(attrs, typ) {
        None => None,
        Some(payload) => Some(decode_lossy(copy_until_zero(payload).as_slice())),
    }
}

/// The network name that an attribute holds.
pub open spec fn ssid_in(attrs: Seq<AttrView>, typ: u16) -> Result<Option<Seq<u8>>, NetlinkError> {
    match find(attrs, typ) {
        None => Ok(None),
        Some(payload) => if payload.len() > 32 {
            Err(NetlinkError::MalformedMessage("invalid ssid length"))
        } else {
            Ok(Some(payload))
        },
    }
}

/// Reads the network name that an attribute holds.
pub fn read_ssid(attrs: &[RawAttr], typ: u16) -> (r: Result<Option<Ssid>, NetlinkError>)
    ensures
        match r {
            Ok(ssid) => ssid_in(raw_views(attrs@), typ) == Ok::<Option<Seq<u8>>, NetlinkError>(
                model::ssid_view(ssid),
            ),
            Err(e) => ssid_in(raw_views(attrs@), typ) == Err::<Option<Seq<u8>>, NetlinkError>(e),
        },
{
    match find_attr(attrs, typ) {
        None => Ok(None),
        Some(payload) => {
            if payload.len() > 32 {
                return Err(NetlinkError::MalformedMessage("invalid ssid length"));
            }
            Ok(Ssid::from_bytes(payload))
        },
    }
}

/// The attributes nested in an attribute; none when it is absent.
pub open spec fn nested_in(attrs: Seq<AttrView>, typ: u16) -> Result<Seq<AttrView>, NetlinkError> {
    match find(attrs, typ) {
        None => Ok(Seq::empty()),
        Some(payload) => attrs_in(payload),
    }
}

/// Reads the attributes nested in an attribute.
pub fn nested_attrs(attrs: &[RawAttr], typ: u16) -> (r: Result<Vec<RawAttr>, NetlinkError>)
    ensures
        match r {
            Ok(inner) => nested_in(raw_views(attrs@), typ) == Ok::<Seq<AttrView>, NetlinkError>(
                raw_views(inner@),
            ),
            Err(e) => nested_in(raw_views(attrs@), typ) == Err::<Seq<AttrView>, NetlinkError>(e),
        },
{
    match find_attr(attrs, typ) {
        None => {
            let none: Vec<RawAttr> = Vec::new();
            assert(raw_views(none@) =~= Seq::empty());
            Ok(none)
        },
        Some(payload) => parse_attrs(payload),
    }
}

// --- Messages ---------------------------------------------------------------------

/// Whether a message only ends a reply or reports an error.
pub open spec fn is_control(nlmsg_type: u16) -> bool {
    nlmsg_type == NLMSG_DONE || nlmsg_type == NLMSG_ERROR
}

/// The message that a header and payload make.
pub open spec fn message_of(header: NlMsgHdr, payload: Seq<u8>) -> Result<MsgView, NetlinkError> {
    if is_control(header.nlmsg_type) {
        Ok(
            MsgView {
                nlmsg_type: header.nlmsg_type,
                nlmsg_flags: header.nlmsg_flags,
                cmd: None,
                attrs: Seq::empty(),
                payload,
            },
        )
    } else if payload.len() < 4 {
        Err(NetlinkError::MalformedMessage("short genl header"))
    } else {
        match attrs_in(payload.skip(4)) {
            Err(e) => Err(e),
            Ok(attrs) => Ok(
                MsgView {
                    nlmsg_type: header.nlmsg_type,
                    nlmsg_flags: header.nlmsg_flags,
                    cmd: Some(payload[0]),
                    attrs,
                    payload,
                },
            ),
        }
    }
}

/// Reads the message that a header and payload make.
pub fn parse_message(header: NlMsgHdr, payload: &[u8]) -> (r: Result<RawMsg, NetlinkError>)
    ensures
        match r {
            Ok(message) => message_of(header, payload@) == Ok::<MsgView, NetlinkError>(message@),
            Err(e) => message_of(header, payload@) == Err::<MsgView, NetlinkError>(e),
        },
{
    let whole: Vec<u8> = vstd::slice::slice_to_vec(payload);
    if header.nlmsg_type == NLMSG_DONE || header.nlmsg_type == NLMSG_ERROR {
        let message = RawMsg {
            nlmsg_type: header.nlmsg_type,
            nlmsg_flags: header.nlmsg_flags,
            cmd: None,
            attrs: Vec::new(),
            payload: whole,
        };
        assert(message@.attrs =~= Seq::empty());
        return Ok(message);
    }
    if payload.len() < 4 {
        return Err(NetlinkError::MalformedMessage("short genl header"));
    }
    let body: &[u8] = vstd::slice::slice_subrange(payload, 4, payload.len());
    assert(body@ =~= payload@.skip(4));
    match parse_attrs(body) {
        Err(err) => Err(err),
        Ok(attrs) => Ok(
            RawMsg {
                nlmsg_type: header.nlmsg_type,
                nlmsg_flags: header.nlmsg_flags,
                cmd: Some(payload[0]),
                attrs,
                payload: whole,
            },
        ),
    }
}

/// The messages that a buffer holds, in order.
pub open spec fn messages_of(rest: Seq<u8>) -> Result<Seq<MsgView>, NetlinkError>
    decreases rest.len(),
{
    match netlink::frame_at(rest) {
        Frame::End => if rest.len() == 0 {
            Ok(Seq::empty())
        } else {
            Err(netlink::trailing())
        },
        Frame::Malformed => Err(netlink::bad_length()),
        Frame::Message { header, payload } => match message_of(header, payload) {
            Err(e) => Err(e),
            Ok(message) => if netlink::aligned(header.nlmsg_len as nat) > rest.len() {
                Err(netlink::trailing())
            } else {
                match messages_of(netlink::after(rest, header.nlmsg_len as nat)) {
                    Err(e) => Err(e),
                    Ok(more) => Ok(seq![message] + more),
                }
            },
        },
    }
}

/// Parses all generic netlink messages in a receive buffer.
pub fn parse_genl_messages(buf: &[u8]) -> (r: Result<Vec<RawMsg>, NetlinkError>)
    ensures
        match r {
            Ok(messages) => messages_of(buf@) == Ok::<Seq<MsgView>, NetlinkError>(
                msg_views(messages@),
            ),
            Err(e) => messages_of(buf@) == Err::<Seq<MsgView>, NetlinkError>(e),
        },
{
    let mut messages: Vec<RawMsg> = Vec::new();
    let mut offset: usize = 0;
    proof {
        assert(buf@.skip(0) =~= buf@);
        if let Ok(all) = messages_of(buf@) {
            assert(msg_views(messages@) + all =~= all);
        }
    }
    loop
        invariant
            offset <= buf@.len(),
            match messages_of(buf@.skip(offset as int)) {
                Ok(more) => messages_of(buf@) == Ok::<Seq<MsgView>, NetlinkError>(
                    msg_views(messages@) + more,
                ),
                Err(e) => messages_of(buf@) == Err::<Seq<MsgView>, NetlinkError>(e),
            },
        decreases buf@.len() - offset,
    {
        let ghost views = msg_views(messages@);
        assert(views + Seq::<MsgView>::empty() =~= views);
        match next_message(buf, offset) {
            Err(err) => {
                return Err(err);
            },
            Ok(None) => {
                if offset != buf.len() {
                    return Err(NetlinkError::MalformedMessage("trailing partial nlmsghdr"));
                }
                return Ok(messages);
            },
            Ok(Some(found)) => {
                let payload: &[u8] = vstd::slice::slice_subrange(buf, found.start, found.end);
                let message: RawMsg = match parse_message(found.header, payload) {
                    Err(err) => {
                        return Err(err);
                    },
                    Ok(message) => message,
                };
                if !found.padded {
                    return Err(NetlinkError::MalformedMessage("trailing partial nlmsghdr"));
                }
                let ghost seen = message@;
                messages.push(message);
                proof {
                    assert(msg_views(messages@) =~= views.push(seen));
                    if let Ok(more) = messages_of(buf@.skip(found.next as int)) {
                        assert(views + (seq![seen] + more) =~= views.push(seen) + more);
                    }
                }
                offset = found.next;
            },
        }
    }
}

/// The octets of a request: header, command, version one, and attributes.
pub open spec fn genl_octets(
    family_id: u16,
    cmd: u8,
    flags: u16,
    sequence: u32,
    attrs: Seq<(u16, Seq<u8>)>,
) -> Seq<u8> {
    let body = seq![cmd, 1u8, 0u8, 0u8] + netlink::attrs_octets(attrs);
    (NlMsgHdr {
        nlmsg_len: ((body.len() + 16) % 0x1_0000_0000) as u32,
        nlmsg_type: family_id,
        nlmsg_flags: flags,
        nlmsg_seq: sequence,
        nlmsg_pid: 0,
    }).octets() + body
}

/// Builds a generic netlink request.
pub fn build_message(
    family_id: u16,
    cmd: u8,
    flags: u16,
    sequence: u32,
    attrs: &[(u16, Vec<u8>)],
) -> (r: Vec<u8>)
    ensures
        r@ == genl_octets(family_id, cmd, flags, sequence, netlink::attr_views(attrs@)),
{
    let mut body: Vec<u8> = Vec::new();
    body.push(cmd);
    body.push(1);
    body.push(0);
    body.push(0);
    assert(body@ =~= seq![cmd, 1u8, 0u8, 0u8]);
    push_attrs(&mut body, attrs);
    let count: u64 = body.len() as u64 % 0x1_0000_0000;
    let header = NlMsgHdr {
        nlmsg_len: ((count + 16) % 0x1_0000_0000) as u32,
        nlmsg_type: family_id,
        nlmsg_flags: flags,
        nlmsg_seq: sequence,
        nlmsg_pid: 0,
    };
    proof {
        vstd::arithmetic::div_mod::lemma_add_mod_noop(body@.len() as int, 16, 0x1_0000_0000);
    }
    let ghost head = header.octets();
    let mut message: Vec<u8> = Vec::new();
    header.append_to(&mut message);
    assert(message@ =~= head);
    append_octets(&mut message, body.as_slice());
    message
}

/// The octets of attributes end at a multiple of four.
proof fn lemma_attrs_aligned(attrs: Seq<(u16, Seq<u8>)>)
    ensures
        netlink::attrs_octets(attrs).len() % 4 == 0,
    decreases attrs.len(),
{
    if attrs.len() > 0 {
        lemma_attrs_aligned(attrs.drop_last());
        let n = attrs.last().1.len() + 4;
        let before = netlink::attrs_octets(attrs.drop_last()).len();
        assert(netlink::attr_octets(attrs.last().0, attrs.last().1).len() == netlink::aligned(n))
            by {
            assert(netlink::aligned(n) >= n);
        }
        assert(netlink::attrs_octets(attrs).len() == before + netlink::aligned(n));
        assert(netlink::aligned(n) % 4 == 0);
    }
}

/// The message that a request is read back as.
pub open spec fn request_view(
    family_id: u16,
    cmd: u8,
    flags: u16,
    attrs: Seq<(u16, Seq<u8>)>,
) -> MsgView {
    MsgView {
        nlmsg_type: family_id,
        nlmsg_flags: flags,
        cmd: Some(cmd),
        attrs: all_decoded(attrs),
        payload: seq![cmd, 1u8, 0u8, 0u8] + netlink::attrs_octets(attrs),
    }
}

/// What stands at the start of a buffer that begins with a request.
proof fn lemma_request_frame(
    family_id: u16,
    cmd: u8,
    flags: u16,
    sequence: u32,
    attrs: Seq<(u16, Seq<u8>)>,
    rest: Seq<u8>,
) -> (header: NlMsgHdr)
    requires
        netlink::attrs_octets(attrs).len() + 20 < 0x1_0000_0000,
    ensures
        header.nlmsg_type == family_id,
        header.nlmsg_flags == flags,
        header.nlmsg_len == genl_octets(family_id, cmd, flags, sequence, attrs).len(),
        header.nlmsg_len % 4 == 0,
        netlink::frame_at(genl_octets(family_id, cmd, flags, sequence, attrs) + rest) == (
        Frame::Message {
            header,
            payload: seq![cmd, 1u8, 0u8, 0u8] + netlink::attrs_octets(attrs),
        }),
{
    let body = seq![cmd, 1u8, 0u8, 0u8] + netlink::attrs_octets(attrs);
    let one = genl_octets(family_id, cmd, flags, sequence, attrs);
    let whole = one + rest;
    let header = NlMsgHdr {
        nlmsg_len: (body.len() + 16) as u32,
        nlmsg_type: family_id,
        nlmsg_flags: flags,
        nlmsg_seq: sequence,
        nlmsg_pid: 0,
    };
    assert((body.len() + 16) % 0x1_0000_0000 == body.len() + 16) by {
        vstd::arithmetic::div_mod::lemma_small_mod(body.len() + 16, 0x1_0000_0000);
    }
    netlink::lemma_header(header, body + rest);
    lemma_attrs_aligned(attrs);
    assert(one == header.octets() + body);
    assert(whole =~= header.octets() + (body + rest));
    assert(whole.subrange(16, one.len() as int) =~= body);
    header
}

/// The payload of a request is read as its command and attributes.
proof fn lemma_request_read(header: NlMsgHdr, cmd: u8, attrs: Seq<(u16, Seq<u8>)>)
    requires
        !is_control(header.nlmsg_type),
        forall|i: int| 0 <= i < attrs.len() ==> (#[trigger] attrs[i]).1.len() <= 65531,
    ensures
        message_of(header, seq![cmd, 1u8, 0u8, 0u8] + netlink::attrs_octets(attrs)) == Ok::<
            MsgView,
            NetlinkError,
        >(request_view(header.nlmsg_type, cmd, header.nlmsg_flags, attrs)),
{
    let body = seq![cmd, 1u8, 0u8, 0u8] + netlink::attrs_octets(attrs);
    assert(body.skip(4) =~= netlink::attrs_octets(attrs));
    netlink::lemma_attrs_round_trip(attrs);
}

/// The messages of a buffer that begins with one that is whole and aligned.
proof fn lemma_first_message(
    one: Seq<u8>,
    rest: Seq<u8>,
    header: NlMsgHdr,
    payload: Seq<u8>,
    view: MsgView,
)
    requires
        netlink::frame_at(one + rest) == (Frame::Message { header, payload }),
        header.nlmsg_len == one.len(),
        one.len() % 4 == 0,
        message_of(header, payload) == Ok::<MsgView, NetlinkError>(view),
    ensures
        messages_of(one + rest) == match messages_of(rest) {
            Ok(more) => Ok::<Seq<MsgView>, NetlinkError>(seq![view] + more),
            Err(e) => Err(e),
        },
{
    assert(netlink::aligned(one.len()) == one.len());
    assert(netlink::after(one + rest, one.len()) =~= rest);
}

/// A request that was built and stands before other octets is read back as one
/// message with its command and attributes, and then the others are read, as long
/// as it fits its length fields and is no control message.
pub proof fn lemma_message_then(
    family_id: u16,
    cmd: u8,
    flags: u16,
    sequence: u32,
    attrs: Seq<(u16, Seq<u8>)>,
    rest: Seq<u8>,
)
    requires
        !is_control(family_id),
        netlink::attrs_octets(attrs).len() + 20 < 0x1_0000_0000,
        forall|i: int| 0 <= i < attrs.len() ==> (#[trigger] attrs[i]).1.len() <= 65531,
    ensures
        messages_of(genl_octets(family_id, cmd, flags, sequence, attrs) + rest) == match messages_of(
            rest,
        ) {
            Ok(more) => Ok::<Seq<MsgView>, NetlinkError>(
                seq![request_view(family_id, cmd, flags, attrs)] + more,
            ),
            Err(e) => Err(e),
        },
{
    let body = seq![cmd, 1u8, 0u8, 0u8] + netlink::attrs_octets(attrs);
    let one = genl_octets(family_id, cmd, flags, sequence, attrs);
    let header = lemma_request_frame(family_id, cmd, flags, sequence, attrs, rest);
    lemma_request_read(header, cmd, attrs);
    lemma_first_message(one, rest, header, body, request_view(family_id, cmd, flags, attrs));
}

/// A request that was built is read back as one message with its command and
/// attributes, as long as it fits its length fields and is no control message.
pub proof fn lemma_message_round_trip(
    family_id: u16,
    cmd: u8,
    flags: u16,
    sequence: u32,
    attrs: Seq<(u16, Seq<u8>)>,
)
    requires
        !is_control(family_id),
        netlink::attrs_octets(attrs).len() + 20 < 0x1_0000_0000,
        forall|i: int| 0 <= i < attrs.len() ==> (#[trigger] attrs[i]).1.len() <= 65531,
    ensures
        messages_of(genl_octets(family_id, cmd, flags, sequence, attrs)) == Ok::<
            Seq<MsgView>,
            NetlinkError,
        >(seq![request_view(family_id, cmd, flags, attrs)]),
{
    let one = genl_octets(family_id, cmd, flags, sequence, attrs);
    let view = request_view(family_id, cmd, flags, attrs);
    lemma_message_then(family_id, cmd, flags, sequence, attrs, Seq::empty());
    assert(one + Seq::<u8>::empty() =~= one);
    assert(messages_of(Seq::empty()) == Ok::<Seq<MsgView>, NetlinkError>(Seq::empty()));
    assert(seq![view] + Seq::<MsgView>::empty() =~= seq![view]);
}

// --- Replies ----------------------------------------------------------------------

/// What the messages of a buffer add to a dump, and whether they end it.
pub open spec fn dump_part(messages: Seq<MsgView>) -> (Seq<MsgView>, Result<bool, NetlinkError>)
    decreases messages.len(),
{
    if messages.len() == 0 {
        (Seq::empty(), Ok(false))
    } else if messages[0].nlmsg_type == NLMSG_DONE {
        (Seq::empty(), Ok(true))
    } else if messages[0].nlmsg_type == NLMSG_ERROR {
        (Seq::empty(), Err(netlink::kernel_error(messages[0].payload)))
    } else {
        let (more, end) = dump_part(messages.skip(1));
        (seq![messages[0]] + more, end)
    }
}

/// Takes a buffer of replies to a dump request: its messages are added to
/// `messages`, and the result says whether the dump is complete.
pub fn take_dump(buf: &[u8], messages: &mut Vec<RawMsg>) -> (r: Result<bool, NetlinkError>)
    ensures
        match messages_of(buf@) {
            Err(e) => r == Err::<bool, NetlinkError>(e) && final(messages)@ == old(messages)@,
            Ok(all) => {
                &&& r == dump_part(all).1
                &&& msg_views(final(messages)@) == msg_views(old(messages)@) + dump_part(all).0
            },
        },
{
    let found: Vec<RawMsg> = match parse_genl_messages(buf) {
        Err(err) => {
            return Err(err);
        },
        Ok(found) => found,
    };
    let ghost all = msg_views(found@);
    let ghost start = msg_views(messages@);
    proof {
        assert(all.skip(0) =~= all);
        assert(start + dump_part(all).0 =~= start + dump_part(all.skip(0)).0);
    }
    let mut left: Vec<RawMsg> = reversed(found);
    let ghost mut i: int = 0;
    while left.len() > 0
        invariant
            0 <= i <= all.len(),
            all == msg_views(found@),
            left@ == found@.skip(i).reverse(),
            messages_of(buf@) == Ok::<Seq<MsgView>, NetlinkError>(all),
            start == msg_views(old(messages)@),
            start + dump_part(all).0 == msg_views(messages@) + dump_part(all.skip(i)).0,
            dump_part(all).1 == dump_part(all.skip(i)).1,
        decreases left@.len(),
    {
        let ghost views = msg_views(messages@);
        let ghost rest = all.skip(i);
        proof {
            assert(left@.last() == found@[i]);
            assert(rest[0] == found@[i]@);
            assert(rest.skip(1) =~= all.skip(i + 1));
            assert(views + Seq::<MsgView>::empty() =~= views);
            assert(left@.drop_last() =~= found@.skip(i + 1).reverse());
        }
        match left.pop() {
            None => {},
            Some(message) => {
                if message.nlmsg_type == NLMSG_DONE {
                    return Ok(true);
                }
                if message.nlmsg_type == NLMSG_ERROR {
                    return Err(parse_kernel_error(message.payload.as_slice()));
                }
                let ghost seen = message@;
                messages.push(message);
                proof {
                    assert(msg_views(messages@) =~= views.push(seen));
                    let more = dump_part(all.skip(i + 1)).0;
                    assert(views + (seq![seen] + more) =~= views.push(seen) + more);
                    i = i + 1;
                }
            },
        }
    }
    proof {
        assert(all.skip(i).len() == 0) by {
            assert(found@.skip(i).reverse().len() == 0);
        }
        assert(msg_views(messages@) + Seq::<MsgView>::empty() =~= msg_views(messages@));
    }
    Ok(false)
}

/// The messages of a list, last first.
fn reversed(messages: Vec<RawMsg>) -> (r: Vec<RawMsg>)
    ensures
        r@ == messages@.reverse(),
{
    let mut left: Vec<RawMsg> = messages;
    let mut r: Vec<RawMsg> = Vec::new();
    while left.len() > 0
        invariant
            left@.len() <= messages@.len(),
            left@ == messages@.take(left@.len() as int),
            r@ == messages@.skip(left@.len() as int).reverse(),
        decreases left@.len(),
    {
        let ghost n = left@.len() as int;
        match left.pop() {
            None => {},
            Some(message) => {
                r.push(message);
                assert(r@ =~= messages@.skip(n - 1).reverse());
            },
        }
    }
    assert(messages@.skip(0) =~= messages@);
    r
}

/// What a payload of an error message acknowledges.
pub open spec fn ack_of(payload: Seq<u8>) -> Result<(), NetlinkError> {
    if payload.len() < 4 {
        Err(NetlinkError::MalformedMessage("short nlmsgerr"))
    } else if bytes::ne32(payload, 0) == 0 {
        Ok(())
    } else {
        Err(NetlinkError::Kernel(bytes::signed32(bytes::ne32(payload, 0)) as i32))
    }
}

/// Reads what a payload of an error message acknowledges.
pub fn parse_ack_error(payload: &[u8]) -> (r: Result<(), NetlinkError>)
    ensures
        r == ack_of(payload@),
{
    if payload.len() < 4 {
        return Err(NetlinkError::MalformedMessage("short nlmsgerr"));
    }
    let code: i32 = to_signed(read_ne32(payload, 0));
    if code == 0 {
        Ok(())
    } else {
        Err(NetlinkError::Kernel(code))
    }
}

/// The acknowledgement among the messages of a buffer.
pub open spec fn ack_among(messages: Seq<MsgView>) -> Option<Result<(), NetlinkError>>
    decreases messages.len(),
{
    if messages.len() == 0 {
        None
    } else if messages[0].nlmsg_type == NLMSG_ERROR {
        Some(ack_of(messages[0].payload))
    } else {
        ack_among(messages.skip(1))
    }
}

/// Takes a buffer of replies to a request that asked for an acknowledgement:
/// nothing means that another buffer has to be received.
pub fn take_ack(buf: &[u8]) -> (r: Option<Result<(), NetlinkError>>)
    ensures
        r == match messages_of(buf@) {
            Err(e) => Some(Err::<(), NetlinkError>(e)),
            Ok(all) => ack_among(all),
        },
{
    let found: Vec<RawMsg> = match parse_genl_messages(buf) {
        Err(err) => {
            return Some(Err(err));
        },
        Ok(found) => found,
    };
    let ghost all = msg_views(found@);
    let mut i: usize = 0;
    assert(all.skip(0) =~= all);
    while i < found.len()
        invariant
            i <= found@.len(),
            all == msg_views(found@),
            messages_of(buf@) == Ok::<Seq<MsgView>, NetlinkError>(all),
            ack_among(all) == ack_among(all.skip(i as int)),
        decreases found@.len() - i,
    {
        assert(all.skip(i as int)[0] == found@[i as int]@);
        assert(all.skip(i as int).skip(1) =~= all.skip(i + 1));
        if found[i].nlmsg_type == NLMSG_ERROR {
            return Some(parse_ack_error(found[i].payload.as_slice()));
        }
        i = i + 1;
    }
    None
}

} // verus!
