//! Links, addresses and routes of the kernel.

use vstd::prelude::*;

use crate::bytes;
use crate::connection::ip::IpConfigError;
use crate::linux::ipconfig;
use crate::linux::ipconfig::StepView;
use crate::linux::model::{
    Address, AddressEventKind, IpFamily, Link, LinkEventKind, LinkView, NetlinkError,
    NetworkEventView, Route, RouteEventKind, RouteKind, RouteScope,
};
use crate::linux::netlink;
use crate::linux::netlink::{IfAddrMsg, NlMsgHdr, RtMsg};
use crate::net;
use crate::net::{IpAddr, Ipv4Addr, Ipv6Addr};
use crate::sort;
use crate::sort::Ranked;
use crate::text;

verus! {

/// An attribute: its type and its value.
pub type Attribute = (u16, Seq<u8>);

/// The attributes of a payload.
pub open spec fn attributes(payload: Seq<u8>) -> Seq<Attribute> {
    netlink::attrs_of(payload).list
}

/// Attributes follow each other at multiples of four octets. Each begins with its
/// length, which counts the four octets of its head, and its type.
pub proof fn lemma_attributes_in_a_payload(payload: Seq<u8>, next: int)
    requires
        payload.len() >= 4,
        next % 4 == 0,
        bytes::ne16(payload, 0) <= next < bytes::ne16(payload, 0) + 4,
    ensures
        ({
            let n = bytes::ne16(payload, 0) as int;
            let rest = if next >= payload.len() {
                Seq::empty()
            } else {
                payload.skip(next)
            };
            if 4 <= n <= payload.len() {
                &&& attributes(payload).len() > 0
                &&& attributes(payload)[0] == (
                    bytes::ne16(payload, 2) as u16,
                    payload.subrange(4, n),
                )
                &&& attributes(payload).skip(1) == attributes(rest)
                &&& netlink::attrs_of(payload).whole == netlink::attrs_of(rest).whole
            } else {
                attributes(payload).len() == 0 && !netlink::attrs_of(payload).whole
            }
        }),
        netlink::attrs_of(Seq::empty()).whole,
        attributes(Seq::empty()).len() == 0,
{
    let n = bytes::ne16(payload, 0);
    assert(netlink::aligned(n) == next);
    if 4 <= n <= payload.len() {
        let all = netlink::attrs_of(payload).list;
        let more = netlink::attrs_of(netlink::after(payload, n)).list;
        assert(all.skip(1) =~= more);
    }
}

/// Whether a value is that of the last attribute of a type, or nothing when there is
/// none.
pub open spec fn last_of(attrs: Seq<Attribute>, typ: u16, found: Option<Seq<u8>>) -> bool {
    match found {
        Some(value) => exists|k: int|
            0 <= k < attrs.len() && #[trigger] attrs[k] == (typ, value) && forall|i: int|
                k < i < attrs.len() ==> (#[trigger] attrs[i]).0 != typ,
        None => forall|i: int| 0 <= i < attrs.len() ==> (#[trigger] attrs[i]).0 != typ,
    }
}

proof fn lemma_last(attrs: Seq<Attribute>, typ: u16)
    ensures
        last_of(attrs, typ, netlink::last_attr(attrs, typ)),
    decreases attrs.len(),
{
    if attrs.len() > 0 {
        let k = attrs.len() - 1;
        if attrs[k].0 == typ {
            assert(attrs[k] == (typ, attrs[k].1));
        } else {
            let most = attrs.drop_last();
            lemma_last(most, typ);
            if let Some(value) = netlink::last_attr(most, typ) {
                let j = choose|j: int|
                    0 <= j < most.len() && #[trigger] most[j] == (typ, value) && forall|i: int|
                        j < i < most.len() ==> (#[trigger] most[i]).0 != typ;
                assert(attrs[j] == (typ, value));
                assert forall|i: int| j < i < attrs.len() implies (#[trigger] attrs[i]).0 != typ by {
                    if i < k {
                        assert(most[i] == attrs[i]);
                    }
                }
            } else {
                assert forall|i: int| 0 <= i < attrs.len() implies (#[trigger] attrs[i]).0 != typ by {
                    if i < k {
                        assert(most[i] == attrs[i]);
                    }
                }
            }
        }
    }
}

pub(crate) proof fn lemma_word(s: Seq<u8>, k: int)
    requires
        0 <= k,
        k + 4 <= s.len(),
    ensures
        0 <= bytes::ne32(s, k) < 0x1_0000_0000,
        -0x8000_0000 <= bytes::signed32(bytes::ne32(s, k)) < 0x8000_0000,
{
}

// --- Reading ---------------------------------------------------------------------------

/// A link that is reported of a message has the index, the flags and the name that
/// stand in it; a message without a name reports none.
pub proof fn lemma_link_is_what_message_says(payload: Seq<u8>)
    ensures
        netlink::link_of(payload) is Ok <==> payload.len() >= 16 && netlink::attrs_of(
            payload.skip(16),
        ).whole,
        netlink::link_of(payload) matches Ok(found) ==> {
            let attrs = attributes(payload.skip(16));
            match found {
                Some(link) => {
                    &&& link.index == bytes::signed32(bytes::ne32(payload, 4))
                    &&& link.flags.0 == bytes::ne32(payload, 8)
                    &&& link.flags.up() <==> bytes::ne32(payload, 8) % 2 == 1
                    &&& link.flags.loopback() <==> bytes::ne32(payload, 8) / 8 % 2 == 1
                    &&& exists|name: Seq<u8>| #[trigger]
                        last_of(attrs, 3, Some(name)) && link.name == text::lossy_text(
                            bytes::until_zero(name),
                        )
                },
                None => last_of(attrs, 3, None),
            }
        },
{
    if payload.len() >= 16 {
        let attrs = attributes(payload.skip(16));
        lemma_last(attrs, 3);
        lemma_word(payload, 4);
        lemma_word(payload, 8);
        if let Ok(Some(link)) = netlink::link_of(payload) {
            let name = netlink::last_attr(attrs, 3)->0;
            assert(last_of(attrs, 3, Some(name)));
        }
    }
}

/// Whether an address is the one with the given octets, the most significant first.
pub open spec fn is_address(octets: Seq<u8>, address: IpAddr) -> bool {
    match address {
        IpAddr::V4(a) => octets.len() == 4 && a.bits == 16777216 * octets[0] + 65536 * octets[1]
            + 256 * octets[2] + octets[3],
        IpAddr::V6(a) => octets.len() == 16 && a.octets_view() == octets,
    }
}

proof fn lemma_address_from(octets: Seq<u8>)
    requires
        octets.len() == 4 || octets.len() == 16,
    ensures
        is_address(octets, netlink::address_from(octets)),
{
    net::lemma_bounds();
    net::lemma_octets_value(octets);
    if octets.len() == 4 {
        reveal_with_fuel(net::octets_value, 5);
        let a = octets.drop_last();
        let b = a.drop_last();
        let c = b.drop_last();
        assert(octets.last() == octets[3] && a.last() == octets[2] && b.last() == octets[1]
            && c.last() == octets[0]);
        assert(c.drop_last().len() == 0);
        assert(net::octets_value(octets) == 256 * (256 * (256 * octets[0] + octets[1]) + octets[2])
            + octets[3]);
    }
}

/// Whether a value is that of the first attribute of one of two types.
pub open spec fn first_of(attrs: Seq<Attribute>, one: u16, other: u16, value: Seq<u8>) -> bool {
    exists|k: int|
        0 <= k < attrs.len() && ((#[trigger] attrs[k]).0 == one || attrs[k].0 == other)
            && attrs[k].1 == value && forall|i: int|
            0 <= i < k ==> (#[trigger] attrs[i]).0 != one && attrs[i].0 != other
}

proof fn lemma_first(attrs: Seq<Attribute>)
    ensures
        match netlink::first_address(attrs) {
            Some(value) => first_of(attrs, 1, 2, value),
            None => forall|i: int|
                0 <= i < attrs.len() ==> (#[trigger] attrs[i]).0 != 1 && attrs[i].0 != 2,
        },
    decreases attrs.len(),
{
    if attrs.len() > 0 && attrs[0].0 != 1 && attrs[0].0 != 2 {
        let more = attrs.skip(1);
        lemma_first(more);
        if let Some(value) = netlink::first_address(more) {
            let k = choose|k: int|
                0 <= k < more.len() && ((#[trigger] more[k]).0 == 1 || more[k].0 == 2)
                    && more[k].1 == value && forall|i: int|
                    0 <= i < k ==> (#[trigger] more[i]).0 != 1 && more[i].0 != 2;
            assert(attrs[k + 1] == more[k]);
            assert forall|i: int| 0 <= i < k + 1 implies (#[trigger] attrs[i]).0 != 1 && attrs[i].0
                != 2 by {
                if i > 0 {
                    assert(more[i - 1] == attrs[i]);
                }
            }
        } else {
            assert forall|i: int| 0 <= i < attrs.len() implies (#[trigger] attrs[i]).0 != 1
                && attrs[i].0 != 2 by {
                if i > 0 {
                    assert(more[i - 1] == attrs[i]);
                }
            }
        }
    } else if attrs.len() > 0 {
        assert(first_of(attrs, 1, 2, attrs[0].1));
    }
}

/// An address that is reported of a message has the interface, the prefix length and
/// the octets that stand in it. Messages of other families report none.
pub proof fn lemma_address_is_what_message_says(payload: Seq<u8>)
    ensures
        netlink::address_of(payload) matches Ok(Some(found)) ==> {
            &&& payload.len() >= 8
            &&& found.interface_index == bytes::ne32(payload, 4)
            &&& found.prefix_length == payload[1]
            &&& found.address is V4 <==> payload[0] == 2
            &&& found.address is V6 <==> payload[0] == 10
            &&& exists|octets: Seq<u8>| #[trigger]
                first_of(attributes(payload.skip(8)), 1, 2, octets) && is_address(
                    octets,
                    found.address,
                )
        },
        netlink::address_of(payload) matches Ok(None) ==> payload.len() >= 8 && (payload[0] != 2
            && payload[0] != 10 || forall|i: int|
            0 <= i < attributes(payload.skip(8)).len() ==> (#[trigger] attributes(
                payload.skip(8),
            )[i]).0 != 1 && attributes(payload.skip(8))[i].0 != 2),
{
    if payload.len() >= 8 {
        let attrs = attributes(payload.skip(8));
        lemma_first(attrs);
        lemma_word(payload, 4);
        if let Ok(Some(found)) = netlink::address_of(payload) {
            let octets = netlink::first_address(attrs)->0;
            assert(first_of(attrs, 1, 2, octets));
            lemma_address_from(octets);
        }
    }
}

proof fn lemma_route_lengths(attrs: Seq<Attribute>, n: nat, typ: u16)
    requires
        netlink::route_attrs_error(attrs, n) is None,
    ensures
        netlink::last_attr(attrs, typ) matches Some(value) ==> {
            &&& typ == 1 || typ == 5 ==> value.len() == n
            &&& typ == 4 || typ == 6 ==> value.len() == 4
        },
{
    lemma_last(attrs, typ);
    lemma_no_route_error(attrs, n);
}

proof fn lemma_no_route_error(attrs: Seq<Attribute>, n: nat)
    requires
        netlink::route_attrs_error(attrs, n) is None,
    ensures
        forall|i: int|
            0 <= i < attrs.len() ==> netlink::route_attr_error(#[trigger] attrs[i], n) is None,
    decreases attrs.len(),
{
    if attrs.len() > 0 {
        let more = attrs.skip(1);
        lemma_no_route_error(more, n);
        assert forall|i: int| 0 <= i < attrs.len() implies netlink::route_attr_error(
            #[trigger] attrs[i],
            n,
        ) is None by {
            if i > 0 {
                assert(more[i - 1] == attrs[i]);
            }
        }
    }
}

/// A route that is reported of a message has the destination, prefix length, gateway,
/// interface, metric, kind and scope that stand in it. Only routes of the main table
/// that lead somewhere, to nothing or nowhere are reported.
pub proof fn lemma_route_is_what_message_says(payload: Seq<u8>)
    ensures
        netlink::route_of(payload) matches Ok(Some(route)) ==> {
            let attrs = attributes(payload.skip(12));
            &&& payload.len() >= 12
            &&& route.family == IpFamily::V4 <==> payload[0] == 2
            &&& route.family == IpFamily::V6 <==> payload[0] == 10
            &&& route.prefix_length == payload[1]
            &&& payload[4] == 0 || payload[4] == 254
            &&& payload[7] == 1 && route.kind == RouteKind::Unicast || payload[7] == 6 && route.kind
                == RouteKind::Blackhole || payload[7] == 7 && route.kind == RouteKind::Unreachable
            &&& payload[6] == 0 ==> route.scope == RouteScope::Universe
            &&& payload[6] == 200 ==> route.scope == RouteScope::Site
            &&& payload[6] == 253 ==> route.scope == RouteScope::Link
            &&& payload[6] == 254 ==> route.scope == RouteScope::Host
            &&& payload[6] == 255 ==> route.scope == RouteScope::Nowhere
            &&& says_address(
                attrs,
                1,
                Some(route.destination),
                Some(
                    if payload[0] == 2 {
                        IpAddr::V4(Ipv4Addr { bits: 0 })
                    } else {
                        IpAddr::V6(Ipv6Addr { bits: 0 })
                    },
                ),
            )
            &&& says_address(attrs, 5, route.gateway, None)
            &&& match route.output_interface {
                Some(index) => exists|value: Seq<u8>| #[trigger]
                    last_of(attrs, 4, Some(value)) && value.len() == 4 && index == bytes::signed32(
                        bytes::ne32(value, 0),
                    ),
                None => last_of(attrs, 4, None),
            }
            &&& match route.metric {
                Some(metric) => exists|value: Seq<u8>| #[trigger]
                    last_of(attrs, 6, Some(value)) && value.len() == 4 && metric == bytes::ne32(
                        value,
                        0,
                    ),
                None => last_of(attrs, 6, None),
            }
        },
        netlink::route_of(payload) matches Ok(None) ==> payload.len() >= 12 && (payload[0] != 2
            && payload[0] != 10 || payload[4] != 0 && payload[4] != 254 || payload[7] != 1
            && payload[7] != 6 && payload[7] != 7),
{
    if let Ok(Some(route)) = netlink::route_of(payload) {
        let attrs = attributes(payload.skip(12));
        let n = netlink::address_length(payload[0])->0;
        lemma_last(attrs, 1);
        lemma_last(attrs, 4);
        lemma_last(attrs, 5);
        lemma_last(attrs, 6);
        lemma_route_lengths(attrs, n, 1);
        lemma_route_lengths(attrs, n, 4);
        lemma_route_lengths(attrs, n, 5);
        lemma_route_lengths(attrs, n, 6);
        if let Some(value) = netlink::last_attr(attrs, 1) {
            lemma_address_from(value);
            assert(last_of(attrs, 1, Some(value)));
        }
        if let Some(value) = netlink::last_attr(attrs, 5) {
            lemma_address_from(value);
            assert(last_of(attrs, 5, Some(value)));
        }
        if let Some(value) = netlink::last_attr(attrs, 4) {
            lemma_word(value, 0);
            assert(last_of(attrs, 4, Some(value)));
        }
        if let Some(value) = netlink::last_attr(attrs, 6) {
            lemma_word(value, 0);
            assert(last_of(attrs, 6, Some(value)));
        }
    }
}

/// Whether an address is that of the last attribute of a type; without one it is as
/// given.
pub open spec fn says_address(
    attrs: Seq<Attribute>,
    typ: u16,
    address: Option<IpAddr>,
    otherwise: Option<IpAddr>,
) -> bool {
    ||| exists|octets: Seq<u8>| #[trigger]
        last_of(attrs, typ, Some(octets)) && address is Some && is_address(octets, address->0)
    ||| last_of(attrs, typ, None) && address == otherwise
}

/// A change that the kernel tells of is reported as what it is. Messages 16, 20 and 24
/// tell of a link, an address or a route that is there, and the next number each of
/// one that is gone; the flag 0x400 tells what was created.
pub proof fn lemma_event_is_what_message_says(header: NlMsgHdr, payload: Seq<u8>)
    ensures
        netlink::event_of(header, payload) matches Ok(Some(event)) ==> match event {
            NetworkEventView::Link(kind, link) => {
                &&& netlink::link_of(payload) == Ok::<Option<LinkView>, NetlinkError>(Some(link))
                &&& header.nlmsg_type == 17 && kind == LinkEventKind::Removed || header.nlmsg_type
                    == 16 && kind == if header.nlmsg_flags / 0x400 % 2 == 1 {
                    LinkEventKind::Created
                } else {
                    LinkEventKind::Changed
                }
            },
            NetworkEventView::Address(event) => {
                &&& netlink::address_of(payload) == Ok::<Option<Address>, NetlinkError>(
                    Some(event.address),
                )
                &&& header.nlmsg_type == 20 && event.kind == AddressEventKind::Added
                    || header.nlmsg_type == 21 && event.kind == AddressEventKind::Removed
            },
            NetworkEventView::Route(event) => {
                &&& netlink::route_of(payload) == Ok::<Option<Route>, NetlinkError>(
                    Some(event.route),
                )
                &&& header.nlmsg_type == 25 && event.kind == RouteEventKind::Removed
                    || header.nlmsg_type == 24 && event.kind == if header.nlmsg_flags / 0x400 % 2
                    == 1 {
                    RouteEventKind::Added
                } else {
                    RouteEventKind::Changed
                }
            },
            NetworkEventView::Wifi(_) => false,
        },
        netlink::event_of(header, payload) matches Ok(None) ==> {
            &&& header.nlmsg_type == 16 || header.nlmsg_type == 17 ==> netlink::link_of(payload)
                == Ok::<Option<LinkView>, NetlinkError>(None)
            &&& header.nlmsg_type == 20 || header.nlmsg_type == 21 ==> netlink::address_of(payload)
                == Ok::<Option<Address>, NetlinkError>(None)
            &&& header.nlmsg_type == 24 || header.nlmsg_type == 25 ==> netlink::route_of(payload)
                == Ok::<Option<Route>, NetlinkError>(None)
        },
{
}

/// Whether a buffer begins with a message: its length, which counts the sixteen octets
/// of its head, its type, and its payload.
pub open spec fn begins(buf: Seq<u8>, typ: int, payload: Seq<u8>) -> bool {
    &&& buf.len() >= 16 + payload.len()
    &&& bytes::ne32(buf, 0) == 16 + payload.len()
    &&& bytes::ne16(buf, 4) == typ
    &&& buf.subrange(16, 16 + payload.len() as int) == payload
}

proof fn lemma_begins(buf: Seq<u8>, typ: int, payload: Seq<u8>, next: int)
    requires
        begins(buf, typ, payload),
        next % 4 == 0,
        16 + payload.len() <= next < 20 + payload.len(),
    ensures
        netlink::frame_at(buf) matches netlink::Frame::Message { header, payload: found } && found
            == payload && header.nlmsg_type == typ && netlink::after(buf, header.nlmsg_len as nat)
            == (if next >= buf.len() {
            Seq::empty()
        } else {
            buf.skip(next)
        }),
{
    lemma_word(buf, 0);
    assert(netlink::aligned((16 + payload.len()) as nat) == next);
}

/// A dump lists what each of its messages reports, in order, up to the message that
/// ends it, and an error of the kernel ends it with that error. Messages of other
/// types are passed over.
pub proof fn lemma_dump_lists_every_message(
    buf: Seq<u8>,
    typ: int,
    payload: Seq<u8>,
    next: int,
)
    requires
        begins(buf, typ, payload),
        next % 4 == 0,
        16 + payload.len() <= next < 20 + payload.len(),
    ensures
        ({
            let rest = if next >= buf.len() {
                Seq::empty()
            } else {
                buf.skip(next)
            };
            &&& typ == 3 ==> {
                &&& netlink::link_dump(buf).0.len() == 0 && netlink::link_dump(buf).1 == Ok::<
                    bool,
                    NetlinkError,
                >(true)
                &&& netlink::address_dump(buf).0.len() == 0 && netlink::address_dump(buf).1 == Ok::<
                    bool,
                    NetlinkError,
                >(true)
                &&& netlink::route_dump(buf).0.len() == 0 && netlink::route_dump(buf).1 == Ok::<
                    bool,
                    NetlinkError,
                >(true)
            }
            &&& typ == 2 && payload.len() >= 4 ==> {
                let error = NetlinkError::Kernel(
                    bytes::signed32(bytes::ne32(payload, 0)) as i32,
                );
                &&& netlink::link_dump(buf).1 == Err::<bool, NetlinkError>(error)
                &&& netlink::address_dump(buf).1 == Err::<bool, NetlinkError>(error)
                &&& netlink::route_dump(buf).1 == Err::<bool, NetlinkError>(error)
            }
            &&& typ == 16 ==> match netlink::link_of(payload) {
                Ok(Some(link)) => netlink::link_dump(buf).0 == seq![link] + netlink::link_dump(
                    rest,
                ).0 && netlink::link_dump(buf).1 == netlink::link_dump(rest).1,
                Ok(None) => netlink::link_dump(buf) == netlink::link_dump(rest),
                Err(e) => netlink::link_dump(buf).1 == Err::<bool, NetlinkError>(e),
            }
            &&& typ == 20 ==> match netlink::address_of(payload) {
                Ok(Some(address)) => netlink::address_dump(buf).0 == seq![address]
                    + netlink::address_dump(rest).0 && netlink::address_dump(buf).1
                    == netlink::address_dump(rest).1,
                Ok(None) => netlink::address_dump(buf) == netlink::address_dump(rest),
                Err(e) => netlink::address_dump(buf).1 == Err::<bool, NetlinkError>(e),
            }
            &&& typ == 24 ==> match netlink::route_of(payload) {
                Ok(Some(route)) => netlink::route_dump(buf).0 == seq![route] + netlink::route_dump(
                    rest,
                ).0 && netlink::route_dump(buf).1 == netlink::route_dump(rest).1,
                Ok(None) => netlink::route_dump(buf) == netlink::route_dump(rest),
                Err(e) => netlink::route_dump(buf).1 == Err::<bool, NetlinkError>(e),
            }
            &&& typ != 2 && typ != 3 && typ != 16 ==> netlink::link_dump(buf) == netlink::link_dump(
                rest,
            )
            &&& typ != 2 && typ != 3 && typ != 20 ==> netlink::address_dump(buf)
                == netlink::address_dump(rest)
            &&& typ != 2 && typ != 3 && typ != 24 ==> netlink::route_dump(buf)
                == netlink::route_dump(rest)
        }),
{
    lemma_begins(buf, typ, payload, next);
    if payload.len() >= 4 {
        lemma_word(payload, 0);
    }
}

/// A change succeeded when the kernel answers with error number zero, and failed with
/// the number otherwise.
pub proof fn lemma_acknowledgement(buf: Seq<u8>, typ: int, payload: Seq<u8>, next: int)
    requires
        begins(buf, typ, payload),
        next % 4 == 0,
        16 + payload.len() <= next < 20 + payload.len(),
    ensures
        typ == 2 && payload.len() >= 4 ==> netlink::ack_in(buf) == if bytes::ne32(payload, 0) == 0 {
            Some(Ok::<(), NetlinkError>(()))
        } else {
            Some(
                Err::<(), NetlinkError>(
                    NetlinkError::Kernel(bytes::signed32(bytes::ne32(payload, 0)) as i32),
                ),
            )
        },
        typ != 2 ==> netlink::ack_in(buf) == netlink::ack_in(
            if next >= buf.len() {
                Seq::empty()
            } else {
                buf.skip(next)
            },
        ),
        netlink::ack_in(Seq::empty()) is None,
{
    lemma_begins(buf, typ, payload, next);
    if payload.len() >= 4 {
        lemma_word(payload, 0);
    }
}

// --- Writing ---------------------------------------------------------------------------

/// Whether a message is a request of a type with flags: its length, its type, its
/// flags, the sequence number one and no port, before its payload.
pub open spec fn is_request(message: Seq<u8>, typ: int, flags: int, payload: Seq<u8>) -> bool {
    &&& message.len() == 16 + payload.len()
    &&& bytes::ne32(message, 0) == 16 + payload.len()
    &&& bytes::ne16(message, 4) == typ
    &&& bytes::ne16(message, 6) == flags
    &&& bytes::ne32(message, 8) == 1
    &&& bytes::ne32(message, 12) == 0
    &&& message.skip(16) == payload
}

proof fn lemma_request(typ: u16, flags: u16, payload: Seq<u8>)
    requires
        payload.len() < 0x1_0000,
    ensures
        is_request(netlink::request_octets(typ, flags, payload), typ as int, flags as int, payload),
{
    let header = NlMsgHdr {
        nlmsg_len: ((payload.len() + 16) % 0x1_0000_0000) as u32,
        nlmsg_type: typ,
        nlmsg_flags: flags,
        nlmsg_seq: 1,
        nlmsg_pid: 0,
    };
    netlink::lemma_header(header, payload);
    let message = netlink::request_octets(typ, flags, payload);
    assert(message.skip(16) =~= payload);
    lemma_word(message, 0);
    lemma_word(message, 8);
    lemma_word(message, 12);
}

/// Whether the payload of a message describes an address on an interface.
pub open spec fn describes_address(
    payload: Seq<u8>,
    index: i32,
    address: IpAddr,
    prefix_length: u8,
) -> bool {
    let attrs = attributes(payload.skip(8));
    &&& payload.len() >= 8
    &&& payload[0] == if address is V4 {
        2u8
    } else {
        10
    }
    &&& payload[1] == prefix_length
    &&& payload[2] == 0
    &&& payload[3] == 0
    &&& bytes::signed32(bytes::ne32(payload, 4)) == index
    &&& attrs.len() == 2
    &&& attrs[0].0 == 2 && is_address(attrs[0].1, address)
    &&& attrs[1].0 == 1 && is_address(attrs[1].1, address)
}

proof fn lemma_ip_octets(address: IpAddr)
    ensures
        is_address(ipconfig::ip_octets(address), address),
{
    match address {
        IpAddr::V4(a) => {
            bytes::lemma_be32(a.bits as nat);
        },
        IpAddr::V6(a) => {
            net::lemma_bounds();
            net::lemma_octets(a.bits as nat, 16);
        },
    }
}

pub(crate) proof fn lemma_attributes_size(attrs: Seq<Attribute>)
    requires
        forall|i: int| 0 <= i < attrs.len() ==> (#[trigger] attrs[i]).1.len() <= 16,
    ensures
        netlink::attrs_octets(attrs).len() <= 24 * attrs.len(),
    decreases attrs.len(),
{
    if attrs.len() > 0 {
        let most = attrs.drop_last();
        assert forall|i: int| 0 <= i < most.len() implies (#[trigger] most[i]).1.len() <= 16 by {
            assert(most[i] == attrs[i]);
        }
        lemma_attributes_size(most);
        assert(attrs[attrs.len() - 1].1.len() <= 16);
    }
}

proof fn lemma_address_payload(index: i32, address: IpAddr, prefix_length: u8)
    ensures
        describes_address(
            ipconfig::address_payload(index, address, prefix_length),
            index,
            address,
            prefix_length,
        ),
        ipconfig::address_payload(index, address, prefix_length).len() < 100,
{
    lemma_ip_octets(address);
    let octets = ipconfig::ip_octets(address);
    let attrs = seq![(2u16, octets), (1u16, octets)];
    netlink::lemma_attrs_round_trip(attrs);
    lemma_attributes_size(attrs);
    let info = IfAddrMsg {
        ifa_family: if address is V4 {
            2
        } else {
            10
        },
        ifa_prefixlen: prefix_length,
        ifa_flags: 0,
        ifa_scope: 0,
        ifa_index: bytes::unsigned32(index as int) as u32,
    };
    netlink::lemma_ifaddr(info, netlink::attrs_octets(attrs));
    let payload = ipconfig::address_payload(index, address, prefix_length);
    assert(payload == info.octets() + netlink::attrs_octets(attrs));
    lemma_word(payload, 4);
}

/// An address is added by message 20, which must not replace one, and removed by
/// message 21. Both name the interface, the address and the prefix length, and must
/// be acknowledged.
pub proof fn lemma_address_requests(index: i32, address: IpAddr, prefix_length: u8)
    ensures
        ({
            let added = ipconfig::add_address_step(index, address, prefix_length);
            let removed = ipconfig::remove_address_step(index, address, prefix_length);
            &&& added.required
            &&& removed.required
            &&& exists|payload: Seq<u8>| #[trigger]
                is_request(added.message, 20, 0x605, payload) && describes_address(
                    payload,
                    index,
                    address,
                    prefix_length,
                )
            &&& exists|payload: Seq<u8>| #[trigger]
                is_request(removed.message, 21, 0x5, payload) && describes_address(
                    payload,
                    index,
                    address,
                    prefix_length,
                )
        }),
{
    lemma_address_payload(index, address, prefix_length);
    let payload = ipconfig::address_payload(index, address, prefix_length);
    lemma_request(20, 0x605, payload);
    lemma_request(21, 0x5, payload);
    assert(is_request(
        ipconfig::add_address_step(index, address, prefix_length).message,
        20,
        0x605,
        payload,
    ));
    assert(is_request(
        ipconfig::remove_address_step(index, address, prefix_length).message,
        21,
        0x5,
        payload,
    ));
}

/// Whether the payload of a message describes a route: in the main table, set by hand,
/// with its scope and kind by number. Everything is reached without a destination.
pub open spec fn describes_route(payload: Seq<u8>, route: Route) -> bool {
    let attrs = attributes(payload.skip(12));
    let all = route.prefix_length == 0 && match route.destination {
        IpAddr::V4(to) => to.bits == 0,
        IpAddr::V6(to) => to.bits == 0,
    };
    let d: int = if all {
        0
    } else {
        1
    };
    let g: int = if route.gateway is Some {
        1
    } else {
        0
    };
    let m: int = if route.metric is Some {
        1
    } else {
        0
    };
    &&& payload.len() >= 12
    &&& payload[0] == if route.family == IpFamily::V4 {
        2u8
    } else {
        10
    }
    &&& payload[1] == route.prefix_length
    &&& payload[2] == 0
    &&& payload[3] == 0
    &&& payload[4] == 254
    &&& payload[5] == 4
    &&& match route.scope {
        RouteScope::Universe => payload[6] == 0,
        RouteScope::Site => payload[6] == 200,
        RouteScope::Link => payload[6] == 253,
        RouteScope::Host => payload[6] == 254,
        RouteScope::Nowhere => payload[6] == 255,
        RouteScope::Other(number) => payload[6] == number,
    }
    &&& route.kind == RouteKind::Unicast ==> payload[7] == 1
    &&& route.kind == RouteKind::Blackhole ==> payload[7] == 6
    &&& route.kind == RouteKind::Unreachable ==> payload[7] == 7
    &&& bytes::ne32(payload, 8) == 0
    &&& attrs.len() == d + g + 1 + m
    &&& !all ==> attrs[0].0 == 1 && is_address(attrs[0].1, route.destination)
    &&& route.gateway is Some ==> attrs[d].0 == 5 && is_address(attrs[d].1, route.gateway->0)
    &&& attrs[d + g].0 == 4
    &&& attrs[d + g].1.len() == 4
    &&& bytes::signed32(bytes::ne32(attrs[d + g].1, 0)) == match route.output_interface {
        Some(index) => index as int,
        None => 0,
    }
    &&& route.metric is Some ==> attrs[d + g + 1].0 == 6 && attrs[d + g + 1].1.len() == 4
        && bytes::ne32(attrs[d + g + 1].1, 0) == route.metric->0
}

proof fn lemma_route_attributes(route: Route)
    ensures
        ({
            let attrs = ipconfig::route_attrs(route);
            let all = route.prefix_length == 0 && match route.destination {
                IpAddr::V4(to) => to.bits == 0,
                IpAddr::V6(to) => to.bits == 0,
            };
            let d: int = if all {
                0
            } else {
                1
            };
            let g: int = if route.gateway is Some {
                1
            } else {
                0
            };
            let m: int = if route.metric is Some {
                1
            } else {
                0
            };
            &&& attrs.len() == d + g + 1 + m
            &&& !all ==> attrs[0].0 == 1 && is_address(attrs[0].1, route.destination)
            &&& route.gateway is Some ==> attrs[d].0 == 5 && is_address(
                attrs[d].1,
                route.gateway->0,
            )
            &&& attrs[d + g].0 == 4
            &&& attrs[d + g].1.len() == 4
            &&& bytes::signed32(bytes::ne32(attrs[d + g].1, 0)) == match route.output_interface {
                Some(index) => index as int,
                None => 0,
            }
            &&& route.metric is Some ==> attrs[d + g + 1].0 == 6 && attrs[d + g + 1].1.len() == 4
                && bytes::ne32(attrs[d + g + 1].1, 0) == route.metric->0
            &&& forall|i: int| 0 <= i < attrs.len() ==> (#[trigger] attrs[i]).1.len() <= 16
            &&& attrs.len() <= 4
        }),
{
    let index = match route.output_interface {
        Some(index) => index as int,
        None => 0,
    };
    lemma_ip_octets(route.destination);
    if route.gateway is Some {
        lemma_ip_octets(route.gateway->0);
    }
    bytes::lemma_ne32(bytes::unsigned32(index));
    if route.metric is Some {
        bytes::lemma_ne32(route.metric->0 as nat);
    }
}

proof fn lemma_route_payload(route: Route)
    ensures
        describes_route(ipconfig::route_payload(route), route),
        ipconfig::route_payload(route).len() < 200,
{
    lemma_route_attributes(route);
    let attrs = ipconfig::route_attrs(route);
    netlink::lemma_attrs_round_trip(attrs);
    lemma_attributes_size(attrs);
    let info = RtMsg {
        rtm_family: if route.family == IpFamily::V4 {
            2
        } else {
            10
        },
        rtm_dst_len: route.prefix_length,
        rtm_src_len: 0,
        rtm_tos: 0,
        rtm_table: 254,
        rtm_protocol: 4,
        rtm_scope: route.scope.number(),
        rtm_type: route.kind.number(),
        rtm_flags: 0,
    };
    netlink::lemma_rtmsg(info, netlink::attrs_octets(attrs));
    let payload = ipconfig::route_payload(route);
    assert(payload == info.octets() + netlink::attrs_octets(attrs));
    lemma_word(payload, 8);
}

/// A route is added by message 24, which replaces one that is there, and removed by
/// message 25. Both describe the route, and must be acknowledged.
pub proof fn lemma_route_requests(route: Route, required: bool)
    ensures
        ({
            let added = ipconfig::add_route_step(route);
            let removed = ipconfig::remove_route_step(route, required);
            &&& added.required
            &&& removed.required == required
            &&& exists|payload: Seq<u8>| #[trigger]
                is_request(added.message, 24, 0x505, payload) && describes_route(payload, route)
            &&& exists|payload: Seq<u8>| #[trigger]
                is_request(removed.message, 25, 0x5, payload) && describes_route(payload, route)
        }),
{
    lemma_route_payload(route);
    let payload = ipconfig::route_payload(route);
    lemma_request(24, 0x505, payload);
    lemma_request(25, 0x5, payload);
    assert(is_request(ipconfig::add_route_step(route).message, 24, 0x505, payload));
    assert(is_request(ipconfig::remove_route_step(route, required).message, 25, 0x5, payload));
}

/// The default route of a configuration leads everywhere over its gateway.
pub proof fn lemma_default_routes(interface_index: i32, four: Ipv4Addr, six: Ipv6Addr)
    ensures
        crate::laws::ip::is_default(
            ipconfig::default_v4(interface_index, four),
            IpAddr::V4(four),
            interface_index,
        ),
        crate::laws::ip::is_default(
            ipconfig::default_v6(interface_index, six),
            IpAddr::V6(six),
            interface_index,
        ),
{
}

// --- Order and plans -------------------------------------------------------------------

/// Links are listed by index; addresses by interface, IPv4 before IPv6, and then by
/// number; nothing is lost and nothing is added.
pub proof fn lemma_listings_are_ordered(
    links: Seq<Link>,
    addresses: Seq<Address>,
    i: int,
    j: int,
)
    ensures
        ({
            let listed = sort::stable_sort(links);
            &&& listed.to_multiset() == links.to_multiset()
            &&& 0 <= i < j < listed.len() ==> listed[i].index <= listed[j].index
        }),
        ({
            let listed = sort::stable_sort(addresses);
            &&& listed.to_multiset() == addresses.to_multiset()
            &&& 0 <= i < j < listed.len() ==> {
                &&& listed[i].interface_index <= listed[j].interface_index
                &&& listed[i].interface_index == listed[j].interface_index ==> match (
                    listed[i].address,
                    listed[j].address,
                ) {
                    (IpAddr::V4(a), IpAddr::V4(b)) => a.bits <= b.bits,
                    (IpAddr::V6(a), IpAddr::V6(b)) => a.bits <= b.bits,
                    (IpAddr::V4(_), IpAddr::V6(_)) => true,
                    (IpAddr::V6(_), IpAddr::V4(_)) => false,
                }
            }
        }),
{
    sort::lemma_stable_sort(links);
    sort::lemma_stable_sort(addresses);
    let a = sort::stable_sort(links);
    let b = sort::stable_sort(addresses);
    if 0 <= i < j < a.len() {
        assert(!a[j].precedes(a[i]));
    }
    if 0 <= i < j < b.len() {
        assert(!b[j].precedes(b[i]));
    }
}

/// Routes are listed by family, then by destination, prefix length, metric and
/// interface; nothing is lost and nothing is added.
pub proof fn lemma_routes_are_ordered(routes: Seq<Route>, i: int, j: int)
    requires
        0 <= i < j < routes.len(),
    ensures
        ({
            let listed = sort::stable_sort(routes);
            let a = listed[i];
            let b = listed[j];
            &&& listed.to_multiset() == routes.to_multiset()
            &&& a.family == IpFamily::V6 ==> b.family == IpFamily::V6
            &&& a.family == b.family ==> match (a.destination, b.destination) {
                (IpAddr::V4(x), IpAddr::V4(y)) => x.bits <= y.bits,
                (IpAddr::V6(x), IpAddr::V6(y)) => x.bits <= y.bits,
                (IpAddr::V4(_), IpAddr::V6(_)) => true,
                (IpAddr::V6(_), IpAddr::V4(_)) => false,
            }
            &&& a.family == b.family && a.destination == b.destination ==> a.prefix_length
                <= b.prefix_length
            &&& a.family == b.family && a.destination == b.destination && a.prefix_length
                == b.prefix_length ==> match (a.metric, b.metric) {
                (Some(x), Some(y)) => x <= y,
                (Some(_), None) => false,
                (None, _) => true,
            }
            &&& a.family == b.family && a.destination == b.destination && a.prefix_length
                == b.prefix_length && a.metric == b.metric ==> match (
                a.output_interface,
                b.output_interface,
            ) {
                (Some(x), Some(y)) => x <= y,
                (Some(_), None) => false,
                (None, _) => true,
            }
        }),
{
    sort::lemma_stable_sort(routes);
    let listed = sort::stable_sort(routes);
    assert(!listed[j].precedes(listed[i]));
}

/// A plan that was answered in full succeeds exactly when no required step failed, and
/// fails with the error of the first required step that did.
pub proof fn lemma_plan_succeeds_when_no_step_fails(
    steps: Seq<StepView>,
    replies: Seq<Result<(), NetlinkError>>,
    k: int,
)
    requires
        replies.len() >= steps.len(),
        0 <= k <= steps.len(),
        forall|i: int| 0 <= i < k && (#[trigger] steps[i]).required ==> replies[i] is Ok,
        k < steps.len() ==> steps[k].required && replies[k] is Err,
    ensures
        k == steps.len() ==> ipconfig::plan_result(steps, replies) == Some(
            Ok::<(), IpConfigError>(()),
        ),
        k < steps.len() ==> ipconfig::plan_result(steps, replies) == Some(
            Err::<(), IpConfigError>(IpConfigError::Netlink(replies[k]->Err_0)),
        ),
    decreases steps.len(),
{
    if k > 0 {
        let more = steps.skip(1);
        let rest = replies.skip(1);
        assert(steps[0].required ==> replies[0] is Ok);
        assert forall|i: int| 0 <= i < k - 1 && (#[trigger] more[i]).required implies rest[
            i
        ] is Ok by {
            assert(more[i] == steps[i + 1]);
        }
        lemma_plan_succeeds_when_no_step_fails(more, rest, k - 1);
    }
}

proof fn lemma_events_step(buf: Seq<u8>, header: NlMsgHdr, payload: Seq<u8>, rest: Seq<u8>)
    requires
        netlink::frame_at(buf) == (netlink::Frame::Message { header, payload }),
        netlink::aligned(header.nlmsg_len as nat) <= buf.len(),
        netlink::after(buf, header.nlmsg_len as nat) == rest,
    ensures
        header.nlmsg_type == 3 ==> (netlink::events_of(buf) matches Ok(none) && none.len() == 0),
        header.nlmsg_type == 2 ==> netlink::events_of(buf) == Err::<
            Seq<NetworkEventView>,
            NetlinkError,
        >(netlink::kernel_error(payload)),
        header.nlmsg_type != 2 && header.nlmsg_type != 3 ==> netlink::events_of(buf) == followed(
            netlink::event_of(header, payload),
            netlink::events_of(rest),
        ),
{
}

/// An event and then others, or the error of the first that could not be read.
pub open spec fn followed(
    first: Result<Option<NetworkEventView>, NetlinkError>,
    more: Result<Seq<NetworkEventView>, NetlinkError>,
) -> Result<Seq<NetworkEventView>, NetlinkError> {
    match (first, more) {
        (Err(e), _) => Err(e),
        (Ok(_), Err(e)) => Err(e),
        (Ok(Some(event)), Ok(events)) => Ok(seq![event] + events),
        (Ok(None), Ok(events)) => Ok(events),
    }
}

proof fn lemma_frame(buf: Seq<u8>, typ: int, payload: Seq<u8>, next: int)
    requires
        begins(buf, typ, payload),
        next % 4 == 0,
        16 + payload.len() <= next < 20 + payload.len(),
        next <= buf.len(),
    ensures
        ({
            let header = NlMsgHdr::at(buf);
            &&& netlink::frame_at(buf) == (netlink::Frame::Message { header, payload })
            &&& header.nlmsg_type == typ
            &&& netlink::aligned(header.nlmsg_len as nat) <= buf.len()
            &&& netlink::after(buf, header.nlmsg_len as nat) == buf.skip(next)
        }),
{
    lemma_begins(buf, typ, payload, next);
    assert(netlink::aligned((16 + payload.len()) as nat) == next);
    if next == buf.len() {
        assert(buf.skip(next) =~= Seq::empty());
    }
}

/// Events are reported in the order of their messages, one for each that tells of
/// something.
#[verifier::spinoff_prover]
pub proof fn lemma_events_are_reported_in_order(
    buf: Seq<u8>,
    typ: int,
    payload: Seq<u8>,
    next: int,
)
    requires
        begins(buf, typ, payload),
        next % 4 == 0,
        16 + payload.len() <= next < 20 + payload.len(),
        next <= buf.len(),
        typ != 2,
        typ != 3,
    ensures
        netlink::events_of(buf) == followed(
            netlink::event_of(NlMsgHdr::at(buf), payload),
            netlink::events_of(buf.skip(next)),
        ),
{
    lemma_frame(buf, typ, payload, next);
    lemma_events_step(buf, NlMsgHdr::at(buf), payload, buf.skip(next));
}

/// The message that ends a reply ends its events, and an error of the kernel is
/// reported as that error.
#[verifier::spinoff_prover]
pub proof fn lemma_events_end(buf: Seq<u8>, typ: int, payload: Seq<u8>, next: int)
    requires
        begins(buf, typ, payload),
        next % 4 == 0,
        16 + payload.len() <= next < 20 + payload.len(),
        next <= buf.len(),
    ensures
        typ == 3 ==> (netlink::events_of(buf) matches Ok(none) && none.len() == 0),
        typ == 2 && payload.len() >= 4 ==> netlink::events_of(buf) == Err::<
            Seq<NetworkEventView>,
            NetlinkError,
        >(NetlinkError::Kernel(bytes::signed32(bytes::ne32(payload, 0)) as i32)),
{
    lemma_frame(buf, typ, payload, next);
    lemma_events_step(buf, NlMsgHdr::at(buf), payload, buf.skip(next));
    lemma_kernel_error(payload);
}

proof fn lemma_kernel_error(payload: Seq<u8>)
    ensures
        payload.len() >= 4 ==> netlink::kernel_error(payload) == NetlinkError::Kernel(
            bytes::signed32(bytes::ne32(payload, 0)) as i32,
        ),
{
}

} // verus!
