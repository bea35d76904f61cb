//! Acquiring a DHCPv4 lease.

use vstd::arithmetic::power2::{lemma2_to64, lemma_pow2_unfold, pow2};
use vstd::prelude::*;
use vstd::utf8::encode_utf8;

use crate::bytes;
use crate::connection::ip::DhcpLeaseView;
use crate::linux::dhcp;
use crate::linux::dhcp::packet;
use crate::linux::dhcp::packet::{DhcpMessageType, PacketView};
use crate::linux::model;
use crate::net::Ipv4Addr;
use crate::text;

verus! {

// --- Datagrams -------------------------------------------------------------------------

/// An option: its code and its value.
pub type Entry = (u8, Seq<u8>);

/// Options as they stand in a datagram: each with its code, its length and its value.
pub open spec fn wire(list: Seq<Entry>) -> Seq<u8>
    decreases list.len(),
{
    if list.len() == 0 {
        Seq::empty()
    } else {
        wire(list.drop_last()) + seq![list.last().0, list.last().1.len() as u8] + list.last().1
    }
}

/// Whether each option has a code of its own, which neither pads nor ends the list,
/// and a value that is short enough.
pub open spec fn writable(list: Seq<Entry>) -> bool {
    forall|i: int|
        0 <= i < list.len() ==> 0 < (#[trigger] list[i]).0 < 255 && list[i].1.len() < 256
}

/// The number in four octets, the most significant first.
pub open spec fn number_at(d: Seq<u8>, k: int) -> int {
    16777216 * d[k] + 65536 * d[k + 1] + 256 * d[k + 2] + d[k + 3]
}

/// The four octets of an address, the most significant first.
pub open spec fn quad(a: Ipv4Addr) -> Seq<u8> {
    seq![
        (a.bits / 16777216) as u8,
        (a.bits / 65536 % 256) as u8,
        (a.bits / 256 % 256) as u8,
        (a.bits % 256) as u8,
    ]
}

/// Whether a datagram is a message of a client (1) or a server (2) with the given
/// addresses and options. What follows the end of the options does not count.
pub open spec fn is_message(
    d: Seq<u8>,
    op: u8,
    xid: u32,
    client: Ipv4Addr,
    yours: Ipv4Addr,
    server: Ipv4Addr,
    mac: Seq<u8>,
    list: Seq<Entry>,
) -> bool {
    &&& d.len() >= 240 + wire(list).len() + 1
    &&& d[0] == op
    &&& number_at(d, 4) == xid
    &&& number_at(d, 12) == client.bits
    &&& number_at(d, 16) == yours.bits
    &&& number_at(d, 20) == server.bits
    &&& d.subrange(28, 34) == mac
    &&& d[236] == 99
    &&& d[237] == 130
    &&& d[238] == 83
    &&& d[239] == 99
    &&& d.subrange(240, 240 + wire(list).len() as int) == wire(list)
    &&& d[240 + wire(list).len() as int] == 255
}

/// Whether a value is the one that a list of options gives for a code: that of the
/// first option with the code, or nothing when there is no such option.
pub open spec fn says(list: Seq<Entry>, code: u8, value: Option<Seq<u8>>) -> bool {
    match value {
        Some(octets) => exists|k: int|
            0 <= k < list.len() && #[trigger] list[k] == (code, octets) && forall|i: int|
                0 <= i < k ==> (#[trigger] list[i]).0 != code,
        None => forall|i: int| 0 <= i < list.len() ==> (#[trigger] list[i]).0 != code,
    }
}

proof fn lemma_says(list: Seq<Entry>, code: u8, value: Option<Seq<u8>>)
    requires
        says(list, code, value),
    ensures
        packet::option_in(list, code) == value,
    decreases list.len(),
{
    if list.len() > 0 && list[0].0 != code {
        let more = list.skip(1);
        assert(forall|i: int| 0 <= i < more.len() ==> #[trigger] more[i] == list[i + 1]);
        if let Some(octets) = value {
            let k = choose|k: int|
                0 <= k < list.len() && #[trigger] list[k] == (code, octets) && forall|i: int|
                    0 <= i < k ==> (#[trigger] list[i]).0 != code;
            assert(more[k - 1] == (code, octets));
            assert forall|i: int| 0 <= i < k - 1 implies (#[trigger] more[i]).0 != code by {
                assert(list[i + 1].0 != code);
            }
        } else {
            assert forall|i: int| 0 <= i < more.len() implies (#[trigger] more[i]).0 != code by {
                assert(list[i + 1].0 != code);
            }
        }
        lemma_says(more, code, value);
    } else if list.len() > 0 {
        if let Some(octets) = value {
            let k = choose|k: int|
                0 <= k < list.len() && #[trigger] list[k] == (code, octets) && forall|i: int|
                    0 <= i < k ==> (#[trigger] list[i]).0 != code;
            if k > 0 {
                assert(list[0].0 != code);
            }
        }
    }
}

proof fn lemma_wire(list: Seq<Entry>)
    requires
        writable(list),
    ensures
        wire(list) == packet::entries_octets(list),
    decreases list.len(),
{
    if list.len() > 0 {
        let most = list.drop_last();
        assert forall|i: int| 0 <= i < most.len() implies 0 < (#[trigger] most[i]).0 < 255
            && most[i].1.len() < 256 by {
            assert(most[i] == list[i]);
        }
        lemma_wire(most);
        assert(list[list.len() - 1].1.len() < 256);
        assert(wire(list) =~= packet::entries_octets(list));
    }
}

/// A datagram is read as what stands in it.
proof fn lemma_read(
    d: Seq<u8>,
    op: u8,
    xid: u32,
    client: Ipv4Addr,
    yours: Ipv4Addr,
    server: Ipv4Addr,
    mac: Seq<u8>,
    list: Seq<Entry>,
)
    requires
        is_message(d, op, xid, client, yours, server, mac, list),
        writable(list),
    ensures
        packet::packet_of(d) matches Ok(p) && p.op == op && p.xid == xid && p.options == list
            && p.chaddr.take(6) == mac && packet::address_field(p.yiaddr) == (if yours.bits == 0 {
            None
        } else {
            Some(yours)
        }) && packet::address_field(p.siaddr) == (if server.bits == 0 {
            None
        } else {
            Some(server)
        }),
{
    let n = wire(list).len() as int;
    let rest = d.skip(240);
    let padding = d.skip(240 + n + 1);
    lemma_wire(list);
    assert(rest =~= packet::entries_octets(list) + seq![255u8] + padding) by {
        assert(wire(list) =~= d.subrange(240, 240 + n));
        assert(rest =~= d.subrange(240, 240 + n) + seq![255u8] + padding);
    }
    assert(packet::writable_options(list));
    packet::lemma_options_padded(list, padding);
    assert(d.subrange(236, 240) =~= seq![0x63u8, 0x82u8, 0x53u8, 0x63u8]);
    assert(d.subrange(28, 44).take(6) =~= d.subrange(28, 34));
    let y = d.subrange(16, 20);
    assert(y[0] == d[16] && y[1] == d[17] && y[2] == d[18] && y[3] == d[19]);
    let s = d.subrange(20, 24);
    assert(s[0] == d[20] && s[1] == d[21] && s[2] == d[22] && s[3] == d[23]);
}

// --- Leases ----------------------------------------------------------------------------

/// The address that a value of four octets is.
pub open spec fn is_address(value: Option<Seq<u8>>, address: Option<Ipv4Addr>) -> bool {
    match value {
        Some(octets) => if octets.len() == 4 {
            address matches Some(a) && a.bits == number_at(octets, 0)
        } else {
            address is None
        },
        None => address is None,
    }
}

/// The number that a value of four octets is.
pub open spec fn is_number(value: Option<Seq<u8>>, seconds: Option<u32>) -> bool {
    match value {
        Some(octets) => if octets.len() == 4 {
            seconds matches Some(n) && n == number_at(octets, 0)
        } else {
            seconds is None
        },
        None => seconds is None,
    }
}

/// Whether addresses are those of a value, four octets each and in order.
pub open spec fn are_addresses(value: Option<Seq<u8>>, addresses: Seq<Ipv4Addr>) -> bool {
    match value {
        Some(octets) => {
            &&& addresses.len() == octets.len() / 4
            &&& forall|i: int|
                0 <= i < addresses.len() ==> (#[trigger] addresses[i]).bits == number_at(
                    octets,
                    4 * i,
                )
        },
        None => addresses.len() == 0,
    }
}

/// Whether `p` is the number of leading set bits of a mask.
pub open spec fn is_prefix_of(mask: int, p: int) -> bool {
    &&& 0 <= p <= 32
    &&& mask >= 0x1_0000_0000 - pow2((32 - p) as nat)
    &&& p < 32 ==> mask < 0x1_0000_0000 - pow2((31 - p) as nat)
}

proof fn lemma_leading_ones(n: nat, width: nat)
    requires
        n < 0x1_0000_0000,
        width <= 32,
    ensures
        ({
            let p = packet::leading_ones(n, width);
            &&& p <= width
            &&& n >= 0x1_0000_0000 - pow2((32 - p) as nat)
            &&& p < width ==> n < 0x1_0000_0000 - pow2((31 - p) as nat)
        }),
    decreases width,
{
    lemma2_to64();
    let p = packet::leading_ones(n, width);
    if width > 0 && n >= 0x8000_0000 {
        let m = (2 * (n - 0x8000_0000)) as nat;
        lemma_leading_ones(m, (width - 1) as nat);
        lemma_pow2_unfold((33 - p) as nat);
        if p < width {
            lemma_pow2_unfold((32 - p) as nat);
        }
    }
}

proof fn lemma_until_zero(octets: Seq<u8>, z: int)
    requires
        0 <= z <= octets.len(),
        forall|i: int| 0 <= i < z ==> #[trigger] octets[i] != 0,
        z < octets.len() ==> octets[z] == 0,
    ensures
        bytes::until_zero(octets) == octets.take(z),
    decreases octets.len(),
{
    if z > 0 {
        let more = octets.skip(1);
        assert(octets[0] != 0);
        assert forall|i: int| 0 <= i < z - 1 implies #[trigger] more[i] != 0 by {
            assert(more[i] == octets[i + 1]);
        }
        lemma_until_zero(more, z - 1);
        assert(seq![octets[0]] + more.take(z - 1) =~= octets.take(z));
    } else {
        assert(octets.take(0) =~= Seq::empty());
    }
}

/// What the options of a server's reply say of a lease, where they say it.
#[verifier::ext_equal]
pub struct Said {
    pub mask: Option<Seq<u8>>,
    pub routers: Option<Seq<u8>>,
    pub servers: Option<Seq<u8>>,
    pub domain: Option<Seq<u8>>,
    pub identifier: Option<Seq<u8>>,
    pub lease_time: Option<Seq<u8>>,
    pub renewal_time: Option<Seq<u8>>,
    pub rebinding_time: Option<Seq<u8>>,
}

/// Whether options say this of a lease, by their codes.
pub open spec fn all_said(list: Seq<Entry>, said: Said) -> bool {
    &&& says(list, 1, said.mask)
    &&& says(list, 3, said.routers)
    &&& says(list, 6, said.servers)
    &&& says(list, 15, said.domain)
    &&& says(list, 54, said.identifier)
    &&& says(list, 51, said.lease_time)
    &&& says(list, 58, said.renewal_time)
    &&& says(list, 59, said.rebinding_time)
}

/// Whether the text of an option ends at a position: at its first zero octet, or at its
/// end.
pub open spec fn ends_at(value: Option<Seq<u8>>, z: int) -> bool {
    value matches Some(octets) ==> 0 <= z <= octets.len() && (forall|i: int|
        0 <= i < z ==> #[trigger] octets[i] != 0) && (z < octets.len() ==> octets[z] == 0)
}

/// Whether a lease of an address holds what was said of it: the mask, or else that of
/// the address's class, and its prefix length; the first router; the servers, in order;
/// the domain, without white space around it; the server that granted it; and the
/// times.
pub open spec fn holds(lease: DhcpLeaseView, yours: Ipv4Addr, said: Said, z: int) -> bool {
    &&& lease.address == yours
    &&& if said.mask is Some && said.mask->0.len() == 4 {
        lease.netmask.bits == number_at(said.mask->0, 0)
    } else if yours.bits / 0x100_0000 < 128 {
        lease.netmask.bits == 0xff00_0000
    } else if yours.bits / 0x100_0000 < 192 {
        lease.netmask.bits == 0xffff_0000
    } else {
        lease.netmask.bits == 0xffff_ff00
    }
    &&& is_prefix_of(lease.netmask.bits as int, lease.prefix_length as int)
    &&& match said.routers {
        Some(octets) => if octets.len() >= 4 {
            lease.gateway matches Some(a) && a.bits == number_at(octets, 0)
        } else {
            lease.gateway is None
        },
        None => lease.gateway is None,
    }
    &&& are_addresses(said.servers, lease.dns_servers)
    &&& match said.domain {
        Some(octets) => lease.search_domains.len() == 1 && lease.search_domains[0] == text::trimmed(
            text::lossy_text(octets.take(z)),
        ),
        None => lease.search_domains.len() == 0,
    }
    &&& is_address(said.identifier, lease.server_identifier)
    &&& is_number(said.lease_time, lease.lease_seconds)
    &&& is_number(said.renewal_time, lease.t1_seconds)
    &&& is_number(said.rebinding_time, lease.t2_seconds)
}

/// An acknowledgement grants a lease that holds what it says. A reply with the
/// client's transaction and hardware address, an address for the client and the
/// message type 5 is taken, and each field of the lease is that of the server's
/// options: 1 for the mask, 3 for the routers, 6 for the servers, 15 for the domain, 54
/// for the server, and 51, 58 and 59 for the times.
pub proof fn lemma_lease_holds_what_options_say(
    d: Seq<u8>,
    xid: u32,
    client: Ipv4Addr,
    yours: Ipv4Addr,
    server: Ipv4Addr,
    mac: Seq<u8>,
    list: Seq<Entry>,
    interface_index: i32,
    interface_name: Seq<char>,
    kind: Seq<u8>,
    said: Said,
    z: int,
)
    requires
        is_message(d, 2, xid, client, yours, server, mac, list),
        writable(list),
        yours.bits != 0,
        kind.len() > 0,
        kind[0] == 5,
        says(list, 53, Some(kind)),
        all_said(list, said),
        ends_at(said.domain, z),
    ensures
        dhcp::matching(d, xid) matches Some(reply) && {
            let result = dhcp::granted(reply, interface_index, interface_name, mac);
            &&& result == packet::lease_of(reply, interface_index, interface_name, mac)
            &&& result matches Ok(lease)
            &&& lease.interface_index == interface_index
            &&& lease.interface_name == interface_name
            &&& holds(lease, yours, said, z)
        },
{
    lemma_read(d, 2, xid, client, yours, server, mac, list);
    lemma_says(list, 53, Some(kind));
    lemma_says(list, 1, said.mask);
    lemma_says(list, 3, said.routers);
    lemma_says(list, 6, said.servers);
    lemma_says(list, 15, said.domain);
    lemma_says(list, 54, said.identifier);
    lemma_says(list, 51, said.lease_time);
    lemma_says(list, 58, said.renewal_time);
    lemma_says(list, 59, said.rebinding_time);
    if let Some(octets) = said.domain {
        lemma_until_zero(octets, z);
    }
    let reply = packet::packet_of(d)->Ok_0;
    lemma_leading_ones(packet::netmask_in(reply, yours).bits as nat, 32);
}

/// A reply that is no acknowledgement, is meant for another client or carries no
/// address grants nothing, and one of another transaction is not even looked at.
pub proof fn lemma_other_replies_grant_nothing(
    d: Seq<u8>,
    op: u8,
    xid: u32,
    client: Ipv4Addr,
    yours: Ipv4Addr,
    server: Ipv4Addr,
    mac: Seq<u8>,
    list: Seq<Entry>,
    interface_index: i32,
    interface_name: Seq<char>,
    kind: Option<Seq<u8>>,
    own_xid: u32,
    own: Seq<u8>,
)
    requires
        is_message(d, op, xid, client, yours, server, mac, list),
        writable(list),
        says(list, 53, kind),
    ensures
        dhcp::matching(d, own_xid) is Some <==> xid == own_xid,
        dhcp::matching(d, own_xid) matches Some(reply) ==> {
            let result = dhcp::granted(reply, interface_index, interface_name, own);
            result is Ok <==> (kind matches Some(octets) && octets.len() > 0 && octets[0] == 5)
                && yours.bits != 0 && mac == own
        },
{
    lemma_read(d, op, xid, client, yours, server, mac, list);
    lemma_says(list, 53, kind);
}

/// A domain of whole words is taken as it stands: text without white space at its
/// ends is not shortened.
pub proof fn lemma_trimmed_text_is_kept(s: Seq<char>)
    requires
        s.len() > 0 ==> !text::is_white(s[0]) && !text::is_white(s.last()),
    ensures
        text::trimmed(s) == s,
{
}

// --- Requests --------------------------------------------------------------------------

/// Whether a datagram is a request that a client broadcasts, with the given options:
/// over Ethernet, with the client's hardware address, and zeros elsewhere.
pub open spec fn is_request(
    d: Seq<u8>,
    xid: u32,
    broadcast: bool,
    client: Ipv4Addr,
    mac: Seq<u8>,
    list: Seq<Entry>,
) -> bool {
    &&& is_message(d, 1, xid, client, Ipv4Addr { bits: 0 }, Ipv4Addr { bits: 0 }, mac, list)
    &&& d[1] == 1
    &&& d[2] == 6
    &&& d[3] == 0
    &&& d[8] == 0
    &&& d[9] == 0
    &&& d[10] == if broadcast {
        0x80u8
    } else {
        0
    }
    &&& d[11] == 0
    &&& forall|i: int| 24 <= i < 28 || 34 <= i < 236 ==> #[trigger] d[i] == 0
    &&& d.len() == 240 + wire(list).len() + 1
}

proof fn lemma_be32_quad(n: u32)
    ensures
        ({
            let o = bytes::be32_octets(n as nat);
            &&& o.len() == 4
            &&& number_at(o, 0) == n
            &&& o[0] == n / 16777216
            &&& o[1] == n / 65536 % 256
            &&& o[2] == n / 256 % 256
            &&& o[3] == n % 256
        }),
{
    let m = n as int;
    let high = m / 65536;
    let low = m % 65536;
    assert(high / 256 == m / 16777216);
    assert(high % 256 == m / 65536 % 256);
    assert(low / 256 == m / 256 % 256);
    assert(low % 256 == m % 256);
    assert(0 <= high / 256 < 256);
    assert(0 <= low / 256 < 256);
    assert(256 * (high / 256) + high % 256 == high);
    assert(256 * (low / 256) + low % 256 == low);
}

proof fn lemma_quad(a: Ipv4Addr)
    ensures
        a.octets_view() == quad(a),
{
    lemma_be32_quad(a.bits);
    assert(a.octets_view() =~= quad(a));
}

/// A packet is written as what stands in it.
proof fn lemma_written(
    op: u8,
    xid: u32,
    flags: u16,
    ciaddr: Ipv4Addr,
    yiaddr: Ipv4Addr,
    mac: Seq<u8>,
    list: Seq<Entry>,
)
    requires
        mac.len() == 6,
        writable(list),
    ensures
        ({
            let d = packet::packet_octets(
                packet::plain_packet(op, xid, flags, ciaddr, yiaddr, mac, list),
            );
            &&& is_message(d, op, xid, ciaddr, yiaddr, Ipv4Addr { bits: 0 }, mac, list)
            &&& d[1] == 1
            &&& d[2] == 6
            &&& d[3] == 0
            &&& d[8] == 0
            &&& d[9] == 0
            &&& d[10] == flags / 256
            &&& d[11] == flags % 256
            &&& forall|i: int| 24 <= i < 28 || 34 <= i < 236 ==> #[trigger] d[i] == 0
            &&& d.len() == 240 + wire(list).len() + 1
        }),
{
    let p = packet::plain_packet(op, xid, flags, ciaddr, yiaddr, mac, list);
    let d = packet::packet_octets(p);
    let h = packet::header_octets(p);
    lemma_wire(list);
    lemma_be32_quad(xid);
    lemma_be32_quad(ciaddr.bits);
    lemma_be32_quad(yiaddr.bits);
    let x = bytes::be32_octets(xid as nat);
    let c = ciaddr.octets_view();
    let y = yiaddr.octets_view();
    assert(h.len() == 240);
    assert forall|i: int| 0 <= i < 240 implies d[i] == #[trigger] h[i] by {}
    assert(d[4] == x[0] && d[5] == x[1] && d[6] == x[2] && d[7] == x[3]);
    assert(d[12] == c[0] && d[13] == c[1] && d[14] == c[2] && d[15] == c[3]);
    assert(d[16] == y[0] && d[17] == y[1] && d[18] == y[2] && d[19] == y[3]);
    assert(d.subrange(28, 34) =~= mac);
    assert(d.subrange(240, 240 + wire(list).len() as int) =~= wire(list));
    assert forall|i: int| 24 <= i < 28 || 34 <= i < 236 implies #[trigger] d[i] == 0 by {
        assert(d[i] == h[i]);
    }
}

/// The options that a client's message holds, beside its type.
pub open spec fn named(hostname: Option<Seq<char>>) -> Seq<Entry> {
    match hostname {
        Some(name) => seq![(12u8, encode_utf8(name))],
        None => Seq::empty(),
    }
}

/// An option that holds an address, if there is one.
pub open spec fn addressed(code: u8, address: Option<Ipv4Addr>) -> Seq<Entry> {
    match address {
        Some(a) => seq![(code, quad(a))],
        None => Seq::empty(),
    }
}

proof fn lemma_addressed(code: u8, address: Option<Ipv4Addr>)
    ensures
        packet::address_entry(code, address) == addressed(code, address),
{
    if let Some(a) = address {
        lemma_quad(a);
    }
}

/// A search for servers is a broadcast message of type 1 that holds the host's name
/// and the address that the client would like, if there are any.
pub proof fn lemma_discover_on_the_wire(
    xid: u32,
    mac: Seq<u8>,
    hostname: Option<Seq<char>>,
    requested: Option<Ipv4Addr>,
)
    requires
        mac.len() == 6,
        hostname matches Some(name) ==> encode_utf8(name).len() < 256,
    ensures
        is_request(
            packet::packet_octets(packet::discover_packet(xid, mac, hostname, requested)),
            xid,
            true,
            Ipv4Addr { bits: 0 },
            mac,
            seq![(53u8, seq![1u8])] + named(hostname) + addressed(50, requested),
        ),
{
    lemma_addressed(50, requested);
    let list = seq![(53u8, seq![1u8])] + named(hostname) + addressed(50, requested);
    assert(writable(list));
    lemma_written(1, xid, 0x8000, Ipv4Addr { bits: 0 }, Ipv4Addr { bits: 0 }, mac, list);
}

/// A request is a broadcast message of type 3 that holds the address that the client
/// asks for, the server that it asks, and the host's name.
pub proof fn lemma_request_on_the_wire(
    xid: u32,
    mac: Seq<u8>,
    requested: Option<Ipv4Addr>,
    server: Option<Ipv4Addr>,
    hostname: Option<Seq<char>>,
)
    requires
        mac.len() == 6,
        hostname matches Some(name) ==> encode_utf8(name).len() < 256,
    ensures
        is_request(
            packet::packet_octets(packet::request_packet(xid, mac, requested, server, hostname)),
            xid,
            true,
            Ipv4Addr { bits: 0 },
            mac,
            seq![(53u8, seq![3u8])] + addressed(50, requested) + addressed(54, server) + named(
                hostname,
            ),
        ),
{
    lemma_addressed(50, requested);
    lemma_addressed(54, server);
    let list = seq![(53u8, seq![3u8])] + addressed(50, requested) + addressed(54, server) + named(
        hostname,
    );
    assert(writable(list));
    lemma_written(1, xid, 0x8000, Ipv4Addr { bits: 0 }, Ipv4Addr { bits: 0 }, mac, list);
}

/// A release is a message of type 7 to the server that granted the address, from the
/// client that holds it.
pub proof fn lemma_release_on_the_wire(
    xid: u32,
    mac: Seq<u8>,
    address: Ipv4Addr,
    server: Ipv4Addr,
)
    requires
        mac.len() == 6,
    ensures
        is_request(
            packet::packet_octets(packet::release_packet(xid, mac, address, server)),
            xid,
            false,
            address,
            mac,
            seq![(53u8, seq![7u8]), (54u8, quad(server))],
        ),
{
    lemma_quad(server);
    let list = seq![(53u8, seq![7u8]), (54u8, quad(server))];
    assert(writable(list));
    lemma_written(1, xid, 0, address, Ipv4Addr { bits: 0 }, mac, list);
}

/// A server's reply is a message with its type, the address that it gives, and the
/// server's options.
pub proof fn lemma_reply_on_the_wire(
    kind: DhcpMessageType,
    xid: u32,
    mac: Seq<u8>,
    yours: Ipv4Addr,
    extra: Seq<Entry>,
)
    requires
        mac.len() == 6,
        writable(extra),
    ensures
        is_message(
            packet::packet_octets(
                packet::plain_packet(
                    packet::OP_BOOTREPLY,
                    xid,
                    0,
                    Ipv4Addr { bits: 0 },
                    yours,
                    mac,
                    seq![packet::kind_option(kind)] + extra,
                ),
            ),
            2,
            xid,
            Ipv4Addr { bits: 0 },
            yours,
            Ipv4Addr { bits: 0 },
            mac,
            seq![
                (
                    53u8,
                    seq![
                        match kind {
                            DhcpMessageType::Discover => 1u8,
                            DhcpMessageType::Offer => 2,
                            DhcpMessageType::Request => 3,
                            DhcpMessageType::Decline => 4,
                            DhcpMessageType::Ack => 5,
                            DhcpMessageType::Nak => 6,
                            DhcpMessageType::Release => 7,
                            DhcpMessageType::Inform => 8,
                            DhcpMessageType::Unknown(value) => value,
                        },
                    ],
                ),
            ] + extra,
        ),
{
    let list = seq![packet::kind_option(kind)] + extra;
    assert forall|i: int| 0 <= i < list.len() implies 0 < (#[trigger] list[i]).0 < 255
        && list[i].1.len() < 256 by {
        if i > 0 {
            assert(list[i] == extra[i - 1]);
        }
    }
    lemma_written(2, xid, 0, Ipv4Addr { bits: 0 }, yours, mac, list);
}

proof fn lemma_answer(
    offer: PacketView,
    xid: u32,
    own: Seq<u8>,
    hostname: Option<Seq<char>>,
    asked: Option<Ipv4Addr>,
)
    requires
        asked == match packet::address_in(offer.option(54)) {
            Some(server) => Some(server),
            None => packet::address_field(offer.siaddr),
        },
    ensures
        dhcp::answer(offer, xid, own, hostname) is Ok <==> offer.kind() == DhcpMessageType::Offer
            && packet::address_field(offer.yiaddr) is Some,
        dhcp::answer(offer, xid, own, hostname) matches Ok(request) ==> request
            == packet::packet_octets(
            packet::request_packet(
                xid,
                own,
                packet::address_field(offer.yiaddr),
                asked,
                hostname,
            ),
        ),
{
}

proof fn lemma_answer_options(
    yours: Ipv4Addr,
    asked: Option<Ipv4Addr>,
    hostname: Option<Seq<char>>,
)
    ensures
        seq![(53u8, seq![3u8])] + addressed(50, Some(yours)) + addressed(54, asked) + named(
            hostname,
        ) == seq![(53u8, seq![3u8]), (50u8, quad(yours))] + addressed(54, asked) + named(hostname),
{
    assert(seq![(53u8, seq![3u8])] + addressed(50, Some(yours)) =~= seq![
        (53u8, seq![3u8]),
        (50u8, quad(yours)),
    ]);
}

/// An offer is answered by asking the server that made it for the address that it
/// offered, in the client's own transaction. The server is that of option 54, or else
/// the one in the header.
pub proof fn lemma_offer_is_answered(
    d: Seq<u8>,
    xid: u32,
    client: Ipv4Addr,
    yours: Ipv4Addr,
    server: Ipv4Addr,
    mac: Seq<u8>,
    list: Seq<Entry>,
    kind: Option<Seq<u8>>,
    identifier: Option<Seq<u8>>,
    own: Seq<u8>,
    hostname: Option<Seq<char>>,
)
    requires
        is_message(d, 2, xid, client, yours, server, mac, list),
        writable(list),
        says(list, 53, kind),
        says(list, 54, identifier),
        own.len() == 6,
        hostname matches Some(name) ==> encode_utf8(name).len() < 256,
    ensures
        dhcp::matching(d, xid) matches Some(offer) && {
            let result = dhcp::answer(offer, xid, own, hostname);
            let asked = if identifier is Some && identifier->0.len() == 4 {
                Some(Ipv4Addr { bits: number_at(identifier->0, 0) as u32 })
            } else if server.bits != 0 {
                Some(server)
            } else {
                None
            };
            &&& result is Ok <==> (kind matches Some(octets) && octets.len() > 0 && octets[0] == 2)
                && yours.bits != 0
            &&& result matches Ok(request) ==> is_request(
                request,
                xid,
                true,
                Ipv4Addr { bits: 0 },
                own,
                seq![(53u8, seq![3u8]), (50u8, quad(yours))] + addressed(54, asked) + named(
                    hostname,
                ),
            )
        },
{
    lemma_read(d, 2, xid, client, yours, server, mac, list);
    lemma_says(list, 53, kind);
    lemma_says(list, 54, identifier);
    let offer = dhcp::matching(d, xid)->0;
    let asked = if identifier is Some && identifier->0.len() == 4 {
        Some(Ipv4Addr { bits: number_at(identifier->0, 0) as u32 })
    } else if server.bits != 0 {
        Some(server)
    } else {
        None
    };
    lemma_answer(offer, xid, own, hostname, asked);
    lemma_answer_options(yours, asked, hostname);
    lemma_request_on_the_wire(xid, own, Some(yours), asked, hostname);
}

proof fn lemma_says_behind(first: Entry, extra: Seq<Entry>, code: u8, value: Option<Seq<u8>>)
    requires
        says(extra, code, value),
        first.0 != code,
    ensures
        says(seq![first] + extra, code, value),
{
    let list = seq![first] + extra;
    assert(forall|i: int| 0 < i < list.len() ==> #[trigger] list[i] == extra[i - 1]);
    if let Some(octets) = value {
        let k = choose|k: int|
            0 <= k < extra.len() && #[trigger] extra[k] == (code, octets) && forall|i: int|
                0 <= i < k ==> (#[trigger] extra[i]).0 != code;
        assert(list[k + 1] == (code, octets));
    }
}

/// The acknowledgement that a server builds, with an address for a client and a list of
/// options, grants that client a lease of the address that holds what the options say.
pub proof fn lemma_built_acknowledgement_grants_what_it_says(
    xid: u32,
    mac: Seq<u8>,
    yours: Ipv4Addr,
    extra: Seq<Entry>,
    interface_index: i32,
    interface_name: Seq<char>,
    said: Said,
    z: int,
)
    requires
        mac.len() == 6,
        yours.bits != 0,
        writable(extra),
        all_said(extra, said),
        ends_at(said.domain, z),
    ensures
        ({
            let ack = packet::plain_packet(
                packet::OP_BOOTREPLY,
                xid,
                0,
                Ipv4Addr { bits: 0 },
                yours,
                mac,
                seq![packet::kind_option(DhcpMessageType::Ack)] + extra,
            );
            &&& dhcp::matching(packet::packet_octets(ack), xid) matches Some(reply)
            &&& dhcp::granted(reply, interface_index, interface_name, mac) matches Ok(lease)
            &&& lease.interface_index == interface_index
            &&& lease.interface_name == interface_name
            &&& holds(lease, yours, said, z)
        }),
{
    let first = (53u8, seq![5u8]);
    let list = seq![first] + extra;
    lemma_reply_on_the_wire(DhcpMessageType::Ack, xid, mac, yours, extra);
    assert forall|i: int| 0 <= i < list.len() implies 0 < (#[trigger] list[i]).0 < 255
        && list[i].1.len() < 256 by {
        if i > 0 {
            assert(list[i] == extra[i - 1]);
        }
    }
    assert(list[0] == (53u8, seq![5u8]));
    lemma_says_behind(first, extra, 1, said.mask);
    lemma_says_behind(first, extra, 3, said.routers);
    lemma_says_behind(first, extra, 6, said.servers);
    lemma_says_behind(first, extra, 15, said.domain);
    lemma_says_behind(first, extra, 54, said.identifier);
    lemma_says_behind(first, extra, 51, said.lease_time);
    lemma_says_behind(first, extra, 58, said.renewal_time);
    lemma_says_behind(first, extra, 59, said.rebinding_time);
    lemma_lease_holds_what_options_say(
        packet::packet_octets(
            packet::plain_packet(
                packet::OP_BOOTREPLY,
                xid,
                0,
                Ipv4Addr { bits: 0 },
                yours,
                mac,
                seq![packet::kind_option(DhcpMessageType::Ack)] + extra,
            ),
        ),
        xid,
        Ipv4Addr { bits: 0 },
        yours,
        Ipv4Addr { bits: 0 },
        mac,
        list,
        interface_index,
        interface_name,
        seq![5u8],
        said,
        z,
    );
}

// --- Hardware addresses ----------------------------------------------------------------

/// The file of an interface's hardware address, which holds its text and a line feed,
/// is read as that address and as no other.
pub proof fn lemma_hardware_address_is_read(mac: Seq<u8>, other: Seq<u8>)
    requires
        mac.len() == 6,
    ensures
        dhcp::is_hardware_address(model::mac_text(mac) + "\n"@, other) <==> other == mac,
{
    reveal_strlit("\n");
    let s = model::mac_text(mac);
    let content = s + "\n"@;
    model::lemma_mac_text(mac);
    let pieces = text::split(s, ':');
    lemma_mac_ends(mac);
    assert(text::trim_left(content) == content) by {
        assert(content[0] == s[0]);
    }
    assert(content.last() == '\n');
    assert(content.drop_last() =~= s);
    assert(text::trim_right(s) == s);
    assert(text::trimmed(content) == s);
    assert forall|i: int| 0 <= i < 6 implies dhcp::radix_octet(#[trigger] pieces[i]) == Some(
        mac[i],
    ) by {
        assert(model::hex_octet(pieces[i]) == Some(mac[i]));
        lemma_two_digits(pieces[i], mac[i]);
    }
    if dhcp::is_hardware_address(content, other) {
        assert forall|i: int| 0 <= i < 6 implies other[i] == mac[i] by {
            assert(dhcp::radix_octet(pieces[i]) == Some(other[i]));
        }
        assert(other =~= mac);
    }
}

proof fn lemma_two_digits(s: Seq<char>, octet: u8)
    requires
        model::hex_octet(s) == Some(octet),
    ensures
        dhcp::radix_octet(s) == Some(octet),
{
    let high = text::hex_digit_value(s[0])->0;
    let low = text::hex_digit_value(s[1])->0;
    assert(high < 16 && low < 16);
    assert(s.drop_last() =~= seq![s[0]]);
    assert(s.last() == s[1]);
    assert(dhcp::radix_value(seq![s[0]]) == Some(high)) by {
        assert(seq![s[0]].last() == s[0]);
    }
    assert(dhcp::radix_value(s) == Some((16 * high + low) as nat));
}

proof fn lemma_mac_ends(mac: Seq<u8>)
    requires
        mac.len() == 6,
    ensures
        ({
            let s = model::mac_text(mac);
            &&& s.len() > 0
            &&& !text::is_white(s[0])
            &&& !text::is_white(s.last())
        }),
{
    let p = mac.map_values(|b: u8| text::fixed_hex(b as nat, 2));
    let most = p.take(5);
    assert(most.push(p[5]) =~= p);
    crate::laws::dns::lemma_join_push(most, p[5], ':');
    reveal_with_fuel(text::fixed_hex, 3);
    let s = model::mac_text(mac);
    assert(p[5].len() == 2 && p[0].len() == 2);
    assert(s.last() == p[5].last());
    assert(p[5].last() == text::hex_digit(mac[5] as nat % 16));
    assert(text::join(p, ':') == p[0].push(':') + text::join(p.skip(1), ':'));
    assert(s[0] == p[0][0]);
    assert(p[0][0] == text::hex_digit(mac[0] as nat / 16 % 16));
}

} // verus!
