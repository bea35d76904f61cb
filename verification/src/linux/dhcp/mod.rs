//! Native DHCPv4: the packet codec and the four-packet exchange
//! (DISCOVER/OFFER/REQUEST/ACK).
//!
//! The exchange acquires a first lease. Sockets, clocks and the file that tells
//! an interface's hardware address are left to the caller: an [`Exchange`] says
//! what to send and takes the datagrams that arrive.

pub mod packet;

use vstd::prelude::*;

use crate::connection::ip::{DhcpError, DhcpLease, DhcpLeaseView, DhcpRequest};
use crate::io_error::{IoError, IoErrorKind};
use crate::linux::dhcp::packet::{parse, DhcpMessageType, DhcpPacket, PacketView, OPTION_SERVER_ID};
use crate::net::Ipv4Addr;
use crate::text;
use crate::text::{chars_of, hex_value, split_text, trim};

verus! {

// --- Hardware addresses -----------------------------------------------------------------

/// The number with the given hexadecimal digits, if there are any and all are
/// digits.
pub open spec fn radix_value(digits: Seq<char>) -> Option<nat>
    decreases digits.len(),
{
    if digits.len() == 0 {
        None
    } else {
        match text::hex_digit_value(digits.last()) {
            None => None,
            Some(d) => if digits.len() == 1 {
                Some(d)
            } else {
                match radix_value(digits.drop_last()) {
                    None => None,
                    Some(high) => Some(16 * high + d),
                }
            },
        }
    }
}

/// The octet that a text in hexadecimal stands for. A leading plus sign is
/// allowed, and so are leading zeros.
pub open spec fn radix_octet(s: Seq<char>) -> Option<u8> {
    let digits = if s.len() > 0 && s[0] == '+' {
        s.skip(1)
    } else {
        s
    };
    match radix_value(digits) {
        Some(n) if n < 256 => Some(n as u8),
        _ => None,
    }
}

proof fn lemma_radix_prefix(digits: Seq<char>, k: int)
    requires
        0 < k <= digits.len(),
    ensures
        radix_value(digits) is Some ==> radix_value(digits.take(k)) is Some && radix_value(
            digits.take(k),
        )->0 <= radix_value(digits)->0,
    decreases digits.len(),
{
    if k == digits.len() {
        assert(digits.take(k) =~= digits);
    } else {
        lemma_radix_prefix(digits.drop_last(), k);
        assert(digits.drop_last().take(k) =~= digits.take(k));
    }
}

fn read_octet(chars: &Vec<char>) -> (r: Option<u8>)
    ensures
        r == radix_octet(chars@),
{
    let start: usize = if chars.len() > 0 && chars[0] == '+' {
        1
    } else {
        0
    };
    let ghost digits = chars@.skip(start as int);
    proof {
        if start == 0 {
            assert(digits =~= chars@);
        }
    }
    if chars.len() == start {
        return None;
    }
    let mut value: u32 = 0;
    let mut i: usize = start;
    while i < chars.len()
        invariant
            start <= i <= chars@.len(),
            start < chars@.len(),
            value < 256,
            digits == chars@.skip(start as int),
            radix_octet(chars@) == match radix_value(digits) {
                Some(n) if n < 256 => Some(n as u8),
                _ => None,
            },
            i == start ==> value == 0,
            i > start ==> radix_value(digits.take(i - start)) == Some(value as nat),
        decreases chars@.len() - i,
    {
        let ghost now = digits.take(i - start + 1);
        proof {
            assert(now.last() == chars@[i as int]);
            assert(now.drop_last() =~= digits.take(i - start));
            lemma_radix_prefix(digits, i - start + 1);
        }
        match hex_value(chars[i]) {
            None => {
                return None;
            },
            Some(d) => {
                value = 16 * value + d as u32;
                if value >= 256 {
                    return None;
                }
            },
        }
        i = i + 1;
    }
    assert(digits.take(i - start) =~= digits);
    Some(value as u8)
}

/// The error for a hardware address that cannot be read.
pub open spec fn bad_mac() -> DhcpError {
    DhcpError::MalformedPacket("invalid mac address format")
}

/// Whether a text, such as the content of an interface's address file, starts
/// with the six octets of a hardware address between colons.
pub open spec fn is_hardware_address(content: Seq<char>, mac: Seq<u8>) -> bool {
    let parts = text::split(text::trimmed(content), ':');
    &&& mac.len() == 6
    &&& parts.len() >= 6
    &&& forall|i: int| 0 <= i < 6 ==> radix_octet(#[trigger] parts[i]) == Some(mac[i])
}

/// Reads a hardware address out of the content of an interface's address file.
pub fn parse_hardware_address(content: &str) -> (r: Result<[u8; 6], DhcpError>)
    ensures
        match r {
            Ok(mac) => is_hardware_address(content@, mac@),
            Err(e) => e == bad_mac() && forall|mac: Seq<u8>| !is_hardware_address(content@, mac),
        },
{
    let chars: Vec<char> = chars_of(content);
    let inner: Vec<char> = trim(chars.as_slice());
    let parts: Vec<Vec<char>> = split_text(inner.as_slice(), ':');
    let ghost views = text::split(text::trimmed(content@), ':');
    let mut mac: [u8; 6] = [0; 6];
    let mut i: usize = 0;
    while i < 6
        invariant
            i <= 6,
            views == text::split(text::trimmed(content@), ':'),
            crate::text::char_views(parts@) == views,
            i <= parts@.len(),
            forall|j: int| 0 <= j < i ==> radix_octet(#[trigger] views[j]) == Some(mac@[j]),
        decreases 6 - i,
    {
        assert(views.len() == parts@.len());
        if i >= parts.len() {
            return Err(DhcpError::MalformedPacket("invalid mac address format"));
        }
        assert(views[i as int] == parts@[i as int]@);
        match read_octet(&parts[i]) {
            None => {
                return Err(DhcpError::MalformedPacket("invalid mac address format"));
            },
            Some(octet) => {
                mac[i] = octet;
            },
        }
        i = i + 1;
    }
    Ok(mac)
}

// --- Transactions ---------------------------------------------------------------------------

/// The number of a process with its halves swapped.
pub open spec fn swapped(pid: u32) -> u32 {
    (pid % 65536 * 65536 + pid / 65536) as u32
}

/// A transaction id: the low bits of the time, mixed with the process.
pub fn transaction_id(nanos: u128, pid: u32) -> (r: u32)
    ensures
        r == ((nanos % 0x1_0000_0000) as u32 ^ swapped(pid)),
{
    let low: u32 = (nanos % 0x1_0000_0000) as u32;
    let mixed: u32 = pid % 65536 * 65536 + pid / 65536;
    low ^ mixed
}

/// How long to wait for a datagram, in milliseconds; nothing once the deadline
/// has passed.
pub fn poll_timeout(now_nanos: u128, deadline_nanos: u128) -> (r: Option<i32>)
    ensures
        match r {
            None => now_nanos >= deadline_nanos,
            Some(millis) => {
                let left = (deadline_nanos - now_nanos) / 1_000_000;
                &&& now_nanos < deadline_nanos
                &&& millis == if left > i32::MAX {
                    i32::MAX as int
                } else {
                    left
                }
            },
        },
{
    if now_nanos >= deadline_nanos {
        return None;
    }
    let left: u128 = (deadline_nanos - now_nanos) / 1_000_000;
    if left > 0x7fff_ffff {
        Some(0x7fff_ffff)
    } else {
        Some(left as i32)
    }
}

/// What the result of a wait leads to.
#[derive(Debug, PartialEq, Eq)]
pub enum Waited {
    /// Receive the datagram that is there.
    Receive,
    /// Wait again.
    Again,
    /// Give up.
    Fail(DhcpError),
}

/// Decides about the result of polling: the number of descriptors that are ready,
/// or the error. An interruption is no reason to give up.
pub fn after_poll(ready: Result<usize, IoError>, interface_name: &str) -> (r: Waited)
    ensures
        match ready {
            Err(err) => r == if err.kind == IoErrorKind::Interrupted {
                Waited::Again
            } else {
                Waited::Fail(DhcpError::Io(err))
            },
            Ok(0) => r matches Waited::Fail(DhcpError::Timeout { interface }) && interface@
                == interface_name@,
            Ok(_) => r == Waited::Receive,
        },
{
    match ready {
        Err(err) => {
            if err.kind == IoErrorKind::Interrupted {
                Waited::Again
            } else {
                Waited::Fail(DhcpError::Io(err))
            }
        },
        Ok(count) => {
            if count == 0 {
                Waited::Fail(DhcpError::Timeout { interface: interface_name.to_owned() })
            } else {
                Waited::Receive
            }
        },
    }
}

/// What the result of receiving leads to.
#[derive(Debug, PartialEq, Eq)]
pub enum Received {
    /// Read the datagram, which has this many octets.
    Datagram(usize),
    /// Wait again.
    Again,
    /// Give up.
    Fail(DhcpError),
}

/// Decides about the result of receiving: the number of octets, or the error. An
/// interruption or an empty datagram is no reason to give up.
pub fn after_receive(received: Result<usize, IoError>) -> (r: Received)
    ensures
        r == match received {
            Err(err) => if err.kind == IoErrorKind::Interrupted {
                Received::Again
            } else {
                Received::Fail(DhcpError::Io(err))
            },
            Ok(0) => Received::Again,
            Ok(count) => Received::Datagram(count),
        },
{
    match received {
        Err(err) => {
            if err.kind == IoErrorKind::Interrupted {
                Received::Again
            } else {
                Received::Fail(DhcpError::Io(err))
            }
        },
        Ok(count) => {
            if count == 0 {
                Received::Again
            } else {
                Received::Datagram(count)
            }
        },
    }
}

/// The packet that a datagram holds, if it belongs to a transaction.
pub open spec fn matching(datagram: Seq<u8>, xid: u32) -> Option<PacketView> {
    match packet::packet_of(datagram) {
        Ok(packet) if packet.xid == xid => Some(packet),
        _ => None,
    }
}

/// Reads the packet that a datagram holds, if it belongs to a transaction.
pub fn match_packet(datagram: &[u8], xid: u32) -> (r: Option<DhcpPacket>)
    ensures
        match r {
            Some(packet) => matching(datagram@, xid) == Some(packet@),
            None => matching(datagram@, xid) is None,
        },
{
    match parse(datagram) {
        Ok(packet) => {
            if packet.xid == xid {
                Some(packet)
            } else {
                None
            }
        },
        Err(_) => None,
    }
}

// --- The exchange ------------------------------------------------------------------------------

/// What an exchange waits for.
#[derive(Clone, Copy, Debug, PartialEq, Eq, Structural)]
pub enum Stage {
    Offer,
    Ack,
}

/// The state of an exchange that acquires a lease.
#[derive(Debug, PartialEq, Eq)]
pub struct Exchange {
    pub xid: u32,
    pub mac: [u8; 6],
    pub interface_index: i32,
    pub interface_name: String,
    pub hostname: Option<String>,
    pub stage: Stage,
}

/// What to do after a datagram was taken.
#[derive(Debug, PartialEq, Eq)]
pub enum ExchangeStep {
    /// The datagram was none of this exchange: wait for another.
    Ignore,
    /// Broadcast these octets to the server port, then wait.
    Send(Vec<u8>),
    /// The exchange is over, with a lease.
    Done(DhcpLease),
    /// The exchange is over, without one.
    Fail(DhcpError),
}

/// A request that answers an offer, or why the offer is not answered.
pub open spec fn answer(
    offer: PacketView,
    xid: u32,
    mac: Seq<u8>,
    hostname: Option<Seq<char>>,
) -> Result<Seq<u8>, DhcpError> {
    if offer.kind() != DhcpMessageType::Offer {
        Err(DhcpError::MalformedPacket("expected a DHCPOFFER in response to DISCOVER"))
    } else {
        match packet::address_field(offer.yiaddr) {
            None => Err(DhcpError::MalformedPacket("DHCPOFFER carried no usable address")),
            Some(address) => {
                let server = match packet::address_in(offer.option(OPTION_SERVER_ID)) {
                    Some(server) => Some(server),
                    None => packet::address_field(offer.siaddr),
                };
                Ok(packet::packet_octets(packet::request_packet(xid, mac, Some(address), server, hostname)))
            },
        }
    }
}

/// The lease that a reply to a request grants, or why it grants none.
pub open spec fn granted(
    reply: PacketView,
    interface_index: i32,
    interface_name: Seq<char>,
    mac: Seq<u8>,
) -> Result<DhcpLeaseView, DhcpError> {
    match reply.kind() {
        DhcpMessageType::Ack => packet::lease_of(reply, interface_index, interface_name, mac),
        DhcpMessageType::Nak => Err(DhcpError::MalformedPacket("server returned DHCPNAK")),
        _ => Err(DhcpError::MalformedPacket("expected a DHCPACK in response to REQUEST")),
    }
}

fn host_of(hostname: &Option<String>) -> (r: Option<&str>)
    ensures
        crate::text::str_view(r) == text::text_view(*hostname),
{
    match hostname {
        Some(name) => Some(name.as_str()),
        None => None,
    }
}

impl Exchange {
    /// Starts an exchange. The second part of the result is to be broadcast to
    /// the server port.
    pub fn begin(request: &DhcpRequest, xid: u32, mac: [u8; 6]) -> (r: (Self, Vec<u8>))
        ensures
            r.0.xid == xid,
            r.0.mac@ == mac@,
            r.0.interface_index == request.interface_index,
            r.0.interface_name@ == request.interface_name@,
            text::text_view(r.0.hostname) == text::text_view(request.hostname),
            r.0.stage == Stage::Offer,
            r.1@ == packet::packet_octets(
                packet::discover_packet(
                    xid,
                    mac@,
                    text::text_view(request.hostname),
                    request.requested_address,
                ),
            ),
    {
        let host: Option<&str> = host_of(&request.hostname);
        let discover: Vec<u8> = DhcpPacket::build_discover(
            xid,
            mac,
            host,
            request.requested_address,
        );
        (
            Exchange {
                xid,
                mac,
                interface_index: request.interface_index,
                interface_name: request.interface_name.clone(),
                hostname: crate::text::copy_text(&request.hostname),
                stage: Stage::Offer,
            },
            discover,
        )
    }

    /// Takes a datagram. One that is malformed or of another transaction is
    /// ignored.
    pub fn on_datagram(&mut self, datagram: &[u8]) -> (r: ExchangeStep)
        ensures
            final(self).xid == old(self).xid,
            final(self).mac@ == old(self).mac@,
            final(self).interface_index == old(self).interface_index,
            final(self).interface_name@ == old(self).interface_name@,
            final(self).hostname == old(self).hostname,
            final(self).stage == if r is Send {
                Stage::Ack
            } else {
                old(self).stage
            },
            match matching(datagram@, old(self).xid) {
                None => r is Ignore,
                Some(packet) => match old(self).stage {
                    Stage::Offer => match answer(
                        packet,
                        old(self).xid,
                        old(self).mac@,
                        text::text_view(old(self).hostname),
                    ) {
                        Ok(octets) => r matches ExchangeStep::Send(sent) && sent@ == octets,
                        Err(e) => r == ExchangeStep::Fail(e),
                    },
                    Stage::Ack => match granted(
                        packet,
                        old(self).interface_index,
                        old(self).interface_name@,
                        old(self).mac@,
                    ) {
                        Ok(lease) => r matches ExchangeStep::Done(found) && found@ == lease,
                        Err(e) => r == ExchangeStep::Fail(e),
                    },
                },
            },
    {
        let packet: DhcpPacket = match match_packet(datagram, self.xid) {
            None => {
                return ExchangeStep::Ignore;
            },
            Some(packet) => packet,
        };
        match self.stage {
            Stage::Offer => {
                let host: Option<&str> = host_of(&self.hostname);
                if packet.message_type() != DhcpMessageType::Offer {
                    return ExchangeStep::Fail(
                        DhcpError::MalformedPacket("expected a DHCPOFFER in response to DISCOVER"),
                    );
                }
                let address: Ipv4Addr = match packet.yiaddr() {
                    None => {
                        return ExchangeStep::Fail(
                            DhcpError::MalformedPacket("DHCPOFFER carried no usable address"),
                        );
                    },
                    Some(address) => address,
                };
                let server: Option<Ipv4Addr> = match packet.server_identifier() {
                    Some(server) => Some(server),
                    None => packet.source_address(),
                };
                let request: Vec<u8> = DhcpPacket::build_request(
                    self.xid,
                    self.mac,
                    Some(address),
                    server,
                    host,
                );
                self.stage = Stage::Ack;
                ExchangeStep::Send(request)
            },
            Stage::Ack => match packet.message_type() {
                DhcpMessageType::Ack => match packet.to_lease(
                    self.interface_index,
                    self.interface_name.as_str(),
                    self.mac,
                ) {
                    Ok(lease) => ExchangeStep::Done(lease),
                    Err(err) => ExchangeStep::Fail(err),
                },
                DhcpMessageType::Nak => ExchangeStep::Fail(
                    DhcpError::MalformedPacket("server returned DHCPNAK"),
                ),
                _ => ExchangeStep::Fail(
                    DhcpError::MalformedPacket("expected a DHCPACK in response to REQUEST"),
                ),
            },
        }
    }
}

/// A DHCPv4 client.
#[derive(Clone, Copy, Debug, PartialEq, Eq, Structural)]
pub struct Dhcpv4Client {
    pub timeout_millis: u64,
}

impl Dhcpv4Client {
    /// A client with a timeout of its own.
    pub fn new(timeout_millis: u64) -> (r: Self)
        ensures
            r.timeout_millis == timeout_millis,
    {
        Dhcpv4Client { timeout_millis }
    }

    /// The time that a request has: its own, or else that of the client.
    pub fn effective_timeout(&self, request: &DhcpRequest) -> (r: u64)
        ensures
            r == if request.timeout_millis == 0 {
                self.timeout_millis
            } else {
                request.timeout_millis
            },
    {
        if request.timeout_millis == 0 {
            self.timeout_millis
        } else {
            request.timeout_millis
        }
    }

    /// The octets that release a lease, and the server to send them to; without
    /// a known server they are broadcast.
    pub fn release_message(&self, lease: &DhcpLease, xid: u32, mac: [u8; 6]) -> (r: (
        Vec<u8>,
        Ipv4Addr,
    ))
        ensures
            r.1 == match lease.server_identifier {
                Some(server) => server,
                None => Ipv4Addr { bits: 0xffff_ffff },
            },
            r.0@ == packet::packet_octets(packet::release_packet(xid, mac@, lease.address, r.1)),
    {
        let server: Ipv4Addr = match lease.server_identifier {
            Some(server) => server,
            None => Ipv4Addr::limited_broadcast(),
        };
        (DhcpPacket::build_release(xid, mac, lease.address, server), server)
    }
}

impl Default for Dhcpv4Client {
    fn default() -> (r: Self)
        ensures
            r.timeout_millis == 4000,
    {
        Dhcpv4Client::new(4000)
    }
}

/// An acknowledgement that a server built for a client's transaction is taken
/// by that client, and grants it the address that the server gave.
pub proof fn lemma_ack_grants_lease(
    xid: u32,
    mac: Seq<u8>,
    yiaddr: Ipv4Addr,
    extra: Seq<(u8, Seq<u8>)>,
    interface_index: i32,
    interface_name: Seq<char>,
)
    requires
        mac.len() == 6,
        yiaddr.bits != 0,
        packet::writable_options(extra),
    ensures
        ({
            let ack = packet::plain_packet(
                packet::OP_BOOTREPLY,
                xid,
                0,
                Ipv4Addr { bits: 0 },
                yiaddr,
                mac,
                seq![packet::kind_option(DhcpMessageType::Ack)] + extra,
            );
            &&& matching(packet::packet_octets(ack), xid) == Some(ack)
            &&& granted(ack, interface_index, interface_name, mac) is Ok
            &&& granted(ack, interface_index, interface_name, mac)->Ok_0.address == yiaddr
        }),
{
    let options = seq![packet::kind_option(DhcpMessageType::Ack)] + extra;
    assert forall|i: int| 0 <= i < options.len() implies (#[trigger] options[i]).0
        != packet::OPTION_PAD && options[i].0 != packet::OPTION_END && options[i].1.len()
        <= 255 by {
        if i > 0 {
            assert(options[i] == extra[i - 1]);
        }
    }
    packet::lemma_built_packet(
        packet::OP_BOOTREPLY,
        xid,
        0,
        Ipv4Addr { bits: 0 },
        yiaddr,
        mac,
        options,
    );
    assert(options[0] == packet::kind_option(DhcpMessageType::Ack));
}

} // verus!
