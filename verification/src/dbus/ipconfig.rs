//! The `IP4Config`, `IP6Config`, `DHCP4Config` and `DHCP6Config` objects.
//!
//! These objects render the IP configuration an engine actually installed for
//! an active connection. They are mostly read by clients to display addresses,
//! gateways, routes and DNS servers.
//!
//! Nothing is fabricated: an absent value renders as the correct empty form
//! (empty string, empty array, `0` metric).

use vstd::prelude::*;

use crate::connection::ip::{
    DhcpLease, DhcpLeaseView, Ipv4Outcome, Ipv4OutcomeView, Ipv6Outcome, Ipv6OutcomeView,
};
use crate::dbus::convert;
use crate::dbus::convert::{route_v4_entry, route_v6_entry};
use crate::dbus::value;
use crate::dbus::value::{Section, SectionView, Value, ValueView};
use crate::linux::model::Route;
use crate::net;
use crate::net::{broadcast_address, network_address, subnet_mask, IpAddr, Ipv4Addr, Ipv6Addr};
use crate::text;
use crate::text::{copy_strings, decimal_text};

verus! {

/// The views of a list of dictionaries.
pub open spec fn dictionary_views(dictionaries: Seq<Section>) -> Seq<SectionView> {
    dictionaries.map_values(|dictionary: Section| dictionary@)
}

/// The view of an optional IPv4 outcome.
pub open spec fn v4_view(outcome: Option<&Ipv4Outcome>) -> Option<Ipv4OutcomeView> {
    match outcome {
        Some(ipv4) => Some(ipv4@),
        None => None,
    }
}

/// The view of an optional IPv6 outcome.
pub open spec fn v6_view(outcome: Option<&Ipv6Outcome>) -> Option<Ipv6OutcomeView> {
    match outcome {
        Some(ipv6) => Some(ipv6@),
        None => None,
    }
}

/// Renders the IPv4 address as the `u32` NetworkManager uses in the deprecated
/// `Addresses`/`Nameservers` arrays: its octets, least significant first.
pub fn ipv4_u32(address: Ipv4Addr) -> (r: u32)
    ensures
        r == address.scalar(),
{
    address.to_scalar()
}

// --- Dictionaries ----------------------------------------------------------------------------

/// The dictionary of an address and its prefix.
pub open spec fn address_entry(address: IpAddr, prefix_length: u8) -> SectionView {
    seq![
        ("address"@, ValueView::Str(address.text())),
        ("prefix"@, ValueView::U32(prefix_length as u32)),
    ]
}

fn address_dictionaries(address: IpAddr, prefix_length: u8) -> (r: Vec<Section>)
    ensures
        dictionary_views(r@) == seq![address_entry(address, prefix_length)],
{
    let mut entry: Section = Section::new();
    entry.push("address", Value::Str(address.to_string()));
    entry.push("prefix", Value::U32(prefix_length as u32));
    assert(entry@ =~= address_entry(address, prefix_length));
    let r: Vec<Section> = vec![entry];
    assert(dictionary_views(r@) =~= seq![address_entry(address, prefix_length)]);
    r
}

/// The dictionary of a route. Its destination is masked down to the network, as
/// NetworkManager reports it.
pub open spec fn route_dictionary(route: Route) -> SectionView {
    seq![
        (
            "dest"@,
            ValueView::Str(
                net::network_of(route.destination, route.prefix_length as nat).text(),
            ),
        ),
        ("prefix"@, ValueView::U32(route.prefix_length as u32)),
    ] + match route.gateway {
        Some(gateway) => seq![("next-hop"@, ValueView::Str(gateway.text()))],
        None => SectionView::empty(),
    } + seq![
        (
            "metric"@,
            ValueView::U32(
                match route.metric {
                    Some(metric) => metric,
                    None => 0u32,
                },
            ),
        ),
    ]
}

/// Renders one route of `RouteData`.
pub fn route_data_entry(route: &Route) -> (r: Section)
    ensures
        r@ == route_dictionary(*route),
{
    let mut entry: Section = Section::new();
    let destination: IpAddr = network_address(route.destination, route.prefix_length);
    entry.push("dest", Value::Str(destination.to_string()));
    entry.push("prefix", Value::U32(route.prefix_length as u32));
    if let Some(gateway) = route.gateway {
        entry.push("next-hop", Value::Str(gateway.to_string()));
    }
    let metric: u32 = match route.metric {
        Some(metric) => metric,
        None => 0,
    };
    entry.push("metric", Value::U32(metric));
    assert(entry@ =~= route_dictionary(*route));
    entry
}

/// The dictionaries of routes.
pub open spec fn route_dictionaries(routes: Seq<Route>) -> Seq<SectionView> {
    routes.map_values(|route: Route| route_dictionary(route))
}

fn route_data(routes: &Vec<Route>) -> (r: Vec<Section>)
    ensures
        dictionary_views(r@) == route_dictionaries(routes@),
{
    let mut r: Vec<Section> = Vec::new();
    let mut i: usize = 0;
    while i < routes.len()
        invariant
            i <= routes@.len(),
            r@.len() == i,
            forall|j: int| 0 <= j < i ==> (#[trigger] r@[j])@ == route_dictionary(routes@[j]),
        decreases routes@.len() - i,
    {
        r.push(route_data_entry(&routes[i]));
        i = i + 1;
    }
    assert(dictionary_views(r@) =~= route_dictionaries(routes@));
    r
}

// --- Servers ---------------------------------------------------------------------------------------

/// The IPv4 addresses among addresses, in order.
pub open spec fn v4_among(addresses: Seq<IpAddr>) -> Seq<Ipv4Addr>
    decreases addresses.len(),
{
    if addresses.len() == 0 {
        Seq::empty()
    } else {
        match addresses.last() {
            IpAddr::V4(address) => v4_among(addresses.drop_last()).push(address),
            IpAddr::V6(_) => v4_among(addresses.drop_last()),
        }
    }
}

/// The IPv6 addresses among addresses, in order.
pub open spec fn v6_among(addresses: Seq<IpAddr>) -> Seq<Ipv6Addr>
    decreases addresses.len(),
{
    if addresses.len() == 0 {
        Seq::empty()
    } else {
        match addresses.last() {
            IpAddr::V6(address) => v6_among(addresses.drop_last()).push(address),
            IpAddr::V4(_) => v6_among(addresses.drop_last()),
        }
    }
}

fn v4_servers(servers: &Vec<IpAddr>) -> (r: Vec<Ipv4Addr>)
    ensures
        r@ == v4_among(servers@),
{
    let mut r: Vec<Ipv4Addr> = Vec::new();
    let mut i: usize = 0;
    assert(servers@.take(0) =~= Seq::empty());
    while i < servers.len()
        invariant
            i <= servers@.len(),
            r@ == v4_among(servers@.take(i as int)),
        decreases servers@.len() - i,
    {
        assert(servers@.take(i + 1).drop_last() =~= servers@.take(i as int));
        match servers[i] {
            IpAddr::V4(address) => {
                r.push(address);
            },
            IpAddr::V6(_) => {},
        }
        i = i + 1;
    }
    assert(servers@.take(i as int) =~= servers@);
    r
}

fn v6_servers(servers: &Vec<IpAddr>) -> (r: Vec<Ipv6Addr>)
    ensures
        r@ == v6_among(servers@),
{
    let mut r: Vec<Ipv6Addr> = Vec::new();
    let mut i: usize = 0;
    assert(servers@.take(0) =~= Seq::empty());
    while i < servers.len()
        invariant
            i <= servers@.len(),
            r@ == v6_among(servers@.take(i as int)),
        decreases servers@.len() - i,
    {
        assert(servers@.take(i + 1).drop_last() =~= servers@.take(i as int));
        match servers[i] {
            IpAddr::V6(address) => {
                r.push(address);
            },
            IpAddr::V4(_) => {},
        }
        i = i + 1;
    }
    assert(servers@.take(i as int) =~= servers@);
    r
}

/// The numbers of IPv4 addresses.
pub open spec fn scalars(addresses: Seq<Ipv4Addr>) -> Seq<u32> {
    addresses.map_values(|address: Ipv4Addr| address.scalar())
}

/// Renders the IPv4 servers among DNS servers.
pub fn dns_servers_v4(servers: &Vec<IpAddr>) -> (r: Vec<u32>)
    ensures
        r@ == scalars(v4_among(servers@)),
{
    let found: Vec<Ipv4Addr> = v4_servers(servers);
    let mut r: Vec<u32> = Vec::new();
    let mut i: usize = 0;
    while i < found.len()
        invariant
            i <= found@.len(),
            r@.len() == i,
            forall|j: int| 0 <= j < i ==> #[trigger] r@[j] == found@[j].scalar(),
        decreases found@.len() - i,
    {
        r.push(ipv4_u32(found[i]));
        i = i + 1;
    }
    assert(r@ =~= scalars(found@));
    r
}

/// The octets of IPv6 addresses.
pub open spec fn octet_lists(addresses: Seq<Ipv6Addr>) -> Seq<Seq<u8>> {
    addresses.map_values(|address: Ipv6Addr| address.octets_view())
}

/// The views of a list of octets.
pub open spec fn octet_views(lists: Seq<Vec<u8>>) -> Seq<Seq<u8>> {
    lists.map_values(|list: Vec<u8>| list@)
}

/// Renders the IPv6 servers among DNS servers.
pub fn dns_servers_v6(servers: &Vec<IpAddr>) -> (r: Vec<Vec<u8>>)
    ensures
        octet_views(r@) == octet_lists(v6_among(servers@)),
{
    let found: Vec<Ipv6Addr> = v6_servers(servers);
    let mut r: Vec<Vec<u8>> = Vec::new();
    let mut i: usize = 0;
    while i < found.len()
        invariant
            i <= found@.len(),
            r@.len() == i,
            forall|j: int| 0 <= j < i ==> (#[trigger] r@[j])@ == found@[j].octets_view(),
        decreases found@.len() - i,
    {
        r.push(found[i].octets_vec());
        i = i + 1;
    }
    assert(octet_views(r@) =~= octet_lists(found@));
    r
}

/// The dictionary of an IPv4 server: its address, also as its URI.
pub open spec fn server_dictionary(address: Ipv4Addr) -> SectionView {
    seq![
        ("address"@, ValueView::Str(address.text())),
        ("uri"@, ValueView::Str(address.text())),
    ]
}

/// The dictionaries of IPv4 servers.
pub open spec fn server_dictionaries(addresses: Seq<Ipv4Addr>) -> Seq<SectionView> {
    addresses.map_values(|address: Ipv4Addr| server_dictionary(address))
}

/// Renders `NameserverData` for a list of servers, with the `{address, uri}`
/// entries NetworkManager exposes.
pub fn nameserver_data_v4(servers: &Vec<IpAddr>) -> (r: Vec<Section>)
    ensures
        dictionary_views(r@) == server_dictionaries(v4_among(servers@)),
{
    let found: Vec<Ipv4Addr> = v4_servers(servers);
    let mut r: Vec<Section> = Vec::new();
    let mut i: usize = 0;
    while i < found.len()
        invariant
            i <= found@.len(),
            r@.len() == i,
            forall|j: int| 0 <= j < i ==> (#[trigger] r@[j])@ == server_dictionary(found@[j]),
        decreases found@.len() - i,
    {
        let mut entry: Section = Section::new();
        entry.push("address", Value::Str(found[i].to_string()));
        entry.push("uri", Value::Str(found[i].to_string()));
        assert(entry@ =~= server_dictionary(found@[i as int]));
        r.push(entry);
        i = i + 1;
    }
    assert(dictionary_views(r@) =~= server_dictionaries(found@));
    r
}

// --- IP4Config ---------------------------------------------------------------------------------------

/// An address, its prefix and its gateway, as numbers.
pub open spec fn address_numbers(ipv4: Ipv4OutcomeView) -> Seq<u32> {
    seq![
        ipv4.address.scalar(),
        ipv4.prefix_length as u32,
        match ipv4.gateway {
            Some(gateway) => gateway.scalar(),
            None => 0u32,
        },
    ]
}

/// The IPv4 configuration of an active connection, if it has one.
pub struct Ip4Config<'a> {
    pub outcome: Option<&'a Ipv4Outcome>,
}

impl<'a> Ip4Config<'a> {
    /// `Addresses`: address, prefix and gateway.
    pub fn addresses(&self) -> (r: Vec<Vec<u32>>)
        ensures
            value::list_views(r@) == match v4_view(self.outcome) {
                Some(ipv4) => seq![address_numbers(ipv4)],
                None => Seq::empty(),
            },
    {
        let mut r: Vec<Vec<u32>> = Vec::new();
        if let Some(ipv4) = self.outcome {
            let gateway: u32 = match ipv4.gateway {
                Some(gateway) => ipv4_u32(gateway),
                None => 0,
            };
            let entry: Vec<u32> = vec![ipv4_u32(ipv4.address), ipv4.prefix_length as u32, gateway];
            let ghost expected = address_numbers(ipv4@);
            assert(entry@ =~= expected);
            r.push(entry);
            assert(value::list_views(r@) =~= seq![expected]);
        } else {
            assert(value::list_views(r@) =~= Seq::empty());
        }
        r
    }

    /// `AddressData`: the address and its prefix.
    pub fn address_data(&self) -> (r: Vec<Section>)
        ensures
            dictionary_views(r@) == match v4_view(self.outcome) {
                Some(ipv4) => seq![address_entry(IpAddr::V4(ipv4.address), ipv4.prefix_length)],
                None => Seq::empty(),
            },
    {
        match self.outcome {
            Some(ipv4) => address_dictionaries(IpAddr::V4(ipv4.address), ipv4.prefix_length),
            None => {
                let r: Vec<Section> = Vec::new();
                assert(dictionary_views(r@) =~= Seq::empty());
                r
            },
        }
    }

    /// `Gateway`: its address, or nothing.
    pub fn gateway(&self) -> (r: String)
        ensures
            r@ == match v4_view(self.outcome) {
                Some(ipv4) => match ipv4.gateway {
                    Some(gateway) => gateway.text(),
                    None => Seq::empty(),
                },
                None => Seq::empty(),
            },
    {
        if let Some(ipv4) = self.outcome {
            if let Some(gateway) = ipv4.gateway {
                return gateway.to_string();
            }
        }
        String::new()
    }

    /// `Routes`: destination, prefix, next hop and metric of each. A route without
    /// a gateway of its own has no next hop.
    pub fn routes(&self) -> (r: Vec<Vec<u32>>)
        ensures
            value::list_views(r@) == match v4_view(self.outcome) {
                Some(ipv4) => ipv4.routes.map_values(|route: Route| convert::v4_numbers(route)),
                None => Seq::empty(),
            },
    {
        let mut r: Vec<Vec<u32>> = Vec::new();
        if let Some(ipv4) = self.outcome {
            let mut i: usize = 0;
            while i < ipv4.routes.len()
                invariant
                    i <= ipv4.routes@.len(),
                    r@.len() == i,
                    forall|j: int|
                        0 <= j < i ==> (#[trigger] r@[j])@ == convert::v4_numbers(ipv4.routes@[j]),
                decreases ipv4.routes@.len() - i,
            {
                r.push(route_v4_entry(&ipv4.routes[i]));
                i = i + 1;
            }
            assert(value::list_views(r@) =~= ipv4@.routes.map_values(
                |route: Route| convert::v4_numbers(route),
            ));
        } else {
            assert(value::list_views(r@) =~= Seq::empty());
        }
        r
    }

    /// `RouteData`: a dictionary of each route.
    pub fn route_data(&self) -> (r: Vec<Section>)
        ensures
            dictionary_views(r@) == match v4_view(self.outcome) {
                Some(ipv4) => route_dictionaries(ipv4.routes),
                None => Seq::empty(),
            },
    {
        match self.outcome {
            Some(ipv4) => route_data(&ipv4.routes),
            None => {
                let r: Vec<Section> = Vec::new();
                assert(dictionary_views(r@) =~= Seq::empty());
                r
            },
        }
    }

    /// `NameserverData`: a dictionary of each IPv4 server.
    pub fn nameserver_data(&self) -> (r: Vec<Section>)
        ensures
            dictionary_views(r@) == match v4_view(self.outcome) {
                Some(ipv4) => server_dictionaries(v4_among(ipv4.dns_servers)),
                None => Seq::empty(),
            },
    {
        match self.outcome {
            Some(ipv4) => nameserver_data_v4(&ipv4.dns_servers),
            None => {
                let r: Vec<Section> = Vec::new();
                assert(dictionary_views(r@) =~= Seq::empty());
                r
            },
        }
    }

    /// `Nameservers`: each IPv4 server.
    pub fn nameservers(&self) -> (r: Vec<u32>)
        ensures
            r@ == match v4_view(self.outcome) {
                Some(ipv4) => scalars(v4_among(ipv4.dns_servers)),
                None => Seq::empty(),
            },
    {
        match self.outcome {
            Some(ipv4) => dns_servers_v4(&ipv4.dns_servers),
            None => Vec::new(),
        }
    }

    /// `Searches`: the search domains.
    pub fn searches(&self) -> (r: Vec<String>)
        ensures
            text::string_views(r@) == match v4_view(self.outcome) {
                Some(ipv4) => ipv4.search_domains,
                None => Seq::empty(),
            },
    {
        match self.outcome {
            Some(ipv4) => copy_strings(&ipv4.search_domains),
            None => {
                let r: Vec<String> = Vec::new();
                assert(text::string_views(r@) =~= Seq::empty());
                r
            },
        }
    }
}

// --- IP6Config ---------------------------------------------------------------------------------------

/// The primary IPv6 address to report: the configured address, or the observed
/// link-local address for automatic link-local-only operation.
pub open spec fn primary_v6(outcome: Option<Ipv6OutcomeView>) -> Option<(Ipv6Addr, u8)> {
    match outcome {
        Some(ipv6) => match (ipv6.address, ipv6.link_local) {
            (Some(address), _) => Some((address, ipv6.prefix_length)),
            (None, Some(address)) => Some((address, 64u8)),
            (None, None) => None,
        },
        None => None,
    }
}

/// An address, its prefix and its gateway, as octets.
pub open spec fn v6_address_view(entry: (Vec<u8>, u32, Vec<u8>)) -> (Seq<u8>, u32, Seq<u8>) {
    (entry.0@, entry.1, entry.2@)
}

/// The IPv6 configuration of an active connection, if it has one.
pub struct Ip6Config<'a> {
    pub outcome: Option<&'a Ipv6Outcome>,
}

impl<'a> Ip6Config<'a> {
    /// The address to report and its prefix.
    pub fn address(&self) -> (r: Option<(Ipv6Addr, u8)>)
        ensures
            r == primary_v6(v6_view(self.outcome)),
    {
        match self.outcome {
            Some(ipv6) => match (ipv6.address, ipv6.link_local) {
                (Some(address), _) => Some((address, ipv6.prefix_length)),
                (None, Some(address)) => Some((address, 64)),
                (None, None) => None,
            },
            None => None,
        }
    }

    /// `Addresses`: address, prefix and an unspecified gateway.
    pub fn addresses(&self) -> (r: Vec<(Vec<u8>, u32, Vec<u8>)>)
        ensures
            match primary_v6(v6_view(self.outcome)) {
                Some((address, prefix)) => r@.len() == 1 && v6_address_view(r@[0]) == (
                    address.octets_view(),
                    prefix as u32,
                    convert::unspecified_v6().octets_view(),
                ),
                None => r@.len() == 0,
            },
    {
        let mut r: Vec<(Vec<u8>, u32, Vec<u8>)> = Vec::new();
        if let Some((address, prefix)) = self.address() {
            r.push(
                (address.octets_vec(), prefix as u32, Ipv6Addr::unspecified().octets_vec()),
            );
        }
        r
    }

    /// `AddressData`: the address and its prefix.
    pub fn address_data(&self) -> (r: Vec<Section>)
        ensures
            dictionary_views(r@) == match primary_v6(v6_view(self.outcome)) {
                Some((address, prefix)) => seq![address_entry(IpAddr::V6(address), prefix)],
                None => Seq::empty(),
            },
    {
        match self.address() {
            Some((address, prefix)) => address_dictionaries(IpAddr::V6(address), prefix),
            None => {
                let r: Vec<Section> = Vec::new();
                assert(dictionary_views(r@) =~= Seq::empty());
                r
            },
        }
    }

    /// `Gateway`: its address, or nothing.
    pub fn gateway(&self) -> (r: String)
        ensures
            r@ == match v6_view(self.outcome) {
                Some(ipv6) => match ipv6.gateway {
                    Some(gateway) => gateway.text(),
                    None => Seq::empty(),
                },
                None => Seq::empty(),
            },
    {
        if let Some(ipv6) = self.outcome {
            if let Some(gateway) = ipv6.gateway {
                return gateway.to_string();
            }
        }
        String::new()
    }

    /// `Routes`: destination, prefix, next hop and metric of each.
    pub fn routes(&self) -> (r: Vec<(Vec<u8>, u32, Vec<u8>, u32)>)
        ensures
            value::octet_pair_views(r@) == match v6_view(self.outcome) {
                Some(ipv6) => ipv6.routes.map_values(|route: Route| convert::v6_octets(route)),
                None => Seq::empty(),
            },
    {
        let mut r: Vec<(Vec<u8>, u32, Vec<u8>, u32)> = Vec::new();
        if let Some(ipv6) = self.outcome {
            let mut i: usize = 0;
            while i < ipv6.routes.len()
                invariant
                    i <= ipv6.routes@.len(),
                    r@.len() == i,
                    forall|j: int|
                        0 <= j < i ==> value::pair_view(#[trigger] r@[j]) == convert::v6_octets(
                            ipv6.routes@[j],
                        ),
                decreases ipv6.routes@.len() - i,
            {
                r.push(route_v6_entry(&ipv6.routes[i]));
                i = i + 1;
            }
            assert(value::octet_pair_views(r@) =~= ipv6@.routes.map_values(
                |route: Route| convert::v6_octets(route),
            ));
        } else {
            assert(value::octet_pair_views(r@) =~= Seq::empty());
        }
        r
    }

    /// `RouteData`: a dictionary of each route.
    pub fn route_data(&self) -> (r: Vec<Section>)
        ensures
            dictionary_views(r@) == match v6_view(self.outcome) {
                Some(ipv6) => route_dictionaries(ipv6.routes),
                None => Seq::empty(),
            },
    {
        match self.outcome {
            Some(ipv6) => route_data(&ipv6.routes),
            None => {
                let r: Vec<Section> = Vec::new();
                assert(dictionary_views(r@) =~= Seq::empty());
                r
            },
        }
    }

    /// `Nameservers`: each IPv6 server.
    pub fn nameservers(&self) -> (r: Vec<Vec<u8>>)
        ensures
            octet_views(r@) == match v6_view(self.outcome) {
                Some(ipv6) => octet_lists(v6_among(ipv6.dns_servers)),
                None => Seq::empty(),
            },
    {
        match self.outcome {
            Some(ipv6) => dns_servers_v6(&ipv6.dns_servers),
            None => {
                let r: Vec<Vec<u8>> = Vec::new();
                assert(octet_views(r@) =~= Seq::empty());
                r
            },
        }
    }

    /// `Searches`: the search domains.
    pub fn searches(&self) -> (r: Vec<String>)
        ensures
            text::string_views(r@) == match v6_view(self.outcome) {
                Some(ipv6) => ipv6.search_domains,
                None => Seq::empty(),
            },
    {
        match self.outcome {
            Some(ipv6) => copy_strings(&ipv6.search_domains),
            None => {
                let r: Vec<String> = Vec::new();
                assert(text::string_views(r@) =~= Seq::empty());
                r
            },
        }
    }
}

// --- DHCP4Config -------------------------------------------------------------------------------------

/// The texts of IPv4 addresses.
pub open spec fn v4_texts(addresses: Seq<Ipv4Addr>) -> Seq<Seq<char>> {
    addresses.map_values(|address: Ipv4Addr| address.text())
}

/// The texts of IPv4 addresses, with commas between them.
fn comma_list(addresses: &Vec<Ipv4Addr>) -> (r: String)
    ensures
        r@ == text::join(v4_texts(addresses@), ','),
{
    let ghost texts = v4_texts(addresses@);
    let mut r: String = String::new();
    let mut i: usize = addresses.len();
    assert(texts.skip(i as int) =~= Seq::empty());
    while i > 0
        invariant
            i <= addresses@.len(),
            texts == v4_texts(addresses@),
            r@ == text::join(texts.skip(i as int), ','),
        decreases i,
    {
        i = i - 1;
        let mut piece: String = addresses[i].to_string();
        let ghost rest = texts.skip(i as int);
        assert(rest[0] == addresses@[i as int].text());
        assert(rest.skip(1) =~= texts.skip(i + 1));
        if i + 1 < addresses.len() {
            piece.push(',');
            piece.append(r.as_str());
        }
        assert(piece@ =~= text::join(rest, ','));
        r = piece;
    }
    assert(texts.skip(0) =~= texts);
    r
}

/// The subnet mask of a prefix length.
pub open spec fn mask_of(prefix_length: u8) -> Ipv4Addr {
    Ipv4Addr { bits: (0x1_0000_0000 - net::host_count(32, prefix_length as nat)) as u32 }
}

/// The broadcast address of an address and a prefix length.
pub open spec fn broadcast_of(address: Ipv4Addr, prefix_length: u8) -> Ipv4Addr {
    Ipv4Addr {
        bits: (net::network(address.bits as nat, 32, prefix_length as nat) + net::host_count(
            32,
            prefix_length as nat,
        ) - 1) as u32,
    }
}

/// The options that a lease adds, when it is read at a time in seconds, or at one
/// that is not known.
pub open spec fn lease_options(ipv4: Ipv4OutcomeView, lease: DhcpLeaseView, now: Option<u64>) -> SectionView {
    let server = match lease.server_identifier {
        Some(server) => seq![("dhcp_server_identifier"@, ValueView::Str(server.text()))],
        None => SectionView::empty(),
    };
    let time = match lease.lease_seconds {
        Some(seconds) => seq![
            ("dhcp_lease_time"@, ValueView::Str(text::decimal(seconds as nat))),
            (
                "expiry"@,
                ValueView::Str(
                    text::decimal(
                        match now {
                            Some(now) => (now + seconds) as nat,
                            None => 0,
                        },
                    ),
                ),
            ),
        ],
        None => SectionView::empty(),
    };
    server + time + seq![
        (
            "broadcast_address"@,
            ValueView::Str(broadcast_of(ipv4.address, ipv4.prefix_length).text()),
        ),
    ]
}

/// The options of an IPv4 configuration, but for those of its lease.
pub open spec fn base_options(ipv4: Ipv4OutcomeView) -> SectionView {
    let routers = match ipv4.gateway {
        Some(gateway) => seq![("routers"@, ValueView::Str(gateway.text()))],
        None => SectionView::empty(),
    };
    let found = v4_among(ipv4.dns_servers);
    let servers = if found.len() > 0 {
        seq![("domain_name_servers"@, ValueView::Str(text::join(v4_texts(found), ',')))]
    } else {
        SectionView::empty()
    };
    seq![
        ("ip_address"@, ValueView::Str(ipv4.address.text())),
        ("ip_prefix"@, ValueView::U32(ipv4.prefix_length as u32)),
        ("subnet_mask"@, ValueView::Str(mask_of(ipv4.prefix_length).text())),
    ] + routers + servers
}

/// The options of an IPv4 configuration.
pub open spec fn options_of(ipv4: Ipv4OutcomeView, now: Option<u64>) -> SectionView {
    base_options(ipv4) + match ipv4.lease {
        Some(lease) => lease_options(ipv4, lease, now),
        None => SectionView::empty(),
    }
}

fn push_base_options(options: &mut Section, ipv4: &Ipv4Outcome)
    requires
        old(options)@ == SectionView::empty(),
    ensures
        final(options)@ == base_options(ipv4@),
{
    options.push("ip_address", Value::Str(ipv4.address.to_string()));
    options.push("ip_prefix", Value::U32(ipv4.prefix_length as u32));
    let mask: Ipv4Addr = subnet_mask(ipv4.prefix_length);
    options.push("subnet_mask", Value::Str(mask.to_string()));
    let ghost head = seq![
        ("ip_address"@, ValueView::Str(ipv4@.address.text())),
        ("ip_prefix"@, ValueView::U32(ipv4@.prefix_length as u32)),
        ("subnet_mask"@, ValueView::Str(mask_of(ipv4@.prefix_length).text())),
    ];
    assert(options@ =~= head);
    let ghost routers = match ipv4@.gateway {
        Some(gateway) => seq![("routers"@, ValueView::Str(gateway.text()))],
        None => SectionView::empty(),
    };
    if let Some(gateway) = ipv4.gateway {
        options.push("routers", Value::Str(gateway.to_string()));
    }
    assert(options@ =~= head + routers);
    let servers: Vec<Ipv4Addr> = v4_servers(&ipv4.dns_servers);
    if servers.len() > 0 {
        options.push("domain_name_servers", Value::Str(comma_list(&servers)));
    }
    assert(options@ =~= base_options(ipv4@));
}

fn push_lease_options(
    options: &mut Section,
    ipv4: &Ipv4Outcome,
    lease: &DhcpLease,
    now: Option<u64>,
)
    requires
        now is Some ==> now->0 <= u64::MAX - u32::MAX,
    ensures
        final(options)@ == old(options)@ + lease_options(ipv4@, lease@, now),
{
    let ghost start = options@;
    let ghost server_part = match lease@.server_identifier {
        Some(server) => seq![("dhcp_server_identifier"@, ValueView::Str(server.text()))],
        None => SectionView::empty(),
    };
    if let Some(server) = lease.server_identifier {
        options.push("dhcp_server_identifier", Value::Str(server.to_string()));
    }
    assert(options@ =~= start + server_part);
    let ghost middle = options@;
    if let Some(seconds) = lease.lease_seconds {
        options.push("dhcp_lease_time", Value::Str(decimal_text(seconds as u64)));
        let expiry: u64 = match now {
            Some(now) => now + seconds as u64,
            None => 0,
        };
        options.push("expiry", Value::Str(decimal_text(expiry)));
    }
    let ghost timed = options@;
    let broadcast: Ipv4Addr = broadcast_address(ipv4.address, ipv4.prefix_length);
    options.push("broadcast_address", Value::Str(broadcast.to_string()));
    assert(options@ =~= start + lease_options(ipv4@, lease@, now));
}

/// `DHCP4Config.Options` of an active connection, when they are read at a time in
/// seconds since the epoch, or at one that is not known.
pub fn dhcp4_options(outcome: Option<&Ipv4Outcome>, now: Option<u64>) -> (r: Section)
    requires
        now is Some ==> now->0 <= u64::MAX - u32::MAX,
    ensures
        r@ == match v4_view(outcome) {
            Some(ipv4) => options_of(ipv4, now),
            None => SectionView::empty(),
        },
{
    let mut options: Section = Section::new();
    let ipv4: &Ipv4Outcome = match outcome {
        None => {
            return options;
        },
        Some(ipv4) => ipv4,
    };
    push_base_options(&mut options, ipv4);
    if let Some(lease) = &ipv4.lease {
        push_lease_options(&mut options, ipv4, lease, now);
    }
    assert(options@ =~= options_of(ipv4@, now));
    options
}

} // verus!
