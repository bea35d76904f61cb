//! Linux IP orchestration engine.
//!
//! [`LinuxIpEngine`] brings IP configuration up and down for a connection
//! activation. It composes the address/route configurator, the DHCP client and
//! the DNS manager into one flow:
//!
//! 1. obtain an address either from DHCP (`IpMethod::Automatic`) or from the
//!    profile (`IpMethod::Manual`),
//! 2. install the address, the default route and the static routes,
//! 3. apply the effective DNS configuration,
//! 4. hand back an [`ActiveIpState`] that can tear everything down again.
//!
//! What the engine did is stated over the calls that the three components
//! received, together with their replies: a [`Trace`].

use vstd::prelude::*;

use crate::bytes;
use crate::bytes::to_unsigned;
use crate::connection::ip;
use crate::connection::ip::{
    copy_lease, ActivationOutcome, ActivationOutcomeView, ActiveIpState, ActiveIpStateView,
    ActiveIpv4, ActiveIpv4View, ActiveIpv6, ActiveIpv6View, DhcpCall, DhcpClient, DhcpError,
    DhcpLease, DhcpLeaseView, DhcpRequest, DhcpRequestView, DnsCall, DnsConfig, DnsConfigView,
    DnsError, DnsManager, DnsOwnership, IpCall, IpConfigError, IpConfigurator, Ipv4Config,
    Ipv4Outcome, Ipv4OutcomeView, Ipv4Source, Ipv6Config, Ipv6Outcome, Ipv6OutcomeView, Ipv6Source,
};
use crate::connection::profile::{IpConfig, IpConfigView, IpMethod};
use crate::linux::ipconfig;
use crate::linux::ipconfig::{default_route_v4, default_route_v6};
use crate::linux::model::{Address, IpFamily, Link, NetlinkError, Route, RouteKind, RouteScope};
use crate::net;
use crate::net::{network_v4, network_v6, IpAddr, Ipv4Addr, Ipv6Addr};
use crate::text;
use crate::text::{concat2, concat3, copy_strings, quoted, same_text};

verus! {

// --- Observations -----------------------------------------------------------------------

/// The index of the first link with a name.
pub open spec fn index_named(links: Seq<Link>, name: Seq<char>) -> Option<i32>
    decreases links.len(),
{
    if links.len() == 0 {
        None
    } else if links[0].name@ == name {
        Some(links[0].index)
    } else {
        index_named(links.skip(1), name)
    }
}

/// Resolves a network interface's kernel index from its name.
pub fn resolve_interface_index(links: &Vec<Link>, interface_name: &str) -> (r: Result<
    i32,
    IpEngineError,
>)
    ensures
        match index_named(links@, interface_name@) {
            Some(index) => r == Ok::<i32, IpEngineError>(index),
            None => r matches Err(IpEngineError::InterfaceNotFound(name)) && name@
                == interface_name@,
        },
{
    let ghost all = links@;
    let mut i: usize = 0;
    assert(all.skip(0) =~= all);
    while i < links.len()
        invariant
            i <= links@.len(),
            all == links@,
            index_named(all, interface_name@) == index_named(all.skip(i as int), interface_name@),
        decreases links@.len() - i,
    {
        assert(all.skip(i as int)[0] == all[i as int]);
        assert(all.skip(i as int).skip(1) =~= all.skip(i + 1));
        if same_text(links[i].name.as_str(), interface_name) {
            return Ok(links[i].index);
        }
        i = i + 1;
    }
    Err(IpEngineError::InterfaceNotFound(interface_name.to_owned()))
}

/// The first link-local IPv6 address of an interface.
pub open spec fn link_local_in(addresses: Seq<Address>, interface_index: i32) -> Option<Ipv6Addr>
    decreases addresses.len(),
{
    if addresses.len() == 0 {
        None
    } else {
        match addresses[0].address {
            IpAddr::V6(address) if addresses[0].interface_index == bytes::unsigned32(
                interface_index as int,
            ) && address.link_local() => Some(address),
            _ => link_local_in(addresses.skip(1), interface_index),
        }
    }
}

/// The link-local IPv6 address the kernel assigned to an interface, if any.
pub fn link_local_address(addresses: &Vec<Address>, interface_index: i32) -> (r: Option<Ipv6Addr>)
    ensures
        r == link_local_in(addresses@, interface_index),
{
    let number: u32 = to_unsigned(interface_index);
    let ghost all = addresses@;
    let mut i: usize = 0;
    assert(all.skip(0) =~= all);
    while i < addresses.len()
        invariant
            i <= addresses@.len(),
            all == addresses@,
            number == bytes::unsigned32(interface_index as int),
            link_local_in(all, interface_index) == link_local_in(
                all.skip(i as int),
                interface_index,
            ),
        decreases addresses@.len() - i,
    {
        assert(all.skip(i as int)[0] == all[i as int]);
        assert(all.skip(i as int).skip(1) =~= all.skip(i + 1));
        match addresses[i].address {
            IpAddr::V6(address) => {
                if addresses[i].interface_index == number && address.is_unicast_link_local() {
                    return Some(address);
                }
            },
            IpAddr::V4(_) => {},
        }
        i = i + 1;
    }
    None
}

// --- Errors ---------------------------------------------------------------------------------

/// Errors from orchestrating IP configuration.
#[derive(Debug, PartialEq, Eq)]
pub enum IpEngineError {
    Netlink(NetlinkError),
    IpConfig(IpConfigError),
    Dhcp(DhcpError),
    Dns(DnsError),
    InvalidConfig(&'static str),
    InterfaceNotFound(String),
}

impl IpEngineError {
    /// What the error says of itself.
    pub open spec fn text(self) -> Seq<char> {
        match self {
            IpEngineError::Netlink(err) => "netlink: "@ + err.text(),
            IpEngineError::IpConfig(err) => err.text(),
            IpEngineError::Dhcp(err) => "dhcp: "@ + err.text(),
            IpEngineError::Dns(err) => err.text(),
            IpEngineError::InvalidConfig(msg) => "invalid IP configuration: "@ + msg@,
            IpEngineError::InterfaceNotFound(name) => "no network interface named "@ + text::quoted_text(
                name@,
            ) + " is present"@,
        }
    }

    /// Describes the error.
    pub fn to_string(&self) -> (r: String)
        ensures
            r@ == self.text(),
    {
        match self {
            IpEngineError::Netlink(err) => concat2("netlink: ", err.to_string().as_str()),
            IpEngineError::IpConfig(err) => err.to_string(),
            IpEngineError::Dhcp(err) => concat2("dhcp: ", err.to_string().as_str()),
            IpEngineError::Dns(err) => err.to_string(),
            IpEngineError::InvalidConfig(msg) => concat2("invalid IP configuration: ", msg),
            IpEngineError::InterfaceNotFound(name) => concat3(
                "no network interface named ",
                quoted(name.as_str()).as_str(),
                " is present",
            ),
        }
    }
}

impl From<NetlinkError> for IpEngineError {
    fn from(value: NetlinkError) -> (r: Self) {
        IpEngineError::Netlink(value)
    }
}

impl vstd::std_specs::convert::FromSpecImpl<NetlinkError> for IpEngineError {
    open spec fn obeys_from_spec() -> bool {
        true
    }

    open spec fn from_spec(value: NetlinkError) -> Self {
        IpEngineError::Netlink(value)
    }
}

impl From<IpConfigError> for IpEngineError {
    fn from(value: IpConfigError) -> (r: Self) {
        IpEngineError::IpConfig(value)
    }
}

impl vstd::std_specs::convert::FromSpecImpl<IpConfigError> for IpEngineError {
    open spec fn obeys_from_spec() -> bool {
        true
    }

    open spec fn from_spec(value: IpConfigError) -> Self {
        IpEngineError::IpConfig(value)
    }
}

impl From<DhcpError> for IpEngineError {
    fn from(value: DhcpError) -> (r: Self) {
        IpEngineError::Dhcp(value)
    }
}

impl vstd::std_specs::convert::FromSpecImpl<DhcpError> for IpEngineError {
    open spec fn obeys_from_spec() -> bool {
        true
    }

    open spec fn from_spec(value: DhcpError) -> Self {
        IpEngineError::Dhcp(value)
    }
}

impl From<DnsError> for IpEngineError {
    fn from(value: DnsError) -> (r: Self) {
        IpEngineError::Dns(value)
    }
}

impl vstd::std_specs::convert::FromSpecImpl<DnsError> for IpEngineError {
    open spec fn obeys_from_spec() -> bool {
        true
    }

    open spec fn from_spec(value: DnsError) -> Self {
        IpEngineError::Dns(value)
    }
}

// --- Routes -----------------------------------------------------------------------------------

/// The connected route the kernel installs for an address (`net/prefix dev`).
pub open spec fn connected(interface_index: i32, address: IpAddr, prefix_length: u8) -> Route {
    Route {
        family: match address {
            IpAddr::V4(_) => IpFamily::V4,
            IpAddr::V6(_) => IpFamily::V6,
        },
        destination: net::network_of(address, prefix_length as nat),
        prefix_length,
        gateway: None,
        output_interface: Some(interface_index),
        metric: None,
        kind: RouteKind::Unicast,
        scope: RouteScope::Link,
    }
}

fn connected_route_v4(interface_index: i32, address: Ipv4Addr, prefix_length: u8) -> (r: Route)
    ensures
        r == connected(interface_index, IpAddr::V4(address), prefix_length),
{
    Route {
        family: IpFamily::V4,
        destination: IpAddr::V4(network_v4(address, prefix_length)),
        prefix_length,
        gateway: None,
        output_interface: Some(interface_index),
        metric: None,
        kind: RouteKind::Unicast,
        scope: RouteScope::Link,
    }
}

fn connected_route_v6(interface_index: i32, address: Ipv6Addr, prefix_length: u8) -> (r: Route)
    ensures
        r == connected(interface_index, IpAddr::V6(address), prefix_length),
{
    Route {
        family: IpFamily::V6,
        destination: IpAddr::V6(network_v6(address, prefix_length)),
        prefix_length,
        gateway: None,
        output_interface: Some(interface_index),
        metric: None,
        kind: RouteKind::Unicast,
        scope: RouteScope::Link,
    }
}

/// The connected and default routes an IPv4 configuration implies.
pub open spec fn implied_v4(interface_index: i32, config: Ipv4Config) -> Seq<Route> {
    seq![connected(interface_index, IpAddr::V4(config.address), config.prefix_length)]
        + match config.gateway {
        Some(gateway) => seq![ipconfig::default_v4(interface_index, gateway)],
        None => Seq::empty(),
    }
}

/// The connected and default routes an IPv4 configuration implies.
pub fn ipv4_routes_for(
    interface_index: i32,
    address: Ipv4Addr,
    prefix_length: u8,
    gateway: Option<Ipv4Addr>,
) -> (r: Vec<Route>)
    ensures
        r@ == implied_v4(interface_index, Ipv4Config { address, prefix_length, gateway }),
{
    let mut routes: Vec<Route> = Vec::new();
    routes.push(connected_route_v4(interface_index, address, prefix_length));
    if let Some(gateway) = gateway {
        routes.push(default_route_v4(interface_index, gateway));
    }
    assert(routes@ =~= implied_v4(interface_index, Ipv4Config { address, prefix_length, gateway }));
    routes
}

/// The connected and default routes an IPv6 configuration implies.
pub open spec fn implied_v6(interface_index: i32, config: Ipv6Config) -> Seq<Route> {
    seq![connected(interface_index, IpAddr::V6(config.address), config.prefix_length)]
        + match config.gateway {
        Some(gateway) => seq![ipconfig::default_v6(interface_index, gateway)],
        None => Seq::empty(),
    }
}

/// The connected and default routes an IPv6 configuration implies.
pub fn ipv6_routes_for(
    interface_index: i32,
    address: Ipv6Addr,
    prefix_length: u8,
    gateway: Option<Ipv6Addr>,
) -> (r: Vec<Route>)
    ensures
        r@ == implied_v6(interface_index, Ipv6Config { address, prefix_length, gateway }),
{
    let mut routes: Vec<Route> = Vec::new();
    routes.push(connected_route_v6(interface_index, address, prefix_length));
    if let Some(gateway) = gateway {
        routes.push(default_route_v6(interface_index, gateway));
    }
    assert(routes@ =~= implied_v6(interface_index, Ipv6Config { address, prefix_length, gateway }));
    routes
}

/// The routes of a family, in order.
pub open spec fn of_family(routes: Seq<Route>, family: IpFamily) -> Seq<Route>
    decreases routes.len(),
{
    if routes.len() == 0 {
        Seq::empty()
    } else if routes.last().family == family {
        of_family(routes.drop_last(), family).push(routes.last())
    } else {
        of_family(routes.drop_last(), family)
    }
}

/// The static routes that a configuration installs: only routes whose family
/// matches are honoured. A route of the other family is a mistake of the
/// profile and is ignored rather than installed.
pub fn static_routes(config: &IpConfig, family: IpFamily) -> (r: Vec<Route>)
    ensures
        r@ == of_family(config@.routes, family),
{
    let mut out: Vec<Route> = Vec::new();
    let mut i: usize = 0;
    let ghost all = config.routes@;
    assert(all.take(0) =~= Seq::empty());
    while i < config.routes.len()
        invariant
            i <= config.routes@.len(),
            all == config.routes@,
            out@ == of_family(all.take(i as int), family),
        decreases config.routes@.len() - i,
    {
        let route: Route = config.routes[i];
        if route.family == family {
            out.push(route);
        }
        i = i + 1;
        assert(all.take(i as int).drop_last() =~= all.take(i - 1));
        assert(all.take(i as int).last() == all[i - 1]);
    }
    assert(all.take(i as int) =~= all);
    out
}

fn append_routes(out: &mut Vec<Route>, more: &Vec<Route>)
    ensures
        final(out)@ == old(out)@ + more@,
{
    let mut i: usize = 0;
    assert(out@ =~= old(out)@ + more@.take(0));
    while i < more.len()
        invariant
            i <= more@.len(),
            out@ == old(out)@ + more@.take(i as int),
        decreases more@.len() - i,
    {
        out.push(more[i]);
        i = i + 1;
        assert(out@ =~= old(out)@ + more@.take(i as int));
    }
    assert(more@.take(i as int) =~= more@);
}

// --- Traces -------------------------------------------------------------------------------------

/// A call that one of the components of an engine received.
pub enum EngineCall {
    Ip(IpCall),
    Dhcp(DhcpCall),
    Dns(DnsCall),
}

/// Calls to the configurator, as calls of an engine.
pub open spec fn of_ip(calls: Seq<IpCall>) -> Seq<EngineCall> {
    calls.map_values(|call: IpCall| EngineCall::Ip(call))
}

/// Calls to the DHCP client, as calls of an engine.
pub open spec fn of_dhcp(calls: Seq<DhcpCall>) -> Seq<EngineCall> {
    calls.map_values(|call: DhcpCall| EngineCall::Dhcp(call))
}

/// Calls to the DNS manager, as calls of an engine.
pub open spec fn of_dns(calls: Seq<DnsCall>) -> Seq<EngineCall> {
    calls.map_values(|call: DnsCall| EngineCall::Dns(call))
}

/// The calls that the components of an engine received, with their replies: those
/// of each component, and all of them in the order they were made.
#[verifier::ext_equal]
pub struct Trace {
    pub ip: Seq<IpCall>,
    pub dhcp: Seq<DhcpCall>,
    pub dns: Seq<DnsCall>,
    pub order: Seq<EngineCall>,
}

impl Trace {
    /// No calls.
    pub open spec fn nothing() -> Self {
        Trace { ip: Seq::empty(), dhcp: Seq::empty(), dns: Seq::empty(), order: Seq::empty() }
    }

    /// Calls, and then more.
    pub open spec fn plus(self, more: Trace) -> Self {
        Trace {
            ip: self.ip + more.ip,
            dhcp: self.dhcp + more.dhcp,
            dns: self.dns + more.dns,
            order: self.order + more.order,
        }
    }

    /// Calls to the configurator only.
    pub open spec fn only_ip(ip: Seq<IpCall>) -> Self {
        Trace { ip, dhcp: Seq::empty(), dns: Seq::empty(), order: of_ip(ip) }
    }

    /// Calls to the DHCP client only.
    pub open spec fn only_dhcp(dhcp: Seq<DhcpCall>) -> Self {
        Trace { ip: Seq::empty(), dhcp, dns: Seq::empty(), order: of_dhcp(dhcp) }
    }

    /// Calls to the DNS manager only.
    pub open spec fn only_dns(dns: Seq<DnsCall>) -> Self {
        Trace { ip: Seq::empty(), dhcp: Seq::empty(), dns, order: of_dns(dns) }
    }
}

proof fn lemma_only(a: Seq<IpCall>, b: Seq<IpCall>)
    ensures
        Trace::only_ip(a + b) == Trace::only_ip(a).plus(Trace::only_ip(b)),
        Trace::only_ip(Seq::empty()) == Trace::nothing(),
        Trace::only_dhcp(Seq::empty()) == Trace::nothing(),
        Trace::only_dns(Seq::empty()) == Trace::nothing(),
{
    assert(of_ip(a + b) =~= of_ip(a) + of_ip(b));
    assert(Trace::only_ip(a + b) =~= Trace::only_ip(a).plus(Trace::only_ip(b)));
    assert(Trace::only_ip(Seq::empty()) =~= Trace::nothing());
    assert(Trace::only_dhcp(Seq::empty()) =~= Trace::nothing());
    assert(Trace::only_dns(Seq::empty()) =~= Trace::nothing());
}

proof fn lemma_plus(a: Trace, b: Trace, c: Trace)
    ensures
        a.plus(b).plus(c) == a.plus(b.plus(c)),
        a.plus(Trace::nothing()) == a,
        Trace::nothing().plus(a) == a,
{
    assert(a.plus(b).plus(c) =~= a.plus(b.plus(c)));
    assert(a.plus(Trace::nothing()) =~= a);
    assert(Trace::nothing().plus(a) =~= a);
}

/// The reply to a call of the configurator.
pub open spec fn reply_of(call: IpCall) -> Result<(), IpConfigError> {
    match call {
        IpCall::ConfigureIpv4 { reply, .. } => reply,
        IpCall::RemoveIpv4 { reply, .. } => reply,
        IpCall::ConfigureIpv6 { reply, .. } => reply,
        IpCall::RemoveIpv6 { reply, .. } => reply,
        IpCall::AddRoute { reply, .. } => reply,
        IpCall::RemoveRoute { reply, .. } => reply,
    }
}

/// Whether calls add routes one at a time, up to the first one that fails.
pub open spec fn adds(calls: Seq<IpCall>, routes: Seq<Route>) -> bool {
    &&& calls.len() <= routes.len()
    &&& forall|i: int|
        0 <= i < calls.len() ==> {
            &&& (#[trigger] calls[i]) is AddRoute
            &&& calls[i]->AddRoute_route == routes[i]
            &&& i < calls.len() - 1 ==> reply_of(calls[i]) is Ok
        }
    &&& calls.len() < routes.len() ==> calls.len() > 0 && reply_of(calls.last()) is Err
}

/// Whether calls install an IPv4 configuration and static routes, up to the
/// first call that fails.
pub open spec fn configures_v4(
    calls: Seq<IpCall>,
    interface_index: i32,
    config: Ipv4Config,
    routes: Seq<Route>,
) -> bool {
    &&& calls.len() > 0
    &&& calls[0] == (IpCall::ConfigureIpv4 { interface_index, config, reply: reply_of(calls[0]) })
    &&& if reply_of(calls[0]) is Err {
        calls.len() == 1
    } else {
        adds(calls.skip(1), routes)
    }
}

/// Whether calls install an IPv6 configuration and static routes, up to the
/// first call that fails.
pub open spec fn configures_v6(
    calls: Seq<IpCall>,
    interface_index: i32,
    config: Ipv6Config,
    routes: Seq<Route>,
) -> bool {
    &&& calls.len() > 0
    &&& calls[0] == (IpCall::ConfigureIpv6 { interface_index, config, reply: reply_of(calls[0]) })
    &&& if reply_of(calls[0]) is Err {
        calls.len() == 1
    } else {
        adds(calls.skip(1), routes)
    }
}

/// Whether calls remove routes, each whatever became of the others.
pub open spec fn removes(calls: Seq<IpCall>, routes: Seq<Route>) -> bool {
    &&& calls.len() == routes.len()
    &&& forall|i: int|
        0 <= i < calls.len() ==> (#[trigger] calls[i]) is RemoveRoute
            && calls[i]->RemoveRoute_route == routes[i]
}

// --- The IPv4 phase --------------------------------------------------------------------------------

/// Where an IPv4 configuration came from, and what goes with it.
#[verifier::ext_equal]
pub struct Ipv4Plan {
    pub interface_index: i32,
    pub config: Ipv4Config,
    pub routes: Seq<Route>,
    pub dns: DnsConfigView,
    pub lease: Option<DhcpLeaseView>,
    pub source: Ipv4Source,
}

impl Ipv4Plan {
    /// The routes that the connection is said to have.
    pub open spec fn all_routes(self) -> Seq<Route> {
        implied_v4(self.interface_index, self.config) + self.routes
    }

    /// The state that tears the configuration down again.
    pub open spec fn state(self) -> ActiveIpv4View {
        ActiveIpv4View {
            interface_index: self.interface_index,
            address: self.config.address,
            prefix_length: self.config.prefix_length,
            lease: self.lease,
            routes: self.all_routes(),
            source: self.source,
        }
    }

    /// What is reported of the configuration.
    pub open spec fn outcome(self) -> Ipv4OutcomeView {
        Ipv4OutcomeView {
            address: self.config.address,
            prefix_length: self.config.prefix_length,
            gateway: self.config.gateway,
            dns_servers: self.dns.servers,
            search_domains: self.dns.search_domains,
            source: self.source,
            routes: self.all_routes(),
            lease: self.lease,
        }
    }
}

/// How a phase ended.
#[verifier::ext_equal]
pub struct Ipv4End {
    pub ipv4: Option<ActiveIpv4View>,
    pub dns_owner: Option<DnsOwnership>,
    pub outcome: Option<Ipv4OutcomeView>,
    pub result: Result<(), IpEngineError>,
}

/// Whether calls to the configurator and the DNS manager carry out a plan, and
/// what that leads to. DNS is applied only when there is something to apply and
/// everything before it succeeded. The state is there from the start, so that a
/// failure can be undone.
pub open spec fn carries_out(
    ip: Seq<IpCall>,
    dns: Seq<DnsCall>,
    plan: Ipv4Plan,
    owner: Seq<char>,
    end: Ipv4End,
) -> bool {
    let servers = plan.dns.servers.len() == 0 && plan.dns.search_domains.len() == 0;
    &&& configures_v4(ip, plan.interface_index, plan.config, plan.routes)
    &&& end.ipv4 == Some(plan.state())
    &&& match reply_of(ip.last()) {
        Err(e) => {
            &&& dns.len() == 0
            &&& end.dns_owner is None
            &&& end.outcome is None
            &&& end.result == Err::<(), IpEngineError>(IpEngineError::IpConfig(e))
        },
        Ok(()) => if servers {
            &&& dns.len() == 0
            &&& end.dns_owner is None
            &&& end.outcome == Some(plan.outcome())
            &&& end.result is Ok
        } else {
            &&& dns.len() == 1
            &&& dns[0] matches DnsCall::Apply { owner: named, config, reply }
            &&& named == owner
            &&& config == plan.dns
            &&& match reply {
                Err(e) => {
                    &&& end.dns_owner is None
                    &&& end.outcome is None
                    &&& end.result == Err::<(), IpEngineError>(IpEngineError::Dns(e))
                },
                Ok(ownership) => {
                    &&& end.dns_owner == Some(ownership)
                    &&& end.outcome == Some(plan.outcome())
                    &&& end.result is Ok
                },
            }
        },
    }
}

/// The request for a lease on an interface.
pub open spec fn lease_request(interface_index: i32, interface_name: Seq<char>) -> DhcpRequestView {
    DhcpRequestView {
        interface_index,
        interface_name,
        hostname: None,
        requested_address: None,
        timeout_millis: 0,
    }
}

/// The plan that a lease leads to.
pub open spec fn lease_plan(interface_index: i32, lease: DhcpLeaseView, ipv4: IpConfigView) -> Ipv4Plan {
    Ipv4Plan {
        interface_index,
        config: Ipv4Config {
            address: lease.address,
            prefix_length: lease.prefix_length,
            gateway: lease.gateway,
        },
        routes: of_family(ipv4.routes, IpFamily::V4),
        dns: DnsConfigView {
            search_domains: lease.search_domains,
            servers: lease.dns_servers.map_values(|server: Ipv4Addr| IpAddr::V4(server)),
        },
        lease: Some(lease),
        source: Ipv4Source::AutomaticDhcp,
    }
}

/// The IPv4 address that an optional address is.
pub open spec fn as_v4(address: Option<IpAddr>) -> Option<Ipv4Addr> {
    match address {
        Some(IpAddr::V4(value)) => Some(value),
        _ => None,
    }
}

/// The IPv6 address that an optional address is.
pub open spec fn as_v6(address: Option<IpAddr>) -> Option<Ipv6Addr> {
    match address {
        Some(IpAddr::V6(value)) => Some(value),
        _ => None,
    }
}

/// The plan that a manual configuration is, or why it is none.
pub open spec fn manual_plan(interface_index: i32, ipv4: IpConfigView) -> Result<
    Ipv4Plan,
    IpEngineError,
> {
    match (as_v4(ipv4.address), ipv4.prefix_length) {
        (None, _) => Err(IpEngineError::InvalidConfig("manual IPv4 needs a valid IPv4 address")),
        (_, None) => Err(IpEngineError::InvalidConfig("manual IPv4 needs a prefix length")),
        (Some(address), Some(prefix_length)) => Ok(
            Ipv4Plan {
                interface_index,
                config: Ipv4Config { address, prefix_length, gateway: as_v4(ipv4.gateway) },
                routes: of_family(ipv4.routes, IpFamily::V4),
                dns: DnsConfigView { search_domains: Seq::empty(), servers: ipv4.dns_servers },
                lease: None,
                source: Ipv4Source::Manual,
            },
        ),
    }
}

/// The end of a phase that changed nothing.
pub open spec fn untouched(result: Result<(), IpEngineError>) -> Ipv4End {
    Ipv4End { ipv4: None, dns_owner: None, outcome: None, result }
}

/// Whether calls bring up the IPv4 configuration of a profile, and what that
/// leads to. The lease comes first, then the configuration, then DNS.
pub open spec fn brings_up_v4(
    trace: Trace,
    interface_index: i32,
    interface_name: Seq<char>,
    ipv4: IpConfigView,
    owner: Seq<char>,
    end: Ipv4End,
) -> bool {
    &&& trace.order == of_dhcp(trace.dhcp) + of_ip(trace.ip) + of_dns(trace.dns)
    &&& match ipv4.method {
        IpMethod::Disabled => trace == Trace::nothing() && end == untouched(Ok(())),
        IpMethod::Automatic => {
            &&& trace.dhcp.len() == 1
            &&& trace.dhcp[0] matches DhcpCall::Acquire { request, reply }
            &&& request == lease_request(interface_index, interface_name)
            &&& match reply {
                Err(e) => {
                    &&& trace.ip.len() == 0
                    &&& trace.dns.len() == 0
                    &&& end == untouched(Err(IpEngineError::Dhcp(e)))
                },
                Ok(lease) => carries_out(
                    trace.ip,
                    trace.dns,
                    lease_plan(interface_index, lease, ipv4),
                    owner,
                    end,
                ),
            }
        },
        IpMethod::Manual => match manual_plan(interface_index, ipv4) {
            Err(e) => trace == Trace::nothing() && end == untouched(Err(e)),
            Ok(plan) => trace.dhcp.len() == 0 && carries_out(
                trace.ip,
                trace.dns,
                plan,
                owner,
                end,
            ),
        },
    }
}

// --- The IPv6 phase -----------------------------------------------------------------------------------

/// The state that tears a manual IPv6 configuration down again.
pub open spec fn state_v6(interface_index: i32, config: Ipv6Config, routes: Seq<Route>) -> ActiveIpv6View {
    ActiveIpv6View {
        interface_index,
        link_local: Some(config.address),
        prefix_length: config.prefix_length,
        routes: implied_v6(interface_index, config) + routes,
        source: Ipv6Source::Manual,
    }
}

/// What is reported of a manual IPv6 configuration.
pub open spec fn outcome_v6(
    interface_index: i32,
    config: Ipv6Config,
    routes: Seq<Route>,
    dns_servers: Seq<IpAddr>,
) -> Ipv6OutcomeView {
    Ipv6OutcomeView {
        address: Some(config.address),
        prefix_length: config.prefix_length,
        gateway: config.gateway,
        dns_servers,
        search_domains: Seq::empty(),
        routes: implied_v6(interface_index, config) + routes,
        link_local: None,
        source: Ipv6Source::Manual,
    }
}

/// The IPv6 configuration that a manual profile gives, or why it gives none.
pub open spec fn manual_v6(ipv6: IpConfigView) -> Result<Ipv6Config, IpEngineError> {
    match (as_v6(ipv6.address), ipv6.prefix_length) {
        (None, _) => Err(IpEngineError::InvalidConfig("manual IPv6 needs a valid IPv6 address")),
        (_, None) => Err(IpEngineError::InvalidConfig("manual IPv6 needs a prefix length")),
        (Some(address), Some(prefix_length)) => Ok(
            Ipv6Config { address, prefix_length, gateway: as_v6(ipv6.gateway) },
        ),
    }
}

/// How the IPv6 phase ended.
#[verifier::ext_equal]
pub struct Ipv6End {
    pub ipv6: Option<ActiveIpv6View>,
    pub outcome: Option<Ipv6OutcomeView>,
    pub result: Result<(), IpEngineError>,
}

/// Whether calls bring up the IPv6 configuration of a profile, and what that
/// leads to. The automatic method leaves the address to the kernel and reports
/// the link-local one.
pub open spec fn brings_up_v6(
    trace: Trace,
    interface_index: i32,
    ipv6: IpConfigView,
    link_local: Option<Ipv6Addr>,
    end: Ipv6End,
) -> bool {
    &&& trace.order == of_ip(trace.ip)
    &&& match ipv6.method {
        IpMethod::Disabled => trace == Trace::nothing() && end == (Ipv6End {
            ipv6: None,
            outcome: None,
            result: Ok(()),
        }),
        IpMethod::Automatic => trace == Trace::nothing() && end == (Ipv6End {
            ipv6: None,
            outcome: Some(
                Ipv6OutcomeView {
                    address: None,
                    prefix_length: 64,
                    gateway: None,
                    dns_servers: Seq::empty(),
                    search_domains: Seq::empty(),
                    routes: Seq::empty(),
                    link_local,
                    source: Ipv6Source::AutomaticLinkLocal,
                },
            ),
            result: Ok(()),
        }),
        IpMethod::Manual => match manual_v6(ipv6) {
            Err(e) => trace == Trace::nothing() && end == (Ipv6End {
                ipv6: None,
                outcome: None,
                result: Err(e),
            }),
            Ok(config) => {
                let routes = of_family(ipv6.routes, IpFamily::V6);
                &&& trace.dhcp.len() == 0
                &&& trace.dns.len() == 0
                &&& configures_v6(trace.ip, interface_index, config, routes)
                &&& end.ipv6 == Some(state_v6(interface_index, config, routes))
                &&& match reply_of(trace.ip.last()) {
                    Err(e) => end.outcome is None && end.result == Err::<(), IpEngineError>(
                        IpEngineError::IpConfig(e),
                    ),
                    Ok(()) => end.outcome == Some(
                        outcome_v6(interface_index, config, routes, ipv6.dns_servers),
                    ) && end.result is Ok,
                }
            },
        },
    }
}

// --- Teardown ----------------------------------------------------------------------------------------------

/// The first IPv4 gateway among routes.
pub open spec fn first_gateway(routes: Seq<Route>) -> Option<Ipv4Addr>
    decreases routes.len(),
{
    if routes.len() == 0 {
        None
    } else {
        match as_v4(routes[0].gateway) {
            Some(gateway) => Some(gateway),
            None => first_gateway(routes.skip(1)),
        }
    }
}

/// The configuration that is removed for an IPv4 state.
pub open spec fn removed_v4(state: ActiveIpv4View) -> Ipv4Config {
    Ipv4Config {
        address: state.address,
        prefix_length: state.prefix_length,
        gateway: first_gateway(state.routes),
    }
}

/// The address that is removed for an IPv6 state, if there is one.
pub open spec fn removed_v6(state: ActiveIpv6View) -> Option<Ipv6Config> {
    match state.link_local {
        Some(address) if state.source == Ipv6Source::Manual => Some(
            Ipv6Config { address, prefix_length: state.prefix_length, gateway: None },
        ),
        _ => None,
    }
}

/// Whether calls remove an IPv4 state: its routes, and then its address.
pub open spec fn takes_down_v4(calls: Seq<IpCall>, state: ActiveIpv4View) -> bool {
    let n = state.routes.len() as int;
    &&& calls.len() == n + 1
    &&& removes(calls.take(n), state.routes)
    &&& calls[n] == (IpCall::RemoveIpv4 {
        interface_index: state.interface_index,
        config: removed_v4(state),
        reply: reply_of(calls[n]),
    })
}

/// Whether calls remove an IPv6 state: its routes, and then its address, if it
/// has one that was installed.
pub open spec fn takes_down_v6(calls: Seq<IpCall>, state: ActiveIpv6View) -> bool {
    let n = state.routes.len() as int;
    &&& calls.len() >= n
    &&& removes(calls.take(n), state.routes)
    &&& match removed_v6(state) {
        None => calls.len() == n,
        Some(config) => calls.len() == n + 1 && calls[n] == (IpCall::RemoveIpv6 {
            interface_index: state.interface_index,
            config,
            reply: reply_of(calls[n]),
        }),
    }
}

/// The error of a removal, if it failed.
pub open spec fn removal_error(calls: Seq<IpCall>) -> Option<IpEngineError> {
    if calls.len() == 0 {
        None
    } else {
        match calls.last() {
            IpCall::RemoveIpv4 { reply: Err(e), .. } => Some(IpEngineError::IpConfig(e)),
            IpCall::RemoveIpv6 { reply: Err(e), .. } => Some(IpEngineError::IpConfig(e)),
            _ => None,
        }
    }
}

/// The first of three errors.
pub open spec fn first_of(
    a: Option<IpEngineError>,
    b: Option<IpEngineError>,
    c: Option<IpEngineError>,
) -> Result<(), IpEngineError> {
    match (a, b, c) {
        (Some(e), _, _) => Err(e),
        (None, Some(e), _) => Err(e),
        (None, None, Some(e)) => Err(e),
        (None, None, None) => Ok(()),
    }
}

/// The calls of a teardown in the order they are made: DNS is removed, then the
/// IPv4 routes, then the lease is released, then the IPv4 address is removed, and
/// then what belongs to IPv6.
pub open spec fn teardown_order(
    trace: Trace,
    v4: int,
    ipv4: Option<ActiveIpv4View>,
) -> Seq<EngineCall> {
    let first = trace.ip.take(v4);
    let routes = match ipv4 {
        Some(ipv4) => ipv4.routes.len() as int,
        None => 0,
    };
    of_dns(trace.dns) + of_ip(first.take(routes)) + of_dhcp(trace.dhcp) + of_ip(first.skip(routes))
        + of_ip(trace.ip.skip(v4))
}

/// Whether calls release a lease, if there is one.
pub open spec fn releases(calls: Seq<DhcpCall>, lease: Option<DhcpLeaseView>) -> bool {
    match lease {
        None => calls.len() == 0,
        Some(lease) => calls.len() == 1 && calls[0] is Release && calls[0]->Release_lease == lease,
    }
}

/// Whether calls tear a state down, and with what result. Every step is
/// attempted whatever became of the others. Failures to remove a route or to
/// release the lease are ignored; of the other failures the first is reported.
/// `v4` is the number of configurator calls that belong to IPv4.
pub open spec fn tears_down(
    trace: Trace,
    v4: int,
    state: ActiveIpStateView,
    result: Result<(), IpEngineError>,
) -> bool {
    let first = trace.ip.take(v4);
    let second = trace.ip.skip(v4);
    &&& 0 <= v4 <= trace.ip.len()
    &&& match state.dns_owner {
        None => trace.dns.len() == 0,
        Some(ownership) => trace.dns.len() == 1 && trace.dns[0] is Remove
            && trace.dns[0]->Remove_ownership == ownership,
    }
    &&& match state.ipv4 {
        None => first.len() == 0 && trace.dhcp.len() == 0,
        Some(ipv4) => takes_down_v4(first, ipv4) && releases(trace.dhcp, ipv4.lease),
    }
    &&& match state.ipv6 {
        None => second.len() == 0,
        Some(ipv6) => takes_down_v6(second, ipv6),
    }
    &&& trace.order == teardown_order(trace, v4, state.ipv4)
    &&& result == first_of(dns_error(trace.dns), removal_error(first), removal_error(second))
}

/// The calls of a teardown: those to the DNS manager, those that belong to IPv4,
/// the first `routes` of which remove routes, with the release of the lease among
/// them, and those that belong to IPv6.
spec fn teardown_trace(
    dns: Seq<DnsCall>,
    up: Seq<IpCall>,
    routes: int,
    dhcp: Seq<DhcpCall>,
    down: Seq<IpCall>,
) -> Trace {
    Trace {
        ip: up + down,
        dhcp,
        dns,
        order: of_dns(dns) + of_ip(up.take(routes)) + of_dhcp(dhcp) + of_ip(up.skip(routes))
            + of_ip(down),
    }
}

proof fn lemma_teardown_trace(
    start: Trace,
    dns: Seq<DnsCall>,
    up: Seq<IpCall>,
    routes: int,
    dhcp: Seq<DhcpCall>,
    down: Seq<IpCall>,
)
    requires
        0 <= routes <= up.len(),
    ensures
        start.plus(Trace::only_dns(dns)).plus(Trace::only_ip(up.take(routes))).plus(
            Trace::only_dhcp(dhcp),
        ).plus(Trace::only_ip(up.skip(routes))).plus(Trace::only_ip(down)) == start.plus(
            teardown_trace(dns, up, routes, dhcp, down),
        ),
        teardown_trace(dns, up, routes, dhcp, down).ip.take(up.len() as int) == up,
        teardown_trace(dns, up, routes, dhcp, down).ip.skip(up.len() as int) == down,
{
    let trace = teardown_trace(dns, up, routes, dhcp, down);
    assert(trace.ip.take(up.len() as int) =~= up);
    assert(trace.ip.skip(up.len() as int) =~= down);
    assert(up =~= up.take(routes) + up.skip(routes));
    let a = of_dns(dns);
    let b = of_ip(up.take(routes));
    let c = of_dhcp(dhcp);
    let d = of_ip(up.skip(routes));
    let e = of_ip(down);
    assert(start.order + a + b + c + d + e =~= start.order + (a + b + c + d + e));
    let end = start.plus(Trace::only_dns(dns)).plus(Trace::only_ip(up.take(routes))).plus(
        Trace::only_dhcp(dhcp),
    ).plus(Trace::only_ip(up.skip(routes))).plus(Trace::only_ip(down));
    assert(end.order == start.order + a + b + c + d + e);
    assert(end.ip =~= start.ip + (up + down));
    assert(end.dhcp =~= start.dhcp + dhcp);
    assert(end.dns =~= start.dns + dns);
}

/// The error of the removal of a DNS configuration, if it failed.
pub open spec fn dns_error(calls: Seq<DnsCall>) -> Option<IpEngineError> {
    if calls.len() == 0 {
        None
    } else {
        match calls[0] {
            DnsCall::Remove { reply: Err(e), .. } => Some(IpEngineError::Dns(e)),
            _ => None,
        }
    }
}

// --- Activation --------------------------------------------------------------------------------------------

/// The parts of an activation.
#[verifier::ext_equal]
pub struct Run {
    pub up4: Trace,
    pub end4: Ipv4End,
    pub up6: Trace,
    pub end6: Ipv6End,
    pub down: Trace,
    pub down_v4: int,
    pub down_result: Result<(), IpEngineError>,
}

impl Run {
    /// The calls of the whole activation.
    pub open spec fn trace(self) -> Trace {
        self.up4.plus(self.up6).plus(self.down)
    }

    /// The state that was reached.
    pub open spec fn state(self) -> ActiveIpStateView {
        ActiveIpStateView {
            ipv4: self.end4.ipv4,
            ipv6: self.end6.ipv6,
            dns_owner: self.end4.dns_owner,
        }
    }

    /// What is reported of the configuration.
    pub open spec fn outcome(self) -> ActivationOutcomeView {
        ActivationOutcomeView {
            ipv4: self.end4.outcome,
            ipv6: self.end6.outcome,
            degradation: None,
        }
    }

    /// The error that ended the activation, if one did.
    pub open spec fn error(self) -> Option<IpEngineError> {
        match (self.end4.result, self.end6.result) {
            (Err(e), _) => Some(e),
            (Ok(()), Err(e)) => Some(e),
            (Ok(()), Ok(())) => None,
        }
    }
}

/// Whether a result tells how a run ended: the error, or what was reached and
/// what is reported of it.
pub open spec fn reports(
    run: Run,
    result: Result<(ActivationOutcome, ActiveIpState), IpEngineError>,
) -> bool {
    match result {
        Err(e) => run.error() == Some(e),
        Ok((outcome, state)) => {
            &&& run.error() is None
            &&& state@ == run.state()
            &&& outcome@ == run.outcome()
        },
    }
}

/// Whether a run is an activation of the given configurations: the IPv4 phase,
/// then the IPv6 phase if the first succeeded, and if either failed the removal
/// of everything that was reached so far.
pub open spec fn activates(
    run: Run,
    interface_index: i32,
    interface_name: Seq<char>,
    ipv4: IpConfigView,
    ipv6: IpConfigView,
    owner: Seq<char>,
    link_local: Option<Ipv6Addr>,
) -> bool {
    &&& brings_up_v4(run.up4, interface_index, interface_name, ipv4, owner, run.end4)
    &&& if run.end4.result is Ok {
        brings_up_v6(run.up6, interface_index, ipv6, link_local, run.end6)
    } else {
        run.up6 == Trace::nothing() && run.end6 == (Ipv6End {
            ipv6: None,
            outcome: None,
            result: Ok(()),
        })
    }
    &&& if run.error() is Some {
        tears_down(run.down, run.down_v4, run.state(), run.down_result)
    } else {
        run.down == Trace::nothing()
    }
}

/// Whether a run is the first half of an activation: the IPv4 phase, and if it
/// failed the removal of everything that it reached.
pub open spec fn opens(
    run: Run,
    interface_index: i32,
    interface_name: Seq<char>,
    ipv4: IpConfigView,
    owner: Seq<char>,
) -> bool {
    &&& brings_up_v4(run.up4, interface_index, interface_name, ipv4, owner, run.end4)
    &&& run.up6 == Trace::nothing()
    &&& run.end6 == (Ipv6End { ipv6: None, outcome: None, result: Ok(()) })
    &&& if run.error() is Some {
        tears_down(run.down, run.down_v4, run.state(), run.down_result)
    } else {
        run.down == Trace::nothing()
    }
}

/// Whether a run is the second half of an activation whose IPv4 phase ended in
/// `reached`: the IPv6 phase, and if it failed the removal of everything that
/// was reached so far.
pub open spec fn closes(
    run: Run,
    reached: Ipv4End,
    interface_index: i32,
    ipv6: IpConfigView,
    link_local: Option<Ipv6Addr>,
) -> bool {
    &&& run.up4 == Trace::nothing()
    &&& run.end4 == reached
    &&& brings_up_v6(run.up6, interface_index, ipv6, link_local, run.end6)
    &&& if run.error() is Some {
        tears_down(run.down, run.down_v4, run.state(), run.down_result)
    } else {
        run.down == Trace::nothing()
    }
}

/// The run that two halves make.
pub open spec fn joined(first: Run, second: Run) -> Run {
    Run { up4: first.up4, end4: first.end4, ..second }
}

/// The two halves of an activation make an activation: alone where the first
/// failed, and joined where it succeeded.
pub proof fn lemma_halves_activate(
    first: Run,
    second: Run,
    interface_index: i32,
    interface_name: Seq<char>,
    ipv4: IpConfigView,
    ipv6: IpConfigView,
    owner: Seq<char>,
    link_local: Option<Ipv6Addr>,
)
    requires
        opens(first, interface_index, interface_name, ipv4, owner),
    ensures
        first.error() is Some ==> activates(
            first,
            interface_index,
            interface_name,
            ipv4,
            ipv6,
            owner,
            link_local,
        ),
        first.error() is None && closes(
            second,
            first.end4,
            interface_index,
            ipv6,
            link_local,
        ) ==> {
            &&& activates(
                joined(first, second),
                interface_index,
                interface_name,
                ipv4,
                ipv6,
                owner,
                link_local,
            )
            &&& joined(first, second).trace() == first.trace().plus(second.trace())
            &&& joined(first, second).error() == second.error()
            &&& joined(first, second).state() == second.state()
        },
{
    if first.error() is None && closes(second, first.end4, interface_index, ipv6, link_local) {
        assert(joined(first, second).trace() =~= first.trace().plus(second.trace()));
    }
}

// --- The engine ----------------------------------------------------------------------------------------------

/// Brings IP configuration up and down for one connection activation.
pub struct LinuxIpEngine<C, D, N> {
    pub ip: C,
    pub dhcp: D,
    pub dns: N,
    /// The calls to the components, in the order they were made.
    pub order: Ghost<Seq<EngineCall>>,
}

/// What the IPv4 phase of an activation reached.
pub struct Ipv4Reached {
    pub ipv4: Option<ActiveIpv4>,
    pub dns_owner: Option<DnsOwnership>,
    pub outcome: Option<Ipv4Outcome>,
}

impl Ipv4Reached {
    pub open spec fn view(&self) -> Ipv4End {
        Ipv4End {
            ipv4: match self.ipv4 {
                Some(ipv4) => Some(ipv4@),
                None => None,
            },
            dns_owner: self.dns_owner,
            outcome: match self.outcome {
                Some(outcome) => Some(outcome@),
                None => None,
            },
            result: Ok(()),
        }
    }
}

struct Phase4 {
    ipv4: Option<ActiveIpv4>,
    dns_owner: Option<DnsOwnership>,
    outcome: Option<Ipv4Outcome>,
    result: Result<(), IpEngineError>,
}

impl Phase4 {
    spec fn view(&self) -> Ipv4End {
        Ipv4End {
            ipv4: match self.ipv4 {
                Some(ipv4) => Some(ipv4@),
                None => None,
            },
            dns_owner: self.dns_owner,
            outcome: match self.outcome {
                Some(outcome) => Some(outcome@),
                None => None,
            },
            result: self.result,
        }
    }
}

struct Phase6 {
    ipv6: Option<ActiveIpv6>,
    outcome: Option<Ipv6Outcome>,
    result: Result<(), IpEngineError>,
}

impl Phase6 {
    spec fn view(&self) -> Ipv6End {
        Ipv6End {
            ipv6: match self.ipv6 {
                Some(ipv6) => Some(ipv6@),
                None => None,
            },
            outcome: match self.outcome {
                Some(outcome) => Some(outcome@),
                None => None,
            },
            result: self.result,
        }
    }
}

/// An IPv4 configuration to install, and what goes with it.
struct Work4 {
    interface_index: i32,
    config: Ipv4Config,
    routes: Vec<Route>,
    dns: DnsConfig,
    lease: Option<DhcpLease>,
    source: Ipv4Source,
}

impl Work4 {
    spec fn view(&self) -> Ipv4Plan {
        Ipv4Plan {
            interface_index: self.interface_index,
            config: self.config,
            routes: self.routes@,
            dns: self.dns@,
            lease: ip::lease_view(self.lease),
            source: self.source,
        }
    }
}

/// Whether two results succeed together, or fail with the same error.
spec fn agrees(a: Result<(), IpConfigError>, b: Result<(), IpConfigError>) -> bool {
    match b {
        Ok(_) => a is Ok,
        Err(e) => a == Err::<(), IpConfigError>(e),
    }
}

fn untouched_phase(result: Result<(), IpEngineError>) -> (r: Phase4)
    ensures
        r@ == untouched(result),
{
    Phase4 { ipv4: None, dns_owner: None, outcome: None, result }
}

fn v4_part(address: Option<IpAddr>) -> (r: Option<Ipv4Addr>)
    ensures
        r == as_v4(address),
{
    match address {
        Some(IpAddr::V4(value)) => Some(value),
        _ => None,
    }
}

fn v6_part(address: Option<IpAddr>) -> (r: Option<Ipv6Addr>)
    ensures
        r == as_v6(address),
{
    match address {
        Some(IpAddr::V6(value)) => Some(value),
        _ => None,
    }
}

fn find_gateway(routes: &Vec<Route>) -> (r: Option<Ipv4Addr>)
    ensures
        r == first_gateway(routes@),
{
    let ghost all = routes@;
    let mut i: usize = 0;
    assert(all.skip(0) =~= all);
    while i < routes.len()
        invariant
            i <= routes@.len(),
            all == routes@,
            first_gateway(all) == first_gateway(all.skip(i as int)),
        decreases routes@.len() - i,
    {
        assert(all.skip(i as int)[0] == all[i as int]);
        assert(all.skip(i as int).skip(1) =~= all.skip(i + 1));
        match v4_part(routes[i].gateway) {
            Some(gateway) => {
                return Some(gateway);
            },
            None => {},
        }
        i = i + 1;
    }
    None
}

impl<C: IpConfigurator, D: DhcpClient, N: DnsManager> LinuxIpEngine<C, D, N> {
    /// The calls that the components received so far.
    pub open spec fn log(self) -> Trace {
        Trace {
            ip: self.ip.history(),
            dhcp: self.dhcp.history(),
            dns: self.dns.history(),
            order: self.order@,
        }
    }

    /// Creates an engine from explicit components.
    pub fn with_components(ip: C, dhcp: D, dns: N) -> (r: Self)
        ensures
            r.ip == ip,
            r.dhcp == dhcp,
            r.dns == dns,
            r.order@ == Seq::<EngineCall>::empty(),
    {
        LinuxIpEngine { ip, dhcp, dns, order: Ghost(Seq::empty()) }
    }

    // Each call to a component is made in one of the functions below, together with
    // its entry in the order of calls.

    fn ask_configure_ipv4(&mut self, interface_index: i32, config: &Ipv4Config) -> (r: Result<
        (),
        IpConfigError,
    >)
        ensures
            final(self).log() == old(self).log().plus(
                Trace::only_ip(
                    seq![IpCall::ConfigureIpv4 { interface_index, config: *config, reply: r }],
                ),
            ),
    {
        let reply: Result<(), IpConfigError> = self.ip.configure_ipv4(interface_index, config);
        let ghost call = IpCall::ConfigureIpv4 { interface_index, config: *config, reply };
        self.order = Ghost(self.order@.push(EngineCall::Ip(call)));
        assert(self.log() =~= old(self).log().plus(Trace::only_ip(seq![call])));
        reply
    }

    fn ask_remove_ipv4(&mut self, interface_index: i32, config: &Ipv4Config) -> (r: Result<
        (),
        IpConfigError,
    >)
        ensures
            final(self).log() == old(self).log().plus(
                Trace::only_ip(
                    seq![IpCall::RemoveIpv4 { interface_index, config: *config, reply: r }],
                ),
            ),
    {
        let reply: Result<(), IpConfigError> = self.ip.remove_ipv4(interface_index, config);
        let ghost call = IpCall::RemoveIpv4 { interface_index, config: *config, reply };
        self.order = Ghost(self.order@.push(EngineCall::Ip(call)));
        assert(self.log() =~= old(self).log().plus(Trace::only_ip(seq![call])));
        reply
    }

    fn ask_configure_ipv6(&mut self, interface_index: i32, config: &Ipv6Config) -> (r: Result<
        (),
        IpConfigError,
    >)
        ensures
            final(self).log() == old(self).log().plus(
                Trace::only_ip(
                    seq![IpCall::ConfigureIpv6 { interface_index, config: *config, reply: r }],
                ),
            ),
    {
        let reply: Result<(), IpConfigError> = self.ip.configure_ipv6(interface_index, config);
        let ghost call = IpCall::ConfigureIpv6 { interface_index, config: *config, reply };
        self.order = Ghost(self.order@.push(EngineCall::Ip(call)));
        assert(self.log() =~= old(self).log().plus(Trace::only_ip(seq![call])));
        reply
    }

    fn ask_remove_ipv6(&mut self, interface_index: i32, config: &Ipv6Config) -> (r: Result<
        (),
        IpConfigError,
    >)
        ensures
            final(self).log() == old(self).log().plus(
                Trace::only_ip(
                    seq![IpCall::RemoveIpv6 { interface_index, config: *config, reply: r }],
                ),
            ),
    {
        let reply: Result<(), IpConfigError> = self.ip.remove_ipv6(interface_index, config);
        let ghost call = IpCall::RemoveIpv6 { interface_index, config: *config, reply };
        self.order = Ghost(self.order@.push(EngineCall::Ip(call)));
        assert(self.log() =~= old(self).log().plus(Trace::only_ip(seq![call])));
        reply
    }

    fn ask_add_route(&mut self, route: &Route) -> (r: Result<(), IpConfigError>)
        ensures
            final(self).log() == old(self).log().plus(
                Trace::only_ip(
                    seq![IpCall::AddRoute { route: *route, reply: r }],
                ),
            ),
    {
        let reply: Result<(), IpConfigError> = self.ip.add_route(route);
        let ghost call = IpCall::AddRoute { route: *route, reply };
        self.order = Ghost(self.order@.push(EngineCall::Ip(call)));
        assert(self.log() =~= old(self).log().plus(Trace::only_ip(seq![call])));
        reply
    }

    fn ask_remove_route(&mut self, route: &Route) -> (r: Result<(), IpConfigError>)
        ensures
            final(self).log() == old(self).log().plus(
                Trace::only_ip(
                    seq![IpCall::RemoveRoute { route: *route, reply: r }],
                ),
            ),
    {
        let reply: Result<(), IpConfigError> = self.ip.remove_route(route);
        let ghost call = IpCall::RemoveRoute { route: *route, reply };
        self.order = Ghost(self.order@.push(EngineCall::Ip(call)));
        assert(self.log() =~= old(self).log().plus(Trace::only_ip(seq![call])));
        reply
    }

    fn ask_acquire(&mut self, request: &DhcpRequest) -> (r: Result<DhcpLease, DhcpError>)
        ensures
            final(self).log() == old(self).log().plus(
                Trace::only_dhcp(
                    seq![DhcpCall::Acquire { request: request@, reply: ip::acquired(r) }],
                ),
            ),
    {
        let reply: Result<DhcpLease, DhcpError> = self.dhcp.acquire(request);
        let ghost call = DhcpCall::Acquire { request: request@, reply: ip::acquired(reply) };
        self.order = Ghost(self.order@.push(EngineCall::Dhcp(call)));
        assert(self.log() =~= old(self).log().plus(Trace::only_dhcp(seq![call])));
        reply
    }

    fn ask_release(&mut self, lease: &DhcpLease) -> (r: Result<(), DhcpError>)
        ensures
            final(self).log() == old(self).log().plus(
                Trace::only_dhcp(
                    seq![DhcpCall::Release { lease: lease@, reply: r }],
                ),
            ),
    {
        let reply: Result<(), DhcpError> = self.dhcp.release(lease);
        let ghost call = DhcpCall::Release { lease: lease@, reply };
        self.order = Ghost(self.order@.push(EngineCall::Dhcp(call)));
        assert(self.log() =~= old(self).log().plus(Trace::only_dhcp(seq![call])));
        reply
    }

    fn ask_apply(&mut self, owner: &str, config: &DnsConfig) -> (r: Result<DnsOwnership, DnsError>)
        ensures
            final(self).log() == old(self).log().plus(
                Trace::only_dns(
                    seq![DnsCall::Apply { owner: owner@, config: config@, reply: r }],
                ),
            ),
    {
        let reply: Result<DnsOwnership, DnsError> = self.dns.apply(owner, config);
        let ghost call = DnsCall::Apply { owner: owner@, config: config@, reply };
        self.order = Ghost(self.order@.push(EngineCall::Dns(call)));
        assert(self.log() =~= old(self).log().plus(Trace::only_dns(seq![call])));
        reply
    }

    fn ask_remove(&mut self, ownership: &DnsOwnership) -> (r: Result<(), DnsError>)
        ensures
            final(self).log() == old(self).log().plus(
                Trace::only_dns(
                    seq![DnsCall::Remove { ownership: *ownership, reply: r }],
                ),
            ),
    {
        let reply: Result<(), DnsError> = self.dns.remove(ownership);
        let ghost call = DnsCall::Remove { ownership: *ownership, reply };
        self.order = Ghost(self.order@.push(EngineCall::Dns(call)));
        assert(self.log() =~= old(self).log().plus(Trace::only_dns(seq![call])));
        reply
    }

    /// Installs each route the caller's profile requested, one at a time.
    fn install_routes(&mut self, routes: &Vec<Route>) -> (r: Result<(), IpConfigError>)
        ensures
            exists|calls: Seq<IpCall>|
                {
                    &&& final(self).log() == old(self).log().plus(Trace::only_ip(calls))
                    &&& #[trigger] adds(calls, routes@)
                    &&& if calls.len() == 0 {
                        r is Ok
                    } else {
                        agrees(r, reply_of(calls.last()))
                    }
                },
    {
        let ghost before = self.log();
        let ghost mut calls: Seq<IpCall> = Seq::empty();
        let mut i: usize = 0;
        proof {
            lemma_only(calls, calls);
            lemma_plus(before, before, before);
        }
        while i < routes.len()
            invariant
                i <= routes@.len(),
                before == old(self).log(),
                self.log() == before.plus(Trace::only_ip(calls)),
                calls.len() == i,
                forall|j: int|
                    0 <= j < i ==> {
                        &&& (#[trigger] calls[j]) is AddRoute
                        &&& calls[j]->AddRoute_route == routes@[j]
                        &&& reply_of(calls[j]) is Ok
                    },
            decreases routes@.len() - i,
        {
            let reply: Result<(), IpConfigError> = self.ask_add_route(&routes[i]);
            proof {
                let call = IpCall::AddRoute { route: routes@[i as int], reply };
                lemma_only(calls, seq![call]);
                lemma_plus(before, Trace::only_ip(calls), Trace::only_ip(seq![call]));
                calls = calls + seq![call];
            }
            match reply {
                Err(err) => {
                    assert(adds(calls, routes@));
                    return Err(err);
                },
                Ok(()) => {},
            }
            i = i + 1;
        }
        proof {
            assert(adds(calls, routes@));
            if calls.len() > 0 {
                assert(calls.last() == calls[calls.len() - 1]);
                assert(reply_of(calls.last()) is Ok);
            }
        }
        Ok(())
    }

    fn configure_v4(&mut self, work: &Work4) -> (r: Result<(), IpConfigError>)
        ensures
            exists|calls: Seq<IpCall>|
                {
                    &&& final(self).log() == old(self).log().plus(Trace::only_ip(calls))
                    &&& #[trigger] configures_v4(
                        calls,
                        work.interface_index,
                        work.config,
                        work.routes@,
                    )
                    &&& agrees(r, reply_of(calls.last()))
                },
    {
        let ghost before = self.log();
        let reply: Result<(), IpConfigError> = self.ask_configure_ipv4(
            work.interface_index,
            &work.config,
        );
        let ghost call = IpCall::ConfigureIpv4 {
            interface_index: work.interface_index,
            config: work.config,
            reply,
        };
        let ghost one = seq![call];
        match reply {
            Err(err) => {
                assert(configures_v4(one, work.interface_index, work.config, work.routes@));
                return Err(err);
            },
            Ok(()) => {},
        }
        let ghost middle = self.log();
        let r: Result<(), IpConfigError> = self.install_routes(&work.routes);
        proof {
            let more = choose|more: Seq<IpCall>|
                {
                    &&& self.log() == middle.plus(Trace::only_ip(more))
                    &&& #[trigger] adds(more, work.routes@)
                    &&& if more.len() == 0 {
                        r is Ok
                    } else {
                        agrees(r, reply_of(more.last()))
                    }
                };
            let calls = one + more;
            assert(calls.skip(1) =~= more);
            lemma_only(one, more);
            lemma_plus(before, Trace::only_ip(one), Trace::only_ip(more));
            assert(configures_v4(calls, work.interface_index, work.config, work.routes@));
            if more.len() > 0 {
                assert(calls.last() == more.last());
            } else {
                assert(calls.last() == call);
            }
        }
        r
    }

    fn carry_out(&mut self, work: Work4, dns_owner: &str) -> (r: Phase4)
        ensures
            exists|ip: Seq<IpCall>, dns: Seq<DnsCall>|
                {
                    &&& final(self).log() == old(self).log().plus(Trace::only_ip(ip)).plus(
                        Trace::only_dns(dns),
                    )
                    &&& #[trigger] carries_out(ip, dns, work@, dns_owner@, r@)
                },
    {
        let ghost plan = work@;
        let ghost before = self.log();
        let mut routes: Vec<Route> = ipv4_routes_for(
            work.interface_index,
            work.config.address,
            work.config.prefix_length,
            work.config.gateway,
        );
        append_routes(&mut routes, &work.routes);
        let active = ActiveIpv4 {
            interface_index: work.interface_index,
            address: work.config.address,
            prefix_length: work.config.prefix_length,
            lease: copy_lease(&work.lease),
            routes: vstd::slice::slice_to_vec(routes.as_slice()),
            source: work.source,
        };
        assert(active@ == plan.state());
        let up: Result<(), IpConfigError> = self.configure_v4(&work);
        let ghost calls = choose|calls: Seq<IpCall>|
            {
                &&& self.log() == before.plus(Trace::only_ip(calls))
                &&& #[trigger] configures_v4(
                    calls,
                    work.interface_index,
                    work.config,
                    work.routes@,
                )
                &&& agrees(up, reply_of(calls.last()))
            };
        proof {
            lemma_only(calls, calls);
            lemma_plus(self.log(), before, before);
        }
        match up {
            Err(err) => {
                let end = Phase4 {
                    ipv4: Some(active),
                    dns_owner: None,
                    outcome: None,
                    result: Err(IpEngineError::IpConfig(err)),
                };
                assert(carries_out(calls, Seq::empty(), plan, dns_owner@, end@));
                return end;
            },
            Ok(()) => {},
        }
        let mut owned: Option<DnsOwnership> = None;
        let ghost mut dns_calls: Seq<DnsCall> = Seq::empty();
        if !(work.dns.servers.len() == 0 && work.dns.search_domains.len() == 0) {
            let reply: Result<DnsOwnership, DnsError> = self.ask_apply(dns_owner, &work.dns);
            proof {
                dns_calls = seq![DnsCall::Apply { owner: dns_owner@, config: work.dns@, reply }];
            }
            match reply {
                Err(err) => {
                    let end = Phase4 {
                        ipv4: Some(active),
                        dns_owner: None,
                        outcome: None,
                        result: Err(IpEngineError::Dns(err)),
                    };
                    assert(carries_out(calls, dns_calls, plan, dns_owner@, end@));
                    return end;
                },
                Ok(ownership) => {
                    owned = Some(ownership);
                },
            }
        }
        let outcome = Ipv4Outcome {
            address: work.config.address,
            prefix_length: work.config.prefix_length,
            gateway: work.config.gateway,
            dns_servers: work.dns.servers,
            search_domains: work.dns.search_domains,
            source: work.source,
            routes,
            lease: work.lease,
        };
        assert(outcome@ == plan.outcome());
        let end = Phase4 {
            ipv4: Some(active),
            dns_owner: owned,
            outcome: Some(outcome),
            result: Ok(()),
        };
        assert(carries_out(calls, dns_calls, plan, dns_owner@, end@));
        end
    }

    fn activate_ipv4(
        &mut self,
        interface_index: i32,
        interface_name: &str,
        ipv4: &IpConfig,
        dns_owner: &str,
    ) -> (r: Phase4)
        ensures
            exists|trace: Trace|
                {
                    &&& final(self).log() == old(self).log().plus(trace)
                    &&& #[trigger] brings_up_v4(
                        trace,
                        interface_index,
                        interface_name@,
                        ipv4@,
                        dns_owner@,
                        r@,
                    )
                },
    {
        let ghost start = *self;
        proof {
            lemma_plus(start.log(), Trace::nothing(), Trace::nothing());
            assert(of_dhcp(Seq::empty()) + of_ip(Seq::empty()) + of_dns(Seq::empty())
                =~= Trace::nothing().order);
        }
        match ipv4.method {
            IpMethod::Disabled => {
                let end: Phase4 = untouched_phase(Ok(()));
                assert(brings_up_v4(
                    Trace::nothing(),
                    interface_index,
                    interface_name@,
                    ipv4@,
                    dns_owner@,
                    end@,
                ));
                end
            },
            IpMethod::Automatic => {
                let request = DhcpRequest {
                    interface_index,
                    interface_name: interface_name.to_owned(),
                    hostname: None,
                    requested_address: None,
                    timeout_millis: 0,
                };
                assert(request@ == lease_request(interface_index, interface_name@));
                let reply: Result<DhcpLease, DhcpError> = self.ask_acquire(&request);
                let ghost dhcp = seq![
                    DhcpCall::Acquire { request: request@, reply: ip::acquired(reply) },
                ];
                let lease: DhcpLease = match reply {
                    Err(err) => {
                        let end: Phase4 = untouched_phase(Err(IpEngineError::Dhcp(err)));
                        proof {
                            let trace = Trace::only_dhcp(dhcp);
                            assert(trace.order =~= of_dhcp(dhcp) + of_ip(Seq::empty()) + of_dns(
                                Seq::empty(),
                            ));
                            assert(brings_up_v4(
                                trace,
                                interface_index,
                                interface_name@,
                                ipv4@,
                                dns_owner@,
                                end@,
                            ));
                        }
                        return end;
                    },
                    Ok(lease) => lease,
                };
                let ghost found = lease@;
                let servers: Vec<IpAddr> = widen(&lease.dns_servers);
                let work = Work4 {
                    interface_index,
                    config: Ipv4Config {
                        address: lease.address,
                        prefix_length: lease.prefix_length,
                        gateway: lease.gateway,
                    },
                    routes: static_routes(ipv4, IpFamily::V4),
                    dns: DnsConfig {
                        search_domains: copy_strings(&lease.search_domains),
                        servers,
                    },
                    lease: Some(lease),
                    source: Ipv4Source::AutomaticDhcp,
                };
                assert(work@ =~= lease_plan(interface_index, found, ipv4@));
                let ghost middle = *self;
                let end: Phase4 = self.carry_out(work, dns_owner);
                proof {
                    let (ip, dns) = choose|ip: Seq<IpCall>, dns: Seq<DnsCall>|
                        {
                            &&& self.log() == middle.log().plus(Trace::only_ip(ip)).plus(
                                Trace::only_dns(dns),
                            )
                            &&& #[trigger] carries_out(ip, dns, work@, dns_owner@, end@)
                        };
                    let trace = Trace {
                        ip,
                        dhcp,
                        dns,
                        order: of_dhcp(dhcp) + of_ip(ip) + of_dns(dns),
                    };
                    assert(self.log() =~= start.log().plus(trace));
                    assert(brings_up_v4(
                        trace,
                        interface_index,
                        interface_name@,
                        ipv4@,
                        dns_owner@,
                        end@,
                    ));
                }
                end
            },
            IpMethod::Manual => {
                let address: Ipv4Addr = match v4_part(ipv4.address) {
                    Some(address) => address,
                    None => {
                        let end: Phase4 = untouched_phase(
                            Err(
                                IpEngineError::InvalidConfig(
                                    "manual IPv4 needs a valid IPv4 address",
                                ),
                            ),
                        );
                        assert(brings_up_v4(
                            Trace::nothing(),
                            interface_index,
                            interface_name@,
                            ipv4@,
                            dns_owner@,
                            end@,
                        ));
                        return end;
                    },
                };
                let prefix_length: u8 = match ipv4.prefix_length {
                    Some(prefix_length) => prefix_length,
                    None => {
                        let end: Phase4 = untouched_phase(
                            Err(IpEngineError::InvalidConfig("manual IPv4 needs a prefix length")),
                        );
                        assert(brings_up_v4(
                            Trace::nothing(),
                            interface_index,
                            interface_name@,
                            ipv4@,
                            dns_owner@,
                            end@,
                        ));
                        return end;
                    },
                };
                let work = Work4 {
                    interface_index,
                    config: Ipv4Config { address, prefix_length, gateway: v4_part(ipv4.gateway) },
                    routes: static_routes(ipv4, IpFamily::V4),
                    dns: DnsConfig {
                        search_domains: Vec::new(),
                        servers: vstd::slice::slice_to_vec(ipv4.dns_servers.as_slice()),
                    },
                    lease: None,
                    source: Ipv4Source::Manual,
                };
                assert(work.dns@.search_domains =~= Seq::empty());
                assert(Ok::<Ipv4Plan, IpEngineError>(work@) == manual_plan(interface_index, ipv4@));
                let end: Phase4 = self.carry_out(work, dns_owner);
                proof {
                    let (ip, dns) = choose|ip: Seq<IpCall>, dns: Seq<DnsCall>|
                        {
                            &&& self.log() == start.log().plus(Trace::only_ip(ip)).plus(
                                Trace::only_dns(dns),
                            )
                            &&& #[trigger] carries_out(ip, dns, work@, dns_owner@, end@)
                        };
                    let trace = Trace {
                        ip,
                        dhcp: Seq::empty(),
                        dns,
                        order: of_dhcp(Seq::empty()) + of_ip(ip) + of_dns(dns),
                    };
                    assert(self.log() =~= start.log().plus(trace));
                    assert(brings_up_v4(
                        trace,
                        interface_index,
                        interface_name@,
                        ipv4@,
                        dns_owner@,
                        end@,
                    ));
                }
                end
            },
        }
    }
}

fn widen(servers: &Vec<Ipv4Addr>) -> (r: Vec<IpAddr>)
    ensures
        r@ == servers@.map_values(|server: Ipv4Addr| IpAddr::V4(server)),
{
    let mut out: Vec<IpAddr> = Vec::new();
    let mut i: usize = 0;
    while i < servers.len()
        invariant
            i <= servers@.len(),
            out@.len() == i,
            forall|j: int| 0 <= j < i ==> out@[j] == IpAddr::V4(servers@[j]),
        decreases servers@.len() - i,
    {
        out.push(IpAddr::V4(servers[i]));
        i = i + 1;
    }
    assert(out@ =~= servers@.map_values(|server: Ipv4Addr| IpAddr::V4(server)));
    out
}

impl<C: IpConfigurator, D: DhcpClient, N: DnsManager> LinuxIpEngine<C, D, N> {
    fn configure_v6(
        &mut self,
        interface_index: i32,
        config: &Ipv6Config,
        routes: &Vec<Route>,
    ) -> (r: Result<(), IpConfigError>)
        ensures
            exists|calls: Seq<IpCall>|
                {
                    &&& final(self).log() == old(self).log().plus(Trace::only_ip(calls))
                    &&& #[trigger] configures_v6(calls, interface_index, *config, routes@)
                    &&& agrees(r, reply_of(calls.last()))
                },
    {
        let ghost before = self.log();
        let reply: Result<(), IpConfigError> = self.ask_configure_ipv6(interface_index, config);
        let ghost call = IpCall::ConfigureIpv6 { interface_index, config: *config, reply };
        let ghost one = seq![call];
        match reply {
            Err(err) => {
                assert(configures_v6(one, interface_index, *config, routes@));
                return Err(err);
            },
            Ok(()) => {},
        }
        let ghost middle = self.log();
        let r: Result<(), IpConfigError> = self.install_routes(routes);
        proof {
            let more = choose|more: Seq<IpCall>|
                {
                    &&& self.log() == middle.plus(Trace::only_ip(more))
                    &&& #[trigger] adds(more, routes@)
                    &&& if more.len() == 0 {
                        r is Ok
                    } else {
                        agrees(r, reply_of(more.last()))
                    }
                };
            let calls = one + more;
            assert(calls.skip(1) =~= more);
            lemma_only(one, more);
            lemma_plus(before, Trace::only_ip(one), Trace::only_ip(more));
            assert(configures_v6(calls, interface_index, *config, routes@));
            if more.len() > 0 {
                assert(calls.last() == more.last());
            } else {
                assert(calls.last() == call);
            }
        }
        r
    }

    fn activate_ipv6(
        &mut self,
        interface_index: i32,
        ipv6: &IpConfig,
        link_local: Option<Ipv6Addr>,
    ) -> (r: Phase6)
        ensures
            exists|trace: Trace|
                {
                    &&& final(self).log() == old(self).log().plus(trace)
                    &&& #[trigger] brings_up_v6(trace, interface_index, ipv6@, link_local, r@)
                },
    {
        let ghost start = *self;
        proof {
            lemma_plus(start.log(), Trace::nothing(), Trace::nothing());
            assert(of_ip(Seq::empty()) =~= Trace::nothing().order);
        }
        match ipv6.method {
            IpMethod::Disabled => {
                let end = Phase6 { ipv6: None, outcome: None, result: Ok(()) };
                assert(brings_up_v6(
                    Trace::nothing(),
                    interface_index,
                    ipv6@,
                    link_local,
                    end@,
                ));
                end
            },
            IpMethod::Automatic => {
                let outcome = Ipv6Outcome {
                    address: None,
                    prefix_length: 64,
                    gateway: None,
                    dns_servers: Vec::new(),
                    search_domains: Vec::new(),
                    routes: Vec::new(),
                    link_local,
                    source: Ipv6Source::AutomaticLinkLocal,
                };
                assert(outcome@.search_domains =~= Seq::empty());
                let end = Phase6 { ipv6: None, outcome: Some(outcome), result: Ok(()) };
                assert(brings_up_v6(
                    Trace::nothing(),
                    interface_index,
                    ipv6@,
                    link_local,
                    end@,
                ));
                end
            },
            IpMethod::Manual => {
                let address: Ipv6Addr = match v6_part(ipv6.address) {
                    Some(address) => address,
                    None => {
                        let end = Phase6 {
                            ipv6: None,
                            outcome: None,
                            result: Err(
                                IpEngineError::InvalidConfig(
                                    "manual IPv6 needs a valid IPv6 address",
                                ),
                            ),
                        };
                        assert(brings_up_v6(
                            Trace::nothing(),
                            interface_index,
                            ipv6@,
                            link_local,
                            end@,
                        ));
                        return end;
                    },
                };
                let prefix_length: u8 = match ipv6.prefix_length {
                    Some(prefix_length) => prefix_length,
                    None => {
                        let end = Phase6 {
                            ipv6: None,
                            outcome: None,
                            result: Err(
                                IpEngineError::InvalidConfig("manual IPv6 needs a prefix length"),
                            ),
                        };
                        assert(brings_up_v6(
                            Trace::nothing(),
                            interface_index,
                            ipv6@,
                            link_local,
                            end@,
                        ));
                        return end;
                    },
                };
                let config = Ipv6Config { address, prefix_length, gateway: v6_part(ipv6.gateway) };
                let extra: Vec<Route> = static_routes(ipv6, IpFamily::V6);
                let mut routes: Vec<Route> = ipv6_routes_for(
                    interface_index,
                    address,
                    prefix_length,
                    config.gateway,
                );
                append_routes(&mut routes, &extra);
                let active = ActiveIpv6 {
                    interface_index,
                    link_local: Some(address),
                    prefix_length,
                    routes: vstd::slice::slice_to_vec(routes.as_slice()),
                    source: Ipv6Source::Manual,
                };
                assert(active@ == state_v6(interface_index, config, extra@));
                let up: Result<(), IpConfigError> = self.configure_v6(
                    interface_index,
                    &config,
                    &extra,
                );
                let ghost calls = choose|calls: Seq<IpCall>|
                    {
                        &&& self.log() == start.log().plus(Trace::only_ip(calls))
                        &&& #[trigger] configures_v6(calls, interface_index, config, extra@)
                        &&& agrees(up, reply_of(calls.last()))
                    };
                let ghost trace = Trace::only_ip(calls);
                match up {
                    Err(err) => {
                        let end = Phase6 {
                            ipv6: Some(active),
                            outcome: None,
                            result: Err(IpEngineError::IpConfig(err)),
                        };
                        assert(brings_up_v6(trace, interface_index, ipv6@, link_local, end@));
                        end
                    },
                    Ok(()) => {
                        let outcome = Ipv6Outcome {
                            address: Some(address),
                            prefix_length,
                            gateway: config.gateway,
                            dns_servers: vstd::slice::slice_to_vec(ipv6.dns_servers.as_slice()),
                            search_domains: Vec::new(),
                            routes,
                            link_local: None,
                            source: Ipv6Source::Manual,
                        };
                        assert(outcome@.search_domains =~= Seq::empty());
                        assert(outcome@ == outcome_v6(
                            interface_index,
                            config,
                            extra@,
                            ipv6@.dns_servers,
                        ));
                        let end = Phase6 {
                            ipv6: Some(active),
                            outcome: Some(outcome),
                            result: Ok(()),
                        };
                        assert(brings_up_v6(trace, interface_index, ipv6@, link_local, end@));
                        end
                    },
                }
            },
        }
    }

    fn remove_routes(&mut self, routes: &Vec<Route>)
        ensures
            exists|calls: Seq<IpCall>|
                {
                    &&& final(self).log() == old(self).log().plus(Trace::only_ip(calls))
                    &&& #[trigger] removes(calls, routes@)
                },
    {
        let ghost before = self.log();
        let ghost mut calls: Seq<IpCall> = Seq::empty();
        let mut i: usize = 0;
        proof {
            lemma_only(calls, calls);
            lemma_plus(before, before, before);
        }
        while i < routes.len()
            invariant
                i <= routes@.len(),
                before == old(self).log(),
                self.log() == before.plus(Trace::only_ip(calls)),
                calls.len() == i,
                forall|j: int|
                    0 <= j < i ==> (#[trigger] calls[j]) is RemoveRoute
                        && calls[j]->RemoveRoute_route == routes@[j],
            decreases routes@.len() - i,
        {
            let reply: Result<(), IpConfigError> = self.ask_remove_route(&routes[i]);
            proof {
                let call = IpCall::RemoveRoute { route: routes@[i as int], reply };
                lemma_only(calls, seq![call]);
                lemma_plus(before, Trace::only_ip(calls), Trace::only_ip(seq![call]));
                calls = calls + seq![call];
            }
            i = i + 1;
        }
        assert(removes(calls, routes@));
    }

    /// Takes an IPv4 state down: its routes, its lease and its address.
    fn take_down_v4(&mut self, state: &ActiveIpv4) -> (r: Option<IpEngineError>)
        ensures
            exists|calls: Seq<IpCall>, dhcp: Seq<DhcpCall>|
                {
                    &&& final(self).log() == old(self).log().plus(
                        Trace::only_ip(calls.take(state@.routes.len() as int)),
                    ).plus(Trace::only_dhcp(dhcp)).plus(
                        Trace::only_ip(calls.skip(state@.routes.len() as int)),
                    )
                    &&& #[trigger] takes_down_v4(calls, state@)
                    &&& #[trigger] releases(dhcp, state@.lease)
                    &&& r == removal_error(calls)
                },
    {
        let ghost before = self.log();
        self.remove_routes(&state.routes);
        let ghost routes = choose|routes: Seq<IpCall>|
            {
                &&& self.log() == before.plus(Trace::only_ip(routes))
                &&& #[trigger] removes(routes, state.routes@)
            };
        let ghost mut dhcp: Seq<DhcpCall> = Seq::empty();
        proof {
            lemma_only(routes, routes);
            lemma_plus(self.log(), before, before);
        }
        match &state.lease {
            Some(lease) => {
                let released: Result<(), DhcpError> = self.ask_release(lease);
                proof {
                    dhcp = seq![DhcpCall::Release { lease: lease@, reply: released }];
                }
            },
            None => {},
        }
        assert(self.log() == before.plus(Trace::only_ip(routes)).plus(Trace::only_dhcp(dhcp)));
        let config = Ipv4Config {
            address: state.address,
            prefix_length: state.prefix_length,
            gateway: find_gateway(&state.routes),
        };
        let reply: Result<(), IpConfigError> = self.ask_remove_ipv4(
            state.interface_index,
            &config,
        );
        let ghost call = IpCall::RemoveIpv4 {
            interface_index: state.interface_index,
            config,
            reply,
        };
        proof {
            let calls = routes.push(call);
            assert(calls.take(state@.routes.len() as int) =~= routes);
            assert(calls.skip(state@.routes.len() as int) =~= seq![call]);
            assert(takes_down_v4(calls, state@));
            assert(releases(dhcp, state@.lease));
            assert(calls.last() == call);
        }
        match reply {
            Err(err) => Some(IpEngineError::IpConfig(err)),
            Ok(()) => None,
        }
    }

    /// Takes an IPv6 state down: its routes, and its address if it was installed.
    fn take_down_v6(&mut self, state: &ActiveIpv6) -> (r: Option<IpEngineError>)
        ensures
            exists|calls: Seq<IpCall>|
                {
                    &&& final(self).log() == old(self).log().plus(Trace::only_ip(calls))
                    &&& #[trigger] takes_down_v6(calls, state@)
                    &&& r == removal_error(calls)
                },
    {
        let ghost before = self.log();
        self.remove_routes(&state.routes);
        let ghost routes = choose|routes: Seq<IpCall>|
            {
                &&& self.log() == before.plus(Trace::only_ip(routes))
                &&& #[trigger] removes(routes, state.routes@)
            };
        assert(routes.take(state@.routes.len() as int) =~= routes);
        if state.source == Ipv6Source::Manual {
            match state.link_local {
                Some(address) => {
                    let config = Ipv6Config {
                        address,
                        prefix_length: state.prefix_length,
                        gateway: None,
                    };
                    let reply: Result<(), IpConfigError> = self.ask_remove_ipv6(
                        state.interface_index,
                        &config,
                    );
                    proof {
                        let call = IpCall::RemoveIpv6 {
                            interface_index: state.interface_index,
                            config,
                            reply,
                        };
                        let calls = routes + seq![call];
                        lemma_only(routes, seq![call]);
                        lemma_plus(before, Trace::only_ip(routes), Trace::only_ip(seq![call]));
                        assert(calls.take(state@.routes.len() as int) =~= routes);
                        assert(takes_down_v6(calls, state@));
                        assert(calls.last() == call);
                    }
                    return match reply {
                        Err(err) => Some(IpEngineError::IpConfig(err)),
                        Ok(()) => None,
                    };
                },
                None => {},
            }
        }
        proof {
            assert(takes_down_v6(routes, state@));
            if routes.len() > 0 {
                assert(routes.last() == routes[routes.len() - 1]);
                assert(routes.last() is RemoveRoute);
            }
        }
        None
    }

    /// Removes every piece of state in `state` (routes, addresses, lease, DNS).
    ///
    /// Every step is attempted even when an earlier step fails; the first
    /// error is returned once all steps have run. Removal of routes and the
    /// lease is best-effort (a route may already be gone), while address and
    /// DNS removal errors are reported.
    pub fn teardown(&mut self, state: &ActiveIpState) -> (r: Result<(), IpEngineError>)
        ensures
            exists|trace: Trace, v4: int|
                {
                    &&& final(self).log() == old(self).log().plus(trace)
                    &&& #[trigger] tears_down(trace, v4, state@, r)
                },
    {
        let ghost start = self.log();
        let mut first: Option<IpEngineError> = None;
        let ghost mut dns: Seq<DnsCall> = Seq::empty();
        let ghost mut dhcp: Seq<DhcpCall> = Seq::empty();
        let ghost mut up: Seq<IpCall> = Seq::empty();
        let ghost mut down: Seq<IpCall> = Seq::empty();
        let ghost mut routes: int = 0;
        proof {
            lemma_only(up, up);
            lemma_plus(start, start, start);
        }
        match &state.dns_owner {
            Some(ownership) => {
                let reply: Result<(), DnsError> = self.ask_remove(ownership);
                proof {
                    dns = seq![DnsCall::Remove { ownership: *ownership, reply }];
                }
                match reply {
                    Err(err) => {
                        first = Some(IpEngineError::Dns(err));
                    },
                    Ok(()) => {},
                }
            },
            None => {},
        }
        assert(first == dns_error(dns));
        assert(self.log() == start.plus(Trace::only_dns(dns)));
        let mut second: Option<IpEngineError> = None;
        let ghost middle = self.log();
        proof {
            lemma_plus(middle, start, start);
            assert(up.take(0) =~= up && up.skip(0) =~= up);
        }
        match &state.ipv4 {
            Some(ipv4) => {
                second = self.take_down_v4(ipv4);
                proof {
                    routes = ipv4@.routes.len() as int;
                    let (calls, released) = choose|calls: Seq<IpCall>, released: Seq<DhcpCall>|
                        {
                            &&& self.log() == middle.plus(Trace::only_ip(calls.take(routes))).plus(
                                Trace::only_dhcp(released),
                            ).plus(Trace::only_ip(calls.skip(routes)))
                            &&& #[trigger] takes_down_v4(calls, ipv4@)
                            &&& #[trigger] releases(released, ipv4@.lease)
                            &&& second == removal_error(calls)
                        };
                    up = calls;
                    dhcp = released;
                }
            },
            None => {},
        }
        assert(second == removal_error(up));
        let ghost late = self.log();
        assert(late == middle.plus(Trace::only_ip(up.take(routes))).plus(
            Trace::only_dhcp(dhcp),
        ).plus(Trace::only_ip(up.skip(routes))));
        let mut third: Option<IpEngineError> = None;
        proof {
            lemma_plus(late, start, start);
        }
        match &state.ipv6 {
            Some(ipv6) => {
                third = self.take_down_v6(ipv6);
                proof {
                    down = choose|calls: Seq<IpCall>|
                        {
                            &&& self.log() == late.plus(Trace::only_ip(calls))
                            &&& #[trigger] takes_down_v6(calls, ipv6@)
                            &&& third == removal_error(calls)
                        };
                }
            },
            None => {},
        }
        assert(third == removal_error(down));
        assert(self.log() == late.plus(Trace::only_ip(down)));
        let r: Result<(), IpEngineError> = match first {
            Some(error) => Err(error),
            None => match second {
                Some(error) => Err(error),
                None => match third {
                    Some(error) => Err(error),
                    None => Ok(()),
                },
            },
        };
        proof {
            let trace = teardown_trace(dns, up, routes, dhcp, down);
            lemma_teardown_trace(start, dns, up, routes, dhcp, down);
            assert(r == first_of(dns_error(dns), removal_error(up), removal_error(down)));
            assert(tears_down(trace, up.len() as int, state@, r));
        }
        r
    }

    /// The first half of an activation: brings up the IPv4 configuration for the
    /// interface identified by `interface_index`/`interface_name`. What it reached
    /// goes to [`LinuxIpEngine::activate_ipv6_phase`].
    ///
    /// If it fails, everything installed so far is torn down before the error is
    /// returned.
    pub fn activate_ipv4_phase(
        &mut self,
        interface_index: i32,
        interface_name: &str,
        ipv4: &IpConfig,
        dns_owner: &str,
    ) -> (r: Result<Ipv4Reached, IpEngineError>)
        ensures
            exists|run: Run|
                {
                    &&& final(self).log() == old(self).log().plus(run.trace())
                    &&& #[trigger] opens(
                        run,
                        interface_index,
                        interface_name@,
                        ipv4@,
                        dns_owner@,
                    )
                    &&& match r {
                        Err(e) => run.error() == Some(e),
                        Ok(reached) => run.error() is None && reached@ == run.end4,
                    }
                },
    {
        let ghost start = *self;
        let first: Phase4 = self.activate_ipv4(interface_index, interface_name, ipv4, dns_owner);
        let ghost up4 = choose|trace: Trace|
            {
                &&& self.log() == start.log().plus(trace)
                &&& #[trigger] brings_up_v4(
                    trace,
                    interface_index,
                    interface_name@,
                    ipv4@,
                    dns_owner@,
                    first@,
                )
            };
        let ghost end4 = first@;
        let ghost middle = *self;
        let ghost up = Run {
            up4,
            end4,
            up6: Trace::nothing(),
            end6: Ipv6End { ipv6: None, outcome: None, result: Ok(()) },
            down: Trace::nothing(),
            down_v4: 0,
            down_result: Ok(()),
        };
        match first.result {
            Err(error) => {
                let state = ActiveIpState {
                    ipv4: first.ipv4,
                    ipv6: None,
                    dns_owner: first.dns_owner,
                };
                let down: Result<(), IpEngineError> = self.teardown(&state);
                proof {
                    let (trace, v4) = choose|trace: Trace, v4: int|
                        {
                            &&& self.log() == middle.log().plus(trace)
                            &&& #[trigger] tears_down(trace, v4, state@, down)
                        };
                    let run = Run { down: trace, down_v4: v4, down_result: down, ..up };
                    assert(run.state() =~= state@);
                    assert(self.log() =~= start.log().plus(run.trace()));
                    assert(opens(run, interface_index, interface_name@, ipv4@, dns_owner@));
                }
                Err(error)
            },
            Ok(done) => {
                assert(done == ());
                let reached = Ipv4Reached {
                    ipv4: first.ipv4,
                    dns_owner: first.dns_owner,
                    outcome: first.outcome,
                };
                proof {
                    assert(reached@ =~= end4);
                    assert(self.log() =~= start.log().plus(up.trace()));
                    assert(opens(up, interface_index, interface_name@, ipv4@, dns_owner@));
                }
                Ok(reached)
            },
        }
    }

    /// The second half of an activation: brings up the IPv6 configuration of the
    /// interface whose IPv4 phase reached `reached`. `link_local` is the address
    /// that the kernel has given the interface by now, which the automatic method
    /// reports.
    ///
    /// If it fails, everything installed so far, in either half, is torn down
    /// before the error is returned.
    pub fn activate_ipv6_phase(
        &mut self,
        reached: Ipv4Reached,
        interface_index: i32,
        ipv6: &IpConfig,
        link_local: Option<Ipv6Addr>,
    ) -> (r: Result<(ActivationOutcome, ActiveIpState), IpEngineError>)
        ensures
            exists|run: Run|
                {
                    &&& final(self).log() == old(self).log().plus(run.trace())
                    &&& #[trigger] closes(run, reached@, interface_index, ipv6@, link_local)
                    &&& reports(run, r)
                },
    {
        let ghost start = *self;
        let second: Phase6 = self.activate_ipv6(interface_index, ipv6, link_local);
        let ghost up6 = choose|trace: Trace|
            {
                &&& self.log() == start.log().plus(trace)
                &&& #[trigger] brings_up_v6(trace, interface_index, ipv6@, link_local, second@)
            };
        let ghost end6 = second@;
        let ghost late = *self;
        let ghost up = Run {
            up4: Trace::nothing(),
            end4: reached@,
            up6,
            end6,
            down: Trace::nothing(),
            down_v4: 0,
            down_result: Ok(()),
        };
        let state = ActiveIpState {
            ipv4: reached.ipv4,
            ipv6: second.ipv6,
            dns_owner: reached.dns_owner,
        };
        match second.result {
            Err(error) => {
                let down: Result<(), IpEngineError> = self.teardown(&state);
                proof {
                    let (trace, v4) = choose|trace: Trace, v4: int|
                        {
                            &&& self.log() == late.log().plus(trace)
                            &&& #[trigger] tears_down(trace, v4, state@, down)
                        };
                    let run = Run { down: trace, down_v4: v4, down_result: down, ..up };
                    assert(run.state() =~= state@);
                    assert(self.log() =~= start.log().plus(run.trace()));
                    assert(closes(run, reached@, interface_index, ipv6@, link_local));
                }
                Err(error)
            },
            Ok(()) => {
                let outcome = ActivationOutcome {
                    ipv4: reached.outcome,
                    ipv6: second.outcome,
                    degradation: None,
                };
                proof {
                    assert(up.state() =~= state@);
                    assert(self.log() =~= start.log().plus(up.trace()));
                    assert(closes(up, reached@, interface_index, ipv6@, link_local));
                    assert(reports(up, Ok((outcome, state))));
                }
                Ok((outcome, state))
            },
        }
    }

    /// Brings up the IPv4 and IPv6 configuration described by `ipv4`/`ipv6`
    /// for the interface identified by `interface_index`/`interface_name`.
    /// `link_local` is the address that the kernel gave the interface, which the
    /// automatic IPv6 method reports; a caller that observes it after the IPv4
    /// phase performs the two phases itself.
    ///
    /// Returns the observable [`ActivationOutcome`] (for rendering) together
    /// with the [`ActiveIpState`] the caller must keep and pass to
    /// [`LinuxIpEngine::teardown`] later.
    ///
    /// Activation is all-or-nothing: if a phase fails after state was applied,
    /// everything installed so far (addresses, routes, DNS, the DHCP lease) is
    /// torn down before the error is returned.
    pub fn activate(
        &mut self,
        interface_index: i32,
        interface_name: &str,
        ipv4: &IpConfig,
        ipv6: &IpConfig,
        dns_owner: &str,
        link_local: Option<Ipv6Addr>,
    ) -> (r: Result<(ActivationOutcome, ActiveIpState), IpEngineError>)
        ensures
            exists|run: Run|
                {
                    &&& final(self).log() == old(self).log().plus(run.trace())
                    &&& #[trigger] activates(
                        run,
                        interface_index,
                        interface_name@,
                        ipv4@,
                        ipv6@,
                        dns_owner@,
                        link_local,
                    )
                    &&& reports(run, r)
                },
    {
        let ghost start = *self;
        let first: Result<Ipv4Reached, IpEngineError> = self.activate_ipv4_phase(
            interface_index,
            interface_name,
            ipv4,
            dns_owner,
        );
        let ghost opening = choose|run: Run|
            {
                &&& self.log() == start.log().plus(run.trace())
                &&& #[trigger] opens(run, interface_index, interface_name@, ipv4@, dns_owner@)
                &&& match first {
                    Err(e) => run.error() == Some(e),
                    Ok(reached) => run.error() is None && reached@ == run.end4,
                }
            };
        let ghost middle = *self;
        match first {
            Err(error) => {
                proof {
                    lemma_halves_activate(
                        opening,
                        opening,
                        interface_index,
                        interface_name@,
                        ipv4@,
                        ipv6@,
                        dns_owner@,
                        link_local,
                    );
                }
                Err(error)
            },
            Ok(reached) => {
                let r: Result<(ActivationOutcome, ActiveIpState), IpEngineError> =
                    self.activate_ipv6_phase(reached, interface_index, ipv6, link_local);
                proof {
                    let closing = choose|run: Run|
                        {
                            &&& self.log() == middle.log().plus(run.trace())
                            &&& #[trigger] closes(
                                run,
                                reached@,
                                interface_index,
                                ipv6@,
                                link_local,
                            )
                            &&& reports(run, r)
                        };
                    lemma_halves_activate(
                        opening,
                        closing,
                        interface_index,
                        interface_name@,
                        ipv4@,
                        ipv6@,
                        dns_owner@,
                        link_local,
                    );
                    let run = joined(opening, closing);
                    assert(self.log() =~= start.log().plus(run.trace()));
                }
                r
            },
        }
    }
}

// --- Everything that was brought up is taken down ---------------------------------------------------------

/// Whether a call that installed something is matched by one that removes it.
pub open spec fn undone(call: IpCall, down: Seq<IpCall>) -> bool {
    match call {
        IpCall::AddRoute { route, .. } => exists|j: int|
            0 <= j < down.len() && (#[trigger] down[j]) is RemoveRoute
                && down[j]->RemoveRoute_route == route,
        IpCall::ConfigureIpv4 { interface_index, config, .. } => exists|j: int|
            {
                &&& 0 <= j < down.len()
                &&& #[trigger] down[j] matches IpCall::RemoveIpv4 {
                    interface_index: index,
                    config: removed,
                    ..
                }
                &&& index == interface_index
                &&& removed.address == config.address
                &&& removed.prefix_length == config.prefix_length
                &&& config.gateway is Some ==> removed.gateway == config.gateway
            },
        IpCall::ConfigureIpv6 { interface_index, config, .. } => exists|j: int|
            {
                &&& 0 <= j < down.len()
                &&& #[trigger] down[j] matches IpCall::RemoveIpv6 {
                    interface_index: index,
                    config: removed,
                    ..
                }
                &&& index == interface_index
                &&& removed.address == config.address
                &&& removed.prefix_length == config.prefix_length
            },
        _ => true,
    }
}

/// Whether everything that calls installed is removed by others: addresses and
/// routes, the lease, and the DNS configuration.
pub open spec fn all_undone(up: Trace, down: Trace) -> bool {
    &&& forall|i: int| 0 <= i < up.ip.len() ==> undone(#[trigger] up.ip[i], down.ip)
    &&& forall|i: int|
        0 <= i < up.dhcp.len() ==> (#[trigger] up.dhcp[i] matches DhcpCall::Acquire {
            reply: Ok(lease),
            ..
        } ==> down.dhcp.len() == 1 && down.dhcp[0] is Release && down.dhcp[0]->Release_lease
            == lease)
    &&& forall|i: int|
        0 <= i < up.dns.len() ==> (#[trigger] up.dns[i] matches DnsCall::Apply {
            reply: Ok(ownership),
            ..
        } ==> down.dns.len() == 1 && down.dns[0] is Remove && down.dns[0]->Remove_ownership
            == ownership)
}

proof fn lemma_route_undone(routes: Seq<Route>, k: int, calls: Seq<IpCall>, start: int, down: Seq<IpCall>)
    requires
        0 <= k < routes.len(),
        0 <= start,
        start + calls.len() <= down.len(),
        calls == down.subrange(start, start + calls.len()),
        calls.len() >= routes.len(),
        removes(calls.take(routes.len() as int), routes),
    ensures
        exists|j: int|
            0 <= j < down.len() && (#[trigger] down[j]) is RemoveRoute && down[j]->RemoveRoute_route
                == routes[k],
{
    let part = calls.take(routes.len() as int);
    assert(part[k] is RemoveRoute && part[k]->RemoveRoute_route == routes[k]);
    assert(part[k] == calls[k]);
    assert(calls[k] == down[start + k]);
}

proof fn lemma_plan_undone(
    ip: Seq<IpCall>,
    dns: Seq<DnsCall>,
    plan: Ipv4Plan,
    owner: Seq<char>,
    end: Ipv4End,
    down: Trace,
    v4: int,
    state: ActiveIpStateView,
    result: Result<(), IpEngineError>,
)
    requires
        carries_out(ip, dns, plan, owner, end),
        tears_down(down, v4, state, result),
        state.ipv4 == end.ipv4,
        state.dns_owner == end.dns_owner,
    ensures
        forall|i: int| 0 <= i < ip.len() ==> undone(#[trigger] ip[i], down.ip),
        forall|i: int|
            0 <= i < dns.len() ==> (#[trigger] dns[i] matches DnsCall::Apply {
                reply: Ok(ownership),
                ..
            } ==> down.dns.len() == 1 && down.dns[0] is Remove && down.dns[0]->Remove_ownership
                == ownership),
{
    let active = plan.state();
    let calls = down.ip.take(v4);
    let n = active.routes.len() as int;
    assert(takes_down_v4(calls, active));
    assert(calls =~= down.ip.subrange(0, calls.len() as int));
    assert(calls[n] == down.ip[n]);
    assert forall|i: int| 0 <= i < ip.len() implies undone(#[trigger] ip[i], down.ip) by {
        if i == 0 {
            if plan.config.gateway is Some {
                let all = active.routes;
                assert(all[1] == ipconfig::default_v4(
                    plan.interface_index,
                    plan.config.gateway->0,
                ));
                assert(all.skip(1)[0] == all[1]);
                reveal_with_fuel(first_gateway, 3);
            }
            assert(down.ip[n] is RemoveIpv4);
        } else {
            let added = ip.skip(1);
            assert(added[i - 1] == ip[i]);
            assert(added[i - 1] is AddRoute);
            let k = implied_v4(plan.interface_index, plan.config).len() + i - 1;
            assert(active.routes[k] == plan.routes[i - 1]);
            lemma_route_undone(active.routes, k, calls, 0, down.ip);
        }
    }
}

/// Everything that an IPv4 phase installed is removed when the state it reached
/// is torn down.
pub proof fn lemma_v4_undone(
    up: Trace,
    interface_index: i32,
    interface_name: Seq<char>,
    ipv4: IpConfigView,
    owner: Seq<char>,
    end: Ipv4End,
    down: Trace,
    v4: int,
    state: ActiveIpStateView,
    result: Result<(), IpEngineError>,
)
    requires
        brings_up_v4(up, interface_index, interface_name, ipv4, owner, end),
        tears_down(down, v4, state, result),
        state.ipv4 == end.ipv4,
        state.dns_owner == end.dns_owner,
    ensures
        all_undone(up, down),
{
    match ipv4.method {
        IpMethod::Disabled => {},
        IpMethod::Automatic => {
            if let DhcpCall::Acquire { request, reply: Ok(lease) } = up.dhcp[0] {
                lemma_plan_undone(
                    up.ip,
                    up.dns,
                    lease_plan(interface_index, lease, ipv4),
                    owner,
                    end,
                    down,
                    v4,
                    state,
                    result,
                );
            }
        },
        IpMethod::Manual => {
            if let Ok(plan) = manual_plan(interface_index, ipv4) {
                lemma_plan_undone(up.ip, up.dns, plan, owner, end, down, v4, state, result);
            }
        },
    }
}

/// Everything that an IPv6 phase installed is removed when the state it reached
/// is torn down.
pub proof fn lemma_v6_undone(
    up: Trace,
    interface_index: i32,
    ipv6: IpConfigView,
    link_local: Option<Ipv6Addr>,
    end: Ipv6End,
    down: Trace,
    v4: int,
    state: ActiveIpStateView,
    result: Result<(), IpEngineError>,
)
    requires
        brings_up_v6(up, interface_index, ipv6, link_local, end),
        tears_down(down, v4, state, result),
        state.ipv6 == end.ipv6,
    ensures
        all_undone(up, down),
{
    if ipv6.method == IpMethod::Manual {
        if let Ok(config) = manual_v6(ipv6) {
            let routes = of_family(ipv6.routes, IpFamily::V6);
            let active = state_v6(interface_index, config, routes);
            let calls = down.ip.skip(v4);
            let n = active.routes.len() as int;
            assert(takes_down_v6(calls, active));
            assert(calls =~= down.ip.subrange(v4, v4 + calls.len()));
            assert(calls[n] == down.ip[v4 + n]);
            assert forall|i: int| 0 <= i < up.ip.len() implies undone(
                #[trigger] up.ip[i],
                down.ip,
            ) by {
                if i == 0 {
                    assert(down.ip[v4 + n] is RemoveIpv6);
                } else {
                    let added = up.ip.skip(1);
                    assert(added[i - 1] == up.ip[i]);
                    assert(added[i - 1] is AddRoute);
                    let k = implied_v6(interface_index, config).len() + i - 1;
                    assert(active.routes[k] == routes[i - 1]);
                    lemma_route_undone(active.routes, k, calls, v4, down.ip);
                }
            }
        }
    }
}

/// Activation is all-or-nothing: when it fails, everything that it installed is
/// removed before the error is returned.
pub proof fn lemma_failed_activation_undone(
    run: Run,
    interface_index: i32,
    interface_name: Seq<char>,
    ipv4: IpConfigView,
    ipv6: IpConfigView,
    owner: Seq<char>,
    link_local: Option<Ipv6Addr>,
)
    requires
        activates(run, interface_index, interface_name, ipv4, ipv6, owner, link_local),
        run.error() is Some,
    ensures
        all_undone(run.up4, run.down),
        all_undone(run.up6, run.down),
{
    lemma_v4_undone(
        run.up4,
        interface_index,
        interface_name,
        ipv4,
        owner,
        run.end4,
        run.down,
        run.down_v4,
        run.state(),
        run.down_result,
    );
    if run.end4.result is Ok {
        lemma_v6_undone(
            run.up6,
            interface_index,
            ipv6,
            link_local,
            run.end6,
            run.down,
            run.down_v4,
            run.state(),
            run.down_result,
        );
    }
}

/// Tearing down the state of a successful activation removes everything that
/// the activation installed.
pub proof fn lemma_teardown_undoes_activation(
    run: Run,
    interface_index: i32,
    interface_name: Seq<char>,
    ipv4: IpConfigView,
    ipv6: IpConfigView,
    owner: Seq<char>,
    link_local: Option<Ipv6Addr>,
    down: Trace,
    v4: int,
    result: Result<(), IpEngineError>,
)
    requires
        activates(run, interface_index, interface_name, ipv4, ipv6, owner, link_local),
        run.error() is None,
        tears_down(down, v4, run.state(), result),
    ensures
        all_undone(run.up4, down),
        all_undone(run.up6, down),
{
    lemma_v4_undone(
        run.up4,
        interface_index,
        interface_name,
        ipv4,
        owner,
        run.end4,
        down,
        v4,
        run.state(),
        result,
    );
    lemma_v6_undone(
        run.up6,
        interface_index,
        ipv6,
        link_local,
        run.end6,
        down,
        v4,
        run.state(),
        result,
    );
}

/// A profile that disables both families changes nothing.
pub proof fn lemma_disabled_changes_nothing(
    run: Run,
    interface_index: i32,
    interface_name: Seq<char>,
    ipv4: IpConfigView,
    ipv6: IpConfigView,
    owner: Seq<char>,
    link_local: Option<Ipv6Addr>,
)
    requires
        activates(run, interface_index, interface_name, ipv4, ipv6, owner, link_local),
        ipv4.method == IpMethod::Disabled,
        ipv6.method == IpMethod::Disabled,
    ensures
        run.trace() == Trace::nothing(),
        run.state() == ActiveIpStateView::none(),
        run.error() is None,
{
    assert(run.trace() =~= Trace::nothing());
}

} // verus!
