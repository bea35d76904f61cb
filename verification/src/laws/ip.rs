//! Bringing IP configuration up and taking it down.

use vstd::prelude::*;

use crate::connection::activation::ActivationError;
use crate::connection::device::DeviceInfo;
use crate::connection::ip::{
    ActiveIpStateView, DhcpCall, DhcpClient, DnsCall, DnsManager, IpCall, IpConfigurator,
    Ipv4Source, Ipv6Source,
};
use crate::connection::ip::ActivationOutcome;
use crate::connection::profile::{IpConfigView, IpMethod, ProfileView};
use crate::connection::secrets::SecretProvider;
use crate::linux::activation::LinuxActivationEngine;
use crate::linux::ip_engine;
use crate::linux::ip_engine::{EngineCall, IpEngineError, Run, Trace};
use crate::linux::model::{Address, IpFamily, Link, Route, RouteKind, RouteScope};
use crate::linux::supplicant::SupplicantControl;
use crate::net::{IpAddr, Ipv4Addr, Ipv6Addr};

verus! {

/// The routes of a profile that belong to a family, in order.
pub open spec fn own_routes(routes: Seq<Route>, family: IpFamily) -> Seq<Route> {
    routes.filter(|route: Route| route.family == family)
}

pub(crate) proof fn lemma_own_routes(routes: Seq<Route>, family: IpFamily)
    ensures
        ip_engine::of_family(routes, family) == own_routes(routes, family),
    decreases routes.len(),
{
    reveal(Seq::filter);
    if routes.len() > 0 {
        lemma_own_routes(routes.drop_last(), family);
    }
}

/// Whether calls to the configurator, behind the first, install routes one after
/// the other.
pub open spec fn installs(calls: Seq<IpCall>, routes: Seq<Route>) -> bool {
    &&& calls.len() == 1 + routes.len()
    &&& forall|i: int|
        0 <= i < routes.len() ==> (#[trigger] calls[i + 1] matches IpCall::AddRoute { route, reply }
            && route == routes[i] && reply is Ok)
}

/// Whether a route leads to everything, over a gateway.
pub open spec fn is_default(route: Route, gateway: IpAddr, interface_index: i32) -> bool {
    &&& route.prefix_length == 0
    &&& route.gateway == Some(gateway)
    &&& route.output_interface == Some(interface_index)
    &&& route.kind == RouteKind::Unicast
    &&& route.scope == RouteScope::Universe
    &&& match (route.destination, gateway) {
        (IpAddr::V4(to), IpAddr::V4(_)) => to.bits == 0 && route.family == IpFamily::V4,
        (IpAddr::V6(to), IpAddr::V6(_)) => to.bits == 0 && route.family == IpFamily::V6,
        _ => false,
    }
}

/// Whether a route leads to the neighbours of an address, directly.
pub open spec fn is_connected(
    route: Route,
    address: IpAddr,
    prefix_length: u8,
    interface_index: i32,
) -> bool {
    &&& route.prefix_length == prefix_length
    &&& route.gateway is None
    &&& route.metric is None
    &&& route.output_interface == Some(interface_index)
    &&& route.kind == RouteKind::Unicast
    &&& route.scope == RouteScope::Link
    &&& match (route.destination, address) {
        (IpAddr::V4(to), IpAddr::V4(own)) => route.family == IpFamily::V4 && is_network(
            to.bits as int,
            own.bits as int,
            32 - prefix_length,
        ),
        (IpAddr::V6(to), IpAddr::V6(own)) => route.family == IpFamily::V6 && is_network(
            to.bits as int,
            own.bits as int,
            128 - prefix_length,
        ),
        _ => false,
    }
}

/// Whether a number is another one whose last `hosts` bits have been cleared; where
/// there are none, it is the other one.
pub open spec fn is_network(network: int, address: int, hosts: int) -> bool {
    let size = if hosts <= 0 {
        1
    } else {
        vstd::arithmetic::power2::pow2(hosts as nat) as int
    };
    &&& network % size == 0
    &&& network <= address < network + size
}

/// Whether the routes that are reported of a configuration are the one to its
/// neighbours, the default one if there is a gateway, and those of the profile.
pub open spec fn reports_routes(
    reported: Seq<Route>,
    address: IpAddr,
    prefix_length: u8,
    gateway: Option<IpAddr>,
    interface_index: i32,
    own: Seq<Route>,
) -> bool {
    let extra: int = if gateway is Some {
        2
    } else {
        1
    };
    &&& reported.len() == extra + own.len()
    &&& is_connected(reported[0], address, prefix_length, interface_index)
    &&& gateway is Some ==> is_default(reported[1], gateway->0, interface_index)
    &&& forall|i: int| 0 <= i < own.len() ==> #[trigger] reported[extra + i] == own[i]
}

/// The IPv4 address that an optional address is.
pub open spec fn v4(address: Option<IpAddr>) -> Option<Ipv4Addr> {
    match address {
        Some(IpAddr::V4(address)) => Some(address),
        _ => None,
    }
}

/// The IPv6 address that an optional address is.
pub open spec fn v6(address: Option<IpAddr>) -> Option<Ipv6Addr> {
    match address {
        Some(IpAddr::V6(address)) => Some(address),
        _ => None,
    }
}

/// An IPv4 address, as one of either family.
pub open spec fn either4(address: Option<Ipv4Addr>) -> Option<IpAddr> {
    match address {
        Some(address) => Some(IpAddr::V4(address)),
        None => None,
    }
}

/// An IPv6 address, as one of either family.
pub open spec fn either6(address: Option<Ipv6Addr>) -> Option<IpAddr> {
    match address {
        Some(address) => Some(IpAddr::V6(address)),
        None => None,
    }
}

pub(crate) proof fn lemma_network(n: nat, width: nat, prefix: nat)
    ensures
        crate::net::network(n, width, prefix) >= 0,
        is_network(crate::net::network(n, width, prefix), n as int, width - prefix),
{
    let hosts = crate::net::host_count(width, prefix);
    if prefix < width {
        vstd::arithmetic::power2::lemma_pow2_pos((width - prefix) as nat);
    }
    vstd::arithmetic::div_mod::lemma_mod_decreases(n, hosts);
    vstd::arithmetic::div_mod::lemma_fundamental_div_mod(n as int, hosts as int);
    vstd::arithmetic::div_mod::lemma_mod_multiples_basic(n as int / hosts as int, hosts as int);
    assert(n - n % hosts == (n as int / hosts as int) * hosts) by (nonlinear_arith)
        requires
            n as int == hosts as int * (n as int / hosts as int) + (n as int % hosts as int),
    ;
}

/// A manual IPv4 configuration is installed as the profile gives it. In every
/// activation that succeeds, the configurator is asked for the profile's address,
/// prefix length and gateway, and then for each IPv4 route of the profile; no lease
/// is asked for; DNS is given the profile's servers, if it has any; and exactly that
/// is reported, with a default route over the same gateway.
pub proof fn lemma_manual_ipv4_is_installed(
    run: Run,
    interface_index: i32,
    interface_name: Seq<char>,
    ipv4: IpConfigView,
    ipv6: IpConfigView,
    owner: Seq<char>,
    link_local: Option<Ipv6Addr>,
)
    requires
        ip_engine::activates(run, interface_index, interface_name, ipv4, ipv6, owner, link_local),
        run.error() is None,
        ipv4.method == IpMethod::Manual,
    ensures
        v4(ipv4.address) is Some,
        ipv4.prefix_length is Some,
        ({
            let address = v4(ipv4.address)->0;
            let prefix_length = ipv4.prefix_length->0;
            let gateway = v4(ipv4.gateway);
            let own = own_routes(ipv4.routes, IpFamily::V4);
            &&& run.up4.dhcp.len() == 0
            &&& run.up4.ip.len() > 0
            &&& run.up4.ip[0] matches IpCall::ConfigureIpv4 { interface_index: on, config, reply }
            &&& on == interface_index
            &&& config.address == address
            &&& config.prefix_length == prefix_length
            &&& config.gateway == gateway
            &&& reply is Ok
            &&& installs(run.up4.ip, own)
            &&& run.up4.dns.len() == if ipv4.dns_servers.len() == 0 {
                0int
            } else {
                1
            }
            &&& ipv4.dns_servers.len() > 0 ==> (run.up4.dns[0] matches DnsCall::Apply {
                owner: named,
                config,
                reply,
            } && named == owner && config.servers == ipv4.dns_servers && config.search_domains.len()
                == 0 && reply == Ok::<_, crate::connection::ip::DnsError>(run.state().dns_owner->0))
            &&& run.outcome().ipv4 matches Some(outcome)
            &&& outcome.address == address
            &&& outcome.prefix_length == prefix_length
            &&& outcome.gateway == gateway
            &&& outcome.dns_servers == ipv4.dns_servers
            &&& outcome.search_domains.len() == 0
            &&& outcome.source == Ipv4Source::Manual
            &&& outcome.lease is None
            &&& reports_routes(
                outcome.routes,
                IpAddr::V4(address),
                prefix_length,
                either4(gateway),
                interface_index,
                own,
            )
            &&& run.state().ipv4 matches Some(state)
            &&& state.interface_index == interface_index
            &&& state.address == address
            &&& state.prefix_length == prefix_length
            &&& state.routes == outcome.routes
            &&& state.lease is None
        }),
{
    lemma_own_routes(ipv4.routes, IpFamily::V4);
    let address = v4(ipv4.address)->0;
    lemma_network(address.bits as nat, 32, ipv4.prefix_length->0 as nat);
    let calls = run.up4.ip;
    let own = own_routes(ipv4.routes, IpFamily::V4);
    assert(ip_engine::adds(calls.skip(1), own));
    lemma_all_added(calls, own);
}

proof fn lemma_all_added(calls: Seq<IpCall>, own: Seq<Route>)
    requires
        calls.len() > 0,
        ip_engine::adds(calls.skip(1), own),
        ip_engine::reply_of(calls.last()) is Ok,
    ensures
        installs(calls, own),
{
    let added = calls.skip(1);
    if added.len() > 0 {
        assert(added.last() == calls.last());
    }
    assert forall|i: int| 0 <= i < own.len() implies (#[trigger] calls[i + 1] matches IpCall::AddRoute {
        route,
        reply,
    } && route == own[i] && reply is Ok) by {
        assert(added[i] == calls[i + 1]);
        assert(added[i] is AddRoute);
        if i == added.len() - 1 {
            assert(added[i] == added.last());
        }
    }
}

/// An automatic IPv4 configuration is installed as the lease gives it. In every
/// activation that succeeds, one lease is asked for on the interface; the
/// configurator is asked for the lease's address, prefix length and gateway, and
/// then for each IPv4 route of the profile; DNS is given the lease's servers and
/// domains, if it has any; and exactly that is reported.
pub proof fn lemma_automatic_ipv4_is_installed(
    run: Run,
    interface_index: i32,
    interface_name: Seq<char>,
    ipv4: IpConfigView,
    ipv6: IpConfigView,
    owner: Seq<char>,
    link_local: Option<Ipv6Addr>,
)
    requires
        ip_engine::activates(run, interface_index, interface_name, ipv4, ipv6, owner, link_local),
        run.error() is None,
        ipv4.method == IpMethod::Automatic,
    ensures
        ({
            let own = own_routes(ipv4.routes, IpFamily::V4);
            &&& run.up4.dhcp.len() == 1
            &&& run.up4.dhcp[0] matches DhcpCall::Acquire { request, reply: Ok(lease) }
            &&& request.interface_index == interface_index
            &&& request.interface_name == interface_name
            &&& request.hostname is None
            &&& request.requested_address is None
            &&& request.timeout_millis == 0
            &&& run.up4.ip.len() > 0
            &&& run.up4.ip[0] matches IpCall::ConfigureIpv4 { interface_index: on, config, reply }
            &&& on == interface_index
            &&& config.address == lease.address
            &&& config.prefix_length == lease.prefix_length
            &&& config.gateway == lease.gateway
            &&& reply is Ok
            &&& installs(run.up4.ip, own)
            &&& run.up4.dns.len() == if lease.dns_servers.len() == 0 && lease.search_domains.len()
                == 0 {
                0int
            } else {
                1
            }
            &&& run.up4.dns.len() == 1 ==> (run.up4.dns[0] matches DnsCall::Apply {
                owner: named,
                config,
                reply,
            } && named == owner && config.search_domains == lease.search_domains
                && config.servers.len() == lease.dns_servers.len() && (forall|i: int|
                0 <= i < lease.dns_servers.len() ==> #[trigger] config.servers[i] == IpAddr::V4(
                    lease.dns_servers[i],
                )) && reply == Ok::<_, crate::connection::ip::DnsError>(run.state().dns_owner->0))
            &&& run.outcome().ipv4 matches Some(outcome)
            &&& outcome.address == lease.address
            &&& outcome.prefix_length == lease.prefix_length
            &&& outcome.gateway == lease.gateway
            &&& outcome.dns_servers.len() == lease.dns_servers.len()
            &&& forall|i: int|
                0 <= i < lease.dns_servers.len() ==> #[trigger] outcome.dns_servers[i]
                    == IpAddr::V4(lease.dns_servers[i])
            &&& outcome.search_domains == lease.search_domains
            &&& outcome.source == Ipv4Source::AutomaticDhcp
            &&& outcome.lease == Some(lease)
            &&& reports_routes(
                outcome.routes,
                IpAddr::V4(lease.address),
                lease.prefix_length,
                either4(lease.gateway),
                interface_index,
                own,
            )
            &&& run.state().ipv4 matches Some(state)
            &&& state.interface_index == interface_index
            &&& state.address == lease.address
            &&& state.prefix_length == lease.prefix_length
            &&& state.routes == outcome.routes
            &&& state.lease == Some(lease)
        }),
{
    lemma_own_routes(ipv4.routes, IpFamily::V4);
    let own = own_routes(ipv4.routes, IpFamily::V4);
    if let DhcpCall::Acquire { request, reply: Ok(lease) } = run.up4.dhcp[0] {
        lemma_network(lease.address.bits as nat, 32, lease.prefix_length as nat);
        assert(ip_engine::adds(run.up4.ip.skip(1), own));
        lemma_all_added(run.up4.ip, own);
    }
}

/// Whether calls install routes, as many of them as were asked for, one after the
/// other behind the first call.
pub open spec fn asks_for(calls: Seq<IpCall>, routes: Seq<Route>) -> bool {
    &&& calls.len() <= 1 + routes.len()
    &&& forall|i: int|
        0 < i < calls.len() ==> (#[trigger] calls[i] matches IpCall::AddRoute { route, .. } && route
            == routes[i - 1])
    &&& forall|i: int|
        0 <= i < calls.len() - 1 ==> ip_engine::reply_of(#[trigger] calls[i]) is Ok
}

/// Whether it succeeds or not, an activation never asks for anything but what the
/// profile, or the lease, gives: the first call configures that address, prefix length
/// and gateway, the others add the profile's routes in order, none is made behind one
/// that was refused, and DNS is asked last.
pub proof fn lemma_only_what_is_given_is_asked_for(
    run: Run,
    interface_index: i32,
    interface_name: Seq<char>,
    ipv4: IpConfigView,
    ipv6: IpConfigView,
    owner: Seq<char>,
    link_local: Option<Ipv6Addr>,
)
    requires
        ip_engine::activates(run, interface_index, interface_name, ipv4, ipv6, owner, link_local),
    ensures
        ipv4.method == IpMethod::Disabled ==> run.up4.order.len() == 0,
        run.up4.ip.len() > 0 ==> {
            &&& asks_for(run.up4.ip, own_routes(ipv4.routes, IpFamily::V4))
            &&& run.up4.ip[0] matches IpCall::ConfigureIpv4 { interface_index: on, config, .. }
            &&& on == interface_index
            &&& ipv4.method == IpMethod::Manual ==> Some(config.address) == v4(ipv4.address)
                && Some(config.prefix_length) == ipv4.prefix_length && config.gateway == v4(
                ipv4.gateway,
            )
            &&& ipv4.method == IpMethod::Automatic ==> (run.up4.dhcp[0] matches DhcpCall::Acquire {
                reply: Ok(lease),
                ..
            } && config.address == lease.address && config.prefix_length == lease.prefix_length
                && config.gateway == lease.gateway)
        },
        run.up6.ip.len() > 0 ==> {
            &&& ipv6.method == IpMethod::Manual
            &&& asks_for(run.up6.ip, own_routes(ipv6.routes, IpFamily::V6))
            &&& run.up6.ip[0] matches IpCall::ConfigureIpv6 { interface_index: on, config, .. }
            &&& on == interface_index
            &&& Some(config.address) == v6(ipv6.address)
            &&& Some(config.prefix_length) == ipv6.prefix_length
            &&& config.gateway == v6(ipv6.gateway)
        },
        run.up4.order.len() == run.up4.dhcp.len() + run.up4.ip.len() + run.up4.dns.len(),
        forall|i: int|
            0 <= i < run.up4.dhcp.len() ==> #[trigger] run.up4.order[i] == EngineCall::Dhcp(
                run.up4.dhcp[i],
            ),
        forall|i: int|
            0 <= i < run.up4.ip.len() ==> #[trigger] run.up4.order[run.up4.dhcp.len() + i]
                == EngineCall::Ip(run.up4.ip[i]),
        forall|i: int|
            0 <= i < run.up4.dns.len() ==> #[trigger] run.up4.order[run.up4.dhcp.len()
                + run.up4.ip.len() + i] == EngineCall::Dns(run.up4.dns[i]),
{
    lemma_own_routes(ipv4.routes, IpFamily::V4);
    lemma_own_routes(ipv6.routes, IpFamily::V6);
    if run.up4.ip.len() > 0 {
        lemma_asks(run.up4.ip, own_routes(ipv4.routes, IpFamily::V4));
    }
    if run.up6.ip.len() > 0 {
        lemma_asks(run.up6.ip, own_routes(ipv6.routes, IpFamily::V6));
    }
}

proof fn lemma_asks(calls: Seq<IpCall>, routes: Seq<Route>)
    requires
        calls.len() > 0,
        ip_engine::reply_of(calls[0]) is Err ==> calls.len() == 1,
        ip_engine::reply_of(calls[0]) is Ok ==> ip_engine::adds(calls.skip(1), routes),
    ensures
        asks_for(calls, routes),
{
    let added = calls.skip(1);
    if ip_engine::reply_of(calls[0]) is Ok {
        assert forall|i: int| 0 < i < calls.len() implies (
        #[trigger] calls[i] matches IpCall::AddRoute { route, .. } && route == routes[i - 1]) by {
            assert(added[i - 1] == calls[i]);
            assert(added[i - 1] is AddRoute);
        }
        assert forall|i: int| 0 <= i < calls.len() - 1 implies ip_engine::reply_of(
            #[trigger] calls[i],
        ) is Ok by {
            if i > 0 {
                assert(added[i - 1] == calls[i]);
                assert(added[i - 1] is AddRoute);
            }
        }
    }
}

/// A manual IPv6 configuration is installed as the profile gives it, and an
/// automatic one leaves the interface to the kernel and reports the address that
/// the kernel gave it.
pub proof fn lemma_ipv6_is_installed(
    run: Run,
    interface_index: i32,
    interface_name: Seq<char>,
    ipv4: IpConfigView,
    ipv6: IpConfigView,
    owner: Seq<char>,
    link_local: Option<Ipv6Addr>,
)
    requires
        ip_engine::activates(run, interface_index, interface_name, ipv4, ipv6, owner, link_local),
        run.error() is None,
    ensures
        run.up6.dhcp.len() == 0,
        run.up6.dns.len() == 0,
        ipv6.method == IpMethod::Disabled ==> run.up6.ip.len() == 0 && run.outcome().ipv6 is None
            && run.state().ipv6 is None,
        ipv6.method == IpMethod::Automatic ==> {
            &&& run.up6.ip.len() == 0
            &&& run.state().ipv6 is None
            &&& run.outcome().ipv6 matches Some(outcome)
            &&& outcome.address is None
            &&& outcome.link_local == link_local
            &&& outcome.prefix_length == 64
            &&& outcome.gateway is None
            &&& outcome.routes.len() == 0
            &&& outcome.dns_servers.len() == 0
            &&& outcome.search_domains.len() == 0
            &&& outcome.source == Ipv6Source::AutomaticLinkLocal
        },
        ipv6.method == IpMethod::Manual ==> {
            let own = own_routes(ipv6.routes, IpFamily::V6);
            &&& v6(ipv6.address) matches Some(address)
            &&& ipv6.prefix_length matches Some(prefix_length)
            &&& run.up6.ip.len() > 0
            &&& run.up6.ip[0] matches IpCall::ConfigureIpv6 { interface_index: on, config, reply }
            &&& on == interface_index
            &&& config.address == address
            &&& config.prefix_length == prefix_length
            &&& config.gateway == v6(ipv6.gateway)
            &&& reply is Ok
            &&& installs(run.up6.ip, own)
            &&& run.outcome().ipv6 matches Some(outcome)
            &&& outcome.address == Some(address)
            &&& outcome.prefix_length == prefix_length
            &&& outcome.gateway == v6(ipv6.gateway)
            &&& outcome.dns_servers == ipv6.dns_servers
            &&& outcome.search_domains.len() == 0
            &&& outcome.link_local is None
            &&& outcome.source == Ipv6Source::Manual
            &&& reports_routes(
                outcome.routes,
                IpAddr::V6(address),
                prefix_length,
                either6(v6(ipv6.gateway)),
                interface_index,
                own,
            )
            &&& run.state().ipv6 matches Some(state)
            &&& state.interface_index == interface_index
            &&& state.link_local == Some(address)
            &&& state.prefix_length == prefix_length
            &&& state.routes == outcome.routes
            &&& state.source == Ipv6Source::Manual
        },
{
    lemma_own_routes(ipv6.routes, IpFamily::V6);
    if ipv6.method == IpMethod::Manual {
        let own = own_routes(ipv6.routes, IpFamily::V6);
        let address = v6(ipv6.address)->0;
        lemma_network(address.bits as nat, 128, ipv6.prefix_length->0 as nat);
        assert(ip_engine::adds(run.up6.ip.skip(1), own));
        lemma_all_added(run.up6.ip, own);
    }
}

/// An activation succeeds when nothing it asks for is refused and the profile is
/// complete: an error comes from a lease, a configuration, a route or DNS that was
/// refused, or from a manual method without an address of its family or without a
/// prefix length, and then nothing was asked for in that phase.
pub proof fn lemma_errors_have_reasons(
    run: Run,
    interface_index: i32,
    interface_name: Seq<char>,
    ipv4: IpConfigView,
    ipv6: IpConfigView,
    owner: Seq<char>,
    link_local: Option<Ipv6Addr>,
)
    requires
        ip_engine::activates(run, interface_index, interface_name, ipv4, ipv6, owner, link_local),
    ensures
        run.error() matches Some(e) ==> match e {
            IpEngineError::Dhcp(why) => ipv4.method == IpMethod::Automatic && run.up4.dhcp.len() == 1
                && (run.up4.dhcp[0] matches DhcpCall::Acquire { reply: Err(said), .. } && said
                == why) && run.up4.ip.len() == 0 && run.up4.dns.len() == 0,
            IpEngineError::Dns(why) => run.up4.dns.len() == 1 && (
            run.up4.dns[0] matches DnsCall::Apply { reply: Err(said), .. } && said == why),
            IpEngineError::IpConfig(why) => {
                let calls = if run.up6.ip.len() > 0 {
                    run.up6.ip
                } else {
                    run.up4.ip
                };
                calls.len() > 0 && ip_engine::reply_of(calls.last()) == Err::<
                    (),
                    crate::connection::ip::IpConfigError,
                >(why)
            },
            IpEngineError::InvalidConfig(_) => {
                ||| ipv4.method == IpMethod::Manual && (v4(ipv4.address) is None
                    || ipv4.prefix_length is None) && run.up4.ip.len() == 0 && run.up4.dns.len()
                    == 0 && run.up4.dhcp.len() == 0
                ||| ipv6.method == IpMethod::Manual && (v6(ipv6.address) is None
                    || ipv6.prefix_length is None) && run.up6.ip.len() == 0
            },
            _ => false,
        },
        ipv4.method == IpMethod::Manual && (v4(ipv4.address) is None || ipv4.prefix_length is None)
            ==> run.error() is Some,
        run.error() is None && ipv6.method == IpMethod::Manual ==> v6(ipv6.address) is Some
            && ipv6.prefix_length is Some,
{
}

proof fn lemma_first_gateway(routes: Seq<Route>)
    ensures
        match ip_engine::first_gateway(routes) {
            Some(gateway) => exists|i: int|
                0 <= i < routes.len() && (#[trigger] routes[i]).gateway == Some(IpAddr::V4(gateway))
                    && forall|j: int| 0 <= j < i ==> v4((#[trigger] routes[j]).gateway) is None,
            None => forall|i: int|
                0 <= i < routes.len() ==> v4((#[trigger] routes[i]).gateway) is None,
        },
    decreases routes.len(),
{
    if routes.len() > 0 {
        let more = routes.skip(1);
        lemma_first_gateway(more);
        assert(forall|i: int| 0 < i < routes.len() ==> #[trigger] routes[i] == more[i - 1]);
        assert(forall|i: int| 0 <= i < more.len() ==> #[trigger] more[i] == routes[i + 1]);
        if let Some(gateway) = ip_engine::first_gateway(routes) {
            if v4(routes[0].gateway) is None {
                let k = choose|i: int|
                    0 <= i < more.len() && (#[trigger] more[i]).gateway == Some(IpAddr::V4(gateway))
                        && forall|j: int| 0 <= j < i ==> v4((#[trigger] more[j]).gateway) is None;
                assert(routes[k + 1].gateway == Some(IpAddr::V4(gateway)));
            } else {
                assert(routes[0].gateway == Some(IpAddr::V4(gateway)));
            }
        }
    }
}

/// Taking a state down undoes everything in it: its DNS configuration is removed,
/// each of its routes, its lease is released and its addresses are removed, and
/// nothing else is asked for. It succeeds exactly when DNS and the addresses were
/// removed.
pub proof fn lemma_teardown_takes_all_down(
    trace: Trace,
    split: int,
    state: ActiveIpStateView,
    result: Result<(), IpEngineError>,
)
    requires
        ip_engine::tears_down(trace, split, state, result),
    ensures
        match state.dns_owner {
            Some(ownership) => trace.dns.len() == 1 && (trace.dns[0] matches DnsCall::Remove {
                ownership: removed,
                ..
            } && removed == ownership),
            None => trace.dns.len() == 0,
        },
        match state.ipv4 {
            Some(ipv4) => match ipv4.lease {
                Some(lease) => trace.dhcp.len() == 1 && (trace.dhcp[0] matches DhcpCall::Release {
                    lease: released,
                    ..
                } && released == lease),
                None => trace.dhcp.len() == 0,
            },
            None => trace.dhcp.len() == 0,
        },
        state.ipv4 matches Some(ipv4) ==> {
            &&& forall|i: int|
                0 <= i < ipv4.routes.len() ==> (#[trigger] trace.ip[i] matches IpCall::RemoveRoute {
                    route,
                    ..
                } && route == ipv4.routes[i])
            &&& trace.ip[ipv4.routes.len() as int] matches IpCall::RemoveIpv4 {
                interface_index,
                config,
                ..
            }
            &&& interface_index == ipv4.interface_index
            &&& config.address == ipv4.address
            &&& config.prefix_length == ipv4.prefix_length
            &&& match config.gateway {
                Some(gateway) => exists|i: int|
                    0 <= i < ipv4.routes.len() && (#[trigger] ipv4.routes[i]).gateway == Some(
                        IpAddr::V4(gateway),
                    ) && forall|j: int|
                        0 <= j < i ==> v4((#[trigger] ipv4.routes[j]).gateway) is None,
                None => forall|i: int|
                    0 <= i < ipv4.routes.len() ==> v4((#[trigger] ipv4.routes[i]).gateway) is None,
            }
        },
        state.ipv6 matches Some(ipv6) ==> {
            let start = match state.ipv4 {
                Some(ipv4) => ipv4.routes.len() + 1,
                None => 0,
            };
            &&& forall|i: int|
                0 <= i < ipv6.routes.len() ==> (
                #[trigger] trace.ip[start + i] matches IpCall::RemoveRoute { route, .. } && route
                    == ipv6.routes[i])
            &&& ipv6.source == Ipv6Source::Manual && ipv6.link_local is Some ==> (
            trace.ip[(start + ipv6.routes.len()) as int] matches IpCall::RemoveIpv6 {
                interface_index,
                config,
                ..
            } && interface_index == ipv6.interface_index && config.address == ipv6.link_local->0
                && config.prefix_length == ipv6.prefix_length)
        },
        trace.ip.len() == (match state.ipv4 {
            Some(ipv4) => ipv4.routes.len() + 1,
            None => 0,
        }) + (match state.ipv6 {
            Some(ipv6) => ipv6.routes.len() + if ipv6.source == Ipv6Source::Manual
                && ipv6.link_local is Some {
                1int
            } else {
                0
            },
            None => 0int,
        }),
        result is Ok <==> {
            &&& forall|i: int| 0 <= i < trace.dns.len() ==> (#[trigger] trace.dns[i])->Remove_reply is Ok
            &&& forall|i: int|
                0 <= i < trace.ip.len() && (trace.ip[i] is RemoveIpv4 || trace.ip[i] is RemoveIpv6)
                    ==> ip_engine::reply_of(#[trigger] trace.ip[i]) is Ok
        },
        trace.order.len() == trace.dns.len() + trace.dhcp.len() + trace.ip.len(),
        state.dns_owner is Some ==> trace.order[0] == EngineCall::Dns(trace.dns[0]),
        state.ipv4 matches Some(ipv4) ==> ipv4.lease is Some ==> {
            let k = trace.dns.len() + ipv4.routes.len();
            &&& trace.order[k as int] == EngineCall::Dhcp(trace.dhcp[0])
            &&& trace.order[(k + 1) as int] == EngineCall::Ip(trace.ip[ipv4.routes.len() as int])
        },
{
    let first = trace.ip.take(split);
    let second = trace.ip.skip(split);
    let order = trace.order;
    if let Some(ipv4) = state.ipv4 {
        lemma_first_gateway(ipv4.routes);
        let n = ipv4.routes.len() as int;
        let part = first.take(n);
        assert forall|i: int| 0 <= i < n implies (#[trigger] trace.ip[i] matches IpCall::RemoveRoute {
            route,
            ..
        } && route == ipv4.routes[i]) by {
            assert(part[i] == trace.ip[i]);
            assert(part[i] is RemoveRoute);
        }
        assert(first[n] == trace.ip[n]);
        assert(first.last() == first[n]);
    }
    if let Some(ipv6) = state.ipv6 {
        let m = ipv6.routes.len() as int;
        let part = second.take(m);
        assert forall|i: int| 0 <= i < m implies (
        #[trigger] trace.ip[split + i] matches IpCall::RemoveRoute { route, .. } && route
            == ipv6.routes[i]) by {
            assert(part[i] == second[i]);
            assert(second[i] == trace.ip[split + i]);
            assert(part[i] is RemoveRoute);
        }
        if second.len() > m {
            assert(second[m] == trace.ip[split + m]);
            assert(second.last() == second[m]);
        } else if m > 0 {
            assert(second.last() == part[m - 1]);
        }
    }
    assert forall|i: int|
        0 <= i < trace.ip.len() && (trace.ip[i] is RemoveIpv4 || trace.ip[i] is RemoveIpv6) implies i
        == split - 1 && state.ipv4 is Some || i == trace.ip.len() - 1 && state.ipv6 is Some by {
        if i < split {
            assert(first[i] == trace.ip[i]);
            if let Some(ipv4) = state.ipv4 {
                let n = ipv4.routes.len() as int;
                if i < n {
                    assert(first.take(n)[i] == trace.ip[i]);
                }
            }
        } else {
            assert(second[i - split] == trace.ip[i]);
            if let Some(ipv6) = state.ipv6 {
                let m = ipv6.routes.len() as int;
                if i - split < m {
                    assert(second.take(m)[i - split] == trace.ip[i]);
                }
            }
        }
    }
    assert(ip_engine::of_ip(trace.ip).len() == trace.ip.len());
}

/// A connection is configured as its profile says: the IP configurations of the
/// profile are brought up on the interface of the device, the outcome of that is what
/// is answered, and the connection is remembered under the profile's id with what was
/// reached. After a failure nothing is remembered.
pub proof fn lemma_connection_is_configured_as_its_profile_says<
    S: SupplicantControl,
    P: SecretProvider,
    C: IpConfigurator,
    D: DhcpClient,
    N: DnsManager,
>(
    engine: LinuxActivationEngine<S, P, C, D, N>,
    run: Run,
    profile: ProfileView,
    device: DeviceInfo,
    interface_index: i32,
    link_local: Option<Ipv6Addr>,
    reply: Result<ActivationOutcome, ActivationError>,
    after: LinuxActivationEngine<S, P, C, D, N>,
)
    requires
        engine.configures(run, profile, device, interface_index, link_local, reply, after),
    ensures
        ip_engine::activates(
            run,
            interface_index,
            device.interface_name@,
            profile.ipv4,
            profile.ipv6,
            "nmd/"@ + profile.id + "/"@ + device.interface_name@,
            link_local,
        ),
        reply is Ok <==> run.error() is None,
        reply matches Ok(outcome) ==> {
            &&& outcome@.ipv4 == run.outcome().ipv4
            &&& outcome@.ipv6 == run.outcome().ipv6
            &&& after.active matches Some((id, state)) && id@ == profile.id && state@
                == run.state()
        },
        reply is Err ==> after.active is None,
{
}

/// The interface of a device is the first link with its name, and its link-local
/// address is the first such address of the interface.
pub proof fn lemma_interface_is_looked_up(
    links: Seq<Link>,
    name: Seq<char>,
    addresses: Seq<Address>,
    interface_index: i32,
)
    ensures
        match ip_engine::index_named(links, name) {
            Some(index) => exists|k: int|
                0 <= k < links.len() && (#[trigger] links[k]).name@ == name && links[k].index
                    == index && forall|i: int| 0 <= i < k ==> (#[trigger] links[i]).name@ != name,
            None => forall|i: int| 0 <= i < links.len() ==> (#[trigger] links[i]).name@ != name,
        },
        match ip_engine::link_local_in(addresses, interface_index) {
            Some(found) => exists|k: int|
                0 <= k < addresses.len() && is_own_link_local(
                    #[trigger] addresses[k],
                    interface_index,
                ) && addresses[k].address == IpAddr::V6(found) && forall|i: int|
                    0 <= i < k ==> !is_own_link_local(#[trigger] addresses[i], interface_index),
            None => forall|i: int|
                0 <= i < addresses.len() ==> !is_own_link_local(
                    #[trigger] addresses[i],
                    interface_index,
                ),
        },
{
    lemma_index_named(links, name);
    lemma_link_local(addresses, interface_index);
}

/// Whether an address is a link-local one of an interface.
pub open spec fn is_own_link_local(address: Address, interface_index: i32) -> bool {
    &&& address.interface_index as int == if interface_index < 0 {
        interface_index + 0x1_0000_0000
    } else {
        interface_index as int
    }
    &&& address.address matches IpAddr::V6(found) && found.link_local()
}

proof fn lemma_index_named(links: Seq<Link>, name: Seq<char>)
    ensures
        match ip_engine::index_named(links, name) {
            Some(index) => exists|k: int|
                0 <= k < links.len() && (#[trigger] links[k]).name@ == name && links[k].index
                    == index && forall|i: int| 0 <= i < k ==> (#[trigger] links[i]).name@ != name,
            None => forall|i: int| 0 <= i < links.len() ==> (#[trigger] links[i]).name@ != name,
        },
    decreases links.len(),
{
    if links.len() > 0 && links[0].name@ != name {
        let more = links.skip(1);
        lemma_index_named(more, name);
        assert(forall|i: int| 0 < i < links.len() ==> #[trigger] links[i] == more[i - 1]);
        assert(forall|i: int| 0 <= i < more.len() ==> #[trigger] more[i] == links[i + 1]);
        if let Some(index) = ip_engine::index_named(links, name) {
            let k = choose|k: int|
                0 <= k < more.len() && (#[trigger] more[k]).name@ == name && more[k].index == index
                    && forall|i: int| 0 <= i < k ==> (#[trigger] more[i]).name@ != name;
            assert(links[k + 1].name@ == name);
        }
    } else if links.len() > 0 {
        assert(links[0].name@ == name);
    }
}

proof fn lemma_link_local(addresses: Seq<Address>, interface_index: i32)
    ensures
        match ip_engine::link_local_in(addresses, interface_index) {
            Some(found) => exists|k: int|
                0 <= k < addresses.len() && is_own_link_local(
                    #[trigger] addresses[k],
                    interface_index,
                ) && addresses[k].address == IpAddr::V6(found) && forall|i: int|
                    0 <= i < k ==> !is_own_link_local(#[trigger] addresses[i], interface_index),
            None => forall|i: int|
                0 <= i < addresses.len() ==> !is_own_link_local(
                    #[trigger] addresses[i],
                    interface_index,
                ),
        },
    decreases addresses.len(),
{
    if addresses.len() > 0 {
        let more = addresses.skip(1);
        lemma_link_local(more, interface_index);
        assert(forall|i: int| 0 < i < addresses.len() ==> #[trigger] addresses[i] == more[i - 1]);
        assert(forall|i: int| 0 <= i < more.len() ==> #[trigger] more[i] == addresses[i + 1]);
        if is_own_link_local(addresses[0], interface_index) {
            assert(addresses[0].address == IpAddr::V6(
                ip_engine::link_local_in(addresses, interface_index)->0,
            ));
        } else if let Some(found) = ip_engine::link_local_in(addresses, interface_index) {
            let k = choose|k: int|
                0 <= k < more.len() && is_own_link_local(#[trigger] more[k], interface_index)
                    && more[k].address == IpAddr::V6(found) && forall|i: int|
                    0 <= i < k ==> !is_own_link_local(#[trigger] more[i], interface_index);
            assert(is_own_link_local(addresses[k + 1], interface_index));
        }
    }
}

/// The DNS configuration of a connection is owned by the daemon, the profile and
/// the interface.
pub proof fn lemma_dns_owner_names_the_connection<
    S: SupplicantControl,
    P: SecretProvider,
    C: IpConfigurator,
    D: DhcpClient,
    N: DnsManager,
>(
    engine: LinuxActivationEngine<S, P, C, D, N>,
    run: Run,
    profile: ProfileView,
    device: DeviceInfo,
    interface_index: i32,
    link_local: Option<Ipv6Addr>,
    reply: Result<ActivationOutcome, ActivationError>,
    after: LinuxActivationEngine<S, P, C, D, N>,
    i: int,
)
    requires
        engine.configures(run, profile, device, interface_index, link_local, reply, after),
        0 <= i < run.up4.dns.len(),
    ensures
        run.up4.dns[i] matches DnsCall::Apply { owner, .. } && owner == "nmd/"@ + profile.id + "/"@
            + device.interface_name@,
{
}

} // verus!
