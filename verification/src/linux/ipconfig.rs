//! rtnetlink requests that install and remove addresses and routes, as
//! `ip addr` and `ip route` do.
//!
//! Every request asks for an acknowledgement, and the kernel's reply is read,
//! so failures (such as a duplicate address) surface as errors. A change may
//! take several requests: a [`Plan`] holds them and says what to send next and
//! what the replies add up to.

use vstd::prelude::*;

use crate::bytes;
use crate::bytes::{ne32_vec, to_unsigned};
use crate::connection::ip::{IpConfigError, Ipv4Config, Ipv6Config};
use crate::linux::model::{Address, IpFamily, NetlinkError, Route, RouteKind, RouteScope};
use crate::linux::netlink;
use crate::linux::netlink::{
    build_netlink_message, ifaddr_payload, rtmsg_payload, Attrs, IfAddrMsg, RtMsg, AF_INET,
    AF_INET6, IFA_ADDRESS, IFA_LOCAL, RTA_DST, RTA_GATEWAY, RTA_OIF, RTA_PRIORITY, RTM_DELADDR,
    RTM_DELROUTE, RTM_NEWADDR, RTM_NEWROUTE, RTPROT_STATIC, RT_TABLE_MAIN,
};
use crate::net;
use crate::net::{IpAddr, Ipv4Addr, Ipv6Addr};

verus! {

/// Request, create, fail if it exists, acknowledge.
pub const ADD_FLAGS: u16 = 0x0605;

/// Request, create, replace what exists, acknowledge.
pub const REPLACE_FLAGS: u16 = 0x0505;

/// Request, acknowledge.
pub const REMOVE_FLAGS: u16 = 0x0005;

// --- Messages -----------------------------------------------------------------------

/// The octets of an address.
pub open spec fn ip_octets(ip: IpAddr) -> Seq<u8> {
    match ip {
        IpAddr::V4(address) => address.octets_view(),
        IpAddr::V6(address) => address.octets_view(),
    }
}

/// The octets of an address.
pub fn ip_bytes(ip: IpAddr) -> (r: Vec<u8>)
    ensures
        r@ == ip_octets(ip),
{
    match ip {
        IpAddr::V4(address) => address.octets_vec(),
        IpAddr::V6(address) => address.octets_vec(),
    }
}

/// The number of an address family.
pub open spec fn family_number(family: IpFamily) -> u8 {
    match family {
        IpFamily::V4 => AF_INET,
        IpFamily::V6 => AF_INET6,
    }
}

fn family_bytes(family: IpFamily) -> (r: u8)
    ensures
        r == family_number(family),
{
    match family {
        IpFamily::V4 => AF_INET,
        IpFamily::V6 => AF_INET6,
    }
}

/// The attributes that describe a route. A default route has no destination.
pub open spec fn route_attrs(route: Route) -> Seq<(u16, Seq<u8>)> {
    let index = match route.output_interface {
        Some(index) => index as int,
        None => 0,
    };
    (if route.default_route() {
        Seq::empty()
    } else {
        seq![(RTA_DST, ip_octets(route.destination))]
    }) + match route.gateway {
        Some(gateway) => seq![(RTA_GATEWAY, ip_octets(gateway))],
        None => Seq::empty(),
    } + seq![(RTA_OIF, bytes::ne32_octets(bytes::unsigned32(index)))] + match route.metric {
        Some(metric) => seq![(RTA_PRIORITY, bytes::ne32_octets(metric as nat))],
        None => Seq::empty(),
    }
}

/// The payload that describes a route.
pub open spec fn route_payload(route: Route) -> Seq<u8> {
    netlink::rtmsg_octets(
        family_number(route.family),
        route.prefix_length,
        RT_TABLE_MAIN,
        route.scope.number(),
        route.kind.number(),
        route_attrs(route),
    )
}

/// Builds a route request.
pub fn build_route_message(message_type: u16, flags: u16, route: &Route) -> (r: Vec<u8>)
    ensures
        r@ == netlink::request_octets(message_type, flags, route_payload(*route)),
{
    let mut attrs: Vec<(u16, Vec<u8>)> = Vec::new();
    if !route.is_default() {
        attrs.push((RTA_DST, ip_bytes(route.destination)));
    }
    if let Some(gateway) = route.gateway {
        attrs.push((RTA_GATEWAY, ip_bytes(gateway)));
    }
    let index: i32 = match route.output_interface {
        Some(index) => index,
        None => 0,
    };
    attrs.push((RTA_OIF, ne32_vec(to_unsigned(index))));
    if let Some(metric) = route.metric {
        attrs.push((RTA_PRIORITY, ne32_vec(metric)));
    }
    assert(netlink::attr_views(attrs@) =~= route_attrs(*route));
    let payload: Vec<u8> = rtmsg_payload(
        family_bytes(route.family),
        route.prefix_length,
        RT_TABLE_MAIN,
        route.scope.as_u8(),
        route.kind.as_u8(),
        attrs.as_slice(),
    );
    build_netlink_message(message_type, flags, payload.as_slice())
}

/// The payload that describes an interface address.
pub open spec fn address_payload(index: i32, address: IpAddr, prefix_length: u8) -> Seq<u8> {
    netlink::ifaddr_octets(
        match address {
            IpAddr::V4(_) => AF_INET,
            IpAddr::V6(_) => AF_INET6,
        },
        prefix_length,
        index,
        seq![(IFA_LOCAL, ip_octets(address)), (IFA_ADDRESS, ip_octets(address))],
    )
}

/// Builds an address request.
pub fn build_address_message(
    message_type: u16,
    flags: u16,
    interface_index: i32,
    address: IpAddr,
    prefix_length: u8,
) -> (r: Vec<u8>)
    ensures
        r@ == netlink::request_octets(
            message_type,
            flags,
            address_payload(interface_index, address, prefix_length),
        ),
{
    let mut attrs: Vec<(u16, Vec<u8>)> = Vec::new();
    attrs.push((IFA_LOCAL, ip_bytes(address)));
    attrs.push((IFA_ADDRESS, ip_bytes(address)));
    assert(netlink::attr_views(attrs@) =~= seq![
        (IFA_LOCAL, ip_octets(address)),
        (IFA_ADDRESS, ip_octets(address)),
    ]);
    let family: u8 = match address {
        IpAddr::V4(_) => AF_INET,
        IpAddr::V6(_) => AF_INET6,
    };
    let payload: Vec<u8> = ifaddr_payload(
        family,
        prefix_length,
        interface_index,
        attrs.as_slice(),
    );
    build_netlink_message(message_type, flags, payload.as_slice())
}

// --- Plans ------------------------------------------------------------------------------

/// A request of a plan. A failure of one that is not required is ignored.
#[derive(Debug, PartialEq, Eq)]
pub struct Step {
    pub message: Vec<u8>,
    pub required: bool,
}

/// A request of a plan, with its octets as a sequence.
#[verifier::ext_equal]
pub struct StepView {
    pub message: Seq<u8>,
    pub required: bool,
}

impl Step {
    pub open spec fn view(&self) -> StepView {
        StepView { message: self.message@, required: self.required }
    }
}

/// The views of a list of steps.
pub open spec fn step_views(steps: Seq<Step>) -> Seq<StepView> {
    steps.map_values(|step: Step| step@)
}

/// The requests that a change takes, and how far it got.
#[derive(Debug, PartialEq, Eq)]
pub struct Plan {
    pub steps: Vec<Step>,
    pub next: usize,
}

/// What a sequence of replies to the steps of a plan adds up to: the first
/// failure of a required step ends it.
pub open spec fn plan_result(steps: Seq<StepView>, replies: Seq<Result<(), NetlinkError>>) -> Option<
    Result<(), IpConfigError>,
>
    decreases steps.len(),
{
    if steps.len() == 0 {
        Some(Ok(()))
    } else if replies.len() == 0 {
        None
    } else {
        match replies[0] {
            Err(err) if steps[0].required => Some(Err(IpConfigError::Netlink(err))),
            _ => plan_result(steps.skip(1), replies.skip(1)),
        }
    }
}

impl Plan {
    /// The steps that are still to be sent.
    pub open spec fn rest(self) -> Seq<StepView> {
        step_views(self.steps@).skip(self.next as int)
    }

    /// Whether the position is within the plan.
    pub open spec fn wf(self) -> bool {
        self.next <= self.steps@.len()
    }

    fn of(steps: Vec<Step>) -> (r: Self)
        ensures
            r.wf(),
            r.rest() == step_views(steps@),
    {
        let plan = Plan { steps, next: 0 };
        assert(plan.rest() =~= step_views(steps@));
        plan
    }

    /// The request to send next; none when the plan is done.
    pub fn request(&self) -> (r: Option<&[u8]>)
        requires
            self.wf(),
        ensures
            match r {
                Some(message) => self.rest().len() > 0 && message@ == self.rest()[0].message,
                None => self.rest().len() == 0,
            },
    {
        if self.next < self.steps.len() {
            Some(self.steps[self.next].message.as_slice())
        } else {
            None
        }
    }

    /// Takes the reply to the request that was sent. The result is the error
    /// that the whole change fails with, if it does.
    pub fn on_reply(&mut self, reply: Result<(), NetlinkError>) -> (r: Result<(), IpConfigError>)
        requires
            old(self).wf(),
            old(self).rest().len() > 0,
        ensures
            final(self).wf(),
            final(self).rest() == old(self).rest().skip(1),
            final(self).steps == old(self).steps,
            r == match reply {
                Err(err) if old(self).rest()[0].required => Err(IpConfigError::Netlink(err)),
                _ => Ok(()),
            },
    {
        let required: bool = self.steps[self.next].required;
        assert(self.steps@.len() == self.steps.len());
        self.next = self.next + 1;
        assert(self.rest() =~= old(self).rest().skip(1));
        match reply {
            Err(err) => {
                if required {
                    Err(IpConfigError::Netlink(err))
                } else {
                    Ok(())
                }
            },
            Ok(()) => Ok(()),
        }
    }
}

/// Feeding a plan the reply to its first request leaves the result of the
/// others, unless the reply decides it.
pub proof fn lemma_plan_step(steps: Seq<StepView>, replies: Seq<Result<(), NetlinkError>>)
    requires
        steps.len() > 0,
        replies.len() > 0,
    ensures
        plan_result(steps, replies) == match replies[0] {
            Err(err) if steps[0].required => Some(Err(IpConfigError::Netlink(err))),
            _ => plan_result(steps.skip(1), replies.skip(1)),
        },
{
}

// --- The configurator -------------------------------------------------------------------

/// Plans IPv4/IPv6 address and route changes through rtnetlink.
#[derive(Clone, Copy, Debug, PartialEq, Eq, Structural)]
pub struct LinuxIpConfigurator;

/// The default route of an IPv4 configuration.
pub open spec fn default_v4(interface_index: i32, gateway: Ipv4Addr) -> Route {
    Route {
        family: IpFamily::V4,
        destination: IpAddr::V4(Ipv4Addr { bits: 0 }),
        prefix_length: 0,
        gateway: Some(IpAddr::V4(gateway)),
        output_interface: Some(interface_index),
        metric: None,
        kind: RouteKind::Unicast,
        scope: RouteScope::Universe,
    }
}

/// The default route of an IPv4 configuration.
pub fn default_route_v4(interface_index: i32, gateway: Ipv4Addr) -> (r: Route)
    ensures
        r == default_v4(interface_index, gateway),
{
    Route {
        family: IpFamily::V4,
        destination: IpAddr::V4(Ipv4Addr::unspecified()),
        prefix_length: 0,
        gateway: Some(IpAddr::V4(gateway)),
        output_interface: Some(interface_index),
        metric: None,
        kind: RouteKind::Unicast,
        scope: RouteScope::Universe,
    }
}

/// The default route of an IPv6 configuration.
pub open spec fn default_v6(interface_index: i32, gateway: Ipv6Addr) -> Route {
    Route {
        family: IpFamily::V6,
        destination: IpAddr::V6(Ipv6Addr { bits: 0 }),
        prefix_length: 0,
        gateway: Some(IpAddr::V6(gateway)),
        output_interface: Some(interface_index),
        metric: None,
        kind: RouteKind::Unicast,
        scope: RouteScope::Universe,
    }
}

/// The default route of an IPv6 configuration.
pub fn default_route_v6(interface_index: i32, gateway: Ipv6Addr) -> (r: Route)
    ensures
        r == default_v6(interface_index, gateway),
{
    Route {
        family: IpFamily::V6,
        destination: IpAddr::V6(Ipv6Addr::unspecified()),
        prefix_length: 0,
        gateway: Some(IpAddr::V6(gateway)),
        output_interface: Some(interface_index),
        metric: None,
        kind: RouteKind::Unicast,
        scope: RouteScope::Universe,
    }
}

/// The request that installs a route, replacing one that is there.
pub open spec fn add_route_step(route: Route) -> StepView {
    StepView {
        message: netlink::request_octets(RTM_NEWROUTE, REPLACE_FLAGS, route_payload(route)),
        required: true,
    }
}

/// The request that removes a route.
pub open spec fn remove_route_step(route: Route, required: bool) -> StepView {
    StepView {
        message: netlink::request_octets(RTM_DELROUTE, REMOVE_FLAGS, route_payload(route)),
        required,
    }
}

/// The request that installs an address.
pub open spec fn add_address_step(index: i32, address: IpAddr, prefix_length: u8) -> StepView {
    StepView {
        message: netlink::request_octets(
            RTM_NEWADDR,
            ADD_FLAGS,
            address_payload(index, address, prefix_length),
        ),
        required: true,
    }
}

/// The request that removes an address.
pub open spec fn remove_address_step(index: i32, address: IpAddr, prefix_length: u8) -> StepView {
    StepView {
        message: netlink::request_octets(
            RTM_DELADDR,
            REMOVE_FLAGS,
            address_payload(index, address, prefix_length),
        ),
        required: true,
    }
}

impl LinuxIpConfigurator {
    /// A configurator.
    pub fn new() -> (r: Self) {
        LinuxIpConfigurator
    }

    /// Plans the address and, with a gateway, the default route of an IPv4
    /// configuration.
    pub fn configure_ipv4(&mut self, interface_index: i32, config: &Ipv4Config) -> (r: Result<
        Plan,
        IpConfigError,
    >)
        ensures
            match r {
                Ok(plan) => config.prefix_length <= 32 && plan.wf() && plan.rest() == seq![
                    add_address_step(
                        interface_index,
                        IpAddr::V4(config.address),
                        config.prefix_length,
                    ),
                ] + match config.gateway {
                    Some(gateway) => seq![add_route_step(default_v4(interface_index, gateway))],
                    None => Seq::empty(),
                },
                Err(e) => config.prefix_length > 32 && e == IpConfigError::InvalidConfig(
                    "ipv4 prefix length exceeds 32",
                ),
            },
    {
        if config.prefix_length > 32 {
            return Err(IpConfigError::InvalidConfig("ipv4 prefix length exceeds 32"));
        }
        let mut steps: Vec<Step> = Vec::new();
        steps.push(
            Step {
                message: build_address_message(
                    RTM_NEWADDR,
                    ADD_FLAGS,
                    interface_index,
                    IpAddr::V4(config.address),
                    config.prefix_length,
                ),
                required: true,
            },
        );
        if let Some(gateway) = config.gateway {
            steps.push(
                Step {
                    message: build_route_message(
                        RTM_NEWROUTE,
                        REPLACE_FLAGS,
                        &default_route_v4(interface_index, gateway),
                    ),
                    required: true,
                },
            );
        }
        assert(step_views(steps@) =~= seq![
            add_address_step(interface_index, IpAddr::V4(config.address), config.prefix_length),
        ] + match config.gateway {
            Some(gateway) => seq![add_route_step(default_v4(interface_index, gateway))],
            None => Seq::empty(),
        });
        Ok(Plan::of(steps))
    }

    /// Plans the removal of an IPv4 configuration. A default route that is
    /// already gone does not keep the address.
    pub fn remove_ipv4(&mut self, interface_index: i32, config: &Ipv4Config) -> (r: Plan)
        ensures
            r.wf(),
            r.rest() == match config.gateway {
                Some(gateway) => seq![
                    remove_route_step(default_v4(interface_index, gateway), false),
                ],
                None => Seq::empty(),
            } + seq![
                remove_address_step(
                    interface_index,
                    IpAddr::V4(config.address),
                    config.prefix_length,
                ),
            ],
    {
        let mut steps: Vec<Step> = Vec::new();
        if let Some(gateway) = config.gateway {
            steps.push(
                Step {
                    message: build_route_message(
                        RTM_DELROUTE,
                        REMOVE_FLAGS,
                        &default_route_v4(interface_index, gateway),
                    ),
                    required: false,
                },
            );
        }
        steps.push(
            Step {
                message: build_address_message(
                    RTM_DELADDR,
                    REMOVE_FLAGS,
                    interface_index,
                    IpAddr::V4(config.address),
                    config.prefix_length,
                ),
                required: true,
            },
        );
        assert(step_views(steps@) =~= match config.gateway {
            Some(gateway) => seq![remove_route_step(default_v4(interface_index, gateway), false)],
            None => Seq::empty(),
        } + seq![
            remove_address_step(interface_index, IpAddr::V4(config.address), config.prefix_length),
        ]);
        Plan::of(steps)
    }

    /// Plans the address and, with a gateway, the default route of an IPv6
    /// configuration.
    pub fn configure_ipv6(&mut self, interface_index: i32, config: &Ipv6Config) -> (r: Result<
        Plan,
        IpConfigError,
    >)
        ensures
            match r {
                Ok(plan) => config.prefix_length <= 128 && plan.wf() && plan.rest() == seq![
                    add_address_step(
                        interface_index,
                        IpAddr::V6(config.address),
                        config.prefix_length,
                    ),
                ] + match config.gateway {
                    Some(gateway) => seq![add_route_step(default_v6(interface_index, gateway))],
                    None => Seq::empty(),
                },
                Err(e) => config.prefix_length > 128 && e == IpConfigError::InvalidConfig(
                    "ipv6 prefix length exceeds 128",
                ),
            },
    {
        if config.prefix_length > 128 {
            return Err(IpConfigError::InvalidConfig("ipv6 prefix length exceeds 128"));
        }
        let mut steps: Vec<Step> = Vec::new();
        steps.push(
            Step {
                message: build_address_message(
                    RTM_NEWADDR,
                    ADD_FLAGS,
                    interface_index,
                    IpAddr::V6(config.address),
                    config.prefix_length,
                ),
                required: true,
            },
        );
        if let Some(gateway) = config.gateway {
            steps.push(
                Step {
                    message: build_route_message(
                        RTM_NEWROUTE,
                        REPLACE_FLAGS,
                        &default_route_v6(interface_index, gateway),
                    ),
                    required: true,
                },
            );
        }
        assert(step_views(steps@) =~= seq![
            add_address_step(interface_index, IpAddr::V6(config.address), config.prefix_length),
        ] + match config.gateway {
            Some(gateway) => seq![add_route_step(default_v6(interface_index, gateway))],
            None => Seq::empty(),
        });
        Ok(Plan::of(steps))
    }

    /// Plans the removal of an IPv6 configuration. A default route that is
    /// already gone does not keep the address.
    pub fn remove_ipv6(&mut self, interface_index: i32, config: &Ipv6Config) -> (r: Plan)
        ensures
            r.wf(),
            r.rest() == match config.gateway {
                Some(gateway) => seq![
                    remove_route_step(default_v6(interface_index, gateway), false),
                ],
                None => Seq::empty(),
            } + seq![
                remove_address_step(
                    interface_index,
                    IpAddr::V6(config.address),
                    config.prefix_length,
                ),
            ],
    {
        let mut steps: Vec<Step> = Vec::new();
        if let Some(gateway) = config.gateway {
            steps.push(
                Step {
                    message: build_route_message(
                        RTM_DELROUTE,
                        REMOVE_FLAGS,
                        &default_route_v6(interface_index, gateway),
                    ),
                    required: false,
                },
            );
        }
        steps.push(
            Step {
                message: build_address_message(
                    RTM_DELADDR,
                    REMOVE_FLAGS,
                    interface_index,
                    IpAddr::V6(config.address),
                    config.prefix_length,
                ),
                required: true,
            },
        );
        assert(step_views(steps@) =~= match config.gateway {
            Some(gateway) => seq![remove_route_step(default_v6(interface_index, gateway), false)],
            None => Seq::empty(),
        } + seq![
            remove_address_step(interface_index, IpAddr::V6(config.address), config.prefix_length),
        ]);
        Plan::of(steps)
    }

    /// Plans the installation of a route.
    pub fn add_route(&mut self, route: &Route) -> (r: Plan)
        ensures
            r.wf(),
            r.rest() == seq![add_route_step(*route)],
    {
        let mut steps: Vec<Step> = Vec::new();
        steps.push(
            Step {
                message: build_route_message(RTM_NEWROUTE, REPLACE_FLAGS, route),
                required: true,
            },
        );
        assert(step_views(steps@) =~= seq![add_route_step(*route)]);
        Plan::of(steps)
    }

    /// Plans the removal of a route.
    pub fn remove_route(&mut self, route: &Route) -> (r: Plan)
        ensures
            r.wf(),
            r.rest() == seq![remove_route_step(*route, true)],
    {
        let mut steps: Vec<Step> = Vec::new();
        steps.push(
            Step {
                message: build_route_message(RTM_DELROUTE, REMOVE_FLAGS, route),
                required: true,
            },
        );
        assert(step_views(steps@) =~= seq![remove_route_step(*route, true)]);
        Plan::of(steps)
    }
}

impl Default for LinuxIpConfigurator {
    fn default() -> (r: Self) {
        LinuxIpConfigurator
    }
}

// --- Reading back what was written ---------------------------------------------------------

proof fn lemma_ip_octets(ip: IpAddr)
    ensures
        netlink::address_from(ip_octets(ip)) == ip,
        ip_octets(ip).len() == if ip is V4 {
            4nat
        } else {
            16nat
        },
{
    net::lemma_bounds();
    match ip {
        IpAddr::V4(address) => {
            let s = address.octets_view();
            bytes::lemma_be32(address.bits as nat);
            reveal_with_fuel(net::octets_value, 5);
            assert(s.drop_last()[2] == s[2]);
            assert(s.drop_last().drop_last()[1] == s[1]);
            assert(s.drop_last().drop_last().drop_last()[0] == s[0]);
        },
        IpAddr::V6(address) => {
            net::lemma_octets(address.bits as nat, 16);
        },
    }
}

/// A payload whose attributes are one value, given twice, speaks of that value.
proof fn lemma_address_value(payload: Seq<u8>, value: Seq<u8>)
    requires
        payload.len() >= 8,
        netlink::address_length(IfAddrMsg::at(payload).ifa_family) == Some(value.len()),
        netlink::attrs_of(payload.skip(8)) == (Attrs {
            list: seq![(IFA_LOCAL, value), (IFA_ADDRESS, value)],
            whole: true,
        }),
    ensures
        netlink::address_of(payload) == Ok::<Option<Address>, NetlinkError>(
            Some(
                Address {
                    interface_index: IfAddrMsg::at(payload).ifa_index,
                    address: netlink::address_from(value),
                    prefix_length: IfAddrMsg::at(payload).ifa_prefixlen,
                },
            ),
        ),
{
    let attrs = seq![(IFA_LOCAL, value), (IFA_ADDRESS, value)];
    assert(netlink::first_address(attrs) == Some(value));
}

/// A payload of the fixed part of an address message and one value, given
/// twice, speaks of that value.
proof fn lemma_address_payload(info: IfAddrMsg, value: Seq<u8>)
    requires
        netlink::address_length(info.ifa_family) == Some(value.len()),
    ensures
        netlink::address_of(
            info.octets() + netlink::attrs_octets(seq![(IFA_LOCAL, value), (IFA_ADDRESS, value)]),
        ) == Ok::<Option<Address>, NetlinkError>(
            Some(
                Address {
                    interface_index: info.ifa_index,
                    address: netlink::address_from(value),
                    prefix_length: info.ifa_prefixlen,
                },
            ),
        ),
{
    let attrs = seq![(IFA_LOCAL, value), (IFA_ADDRESS, value)];
    let tail = netlink::attrs_octets(attrs);
    let payload = info.octets() + tail;
    assert(value.len() <= 16);
    assert(netlink::attrs_of(tail) == (Attrs { list: attrs, whole: true })) by {
        netlink::lemma_attrs_round_trip(attrs);
    }
    assert(payload.len() >= 8 && IfAddrMsg::at(payload) == info && payload.skip(8) == tail) by {
        netlink::lemma_ifaddr(info, tail);
    }
    lemma_address_value(payload, value);
}

/// An address request speaks of the address, prefix and interface it was built
/// from.
pub proof fn lemma_address_round_trip(index: i32, address: IpAddr, prefix_length: u8)
    ensures
        netlink::address_of(address_payload(index, address, prefix_length)) == Ok::<
            Option<Address>,
            NetlinkError,
        >(
            Some(
                Address {
                    interface_index: bytes::unsigned32(index as int) as u32,
                    address,
                    prefix_length,
                },
            ),
        ),
{
    lemma_ip_octets(address);
    lemma_address_payload(
        IfAddrMsg {
            ifa_family: match address {
                IpAddr::V4(_) => AF_INET,
                IpAddr::V6(_) => AF_INET6,
            },
            ifa_prefixlen: prefix_length,
            ifa_flags: 0,
            ifa_scope: 0,
            ifa_index: bytes::unsigned32(index as int) as u32,
        },
        ip_octets(address),
    );
}

/// Whether a route can be described in a message: its addresses are of its
/// family, and its kind and scope are named by their numbers.
pub open spec fn describable(route: Route) -> bool {
    &&& (route.destination is V4) == (route.family is V4)
    &&& route.gateway is Some ==> (route.gateway->0 is V4) == (route.family is V4)
    &&& route.kind == RouteKind::Unicast || route.kind == RouteKind::Blackhole || route.kind
        == RouteKind::Unreachable
    &&& RouteScope::of(route.scope.number()) == route.scope
}

/// A route request speaks of the route it was built from; without an output
/// interface it names interface zero.
pub proof fn lemma_route_round_trip(route: Route)
    requires
        describable(route),
    ensures
        netlink::route_of(route_payload(route)) == Ok::<Option<Route>, NetlinkError>(
            Some(
                Route {
                    output_interface: Some(
                        match route.output_interface {
                            Some(index) => index,
                            None => 0i32,
                        },
                    ),
                    ..route
                },
            ),
        ),
{
    let index = match route.output_interface {
        Some(index) => index,
        None => 0i32,
    };
    let attrs = route_attrs(route);
    let payload = route_payload(route);
    let info = RtMsg {
        rtm_family: family_number(route.family),
        rtm_dst_len: route.prefix_length,
        rtm_src_len: 0,
        rtm_tos: 0,
        rtm_table: RT_TABLE_MAIN,
        rtm_protocol: RTPROT_STATIC,
        rtm_scope: route.scope.number(),
        rtm_type: route.kind.number(),
        rtm_flags: 0,
    };
    lemma_ip_octets(route.destination);
    if route.gateway is Some {
        lemma_ip_octets(route.gateway->0);
    }
    bytes::lemma_ne32(bytes::unsigned32(index as int));
    if route.metric is Some {
        bytes::lemma_ne32(route.metric->0 as nat);
    }
    netlink::lemma_rtmsg(info, netlink::attrs_octets(attrs));
    lemma_route_attrs(route);
    netlink::lemma_attrs_round_trip(attrs);
    let n = netlink::address_length(info.rtm_family)->0;
    lemma_no_route_error(attrs, n);
    lemma_last_attrs(route);
}

/// The values of a route's attributes have the lengths that reading asks for.
proof fn lemma_route_attrs(route: Route)
    requires
        describable(route),
    ensures
        forall|i: int| 0 <= i < route_attrs(route).len() ==> {
            &&& (#[trigger] route_attrs(route)[i]).1.len() <= 16
            &&& netlink::route_attr_error(
                route_attrs(route)[i],
                if route.family is V4 {
                    4nat
                } else {
                    16nat
                },
            ) is None
        },
{
    lemma_ip_octets(route.destination);
    if route.gateway is Some {
        lemma_ip_octets(route.gateway->0);
    }
}

proof fn lemma_no_route_error(attrs: Seq<(u16, Seq<u8>)>, n: nat)
    requires
        forall|i: int| 0 <= i < attrs.len() ==> netlink::route_attr_error(#[trigger] attrs[i], n) is None,
    ensures
        netlink::route_attrs_error(attrs, n) is None,
    decreases attrs.len(),
{
    if attrs.len() > 0 {
        assert forall|i: int| 0 <= i < attrs.skip(1).len() implies netlink::route_attr_error(
            #[trigger] attrs.skip(1)[i],
            n,
        ) is None by {
            assert(attrs.skip(1)[i] == attrs[i + 1]);
        }
        lemma_no_route_error(attrs.skip(1), n);
    }
}

proof fn lemma_last_attrs(route: Route)
    ensures
        ({
            let attrs = route_attrs(route);
            let index = match route.output_interface {
                Some(index) => index as int,
                None => 0,
            };
            &&& netlink::last_attr(attrs, RTA_DST) == if route.default_route() {
                None
            } else {
                Some(ip_octets(route.destination))
            }
            &&& netlink::last_attr(attrs, RTA_GATEWAY) == match route.gateway {
                Some(gateway) => Some(ip_octets(gateway)),
                None => None,
            }
            &&& netlink::last_attr(attrs, RTA_OIF) == Some(bytes::ne32_octets(bytes::unsigned32(index)))
            &&& netlink::last_attr(attrs, RTA_PRIORITY) == match route.metric {
                Some(metric) => Some(bytes::ne32_octets(metric as nat)),
                None => None,
            }
        }),
{
    reveal_with_fuel(netlink::last_attr, 5);
    let attrs = route_attrs(route);
    let a = attrs.drop_last();
    let b = a.drop_last();
    let c = b.drop_last();
    assert(attrs.len() <= 4);
}

} // verus!
