//! IP configuration: the values that activation produces, and the three
//! boundaries through which they reach the system.
//!
//! Each boundary keeps a history of the calls it received, so that contracts
//! can say which calls were made, with which arguments, in which order, and
//! what followed from the replies.

use vstd::prelude::*;

use crate::io_error::IoError;
use crate::linux::model::{NetlinkError, Route};
use crate::net::{IpAddr, Ipv4Addr, Ipv6Addr};
use crate::text;
use crate::text::{concat2, concat3, copy_strings};

verus! {

/// A manual IPv4 configuration to install on an interface.
#[derive(Clone, Copy, Debug, PartialEq, Eq, Structural)]
pub struct Ipv4Config {
    pub address: Ipv4Addr,
    pub prefix_length: u8,
    pub gateway: Option<Ipv4Addr>,
}

/// A manual IPv6 configuration to install on an interface.
#[derive(Clone, Copy, Debug, PartialEq, Eq, Structural)]
pub struct Ipv6Config {
    pub address: Ipv6Addr,
    pub prefix_length: u8,
    pub gateway: Option<Ipv6Addr>,
}

/// A request to acquire a DHCPv4 lease. A timeout of zero stands for the
/// client's own.
#[derive(Debug, PartialEq, Eq)]
pub struct DhcpRequest {
    pub interface_index: i32,
    pub interface_name: String,
    pub hostname: Option<String>,
    pub requested_address: Option<Ipv4Addr>,
    pub timeout_millis: u64,
}

/// A request for a lease, with its texts as sequences.
#[verifier::ext_equal]
pub struct DhcpRequestView {
    pub interface_index: i32,
    pub interface_name: Seq<char>,
    pub hostname: Option<Seq<char>>,
    pub requested_address: Option<Ipv4Addr>,
    pub timeout_millis: u64,
}

impl DhcpRequest {
    pub open spec fn view(&self) -> DhcpRequestView {
        DhcpRequestView {
            interface_index: self.interface_index,
            interface_name: self.interface_name@,
            hostname: text::text_view(self.hostname),
            requested_address: self.requested_address,
            timeout_millis: self.timeout_millis,
        }
    }
}

/// A DHCPv4 lease obtained by the client.
#[derive(Debug, PartialEq, Eq)]
pub struct DhcpLease {
    pub interface_index: i32,
    pub interface_name: String,
    pub address: Ipv4Addr,
    pub prefix_length: u8,
    pub netmask: Ipv4Addr,
    pub gateway: Option<Ipv4Addr>,
    pub dns_servers: Vec<Ipv4Addr>,
    pub search_domains: Vec<String>,
    pub server_identifier: Option<Ipv4Addr>,
    pub lease_seconds: Option<u32>,
    pub t1_seconds: Option<u32>,
    pub t2_seconds: Option<u32>,
}

/// A lease, with its texts and lists as sequences.
#[verifier::ext_equal]
pub struct DhcpLeaseView {
    pub interface_index: i32,
    pub interface_name: Seq<char>,
    pub address: Ipv4Addr,
    pub prefix_length: u8,
    pub netmask: Ipv4Addr,
    pub gateway: Option<Ipv4Addr>,
    pub dns_servers: Seq<Ipv4Addr>,
    pub search_domains: Seq<Seq<char>>,
    pub server_identifier: Option<Ipv4Addr>,
    pub lease_seconds: Option<u32>,
    pub t1_seconds: Option<u32>,
    pub t2_seconds: Option<u32>,
}

impl DhcpLease {
    pub open spec fn view(&self) -> DhcpLeaseView {
        DhcpLeaseView {
            interface_index: self.interface_index,
            interface_name: self.interface_name@,
            address: self.address,
            prefix_length: self.prefix_length,
            netmask: self.netmask,
            gateway: self.gateway,
            dns_servers: self.dns_servers@,
            search_domains: text::string_views(self.search_domains@),
            server_identifier: self.server_identifier,
            lease_seconds: self.lease_seconds,
            t1_seconds: self.t1_seconds,
            t2_seconds: self.t2_seconds,
        }
    }
}

impl Clone for DhcpLease {
    fn clone(&self) -> (r: Self)
        ensures
            r@ == self@,
    {
        DhcpLease {
            interface_index: self.interface_index,
            interface_name: self.interface_name.clone(),
            address: self.address,
            prefix_length: self.prefix_length,
            netmask: self.netmask,
            gateway: self.gateway,
            dns_servers: vstd::slice::slice_to_vec(self.dns_servers.as_slice()),
            search_domains: copy_strings(&self.search_domains),
            server_identifier: self.server_identifier,
            lease_seconds: self.lease_seconds,
            t1_seconds: self.t1_seconds,
            t2_seconds: self.t2_seconds,
        }
    }
}

/// The view of an optional lease.
pub open spec fn lease_view(lease: Option<DhcpLease>) -> Option<DhcpLeaseView> {
    match lease {
        Some(value) => Some(value@),
        None => None,
    }
}

/// A copy of an optional lease.
pub fn copy_lease(lease: &Option<DhcpLease>) -> (r: Option<DhcpLease>)
    ensures
        lease_view(r) == lease_view(*lease),
{
    match lease {
        Some(value) => Some(value.clone()),
        None => None,
    }
}

/// A DNS configuration the daemon wants the system to use.
#[derive(Debug, PartialEq, Eq)]
pub struct DnsConfig {
    pub search_domains: Vec<String>,
    pub servers: Vec<IpAddr>,
}

/// A DNS configuration, with its lists as sequences.
#[verifier::ext_equal]
pub struct DnsConfigView {
    pub search_domains: Seq<Seq<char>>,
    pub servers: Seq<IpAddr>,
}

impl DnsConfig {
    pub open spec fn view(&self) -> DnsConfigView {
        DnsConfigView { search_domains: text::string_views(self.search_domains@), servers: self.servers@ }
    }
}

/// Ownership handle of an applied DNS configuration.
///
/// The owner is a stable marker used to recognise and remove exactly the
/// configuration this daemon wrote.
#[derive(Debug, PartialEq, Eq)]
pub struct DnsOwnership {
    pub owner: String,
    pub path: String,
}

impl Clone for DnsOwnership {
    fn clone(&self) -> (r: Self)
        ensures
            r == *self,
    {
        DnsOwnership { owner: self.owner.clone(), path: self.path.clone() }
    }
}

/// How an IPv4 configuration was established.
#[derive(Clone, Copy, Debug, PartialEq, Eq, Structural)]
pub enum Ipv4Source {
    AutomaticDhcp,
    Manual,
}

impl Ipv4Source {
    /// The name of the source.
    pub open spec fn text(self) -> Seq<char> {
        match self {
            Ipv4Source::AutomaticDhcp => "dhcp"@,
            Ipv4Source::Manual => "manual"@,
        }
    }

    /// Names the source.
    pub fn to_string(&self) -> (r: String)
        ensures
            r@ == self.text(),
    {
        match self {
            Ipv4Source::AutomaticDhcp => "dhcp".to_owned(),
            Ipv4Source::Manual => "manual".to_owned(),
        }
    }
}

/// How an IPv6 configuration was established.
#[derive(Clone, Copy, Debug, PartialEq, Eq, Structural)]
pub enum Ipv6Source {
    AutomaticLinkLocal,
    Manual,
    Disabled,
}

impl Ipv6Source {
    /// The name of the source.
    pub open spec fn text(self) -> Seq<char> {
        match self {
            Ipv6Source::AutomaticLinkLocal => "link-local"@,
            Ipv6Source::Manual => "manual"@,
            Ipv6Source::Disabled => "disabled"@,
        }
    }

    /// Names the source.
    pub fn to_string(&self) -> (r: String)
        ensures
            r@ == self.text(),
    {
        match self {
            Ipv6Source::AutomaticLinkLocal => "link-local".to_owned(),
            Ipv6Source::Manual => "manual".to_owned(),
            Ipv6Source::Disabled => "disabled".to_owned(),
        }
    }
}

impl Default for Ipv6Source {
    fn default() -> (r: Self)
        ensures
            r == Ipv6Source::AutomaticLinkLocal,
    {
        Ipv6Source::AutomaticLinkLocal
    }
}

/// IPv4 portion of an activation outcome.
#[derive(Debug, PartialEq, Eq)]
pub struct Ipv4Outcome {
    pub address: Ipv4Addr,
    pub prefix_length: u8,
    pub gateway: Option<Ipv4Addr>,
    pub dns_servers: Vec<IpAddr>,
    pub search_domains: Vec<String>,
    pub source: Ipv4Source,
    /// Routes installed for this connection (a default route at minimum when
    /// a gateway is configured).
    pub routes: Vec<Route>,
    /// The DHCPv4 lease backing this configuration, when it came from DHCP.
    pub lease: Option<DhcpLease>,
}

/// An IPv4 outcome, with its texts and lists as sequences.
#[verifier::ext_equal]
pub struct Ipv4OutcomeView {
    pub address: Ipv4Addr,
    pub prefix_length: u8,
    pub gateway: Option<Ipv4Addr>,
    pub dns_servers: Seq<IpAddr>,
    pub search_domains: Seq<Seq<char>>,
    pub source: Ipv4Source,
    pub routes: Seq<Route>,
    pub lease: Option<DhcpLeaseView>,
}

impl Ipv4Outcome {
    pub open spec fn view(&self) -> Ipv4OutcomeView {
        Ipv4OutcomeView {
            address: self.address,
            prefix_length: self.prefix_length,
            gateway: self.gateway,
            dns_servers: self.dns_servers@,
            search_domains: text::string_views(self.search_domains@),
            source: self.source,
            routes: self.routes@,
            lease: lease_view(self.lease),
        }
    }
}

impl Clone for Ipv4Outcome {
    fn clone(&self) -> (r: Self)
        ensures
            r@ == self@,
    {
        Ipv4Outcome {
            address: self.address,
            prefix_length: self.prefix_length,
            gateway: self.gateway,
            dns_servers: vstd::slice::slice_to_vec(self.dns_servers.as_slice()),
            search_domains: copy_strings(&self.search_domains),
            source: self.source,
            routes: vstd::slice::slice_to_vec(self.routes.as_slice()),
            lease: copy_lease(&self.lease),
        }
    }
}

/// IPv6 portion of an activation outcome.
#[derive(Debug, PartialEq, Eq)]
pub struct Ipv6Outcome {
    /// The configured global (or manual) address, if any.
    pub address: Option<Ipv6Addr>,
    pub prefix_length: u8,
    pub gateway: Option<Ipv6Addr>,
    pub dns_servers: Vec<IpAddr>,
    pub search_domains: Vec<String>,
    pub routes: Vec<Route>,
    /// The link-local address observed on the interface.
    pub link_local: Option<Ipv6Addr>,
    pub source: Ipv6Source,
}

/// An IPv6 outcome, with its texts and lists as sequences.
#[verifier::ext_equal]
pub struct Ipv6OutcomeView {
    pub address: Option<Ipv6Addr>,
    pub prefix_length: u8,
    pub gateway: Option<Ipv6Addr>,
    pub dns_servers: Seq<IpAddr>,
    pub search_domains: Seq<Seq<char>>,
    pub routes: Seq<Route>,
    pub link_local: Option<Ipv6Addr>,
    pub source: Ipv6Source,
}

impl Ipv6Outcome {
    pub open spec fn view(&self) -> Ipv6OutcomeView {
        Ipv6OutcomeView {
            address: self.address,
            prefix_length: self.prefix_length,
            gateway: self.gateway,
            dns_servers: self.dns_servers@,
            search_domains: text::string_views(self.search_domains@),
            routes: self.routes@,
            link_local: self.link_local,
            source: self.source,
        }
    }
}

impl Clone for Ipv6Outcome {
    fn clone(&self) -> (r: Self)
        ensures
            r@ == self@,
    {
        Ipv6Outcome {
            address: self.address,
            prefix_length: self.prefix_length,
            gateway: self.gateway,
            dns_servers: vstd::slice::slice_to_vec(self.dns_servers.as_slice()),
            search_domains: copy_strings(&self.search_domains),
            routes: vstd::slice::slice_to_vec(self.routes.as_slice()),
            link_local: self.link_local,
            source: self.source,
        }
    }
}

/// An optional, non-fatal degradation reported alongside a successful activation.
#[derive(Debug, PartialEq, Eq)]
pub struct Degradation {
    pub reason: String,
}

/// Everything an engine managed to configure for an activation.
#[derive(Debug, PartialEq, Eq)]
pub struct ActivationOutcome {
    pub ipv4: Option<Ipv4Outcome>,
    pub ipv6: Option<Ipv6Outcome>,
    pub degradation: Option<Degradation>,
}

/// An outcome, with its texts and lists as sequences.
#[verifier::ext_equal]
pub struct ActivationOutcomeView {
    pub ipv4: Option<Ipv4OutcomeView>,
    pub ipv6: Option<Ipv6OutcomeView>,
    pub degradation: Option<Seq<char>>,
}

impl ActivationOutcomeView {
    /// The outcome of an activation that configured nothing.
    pub open spec fn none() -> Self {
        ActivationOutcomeView { ipv4: None, ipv6: None, degradation: None }
    }
}

impl ActivationOutcome {
    pub open spec fn view(&self) -> ActivationOutcomeView {
        ActivationOutcomeView {
            ipv4: match self.ipv4 {
                Some(ipv4) => Some(ipv4@),
                None => None,
            },
            ipv6: match self.ipv6 {
                Some(ipv6) => Some(ipv6@),
                None => None,
            },
            degradation: match self.degradation {
                Some(degradation) => Some(degradation.reason@),
                None => None,
            },
        }
    }

    /// The effective DNS servers to expose to callers.
    pub fn dns_servers(&self) -> (r: Vec<IpAddr>)
        ensures
            r@ == match self@.ipv4 {
                Some(ipv4) => ipv4.dns_servers,
                None => Seq::empty(),
            },
    {
        match &self.ipv4 {
            Some(ipv4) => vstd::slice::slice_to_vec(ipv4.dns_servers.as_slice()),
            None => Vec::new(),
        }
    }

    /// The effective search domains to expose to callers.
    pub fn search_domains(&self) -> (r: Vec<String>)
        ensures
            text::string_views(r@) == match self@.ipv4 {
                Some(ipv4) => ipv4.search_domains,
                None => Seq::empty(),
            },
    {
        match &self.ipv4 {
            Some(ipv4) => copy_strings(&ipv4.search_domains),
            None => {
                let r: Vec<String> = Vec::new();
                assert(text::string_views(r@) =~= Seq::<Seq<char>>::empty());
                r
            },
        }
    }
}

impl Default for ActivationOutcome {
    fn default() -> (r: Self)
        ensures
            r@ == ActivationOutcomeView::none(),
            r.ipv4 is None && r.ipv6 is None && r.degradation is None,
    {
        ActivationOutcome { ipv4: None, ipv6: None, degradation: None }
    }
}

impl Clone for ActivationOutcome {
    fn clone(&self) -> (r: Self)
        ensures
            r@ == self@,
    {
        ActivationOutcome {
            ipv4: match &self.ipv4 {
                Some(ipv4) => Some(ipv4.clone()),
                None => None,
            },
            ipv6: match &self.ipv6 {
                Some(ipv6) => Some(ipv6.clone()),
                None => None,
            },
            degradation: match &self.degradation {
                Some(degradation) => Some(Degradation { reason: degradation.reason.clone() }),
                None => None,
            },
        }
    }
}

/// Address/route/DNS state the engine owns for one active connection, used to
/// tear it down again.
#[derive(Debug, PartialEq, Eq)]
pub struct ActiveIpState {
    pub ipv4: Option<ActiveIpv4>,
    pub ipv6: Option<ActiveIpv6>,
    pub dns_owner: Option<DnsOwnership>,
}

impl Default for ActiveIpState {
    fn default() -> (r: Self)
        ensures
            r.ipv4 is None && r.ipv6 is None && r.dns_owner is None,
    {
        ActiveIpState { ipv4: None, ipv6: None, dns_owner: None }
    }
}

/// The state of an active connection, with its lists as sequences.
#[verifier::ext_equal]
pub struct ActiveIpStateView {
    pub ipv4: Option<ActiveIpv4View>,
    pub ipv6: Option<ActiveIpv6View>,
    pub dns_owner: Option<DnsOwnership>,
}

impl ActiveIpStateView {
    /// Nothing is active.
    pub open spec fn none() -> Self {
        ActiveIpStateView { ipv4: None, ipv6: None, dns_owner: None }
    }
}

impl ActiveIpState {
    pub open spec fn view(&self) -> ActiveIpStateView {
        ActiveIpStateView {
            ipv4: match self.ipv4 {
                Some(ipv4) => Some(ipv4@),
                None => None,
            },
            ipv6: match self.ipv6 {
                Some(ipv6) => Some(ipv6@),
                None => None,
            },
            dns_owner: self.dns_owner,
        }
    }
}

/// The IPv4 state of an active connection.
#[derive(Debug, PartialEq, Eq)]
pub struct ActiveIpv4 {
    pub interface_index: i32,
    pub address: Ipv4Addr,
    pub prefix_length: u8,
    pub lease: Option<DhcpLease>,
    pub routes: Vec<Route>,
    pub source: Ipv4Source,
}

/// The IPv4 state, with its lists as sequences.
#[verifier::ext_equal]
pub struct ActiveIpv4View {
    pub interface_index: i32,
    pub address: Ipv4Addr,
    pub prefix_length: u8,
    pub lease: Option<DhcpLeaseView>,
    pub routes: Seq<Route>,
    pub source: Ipv4Source,
}

impl ActiveIpv4 {
    pub open spec fn view(&self) -> ActiveIpv4View {
        ActiveIpv4View {
            interface_index: self.interface_index,
            address: self.address,
            prefix_length: self.prefix_length,
            lease: lease_view(self.lease),
            routes: self.routes@,
            source: self.source,
        }
    }
}

/// The IPv6 state of an active connection.
#[derive(Debug, PartialEq, Eq)]
pub struct ActiveIpv6 {
    pub interface_index: i32,
    pub link_local: Option<Ipv6Addr>,
    pub prefix_length: u8,
    pub routes: Vec<Route>,
    pub source: Ipv6Source,
}

/// The IPv6 state, with its routes as a sequence.
#[verifier::ext_equal]
pub struct ActiveIpv6View {
    pub interface_index: i32,
    pub link_local: Option<Ipv6Addr>,
    pub prefix_length: u8,
    pub routes: Seq<Route>,
    pub source: Ipv6Source,
}

impl ActiveIpv6 {
    pub open spec fn view(&self) -> ActiveIpv6View {
        ActiveIpv6View {
            interface_index: self.interface_index,
            link_local: self.link_local,
            prefix_length: self.prefix_length,
            routes: self.routes@,
            source: self.source,
        }
    }
}

// --- Errors -------------------------------------------------------------------

/// Errors from installing or removing kernel IP state.
#[derive(Debug, PartialEq, Eq)]
pub enum IpConfigError {
    Netlink(NetlinkError),
    InvalidConfig(&'static str),
    Io(IoError),
}

impl IpConfigError {
    /// What the error says of itself.
    pub open spec fn text(self) -> Seq<char> {
        match self {
            IpConfigError::Netlink(err) => "IP configuration failed: "@ + err.text(),
            IpConfigError::InvalidConfig(msg) => "invalid IP configuration: "@ + msg@,
            IpConfigError::Io(err) => "IP configuration I/O failed: "@ + err.text(),
        }
    }

    /// Describes the error.
    pub fn to_string(&self) -> (r: String)
        ensures
            r@ == self.text(),
    {
        match self {
            IpConfigError::Netlink(err) => concat2(
                "IP configuration failed: ",
                err.to_string().as_str(),
            ),
            IpConfigError::InvalidConfig(msg) => concat2("invalid IP configuration: ", msg),
            IpConfigError::Io(err) => concat2(
                "IP configuration I/O failed: ",
                err.to_string().as_str(),
            ),
        }
    }
}

/// Errors from the DHCP client.
#[derive(Debug, PartialEq, Eq)]
pub enum DhcpError {
    Io(IoError),
    MalformedPacket(&'static str),
    Timeout { interface: String },
    InvalidConfig(&'static str),
}

impl DhcpError {
    /// What the error says of itself.
    pub open spec fn text(self) -> Seq<char> {
        match self {
            DhcpError::Io(err) => "DHCP I/O failed: "@ + err.text(),
            DhcpError::MalformedPacket(msg) => "malformed DHCP packet: "@ + msg@,
            DhcpError::Timeout { interface } => "DHCP timed out on "@ + interface@,
            DhcpError::InvalidConfig(msg) => "invalid DHCP configuration: "@ + msg@,
        }
    }

    /// Describes the error.
    pub fn to_string(&self) -> (r: String)
        ensures
            r@ == self.text(),
    {
        match self {
            DhcpError::Io(err) => concat2("DHCP I/O failed: ", err.to_string().as_str()),
            DhcpError::MalformedPacket(msg) => concat2("malformed DHCP packet: ", msg),
            DhcpError::Timeout { interface } => concat2("DHCP timed out on ", interface.as_str()),
            DhcpError::InvalidConfig(msg) => concat2("invalid DHCP configuration: ", msg),
        }
    }
}

/// Errors from the DNS manager.
#[derive(Debug, PartialEq, Eq)]
pub enum DnsError {
    /// The DNS file is managed by something else and will not be overwritten.
    ForeignManaged { path: String },
    Io(IoError),
    InvalidConfig(&'static str),
}

impl DnsError {
    /// What the error says of itself.
    pub open spec fn text(self) -> Seq<char> {
        match self {
            DnsError::ForeignManaged { path } => "refusing to manage DNS: "@ + path@
                + " is managed by another component"@,
            DnsError::Io(err) => "DNS I/O failed: "@ + err.text(),
            DnsError::InvalidConfig(msg) => "invalid DNS configuration: "@ + msg@,
        }
    }

    /// Describes the error.
    pub fn to_string(&self) -> (r: String)
        ensures
            r@ == self.text(),
    {
        match self {
            DnsError::ForeignManaged { path } => concat3(
                "refusing to manage DNS: ",
                path.as_str(),
                " is managed by another component",
            ),
            DnsError::Io(err) => concat2("DNS I/O failed: ", err.to_string().as_str()),
            DnsError::InvalidConfig(msg) => concat2("invalid DNS configuration: ", msg),
        }
    }
}

// --- Boundaries -----------------------------------------------------------------

/// A call that an address and route configurator received, and its reply.
#[verifier::ext_equal]
#[allow(inconsistent_fields)]
pub enum IpCall {
    ConfigureIpv4 { interface_index: i32, config: Ipv4Config, reply: Result<(), IpConfigError> },
    RemoveIpv4 { interface_index: i32, config: Ipv4Config, reply: Result<(), IpConfigError> },
    ConfigureIpv6 { interface_index: i32, config: Ipv6Config, reply: Result<(), IpConfigError> },
    RemoveIpv6 { interface_index: i32, config: Ipv6Config, reply: Result<(), IpConfigError> },
    AddRoute { route: Route, reply: Result<(), IpConfigError> },
    RemoveRoute { route: Route, reply: Result<(), IpConfigError> },
}

/// Installs and removes addresses and routes on an interface.
///
/// Removing state that is not present is reported as an error, never silently
/// ignored.
pub trait IpConfigurator {
    /// The calls received so far, oldest first. A type that is to be held to this
    /// contract says how it keeps them.
    open spec fn history(&self) -> Seq<IpCall> {
        Seq::empty()
    }

    fn configure_ipv4(&mut self, interface_index: i32, config: &Ipv4Config) -> (r: Result<
        (),
        IpConfigError,
    >)
        ensures
            final(self).history() == old(self).history().push(
                IpCall::ConfigureIpv4 { interface_index, config: *config, reply: r },
            ),
    ;

    fn remove_ipv4(&mut self, interface_index: i32, config: &Ipv4Config) -> (r: Result<
        (),
        IpConfigError,
    >)
        ensures
            final(self).history() == old(self).history().push(
                IpCall::RemoveIpv4 { interface_index, config: *config, reply: r },
            ),
    ;

    fn configure_ipv6(&mut self, interface_index: i32, config: &Ipv6Config) -> (r: Result<
        (),
        IpConfigError,
    >)
        ensures
            final(self).history() == old(self).history().push(
                IpCall::ConfigureIpv6 { interface_index, config: *config, reply: r },
            ),
    ;

    fn remove_ipv6(&mut self, interface_index: i32, config: &Ipv6Config) -> (r: Result<
        (),
        IpConfigError,
    >)
        ensures
            final(self).history() == old(self).history().push(
                IpCall::RemoveIpv6 { interface_index, config: *config, reply: r },
            ),
    ;

    fn add_route(&mut self, route: &Route) -> (r: Result<(), IpConfigError>)
        ensures
            final(self).history() == old(self).history().push(
                IpCall::AddRoute { route: *route, reply: r },
            ),
    ;

    fn remove_route(&mut self, route: &Route) -> (r: Result<(), IpConfigError>)
        ensures
            final(self).history() == old(self).history().push(
                IpCall::RemoveRoute { route: *route, reply: r },
            ),
    ;
}

/// A call that a DHCP client received, and its reply.
#[verifier::ext_equal]
#[allow(inconsistent_fields)]
pub enum DhcpCall {
    Acquire { request: DhcpRequestView, reply: Result<DhcpLeaseView, DhcpError> },
    Release { lease: DhcpLeaseView, reply: Result<(), DhcpError> },
}

/// A reply to a request for a lease, with the lease's texts as sequences.
pub open spec fn acquired(reply: Result<DhcpLease, DhcpError>) -> Result<DhcpLeaseView, DhcpError> {
    match reply {
        Ok(lease) => Ok(lease@),
        Err(e) => Err(e),
    }
}

/// Acquires and releases DHCPv4 leases.
pub trait DhcpClient {
    /// The calls received so far, oldest first. A type that is to be held to this
    /// contract says how it keeps them.
    open spec fn history(&self) -> Seq<DhcpCall> {
        Seq::empty()
    }

    fn acquire(&mut self, request: &DhcpRequest) -> (r: Result<DhcpLease, DhcpError>)
        ensures
            final(self).history() == old(self).history().push(
                DhcpCall::Acquire { request: request@, reply: acquired(r) },
            ),
    ;

    fn release(&mut self, lease: &DhcpLease) -> (r: Result<(), DhcpError>)
        ensures
            final(self).history() == old(self).history().push(
                DhcpCall::Release { lease: lease@, reply: r },
            ),
    ;
}

/// A call that a DNS manager received, and its reply.
#[verifier::ext_equal]
#[allow(inconsistent_fields)]
pub enum DnsCall {
    Apply { owner: Seq<char>, config: DnsConfigView, reply: Result<DnsOwnership, DnsError> },
    Remove { ownership: DnsOwnership, reply: Result<(), DnsError> },
}

/// Applies and removes a system DNS configuration.
pub trait DnsManager {
    /// The calls received so far, oldest first. A type that is to be held to this
    /// contract says how it keeps them.
    open spec fn history(&self) -> Seq<DnsCall> {
        Seq::empty()
    }

    /// Writes `config` under the given `owner` marker and returns the ownership
    /// handle needed to remove it later.
    fn apply(&mut self, owner: &str, config: &DnsConfig) -> (r: Result<DnsOwnership, DnsError>)
        ensures
            final(self).history() == old(self).history().push(
                DnsCall::Apply { owner: owner@, config: config@, reply: r },
            ),
    ;

    /// Removes a previously applied DNS configuration if it is still owned by
    /// `ownership.owner`.
    fn remove(&mut self, ownership: &DnsOwnership) -> (r: Result<(), DnsError>)
        ensures
            final(self).history() == old(self).history().push(
                DnsCall::Remove { ownership: *ownership, reply: r },
            ),
    ;
}

} // verus!
