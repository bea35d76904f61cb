//! D-Bus device objects.
//!
//! The `Device` interface and its per-type sub-interfaces are rendered from
//! snapshots of the kernel state ([`Link`] and [`WirelessInterface`]). There is
//! no second device model; every property is derived from the domain.

use vstd::prelude::*;

use crate::connection::activation::{ActivationEngine, ActiveConnection};
use crate::connection::device::{
    DeviceInfo, DeviceInfoView, DeviceKind as DomainDeviceKind, MacAddress,
};
use crate::connection::state::ConnectionState;
use crate::connection::store::ProfileStore;
use crate::daemon::{Daemon, NetworkBackend};
use crate::dbus::error::{FacadeError, FacadeErrorView};
use crate::dbus::{
    NM_CONNECTIVITY_FULL, NM_CONNECTIVITY_NONE, NM_DEVICE_STATE_ACTIVATED, NM_DEVICE_STATE_CONFIG,
    NM_DEVICE_STATE_DEACTIVATING, NM_DEVICE_STATE_DISCONNECTED, NM_DEVICE_STATE_FAILED,
    NM_DEVICE_STATE_IP_CONFIG, NM_DEVICE_STATE_PREPARE, NM_DEVICE_STATE_UNAVAILABLE,
    NM_DEVICE_STATE_UNKNOWN, NM_DEVICE_TYPE_ETHERNET, NM_DEVICE_TYPE_LOOPBACK, NM_DEVICE_TYPE_WIFI,
};
use crate::linux::model;
use crate::linux::model::{format_mac_address, Link, NetlinkError, WirelessInterface};
use crate::sort;
use crate::sort::{sort, Ranked};
use crate::text;
use crate::text::{concat2, same_text, signed_text};

verus! {

/// The device types the facade can render.
#[derive(Clone, Copy, Debug, PartialEq, Eq, Structural)]
pub enum DeviceKind {
    Wifi,
    Ethernet,
    Loopback,
}

impl DeviceKind {
    /// The NetworkManager device type.
    pub fn nm_type(self) -> (r: u32)
        ensures
            r == match self {
                DeviceKind::Wifi => NM_DEVICE_TYPE_WIFI,
                DeviceKind::Ethernet => NM_DEVICE_TYPE_ETHERNET,
                DeviceKind::Loopback => NM_DEVICE_TYPE_LOOPBACK,
            },
    {
        match self {
            DeviceKind::Wifi => NM_DEVICE_TYPE_WIFI,
            DeviceKind::Ethernet => NM_DEVICE_TYPE_ETHERNET,
            DeviceKind::Loopback => NM_DEVICE_TYPE_LOOPBACK,
        }
    }

    /// The name of the driver.
    pub fn driver(self) -> (r: &'static str)
        ensures
            r@ == match self {
                DeviceKind::Wifi => "wifi"@,
                DeviceKind::Ethernet => "ethernet"@,
                DeviceKind::Loopback => "loopback"@,
            },
    {
        match self {
            DeviceKind::Wifi => "wifi",
            DeviceKind::Ethernet => "ethernet",
            DeviceKind::Loopback => "loopback",
        }
    }

    /// The kind of device that profiles are matched against.
    pub open spec fn domain(self) -> DomainDeviceKind {
        match self {
            DeviceKind::Wifi => DomainDeviceKind::Wifi,
            DeviceKind::Ethernet | DeviceKind::Loopback => DomainDeviceKind::Ethernet,
        }
    }

    /// The kind of device that profiles are matched against.
    pub fn domain_kind(self) -> (r: DomainDeviceKind)
        ensures
            r == self.domain(),
    {
        match self {
            DeviceKind::Wifi => DomainDeviceKind::Wifi,
            DeviceKind::Ethernet | DeviceKind::Loopback => DomainDeviceKind::Ethernet,
        }
    }
}

/// A read-only projection of one kernel interface for the D-Bus layer.
#[derive(Debug, PartialEq, Eq)]
pub struct DeviceView {
    pub index: i32,
    pub interface: String,
    pub kind: DeviceKind,
    pub mac: Option<[u8; 6]>,
    pub up: bool,
}

impl Clone for DeviceView {
    fn clone(&self) -> (r: Self)
        ensures
            r == *self,
    {
        DeviceView {
            index: self.index,
            interface: self.interface.clone(),
            kind: self.kind,
            mac: self.mac,
            up: self.up,
        }
    }
}

impl Ranked for DeviceView {
    open spec fn precedes(self, other: Self) -> bool {
        self.index < other.index
    }

    fn goes_before(&self, other: &Self) -> (r: bool) {
        self.index < other.index
    }

    proof fn asymmetric(a: Self, b: Self) {
    }

    proof fn transitive(a: Self, b: Self, c: Self) {
    }
}

impl DeviceView {
    /// The device as profiles are matched against it.
    pub open spec fn info(self) -> DeviceInfoView {
        DeviceInfoView {
            kind: self.kind.domain(),
            interface_name: self.interface@,
            mac_address: model::mac_view(self.mac),
        }
    }

    /// The device as profiles are matched against it.
    pub fn to_device_info(&self) -> (r: DeviceInfo)
        ensures
            r@ == self.info(),
    {
        DeviceInfo {
            kind: self.kind.domain_kind(),
            interface_name: self.interface.clone(),
            mac_address: match self.mac {
                Some(octets) => Some(MacAddress(octets)),
                None => None,
            },
        }
    }

    /// The hardware address as text, empty where there is none.
    pub fn hw_address(&self) -> (r: String)
        ensures
            r@ == match model::mac_view(self.mac) {
                Some(mac) => model::mac_text(mac),
                None => Seq::empty(),
            },
    {
        match &self.mac {
            Some(mac) => format_mac_address(mac),
            None => String::new(),
        }
    }

    /// The `InterfaceFlags` of the device: up and running, or neither.
    pub fn interface_flags(&self) -> (r: u32)
        ensures
            r == if self.up {
                3u32
            } else {
                0u32
            },
    {
        if self.up {
            3
        } else {
            0
        }
    }
}

// --- Enumeration ----------------------------------------------------------------------

/// The device that a wireless interface is.
pub open spec fn of_wireless(interface: WirelessInterface) -> DeviceView {
    DeviceView {
        index: interface.index,
        interface: interface.name,
        kind: DeviceKind::Wifi,
        mac: interface.mac,
        up: interface.up,
    }
}

/// The device that a link is which is no wireless interface.
pub open spec fn of_link(link: Link) -> DeviceView {
    DeviceView {
        index: link.index,
        interface: link.name,
        kind: if link.flags.loopback() {
            DeviceKind::Loopback
        } else {
            DeviceKind::Ethernet
        },
        mac: None,
        up: link.flags.up(),
    }
}

/// Whether a device with an index is among devices.
pub open spec fn has_index(devices: Seq<DeviceView>, index: i32) -> bool {
    exists|i: int| 0 <= i < devices.len() && (#[trigger] devices[i]).index == index
}

/// Devices, and behind them those of links whose indices are not there yet.
pub open spec fn with_links(devices: Seq<DeviceView>, links: Seq<Link>) -> Seq<DeviceView>
    decreases links.len(),
{
    if links.len() == 0 {
        devices
    } else {
        let before = with_links(devices, links.drop_last());
        if has_index(before, links.last().index) {
            before
        } else {
            before.push(of_link(links.last()))
        }
    }
}

/// The devices of wireless interfaces and links, ordered by index.
pub open spec fn all_devices(wifi: Seq<WirelessInterface>, links: Seq<Link>) -> Seq<DeviceView> {
    sort::stable_sort(
        with_links(wifi.map_values(|interface: WirelessInterface| of_wireless(interface)), links),
    )
}

fn has_device(devices: &Vec<DeviceView>, index: i32) -> (r: bool)
    ensures
        r == has_index(devices@, index),
{
    let mut i: usize = 0;
    while i < devices.len()
        invariant
            i <= devices@.len(),
            forall|j: int| 0 <= j < i ==> (#[trigger] devices@[j]).index != index,
        decreases devices@.len() - i,
    {
        if devices[i].index == index {
            assert(devices@[i as int].index == index);
            return true;
        }
        i = i + 1;
    }
    false
}

/// The devices of wireless interfaces and links, ordered by index. A link that is
/// a wireless interface is listed once.
pub fn merge_devices(wifi: &Vec<WirelessInterface>, links: &Vec<Link>) -> (r: Vec<DeviceView>)
    ensures
        r@ == all_devices(wifi@, links@),
{
    let ghost wireless = wifi@.map_values(|interface: WirelessInterface| of_wireless(interface));
    let mut devices: Vec<DeviceView> = Vec::new();
    let mut i: usize = 0;
    while i < wifi.len()
        invariant
            i <= wifi@.len(),
            wireless == wifi@.map_values(|interface: WirelessInterface| of_wireless(interface)),
            devices@ == wireless.take(i as int),
        decreases wifi@.len() - i,
    {
        devices.push(
            DeviceView {
                index: wifi[i].index,
                interface: wifi[i].name.clone(),
                kind: DeviceKind::Wifi,
                mac: wifi[i].mac,
                up: wifi[i].up,
            },
        );
        assert(devices@ =~= wireless.take(i + 1));
        i = i + 1;
    }
    assert(wireless.take(i as int) =~= wireless);
    let mut k: usize = 0;
    assert(links@.take(0) =~= Seq::empty());
    while k < links.len()
        invariant
            k <= links@.len(),
            devices@ == with_links(wireless, links@.take(k as int)),
        decreases links@.len() - k,
    {
        let link: &Link = &links[k];
        assert(links@.take(k + 1).drop_last() =~= links@.take(k as int));
        if !has_device(&devices, link.index) {
            let kind: DeviceKind = if link.flags.is_loopback() {
                DeviceKind::Loopback
            } else {
                DeviceKind::Ethernet
            };
            devices.push(
                DeviceView {
                    index: link.index,
                    interface: link.name.clone(),
                    kind,
                    mac: None,
                    up: link.flags.is_up(),
                },
            );
        }
        k = k + 1;
    }
    assert(links@.take(k as int) =~= links@);
    sort(devices)
}

/// Whether a backend may lead to an enumeration: the wireless interfaces are asked
/// for first, then the links.
pub open spec fn may_enumerate<B: NetworkBackend>(
    backend: B,
    result: Result<Vec<DeviceView>, FacadeErrorView>,
) -> bool {
    exists|wifi: Result<Vec<WirelessInterface>, NetlinkError>|
        #[trigger] backend.may_wifi_interfaces(wifi) && match wifi {
            Err(e) => result == Err::<Vec<DeviceView>, FacadeErrorView>(
                FacadeErrorView::Internal(e.text()),
            ),
            Ok(wifi) => exists|links: Result<Vec<Link>, NetlinkError>|
                #[trigger] backend.may_links(links) && match links {
                    Err(e) => result == Err::<Vec<DeviceView>, FacadeErrorView>(
                        FacadeErrorView::Internal(e.text()),
                    ),
                    Ok(links) => result matches Ok(devices) && devices@ == all_devices(
                        wifi@,
                        links@,
                    ),
                },
        }
}

/// A result, with its error as a view.
pub open spec fn result_view<T>(result: Result<T, FacadeError>) -> Result<T, FacadeErrorView> {
    match result {
        Ok(value) => Ok(value),
        Err(e) => Err(e@),
    }
}

/// Enumerates the daemon's devices as a deterministic, index-sorted list.
pub fn enumerate_devices<B: NetworkBackend, S: ProfileStore, E: ActivationEngine>(
    daemon: &Daemon<B, S, E>,
) -> (r: Result<Vec<DeviceView>, FacadeError>)
    ensures
        may_enumerate(daemon.backend, result_view(r)),
{
    let wifi: Result<Vec<WirelessInterface>, NetlinkError> = daemon.wifi_interfaces();
    let ghost first = wifi;
    assert(daemon.backend.may_wifi_interfaces(first));
    match wifi {
        Err(e) => Err(FacadeError::from(e)),
        Ok(wifi) => {
            let links: Result<Vec<Link>, NetlinkError> = daemon.links();
            let ghost second = links;
            assert(daemon.backend.may_links(second));
            match links {
                Err(e) => Err(FacadeError::from(e)),
                Ok(links) => Ok(merge_devices(&wifi, &links)),
            }
        },
    }
}

// --- Lookups ----------------------------------------------------------------------------

/// The first device with an index.
pub open spec fn device_with(devices: Seq<DeviceView>, index: i32) -> Option<DeviceView>
    decreases devices.len(),
{
    if devices.len() == 0 {
        None
    } else if devices[0].index == index {
        Some(devices[0])
    } else {
        device_with(devices.skip(1), index)
    }
}

/// The first device with a name.
pub open spec fn device_named(devices: Seq<DeviceView>, name: Seq<char>) -> Option<DeviceView>
    decreases devices.len(),
{
    if devices.len() == 0 {
        None
    } else if devices[0].interface@ == name {
        Some(devices[0])
    } else {
        device_named(devices.skip(1), name)
    }
}

/// Resolves a device by kernel interface index.
pub fn find_device(devices: &Vec<DeviceView>, index: i32) -> (r: Result<DeviceView, FacadeError>)
    ensures
        match device_with(devices@, index) {
            Some(device) => r == Ok::<DeviceView, FacadeError>(device),
            None => r matches Err(e) && e@ == FacadeErrorView::UnknownDevice(
                "device "@ + text::signed_decimal(index as int),
            ),
        },
{
    let ghost all = devices@;
    let mut i: usize = 0;
    assert(all.skip(0) =~= all);
    while i < devices.len()
        invariant
            i <= devices@.len(),
            all == devices@,
            device_with(all, index) == device_with(all.skip(i as int), index),
        decreases devices@.len() - i,
    {
        assert(all.skip(i as int)[0] == all[i as int]);
        assert(all.skip(i as int).skip(1) =~= all.skip(i + 1));
        if devices[i].index == index {
            return Ok(devices[i].clone());
        }
        i = i + 1;
    }
    Err(FacadeError::UnknownDevice(concat2("device ", signed_text(index).as_str())))
}

/// Resolves the kernel index of a device by interface name.
pub fn device_index_by_name(devices: &Vec<DeviceView>, interface: &str) -> (r: Option<i32>)
    ensures
        r == match device_named(devices@, interface@) {
            Some(device) => Some(device.index),
            None => None,
        },
{
    let ghost all = devices@;
    let mut i: usize = 0;
    assert(all.skip(0) =~= all);
    while i < devices.len()
        invariant
            i <= devices@.len(),
            all == devices@,
            device_named(all, interface@) == device_named(all.skip(i as int), interface@),
        decreases devices@.len() - i,
    {
        assert(all.skip(i as int)[0] == all[i as int]);
        assert(all.skip(i as int).skip(1) =~= all.skip(i + 1));
        if same_text(devices[i].interface.as_str(), interface) {
            return Some(devices[i].index);
        }
        i = i + 1;
    }
    None
}

/// The first connection on an interface.
pub open spec fn connection_on(active: Seq<ActiveConnection>, interface: Seq<char>) -> Option<
    ActiveConnection,
>
    decreases active.len(),
{
    if active.len() == 0 {
        None
    } else if active[0].device.interface_name@ == interface {
        Some(active[0])
    } else {
        connection_on(active.skip(1), interface)
    }
}

/// Returns the active connection bound to an interface, if any.
pub fn device_active<'a>(active: &'a [ActiveConnection], interface: &str) -> (r: Option<
    &'a ActiveConnection,
>)
    ensures
        match r {
            Some(found) => connection_on(active@, interface@) == Some(*found),
            None => connection_on(active@, interface@) is None,
        },
{
    let ghost all = active@;
    let mut i: usize = 0;
    assert(all.skip(0) =~= all);
    while i < active.len()
        invariant
            i <= active@.len(),
            all == active@,
            connection_on(all, interface@) == connection_on(all.skip(i as int), interface@),
        decreases active@.len() - i,
    {
        assert(all.skip(i as int)[0] == all[i as int]);
        assert(all.skip(i as int).skip(1) =~= all.skip(i + 1));
        if same_text(active[i].device.interface_name.as_str(), interface) {
            return Some(&active[i]);
        }
        i = i + 1;
    }
    None
}

// --- States -------------------------------------------------------------------------------

/// The state of a device, given the connection that is bound to it.
pub open spec fn state_of(device: DeviceView, active: Option<ActiveConnection>) -> u32 {
    match active {
        Some(connection) if connection.device.interface_name@ == device.interface@
            && connection.state == ConnectionState::Activated => NM_DEVICE_STATE_ACTIVATED,
        _ => if device.up {
            NM_DEVICE_STATE_DISCONNECTED
        } else {
            NM_DEVICE_STATE_UNAVAILABLE
        },
    }
}

/// The state of a device among the connections that are tracked.
pub fn device_state(device: &DeviceView, active: &[ActiveConnection]) -> (r: u32)
    ensures
        r == state_of(*device, connection_on(active@, device.interface@)),
{
    let bound: Option<&ActiveConnection> = device_active(active, device.interface.as_str());
    if let Some(connection) = bound {
        if same_text(connection.device.interface_name.as_str(), device.interface.as_str())
            && connection.state == ConnectionState::Activated {
            return NM_DEVICE_STATE_ACTIVATED;
        }
    }
    if device.up {
        NM_DEVICE_STATE_DISCONNECTED
    } else {
        NM_DEVICE_STATE_UNAVAILABLE
    }
}

/// The device state that a connection state drives a device into.
pub open spec fn driven_state(state: ConnectionState) -> u32 {
    match state {
        ConnectionState::Unknown => NM_DEVICE_STATE_UNKNOWN,
        ConnectionState::Disconnected => NM_DEVICE_STATE_DISCONNECTED,
        ConnectionState::Preparing => NM_DEVICE_STATE_PREPARE,
        ConnectionState::Configuring => NM_DEVICE_STATE_CONFIG,
        ConnectionState::Activating => NM_DEVICE_STATE_IP_CONFIG,
        ConnectionState::Activated => NM_DEVICE_STATE_ACTIVATED,
        ConnectionState::Deactivating => NM_DEVICE_STATE_DEACTIVATING,
        ConnectionState::Failed => NM_DEVICE_STATE_FAILED,
    }
}

/// The device state that a connection state drives a device into.
pub fn connection_to_device_state(state: ConnectionState) -> (r: u32)
    ensures
        r == driven_state(state),
{
    match state {
        ConnectionState::Unknown => NM_DEVICE_STATE_UNKNOWN,
        ConnectionState::Disconnected => NM_DEVICE_STATE_DISCONNECTED,
        ConnectionState::Preparing => NM_DEVICE_STATE_PREPARE,
        ConnectionState::Configuring => NM_DEVICE_STATE_CONFIG,
        ConnectionState::Activating => NM_DEVICE_STATE_IP_CONFIG,
        ConnectionState::Activated => NM_DEVICE_STATE_ACTIVATED,
        ConnectionState::Deactivating => NM_DEVICE_STATE_DEACTIVATING,
        ConnectionState::Failed => NM_DEVICE_STATE_FAILED,
    }
}

/// The IPv4 connectivity of a device: full when a connection is bound to it.
pub fn device_connectivity(active: &[ActiveConnection], interface: &str) -> (r: u32)
    ensures
        r == if connection_on(active@, interface@) is Some {
            NM_CONNECTIVITY_FULL
        } else {
            NM_CONNECTIVITY_NONE
        },
{
    if device_active(active, interface).is_some() {
        NM_CONNECTIVITY_FULL
    } else {
        NM_CONNECTIVITY_NONE
    }
}

/// The least index among the Wi-Fi devices.
pub open spec fn least_wifi(devices: Seq<DeviceView>) -> Option<i32>
    decreases devices.len(),
{
    if devices.len() == 0 {
        None
    } else {
        let before = least_wifi(devices.drop_last());
        let last = devices.last();
        if last.kind == DeviceKind::Wifi && (before is None || last.index < before->0) {
            Some(last.index)
        } else {
            before
        }
    }
}

/// The Wi-Fi device that access points are listed under: the one with the least
/// index.
pub fn primary_wifi(devices: &Vec<DeviceView>) -> (r: Option<i32>)
    ensures
        r == least_wifi(devices@),
{
    let mut r: Option<i32> = None;
    let mut i: usize = 0;
    assert(devices@.take(0) =~= Seq::empty());
    while i < devices.len()
        invariant
            i <= devices@.len(),
            r == least_wifi(devices@.take(i as int)),
        decreases devices@.len() - i,
    {
        assert(devices@.take(i + 1).drop_last() =~= devices@.take(i as int));
        if devices[i].kind == DeviceKind::Wifi {
            r = match r {
                Some(least) => if devices[i].index < least {
                    Some(devices[i].index)
                } else {
                    Some(least)
                },
                None => Some(devices[i].index),
            };
        }
        i = i + 1;
    }
    assert(devices@.take(i as int) =~= devices@);
    r
}

/// Whether there is a Wi-Fi device.
pub fn has_wifi(devices: &Vec<DeviceView>) -> (r: bool)
    ensures
        r == exists|i: int| 0 <= i < devices@.len() && (#[trigger] devices@[i]).kind == DeviceKind::Wifi,
{
    let mut i: usize = 0;
    while i < devices.len()
        invariant
            i <= devices@.len(),
            forall|j: int| 0 <= j < i ==> (#[trigger] devices@[j]).kind != DeviceKind::Wifi,
        decreases devices@.len() - i,
    {
        if devices[i].kind == DeviceKind::Wifi {
            assert(devices@[i as int].kind == DeviceKind::Wifi);
            return true;
        }
        i = i + 1;
    }
    false
}

/// The `Device.Statistics` interface, which counts nothing.
pub struct StatisticsIface;

impl StatisticsIface {
    /// How often counts are refreshed: never.
    pub fn refresh_rate_ms(&self) -> (r: u32)
        ensures
            r == 0,
    {
        0
    }

    /// How many octets were sent.
    pub fn tx_bytes(&self) -> (r: u64)
        ensures
            r == 0,
    {
        0
    }

    /// How many octets were received.
    pub fn rx_bytes(&self) -> (r: u64)
        ensures
            r == 0,
    {
        0
    }
}

// --- Laws ------------------------------------------------------------------------------------

/// Devices are listed in the order of their indices.
pub proof fn lemma_devices_ordered(wifi: Seq<WirelessInterface>, links: Seq<Link>, i: int, j: int)
    requires
        0 <= i < j < all_devices(wifi, links).len(),
    ensures
        all_devices(wifi, links)[i].index <= all_devices(wifi, links)[j].index,
{
    let listed = with_links(
        wifi.map_values(|interface: WirelessInterface| of_wireless(interface)),
        links,
    );
    sort::lemma_stable_sort(listed);
    let devices = all_devices(wifi, links);
    assert(!devices[j].precedes(devices[i]));
}

/// Whether no two devices have the same index.
pub open spec fn distinct_indices(devices: Seq<DeviceView>) -> bool {
    forall|i: int, j: int|
        0 <= i < j < devices.len() ==> (#[trigger] devices[i]).index != (#[trigger] devices[j]).index
}

proof fn lemma_links_distinct(devices: Seq<DeviceView>, links: Seq<Link>)
    requires
        distinct_indices(devices),
    ensures
        distinct_indices(with_links(devices, links)),
    decreases links.len(),
{
    if links.len() > 0 {
        lemma_links_distinct(devices, links.drop_last());
    }
}

/// Every link is among the devices, as itself or as a wireless interface, and every
/// wireless interface is.
pub proof fn lemma_every_interface_listed(wifi: Seq<WirelessInterface>, links: Seq<Link>, i: int)
    ensures
        0 <= i < wifi.len() ==> all_devices(wifi, links).contains(of_wireless(wifi[i])),
        0 <= i < links.len() ==> has_index(all_devices(wifi, links), links[i].index),
{
    let wireless = wifi.map_values(|interface: WirelessInterface| of_wireless(interface));
    let listed = with_links(wireless, links);
    let devices = all_devices(wifi, links);
    sort::lemma_stable_sort(listed);
    if 0 <= i < wifi.len() {
        lemma_links_prefix(wireless, links);
        assert(wireless[i] == of_wireless(wifi[i]));
        assert(listed[i] == wireless[i]);
        assert(listed.contains(of_wireless(wifi[i])));
        lemma_sorted_contains(listed, of_wireless(wifi[i]));
    }
    if 0 <= i < links.len() {
        lemma_link_listed(wireless, links, i);
        let k = choose|k: int| 0 <= k < listed.len() && (#[trigger] listed[k]).index == links[i].index;
        assert(listed.contains(listed[k]));
        lemma_sorted_contains(listed, listed[k]);
        let m = choose|m: int| 0 <= m < devices.len() && devices[m] == listed[k];
        assert(devices[m].index == links[i].index);
    }
}

proof fn lemma_sorted_contains(listed: Seq<DeviceView>, device: DeviceView)
    requires
        listed.contains(device),
    ensures
        sort::stable_sort(listed).contains(device),
{
    sort::lemma_stable_sort(listed);
    broadcast use vstd::seq_lib::group_to_multiset_ensures;

    assert(listed.to_multiset().count(device) > 0);
    assert(sort::stable_sort(listed).to_multiset().count(device) > 0);
}

proof fn lemma_links_prefix(devices: Seq<DeviceView>, links: Seq<Link>)
    ensures
        devices.is_prefix_of(with_links(devices, links)),
    decreases links.len(),
{
    if links.len() > 0 {
        lemma_links_prefix(devices, links.drop_last());
    }
}

proof fn lemma_link_listed(devices: Seq<DeviceView>, links: Seq<Link>, i: int)
    requires
        0 <= i < links.len(),
    ensures
        has_index(with_links(devices, links), links[i].index),
    decreases links.len(),
{
    let before = with_links(devices, links.drop_last());
    let all = with_links(devices, links);
    if i < links.len() - 1 {
        lemma_link_listed(devices, links.drop_last(), i);
        let k = choose|k: int| 0 <= k < before.len() && (#[trigger] before[k]).index == links[i].index;
        assert(all[k] == before[k]);
    } else if !has_index(before, links.last().index) {
        assert(all.last().index == links[i].index);
        assert(all[all.len() - 1].index == links[i].index);
    }
}

proof fn lemma_ranked_found(s: Seq<DeviceView>, x: DeviceView)
    requires
        sort::ranked_as(s, x).len() > 0,
    ensures
        has_index(s, x.index),
    decreases s.len(),
{
    if s.len() > 0 {
        if s.last().index == x.index {
            assert(s[s.len() - 1].index == x.index);
        } else {
            let rest = s.drop_last();
            lemma_ranked_found(rest, x);
            let k = choose|k: int| 0 <= k < rest.len() && (#[trigger] rest[k]).index == x.index;
            assert(s[k].index == x.index);
        }
    }
}

proof fn lemma_ranked_few(s: Seq<DeviceView>, x: DeviceView)
    requires
        distinct_indices(s),
    ensures
        sort::ranked_as(s, x).len() <= 1,
    decreases s.len(),
{
    if s.len() > 0 {
        let rest = s.drop_last();
        lemma_ranked_few(rest, x);
        if s.last().index == x.index && sort::ranked_as(rest, x).len() > 0 {
            lemma_ranked_found(rest, x);
            let k = choose|k: int| 0 <= k < rest.len() && (#[trigger] rest[k]).index == x.index;
            assert(s[k].index == s[s.len() - 1].index);
        }
    }
}

proof fn lemma_ranked_many(s: Seq<DeviceView>, x: DeviceView, i: int, j: int)
    requires
        0 <= i <= j < s.len(),
        s[i].index == x.index,
        s[j].index == x.index,
    ensures
        sort::ranked_as(s, x).len() >= (if i < j {
            2int
        } else {
            1int
        }),
    decreases s.len(),
{
    let rest = s.drop_last();
    if j < s.len() - 1 {
        lemma_ranked_many(rest, x, i, j);
    } else if i < j {
        lemma_ranked_many(rest, x, i, i);
    }
}

/// No index is listed twice, as long as none of the wireless interfaces is.
pub proof fn lemma_devices_distinct(wifi: Seq<WirelessInterface>, links: Seq<Link>)
    requires
        forall|i: int, j: int|
            0 <= i < j < wifi.len() ==> (#[trigger] wifi[i]).index != (#[trigger] wifi[j]).index,
    ensures
        distinct_indices(all_devices(wifi, links)),
{
    let wireless = wifi.map_values(|interface: WirelessInterface| of_wireless(interface));
    assert forall|i: int, j: int| 0 <= i < j < wireless.len() implies (
    #[trigger] wireless[i]).index != (#[trigger] wireless[j]).index by {
        assert(wifi[i].index != wifi[j].index);
    }
    lemma_links_distinct(wireless, links);
    let listed = with_links(wireless, links);
    let devices = all_devices(wifi, links);
    assert forall|i: int, j: int| 0 <= i < j < devices.len() implies (
    #[trigger] devices[i]).index != (#[trigger] devices[j]).index by {
        if devices[i].index == devices[j].index {
            lemma_ranked_many(devices, devices[i], i, j);
            sort::lemma_sort_is_stable(listed, devices[i]);
            lemma_ranked_few(listed, devices[i]);
        }
    }
}

} // verus!
