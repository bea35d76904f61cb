//! What clients of the bus see.

use vstd::arithmetic::power2::pow2;
use vstd::prelude::*;

use crate::authorization;
use crate::connection::activation::{ActivationError, ActiveConnection};
use crate::connection::ip::{Ipv4OutcomeView, Ipv6OutcomeView};
use crate::connection::state::{ConnectionEventView, ConnectionState};
use crate::connection::store::StoreError;
use crate::dbus;
use crate::dbus::access_point;
use crate::dbus::active_connection;
use crate::dbus::device;
use crate::dbus::device::{DeviceKind, DeviceView};
use crate::dbus::error::FacadeErrorView;
use crate::dbus::ipconfig;
use crate::dbus::root;
use crate::dbus::shared;
use crate::dbus::shared::{BusSignal, Told};
use crate::dbus::value::ValueView;
use crate::laws::ip;
use crate::laws::settings;
use crate::linux::model::{AccessPointView, Link, Route, WirelessInterface};
use crate::net;
use crate::net::{IpAddr, Ipv4Addr};
use crate::text;

verus! {

// --- States ----------------------------------------------------------------------------

/// The states that clients see, by number: of an active connection, of a device that a
/// connection drives, of a device at rest, and of the daemon.
pub proof fn lemma_numbers_of_states(
    state: ConnectionState,
    device: DeviceView,
    active: Option<ActiveConnection>,
    connections: nat,
)
    ensures
        active_connection::client_state(state) == match state {
            ConnectionState::Preparing => 1u32,
            ConnectionState::Configuring => 1,
            ConnectionState::Activating => 1,
            ConnectionState::Activated => 2,
            ConnectionState::Deactivating => 3,
            ConnectionState::Unknown => 4,
            ConnectionState::Disconnected => 4,
            ConnectionState::Failed => 4,
        },
        device::driven_state(state) == match state {
            ConnectionState::Unknown => 0u32,
            ConnectionState::Disconnected => 30,
            ConnectionState::Preparing => 40,
            ConnectionState::Configuring => 50,
            ConnectionState::Activating => 70,
            ConnectionState::Activated => 100,
            ConnectionState::Deactivating => 110,
            ConnectionState::Failed => 120,
        },
        (active matches Some(connection) && connection.device.interface_name@ == device.interface@
            && connection.state == ConnectionState::Activated) ==> device::state_of(device, active)
            == 100,
        !(active matches Some(connection) && connection.device.interface_name@ == device.interface@
            && connection.state == ConnectionState::Activated) ==> device::state_of(device, active)
            == if device.up {
            30u32
        } else {
            20
        },
        root::global_state(connections) == if connections == 0 {
            20u32
        } else {
            70
        },
{
}

/// The numbers by which kinds, connectivity and flags are named on the bus.
pub proof fn lemma_numbers_of_the_bus()
    ensures
        dbus::NM_DEVICE_TYPE_ETHERNET == 1,
        dbus::NM_DEVICE_TYPE_WIFI == 2,
        dbus::NM_DEVICE_TYPE_LOOPBACK == 32,
        dbus::NM_CONNECTIVITY_UNKNOWN == 0,
        dbus::NM_CONNECTIVITY_NONE == 1,
        dbus::NM_CONNECTIVITY_PORTAL == 2,
        dbus::NM_CONNECTIVITY_LIMITED == 3,
        dbus::NM_CONNECTIVITY_FULL == 4,
        dbus::NM_ACCESS_POINT_FLAGS_NONE == 0,
        dbus::NM_ACCESS_POINT_FLAGS_PRIVACY == 1,
        dbus::NM_SETTING_CONNECTION_FLAG_NONE == 0,
        dbus::NM_SETTING_CONNECTION_FLAG_UNSAVED == 1,
        dbus::NM_SETTING_CONNECTION_FLAG_NM_GENERATED == 2,
        dbus::NO_OBJECT@ == "/"@,
        dbus::ROOT_PATH@ == "/org/freedesktop/NetworkManager"@,
        dbus::SETTINGS_PATH@ == "/org/freedesktop/NetworkManager/Settings"@,
        dbus::DEVICES_PREFIX@ == "/org/freedesktop/NetworkManager/Devices/"@,
        dbus::ACTIVE_PREFIX@ == "/org/freedesktop/NetworkManager/ActiveConnection/"@,
        dbus::IP4_PREFIX@ == "/org/freedesktop/NetworkManager/IP4Config/"@,
        dbus::IP6_PREFIX@ == "/org/freedesktop/NetworkManager/IP6Config/"@,
        dbus::DHCP4_PREFIX@ == "/org/freedesktop/NetworkManager/DHCP4Config/"@,
        dbus::DHCP6_PREFIX@ == "/org/freedesktop/NetworkManager/DHCP6Config/"@,
        dbus::SETTINGS_PREFIX@ == "/org/freedesktop/NetworkManager/Settings/"@,
        dbus::ACCESS_POINT_PREFIX@ == "/org/freedesktop/NetworkManager/AccessPoint/"@,
        dbus::BUS_NAME@ == "org.freedesktop.NetworkManager"@,
{
}

// --- Access points ---------------------------------------------------------------------

/// The strength of an access point is a percentage: a hundred more than its signal in
/// dBm, and never outside of a percentage; nothing without a reading.
pub proof fn lemma_strength_is_a_percentage(signal: Option<i32>, weaker: i32)
    ensures
        access_point::strength_of(None) == 0,
        signal matches Some(dbm) ==> {
            &&& -100 <= dbm <= 0 ==> access_point::strength_of(signal) == 100 + dbm
            &&& dbm < -100 ==> access_point::strength_of(signal) == 0
            &&& dbm > 0 ==> access_point::strength_of(signal) == 100
            &&& weaker <= dbm ==> access_point::strength_of(Some(weaker))
                <= access_point::strength_of(signal)
        },
{
}

/// The security flags of an access point are 0x100 for one with pre-shared keys, 0x200
/// for one with 802.1X, and 0x400 and 0x800 for a WPA3 one.
pub proof fn lemma_security_flags(point: AccessPointView)
    ensures
        access_point::flags_of(point) == (if point.security.wpa2 || point.security.wpa3 {
            0x100int
        } else {
            0
        }) + (if point.security.wpa1 || point.security.wpa2 {
            0x200int
        } else {
            0
        }) + (if point.security.wpa3 {
            0x400int + 0x800
        } else {
            0
        }),
{
}

// --- Devices ---------------------------------------------------------------------------

/// A device shows what its interface is: a wireless interface is a Wi-Fi device with a
/// hardware address; another link is a loopback or an Ethernet device, by its flag.
/// Profiles see it as a Wi-Fi or an Ethernet device.
pub proof fn lemma_device_is_its_interface(interface: WirelessInterface, link: Link)
    ensures
        ({
            let wifi = device::of_wireless(interface);
            let other = device::of_link(link);
            &&& wifi.index == interface.index
            &&& wifi.interface == interface.name
            &&& wifi.kind == DeviceKind::Wifi
            &&& wifi.mac == interface.mac
            &&& wifi.up == interface.up
            &&& wifi.info().kind is Wifi
            &&& wifi.info().interface_name == interface.name@
            &&& wifi.info().mac_address == match interface.mac {
                Some(mac) => Some(mac@),
                None => None,
            }
            &&& other.index == link.index
            &&& other.interface == link.name
            &&& other.kind == DeviceKind::Loopback <==> link.flags.0 / 8 % 2 == 1
            &&& other.kind == DeviceKind::Ethernet <==> link.flags.0 / 8 % 2 == 0
            &&& other.mac is None
            &&& other.up <==> link.flags.0 % 2 == 1
            &&& other.info().kind is Ethernet
            &&& other.info().interface_name == link.name@
        }),
{
}

/// A device is found by its index or its name: the first that has it, or none when
/// there is none.
pub proof fn lemma_devices_are_found(devices: Seq<DeviceView>, index: i32, name: Seq<char>)
    ensures
        match device::device_with(devices, index) {
            Some(found) => exists|k: int|
                0 <= k < devices.len() && #[trigger] devices[k] == found && found.index == index
                    && forall|i: int| 0 <= i < k ==> (#[trigger] devices[i]).index != index,
            None => forall|i: int| 0 <= i < devices.len() ==> (#[trigger] devices[i]).index != index,
        },
        match device::device_named(devices, name) {
            Some(found) => exists|k: int|
                0 <= k < devices.len() && #[trigger] devices[k] == found && found.interface@ == name
                    && forall|i: int| 0 <= i < k ==> (#[trigger] devices[i]).interface@ != name,
            None => forall|i: int|
                0 <= i < devices.len() ==> (#[trigger] devices[i]).interface@ != name,
        },
    decreases devices.len(),
{
    if devices.len() > 0 {
        let more = devices.skip(1);
        lemma_devices_are_found(more, index, name);
        assert(forall|i: int| 0 < i < devices.len() ==> #[trigger] devices[i] == more[i - 1]);
        assert(forall|i: int| 0 <= i < more.len() ==> #[trigger] more[i] == devices[i + 1]);
        if devices[0].index == index {
            assert(devices[0] == device::device_with(devices, index)->0);
        } else if let Some(found) = device::device_with(devices, index) {
            let k = choose|k: int|
                0 <= k < more.len() && #[trigger] more[k] == found && found.index == index
                    && forall|i: int| 0 <= i < k ==> (#[trigger] more[i]).index != index;
            assert(devices[k + 1] == found);
        }
        if devices[0].interface@ == name {
            assert(devices[0] == device::device_named(devices, name)->0);
        } else if let Some(found) = device::device_named(devices, name) {
            let k = choose|k: int|
                0 <= k < more.len() && #[trigger] more[k] == found && found.interface@ == name
                    && forall|i: int| 0 <= i < k ==> (#[trigger] more[i]).interface@ != name;
            assert(devices[k + 1] == found);
        }
    }
}

/// Access points are listed under the Wi-Fi device with the least index.
pub proof fn lemma_primary_wifi_is_the_first(devices: Seq<DeviceView>)
    ensures
        match device::least_wifi(devices) {
            Some(index) => {
                &&& exists|k: int|
                    0 <= k < devices.len() && (#[trigger] devices[k]).kind == DeviceKind::Wifi
                        && devices[k].index == index
                &&& forall|i: int|
                    0 <= i < devices.len() && (#[trigger] devices[i]).kind == DeviceKind::Wifi
                        ==> index <= devices[i].index
            },
            None => forall|i: int|
                0 <= i < devices.len() ==> (#[trigger] devices[i]).kind != DeviceKind::Wifi,
        },
    decreases devices.len(),
{
    if devices.len() > 0 {
        let most = devices.drop_last();
        let n = devices.len() - 1;
        lemma_primary_wifi_is_the_first(most);
        assert(forall|i: int| 0 <= i < n ==> #[trigger] devices[i] == most[i]);
        if let Some(index) = device::least_wifi(most) {
            let k = choose|k: int|
                0 <= k < most.len() && (#[trigger] most[k]).kind == DeviceKind::Wifi
                    && most[k].index == index;
            assert(devices[k].kind == DeviceKind::Wifi && devices[k].index == index);
        }
        assert(devices[n] == devices.last());
    }
}

// --- Addresses -------------------------------------------------------------------------

/// What clients see of an IPv4 configuration: the numbers of the address and of the
/// gateway, which is zero where there is none, and the prefix length.
pub proof fn lemma_address_is_shown(ipv4: Ipv4OutcomeView, address: IpAddr, prefix_length: u8)
    ensures
        ({
            let numbers = ipconfig::address_numbers(ipv4);
            &&& numbers.len() == 3
            &&& numbers[0] == ipv4.address.scalar()
            &&& numbers[1] == ipv4.prefix_length
            &&& numbers[2] == match ipv4.gateway {
                Some(gateway) => gateway.scalar(),
                None => 0u32,
            }
        }),
        settings::at(
            ipconfig::address_entry(address, prefix_length),
            "address"@,
            Some(ValueView::Str(address.text())),
        ),
        settings::at(
            ipconfig::address_entry(address, prefix_length),
            "prefix"@,
            Some(ValueView::U32(prefix_length as u32)),
        ),
{
    reveal_strlit("address");
    reveal_strlit("prefix");
    assert("address"@.len() == 7 && "prefix"@.len() == 6);
    let entry = ipconfig::address_entry(address, prefix_length);
    assert(entry[0].0 == "address"@ && entry[1].0 == "prefix"@);
}

/// What clients see of an IPv6 configuration: the address that was configured, or else
/// the link-local one with its 64 bits.
pub proof fn lemma_v6_address_is_shown(outcome: Option<Ipv6OutcomeView>)
    ensures
        ipconfig::primary_v6(outcome) == match outcome {
            Some(ipv6) => if ipv6.address is Some {
                Some((ipv6.address->0, ipv6.prefix_length))
            } else if ipv6.link_local is Some {
                Some((ipv6.link_local->0, 64u8))
            } else {
                None
            },
            None => None,
        },
{
}

/// What clients see of a route: its network, its prefix length, its next hop if it has
/// one, and its metric, which is zero where there is none.
pub proof fn lemma_route_is_shown(route: Route)
    ensures
        ({
            let entry = ipconfig::route_dictionary(route);
            &&& exists|network: IpAddr|
                #[trigger] settings::at(entry, "dest"@, Some(ValueView::Str(network.text())))
                    && is_network_of(network, route.destination, route.prefix_length)
            &&& settings::at(
                entry,
                "prefix"@,
                Some(ValueView::U32(route.prefix_length as u32)),
            )
            &&& settings::at(
                entry,
                "next-hop"@,
                match route.gateway {
                    Some(gateway) => Some(ValueView::Str(gateway.text())),
                    None => None,
                },
            )
            &&& settings::at(
                entry,
                "metric"@,
                Some(
                    ValueView::U32(
                        match route.metric {
                            Some(metric) => metric,
                            None => 0u32,
                        },
                    ),
                ),
            )
        }),
{
    reveal_strlit("dest");
    reveal_strlit("prefix");
    reveal_strlit("next-hop");
    reveal_strlit("metric");
    assert("dest"@.len() == 4 && "next-hop"@.len() == 8);
    assert("prefix"@[0] == 'p' && "metric"@[0] == 'm' && "prefix"@.len() == 6 && "metric"@.len()
        == 6);
    let entry = ipconfig::route_dictionary(route);
    let network = net::network_of(route.destination, route.prefix_length as nat);
    lemma_network_of(route.destination, route.prefix_length);
    assert(entry[0] == ("dest"@, ValueView::Str(network.text())));
    assert(entry[1].0 == "prefix"@);
    let g: int = if route.gateway is Some {
        1
    } else {
        0
    };
    assert(entry.len() == 3 + g);
    if g == 1 {
        assert(entry[2].0 == "next-hop"@);
    }
    assert(entry[2 + g].0 == "metric"@);
    assert(settings::at(entry, "dest"@, Some(ValueView::Str(network.text()))));
    assert(settings::at(entry, "metric"@, Some(entry[2 + g].1)));
}

/// Whether an address is the first of the network of another.
pub open spec fn is_network_of(network: IpAddr, address: IpAddr, prefix_length: u8) -> bool {
    match (network, address) {
        (IpAddr::V4(to), IpAddr::V4(own)) => ip::is_network(
            to.bits as int,
            own.bits as int,
            32 - prefix_length,
        ),
        (IpAddr::V6(to), IpAddr::V6(own)) => ip::is_network(
            to.bits as int,
            own.bits as int,
            128 - prefix_length,
        ),
        _ => false,
    }
}

proof fn lemma_network_of(address: IpAddr, prefix_length: u8)
    ensures
        is_network_of(net::network_of(address, prefix_length as nat), address, prefix_length),
{
    match address {
        IpAddr::V4(a) => {
            ip::lemma_network(a.bits as nat, 32, prefix_length as nat);
        },
        IpAddr::V6(a) => {
            ip::lemma_network(a.bits as nat, 128, prefix_length as nat);
        },
    }
}

/// The servers of a family among servers are all of that family, in order: each
/// further server of the family is added behind, and another one changes nothing.
pub proof fn lemma_servers_of_a_family(servers: Seq<IpAddr>, more: IpAddr)
    ensures
        ipconfig::v4_among(Seq::empty()).len() == 0,
        ipconfig::v6_among(Seq::empty()).len() == 0,
        ipconfig::v4_among(servers.push(more)) == match more {
            IpAddr::V4(address) => ipconfig::v4_among(servers).push(address),
            IpAddr::V6(_) => ipconfig::v4_among(servers),
        },
        ipconfig::v6_among(servers.push(more)) == match more {
            IpAddr::V6(address) => ipconfig::v6_among(servers).push(address),
            IpAddr::V4(_) => ipconfig::v6_among(servers),
        },
{
    assert(servers.push(more).drop_last() =~= servers);
}

/// The subnet mask of a prefix length has that many leading bits set, and the
/// broadcast address of a network is its last.
pub proof fn lemma_masks_and_broadcasts(address: Ipv4Addr, prefix_length: u8)
    requires
        prefix_length <= 32,
    ensures
        ipconfig::mask_of(prefix_length).bits == 0x1_0000_0000 - pow2((32 - prefix_length) as nat),
        address.bits <= ipconfig::broadcast_of(address, prefix_length).bits,
        (ipconfig::broadcast_of(address, prefix_length).bits + 1) % pow2(
            (32 - prefix_length) as nat,
        ) as int == 0,
        ipconfig::broadcast_of(address, prefix_length).bits - address.bits < pow2(
            (32 - prefix_length) as nat,
        ),
{
    let k = (32 - prefix_length) as nat;
    let size = pow2(k) as int;
    vstd::arithmetic::power2::lemma2_to64();
    vstd::arithmetic::power2::lemma_pow2_pos(k);
    if k < 32 {
        vstd::arithmetic::power2::lemma_pow2_strictly_increases(k, 32);
    }
    assert(net::host_count(32, prefix_length as nat) == size);
    ip::lemma_network(address.bits as nat, 32, prefix_length as nat);
    let first = net::network(address.bits as nat, 32, prefix_length as nat);
    lemma_last_fits(first, size, k);
}

proof fn lemma_last_fits(first: int, size: int, k: nat)
    requires
        0 <= first < 0x1_0000_0000,
        k <= 32,
        size == pow2(k),
        first % size == 0,
    ensures
        first + size <= 0x1_0000_0000,
        (first + size) % size == 0,
{
    vstd::arithmetic::power2::lemma2_to64();
    vstd::arithmetic::power2::lemma_pow2_pos(k);
    vstd::arithmetic::power2::lemma_pow2_adds(k, (32 - k) as nat);
    let blocks = pow2((32 - k) as nat) as int;
    let q = first / size;
    vstd::arithmetic::div_mod::lemma_fundamental_div_mod(first, size);
    assert(size * blocks == 0x1_0000_0000);
    assert(q < blocks) by (nonlinear_arith)
        requires
            size * q < size * blocks,
            size > 0,
    ;
    assert(size * (q + 1) <= size * blocks) by (nonlinear_arith)
        requires
            q + 1 <= blocks,
            size > 0,
    ;
    assert(size * (q + 1) == size * q + size) by (nonlinear_arith);
    vstd::arithmetic::div_mod::lemma_mod_multiples_vanish(1, first, size);
}

/// What clients see of the options of a lease: the address, its prefix length and mask,
/// the gateway as `routers`, the IPv4 servers with commas between them, the server
/// that granted the lease, how long it lasts and when it ends, and the broadcast
/// address. Without a lease the last four are not there.
#[verifier::rlimit(60)]
pub proof fn lemma_lease_is_shown(ipv4: Ipv4OutcomeView, now: Option<u64>)
    ensures
        ({
            let options = ipconfig::options_of(ipv4, now);
            let servers = ipconfig::v4_among(ipv4.dns_servers);
            &&& settings::at(options, "ip_address"@, Some(ValueView::Str(ipv4.address.text())))
            &&& settings::at(
                options,
                "ip_prefix"@,
                Some(ValueView::U32(ipv4.prefix_length as u32)),
            )
            &&& settings::at(
                options,
                "subnet_mask"@,
                Some(ValueView::Str(ipconfig::mask_of(ipv4.prefix_length).text())),
            )
            &&& settings::at(
                options,
                "routers"@,
                match ipv4.gateway {
                    Some(gateway) => Some(ValueView::Str(gateway.text())),
                    None => None,
                },
            )
            &&& settings::at(
                options,
                "domain_name_servers"@,
                if servers.len() > 0 {
                    Some(ValueView::Str(text::join(ipconfig::v4_texts(servers), ',')))
                } else {
                    None
                },
            )
            &&& settings::at(
                options,
                "dhcp_server_identifier"@,
                match ipv4.lease {
                    Some(lease) => match lease.server_identifier {
                        Some(server) => Some(ValueView::Str(server.text())),
                        None => None,
                    },
                    None => None,
                },
            )
            &&& settings::at(
                options,
                "dhcp_lease_time"@,
                match ipv4.lease {
                    Some(lease) => match lease.lease_seconds {
                        Some(seconds) => Some(ValueView::Str(text::decimal(seconds as nat))),
                        None => None,
                    },
                    None => None,
                },
            )
            &&& settings::at(
                options,
                "expiry"@,
                match ipv4.lease {
                    Some(lease) => match (lease.lease_seconds, now) {
                        (Some(seconds), Some(time)) => Some(
                            ValueView::Str(text::decimal((time + seconds) as nat)),
                        ),
                        (Some(_), None) => Some(ValueView::Str(text::decimal(0))),
                        (None, _) => None,
                    },
                    None => None,
                },
            )
            &&& settings::at(
                options,
                "broadcast_address"@,
                match ipv4.lease {
                    Some(lease) => Some(
                        ValueView::Str(
                            ipconfig::broadcast_of(ipv4.address, ipv4.prefix_length).text(),
                        ),
                    ),
                    None => None,
                },
            )
        }),
{
    lemma_option_names();
    let options = ipconfig::options_of(ipv4, now);
    let servers = ipconfig::v4_among(ipv4.dns_servers);
    let r: int = if ipv4.gateway is Some {
        1
    } else {
        0
    };
    let d: int = if servers.len() > 0 {
        1
    } else {
        0
    };
    let base = 3 + r + d;
    assert(options[0].0 == "ip_address"@);
    assert(options[1].0 == "ip_prefix"@);
    assert(options[2].0 == "subnet_mask"@);
    if r == 1 {
        assert(options[3].0 == "routers"@);
    }
    if d == 1 {
        assert(options[3 + r].0 == "domain_name_servers"@);
    }
    match ipv4.lease {
        None => {
            assert(options.len() == base);
        },
        Some(lease) => {
            let s: int = if lease.server_identifier is Some {
                1
            } else {
                0
            };
            let t: int = if lease.lease_seconds is Some {
                2
            } else {
                0
            };
            assert(options.len() == base + s + t + 1);
            if s == 1 {
                assert(options[base].0 == "dhcp_server_identifier"@);
            }
            if t == 2 {
                assert(options[base + s].0 == "dhcp_lease_time"@);
                assert(options[base + s + 1].0 == "expiry"@);
            }
            assert(options[base + s + t].0 == "broadcast_address"@);
        },
    }
}

proof fn lemma_option_names()
    ensures
        "ip_address"@.len() == 10,
        "ip_prefix"@.len() == 9,
        "subnet_mask"@.len() == 11,
        "routers"@.len() == 7,
        "domain_name_servers"@.len() == 19,
        "dhcp_server_identifier"@.len() == 22,
        "dhcp_lease_time"@.len() == 15,
        "expiry"@.len() == 6,
        "broadcast_address"@.len() == 17,
{
    reveal_strlit("ip_address");
    reveal_strlit("ip_prefix");
    reveal_strlit("subnet_mask");
    reveal_strlit("routers");
    reveal_strlit("domain_name_servers");
    reveal_strlit("dhcp_server_identifier");
    reveal_strlit("dhcp_lease_time");
    reveal_strlit("expiry");
    reveal_strlit("broadcast_address");
}

// --- Signals ---------------------------------------------------------------------------

/// A change of state of a connection is told of the connection, and of its device when
/// the device was not told to be in that state before; the end of a connection is told
/// as its removal, and its device is then disconnected.
pub proof fn lemma_what_is_told(told: Told, event: ConnectionEventView, index: Option<i32>)
    ensures
        ({
            let (after, signals) = shared::mirrored(told, event, index);
            match event {
                ConnectionEventView::StateChanged { active_id, profile_id, previous, current } => {
                    &&& signals.len() > 0
                    &&& signals[0] matches BusSignal::ActiveState { id, state, previous: before }
                    &&& id == active_id
                    &&& state == active_connection::client_state(current)
                    &&& before == active_connection::client_state(previous)
                    &&& index matches Some(device) ==> {
                        let known = told.device_states.contains_key(device);
                        let last = if known {
                            told.device_states[device]
                        } else {
                            0u32
                        };
                        let now = device::driven_state(current);
                        &&& after.bound.contains_key(active_id.0)
                        &&& after.bound[active_id.0] == device
                        &&& last == now ==> signals.len() == 1 && after.device_states
                            == told.device_states
                        &&& last != now ==> signals.len() == 2 && (
                        signals[1] matches BusSignal::DeviceState { index: on, state, previous } && on
                            == device && state == now && previous == last)
                            && after.device_states.contains_key(device)
                            && after.device_states[device] == now
                    }
                    &&& index is None ==> signals.len() == 1 && after == told
                },
                ConnectionEventView::Deactivated { active_id, profile_id } => {
                    &&& signals.len() > 0
                    &&& signals[0] matches BusSignal::ActiveRemoved { id } && id == active_id
                    &&& !after.active_connections.contains_key(active_id.0)
                    &&& !after.bound.contains_key(active_id.0)
                    &&& told.bound.contains_key(active_id.0) ==> {
                        let device = told.bound[active_id.0];
                        let last = if told.device_states.contains_key(device) {
                            told.device_states[device]
                        } else {
                            0u32
                        };
                        &&& last != 30 ==> signals.len() == 2 && (
                        signals[1] matches BusSignal::DeviceState { index: on, state, previous } && on
                            == device && state == 30 && previous == last)
                        &&& last == 30 ==> signals.len() == 1
                    }
                    &&& !told.bound.contains_key(active_id.0) ==> signals.len() == 1
                },
                ConnectionEventView::Activated { .. } => signals.len() == 0 && after == told,
                ConnectionEventView::Failed { .. } => signals.len() == 0 && after == told,
            }
        }),
{
}

/// A change of the daemon's state is told when there is one.
pub proof fn lemma_root_state_is_told(before: u32, state: u32)
    ensures
        before == state ==> shared::root_news(before, state).len() == 0,
        before != state ==> shared::root_news(before, state).len() == 1 && (shared::root_news(
            before,
            state,
        )[0] matches BusSignal::RootState { state: now } && now == state),
{
}

// --- Errors ----------------------------------------------------------------------------

/// What goes wrong in a store or an activation is told as what it is: a profile or a
/// connection that is not there as unknown, a connection that is active already or is
/// not active as that, and what is wrong with a profile as an invalid setting.
pub proof fn lemma_errors_are_told_as_they_are(stored: StoreError, activated: ActivationError)
    ensures
        match stored {
            StoreError::NotFound(id) => FacadeErrorView::of_store(stored)
                == FacadeErrorView::UnknownConnection(id@),
            StoreError::Invalid(reason) => FacadeErrorView::of_store(stored)
                == FacadeErrorView::InvalidSetting(reason.text()),
            _ => FacadeErrorView::of_store(stored) is InvalidSetting,
        },
        match activated {
            ActivationError::ProfileNotFound(id) => FacadeErrorView::of_activation(activated)
                == FacadeErrorView::UnknownConnection(id@),
            ActivationError::DeviceIncompatible { .. } => FacadeErrorView::of_activation(
                activated,
            ) is InvalidProperty,
            ActivationError::NoSuitableProfile(_) => FacadeErrorView::of_activation(
                activated,
            ) is InvalidSetting,
            ActivationError::AlreadyActive(id) => FacadeErrorView::of_activation(activated)
                == FacadeErrorView::AlreadyActive(id@),
            ActivationError::UnknownActiveConnection(id) => FacadeErrorView::of_activation(
                activated,
            ) is UnknownActiveConnection,
            ActivationError::InvalidState { .. } => FacadeErrorView::of_activation(
                activated,
            ) is NotActive,
            ActivationError::Store(error) => FacadeErrorView::of_activation(activated)
                == FacadeErrorView::of_store(error),
            ActivationError::State(_) => FacadeErrorView::of_activation(activated) is NotActive,
            ActivationError::Engine(reason) => FacadeErrorView::of_activation(activated)
                == FacadeErrorView::NotSupported(reason@),
        },
{
}

// --- Permissions -----------------------------------------------------------------------

/// The actions that clients ask permission for, by the names that the host's policy
/// knows.
pub proof fn lemma_names_of_permissions()
    ensures
        authorization::permission_names() == seq![
            "org.freedesktop.NetworkManager.enable-disable-network"@,
            "org.freedesktop.NetworkManager.enable-disable-wifi"@,
            "org.freedesktop.NetworkManager.network-control"@,
            "org.freedesktop.NetworkManager.wifi.share.protected"@,
            "org.freedesktop.NetworkManager.wifi.share.open"@,
            "org.freedesktop.NetworkManager.settings.modify.system"@,
            "org.freedesktop.NetworkManager.settings.modify.own"@,
            "org.freedesktop.NetworkManager.reload"@,
            "org.freedesktop.NetworkManager.checkpoint-rollback"@,
            "org.freedesktop.NetworkManager.enable-disable-statistics"@,
            "org.freedesktop.NetworkManager.enable-disable-connectivity-check"@,
        ],
{
}

} // verus!
