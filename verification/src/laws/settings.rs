//! Settings on the bus and the profiles that they stand for.

use vstd::prelude::*;

use crate::connection::profile;
use crate::connection::profile::{
    ConnectionTypeView, IpConfigView, IpMethod, KeyManagement, ProfileView,
};
use crate::connection::secrets::SecretReferenceView;
use crate::dbus::convert;
use crate::dbus::convert::Decoded;
use crate::dbus::error::FacadeErrorView;
use crate::dbus::value;
use crate::dbus::value::{OctetPair, SectionView, SettingsView, ValueView};
use crate::laws::ip;
use crate::linux::model::{IpFamily, Route, RouteKind, RouteScope};
use crate::net;
use crate::net::{IpAddr, Ipv4Addr, Ipv6Addr};
use crate::net_text;

verus! {

// --- Looking up ------------------------------------------------------------------------

/// Whether a value is that of a property: of the first with the key, or nothing when
/// there is none.
pub open spec fn at(section: SectionView, key: Seq<char>, found: Option<ValueView>) -> bool {
    match found {
        Some(value) => exists|k: int|
            0 <= k < section.len() && #[trigger] section[k] == (key, value) && forall|i: int|
                0 <= i < k ==> (#[trigger] section[i]).0 != key,
        None => forall|i: int| 0 <= i < section.len() ==> (#[trigger] section[i]).0 != key,
    }
}

/// Whether a section is the first with a name, or nothing when there is none.
pub open spec fn part(dict: SettingsView, name: Seq<char>, found: Option<SectionView>) -> bool {
    match found {
        Some(section) => exists|k: int|
            0 <= k < dict.len() && #[trigger] dict[k] == (name, section) && forall|i: int|
                0 <= i < k ==> (#[trigger] dict[i]).0 != name,
        None => forall|i: int| 0 <= i < dict.len() ==> (#[trigger] dict[i]).0 != name,
    }
}

/// Whether a value is that of a property of a section of settings.
pub open spec fn has(
    dict: SettingsView,
    name: Seq<char>,
    key: Seq<char>,
    found: Option<ValueView>,
) -> bool {
    ||| exists|section: SectionView| #[trigger]
        part(dict, name, Some(section)) && at(section, key, found)
    ||| part(dict, name, None) && found is None
}

proof fn lemma_at(section: SectionView, key: Seq<char>, found: Option<ValueView>)
    requires
        at(section, key, found),
    ensures
        value::property(section, key) == found,
{
    if let Some(v) = found {
        let k = choose|k: int|
            0 <= k < section.len() && #[trigger] section[k] == (key, v) && forall|i: int|
                0 <= i < k ==> (#[trigger] section[i]).0 != key;
        value::lemma_place_is(section, key, k);
    } else {
        value::lemma_place_is(section, key, section.len() as int);
    }
}

proof fn lemma_part(dict: SettingsView, name: Seq<char>, found: Option<SectionView>)
    requires
        part(dict, name, found),
    ensures
        value::section_of(dict, name) == found,
{
    if let Some(v) = found {
        let k = choose|k: int|
            0 <= k < dict.len() && #[trigger] dict[k] == (name, v) && forall|i: int|
                0 <= i < k ==> (#[trigger] dict[i]).0 != name;
        value::lemma_section_place_is(dict, name, k);
    } else {
        value::lemma_section_place_is(dict, name, dict.len() as int);
    }
}

proof fn lemma_has(dict: SettingsView, name: Seq<char>, key: Seq<char>, found: Option<ValueView>)
    requires
        has(dict, name, key, found),
    ensures
        found == match value::section_of(dict, name) {
            Some(section) => value::property(section, key),
            None => None,
        },
{
    if part(dict, name, None) && found is None {
        lemma_part(dict, name, None);
    } else {
        let section = choose|section: SectionView| #[trigger]
            part(dict, name, Some(section)) && at(section, key, found);
        lemma_part(dict, name, Some(section));
        lemma_at(section, key, found);
    }
}

// --- Reading ---------------------------------------------------------------------------

/// Settings that stand for a profile say what it is. Its id is `connection.id`; its
/// kind is `connection.type`; `connection.interface-name`, `autoconnect` and
/// `priority` constrain it, and without them it takes any interface, connects by
/// itself and has priority zero.
pub proof fn lemma_profile_is_what_settings_say(
    dict: SettingsView,
    profile: ProfileView,
    id: Option<ValueView>,
    kind: Option<ValueView>,
    interface_name: Option<ValueView>,
    autoconnect: Option<ValueView>,
    priority: Option<ValueView>,
)
    requires
        convert::decode(dict) == Decoded::Profile(profile),
        has(dict, "connection"@, "id"@, id),
        has(dict, "connection"@, "type"@, kind),
        has(dict, "connection"@, "interface-name"@, interface_name),
        has(dict, "connection"@, "autoconnect"@, autoconnect),
        has(dict, "connection"@, "priority"@, priority),
    ensures
        id == Some(ValueView::Str(profile.id)),
        profile.name == profile.id,
        profile.connection_type is Wifi <==> kind == Some(ValueView::Str("802-11-wireless"@)),
        profile.connection_type is Ethernet <==> kind == Some(ValueView::Str("802-3-ethernet"@)),
        profile.connection_type matches ConnectionTypeView::Ethernet(settings)
            ==> settings.autonegotiation is None && settings.speed_mbit is None
            && settings.duplex is None,
        profile.device_match.interface_name == match interface_name {
            Some(ValueView::Str(name)) => Some(name),
            _ => None,
        },
        profile.device_match.mac_address is None,
        profile.autoconnect == match autoconnect {
            Some(ValueView::Bool(wanted)) => wanted,
            _ => true,
        },
        profile.priority == match priority {
            Some(ValueView::I32(number)) => number,
            _ => 0i32,
        },
        profile.enabled,
{
    lemma_has(dict, "connection"@, "id"@, id);
    lemma_has(dict, "connection"@, "type"@, kind);
    lemma_has(dict, "connection"@, "interface-name"@, interface_name);
    lemma_has(dict, "connection"@, "autoconnect"@, autoconnect);
    lemma_has(dict, "connection"@, "priority"@, priority);
    convert::lemma_section_names();
}

/// Settings that stand for a Wi-Fi profile name the network by the octets of
/// `802-11-wireless.ssid`, and how to join it by `802-11-wireless-security.key-mgmt`:
/// `wpa-psk`, `sae`, `wpa-eap` and `owe` stand for themselves, and `none`, nothing and
/// no section at all for an open network. The first two refer to a secret in the
/// keyring and never hold one.
pub proof fn lemma_wifi_is_what_settings_say(
    dict: SettingsView,
    profile: ProfileView,
    ssid: Option<ValueView>,
    mode: Option<ValueView>,
)
    requires
        convert::decode(dict) == Decoded::Profile(profile),
        has(dict, "802-11-wireless"@, "ssid"@, ssid),
        has(dict, "802-11-wireless-security"@, "key-mgmt"@, mode),
    ensures
        profile.connection_type matches ConnectionTypeView::Wifi(settings) ==> {
            let security = settings.security;
            &&& ssid matches Some(ValueView::Array(items))
            &&& items.len() == settings.ssid.len()
            &&& items.len() <= 32
            &&& forall|i: int|
                0 <= i < items.len() ==> (#[trigger] items[i] == ValueView::U8(settings.ssid[i])
                    || items[i] == ValueView::Variant(Box::new(ValueView::U8(settings.ssid[i]))))
            &&& !settings.hidden
            &&& settings.bssid is None
            &&& match mode {
                Some(ValueView::Str(name)) => {
                    &&& name == "wpa-psk"@ ==> security.key_management == KeyManagement::WpaPsk
                        && security.secret == Some(SecretReferenceView::Keyring("nmd/wifi-psk"@))
                        && security.identity is None
                    &&& name == "sae"@ ==> security.key_management == KeyManagement::Sae
                        && security.secret == Some(SecretReferenceView::Keyring("nmd/wifi-sae"@))
                        && security.identity is None
                    &&& name == "wpa-eap"@ ==> security.key_management == KeyManagement::WpaEap
                        && security.secret is None && security.identity == Some("nmd-enterprise"@)
                    &&& name == "owe"@ ==> security.key_management == KeyManagement::Owe
                        && security.secret is None && security.identity is None
                    &&& name == "none"@ || name == ""@ ==> security.key_management
                        == KeyManagement::Open && security.secret is None
                        && security.identity is None
                    &&& name == "wpa-psk"@ || name == "sae"@ || name == "wpa-eap"@ || name
                        == "owe"@ || name == "none"@ || name == ""@
                },
                _ => security.key_management == KeyManagement::Open && security.secret is None
                    && security.identity is None,
            }
        },
{
    lemma_has(dict, "802-11-wireless"@, "ssid"@, ssid);
    lemma_has(dict, "802-11-wireless-security"@, "key-mgmt"@, mode);
    lemma_mode_names();
    convert::lemma_section_names();
    if let ConnectionTypeView::Wifi(settings) = profile.connection_type {
        let items = ssid->0->Array_0;
        assert forall|i: int| 0 <= i < items.len() implies (#[trigger] items[i] == ValueView::U8(
            settings.ssid[i],
        ) || items[i] == ValueView::Variant(Box::new(ValueView::U8(settings.ssid[i])))) by {
            assert(value::bare(items[i]) is U8);
            assert(settings.ssid[i] == value::bare(items[i])->U8_0);
            match items[i] {
                ValueView::Variant(inner) => {
                    assert(*inner == ValueView::U8(settings.ssid[i]));
                    assert(items[i] == ValueView::Variant(Box::new(*inner)));
                },
                _ => {},
            }
        }
    }
}

proof fn lemma_mode_names()
    ensures
        convert::mode_named("none"@) == Some(KeyManagement::Open),
        convert::mode_named(""@) == Some(KeyManagement::Open),
        convert::mode_named("owe"@) == Some(KeyManagement::Owe),
        convert::mode_named("wpa-psk"@) == Some(KeyManagement::WpaPsk),
        convert::mode_named("sae"@) == Some(KeyManagement::Sae),
        convert::mode_named("wpa-eap"@) == Some(KeyManagement::WpaEap),
{
    reveal_strlit("none");
    reveal_strlit("");
    reveal_strlit("owe");
    reveal_strlit("wpa-psk");
    reveal_strlit("sae");
    reveal_strlit("wpa-eap");
    assert("none"@.len() == 4 && ""@.len() == 0);
    assert("owe"@[0] == 'o' && "sae"@[0] == 's' && "owe"@.len() == 3 && "sae"@.len() == 3);
    assert("wpa-psk"@[4] == 'p' && "wpa-eap"@[4] == 'e' && "wpa-psk"@.len() == 7
        && "wpa-eap"@.len() == 7);
}

/// The IP configurations of a profile are those of the sections `ipv4` and `ipv6`; a
/// family without a section is configured automatically.
pub proof fn lemma_families_are_what_settings_say(
    dict: SettingsView,
    profile: ProfileView,
    four: Option<SectionView>,
    six: Option<SectionView>,
)
    requires
        convert::decode(dict) == Decoded::Profile(profile),
        part(dict, "ipv4"@, four),
        part(dict, "ipv6"@, six),
    ensures
        match four {
            Some(section) => convert::ip_config_of(section, true) == Ok::<
                IpConfigView,
                FacadeErrorView,
            >(profile.ipv4),
            None => profile.ipv4.method == IpMethod::Automatic && profile.ipv4.address is None
                && profile.ipv4.routes.len() == 0 && profile.ipv4.dns_servers.len() == 0,
        },
        match six {
            Some(section) => convert::ip_config_of(section, false) == Ok::<
                IpConfigView,
                FacadeErrorView,
            >(profile.ipv6),
            None => profile.ipv6.method == IpMethod::Automatic && profile.ipv6.address is None
                && profile.ipv6.routes.len() == 0 && profile.ipv6.dns_servers.len() == 0,
        },
{
    lemma_part(dict, "ipv4"@, four);
    lemma_part(dict, "ipv6"@, six);
    convert::lemma_section_names();
}

/// Whether a value is a text that stands for an address, bare or in a variant.
pub open spec fn bears(found: ValueView, address: IpAddr) -> bool {
    match found {
        ValueView::Str(text) => net_text::ip_of(text) == Some(address),
        _ => false,
    }
}

/// Whether a number is that of an entry of a dictionary: of the first with the key.
pub open spec fn entry(
    entries: Seq<(ValueView, ValueView)>,
    key: Seq<char>,
    found: ValueView,
) -> bool {
    exists|k: int|
        0 <= k < entries.len() && value::bare((#[trigger] entries[k]).0) == ValueView::Str(key)
            && value::bare(entries[k].1) == found && forall|i: int|
            0 <= i < k ==> value::bare((#[trigger] entries[i]).0) != ValueView::Str(key)
}

proof fn lemma_entry(entries: Seq<(ValueView, ValueView)>, key: Seq<char>)
    ensures
        value::dict_value(entries, key) matches Some(found) ==> entry(entries, key, found),
    decreases entries.len(),
{
    if entries.len() > 0 {
        let more = entries.skip(1);
        lemma_entry(more, key);
        if let Some(found) = value::dict_value(entries, key) {
            if value::text_in(value::bare(entries[0].0)) == Some(key) {
                assert(value::bare(entries[0].0) == ValueView::Str(key));
            } else {
                let k = choose|k: int|
                    0 <= k < more.len() && value::bare((#[trigger] more[k]).0) == ValueView::Str(
                        key,
                    ) && value::bare(more[k].1) == found && forall|i: int|
                        0 <= i < k ==> value::bare((#[trigger] more[i]).0) != ValueView::Str(key);
                assert(entries[k + 1] == more[k]);
                assert forall|i: int| 0 <= i < k + 1 implies value::bare((#[trigger] entries[i]).0)
                    != ValueView::Str(key) by {
                    if i > 0 {
                        assert(more[i - 1] == entries[i]);
                    }
                }
            }
        }
    }
}

/// An IP section says how a family is configured. `auto`, nothing, and no method
/// stand for an automatic configuration, `disabled` for none, and `manual` for the
/// address and prefix length of the first entry of `address-data`, the `gateway` and
/// the servers of `dns`, in order, that can be read.
pub proof fn lemma_ip_config_is_what_settings_say(
    section: SectionView,
    v4: bool,
    config: IpConfigView,
    method: Option<ValueView>,
    data: Option<ValueView>,
    gateway: Option<ValueView>,
    dns: Option<ValueView>,
)
    requires
        convert::ip_config_of(section, v4) == Ok::<IpConfigView, FacadeErrorView>(config),
        at(section, "method"@, method),
        at(section, "address-data"@, data),
        at(section, "gateway"@, gateway),
        at(section, "dns"@, dns),
    ensures
        match method {
            Some(ValueView::Str(name)) => {
                &&& name == "auto"@ || name == ""@ ==> config.method == IpMethod::Automatic
                &&& name == "manual"@ ==> config.method == IpMethod::Manual
                &&& name == "disabled"@ ==> config.method == IpMethod::Disabled
                &&& name == "auto"@ || name == ""@ || name == "manual"@ || name == "disabled"@
            },
            _ => config.method == IpMethod::Automatic,
        },
        config.method != IpMethod::Manual ==> config.address is None && config.prefix_length is None
            && config.gateway is None && config.dns_servers.len() == 0,
        config.method == IpMethod::Manual ==> {
            &&& config.address matches Some(address)
            &&& config.prefix_length matches Some(prefix_length)
            &&& address is V4 <==> v4
            &&& data matches Some(ValueView::Array(items))
            &&& items.len() > 0
            &&& value::bare(items[0]) matches ValueView::Dict(entries)
            &&& exists|named: ValueView| #[trigger]
                entry(entries, "address"@, named) && bears(named, address)
            &&& exists|length: u32|
                #[trigger] entry(entries, "prefix"@, ValueView::U32(length)) && prefix_length
                    == length % 256
            &&& config.gateway == match gateway {
                Some(ValueView::Str(name)) => net_text::ip_of(name),
                _ => None,
            }
            &&& match dns {
                Some(ValueView::Array(servers)) => if forall|i: int|
                    0 <= i < servers.len() ==> #[trigger] servers[i] is Str {
                    config.dns_servers == convert::readable(
                        servers.map_values(|server: ValueView| server->Str_0),
                    )
                } else {
                    config.dns_servers.len() == 0
                },
                _ => config.dns_servers.len() == 0,
            }
        },
{
    lemma_at(section, "method"@, method);
    lemma_at(section, "address-data"@, data);
    lemma_at(section, "gateway"@, gateway);
    lemma_at(section, "dns"@, dns);
    convert::lemma_ip_keys();
    reveal_strlit("");
    if config.method == IpMethod::Manual {
        let items = data->0->Array_0;
        assert(value::is_text_dict(value::bare(items[0])));
        let entries = value::bare(items[0])->Dict_0;
        assert(value::dicts_in(data->0)->0[0] == entries);
        lemma_entry(entries, "address"@);
        lemma_entry(entries, "prefix"@);
        let named = value::dict_value(entries, "address"@)->0;
        assert(entry(entries, "address"@, named) && bears(named, config.address->0));
        let length = value::dict_value(entries, "prefix"@)->0->U32_0;
        assert(entry(entries, "prefix"@, ValueView::U32(length)));
    }
}

/// The routes of an IP section are those of the entries of `routes`, one for each and
/// in order; without the property there are none.
pub proof fn lemma_routes_are_what_settings_say(
    section: SectionView,
    v4: bool,
    config: IpConfigView,
    routes: Option<ValueView>,
)
    requires
        convert::ip_config_of(section, v4) == Ok::<IpConfigView, FacadeErrorView>(config),
        at(section, "routes"@, routes),
    ensures
        match routes {
            Some(found) => {
                &&& found matches ValueView::Array(items)
                &&& config.routes.len() == items.len()
                &&& forall|i: int|
                    0 <= i < items.len() ==> is_read_route(
                        #[trigger] items[i],
                        config.routes[i],
                        v4,
                    )
            },
            None => config.routes.len() == 0,
        },
{
    lemma_at(section, "routes"@, routes);
    if let Some(ValueView::Array(items)) = routes {
        let found = ValueView::Array(items);
        if v4 {
            let entries = value::number_lists_in(found)->0;
            lemma_each_route(entries, |entry: Seq<u32>| convert::v4_route(entry));
            assert forall|i: int| 0 <= i < items.len() implies is_read_route(
                #[trigger] items[i],
                config.routes[i],
                v4,
            ) by {
                assert(value::numbers_in(value::bare(items[i])) is Some);
                assert(entries[i] == value::numbers_in(value::bare(items[i]))->0);
            }
        } else {
            let entries = value::octet_pairs_in(found)->0;
            lemma_each_route(entries, |entry: OctetPair| convert::v6_route(entry));
            assert forall|i: int| 0 <= i < items.len() implies is_read_route(
                #[trigger] items[i],
                config.routes[i],
                v4,
            ) by {
                assert(value::octet_pair_in(value::bare(items[i])) is Some);
                assert(entries[i] == value::octet_pair_in(value::bare(items[i]))->0);
            }
        }
    }
}

/// Whether a route is the one that an entry of `routes` stands for.
pub open spec fn is_read_route(item: ValueView, route: Route, v4: bool) -> bool {
    if v4 {
        value::numbers_in(value::bare(item)) matches Some(entry) && convert::v4_route(entry)
            == Ok::<Route, FacadeErrorView>(route)
    } else {
        value::octet_pair_in(value::bare(item)) matches Some(entry) && convert::v6_route(entry)
            == Ok::<Route, FacadeErrorView>(route)
    }
}

proof fn lemma_each_route<T>(
    entries: Seq<T>,
    read: spec_fn(T) -> Result<Route, FacadeErrorView>,
)
    ensures
        convert::all_routes(entries, read) matches Ok(routes) ==> routes.len() == entries.len()
            && forall|i: int|
            0 <= i < entries.len() ==> read(#[trigger] entries[i]) == Ok::<Route, FacadeErrorView>(
                routes[i],
            ),
    decreases entries.len(),
{
    if entries.len() > 0 {
        lemma_each_route(entries.drop_last(), read);
        if let Ok(routes) = convert::all_routes(entries, read) {
            assert forall|i: int| 0 <= i < entries.len() implies read(#[trigger] entries[i]) == Ok::<
                Route,
                FacadeErrorView,
            >(routes[i]) by {
                if i < entries.len() - 1 {
                    assert(entries.drop_last()[i] == entries[i]);
                }
            }
        }
    }
}

/// The servers that are read of a list of texts are those that the texts stand for,
/// in order: each further text that stands for an address adds that address, and one
/// that does not adds nothing.
pub proof fn lemma_servers_are_read_in_order(texts: Seq<Seq<char>>, more: Seq<char>)
    ensures
        convert::readable(Seq::empty()).len() == 0,
        convert::readable(texts.push(more)) == match net_text::ip_of(more) {
            Some(address) => convert::readable(texts).push(address),
            None => convert::readable(texts),
        },
{
    assert(texts.push(more).drop_last() =~= texts);
}

/// A route of settings is what its entry says: the destination, the prefix length, the
/// next hop unless it is zero, and the metric unless it is zero.
pub proof fn lemma_route_is_what_settings_say(
    entry: Seq<u32>,
    six: OctetPair,
    address: Ipv4Addr,
    hop: Ipv4Addr,
)
    ensures
        convert::v4_route(entry) is Ok <==> entry.len() == 4 && entry[1] <= 32,
        convert::v4_route(entry) matches Ok(route) ==> {
            &&& entry[0] == address.scalar() ==> route.destination == IpAddr::V4(address)
            &&& entry[2] == hop.scalar() && hop.bits != 0 ==> route.gateway == Some(
                IpAddr::V4(hop),
            )
            &&& entry[2] == 0 ==> route.gateway is None
            &&& route.prefix_length == entry[1]
            &&& route.metric == if entry[3] == 0 {
                None
            } else {
                Some(entry[3])
            }
            &&& route.family == IpFamily::V4
            &&& route.output_interface is None
            &&& route.kind == RouteKind::Unicast
            &&& route.scope == if entry[1] == 0 {
                RouteScope::Universe
            } else {
                RouteScope::Link
            }
        },
        convert::v6_route(six) is Ok <==> six.0.len() == 16 && six.2.len() == 16 && six.1 <= 128,
        convert::v6_route(six) matches Ok(route) ==> {
            &&& route.destination matches IpAddr::V6(to) && to.octets_view() == six.0
            &&& match route.gateway {
                Some(IpAddr::V6(next)) => next.octets_view() == six.2,
                Some(IpAddr::V4(_)) => false,
                None => six.2 == (Ipv6Addr { bits: 0 }).octets_view(),
            }
            &&& route.prefix_length == six.1
            &&& route.metric == if six.3 == 0 {
                None
            } else {
                Some(six.3)
            }
            &&& route.family == IpFamily::V6
            &&& route.output_interface is None
            &&& route.kind == RouteKind::Unicast
            &&& route.scope == if six.1 == 0 {
                RouteScope::Universe
            } else {
                RouteScope::Link
            }
        },
{
    net::lemma_scalar(address, 0);
    net::lemma_scalar(hop, 0);
    lemma_zero_scalar(hop);
    if six.0.len() == 16 && six.2.len() == 16 {
        net::lemma_bounds();
        net::lemma_octets_value(six.0);
        net::lemma_octets_value(six.2);
    }
}

proof fn lemma_zero_scalar(a: Ipv4Addr)
    ensures
        a.scalar() == 0 ==> a.bits == 0,
{
    net::lemma_scalar(a, 0);
    if a.scalar() == 0 {
        let o = crate::bytes::le32_octets(0);
        assert(o =~= seq![0u8, 0u8, 0u8, 0u8]);
        assert(Ipv4Addr::of_scalar(0).bits == 0);
    }
}

// --- Writing ---------------------------------------------------------------------------

/// The settings of a profile name it, its kind and its constraints in the section
/// `connection`, and give a section to each IP family.
pub proof fn lemma_settings_say_what_profile_is(profile: ProfileView)
    ensures
        ({
            let dict = convert::settings_of(profile);
            &&& has(dict, "connection"@, "id"@, Some(ValueView::Str(profile.id)))
            &&& has(
                dict,
                "connection"@,
                "type"@,
                Some(
                    ValueView::Str(
                        if profile.connection_type is Wifi {
                            "802-11-wireless"@
                        } else {
                            "802-3-ethernet"@
                        },
                    ),
                ),
            )
            &&& has(
                dict,
                "connection"@,
                "interface-name"@,
                match profile.device_match.interface_name {
                    Some(name) => Some(ValueView::Str(name)),
                    None => None,
                },
            )
            &&& has(
                dict,
                "connection"@,
                "autoconnect"@,
                Some(ValueView::Bool(profile.autoconnect)),
            )
            &&& has(dict, "connection"@, "priority"@, Some(ValueView::I32(profile.priority)))
            &&& part(dict, "ipv4"@, Some(convert::ip_section(profile.ipv4, true)))
            &&& part(dict, "ipv6"@, Some(convert::ip_section(profile.ipv6, false)))
        }),
{
    let dict = convert::settings_of(profile);
    convert::lemma_section_names();
    let section = convert::connection_section(profile);
    assert(dict[0] == ("connection"@, section));
    assert(part(dict, "connection"@, Some(section)));
    lemma_connection_section(profile);
    let n = dict.len() as int;
    assert(dict[n - 2] == ("ipv4"@, convert::ip_section(profile.ipv4, true)));
    assert(dict[n - 1] == ("ipv6"@, convert::ip_section(profile.ipv6, false)));
    assert forall|i: int| 0 <= i < n - 2 implies (#[trigger] dict[i]).0 != "ipv4"@ && dict[i].0
        != "ipv6"@ by {
        if i > 0 {
            assert(dict[i].0 == "802-11-wireless"@ || dict[i].0 == "802-11-wireless-security"@);
        }
    }
}

proof fn lemma_connection_section(profile: ProfileView)
    ensures
        ({
            let section = convert::connection_section(profile);
            &&& at(section, "id"@, Some(ValueView::Str(profile.id)))
            &&& at(
                section,
                "type"@,
                Some(
                    ValueView::Str(
                        if profile.connection_type is Wifi {
                            "802-11-wireless"@
                        } else {
                            "802-3-ethernet"@
                        },
                    ),
                ),
            )
            &&& at(
                section,
                "interface-name"@,
                match profile.device_match.interface_name {
                    Some(name) => Some(ValueView::Str(name)),
                    None => None,
                },
            )
            &&& at(section, "autoconnect"@, Some(ValueView::Bool(profile.autoconnect)))
            &&& at(section, "priority"@, Some(ValueView::I32(profile.priority)))
        }),
{
    let section = convert::connection_section(profile);
    reveal_strlit("id");
    reveal_strlit("uuid");
    reveal_strlit("type");
    reveal_strlit("interface-name");
    reveal_strlit("autoconnect");
    reveal_strlit("priority");
    assert("id"@.len() == 2 && "uuid"@.len() == 4 && "type"@.len() == 4 && "interface-name"@.len()
        == 14 && "autoconnect"@.len() == 11 && "priority"@.len() == 8);
    assert("uuid"@[0] == 'u' && "type"@[0] == 't');
    let named = profile.device_match.interface_name is Some;
    let a = if named {
        4int
    } else {
        3int
    };
    assert(section.len() == a + 2);
    assert(section[0].0 == "id"@ && section[1].0 == "uuid"@ && section[2].0 == "type"@);
    assert(section[a] == ("autoconnect"@, ValueView::Bool(profile.autoconnect)));
    assert(section[a + 1] == ("priority"@, ValueView::I32(profile.priority)));
    if named {
        assert(section[3] == (
            "interface-name"@,
            ValueView::Str(profile.device_match.interface_name->0),
        ));
    }
}

/// The settings of a Wi-Fi profile hold the octets of the network's name, and the
/// name of its key management: `wpa-psk`, `sae`, `wpa-eap` or `owe`. An open network
/// has no section on security. No setting holds anything else on security.
pub proof fn lemma_settings_say_what_wifi_is(profile: ProfileView)
    requires
        profile.connection_type is Wifi,
    ensures
        ({
            let dict = convert::settings_of(profile);
            let settings = profile.connection_type->Wifi_0;
            &&& exists|value: ValueView| #[trigger]
                has(dict, "802-11-wireless"@, "ssid"@, Some(value)) && is_octets(
                    value,
                    settings.ssid,
                )
            &&& match settings.security.key_management {
                KeyManagement::Open => part(dict, "802-11-wireless-security"@, None),
                KeyManagement::WpaPsk => part(
                    dict,
                    "802-11-wireless-security"@,
                    Some(seq![("key-mgmt"@, ValueView::Str("wpa-psk"@))]),
                ),
                KeyManagement::WpaEap => part(
                    dict,
                    "802-11-wireless-security"@,
                    Some(seq![("key-mgmt"@, ValueView::Str("wpa-eap"@))]),
                ),
                KeyManagement::Sae => part(
                    dict,
                    "802-11-wireless-security"@,
                    Some(seq![("key-mgmt"@, ValueView::Str("sae"@))]),
                ),
                KeyManagement::Owe => part(
                    dict,
                    "802-11-wireless-security"@,
                    Some(seq![("key-mgmt"@, ValueView::Str("owe"@))]),
                ),
            }
            &&& has(
                dict,
                "802-11-wireless"@,
                "hidden"@,
                if settings.hidden {
                    Some(ValueView::Bool(true))
                } else {
                    None
                },
            )
            &&& has(
                dict,
                "802-11-wireless"@,
                "mode"@,
                Some(ValueView::Str("infrastructure"@)),
            )
        }),
{
    let dict = convert::settings_of(profile);
    let settings = profile.connection_type->Wifi_0;
    convert::lemma_section_names();
    let wifi = convert::wifi_section(settings);
    assert(dict[0].0 == "connection"@);
    assert(dict[1] == ("802-11-wireless"@, wifi));
    assert(part(dict, "802-11-wireless"@, Some(wifi)));
    lemma_wifi_section(profile);
    let octets = convert::octets_value(settings.ssid);
    assert(has(dict, "802-11-wireless"@, "ssid"@, Some(octets)));
    if settings.security.key_management == KeyManagement::Open {
        assert(dict.len() == 4);
        assert(dict[2].0 == "ipv4"@ && dict[3].0 == "ipv6"@);
    } else {
        let security = convert::security_section(settings);
        assert(dict[2] == ("802-11-wireless-security"@, security));
        assert(part(dict, "802-11-wireless-security"@, Some(security)));
    }
}

/// Whether a value is an array of octets.
pub open spec fn is_octets(value: ValueView, octets: Seq<u8>) -> bool {
    value matches ValueView::Array(items) && items.len() == octets.len() && forall|i: int|
        0 <= i < items.len() ==> #[trigger] items[i] == ValueView::U8(octets[i])
}

proof fn lemma_wifi_section(profile: ProfileView)
    requires
        profile.connection_type is Wifi,
    ensures
        ({
            let settings = profile.connection_type->Wifi_0;
            let wifi = convert::wifi_section(settings);
            &&& at(wifi, "ssid"@, Some(convert::octets_value(settings.ssid)))
            &&& is_octets(convert::octets_value(settings.ssid), settings.ssid)
            &&& at(wifi, "mode"@, Some(ValueView::Str("infrastructure"@)))
            &&& at(
                wifi,
                "hidden"@,
                if settings.hidden {
                    Some(ValueView::Bool(true))
                } else {
                    None
                },
            )
        }),
{
    let settings = profile.connection_type->Wifi_0;
    let wifi = convert::wifi_section(settings);
    reveal_strlit("ssid");
    reveal_strlit("mode");
    reveal_strlit("hidden");
    reveal_strlit("security");
    assert("ssid"@[0] == 's' && "mode"@[0] == 'm' && "hidden"@.len() == 6 && "security"@.len() == 8
        && "ssid"@.len() == 4 && "mode"@.len() == 4);
    assert(wifi[0].0 == "ssid"@);
    assert(wifi[1] == ("mode"@, ValueView::Str("infrastructure"@)));
    if settings.hidden {
        assert(wifi[2] == ("hidden"@, ValueView::Bool(true)));
    } else if wifi.len() > 2 {
        assert(wifi.len() == 3);
        assert(wifi[2].0 == "security"@);
    }
}

/// The section of an IP configuration names its method, `auto`, `manual` or
/// `disabled`. A manual one holds the texts of the address, the gateway and the
/// servers, and the prefix length; any holds its routes.
#[verifier::rlimit(60)]
pub proof fn lemma_settings_say_what_ip_config_is(config: IpConfigView, v4: bool)
    ensures
        ({
            let section = convert::ip_section(config, v4);
            let manual = config.method == IpMethod::Manual;
            &&& at(
                section,
                "method"@,
                Some(
                    ValueView::Str(
                        match config.method {
                            IpMethod::Automatic => "auto"@,
                            IpMethod::Manual => "manual"@,
                            IpMethod::Disabled => "disabled"@,
                        },
                    ),
                ),
            )
            &&& if manual && config.address is Some {
                exists|data: ValueView| #[trigger]
                    at(section, "address-data"@, Some(data)) && is_address_data(
                        data,
                        config.address->0,
                        config.prefix_length,
                    )
            } else {
                at(section, "address-data"@, None)
            }
            &&& at(
                section,
                "gateway"@,
                if manual && config.gateway is Some {
                    Some(ValueView::Str(config.gateway->0.text()))
                } else {
                    None
                },
            )
            &&& if manual && config.dns_servers.len() > 0 {
                exists|servers: Seq<ValueView>|
                    #[trigger] at(section, "dns"@, Some(ValueView::Array(servers)))
                        && servers.len() == config.dns_servers.len() && forall|i: int|
                        0 <= i < servers.len() ==> #[trigger] servers[i] == ValueView::Str(
                            config.dns_servers[i].text(),
                        )
            } else {
                at(section, "dns"@, None)
            }
            &&& if config.routes.len() > 0 {
                exists|routes: Seq<ValueView>|
                    #[trigger] at(section, "routes"@, Some(ValueView::Array(routes)))
                        && are_routes(routes, config.routes, v4)
            } else {
                at(section, "routes"@, None)
            }
        }),
{
    let section = convert::ip_section(config, v4);
    let manual = config.method == IpMethod::Manual;
    convert::lemma_ip_keys();
    let a: int = if manual && config.address is Some {
        1
    } else {
        0
    };
    let g: int = if manual && config.gateway is Some {
        1
    } else {
        0
    };
    let d: int = if manual && config.dns_servers.len() > 0 {
        1
    } else {
        0
    };
    let r: int = if config.routes.len() > 0 {
        1
    } else {
        0
    };
    assert(section.len() == 1 + a + g + d + r);
    assert(section[0].0 == "method"@);
    if a == 1 {
        let data = ValueView::Array(
            seq![convert::address_dict(config.address->0, config.prefix_length)],
        );
        assert(section[1] == ("address-data"@, data));
        assert(at(section, "address-data"@, Some(data)));
        lemma_address_data(config.address->0, config.prefix_length);
    }
    if g == 1 {
        assert(section[1 + a] == ("gateway"@, ValueView::Str(config.gateway->0.text())));
    }
    if d == 1 {
        let servers = convert::addresses_value(config.dns_servers)->Array_0;
        assert(section[1 + a + g] == ("dns"@, ValueView::Array(servers)));
    }
    if r == 1 {
        let routes = convert::routes_value(config.routes, v4)->Array_0;
        assert(section[1 + a + g + d] == ("routes"@, ValueView::Array(routes)));
        lemma_routes_are_said(config.routes, v4);
    }
    assert(at(section, "method"@, Some(section[0].1)));
    if a == 0 {
        assert(at(section, "address-data"@, None));
    }
    if g == 1 {
        assert(at(section, "gateway"@, Some(ValueView::Str(config.gateway->0.text()))));
    } else {
        assert(at(section, "gateway"@, None));
    }
    if d == 1 {
        let servers = convert::addresses_value(config.dns_servers)->Array_0;
        assert(at(section, "dns"@, Some(ValueView::Array(servers))));
    } else {
        assert(at(section, "dns"@, None));
    }
    if r == 1 {
        let routes = convert::routes_value(config.routes, v4)->Array_0;
        assert(at(section, "routes"@, Some(ValueView::Array(routes))));
    } else {
        assert(at(section, "routes"@, None));
    }
}

/// Whether a value is a list of one dictionary, of an address and its prefix length.
pub open spec fn is_address_data(
    value: ValueView,
    address: IpAddr,
    prefix_length: Option<u8>,
) -> bool {
    &&& value matches ValueView::Array(items)
    &&& items.len() == 1
    &&& items[0] matches ValueView::Dict(entries)
    &&& entry(entries, "address"@, ValueView::Str(address.text()))
    &&& match prefix_length {
        Some(length) => entry(entries, "prefix"@, ValueView::U32(length as u32)),
        None => entries.len() == 1,
    }
}

proof fn lemma_address_data(address: IpAddr, prefix_length: Option<u8>)
    ensures
        is_address_data(
            ValueView::Array(seq![convert::address_dict(address, prefix_length)]),
            address,
            prefix_length,
        ),
{
    reveal_strlit("address");
    reveal_strlit("prefix");
    assert("address"@.len() == 7 && "prefix"@.len() == 6);
    let entries = convert::address_dict(address, prefix_length)->Dict_0;
    assert(value::bare(entries[0].0) == ValueView::Str("address"@));
    assert(value::bare(entries[0].1) == ValueView::Str(address.text()));
    assert(entry(entries, "address"@, ValueView::Str(address.text())));
    if let Some(length) = prefix_length {
        assert(value::bare(entries[1].0) == ValueView::Str("prefix"@));
        assert(value::bare(entries[1].1) == ValueView::U32(length as u32));
    }
}

/// Whether values are those of the routes of a family, in order.
pub open spec fn are_routes(values: Seq<ValueView>, routes: Seq<Route>, v4: bool) -> bool {
    let own = ip::own_routes(
        routes,
        if v4 {
            IpFamily::V4
        } else {
            IpFamily::V6
        },
    );
    &&& values.len() == own.len()
    &&& forall|i: int| 0 <= i < own.len() ==> is_route(#[trigger] values[i], own[i], v4)
}

/// Whether a value is that of a route: four numbers for IPv4, and the octets of two
/// addresses with a number behind each for IPv6. A gateway or metric that is not
/// there is zero.
pub open spec fn is_route(value: ValueView, route: Route, v4: bool) -> bool {
    let metric = match route.metric {
        Some(metric) => metric,
        None => 0u32,
    };
    if v4 {
        &&& value matches ValueView::Array(numbers)
        &&& numbers.len() == 4
        &&& route.destination matches IpAddr::V4(to) ==> numbers[0] == ValueView::U32(to.scalar())
        &&& numbers[1] == ValueView::U32(route.prefix_length as u32)
        &&& match route.gateway {
            Some(IpAddr::V4(next)) => numbers[2] == ValueView::U32(next.scalar()),
            _ => numbers[2] == ValueView::U32(0),
        }
        &&& numbers[3] == ValueView::U32(metric)
    } else {
        &&& value matches ValueView::Structure(fields)
        &&& fields.len() == 4
        &&& route.destination matches IpAddr::V6(to) ==> is_octets(fields[0], to.octets_view())
        &&& fields[1] == ValueView::U32(route.prefix_length as u32)
        &&& match route.gateway {
            Some(IpAddr::V6(next)) => is_octets(fields[2], next.octets_view()),
            _ => is_octets(fields[2], (Ipv6Addr { bits: 0 }).octets_view()),
        }
        &&& fields[3] == ValueView::U32(metric)
    }
}

proof fn lemma_routes_are_said(routes: Seq<Route>, v4: bool)
    ensures
        are_routes(convert::routes_value(routes, v4)->Array_0, routes, v4),
{
    let family = if v4 {
        IpFamily::V4
    } else {
        IpFamily::V6
    };
    ip::lemma_own_routes(routes, family);
    let own = ip::own_routes(routes, family);
    let values = convert::routes_value(routes, v4)->Array_0;
    assert forall|i: int| 0 <= i < own.len() implies is_route(#[trigger] values[i], own[i], v4) by {
        if v4 {
            assert(values[i] == convert::numbers_value(convert::v4_numbers(own[i])));
        } else {
            assert(values[i] == convert::octet_pair_value(convert::v6_octets(own[i])));
        }
    }
}

// --- Refusals --------------------------------------------------------------------------

/// Settings stand for a profile only where the profile is valid. Without a section
/// `connection`, without an id or without a type they are refused, and so are a Wi-Fi
/// profile without its section or without the name of its network, and every type
/// that is neither Wi-Fi nor Ethernet.
pub proof fn lemma_what_settings_are_refused(
    dict: SettingsView,
    id: Option<ValueView>,
    kind: Option<ValueView>,
    ssid: Option<ValueView>,
)
    requires
        has(dict, "connection"@, "id"@, id),
        has(dict, "connection"@, "type"@, kind),
        has(dict, "802-11-wireless"@, "ssid"@, ssid),
    ensures
        convert::decode(dict) matches Decoded::Profile(profile) ==> profile::valid(profile),
        part(dict, "connection"@, None) ==> convert::decode(dict) == Decoded::Fault(
            FacadeErrorView::MissingSetting("connection"@),
        ),
        !(id matches Some(ValueView::Str(_))) ==> convert::decode(dict) is Fault,
        !(kind matches Some(ValueView::Str(_))) ==> convert::decode(dict) is Fault,
        (kind matches Some(ValueView::Str(name)) && name != "802-11-wireless"@ && name
            != "802-3-ethernet"@) ==> convert::decode(dict) is Fault,
        kind == Some(ValueView::Str("802-11-wireless"@)) && part(dict, "802-11-wireless"@, None)
            ==> convert::decode(dict) is Fault,
        kind == Some(ValueView::Str("802-11-wireless"@)) && ssid is None ==> convert::decode(
            dict,
        ) is Fault,
{
    lemma_has(dict, "connection"@, "id"@, id);
    lemma_has(dict, "connection"@, "type"@, kind);
    lemma_has(dict, "802-11-wireless"@, "ssid"@, ssid);
    if part(dict, "connection"@, None) {
        lemma_part(dict, "connection"@, None);
    }
    if part(dict, "802-11-wireless"@, None) {
        lemma_part(dict, "802-11-wireless"@, None);
    }
}

} // verus!
