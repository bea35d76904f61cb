//! Translation between the typed connection model and NetworkManager's
//! `a{sa{sv}}` settings dictionary on D-Bus.
//!
//! NetworkManager represents a connection as a nested dictionary of settings
//! (section name, property name, value). This module converts
//! [`ConnectionProfile`] values into that representation for
//! `GetSettings`/`GetAppliedConnection` and back for `AddConnection`/`Update`.
//! Conversion is lossy by design: properties the domain does not model are
//! dropped, and secrets are never emitted or stored.

use vstd::prelude::*;

use crate::connection::profile;
use crate::connection::profile::{
    ConnectionProfile, ConnectionType, ConnectionTypeView, DeviceMatchView, EthernetSettings,
    IpConfig, IpConfigView, IpMethod, KeyManagement, ProfileValidationError, ProfileView,
    WifiSecurity, WifiSecurityView, WifiSettingsView,
};
use crate::connection::secrets::{SecretReference, SecretReferenceView};
use crate::dbus::{settings_connection_path, SETTINGS_PREFIX};
use crate::dbus::error::{FacadeError, FacadeErrorView};
use crate::dbus::object_path;
use crate::dbus::value;
use crate::dbus::value::{
    find_in_dict, OctetPair, Section, SectionView, SettingsDict, SettingsView, Value, ValueView,
};
use crate::linux::ip_engine;
use crate::linux::ip_engine::static_routes;
use crate::linux::model::{IpFamily, Route, RouteKind, RouteScope, Ssid};
use crate::net;
use crate::net::{IpAddr, Ipv4Addr, Ipv6Addr};
use crate::net_text;
use crate::text;
use crate::text::{chars_of, concat2, fixed_hex_text, quoted, same_text};

verus! {

// --- Stable identifiers -------------------------------------------------------

/// The hash of octets that starts from another: each octet is mixed in and the
/// result is multiplied by the FNV prime.
pub open spec fn fnv1a_of(octets: Seq<u8>, hash: u64) -> u64
    decreases octets.len(),
{
    if octets.len() == 0 {
        hash
    } else {
        let mixed = fnv1a_of(octets.drop_last(), hash) ^ (octets.last() as u64);
        ((mixed as nat * 0x100_0000_01b3) % 0x1_0000_0000_0000_0000) as u64
    }
}

fn fnv1a(octets: &[u8], start: u64) -> (r: u64)
    ensures
        r == fnv1a_of(octets@, start),
{
    let mut hash: u64 = start;
    let mut i: usize = 0;
    assert(octets@.take(0) =~= Seq::empty());
    while i < octets.len()
        invariant
            i <= octets@.len(),
            hash == fnv1a_of(octets@.take(i as int), start),
        decreases octets@.len() - i,
    {
        hash = (hash ^ (octets[i] as u64)).wrapping_mul(0x100_0000_01b3);
        assert(octets@.take(i + 1).drop_last() =~= octets@.take(i as int));
        i = i + 1;
    }
    assert(octets@.take(i as int) =~= octets@);
    hash
}

/// The two hashes of an id that its UUID is made of.
pub open spec fn id_hashes(id: Seq<char>) -> (u64, u64) {
    let octets = vstd::utf8::encode_utf8(id);
    (fnv1a_of(octets, 0xcbf2_9ce4_8422_2325), fnv1a_of(octets, 0x8422_2325_cbf2_9ce4))
}

/// The UUID that stands for an id.
pub open spec fn uuid_of(id: Seq<char>) -> Seq<char> {
    let (first, second) = id_hashes(id);
    text::fixed_hex(first as nat / 0x1_0000_0000, 8) + "-"@ + text::fixed_hex(
        first as nat % 0x1_0000,
        4,
    ) + "-5"@ + text::fixed_hex(first as nat / 0x1_0000 % 0x1000, 3) + "-8"@ + text::fixed_hex(
        second as nat % 0x1000,
        3,
    ) + "-"@ + text::fixed_hex(second as nat / 0x1_0000, 12)
}

/// Deterministically derives a v5-style UUID from a profile id.
///
/// NetworkManager connections are addressed by UUID; the domain identifies
/// profiles by id. Deriving the UUID from the id keeps object paths and UUIDs
/// stable across daemon restarts without introducing a separate identity store.
pub fn stable_uuid(id: &str) -> (r: String)
    ensures
        r@ == uuid_of(id@),
{
    let octets: &[u8] = id.as_bytes();
    let first: u64 = fnv1a(octets, 0xcbf2_9ce4_8422_2325);
    let second: u64 = fnv1a(octets, 0x8422_2325_cbf2_9ce4);
    let mut r: String = fixed_hex_text(first / 0x1_0000_0000, 8);
    r.append("-");
    r.append(fixed_hex_text(first % 0x1_0000, 4).as_str());
    r.append("-5");
    r.append(fixed_hex_text(first / 0x1_0000 % 0x1000, 3).as_str());
    r.append("-8");
    r.append(fixed_hex_text(second % 0x1000, 3).as_str());
    r.append("-");
    r.append(fixed_hex_text(second / 0x1_0000, 12).as_str());
    r
}

/// Whether a character is a lower-case hexadecimal digit.
pub open spec fn is_hex_char(c: char) -> bool {
    ('0' <= c && c <= '9') || ('a' <= c && c <= 'f')
}

proof fn lemma_hex_chars(n: nat, width: nat)
    ensures
        text::fixed_hex(n, width).len() == width,
        forall|i: int| 0 <= i < width ==> is_hex_char(#[trigger] text::fixed_hex(n, width)[i]),
    decreases width,
{
    if width > 0 {
        lemma_hex_chars(n / 16, (width - 1) as nat);
    }
}

/// The UUID of an id has the form of a version 5 UUID: groups of eight, four,
/// four, four and twelve digits, the third beginning with the version.
pub proof fn lemma_uuid_form(id: Seq<char>)
    ensures
        uuid_of(id).len() == 36,
        forall|i: int|
            0 <= i < 36 ==> if i == 8 || i == 13 || i == 18 || i == 23 {
                (#[trigger] uuid_of(id)[i]) == '-'
            } else {
                is_hex_char(uuid_of(id)[i])
            },
        uuid_of(id)[14] == '5',
        uuid_of(id)[19] == '8',
{
    let (first, second) = id_hashes(id);
    lemma_hex_chars(first as nat / 0x1_0000_0000, 8);
    lemma_hex_chars(first as nat % 0x1_0000, 4);
    lemma_hex_chars(first as nat / 0x1_0000 % 0x1000, 3);
    lemma_hex_chars(second as nat % 0x1000, 3);
    lemma_hex_chars(second as nat / 0x1_0000, 12);
    reveal_strlit("-");
    reveal_strlit("-5");
    reveal_strlit("-8");
}

/// A text with its hyphens as underscores.
pub open spec fn underscored(name: Seq<char>) -> Seq<char> {
    name.map_values(
        |c: char|
            if c == '-' {
                '_'
            } else {
                c
            },
    )
}

fn underscore(name: &str) -> (r: String)
    ensures
        r@ == underscored(name@),
{
    let chars: Vec<char> = chars_of(name);
    let mut r: String = String::new();
    let mut i: usize = 0;
    while i < chars.len()
        invariant
            i <= chars@.len(),
            chars@ == name@,
            r@ == underscored(name@).take(i as int),
        decreases chars@.len() - i,
    {
        r.push(
            if chars[i] == '-' {
                '_'
            } else {
                chars[i]
            },
        );
        assert(r@ =~= underscored(name@).take(i + 1));
        i = i + 1;
    }
    assert(underscored(name@).take(i as int) =~= underscored(name@));
    r
}

/// The object path of the connection of a profile.
pub open spec fn connection_name(id: Seq<char>) -> Seq<char> {
    SETTINGS_PREFIX@ + underscored(uuid_of(id))
}

/// The object path of the connection of a profile: its UUID, with underscores for
/// the hyphens that cannot stand in an object path.
pub fn connection_path(id: &str) -> (r: String)
    ensures
        r@ == connection_name(id@),
{
    settings_connection_path(underscore(stable_uuid(id).as_str()).as_str())
}

/// The paths of connections are object paths.
pub proof fn lemma_connection_path_valid(id: Seq<char>)
    ensures
        object_path::is_object_path(connection_name(id)),
{
    lemma_uuid_form(id);
    let element = underscored(uuid_of(id));
    assert forall|i: int| 0 <= i < element.len() implies object_path::is_path_char(
        #[trigger] element[i],
    ) && element[i] != '/' by {
        let c = uuid_of(id)[i];
        assert(c == '-' || is_hex_char(c));
    }
    crate::dbus::lemma_known_prefix(SETTINGS_PREFIX@);
    crate::dbus::lemma_path_join(SETTINGS_PREFIX@, element);
}

// --- Names of types and modes ----------------------------------------------------

/// The `connection.type` of a transport.
pub open spec fn transport_name(connection_type: ConnectionTypeView) -> Seq<char> {
    match connection_type {
        ConnectionTypeView::Wifi(_) => "802-11-wireless"@,
        ConnectionTypeView::Ethernet(_) => "802-3-ethernet"@,
    }
}

/// The `connection.type` string for a profile.
pub fn connection_type_string(profile: &ConnectionProfile) -> (r: String)
    ensures
        r@ == transport_name(profile@.connection_type),
{
    match &profile.connection_type {
        ConnectionType::Wifi(_) => "802-11-wireless".to_owned(),
        ConnectionType::Ethernet(_) => "802-3-ethernet".to_owned(),
    }
}

/// The `802-11-wireless-security.key-mgmt` of a key management mode.
pub open spec fn mode_name(key_management: KeyManagement) -> Seq<char> {
    match key_management {
        KeyManagement::Open => "none"@,
        KeyManagement::WpaPsk => "wpa-psk"@,
        KeyManagement::WpaEap => "wpa-eap"@,
        KeyManagement::Sae => "sae"@,
        KeyManagement::Owe => "owe"@,
    }
}

/// The `802-11-wireless-security.key-mgmt` string for a key management mode.
pub fn key_management_string(key_management: KeyManagement) -> (r: &'static str)
    ensures
        r@ == mode_name(key_management),
{
    match key_management {
        KeyManagement::Open => "none",
        KeyManagement::WpaPsk => "wpa-psk",
        KeyManagement::WpaEap => "wpa-eap",
        KeyManagement::Sae => "sae",
        KeyManagement::Owe => "owe",
    }
}

/// The security settings that a key management mode stands for in settings, which
/// never hold the secret itself.
pub open spec fn default_security(key_management: KeyManagement) -> WifiSecurityView {
    WifiSecurityView {
        key_management,
        secret: match key_management {
            KeyManagement::WpaPsk => Some(SecretReferenceView::Keyring("nmd/wifi-psk"@)),
            KeyManagement::Sae => Some(SecretReferenceView::Keyring("nmd/wifi-sae"@)),
            _ => None,
        },
        identity: match key_management {
            KeyManagement::WpaEap => Some("nmd-enterprise"@),
            _ => None,
        },
    }
}

/// The key management mode with a name.
pub open spec fn mode_named(name: Seq<char>) -> Option<KeyManagement> {
    if name == "none"@ || name == ""@ {
        Some(KeyManagement::Open)
    } else if name == "owe"@ {
        Some(KeyManagement::Owe)
    } else if name == "wpa-psk"@ {
        Some(KeyManagement::WpaPsk)
    } else if name == "sae"@ {
        Some(KeyManagement::Sae)
    } else if name == "wpa-eap"@ {
        Some(KeyManagement::WpaEap)
    } else {
        None
    }
}

/// Reads the name of a key management mode.
pub fn parse_key_management(name: &str) -> (r: Result<WifiSecurity, FacadeError>)
    ensures
        match mode_named(name@) {
            Some(mode) => r matches Ok(security) && security@ == default_security(mode),
            None => r matches Err(e) && e@ == FacadeErrorView::InvalidSetting(
                "unsupported key management "@ + text::quoted_text(name@),
            ),
        },
{
    let security: WifiSecurity = if same_text(name, "none") || same_text(name, "") {
        WifiSecurity::open()
    } else if same_text(name, "owe") {
        WifiSecurity::owe()
    } else if same_text(name, "wpa-psk") {
        WifiSecurity::psk(SecretReference::Keyring { identifier: "nmd/wifi-psk".to_owned() })
    } else if same_text(name, "sae") {
        WifiSecurity::sae(SecretReference::Keyring { identifier: "nmd/wifi-sae".to_owned() })
    } else if same_text(name, "wpa-eap") {
        WifiSecurity::enterprise("nmd-enterprise")
    } else {
        return Err(
            FacadeError::InvalidSetting(
                concat2("unsupported key management ", quoted(name).as_str()),
            ),
        );
    };
    assert(security@ =~= default_security(mode_named(name@)->0));
    Ok(security)
}

/// The name of an IP method in settings.
pub open spec fn method_name(method: IpMethod) -> Seq<char> {
    match method {
        IpMethod::Automatic => "auto"@,
        IpMethod::Manual => "manual"@,
        IpMethod::Disabled => "disabled"@,
    }
}

/// The IP method with a name.
pub open spec fn method_named(name: Seq<char>) -> Option<IpMethod> {
    if name == "auto"@ || name == ""@ {
        Some(IpMethod::Automatic)
    } else if name == "manual"@ {
        Some(IpMethod::Manual)
    } else if name == "disabled"@ {
        Some(IpMethod::Disabled)
    } else {
        None
    }
}

// --- Profile to settings --------------------------------------------------------------

/// A value of octets.
pub open spec fn octets_value(octets: Seq<u8>) -> ValueView {
    ValueView::Array(octets.map_values(|octet: u8| ValueView::U8(octet)))
}

/// A value of numbers.
pub open spec fn numbers_value(numbers: Seq<u32>) -> ValueView {
    ValueView::Array(numbers.map_values(|number: u32| ValueView::U32(number)))
}

/// Makes a value of octets.
pub fn val_bytes(octets: &[u8]) -> (r: Value)
    ensures
        r@ == octets_value(octets@),
{
    let mut items: Vec<Value> = Vec::new();
    let mut i: usize = 0;
    while i < octets.len()
        invariant
            i <= octets@.len(),
            items@.len() == i,
            forall|j: int| 0 <= j < i ==> #[trigger] items@[j] == Value::U8(octets@[j]),
        decreases octets@.len() - i,
    {
        items.push(Value::U8(octets[i]));
        i = i + 1;
    }
    let r = Value::Array(items);
    proof {
        value::lemma_array_view(items);
        assert(value::value_views(items@) =~= octets_value(octets@)->Array_0);
    }
    r
}

/// Makes a value of numbers.
pub fn val_numbers(numbers: &Vec<u32>) -> (r: Value)
    ensures
        r@ == numbers_value(numbers@),
{
    let mut items: Vec<Value> = Vec::new();
    let mut i: usize = 0;
    while i < numbers.len()
        invariant
            i <= numbers@.len(),
            items@.len() == i,
            forall|j: int| 0 <= j < i ==> #[trigger] items@[j] == Value::U32(numbers@[j]),
        decreases numbers@.len() - i,
    {
        items.push(Value::U32(numbers[i]));
        i = i + 1;
    }
    let r = Value::Array(items);
    proof {
        value::lemma_array_view(items);
        assert(value::value_views(items@) =~= numbers_value(numbers@)->Array_0);
    }
    r
}

/// The destination and next hop of an IPv4 route, each with its number.
pub open spec fn v4_numbers(route: Route) -> Seq<u32> {
    seq![
        match route.destination {
            IpAddr::V4(address) => address.scalar(),
            IpAddr::V6(_) => 0u32,
        },
        route.prefix_length as u32,
        match route.gateway {
            Some(IpAddr::V4(address)) => address.scalar(),
            _ => 0u32,
        },
        match route.metric {
            Some(metric) => metric,
            None => 0u32,
        },
    ]
}

/// Serializes a route as the `ipv4.routes` tuple NetworkManager uses.
pub fn route_v4_entry(route: &Route) -> (r: Vec<u32>)
    ensures
        r@ == v4_numbers(*route),
{
    let destination: u32 = match route.destination {
        IpAddr::V4(address) => address.to_scalar(),
        IpAddr::V6(_) => 0,
    };
    let next_hop: u32 = match route.gateway {
        Some(IpAddr::V4(address)) => address.to_scalar(),
        _ => 0,
    };
    let metric: u32 = match route.metric {
        Some(metric) => metric,
        None => 0,
    };
    let r: Vec<u32> = vec![destination, route.prefix_length as u32, next_hop, metric];
    assert(r@ =~= v4_numbers(*route));
    r
}

/// The unspecified IPv6 address.
pub open spec fn unspecified_v6() -> Ipv6Addr {
    Ipv6Addr { bits: 0 }
}

/// The destination and next hop of an IPv6 route, each with its number.
pub open spec fn v6_octets(route: Route) -> OctetPair {
    (
        match route.destination {
            IpAddr::V6(address) => address.octets_view(),
            IpAddr::V4(_) => unspecified_v6().octets_view(),
        },
        route.prefix_length as u32,
        match route.gateway {
            Some(IpAddr::V6(address)) => address.octets_view(),
            _ => unspecified_v6().octets_view(),
        },
        match route.metric {
            Some(metric) => metric,
            None => 0u32,
        },
    )
}

/// Serializes a route as the `ipv6.routes` tuple NetworkManager uses.
pub fn route_v6_entry(route: &Route) -> (r: (Vec<u8>, u32, Vec<u8>, u32))
    ensures
        value::pair_view(r) == v6_octets(*route),
{
    let destination: Ipv6Addr = match route.destination {
        IpAddr::V6(address) => address,
        IpAddr::V4(_) => Ipv6Addr::unspecified(),
    };
    let next_hop: Ipv6Addr = match route.gateway {
        Some(IpAddr::V6(address)) => address,
        _ => Ipv6Addr::unspecified(),
    };
    let metric: u32 = match route.metric {
        Some(metric) => metric,
        None => 0,
    };
    (destination.octets_vec(), route.prefix_length as u32, next_hop.octets_vec(), metric)
}

/// A value of two lists of octets, each with a number.
pub open spec fn octet_pair_value(pair: OctetPair) -> ValueView {
    ValueView::Structure(
        seq![
            octets_value(pair.0),
            ValueView::U32(pair.1),
            octets_value(pair.2),
            ValueView::U32(pair.3),
        ],
    )
}

/// The value of the static routes of a family.
pub open spec fn routes_value(routes: Seq<Route>, v4: bool) -> ValueView {
    if v4 {
        ValueView::Array(
            ip_engine::of_family(routes, IpFamily::V4).map_values(
                |route: Route| numbers_value(v4_numbers(route)),
            ),
        )
    } else {
        ValueView::Array(
            ip_engine::of_family(routes, IpFamily::V6).map_values(
                |route: Route| octet_pair_value(v6_octets(route)),
            ),
        )
    }
}

/// Makes the value of the routes of one family.
fn val_routes(config: &IpConfig, v4: bool) -> (r: Value)
    ensures
        r@ == routes_value(config@.routes, v4),
{
    let family: IpFamily = if v4 {
        IpFamily::V4
    } else {
        IpFamily::V6
    };
    let routes: Vec<Route> = static_routes(config, family);
    let mut items: Vec<Value> = Vec::new();
    let mut i: usize = 0;
    while i < routes.len()
        invariant
            i <= routes@.len(),
            items@.len() == i,
            forall|j: int|
                0 <= j < i ==> (#[trigger] items@[j])@ == if v4 {
                    numbers_value(v4_numbers(routes@[j]))
                } else {
                    octet_pair_value(v6_octets(routes@[j]))
                },
        decreases routes@.len() - i,
    {
        let item: Value = if v4 {
            val_numbers(&route_v4_entry(&routes[i]))
        } else {
            let entry: (Vec<u8>, u32, Vec<u8>, u32) = route_v6_entry(&routes[i]);
            let fields: Vec<Value> =
                vec![
                val_bytes(entry.0.as_slice()),
                Value::U32(entry.1),
                val_bytes(entry.2.as_slice()),
                Value::U32(entry.3),
            ];
            let structure = Value::Structure(fields);
            proof {
                value::lemma_array_view(fields);
                assert(value::value_views(fields@) =~= octet_pair_value(
                    v6_octets(routes@[i as int]),
                )->Structure_0);
            }
            structure
        };
        items.push(item);
        i = i + 1;
    }
    let r = Value::Array(items);
    proof {
        value::lemma_array_view(items);
        assert(value::value_views(items@) =~= routes_value(config@.routes, v4)->Array_0);
    }
    r
}

/// A text in a variant.
pub open spec fn variant_text(text: Seq<char>) -> ValueView {
    ValueView::Variant(Box::new(ValueView::Str(text)))
}

/// A number in a variant.
pub open spec fn variant_number(number: u32) -> ValueView {
    ValueView::Variant(Box::new(ValueView::U32(number)))
}

/// The dictionary of an address and its prefix.
pub open spec fn address_dict(address: IpAddr, prefix_length: Option<u8>) -> ValueView {
    ValueView::Dict(
        seq![(ValueView::Str("address"@), variant_text(address.text()))] + match prefix_length {
            Some(length) => seq![(ValueView::Str("prefix"@), variant_number(length as u32))],
            None => Seq::empty(),
        },
    )
}

/// Makes the dictionary of an address and its prefix.
pub fn val_address(address: &IpAddr, prefix_length: Option<u8>) -> (r: Value)
    ensures
        r@ == address_dict(*address, prefix_length),
{
    let mut entries: Vec<(Value, Value)> = Vec::new();
    entries.push(
        (
            Value::Str("address".to_owned()),
            Value::Variant(Box::new(Value::Str(address.to_string()))),
        ),
    );
    if let Some(length) = prefix_length {
        entries.push(
            (
                Value::Str("prefix".to_owned()),
                Value::Variant(Box::new(Value::U32(length as u32))),
            ),
        );
    }
    let r = Value::Dict(entries);
    proof {
        value::lemma_dict_view(entries);
        reveal_with_fuel(Value::view, 2);
        assert(value::pair_views(entries@) =~= address_dict(*address, prefix_length)->Dict_0);
    }
    r
}

/// A value of the texts of addresses.
pub open spec fn addresses_value(addresses: Seq<IpAddr>) -> ValueView {
    ValueView::Array(addresses.map_values(|address: IpAddr| ValueView::Str(address.text())))
}

fn val_addresses(addresses: &Vec<IpAddr>) -> (r: Value)
    ensures
        r@ == addresses_value(addresses@),
{
    let mut items: Vec<Value> = Vec::new();
    let mut i: usize = 0;
    while i < addresses.len()
        invariant
            i <= addresses@.len(),
            items@.len() == i,
            forall|j: int|
                0 <= j < i ==> (#[trigger] items@[j])@ == ValueView::Str(addresses@[j].text()),
        decreases addresses@.len() - i,
    {
        items.push(Value::Str(addresses[i].to_string()));
        i = i + 1;
    }
    let r = Value::Array(items);
    proof {
        value::lemma_array_view(items);
        assert(value::value_views(items@) =~= addresses_value(addresses@)->Array_0);
    }
    r
}

/// The properties of a manual IP configuration.
pub open spec fn manual_properties(config: IpConfigView) -> SectionView {
    let address = match config.address {
        Some(address) => seq![
            ("address-data"@, ValueView::Array(seq![address_dict(address, config.prefix_length)])),
        ],
        None => SectionView::empty(),
    };
    let gateway = match config.gateway {
        Some(gateway) => seq![("gateway"@, ValueView::Str(gateway.text()))],
        None => SectionView::empty(),
    };
    let dns = if config.dns_servers.len() > 0 {
        seq![("dns"@, addresses_value(config.dns_servers))]
    } else {
        SectionView::empty()
    };
    address + gateway + dns
}

/// The section of an IP configuration.
pub open spec fn ip_section(config: IpConfigView, v4: bool) -> SectionView {
    seq![("method"@, ValueView::Str(method_name(config.method)))] + if config.method
        == IpMethod::Manual {
        manual_properties(config)
    } else {
        SectionView::empty()
    } + if config.routes.len() > 0 {
        seq![("routes"@, routes_value(config.routes, v4))]
    } else {
        SectionView::empty()
    }
}

/// Renders an IP configuration as a section.
pub fn ip_config_section(config: &IpConfig, v4: bool) -> (r: Section)
    ensures
        r@ == ip_section(config@, v4),
{
    let mut section: Section = Section::new();
    let method: &str = match config.method {
        IpMethod::Automatic => "auto",
        IpMethod::Manual => "manual",
        IpMethod::Disabled => "disabled",
    };
    section.push("method", Value::Str(method.to_owned()));
    if config.method == IpMethod::Manual {
        if let Some(address) = config.address {
            let item: Value = val_address(&address, config.prefix_length);
            let items: Vec<Value> = vec![item];
            let data = Value::Array(items);
            proof {
                value::lemma_array_view(items);
                assert(value::value_views(items@) =~= seq![
                    address_dict(address, config.prefix_length),
                ]);
            }
            section.push("address-data", data);
        }
        if let Some(gateway) = config.gateway {
            section.push("gateway", Value::Str(gateway.to_string()));
        }
        if config.dns_servers.len() > 0 {
            section.push("dns", val_addresses(&config.dns_servers));
        }
    }
    if config.routes.len() > 0 {
        section.push("routes", val_routes(config, v4));
    }
    assert(section@ =~= ip_section(config@, v4));
    section
}

/// The `connection` section of a profile.
pub open spec fn connection_section(profile: ProfileView) -> SectionView {
    seq![
        ("id"@, ValueView::Str(profile.id)),
        ("uuid"@, ValueView::Str(uuid_of(profile.id))),
        ("type"@, ValueView::Str(transport_name(profile.connection_type))),
    ] + match profile.device_match.interface_name {
        Some(name) => seq![("interface-name"@, ValueView::Str(name))],
        None => SectionView::empty(),
    } + seq![
        ("autoconnect"@, ValueView::Bool(profile.autoconnect)),
        ("priority"@, ValueView::I32(profile.priority)),
    ]
}

/// The `802-11-wireless` section of Wi-Fi settings.
pub open spec fn wifi_section(settings: WifiSettingsView) -> SectionView {
    seq![
        ("ssid"@, octets_value(settings.ssid)),
        ("mode"@, ValueView::Str("infrastructure"@)),
    ] + if settings.hidden {
        seq![("hidden"@, ValueView::Bool(true))]
    } else {
        SectionView::empty()
    } + if settings.security.key_management != KeyManagement::Open {
        seq![("security"@, ValueView::Str("802-11-wireless-security"@))]
    } else {
        SectionView::empty()
    }
}

/// The `802-11-wireless-security` section of Wi-Fi settings.
pub open spec fn security_section(settings: WifiSettingsView) -> SectionView {
    seq![("key-mgmt"@, ValueView::Str(mode_name(settings.security.key_management)))]
}

/// The sections that describe the transport of a profile.
pub open spec fn transport_sections(connection_type: ConnectionTypeView) -> SettingsView {
    match connection_type {
        ConnectionTypeView::Wifi(settings) => seq![("802-11-wireless"@, wifi_section(settings))]
            + if settings.security.key_management != KeyManagement::Open {
            seq![("802-11-wireless-security"@, security_section(settings))]
        } else {
            SettingsView::empty()
        },
        ConnectionTypeView::Ethernet(_) => SettingsView::empty(),
    }
}

/// The settings of a profile.
pub open spec fn settings_of(profile: ProfileView) -> SettingsView {
    seq![("connection"@, connection_section(profile))] + transport_sections(
        profile.connection_type,
    ) + seq![("ipv4"@, ip_section(profile.ipv4, true)), ("ipv6"@, ip_section(profile.ipv6, false))]
}

/// Renders a profile as a NetworkManager settings dictionary.
///
/// Secrets are never included: a Wi-Fi profile carrying a key management mode
/// only advertises the key-mgmt string, matching what NetworkManager exposes
/// to clients that lack the secret.
pub fn profile_to_settings(profile: &ConnectionProfile) -> (r: SettingsDict)
    ensures
        r@ == settings_of(profile@),
{
    let mut connection: Section = Section::new();
    connection.push("id", Value::Str(profile.id.clone()));
    connection.push("uuid", Value::Str(stable_uuid(profile.id.as_str())));
    connection.push("type", Value::Str(connection_type_string(profile)));
    if let Some(name) = &profile.device_match.interface_name {
        connection.push("interface-name", Value::Str(name.clone()));
    }
    connection.push("autoconnect", Value::Bool(profile.autoconnect));
    connection.push("priority", Value::I32(profile.priority));
    assert(connection@ =~= connection_section(profile@));
    let mut dict: SettingsDict = SettingsDict::new();
    dict.push("connection", connection);
    match &profile.connection_type {
        ConnectionType::Wifi(settings) => {
            let open: bool = matches!(settings.security.key_management, KeyManagement::Open);
            let mut wifi: Section = Section::new();
            wifi.push("ssid", val_bytes(settings.ssid.as_bytes()));
            wifi.push("mode", Value::Str("infrastructure".to_owned()));
            if settings.hidden {
                wifi.push("hidden", Value::Bool(true));
            }
            if !open {
                wifi.push("security", Value::Str("802-11-wireless-security".to_owned()));
            }
            assert(wifi@ =~= wifi_section(settings@));
            dict.push("802-11-wireless", wifi);
            if !open {
                let mut security: Section = Section::new();
                let name: &str = key_management_string(settings.security.key_management);
                security.push("key-mgmt", Value::Str(name.to_owned()));
                assert(security@ =~= security_section(settings@));
                dict.push("802-11-wireless-security", security);
            }
        },
        ConnectionType::Ethernet(_) => {},
    }
    dict.push("ipv4", ip_config_section(&profile.ipv4, true));
    dict.push("ipv6", ip_config_section(&profile.ipv6, false));
    assert(dict@ =~= settings_of(profile@));
    dict
}

// --- Settings to profile ------------------------------------------------------------------

/// A property with an unacceptable value.
pub open spec fn bad_property<T>(reason: Seq<char>) -> Result<T, FacadeErrorView> {
    Err(FacadeErrorView::InvalidProperty(reason))
}

/// A setting that is missing.
pub open spec fn missing<T>(what: Seq<char>) -> Result<T, FacadeErrorView> {
    Err(FacadeErrorView::MissingSetting(what))
}

/// Whether a result is what it should be, up to views.
pub open spec fn fails_as<T>(result: Result<T, FacadeError>, error: FacadeErrorView) -> bool {
    result matches Err(e) && e@ == error
}

/// A route to a destination, as settings describe it.
pub open spec fn static_route(
    destination: IpAddr,
    prefix_length: u8,
    gateway: Option<IpAddr>,
    metric: u32,
) -> Route {
    Route {
        family: if destination is V4 {
            IpFamily::V4
        } else {
            IpFamily::V6
        },
        destination,
        prefix_length,
        gateway,
        output_interface: None,
        metric: if metric != 0 {
            Some(metric)
        } else {
            None
        },
        kind: RouteKind::Unicast,
        scope: if prefix_length == 0 {
            RouteScope::Universe
        } else {
            RouteScope::Link
        },
    }
}

fn make_static_route(
    destination: IpAddr,
    prefix_length: u8,
    gateway: Option<IpAddr>,
    metric: u32,
) -> (r: Route)
    ensures
        r == static_route(destination, prefix_length, gateway, metric),
{
    Route {
        family: if destination.is_ipv4() {
            IpFamily::V4
        } else {
            IpFamily::V6
        },
        destination,
        prefix_length,
        gateway,
        output_interface: None,
        metric: if metric != 0 {
            Some(metric)
        } else {
            None
        },
        kind: RouteKind::Unicast,
        scope: if prefix_length == 0 {
            RouteScope::Universe
        } else {
            RouteScope::Link
        },
    }
}

/// The route that an `ipv4.routes` tuple stands for:
/// destination, prefix, next hop and metric.
pub open spec fn v4_route(entry: Seq<u32>) -> Result<Route, FacadeErrorView> {
    if entry.len() != 4 {
        bad_property("ipv4.routes entry is not [dest, prefix, next-hop, metric]"@)
    } else if entry[1] > 32 {
        bad_property("ipv4.routes prefix exceeds 32"@)
    } else {
        Ok(
            static_route(
                IpAddr::V4(Ipv4Addr::of_scalar(entry[0])),
                entry[1] as u8,
                if entry[2] != 0 {
                    Some(IpAddr::V4(Ipv4Addr::of_scalar(entry[2])))
                } else {
                    None
                },
                entry[3],
            ),
        )
    }
}

/// The route that an `ipv6.routes` tuple stands for.
pub open spec fn v6_route(entry: OctetPair) -> Result<Route, FacadeErrorView> {
    let (destination, prefix, next_hop, metric) = entry;
    if destination.len() != 16 || next_hop.len() != 16 {
        bad_property("ipv6.routes addresses are not 16 octets"@)
    } else if prefix > 128 {
        bad_property("ipv6.routes prefix exceeds 128"@)
    } else {
        let gateway = Ipv6Addr { bits: net::octets_value(next_hop) as u128 };
        Ok(
            static_route(
                IpAddr::V6(Ipv6Addr { bits: net::octets_value(destination) as u128 }),
                prefix as u8,
                if gateway.bits != 0 {
                    Some(IpAddr::V6(gateway))
                } else {
                    None
                },
                metric,
            ),
        )
    }
}

/// The routes that entries stand for, or the error of the first that stands for
/// none.
pub open spec fn all_routes<T>(
    entries: Seq<T>,
    read: spec_fn(T) -> Result<Route, FacadeErrorView>,
) -> Result<Seq<Route>, FacadeErrorView>
    decreases entries.len(),
{
    if entries.len() == 0 {
        Ok(Seq::empty())
    } else {
        match all_routes(entries.drop_last(), read) {
            Err(e) => Err(e),
            Ok(routes) => match read(entries.last()) {
                Err(e) => Err(e),
                Ok(route) => Ok(routes.push(route)),
            },
        }
    }
}

/// The static routes of a section.
pub open spec fn routes_of(section: SectionView, v4: bool) -> Result<Seq<Route>, FacadeErrorView> {
    match value::property(section, "routes"@) {
        None => Ok(Seq::empty()),
        Some(found) => if v4 {
            match value::number_lists_in(found) {
                None => bad_property("ipv4.routes is not an array of u32 tuples"@),
                Some(entries) => all_routes(entries, |entry: Seq<u32>| v4_route(entry)),
            }
        } else {
            match value::octet_pairs_in(found) {
                None => bad_property("ipv6.routes is not a(ayuayu)"@),
                Some(entries) => all_routes(entries, |entry: OctetPair| v6_route(entry)),
            }
        },
    }
}

fn invalid<T>(reason: &str) -> (r: Result<T, FacadeError>)
    ensures
        fails_as(r, FacadeErrorView::InvalidProperty(reason@)),
{
    Err(FacadeError::InvalidProperty(reason.to_owned()))
}

fn absent<T>(what: &str) -> (r: Result<T, FacadeError>)
    ensures
        fails_as(r, FacadeErrorView::MissingSetting(what@)),
{
    Err(FacadeError::MissingSetting(what.to_owned()))
}

fn read_v4_route(entry: &Vec<u32>) -> (r: Result<Route, FacadeError>)
    ensures
        match v4_route(entry@) {
            Ok(route) => r == Ok::<Route, FacadeError>(route),
            Err(e) => fails_as(r, e),
        },
{
    if entry.len() != 4 {
        return invalid("ipv4.routes entry is not [dest, prefix, next-hop, metric]");
    }
    if entry[1] > 32 {
        return invalid("ipv4.routes prefix exceeds 32");
    }
    let gateway: Option<IpAddr> = if entry[2] != 0 {
        Some(IpAddr::V4(Ipv4Addr::from_scalar(entry[2])))
    } else {
        None
    };
    Ok(
        make_static_route(
            IpAddr::V4(Ipv4Addr::from_scalar(entry[0])),
            entry[1] as u8,
            gateway,
            entry[3],
        ),
    )
}

fn sixteen(octets: &Vec<u8>) -> (r: [u8; 16])
    requires
        octets@.len() == 16,
    ensures
        r@ == octets@,
{
    let mut out: [u8; 16] = [0; 16];
    let mut i: usize = 0;
    while i < 16
        invariant
            i <= 16,
            octets@.len() == 16,
            out@.len() == 16,
            forall|j: int| 0 <= j < i ==> #[trigger] out@[j] == octets@[j],
        decreases 16 - i,
    {
        out[i] = octets[i];
        i = i + 1;
    }
    assert(out@ =~= octets@);
    out
}

fn read_v6_route(entry: &(Vec<u8>, u32, Vec<u8>, u32)) -> (r: Result<Route, FacadeError>)
    ensures
        match v6_route(value::pair_view(*entry)) {
            Ok(route) => r == Ok::<Route, FacadeError>(route),
            Err(e) => fails_as(r, e),
        },
{
    if entry.0.len() != 16 || entry.2.len() != 16 {
        return invalid("ipv6.routes addresses are not 16 octets");
    }
    if entry.1 > 128 {
        return invalid("ipv6.routes prefix exceeds 128");
    }
    let next_hop: Ipv6Addr = Ipv6Addr::from_octets(sixteen(&entry.2));
    let gateway: Option<IpAddr> = if next_hop.bits != 0 {
        Some(IpAddr::V6(next_hop))
    } else {
        None
    };
    Ok(
        make_static_route(
            IpAddr::V6(Ipv6Addr::from_octets(sixteen(&entry.0))),
            entry.1 as u8,
            gateway,
            entry.3,
        ),
    )
}

/// Parses the `ipv4.routes` (`aau`) or `ipv6.routes` (`a(ayuayu)`) setting into
/// model routes.
pub fn parse_routes(section: &Section, v4: bool) -> (r: Result<Vec<Route>, FacadeError>)
    ensures
        match routes_of(section@, v4) {
            Ok(routes) => r matches Ok(found) && found@ == routes,
            Err(e) => fails_as(r, e),
        },
{
    let found: &Value = match section.get("routes") {
        None => {
            return Ok(Vec::new());
        },
        Some(found) => found,
    };
    let mut routes: Vec<Route> = Vec::new();
    if v4 {
        let entries: Vec<Vec<u32>> = match found.number_lists() {
            None => {
                return invalid("ipv4.routes is not an array of u32 tuples");
            },
            Some(entries) => entries,
        };
        let ghost views = value::list_views(entries@);
        let ghost read = |entry: Seq<u32>| v4_route(entry);
        let mut i: usize = 0;
        assert(views.take(0) =~= Seq::empty());
        while i < entries.len()
            invariant
                i <= entries@.len(),
                views == value::list_views(entries@),
                read == (|entry: Seq<u32>| v4_route(entry)),
                routes_of(section@, v4) == all_routes(views, read),
                all_routes(views.take(i as int), read) == Ok::<Seq<Route>, FacadeErrorView>(
                    routes@,
                ),
            decreases entries@.len() - i,
        {
            proof {
                assert(views.take(i + 1).drop_last() =~= views.take(i as int));
                assert(views.take(i + 1).last() == entries@[i as int]@);
            }
            match read_v4_route(&entries[i]) {
                Ok(route) => {
                    routes.push(route);
                },
                Err(e) => {
                    proof {
                        lemma_first_error(views, read, i + 1);
                    }
                    return Err(e);
                },
            }
            i = i + 1;
        }
        assert(views.take(i as int) =~= views);
    } else {
        let entries: Vec<(Vec<u8>, u32, Vec<u8>, u32)> = match found.octet_pairs() {
            None => {
                return invalid("ipv6.routes is not a(ayuayu)");
            },
            Some(entries) => entries,
        };
        let ghost views = value::octet_pair_views(entries@);
        let ghost read = |entry: OctetPair| v6_route(entry);
        let mut i: usize = 0;
        assert(views.take(0) =~= Seq::empty());
        while i < entries.len()
            invariant
                i <= entries@.len(),
                views == value::octet_pair_views(entries@),
                read == (|entry: OctetPair| v6_route(entry)),
                routes_of(section@, v4) == all_routes(views, read),
                all_routes(views.take(i as int), read) == Ok::<Seq<Route>, FacadeErrorView>(
                    routes@,
                ),
            decreases entries@.len() - i,
        {
            proof {
                assert(views.take(i + 1).drop_last() =~= views.take(i as int));
                assert(views.take(i + 1).last() == value::pair_view(entries@[i as int]));
            }
            match read_v6_route(&entries[i]) {
                Ok(route) => {
                    routes.push(route);
                },
                Err(e) => {
                    proof {
                        lemma_first_error(views, read, i + 1);
                    }
                    return Err(e);
                },
            }
            i = i + 1;
        }
        assert(views.take(i as int) =~= views);
    }
    Ok(routes)
}

/// An error among the first entries is the error of them all.
proof fn lemma_first_error<T>(
    entries: Seq<T>,
    read: spec_fn(T) -> Result<Route, FacadeErrorView>,
    k: int,
)
    requires
        0 <= k <= entries.len(),
        all_routes(entries.take(k), read) is Err,
    ensures
        all_routes(entries, read) == all_routes(entries.take(k), read),
    decreases entries.len() - k,
{
    if k == entries.len() {
        assert(entries.take(k) =~= entries);
    } else {
        assert(entries.take(k + 1).drop_last() =~= entries.take(k));
        lemma_first_error(entries, read, k + 1);
    }
}

/// The addresses that texts stand for, without those that stand for none.
pub open spec fn readable(texts: Seq<Seq<char>>) -> Seq<IpAddr>
    decreases texts.len(),
{
    if texts.len() == 0 {
        Seq::empty()
    } else {
        match net_text::ip_of(texts.last()) {
            Some(address) => readable(texts.drop_last()).push(address),
            None => readable(texts.drop_last()),
        }
    }
}

fn parse_addresses(texts: &Vec<String>) -> (r: Vec<IpAddr>)
    ensures
        r@ == readable(text::string_views(texts@)),
{
    let ghost views = text::string_views(texts@);
    let mut r: Vec<IpAddr> = Vec::new();
    let mut i: usize = 0;
    assert(views.take(0) =~= Seq::empty());
    while i < texts.len()
        invariant
            i <= texts@.len(),
            views == text::string_views(texts@),
            r@ == readable(views.take(i as int)),
        decreases texts@.len() - i,
    {
        assert(views.take(i + 1).drop_last() =~= views.take(i as int));
        assert(views.take(i + 1).last() == texts@[i as int]@);
        match IpAddr::parse(texts[i].as_str()) {
            Some(address) => {
                r.push(address);
            },
            None => {},
        }
        i = i + 1;
    }
    assert(views.take(i as int) =~= views);
    r
}

/// The address and prefix of the first entry of `address-data`.
pub open spec fn first_address(
    entries: Seq<(ValueView, ValueView)>,
    v4: bool,
) -> Result<(IpAddr, u8), FacadeErrorView> {
    let named = match value::dict_value(entries, "address"@) {
        Some(found) => value::text_in(found),
        None => None,
    };
    let length = match value::dict_value(entries, "prefix"@) {
        Some(found) => value::u32_in(found),
        None => None,
    };
    match named {
        None => bad_property("address missing"@),
        Some(name) => match net_text::ip_of(name) {
            None => bad_property("address is not a valid IP address"@),
            Some(address) => if (address is V4) != v4 {
                bad_property("address family does not match the setting"@)
            } else {
                match length {
                    None => missing("address prefix required"@),
                    Some(length) => Ok((address, (length % 256) as u8)),
                }
            },
        },
    }
}

/// A manual IP configuration of a section, without its routes.
pub open spec fn manual_of(section: SectionView, v4: bool) -> Result<IpConfigView, FacadeErrorView> {
    let data = match value::property(section, "address-data"@) {
        Some(found) => value::dicts_in(found),
        None => None,
    };
    let gateway = match value::section_text(section, "gateway"@) {
        Some(name) => net_text::ip_of(name),
        None => None,
    };
    let servers = match value::property(section, "dns"@) {
        Some(found) => value::texts_in(found),
        None => None,
    };
    match data {
        None => missing("ip method requires address-data"@),
        Some(dicts) => if dicts.len() == 0 {
            missing("manual IP configuration requires an address"@)
        } else {
            match first_address(dicts[0], v4) {
                Err(e) => Err(e),
                Ok((address, prefix_length)) => Ok(
                    IpConfigView {
                        method: IpMethod::Manual,
                        address: Some(address),
                        prefix_length: Some(prefix_length),
                        gateway,
                        dns_servers: match servers {
                            Some(texts) => readable(texts),
                            None => Seq::empty(),
                        },
                        routes: Seq::empty(),
                    },
                ),
            }
        },
    }
}

/// The IP configuration of a section.
pub open spec fn ip_config_of(section: SectionView, v4: bool) -> Result<
    IpConfigView,
    FacadeErrorView,
> {
    let name = match value::section_text(section, "method"@) {
        Some(name) => name,
        None => "auto"@,
    };
    match method_named(name) {
        None => Err(
            FacadeErrorView::InvalidSetting("unsupported IP method "@ + text::quoted_text(name)),
        ),
        Some(method) => {
            let config = if method == IpMethod::Manual {
                manual_of(section, v4)
            } else {
                Ok(IpConfigView { method, ..IpConfigView::automatic() })
            };
            match config {
                Err(e) => Err(e),
                Ok(config) => match routes_of(section, v4) {
                    Err(e) => Err(e),
                    Ok(routes) => Ok(IpConfigView { routes, ..config }),
                },
            }
        },
    }
}

fn parse_first_address(entries: &Vec<(Value, Value)>, v4: bool) -> (r: Result<
    (IpAddr, u8),
    FacadeError,
>)
    ensures
        match first_address(value::pair_views(entries@), v4) {
            Ok(found) => r == Ok::<(IpAddr, u8), FacadeError>(found),
            Err(e) => fails_as(r, e),
        },
{
    let named: Option<&str> = match find_in_dict(entries, "address") {
        Some(found) => found.text(),
        None => None,
    };
    let name: &str = match named {
        Some(name) => name,
        None => {
            return invalid("address missing");
        },
    };
    let address: IpAddr = match IpAddr::parse(name) {
        Some(address) => address,
        None => {
            return invalid("address is not a valid IP address");
        },
    };
    if address.is_ipv4() != v4 {
        return invalid("address family does not match the setting");
    }
    let length: Option<u32> = match find_in_dict(entries, "prefix") {
        Some(found) => found.u32(),
        None => None,
    };
    match length {
        Some(length) => Ok((address, (length % 256) as u8)),
        None => absent("address prefix required"),
    }
}

fn parse_manual(section: &Section, v4: bool) -> (r: Result<IpConfig, FacadeError>)
    ensures
        match manual_of(section@, v4) {
            Ok(config) => r matches Ok(found) && found@ == config,
            Err(e) => fails_as(r, e),
        },
{
    let data: Option<Option<&Vec<(Value, Value)>>> = match section.get("address-data") {
        Some(found) => found.first_dict(),
        None => None,
    };
    let first: &Vec<(Value, Value)> = match data {
        None => {
            return absent("ip method requires address-data");
        },
        Some(None) => {
            return absent("manual IP configuration requires an address");
        },
        Some(Some(first)) => first,
    };
    let (address, prefix_length) = match parse_first_address(first, v4) {
        Err(e) => {
            return Err(e);
        },
        Ok(found) => found,
    };
    let gateway: Option<IpAddr> = match section.text("gateway") {
        Some(name) => IpAddr::parse(name),
        None => None,
    };
    let servers: Option<Vec<String>> = match section.get("dns") {
        Some(found) => found.texts(),
        None => None,
    };
    let dns_servers: Vec<IpAddr> = match servers {
        Some(texts) => parse_addresses(&texts),
        None => Vec::new(),
    };
    let config = IpConfig {
        method: IpMethod::Manual,
        address: Some(address),
        prefix_length: Some(prefix_length),
        gateway,
        dns_servers,
        routes: Vec::new(),
    };
    assert(config@ =~= manual_of(section@, v4)->Ok_0);
    Ok(config)
}

/// Builds an IP configuration from a section of settings.
pub fn parse_ip_config(section: &Section, v4: bool) -> (r: Result<IpConfig, FacadeError>)
    ensures
        match ip_config_of(section@, v4) {
            Ok(config) => r matches Ok(found) && found@ == config,
            Err(e) => fails_as(r, e),
        },
{
    let name: &str = match section.text("method") {
        Some(name) => name,
        None => "auto",
    };
    let method: IpMethod = if same_text(name, "auto") || same_text(name, "") {
        IpMethod::Automatic
    } else if same_text(name, "manual") {
        IpMethod::Manual
    } else if same_text(name, "disabled") {
        IpMethod::Disabled
    } else {
        return Err(
            FacadeError::InvalidSetting(concat2("unsupported IP method ", quoted(name).as_str())),
        );
    };
    let mut config: IpConfig = if method == IpMethod::Manual {
        match parse_manual(section, v4) {
            Err(e) => {
                return Err(e);
            },
            Ok(config) => config,
        }
    } else {
        let mut config: IpConfig = IpConfig::default();
        config.method = method;
        config
    };
    config.routes = match parse_routes(section, v4) {
        Err(e) => {
            return Err(e);
        },
        Ok(routes) => routes,
    };
    assert(config@ =~= ip_config_of(section@, v4)->Ok_0);
    Ok(config)
}

/// What settings amount to.
pub enum Decoded {
    /// A profile.
    Profile(ProfileView),
    /// An error.
    Fault(FacadeErrorView),
    /// A profile with a problem, which is the error.
    Invalid(ProfileView),
}

/// A profile, or its problem.
pub open spec fn checked(profile: ProfileView) -> Decoded {
    if profile::valid(profile) {
        Decoded::Profile(profile)
    } else {
        Decoded::Invalid(profile)
    }
}

/// The Wi-Fi profile that settings describe, without its constraints.
pub open spec fn wifi_of(dict: SettingsView, id: Seq<char>) -> Decoded {
    let name = match value::section_of(dict, "802-11-wireless-security"@) {
        Some(security) => match value::section_text(security, "key-mgmt"@) {
            Some(name) => name,
            None => "none"@,
        },
        None => "none"@,
    };
    match value::section_of(dict, "802-11-wireless"@) {
        None => Decoded::Fault(FacadeErrorView::MissingSetting("802-11-wireless"@)),
        Some(wifi) => {
            let octets = match value::property(wifi, "ssid"@) {
                Some(found) => value::octets_in(found),
                None => None,
            };
            match octets {
                None => Decoded::Fault(
                    FacadeErrorView::InvalidProperty("802-11-wireless.ssid is required"@),
                ),
                Some(ssid) => if ssid.len() > 32 {
                    Decoded::Fault(
                        FacadeErrorView::InvalidProperty("802-11-wireless.ssid exceeds 32 octets"@),
                    )
                } else {
                    match mode_named(name) {
                        None => Decoded::Fault(
                            FacadeErrorView::InvalidSetting(
                                "unsupported key management "@ + text::quoted_text(name),
                            ),
                        ),
                        Some(mode) => checked(
                            profile::plain_wifi(id, id, ssid, default_security(mode)),
                        ),
                    }
                },
            }
        },
    }
}

/// The profile that settings describe, without its constraints.
pub open spec fn transport_of(dict: SettingsView, id: Seq<char>, name: Seq<char>) -> Decoded {
    if name == "802-11-wireless"@ {
        wifi_of(dict, id)
    } else if name == "802-3-ethernet"@ {
        checked(profile::plain_ethernet(id, id))
    } else {
        Decoded::Fault(
            FacadeErrorView::InvalidSetting(
                "unsupported connection type "@ + text::quoted_text(name),
            ),
        )
    }
}

/// A profile with the constraints of a `connection` section.
pub open spec fn constrained(profile: ProfileView, connection: SectionView) -> ProfileView {
    ProfileView {
        device_match: match value::section_text(connection, "interface-name"@) {
            Some(name) => DeviceMatchView { interface_name: Some(name), ..profile.device_match },
            None => profile.device_match,
        },
        autoconnect: match value::property(connection, "autoconnect"@) {
            Some(found) => match value::bool_in(found) {
                Some(autoconnect) => autoconnect,
                None => profile.autoconnect,
            },
            None => profile.autoconnect,
        },
        priority: match value::property(connection, "priority"@) {
            Some(found) => match value::i32_in(found) {
                Some(priority) => priority,
                None => profile.priority,
            },
            None => profile.priority,
        },
        ..profile
    }
}

/// The IP configuration of settings, where there is a section for it.
pub open spec fn family_config(
    dict: SettingsView,
    name: Seq<char>,
    v4: bool,
    otherwise: IpConfigView,
) -> Result<IpConfigView, FacadeErrorView> {
    match value::section_of(dict, name) {
        Some(section) => ip_config_of(section, v4),
        None => Ok(otherwise),
    }
}

/// What settings amount to.
pub open spec fn decode(dict: SettingsView) -> Decoded {
    match value::section_of(dict, "connection"@) {
        None => Decoded::Fault(FacadeErrorView::MissingSetting("connection"@)),
        Some(connection) => match (
            value::section_text(connection, "id"@),
            value::section_text(connection, "type"@),
        ) {
            (None, _) => Decoded::Fault(
                FacadeErrorView::InvalidProperty("connection.id is required"@),
            ),
            (Some(_), None) => Decoded::Fault(FacadeErrorView::MissingSetting("connection.type"@)),
            (Some(id), Some(name)) => match transport_of(dict, id, name) {
                Decoded::Fault(e) => Decoded::Fault(e),
                Decoded::Invalid(plain) => Decoded::Invalid(plain),
                Decoded::Profile(plain) => {
                    let profile = constrained(plain, connection);
                    match family_config(dict, "ipv4"@, true, profile.ipv4) {
                        Err(e) => Decoded::Fault(e),
                        Ok(ipv4) => match family_config(dict, "ipv6"@, false, profile.ipv6) {
                            Err(e) => Decoded::Fault(e),
                            Ok(ipv6) => checked(ProfileView { ipv4, ipv6, ..profile }),
                        },
                    }
                },
            },
        },
    }
}

/// Whether a result is what settings amount to.
pub open spec fn decodes(
    decoded: Decoded,
    result: Result<ConnectionProfile, FacadeError>,
) -> bool {
    match decoded {
        Decoded::Profile(profile) => result matches Ok(found) && found@ == profile,
        Decoded::Fault(e) => fails_as(result, e),
        Decoded::Invalid(profile) => exists|e: ProfileValidationError|
            #[trigger] profile::is_validation_error(profile, e) && fails_as(
                result,
                FacadeErrorView::InvalidSetting(e.text()),
            ),
    }
}

fn parse_wifi(dict: &SettingsDict, id: &str) -> (r: Result<ConnectionProfile, FacadeError>)
    ensures
        decodes(wifi_of(dict@, id@), r),
{
    let wifi: &Section = match dict.get("802-11-wireless") {
        None => {
            return absent("802-11-wireless");
        },
        Some(wifi) => wifi,
    };
    let octets: Option<Vec<u8>> = match wifi.get("ssid") {
        Some(found) => found.octets(),
        None => None,
    };
    let ssid: Ssid = match octets {
        None => {
            return invalid("802-11-wireless.ssid is required");
        },
        Some(octets) => match Ssid::from_bytes(octets.as_slice()) {
            None => {
                return invalid("802-11-wireless.ssid exceeds 32 octets");
            },
            Some(ssid) => ssid,
        },
    };
    let name: &str = match dict.get("802-11-wireless-security") {
        Some(security) => match security.text("key-mgmt") {
            Some(name) => name,
            None => "none",
        },
        None => "none",
    };
    let security: WifiSecurity = match parse_key_management(name) {
        Err(e) => {
            return Err(e);
        },
        Ok(security) => security,
    };
    match ConnectionProfile::wifi(id, id, ssid, security) {
        Ok(profile) => Ok(profile),
        Err(e) => Err(FacadeError::from(e)),
    }
}

fn parse_transport(dict: &SettingsDict, id: &str, name: &str) -> (r: Result<
    ConnectionProfile,
    FacadeError,
>)
    ensures
        decodes(transport_of(dict@, id@, name@), r),
{
    if same_text(name, "802-11-wireless") {
        return parse_wifi(dict, id);
    }
    if same_text(name, "802-3-ethernet") {
        return match ConnectionProfile::ethernet(id, id) {
            Ok(profile) => Ok(profile),
            Err(e) => Err(FacadeError::from(e)),
        };
    }
    Err(
        FacadeError::InvalidSetting(
            concat2("unsupported connection type ", quoted(name).as_str()),
        ),
    )
}

/// Builds a validated profile from a NetworkManager settings dictionary.
///
/// Any embedded secrets in the incoming dictionary (for example `psk`) are
/// deliberately dropped; the profile only stores a [`SecretReference`].
pub fn settings_to_profile(dict: &SettingsDict) -> (r: Result<ConnectionProfile, FacadeError>)
    ensures
        decodes(decode(dict@), r),
{
    let connection: &Section = match dict.get("connection") {
        None => {
            return absent("connection");
        },
        Some(connection) => connection,
    };
    let id: &str = match connection.text("id") {
        None => {
            return invalid("connection.id is required");
        },
        Some(id) => id,
    };
    let name: &str = match connection.text("type") {
        None => {
            return absent("connection.type");
        },
        Some(name) => name,
    };
    let mut profile: ConnectionProfile = match parse_transport(dict, id, name) {
        Err(e) => {
            return Err(e);
        },
        Ok(profile) => profile,
    };
    let ghost plain = profile@;
    if let Some(interface_name) = connection.text("interface-name") {
        profile.device_match.interface_name = Some(interface_name.to_owned());
    }
    if let Some(found) = connection.get("autoconnect") {
        if let Some(autoconnect) = found.truth() {
            profile.autoconnect = autoconnect;
        }
    }
    if let Some(found) = connection.get("priority") {
        if let Some(priority) = found.i32() {
            profile.priority = priority;
        }
    }
    assert(profile@ =~= constrained(plain, connection@));
    if let Some(section) = dict.get("ipv4") {
        profile.ipv4 = match parse_ip_config(section, true) {
            Err(e) => {
                return Err(e);
            },
            Ok(config) => config,
        };
    }
    if let Some(section) = dict.get("ipv6") {
        profile.ipv6 = match parse_ip_config(section, false) {
            Err(e) => {
                return Err(e);
            },
            Ok(config) => config,
        };
    }
    match profile.validate() {
        Ok(()) => Ok(profile),
        Err(e) => Err(FacadeError::from(e)),
    }
}

// --- Laws ---------------------------------------------------------------------------------

/// Whether settings can say everything that a route says.
pub open spec fn sayable(route: Route) -> bool {
    &&& route.output_interface is None
    &&& route.metric != Some(0u32)
    &&& route.kind == RouteKind::Unicast
    &&& route.scope == if route.prefix_length == 0 {
        RouteScope::Universe
    } else {
        RouteScope::Link
    }
    &&& match (route.family, route.destination) {
        (IpFamily::V4, IpAddr::V4(_)) => {
            &&& route.prefix_length <= 32
            &&& route.gateway matches Some(gateway) ==> (gateway matches IpAddr::V4(hop)
                && hop.bits != 0)
        },
        (IpFamily::V6, IpAddr::V6(_)) => {
            &&& route.prefix_length <= 128
            &&& route.gateway matches Some(gateway) ==> (gateway matches IpAddr::V6(hop)
                && hop.bits != 0)
        },
        _ => false,
    }
}

proof fn lemma_scalar_zero(a: Ipv4Addr)
    ensures
        a.scalar() == 0 <==> a.bits == 0,
{
    net::lemma_scalar(a, 0);
    net::lemma_scalar(Ipv4Addr { bits: 0 }, 0);
}

proof fn lemma_octets_back(a: Ipv6Addr)
    ensures
        a.octets_view().len() == 16,
        net::octets_value(a.octets_view()) == a.bits,
{
    net::lemma_bounds();
    net::lemma_octets(a.bits as nat, 16);
}

/// A route that settings can say is read back from its entry.
pub proof fn lemma_route_round_trip(route: Route)
    requires
        sayable(route),
    ensures
        route.family == IpFamily::V4 ==> v4_route(v4_numbers(route)) == Ok::<Route, FacadeErrorView>(
            route,
        ),
        route.family == IpFamily::V6 ==> v6_route(v6_octets(route)) == Ok::<Route, FacadeErrorView>(
            route,
        ),
{
    match route.destination {
        IpAddr::V4(destination) => {
            net::lemma_scalar(destination, 0);
            if let Some(IpAddr::V4(hop)) = route.gateway {
                net::lemma_scalar(hop, 0);
                lemma_scalar_zero(hop);
            }
            let n = v4_numbers(route);
            assert(n[0] == destination.scalar());
            assert(n[1] as u8 == route.prefix_length);
        },
        IpAddr::V6(destination) => {
            lemma_octets_back(destination);
            lemma_octets_back(unspecified_v6());
            if let Some(IpAddr::V6(hop)) = route.gateway {
                lemma_octets_back(hop);
            }
            let p = v6_octets(route);
            assert(p.1 as u8 == route.prefix_length);
        },
    }
}

proof fn lemma_all_routes<T>(
    entries: Seq<T>,
    read: spec_fn(T) -> Result<Route, FacadeErrorView>,
    routes: Seq<Route>,
)
    requires
        entries.len() == routes.len(),
        forall|i: int|
            0 <= i < entries.len() ==> read(#[trigger] entries[i]) == Ok::<Route, FacadeErrorView>(
                routes[i],
            ),
    ensures
        all_routes(entries, read) == Ok::<Seq<Route>, FacadeErrorView>(routes),
    decreases entries.len(),
{
    if entries.len() > 0 {
        let before = entries.drop_last();
        assert forall|i: int| 0 <= i < before.len() implies read(#[trigger] before[i]) == Ok::<
            Route,
            FacadeErrorView,
        >(routes.drop_last()[i]) by {
            assert(before[i] == entries[i]);
        }
        lemma_all_routes(before, read, routes.drop_last());
        assert(routes.drop_last().push(routes.last()) =~= routes);
        assert(read(entries[entries.len() - 1]) == Ok::<Route, FacadeErrorView>(
            routes[entries.len() - 1],
        ));
    } else {
        assert(routes =~= Seq::empty());
    }
}

proof fn lemma_of_family(routes: Seq<Route>, family: IpFamily)
    ensures
        forall|i: int|
            0 <= i < ip_engine::of_family(routes, family).len() ==> {
                let route = #[trigger] ip_engine::of_family(routes, family)[i];
                route.family == family && routes.contains(route)
            },
    decreases routes.len(),
{
    if routes.len() > 0 {
        let rest = routes.drop_last();
        let kept = ip_engine::of_family(rest, family);
        lemma_of_family(rest, family);
        assert forall|i: int| 0 <= i < ip_engine::of_family(routes, family).len() implies {
            let route = #[trigger] ip_engine::of_family(routes, family)[i];
            route.family == family && routes.contains(route)
        } by {
            let route = ip_engine::of_family(routes, family)[i];
            if i < kept.len() {
                assert(kept[i] == route);
                assert(rest.contains(route));
                let j = choose|j: int| 0 <= j < rest.len() && rest[j] == route;
                assert(routes[j] == route);
            } else {
                assert(routes[routes.len() - 1] == route);
            }
        }
    }
}

pub(crate) proof fn lemma_octets_read(octets: Seq<u8>)
    ensures
        value::octets_in(octets_value(octets)) == Some(octets),
{
    let items = octets_value(octets)->Array_0;
    assert forall|i: int| 0 <= i < items.len() implies value::bare(#[trigger] items[i]) is U8 by {
        assert(items[i] == ValueView::U8(octets[i]));
    }
    assert(value::octets_in(octets_value(octets))->0 =~= octets);
}

proof fn lemma_numbers_read(numbers: Seq<u32>)
    ensures
        value::numbers_in(numbers_value(numbers)) == Some(numbers),
        value::bare(numbers_value(numbers)) == numbers_value(numbers),
{
    let items = numbers_value(numbers)->Array_0;
    assert forall|i: int| 0 <= i < items.len() implies value::bare(#[trigger] items[i]) is U32 by {
        assert(items[i] == ValueView::U32(numbers[i]));
    }
    assert(value::numbers_in(numbers_value(numbers))->0 =~= numbers);
}

/// The routes of a family that settings can say are read back from their value.
proof fn lemma_routes_read(routes: Seq<Route>, v4: bool)
    requires
        forall|i: int|
            0 <= i < routes.len() && (#[trigger] routes[i]).family == (if v4 {
                IpFamily::V4
            } else {
                IpFamily::V6
            }) ==> sayable(routes[i]),
    ensures
        v4 ==> match value::number_lists_in(routes_value(routes, true)) {
            Some(entries) => all_routes(entries, |entry: Seq<u32>| v4_route(entry)) == Ok::<
                Seq<Route>,
                FacadeErrorView,
            >(ip_engine::of_family(routes, IpFamily::V4)),
            None => false,
        },
        !v4 ==> match value::octet_pairs_in(routes_value(routes, false)) {
            Some(entries) => all_routes(entries, |entry: OctetPair| v6_route(entry)) == Ok::<
                Seq<Route>,
                FacadeErrorView,
            >(ip_engine::of_family(routes, IpFamily::V6)),
            None => false,
        },
{
    if v4 {
        let kept = ip_engine::of_family(routes, IpFamily::V4);
        lemma_of_family(routes, IpFamily::V4);
        let items = routes_value(routes, true)->Array_0;
        assert forall|i: int| 0 <= i < items.len() implies value::numbers_in(
            value::bare(#[trigger] items[i]),
        ) == Some(v4_numbers(kept[i])) by {
            assert(items[i] == numbers_value(v4_numbers(kept[i])));
            lemma_numbers_read(v4_numbers(kept[i]));
        }
        let entries = value::number_lists_in(routes_value(routes, true))->0;
        let read = |entry: Seq<u32>| v4_route(entry);
        assert forall|i: int| 0 <= i < entries.len() implies read(#[trigger] entries[i]) == Ok::<
            Route,
            FacadeErrorView,
        >(kept[i]) by {
            assert(entries[i] == value::numbers_in(value::bare(items[i]))->0);
            assert(routes.contains(kept[i]));
            lemma_route_round_trip(kept[i]);
        }
        lemma_all_routes(entries, read, kept);
    } else {
        let kept = ip_engine::of_family(routes, IpFamily::V6);
        lemma_of_family(routes, IpFamily::V6);
        let items = routes_value(routes, false)->Array_0;
        assert forall|i: int| 0 <= i < items.len() implies value::octet_pair_in(
            value::bare(#[trigger] items[i]),
        ) == Some(v6_octets(kept[i])) by {
            assert(items[i] == octet_pair_value(v6_octets(kept[i])));
            lemma_octets_read(v6_octets(kept[i]).0);
            lemma_octets_read(v6_octets(kept[i]).2);
        }
        let entries = value::octet_pairs_in(routes_value(routes, false))->0;
        let read = |entry: OctetPair| v6_route(entry);
        assert forall|i: int| 0 <= i < entries.len() implies read(#[trigger] entries[i]) == Ok::<
            Route,
            FacadeErrorView,
        >(kept[i]) by {
            assert(entries[i] == value::octet_pair_in(value::bare(items[i]))->0);
            assert(routes.contains(kept[i]));
            lemma_route_round_trip(kept[i]);
        }
        lemma_all_routes(entries, read, kept);
    }
}

/// What settings keep of an IP configuration: addresses only of the manual method,
/// and only the routes of the family.
pub open spec fn kept_config(config: IpConfigView, v4: bool) -> IpConfigView {
    let routes = ip_engine::of_family(
        config.routes,
        if v4 {
            IpFamily::V4
        } else {
            IpFamily::V6
        },
    );
    if config.method == IpMethod::Manual {
        IpConfigView { routes, ..config }
    } else {
        IpConfigView { method: config.method, routes, ..IpConfigView::automatic() }
    }
}

/// Whether settings can say the routes of a configuration that belong to its
/// family.
pub open spec fn sayable_routes(config: IpConfigView, v4: bool) -> bool {
    forall|i: int|
        0 <= i < config.routes.len() && (#[trigger] config.routes[i]).family == (if v4 {
            IpFamily::V4
        } else {
            IpFamily::V6
        }) ==> sayable(config.routes[i])
}

proof fn lemma_readable(addresses: Seq<IpAddr>)
    ensures
        match value::texts_in(addresses_value(addresses)) {
            Some(texts) => readable(texts) == addresses,
            None => false,
        },
{
    let items = addresses_value(addresses)->Array_0;
    assert forall|i: int| 0 <= i < items.len() implies #[trigger] items[i] is Str by {
        assert(items[i] == ValueView::Str(addresses[i].text()));
    }
    let texts = value::texts_in(addresses_value(addresses))->0;
    assert forall|i: int| 0 <= i < texts.len() implies #[trigger] texts[i] == addresses[i].text() by {
        assert(items[i] == ValueView::Str(addresses[i].text()));
    }
    lemma_readable_texts(texts, addresses);
}

proof fn lemma_readable_texts(texts: Seq<Seq<char>>, addresses: Seq<IpAddr>)
    requires
        texts.len() == addresses.len(),
        forall|i: int| 0 <= i < texts.len() ==> #[trigger] texts[i] == addresses[i].text(),
    ensures
        readable(texts) == addresses,
    decreases texts.len(),
{
    if texts.len() > 0 {
        let a = addresses.last();
        assert(texts[texts.len() - 1] == a.text());
        net_text::lemma_ip_of_text(a);
        lemma_readable_texts(texts.drop_last(), addresses.drop_last());
        assert(addresses.drop_last().push(a) =~= addresses);
    } else {
        assert(addresses =~= Seq::empty());
    }
}

proof fn lemma_address_read(address: IpAddr, length: u8, v4: bool)
    requires
        (address is V4) == v4,
    ensures
        first_address(address_dict(address, Some(length))->Dict_0, v4) == Ok::<
            (IpAddr, u8),
            FacadeErrorView,
        >((address, length)),
        value::is_text_dict(address_dict(address, Some(length))),
{
    let entries = address_dict(address, Some(length))->Dict_0;
    reveal_strlit("address");
    reveal_strlit("prefix");
    assert("address"@.len() == 7 && "prefix"@.len() == 6);
    assert(entries[0] == (ValueView::Str("address"@), variant_text(address.text())));
    assert(entries[1] == (ValueView::Str("prefix"@), variant_number(length as u32)));
    assert(value::dict_value(entries, "address"@) == Some(ValueView::Str(address.text())));
    assert(entries.skip(1)[0] == entries[1]);
    assert(value::dict_value(entries.skip(1), "prefix"@) == Some(ValueView::U32(length as u32)));
    assert(value::dict_value(entries, "prefix"@) == Some(ValueView::U32(length as u32)));
    net_text::lemma_ip_of_text(address);
}

/// An IP configuration without problems, whose routes settings can say, is read
/// back from its section, as far as settings keep it.
pub proof fn lemma_ip_config_round_trip(config: IpConfigView, v4: bool)
    requires
        profile::ip_problem(config, v4) is None,
        sayable_routes(config, v4),
    ensures
        ip_config_of(ip_section(config, v4), v4) == Ok::<IpConfigView, FacadeErrorView>(
            kept_config(config, v4),
        ),
        profile::ip_problem(kept_config(config, v4), v4) is None,
{
    let section = ip_section(config, v4);
    lemma_ip_keys();
    let n = section.len() as int;
    let with_routes = config.routes.len() > 0;
    let m = if with_routes {
        n - 1
    } else {
        n
    };
    let manual = config.method == IpMethod::Manual;
    value::lemma_place_is(section, "method"@, 0);
    lemma_routes_read(config.routes, v4);
    if with_routes {
        assert(section[m] == ("routes"@, routes_value(config.routes, v4)));
    }
    assert forall|i: int| 0 <= i < m implies (#[trigger] section[i]).0 != "routes"@ by {
        if i > 0 {
            assert(manual);
            assert(section[i] == manual_properties(config)[i - 1]);
        }
    }
    value::lemma_place_is(section, "routes"@, m);
    assert(routes_of(section, v4) == Ok::<Seq<Route>, FacadeErrorView>(
        kept_config(config, v4).routes,
    )) by {
        if !with_routes {
            assert(config.routes =~= Seq::empty());
            assert(kept_config(config, v4).routes =~= Seq::empty());
        }
    }
    if manual {
        lemma_manual_round_trip(config, v4);
    }
}

pub(crate) proof fn lemma_ip_keys()
    ensures
        "method"@ != "routes"@,
        "method"@ != "address-data"@,
        "method"@ != "gateway"@,
        "method"@ != "dns"@,
        "routes"@ != "address-data"@,
        "routes"@ != "gateway"@,
        "routes"@ != "dns"@,
        "address-data"@ != "gateway"@,
        "address-data"@ != "dns"@,
        "gateway"@ != "dns"@,
        method_named("auto"@) == Some(IpMethod::Automatic),
        method_named("manual"@) == Some(IpMethod::Manual),
        method_named("disabled"@) == Some(IpMethod::Disabled),
{
    reveal_strlit("method");
    reveal_strlit("routes");
    reveal_strlit("address-data");
    reveal_strlit("gateway");
    reveal_strlit("dns");
    reveal_strlit("auto");
    reveal_strlit("manual");
    reveal_strlit("disabled");
    reveal_strlit("");
    assert("method"@[0] == 'm' && "routes"@[0] == 'r');
    assert("address-data"@.len() == 12 && "gateway"@.len() == 7 && "dns"@.len() == 3);
    assert("auto"@.len() == 4 && "manual"@.len() == 6 && "disabled"@.len() == 8 && ""@.len() == 0);
}

proof fn lemma_manual_round_trip(config: IpConfigView, v4: bool)
    requires
        profile::ip_problem(config, v4) is None,
        config.method == IpMethod::Manual,
    ensures
        manual_of(ip_section(config, v4), v4) == Ok::<IpConfigView, FacadeErrorView>(
            IpConfigView { routes: Seq::empty(), ..config },
        ),
{
    let section = ip_section(config, v4);
    let address = config.address->0;
    let length = config.prefix_length->0;
    let dict = address_dict(address, Some(length));
    lemma_ip_keys();
    lemma_address_read(address, length, v4);
    let data = ValueView::Array(seq![dict]);
    assert(section[1] == ("address-data"@, data));
    value::lemma_place_is(section, "address-data"@, 1);
    assert(value::bare(seq![dict][0]) == dict);
    assert(value::dicts_in(data) is Some);
    assert(value::dicts_in(data)->0[0] == dict->Dict_0);
    let g = 2int;
    let d = if config.gateway is Some {
        3int
    } else {
        2int
    };
    let last = if config.dns_servers.len() > 0 {
        d + 1
    } else {
        d
    };
    if config.gateway is Some {
        assert(section[g] == ("gateway"@, ValueView::Str(config.gateway->0.text())));
        value::lemma_place_is(section, "gateway"@, g);
        net_text::lemma_ip_of_text(config.gateway->0);
    } else {
        assert forall|i: int| 0 <= i < section.len() implies (#[trigger] section[i]).0
            != "gateway"@ by {}
        value::lemma_place_is(section, "gateway"@, section.len() as int);
    }
    if config.dns_servers.len() > 0 {
        assert(section[d] == ("dns"@, addresses_value(config.dns_servers)));
        value::lemma_place_is(section, "dns"@, d);
        lemma_readable(config.dns_servers);
    } else {
        assert forall|i: int| 0 <= i < section.len() implies (#[trigger] section[i]).0
            != "dns"@ by {}
        value::lemma_place_is(section, "dns"@, section.len() as int);
        assert(config.dns_servers =~= Seq::empty());
    }
}

/// What settings keep of a profile. They say neither a name beside the id, nor
/// the access point to prefer, nor which secret is meant, nor the address of the
/// device, and they describe what is enabled.
pub open spec fn kept_profile(profile: ProfileView) -> ProfileView {
    ProfileView {
        id: profile.id,
        name: profile.id,
        connection_type: match profile.connection_type {
            ConnectionTypeView::Wifi(settings) => ConnectionTypeView::Wifi(
                WifiSettingsView {
                    ssid: settings.ssid,
                    bssid: None,
                    hidden: false,
                    security: default_security(settings.security.key_management),
                },
            ),
            ConnectionTypeView::Ethernet(_) => ConnectionTypeView::Ethernet(
                EthernetSettings::none(),
            ),
        },
        device_match: DeviceMatchView {
            interface_name: profile.device_match.interface_name,
            mac_address: None,
        },
        priority: profile.priority,
        autoconnect: profile.autoconnect,
        enabled: true,
        ipv4: kept_config(profile.ipv4, true),
        ipv6: kept_config(profile.ipv6, false),
    }
}

pub(crate) proof fn lemma_section_names()
    ensures
        "connection"@ != "802-11-wireless"@,
        "connection"@ != "802-11-wireless-security"@,
        "connection"@ != "ipv4"@,
        "connection"@ != "ipv6"@,
        "802-11-wireless"@ != "802-11-wireless-security"@,
        "802-11-wireless"@ != "ipv4"@,
        "802-11-wireless"@ != "ipv6"@,
        "802-11-wireless-security"@ != "ipv4"@,
        "802-11-wireless-security"@ != "ipv6"@,
        "ipv4"@ != "ipv6"@,
        "802-11-wireless"@ != "802-3-ethernet"@,
{
    reveal_strlit("connection");
    reveal_strlit("802-11-wireless");
    reveal_strlit("802-11-wireless-security");
    reveal_strlit("ipv4");
    reveal_strlit("ipv6");
    reveal_strlit("802-3-ethernet");
    assert("connection"@.len() == 10 && "802-11-wireless"@.len() == 15
        && "802-11-wireless-security"@.len() == 24 && "802-3-ethernet"@.len() == 14);
    assert("ipv4"@[3] == '4' && "ipv6"@[3] == '6' && "ipv4"@.len() == 4 && "ipv6"@.len() == 4);
}

proof fn lemma_modes(mode: KeyManagement)
    ensures
        mode_named(mode_name(mode)) == Some(mode),
{
    reveal_strlit("none");
    reveal_strlit("");
    reveal_strlit("owe");
    reveal_strlit("wpa-psk");
    reveal_strlit("sae");
    reveal_strlit("wpa-eap");
    assert("none"@.len() == 4 && ""@.len() == 0);
    assert("owe"@[0] == 'o' && "sae"@[0] == 's' && "owe"@.len() == 3 && "sae"@.len() == 3);
    assert("wpa-psk"@[4] == 'p' && "wpa-eap"@[4] == 'e' && "wpa-psk"@.len() == 7
        && "wpa-eap"@.len() == 7);
}

/// The `connection` section is read back.
proof fn lemma_connection_read(profile: ProfileView, plain: ProfileView)
    requires
        plain.device_match.interface_name is None,
    ensures
        value::section_text(connection_section(profile), "id"@) == Some(profile.id),
        value::section_text(connection_section(profile), "type"@) == Some(
            transport_name(profile.connection_type),
        ),
        constrained(plain, connection_section(profile)) == (ProfileView {
            device_match: DeviceMatchView {
                interface_name: profile.device_match.interface_name,
                ..plain.device_match
            },
            autoconnect: profile.autoconnect,
            priority: profile.priority,
            ..plain
        }),
{
    let section = connection_section(profile);
    reveal_strlit("id");
    reveal_strlit("uuid");
    reveal_strlit("type");
    reveal_strlit("interface-name");
    reveal_strlit("autoconnect");
    reveal_strlit("priority");
    assert("id"@.len() == 2 && "uuid"@.len() == 4 && "type"@.len() == 4 && "interface-name"@.len()
        == 14 && "autoconnect"@.len() == 11 && "priority"@.len() == 8);
    assert("uuid"@[0] == 'u' && "type"@[0] == 't');
    let named = profile.device_match.interface_name is Some;
    let a = if named {
        4int
    } else {
        3int
    };
    assert(section[0].0 == "id"@ && section[1].0 == "uuid"@ && section[2].0 == "type"@);
    assert(section[a].0 == "autoconnect"@ && section[a + 1].0 == "priority"@);
    assert(section.len() == a + 2);
    value::lemma_place_is(section, "id"@, 0);
    value::lemma_place_is(section, "type"@, 2);
    if named {
        assert(section[3] == (
            "interface-name"@,
            ValueView::Str(profile.device_match.interface_name->0),
        ));
        value::lemma_place_is(section, "interface-name"@, 3);
    } else {
        value::lemma_place_is(section, "interface-name"@, section.len() as int);
    }
    value::lemma_place_is(section, "autoconnect"@, a);
    value::lemma_place_is(section, "priority"@, a + 1);
    assert(constrained(plain, section) =~= (ProfileView {
        device_match: DeviceMatchView {
            interface_name: profile.device_match.interface_name,
            ..plain.device_match
        },
        autoconnect: profile.autoconnect,
        priority: profile.priority,
        ..plain
    }));
}

/// The sections of the transport are read back.
proof fn lemma_transport_read(profile: ProfileView)
    requires
        profile::valid(profile),
    ensures
        transport_of(
            settings_of(profile),
            profile.id,
            transport_name(profile.connection_type),
        ) == Decoded::Profile(
            match profile.connection_type {
                ConnectionTypeView::Wifi(settings) => profile::plain_wifi(
                    profile.id,
                    profile.id,
                    settings.ssid,
                    default_security(settings.security.key_management),
                ),
                ConnectionTypeView::Ethernet(_) => profile::plain_ethernet(
                    profile.id,
                    profile.id,
                ),
            },
        ),
{
    let dict = settings_of(profile);
    lemma_section_names();
    reveal_strlit("nmd-enterprise");
    assert("nmd-enterprise"@.len() > 0);
    match profile.connection_type {
        ConnectionTypeView::Ethernet(_) => {},
        ConnectionTypeView::Wifi(settings) => {
            let mode = settings.security.key_management;
            let wifi = wifi_section(settings);
            assert(dict[0].0 == "connection"@);
            assert(dict[1] == ("802-11-wireless"@, wifi));
            value::lemma_section_place_is(dict, "802-11-wireless"@, 1);
            assert(wifi[0] == ("ssid"@, octets_value(settings.ssid)));
            value::lemma_place_is(wifi, "ssid"@, 0);
            lemma_octets_read(settings.ssid);
            lemma_modes(mode);
            if mode == KeyManagement::Open {
                assert(dict[2].0 == "ipv4"@ && dict[3].0 == "ipv6"@);
                assert(dict.len() == 4);
                value::lemma_section_place_is(dict, "802-11-wireless-security"@, 4);
            } else {
                let security = security_section(settings);
                assert(dict[2] == ("802-11-wireless-security"@, security));
                value::lemma_section_place_is(dict, "802-11-wireless-security"@, 2);
                assert(security[0] == ("key-mgmt"@, ValueView::Str(mode_name(mode))));
                value::lemma_place_is(security, "key-mgmt"@, 0);
            }
        },
    }
}

/// The sections of the settings of a profile are found by their names.
proof fn lemma_sections_found(profile: ProfileView)
    ensures
        value::section_of(settings_of(profile), "connection"@) == Some(connection_section(profile)),
        value::section_of(settings_of(profile), "ipv4"@) == Some(ip_section(profile.ipv4, true)),
        value::section_of(settings_of(profile), "ipv6"@) == Some(ip_section(profile.ipv6, false)),
{
    let dict = settings_of(profile);
    lemma_section_names();
    value::lemma_section_place_is(dict, "connection"@, 0);
    let n = dict.len() as int;
    assert(dict[n - 2] == ("ipv4"@, ip_section(profile.ipv4, true)));
    assert(dict[n - 1] == ("ipv6"@, ip_section(profile.ipv6, false)));
    value::lemma_section_place_is(dict, "ipv4"@, n - 2);
    value::lemma_section_place_is(dict, "ipv6"@, n - 1);
}

/// What settings keep of a valid profile is valid.
proof fn lemma_kept_is_valid(profile: ProfileView)
    requires
        profile::valid(profile),
    ensures
        profile::valid(kept_profile(profile)),
{
    reveal_strlit("nmd-enterprise");
    assert("nmd-enterprise"@.len() > 0);
}

/// A valid profile, whose routes settings can say, is read back from its
/// settings, as far as settings keep it.
pub proof fn lemma_settings_round_trip(profile: ProfileView)
    requires
        profile::valid(profile),
        sayable_routes(profile.ipv4, true),
        sayable_routes(profile.ipv6, false),
    ensures
        decode(settings_of(profile)) == Decoded::Profile(kept_profile(profile)),
{
    let connection = connection_section(profile);
    let plain = match profile.connection_type {
        ConnectionTypeView::Wifi(settings) => profile::plain_wifi(
            profile.id,
            profile.id,
            settings.ssid,
            default_security(settings.security.key_management),
        ),
        ConnectionTypeView::Ethernet(_) => profile::plain_ethernet(profile.id, profile.id),
    };
    lemma_sections_found(profile);
    lemma_connection_read(profile, plain);
    lemma_transport_read(profile);
    lemma_ip_config_round_trip(profile.ipv4, true);
    lemma_ip_config_round_trip(profile.ipv6, false);
    let kept = kept_profile(profile);
    let found = ProfileView {
        ipv4: kept.ipv4,
        ipv6: kept.ipv6,
        ..constrained(plain, connection)
    };
    assert(found =~= kept);
    lemma_kept_is_valid(profile);
}

/// Settings never hold secrets: what is rendered does not depend on which secret
/// or identity a profile refers to.
pub proof fn lemma_secrets_are_never_emitted(
    profile: ProfileView,
    settings: WifiSettingsView,
    secret: Option<SecretReferenceView>,
    identity: Option<Seq<char>>,
)
    requires
        profile.connection_type == ConnectionTypeView::Wifi(settings),
    ensures
        settings_of(
            ProfileView {
                connection_type: ConnectionTypeView::Wifi(
                    WifiSettingsView {
                        security: WifiSecurityView { secret, identity, ..settings.security },
                        ..settings
                    },
                ),
                ..profile
            },
        ) == settings_of(profile),
        value::property(security_section(settings), "psk"@) is None,
{
    let other = WifiSettingsView {
        security: WifiSecurityView { secret, identity, ..settings.security },
        ..settings
    };
    let changed = ProfileView { connection_type: ConnectionTypeView::Wifi(other), ..profile };
    assert(wifi_section(other) =~= wifi_section(settings));
    assert(security_section(other) =~= security_section(settings));
    assert(connection_section(changed) =~= connection_section(profile));
    assert(transport_sections(changed.connection_type) =~= transport_sections(
        profile.connection_type,
    ));
    assert(settings_of(changed) =~= settings_of(profile));
    reveal_strlit("psk");
    reveal_strlit("key-mgmt");
    assert("psk"@.len() == 3 && "key-mgmt"@.len() == 8);
    value::lemma_place_is(security_section(settings), "psk"@, 1);
}

/// Secrets in incoming settings are dropped: setting `psk` changes nothing of what
/// the settings amount to.
pub proof fn lemma_incoming_secrets_are_dropped(dict: SettingsView, security: SectionView, psk: ValueView)
    requires
        value::section_of(dict, "802-11-wireless-security"@) == Some(security),
    ensures
        decode(
            value::with_section(
                dict,
                "802-11-wireless-security"@,
                value::with_property(security, "psk"@, psk),
            ),
        ) == decode(dict),
{
    let name = "802-11-wireless-security"@;
    let k = value::section_place(dict, name);
    let filled = value::with_property(security, "psk"@, psk);
    let changed = value::with_section(dict, name, filled);
    value::lemma_section_place(dict, name);
    value::lemma_section_place_is(changed, name, k);
    lemma_section_names();
    lemma_other_section(dict, changed, k, "connection"@);
    lemma_other_section(dict, changed, k, "802-11-wireless"@);
    lemma_other_section(dict, changed, k, "ipv4"@);
    lemma_other_section(dict, changed, k, "ipv6"@);
    reveal_strlit("psk");
    reveal_strlit("key-mgmt");
    assert("psk"@.len() == 3 && "key-mgmt"@.len() == 8);
    let p = value::place_of(security, "psk"@);
    let q = value::place_of(security, "key-mgmt"@);
    value::lemma_place(security, "psk"@);
    value::lemma_place(security, "key-mgmt"@);
    if q < security.len() {
        assert(p != q);
        assert(filled[q] == security[q]);
        value::lemma_place_is(filled, "key-mgmt"@, q);
    } else {
        value::lemma_place_is(filled, "key-mgmt"@, filled.len() as int);
    }
    assert(value::section_text(filled, "key-mgmt"@) == value::section_text(
        security,
        "key-mgmt"@,
    ));
}

/// A section is found where it was when another one changed.
proof fn lemma_other_section(dict: SettingsView, changed: SettingsView, k: int, name: Seq<char>)
    requires
        0 <= k < dict.len(),
        changed.len() == dict.len(),
        forall|i: int| 0 <= i < dict.len() && i != k ==> #[trigger] changed[i] == dict[i],
        changed[k].0 == dict[k].0,
        dict[k].0 != name,
    ensures
        value::section_of(changed, name) == value::section_of(dict, name),
{
    let p = value::section_place(dict, name);
    value::lemma_section_place(dict, name);
    assert forall|i: int| 0 <= i < p implies (#[trigger] changed[i]).0 != name by {
        assert(dict[i].0 != name);
    }
    if p < dict.len() {
        assert(changed[p] == dict[p]);
    }
    value::lemma_section_place_is(changed, name, p);
}

/// Whether a route is one that settings of a family describe.
pub open spec fn described(route: Route, v4: bool) -> bool {
    sayable(route) && route.family == if v4 {
        IpFamily::V4
    } else {
        IpFamily::V6
    }
}

proof fn lemma_v4_route_described(entry: Seq<u32>)
    requires
        v4_route(entry) is Ok,
    ensures
        described(v4_route(entry)->Ok_0, true),
{
    if entry[2] != 0 {
        let hop = Ipv4Addr::of_scalar(entry[2]);
        net::lemma_scalar(hop, entry[2]);
        lemma_scalar_zero(hop);
    }
}

proof fn lemma_v6_route_described(entry: OctetPair)
    requires
        v6_route(entry) is Ok,
    ensures
        described(v6_route(entry)->Ok_0, false),
{
}

proof fn lemma_all_described<T>(
    entries: Seq<T>,
    read: spec_fn(T) -> Result<Route, FacadeErrorView>,
    v4: bool,
)
    requires
        all_routes(entries, read) is Ok,
        forall|entry: T| (#[trigger] read(entry)) is Ok ==> described(read(entry)->Ok_0, v4),
    ensures
        forall|i: int|
            0 <= i < all_routes(entries, read)->Ok_0.len() ==> described(
                #[trigger] all_routes(entries, read)->Ok_0[i],
                v4,
            ),
    decreases entries.len(),
{
    if entries.len() > 0 {
        lemma_all_described(entries.drop_last(), read, v4);
        assert(described(read(entries.last())->Ok_0, v4));
    }
}

proof fn lemma_family_of_all(routes: Seq<Route>, v4: bool)
    requires
        forall|i: int| 0 <= i < routes.len() ==> described(#[trigger] routes[i], v4),
    ensures
        ip_engine::of_family(
            routes,
            if v4 {
                IpFamily::V4
            } else {
                IpFamily::V6
            },
        ) == routes,
    decreases routes.len(),
{
    if routes.len() > 0 {
        lemma_family_of_all(routes.drop_last(), v4);
        assert(described(routes[routes.len() - 1], v4));
        assert(routes.drop_last().push(routes.last()) =~= routes);
    } else {
        assert(routes =~= Seq::empty());
    }
}

/// Settings keep everything of an IP configuration that came from settings.
proof fn lemma_decoded_config(section: SectionView, v4: bool)
    requires
        ip_config_of(section, v4) is Ok,
    ensures
        sayable_routes(ip_config_of(section, v4)->Ok_0, v4),
        kept_config(ip_config_of(section, v4)->Ok_0, v4) == ip_config_of(section, v4)->Ok_0,
{
    let config = ip_config_of(section, v4)->Ok_0;
    let routes = routes_of(section, v4)->Ok_0;
    if let Some(found) = value::property(section, "routes"@) {
        if v4 {
            let read = |entry: Seq<u32>| v4_route(entry);
            assert forall|entry: Seq<u32>| (#[trigger] read(entry)) is Ok implies described(
                read(entry)->Ok_0,
                v4,
            ) by {
                lemma_v4_route_described(entry);
            }
            lemma_all_described(value::number_lists_in(found)->0, read, v4);
        } else {
            let read = |entry: OctetPair| v6_route(entry);
            assert forall|entry: OctetPair| (#[trigger] read(entry)) is Ok implies described(
                read(entry)->Ok_0,
                v4,
            ) by {
                lemma_v6_route_described(entry);
            }
            lemma_all_described(value::octet_pairs_in(found)->0, read, v4);
        }
    }
    assert forall|i: int| 0 <= i < routes.len() implies described(#[trigger] routes[i], v4) by {}
    lemma_family_of_all(routes, v4);
    assert(kept_config(config, v4) =~= config);
}

/// A profile that came from settings says all that its own settings say: reading
/// them again gives the same profile.
pub proof fn lemma_decoded_profile_is_stable(dict: SettingsView, profile: ProfileView)
    requires
        decode(dict) == Decoded::Profile(profile),
    ensures
        decode(settings_of(profile)) == Decoded::Profile(profile),
{
    let automatic = IpConfigView::automatic();
    assert(kept_config(automatic, true) =~= automatic);
    assert(kept_config(automatic, false) =~= automatic);
    if let Some(section) = value::section_of(dict, "ipv4"@) {
        lemma_decoded_config(section, true);
    }
    if let Some(section) = value::section_of(dict, "ipv6"@) {
        lemma_decoded_config(section, false);
    }
    lemma_settings_round_trip(profile);
    assert(kept_profile(profile) =~= profile);
}

} // verus!
