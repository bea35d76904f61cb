//! What is published on D-Bus.
//!
//! This module renders the daemon's domain state behind the
//! `org.freedesktop.NetworkManager` well-known name. Properties and methods
//! match NetworkManager's D-Bus API so existing clients can talk to the daemon
//! without changes. There is no second model: every value is derived from the
//! live domain or kernel state.

pub mod access_point;
pub mod active_connection;
pub mod convert;
pub mod device;
pub mod error;
pub mod ipconfig;
pub mod object_path;
pub mod root;
pub mod settings;
pub mod shared;
pub mod value;

use vstd::prelude::*;

use crate::connection::activation::ActiveConnectionId;
use crate::text;
use crate::text::{concat2, concat3, decimal_text, fixed_hex_text, signed_text};

verus! {

// --- Well-known object paths ----------------------------------------------

/// The object path used for "no object" references.
pub const NO_OBJECT: &'static str = "/";

pub const ROOT_PATH: &'static str = "/org/freedesktop/NetworkManager";

pub const SETTINGS_PATH: &'static str = "/org/freedesktop/NetworkManager/Settings";

pub const DEVICES_PREFIX: &'static str = "/org/freedesktop/NetworkManager/Devices/";

pub const ACTIVE_PREFIX: &'static str = "/org/freedesktop/NetworkManager/ActiveConnection/";

pub const IP4_PREFIX: &'static str = "/org/freedesktop/NetworkManager/IP4Config/";

pub const IP6_PREFIX: &'static str = "/org/freedesktop/NetworkManager/IP6Config/";

pub const DHCP4_PREFIX: &'static str = "/org/freedesktop/NetworkManager/DHCP4Config/";

pub const DHCP6_PREFIX: &'static str = "/org/freedesktop/NetworkManager/DHCP6Config/";

pub const SETTINGS_PREFIX: &'static str = "/org/freedesktop/NetworkManager/Settings/";

pub const ACCESS_POINT_PREFIX: &'static str = "/org/freedesktop/NetworkManager/AccessPoint/";

/// The object path used for "no object" references (`/`).
pub fn root_object_path() -> (r: String)
    ensures
        r@ == NO_OBJECT@,
{
    NO_OBJECT.to_owned()
}

/// Object path for a device, keyed by kernel interface index.
pub fn device_path(index: i32) -> (r: String)
    ensures
        r@ == DEVICES_PREFIX@ + text::signed_decimal(index as int),
{
    concat2(DEVICES_PREFIX, signed_text(index).as_str())
}

/// Object path for an active connection, keyed by its daemon id.
pub fn active_path(id: ActiveConnectionId) -> (r: String)
    ensures
        r@ == ACTIVE_PREFIX@ + text::decimal(id.0 as nat),
{
    concat2(ACTIVE_PREFIX, decimal_text(id.as_u64()).as_str())
}

/// Object path for the IPv4 config of an active connection.
pub fn ip4_path(id: ActiveConnectionId) -> (r: String)
    ensures
        r@ == IP4_PREFIX@ + text::decimal(id.0 as nat),
{
    concat2(IP4_PREFIX, decimal_text(id.as_u64()).as_str())
}

/// Object path for the IPv6 config of an active connection.
pub fn ip6_path(id: ActiveConnectionId) -> (r: String)
    ensures
        r@ == IP6_PREFIX@ + text::decimal(id.0 as nat),
{
    concat2(IP6_PREFIX, decimal_text(id.as_u64()).as_str())
}

/// Object path for the DHCPv4 config of an active connection.
pub fn dhcp4_path(id: ActiveConnectionId) -> (r: String)
    ensures
        r@ == DHCP4_PREFIX@ + text::decimal(id.0 as nat),
{
    concat2(DHCP4_PREFIX, decimal_text(id.as_u64()).as_str())
}

/// Object path for the DHCPv6 config of an active connection.
pub fn dhcp6_path(id: ActiveConnectionId) -> (r: String)
    ensures
        r@ == DHCP6_PREFIX@ + text::decimal(id.0 as nat),
{
    concat2(DHCP6_PREFIX, decimal_text(id.as_u64()).as_str())
}

/// Object path for a settings connection, keyed by its UUID.
pub fn settings_connection_path(uuid: &str) -> (r: String)
    ensures
        r@ == SETTINGS_PREFIX@ + uuid@,
{
    concat2(SETTINGS_PREFIX, uuid)
}

/// Octets in hexadecimal, two digits each.
pub open spec fn hex_octets(octets: Seq<u8>) -> Seq<char>
    decreases octets.len(),
{
    if octets.len() == 0 {
        Seq::empty()
    } else {
        hex_octets(octets.drop_last()) + text::fixed_hex(octets.last() as nat, 2)
    }
}

/// The path of an access point.
pub open spec fn access_point_name(device_index: i32, bssid: Seq<u8>) -> Seq<char> {
    ACCESS_POINT_PREFIX@ + text::signed_decimal(device_index as int) + "_"@ + hex_octets(bssid)
}

/// Object path for an access point, keyed by device index and BSSID.
pub fn access_point_path(device_index: i32, bssid: &[u8; 6]) -> (r: String)
    ensures
        r@ == access_point_name(device_index, bssid@),
{
    let mut digits: String = String::new();
    let mut i: usize = 0;
    assert(bssid@.take(0) =~= Seq::empty());
    while i < 6
        invariant
            i <= 6,
            digits@ == hex_octets(bssid@.take(i as int)),
        decreases 6 - i,
    {
        let octet: String = fixed_hex_text(bssid[i] as u64, 2);
        digits.append(octet.as_str());
        assert(bssid@.take(i + 1).drop_last() =~= bssid@.take(i as int));
        i = i + 1;
    }
    assert(bssid@.take(6) =~= bssid@);
    let head: String = concat3(ACCESS_POINT_PREFIX, signed_text(device_index).as_str(), "_");
    concat2(head.as_str(), digits.as_str())
}

// --- NetworkManager enum constants -----------------------------------------
// Values mirror NetworkManager's public headers so clients see familiar ints.

pub const NM_DEVICE_TYPE_ETHERNET: u32 = 1;

pub const NM_DEVICE_TYPE_WIFI: u32 = 2;

pub const NM_DEVICE_TYPE_LOOPBACK: u32 = 32;

pub const NM_DEVICE_STATE_UNKNOWN: u32 = 0;

pub const NM_DEVICE_STATE_UNMANAGED: u32 = 10;

pub const NM_DEVICE_STATE_UNAVAILABLE: u32 = 20;

pub const NM_DEVICE_STATE_DISCONNECTED: u32 = 30;

pub const NM_DEVICE_STATE_PREPARE: u32 = 40;

pub const NM_DEVICE_STATE_CONFIG: u32 = 50;

pub const NM_DEVICE_STATE_NEED_AUTH: u32 = 60;

pub const NM_DEVICE_STATE_IP_CONFIG: u32 = 70;

pub const NM_DEVICE_STATE_IP_CHECK: u32 = 80;

pub const NM_DEVICE_STATE_SECONDARIES: u32 = 90;

pub const NM_DEVICE_STATE_ACTIVATED: u32 = 100;

pub const NM_DEVICE_STATE_DEACTIVATING: u32 = 110;

pub const NM_DEVICE_STATE_FAILED: u32 = 120;

pub const NM_CONNECTIVITY_UNKNOWN: u32 = 0;

pub const NM_CONNECTIVITY_NONE: u32 = 1;

pub const NM_CONNECTIVITY_PORTAL: u32 = 2;

pub const NM_CONNECTIVITY_LIMITED: u32 = 3;

pub const NM_CONNECTIVITY_FULL: u32 = 4;

pub const NM_STATE_UNKNOWN: u32 = 0;

pub const NM_STATE_ASLEEP: u32 = 10;

pub const NM_STATE_DISCONNECTED: u32 = 20;

pub const NM_STATE_CONNECTING: u32 = 40;

pub const NM_STATE_CONNECTED_LOCAL: u32 = 50;

pub const NM_STATE_CONNECTED_SITE: u32 = 60;

pub const NM_STATE_CONNECTED_GLOBAL: u32 = 70;

pub const NM_ACTIVE_CONNECTION_STATE_UNKNOWN: u32 = 0;

pub const NM_ACTIVE_CONNECTION_STATE_ACTIVATING: u32 = 1;

pub const NM_ACTIVE_CONNECTION_STATE_ACTIVATED: u32 = 2;

pub const NM_ACTIVE_CONNECTION_STATE_DEACTIVATING: u32 = 3;

pub const NM_ACTIVE_CONNECTION_STATE_DEACTIVATED: u32 = 4;

pub const NM_ACCESS_POINT_FLAGS_NONE: u32 = 0;

pub const NM_ACCESS_POINT_FLAGS_PRIVACY: u32 = 0x1;

pub const NM_802_11_AP_SEC_NONE: u32 = 0x0;

pub const NM_802_11_AP_SEC_KEY_MGMT_PSK: u32 = 0x100;

pub const NM_802_11_AP_SEC_KEY_MGMT_802_1X: u32 = 0x200;

pub const NM_802_11_AP_SEC_KEY_MGMT_SAE: u32 = 0x400;

pub const NM_802_11_AP_SEC_KEY_MGMT_OWE: u32 = 0x800;

pub const NM_SETTING_CONNECTION_FLAG_NONE: u32 = 0;

pub const NM_SETTING_CONNECTION_FLAG_UNSAVED: u32 = 0x1;

pub const NM_SETTING_CONNECTION_FLAG_NM_GENERATED: u32 = 0x2;

/// The bus name this daemon claims.
pub const BUS_NAME: &'static str = "org.freedesktop.NetworkManager";

// --- Laws -------------------------------------------------------------------

/// The prefixes of paths are object paths with a slash behind.
pub proof fn lemma_known_prefix(s: Seq<char>)
    requires
        s == DEVICES_PREFIX@ || s == ACTIVE_PREFIX@ || s == IP4_PREFIX@ || s == IP6_PREFIX@ || s
            == DHCP4_PREFIX@ || s == DHCP6_PREFIX@ || s == SETTINGS_PREFIX@ || s
            == ACCESS_POINT_PREFIX@,
    ensures
        s.len() > 2,
        s.last() == '/',
        object_path::is_object_path(s.drop_last()),
{
    reveal_strlit("/org/freedesktop/NetworkManager/Devices/");
    reveal_strlit("/org/freedesktop/NetworkManager/ActiveConnection/");
    reveal_strlit("/org/freedesktop/NetworkManager/IP4Config/");
    reveal_strlit("/org/freedesktop/NetworkManager/IP6Config/");
    reveal_strlit("/org/freedesktop/NetworkManager/DHCP4Config/");
    reveal_strlit("/org/freedesktop/NetworkManager/DHCP6Config/");
    reveal_strlit("/org/freedesktop/NetworkManager/Settings/");
    reveal_strlit("/org/freedesktop/NetworkManager/AccessPoint/");
}

/// Whether a text can be one name of an object path.
pub open spec fn is_path_element(s: Seq<char>) -> bool {
    &&& s.len() > 0
    &&& forall|i: int|
        0 <= i < s.len() ==> object_path::is_path_char(#[trigger] s[i]) && s[i] != '/'
}

/// A name behind an object path and a slash makes an object path.
pub proof fn lemma_path_join(prefix: Seq<char>, element: Seq<char>)
    requires
        prefix.len() > 2,
        prefix.last() == '/',
        object_path::is_object_path(prefix.drop_last()),
        is_path_element(element),
    ensures
        object_path::is_object_path(prefix + element),
{
    let whole = prefix + element;
    let head = prefix.drop_last();
    let n = prefix.len();
    assert forall|i: int| 0 <= i < whole.len() implies object_path::is_path_char(
        #[trigger] whole[i],
    ) by {
        if i < n - 1 {
            assert(whole[i] == head[i]);
        } else if i >= n {
            assert(whole[i] == element[i - n]);
        }
    }
    assert forall|i: int, j: int|
        0 <= i < whole.len() && j == i + 1 && j < whole.len() && (#[trigger] whole[i])
            == '/' implies (#[trigger] whole[j]) != '/' by {
        if j < n - 1 {
            assert(whole[i] == head[i] && whole[j] == head[j]);
        } else if j == n - 1 {
            assert(whole[i] == head.last());
        } else {
            assert(whole[j] == element[j - n]);
        }
    }
    assert(whole[0] == head[0]);
    assert(whole.last() == element.last());
}

proof fn lemma_decimal_element(n: nat)
    ensures
        is_path_element(text::decimal(n)),
{
    text::lemma_decimal_value(n);
}

proof fn lemma_fixed_hex_chars(n: nat, width: nat)
    ensures
        text::fixed_hex(n, width).len() == width,
        forall|i: int|
            0 <= i < width ==> object_path::is_path_char(#[trigger] text::fixed_hex(n, width)[i])
                && text::fixed_hex(n, width)[i] != '/',
    decreases width,
{
    if width > 0 {
        lemma_fixed_hex_chars(n / 16, (width - 1) as nat);
    }
}

proof fn lemma_hex_octets(octets: Seq<u8>)
    ensures
        hex_octets(octets).len() == 2 * octets.len(),
        forall|i: int|
            0 <= i < hex_octets(octets).len() ==> object_path::is_path_char(
                #[trigger] hex_octets(octets)[i],
            ) && hex_octets(octets)[i] != '/',
    decreases octets.len(),
{
    if octets.len() > 0 {
        lemma_hex_octets(octets.drop_last());
        lemma_fixed_hex_chars(octets.last() as nat, 2);
    }
}

/// The paths of active connections and of their configurations are object paths.
pub proof fn lemma_active_paths_valid(id: ActiveConnectionId)
    ensures
        object_path::is_object_path(ACTIVE_PREFIX@ + text::decimal(id.0 as nat)),
        object_path::is_object_path(IP4_PREFIX@ + text::decimal(id.0 as nat)),
        object_path::is_object_path(IP6_PREFIX@ + text::decimal(id.0 as nat)),
        object_path::is_object_path(DHCP4_PREFIX@ + text::decimal(id.0 as nat)),
        object_path::is_object_path(DHCP6_PREFIX@ + text::decimal(id.0 as nat)),
{
    lemma_decimal_element(id.0 as nat);
    lemma_known_prefix(ACTIVE_PREFIX@);
    lemma_known_prefix(IP4_PREFIX@);
    lemma_known_prefix(IP6_PREFIX@);
    lemma_known_prefix(DHCP4_PREFIX@);
    lemma_known_prefix(DHCP6_PREFIX@);
    lemma_path_join(ACTIVE_PREFIX@, text::decimal(id.0 as nat));
    lemma_path_join(IP4_PREFIX@, text::decimal(id.0 as nat));
    lemma_path_join(IP6_PREFIX@, text::decimal(id.0 as nat));
    lemma_path_join(DHCP4_PREFIX@, text::decimal(id.0 as nat));
    lemma_path_join(DHCP6_PREFIX@, text::decimal(id.0 as nat));
}

/// The paths of devices and of the access points they see are object paths. The
/// kernel's indices are positive; a negative one would put a sign in the path.
pub proof fn lemma_device_paths_valid(index: i32, bssid: Seq<u8>)
    requires
        index >= 0,
    ensures
        object_path::is_object_path(DEVICES_PREFIX@ + text::signed_decimal(index as int)),
        object_path::is_object_path(access_point_name(index, bssid)),
{
    let digits = text::signed_decimal(index as int);
    lemma_decimal_element(index as nat);
    lemma_known_prefix(DEVICES_PREFIX@);
    lemma_path_join(DEVICES_PREFIX@, digits);
    lemma_hex_octets(bssid);
    reveal_strlit("_");
    let element = digits + "_"@ + hex_octets(bssid);
    assert(is_path_element(element));
    lemma_known_prefix(ACCESS_POINT_PREFIX@);
    lemma_path_join(ACCESS_POINT_PREFIX@, element);
    assert(access_point_name(index, bssid) =~= ACCESS_POINT_PREFIX@ + element);
}

/// Active connections with different ids have different paths.
pub proof fn lemma_active_paths_distinct(a: ActiveConnectionId, b: ActiveConnectionId)
    requires
        ACTIVE_PREFIX@ + text::decimal(a.0 as nat) == ACTIVE_PREFIX@ + text::decimal(b.0 as nat),
    ensures
        a == b,
{
    let n = ACTIVE_PREFIX@.len() as int;
    assert((ACTIVE_PREFIX@ + text::decimal(a.0 as nat)).skip(n) =~= text::decimal(a.0 as nat));
    assert((ACTIVE_PREFIX@ + text::decimal(b.0 as nat)).skip(n) =~= text::decimal(b.0 as nat));
    text::lemma_decimal_injective(a.0 as nat, b.0 as nat);
}

/// Devices with different indices have different paths.
pub proof fn lemma_device_paths_distinct(a: i32, b: i32)
    requires
        DEVICES_PREFIX@ + text::signed_decimal(a as int) == DEVICES_PREFIX@ + text::signed_decimal(
            b as int,
        ),
    ensures
        a == b,
{
    let n = DEVICES_PREFIX@.len() as int;
    let x = text::signed_decimal(a as int);
    let y = text::signed_decimal(b as int);
    assert((DEVICES_PREFIX@ + x).skip(n) =~= x);
    assert((DEVICES_PREFIX@ + y).skip(n) =~= y);
    let m = if a < 0 {
        (-a) as nat
    } else {
        a as nat
    };
    let k = if b < 0 {
        (-b) as nat
    } else {
        b as nat
    };
    text::lemma_decimal_value(m);
    text::lemma_decimal_value(k);
    assert(text::is_digit(text::decimal(m)[0]));
    assert(text::is_digit(text::decimal(k)[0]));
    if a < 0 {
        assert(x[0] == '-');
        assert(x.skip(1) =~= text::decimal(m));
    }
    if b < 0 {
        assert(y[0] == '-');
        assert(y.skip(1) =~= text::decimal(k));
    }
}

} // verus!
