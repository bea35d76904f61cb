//! The `AccessPoint` objects.
//!
//! One object per discovered BSSID. Properties are rendered from the live
//! nl80211 scan results held by the daemon, so the strength and security
//! columns a client sees track the kernel's view.

use vstd::prelude::*;

use crate::bytes::same_octets;
use crate::dbus::error::{FacadeError, FacadeErrorView};
use crate::dbus;
use crate::dbus::device;
use crate::dbus::device::{primary_wifi, DeviceView};
use crate::dbus::{
    access_point_path, NM_802_11_AP_SEC_KEY_MGMT_802_1X, NM_802_11_AP_SEC_KEY_MGMT_OWE,
    NM_802_11_AP_SEC_KEY_MGMT_PSK, NM_802_11_AP_SEC_KEY_MGMT_SAE, NM_ACCESS_POINT_FLAGS_NONE,
    NM_ACCESS_POINT_FLAGS_PRIVACY,
};
use crate::linux::model;
use crate::linux::model::{format_mac_address, frequency_to_channel, AccessPoint, AccessPointView};
use crate::text;
use crate::text::concat2;

verus! {

/// The strength that a signal reading amounts to: no more than a hundred, no less
/// than none.
pub open spec fn strength_of(signal_dbm: Option<i32>) -> u8 {
    match signal_dbm {
        Some(dbm) => if dbm <= -100 {
            0u8
        } else if dbm >= 0 {
            100u8
        } else {
            (100 + dbm) as u8
        },
        None => 0u8,
    }
}

/// Maps a dBm signal reading to NetworkManager's 0-100 strength percentage.
pub fn strength_pct(signal_dbm: Option<i32>) -> (r: u8)
    ensures
        r == strength_of(signal_dbm),
        r <= 100,
{
    match signal_dbm {
        Some(dbm) => if dbm <= -100 {
            0
        } else if dbm >= 0 {
            100
        } else {
            (100 + dbm) as u8
        },
        None => 0,
    }
}

/// The WPA/RSN flags of an access point.
pub open spec fn flags_of(point: AccessPointView) -> int {
    (if point.security.wpa2 || point.security.wpa3 {
        NM_802_11_AP_SEC_KEY_MGMT_PSK as int
    } else {
        0
    }) + (if point.security.wpa1 || point.security.wpa2 {
        NM_802_11_AP_SEC_KEY_MGMT_802_1X as int
    } else {
        0
    }) + (if point.security.wpa3 {
        NM_802_11_AP_SEC_KEY_MGMT_SAE + NM_802_11_AP_SEC_KEY_MGMT_OWE
    } else {
        0
    })
}

/// Maps the daemon's security model onto the WPA/RSN flag bitmasks.
pub fn security_flags(point: &AccessPoint) -> (r: u32)
    ensures
        r == flags_of(point@),
{
    let mut flags: u32 = 0;
    if point.security.wpa2 || point.security.wpa3 {
        flags = flags + NM_802_11_AP_SEC_KEY_MGMT_PSK;
    }
    if point.security.wpa1 || point.security.wpa2 {
        flags = flags + NM_802_11_AP_SEC_KEY_MGMT_802_1X;
    }
    if point.security.wpa3 {
        flags = flags + NM_802_11_AP_SEC_KEY_MGMT_SAE + NM_802_11_AP_SEC_KEY_MGMT_OWE;
    }
    flags
}

/// The flags of an access point: whether it asks for any encryption.
pub fn flags(point: &AccessPoint) -> (r: u32)
    ensures
        r == if point.security.wep || point.security.wpa1 || point.security.wpa2
            || point.security.wpa3 {
            NM_ACCESS_POINT_FLAGS_PRIVACY
        } else {
            NM_ACCESS_POINT_FLAGS_NONE
        },
{
    if point.security.wep || point.security.wpa1 || point.security.wpa2 || point.security.wpa3 {
        NM_ACCESS_POINT_FLAGS_PRIVACY
    } else {
        NM_ACCESS_POINT_FLAGS_NONE
    }
}

/// The network name of an access point, empty where it hides it.
pub fn ssid(point: &AccessPoint) -> (r: Vec<u8>)
    ensures
        r@ == match point@.ssid {
            Some(ssid) => ssid,
            None => Seq::empty(),
        },
{
    match &point.ssid {
        Some(ssid) => vstd::slice::slice_to_vec(ssid.as_bytes()),
        None => Vec::new(),
    }
}

/// The frequency of an access point, or zero.
pub fn frequency(point: &AccessPoint) -> (r: u32)
    ensures
        r == match point.frequency {
            Some(frequency) => frequency,
            None => 0u32,
        },
{
    match point.frequency {
        Some(frequency) => frequency,
        None => 0,
    }
}

/// The channel of an access point: the reported one, else that of its frequency,
/// else zero.
pub open spec fn channel_number(point: AccessPointView) -> u32 {
    match (point.channel, point.frequency) {
        (Some(channel), _) => channel as u32,
        (None, Some(frequency)) => match model::channel_of(frequency) {
            Some(channel) => channel as u32,
            None => 0u32,
        },
        (None, None) => 0u32,
    }
}

/// The channel of an access point.
pub fn channel(point: &AccessPoint) -> (r: u32)
    ensures
        r == channel_number(point@),
{
    match (point.channel, point.frequency) {
        (Some(channel), _) => channel as u32,
        (None, Some(frequency)) => match frequency_to_channel(frequency) {
            Some(channel) => channel as u32,
            None => 0,
        },
        (None, None) => 0,
    }
}

/// How many seconds ago an access point was seen.
pub fn last_seen(point: &AccessPoint) -> (r: i32)
    ensures
        r == match point.seen_millis_ago {
            Some(millis) => millis as int / 1000,
            None => 0,
        },
{
    match point.seen_millis_ago {
        Some(millis) => (millis / 1000) as i32,
        None => 0,
    }
}

/// The first access point with a BSSID.
pub open spec fn point_with(points: Seq<AccessPoint>, bssid: Seq<u8>) -> Option<AccessPoint>
    decreases points.len(),
{
    if points.len() == 0 {
        None
    } else if points[0]@.bssid == Some(bssid) {
        Some(points[0])
    } else {
        point_with(points.skip(1), bssid)
    }
}

/// Finds the access point with a BSSID.
pub fn find_access_point<'a>(points: &'a Vec<AccessPoint>, bssid: &[u8; 6]) -> (r: Result<
    &'a AccessPoint,
    FacadeError,
>)
    ensures
        match point_with(points@, bssid@) {
            Some(point) => r matches Ok(found) && *found == point,
            None => r matches Err(e) && e@ == FacadeErrorView::UnknownDevice(
                "access point "@ + model::mac_text(bssid@),
            ),
        },
{
    let ghost all = points@;
    let mut i: usize = 0;
    assert(all.skip(0) =~= all);
    while i < points.len()
        invariant
            i <= points@.len(),
            all == points@,
            point_with(all, bssid@) == point_with(all.skip(i as int), bssid@),
        decreases points@.len() - i,
    {
        assert(all.skip(i as int)[0] == all[i as int]);
        assert(all.skip(i as int).skip(1) =~= all.skip(i + 1));
        if let Some(found) = &points[i].bssid {
            if same_octets(found.as_bytes().as_slice(), bssid.as_slice()) {
                return Ok(&points[i]);
            }
        }
        i = i + 1;
    }
    Err(FacadeError::UnknownDevice(concat2("access point ", format_mac_address(bssid).as_str())))
}

/// The paths of the access points that have a BSSID, under a device.
pub open spec fn point_names(points: Seq<AccessPoint>, device_index: i32) -> Seq<Seq<char>>
    decreases points.len(),
{
    if points.len() == 0 {
        Seq::empty()
    } else {
        match points.last()@.bssid {
            Some(bssid) => point_names(points.drop_last(), device_index).push(
                dbus::access_point_name(device_index, bssid),
            ),
            None => point_names(points.drop_last(), device_index),
        }
    }
}

/// Object paths for every access point visible on the bus: none without a Wi-Fi
/// device to list them under.
pub fn access_point_paths(points: &Vec<AccessPoint>, primary_wifi: Option<i32>) -> (r: Vec<String>)
    ensures
        text::string_views(r@) == match primary_wifi {
            Some(device_index) => point_names(points@, device_index),
            None => Seq::empty(),
        },
{
    let mut r: Vec<String> = Vec::new();
    assert(text::string_views(r@) =~= Seq::empty());
    let device_index: i32 = match primary_wifi {
        None => {
            return r;
        },
        Some(device_index) => device_index,
    };
    let mut i: usize = 0;
    assert(points@.take(0) =~= Seq::empty());
    while i < points.len()
        invariant
            i <= points@.len(),
            text::string_views(r@) == point_names(points@.take(i as int), device_index),
        decreases points@.len() - i,
    {
        assert(points@.take(i + 1).drop_last() =~= points@.take(i as int));
        if let Some(bssid) = &points[i].bssid {
            let ghost before = r@;
            let path: String = access_point_path(device_index, bssid.as_bytes());
            r.push(path);
            assert(text::string_views(r@) =~= text::string_views(before).push(path@));
        }
        i = i + 1;
    }
    assert(points@.take(i as int) =~= points@);
    r
}

/// Object paths for the access points of a Wi-Fi device: those that are visible,
/// for the device that they are listed under, and none for another.
pub fn device_access_points(
    devices: &Vec<DeviceView>,
    points: &Vec<AccessPoint>,
    index: i32,
) -> (r: Vec<String>)
    ensures
        text::string_views(r@) == if device::least_wifi(devices@) == Some(index) {
            point_names(points@, index)
        } else {
            Seq::empty()
        },
{
    let listed: Option<i32> = match primary_wifi(devices) {
        Some(found) => if found == index {
            Some(found)
        } else {
            None
        },
        None => None,
    };
    access_point_paths(points, listed)
}

} // verus!
