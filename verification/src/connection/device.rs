//! Device model used by profile matching and activation.
//!
//! The connection logic works against this small, platform-neutral description
//! instead of raw kernel structures.

use vstd::prelude::*;

use crate::linux::model;
use crate::linux::model::{format_mac_address, parse_mac_address, WirelessInterface};
use crate::text;

verus! {

/// The kind of network device a profile can apply to.
#[derive(Clone, Copy, Debug, PartialEq, Eq, Hash, Structural)]
pub enum DeviceKind {
    Wifi,
    Ethernet,
}

impl DeviceKind {
    /// The name of the kind.
    pub open spec fn text(self) -> Seq<char> {
        match self {
            DeviceKind::Wifi => "wifi"@,
            DeviceKind::Ethernet => "ethernet"@,
        }
    }

    /// Names the kind.
    pub fn to_string(&self) -> (r: String)
        ensures
            r@ == self.text(),
    {
        match self {
            DeviceKind::Wifi => "wifi".to_owned(),
            DeviceKind::Ethernet => "ethernet".to_owned(),
        }
    }
}

/// A 48-bit IEEE MAC address.
#[derive(Clone, Copy, Debug, PartialEq, Eq, PartialOrd, Ord, Hash)]
pub struct MacAddress(pub [u8; 6]);

impl MacAddress {
    /// The octets of the address.
    pub fn as_bytes(&self) -> (r: &[u8; 6])
        ensures
            *r == self.0,
    {
        &self.0
    }

    /// Writes the address as six two-digit groups between colons.
    pub fn to_string(&self) -> (r: String)
        ensures
            r@ == model::mac_text(self.0@),
    {
        format_mac_address(&self.0)
    }

    /// Reads an address of six two-digit groups between colons.
    pub fn parse(text: &str) -> (r: Option<Self>)
        ensures
            match r {
                Some(mac) => model::is_mac_of(text@, mac.0@),
                None => forall|mac: Seq<u8>| !model::is_mac_of(text@, mac),
            },
    {
        match parse_mac_address(text) {
            Some(mac) => Some(MacAddress(mac)),
            None => None,
        }
    }

    /// Whether two addresses are the same.
    pub fn same(&self, other: &MacAddress) -> (r: bool)
        ensures
            r == (self.0@ == other.0@),
    {
        crate::bytes::same_octets(self.0.as_slice(), other.0.as_slice())
    }
}

impl From<[u8; 6]> for MacAddress {
    fn from(bytes: [u8; 6]) -> (r: Self) {
        MacAddress(bytes)
    }
}

impl vstd::std_specs::convert::FromSpecImpl<[u8; 6]> for MacAddress {
    open spec fn obeys_from_spec() -> bool {
        true
    }

    open spec fn from_spec(bytes: [u8; 6]) -> Self {
        MacAddress(bytes)
    }
}

/// A MAC address that is written and read again is the same.
pub proof fn lemma_mac_round_trip(mac: MacAddress, other: Seq<u8>)
    requires
        model::is_mac_of(model::mac_text(mac.0@), other),
    ensures
        other == mac.0@,
{
    model::lemma_mac_text(mac.0@);
    model::lemma_mac_unique(model::mac_text(mac.0@), mac.0@, other);
}

/// The view of an optional MAC address.
pub open spec fn mac_octets(mac: Option<MacAddress>) -> Option<Seq<u8>> {
    match mac {
        Some(value) => Some(value.0@),
        None => None,
    }
}

/// Minimal device description used by the profile matcher and activation.
#[derive(Debug, PartialEq, Eq)]
pub struct DeviceInfo {
    pub kind: DeviceKind,
    pub interface_name: String,
    pub mac_address: Option<MacAddress>,
}

/// A device, with its name as text and its address as octets.
#[verifier::ext_equal]
pub struct DeviceInfoView {
    pub kind: DeviceKind,
    pub interface_name: Seq<char>,
    pub mac_address: Option<Seq<u8>>,
}

fn wrap_mac(mac: Option<[u8; 6]>) -> (r: Option<MacAddress>)
    ensures
        mac_octets(r) == crate::linux::model::mac_view(mac),
{
    match mac {
        Some(bytes) => Some(MacAddress(bytes)),
        None => None,
    }
}

impl DeviceInfo {
    pub open spec fn view(&self) -> DeviceInfoView {
        DeviceInfoView {
            kind: self.kind,
            interface_name: self.interface_name@,
            mac_address: mac_octets(self.mac_address),
        }
    }

    /// The device that a wireless interface is.
    pub fn from_wireless(interface: &WirelessInterface) -> (r: Self)
        ensures
            r@ == (DeviceInfoView {
                kind: DeviceKind::Wifi,
                interface_name: interface.name@,
                mac_address: interface@.mac,
            }),
    {
        DeviceInfo {
            kind: DeviceKind::Wifi,
            interface_name: interface.name.clone(),
            mac_address: wrap_mac(interface.mac),
        }
    }

    /// A Wi-Fi device.
    pub fn wifi(interface_name: &str, mac_address: Option<[u8; 6]>) -> (r: Self)
        ensures
            r@ == (DeviceInfoView {
                kind: DeviceKind::Wifi,
                interface_name: interface_name@,
                mac_address: crate::linux::model::mac_view(mac_address),
            }),
    {
        DeviceInfo {
            kind: DeviceKind::Wifi,
            interface_name: interface_name.to_owned(),
            mac_address: wrap_mac(mac_address),
        }
    }

    /// An Ethernet device.
    pub fn ethernet(interface_name: &str, mac_address: Option<[u8; 6]>) -> (r: Self)
        ensures
            r@ == (DeviceInfoView {
                kind: DeviceKind::Ethernet,
                interface_name: interface_name@,
                mac_address: crate::linux::model::mac_view(mac_address),
            }),
    {
        DeviceInfo {
            kind: DeviceKind::Ethernet,
            interface_name: interface_name.to_owned(),
            mac_address: wrap_mac(mac_address),
        }
    }
}

impl Clone for DeviceInfo {
    fn clone(&self) -> (r: Self)
        ensures
            r == *self,
    {
        DeviceInfo {
            kind: self.kind,
            interface_name: self.interface_name.clone(),
            mac_address: self.mac_address,
        }
    }
}

} // verus!
