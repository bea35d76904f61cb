//! High-level Wi-Fi discovery: what is made of the dumps.

use vstd::prelude::*;

use crate::linux::model;
use crate::linux::model::{InterfaceType, NetlinkError, WirelessInterface, WirelessInterfaceView};
use crate::linux::nl80211;
use crate::linux::nl80211::{WiphyInfo, WiphyView};

verus! {

/// The first wiphy with an index.
pub open spec fn wiphy_at(wiphys: Seq<WiphyView>, index: Option<u32>) -> Option<WiphyView>
    decreases wiphys.len(),
{
    match index {
        None => None,
        Some(number) => if wiphys.len() == 0 {
            None
        } else if wiphys[0].index == number {
            Some(wiphys[0])
        } else {
            wiphy_at(wiphys.skip(1), index)
        },
    }
}

/// Finds the first wiphy with an index.
pub fn lookup_wiphy<'a>(wiphys: &'a Vec<WiphyInfo>, index: Option<u32>) -> (r: Option<
    &'a WiphyInfo,
>)
    ensures
        match r {
            Some(wiphy) => wiphy_at(nl80211::wiphy_views(wiphys@), index) == Some(wiphy@),
            None => wiphy_at(nl80211::wiphy_views(wiphys@), index) is None,
        },
{
    let number: u32 = match index {
        None => {
            return None;
        },
        Some(number) => number,
    };
    let ghost views = nl80211::wiphy_views(wiphys@);
    let mut i: usize = 0;
    assert(views.skip(0) =~= views);
    while i < wiphys.len()
        invariant
            i <= wiphys@.len(),
            views == nl80211::wiphy_views(wiphys@),
            index == Some(number),
            wiphy_at(views, index) == wiphy_at(views.skip(i as int), index),
        decreases wiphys@.len() - i,
    {
        assert(views.skip(i as int)[0] == wiphys@[i as int]@);
        assert(views.skip(i as int).skip(1) =~= views.skip(i + 1));
        if wiphys[i].index == number {
            return Some(&wiphys[i]);
        }
        i = i + 1;
    }
    None
}

/// An interface with the name and capabilities of its wiphy, where that is
/// known.
pub open spec fn merged(interface: WirelessInterfaceView, wiphys: Seq<WiphyView>) -> WirelessInterfaceView {
    match wiphy_at(wiphys, interface.wiphy_index) {
        Some(wiphy) => WirelessInterfaceView {
            wiphy_name: Some(wiphy.name),
            capabilities: wiphy.capabilities,
            ..interface
        },
        None => interface,
    }
}

/// Merges wiphy capability information into every interface whose wiphy can be
/// resolved.
pub fn merge_wiphys(interfaces: &Vec<WirelessInterface>, wiphys: &Vec<WiphyInfo>) -> (r: Vec<
    WirelessInterface,
>)
    ensures
        model::wireless_views(r@) == model::wireless_views(interfaces@).map_values(
            |interface: WirelessInterfaceView| merged(interface, nl80211::wiphy_views(wiphys@)),
        ),
{
    let mut out: Vec<WirelessInterface> = Vec::new();
    let mut i: usize = 0;
    while i < interfaces.len()
        invariant
            i <= interfaces@.len(),
            out@.len() == i,
            forall|j: int|
                0 <= j < i ==> (#[trigger] out@[j])@ == merged(
                    interfaces@[j]@,
                    nl80211::wiphy_views(wiphys@),
                ),
        decreases interfaces@.len() - i,
    {
        let mut interface: WirelessInterface = interfaces[i].clone();
        match lookup_wiphy(wiphys, interface.wiphy_index) {
            Some(wiphy) => {
                interface.wiphy_name = Some(wiphy.name.clone());
                interface.capabilities = wiphy.capabilities.clone();
            },
            None => {},
        }
        assert(interface@ =~= merged(interfaces@[i as int]@, nl80211::wiphy_views(wiphys@)));
        out.push(interface);
        i = i + 1;
    }
    assert(model::wireless_views(out@) =~= model::wireless_views(interfaces@).map_values(
        |interface: WirelessInterfaceView| merged(interface, nl80211::wiphy_views(wiphys@)),
    ));
    out
}

/// The index of the first interface whose type meets a condition.
pub open spec fn first_index(
    interfaces: Seq<WirelessInterface>,
    f: spec_fn(InterfaceType) -> bool,
) -> Option<i32>
    decreases interfaces.len(),
{
    if interfaces.len() == 0 {
        None
    } else if f(interfaces[0].interface_type) {
        Some(interfaces[0].index)
    } else {
        first_index(interfaces.skip(1), f)
    }
}

/// The interface to scan with: the first station, or else the first interface
/// that is no monitor.
pub open spec fn scan_index(interfaces: Seq<WirelessInterface>) -> Option<i32> {
    match first_index(interfaces, |t: InterfaceType| t == InterfaceType::Station) {
        Some(index) => Some(index),
        None => first_index(interfaces, |t: InterfaceType| t != InterfaceType::Monitor),
    }
}

/// Picks the interface to scan with: the first station, falling back to the
/// first non-monitor interface.
pub fn scan_interface_index(interfaces: &Vec<WirelessInterface>) -> (r: Result<i32, NetlinkError>)
    ensures
        r == match scan_index(interfaces@) {
            Some(index) => Ok::<i32, NetlinkError>(index),
            None => Err(
                NetlinkError::MalformedMessage("no wireless interface available for scanning"),
            ),
        },
{
    let ghost all = interfaces@;
    let ghost station = |t: InterfaceType| t == InterfaceType::Station;
    let ghost usable = |t: InterfaceType| t != InterfaceType::Monitor;
    assert(all.skip(0) =~= all);
    let mut i: usize = 0;
    while i < interfaces.len()
        invariant
            i <= interfaces@.len(),
            all == interfaces@,
            station == (|t: InterfaceType| t == InterfaceType::Station),
            first_index(all, station) == first_index(all.skip(i as int), station),
        decreases interfaces@.len() - i,
    {
        assert(all.skip(i as int)[0] == all[i as int]);
        assert(all.skip(i as int).skip(1) =~= all.skip(i + 1));
        if interfaces[i].interface_type == InterfaceType::Station {
            return Ok(interfaces[i].index);
        }
        i = i + 1;
    }
    let mut k: usize = 0;
    while k < interfaces.len()
        invariant
            k <= interfaces@.len(),
            all == interfaces@,
            usable == (|t: InterfaceType| t != InterfaceType::Monitor),
            first_index(all, |t: InterfaceType| t == InterfaceType::Station) is None,
            first_index(all, usable) == first_index(all.skip(k as int), usable),
        decreases interfaces@.len() - k,
    {
        assert(all.skip(k as int)[0] == all[k as int]);
        assert(all.skip(k as int).skip(1) =~= all.skip(k + 1));
        if interfaces[k].interface_type != InterfaceType::Monitor {
            return Ok(interfaces[k].index);
        }
        k = k + 1;
    }
    Err(NetlinkError::MalformedMessage("no wireless interface available for scanning"))
}

} // verus!
