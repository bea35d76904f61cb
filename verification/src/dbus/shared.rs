//! The registry of the objects on the bus, and the signals that follow from the
//! daemon's connection events.
//!
//! Every interface object renders its properties from the daemon's live state,
//! so the registry holds no second model: it knows which objects exist, and
//! which states were told last.

use vstd::prelude::*;

use crate::connection::activation;
use crate::connection::activation::{ActiveConnection, ActiveConnectionId};
use crate::connection::profile;
use crate::connection::profile::ConnectionProfile;
use crate::connection::device::{DeviceInfo, DeviceInfoView};
use crate::connection::state;
use crate::connection::state::{ConnectionEvent, ConnectionEventView};
use crate::dbus::active_connection;
use crate::dbus::active_connection::{active_by_id, nm_state};
use crate::dbus::convert;
use crate::dbus::convert::{connection_path, stable_uuid};
use crate::dbus::device;
use crate::dbus::device::{connection_to_device_state, device_index_by_name, DeviceView};
use crate::dbus::error::{FacadeError, FacadeErrorView};
use crate::dbus::root;
use crate::dbus::{
    NM_ACTIVE_CONNECTION_STATE_ACTIVATED, NM_ACTIVE_CONNECTION_STATE_DEACTIVATED,
    NM_ACTIVE_CONNECTION_STATE_DEACTIVATING, NM_DEVICE_STATE_ACTIVATED,
    NM_DEVICE_STATE_DEACTIVATING, NM_DEVICE_STATE_DISCONNECTED, NM_DEVICE_STATE_UNKNOWN,
    NM_STATE_CONNECTED_GLOBAL, NM_STATE_DISCONNECTED,
};
use crate::linux::model::Bssid;
use crate::table::Table;
use crate::text::same_text;

verus! {

/// Which objects are registered on the bus, and which states were told last.
pub struct Registry {
    /// The object path of each registered connection object, by profile id.
    pub connections: Table<String, String>,
    /// The interface name of each registered device object, by kernel index.
    pub devices: Table<i32, String>,
    /// The state told last of each registered device, by kernel index.
    pub device_states: Table<i32, u32>,
    /// The registered access point objects, by BSSID.
    pub access_points: Table<Bssid, ()>,
    /// The registered active connection objects, by daemon id.
    pub active_connections: Table<u64, ()>,
    /// The kernel index of the device of each connection whose changes of state
    /// were told, by daemon id. It outlives the tracking of the connection, so
    /// that its last changes are still told of its device.
    pub bound: Table<u64, i32>,
    /// The daemon-wide state told last.
    pub root_state: u32,
}

/// The state of a registry that signals depend on.
#[verifier::ext_equal]
pub struct Told {
    pub device_states: Map<i32, u32>,
    pub active_connections: Map<u64, ()>,
    /// The device of each connection that changed its state, by daemon id.
    pub bound: Map<u64, i32>,
}

/// Something to tell on the bus.
#[derive(Clone, Copy, Debug, PartialEq, Eq, Structural)]
pub enum BusSignal {
    /// `StateChanged` of an active connection.
    ActiveState { id: ActiveConnectionId, state: u32, previous: u32 },
    /// `StateChanged` of a device, and the change of its `State`.
    DeviceState { index: i32, state: u32, previous: u32 },
    /// The removal of an active connection and of its configurations.
    ActiveRemoved { id: ActiveConnectionId },
    /// `StateChanged` of the root object.
    RootState { state: u32 },
}

/// The state told last of a device.
pub open spec fn last_told(states: Map<i32, u32>, index: i32) -> u32 {
    if states.contains_key(index) {
        states[index]
    } else {
        NM_DEVICE_STATE_UNKNOWN
    }
}

/// What is told of a device in a state, where that is news.
pub open spec fn device_news(states: Map<i32, u32>, index: i32, state: u32) -> Seq<BusSignal> {
    if last_told(states, index) == state {
        Seq::empty()
    } else {
        seq![BusSignal::DeviceState { index, state, previous: last_told(states, index) }]
    }
}

/// The states told last after a device was in a state.
pub open spec fn after_news(states: Map<i32, u32>, index: i32, state: u32) -> Map<i32, u32> {
    if last_told(states, index) == state {
        states
    } else {
        states.insert(index, state)
    }
}

/// What follows from a connection event, when its connection is bound to the
/// device with the given index, or to none.
pub open spec fn mirrored(told: Told, event: ConnectionEventView, index: Option<i32>) -> (
    Told,
    Seq<BusSignal>,
) {
    match event {
        ConnectionEventView::StateChanged { active_id, profile_id, previous, current } => {
            let first = BusSignal::ActiveState {
                id: active_id,
                state: active_connection::client_state(current),
                previous: active_connection::client_state(previous),
            };
            match index {
                None => (told, seq![first]),
                Some(index) => {
                    let state = device::driven_state(current);
                    (
                        Told {
                            device_states: after_news(told.device_states, index, state),
                            bound: told.bound.insert(active_id.0, index),
                            ..told
                        },
                        seq![first] + device_news(told.device_states, index, state),
                    )
                },
            }
        },
        ConnectionEventView::Deactivated { active_id, profile_id } => {
            let removed = BusSignal::ActiveRemoved { id: active_id };
            let freed = Told {
                active_connections: told.active_connections.remove(active_id.0),
                bound: told.bound.remove(active_id.0),
                ..told
            };
            if told.bound.contains_key(active_id.0) {
                let index = told.bound[active_id.0];
                (
                    Told {
                        device_states: after_news(
                            told.device_states,
                            index,
                            NM_DEVICE_STATE_DISCONNECTED,
                        ),
                        ..freed
                    },
                    seq![removed] + device_news(
                        told.device_states,
                        index,
                        NM_DEVICE_STATE_DISCONNECTED,
                    ),
                )
            } else {
                (freed, seq![removed])
            }
        },
        ConnectionEventView::Activated { .. } => (told, Seq::empty()),
        ConnectionEventView::Failed { .. } => (told, Seq::empty()),
    }
}

/// The index of the device that the connection of an event is bound to: that of
/// the device with the name of its interface, as long as the connection is
/// tracked, and afterwards that of the device it was bound to last.
pub open spec fn event_device(
    told: Told,
    id: ActiveConnectionId,
    active: Seq<ActiveConnection>,
    devices: Seq<DeviceView>,
) -> Option<i32> {
    match active_connection::connection_with(active, id) {
        Some(connection) => match device::device_named(
            devices,
            connection.device.interface_name@,
        ) {
            Some(found) => Some(found.index),
            None => None,
        },
        None => if told.bound.contains_key(id.0) {
            Some(told.bound[id.0])
        } else {
            None
        },
    }
}

/// The connection that an event is about.
pub open spec fn subject(event: ConnectionEventView) -> ActiveConnectionId {
    match event {
        ConnectionEventView::StateChanged { active_id, .. } => active_id,
        ConnectionEventView::Activated { active_id, .. } => active_id,
        ConnectionEventView::Deactivated { active_id, .. } => active_id,
        ConnectionEventView::Failed { active_id, .. } => active_id,
    }
}

/// What follows from events in turn, while the given connections are tracked and
/// the given devices are there.
pub open spec fn mirrored_all(
    told: Told,
    events: Seq<ConnectionEventView>,
    active: Seq<ActiveConnection>,
    devices: Seq<DeviceView>,
) -> (Told, Seq<BusSignal>)
    decreases events.len(),
{
    if events.len() == 0 {
        (told, Seq::empty())
    } else {
        let before = mirrored_all(told, events.drop_last(), active, devices);
        let last = events.last();
        let step = mirrored(
            before.0,
            last,
            event_device(before.0, subject(last), active, devices),
        );
        (step.0, before.1 + step.1)
    }
}

/// What is told of the daemon-wide state, where that is news.
pub open spec fn root_news(before: u32, state: u32) -> Seq<BusSignal> {
    if before == state {
        Seq::empty()
    } else {
        seq![BusSignal::RootState { state }]
    }
}

impl Registry {
    /// What signals depend on.
    pub open spec fn told(&self) -> Told {
        Told {
            device_states: self.device_states@,
            active_connections: self.active_connections@,
            bound: self.bound@,
        }
    }

    /// A registry without objects.
    pub fn new() -> (r: Self)
        ensures
            r.connections@ == Map::<Seq<char>, String>::empty(),
            r.devices@ == Map::<i32, String>::empty(),
            r.device_states@ == Map::<i32, u32>::empty(),
            r.access_points@ == Map::<Seq<u8>, ()>::empty(),
            r.active_connections@ == Map::<u64, ()>::empty(),
            r.bound@ == Map::<u64, i32>::empty(),
            r.root_state == NM_STATE_DISCONNECTED,
    {
        Registry {
            connections: Table::new(),
            devices: Table::new(),
            device_states: Table::new(),
            access_points: Table::new(),
            active_connections: Table::new(),
            bound: Table::new(),
            root_state: NM_STATE_DISCONNECTED,
        }
    }

    // --- Devices --------------------------------------------------------------------------

    /// Registers a device in a state.
    pub fn register_device(&mut self, view: &DeviceView, state: u32)
        ensures
            final(self).devices@ == old(self).devices@.insert(view.index, view.interface),
            final(self).device_states@ == old(self).device_states@.insert(view.index, state),
            final(self).connections == old(self).connections,
            final(self).access_points == old(self).access_points,
            final(self).active_connections == old(self).active_connections,
            final(self).bound == old(self).bound,
            final(self).root_state == old(self).root_state,
    {
        self.devices.insert(view.index, view.interface.clone());
        self.device_states.insert(view.index, state);
    }

    /// Unregisters a device.
    pub fn unregister_device(&mut self, index: i32)
        ensures
            final(self).devices@ == old(self).devices@.remove(index),
            final(self).device_states@ == old(self).device_states@.remove(index),
            final(self).connections == old(self).connections,
            final(self).access_points == old(self).access_points,
            final(self).active_connections == old(self).active_connections,
            final(self).bound == old(self).bound,
            final(self).root_state == old(self).root_state,
    {
        let _name: Option<String> = self.devices.remove(&index);
        let _state: Option<u32> = self.device_states.remove(&index);
    }

    /// Whether a device is registered.
    pub fn is_device_registered(&self, index: i32) -> (r: bool)
        ensures
            r == self.devices@.contains_key(index),
    {
        self.devices.contains_key(&index)
    }

    /// Interface name of a registered device, removed from the registry.
    pub fn take_device_interface(&mut self, index: i32) -> (r: Option<String>)
        ensures
            final(self).devices@ == old(self).devices@.remove(index),
            final(self).device_states == old(self).device_states,
            final(self).connections == old(self).connections,
            final(self).access_points == old(self).access_points,
            final(self).active_connections == old(self).active_connections,
            final(self).bound == old(self).bound,
            final(self).root_state == old(self).root_state,
            match r {
                Some(name) => old(self).devices@.contains_key(index) && old(self).devices@[index]
                    == name,
                None => !old(self).devices@.contains_key(index),
            },
    {
        self.devices.remove(&index)
    }

    /// Indices of every registered device object.
    pub fn registered_device_indices(&self) -> (r: Vec<i32>)
        ensures
            r@.no_duplicates(),
            forall|index: i32| r@.contains(index) <==> #[trigger] self.devices@.contains_key(index),
    {
        let r: Vec<i32> = self.devices.keys();
        proof {
            assert forall|index: i32| r@.contains(index) <==> #[trigger] self.devices@.contains_key(
                index,
            ) by {
                if self.devices@.contains_key(index) {
                    let i = choose|i: int|
                        0 <= i < r@.len() && crate::table::Key::id(&(#[trigger] r@[i])) == index;
                    assert(r@[i] == index);
                }
                if r@.contains(index) {
                    let i = choose|i: int| 0 <= i < r@.len() && r@[i] == index;
                    assert(self.devices@.contains_key(crate::table::Key::id(&r@[i])));
                }
            }
            assert forall|i: int, j: int| 0 <= i < r@.len() && 0 <= j < r@.len() && i
                != j implies r@[i] != r@[j] by {
                assert(crate::table::Key::id(&r@[i]) == r@[i]);
                assert(crate::table::Key::id(&r@[j]) == r@[j]);
            }
        }
        r
    }

    // --- Connections -------------------------------------------------------------------------

    /// Registers the connection of a profile, and returns its path.
    pub fn register_connection(&mut self, profile_id: &str) -> (r: String)
        ensures
            r@ == convert::connection_name(profile_id@),
            final(self).connections@ == old(self).connections@.insert(profile_id@, r),
            final(self).devices == old(self).devices,
            final(self).device_states == old(self).device_states,
            final(self).access_points == old(self).access_points,
            final(self).active_connections == old(self).active_connections,
            final(self).bound == old(self).bound,
            final(self).root_state == old(self).root_state,
    {
        let path: String = connection_path(profile_id);
        self.connections.insert(profile_id.to_owned(), path.clone());
        path
    }

    /// Looks up the registered connection object path for a profile id.
    pub fn connection_path_lookup(&self, profile_id: &str) -> (r: Option<String>)
        ensures
            match r {
                Some(path) => self.connections@.contains_key(profile_id@)
                    && self.connections@[profile_id@] == path,
                None => !self.connections@.contains_key(profile_id@),
            },
    {
        match self.connections.get(&profile_id.to_owned()) {
            Some(path) => Some(path.clone()),
            None => None,
        }
    }

    /// Drops the registry entry for a profile id and returns its path.
    pub fn take_connection_path(&mut self, profile_id: &str) -> (r: Option<String>)
        ensures
            final(self).connections@ == old(self).connections@.remove(profile_id@),
            final(self).devices == old(self).devices,
            final(self).device_states == old(self).device_states,
            final(self).access_points == old(self).access_points,
            final(self).active_connections == old(self).active_connections,
            final(self).bound == old(self).bound,
            final(self).root_state == old(self).root_state,
            match r {
                Some(path) => old(self).connections@.contains_key(profile_id@)
                    && old(self).connections@[profile_id@] == path,
                None => !old(self).connections@.contains_key(profile_id@),
            },
    {
        self.connections.remove(&profile_id.to_owned())
    }

    /// The paths of the registered connections of profiles that apply to a device,
    /// or of all of them.
    pub fn connection_paths(
        &self,
        profiles: &Vec<ConnectionProfile>,
        device: Option<&DeviceInfo>,
    ) -> (r: Vec<String>)
        ensures
            r@ == registered_paths(self.connections@, profiles@, info_of(device)),
    {
        let mut r: Vec<String> = Vec::new();
        let mut i: usize = 0;
        assert(profiles@.take(0) =~= Seq::empty());
        while i < profiles.len()
            invariant
                i <= profiles@.len(),
                r@ == registered_paths(
                    self.connections@,
                    profiles@.take(i as int),
                    info_of(device),
                ),
            decreases profiles@.len() - i,
        {
            assert(profiles@.take(i + 1).drop_last() =~= profiles@.take(i as int));
            let wanted: bool = match device {
                Some(info) => profiles[i].matches(info),
                None => true,
            };
            if wanted {
                if let Some(path) = self.connection_path_lookup(profiles[i].id.as_str()) {
                    r.push(path);
                }
            }
            i = i + 1;
        }
        assert(profiles@.take(i as int) =~= profiles@);
        r
    }

    /// The path of the registered connection with a UUID.
    pub fn connection_by_uuid(&self, profiles: &Vec<ConnectionProfile>, uuid: &str) -> (r: Result<
        String,
        FacadeError,
    >)
        ensures
            match path_with_uuid(self.connections@, profiles@, uuid@) {
                Some(path) => r == Ok::<String, FacadeError>(path),
                None => convert::fails_as(r, FacadeErrorView::UnknownConnection(uuid@)),
            },
    {
        let ghost all = profiles@;
        let mut i: usize = 0;
        assert(all.skip(0) =~= all);
        while i < profiles.len()
            invariant
                i <= profiles@.len(),
                all == profiles@,
                path_with_uuid(self.connections@, all, uuid@) == path_with_uuid(
                    self.connections@,
                    all.skip(i as int),
                    uuid@,
                ),
            decreases profiles@.len() - i,
        {
            assert(all.skip(i as int)[0] == all[i as int]);
            assert(all.skip(i as int).skip(1) =~= all.skip(i + 1));
            if same_text(stable_uuid(profiles[i].id.as_str()).as_str(), uuid) {
                if let Some(path) = self.connection_path_lookup(profiles[i].id.as_str()) {
                    return Ok(path);
                }
            }
            i = i + 1;
        }
        Err(FacadeError::UnknownConnection(uuid.to_owned()))
    }

    // --- Active connections and access points ------------------------------------------------

    /// Registers an active connection.
    pub fn register_active_connection(&mut self, id: ActiveConnectionId)
        ensures
            final(self).active_connections@ == old(self).active_connections@.insert(id.0, ()),
            final(self).connections == old(self).connections,
            final(self).devices == old(self).devices,
            final(self).device_states == old(self).device_states,
            final(self).access_points == old(self).access_points,
            final(self).bound == old(self).bound,
            final(self).root_state == old(self).root_state,
    {
        self.active_connections.insert(id.as_u64(), ());
    }

    /// Unregisters an active connection.
    pub fn unregister_active_connection(&mut self, id: ActiveConnectionId)
        ensures
            final(self).active_connections@ == old(self).active_connections@.remove(id.0),
            final(self).connections == old(self).connections,
            final(self).devices == old(self).devices,
            final(self).device_states == old(self).device_states,
            final(self).access_points == old(self).access_points,
            final(self).bound == old(self).bound,
            final(self).root_state == old(self).root_state,
    {
        let _known: Option<()> = self.active_connections.remove(&id.as_u64());
    }

    /// Returns whether an active connection object is registered for `id`.
    pub fn is_active_connection_registered(&self, id: ActiveConnectionId) -> (r: bool)
        ensures
            r == self.active_connections@.contains_key(id.0),
    {
        self.active_connections.contains_key(&id.as_u64())
    }

    /// Registers an access point.
    pub fn register_access_point(&mut self, bssid: Bssid)
        ensures
            final(self).access_points@ == old(self).access_points@.insert(bssid.0@, ()),
            final(self).connections == old(self).connections,
            final(self).devices == old(self).devices,
            final(self).device_states == old(self).device_states,
            final(self).active_connections == old(self).active_connections,
            final(self).bound == old(self).bound,
            final(self).root_state == old(self).root_state,
    {
        self.access_points.insert(bssid, ());
    }

    /// Unregisters an access point.
    pub fn unregister_access_point(&mut self, bssid: &Bssid)
        ensures
            final(self).access_points@ == old(self).access_points@.remove(bssid.0@),
            final(self).connections == old(self).connections,
            final(self).devices == old(self).devices,
            final(self).device_states == old(self).device_states,
            final(self).active_connections == old(self).active_connections,
            final(self).bound == old(self).bound,
            final(self).root_state == old(self).root_state,
    {
        let _known: Option<()> = self.access_points.remove(bssid);
    }

    /// BSSIDs of every registered access point object.
    pub fn registered_access_point_bssids(&self) -> (r: Vec<Bssid>)
        ensures
            forall|i: int|
                0 <= i < r@.len() ==> self.access_points@.contains_key((#[trigger] r@[i]).0@),
            forall|bssid: Seq<u8>| #[trigger]
                self.access_points@.contains_key(bssid) ==> exists|i: int|
                    0 <= i < r@.len() && (#[trigger] r@[i]).0@ == bssid,
            forall|i: int, j: int|
                0 <= i < j < r@.len() ==> (#[trigger] r@[i]).0@ != (#[trigger] r@[j]).0@,
    {
        let r: Vec<Bssid> = self.access_points.keys();
        proof {
            assert forall|i: int| 0 <= i < r@.len() implies self.access_points@.contains_key(
                (#[trigger] r@[i]).0@,
            ) by {
                assert(self.access_points@.contains_key(crate::table::Key::id(&r@[i])));
            }
            assert forall|bssid: Seq<u8>| #[trigger]
                self.access_points@.contains_key(bssid) implies exists|i: int|
                0 <= i < r@.len() && (#[trigger] r@[i]).0@ == bssid by {
                let i = choose|i: int|
                    0 <= i < r@.len() && crate::table::Key::id(&(#[trigger] r@[i])) == bssid;
                assert(r@[i].0@ == bssid);
            }
            assert forall|i: int, j: int| 0 <= i < j < r@.len() implies (#[trigger] r@[i]).0@ != (
            #[trigger] r@[j]).0@ by {
                assert(crate::table::Key::id(&r@[i]) != crate::table::Key::id(&r@[j]));
            }
        }
        r
    }

    // --- Signals ---------------------------------------------------------------------------------

    /// Notes the state of a device, and returns the state told before where the
    /// change is to be told.
    pub fn emit_device_state(&mut self, index: i32, state: u32) -> (r: Option<u32>)
        ensures
            r == if last_told(old(self).device_states@, index) == state {
                None
            } else {
                Some(last_told(old(self).device_states@, index))
            },
            final(self).device_states@ == after_news(old(self).device_states@, index, state),
            final(self).connections == old(self).connections,
            final(self).devices == old(self).devices,
            final(self).access_points == old(self).access_points,
            final(self).active_connections == old(self).active_connections,
            final(self).bound == old(self).bound,
            final(self).root_state == old(self).root_state,
    {
        let previous: u32 = match self.device_states.get(&index) {
            Some(previous) => *previous,
            None => NM_DEVICE_STATE_UNKNOWN,
        };
        if previous == state {
            return None;
        }
        self.device_states.insert(index, state);
        Some(previous)
    }

    /// Notes the daemon-wide state, and returns whether the change is to be told.
    pub fn emit_root_state_if_changed(&mut self, state: u32) -> (r: bool)
        ensures
            r == (state != old(self).root_state),
            final(self).root_state == state,
            final(self).bound == old(self).bound,
            final(self).connections == old(self).connections,
            final(self).devices == old(self).devices,
            final(self).device_states == old(self).device_states,
            final(self).access_points == old(self).access_points,
            final(self).active_connections == old(self).active_connections,
    {
        if state == self.root_state {
            return false;
        }
        self.root_state = state;
        true
    }

    fn push_device_news(&mut self, signals: &mut Vec<BusSignal>, index: i32, state: u32)
        ensures
            final(signals)@ == old(signals)@ + device_news(
                old(self).device_states@,
                index,
                state,
            ),
            final(self).device_states@ == after_news(old(self).device_states@, index, state),
            final(self).connections == old(self).connections,
            final(self).devices == old(self).devices,
            final(self).access_points == old(self).access_points,
            final(self).active_connections == old(self).active_connections,
            final(self).bound == old(self).bound,
            final(self).root_state == old(self).root_state,
    {
        let ghost before = signals@;
        if let Some(previous) = self.emit_device_state(index, state) {
            signals.push(BusSignal::DeviceState { index, state, previous });
        }
        assert(signals@ =~= before + device_news(old(self).device_states@, index, state));
    }

    /// Finds the device that the connection of an event is bound to.
    fn find_event_device(
        &self,
        id: ActiveConnectionId,
        active: &[ActiveConnection],
        devices: &Vec<DeviceView>,
    ) -> (r: Option<i32>)
        ensures
            r == event_device(self.told(), id, active@, devices@),
    {
        match active_by_id(active, id) {
            Some(connection) => device_index_by_name(
                devices,
                connection.device.interface_name.as_str(),
            ),
            None => match self.bound.get(&id.as_u64()) {
                Some(found) => Some(*found),
                None => None,
            },
        }
    }

    /// Mirrors one of the daemon's connection events onto the bus: the signals to
    /// emit, in order.
    ///
    /// Failures are already mirrored by the preceding change of state, which drives
    /// both the active connection and the device into their failed states.
    pub fn mirror_event(
        &mut self,
        event: &ConnectionEvent,
        active: &[ActiveConnection],
        devices: &Vec<DeviceView>,
    ) -> (r: Vec<BusSignal>)
        ensures
            (final(self).told(), r@) == mirrored(
                old(self).told(),
                event@,
                event_device(old(self).told(), subject(event@), active@, devices@),
            ),
            final(self).connections == old(self).connections,
            final(self).devices == old(self).devices,
            final(self).access_points == old(self).access_points,
            final(self).root_state == old(self).root_state,
    {
        let ghost before = self.told();
        let ghost index = event_device(before, subject(event@), active@, devices@);
        let mut signals: Vec<BusSignal> = Vec::new();
        match event {
            ConnectionEvent::StateChanged { active_id, profile_id: _, previous, current } => {
                signals.push(
                    BusSignal::ActiveState {
                        id: *active_id,
                        state: nm_state(*current),
                        previous: nm_state(*previous),
                    },
                );
                if let Some(found) = self.find_event_device(*active_id, active, devices) {
                    self.bound.insert(active_id.as_u64(), found);
                    self.push_device_news(
                        &mut signals,
                        found,
                        connection_to_device_state(*current),
                    );
                }
            },
            ConnectionEvent::Activated { .. } => {},
            ConnectionEvent::Deactivated { active_id, profile_id: _ } => {
                self.unregister_active_connection(*active_id);
                signals.push(BusSignal::ActiveRemoved { id: *active_id });
                if let Some(found) = self.bound.remove(&active_id.as_u64()) {
                    self.push_device_news(&mut signals, found, NM_DEVICE_STATE_DISCONNECTED);
                }
            },
            ConnectionEvent::Failed { .. } => {},
        }
        assert(signals@ =~= mirrored(before, event@, index).1);
        assert(self.told() =~= mirrored(before, event@, index).0);
        signals
    }

    /// Mirrors the daemon's pending connection events onto the bus, and then its
    /// overall state: the signals to emit, in order.
    pub fn mirror_events(
        &mut self,
        events: &Vec<ConnectionEvent>,
        active: &[ActiveConnection],
        devices: &Vec<DeviceView>,
    ) -> (r: Vec<BusSignal>)
        ensures
            ({
                let all = mirrored_all(
                    old(self).told(),
                    state::connection_event_views(events@),
                    active@,
                    devices@,
                );
                let state = root::global_state(active@.len());
                &&& r@ == all.1 + root_news(old(self).root_state, state)
                &&& final(self).told() == all.0
                &&& final(self).root_state == state
            }),
            final(self).connections == old(self).connections,
            final(self).devices == old(self).devices,
            final(self).access_points == old(self).access_points,
    {
        let mut signals: Vec<BusSignal> = Vec::new();
        let ghost start = self.told();
        let ghost all = state::connection_event_views(events@);
        let mut i: usize = 0;
        assert(all.take(0) =~= Seq::empty());
        while i < events.len()
            invariant
                i <= events@.len(),
                all == state::connection_event_views(events@),
                (self.told(), signals@) == mirrored_all(
                    start,
                    all.take(i as int),
                    active@,
                    devices@,
                ),
                self.connections == old(self).connections,
                self.devices == old(self).devices,
                self.access_points == old(self).access_points,
                self.root_state == old(self).root_state,
            decreases events@.len() - i,
        {
            let ghost told_before = signals@;
            let mut step: Vec<BusSignal> = self.mirror_event(&events[i], active, devices);
            let ghost stepped = step@;
            signals.append(&mut step);
            assert(signals@ =~= told_before + stepped);
            assert(all[i as int] == events@[i as int]@);
            assert(all.take(i + 1).drop_last() =~= all.take(i as int));
            i = i + 1;
        }
        assert(all.take(all.len() as int) =~= all);
        let state: u32 = if active.len() == 0 {
            NM_STATE_DISCONNECTED
        } else {
            NM_STATE_CONNECTED_GLOBAL
        };
        let ghost news = root_news(self.root_state, state);
        let ghost mirrored_part = signals@;
        if self.emit_root_state_if_changed(state) {
            signals.push(BusSignal::RootState { state });
        }
        assert(signals@ =~= mirrored_part + news);
        signals
    }
}

/// The view of an optional device.
pub open spec fn info_of(device: Option<&DeviceInfo>) -> Option<DeviceInfoView> {
    match device {
        Some(info) => Some(info@),
        None => None,
    }
}

/// The registered paths of profiles that apply to a device, or of all of them, in
/// order.
pub open spec fn registered_paths(
    connections: Map<Seq<char>, String>,
    profiles: Seq<ConnectionProfile>,
    device: Option<DeviceInfoView>,
) -> Seq<String>
    decreases profiles.len(),
{
    if profiles.len() == 0 {
        Seq::empty()
    } else {
        let before = registered_paths(connections, profiles.drop_last(), device);
        let last = profiles.last()@;
        if (device is None || profile::applies(last, device->0)) && connections.contains_key(
            last.id,
        ) {
            before.push(connections[last.id])
        } else {
            before
        }
    }
}

/// The registered path of the first profile with a UUID that has one.
pub open spec fn path_with_uuid(
    connections: Map<Seq<char>, String>,
    profiles: Seq<ConnectionProfile>,
    uuid: Seq<char>,
) -> Option<String>
    decreases profiles.len(),
{
    if profiles.len() == 0 {
        None
    } else {
        let id = profiles[0]@.id;
        if convert::uuid_of(id) == uuid && connections.contains_key(id) {
            Some(connections[id])
        } else {
            path_with_uuid(connections, profiles.skip(1), uuid)
        }
    }
}

// --- Laws ------------------------------------------------------------------------------------------

/// A change of a device's state is only told when there is one, and what is told
/// as the state before is what was told last.
pub proof fn lemma_device_signals_are_news(
    told: Told,
    event: ConnectionEventView,
    index: Option<i32>,
    i: int,
)
    requires
        0 <= i < mirrored(told, event, index).1.len(),
        mirrored(told, event, index).1[i] is DeviceState,
    ensures
        ({
            let signal = mirrored(told, event, index).1[i];
            let after = mirrored(told, event, index).0;
            &&& signal->DeviceState_state != signal->DeviceState_previous
            &&& signal->DeviceState_previous == last_told(told.device_states, signal->index)
            &&& signal->DeviceState_state == last_told(after.device_states, signal->index)
        }),
{
}

/// Every change of a connection's state is told, and names the states that clients
/// see for the states before and after.
pub proof fn lemma_every_change_is_told(told: Told, event: ConnectionEventView, index: Option<i32>)
    requires
        event is StateChanged,
    ensures
        mirrored(told, event, index).1.len() > 0,
        mirrored(told, event, index).1[0] == (BusSignal::ActiveState {
            id: subject(event),
            state: active_connection::client_state(event->current),
            previous: active_connection::client_state(event->previous),
        }),
{
}

/// A connection that was deactivated is registered no longer.
pub proof fn lemma_deactivated_is_gone(told: Told, event: ConnectionEventView, index: Option<i32>)
    requires
        event is Deactivated,
    ensures
        !mirrored(told, event, index).0.active_connections.contains_key(subject(event).0),
        !mirrored(told, event, index).0.bound.contains_key(subject(event).0),
{
}

/// A change of a connection's state drives its device into the state that goes
/// with it, and binds the connection to the device.
pub proof fn lemma_device_follows_connection(
    told: Told,
    event: ConnectionEventView,
    index: Option<i32>,
)
    requires
        event is StateChanged,
        index is Some,
    ensures
        ({
            let after = mirrored(told, event, index).0;
            &&& last_told(after.device_states, index->0) == device::driven_state(event->current)
            &&& after.bound.contains_key(subject(event).0)
            &&& after.bound[subject(event).0] == index->0
        }),
{
}

/// An activation binds its connection to the device of its interface, which ends
/// up activated.
pub proof fn lemma_activation_is_mirrored(
    told: Told,
    id: ActiveConnectionId,
    profile_id: Seq<char>,
    active: Seq<ActiveConnection>,
    devices: Seq<DeviceView>,
    index: i32,
)
    requires
        active_connection::connection_with(active, id) is Some,
        event_device(told, id, active, devices) == Some(index),
    ensures
        ({
            let after = mirrored_all(
                told,
                activation::success_events(id, profile_id),
                active,
                devices,
            ).0;
            &&& last_told(after.device_states, index) == NM_DEVICE_STATE_ACTIVATED
            &&& after.bound.contains_key(id.0)
            &&& after.bound[id.0] == index
        }),
{
    let events = activation::success_events(id, profile_id);
    reveal_with_fuel(mirrored_all, 6);
    assert(events.drop_last().last() == events[3]);
    assert(events.drop_last().drop_last().last() == events[2]);
}

/// The deactivation of a bound connection that is tracked no longer is told of its
/// device: the signals of its events end with the device disconnected, and with
/// the removal of the connection.
pub proof fn lemma_deactivation_is_mirrored(
    told: Told,
    id: ActiveConnectionId,
    profile_id: Seq<char>,
    active: Seq<ActiveConnection>,
    devices: Seq<DeviceView>,
)
    requires
        told.bound.contains_key(id.0),
        active_connection::connection_with(active, id) is None,
    ensures
        ({
            let index = told.bound[id.0];
            let all = mirrored_all(
                told,
                activation::removal_events(id, profile_id),
                active,
                devices,
            );
            &&& all.1 == seq![
                BusSignal::ActiveState {
                    id,
                    state: NM_ACTIVE_CONNECTION_STATE_DEACTIVATING,
                    previous: NM_ACTIVE_CONNECTION_STATE_ACTIVATED,
                },
            ] + device_news(told.device_states, index, NM_DEVICE_STATE_DEACTIVATING) + seq![
                BusSignal::ActiveState {
                    id,
                    state: NM_ACTIVE_CONNECTION_STATE_DEACTIVATED,
                    previous: NM_ACTIVE_CONNECTION_STATE_DEACTIVATING,
                },
                BusSignal::DeviceState {
                    index,
                    state: NM_DEVICE_STATE_DISCONNECTED,
                    previous: NM_DEVICE_STATE_DEACTIVATING,
                },
                BusSignal::ActiveRemoved { id },
            ]
            &&& last_told(all.0.device_states, index) == NM_DEVICE_STATE_DISCONNECTED
            &&& !all.0.bound.contains_key(id.0)
            &&& !all.0.active_connections.contains_key(id.0)
        }),
{
    let index = told.bound[id.0];
    let events = activation::removal_events(id, profile_id);
    let one = events.drop_last().drop_last();
    let two = events.drop_last();
    assert(one.last() == events[0]);
    assert(two.last() == events[1]);
    assert(events.last() == events[2]);
    assert(one.drop_last() =~= Seq::empty());
    let a = mirrored_all(told, one, active, devices);
    let b = mirrored_all(told, two, active, devices);
    let c = mirrored_all(told, events, active, devices);
    assert(mirrored_all(told, Seq::empty(), active, devices).1 =~= Seq::empty());
    assert(a.0 == mirrored(told, events[0], Some(index)).0);
    assert(a.1 =~= mirrored(told, events[0], Some(index)).1);
    assert(b.0 == mirrored(a.0, events[1], Some(index)).0);
    assert(b.1 == a.1 + mirrored(a.0, events[1], Some(index)).1);
    assert(last_told(b.0.device_states, index) == NM_DEVICE_STATE_DISCONNECTED);
    assert(c.1 =~= b.1 + seq![BusSignal::ActiveRemoved { id }]);
    assert(c.1 =~= a.1 + seq![
        BusSignal::ActiveState {
            id,
            state: NM_ACTIVE_CONNECTION_STATE_DEACTIVATED,
            previous: NM_ACTIVE_CONNECTION_STATE_DEACTIVATING,
        },
        BusSignal::DeviceState {
            index,
            state: NM_DEVICE_STATE_DISCONNECTED,
            previous: NM_DEVICE_STATE_DEACTIVATING,
        },
        BusSignal::ActiveRemoved { id },
    ]);
}

} // verus!
