//! The daemon coordinator.

use vstd::prelude::*;

use crate::connection::activation;
use crate::connection::activation::{
    ActivationEngine, ActivationError, ActivationManager, ActiveConnection, ActiveConnectionId,
    ManagerView, UnsupportedActivationEngine,
};
use crate::connection::device::{DeviceInfo, DeviceInfoView, DeviceKind};
use crate::connection::profile::{ConnectionProfile, ProfileId, ProfileView};
use crate::connection::state::ConnectionEvent;
use crate::connection::store::{InMemoryProfileStore, ProfileStore, StoreError};
use crate::linux::model::{
    AccessPoint, Address, Link, NetlinkError, NetworkEvent, NetworkEventSource, Route,
    WirelessInterface,
};

verus! {

/// Minimal backend boundary for daemon networking state.
///
/// What a backend may answer is up to the backend.
pub trait NetworkBackend: Sized {
    /// A source of events.
    type Events: NetworkEventSource;

    open spec fn may_links(&self, reply: Result<Vec<Link>, NetlinkError>) -> bool {
        true
    }

    open spec fn may_addresses(&self, reply: Result<Vec<Address>, NetlinkError>) -> bool {
        true
    }

    open spec fn may_routes(&self, reply: Result<Vec<Route>, NetlinkError>) -> bool {
        true
    }

    open spec fn may_events(&self, reply: Result<Self::Events, NetlinkError>) -> bool {
        true
    }

    open spec fn may_wifi_interfaces(&self, reply: Result<Vec<WirelessInterface>, NetlinkError>) -> bool {
        true
    }

    open spec fn may_access_points(&self, reply: Result<Vec<AccessPoint>, NetlinkError>) -> bool {
        true
    }

    open spec fn may_scan_wifi(&self, reply: Result<Vec<AccessPoint>, NetlinkError>) -> bool {
        true
    }

    open spec fn may_wifi_events(&self, reply: Result<Self::Events, NetlinkError>) -> bool {
        true
    }

    fn links(&self) -> (r: Result<Vec<Link>, NetlinkError>)
        ensures
            self.may_links(r),
    ;

    fn addresses(&self) -> (r: Result<Vec<Address>, NetlinkError>)
        ensures
            self.may_addresses(r),
    ;

    fn routes(&self) -> (r: Result<Vec<Route>, NetlinkError>)
        ensures
            self.may_routes(r),
    ;

    fn events(&self) -> (r: Result<Self::Events, NetlinkError>)
        ensures
            self.may_events(r),
    ;

    fn wifi_interfaces(&self) -> (r: Result<Vec<WirelessInterface>, NetlinkError>)
        ensures
            self.may_wifi_interfaces(r),
    ;

    fn access_points(&self) -> (r: Result<Vec<AccessPoint>, NetlinkError>)
        ensures
            self.may_access_points(r),
    ;

    fn scan_wifi(&self) -> (r: Result<Vec<AccessPoint>, NetlinkError>)
        ensures
            self.may_scan_wifi(r),
    ;

    fn wifi_events(&self) -> (r: Result<Self::Events, NetlinkError>)
        ensures
            self.may_wifi_events(r),
    ;
}

/// The devices that wireless interfaces are.
pub open spec fn devices_of(interfaces: Seq<WirelessInterface>) -> Seq<DeviceInfoView> {
    interfaces.map_values(
        |interface: WirelessInterface|
            DeviceInfoView {
                kind: DeviceKind::Wifi,
                interface_name: interface.name@,
                mac_address: interface@.mac,
            },
    )
}

/// The views of a list of devices.
pub open spec fn device_views(devices: Seq<DeviceInfo>) -> Seq<DeviceInfoView> {
    devices.map_values(|device: DeviceInfo| device@)
}

/// The devices that wireless interfaces are, in their order.
pub fn wireless_devices(interfaces: &Vec<WirelessInterface>) -> (r: Vec<DeviceInfo>)
    ensures
        device_views(r@) == devices_of(interfaces@),
{
    let mut r: Vec<DeviceInfo> = Vec::new();
    let mut i: usize = 0;
    while i < interfaces.len()
        invariant
            i <= interfaces@.len(),
            device_views(r@) == devices_of(interfaces@).take(i as int),
        decreases interfaces@.len() - i,
    {
        let ghost before = r@;
        let device: DeviceInfo = DeviceInfo::from_wireless(&interfaces[i]);
        r.push(device);
        assert(device_views(r@) =~= device_views(before).push(device@));
        assert(devices_of(interfaces@).take(i + 1) =~= devices_of(interfaces@).take(i as int).push(
            devices_of(interfaces@)[i as int],
        ));
        i = i + 1;
    }
    assert(devices_of(interfaces@).take(i as int) =~= devices_of(interfaces@));
    r
}

/// Daemon coordinator.
///
/// Owns a network [`NetworkBackend`], a connection-profile store and the
/// [`ActivationManager`]. The daemon itself never touches filesystem or
/// netlink details directly; those live behind the backend and store traits.
pub struct Daemon<B, S, E> {
    pub backend: B,
    pub profiles: S,
    pub activation: ActivationManager<E>,
}

impl<B: NetworkBackend> Daemon<B, InMemoryProfileStore, UnsupportedActivationEngine> {
    /// Creates a daemon with an in-memory profile store and a placeholder
    /// activation engine.
    pub fn new(backend: B) -> (r: Self)
        ensures
            r.backend == backend,
            r.profiles@ == Map::<Seq<char>, ProfileView>::empty(),
            r.activation@ == ManagerView::fresh(),
            r.activation.wf(),
    {
        Daemon::with_components(backend, InMemoryProfileStore::new(), UnsupportedActivationEngine)
    }
}

impl<B: NetworkBackend, S: ProfileStore> Daemon<B, S, UnsupportedActivationEngine> {
    /// Creates a daemon with a custom profile store.
    pub fn with_store(backend: B, store: S) -> (r: Self)
        ensures
            r.backend == backend,
            r.profiles == store,
            r.activation@ == ManagerView::fresh(),
            r.activation.wf(),
    {
        Daemon::with_components(backend, store, UnsupportedActivationEngine)
    }
}

impl<B: NetworkBackend, E: ActivationEngine> Daemon<B, InMemoryProfileStore, E> {
    /// Creates a daemon with a custom activation engine.
    pub fn with_engine(backend: B, engine: E) -> (r: Self)
        ensures
            r.backend == backend,
            r.profiles@ == Map::<Seq<char>, ProfileView>::empty(),
            r.activation@ == ManagerView::fresh(),
            r.activation.engine == engine,
            r.activation.wf(),
    {
        Daemon::with_components(backend, InMemoryProfileStore::new(), engine)
    }
}

impl<B: NetworkBackend, S: ProfileStore, E: ActivationEngine> Daemon<B, S, E> {
    /// Creates a daemon with both a custom store and a custom engine.
    pub fn with_components(backend: B, store: S, engine: E) -> (r: Self)
        ensures
            r.backend == backend,
            r.profiles == store,
            r.activation@ == ManagerView::fresh(),
            r.activation.engine == engine,
            r.activation.wf(),
    {
        Daemon { backend, profiles: store, activation: ActivationManager::new(engine) }
    }

    // --- Network state ---------------------------------------------------

    /// The links of the host.
    pub fn links(&self) -> (r: Result<Vec<Link>, NetlinkError>)
        ensures
            self.backend.may_links(r),
    {
        self.backend.links()
    }

    /// The addresses of the host.
    pub fn addresses(&self) -> (r: Result<Vec<Address>, NetlinkError>)
        ensures
            self.backend.may_addresses(r),
    {
        self.backend.addresses()
    }

    /// The routes of the host.
    pub fn routes(&self) -> (r: Result<Vec<Route>, NetlinkError>)
        ensures
            self.backend.may_routes(r),
    {
        self.backend.routes()
    }

    /// A source of link, address and route events.
    pub fn events(&self) -> (r: Result<B::Events, NetlinkError>)
        ensures
            self.backend.may_events(r),
    {
        self.backend.events()
    }

    /// The wireless interfaces of the host.
    pub fn wifi_interfaces(&self) -> (r: Result<Vec<WirelessInterface>, NetlinkError>)
        ensures
            self.backend.may_wifi_interfaces(r),
    {
        self.backend.wifi_interfaces()
    }

    /// The access points that the last scan found.
    pub fn access_points(&self) -> (r: Result<Vec<AccessPoint>, NetlinkError>)
        ensures
            self.backend.may_access_points(r),
    {
        self.backend.access_points()
    }

    /// Scans for access points.
    pub fn scan_wifi(&self) -> (r: Result<Vec<AccessPoint>, NetlinkError>)
        ensures
            self.backend.may_scan_wifi(r),
    {
        self.backend.scan_wifi()
    }

    /// A source of scan events.
    pub fn wifi_events(&self) -> (r: Result<B::Events, NetlinkError>)
        ensures
            self.backend.may_wifi_events(r),
    {
        self.backend.wifi_events()
    }

    /// Waits for the next event of a source.
    pub fn next_event(source: &mut B::Events) -> (r: Result<Option<NetworkEvent>, NetlinkError>)
        ensures
            old(source).may_yield(r, *final(source)),
    {
        source.next_event()
    }

    /// Returns devices suitable for profile matching and activation: the
    /// wireless devices that the backend enumerates.
    pub fn devices(&self) -> (r: Result<Vec<DeviceInfo>, NetlinkError>)
        ensures
            exists|reply: Result<Vec<WirelessInterface>, NetlinkError>|
                {
                    &&& #[trigger] self.backend.may_wifi_interfaces(reply)
                    &&& match reply {
                        Ok(interfaces) => r matches Ok(devices) && device_views(devices@)
                            == devices_of(interfaces@),
                        Err(e) => r == Err::<Vec<DeviceInfo>, NetlinkError>(e),
                    }
                },
    {
        let reply: Result<Vec<WirelessInterface>, NetlinkError> = self.backend.wifi_interfaces();
        let ghost answer = reply;
        assert(self.backend.may_wifi_interfaces(answer));
        match reply {
            Ok(interfaces) => Ok(wireless_devices(&interfaces)),
            Err(e) => Err(e),
        }
    }

    // --- Profiles --------------------------------------------------------

    /// Lists all profiles.
    pub fn list_profiles(&self) -> (r: Result<Vec<ConnectionProfile>, StoreError>)
        ensures
            self.profiles.may_list(r),
    {
        self.profiles.list()
    }

    /// Retrieves a profile.
    pub fn get_profile(&self, id: &ProfileId) -> (r: Result<ConnectionProfile, StoreError>)
        ensures
            self.profiles.may_get(id@, r),
    {
        self.profiles.get(id)
    }

    /// Creates a profile.
    pub fn create_profile(&mut self, profile: ConnectionProfile) -> (r: Result<(), StoreError>)
        ensures
            old(self).profiles.may_create(profile@, r, final(self).profiles),
            final(self).backend == old(self).backend,
            final(self).activation == old(self).activation,
    {
        self.profiles.create(profile)
    }

    /// Replaces a profile.
    pub fn update_profile(&mut self, profile: ConnectionProfile) -> (r: Result<(), StoreError>)
        ensures
            old(self).profiles.may_update(profile@, r, final(self).profiles),
            final(self).backend == old(self).backend,
            final(self).activation == old(self).activation,
    {
        self.profiles.update(profile)
    }

    /// Removes a profile.
    pub fn delete_profile(&mut self, id: &ProfileId) -> (r: Result<(), StoreError>)
        ensures
            old(self).profiles.may_delete(id@, r, final(self).profiles),
            final(self).backend == old(self).backend,
            final(self).activation == old(self).activation,
    {
        self.profiles.delete(id)
    }

    // --- Activation ------------------------------------------------------

    /// Activates whatever profile suits a device best.
    pub fn activate(&mut self, device: &DeviceInfo) -> (r: Result<
        ActiveConnection,
        ActivationError,
    >)
        requires
            old(self).activation.next_id < u64::MAX,
        ensures
            old(self).activation.answers_for_device(
                old(self).profiles,
                device@,
                final(self).activation,
                r,
            ),
            final(self).backend == old(self).backend,
            final(self).profiles == old(self).profiles,
            old(self).activation.wf() ==> final(self).activation.wf(),
    {
        self.activation.activate(&self.profiles, device)
    }

    /// Activates a profile on a device.
    pub fn activate_profile(&mut self, profile_id: &ProfileId, device: &DeviceInfo) -> (r: Result<
        ActiveConnection,
        ActivationError,
    >)
        requires
            old(self).activation.next_id < u64::MAX,
        ensures
            old(self).activation.answers_for_profile(
                old(self).profiles,
                profile_id@,
                device@,
                final(self).activation,
                r,
            ),
            final(self).backend == old(self).backend,
            final(self).profiles == old(self).profiles,
            old(self).activation.wf() && activation::answers_by_id(old(self).profiles, profile_id@)
                ==> final(self).activation.wf(),
    {
        self.activation.activate_profile(&self.profiles, profile_id, device)
    }

    /// Deactivates a connection.
    pub fn deactivate(&mut self, active_id: ActiveConnectionId) -> (r: Result<(), ActivationError>)
        ensures
            old(self).activation.answers_for_removal(active_id, final(self).activation, r),
            final(self).backend == old(self).backend,
            final(self).profiles == old(self).profiles,
            old(self).activation.wf() ==> final(self).activation.wf(),
    {
        self.activation.deactivate(active_id)
    }

    /// The connections that are tracked.
    pub fn active_connections(&self) -> (r: &[ActiveConnection])
        ensures
            r@ == self.activation.active@,
    {
        self.activation.active_connections()
    }

    /// Takes all pending connection events.
    pub fn connection_events(&mut self) -> (r: Vec<ConnectionEvent>)
        ensures
            r@ == old(self).activation.events@,
            final(self).activation@ == (ManagerView {
                events: Seq::empty(),
                ..old(self).activation@
            }),
            final(self).activation.engine == old(self).activation.engine,
            final(self).backend == old(self).backend,
            final(self).profiles == old(self).profiles,
    {
        self.activation.drain_events()
    }
}

} // verus!
