//! Activation architecture.
//!
//! [`ActivationManager`] coordinates profile activation: it picks a suitable
//! profile, tracks typed state transitions, records [`ConnectionEvent`]s and
//! inspects active connections. The actual work of bringing a connection up is
//! delegated to an [`ActivationEngine`].

use vstd::prelude::*;

use crate::connection::device::{DeviceInfo, DeviceInfoView};
use crate::connection::ip::{ActivationOutcome, ActivationOutcomeView};
use crate::connection::policy;
use crate::connection::policy::order_for_autoconnect;
use crate::connection::profile;
use crate::connection::profile::{ConnectionProfile, ProfileId, ProfileView};
use crate::connection::state;
use crate::connection::state::{ConnectionEvent, ConnectionEventView, ConnectionState, StateError};
use crate::connection::store;
use crate::connection::store::{ProfileStore, StoreError};
use crate::text;
use crate::text::{concat2, concat3, concat5, decimal_text, quoted, same_text};

verus! {

/// Unique handle for an active connection.
#[derive(Clone, Copy, Debug, PartialEq, Eq, PartialOrd, Ord, Hash, Structural)]
pub struct ActiveConnectionId(pub u64);

impl ActiveConnectionId {
    /// The handle with a number.
    pub fn new(value: u64) -> (r: Self)
        ensures
            r.0 == value,
    {
        ActiveConnectionId(value)
    }

    /// The number of the handle.
    pub fn as_u64(self) -> (r: u64)
        ensures
            r == self.0,
    {
        self.0
    }

    /// Writes the number of the handle.
    pub fn to_string(&self) -> (r: String)
        ensures
            r@ == text::decimal(self.0 as nat),
    {
        decimal_text(self.0)
    }
}

/// A connection that has been (or is being) activated on a device.
#[derive(Debug, PartialEq, Eq)]
pub struct ActiveConnection {
    pub id: ActiveConnectionId,
    pub profile: ConnectionProfile,
    pub device: DeviceInfo,
    pub state: ConnectionState,
    /// The configuration the engine actually put in place, once `Activated`.
    pub outcome: ActivationOutcome,
}

/// An active connection, with its texts and lists as sequences.
#[verifier::ext_equal]
pub struct ActiveConnectionView {
    pub id: ActiveConnectionId,
    pub profile: ProfileView,
    pub device: DeviceInfoView,
    pub state: ConnectionState,
    pub outcome: ActivationOutcomeView,
}

impl ActiveConnection {
    pub open spec fn view(&self) -> ActiveConnectionView {
        ActiveConnectionView {
            id: self.id,
            profile: self.profile@,
            device: self.device@,
            state: self.state,
            outcome: self.outcome@,
        }
    }
}

impl Clone for ActiveConnection {
    fn clone(&self) -> (r: Self)
        ensures
            r@ == self@,
    {
        ActiveConnection {
            id: self.id,
            profile: self.profile.clone(),
            device: self.device.clone(),
            state: self.state,
            outcome: self.outcome.clone(),
        }
    }
}

/// The views of a list of active connections.
pub open spec fn active_views(list: Seq<ActiveConnection>) -> Seq<ActiveConnectionView> {
    list.map_values(|active: ActiveConnection| active@)
}

/// Errors reported during activation and deactivation.
#[derive(Debug, PartialEq, Eq)]
pub enum ActivationError {
    ProfileNotFound(ProfileId),
    DeviceIncompatible { profile_id: ProfileId, device: DeviceInfo },
    NoSuitableProfile(DeviceInfo),
    AlreadyActive(ProfileId),
    UnknownActiveConnection(ActiveConnectionId),
    InvalidState { active_id: ActiveConnectionId, from: ConnectionState },
    State(StateError),
    Store(StoreError),
    Engine(String),
}

impl ActivationError {
    /// What the error says of itself.
    pub open spec fn text(self) -> Seq<char> {
        match self {
            ActivationError::ProfileNotFound(id) => "connection profile "@ + text::quoted_text(id@)
                + " not found"@,
            ActivationError::DeviceIncompatible { profile_id, device } => "connection profile "@
                + text::quoted_text(profile_id@) + " does not match device "@ + device.interface_name@
                + " ("@ + device.kind.text() + ")"@,
            ActivationError::NoSuitableProfile(device) => "no suitable connection profile for device "@
                + device.interface_name@ + " ("@ + device.kind.text() + ")"@,
            ActivationError::AlreadyActive(id) => "connection profile "@ + text::quoted_text(id@)
                + " is already active"@,
            ActivationError::UnknownActiveConnection(active_id) => "no active connection with id "@
                + text::decimal(active_id.0 as nat),
            ActivationError::InvalidState { active_id, from } => "active connection "@ + text::decimal(
                active_id.0 as nat,
            ) + " cannot be deactivated from "@ + from.text(),
            ActivationError::State(err) => err.text(),
            ActivationError::Store(err) => "profile store error: "@ + err.text(),
            ActivationError::Engine(reason) => "activation engine error: "@ + reason@,
        }
    }

    /// Describes the error.
    pub fn to_string(&self) -> (r: String)
        ensures
            r@ == self.text(),
    {
        match self {
            ActivationError::ProfileNotFound(id) => concat3(
                "connection profile ",
                quoted(id.as_str()).as_str(),
                " not found",
            ),
            ActivationError::DeviceIncompatible { profile_id, device } => {
                let head: String = concat3(
                    "connection profile ",
                    quoted(profile_id.as_str()).as_str(),
                    " does not match device ",
                );
                concat5(
                    head.as_str(),
                    device.interface_name.as_str(),
                    " (",
                    device.kind.to_string().as_str(),
                    ")",
                )
            },
            ActivationError::NoSuitableProfile(device) => concat5(
                "no suitable connection profile for device ",
                device.interface_name.as_str(),
                " (",
                device.kind.to_string().as_str(),
                ")",
            ),
            ActivationError::AlreadyActive(id) => concat3(
                "connection profile ",
                quoted(id.as_str()).as_str(),
                " is already active",
            ),
            ActivationError::UnknownActiveConnection(active_id) => concat2(
                "no active connection with id ",
                active_id.to_string().as_str(),
            ),
            ActivationError::InvalidState { active_id, from } => {
                let head: String = concat3(
                    "active connection ",
                    active_id.to_string().as_str(),
                    " cannot be deactivated from ",
                );
                concat2(head.as_str(), from.to_string().as_str())
            },
            ActivationError::State(err) => err.to_string(),
            ActivationError::Store(err) => concat2(
                "profile store error: ",
                err.to_string().as_str(),
            ),
            ActivationError::Engine(reason) => concat2(
                "activation engine error: ",
                reason.as_str(),
            ),
        }
    }
}

/// Whether an error is that of an engine, with the given reason.
pub open spec fn is_engine_error(error: ActivationError, reason: Seq<char>) -> bool {
    error matches ActivationError::Engine(said) && said@ == reason
}

/// Performs the real work of bringing a profile up or down on a device.
///
/// Implementations report success only when the underlying operation actually
/// succeeded; the manager will not fabricate an `Activated` state otherwise.
/// On success [`ActivationEngine::activate`] returns the configuration that was
/// actually installed so callers can render it without probing the kernel.
///
/// What an engine may answer, and what becomes of it, is up to the engine.
pub trait ActivationEngine: Sized {
    /// Whether activating a profile on a device may be answered with `reply`
    /// and turn the engine into `after`.
    open spec fn may_activate(
        &self,
        profile: ProfileView,
        device: DeviceInfoView,
        reply: Result<ActivationOutcome, ActivationError>,
        after: Self,
    ) -> bool {
        true
    }

    /// Whether deactivating a profile may be answered with `reply` and turn
    /// the engine into `after`.
    open spec fn may_deactivate(
        &self,
        profile: ProfileView,
        reply: Result<(), ActivationError>,
        after: Self,
    ) -> bool {
        true
    }

    fn activate(&mut self, profile: &ConnectionProfile, device: &DeviceInfo) -> (r: Result<
        ActivationOutcome,
        ActivationError,
    >)
        ensures
            old(self).may_activate(profile@, device@, r, *final(self)),
    ;

    fn deactivate(&mut self, profile: &ConnectionProfile) -> (r: Result<(), ActivationError>)
        ensures
            old(self).may_deactivate(profile@, r, *final(self)),
    ;
}

/// What an engine that supports nothing says.
pub const UNSUPPORTED: &'static str = "no activation engine is configured for this daemon";

/// A placeholder engine that reports activation as unsupported.
#[derive(Clone, Copy, Debug, PartialEq, Eq, Structural)]
pub struct UnsupportedActivationEngine;

impl Default for UnsupportedActivationEngine {
    fn default() -> (r: Self) {
        UnsupportedActivationEngine
    }
}

impl ActivationEngine for UnsupportedActivationEngine {
    open spec fn may_activate(
        &self,
        profile: ProfileView,
        device: DeviceInfoView,
        reply: Result<ActivationOutcome, ActivationError>,
        after: Self,
    ) -> bool {
        reply matches Err(e) && is_engine_error(e, UNSUPPORTED@)
    }

    open spec fn may_deactivate(
        &self,
        profile: ProfileView,
        reply: Result<(), ActivationError>,
        after: Self,
    ) -> bool {
        reply matches Err(e) && is_engine_error(e, UNSUPPORTED@)
    }

    fn activate(&mut self, _profile: &ConnectionProfile, _device: &DeviceInfo) -> (r: Result<
        ActivationOutcome,
        ActivationError,
    >) {
        Err(ActivationError::Engine(UNSUPPORTED.to_owned()))
    }

    fn deactivate(&mut self, _profile: &ConnectionProfile) -> (r: Result<(), ActivationError>) {
        Err(ActivationError::Engine(UNSUPPORTED.to_owned()))
    }
}

// --- The manager --------------------------------------------------------------------------

/// Coordinates profile activation, state tracking and connection events.
#[derive(Debug)]
pub struct ActivationManager<E> {
    pub engine: E,
    pub next_id: u64,
    pub active: Vec<ActiveConnection>,
    pub events: Vec<ConnectionEvent>,
}

/// The first connection of a profile among the tracked ones.
pub open spec fn connection_of(active: Seq<ActiveConnectionView>, profile_id: Seq<char>) -> Option<
    ActiveConnectionView,
>
    decreases active.len(),
{
    if active.len() == 0 {
        None
    } else if active[0].profile.id == profile_id {
        Some(active[0])
    } else {
        connection_of(active.skip(1), profile_id)
    }
}

/// The position of the first connection with an id among the tracked ones.
pub open spec fn position_of(active: Seq<ActiveConnectionView>, id: ActiveConnectionId) -> Option<int>
    decreases active.len(),
{
    if active.len() == 0 {
        None
    } else if active[0].id == id {
        Some(0)
    } else {
        match position_of(active.skip(1), id) {
            Some(k) => Some(k + 1),
            None => None,
        }
    }
}

/// A change of state.
pub open spec fn change(
    active_id: ActiveConnectionId,
    profile_id: Seq<char>,
    previous: ConnectionState,
    current: ConnectionState,
) -> ConnectionEventView {
    ConnectionEventView::StateChanged { active_id, profile_id, previous, current }
}

/// The events of an activation that succeeded: every state on the way, and then
/// the success.
pub open spec fn success_events(active_id: ActiveConnectionId, profile_id: Seq<char>) -> Seq<
    ConnectionEventView,
> {
    seq![
        change(active_id, profile_id, ConnectionState::Disconnected, ConnectionState::Preparing),
        change(active_id, profile_id, ConnectionState::Preparing, ConnectionState::Configuring),
        change(active_id, profile_id, ConnectionState::Configuring, ConnectionState::Activating),
        change(active_id, profile_id, ConnectionState::Activating, ConnectionState::Activated),
        ConnectionEventView::Activated { active_id, profile_id },
    ]
}

/// The events of an activation that failed.
pub open spec fn failure_events(
    active_id: ActiveConnectionId,
    profile_id: Seq<char>,
    reason: Seq<char>,
) -> Seq<ConnectionEventView> {
    seq![
        change(active_id, profile_id, ConnectionState::Disconnected, ConnectionState::Preparing),
        change(active_id, profile_id, ConnectionState::Preparing, ConnectionState::Failed),
        ConnectionEventView::Failed { active_id, profile_id, reason },
    ]
}

/// The events of a deactivation that succeeded.
pub open spec fn removal_events(active_id: ActiveConnectionId, profile_id: Seq<char>) -> Seq<
    ConnectionEventView,
> {
    seq![
        change(active_id, profile_id, ConnectionState::Activated, ConnectionState::Deactivating),
        change(active_id, profile_id, ConnectionState::Deactivating, ConnectionState::Disconnected),
        ConnectionEventView::Deactivated { active_id, profile_id },
    ]
}

/// The state of a manager, without its engine.
#[verifier::ext_equal]
pub struct ManagerView {
    pub next_id: u64,
    pub active: Seq<ActiveConnectionView>,
    pub events: Seq<ConnectionEventView>,
}

impl ManagerView {
    /// A manager that tracks nothing and whose first handle is one.
    pub open spec fn fresh() -> Self {
        ManagerView { next_id: 1, active: Seq::empty(), events: Seq::empty() }
    }
}

/// Whether a manager tracks connections properly: each has an id of its own
/// that was handed out before, no profile is tracked twice, and each is either
/// activated or failed.
pub open spec fn well_kept(manager: ManagerView) -> bool {
    &&& forall|i: int|
        0 <= i < manager.active.len() ==> {
            &&& (#[trigger] manager.active[i]).id.0 < manager.next_id
            &&& manager.active[i].state == ConnectionState::Activated || manager.active[i].state
                == ConnectionState::Failed
        }
    &&& forall|i: int, j: int|
        0 <= i < j < manager.active.len() ==> {
            &&& (#[trigger] manager.active[i]).id != (#[trigger] manager.active[j]).id
            &&& manager.active[i].profile.id != manager.active[j].profile.id
        }
}

/// The manager after an engine was asked to activate a profile on a device, and
/// replied.
pub open spec fn after_activation(
    before: ManagerView,
    profile: ProfileView,
    device: DeviceInfoView,
    reply: Result<ActivationOutcome, ActivationError>,
) -> ManagerView {
    let id = ActiveConnectionId(before.next_id);
    let (state, outcome) = match reply {
        Ok(outcome) => (ConnectionState::Activated, outcome@),
        Err(_) => (ConnectionState::Failed, ActivationOutcomeView::none()),
    };
    ManagerView {
        next_id: (before.next_id + 1) as u64,
        active: before.active.push(
            ActiveConnectionView { id, profile, device, state, outcome },
        ),
        events: before.events + match reply {
            Ok(_) => success_events(id, profile.id),
            Err(e) => failure_events(id, profile.id, e.text()),
        },
    }
}

/// What a caller is told of an activation.
pub open spec fn told(
    before: ManagerView,
    profile: ProfileView,
    device: DeviceInfoView,
    reply: Result<ActivationOutcome, ActivationError>,
    result: Result<ActiveConnection, ActivationError>,
) -> bool {
    match (reply, result) {
        (Ok(outcome), Ok(active)) => active@ == after_activation(
            before,
            profile,
            device,
            reply,
        ).active.last(),
        (Err(e), Err(said)) => said == e,
        _ => false,
    }
}

/// The manager after an engine was asked to deactivate the connection at a
/// position, and replied.
pub open spec fn after_deactivation(
    before: ManagerView,
    k: int,
    reply: Result<(), ActivationError>,
) -> ManagerView {
    let active = before.active[k];
    let first = change(
        active.id,
        active.profile.id,
        ConnectionState::Activated,
        ConnectionState::Deactivating,
    );
    match reply {
        Ok(()) => ManagerView {
            next_id: before.next_id,
            active: before.active.remove(k),
            events: before.events + removal_events(active.id, active.profile.id),
        },
        Err(e) => ManagerView {
            next_id: before.next_id,
            active: before.active.update(
                k,
                ActiveConnectionView { state: ConnectionState::Failed, ..active },
            ),
            events: before.events + seq![
                first,
                change(
                    active.id,
                    active.profile.id,
                    ConnectionState::Deactivating,
                    ConnectionState::Failed,
                ),
                ConnectionEventView::Failed {
                    active_id: active.id,
                    profile_id: active.profile.id,
                    reason: e.text(),
                },
            ],
        },
    }
}

/// Whether a reply to a request for a profile is one that can be activated on a
/// device.
pub open spec fn suitable(
    reply: Result<ConnectionProfile, StoreError>,
    device: DeviceInfoView,
    active: Seq<ActiveConnectionView>,
) -> bool {
    reply matches Ok(profile) && profile::applies(profile@, device) && connection_of(
        active,
        profile@.id,
    ) is None
}

/// Whether a store answers a request for an id with a profile that has that id.
pub open spec fn answers_by_id<S: ProfileStore>(store: S, id: Seq<char>) -> bool {
    forall|profile: ConnectionProfile| #[trigger]
        store.may_get(id, Ok(profile)) ==> profile@.id == id
}

/// Whether a store may turn out to have nothing suitable among the first `n`
/// ids of a list.
pub open spec fn none_suitable<S: ProfileStore>(
    store: S,
    order: Seq<ProfileId>,
    n: int,
    device: DeviceInfoView,
    active: Seq<ActiveConnectionView>,
) -> bool {
    forall|j: int|
        0 <= j < n ==> exists|reply: Result<ConnectionProfile, StoreError>|
            store.may_get((#[trigger] order[j])@, reply) && !suitable(reply, device, active)
}

/// Whether a profile is the first suitable one that a store may have among a
/// list of ids.
pub open spec fn first_suitable<S: ProfileStore>(
    store: S,
    order: Seq<ProfileId>,
    profile: ConnectionProfile,
    device: DeviceInfoView,
    active: Seq<ActiveConnectionView>,
) -> bool {
    exists|k: int|
        {
            &&& 0 <= k < order.len()
            &&& store.may_get((#[trigger] order[k])@, Ok(profile))
            &&& suitable(Ok(profile), device, active)
            &&& none_suitable(store, order, k, device, active)
        }
}

impl<E: ActivationEngine> ActivationManager<E> {
    pub open spec fn view(&self) -> ManagerView {
        ManagerView {
            next_id: self.next_id,
            active: active_views(self.active@),
            events: state::connection_event_views(self.events@),
        }
    }

    /// Whether the manager tracks connections properly.
    pub open spec fn wf(self) -> bool {
        well_kept(self@)
    }

    /// Whether the engine was asked to activate a profile on a device, which
    /// turned the manager into `after`, and the caller was told `result`.
    pub open spec fn asked(
        self,
        profile: ProfileView,
        device: DeviceInfoView,
        after: Self,
        result: Result<ActiveConnection, ActivationError>,
    ) -> bool {
        exists|reply: Result<ActivationOutcome, ActivationError>|
            {
                &&& #[trigger] self.engine.may_activate(profile, device, reply, after.engine)
                &&& after@ == after_activation(self@, profile, device, reply)
                &&& told(self@, profile, device, reply, result)
            }
    }

    /// What becomes of a manager that is to activate whatever suits a device,
    /// given the profiles that the store listed.
    pub open spec fn chosen<S: ProfileStore>(
        self,
        store: S,
        order: Seq<ProfileId>,
        device: DeviceInfoView,
        after: Self,
        result: Result<ActiveConnection, ActivationError>,
    ) -> bool {
        ||| {
            &&& none_suitable(store, order, order.len() as int, device, self@.active)
            &&& result matches Err(ActivationError::NoSuitableProfile(named))
            &&& named@ == device
            &&& after == self
        }
        ||| exists|profile: ConnectionProfile|
            {
                &&& #[trigger] first_suitable(store, order, profile, device, self@.active)
                &&& self.asked(profile@, device, after, result)
            }
    }

    /// Whether a request to activate whatever suits a device may turn the manager
    /// into `after`, and be answered with `result`.
    pub open spec fn answers_for_device<S: ProfileStore>(
        self,
        store: S,
        device: DeviceInfoView,
        after: Self,
        result: Result<ActiveConnection, ActivationError>,
    ) -> bool {
        exists|listing: Result<Vec<ConnectionProfile>, StoreError>|
            {
                &&& #[trigger] store.may_list(listing)
                &&& match listing {
                    Err(e) => {
                        &&& result == Err::<ActiveConnection, ActivationError>(
                            ActivationError::Store(e),
                        )
                        &&& after == self
                    },
                    Ok(profiles) => self.chosen(
                        store,
                        policy::autoconnect_order(profiles@),
                        device,
                        after,
                        result,
                    ),
                }
            }
    }

    /// Whether a request to activate a profile on a device may turn the manager
    /// into `after`, and be answered with `result`.
    pub open spec fn answers_for_profile<S: ProfileStore>(
        self,
        store: S,
        profile_id: Seq<char>,
        device: DeviceInfoView,
        after: Self,
        result: Result<ActiveConnection, ActivationError>,
    ) -> bool {
        exists|found: Result<ConnectionProfile, StoreError>|
            {
                &&& #[trigger] store.may_get(profile_id, found)
                &&& match found {
                    Err(e) => {
                        &&& after == self
                        &&& match e {
                            StoreError::NotFound(_) => result matches Err(
                                ActivationError::ProfileNotFound(named),
                            ) && named@ == profile_id,
                            _ => result == Err::<ActiveConnection, ActivationError>(
                                ActivationError::Store(e),
                            ),
                        }
                    },
                    Ok(profile) => if !profile::applies(profile@, device) {
                        &&& after == self
                        &&& result matches Err(
                            ActivationError::DeviceIncompatible { profile_id: named, device: on },
                        )
                        &&& named@ == profile_id
                        &&& on@ == device
                    } else if connection_of(self@.active, profile_id) is Some {
                        &&& after == self
                        &&& result matches Err(ActivationError::AlreadyActive(named))
                        &&& named@ == profile_id
                    } else {
                        self.asked(profile@, device, after, result)
                    },
                }
            }
    }

    /// Whether a request to deactivate a connection may turn the manager into
    /// `after`, and be answered with `result`.
    pub open spec fn answers_for_removal(
        self,
        active_id: ActiveConnectionId,
        after: Self,
        result: Result<(), ActivationError>,
    ) -> bool {
        match position_of(self@.active, active_id) {
            None => {
                &&& after == self
                &&& result == Err::<(), ActivationError>(
                    ActivationError::UnknownActiveConnection(active_id),
                )
            },
            Some(k) => {
                let active = self@.active[k];
                if active.state != ConnectionState::Activated {
                    &&& after == self
                    &&& result == Err::<(), ActivationError>(
                        ActivationError::InvalidState { active_id, from: active.state },
                    )
                } else {
                    exists|reply: Result<(), ActivationError>|
                        {
                            &&& #[trigger] self.engine.may_deactivate(
                                active.profile,
                                reply,
                                after.engine,
                            )
                            &&& after@ == after_deactivation(self@, k, reply)
                            &&& match reply {
                                Ok(()) => result is Ok,
                                Err(e) => result == Err::<(), ActivationError>(e),
                            }
                        }
                }
            },
        }
    }

    /// A manager that tracks nothing.
    pub fn new(engine: E) -> (r: Self)
        ensures
            r.wf(),
            r.engine == engine,
            r@ == ManagerView::fresh(),
    {
        let r = ActivationManager { engine, next_id: 1, active: Vec::new(), events: Vec::new() };
        assert(r@ =~= ManagerView::fresh());
        r
    }

    /// Returns the connections that are currently tracked.
    pub fn active_connections(&self) -> (r: &[ActiveConnection])
        ensures
            r@ == self.active@,
    {
        self.active.as_slice()
    }

    fn find(&self, profile_id: &str) -> (r: Option<usize>)
        ensures
            match r {
                Some(k) => k < self.active@.len() && connection_of(self@.active, profile_id@)
                    == Some(self.active@[k as int]@),
                None => connection_of(self@.active, profile_id@) is None,
            },
    {
        let ghost views = self@.active;
        let mut i: usize = 0;
        assert(views.skip(0) =~= views);
        while i < self.active.len()
            invariant
                i <= self.active@.len(),
                views == active_views(self.active@),
                connection_of(views, profile_id@) == connection_of(
                    views.skip(i as int),
                    profile_id@,
                ),
            decreases self.active@.len() - i,
        {
            assert(views.skip(i as int)[0] == self.active@[i as int]@);
            assert(views.skip(i as int).skip(1) =~= views.skip(i + 1));
            if same_text(self.active[i].profile.id.as_str(), profile_id) {
                return Some(i);
            }
            i = i + 1;
        }
        None
    }

    /// Returns the state of the active connection for `profile_id`, or
    /// [`ConnectionState::Disconnected`] if the profile is not active.
    pub fn state(&self, profile_id: &ProfileId) -> (r: ConnectionState)
        ensures
            r == match connection_of(self@.active, profile_id@) {
                Some(active) => active.state,
                None => ConnectionState::Disconnected,
            },
    {
        match self.find(profile_id.as_str()) {
            Some(k) => self.active[k].state,
            None => ConnectionState::Disconnected,
        }
    }

    /// Whether a profile is tracked.
    pub fn is_active(&self, profile_id: &ProfileId) -> (r: bool)
        ensures
            r == (connection_of(self@.active, profile_id@) is Some),
    {
        self.find(profile_id.as_str()).is_some()
    }

    /// Takes all pending connection events.
    pub fn drain_events(&mut self) -> (r: Vec<ConnectionEvent>)
        ensures
            r@ == old(self).events@,
            final(self)@ == (ManagerView { events: Seq::empty(), ..old(self)@ }),
            final(self).engine == old(self).engine,
            final(self).active == old(self).active,
            old(self).wf() ==> final(self).wf(),
    {
        let mut taken: Vec<ConnectionEvent> = Vec::new();
        std::mem::swap(&mut taken, &mut self.events);
        assert(self@ =~= (ManagerView { events: Seq::empty(), ..old(self)@ }));
        taken
    }

    fn push_event(&mut self, event: ConnectionEvent)
        ensures
            final(self).engine == old(self).engine,
            final(self)@ == (ManagerView { events: old(self)@.events.push(event@), ..old(self)@ }),
            final(self).active == old(self).active,
            final(self).next_id == old(self).next_id,
    {
        self.events.push(event);
        assert(self@.events =~= old(self)@.events.push(event@));
    }

    /// Moves a connection to another state and records the change.
    fn transition(
        &mut self,
        id: ActiveConnectionId,
        profile_id: &ProfileId,
        previous: ConnectionState,
        next: ConnectionState,
    ) -> (r: Result<ConnectionState, StateError>)
        ensures
            r == if state::allowed(previous, next) {
                Ok::<ConnectionState, StateError>(next)
            } else {
                Err(StateError::InvalidTransition { from: previous, to: next })
            },
            final(self).engine == old(self).engine,
            final(self).active == old(self).active,
            final(self).next_id == old(self).next_id,
            final(self)@ == if r is Ok {
                ManagerView {
                    events: old(self)@.events.push(change(id, profile_id@, previous, next)),
                    ..old(self)@
                }
            } else {
                old(self)@
            },
    {
        match previous.transition_to(next) {
            Err(err) => Err(err),
            Ok(current) => {
                self.push_event(
                    ConnectionEvent::StateChanged {
                        active_id: id,
                        profile_id: profile_id.clone(),
                        previous,
                        current,
                    },
                );
                Ok(current)
            },
        }
    }

    fn record_success(
        &mut self,
        id: ActiveConnectionId,
        profile: &ConnectionProfile,
        device: &DeviceInfo,
        outcome: ActivationOutcome,
    ) -> (r: ActiveConnection)
        ensures
            r@ == (ActiveConnectionView {
                id,
                profile: profile@,
                device: device@,
                state: ConnectionState::Activated,
                outcome: outcome@,
            }),
            final(self).engine == old(self).engine,
            final(self)@ == (ManagerView {
                next_id: old(self)@.next_id,
                active: old(self)@.active.push(r@),
                events: old(self)@.events + success_events(id, profile@.id).skip(1),
            }),
    {
        let mut state: ConnectionState = ConnectionState::Preparing;
        match self.transition(id, &profile.id, state, ConnectionState::Configuring) {
            Ok(next) => {
                state = next;
            },
            Err(_) => {},
        }
        match self.transition(id, &profile.id, state, ConnectionState::Activating) {
            Ok(next) => {
                state = next;
            },
            Err(_) => {},
        }
        match self.transition(id, &profile.id, state, ConnectionState::Activated) {
            Ok(next) => {
                state = next;
            },
            Err(_) => {},
        }
        self.push_event(
            ConnectionEvent::Activated { active_id: id, profile_id: profile.id.clone() },
        );
        let active = ActiveConnection {
            id,
            profile: profile.clone(),
            device: device.clone(),
            state,
            outcome,
        };
        self.active.push(active.clone());
        proof {
            assert(self@.active =~= old(self)@.active.push(active@));
            assert(self@.events =~= old(self)@.events + success_events(id, profile@.id).skip(1));
        }
        active
    }

    fn record_failure(
        &mut self,
        id: ActiveConnectionId,
        profile: &ConnectionProfile,
        device: &DeviceInfo,
        error: &ActivationError,
    )
        ensures
            final(self).engine == old(self).engine,
            final(self)@ == (ManagerView {
                next_id: old(self)@.next_id,
                active: old(self)@.active.push(
                    ActiveConnectionView {
                        id,
                        profile: profile@,
                        device: device@,
                        state: ConnectionState::Failed,
                        outcome: ActivationOutcomeView::none(),
                    },
                ),
                events: old(self)@.events + failure_events(
                    id,
                    profile@.id,
                    error.text(),
                ).skip(1),
            }),
    {
        let mut state: ConnectionState = ConnectionState::Preparing;
        match self.transition(id, &profile.id, state, ConnectionState::Failed) {
            Ok(next) => {
                state = next;
            },
            Err(_) => {},
        }
        self.push_event(
            ConnectionEvent::Failed {
                active_id: id,
                profile_id: profile.id.clone(),
                reason: error.to_string(),
            },
        );
        let active = ActiveConnection {
            id,
            profile: profile.clone(),
            device: device.clone(),
            state,
            outcome: ActivationOutcome::default(),
        };
        let ghost seen = active@;
        self.active.push(active);
        proof {
            assert(self@.active =~= old(self)@.active.push(seen));
            assert(self@.events =~= old(self)@.events + failure_events(
                id,
                profile@.id,
                error.text(),
            ).skip(1));
        }
    }

    /// Asks the engine to activate a profile, and keeps track of what came of it.
    /// The engine reports full success in one step, so the strict state machine
    /// is walked through the intermediate stages on the way to `Activated`.
    fn activate_matching(&mut self, profile: &ConnectionProfile, device: &DeviceInfo) -> (r: Result<
        ActiveConnection,
        ActivationError,
    >)
        requires
            old(self).next_id < u64::MAX,
        ensures
            old(self).asked(profile@, device@, *final(self), r),
    {
        let ghost before = self@;
        let id = ActiveConnectionId(self.next_id);
        self.next_id = self.next_id + 1;
        self.push_event(
            ConnectionEvent::StateChanged {
                active_id: id,
                profile_id: profile.id.clone(),
                previous: ConnectionState::Disconnected,
                current: ConnectionState::Preparing,
            },
        );
        let reply: Result<ActivationOutcome, ActivationError> = self.engine.activate(
            profile,
            device,
        );
        let ghost answer = reply;
        let ghost engine = self.engine;
        let ghost goal = after_activation(before, profile@, device@, answer);
        let result: Result<ActiveConnection, ActivationError> = match reply {
            Ok(outcome) => {
                let active: ActiveConnection = self.record_success(id, profile, device, outcome);
                assert(self@.active =~= goal.active);
                assert(self@.events =~= goal.events);
                Ok(active)
            },
            Err(err) => {
                self.record_failure(id, profile, device, &err);
                assert(self@.active =~= goal.active);
                assert(self@.events =~= goal.events);
                Err(err)
            },
        };
        proof {
            assert(self@ == goal);
            assert(self.engine == engine);
            assert(told(before, profile@, device@, answer, result));
            assert(old(self).engine.may_activate(profile@, device@, answer, self.engine));
        }
        result
    }
}

/// A profile without a connection is tracked nowhere.
proof fn lemma_untracked(active: Seq<ActiveConnectionView>, profile_id: Seq<char>, i: int)
    requires
        connection_of(active, profile_id) is None,
        0 <= i < active.len(),
    ensures
        active[i].profile.id != profile_id,
    decreases active.len(),
{
    if i > 0 {
        lemma_untracked(active.skip(1), profile_id, i - 1);
        assert(active.skip(1)[i - 1] == active[i]);
    }
}

/// The position of an id is that of a connection with that id.
proof fn lemma_position(active: Seq<ActiveConnectionView>, id: ActiveConnectionId)
    ensures
        position_of(active, id) matches Some(k) ==> 0 <= k < active.len() && active[k].id == id,
        position_of(active, id) is None ==> forall|i: int|
            0 <= i < active.len() ==> (#[trigger] active[i]).id != id,
    decreases active.len(),
{
    if active.len() > 0 && active[0].id != id {
        lemma_position(active.skip(1), id);
        if position_of(active, id) is None {
            assert forall|i: int| 0 <= i < active.len() implies (#[trigger] active[i]).id != id by {
                if i > 0 {
                    assert(active.skip(1)[i - 1] == active[i]);
                }
            }
        }
    }
}

/// Activating a profile that is not tracked keeps track of connections properly:
/// ids stay unique and no profile is active twice.
pub proof fn lemma_activation_keeps(
    before: ManagerView,
    profile: ProfileView,
    device: DeviceInfoView,
    reply: Result<ActivationOutcome, ActivationError>,
)
    requires
        well_kept(before),
        before.next_id < u64::MAX,
        connection_of(before.active, profile.id) is None,
    ensures
        well_kept(after_activation(before, profile, device, reply)),
{
    let after = after_activation(before, profile, device, reply);
    assert forall|i: int, j: int| 0 <= i < j < after.active.len() implies {
        &&& (#[trigger] after.active[i]).id != (#[trigger] after.active[j]).id
        &&& after.active[i].profile.id != after.active[j].profile.id
    } by {
        if j == before.active.len() {
            lemma_untracked(before.active, profile.id, i);
            assert(before.active[i].id.0 < before.next_id);
        } else {
            assert(before.active[i].id != before.active[j].id);
        }
    }
}

proof fn lemma_asked_keeps<E: ActivationEngine>(
    before: ActivationManager<E>,
    profile: ProfileView,
    device: DeviceInfoView,
    after: ActivationManager<E>,
    result: Result<ActiveConnection, ActivationError>,
)
    requires
        before.wf(),
        before.next_id < u64::MAX,
        connection_of(before@.active, profile.id) is None,
        before.asked(profile, device, after, result),
    ensures
        after.wf(),
{
    let reply = choose|reply: Result<ActivationOutcome, ActivationError>|
        {
            &&& #[trigger] before.engine.may_activate(profile, device, reply, after.engine)
            &&& after@ == after_activation(before@, profile, device, reply)
            &&& told(before@, profile, device, reply, result)
        };
    lemma_activation_keeps(before@, profile, device, reply);
}

/// Deactivating a connection keeps track of the others.
pub proof fn lemma_deactivation_keeps(
    before: ManagerView,
    k: int,
    reply: Result<(), ActivationError>,
)
    requires
        well_kept(before),
        0 <= k < before.active.len(),
    ensures
        well_kept(after_deactivation(before, k, reply)),
{
    let after = after_deactivation(before, k, reply);
    assert forall|i: int| 0 <= i < after.active.len() implies {
        &&& (#[trigger] after.active[i]).id.0 < after.next_id
        &&& after.active[i].state == ConnectionState::Activated || after.active[i].state
            == ConnectionState::Failed
    } by {
        if reply is Ok && i >= k {
            assert(after.active[i] == before.active[i + 1]);
        } else {
            assert(before.active[i].id.0 < before.next_id);
        }
    }
    assert forall|i: int, j: int| 0 <= i < j < after.active.len() implies {
        &&& (#[trigger] after.active[i]).id != (#[trigger] after.active[j]).id
        &&& after.active[i].profile.id != after.active[j].profile.id
    } by {
        let a = if reply is Ok && i >= k {
            i + 1
        } else {
            i
        };
        let b = if reply is Ok && j >= k {
            j + 1
        } else {
            j
        };
        assert(before.active[a].id != before.active[b].id);
        assert(before.active[a].profile.id != before.active[b].profile.id);
    }
}

impl<E: ActivationEngine> ActivationManager<E> {
    /// Activates the best matching profile for `device`, following autoconnect
    /// ordering.
    pub fn activate<S: ProfileStore>(&mut self, store: &S, device: &DeviceInfo) -> (r: Result<
        ActiveConnection,
        ActivationError,
    >)
        requires
            old(self).next_id < u64::MAX,
        ensures
            old(self).wf() ==> final(self).wf(),
            old(self).answers_for_device(*store, device@, *final(self), r),
    {
        let ghost before = *self;
        let listing: Result<Vec<ConnectionProfile>, StoreError> = store.list();
        let ghost answer = listing;
        assert(store.may_list(answer));
        let profiles: Vec<ConnectionProfile> = match listing {
            Err(err) => {
                return Err(ActivationError::Store(err));
            },
            Ok(profiles) => profiles,
        };
        let order: Vec<ProfileId> = order_for_autoconnect(profiles.as_slice());
        let mut i: usize = 0;
        while i < order.len()
            invariant
                i <= order@.len(),
                *self == before,
                before == *old(self),
                before.next_id < u64::MAX,
                order@ == policy::autoconnect_order(profiles@),
                answer == Ok::<Vec<ConnectionProfile>, StoreError>(profiles),
                store.may_list(answer),
                none_suitable(*store, order@, i as int, device@, before@.active),
            decreases order@.len() - i,
        {
            let found: Result<ConnectionProfile, StoreError> = store.get(&order[i]);
            let ghost seen = found;
            match found {
                Ok(profile) => {
                    if profile.matches(device) && !self.is_active(&profile.id) {
                        let r: Result<ActiveConnection, ActivationError> = self.activate_matching(
                            &profile,
                            device,
                        );
                        proof {
                            assert(suitable(seen, device@, before@.active));
                            assert(first_suitable(
                                *store,
                                order@,
                                profile,
                                device@,
                                before@.active,
                            )) by {
                                assert(store.may_get(order@[i as int]@, Ok(profile)));
                            }
                            if before.wf() {
                                lemma_asked_keeps(before, profile@, device@, *self, r);
                            }
                            assert(before.chosen(*store, order@, device@, *self, r));
                        }
                        return r;
                    }
                },
                Err(_) => {},
            }
            proof {
                assert(!suitable(seen, device@, before@.active));
                assert(store.may_get(order@[i as int]@, seen));
            }
            i = i + 1;
        }
        Err(ActivationError::NoSuitableProfile(device.clone()))
    }

    /// Activates a specific profile on `device`.
    pub fn activate_profile<S: ProfileStore>(
        &mut self,
        store: &S,
        profile_id: &ProfileId,
        device: &DeviceInfo,
    ) -> (r: Result<ActiveConnection, ActivationError>)
        requires
            old(self).next_id < u64::MAX,
        ensures
            old(self).wf() && answers_by_id(*store, profile_id@) ==> final(self).wf(),
            old(self).answers_for_profile(*store, profile_id@, device@, *final(self), r),
    {
        let ghost before = *self;
        let found: Result<ConnectionProfile, StoreError> = store.get(profile_id);
        let ghost answer = found;
        assert(store.may_get(profile_id@, answer));
        let profile: ConnectionProfile = match found {
            Ok(profile) => profile,
            Err(StoreError::NotFound(_)) => {
                return Err(ActivationError::ProfileNotFound(profile_id.clone()));
            },
            Err(other) => {
                return Err(ActivationError::Store(other));
            },
        };
        assert(store.may_get(profile_id@, Ok(profile)));
        if !profile.matches(device) {
            return Err(
                ActivationError::DeviceIncompatible {
                    profile_id: profile_id.clone(),
                    device: device.clone(),
                },
            );
        }
        if self.is_active(profile_id) {
            return Err(ActivationError::AlreadyActive(profile_id.clone()));
        }
        let r: Result<ActiveConnection, ActivationError> = self.activate_matching(&profile, device);
        proof {
            if before.wf() && profile@.id == profile_id@ {
                lemma_asked_keeps(before, profile@, device@, *self, r);
            }
        }
        r
    }

    /// Deactivates an active connection, returning its profile to
    /// `Disconnected`.
    pub fn deactivate(&mut self, active_id: ActiveConnectionId) -> (r: Result<(), ActivationError>)
        ensures
            old(self).wf() ==> final(self).wf(),
            old(self).answers_for_removal(active_id, *final(self), r),
    {
        let ghost before = *self;
        let index: usize = match self.position(active_id) {
            None => {
                return Err(ActivationError::UnknownActiveConnection(active_id));
            },
            Some(index) => index,
        };
        proof {
            lemma_position(before@.active, active_id);
        }
        let ghost found = before@.active[index as int];
        assert(found == self.active@[index as int]@);
        let state: ConnectionState = self.active[index].state;
        if state != ConnectionState::Activated {
            return Err(ActivationError::InvalidState { active_id, from: state });
        }
        let profile: ConnectionProfile = self.active[index].profile.clone();
        let deactivating: ConnectionState = match self.transition(
            active_id,
            &profile.id,
            state,
            ConnectionState::Deactivating,
        ) {
            Ok(next) => next,
            Err(err) => {
                return Err(ActivationError::State(err));
            },
        };
        let reply: Result<(), ActivationError> = self.engine.deactivate(&profile);
        let ghost answer = reply;
        let ghost engine = self.engine;
        let ghost goal = after_deactivation(before@, index as int, answer);
        let result: Result<(), ActivationError> = match reply {
            Ok(()) => {
                match self.transition(
                    active_id,
                    &profile.id,
                    deactivating,
                    ConnectionState::Disconnected,
                ) {
                    Ok(_) => {},
                    Err(err) => {
                        return Err(ActivationError::State(err));
                    },
                }
                let _gone: ActiveConnection = self.active.remove(index);
                let ghost middle = *self;
                assert(middle@.active =~= before@.active.remove(index as int));
                self.push_event(
                    ConnectionEvent::Deactivated { active_id, profile_id: profile.id.clone() },
                );
                assert(self@.events =~= goal.events);
                Ok(())
            },
            Err(err) => {
                let failed: ConnectionState = match self.transition(
                    active_id,
                    &profile.id,
                    deactivating,
                    ConnectionState::Failed,
                ) {
                    Ok(next) => next,
                    Err(err) => {
                        return Err(ActivationError::State(err));
                    },
                };
                let mut entry: ActiveConnection = self.active[index].clone();
                entry.state = failed;
                let ghost seen = entry@;
                self.active.set(index, entry);
                let ghost middle = *self;
                assert(middle@.active =~= before@.active.update(index as int, seen));
                self.push_event(
                    ConnectionEvent::Failed {
                        active_id,
                        profile_id: profile.id.clone(),
                        reason: err.to_string(),
                    },
                );
                assert(self@.events =~= goal.events);
                Err(err)
            },
        };
        proof {
            assert(self@ == goal);
            assert(self.engine == engine);
            if before.wf() {
                lemma_deactivation_keeps(before@, index as int, answer);
            }
            assert(before.engine.may_deactivate(found.profile, answer, self.engine));
        }
        result
    }

    fn position(&self, id: ActiveConnectionId) -> (r: Option<usize>)
        ensures
            match r {
                Some(k) => k < self.active@.len() && position_of(self@.active, id) == Some(k as int),
                None => position_of(self@.active, id) is None,
            },
    {
        let ghost views = self@.active;
        let mut i: usize = 0;
        assert(views.skip(0) =~= views);
        while i < self.active.len()
            invariant
                i <= self.active@.len(),
                views == active_views(self.active@),
                position_of(views, id) == match position_of(views.skip(i as int), id) {
                    Some(k) => Some(k + i),
                    None => None,
                },
            decreases self.active@.len() - i,
        {
            assert(views.skip(i as int)[0] == self.active@[i as int]@);
            assert(views.skip(i as int).skip(1) =~= views.skip(i + 1));
            if self.active[i].id == id {
                return Some(i);
            }
            i = i + 1;
        }
        None
    }
}

// --- Laws ------------------------------------------------------------------------------------

/// An activation is reported, and a connection is tracked as activated, only when
/// the engine reported success.
pub proof fn lemma_no_fabricated_success<E: ActivationEngine>(
    manager: ActivationManager<E>,
    profile: ProfileView,
    device: DeviceInfoView,
    after: ActivationManager<E>,
    result: Result<ActiveConnection, ActivationError>,
)
    requires
        manager.asked(profile, device, after, result),
        result is Ok || after@.active.last().state == ConnectionState::Activated,
    ensures
        exists|outcome: ActivationOutcome|
            {
                &&& #[trigger] manager.engine.may_activate(
                    profile,
                    device,
                    Ok(outcome),
                    after.engine,
                )
                &&& after@.active.last().outcome == outcome@
            },
        result is Ok,
        result->Ok_0@ == after@.active.last(),
{
    let reply = choose|reply: Result<ActivationOutcome, ActivationError>|
        {
            &&& #[trigger] manager.engine.may_activate(profile, device, reply, after.engine)
            &&& after@ == after_activation(manager@, profile, device, reply)
            &&& told(manager@, profile, device, reply, result)
        };
    assert(manager.engine.may_activate(profile, device, Ok(reply->Ok_0), after.engine));
}

/// Whether every change of state among events is an allowed one, and starts
/// where the change just before it ended.
pub open spec fn walks(events: Seq<ConnectionEventView>) -> bool {
    &&& forall|i: int|
        0 <= i < events.len() ==> (#[trigger] events[i] matches ConnectionEventView::StateChanged {
            previous,
            current,
            ..
        } ==> state::allowed(previous, current))
    &&& forall|i: int, j: int|
        0 <= i && j == i + 1 && j < events.len() && (#[trigger] events[i]) is StateChanged && (
        #[trigger] events[j]) is StateChanged ==> events[i]->current == events[j]->previous
}

/// The events of an activation walk through the states as the state machine
/// allows, and those before them stay.
pub proof fn lemma_activation_walks(
    before: ManagerView,
    profile: ProfileView,
    device: DeviceInfoView,
    reply: Result<ActivationOutcome, ActivationError>,
)
    ensures
        before.events.is_prefix_of(after_activation(before, profile, device, reply).events),
        walks(
            after_activation(before, profile, device, reply).events.skip(
                before.events.len() as int,
            ),
        ),
{
    let id = ActiveConnectionId(before.next_id);
    let all = after_activation(before, profile, device, reply).events;
    let new = all.skip(before.events.len() as int);
    match reply {
        Ok(_) => {
            assert(new =~= success_events(id, profile.id));
        },
        Err(e) => {
            assert(new =~= failure_events(id, profile.id, e.text()));
        },
    }
}

/// The events of a deactivation walk through the states as the state machine
/// allows, and those before them stay.
pub proof fn lemma_deactivation_walks(before: ManagerView, k: int, reply: Result<(), ActivationError>)
    requires
        0 <= k < before.active.len(),
    ensures
        before.events.is_prefix_of(after_deactivation(before, k, reply).events),
        walks(after_deactivation(before, k, reply).events.skip(before.events.len() as int)),
{
    let new = after_deactivation(before, k, reply).events.skip(before.events.len() as int);
    assert(new.len() == 3);
}

/// What a manager does to one connection leaves the others as they are.
pub proof fn lemma_others_stay(
    before: ManagerView,
    profile: ProfileView,
    device: DeviceInfoView,
    reply: Result<ActivationOutcome, ActivationError>,
    k: int,
    removal: Result<(), ActivationError>,
    i: int,
)
    requires
        0 <= i < before.active.len(),
        0 <= k < before.active.len(),
        i != k,
    ensures
        after_activation(before, profile, device, reply).active[i] == before.active[i],
        after_deactivation(before, k, removal).active.contains(before.active[i]),
{
    let left = after_deactivation(before, k, removal).active;
    match removal {
        Ok(_) => {
            if i < k {
                assert(left[i] == before.active[i]);
            } else {
                assert(left[i - 1] == before.active[i]);
            }
        },
        Err(_) => {
            assert(left[i] == before.active[i]);
        },
    }
}

} // verus!
