//! Profiles, the choice among them, and the connections that they become.

use vstd::prelude::*;

use crate::connection::activation;
use crate::connection::activation::{
    ActivationEngine, ActivationError, ActivationManager, ActiveConnection, ActiveConnectionId,
    ManagerView,
};
use crate::connection::device::{DeviceInfoView, DeviceKind};
use crate::connection::ip::ActivationOutcome;
use crate::connection::policy;
use crate::connection::profile;
use crate::connection::profile::{
    ConnectionProfile, ConnectionTypeView, IpConfigView, IpMethod, KeyManagement, ProfileId,
    ProfileValidationError, ProfileView,
};
use crate::connection::state;
use crate::connection::state::{ConnectionEventView, ConnectionState};
use crate::connection::store::{ProfileStore, StoreError};
use crate::sort;
use crate::sort::Ranked;

verus! {

// --- Profiles --------------------------------------------------------------------------

/// Whether an IP configuration is complete: a manual one has an address of its family
/// and a prefix length that is not too long.
pub open spec fn is_complete(config: IpConfigView, v4: bool) -> bool {
    config.method == IpMethod::Manual ==> {
        &&& config.address matches Some(address) && (address is V4) == v4
        &&& config.prefix_length matches Some(length) && length <= if v4 {
            32int
        } else {
            128
        }
    }
}

/// A profile is valid exactly when it has an id of letters, digits, dashes and
/// underscores, and a name; its network has a name of at most 32 octets and the
/// secret or identity that its key management takes, and no other; its speed is not
/// zero; and its IP configurations are complete.
pub proof fn lemma_what_a_valid_profile_is(profile: ProfileView)
    ensures
        profile::valid(profile) <==> {
            &&& profile.id.len() > 0
            &&& forall|i: int|
                0 <= i < profile.id.len() ==> {
                    let c = #[trigger] profile.id[i];
                    ('0' <= c && c <= '9') || ('a' <= c && c <= 'z') || ('A' <= c && c <= 'Z')
                        || c == '-' || c == '_'
                }
            &&& profile.name.len() > 0
            &&& match profile.connection_type {
                ConnectionTypeView::Wifi(settings) => {
                    let security = settings.security;
                    &&& 0 < settings.ssid.len() <= 32
                    &&& security.key_management == KeyManagement::WpaPsk ==> security.secret is Some
                    &&& security.key_management == KeyManagement::Sae ==> security.secret is Some
                    &&& security.key_management == KeyManagement::Open ==> security.secret is None
                    &&& security.key_management == KeyManagement::Owe ==> security.secret is None
                    &&& security.key_management == KeyManagement::WpaEap ==> (
                    security.identity matches Some(identity) && identity.len() > 0)
                },
                ConnectionTypeView::Ethernet(settings) => settings.speed_mbit matches Some(speed)
                    ==> speed > 0,
            }
            &&& is_complete(profile.ipv4, true)
            &&& is_complete(profile.ipv6, false)
        },
{
    assert(profile::id_chars_ok(profile.id) <==> forall|i: int|
        0 <= i < profile.id.len() ==> {
            let c = #[trigger] profile.id[i];
            ('0' <= c && c <= '9') || ('a' <= c && c <= 'z') || ('A' <= c && c <= 'Z') || c == '-'
                || c == '_'
        }) by {
        assert(forall|i: int|
            0 <= i < profile.id.len() ==> profile::is_id_char(#[trigger] profile.id[i]) == {
                let c = profile.id[i];
                ('0' <= c && c <= '9') || ('a' <= c && c <= 'z') || ('A' <= c && c <= 'Z') || c
                    == '-' || c == '_'
            });
    }
}

/// A profile applies to a device exactly when the device is of its kind and has the
/// name and the hardware address that the profile asks for.
pub proof fn lemma_when_a_profile_applies(profile: ProfileView, device: DeviceInfoView)
    ensures
        profile::applies(profile, device) <==> {
            &&& profile.connection_type is Wifi <==> device.kind == DeviceKind::Wifi
            &&& profile.connection_type is Ethernet <==> device.kind == DeviceKind::Ethernet
            &&& profile.device_match.interface_name matches Some(name) ==> device.interface_name
                == name
            &&& profile.device_match.mac_address matches Some(mac) ==> device.mac_address == Some(
                mac,
            )
        },
{
}

// --- Choice ----------------------------------------------------------------------------

/// Texts are ordered by their first difference: by the characters there, or the one
/// that ends there goes first.
pub proof fn lemma_text_order(a: Seq<char>, b: Seq<char>, k: int)
    requires
        0 <= k <= a.len(),
        k <= b.len(),
        forall|i: int| 0 <= i < k ==> #[trigger] a[i] == b[i],
        k < a.len() && k < b.len() ==> a[k] != b[k],
    ensures
        sort::text_before(a, b) <==> k < b.len() && (k == a.len() || a[k] < b[k]),
    decreases k,
{
    if k > 0 {
        let x = a.skip(1);
        let y = b.skip(1);
        assert(a[0] == b[0]);
        assert forall|i: int| 0 <= i < k - 1 implies #[trigger] x[i] == y[i] by {
            assert(a[i + 1] == b[i + 1]);
        }
        lemma_text_order(x, y, k - 1);
    }
}

/// The profiles that connect by themselves, in order.
pub open spec fn willing(profiles: Seq<ConnectionProfile>) -> Seq<ConnectionProfile> {
    profiles.filter(|profile: ConnectionProfile| profile.enabled && profile.autoconnect)
}

proof fn lemma_willing(profiles: Seq<ConnectionProfile>)
    ensures
        policy::candidates(profiles).len() == willing(profiles).len(),
    decreases profiles.len(),
{
    reveal(Seq::filter);
    if profiles.len() > 0 {
        lemma_willing(profiles.drop_last());
    }
}

/// Whether a place in the order of profiles belongs to a profile that connects by
/// itself and has the given priority.
pub open spec fn placed(
    profiles: Seq<ConnectionProfile>,
    order: Seq<ProfileId>,
    k: int,
    priority: i32,
) -> bool {
    exists|i: int|
        0 <= i < profiles.len() && (#[trigger] profiles[i]).enabled && profiles[i].autoconnect
            && profiles[i].id == order[k] && profiles[i].priority == priority
}

/// The profiles that are enabled and connect by themselves are tried once each, and no
/// others: first those of the highest priority, and among equals first the one whose
/// id goes before.
pub proof fn lemma_best_profile_is_tried_first(
    profiles: Seq<ConnectionProfile>,
    k: int,
    m: int,
)
    ensures
        ({
            let order = policy::autoconnect_order(profiles);
            &&& order.len() == willing(profiles).len()
            &&& forall|i: int|
                0 <= i < profiles.len() && (#[trigger] profiles[i]).enabled
                    && profiles[i].autoconnect ==> order.contains(profiles[i].id)
            &&& 0 <= k < m < order.len() ==> exists|first: i32, second: i32|
                {
                    &&& #[trigger] placed(profiles, order, k, first)
                    &&& #[trigger] placed(profiles, order, m, second)
                    &&& first > second || (first == second && !sort::text_before(
                        order[m]@,
                        order[k]@,
                    ))
                }
        }),
{
    broadcast use vstd::seq_lib::group_to_multiset_ensures;

    let all = policy::candidates(profiles);
    let list = sort::stable_sort(all);
    let order = policy::autoconnect_order(profiles);
    policy::lemma_autoconnect_order(profiles);
    sort::lemma_stable_sort(all);
    lemma_willing(profiles);
    assert(list.len() == all.len()) by {
        assert(list.to_multiset().len() == list.len());
        assert(all.to_multiset().len() == all.len());
    }
    if 0 <= k < m < order.len() {
        assert(policy::stands_for(profiles, list[k]));
        assert(policy::stands_for(profiles, list[m]));
        assert(order[k] == list[k].id && order[m] == list[m].id);
        assert(placed(profiles, order, k, list[k].priority));
        assert(placed(profiles, order, m, list[m].priority));
        assert(!list[m].precedes(list[k]));
    }
}

// --- States ----------------------------------------------------------------------------

/// The moves of a connection, and no others.
pub proof fn lemma_moves(from: ConnectionState, to: ConnectionState)
    ensures
        state::allowed(from, to) <==> {
            ||| from is Unknown && to is Disconnected
            ||| from is Disconnected && to is Preparing
            ||| from is Preparing && (to is Configuring || to is Failed)
            ||| from is Configuring && (to is Activating || to is Failed)
            ||| from is Activating && (to is Activated || to is Failed)
            ||| from is Activated && (to is Deactivating || to is Failed)
            ||| from is Deactivating && (to is Disconnected || to is Failed)
            ||| from is Failed && to is Disconnected
        },
{
}

// --- Connections -----------------------------------------------------------------------

/// Whether an event tells of a change of state of a connection.
pub open spec fn tells(
    event: ConnectionEventView,
    id: ActiveConnectionId,
    profile_id: Seq<char>,
    from: ConnectionState,
    to: ConnectionState,
) -> bool {
    event matches ConnectionEventView::StateChanged {
        active_id,
        profile_id: named,
        previous,
        current,
    } && active_id == id && named == profile_id && previous == from && current == to
}

/// After an activation one more connection is tracked, of the profile on the device
/// and under a number of its own. It is activated, with what the engine reached, if
/// the engine succeeded, and failed otherwise; every step is told in order, and then
/// the success, or the failure with its reason. The other connections and what was
/// told before stay.
pub proof fn lemma_activation_is_tracked_and_told(
    before: ManagerView,
    profile: ProfileView,
    device: DeviceInfoView,
    reply: Result<ActivationOutcome, ActivationError>,
)
    requires
        before.next_id < u64::MAX,
    ensures
        ({
            let after = activation::after_activation(before, profile, device, reply);
            let n = before.active.len();
            let e = before.events.len() as int;
            let id = ActiveConnectionId(before.next_id);
            &&& after.next_id == before.next_id + 1
            &&& after.active.len() == n + 1
            &&& forall|i: int| 0 <= i < n ==> #[trigger] after.active[i] == before.active[i]
            &&& after.active[n as int].id == id
            &&& after.active[n as int].profile == profile
            &&& after.active[n as int].device == device
            &&& after.events.take(e) == before.events
            &&& match reply {
                Ok(outcome) => {
                    &&& after.active[n as int].state == ConnectionState::Activated
                    &&& after.active[n as int].outcome == outcome@
                    &&& after.events.len() == e + 5
                    &&& tells(
                        after.events[e],
                        id,
                        profile.id,
                        ConnectionState::Disconnected,
                        ConnectionState::Preparing,
                    )
                    &&& tells(
                        after.events[e + 1],
                        id,
                        profile.id,
                        ConnectionState::Preparing,
                        ConnectionState::Configuring,
                    )
                    &&& tells(
                        after.events[e + 2],
                        id,
                        profile.id,
                        ConnectionState::Configuring,
                        ConnectionState::Activating,
                    )
                    &&& tells(
                        after.events[e + 3],
                        id,
                        profile.id,
                        ConnectionState::Activating,
                        ConnectionState::Activated,
                    )
                    &&& after.events[e + 4] matches ConnectionEventView::Activated {
                        active_id,
                        profile_id,
                    } && active_id == id && profile_id == profile.id
                },
                Err(error) => {
                    &&& after.active[n as int].state == ConnectionState::Failed
                    &&& after.active[n as int].outcome.ipv4 is None
                    &&& after.active[n as int].outcome.ipv6 is None
                    &&& after.events.len() == e + 3
                    &&& tells(
                        after.events[e],
                        id,
                        profile.id,
                        ConnectionState::Disconnected,
                        ConnectionState::Preparing,
                    )
                    &&& tells(
                        after.events[e + 1],
                        id,
                        profile.id,
                        ConnectionState::Preparing,
                        ConnectionState::Failed,
                    )
                    &&& after.events[e + 2] matches ConnectionEventView::Failed {
                        active_id,
                        profile_id,
                        reason,
                    } && active_id == id && profile_id == profile.id && reason == error.text()
                },
            }
        }),
{
    let after = activation::after_activation(before, profile, device, reply);
    assert(after.events.take(before.events.len() as int) =~= before.events);
}

/// The caller of an activation is told the connection that is tracked from now on, or
/// the engine's error.
pub proof fn lemma_caller_learns_of_connection(
    before: ManagerView,
    profile: ProfileView,
    device: DeviceInfoView,
    reply: Result<ActivationOutcome, ActivationError>,
    result: Result<ActiveConnection, ActivationError>,
)
    requires
        activation::told(before, profile, device, reply, result),
    ensures
        result is Ok <==> reply is Ok,
        result matches Ok(active) ==> {
            &&& active@.id.0 == before.next_id
            &&& active@.profile == profile
            &&& active@.device == device
            &&& active@.state == ConnectionState::Activated
            &&& active@.outcome == reply->Ok_0@
        },
        result matches Err(error) ==> reply == Err::<ActivationOutcome, ActivationError>(error),
{
}

/// After a deactivation that succeeded, the connection is no longer tracked and the
/// others are; after one that failed, it is tracked as failed. Every step is told in
/// order, and then the end, or the failure with its reason.
pub proof fn lemma_deactivation_is_tracked_and_told(
    before: ManagerView,
    k: int,
    reply: Result<(), ActivationError>,
)
    requires
        0 <= k < before.active.len(),
    ensures
        ({
            let after = activation::after_deactivation(before, k, reply);
            let active = before.active[k];
            let id = active.id;
            let e = before.events.len() as int;
            &&& after.next_id == before.next_id
            &&& after.events.len() == e + 3
            &&& after.events.take(e) == before.events
            &&& tells(
                after.events[e],
                id,
                active.profile.id,
                ConnectionState::Activated,
                ConnectionState::Deactivating,
            )
            &&& match reply {
                Ok(_) => {
                    &&& after.active.len() == before.active.len() - 1
                    &&& forall|i: int| 0 <= i < k ==> #[trigger] after.active[i] == before.active[i]
                    &&& forall|i: int|
                        k <= i < after.active.len() ==> #[trigger] after.active[i]
                            == before.active[i + 1]
                    &&& tells(
                        after.events[e + 1],
                        id,
                        active.profile.id,
                        ConnectionState::Deactivating,
                        ConnectionState::Disconnected,
                    )
                    &&& after.events[e + 2] matches ConnectionEventView::Deactivated {
                        active_id,
                        profile_id,
                    } && active_id == id && profile_id == active.profile.id
                },
                Err(error) => {
                    &&& after.active.len() == before.active.len()
                    &&& forall|i: int|
                        0 <= i < after.active.len() && i != k ==> #[trigger] after.active[i]
                            == before.active[i]
                    &&& after.active[k].state == ConnectionState::Failed
                    &&& after.active[k].id == id
                    &&& after.active[k].profile == active.profile
                    &&& after.active[k].device == active.device
                    &&& after.active[k].outcome == active.outcome
                    &&& tells(
                        after.events[e + 1],
                        id,
                        active.profile.id,
                        ConnectionState::Deactivating,
                        ConnectionState::Failed,
                    )
                    &&& after.events[e + 2] matches ConnectionEventView::Failed {
                        active_id,
                        profile_id,
                        reason,
                    } && active_id == id && profile_id == active.profile.id && reason
                        == error.text()
                },
            }
        }),
{
    let after = activation::after_deactivation(before, k, reply);
    assert(after.events.take(before.events.len() as int) =~= before.events);
}

/// A connection is found by its number or by its profile: the first that has it, or
/// none when there is none.
pub proof fn lemma_connections_are_found(
    before: ManagerView,
    id: ActiveConnectionId,
    profile_id: Seq<char>,
)
    ensures
        match activation::position_of(before.active, id) {
            Some(k) => 0 <= k < before.active.len() && before.active[k].id == id && forall|i: int|
                0 <= i < k ==> (#[trigger] before.active[i]).id != id,
            None => forall|i: int|
                0 <= i < before.active.len() ==> (#[trigger] before.active[i]).id != id,
        },
        match activation::connection_of(before.active, profile_id) {
            Some(found) => exists|k: int|
                0 <= k < before.active.len() && #[trigger] before.active[k] == found
                    && found.profile.id == profile_id && forall|i: int|
                    0 <= i < k ==> (#[trigger] before.active[i]).profile.id != profile_id,
            None => forall|i: int|
                0 <= i < before.active.len() ==> (#[trigger] before.active[i]).profile.id
                    != profile_id,
        },
    decreases before.active.len(),
{
    if before.active.len() > 0 {
        let active = before.active;
        let more = active.skip(1);
        let rest = ManagerView { active: more, ..before };
        lemma_connections_are_found(rest, id, profile_id);
        assert(forall|i: int| 0 < i < active.len() ==> #[trigger] active[i] == more[i - 1]);
        assert(forall|i: int| 0 <= i < more.len() ==> #[trigger] more[i] == active[i + 1]);
        if active[0].profile.id != profile_id {
            if let Some(found) = activation::connection_of(active, profile_id) {
                let k = choose|k: int|
                    0 <= k < more.len() && #[trigger] more[k] == found && found.profile.id
                        == profile_id && forall|i: int|
                        0 <= i < k ==> (#[trigger] more[i]).profile.id != profile_id;
                assert(active[k + 1] == found);
            }
        } else {
            assert(active[0] == activation::connection_of(active, profile_id)->0);
        }
    }
}

// --- Requests --------------------------------------------------------------------------

/// The error that validating a profile reports names what is wrong with it.
pub proof fn lemma_errors_name_the_problem(profile: ProfileView, error: ProfileValidationError)
    requires
        profile::is_validation_error(profile, error),
    ensures
        match error {
            ProfileValidationError::EmptyId => profile.id.len() == 0,
            ProfileValidationError::InvalidIdChars(id) => id@ == profile.id && exists|i: int|
                0 <= i < profile.id.len() && !profile::is_id_char(#[trigger] profile.id[i]),
            ProfileValidationError::EmptyName => profile.name.len() == 0,
            ProfileValidationError::EmptySsid => profile.connection_type matches
                ConnectionTypeView::Wifi(settings) && settings.ssid.len() == 0,
            ProfileValidationError::SsidTooLong(length) => profile.connection_type matches
                ConnectionTypeView::Wifi(settings) && settings.ssid.len() == length && length > 32,
            ProfileValidationError::MissingSecret => profile.connection_type matches
                ConnectionTypeView::Wifi(settings) && settings.security.secret is None && (
            settings.security.key_management == KeyManagement::WpaPsk
                || settings.security.key_management == KeyManagement::Sae),
            ProfileValidationError::SecretNotAllowed => profile.connection_type matches
                ConnectionTypeView::Wifi(settings) && settings.security.secret is Some && (
            settings.security.key_management == KeyManagement::Open
                || settings.security.key_management == KeyManagement::Owe),
            ProfileValidationError::MissingIdentity => profile.connection_type matches
                ConnectionTypeView::Wifi(settings) && settings.security.key_management
                == KeyManagement::WpaEap && (settings.security.identity matches Some(identity)
                ==> identity.len() == 0),
            ProfileValidationError::InvalidSpeed => profile.connection_type matches
                ConnectionTypeView::Ethernet(settings) && settings.speed_mbit == Some(0u32),
            ProfileValidationError::ManualAddressRequired => {
                ||| profile.ipv4.method == IpMethod::Manual && profile.ipv4.address is None
                ||| profile.ipv6.method == IpMethod::Manual && profile.ipv6.address is None
            },
            ProfileValidationError::ManualPrefixRequired => {
                ||| profile.ipv4.method == IpMethod::Manual && profile.ipv4.prefix_length is None
                ||| profile.ipv6.method == IpMethod::Manual && profile.ipv6.prefix_length is None
            },
            ProfileValidationError::PrefixOutOfRange(length) => {
                ||| profile.ipv4.method == IpMethod::Manual && profile.ipv4.prefix_length == Some(
                    length,
                ) && length > 32
                ||| profile.ipv6.method == IpMethod::Manual && profile.ipv6.prefix_length == Some(
                    length,
                ) && length > 128
            },
            ProfileValidationError::AddressFamilyMismatch => {
                ||| profile.ipv4.method == IpMethod::Manual && (profile.ipv4.address matches Some(a)
                    && a is V6)
                ||| profile.ipv6.method == IpMethod::Manual && (profile.ipv6.address matches Some(a)
                    && a is V4)
            },
        },
{
    if error is InvalidIdChars {
        assert(!profile::id_chars_ok(profile.id));
    }
}

/// A request for a profile is answered by what the store has under its id: an unknown
/// profile, one that does not apply to the device and one that is active already are
/// refused and change nothing; otherwise the engine is asked to activate that profile
/// on that device.
pub proof fn lemma_profile_is_activated_as_asked<E: ActivationEngine, S: ProfileStore>(
    manager: ActivationManager<E>,
    store: S,
    profile_id: Seq<char>,
    device: DeviceInfoView,
    after: ActivationManager<E>,
    result: Result<ActiveConnection, ActivationError>,
    found: Result<ConnectionProfile, StoreError>,
)
    requires
        manager.answers_for_profile(store, profile_id, device, after, result),
        forall|reply: Result<ConnectionProfile, StoreError>| #[trigger]
            store.may_get(profile_id, reply) ==> reply == found,
    ensures
        match found {
            Err(StoreError::NotFound(_)) => after == manager && (result matches Err(
                ActivationError::ProfileNotFound(named),
            ) && named@ == profile_id),
            Err(e) => after == manager && result == Err::<ActiveConnection, ActivationError>(
                ActivationError::Store(e),
            ),
            Ok(profile) => {
                let busy = exists|i: int|
                    0 <= i < manager@.active.len() && (#[trigger] manager@.active[i]).profile.id
                        == profile_id;
                if !profile::applies(profile@, device) {
                    after == manager && result matches Err(
                        ActivationError::DeviceIncompatible { .. },
                    )
                } else if busy {
                    after == manager && (result matches Err(ActivationError::AlreadyActive(named))
                        && named@ == profile_id)
                } else {
                    exists|reply: Result<ActivationOutcome, ActivationError>|
                        #[trigger] manager.engine.may_activate(
                            profile@,
                            device,
                            reply,
                            after.engine,
                        ) && (result is Ok <==> reply is Ok) && after@.active.len()
                            == manager@.active.len() + 1
                }
            },
        },
{
    let active = manager@.active;
    lemma_connections_are_found(manager@, ActiveConnectionId(0), profile_id);
    if let Ok(profile) = found {
        if let Some(connection) = activation::connection_of(active, profile_id) {
            let k = choose|k: int|
                0 <= k < active.len() && #[trigger] active[k] == connection && connection.profile.id
                    == profile_id && forall|i: int|
                    0 <= i < k ==> (#[trigger] active[i]).profile.id != profile_id;
            assert(active[k].profile.id == profile_id);
        }
        if profile::applies(profile@, device) && activation::connection_of(
            active,
            profile_id,
        ) is None {
            assert(manager.asked(profile@, device, after, result));
            let reply = choose|reply: Result<ActivationOutcome, ActivationError>|
                {
                    &&& #[trigger] manager.engine.may_activate(
                        profile@,
                        device,
                        reply,
                        after.engine,
                    )
                    &&& after@ == activation::after_activation(manager@, profile@, device, reply)
                    &&& activation::told(manager@, profile@, device, reply, result)
                };
            assert(manager.engine.may_activate(profile@, device, reply, after.engine));
        }
    }
}

/// A request to end a connection is refused for a number that is not tracked and for a
/// connection that is not activated, and then changes nothing; otherwise the engine is
/// asked to take the connection's profile down, and its answer is the answer.
pub proof fn lemma_connection_is_ended_as_asked<E: ActivationEngine>(
    manager: ActivationManager<E>,
    id: ActiveConnectionId,
    after: ActivationManager<E>,
    result: Result<(), ActivationError>,
)
    requires
        manager.answers_for_removal(id, after, result),
    ensures
        (forall|i: int|
            0 <= i < manager@.active.len() ==> (#[trigger] manager@.active[i]).id != id) ==> after
            == manager && result == Err::<(), ActivationError>(
            ActivationError::UnknownActiveConnection(id),
        ),
        forall|k: int|
            0 <= k < manager@.active.len() && (#[trigger] manager@.active[k]).id == id && (forall|
                i: int,
            |
                0 <= i < k ==> (#[trigger] manager@.active[i]).id != id) ==> {
                let active = manager@.active[k];
                if active.state != ConnectionState::Activated {
                    after == manager && result == Err::<(), ActivationError>(
                        ActivationError::InvalidState { active_id: id, from: active.state },
                    )
                } else {
                    exists|reply: Result<(), ActivationError>|
                        #[trigger] manager.engine.may_deactivate(
                            active.profile,
                            reply,
                            after.engine,
                        ) && (result is Ok <==> reply is Ok) && (reply is Ok
                            ==> after@.active.len() == manager@.active.len() - 1)
                }
            },
{
    lemma_connections_are_found(manager@, id, Seq::empty());
    assert forall|k: int|
        0 <= k < manager@.active.len() && (#[trigger] manager@.active[k]).id == id && (forall|
            i: int,
        |
            0 <= i < k ==> (#[trigger] manager@.active[i]).id != id) implies {
        let active = manager@.active[k];
        if active.state != ConnectionState::Activated {
            after == manager && result == Err::<(), ActivationError>(
                ActivationError::InvalidState { active_id: id, from: active.state },
            )
        } else {
            exists|reply: Result<(), ActivationError>|
                #[trigger] manager.engine.may_deactivate(active.profile, reply, after.engine) && (
                result is Ok <==> reply is Ok) && (reply is Ok ==> after@.active.len()
                    == manager@.active.len() - 1)
        }
    } by {
        let p = activation::position_of(manager@.active, id)->0;
        assert(p == k) by {
            if p < k {
                assert(manager@.active[p].id != id);
            } else if k < p {
                assert(manager@.active[k].id != id);
            }
        }
    }
}

} // verus!
