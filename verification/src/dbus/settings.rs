//! The settings service and its per-connection objects.
//!
//! Connections are addressed on the bus by their UUID, which is derived from the
//! profile id. Adding or updating a connection through D-Bus goes through the
//! profile store, so the bus view and the domain view never diverge.

use vstd::prelude::*;

use crate::connection::activation::{ActivationEngine, ActiveConnection};
use crate::connection::profile::{ConnectionProfile, ProfileId, ProfileView};
use crate::connection::store;
use crate::connection::store::{InMemoryProfileStore, ProfileStore, StoreError};
use crate::daemon::{Daemon, NetworkBackend};
use crate::dbus::convert;
use crate::dbus::convert::{profile_to_settings, settings_to_profile};
use crate::dbus::device;
use crate::dbus::device::device_active;
use crate::dbus::error::{FacadeError, FacadeErrorView};
use crate::dbus::value::{SettingsDict, SettingsView};
use crate::text::same_text;

verus! {

/// Whether a result tells whether a store did what it was asked.
pub open spec fn tells_done(answer: Result<(), StoreError>, result: Result<(), FacadeError>) -> bool {
    match answer {
        Ok(_) => result is Ok,
        Err(e) => convert::fails_as(result, FacadeErrorView::of_store(e)),
    }
}

/// Whether nothing but the profiles differs between daemons.
pub open spec fn only_profiles<B, S, E>(before: Daemon<B, S, E>, after: Daemon<B, S, E>) -> bool {
    before.backend == after.backend && before.activation == after.activation
}

/// Renders the settings of a stored profile.
pub fn get_settings<B: NetworkBackend, S: ProfileStore, E: ActivationEngine>(
    daemon: &Daemon<B, S, E>,
    profile_id: &ProfileId,
) -> (r: Result<SettingsDict, FacadeError>)
    ensures
        exists|answer: Result<ConnectionProfile, StoreError>|
            #[trigger] daemon.profiles.may_get(profile_id@, answer) && match answer {
                Ok(profile) => r matches Ok(dict) && dict@ == convert::settings_of(profile@),
                Err(e) => convert::fails_as(r, FacadeErrorView::of_store(e)),
            },
{
    let answer: Result<ConnectionProfile, StoreError> = daemon.get_profile(profile_id);
    let ghost said = answer;
    assert(daemon.profiles.may_get(profile_id@, said));
    match answer {
        Ok(profile) => Ok(profile_to_settings(&profile)),
        Err(e) => Err(FacadeError::from(e)),
    }
}

/// Renders the settings that are applied to an interface: those of the connection
/// that is bound to it, or none.
pub fn applied_settings(active: &[ActiveConnection], interface: &str) -> (r: SettingsDict)
    ensures
        r@ == match device::connection_on(active@, interface@) {
            Some(connection) => convert::settings_of(connection.profile@),
            None => SettingsView::empty(),
        },
{
    match device_active(active, interface) {
        Some(connection) => profile_to_settings(&connection.profile),
        None => SettingsDict::new(),
    }
}

/// The connection that is bound to an interface, or the error that clients see
/// where there is none.
pub fn bound_connection<'a>(active: &'a [ActiveConnection], interface: &str) -> (r: Result<
    &'a ActiveConnection,
    FacadeError,
>)
    ensures
        match device::connection_on(active@, interface@) {
            Some(connection) => r matches Ok(found) && *found == connection,
            None => convert::fails_as(r, FacadeErrorView::NotActive(interface@)),
        },
{
    match device_active(active, interface) {
        Some(found) => Ok(found),
        None => Err(FacadeError::NotActive(interface.to_owned())),
    }
}

/// Stores the profile that settings describe.
pub fn add_connection<B: NetworkBackend, S: ProfileStore, E: ActivationEngine>(
    daemon: &mut Daemon<B, S, E>,
    settings: &SettingsDict,
) -> (r: Result<ConnectionProfile, FacadeError>)
    ensures
        only_profiles(*old(daemon), *final(daemon)),
        exists|parsed: Result<ConnectionProfile, FacadeError>|
            #[trigger] convert::decodes(convert::decode(settings@), parsed) && match parsed {
                Err(e) => r == Err::<ConnectionProfile, FacadeError>(e) && final(daemon).profiles
                    == old(daemon).profiles,
                Ok(profile) => exists|answer: Result<(), StoreError>|
                    #[trigger] old(daemon).profiles.may_create(
                        profile@,
                        answer,
                        final(daemon).profiles,
                    ) && match answer {
                        Ok(_) => r matches Ok(added) && added@ == profile@,
                        Err(e) => convert::fails_as(r, FacadeErrorView::of_store(e)),
                    },
            },
{
    let ghost before = *daemon;
    let parsed: Result<ConnectionProfile, FacadeError> = settings_to_profile(settings);
    let ghost read = parsed;
    assert(convert::decodes(convert::decode(settings@), read));
    let profile: ConnectionProfile = match parsed {
        Err(e) => {
            return Err(e);
        },
        Ok(profile) => profile,
    };
    let answer: Result<(), StoreError> = daemon.create_profile(profile.clone());
    let ghost said = answer;
    assert(before.profiles.may_create(profile@, said, daemon.profiles));
    match answer {
        Ok(_) => Ok(profile),
        Err(e) => Err(FacadeError::from(e)),
    }
}

/// Replaces a stored profile by the one that settings describe, whose id stays.
pub fn update_connection<B: NetworkBackend, S: ProfileStore, E: ActivationEngine>(
    daemon: &mut Daemon<B, S, E>,
    profile_id: &str,
    settings: &SettingsDict,
) -> (r: Result<(), FacadeError>)
    ensures
        only_profiles(*old(daemon), *final(daemon)),
        exists|parsed: Result<ConnectionProfile, FacadeError>|
            #[trigger] convert::decodes(convert::decode(settings@), parsed) && match parsed {
                Err(e) => r == Err::<(), FacadeError>(e) && final(daemon).profiles == old(
                    daemon,
                ).profiles,
                Ok(profile) => if profile@.id != profile_id@ {
                    &&& convert::fails_as(
                        r,
                        FacadeErrorView::InvalidProperty("connection.id cannot change on update"@),
                    )
                    &&& final(daemon).profiles == old(daemon).profiles
                } else {
                    exists|answer: Result<(), StoreError>|
                        #[trigger] old(daemon).profiles.may_update(
                            profile@,
                            answer,
                            final(daemon).profiles,
                        ) && tells_done(answer, r)
                },
            },
{
    let ghost before = *daemon;
    let parsed: Result<ConnectionProfile, FacadeError> = settings_to_profile(settings);
    let ghost read = parsed;
    assert(convert::decodes(convert::decode(settings@), read));
    let profile: ConnectionProfile = match parsed {
        Err(e) => {
            return Err(e);
        },
        Ok(profile) => profile,
    };
    if !same_text(profile.id.as_str(), profile_id) {
        return Err(
            FacadeError::InvalidProperty("connection.id cannot change on update".to_owned()),
        );
    }
    let answer: Result<(), StoreError> = daemon.update_profile(profile);
    let ghost said = answer;
    assert(before.profiles.may_update(profile@, said, daemon.profiles));
    let reply: Result<(), FacadeError> = match answer {
        Ok(_) => Ok(()),
        Err(e) => Err(FacadeError::from(e)),
    };
    assert(tells_done(said, reply));
    reply
}

/// Removes a stored profile.
pub fn delete_connection<B: NetworkBackend, S: ProfileStore, E: ActivationEngine>(
    daemon: &mut Daemon<B, S, E>,
    profile_id: &ProfileId,
) -> (r: Result<(), FacadeError>)
    ensures
        only_profiles(*old(daemon), *final(daemon)),
        exists|answer: Result<(), StoreError>|
            #[trigger] old(daemon).profiles.may_delete(profile_id@, answer, final(daemon).profiles)
                && tells_done(answer, r),
{
    let ghost before = *daemon;
    let answer: Result<(), StoreError> = daemon.delete_profile(profile_id);
    let ghost said = answer;
    assert(before.profiles.may_delete(profile_id@, said, daemon.profiles));
    let reply: Result<(), FacadeError> = match answer {
        Ok(_) => Ok(()),
        Err(e) => Err(FacadeError::from(e)),
    };
    assert(tells_done(said, reply));
    reply
}

/// What clients see and what is stored never diverge: after settings were added or
/// updated, the settings that are read are those of the stored profile, and they
/// describe that very profile.
pub proof fn lemma_stored_is_rendered(
    before: InMemoryProfileStore,
    dict: SettingsView,
    profile: ProfileView,
    after: InMemoryProfileStore,
    answer: Result<ConnectionProfile, StoreError>,
)
    requires
        convert::decode(dict) == convert::Decoded::Profile(profile),
        before.may_create(profile, Ok(()), after) || before.may_update(profile, Ok(()), after),
        after.may_get(profile.id, answer),
    ensures
        answer is Ok,
        convert::settings_of(answer->Ok_0@) == convert::settings_of(profile),
        convert::decode(convert::settings_of(answer->Ok_0@)) == convert::Decoded::Profile(profile),
{
    if before.may_create(profile, Ok(()), after) {
        store::lemma_created_is_read(before, after, profile, profile.id, answer);
    } else {
        store::lemma_updated_is_read(before, after, profile, profile.id, answer);
    }
    convert::lemma_decoded_profile_is_stable(dict, profile);
}

} // verus!
