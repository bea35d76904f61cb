//! The root service.
//!
//! The root object is the entry point every client talks to first: it
//! enumerates devices and active connections, drives activation/deactivation,
//! and reports the daemon-wide flags (connectivity, permissions, version).

use vstd::prelude::*;

use crate::authorization;
use crate::authorization::permission_actions;
use crate::bytes;
use crate::bytes::to_signed;
use crate::connection::activation::{
    ActivationEngine, ActivationError, ActiveConnection, ActiveConnectionId,
};
use crate::connection::device::{DeviceInfo, DeviceInfoView};
use crate::connection::profile::ConnectionProfile;
use crate::connection::state::ConnectionState;
use crate::connection::store::ProfileStore;
use crate::daemon::{Daemon, NetworkBackend};
use crate::dbus::convert;
use crate::dbus::convert::{connection_type_string, settings_to_profile};
use crate::dbus::device;
use crate::dbus::device::{enumerate_devices, find_device, DeviceView};
use crate::dbus::error::{FacadeError, FacadeErrorView};
use crate::dbus::value::{SettingsDict, SettingsView};
use crate::dbus::{
    active_path, device_path, root_object_path, ACTIVE_PREFIX, DEVICES_PREFIX,
    NM_CONNECTIVITY_FULL, NM_CONNECTIVITY_NONE, NM_STATE_CONNECTED_GLOBAL, NM_STATE_DISCONNECTED,
    NO_OBJECT,
};
use crate::text;
use crate::text::{chars_of, copy_range, find_char, parse_u64, split_text, strip_prefix};

verus! {

// --- Paths ------------------------------------------------------------------------------

/// The number behind a prefix in a path, up to the next slash.
pub open spec fn path_number(path: Seq<char>, prefix: Seq<char>) -> Option<nat> {
    if text::starts_with(path, prefix) {
        let rest = path.skip(prefix.len() as int);
        text::read_unsigned(rest.take(text::cut(rest, '/')), u64::MAX as nat)
    } else {
        None
    }
}

/// Parses the trailing integer id from an object path like
/// `/org/freedesktop/NetworkManager/Devices/2`.
pub fn path_index(path: &str, prefix: &str) -> (r: Option<u64>)
    ensures
        match r {
            Some(n) => path_number(path@, prefix@) == Some(n as nat),
            None => path_number(path@, prefix@) is None,
        },
{
    let rest: Vec<char> = match strip_prefix(chars_of(path).as_slice(), prefix) {
        None => {
            return None;
        },
        Some(rest) => rest,
    };
    proof {
        text::lemma_cut(rest@, '/');
    }
    let end: usize = find_char(rest.as_slice(), '/', 0);
    let digits: Vec<char> = copy_range(rest.as_slice(), 0, end);
    assert(rest@.skip(0) =~= rest@);
    assert(digits@ =~= rest@.take(text::cut(rest@, '/')));
    parse_u64(digits.as_slice())
}

/// A number as a kernel interface index: its low bits, as a signed number.
pub open spec fn index_of_number(n: nat) -> i32 {
    bytes::signed32(n % 0x1_0000_0000) as i32
}

/// The id of an active connection from its path.
pub fn active_id(path: &str) -> (r: Result<ActiveConnectionId, FacadeError>)
    ensures
        match path_number(path@, ACTIVE_PREFIX@) {
            Some(n) => r matches Ok(id) && id.0 == n,
            None => r matches Err(e) && e@ == FacadeErrorView::UnknownActiveConnection(path@),
        },
{
    match path_index(path, ACTIVE_PREFIX) {
        Some(n) => Ok(ActiveConnectionId::new(n)),
        None => Err(FacadeError::UnknownActiveConnection(path.to_owned())),
    }
}

/// Whether a backend may lead to a device for a path.
pub open spec fn may_resolve<B: NetworkBackend>(
    backend: B,
    path: Seq<char>,
    result: Result<DeviceInfoView, FacadeErrorView>,
) -> bool {
    match path_number(path, DEVICES_PREFIX@) {
        None => result == Err::<DeviceInfoView, FacadeErrorView>(
            FacadeErrorView::UnknownDevice(path),
        ),
        Some(n) => exists|listing: Result<Vec<DeviceView>, FacadeErrorView>|
            #[trigger] device::may_enumerate(backend, listing) && match listing {
                Err(e) => result == Err::<DeviceInfoView, FacadeErrorView>(e),
                Ok(devices) => match device::device_with(devices@, index_of_number(n)) {
                    Some(found) => result == Ok::<DeviceInfoView, FacadeErrorView>(found.info()),
                    None => result == Err::<DeviceInfoView, FacadeErrorView>(
                        FacadeErrorView::UnknownDevice(
                            "device "@ + text::signed_decimal(index_of_number(n) as int),
                        ),
                    ),
                },
            },
    }
}

/// A device, with its error as a view.
pub open spec fn info_view(result: Result<DeviceInfo, FacadeError>) -> Result<
    DeviceInfoView,
    FacadeErrorView,
> {
    match result {
        Ok(info) => Ok(info@),
        Err(e) => Err(e@),
    }
}

/// The device that a path names.
pub fn device_info<B: NetworkBackend, S: ProfileStore, E: ActivationEngine>(
    daemon: &Daemon<B, S, E>,
    path: &str,
) -> (r: Result<DeviceInfo, FacadeError>)
    ensures
        may_resolve(daemon.backend, path@, info_view(r)),
{
    let number: u64 = match path_index(path, DEVICES_PREFIX) {
        None => {
            return Err(FacadeError::UnknownDevice(path.to_owned()));
        },
        Some(number) => number,
    };
    let index: i32 = to_signed((number % 0x1_0000_0000) as u32);
    let listing: Result<Vec<DeviceView>, FacadeError> = enumerate_devices(daemon);
    let ghost seen = device::result_view(listing);
    assert(device::may_enumerate(daemon.backend, seen));
    match listing {
        Err(e) => Err(e),
        Ok(devices) => match find_device(&devices, index) {
            Err(e) => Err(e),
            Ok(found) => Ok(found.to_device_info()),
        },
    }
}

/// The paths of devices, in order.
pub open spec fn device_names(devices: Seq<DeviceView>) -> Seq<Seq<char>> {
    devices.map_values(
        |found: DeviceView| DEVICES_PREFIX@ + text::signed_decimal(found.index as int),
    )
}

/// The paths of devices, in order.
pub fn device_paths(devices: &Vec<DeviceView>) -> (r: Vec<String>)
    ensures
        text::string_views(r@) == device_names(devices@),
{
    let mut r: Vec<String> = Vec::new();
    let mut i: usize = 0;
    while i < devices.len()
        invariant
            i <= devices@.len(),
            r@.len() == i,
            forall|j: int|
                0 <= j < i ==> (#[trigger] r@[j])@ == DEVICES_PREFIX@ + text::signed_decimal(
                    devices@[j].index as int,
                ),
        decreases devices@.len() - i,
    {
        r.push(device_path(devices[i].index));
        i = i + 1;
    }
    assert(text::string_views(r@) =~= device_names(devices@));
    r
}

/// The paths of active connections, in order.
pub open spec fn active_names(active: Seq<ActiveConnection>) -> Seq<Seq<char>> {
    active.map_values(
        |connection: ActiveConnection| ACTIVE_PREFIX@ + text::decimal(connection.id.0 as nat),
    )
}

/// The paths of active connections, in order.
pub fn active_paths(active: &[ActiveConnection]) -> (r: Vec<String>)
    ensures
        text::string_views(r@) == active_names(active@),
{
    let mut r: Vec<String> = Vec::new();
    let mut i: usize = 0;
    while i < active.len()
        invariant
            i <= active@.len(),
            r@.len() == i,
            forall|j: int|
                0 <= j < i ==> (#[trigger] r@[j])@ == ACTIVE_PREFIX@ + text::decimal(
                    active@[j].id.0 as nat,
                ),
        decreases active@.len() - i,
    {
        r.push(active_path(active[i].id));
        i = i + 1;
    }
    assert(text::string_views(r@) =~= active_names(active@));
    r
}

// --- Daemon-wide state -----------------------------------------------------------------------

/// The daemon-wide state with a number of tracked connections.
pub open spec fn global_state(connections: nat) -> u32 {
    if connections == 0 {
        NM_STATE_DISCONNECTED
    } else {
        NM_STATE_CONNECTED_GLOBAL
    }
}

/// The daemon-wide `State` as NM_STATE_* from the current active connections.
pub fn current_nm_state<B: NetworkBackend, S: ProfileStore, E: ActivationEngine>(
    daemon: &Daemon<B, S, E>,
) -> (r: u32)
    ensures
        r == global_state(daemon.activation.active@.len()),
{
    if daemon.active_connections().len() == 0 {
        NM_STATE_DISCONNECTED
    } else {
        NM_STATE_CONNECTED_GLOBAL
    }
}

/// The daemon-wide connectivity: full with any connection, none without.
pub fn check_connectivity(active: &[ActiveConnection]) -> (r: u32)
    ensures
        r == if active@.len() == 0 {
            NM_CONNECTIVITY_NONE
        } else {
            NM_CONNECTIVITY_FULL
        },
{
    if active.len() == 0 {
        NM_CONNECTIVITY_NONE
    } else {
        NM_CONNECTIVITY_FULL
    }
}

/// The connection that is reported as the primary one: the first.
pub fn primary_connection(active: &[ActiveConnection]) -> (r: Option<ActiveConnectionId>)
    ensures
        r == if active@.len() == 0 {
            None
        } else {
            Some(active@[0].id)
        },
{
    if active.len() == 0 {
        None
    } else {
        Some(active[0].id)
    }
}

/// The type of the primary connection, or nothing.
pub fn primary_connection_type(active: &[ActiveConnection]) -> (r: String)
    ensures
        r@ == if active@.len() == 0 {
            Seq::empty()
        } else {
            convert::transport_name(active@[0].profile@.connection_type)
        },
{
    if active.len() == 0 {
        String::new()
    } else {
        connection_type_string(&active[0].profile)
    }
}

/// The first connection that is being activated.
pub open spec fn first_activating(active: Seq<ActiveConnection>) -> Option<ActiveConnection>
    decreases active.len(),
{
    if active.len() == 0 {
        None
    } else if active[0].state == ConnectionState::Activating {
        Some(active[0])
    } else {
        first_activating(active.skip(1))
    }
}

/// The path of the connection that is being activated, or that of no object.
pub fn activating_connection(active: &[ActiveConnection]) -> (r: String)
    ensures
        r@ == match first_activating(active@) {
            Some(connection) => ACTIVE_PREFIX@ + text::decimal(connection.id.0 as nat),
            None => NO_OBJECT@,
        },
{
    let ghost all = active@;
    let mut i: usize = 0;
    assert(all.skip(0) =~= all);
    while i < active.len()
        invariant
            i <= active@.len(),
            all == active@,
            first_activating(all) == first_activating(all.skip(i as int)),
        decreases active@.len() - i,
    {
        assert(all.skip(i as int)[0] == all[i as int]);
        assert(all.skip(i as int).skip(1) =~= all.skip(i + 1));
        if active[i].state == ConnectionState::Activating {
            return active_path(active[i].id);
        }
        i = i + 1;
    }
    root_object_path()
}

/// Every action that clients ask about, each of which is permitted.
pub fn get_permissions() -> (r: Vec<(String, String)>)
    ensures
        r@.len() == authorization::permission_names().len(),
        forall|i: int|
            0 <= i < r@.len() ==> (#[trigger] r@[i]).0@ == authorization::permission_names()[i]
                && r@[i].1@ == "yes"@,
{
    let actions: Vec<String> = permission_actions();
    let mut r: Vec<(String, String)> = Vec::new();
    let mut i: usize = 0;
    while i < actions.len()
        invariant
            i <= actions@.len(),
            text::string_views(actions@) == authorization::permission_names(),
            r@.len() == i,
            forall|j: int|
                0 <= j < i ==> (#[trigger] r@[j]).0@ == authorization::permission_names()[j]
                    && r@[j].1@ == "yes"@,
        decreases actions@.len() - i,
    {
        assert(text::string_views(actions@)[i as int] == actions@[i as int]@);
        r.push((actions[i].clone(), "yes".to_owned()));
        i = i + 1;
    }
    r
}

/// The number that a part of a version is, or zero.
pub open spec fn version_number(parts: Seq<Seq<char>>, k: int) -> u32 {
    if k < parts.len() {
        match text::read_unsigned(parts[k], u32::MAX as nat) {
            Some(n) => n as u32,
            None => 0u32,
        }
    } else {
        0u32
    }
}

fn version_part(parts: &Vec<Vec<char>>, k: usize) -> (r: u32)
    ensures
        r == version_number(text::char_views(parts@), k as int),
{
    if k >= parts.len() {
        return 0;
    }
    assert(text::char_views(parts@)[k as int] == parts@[k as int]@);
    match parse_u64(parts[k].as_slice()) {
        Some(n) => if n <= u32::MAX as u64 {
            n as u32
        } else {
            0
        },
        None => 0,
    }
}

/// `VersionInfo`: the parts of a version, and a zero.
pub fn version_info(version: &str) -> (r: Vec<u32>)
    ensures
        r@ == ({
            let parts = text::split(version@, '.');
            seq![
                version_number(parts, 0),
                version_number(parts, 1),
                version_number(parts, 2),
                0u32,
            ]
        }),
{
    let parts: Vec<Vec<char>> = split_text(chars_of(version).as_slice(), '.');
    let major: u32 = version_part(&parts, 0);
    let minor: u32 = version_part(&parts, 1);
    let micro: u32 = version_part(&parts, 2);
    let r: Vec<u32> = vec![major, minor, micro, 0];
    assert(r@ =~= seq![major, minor, micro, 0u32]);
    r
}

// --- Requests ---------------------------------------------------------------------------------

/// Whether a result tells what a manager answered.
pub open spec fn tells<T>(answer: Result<T, ActivationError>, result: Result<T, FacadeError>) -> bool {
    match answer {
        Ok(value) => result == Ok::<T, FacadeError>(value),
        Err(e) => convert::fails_as(result, FacadeErrorView::of_activation(e)),
    }
}

/// Whether nothing but the activation differs between daemons.
pub open spec fn only_activation<B, S, E>(before: Daemon<B, S, E>, after: Daemon<B, S, E>) -> bool {
    before.backend == after.backend && before.profiles == after.profiles
}

/// Whether a request to activate settings on a device may turn a daemon into
/// another and be answered with `result`. Without settings, whatever suits the
/// device is activated; with settings, the stored profile with their id.
pub open spec fn may_activate_on<B: NetworkBackend, S: ProfileStore, E: ActivationEngine>(
    before: Daemon<B, S, E>,
    settings: SettingsView,
    info: DeviceInfoView,
    after: Daemon<B, S, E>,
    result: Result<ActiveConnection, FacadeError>,
) -> bool {
    if settings.len() == 0 {
        &&& only_activation(before, after)
        &&& exists|answer: Result<ActiveConnection, ActivationError>|
            #[trigger] before.activation.answers_for_device(
                before.profiles,
                info,
                after.activation,
                answer,
            ) && tells(answer, result)
    } else {
        exists|parsed: Result<ConnectionProfile, FacadeError>|
            #[trigger] convert::decodes(convert::decode(settings), parsed) && match parsed {
                Err(e) => after == before && result == Err::<ActiveConnection, FacadeError>(e),
                Ok(profile) => {
                    &&& only_activation(before, after)
                    &&& exists|answer: Result<ActiveConnection, ActivationError>|
                        #[trigger] before.activation.answers_for_profile(
                            before.profiles,
                            profile@.id,
                            info,
                            after.activation,
                            answer,
                        ) && tells(answer, result)
                },
            }
    }
}

/// Activates a connection on the device that a path names.
pub fn activate<B: NetworkBackend, S: ProfileStore, E: ActivationEngine>(
    daemon: &mut Daemon<B, S, E>,
    settings: &SettingsDict,
    path: &str,
) -> (r: Result<ActiveConnection, FacadeError>)
    requires
        old(daemon).activation.next_id < u64::MAX,
    ensures
        exists|info: Result<DeviceInfoView, FacadeErrorView>|
            #[trigger] may_resolve(old(daemon).backend, path@, info) && match info {
                Err(e) => convert::fails_as(r, e) && *final(daemon) == *old(daemon),
                Ok(info) => may_activate_on(*old(daemon), settings@, info, *final(daemon), r),
            },
{
    let ghost before = *daemon;
    let resolved: Result<DeviceInfo, FacadeError> = device_info(daemon, path);
    let ghost seen = info_view(resolved);
    assert(may_resolve(before.backend, path@, seen));
    let info: DeviceInfo = match resolved {
        Err(e) => {
            return Err(e);
        },
        Ok(info) => info,
    };
    if settings.is_empty() {
        let answer: Result<ActiveConnection, ActivationError> = daemon.activate(&info);
        let ghost said = answer;
        assert(before.activation.answers_for_device(
            before.profiles,
            info@,
            daemon.activation,
            said,
        ));
        let reply: Result<ActiveConnection, FacadeError> = match answer {
            Ok(connection) => Ok(connection),
            Err(e) => Err(FacadeError::from(e)),
        };
        assert(tells(said, reply));
        return reply;
    }
    let parsed: Result<ConnectionProfile, FacadeError> = settings_to_profile(settings);
    let ghost read = parsed;
    assert(convert::decodes(convert::decode(settings@), read));
    let profile: ConnectionProfile = match parsed {
        Err(e) => {
            return Err(e);
        },
        Ok(profile) => profile,
    };
    let answer: Result<ActiveConnection, ActivationError> = daemon.activate_profile(
        &profile.id,
        &info,
    );
    let ghost said = answer;
    assert(before.activation.answers_for_profile(
        before.profiles,
        profile@.id,
        info@,
        daemon.activation,
        said,
    ));
    let reply: Result<ActiveConnection, FacadeError> = match answer {
        Ok(connection) => Ok(connection),
        Err(e) => Err(FacadeError::from(e)),
    };
    assert(tells(said, reply));
    reply
}

/// Deactivates the connection that a path names.
pub fn deactivate_connection<B: NetworkBackend, S: ProfileStore, E: ActivationEngine>(
    daemon: &mut Daemon<B, S, E>,
    path: &str,
) -> (r: Result<(), FacadeError>)
    ensures
        only_activation(*old(daemon), *final(daemon)),
        match path_number(path@, ACTIVE_PREFIX@) {
            None => {
                &&& convert::fails_as(r, FacadeErrorView::UnknownActiveConnection(path@))
                &&& *final(daemon) == *old(daemon)
            },
            Some(n) => exists|answer: Result<(), ActivationError>|
                #[trigger] old(daemon).activation.answers_for_removal(
                    ActiveConnectionId(n as u64),
                    final(daemon).activation,
                    answer,
                ) && tells(answer, r),
        },
{
    let ghost before = *daemon;
    let id: ActiveConnectionId = match active_id(path) {
        Err(e) => {
            return Err(e);
        },
        Ok(id) => id,
    };
    let answer: Result<(), ActivationError> = daemon.deactivate(id);
    let ghost said = answer;
    assert(id == ActiveConnectionId(path_number(path@, ACTIVE_PREFIX@)->0 as u64));
    assert(before.activation.answers_for_removal(id, daemon.activation, said));
    let reply: Result<(), FacadeError> = match answer {
        Ok(done) => Ok(done),
        Err(e) => Err(FacadeError::from(e)),
    };
    assert(tells(said, reply));
    reply
}

// --- Laws ----------------------------------------------------------------------------------------

/// The number behind a prefix and a decimal number is that number.
proof fn lemma_number_read(prefix: Seq<char>, n: nat)
    requires
        n <= u64::MAX,
    ensures
        path_number(prefix + text::decimal(n), prefix) == Some(n),
{
    let digits = text::decimal(n);
    let path = prefix + digits;
    assert(path.take(prefix.len() as int) =~= prefix);
    assert(path.skip(prefix.len() as int) =~= digits);
    text::lemma_decimal_value(n);
    assert forall|i: int| 0 <= i < digits.len() implies #[trigger] digits[i] != '/' by {
        assert(text::is_digit(digits[i]));
    }
    text::lemma_cut_is(digits, '/', digits.len() as int);
    assert(digits.take(digits.len() as int) =~= digits);
    assert(text::is_digit(digits[0]));
}

/// The path of an active connection names it.
pub proof fn lemma_active_path_names(id: ActiveConnectionId)
    ensures
        path_number(ACTIVE_PREFIX@ + text::decimal(id.0 as nat), ACTIVE_PREFIX@) == Some(
            id.0 as nat,
        ),
{
    lemma_number_read(ACTIVE_PREFIX@, id.0 as nat);
}

/// The path of a device names it.
pub proof fn lemma_device_path_names(index: i32)
    requires
        index >= 0,
    ensures
        path_number(DEVICES_PREFIX@ + text::signed_decimal(index as int), DEVICES_PREFIX@) == Some(
            index as nat,
        ),
        index_of_number(index as nat) == index,
{
    lemma_number_read(DEVICES_PREFIX@, index as nat);
}

} // verus!
