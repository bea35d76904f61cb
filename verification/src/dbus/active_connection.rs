//! The `Connection.Active` objects.
//!
//! One object per active connection, rendering the daemon's
//! [`ActiveConnection`] live. The device list, profile references and IP
//! configuration child paths are all derived.

use vstd::prelude::*;

use crate::connection::activation::{ActiveConnection, ActiveConnectionId};
use crate::connection::state::ConnectionState;
use crate::dbus::device;
use crate::dbus::device::{device_index_by_name, DeviceView};
use crate::dbus::error::{FacadeError, FacadeErrorView};
use crate::dbus::{
    device_path, DEVICES_PREFIX, NM_ACTIVE_CONNECTION_STATE_ACTIVATED,
    NM_ACTIVE_CONNECTION_STATE_ACTIVATING, NM_ACTIVE_CONNECTION_STATE_DEACTIVATED,
    NM_ACTIVE_CONNECTION_STATE_DEACTIVATING,
};
use crate::text;

verus! {

/// The active-connection state that clients see for a connection state.
pub open spec fn client_state(state: ConnectionState) -> u32 {
    match state {
        ConnectionState::Activated => NM_ACTIVE_CONNECTION_STATE_ACTIVATED,
        ConnectionState::Preparing
        | ConnectionState::Configuring
        | ConnectionState::Activating => NM_ACTIVE_CONNECTION_STATE_ACTIVATING,
        ConnectionState::Deactivating => NM_ACTIVE_CONNECTION_STATE_DEACTIVATING,
        ConnectionState::Unknown
        | ConnectionState::Disconnected
        | ConnectionState::Failed => NM_ACTIVE_CONNECTION_STATE_DEACTIVATED,
    }
}

/// The active-connection state that clients see for a connection state.
pub fn nm_state(state: ConnectionState) -> (r: u32)
    ensures
        r == client_state(state),
{
    match state {
        ConnectionState::Activated => NM_ACTIVE_CONNECTION_STATE_ACTIVATED,
        ConnectionState::Preparing
        | ConnectionState::Configuring
        | ConnectionState::Activating => NM_ACTIVE_CONNECTION_STATE_ACTIVATING,
        ConnectionState::Deactivating => NM_ACTIVE_CONNECTION_STATE_DEACTIVATING,
        ConnectionState::Unknown
        | ConnectionState::Disconnected
        | ConnectionState::Failed => NM_ACTIVE_CONNECTION_STATE_DEACTIVATED,
    }
}

/// The first connection with an id.
pub open spec fn connection_with(active: Seq<ActiveConnection>, id: ActiveConnectionId) -> Option<
    ActiveConnection,
>
    decreases active.len(),
{
    if active.len() == 0 {
        None
    } else if active[0].id == id {
        Some(active[0])
    } else {
        connection_with(active.skip(1), id)
    }
}

/// Returns an active connection by its daemon id.
pub fn active_by_id<'a>(active: &'a [ActiveConnection], id: ActiveConnectionId) -> (r: Option<
    &'a ActiveConnection,
>)
    ensures
        match r {
            Some(found) => connection_with(active@, id) == Some(*found),
            None => connection_with(active@, id) is None,
        },
{
    let ghost all = active@;
    let mut i: usize = 0;
    assert(all.skip(0) =~= all);
    while i < active.len()
        invariant
            i <= active@.len(),
            all == active@,
            connection_with(all, id) == connection_with(all.skip(i as int), id),
        decreases active@.len() - i,
    {
        assert(all.skip(i as int)[0] == all[i as int]);
        assert(all.skip(i as int).skip(1) =~= all.skip(i + 1));
        if active[i].id == id {
            return Some(&active[i]);
        }
        i = i + 1;
    }
    None
}

/// Returns an active connection by its daemon id, or the error that clients see
/// for an unknown one.
pub fn require_active<'a>(active: &'a [ActiveConnection], id: ActiveConnectionId) -> (r: Result<
    &'a ActiveConnection,
    FacadeError,
>)
    ensures
        match connection_with(active@, id) {
            Some(connection) => r matches Ok(found) && *found == connection,
            None => r matches Err(e) && e@ == FacadeErrorView::UnknownActiveConnection(
                text::decimal(id.0 as nat),
            ),
        },
{
    match active_by_id(active, id) {
        Some(found) => Ok(found),
        None => Err(FacadeError::UnknownActiveConnection(id.to_string())),
    }
}

/// The paths of the devices of a connection: that of the device with the name of
/// its interface, if there is one.
pub fn connection_devices(connection: &ActiveConnection, devices: &Vec<DeviceView>) -> (r: Vec<
    String,
>)
    ensures
        text::string_views(r@) == match device::device_named(
            devices@,
            connection.device.interface_name@,
        ) {
            Some(found) => seq![DEVICES_PREFIX@ + text::signed_decimal(found.index as int)],
            None => Seq::empty(),
        },
{
    let mut r: Vec<String> = Vec::new();
    assert(text::string_views(r@) =~= Seq::empty());
    if let Some(index) = device_index_by_name(devices, connection.device.interface_name.as_str()) {
        let path: String = device_path(index);
        r.push(path);
        assert(text::string_views(r@) =~= seq![path@]);
    }
    r
}

/// Whether a connection is the default one: an activated one is.
pub fn is_default(connection: &ActiveConnection) -> (r: bool)
    ensures
        r == (connection.state == ConnectionState::Activated),
{
    connection.state == ConnectionState::Activated
}

/// A client sees a connection as activated exactly when it is.
pub proof fn lemma_activated_is_seen(state: ConnectionState)
    ensures
        client_state(state) == NM_ACTIVE_CONNECTION_STATE_ACTIVATED <==> state
            == ConnectionState::Activated,
{
}

} // verus!
