//! D-Bus error mapping.
//!
//! The facade surfaces the same error names that NetworkManager uses, so
//! existing clients receive familiar failures instead of generic ones. Domain
//! errors (store, activation, validation) are translated into these names at
//! the interface boundary.

use vstd::prelude::*;

use crate::connection::activation::ActivationError;
use crate::connection::profile::ProfileValidationError;
use crate::connection::store::StoreError;
use crate::linux::model::NetlinkError;
use crate::text;
use crate::text::{concat2, concat3, concat5, decimal_text, quoted};

verus! {

/// Errors reported by the NetworkManager-compatible D-Bus layer.
#[derive(Debug, PartialEq, Eq)]
pub enum FacadeError {
    /// The referenced connection profile does not exist.
    UnknownConnection(String),
    /// A settings dictionary was structurally invalid.
    InvalidSetting(String),
    /// A settings dictionary held an invalid value for a known property.
    InvalidProperty(String),
    /// A settings dictionary was missing a required setting section.
    MissingSetting(String),
    /// The referenced device does not exist.
    UnknownDevice(String),
    /// The referenced active connection does not exist.
    UnknownActiveConnection(String),
    /// The connection is not currently active.
    NotActive(String),
    /// The connection is already active.
    AlreadyActive(String),
    /// The caller lacks the permission to perform the operation.
    PermissionDenied(String),
    /// The requested operation is not implemented by this facade.
    NotSupported(String),
    /// The backend failed while serving the request.
    Internal(String),
}

/// An error, with its description as a sequence.
#[verifier::ext_equal]
pub enum FacadeErrorView {
    UnknownConnection(Seq<char>),
    InvalidSetting(Seq<char>),
    InvalidProperty(Seq<char>),
    MissingSetting(Seq<char>),
    UnknownDevice(Seq<char>),
    UnknownActiveConnection(Seq<char>),
    NotActive(Seq<char>),
    AlreadyActive(Seq<char>),
    PermissionDenied(Seq<char>),
    NotSupported(Seq<char>),
    Internal(Seq<char>),
}

impl FacadeErrorView {
    /// The name of the error on the bus.
    pub open spec fn bus_name(self) -> Seq<char> {
        match self {
            FacadeErrorView::UnknownConnection(_) => "org.freedesktop.NetworkManager.Settings.Connection.UnknownConnection"@,
            FacadeErrorView::InvalidSetting(_) => "org.freedesktop.NetworkManager.Settings.Connection.InvalidSetting"@,
            FacadeErrorView::InvalidProperty(_) => "org.freedesktop.NetworkManager.Settings.Connection.InvalidProperty"@,
            FacadeErrorView::MissingSetting(_) => "org.freedesktop.NetworkManager.Settings.Connection.MissingSetting"@,
            FacadeErrorView::UnknownDevice(_) => "org.freedesktop.NetworkManager.UnknownDevice"@,
            FacadeErrorView::UnknownActiveConnection(_) => "org.freedesktop.NetworkManager.UnknownActiveConnection"@,
            FacadeErrorView::NotActive(_) => "org.freedesktop.NetworkManager.NotActive"@,
            FacadeErrorView::AlreadyActive(_) => "org.freedesktop.NetworkManager.AlreadyActive"@,
            FacadeErrorView::PermissionDenied(_) => "org.freedesktop.NetworkManager.PermissionDenied"@,
            FacadeErrorView::NotSupported(_) => "org.freedesktop.NetworkManager.NotSupported"@,
            FacadeErrorView::Internal(_) => "org.freedesktop.DBus.Error.Failed"@,
        }
    }

    /// What the error describes.
    pub open spec fn detail(self) -> Seq<char> {
        match self {
            FacadeErrorView::UnknownConnection(text) => text,
            FacadeErrorView::InvalidSetting(text) => text,
            FacadeErrorView::InvalidProperty(text) => text,
            FacadeErrorView::MissingSetting(text) => text,
            FacadeErrorView::UnknownDevice(text) => text,
            FacadeErrorView::UnknownActiveConnection(text) => text,
            FacadeErrorView::NotActive(text) => text,
            FacadeErrorView::AlreadyActive(text) => text,
            FacadeErrorView::PermissionDenied(text) => text,
            FacadeErrorView::NotSupported(text) => text,
            FacadeErrorView::Internal(text) => text,
        }
    }

    /// The error that a store's error becomes.
    pub open spec fn of_store(error: StoreError) -> Self {
        match error {
            StoreError::NotFound(id) => FacadeErrorView::UnknownConnection(id@),
            StoreError::AlreadyExists(id) => FacadeErrorView::InvalidSetting(
                "connection "@ + text::quoted_text(id@) + " already exists"@,
            ),
            StoreError::Invalid(reason) => FacadeErrorView::InvalidSetting(reason.text()),
            StoreError::Malformed { id, reason } => FacadeErrorView::InvalidSetting(
                "profile "@ + text::quoted_text(id@) + " is malformed: "@ + reason@,
            ),
            StoreError::Io(err) => FacadeErrorView::InvalidSetting(
                "store I/O failed: "@ + err.text(),
            ),
        }
    }

    /// The error that an activation's error becomes.
    pub open spec fn of_activation(error: ActivationError) -> Self {
        match error {
            ActivationError::ProfileNotFound(id) => FacadeErrorView::UnknownConnection(id@),
            ActivationError::DeviceIncompatible { profile_id, device } => FacadeErrorView::InvalidProperty(
                "profile "@ + text::quoted_text(profile_id@) + " does not match device "@
                    + device.interface_name@ + " ("@ + device.kind.text() + ")"@,
            ),
            ActivationError::NoSuitableProfile(device) => FacadeErrorView::InvalidSetting(
                "no suitable connection profile for device "@ + device.interface_name@ + " ("@
                    + device.kind.text() + ")"@,
            ),
            ActivationError::AlreadyActive(id) => FacadeErrorView::AlreadyActive(id@),
            ActivationError::UnknownActiveConnection(id) => FacadeErrorView::UnknownActiveConnection(
                text::decimal(id.0 as nat),
            ),
            ActivationError::InvalidState { active_id, from } => FacadeErrorView::NotActive(
                "active connection "@ + text::decimal(active_id.0 as nat) + " is not active"@,
            ),
            ActivationError::State(err) => FacadeErrorView::NotActive(err.text()),
            ActivationError::Store(err) => FacadeErrorView::of_store(err),
            ActivationError::Engine(reason) => FacadeErrorView::NotSupported(reason@),
        }
    }
}

impl FacadeError {
    pub open spec fn view(&self) -> FacadeErrorView {
        match self {
            FacadeError::UnknownConnection(text) => FacadeErrorView::UnknownConnection(text@),
            FacadeError::InvalidSetting(text) => FacadeErrorView::InvalidSetting(text@),
            FacadeError::InvalidProperty(text) => FacadeErrorView::InvalidProperty(text@),
            FacadeError::MissingSetting(text) => FacadeErrorView::MissingSetting(text@),
            FacadeError::UnknownDevice(text) => FacadeErrorView::UnknownDevice(text@),
            FacadeError::UnknownActiveConnection(text) => FacadeErrorView::UnknownActiveConnection(
                text@,
            ),
            FacadeError::NotActive(text) => FacadeErrorView::NotActive(text@),
            FacadeError::AlreadyActive(text) => FacadeErrorView::AlreadyActive(text@),
            FacadeError::PermissionDenied(text) => FacadeErrorView::PermissionDenied(text@),
            FacadeError::NotSupported(text) => FacadeErrorView::NotSupported(text@),
            FacadeError::Internal(text) => FacadeErrorView::Internal(text@),
        }
    }

    /// The name of the error on the bus.
    pub fn name(&self) -> (r: &'static str)
        ensures
            r@ == self@.bus_name(),
    {
        match self {
            FacadeError::UnknownConnection(_) => "org.freedesktop.NetworkManager.Settings.Connection.UnknownConnection",
            FacadeError::InvalidSetting(_) => "org.freedesktop.NetworkManager.Settings.Connection.InvalidSetting",
            FacadeError::InvalidProperty(_) => "org.freedesktop.NetworkManager.Settings.Connection.InvalidProperty",
            FacadeError::MissingSetting(_) => "org.freedesktop.NetworkManager.Settings.Connection.MissingSetting",
            FacadeError::UnknownDevice(_) => "org.freedesktop.NetworkManager.UnknownDevice",
            FacadeError::UnknownActiveConnection(_) => "org.freedesktop.NetworkManager.UnknownActiveConnection",
            FacadeError::NotActive(_) => "org.freedesktop.NetworkManager.NotActive",
            FacadeError::AlreadyActive(_) => "org.freedesktop.NetworkManager.AlreadyActive",
            FacadeError::PermissionDenied(_) => "org.freedesktop.NetworkManager.PermissionDenied",
            FacadeError::NotSupported(_) => "org.freedesktop.NetworkManager.NotSupported",
            FacadeError::Internal(_) => "org.freedesktop.DBus.Error.Failed",
        }
    }

    /// What the error describes.
    pub fn description(&self) -> (r: &str)
        ensures
            r@ == self@.detail(),
    {
        match self {
            FacadeError::UnknownConnection(text) => text.as_str(),
            FacadeError::InvalidSetting(text) => text.as_str(),
            FacadeError::InvalidProperty(text) => text.as_str(),
            FacadeError::MissingSetting(text) => text.as_str(),
            FacadeError::UnknownDevice(text) => text.as_str(),
            FacadeError::UnknownActiveConnection(text) => text.as_str(),
            FacadeError::NotActive(text) => text.as_str(),
            FacadeError::AlreadyActive(text) => text.as_str(),
            FacadeError::PermissionDenied(text) => text.as_str(),
            FacadeError::NotSupported(text) => text.as_str(),
            FacadeError::Internal(text) => text.as_str(),
        }
    }

    /// Writes the name and the description of the error.
    pub fn to_string(&self) -> (r: String)
        ensures
            r@ == self@.bus_name() + ": "@ + self@.detail(),
    {
        concat3(self.name(), ": ", self.description())
    }

    /// Builds an error for an operation that the facade deliberately does not
    /// implement.
    pub fn not_supported(operation: &str) -> (r: Self)
        ensures
            r@ == FacadeErrorView::NotSupported(operation@ + " is not supported by this daemon"@),
    {
        FacadeError::NotSupported(concat2(operation, " is not supported by this daemon"))
    }
}

impl From<StoreError> for FacadeError {
    fn from(value: StoreError) -> (r: Self)
        ensures
            r@ == FacadeErrorView::of_store(value),
    {
        match value {
            StoreError::NotFound(id) => FacadeError::UnknownConnection(id),
            StoreError::AlreadyExists(id) => FacadeError::InvalidSetting(
                concat3("connection ", quoted(id.as_str()).as_str(), " already exists"),
            ),
            StoreError::Invalid(reason) => FacadeError::InvalidSetting(reason.to_string()),
            StoreError::Malformed { id, reason } => {
                let head: String = concat3(
                    "profile ",
                    quoted(id.as_str()).as_str(),
                    " is malformed: ",
                );
                FacadeError::InvalidSetting(concat2(head.as_str(), reason.as_str()))
            },
            StoreError::Io(err) => FacadeError::InvalidSetting(
                concat2("store I/O failed: ", err.to_string().as_str()),
            ),
        }
    }
}

impl vstd::std_specs::convert::FromSpecImpl<StoreError> for FacadeError {
    open spec fn obeys_from_spec() -> bool {
        false
    }

    open spec fn from_spec(value: StoreError) -> Self {
        arbitrary()
    }
}

impl From<ProfileValidationError> for FacadeError {
    fn from(value: ProfileValidationError) -> (r: Self)
        ensures
            r@ == FacadeErrorView::InvalidSetting(value.text()),
    {
        FacadeError::InvalidSetting(value.to_string())
    }
}

impl vstd::std_specs::convert::FromSpecImpl<ProfileValidationError> for FacadeError {
    open spec fn obeys_from_spec() -> bool {
        false
    }

    open spec fn from_spec(value: ProfileValidationError) -> Self {
        arbitrary()
    }
}

impl From<NetlinkError> for FacadeError {
    fn from(value: NetlinkError) -> (r: Self)
        ensures
            r@ == FacadeErrorView::Internal(value.text()),
    {
        FacadeError::Internal(value.to_string())
    }
}

impl vstd::std_specs::convert::FromSpecImpl<NetlinkError> for FacadeError {
    open spec fn obeys_from_spec() -> bool {
        false
    }

    open spec fn from_spec(value: NetlinkError) -> Self {
        arbitrary()
    }
}

impl From<ActivationError> for FacadeError {
    fn from(value: ActivationError) -> (r: Self)
        ensures
            r@ == FacadeErrorView::of_activation(value),
    {
        match value {
            ActivationError::ProfileNotFound(id) => FacadeError::UnknownConnection(id),
            ActivationError::DeviceIncompatible { profile_id, device } => {
                let head: String = concat3(
                    "profile ",
                    quoted(profile_id.as_str()).as_str(),
                    " does not match device ",
                );
                FacadeError::InvalidProperty(
                    concat5(
                        head.as_str(),
                        device.interface_name.as_str(),
                        " (",
                        device.kind.to_string().as_str(),
                        ")",
                    ),
                )
            },
            ActivationError::NoSuitableProfile(device) => FacadeError::InvalidSetting(
                concat5(
                    "no suitable connection profile for device ",
                    device.interface_name.as_str(),
                    " (",
                    device.kind.to_string().as_str(),
                    ")",
                ),
            ),
            ActivationError::AlreadyActive(id) => FacadeError::AlreadyActive(id),
            ActivationError::UnknownActiveConnection(id) => FacadeError::UnknownActiveConnection(
                decimal_text(id.as_u64()),
            ),
            ActivationError::InvalidState { active_id, from: _ } => FacadeError::NotActive(
                concat3(
                    "active connection ",
                    decimal_text(active_id.as_u64()).as_str(),
                    " is not active",
                ),
            ),
            ActivationError::State(err) => FacadeError::NotActive(err.to_string()),
            ActivationError::Store(err) => FacadeError::from(err),
            ActivationError::Engine(reason) => FacadeError::NotSupported(reason),
        }
    }
}

impl vstd::std_specs::convert::FromSpecImpl<ActivationError> for FacadeError {
    open spec fn obeys_from_spec() -> bool {
        false
    }

    open spec fn from_spec(value: ActivationError) -> Self {
        arbitrary()
    }
}

} // verus!
