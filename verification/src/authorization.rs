//! Authorization boundary between the D-Bus facade and the OS policy layer.
//!
//! An [`Authorization`] decides whether a caller may perform a NetworkManager
//! policy action (`org.freedesktop.NetworkManager.*`). The actions use
//! NetworkManager's own polkit action IDs: real clients read `GetPermissions`
//! for those exact names and the host policy already defines their semantics.

use vstd::prelude::*;

use crate::text;
use crate::text::concat2;

verus! {

pub const ACTION_ENABLE_DISABLE_NETWORK: &'static str =
    "org.freedesktop.NetworkManager.enable-disable-network";

pub const ACTION_ENABLE_DISABLE_WIFI: &'static str =
    "org.freedesktop.NetworkManager.enable-disable-wifi";

pub const ACTION_NETWORK_CONTROL: &'static str = "org.freedesktop.NetworkManager.network-control";

pub const ACTION_RELOAD: &'static str = "org.freedesktop.NetworkManager.reload";

pub const ACTION_SETTINGS_MODIFY_SYSTEM: &'static str =
    "org.freedesktop.NetworkManager.settings.modify.system";

pub const ACTION_SETTINGS_MODIFY_OWN: &'static str =
    "org.freedesktop.NetworkManager.settings.modify.own";

/// Every action exposed through `GetPermissions`, in the order clients see.
pub open spec fn permission_names() -> Seq<Seq<char>> {
    seq![
        ACTION_ENABLE_DISABLE_NETWORK@,
        ACTION_ENABLE_DISABLE_WIFI@,
        ACTION_NETWORK_CONTROL@,
        "org.freedesktop.NetworkManager.wifi.share.protected"@,
        "org.freedesktop.NetworkManager.wifi.share.open"@,
        ACTION_SETTINGS_MODIFY_SYSTEM@,
        ACTION_SETTINGS_MODIFY_OWN@,
        ACTION_RELOAD@,
        "org.freedesktop.NetworkManager.checkpoint-rollback"@,
        "org.freedesktop.NetworkManager.enable-disable-statistics"@,
        "org.freedesktop.NetworkManager.enable-disable-connectivity-check"@,
    ]
}

/// Every action exposed through `GetPermissions`, in the order clients see.
pub fn permission_actions() -> (r: Vec<String>)
    ensures
        text::string_views(r@) == permission_names(),
{
    let r: Vec<String> =
        vec![
        ACTION_ENABLE_DISABLE_NETWORK.to_owned(),
        ACTION_ENABLE_DISABLE_WIFI.to_owned(),
        ACTION_NETWORK_CONTROL.to_owned(),
        "org.freedesktop.NetworkManager.wifi.share.protected".to_owned(),
        "org.freedesktop.NetworkManager.wifi.share.open".to_owned(),
        ACTION_SETTINGS_MODIFY_SYSTEM.to_owned(),
        ACTION_SETTINGS_MODIFY_OWN.to_owned(),
        ACTION_RELOAD.to_owned(),
        "org.freedesktop.NetworkManager.checkpoint-rollback".to_owned(),
        "org.freedesktop.NetworkManager.enable-disable-statistics".to_owned(),
        "org.freedesktop.NetworkManager.enable-disable-connectivity-check".to_owned(),
    ];
    assert(text::string_views(r@) =~= permission_names());
    r
}

/// Reasons an authorization check could not produce a decision.
#[derive(Debug, PartialEq, Eq)]
pub enum AuthorizationError {
    /// The caller's identity could not be determined from the request.
    UnidentifiableCaller,
    /// The authorization backend failed to answer.
    Backend(String),
}

impl AuthorizationError {
    /// What the error says of itself.
    pub open spec fn text(self) -> Seq<char> {
        match self {
            AuthorizationError::UnidentifiableCaller => "the caller's identity could not be determined"@,
            AuthorizationError::Backend(reason) => "authorization backend error: "@ + reason@,
        }
    }

    /// Describes the error.
    pub fn to_string(&self) -> (r: String)
        ensures
            r@ == self.text(),
    {
        match self {
            AuthorizationError::UnidentifiableCaller => "the caller's identity could not be determined".to_owned(),
            AuthorizationError::Backend(reason) => concat2(
                "authorization backend error: ",
                reason.as_str(),
            ),
        }
    }
}

/// Who made a D-Bus request.
#[derive(Debug, PartialEq, Eq)]
pub enum CallerIdentity {
    /// The caller's D-Bus unique name (the message header sender).
    UniqueName(String),
    /// The request carried no sender, so it cannot be attributed.
    Unidentifiable,
}

impl CallerIdentity {
    /// The unique name, if there is one.
    pub open spec fn view(&self) -> Option<Seq<char>> {
        match self {
            CallerIdentity::UniqueName(name) => Some(name@),
            CallerIdentity::Unidentifiable => None,
        }
    }

    /// Builds the identity from the message header's sender.
    pub fn from_sender(sender: Option<&str>) -> (r: Self)
        ensures
            r@ == text::str_view(sender),
    {
        match sender {
            Some(name) => CallerIdentity::UniqueName(name.to_owned()),
            None => CallerIdentity::Unidentifiable,
        }
    }

    /// The unique name to present to a policy backend, if there is one.
    pub fn unique_name(&self) -> (r: Option<&str>)
        ensures
            text::str_view(r) == self@,
    {
        match self {
            CallerIdentity::UniqueName(name) => Some(name.as_str()),
            CallerIdentity::Unidentifiable => None,
        }
    }

    /// Names the caller.
    pub fn to_string(&self) -> (r: String)
        ensures
            r@ == match self@ {
                Some(name) => name,
                None => "<unidentifiable>"@,
            },
    {
        match self {
            CallerIdentity::UniqueName(name) => name.clone(),
            CallerIdentity::Unidentifiable => "<unidentifiable>".to_owned(),
        }
    }
}

impl Clone for CallerIdentity {
    fn clone(&self) -> (r: Self)
        ensures
            r == *self,
    {
        match self {
            CallerIdentity::UniqueName(name) => CallerIdentity::UniqueName(name.clone()),
            CallerIdentity::Unidentifiable => CallerIdentity::Unidentifiable,
        }
    }
}

/// The answer an authorization backend produced for one action.
#[derive(Clone, Copy, Debug, PartialEq, Eq, Structural)]
pub enum AuthorizationDecision {
    Yes,
    No,
    Unknown,
}

/// Decides whether a caller may perform a NetworkManager policy action.
///
/// Implementations never return `Err` for a plain denial: a caller that is
/// denied an action is `Ok(No)`. Errors are reserved for failures to determine
/// the answer at all.
pub trait Authorization: Sized {
    /// Whether a check may be answered with `reply` and turn the backend into
    /// `after`.
    open spec fn may_answer(
        &self,
        caller: Option<Seq<char>>,
        action: Seq<char>,
        reply: Result<AuthorizationDecision, AuthorizationError>,
        after: Self,
    ) -> bool {
        true
    }

    fn check(&mut self, caller: &CallerIdentity, action: &str) -> (r: Result<
        AuthorizationDecision,
        AuthorizationError,
    >)
        ensures
            old(self).may_answer(caller@, action@, r, *final(self)),
    ;
}

/// Grants every action to every caller.
#[derive(Clone, Copy, Debug, PartialEq, Eq, Structural)]
pub struct AllowAllAuthorization;

impl Authorization for AllowAllAuthorization {
    open spec fn may_answer(
        &self,
        caller: Option<Seq<char>>,
        action: Seq<char>,
        reply: Result<AuthorizationDecision, AuthorizationError>,
        after: Self,
    ) -> bool {
        reply == Ok::<AuthorizationDecision, AuthorizationError>(AuthorizationDecision::Yes)
    }

    fn check(&mut self, _caller: &CallerIdentity, _action: &str) -> (r: Result<
        AuthorizationDecision,
        AuthorizationError,
    >) {
        Ok(AuthorizationDecision::Yes)
    }
}

/// Denies every action to every caller.
#[derive(Clone, Copy, Debug, PartialEq, Eq, Structural)]
pub struct DenyAllAuthorization;

impl Authorization for DenyAllAuthorization {
    open spec fn may_answer(
        &self,
        caller: Option<Seq<char>>,
        action: Seq<char>,
        reply: Result<AuthorizationDecision, AuthorizationError>,
        after: Self,
    ) -> bool {
        reply == Ok::<AuthorizationDecision, AuthorizationError>(AuthorizationDecision::No)
    }

    fn check(&mut self, _caller: &CallerIdentity, _action: &str) -> (r: Result<
        AuthorizationDecision,
        AuthorizationError,
    >) {
        Ok(AuthorizationDecision::No)
    }
}

/// Records every check it forwards to an inner backend.
#[derive(Debug)]
pub struct RecordingAuthorization<A> {
    pub inner: A,
    pub calls: Vec<(CallerIdentity, String)>,
}

/// The views of a list of checks.
pub open spec fn call_views(calls: Seq<(CallerIdentity, String)>) -> Seq<
    (Option<Seq<char>>, Seq<char>),
> {
    calls.map_values(|call: (CallerIdentity, String)| (call.0@, call.1@))
}

impl<A: Authorization> RecordingAuthorization<A> {
    /// A recorder that forwarded nothing so far.
    pub fn new(inner: A) -> (r: Self)
        ensures
            r.inner == inner,
            call_views(r.calls@) == Seq::<(Option<Seq<char>>, Seq<char>)>::empty(),
    {
        let r = RecordingAuthorization { inner, calls: Vec::new() };
        assert(call_views(r.calls@) =~= Seq::<(Option<Seq<char>>, Seq<char>)>::empty());
        r
    }

    /// The checks forwarded so far, oldest first.
    pub fn calls(&self) -> (r: &Vec<(CallerIdentity, String)>)
        ensures
            *r == self.calls,
    {
        &self.calls
    }
}

impl<A: Authorization> Authorization for RecordingAuthorization<A> {
    open spec fn may_answer(
        &self,
        caller: Option<Seq<char>>,
        action: Seq<char>,
        reply: Result<AuthorizationDecision, AuthorizationError>,
        after: Self,
    ) -> bool {
        &&& self.inner.may_answer(caller, action, reply, after.inner)
        &&& call_views(after.calls@) == call_views(self.calls@).push((caller, action))
    }

    fn check(&mut self, caller: &CallerIdentity, action: &str) -> (r: Result<
        AuthorizationDecision,
        AuthorizationError,
    >) {
        self.calls.push((caller.clone(), action.to_owned()));
        assert(call_views(self.calls@) =~= call_views(old(self).calls@).push((caller@, action@)));
        self.inner.check(caller, action)
    }
}

// --- polkit -----------------------------------------------------------------------------------

/// The well-known system authority the daemon asks.
pub const POLKIT_DESTINATION: &'static str = "org.freedesktop.PolicyKit1";

pub const POLKIT_PATH: &'static str = "/org/freedesktop/PolicyKit1/Authority";

pub const POLKIT_INTERFACE: &'static str = "org.freedesktop.PolicyKit1.Authority";

/// The kind of subject that a D-Bus unique name is to polkit.
pub const POLKIT_SUBJECT_KIND: &'static str = "system-bus-name";

/// Flags of a check: no user interaction, the daemon only surfaces policy that
/// the host has already decided for the caller's session.
pub const POLKIT_FLAGS: u32 = 0;

/// The name under which polkit is asked about a caller: only the message-header
/// sender is ever used as the subject.
pub fn polkit_subject(caller: &CallerIdentity) -> (r: Result<&str, AuthorizationError>)
    ensures
        match caller@ {
            Some(name) => r matches Ok(subject) && subject@ == name,
            None => r == Err::<&str, AuthorizationError>(AuthorizationError::UnidentifiableCaller),
        },
{
    match caller.unique_name() {
        Some(name) => Ok(name),
        None => Err(AuthorizationError::UnidentifiableCaller),
    }
}

/// The decision that polkit's answer stands for.
pub fn polkit_decision(authorized: bool) -> (r: AuthorizationDecision)
    ensures
        r == if authorized {
            AuthorizationDecision::Yes
        } else {
            AuthorizationDecision::No
        },
{
    if authorized {
        AuthorizationDecision::Yes
    } else {
        AuthorizationDecision::No
    }
}

/// A recorder answers as the backend behind it does, and keeps what it recorded
/// before.
pub proof fn lemma_recording_is_faithful<A: Authorization>(
    recorder: RecordingAuthorization<A>,
    caller: Option<Seq<char>>,
    action: Seq<char>,
    reply: Result<AuthorizationDecision, AuthorizationError>,
    after: RecordingAuthorization<A>,
)
    requires
        recorder.may_answer(caller, action, reply, after),
    ensures
        recorder.inner.may_answer(caller, action, reply, after.inner),
        call_views(recorder.calls@).is_prefix_of(call_views(after.calls@)),
        call_views(after.calls@).last() == (caller, action),
{
}

} // verus!
