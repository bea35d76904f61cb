//! An activation engine that drives wpa_supplicant.
//!
//! The engine adds the profile's network to the supplicant, asks it to
//! associate, and reports success only after the supplicant reaches the
//! `completed` state. Secret material never reaches errors. Enterprise
//! (WPA-EAP) authentication is reported as unsupported.

use vstd::prelude::*;

use crate::connection::activation;
use crate::connection::activation::{ActivationEngine, ActivationError};
use crate::connection::device::{DeviceInfo, DeviceInfoView};
use crate::connection::ip::{ActivationOutcome, ActivationOutcomeView};
use crate::connection::profile::{
    ConnectionProfile, ConnectionType, ConnectionTypeView, KeyManagement, ProfileView,
    WifiSecurity, WifiSecurityView, WifiSettings, WifiSettingsView,
};
use crate::connection::secrets::{SecretError, SecretProvider, SecretReferenceView};
use crate::linux::model::Bssid;
use crate::linux::supplicant;
use crate::linux::supplicant::{NetworkRequest, SupplicantCall, SupplicantControl, SupplicantError};
use crate::text::{concat2, concat3, same_text};

verus! {

/// Default time to wait for the supplicant to reach `completed`.
pub const DEFAULT_ASSOCIATION_MILLIS: u64 = 30000;

/// An [`ActivationEngine`] backed by a [`SupplicantControl`] client.
///
/// Secrets referenced by a profile are retrieved through the injected
/// [`SecretProvider`] at activation time and handed to the supplicant as raw
/// bytes; they are never retained or echoed in errors.
pub struct WpaSupplicantActivationEngine<C, P> {
    pub control: C,
    pub secrets: P,
    pub timeout_millis: u64,
    /// The profile that requested the current network, and the network's path.
    pub active_network: Option<(String, String)>,
}

// --- What an activation does ------------------------------------------------------------------

/// The name of a key-management mode in a network configuration.
pub open spec fn key_mgmt_name(key_management: KeyManagement) -> Seq<char> {
    match key_management {
        KeyManagement::Open => "NONE"@,
        KeyManagement::WpaPsk => "WPA-PSK"@,
        KeyManagement::WpaEap => "WPA-EAP"@,
        KeyManagement::Sae => "SAE"@,
        KeyManagement::Owe => "OWE"@,
    }
}

/// Maps a profile key-management mode to the string wpa_supplicant expects in
/// the network configuration dictionary.
pub fn supplicant_key_mgmt(key_management: KeyManagement) -> (r: &'static str)
    ensures
        r@ == key_mgmt_name(key_management),
{
    match key_management {
        KeyManagement::Open => "NONE",
        KeyManagement::WpaPsk => "WPA-PSK",
        KeyManagement::WpaEap => "WPA-EAP",
        KeyManagement::Sae => "SAE",
        KeyManagement::Owe => "OWE",
    }
}

/// Whether a key-management mode takes a passphrase.
pub open spec fn takes_passphrase(key_management: KeyManagement) -> bool {
    key_management is WpaPsk || key_management is Sae
}

/// Why an activation is refused before any secret is asked for, if it is.
pub open spec fn refusal(
    busy: bool,
    bound_to: Seq<char>,
    profile: ProfileView,
    device: DeviceInfoView,
) -> Option<Seq<char>> {
    if busy {
        Some("an activation is already in progress"@)
    } else {
        match profile.connection_type {
            ConnectionTypeView::Ethernet(_) => Some(
                "the supplicant engine only activates Wi-Fi profiles"@,
            ),
            ConnectionTypeView::Wifi(settings) => if bound_to != device.interface_name {
                Some(
                    "the supplicant control is bound to interface "@ + bound_to
                        + " but the profile was requested for "@ + device.interface_name,
                )
            } else if settings.security.key_management is WpaEap {
                Some("enterprise (WPA-EAP) authentication is not yet implemented"@)
            } else {
                None
            },
        }
    }
}

/// The secret behind a reference, or why there is none, when a provider that was
/// asked for it gave `answer`.
pub open spec fn secret_behind(
    reference: Option<SecretReferenceView>,
    answer: Result<Option<Vec<u8>>, SecretError>,
) -> Result<Seq<u8>, Seq<char>> {
    if reference is None {
        Err("profile is missing a secret reference"@)
    } else {
        match answer {
            Ok(Some(secret)) => Ok(secret@),
            Ok(None) => Err("no secret is available for this profile's authentication"@),
            Err(SecretError::NotFound) => Err(
                "no secret is available for this profile's authentication"@,
            ),
            Err(SecretError::Unavailable) => Err("the secret provider is unavailable"@),
        }
    }
}

/// The passphrase of a network, or why there is none, when a provider that was
/// asked for the secret gave `answer`.
pub open spec fn passphrase(
    security: WifiSecurityView,
    answer: Result<Option<Vec<u8>>, SecretError>,
) -> Result<Option<Seq<u8>>, Seq<char>> {
    if takes_passphrase(security.key_management) {
        match secret_behind(security.secret, answer) {
            Ok(secret) => Ok(Some(secret)),
            Err(reason) => Err(reason),
        }
    } else {
        Ok(None)
    }
}

/// The network that a profile describes.
pub open spec fn network_of(settings: WifiSettingsView, psk: Option<Seq<u8>>) -> NetworkRequest {
    NetworkRequest {
        ssid: settings.ssid,
        key_mgmt: key_mgmt_name(settings.security.key_management),
        psk,
        identity: settings.security.identity,
        bssid: settings.bssid,
        hidden: settings.hidden,
    }
}

/// Whether calls add a network, select it and wait for the association, up to
/// the first that fails, and remove the network again if it was added and a
/// later call failed.
pub open spec fn associates(
    calls: Seq<SupplicantCall>,
    network: NetworkRequest,
    timeout_millis: u64,
) -> bool {
    &&& calls.len() > 0
    &&& calls[0] is Add
    &&& calls[0]->network == network
    &&& match calls[0]->Add_reply {
        Err(_) => calls.len() == 1,
        Ok(path) => {
            &&& calls.len() > 2
            &&& calls[1] is Select
            &&& calls[1]->Select_path == path@
            &&& if calls[1]->Select_reply is Err {
                removes_last(calls, 2, path@)
            } else {
                &&& calls[2] is Wait
                &&& calls[2]->timeout_millis == timeout_millis
                &&& if calls[2]->Wait_reply is Err {
                    removes_last(calls, 3, path@)
                } else {
                    calls.len() == 3
                }
            }
        },
    }
}

/// Whether the call at a position is the last one and removes a network.
pub open spec fn removes_last(calls: Seq<SupplicantCall>, at: int, path: Seq<char>) -> bool {
    calls.len() == at + 1 && calls[at] is Remove && calls[at]->Remove_path == path
}

/// What associating calls led to: the path of the network, or the error of the
/// call that failed.
pub open spec fn association(calls: Seq<SupplicantCall>) -> Result<String, SupplicantError> {
    match calls[0]->Add_reply {
        Err(e) => Err(e),
        Ok(path) => match calls[1]->Select_reply {
            Err(e) => Err(e),
            Ok(_) => match calls[2]->Wait_reply {
                Err(e) => Err(e),
                Ok(_) => Ok(path),
            },
        },
    }
}

/// Whether a reply is a refusal for a reason.
pub open spec fn refuses<T>(reply: Result<T, ActivationError>, reason: Seq<char>) -> bool {
    reply matches Err(e) && activation::is_engine_error(e, reason)
}

/// Whether disconnecting and removing calls led to a reply: both are made, and
/// the first error is reported.
pub open spec fn dissociates(
    calls: Seq<SupplicantCall>,
    path: Seq<char>,
    reply: Result<(), ActivationError>,
) -> bool {
    &&& calls.len() == 2
    &&& calls[0] is Disconnect
    &&& calls[1] is Remove
    &&& calls[1]->Remove_path == path
    &&& match (calls[0]->Disconnect_reply, calls[1]->Remove_reply) {
        (Err(e), _) => refuses(reply, e.text()),
        (Ok(_), Err(e)) => refuses(reply, e.text()),
        (Ok(_), Ok(_)) => reply is Ok,
    }
}

impl<C: SupplicantControl, P: SecretProvider> WpaSupplicantActivationEngine<C, P> {
    /// Whether an engine differs from this one at most in what its control
    /// received, and received the given calls besides.
    pub open spec fn received(&self, calls: Seq<SupplicantCall>, after: Self) -> bool {
        &&& after.control.history() == self.control.history() + calls
        &&& after.secrets == self.secrets
        &&& after.timeout_millis == self.timeout_millis
    }

    /// Whether an activation that asked for a secret and was given `answer`
    /// made the given calls and ended with `reply`.
    pub open spec fn activates(
        &self,
        settings: WifiSettingsView,
        id: Seq<char>,
        answer: Result<Option<Vec<u8>>, SecretError>,
        calls: Seq<SupplicantCall>,
        reply: Result<ActivationOutcome, ActivationError>,
        after: Self,
    ) -> bool {
        let security = settings.security;
        &&& (takes_passphrase(security.key_management) && security.secret is Some)
            ==> self.secrets.may_retrieve(security.secret->0, answer)
        &&& match passphrase(security, answer) {
            Err(reason) => after == *self && refuses(reply, reason),
            Ok(psk) => {
                &&& self.received(calls, after)
                &&& associates(calls, network_of(settings, psk), self.timeout_millis)
                &&& match association(calls) {
                    Err(e) => refuses(reply, e.text()) && after.active_network is None,
                    Ok(path) => {
                        &&& reply matches Ok(outcome)
                        &&& outcome@ == ActivationOutcomeView::none()
                        &&& after.active_network matches Some((active_id, active_path))
                        &&& active_id@ == id
                        &&& active_path == path
                    },
                }
            },
        }
    }

    /// Creates an engine with the default association timeout.
    pub fn new(control: C, secrets: P) -> (r: Self)
        ensures
            r == (WpaSupplicantActivationEngine {
                control,
                secrets,
                timeout_millis: DEFAULT_ASSOCIATION_MILLIS,
                active_network: None,
            }),
    {
        WpaSupplicantActivationEngine {
            control,
            secrets,
            timeout_millis: DEFAULT_ASSOCIATION_MILLIS,
            active_network: None,
        }
    }

    /// Creates an engine with a custom association timeout.
    pub fn with_timeout(control: C, secrets: P, timeout_millis: u64) -> (r: Self)
        ensures
            r == (WpaSupplicantActivationEngine {
                control,
                secrets,
                timeout_millis,
                active_network: None,
            }),
    {
        WpaSupplicantActivationEngine { control, secrets, timeout_millis, active_network: None }
    }

    /// Adds a network, selects it and waits for the association.
    fn associate(&mut self, settings: &WifiSettings, psk: Option<&[u8]>) -> (r: Result<
        String,
        SupplicantError,
    >)
        ensures
            final(self).active_network == old(self).active_network,
            exists|calls: Seq<SupplicantCall>|
                {
                    &&& old(self).received(calls, *final(self))
                    &&& #[trigger] associates(
                        calls,
                        network_of(settings@, supplicant::octets_view(psk)),
                        old(self).timeout_millis,
                    )
                    &&& r == association(calls)
                },
    {
        let ghost start = self.control.history();
        let ghost network = network_of(settings@, supplicant::octets_view(psk));
        let ghost timeout = self.timeout_millis;
        let identity: Option<&str> = match &settings.security.identity {
            Some(identity) => Some(identity.as_str()),
            None => None,
        };
        let bssid: Option<&Bssid> = match &settings.bssid {
            Some(bssid) => Some(bssid),
            None => None,
        };
        let added: Result<String, SupplicantError> = self.control.add_network(
            &settings.ssid,
            supplicant_key_mgmt(settings.security.key_management),
            psk,
            identity,
            bssid,
            settings.hidden,
        );
        let ghost first = SupplicantCall::Add { network, reply: added };
        assert(self.control.history() == start.push(first));
        match added {
            Err(e) => {
                proof {
                    let calls = seq![first];
                    assert(self.control.history() =~= start + calls);
                    assert(associates(calls, network, timeout));
                }
                Err(e)
            },
            Ok(path) => {
                let selected: Result<(), SupplicantError> = self.control.select_network(
                    path.as_str(),
                );
                let ghost second = SupplicantCall::Select { path: path@, reply: selected };
                match selected {
                    Err(e) => {
                        let removed: Result<(), SupplicantError> = self.control.remove_network(
                            path.as_str(),
                        );
                        proof {
                            let third = SupplicantCall::Remove { path: path@, reply: removed };
                            let calls = seq![first, second, third];
                            assert(self.control.history() =~= start + calls);
                            assert(associates(calls, network, timeout));
                        }
                        Err(e)
                    },
                    Ok(_) => {
                        let completed: Result<(), SupplicantError> =
                            self.control.wait_for_completed(self.timeout_millis);
                        let ghost third = SupplicantCall::Wait {
                            timeout_millis: timeout,
                            reply: completed,
                        };
                        match completed {
                            Err(e) => {
                                let removed: Result<(), SupplicantError> =
                                    self.control.remove_network(path.as_str());
                                proof {
                                    let fourth = SupplicantCall::Remove {
                                        path: path@,
                                        reply: removed,
                                    };
                                    let calls = seq![first, second, third, fourth];
                                    assert(self.control.history() =~= start + calls);
                                    assert(associates(calls, network, timeout));
                                }
                                Err(e)
                            },
                            Ok(_) => {
                                proof {
                                    let calls = seq![first, second, third];
                                    assert(self.control.history() =~= start + calls);
                                    assert(associates(calls, network, timeout));
                                }
                                Ok(path)
                            },
                        }
                    },
                }
            },
        }
    }
}

fn engine_error<T>(reason: &str) -> (r: Result<T, ActivationError>)
    ensures
        refuses(r, reason@),
{
    Err(ActivationError::Engine(reason.to_owned()))
}

/// Retrieves the passphrase of a PSK/SAE profile through the provider, mapping
/// a missing or unavailable secret to an error that contains no secret material.
pub fn retrieve_passphrase<P: SecretProvider>(secrets: &P, security: &WifiSecurity) -> (r: Result<
    Vec<u8>,
    ActivationError,
>)
    ensures
        exists|answer: Result<Option<Vec<u8>>, SecretError>|
            {
                &&& security.secret is Some ==> secrets.may_retrieve(security.secret->0@, answer)
                &&& match #[trigger] secret_behind(security@.secret, answer) {
                    Ok(found) => r matches Ok(secret) && secret@ == found,
                    Err(reason) => refuses(r, reason),
                }
            },
{
    match &security.secret {
        None => {
            let ghost answer: Result<Option<Vec<u8>>, SecretError> = Ok(None);
            assert(secret_behind(security@.secret, answer) is Err);
            engine_error("profile is missing a secret reference")
        },
        Some(reference) => {
            let answer: Result<Option<Vec<u8>>, SecretError> = secrets.retrieve(reference);
            let ghost expected = secret_behind(security@.secret, answer);
            match answer {
                Ok(Some(secret)) => {
                    assert(expected == Ok::<Seq<u8>, Seq<char>>(secret@));
                    Ok(secret)
                },
                Ok(None) => engine_error("no secret is available for this profile's authentication"),
                Err(SecretError::NotFound) => engine_error(
                    "no secret is available for this profile's authentication",
                ),
                Err(SecretError::Unavailable) => engine_error("the secret provider is unavailable"),
            }
        },
    }
}

impl<C: SupplicantControl, P: SecretProvider> ActivationEngine for WpaSupplicantActivationEngine<
    C,
    P,
> {
    open spec fn may_activate(
        &self,
        profile: ProfileView,
        device: DeviceInfoView,
        reply: Result<ActivationOutcome, ActivationError>,
        after: Self,
    ) -> bool {
        match refusal(
            self.active_network is Some,
            self.control.bound_to(),
            profile,
            device,
        ) {
            Some(reason) => after == *self && refuses(reply, reason),
            None => exists|
                answer: Result<Option<Vec<u8>>, SecretError>,
                calls: Seq<SupplicantCall>,
            | #[trigger]
                self.activates(
                    profile.connection_type->Wifi_0,
                    profile.id,
                    answer,
                    calls,
                    reply,
                    after,
                ),
        }
    }

    open spec fn may_deactivate(
        &self,
        profile: ProfileView,
        reply: Result<(), ActivationError>,
        after: Self,
    ) -> bool {
        match self.active_network {
            None => after == *self && refuses(
                reply,
                "there is no active supplicant network for this profile"@,
            ),
            Some((id, path)) => if id@ != profile.id {
                after == *self && refuses(
                    reply,
                    "the active supplicant network belongs to a different profile"@,
                )
            } else {
                &&& after.active_network is None
                &&& exists|calls: Seq<SupplicantCall>|
                    self.received(calls, after) && #[trigger] dissociates(calls, path@, reply)
            },
        }
    }

    fn activate(&mut self, profile: &ConnectionProfile, device: &DeviceInfo) -> (r: Result<
        ActivationOutcome,
        ActivationError,
    >) {
        let ghost start = *self;
        if self.active_network.is_some() {
            return engine_error("an activation is already in progress");
        }
        let settings: &WifiSettings = match &profile.connection_type {
            ConnectionType::Wifi(settings) => settings,
            ConnectionType::Ethernet(_) => {
                return engine_error("the supplicant engine only activates Wi-Fi profiles");
            },
        };
        if !same_text(self.control.ifname(), device.interface_name.as_str()) {
            let head: String = concat2(
                "the supplicant control is bound to interface ",
                self.control.ifname(),
            );
            let reason: String = concat3(
                head.as_str(),
                " but the profile was requested for ",
                device.interface_name.as_str(),
            );
            return engine_error(reason.as_str());
        }
        let security: &WifiSecurity = &settings.security;
        assert(profile@.connection_type == ConnectionTypeView::Wifi(settings@));
        assert(profile@.connection_type->Wifi_0 == settings@);
        assert(profile@.id == profile.id@);
        if matches!(security.key_management, KeyManagement::WpaEap) {
            return engine_error("enterprise (WPA-EAP) authentication is not yet implemented");
        }
        let ghost mut answer: Result<Option<Vec<u8>>, SecretError> = Ok(None);
        let secret: Option<Vec<u8>> = match security.key_management {
            KeyManagement::WpaPsk | KeyManagement::Sae => {
                let retrieved: Result<Vec<u8>, ActivationError> = retrieve_passphrase(
                    &self.secrets,
                    security,
                );
                proof {
                    answer = choose|answer: Result<Option<Vec<u8>>, SecretError>|
                        {
                            &&& security.secret is Some ==> self.secrets.may_retrieve(
                                security.secret->0@,
                                answer,
                            )
                            &&& match #[trigger] secret_behind(security@.secret, answer) {
                                Ok(found) => retrieved matches Ok(secret) && secret@ == found,
                                Err(reason) => refuses(retrieved, reason),
                            }
                        };
                }
                match retrieved {
                    Ok(secret) => Some(secret),
                    Err(e) => {
                        let reply: Result<ActivationOutcome, ActivationError> = Err(e);
                        assert(start.activates(
                            settings@,
                            profile.id@,
                            answer,
                            Seq::empty(),
                            reply,
                            *self,
                        ));
                        return reply;
                    },
                }
            },
            _ => None,
        };
        let psk: Option<&[u8]> = match &secret {
            Some(secret) => Some(secret.as_slice()),
            None => None,
        };
        let path: Result<String, SupplicantError> = self.associate(settings, psk);
        let ghost calls = choose|calls: Seq<SupplicantCall>|
            {
                &&& start.received(calls, *self)
                &&& #[trigger] associates(
                    calls,
                    network_of(settings@, supplicant::octets_view(psk)),
                    start.timeout_millis,
                )
                &&& path == association(calls)
            };
        match path {
            Ok(network_path) => {
                self.active_network = Some((profile.id.clone(), network_path));
                let reply: Result<ActivationOutcome, ActivationError> = Ok(
                    ActivationOutcome::default(),
                );
                assert(start.activates(settings@, profile.id@, answer, calls, reply, *self));
                reply
            },
            Err(e) => {
                let reply: Result<ActivationOutcome, ActivationError> = engine_error(
                    e.to_string().as_str(),
                );
                assert(start.activates(settings@, profile.id@, answer, calls, reply, *self));
                reply
            },
        }
    }

    fn deactivate(&mut self, profile: &ConnectionProfile) -> (r: Result<(), ActivationError>) {
        let ghost start = *self;
        let network_path: String = match &self.active_network {
            None => {
                return engine_error("there is no active supplicant network for this profile");
            },
            Some((id, path)) => {
                if !same_text(id.as_str(), profile.id.as_str()) {
                    return engine_error(
                        "the active supplicant network belongs to a different profile",
                    );
                }
                path.clone()
            },
        };
        let disconnected: Result<(), SupplicantError> = self.control.disconnect();
        let removed: Result<(), SupplicantError> = self.control.remove_network(
            network_path.as_str(),
        );
        self.active_network = None;
        let ghost calls = seq![
            SupplicantCall::Disconnect { reply: disconnected },
            SupplicantCall::Remove { path: network_path@, reply: removed },
        ];
        assert(self.control.history() =~= start.control.history() + calls);
        assert(start.received(calls, *self));
        let reply: Result<(), ActivationError> = match (disconnected, removed) {
            (Err(e), _) => engine_error(e.to_string().as_str()),
            (Ok(_), Err(e)) => engine_error(e.to_string().as_str()),
            (Ok(_), Ok(_)) => Ok(()),
        };
        assert(dissociates(calls, network_path@, reply));
        reply
    }
}

// --- Laws -----------------------------------------------------------------------------------------

/// A failed association leaves no network behind: if the network was added, the
/// last call removes it.
pub proof fn lemma_failure_removes_network(
    calls: Seq<SupplicantCall>,
    network: NetworkRequest,
    timeout_millis: u64,
    path: String,
)
    requires
        associates(calls, network, timeout_millis),
        association(calls) is Err,
        calls[0]->Add_reply == Ok::<String, SupplicantError>(path),
    ensures
        calls.last() is Remove,
        calls.last()->Remove_path == path@,
{
}

/// Success is reported only after the supplicant said that the association is
/// complete.
pub proof fn lemma_success_after_completion(
    calls: Seq<SupplicantCall>,
    network: NetworkRequest,
    timeout_millis: u64,
)
    requires
        associates(calls, network, timeout_millis),
        association(calls) is Ok,
    ensures
        calls.last() is Wait,
        calls.last()->Wait_reply is Ok,
{
}

/// What an engine says when it fails to activate does not depend on the secret:
/// with another secret in its place, and the same replies of the supplicant, the
/// error is the same.
pub proof fn lemma_errors_hold_no_secret<C: SupplicantControl, P: SecretProvider>(
    engine: WpaSupplicantActivationEngine<C, P>,
    settings: WifiSettingsView,
    id: Seq<char>,
    secret: Vec<u8>,
    other: Vec<u8>,
    calls: Seq<SupplicantCall>,
    reply: ActivationError,
    after: WpaSupplicantActivationEngine<C, P>,
    other_reply: Result<ActivationOutcome, ActivationError>,
    other_calls: Seq<SupplicantCall>,
    other_after: WpaSupplicantActivationEngine<C, P>,
)
    requires
        engine.activates(settings, id, Ok(Some(secret)), calls, Err(reply), after),
        engine.activates(settings, id, Ok(Some(other)), other_calls, other_reply, other_after),
        association(calls) == association(other_calls),
    ensures
        other_reply is Err,
        other_reply->Err_0.text() == reply.text(),
{
}

/// The path of an active network.
pub open spec fn network_path(network: (String, String)) -> Seq<char> {
    network.1@
}

/// Deactivating the profile that is active frees the engine and removes the very
/// network that its activation added, whatever the supplicant answers.
pub proof fn lemma_deactivation_frees<C: SupplicantControl, P: SecretProvider>(
    engine: WpaSupplicantActivationEngine<C, P>,
    profile: ProfileView,
    device: DeviceInfoView,
    outcome: ActivationOutcome,
    active: WpaSupplicantActivationEngine<C, P>,
    reply: Result<(), ActivationError>,
    after: WpaSupplicantActivationEngine<C, P>,
)
    requires
        engine.may_activate(profile, device, Ok(outcome), active),
        active.may_deactivate(profile, reply, after),
    ensures
        after.active_network is None,
        after.control.history().last() is Remove,
        active.active_network is Some,
        after.control.history().last()->Remove_path == network_path(active.active_network->0),
{
    let (answer, calls) = choose|
        answer: Result<Option<Vec<u8>>, SecretError>,
        calls: Seq<SupplicantCall>,
    | #[trigger]
        engine.activates(
            profile.connection_type->Wifi_0,
            profile.id,
            answer,
            calls,
            Ok(outcome),
            active,
        );
    let path = network_path(active.active_network->0);
    let ending = choose|ending: Seq<SupplicantCall>|
        active.received(ending, after) && #[trigger] dissociates(ending, path, reply);
    assert(after.control.history().last() == ending[1]);
}

} // verus!
