//! Joining a Wi-Fi network.

use vstd::prelude::*;

use crate::connection::activation::ActivationError;
use crate::connection::device::DeviceInfoView;
use crate::connection::ip::ActivationOutcome;
use crate::connection::profile::{KeyManagement, ProfileView, WifiSettingsView};
use crate::connection::secrets::{SecretError, SecretProvider};
use crate::connection::supplicant_engine;
use crate::connection::supplicant_engine::WpaSupplicantActivationEngine;
use crate::linux::supplicant;
use crate::linux::supplicant::{
    NetworkRequest, NetworkValueView, SupplicantCall, SupplicantControl, SupplicantError,
};
use crate::text;

verus! {

/// A network is joined as the profile describes it. In every activation that succeeds
/// the supplicant is given the network's name, access point and whether it is hidden,
/// the name of its key management, and the secret exactly if that takes one; then it
/// is told to select that network, and it is waited for; and the network is the one
/// that is remembered as active.
pub proof fn lemma_network_is_joined_as_described<C: SupplicantControl, P: SecretProvider>(
    engine: WpaSupplicantActivationEngine<C, P>,
    settings: WifiSettingsView,
    id: Seq<char>,
    answer: Result<Option<Vec<u8>>, SecretError>,
    calls: Seq<SupplicantCall>,
    reply: Result<ActivationOutcome, ActivationError>,
    after: WpaSupplicantActivationEngine<C, P>,
)
    requires
        engine.activates(settings, id, answer, calls, reply, after),
        reply is Ok,
    ensures
        after.control.history() == engine.control.history() + calls,
        calls.len() == 3,
        calls[0] matches SupplicantCall::Add { network, reply: Ok(path) } && {
            &&& network.ssid == settings.ssid
            &&& network.bssid == settings.bssid
            &&& network.hidden == settings.hidden
            &&& network.identity == settings.security.identity
            &&& match settings.security.key_management {
                KeyManagement::Open => network.key_mgmt == "NONE"@ && network.psk is None,
                KeyManagement::WpaPsk => network.key_mgmt == "WPA-PSK"@ && (
                answer matches Ok(Some(secret)) && network.psk == Some(secret@)),
                KeyManagement::WpaEap => network.key_mgmt == "WPA-EAP"@ && network.psk is None,
                KeyManagement::Sae => network.key_mgmt == "SAE"@ && (answer matches Ok(Some(secret))
                    && network.psk == Some(secret@)),
                KeyManagement::Owe => network.key_mgmt == "OWE"@ && network.psk is None,
            }
            &&& calls[1] matches SupplicantCall::Select { path: selected, reply: Ok(_) } && selected
                == path@
            &&& calls[2] matches SupplicantCall::Wait { timeout_millis, reply: Ok(_) }
                && timeout_millis == engine.timeout_millis
            &&& after.active_network matches Some((active_id, active_path)) && active_id@ == id
                && active_path == path
        },
        settings.security.key_management == KeyManagement::WpaPsk
            || settings.security.key_management == KeyManagement::Sae
            ==> (settings.security.secret matches Some(reference) && engine.secrets.may_retrieve(
            reference,
            answer,
        )),
{
}

/// A network that could not be joined is not left behind: an activation fails when
/// the secret is missing, before the supplicant is asked for anything, or with the
/// error of the first call that failed, and a network that was added is then removed.
pub proof fn lemma_network_is_not_left_behind<C: SupplicantControl, P: SecretProvider>(
    engine: WpaSupplicantActivationEngine<C, P>,
    settings: WifiSettingsView,
    id: Seq<char>,
    answer: Result<Option<Vec<u8>>, SecretError>,
    calls: Seq<SupplicantCall>,
    reply: Result<ActivationOutcome, ActivationError>,
    after: WpaSupplicantActivationEngine<C, P>,
)
    requires
        engine.activates(settings, id, answer, calls, reply, after),
        reply is Err,
    ensures
        ({
            ||| after == engine
            ||| {
                &&& after.active_network is None
                &&& after.control.history() == engine.control.history() + calls
                &&& calls[0] matches SupplicantCall::Add { reply: added, .. }
                &&& added matches Ok(path) ==> (calls.last() matches SupplicantCall::Remove {
                    path: removed,
                    ..
                } && removed == path@)
                &&& added is Err ==> calls.len() == 1
            }
        }),
        (settings.security.key_management == KeyManagement::WpaPsk
            || settings.security.key_management == KeyManagement::Sae) && !(answer matches Ok(
            Some(_),
        )) ==> after == engine,
{
}

/// What a network dictionary says under a key: the first value with it, or nothing.
pub open spec fn says(
    entries: Seq<(Seq<char>, NetworkValueView)>,
    key: Seq<char>,
    found: Option<NetworkValueView>,
) -> bool {
    match found {
        Some(value) => exists|k: int|
            0 <= k < entries.len() && #[trigger] entries[k] == (key, value) && forall|i: int|
                0 <= i < entries.len() && i != k ==> (#[trigger] entries[i]).0 != key,
        None => forall|i: int| 0 <= i < entries.len() ==> (#[trigger] entries[i]).0 != key,
    }
}

/// The dictionary that a supplicant is given holds the octets of the network's name,
/// its key management, and, each only if there is one, the passphrase, the identity
/// and the access point; `scan_ssid` is one for a hidden network.
pub proof fn lemma_dictionary_says_what_network_is(network: NetworkRequest)
    ensures
        ({
            let entries = supplicant::network_entries(network);
            &&& says(entries, "ssid"@, Some(NetworkValueView::Octets(network.ssid)))
            &&& says(entries, "key_mgmt"@, Some(NetworkValueView::Text(network.key_mgmt)))
            &&& says(
                entries,
                "psk"@,
                match network.psk {
                    Some(octets) => Some(NetworkValueView::Text(text::lossy_text(octets))),
                    None => None,
                },
            )
            &&& says(
                entries,
                "identity"@,
                match network.identity {
                    Some(identity) => Some(NetworkValueView::Text(identity)),
                    None => None,
                },
            )
            &&& says(
                entries,
                "bssid"@,
                match network.bssid {
                    Some(bssid) => Some(
                        NetworkValueView::Text(crate::linux::model::mac_text(bssid)),
                    ),
                    None => None,
                },
            )
            &&& says(
                entries,
                "scan_ssid"@,
                if network.hidden {
                    Some(NetworkValueView::Number(1))
                } else {
                    None
                },
            )
        }),
{
    let entries = supplicant::network_entries(network);
    lemma_keys();
    let p: int = if network.psk is Some {
        1
    } else {
        0
    };
    let i: int = if network.identity is Some {
        1
    } else {
        0
    };
    let b: int = if network.bssid is Some {
        1
    } else {
        0
    };
    assert(entries.len() == 2 + p + i + b + if network.hidden {
        1int
    } else {
        0
    });
    assert(entries[0].0 == "ssid"@);
    assert(entries[1].0 == "key_mgmt"@);
    if network.psk is Some {
        assert(entries[2].0 == "psk"@);
    }
    if network.identity is Some {
        assert(entries[2 + p].0 == "identity"@);
    }
    if network.bssid is Some {
        assert(entries[2 + p + i].0 == "bssid"@);
    }
    if network.hidden {
        assert(entries[2 + p + i + b].0 == "scan_ssid"@);
    }
}

proof fn lemma_keys()
    ensures
        "ssid"@.len() == 4,
        "key_mgmt"@.len() == 8,
        "psk"@.len() == 3,
        "identity"@.len() == 8,
        "bssid"@.len() == 5,
        "scan_ssid"@.len() == 9,
        "key_mgmt"@ != "identity"@,
{
    reveal_strlit("ssid");
    reveal_strlit("key_mgmt");
    reveal_strlit("psk");
    reveal_strlit("identity");
    reveal_strlit("bssid");
    reveal_strlit("scan_ssid");
    assert("key_mgmt"@[0] == 'k' && "identity"@[0] == 'i');
}

/// A network is joined when the supplicant's state is `completed`, and not to be
/// joined any more when it is `inactive`, or `disconnected` for a reason. In any other
/// state it is waited for.
pub proof fn lemma_states_of_the_supplicant(
    state: Seq<char>,
    disconnect_reason: i32,
    result: Option<Result<(), SupplicantError>>,
)
    requires
        supplicant::reports(supplicant::progress(state, disconnect_reason), state, result),
    ensures
        result matches Some(Ok(_)) <==> state == "completed"@,
        result matches Some(Err(_)) <==> state == "inactive"@ || (state == "disconnected"@
            && disconnect_reason != 0),
        state == "disconnected"@ && disconnect_reason != 0 ==> result == Some(
            Err::<(), SupplicantError>(
                SupplicantError::Disassociated { reason: disconnect_reason },
            ),
        ),
        state == "inactive"@ ==> (result matches Some(Err(SupplicantError::NotConnected {
            state: named,
        })) && named@ == state),
{
    reveal_strlit("completed");
    reveal_strlit("inactive");
    reveal_strlit("disconnected");
    assert("completed"@.len() == 9 && "inactive"@.len() == 8 && "disconnected"@.len() == 12);
}

/// An activation is refused before anything is asked for exactly when another is in
/// progress, when the profile is none for Wi-Fi, when the supplicant serves another
/// interface, and for enterprise networks.
pub proof fn lemma_what_is_refused_at_once(
    busy: bool,
    bound_to: Seq<char>,
    profile: ProfileView,
    device: DeviceInfoView,
)
    ensures
        supplicant_engine::refusal(busy, bound_to, profile, device) is Some <==> {
            ||| busy
            ||| profile.connection_type is Ethernet
            ||| bound_to != device.interface_name
            ||| profile.connection_type->Wifi_0.security.key_management == KeyManagement::WpaEap
        },
{
}

/// Leaving a network disconnects from it and removes it, whatever became of the
/// first. It succeeds exactly when both did.
pub proof fn lemma_network_is_left(
    calls: Seq<SupplicantCall>,
    path: Seq<char>,
    reply: Result<(), ActivationError>,
)
    requires
        supplicant_engine::dissociates(calls, path, reply),
    ensures
        calls.len() == 2,
        calls[0] matches SupplicantCall::Disconnect { reply: first } && (
        calls[1] matches SupplicantCall::Remove { path: removed, reply: second } && removed == path
            && (reply is Ok <==> first is Ok && second is Ok)),
{
}

} // verus!
