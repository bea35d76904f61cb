//! wpa_supplicant control: the network configurations that are sent to it, and
//! what is made of the states it reports.
//!
//! Passphrases are accepted as raw bytes and placed in the network
//! configuration. They are never stored, never printed, and never part of a
//! [`SupplicantError`].

use vstd::prelude::*;

use crate::dbus::object_path;
use crate::dbus::object_path::object_path_error;
use crate::linux::model;
use crate::linux::model::{format_mac_address, Bssid, Ssid};
use crate::text;
use crate::text::{concat2, concat3, decode_lossy, quoted, same_text, signed_text};

verus! {

/// The D-Bus well-known name of the wpa_supplicant control service.
pub const SUPPLICANT_DESTINATION: &'static str = "fi.w1.wpa_supplicant1";

/// Object path of the service root object.
pub const SUPPLICANT_ROOT_PATH: &'static str = "/fi/w1/wpa_supplicant1";

/// D-Bus interface of the service root object.
pub const SUPPLICANT_ROOT_INTERFACE: &'static str = "fi.w1.wpa_supplicant1";

/// D-Bus interface of a per-interface control object.
pub const SUPPLICANT_INTERFACE_INTERFACE: &'static str = "fi.w1.wpa_supplicant1.Interface";

/// Time between state polls while waiting for association to complete.
pub const STATE_POLL_MILLIS: u64 = 100;

/// Errors surfaced by the wpa_supplicant control client.
#[derive(Debug, PartialEq, Eq)]
pub enum SupplicantError {
    /// The system D-Bus connection or a method call on it failed.
    Bus(String),
    /// The named wireless interface is not registered with the supplicant.
    InterfaceNotFound(String),
    /// The key-management configuration was rejected by the supplicant.
    NetworkRejected(String),
    /// The supplicant left the associated state (association or handshake).
    Disassociated { reason: i32 },
    /// The supplicant stopped connecting before reaching `completed`.
    NotConnected { state: String },
    /// The supplicant did not reach `completed` within the timeout.
    AssociationTimeout,
}

impl SupplicantError {
    /// What the error says of itself.
    pub open spec fn text(self) -> Seq<char> {
        match self {
            SupplicantError::Bus(err) => "wpa_supplicant D-Bus failure: "@ + err@,
            SupplicantError::InterfaceNotFound(name) => "wireless interface "@ + name@
                + " is not registered with wpa_supplicant"@,
            SupplicantError::NetworkRejected(reason) => "wpa_supplicant rejected the network configuration: "@
                + reason@,
            SupplicantError::Disassociated { reason } => "wpa_supplicant disassociated (reason code "@
                + text::signed_decimal(reason as int) + ")"@,
            SupplicantError::NotConnected { state } => "wpa_supplicant stopped connecting while in state "@
                + text::quoted_text(state@),
            SupplicantError::AssociationTimeout => "wpa_supplicant did not complete association within the timeout"@,
        }
    }

    /// Describes the error.
    pub fn to_string(&self) -> (r: String)
        ensures
            r@ == self.text(),
    {
        match self {
            SupplicantError::Bus(err) => concat2("wpa_supplicant D-Bus failure: ", err.as_str()),
            SupplicantError::InterfaceNotFound(name) => concat3(
                "wireless interface ",
                name.as_str(),
                " is not registered with wpa_supplicant",
            ),
            SupplicantError::NetworkRejected(reason) => concat2(
                "wpa_supplicant rejected the network configuration: ",
                reason.as_str(),
            ),
            SupplicantError::Disassociated { reason } => concat3(
                "wpa_supplicant disassociated (reason code ",
                signed_text(*reason).as_str(),
                ")",
            ),
            SupplicantError::NotConnected { state } => concat2(
                "wpa_supplicant stopped connecting while in state ",
                quoted(state.as_str()).as_str(),
            ),
            SupplicantError::AssociationTimeout => "wpa_supplicant did not complete association within the timeout".to_owned(),
        }
    }
}

// --- The boundary ------------------------------------------------------------------------

/// A network that a supplicant is asked to register.
#[verifier::ext_equal]
pub struct NetworkRequest {
    pub ssid: Seq<u8>,
    pub key_mgmt: Seq<char>,
    pub psk: Option<Seq<u8>>,
    pub identity: Option<Seq<char>>,
    pub bssid: Option<Seq<u8>>,
    pub hidden: bool,
}

/// A call that a supplicant control received, and its reply.
#[verifier::ext_equal]
#[allow(inconsistent_fields)]
pub enum SupplicantCall {
    Add { network: NetworkRequest, reply: Result<String, SupplicantError> },
    Select { path: Seq<char>, reply: Result<(), SupplicantError> },
    Remove { path: Seq<char>, reply: Result<(), SupplicantError> },
    Disconnect { reply: Result<(), SupplicantError> },
    Wait { timeout_millis: u64, reply: Result<(), SupplicantError> },
}

/// The view of an optional slice of octets.
pub open spec fn octets_view(octets: Option<&[u8]>) -> Option<Seq<u8>> {
    match octets {
        Some(value) => Some(value@),
        None => None,
    }
}

/// The view of an optional reference to a BSSID.
pub open spec fn bssid_octets(bssid: Option<&Bssid>) -> Option<Seq<u8>> {
    match bssid {
        Some(value) => Some(value.0@),
        None => None,
    }
}

/// The subset of the supplicant control API the activation engine needs.
///
/// The key management mode is passed as the raw supplicant string (for example
/// `"WPA-PSK"`) so this trait stays independent of the connection layer. A
/// control keeps a history of the calls it received.
pub trait SupplicantControl {
    /// The wireless interface this control is bound to; an implementation says
    /// where it keeps the name.
    open spec fn bound_to(&self) -> Seq<char> {
        Seq::empty()
    }

    /// The calls received so far, oldest first. A type that is to be held to this
    /// contract says how it keeps them.
    open spec fn history(&self) -> Seq<SupplicantCall> {
        Seq::empty()
    }

    /// The wireless interface name this control is bound to.
    fn ifname(&self) -> (r: &str)
        ensures
            r@ == self.bound_to(),
    ;

    /// Registers a network configuration and returns its object path.
    fn add_network(
        &mut self,
        ssid: &Ssid,
        key_mgmt: &str,
        psk: Option<&[u8]>,
        identity: Option<&str>,
        bssid: Option<&Bssid>,
        hidden: bool,
    ) -> (r: Result<String, SupplicantError>)
        ensures
            final(self).history() == old(self).history().push(
                SupplicantCall::Add {
                    network: NetworkRequest {
                        ssid: ssid@,
                        key_mgmt: key_mgmt@,
                        psk: octets_view(psk),
                        identity: text::str_view(identity),
                        bssid: bssid_octets(bssid),
                        hidden,
                    },
                    reply: r,
                },
            ),
    ;

    /// Instructs the supplicant to associate with the given network.
    fn select_network(&mut self, network_path: &str) -> (r: Result<(), SupplicantError>)
        ensures
            final(self).history() == old(self).history().push(
                SupplicantCall::Select { path: network_path@, reply: r },
            ),
    ;

    /// Removes a previously registered network configuration.
    fn remove_network(&mut self, network_path: &str) -> (r: Result<(), SupplicantError>)
        ensures
            final(self).history() == old(self).history().push(
                SupplicantCall::Remove { path: network_path@, reply: r },
            ),
    ;

    /// Disconnects from the current network, if any.
    fn disconnect(&mut self) -> (r: Result<(), SupplicantError>)
        ensures
            final(self).history() == old(self).history().push(
                SupplicantCall::Disconnect { reply: r },
            ),
    ;

    /// Blocks until association reaches `completed`, a terminal failure, or
    /// the timeout elapses.
    fn wait_for_completed(&mut self, timeout_millis: u64) -> (r: Result<(), SupplicantError>)
        ensures
            final(self).history() == old(self).history().push(
                SupplicantCall::Wait { timeout_millis, reply: r },
            ),
    ;
}

// --- Network configurations -----------------------------------------------------------------

/// A value of a network configuration.
#[derive(Debug, PartialEq, Eq)]
pub enum NetworkValue {
    Octets(Vec<u8>),
    Text(String),
    Number(u32),
}

/// A value, with its content as a sequence.
#[verifier::ext_equal]
pub enum NetworkValueView {
    Octets(Seq<u8>),
    Text(Seq<char>),
    Number(u32),
}

impl NetworkValue {
    pub open spec fn view(&self) -> NetworkValueView {
        match self {
            NetworkValue::Octets(octets) => NetworkValueView::Octets(octets@),
            NetworkValue::Text(text) => NetworkValueView::Text(text@),
            NetworkValue::Number(number) => NetworkValueView::Number(*number),
        }
    }
}

/// The dictionary that describes a network to the supplicant.
#[derive(Debug, PartialEq, Eq)]
pub struct NetworkConfig {
    pub entries: Vec<(String, NetworkValue)>,
}

/// The views of a list of entries.
pub open spec fn entry_views(entries: Seq<(String, NetworkValue)>) -> Seq<
    (Seq<char>, NetworkValueView),
> {
    entries.map_values(|entry: (String, NetworkValue)| (entry.0@, entry.1@))
}

/// The first value with a key among entries.
pub open spec fn entry_of(entries: Seq<(Seq<char>, NetworkValueView)>, key: Seq<char>) -> Option<
    NetworkValueView,
>
    decreases entries.len(),
{
    if entries.len() == 0 {
        None
    } else if entries[0].0 == key {
        Some(entries[0].1)
    } else {
        entry_of(entries.skip(1), key)
    }
}

impl NetworkConfig {
    pub open spec fn view(&self) -> Seq<(Seq<char>, NetworkValueView)> {
        entry_views(self.entries@)
    }

    /// Finds the value with a key.
    pub fn get(&self, key: &str) -> (r: Option<&NetworkValue>)
        ensures
            match r {
                Some(value) => entry_of(self@, key@) == Some(value@),
                None => entry_of(self@, key@) is None,
            },
    {
        let ghost views = self@;
        let mut i: usize = 0;
        assert(views.skip(0) =~= views);
        while i < self.entries.len()
            invariant
                i <= self.entries@.len(),
                views == entry_views(self.entries@),
                entry_of(views, key@) == entry_of(views.skip(i as int), key@),
            decreases self.entries@.len() - i,
        {
            assert(views.skip(i as int)[0] == views[i as int]);
            assert(views.skip(i as int).skip(1) =~= views.skip(i + 1));
            if same_text(self.entries[i].0.as_str(), key) {
                return Some(&self.entries[i].1);
            }
            i = i + 1;
        }
        None
    }

    /// Whether there is a value with a key.
    pub fn contains_key(&self, key: &str) -> (r: bool)
        ensures
            r == (entry_of(self@, key@) is Some),
    {
        self.get(key).is_some()
    }

    fn insert(&mut self, key: &str, value: NetworkValue)
        ensures
            final(self)@ == old(self)@.push((key@, value@)),
    {
        self.entries.push((key.to_owned(), value));
        assert(self@ =~= old(self)@.push((key@, value@)));
    }
}

/// The entries that describe a network.
pub open spec fn network_entries(network: NetworkRequest) -> Seq<(Seq<char>, NetworkValueView)> {
    seq![
        ("ssid"@, NetworkValueView::Octets(network.ssid)),
        ("key_mgmt"@, NetworkValueView::Text(network.key_mgmt)),
    ] + match network.psk {
        Some(octets) => seq![("psk"@, NetworkValueView::Text(text::lossy_text(octets)))],
        None => Seq::empty(),
    } + match network.identity {
        Some(identity) => seq![("identity"@, NetworkValueView::Text(identity))],
        None => Seq::empty(),
    } + match network.bssid {
        Some(bssid) => seq![("bssid"@, NetworkValueView::Text(model::mac_text(bssid)))],
        None => Seq::empty(),
    } + if network.hidden {
        seq![("scan_ssid"@, NetworkValueView::Number(1u32))]
    } else {
        Seq::empty()
    }
}

/// Builds the dictionary that describes a network to the supplicant.
///
/// The passphrase (when present) is copied into the dictionary; it is never
/// logged or echoed back in errors.
pub fn network_config_dict(
    ssid: &Ssid,
    key_mgmt: &str,
    psk: Option<&[u8]>,
    identity: Option<&str>,
    bssid: Option<&Bssid>,
    hidden: bool,
) -> (r: NetworkConfig)
    ensures
        r@ == network_entries(
            NetworkRequest {
                ssid: ssid@,
                key_mgmt: key_mgmt@,
                psk: octets_view(psk),
                identity: text::str_view(identity),
                bssid: bssid_octets(bssid),
                hidden,
            },
        ),
{
    let mut config = NetworkConfig { entries: Vec::new() };
    assert(config@ =~= Seq::empty());
    config.insert("ssid", NetworkValue::Octets(vstd::slice::slice_to_vec(ssid.as_bytes())));
    config.insert("key_mgmt", NetworkValue::Text(key_mgmt.to_owned()));
    if let Some(passphrase) = psk {
        config.insert("psk", NetworkValue::Text(decode_lossy(passphrase)));
    }
    if let Some(identity) = identity {
        config.insert("identity", NetworkValue::Text(identity.to_owned()));
    }
    if let Some(bssid) = bssid {
        config.insert("bssid", NetworkValue::Text(format_mac_address(bssid.as_bytes())));
    }
    if hidden {
        config.insert("scan_ssid", NetworkValue::Number(1));
    }
    assert(config@ =~= network_entries(
        NetworkRequest {
            ssid: ssid@,
            key_mgmt: key_mgmt@,
            psk: octets_view(psk),
            identity: text::str_view(identity),
            bssid: bssid_octets(bssid),
            hidden,
        },
    ));
    config
}

/// No key of a network's description occurs twice, so the entries make a
/// dictionary.
pub proof fn lemma_distinct_keys(network: NetworkRequest, i: int, j: int)
    requires
        0 <= i < j < network_entries(network).len(),
    ensures
        network_entries(network)[i].0 != network_entries(network)[j].0,
{
    reveal_strlit("ssid");
    reveal_strlit("key_mgmt");
    reveal_strlit("psk");
    reveal_strlit("identity");
    reveal_strlit("bssid");
    reveal_strlit("scan_ssid");
    assert("key_mgmt"@[0] == 'k');
    assert("identity"@[0] == 'i');
    assert("psk"@.len() == 3);
    assert("ssid"@.len() == 4);
    assert("bssid"@.len() == 5);
    assert("scan_ssid"@.len() == 9);
}

/// A network without a passphrase is described without one.
pub proof fn lemma_no_secret_without_one(network: NetworkRequest)
    requires
        network.psk is None,
    ensures
        entry_of(network_entries(network), "psk"@) is None,
{
    reveal_strlit("ssid");
    reveal_strlit("key_mgmt");
    reveal_strlit("psk");
    reveal_strlit("identity");
    reveal_strlit("bssid");
    reveal_strlit("scan_ssid");
    assert("key_mgmt"@.len() == 8);
    assert("identity"@.len() == 8);
    assert("psk"@.len() == 3);
    assert("ssid"@.len() == 4);
    assert("bssid"@.len() == 5);
    assert("scan_ssid"@.len() == 9);
    lemma_absent(network_entries(network), "psk"@);
}

proof fn lemma_absent(entries: Seq<(Seq<char>, NetworkValueView)>, key: Seq<char>)
    requires
        forall|i: int| 0 <= i < entries.len() ==> (#[trigger] entries[i]).0 != key,
    ensures
        entry_of(entries, key) is None,
    decreases entries.len(),
{
    if entries.len() > 0 {
        assert forall|i: int| 0 <= i < entries.skip(1).len() implies (#[trigger] entries.skip(
            1,
        )[i]).0 != key by {
            assert(entries.skip(1)[i] == entries[i + 1]);
        }
        lemma_absent(entries.skip(1), key);
    }
}

/// Checks the path of a network before it is sent.
pub fn check_network_path(network_path: &str) -> (r: Result<(), SupplicantError>)
    ensures
        match r {
            Ok(()) => object_path::is_object_path(network_path@),
            Err(e) => !object_path::is_object_path(network_path@) && (e matches SupplicantError::Bus(reason)
                && reason@ == "Invalid object path"@),
        },
{
    match object_path_error(network_path) {
        None => Ok(()),
        Some(reason) => Err(SupplicantError::Bus(reason)),
    }
}

// --- States ------------------------------------------------------------------------------------

/// What a supplicant's state and disconnect reason amount to.
pub enum Progress {
    Ongoing,
    Completed,
    Disassociated(i32),
    NotConnected,
}

/// What a supplicant's state and disconnect reason amount to.
pub open spec fn progress(state: Seq<char>, disconnect_reason: i32) -> Progress {
    if state == "completed"@ {
        Progress::Completed
    } else if state == "disconnected"@ && disconnect_reason != 0 {
        Progress::Disassociated(disconnect_reason)
    } else if state == "inactive"@ {
        Progress::NotConnected
    } else {
        Progress::Ongoing
    }
}

/// Whether a result is the one that a progress leads to.
pub open spec fn reports(
    progress: Progress,
    state: Seq<char>,
    result: Option<Result<(), SupplicantError>>,
) -> bool {
    match progress {
        Progress::Ongoing => result is None,
        Progress::Completed => result matches Some(Ok(_)),
        Progress::Disassociated(reason) => result == Some(
            Err::<(), SupplicantError>(SupplicantError::Disassociated { reason }),
        ),
        Progress::NotConnected => result matches Some(Err(SupplicantError::NotConnected {
            state: named,
        })) && named@ == state,
    }
}

/// Classifies a supplicant `State` / `DisconnectReason` snapshot.
///
/// Returns `None` while connection progress is still ongoing, `Some(Ok(()))`
/// once the connection is `completed`, and `Some(Err(..))` for terminal
/// failures.
pub fn classify_state(state: &str, disconnect_reason: i32) -> (r: Option<
    Result<(), SupplicantError>,
>)
    ensures
        reports(progress(state@, disconnect_reason), state@, r),
{
    if same_text(state, "completed") {
        return Some(Ok(()));
    }
    if same_text(state, "disconnected") {
        proof {
            reveal_strlit("disconnected");
            reveal_strlit("inactive");
            assert("disconnected"@.len() != "inactive"@.len());
        }
        if disconnect_reason != 0 {
            return Some(Err(SupplicantError::Disassociated { reason: disconnect_reason }));
        }
        return None;
    }
    if same_text(state, "inactive") {
        return Some(Err(SupplicantError::NotConnected { state: state.to_owned() }));
    }
    None
}

/// Decides about one poll while waiting for association: nothing means to wait
/// for another. A state that is terminal goes before the deadline.
pub fn poll_decision(state: &str, disconnect_reason: i32, expired: bool) -> (r: Option<
    Result<(), SupplicantError>,
>)
    ensures
        if progress(state@, disconnect_reason) is Ongoing && expired {
            r == Some(Err::<(), SupplicantError>(SupplicantError::AssociationTimeout))
        } else {
            reports(progress(state@, disconnect_reason), state@, r)
        },
{
    match classify_state(state, disconnect_reason) {
        Some(result) => Some(result),
        None => {
            if expired {
                Some(Err(SupplicantError::AssociationTimeout))
            } else {
                None
            }
        },
    }
}

/// A connection is only reported as established when the state is `completed`.
pub proof fn lemma_success_means_completed(
    state: Seq<char>,
    disconnect_reason: i32,
    result: Option<Result<(), SupplicantError>>,
)
    requires
        reports(progress(state, disconnect_reason), state, result),
        result is Some && result->0 is Ok,
    ensures
        state == "completed"@,
{
}

} // verus!
