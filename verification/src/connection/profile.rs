//! Connection profile model.
//!
//! A profile is the declarative description of a network connection: what it
//! connects to, which device it may use, how IP configuration is intended, and
//! how authentication is referenced. Secrets are never stored inline.

use vstd::prelude::*;

use crate::connection::device;
use crate::connection::device::{DeviceInfo, DeviceInfoView, DeviceKind, MacAddress};
use crate::connection::secrets;
use crate::connection::secrets::{SecretReference, SecretReferenceView};
use crate::linux::model;
use crate::linux::model::{Bssid, Route, Ssid};
use crate::net::IpAddr;
use crate::text;
use crate::text::{chars_of, concat3, copy_text, decimal_text, quoted, same_text};

verus! {

/// Stable identifier of a connection profile.
pub type ProfileId = String;

/// Validation failures reported by [`ConnectionProfile::validate`].
#[derive(Debug, PartialEq, Eq)]
pub enum ProfileValidationError {
    EmptyId,
    InvalidIdChars(String),
    EmptyName,
    EmptySsid,
    SsidTooLong(usize),
    MissingSecret,
    SecretNotAllowed,
    MissingIdentity,
    InvalidSpeed,
    ManualAddressRequired,
    ManualPrefixRequired,
    PrefixOutOfRange(u8),
    AddressFamilyMismatch,
}

impl ProfileValidationError {
    /// What the error says of itself.
    pub open spec fn text(self) -> Seq<char> {
        match self {
            ProfileValidationError::EmptyId => "profile id must not be empty"@,
            ProfileValidationError::InvalidIdChars(id) => "profile id "@ + text::quoted_text(id@)
                + " may only contain ASCII alphanumerics, '-' and '_'"@,
            ProfileValidationError::EmptyName => "profile name must not be empty"@,
            ProfileValidationError::EmptySsid => "wifi ssid must not be empty"@,
            ProfileValidationError::SsidTooLong(len) => "wifi ssid exceeds 32 octets ("@ + text::decimal(
                len as nat,
            ) + ")"@,
            ProfileValidationError::MissingSecret => "wifi security requires a secret reference"@,
            ProfileValidationError::SecretNotAllowed => "open or OWE wifi security must not carry a secret"@,
            ProfileValidationError::MissingIdentity => "enterprise wifi security requires an identity"@,
            ProfileValidationError::InvalidSpeed => "ethernet link speed must be non-zero"@,
            ProfileValidationError::ManualAddressRequired => "manual IP configuration requires an address"@,
            ProfileValidationError::ManualPrefixRequired => "manual IP configuration requires a prefix length"@,
            ProfileValidationError::PrefixOutOfRange(prefix) => "IP prefix length "@ + text::decimal(
                prefix as nat,
            ) + " is out of range for the configured family"@,
            ProfileValidationError::AddressFamilyMismatch => "IPv4/IPv6 configuration holds an address of the wrong family"@,
        }
    }

    /// Describes the error.
    pub fn to_string(&self) -> (r: String)
        ensures
            r@ == self.text(),
    {
        match self {
            ProfileValidationError::EmptyId => "profile id must not be empty".to_owned(),
            ProfileValidationError::InvalidIdChars(id) => concat3(
                "profile id ",
                quoted(id.as_str()).as_str(),
                " may only contain ASCII alphanumerics, '-' and '_'",
            ),
            ProfileValidationError::EmptyName => "profile name must not be empty".to_owned(),
            ProfileValidationError::EmptySsid => "wifi ssid must not be empty".to_owned(),
            ProfileValidationError::SsidTooLong(len) => concat3(
                "wifi ssid exceeds 32 octets (",
                decimal_text(*len as u64).as_str(),
                ")",
            ),
            ProfileValidationError::MissingSecret => "wifi security requires a secret reference".to_owned(),
            ProfileValidationError::SecretNotAllowed => "open or OWE wifi security must not carry a secret".to_owned(),
            ProfileValidationError::MissingIdentity => "enterprise wifi security requires an identity".to_owned(),
            ProfileValidationError::InvalidSpeed => "ethernet link speed must be non-zero".to_owned(),
            ProfileValidationError::ManualAddressRequired => "manual IP configuration requires an address".to_owned(),
            ProfileValidationError::ManualPrefixRequired => "manual IP configuration requires a prefix length".to_owned(),
            ProfileValidationError::PrefixOutOfRange(prefix) => concat3(
                "IP prefix length ",
                decimal_text(*prefix as u64).as_str(),
                " is out of range for the configured family",
            ),
            ProfileValidationError::AddressFamilyMismatch => "IPv4/IPv6 configuration holds an address of the wrong family".to_owned(),
        }
    }
}

// --- Settings --------------------------------------------------------------------

/// Wi-Fi key management intent.
#[derive(Clone, Copy, Debug, PartialEq, Eq, Hash, Structural)]
pub enum KeyManagement {
    Open,
    WpaPsk,
    WpaEap,
    Sae,
    Owe,
}

impl Default for KeyManagement {
    fn default() -> (r: Self)
        ensures
            r == KeyManagement::Open,
    {
        KeyManagement::Open
    }
}

impl KeyManagement {
    /// The name of the mode.
    pub open spec fn text(self) -> Seq<char> {
        match self {
            KeyManagement::Open => "open"@,
            KeyManagement::WpaPsk => "wpa-psk"@,
            KeyManagement::WpaEap => "wpa-eap"@,
            KeyManagement::Sae => "sae"@,
            KeyManagement::Owe => "owe"@,
        }
    }

    /// Names the mode.
    pub fn to_string(&self) -> (r: String)
        ensures
            r@ == self.text(),
    {
        match self {
            KeyManagement::Open => "open".to_owned(),
            KeyManagement::WpaPsk => "wpa-psk".to_owned(),
            KeyManagement::WpaEap => "wpa-eap".to_owned(),
            KeyManagement::Sae => "sae".to_owned(),
            KeyManagement::Owe => "owe".to_owned(),
        }
    }
}

/// Wi-Fi authentication configuration reference.
///
/// It points at key-management intent and at a [`SecretReference`]; it never
/// embeds a password.
#[derive(Debug, PartialEq, Eq)]
pub struct WifiSecurity {
    pub key_management: KeyManagement,
    pub secret: Option<SecretReference>,
    pub identity: Option<String>,
}

/// Security settings, with their texts as sequences.
#[verifier::ext_equal]
pub struct WifiSecurityView {
    pub key_management: KeyManagement,
    pub secret: Option<SecretReferenceView>,
    pub identity: Option<Seq<char>>,
}

impl WifiSecurity {
    pub open spec fn view(&self) -> WifiSecurityView {
        WifiSecurityView {
            key_management: self.key_management,
            secret: secrets::reference_view(self.secret),
            identity: text::text_view(self.identity),
        }
    }

    /// No authentication.
    pub fn open() -> (r: Self)
        ensures
            r.key_management == KeyManagement::Open,
            r.secret is None,
            r.identity is None,
    {
        WifiSecurity { key_management: KeyManagement::Open, secret: None, identity: None }
    }

    /// A pre-shared key.
    pub fn psk(secret: SecretReference) -> (r: Self)
        ensures
            r.key_management == KeyManagement::WpaPsk,
            r.secret == Some(secret),
            r.identity is None,
    {
        WifiSecurity { key_management: KeyManagement::WpaPsk, secret: Some(secret), identity: None }
    }

    /// Simultaneous authentication of equals.
    pub fn sae(secret: SecretReference) -> (r: Self)
        ensures
            r.key_management == KeyManagement::Sae,
            r.secret == Some(secret),
            r.identity is None,
    {
        WifiSecurity { key_management: KeyManagement::Sae, secret: Some(secret), identity: None }
    }

    /// Opportunistic wireless encryption.
    pub fn owe() -> (r: Self)
        ensures
            r.key_management == KeyManagement::Owe,
            r.secret is None,
            r.identity is None,
    {
        WifiSecurity { key_management: KeyManagement::Owe, secret: None, identity: None }
    }

    /// 802.1X authentication with the given identity.
    pub fn enterprise(identity: &str) -> (r: Self)
        ensures
            r.key_management == KeyManagement::WpaEap,
            r.secret is None,
            text::text_view(r.identity) == Some(identity@),
    {
        WifiSecurity {
            key_management: KeyManagement::WpaEap,
            secret: None,
            identity: Some(identity.to_owned()),
        }
    }
}

impl Default for WifiSecurity {
    fn default() -> (r: Self)
        ensures
            r.key_management == KeyManagement::Open,
            r.secret is None,
            r.identity is None,
    {
        WifiSecurity::open()
    }
}

impl Clone for WifiSecurity {
    fn clone(&self) -> (r: Self)
        ensures
            r == *self,
    {
        WifiSecurity {
            key_management: self.key_management,
            secret: match &self.secret {
                Some(secret) => Some(secret.clone()),
                None => None,
            },
            identity: copy_text(&self.identity),
        }
    }
}

/// Wi-Fi specific settings.
#[derive(Debug, PartialEq, Eq)]
pub struct WifiSettings {
    pub ssid: Ssid,
    pub bssid: Option<Bssid>,
    pub hidden: bool,
    pub security: WifiSecurity,
}

/// Wi-Fi settings, with their identifiers as octets.
#[verifier::ext_equal]
pub struct WifiSettingsView {
    pub ssid: Seq<u8>,
    pub bssid: Option<Seq<u8>>,
    pub hidden: bool,
    pub security: WifiSecurityView,
}

impl WifiSettings {
    pub open spec fn view(&self) -> WifiSettingsView {
        WifiSettingsView {
            ssid: self.ssid@,
            bssid: model::bssid_view(self.bssid),
            hidden: self.hidden,
            security: self.security@,
        }
    }
}

impl Clone for WifiSettings {
    fn clone(&self) -> (r: Self)
        ensures
            r@ == self@,
    {
        WifiSettings {
            ssid: self.ssid.clone(),
            bssid: self.bssid,
            hidden: self.hidden,
            security: self.security.clone(),
        }
    }
}

/// Half or full duplex.
#[derive(Clone, Copy, Debug, PartialEq, Eq, Hash, Structural)]
pub enum EthernetDuplex {
    Half,
    Full,
}

/// Ethernet specific settings.
#[derive(Clone, Copy, Debug, PartialEq, Eq, Structural)]
pub struct EthernetSettings {
    pub autonegotiation: Option<bool>,
    pub speed_mbit: Option<u32>,
    pub duplex: Option<EthernetDuplex>,
}

impl EthernetSettings {
    /// Settings that constrain nothing.
    pub open spec fn none() -> Self {
        EthernetSettings { autonegotiation: None, speed_mbit: None, duplex: None }
    }
}

impl Default for EthernetSettings {
    fn default() -> (r: Self)
        ensures
            r == EthernetSettings::none(),
    {
        EthernetSettings { autonegotiation: None, speed_mbit: None, duplex: None }
    }
}

/// The transport a profile describes.
#[derive(Debug, PartialEq, Eq)]
pub enum ConnectionType {
    Wifi(WifiSettings),
    Ethernet(EthernetSettings),
}

/// A transport, with its identifiers as octets.
#[verifier::ext_equal]
pub enum ConnectionTypeView {
    Wifi(WifiSettingsView),
    Ethernet(EthernetSettings),
}

impl ConnectionType {
    pub open spec fn view(&self) -> ConnectionTypeView {
        match self {
            ConnectionType::Wifi(settings) => ConnectionTypeView::Wifi(settings@),
            ConnectionType::Ethernet(settings) => ConnectionTypeView::Ethernet(*settings),
        }
    }

    /// The name of the transport.
    pub open spec fn text(self) -> Seq<char> {
        match self {
            ConnectionType::Wifi(_) => "wifi"@,
            ConnectionType::Ethernet(_) => "ethernet"@,
        }
    }

    /// Names the transport.
    pub fn to_string(&self) -> (r: String)
        ensures
            r@ == self.text(),
    {
        match self {
            ConnectionType::Wifi(_) => "wifi".to_owned(),
            ConnectionType::Ethernet(_) => "ethernet".to_owned(),
        }
    }
}

impl Clone for ConnectionType {
    fn clone(&self) -> (r: Self)
        ensures
            r@ == self@,
    {
        match self {
            ConnectionType::Wifi(settings) => ConnectionType::Wifi(settings.clone()),
            ConnectionType::Ethernet(settings) => ConnectionType::Ethernet(*settings),
        }
    }
}

/// Constraints used to select the device a profile applies to.
#[derive(Debug, PartialEq, Eq)]
pub struct DeviceMatch {
    pub interface_name: Option<String>,
    pub mac_address: Option<MacAddress>,
}

/// Constraints on a device, with the name as text and the address as octets.
#[verifier::ext_equal]
pub struct DeviceMatchView {
    pub interface_name: Option<Seq<char>>,
    pub mac_address: Option<Seq<u8>>,
}

impl DeviceMatch {
    pub open spec fn view(&self) -> DeviceMatchView {
        DeviceMatchView {
            interface_name: text::text_view(self.interface_name),
            mac_address: device::mac_octets(self.mac_address),
        }
    }
}

impl Default for DeviceMatch {
    fn default() -> (r: Self)
        ensures
            r.interface_name is None,
            r.mac_address is None,
    {
        DeviceMatch { interface_name: None, mac_address: None }
    }
}

impl Clone for DeviceMatch {
    fn clone(&self) -> (r: Self)
        ensures
            r == *self,
    {
        DeviceMatch {
            interface_name: copy_text(&self.interface_name),
            mac_address: self.mac_address,
        }
    }
}

/// IP configuration method.
#[derive(Clone, Copy, Debug, PartialEq, Eq, Hash, Structural)]
pub enum IpMethod {
    Automatic,
    Manual,
    Disabled,
}

impl Default for IpMethod {
    fn default() -> (r: Self)
        ensures
            r == IpMethod::Automatic,
    {
        IpMethod::Automatic
    }
}

impl IpMethod {
    /// The name of the method.
    pub open spec fn text(self) -> Seq<char> {
        match self {
            IpMethod::Automatic => "automatic"@,
            IpMethod::Manual => "manual"@,
            IpMethod::Disabled => "disabled"@,
        }
    }

    /// Names the method.
    pub fn to_string(&self) -> (r: String)
        ensures
            r@ == self.text(),
    {
        match self {
            IpMethod::Automatic => "automatic".to_owned(),
            IpMethod::Manual => "manual".to_owned(),
            IpMethod::Disabled => "disabled".to_owned(),
        }
    }
}

/// IP configuration intent.
#[derive(Debug, PartialEq, Eq)]
pub struct IpConfig {
    pub method: IpMethod,
    pub address: Option<IpAddr>,
    pub prefix_length: Option<u8>,
    pub gateway: Option<IpAddr>,
    pub dns_servers: Vec<IpAddr>,
    /// Static routes to install beside those that the address implies.
    pub routes: Vec<Route>,
}

/// IP configuration intent, with its lists as sequences.
#[verifier::ext_equal]
pub struct IpConfigView {
    pub method: IpMethod,
    pub address: Option<IpAddr>,
    pub prefix_length: Option<u8>,
    pub gateway: Option<IpAddr>,
    pub dns_servers: Seq<IpAddr>,
    pub routes: Seq<Route>,
}

impl IpConfigView {
    /// The intent of a profile that says nothing of it.
    pub open spec fn automatic() -> Self {
        IpConfigView {
            method: IpMethod::Automatic,
            address: None,
            prefix_length: None,
            gateway: None,
            dns_servers: Seq::empty(),
            routes: Seq::empty(),
        }
    }
}

impl IpConfig {
    pub open spec fn view(&self) -> IpConfigView {
        IpConfigView {
            method: self.method,
            address: self.address,
            prefix_length: self.prefix_length,
            gateway: self.gateway,
            dns_servers: self.dns_servers@,
            routes: self.routes@,
        }
    }
}

impl Default for IpConfig {
    fn default() -> (r: Self)
        ensures
            r@ == IpConfigView::automatic(),
    {
        IpConfig {
            method: IpMethod::Automatic,
            address: None,
            prefix_length: None,
            gateway: None,
            dns_servers: Vec::new(),
            routes: Vec::new(),
        }
    }
}

impl Clone for IpConfig {
    fn clone(&self) -> (r: Self)
        ensures
            r@ == self@,
    {
        IpConfig {
            method: self.method,
            address: self.address,
            prefix_length: self.prefix_length,
            gateway: self.gateway,
            dns_servers: vstd::slice::slice_to_vec(self.dns_servers.as_slice()),
            routes: vstd::slice::slice_to_vec(self.routes.as_slice()),
        }
    }
}

// --- The profile --------------------------------------------------------------------

/// A connection profile.
#[derive(Debug, PartialEq, Eq)]
pub struct ConnectionProfile {
    pub id: ProfileId,
    pub name: String,
    pub connection_type: ConnectionType,
    pub device_match: DeviceMatch,
    pub priority: i32,
    pub autoconnect: bool,
    pub enabled: bool,
    pub ipv4: IpConfig,
    pub ipv6: IpConfig,
}

/// A profile, with its texts and lists as sequences.
#[verifier::ext_equal]
pub struct ProfileView {
    pub id: Seq<char>,
    pub name: Seq<char>,
    pub connection_type: ConnectionTypeView,
    pub device_match: DeviceMatchView,
    pub priority: i32,
    pub autoconnect: bool,
    pub enabled: bool,
    pub ipv4: IpConfigView,
    pub ipv6: IpConfigView,
}

impl ConnectionProfile {
    pub open spec fn view(&self) -> ProfileView {
        ProfileView {
            id: self.id@,
            name: self.name@,
            connection_type: self.connection_type@,
            device_match: self.device_match@,
            priority: self.priority,
            autoconnect: self.autoconnect,
            enabled: self.enabled,
            ipv4: self.ipv4@,
            ipv6: self.ipv6@,
        }
    }
}

impl Clone for ConnectionProfile {
    fn clone(&self) -> (r: Self)
        ensures
            r@ == self@,
            r.id == self.id,
    {
        ConnectionProfile {
            id: self.id.clone(),
            name: self.name.clone(),
            connection_type: self.connection_type.clone(),
            device_match: self.device_match.clone(),
            priority: self.priority,
            autoconnect: self.autoconnect,
            enabled: self.enabled,
            ipv4: self.ipv4.clone(),
            ipv6: self.ipv6.clone(),
        }
    }
}

/// The views of a list of profiles.
pub open spec fn profile_views(profiles: Seq<ConnectionProfile>) -> Seq<ProfileView> {
    profiles.map_values(|profile: ConnectionProfile| profile@)
}

/// Whether a character may stand in a profile id.
pub open spec fn is_id_char(c: char) -> bool {
    ||| '0' <= c && c <= '9'
    ||| 'a' <= c && c <= 'z'
    ||| 'A' <= c && c <= 'Z'
    ||| c == '-'
    ||| c == '_'
}

/// Whether every character of an id is allowed.
pub open spec fn id_chars_ok(id: Seq<char>) -> bool {
    forall|i: int| 0 <= i < id.len() ==> is_id_char(#[trigger] id[i])
}

/// A problem with a profile. Which id or length is at fault follows from the
/// profile.
#[derive(Clone, Copy, Debug, PartialEq, Eq, Structural)]
pub enum Problem {
    EmptyId,
    InvalidIdChars,
    EmptyName,
    EmptySsid,
    SsidTooLong,
    MissingSecret,
    SecretNotAllowed,
    MissingIdentity,
    InvalidSpeed,
    ManualAddressRequired,
    ManualPrefixRequired,
    PrefixOutOfRange(u8),
    AddressFamilyMismatch,
}

/// The first problem with the Wi-Fi settings of a profile.
pub open spec fn wifi_problem(settings: WifiSettingsView) -> Option<Problem> {
    let security = settings.security;
    if settings.ssid.len() == 0 {
        Some(Problem::EmptySsid)
    } else if settings.ssid.len() > 32 {
        Some(Problem::SsidTooLong)
    } else {
        match security.key_management {
            KeyManagement::WpaPsk | KeyManagement::Sae => if security.secret is None {
                Some(Problem::MissingSecret)
            } else {
                None
            },
            KeyManagement::WpaEap => match security.identity {
                Some(identity) if identity.len() > 0 => None,
                _ => Some(Problem::MissingIdentity),
            },
            KeyManagement::Open | KeyManagement::Owe => if security.secret is Some {
                Some(Problem::SecretNotAllowed)
            } else {
                None
            },
        }
    }
}

/// The first problem with the IP configuration of a profile.
pub open spec fn ip_problem(config: IpConfigView, expect_v4: bool) -> Option<Problem> {
    if config.method != IpMethod::Manual {
        None
    } else {
        match (config.address, config.prefix_length) {
            (None, _) => Some(Problem::ManualAddressRequired),
            (Some(address), prefix) => if (address is V4) != expect_v4 {
                Some(Problem::AddressFamilyMismatch)
            } else {
                match prefix {
                    None => Some(Problem::ManualPrefixRequired),
                    Some(length) => if length > (if expect_v4 {
                        32int
                    } else {
                        128int
                    }) {
                        Some(Problem::PrefixOutOfRange(length))
                    } else {
                        None
                    },
                }
            },
        }
    }
}

/// The first problem with a profile, in the order in which they are reported.
pub open spec fn problem(profile: ProfileView) -> Option<Problem> {
    let transport = match profile.connection_type {
        ConnectionTypeView::Wifi(settings) => wifi_problem(settings),
        ConnectionTypeView::Ethernet(settings) => if settings.speed_mbit == Some(0u32) {
            Some(Problem::InvalidSpeed)
        } else {
            None
        },
    };
    if profile.id.len() == 0 {
        Some(Problem::EmptyId)
    } else if !id_chars_ok(profile.id) {
        Some(Problem::InvalidIdChars)
    } else if profile.name.len() == 0 {
        Some(Problem::EmptyName)
    } else if transport is Some {
        transport
    } else if ip_problem(profile.ipv4, true) is Some {
        ip_problem(profile.ipv4, true)
    } else {
        ip_problem(profile.ipv6, false)
    }
}

/// Whether a profile has no problem.
pub open spec fn valid(profile: ProfileView) -> bool {
    problem(profile) is None
}

/// The problem that an error reports.
pub open spec fn reported_problem(error: ProfileValidationError) -> Problem {
    match error {
        ProfileValidationError::EmptyId => Problem::EmptyId,
        ProfileValidationError::InvalidIdChars(_) => Problem::InvalidIdChars,
        ProfileValidationError::EmptyName => Problem::EmptyName,
        ProfileValidationError::EmptySsid => Problem::EmptySsid,
        ProfileValidationError::SsidTooLong(_) => Problem::SsidTooLong,
        ProfileValidationError::MissingSecret => Problem::MissingSecret,
        ProfileValidationError::SecretNotAllowed => Problem::SecretNotAllowed,
        ProfileValidationError::MissingIdentity => Problem::MissingIdentity,
        ProfileValidationError::InvalidSpeed => Problem::InvalidSpeed,
        ProfileValidationError::ManualAddressRequired => Problem::ManualAddressRequired,
        ProfileValidationError::ManualPrefixRequired => Problem::ManualPrefixRequired,
        ProfileValidationError::PrefixOutOfRange(prefix) => Problem::PrefixOutOfRange(prefix),
        ProfileValidationError::AddressFamilyMismatch => Problem::AddressFamilyMismatch,
    }
}

/// Whether an error is the one that validating a profile reports.
pub open spec fn is_validation_error(profile: ProfileView, error: ProfileValidationError) -> bool {
    &&& problem(profile) == Some(reported_problem(error))
    &&& error matches ProfileValidationError::InvalidIdChars(id) ==> id@ == profile.id
    &&& error matches ProfileValidationError::SsidTooLong(len) ==> (
        profile.connection_type matches ConnectionTypeView::Wifi(settings) && len
            == settings.ssid.len())
}

/// The kind of device that a profile applies to.
pub open spec fn kind_of(profile: ProfileView) -> DeviceKind {
    match profile.connection_type {
        ConnectionTypeView::Wifi(_) => DeviceKind::Wifi,
        ConnectionTypeView::Ethernet(_) => DeviceKind::Ethernet,
    }
}

/// Whether a profile can be applied to a device: its kind is that of the
/// connection type, and the name and address constraints are met.
pub open spec fn applies(profile: ProfileView, device: DeviceInfoView) -> bool {
    &&& kind_of(profile) == device.kind
    &&& profile.device_match.interface_name is Some ==> profile.device_match.interface_name->0
        == device.interface_name
    &&& profile.device_match.mac_address is Some ==> device.mac_address
        == profile.device_match.mac_address
}

/// The Wi-Fi profile that only says what to connect to.
pub open spec fn plain_wifi(
    id: Seq<char>,
    name: Seq<char>,
    ssid: Seq<u8>,
    security: WifiSecurityView,
) -> ProfileView {
    ProfileView {
        id,
        name,
        connection_type: ConnectionTypeView::Wifi(
            WifiSettingsView { ssid, bssid: None, hidden: false, security },
        ),
        device_match: DeviceMatchView { interface_name: None, mac_address: None },
        priority: 0,
        autoconnect: true,
        enabled: true,
        ipv4: IpConfigView::automatic(),
        ipv6: IpConfigView::automatic(),
    }
}

/// The Ethernet profile that constrains nothing.
pub open spec fn plain_ethernet(id: Seq<char>, name: Seq<char>) -> ProfileView {
    ProfileView {
        id,
        name,
        connection_type: ConnectionTypeView::Ethernet(EthernetSettings::none()),
        device_match: DeviceMatchView { interface_name: None, mac_address: None },
        priority: 0,
        autoconnect: true,
        enabled: true,
        ipv4: IpConfigView::automatic(),
        ipv6: IpConfigView::automatic(),
    }
}

fn check_id(id: &str) -> (r: bool)
    ensures
        r == id_chars_ok(id@),
{
    let chars: Vec<char> = chars_of(id);
    let mut i: usize = 0;
    while i < chars.len()
        invariant
            i <= chars@.len(),
            chars@ == id@,
            forall|j: int| 0 <= j < i ==> is_id_char(#[trigger] chars@[j]),
        decreases chars@.len() - i,
    {
        let c: char = chars[i];
        let ok: bool = ('0' <= c && c <= '9') || ('a' <= c && c <= 'z') || ('A' <= c && c <= 'Z')
            || c == '-' || c == '_';
        if !ok {
            assert(!is_id_char(chars@[i as int]));
            return false;
        }
        i = i + 1;
    }
    true
}

impl ConnectionProfile {
    /// Builds a Wi-Fi profile. The profile is fully validated on construction.
    pub fn wifi(id: &str, name: &str, ssid: Ssid, security: WifiSecurity) -> (r: Result<
        Self,
        ProfileValidationError,
    >)
        ensures
            match r {
                Ok(profile) => profile@ == plain_wifi(id@, name@, ssid@, security@) && valid(
                    profile@,
                ),
                Err(e) => is_validation_error(plain_wifi(id@, name@, ssid@, security@), e),
            },
    {
        let profile = ConnectionProfile {
            id: id.to_owned(),
            name: name.to_owned(),
            connection_type: ConnectionType::Wifi(
                WifiSettings { ssid, bssid: None, hidden: false, security },
            ),
            device_match: DeviceMatch::default(),
            priority: 0,
            autoconnect: true,
            enabled: true,
            ipv4: IpConfig::default(),
            ipv6: IpConfig::default(),
        };
        assert(profile@ =~= plain_wifi(id@, name@, ssid@, security@));
        match profile.validate() {
            Ok(()) => Ok(profile),
            Err(err) => Err(err),
        }
    }

    /// Builds an Ethernet profile. The profile is fully validated on construction.
    pub fn ethernet(id: &str, name: &str) -> (r: Result<Self, ProfileValidationError>)
        ensures
            match r {
                Ok(profile) => profile@ == plain_ethernet(id@, name@) && valid(profile@),
                Err(e) => is_validation_error(plain_ethernet(id@, name@), e),
            },
    {
        let profile = ConnectionProfile {
            id: id.to_owned(),
            name: name.to_owned(),
            connection_type: ConnectionType::Ethernet(EthernetSettings::default()),
            device_match: DeviceMatch::default(),
            priority: 0,
            autoconnect: true,
            enabled: true,
            ipv4: IpConfig::default(),
            ipv6: IpConfig::default(),
        };
        assert(profile@ =~= plain_ethernet(id@, name@));
        match profile.validate() {
            Ok(()) => Ok(profile),
            Err(err) => Err(err),
        }
    }

    /// The kind of device this profile applies to.
    pub fn device_kind(&self) -> (r: DeviceKind)
        ensures
            r == kind_of(self@),
    {
        match &self.connection_type {
            ConnectionType::Wifi(_) => DeviceKind::Wifi,
            ConnectionType::Ethernet(_) => DeviceKind::Ethernet,
        }
    }

    /// Decides deterministically whether this profile can be applied to `device`.
    pub fn matches(&self, device: &DeviceInfo) -> (r: bool)
        ensures
            r == applies(self@, device@),
    {
        if self.device_kind() != device.kind {
            return false;
        }
        if let Some(expected) = &self.device_match.interface_name {
            if !same_text(expected.as_str(), device.interface_name.as_str()) {
                return false;
            }
        }
        if let Some(expected) = &self.device_match.mac_address {
            match &device.mac_address {
                Some(actual) => {
                    if !expected.same(actual) {
                        return false;
                    }
                },
                None => {
                    return false;
                },
            }
        }
        true
    }

    /// Validates the profile and reports the first problem found.
    pub fn validate(&self) -> (r: Result<(), ProfileValidationError>)
        ensures
            match r {
                Ok(()) => valid(self@),
                Err(e) => is_validation_error(self@, e),
            },
    {
        if self.id.as_str().is_empty() {
            return Err(ProfileValidationError::EmptyId);
        }
        if !check_id(self.id.as_str()) {
            return Err(ProfileValidationError::InvalidIdChars(self.id.clone()));
        }
        if self.name.as_str().is_empty() {
            return Err(ProfileValidationError::EmptyName);
        }
        match &self.connection_type {
            ConnectionType::Wifi(settings) => {
                let len: usize = settings.ssid.as_bytes().len();
                if len == 0 {
                    return Err(ProfileValidationError::EmptySsid);
                }
                if len > 32 {
                    return Err(ProfileValidationError::SsidTooLong(len));
                }
                match settings.security.key_management {
                    KeyManagement::WpaPsk | KeyManagement::Sae => {
                        if settings.security.secret.is_none() {
                            return Err(ProfileValidationError::MissingSecret);
                        }
                    },
                    KeyManagement::WpaEap => {
                        let has_identity: bool = match &settings.security.identity {
                            Some(identity) => !identity.as_str().is_empty(),
                            None => false,
                        };
                        if !has_identity {
                            return Err(ProfileValidationError::MissingIdentity);
                        }
                    },
                    KeyManagement::Open | KeyManagement::Owe => {
                        if settings.security.secret.is_some() {
                            return Err(ProfileValidationError::SecretNotAllowed);
                        }
                    },
                }
            },
            ConnectionType::Ethernet(settings) => {
                if let Some(speed) = settings.speed_mbit {
                    if speed == 0 {
                        return Err(ProfileValidationError::InvalidSpeed);
                    }
                }
            },
        }
        match Self::validate_ip_config(&self.ipv4, true) {
            Ok(()) => {},
            Err(err) => {
                return Err(err);
            },
        }
        Self::validate_ip_config(&self.ipv6, false)
    }

    fn validate_ip_config(config: &IpConfig, expect_v4: bool) -> (r: Result<
        (),
        ProfileValidationError,
    >)
        ensures
            match r {
                Ok(()) => ip_problem(config@, expect_v4) is None,
                Err(e) => ip_problem(config@, expect_v4) == Some(reported_problem(e)) && !(
                e is InvalidIdChars) && !(e is SsidTooLong),
            },
    {
        if config.method != IpMethod::Manual {
            return Ok(());
        }
        let address: IpAddr = match config.address {
            Some(address) => address,
            None => {
                return Err(ProfileValidationError::ManualAddressRequired);
            },
        };
        if address.is_ipv4() != expect_v4 {
            return Err(ProfileValidationError::AddressFamilyMismatch);
        }
        let prefix: u8 = match config.prefix_length {
            Some(prefix) => prefix,
            None => {
                return Err(ProfileValidationError::ManualPrefixRequired);
            },
        };
        let max: u8 = if expect_v4 {
            32
        } else {
            128
        };
        if prefix > max {
            return Err(ProfileValidationError::PrefixOutOfRange(prefix));
        }
        Ok(())
    }
}

} // verus!
