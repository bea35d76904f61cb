//! What the command line asks for, and the lines that answer it.

use vstd::prelude::*;

use crate::connection::profile::{ConnectionProfile, ConnectionTypeView, ProfileView};
use crate::linux::model;
use crate::linux::model::{
    format_mac_address, AccessPoint, AccessPointSecurity, AccessPointView, Address,
    AddressEventKind, Link, LinkEventKind, LinkFlags, LinkView, NetworkEvent, NetworkEventView,
    SecurityView, WirelessInterface, WirelessInterfaceView,
};
use crate::text;
use crate::text::{concat3, decimal_text, hex_text, same_text, signed_text};

verus! {

/// How the program is used.
pub const USAGE: &'static str = "Usage: nmd [links|addresses|wifi [scan]|connections|monitor|connect <profile> <interface>|disconnect <interface>]\n\nlinks       List kernel network links via rtnetlink (read-only)\naddresses   List kernel interface addresses via rtnetlink (read-only)\nwifi        List wireless interfaces via nl80211 (read-only)\nwifi scan   Scan for access points via nl80211\nconnections List stored connection profiles\nmonitor     Monitor link and address events via rtnetlink multicast (read-only)\nconnect     Activate a profile on an interface, and hold the connection\ndisconnect  Deactivate the connection of an interface";

/// What the command line asks for.
#[derive(Debug, PartialEq, Eq)]
pub enum Command {
    /// List the links of the host.
    Links,
    /// List the addresses of the host.
    Addresses,
    /// List the wireless interfaces of the host.
    Wifi,
    /// Scan for access points and list them.
    WifiScan,
    /// List the stored profiles.
    Connections,
    /// Tell events as they come.
    Monitor,
    /// Activate a profile on an interface.
    Connect { profile: String, interface: String },
    /// Deactivate the connection of an interface.
    Disconnect { interface: String },
    /// Tell how the program is used.
    Help,
}

/// A command, with its operands as sequences.
#[verifier::ext_equal]
pub enum CommandView {
    Links,
    Addresses,
    Wifi,
    WifiScan,
    Connections,
    Monitor,
    Connect { profile: Seq<char>, interface: Seq<char> },
    Disconnect { interface: Seq<char> },
    Help,
}

impl Command {
    pub open spec fn view(&self) -> CommandView {
        match self {
            Command::Links => CommandView::Links,
            Command::Addresses => CommandView::Addresses,
            Command::Wifi => CommandView::Wifi,
            Command::WifiScan => CommandView::WifiScan,
            Command::Connections => CommandView::Connections,
            Command::Monitor => CommandView::Monitor,
            Command::Connect { profile, interface } => CommandView::Connect {
                profile: profile@,
                interface: interface@,
            },
            Command::Disconnect { interface } => CommandView::Disconnect { interface: interface@ },
            Command::Help => CommandView::Help,
        }
    }
}

/// The complaint that an operand is missing.
pub open spec fn missing(command: Seq<char>, operand: Seq<char>) -> Seq<char> {
    command + ": missing operand <"@ + operand + ">"@
}

/// The command that words stand for, or the complaint about them. Without a word
/// the links are listed. A first word that is no command is unknown, and words
/// that a command does not take are ignored.
pub open spec fn command_of(words: Seq<Seq<char>>) -> Result<CommandView, Seq<char>> {
    if words.len() == 0 || words[0] == "links"@ {
        Ok(CommandView::Links)
    } else if words[0] == "addresses"@ {
        Ok(CommandView::Addresses)
    } else if words[0] == "wifi"@ {
        if words.len() > 1 && words[1] == "scan"@ {
            Ok(CommandView::WifiScan)
        } else {
            Ok(CommandView::Wifi)
        }
    } else if words[0] == "connections"@ {
        Ok(CommandView::Connections)
    } else if words[0] == "monitor"@ {
        Ok(CommandView::Monitor)
    } else if words[0] == "connect"@ {
        if words.len() < 2 {
            Err(missing("connect"@, "profile"@))
        } else if words.len() < 3 {
            Err(missing("connect"@, "interface"@))
        } else {
            Ok(CommandView::Connect { profile: words[1], interface: words[2] })
        }
    } else if words[0] == "disconnect"@ {
        if words.len() < 2 {
            Err(missing("disconnect"@, "interface"@))
        } else {
            Ok(CommandView::Disconnect { interface: words[1] })
        }
    } else if words[0] == "--help"@ || words[0] == "-h"@ {
        Ok(CommandView::Help)
    } else {
        Err("unknown command '"@ + words[0] + "'"@)
    }
}

fn missing_operand(command: &str, operand: &str) -> (r: String)
    ensures
        r@ == missing(command@, operand@),
{
    let mut text: String = command.to_owned();
    text.append(": missing operand <");
    text.append(operand);
    text.append(">");
    text
}

/// Reads the arguments of the program.
pub fn parse_command(arguments: &[String]) -> (r: Result<Command, String>)
    ensures
        match command_of(text::string_views(arguments@)) {
            Ok(command) => r matches Ok(found) && found@ == command,
            Err(complaint) => r matches Err(e) && e@ == complaint,
        },
{
    let ghost words = text::string_views(arguments@);
    if arguments.len() == 0 {
        return Ok(Command::Links);
    }
    assert(words[0] == arguments@[0]@);
    let word: &str = arguments[0].as_str();
    if same_text(word, "links") {
        Ok(Command::Links)
    } else if same_text(word, "addresses") {
        Ok(Command::Addresses)
    } else if same_text(word, "wifi") {
        if arguments.len() > 1 {
            assert(words[1] == arguments@[1]@);
            if same_text(arguments[1].as_str(), "scan") {
                return Ok(Command::WifiScan);
            }
        }
        Ok(Command::Wifi)
    } else if same_text(word, "connections") {
        Ok(Command::Connections)
    } else if same_text(word, "monitor") {
        Ok(Command::Monitor)
    } else if same_text(word, "connect") {
        if arguments.len() < 2 {
            return Err(missing_operand("connect", "profile"));
        }
        if arguments.len() < 3 {
            return Err(missing_operand("connect", "interface"));
        }
        assert(words[1] == arguments@[1]@ && words[2] == arguments@[2]@);
        Ok(Command::Connect { profile: arguments[1].clone(), interface: arguments[2].clone() })
    } else if same_text(word, "disconnect") {
        if arguments.len() < 2 {
            return Err(missing_operand("disconnect", "interface"));
        }
        assert(words[1] == arguments@[1]@);
        Ok(Command::Disconnect { interface: arguments[1].clone() })
    } else if same_text(word, "--help") || same_text(word, "-h") {
        Ok(Command::Help)
    } else {
        Err(concat3("unknown command '", word, "'"))
    }
}

/// A truth value, as it is written.
pub open spec fn truth_word(value: bool) -> Seq<char> {
    if value {
        "true"@
    } else {
        "false"@
    }
}

/// The flags of a link, as they are written.
pub open spec fn flags_words(flags: LinkFlags) -> Seq<char> {
    "\tflags=0x"@ + text::hex(flags.0 as nat) + "\tup="@ + truth_word(flags.up()) + "\tloopback="@
        + truth_word(flags.loopback())
}

fn push_truth(line: &mut String, value: bool)
    ensures
        final(line)@ == old(line)@ + truth_word(value),
{
    if value {
        line.append("true");
    } else {
        line.append("false");
    }
}

fn push_flags(line: &mut String, flags: LinkFlags)
    ensures
        final(line)@ == old(line)@ + flags_words(flags),
{
    let ghost before = line@;
    line.append("\tflags=0x");
    line.append(hex_text(flags.bits() as u64).as_str());
    line.append("\tup=");
    push_truth(line, flags.is_up());
    line.append("\tloopback=");
    push_truth(line, flags.is_loopback());
    assert(line@ =~= before + flags_words(flags));
}

/// The line that lists a link.
pub open spec fn link_words(link: LinkView) -> Seq<char> {
    text::signed_decimal(link.index as int) + "\t"@ + link.name + flags_words(link.flags)
}

/// Writes the line that lists a link.
pub fn link_line(link: &Link) -> (r: String)
    ensures
        r@ == link_words(link@),
{
    let mut line: String = signed_text(link.index);
    line.append("\t");
    line.append(link.name.as_str());
    push_flags(&mut line, link.flags);
    line
}

/// The words about an address.
pub open spec fn address_words(address: Address) -> Seq<char> {
    "ifindex="@ + text::decimal(address.interface_index as nat) + "\taddress="@
        + address.address.text() + "/"@ + text::decimal(address.prefix_length as nat)
}

/// Writes the line that lists an address.
pub fn address_line(address: &Address) -> (r: String)
    ensures
        r@ == address_words(*address),
{
    let mut line: String = "ifindex=".to_owned();
    line.append(decimal_text(address.interface_index as u64).as_str());
    line.append("\taddress=");
    line.append(address.address.to_string().as_str());
    line.append("/");
    line.append(decimal_text(address.prefix_length as u64).as_str());
    line
}

fn push_mac(line: &mut String, mac: &Option<[u8; 6]>)
    ensures
        final(line)@ == old(line)@ + mac_words(model::mac_view(*mac)),
{
    match mac {
        Some(mac) => {
            line.append(format_mac_address(mac).as_str());
        },
        None => {
            line.append("none");
        },
    }
}

/// A hardware address, or that there is none.
pub open spec fn mac_words(mac: Option<Seq<u8>>) -> Seq<char> {
    match mac {
        Some(mac) => model::mac_text(mac),
        None => "none"@,
    }
}

/// The line that lists a wireless interface.
pub open spec fn wifi_words(interface: WirelessInterfaceView) -> Seq<char> {
    text::signed_decimal(interface.index as int) + "\t"@ + interface.name + "\ttype="@
        + interface.interface_type.text() + "\tup="@ + truth_word(interface.up) + "\tmac="@
        + mac_words(interface.mac)
}

/// Writes the line that lists a wireless interface.
pub fn wifi_line(interface: &WirelessInterface) -> (r: String)
    ensures
        r@ == wifi_words(interface@),
{
    let mut line: String = signed_text(interface.index);
    line.append("\t");
    line.append(interface.name.as_str());
    line.append("\ttype=");
    line.append(interface.interface_type.to_string().as_str());
    line.append("\tup=");
    push_truth(&mut line, interface.up);
    line.append("\tmac=");
    push_mac(&mut line, &interface.mac);
    line
}

/// A network name as it is displayed; a network may hide it.
pub open spec fn ssid_words(ssid: Option<Seq<u8>>) -> Seq<char> {
    match ssid {
        Some(octets) if octets.len() > 0 => model::escaped(octets),
        _ => "(hidden)"@,
    }
}

/// A frequency in MHz, or that it is not known.
pub open spec fn frequency_words(frequency: Option<u32>) -> Seq<char> {
    match frequency {
        Some(frequency) => text::decimal(frequency as nat),
        None => "none"@,
    }
}

/// A signal strength in dBm, or that it is not known.
pub open spec fn signal_words(signal: Option<i32>) -> Seq<char> {
    match signal {
        Some(signal) => text::signed_decimal(signal as int),
        None => "none"@,
    }
}

/// A property that holds or not, as it is written.
pub open spec fn property_words(name: Seq<char>, value: bool) -> Seq<char> {
    "\t"@ + name + "="@ + truth_word(value)
}

/// The kinds of protection that an access point offers.
pub open spec fn security_words(security: SecurityView) -> Seq<char> {
    property_words("wep"@, security.wep) + property_words("wpa1"@, security.wpa1)
        + property_words("wpa2"@, security.wpa2) + property_words("wpa3"@, security.wpa3)
        + property_words("enterprise"@, security.enterprise)
}

/// The line that lists an access point.
pub open spec fn access_point_words(point: AccessPointView) -> Seq<char> {
    mac_words(point.bssid) + "\t"@ + ssid_words(point.ssid) + "\tfrequency="@ + frequency_words(
        point.frequency,
    ) + "\tsignal="@ + signal_words(point.signal_dbm) + security_words(point.security)
}

fn property_text(name: &str, value: bool) -> (r: String)
    ensures
        r@ == property_words(name@, value),
{
    let mut text: String = "\t".to_owned();
    text.append(name);
    text.append("=");
    push_truth(&mut text, value);
    text
}

fn security_text(security: &AccessPointSecurity) -> (r: String)
    ensures
        r@ == security_words(security@),
{
    let mut text: String = property_text("wep", security.wep);
    text.append(property_text("wpa1", security.wpa1).as_str());
    text.append(property_text("wpa2", security.wpa2).as_str());
    text.append(property_text("wpa3", security.wpa3).as_str());
    text.append(property_text("enterprise", security.enterprise).as_str());
    text
}

/// Writes the line that lists an access point.
pub fn access_point_line(point: &AccessPoint) -> (r: String)
    ensures
        r@ == access_point_words(point@),
{
    let mut line: String = match &point.bssid {
        Some(bssid) => format_mac_address(bssid.as_bytes()),
        None => "none".to_owned(),
    };
    assert(line@ == mac_words(point@.bssid));
    line.append("\t");
    let name: String = match &point.ssid {
        Some(ssid) => ssid.display_string(),
        None => "(hidden)".to_owned(),
    };
    assert(name@ == ssid_words(point@.ssid));
    line.append(name.as_str());
    line.append("\tfrequency=");
    let frequency: String = match point.frequency {
        Some(frequency) => decimal_text(frequency as u64),
        None => "none".to_owned(),
    };
    line.append(frequency.as_str());
    line.append("\tsignal=");
    let signal: String = match point.signal_dbm {
        Some(signal) => signed_text(signal),
        None => "none".to_owned(),
    };
    line.append(signal.as_str());
    line.append(security_text(&point.security).as_str());
    line
}

/// The kind of connection that a profile describes.
pub open spec fn transport_word(connection_type: ConnectionTypeView) -> Seq<char> {
    match connection_type {
        ConnectionTypeView::Wifi(_) => "wifi"@,
        ConnectionTypeView::Ethernet(_) => "ethernet"@,
    }
}

/// The line that lists a profile.
pub open spec fn profile_words(profile: ProfileView) -> Seq<char> {
    profile.id + "\t"@ + profile.name + "\ttype="@ + transport_word(profile.connection_type)
        + "\tpriority="@ + text::signed_decimal(profile.priority as int) + "\tautoconnect="@
        + truth_word(profile.autoconnect) + "\tenabled="@ + truth_word(profile.enabled)
}

/// Writes the line that lists a profile.
pub fn profile_line(profile: &ConnectionProfile) -> (r: String)
    ensures
        r@ == profile_words(profile@),
{
    let mut line: String = profile.id.clone();
    line.append("\t");
    line.append(profile.name.as_str());
    line.append("\ttype=");
    line.append(profile.connection_type.to_string().as_str());
    line.append("\tpriority=");
    line.append(signed_text(profile.priority).as_str());
    line.append("\tautoconnect=");
    push_truth(&mut line, profile.autoconnect);
    line.append("\tenabled=");
    push_truth(&mut line, profile.enabled);
    line
}

/// The word for what happened to a link.
pub open spec fn link_action(kind: LinkEventKind) -> Seq<char> {
    match kind {
        LinkEventKind::Created => "link-created"@,
        LinkEventKind::Removed => "link-removed"@,
        LinkEventKind::Changed => "link-changed"@,
    }
}

/// The word for what happened to an address.
pub open spec fn address_action(kind: AddressEventKind) -> Seq<char> {
    match kind {
        AddressEventKind::Added => "address-added"@,
        AddressEventKind::Removed => "address-removed"@,
    }
}

/// The line that tells an event. Only links and addresses are told.
pub open spec fn event_words(event: NetworkEventView) -> Option<Seq<char>> {
    match event {
        NetworkEventView::Link(kind, link) => Some(
            link_action(kind) + "\tindex="@ + text::signed_decimal(link.index as int) + "\tname="@
                + link.name + flags_words(link.flags),
        ),
        NetworkEventView::Address(event) => Some(
            address_action(event.kind) + "\t"@ + address_words(event.address),
        ),
        _ => None,
    }
}

/// Writes the line that tells an event.
pub fn event_line(event: &NetworkEvent) -> (r: Option<String>)
    ensures
        match r {
            Some(line) => event_words(event@) == Some(line@),
            None => event_words(event@) is None,
        },
{
    match event {
        NetworkEvent::Link(event) => {
            let action: &str = match event.kind {
                LinkEventKind::Created => "link-created",
                LinkEventKind::Removed => "link-removed",
                LinkEventKind::Changed => "link-changed",
            };
            let mut line: String = action.to_owned();
            line.append("\tindex=");
            line.append(signed_text(event.link.index).as_str());
            line.append("\tname=");
            line.append(event.link.name.as_str());
            push_flags(&mut line, event.link.flags);
            Some(line)
        },
        NetworkEvent::Address(event) => {
            let action: &str = match event.kind {
                AddressEventKind::Added => "address-added",
                AddressEventKind::Removed => "address-removed",
            };
            let line: String = concat3(action, "\t", address_line(&event.address).as_str());
            Some(line)
        },
        _ => None,
    }
}

// --- Laws ------------------------------------------------------------------------

/// The words that begin a command.
pub open spec fn command_words() -> Seq<Seq<char>> {
    seq![
        "links"@,
        "addresses"@,
        "wifi"@,
        "connections"@,
        "monitor"@,
        "connect"@,
        "disconnect"@,
        "--help"@,
        "-h"@,
    ]
}

/// Only a first word that begins no command is unknown: words that begin with a
/// command and go on with its operands stand for that command.
pub proof fn lemma_every_command_is_known(words: Seq<Seq<char>>)
    requires
        words.len() >= 3,
        command_words().contains(words[0]),
    ensures
        command_of(words) is Ok,
{
}

} // verus!
