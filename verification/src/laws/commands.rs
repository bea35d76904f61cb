//! The command line.

use vstd::prelude::*;

use crate::command;
use crate::command::CommandView;
use crate::connection::profile::ProfileView;
use crate::laws::dns;
use crate::linux::model;
use crate::linux::model::{
    AccessPointView, Address, AddressEventKind, LinkEventKind, LinkView, NetworkEventView,
    SecurityView,
};
use crate::text;

verus! {

/// The words of the command line and the commands that they stand for.
pub proof fn lemma_words_and_commands(words: Seq<Seq<char>>)
    ensures
        words.len() == 0 ==> command::command_of(words) == Ok::<CommandView, Seq<char>>(
            CommandView::Links,
        ),
        words.len() > 0 ==> {
            let word = words[0];
            let result = command::command_of(words);
            &&& word == "links"@ ==> result == Ok::<CommandView, Seq<char>>(CommandView::Links)
            &&& word == "addresses"@ ==> result == Ok::<CommandView, Seq<char>>(
                CommandView::Addresses,
            )
            &&& word == "wifi"@ ==> result == Ok::<CommandView, Seq<char>>(
                if words.len() > 1 && words[1] == "scan"@ {
                    CommandView::WifiScan
                } else {
                    CommandView::Wifi
                },
            )
            &&& word == "connections"@ ==> result == Ok::<CommandView, Seq<char>>(
                CommandView::Connections,
            )
            &&& word == "monitor"@ ==> result == Ok::<CommandView, Seq<char>>(CommandView::Monitor)
            &&& word == "connect"@ ==> if words.len() >= 3 {
                result == Ok::<CommandView, Seq<char>>(
                    CommandView::Connect { profile: words[1], interface: words[2] },
                )
            } else {
                result is Err
            }
            &&& word == "disconnect"@ ==> if words.len() >= 2 {
                result == Ok::<CommandView, Seq<char>>(
                    CommandView::Disconnect { interface: words[1] },
                )
            } else {
                result is Err
            }
            &&& word == "--help"@ || word == "-h"@ ==> result == Ok::<CommandView, Seq<char>>(
                CommandView::Help,
            )
            &&& word != "links"@ && word != "addresses"@ && word != "wifi"@ && word
                != "connections"@ && word != "monitor"@ && word != "connect"@ && word
                != "disconnect"@ && word != "--help"@ && word != "-h"@ ==> result == Err::<
                CommandView,
                Seq<char>,
            >("unknown command '"@ + word + "'"@)
        },
{
    reveal_strlit("links");
    reveal_strlit("addresses");
    reveal_strlit("wifi");
    reveal_strlit("connections");
    reveal_strlit("monitor");
    reveal_strlit("connect");
    reveal_strlit("disconnect");
    reveal_strlit("--help");
    reveal_strlit("-h");
    assert("links"@.len() == 5 && "addresses"@.len() == 9 && "wifi"@.len() == 4);
    assert("connections"@.len() == 11 && "disconnect"@.len() == 10 && "--help"@.len() == 6
        && "-h"@.len() == 2);
    assert("monitor"@[0] == 'm' && "connect"@[0] == 'c' && "monitor"@.len() == 7
        && "connect"@.len() == 7);
}

/// A word for a truth value.
pub open spec fn yes(value: bool) -> Seq<char> {
    if value {
        "true"@
    } else {
        "false"@
    }
}

/// A link is listed as its index, its name, its flags in hexadecimal, and whether it is
/// up and whether it is the loopback, with tabs between them.
pub proof fn lemma_line_of_a_link(link: LinkView)
    ensures
        command::link_words(link) == text::join(
            seq![
                text::signed_decimal(link.index as int),
                link.name,
                "flags=0x"@ + text::hex(link.flags.0 as nat),
                "up="@ + yes(link.flags.0 % 2 == 1),
                "loopback="@ + yes(link.flags.0 / 8 % 2 == 1),
            ],
            '\t',
        ),
{
    reveal_strlit("\t");
    reveal_strlit("\tflags=0x");
    reveal_strlit("\tup=");
    reveal_strlit("\tloopback=");
    reveal_strlit("flags=0x");
    reveal_strlit("up=");
    reveal_strlit("loopback=");
    let t = seq!['\t'];
    assert("\t"@ =~= t);
    assert("\tflags=0x"@ =~= t + "flags=0x"@);
    assert("\tup="@ =~= t + "up="@);
    assert("\tloopback="@ =~= t + "loopback="@);
    let index = text::signed_decimal(link.index as int);
    let flags = "flags=0x"@ + text::hex(link.flags.0 as nat);
    let up = "up="@ + yes(link.flags.0 % 2 == 1);
    let loopback = "loopback="@ + yes(link.flags.0 / 8 % 2 == 1);
    let a = seq![index];
    let b = a.push(link.name);
    let c = b.push(flags);
    let d = c.push(up);
    dns::lemma_join_push(a, link.name, '\t');
    dns::lemma_join_push(b, flags, '\t');
    dns::lemma_join_push(c, up, '\t');
    dns::lemma_join_push(d, loopback, '\t');
    assert(d.push(loopback) =~= seq![index, link.name, flags, up, loopback]);
    assert(command::link_words(link) =~= index + t + link.name + t + flags + t + up + t
        + loopback);
}

/// An address is listed as the index of its interface and as address and prefix length.
pub proof fn lemma_line_of_an_address(address: Address)
    ensures
        command::address_words(address) == text::join(
            seq![
                "ifindex="@ + text::decimal(address.interface_index as nat),
                "address="@ + address.address.text() + "/"@ + text::decimal(
                    address.prefix_length as nat,
                ),
            ],
            '\t',
        ),
{
    reveal_strlit("\taddress=");
    reveal_strlit("address=");
    let t = seq!['\t'];
    assert("\taddress="@ =~= t + "address="@);
    let index = "ifindex="@ + text::decimal(address.interface_index as nat);
    let shown = "address="@ + address.address.text() + "/"@ + text::decimal(
        address.prefix_length as nat,
    );
    dns::lemma_join_push(seq![index], shown, '\t');
    assert(seq![index].push(shown) =~= seq![index, shown]);
    assert(command::address_words(address) =~= index + t + shown);
}

/// An access point is listed with its address and its name, or that there is none, its
/// frequency and its signal, and whether it has each kind of security.
pub proof fn lemma_line_of_an_access_point(point: AccessPointView)
    ensures
        command::access_point_words(point) == text::join(
            seq![
                match point.bssid {
                    Some(mac) => model::mac_text(mac),
                    None => "none"@,
                },
                if point.ssid is Some && point.ssid->0.len() > 0 {
                    model::escaped(point.ssid->0)
                } else {
                    "(hidden)"@
                },
                "frequency="@ + match point.frequency {
                    Some(mhz) => text::decimal(mhz as nat),
                    None => "none"@,
                },
                "signal="@ + match point.signal_dbm {
                    Some(dbm) => text::signed_decimal(dbm as int),
                    None => "none"@,
                },
                "wep"@ + "="@ + yes(point.security.wep),
                "wpa1"@ + "="@ + yes(point.security.wpa1),
                "wpa2"@ + "="@ + yes(point.security.wpa2),
                "wpa3"@ + "="@ + yes(point.security.wpa3),
                "enterprise"@ + "="@ + yes(point.security.enterprise),
            ],
            '\t',
        ),
{
    let mac = command::mac_words(point.bssid);
    let ssid = command::ssid_words(point.ssid);
    let frequency = command::frequency_words(point.frequency);
    let signal = command::signal_words(point.signal_dbm);
    let wep = "wep"@ + "="@ + yes(point.security.wep);
    let wpa1 = "wpa1"@ + "="@ + yes(point.security.wpa1);
    let wpa2 = "wpa2"@ + "="@ + yes(point.security.wpa2);
    let wpa3 = "wpa3"@ + "="@ + yes(point.security.wpa3);
    let enterprise = "enterprise"@ + "="@ + yes(point.security.enterprise);
    let t = seq!['\t'];
    lemma_security_words(point.security);
    lemma_reading_words(mac, ssid, frequency, signal);
    lemma_nine(
        mac,
        ssid,
        "frequency="@ + frequency,
        "signal="@ + signal,
        wep,
        wpa1,
        wpa2,
        wpa3,
        enterprise,
    );
    let head = mac + t + ssid + t + ("frequency="@ + frequency) + t + ("signal="@ + signal);
    lemma_behind(head, wep, wpa1, wpa2, wpa3, enterprise);
    assert(command::access_point_words(point) == head + command::security_words(point.security));
    assert(seq![
        match point.bssid {
            Some(mac) => model::mac_text(mac),
            None => "none"@,
        },
        if point.ssid is Some && point.ssid->0.len() > 0 {
            model::escaped(point.ssid->0)
        } else {
            "(hidden)"@
        },
        "frequency="@ + match point.frequency {
            Some(mhz) => text::decimal(mhz as nat),
            None => "none"@,
        },
        "signal="@ + match point.signal_dbm {
            Some(dbm) => text::signed_decimal(dbm as int),
            None => "none"@,
        },
        wep,
        wpa1,
        wpa2,
        wpa3,
        enterprise,
    ] =~= seq![
        mac,
        ssid,
        "frequency="@ + frequency,
        "signal="@ + signal,
        wep,
        wpa1,
        wpa2,
        wpa3,
        enterprise,
    ]);
}

proof fn lemma_behind(
    head: Seq<char>,
    a: Seq<char>,
    b: Seq<char>,
    c: Seq<char>,
    d: Seq<char>,
    e: Seq<char>,
)
    ensures
        head + (seq!['\t'] + a + seq!['\t'] + b + seq!['\t'] + c + seq!['\t'] + d + seq!['\t'] + e)
            == head + seq!['\t'] + a + seq!['\t'] + b + seq!['\t'] + c + seq!['\t'] + d + seq![
            '\t',
        ] + e,
{
    assert(head + (seq!['\t'] + a + seq!['\t'] + b + seq!['\t'] + c + seq!['\t'] + d + seq!['\t']
        + e) =~= head + seq!['\t'] + a + seq!['\t'] + b + seq!['\t'] + c + seq!['\t'] + d + seq![
        '\t',
    ] + e);
}

proof fn lemma_reading_words(
    mac: Seq<char>,
    ssid: Seq<char>,
    frequency: Seq<char>,
    signal: Seq<char>,
)
    ensures
        mac + "\t"@ + ssid + "\tfrequency="@ + frequency + "\tsignal="@ + signal == mac + seq!['\t']
            + ssid + seq!['\t'] + ("frequency="@ + frequency) + seq!['\t'] + ("signal="@ + signal),
{
    reveal_strlit("\t");
    reveal_strlit("\tfrequency=");
    reveal_strlit("\tsignal=");
    reveal_strlit("frequency=");
    reveal_strlit("signal=");
    let t = seq!['\t'];
    assert("\t"@ =~= t);
    assert("\tfrequency="@ =~= t + "frequency="@);
    assert("\tsignal="@ =~= t + "signal="@);
    assert(mac + "\t"@ + ssid + "\tfrequency="@ + frequency + "\tsignal="@ + signal =~= mac + t
        + ssid + t + ("frequency="@ + frequency) + t + ("signal="@ + signal));
}

proof fn lemma_property_words(name: Seq<char>, value: bool)
    ensures
        command::property_words(name, value) == seq!['\t'] + (name + "="@ + yes(value)),
{
    reveal_strlit("\t");
    assert("\t"@ =~= seq!['\t']);
    assert(command::property_words(name, value) =~= seq!['\t'] + (name + "="@ + yes(value)));
}

proof fn lemma_security_words(security: SecurityView)
    ensures
        command::security_words(security) == seq!['\t'] + ("wep"@ + "="@ + yes(security.wep)) + seq![
            '\t',
        ] + ("wpa1"@ + "="@ + yes(security.wpa1)) + seq!['\t'] + ("wpa2"@ + "="@ + yes(
            security.wpa2,
        )) + seq!['\t'] + ("wpa3"@ + "="@ + yes(security.wpa3)) + seq!['\t'] + ("enterprise"@ + "="@
            + yes(security.enterprise)),
{
    lemma_property_words("wep"@, security.wep);
    lemma_property_words("wpa1"@, security.wpa1);
    lemma_property_words("wpa2"@, security.wpa2);
    lemma_property_words("wpa3"@, security.wpa3);
    lemma_property_words("enterprise"@, security.enterprise);
    lemma_five(
        "wep"@ + "="@ + yes(security.wep),
        "wpa1"@ + "="@ + yes(security.wpa1),
        "wpa2"@ + "="@ + yes(security.wpa2),
        "wpa3"@ + "="@ + yes(security.wpa3),
        "enterprise"@ + "="@ + yes(security.enterprise),
    );
}

proof fn lemma_five(a: Seq<char>, b: Seq<char>, c: Seq<char>, d: Seq<char>, e: Seq<char>)
    ensures
        (seq!['\t'] + a) + (seq!['\t'] + b) + (seq!['\t'] + c) + (seq!['\t'] + d) + (seq!['\t'] + e)
            == seq!['\t'] + a + seq!['\t'] + b + seq!['\t'] + c + seq!['\t'] + d + seq!['\t'] + e,
{
    assert((seq!['\t'] + a) + (seq!['\t'] + b) + (seq!['\t'] + c) + (seq!['\t'] + d) + (seq!['\t']
        + e) =~= seq!['\t'] + a + seq!['\t'] + b + seq!['\t'] + c + seq!['\t'] + d + seq!['\t'] + e);
}

proof fn lemma_nine(
    mac: Seq<char>,
    ssid: Seq<char>,
    frequency: Seq<char>,
    signal: Seq<char>,
    wep: Seq<char>,
    wpa1: Seq<char>,
    wpa2: Seq<char>,
    wpa3: Seq<char>,
    enterprise: Seq<char>,
)
    ensures
        text::join(
            seq![mac, ssid, frequency, signal, wep, wpa1, wpa2, wpa3, enterprise],
            '\t',
        ) == mac + seq!['\t'] + ssid + seq!['\t'] + frequency + seq!['\t'] + signal + seq!['\t']
            + wep + seq!['\t'] + wpa1 + seq!['\t'] + wpa2 + seq!['\t'] + wpa3 + seq!['\t']
            + enterprise,
{
    let a = seq![mac];
    let b = a.push(ssid);
    let c = b.push(frequency);
    let d = c.push(signal);
    let e = d.push(wep);
    let f = e.push(wpa1);
    let g = f.push(wpa2);
    let h = g.push(wpa3);
    dns::lemma_join_push(a, ssid, '\t');
    dns::lemma_join_push(b, frequency, '\t');
    dns::lemma_join_push(c, signal, '\t');
    dns::lemma_join_push(d, wep, '\t');
    dns::lemma_join_push(e, wpa1, '\t');
    dns::lemma_join_push(f, wpa2, '\t');
    dns::lemma_join_push(g, wpa3, '\t');
    dns::lemma_join_push(h, enterprise, '\t');
    assert(h.push(enterprise) =~= seq![
        mac,
        ssid,
        frequency,
        signal,
        wep,
        wpa1,
        wpa2,
        wpa3,
        enterprise,
    ]);
}

/// A profile is listed as its id, its name, its kind, its priority, and whether it
/// connects by itself and is enabled.
pub proof fn lemma_line_of_a_profile(profile: ProfileView)
    ensures
        command::profile_words(profile) == text::join(
            seq![
                profile.id,
                profile.name,
                "type="@ + if profile.connection_type is Wifi {
                    "wifi"@
                } else {
                    "ethernet"@
                },
                "priority="@ + text::signed_decimal(profile.priority as int),
                "autoconnect="@ + yes(profile.autoconnect),
                "enabled="@ + yes(profile.enabled),
            ],
            '\t',
        ),
{
    reveal_strlit("\t");
    reveal_strlit("\ttype=");
    reveal_strlit("\tpriority=");
    reveal_strlit("\tautoconnect=");
    reveal_strlit("\tenabled=");
    reveal_strlit("type=");
    reveal_strlit("priority=");
    reveal_strlit("autoconnect=");
    reveal_strlit("enabled=");
    let t = seq!['\t'];
    assert("\t"@ =~= t);
    assert("\ttype="@ =~= t + "type="@);
    assert("\tpriority="@ =~= t + "priority="@);
    assert("\tautoconnect="@ =~= t + "autoconnect="@);
    assert("\tenabled="@ =~= t + "enabled="@);
    let kind = "type="@ + command::transport_word(profile.connection_type);
    let priority = "priority="@ + text::signed_decimal(profile.priority as int);
    let autoconnect = "autoconnect="@ + yes(profile.autoconnect);
    let enabled = "enabled="@ + yes(profile.enabled);
    let a = seq![profile.id];
    let b = a.push(profile.name);
    let c = b.push(kind);
    let d = c.push(priority);
    let e = d.push(autoconnect);
    dns::lemma_join_push(a, profile.name, '\t');
    dns::lemma_join_push(b, kind, '\t');
    dns::lemma_join_push(c, priority, '\t');
    dns::lemma_join_push(d, autoconnect, '\t');
    dns::lemma_join_push(e, enabled, '\t');
    assert(e.push(enabled) =~= seq![
        profile.id,
        profile.name,
        kind,
        priority,
        autoconnect,
        enabled,
    ]);
    assert(command::profile_words(profile) =~= profile.id + t + profile.name + t + kind + t
        + priority + t + autoconnect + t + enabled);
}

/// A change of a link or of an address is told by what happened and to what; nothing
/// else is told.
pub proof fn lemma_line_of_an_event(event: NetworkEventView)
    ensures
        match event {
            NetworkEventView::Link(kind, link) => command::event_words(event) matches Some(line)
                && {
                let action = match kind {
                    LinkEventKind::Created => "link-created"@,
                    LinkEventKind::Removed => "link-removed"@,
                    LinkEventKind::Changed => "link-changed"@,
                };
                &&& text::starts_with(line, action)
                &&& line.skip(action.len() as int) == "\tindex="@ + text::signed_decimal(
                    link.index as int,
                ) + "\tname="@ + link.name + command::flags_words(link.flags)
            },
            NetworkEventView::Address(event_of_address) => command::event_words(
                event,
            ) matches Some(line) && {
                let action = match event_of_address.kind {
                    AddressEventKind::Added => "address-added"@,
                    AddressEventKind::Removed => "address-removed"@,
                };
                &&& text::starts_with(line, action)
                &&& line.skip(action.len() as int) == "\t"@ + command::address_words(
                    event_of_address.address,
                )
            },
            _ => command::event_words(event) is None,
        },
{
    match event {
        NetworkEventView::Link(kind, link) => {
            let action = command::link_action(kind);
            let line = command::event_words(event)->0;
            assert(line.take(action.len() as int) =~= action);
            assert(line.skip(action.len() as int) =~= "\tindex="@ + text::signed_decimal(
                link.index as int,
            ) + "\tname="@ + link.name + command::flags_words(link.flags));
        },
        NetworkEventView::Address(told) => {
            let action = command::address_action(told.kind);
            let line = command::event_words(event)->0;
            assert(line.take(action.len() as int) =~= action);
            assert(line.skip(action.len() as int) =~= "\t"@ + command::address_words(told.address));
        },
        _ => {},
    }
}

} // verus!
