//! Addresses and their texts.

use vstd::arithmetic::div_mod::lemma_div_denominator;
use vstd::arithmetic::power::{lemma_pow0, lemma_pow_positive, pow};
use vstd::prelude::*;

use crate::bytes;
use crate::linux::model;
use crate::net;
use crate::net::{IpAddr, Ipv4Addr, Ipv6Addr};
use crate::net_text;
use crate::text;

verus! {

/// Whether a character can stand in the text of an address.
pub open spec fn is_mark(c: char) -> bool {
    ('0' <= c && c <= '9') || ('a' <= c && c <= 'f') || c == '.' || c == ':'
}

/// Whether a text is made of characters that can stand in an address.
pub open spec fn plain(s: Seq<char>) -> bool {
    forall|i: int| 0 <= i < s.len() ==> is_mark(#[trigger] s[i])
}

proof fn lemma_plain_decimal(n: nat)
    ensures
        plain(text::decimal(n)),
{
    text::lemma_decimal_value(n);
    let s = text::decimal(n);
    assert forall|i: int| 0 <= i < s.len() implies is_mark(#[trigger] s[i]) by {
        assert(text::is_digit(s[i]));
    }
}

proof fn lemma_plain_hex(n: nat)
    ensures
        plain(text::hex(n)),
        text::hex(n).len() > 0,
    decreases n,
{
    if n >= 16 {
        lemma_plain_hex(n / 16);
    }
}

proof fn lemma_plain_join(pieces: Seq<Seq<char>>, c: char)
    requires
        is_mark(c),
        forall|i: int| 0 <= i < pieces.len() ==> plain(#[trigger] pieces[i]),
    ensures
        plain(text::join(pieces, c)),
    decreases pieces.len(),
{
    if pieces.len() == 1 {
        assert(plain(pieces[0]));
    } else if pieces.len() > 1 {
        let rest = pieces.skip(1);
        assert forall|i: int| 0 <= i < rest.len() implies plain(#[trigger] rest[i]) by {
            assert(rest[i] == pieces[i + 1]);
        }
        lemma_plain_join(rest, c);
        assert(plain(pieces[0]));
        let whole = text::join(pieces, c);
        let first = pieces[0].push(c);
        assert(whole =~= first + text::join(rest, c));
        assert forall|i: int| 0 <= i < whole.len() implies is_mark(#[trigger] whole[i]) by {
            if i < pieces[0].len() {
                assert(whole[i] == pieces[0][i]);
            } else if i > pieces[0].len() {
                assert(whole[i] == text::join(rest, c)[i - first.len()]);
            }
        }
    }
}

proof fn lemma_plain_groups(g: Seq<u16>)
    ensures
        plain(net_text::colon_text(g)),
{
    let pieces = net_text::group_texts(g);
    assert forall|i: int| 0 <= i < pieces.len() implies plain(#[trigger] pieces[i]) by {
        lemma_plain_hex(g[i] as nat);
    }
    lemma_plain_join(pieces, ':');
}

proof fn lemma_plain_v4(a: Ipv4Addr)
    ensures
        plain(a.text()),
{
    let pieces = net::octet_texts(a.octets_view());
    assert forall|i: int| 0 <= i < pieces.len() implies plain(#[trigger] pieces[i]) by {
        lemma_plain_decimal(a.octets_view()[i] as nat);
    }
    lemma_plain_join(pieces, '.');
}

/// The text of an address holds digits, dots and colons, and nothing else.
pub proof fn lemma_address_text_is_plain(a: IpAddr)
    ensures
        plain(a.text()),
        a.text().len() > 0,
{
    match a {
        IpAddr::V4(v4) => {
            lemma_plain_v4(v4);
            net::lemma_v4_pieces(v4);
        },
        IpAddr::V6(v6) => {
            let g = v6.groups_view();
            let s = v6.text();
            net::lemma_bounds();
            net::lemma_groups(v6.bits as nat, 8);
            if net_text::is_mapped(g) {
                let low = Ipv4Addr { bits: (v6.bits % 0x1_0000_0000) as u32 };
                lemma_plain_v4(low);
                let head = seq![':', ':', 'f', 'f', 'f', 'f', ':'];
                assert(s == head + low.text());
                assert forall|i: int| 0 <= i < s.len() implies is_mark(#[trigger] s[i]) by {
                    if i >= head.len() {
                        assert(s[i] == low.text()[i - head.len()]);
                    } else {
                        assert(s[i] == head[i]);
                    }
                }
            } else {
                let start = net_text::longest_zeros(g, 8);
                let count = net_text::zeros_at(g, start);
                lemma_plain_groups(g);
                lemma_plain_groups(g.take(start));
                lemma_plain_groups(g.skip(start + count));
                if count > 1 {
                    let head = net_text::colon_text(g.take(start)) + seq![':', ':'];
                    assert(s == head + net_text::colon_text(g.skip(start + count)));
                    assert forall|i: int| 0 <= i < s.len() implies is_mark(#[trigger] s[i]) by {
                        if i >= head.len() {
                            assert(s[i] == net_text::colon_text(g.skip(start + count))[i
                                - head.len()]);
                        } else if i < net_text::colon_text(g.take(start)).len() {
                            assert(s[i] == net_text::colon_text(g.take(start))[i]);
                        } else {
                            assert(s[i] == ':');
                        }
                    }
                } else {
                    lemma_plain_hex(g[0] as nat);
                    let pieces = net_text::group_texts(g);
                    assert(pieces[0] == text::hex(g[0] as nat));
                    assert(s == text::join(pieces, ':'));
                    assert(s.len() >= pieces[0].len());
                }
            }
        },
    }
}

proof fn lemma_v4_octets(a: Ipv4Addr)
    ensures
        a.octets_view().len() == 4,
        a.octets_view()[0] == a.bits / 0x100_0000,
        a.octets_view()[1] == a.bits / 0x1_0000 % 0x100,
        a.octets_view()[2] == a.bits / 0x100 % 0x100,
        a.octets_view()[3] == a.bits % 0x100,
{
    let n = a.bits as int;
    let high = n / 65536;
    let low = n % 65536;
    assert(high / 256 == n / 0x100_0000);
    assert(low / 256 == n / 0x100 % 0x100);
    assert(low % 256 == n % 0x100);
}

proof fn lemma_octet_shown(octets: Seq<u8>, i: int)
    requires
        0 <= i < octets.len(),
    ensures
        text::decimal_value(net::octet_texts(octets)[i]) == octets[i],
        text::all_digits(net::octet_texts(octets)[i]),
{
    text::lemma_decimal_value(octets[i] as nat);
}

/// An IPv4 address is written as its four octets in decimal, the most significant
/// first, with a dot between them.
pub proof fn lemma_v4_text_shows_octets(a: Ipv4Addr)
    ensures
        text::split(a.text(), '.').len() == 4,
        text::decimal_value(text::split(a.text(), '.')[0]) == a.bits / 0x100_0000,
        text::decimal_value(text::split(a.text(), '.')[1]) == a.bits / 0x1_0000 % 0x100,
        text::decimal_value(text::split(a.text(), '.')[2]) == a.bits / 0x100 % 0x100,
        text::decimal_value(text::split(a.text(), '.')[3]) == a.bits % 0x100,
        forall|i: int| 0 <= i < 4 ==> text::all_digits(#[trigger] text::split(a.text(), '.')[i]),
{
    net::lemma_v4_pieces(a);
    lemma_v4_octets(a);
    let o = a.octets_view();
    lemma_octet_shown(o, 0);
    lemma_octet_shown(o, 1);
    lemma_octet_shown(o, 2);
    lemma_octet_shown(o, 3);
}

/// On the bus an IPv4 address is the number whose least significant octet is the
/// first octet of the address.
pub proof fn lemma_scalar_begins_with_first_octet(a: Ipv4Addr, n: u32)
    ensures
        a.scalar() == a.bits / 0x100_0000 + 0x100 * (a.bits / 0x1_0000 % 0x100) + 0x1_0000 * (a.bits
            / 0x100 % 0x100) + 0x100_0000 * (a.bits % 0x100),
        Ipv4Addr::of_scalar(n).scalar() == n,
        Ipv4Addr::of_scalar(a.scalar()) == a,
{
    lemma_v4_octets(a);
    net::lemma_scalar(a, n);
}

proof fn lemma_octet_at(n: nat, k: nat, i: nat)
    requires
        i < k,
    ensures
        net::octets(n, k).len() == k,
        net::octets(n, k)[i as int] == n as int / pow(256, (k - 1 - i) as nat) % 256,
    decreases k,
{
    lemma_octets_count(n, k);
    lemma_octets_count(n / 256, (k - 1) as nat);
    if i == k - 1 {
        lemma_pow0(256);
    } else {
        lemma_octet_at(n / 256, (k - 1) as nat, i);
        let p = pow(256, (k - 2 - i) as nat);
        lemma_pow_positive(256, (k - 2 - i) as nat);
        reveal(pow);
        assert(pow(256, (k - 1 - i) as nat) == 256 * p);
        lemma_div_denominator(n as int, 256, p);
    }
}

proof fn lemma_octets_count(n: nat, k: nat)
    ensures
        net::octets(n, k).len() == k,
    decreases k,
{
    if k > 0 {
        lemma_octets_count(n / 256, (k - 1) as nat);
    }
}

/// The octets of an IPv6 address are its digits to the base 256, the most significant
/// first.
pub proof fn lemma_v6_octets_are_digits(a: Ipv6Addr, i: nat)
    requires
        i < 16,
    ensures
        a.octets_view().len() == 16,
        a.octets_view()[i as int] == a.bits as int / pow(256, (15 - i) as nat) % 256,
{
    lemma_octet_at(a.bits as nat, 16, i);
}

proof fn lemma_group_at(n: nat, k: nat, i: nat)
    requires
        i < k,
    ensures
        net::groups(n, k).len() == k,
        net::groups(n, k)[i as int] == n as int / pow(65536, (k - 1 - i) as nat) % 65536,
    decreases k,
{
    lemma_groups_count(n, k);
    lemma_groups_count(n / 65536, (k - 1) as nat);
    if i == k - 1 {
        lemma_pow0(65536);
    } else {
        lemma_group_at(n / 65536, (k - 1) as nat, i);
        let p = pow(65536, (k - 2 - i) as nat);
        lemma_pow_positive(65536, (k - 2 - i) as nat);
        reveal(pow);
        assert(pow(65536, (k - 1 - i) as nat) == 65536 * p);
        lemma_div_denominator(n as int, 65536, p);
    }
}

proof fn lemma_groups_count(n: nat, k: nat)
    ensures
        net::groups(n, k).len() == k,
    decreases k,
{
    if k > 0 {
        lemma_groups_count(n / 65536, (k - 1) as nat);
    }
}

/// An IPv6 address without groups of zeros is written as its eight groups in
/// hexadecimal, the most significant first, with a colon between them.
pub proof fn lemma_v6_text_shows_groups(a: Ipv6Addr, i: nat)
    requires
        i < 8,
        forall|j: nat|
            j < 8 ==> #[trigger] (a.bits as int / pow(65536, (7 - j) as nat)) % 65536 != 0,
    ensures
        text::split(a.text(), ':').len() == 8,
        net_text::hex_number(text::split(a.text(), ':')[i as int]) == a.bits as int / pow(
            65536,
            (7 - i) as nat,
        ) % 65536,
{
    let g = a.groups_view();
    assert forall|j: nat| j < 8 implies #[trigger] g[j as int] != 0 by {
        lemma_group_at(a.bits as nat, 8, j);
        assert((a.bits as int / pow(65536, (7 - j) as nat)) % 65536 != 0);
    }
    lemma_group_at(a.bits as nat, 8, i);
    assert(g[0nat as int] != 0);
    assert(!net_text::is_mapped(g));
    assert forall|k: int| 0 <= k < 8 implies net_text::zeros_at(g, k) == 0 by {
        assert(g[(k as nat) as int] != 0);
    }
    lemma_no_run(g, 8);
    let pieces = net_text::group_texts(g);
    net_text::lemma_group_texts_plain(g);
    assert(a.text() == text::join(pieces, ':'));
    assert forall|j: int| 0 <= j < pieces.len() implies !(#[trigger] pieces[j]).contains(':') by {}
    text::lemma_split_join(pieces, ':');
    net_text::lemma_hex_number(g[i as int] as nat);
}

proof fn lemma_no_run(g: Seq<u16>, k: nat)
    requires
        g.len() == 8,
        k <= 8,
        forall|i: int| 0 <= i < 8 ==> net_text::zeros_at(g, i) == 0,
    ensures
        net_text::longest_zeros(g, k) == 0,
    decreases k,
{
    if k > 1 {
        lemma_no_run(g, (k - 1) as nat);
        assert(net_text::zeros_at(g, k - 1) == 0);
    }
}

/// A hardware address is written as its octets, two hexadecimal digits each and with
/// colons between them.
pub proof fn lemma_mac_text_shows_octets(mac: Seq<u8>, i: int)
    requires
        mac.len() == 6,
        0 <= i < 6,
    ensures
        text::split(model::mac_text(mac), ':').len() == 6,
        ({
            let piece = text::split(model::mac_text(mac), ':')[i];
            &&& piece.len() == 2
            &&& text::hex_digit_value(piece[0]) == Some((mac[i] / 16) as nat)
            &&& text::hex_digit_value(piece[1]) == Some((mac[i] % 16) as nat)
        }),
{
    model::lemma_mac_text(mac);
    let pieces = text::split(model::mac_text(mac), ':');
    assert(model::hex_octet(pieces[i]) == Some(mac[i]));
    lemma_digit_small(pieces[i][0]);
    lemma_digit_small(pieces[i][1]);
}

proof fn lemma_digit_small(c: char)
    ensures
        text::hex_digit_value(c) matches Some(d) ==> d < 16,
{
}

/// The hexadecimal digits stand for the numbers up to fifteen, in either case.
pub proof fn lemma_hex_digits(d: nat)
    requires
        d < 16,
    ensures
        d < 10 ==> text::hex_digit_value(('0' as nat + d) as char) == Some(d),
        d >= 10 ==> text::hex_digit_value(('a' as nat + d - 10) as char) == Some(d),
        d >= 10 ==> text::hex_digit_value(('A' as nat + d - 10) as char) == Some(d),
{
}

/// Trimming a text takes the white space at its ends away, and nothing else.
pub proof fn lemma_trimming(s: Seq<char>)
    ensures
        exists|i: int, j: int|
            {
                &&& 0 <= i <= j <= s.len()
                &&& text::trimmed(s) == #[trigger] s.subrange(i, j)
                &&& forall|k: int| 0 <= k < i || j <= k < s.len() ==> text::is_white(#[trigger] s[k])
                &&& i < j ==> !text::is_white(s[i]) && !text::is_white(s[j - 1])
            },
{
    lemma_trim_left(s);
    let i = choose|i: int|
        0 <= i <= s.len() && text::trim_left(s) == #[trigger] s.skip(i) && (forall|k: int|
            0 <= k < i ==> text::is_white(#[trigger] s[k])) && (i < s.len() ==> !text::is_white(
            s[i],
        ));
    let rest = s.skip(i);
    lemma_trim_right(rest);
    let n = choose|n: int|
        0 <= n <= rest.len() && text::trim_right(rest) == #[trigger] rest.take(n) && (forall|k: int|
            n <= k < rest.len() ==> text::is_white(#[trigger] rest[k])) && (n > 0
            ==> !text::is_white(rest[n - 1]));
    assert(rest.take(n) =~= s.subrange(i, i + n));
    assert forall|k: int| 0 <= k < i || i + n <= k < s.len() implies text::is_white(
        #[trigger] s[k],
    ) by {
        if k >= i + n {
            assert(rest[k - i] == s[k]);
        }
    }
    assert(text::trimmed(s) == s.subrange(i, i + n));
    if n > 0 {
        assert(rest[n - 1] == s[i + n - 1]);
    }
}

proof fn lemma_trim_left(s: Seq<char>)
    ensures
        exists|i: int|
            0 <= i <= s.len() && text::trim_left(s) == #[trigger] s.skip(i) && (forall|k: int|
                0 <= k < i ==> text::is_white(#[trigger] s[k])) && (i < s.len()
                ==> !text::is_white(s[i])),
    decreases s.len(),
{
    if s.len() > 0 && text::is_white(s[0]) {
        let more = s.skip(1);
        lemma_trim_left(more);
        let i = choose|i: int|
            0 <= i <= more.len() && text::trim_left(more) == #[trigger] more.skip(i) && (forall|
                k: int,
            |
                0 <= k < i ==> text::is_white(#[trigger] more[k])) && (i < more.len()
                ==> !text::is_white(more[i]));
        assert(more.skip(i) =~= s.skip(i + 1));
        assert forall|k: int| 0 <= k < i + 1 implies text::is_white(#[trigger] s[k]) by {
            if k > 0 {
                assert(more[k - 1] == s[k]);
            }
        }
    } else {
        assert(s.skip(0) =~= s);
    }
}

proof fn lemma_trim_right(s: Seq<char>)
    ensures
        exists|n: int|
            0 <= n <= s.len() && text::trim_right(s) == #[trigger] s.take(n) && (forall|k: int|
                n <= k < s.len() ==> text::is_white(#[trigger] s[k])) && (n > 0 ==> !text::is_white(
                s[n - 1],
            )),
    decreases s.len(),
{
    if s.len() > 0 && text::is_white(s.last()) {
        let most = s.drop_last();
        lemma_trim_right(most);
        let n = choose|n: int|
            0 <= n <= most.len() && text::trim_right(most) == #[trigger] most.take(n) && (forall|
                k: int,
            |
                n <= k < most.len() ==> text::is_white(#[trigger] most[k])) && (n > 0
                ==> !text::is_white(most[n - 1]));
        assert(most.take(n) =~= s.take(n));
        assert forall|k: int| n <= k < s.len() implies text::is_white(#[trigger] s[k]) by {
            if k < s.len() - 1 {
                assert(most[k] == s[k]);
            }
        }
    } else {
        assert(s.take(s.len() as int) =~= s);
    }
}

/// A link-local address begins with the octet fe, and the next has its two highest bits
/// as the number two.
pub proof fn lemma_link_local_addresses(a: Ipv6Addr)
    ensures
        a.link_local() <==> a.octets_view()[0] == 0xfe && a.octets_view()[1] / 64 == 2,
{
    lemma_v6_octets_are_digits(a, 0);
    lemma_v6_octets_are_digits(a, 1);
    let n = a.bits as int;
    let high = n / 0x1_0000_0000_0000_0000_0000_0000_0000;
    reveal(pow);
    reveal_with_fuel(pow, 16);
    assert(pow(256, 14) == 0x1_0000_0000_0000_0000_0000_0000_0000);
    assert(pow(256, 15) == 0x100_0000_0000_0000_0000_0000_0000_0000);
    assert(n / 0x100_0000_0000_0000_0000_0000_0000_0000 == high / 256);
    assert(n / 0x40_0000_0000_0000_0000_0000_0000_0000 == high / 64);
    assert(0 <= high < 65536);
}

/// A number is written in decimal with its digits in order: the last is its remainder
/// by ten, and those before it are the number of its tens.
pub proof fn lemma_decimal_digits(n: nat)
    ensures
        text::decimal(n).len() > 0,
        text::decimal(n).last() as nat == '0' as nat + n % 10,
        n >= 10 ==> text::decimal(n).drop_last() == text::decimal(n / 10),
        n < 10 ==> text::decimal(n).len() == 1,
{
    if n >= 10 {
        assert(text::decimal(n).drop_last() =~= text::decimal(n / 10));
    }
}

/// A negative number is written as the positive one behind a minus sign.
pub proof fn lemma_signed_decimal(n: nat)
    ensures
        text::signed_decimal(n as int) == text::decimal(n),
        n > 0 ==> text::signed_decimal(-n) == seq!['-'] + text::decimal(n),
{
}

/// Numbers of the kernel stand in the order of the host.
pub proof fn lemma_host_order(s: Seq<u8>, k: int)
    requires
        0 <= k,
        k + 4 <= s.len(),
    ensures
        vstd::endian::endianness() == vstd::endian::Endian::Little ==> bytes::ne16(s, k) == s[k]
            + 256 * s[k + 1] && bytes::ne32(s, k) == s[k] + 256 * s[k + 1] + 65536 * s[k + 2]
            + 16777216 * s[k + 3],
        vstd::endian::endianness() == vstd::endian::Endian::Big ==> bytes::ne16(s, k) == 256 * s[k]
            + s[k + 1] && bytes::ne32(s, k) == 16777216 * s[k] + 65536 * s[k + 1] + 256 * s[k + 2]
            + s[k + 3],
{
}

/// The name of a network is displayed octet by octet: a printable one as its character,
/// and any other one, and the backslash, as a backslash, an x and its two digits.
pub proof fn lemma_names_are_displayed(octets: Seq<u8>, octet: u8)
    ensures
        model::escaped(Seq::empty()).len() == 0,
        0x20 <= octet <= 0x7e && octet != 0x5c ==> model::escaped(octets.push(octet))
            == model::escaped(octets).push(octet as char),
        !(0x20 <= octet <= 0x7e && octet != 0x5c) ==> ({
            let shown = model::escaped(octets.push(octet));
            let n = model::escaped(octets).len() as int;
            &&& shown.len() == n + 4
            &&& shown.take(n) == model::escaped(octets)
            &&& shown[n] == '\\'
            &&& shown[n + 1] == 'x'
            &&& text::hex_digit_value(shown[n + 2]) == Some((octet / 16) as nat)
            &&& text::hex_digit_value(shown[n + 3]) == Some((octet % 16) as nat)
        }),
{
    let all = octets.push(octet);
    assert(all.drop_last() =~= octets);
    reveal_strlit("\\x");
    reveal_with_fuel(text::fixed_hex, 3);
    text::lemma_hex_digit((octet / 16) as nat);
    text::lemma_hex_digit((octet % 16) as nat);
    let n = model::escaped(octets).len() as int;
    if 0x20 <= octet <= 0x7e && octet != 0x5c {
        assert(model::escaped(all) =~= model::escaped(octets).push(octet as char));
    } else {
        let digits = text::fixed_hex(octet as nat, 2);
        assert(digits.len() == 2);
        let shown = model::escaped(all);
        assert(shown.take(n) =~= model::escaped(octets));
        assert(shown[n + 2] == digits[0] && shown[n + 3] == digits[1]);
        assert(octet as nat / 16 % 16 == octet as nat / 16);
    }
}

} // verus!
