//! Internet addresses: their octets, their text forms and network prefixes.

use vstd::arithmetic::power2::*;
use vstd::prelude::*;

use crate::bytes;
use crate::text;
use crate::text::{chars_of, decimal_text, split_text};

verus! {

/// An IPv4 address.
#[derive(Clone, Copy, Debug, PartialEq, Eq, PartialOrd, Ord, Hash, Structural)]
pub struct Ipv4Addr {
    /// The address as a number in network order.
    pub bits: u32,
}

/// An IPv6 address.
#[derive(Clone, Copy, Debug, PartialEq, Eq, PartialOrd, Ord, Hash, Structural)]
pub struct Ipv6Addr {
    /// The address as a number in network order.
    pub bits: u128,
}

/// An address of either family.
#[derive(Clone, Copy, Debug, PartialEq, Eq, PartialOrd, Ord, Hash, Structural)]
pub enum IpAddr {
    V4(Ipv4Addr),
    V6(Ipv6Addr),
}

// --- IPv4 ------------------------------------------------------------------

impl Ipv4Addr {
    /// The four octets of the address, in network order.
    pub open spec fn octets_view(self) -> Seq<u8> {
        bytes::be32_octets(self.bits as nat)
    }

    /// The address `a.b.c.d`.
    pub fn new(a: u8, b: u8, c: u8, d: u8) -> (r: Self)
        ensures
            r.octets_view() == seq![a, b, c, d],
            r.bits == 0x100_0000 * a + 0x1_0000 * b + 0x100 * c + d,
    {
        let bits: u32 = 0x100_0000 * (a as u32) + 0x1_0000 * (b as u32) + 0x100 * (c as u32) + (
        d as u32);
        let r = Ipv4Addr { bits };
        proof {
            let n = bits as nat;
            assert(n / 65536 == 256 * a + b);
            assert(n % 65536 == 256 * c + d);
            assert(r.octets_view() =~= seq![a, b, c, d]);
        }
        r
    }

    /// The address with the given octets, in network order.
    pub fn from_octets(octets: [u8; 4]) -> (r: Self)
        ensures
            r.octets_view() == octets@,
            r.bits == bytes::be32(octets@, 0),
    {
        let r = Ipv4Addr::new(octets[0], octets[1], octets[2], octets[3]);
        assert(r.octets_view() =~= octets@);
        r
    }

    /// The octets of the address, in network order.
    pub fn octets(&self) -> (r: [u8; 4])
        ensures
            r@ == self.octets_view(),
    {
        let high: u32 = self.bits / 65536;
        let low: u32 = self.bits % 65536;
        let r: [u8; 4] = [
            (high / 256) as u8,
            (high % 256) as u8,
            (low / 256) as u8,
            (low % 256) as u8,
        ];
        assert(r@ =~= self.octets_view());
        r
    }

    /// The octets of the address, in network order.
    pub fn octets_vec(&self) -> (r: Vec<u8>)
        ensures
            r@ == self.octets_view(),
    {
        let o: [u8; 4] = self.octets();
        let mut out: Vec<u8> = Vec::new();
        out.push(o[0]);
        out.push(o[1]);
        out.push(o[2]);
        out.push(o[3]);
        assert(out@ =~= self.octets_view());
        out
    }

    /// The address `0.0.0.0`.
    pub fn unspecified() -> (r: Self)
        ensures
            r.bits == 0,
    {
        Ipv4Addr { bits: 0 }
    }

    /// The limited broadcast address, `255.255.255.255`.
    pub fn limited_broadcast() -> (r: Self)
        ensures
            r.bits == 0xffff_ffff,
    {
        Ipv4Addr { bits: 0xffff_ffff }
    }

    /// Whether the address is `0.0.0.0`.
    pub fn is_unspecified(&self) -> (r: bool)
        ensures
            r == (self.bits == 0),
    {
        self.bits == 0
    }

    /// The address as the number whose octets are, least significant first, those
    /// of the address.
    pub open spec fn scalar(self) -> u32 {
        bytes::le32(self.octets_view(), 0) as u32
    }

    /// The address that a number stands for whose octets are, least significant
    /// first, those of the address.
    pub open spec fn of_scalar(n: u32) -> Self {
        Ipv4Addr { bits: bytes::be32(bytes::le32_octets(n as nat), 0) as u32 }
    }

    /// The address as the number whose octets are, least significant first, those
    /// of the address.
    pub fn to_scalar(&self) -> (r: u32)
        ensures
            r == self.scalar(),
    {
        let o: Vec<u8> = self.octets_vec();
        bytes::read_le32(o.as_slice(), 0)
    }

    /// The address that a number stands for whose octets are, least significant
    /// first, those of the address.
    pub fn from_scalar(n: u32) -> (r: Self)
        ensures
            r == Ipv4Addr::of_scalar(n),
    {
        let o: Vec<u8> = bytes::le32_vec(n);
        Ipv4Addr { bits: bytes::read_be32(o.as_slice(), 0) }
    }

    /// The address in dotted decimal.
    pub open spec fn text(self) -> Seq<char> {
        text::join(octet_texts(self.octets_view()), '.')
    }

    /// Writes the address in dotted decimal.
    pub fn to_string(&self) -> (r: String)
        ensures
            r@ == self.text(),
    {
        let o: [u8; 4] = self.octets();
        let mut out: String = decimal_text(o[0] as u64);
        out.push('.');
        out.append(decimal_text(o[1] as u64).as_str());
        out.push('.');
        out.append(decimal_text(o[2] as u64).as_str());
        out.push('.');
        out.append(decimal_text(o[3] as u64).as_str());
        proof {
            let p = octet_texts(self.octets_view());
            assert(p.skip(1).skip(1).skip(1) =~= seq![text::decimal(o[3] as nat)]);
            reveal_with_fuel(text::join, 4);
            assert(out@ =~= text::join(p, '.'));
        }
        out
    }

    /// Reads an address in dotted decimal.
    pub fn parse(text: &str) -> (r: Option<Self>)
        ensures
            match r {
                Some(a) => a.text() == text@,
                None => forall|a: Ipv4Addr| a.text() != text@,
            },
    {
        parse_v4(chars_of(text).as_slice())
    }
}

/// The decimal texts of octets.
pub open spec fn octet_texts(octets: Seq<u8>) -> Seq<Seq<char>> {
    octets.map_values(|b: u8| text::decimal(b as nat))
}

/// An octet's decimal text is one to three digits, without a leading zero
/// unless it is the digit zero.
proof fn lemma_octet_text(n: nat)
    requires
        n < 256,
    ensures
        1 <= text::decimal(n).len() <= 3,
        text::decimal(n).len() > 1 ==> text::decimal(n)[0] != '0',
        !text::decimal(n).contains('.'),
        !text::decimal(n).contains(':'),
{
    reveal_with_fuel(text::decimal, 3);
    text::lemma_decimal_value(n);
    let s = text::decimal(n);
    if n >= 100 {
        assert(s =~= seq![text::digit_char(n / 10 / 10), text::digit_char(n / 10 % 10), text::digit_char(n % 10)]);
    } else if n >= 10 {
        assert(s =~= seq![text::digit_char(n / 10), text::digit_char(n % 10)]);
    }
    assert forall|i: int| 0 <= i < s.len() implies s[i] != '.' && s[i] != ':' by {
        assert(text::is_digit(s[i]));
    }
}

/// A run of digits without a leading zero is the decimal text of its value.
proof fn lemma_canonical(s: Seq<char>)
    requires
        text::all_digits(s),
        s.len() > 1 ==> s[0] != '0',
    ensures
        text::decimal(text::decimal_value(s)) == s,
        s.len() > 1 ==> text::decimal_value(s) >= 10,
        s[0] != '0' ==> text::decimal_value(s) >= 1,
    decreases s.len(),
{
    assert(text::is_digit(s.last()));
    assert(text::is_digit(s[0]));
    if s.len() == 1 {
        assert(s.drop_last() =~= Seq::<char>::empty());
        assert(text::decimal_value(s.drop_last()) == 0);
        assert(text::decimal(text::decimal_value(s)) =~= s);
    } else {
        let head = s.drop_last();
        assert forall|i: int| 0 <= i < head.len() implies text::is_digit(#[trigger] head[i]) by {
            assert(head[i] == s[i]);
        }
        assert(head[0] == s[0]);
        lemma_canonical(head);
        assert(text::decimal(text::decimal_value(s)) =~= s);
    }
}

/// Reads the decimal text of an octet.
fn parse_octet(chars: &Vec<char>) -> (r: Option<u8>)
    ensures
        match r {
            Some(n) => text::decimal(n as nat) == chars@,
            None => forall|n: u8| #[trigger] text::decimal(n as nat) != chars@,
        },
{
    proof {
        assert forall|n: u8| text::decimal(n as nat) == chars@ implies text::all_digits(chars@)
            && text::decimal_value(chars@) <= 255 && 1 <= chars@.len() <= 3 && (chars@.len() > 1
            ==> chars@[0] != '0') by {
            lemma_octet_text(n as nat);
            text::lemma_decimal_value(n as nat);
        }
    }
    let count: usize = chars.len();
    if count == 0 || count > 3 {
        return None;
    }
    if count > 1 && chars[0] == '0' {
        return None;
    }
    let mut value: u32 = 0;
    let mut i: usize = 0;
    while i < count
        invariant
            i <= count <= 3,
            count == chars@.len(),
            forall|j: int| 0 <= j < i ==> text::is_digit(#[trigger] chars@[j]),
            value == text::decimal_value(chars@.take(i as int)),
            i == 0 ==> value == 0,
            i == 1 ==> value < 10,
            i == 2 ==> value < 100,
            i == 3 ==> value < 1000,
            forall|n: u8| text::decimal(n as nat) == chars@ ==> text::all_digits(chars@),
        decreases count - i,
    {
        let c: char = chars[i];
        if c < '0' || '9' < c {
            assert(!text::is_digit(chars@[i as int]));
            return None;
        }
        value = value * 10 + (c as u32 - 48);
        i = i + 1;
        assert(chars@.take(i as int).drop_last() =~= chars@.take(i - 1));
    }
    assert(chars@.take(i as int) =~= chars@);
    if value > 255 {
        return None;
    }
    proof {
        lemma_canonical(chars@);
    }
    Some(value as u8)
}

/// Reads an IPv4 address in dotted decimal.
pub fn parse_v4(chars: &[char]) -> (r: Option<Ipv4Addr>)
    ensures
        match r {
            Some(a) => a.text() == chars@,
            None => forall|a: Ipv4Addr| a.text() != chars@,
        },
{
    let pieces: Vec<Vec<char>> = split_text(chars, '.');
    let ghost texts = text::char_views(pieces@);
    proof {
        assert forall|a: Ipv4Addr| a.text() == chars@ implies texts == octet_texts(
            a.octets_view(),
        ) by {
            lemma_v4_pieces(a);
        }
    }
    if pieces.len() != 4 {
        proof {
            assert forall|a: Ipv4Addr| a.text() != chars@ by {
                if a.text() == chars@ {
                    assert(octet_texts(a.octets_view()).len() == 4);
                }
            }
        }
        return None;
    }
    let mut octets: [u8; 4] = [0; 4];
    let mut i: usize = 0;
    while i < 4
        invariant
            i <= 4,
            pieces@.len() == 4,
            texts == text::char_views(pieces@),
            forall|j: int| 0 <= j < i ==> #[trigger] texts[j] == text::decimal(octets@[j] as nat),
            forall|a: Ipv4Addr| a.text() == chars@ ==> texts == octet_texts(a.octets_view()),
        decreases 4 - i,
    {
        assert(texts[i as int] == pieces@[i as int]@);
        match parse_octet(&pieces[i]) {
            Some(n) => {
                octets[i] = n;
            },
            None => {
                proof {
                    assert forall|a: Ipv4Addr| a.text() != chars@ by {
                        if a.text() == chars@ {
                            let o = a.octets_view()[i as int];
                            assert(octet_texts(a.octets_view())[i as int] == text::decimal(o as nat));
                        }
                    }
                }
                return None;
            },
        }
        i = i + 1;
    }
    let r = Ipv4Addr::from_octets(octets);
    proof {
        assert(texts =~= octet_texts(r.octets_view()));
        lemma_join_split(chars@, '.');
    }
    Some(r)
}

/// The dotted pieces of an address's text are the texts of its octets.
pub proof fn lemma_v4_pieces(a: Ipv4Addr)
    ensures
        text::split(a.text(), '.') == octet_texts(a.octets_view()),
        !a.text().contains(':'),
        a.text().contains('.'),
{
    let p = octet_texts(a.octets_view());
    assert forall|i: int| 0 <= i < p.len() implies !(#[trigger] p[i]).contains('.') && !(p[i]).contains(':') by {
        lemma_octet_text(a.octets_view()[i] as nat);
    }
    text::lemma_split_join(p, '.');
    lemma_join_free(p, '.', ':');
    assert(p[0].push('.').last() == '.');
    let t = a.text();
    assert(t[p[0].len() as int] == '.');
}

/// Joining what was split gives the text back.
proof fn lemma_join_split(s: Seq<char>, c: char)
    ensures
        text::join(text::split(s, c), c) == s,
        text::split(s, c).len() > 0,
    decreases s.len(),
{
    text::lemma_cut(s, c);
    let k = text::cut(s, c);
    if k < s.len() {
        let rest = s.skip(k + 1);
        lemma_join_split(rest, c);
        let p = text::split(s, c);
        assert(p.skip(1) =~= text::split(rest, c));
        assert(s.take(k).push(c) + rest =~= s);
    }
}

/// Pieces joined by one character hold another one only if a piece does.
proof fn lemma_join_free(pieces: Seq<Seq<char>>, c: char, d: char)
    requires
        c != d,
        forall|i: int| 0 <= i < pieces.len() ==> !(#[trigger] pieces[i]).contains(d),
    ensures
        !text::join(pieces, c).contains(d),
    decreases pieces.len(),
{
    if pieces.len() == 1 {
        assert(!pieces[0].contains(d));
    } else if pieces.len() > 1 {
        let rest = pieces.skip(1);
        assert forall|i: int| 0 <= i < rest.len() implies !(#[trigger] rest[i]).contains(d) by {
            assert(rest[i] == pieces[i + 1]);
        }
        lemma_join_free(rest, c, d);
        let whole = text::join(pieces, c);
        let head = pieces[0].push(c);
        assert(!pieces[0].contains(d));
        assert forall|i: int| 0 <= i < whole.len() implies whole[i] != d by {
            if i < pieces[0].len() {
                assert(whole[i] == pieces[0][i]);
            } else if i >= head.len() {
                assert(whole[i] == text::join(rest, c)[i - head.len()]);
            }
        }
    }
}

/// Distinct IPv4 addresses have distinct texts.
pub proof fn lemma_v4_text_injective(a: Ipv4Addr, b: Ipv4Addr)
    requires
        a.text() == b.text(),
    ensures
        a == b,
{
    lemma_v4_pieces(a);
    lemma_v4_pieces(b);
    let x = a.octets_view();
    let y = b.octets_view();
    assert forall|i: int| 0 <= i < 4 implies x[i] == y[i] by {
        assert(octet_texts(x)[i] == text::decimal(x[i] as nat));
        assert(octet_texts(y)[i] == text::decimal(y[i] as nat));
        text::lemma_decimal_value(x[i] as nat);
        text::lemma_decimal_value(y[i] as nat);
    }
    bytes::lemma_be32(a.bits as nat);
    bytes::lemma_be32(b.bits as nat);
    assert(x =~= y);
}

// --- IPv6: groups and octets --------------------------------------------------

/// The last `k` 16-bit groups of a number, most significant first.
pub open spec fn groups(n: nat, k: nat) -> Seq<u16>
    decreases k,
{
    if k == 0 {
        Seq::empty()
    } else {
        groups(n / 65536, (k - 1) as nat).push((n % 65536) as u16)
    }
}

/// The number with the given 16-bit groups.
pub open spec fn groups_value(s: Seq<u16>) -> nat
    decreases s.len(),
{
    if s.len() == 0 {
        0
    } else {
        65536 * groups_value(s.drop_last()) + s.last() as nat
    }
}

/// The last `k` octets of a number, most significant first.
pub open spec fn octets(n: nat, k: nat) -> Seq<u8>
    decreases k,
{
    if k == 0 {
        Seq::empty()
    } else {
        octets(n / 256, (k - 1) as nat).push((n % 256) as u8)
    }
}

/// The number with the given octets.
pub open spec fn octets_value(s: Seq<u8>) -> nat
    decreases s.len(),
{
    if s.len() == 0 {
        0
    } else {
        256 * octets_value(s.drop_last()) + s.last() as nat
    }
}

/// The numbers that fit in `k` groups are those below this bound.
pub open spec fn group_bound(k: nat) -> nat
    decreases k,
{
    if k == 0 {
        1
    } else {
        65536 * group_bound((k - 1) as nat)
    }
}

/// The numbers that fit in `k` octets are those below this bound.
pub open spec fn octet_bound(k: nat) -> nat
    decreases k,
{
    if k == 0 {
        1
    } else {
        256 * octet_bound((k - 1) as nat)
    }
}

pub proof fn lemma_bounds()
    ensures
        group_bound(8) == 0x1_0000_0000_0000_0000_0000_0000_0000_0000,
        octet_bound(16) == 0x1_0000_0000_0000_0000_0000_0000_0000_0000,
{
    reveal_with_fuel(group_bound, 9);
    reveal_with_fuel(octet_bound, 17);
}

/// A number that fits in `k` groups is the value of those groups.
pub proof fn lemma_groups(n: nat, k: nat)
    requires
        n < group_bound(k),
    ensures
        groups(n, k).len() == k,
        groups_value(groups(n, k)) == n,
    decreases k,
{
    if k > 0 {
        lemma_groups(n / 65536, (k - 1) as nat);
        assert(groups(n, k).drop_last() =~= groups(n / 65536, (k - 1) as nat));
    }
}

/// Groups are the groups of their value.
pub proof fn lemma_groups_value(s: Seq<u16>)
    ensures
        groups_value(s) < group_bound(s.len()),
        groups(groups_value(s), s.len()) == s,
    decreases s.len(),
{
    if s.len() > 0 {
        lemma_groups_value(s.drop_last());
        assert(groups(groups_value(s), s.len()) =~= s);
    } else {
        assert(groups(groups_value(s), s.len()) =~= s);
    }
}

/// A number that fits in `k` octets is the value of those octets.
pub proof fn lemma_octets(n: nat, k: nat)
    requires
        n < octet_bound(k),
    ensures
        octets(n, k).len() == k,
        octets_value(octets(n, k)) == n,
    decreases k,
{
    if k > 0 {
        lemma_octets(n / 256, (k - 1) as nat);
        assert(octets(n, k).drop_last() =~= octets(n / 256, (k - 1) as nat));
    }
}

/// Octets are the octets of their value.
pub proof fn lemma_octets_value(s: Seq<u8>)
    ensures
        octets_value(s) < octet_bound(s.len()),
        octets(octets_value(s), s.len()) == s,
    decreases s.len(),
{
    if s.len() > 0 {
        lemma_octets_value(s.drop_last());
        assert(octets(octets_value(s), s.len()) =~= s);
    } else {
        assert(octets(octets_value(s), s.len()) =~= s);
    }
}

proof fn lemma_octet_bound_monotone(i: nat, j: nat)
    requires
        i <= j,
    ensures
        octet_bound(i) <= octet_bound(j),
        octet_bound(i) > 0,
    decreases j,
{
    if j == 0 {
    } else if i < j {
        lemma_octet_bound_monotone(i, (j - 1) as nat);
    } else {
        lemma_octet_bound_monotone((i - 1) as nat, (j - 1) as nat);
    }
}

pub proof fn lemma_group_bound_monotone(i: nat, j: nat)
    requires
        i <= j,
    ensures
        group_bound(i) <= group_bound(j),
        group_bound(i) > 0,
    decreases j,
{
    if j == 0 {
    } else if i < j {
        lemma_group_bound_monotone(i, (j - 1) as nat);
    } else {
        lemma_group_bound_monotone((i - 1) as nat, (j - 1) as nat);
    }
}

impl Ipv6Addr {
    /// The eight 16-bit groups of the address.
    pub open spec fn groups_view(self) -> Seq<u16> {
        groups(self.bits as nat, 8)
    }

    /// The sixteen octets of the address, in network order.
    pub open spec fn octets_view(self) -> Seq<u8> {
        octets(self.bits as nat, 16)
    }

    /// The address with the given octets, in network order.
    pub fn from_octets(bytes: [u8; 16]) -> (r: Self)
        ensures
            r.octets_view() == bytes@,
            r.bits == octets_value(bytes@),
    {
        let mut bits: u128 = 0;
        let mut i: usize = 0;
        assert(bytes@.take(0) =~= Seq::<u8>::empty());
        while i < 16
            invariant
                i <= 16,
                bits == octets_value(bytes@.take(i as int)),
            decreases 16 - i,
        {
            proof {
                lemma_octets_value(bytes@.take(i + 1));
                lemma_octet_bound_monotone((i + 1) as nat, 16);
                lemma_bounds();
                assert(bytes@.take(i + 1).drop_last() =~= bytes@.take(i as int));
            }
            bits = bits * 256 + bytes[i] as u128;
            i = i + 1;
        }
        proof {
            assert(bytes@.take(16) =~= bytes@);
            lemma_octets_value(bytes@);
        }
        Ipv6Addr { bits }
    }

    /// The octets of the address, in network order.
    pub fn octets(&self) -> (r: [u8; 16])
        ensures
            r@ == self.octets_view(),
    {
        let mut out: [u8; 16] = [0; 16];
        let mut rest: u128 = self.bits;
        let mut i: usize = 16;
        assert(octets(rest as nat, 16) + out@.skip(16) =~= octets(rest as nat, 16));
        while i > 0
            invariant
                i <= 16,
                octets(rest as nat, i as nat) + out@.skip(i as int) == octets(self.bits as nat, 16),
            decreases i,
        {
            let ghost before = out@;
            let ghost last = (rest % 256) as u8;
            let ghost shorter = octets((rest / 256) as nat, (i - 1) as nat);
            out[i - 1] = (rest % 256) as u8;
            proof {
                assert(octets(rest as nat, i as nat) == shorter.push(last));
                assert(out@.skip(i - 1) =~= seq![last] + before.skip(i as int));
                assert(shorter + out@.skip(i - 1) =~= shorter.push(last) + before.skip(i as int));
            }
            rest = rest / 256;
            i = i - 1;
        }
        assert(out@.skip(0) =~= out@);
        assert(octets(rest as nat, 0) + out@.skip(0) =~= out@);
        out
    }

    /// The octets of the address, in network order.
    pub fn octets_vec(&self) -> (r: Vec<u8>)
        ensures
            r@ == self.octets_view(),
    {
        let o: [u8; 16] = self.octets();
        let mut out: Vec<u8> = Vec::new();
        let mut i: usize = 0;
        while i < 16
            invariant
                i <= 16,
                out@ == o@.take(i as int),
            decreases 16 - i,
        {
            out.push(o[i]);
            i = i + 1;
            assert(o@.take(i as int) =~= o@.take(i - 1).push(o@[i - 1]));
        }
        assert(o@.take(16) =~= o@);
        out
    }

    /// The address `::`.
    pub fn unspecified() -> (r: Self)
        ensures
            r.bits == 0,
    {
        Ipv6Addr { bits: 0 }
    }

    /// The loopback address `::1`.
    pub fn localhost() -> (r: Self)
        ensures
            r.bits == 1,
    {
        Ipv6Addr { bits: 1 }
    }

    /// Whether the address is `::`.
    pub fn is_unspecified(&self) -> (r: bool)
        ensures
            r == (self.bits == 0),
    {
        self.bits == 0
    }

    /// Whether the address lies in `fe80::/10`.
    pub open spec fn link_local(self) -> bool {
        self.bits as nat / 0x40_0000_0000_0000_0000_0000_0000_0000 == 0x3fa
    }

    /// Whether the address lies in `fe80::/10`.
    pub fn is_unicast_link_local(&self) -> (r: bool)
        ensures
            r == self.link_local(),
    {
        self.bits / 0x40_0000_0000_0000_0000_0000_0000_0000 == 0x3fa
    }
}

// --- Network prefixes -------------------------------------------------------------

/// Two to the power `k`.
fn power_of_two(k: u32) -> (r: u128)
    requires
        k < 128,
    ensures
        r == pow2(k as nat),
        r > 0,
{
    let mut r: u128 = 1;
    let mut i: u32 = 0;
    proof {
        lemma2_to64();
    }
    while i < k
        invariant
            i <= k < 128,
            r == pow2(i as nat),
            r > 0,
        decreases k - i,
    {
        proof {
            lemma_pow2_unfold((i + 1) as nat);
            lemma_pow2_128((i + 1) as nat);
        }
        r = r * 2;
        i = i + 1;
    }
    r
}

proof fn lemma_pow2_128(k: nat)
    requires
        k < 128,
    ensures
        pow2(k) < 0x1_0000_0000_0000_0000_0000_0000_0000_0000,
{
    lemma2_to64();
    vstd::arithmetic::power2::lemma_pow2_adds(64, 64);
    lemma_pow2_strictly_increases(k, 128);
    assert(0x1_0000_0000_0000_0000 * 0x1_0000_0000_0000_0000
        == 0x1_0000_0000_0000_0000_0000_0000_0000_0000int) by (nonlinear_arith);
}

/// The number of host addresses behind a prefix of `prefix` out of `width` bits.
pub open spec fn host_count(width: nat, prefix: nat) -> nat {
    if prefix >= width {
        1
    } else {
        pow2((width - prefix) as nat)
    }
}

/// The first address of the network that `n` belongs to.
pub open spec fn network(n: nat, width: nat, prefix: nat) -> int {
    n - n % host_count(width, prefix)
}

/// The network address of an IPv4 address.
pub fn network_v4(address: Ipv4Addr, prefix: u8) -> (r: Ipv4Addr)
    ensures
        r.bits == network(address.bits as nat, 32, prefix as nat),
{
    if prefix >= 32 {
        return address;
    }
    let hosts: u128 = power_of_two(32 - prefix as u32);
    let bits: u128 = address.bits as u128;
    proof {
        lemma_network_fixed(bits as nat, hosts as nat);
    }
    Ipv4Addr { bits: (bits - bits % hosts) as u32 }
}

/// The network address of an IPv6 address.
pub fn network_v6(address: Ipv6Addr, prefix: u8) -> (r: Ipv6Addr)
    ensures
        r.bits == network(address.bits as nat, 128, prefix as nat),
{
    if prefix >= 128 {
        return address;
    }
    if prefix == 0 {
        proof {
            lemma_pow2_is_2_128();
            vstd::arithmetic::div_mod::lemma_small_mod(address.bits as nat, pow2(128));
        }
        return Ipv6Addr { bits: 0 };
    }
    let hosts: u128 = power_of_two(128 - prefix as u32);
    proof {
        lemma_network_fixed(address.bits as nat, hosts as nat);
    }
    Ipv6Addr { bits: address.bits - address.bits % hosts }
}

proof fn lemma_pow2_is_2_128()
    ensures
        pow2(128) == 0x1_0000_0000_0000_0000_0000_0000_0000_0000,
{
    lemma2_to64();
    vstd::arithmetic::power2::lemma_pow2_adds(64, 64);
    assert(0x1_0000_0000_0000_0000 * 0x1_0000_0000_0000_0000
        == 0x1_0000_0000_0000_0000_0000_0000_0000_0000int) by (nonlinear_arith);
}

/// The network address of an address of either family.
pub open spec fn network_of(address: IpAddr, prefix: nat) -> IpAddr {
    match address {
        IpAddr::V4(a) => IpAddr::V4(Ipv4Addr { bits: network(a.bits as nat, 32, prefix) as u32 }),
        IpAddr::V6(a) => IpAddr::V6(Ipv6Addr { bits: network(a.bits as nat, 128, prefix) as u128 }),
    }
}

/// Masks an address down to its network address for the given prefix.
pub fn network_address(address: IpAddr, prefix: u8) -> (r: IpAddr)
    ensures
        r == network_of(address, prefix as nat),
{
    match address {
        IpAddr::V4(a) => IpAddr::V4(network_v4(a, prefix)),
        IpAddr::V6(a) => IpAddr::V6(network_v6(a, prefix)),
    }
}

/// A network address is its own network address.
pub proof fn lemma_network_idempotent(address: IpAddr, prefix: nat)
    ensures
        network_of(network_of(address, prefix), prefix) == network_of(address, prefix),
{
    if prefix < 128 {
        vstd::arithmetic::power2::lemma_pow2_pos((128 - prefix) as nat);
    }
    if prefix < 32 {
        vstd::arithmetic::power2::lemma_pow2_pos((32 - prefix) as nat);
    }
    match address {
        IpAddr::V4(a) => {
            lemma_network_fixed(a.bits as nat, host_count(32, prefix));
        },
        IpAddr::V6(a) => {
            lemma_network_fixed(a.bits as nat, host_count(128, prefix));
        },
    }
}

proof fn lemma_network_fixed(n: nat, hosts: nat)
    requires
        hosts > 0,
    ensures
        0 <= n - n % hosts <= n,
        (n - n % hosts) % (hosts as int) == 0,
{
    vstd::arithmetic::div_mod::lemma_fundamental_div_mod(n as int, hosts as int);
    vstd::arithmetic::div_mod::lemma_mod_multiples_basic(n as int / hosts as int, hosts as int);
    vstd::arithmetic::mul::lemma_mul_is_commutative(n as int / hosts as int, hosts as int);
    vstd::arithmetic::div_mod::lemma_mod_bound(n as int, hosts as int);
    vstd::arithmetic::div_mod::lemma_mod_decreases(n, hosts);
}

/// The IPv4 subnet mask of a prefix length.
pub fn subnet_mask(prefix: u8) -> (r: Ipv4Addr)
    ensures
        r.bits == 0x1_0000_0000 - host_count(32, prefix as nat),
{
    proof {
        lemma2_to64();
    }
    if prefix >= 32 {
        return Ipv4Addr { bits: 0xffff_ffff };
    }
    let hosts: u128 = power_of_two(32 - prefix as u32);
    proof {
        lemma_pow2_32((32 - prefix) as nat);
    }
    Ipv4Addr { bits: (0x1_0000_0000 - hosts) as u32 }
}

proof fn lemma_pow2_32(k: nat)
    requires
        k <= 32,
    ensures
        0 < pow2(k) <= 0x1_0000_0000,
{
    lemma2_to64();
    vstd::arithmetic::power2::lemma_pow2_pos(k);
    if k < 32 {
        lemma_pow2_strictly_increases(k, 32);
    }
}

/// The last address of the network that an address belongs to.
pub fn broadcast_address(address: Ipv4Addr, prefix: u8) -> (r: Ipv4Addr)
    ensures
        r.bits == network(address.bits as nat, 32, prefix as nat) + host_count(32, prefix as nat)
            - 1,
{
    if prefix >= 32 {
        return address;
    }
    let hosts: u128 = power_of_two(32 - prefix as u32);
    let bits: u128 = address.bits as u128;
    proof {
        lemma_pow2_32((32 - prefix) as nat);
        lemma_broadcast_fits(bits as nat, (32 - prefix) as nat);
    }
    Ipv4Addr { bits: (bits - bits % hosts + (hosts - 1)) as u32 }
}

proof fn lemma_broadcast_fits(n: nat, k: nat)
    requires
        n < 0x1_0000_0000,
        k <= 32,
    ensures
        0 <= n - n % pow2(k),
        n - n % pow2(k) + pow2(k) <= 0x1_0000_0000,
{
    lemma_pow2_32(k);
    let m = pow2(k) as int;
    lemma2_to64();
    vstd::arithmetic::power2::lemma_pow2_adds(k, (32 - k) as nat);
    lemma_pow2_32((32 - k) as nat);
    let w = pow2((32 - k) as nat) as int;
    assert(m * w == 0x1_0000_0000);
    let q = n as int / m;
    vstd::arithmetic::div_mod::lemma_fundamental_div_mod(n as int, m);
    assert(q < w) by (nonlinear_arith)
        requires
            m * q <= n as int,
            (n as int) < m * w,
            m > 0,
    ;
    assert(m * (q + 1) <= m * w) by (nonlinear_arith)
        requires
            q + 1 <= w,
            m > 0,
    ;
    assert(m * (q + 1) == m * q + m) by (nonlinear_arith);
    vstd::arithmetic::div_mod::lemma_mod_bound(n as int, m);
}

/// An address and its number stand for each other.
pub proof fn lemma_scalar(a: Ipv4Addr, n: u32)
    ensures
        Ipv4Addr::of_scalar(a.scalar()) == a,
        Ipv4Addr::of_scalar(n).scalar() == n,
{
    bytes::lemma_be32(a.bits as nat);
    let o = a.octets_view();
    let m = bytes::le32(o, 0);
    assert(bytes::le32_octets(m) =~= o) by {
        lemma_le32_octets_of(o);
    }
    bytes::lemma_le32(n as nat);
    let p = bytes::le32_octets(n as nat);
    let k = bytes::be32(p, 0);
    assert(bytes::be32_octets(k) =~= p) by {
        lemma_be32_octets_of(p);
    }
}

proof fn lemma_le32_octets_of(o: Seq<u8>)
    requires
        o.len() == 4,
    ensures
        bytes::le32(o, 0) < 0x1_0000_0000,
        bytes::le32_octets(bytes::le32(o, 0)) == o,
{
    let low = bytes::le16(o, 0);
    let high = bytes::le16(o, 2);
    let n = bytes::le32(o, 0);
    assert(n % 65536 == low && n / 65536 == high);
    assert(bytes::le32_octets(n) =~= o);
}

proof fn lemma_be32_octets_of(o: Seq<u8>)
    requires
        o.len() == 4,
    ensures
        bytes::be32(o, 0) < 0x1_0000_0000,
        bytes::be32_octets(bytes::be32(o, 0)) == o,
{
    let high = bytes::be16(o, 0);
    let low = bytes::be16(o, 2);
    let n = bytes::be32(o, 0);
    assert(n % 65536 == low && n / 65536 == high);
    assert(bytes::be32_octets(n) =~= o);
}

} // verus!
