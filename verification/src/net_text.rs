//! The text form of IPv6 addresses, and of addresses of either family.

use vstd::prelude::*;

use crate::net;
use crate::net::{parse_v4, IpAddr, Ipv4Addr, Ipv6Addr};
use crate::text;
use crate::text::{chars_of, copy_range, hex_text, hex_value, split_text};

verus! {

// --- Writing --------------------------------------------------------------------

/// How many consecutive zero groups start at position `i`.
pub open spec fn zeros_at(g: Seq<u16>, i: int) -> nat
    decreases g.len() - i,
{
    if 0 <= i < g.len() && g[i] == 0 {
        1 + zeros_at(g, i + 1)
    } else {
        0
    }
}

/// The first position, among the first `k`, of a longest run of zero groups.
pub open spec fn longest_zeros(g: Seq<u16>, k: nat) -> int
    decreases k,
{
    if k <= 1 {
        0
    } else {
        let best = longest_zeros(g, (k - 1) as nat);
        if zeros_at(g, k - 1) > zeros_at(g, best) {
            k - 1
        } else {
            best
        }
    }
}

/// The hexadecimal texts of groups.
pub open spec fn group_texts(g: Seq<u16>) -> Seq<Seq<char>> {
    g.map_values(|x: u16| text::hex(x as nat))
}

/// Groups in hexadecimal, joined by colons.
pub open spec fn colon_text(g: Seq<u16>) -> Seq<char> {
    text::join(group_texts(g), ':')
}

/// Whether the groups are those of an IPv4 address mapped into IPv6.
pub open spec fn is_mapped(g: Seq<u16>) -> bool {
    g.len() == 8 && g[0] == 0 && g[1] == 0 && g[2] == 0 && g[3] == 0 && g[4] == 0 && g[5] == 0xffff
}

impl Ipv6Addr {
    /// The canonical text of the address: lower-case groups without leading
    /// zeros, with the first longest run of two or more zero groups written as
    /// `::`. An address that maps an IPv4 address shows it in dotted decimal.
    pub open spec fn text(self) -> Seq<char> {
        let g = self.groups_view();
        if is_mapped(g) {
            seq![':', ':', 'f', 'f', 'f', 'f', ':'] + (Ipv4Addr {
                bits: (self.bits % 0x1_0000_0000) as u32,
            }).text()
        } else {
            let start = longest_zeros(g, 8);
            let count = zeros_at(g, start);
            if count > 1 {
                colon_text(g.take(start)) + seq![':', ':'] + colon_text(g.skip(start + count))
            } else {
                colon_text(g)
            }
        }
    }
}

/// The 16-bit groups of a number, most significant first.
fn groups_of(n: u128, k: usize) -> (r: Vec<u16>)
    ensures
        r@ == net::groups(n as nat, k as nat),
    decreases k,
{
    if k == 0 {
        let r: Vec<u16> = Vec::new();
        assert(r@ =~= net::groups(n as nat, 0));
        r
    } else {
        let mut r: Vec<u16> = groups_of(n / 65536, k - 1);
        r.push((n % 65536) as u16);
        r
    }
}

fn count_zeros(g: &Vec<u16>, i: usize) -> (r: usize)
    requires
        i <= g@.len(),
    ensures
        r == zeros_at(g@, i as int),
        i + r <= g@.len(),
    decreases g@.len() - i,
{
    if i < g.len() && g[i] == 0 {
        1 + count_zeros(g, i + 1)
    } else {
        0
    }
}

/// Writes the groups from `start` to `end`, joined by colons.
fn write_groups(out: &mut String, g: &Vec<u16>, start: usize, end: usize)
    requires
        start <= end <= g@.len(),
    ensures
        final(out)@ == old(out)@ + colon_text(g@.subrange(start as int, end as int)),
    decreases end - start,
{
    let ghost part = g@.subrange(start as int, end as int);
    if start == end {
        assert(out@ =~= old(out)@ + colon_text(part));
    } else {
        assert(group_texts(part)[0] == text::hex(g@[start as int] as nat));
        out.append(hex_text(g[start] as u64).as_str());
        if start + 1 == end {
            assert(out@ =~= old(out)@ + colon_text(part));
        } else {
            out.push(':');
            let ghost rest = g@.subrange(start + 1, end as int);
            write_groups(out, g, start + 1, end);
            assert(group_texts(part).skip(1) =~= group_texts(rest));
            assert(out@ =~= old(out)@ + colon_text(part));
        }
    }
}

/// A run of zeros is made of zeros, and stays within the groups.
proof fn lemma_zeros_at(g: Seq<u16>, i: int)
    requires
        0 <= i <= g.len(),
    ensures
        i + zeros_at(g, i) <= g.len(),
        forall|j: int| i <= j < i + zeros_at(g, i) ==> g[j] == 0,
    decreases g.len() - i,
{
    if i < g.len() && g[i] == 0 {
        lemma_zeros_at(g, i + 1);
    }
}

proof fn lemma_longest_in_range(g: Seq<u16>, k: nat)
    requires
        1 <= k <= g.len(),
    ensures
        0 <= longest_zeros(g, k) < k,
    decreases k,
{
    if k > 1 {
        lemma_longest_in_range(g, (k - 1) as nat);
    }
}

impl Ipv6Addr {
    /// Writes the address in its canonical text form.
    pub fn to_string(&self) -> (r: String)
        ensures
            r@ == self.text(),
    {
        let g: Vec<u16> = groups_of(self.bits, 8);
        proof {
            net::lemma_bounds();
            net::lemma_groups(self.bits as nat, 8);
        }
        if g[0] == 0 && g[1] == 0 && g[2] == 0 && g[3] == 0 && g[4] == 0 && g[5] == 0xffff {
            let mut out: String = String::new();
            out.push(':');
            out.push(':');
            out.push('f');
            out.push('f');
            out.push('f');
            out.push('f');
            out.push(':');
            let low = Ipv4Addr { bits: (self.bits % 0x1_0000_0000) as u32 };
            out.append(low.to_string().as_str());
            assert(out@ =~= self.text());
            return out;
        }
        let mut best: usize = 0;
        let mut best_count: usize = count_zeros(&g, 0);
        let mut i: usize = 1;
        while i < 8
            invariant
                1 <= i <= 8,
                g@.len() == 8,
                best < i,
                best == longest_zeros(g@, i as nat),
                best_count == zeros_at(g@, best as int),
                best + best_count <= 8,
            decreases 8 - i,
        {
            let count: usize = count_zeros(&g, i);
            if count > best_count {
                best = i;
                best_count = count;
            }
            i = i + 1;
        }
        let mut out: String = String::new();
        if best_count > 1 {
            write_groups(&mut out, &g, 0, best);
            out.push(':');
            out.push(':');
            write_groups(&mut out, &g, best + best_count, 8);
            proof {
                assert(g@.subrange(0, best as int) =~= g@.take(best as int));
                assert(g@.subrange(best + best_count, 8) =~= g@.skip(best + best_count));
                assert(out@ =~= self.text());
            }
        } else {
            write_groups(&mut out, &g, 0, 8);
            assert(g@.subrange(0, 8) =~= g@);
            assert(out@ =~= self.text());
        }
        out
    }
}

// --- Reading ---------------------------------------------------------------------

/// The value of one to four hexadecimal digits.
pub open spec fn group_value(s: Seq<char>) -> Option<u16> {
    if 1 <= s.len() <= 4 && (forall|i: int|
        0 <= i < s.len() ==> text::hex_digit_value(#[trigger] s[i]) is Some) {
        Some(hex_number(s) as u16)
    } else {
        None
    }
}

/// The number that hexadecimal digits stand for.
pub open spec fn hex_number(s: Seq<char>) -> nat
    decreases s.len(),
{
    if s.len() == 0 {
        0
    } else {
        16 * hex_number(s.drop_last()) + text::hex_digit_value(s.last())->0
    }
}

/// The IPv4 address with the given text.
pub open spec fn v4_of(s: Seq<char>) -> Option<Ipv4Addr> {
    if exists|a: Ipv4Addr| a.text() == s {
        Some(choose|a: Ipv4Addr| a.text() == s)
    } else {
        None
    }
}

/// The two groups that an embedded IPv4 address stands for.
pub open spec fn v4_groups(a: Ipv4Addr) -> Seq<u16> {
    seq![(a.bits / 65536) as u16, (a.bits % 65536) as u16]
}

/// The groups that pieces between colons stand for. Each is a hexadecimal
/// group; where `embedded` is set the last may be an IPv4 address.
pub open spec fn pieces_groups(pieces: Seq<Seq<char>>, embedded: bool) -> Option<Seq<u16>>
    decreases pieces.len(),
{
    if pieces.len() == 0 {
        Some(Seq::empty())
    } else if pieces.len() == 1 && embedded && v4_of(pieces[0]) is Some {
        Some(v4_groups(v4_of(pieces[0])->0))
    } else {
        match (group_value(pieces[0]), pieces_groups(pieces.skip(1), embedded)) {
            (Some(g), Some(rest)) => Some(seq![g] + rest),
            _ => None,
        }
    }
}

/// The groups that a part of an address's text stands for; none for no text.
pub open spec fn part_groups(s: Seq<char>, embedded: bool) -> Option<Seq<u16>> {
    if s.len() == 0 {
        Some(Seq::empty())
    } else {
        pieces_groups(text::split(s, ':'), embedded)
    }
}

/// The position of the first `::`, or the length of the text without one.
pub open spec fn double_colon(s: Seq<char>) -> int
    decreases s.len(),
{
    if s.len() < 2 {
        s.len() as int
    } else if s[0] == ':' && s[1] == ':' {
        0
    } else {
        1 + double_colon(s.skip(1))
    }
}

/// The groups of the IPv6 address that a text stands for. A `::` stands for
/// one or more groups of zeros, and the last two groups may be written as an
/// IPv4 address.
pub open spec fn v6_groups_of(s: Seq<char>) -> Option<Seq<u16>> {
    let k = double_colon(s);
    if k >= s.len() {
        match pieces_groups(text::split(s, ':'), true) {
            Some(g) => if g.len() == 8 {
                Some(g)
            } else {
                None
            },
            None => None,
        }
    } else {
        match (part_groups(s.take(k), false), part_groups(s.skip(k + 2), true)) {
            (Some(head), Some(tail)) => if head.len() + tail.len() <= 7 {
                Some(head + Seq::new((8 - head.len() - tail.len()) as nat, |i: int| 0u16) + tail)
            } else {
                None
            },
            _ => None,
        }
    }
}

/// The IPv6 address that a text stands for.
pub open spec fn v6_of(s: Seq<char>) -> Option<Ipv6Addr> {
    match v6_groups_of(s) {
        Some(g) => Some(Ipv6Addr { bits: net::groups_value(g) as u128 }),
        None => None,
    }
}

/// The address of either family that a text stands for.
pub open spec fn ip_of(s: Seq<char>) -> Option<IpAddr> {
    match v4_of(s) {
        Some(a) => Some(IpAddr::V4(a)),
        None => match v6_of(s) {
            Some(a) => Some(IpAddr::V6(a)),
            None => None,
        },
    }
}

/// An IPv4 address is the one that its text stands for.
pub proof fn lemma_v4_of_text(a: Ipv4Addr)
    ensures
        v4_of(a.text()) == Some(a),
{
    let b = choose|b: Ipv4Addr| b.text() == a.text();
    net::lemma_v4_text_injective(a, b);
}

fn read_group(chars: &Vec<char>) -> (r: Option<u16>)
    ensures
        r == group_value(chars@),
{
    let count: usize = chars.len();
    if count == 0 || count > 4 {
        return None;
    }
    let mut value: u32 = 0;
    let mut i: usize = 0;
    while i < count
        invariant
            i <= count <= 4,
            1 <= count,
            count == chars@.len(),
            forall|j: int| 0 <= j < i ==> text::hex_digit_value(#[trigger] chars@[j]) is Some,
            value == hex_number(chars@.take(i as int)),
            i == 0 ==> value == 0,
            i == 1 ==> value < 0x10,
            i == 2 ==> value < 0x100,
            i == 3 ==> value < 0x1000,
            i == 4 ==> value < 0x1_0000,
        decreases count - i,
    {
        match hex_value(chars[i]) {
            Some(d) => {
                value = value * 16 + d as u32;
            },
            None => {
                assert(text::hex_digit_value(chars@[i as int]) is None);
                return None;
            },
        }
        i = i + 1;
        assert(chars@.take(i as int).drop_last() =~= chars@.take(i - 1));
    }
    assert(chars@.take(i as int) =~= chars@);
    Some(value as u16)
}

/// Reads the pieces from position `from` on.
fn read_pieces(pieces: &Vec<Vec<char>>, embedded: bool, from: usize) -> (r: Option<Vec<u16>>)
    requires
        from <= pieces@.len(),
    ensures
        match r {
            Some(g) => pieces_groups(text::char_views(pieces@).skip(from as int), embedded) == Some(g@),
            None => pieces_groups(text::char_views(pieces@).skip(from as int), embedded) is None,
        },
{
    let ghost texts = text::char_views(pieces@);
    let mut out: Vec<u16> = Vec::new();
    let mut i: usize = from;
    let ghost whole = pieces_groups(texts.skip(from as int), embedded);
    proof {
        if let Some(g) = whole {
            assert(out@ + g =~= g);
        }
    }
    while i < pieces.len()
        invariant
            from <= i <= pieces@.len(),
            texts == text::char_views(pieces@),
            match pieces_groups(texts.skip(i as int), embedded) {
                Some(g) => whole == Some(out@ + g),
                None => whole is None,
            },
            whole == pieces_groups(texts.skip(from as int), embedded),
        decreases pieces@.len() - i,
    {
        let ghost rest = texts.skip(i as int);
        let ghost before = out@;
        assert(rest[0] == pieces@[i as int]@);
        assert(rest.skip(1) =~= texts.skip(i + 1));
        if embedded && i + 1 == pieces.len() {
            match parse_v4(pieces[i].as_slice()) {
                Some(a) => {
                    proof {
                        lemma_v4_of_text(a);
                    }
                    out.push((a.bits / 65536) as u16);
                    out.push((a.bits % 65536) as u16);
                    assert(out@ =~= before + v4_groups(a));
                    return Some(out);
                },
                None => {
                    assert(v4_of(rest[0]) is None);
                },
            }
        }
        match read_group(&pieces[i]) {
            Some(g) => {
                out.push(g);
                proof {
                    if let Some(more) = pieces_groups(rest.skip(1), embedded) {
                        assert(before + (seq![g] + more) =~= out@ + more);
                    }
                }
            },
            None => {
                return None;
            },
        }
        i = i + 1;
    }
    proof {
        assert(texts.skip(i as int) =~= Seq::<Seq<char>>::empty());
        assert(out@ + Seq::<u16>::empty() =~= out@);
    }
    Some(out)
}

fn read_part(chars: &[char], embedded: bool) -> (r: Option<Vec<u16>>)
    ensures
        match r {
            Some(g) => part_groups(chars@, embedded) == Some(g@),
            None => part_groups(chars@, embedded) is None,
        },
{
    if chars.len() == 0 {
        let r: Vec<u16> = Vec::new();
        assert(r@ =~= Seq::<u16>::empty());
        return Some(r);
    }
    let pieces: Vec<Vec<char>> = split_text(chars, ':');
    assert(text::char_views(pieces@).skip(0) =~= text::char_views(pieces@));
    read_pieces(&pieces, embedded, 0)
}

fn find_double_colon(chars: &[char]) -> (r: usize)
    ensures
        r == double_colon(chars@),
        r <= chars@.len(),
        r < chars@.len() ==> r + 2 <= chars@.len(),
{
    let mut i: usize = 0;
    assert(chars@.skip(0) =~= chars@);
    while i < chars.len() && chars.len() - i >= 2
        invariant
            i <= chars@.len(),
            double_colon(chars@) == i + double_colon(chars@.skip(i as int)),
        decreases chars@.len() - i,
    {
        let ghost rest = chars@.skip(i as int);
        if chars[i] == ':' && chars[i + 1] == ':' {
            assert(rest[0] == ':' && rest[1] == ':');
            return i;
        }
        assert(rest[0] == chars@[i as int] && rest[1] == chars@[i + 1]);
        assert(rest.skip(1) =~= chars@.skip(i + 1));
        i = i + 1;
    }
    chars.len()
}

/// The number with the given groups.
fn value_of(g: &Vec<u16>) -> (r: u128)
    requires
        g@.len() <= 8,
    ensures
        r == net::groups_value(g@),
{
    let mut value: u128 = 0;
    let mut i: usize = 0;
    assert(g@.take(0) =~= Seq::<u16>::empty());
    while i < g.len()
        invariant
            i <= g@.len() <= 8,
            value == net::groups_value(g@.take(i as int)),
        decreases g@.len() - i,
    {
        proof {
            net::lemma_groups_value(g@.take(i + 1));
            net::lemma_group_bound_monotone((i + 1) as nat, 8);
            net::lemma_bounds();
            assert(g@.take(i + 1).drop_last() =~= g@.take(i as int));
        }
        value = value * 65536 + g[i] as u128;
        i = i + 1;
    }
    assert(g@.take(i as int) =~= g@);
    value
}

/// Reads an IPv6 address.
pub fn parse_v6(chars: &[char]) -> (r: Option<Ipv6Addr>)
    ensures
        r == v6_of(chars@),
{
    let k: usize = find_double_colon(chars);
    if k == chars.len() {
        let pieces: Vec<Vec<char>> = split_text(chars, ':');
        assert(text::char_views(pieces@).skip(0) =~= text::char_views(pieces@));
        return match read_pieces(&pieces, true, 0) {
            Some(g) => if g.len() == 8 {
                Some(Ipv6Addr { bits: value_of(&g) })
            } else {
                None
            },
            None => None,
        };
    }
    let before: Vec<char> = copy_range(chars, 0, k);
    let after: Vec<char> = copy_range(chars, k + 2, chars.len());
    assert(before@ =~= chars@.take(k as int));
    assert(after@ =~= chars@.skip(k + 2));
    let head: Vec<u16> = match read_part(before.as_slice(), false) {
        Some(g) => g,
        None => {
            return None;
        },
    };
    let tail: Vec<u16> = match read_part(after.as_slice(), true) {
        Some(g) => g,
        None => {
            return None;
        },
    };
    if head.len() > 7 || tail.len() > 7 - head.len() {
        return None;
    }
    let ghost zeros = Seq::new((8 - head@.len() - tail@.len()) as nat, |i: int| 0u16);
    let mut g: Vec<u16> = head;
    let total: usize = 8 - tail.len();
    assert(g@ + zeros.take(0) =~= g@);
    while g.len() < total
        invariant
            head@.len() <= g@.len() <= total,
            total == 8 - tail@.len(),
            tail@.len() <= 8,
            zeros == Seq::new((total - head@.len()) as nat, |i: int| 0u16),
            g@ == head@ + zeros.take(g@.len() - head@.len()),
        decreases total - g@.len(),
    {
        let ghost n = g@.len() - head@.len();
        g.push(0);
        assert(zeros.take(n + 1) =~= zeros.take(n).push(0u16));
        assert(g@ =~= head@ + zeros.take(n + 1));
    }
    assert(zeros.take(zeros.len() as int) =~= zeros);
    let mut i: usize = 0;
    assert(g@ =~= head@ + zeros + tail@.take(0));
    while i < tail.len()
        invariant
            i <= tail@.len(),
            g@ == head@ + zeros + tail@.take(i as int),
        decreases tail@.len() - i,
    {
        g.push(tail[i]);
        i = i + 1;
        assert(tail@.take(i as int) =~= tail@.take(i - 1).push(tail@[i - 1]));
        assert(g@ =~= head@ + zeros + tail@.take(i as int));
    }
    assert(tail@.take(i as int) =~= tail@);
    Some(Ipv6Addr { bits: value_of(&g) })
}

impl Ipv6Addr {
    /// Reads an IPv6 address.
    pub fn parse(text: &str) -> (r: Option<Self>)
        ensures
            r == v6_of(text@),
    {
        parse_v6(chars_of(text).as_slice())
    }
}

impl IpAddr {
    /// The text form of the address.
    pub open spec fn text(self) -> Seq<char> {
        match self {
            IpAddr::V4(a) => a.text(),
            IpAddr::V6(a) => a.text(),
        }
    }

    /// Whether this is an IPv4 address.
    pub fn is_ipv4(&self) -> (r: bool)
        ensures
            r == (self is V4),
    {
        match self {
            IpAddr::V4(_) => true,
            IpAddr::V6(_) => false,
        }
    }

    /// Writes the address in its text form.
    pub fn to_string(&self) -> (r: String)
        ensures
            r@ == self.text(),
    {
        match self {
            IpAddr::V4(a) => a.to_string(),
            IpAddr::V6(a) => a.to_string(),
        }
    }

    /// Reads an address of either family.
    pub fn parse(text: &str) -> (r: Option<Self>)
        ensures
            r == ip_of(text@),
    {
        let chars: Vec<char> = chars_of(text);
        match parse_v4(chars.as_slice()) {
            Some(a) => {
                proof {
                    lemma_v4_of_text(a);
                }
                Some(IpAddr::V4(a))
            },
            None => {
                assert(v4_of(text@) is None);
                match parse_v6(chars.as_slice()) {
                    Some(a) => Some(IpAddr::V6(a)),
                    None => None,
                }
            },
        }
    }
}

// --- Reading back what was written --------------------------------------------------

/// Joined pieces that are not empty and hold no colon neither begin nor end
/// with a colon, and hold no `::`.
proof fn lemma_no_double(pieces: Seq<Seq<char>>)
    requires
        pieces.len() > 0,
        forall|i: int|
            0 <= i < pieces.len() ==> (#[trigger] pieces[i]).len() > 0 && !pieces[i].contains(':'),
    ensures
        text::join(pieces, ':').len() > 0,
        text::join(pieces, ':')[0] != ':',
        text::join(pieces, ':').last() != ':',
        forall|i: int|
            0 <= i < text::join(pieces, ':').len() - 1 ==> !(#[trigger] text::join(pieces, ':')[i] == ':'
                && text::join(pieces, ':')[i + 1] == ':'),
    decreases pieces.len(),
{
    let whole = text::join(pieces, ':');
    let first = pieces[0];
    assert(pieces[0].len() > 0 && !pieces[0].contains(':'));
    assert forall|i: int| 0 <= i < first.len() implies first[i] != ':' by {
        assert(first.contains(first[i]));
    }
    if pieces.len() > 1 {
        let rest = pieces.skip(1);
        assert forall|i: int| 0 <= i < rest.len() implies (#[trigger] rest[i]).len() > 0
            && !rest[i].contains(':') by {
            assert(rest[i] == pieces[i + 1]);
        }
        lemma_no_double(rest);
        let tail = text::join(rest, ':');
        assert(whole =~= first.push(':') + tail);
        assert(whole.last() == tail.last());
        assert forall|i: int| 0 <= i < whole.len() - 1 implies !(#[trigger] whole[i] == ':'
            && whole[i + 1] == ':') by {
            if i < first.len() {
                assert(whole[i] == first[i]);
            } else if i == first.len() {
                assert(whole[i + 1] == tail[0]);
            } else {
                assert(whole[i] == tail[i - first.len() - 1]);
                assert(whole[i + 1] == tail[i - first.len()]);
            }
        }
    }
}

/// A position with `::` at it and no `::` before it is that of the first one.
proof fn lemma_double_is(s: Seq<char>, k: int)
    requires
        0 <= k,
        k + 2 <= s.len(),
        s[k] == ':' && s[k + 1] == ':',
        forall|i: int| 0 <= i < k ==> !(#[trigger] s[i] == ':' && s[i + 1] == ':'),
    ensures
        double_colon(s) == k,
    decreases k,
{
    if k > 0 {
        let rest = s.skip(1);
        assert(!(s[0] == ':' && s[1] == ':'));
        assert forall|i: int| 0 <= i < k - 1 implies !(#[trigger] rest[i] == ':' && rest[i + 1]
            == ':') by {
            assert(rest[i] == s[i + 1] && rest[i + 1] == s[i + 2]);
        }
        lemma_double_is(rest, k - 1);
    }
}

/// A text without `::` has none.
proof fn lemma_double_none(s: Seq<char>)
    requires
        forall|i: int| 0 <= i < s.len() - 1 ==> !(#[trigger] s[i] == ':' && s[i + 1] == ':'),
    ensures
        double_colon(s) == s.len(),
    decreases s.len(),
{
    if s.len() >= 2 {
        let rest = s.skip(1);
        assert(!(s[0] == ':' && s[1] == ':'));
        assert forall|i: int| 0 <= i < rest.len() - 1 implies !(#[trigger] rest[i] == ':' && rest[i
            + 1] == ':') by {
            assert(rest[i] == s[i + 1] && rest[i + 1] == s[i + 2]);
        }
        lemma_double_none(rest);
    }
}

/// A group's text is one to four hexadecimal digits that stand for the group.
proof fn lemma_group_text(x: u16)
    ensures
        1 <= text::hex(x as nat).len() <= 4,
        group_value(text::hex(x as nat)) == Some(x),
        !text::hex(x as nat).contains(':'),
        !text::hex(x as nat).contains('.'),
{
    let n = x as nat;
    reveal_with_fuel(text::hex, 4);
    lemma_hex_number(n);
    let s = text::hex(n);
    assert forall|i: int| 0 <= i < s.len() implies s[i] != ':' && s[i] != '.' by {
        assert(text::hex_digit_value(s[i]) is Some);
    }
}

pub(crate) proof fn lemma_hex_number(n: nat)
    ensures
        text::hex(n).len() > 0,
        hex_number(text::hex(n)) == n,
        forall|i: int|
            0 <= i < text::hex(n).len() ==> text::hex_digit_value(#[trigger] text::hex(n)[i]) is Some,
    decreases n,
{
    let s = text::hex(n);
    if n < 16 {
        text::lemma_hex_digit(n);
        assert(s.drop_last() =~= Seq::<char>::empty());
        assert(hex_number(s.drop_last()) == 0);
    } else {
        lemma_hex_number(n / 16);
        text::lemma_hex_digit(n % 16);
        assert(s.drop_last() =~= text::hex(n / 16));
        assert forall|i: int| 0 <= i < s.len() implies text::hex_digit_value(#[trigger] s[i]) is Some by {
            if i < s.len() - 1 {
                assert(s[i] == text::hex(n / 16)[i]);
            }
        }
    }
}

/// The texts of groups stand for the groups.
proof fn lemma_pieces_of_groups(g: Seq<u16>, embedded: bool)
    ensures
        pieces_groups(group_texts(g), embedded) == Some(g),
    decreases g.len(),
{
    let p = group_texts(g);
    if g.len() > 0 {
        lemma_group_text(g[0]);
        assert(p[0] == text::hex(g[0] as nat));
        if v4_of(p[0]) is Some {
            let a = choose|a: Ipv4Addr| a.text() == p[0];
            net::lemma_v4_pieces(a);
            assert(false);
        }
        lemma_pieces_of_groups(g.skip(1), embedded);
        assert(p.skip(1) =~= group_texts(g.skip(1)));
        assert(seq![g[0]] + g.skip(1) =~= g);
    } else {
        assert(g =~= Seq::<u16>::empty());
    }
}

pub(crate) proof fn lemma_group_texts_plain(g: Seq<u16>)
    ensures
        forall|i: int|
            0 <= i < g.len() ==> (#[trigger] group_texts(g)[i]).len() > 0 && !group_texts(
                g,
            )[i].contains(':'),
{
    assert forall|i: int| 0 <= i < g.len() implies (#[trigger] group_texts(g)[i]).len() > 0
        && !group_texts(g)[i].contains(':') by {
        lemma_group_text(g[i]);
    }
}

/// Groups written between colons are read back.
proof fn lemma_part_of_groups(g: Seq<u16>, embedded: bool)
    ensures
        part_groups(colon_text(g), embedded) == Some(g),
{
    if g.len() == 0 {
        assert(colon_text(g) =~= Seq::<char>::empty());
        assert(g =~= Seq::<u16>::empty());
    } else {
        lemma_group_texts_plain(g);
        lemma_no_double(group_texts(g));
        text::lemma_split_join(group_texts(g), ':');
        lemma_pieces_of_groups(g, embedded);
    }
}

/// The groups of an address whose text is given as two parts around `::`.
proof fn lemma_read_compressed(g: Seq<u16>, start: int, count: nat)
    requires
        g.len() == 8,
        0 <= start,
        1 <= count,
        start + count <= 8,
        forall|i: int| start <= i < start + count ==> g[i] == 0,
    ensures
        v6_groups_of(
            colon_text(g.take(start)) + seq![':', ':'] + colon_text(g.skip(start + count)),
        ) == Some(g),
{
    let head = g.take(start);
    let tail = g.skip(start + count);
    let a = colon_text(head);
    let b = colon_text(tail);
    let s = a + seq![':', ':'] + b;
    let k = a.len() as int;
    assert(s[k] == ':' && s[k + 1] == ':');
    assert forall|i: int| 0 <= i < k implies !(#[trigger] s[i] == ':' && s[i + 1] == ':') by {
        assert(head.len() > 0) by {
            if head.len() == 0 {
                assert(a =~= Seq::<char>::empty());
            }
        }
        lemma_group_texts_plain(head);
        lemma_no_double(group_texts(head));
        assert(s[i] == a[i]);
        if i + 1 < k {
            assert(s[i + 1] == a[i + 1]);
        } else {
            assert(a[i] == a.last());
        }
    }
    lemma_double_is(s, k);
    assert(s.take(k) =~= a);
    assert(s.skip(k + 2) =~= b);
    lemma_part_of_groups(head, false);
    lemma_part_of_groups(tail, true);
    let zeros = Seq::new((8 - head.len() - tail.len()) as nat, |i: int| 0u16);
    assert(head + zeros + tail =~= g);
}

/// The groups of the part of a mapped address behind the zeros.
proof fn lemma_read_mapped_part(low: Ipv4Addr)
    ensures
        part_groups(seq!['f', 'f', 'f', 'f', ':'] + low.text(), true) == Some(
            seq![0xffffu16] + v4_groups(low),
        ),
{
    let after = seq!['f', 'f', 'f', 'f', ':'] + low.text();
    let ffff = seq!['f', 'f', 'f', 'f'];
    let pieces = seq![ffff, low.text()];
    assert(text::split(after, ':') == pieces) by {
        net::lemma_v4_pieces(low);
        assert(pieces.skip(1) =~= seq![low.text()]);
        reveal_with_fuel(text::join, 2);
        assert(text::join(pieces, ':') =~= after);
        assert forall|i: int| 0 <= i < pieces.len() implies !(#[trigger] pieces[i]).contains(
            ':',
        ) by {
            assert(!ffff.contains(':'));
        }
        text::lemma_split_join(pieces, ':');
    }
    assert(group_value(ffff) == Some(0xffffu16)) by {
        reveal_with_fuel(hex_number, 5);
        assert(ffff.drop_last() =~= seq!['f', 'f', 'f']);
        assert(ffff.drop_last().drop_last() =~= seq!['f', 'f']);
        assert(ffff.drop_last().drop_last().drop_last() =~= seq!['f']);
        assert(ffff.drop_last().drop_last().drop_last().drop_last() =~= Seq::<char>::empty());
    }
    lemma_v4_of_text(low);
    assert(pieces.skip(1) =~= seq![low.text()]);
    assert(pieces_groups(pieces.skip(1), true) == Some(v4_groups(low)));
    assert(pieces_groups(pieces, true) == Some(seq![0xffffu16] + v4_groups(low)));
}

/// The groups of a mapped address: zeros, a marker, and those of the IPv4 address.
proof fn lemma_mapped_groups(a: Ipv6Addr)
    requires
        is_mapped(a.groups_view()),
    ensures
        a.groups_view() == Seq::<u16>::empty() + Seq::new(5, |i: int| 0u16) + (seq![0xffffu16]
            + v4_groups(Ipv4Addr { bits: (a.bits % 0x1_0000_0000) as u32 })),
{
    let g = a.groups_view();
    let low = Ipv4Addr { bits: (a.bits % 0x1_0000_0000) as u32 };
    let n = a.bits as nat;
    assert(g[7] == (n % 65536) as u16 && g[6] == (n / 65536 % 65536) as u16) by {
        reveal_with_fuel(net::groups, 3);
    }
    assert(Seq::<u16>::empty() + Seq::new(5, |i: int| 0u16) + (seq![0xffffu16] + v4_groups(low))
        =~= g);
}

/// The groups of the address that an IPv4 address is mapped to.
proof fn lemma_read_mapped(a: Ipv6Addr)
    requires
        is_mapped(a.groups_view()),
    ensures
        v6_groups_of(a.text()) == Some(a.groups_view()),
{
    let low = Ipv4Addr { bits: (a.bits % 0x1_0000_0000) as u32 };
    let s = a.text();
    let after = seq!['f', 'f', 'f', 'f', ':'] + low.text();
    assert(s =~= seq![':', ':'] + after);
    lemma_double_is(s, 0);
    assert(s.take(0) =~= Seq::<char>::empty());
    assert(s.skip(2) =~= after);
    lemma_read_mapped_part(low);
    lemma_mapped_groups(a);
    let tail = seq![0xffffu16] + v4_groups(low);
    assert(v4_groups(low).len() == 2);
    assert(part_groups(s.take(0), false) == Some(Seq::<u16>::empty()));
    assert(part_groups(s.skip(2), true) == Some(tail));
}

/// Reading the text of an IPv6 address gives the address.
pub proof fn lemma_v6_of_text(a: Ipv6Addr)
    ensures
        v6_of(a.text()) == Some(a),
{
    let g = a.groups_view();
    net::lemma_bounds();
    net::lemma_groups(a.bits as nat, 8);
    if is_mapped(g) {
        lemma_read_mapped(a);
    } else {
        let start = longest_zeros(g, 8);
        lemma_longest_in_range(g, 8);
        lemma_zeros_at(g, start);
        if zeros_at(g, start) > 1 {
            lemma_read_compressed(g, start, zeros_at(g, start));
        } else {
            lemma_group_texts_plain(g);
            lemma_no_double(group_texts(g));
            lemma_double_none(a.text());
            text::lemma_split_join(group_texts(g), ':');
            lemma_pieces_of_groups(g, true);
        }
    }
}

/// The text of an IPv6 address holds a colon.
proof fn lemma_v6_text_colon(a: Ipv6Addr)
    ensures
        a.text().contains(':'),
{
    let g = a.groups_view();
    let s = a.text();
    net::lemma_bounds();
    net::lemma_groups(a.bits as nat, 8);
    if is_mapped(g) {
        assert(s[0] == ':');
    } else {
        let start = longest_zeros(g, 8);
        if zeros_at(g, start) > 1 {
            assert(s[colon_text(g.take(start)).len() as int] == ':');
        } else {
            assert(s[group_texts(g)[0].len() as int] == ':');
        }
    }
}

/// Reading the text of an address of either family gives the address.
pub proof fn lemma_ip_of_text(a: IpAddr)
    ensures
        ip_of(a.text()) == Some(a),
{
    match a {
        IpAddr::V4(x) => {
            lemma_v4_of_text(x);
        },
        IpAddr::V6(x) => {
            lemma_v6_of_text(x);
            lemma_v6_text_colon(x);
            if v4_of(x.text()) is Some {
                let y = choose|y: Ipv4Addr| y.text() == x.text();
                net::lemma_v4_pieces(y);
            }
        },
    }
}

} // verus!
