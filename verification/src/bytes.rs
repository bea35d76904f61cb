//! Octets: fixed-width integers in little-endian, network and host order.

use vstd::prelude::*;

verus! {

/// The 16-bit little-endian number at position `i`.
pub open spec fn le16(s: Seq<u8>, i: int) -> nat {
    s[i] as nat + 256 * (s[i + 1] as nat)
}

/// The 32-bit little-endian number at position `i`.
pub open spec fn le32(s: Seq<u8>, i: int) -> nat {
    le16(s, i) + 65536 * le16(s, i + 2)
}

/// The 16-bit number in network order at position `i`.
pub open spec fn be16(s: Seq<u8>, i: int) -> nat {
    256 * (s[i] as nat) + s[i + 1] as nat
}

/// The 32-bit number in network order at position `i`.
pub open spec fn be32(s: Seq<u8>, i: int) -> nat {
    65536 * be16(s, i) + be16(s, i + 2)
}

/// The octets of a 16-bit number, least significant first.
pub open spec fn le16_octets(n: nat) -> Seq<u8> {
    seq![(n % 256) as u8, (n / 256 % 256) as u8]
}

/// The octets of a 32-bit number, least significant first.
pub open spec fn le32_octets(n: nat) -> Seq<u8> {
    le16_octets(n % 65536) + le16_octets(n / 65536)
}

/// The octets of a 16-bit number in network order.
pub open spec fn be16_octets(n: nat) -> Seq<u8> {
    seq![(n / 256 % 256) as u8, (n % 256) as u8]
}

/// The octets of a 32-bit number in network order.
pub open spec fn be32_octets(n: nat) -> Seq<u8> {
    be16_octets(n / 65536) + be16_octets(n % 65536)
}

/// The 16-bit number in host order at position `i`.
pub open spec fn ne16(s: Seq<u8>, i: int) -> nat {
    match vstd::endian::endianness() {
        vstd::endian::Endian::Little => le16(s, i),
        vstd::endian::Endian::Big => be16(s, i),
    }
}

/// The 32-bit number in host order at position `i`.
pub open spec fn ne32(s: Seq<u8>, i: int) -> nat {
    match vstd::endian::endianness() {
        vstd::endian::Endian::Little => le32(s, i),
        vstd::endian::Endian::Big => be32(s, i),
    }
}

/// The octets of a 16-bit number in host order.
pub open spec fn ne16_octets(n: nat) -> Seq<u8> {
    match vstd::endian::endianness() {
        vstd::endian::Endian::Little => le16_octets(n),
        vstd::endian::Endian::Big => be16_octets(n),
    }
}

/// The octets of a 32-bit number in host order.
pub open spec fn ne32_octets(n: nat) -> Seq<u8> {
    match vstd::endian::endianness() {
        vstd::endian::Endian::Little => le32_octets(n),
        vstd::endian::Endian::Big => be32_octets(n),
    }
}

/// `u16::to_ne_bytes`: the octets of a number in the order of the host, which
/// `vstd::endian::endianness` stands for. Which of the two orders that is, is left
/// unsaid.
#[verifier::external_body]
fn host_octets(n: u16) -> (r: [u8; 2])
    ensures
        r@ == ne16_octets(n as nat),
{
    n.to_ne_bytes()
}

/// Whether the host keeps the least significant octet of a number first.
pub fn is_little_endian() -> (r: bool)
    ensures
        r == (vstd::endian::endianness() is Little),
{
    let octets: [u8; 2] = host_octets(1);
    assert(octets@[0] == octets[0]);
    octets[0] == 1
}

/// Reads the 16-bit number in host order at position `i`.
pub fn read_ne16(s: &[u8], i: usize) -> (r: u16)
    requires
        i + 2 <= s@.len(),
    ensures
        r == ne16(s@, i as int),
{
    if is_little_endian() {
        read_le16(s, i)
    } else {
        read_be16(s, i)
    }
}

/// Reads the 32-bit number in host order at position `i`.
pub fn read_ne32(s: &[u8], i: usize) -> (r: u32)
    requires
        i + 4 <= s@.len(),
    ensures
        r == ne32(s@, i as int),
{
    if is_little_endian() {
        read_le32(s, i)
    } else {
        read_be32(s, i)
    }
}

/// Appends a 16-bit number in host order.
pub fn push_ne16(out: &mut Vec<u8>, n: u16)
    ensures
        final(out)@ == old(out)@ + ne16_octets(n as nat),
{
    if is_little_endian() {
        push_le16(out, n);
    } else {
        push_be16(out, n);
    }
}

/// Appends a 32-bit number in host order.
pub fn push_ne32(out: &mut Vec<u8>, n: u32)
    ensures
        final(out)@ == old(out)@ + ne32_octets(n as nat),
{
    if is_little_endian() {
        push_le32(out, n);
    } else {
        push_be32(out, n);
    }
}

/// Reads the 16-bit little-endian number at position `i`.
pub fn read_le16(s: &[u8], i: usize) -> (r: u16)
    requires
        i + 2 <= s@.len(),
    ensures
        r == le16(s@, i as int),
{
    s[i] as u16 + 256 * (s[i + 1] as u16)
}

/// Reads the 32-bit little-endian number at position `i`.
pub fn read_le32(s: &[u8], i: usize) -> (r: u32)
    requires
        i + 4 <= s@.len(),
    ensures
        r == le32(s@, i as int),
{
    assert(s@.len() == s.len());
    read_le16(s, i) as u32 + 65536 * (read_le16(s, i + 2) as u32)
}

/// Reads the 16-bit number in network order at position `i`.
pub fn read_be16(s: &[u8], i: usize) -> (r: u16)
    requires
        i + 2 <= s@.len(),
    ensures
        r == be16(s@, i as int),
{
    256 * (s[i] as u16) + s[i + 1] as u16
}

/// Reads the 32-bit number in network order at position `i`.
pub fn read_be32(s: &[u8], i: usize) -> (r: u32)
    requires
        i + 4 <= s@.len(),
    ensures
        r == be32(s@, i as int),
{
    assert(s@.len() == s.len());
    65536 * (read_be16(s, i) as u32) + read_be16(s, i + 2) as u32
}

/// Appends a 16-bit number, least significant octet first.
pub fn push_le16(out: &mut Vec<u8>, n: u16)
    ensures
        final(out)@ == old(out)@ + le16_octets(n as nat),
{
    out.push((n % 256) as u8);
    out.push((n / 256) as u8);
    assert(out@ =~= old(out)@ + le16_octets(n as nat));
}

/// Appends a 32-bit number, least significant octet first.
pub fn push_le32(out: &mut Vec<u8>, n: u32)
    ensures
        final(out)@ == old(out)@ + le32_octets(n as nat),
{
    push_le16(out, (n % 65536) as u16);
    push_le16(out, (n / 65536) as u16);
    assert(out@ =~= old(out)@ + le32_octets(n as nat));
}

/// Appends a 16-bit number in network order.
pub fn push_be16(out: &mut Vec<u8>, n: u16)
    ensures
        final(out)@ == old(out)@ + be16_octets(n as nat),
{
    out.push((n / 256) as u8);
    out.push((n % 256) as u8);
    assert(out@ =~= old(out)@ + be16_octets(n as nat));
}

/// Appends a 32-bit number in network order.
pub fn push_be32(out: &mut Vec<u8>, n: u32)
    ensures
        final(out)@ == old(out)@ + be32_octets(n as nat),
{
    push_be16(out, (n / 65536) as u16);
    push_be16(out, (n % 65536) as u16);
    assert(out@ =~= old(out)@ + be32_octets(n as nat));
}

/// The octets of a 32-bit number, least significant first.
pub fn le32_vec(n: u32) -> (r: Vec<u8>)
    ensures
        r@ == le32_octets(n as nat),
{
    let mut out: Vec<u8> = Vec::new();
    push_le32(&mut out, n);
    assert(out@ =~= le32_octets(n as nat));
    out
}

/// The octets of a 32-bit number in host order.
pub fn ne32_vec(n: u32) -> (r: Vec<u8>)
    ensures
        r@ == ne32_octets(n as nat),
{
    let mut out: Vec<u8> = Vec::new();
    push_ne32(&mut out, n);
    assert(out@ =~= ne32_octets(n as nat));
    out
}

/// Reading what was written in little-endian order gives the number back.
pub proof fn lemma_le16(n: nat)
    requires
        n < 65536,
    ensures
        le16_octets(n).len() == 2,
        le16(le16_octets(n), 0) == n,
{
}

/// Reading what was written in little-endian order gives the number back.
pub proof fn lemma_le32(n: nat)
    requires
        n < 0x1_0000_0000,
    ensures
        le32_octets(n).len() == 4,
        le32(le32_octets(n), 0) == n,
{
    let low = n % 65536;
    let high = n / 65536;
    assert(le16(le32_octets(n), 0) == low);
    assert(le16(le32_octets(n), 2) == high);
}

/// Reading what was written in network order gives the number back.
pub proof fn lemma_be16(n: nat)
    requires
        n < 65536,
    ensures
        be16_octets(n).len() == 2,
        be16(be16_octets(n), 0) == n,
{
}

/// Reading what was written in network order gives the number back.
pub proof fn lemma_be32(n: nat)
    requires
        n < 0x1_0000_0000,
    ensures
        be32_octets(n).len() == 4,
        be32(be32_octets(n), 0) == n,
{
    assert(be16(be32_octets(n), 0) == n / 65536);
    assert(be16(be32_octets(n), 2) == n % 65536);
}

/// Reading what was written in host order gives the number back.
pub proof fn lemma_ne16(n: nat)
    requires
        n < 65536,
    ensures
        ne16_octets(n).len() == 2,
        ne16(ne16_octets(n), 0) == n,
{
    lemma_le16(n);
    lemma_be16(n);
}

/// Reading what was written in host order gives the number back.
pub proof fn lemma_ne32(n: nat)
    requires
        n < 0x1_0000_0000,
    ensures
        ne32_octets(n).len() == 4,
        ne32(ne32_octets(n), 0) == n,
{
    lemma_le32(n);
    lemma_be32(n);
}

/// The signed number with the given two's complement representation.
pub open spec fn signed32(n: nat) -> int {
    if n < 0x8000_0000 {
        n as int
    } else {
        n - 0x1_0000_0000
    }
}

/// The two's complement representation of a signed number.
pub open spec fn unsigned32(n: int) -> nat {
    if n < 0 {
        (n + 0x1_0000_0000) as nat
    } else {
        n as nat
    }
}

/// The signed number with the given two's complement representation.
pub fn to_signed(n: u32) -> (r: i32)
    ensures
        r == signed32(n as nat),
{
    if n < 0x8000_0000 {
        n as i32
    } else {
        (n as i64 - 0x1_0000_0000) as i32
    }
}

/// The two's complement representation of a signed number.
pub fn to_unsigned(n: i32) -> (r: u32)
    ensures
        r == unsigned32(n as int),
{
    if n < 0 {
        (n as i64 + 0x1_0000_0000) as u32
    } else {
        n as u32
    }
}

/// Appends the octets of a slice.
pub fn append_octets(out: &mut Vec<u8>, octets: &[u8])
    ensures
        final(out)@ == old(out)@ + octets@,
{
    let mut i: usize = 0;
    assert(octets@.take(0) =~= Seq::<u8>::empty());
    assert(out@ =~= old(out)@ + octets@.take(0));
    while i < octets.len()
        invariant
            i <= octets@.len(),
            out@ == old(out)@ + octets@.take(i as int),
        decreases octets@.len() - i,
    {
        out.push(octets[i]);
        i = i + 1;
        assert(octets@.take(i as int) =~= octets@.take(i - 1).push(octets@[i - 1]));
        assert(out@ =~= old(out)@ + octets@.take(i as int));
    }
    assert(octets@.take(i as int) =~= octets@);
}

/// Appends `count` zero octets.
pub fn append_zeros(out: &mut Vec<u8>, count: usize)
    ensures
        final(out)@ == old(out)@ + Seq::new(count as nat, |i: int| 0u8),
{
    let mut i: usize = 0;
    assert(out@ =~= old(out)@ + Seq::new(0, |i: int| 0u8));
    while i < count
        invariant
            i <= count,
            out@ == old(out)@ + Seq::new(i as nat, |i: int| 0u8),
        decreases count - i,
    {
        out.push(0);
        i = i + 1;
        assert(out@ =~= old(out)@ + Seq::new(i as nat, |i: int| 0u8));
    }
}

/// A copy of a part of a slice of octets.
pub fn copy_octets(octets: &[u8], start: usize, end: usize) -> (r: Vec<u8>)
    requires
        start <= end <= octets@.len(),
    ensures
        r@ == octets@.subrange(start as int, end as int),
{
    let mut out: Vec<u8> = Vec::new();
    let mut i: usize = start;
    while i < end
        invariant
            start <= i <= end <= octets@.len(),
            out@ == octets@.subrange(start as int, i as int),
        decreases end - i,
    {
        out.push(octets[i]);
        i = i + 1;
        assert(octets@.subrange(start as int, i as int) =~= octets@.subrange(
            start as int,
            i - 1,
        ).push(octets@[i - 1]));
    }
    out
}

/// Whether two slices hold the same octets.
pub fn same_octets(a: &[u8], b: &[u8]) -> (r: bool)
    ensures
        r == (a@ == b@),
{
    if a.len() != b.len() {
        return false;
    }
    let mut i: usize = 0;
    while i < a.len()
        invariant
            i <= a@.len() == b@.len(),
            forall|j: int| 0 <= j < i ==> a@[j] == b@[j],
        decreases a@.len() - i,
    {
        if a[i] != b[i] {
            return false;
        }
        i = i + 1;
    }
    assert(a@ =~= b@);
    true
}

/// The octets before the first zero octet.
pub open spec fn until_zero(s: Seq<u8>) -> Seq<u8>
    decreases s.len(),
{
    if s.len() == 0 || s[0] == 0 {
        Seq::empty()
    } else {
        seq![s[0]] + until_zero(s.skip(1))
    }
}

/// Copies the octets before the first zero octet.
pub fn copy_until_zero(octets: &[u8]) -> (r: Vec<u8>)
    ensures
        r@ == until_zero(octets@),
{
    let mut out: Vec<u8> = Vec::new();
    let mut i: usize = 0;
    assert(octets@.skip(0) =~= octets@);
    assert(out@ + until_zero(octets@) =~= until_zero(octets@));
    while i < octets.len() && octets[i] != 0
        invariant
            i <= octets@.len(),
            out@ + until_zero(octets@.skip(i as int)) == until_zero(octets@),
        decreases octets@.len() - i,
    {
        let ghost rest = octets@.skip(i as int);
        let ghost before = out@;
        out.push(octets[i]);
        i = i + 1;
        assert(rest.skip(1) =~= octets@.skip(i as int));
        assert(before + until_zero(rest) =~= out@ + until_zero(octets@.skip(i as int)));
    }
    let ghost rest = octets@.skip(i as int);
    assert(i < octets@.len() ==> rest[0] == octets@[i as int]);
    assert(until_zero(rest) =~= Seq::<u8>::empty());
    assert(out@ + until_zero(rest) =~= out@);
    out
}

} // verus!
