//! Fixed-width integers as byte sequences, in both byte orders.

use vstd::prelude::*;

verus! {

/// The two little-endian bytes of `x`.
pub open spec fn le16(x: u16) -> Seq<u8> {
    seq![(x % 0x100) as u8, (x / 0x100) as u8]
}

/// The four little-endian bytes of `x`.
pub open spec fn le32(x: u32) -> Seq<u8> {
    seq![
        (x % 0x100) as u8,
        (x / 0x100 % 0x100) as u8,
        (x / 0x1_0000 % 0x100) as u8,
        (x / 0x100_0000) as u8,
    ]
}

/// The eight little-endian bytes of `x`.
pub open spec fn le64(x: u64) -> Seq<u8> {
    le32((x % 0x1_0000_0000) as u32) + le32((x / 0x1_0000_0000) as u32)
}

/// The two big-endian bytes of `x`.
pub open spec fn be16(x: u16) -> Seq<u8> {
    seq![(x / 0x100) as u8, (x % 0x100) as u8]
}

/// The three low bytes of `x`, most significant first.
pub open spec fn be24(x: u32) -> Seq<u8> {
    seq![(x / 0x1_0000 % 0x100) as u8, (x / 0x100 % 0x100) as u8, (x % 0x100) as u8]
}

/// The four big-endian bytes of `x`.
pub open spec fn be32(x: u32) -> Seq<u8> {
    seq![
        (x / 0x100_0000) as u8,
        (x / 0x1_0000 % 0x100) as u8,
        (x / 0x100 % 0x100) as u8,
        (x % 0x100) as u8,
    ]
}

/// The eight big-endian bytes of `x`.
pub open spec fn be64(x: u64) -> Seq<u8> {
    be32((x / 0x1_0000_0000) as u32) + be32((x % 0x1_0000_0000) as u32)
}

/// The value of the two little-endian bytes of `s` that start at `i`.
pub open spec fn le16_at(s: Seq<u8>, i: int) -> int {
    s[i] + 0x100 * s[i + 1]
}

/// The value of the four little-endian bytes of `s` that start at `i`.
pub open spec fn le32_at(s: Seq<u8>, i: int) -> int {
    s[i] + 0x100 * s[i + 1] + 0x1_0000 * s[i + 2] + 0x100_0000 * s[i + 3]
}

/// The value of the eight little-endian bytes of `s` that start at `i`.
pub open spec fn le64_at(s: Seq<u8>, i: int) -> int {
    le32_at(s, i) + 0x1_0000_0000 * le32_at(s, i + 4)
}

/// The value of the two big-endian bytes of `s` that start at `i`.
pub open spec fn be16_at(s: Seq<u8>, i: int) -> int {
    0x100 * s[i] + s[i + 1]
}

/// The value of the three big-endian bytes of `s` that start at `i`.
pub open spec fn be24_at(s: Seq<u8>, i: int) -> int {
    0x1_0000 * s[i] + 0x100 * s[i + 1] + s[i + 2]
}

/// The value of the four big-endian bytes of `s` that start at `i`.
pub open spec fn be32_at(s: Seq<u8>, i: int) -> int {
    0x100_0000 * s[i] + 0x1_0000 * s[i + 1] + 0x100 * s[i + 2] + s[i + 3]
}

/// Whether `s` begins with `prefix`.
pub open spec fn begins_with(s: Seq<u8>, prefix: Seq<u8>) -> bool {
    s.len() >= prefix.len() && s.subrange(0, prefix.len() as int) == prefix
}

/// The bytes of a sequence of packets.
pub open spec fn joined(packets: Seq<Seq<u8>>) -> Seq<u8>
    decreases packets.len(),
{
    if packets.len() == 0 {
        Seq::empty()
    } else {
        joined(packets.drop_last()) + packets.last()
    }
}

/// Reading the bytes of a 16-bit value gives the value back.
pub proof fn le16_round_trip(x: u16)
    ensures
        le16_at(le16(x), 0) == x,
{
}

/// Reading the bytes of a 32-bit value gives the value back.
pub proof fn le32_round_trip(x: u32)
    ensures
        le32_at(le32(x), 0) == x,
{
}

/// Reading the bytes of a 64-bit value gives the value back.
pub proof fn le64_round_trip(x: u64)
    ensures
        le64_at(le64(x), 0) == x,
{
    let low: u32 = (x % 0x1_0000_0000) as u32;
    let high: u32 = (x / 0x1_0000_0000) as u32;
    le32_round_trip(low);
    le32_round_trip(high);
    assert(le32_at(le64(x), 0) == le32_at(le32(low), 0));
    assert(le32_at(le64(x), 4) == le32_at(le32(high), 0));
}

/// Little-endian bytes, the least significant first: as many as the width, and
/// each worth 256 times the one before it.
#[verifier::spinoff_prover]
pub proof fn little_endian_bytes(x: u16, y: u32, z: u64)
    ensures
        le16(x).len() == 2 && le32(y).len() == 4 && le64(z).len() == 8,
        x == le16(x)[0] + 256 * le16(x)[1],
        y == le32(y)[0] + 256 * (le32(y)[1] + 256 * (le32(y)[2] + 256 * le32(y)[3])),
        z == le64(z)[0] + 256 * (le64(z)[1] + 256 * (le64(z)[2] + 256 * (le64(z)[3] + 256 * (
        le64(z)[4] + 256 * (le64(z)[5] + 256 * (le64(z)[6] + 256 * le64(z)[7])))))),
{
    le32_round_trip(y);
    let low: u32 = (z % 0x1_0000_0000) as u32;
    let high: u32 = (z / 0x1_0000_0000) as u32;
    le32_round_trip(low);
    le32_round_trip(high);
    assert(le64(z) =~= seq![
        le32(low)[0],
        le32(low)[1],
        le32(low)[2],
        le32(low)[3],
        le32(high)[0],
        le32(high)[1],
        le32(high)[2],
        le32(high)[3],
    ]);
}

/// Big-endian bytes, the most significant first: as many as the width, and
/// each worth 256 times the one behind it. Of 24 bits the lower ones count.
#[verifier::spinoff_prover]
pub proof fn big_endian_bytes(x: u16, t: u32, y: u32, z: u64)
    ensures
        be16(x).len() == 2 && be24(t).len() == 3 && be32(y).len() == 4 && be64(z).len() == 8,
        x == 256 * be16(x)[0] + be16(x)[1],
        t % 0x100_0000 == 256 * (256 * be24(t)[0] + be24(t)[1]) + be24(t)[2],
        y == 256 * (256 * (256 * be32(y)[0] + be32(y)[1]) + be32(y)[2]) + be32(y)[3],
        z == 256 * (256 * (256 * (256 * (256 * (256 * (256 * be64(z)[0] + be64(z)[1]) + be64(z)[2])
            + be64(z)[3]) + be64(z)[4]) + be64(z)[5]) + be64(z)[6]) + be64(z)[7],
{
    lemma_be24_sum(t);
    lemma_be32_sum(y);
    lemma_be64_sum(z);
}

proof fn lemma_be24_sum(t: u32)
    ensures
        t % 0x100_0000 == 0x1_0000 * be24(t)[0] + 0x100 * be24(t)[1] + be24(t)[2],
{
    let q: int = t as int / 0x1_0000;
    let r: int = t as int / 0x100;
    assert(t == 0x100 * r + t as int % 0x100);
    assert(r == 0x100 * q + r % 0x100);
    assert(q == 0x100 * (q / 0x100) + q % 0x100);
}

proof fn lemma_be32_sum(y: u32)
    ensures
        y == 0x100_0000 * be32(y)[0] + 0x1_0000 * be32(y)[1] + 0x100 * be32(y)[2] + be32(y)[3],
{
    assert(y / 0x1_0000 == (y / 0x100_0000) * 0x100 + y / 0x1_0000 % 0x100);
    assert(y / 0x100 == (y / 0x1_0000) * 0x100 + y / 0x100 % 0x100);
}

#[verifier::spinoff_prover]
proof fn lemma_be64_sum(z: u64)
    ensures
        z == 0x1_0000_0000 * (0x100_0000 * be64(z)[0] + 0x1_0000 * be64(z)[1] + 0x100 * be64(z)[2]
            + be64(z)[3]) + 0x100_0000 * be64(z)[4] + 0x1_0000 * be64(z)[5] + 0x100 * be64(z)[6]
            + be64(z)[7],
{
    let low: u32 = (z % 0x1_0000_0000) as u32;
    let high: u32 = (z / 0x1_0000_0000) as u32;
    lemma_be32_sum(low);
    lemma_be32_sum(high);
    let s = be64(z);
    let h = be32(high);
    let l = be32(low);
    assert(s[0] == h[0] && s[1] == h[1] && s[2] == h[2] && s[3] == h[3]);
    assert(s[4] == l[0] && s[5] == l[1] && s[6] == l[2] && s[7] == l[3]);
    assert(z == 0x1_0000_0000 * high + low);
}

/// Fields of a byte sequence are read in the byte order that they are named
/// for.
pub proof fn fields_are_read_in_order(s: Seq<u8>, i: int)
    ensures
        le16_at(s, i) == s[i] + 256 * s[i + 1],
        le32_at(s, i) == s[i] + 256 * (s[i + 1] + 256 * (s[i + 2] + 256 * s[i + 3])),
        le64_at(s, i) == s[i] + 256 * (s[i + 1] + 256 * (s[i + 2] + 256 * (s[i + 3] + 256 * (s[i
            + 4] + 256 * (s[i + 5] + 256 * (s[i + 6] + 256 * s[i + 7])))))),
        be16_at(s, i) == 256 * s[i] + s[i + 1],
        be24_at(s, i) == 256 * (256 * s[i] + s[i + 1]) + s[i + 2],
        be32_at(s, i) == 256 * (256 * (256 * s[i] + s[i + 1]) + s[i + 2]) + s[i + 3],
{
}

/// A big-endian value that stands somewhere is read back there.
pub proof fn be32_round_trip(y: u32, before: Seq<u8>, after: Seq<u8>)
    ensures
        be32_at(before + be32(y) + after, before.len() as int) == y,
{
    let s = before + be32(y) + after;
    let i = before.len() as int;
    lemma_be32_sum(y);
    assert(s[i] == be32(y)[0] && s[i + 1] == be32(y)[1] && s[i + 2] == be32(y)[2] && s[i + 3]
        == be32(y)[3]);
}

/// Appends `data` to `out`.
pub fn put_slice(out: &mut Vec<u8>, data: &[u8])
    ensures
        final(out)@ == old(out)@ + data@,
{
    out.extend_from_slice(data);
    assert(out@ =~= old(out)@ + data@);
}

/// Appends the two little-endian bytes of `x`.
pub fn put_le16(out: &mut Vec<u8>, x: u16)
    ensures
        final(out)@ == old(out)@ + le16(x),
{
    out.push((x % 0x100) as u8);
    out.push((x / 0x100) as u8);
}

/// Appends the four little-endian bytes of `x`.
pub fn put_le32(out: &mut Vec<u8>, x: u32)
    ensures
        final(out)@ == old(out)@ + le32(x),
{
    out.push((x % 0x100) as u8);
    out.push((x / 0x100 % 0x100) as u8);
    out.push((x / 0x1_0000 % 0x100) as u8);
    out.push((x / 0x100_0000) as u8);
}

/// Appends the eight little-endian bytes of `x`.
pub fn put_le64(out: &mut Vec<u8>, x: u64)
    ensures
        final(out)@ == old(out)@ + le64(x),
{
    put_le32(out, (x % 0x1_0000_0000) as u32);
    put_le32(out, (x / 0x1_0000_0000) as u32);
}

/// Appends the two big-endian bytes of `x`.
pub fn put_be16(out: &mut Vec<u8>, x: u16)
    ensures
        final(out)@ == old(out)@ + be16(x),
{
    out.push((x / 0x100) as u8);
    out.push((x % 0x100) as u8);
}

/// Appends the three low bytes of `x`, most significant first.
pub fn put_be24(out: &mut Vec<u8>, x: u32)
    ensures
        final(out)@ == old(out)@ + be24(x),
{
    out.push((x / 0x1_0000 % 0x100) as u8);
    out.push((x / 0x100 % 0x100) as u8);
    out.push((x % 0x100) as u8);
}

/// Appends the four big-endian bytes of `x`.
pub fn put_be32(out: &mut Vec<u8>, x: u32)
    ensures
        final(out)@ == old(out)@ + be32(x),
{
    out.push((x / 0x100_0000) as u8);
    out.push((x / 0x1_0000 % 0x100) as u8);
    out.push((x / 0x100 % 0x100) as u8);
    out.push((x % 0x100) as u8);
}

/// Appends the eight big-endian bytes of `x`.
pub fn put_be64(out: &mut Vec<u8>, x: u64)
    ensures
        final(out)@ == old(out)@ + be64(x),
{
    put_be32(out, (x / 0x1_0000_0000) as u32);
    put_be32(out, (x % 0x1_0000_0000) as u32);
}

/// The value of the two little-endian bytes at `i`.
pub fn get_le16(data: &[u8], i: usize) -> (x: u16)
    requires
        i + 2 <= data@.len(),
    ensures
        x == le16_at(data@, i as int),
{
    data[i] as u16 + 0x100 * (data[i + 1] as u16)
}

/// The value of the four little-endian bytes at `i`.
pub fn get_le32(data: &[u8], i: usize) -> (x: u32)
    requires
        i + 4 <= data@.len(),
    ensures
        x == le32_at(data@, i as int),
{
    data[i] as u32 + 0x100 * (data[i + 1] as u32) + 0x1_0000 * (data[i + 2] as u32) + 0x100_0000
        * (data[i + 3] as u32)
}

/// The value of the eight little-endian bytes at `i`.
pub fn get_le64(data: &[u8], i: usize) -> (x: u64)
    requires
        i + 8 <= data@.len(),
    ensures
        x == le64_at(data@, i as int),
{
    assert(data.len() == data@.len());
    let low: u32 = get_le32(data, i);
    let high: u32 = get_le32(data, i + 4);
    low as u64 + 0x1_0000_0000 * (high as u64)
}

/// The value of the two big-endian bytes at `i`.
pub fn get_be16(data: &[u8], i: usize) -> (x: u16)
    requires
        i + 2 <= data@.len(),
    ensures
        x == be16_at(data@, i as int),
{
    0x100 * (data[i] as u16) + data[i + 1] as u16
}

/// The value of the three big-endian bytes at `i`.
pub fn get_be24(data: &[u8], i: usize) -> (x: u32)
    requires
        i + 3 <= data@.len(),
    ensures
        x == be24_at(data@, i as int),
{
    0x1_0000 * (data[i] as u32) + 0x100 * (data[i + 1] as u32) + data[i + 2] as u32
}

/// The value of the four big-endian bytes at `i`.
pub fn get_be32(data: &[u8], i: usize) -> (x: u32)
    requires
        i + 4 <= data@.len(),
    ensures
        x == be32_at(data@, i as int),
{
    0x100_0000 * (data[i] as u32) + 0x1_0000 * (data[i + 1] as u32) + 0x100 * (data[i + 2] as u32)
        + data[i + 3] as u32
}

/// Whether `data` begins with `prefix`.
pub fn starts_with(data: &[u8], prefix: &[u8]) -> (yes: bool)
    ensures
        yes == begins_with(data@, prefix@),
{
    if data.len() < prefix.len() {
        return false;
    }
    let mut i: usize = 0;
    while i < prefix.len()
        invariant
            i <= prefix@.len() <= data@.len(),
            forall|k: int| 0 <= k < i ==> data@[k] == prefix@[k],
        decreases prefix@.len() - i,
    {
        if data[i] != prefix[i] {
            assert(data@.subrange(0, prefix@.len() as int)[i as int] != prefix@[i as int]);
            return false;
        }
        i += 1;
    }
    assert(data@.subrange(0, prefix@.len() as int) =~= prefix@);
    true
}

} // verus!
