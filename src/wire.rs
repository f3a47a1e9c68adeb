//! Big-endian integers on the wire.

use vstd::prelude::*;

verus! {

/// The value of the big-endian 16-bit integer at `pos`.
pub open spec fn be16_at(b: Seq<u8>, pos: int) -> u16 {
    (b[pos] as int * 256 + b[pos + 1] as int) as u16
}

/// The value of the big-endian 32-bit integer at `pos`.
pub open spec fn be32_at(b: Seq<u8>, pos: int) -> u32 {
    (b[pos] as int * 16777216 + b[pos + 1] as int * 65536 + b[pos + 2] as int * 256
        + b[pos + 3] as int) as u32
}

/// The two bytes of a 16-bit integer, most significant first.
pub open spec fn be16_bytes(x: u16) -> Seq<u8> {
    seq![(x / 256) as u8, (x % 256) as u8]
}

/// The four bytes of a 32-bit integer, most significant first.
pub open spec fn be32_bytes(x: u32) -> Seq<u8> {
    seq![(x / 16777216) as u8, ((x / 65536) % 256) as u8, ((x / 256) % 256) as u8, (x % 256) as u8]
}

/// Reads the big-endian 16-bit integer at `pos`.
pub fn read_u16(b: &[u8], pos: usize) -> (r: u16)
    requires
        pos + 2 <= b@.len(),
    ensures
        r == be16_at(b@, pos as int),
{
    (b[pos] as u16) * 256 + (b[pos + 1] as u16)
}

/// Reads the big-endian 32-bit integer at `pos`.
pub fn read_u32(b: &[u8], pos: usize) -> (r: u32)
    requires
        pos + 4 <= b@.len(),
    ensures
        r == be32_at(b@, pos as int),
{
    (b[pos] as u32) * 16777216 + (b[pos + 1] as u32) * 65536 + (b[pos + 2] as u32) * 256 + (
    b[pos + 3] as u32)
}

/// Appends the two bytes of `x`, most significant first.
pub fn push_u16(v: &mut Vec<u8>, x: u16)
    ensures
        final(v)@ == old(v)@ + be16_bytes(x),
{
    v.push((x / 256) as u8);
    v.push((x % 256) as u8);
}

/// Appends the four bytes of `x`, most significant first.
pub fn push_u32(v: &mut Vec<u8>, x: u32)
    ensures
        final(v)@ == old(v)@ + be32_bytes(x),
{
    v.push((x / 16777216) as u8);
    v.push(((x / 65536) % 256) as u8);
    v.push(((x / 256) % 256) as u8);
    v.push((x % 256) as u8);
}

/// Appends all of `src` to `v`.
pub fn push_all(v: &mut Vec<u8>, src: &[u8])
    ensures
        final(v)@ == old(v)@ + src@,
{
    let ghost start = v@;
    let mut i: usize = 0;
    while i < src.len()
        invariant
            i <= src@.len(),
            v@ == start + src@.subrange(0, i as int),
        decreases src@.len() - i,
    {
        v.push(src[i]);
        i += 1;
        assert(v@ =~= start + src@.subrange(0, i as int));
    }
    assert(src@.subrange(0, i as int) =~= src@);
}

/// Encoding a 16-bit integer, then decoding its two bytes, gives it back.
pub proof fn lemma_be16_round_trip(x: u16)
    ensures
        be16_at(be16_bytes(x), 0) == x,
{
    let b = be16_bytes(x);
    assert(b[0] as int * 256 + b[1] as int == x as int);
}

} // verus!
