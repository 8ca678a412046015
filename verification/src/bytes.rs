//! Little-endian byte encodings shared by the binary formats.
use vstd::prelude::*;

verus! {

/// The little-endian value of the four bytes of `b` that start at `at`.
pub open spec fn le32(b: Seq<u8>, at: int) -> u32 {
    le32_of(b[at], b[at + 1], b[at + 2], b[at + 3])
}

/// The `u32` whose little-endian bytes are `b0`, `b1`, `b2`, `b3`.
pub open spec fn le32_of(b0: u8, b1: u8, b2: u8, b3: u8) -> u32 {
    (b0 as u32) | ((b1 as u32) << 8u32) | ((b2 as u32) << 16u32) | ((b3 as u32) << 24u32)
}

/// The four little-endian bytes of `v`.
pub open spec fn le32_bytes(v: u32) -> Seq<u8> {
    seq![(v & 0xffu32) as u8, ((v >> 8u32) & 0xffu32) as u8, ((v >> 16u32) & 0xffu32) as u8, ((v >> 24u32) & 0xffu32) as u8]
}

/// Reading back the little-endian bytes of a value gives the value.
pub proof fn lemma_le32_roundtrip(v: u32)
    ensures
        le32(le32_bytes(v), 0) == v,
        le32_bytes(v).len() == 4,
{
    let b = le32_bytes(v);
    assert(le32_of((v & 0xffu32) as u8, ((v >> 8u32) & 0xffu32) as u8, ((v >> 16u32) & 0xffu32) as u8, ((v >> 24u32) & 0xffu32) as u8) == v) by (bit_vector);
}

/// Four bytes equal to the encoding of `v` read back as `v`.
pub proof fn lemma_le32_at(b: Seq<u8>, at: int, v: u32)
    requires
        0 <= at,
        at + 4 <= b.len(),
        b.subrange(at, at + 4) == le32_bytes(v),
    ensures
        le32(b, at) == v,
{
    lemma_le32_roundtrip(v);
    assert(b[at] == b.subrange(at, at + 4)[0]);
    assert(b[at + 1] == b.subrange(at, at + 4)[1]);
    assert(b[at + 2] == b.subrange(at, at + 4)[2]);
    assert(b[at + 3] == b.subrange(at, at + 4)[3]);
}

/// Encoding the value read from four bytes gives those bytes back.
pub proof fn lemma_le32_bytes_of_read(b: Seq<u8>, at: int)
    requires
        0 <= at,
        at + 4 <= b.len(),
    ensures
        le32_bytes(le32(b, at)) == b.subrange(at, at + 4),
{
    let b0 = b[at];
    let b1 = b[at + 1];
    let b2 = b[at + 2];
    let b3 = b[at + 3];
    let v = le32_of(b0, b1, b2, b3);
    assert((v & 0xffu32) as u8 == b0 && ((v >> 8u32) & 0xffu32) as u8 == b1
        && ((v >> 16u32) & 0xffu32) as u8 == b2 && ((v >> 24u32) & 0xffu32) as u8 == b3) by (bit_vector)
        requires
            v == (b0 as u32) | ((b1 as u32) << 8u32) | ((b2 as u32) << 16u32) | ((b3 as u32) << 24u32),
    ;
    assert(le32_bytes(le32(b, at)) =~= b.subrange(at, at + 4));
}

/// Appends the four little-endian bytes of `v` to `out`.
pub fn push_le32(out: &mut Vec<u8>, v: u32)
    ensures
        final(out)@ == old(out)@ + le32_bytes(v),
{
    out.push((v & 0xff) as u8);
    out.push(((v >> 8) & 0xff) as u8);
    out.push(((v >> 16) & 0xff) as u8);
    out.push(((v >> 24) & 0xff) as u8);
    assert(final(out)@ =~= old(out)@ + le32_bytes(v));
}

/// The two little-endian bytes of `v`.
pub open spec fn le16_bytes(v: u16) -> Seq<u8> {
    seq![(v & 0xffu16) as u8, ((v >> 8u16) & 0xffu16) as u8]
}

/// Appends the two little-endian bytes of `v` to `out`.
pub fn push_le16(out: &mut Vec<u8>, v: u16)
    ensures
        final(out)@ == old(out)@ + le16_bytes(v),
{
    out.push((v & 0xff) as u8);
    out.push(((v >> 8) & 0xff) as u8);
    assert(final(out)@ =~= old(out)@ + le16_bytes(v));
}

/// Appends every byte of `src` to `out`.
pub fn push_all(out: &mut Vec<u8>, src: &[u8])
    ensures
        final(out)@ == old(out)@ + src@,
{
    let ghost before = out@;
    let mut i: usize = 0;
    while i < src.len()
        invariant
            0 <= i <= src@.len(),
            out@ =~= before + src@.take(i as int),
        decreases src@.len() - i,
    {
        out.push(src[i]);
        assert(src@.take(i + 1) =~= src@.take(i as int).push(src@[i as int]));
        i = i + 1;
    }
    assert(src@.take(src@.len() as int) =~= src@);
}

/// The little-endian `u32` stored at `at` in `b`.
pub fn read_le32(b: &[u8], at: usize) -> (r: u32)
    requires
        at + 4 <= b@.len(),
    ensures
        r == le32(b@, at as int),
{
    let b0 = b[at];
    let b1 = b[at + 1];
    let b2 = b[at + 2];
    let b3 = b[at + 3];
    (b0 as u32) | ((b1 as u32) << 8u32) | ((b2 as u32) << 16u32) | ((b3 as u32) << 24u32)
}

} // verus!
