//! Little-endian integer encoding and decoding over byte sequences.
//!
//! Every multi-byte field of the archive trailer records is stored
//! little-endian; these are the shared readers and writers, each proved
//! against a direct arithmetic statement of the layout.

use vstd::prelude::*;

verus! {

/// The 16-bit little-endian integer stored at offset `i` of `s`.
pub open spec fn le16_at(s: Seq<u8>, i: int) -> u16 {
    (s[i] + 0x100 * s[i + 1]) as u16
}

/// The 32-bit little-endian integer stored at offset `i` of `s`.
pub open spec fn le32_at(s: Seq<u8>, i: int) -> u32 {
    (s[i] + 0x100 * s[i + 1] + 0x1_0000 * s[i + 2] + 0x100_0000 * s[i + 3]) as u32
}

/// The 64-bit little-endian integer stored at offset `i` of `s`.
pub open spec fn le64_at(s: Seq<u8>, i: int) -> u64 {
    (s[i] + 0x100 * s[i + 1] + 0x1_0000 * s[i + 2] + 0x100_0000 * s[i + 3]
        + 0x1_0000_0000 * s[i + 4] + 0x100_0000_0000 * s[i + 5]
        + 0x1_0000_0000_0000 * s[i + 6] + 0x100_0000_0000_0000 * s[i + 7]) as u64
}

/// The two-byte little-endian encoding of `v`.
pub open spec fn le16_bytes(v: u16) -> Seq<u8> {
    seq![(v % 0x100) as u8, (v / 0x100) as u8]
}

/// The four-byte little-endian encoding of `v`.
pub open spec fn le32_bytes(v: u32) -> Seq<u8> {
    seq![
        (v % 0x100) as u8,
        ((v / 0x100) % 0x100) as u8,
        ((v / 0x1_0000) % 0x100) as u8,
        (v / 0x100_0000) as u8,
    ]
}

/// Reads the 16-bit little-endian integer at offset `pos`.
pub fn read_u16_at(data: &[u8], pos: usize) -> (r: u16)
    requires
        pos + 2 <= data@.len(),
    ensures
        r == le16_at(data@, pos as int),
{
    (data[pos] as u16) + 0x100 * (data[pos + 1] as u16)
}

/// Reads the 32-bit little-endian integer at offset `pos`.
pub fn read_u32_at(data: &[u8], pos: usize) -> (r: u32)
    requires
        pos + 4 <= data@.len(),
    ensures
        r == le32_at(data@, pos as int),
{
    (data[pos] as u32) + 0x100 * (data[pos + 1] as u32) + 0x1_0000 * (data[pos + 2] as u32)
        + 0x100_0000 * (data[pos + 3] as u32)
}

/// Reads the 64-bit little-endian integer at offset `pos`.
pub fn read_u64_at(data: &[u8], pos: usize) -> (r: u64)
    requires
        pos + 8 <= data@.len(),
    ensures
        r == le64_at(data@, pos as int),
{
    (data[pos] as u64) + 0x100 * (data[pos + 1] as u64) + 0x1_0000 * (data[pos + 2] as u64)
        + 0x100_0000 * (data[pos + 3] as u64) + 0x1_0000_0000 * (data[pos + 4] as u64)
        + 0x100_0000_0000 * (data[pos + 5] as u64) + 0x1_0000_0000_0000 * (data[pos + 6] as u64)
        + 0x100_0000_0000_0000 * (data[pos + 7] as u64)
}

/// Appends the two-byte little-endian encoding of `v` to `out`.
pub fn push_u16_le(out: &mut Vec<u8>, v: u16)
    ensures
        final(out)@ == old(out)@ + le16_bytes(v),
{
    out.push((v % 0x100) as u8);
    out.push((v / 0x100) as u8);
    proof {
        assert(final(out)@ =~= old(out)@ + le16_bytes(v));
    }
}

/// Appends the four-byte little-endian encoding of `v` to `out`.
pub fn push_u32_le(out: &mut Vec<u8>, v: u32)
    ensures
        final(out)@ == old(out)@ + le32_bytes(v),
{
    out.push((v % 0x100) as u8);
    out.push(((v / 0x100) % 0x100) as u8);
    out.push(((v / 0x1_0000) % 0x100) as u8);
    out.push((v / 0x100_0000) as u8);
    proof {
        assert(final(out)@ =~= old(out)@ + le32_bytes(v));
    }
}

/// Decoding inverts encoding for 16-bit values.
pub proof fn lemma_le16_roundtrip(v: u16)
    ensures
        le16_bytes(v).len() == 2,
        le16_at(le16_bytes(v), 0) == v,
{
}

/// Decoding inverts encoding for 32-bit values.
pub proof fn lemma_le32_roundtrip(v: u32)
    ensures
        le32_bytes(v).len() == 4,
        le32_at(le32_bytes(v), 0) == v,
{
    assert(le32_at(le32_bytes(v), 0) == v) by {
        assert(v % 0x100 + 0x100 * ((v / 0x100) % 0x100) + 0x1_0000 * ((v / 0x1_0000) % 0x100)
            + 0x100_0000 * (v / 0x100_0000) == v) by (bit_vector);
    }
}

} // verus!
