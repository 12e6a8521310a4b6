//! Big-endian integer views of byte sequences, and the helpers that read and
//! write them at a byte offset.

use vstd::prelude::*;

verus! {

/// The big-endian 16-bit value formed by two bytes.
pub open spec fn u16_of(hi: u8, lo: u8) -> u16 {
    (hi * 256 + lo) as u16
}

/// The big-endian 16-bit value read at offset `i`.
pub open spec fn u16_at(s: Seq<u8>, i: int) -> u16 {
    u16_of(s[i], s[i + 1])
}

/// The big-endian 32-bit value read at offset `i`.
pub open spec fn u32_at(s: Seq<u8>, i: int) -> u32 {
    (s[i] * 0x100_0000 + s[i + 1] * 0x1_0000 + s[i + 2] * 0x100 + s[i + 3]) as u32
}

/// High byte of a 16-bit value in big-endian order.
pub open spec fn u16_hi(v: u16) -> u8 {
    (v / 256) as u8
}

/// Low byte of a 16-bit value in big-endian order.
pub open spec fn u16_lo(v: u16) -> u8 {
    (v % 256) as u8
}

/// The four big-endian bytes of a 32-bit value.
pub open spec fn u32_be_bytes(v: u32) -> Seq<u8> {
    seq![
        (v / 0x100_0000) as u8,
        ((v / 0x1_0000) % 256) as u8,
        ((v / 256) % 256) as u8,
        (v % 256) as u8,
    ]
}

/// The two big-endian bytes of a 16-bit value.
pub open spec fn u16_be_bytes(v: u16) -> Seq<u8> {
    seq![u16_hi(v), u16_lo(v)]
}

/// Splitting a 16-bit value into its big-endian bytes and reassembling them
/// gives the value back.
pub proof fn lemma_u16_of_split(v: u16)
    ensures
        u16_of(u16_hi(v), u16_lo(v)) == v,
{
    assert(u16_hi(v) * 256 + u16_lo(v) == v) by (bit_vector);
}

/// Reads the big-endian 16-bit value at offset `i`.
pub fn read_u16_at(buf: &[u8], i: usize) -> (v: u16)
    requires
        i + 2 <= buf@.len(),
    ensures
        v == u16_at(buf@, i as int),
{
    let hi = buf[i];
    let lo = buf[i + 1];
    hi as u16 * 256 + lo as u16
}

/// Reads the big-endian 32-bit value at offset `i`.
pub fn read_u32_at(buf: &[u8], i: usize) -> (v: u32)
    requires
        i + 4 <= buf@.len(),
    ensures
        v == u32_at(buf@, i as int),
{
    let b0 = buf[i];
    let b1 = buf[i + 1];
    let b2 = buf[i + 2];
    let b3 = buf[i + 3];
    b0 as u32 * 0x100_0000 + b1 as u32 * 0x1_0000 + b2 as u32 * 0x100 + b3 as u32
}

/// Splits a 16-bit value into its big-endian bytes.
pub fn u16_to_be(v: u16) -> (r: (u8, u8))
    ensures
        r.0 == u16_hi(v),
        r.1 == u16_lo(v),
{
    ((v / 256) as u8, (v % 256) as u8)
}

} // verus!
