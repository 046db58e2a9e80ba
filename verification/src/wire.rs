//! Little-endian integers in byte sequences.

use vstd::prelude::*;

verus! {

/// The little-endian `u16` at offset `o` of `s`.
pub open spec fn le16(s: Seq<u8>, o: int) -> int {
    s[o] + 256 * s[o + 1]
}

/// The little-endian `u32` at offset `o` of `s`.
pub open spec fn le32(s: Seq<u8>, o: int) -> int {
    s[o] + 256 * s[o + 1] + 65536 * s[o + 2] + 16777216 * s[o + 3]
}

/// The little-endian `u64` at offset `o` of `s`.
pub open spec fn le64(s: Seq<u8>, o: int) -> int {
    le32(s, o) + 4294967296 * le32(s, o + 4)
}

/// The four little-endian bytes of `v`.
pub open spec fn le32_bytes(v: u32) -> Seq<u8> {
    seq![(v % 256) as u8, ((v / 256) % 256) as u8, ((v / 65536) % 256) as u8, (v / 16777216) as u8]
}

/// The eight little-endian bytes of `v`.
pub open spec fn le64_bytes(v: u64) -> Seq<u8> {
    le32_bytes((v % 4294967296) as u32) + le32_bytes((v / 4294967296) as u32)
}

pub fn read_u16_le(d: &[u8], o: usize) -> (r: u16)
    requires
        o + 2 <= d@.len(),
    ensures
        r == le16(d@, o as int),
{
    (d[o] as u16) + (d[o + 1] as u16) * 256
}

pub fn read_u32_le(d: &[u8], o: usize) -> (r: u32)
    requires
        o + 4 <= d@.len(),
    ensures
        r == le32(d@, o as int),
{
    (d[o] as u32) + (d[o + 1] as u32) * 256 + (d[o + 2] as u32) * 65536 + (d[o + 3] as u32) * 16777216
}

pub fn read_u64_le(d: &[u8], o: usize) -> (r: u64)
    requires
        o + 8 <= d@.len(),
    ensures
        r == le64(d@, o as int),
{
    let _len = d.len();
    let lo = read_u32_le(d, o);
    let hi = read_u32_le(d, o + 4);
    (lo as u64) + (hi as u64) * 4294967296
}

/// The eight bytes at offset `o`.
pub fn read_array8(d: &[u8], o: usize) -> (r: [u8; 8])
    requires
        o + 8 <= d@.len(),
    ensures
        r@ == d@.subrange(o as int, o + 8),
{
    let r = [d[o], d[o + 1], d[o + 2], d[o + 3], d[o + 4], d[o + 5], d[o + 6], d[o + 7]];
    assert(r@ =~= d@.subrange(o as int, o + 8));
    r
}

/// The sixteen bytes at offset `o`.
pub fn read_array16(d: &[u8], o: usize) -> (r: [u8; 16])
    requires
        o + 16 <= d@.len(),
    ensures
        r@ == d@.subrange(o as int, o + 16),
{
    let r = [
        d[o], d[o + 1], d[o + 2], d[o + 3], d[o + 4], d[o + 5], d[o + 6], d[o + 7],
        d[o + 8], d[o + 9], d[o + 10], d[o + 11], d[o + 12], d[o + 13], d[o + 14], d[o + 15],
    ];
    assert(r@ =~= d@.subrange(o as int, o + 16));
    r
}

/// Appends the four little-endian bytes of `v`.
pub fn push_u32_le(out: &mut Vec<u8>, v: u32)
    ensures
        final(out)@ == old(out)@ + le32_bytes(v),
{
    out.push((v % 256) as u8);
    out.push(((v / 256) % 256) as u8);
    out.push(((v / 65536) % 256) as u8);
    out.push((v / 16777216) as u8);
    assert(final(out)@ =~= old(out)@ + le32_bytes(v));
}

} // verus!
