//! CRC-32 (IEEE 802.3, reflected polynomial 0xEDB88320) as GPT uses it.

use vstd::prelude::*;

verus! {

/// One shift of the reflected CRC-32 register.
pub open spec fn crc_step(c: u32) -> u32 {
    if c & 1 != 0 {
        0xEDB88320u32 ^ (c >> 1u32)
    } else {
        c >> 1u32
    }
}

/// `n` shifts of the register.
pub open spec fn crc_steps(c: u32, n: nat) -> u32
    decreases n,
{
    if n == 0 {
        c
    } else {
        crc_steps(crc_step(c), (n - 1) as nat)
    }
}

/// Entry `i` of the byte-wise CRC-32 table.
pub open spec fn crc_table(i: u32) -> u32 {
    crc_steps(i, 8)
}

/// The register after one byte.
pub open spec fn crc_byte(crc: u32, b: u8) -> u32 {
    crc_table((crc ^ (b as u32)) & 0xFFu32) ^ (crc >> 8u32)
}

/// The register after every byte of `s`, starting from all ones.
pub open spec fn crc_fold(s: Seq<u8>) -> u32
    decreases s.len(),
{
    if s.len() == 0 {
        0xFFFF_FFFFu32
    } else {
        crc_byte(crc_fold(s.drop_last()), s.last())
    }
}

/// The CRC-32 of `s`.
pub open spec fn crc32_of(s: Seq<u8>) -> u32 {
    crc_fold(s) ^ 0xFFFF_FFFFu32
}

/// Entry `i` of the CRC-32 table, computed by its eight shifts.
pub fn crc_table_entry(i: u32) -> (r: u32)
    ensures
        r == crc_table(i),
{
    let mut c = i;
    let mut j: u32 = 0;
    while j < 8
        invariant
            j <= 8,
            crc_steps(i, 8) == crc_steps(c, (8 - j) as nat),
        decreases 8 - j,
    {
        c = if c & 1 != 0 {
            0xEDB88320u32 ^ (c >> 1u32)
        } else {
            c >> 1u32
        };
        j = j + 1;
    }
    c
}

/// The register after one byte.
pub fn crc32_byte(crc: u32, b: u8) -> (r: u32)
    ensures
        r == crc_byte(crc, b),
{
    crc_table_entry((crc ^ (b as u32)) & 0xFFu32) ^ (crc >> 8u32)
}

proof fn lemma_fold_prefix(s: Seq<u8>, i: int)
    requires
        0 <= i < s.len(),
    ensures
        crc_fold(s.subrange(0, i + 1)) == crc_byte(crc_fold(s.subrange(0, i)), s[i]),
{
    assert(s.subrange(0, i + 1).drop_last() =~= s.subrange(0, i));
}

/// The CRC-32 of `data`.
pub fn crc32(data: &[u8]) -> (r: u32)
    ensures
        r == crc32_of(data@),
{
    let mut crc: u32 = 0xFFFF_FFFF;
    let mut i: usize = 0;
    while i < data.len()
        invariant
            i <= data@.len(),
            crc == crc_fold(data@.subrange(0, i as int)),
        decreases data@.len() - i,
    {
        proof {
            lemma_fold_prefix(data@, i as int);
        }
        crc = crc32_byte(crc, data[i]);
        i = i + 1;
    }
    assert(data@.subrange(0, data@.len() as int) =~= data@);
    crc ^ 0xFFFF_FFFF
}

} // verus!
