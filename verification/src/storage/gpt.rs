//! GUID Partition Table headers, entries and tables.

use crate::storage::crc::{crc32, crc32_byte, crc32_of, crc_fold};
use crate::storage::error::StorageError;
use crate::text::{dec_str, lowercased, push_dec, push_str, str_starts_with, str_to_lowercase, str_trim, str_trim_end_matches, str_trim_nul, strip_end, strip_start, trimmed, utf16_lossy, utf16_to_string_lossy, utf8_lossy, utf8_to_string_lossy};
use crate::wire::{le32, le64, read_array16, read_array8, read_u32_le, read_u64_le};
use vstd::prelude::*;

verus! {

/// The bytes `EFI PART`.
pub open spec fn gpt_signature() -> Seq<u8> {
    seq![69u8, 70u8, 73u8, 32u8, 80u8, 65u8, 82u8, 84u8]
}

#[derive(Debug, Clone)]
pub struct GptHeader {
    pub signature: [u8; 8],
    pub revision: u32,
    pub header_size: u32,
    pub header_crc32: u32,
    pub current_lba: u64,
    pub backup_lba: u64,
    pub first_usable_lba: u64,
    pub last_usable_lba: u64,
    pub disk_guid: [u8; 16],
    pub partition_entry_start_lba: u64,
    pub num_partition_entries: u32,
    pub partition_entry_size: u32,
    pub partition_entries_crc32: u32,
}

/// `h` holds the header fields laid out in `d`.
pub open spec fn header_fields(h: GptHeader, d: Seq<u8>) -> bool {
    &&& h.signature@ == d.subrange(0, 8)
    &&& h.revision == le32(d, 8)
    &&& h.header_size == le32(d, 12)
    &&& h.header_crc32 == le32(d, 16)
    &&& h.current_lba == le64(d, 24)
    &&& h.backup_lba == le64(d, 32)
    &&& h.first_usable_lba == le64(d, 40)
    &&& h.last_usable_lba == le64(d, 48)
    &&& h.disk_guid@ == d.subrange(56, 72)
    &&& h.partition_entry_start_lba == le64(d, 72)
    &&& h.num_partition_entries == le32(d, 80)
    &&& h.partition_entry_size == le32(d, 84)
    &&& h.partition_entries_crc32 == le32(d, 88)
}

/// What a header parse reports about data that is too short.
pub open spec fn too_short_complaint(len: nat) -> Seq<char> {
    "too short: "@ + dec_str(len) + " bytes"@
}

/// What a header parse reports about data without the GPT signature.
pub open spec fn signature_complaint(d: Seq<u8>) -> Seq<char> {
    let got = utf8_lossy(d.subrange(0, 8));
    if "<?xml"@.len() <= got.len() && got.subrange(0, "<?xml"@.len() as int) == "<?xml"@ {
        "Firehose XML response instead of GPT data: "@ + utf8_lossy(
            d.subrange(0, if d.len() < 64 { d.len() as int } else { 64 }),
        )
    } else {
        got
    }
}

/// `s` with the bytes of the header CRC field (offsets 16 to 19) zeroed.
pub open spec fn crc_field_zeroed(s: Seq<u8>) -> Seq<u8> {
    Seq::new(s.len(), |i: int| if 16 <= i < 20 { 0u8 } else { s[i] })
}

/// The header check: the declared size is at least 92 bytes, the raw data
/// holds it, and the CRC over it, with the CRC field taken as zero, matches.
pub open spec fn header_crc_ok(h: GptHeader, raw: Seq<u8>) -> bool {
    &&& 92 <= h.header_size
    &&& h.header_size <= raw.len()
    &&& crc32_of(crc_field_zeroed(raw.subrange(0, h.header_size as int))) == h.header_crc32
}

fn is_gpt_signature(s: &[u8; 8]) -> (r: bool)
    ensures
        r == (s@ == gpt_signature()),
{
    let r = s[0] == 69 && s[1] == 70 && s[2] == 73 && s[3] == 32 && s[4] == 80 && s[5] == 65
        && s[6] == 82 && s[7] == 84;
    proof {
        if r {
            assert(s@ =~= gpt_signature());
        } else {
            if s@ == gpt_signature() {
                assert(s@[0] == 69 && s@[1] == 70 && s@[2] == 73 && s@[3] == 32);
                assert(s@[4] == 80 && s@[5] == 65 && s@[6] == 82 && s@[7] == 84);
            }
        }
    }
    r
}

impl GptHeader {
    /// Parses a GPT header from the start of `data`.
    pub fn from_bytes(data: &[u8]) -> (res: Result<GptHeader, StorageError>)
        ensures
            data@.len() < 128 ==> (res matches Err(StorageError::InvalidSignature { got }) && got@
                == too_short_complaint(data@.len())),
            data@.len() >= 128 && data@.subrange(0, 8) != gpt_signature() ==> (res matches Err(
                StorageError::InvalidSignature { got },
            ) && got@ == signature_complaint(data@)),
            data@.len() >= 128 && data@.subrange(0, 8) == gpt_signature() ==> (res matches Ok(h)
                && header_fields(h, data@)),
    {
        if data.len() < 128 {
            let mut got = String::new();
            push_str(&mut got, "too short: ");
            push_dec(&mut got, data.len() as u64);
            push_str(&mut got, " bytes");
            assert(got@ =~= too_short_complaint(data@.len()));
            return Err(StorageError::InvalidSignature { got });
        }
        let signature = read_array8(data, 0);
        if !is_gpt_signature(&signature) {
            let got_str = utf8_to_string_lossy(signature.as_slice());
            if str_starts_with(got_str.as_str(), "<?xml") {
                let n = if data.len() < 64 {
                    data.len()
                } else {
                    64
                };
                let shown = utf8_to_string_lossy(slice_prefix(data, n));
                let mut got = String::new();
                push_str(&mut got, "Firehose XML response instead of GPT data: ");
                push_str(&mut got, shown.as_str());
                assert(got@ =~= signature_complaint(data@));
                return Err(StorageError::InvalidSignature { got });
            }
            return Err(StorageError::InvalidSignature { got: got_str });
        }
        Ok(GptHeader {
            signature,
            revision: read_u32_le(data, 8),
            header_size: read_u32_le(data, 12),
            header_crc32: read_u32_le(data, 16),
            current_lba: read_u64_le(data, 24),
            backup_lba: read_u64_le(data, 32),
            first_usable_lba: read_u64_le(data, 40),
            last_usable_lba: read_u64_le(data, 48),
            disk_guid: read_array16(data, 56),
            partition_entry_start_lba: read_u64_le(data, 72),
            num_partition_entries: read_u32_le(data, 80),
            partition_entry_size: read_u32_le(data, 84),
            partition_entries_crc32: read_u32_le(data, 88),
        })
    }

    /// Checks the header CRC over the first `header_size` bytes of
    /// `raw_header`, with the CRC field itself counted as zeros.
    pub fn verify_header_crc(&self, raw_header: &[u8]) -> (r: bool)
        ensures
            r == header_crc_ok(*self, raw_header@),
    {
        if self.header_size < 92 || (raw_header.len() as u64) < (self.header_size as u64) {
            return false;
        }
        let hdr_size = self.header_size as usize;
        let ghost z = crc_field_zeroed(raw_header@.subrange(0, hdr_size as int));
        let mut crc: u32 = 0xFFFF_FFFF;
        let mut i: usize = 0;
        while i < hdr_size
            invariant
                i <= hdr_size <= raw_header@.len(),
                z == crc_field_zeroed(raw_header@.subrange(0, hdr_size as int)),
                crc == crc_fold(z.subrange(0, i as int)),
            decreases hdr_size - i,
        {
            let b: u8 = if 16 <= i && i < 20 {
                0
            } else {
                raw_header[i]
            };
            assert(z.subrange(0, i + 1).drop_last() =~= z.subrange(0, i as int));
            crc = crc32_byte(crc, b);
            i = i + 1;
        }
        assert(z.subrange(0, hdr_size as int) =~= z);
        (crc ^ 0xFFFF_FFFF) == self.header_crc32
    }
}

/// The first `n` bytes of `d`.
pub fn slice_prefix(d: &[u8], n: usize) -> (r: &[u8])
    requires
        n <= d@.len(),
    ensures
        r@ == d@.subrange(0, n as int),
{
    d.split_at(n).0
}

/// The `n` bytes of `d` from offset `o`.
pub fn slice_range(d: &[u8], o: usize, n: usize) -> (r: &[u8])
    requires
        o + n <= d@.len(),
    ensures
        r@ == d@.subrange(o as int, o + n),
{
    let tail = d.split_at(o).1;
    let r = tail.split_at(n).0;
    assert(r@ =~= d@.subrange(o as int, o + n));
    r
}


/// The little-endian UTF-16 units of `s`, up to the first zero unit.
pub open spec fn units_to_nul(s: Seq<u8>) -> Seq<u16>
    decreases s.len(),
{
    if s.len() < 2 {
        seq![]
    } else {
        let u = (s[0] + 256 * s[1]) as u16;
        if u == 0 {
            seq![]
        } else {
            seq![u] + units_to_nul(s.subrange(2, s.len() as int))
        }
    }
}

/// Decodes a NUL-terminated little-endian UTF-16 name.
pub fn decode_utf16le(data: &[u8]) -> (r: String)
    ensures
        r@ == utf16_lossy(units_to_nul(data@)),
{
    let mut units: Vec<u16> = Vec::new();
    let mut i: usize = 0;
    let len = data.len();
    assert(data@.subrange(0, len as int) =~= data@);
    assert(units@ + units_to_nul(data@) =~= units_to_nul(data@));
    while i < len && len - i >= 2
        invariant
            len == data@.len(),
            i <= len,
            units_to_nul(data@) == units@ + units_to_nul(data@.subrange(i as int, len as int)),
        decreases len - i,
    {
        let u: u16 = (data[i] as u16) + (data[i + 1] as u16) * 256;
        let ghost rest = data@.subrange(i as int, len as int);
        assert(rest[0] == data@[i as int] && rest[1] == data@[i + 1]);
        if u == 0 {
            assert(units_to_nul(rest) =~= Seq::<u16>::empty());
            assert(units@ + Seq::<u16>::empty() =~= units@);
            return utf16_to_string_lossy(units.as_slice());
        }
        assert(rest.subrange(2, rest.len() as int) =~= data@.subrange(i + 2, len as int));
        units.push(u);
        i = i + 2;
        assert(units_to_nul(data@) =~= units@ + units_to_nul(data@.subrange(i as int, len as int)));
    }
    assert(units_to_nul(data@.subrange(i as int, len as int)) =~= Seq::<u16>::empty());
    assert(units@ + Seq::<u16>::empty() =~= units@);
    utf16_to_string_lossy(units.as_slice())
}

#[derive(Debug, Clone)]
pub struct GptEntry {
    pub name: String,
    pub type_guid: [u8; 16],
    pub unique_guid: [u8; 16],
    pub first_lba: u64,
    pub last_lba: u64,
    pub attributes: u64,
    pub physical_partition: u8,
}

/// `e` holds the partition entry laid out in `d`, read from LUN `pp`.
pub open spec fn entry_fields(e: GptEntry, d: Seq<u8>, pp: u8) -> bool {
    &&& e.type_guid@ == d.subrange(0, 16)
    &&& e.unique_guid@ == d.subrange(16, 32)
    &&& e.first_lba == le64(d, 32)
    &&& e.last_lba == le64(d, 40)
    &&& e.attributes == le64(d, 48)
    &&& e.name@ == utf16_lossy(units_to_nul(d.subrange(56, 128)))
    &&& e.physical_partition == pp
}

/// Sixteen zero bytes: the type GUID of an unused entry.
pub open spec fn zero_guid() -> Seq<u8> {
    Seq::new(16, |i: int| 0u8)
}

/// The number of sectors an entry spans.
pub open spec fn entry_sectors(e: GptEntry) -> int {
    e.last_lba - e.first_lba + 1
}

impl GptEntry {
    /// Parses a 128-byte partition entry.
    pub fn from_bytes(data: &[u8], physical_partition: u8) -> (res: Result<GptEntry, StorageError>)
        ensures
            data@.len() < 128 ==> (res matches Err(StorageError::InvalidEntry { index }) && index
                == 0),
            data@.len() >= 128 ==> (res matches Ok(e) && entry_fields(e, data@, physical_partition)),
    {
        if data.len() < 128 {
            return Err(StorageError::InvalidEntry { index: 0 });
        }
        let type_guid = read_array16(data, 0);
        let unique_guid = read_array16(data, 16);
        let first_lba = read_u64_le(data, 32);
        let last_lba = read_u64_le(data, 40);
        let attributes = read_u64_le(data, 48);
        let name = decode_utf16le(slice_range(data, 56, 72));
        Ok(GptEntry {
            name,
            type_guid,
            unique_guid,
            first_lba,
            last_lba,
            attributes,
            physical_partition,
        })
    }

    /// Size of the partition in bytes.
    pub fn size_bytes(&self, sector_size: u32) -> (r: u64)
        requires
            self.first_lba <= self.last_lba,
            self.last_lba - self.first_lba < u64::MAX,
            entry_sectors(*self) * sector_size <= u64::MAX,
        ensures
            r == entry_sectors(*self) * sector_size,
    {
        let sectors = self.last_lba - self.first_lba + 1;
        assert(sectors * sector_size <= u64::MAX);
        sectors * (sector_size as u64)
    }

    /// Size of the partition in whole KiB.
    pub fn size_kb(&self, sector_size: u32) -> (r: u64)
        requires
            self.first_lba <= self.last_lba,
            self.last_lba - self.first_lba < u64::MAX,
            entry_sectors(*self) * sector_size <= u64::MAX,
        ensures
            r == entry_sectors(*self) * sector_size / 1024,
    {
        self.size_bytes(sector_size) / 1024
    }

    /// An entry whose type GUID is all zeros is unused.
    pub fn is_empty(&self) -> (r: bool)
        ensures
            r == (self.type_guid@ == zero_guid()),
    {
        let mut i: usize = 0;
        while i < 16
            invariant
                i <= 16,
                forall|k: int| 0 <= k < i ==> self.type_guid@[k] == 0,
            decreases 16 - i,
        {
            if self.type_guid[i] != 0 {
                assert(self.type_guid@[i as int] != zero_guid()[i as int]);
                return false;
            }
            i = i + 1;
        }
        assert(self.type_guid@ =~= zero_guid());
        true
    }
}


#[derive(Debug, Clone)]
pub struct GptTable {
    pub primary_valid: bool,
    pub backup_valid: bool,
    pub header: Option<GptHeader>,
    pub entries: Vec<GptEntry>,
    pub physical_partition: u8,
    pub sector_size: u32,
}

/// The `es` bytes of entry `i` in `d`.
pub open spec fn entry_chunk(d: Seq<u8>, i: int, es: int) -> Seq<u8> {
    d.subrange(i * es, i * es + es)
}

/// How many entries of size `es` a table of `num` entries finds whole in
/// `len` bytes.
pub open spec fn whole_entries(num: nat, es: nat, len: nat) -> nat {
    if es == 0 || num <= len / es {
        num
    } else {
        len / es
    }
}

/// The entries a table reads are those that fit whole: entry `i` is read
/// exactly when `i` is below the header's count and the entry's bytes end
/// within the data.
pub proof fn lemma_whole_entries(num: nat, es: nat, len: nat, i: nat)
    requires
        es > 0,
    ensures
        i < whole_entries(num, es, len) <==> i < num && (i + 1) * es <= len,
{
    assert((i + 1) * es <= len <==> i < len / es) by (nonlinear_arith)
        requires
            es > 0,
    ;
}

/// The entries a table keeps, among the first `count`: in ascending order,
/// exactly those whose type GUID is not all zeros.
pub proof fn lemma_used_entries(d: Seq<u8>, es: int, count: nat)
    ensures
        forall|a: int, b: int|
            0 <= a < b < used_entries(d, es, count).len() ==> used_entries(d, es, count)[a] < used_entries(
                d,
                es,
                count,
            )[b],
        forall|k: int|
            0 <= k < used_entries(d, es, count).len() ==> 0 <= #[trigger] used_entries(d, es, count)[k] < count
                && entry_chunk(d, used_entries(d, es, count)[k], es).subrange(0, 16) != zero_guid(),
        forall|i: int|
            0 <= i < count && entry_chunk(d, i, es).subrange(0, 16) != zero_guid() ==> #[trigger] used_entries(
                d,
                es,
                count,
            ).contains(i),
    decreases count,
{
    if count > 0 {
        let prev = used_entries(d, es, (count - 1) as nat);
        lemma_used_entries(d, es, (count - 1) as nat);
        let cur = used_entries(d, es, count);
        assert forall|i: int|
            0 <= i < count && entry_chunk(d, i, es).subrange(0, 16) != zero_guid() implies #[trigger] cur.contains(i) by {
            if i < count - 1 {
                assert(prev.contains(i));
                let k = choose|k: int| 0 <= k < prev.len() && prev[k] == i;
                assert(cur[k] == i);
            } else {
                assert(cur[cur.len() - 1] == i);
            }
        }
    }
}

/// A table's header check is the check of the header it parses to: where
/// `h` is what `GptHeader::from_bytes` reads from `d`, the table is refused
/// for its CRC exactly when `h.verify_header_crc(d)` fails.
pub proof fn lemma_header_check_agrees(h: GptHeader, d: Seq<u8>)
    requires
        header_fields(h, d),
    ensures
        header_crc_ok(h, d) == raw_header_crc_ok(d),
{
}

/// A table keeps an entry chunk exactly when the entry
/// `GptEntry::from_bytes` reads from it is not empty.
pub proof fn lemma_kept_entry_not_empty(e: GptEntry, chunk: Seq<u8>, pp: u8)
    requires
        chunk.len() >= 128,
        entry_fields(e, chunk, pp),
    ensures
        (e.type_guid@ == zero_guid()) == (chunk.subrange(0, 16) == zero_guid()),
{
}

/// The indices, below `count`, of the entries in `d` that are in use.
pub open spec fn used_entries(d: Seq<u8>, es: int, count: nat) -> Seq<int>
    decreases count,
{
    if count == 0 {
        seq![]
    } else {
        let prev = used_entries(d, es, (count - 1) as nat);
        if entry_chunk(d, count - 1, es).subrange(0, 16) == zero_guid() {
            prev
        } else {
            prev.push(count - 1)
        }
    }
}

/// `entries` are the used entries among the first `count` of size `es` in
/// `d`, in order.
pub open spec fn entries_parsed(entries: Seq<GptEntry>, d: Seq<u8>, es: int, count: nat, pp: u8) -> bool {
    let used = used_entries(d, es, count);
    &&& entries.len() == used.len()
    &&& forall|k: int|
        0 <= k < used.len() ==> entry_fields(#[trigger] entries[k], entry_chunk(d, used[k], es), pp)
}

/// The header check stated over the raw header bytes.
pub open spec fn raw_header_crc_ok(d: Seq<u8>) -> bool {
    &&& 92 <= le32(d, 12)
    &&& le32(d, 12) <= d.len()
    &&& crc32_of(crc_field_zeroed(d.subrange(0, le32(d, 12)))) == le32(d, 16)
}

/// `d` starts with a header that parses.
pub open spec fn header_parses(d: Seq<u8>) -> bool {
    d.len() >= 128 && d.subrange(0, 8) == gpt_signature()
}

proof fn lemma_whole_entries_step(i: nat, num: nat, es: nat, len: nat)
    requires
        i <= num,
        i * es <= len,
        !(i < num && i * es + es <= len),
    ensures
        whole_entries(num, es, len) == i,
{
    if es > 0 {
        if i < num {
            assert(len < (i + 1) * es) by (nonlinear_arith)
                requires
                    i * es + es > len,
            ;
            assert(len / es < i + 1) by (nonlinear_arith)
                requires
                    len < (i + 1) * es,
                    es > 0,
            ;
            assert(i <= len / es) by (nonlinear_arith)
                requires
                    i * es <= len,
                    es > 0,
            ;
        } else {
            assert(num <= len / es) by (nonlinear_arith)
                requires
                    num * es <= len,
                    es > 0,
            ;
        }
    }
}

proof fn lemma_whole_entries_more(i: nat, num: nat, es: nat, len: nat)
    requires
        i < num,
        i * es + es <= len,
    ensures
        whole_entries(num, es, len) > i,
{
    if es > 0 && num > len / es {
        assert((i + 1) * es <= len) by (nonlinear_arith)
            requires
                i * es + es <= len,
        ;
        assert(i + 1 <= len / es) by (nonlinear_arith)
            requires
                (i + 1) * es <= len,
                es > 0,
        ;
    }
}

impl GptTable {
    /// An empty table for LUN 0 with 512-byte sectors.
    pub fn new() -> (t: Self)
        ensures
            !t.primary_valid,
            !t.backup_valid,
            t.header is None,
            t.entries@.len() == 0,
            t.physical_partition == 0,
            t.sector_size == 512,
    {
        GptTable {
            primary_valid: false,
            backup_valid: false,
            header: None,
            entries: Vec::new(),
            physical_partition: 0,
            sector_size: 512,
        }
    }

    /// Parses a table from the header sector (`lba1_data`) and the entry
    /// array (`entries_data`), which may be empty or hold only part of it.
    pub fn parse(lba1_data: &[u8], entries_data: &[u8], physical_partition: u8, sector_size: u32) -> (res: Result<GptTable, StorageError>)
        ensures
            lba1_data@.len() < 128 ==> (res matches Err(StorageError::InvalidSignature { got })
                && got@ == too_short_complaint(lba1_data@.len())),
            lba1_data@.len() >= 128 && lba1_data@.subrange(0, 8) != gpt_signature() ==> (res matches Err(
                StorageError::InvalidSignature { got },
            ) && got@ == signature_complaint(lba1_data@)),
            header_parses(lba1_data@) && !raw_header_crc_ok(lba1_data@) ==> (res matches Err(
                StorageError::CrcMismatch { primary, expected, actual },
            ) && primary && expected == le32(lba1_data@, 16) && actual == crc32_of(lba1_data@)),
            header_parses(lba1_data@) && raw_header_crc_ok(lba1_data@) && le32(lba1_data@, 84) < 128
                && whole_entries(le32(lba1_data@, 80) as nat, le32(lba1_data@, 84) as nat, entries_data@.len()) > 0
                ==> (res matches Err(StorageError::InvalidEntry { index }) && index == 0),
            header_parses(lba1_data@) && raw_header_crc_ok(lba1_data@) && (le32(lba1_data@, 84) >= 128
                || whole_entries(le32(lba1_data@, 80) as nat, le32(lba1_data@, 84) as nat, entries_data@.len()) == 0)
                ==> (res matches Ok(t) && t.primary_valid && !t.backup_valid
                    && (t.header matches Some(h) && header_fields(h, lba1_data@))
                    && t.physical_partition == physical_partition && t.sector_size == sector_size
                    && entries_parsed(t.entries@, entries_data@, le32(lba1_data@, 84),
                        whole_entries(le32(lba1_data@, 80) as nat, le32(lba1_data@, 84) as nat, entries_data@.len()),
                        physical_partition)),
    {
        let header = match GptHeader::from_bytes(lba1_data) {
            Ok(h) => h,
            Err(e) => return Err(e),
        };
        if !header.verify_header_crc(lba1_data) {
            return Err(StorageError::CrcMismatch {
                primary: true,
                expected: header.header_crc32,
                actual: crc32(lba1_data),
            });
        }
        let ghost d = entries_data@;
        let es: u64 = header.partition_entry_size as u64;
        let num: u64 = header.num_partition_entries as u64;
        let len: u64 = entries_data.len() as u64;
        let mut entries: Vec<GptEntry> = Vec::new();
        let mut i: u64 = 0;
        assert(used_entries(d, es as int, 0) =~= Seq::<int>::empty());
        assert(0 * es + es <= 0xFFFF_FFFF_0000_0000u64);
        while i < num && i * es + es <= len
            invariant
                es == header.partition_entry_size,
                num == header.num_partition_entries,
                len == d.len(),
                len <= usize::MAX,
                d == entries_data@,
                header_parses(lba1_data@),
                header_fields(header, lba1_data@),
                raw_header_crc_ok(lba1_data@),
                num <= 0xFFFF_FFFF,
                es <= 0xFFFF_FFFF,
                i * es + es <= 0xFFFF_FFFF_0000_0000u64,
                i <= num,
                i * es <= len,
                i > 0 ==> es >= 128,
                entries_parsed(entries@, d, es as int, i as nat, physical_partition),
            decreases num - i,
        {
            assert(i * es <= 0xFFFF_FFFFu64 * 0xFFFF_FFFFu64) by (nonlinear_arith)
                requires
                    i < num,
                    num <= 0xFFFF_FFFFu64,
                    es <= 0xFFFF_FFFFu64,
            ;
            let offset = i * es;
            assert(offset + es <= len);
            assert(len == entries_data@.len());
            let off: usize = offset as usize;
            let n: usize = es as usize;
            assert(off == offset && n == es);
            let chunk = slice_range(entries_data, off, n);
            assert(chunk@ == entry_chunk(d, i as int, es as int));
            let entry = match GptEntry::from_bytes(chunk, physical_partition) {
                Ok(e) => e,
                Err(err) => {
                    proof {
                        lemma_whole_entries_more(i as nat, num as nat, es as nat, len as nat);
                    }
                    return Err(err);
                },
            };
            let ghost prev = entries@;
            let unused = entry.is_empty();
            assert(entry.type_guid@ == entry_chunk(d, i as int, es as int).subrange(0, 16));
            if !unused {
                entries.push(entry);
            }
            assert((i + 1) * es == i * es + es) by (nonlinear_arith);
            assert((i + 1) * es + es <= 0xFFFF_FFFF_0000_0000u64) by (nonlinear_arith)
                requires
                    i < num,
                    num <= 0xFFFF_FFFFu64,
                    es <= 0xFFFF_FFFFu64,
            ;
            i = i + 1;
            proof {
                let used = used_entries(d, es as int, i as nat);
                let pused = used_entries(d, es as int, (i - 1) as nat);
                assert forall|k: int| 0 <= k < used.len() implies entry_fields(
                    #[trigger] entries@[k],
                    entry_chunk(d, used[k], es as int),
                    physical_partition,
                ) by {
                    if k < pused.len() {
                        assert(entries@[k] == prev[k]);
                        assert(used[k] == pused[k]);
                    }
                }
            }
        }
        proof {
            lemma_whole_entries_step(i as nat, num as nat, es as nat, len as nat);
        }
        Ok(GptTable {
            primary_valid: true,
            backup_valid: false,
            header: Some(header),
            entries,
            physical_partition,
            sector_size,
        })
    }
}


/// How a searched-for partition name is compared: trimmed and lowercased.
pub open spec fn search_key(name: Seq<char>) -> Seq<char> {
    lowercased(trimmed(name))
}

/// A stored entry name with surrounding whitespace and NULs removed.
pub open spec fn clean_name(name: Seq<char>) -> Seq<char> {
    trimmed(strip_end(strip_start(trimmed(name), '\0'), '\0'))
}

/// How a stored entry name is compared: cleaned and lowercased.
pub open spec fn entry_key(name: Seq<char>) -> Seq<char> {
    lowercased(clean_name(name))
}

/// The name a listing shows for an entry.
pub open spec fn listed_name(name: Seq<char>) -> Seq<char> {
    strip_end(trimmed(name), '\0')
}

/// `i` is the first of `entries` whose key is `key`.
pub open spec fn first_key_match(entries: Seq<GptEntry>, key: Seq<char>, i: int) -> bool {
    &&& 0 <= i < entries.len()
    &&& entry_key(entries[i].name@) == key
    &&& forall|j: int| 0 <= j < i ==> entry_key(#[trigger] entries[j].name@) != key
}

/// The lowercase key of a stored entry name.
pub fn entry_search_key(name: &String) -> (k: String)
    ensures
        k@ == entry_key(name@),
{
    let a = str_trim(name.as_str());
    let b = str_trim_nul(a);
    let c = str_trim(b);
    str_to_lowercase(c)
}

/// The cleaned (not lowercased) form of a stored entry name.
pub fn entry_clean_name(name: &String) -> (k: &str)
    ensures
        k@ == clean_name(name@),
{
    let a = str_trim(name.as_str());
    let b = str_trim_nul(a);
    str_trim(b)
}

impl GptTable {
    /// The first entry whose name matches `name`, ignoring case and
    /// surrounding whitespace and NULs.
    pub fn find_partition(&self, name: &str) -> (r: Option<&GptEntry>)
        ensures
            match r {
                Some(e) => exists|i: int|
                    first_key_match(self.entries@, search_key(name@), i) && *e == self.entries@[i],
                None => forall|i: int|
                    0 <= i < self.entries@.len() ==> entry_key(#[trigger] self.entries@[i].name@)
                        != search_key(name@),
            },
    {
        let key = str_to_lowercase(str_trim(name));
        let mut i: usize = 0;
        while i < self.entries.len()
            invariant
                i <= self.entries@.len(),
                key@ == search_key(name@),
                forall|j: int| 0 <= j < i ==> entry_key(#[trigger] self.entries@[j].name@) != key@,
            decreases self.entries@.len() - i,
        {
            let k = entry_search_key(&self.entries[i].name);
            if k == key {
                assert(first_key_match(self.entries@, search_key(name@), i as int));
                return Some(&self.entries[i]);
            }
            i = i + 1;
        }
        None
    }

    /// The names of the entries, trimmed and without trailing NULs.
    pub fn partition_names(&self) -> (r: Vec<&str>)
        ensures
            r@.len() == self.entries@.len(),
            forall|i: int| 0 <= i < r@.len() ==> (#[trigger] r@[i])@ == listed_name(self.entries@[i].name@),
    {
        let mut names: Vec<&str> = Vec::new();
        let mut i: usize = 0;
        while i < self.entries.len()
            invariant
                i <= self.entries@.len(),
                names@.len() == i,
                forall|j: int| 0 <= j < i ==> (#[trigger] names@[j])@ == listed_name(self.entries@[j].name@),
            decreases self.entries@.len() - i,
        {
            let n = str_trim_end_matches(str_trim(self.entries[i].name.as_str()), '\0');
            names.push(n);
            i = i + 1;
        }
        names
    }
}

impl Default for GptTable {
    fn default() -> (t: Self)
        ensures
            !t.primary_valid,
            !t.backup_valid,
            t.header is None,
            t.entries@.len() == 0,
            t.physical_partition == 0,
            t.sector_size == 512,
    {
        GptTable::new()
    }
}

} // verus!
