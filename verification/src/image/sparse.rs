//! Android sparse images: header and chunk parsing, and expansion to the
//! raw image.

use crate::image::error::ImageError;
use crate::text::{hex_str, push_hex_padded, push_str, to_owned_string, zero_pad};
use crate::wire::{le16, le32, read_u16_le, read_u32_le};
use vstd::prelude::*;

verus! {

/// The magic number that opens a sparse image.
pub const SPARSE_HEADER_MAGIC: u32 = 0xED26FF3A;

#[derive(Debug, Clone, Copy, PartialEq, Eq, Structural)]
pub enum ChunkType {
    Raw,
    Fill,
    DontCare,
    Crc32,
}

/// The code of a chunk type in a chunk header.
pub open spec fn chunk_type_code(t: ChunkType) -> u16 {
    match t {
        ChunkType::Raw => 0xCAC1,
        ChunkType::Fill => 0xCAC2,
        ChunkType::DontCare => 0xCAC3,
        ChunkType::Crc32 => 0xCAC4,
    }
}

/// The chunk type with code `v`.
pub open spec fn chunk_type_of(v: u16) -> Option<ChunkType> {
    if v == 0xCAC1 {
        Some(ChunkType::Raw)
    } else if v == 0xCAC2 {
        Some(ChunkType::Fill)
    } else if v == 0xCAC3 {
        Some(ChunkType::DontCare)
    } else if v == 0xCAC4 {
        Some(ChunkType::Crc32)
    } else {
        None
    }
}

impl ChunkType {
    pub fn from_u16(val: u16) -> (r: Option<Self>)
        ensures
            r == chunk_type_of(val),
    {
        if val == 0xCAC1 {
            Some(ChunkType::Raw)
        } else if val == 0xCAC2 {
            Some(ChunkType::Fill)
        } else if val == 0xCAC3 {
            Some(ChunkType::DontCare)
        } else if val == 0xCAC4 {
            Some(ChunkType::Crc32)
        } else {
            None
        }
    }

    /// The code of this chunk type.
    pub fn as_u16(&self) -> (r: u16)
        ensures
            r == chunk_type_code(*self),
    {
        match self {
            ChunkType::Raw => 0xCAC1,
            ChunkType::Fill => 0xCAC2,
            ChunkType::DontCare => 0xCAC3,
            ChunkType::Crc32 => 0xCAC4,
        }
    }
}

/// Every chunk type is read back from its own code.
pub proof fn lemma_chunk_type_round_trip(t: ChunkType)
    ensures
        chunk_type_of(chunk_type_code(t)) == Some(t),
{
}

#[derive(Debug, Clone, Copy)]
pub struct SparseHeader {
    pub magic: u32,
    pub major_version: u16,
    pub minor_version: u16,
    pub file_hdr_sz: u16,
    pub chunk_hdr_sz: u16,
    pub blk_sz: u32,
    pub total_blks: u32,
    pub total_chunks: u32,
    pub image_checksum: u32,
}

/// The header that the first 28 bytes of `d` encode.
pub open spec fn header_at(d: Seq<u8>) -> SparseHeader {
    SparseHeader {
        magic: le32(d, 0) as u32,
        major_version: le16(d, 4) as u16,
        minor_version: le16(d, 6) as u16,
        file_hdr_sz: le16(d, 8) as u16,
        chunk_hdr_sz: le16(d, 10) as u16,
        blk_sz: le32(d, 12) as u32,
        total_blks: le32(d, 16) as u32,
        total_chunks: le32(d, 20) as u32,
        image_checksum: le32(d, 24) as u32,
    }
}

/// The message for a wrong magic number.
pub open spec fn bad_magic_text(m: u32) -> Seq<char> {
    "invalid magic: 0x"@ + zero_pad(hex_str(m as nat, true), 8)
}

/// The message for an unknown chunk type.
pub open spec fn bad_chunk_text(v: u16) -> Seq<char> {
    "unknown chunk type: 0x"@ + zero_pad(hex_str(v as nat, true), 4)
}

fn sparse_failed(reason: String) -> (e: ImageError)
    ensures
        e matches ImageError::SparseFailed { reason: r } && r@ == reason@,
{
    ImageError::SparseFailed { reason }
}

impl SparseHeader {
    /// The size of a sparse header in bytes.
    pub const SIZE: usize = 28;

    /// Parses the header at the start of `data`.
    pub fn from_bytes(data: &[u8]) -> (r: Result<Self, ImageError>)
        ensures
            data@.len() < 28 ==> (r matches Err(ImageError::SparseFailed { reason }) && reason@
                == "header too short"@),
            data@.len() >= 28 && le32(data@, 0) != SPARSE_HEADER_MAGIC ==> (r matches Err(
                ImageError::SparseFailed { reason },
            ) && reason@ == bad_magic_text(le32(data@, 0) as u32)),
            data@.len() >= 28 && le32(data@, 0) == SPARSE_HEADER_MAGIC ==> r == Ok::<
                SparseHeader,
                ImageError,
            >(header_at(data@)),
    {
        if data.len() < 28 {
            return Err(sparse_failed(to_owned_string("header too short")));
        }
        let magic = read_u32_le(data, 0);
        if magic != SPARSE_HEADER_MAGIC {
            let mut reason = String::new();
            push_str(&mut reason, "invalid magic: 0x");
            push_hex_padded(&mut reason, magic as u64, 8, true);
            return Err(sparse_failed(reason));
        }
        Ok(SparseHeader {
            magic,
            major_version: read_u16_le(data, 4),
            minor_version: read_u16_le(data, 6),
            file_hdr_sz: read_u16_le(data, 8),
            chunk_hdr_sz: read_u16_le(data, 10),
            blk_sz: read_u32_le(data, 12),
            total_blks: read_u32_le(data, 16),
            total_chunks: read_u32_le(data, 20),
            image_checksum: read_u32_le(data, 24),
        })
    }

    /// Whether `data` starts with the sparse magic number.
    pub fn is_sparse(data: &[u8]) -> (r: bool)
        ensures
            r == (data@.len() >= 4 && le32(data@, 0) == SPARSE_HEADER_MAGIC),
    {
        if data.len() < 4 {
            return false;
        }
        read_u32_le(data, 0) == SPARSE_HEADER_MAGIC
    }
}

#[derive(Debug, Clone, Copy)]
pub struct ChunkHeader {
    pub chunk_type: ChunkType,
    /// The 32-bit field at offset 4, which this reader takes as the chunk's
    /// data size in bytes.
    pub chunk_data_sz: u32,
    pub total_sz: u32,
}

impl ChunkHeader {
    /// The size of a chunk header in bytes.
    pub const SIZE: usize = 12;

    /// Parses the chunk header at the start of `data`.
    pub fn from_bytes(data: &[u8]) -> (r: Result<Self, ImageError>)
        ensures
            data@.len() < 12 ==> (r matches Err(ImageError::SparseFailed { reason }) && reason@
                == "chunk header too short"@),
            data@.len() >= 12 && chunk_type_of(le16(data@, 0) as u16) is None ==> (r matches Err(
                ImageError::SparseFailed { reason },
            ) && reason@ == bad_chunk_text(le16(data@, 0) as u16)),
            data@.len() >= 12 && chunk_type_of(le16(data@, 0) as u16) is Some ==> r == Ok::<
                ChunkHeader,
                ImageError,
            >(
                ChunkHeader {
                    chunk_type: chunk_type_of(le16(data@, 0) as u16).unwrap(),
                    chunk_data_sz: le32(data@, 4) as u32,
                    total_sz: le32(data@, 8) as u32,
                },
            ),
    {
        if data.len() < 12 {
            return Err(sparse_failed(to_owned_string("chunk header too short")));
        }
        let v = read_u16_le(data, 0);
        match ChunkType::from_u16(v) {
            Some(chunk_type) => Ok(
                ChunkHeader { chunk_type, chunk_data_sz: read_u32_le(data, 4), total_sz: read_u32_le(data, 8) },
            ),
            None => {
                let mut reason = String::new();
                push_str(&mut reason, "unknown chunk type: 0x");
                push_hex_padded(&mut reason, v as u64, 4, true);
                Err(sparse_failed(reason))
            },
        }
    }
}

/// How expanding an image ends: with the raw bytes, with an error message,
/// or never (a don't-care chunk with data in an image whose block size is
/// zero).
pub enum SparseOutcome {
    Done(Seq<u8>),
    Failed(Seq<char>),
    Stuck,
}

/// `o` with `prefix` before its bytes.
pub open spec fn after(prefix: Seq<u8>, o: SparseOutcome) -> SparseOutcome {
    match o {
        SparseOutcome::Done(b) => SparseOutcome::Done(prefix + b),
        _ => o,
    }
}

/// How many bytes remain from `pos` on.
pub open spec fn left_at(data: Seq<u8>, pos: int) -> int {
    if pos <= data.len() {
        data.len() - pos
    } else {
        0
    }
}

/// One block of a fill chunk: the 4-byte pattern repeated over the whole
/// 4-byte groups of the block, zeros in a last partial group.
pub open spec fn fill_block(pat: Seq<u8>, blk: nat) -> Seq<u8> {
    Seq::new(blk, |i: int| if i < (blk / 4) * 4 { pat[i % 4] } else { 0u8 })
}

/// `b` repeated `n` times.
pub open spec fn repeated(b: Seq<u8>, n: nat) -> Seq<u8>
    decreases n,
{
    if n == 0 {
        seq![]
    } else {
        repeated(b, (n - 1) as nat) + b
    }
}

/// `n` zero bytes.
pub open spec fn zeros(n: nat) -> Seq<u8> {
    Seq::new(n, |i: int| 0u8)
}

/// The measure by which expansion advances.
pub open spec fn walk_measure(data: Seq<u8>, pos: int) -> int {
    if 0 <= pos <= data.len() {
        data.len() + 1 - pos
    } else {
        0
    }
}

/// The expansion of the chunks from byte `pos` on. The chunk headers are
/// `h.chunk_hdr_sz` bytes; a header that does not fit ends the image. A
/// raw chunk contributes its data bytes, a fill chunk one fill block per
/// four bytes of its size, a don't-care chunk as many zeros as its size, a
/// CRC chunk nothing (its size is skipped).
pub open spec fn chunks_from(data: Seq<u8>, h: SparseHeader, pos: int) -> SparseOutcome
    decreases walk_measure(data, pos),
{
    let hsz = h.chunk_hdr_sz as int;
    if pos < 0 || hsz > left_at(data, pos) {
        SparseOutcome::Done(seq![])
    } else if hsz < 12 {
        SparseOutcome::Failed("chunk header too short"@)
    } else {
        let code = le16(data, pos) as u16;
        let sz = le32(data, pos + 4);
        let p = pos + hsz;
        match chunk_type_of(code) {
            None => SparseOutcome::Failed(bad_chunk_text(code)),
            Some(ChunkType::Raw) => if sz > left_at(data, p) {
                SparseOutcome::Failed("failed to read raw chunk: failed to fill whole buffer"@)
            } else {
                after(data.subrange(p, p + sz), chunks_from(data, h, p + sz))
            },
            Some(ChunkType::Fill) => if 4 > left_at(data, p) {
                SparseOutcome::Failed("failed to read fill value: failed to fill whole buffer"@)
            } else {
                after(
                    repeated(fill_block(data.subrange(p, p + 4), h.blk_sz as nat), (sz / 4) as nat),
                    chunks_from(data, h, p + 4),
                )
            },
            Some(ChunkType::DontCare) => if sz > 0 && h.blk_sz == 0 {
                SparseOutcome::Stuck
            } else {
                after(zeros(sz as nat), chunks_from(data, h, p))
            },
            Some(ChunkType::Crc32) => chunks_from(data, h, p + sz),
        }
    }
}

/// A sparse header's own size is at least the 28 bytes it has.
pub open spec fn header_size_ok(data: Seq<u8>) -> bool {
    data.len() >= 28 && le32(data, 0) == SPARSE_HEADER_MAGIC ==> le16(data, 8) >= 28
}

/// The raw image that the sparse image `data` expands to. The chunks start
/// at the header's `file_hdr_sz`.
pub open spec fn sparse_expansion(data: Seq<u8>) -> SparseOutcome {
    if data.len() < 28 {
        SparseOutcome::Failed("failed to read sparse header: failed to fill whole buffer"@)
    } else if le32(data, 0) != SPARSE_HEADER_MAGIC {
        SparseOutcome::Failed(bad_magic_text(le32(data, 0) as u32))
    } else {
        chunks_from(data, header_at(data), header_at(data).file_hdr_sz as int)
    }
}

/// Two outcomes end the same way: both with bytes, both never, or both
/// with the same message.
pub open spec fn same_end(a: SparseOutcome, b: SparseOutcome) -> bool {
    match (a, b) {
        (SparseOutcome::Done(_), SparseOutcome::Done(_)) => true,
        (SparseOutcome::Failed(x), SparseOutcome::Failed(y)) => x == y,
        (SparseOutcome::Stuck, SparseOutcome::Stuck) => true,
        _ => false,
    }
}

proof fn lemma_after_after(a: Seq<u8>, b: Seq<u8>, o: SparseOutcome)
    ensures
        after(a, after(b, o)) == after(a + b, o),
        same_end(after(b, o), o),
{
    match o {
        SparseOutcome::Done(x) => {
            assert(a + (b + x) =~= (a + b) + x);
        },
        _ => {},
    }
}

/// How a walk over the chunks ended.
enum Walk {
    Done(Vec<u8>),
    Failed(String),
    Stuck,
}

/// Appends `data[lo..hi]`.
fn push_range(out: &mut Vec<u8>, data: &[u8], lo: usize, hi: usize)
    requires
        lo <= hi <= data@.len(),
    ensures
        final(out)@ == old(out)@ + data@.subrange(lo as int, hi as int),
{
    let ghost start = out@;
    let mut i: usize = lo;
    while i < hi
        invariant
            lo <= i <= hi <= data@.len(),
            out@ == start + data@.subrange(lo as int, i as int),
        decreases hi - i,
    {
        out.push(data[i]);
        assert(out@ =~= start + data@.subrange(lo as int, i + 1));
        i = i + 1;
    }
}

/// Appends `n` zero bytes.
fn push_zeros(out: &mut Vec<u8>, n: u32)
    ensures
        final(out)@ == old(out)@ + zeros(n as nat),
{
    let ghost start = out@;
    let mut i: u32 = 0;
    while i < n
        invariant
            i <= n,
            out@ == start + zeros(i as nat),
        decreases n - i,
    {
        out.push(0u8);
        assert(out@ =~= start + zeros((i + 1) as nat));
        i = i + 1;
    }
}

/// One fill block for the pattern `data[p..p + 4]`.
fn make_fill_block(data: &[u8], p: usize, blk: u32) -> (b: Vec<u8>)
    requires
        p + 4 <= data@.len(),
    ensures
        b@ == fill_block(data@.subrange(p as int, p + 4), blk as nat),
{
    let whole: u32 = (blk / 4) * 4;
    let n = data.len();
    let mut b: Vec<u8> = Vec::new();
    let mut i: u32 = 0;
    while i < blk
        invariant
            i <= blk,
            whole == (blk / 4) * 4,
            p + 4 <= data@.len(),
            n == data@.len(),
            b@ == fill_block(data@.subrange(p as int, p + 4), blk as nat).subrange(0, i as int),
        decreases blk - i,
    {
        if i < whole {
            b.push(data[p + (i % 4) as usize]);
        } else {
            b.push(0u8);
        }
        assert(b@ =~= fill_block(data@.subrange(p as int, p + 4), blk as nat).subrange(0, i + 1));
        i = i + 1;
    }
    assert(b@ =~= fill_block(data@.subrange(p as int, p + 4), blk as nat));
    b
}

/// Appends `block` `n` times.
fn push_repeated(out: &mut Vec<u8>, block: &Vec<u8>, n: u32)
    ensures
        final(out)@ == old(out)@ + repeated(block@, n as nat),
{
    let ghost start = out@;
    let mut k: u32 = 0;
    while k < n
        invariant
            k <= n,
            out@ == start + repeated(block@, k as nat),
        decreases n - k,
    {
        let ghost before = out@;
        push_range(out, block.as_slice(), 0, block.len());
        assert(block@.subrange(0, block@.len() as int) =~= block@);
        assert(repeated(block@, (k + 1) as nat) == repeated(block@, k as nat) + block@);
        assert(out@ =~= start + repeated(block@, (k + 1) as nat));
        k = k + 1;
    }
}

/// Walks the chunks of `data` from `start`, building the raw image when
/// `build` holds.
#[verifier::rlimit(40)]
fn walk(data: &[u8], h: SparseHeader, start: usize, build: bool) -> (r: Walk)
    ensures
        match chunks_from(data@, h, start as int) {
            SparseOutcome::Done(b) => r matches Walk::Done(v) && (build ==> v@ == b),
            SparseOutcome::Failed(m) => r matches Walk::Failed(s) && s@ == m,
            SparseOutcome::Stuck => r is Stuck,
        },
{
    let ghost whole = chunks_from(data@, h, start as int);
    let mut out: Vec<u8> = Vec::new();
    let mut pos: usize = start;
    let len = data.len();
    let hsz = h.chunk_hdr_sz as usize;
    proof {
        assert(after(seq![], whole) == whole) by {
            match whole {
                SparseOutcome::Done(x) => {
                    assert(Seq::<u8>::empty() + x =~= x);
                },
                _ => {},
            }
        }
    }
    loop
        invariant
            len == data@.len(),
            hsz == h.chunk_hdr_sz,
            whole == chunks_from(data@, h, start as int),
            same_end(chunks_from(data@, h, pos as int), whole),
            build ==> after(out@, chunks_from(data@, h, pos as int)) == whole,
        decreases walk_measure(data@, pos as int),
    {
        let ghost here = chunks_from(data@, h, pos as int);
        let left = if pos > len {
            0
        } else {
            len - pos
        };
        if hsz > left {
            assert(here == SparseOutcome::Done(seq![]));
            assert(build ==> out@ + seq![] =~= out@);
            return Walk::Done(out);
        }
        if hsz < 12 {
            return Walk::Failed(to_owned_string("chunk header too short"));
        }
        let code = read_u16_le(data, pos);
        let sz = read_u32_le(data, pos + 4);
        let p = pos + hsz;
        match ChunkType::from_u16(code) {
            None => {
                let mut reason = String::new();
                push_str(&mut reason, "unknown chunk type: 0x");
                push_hex_padded(&mut reason, code as u64, 4, true);
                return Walk::Failed(reason);
            },
            Some(ChunkType::Raw) => {
                if sz as usize > len - p {
                    return Walk::Failed(to_owned_string("failed to read raw chunk: failed to fill whole buffer"));
                }
                let next = p + sz as usize;
                let ghost chunk = data@.subrange(p as int, next as int);
                let ghost o = out@;
                if build {
                    push_range(&mut out, data, p, next);
                }
                proof {
                    lemma_after_after(o, chunk, chunks_from(data@, h, next as int));
                }
                pos = next;
            },
            Some(ChunkType::Fill) => {
                if 4 > len - p {
                    return Walk::Failed(to_owned_string("failed to read fill value: failed to fill whole buffer"));
                }
                let ghost chunk = repeated(fill_block(data@.subrange(p as int, p + 4), h.blk_sz as nat), (sz / 4) as nat);
                let ghost o = out@;
                if build {
                    let block = make_fill_block(data, p, h.blk_sz);
                    push_repeated(&mut out, &block, sz / 4);
                }
                proof {
                    lemma_after_after(o, chunk, chunks_from(data@, h, p + 4));
                }
                pos = p + 4;
            },
            Some(ChunkType::DontCare) => {
                if sz > 0 && h.blk_sz == 0 {
                    return Walk::Stuck;
                }
                let ghost o = out@;
                if build {
                    push_zeros(&mut out, sz);
                }
                proof {
                    lemma_after_after(o, zeros(sz as nat), chunks_from(data@, h, p as int));
                }
                pos = p;
            },
            Some(ChunkType::Crc32) => {
                if sz as usize > len - p {
                    assert(chunks_from(data@, h, p + sz) == SparseOutcome::Done(seq![]));
                    assert(build ==> out@ + seq![] =~= out@);
                    return Walk::Done(out);
                }
                pos = p + sz as usize;
            },
        }
    }
}

/// A sparse image opened for expansion: its header read, positioned at its
/// first chunk.
pub struct SparseExpander<'a> {
    data: &'a [u8],
    pos: usize,
    header: SparseHeader,
}

impl<'a> SparseExpander<'a> {
    pub closed spec fn spec_header(&self) -> SparseHeader {
        self.header
    }

    /// The image's bytes.
    pub closed spec fn spec_data(&self) -> Seq<u8> {
        self.data@
    }

    /// Where the next chunk starts.
    pub closed spec fn spec_pos(&self) -> int {
        self.pos as int
    }

    /// Reads the header of the sparse image `data`; the chunks start at the
    /// header's `file_hdr_sz`.
    pub fn new(data: &'a [u8]) -> (r: Result<Self, ImageError>)
        requires
            header_size_ok(data@),
        ensures
            data@.len() < 28 || le32(data@, 0) != SPARSE_HEADER_MAGIC ==> (r matches Err(
                ImageError::SparseFailed { reason },
            ) && sparse_expansion(data@) == SparseOutcome::Failed(reason@)),
            data@.len() >= 28 && le32(data@, 0) == SPARSE_HEADER_MAGIC ==> (r matches Ok(e)
                && e.spec_header() == header_at(data@) && e.spec_data() == data@ && e.spec_pos()
                == header_at(data@).file_hdr_sz),
    {
        if data.len() < 28 {
            return Err(sparse_failed(to_owned_string("failed to read sparse header: failed to fill whole buffer")));
        }
        let header = match SparseHeader::from_bytes(data) {
            Ok(h) => h,
            Err(e) => return Err(e),
        };
        Ok(SparseExpander { data, pos: header.file_hdr_sz as usize, header })
    }

    /// The size of the raw image: total blocks times block size.
    pub fn raw_size(&self) -> (r: u64)
        ensures
            r == self.spec_header().total_blks * self.spec_header().blk_sz,
    {
        proof {
            assert(self.header.total_blks * self.header.blk_sz <= u32::MAX * u32::MAX) by (nonlinear_arith);
        }
        (self.header.total_blks as u64) * (self.header.blk_sz as u64)
    }

    pub fn header(&self) -> (r: &SparseHeader)
        ensures
            *r == self.spec_header(),
    {
        &self.header
    }

    /// Expands the remaining chunks to raw bytes.
    pub fn expand(&self) -> (r: Result<Vec<u8>, ImageError>)
        requires
            !(chunks_from(self.spec_data(), self.spec_header(), self.spec_pos()) is Stuck),
        ensures
            match chunks_from(self.spec_data(), self.spec_header(), self.spec_pos()) {
                SparseOutcome::Done(b) => r matches Ok(v) && v@ == b,
                SparseOutcome::Failed(m) => r matches Err(ImageError::SparseFailed { reason }) && reason@ == m,
                SparseOutcome::Stuck => false,
            },
    {
        match walk(self.data, self.header, self.pos, true) {
            Walk::Done(v) => Ok(v),
            Walk::Failed(m) => Err(sparse_failed(m)),
            Walk::Stuck => Ok(Vec::new()),
        }
    }
}

/// Whether expanding `data` ends; it does not when a don't-care chunk with
/// data is reached in an image whose block size is zero.
pub fn sparse_expansion_ends(data: &[u8]) -> (r: bool)
    requires
        header_size_ok(data@),
    ensures
        r == !(sparse_expansion(data@) is Stuck),
{
    match SparseExpander::new(data) {
        Err(_) => true,
        Ok(e) => match walk(data, e.header, e.pos, false) {
            Walk::Stuck => false,
            _ => true,
        },
    }
}

/// Expands the sparse image `data` to the raw image.
pub fn expand_to_vec(data: &[u8]) -> (r: Result<Vec<u8>, ImageError>)
    requires
        header_size_ok(data@),
        !(sparse_expansion(data@) is Stuck),
    ensures
        match sparse_expansion(data@) {
            SparseOutcome::Done(b) => r matches Ok(v) && v@ == b,
            SparseOutcome::Failed(m) => r matches Err(ImageError::SparseFailed { reason }) && reason@ == m,
            SparseOutcome::Stuck => false,
        },
{
    let e = match SparseExpander::new(data) {
        Ok(e) => e,
        Err(err) => return Err(err),
    };
    e.expand()
}

} // verus!
