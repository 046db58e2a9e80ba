//! Jobs: what each does with the device, planned over plain values. The
//! reads and writes of sectors and files are the caller's.

use crate::base::types::{span_bytes, PartitionInfo};
use crate::base::util::{human_size, humanize_size};
use crate::image::rawprogram::{TaskEntry, TaskType};
use crate::job::error::JobError;
use crate::text::{dec_str, dec_string, pad_left, pad_right, push_dec, push_padded_left, push_padded_right, push_str, str_eq, str_trim, str_trim_end_matches, strip_end, to_owned_string, trimmed};
use vstd::prelude::*;

verus! {

/// How a partition is erased.
#[derive(Debug, Clone, Copy, PartialEq, Eq, Structural)]
pub enum EraseMethod {
    /// Writes zeros (the default: some loaders' erase command is faulty).
    WriteZero,
    /// The loader's erase command.
    Native,
}

impl Default for EraseMethod {
    fn default() -> (m: Self)
        ensures
            m == EraseMethod::WriteZero,
    {
        EraseMethod::WriteZero
    }
}

#[derive(Debug)]
pub struct JobResult {
    pub success: bool,
    pub message: String,
    pub steps_completed: usize,
}

/// The answer to a raw XML command.
#[derive(Debug, Clone)]
pub struct XmlResponse {
    pub is_ack: bool,
    pub error: Option<String>,
}

pub struct DumpJob {
    pub partition_name: String,
    pub output_path: String,
    pub show_progress: bool,
    /// Continue a partial dump already in the output file.
    pub resume: bool,
}

pub struct WriteJob {
    pub partition_name: String,
    pub image_path: String,
}

pub struct EraseJob {
    pub partition_name: String,
    pub show_progress: bool,
    pub erase_method: EraseMethod,
}

pub struct FlashJob {
    pub rawprogram: String,
    pub patch: Option<String>,
    pub image_dir: String,
    pub erase_method: EraseMethod,
}

pub struct InfoJob;

pub struct GptJob;

pub struct RebootJob;

pub struct VerifyJob {
    pub partition_name: String,
    pub image_path: String,
    pub show_progress: bool,
}

pub struct XmlJob {
    pub xml: Option<String>,
    pub file: Option<String>,
}

impl DumpJob {
    pub fn name(&self) -> (r: &'static str)
        ensures
            r@ == "dump"@,
    {
        "dump"
    }
}

impl WriteJob {
    pub fn name(&self) -> (r: &'static str)
        ensures
            r@ == "write"@,
    {
        "write"
    }
}

impl EraseJob {
    pub fn name(&self) -> (r: &'static str)
        ensures
            r@ == "erase"@,
    {
        "erase"
    }
}

impl FlashJob {
    pub fn name(&self) -> (r: &'static str)
        ensures
            r@ == "flash"@,
    {
        "flash"
    }
}

impl InfoJob {
    pub fn name(&self) -> (r: &'static str)
        ensures
            r@ == "info"@,
    {
        "info"
    }
}

impl GptJob {
    pub fn name(&self) -> (r: &'static str)
        ensures
            r@ == "gpt"@,
    {
        "gpt"
    }
}

impl RebootJob {
    pub fn name(&self) -> (r: &'static str)
        ensures
            r@ == "reboot"@,
    {
        "reboot"
    }

    /// What a reboot reports.
    pub fn result() -> (r: JobResult)
        ensures
            r.success && r.message@ == "rebooting device"@ && r.steps_completed == 1,
    {
        JobResult { success: true, message: to_owned_string("rebooting device"), steps_completed: 1 }
    }
}

impl VerifyJob {
    pub fn name(&self) -> (r: &'static str)
        ensures
            r@ == "verify"@,
    {
        "verify"
    }
}

impl XmlJob {
    pub fn name(&self) -> (r: &'static str)
        ensures
            r@ == "xml"@,
    {
        "xml"
    }
}

/// The smaller of two numbers.
pub open spec fn min_of(a: int, b: int) -> int {
    if a <= b {
        a
    } else {
        b
    }
}

/// The consecutive runs of at most `per` sectors that cover `count` sectors
/// from `start`, in order: `(first sector, sector count)`.
pub open spec fn chunk_plan(start: int, count: int, per: int) -> Seq<(u64, u64)>
    decreases count,
{
    if count <= 0 || per <= 0 {
        seq![]
    } else {
        let c = min_of(count, per);
        seq![(start as u64, c as u64)] + chunk_plan(start + c, count - c, per)
    }
}

/// Splits `count` sectors from `start` into runs of at most `per`.
pub fn plan_chunks(start: u64, count: u64, per: u64) -> (r: Vec<(u64, u64)>)
    requires
        per > 0,
        start + count <= u64::MAX,
    ensures
        r@ == chunk_plan(start as int, count as int, per as int),
{
    let mut out: Vec<(u64, u64)> = Vec::new();
    let mut sector: u64 = start;
    let mut remaining: u64 = count;
    while remaining > 0
        invariant
            per > 0,
            sector + remaining <= u64::MAX,
            sector + remaining == start + count,
            out@ + chunk_plan(sector as int, remaining as int, per as int) == chunk_plan(
                start as int,
                count as int,
                per as int,
            ),
        decreases remaining,
    {
        let chunk = if remaining < per {
            remaining
        } else {
            per
        };
        let ghost o = out@;
        out.push((sector, chunk));
        assert(o + chunk_plan(sector as int, remaining as int, per as int) =~= out@ + chunk_plan(
            sector + chunk,
            remaining - chunk,
            per as int,
        ));
        sector = sector + chunk;
        remaining = remaining - chunk;
    }
    assert(out@ + chunk_plan(sector as int, 0, per as int) =~= out@);
    out
}

/// Sectors per transfer: as many as fit a payload, at least one.
pub open spec fn sectors_per_payload(max_payload: u32, sector_size: u32) -> u64 {
    if max_payload / sector_size >= 1 {
        (max_payload / sector_size) as u64
    } else {
        1
    }
}

/// Sectors per transfer for a payload limit and a sector size.
pub fn sectors_per_chunk(max_payload: u32, sector_size: u32) -> (r: u64)
    requires
        sector_size > 0,
    ensures
        r == sectors_per_payload(max_payload, sector_size),
        r >= 1,
{
    let n = max_payload / sector_size;
    if n >= 1 {
        n as u64
    } else {
        1
    }
}

/// The size of the zero buffer that erasing by writing zeros sends from.
pub const ZERO_BUF_SIZE: u64 = 524288;

/// Sectors per zero write: as many as fit the larger of the payload limit
/// and the zero buffer, at least one.
pub fn zero_fill_sectors(max_payload: u32, sector_size: u32) -> (r: u64)
    requires
        sector_size > 0,
    ensures
        r == (if (if max_payload >= ZERO_BUF_SIZE { max_payload as u64 } else { ZERO_BUF_SIZE }) / (
        sector_size as u64) >= 1 {
            (if max_payload >= ZERO_BUF_SIZE { max_payload as u64 } else { ZERO_BUF_SIZE }) / (sector_size as u64)
        } else {
            1
        }),
{
    let bytes: u64 = if max_payload as u64 >= ZERO_BUF_SIZE {
        max_payload as u64
    } else {
        ZERO_BUF_SIZE
    };
    let n = bytes / (sector_size as u64);
    if n >= 1 {
        n
    } else {
        1
    }
}

/// Where a dump starts.
#[derive(Debug)]
pub enum DumpStart {
    /// Read from `start_sector`; `done_bytes` are already in the file.
    From { start_sector: u64, done_bytes: u64 },
    /// The file already holds the whole partition.
    AlreadyDumped(JobResult),
}

impl DumpJob {
    /// Where to start dumping `entry`, given the size of an existing output
    /// file when resuming (`None`: not resuming, or no file). A partial file
    /// is continued after its whole sectors; a complete one ends the job.
    pub fn start(&self, entry: &PartitionInfo, sector_size: u32, existing: Option<u64>) -> (r: DumpStart)
        requires
            sector_size > 0,
            entry.first_lba <= entry.last_lba,
            span_bytes(entry.first_lba, entry.last_lba, sector_size) <= u64::MAX,
        ensures
            ({
                let total = span_bytes(entry.first_lba, entry.last_lba, sector_size);
                match existing {
                    Some(fs) if fs > 0 && fs < total => r matches DumpStart::From { start_sector, done_bytes }
                        && start_sector == entry.first_lba + (fs as int) / (sector_size as int) && done_bytes
                        == ((fs as int) / (sector_size as int)) * sector_size,
                    Some(fs) if fs >= total => r matches DumpStart::AlreadyDumped(res) && res.success
                        && res.steps_completed == 0 && res.message@ == "partition "@ + self.partition_name@
                        + " already dumped"@,
                    _ => r matches DumpStart::From { start_sector, done_bytes } && start_sector
                        == entry.first_lba && done_bytes == 0,
                }
            }),
    {
        let ss = sector_size as u64;
        proof {
            let d = entry.last_lba - entry.first_lba + 1;
            assert(d <= d * sector_size) by (nonlinear_arith)
                requires
                    sector_size >= 1,
                    d >= 1,
            ;
        }
        let sectors = entry.last_lba - entry.first_lba + 1;
        proof {
            assert(sectors * ss == span_bytes(entry.first_lba, entry.last_lba, sector_size));
        }
        let total = sectors * ss;
        match existing {
            Some(fs) => {
                if fs > 0 && fs < total {
                    let done = fs / ss;
                    proof {
                        assert(done * ss <= fs) by (nonlinear_arith)
                            requires
                                done == fs / ss,
                                ss > 0,
                        ;
                        assert(done <= sectors) by (nonlinear_arith)
                            requires
                                done == fs / ss,
                                ss > 0,
                                fs < sectors * ss,
                        ;
                    }
                    return DumpStart::From { start_sector: entry.first_lba + done, done_bytes: done * ss };
                } else if fs >= total {
                    let mut message = to_owned_string("partition ");
                    push_str(&mut message, self.partition_name.as_str());
                    push_str(&mut message, " already dumped");
                    return DumpStart::AlreadyDumped(JobResult { success: true, message, steps_completed: 0 });
                }
            },
            None => {},
        }
        DumpStart::From { start_sector: entry.first_lba, done_bytes: 0 }
    }
}

/// The message for an image larger than its partition.
pub open spec fn too_large_text(image: u64, partition: u64) -> Seq<char> {
    "image too large: "@ + human_size(image) + " > partition "@ + human_size(partition)
}

/// Fails when an image of `image_bytes` does not fit a partition of
/// `partition_bytes`.
pub fn check_fits(image_bytes: u64, partition_bytes: u64) -> (r: Result<(), JobError>)
    ensures
        image_bytes <= partition_bytes ==> r is Ok,
        image_bytes > partition_bytes ==> (r matches Err(JobError::PreconditionFailed { reason })
            && reason@ == too_large_text(image_bytes, partition_bytes)),
{
    if image_bytes > partition_bytes {
        let mut reason = to_owned_string("image too large: ");
        push_str(&mut reason, humanize_size(image_bytes).as_str());
        push_str(&mut reason, " > partition ");
        push_str(&mut reason, humanize_size(partition_bytes).as_str());
        return Err(JobError::PreconditionFailed { reason });
    }
    Ok(())
}

/// Whether the first four bytes of an image make the write job expand it:
/// they are the sparse magic number, little-endian (3A FF 26 ED).
pub fn write_sees_sparse(magic: [u8; 4]) -> (r: bool)
    ensures
        r == (crate::wire::le32(magic@, 0) == crate::image::sparse::SPARSE_HEADER_MAGIC),
{
    crate::wire::read_u32_le(&magic, 0) == crate::image::sparse::SPARSE_HEADER_MAGIC
}

/// Whether the verify job takes a file as sparse: it starts with the sparse
/// magic number.
pub fn verify_sees_sparse(data: &[u8]) -> (r: bool)
    ensures
        r == (data@.len() >= 4 && crate::wire::le32(data@, 0) == crate::image::sparse::SPARSE_HEADER_MAGIC),
{
    crate::image::sparse::SparseHeader::is_sparse(data)
}

/// The bytes of one write: `data` from sector `written` on, `chunk` sectors,
/// padded with zeros past the end of `data`.
pub open spec fn chunk_bytes(data: Seq<u8>, written: nat, chunk: nat, sector_size: nat) -> Seq<u8> {
    let start: int = (written * sector_size) as int;
    let n: int = (chunk * sector_size) as int;
    let end = min_of(start + n, data.len() as int);
    data.subrange(start, end) + Seq::new((n - (end - start)) as nat, |i: int| 0u8)
}

/// The bytes of one write of an image held in memory.
pub fn write_chunk(data: &[u8], written: u64, chunk: u64, sector_size: u64) -> (r: Vec<u8>)
    requires
        written * sector_size <= data@.len(),
        chunk * sector_size <= usize::MAX,
    ensures
        r@ == chunk_bytes(data@, written as nat, chunk as nat, sector_size as nat),
{
    let _len = data.len();
    let start = (written * sector_size) as usize;
    let n = (chunk * sector_size) as usize;
    let end = if n <= data.len() - start {
        start + n
    } else {
        data.len()
    };
    let mut out: Vec<u8> = Vec::new();
    let mut i: usize = start;
    while i < end
        invariant
            start <= i <= end <= data@.len(),
            out@ == data@.subrange(start as int, i as int),
        decreases end - i,
    {
        out.push(data[i]);
        assert(out@ =~= data@.subrange(start as int, i + 1));
        i = i + 1;
    }
    let ghost head = out@;
    let pad = n - (end - start);
    let mut k: usize = 0;
    while k < pad
        invariant
            k <= pad,
            out@ == head + Seq::new(k as nat, |i: int| 0u8),
        decreases pad - k,
    {
        out.push(0u8);
        assert(out@ =~= head + Seq::new((k + 1) as nat, |i: int| 0u8));
        k = k + 1;
    }
    out
}

/// The number of sectors `len` bytes take, the last one partial.
pub fn sectors_for(len: u64, sector_size: u64) -> (r: u64)
    requires
        sector_size > 0,
    ensures
        r == (len + sector_size - 1) / (sector_size as int),
{
    let q = len / sector_size;
    if len % sector_size == 0 {
        proof {
            assert((len + sector_size - 1) / (sector_size as int) == q) by (nonlinear_arith)
                requires
                    q == len / sector_size,
                    len % sector_size == 0,
                    sector_size > 0,
            ;
        }
        q
    } else {
        proof {
            assert(q < u64::MAX) by (nonlinear_arith)
                requires
                    q == len / sector_size,
                    len % sector_size != 0,
                    sector_size > 0,
                    len <= u64::MAX,
            ;
            assert((len + sector_size - 1) / (sector_size as int) == q + 1) by (nonlinear_arith)
                requires
                    q == len / sector_size,
                    len % sector_size != 0,
                    sector_size > 0,
            ;
        }
        q + 1
    }
}

/// What the flash job does for one task.
#[derive(Debug, Clone, Copy, PartialEq, Eq, Structural)]
pub enum FlashStep {
    /// Erase with the loader's erase command.
    EraseNative,
    /// Erase by writing zeros.
    EraseZero,
    /// A program task without a file: nothing to do.
    Skip,
    /// Expand the sparse image, then write it.
    WriteSparse,
    /// Write the raw image.
    WriteRaw,
}

impl FlashJob {
    /// The step for `task`.
    pub fn step_for(&self, task: &TaskEntry) -> (r: FlashStep)
        ensures
            r == (match task.task_type {
                TaskType::Erase => match self.erase_method {
                    EraseMethod::Native => FlashStep::EraseNative,
                    EraseMethod::WriteZero => FlashStep::EraseZero,
                },
                TaskType::Program => if task.filename is None {
                    FlashStep::Skip
                } else if task.sparse {
                    FlashStep::WriteSparse
                } else {
                    FlashStep::WriteRaw
                },
            }),
    {
        match task.task_type {
            TaskType::Erase => match self.erase_method {
                EraseMethod::Native => FlashStep::EraseNative,
                EraseMethod::WriteZero => FlashStep::EraseZero,
            },
            TaskType::Program => {
                if task.filename.is_none() {
                    FlashStep::Skip
                } else if task.sparse {
                    FlashStep::WriteSparse
                } else {
                    FlashStep::WriteRaw
                }
            },
        }
    }
}

/// The disk size in sectors and the end of the last partition in bytes:
/// from the last partition listed, zeros when there is none.
pub open spec fn disk_extent(parts: Seq<PartitionInfo>, sector_size: u32) -> (int, int) {
    if parts.len() == 0 {
        (0, 0)
    } else {
        (parts.last().last_lba + 1, parts.last().last_lba * sector_size + sector_size)
    }
}

/// The variables patch values may name.
pub fn patch_vars(parts: &Vec<PartitionInfo>, sector_size: u32) -> (r: Vec<(String, String)>)
    requires
        parts@.len() > 0 ==> parts@.last().last_lba < u64::MAX && parts@.last().last_lba * sector_size
            + sector_size <= u64::MAX,
    ensures
        r@.len() == 2,
        r@[0].0@ == "NUM_DISK_SECTORS"@,
        r@[0].1@ == dec_str(disk_extent(parts@, sector_size).0 as nat),
        r@[1].0@ == "LAST_PARTITION_END"@,
        r@[1].1@ == dec_str(disk_extent(parts@, sector_size).1 as nat),
{
    let n = parts.len();
    let (disk, end): (u64, u64) = if n == 0 {
        (0, 0)
    } else {
        let last = parts[n - 1].last_lba;
        proof {
            assert(last * sector_size >= 0) by (nonlinear_arith);
        }
        (last + 1, last * (sector_size as u64) + sector_size as u64)
    };
    let mut a = String::new();
    push_dec(&mut a, disk);
    let mut b = String::new();
    push_dec(&mut b, end);
    let mut r: Vec<(String, String)> = Vec::new();
    r.push((to_owned_string("NUM_DISK_SECTORS"), a));
    r.push((to_owned_string("LAST_PARTITION_END"), b));
    r
}

/// `existing` with `patch` written at `offset`, cut at the end of
/// `existing`.
pub open spec fn patched(existing: Seq<u8>, offset: int, patch: Seq<u8>) -> Seq<u8> {
    let end = min_of(offset + patch.len(), existing.len() as int);
    existing.subrange(0, offset) + patch.subrange(0, end - offset) + existing.subrange(end, existing.len() as int)
}

/// The sector a patch writes back, from the patch's value and the sector as
/// it was read: the value written at `offset`, or `None` (the patch is
/// skipped) where the sector could not be read.
pub fn patched_sector<E>(value: &Vec<u8>, read: Result<Vec<u8>, E>, offset: u32) -> (r: Option<Vec<u8>>)
    requires
        read matches Ok(d) ==> offset <= d@.len(),
    ensures
        match read {
            Ok(d) => r matches Some(p) && p@ == patched(d@, offset as int, value@),
            Err(_) => r is None,
        },
{
    match read {
        Ok(d) => Some(apply_patch(d.as_slice(), offset as usize, value.as_slice())),
        Err(_) => None,
    }
}

/// Writes a patch value into a sector's bytes.
pub fn apply_patch(existing: &[u8], offset: usize, patch: &[u8]) -> (r: Vec<u8>)
    requires
        offset <= existing@.len(),
    ensures
        r@ == patched(existing@, offset as int, patch@),
{
    let len = existing.len();
    let end = if patch.len() <= len - offset {
        offset + patch.len()
    } else {
        len
    };
    let mut out: Vec<u8> = Vec::new();
    let mut i: usize = 0;
    while i < len
        invariant
            offset <= end <= len == existing@.len(),
            end - offset <= patch@.len(),
            end == min_of(offset + patch@.len(), len as int),
            i <= len,
            out@ == patched(existing@, offset as int, patch@).subrange(0, i as int),
            patched(existing@, offset as int, patch@).len() == len,
        decreases len - i,
    {
        let ghost p = patched(existing@, offset as int, patch@);
        proof {
            let a = existing@.subrange(0, offset as int);
            let b = patch@.subrange(0, end - offset);
            let c = existing@.subrange(end as int, len as int);
            assert(p == a + b + c);
            if i < offset {
                assert(p[i as int] == a[i as int]);
            } else if i < end {
                assert(p[i as int] == (a + b)[i as int]);
                assert(p[i as int] == b[i - offset]);
            } else {
                assert(p[i as int] == c[i - end]);
            }
        }
        if i >= offset && i < end {
            out.push(patch[i - offset]);
        } else {
            out.push(existing[i]);
        }
        assert(out@ =~= p.subrange(0, i + 1));
        i = i + 1;
    }
    assert(out@ =~= patched(existing@, offset as int, patch@));
    out
}

/// The message for digests that differ.
pub open spec fn mismatch_text(local: Seq<char>, device: Seq<char>) -> Seq<char> {
    "SHA256 mismatch: local = "@ + local + ", device = "@ + device
}

/// Compares the image's digest with the device's.
pub fn compare_digests(local: &str, device: &str) -> (r: Result<(), JobError>)
    ensures
        local@ == device@ ==> r is Ok,
        local@ != device@ ==> (r matches Err(JobError::PreconditionFailed { reason }) && reason@
            == mismatch_text(local@, device@)),
{
    if str_eq(local, device) {
        Ok(())
    } else {
        let mut reason = to_owned_string("SHA256 mismatch: local = ");
        push_str(&mut reason, local);
        push_str(&mut reason, ", device = ");
        push_str(&mut reason, device);
        Err(JobError::PreconditionFailed { reason })
    }
}

impl XmlJob {
    /// The XML to send when it was given inline; `Ok(None)` when it is to
    /// be read from the file; an error when neither was given.
    pub fn inline_xml(&self) -> (r: Result<Option<String>, JobError>)
        ensures
            match self.xml {
                Some(x) => r matches Ok(Some(s)) && s@ == x@,
                None => if self.file is Some {
                    r matches Ok(None)
                } else {
                    r matches Err(JobError::PreconditionFailed { reason }) && reason@
                        == "Either --xml or --file must be specified"@
                },
            },
    {
        match &self.xml {
            Some(x) => Ok(Some(x.clone())),
            None => {
                if self.file.is_some() {
                    Ok(None)
                } else {
                    Err(
                        JobError::PreconditionFailed {
                            reason: to_owned_string("Either --xml or --file must be specified"),
                        },
                    )
                }
            },
        }
    }

    /// What the job reports for the device's answer: success is the ACK,
    /// and a reported error is added to the message.
    pub fn result(resp: &XmlResponse) -> (r: JobResult)
        ensures
            r.success == resp.is_ack,
            r.steps_completed == 1,
            r.message@ == "XML command sent successfully"@ + match resp.error {
                Some(e) => "\nError: "@ + e@,
                None => Seq::empty(),
            },
    {
        let mut message = to_owned_string("XML command sent successfully");
        let ghost m0 = message@;
        match &resp.error {
            Some(e) => {
                push_str(&mut message, "\nError: ");
                push_str(&mut message, e.as_str());
            },
            None => {},
        }
        proof {
            if resp.error is None {
                assert(message@ =~= m0 + Seq::<char>::empty());
            }
        }
        JobResult { success: resp.is_ack, message, steps_completed: 1 }
    }
}

/// A partition's name as listings show it: trimmed, without trailing NULs.
pub open spec fn listed_name(name: Seq<char>) -> Seq<char> {
    strip_end(trimmed(name), '\0')
}

/// The size of a partition can be computed.
pub open spec fn sized(e: PartitionInfo, sector_size: u32) -> bool {
    e.first_lba <= e.last_lba && e.last_lba - e.first_lba < u64::MAX && span_bytes(
        e.first_lba,
        e.last_lba,
        sector_size,
    ) <= u64::MAX
}

/// One line of the partition listing: name (24 wide), first and last LBA
/// (10 wide, right-aligned), size, LUN.
pub open spec fn gpt_line(e: PartitionInfo, sector_size: u32) -> Seq<char> {
    "  "@ + pad_right(listed_name(e.name@), 24) + " LBA "@ + pad_left(dec_str(e.first_lba as nat), 10)
        + " - "@ + pad_left(dec_str(e.last_lba as nat), 10) + "  "@ + human_size(
        span_bytes(e.first_lba, e.last_lba, sector_size) as u64,
    ) + "  LUN "@ + dec_str(e.physical_partition as nat) + "\n"@
}

/// The lines of the partition listing.
pub open spec fn gpt_lines(es: Seq<PartitionInfo>, sector_size: u32) -> Seq<char>
    decreases es.len(),
{
    if es.len() == 0 {
        seq![]
    } else {
        gpt_lines(es.drop_last(), sector_size) + gpt_line(es.last(), sector_size)
    }
}

/// The partition listing: the count, then one line per partition.
pub open spec fn gpt_listing(es: Seq<PartitionInfo>, sector_size: u32) -> Seq<char> {
    dec_str(es.len()) + " partitions:\n"@ + gpt_lines(es, sector_size)
}

fn push_gpt_line(msg: &mut String, e: &PartitionInfo, sector_size: u32)
    requires
        sized(*e, sector_size),
    ensures
        final(msg)@ == old(msg)@ + gpt_line(*e, sector_size),
{
    let ghost before = msg@;
    push_str(msg, "  ");
    push_padded_right(msg, str_trim_end_matches(str_trim(e.name.as_str()), '\0'), 24);
    push_str(msg, " LBA ");
    push_padded_left(msg, dec_string(e.first_lba).as_str(), 10);
    push_str(msg, " - ");
    push_padded_left(msg, dec_string(e.last_lba).as_str(), 10);
    push_str(msg, "  ");
    push_str(msg, humanize_size(e.size_bytes(sector_size)).as_str());
    push_str(msg, "  LUN ");
    push_dec(msg, e.physical_partition as u64);
    push_str(msg, "\n");
    assert(msg@ =~= before + gpt_line(*e, sector_size));
}

impl GptJob {
    /// Lists the partitions.
    pub fn listing(entries: &Vec<PartitionInfo>, sector_size: u32) -> (r: JobResult)
        requires
            forall|i: int| 0 <= i < entries@.len() ==> sized(#[trigger] entries@[i], sector_size),
        ensures
            r.success && r.steps_completed == 1,
            r.message@ == gpt_listing(entries@, sector_size),
    {
        let mut msg = dec_string(entries.len() as u64);
        push_str(&mut msg, " partitions:\n");
        let ghost head = msg@;
        let mut i: usize = 0;
        while i < entries.len()
            invariant
                i <= entries@.len(),
                forall|k: int| 0 <= k < entries@.len() ==> sized(#[trigger] entries@[k], sector_size),
                msg@ == head + gpt_lines(entries@.subrange(0, i as int), sector_size),
            decreases entries@.len() - i,
        {
            assert(entries@.subrange(0, i + 1).drop_last() =~= entries@.subrange(0, i as int));
            push_gpt_line(&mut msg, &entries[i], sector_size);
            i = i + 1;
        }
        assert(entries@.subrange(0, entries@.len() as int) =~= entries@);
        JobResult { success: true, message: msg, steps_completed: 1 }
    }
}

/// The sectors the runs of a plan count, in all.
pub open spec fn planned_total(plan: Seq<(u64, u64)>) -> int
    decreases plan.len(),
{
    if plan.len() == 0 {
        0
    } else {
        plan[0].1 + planned_total(plan.drop_first())
    }
}

/// A transfer plan covers its range exactly: its runs follow each other
/// from `start`, each holds between one and `per` sectors, and together
/// they hold `count`.
pub proof fn lemma_chunk_plan_covers(start: int, count: int, per: int)
    requires
        count >= 0,
        per > 0,
        0 <= start,
        start + count <= u64::MAX,
    ensures
        planned_total(chunk_plan(start, count, per)) == count,
        forall|i: int|
            0 <= i < chunk_plan(start, count, per).len() ==> 1 <= (#[trigger] chunk_plan(start, count, per)[i]).1
                <= per,
        chunk_plan(start, count, per).len() > 0 ==> chunk_plan(start, count, per)[0].0 == start,
        forall|i: int|
            0 <= i < chunk_plan(start, count, per).len() - 1 ==> (#[trigger] chunk_plan(start, count, per)[i + 1]).0
                == chunk_plan(start, count, per)[i].0 + chunk_plan(start, count, per)[i].1,
    decreases count,
{
    if count > 0 {
        let c = min_of(count, per);
        let rest = chunk_plan(start + c, count - c, per);
        lemma_chunk_plan_covers(start + c, count - c, per);
        let plan = chunk_plan(start, count, per);
        assert(plan == seq![(start as u64, c as u64)] + rest);
        assert(plan.drop_first() =~= rest);
        assert forall|i: int| 0 <= i < plan.len() implies 1 <= (#[trigger] plan[i]).1 <= per by {
            if i > 0 {
                assert(plan[i] == rest[i - 1]);
            }
        }
        assert forall|i: int| 0 <= i < plan.len() - 1 implies (#[trigger] plan[i + 1]).0 == plan[i].0 + plan[i].1 by {
            assert(plan[i + 1] == rest[i]);
            if i > 0 {
                assert(plan[i] == rest[i - 1]);
            }
        }
    }
}

/// A patch never changes the size of the sector it is written into.
pub proof fn lemma_patch_keeps_size(existing: Seq<u8>, offset: int, patch: Seq<u8>)
    requires
        0 <= offset <= existing.len(),
    ensures
        patched(existing, offset, patch).len() == existing.len(),
{
}

/// A write chunk always holds whole sectors: `chunk` of them.
pub proof fn lemma_chunk_bytes_len(data: Seq<u8>, written: nat, chunk: nat, sector_size: nat)
    requires
        written * sector_size <= data.len(),
    ensures
        chunk_bytes(data, written, chunk, sector_size).len() == chunk * sector_size,
{
}

} // verus!
