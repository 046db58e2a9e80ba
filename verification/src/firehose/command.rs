//! Firehose XML commands.
//!
//! The Firehose layer only builds command XML and reads ACK/NAK answers; it
//! does not interpret what a command means.

use crate::text::{dec_str, hex_str, push_dec, push_hex, push_hex_padded, push_str, zero_pad};
use vstd::prelude::*;

verus! {

#[derive(Debug, Clone)]
pub enum FirehoseCommand {
    Configure {
        memory_name: String,
        target_name: String,
        skip_storage_init: bool,
        zlp_aware_host: bool,
        max_payload_size: u32,
    },
    Read { sector_size: u32, num_sectors: u64, physical_partition: u8, start_sector: u64 },
    /// Writes sectors; a binary payload follows the command.
    Program {
        sector_size: u32,
        num_sectors: u64,
        physical_partition: u8,
        start_sector: u64,
        filename: Option<String>,
    },
    Erase { sector_size: u32, num_sectors: u64, physical_partition: u8, start_sector: u64 },
    GetStorageInfo,
    /// SHA256 digest of a range of sectors, computed on the device.
    GetSha256Digest { sector_size: u32, num_sectors: u64, physical_partition: u8, start_sector: u64 },
    /// Reads memory at a physical address.
    Peek { address: u64, size: u32 },
    /// Writes memory at a physical address.
    Poke { address: u64, data: Vec<u8> },
    Power { value: String },
    /// Raw XML, passed through unchanged.
    RawXml(String),
}

/// `(lun=.., start=.., count=..)`, the range part of a command name.
pub open spec fn range_summary(pp: u8, start: u64, count: u64) -> Seq<char> {
    "(lun="@ + dec_str(pp as nat) + ", start="@ + dec_str(start as nat) + ", count="@ + dec_str(
        count as nat,
    ) + ")"@
}

/// The summary of a command that traces show.
pub open spec fn command_name(c: FirehoseCommand) -> Seq<char> {
    match c {
        FirehoseCommand::Configure { .. } => "configure"@,
        FirehoseCommand::Read { physical_partition, start_sector, num_sectors, .. } => "read"@
            + range_summary(physical_partition, start_sector, num_sectors),
        FirehoseCommand::Program { physical_partition, start_sector, num_sectors, .. } => "program"@
            + range_summary(physical_partition, start_sector, num_sectors),
        FirehoseCommand::Erase { physical_partition, start_sector, num_sectors, .. } => "erase"@
            + range_summary(physical_partition, start_sector, num_sectors),
        FirehoseCommand::GetStorageInfo => "getstorageinfo"@,
        FirehoseCommand::GetSha256Digest { physical_partition, start_sector, num_sectors, .. } =>
            "getsha256digest"@ + range_summary(physical_partition, start_sector, num_sectors),
        FirehoseCommand::Peek { address, size } => "peek(addr=0x"@ + hex_str(address as nat, true)
            + ", size="@ + dec_str(size as nat) + ")"@,
        FirehoseCommand::Poke { address, data } => "poke(addr=0x"@ + hex_str(address as nat, true)
            + ", len="@ + dec_str(data@.len()) + ")"@,
        FirehoseCommand::Power { value } => "power("@ + value@ + ")"@,
        FirehoseCommand::RawXml(_) => "raw-xml"@,
    }
}

/// The sector-range attributes shared by read, program, erase and digest.
pub open spec fn sector_attrs(ss: u32, num: u64, pp: u8, start: u64) -> Seq<char> {
    " SECTOR_SIZE_IN_BYTES=\""@ + dec_str(ss as nat) + "\" num_partition_sectors=\""@ + dec_str(
        num as nat,
    ) + "\" physical_partition_number=\""@ + dec_str(pp as nat) + "\" start_sector=\""@ + dec_str(
        start as nat,
    ) + "\""@
}

/// The bytes of a poke rendered as `0xAA 0xBB ...`.
pub open spec fn poke_values(data: Seq<u8>) -> Seq<char>
    decreases data.len(),
{
    if data.len() == 0 {
        seq![]
    } else if data.len() == 1 {
        "0x"@ + zero_pad(hex_str(data[0] as nat, true), 2)
    } else {
        poke_values(data.drop_last()) + " 0x"@ + zero_pad(hex_str(data.last() as nat, true), 2)
    }
}

/// The XML of a command.
pub open spec fn command_xml(c: FirehoseCommand) -> Seq<char> {
    match c {
        FirehoseCommand::Configure { memory_name, max_payload_size, .. } => "<configure MemoryName=\""@
            + memory_name@ + "\" Verbose=\"0\" MaxPayloadSizeToTargetInBytes=\""@ + dec_str(
            max_payload_size as nat,
        ) + "\" />"@,
        FirehoseCommand::Read { sector_size, num_sectors, physical_partition, start_sector } =>
            "<read"@ + sector_attrs(sector_size, num_sectors, physical_partition, start_sector)
                + " />"@,
        FirehoseCommand::Program {
            sector_size,
            num_sectors,
            physical_partition,
            start_sector,
            filename,
        } => "<program"@ + sector_attrs(sector_size, num_sectors, physical_partition, start_sector)
            + match filename {
            Some(f) => " filename=\""@ + f@ + "\""@,
            None => Seq::empty(),
        } + " />"@,
        FirehoseCommand::Erase { sector_size, num_sectors, physical_partition, start_sector } =>
            "<erase"@ + sector_attrs(sector_size, num_sectors, physical_partition, start_sector)
                + " />"@,
        FirehoseCommand::GetStorageInfo => "<getstorageinfo />"@,
        FirehoseCommand::GetSha256Digest {
            sector_size,
            num_sectors,
            physical_partition,
            start_sector,
        } => "<getsha256digest"@ + sector_attrs(
            sector_size,
            num_sectors,
            physical_partition,
            start_sector,
        ) + " />"@,
        FirehoseCommand::Peek { address, size } => "<peek address64=\"0x"@ + hex_str(
            address as nat,
            false,
        ) + "\" size_in_bytes=\""@ + dec_str(size as nat) + "\" />"@,
        FirehoseCommand::Poke { address, data } => "<poke address64=\"0x"@ + hex_str(
            address as nat,
            false,
        ) + "\" size_in_bytes=\""@ + dec_str(data@.len()) + "\" value64=\""@ + poke_values(data@)
            + "\" />"@,
        FirehoseCommand::Power { value } => "<power value=\""@ + value@ + "\" />"@,
        FirehoseCommand::RawXml(xml) => xml@,
    }
}

fn push_range_summary(out: &mut String, pp: u8, start: u64, count: u64)
    ensures
        final(out)@ == old(out)@ + range_summary(pp, start, count),
{
    push_str(out, "(lun=");
    push_dec(out, pp as u64);
    push_str(out, ", start=");
    push_dec(out, start);
    push_str(out, ", count=");
    push_dec(out, count);
    push_str(out, ")");
    assert(out@ =~= old(out)@ + range_summary(pp, start, count));
}

fn push_sector_attrs(out: &mut String, ss: u32, num: u64, pp: u8, start: u64)
    ensures
        final(out)@ == old(out)@ + sector_attrs(ss, num, pp, start),
{
    push_str(out, " SECTOR_SIZE_IN_BYTES=\"");
    push_dec(out, ss as u64);
    push_str(out, "\" num_partition_sectors=\"");
    push_dec(out, num);
    push_str(out, "\" physical_partition_number=\"");
    push_dec(out, pp as u64);
    push_str(out, "\" start_sector=\"");
    push_dec(out, start);
    push_str(out, "\"");
    assert(out@ =~= old(out)@ + sector_attrs(ss, num, pp, start));
}

fn push_poke_values(out: &mut String, data: &Vec<u8>)
    ensures
        final(out)@ == old(out)@ + poke_values(data@),
{
    let ghost base = out@;
    let mut i: usize = 0;
    assert(out@ =~= base + poke_values(data@.subrange(0, 0)));
    while i < data.len()
        invariant
            i <= data@.len(),
            out@ == base + poke_values(data@.subrange(0, i as int)),
        decreases data@.len() - i,
    {
        if i == 0 {
            push_str(out, "0x");
        } else {
            push_str(out, " 0x");
        }
        push_hex_padded(out, data[i] as u64, 2, true);
        assert(data@.subrange(0, i + 1).drop_last() =~= data@.subrange(0, i as int));
        i = i + 1;
        assert(out@ =~= base + poke_values(data@.subrange(0, i as int)));
    }
    assert(data@.subrange(0, i as int) =~= data@);
}

impl FirehoseCommand {
    /// A short summary such as `read(lun=0, start=1, count=1)` for traces.
    pub fn name(&self) -> (r: String)
        ensures
            r@ == command_name(*self),
    {
        let mut out = String::new();
        match self {
            FirehoseCommand::Configure { .. } => push_str(&mut out, "configure"),
            FirehoseCommand::Read { physical_partition, start_sector, num_sectors, .. } => {
                push_str(&mut out, "read");
                push_range_summary(&mut out, *physical_partition, *start_sector, *num_sectors);
            },
            FirehoseCommand::Program { physical_partition, start_sector, num_sectors, .. } => {
                push_str(&mut out, "program");
                push_range_summary(&mut out, *physical_partition, *start_sector, *num_sectors);
            },
            FirehoseCommand::Erase { physical_partition, start_sector, num_sectors, .. } => {
                push_str(&mut out, "erase");
                push_range_summary(&mut out, *physical_partition, *start_sector, *num_sectors);
            },
            FirehoseCommand::GetStorageInfo => push_str(&mut out, "getstorageinfo"),
            FirehoseCommand::GetSha256Digest {
                physical_partition,
                start_sector,
                num_sectors,
                ..
            } => {
                push_str(&mut out, "getsha256digest");
                push_range_summary(&mut out, *physical_partition, *start_sector, *num_sectors);
            },
            FirehoseCommand::Peek { address, size } => {
                push_str(&mut out, "peek(addr=0x");
                push_hex(&mut out, *address, true);
                push_str(&mut out, ", size=");
                push_dec(&mut out, *size as u64);
                push_str(&mut out, ")");
            },
            FirehoseCommand::Poke { address, data } => {
                push_str(&mut out, "poke(addr=0x");
                push_hex(&mut out, *address, true);
                push_str(&mut out, ", len=");
                push_dec(&mut out, data.len() as u64);
                push_str(&mut out, ")");
            },
            FirehoseCommand::Power { value } => {
                push_str(&mut out, "power(");
                push_str(&mut out, value.as_str());
                push_str(&mut out, ")");
            },
            FirehoseCommand::RawXml(_) => push_str(&mut out, "raw-xml"),
        }
        assert(out@ =~= command_name(*self));
        out
    }

    /// The XML element of the command.
    pub fn to_xml(&self) -> (r: String)
        ensures
            r@ == command_xml(*self),
    {
        let mut out = String::new();
        match self {
            FirehoseCommand::Configure { memory_name, max_payload_size, .. } => {
                // Minimal QFIL-compatible configure: many loaders reject extra attributes.
                push_str(&mut out, "<configure MemoryName=\"");
                push_str(&mut out, memory_name.as_str());
                push_str(&mut out, "\" Verbose=\"0\" MaxPayloadSizeToTargetInBytes=\"");
                push_dec(&mut out, *max_payload_size as u64);
                push_str(&mut out, "\" />");
            },
            FirehoseCommand::Read { sector_size, num_sectors, physical_partition, start_sector } => {
                push_str(&mut out, "<read");
                push_sector_attrs(&mut out, *sector_size, *num_sectors, *physical_partition, *start_sector);
                push_str(&mut out, " />");
            },
            FirehoseCommand::Program {
                sector_size,
                num_sectors,
                physical_partition,
                start_sector,
                filename,
            } => {
                push_str(&mut out, "<program");
                push_sector_attrs(&mut out, *sector_size, *num_sectors, *physical_partition, *start_sector);
                let ghost before = out@;
                match filename {
                    Some(f) => {
                        push_str(&mut out, " filename=\"");
                        push_str(&mut out, f.as_str());
                        push_str(&mut out, "\"");
                    },
                    None => {},
                }
                push_str(&mut out, " />");
            },
            FirehoseCommand::Erase { sector_size, num_sectors, physical_partition, start_sector } => {
                push_str(&mut out, "<erase");
                push_sector_attrs(&mut out, *sector_size, *num_sectors, *physical_partition, *start_sector);
                push_str(&mut out, " />");
            },
            FirehoseCommand::GetStorageInfo => push_str(&mut out, "<getstorageinfo />"),
            FirehoseCommand::GetSha256Digest {
                sector_size,
                num_sectors,
                physical_partition,
                start_sector,
            } => {
                push_str(&mut out, "<getsha256digest");
                push_sector_attrs(&mut out, *sector_size, *num_sectors, *physical_partition, *start_sector);
                push_str(&mut out, " />");
            },
            FirehoseCommand::Peek { address, size } => {
                push_str(&mut out, "<peek address64=\"0x");
                push_hex(&mut out, *address, false);
                push_str(&mut out, "\" size_in_bytes=\"");
                push_dec(&mut out, *size as u64);
                push_str(&mut out, "\" />");
            },
            FirehoseCommand::Poke { address, data } => {
                push_str(&mut out, "<poke address64=\"0x");
                push_hex(&mut out, *address, false);
                push_str(&mut out, "\" size_in_bytes=\"");
                push_dec(&mut out, data.len() as u64);
                push_str(&mut out, "\" value64=\"");
                push_poke_values(&mut out, data);
                push_str(&mut out, "\" />");
            },
            FirehoseCommand::Power { value } => {
                push_str(&mut out, "<power value=\"");
                push_str(&mut out, value.as_str());
                push_str(&mut out, "\" />");
            },
            FirehoseCommand::RawXml(xml) => push_str(&mut out, xml.as_str()),
        }
        assert(out@ =~= command_xml(*self));
        out
    }
}

} // verus!
