//! Partitions, devices and storage capabilities.

use crate::base::util::{human_size, humanize_size};
use crate::text::push_str;
use vstd::prelude::*;

verus! {

/// The span of sectors `[first, last]` in bytes.
pub open spec fn span_bytes(first: u64, last: u64, sector_size: u32) -> int {
    (last - first + 1) * sector_size
}

#[derive(Debug)]
pub struct PartitionInfo {
    pub name: String,
    pub first_lba: u64,
    pub last_lba: u64,
    pub physical_partition: u8,
}

impl Clone for PartitionInfo {
    fn clone(&self) -> (r: Self)
        ensures
            r == *self,
    {
        PartitionInfo {
            name: self.name.clone(),
            first_lba: self.first_lba,
            last_lba: self.last_lba,
            physical_partition: self.physical_partition,
        }
    }
}

impl PartitionInfo {
    /// Size of the partition in bytes.
    pub fn size_bytes(&self, sector_size: u32) -> (r: u64)
        requires
            self.first_lba <= self.last_lba,
            self.last_lba - self.first_lba < u64::MAX,
            span_bytes(self.first_lba, self.last_lba, sector_size) <= u64::MAX,
        ensures
            r == span_bytes(self.first_lba, self.last_lba, sector_size),
    {
        let sectors = self.last_lba - self.first_lba + 1;
        sectors * (sector_size as u64)
    }
}

/// Qualcomm USB device operating mode, determined from interface descriptors.
#[derive(Debug, Clone, Copy, PartialEq, Eq, Structural)]
pub enum DeviceMode {
    /// Firehose/Sahara mode (class, subclass and protocol all 0xFF).
    Edl,
    /// DIAG mode (class and subclass 0xFF, another protocol).
    Diag,
    /// CDC modem interface.
    Modem,
    /// GPS/NMEA interface.
    Nmea,
    /// ADB interface.
    Adb,
    /// Could not be determined from USB descriptors; the PID decides.
    Unknown,
}

/// The Qualcomm USB vendor ID.
pub const QUALCOMM_VID: u16 = 0x05C6;

/// A PID that Qualcomm EDL mode is known to use (most SoCs use 0x9008,
/// newer ones 0x900E or 0x900D); the fallback when the USB interfaces
/// cannot be read.
pub open spec fn is_edl_pid(pid: u16) -> bool {
    pid == 0x9008 || pid == 0x900E || pid == 0x900D
}

/// A PID that Qualcomm DIAG mode is known to use.
pub open spec fn is_diag_pid(pid: u16) -> bool {
    pid == 0x90B8 || pid == 0x9091 || pid == 0x90E8
}

#[derive(Debug)]
pub struct DeviceInfo {
    /// Serial port name (e.g. "COM3", "/dev/ttyUSB0").
    pub port: String,
    pub serial: Option<String>,
    pub product: Option<String>,
    pub pid: u16,
    /// USB vendor ID (0x05C6 for Qualcomm).
    pub vid: u16,
    pub description: Option<String>,
    /// Device mode determined from USB interface descriptors.
    pub mode: DeviceMode,
}

/// A copy of an optional string.
pub fn clone_opt_string(s: &Option<String>) -> (r: Option<String>)
    ensures
        r == *s,
{
    match s {
        Some(v) => Some(v.clone()),
        None => None,
    }
}

impl Clone for DeviceInfo {
    fn clone(&self) -> (r: Self)
        ensures
            r == *self,
    {
        DeviceInfo {
            port: self.port.clone(),
            serial: clone_opt_string(&self.serial),
            product: clone_opt_string(&self.product),
            pid: self.pid,
            vid: self.vid,
            description: clone_opt_string(&self.description),
            mode: self.mode,
        }
    }
}

/// The device is in EDL (9008) mode: by its interfaces, or by its IDs when
/// the interfaces could not be read.
pub open spec fn device_is_edl(d: DeviceInfo) -> bool {
    match d.mode {
        DeviceMode::Edl => true,
        DeviceMode::Unknown => d.vid == 0x05C6 && is_edl_pid(d.pid),
        _ => false,
    }
}

/// The device is in DIAG mode: by its interfaces, or by its IDs when the
/// interfaces could not be read.
pub open spec fn device_is_diag(d: DeviceInfo) -> bool {
    match d.mode {
        DeviceMode::Diag => true,
        DeviceMode::Unknown => d.vid == 0x05C6 && is_diag_pid(d.pid),
        _ => false,
    }
}

/// The one-line description of a device: its port, then its serial and
/// description where known.
pub open spec fn device_line(d: DeviceInfo) -> Seq<char> {
    d.port@ + match d.serial {
        Some(s) => " (serial: "@ + s@ + ")"@,
        None => Seq::empty(),
    } + match d.description {
        Some(s) => " - "@ + s@,
        None => Seq::empty(),
    }
}

impl DeviceInfo {
    pub fn is_9008(&self) -> (r: bool)
        ensures
            r == device_is_edl(*self),
    {
        match self.mode {
            DeviceMode::Edl => true,
            DeviceMode::Unknown => self.vid == 0x05C6 && (self.pid == 0x9008 || self.pid == 0x900E
                || self.pid == 0x900D),
            _ => false,
        }
    }

    pub fn is_90b8(&self) -> (r: bool)
        ensures
            r == (self.vid == 0x05C6 && self.pid == 0x90B8),
    {
        self.vid == 0x05C6 && self.pid == 0x90B8
    }

    /// Whether the device is in any Qualcomm DIAG mode.
    pub fn is_diag(&self) -> (r: bool)
        ensures
            r == device_is_diag(*self),
    {
        match self.mode {
            DeviceMode::Diag => true,
            DeviceMode::Unknown => self.vid == 0x05C6 && (self.pid == 0x90B8 || self.pid == 0x9091
                || self.pid == 0x90E8),
            _ => false,
        }
    }

    /// The one-line description of the device.
    pub fn to_display_string(&self) -> (r: String)
        ensures
            r@ == device_line(*self),
    {
        let mut out = self.port.clone();
        let ghost a = out@;
        match &self.serial {
            Some(s) => {
                push_str(&mut out, " (serial: ");
                push_str(&mut out, s.as_str());
                push_str(&mut out, ")");
            },
            None => {},
        }
        let ghost b = out@;
        match &self.description {
            Some(s) => {
                push_str(&mut out, " - ");
                push_str(&mut out, s.as_str());
            },
            None => {},
        }
        assert(out@ =~= device_line(*self));
        out
    }
}

#[derive(Debug)]
pub struct DeviceCapabilities {
    /// Storage type (e.g. "eMMC", "UFS").
    pub memory_type: String,
    pub total_sectors: u64,
}

impl Clone for DeviceCapabilities {
    fn clone(&self) -> (r: Self)
        ensures
            r == *self,
    {
        DeviceCapabilities { memory_type: self.memory_type.clone(), total_sectors: self.total_sectors }
    }
}

impl Default for DeviceCapabilities {
    fn default() -> (r: Self)
        ensures
            r.memory_type@ == "eMMC"@,
            r.total_sectors == 0,
    {
        DeviceCapabilities { memory_type: String::from_str("eMMC"), total_sectors: 0 }
    }
}

impl DeviceCapabilities {
    /// Total device size in bytes.
    pub fn total_size_bytes(&self, sector_size: u32) -> (r: u64)
        requires
            self.total_sectors * sector_size <= u64::MAX,
        ensures
            r == self.total_sectors * sector_size,
    {
        self.total_sectors * (sector_size as u64)
    }

    /// Total device size with decimal units.
    pub fn total_size_human(&self, sector_size: u32) -> (r: String)
        requires
            self.total_sectors * sector_size <= u64::MAX,
        ensures
            r@ == human_size((self.total_sectors * sector_size) as u64),
    {
        humanize_size(self.total_size_bytes(sector_size))
    }
}

/// Receives the progress of a long operation; an application implements it.
pub trait ProgressReporter: Send + Sync {
    fn start(&self, total: u64, message: &str);

    fn update(&self, current: u64);

    fn finish(&self, message: &str);
}

/// A reporter that shows nothing.
pub struct NoopProgress;

impl ProgressReporter for NoopProgress {
    fn start(&self, _total: u64, _message: &str) {
    }

    fn update(&self, _current: u64) {
    }

    fn finish(&self, _message: &str) {
    }
}

} // verus!
