//! Protocol constants and identifiers shared by the Sahara and Firehose
//! layers.

use crate::text::str_eq;
use vstd::prelude::*;

verus! {

/// Size in bytes of a Sahara Hello packet.
pub const HELLO_PACKET_SIZE: usize = 48;

/// The Sahara protocol version this host speaks.
pub const PROTOCOL_VERSION: u32 = 2;

/// The oldest Sahara protocol version this host accepts.
pub const PROTOCOL_VERSION_MIN: u32 = 2;

/// Default transfer chunk size.
pub const DEFAULT_CHUNK_SIZE: usize = 65536;

/// Firehose tag and attribute names, and the Firehose defaults.
pub const TAG_CONFIGURE: &'static str = "configure";

pub const TAG_READ: &'static str = "read";

pub const TAG_PROGRAM: &'static str = "program";

pub const TAG_ERASE: &'static str = "erase";

pub const TAG_GETSTORAGEINFO: &'static str = "getstorageinfo";

pub const TAG_POWER: &'static str = "power";

pub const TAG_RESPONSE: &'static str = "response";

pub const TAG_DATA: &'static str = "data";

pub const TAG_LOG: &'static str = "log";

pub const VALUE_ACK: &'static str = "ACK";

pub const VALUE_NAK: &'static str = "NAK";

pub const ATTR_SECTOR_SIZE: &'static str = "SECTOR_SIZE_IN_BYTES";

pub const ATTR_NUM_SECTORS: &'static str = "num_partition_sectors";

pub const ATTR_PHYSICAL_PARTITION: &'static str = "physical_partition_number";

pub const ATTR_START_SECTOR: &'static str = "start_sector";

pub const ATTR_MEMORY_NAME: &'static str = "MemoryName";

pub const ATTR_MAX_PAYLOAD: &'static str = "MaxPayloadSizeToTargetInBytes";

pub const ATTR_VALUE: &'static str = "value";

pub const ATTR_RAWMODE: &'static str = "rawmode";

pub const DEFAULT_SECTOR_SIZE: u32 = 512;

pub const DEFAULT_MAX_PAYLOAD: u32 = 1048576;

/// Sahara exec command: read the chip serial number.
pub const EXEC_SERIAL_NUM_READ: u32 = 0x01;

/// Sahara exec command: read the MSM hardware ID.
pub const EXEC_MSM_HW_ID_READ: u32 = 0x02;

#[derive(Debug, Clone, Copy, PartialEq, Eq, Structural)]
pub enum SaharaCommand {
    Hello,
    HelloResponse,
    ReadData,
    EndTransfer,
    DoneRequest,
    DoneResponse,
    ResetRequest,
    ResetResponse,
    MemoryDebug,
    MemoryRead,
    CmdReady,
    SwitchMode,
    ExecuteRequest,
    ExecuteResponse,
    ExecuteData,
    MemoryDebug64,
    MemoryRead64,
    ReadData64,
}

/// The wire code of a Sahara command.
pub open spec fn command_code(c: SaharaCommand) -> u32 {
    match c {
        SaharaCommand::Hello => 0x01,
        SaharaCommand::HelloResponse => 0x02,
        SaharaCommand::ReadData => 0x03,
        SaharaCommand::EndTransfer => 0x04,
        SaharaCommand::DoneRequest => 0x05,
        SaharaCommand::DoneResponse => 0x06,
        SaharaCommand::ResetRequest => 0x07,
        SaharaCommand::ResetResponse => 0x08,
        SaharaCommand::MemoryDebug => 0x09,
        SaharaCommand::MemoryRead => 0x0A,
        SaharaCommand::CmdReady => 0x0B,
        SaharaCommand::SwitchMode => 0x0C,
        SaharaCommand::ExecuteRequest => 0x0D,
        SaharaCommand::ExecuteResponse => 0x0E,
        SaharaCommand::ExecuteData => 0x0F,
        SaharaCommand::MemoryDebug64 => 0x10,
        SaharaCommand::MemoryRead64 => 0x11,
        SaharaCommand::ReadData64 => 0x12,
    }
}

impl SaharaCommand {
    /// The wire code of this command.
    pub fn as_u32(self) -> (r: u32)
        ensures
            r == command_code(self),
    {
        match self {
            SaharaCommand::Hello => 0x01,
            SaharaCommand::HelloResponse => 0x02,
            SaharaCommand::ReadData => 0x03,
            SaharaCommand::EndTransfer => 0x04,
            SaharaCommand::DoneRequest => 0x05,
            SaharaCommand::DoneResponse => 0x06,
            SaharaCommand::ResetRequest => 0x07,
            SaharaCommand::ResetResponse => 0x08,
            SaharaCommand::MemoryDebug => 0x09,
            SaharaCommand::MemoryRead => 0x0A,
            SaharaCommand::CmdReady => 0x0B,
            SaharaCommand::SwitchMode => 0x0C,
            SaharaCommand::ExecuteRequest => 0x0D,
            SaharaCommand::ExecuteResponse => 0x0E,
            SaharaCommand::ExecuteData => 0x0F,
            SaharaCommand::MemoryDebug64 => 0x10,
            SaharaCommand::MemoryRead64 => 0x11,
            SaharaCommand::ReadData64 => 0x12,
        }
    }

    /// The command with wire code `val`, if any.
    pub fn from_u32(val: u32) -> (r: Option<Self>)
        ensures
            match r {
                Some(c) => command_code(c) == val,
                None => val < 0x01 || val > 0x12,
            },
    {
        match val {
            0x01 => Some(SaharaCommand::Hello),
            0x02 => Some(SaharaCommand::HelloResponse),
            0x03 => Some(SaharaCommand::ReadData),
            0x04 => Some(SaharaCommand::EndTransfer),
            0x05 => Some(SaharaCommand::DoneRequest),
            0x06 => Some(SaharaCommand::DoneResponse),
            0x07 => Some(SaharaCommand::ResetRequest),
            0x08 => Some(SaharaCommand::ResetResponse),
            0x09 => Some(SaharaCommand::MemoryDebug),
            0x0A => Some(SaharaCommand::MemoryRead),
            0x0B => Some(SaharaCommand::CmdReady),
            0x0C => Some(SaharaCommand::SwitchMode),
            0x0D => Some(SaharaCommand::ExecuteRequest),
            0x0E => Some(SaharaCommand::ExecuteResponse),
            0x0F => Some(SaharaCommand::ExecuteData),
            0x10 => Some(SaharaCommand::MemoryDebug64),
            0x11 => Some(SaharaCommand::MemoryRead64),
            0x12 => Some(SaharaCommand::ReadData64),
            _ => None,
        }
    }
}

/// Decoding a command's wire code gives the command back, and distinct
/// commands have distinct codes.
pub proof fn lemma_command_code_roundtrip(c: SaharaCommand, d: SaharaCommand)
    ensures
        0x01 <= command_code(c) <= 0x12,
        command_code(c) == command_code(d) ==> c == d,
{
}

#[derive(Debug, Clone, Copy, PartialEq, Eq, Structural)]
pub enum SaharaMode {
    ImageTransfer,
    ImageTransferComplete,
    MemoryDebug,
    Command,
}

/// The wire code of a Sahara mode.
pub open spec fn mode_code(m: SaharaMode) -> u32 {
    match m {
        SaharaMode::ImageTransfer => 0,
        SaharaMode::ImageTransferComplete => 1,
        SaharaMode::MemoryDebug => 2,
        SaharaMode::Command => 3,
    }
}

impl SaharaMode {
    /// The wire code of this mode.
    pub fn as_u32(self) -> (r: u32)
        ensures
            r == mode_code(self),
    {
        match self {
            SaharaMode::ImageTransfer => 0,
            SaharaMode::ImageTransferComplete => 1,
            SaharaMode::MemoryDebug => 2,
            SaharaMode::Command => 3,
        }
    }
}

#[derive(Debug, Clone, PartialEq, Eq)]
pub enum FirehoseFunction {
    Program,
    Read,
    Erase,
    Peek,
    Poke,
    Nop,
    Unknown(String),
}

/// Two functions name the same operation.
pub open spec fn same_function(a: FirehoseFunction, b: FirehoseFunction) -> bool {
    match (a, b) {
        (FirehoseFunction::Program, FirehoseFunction::Program) => true,
        (FirehoseFunction::Read, FirehoseFunction::Read) => true,
        (FirehoseFunction::Erase, FirehoseFunction::Erase) => true,
        (FirehoseFunction::Peek, FirehoseFunction::Peek) => true,
        (FirehoseFunction::Poke, FirehoseFunction::Poke) => true,
        (FirehoseFunction::Nop, FirehoseFunction::Nop) => true,
        (FirehoseFunction::Unknown(x), FirehoseFunction::Unknown(y)) => x@ == y@,
        _ => false,
    }
}

/// The function a name denotes.
pub open spec fn function_named(s: Seq<char>, f: FirehoseFunction) -> bool {
    if s == "program"@ {
        f == FirehoseFunction::Program
    } else if s == "read"@ {
        f == FirehoseFunction::Read
    } else if s == "erase"@ {
        f == FirehoseFunction::Erase
    } else if s == "peek"@ {
        f == FirehoseFunction::Peek
    } else if s == "poke"@ {
        f == FirehoseFunction::Poke
    } else if s == "nop"@ {
        f == FirehoseFunction::Nop
    } else {
        f matches FirehoseFunction::Unknown(n) && n@ == s
    }
}

impl FirehoseFunction {
    /// The function a name denotes; names it does not know are kept.
    pub fn parse(s: &str) -> (f: FirehoseFunction)
        ensures
            function_named(s@, f),
    {
        if str_eq(s, "program") {
            FirehoseFunction::Program
        } else if str_eq(s, "read") {
            FirehoseFunction::Read
        } else if str_eq(s, "erase") {
            FirehoseFunction::Erase
        } else if str_eq(s, "peek") {
            FirehoseFunction::Peek
        } else if str_eq(s, "poke") {
            FirehoseFunction::Poke
        } else if str_eq(s, "nop") {
            FirehoseFunction::Nop
        } else {
            FirehoseFunction::Unknown(String::from_str(s))
        }
    }

    /// Whether `self` and `other` name the same operation.
    pub fn same_as(&self, other: &FirehoseFunction) -> (r: bool)
        ensures
            r == same_function(*self, *other),
    {
        match (self, other) {
            (FirehoseFunction::Program, FirehoseFunction::Program) => true,
            (FirehoseFunction::Read, FirehoseFunction::Read) => true,
            (FirehoseFunction::Erase, FirehoseFunction::Erase) => true,
            (FirehoseFunction::Peek, FirehoseFunction::Peek) => true,
            (FirehoseFunction::Poke, FirehoseFunction::Poke) => true,
            (FirehoseFunction::Nop, FirehoseFunction::Nop) => true,
            (FirehoseFunction::Unknown(x), FirehoseFunction::Unknown(y)) => str_eq(x.as_str(), y.as_str()),
            _ => false,
        }
    }
}

impl std::str::FromStr for FirehoseFunction {
    type Err = ();

    fn from_str(s: &str) -> (r: Result<Self, Self::Err>)
        ensures
            r matches Ok(f) && function_named(s@, f),
    {
        Ok(FirehoseFunction::parse(s))
    }
}

#[derive(Debug)]
pub struct FirehoseInfo {
    pub sector_size: u32,
    pub max_payload_size: u32,
    pub max_payload_size_from_target: Option<u32>,
    pub max_payload_size_to_target_supported: Option<u32>,
    pub max_xml_size: Option<u32>,
    pub target_name: Option<String>,
    pub version: Option<String>,
    pub supported_functions: Vec<FirehoseFunction>,
}

/// The defaults before a device has been configured.
pub open spec fn firehose_info_default(i: FirehoseInfo) -> bool {
    &&& i.sector_size == 512
    &&& i.max_payload_size == 1048576
    &&& i.max_payload_size_from_target is None
    &&& i.max_payload_size_to_target_supported is None
    &&& i.max_xml_size is None
    &&& i.target_name is None
    &&& i.version is None
    &&& i.supported_functions@.len() == 0
}

/// The default information lists no functions, so it supports none.
pub proof fn lemma_default_supports_none(info: FirehoseInfo, func: FirehoseFunction)
    requires
        firehose_info_default(info),
    ensures
        !exists|i: int|
            0 <= i < info.supported_functions@.len() && same_function(
                #[trigger] info.supported_functions@[i],
                func,
            ),
{
}

impl Default for FirehoseInfo {
    fn default() -> (r: Self)
        ensures
            firehose_info_default(r),
    {
        FirehoseInfo {
            sector_size: 512,
            max_payload_size: 1048576,
            max_payload_size_from_target: None,
            max_payload_size_to_target_supported: None,
            max_xml_size: None,
            target_name: None,
            version: None,
            supported_functions: Vec::new(),
        }
    }
}

impl FirehoseInfo {
    /// Whether the device reported `func` among its functions.
    pub fn supports(&self, func: &FirehoseFunction) -> (r: bool)
        ensures
            r == exists|i: int|
                0 <= i < self.supported_functions@.len() && same_function(
                    #[trigger] self.supported_functions@[i],
                    *func,
                ),
    {
        let mut i: usize = 0;
        while i < self.supported_functions.len()
            invariant
                i <= self.supported_functions@.len(),
                forall|j: int|
                    0 <= j < i ==> !same_function(#[trigger] self.supported_functions@[j], *func),
            decreases self.supported_functions@.len() - i,
        {
            if self.supported_functions[i].same_as(func) {
                return true;
            }
            i = i + 1;
        }
        false
    }
}

} // verus!
