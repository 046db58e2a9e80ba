//! The Sahara handshake as a state machine: what each packet from the
//! device means and what to answer. The transport reads and writes are the
//! caller's.

use crate::base::event::{emit_event, Event, EventSink, SaharaEvent};
use crate::base::protocol::{SaharaCommand, SaharaMode, PROTOCOL_VERSION, PROTOCOL_VERSION_MIN};
use crate::sahara::error::SaharaError;
use crate::sahara::protocol::{SaharaHello, SaharaHelloResponse};
use crate::text::{contains_text, dec_str, hex_str, push_dec, push_hex_padded, push_str, str_contains, to_owned_string, utf8_lossy, utf8_to_string_lossy, zero_pad};
use crate::wire::{le32, le64, read_u32_le, read_u64_le};
use std::sync::Arc;
use vstd::prelude::*;

verus! {

#[derive(Debug, Clone, Copy, PartialEq, Eq, Structural)]
pub enum SaharaState {
    WaitingHello,
    HelloReceived,
    WaitingDataRequest,
    Transferring,
    Done,
    Error,
}

/// What the Sahara execute commands reported of the device.
#[derive(Debug, Clone)]
pub struct SaharaDeviceInfo {
    /// The raw MSM hardware ID bytes.
    pub msm_hw_id: Option<Vec<u8>>,
    /// The chip serial number.
    pub serial_num: Option<u64>,
}

impl Default for SaharaDeviceInfo {
    fn default() -> (r: Self)
        ensures
            r.msm_hw_id is None,
            r.serial_num is None,
    {
        SaharaDeviceInfo { msm_hw_id: None, serial_num: None }
    }
}

/// The chunk size assumed until the device's Hello gives its own.
pub const DEFAULT_MAX_CHUNK: usize = 1048576;

/// The probe sent to see whether a device already speaks Firehose.
pub const NOP_XML: &'static str = "<?xml version=\"1.0\" encoding=\"UTF-8\" ?>\n<data>\n<nop />\n</data>";

/// The mode a Hello's mode word names; unknown words mean image transfer.
pub open spec fn hello_mode(v: u32) -> SaharaMode {
    if v == 1 {
        SaharaMode::ImageTransferComplete
    } else if v == 2 {
        SaharaMode::MemoryDebug
    } else if v == 3 {
        SaharaMode::Command
    } else {
        SaharaMode::ImageTransfer
    }
}

/// Reserved word `i` of a Hello packet, zero where the packet is too
/// short for it.
pub open spec fn reserved_word(d: Seq<u8>, i: int) -> u32 {
    if 24 + i * 4 + 4 <= d.len() {
        le32(d, 24 + i * 4) as u32
    } else {
        0
    }
}

/// The Hello that the packet `d` carries (at least 24 bytes).
pub open spec fn hello_of(d: Seq<u8>) -> SaharaHello {
    SaharaHello {
        command: SaharaCommand::Hello,
        packet_length: le32(d, 4) as u32,
        version: le32(d, 8) as u32,
        version_min: le32(d, 12) as u32,
        max_command_length: le32(d, 16) as u32,
        mode: hello_mode(le32(d, 20) as u32),
        reserved: [
            reserved_word(d, 0),
            reserved_word(d, 1),
            reserved_word(d, 2),
            reserved_word(d, 3),
            reserved_word(d, 4),
            reserved_word(d, 5),
        ],
    }
}

/// Parses a Hello packet; fewer than 24 bytes fail.
pub fn parse_hello(data: &[u8]) -> (r: Result<SaharaHello, SaharaError>)
    ensures
        data@.len() < 24 ==> r matches Err(SaharaError::HelloFailed),
        data@.len() >= 24 ==> r == Ok::<SaharaHello, SaharaError>(hello_of(data@)),
{
    if data.len() < 24 {
        return Err(SaharaError::HelloFailed);
    }
    let mode_val = read_u32_le(data, 20);
    let mode = if mode_val == 1 {
        SaharaMode::ImageTransferComplete
    } else if mode_val == 2 {
        SaharaMode::MemoryDebug
    } else if mode_val == 3 {
        SaharaMode::Command
    } else {
        SaharaMode::ImageTransfer
    };
    let mut reserved: [u32; 6] = [0u32; 6];
    let mut i: usize = 0;
    while i < 6
        invariant
            i <= 6,
            data@.len() >= 24,
            forall|k: int| 0 <= k < i ==> reserved[k] == reserved_word(data@, k),
            forall|k: int| i <= k < 6 ==> reserved[k] == 0,
        decreases 6 - i,
    {
        let off = 24 + i * 4;
        if off + 4 <= data.len() {
            reserved.set(i, read_u32_le(data, off));
        }
        i = i + 1;
    }
    let h = SaharaHello {
        command: SaharaCommand::Hello,
        packet_length: read_u32_le(data, 4),
        version: read_u32_le(data, 8),
        version_min: read_u32_le(data, 12),
        max_command_length: read_u32_le(data, 16),
        mode,
        reserved,
    };
    assert(h.reserved =~= hello_of(data@).reserved);
    Ok(h)
}

/// What a command header read during the loader transfer asks for.
#[derive(Debug, Clone, Copy, PartialEq, Eq, Structural)]
pub enum TransferStep {
    /// A 32-bit read-data request: a 12-byte body follows.
    ReadData,
    /// A 64-bit read-data request: a 24-byte body follows.
    ReadData64,
    /// The transfer is over (end of transfer, or done response).
    Finished,
    /// Anything else: read the next header.
    Ignore,
}

/// The step a transfer command code asks for.
pub open spec fn transfer_step_of(cmd: u32) -> TransferStep {
    if cmd == 0x03 {
        TransferStep::ReadData
    } else if cmd == 0x12 {
        TransferStep::ReadData64
    } else if cmd == 0x04 || cmd == 0x06 {
        TransferStep::Finished
    } else {
        TransferStep::Ignore
    }
}

/// The step that an 8-byte command header asks for.
pub fn transfer_step(header: &[u8]) -> (r: TransferStep)
    requires
        header@.len() >= 8,
    ensures
        r == transfer_step_of(le32(header@, 0) as u32),
{
    let cmd = read_u32_le(header, 0);
    match SaharaCommand::from_u32(cmd) {
        Some(SaharaCommand::ReadData) => TransferStep::ReadData,
        Some(SaharaCommand::ReadData64) => TransferStep::ReadData64,
        Some(SaharaCommand::EndTransfer) => TransferStep::Finished,
        Some(SaharaCommand::DoneResponse) => TransferStep::Finished,
        _ => TransferStep::Ignore,
    }
}

/// A read-data request: image, offset and length.
pub fn read_data_request(body: &[u8]) -> (r: (u32, u64, u64))
    requires
        body@.len() >= 12,
    ensures
        r.0 == le32(body@, 0) && r.1 == le32(body@, 4) && r.2 == le32(body@, 8),
{
    (read_u32_le(body, 0), read_u32_le(body, 4) as u64, read_u32_le(body, 8) as u64)
}

/// A 64-bit read-data request: image (its low 32 bits), offset and length.
pub fn read_data64_request(body: &[u8]) -> (r: (u32, u64, u64))
    requires
        body@.len() >= 24,
    ensures
        r.0 == (le64(body@, 0) as u64) as u32 && r.1 == le64(body@, 8) && r.2 == le64(body@, 16),
{
    (read_u64_le(body, 0) as u32, read_u64_le(body, 8), read_u64_le(body, 16))
}

/// The message for a request past the end of the loader.
pub open spec fn loader_too_small(length: u64, offset: u64, size: nat) -> Seq<char> {
    "loader too small: need "@ + dec_str(length as nat) + " bytes at offset "@ + dec_str(offset as nat)
        + ", file is "@ + dec_str(size) + " bytes"@
}

/// The message for a failed execute command.
pub open spec fn exec_failed_text(client_cmd: u32, status: u32) -> Seq<char> {
    "exec cmd 0x"@ + zero_pad(hex_str(client_cmd as nat, true), 2) + " failed with status 0x"@
        + zero_pad(hex_str(status as nat, true), 2)
}

/// What an execute response header (16 bytes) says: the length of the
/// data that follows, or why there is none.
pub fn exec_response(header: &[u8], client_cmd: u32) -> (r: Result<u32, SaharaError>)
    requires
        header@.len() >= 16,
    ensures
        le32(header@, 0) == 0x0E ==> r == Ok::<u32, SaharaError>(le32(header@, 12) as u32),
        le32(header@, 0) == 0x04 ==> (r matches Err(SaharaError::TransferFailed { offset, reason })
            && offset == 0 && reason@ == exec_failed_text(client_cmd, le32(header@, 8) as u32)),
        le32(header@, 0) != 0x0E && le32(header@, 0) != 0x04 ==> (r matches Err(
            SaharaError::UnexpectedCommand { cmd },
        ) && cmd == le32(header@, 0)),
{
    let cmd = read_u32_le(header, 0);
    if cmd == 0x0E {
        Ok(read_u32_le(header, 12))
    } else if cmd == 0x04 {
        let status = read_u32_le(header, 8);
        let mut reason = to_owned_string("exec cmd 0x");
        push_hex_padded(&mut reason, client_cmd as u64, 2, true);
        push_str(&mut reason, " failed with status 0x");
        push_hex_padded(&mut reason, status as u64, 2, true);
        Err(SaharaError::TransferFailed { offset: 0, reason })
    } else {
        Err(SaharaError::UnexpectedCommand { cmd })
    }
}

/// The message for a serial-number answer that is too short.
pub open spec fn serial_short_text(n: nat) -> Seq<char> {
    "serial num response too short: "@ + dec_str(n) + " bytes"@
}

/// The chip serial number in the data of a serial-number execute command:
/// its first eight bytes, little-endian; fewer than four bytes fail.
pub fn serial_from(data: &Vec<u8>) -> (r: Result<u64, SaharaError>)
    requires
        data@.len() < 4 || data@.len() >= 8,
    ensures
        data@.len() >= 8 ==> r == Ok::<u64, SaharaError>(le64(data@, 0) as u64),
        data@.len() < 4 ==> (r matches Err(SaharaError::TransferFailed { offset, reason }) && offset
            == 0 && reason@ == serial_short_text(data@.len())),
{
    if data.len() >= 4 {
        Ok(read_u64_le(data.as_slice(), 0))
    } else {
        let mut reason = to_owned_string("serial num response too short: ");
        push_dec(&mut reason, data.len() as u64);
        push_str(&mut reason, " bytes");
        Err(SaharaError::TransferFailed { offset: 0, reason })
    }
}

/// Whether the answer to the Firehose probe acknowledges it.
pub fn nop_acked(answer: &[u8]) -> (r: bool)
    ensures
        r == contains_text(utf8_lossy(answer@), "ACK"@),
{
    let text = utf8_to_string_lossy(answer);
    str_contains(text.as_str(), "ACK")
}

/// The handshake's state.
pub struct SaharaSession {
    pub(crate) state: SaharaState,
    pub(crate) protocol_version: u32,
    pub(crate) max_chunk_size: usize,
    pub(crate) event_sink: Option<Arc<dyn EventSink>>,
}

impl SaharaSession {
    pub closed spec fn spec_state(&self) -> SaharaState {
        self.state
    }

    pub closed spec fn spec_max_chunk_size(&self) -> usize {
        self.max_chunk_size
    }

    pub closed spec fn spec_protocol_version(&self) -> u32 {
        self.protocol_version
    }

    pub fn new() -> (s: Self)
        ensures
            s.spec_event_sink() is None,
            s.spec_state() == SaharaState::WaitingHello,
            s.spec_protocol_version() == PROTOCOL_VERSION,
            s.spec_max_chunk_size() == DEFAULT_MAX_CHUNK,
    {
        SaharaSession {
            state: SaharaState::WaitingHello,
            protocol_version: PROTOCOL_VERSION,
            max_chunk_size: DEFAULT_MAX_CHUNK,
            event_sink: None,
        }
    }

    /// The sink that receives the handshake's events, if any.
    pub closed spec fn spec_event_sink(&self) -> Option<Arc<dyn EventSink>> {
        self.event_sink
    }

    /// The same session, reporting its events to `sink`.
    pub fn with_event_sink(self, sink: Option<Arc<dyn EventSink>>) -> (s: Self)
        ensures
            s.spec_event_sink() == sink,
            s.spec_state() == self.spec_state(),
            s.spec_protocol_version() == self.spec_protocol_version(),
            s.spec_max_chunk_size() == self.spec_max_chunk_size(),
    {
        let mut s = self;
        s.event_sink = sink;
        s
    }

    fn emit(&self, event: SaharaEvent) {
        emit_event(&self.event_sink, Event::Sahara(event));
    }

    pub fn state(&self) -> (r: SaharaState)
        ensures
            r == self.spec_state(),
    {
        self.state
    }

    /// The chunk size the device's Hello announced.
    pub fn max_chunk_size(&self) -> (r: usize)
        ensures
            r == self.spec_max_chunk_size(),
    {
        self.max_chunk_size
    }

    /// Reports that the handshake starts.
    pub fn begin_handshake(&self) {
        self.emit(SaharaEvent::HandshakeStarted);
    }

    /// Reports that the device already speaks Firehose.
    pub fn report_firehose_mode(&self) {
        self.emit(SaharaEvent::AlreadyInFirehoseMode);
    }

    /// Starts waiting for the device's Hello.
    pub fn begin_hello(&mut self)
        ensures
            final(self).spec_event_sink() == old(self).spec_event_sink(),
            final(self).spec_state() == SaharaState::WaitingHello,
            final(self).spec_max_chunk_size() == old(self).spec_max_chunk_size(),
            final(self).spec_protocol_version() == old(self).spec_protocol_version(),
    {
        self.state = SaharaState::WaitingHello;
    }

    /// Takes in the 48 bytes read while waiting for Hello: text (a first
    /// byte of 0x20 or more) means the device already speaks Firehose;
    /// another command than Hello is unexpected; a Hello is taken, with its
    /// chunk size.
    pub fn on_hello(&mut self, buf: &[u8]) -> (r: Result<SaharaHello, SaharaError>)
        requires
            old(self).spec_state() == SaharaState::WaitingHello,
            buf@.len() == 48,
        ensures
            final(self).spec_event_sink() == old(self).spec_event_sink(),
            buf@[0] >= 0x20 ==> (r matches Err(SaharaError::AlreadyInFirehose)) && final(self).spec_state()
                == old(self).spec_state() && final(self).spec_max_chunk_size() == old(
                self,
            ).spec_max_chunk_size(),
            buf@[0] < 0x20 && le32(buf@, 0) != 1 ==> (r matches Err(SaharaError::UnexpectedCommand { cmd })
                && cmd == le32(buf@, 0)) && final(self).spec_state() == old(self).spec_state()
                && final(self).spec_max_chunk_size() == old(self).spec_max_chunk_size(),
            buf@[0] < 0x20 && le32(buf@, 0) == 1 ==> r == Ok::<SaharaHello, SaharaError>(hello_of(buf@))
                && final(self).spec_state() == SaharaState::HelloReceived && final(self).spec_max_chunk_size()
                == le32(buf@, 16),
            final(self).spec_protocol_version() == old(self).spec_protocol_version(),
    {
        if buf[0] >= 0x20 {
            return Err(SaharaError::AlreadyInFirehose);
        }
        let cmd = read_u32_le(buf, 0);
        if cmd != 1 {
            return Err(SaharaError::UnexpectedCommand { cmd });
        }
        self.state = SaharaState::HelloReceived;
        self.emit(SaharaEvent::HelloReceived);
        self.max_chunk_size = read_u32_le(buf, 16) as usize;
        parse_hello(buf)
    }

    /// The answer to `hello`: this host's versions, the requested mode, and
    /// the Hello's reserved words.
    pub fn hello_response(&self, hello: &SaharaHello, mode: SaharaMode) -> (r: SaharaHelloResponse)
        ensures
            r.command == SaharaCommand::HelloResponse,
            r.packet_length == 48,
            r.version == self.spec_protocol_version(),
            r.version_min == PROTOCOL_VERSION_MIN,
            r.max_command_length == 0,
            r.mode == mode,
            r.reserved == hello.reserved,
    {
        SaharaHelloResponse {
            command: SaharaCommand::HelloResponse,
            packet_length: 48,
            version: self.protocol_version,
            version_min: PROTOCOL_VERSION_MIN,
            max_command_length: 0,
            mode,
            reserved: hello.reserved,
        }
    }

    /// The Hello response sent without a Hello to recover a device that
    /// sent none: as `hello_response`, with zero reserved words.
    pub fn recovery_response(&self, mode: SaharaMode) -> (r: SaharaHelloResponse)
        ensures
            r.command == SaharaCommand::HelloResponse,
            r.packet_length == 48,
            r.version == self.spec_protocol_version(),
            r.version_min == PROTOCOL_VERSION_MIN,
            r.max_command_length == 0,
            r.mode == mode,
            r.reserved@ == seq![0u32, 0u32, 0u32, 0u32, 0u32, 0u32],
    {
        let r = SaharaHelloResponse {
            command: SaharaCommand::HelloResponse,
            packet_length: 48,
            version: self.protocol_version,
            version_min: PROTOCOL_VERSION_MIN,
            max_command_length: 0,
            mode,
            reserved: [0u32; 6],
        };
        assert(r.reserved@ =~= seq![0u32, 0u32, 0u32, 0u32, 0u32, 0u32]);
        r
    }

    /// Starts the loader transfer.
    pub fn begin_upload(&mut self)
        ensures
            final(self).spec_event_sink() == old(self).spec_event_sink(),
            final(self).spec_state() == SaharaState::WaitingDataRequest,
            final(self).spec_max_chunk_size() == old(self).spec_max_chunk_size(),
            final(self).spec_protocol_version() == old(self).spec_protocol_version(),
    {
        self.state = SaharaState::WaitingDataRequest;
    }

    /// The part of a loader of `loader_len` bytes that a read-data request
    /// asks for, as a byte range; a range past the end of the loader fails.
    /// The transfer is reported as far as the range's end.
    pub fn loader_chunk(&mut self, loader_len: usize, offset: u64, length: u64) -> (r: Result<(usize, usize), SaharaError>)
        requires
            offset + length <= usize::MAX,
        ensures
            final(self).spec_event_sink() == old(self).spec_event_sink(),
            offset + length <= loader_len ==> r == Ok::<(usize, usize), SaharaError>(
                (offset as usize, (offset + length) as usize),
            ) && final(self).spec_state() == SaharaState::Transferring,
            offset + length > loader_len ==> (r matches Err(SaharaError::TransferFailed { offset: o, reason })
                && o == offset && reason@ == loader_too_small(length, offset, loader_len as nat))
                && final(self).spec_state() == old(self).spec_state(),
            final(self).spec_max_chunk_size() == old(self).spec_max_chunk_size(),
            final(self).spec_protocol_version() == old(self).spec_protocol_version(),
    {
        let start = offset as usize;
        let end = start + length as usize;
        if end > loader_len {
            let mut reason = to_owned_string("loader too small: need ");
            push_dec(&mut reason, length);
            push_str(&mut reason, " bytes at offset ");
            push_dec(&mut reason, offset);
            push_str(&mut reason, ", file is ");
            push_dec(&mut reason, loader_len as u64);
            push_str(&mut reason, " bytes");
            return Err(SaharaError::TransferFailed { offset, reason });
        }
        self.state = SaharaState::Transferring;
        self.emit(SaharaEvent::LoaderTransferring { sent: offset + length, total: loader_len as u64 });
        Ok((start, end))
    }

    /// Ends the handshake.
    pub fn finish(&mut self)
        ensures
            final(self).spec_event_sink() == old(self).spec_event_sink(),
            final(self).spec_state() == SaharaState::Done,
            final(self).spec_max_chunk_size() == old(self).spec_max_chunk_size(),
            final(self).spec_protocol_version() == old(self).spec_protocol_version(),
    {
        self.state = SaharaState::Done;
        self.emit(SaharaEvent::HandshakeComplete);
    }
}

/// What the handshake does after trying to read the device's Hello.
#[derive(Debug)]
pub enum HelloStep {
    /// Answer this Hello and go on.
    Proceed(SaharaHello),
    /// The device already speaks Firehose: stop, with nothing learned.
    InFirehose,
    /// No Hello came: probe whether the device speaks Firehose.
    Probe,
    Fail(SaharaError),
}

/// What the handshake does after the Firehose probe.
#[derive(Debug, Clone, Copy, PartialEq, Eq, Structural)]
pub enum ProbeStep {
    /// The device acknowledged: it speaks Firehose.
    InFirehose,
    /// Send a Hello response unasked and switch modes, then read Hello
    /// again.
    Recover,
    /// No loader to upload: the device cannot be brought to Firehose.
    NoLoader,
}

/// The step after reading Hello: a Hello goes on, text from the device
/// means Firehose; a missing Hello is probed on the first attempt and
/// fails after recovery; other errors fail.
pub fn after_hello(r: Result<SaharaHello, SaharaError>, retried: bool) -> (s: HelloStep)
    ensures
        match r {
            Ok(h) => s == HelloStep::Proceed(h),
            Err(SaharaError::AlreadyInFirehose) => s is InFirehose,
            Err(SaharaError::HelloFailed) => if retried {
                s matches HelloStep::Fail(SaharaError::HelloFailed)
            } else {
                s is Probe
            },
            Err(e) => s == HelloStep::Fail(e),
        },
{
    match r {
        Ok(h) => HelloStep::Proceed(h),
        Err(SaharaError::AlreadyInFirehose) => HelloStep::InFirehose,
        Err(SaharaError::HelloFailed) => {
            if retried {
                HelloStep::Fail(SaharaError::HelloFailed)
            } else {
                HelloStep::Probe
            }
        },
        Err(e) => HelloStep::Fail(e),
    }
}

/// The step after the Firehose probe: an acknowledgement means Firehose;
/// otherwise recovery when a loader is at hand, else the device cannot be
/// used.
pub fn after_probe(acked: bool, has_loader: bool) -> (s: ProbeStep)
    ensures
        s == (if acked {
            ProbeStep::InFirehose
        } else if has_loader {
            ProbeStep::Recover
        } else {
            ProbeStep::NoLoader
        }),
{
    if acked {
        ProbeStep::InFirehose
    } else if has_loader {
        ProbeStep::Recover
    } else {
        ProbeStep::NoLoader
    }
}

/// Whether the device is asked for its hardware ID and serial: only in
/// command mode.
pub fn queries_device_info(hello: &SaharaHello) -> (r: bool)
    ensures
        r == (hello.mode == SaharaMode::Command),
{
    match hello.mode {
        SaharaMode::Command => true,
        _ => false,
    }
}

} // verus!
