//! Sahara packets: image IDs, status codes, and the Hello, Execute and
//! control packets with their little-endian encodings.

use crate::base::protocol::{command_code, mode_code, SaharaCommand, SaharaMode};
use crate::wire::{le32_bytes, push_u32_le};
use vstd::prelude::*;

verus! {

/// Images a device may ask for.
#[derive(Debug, Clone, Copy, PartialEq, Eq, Structural)]
pub enum ImageId {
    OemSbl,
    Amss,
    Firehose,
    Storage,
    Dsps,
    Apps,
    FirehoseV2,
}

/// The wire code of an image ID.
pub open spec fn image_code(i: ImageId) -> u32 {
    match i {
        ImageId::OemSbl => 0x01,
        ImageId::Amss => 0x05,
        ImageId::Firehose => 0x07,
        ImageId::Storage => 0x0A,
        ImageId::Dsps => 0x0B,
        ImageId::Apps => 0x0C,
        ImageId::FirehoseV2 => 0x0D,
    }
}

impl ImageId {
    pub fn as_u32(self) -> (r: u32)
        ensures
            r == image_code(self),
    {
        match self {
            ImageId::OemSbl => 0x01,
            ImageId::Amss => 0x05,
            ImageId::Firehose => 0x07,
            ImageId::Storage => 0x0A,
            ImageId::Dsps => 0x0B,
            ImageId::Apps => 0x0C,
            ImageId::FirehoseV2 => 0x0D,
        }
    }
}

/// Status codes of Sahara end-of-transfer packets.
#[derive(Debug, Clone, Copy, PartialEq, Eq, Structural)]
pub enum SaharaStatus {
    Success,
    InvalidCmd,
    ProtocolMismatch,
    InvalidTargetProtocol,
    InvalidHostProtocol,
    InvalidPacketSize,
    UnexpectedImageId,
    InvalidHeaderSize,
    InvalidDataSize,
    InvalidImageType,
    InvalidTxLength,
    InvalidRxLength,
    GeneralTxRxError,
    ReadDataError,
}

/// The wire code of a status.
pub open spec fn status_code(s: SaharaStatus) -> u32 {
    match s {
        SaharaStatus::Success => 0x00,
        SaharaStatus::InvalidCmd => 0x01,
        SaharaStatus::ProtocolMismatch => 0x02,
        SaharaStatus::InvalidTargetProtocol => 0x03,
        SaharaStatus::InvalidHostProtocol => 0x04,
        SaharaStatus::InvalidPacketSize => 0x05,
        SaharaStatus::UnexpectedImageId => 0x06,
        SaharaStatus::InvalidHeaderSize => 0x07,
        SaharaStatus::InvalidDataSize => 0x08,
        SaharaStatus::InvalidImageType => 0x09,
        SaharaStatus::InvalidTxLength => 0x0A,
        SaharaStatus::InvalidRxLength => 0x0B,
        SaharaStatus::GeneralTxRxError => 0x0C,
        SaharaStatus::ReadDataError => 0x0D,
    }
}

impl SaharaStatus {
    pub fn as_u32(self) -> (r: u32)
        ensures
            r == status_code(self),
    {
        match self {
            SaharaStatus::Success => 0x00,
            SaharaStatus::InvalidCmd => 0x01,
            SaharaStatus::ProtocolMismatch => 0x02,
            SaharaStatus::InvalidTargetProtocol => 0x03,
            SaharaStatus::InvalidHostProtocol => 0x04,
            SaharaStatus::InvalidPacketSize => 0x05,
            SaharaStatus::UnexpectedImageId => 0x06,
            SaharaStatus::InvalidHeaderSize => 0x07,
            SaharaStatus::InvalidDataSize => 0x08,
            SaharaStatus::InvalidImageType => 0x09,
            SaharaStatus::InvalidTxLength => 0x0A,
            SaharaStatus::InvalidRxLength => 0x0B,
            SaharaStatus::GeneralTxRxError => 0x0C,
            SaharaStatus::ReadDataError => 0x0D,
        }
    }
}

#[derive(Debug, Clone, Copy)]
pub struct SaharaHello {
    pub command: SaharaCommand,
    pub packet_length: u32,
    pub version: u32,
    pub version_min: u32,
    pub max_command_length: u32,
    pub mode: SaharaMode,
    pub reserved: [u32; 6],
}

#[derive(Debug, Clone, Copy)]
pub struct SaharaHelloResponse {
    pub command: SaharaCommand,
    pub packet_length: u32,
    pub version: u32,
    pub version_min: u32,
    pub max_command_length: u32,
    pub mode: SaharaMode,
    pub reserved: [u32; 6],
}

#[derive(Debug, Clone, Copy)]
pub struct SaharaExecCmd {
    pub command: SaharaCommand,
    pub packet_length: u32,
    pub client_cmd: u32,
}

#[derive(Debug, Clone, Copy)]
pub struct SaharaExecRsp {
    pub command: SaharaCommand,
    pub packet_length: u32,
    pub client_cmd: u32,
    pub data_len: u32,
}

/// The 48-byte encoding of a Hello response: the six header words, then the
/// six reserved words, little-endian.
pub open spec fn hello_response_bytes(r: SaharaHelloResponse) -> Seq<u8> {
    le32_bytes(command_code(r.command)) + le32_bytes(r.packet_length) + le32_bytes(r.version)
        + le32_bytes(r.version_min) + le32_bytes(r.max_command_length) + le32_bytes(mode_code(r.mode))
        + le32_bytes(r.reserved[0]) + le32_bytes(r.reserved[1]) + le32_bytes(r.reserved[2])
        + le32_bytes(r.reserved[3]) + le32_bytes(r.reserved[4]) + le32_bytes(r.reserved[5])
}

impl SaharaHelloResponse {
    /// The packet's bytes.
    pub fn to_bytes(&self) -> (out: Vec<u8>)
        ensures
            out@ == hello_response_bytes(*self),
            out@.len() == 48,
    {
        let mut out: Vec<u8> = Vec::new();
        push_u32_le(&mut out, self.command.as_u32());
        push_u32_le(&mut out, self.packet_length);
        push_u32_le(&mut out, self.version);
        push_u32_le(&mut out, self.version_min);
        push_u32_le(&mut out, self.max_command_length);
        push_u32_le(&mut out, self.mode.as_u32());
        push_u32_le(&mut out, self.reserved[0]);
        push_u32_le(&mut out, self.reserved[1]);
        push_u32_le(&mut out, self.reserved[2]);
        push_u32_le(&mut out, self.reserved[3]);
        push_u32_le(&mut out, self.reserved[4]);
        push_u32_le(&mut out, self.reserved[5]);
        assert(out@ =~= hello_response_bytes(*self));
        out
    }
}

/// A 12-byte packet: a command, the length 12, and one argument.
pub open spec fn word_packet(cmd: SaharaCommand, arg: u32) -> Seq<u8> {
    le32_bytes(command_code(cmd)) + le32_bytes(12) + le32_bytes(arg)
}

impl SaharaExecCmd {
    /// An execute request for `client_cmd`.
    pub fn new(client_cmd: u32) -> (r: Self)
        ensures
            r.command == SaharaCommand::ExecuteRequest,
            r.packet_length == 12,
            r.client_cmd == client_cmd,
    {
        SaharaExecCmd { command: SaharaCommand::ExecuteRequest, packet_length: 12, client_cmd }
    }

    /// The packet's bytes.
    pub fn to_bytes(&self) -> (out: Vec<u8>)
        ensures
            out@ == le32_bytes(command_code(self.command)) + le32_bytes(self.packet_length) + le32_bytes(
                self.client_cmd,
            ),
    {
        let mut out: Vec<u8> = Vec::new();
        push_u32_le(&mut out, self.command.as_u32());
        push_u32_le(&mut out, self.packet_length);
        push_u32_le(&mut out, self.client_cmd);
        assert(out@ =~= le32_bytes(command_code(self.command)) + le32_bytes(self.packet_length) + le32_bytes(
            self.client_cmd,
        ));
        out
    }
}

/// The mode-switch packet for `mode`.
pub fn mode_switch_packet(mode: SaharaMode) -> (out: Vec<u8>)
    ensures
        out@ == word_packet(SaharaCommand::SwitchMode, mode_code(mode)),
{
    let mut out: Vec<u8> = Vec::new();
    push_u32_le(&mut out, SaharaCommand::SwitchMode.as_u32());
    push_u32_le(&mut out, 12);
    push_u32_le(&mut out, mode.as_u32());
    assert(out@ =~= word_packet(SaharaCommand::SwitchMode, mode_code(mode)));
    out
}

/// The done-request packet: the command and the length 8.
pub fn done_packet() -> (out: Vec<u8>)
    ensures
        out@ == le32_bytes(command_code(SaharaCommand::DoneRequest)) + le32_bytes(8),
{
    let mut out: Vec<u8> = Vec::new();
    push_u32_le(&mut out, SaharaCommand::DoneRequest.as_u32());
    push_u32_le(&mut out, 8);
    assert(out@ =~= le32_bytes(command_code(SaharaCommand::DoneRequest)) + le32_bytes(8));
    out
}

/// The execute-request packet for `client_cmd`.
pub fn exec_packet(client_cmd: u32) -> (out: Vec<u8>)
    ensures
        out@ == word_packet(SaharaCommand::ExecuteRequest, client_cmd),
{
    let out = SaharaExecCmd::new(client_cmd).to_bytes();
    out
}

} // verus!
