//! Sahara-layer errors.

use crate::base::error::ErrorCode;
use crate::transport::error::TransportError;
use vstd::prelude::*;

verus! {

#[derive(Debug)]
pub enum SaharaError {
    HelloFailed,
    InvalidImage { image_id: u8 },
    ImageAuthFailed { image_id: u8 },
    TransferFailed { offset: u64, reason: String },
    Nak { code: u32 },
    UnexpectedCommand { cmd: u32 },
    VersionMismatch { got: u32, expected: u32 },
    /// The device answers in Firehose, not Sahara.
    AlreadyInFirehose,
    /// No Hello came, the device does not answer Firehose either, and no
    /// loader was given.
    NotInFirehose,
    Transport(TransportError),
    Io(std::io::Error),
}

impl SaharaError {
    /// The code under which this error is reported at the top level.
    pub fn error_code(&self) -> (c: ErrorCode)
        ensures
            c == (match *self {
                SaharaError::HelloFailed => ErrorCode::SaharaHelloFailed,
                SaharaError::InvalidImage { .. } => ErrorCode::SaharaInvalidImage,
                SaharaError::TransferFailed { .. } => ErrorCode::SaharaTransferFailed,
                SaharaError::Nak { .. } => ErrorCode::SaharaNak,
                SaharaError::UnexpectedCommand { .. } => ErrorCode::SaharaUnexpectedCommand,
                SaharaError::ImageAuthFailed { .. } => ErrorCode::SaharaImageAuthFailed,
                SaharaError::VersionMismatch { .. } => ErrorCode::SaharaVersionMismatch,
                SaharaError::AlreadyInFirehose => ErrorCode::SaharaHelloFailed,
                SaharaError::NotInFirehose => ErrorCode::SaharaHelloFailed,
                SaharaError::Transport(_) => ErrorCode::TransportIo,
                SaharaError::Io(_) => ErrorCode::TransportIo,
            }),
    {
        match self {
            SaharaError::HelloFailed => ErrorCode::SaharaHelloFailed,
            SaharaError::InvalidImage { .. } => ErrorCode::SaharaInvalidImage,
            SaharaError::TransferFailed { .. } => ErrorCode::SaharaTransferFailed,
            SaharaError::Nak { .. } => ErrorCode::SaharaNak,
            SaharaError::UnexpectedCommand { .. } => ErrorCode::SaharaUnexpectedCommand,
            SaharaError::ImageAuthFailed { .. } => ErrorCode::SaharaImageAuthFailed,
            SaharaError::VersionMismatch { .. } => ErrorCode::SaharaVersionMismatch,
            SaharaError::AlreadyInFirehose => ErrorCode::SaharaHelloFailed,
            SaharaError::NotInFirehose => ErrorCode::SaharaHelloFailed,
            SaharaError::Transport(_) => ErrorCode::TransportIo,
            SaharaError::Io(_) => ErrorCode::TransportIo,
        }
    }
}

} // verus!
