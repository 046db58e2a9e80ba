//! Firehose-layer errors.

use crate::base::error::ErrorCode;
use crate::transport::error::TransportError;
use vstd::prelude::*;

verus! {

#[derive(Debug)]
pub enum FirehoseError {
    ConfigureFailed { reason: String },
    /// The device refused `command`.
    Nak { command: String, reason: String },
    Timeout { command: String },
    InvalidResponse { reason: String },
    NotInitialized,
    Transport(TransportError),
    Io(std::io::Error),
    XmlParse(String),
}

impl FirehoseError {
    /// The code under which this error is reported at the top level.
    pub fn error_code(&self) -> (c: ErrorCode)
        ensures
            c == (match *self {
                FirehoseError::ConfigureFailed { .. } => ErrorCode::FirehoseConfigureFailed,
                FirehoseError::Nak { .. } => ErrorCode::FirehoseNak,
                FirehoseError::Timeout { .. } => ErrorCode::FirehoseTimeout,
                FirehoseError::InvalidResponse { .. } => ErrorCode::FirehoseInvalidResponse,
                FirehoseError::NotInitialized => ErrorCode::FirehoseNotInitialized,
                FirehoseError::Transport(_) => ErrorCode::TransportIo,
                FirehoseError::Io(_) => ErrorCode::TransportIo,
                FirehoseError::XmlParse(_) => ErrorCode::XmlParse,
            }),
    {
        match self {
            FirehoseError::ConfigureFailed { .. } => ErrorCode::FirehoseConfigureFailed,
            FirehoseError::Nak { .. } => ErrorCode::FirehoseNak,
            FirehoseError::Timeout { .. } => ErrorCode::FirehoseTimeout,
            FirehoseError::InvalidResponse { .. } => ErrorCode::FirehoseInvalidResponse,
            FirehoseError::NotInitialized => ErrorCode::FirehoseNotInitialized,
            FirehoseError::Transport(_) => ErrorCode::TransportIo,
            FirehoseError::Io(_) => ErrorCode::TransportIo,
            FirehoseError::XmlParse(_) => ErrorCode::XmlParse,
        }
    }
}

} // verus!
