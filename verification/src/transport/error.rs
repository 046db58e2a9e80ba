//! Transport-layer errors.

use crate::base::error::ErrorCode;
use vstd::prelude::*;

verus! {

#[derive(Debug)]
pub enum TransportError {
    /// No EDL or DIAG device was found.
    NotFound,
    /// Several devices qualify; the user must pick one.
    MultipleFound { count: usize },
    Timeout { elapsed: std::time::Duration },
    Disconnected,
    Io(std::io::Error),
    InvalidPort(String),
}

impl TransportError {
    /// The code under which this error is reported at the top level.
    pub fn error_code(&self) -> (c: ErrorCode)
        ensures
            c == (match *self {
                TransportError::NotFound => ErrorCode::TransportNotFound,
                TransportError::Timeout { .. } => ErrorCode::TransportTimeout,
                TransportError::Disconnected => ErrorCode::TransportDisconnected,
                _ => ErrorCode::TransportIo,
            }),
    {
        match self {
            TransportError::NotFound => ErrorCode::TransportNotFound,
            TransportError::Timeout { .. } => ErrorCode::TransportTimeout,
            TransportError::Disconnected => ErrorCode::TransportDisconnected,
            _ => ErrorCode::TransportIo,
        }
    }
}

} // verus!
