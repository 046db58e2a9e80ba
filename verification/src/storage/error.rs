//! Storage-layer errors.

use crate::base::error::ErrorCode;
use vstd::prelude::*;

verus! {

#[verifier::external_type_specification]
#[verifier::external_body]
pub struct ExIoError(std::io::Error);

#[derive(Debug)]
pub enum StorageError {
    InvalidSignature { got: String },
    CrcMismatch { primary: bool, expected: u32, actual: u32 },
    PartitionNotFound { name: String },
    EmptyPartitionTable,
    InvalidEntry { index: usize },
    Io(std::io::Error),
}

impl StorageError {
    /// The code under which this error is reported at the top level.
    pub fn error_code(&self) -> (c: ErrorCode)
        ensures
            c == (match *self {
                StorageError::InvalidSignature { .. } => ErrorCode::StorageInvalidSignature,
                StorageError::CrcMismatch { .. } => ErrorCode::StorageCrcMismatch,
                StorageError::PartitionNotFound { .. } => ErrorCode::StoragePartitionNotFound,
                StorageError::EmptyPartitionTable => ErrorCode::StorageEmptyTable,
                StorageError::InvalidEntry { .. } => ErrorCode::StorageInvalidSignature,
                StorageError::Io(_) => ErrorCode::TransportIo,
            }),
    {
        match self {
            StorageError::InvalidSignature { .. } => ErrorCode::StorageInvalidSignature,
            StorageError::CrcMismatch { .. } => ErrorCode::StorageCrcMismatch,
            StorageError::PartitionNotFound { .. } => ErrorCode::StoragePartitionNotFound,
            StorageError::EmptyPartitionTable => ErrorCode::StorageEmptyTable,
            StorageError::InvalidEntry { .. } => ErrorCode::StorageInvalidSignature,
            StorageError::Io(_) => ErrorCode::TransportIo,
        }
    }
}

} // verus!
