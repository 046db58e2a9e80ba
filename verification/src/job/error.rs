//! Job-layer errors.

use crate::base::error::ErrorCode;
use crate::firehose::error::FirehoseError;
use crate::image::error::ImageError;
use crate::sahara::error::SaharaError;
use crate::storage::error::StorageError;
use crate::transport::error::TransportError;
use vstd::prelude::*;

verus! {

#[derive(Debug)]
pub enum JobError {
    StepFailed { step: usize, reason: String },
    PreconditionFailed { reason: String },
    Transport(TransportError),
    Sahara(SaharaError),
    Firehose(FirehoseError),
    Storage(StorageError),
    Image(ImageError),
    Io(std::io::Error),
}

impl JobError {
    /// The code under which this error is reported at the top level.
    pub fn error_code(&self) -> (c: ErrorCode)
        ensures
            c == (match *self {
                JobError::StepFailed { .. } => ErrorCode::JobStepFailed,
                JobError::PreconditionFailed { .. } => ErrorCode::JobPreconditionFailed,
                JobError::Transport(_) => ErrorCode::TransportIo,
                JobError::Sahara(_) => ErrorCode::SaharaHelloFailed,
                JobError::Firehose(_) => ErrorCode::FirehoseNak,
                JobError::Storage(_) => ErrorCode::StoragePartitionNotFound,
                JobError::Image(_) => ErrorCode::ImageParseFailed,
                JobError::Io(_) => ErrorCode::TransportIo,
            }),
    {
        match self {
            JobError::StepFailed { .. } => ErrorCode::JobStepFailed,
            JobError::PreconditionFailed { .. } => ErrorCode::JobPreconditionFailed,
            JobError::Transport(_) => ErrorCode::TransportIo,
            JobError::Sahara(_) => ErrorCode::SaharaHelloFailed,
            JobError::Firehose(_) => ErrorCode::FirehoseNak,
            JobError::Storage(_) => ErrorCode::StoragePartitionNotFound,
            JobError::Image(_) => ErrorCode::ImageParseFailed,
            JobError::Io(_) => ErrorCode::TransportIo,
        }
    }

    /// A failed precondition with `reason`.
    pub fn precondition(reason: String) -> (e: Self)
        ensures
            e matches JobError::PreconditionFailed { reason: r } && r@ == reason@,
    {
        JobError::PreconditionFailed { reason }
    }
}

} // verus!
