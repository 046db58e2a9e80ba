//! Image-layer errors. Paths are carried as text.

use crate::base::error::ErrorCode;
use vstd::prelude::*;

verus! {

#[derive(Debug)]
pub enum ImageError {
    ParseFailed { path: String, reason: String },
    FileNotFound { expected: String },
    TooLarge { image_kb: u64, partition_kb: u64 },
    SparseFailed { reason: String },
    UnsupportedSparseVersion { version: u32 },
    Io(std::io::Error),
    XmlParse(String),
}

impl ImageError {
    /// The code under which this error is reported at the top level.
    pub fn error_code(&self) -> (c: ErrorCode)
        ensures
            c == (match *self {
                ImageError::ParseFailed { .. } => ErrorCode::ImageParseFailed,
                ImageError::FileNotFound { .. } => ErrorCode::ImageFileNotFound,
                ImageError::TooLarge { .. } => ErrorCode::ImageTooLarge,
                ImageError::SparseFailed { .. } => ErrorCode::ImageSparseFailed,
                ImageError::UnsupportedSparseVersion { .. } => ErrorCode::ImageSparseFailed,
                ImageError::Io(_) => ErrorCode::TransportIo,
                ImageError::XmlParse(_) => ErrorCode::XmlParse,
            }),
    {
        match self {
            ImageError::ParseFailed { .. } => ErrorCode::ImageParseFailed,
            ImageError::FileNotFound { .. } => ErrorCode::ImageFileNotFound,
            ImageError::TooLarge { .. } => ErrorCode::ImageTooLarge,
            ImageError::SparseFailed { .. } => ErrorCode::ImageSparseFailed,
            ImageError::UnsupportedSparseVersion { .. } => ErrorCode::ImageSparseFailed,
            ImageError::Io(_) => ErrorCode::TransportIo,
            ImageError::XmlParse(_) => ErrorCode::XmlParse,
        }
    }
}

} // verus!
