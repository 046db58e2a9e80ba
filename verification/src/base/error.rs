//! Error codes shared by every layer, and the top-level error type.

use vstd::prelude::*;

verus! {

/// Machine-readable classification of a failure.
#[derive(Debug, Clone, Copy, PartialEq, Eq, Hash)]
pub enum ErrorCode {
    TransportNotFound,
    TransportTimeout,
    TransportDisconnected,
    TransportIo,
    SaharaHelloFailed,
    SaharaInvalidImage,
    SaharaImageAuthFailed,
    SaharaTransferFailed,
    SaharaNak,
    SaharaUnexpectedCommand,
    SaharaVersionMismatch,
    FirehoseConfigureFailed,
    FirehoseNak,
    FirehoseTimeout,
    FirehoseInvalidResponse,
    FirehoseNotInitialized,
    StorageInvalidSignature,
    StorageCrcMismatch,
    StoragePartitionNotFound,
    StorageEmptyTable,
    ImageParseFailed,
    ImageFileNotFound,
    ImageTooLarge,
    ImageSparseFailed,
    JobStepFailed,
    JobPreconditionFailed,
    LoaderNotFound,
    InvalidArgument,
    XmlParse,
    /// Custom error code for external extensions: (code, display name).
    Custom(u32, &'static str),
}

/// The display name of a code.
pub open spec fn code_name(c: ErrorCode) -> Seq<char> {
    match c {
        ErrorCode::TransportNotFound => "TRANSPORT_NOT_FOUND"@,
        ErrorCode::TransportTimeout => "TRANSPORT_TIMEOUT"@,
        ErrorCode::TransportDisconnected => "TRANSPORT_DISCONNECTED"@,
        ErrorCode::TransportIo => "TRANSPORT_IO"@,
        ErrorCode::SaharaHelloFailed => "SAHARA_HELLO_FAILED"@,
        ErrorCode::SaharaInvalidImage => "SAHARA_INVALID_IMAGE"@,
        ErrorCode::SaharaImageAuthFailed => "SAHARA_IMAGE_AUTH_FAILED"@,
        ErrorCode::SaharaTransferFailed => "SAHARA_TRANSFER_FAILED"@,
        ErrorCode::SaharaNak => "SAHARA_NAK"@,
        ErrorCode::SaharaUnexpectedCommand => "SAHARA_UNEXPECTED_COMMAND"@,
        ErrorCode::SaharaVersionMismatch => "SAHARA_VERSION_MISMATCH"@,
        ErrorCode::FirehoseConfigureFailed => "FIREHOSE_CONFIGURE_FAILED"@,
        ErrorCode::FirehoseNak => "FIREHOSE_NAK"@,
        ErrorCode::FirehoseTimeout => "FIREHOSE_TIMEOUT"@,
        ErrorCode::FirehoseInvalidResponse => "FIREHOSE_INVALID_RESPONSE"@,
        ErrorCode::FirehoseNotInitialized => "FIREHOSE_NOT_INITIALIZED"@,
        ErrorCode::StorageInvalidSignature => "STORAGE_INVALID_SIGNATURE"@,
        ErrorCode::StorageCrcMismatch => "STORAGE_CRC_MISMATCH"@,
        ErrorCode::StoragePartitionNotFound => "STORAGE_PARTITION_NOT_FOUND"@,
        ErrorCode::StorageEmptyTable => "STORAGE_EMPTY_TABLE"@,
        ErrorCode::ImageParseFailed => "IMAGE_PARSE_FAILED"@,
        ErrorCode::ImageFileNotFound => "IMAGE_FILE_NOT_FOUND"@,
        ErrorCode::ImageTooLarge => "IMAGE_TOO_LARGE"@,
        ErrorCode::ImageSparseFailed => "IMAGE_SPARSE_FAILED"@,
        ErrorCode::JobStepFailed => "JOB_STEP_FAILED"@,
        ErrorCode::JobPreconditionFailed => "JOB_PRECONDITION_FAILED"@,
        ErrorCode::LoaderNotFound => "LOADER_NOT_FOUND"@,
        ErrorCode::InvalidArgument => "INVALID_ARGUMENT"@,
        ErrorCode::XmlParse => "XML_PARSE"@,
        ErrorCode::Custom(_, name) => name@,
    }
}

impl ErrorCode {
    /// The display name of this code.
    pub fn as_str(&self) -> (s: &'static str)
        ensures
            s@ == code_name(*self),
    {
        match self {
            ErrorCode::TransportNotFound => "TRANSPORT_NOT_FOUND",
            ErrorCode::TransportTimeout => "TRANSPORT_TIMEOUT",
            ErrorCode::TransportDisconnected => "TRANSPORT_DISCONNECTED",
            ErrorCode::TransportIo => "TRANSPORT_IO",
            ErrorCode::SaharaHelloFailed => "SAHARA_HELLO_FAILED",
            ErrorCode::SaharaInvalidImage => "SAHARA_INVALID_IMAGE",
            ErrorCode::SaharaImageAuthFailed => "SAHARA_IMAGE_AUTH_FAILED",
            ErrorCode::SaharaTransferFailed => "SAHARA_TRANSFER_FAILED",
            ErrorCode::SaharaNak => "SAHARA_NAK",
            ErrorCode::SaharaUnexpectedCommand => "SAHARA_UNEXPECTED_COMMAND",
            ErrorCode::SaharaVersionMismatch => "SAHARA_VERSION_MISMATCH",
            ErrorCode::FirehoseConfigureFailed => "FIREHOSE_CONFIGURE_FAILED",
            ErrorCode::FirehoseNak => "FIREHOSE_NAK",
            ErrorCode::FirehoseTimeout => "FIREHOSE_TIMEOUT",
            ErrorCode::FirehoseInvalidResponse => "FIREHOSE_INVALID_RESPONSE",
            ErrorCode::FirehoseNotInitialized => "FIREHOSE_NOT_INITIALIZED",
            ErrorCode::StorageInvalidSignature => "STORAGE_INVALID_SIGNATURE",
            ErrorCode::StorageCrcMismatch => "STORAGE_CRC_MISMATCH",
            ErrorCode::StoragePartitionNotFound => "STORAGE_PARTITION_NOT_FOUND",
            ErrorCode::StorageEmptyTable => "STORAGE_EMPTY_TABLE",
            ErrorCode::ImageParseFailed => "IMAGE_PARSE_FAILED",
            ErrorCode::ImageFileNotFound => "IMAGE_FILE_NOT_FOUND",
            ErrorCode::ImageTooLarge => "IMAGE_TOO_LARGE",
            ErrorCode::ImageSparseFailed => "IMAGE_SPARSE_FAILED",
            ErrorCode::JobStepFailed => "JOB_STEP_FAILED",
            ErrorCode::JobPreconditionFailed => "JOB_PRECONDITION_FAILED",
            ErrorCode::LoaderNotFound => "LOADER_NOT_FOUND",
            ErrorCode::InvalidArgument => "INVALID_ARGUMENT",
            ErrorCode::XmlParse => "XML_PARSE",
            ErrorCode::Custom(_, name) => name,
        }
    }
}

/// The top-level error of the library.
#[derive(Debug)]
pub enum QedlError {
    WithCode { code: ErrorCode, message: String },
    TransportNotFound(String),
    TransportTimeout(String),
    TransportDisconnected(String),
    Sahara(String),
    Firehose(String),
    Storage(String),
    Image(String),
    Job(String),
    Other(String),
}

/// The code carried by an error, where it has one.
pub open spec fn error_code_of(e: QedlError) -> Option<ErrorCode> {
    match e {
        QedlError::WithCode { code, .. } => Some(code),
        QedlError::TransportNotFound(_) => Some(ErrorCode::TransportNotFound),
        QedlError::TransportTimeout(_) => Some(ErrorCode::TransportTimeout),
        QedlError::TransportDisconnected(_) => Some(ErrorCode::TransportDisconnected),
        _ => None,
    }
}

impl QedlError {
    pub fn code(&self) -> (c: Option<ErrorCode>)
        ensures
            c == error_code_of(*self),
    {
        match self {
            QedlError::WithCode { code, .. } => Some(*code),
            QedlError::TransportNotFound(_) => Some(ErrorCode::TransportNotFound),
            QedlError::TransportTimeout(_) => Some(ErrorCode::TransportTimeout),
            QedlError::TransportDisconnected(_) => Some(ErrorCode::TransportDisconnected),
            QedlError::Sahara(_) => None,
            QedlError::Firehose(_) => None,
            QedlError::Storage(_) => None,
            QedlError::Image(_) => None,
            QedlError::Job(_) => None,
            QedlError::Other(_) => None,
        }
    }

    /// A transport-layer error with its code and message.
    pub fn transport(code: ErrorCode, message: String) -> (e: Self)
        ensures
            e == (QedlError::WithCode { code, message }),
    {
        QedlError::WithCode { code, message }
    }

    /// A Sahara-layer error with its code and message.
    pub fn sahara(code: ErrorCode, message: String) -> (e: Self)
        ensures
            e == (QedlError::WithCode { code, message }),
    {
        QedlError::WithCode { code, message }
    }

    /// A Firehose-layer error with its code and message.
    pub fn firehose(code: ErrorCode, message: String) -> (e: Self)
        ensures
            e == (QedlError::WithCode { code, message }),
    {
        QedlError::WithCode { code, message }
    }

    /// A storage-layer error with its code and message.
    pub fn storage(code: ErrorCode, message: String) -> (e: Self)
        ensures
            e == (QedlError::WithCode { code, message }),
    {
        QedlError::WithCode { code, message }
    }

    /// An image-layer error with its code and message.
    pub fn image(code: ErrorCode, message: String) -> (e: Self)
        ensures
            e == (QedlError::WithCode { code, message }),
    {
        QedlError::WithCode { code, message }
    }

    /// A job-layer error with its code and message.
    pub fn job(code: ErrorCode, message: String) -> (e: Self)
        ensures
            e == (QedlError::WithCode { code, message }),
    {
        QedlError::WithCode { code, message }
    }
}

/// The text of an error: the code's name and the message, or the layer and
/// the message.
pub open spec fn error_text(e: QedlError) -> Seq<char> {
    match e {
        QedlError::WithCode { code, message } => code_name(code) + ": "@ + message@,
        QedlError::TransportNotFound(m) => "transport not found: "@ + m@,
        QedlError::TransportTimeout(m) => "transport timeout: "@ + m@,
        QedlError::TransportDisconnected(m) => "transport disconnected: "@ + m@,
        QedlError::Sahara(m) => "sahara error: "@ + m@,
        QedlError::Firehose(m) => "firehose error: "@ + m@,
        QedlError::Storage(m) => "storage error: "@ + m@,
        QedlError::Image(m) => "image error: "@ + m@,
        QedlError::Job(m) => "job error: "@ + m@,
        QedlError::Other(m) => m@,
    }
}

impl QedlError {
    /// The text of the error.
    pub fn to_display_string(&self) -> (r: String)
        ensures
            r@ == error_text(*self),
    {
        let (prefix, m): (&str, &String) = match self {
            QedlError::WithCode { code, message } => {
                let mut out = crate::text::to_owned_string(code.as_str());
                crate::text::push_str(&mut out, ": ");
                crate::text::push_str(&mut out, message.as_str());
                return out;
            },
            QedlError::TransportNotFound(m) => ("transport not found: ", m),
            QedlError::TransportTimeout(m) => ("transport timeout: ", m),
            QedlError::TransportDisconnected(m) => ("transport disconnected: ", m),
            QedlError::Sahara(m) => ("sahara error: ", m),
            QedlError::Firehose(m) => ("firehose error: ", m),
            QedlError::Storage(m) => ("storage error: ", m),
            QedlError::Image(m) => ("image error: ", m),
            QedlError::Job(m) => ("job error: ", m),
            QedlError::Other(m) => ("", m),
        };
        let mut out = crate::text::to_owned_string(prefix);
        crate::text::push_str(&mut out, m.as_str());
        proof {
            reveal_strlit("");
        }
        out
    }
}

/// Every error built by one of the layer constructors keeps the code it was
/// given: `code()` answers it back.
pub proof fn lemma_constructed_code_preserved(code: ErrorCode, message: String)
    ensures
        error_code_of(QedlError::WithCode { code, message }) == Some(code),
{
}

/// The non-custom code whose name is `s`, told apart by the name's length
/// and one of its characters.
pub open spec fn code_named(s: Seq<char>) -> Option<ErrorCode> {
    if s.len() == 9 {
        Some(ErrorCode::XmlParse)
    } else if s.len() == 10 {
        Some(ErrorCode::SaharaNak)
    } else if s.len() == 12 {
        if s[0] == 'T' {
            Some(ErrorCode::TransportIo)
        } else if s[0] == 'F' {
            Some(ErrorCode::FirehoseNak)
        } else {
            None
        }
    } else if s.len() == 15 {
        if s[0] == 'I' {
            Some(ErrorCode::ImageTooLarge)
        } else if s[0] == 'J' {
            Some(ErrorCode::JobStepFailed)
        } else {
            None
        }
    } else if s.len() == 16 {
        if s[0] == 'F' {
            Some(ErrorCode::FirehoseTimeout)
        } else if s[0] == 'L' {
            Some(ErrorCode::LoaderNotFound)
        } else if s[0] == 'I' {
            Some(ErrorCode::InvalidArgument)
        } else {
            None
        }
    } else if s.len() == 17 {
        Some(ErrorCode::TransportTimeout)
    } else if s.len() == 18 {
        Some(ErrorCode::ImageParseFailed)
    } else if s.len() == 19 {
        if s[1] == 'R' {
            Some(ErrorCode::TransportNotFound)
        } else if s[1] == 'A' {
            Some(ErrorCode::SaharaHelloFailed)
        } else if s[1] == 'T' {
            Some(ErrorCode::StorageEmptyTable)
        } else if s[1] == 'M' {
            Some(ErrorCode::ImageSparseFailed)
        } else {
            None
        }
    } else if s.len() == 20 {
        if s[1] == 'A' {
            Some(ErrorCode::SaharaInvalidImage)
        } else if s[1] == 'T' {
            Some(ErrorCode::StorageCrcMismatch)
        } else if s[1] == 'M' {
            Some(ErrorCode::ImageFileNotFound)
        } else {
            None
        }
    } else if s.len() == 22 {
        if s[0] == 'T' {
            Some(ErrorCode::TransportDisconnected)
        } else if s[0] == 'S' {
            Some(ErrorCode::SaharaTransferFailed)
        } else {
            None
        }
    } else if s.len() == 23 {
        if s[0] == 'S' {
            Some(ErrorCode::SaharaVersionMismatch)
        } else if s[0] == 'J' {
            Some(ErrorCode::JobPreconditionFailed)
        } else {
            None
        }
    } else if s.len() == 24 {
        if s[0] == 'S' {
            Some(ErrorCode::SaharaImageAuthFailed)
        } else if s[0] == 'F' {
            Some(ErrorCode::FirehoseNotInitialized)
        } else {
            None
        }
    } else if s.len() == 25 {
        if s[9] == 'E' {
            Some(ErrorCode::SaharaUnexpectedCommand)
        } else if s[9] == 'C' {
            Some(ErrorCode::FirehoseConfigureFailed)
        } else if s[9] == 'I' {
            Some(ErrorCode::FirehoseInvalidResponse)
        } else if s[9] == 'N' {
            Some(ErrorCode::StorageInvalidSignature)
        } else {
            None
        }
    } else if s.len() == 27 {
        Some(ErrorCode::StoragePartitionNotFound)
    } else {
        None
    }
}

proof fn lemma_name_decodes(c: ErrorCode)
    requires
        !(c is Custom),
    ensures
        code_named(code_name(c)) == Some(c),
{
    reveal_strlit("TRANSPORT_NOT_FOUND");
    reveal_strlit("TRANSPORT_TIMEOUT");
    reveal_strlit("TRANSPORT_DISCONNECTED");
    reveal_strlit("TRANSPORT_IO");
    reveal_strlit("SAHARA_HELLO_FAILED");
    reveal_strlit("SAHARA_INVALID_IMAGE");
    reveal_strlit("SAHARA_IMAGE_AUTH_FAILED");
    reveal_strlit("SAHARA_TRANSFER_FAILED");
    reveal_strlit("SAHARA_NAK");
    reveal_strlit("SAHARA_UNEXPECTED_COMMAND");
    reveal_strlit("SAHARA_VERSION_MISMATCH");
    reveal_strlit("FIREHOSE_CONFIGURE_FAILED");
    reveal_strlit("FIREHOSE_NAK");
    reveal_strlit("FIREHOSE_TIMEOUT");
    reveal_strlit("FIREHOSE_INVALID_RESPONSE");
    reveal_strlit("FIREHOSE_NOT_INITIALIZED");
    reveal_strlit("STORAGE_INVALID_SIGNATURE");
    reveal_strlit("STORAGE_CRC_MISMATCH");
    reveal_strlit("STORAGE_PARTITION_NOT_FOUND");
    reveal_strlit("STORAGE_EMPTY_TABLE");
    reveal_strlit("IMAGE_PARSE_FAILED");
    reveal_strlit("IMAGE_FILE_NOT_FOUND");
    reveal_strlit("IMAGE_TOO_LARGE");
    reveal_strlit("IMAGE_SPARSE_FAILED");
    reveal_strlit("JOB_STEP_FAILED");
    reveal_strlit("JOB_PRECONDITION_FAILED");
    reveal_strlit("LOADER_NOT_FOUND");
    reveal_strlit("INVALID_ARGUMENT");
    reveal_strlit("XML_PARSE");
}

/// Distinct codes other than custom ones have distinct names.
pub proof fn lemma_code_names_distinct(a: ErrorCode, b: ErrorCode)
    requires
        !(a is Custom),
        !(b is Custom),
        code_name(a) == code_name(b),
    ensures
        a == b,
{
    lemma_name_decodes(a);
    lemma_name_decodes(b);
}

} // verus!
