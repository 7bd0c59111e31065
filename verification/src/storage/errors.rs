//! Why a request on storage is refused.

use vstd::prelude::*;

verus! {

/// Why a request on storage is refused.
#[derive(Clone, Copy, PartialEq, Eq, Structural, Debug)]
pub enum StorageError {
    UnsupportedUploadType,
    MissingUploadId,
    UploadSessionNotFound,
    InvalidResumableMetadata,
    MissingObjectName,
    InvalidUploadLocation,
    InvalidUploadLength,
    MissingUploadCommand,
    InvalidUploadCommand,
    UploadAlreadyFinalized,
    MissingUploadOffset,
    InvalidUploadOffset,
    InvalidUploadHeader,
    InvalidMultipartUpload,
    ObjectNotFound,
}

impl StorageError {
    /// The HTTP status of the answer.
    pub open spec fn code(self) -> u16 {
        match self {
            StorageError::UploadSessionNotFound => 404,
            StorageError::ObjectNotFound => 404,
            StorageError::InvalidUploadLocation => 500,
            StorageError::InvalidUploadHeader => 500,
            _ => 400,
        }
    }

    /// The message of the answer.
    pub open spec fn text(self) -> Seq<char> {
        match self {
            StorageError::UnsupportedUploadType => "UNSUPPORTED_UPLOAD_TYPE"@,
            StorageError::MissingUploadId => "MISSING_UPLOAD_ID"@,
            StorageError::UploadSessionNotFound => "UPLOAD_SESSION_NOT_FOUND"@,
            StorageError::InvalidResumableMetadata => "INVALID_RESUMABLE_METADATA"@,
            StorageError::MissingObjectName => "MISSING_OBJECT_NAME"@,
            StorageError::InvalidUploadLocation => "INVALID_UPLOAD_LOCATION"@,
            StorageError::InvalidUploadLength => "INVALID_UPLOAD_LENGTH"@,
            StorageError::MissingUploadCommand => "MISSING_UPLOAD_COMMAND"@,
            StorageError::InvalidUploadCommand => "INVALID_UPLOAD_COMMAND"@,
            StorageError::UploadAlreadyFinalized => "UPLOAD_ALREADY_FINALIZED"@,
            StorageError::MissingUploadOffset => "MISSING_UPLOAD_OFFSET"@,
            StorageError::InvalidUploadOffset => "INVALID_UPLOAD_OFFSET"@,
            StorageError::InvalidUploadHeader => "INVALID_UPLOAD_HEADER"@,
            StorageError::InvalidMultipartUpload => "INVALID_MULTIPART_UPLOAD"@,
            StorageError::ObjectNotFound => "OBJECT_NOT_FOUND"@,
        }
    }

    /// The HTTP status of the answer.
    pub fn status(&self) -> (r: u16)
        ensures
            r == self.code(),
    {
        match self {
            StorageError::UploadSessionNotFound => 404,
            StorageError::ObjectNotFound => 404,
            StorageError::InvalidUploadLocation => 500,
            StorageError::InvalidUploadHeader => 500,
            _ => 400,
        }
    }

    /// The message of the answer.
    pub fn message(&self) -> (r: &'static str)
        ensures
            r@ == self.text(),
    {
        match self {
            StorageError::UnsupportedUploadType => "UNSUPPORTED_UPLOAD_TYPE",
            StorageError::MissingUploadId => "MISSING_UPLOAD_ID",
            StorageError::UploadSessionNotFound => "UPLOAD_SESSION_NOT_FOUND",
            StorageError::InvalidResumableMetadata => "INVALID_RESUMABLE_METADATA",
            StorageError::MissingObjectName => "MISSING_OBJECT_NAME",
            StorageError::InvalidUploadLocation => "INVALID_UPLOAD_LOCATION",
            StorageError::InvalidUploadLength => "INVALID_UPLOAD_LENGTH",
            StorageError::MissingUploadCommand => "MISSING_UPLOAD_COMMAND",
            StorageError::InvalidUploadCommand => "INVALID_UPLOAD_COMMAND",
            StorageError::UploadAlreadyFinalized => "UPLOAD_ALREADY_FINALIZED",
            StorageError::MissingUploadOffset => "MISSING_UPLOAD_OFFSET",
            StorageError::InvalidUploadOffset => "INVALID_UPLOAD_OFFSET",
            StorageError::InvalidUploadHeader => "INVALID_UPLOAD_HEADER",
            StorageError::InvalidMultipartUpload => "INVALID_MULTIPART_UPLOAD",
            StorageError::ObjectNotFound => "OBJECT_NOT_FOUND",
        }
    }

    /// The reason phrase of the status.
    pub fn reason(&self) -> (r: &'static str)
        ensures
            r@ == if self.code() == 404 {
                "Not Found"@
            } else if self.code() == 500 {
                "Internal Server Error"@
            } else {
                "Bad Request"@
            },
    {
        match self {
            StorageError::UploadSessionNotFound => "Not Found",
            StorageError::ObjectNotFound => "Not Found",
            StorageError::InvalidUploadLocation => "Internal Server Error",
            StorageError::InvalidUploadHeader => "Internal Server Error",
            _ => "Bad Request",
        }
    }
}

/// What came of a request.
pub open spec fn storage_outcome<T: DeepView>(r: Result<T, StorageError>) -> Result<
    T::V,
    StorageError,
> {
    match r {
        Ok(v) => Ok(v.deep_view()),
        Err(e) => Err(e),
    }
}

/// Each refusal is answered with its own status and message.
pub proof fn refusal_is_told(e: StorageError)
    ensures
        e is UnsupportedUploadType ==> e.code() == 400 && e.text() == "UNSUPPORTED_UPLOAD_TYPE"@,
        e is MissingUploadId ==> e.code() == 400 && e.text() == "MISSING_UPLOAD_ID"@,
        e is UploadSessionNotFound ==> e.code() == 404 && e.text() == "UPLOAD_SESSION_NOT_FOUND"@,
        e is InvalidResumableMetadata ==> e.code() == 400 && e.text() == "INVALID_RESUMABLE_METADATA"@,
        e is MissingObjectName ==> e.code() == 400 && e.text() == "MISSING_OBJECT_NAME"@,
        e is InvalidUploadLocation ==> e.code() == 500 && e.text() == "INVALID_UPLOAD_LOCATION"@,
        e is InvalidUploadLength ==> e.code() == 400 && e.text() == "INVALID_UPLOAD_LENGTH"@,
        e is MissingUploadCommand ==> e.code() == 400 && e.text() == "MISSING_UPLOAD_COMMAND"@,
        e is InvalidUploadCommand ==> e.code() == 400 && e.text() == "INVALID_UPLOAD_COMMAND"@,
        e is UploadAlreadyFinalized ==> e.code() == 400 && e.text() == "UPLOAD_ALREADY_FINALIZED"@,
        e is MissingUploadOffset ==> e.code() == 400 && e.text() == "MISSING_UPLOAD_OFFSET"@,
        e is InvalidUploadOffset ==> e.code() == 400 && e.text() == "INVALID_UPLOAD_OFFSET"@,
        e is InvalidUploadHeader ==> e.code() == 500 && e.text() == "INVALID_UPLOAD_HEADER"@,
        e is InvalidMultipartUpload ==> e.code() == 400 && e.text() == "INVALID_MULTIPART_UPLOAD"@,
        e is ObjectNotFound ==> e.code() == 404 && e.text() == "OBJECT_NOT_FOUND"@,
{
}

} // verus!
