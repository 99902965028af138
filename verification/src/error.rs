use vstd::prelude::*;

verus! {

/// The failure categories of the reader, with the detail text stripped.
/// Contracts speak of kinds so that two errors that differ only in their
/// message are treated alike.
#[derive(Clone, Copy, Debug, PartialEq, Eq, Structural)]
pub enum ZipErrorKind {
    AttributeCompatibilityNotSupported,
    CompressionNotSupported,
    FeatureNotSupported,
    InvalidArchive,
    IO,
    MissingAttribute,
    SignatureNotFound,
    ZipUnicodeCommentExtraFieldInfoIncomplete,
    ZipUnicodePathInfoExtraFieldIncomplete,
}

/// Every failure the reader can surface.
#[derive(Debug)]
pub enum ZipError {
    AttributeCompatibilityNotSupported,
    CompressionNotSupported,
    FeatureNotSupported(String),
    InvalidArchive(String),
    IO(String),
    MissingAttribute,
    SignatureNotFound(String),
    ZipUnicodeCommentExtraFieldInfoIncomplete,
    ZipUnicodePathInfoExtraFieldIncomplete,
}

impl ZipError {
    /// The category of this error, ignoring the detail text.
    pub open spec fn kind(&self) -> ZipErrorKind {
        match self {
            ZipError::AttributeCompatibilityNotSupported => ZipErrorKind::AttributeCompatibilityNotSupported,
            ZipError::CompressionNotSupported => ZipErrorKind::CompressionNotSupported,
            ZipError::FeatureNotSupported(_) => ZipErrorKind::FeatureNotSupported,
            ZipError::InvalidArchive(_) => ZipErrorKind::InvalidArchive,
            ZipError::IO(_) => ZipErrorKind::IO,
            ZipError::MissingAttribute => ZipErrorKind::MissingAttribute,
            ZipError::SignatureNotFound(_) => ZipErrorKind::SignatureNotFound,
            ZipError::ZipUnicodeCommentExtraFieldInfoIncomplete => ZipErrorKind::ZipUnicodeCommentExtraFieldInfoIncomplete,
            ZipError::ZipUnicodePathInfoExtraFieldIncomplete => ZipErrorKind::ZipUnicodePathInfoExtraFieldIncomplete,
        }
    }

    /// The category of this error as a value, for callers that match on it
    /// without caring about the detail text.
    pub fn error_kind(&self) -> (k: ZipErrorKind)
        ensures
            k == self.kind(),
    {
        match self {
            ZipError::AttributeCompatibilityNotSupported => ZipErrorKind::AttributeCompatibilityNotSupported,
            ZipError::CompressionNotSupported => ZipErrorKind::CompressionNotSupported,
            ZipError::FeatureNotSupported(_) => ZipErrorKind::FeatureNotSupported,
            ZipError::InvalidArchive(_) => ZipErrorKind::InvalidArchive,
            ZipError::IO(_) => ZipErrorKind::IO,
            ZipError::MissingAttribute => ZipErrorKind::MissingAttribute,
            ZipError::SignatureNotFound(_) => ZipErrorKind::SignatureNotFound,
            ZipError::ZipUnicodeCommentExtraFieldInfoIncomplete => ZipErrorKind::ZipUnicodeCommentExtraFieldInfoIncomplete,
            ZipError::ZipUnicodePathInfoExtraFieldIncomplete => ZipErrorKind::ZipUnicodePathInfoExtraFieldIncomplete,
        }
    }
}

pub type ZipResult<T> = Result<T, ZipError>;

} // verus!
