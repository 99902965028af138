use vstd::prelude::*;

use crate::error::{ZipError, ZipErrorKind, ZipResult};

verus! {

/// The closed set of payload compression methods the reader understands;
/// any other method code is rejected with `CompressionNotSupported`.
#[derive(Clone, Copy, Debug, Eq, PartialEq, PartialOrd, Ord, Hash, Structural)]
pub enum Compression {
    Stored,
    Deflate,
    Deflate64,
    Bzip2,
    Lzma,
    Zstd,
    Xz,
}

/// Which method a wire code names, or a rejection.
pub open spec fn spec_compression(value: u16) -> Result<Compression, ZipErrorKind> {
    if value == 0 {
        Ok(Compression::Stored)
    } else if value == 8 {
        Ok(Compression::Deflate)
    } else if value == 9 {
        Ok(Compression::Deflate64)
    } else if value == 12 {
        Ok(Compression::Bzip2)
    } else if value == 14 {
        Ok(Compression::Lzma)
    } else if value == 93 {
        Ok(Compression::Zstd)
    } else if value == 95 {
        Ok(Compression::Xz)
    } else {
        Err(ZipErrorKind::CompressionNotSupported)
    }
}

impl Compression {
    /// The method named by a wire code, or `CompressionNotSupported`.
    pub fn try_from(value: u16) -> (r: ZipResult<Compression>)
        ensures
            r matches Ok(c) ==> spec_compression(value) == Ok::<_, ZipErrorKind>(c),
            r matches Err(e) ==> spec_compression(value) is Err && e.kind()
                == ZipErrorKind::CompressionNotSupported,
            r is Ok <==> spec_compression(value) is Ok,
    {
        match value {
            0 => Ok(Compression::Stored),
            8 => Ok(Compression::Deflate),
            9 => Ok(Compression::Deflate64),
            12 => Ok(Compression::Bzip2),
            14 => Ok(Compression::Lzma),
            93 => Ok(Compression::Zstd),
            95 => Ok(Compression::Xz),
            _ => Err(ZipError::CompressionNotSupported),
        }
    }

    /// The wire code that names this method.
    pub fn code(&self) -> (r: u16)
        ensures
            spec_compression(r) == Ok::<_, ZipErrorKind>(*self),
    {
        match self {
            Compression::Stored => 0,
            Compression::Deflate => 8,
            Compression::Deflate64 => 9,
            Compression::Bzip2 => 12,
            Compression::Lzma => 14,
            Compression::Zstd => 93,
            Compression::Xz => 95,
        }
    }
}

} // verus!
