use vstd::prelude::*;

use smol::io::AsyncReadExt;

use crate::error::{ZipError, ZipErrorKind};

verus! {

// The decompression codecs, taken as black-box byte-stream transformers.
// Each decoder is a pure function of the compressed bytes, so its output is
// given a name; a decode that fails surfaces as an I/O error.

/// The bytes a raw-deflate stream decodes to, or nothing when the stream is
/// malformed.
pub uninterp spec fn inflate_of(data: Seq<u8>) -> Option<Seq<u8>>;

/// Relies on async_compression's DeflateDecoder read to its end over an
/// in-memory buffer: the outcome depends on the compressed bytes alone.
#[verifier::external_body]
pub(crate) fn inflate(data: &[u8], size_hint: usize) -> (r: Result<Vec<u8>, ZipError>)
    ensures
        r is Ok <==> inflate_of(data@) is Some,
        r matches Ok(v) ==> v@ == inflate_of(data@).unwrap(),
        r matches Err(e) ==> e.kind() == ZipErrorKind::IO,
{
    let mut decoder = async_compression::futures::bufread::DeflateDecoder::new(data);
    let mut buffer = Vec::with_capacity(size_hint);
    match smol::block_on(decoder.read_to_end(&mut buffer)) {
        Ok(_) => Ok(buffer),
        Err(e) => Err(ZipError::IO(e.to_string())),
    }
}

/// The bytes a deflate64 stream decodes to, or nothing.
pub uninterp spec fn inflate64_of(data: Seq<u8>) -> Option<Seq<u8>>;

/// Relies on async_compression's Deflate64Decoder read to its end over an
/// in-memory buffer: the outcome depends on the compressed bytes alone.
#[verifier::external_body]
pub(crate) fn inflate64(data: &[u8], size_hint: usize) -> (r: Result<Vec<u8>, ZipError>)
    ensures
        r is Ok <==> inflate64_of(data@) is Some,
        r matches Ok(v) ==> v@ == inflate64_of(data@).unwrap(),
        r matches Err(e) ==> e.kind() == ZipErrorKind::IO,
{
    let mut decoder = async_compression::futures::bufread::Deflate64Decoder::new(data);
    let mut buffer = Vec::with_capacity(size_hint);
    match smol::block_on(decoder.read_to_end(&mut buffer)) {
        Ok(_) => Ok(buffer),
        Err(e) => Err(ZipError::IO(e.to_string())),
    }
}

/// The bytes a bzip2 stream decodes to, or nothing.
pub uninterp spec fn bunzip_of(data: Seq<u8>) -> Option<Seq<u8>>;

/// Relies on async_compression's BzDecoder read to its end over an
/// in-memory buffer: the outcome depends on the compressed bytes alone.
#[verifier::external_body]
pub(crate) fn bunzip(data: &[u8], size_hint: usize) -> (r: Result<Vec<u8>, ZipError>)
    ensures
        r is Ok <==> bunzip_of(data@) is Some,
        r matches Ok(v) ==> v@ == bunzip_of(data@).unwrap(),
        r matches Err(e) ==> e.kind() == ZipErrorKind::IO,
{
    let mut decoder = async_compression::futures::bufread::BzDecoder::new(data);
    let mut buffer = Vec::with_capacity(size_hint);
    match smol::block_on(decoder.read_to_end(&mut buffer)) {
        Ok(_) => Ok(buffer),
        Err(e) => Err(ZipError::IO(e.to_string())),
    }
}

/// The bytes an LZMA stream decodes to, or nothing.
pub uninterp spec fn unlzma_of(data: Seq<u8>) -> Option<Seq<u8>>;

/// Relies on async_compression's LzmaDecoder read to its end over an
/// in-memory buffer: the outcome depends on the compressed bytes alone.
#[verifier::external_body]
pub(crate) fn unlzma(data: &[u8], size_hint: usize) -> (r: Result<Vec<u8>, ZipError>)
    ensures
        r is Ok <==> unlzma_of(data@) is Some,
        r matches Ok(v) ==> v@ == unlzma_of(data@).unwrap(),
        r matches Err(e) ==> e.kind() == ZipErrorKind::IO,
{
    let mut decoder = async_compression::futures::bufread::LzmaDecoder::new(data);
    let mut buffer = Vec::with_capacity(size_hint);
    match smol::block_on(decoder.read_to_end(&mut buffer)) {
        Ok(_) => Ok(buffer),
        Err(e) => Err(ZipError::IO(e.to_string())),
    }
}

/// The bytes a zstandard stream decodes to, or nothing.
pub uninterp spec fn unzstd_of(data: Seq<u8>) -> Option<Seq<u8>>;

/// Relies on async_compression's ZstdDecoder read to its end over an
/// in-memory buffer: the outcome depends on the compressed bytes alone.
#[verifier::external_body]
pub(crate) fn unzstd(data: &[u8], size_hint: usize) -> (r: Result<Vec<u8>, ZipError>)
    ensures
        r is Ok <==> unzstd_of(data@) is Some,
        r matches Ok(v) ==> v@ == unzstd_of(data@).unwrap(),
        r matches Err(e) ==> e.kind() == ZipErrorKind::IO,
{
    let mut decoder = async_compression::futures::bufread::ZstdDecoder::new(data);
    let mut buffer = Vec::with_capacity(size_hint);
    match smol::block_on(decoder.read_to_end(&mut buffer)) {
        Ok(_) => Ok(buffer),
        Err(e) => Err(ZipError::IO(e.to_string())),
    }
}

/// The bytes an XZ stream decodes to, or nothing.
pub uninterp spec fn unxz_of(data: Seq<u8>) -> Option<Seq<u8>>;

/// Relies on async_compression's XzDecoder read to its end over an
/// in-memory buffer: the outcome depends on the compressed bytes alone.
#[verifier::external_body]
pub(crate) fn unxz(data: &[u8], size_hint: usize) -> (r: Result<Vec<u8>, ZipError>)
    ensures
        r is Ok <==> unxz_of(data@) is Some,
        r matches Ok(v) ==> v@ == unxz_of(data@).unwrap(),
        r matches Err(e) ==> e.kind() == ZipErrorKind::IO,
{
    let mut decoder = async_compression::futures::bufread::XzDecoder::new(data);
    let mut buffer = Vec::with_capacity(size_hint);
    match smol::block_on(decoder.read_to_end(&mut buffer)) {
        Ok(_) => Ok(buffer),
        Err(e) => Err(ZipError::IO(e.to_string())),
    }
}

} // verus!
