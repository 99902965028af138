use vstd::prelude::*;

verus! {

// The two text decoders the wire format needs. Both results depend on the
// input bytes alone, so each is given a name that the contracts share.

/// The text that valid UTF-8 bytes decode to; nothing for invalid bytes.
pub uninterp spec fn utf8_decode(bytes: Seq<u8>) -> Option<Seq<char>>;

/// Relies on String::from_utf8: it succeeds exactly on valid UTF-8, and the
/// decoded text depends on the input bytes alone.
#[verifier::external_body]
pub fn bytes_to_string(bytes: Vec<u8>) -> (r: Option<String>)
    ensures
        r is Some <==> utf8_decode(bytes@) is Some,
        r matches Some(s) ==> s@ == utf8_decode(bytes@).unwrap(),
{
    String::from_utf8(bytes).ok()
}

/// The text any bytes decode to once invalid sequences are replaced.
pub uninterp spec fn utf8_lossy(bytes: Seq<u8>) -> Seq<char>;

/// Relies on String::from_utf8_lossy: the replacement of invalid sequences
/// depends on the input bytes alone.
#[verifier::external_body]
pub fn bytes_to_string_lossy(bytes: &[u8]) -> (r: String)
    ensures
        r@ == utf8_lossy(bytes@),
{
    String::from_utf8_lossy(bytes).into_owned()
}

} // verus!
