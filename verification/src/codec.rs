//! Byte encodings: base64 in its two alphabets, and UTF-8.
use vstd::prelude::*;

verus! {

/// The text of bytes in UTF-8, with a mark in the place of what is not.
pub uninterp spec fn lossy_text(b: Seq<u8>) -> Seq<char>;

/// Calls `String::from_utf8_lossy`. Claims that the text depends on the bytes alone, and that
/// bytes in UTF-8 are read as what they encode.
#[verifier::external_body]
pub(crate) fn read_lossy(b: &[u8]) -> (r: String)
    ensures
        r@ == lossy_text(b@),
        vstd::utf8::valid_utf8(b@) ==> vstd::utf8::encode_utf8(r@) == b@,
{
    String::from_utf8_lossy(b).into_owned()
}

/// What comes of reading a text as base64 with the standard alphabet and padding: the bytes, or
/// what is wrong with it.
pub uninterp spec fn base64_outcome(s: Seq<char>) -> Result<Seq<u8>, Seq<char>>;

/// Calls `base64::engine::general_purpose::STANDARD.decode`. Claims that the outcome depends
/// on the text alone.
#[verifier::external_body]
pub(crate) fn base64_decode(s: &str) -> (r: Result<Vec<u8>, String>)
    ensures
        match r {
            Ok(b) => base64_outcome(s@) == Ok::<Seq<u8>, Seq<char>>(b@),
            Err(e) => base64_outcome(s@) == Err::<Seq<u8>, Seq<char>>(e@),
        },
{
    base64::Engine::decode(&base64::engine::general_purpose::STANDARD, s).map_err(|e| e.to_string())
}

/// The bytes that a text stands for in base64 with the standard alphabet and padding.
pub open spec fn base64_bytes(s: Seq<char>) -> Option<Seq<u8>> {
    match base64_outcome(s) {
        Ok(b) => Some(b),
        Err(_) => None,
    }
}

/// The bytes that a text stands for in base64 with the URL alphabet and no padding.
pub uninterp spec fn base64url_bytes(s: Seq<char>) -> Option<Seq<u8>>;

/// Calls `base64::engine::general_purpose::URL_SAFE_NO_PAD.decode`. Claims that the outcome
/// depends on the text alone.
#[verifier::external_body]
pub(crate) fn base64url_decode(s: &str) -> (r: Option<Vec<u8>>)
    ensures
        match r {
            Some(b) => base64url_bytes(s@) == Some(b@),
            None => base64url_bytes(s@) is None,
        },
{
    base64::Engine::decode(&base64::engine::general_purpose::URL_SAFE_NO_PAD, s).ok()
}

/// Bytes in base64 with the standard alphabet and padding.
pub uninterp spec fn base64_text(b: Seq<u8>) -> Seq<char>;

/// Calls `base64::engine::general_purpose::STANDARD.encode`. Claims that the text depends on
/// the bytes alone, and that decoding it gives the bytes back.
#[verifier::external_body]
pub(crate) fn base64_encode(b: &[u8]) -> (r: String)
    ensures
        r@ == base64_text(b@),
        base64_bytes(r@) == Some(b@),
{
    base64::Engine::encode(&base64::engine::general_purpose::STANDARD, b)
}

/// Bytes in base64 with the URL alphabet and no padding.
pub uninterp spec fn base64url_text(b: Seq<u8>) -> Seq<char>;

/// Calls `base64::engine::general_purpose::URL_SAFE_NO_PAD.encode`. Claims that the text depends
/// on the bytes alone, and that decoding it gives the bytes back.
#[verifier::external_body]
pub(crate) fn base64url_encode(b: &[u8]) -> (r: String)
    ensures
        r@ == base64url_text(b@),
        base64url_bytes(r@) == Some(b@),
{
    base64::Engine::encode(&base64::engine::general_purpose::URL_SAFE_NO_PAD, b)
}

} // verus!
