//! Digests, secrets, and their text forms.
use vstd::prelude::*;
use vstd::utf8::encode_utf8;

use crate::text::{cat3, chars_of, text_between};
use crate::value::hex_char;

verus! {

/// The SHA-256 digest of some bytes.
pub uninterp spec fn sha256(data: Seq<u8>) -> Seq<u8>;

/// Calls `sha2::Sha256::digest`. Claims that the digest depends on the bytes alone and has 32
/// bytes.
#[verifier::external_body]
pub(crate) fn sha256_digest(data: &[u8]) -> (r: Vec<u8>)
    ensures
        r@ == sha256(data@),
        r@.len() == 32,
{
    <sha2::Sha256 as sha2::Digest>::digest(data).to_vec()
}

/// Bytes in lower-case hexadecimal.
pub open spec fn hex_text(b: Seq<u8>) -> Seq<char>
    decreases b.len(),
{
    if b.len() == 0 {
        Seq::empty()
    } else {
        hex_text(b.drop_last()).push(hex_char(b.last() as int / 16)).push(
            hex_char(b.last() as int % 16),
        )
    }
}

/// Calls `hex::encode`: two lower-case digits for each byte, the high one first.
#[verifier::external_body]
pub(crate) fn hex_encode(b: &[u8]) -> (r: String)
    ensures
        r@ == hex_text(b@),
{
    hex::encode(b)
}

proof fn lemma_hex_len(b: Seq<u8>)
    ensures
        hex_text(b).len() == 2 * b.len(),
    decreases b.len(),
{
    if b.len() > 0 {
        lemma_hex_len(b.drop_last());
    }
}

/// The SHA-256 digest of some bytes in hexadecimal.
pub fn sha256_hex(data: &[u8]) -> (r: String)
    ensures
        r@ == hex_text(sha256(data@)),
        r@.len() == 64,
{
    let d = sha256_digest(data);
    proof {
        lemma_hex_len(d@);
    }
    hex_encode(d.as_slice())
}

/// Calls `ct_eq` of `subtle::ConstantTimeEq` on byte slices: true exactly on equal bytes.
#[verifier::external_body]
fn bytes_ct_eq(a: &[u8], b: &[u8]) -> (r: bool)
    ensures
        r == (a@ == b@),
{
    subtle::ConstantTimeEq::ct_eq(a, b).into()
}

/// Compares two texts in a time that depends on their lengths alone.
pub fn ct_eq(a: &str, b: &str) -> (r: bool)
    ensures
        r == (a@ == b@),
{
    broadcast use vstd::utf8::encode_utf8_decode_utf8;

    let x = a.as_bytes();
    let y = b.as_bytes();
    if x.len() != y.len() {
        assert(x@ != y@);
        return false;
    }
    assert(a@ == vstd::utf8::decode_utf8(encode_utf8(a@)));
    assert(b@ == vstd::utf8::decode_utf8(encode_utf8(b@)));
    bytes_ct_eq(x, y)
}

/// Calls `rand::RngCore::fill_bytes` of the thread's generator: as many bytes as were asked for.
#[verifier::external_body]
pub(crate) fn random_bytes(n: usize) -> (r: Vec<u8>)
    ensures
        r@.len() == n,
{
    let mut bytes = vec![0u8; n];
    rand::RngCore::fill_bytes(&mut rand::thread_rng(), &mut bytes);
    bytes
}

/// Whether `s` is made of `n` lower-case hexadecimal digits.
pub open spec fn is_hex(s: Seq<char>, n: nat) -> bool {
    s.len() == n && forall|i: int|
        0 <= i < n ==> ('0' <= #[trigger] s[i] <= '9' || 'a' <= s[i] <= 'f')
}

/// Calls `uuid::Uuid::new_v4` and writes the result without hyphens: 32 lower-case hexadecimal
/// digits.
#[verifier::external_body]
pub(crate) fn random_uuid() -> (r: String)
    ensures
        is_hex(r@, 32),
{
    uuid::Uuid::new_v4().simple().to_string()
}

/// A random name of 32 hexadecimal digits.
pub fn full_uuid() -> (r: String)
    ensures
        is_hex(r@, 32),
{
    random_uuid()
}

/// 32 digits in the five groups of a UUID.
pub open spec fn grouped(s: Seq<char>) -> Seq<char> {
    s.subrange(0, 8) + "-"@ + s.subrange(8, 12) + "-"@ + s.subrange(12, 16) + "-"@ + s.subrange(
        16,
        20,
    ) + "-"@ + s.subrange(20, 32)
}

/// A random UUID, with hyphens between its groups.
pub fn hyphenated_uuid() -> (r: String)
    ensures
        exists|s: Seq<char>| is_hex(s, 32) && r@ == #[trigger] grouped(s),
{
    let digits = random_uuid();
    let v = chars_of(digits.as_str());
    let mut out = cat3(
        text_between(&v, 0, 8).as_str(),
        "-",
        text_between(&v, 8, 12).as_str(),
    );
    out = cat3(out.as_str(), "-", text_between(&v, 12, 16).as_str());
    out = cat3(out.as_str(), "-", text_between(&v, 16, 20).as_str());
    out = cat3(out.as_str(), "-", text_between(&v, 20, 32).as_str());
    assert(out@ == grouped(digits@));
    out
}

/// A random name of twelve hexadecimal digits.
pub fn short_uuid() -> (r: String)
    ensures
        is_hex(r@, 12),
{
    let id = random_uuid();
    crate::text::prefix_chars(id.as_str(), 12)
}

} // verus!
