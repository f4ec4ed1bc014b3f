//! The claims that an access token carries in its payload.
use vstd::prelude::*;
use vstd::utf8::encode_utf8;

use crate::clock::{calendar_second, on_calendar, Moment};
use crate::codec::{base64_bytes, base64_decode, base64url_bytes, base64url_decode};
use crate::text::{pieces, skip_back, split, trim_back, views, CharClass};
use crate::json::parsed;
use crate::value::{empty_object, Json, JsonView};

verus! {

/// How long before its expiry a token is due for a refresh, in seconds.
pub const ACCESS_TOKEN_REFRESH_SKEW_SECONDS: i64 = 86_400;

/// `n` equals signs.
pub open spec fn padding(n: nat) -> Seq<char> {
    Seq::new(n, |i: int| '=')
}

/// A base64 text padded to a multiple of four bytes.
pub open spec fn padded(s: Seq<char>) -> Seq<char> {
    s + padding(((4 - encode_utf8(s).len() % 4) % 4) as nat)
}

/// The bytes of a token's payload: its second segment, read as unpadded URL base64 or else as
/// padded standard base64.
pub open spec fn payload_bytes(token: Seq<char>) -> Option<Seq<u8>> {
    let parts = pieces(token, '.');
    if parts.len() < 2 {
        None
    } else {
        let text = padded(parts[1]);
        match base64url_bytes(skip_back(text, CharClass::Just('='))) {
            Some(b) => Some(b),
            None => base64_bytes(text),
        }
    }
}

/// The claims in a payload: the object it holds, or no claims.
pub open spec fn claims_of(payload: Option<Seq<u8>>) -> JsonView {
    match payload {
        Some(b) => match parsed(b) {
            Some(JsonView::Obj(o)) => JsonView::Obj(o),
            _ => empty_object(),
        },
        None => empty_object(),
    }
}

/// The claims of a token.
pub open spec fn claims(token: Seq<char>) -> JsonView {
    claims_of(payload_bytes(token))
}

fn pad(s: &str) -> (r: String)
    ensures
        r@ == padded(s@),
{
    let n: usize = (4 - s.as_bytes().len() % 4) % 4;
    let mut out = s.to_owned();
    let mut i: usize = 0;
    assert(out@ =~= s@ + padding(0));
    while i < n
        invariant
            i <= n,
            out@ == s@ + padding(i as nat),
        decreases n - i,
    {
        out.push('=');
        i += 1;
        assert(out@ =~= s@ + padding(i as nat));
    }
    out
}

/// Finds the bytes of a token's payload.
pub fn token_payload(token: &str) -> (r: Option<Vec<u8>>)
    ensures
        match r {
            Some(b) => payload_bytes(token@) == Some(b@),
            None => payload_bytes(token@) is None,
        },
{
    let parts = split(token, '.');
    assert(views(parts@).len() == parts@.len());
    if parts.len() < 2 {
        return None;
    }
    assert(views(parts@)[1] == parts@[1]@);
    let text = pad(parts[1].as_str());
    match base64url_decode(trim_back(text.as_str(), CharClass::Just('=')).as_str()) {
        Some(b) => Some(b),
        None => match base64_decode(text.as_str()) {
            Ok(b) => Some(b),
            Err(_) => None,
        },
    }
}

/// Reads the claims of a token.
pub fn decode_jwt_payload(token: &str) -> (r: Json)
    ensures
        r@ == claims(token@),
        r@ is Obj,
{
    match token_payload(token) {
        Some(b) => match Json::parse(b.as_slice()) {
            Some(Json::Obj(o)) => Json::Obj(o),
            _ => Json::object(),
        },
        None => Json::object(),
    }
}

/// When a token expires, in seconds since the epoch; zero where it does not say.
pub fn jwt_exp(access_token: &str) -> (r: i64)
    ensures
        r == claims(access_token@).int_at("exp"@, 0),
{
    decode_jwt_payload(access_token).int_at("exp", 0)
}

/// The seconds from `now` to a token's expiry, where it gives one; at most the largest number of
/// seconds that can be told.
pub open spec fn expires_in(token: Seq<char>, now: int) -> Option<int> {
    let exp = claims(token).int_at("exp"@, 0);
    if exp <= 0 {
        None
    } else if exp - now > i64::MAX {
        Some(i64::MAX as int)
    } else {
        Some(exp - now)
    }
}

/// The seconds from `now` to a token's expiry, where it gives one.
pub fn token_expires_in(access_token: &str, now: i64) -> (r: Option<i64>)
    ensures
        match r {
            Some(n) => expires_in(access_token@, now as int) == Some(n as int),
            None => expires_in(access_token@, now as int) is None,
        },
{
    let exp = jwt_exp(access_token);
    if exp <= 0 {
        None
    } else {
        let left: i128 = exp as i128 - now as i128;
        if left > i64::MAX as i128 {
            Some(i64::MAX)
        } else {
            Some(left as i64)
        }
    }
}

/// Whether a token is due for a refresh: always when forced, else within a day of its expiry.
pub open spec fn needs_refresh(token: Seq<char>, force: bool, now: int) -> bool {
    force || match expires_in(token, now) {
        Some(left) => left <= ACCESS_TOKEN_REFRESH_SKEW_SECONDS,
        None => false,
    }
}

/// Decides whether a token is due for a refresh.
pub fn token_needs_refresh(access_token: &str, force: bool, now: i64) -> (r: bool)
    ensures
        r == needs_refresh(access_token@, force, now as int),
{
    if force {
        return true;
    }
    match token_expires_in(access_token, now) {
        Some(left) => left <= ACCESS_TOKEN_REFRESH_SKEW_SECONDS,
        None => false,
    }
}

/// When a token was issued, where it says so and the calendar reaches it.
pub open spec fn issued_at(token: Seq<char>) -> Option<Moment> {
    let iat = claims(token).int_at("iat"@, 0);
    if iat > 0 && on_calendar(iat) {
        Some(Moment { secs: iat, nanos: 0 })
    } else {
        None
    }
}

/// When a token was issued.
pub fn token_issued_at(access_token: &str) -> (r: Option<Moment>)
    ensures
        r == issued_at(access_token@),
{
    let iat = decode_jwt_payload(access_token).int_at("iat", 0);
    if iat <= 0 {
        None
    } else {
        calendar_second(iat)
    }
}

} // verus!
