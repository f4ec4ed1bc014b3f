//! Percent-encoding.
use vstd::prelude::*;
use vstd::string::StringExecFns;
use vstd::utf8::encode_utf8;

use crate::sorting::{pair_order, pairs_view, sort_pairs, sorted};
use crate::text::{is_alnum, join, joined, views};

verus! {

/// The upper-case hexadecimal digit of `n`.
pub open spec fn upper_hex(n: int) -> char {
    if n < 10 {
        ((48 + n) as u8) as char
    } else {
        ((55 + n) as u8) as char
    }
}

/// Whether a byte stands for itself.
pub open spec fn unreserved(b: u8) -> bool {
    is_alnum(b as char) || b == 45 || b == 46 || b == 95 || b == 126
}

/// How one byte is written: as itself where it is a letter, a digit or one of `-._~`, or a slash
/// that is kept; else as a percent sign and two hexadecimal digits.
pub open spec fn byte_encoded(b: u8, keep_slash: bool) -> Seq<char> {
    if unreserved(b) || (keep_slash && b == 47) {
        seq![b as char]
    } else {
        seq!['%', upper_hex(b as int / 16), upper_hex(b as int % 16)]
    }
}

/// How some bytes are written.
pub open spec fn bytes_encoded(s: Seq<u8>, keep_slash: bool) -> Seq<char>
    decreases s.len(),
{
    if s.len() == 0 {
        Seq::empty()
    } else {
        bytes_encoded(s.drop_last(), keep_slash) + byte_encoded(s.last(), keep_slash)
    }
}

/// A text percent-encoded.
pub open spec fn encoded(s: Seq<char>, keep_slash: bool) -> Seq<char> {
    bytes_encoded(encode_utf8(s), keep_slash)
}

fn hex_upper(n: u8) -> (r: char)
    requires
        n < 16,
    ensures
        r == upper_hex(n as int),
{
    if n < 10 {
        (48 + n) as char
    } else {
        (55 + n) as char
    }
}

/// Percent-encodes a text; slashes are kept where `keep_slash` says so.
pub fn percent_encode(s: &str, keep_slash: bool) -> (r: String)
    ensures
        r@ == encoded(s@, keep_slash),
{
    let b = s.as_bytes();
    let mut out = String::new();
    let mut i: usize = 0;
    while i < b.len()
        invariant
            i <= b@.len(),
            out@ == bytes_encoded(b@.take(i as int), keep_slash),
        decreases b@.len() - i,
    {
        let x: u8 = b[i];
        let ghost done = out@;
        assert(b@.take(i + 1).drop_last() =~= b@.take(i as int));
        if (x >= 97 && x <= 122) || (x >= 65 && x <= 90) || (x >= 48 && x <= 57) || x == 45 || x == 46
            || x == 95 || x == 126 || (keep_slash && x == 47) {
            out.push(x as char);
        } else {
            out.push('%');
            out.push(hex_upper(x / 16));
            out.push(hex_upper(x % 16));
        }
        assert(out@ =~= done + byte_encoded(x, keep_slash));
        i += 1;
    }
    assert(b@.take(i as int) =~= b@);
    out
}

/// One segment of a path.
pub fn encode_segment(s: &str) -> (r: String)
    ensures
        r@ == encoded(s@, false),
{
    percent_encode(s, false)
}

/// One name or value of a query.
pub fn encode_component(s: &str) -> (r: String)
    ensures
        r@ == encoded(s@, false),
{
    percent_encode(s, false)
}

/// A file name in a header.
pub fn encode_rfc5987(name: &str) -> (r: String)
    ensures
        r@ == encoded(name@, false),
{
    percent_encode(name, false)
}

/// A name and a value of a query.
pub open spec fn parameter(p: (Seq<char>, Seq<char>)) -> Seq<char> {
    encoded(p.0, false) + seq!['='] + encoded(p.1, false)
}

/// The names and values of a query.
pub open spec fn query_text(params: Seq<(Seq<char>, Seq<char>)>) -> Seq<char> {
    joined(params.map_values(|p: (Seq<char>, Seq<char>)| parameter(p)), "&"@)
}

/// Writes a query in the order given.
pub fn urlencode(params: &Vec<(String, String)>) -> (r: String)
    ensures
        r@ == query_text(pairs_view(params@)),
{
    let ghost want = pairs_view(params@).map_values(|p: (Seq<char>, Seq<char>)| parameter(p));
    let mut parts: Vec<String> = Vec::new();
    let mut i: usize = 0;
    while i < params.len()
        invariant
            i <= params@.len(),
            want == pairs_view(params@).map_values(|p: (Seq<char>, Seq<char>)| parameter(p)),
            views(parts@) =~= want.take(i as int),
        decreases params@.len() - i,
    {
        let ghost done = views(parts@);
        let mut part = encode_component(params[i].0.as_str());
        part.push('=');
        part.append(encode_component(params[i].1.as_str()).as_str());
        assert(part@ =~= parameter((params@[i as int].0@, params@[i as int].1@)));
        parts.push(part);
        assert(views(parts@) =~= done.push(want[i as int]));
        i += 1;
    }
    assert(views(parts@) =~= want);
    join(&parts, "&")
}

/// Writes a query in the order of its names.
pub fn encode_query(query: &Vec<(String, String)>) -> (r: String)
    ensures
        r@ == query_text(sorted(pairs_view(query@), pair_order())),
{
    let items = sort_pairs(query);
    urlencode(&items)
}

/// An encoded text is made of unreserved characters, percent signs and kept slashes alone.
pub proof fn law_encoded_is_safe(s: Seq<u8>, keep_slash: bool)
    ensures
        forall|i: int|
            0 <= i < bytes_encoded(s, keep_slash).len() ==> {
                let c = #[trigger] bytes_encoded(s, keep_slash)[i];
                is_alnum(c) || c == '-' || c == '.' || c == '_' || c == '~' || c == '%' || (
                keep_slash && c == '/')
            },
    decreases s.len(),
{
    if s.len() > 0 {
        law_encoded_is_safe(s.drop_last(), keep_slash);
        let head = bytes_encoded(s.drop_last(), keep_slash);
        let tail = byte_encoded(s.last(), keep_slash);
        assert forall|i: int| 0 <= i < bytes_encoded(s, keep_slash).len() implies {
            let c = #[trigger] bytes_encoded(s, keep_slash)[i];
            is_alnum(c) || c == '-' || c == '.' || c == '_' || c == '~' || c == '%' || (keep_slash
                && c == '/')
        } by {
            if i < head.len() {
                assert(bytes_encoded(s, keep_slash)[i] == head[i]);
            } else {
                assert(bytes_encoded(s, keep_slash)[i] == tail[i - head.len()]);
            }
        }
    }
}

} // verus!
