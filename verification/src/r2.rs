//! The object storage that backups go to: requests that are signed, and answers that are read.
use vstd::prelude::*;
use vstd::string::StringExecFns;
use vstd::utf8::encode_utf8;

use crate::cipher::{hmac, hmac_sha256};
use crate::digest::{hex_encode, hex_text, sha256, sha256_hex};
use crate::json::{clean_from, non_empty_or};
use crate::sorting::{
    field_order, pair_order, pairs_view, sort_pairs, sort_records, sorted,
};
use crate::text::{
    ascii_lower, between, cat, cat3, contains, decimal, decimal_text, extract_between,
    join, joined, occurs, parse_int, parsed_int, pieces_by, skip_back, skip_front, split_text,
    split_words, strip, to_ascii_lower, to_upper, trim, trim_back, trim_class, trim_front,
    trimmed, unicode_upper, views, words, CharClass,
};
use crate::urlcode::{encode_query, encoded, percent_encode, query_text};
use crate::value::{clean_text, empty_object, int_json, list_view, or_else, Json, JsonView};

verus! {

broadcast use crate::value::group_json;

/// Where backups are stored, and with what credentials.
pub struct R2Client {
    pub account_id: String,
    pub access_key_id: String,
    pub secret_access_key: String,
    pub bucket: String,
    pub prefix: String,
}

/// The names of the settings that are missing.
pub open spec fn missing_settings(c: R2Client) -> Seq<Seq<char>> {
    let m = Seq::<Seq<char>>::empty();
    let m = if c.account_id@.len() == 0 {
        m.push("Account ID"@)
    } else {
        m
    };
    let m = if c.access_key_id@.len() == 0 {
        m.push("Access Key ID"@)
    } else {
        m
    };
    let m = if c.secret_access_key@.len() == 0 {
        m.push("Secret Access Key"@)
    } else {
        m
    };
    if c.bucket@.len() == 0 {
        m.push("Bucket"@)
    } else {
        m
    }
}

/// The host of an account.
pub open spec fn host_of(account: Seq<char>) -> Seq<char> {
    account + ".r2.cloudflarestorage.com"@
}

/// A text with its white space made single spaces.
pub open spec fn squeezed(s: Seq<char>) -> Seq<char> {
    joined(words(s), " "@)
}

/// The headers that are sent, before the signature.
pub open spec fn plain_headers(
    host: Seq<char>,
    hash: Seq<char>,
    amz_date: Seq<char>,
    extra: Seq<(Seq<char>, Seq<char>)>,
) -> Seq<(Seq<char>, Seq<char>)> {
    seq![
        ("host"@, host),
        ("x-amz-content-sha256"@, hash),
        ("x-amz-date"@, amz_date),
    ] + extra.map_values(|h: (Seq<char>, Seq<char>)| (ascii_lower(h.0), trimmed(h.1)))
}

/// The headers as they are signed: by name, their values squeezed.
pub open spec fn signed_items(headers: Seq<(Seq<char>, Seq<char>)>) -> Seq<(Seq<char>, Seq<char>)> {
    sorted(
        headers.map_values(|h: (Seq<char>, Seq<char>)| (h.0, squeezed(h.1))),
        pair_order(),
    )
}

/// One line for each header.
pub open spec fn header_lines(items: Seq<(Seq<char>, Seq<char>)>) -> Seq<char>
    decreases items.len(),
{
    if items.len() == 0 {
        Seq::empty()
    } else {
        header_lines(items.drop_last()) + items.last().0 + ":"@ + items.last().1 + "\n"@
    }
}

/// The names of the headers.
pub open spec fn header_names(items: Seq<(Seq<char>, Seq<char>)>) -> Seq<char> {
    joined(items.map_values(|h: (Seq<char>, Seq<char>)| h.0), ";"@)
}

/// The request as it is signed.
pub open spec fn canonical_request(
    method: Seq<char>,
    path: Seq<char>,
    query: Seq<char>,
    items: Seq<(Seq<char>, Seq<char>)>,
    hash: Seq<char>,
) -> Seq<char> {
    joined(
        seq![unicode_upper(method), path, query, header_lines(items), header_names(items), hash],
        "\n"@,
    )
}

/// The scope of a signature.
pub open spec fn credential_scope(date_stamp: Seq<char>) -> Seq<char> {
    date_stamp + "/auto/s3/aws4_request"@
}

/// What is signed.
pub open spec fn string_to_sign(
    amz_date: Seq<char>,
    date_stamp: Seq<char>,
    request: Seq<char>,
) -> Seq<char> {
    joined(
        seq![
            "AWS4-HMAC-SHA256"@,
            amz_date,
            credential_scope(date_stamp),
            hex_text(sha256(encode_utf8(request))),
        ],
        "\n"@,
    )
}

/// The key of the signatures of a day.
pub open spec fn signing_key(secret: Seq<char>, date_stamp: Seq<char>) -> Seq<u8> {
    hmac(
        hmac(
            hmac(
                hmac(encode_utf8("AWS4"@ + secret), encode_utf8(date_stamp)),
                encode_utf8("auto"@),
            ),
            encode_utf8("s3"@),
        ),
        encode_utf8("aws4_request"@),
    )
}

/// The header that carries the signature.
pub open spec fn authorization(
    key_id: Seq<char>,
    secret: Seq<char>,
    date_stamp: Seq<char>,
    names: Seq<char>,
    to_sign: Seq<char>,
) -> Seq<char> {
    "AWS4-HMAC-SHA256 Credential="@ + key_id + "/"@ + credential_scope(date_stamp)
        + ", SignedHeaders="@ + names + ", Signature="@ + hex_text(
        hmac(signing_key(secret, date_stamp), encode_utf8(to_sign)),
    )
}

/// The path of an object.
pub open spec fn object_path(bucket: Seq<char>, key: Seq<char>) -> Seq<char> {
    "/"@ + bucket + (if key.len() == 0 {
        Seq::empty()
    } else {
        "/"@ + encoded(skip_front(key, CharClass::Just('/')), true)
    })
}

/// A request that is ready to be sent.
pub struct SignedRequest {
    pub url: String,
    pub headers: Vec<(String, String)>,
}

fn lowered(extra: &Vec<(String, String)>) -> (r: Vec<(String, String)>)
    ensures
        pairs_view(r@) == pairs_view(extra@).map_values(
            |h: (Seq<char>, Seq<char>)| (ascii_lower(h.0), trimmed(h.1)),
        ),
{
    let ghost want = pairs_view(extra@).map_values(
        |h: (Seq<char>, Seq<char>)| (ascii_lower(h.0), trimmed(h.1)),
    );
    let mut out: Vec<(String, String)> = Vec::new();
    let mut i: usize = 0;
    while i < extra.len()
        invariant
            i <= extra@.len(),
            want == pairs_view(extra@).map_values(
                |h: (Seq<char>, Seq<char>)| (ascii_lower(h.0), trimmed(h.1)),
            ),
            pairs_view(out@) =~= want.take(i as int),
        decreases extra@.len() - i,
    {
        let ghost done = pairs_view(out@);
        out.push((to_ascii_lower(extra[i].0.as_str()), trim(extra[i].1.as_str())));
        assert(pairs_view(out@) =~= done.push(want[i as int]));
        i += 1;
    }
    assert(pairs_view(out@) =~= want);
    out
}

fn sign_items(headers: &Vec<(String, String)>) -> (r: Vec<(String, String)>)
    ensures
        pairs_view(r@) == signed_items(pairs_view(headers@)),
{
    let ghost want = pairs_view(headers@).map_values(
        |h: (Seq<char>, Seq<char>)| (h.0, squeezed(h.1)),
    );
    let mut out: Vec<(String, String)> = Vec::new();
    let mut i: usize = 0;
    while i < headers.len()
        invariant
            i <= headers@.len(),
            want == pairs_view(headers@).map_values(
                |h: (Seq<char>, Seq<char>)| (h.0, squeezed(h.1)),
            ),
            pairs_view(out@) =~= want.take(i as int),
        decreases headers@.len() - i,
    {
        let ghost done = pairs_view(out@);
        let value = join(&split_words(headers[i].1.as_str()), " ");
        out.push((headers[i].0.clone(), value));
        assert(pairs_view(out@) =~= done.push(want[i as int]));
        i += 1;
    }
    assert(pairs_view(out@) =~= want);
    sort_pairs(&out)
}

fn lines_of(items: &Vec<(String, String)>) -> (r: String)
    ensures
        r@ == header_lines(pairs_view(items@)),
{
    let ghost v = pairs_view(items@);
    let mut out = String::new();
    let mut i: usize = 0;
    while i < items.len()
        invariant
            i <= items@.len(),
            v == pairs_view(items@),
            out@ == header_lines(v.take(i as int)),
        decreases items@.len() - i,
    {
        assert(v.take(i + 1).drop_last() =~= v.take(i as int));
        out.append(items[i].0.as_str());
        out.append(":");
        out.append(items[i].1.as_str());
        out.append("\n");
        i += 1;
    }
    assert(v.take(i as int) =~= v);
    out
}

fn names_of(items: &Vec<(String, String)>) -> (r: String)
    ensures
        r@ == header_names(pairs_view(items@)),
{
    let ghost want = pairs_view(items@).map_values(|h: (Seq<char>, Seq<char>)| h.0);
    let mut out: Vec<String> = Vec::new();
    let mut i: usize = 0;
    while i < items.len()
        invariant
            i <= items@.len(),
            want == pairs_view(items@).map_values(|h: (Seq<char>, Seq<char>)| h.0),
            views(out@) =~= want.take(i as int),
        decreases items@.len() - i,
    {
        let ghost done = views(out@);
        out.push(items[i].0.clone());
        assert(views(out@) =~= done.push(want[i as int]));
        i += 1;
    }
    assert(views(out@) =~= want);
    join(&out, ";")
}

fn write_canonical(
    method: &str,
    path: &str,
    query: &str,
    items: &Vec<(String, String)>,
    hash: &str,
) -> (r: String)
    ensures
        r@ == canonical_request(method@, path@, query@, pairs_view(items@), hash@),
{
    let mut parts: Vec<String> = Vec::new();
    parts.push(to_upper(method));
    parts.push(path.to_owned());
    parts.push(query.to_owned());
    parts.push(lines_of(items));
    parts.push(names_of(items));
    parts.push(hash.to_owned());
    assert(views(parts@) =~= seq![
        unicode_upper(method@),
        path@,
        query@,
        header_lines(pairs_view(items@)),
        header_names(pairs_view(items@)),
        hash@,
    ]);
    join(&parts, "\n")
}

fn write_string_to_sign(amz_date: &str, date_stamp: &str, request: &str) -> (r: String)
    ensures
        r@ == string_to_sign(amz_date@, date_stamp@, request@),
{
    let mut parts: Vec<String> = Vec::new();
    parts.push("AWS4-HMAC-SHA256".to_owned());
    parts.push(amz_date.to_owned());
    parts.push(cat(date_stamp, "/auto/s3/aws4_request"));
    parts.push(sha256_hex(request.as_bytes()));
    assert(views(parts@) =~= seq![
        "AWS4-HMAC-SHA256"@,
        amz_date@,
        credential_scope(date_stamp@),
        hex_text(sha256(encode_utf8(request@))),
    ]);
    join(&parts, "\n")
}

fn derive_signing_key(secret: &str, date_stamp: &str) -> (r: Vec<u8>)
    ensures
        r@ == signing_key(secret@, date_stamp@),
{
    let first = cat("AWS4", secret);
    let k_date = hmac_sha256(first.as_str().as_bytes(), date_stamp.as_bytes());
    let k_region = hmac_sha256(k_date.as_slice(), "auto".as_bytes());
    let k_service = hmac_sha256(k_region.as_slice(), "s3".as_bytes());
    hmac_sha256(k_service.as_slice(), "aws4_request".as_bytes())
}

/// The listing of one page of objects: each object with its key, size and time.
pub open spec fn listed_object() -> spec_fn(Seq<char>) -> Option<JsonView> {
    |block: Seq<char>|
        {
            let key = between(block, "<Key>"@, "</Key>"@);
            let size = parsed_int(trimmed(between(block, "<Size>"@, "</Size>"@)));
            if key.len() == 0 {
                None
            } else {
                Some(
                    empty_object().put("key"@, JsonView::Str(key)).put(
                        "size"@,
                        int_json(
                            match size {
                                Some(n) => n,
                                None => 0,
                            },
                        ),
                    ).put(
                        "updated_at"@,
                        JsonView::Str(between(block, "<LastModified>"@, "</LastModified>"@)),
                    ),
                )
            }
        }
}

/// The objects on a page.
pub open spec fn page_objects(text: Seq<char>) -> Seq<JsonView> {
    pieces_by(text, "<Contents>"@).drop_first().filter_map(listed_object())
}

/// The token for the next page; empty where this one is the last.
pub open spec fn next_page(text: Seq<char>) -> Seq<char> {
    if occurs(text, "<IsTruncated>true</IsTruncated>"@) && occurs(
        text,
        "<NextContinuationToken>"@,
    ) {
        between(text, "<NextContinuationToken>"@, "</NextContinuationToken>"@)
    } else {
        Seq::empty()
    }
}

/// The query for a page of objects.
pub open spec fn page_query(prefix: Seq<char>, token: Seq<char>) -> Seq<(Seq<char>, Seq<char>)> {
    let q = seq![
        ("list-type"@, "2"@),
        ("prefix"@, skip_back(prefix, CharClass::Just('/')) + "/"@),
        ("max-keys"@, "1000"@),
    ];
    if token.len() == 0 {
        q
    } else {
        q.push(("continuation-token"@, token))
    }
}

/// A refusal with a status.
pub open spec fn status_text(what: Seq<char>, status: u16) -> Seq<char> {
    what + "：HTTP "@ + decimal(status as nat)
}

fn status_error(what: &str, status: u16) -> (r: String)
    ensures
        r@ == status_text(what@, status),
{
    cat3(what, "：HTTP ", decimal_text(status as u128).as_str())
}

impl R2Client {
    /// The client for a backup section.
    pub fn new(settings: &Json) -> (r: R2Client)
        ensures
            r.account_id@ == clean_text(settings@.get("account_id"@)),
            r.access_key_id@ == clean_text(settings@.get("access_key_id"@)),
            r.secret_access_key@ == clean_text(settings@.get("secret_access_key"@)),
            r.bucket@ == clean_text(settings@.get("bucket"@)),
            r.prefix@ == or_else(clean_text(settings@.get("prefix"@)), "backups"@),
    {
        R2Client {
            account_id: clean_from(settings.get("account_id")),
            access_key_id: clean_from(settings.get("access_key_id")),
            secret_access_key: clean_from(settings.get("secret_access_key")),
            bucket: clean_from(settings.get("bucket")),
            prefix: non_empty_or(clean_from(settings.get("prefix")), "backups"),
        }
    }

    /// Checks that nothing is missing.
    pub fn validate(&self) -> (r: Result<(), String>)
        ensures
            match r {
                Ok(_) => missing_settings(*self).len() == 0,
                Err(e) => missing_settings(*self).len() > 0 && e@ == "R2 配置不完整：缺少 "@ + joined(
                    missing_settings(*self),
                    "、"@,
                ),
            },
            r is Ok <==> self.account_id@.len() > 0 && self.access_key_id@.len() > 0
                && self.secret_access_key@.len() > 0 && self.bucket@.len() > 0,
    {
        let mut missing: Vec<String> = Vec::new();
        assert(views(missing@) =~= Seq::empty());
        if self.account_id.as_str().is_empty() {
            let ghost m = views(missing@);
            missing.push("Account ID".to_owned());
            assert(views(missing@) =~= m.push("Account ID"@));
        }
        if self.access_key_id.as_str().is_empty() {
            let ghost m = views(missing@);
            missing.push("Access Key ID".to_owned());
            assert(views(missing@) =~= m.push("Access Key ID"@));
        }
        if self.secret_access_key.as_str().is_empty() {
            let ghost m = views(missing@);
            missing.push("Secret Access Key".to_owned());
            assert(views(missing@) =~= m.push("Secret Access Key"@));
        }
        if self.bucket.as_str().is_empty() {
            let ghost m = views(missing@);
            missing.push("Bucket".to_owned());
            assert(views(missing@) =~= m.push("Bucket"@));
        }
        assert(views(missing@).len() == missing@.len());
        if missing.len() > 0 {
            return Err(cat("R2 配置不完整：缺少 ", join(&missing, "、").as_str()));
        }
        Ok(())
    }

    pub fn host(&self) -> (r: String)
        ensures
            r@ == host_of(self.account_id@),
    {
        cat(self.account_id.as_str(), ".r2.cloudflarestorage.com")
    }

    pub fn endpoint(&self) -> (r: String)
        ensures
            r@ == "https://"@ + host_of(self.account_id@),
    {
        cat("https://", self.host().as_str())
    }

    /// Signs a request: gives its query and its headers. `amz_date` and `date_stamp` are the time
    /// of the request and its day.
    pub fn aws_v4_headers(
        &self,
        method: &str,
        path: &str,
        query: &Vec<(String, String)>,
        body: &[u8],
        extra_headers: &Vec<(String, String)>,
        amz_date: &str,
        date_stamp: &str,
    ) -> (r: (String, Vec<(String, String)>))
        ensures
            ({
                let q = query_text(sorted(pairs_view(query@), pair_order()));
                let hash = hex_text(sha256(body@));
                let plain = plain_headers(
                    host_of(self.account_id@),
                    hash,
                    amz_date@,
                    pairs_view(extra_headers@),
                );
                let items = signed_items(plain);
                let to_sign = string_to_sign(
                    amz_date@,
                    date_stamp@,
                    canonical_request(method@, path@, q, items, hash),
                );
                &&& r.0@ == q
                &&& pairs_view(r.1@) == plain.push(
                    (
                        "authorization"@,
                        authorization(
                            self.access_key_id@,
                            self.secret_access_key@,
                            date_stamp@,
                            header_names(items),
                            to_sign,
                        ),
                    ),
                )
            }),
    {
        let encoded_query = encode_query(query);
        let payload_hash = sha256_hex(body);
        let mut headers: Vec<(String, String)> = Vec::new();
        headers.push(("host".to_owned(), self.host()));
        headers.push(("x-amz-content-sha256".to_owned(), payload_hash.clone()));
        headers.push(("x-amz-date".to_owned(), amz_date.to_owned()));
        let ghost three = pairs_view(headers@);
        let mut more = lowered(extra_headers);
        let ghost mv = pairs_view(more@);
        headers.append(&mut more);
        let ghost plain = plain_headers(
            host_of(self.account_id@),
            payload_hash@,
            amz_date@,
            pairs_view(extra_headers@),
        );
        assert(pairs_view(headers@) =~= plain);
        let items = sign_items(&headers);
        let request = write_canonical(
            method,
            path,
            encoded_query.as_str(),
            &items,
            payload_hash.as_str(),
        );
        let to_sign = write_string_to_sign(amz_date, date_stamp, request.as_str());
        let key = derive_signing_key(self.secret_access_key.as_str(), date_stamp);
        let signature = hex_encode(hmac_sha256(key.as_slice(), to_sign.as_str().as_bytes()).as_slice());
        let mut line = cat3(
            "AWS4-HMAC-SHA256 Credential=",
            self.access_key_id.as_str(),
            "/",
        );
        line.append(cat(date_stamp, "/auto/s3/aws4_request").as_str());
        line.append(", SignedHeaders=");
        line.append(names_of(&items).as_str());
        line.append(", Signature=");
        line.append(signature.as_str());
        let ghost lv = line@;
        headers.push(("authorization".to_owned(), line));
        assert(pairs_view(headers@) =~= plain.push(("authorization"@, lv)));
        (encoded_query, headers)
    }

    /// Prepares a request for an object, or for the bucket where `key` is empty.
    pub fn request(
        &self,
        method: &str,
        key: &str,
        query: &Vec<(String, String)>,
        body: &[u8],
        extra_headers: &Vec<(String, String)>,
        amz_date: &str,
        date_stamp: &str,
    ) -> (r: SignedRequest)
        ensures
            ({
                let path = object_path(self.bucket@, key@);
                let q = query_text(sorted(pairs_view(query@), pair_order()));
                let hash = hex_text(sha256(body@));
                let plain = plain_headers(
                    host_of(self.account_id@),
                    hash,
                    amz_date@,
                    pairs_view(extra_headers@),
                );
                let items = signed_items(plain);
                &&& r.url@ == "https://"@ + host_of(self.account_id@) + path + (if q.len() == 0 {
                    Seq::empty()
                } else {
                    "?"@ + q
                })
                &&& pairs_view(r.headers@) == plain.push(
                    (
                        "authorization"@,
                        authorization(
                            self.access_key_id@,
                            self.secret_access_key@,
                            date_stamp@,
                            header_names(items),
                            string_to_sign(
                                amz_date@,
                                date_stamp@,
                                canonical_request(method@, path, q, items, hash),
                            ),
                        ),
                    ),
                )
            }),
    {
        let mut path = cat("/", self.bucket.as_str());
        if !key.is_empty() {
            let bare = trim_front(key, CharClass::Just('/'));
            let tail = cat("/", percent_encode(bare.as_str(), true).as_str());
            path.append(tail.as_str());
        }
        assert(path@ =~= object_path(self.bucket@, key@));
        let (q, headers) = self.aws_v4_headers(
            method,
            path.as_str(),
            query,
            body,
            extra_headers,
            amz_date,
            date_stamp,
        );
        let mut url = cat(self.endpoint().as_str(), path.as_str());
        let ghost u = url@;
        if !q.as_str().is_empty() {
            let tail = cat("?", q.as_str());
            url.append(tail.as_str());
        }
        assert(url@ =~= u + (if q@.len() == 0 {
            Seq::empty()
        } else {
            "?"@ + q@
        }));
        SignedRequest { url, headers }
    }

    /// The query for a page of the listing of backups.
    pub fn list_query(&self, continuation: &str) -> (r: Vec<(String, String)>)
        ensures
            pairs_view(r@) == page_query(self.prefix@, continuation@),
    {
        let mut q: Vec<(String, String)> = Vec::new();
        q.push(("list-type".to_owned(), "2".to_owned()));
        let prefix = cat(
            trim_back(self.prefix.as_str(), CharClass::Just('/')).as_str(),
            "/",
        );
        q.push(("prefix".to_owned(), prefix));
        q.push(("max-keys".to_owned(), "1000".to_owned()));
        let ghost three = seq![
            ("list-type"@, "2"@),
            ("prefix"@, skip_back(self.prefix@, CharClass::Just('/')) + "/"@),
            ("max-keys"@, "1000"@),
        ];
        assert(pairs_view(q@) =~= three);
        if !continuation.is_empty() {
            q.push(("continuation-token".to_owned(), continuation.to_owned()));
            assert(pairs_view(q@) =~= three.push(("continuation-token"@, continuation@)));
        }
        q
    }

    /// Reads a page of the listing: the objects on it are added to `items`, and the token for
    /// the next page is given, empty where this one is the last.
    pub fn read_page(items: &mut Vec<Json>, status: u16, text: &str) -> (r: Result<String, String>)
        ensures
            if status >= 400 {
                &&& r matches Err(e) && e@ == status_text("获取备份列表失败"@, status)
                &&& list_view(final(items)@) == list_view(old(items)@)
            } else {
                &&& r matches Ok(t) && t@ == next_page(text@)
                &&& list_view(final(items)@) == list_view(old(items)@) + page_objects(text@)
            },
    {
        if status >= 400 {
            return Err(status_error("获取备份列表失败", status));
        }
        proof {
            reveal_strlit("<Contents>");
        }
        let blocks = split_text(text, "<Contents>");
        let ghost bv = views(blocks@);
        let ghost tail = bv.drop_first();
        let ghost f = listed_object();
        let ghost start = list_view(items@);
        proof {
            assert(pieces_by(text@, "<Contents>"@).len() > 0);
        }
        let mut i: usize = 1;
        assert(tail.take(0).filter_map(f) =~= Seq::empty());
        assert(start + Seq::<JsonView>::empty() =~= start);
        while i < blocks.len()
            invariant
                1 <= i <= blocks@.len(),
                bv == views(blocks@),
                tail == bv.drop_first(),
                f == listed_object(),
                list_view(items@) == start + tail.take(i - 1).filter_map(f),
            decreases blocks@.len() - i,
        {
            proof {
                tail.lemma_filter_map_take_succ(f, i - 1);
                assert(tail[i - 1] == bv[i as int]);
            }
            let ghost done = list_view(items@);
            let block = blocks[i].as_str();
            let key = extract_between(block, "<Key>", "</Key>");
            if !key.as_str().is_empty() {
                let size = extract_between(block, "<Size>", "</Size>");
                let updated = extract_between(block, "<LastModified>", "</LastModified>");
                let n: i64 = match parse_int(trim(size.as_str()).as_str()) {
                    Some(n) => n,
                    None => 0,
                };
                let mut o = Json::object();
                o.set("key", Json::Str(key));
                o.set("size", Json::from_int(n));
                o.set("updated_at", Json::Str(updated));
                let ghost ov = o@;
                items.push(o);
                assert(list_view(items@) =~= done.push(ov));
                assert(f(bv[i as int]) == Some(ov));
            }
            assert(list_view(items@) =~= start + tail.take(i as int).filter_map(f));
            i += 1;
        }
        assert(tail.take(i - 1) =~= tail);
        if contains(text, "<IsTruncated>true</IsTruncated>") && contains(
            text,
            "<NextContinuationToken>",
        ) {
            Ok(extract_between(text, "<NextContinuationToken>", "</NextContinuationToken>"))
        } else {
            Ok(String::new())
        }
    }

    /// The objects of a listing, the newest first.
    pub fn newest_first(items: &Vec<Json>) -> (r: Vec<Json>)
        ensures
            list_view(r@) == sorted(list_view(items@), field_order("updated_at"@, true)),
    {
        sort_records(items, "updated_at", true)
    }

    /// Reads the answer to an upload: `etag` is that header of the answer.
    pub fn read_upload(key: &str, status: u16, etag: &str) -> (r: Result<Json, String>)
        ensures
            if status >= 400 {
                r matches Err(e) && e@ == status_text("上传备份失败"@, status)
            } else {
                r matches Ok(v) && v@ == empty_object().put("key"@, JsonView::Str(key@)).put(
                    "etag"@,
                    JsonView::Str(strip(etag@, CharClass::Just('"'))),
                )
            },
    {
        if status >= 400 {
            return Err(status_error("上传备份失败", status));
        }
        let mut o = Json::object();
        o.set("key", Json::from_text(key));
        o.set("etag", Json::Str(trim_class(etag, CharClass::Just('"'))));
        Ok(o)
    }

    /// Reads the answer to a deletion; an object that is gone counts as deleted.
    pub fn read_delete(status: u16) -> (r: Result<(), String>)
        ensures
            if status >= 400 && status != 404 {
                r matches Err(e) && e@ == status_text("删除备份失败"@, status)
            } else {
                r is Ok
            },
    {
        if status >= 400 && status != 404 {
            return Err(status_error("删除备份失败", status));
        }
        Ok(())
    }

    /// Reads the status of a download.
    pub fn read_download(status: u16) -> (r: Result<(), String>)
        ensures
            if status >= 400 {
                r matches Err(e) && e@ == status_text("读取备份失败"@, status)
            } else {
                r is Ok
            },
    {
        if status >= 400 {
            return Err(status_error("读取备份失败", status));
        }
        Ok(())
    }

    /// Reads the answer to a test of the connection.
    pub fn read_test(status: u16) -> (r: Result<Json, String>)
        ensures
            if status >= 400 {
                r matches Err(e) && e@ == status_text("连接 R2 失败"@, status)
            } else {
                r matches Ok(v) && v@ == empty_object().put("ok"@, JsonView::Bool(true)).put(
                    "status"@,
                    int_json(status as int),
                )
            },
    {
        if status >= 400 {
            return Err(status_error("连接 R2 失败", status));
        }
        let mut o = Json::object();
        o.set("ok", Json::Bool(true));
        o.set("status", Json::from_int(status as i64));
        Ok(o)
    }

    /// The headers of an upload: the type of the content, and what is noted with it.
    pub fn upload_headers(content_type: &str, metadata: &Vec<(String, String)>) -> (r: Vec<
        (String, String),
    >)
        ensures
            pairs_view(r@) == seq![("content-type"@, content_type@)] + pairs_view(
                metadata@,
            ).map_values(|m: (Seq<char>, Seq<char>)| ("x-amz-meta-"@ + m.0, m.1)),
    {
        let ghost want = seq![("content-type"@, content_type@)] + pairs_view(metadata@).map_values(
            |m: (Seq<char>, Seq<char>)| ("x-amz-meta-"@ + m.0, m.1),
        );
        let mut out: Vec<(String, String)> = Vec::new();
        out.push(("content-type".to_owned(), content_type.to_owned()));
        let mut i: usize = 0;
        while i < metadata.len()
            invariant
                i <= metadata@.len(),
                want == seq![("content-type"@, content_type@)] + pairs_view(
                    metadata@,
                ).map_values(|m: (Seq<char>, Seq<char>)| ("x-amz-meta-"@ + m.0, m.1)),
                pairs_view(out@) =~= want.take(i + 1),
            decreases metadata@.len() - i,
        {
            let ghost done = pairs_view(out@);
            out.push((cat("x-amz-meta-", metadata[i].0.as_str()), metadata[i].1.clone()));
            assert(pairs_view(out@) =~= done.push(want[i + 1]));
            i += 1;
        }
        assert(pairs_view(out@) =~= want);
        out
    }
}

} // verus!
