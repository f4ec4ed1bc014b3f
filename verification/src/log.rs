//! The log: one JSON object to a line.
use vstd::prelude::*;
use vstd::utf8::encode_utf8;

use crate::accounts_api::{unique_tokens, unique_trimmed};
use crate::account::{holds_at, is_at};
use crate::digest::{hex_encode, hex_text};
use crate::json::parsed;
use crate::refresh::head;
use crate::text::{
    before, byte_head, cat, cat3, chars_of, decimal, decimal_text, has_text, join, joined,
    lemma_byte_head, pieces, precedes, prefix_bytes, prefix_chars, split, text_between, views,
};
use crate::value::{compact, empty_object, int_json, list_view, Json, JsonView};

verus! {

broadcast use crate::value::group_json;

/// The type of entries about calls.
pub const LOG_TYPE_CALL: &'static str = "call";

/// The type of entries about accounts.
pub const LOG_TYPE_ACCOUNT: &'static str = "account";

/// The SHA-1 digest of some bytes.
pub uninterp spec fn sha1(data: Seq<u8>) -> Seq<u8>;

/// Calls `sha1::Sha1::digest`. Claims that the digest depends on the bytes alone and has 20 bytes.
#[verifier::external_body]
fn sha1_digest(data: &[u8]) -> (r: Vec<u8>)
    ensures
        r@ == sha1(data@),
        r@.len() == 20,
{
    <sha1::Sha1 as sha1::Digest>::digest(data).to_vec()
}

// ---------------------------------------------------------------------------
// entries
// ---------------------------------------------------------------------------

/// An entry of the log.
pub open spec fn log_entry(
    id: Seq<char>,
    time: Seq<char>,
    kind: Seq<char>,
    summary: Seq<char>,
    detail: JsonView,
) -> JsonView {
    empty_object().put("id"@, JsonView::Str(id)).put("time"@, JsonView::Str(time)).put(
        "type"@,
        JsonView::Str(kind),
    ).put("summary"@, JsonView::Str(summary)).put("detail"@, detail)
}

/// The log of what happened, a line for each entry.
pub struct LogService;

impl LogService {
    /// The line of an entry of the log.
    pub fn add(id: &str, time: &str, log_type: &str, summary: &str, detail: &Json) -> (r: String)
        ensures
            r@ == compact(log_entry(id@, time@, log_type@, summary@, detail@)) + "\n"@,
    {
        let mut o = Json::object();
        o.set("id", Json::from_text(id));
        o.set("time", Json::from_text(time));
        o.set("type", Json::from_text(log_type));
        o.set("summary", Json::from_text(summary));
        o.set("detail", detail.copy());
        cat(o.to_text().as_str(), "\n")
    }
}

/// What is noted of a call: who made it, to what, and how it ended; `extra` is set over it.
pub open spec fn call_detail(
    identity: JsonView,
    endpoint: Seq<char>,
    model: Seq<char>,
    status: Seq<char>,
    duration_ms: i64,
    extra: JsonView,
) -> JsonView {
    crate::account::merged(
        empty_object().put("key_id"@, identity.at("id"@)).put(
            "key_name"@,
            identity.at("name"@),
        ).put("role"@, identity.at("role"@)).put("endpoint"@, JsonView::Str(endpoint)).put(
            "model"@,
            JsonView::Str(model),
        ).put("status"@, JsonView::Str(status)).put("duration_ms"@, int_json(duration_ms as int)),
        extra,
    )
}

/// A call that is logged when it ends.
pub struct LoggedCall {
    pub identity: Json,
    pub endpoint: String,
    pub model: String,
    pub summary: String,
}

impl LoggedCall {
    pub fn new(identity: &Json, endpoint: &str, model: &str, summary: &str) -> (r: LoggedCall)
        ensures
            r.identity@ == identity@,
            r.endpoint@ == endpoint@,
            r.model@ == model@,
            r.summary@ == summary@,
    {
        LoggedCall {
            identity: identity.copy(),
            endpoint: endpoint.to_owned(),
            model: model.to_owned(),
            summary: summary.to_owned(),
        }
    }

    /// The summary and the detail of the entry for a call that ended; an empty `summary` stands
    /// for that of the call.
    pub fn finish(&self, summary: &str, status: &str, duration_ms: i64, extra: &Json) -> (r: (
        String,
        Json,
    ))
        ensures
            r.0@ == (if summary@.len() == 0 {
                self.summary@
            } else {
                summary@
            }),
            r.1@ == call_detail(
                self.identity@,
                self.endpoint@,
                self.model@,
                status@,
                duration_ms,
                extra@,
            ),
    {
        let mut o = Json::object();
        o.set("key_id", self.identity.at("id"));
        o.set("key_name", self.identity.at("name"));
        o.set("role", self.identity.at("role"));
        o.set("endpoint", Json::from_text(self.endpoint.as_str()));
        o.set("model", Json::from_text(self.model.as_str()));
        o.set("status", Json::from_text(status));
        o.set("duration_ms", Json::from_int(duration_ms));
        let detail = crate::account::merge_objects(o, extra);
        let text = if summary.is_empty() {
            self.summary.clone()
        } else {
            summary.to_owned()
        };
        (text, detail)
    }
}

// ---------------------------------------------------------------------------
// lines
// ---------------------------------------------------------------------------

/// A line without the carriage return at its end.
pub open spec fn without_return(s: Seq<char>) -> Seq<char> {
    if s.len() > 0 && s.last() == '\r' {
        s.drop_last()
    } else {
        s
    }
}

/// The lines of a text: each ends in a line feed, which a carriage return may precede; the last
/// one need not end.
pub open spec fn lines_of(s: Seq<char>) -> Seq<Seq<char>> {
    let p = pieces(s, '\n');
    let whole = p.drop_last().map_values(|l: Seq<char>| without_return(l));
    if p.last().len() == 0 {
        whole
    } else {
        whole.push(p.last())
    }
}

/// Splits a text into lines.
pub fn split_lines(s: &str) -> (r: Vec<String>)
    ensures
        views(r@) == lines_of(s@),
{
    let parts = split(s, '\n');
    let ghost p = views(parts@);
    proof {
        crate::text::lemma_pieces_nonempty(s@, '\n');
    }
    let ghost whole = p.drop_last().map_values(|l: Seq<char>| without_return(l));
    let mut out: Vec<String> = Vec::new();
    let mut i: usize = 0;
    assert(p.len() == parts@.len());
    while i < parts.len() - 1
        invariant
            i < parts@.len(),
            p == views(parts@),
            p.len() == parts@.len(),
            whole == p.drop_last().map_values(|l: Seq<char>| without_return(l)),
            views(out@) =~= whole.take(i as int),
        decreases parts@.len() - i,
    {
        let ghost done = views(out@);
        let v = chars_of(parts[i].as_str());
        let n = v.len();
        let line = if n > 0 && v[n - 1] == '\r' {
            let l = text_between(&v, 0, n - 1);
            assert(l@ =~= v@.drop_last());
            l
        } else {
            parts[i].clone()
        };
        out.push(line);
        assert(views(out@) =~= done.push(whole[i as int]));
        i += 1;
    }
    assert(views(out@) =~= whole);
    let last = parts[i].clone();
    if !last.as_str().is_empty() {
        let ghost lv = last@;
        out.push(last);
        assert(views(out@) =~= whole.push(lv));
    }
    out
}

/// The id of an entry that was stored without one.
pub open spec fn legacy_id(raw: Seq<char>, n: nat) -> Seq<char> {
    head(hex_text(sha1(encode_utf8(decimal(n) + ":"@ + raw))), 24)
}

fn make_legacy_id(raw_line: &str, line_number: usize) -> (r: String)
    ensures
        r@ == legacy_id(raw_line@, line_number as nat),
{
    let text = cat3(decimal_text(line_number as u128).as_str(), ":", raw_line);
    let hex = hex_encode(sha1_digest(text.as_str().as_bytes()).as_slice());
    prefix_chars(hex.as_str(), 24)
}

/// The entry on the `n`th line: an object, with an id made up where it has none.
pub open spec fn entry_of(raw: Seq<char>, n: nat) -> Option<JsonView> {
    match parsed(encode_utf8(raw)) {
        Some(JsonView::Obj(o)) => Some(
            if JsonView::Obj(o).str_at("id"@).len() > 0 {
                JsonView::Obj(o)
            } else {
                JsonView::Obj(o).put("id"@, JsonView::Str(legacy_id(raw, n)))
            },
        ),
        _ => None,
    }
}

/// Reads the entry on a line.
pub fn parse_line(raw_line: &str, line_number: usize) -> (r: Option<Json>)
    ensures
        match r {
            Some(v) => entry_of(raw_line@, line_number as nat) == Some(v@),
            None => entry_of(raw_line@, line_number as nat) is None,
        },
{
    match Json::parse_text(raw_line) {
        Some(v) => {
            if !v.is_object() {
                return None;
            }
            let mut item = v;
            if item.str_at("id").as_str().is_empty() {
                item.set("id", Json::Str(make_legacy_id(raw_line, line_number)));
            }
            Some(item)
        },
        None => None,
    }
}

/// The day of an entry: the first ten bytes of its time, or fewer where they end within a
/// character.
pub open spec fn day_of(item: JsonView) -> Seq<char> {
    byte_head(item.str_at("time"@), 10)
}

/// Where the first ten bytes of the time of an entry are whole characters, they are its day.
pub proof fn law_day_is_first_ten_bytes(item: JsonView, k: int)
    requires
        0 <= k <= item.str_at("time"@).len(),
        encode_utf8(item.str_at("time"@).take(k)).len() == 10,
    ensures
        day_of(item) == item.str_at("time"@).take(k),
        encode_utf8(day_of(item)) == encode_utf8(item.str_at("time"@)).take(10),
{
    lemma_byte_head(item.str_at("time"@), 10, k);
}

/// Whether an entry has a type and lies between two days; empty ones ask for nothing.
pub open spec fn fits(item: JsonView, kind: Seq<char>, start: Seq<char>, end: Seq<char>) -> bool {
    &&& kind.len() == 0 || is_at(item, "type"@, kind)
    &&& start.len() == 0 || !precedes(day_of(item), start)
    &&& end.len() == 0 || !precedes(end, day_of(item))
}

/// Decides [`fits`].
pub fn matches_filters(item: &Json, log_type: &str, start_date: &str, end_date: &str) -> (r: bool)
    ensures
        r == fits(item@, log_type@, start_date@, end_date@),
{
    let day = prefix_bytes(item.str_at("time").as_str(), 10);
    if !log_type.is_empty() && !holds_at(item, "type", log_type) {
        return false;
    }
    if !start_date.is_empty() && before(day.as_str(), start_date) {
        return false;
    }
    if !end_date.is_empty() && before(end_date, day.as_str()) {
        return false;
    }
    true
}

/// The entries among the first `n` lines that fit, the newest first.
pub open spec fn newest(
    lines: Seq<Seq<char>>,
    n: nat,
    kind: Seq<char>,
    start: Seq<char>,
    end: Seq<char>,
) -> Seq<JsonView>
    decreases n,
{
    if n == 0 || n > lines.len() {
        Seq::empty()
    } else {
        let rest = newest(lines, (n - 1) as nat, kind, start, end);
        match entry_of(lines[n - 1], (n - 1) as nat) {
            Some(e) => if fits(e, kind, start, end) {
                seq![e] + rest
            } else {
                rest
            },
            None => rest,
        }
    }
}

impl LogService {
    /// The newest entries that fit, at most `limit` of them.
    pub fn list(content: &str, log_type: &str, start_date: &str, end_date: &str, limit: usize) -> (
    r: Vec<Json>)
        ensures
            ({
                let lines = lines_of(content@);
                let all = newest(lines, lines.len(), log_type@, start_date@, end_date@);
                list_view(r@) == all.take(
                    if limit < all.len() {
                        limit as int
                    } else {
                        all.len() as int
                    },
                )
            }),
    {
        let lines = split_lines(content);
        let ghost ls = views(lines@);
        let ghost all = newest(ls, ls.len(), log_type@, start_date@, end_date@);
        let mut items: Vec<Json> = Vec::new();
        let mut k: usize = lines.len();
        assert(ls.len() == lines@.len());
        assert(list_view(items@) =~= Seq::empty());
        assert(all =~= list_view(items@) + newest(ls, k as nat, log_type@, start_date@, end_date@));
        if limit == 0 {
            assert(all.take(0) =~= list_view(items@));
            return items;
        }
        while k > 0
            invariant
                k <= lines@.len(),
                ls == views(lines@),
                ls.len() == lines@.len(),
                all == newest(ls, ls.len(), log_type@, start_date@, end_date@),
                all == list_view(items@) + newest(ls, k as nat, log_type@, start_date@, end_date@),
                items@.len() < limit,
                ls == lines_of(content@),
            decreases k,
        {
            let ghost had = list_view(items@);
            let ghost rest = newest(ls, (k - 1) as nat, log_type@, start_date@, end_date@);
            k -= 1;
            match parse_line(lines[k].as_str(), k) {
                Some(item) => {
                    if matches_filters(&item, log_type, start_date, end_date) {
                        let ghost iv = item@;
                        items.push(item);
                        assert(list_view(items@) =~= had.push(iv));
                        assert(list_view(items@) + rest =~= had + (seq![iv] + rest));
                        if items.len() >= limit {
                            assert(list_view(items@) =~= all.take(limit as int));
                            return items;
                        }
                    }
                },
                None => {},
            }
        }
        assert(list_view(items@) =~= all);
        assert(all.take(all.len() as int) =~= all);
        items
    }
}

/// The line that stays for the `n`th line: none where its entry is deleted.
pub open spec fn kept_line(raw: Seq<char>, n: nat, gone: Seq<Seq<char>>) -> Option<Seq<char>> {
    match entry_of(raw, n) {
        Some(e) => if gone.contains(e.str_at("id"@)) {
            None
        } else {
            Some(compact(e))
        },
        None => Some(raw),
    }
}

/// The lines that stay of the first `n`.
pub open spec fn kept_lines(lines: Seq<Seq<char>>, n: nat, gone: Seq<Seq<char>>) -> Seq<Seq<char>>
    decreases n,
{
    if n == 0 || n > lines.len() {
        Seq::empty()
    } else {
        let rest = kept_lines(lines, (n - 1) as nat, gone);
        match kept_line(lines[n - 1], (n - 1) as nat, gone) {
            Some(l) => rest.push(l),
            None => rest,
        }
    }
}

impl LogService {
    /// Deletes the entries with given ids: gives the new content, and how many went. Without ids
    /// nothing changes, and there is no new content.
    pub fn delete(content: &str, ids: &Vec<String>) -> (r: (Option<String>, usize))
        ensures
            ({
                let gone = unique_trimmed(views(ids@));
                let lines = lines_of(content@);
                let kept = kept_lines(lines, lines.len(), gone);
                let text = joined(kept, "\n"@);
                if gone.len() == 0 {
                    r.0 is None && r.1 == 0
                } else {
                    &&& r.1 == lines.len() - kept.len()
                    &&& r.0 matches Some(s) && s@ == (if text.len() == 0 {
                        text
                    } else {
                        text + "\n"@
                    })
                }
            }),
    {
        let gone = unique_tokens(ids);
        let ghost gv = views(gone@);
        assert(gv.len() == gone@.len());
        if gone.len() == 0 {
            return (None, 0);
        }
        let lines = split_lines(content);
        let ghost ls = views(lines@);
        let mut kept: Vec<String> = Vec::new();
        let mut removed: usize = 0;
        let mut k: usize = 0;
        assert(ls.len() == lines@.len());
        assert(views(kept@) =~= Seq::empty());
        while k < lines.len()
            invariant
                k <= lines@.len(),
                ls == views(lines@),
                ls.len() == lines@.len(),
                gv == views(gone@),
                views(kept@) == kept_lines(ls, k as nat, gv),
                removed == k - kept@.len(),
            decreases lines@.len() - k,
        {
            let ghost had = views(kept@);
            assert(ls[k as int] == lines@[k as int]@);
            match parse_line(lines[k].as_str(), k) {
                None => {
                    kept.push(lines[k].clone());
                    assert(views(kept@) =~= had.push(ls[k as int]));
                },
                Some(item) => {
                    if has_text(&gone, item.str_at("id").as_str()) {
                        removed += 1;
                    } else {
                        let text = item.to_text();
                        let ghost tv = text@;
                        kept.push(text);
                        assert(views(kept@) =~= had.push(tv));
                    }
                },
            }
            k += 1;
        }
        assert(views(kept@).len() == kept@.len());
        let out = join(&kept, "\n");
        let out = if out.as_str().is_empty() {
            out
        } else {
            cat(out.as_str(), "\n")
        };
        (Some(out), removed)
    }
}

/// The entries that stay in the log when some are deleted have none of the deleted ids.
pub proof fn law_deleted_entries_gone(raw: Seq<char>, n: nat, gone: Seq<Seq<char>>)
    ensures
        match (entry_of(raw, n), kept_line(raw, n, gone)) {
            (Some(e), Some(l)) => !gone.contains(e.str_at("id"@)) && l == compact(e),
            (Some(e), None) => gone.contains(e.str_at("id"@)),
            (None, l) => l == Some(raw),
        },
{
}

} // verus!
