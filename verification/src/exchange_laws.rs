//! Logins, the log, searches, and how text is written into addresses and read from streams.
use vstd::prelude::*;
use vstd::utf8::encode_utf8;

use crate::codec::{base64url_text, lossy_text};
use crate::digest::sha256;
use crate::json::{number_below, parsed};
use crate::lists::{lemma_filtered_has, lemma_mapped_from, lemma_mapped_has};
use crate::log::{
    call_detail, day_of, entry_of, fits, kept_line, kept_lines, lines_of, log_entry, newest,
    without_return,
};
use crate::oauth::{
    authorize_params, challenge_of, exchanged, is_fresh, last_param, matched_session, other_session,
    purged, session_at, state_session, Platform, Secrets, Session,
};
use crate::picture::{message_metadata, nodes_of, time_text, user_message};
use crate::engine::text_content;
use crate::search::{
    answer_status, answer_text, assistant_message, clean_url, has_source, latest_message, passing,
    search_request, search_result, source_of, source_url, sources_of,
};
use crate::sse::line_payload;
use crate::text::{begins, joined, pieces, precedes, skip_back, trimmed, CharClass};
use crate::urlcode::{byte_encoded, encoded, parameter, query_text, unreserved, upper_hex};
use crate::value::{empty_object, int_json, JsonView};

verus! {

// ---------------------------------------------------------------------------
// logins
// ---------------------------------------------------------------------------

/// The address of a login carries its state, its nonce and the challenge of its verifier, and asks
/// for a code that can be exchanged for tokens that last.
pub proof fn law_login_address(p: Platform, x: Secrets, state: Seq<char>, hint: Seq<char>)
    ensures
        ({
            let q = authorize_params(p, x, state, hint);
            &&& q.contains(("client_id"@, p.client_id@))
            &&& q.contains(("audience"@, p.audience@))
            &&& q.contains(("redirect_uri"@, p.redirect_uri@))
            &&& q.contains(("device_id"@, x.device_id@))
            &&& q.contains(("state"@, state))
            &&& q.contains(("nonce"@, x.nonce@))
            &&& q.contains(("code_challenge"@, x.challenge@))
            &&& q.contains(("code_challenge_method"@, "S256"@))
            &&& q.contains(("response_type"@, "code"@))
            &&& q.contains(("scope"@, "openid profile email offline_access"@))
            &&& hint.len() > 0 ==> q.contains(("login_hint"@, hint))
            &&& hint.len() == 0 ==> q.len() == 15
        }),
        challenge_of(x.verifier@) == base64url_text(sha256(encode_utf8(x.verifier@))),
{
    let q = authorize_params(p, x, state, hint);
    assert(q[1] == ("client_id"@, p.client_id@));
    assert(q[2] == ("audience"@, p.audience@));
    assert(q[3] == ("redirect_uri"@, p.redirect_uri@));
    assert(q[4] == ("device_id"@, x.device_id@));
    assert(q[7] == ("scope"@, "openid profile email offline_access"@));
    assert(q[8] == ("response_type"@, "code"@));
    assert(q[10] == ("state"@, state));
    assert(q[11] == ("nonce"@, x.nonce@));
    assert(q[12] == ("code_challenge"@, x.challenge@));
    assert(q[13] == ("code_challenge_method"@, "S256"@));
    if hint.len() > 0 {
        assert(q[15] == ("login_hint"@, hint));
    }
}

/// Of a parameter that comes more than once the last counts, without white space at its ends.
pub proof fn law_last_parameter(q: Seq<(Seq<char>, Seq<char>)>, k: Seq<char>, v: Seq<char>, other: Seq<char>)
    requires
        other != k,
    ensures
        last_param(q.push((k, v)), k) == trimmed(v),
        last_param(q.push((k, v)), other) == last_param(q, other),
        last_param(Seq::empty(), k) == Seq::<char>::empty(),
{
    assert(q.push((k, v)).drop_last() =~= q);
}

/// A login is kept for ten minutes: one that is younger is kept while no more than 64 are, and one
/// that is older is not.
pub proof fn law_kept_logins(s: Seq<Session>, now: i64, x: Session)
    ensures
        s.filter(is_fresh(now)).contains(x) <==> s.contains(x) && now - x.created_at <= 10 * 60 * 1000,
        s.filter(is_fresh(now)).len() <= 64 ==> purged(s, now) == s.filter(is_fresh(now)),
{
    lemma_filtered_has(s, is_fresh(now), x);
}

/// A login is found by its id, at the first place where it stands.
pub proof fn law_login_found(s: Seq<Session>, id: Seq<char>)
    ensures
        0 <= session_at(s, id) <= s.len(),
        session_at(s, id) < s.len() ==> s[session_at(s, id)].id@ == id,
        forall|i: int| 0 <= i < session_at(s, id) ==> (#[trigger] s[i]).id@ != id,
    decreases s.len(),
{
    if s.len() > 0 && s[0].id@ != id {
        let rest = s.drop_first();
        law_login_found(rest, id);
        assert forall|i: int| 0 <= i < session_at(s, id) implies (#[trigger] s[i]).id@ != id by {
            if i > 0 {
                assert(rest[i - 1] == s[i]);
            }
        }
    }
}

/// The state that comes back leads to the login whose id it begins with; without one the id that
/// is asked for does.
pub proof fn law_login_of_state(kept: Seq<Session>, id: Seq<char>, tail: Seq<char>, asked: Seq<char>, i: int)
    requires
        !id.contains('.'),
        id.len() > 0,
        0 <= i < kept.len(),
        kept[i].id@ == id,
    ensures
        state_session(id + seq!['.'] + tail) == id,
        matched_session(kept, id + seq!['.'] + tail, asked) < kept.len(),
        kept[matched_session(kept, id + seq!['.'] + tail, asked)].id@ == id,
        matched_session(kept, Seq::empty(), id) < kept.len(),
        kept[matched_session(kept, Seq::empty(), id)].id@ == id,
        matched_session(kept, Seq::empty(), Seq::empty()) == kept.len(),
{
    crate::text_laws::law_cut_once(id, '.', tail);
    law_login_found(kept, id);
    if session_at(kept, id) > i {
        assert(kept[i].id@ != id);
    }
    crate::text_laws::law_cut_once(Seq::<char>::empty(), '.', tail);
}

/// A login that is over is gone, and every other one stays.
pub proof fn law_login_over(s: Seq<Session>, id: Seq<char>, x: Session)
    ensures
        s.filter(other_session(id)).contains(x) <==> s.contains(x) && x.id@ != id,
{
    lemma_filtered_has(s, other_session(id), x);
}

/// A code is exchanged where the answer is positive and holds an access and a refresh token, and
/// the tokens are those of the answer.
pub proof fn law_exchanged(status: u16, data: JsonView, text: Seq<char>)
    ensures
        exchanged(status, data, text) is Ok <==> status == 200 && trimmed(
            data.str_at("access_token"@),
        ).len() > 0 && trimmed(data.str_at("refresh_token"@)).len() > 0,
        exchanged(status, data, text) matches Ok(t) ==> {
            &&& t.str_at("access_token"@) == trimmed(data.str_at("access_token"@))
            &&& t.str_at("refresh_token"@) == trimmed(data.str_at("refresh_token"@))
            &&& t.str_at("id_token"@) == trimmed(data.str_at("id_token"@))
        },
{
    broadcast use crate::value::group_fields;

    reveal_strlit("access_token");
    reveal_strlit("refresh_token");
    reveal_strlit("id_token");
    assert("access_token"@.len() == 12);
    assert("refresh_token"@.len() == 13);
    assert("id_token"@.len() == 8);
    crate::text::lemma_strip_len(Seq::<char>::empty(), CharClass::White);
}

// ---------------------------------------------------------------------------
// the log
// ---------------------------------------------------------------------------

/// An entry of the log holds its id, its time, its type, its summary and its detail.
pub proof fn law_log_entry(id: Seq<char>, time: Seq<char>, kind: Seq<char>, summary: Seq<char>, detail: JsonView)
    ensures
        log_entry(id, time, kind, summary, detail).str_at("id"@) == id,
        log_entry(id, time, kind, summary, detail).str_at("time"@) == time,
        log_entry(id, time, kind, summary, detail).str_at("type"@) == kind,
        log_entry(id, time, kind, summary, detail).str_at("summary"@) == summary,
        log_entry(id, time, kind, summary, detail).get("detail"@) == Some(detail),
{
    broadcast use crate::value::group_fields;

    reveal_strlit("id");
    reveal_strlit("time");
    reveal_strlit("type");
    reveal_strlit("summary");
    reveal_strlit("detail");
    assert("id"@.len() == 2);
    assert("time"@.len() == 4 && "time"@[1] == 'i');
    assert("type"@.len() == 4 && "type"@[1] == 'y');
    assert("summary"@.len() == 7);
    assert("detail"@.len() == 6);
}

/// The detail of a call says who made it, where, with which model, how it ended and how long it
/// took, and what else came with it.
pub proof fn law_call_detail(
    who: JsonView,
    endpoint: Seq<char>,
    model: Seq<char>,
    status: Seq<char>,
    ms: i64,
    extra: JsonView,
    k: Seq<char>,
)
    requires
        extra is Obj,
        crate::assoc::distinct_names(extra->Obj_0),
        extra.get("status"@) is None,
        extra.get("key_id"@) is None,
        extra.get("model"@) is None,
        extra.get("endpoint"@) is None,
        extra.get("duration_ms"@) is None,
        extra.get("role"@) is None,
        extra.get("key_name"@) is None,
    ensures
        ({
            let d = call_detail(who, endpoint, model, status, ms, extra);
            &&& d.at("key_id"@) == who.at("id"@)
            &&& d.at("key_name"@) == who.at("name"@)
            &&& d.at("role"@) == who.at("role"@)
            &&& d.str_at("endpoint"@) == endpoint
            &&& d.str_at("model"@) == model
            &&& d.str_at("status"@) == status
            &&& d.get("duration_ms"@) == Some(int_json(ms as int))
            &&& extra.get(k) is Some ==> d.get(k) == extra.get(k)
        }),
{
    broadcast use crate::value::group_fields;

    reveal_strlit("key_id");
    reveal_strlit("key_name");
    reveal_strlit("role");
    reveal_strlit("endpoint");
    reveal_strlit("model");
    reveal_strlit("status");
    reveal_strlit("duration_ms");
    assert("key_id"@.len() == 6 && "key_id"@[0] == 'k');
    assert("key_name"@.len() == 8 && "key_name"@[0] == 'k');
    assert("role"@.len() == 4);
    assert("endpoint"@.len() == 8 && "endpoint"@[0] == 'e');
    assert("model"@.len() == 5);
    assert("status"@.len() == 6 && "status"@[0] == 's');
    assert("duration_ms"@.len() == 11);
    let base = empty_object().put("key_id"@, who.at("id"@)).put("key_name"@, who.at("name"@)).put(
        "role"@,
        who.at("role"@),
    ).put("endpoint"@, JsonView::Str(endpoint)).put("model"@, JsonView::Str(model)).put(
        "status"@,
        JsonView::Str(status),
    ).put("duration_ms"@, int_json(ms as int));
    crate::pool_use_laws::law_merged_fields(base, extra, "key_id"@);
    crate::pool_use_laws::law_merged_fields(base, extra, "key_name"@);
    crate::pool_use_laws::law_merged_fields(base, extra, "role"@);
    crate::pool_use_laws::law_merged_fields(base, extra, "endpoint"@);
    crate::pool_use_laws::law_merged_fields(base, extra, "model"@);
    crate::pool_use_laws::law_merged_fields(base, extra, "status"@);
    crate::pool_use_laws::law_merged_fields(base, extra, "duration_ms"@);
    crate::pool_use_laws::law_merged_fields(base, extra, k);
}

/// An entry is read as it was written; one without an id gets one.
pub proof fn law_read_entry(raw: Seq<char>, n: nat, v: JsonView, k: Seq<char>)
    requires
        parsed(encode_utf8(raw)) == Some(v),
    ensures
        v is Obj ==> entry_of(raw, n) is Some,
        v is Obj && v.str_at("id"@).len() > 0 ==> entry_of(raw, n) == Some(v),
        v is Obj && k != "id"@ ==> (entry_of(raw, n)->0).get(k) == v.get(k),
        !(v is Obj) ==> entry_of(raw, n) is None,
{
    broadcast use crate::value::group_fields;

}

/// Entries are asked for by their type and their day; what is not asked for does not matter.
pub proof fn law_entry_fits(e: JsonView, kind: Seq<char>, start: Seq<char>, end: Seq<char>)
    ensures
        fits(e, Seq::empty(), Seq::empty(), Seq::empty()),
        fits(e, kind, start, end) <==> (kind.len() > 0 ==> e.get("type"@) == Some(
            JsonView::Str(kind),
        )) && (start.len() > 0 ==> !precedes(day_of(e), start)) && (end.len() > 0 ==> !precedes(
            end,
            day_of(e),
        )),
{
}

/// The listed entries are those that fit, the later line before the earlier one.
pub proof fn law_listed_entries(
    lines: Seq<Seq<char>>,
    n: nat,
    kind: Seq<char>,
    start: Seq<char>,
    end: Seq<char>,
    e: JsonView,
)
    requires
        n <= lines.len(),
    ensures
        newest(lines, n, kind, start, end).contains(e) <==> exists|i: int|
            0 <= i < n && entry_of(#[trigger] lines[i], i as nat) == Some(e) && fits(
                e,
                kind,
                start,
                end,
            ),
        n > 0 ==> ({
            let last = entry_of(lines[n - 1], (n - 1) as nat);
            last is Some && fits(last->0, kind, start, end) ==> newest(lines, n, kind, start, end)[0]
                == last->0
        }),
    decreases n,
{
    if n > 0 {
        let rest = newest(lines, (n - 1) as nat, kind, start, end);
        let all = newest(lines, n, kind, start, end);
        law_listed_entries(lines, (n - 1) as nat, kind, start, end, e);
        if all.contains(e) {
            let k = all.index_of(e);
            if rest.contains(e) {
                let i = choose|i: int|
                    0 <= i < n - 1 && entry_of(#[trigger] lines[i], i as nat) == Some(e) && fits(
                        e,
                        kind,
                        start,
                        end,
                    );
                assert(entry_of(lines[i], i as nat) == Some(e));
            } else {
                if all.len() > rest.len() && k > 0 {
                    assert(rest[k - 1] == e);
                } else if all.len() == rest.len() {
                    assert(rest[k] == e);
                }
                assert(entry_of(lines[n - 1], (n - 1) as nat) == Some(e));
            }
        }
        if exists|i: int|
            0 <= i < n && entry_of(#[trigger] lines[i], i as nat) == Some(e) && fits(
                e,
                kind,
                start,
                end,
            ) {
            let i = choose|i: int|
                0 <= i < n && entry_of(#[trigger] lines[i], i as nat) == Some(e) && fits(
                    e,
                    kind,
                    start,
                    end,
                );
            if i < n - 1 {
                assert(rest.contains(e));
                let k = rest.index_of(e);
                if all.len() > rest.len() {
                    assert(all[k + 1] == e);
                } else {
                    assert(all[k] == e);
                }
            } else {
                assert(all[0] == e);
            }
        }
    }
}

/// Lines are kept when entries are deleted: a line that is no entry as it is, and an entry unless
/// its id is among those that go.
pub proof fn law_kept_lines(lines: Seq<Seq<char>>, n: nat, gone: Seq<Seq<char>>, l: Seq<char>)
    requires
        n <= lines.len(),
    ensures
        kept_lines(lines, n, gone).contains(l) <==> exists|i: int|
            0 <= i < n && kept_line(#[trigger] lines[i], i as nat, gone) == Some(l),
        kept_lines(lines, n, gone).len() <= n,
    decreases n,
{
    if n > 0 {
        let rest = kept_lines(lines, (n - 1) as nat, gone);
        let all = kept_lines(lines, n, gone);
        law_kept_lines(lines, (n - 1) as nat, gone, l);
        if all.contains(l) {
            let k = all.index_of(l);
            if k < rest.len() {
                assert(rest[k] == l);
                let i = choose|i: int|
                    0 <= i < n - 1 && kept_line(#[trigger] lines[i], i as nat, gone) == Some(l);
                assert(kept_line(lines[i], i as nat, gone) == Some(l));
            } else {
                assert(kept_line(lines[n - 1], (n - 1) as nat, gone) == Some(l));
            }
        }
        if exists|i: int| 0 <= i < n && kept_line(#[trigger] lines[i], i as nat, gone) == Some(l) {
            let i = choose|i: int|
                0 <= i < n && kept_line(#[trigger] lines[i], i as nat, gone) == Some(l);
            if i < n - 1 {
                assert(rest.contains(l));
                let k = rest.index_of(l);
                assert(all[k] == l);
            } else {
                assert(all[rest.len() as int] == l);
            }
        }
    }
}

/// A text is read line by line: what is before a line end is a line, and so is what is behind it.
pub proof fn law_lines(a: Seq<char>, b: Seq<char>)
    requires
        !a.contains('\n'),
        !a.contains('\r'),
        !b.contains('\n'),
        b.len() > 0,
    ensures
        lines_of(a + seq!['\n'] + b) == seq![a, b],
        lines_of(a + seq!['\r', '\n'] + b) == seq![a, b],
        lines_of(Seq::empty()).len() == 0,
{
    lemma_two_lines(a, a, b);
    let r = a + seq!['\r'];
    assert(!r.contains('\n')) by {
        if r.contains('\n') {
            let i = r.index_of('\n');
            if i < a.len() {
                assert(a[i] == '\n');
            }
        }
    }
    lemma_two_lines(r, a, b);
    assert(a + seq!['\r', '\n'] + b =~= r + seq!['\n'] + b);
    let e: Seq<char> = Seq::empty();
    assert(pieces(e, '\n') =~= seq![e]);
    assert(seq![e].drop_last() =~= Seq::<Seq<char>>::empty());
}

proof fn lemma_two_lines(x: Seq<char>, a: Seq<char>, b: Seq<char>)
    requires
        !x.contains('\n'),
        !b.contains('\n'),
        b.len() > 0,
        x == a && !a.contains('\r') || x == a + seq!['\r'],
    ensures
        lines_of(x + seq!['\n'] + b) == seq![a, b],
{
    let s = x + seq!['\n'] + b;
    crate::text::lemma_first_of(s, '\n');
    crate::text::lemma_first_of(b, '\n');
    let k = crate::text::first_of(s, '\n');
    assert(s[x.len() as int] == '\n');
    if k < x.len() {
        assert(x[k] == '\n');
    }
    assert(k == x.len());
    assert(s.take(k) =~= x);
    assert(s.skip(k + 1) =~= b);
    let h = crate::text::first_of(b, '\n');
    if h < b.len() {
        assert(b[h] == '\n');
    }
    let p = pieces(s, '\n');
    assert(pieces(b, '\n') == seq![b]);
    assert(p == seq![x] + pieces(b, '\n'));
    assert(p =~= seq![x, b]);
    assert(p.drop_last() =~= seq![x]);
    assert(without_return(x) =~= a) by {
        if x == a && a.len() > 0 {
            assert(a[a.len() - 1] != '\r');
        }
        if x == a + seq!['\r'] {
            assert(x.drop_last() =~= a);
        }
    }
    assert(lines_of(s) =~= seq![a, b]);
}

// ---------------------------------------------------------------------------
// addresses and streams
// ---------------------------------------------------------------------------

/// Letters, digits and four signs stand for themselves in an address; every other byte is written
/// as a percent sign and its two digits, the upper one first.
pub proof fn law_encoded_byte(b: u8)
    ensures
        unreserved(b) <==> ('a' as u8 <= b <= 'z' as u8) || ('A' as u8 <= b <= 'Z' as u8) || ('0' as u8
            <= b <= '9' as u8) || b == '-' as u8 || b == '.' as u8 || b == '_' as u8 || b == '~' as u8,
        unreserved(b) ==> byte_encoded(b, false) == seq![b as char],
        !unreserved(b) ==> byte_encoded(b, false) == seq![
            '%',
            upper_hex(b as int / 16),
            upper_hex(b as int % 16),
        ],
        byte_encoded('/' as u8, true) == seq!['/'],
        byte_encoded('/' as u8, false) == seq!['%', '2', 'F'],
        byte_encoded(' ' as u8, true) == seq!['%', '2', '0'],
{
    assert(upper_hex(2) == '2');
    assert(upper_hex(15) == 'F');
    assert(upper_hex(0) == '0');
    assert(byte_encoded('/' as u8, false) =~= seq!['%', '2', 'F']);
    assert(byte_encoded(' ' as u8, true) =~= seq!['%', '2', '0']);
    assert(byte_encoded('/' as u8, true) =~= seq!['/']);
}

/// The parameters of an address stand in order, with their names and their values.
pub proof fn law_query(params: Seq<(Seq<char>, Seq<char>)>, k: Seq<char>, v: Seq<char>)
    ensures
        query_text(seq![(k, v)]) == encoded(k, false) + seq!['='] + encoded(v, false),
        params.len() > 0 ==> query_text(params.push((k, v))) == query_text(params) + "&"@ + (encoded(
            k,
            false,
        ) + seq!['='] + encoded(v, false)),
        query_text(Seq::empty()).len() == 0,
{
    let f = |p: (Seq<char>, Seq<char>)| parameter(p);
    let all = params.push((k, v)).map_values(f);
    assert(all =~= params.map_values(f).push(parameter((k, v))));
    assert(all.drop_last() =~= params.map_values(f));
    assert(seq![(k, v)].map_values(f) =~= seq![parameter((k, v))]);
    assert(Seq::<(Seq<char>, Seq<char>)>::empty().map_values(f) =~= Seq::<Seq<char>>::empty());
}

/// A line of a stream carries what follows `data:`, without white space at its ends.
pub proof fn law_stream_line(line: Seq<u8>)
    requires
        line.len() > 0,
    ensures
        ({
            let s = trimmed(lossy_text(line));
            &&& begins(s, "data:"@) && trimmed(s.skip(5)).len() > 0 ==> line_payload(line) == Some(
                trimmed(s.skip(5)),
            )
            &&& !begins(s, "data:"@) ==> line_payload(line) is None
        }),
{
}

// ---------------------------------------------------------------------------
// searches
// ---------------------------------------------------------------------------

/// A search carries the prompt and the model, and asks for a search.
pub proof fn law_search_request(id: Seq<char>, time: JsonView, prompt: Seq<char>, model: Seq<char>)
    ensures
        ({
            let q = search_request(
                user_message(id, time, text_content(prompt), message_metadata("search"@)),
                model,
            );
            let m = q.items_at("messages"@)[0];
            &&& q.str_at("action"@) == "next"@
            &&& q.str_at("model"@) == model
            &&& q.get("force_use_search"@) == Some(JsonView::Bool(true))
            &&& q.items_at("messages"@).len() == 1
            &&& m.str_at("id"@) == id
            &&& m.at("author"@).str_at("role"@) == "user"@
            &&& m.at("content"@).items_at("parts"@) == seq![JsonView::Str(prompt)]
            &&& m.get("create_time"@) == Some(time)
        }),
{
    broadcast use crate::value::group_fields;

    reveal_strlit("action");
    reveal_strlit("messages");
    reveal_strlit("parent_message_id");
    reveal_strlit("model");
    reveal_strlit("client_prepare_state");
    reveal_strlit("timezone_offset_min");
    reveal_strlit("timezone");
    reveal_strlit("conversation_mode");
    reveal_strlit("enable_message_followups");
    reveal_strlit("system_hints");
    reveal_strlit("supports_buffering");
    reveal_strlit("supported_encodings");
    reveal_strlit("force_use_search");
    reveal_strlit("client_reported_search_source");
    reveal_strlit("client_contextual_info");
    reveal_strlit("paragen_cot_summary_display_override");
    reveal_strlit("force_parallel_switch");
    reveal_strlit("id");
    reveal_strlit("author");
    reveal_strlit("role");
    reveal_strlit("create_time");
    reveal_strlit("content");
    reveal_strlit("metadata");
    reveal_strlit("content_type");
    reveal_strlit("parts");
    reveal_strlit("kind");
    assert("action"@.len() == 6 && "action"@[1] == 'c');
    assert("messages"@.len() == 8 && "messages"@[0] == 'm' && "messages"@[2] == 's');
    assert("parent_message_id"@.len() == 17 && "parent_message_id"@[0] == 'p');
    assert("model"@.len() == 5 && "model"@[0] == 'm');
    assert("client_prepare_state"@.len() == 20);
    assert("timezone_offset_min"@.len() == 19 && "timezone_offset_min"@[0] == 't');
    assert("timezone"@.len() == 8 && "timezone"@[0] == 't');
    assert("conversation_mode"@.len() == 17 && "conversation_mode"@[0] == 'c');
    assert("enable_message_followups"@.len() == 24);
    assert("system_hints"@.len() == 12 && "system_hints"@[0] == 's');
    assert("supports_buffering"@.len() == 18);
    assert("supported_encodings"@.len() == 19 && "supported_encodings"@[0] == 's');
    assert("force_use_search"@.len() == 16);
    assert("client_reported_search_source"@.len() == 29);
    assert("client_contextual_info"@.len() == 22);
    assert("paragen_cot_summary_display_override"@.len() == 36);
    assert("force_parallel_switch"@.len() == 21);
    assert("id"@.len() == 2);
    assert("author"@.len() == 6 && "author"@[1] == 'u');
    assert("role"@.len() == 4 && "role"@[0] == 'r');
    assert("create_time"@.len() == 11);
    assert("content"@.len() == 7);
    assert("metadata"@.len() == 8 && "metadata"@[0] == 'm' && "metadata"@[2] == 't');
    assert("content_type"@.len() == 12 && "content_type"@[0] == 'c');
    assert("parts"@.len() == 5 && "parts"@[0] == 'p');
    assert("kind"@.len() == 4 && "kind"@[0] == 'k');
}

/// The result of a search is that of the last message of the assistant: its id, its text and its
/// sources, and then the addresses that the text names.
pub proof fn law_search_result(id: Seq<char>, c: JsonView)
    ensures
        ({
            let m = latest_message(nodes_of(c).filter_map(assistant_message()));
            let r = search_result(id, c);
            &&& r.str_at("conversation_id"@) == id
            &&& r.str_at("answer"@) == answer_text(m)
            &&& r.str_at("status"@) == answer_status(m)
            &&& r.str_at("assistant_message_id"@) == m.str_at("id"@)
        }),
{
    broadcast use crate::value::group_fields;

    reveal_strlit("conversation_id");
    reveal_strlit("status");
    reveal_strlit("answer");
    reveal_strlit("sources");
    reveal_strlit("assistant_message_id");
    reveal_strlit("create_time");
    assert("conversation_id"@.len() == 15);
    assert("status"@.len() == 6 && "status"@[0] == 's');
    assert("answer"@.len() == 6 && "answer"@[0] == 'a');
    assert("sources"@.len() == 7);
    assert("assistant_message_id"@.len() == 20);
    assert("create_time"@.len() == 11);
}

/// The messages of the assistant are those that it wrote.
pub proof fn law_assistant_messages(nodes: Seq<(Seq<char>, JsonView)>, m: JsonView)
    ensures
        nodes.filter_map(assistant_message()).contains(m) <==> m.at("author"@).get("role"@) == Some(
            JsonView::Str("assistant"@),
        ) && exists|i: int| 0 <= i < nodes.len() && (#[trigger] nodes[i]).1.at("message"@) == m,
{
    let f = assistant_message();
    if nodes.filter_map(f).contains(m) {
        lemma_mapped_from(nodes, f, m);
        let i = choose|i: int| 0 <= i < nodes.len() && f(#[trigger] nodes[i]) == Some(m);
        assert(nodes[i].1.at("message"@) == m);
    }
    if m.at("author"@).get("role"@) == Some(JsonView::Str("assistant"@)) && exists|i: int|
        0 <= i < nodes.len() && (#[trigger] nodes[i]).1.at("message"@) == m {
        let i = choose|i: int| 0 <= i < nodes.len() && (#[trigger] nodes[i]).1.at("message"@) == m;
        lemma_mapped_has(nodes, f, i);
    }
}

/// The latest message is one of them, and the last one unless it is older than one before it.
pub proof fn law_latest_message(messages: Seq<JsonView>, m: JsonView)
    ensures
        messages.len() > 0 ==> messages.contains(latest_message(messages)),
        latest_message(seq![m]) == m,
        messages.len() > 0 ==> latest_message(messages.push(m)) == (if number_below(
            time_text(m.at("create_time"@)),
            time_text(latest_message(messages).at("create_time"@)),
        ) {
            latest_message(messages)
        } else {
            m
        }),
    decreases messages.len(),
{
    assert(messages.push(m).drop_last() =~= messages);
    if messages.len() == 1 {
        assert(messages[0] == latest_message(messages));
    } else if messages.len() > 1 {
        let init = messages.drop_last();
        law_latest_message(init, m);
        let best = latest_message(init);
        let j = init.index_of(best);
        assert(messages[j] == best);
        assert(messages[messages.len() - 1] == messages.last());
    }
}

/// A message of parts of text answers with them, one on a line, without blank ones and without
/// white space at their ends.
pub proof fn law_parts_answer(m: JsonView, parts: Seq<JsonView>, texts: Seq<Seq<char>>)
    requires
        m.at("content"@).get("text"@) is None,
        m.at("content"@).get("parts"@) == Some(JsonView::Arr(parts)),
        parts.len() == texts.len(),
        forall|i: int| 0 <= i < parts.len() ==> #[trigger] parts[i] == JsonView::Str(texts[i]),
        forall|i: int| 0 <= i < texts.len() ==> trimmed(#[trigger] texts[i]).len() > 0,
    ensures
        answer_text(m) == trimmed(
            joined(Seq::new(texts.len(), |i: int| trimmed(texts[i])), "\n"@),
        ),
{
    lemma_part_texts(parts, texts);
    let c = m.at("content"@);
    assert(c is Obj);
    let none: Seq<Seq<char>> = Seq::empty();
    assert(none + texts =~= texts);
    let all = texts.map_values(|t: Seq<char>| trimmed(t));
    let p = crate::accounts_api::filled();
    assert(all =~= Seq::new(texts.len(), |i: int| trimmed(texts[i])));
    assert forall|i: int| 0 <= i < all.len() implies p(#[trigger] all[i]) by {
        assert(all[i] == trimmed(texts[i]));
    }
    lemma_keeps_all(all, p);
}

proof fn lemma_part_texts(parts: Seq<JsonView>, texts: Seq<Seq<char>>)
    requires
        parts.len() == texts.len(),
        forall|i: int| 0 <= i < parts.len() ==> #[trigger] parts[i] == JsonView::Str(texts[i]),
    ensures
        crate::search::all_part_texts(parts) == texts,
    decreases parts.len(),
{
    if parts.len() > 0 {
        let a = parts.drop_last();
        let b = texts.drop_last();
        assert forall|i: int| 0 <= i < a.len() implies #[trigger] a[i] == JsonView::Str(b[i]) by {
            assert(a[i] == parts[i]);
        }
        lemma_part_texts(a, b);
        assert(parts.last() == parts[parts.len() - 1]);
        assert(b + seq![texts.last()] =~= texts);
    } else {
        assert(texts =~= Seq::<Seq<char>>::empty());
    }
}

proof fn lemma_keeps_all(s: Seq<Seq<char>>, p: spec_fn(Seq<char>) -> bool)
    requires
        forall|i: int| 0 <= i < s.len() ==> p(#[trigger] s[i]),
    ensures
        s.filter(p) == s,
    decreases s.len(),
{
    reveal(Seq::filter);
    if s.len() > 0 {
        let init = s.drop_last();
        assert forall|i: int| 0 <= i < init.len() implies p(#[trigger] init[i]) by {
            assert(init[i] == s[i]);
        }
        lemma_keeps_all(init, p);
        assert(s.last() == s[s.len() - 1]);
        assert(init.push(s.last()) =~= s);
    } else {
        assert(s.filter(p) =~= s);
    }
}

/// A message of plain text answers with it.
pub proof fn law_plain_answer(m: JsonView, s: Seq<char>)
    requires
        m.get("content"@) == Some(JsonView::Str(s)),
    ensures
        answer_text(m) == trimmed(s),
{
    let t = seq![s];
    let f = |t: Seq<char>| trimmed(t);
    let all = t.map_values(f);
    assert(all =~= seq![trimmed(s)]);
    let p = crate::accounts_api::filled();
    reveal(Seq::filter);
    assert(all.drop_last() =~= Seq::<Seq<char>>::empty());
    assert(Seq::<Seq<char>>::empty().filter(p) =~= Seq::<Seq<char>>::empty());
    assert(t.map_values(|t: Seq<char>| trimmed(t)) =~= all);
    if trimmed(s).len() > 0 {
        assert(all.filter(p) =~= seq![trimmed(s)]);
        assert(joined(seq![trimmed(s)], "\n"@) == trimmed(s));
        crate::account_laws::lemma_trimmed_bare(s);
    } else {
        assert(all.filter(p) =~= Seq::<Seq<char>>::empty());
        assert(trimmed(s) =~= Seq::<char>::empty());
        crate::text::lemma_strip_len(Seq::<char>::empty(), CharClass::White);
        assert(trimmed(Seq::<char>::empty()) =~= Seq::<char>::empty());
    }
}

/// The address of a source is the first of those that it gives, without white space and marks at
/// its end.
pub proof fn law_source_address(o: JsonView, s: Seq<char>)
    ensures
        clean_url(s) == skip_back(trimmed(s), CharClass::Stop),
        o.get("url"@) == Some(JsonView::Str(s)) ==> source_url(o) == clean_url(s),
        o.get("url"@) is None && o.get("link"@) == Some(JsonView::Str(s)) ==> source_url(o)
            == clean_url(s),
        o.get("url"@) is None && o.get("link"@) is None && o.get("source_url"@) == Some(
            JsonView::Str(s),
        ) ==> source_url(o) == clean_url(s),
{
}

/// A source is shown with its title, its address and its text.
pub proof fn law_source(o: JsonView)
    ensures
        source_of(o).str_at("url"@) == source_url(o),
        trimmed(o.str_at("title"@)).len() > 0 ==> source_of(o).str_at("title"@) == trimmed(
            o.str_at("title"@),
        ),
        trimmed(o.str_at("snippet"@)).len() > 0 ==> source_of(o).str_at("snippet"@) == trimmed(
            o.str_at("snippet"@),
        ),
{
    broadcast use crate::value::group_fields;

    reveal_strlit("title");
    reveal_strlit("url");
    reveal_strlit("snippet");
    reveal_strlit("source_type");
    assert("title"@.len() == 5);
    assert("url"@.len() == 3);
    assert("snippet"@.len() == 7);
    assert("source_type"@.len() == 11);
}

/// Every object with an address is among the sources.
pub proof fn law_sources_found(objects: Seq<JsonView>, i: int)
    requires
        0 <= i < objects.len(),
        source_url(objects[i]).len() > 0,
    ensures
        has_source(sources_of(objects), source_url(objects[i])),
    decreases objects.len(),
{
    broadcast use crate::value::group_fields;

    reveal_strlit("title");
    reveal_strlit("url");
    reveal_strlit("snippet");
    reveal_strlit("source_type");
    assert("title"@.len() == 5);
    assert("url"@.len() == 3);
    assert("snippet"@.len() == 7);
    assert("source_type"@.len() == 11);
    let init = objects.drop_last();
    let rest = sources_of(init);
    let all = sources_of(objects);
    let url = source_url(objects[i]);
    if i < init.len() {
        assert(init[i] == objects[i]);
        law_sources_found(init, i);
        let k = choose|k: int|
            0 <= k < rest.len() && (#[trigger] rest[k]).get("url"@) == Some(JsonView::Str(url));
        assert(all[k] == rest[k]);
    } else if !has_source(rest, url) {
        assert(all[rest.len() as int] == source_of(objects[i]));
        assert(source_of(objects[i]).get("url"@) == Some(JsonView::Str(url)));
    }
}

/// A search goes on through refusals that pass.
pub proof fn law_passing_refusals(status: u16)
    ensures
        passing(status) <==> status == 404 || status == 409 || status == 423 || status == 429 || status
            == 500 || (502 <= status <= 504),
{
}

} // verus!
