//! Finer points: how pictures are turned, keys are stretched, times are read, lists are ordered
//! and single answers are put together.
use vstd::prelude::*;
use vstd::utf8::encode_utf8;

use crate::account::field_trim;
use crate::accounts_api::three_digits;
use crate::auth::{normal_key, normal_keys};
use crate::cipher::{be_bytes, chain_sum, chained, derived_key, hmac, key_blocks, xored};
use crate::clock::{moment_of, naive_moment, rfc3339_moment, second_of, Moment};
use crate::cpa::{is_object, pool_at, pool_job, stored_pools, with_job_updates};
use crate::engine::{path_headers, ChatRequirements};
use crate::error::{detail_message, fault_text, location};
use crate::image_service::{
    is_shrunk, is_turned, opaque_pixels, pixel, png_of, png_rgb, png_rgba, Picture,
};
use crate::image_storage::{parent_path, ImageKind};
use crate::image_task::{run_detail, since_of, RunEnd};
use crate::json::parsed;
use crate::lists::{lemma_filtered_has, lemma_mapped_from, lemma_mapped_has};
use crate::naming::{is_free_name, numbered};
use crate::oauth::{address_query, callback_code, last_param, OAuthLoginError};
use crate::picture::{
    backoff_secs, content_texts, image_header_list, is_busy, kind_media, like_path, prepare_request,
};
use crate::pool_model::no_quota_text;
use crate::progress::{login_errors, login_result, login_skips};
use crate::refresh::{body_value, error_entry};
use crate::search::{found_in_items, found_within};
use crate::sorting::{field_order, law_sorted_in_order, law_sorted_same_items, pair_order, sorted};
use crate::support::{bare_pool, bare_server_of, servable, ResolvedPath};
use crate::text::{begins, decimal, joined, parsed_int, precedes, replaced, trimmed};
use crate::value::{count_json, empty_object, int_json, texts_json, JsonView};

verus! {

// ---------------------------------------------------------------------------
// pictures
// ---------------------------------------------------------------------------

/// The corner that a turn brings to the upper left, by its number: the upper left itself, the upper
/// right, the lower right, the lower left, and with the sides swapped the upper left, the lower
/// left, the lower right and the upper right.
pub proof fn law_turned_corner(p: Picture, turn: u8, q: Picture)
    requires
        is_turned(p, turn, q),
        p.width > 0,
        p.height > 0,
    ensures
        turn == 1 ==> pixel(q, 0, 0) == pixel(p, 0, 0),
        turn == 2 ==> pixel(q, 0, 0) == pixel(p, p.width - 1, 0),
        turn == 3 ==> pixel(q, 0, 0) == pixel(p, p.width - 1, p.height - 1),
        turn == 4 ==> pixel(q, 0, 0) == pixel(p, 0, p.height - 1),
        turn == 5 ==> pixel(q, 0, 0) == pixel(p, 0, 0) && q.width == p.height,
        turn == 6 ==> pixel(q, 0, 0) == pixel(p, 0, p.height - 1) && q.width == p.height,
        turn == 7 ==> pixel(q, 0, 0) == pixel(p, p.width - 1, p.height - 1) && q.width == p.height,
        turn == 8 ==> pixel(q, 0, 0) == pixel(p, p.width - 1, 0) && q.width == p.height,
        1 <= turn <= 4 ==> q.width == p.width && q.height == p.height,
        turn == 6 ==> pixel(q, q.width - 1, 0) == pixel(p, 0, 0),
        turn == 8 ==> pixel(q, 0, q.height - 1) == pixel(p, 0, 0),
        turn == 5 && p.width > 1 ==> pixel(q, 0, 1) == pixel(p, 1, 0),
{
}

/// A turn to the left after one to the right brings every pixel back to its place, and a mirror
/// twice does.
pub proof fn law_turned_back(p: Picture, q: Picture, r: Picture, x: int, y: int)
    requires
        0 <= x < p.width,
        0 <= y < p.height,
    ensures
        is_turned(p, 6, q) && is_turned(q, 8, r) ==> pixel(r, x, y) == pixel(p, x, y) && r.width
            == p.width,
        is_turned(p, 2, q) && is_turned(q, 2, r) ==> pixel(r, x, y) == pixel(p, x, y),
        is_turned(p, 3, q) && is_turned(q, 3, r) ==> pixel(r, x, y) == pixel(p, x, y),
        is_turned(p, 4, q) && is_turned(q, 4, r) ==> pixel(r, x, y) == pixel(p, x, y),
        is_turned(p, 5, q) && is_turned(q, 5, r) ==> pixel(r, x, y) == pixel(p, x, y),
        is_turned(p, 7, q) && is_turned(q, 7, r) ==> pixel(r, x, y) == pixel(p, x, y),
{
}

/// A small picture is never larger than 320 on either side, and one that was larger has that on
/// its longer side.
pub proof fn law_shrunk_sides(p: Picture, q: Picture)
    requires
        is_shrunk(p, q),
        p.width > 0,
        p.height > 0,
    ensures
        q.width <= 320 && q.height <= 320,
        p.width <= 320 && p.height <= 320 ==> q == p,
        p.width > 320 && p.width >= p.height ==> q.width == 320,
        p.height > 320 && p.height > p.width ==> q.height == 320,
        q.alpha == p.alpha,
{
}

/// A picture is written with its alpha where that means anything, and without it where not: then
/// every pixel keeps its other three bytes.
pub proof fn law_written_picture(p: Picture, i: int)
    requires
        p.wf(),
        0 <= i,
        4 * i + 3 < p.pixels@.len(),
    ensures
        p.alpha ==> png_of(p) == png_rgba(p.width, p.height, p.pixels@),
        !p.alpha ==> png_of(p) == png_rgb(p.width, p.height, opaque_pixels(p.pixels@)),
        opaque_pixels(p.pixels@)[3 * i] == p.pixels@[4 * i],
        opaque_pixels(p.pixels@)[3 * i + 1] == p.pixels@[4 * i + 1],
        opaque_pixels(p.pixels@)[3 * i + 2] == p.pixels@[4 * i + 2],
{
    assert((3 * i + 1) / 3 == i && (3 * i + 1) % 3 == 1);
    assert((3 * i + 2) / 3 == i && (3 * i + 2) % 3 == 2);
}

/// The media types of images.
pub proof fn law_kinds_of_media()
    ensures
        kind_media(ImageKind::Png) == "image/png"@,
        kind_media(ImageKind::Jpeg) == "image/jpeg"@,
        kind_media(ImageKind::Gif) == "image/gif"@,
        kind_media(ImageKind::Webp) == "image/webp"@,
{
}

// ---------------------------------------------------------------------------
// keys
// ---------------------------------------------------------------------------

/// A key is stretched block by block: each block is the sum of a chain of codes that begins with
/// the salt and the number of the block.
pub proof fn law_stretched_key(password: Seq<u8>, salt: Seq<u8>, n: nat)
    ensures
        chained(password, salt, 0) == hmac(password, salt),
        chained(password, salt, n + 1) == hmac(password, chained(password, salt, n)),
        chain_sum(password, salt, 0) == hmac(password, salt),
        chain_sum(password, salt, n + 1) == xored(
            chain_sum(password, salt, n),
            chained(password, salt, n + 1),
        ),
        be_bytes(1) == seq![0u8, 0u8, 0u8, 1u8],
        be_bytes(2) == seq![0u8, 0u8, 0u8, 2u8],
        key_blocks(password, salt, n + 1, 1) == chain_sum(password, salt + be_bytes(1), n),
        key_blocks(password, salt, n + 1, 2) == chain_sum(password, salt + be_bytes(1), n)
            + chain_sum(password, salt + be_bytes(2), n),
        derived_key(password, salt, n + 1, 48) == key_blocks(password, salt, n + 1, 2).take(48),
{
    assert(be_bytes(1) =~= seq![0u8, 0u8, 0u8, 1u8]);
    assert(be_bytes(2) =~= seq![0u8, 0u8, 0u8, 2u8]);
    reveal_with_fuel(key_blocks, 3);
    let c = chain_sum(password, salt + be_bytes(1), n);
    assert(Seq::<u8>::empty() + c =~= c);
}

/// Stored keys are read one by one, in order, and those that are none are passed over.
pub proof fn law_read_keys(raws: Seq<JsonView>, fresh: Seq<Seq<char>>, now: Seq<char>, r: JsonView, f: Seq<char>)
    requires
        raws.len() == fresh.len(),
    ensures
        normal_key(r, f, now) matches Some(k) ==> normal_keys(raws.push(r), fresh.push(f), now)
            == normal_keys(raws, fresh, now).push(k),
        normal_key(r, f, now) is None ==> normal_keys(raws.push(r), fresh.push(f), now) == normal_keys(
            raws,
            fresh,
            now,
        ),
        normal_keys(Seq::empty(), Seq::empty(), now).len() == 0,
{
    assert(raws.push(r).drop_last() =~= raws);
    assert(fresh.push(f).drop_last() =~= fresh);
}

// ---------------------------------------------------------------------------
// times and order
// ---------------------------------------------------------------------------

/// A time is read with its zone where it has one, and otherwise as it stands.
pub proof fn law_read_time(s: Seq<char>, m: Moment)
    requires
        trimmed(s).len() > 0,
    ensures
        rfc3339_moment(replaced(trimmed(s), 'Z', "+00:00"@)) == Some(m) ==> moment_of(JsonView::Str(s))
            == Some(m),
        rfc3339_moment(replaced(trimmed(s), 'Z', "+00:00"@)) is None ==> moment_of(JsonView::Str(s))
            == naive_moment(trimmed(s), "%Y-%m-%d %H:%M:%S"@),
        moment_of(JsonView::Null) is None,
        moment_of(JsonView::Str(Seq::empty())) is None,
{
    crate::text::lemma_strip_len(Seq::<char>::empty(), crate::text::CharClass::White);
}

/// One moment is not after another exactly where no time passes back.
pub proof fn law_not_after(a: Moment, b: Moment)
    requires
        a.nanos < 1_000_000_000,
        b.nanos < 1_000_000_000,
    ensures
        a.not_after(b) <==> a.total() <= b.total(),
        b.since(a) == b.total() - a.total(),
        forall|secs: int| #[trigger]
            b.within(a, secs) <==> b.total() - a.total() < secs * 1_000_000_000,
{
}

/// Seconds are read as a number or from text.
pub proof fn law_read_second(n: i64, s: Seq<char>)
    ensures
        second_of(int_json(n as int)) == Some(n),
        parsed_int(trimmed(s)) matches Some(i) ==> second_of(JsonView::Str(s)) == Some(i as i64),
        parsed_int(trimmed(s)) is None ==> second_of(JsonView::Str(s)) is None,
{
}

/// Records are sorted by the text in a field, up or down, and none is lost.
pub proof fn law_sorted_records(items: Seq<JsonView>, k: Seq<char>, i: int, j: int)
    requires
        0 <= i < j < items.len(),
    ensures
        !precedes(
            field_trim(sorted(items, field_order(k, false))[j], k),
            field_trim(sorted(items, field_order(k, false))[i], k),
        ),
        !precedes(
            field_trim(sorted(items, field_order(k, true))[i], k),
            field_trim(sorted(items, field_order(k, true))[j], k),
        ),
        sorted(items, field_order(k, false)).to_multiset() == items.to_multiset(),
        sorted(items, field_order(k, true)).to_multiset() == items.to_multiset(),
{
    let up = field_order(k, false);
    let down = field_order(k, true);
    let key = |v: JsonView| field_trim(v, k);
    assert(forall|x: JsonView, y: JsonView| #[trigger] up(x, y) == precedes(key(x), key(y)));
    assert(forall|x: JsonView, y: JsonView| #[trigger] down(x, y) == precedes(key(y), key(x)));
    law_sorted_in_order(items, up, key);
    law_sorted_in_order(items, down, key);
    law_sorted_same_items(items, up);
    law_sorted_same_items(items, down);
    let a = sorted(items, up);
    let b = sorted(items, down);
    assert(!up(a[j], a[i]));
    assert(!down(b[j], b[i]));
}

/// Pairs are sorted by their names.
pub proof fn law_sorted_pairs(items: Seq<(Seq<char>, Seq<char>)>, i: int, j: int)
    requires
        0 <= i < j < items.len(),
    ensures
        !precedes(sorted(items, pair_order())[j].0, sorted(items, pair_order())[i].0),
        sorted(items, pair_order()).to_multiset() == items.to_multiset(),
{
    let lt = pair_order();
    let key = |p: (Seq<char>, Seq<char>)| p.0;
    assert(forall|x: (Seq<char>, Seq<char>), y: (Seq<char>, Seq<char>)| #[trigger]
        lt(x, y) == precedes(key(x), key(y)));
    law_sorted_in_order(items, lt, key);
    law_sorted_same_items(items, lt);
    let s = sorted(items, lt);
    assert(!lt(s[j], s[i]));
}

/// A name that is free is given as it is; one that is taken gets the least number from two on.
pub proof fn law_given_name(taken: Seq<Seq<char>>, base: Seq<char>, sep: Seq<char>, tail: Seq<char>, name: Seq<char>)
    requires
        is_free_name(taken, base, sep, tail, name),
    ensures
        !taken.contains(base + tail) ==> name == base + tail,
        taken.contains(base + tail) ==> exists|k: nat|
            k >= 2 && name == #[trigger] numbered(base, sep, k, tail) && forall|j: nat|
                2 <= j < k ==> #[trigger] taken.contains(numbered(base, sep, j, tail)),
        !taken.contains(name),
        numbered(base, sep, 2, tail) == base + sep + decimal(2) + tail,
{
}

/// Numbers of accounts have three digits at least.
pub proof fn law_three_digits(n: nat)
    ensures
        n < 10 ==> three_digits(n) == "00"@ + decimal(n),
        10 <= n < 100 ==> three_digits(n) == "0"@ + decimal(n),
        n >= 100 ==> three_digits(n) == decimal(n),
{
}

// ---------------------------------------------------------------------------
// answers
// ---------------------------------------------------------------------------

/// A busy service is asked again after one, two, four, eight and then every sixteen seconds.
pub proof fn law_backoff(attempt: u32, status: u16)
    ensures
        backoff_secs(0) == 1,
        attempt < 4 ==> backoff_secs((attempt + 1) as u32) == 2 * backoff_secs(attempt),
        attempt >= 4 ==> backoff_secs(attempt) == 16,
        is_busy(status) <==> status == 429 || status == 500 || (502 <= status <= 504),
{
}

/// Requests for images show the proofs that were made.
pub proof fn law_image_headers(q: ChatRequirements, conduit: Seq<char>, accept: Seq<char>, trace: Seq<char>)
    ensures
        ({
            let h = image_header_list(q, conduit, accept, trace);
            &&& h.contains(("Accept"@, accept))
            &&& h.contains(("Content-Type"@, "application/json"@))
            &&& h.contains(("OpenAI-Sentinel-Chat-Requirements-Token"@, q.token@))
            &&& q.proof_token@.len() > 0 ==> h.contains(
                ("OpenAI-Sentinel-Proof-Token"@, q.proof_token@),
            )
            &&& conduit.len() > 0 ==> h.contains(("X-Conduit-Token"@, conduit))
            &&& accept == "text/event-stream"@ ==> h.contains(("X-Oai-Turn-Trace-Id"@, trace))
        }),
        path_headers(accept).contains(("X-OpenAI-Target-Path"@, accept)),
{
    let h = image_header_list(q, conduit, accept, trace);
    assert(h[0] == ("Content-Type"@, "application/json"@));
    assert(h[1] == ("Accept"@, accept));
    assert(h[2] == ("OpenAI-Sentinel-Chat-Requirements-Token"@, q.token@));
    let n: int = if q.proof_token@.len() > 0 {
        1
    } else {
        0
    };
    let k: int = if conduit.len() > 0 {
        1
    } else {
        0
    };
    if q.proof_token@.len() > 0 {
        assert(h[3] == ("OpenAI-Sentinel-Proof-Token"@, q.proof_token@));
    }
    if conduit.len() > 0 {
        assert(h[3 + n] == ("X-Conduit-Token"@, conduit));
    }
    if accept == "text/event-stream"@ {
        assert(h[3 + n + k] == ("X-Oai-Turn-Trace-Id"@, trace));
    }
    assert(path_headers(accept)[0] == ("X-OpenAI-Target-Path"@, accept));
}

/// The preparation of an image carries the prompt, the model, the hint and its place.
pub proof fn law_prepared_image(prompt: Seq<char>, model: Seq<char>, hint: Seq<char>, parent: Seq<char>, id: Seq<char>)
    ensures
        ({
            let q = prepare_request(prompt, model, hint, parent, id);
            let m = q.at("partial_query"@);
            &&& q.str_at("action"@) == "next"@
            &&& q.str_at("model"@) == model
            &&& q.str_at("parent_message_id"@) == parent
            &&& q.items_at("system_hints"@) == seq![JsonView::Str(hint)]
            &&& m.str_at("id"@) == id
            &&& m.at("author"@).str_at("role"@) == "user"@
            &&& m.at("content"@).items_at("parts"@) == seq![JsonView::Str(prompt)]
        }),
{
    broadcast use crate::value::group_fields;

    reveal_strlit("action");
    reveal_strlit("fork_from_shared_post");
    reveal_strlit("parent_message_id");
    reveal_strlit("model");
    reveal_strlit("client_prepare_state");
    reveal_strlit("timezone_offset_min");
    reveal_strlit("timezone");
    reveal_strlit("conversation_mode");
    reveal_strlit("system_hints");
    reveal_strlit("partial_query");
    reveal_strlit("supports_buffering");
    reveal_strlit("supported_encodings");
    reveal_strlit("client_contextual_info");
    reveal_strlit("id");
    reveal_strlit("author");
    reveal_strlit("content");
    reveal_strlit("role");
    reveal_strlit("content_type");
    reveal_strlit("parts");
    reveal_strlit("kind");
    reveal_strlit("app_name");
    assert("action"@.len() == 6 && "action"@[1] == 'c');
    assert("fork_from_shared_post"@.len() == 21);
    assert("parent_message_id"@.len() == 17 && "parent_message_id"@[0] == 'p');
    assert("model"@.len() == 5 && "model"@[0] == 'm');
    assert("client_prepare_state"@.len() == 20);
    assert("timezone_offset_min"@.len() == 19 && "timezone_offset_min"@[0] == 't');
    assert("timezone"@.len() == 8 && "timezone"@[0] == 't');
    assert("conversation_mode"@.len() == 17 && "conversation_mode"@[0] == 'c');
    assert("system_hints"@.len() == 12 && "system_hints"@[0] == 's');
    assert("partial_query"@.len() == 13);
    assert("supports_buffering"@.len() == 18);
    assert("supported_encodings"@.len() == 19 && "supported_encodings"@[0] == 's');
    assert("client_contextual_info"@.len() == 22);
    assert("id"@.len() == 2);
    assert("author"@.len() == 6 && "author"@[1] == 'u');
    assert("content"@.len() == 7);
    assert("role"@.len() == 4 && "role"@[0] == 'r');
    assert("content_type"@.len() == 12 && "content_type"@[0] == 'c');
    assert("parts"@.len() == 5 && "parts"@[0] == 'p');
    assert("kind"@.len() == 4 && "kind"@[0] == 'k');
    assert("app_name"@.len() == 8 && "app_name"@[0] == 'a');
}

/// A text may be the path of a file where it is short and of one line, and no data URL.
pub proof fn law_like_path(s: Seq<char>)
    ensures
        begins(s, "data:"@) ==> !like_path(s),
        s.len() == 0 ==> !like_path(s),
        encode_utf8(s).len() >= 512 ==> !like_path(s),
        s.contains('\n') ==> !like_path(s),
        like_path(s) <==> s.len() > 0 && encode_utf8(s).len() < 512 && !begins(s, "data:"@)
            && !s.contains('\n') && !s.contains('\r'),
{
}

/// The texts of a message are its parts that are not blank, and then its text.
pub proof fn law_message_texts(content: JsonView, t: Seq<char>)
    requires
        content is Obj,
    ensures
        content_texts(content).contains(t) <==> t.len() > 0 && (trimmed(content.str_at("text"@)) == t
            || exists|i: int|
            0 <= i < content.items_at("parts"@).len() && (
            (#[trigger] content.items_at("parts"@)[i]) matches JsonView::Str(s) && trimmed(s) == t)),
{
    let parts = content.items_at("parts"@);
    let f = crate::picture::solid_part();
    let a = parts.filter_map(f);
    let b = crate::picture::solid_text(content.str_at("text"@));
    let all = a + b;
    if all.contains(t) {
        let k = all.index_of(t);
        if k < a.len() {
            assert(a[k] == t);
            assert(a.contains(t));
            lemma_mapped_from(parts, f, t);
            let i = choose|i: int| 0 <= i < parts.len() && f(#[trigger] parts[i]) == Some(t);
            assert(parts[i] is Str);
        } else {
            assert(b[k - a.len()] == t);
        }
    }
    if t.len() > 0 && trimmed(content.str_at("text"@)) == t {
        assert(b[0] == t);
        assert(all[a.len() as int] == t);
    }
    if t.len() > 0 && exists|i: int|
        0 <= i < parts.len() && ((#[trigger] parts[i]) matches JsonView::Str(s) && trimmed(s) == t) {
        let i = choose|i: int|
            0 <= i < parts.len() && ((#[trigger] parts[i]) matches JsonView::Str(s) && trimmed(s) == t);
        lemma_mapped_has(parts, f, i);
        let k = a.index_of(t);
        assert(all[k] == t);
    }
}

/// What is logged of a run says who made it, how, with which model, when, how it ended, and with
/// which images.
pub proof fn law_run_detail(
    who: JsonView,
    mode: Seq<char>,
    model: Seq<char>,
    began: Seq<char>,
    ended: Seq<char>,
    ms: int,
    prompt: Seq<char>,
    end: RunEnd,
)
    ensures
        ({
            let d = run_detail(who, mode, model, began, ended, ms, prompt, end);
            &&& d.at("key_id"@) == who.at("id"@)
            &&& d.at("key_name"@) == who.at("name"@)
            &&& d.at("role"@) == who.at("role"@)
            &&& mode == "edit"@ ==> d.str_at("endpoint"@) == "/v1/images/edits"@
            &&& mode != "edit"@ ==> d.str_at("endpoint"@) == "/v1/images/generations"@
            &&& d.str_at("model"@) == model
            &&& d.str_at("started_at"@) == began
            &&& d.str_at("ended_at"@) == ended
            &&& d.get("duration_ms"@) == Some(int_json(ms))
            &&& d.str_at("status"@) == end.status@
            &&& d.str_at("request_text"@) == trimmed(prompt)
            &&& d.str_at("error"@) == end.error@
            &&& d.str_at("account_email"@) == end.account_email@
            &&& end.urls@.len() > 0 ==> d.get("urls"@) == Some(
                texts_json(crate::text::deduped(crate::text::views(end.urls@))),
            )
        }),
{
    broadcast use crate::value::group_fields;

    reveal_strlit("key_id");
    reveal_strlit("key_name");
    reveal_strlit("role");
    reveal_strlit("endpoint");
    reveal_strlit("model");
    reveal_strlit("started_at");
    reveal_strlit("ended_at");
    reveal_strlit("duration_ms");
    reveal_strlit("status");
    reveal_strlit("request_text");
    reveal_strlit("error");
    reveal_strlit("account_email");
    reveal_strlit("urls");
    assert("key_id"@.len() == 6 && "key_id"@[0] == 'k');
    assert("key_name"@.len() == 8 && "key_name"@[0] == 'k');
    assert("role"@.len() == 4 && "role"@[0] == 'r');
    assert("endpoint"@.len() == 8 && "endpoint"@[0] == 'e' && "endpoint"@[3] == 'p');
    assert("model"@.len() == 5 && "model"@[0] == 'm');
    assert("started_at"@.len() == 10);
    assert("ended_at"@.len() == 8 && "ended_at"@[0] == 'e' && "ended_at"@[3] == 'e');
    assert("duration_ms"@.len() == 11);
    assert("status"@.len() == 6 && "status"@[0] == 's');
    assert("request_text"@.len() == 12);
    assert("error"@.len() == 5 && "error"@[0] == 'e');
    assert("account_email"@.len() == 13);
    assert("urls"@.len() == 4 && "urls"@[0] == 'u');
}

/// A task that runs has run since it began, and one that waits since it was made; an ended one
/// does neither.
pub proof fn law_since(t: JsonView, n: i64)
    ensures
        t.str_at("status"@) == "running"@ && t.get("started_ts"@) == Some(int_json(n as int)) && n > 0
            ==> since_of(t) == t.get("started_ts"@),
        t.str_at("status"@) == "queued"@ && t.get("created_ts"@) == Some(int_json(n as int)) && n > 0
            ==> since_of(t) == t.get("created_ts"@),
        t.str_at("status"@) == "success"@ || t.str_at("status"@) == "error"@ ==> since_of(t) is None,
{
    reveal_strlit("running");
    reveal_strlit("queued");
    reveal_strlit("success");
    reveal_strlit("error");
    assert("running"@.len() == 7 && "running"@[0] == 'r');
    assert("queued"@.len() == 6);
    assert("success"@.len() == 7 && "success"@[0] == 's');
    assert("error"@.len() == 5);
}

/// What cannot be served is said, with the plan or the source that was asked for.
pub proof fn law_no_quota(label: Seq<char>)
    ensures
        no_quota_text(Seq::empty()) == "no available image quota"@,
        label.len() > 0 ==> no_quota_text(label) == "no available "@ + label + " image quota"@,
{
}

/// The faults of a request are told one by one, with the place of each.
pub proof fn law_fault(v: JsonView)
    requires
        v is Obj,
    ensures
        fault_text()(v) is Some <==> trimmed(v.str_at("msg"@)).len() > 0,
        fault_text()(v) matches Some(t) ==> (location(v).len() == 0 ==> t == trimmed(v.str_at("msg"@)))
            && (location(v).len() > 0 ==> t == location(v) + ": "@ + trimmed(v.str_at("msg"@))),
        detail_message(JsonView::Arr(seq![v])) == (match fault_text()(v) {
            Some(t) => t,
            None => Seq::empty(),
        }),
{
    let f = fault_text();
    let s = seq![v];
    assert(s.drop_last() =~= Seq::<JsonView>::empty());
    reveal_with_fuel(Seq::filter_map, 3);
    match f(v) {
        Some(t) => {
            assert(s.filter_map(f) =~= seq![t]);
        },
        None => {
            assert(s.filter_map(f) =~= Seq::<Seq<char>>::empty());
        },
    }
}

/// The answer to a request reads as its JSON, or as nothing where it is none.
pub proof fn law_body_value(text: Seq<char>, v: JsonView)
    ensures
        parsed(encode_utf8(text)) == Some(v) ==> body_value(text) == v,
        parsed(encode_utf8(text)) is None ==> body_value(text) == JsonView::Null,
{
}

/// A callback address gives its code and its state; a bare text is the code itself.
pub proof fn law_callback(value: Seq<char>, q: Seq<(Seq<char>, Seq<char>)>, r: Result<(String, String), OAuthLoginError>)
    requires
        callback_code(value, r),
    ensures
        trimmed(value).len() > 0 && !begins(trimmed(value), "http://"@) && !begins(
            trimmed(value),
            "https://"@,
        ) ==> (r matches Ok(p) && p.0@ == trimmed(value) && p.1@.len() == 0),
        (begins(trimmed(value), "http://"@) || begins(trimmed(value), "https://"@)) && trimmed(value).len()
            > 0 && address_query(trimmed(value)) == Ok::<
            Seq<(Seq<char>, Seq<char>)>,
            Seq<char>,
        >(q) && last_param(q, "code"@).len() > 0 ==> (r matches Ok(p) && p.0@ == last_param(q, "code"@)
            && p.1@ == last_param(q, "state"@)),
        (begins(trimmed(value), "http://"@) || begins(trimmed(value), "https://"@)) && trimmed(value).len()
            > 0 && address_query(trimmed(value)) == Ok::<
            Seq<(Seq<char>, Seq<char>)>,
            Seq<char>,
        >(q) && last_param(q, "code"@).len() == 0 ==> r is Err,
{
}

/// A value is found under its name in the object itself first, and else within its fields.
pub proof fn law_value_found(v: JsonView, key: Seq<char>, n: nat, items: Seq<JsonView>, x: JsonView)
    requires
        v is Obj,
    ensures
        v.str_at(key).len() > 0 ==> found_within(v, key, n) == v.str_at(key),
        found_in_items(items, key, n).len() > 0 ==> found_in_items(items.push(x), key, n)
            == found_in_items(items, key, n),
        found_in_items(items, key, n).len() == 0 ==> found_in_items(items.push(x), key, n)
            == found_within(x, key, n),
{
    assert(items.push(x).drop_last() =~= items);
    assert(items.push(x).last() == x);
}

// ---------------------------------------------------------------------------
// imports and logins
// ---------------------------------------------------------------------------

/// A job of a pool changes as it is told, and the other pools stay as they are.
pub proof fn law_job_updated(pools: Seq<JsonView>, id: Seq<char>, updates: JsonView, fresh: Seq<char>, now: Seq<char>, s: Seq<char>, i: int)
    requires
        0 <= pool_at(pools, id) < pools.len(),
        pools[pool_at(pools, id)] is Obj,
        pools[pool_at(pools, id)].at("import_job"@) is Obj,
        updates is Obj,
        crate::assoc::distinct_names(updates->Obj_0),
        updates.get("status"@) == Some(JsonView::Str(s)),
        s.len() > 0,
        trimmed(s) == s,
        0 <= i < pools.len(),
    ensures
        ({
            let p = pool_at(pools, id);
            let q = with_job_updates(pools, id, updates, fresh, now);
            &&& q.len() == pools.len()
            &&& q[p].at("import_job"@).str_at("status"@) == s
            &&& now.len() > 0 && trimmed(now) == now ==> q[p].at("import_job"@).str_at("updated_at"@)
                == now
            &&& i != p ==> q[i] == pools[i]
            &&& q[p].get("base_url"@) == pools[p].get("base_url"@)
        }),
{
    broadcast use crate::value::group_fields;

    reveal_strlit("job_id");
    reveal_strlit("status");
    reveal_strlit("created_at");
    reveal_strlit("updated_at");
    reveal_strlit("total");
    reveal_strlit("completed");
    reveal_strlit("added");
    reveal_strlit("skipped");
    reveal_strlit("refreshed");
    reveal_strlit("failed");
    reveal_strlit("errors");
    reveal_strlit("import_job");
    reveal_strlit("base_url");
    assert("job_id"@.len() == 6 && "job_id"@[0] == 'j');
    assert("status"@.len() == 6 && "status"@[0] == 's');
    assert("created_at"@.len() == 10 && "created_at"@[0] == 'c');
    assert("updated_at"@.len() == 10 && "updated_at"@[0] == 'u');
    assert("total"@.len() == 5 && "total"@[0] == 't');
    assert("completed"@.len() == 9 && "completed"@[0] == 'c');
    assert("added"@.len() == 5 && "added"@[0] == 'a');
    assert("skipped"@.len() == 7);
    assert("refreshed"@.len() == 9 && "refreshed"@[0] == 'r');
    assert("failed"@.len() == 6 && "failed"@[0] == 'f');
    assert("errors"@.len() == 6 && "errors"@[0] == 'e');
    assert("import_job"@.len() == 10 && "import_job"@[0] == 'i');
    assert("base_url"@.len() == 8);
    let p = pool_at(pools, id);
    let j = pools[p].at("import_job"@);
    crate::pool_use_laws::law_merged_fields(j, updates, "status"@);
    let m = crate::account::merged(j, updates).put("updated_at"@, JsonView::Str(now));
    assert(field_trim(m, "status"@) == s);
    if now.len() > 0 && trimmed(now) == now {
        assert(field_trim(m, "updated_at"@) == now);
    }
    crate::transfer_laws::law_kept_import(m, false, fresh, now);
}

/// The end of an import is noted with its job: what came of it, and how many accounts it added,
/// found and refreshed.
pub proof fn law_job_ended(
    pools: Seq<JsonView>,
    id: Seq<char>,
    total: nat,
    added: nat,
    skipped: nat,
    refreshed: int,
    failed: nat,
    fresh: Seq<char>,
    now: Seq<char>,
)
    requires
        pool_at(pools, id) >= 0,
        pool_job(pools, id) is Some,
        total <= i64::MAX,
        added <= i64::MAX,
        skipped <= i64::MAX,
        i64::MIN <= refreshed <= i64::MAX,
        failed <= i64::MAX,
    ensures
        ({
            let u = empty_object().put("status"@, JsonView::Str("completed"@)).put(
                "completed"@,
                count_json(total),
            ).put("added"@, count_json(added)).put("skipped"@, count_json(skipped)).put(
                "refreshed"@,
                int_json(refreshed),
            ).put("failed"@, count_json(failed));
            let j = with_job_updates(pools, id, u, fresh, now)[pool_at(pools, id)].at("import_job"@);
            &&& j.str_at("status"@) == "completed"@
            &&& j.get("completed"@) == Some(int_json(total as int))
            &&& j.get("added"@) == Some(int_json(added as int))
            &&& j.get("skipped"@) == Some(int_json(skipped as int))
            &&& j.get("refreshed"@) == Some(int_json(refreshed))
            &&& j.get("failed"@) == Some(int_json(failed as int))
            &&& j.items_at("errors"@) == (pool_job(pools, id)->0).items_at("errors"@)
        }),
{
    broadcast use crate::value::group_fields;

    reveal_strlit("job_id");
    reveal_strlit("status");
    reveal_strlit("created_at");
    reveal_strlit("updated_at");
    reveal_strlit("total");
    reveal_strlit("completed");
    reveal_strlit("added");
    reveal_strlit("skipped");
    reveal_strlit("refreshed");
    reveal_strlit("failed");
    reveal_strlit("errors");
    reveal_strlit("import_job");
    assert("job_id"@.len() == 6 && "job_id"@[0] == 'j');
    assert("status"@.len() == 6 && "status"@[0] == 's');
    assert("created_at"@.len() == 10 && "created_at"@[0] == 'c');
    assert("updated_at"@.len() == 10 && "updated_at"@[0] == 'u');
    assert("total"@.len() == 5 && "total"@[0] == 't');
    assert("completed"@.len() == 9 && "completed"@[0] == 'c');
    assert("added"@.len() == 5 && "added"@[0] == 'a');
    assert("skipped"@.len() == 7);
    assert("refreshed"@.len() == 9 && "refreshed"@[0] == 'r');
    assert("failed"@.len() == 6 && "failed"@[0] == 'f');
    assert("errors"@.len() == 6 && "errors"@[0] == 'e');
    assert("import_job"@.len() == 10 && "import_job"@[0] == 'i');
    let e = empty_object();
    let u1 = e.put("status"@, JsonView::Str("completed"@));
    let u2 = u1.put("completed"@, count_json(total));
    let u3 = u2.put("added"@, count_json(added));
    let u4 = u3.put("skipped"@, count_json(skipped));
    let u5 = u4.put("refreshed"@, int_json(refreshed));
    let u = u5.put("failed"@, count_json(failed));
    lemma_put_names(e, "status"@, JsonView::Str("completed"@));
    lemma_put_names(u1, "completed"@, count_json(total));
    lemma_put_names(u2, "added"@, count_json(added));
    lemma_put_names(u3, "skipped"@, count_json(skipped));
    lemma_put_names(u4, "refreshed"@, int_json(refreshed));
    lemma_put_names(u5, "failed"@, count_json(failed));
    let p = pool_at(pools, id);
    let j = pools[p].at("import_job"@);
    crate::pool_use_laws::law_merged_fields(j, u, "status"@);
    crate::pool_use_laws::law_merged_fields(j, u, "completed"@);
    crate::pool_use_laws::law_merged_fields(j, u, "added"@);
    crate::pool_use_laws::law_merged_fields(j, u, "skipped"@);
    crate::pool_use_laws::law_merged_fields(j, u, "refreshed"@);
    crate::pool_use_laws::law_merged_fields(j, u, "failed"@);
    crate::pool_use_laws::law_merged_fields(j, u, "errors"@);
    let m = crate::account::merged(j, u).put("updated_at"@, JsonView::Str(now));
    lemma_bare_word();
    assert(field_trim(m, "status"@) == "completed"@);
    crate::transfer_laws::law_kept_import(m, false, fresh, now);
}

proof fn lemma_put_names(o: JsonView, k: Seq<char>, v: JsonView)
    requires
        o is Obj,
        crate::assoc::distinct_names(o->Obj_0),
    ensures
        o.put(k, v) is Obj,
        crate::assoc::distinct_names(o.put(k, v)->Obj_0),
{
    crate::assoc::lemma_put_shape(o->Obj_0, k, v);
}

proof fn lemma_bare_word()
    ensures
        trimmed("completed"@) == "completed"@,
{
    reveal_strlit("completed");
    let s = "completed"@;
    assert(s.len() == 9 && s[0] == 'c' && s[8] == 'd');
    crate::account_laws::lemma_bare_stays(s);
}

/// Pools are read from a list of objects, or from one object with an address.
pub proof fn law_stored_pools(v: JsonView, items: Seq<JsonView>)
    ensures
        stored_pools(JsonView::Arr(items)).contains(v) <==> items.contains(v) && v is Obj,
        v is Obj && field_trim(v, "base_url"@).len() > 0 ==> stored_pools(v) == seq![v],
        v is Obj && field_trim(v, "base_url"@).len() == 0 ==> stored_pools(v).len() == 0,
{
    lemma_filtered_has(items, is_object(), v);
}

/// A login that was tried is told with its account, how it went, and why.
pub proof fn law_login_result(label: Seq<char>, status: Seq<char>, error: Seq<char>)
    ensures
        login_result(label, status, Some(error)).str_at("token"@) == label,
        login_result(label, status, Some(error)).str_at("status"@) == status,
        login_result(label, status, Some(error)).str_at("error"@) == error,
        error_entry(label, error).str_at("token"@) == label,
        error_entry(label, error).str_at("error"@) == error,
{
    broadcast use crate::value::group_fields;

    reveal_strlit("token");
    reveal_strlit("status");
    reveal_strlit("error");
    assert("token"@.len() == 5 && "token"@[0] == 't');
    assert("status"@.len() == 6);
    assert("error"@.len() == 5 && "error"@[0] == 'e');
}

/// Accounts that are not there are reported, and those without a password are passed over.
pub proof fn law_login_counts(
    found: spec_fn(Seq<char>) -> Option<JsonView>,
    tokens: Seq<Seq<char>>,
    labels: Seq<Seq<char>>,
    t: Seq<char>,
    l: Seq<char>,
)
    requires
        tokens.len() == labels.len(),
    ensures
        found(t) is None ==> login_errors(found, tokens.push(t), labels.push(l)) == login_errors(
            found,
            tokens,
            labels,
        ).push(error_entry(l, "账号不存在"@)),
        found(t) is Some ==> login_errors(found, tokens.push(t), labels.push(l)) == login_errors(
            found,
            tokens,
            labels,
        ),
        found(t) matches Some(a) ==> login_skips(found, tokens.push(t)) == login_skips(found, tokens)
            + (if field_trim(a, "email"@).len() == 0 || field_trim(a, "password"@).len() == 0 {
            1nat
        } else {
            0
        }),
{
    assert(tokens.push(t).drop_last() =~= tokens);
    assert(labels.push(l).drop_last() =~= labels);
}

/// Of every pool and every server that is shown the secrets are left out.
pub proof fn law_shown_pools(pools: Seq<JsonView>, v: JsonView)
    ensures
        pools.filter_map(bare_pool()).contains(v) ==> v.get("secret_key"@) is None,
        pools.filter_map(bare_server_of()).contains(v) ==> v.get("password"@) is None && v.get("api_key"@) is None,
{
    broadcast use crate::value::group_fields;

    reveal_strlit("secret_key");
    reveal_strlit("password");
    reveal_strlit("api_key");
    reveal_strlit("has_api_key");
    assert("secret_key"@.len() == 10);
    assert("password"@.len() == 8);
    assert("api_key"@.len() == 7);
    assert("has_api_key"@.len() == 11);
    if pools.filter_map(bare_pool()).contains(v) {
        lemma_mapped_from(pools, bare_pool(), v);
    }
    if pools.filter_map(bare_server_of()).contains(v) {
        lemma_mapped_from(pools, bare_server_of(), v);
    }
}

/// A file is served where it is one and lies below the directory.
pub proof fn law_servable(base: Seq<char>, p: ResolvedPath)
    ensures
        servable(base, Some(p)) ==> p.is_file && (p.path@ == base || begins(p.path@, base + "/"@) || base
            == "/"@),
        !servable(base, None),
        p.is_file && begins(p.path@, base + "/"@) ==> servable(base, Some(p)),
{
}

/// The directory of a file on the server is its path without its name.
pub proof fn law_parent(a: Seq<char>, name: Seq<char>)
    requires
        !name.contains('/'),
    ensures
        parent_path(a + seq!['/'] + name) == joined(crate::text::pieces(a, '/'), "/"@),
        parent_path(a + seq!['/'] + name) == a,
{
    crate::image_paths::lemma_pieces_append(a, name, '/');
    let p = crate::text::pieces(a, '/');
    assert(p.push(name).drop_last() =~= p);
    crate::text_laws::law_split_and_joined(a, '/');
    reveal_strlit("/");
    assert("/"@ =~= seq!['/']);
}

} // verus!
