//! What normalization leaves alone: accounts that were normalized, and pools that were stored.
use vstd::prelude::*;

use crate::account::{
    dated, field_trim, graded, identified, is_at, kept_or_null, normal_account, raw_token,
    source_type, sourced, stated_source, with_count, with_text,
};
use crate::assoc::{lemma_pulled, lemma_put_at, lemma_put_same};
use crate::pool::loaded;
use crate::pool_model::PoolView;
use crate::text::{
    ascii_lower, is_ascii, is_white, lower_char, skip_back, skip_front, trimmed, unicode_lower,
    CharClass,
};
use crate::value::{compact, int_json, JsonView};

verus! {

broadcast use crate::value::group_json;

// ---------------------------------------------------------------------------
// trimmed text
// ---------------------------------------------------------------------------

proof fn lemma_skip_front_bare(s: Seq<char>, class: CharClass)
    ensures
        skip_front(s, class).len() > 0 ==> !class.has(skip_front(s, class)[0]),
    decreases s.len(),
{
    if s.len() > 0 && class.has(s[0]) {
        lemma_skip_front_bare(s.drop_first(), class);
    }
}

proof fn lemma_skip_back_bare(s: Seq<char>, class: CharClass)
    ensures
        skip_back(s, class).len() > 0 ==> !class.has(skip_back(s, class).last()),
        skip_back(s, class).len() > 0 ==> skip_back(s, class)[0] == s[0],
        skip_back(s, class).len() <= s.len(),
        forall|i: int|
            0 <= i < skip_back(s, class).len() ==> #[trigger] skip_back(s, class)[i] == s[i],
    decreases s.len(),
{
    if s.len() > 0 && class.has(s.last()) {
        lemma_skip_back_bare(s.drop_last(), class);
    }
}

proof fn lemma_skip_front_part(s: Seq<char>, class: CharClass)
    ensures
        forall|i: int|
            0 <= i < skip_front(s, class).len() ==> s.contains(#[trigger] skip_front(s, class)[i]),
    decreases s.len(),
{
    let r = skip_front(s, class);
    if s.len() > 0 && class.has(s[0]) {
        lemma_skip_front_part(s.drop_first(), class);
        assert forall|i: int| 0 <= i < r.len() implies s.contains(#[trigger] r[i]) by {
            let rest = s.drop_first();
            assert(rest.contains(skip_front(rest, class)[i]));
            let j = choose|j: int| 0 <= j < rest.len() && rest[j] == r[i];
            assert(s[j + 1] == r[i]);
        }
    }
}

/// What is left has no white space at its ends, so that trimming it again changes nothing.
pub proof fn lemma_trimmed_bare(s: Seq<char>)
    ensures
        trimmed(s).len() > 0 ==> !is_white(trimmed(s)[0]) && !is_white(trimmed(s).last()),
        trimmed(trimmed(s)) == trimmed(s),
        forall|i: int| 0 <= i < trimmed(s).len() ==> s.contains(#[trigger] trimmed(s)[i]),
{
    let class = CharClass::White;
    let f = skip_front(s, class);
    lemma_skip_front_bare(s, class);
    lemma_skip_back_bare(f, class);
    lemma_skip_front_part(s, class);
    lemma_bare_stays(trimmed(s));
    assert forall|i: int| 0 <= i < trimmed(s).len() implies s.contains(#[trigger] trimmed(s)[i]) by {
        assert(trimmed(s)[i] == f[i]);
    }
}

/// Trimming a text without white space at its ends changes nothing.
pub proof fn lemma_bare_stays(s: Seq<char>)
    requires
        s.len() > 0 ==> !is_white(s[0]) && !is_white(s.last()),
    ensures
        trimmed(s) == s,
{
    assert(skip_front(s, CharClass::White) == s);
    assert(skip_back(s, CharClass::White) == s);
}

proof fn lemma_lower_char(c: char)
    requires
        c <= '\u{7f}',
    ensures
        lower_char(c) <= '\u{7f}',
        lower_char(lower_char(c)) == lower_char(c),
        is_white(lower_char(c)) == is_white(c),
{
    if 'A' <= c <= 'Z' {
        let n = (c as u8 + 32) as u8;
        assert(97 <= n <= 122);
        assert(n as char as u32 == n as u32);
    }
}

/// A source that is read in lower case and without white space is read as itself again.
proof fn lemma_lower_stays(s: Seq<char>)
    requires
        is_ascii(s),
    ensures
        ({
            let r = unicode_lower(trimmed(s));
            &&& is_ascii(r)
            &&& trimmed(r) == r
            &&& unicode_lower(r) == r
            &&& r.len() == trimmed(s).len()
        }),
{
    lemma_trimmed_bare(s);
    let t = trimmed(s);
    assert forall|i: int| 0 <= i < t.len() implies #[trigger] t[i] <= '\u{7f}' by {
        let j = choose|j: int| 0 <= j < s.len() && s[j] == t[i];
        assert(s[j] <= '\u{7f}');
    }
    let r = ascii_lower(t);
    assert(r == unicode_lower(t));
    assert forall|i: int| 0 <= i < r.len() implies #[trigger] r[i] <= '\u{7f}' && lower_char(r[i])
        == r[i] && is_white(r[i]) == is_white(t[i]) by {
        assert(t[i] <= '\u{7f}');
        lemma_lower_char(t[i]);
    }
    lemma_bare_stays(r);
    assert(ascii_lower(r) =~= r);
}

// ---------------------------------------------------------------------------
// fields
// ---------------------------------------------------------------------------

/// Whether the field `k` is there and holds no empty string.
pub open spec fn holds_kept(n: JsonView, k: Seq<char>) -> bool {
    n.get(k) is Some && n.get(k) != Some(JsonView::Str(Seq::empty()))
}

/// Whether the field `k` holds an integer.
pub open spec fn holds_count(n: JsonView, k: Seq<char>) -> bool {
    n.get(k) == Some(int_json(n.int_at(k, 0) as int))
}

/// Whether the field `k` holds a string that is not empty.
pub open spec fn holds_text(n: JsonView, k: Seq<char>) -> bool {
    n.get(k) is Some && n.get(k)->0 is Str && n.str_at(k).len() > 0
}

/// Setting a field to what it holds changes nothing.
proof fn lemma_put_held(n: JsonView, k: Seq<char>, v: JsonView)
    requires
        n.get(k) == Some(v),
    ensures
        n.put(k, v) == n,
{
    match n {
        JsonView::Obj(o) => lemma_put_same(o, k, v),
        _ => {},
    }
}

proof fn lemma_kept_stays(n: JsonView, k: Seq<char>)
    requires
        holds_kept(n, k),
    ensures
        kept_or_null(n, k) == n,
{
    match n.at(k) {
        JsonView::Str(s) => {
            assert(s.len() == 0 ==> s =~= Seq::empty());
        },
        _ => {},
    }
    lemma_put_held(n, k, n.at(k));
}

proof fn lemma_kept(n: JsonView, k: Seq<char>)
    requires
        n is Obj,
    ensures
        holds_kept(kept_or_null(n, k), k),
        kept_or_null(n, k) is Obj,
        forall|q: Seq<char>| q != k ==> #[trigger] kept_or_null(n, k).get(q) == n.get(q),
{
    broadcast use crate::value::group_fields;

}

proof fn lemma_int_read(x: i64)
    ensures
        int_json(x as int) is Num,
        int_json(x as int)->Num_0.int == Some(x),
{
}

proof fn lemma_counted(n: JsonView, k: Seq<char>)
    requires
        n is Obj,
    ensures
        holds_count(with_count(n, k), k),
        with_count(n, k) is Obj,
        forall|q: Seq<char>| q != k ==> #[trigger] with_count(n, k).get(q) == n.get(q),
{
    broadcast use crate::value::group_fields;

    lemma_int_read(n.int_at(k, 0));
}

proof fn lemma_texted(n: JsonView, k: Seq<char>, default: Seq<char>)
    requires
        n is Obj,
        default.len() > 0,
    ensures
        holds_text(with_text(n, k, default), k),
        with_text(n, k, default).str_at(k) == n.str_at(k) || with_text(n, k, default).str_at(k)
            == default,
        n.str_at(k).len() > 0 ==> with_text(n, k, default).str_at(k) == n.str_at(k),
        with_text(n, k, default) is Obj,
        forall|q: Seq<char>| q != k ==> #[trigger] with_text(n, k, default).get(q) == n.get(q),
{
    broadcast use crate::value::group_fields;

}

// ---------------------------------------------------------------------------
// settled accounts
// ---------------------------------------------------------------------------

/// Whether `n` says how it was obtained as normalization writes it.
pub open spec fn has_source(n: JsonView) -> bool {
    let s = n.str_at("source_type"@);
    holds_text(n, "source_type"@) && trimmed(s) == s && unicode_lower(s) == s
}

/// Whether the plan, the state and the addresses of `n` are as normalization writes them.
pub open spec fn has_grade(n: JsonView) -> bool {
    &&& holds_text(n, "type"@)
    &&& unicode_lower(trimmed(n.str_at("type"@))) != "codex"@
    &&& holds_text(n, "status"@)
    &&& holds_count(n, "quota"@)
    &&& n.int_at("quota"@, 0) >= 0
    &&& n.get("image_quota_unknown"@) == Some(
        JsonView::Bool(n.bool_at("image_quota_unknown"@, false)),
    )
    &&& holds_kept(n, "email"@)
    &&& holds_kept(n, "user_id"@)
    &&& n.get("proxy"@) == Some(JsonView::Str(n.str_at("proxy"@)))
    &&& trimmed(n.str_at("proxy"@)) == n.str_at("proxy"@)
}

/// Whether the limits and counters of `n` are as normalization writes them.
pub open spec fn has_counters(n: JsonView) -> bool {
    &&& n.get("limits_progress"@) == Some(JsonView::Arr(n.items_at("limits_progress"@)))
    &&& holds_kept(n, "default_model_slug"@)
    &&& holds_kept(n, "restore_at"@)
    &&& holds_count(n, "success"@)
    &&& holds_count(n, "fail"@)
    &&& holds_count(n, "invalid_count"@)
}

/// Whether the times of `n` are as normalization writes them.
pub open spec fn has_times(n: JsonView) -> bool {
    &&& holds_kept(n, "last_used_at"@)
    &&& holds_kept(n, "last_invalid_at"@)
    &&& holds_kept(n, "last_refresh_error"@)
    &&& holds_kept(n, "last_refresh_error_at"@)
    &&& holds_kept(n, "last_token_refresh_at"@)
    &&& holds_kept(n, "last_token_refresh_error"@)
    &&& holds_kept(n, "last_token_refresh_error_at"@)
    &&& holds_text(n, "created_at"@)
}

/// Whether `n` is an account in the form that normalization gives, but for how it says that it was
/// obtained.
pub open spec fn settled_but_source(n: JsonView) -> bool {
    &&& n is Obj
    &&& n.get("accessToken"@) is None
    &&& holds_text(n, "access_token"@)
    &&& has_grade(n)
    &&& holds_text(n, "source_type"@)
    &&& has_counters(n)
    &&& has_times(n)
}

/// Whether `n` is an account in the form that normalization gives.
pub open spec fn settled_account(n: JsonView) -> bool {
    settled_but_source(n) && has_source(n)
}

/// How a record says that it was obtained, as text.
pub open spec fn source_text(item: JsonView) -> Seq<char> {
    match item.at("source_type"@) {
        JsonView::Str(s) => s,
        JsonView::Null => Seq::empty(),
        other => compact(other),
    }
}

proof fn lemma_identified_stays(n: JsonView)
    requires
        settled_but_source(n),
    ensures
        identified(n) == n,
        raw_token(n).len() > 0,
{
    lemma_pulled(n->Obj_0, "accessToken"@);
    assert(n.without("accessToken"@) == n);
    lemma_put_held(n, "access_token"@, JsonView::Str(raw_token(n)));
    assert(field_trim(n, "type"@) == trimmed(n.str_at("type"@)));
}

proof fn lemma_graded_stays(n: JsonView)
    requires
        has_grade(n),
    ensures
        graded(n) == n,
{
    lemma_put_held(n, "type"@, JsonView::Str(n.str_at("type"@)));
    lemma_put_held(n, "status"@, JsonView::Str(n.str_at("status"@)));
    lemma_put_held(n, "quota"@, int_json(n.int_at("quota"@, 0) as int));
    lemma_put_held(
        n,
        "image_quota_unknown"@,
        JsonView::Bool(n.bool_at("image_quota_unknown"@, false)),
    );
    lemma_kept_stays(n, "email"@);
    lemma_kept_stays(n, "user_id"@);
    lemma_put_held(n, "proxy"@, JsonView::Str(n.str_at("proxy"@)));
}

proof fn lemma_counters_stay(n: JsonView)
    requires
        n is Obj,
        has_counters(n),
    ensures
        sourced(n) == n.put("source_type"@, JsonView::Str(source_type(stated_source(n)))),
{
    broadcast use crate::value::group_fields;

    reveal_strlit("source_type");
    reveal_strlit("limits_progress");
    reveal_strlit("default_model_slug");
    reveal_strlit("restore_at");
    reveal_strlit("success");
    reveal_strlit("fail");
    reveal_strlit("invalid_count");
    assert("source_type"@.len() == 11 && "source_type"@[0] == 's');
    assert("limits_progress"@.len() == 15 && "limits_progress"@[0] == 'l');
    assert("default_model_slug"@.len() == 18 && "default_model_slug"@[0] == 'd');
    assert("restore_at"@.len() == 10 && "restore_at"@[0] == 'r');
    assert("success"@.len() == 7 && "success"@[0] == 's');
    assert("fail"@.len() == 4 && "fail"@[0] == 'f');
    assert("invalid_count"@.len() == 13 && "invalid_count"@[0] == 'i');
    let m = n.put("source_type"@, JsonView::Str(source_type(stated_source(n))));
    lemma_put_held(m, "limits_progress"@, JsonView::Arr(n.items_at("limits_progress"@)));
    lemma_kept_stays(m, "default_model_slug"@);
    lemma_kept_stays(m, "restore_at"@);
    lemma_put_held(m, "success"@, int_json(n.int_at("success"@, 0) as int));
    lemma_put_held(m, "fail"@, int_json(n.int_at("fail"@, 0) as int));
    lemma_put_held(m, "invalid_count"@, int_json(n.int_at("invalid_count"@, 0) as int));
}

proof fn lemma_source_stays(n: JsonView)
    requires
        has_source(n),
    ensures
        n.put("source_type"@, JsonView::Str(source_type(stated_source(n)))) == n,
{
    let s = n.str_at("source_type"@);
    assert(stated_source(n) == JsonView::Str(s));
    assert(source_type(stated_source(n)) == s);
    lemma_put_held(n, "source_type"@, JsonView::Str(s));
}

proof fn lemma_dated_stays(n: JsonView, now: Seq<char>)
    requires
        has_times(n),
    ensures
        dated(n, now) == n,
{
    lemma_kept_stays(n, "last_used_at"@);
    lemma_kept_stays(n, "last_invalid_at"@);
    lemma_kept_stays(n, "last_refresh_error"@);
    lemma_kept_stays(n, "last_refresh_error_at"@);
    lemma_kept_stays(n, "last_token_refresh_at"@);
    lemma_kept_stays(n, "last_token_refresh_error"@);
    lemma_kept_stays(n, "last_token_refresh_error_at"@);
    lemma_put_held(n, "created_at"@, JsonView::Str(n.str_at("created_at"@)));
}

/// Normalizing an account that is in the form of normalization changes nothing, whatever the
/// time.
pub proof fn law_settled_account_stays(n: JsonView, now: Seq<char>)
    requires
        settled_account(n),
    ensures
        normal_account(n, now) == Some(n),
{
    lemma_identified_stays(n);
    lemma_graded_stays(n);
    lemma_counters_stay(n);
    lemma_source_stays(n);
    lemma_dated_stays(n, now);
}

// ---------------------------------------------------------------------------
// normalized accounts are settled
// ---------------------------------------------------------------------------

/// The fields of an account's plan, state and addresses.
pub open spec fn grade_name(k: Seq<char>) -> bool {
    ||| k == "type"@
    ||| k == "status"@
    ||| k == "quota"@
    ||| k == "image_quota_unknown"@
    ||| k == "email"@
    ||| k == "user_id"@
    ||| k == "proxy"@
}

proof fn lemma_graded_settled(n: JsonView)
    requires
        n is Obj,
        n.str_at("type"@).len() > 0 ==> unicode_lower(trimmed(n.str_at("type"@))) != "codex"@,
    ensures
        graded(n) is Obj,
        has_grade(graded(n)),
        holds_text(n, "status"@) ==> graded(n).get("status"@) == n.get("status"@),
        graded(n).get("email"@) == kept_or_null(n, "email"@).get("email"@),
        forall|k: Seq<char>| !grade_name(k) ==> #[trigger] graded(n).get(k) == n.get(k),
{
    broadcast use crate::value::group_fields;

    reveal_strlit("type");
    reveal_strlit("status");
    reveal_strlit("quota");
    reveal_strlit("image_quota_unknown");
    reveal_strlit("email");
    reveal_strlit("user_id");
    reveal_strlit("proxy");
    assert("type"@.len() == 4 && "type"@[0] == 't');
    assert("status"@.len() == 6 && "status"@[0] == 's');
    assert("quota"@.len() == 5 && "quota"@[0] == 'q');
    assert("image_quota_unknown"@.len() == 19 && "image_quota_unknown"@[0] == 'i');
    assert("email"@.len() == 5 && "email"@[0] == 'e');
    assert("user_id"@.len() == 7 && "user_id"@[0] == 'u');
    assert("proxy"@.len() == 5 && "proxy"@[0] == 'p');
    reveal_strlit("free");
    reveal_strlit("正常");
    reveal_strlit("codex");
    assert("free"@.len() == 4 && "free"@[0] == 'f' && "free"@.last() == 'e');
    assert("正常"@.len() == 2);
    assert("codex"@.len() == 5);
    let n1 = with_text(n, "type"@, "free"@);
    lemma_texted(n, "type"@, "free"@);
    assert(unicode_lower(trimmed(n1.str_at("type"@))) != "codex"@) by {
        lemma_bare_stays("free"@);
        assert(is_ascii("free"@));
        assert(unicode_lower("free"@).len() == 4);
    }
    let n2 = with_text(n1, "status"@, "正常"@);
    lemma_texted(n1, "status"@, "正常"@);
    let quota = n2.int_at("quota"@, 0);
    let q: i64 = if quota < 0 {
        0
    } else {
        quota
    };
    let n3 = n2.put("quota"@, int_json(q as int));
    lemma_int_read(q);
    let n4 = n3.put(
        "image_quota_unknown"@,
        JsonView::Bool(n3.bool_at("image_quota_unknown"@, false)),
    );
    let n5 = kept_or_null(n4, "email"@);
    lemma_kept(n4, "email"@);
    let n6 = kept_or_null(n5, "user_id"@);
    lemma_kept(n5, "user_id"@);
    let n7 = n6.put("proxy"@, JsonView::Str(trimmed(n6.str_at("proxy"@))));
    lemma_trimmed_bare(n6.str_at("proxy"@));
    assert(n7 == graded(n));
    assert(n7.get("type"@) == n1.get("type"@));
    assert(n7.get("status"@) == n2.get("status"@));
    assert(n7.get("quota"@) == Some(int_json(q as int)));
    assert(n7.get("email"@) == n5.get("email"@));
    assert(n4.get("email"@) == n.get("email"@));
}

/// The fields of an account's source, limits and counters.
pub open spec fn source_name(k: Seq<char>) -> bool {
    ||| k == "source_type"@
    ||| k == "limits_progress"@
    ||| k == "default_model_slug"@
    ||| k == "restore_at"@
    ||| k == "success"@
    ||| k == "fail"@
    ||| k == "invalid_count"@
}

proof fn lemma_sourced_settled(n: JsonView)
    requires
        n is Obj,
    ensures
        sourced(n) is Obj,
        holds_text(sourced(n), "source_type"@),
        is_ascii(source_text(n)) ==> has_source(sourced(n)),
        has_counters(sourced(n)),
        forall|k: Seq<char>| !source_name(k) ==> #[trigger] sourced(n).get(k) == n.get(k),
{
    broadcast use crate::value::group_fields;

    reveal_strlit("source_type");
    reveal_strlit("limits_progress");
    reveal_strlit("default_model_slug");
    reveal_strlit("restore_at");
    reveal_strlit("success");
    reveal_strlit("fail");
    reveal_strlit("invalid_count");
    assert("source_type"@.len() == 11 && "source_type"@[0] == 's');
    assert("limits_progress"@.len() == 15 && "limits_progress"@[0] == 'l');
    assert("default_model_slug"@.len() == 18 && "default_model_slug"@[0] == 'd');
    assert("restore_at"@.len() == 10 && "restore_at"@[0] == 'r');
    assert("success"@.len() == 7 && "success"@[0] == 's');
    assert("fail"@.len() == 4 && "fail"@[0] == 'f');
    assert("invalid_count"@.len() == 13 && "invalid_count"@[0] == 'i');
    assert("limits_progress"@[1] == 'i');
    let st = stated_source(n);
    let text = source_type(st);
    reveal_strlit("web");
    assert("web"@.len() == 3);
    if is_ascii(source_text(n)) {
        reveal_strlit("codex");
        assert("codex"@.len() == 5 && is_ascii("codex"@));
        assert(is_ascii("web"@));
        assert("web"@[0] == 'w' && "web"@[1] == 'e' && "web"@[2] == 'b');
        lemma_bare_stays("web"@);
        assert(ascii_lower("web"@) =~= "web"@);
        match st {
            JsonView::Str(s) => {
                assert(is_ascii(s));
                lemma_lower_stays(s);
            },
            JsonView::Null => {},
            other => lemma_lower_stays(compact(other)),
        }
        assert(text.len() > 0 && trimmed(text) == text && unicode_lower(text) == text);
    }
    let n1 = n.put("source_type"@, JsonView::Str(text));
    let limits = match n1.at("limits_progress"@) {
        JsonView::Arr(v) => JsonView::Arr(v),
        _ => JsonView::Arr(Seq::empty()),
    };
    let n2 = n1.put("limits_progress"@, limits);
    let n3 = kept_or_null(n2, "default_model_slug"@);
    lemma_kept(n2, "default_model_slug"@);
    let n4 = kept_or_null(n3, "restore_at"@);
    lemma_kept(n3, "restore_at"@);
    let n5 = with_count(n4, "success"@);
    lemma_counted(n4, "success"@);
    let n6 = with_count(n5, "fail"@);
    lemma_counted(n5, "fail"@);
    let n7 = with_count(n6, "invalid_count"@);
    lemma_counted(n6, "invalid_count"@);
    assert(n7 == sourced(n));
    assert(n7.get("source_type"@) == Some(JsonView::Str(text)));
    assert(n7.get("limits_progress"@) == Some(limits));
    assert(n7.get("default_model_slug"@) == n3.get("default_model_slug"@));
    assert(n7.get("restore_at"@) == n4.get("restore_at"@));
    assert(n7.get("success"@) == n5.get("success"@));
    assert(n7.get("fail"@) == n6.get("fail"@));
}

/// The fields of an account's times.
pub open spec fn time_name(k: Seq<char>) -> bool {
    ||| k == "last_used_at"@
    ||| k == "last_invalid_at"@
    ||| k == "last_refresh_error"@
    ||| k == "last_refresh_error_at"@
    ||| k == "last_token_refresh_at"@
    ||| k == "last_token_refresh_error"@
    ||| k == "last_token_refresh_error_at"@
    ||| k == "created_at"@
}

proof fn lemma_dated_settled(n: JsonView, now: Seq<char>)
    requires
        n is Obj,
    ensures
        dated(n, now) is Obj,
        now.len() > 0 ==> has_times(dated(n, now)),
        forall|k: Seq<char>| !time_name(k) ==> #[trigger] dated(n, now).get(k) == n.get(k),
{
    broadcast use crate::value::group_fields;

    reveal_strlit("last_used_at");
    reveal_strlit("last_invalid_at");
    reveal_strlit("last_refresh_error");
    reveal_strlit("last_refresh_error_at");
    reveal_strlit("last_token_refresh_at");
    reveal_strlit("last_token_refresh_error");
    reveal_strlit("last_token_refresh_error_at");
    reveal_strlit("created_at");
    assert("last_used_at"@.len() == 12 && "last_used_at"@[0] == 'l');
    assert("last_invalid_at"@.len() == 15 && "last_invalid_at"@[0] == 'l');
    assert("last_refresh_error"@.len() == 18 && "last_refresh_error"@[0] == 'l');
    assert("last_refresh_error_at"@.len() == 21 && "last_refresh_error_at"@[0] == 'l');
    assert("last_token_refresh_at"@.len() == 21 && "last_token_refresh_at"@[0] == 'l');
    assert("last_token_refresh_error"@.len() == 24 && "last_token_refresh_error"@[0] == 'l');
    assert("last_token_refresh_error_at"@.len() == 27 && "last_token_refresh_error_at"@[0] == 'l');
    assert("created_at"@.len() == 10 && "created_at"@[0] == 'c');
    assert("last_refresh_error_at"@[5] == 'r');
    assert("last_token_refresh_at"@[5] == 't');
    let n1 = kept_or_null(n, "last_used_at"@);
    lemma_kept(n, "last_used_at"@);
    let n2 = kept_or_null(n1, "last_invalid_at"@);
    lemma_kept(n1, "last_invalid_at"@);
    let n3 = kept_or_null(n2, "last_refresh_error"@);
    lemma_kept(n2, "last_refresh_error"@);
    let n4 = kept_or_null(n3, "last_refresh_error_at"@);
    lemma_kept(n3, "last_refresh_error_at"@);
    let n5 = kept_or_null(n4, "last_token_refresh_at"@);
    lemma_kept(n4, "last_token_refresh_at"@);
    let n6 = kept_or_null(n5, "last_token_refresh_error"@);
    lemma_kept(n5, "last_token_refresh_error"@);
    let n7 = kept_or_null(n6, "last_token_refresh_error_at"@);
    lemma_kept(n6, "last_token_refresh_error_at"@);
    let n8 = with_text(n7, "created_at"@, now);
    if now.len() > 0 {
        lemma_texted(n7, "created_at"@, now);
    }
    assert(n8 == dated(n, now));
    assert(n8.get("last_used_at"@) == n1.get("last_used_at"@));
    assert(n8.get("last_invalid_at"@) == n2.get("last_invalid_at"@));
    assert(n8.get("last_refresh_error"@) == n3.get("last_refresh_error"@));
    assert(n8.get("last_refresh_error_at"@) == n4.get("last_refresh_error_at"@));
    assert(n8.get("last_token_refresh_at"@) == n5.get("last_token_refresh_at"@));
    assert(n8.get("last_token_refresh_error"@) == n6.get("last_token_refresh_error"@));
    assert(n8.get("last_token_refresh_error_at"@) == n7.get("last_token_refresh_error_at"@));
}

/// The fields that normalization writes.
pub open spec fn written(k: Seq<char>) -> bool {
    ||| k == "access_token"@
    ||| k == "accessToken"@
    ||| k == "export_type"@
    ||| grade_name(k)
    ||| source_name(k)
    ||| time_name(k)
}

/// What normalization leaves of a record: every field that it does not write, and, of those of a
/// login, the address and the password.
pub proof fn lemma_login_fields(item: JsonView, now: Seq<char>)
    requires
        normal_account(item, now) is Some,
    ensures
        ({
            let a = normal_account(item, now)->0;
            &&& forall|k: Seq<char>| !written(k) ==> #[trigger] a.get(k) == item.get(k)
            &&& a.get("password"@) == item.get("password"@)
            &&& a.get("email"@) == kept_or_null(item, "email"@).get("email"@)
            &&& holds_text(item, "status"@) ==> a.get("status"@) == item.get("status"@)
        }),
{
    broadcast use crate::value::group_fields;

    reveal_strlit("access_token");
    reveal_strlit("accessToken");
    reveal_strlit("export_type");
    reveal_strlit("type");
    reveal_strlit("status");
    reveal_strlit("email");
    reveal_strlit("source_type");
    reveal_strlit("limits_progress");
    reveal_strlit("default_model_slug");
    reveal_strlit("restore_at");
    reveal_strlit("success");
    reveal_strlit("fail");
    reveal_strlit("invalid_count");
    assert("access_token"@.len() == 12 && "access_token"@[0] == 'a');
    assert("accessToken"@.len() == 11 && "accessToken"@[0] == 'a');
    assert("export_type"@.len() == 11 && "export_type"@[0] == 'e');
    assert("type"@.len() == 4 && "type"@[0] == 't');
    assert("status"@.len() == 6 && "status"@[0] == 's');
    assert("email"@.len() == 5 && "email"@[0] == 'e');
    assert("source_type"@.len() == 11 && "source_type"@[0] == 's');
    assert("limits_progress"@.len() == 15 && "limits_progress"@[0] == 'l');
    assert("default_model_slug"@.len() == 18 && "default_model_slug"@[0] == 'd');
    assert("restore_at"@.len() == 10 && "restore_at"@[0] == 'r');
    assert("success"@.len() == 7 && "success"@[0] == 's');
    assert("fail"@.len() == 4 && "fail"@[0] == 'f');
    assert("invalid_count"@.len() == 13 && "invalid_count"@[0] == 'i');
    let n = identified(item);
    assert(n is Obj);
    assert(n.str_at("type"@).len() > 0 ==> unicode_lower(trimmed(n.str_at("type"@))) != "codex"@);
    lemma_graded_settled(n);
    let g = graded(n);
    lemma_sourced_settled(g);
    let s = sourced(g);
    lemma_dated_settled(s, now);
    let d = dated(s, now);
    lemma_no_time_names();
    assert(!source_name("email"@) && !source_name("status"@));
    assert(d.get("email"@) == s.get("email"@));
    assert(s.get("email"@) == g.get("email"@));
    assert(n.get("email"@) == item.get("email"@));
    assert(d.get("status"@) == s.get("status"@));
    assert(s.get("status"@) == g.get("status"@));
    assert(n.get("status"@) == item.get("status"@));
    assert(!written("password"@)) by {
        reveal_strlit("password");
        assert("password"@.len() == 8 && "password"@[0] == 'p');
        lemma_time_lengths();
    }
    assert forall|k: Seq<char>| !written(k) implies #[trigger] d.get(k) == item.get(k) by {
        assert(d.get(k) == s.get(k));
        assert(s.get(k) == g.get(k));
        assert(g.get(k) == n.get(k));
        assert(n.get(k) == item.get(k));
    }
}

/// Every account that was made of a record is in the form of normalization, and normalizing it
/// again changes nothing but, at most, how it says that it was obtained. That stays too wherever
/// the lower case of a text without white space at its ends is its own lower case and has none
/// there either. So it is for every text in ASCII.
pub proof fn law_normal_account_settled(item: JsonView, now: Seq<char>, later: Seq<char>)
    requires
        normal_account(item, now) is Some,
        now.len() > 0,
    ensures
        ({
            let a = normal_account(item, now)->0;
            &&& settled_but_source(a)
            &&& normal_account(a, later) == Some(
                a.put("source_type"@, JsonView::Str(source_type(stated_source(a)))),
            )
            &&& has_source(a) ==> settled_account(a) && normal_account(a, later) == Some(a)
            &&& is_ascii(source_text(item)) ==> has_source(a)
            &&& forall|k: Seq<char>| !written(k) ==> #[trigger] a.get(k) == item.get(k)
        }),
{
    lemma_login_fields(item, now);

    broadcast use crate::value::group_fields;

    reveal_strlit("access_token");
    reveal_strlit("accessToken");
    reveal_strlit("export_type");
    reveal_strlit("type");
    reveal_strlit("status");
    reveal_strlit("quota");
    reveal_strlit("image_quota_unknown");
    reveal_strlit("email");
    reveal_strlit("user_id");
    reveal_strlit("proxy");
    reveal_strlit("source_type");
    reveal_strlit("limits_progress");
    reveal_strlit("default_model_slug");
    reveal_strlit("restore_at");
    reveal_strlit("success");
    reveal_strlit("fail");
    reveal_strlit("invalid_count");
    assert("access_token"@.len() == 12 && "access_token"@[0] == 'a');
    assert("accessToken"@.len() == 11 && "accessToken"@[0] == 'a');
    assert("export_type"@.len() == 11 && "export_type"@[0] == 'e');
    assert("type"@.len() == 4 && "type"@[0] == 't');
    assert("status"@.len() == 6 && "status"@[0] == 's');
    assert("quota"@.len() == 5 && "quota"@[0] == 'q');
    assert("image_quota_unknown"@.len() == 19 && "image_quota_unknown"@[0] == 'i');
    assert("email"@.len() == 5 && "email"@[0] == 'e');
    assert("user_id"@.len() == 7 && "user_id"@[0] == 'u');
    assert("proxy"@.len() == 5 && "proxy"@[0] == 'p');
    assert("source_type"@.len() == 11 && "source_type"@[0] == 's');
    assert("limits_progress"@.len() == 15 && "limits_progress"@[0] == 'l');
    assert("default_model_slug"@.len() == 18 && "default_model_slug"@[0] == 'd');
    assert("restore_at"@.len() == 10 && "restore_at"@[0] == 'r');
    assert("success"@.len() == 7 && "success"@[0] == 's');
    assert("fail"@.len() == 4 && "fail"@[0] == 'f');
    assert("invalid_count"@.len() == 13 && "invalid_count"@[0] == 'i');
    let n = identified(item);
    assert(n is Obj);
    assert(n.get("access_token"@) == Some(JsonView::Str(raw_token(item))));
    assert(n.get("accessToken"@) is None);
    assert(n.get("source_type"@) == item.get("source_type"@));
    assert(n.str_at("type"@).len() > 0 ==> unicode_lower(trimmed(n.str_at("type"@))) != "codex"@);
    lemma_graded_settled(n);
    let g = graded(n);
    assert(g.get("source_type"@) == n.get("source_type"@));
    lemma_sourced_settled(g);
    let s = sourced(g);
    assert("limits_progress"@[1] == 'i');
    assert(s.get("type"@) == g.get("type"@));
    assert(s.get("status"@) == g.get("status"@));
    assert(s.get("quota"@) == g.get("quota"@));
    assert(s.get("image_quota_unknown"@) == g.get("image_quota_unknown"@));
    assert(s.get("email"@) == g.get("email"@));
    assert(s.get("user_id"@) == g.get("user_id"@));
    assert(s.get("proxy"@) == g.get("proxy"@));
    lemma_dated_settled(s, now);
    let d = dated(s, now);
    lemma_no_time_names();
    assert(d.get("access_token"@) == s.get("access_token"@));
    assert(d.get("accessToken"@) == s.get("accessToken"@));
    assert(d.get("type"@) == s.get("type"@));
    assert(d.get("status"@) == s.get("status"@));
    assert(d.get("quota"@) == s.get("quota"@));
    assert(d.get("image_quota_unknown"@) == s.get("image_quota_unknown"@));
    assert(d.get("email"@) == s.get("email"@));
    assert(d.get("user_id"@) == s.get("user_id"@));
    assert(d.get("proxy"@) == s.get("proxy"@));
    assert(d.get("source_type"@) == s.get("source_type"@));
    assert(d.get("limits_progress"@) == s.get("limits_progress"@));
    assert(d.get("default_model_slug"@) == s.get("default_model_slug"@));
    assert(d.get("restore_at"@) == s.get("restore_at"@));
    assert(d.get("success"@) == s.get("success"@));
    assert(d.get("fail"@) == s.get("fail"@));
    assert(d.get("invalid_count"@) == s.get("invalid_count"@));
    if has_source(d) {
        law_settled_account_stays(d, later);
    }
    lemma_settled_again(d, later);
}

proof fn lemma_settled_again(d: JsonView, later: Seq<char>)
    requires
        settled_but_source(d),
    ensures
        normal_account(d, later) == Some(
            d.put("source_type"@, JsonView::Str(source_type(stated_source(d)))),
        ),
{
    broadcast use crate::value::group_fields;

    lemma_identified_stays(d);
    lemma_graded_stays(d);
    lemma_counters_stay(d);
    let m = d.put("source_type"@, JsonView::Str(source_type(stated_source(d))));
    assert(has_times(m)) by {
        lemma_time_lengths();
        assert(time_name("last_used_at"@));
        assert(time_name("last_invalid_at"@));
        assert(time_name("last_refresh_error"@));
        assert(time_name("last_refresh_error_at"@));
        assert(time_name("last_token_refresh_at"@));
        assert(time_name("last_token_refresh_error"@));
        assert(time_name("last_token_refresh_error_at"@));
        assert(time_name("created_at"@));
    }
    lemma_dated_stays(m, later);
}

proof fn lemma_time_lengths()
    ensures
        !time_name("password"@),
        !grade_name("password"@),
        !source_name("password"@),
        forall|k: Seq<char>| #[trigger] time_name(k) ==> k != "source_type"@,
{
    reveal_strlit("last_used_at");
    reveal_strlit("last_invalid_at");
    reveal_strlit("last_refresh_error");
    reveal_strlit("last_refresh_error_at");
    reveal_strlit("last_token_refresh_at");
    reveal_strlit("last_token_refresh_error");
    reveal_strlit("last_token_refresh_error_at");
    reveal_strlit("created_at");
    reveal_strlit("type");
    reveal_strlit("status");
    reveal_strlit("quota");
    reveal_strlit("image_quota_unknown");
    reveal_strlit("email");
    reveal_strlit("user_id");
    reveal_strlit("proxy");
    reveal_strlit("source_type");
    reveal_strlit("limits_progress");
    reveal_strlit("default_model_slug");
    reveal_strlit("restore_at");
    reveal_strlit("success");
    reveal_strlit("fail");
    reveal_strlit("invalid_count");
    reveal_strlit("password");
    assert("last_used_at"@.len() == 12 && "last_used_at"@[0] == 'l');
    assert("last_invalid_at"@.len() == 15 && "last_invalid_at"@[0] == 'l');
    assert("last_refresh_error"@.len() == 18 && "last_refresh_error"@[0] == 'l');
    assert("last_refresh_error_at"@.len() == 21 && "last_refresh_error_at"@[0] == 'l');
    assert("last_token_refresh_at"@.len() == 21 && "last_token_refresh_at"@[0] == 'l');
    assert("last_token_refresh_error"@.len() == 24 && "last_token_refresh_error"@[0] == 'l');
    assert("last_token_refresh_error_at"@.len() == 27 && "last_token_refresh_error_at"@[0] == 'l');
    assert("created_at"@.len() == 10 && "created_at"@[0] == 'c');
    assert("type"@.len() == 4 && "type"@[0] == 't');
    assert("status"@.len() == 6 && "status"@[0] == 's');
    assert("quota"@.len() == 5 && "quota"@[0] == 'q');
    assert("image_quota_unknown"@.len() == 19 && "image_quota_unknown"@[0] == 'i');
    assert("email"@.len() == 5 && "email"@[0] == 'e');
    assert("user_id"@.len() == 7 && "user_id"@[0] == 'u');
    assert("proxy"@.len() == 5 && "proxy"@[0] == 'p');
    assert("source_type"@.len() == 11 && "source_type"@[0] == 's');
    assert("limits_progress"@.len() == 15 && "limits_progress"@[0] == 'l');
    assert("default_model_slug"@.len() == 18 && "default_model_slug"@[0] == 'd');
    assert("restore_at"@.len() == 10 && "restore_at"@[0] == 'r');
    assert("success"@.len() == 7 && "success"@[0] == 's');
    assert("fail"@.len() == 4 && "fail"@[0] == 'f');
    assert("invalid_count"@.len() == 13 && "invalid_count"@[0] == 'i');
    assert("password"@.len() == 8 && "password"@[0] == 'p');
}

proof fn lemma_no_time_names()
    ensures
        !time_name("access_token"@),
        !time_name("accessToken"@),
        !time_name("type"@),
        !time_name("status"@),
        !time_name("quota"@),
        !time_name("image_quota_unknown"@),
        !time_name("email"@),
        !time_name("user_id"@),
        !time_name("proxy"@),
        !time_name("source_type"@),
        !time_name("limits_progress"@),
        !time_name("default_model_slug"@),
        !time_name("restore_at"@),
        !time_name("success"@),
        !time_name("fail"@),
        !time_name("invalid_count"@),
{
    reveal_strlit("access_token");
    reveal_strlit("accessToken");
    reveal_strlit("type");
    reveal_strlit("status");
    reveal_strlit("quota");
    reveal_strlit("image_quota_unknown");
    reveal_strlit("email");
    reveal_strlit("user_id");
    reveal_strlit("proxy");
    reveal_strlit("source_type");
    reveal_strlit("limits_progress");
    reveal_strlit("default_model_slug");
    reveal_strlit("restore_at");
    reveal_strlit("success");
    reveal_strlit("fail");
    reveal_strlit("invalid_count");
    reveal_strlit("last_used_at");
    reveal_strlit("last_invalid_at");
    reveal_strlit("last_refresh_error");
    reveal_strlit("last_refresh_error_at");
    reveal_strlit("last_token_refresh_at");
    reveal_strlit("last_token_refresh_error");
    reveal_strlit("last_token_refresh_error_at");
    reveal_strlit("created_at");
    assert("access_token"@.len() == 12 && "access_token"@[0] == 'a');
    assert("accessToken"@.len() == 11 && "accessToken"@[0] == 'a');
    assert("type"@.len() == 4 && "type"@[0] == 't');
    assert("status"@.len() == 6 && "status"@[0] == 's');
    assert("quota"@.len() == 5 && "quota"@[0] == 'q');
    assert("image_quota_unknown"@.len() == 19 && "image_quota_unknown"@[0] == 'i');
    assert("email"@.len() == 5 && "email"@[0] == 'e');
    assert("user_id"@.len() == 7 && "user_id"@[0] == 'u');
    assert("proxy"@.len() == 5 && "proxy"@[0] == 'p');
    assert("source_type"@.len() == 11 && "source_type"@[0] == 's');
    assert("limits_progress"@.len() == 15 && "limits_progress"@[0] == 'l');
    assert("default_model_slug"@.len() == 18 && "default_model_slug"@[0] == 'd');
    assert("restore_at"@.len() == 10 && "restore_at"@[0] == 'r');
    assert("success"@.len() == 7 && "success"@[0] == 's');
    assert("fail"@.len() == 4 && "fail"@[0] == 'f');
    assert("invalid_count"@.len() == 13 && "invalid_count"@[0] == 'i');
    assert("last_used_at"@.len() == 12 && "last_used_at"@[0] == 'l');
    assert("last_invalid_at"@.len() == 15 && "last_invalid_at"@[0] == 'l');
    assert("last_refresh_error"@.len() == 18 && "last_refresh_error"@[0] == 'l');
    assert("last_refresh_error_at"@.len() == 21 && "last_refresh_error_at"@[0] == 'l');
    assert("last_token_refresh_at"@.len() == 21 && "last_token_refresh_at"@[0] == 'l');
    assert("last_token_refresh_error"@.len() == 24 && "last_token_refresh_error"@[0] == 'l');
    assert("last_token_refresh_error_at"@.len() == 27 && "last_token_refresh_error_at"@[0] == 'l');
    assert("created_at"@.len() == 10 && "created_at"@[0] == 'c');
    assert("limits_progress"@[1] == 'i');
    assert("last_invalid_at"@[1] == 'a');
}

// ---------------------------------------------------------------------------
// pools
// ---------------------------------------------------------------------------

/// A pool of such accounts that is stored and loaded again holds the same accounts in the same
/// order.
pub proof fn law_stored_pool_read_back(p: PoolView, now: Seq<char>)
    requires
        p.wf(),
        forall|i: int| 0 <= i < p.entries.len() ==> settled_account((#[trigger] p.entries[i]).1),
    ensures
        loaded(p.accounts(), now) == p.entries,
    decreases p.entries.len(),
{
    let es = p.entries;
    if es.len() == 0 {
        assert(p.accounts() =~= Seq::empty());
        assert(es =~= Seq::empty());
    } else {
        let q = p.with_entries(es.drop_last());
        assert(q.wf());
        law_stored_pool_read_back(q, now);
        assert(p.accounts().drop_last() =~= q.accounts());
        let (t, a) = es.last();
        assert(is_at(a, "access_token"@, t));
        law_settled_account_stays(a, now);
        assert(p.accounts().last() == a);
        assert(raw_token(a) == t);
        lemma_put_at(es.drop_last(), t, a, es.len() - 1);
        assert(es.drop_last().push((t, a)) =~= es);
    }
}

} // verus!
