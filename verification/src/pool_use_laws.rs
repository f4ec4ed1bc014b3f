//! What accounts become when they are taken in, used, refreshed and found wanting, field by field,
//! and which of them are handed out.
use vstd::prelude::*;

use crate::account::{
    dated, graded, identified, image_ready, is_at, kept_or_null, merged, normal_account,
    payload_token, plan_of, prepared, raw_token, serves, source_type, sourced, stated_source,
    Wanted,
};
use crate::assoc::{
    distinct_names, drop_entry, lemma_lookup_drop, lemma_lookup_found, lemma_lookup_put,
    lemma_lookup_put_all, lookup, put_entry,
};
use crate::lists::{lemma_filtered_has, lemma_mapped_from, lemma_mapped_has};
use crate::pool::{bare_payload, loaded};
use crate::pool_model::{
    abnormal, cleared, combined, gathered, has_slot, image_done, incoming, invalid_once_more,
    lemma_found_wf, ready_token, text_token, with_tokens, PoolView,
};
use crate::text::{replaced, trimmed, unicode_lower, views};
use crate::value::{empty_object, int_json, or_else, JsonView};

verus! {

// ---------------------------------------------------------------------------
// fields
// ---------------------------------------------------------------------------

proof fn lemma_graded_fields(n: JsonView)
    requires
        n is Obj,
    ensures
        graded(n) is Obj,
        graded(n).get("type"@) == Some(JsonView::Str(or_else(n.str_at("type"@), "free"@))),
        graded(n).get("status"@) == Some(JsonView::Str(or_else(n.str_at("status"@), "正常"@))),
        graded(n).get("quota"@) == Some(
            int_json(
                if n.int_at("quota"@, 0) < 0 {
                    0
                } else {
                    n.int_at("quota"@, 0) as int
                },
            ),
        ),
        graded(n).get("image_quota_unknown"@) == Some(
            JsonView::Bool(n.bool_at("image_quota_unknown"@, false)),
        ),
        graded(n).get("email"@) == kept_or_null(n, "email"@).get("email"@),
        graded(n).get("user_id"@) == kept_or_null(n, "user_id"@).get("user_id"@),
        graded(n).get("proxy"@) == Some(JsonView::Str(trimmed(n.str_at("proxy"@)))),
        forall|k: Seq<char>| k != "type"@ && k != "status"@ && k != "quota"@ && k != "image_quota_unknown"@ && k != "email"@ && k != "user_id"@ && k != "proxy"@ ==> #[trigger] graded(n).get(k) == n.get(k),
{
    broadcast use crate::value::group_fields;

    reveal_strlit("type");
    reveal_strlit("status");
    reveal_strlit("quota");
    reveal_strlit("image_quota_unknown");
    reveal_strlit("email");
    reveal_strlit("user_id");
    reveal_strlit("proxy");
    assert("type"@.len() == 4);
    assert("status"@.len() == 6);
    assert("quota"@.len() == 5 && "quota"@[0] == 'q');
    assert("image_quota_unknown"@.len() == 19);
    assert("email"@.len() == 5 && "email"@[0] == 'e');
    assert("user_id"@.len() == 7);
    assert("proxy"@.len() == 5 && "proxy"@[0] == 'p');
}

proof fn lemma_sourced_fields(n: JsonView)
    requires
        n is Obj,
    ensures
        sourced(n) is Obj,
        sourced(n).get("source_type"@) == Some(JsonView::Str(source_type(stated_source(n)))),
        sourced(n).get("limits_progress"@) == Some(JsonView::Arr(n.items_at("limits_progress"@))),
        sourced(n).get("default_model_slug"@) == kept_or_null(n, "default_model_slug"@).get(
            "default_model_slug"@,
        ),
        sourced(n).get("restore_at"@) == kept_or_null(n, "restore_at"@).get("restore_at"@),
        sourced(n).get("success"@) == Some(int_json(n.int_at("success"@, 0) as int)),
        sourced(n).get("fail"@) == Some(int_json(n.int_at("fail"@, 0) as int)),
        sourced(n).get("invalid_count"@) == Some(int_json(n.int_at("invalid_count"@, 0) as int)),
        forall|k: Seq<char>| k != "source_type"@ && k != "limits_progress"@ && k != "default_model_slug"@ && k != "restore_at"@ && k != "success"@ && k != "fail"@ && k != "invalid_count"@ ==> #[trigger] sourced(n).get(k) == n.get(k),
{
    broadcast use crate::value::group_fields;

    reveal_strlit("source_type");
    reveal_strlit("limits_progress");
    reveal_strlit("default_model_slug");
    reveal_strlit("restore_at");
    reveal_strlit("success");
    reveal_strlit("fail");
    reveal_strlit("invalid_count");
    assert("source_type"@.len() == 11);
    assert("limits_progress"@.len() == 15);
    assert("default_model_slug"@.len() == 18);
    assert("restore_at"@.len() == 10);
    assert("success"@.len() == 7);
    assert("fail"@.len() == 4);
    assert("invalid_count"@.len() == 13);
}

proof fn lemma_dated_fields(n: JsonView, now: Seq<char>)
    requires
        n is Obj,
    ensures
        dated(n, now) is Obj,
        dated(n, now).get("created_at"@) == Some(JsonView::Str(or_else(n.str_at("created_at"@), now))),
        dated(n, now).get("last_used_at"@) == kept_or_null(n, "last_used_at"@).get("last_used_at"@),
        dated(n, now).get("last_invalid_at"@) == kept_or_null(n, "last_invalid_at"@).get("last_invalid_at"@),
        dated(n, now).get("last_refresh_error"@) == kept_or_null(n, "last_refresh_error"@).get("last_refresh_error"@),
        dated(n, now).get("last_refresh_error_at"@) == kept_or_null(n, "last_refresh_error_at"@).get("last_refresh_error_at"@),
        dated(n, now).get("last_token_refresh_at"@) == kept_or_null(n, "last_token_refresh_at"@).get("last_token_refresh_at"@),
        dated(n, now).get("last_token_refresh_error"@) == kept_or_null(n, "last_token_refresh_error"@).get("last_token_refresh_error"@),
        dated(n, now).get("last_token_refresh_error_at"@) == kept_or_null(n, "last_token_refresh_error_at"@).get("last_token_refresh_error_at"@),
        forall|k: Seq<char>| k != "last_used_at"@ && k != "last_invalid_at"@ && k != "last_refresh_error"@ && k != "last_refresh_error_at"@ && k != "last_token_refresh_at"@ && k != "last_token_refresh_error"@ && k != "last_token_refresh_error_at"@ && k != "created_at"@ ==> #[trigger] dated(n, now).get(k) == n.get(k),
{
    broadcast use crate::value::group_fields;

    reveal_strlit("last_used_at");
    reveal_strlit("last_invalid_at");
    reveal_strlit("last_refresh_error");
    reveal_strlit("last_refresh_error_at");
    reveal_strlit("last_token_refresh_at");
    reveal_strlit("last_token_refresh_error");
    reveal_strlit("last_token_refresh_error_at");
    reveal_strlit("created_at");
    assert("last_used_at"@.len() == 12);
    assert("last_invalid_at"@.len() == 15);
    assert("last_refresh_error"@.len() == 18);
    assert("last_refresh_error_at"@.len() == 21 && "last_refresh_error_at"@[5] == 'r');
    assert("last_token_refresh_at"@.len() == 21 && "last_token_refresh_at"@[5] == 't');
    assert("last_token_refresh_error"@.len() == 24);
    assert("last_token_refresh_error_at"@.len() == 27);
    assert("created_at"@.len() == 10);
}

/// A field that is kept as it is, but for an empty text, which becomes `null`.
pub open spec fn field_kept(item: JsonView, a: JsonView, k: Seq<char>) -> bool {
    a.get(k) == Some(
        match item.at(k) {
            JsonView::Str(s) => if s.len() == 0 {
                JsonView::Null
            } else {
                JsonView::Str(s)
            },
            other => other,
        },
    )
}

/// An account has the token, the plan, the state, the quota and the counters of the record that it
/// was made of: a state that the record gives is not changed, a quota is not raised, and what is
/// missing is `free`, `正常`, zero and now.
pub proof fn law_account_fields(item: JsonView, now: Seq<char>)
    requires
        item is Obj,
        raw_token(item).len() > 0,
    ensures
        normal_account(item, now) matches Some(a) && {
            &&& a is Obj
            &&& a.get("access_token"@) == Some(JsonView::Str(raw_token(item)))
            &&& a.get("accessToken"@) is None
            &&& item.str_at("status"@).len() > 0 ==> a.get("status"@) == item.get("status"@)
            &&& item.str_at("status"@).len() == 0 ==> a.get("status"@) == Some(
                JsonView::Str("正常"@),
            )
            &&& item.str_at("type"@).len() > 0 && unicode_lower(trimmed(item.str_at("type"@)))
                != "codex"@ ==> a.get("type"@) == item.get("type"@)
            &&& item.get("type"@) is None ==> a.get("type"@) == Some(JsonView::Str("free"@))
            &&& item.int_at("quota"@, 0) >= 0 ==> a.int_at("quota"@, 0) == item.int_at("quota"@, 0)
            &&& item.int_at("quota"@, 0) < 0 ==> a.int_at("quota"@, 0) == 0
            &&& a.bool_at("image_quota_unknown"@, false) == item.bool_at(
                "image_quota_unknown"@,
                false,
            )
            &&& a.str_at("proxy"@) == trimmed(item.str_at("proxy"@))
            &&& a.items_at("limits_progress"@) == item.items_at("limits_progress"@)
            &&& a.int_at("success"@, 0) == item.int_at("success"@, 0)
            &&& a.int_at("fail"@, 0) == item.int_at("fail"@, 0)
            &&& a.int_at("invalid_count"@, 0) == item.int_at("invalid_count"@, 0)
            &&& item.str_at("created_at"@).len() > 0 ==> a.get("created_at"@) == item.get(
                "created_at"@,
            )
            &&& item.str_at("created_at"@).len() == 0 ==> a.get("created_at"@) == Some(
                JsonView::Str(now),
            )
            &&& field_kept(item, a, "email"@)
            &&& field_kept(item, a, "user_id"@)
            &&& field_kept(item, a, "default_model_slug"@)
            &&& field_kept(item, a, "restore_at"@)
            &&& field_kept(item, a, "last_used_at"@)
            &&& field_kept(item, a, "last_invalid_at"@)
            &&& field_kept(item, a, "last_refresh_error"@)
            &&& field_kept(item, a, "last_refresh_error_at"@)
            &&& field_kept(item, a, "last_token_refresh_at"@)
            &&& field_kept(item, a, "last_token_refresh_error"@)
            &&& field_kept(item, a, "last_token_refresh_error_at"@)
            &&& forall|k: Seq<char>|
                k != "access_token"@ && k != "accessToken"@ && k != "export_type"@ && k != "type"@ && k != "status"@ && k != "quota"@ && k != "image_quota_unknown"@ && k != "email"@ && k != "user_id"@ && k != "proxy"@ && k != "source_type"@ && k != "limits_progress"@ && k != "default_model_slug"@ && k != "restore_at"@ && k != "success"@ && k != "fail"@ && k != "invalid_count"@ && k != "last_used_at"@ && k != "last_invalid_at"@ && k != "last_refresh_error"@ && k != "last_refresh_error_at"@ && k != "last_token_refresh_at"@ && k != "last_token_refresh_error"@ && k != "last_token_refresh_error_at"@ && k != "created_at"@ ==> #[trigger] a.get(k)
                    == item.get(k)
        },
{
    broadcast use crate::value::group_fields;

    reveal_strlit("access_token");
    reveal_strlit("accessToken");
    reveal_strlit("export_type");
    reveal_strlit("type");
    reveal_strlit("status");
    reveal_strlit("quota");
    reveal_strlit("image_quota_unknown");
    reveal_strlit("email");
    reveal_strlit("user_id");
    reveal_strlit("proxy");
    reveal_strlit("source_type");
    reveal_strlit("limits_progress");
    reveal_strlit("default_model_slug");
    reveal_strlit("restore_at");
    reveal_strlit("success");
    reveal_strlit("fail");
    reveal_strlit("invalid_count");
    reveal_strlit("last_used_at");
    reveal_strlit("last_invalid_at");
    reveal_strlit("last_refresh_error");
    reveal_strlit("last_refresh_error_at");
    reveal_strlit("last_token_refresh_at");
    reveal_strlit("last_token_refresh_error");
    reveal_strlit("last_token_refresh_error_at");
    reveal_strlit("created_at");
    assert("access_token"@.len() == 12 && "access_token"@[0] == 'a');
    assert("accessToken"@.len() == 11 && "accessToken"@[0] == 'a');
    assert("export_type"@.len() == 11 && "export_type"@[0] == 'e');
    assert("type"@.len() == 4 && "type"@[0] == 't');
    assert("status"@.len() == 6);
    assert("quota"@.len() == 5 && "quota"@[0] == 'q');
    assert("image_quota_unknown"@.len() == 19);
    assert("email"@.len() == 5 && "email"@[0] == 'e');
    assert("user_id"@.len() == 7 && "user_id"@[0] == 'u');
    assert("proxy"@.len() == 5 && "proxy"@[0] == 'p');
    assert("source_type"@.len() == 11 && "source_type"@[0] == 's');
    assert("limits_progress"@.len() == 15 && "limits_progress"@[1] == 'i');
    assert("default_model_slug"@.len() == 18 && "default_model_slug"@[0] == 'd');
    assert("restore_at"@.len() == 10 && "restore_at"@[0] == 'r');
    assert("success"@.len() == 7 && "success"@[0] == 's');
    assert("fail"@.len() == 4 && "fail"@[0] == 'f');
    assert("invalid_count"@.len() == 13);
    assert("last_used_at"@.len() == 12 && "last_used_at"@[0] == 'l');
    assert("last_invalid_at"@.len() == 15 && "last_invalid_at"@[1] == 'a');
    assert("last_refresh_error"@.len() == 18 && "last_refresh_error"@[0] == 'l');
    assert("last_refresh_error_at"@.len() == 21 && "last_refresh_error_at"@[5] == 'r');
    assert("last_token_refresh_at"@.len() == 21 && "last_token_refresh_at"@[5] == 't');
    assert("last_token_refresh_error"@.len() == 24);
    assert("last_token_refresh_error_at"@.len() == 27);
    assert("created_at"@.len() == 10 && "created_at"@[0] == 'c');
    let n = identified(item);
    assert(n is Obj);
    lemma_graded_fields(n);
    let g = graded(n);
    lemma_sourced_fields(g);
    let s = sourced(g);
    lemma_dated_fields(s, now);
    let a = dated(s, now);
    assert(normal_account(item, now) == Some(a));
    assert forall|k: Seq<char>| k != "type"@ && k != "export_type"@ && k != "access_token"@ && k
        != "accessToken"@ implies #[trigger] n.get(k) == item.get(k) by {}
    assert(unicode_lower(crate::account::field_trim(item, "type"@)) != "codex"@ ==> n.get("type"@)
        == item.get("type"@));
    if item.str_at("type"@).len() > 0 {
        assert(crate::account::field_trim(item, "type"@) == trimmed(item.str_at("type"@)));
    }
    assert(a.get("status"@) == g.get("status"@));
    assert(a.get("type"@) == g.get("type"@));
    assert(a.get("quota"@) == g.get("quota"@));
    assert(a.get("image_quota_unknown"@) == g.get("image_quota_unknown"@));
    assert(a.get("email"@) == g.get("email"@));
    assert(a.get("user_id"@) == g.get("user_id"@));
    assert(a.get("proxy"@) == g.get("proxy"@));
    assert(a.get("access_token"@) == n.get("access_token"@));
    assert(a.get("accessToken"@) == n.get("accessToken"@));
    assert(a.get("limits_progress"@) == s.get("limits_progress"@));
    assert(a.get("success"@) == s.get("success"@));
    assert(a.get("fail"@) == s.get("fail"@));
    assert(a.get("invalid_count"@) == s.get("invalid_count"@));
    assert(a.get("default_model_slug"@) == s.get("default_model_slug"@));
    assert(a.get("restore_at"@) == s.get("restore_at"@));
    assert forall|k: Seq<char>|
        k != "access_token"@ && k != "accessToken"@ && k != "export_type"@ && k != "type"@ && k != "status"@ && k != "quota"@ && k != "image_quota_unknown"@ && k != "email"@ && k != "user_id"@ && k != "proxy"@ && k != "source_type"@ && k != "limits_progress"@ && k != "default_model_slug"@ && k != "restore_at"@ && k != "success"@ && k != "fail"@ && k != "invalid_count"@ && k != "last_used_at"@ && k != "last_invalid_at"@ && k != "last_refresh_error"@ && k != "last_refresh_error_at"@ && k != "last_token_refresh_at"@ && k != "last_token_refresh_error"@ && k != "last_token_refresh_error_at"@ && k != "created_at"@ implies #[trigger] a.get(k) == item.get(k) by {
        assert(a.get(k) == s.get(k));
        assert(s.get(k) == g.get(k));
        assert(g.get(k) == n.get(k));
    }
}

// ---------------------------------------------------------------------------
// who is handed out
// ---------------------------------------------------------------------------

/// The accounts that are handed out for text are those that are neither disabled nor found to be
/// abnormal, but for the excluded ones: no other, and none of them is passed over.
pub proof fn law_text_accounts(p: PoolView, excluded: Seq<Seq<char>>, t: Seq<char>)
    requires
        p.wf(),
    ensures
        p.talkative(excluded).contains(t) <==> {
            &&& lookup(p.entries, t) is Some
            &&& (lookup(p.entries, t)->0).get("status"@) != Some(JsonView::Str("禁用"@))
            &&& (lookup(p.entries, t)->0).get("status"@) != Some(JsonView::Str("异常"@))
            &&& !excluded.contains(t)
        },
{
    let f = text_token(excluded);
    lemma_lookup_found(p.entries, t);
    if p.talkative(excluded).contains(t) {
        lemma_mapped_from(p.entries, f, t);
        let i = choose|i: int| 0 <= i < p.entries.len() && f(#[trigger] p.entries[i]) == Some(t);
        let e = p.entries[i];
        assert(is_at(e.1, "access_token"@, e.0));
        assert(e.0 == t);
        let v = lookup(p.entries, t)->0;
        let j = choose|j: int| 0 <= j < p.entries.len() && #[trigger] p.entries[j] == (t, v);
        assert(i == j);
    }
    if lookup(p.entries, t) is Some {
        let v = lookup(p.entries, t)->0;
        lemma_found_wf(p, t);
        let j = choose|j: int| 0 <= j < p.entries.len() && #[trigger] p.entries[j] == (t, v);
        if !is_at(v, "status"@, "禁用"@) && !is_at(v, "status"@, "异常"@) && !excluded.contains(t) {
            lemma_mapped_has(p.entries, f, j);
        }
    }
}

/// The tokens that are ready for an image are those of the accounts that can serve it, but for the
/// excluded ones; those with fewer slots taken than they may have are free.
pub proof fn law_image_accounts(
    p: PoolView,
    excluded: Seq<Seq<char>>,
    wanted: Wanted,
    limit: int,
    t: Seq<char>,
)
    requires
        p.wf(),
    ensures
        p.ready(excluded, wanted).contains(t) <==> lookup(p.entries, t) is Some && serves(
            lookup(p.entries, t)->0,
            wanted,
        ) && !excluded.contains(t),
        p.available(excluded, wanted, limit).contains(t) <==> p.ready(excluded, wanted).contains(t)
            && (p.inflight.dom().contains(t) ==> p.inflight[t] < limit) && (!p.inflight.dom().contains(
            t,
        ) ==> 0 < limit),
{
    let f = ready_token(excluded, wanted);
    lemma_lookup_found(p.entries, t);
    lemma_filtered_has(p.ready(excluded, wanted), has_slot(p, limit), t);
    if p.ready(excluded, wanted).contains(t) {
        lemma_mapped_from(p.entries, f, t);
        let i = choose|i: int| 0 <= i < p.entries.len() && f(#[trigger] p.entries[i]) == Some(t);
        let e = p.entries[i];
        assert(is_at(e.1, "access_token"@, e.0));
        assert(e.0 == t);
        let v = lookup(p.entries, t)->0;
        let j = choose|j: int| 0 <= j < p.entries.len() && #[trigger] p.entries[j] == (t, v);
        assert(i == j);
    }
    if lookup(p.entries, t) is Some {
        let v = lookup(p.entries, t)->0;
        lemma_found_wf(p, t);
        let j = choose|j: int| 0 <= j < p.entries.len() && #[trigger] p.entries[j] == (t, v);
        if serves(v, wanted) && !excluded.contains(t) {
            lemma_mapped_has(p.entries, f, j);
        }
    }
}

/// An account can make an image where it is neither disabled nor limited nor abnormal and has some
/// quota left, or none that is known.
pub proof fn law_image_ready(a: JsonView)
    requires
        a is Obj,
    ensures
        image_ready(a) <==> {
            &&& a.get("status"@) != Some(JsonView::Str("禁用"@))
            &&& a.get("status"@) != Some(JsonView::Str("限流"@))
            &&& a.get("status"@) != Some(JsonView::Str("异常"@))
            &&& a.get("image_quota_unknown"@) == Some(JsonView::Bool(true)) || (a.get("quota"@) matches Some(
                JsonView::Num(n),
            ) && n.int is Some && n.int->0 > 0)
        },
{
    reveal_strlit("禁用");
    reveal_strlit("限流");
    reveal_strlit("异常");
    assert("禁用"@.len() == 2 && "限流"@.len() == 2 && "异常"@.len() == 2);
}

/// A request that asks for a plan is served by accounts of that plan only, under whatever name and
/// in whatever case; one that asks for a source by accounts of that source only.
pub proof fn law_wanted_is_served(a: JsonView, wanted: Wanted)
    ensures
        serves(a, wanted) ==> image_ready(a),
        wanted.plan_type matches Some(p) ==> serves(a, wanted) && p@.len() > 0 ==> plan_of(
            a.at("type"@),
        ) is Some && plan_of(JsonView::Str(p@)) is Some && unicode_lower(
            plan_of(a.at("type"@))->0,
        ) == unicode_lower(plan_of(JsonView::Str(p@))->0),
        wanted.source_type matches Some(s) ==> serves(a, wanted) && s@.len() > 0 ==> source_type(
            a.at("source_type"@),
        ) == source_type(JsonView::Str(s@)),
        wanted.plan_types@.len() > 0 && serves(a, wanted) ==> exists|i: int|
            0 <= i < wanted.plan_types@.len() && plan_of(
                JsonView::Str((#[trigger] wanted.plan_types@[i])@),
            ) == plan_of(a.at("type"@)),
        image_ready(a) && wanted.plan_type is None && wanted.source_type is None
            && wanted.plan_types@.len() == 0 ==> serves(a, wanted),
{
    let v = views(wanted.plan_types@);
    assert(v.len() == wanted.plan_types@.len());
    if wanted.plan_types@.len() > 0 && serves(a, wanted) {
        let i = choose|i: int|
            0 <= i < v.len() && plan_of(JsonView::Str(#[trigger] v[i])) == Some(
                plan_of(a.at("type"@))->0,
            );
        assert(v[i] == wanted.plan_types@[i]@);
    }
}

proof fn lemma_replaced_nothing(s: Seq<char>, c: char, w: Seq<char>)
    requires
        !s.contains(c),
    ensures
        replaced(s, c, w) == s,
    decreases s.len(),
{
    if s.len() > 0 {
        assert(s.last() == s[s.len() - 1]);
        assert forall|i: int| 0 <= i < s.len() - 1 implies s.drop_last()[i] != c by {
            assert(s[i] == s.drop_last()[i]);
        }
        lemma_replaced_nothing(s.drop_last(), c, w);
        assert(s.drop_last() + seq![s.last()] =~= s);
    } else {
        assert(replaced(s, c, w) =~= s);
    }
}

proof fn lemma_plain_plan(s: Seq<char>, k: Seq<char>)
    requires
        unicode_lower(trimmed(s)) == k,
        k.len() > 0,
        !k.contains('-'),
        !k.contains(' '),
        !k.contains('_'),
    ensures
        trimmed(s).len() > 0,
        crate::account::plan_key(trimmed(s)) == k,
        replaced(k, '_', ""@) == k,
{
    lemma_replaced_nothing(k, '-', "_"@);
    lemma_replaced_nothing(k, ' ', "_"@);
    lemma_replaced_nothing(k, '_', ""@);
    if trimmed(s).len() == 0 {
        assert(crate::text::is_ascii(trimmed(s)));
        assert(unicode_lower(trimmed(s)).len() == 0);
    }
}

/// The plans have one name each, in whatever case they come.
pub proof fn law_plan_names(s: Seq<char>)
    ensures
        unicode_lower(trimmed(s)) == "free"@ ==> plan_of(JsonView::Str(s)) == Some("free"@),
        unicode_lower(trimmed(s)) == "plus"@ ==> plan_of(JsonView::Str(s)) == Some("Plus"@),
        unicode_lower(trimmed(s)) == "pro"@ ==> plan_of(JsonView::Str(s)) == Some("Pro"@),
        unicode_lower(trimmed(s)) == "prolite"@ ==> plan_of(JsonView::Str(s)) == Some("ProLite"@),
        unicode_lower(trimmed(s)) == "team"@ ==> plan_of(JsonView::Str(s)) == Some("Team"@),
        unicode_lower(trimmed(s)) == "business"@ ==> plan_of(JsonView::Str(s)) == Some("Team"@),
        unicode_lower(trimmed(s)) == "enterprise"@ ==> plan_of(JsonView::Str(s)) == Some("Enterprise"@),
        trimmed(s).len() == 0 ==> plan_of(JsonView::Str(s)) is None,
        trimmed(s).len() > 0 ==> plan_of(JsonView::Str(s)) is Some,
{
    let k = unicode_lower(trimmed(s));
    reveal_strlit("free");
    reveal_strlit("plus");
    reveal_strlit("pro");
    reveal_strlit("prolite");
    reveal_strlit("team");
    reveal_strlit("business");
    reveal_strlit("enterprise");
    assert("free"@.len() == 4 && "free"@[0] == 'f');
    assert("plus"@.len() == 4 && "plus"@[0] == 'p');
    assert("pro"@.len() == 3);
    assert("prolite"@.len() == 7);
    assert("team"@.len() == 4 && "team"@[0] == 't');
    assert("business"@.len() == 8);
    assert("enterprise"@.len() == 10);
    if k == "free"@ || k == "plus"@ || k == "pro"@ || k == "prolite"@ || k == "team"@ || k
        == "business"@ || k == "enterprise"@ {
        assert(!"free"@.contains('-') && !"free"@.contains(' ') && !"free"@.contains('_'));
        assert(!"plus"@.contains('-') && !"plus"@.contains(' ') && !"plus"@.contains('_'));
        assert(!"pro"@.contains('-') && !"pro"@.contains(' ') && !"pro"@.contains('_'));
        assert(!"prolite"@.contains('-') && !"prolite"@.contains(' ') && !"prolite"@.contains('_'));
        assert(!"team"@.contains('-') && !"team"@.contains(' ') && !"team"@.contains('_'));
        assert(!"business"@.contains('-') && !"business"@.contains(' ') && !"business"@.contains(
            '_',
        ));
        assert(!"enterprise"@.contains('-') && !"enterprise"@.contains(' ')
            && !"enterprise"@.contains('_'));
        lemma_plain_plan(s, k);
    }
}

/// A source is the word that is given, in lower case and without white space at its ends, or `web`.
pub proof fn law_source_names(s: Seq<char>)
    ensures
        unicode_lower(trimmed(s)).len() > 0 ==> source_type(JsonView::Str(s)) == unicode_lower(
            trimmed(s),
        ),
        trimmed(s).len() == 0 ==> source_type(JsonView::Str(s)) == "web"@,
        source_type(JsonView::Null) == "web"@,
{
    if trimmed(s).len() == 0 {
        assert(unicode_lower(trimmed(s)).len() == 0);
    }
}

// ---------------------------------------------------------------------------
// changes
// ---------------------------------------------------------------------------

/// Fields that are merged in win over those that were there, which stay otherwise.
pub proof fn law_merged_fields(a: JsonView, b: JsonView, k: Seq<char>)
    requires
        a is Obj,
        b is Obj,
        distinct_names(b->Obj_0),
    ensures
        merged(a, b) is Obj,
        b.get(k) is Some ==> merged(a, b).get(k) == b.get(k),
        b.get(k) is None ==> merged(a, b).get(k) == a.get(k),
{
    lemma_lookup_put_all(a->Obj_0, b->Obj_0, k);
}

/// An account that is put in under its token is found there, and every other one as before.
proof fn lemma_renewed(p: PoolView, t: Seq<char>, record: JsonView, now: Seq<char>, other: Seq<char>)
    requires
        record is Obj,
        raw_token(record) == t,
        t.len() > 0,
    ensures
        lookup(p.renewed(t, record, now).entries, t) == normal_account(record, now),
        normal_account(record, now) is Some,
        other != t ==> lookup(p.renewed(t, record, now).entries, other) == lookup(p.entries, other),
        p.renewed(t, record, now).aliases == p.aliases,
        p.renewed(t, record, now).inflight == p.inflight,
        p.renewed(t, record, now).index == p.index,
{
    let a = normal_account(record, now)->0;
    lemma_lookup_put(p.entries, t, a, t);
    lemma_lookup_put(p.entries, t, a, other);
}

/// An update sets the fields that it names, but the token, and leaves every other account alone.
/// An account that it leaves limited is dropped where limited ones are, and kept where not.
pub proof fn law_updated_account(
    p: PoolView,
    token: Seq<char>,
    updates: JsonView,
    drop_limited: bool,
    now: Seq<char>,
    other: Seq<char>,
)
    requires
        p.wf(),
        p.find(token) is Some,
        updates is Obj,
        distinct_names(updates->Obj_0),
    ensures
        ({
            let t = p.resolve(token);
            let a = lookup(p.entries, t)->0;
            let (q, r) = p.updated(token, updates, drop_limited, now);
            let status = if updates.get("status"@) is Some {
                updates.at("status"@)
            } else {
                a.at("status"@)
            };
            &&& drop_limited && status == JsonView::Str("限流"@) ==> r is None && lookup(
                q.entries,
                t,
            ) is None
            &&& !(drop_limited && status == JsonView::Str("限流"@)) ==> r is Some && lookup(
                q.entries,
                t,
            ) == r
            &&& r matches Some(n) ==> {
                &&& n.str_at("access_token"@) == t
                &&& updates.str_at("status"@).len() > 0 ==> n.get("status"@) == updates.get(
                    "status"@,
                )
                &&& updates.get("status"@) is None && a.str_at("status"@).len() > 0 ==> n.get(
                    "status"@,
                ) == a.get("status"@)
                &&& updates.get("quota"@) is Some && updates.int_at("quota"@, 0) >= 0 ==> n.int_at(
                    "quota"@,
                    0,
                ) == updates.int_at("quota"@, 0)
                &&& updates.get("quota"@) is None && a.int_at("quota"@, 0) >= 0 ==> n.int_at(
                    "quota"@,
                    0,
                ) == a.int_at("quota"@, 0)
                &&& updates.get("proxy"@) is Some ==> n.str_at("proxy"@) == trimmed(
                    updates.str_at("proxy"@),
                )
                &&& updates.str_at("restore_at"@).len() > 0 ==> n.get("restore_at"@)
                    == updates.get("restore_at"@)
                &&& updates.str_at("email"@).len() > 0 ==> n.get("email"@) == updates.get("email"@)
                &&& updates.get("invalid_count"@) is None ==> n.int_at("invalid_count"@, 0) == a.int_at(
                    "invalid_count"@,
                    0,
                )
                &&& updates.get("last_refresh_error"@) is None ==> field_kept(
                    a,
                    n,
                    "last_refresh_error"@,
                )
            }
            &&& other != t ==> lookup(q.entries, other) == lookup(p.entries, other)
            &&& q.inflight == p.inflight
            &&& q.aliases == p.aliases
        }),
{
    broadcast use crate::value::group_fields;

    let t = p.resolve(token);
    let a = lookup(p.entries, t)->0;
    lemma_found_wf(p, t);
    reveal_strlit("access_token");
    reveal_strlit("status");
    reveal_strlit("quota");
    reveal_strlit("proxy");
    reveal_strlit("restore_at");
    reveal_strlit("email");
    reveal_strlit("accessToken");
    reveal_strlit("限流");
    reveal_strlit("正常");
    assert("access_token"@.len() == 12);
    assert("status"@.len() == 6);
    assert("quota"@.len() == 5 && "quota"@[0] == 'q');
    assert("proxy"@.len() == 5 && "proxy"@[0] == 'p');
    assert("restore_at"@.len() == 10);
    assert("email"@.len() == 5 && "email"@[0] == 'e');
    assert("accessToken"@.len() == 11);
    assert("限流"@.len() == 2 && "限流"@[0] == '限');
    assert("正常"@.len() == 2 && "正常"@[0] == '正');
    law_merged_fields(a, updates, "status"@);
    law_merged_fields(a, updates, "quota"@);
    law_merged_fields(a, updates, "proxy"@);
    law_merged_fields(a, updates, "restore_at"@);
    law_merged_fields(a, updates, "email"@);
    law_merged_fields(a, updates, "invalid_count"@);
    law_merged_fields(a, updates, "last_refresh_error"@);
    reveal_strlit("invalid_count");
    reveal_strlit("last_refresh_error");
    assert("invalid_count"@.len() == 13 && "last_refresh_error"@.len() == 18);
    let record = merged(a, updates).put("access_token"@, JsonView::Str(t));
    assert(raw_token(record) == t);
    law_account_fields(record, now);
    let n = normal_account(record, now)->0;
    assert(record.get("status"@) == merged(a, updates).get("status"@));
    assert(record.get("quota"@) == merged(a, updates).get("quota"@));
    lemma_lookup_put(p.entries, t, n, t);
    lemma_lookup_put(p.entries, t, n, other);
    lemma_lookup_drop(p.entries, t, t);
    lemma_lookup_drop(p.entries, t, other);
}

/// An account whose token was found to be invalid is abnormal from then on, with no quota; where
/// invalid ones are dropped it is gone. Either way it is handed out no more, neither for text nor
/// for images.
pub proof fn law_invalid_account_is_not_used(
    p: PoolView,
    token: Seq<char>,
    drop_invalid: bool,
    drop_limited: bool,
    now: Seq<char>,
    excluded: Seq<Seq<char>>,
    wanted: Wanted,
)
    requires
        p.wf(),
        p.find(token) is Some,
    ensures
        ({
            let t = p.resolve(token);
            let (q, gone) = p.invalidated(token, drop_invalid, drop_limited, now);
            &&& gone == drop_invalid
            &&& drop_invalid ==> lookup(q.entries, t) is None
            &&& !drop_invalid ==> {
                &&& lookup(q.entries, t) is Some
                &&& (lookup(q.entries, t)->0).get("status"@) == Some(JsonView::Str("异常"@))
                &&& (lookup(q.entries, t)->0).int_at("quota"@, 1) == 0
                &&& !image_ready(lookup(q.entries, t)->0)
            }
            &&& q.wf() ==> !q.talkative(excluded).contains(t)
            &&& q.wf() ==> !q.ready(excluded, wanted).contains(t)
        }),
{
    broadcast use crate::value::group_fields;

    let t = p.resolve(token);
    let a = lookup(p.entries, t)->0;
    lemma_found_wf(p, t);
    reveal_strlit("status");
    reveal_strlit("quota");
    reveal_strlit("限流");
    reveal_strlit("异常");
    reveal_strlit("禁用");
    reveal_strlit("正常");
    assert("status"@.len() == 6);
    assert("quota"@.len() == 5);
    assert("限流"@.len() == 2 && "限流"@[0] == '限');
    assert("异常"@.len() == 2 && "异常"@[0] == '异');
    assert("禁用"@.len() == 2 && "禁用"@[0] == '禁');
    assert("正常"@.len() == 2 && "正常"@[0] == '正');
    let u = abnormal();
    assert(u.get("status"@) == Some(JsonView::Str("异常"@)));
    assert(u.get("quota"@) == Some(int_json(0)));
    assert(u->Obj_0 =~= seq![("status"@, JsonView::Str("异常"@)), ("quota"@, int_json(0))]) by {
        reveal_with_fuel(put_entry, 3);
        let first = seq![("status"@, JsonView::Str("异常"@))];
        assert(empty_object().put("status"@, JsonView::Str("异常"@))->Obj_0 =~= first);
        assert(first.drop_first() =~= Seq::empty());
    }
    assert(distinct_names(u->Obj_0));
    let tokens = seq![token];
    let (q, gone) = p.invalidated(token, drop_invalid, drop_limited, now);
    if drop_invalid {
        crate::pool_laws::law_deleted_gone(p, tokens, 0, t);
        let without = p.deleted(tokens);
        let g = p.targets(tokens);
        lemma_fewer(p.entries, g, t);
        assert(g.len() > 0) by {
            assert(tokens.drop_last() =~= Seq::<Seq<char>>::empty());
            assert(p.targets(tokens.drop_last()) =~= Seq::<Seq<char>>::empty());
            assert(tokens.last() == token);
        }
        assert(g.contains(t)) by {
            assert(tokens.drop_last() =~= Seq::<Seq<char>>::empty());
            assert(p.targets(tokens)[0] == t);
        }
        assert(without.entries.len() < p.entries.len());
    } else {
        law_updated_account(p, token, u, drop_limited, now, t);
        let record = merged(a, u).put("access_token"@, JsonView::Str(t));
        let n = lookup(q.entries, t)->0;
        lemma_status_quota(a, u, t, now);
    }
    if q.wf() {
        law_text_accounts(q, excluded, t);
        law_image_accounts(q, excluded, wanted, 1, t);
    }
}

proof fn lemma_status_quota(a: JsonView, u: JsonView, t: Seq<char>, now: Seq<char>)
    requires
        a is Obj,
        u is Obj,
        distinct_names(u->Obj_0),
        t.len() > 0,
        u.get("quota"@) == Some(int_json(0)),
    ensures
        ({
            let record = merged(a, u).put("access_token"@, JsonView::Str(t));
            normal_account(record, now) matches Some(n) && n.int_at("quota"@, 1) == 0
        }),
{
    broadcast use crate::value::group_fields;

    reveal_strlit("access_token");
    reveal_strlit("accessToken");
    reveal_strlit("export_type");
    reveal_strlit("type");
    reveal_strlit("status");
    reveal_strlit("quota");
    reveal_strlit("image_quota_unknown");
    reveal_strlit("email");
    reveal_strlit("user_id");
    reveal_strlit("proxy");
    reveal_strlit("source_type");
    reveal_strlit("limits_progress");
    reveal_strlit("default_model_slug");
    reveal_strlit("restore_at");
    reveal_strlit("success");
    reveal_strlit("fail");
    reveal_strlit("invalid_count");
    reveal_strlit("last_used_at");
    reveal_strlit("last_invalid_at");
    reveal_strlit("last_refresh_error");
    reveal_strlit("last_refresh_error_at");
    reveal_strlit("last_token_refresh_at");
    reveal_strlit("last_token_refresh_error");
    reveal_strlit("last_token_refresh_error_at");
    reveal_strlit("created_at");
    assert("access_token"@.len() == 12 && "access_token"@[0] == 'a');
    assert("accessToken"@.len() == 11 && "accessToken"@[0] == 'a');
    assert("export_type"@.len() == 11 && "export_type"@[0] == 'e');
    assert("type"@.len() == 4 && "type"@[0] == 't');
    assert("status"@.len() == 6);
    assert("quota"@.len() == 5 && "quota"@[0] == 'q');
    assert("image_quota_unknown"@.len() == 19);
    assert("email"@.len() == 5 && "email"@[0] == 'e');
    assert("user_id"@.len() == 7 && "user_id"@[0] == 'u');
    assert("proxy"@.len() == 5 && "proxy"@[0] == 'p');
    assert("source_type"@.len() == 11 && "source_type"@[0] == 's');
    assert("limits_progress"@.len() == 15 && "limits_progress"@[1] == 'i');
    assert("default_model_slug"@.len() == 18 && "default_model_slug"@[0] == 'd');
    assert("restore_at"@.len() == 10 && "restore_at"@[0] == 'r');
    assert("success"@.len() == 7 && "success"@[0] == 's');
    assert("fail"@.len() == 4 && "fail"@[0] == 'f');
    assert("invalid_count"@.len() == 13);
    assert("last_used_at"@.len() == 12 && "last_used_at"@[0] == 'l');
    assert("last_invalid_at"@.len() == 15 && "last_invalid_at"@[1] == 'a');
    assert("last_refresh_error"@.len() == 18 && "last_refresh_error"@[0] == 'l');
    assert("last_refresh_error_at"@.len() == 21 && "last_refresh_error_at"@[5] == 'r');
    assert("last_token_refresh_at"@.len() == 21 && "last_token_refresh_at"@[5] == 't');
    assert("last_token_refresh_error"@.len() == 24);
    assert("last_token_refresh_error_at"@.len() == 27);
    assert("created_at"@.len() == 10 && "created_at"@[0] == 'c');
    law_merged_fields(a, u, "quota"@);
    let record = merged(a, u).put("access_token"@, JsonView::Str(t));
    assert(raw_token(record) == t);
    let n = identified(record);
    lemma_graded_fields(n);
    lemma_sourced_fields(graded(n));
    lemma_dated_fields(sourced(graded(n)), now);
    let d = dated(sourced(graded(n)), now);
    assert(d.get("quota"@) == graded(n).get("quota"@));
    assert(n.get("quota"@) == record.get("quota"@));
}

proof fn lemma_fewer(es: Seq<(Seq<char>, JsonView)>, gone: Seq<Seq<char>>, t: Seq<char>)
    ensures
        es.filter(crate::pool_model::outside(gone)).len() <= es.len(),
        lookup(es, t) is Some && gone.contains(t) ==> es.filter(
            crate::pool_model::outside(gone),
        ).len() < es.len(),
    decreases es.len(),
{
    reveal(Seq::filter);
    if es.len() > 0 {
        let init = es.drop_last();
        lemma_fewer(init, gone, t);
        lemma_lookup_found(es, t);
        lemma_lookup_found(init, t);
        if lookup(es, t) is Some && lookup(init, t) is None {
            let v = lookup(es, t)->0;
            let j = choose|j: int| 0 <= j < es.len() && #[trigger] es[j] == (t, v);
            if j < init.len() {
                assert(init[j].0 != t);
            }
            assert(es.last().0 == t);
        }
    }
}

/// A use notes when it was, and changes nothing else that the account says.
pub proof fn law_use_is_noted(p: PoolView, token: Seq<char>, at: Seq<char>, now: Seq<char>, other: Seq<char>)
    requires
        p.wf(),
        p.find(token) is Some,
        at.len() > 0,
    ensures
        ({
            let t = p.resolve(token);
            let a = lookup(p.entries, t)->0;
            let q = p.touched(token, "last_used_at"@, JsonView::Str(at), now);
            let n = lookup(q.entries, t)->0;
            &&& lookup(q.entries, t) is Some
            &&& n.get("last_used_at"@) == Some(JsonView::Str(at))
            &&& a.str_at("status"@).len() > 0 ==> n.get("status"@) == a.get("status"@)
            &&& a.int_at("quota"@, 0) >= 0 ==> n.int_at("quota"@, 0) == a.int_at("quota"@, 0)
            &&& other != t ==> lookup(q.entries, other) == lookup(p.entries, other)
            &&& q.inflight == p.inflight
        }),
{
    broadcast use crate::value::group_fields;

    let t = p.resolve(token);
    let a = lookup(p.entries, t)->0;
    lemma_found_wf(p, t);
    reveal_strlit("access_token");
    reveal_strlit("status");
    reveal_strlit("quota");
    reveal_strlit("last_used_at");
    reveal_strlit("accessToken");
    assert("access_token"@.len() == 12 && "access_token"@[0] == 'a');
    assert("status"@.len() == 6);
    assert("quota"@.len() == 5);
    assert("last_used_at"@.len() == 12 && "last_used_at"@[0] == 'l');
    assert("accessToken"@.len() == 11);
    let record = a.put("last_used_at"@, JsonView::Str(at));
    assert(raw_token(record) == t);
    law_account_fields(record, now);
    lemma_renewed(p, t, record, now, other);
}

/// The outcome of an image is counted: a success or a failure, and never both, with the time.
pub proof fn law_image_outcome_is_counted(a: JsonView, success: bool, at: Seq<char>)
    requires
        a is Obj,
        i64::MIN < a.int_at("success"@, 0) < i64::MAX,
        i64::MIN < a.int_at("fail"@, 0) < i64::MAX,
    ensures
        ({
            let n = image_done(a, success, at);
            &&& n is Obj
            &&& n.get("last_used_at"@) == Some(JsonView::Str(at))
            &&& n.get("access_token"@) == a.get("access_token"@)
            &&& n.int_at("success"@, 0) == a.int_at("success"@, 0) + (if success {
                1int
            } else {
                0
            })
            &&& n.int_at("fail"@, 0) == a.int_at("fail"@, 0) + (if success {
                0int
            } else {
                1
            })
            &&& success && a.bool_at("image_quota_unknown"@, false) ==> n.get("quota"@) == a.get(
                "quota"@,
            ) && n.get("status"@) != Some(JsonView::Str("限流"@))
            &&& success && !a.bool_at("image_quota_unknown"@, false) && a.int_at("quota"@, 0) <= 0
                ==> n.int_at("quota"@, 0) == 0 && n.get("status"@) == Some(JsonView::Str("限流"@))
        }),
{
    broadcast use crate::value::group_fields;

    reveal_strlit("success");
    reveal_strlit("fail");
    reveal_strlit("last_used_at");
    reveal_strlit("image_quota_unknown");
    reveal_strlit("quota");
    reveal_strlit("status");
    reveal_strlit("access_token");
    reveal_strlit("限流");
    reveal_strlit("正常");
    assert("success"@.len() == 7);
    assert("fail"@.len() == 4);
    assert("last_used_at"@.len() == 12 && "last_used_at"@[0] == 'l');
    assert("image_quota_unknown"@.len() == 19);
    assert("quota"@.len() == 5);
    assert("status"@.len() == 6);
    assert("access_token"@.len() == 12 && "access_token"@[0] == 'a');
    assert("限流"@.len() == 2 && "限流"@[0] == '限');
    assert("正常"@.len() == 2 && "正常"@[0] == '正');
}

/// After an image the slot is given back, and the account is as the image left it.
pub proof fn law_image_settled(
    p: PoolView,
    token: Seq<char>,
    success: bool,
    drop_limited: bool,
    at: Seq<char>,
    now: Seq<char>,
)
    requires
        p.wf(),
        p.find(token) is Some,
        p.released(token).resolve(token) == p.resolve(token),
    ensures
        ({
            let t = p.resolve(token);
            let a = lookup(p.entries, t)->0;
            let done = image_done(a, success, at);
            let (q, r) = p.image_settled(token, success, drop_limited, at, now);
            &&& p.slots(t) > 0 ==> q.slots(t) == p.slots(t) - 1
            &&& r is Some ==> r == normal_account(done, now) && lookup(q.entries, t) == r
            &&& r is None ==> drop_limited && lookup(q.entries, t) is None
            &&& !drop_limited ==> r is Some
        }),
{
    broadcast use crate::value::group_fields;

    let t = p.resolve(token);
    let a = lookup(p.entries, t)->0;
    lemma_found_wf(p, t);
    let s = p.released(token);
    reveal_strlit("success");
    reveal_strlit("fail");
    reveal_strlit("last_used_at");
    reveal_strlit("image_quota_unknown");
    reveal_strlit("quota");
    reveal_strlit("status");
    reveal_strlit("access_token");
    reveal_strlit("accessToken");
    reveal_strlit("限流");
    reveal_strlit("正常");
    assert("success"@.len() == 7);
    assert("fail"@.len() == 4);
    assert("last_used_at"@.len() == 12 && "last_used_at"@[0] == 'l');
    assert("image_quota_unknown"@.len() == 19);
    assert("quota"@.len() == 5);
    assert("status"@.len() == 6);
    assert("access_token"@.len() == 12 && "access_token"@[0] == 'a');
    assert("accessToken"@.len() == 11);
    assert("限流"@.len() == 2 && "限流"@[0] == '限');
    assert("正常"@.len() == 2 && "正常"@[0] == '正');
    let done = image_done(a, success, at);
    assert(done is Obj && raw_token(done) == t);
    let n = normal_account(done, now)->0;
    lemma_lookup_put(p.entries, t, n, t);
    lemma_lookup_drop(p.entries, t, t);
}

/// A token that is not accepted is counted, with the time and what was said of it.
pub proof fn law_invalid_is_counted(a: JsonView, error: Seq<char>, at: Seq<char>)
    requires
        a is Obj,
        i64::MIN < a.int_at("invalid_count"@, 0) < i64::MAX,
    ensures
        ({
            let n = invalid_once_more(a, error, at);
            &&& n.int_at("invalid_count"@, 0) == a.int_at("invalid_count"@, 0) + 1
            &&& n.get("last_invalid_at"@) == Some(JsonView::Str(at))
            &&& n.get("last_refresh_error_at"@) == Some(JsonView::Str(at))
            &&& error.len() > 0 ==> n.get("last_refresh_error"@) == Some(JsonView::Str(error))
            &&& error.len() == 0 ==> n.get("last_refresh_error"@) == Some(
                JsonView::Str("invalid access token"@),
            )
            &&& n.get("status"@) == a.get("status"@)
            &&& n.get("quota"@) == a.get("quota"@)
            &&& cleared(n).int_at("invalid_count"@, 1) == 0
            &&& cleared(n).get("last_invalid_at"@) == Some(JsonView::Null)
            &&& cleared(n).get("last_refresh_error"@) == Some(JsonView::Null)
            &&& cleared(n).get("last_refresh_error_at"@) == Some(JsonView::Null)
            &&& cleared(n).get("status"@) == a.get("status"@)
        }),
{
    broadcast use crate::value::group_fields;

    reveal_strlit("invalid_count");
    reveal_strlit("last_invalid_at");
    reveal_strlit("last_refresh_error");
    reveal_strlit("last_refresh_error_at");
    reveal_strlit("status");
    reveal_strlit("quota");
    assert("invalid_count"@.len() == 13);
    assert("last_invalid_at"@.len() == 15);
    assert("last_refresh_error"@.len() == 18);
    assert("last_refresh_error_at"@.len() == 21);
    assert("status"@.len() == 6);
    assert("quota"@.len() == 5);
}

/// A failed refresh is noted with the account, and a later success takes the counts of invalid
/// uses back.
pub proof fn law_refresh_outcome_is_noted(
    p: PoolView,
    token: Seq<char>,
    error: Seq<char>,
    at: Seq<char>,
    now: Seq<char>,
    other: Seq<char>,
)
    requires
        p.wf(),
        lookup(p.entries, p.resolve(token)) is Some,
        at.len() > 0,
    ensures
        ({
            let t = p.resolve(token);
            let failed = lookup(p.refresh_failed(token, error, at, now).entries, t);
            let fine = lookup(p.refresh_succeeded(token, now).entries, t);
            let seen = lookup(p.invalid_seen(token, error, at, now).entries, t);
            &&& failed is Some && fine is Some && seen is Some
            &&& (failed->0).get("last_token_refresh_error_at"@) == Some(JsonView::Str(at))
            &&& error.len() > 0 ==> (failed->0).get("last_token_refresh_error"@) == Some(
                JsonView::Str(error),
            )
            &&& error.len() == 0 ==> (failed->0).get("last_token_refresh_error"@) == Some(
                JsonView::Str("refresh token failed"@),
            )
            &&& (fine->0).int_at("invalid_count"@, 1) == 0
            &&& (fine->0).get("last_refresh_error"@) == Some(JsonView::Null)
            &&& (fine->0).get("last_invalid_at"@) == Some(JsonView::Null)
            &&& (seen->0).get("last_invalid_at"@) == Some(JsonView::Str(at))
            &&& error.len() > 0 ==> (seen->0).get("last_refresh_error"@) == Some(
                JsonView::Str(error),
            )
            &&& other != t ==> lookup(p.refresh_failed(token, error, at, now).entries, other)
                == lookup(p.entries, other)
            &&& other != t ==> lookup(p.invalid_seen(token, error, at, now).entries, other)
                == lookup(p.entries, other)
        }),
{
    broadcast use crate::value::group_fields;

    let t = p.resolve(token);
    let a = lookup(p.entries, t)->0;
    lemma_found_wf(p, t);
    reveal_strlit("access_token");
    reveal_strlit("accessToken");
    reveal_strlit("export_type");
    reveal_strlit("type");
    reveal_strlit("status");
    reveal_strlit("quota");
    reveal_strlit("image_quota_unknown");
    reveal_strlit("email");
    reveal_strlit("user_id");
    reveal_strlit("proxy");
    reveal_strlit("source_type");
    reveal_strlit("limits_progress");
    reveal_strlit("default_model_slug");
    reveal_strlit("restore_at");
    reveal_strlit("success");
    reveal_strlit("fail");
    reveal_strlit("invalid_count");
    reveal_strlit("last_used_at");
    reveal_strlit("last_invalid_at");
    reveal_strlit("last_refresh_error");
    reveal_strlit("last_refresh_error_at");
    reveal_strlit("last_token_refresh_at");
    reveal_strlit("last_token_refresh_error");
    reveal_strlit("last_token_refresh_error_at");
    reveal_strlit("created_at");
    reveal_strlit("refresh token failed");
    reveal_strlit("invalid access token");
    assert("access_token"@.len() == 12 && "access_token"@[0] == 'a');
    assert("accessToken"@.len() == 11 && "accessToken"@[0] == 'a');
    assert("export_type"@.len() == 11 && "export_type"@[0] == 'e');
    assert("type"@.len() == 4 && "type"@[0] == 't');
    assert("status"@.len() == 6);
    assert("quota"@.len() == 5 && "quota"@[0] == 'q');
    assert("image_quota_unknown"@.len() == 19);
    assert("email"@.len() == 5 && "email"@[0] == 'e');
    assert("user_id"@.len() == 7 && "user_id"@[0] == 'u');
    assert("proxy"@.len() == 5 && "proxy"@[0] == 'p');
    assert("source_type"@.len() == 11 && "source_type"@[0] == 's');
    assert("limits_progress"@.len() == 15 && "limits_progress"@[1] == 'i');
    assert("default_model_slug"@.len() == 18 && "default_model_slug"@[0] == 'd');
    assert("restore_at"@.len() == 10 && "restore_at"@[0] == 'r');
    assert("success"@.len() == 7 && "success"@[0] == 's');
    assert("fail"@.len() == 4 && "fail"@[0] == 'f');
    assert("invalid_count"@.len() == 13);
    assert("last_used_at"@.len() == 12 && "last_used_at"@[0] == 'l');
    assert("last_invalid_at"@.len() == 15 && "last_invalid_at"@[1] == 'a');
    assert("last_refresh_error"@.len() == 18 && "last_refresh_error"@[0] == 'l');
    assert("last_refresh_error_at"@.len() == 21 && "last_refresh_error_at"@[5] == 'r');
    assert("last_token_refresh_at"@.len() == 21 && "last_token_refresh_at"@[5] == 't');
    assert("last_token_refresh_error"@.len() == 24);
    assert("last_token_refresh_error_at"@.len() == 27);
    assert("created_at"@.len() == 10 && "created_at"@[0] == 'c');
    assert("refresh token failed"@.len() == 20 && "refresh token failed"@[0] == 'r');
    assert("invalid access token"@.len() == 20 && "invalid access token"@[0] == 'i');
    let f = a.put(
        "last_token_refresh_error"@,
        JsonView::Str(or_else(error, "refresh token failed"@)),
    ).put("last_token_refresh_error_at"@, JsonView::Str(at));
    assert(raw_token(f) == t);
    law_account_fields(f, now);
    lemma_renewed(p, t, f, now, other);
    let c = cleared(a);
    assert(raw_token(c) == t);
    law_account_fields(c, now);
    lemma_renewed(p, t, c, now, other);
    lemma_zero_kept(c, now);
    let s = invalid_once_more(a, error, at);
    assert(raw_token(s) == t);
    law_account_fields(s, now);
    lemma_renewed(p, t, s, now, other);
}

proof fn lemma_zero_kept(item: JsonView, now: Seq<char>)
    requires
        item is Obj,
        raw_token(item).len() > 0,
        item.get("invalid_count"@) == Some(int_json(0)),
    ensures
        normal_account(item, now) matches Some(n) && n.int_at("invalid_count"@, 1) == 0,
{
    broadcast use crate::value::group_fields;

    reveal_strlit("access_token");
    reveal_strlit("accessToken");
    reveal_strlit("export_type");
    reveal_strlit("type");
    reveal_strlit("status");
    reveal_strlit("quota");
    reveal_strlit("image_quota_unknown");
    reveal_strlit("email");
    reveal_strlit("user_id");
    reveal_strlit("proxy");
    reveal_strlit("source_type");
    reveal_strlit("limits_progress");
    reveal_strlit("default_model_slug");
    reveal_strlit("restore_at");
    reveal_strlit("success");
    reveal_strlit("fail");
    reveal_strlit("invalid_count");
    reveal_strlit("last_used_at");
    reveal_strlit("last_invalid_at");
    reveal_strlit("last_refresh_error");
    reveal_strlit("last_refresh_error_at");
    reveal_strlit("last_token_refresh_at");
    reveal_strlit("last_token_refresh_error");
    reveal_strlit("last_token_refresh_error_at");
    reveal_strlit("created_at");
    assert("access_token"@.len() == 12 && "access_token"@[0] == 'a');
    assert("accessToken"@.len() == 11 && "accessToken"@[0] == 'a');
    assert("export_type"@.len() == 11 && "export_type"@[0] == 'e');
    assert("type"@.len() == 4 && "type"@[0] == 't');
    assert("status"@.len() == 6);
    assert("quota"@.len() == 5 && "quota"@[0] == 'q');
    assert("image_quota_unknown"@.len() == 19);
    assert("email"@.len() == 5 && "email"@[0] == 'e');
    assert("user_id"@.len() == 7 && "user_id"@[0] == 'u');
    assert("proxy"@.len() == 5 && "proxy"@[0] == 'p');
    assert("source_type"@.len() == 11 && "source_type"@[0] == 's');
    assert("limits_progress"@.len() == 15 && "limits_progress"@[1] == 'i');
    assert("default_model_slug"@.len() == 18 && "default_model_slug"@[0] == 'd');
    assert("restore_at"@.len() == 10 && "restore_at"@[0] == 'r');
    assert("success"@.len() == 7 && "success"@[0] == 's');
    assert("fail"@.len() == 4 && "fail"@[0] == 'f');
    assert("invalid_count"@.len() == 13);
    assert("last_used_at"@.len() == 12 && "last_used_at"@[0] == 'l');
    assert("last_invalid_at"@.len() == 15 && "last_invalid_at"@[1] == 'a');
    assert("last_refresh_error"@.len() == 18 && "last_refresh_error"@[0] == 'l');
    assert("last_refresh_error_at"@.len() == 21 && "last_refresh_error_at"@[5] == 'r');
    assert("last_token_refresh_at"@.len() == 21 && "last_token_refresh_at"@[5] == 't');
    assert("last_token_refresh_error"@.len() == 24);
    assert("last_token_refresh_error_at"@.len() == 27);
    assert("created_at"@.len() == 10 && "created_at"@[0] == 'c');
    let n = identified(item);
    lemma_graded_fields(n);
    lemma_sourced_fields(graded(n));
    lemma_dated_fields(sourced(graded(n)), now);
    let d = dated(sourced(graded(n)), now);
    assert(d.get("invalid_count"@) == sourced(graded(n)).get("invalid_count"@));
    assert(n.get("invalid_count"@) == item.get("invalid_count"@));
    assert(graded(n).get("invalid_count"@) == n.get("invalid_count"@));
}

/// New tokens for an account replace its old ones: it is found under the new access token, and no
/// more under the old one, with the new refresh and id token where they came, and its slots with
/// it. What was noted against the old token is cleared.
pub proof fn law_refreshed_tokens_replace(
    p: PoolView,
    token: Seq<char>,
    data: JsonView,
    s: Seq<char>,
    at: Seq<char>,
    now: Seq<char>,
    other: Seq<char>,
)
    requires
        p.wf(),
        lookup(p.entries, p.resolve(token)) is Some,
        data.get("access_token"@) == Some(JsonView::Str(s)),
        trimmed(s).len() > 0,
        at.len() > 0,
    ensures
        ({
            let from = p.resolve(token);
            let a = lookup(p.entries, from)->0;
            let (q, to, changed) = p.refreshed(token, data, at, now);
            let n = lookup(q.entries, to)->0;
            &&& to == trimmed(s)
            &&& changed <==> to != from
            &&& lookup(q.entries, to) is Some
            &&& changed ==> lookup(q.entries, from) is None
            &&& n.str_at("access_token"@) == to
            &&& n.get("refresh_token"@) == (if data.str_at("refresh_token"@).len() > 0 {
                Some(JsonView::Str(trimmed(data.str_at("refresh_token"@))))
            } else {
                a.get("refresh_token"@)
            })
            &&& n.get("id_token"@) == (if data.str_at("id_token"@).len() > 0 {
                Some(JsonView::Str(trimmed(data.str_at("id_token"@))))
            } else {
                a.get("id_token"@)
            })
            &&& n.get("last_token_refresh_at"@) == Some(JsonView::Str(at))
            &&& n.get("last_token_refresh_error"@) == Some(JsonView::Null)
            &&& n.get("last_refresh_error"@) == Some(JsonView::Null)
            &&& n.int_at("invalid_count"@, 1) == 0
            &&& a.str_at("status"@).len() > 0 ==> n.get("status"@) == a.get("status"@)
            &&& changed && p.slots(from) + p.slots(to) <= i64::MAX ==> q.slots(to) == p.slots(from)
                + p.slots(to)
            &&& changed ==> q.slots(from) == 0
            &&& other != from && other != to ==> lookup(q.entries, other) == lookup(p.entries, other)
        }),
{
    broadcast use crate::value::group_fields;

    let from = p.resolve(token);
    let a = lookup(p.entries, from)->0;
    lemma_found_wf(p, from);
    reveal_strlit("access_token");
    reveal_strlit("accessToken");
    reveal_strlit("export_type");
    reveal_strlit("type");
    reveal_strlit("status");
    reveal_strlit("quota");
    reveal_strlit("image_quota_unknown");
    reveal_strlit("email");
    reveal_strlit("user_id");
    reveal_strlit("proxy");
    reveal_strlit("source_type");
    reveal_strlit("limits_progress");
    reveal_strlit("default_model_slug");
    reveal_strlit("restore_at");
    reveal_strlit("success");
    reveal_strlit("fail");
    reveal_strlit("invalid_count");
    reveal_strlit("last_used_at");
    reveal_strlit("last_invalid_at");
    reveal_strlit("last_refresh_error");
    reveal_strlit("last_refresh_error_at");
    reveal_strlit("last_token_refresh_at");
    reveal_strlit("last_token_refresh_error");
    reveal_strlit("last_token_refresh_error_at");
    reveal_strlit("created_at");
    reveal_strlit("refresh_token");
    reveal_strlit("id_token");
    assert("access_token"@.len() == 12 && "access_token"@[0] == 'a');
    assert("accessToken"@.len() == 11 && "accessToken"@[0] == 'a');
    assert("export_type"@.len() == 11 && "export_type"@[0] == 'e');
    assert("type"@.len() == 4 && "type"@[0] == 't');
    assert("status"@.len() == 6);
    assert("quota"@.len() == 5 && "quota"@[0] == 'q');
    assert("image_quota_unknown"@.len() == 19);
    assert("email"@.len() == 5 && "email"@[0] == 'e');
    assert("user_id"@.len() == 7 && "user_id"@[0] == 'u');
    assert("proxy"@.len() == 5 && "proxy"@[0] == 'p');
    assert("source_type"@.len() == 11 && "source_type"@[0] == 's');
    assert("limits_progress"@.len() == 15 && "limits_progress"@[1] == 'i');
    assert("default_model_slug"@.len() == 18 && "default_model_slug"@[0] == 'd');
    assert("restore_at"@.len() == 10 && "restore_at"@[0] == 'r');
    assert("success"@.len() == 7 && "success"@[0] == 's');
    assert("fail"@.len() == 4 && "fail"@[0] == 'f');
    assert("invalid_count"@.len() == 13 && "invalid_count"@[0] == 'i');
    assert("last_used_at"@.len() == 12 && "last_used_at"@[0] == 'l');
    assert("last_invalid_at"@.len() == 15 && "last_invalid_at"@[1] == 'a');
    assert("last_refresh_error"@.len() == 18 && "last_refresh_error"@[0] == 'l');
    assert("last_refresh_error_at"@.len() == 21 && "last_refresh_error_at"@[5] == 'r');
    assert("last_token_refresh_at"@.len() == 21 && "last_token_refresh_at"@[5] == 't');
    assert("last_token_refresh_error"@.len() == 24);
    assert("last_token_refresh_error_at"@.len() == 27);
    assert("created_at"@.len() == 10 && "created_at"@[0] == 'c');
    assert("refresh_token"@.len() == 13 && "refresh_token"@[0] == 'r');
    assert("id_token"@.len() == 8);
    let to = trimmed(s);
    let record = with_tokens(a, to, data, at);
    assert(record is Obj && raw_token(record) == to);
    law_account_fields(record, now);
    lemma_zero_kept(record, now);
    let n = normal_account(record, now)->0;
    assert(n.get("refresh_token"@) == record.get("refresh_token"@));
    assert(n.get("id_token"@) == record.get("id_token"@));
    lemma_lookup_put(p.entries, to, n, to);
    lemma_lookup_put(p.entries, to, n, other);
    lemma_lookup_put(drop_entry(p.entries, from), to, n, to);
    lemma_lookup_put(drop_entry(p.entries, from), to, n, from);
    lemma_lookup_put(drop_entry(p.entries, from), to, n, other);
    lemma_lookup_drop(p.entries, from, from);
    lemma_lookup_drop(p.entries, from, other);
}

/// Noting an invalid use leaves a token with its account.
pub proof fn lemma_seen_stays(p: PoolView, token: Seq<char>, error: Seq<char>, at: Seq<char>, now: Seq<char>)
    requires
        p.wf(),
        p.find(token) is Some,
    ensures
        p.invalid_seen(token, error, at, now).find(token) is Some,
        p.invalid_seen(token, error, at, now).resolve(token) == p.resolve(token),
{
    broadcast use crate::value::group_fields;

    let t = p.resolve(token);
    let a = lookup(p.entries, t)->0;
    lemma_found_wf(p, t);
    reveal_strlit("access_token");
    reveal_strlit("accessToken");
    reveal_strlit("invalid_count");
    reveal_strlit("last_invalid_at");
    reveal_strlit("last_refresh_error");
    reveal_strlit("last_refresh_error_at");
    assert("access_token"@.len() == 12);
    assert("accessToken"@.len() == 11);
    assert("invalid_count"@.len() == 13);
    assert("last_invalid_at"@.len() == 15);
    assert("last_refresh_error"@.len() == 18);
    assert("last_refresh_error_at"@.len() == 21);
    let s = invalid_once_more(a, error, at);
    assert(s is Obj && raw_token(s) == t);
    lemma_renewed(p, t, s, now, t);
    let q = p.invalid_seen(token, error, at, now);
    assert(q.entries == put_entry(p.entries, t, normal_account(s, now)->0));
    crate::pool_laws::lemma_same_names(p, q, trimmed(token), Set::empty(), p.aliases.dom().len() + 1);
}

/// Clearing what was noted against a token leaves it with its account, without an error.
pub proof fn lemma_cleared_stays(p: PoolView, token: Seq<char>, now: Seq<char>)
    requires
        p.wf(),
        p.find(token) is Some,
    ensures
        ({
            let q = p.refresh_succeeded(token, now);
            let n = lookup(q.entries, p.resolve(token));
            &&& q.find(token) == n
            &&& q.resolve(token) == p.resolve(token)
            &&& n is Some
            &&& (n->0).int_at("invalid_count"@, 0) == 0
            &&& (n->0).get("last_refresh_error"@) == Some(JsonView::Null)
        }),
{
    broadcast use crate::value::group_fields;

    let t = p.resolve(token);
    let a = lookup(p.entries, t)->0;
    lemma_found_wf(p, t);
    reveal_strlit("access_token");
    reveal_strlit("accessToken");
    reveal_strlit("invalid_count");
    reveal_strlit("last_invalid_at");
    reveal_strlit("last_refresh_error");
    reveal_strlit("last_refresh_error_at");
    assert("access_token"@.len() == 12);
    assert("accessToken"@.len() == 11);
    assert("invalid_count"@.len() == 13);
    assert("last_invalid_at"@.len() == 15);
    assert("last_refresh_error"@.len() == 18);
    assert("last_refresh_error_at"@.len() == 21);
    let c = cleared(a);
    assert(c is Obj && raw_token(c) == t);
    law_account_fields(c, now);
    lemma_renewed(p, t, c, now, t);
    let q = p.refresh_succeeded(token, now);
    assert(q.entries == put_entry(p.entries, t, normal_account(c, now)->0));
    crate::pool_laws::lemma_same_names(p, q, trimmed(token), Set::empty(), p.aliases.dom().len() + 1);
}

// ---------------------------------------------------------------------------
// taking in
// ---------------------------------------------------------------------------

/// What comes for an account that is there already is put over what it had, and a new one is
/// counted.
pub proof fn law_taken_in(p: PoolView, t: Seq<char>, payload: JsonView, now: Seq<char>, other: Seq<char>)
    requires
        p.wf(),
        t.len() > 0,
        payload is Obj,
        distinct_names(payload->Obj_0),
        payload.str_at("created_at"@).len() > 0 || payload.get("created_at"@) is None,
    ensures
        ({
            let q = p.admitted(t, payload, now);
            let n = lookup(q.entries, t)->0;
            let known = lookup(p.entries, t);
            &&& lookup(q.entries, t) is Some
            &&& n.str_at("access_token"@) == t
            &&& payload.str_at("status"@).len() > 0 ==> n.get("status"@) == payload.get("status"@)
            &&& payload.get("status"@) is None && known is Some && (known->0).str_at("status"@).len() > 0
                ==> n.get("status"@) == (known->0).get("status"@)
            &&& payload.get("quota"@) is Some && payload.int_at("quota"@, 0) >= 0 ==> n.int_at(
                "quota"@,
                0,
            ) == payload.int_at("quota"@, 0)
            &&& payload.get("refresh_token"@) is Some ==> n.get("refresh_token"@) == payload.get(
                "refresh_token"@,
            )
            &&& payload.get("refresh_token"@) is None && known is Some ==> n.get("refresh_token"@)
                == (known->0).get("refresh_token"@)
            &&& payload.get("password"@) is Some ==> n.get("password"@) == payload.get("password"@)
            &&& q.total == (if known is Some {
                p.total
            } else {
                p.total.wrapping_add(1)
            })
            &&& other != t ==> lookup(q.entries, other) == lookup(p.entries, other)
            &&& q.inflight == p.inflight
            &&& q.aliases == p.aliases
        }),
{
    broadcast use crate::value::group_fields;

    reveal_strlit("access_token");
    reveal_strlit("accessToken");
    reveal_strlit("export_type");
    reveal_strlit("type");
    reveal_strlit("status");
    reveal_strlit("quota");
    reveal_strlit("image_quota_unknown");
    reveal_strlit("email");
    reveal_strlit("user_id");
    reveal_strlit("proxy");
    reveal_strlit("source_type");
    reveal_strlit("limits_progress");
    reveal_strlit("default_model_slug");
    reveal_strlit("restore_at");
    reveal_strlit("success");
    reveal_strlit("fail");
    reveal_strlit("invalid_count");
    reveal_strlit("last_used_at");
    reveal_strlit("last_invalid_at");
    reveal_strlit("last_refresh_error");
    reveal_strlit("last_refresh_error_at");
    reveal_strlit("last_token_refresh_at");
    reveal_strlit("last_token_refresh_error");
    reveal_strlit("last_token_refresh_error_at");
    reveal_strlit("created_at");
    reveal_strlit("refresh_token");
    reveal_strlit("password");
    assert("access_token"@.len() == 12 && "access_token"@[0] == 'a');
    assert("accessToken"@.len() == 11 && "accessToken"@[0] == 'a');
    assert("export_type"@.len() == 11 && "export_type"@[0] == 'e');
    assert("type"@.len() == 4 && "type"@[0] == 't');
    assert("status"@.len() == 6);
    assert("quota"@.len() == 5 && "quota"@[0] == 'q');
    assert("image_quota_unknown"@.len() == 19);
    assert("email"@.len() == 5 && "email"@[0] == 'e');
    assert("user_id"@.len() == 7 && "user_id"@[0] == 'u');
    assert("proxy"@.len() == 5 && "proxy"@[0] == 'p');
    assert("source_type"@.len() == 11 && "source_type"@[0] == 's');
    assert("limits_progress"@.len() == 15 && "limits_progress"@[1] == 'i');
    assert("default_model_slug"@.len() == 18 && "default_model_slug"@[0] == 'd');
    assert("restore_at"@.len() == 10 && "restore_at"@[0] == 'r');
    assert("success"@.len() == 7 && "success"@[0] == 's');
    assert("fail"@.len() == 4 && "fail"@[0] == 'f');
    assert("invalid_count"@.len() == 13 && "invalid_count"@[0] == 'i');
    assert("last_used_at"@.len() == 12 && "last_used_at"@[0] == 'l');
    assert("last_invalid_at"@.len() == 15 && "last_invalid_at"@[1] == 'a');
    assert("last_refresh_error"@.len() == 18 && "last_refresh_error"@[0] == 'l');
    assert("last_refresh_error_at"@.len() == 21 && "last_refresh_error_at"@[5] == 'r');
    assert("last_token_refresh_at"@.len() == 21 && "last_token_refresh_at"@[5] == 't');
    assert("last_token_refresh_error"@.len() == 24);
    assert("last_token_refresh_error_at"@.len() == 27);
    assert("created_at"@.len() == 10 && "created_at"@[0] == 'c');
    assert("refresh_token"@.len() == 13 && "refresh_token"@[0] == 'r');
    assert("password"@.len() == 8);
    let base = match lookup(p.entries, t) {
        Some(a) => a,
        None => empty_object().put("created_at"@, JsonView::Str(now)),
    };
    if lookup(p.entries, t) is Some {
        lemma_found_wf(p, t);
    }
    let new = incoming(payload);
    if payload.get("created_at"@) is None {
        crate::assoc::lemma_pulled(payload->Obj_0, "created_at"@);
        assert(new == payload);
    }
    law_merged_fields(base, new, "status"@);
    law_merged_fields(base, new, "quota"@);
    law_merged_fields(base, new, "refresh_token"@);
    law_merged_fields(base, new, "password"@);
    let record = combined(base, payload, t);
    assert(record is Obj && raw_token(record) == t);
    assert(record.get("status"@) == merged(base, new).get("status"@));
    assert(record.get("quota"@) == merged(base, new).get("quota"@));
    assert(record.get("refresh_token"@) == merged(base, new).get("refresh_token"@));
    assert(record.get("password"@) == merged(base, new).get("password"@));
    law_account_fields(record, now);
    let n = normal_account(record, now)->0;
    assert(n.get("refresh_token"@) == record.get("refresh_token"@));
    assert(n.get("password"@) == record.get("password"@));
    lemma_lookup_put(p.entries, t, n, t);
    lemma_lookup_put(p.entries, t, n, other);
}

/// The accounts that are read from a list are those of its objects with a token.
pub proof fn law_loaded_accounts(items: Seq<JsonView>, now: Seq<char>, t: Seq<char>)
    ensures
        lookup(loaded(items, now), t) is Some <==> t.len() > 0 && exists|i: int|
            0 <= i < items.len() && (#[trigger] items[i]) is Obj && raw_token(items[i]) == t,
        items.len() > 0 && items[items.len() - 1] is Obj && t.len() > 0 && raw_token(
            items[items.len() - 1],
        ) == t ==> lookup(loaded(items, now), t) == normal_account(items[items.len() - 1], now),
    decreases items.len(),
{
    if items.len() > 0 {
        let init = items.drop_last();
        law_loaded_accounts(init, now, t);
        assert(items[items.len() - 1] == items.last());
        match normal_account(items.last(), now) {
            Some(a) => lemma_lookup_put(loaded(init, now), raw_token(items.last()), a, t),
            None => {},
        }
        if lookup(loaded(init, now), t) is Some {
            let i = choose|i: int|
                0 <= i < init.len() && (#[trigger] init[i]) is Obj && raw_token(init[i]) == t;
            assert(items[i] == init[i]);
        }
        if t.len() > 0 && exists|i: int|
            0 <= i < items.len() && (#[trigger] items[i]) is Obj && raw_token(items[i]) == t {
            let i = choose|i: int|
                0 <= i < items.len() && (#[trigger] items[i]) is Obj && raw_token(items[i]) == t;
            if i < init.len() {
                assert(init[i] == items[i]);
            }
        }
    }
}

/// The tokens that are gathered from payloads are those that they name, without white space at
/// their ends.
pub proof fn law_gathered_tokens(payloads: Seq<JsonView>, t: Seq<char>)
    ensures
        lookup(gathered(payloads), t) is Some <==> t.len() > 0 && exists|i: int|
            0 <= i < payloads.len() && (#[trigger] payloads[i]) is Obj && trimmed(
                raw_token(payloads[i]),
            ) == t,
    decreases payloads.len(),
{
    if payloads.len() > 0 {
        let init = payloads.drop_last();
        law_gathered_tokens(init, t);
        let p = payloads.last();
        assert(payloads[payloads.len() - 1] == p);
        let k = payload_token(p);
        let known = match lookup(gathered(init), k) {
            Some(m) => m,
            None => empty_object(),
        };
        lemma_lookup_put(
            gathered(init),
            k,
            merged(known, p).put("access_token"@, JsonView::Str(k)),
            t,
        );
        if lookup(gathered(init), t) is Some {
            let i = choose|i: int|
                0 <= i < init.len() && (#[trigger] init[i]) is Obj && trimmed(raw_token(init[i]))
                    == t;
            assert(payloads[i] == init[i]);
        }
        if t.len() > 0 && exists|i: int|
            0 <= i < payloads.len() && (#[trigger] payloads[i]) is Obj && trimmed(
                raw_token(payloads[i]),
            ) == t {
            let i = choose|i: int|
                0 <= i < payloads.len() && (#[trigger] payloads[i]) is Obj && trimmed(
                    raw_token(payloads[i]),
                ) == t;
            if i < init.len() {
                assert(init[i] == payloads[i]);
            }
        }
    }
}

/// The token of a record stands under either of its names, the first one first.
pub proof fn law_token_of_record(item: JsonView)
    ensures
        item.str_at("access_token"@).len() > 0 ==> raw_token(item) == item.str_at("access_token"@),
        item.str_at("access_token"@).len() == 0 ==> raw_token(item) == item.str_at("accessToken"@),
{
}

/// A payload is taken in under its token. One that calls itself or its export `codex` is of that
/// source; a plan under another name becomes its type.
pub proof fn law_prepared_payload(item: JsonView)
    ensures
        prepared(item) is Some <==> item is Obj && trimmed(raw_token(item)).len() > 0,
        prepared(item) matches Some(p) ==> {
            &&& p.get("access_token"@) == Some(JsonView::Str(trimmed(raw_token(item))))
            &&& p.get("accessToken"@) is None
            &&& unicode_lower(trimmed(item.str_at("type"@))) == "codex"@ ==> p.str_at(
                "source_type"@,
            ) == "codex"@ && p.str_at("export_type"@) == "codex"@
            &&& unicode_lower(trimmed(item.str_at("export_type"@))) == "codex"@ ==> p.str_at(
                "source_type"@,
            ) == "codex"@
            &&& unicode_lower(trimmed(item.str_at("type"@))) != "codex"@ && unicode_lower(
                trimmed(item.str_at("export_type"@)),
            ) != "codex"@ ==> p.get("source_type"@) == item.get("source_type"@)
            &&& item.str_at("type"@).len() == 0 && trimmed(item.str_at("plan_type"@)).len() > 0
                && unicode_lower(trimmed(item.str_at("type"@))) != "codex"@ ==> p.str_at("type"@)
                == trimmed(item.str_at("plan_type"@))
            &&& p.get("refresh_token"@) == item.get("refresh_token"@)
            &&& p.get("id_token"@) == item.get("id_token"@)
        },
{
    broadcast use crate::value::group_fields;

    reveal_strlit("access_token");
    reveal_strlit("accessToken");
    reveal_strlit("type");
    reveal_strlit("export_type");
    reveal_strlit("source_type");
    reveal_strlit("plan_type");
    reveal_strlit("codex");
    reveal_strlit("refresh_token");
    reveal_strlit("id_token");
    assert("access_token"@.len() == 12);
    assert("accessToken"@.len() == 11 && "accessToken"@[0] == 'a');
    assert("type"@.len() == 4);
    assert("export_type"@.len() == 11 && "export_type"@[0] == 'e');
    assert("source_type"@.len() == 11 && "source_type"@[0] == 's');
    assert("plan_type"@.len() == 9);
    assert("codex"@.len() == 5);
    assert("refresh_token"@.len() == 13);
    assert("id_token"@.len() == 8);
    let c = "codex"@;
    assert(trimmed(c) == c) by {
        crate::account_laws::lemma_bare_stays(c);
    }
    assert(unicode_lower(c) =~= c);
}

/// A token alone is taken in with the source that is given for it.
pub proof fn law_bare_payload(token: Seq<char>, source: Seq<char>)
    ensures
        bare_payload(token, source).str_at("access_token"@) == token,
        unicode_lower(trimmed(source)).len() > 0 ==> bare_payload(token, source).str_at(
            "source_type"@,
        ) == unicode_lower(trimmed(source)),
{
    broadcast use crate::value::group_fields;

    reveal_strlit("access_token");
    reveal_strlit("source_type");
    assert("access_token"@.len() == 12);
    assert("source_type"@.len() == 11);
}

} // verus!
