//! When accounts are refreshed, put off and kept alive, and what is reported and exported of them.
use vstd::prelude::*;

use crate::account::{field_text, field_trim, is_at};
use crate::clock::{iso_of, moment_at, Moment};
use crate::deferral::{defers, failed_lately, keepalive_anchor, keepalive_due, DueAt};
use crate::jwt::{claims, claims_of, issued_at, needs_refresh};
use crate::json::parsed;
use crate::lists::{lemma_mapped_from, lemma_mapped_has};
use crate::progress::{
    finished, login_advanced, login_begun, login_of, refresh_advanced, refresh_begun,
};
use crate::refresh::{
    error_entry, keepalive_errors, kept_count, mentions_connection, refresh_error, refresh_errors,
    refresh_granted, refresh_report, refresh_tokens, refreshed_count, wants_refresh, Kept, Outcome,
};
use crate::roster::{
    boundless, due_first, due_queue, due_token, expiring_token, export_of, exported, healthy,
    limited_token, queued, quota_left, statistics, sum_at, type_counts, with_status,
};
use crate::text::{decimal, occurs, trimmed, unicode_lower};
use crate::value::{empty_object, JsonView};

verus! {

// ---------------------------------------------------------------------------
// refreshing tokens
// ---------------------------------------------------------------------------

/// New tokens are granted exactly where the answer is positive and holds an access token. They are
/// those of the answer; where it names no refresh token, the one that was used stays.
pub proof fn law_refresh_answer(status: u16, data: JsonView, used: Seq<char>)
    ensures
        refresh_granted(status, data) <==> status == 200 && (data.get("access_token"@) matches Some(
            JsonView::Str(s),
        ) && trimmed(s).len() > 0),
        refresh_tokens(data, used).str_at("access_token"@) == trimmed(data.str_at("access_token"@)),
        data.get("refresh_token"@) matches Some(JsonView::Str(s)) ==> refresh_tokens(
            data,
            used,
        ).str_at("refresh_token"@) == trimmed(s),
        data.get("refresh_token"@) is None ==> refresh_tokens(data, used).str_at("refresh_token"@)
            == trimmed(used),
        refresh_tokens(data, used).str_at("id_token"@) == trimmed(data.str_at("id_token"@)),
{
    broadcast use crate::value::group_fields;

    reveal_strlit("access_token");
    reveal_strlit("refresh_token");
    reveal_strlit("id_token");
    assert("access_token"@.len() == 12);
    assert("refresh_token"@.len() == 13);
    assert("id_token"@.len() == 8);
    crate::text::lemma_strip_len(Seq::<char>::empty(), crate::text::CharClass::White);
}

/// A refusal says its status, and why where the answer says so.
pub proof fn law_refresh_refusal(status: nat, data: JsonView, text: Seq<char>, why: Seq<char>)
    requires
        why.len() > 0,
    ensures
        data.get("error_description"@) == Some(JsonView::Str(why)) ==> refresh_error(
            status,
            data,
            text,
        ) == "oauth_refresh_http_"@ + decimal(status) + (": "@ + why),
        data.get("error_description"@) is None && data.get("error"@) == Some(JsonView::Str(why))
            ==> refresh_error(status, data, text) == "oauth_refresh_http_"@ + decimal(status) + (": "@
            + why),
        data.get("error_description"@) is None && data.get("error"@) is None && data.get(
            "message"@,
        ) == Some(JsonView::Str(why)) ==> refresh_error(status, data, text)
            == "oauth_refresh_http_"@ + decimal(status) + (": "@ + why),
{
}

/// An access token has to be refreshed where that is forced, or where it runs out within a day. One
/// that does not say when it runs out has not.
pub proof fn law_token_runs_out(token: Seq<char>, force: bool, now: int)
    requires
        i64::MIN <= now <= i64::MAX,
    ensures
        force ==> needs_refresh(token, force, now),
        !force && claims(token).int_at("exp"@, 0) > 0 ==> (needs_refresh(token, force, now) <==>
            claims(token).int_at("exp"@, 0) - now <= 24 * 60 * 60),
        !force && claims(token).int_at("exp"@, 0) <= 0 ==> !needs_refresh(token, force, now),
{
}

/// What a token claims is the object in its payload, and nothing where there is none.
pub proof fn law_claims(payload: Seq<u8>, v: JsonView)
    ensures
        parsed(payload) == Some(v) && v is Obj ==> claims_of(Some(payload)) == v,
        parsed(payload) is None ==> claims_of(Some(payload)) == empty_object(),
        claims_of(None) == empty_object(),
{
}

/// Tokens are asked for only with a refresh token, and not soon after that failed unless it is
/// forced.
pub proof fn law_refresh_wanted(a: JsonView, active: Seq<char>, force: bool, now: Moment)
    ensures
        wants_refresh(a, active, force, now) ==> field_trim(a, "refresh_token"@).len() > 0,
        !force && failed_lately(a, now) ==> !wants_refresh(a, active, force, now),
        force && field_trim(a, "refresh_token"@).len() > 0 ==> wants_refresh(a, active, force, now),
        !force && !failed_lately(a, now) && field_trim(a, "refresh_token"@).len() > 0 ==> (
        wants_refresh(a, active, force, now) <==> needs_refresh(active, false, now.secs as int)),
{
}

/// The nanoseconds from one moment to another, neither within a leap second.
pub open spec fn elapsed(from: Moment, to: Moment) -> int {
    (to.secs - from.secs) * 1_000_000_000 + (to.nanos - from.nanos)
}

/// A refresh failed lately where its failure is noted less than five minutes ago.
pub proof fn law_failed_lately(a: JsonView, t: Moment, now: Moment)
    requires
        t.nanos < 1_000_000_000,
        now.nanos < 1_000_000_000,
    ensures
        moment_at(a, "last_token_refresh_error_at"@) == Some(t) ==> (failed_lately(a, now) <==>
            elapsed(t, now) < 5 * 60 * 1_000_000_000),
        moment_at(a, "last_token_refresh_error_at"@) is None ==> !failed_lately(a, now),
{
}

/// The removal of an invalid account is put off while the account is younger than ten minutes, at
/// the first time that it is found invalid, and within half a minute of the time before; not
/// otherwise.
pub proof fn law_removal_put_off(a: JsonView, made: Moment, last: Moment, now: Moment)
    requires
        a is Obj,
        made.nanos < 1_000_000_000,
        last.nanos < 1_000_000_000,
        now.nanos < 1_000_000_000,
        moment_at(a, "created_at"@) == Some(made),
        moment_at(a, "last_invalid_at"@) == Some(last),
    ensures
        defers(a, now) <==> {
            ||| elapsed(made, now) < 10 * 60 * 1_000_000_000
            ||| a.int_at("invalid_count"@, 0) <= 1
            ||| elapsed(last, now) < 30 * 1_000_000_000
        },
{
}

/// A refresh token is kept alive every three days, counted from its last refresh, or else from the
/// time of its access token, or else from that of the account. A disabled account is left alone,
/// and so is one without a refresh token.
pub proof fn law_kept_alive(a: JsonView, t: Moment, now: Moment)
    requires
        t.nanos < 1_000_000_000,
        now.nanos < 1_000_000_000,
        moment_at(a, "last_token_refresh_error_at"@) is None,
    ensures
        a.get("status"@) == Some(JsonView::Str("禁用"@)) ==> keepalive_due(a, now) is None,
        field_trim(a, "refresh_token"@).len() == 0 ==> keepalive_due(a, now) is None,
        a.get("status"@) != Some(JsonView::Str("禁用"@)) && field_trim(a, "refresh_token"@).len() > 0
            && keepalive_anchor(a) == Some(t) ==> (keepalive_due(a, now) is Some <==> elapsed(t, now)
            >= 3 * 24 * 60 * 60 * 1_000_000_000),
        a.get("status"@) != Some(JsonView::Str("禁用"@)) && field_trim(a, "refresh_token"@).len() > 0
            && keepalive_anchor(a) is None ==> keepalive_due(a, now) is Some,
        moment_at(a, "last_token_refresh_at"@) is Some ==> keepalive_anchor(a) == moment_at(
            a,
            "last_token_refresh_at"@,
        ),
        moment_at(a, "last_token_refresh_at"@) is None && issued_at(
            field_text(a, "access_token"@),
        ) is Some ==> keepalive_anchor(a) == issued_at(field_text(a, "access_token"@)),
        moment_at(a, "last_token_refresh_at"@) is None && issued_at(
            field_text(a, "access_token"@),
        ) is None ==> keepalive_anchor(a) == moment_at(a, "created_at"@),
{
}

/// A failed refresh puts keeping alive off for six hours.
pub proof fn law_kept_alive_later(a: JsonView, failed: Moment, now: Moment)
    requires
        failed.nanos < 1_000_000_000,
        now.nanos < 1_000_000_000,
        moment_at(a, "last_token_refresh_error_at"@) == Some(failed),
        elapsed(failed, now) < 6 * 60 * 60 * 1_000_000_000,
    ensures
        keepalive_due(a, now) is None,
{
}

// ---------------------------------------------------------------------------
// lists of accounts
// ---------------------------------------------------------------------------

/// The limited accounts are those that are marked so, each with its token.
pub proof fn law_limited_tokens(accounts: Seq<JsonView>, t: Seq<char>)
    ensures
        accounts.filter_map(limited_token()).contains(t) <==> t.len() > 0 && exists|i: int|
            0 <= i < accounts.len() && (#[trigger] accounts[i]).get("status"@) == Some(
                JsonView::Str("限流"@),
            ) && field_text(accounts[i], "access_token"@) == t,
{
    let f = limited_token();
    if accounts.filter_map(f).contains(t) {
        lemma_mapped_from(accounts, f, t);
        let i = choose|i: int| 0 <= i < accounts.len() && f(#[trigger] accounts[i]) == Some(t);
        assert(is_at(accounts[i], "status"@, "限流"@));
    }
    if t.len() > 0 && exists|i: int|
        0 <= i < accounts.len() && (#[trigger] accounts[i]).get("status"@) == Some(
            JsonView::Str("限流"@),
        ) && field_text(accounts[i], "access_token"@) == t {
        let i = choose|i: int|
            0 <= i < accounts.len() && (#[trigger] accounts[i]).get("status"@) == Some(
                JsonView::Str("限流"@),
            ) && field_text(accounts[i], "access_token"@) == t;
        lemma_mapped_has(accounts, f, i);
    }
}

/// The accounts whose access token runs out are those that have a refresh token and one that does.
pub proof fn law_expiring_tokens(accounts: Seq<JsonView>, now: int, t: Seq<char>)
    ensures
        accounts.filter_map(expiring_token(now)).contains(t) <==> t.len() > 0 && needs_refresh(
            t,
            false,
            now,
        ) && exists|i: int|
            0 <= i < accounts.len() && field_trim(#[trigger] accounts[i], "access_token"@) == t
                && field_trim(accounts[i], "refresh_token"@).len() > 0,
{
    let f = expiring_token(now);
    if accounts.filter_map(f).contains(t) {
        lemma_mapped_from(accounts, f, t);
        let i = choose|i: int| 0 <= i < accounts.len() && f(#[trigger] accounts[i]) == Some(t);
        assert(field_trim(accounts[i], "access_token"@) == t);
    }
    if t.len() > 0 && needs_refresh(t, false, now) && exists|i: int|
        0 <= i < accounts.len() && field_trim(#[trigger] accounts[i], "access_token"@) == t
            && field_trim(accounts[i], "refresh_token"@).len() > 0 {
        let i = choose|i: int|
            0 <= i < accounts.len() && field_trim(#[trigger] accounts[i], "access_token"@) == t
                && field_trim(accounts[i], "refresh_token"@).len() > 0;
        lemma_mapped_has(accounts, f, i);
    }
}

/// Whether a queue goes by the times at which its tokens are due.
pub open spec fn by_due(q: Seq<(DueAt, Seq<char>)>) -> bool {
    forall|i: int, j: int|
        0 <= i < j < q.len() ==> (#[trigger] q[i]).0.secs < (#[trigger] q[j]).0.secs || (
        q[i].0.secs == q[j].0.secs && q[i].0.nanos <= q[j].0.nanos)
}

proof fn lemma_queued(s: Seq<(DueAt, Seq<char>)>, x: (DueAt, Seq<char>), y: (DueAt, Seq<char>))
    requires
        by_due(s),
    ensures
        by_due(queued(s, x)),
        queued(s, x).len() == s.len() + 1,
        queued(s, x).contains(y) <==> s.contains(y) || y == x,
        forall|i: int|
            0 <= i < queued(s, x).len() ==> s.contains(#[trigger] queued(s, x)[i]) || queued(s, x)[i]
                == x,
    decreases s.len(),
{
    let r = queued(s, x);
    if s.len() == 0 || due_first(s.last().0, x.0) {
        assert(r[s.len() as int] == x);
        if s.contains(y) {
            let i = s.index_of(y);
            assert(r[i] == y);
        }
        if r.contains(y) {
            let i = r.index_of(y);
            if i < s.len() {
                assert(s[i] == y);
            }
        }
        assert forall|i: int, j: int| 0 <= i < j < r.len() implies (#[trigger] r[i]).0.secs < (
        #[trigger] r[j]).0.secs || (r[i].0.secs == r[j].0.secs && r[i].0.nanos <= r[j].0.nanos) by {
            if j == s.len() && i < s.len() - 1 {
                assert(s[i] == r[i] && s[s.len() - 1] == s.last());
            }
        }
        assert forall|i: int| 0 <= i < r.len() implies s.contains(#[trigger] r[i]) || r[i] == x by {
            if i < s.len() {
                assert(s[i] == r[i]);
            }
        }
    } else {
        let init = s.drop_last();
        assert(by_due(init)) by {
            assert forall|i: int, j: int| 0 <= i < j < init.len() implies (
            #[trigger] init[i]).0.secs < (#[trigger] init[j]).0.secs || (init[i].0.secs
                == init[j].0.secs && init[i].0.nanos <= init[j].0.nanos) by {
                assert(init[i] == s[i] && init[j] == s[j]);
            }
        }
        lemma_queued(init, x, y);
        let q = queued(init, x);
        assert(r[q.len() as int] == s.last());
        assert(s[s.len() - 1] == s.last());
        assert forall|i: int, j: int| 0 <= i < j < r.len() implies (#[trigger] r[i]).0.secs < (
        #[trigger] r[j]).0.secs || (r[i].0.secs == r[j].0.secs && r[i].0.nanos <= r[j].0.nanos) by {
            assert(r[i] == q[i]);
            if j < q.len() {
                assert(r[j] == q[j]);
            } else if q[i] != x {
                assert(init.contains(q[i]));
                let k = init.index_of(q[i]);
                assert(s[k] == q[i]);
            }
        }
        if r.contains(y) {
            let i = r.index_of(y);
            if i < q.len() {
                assert(q[i] == y);
                if init.contains(y) {
                    let k = init.index_of(y);
                    assert(s[k] == y);
                }
            }
        }
        if s.contains(y) || y == x {
            if q.contains(y) {
                let i = q.index_of(y);
                assert(r[i] == y);
            } else {
                let k = s.index_of(y);
                if k < init.len() {
                    assert(init[k] == y);
                }
            }
        }
        assert forall|i: int| 0 <= i < r.len() implies s.contains(#[trigger] r[i]) || r[i] == x by {
            if i < q.len() {
                assert(r[i] == q[i]);
                if q[i] != x {
                    let k = init.index_of(q[i]);
                    assert(s[k] == q[i]);
                }
            }
        }
    }
}

/// The tokens that are to be kept alive stand in the order in which they are due, each of them
/// once for each account, and no others.
pub proof fn law_keepalive_queue(accounts: Seq<JsonView>, now: Moment, y: (DueAt, Seq<char>))
    ensures
        by_due(due_queue(accounts, now)),
        due_queue(accounts, now).contains(y) <==> exists|i: int|
            0 <= i < accounts.len() && due_token(#[trigger] accounts[i], now) == Some(y),
        due_queue(accounts, now).len() <= accounts.len(),
    decreases accounts.len(),
{
    if accounts.len() > 0 {
        let init = accounts.drop_last();
        law_keepalive_queue(init, now, y);
        assert(accounts[accounts.len() - 1] == accounts.last());
        match due_token(accounts.last(), now) {
            Some(x) => lemma_queued(due_queue(init, now), x, y),
            None => {},
        }
        if exists|i: int| 0 <= i < init.len() && due_token(#[trigger] init[i], now) == Some(y) {
            let i = choose|i: int|
                0 <= i < init.len() && due_token(#[trigger] init[i], now) == Some(y);
            assert(accounts[i] == init[i]);
        }
        if exists|i: int|
            0 <= i < accounts.len() && due_token(#[trigger] accounts[i], now) == Some(y) {
            let i = choose|i: int|
                0 <= i < accounts.len() && due_token(#[trigger] accounts[i], now) == Some(y);
            if i < init.len() {
                assert(init[i] == accounts[i]);
            }
        }
    }
}

// ---------------------------------------------------------------------------
// statistics
// ---------------------------------------------------------------------------

proof fn lemma_filter_push(s: Seq<JsonView>, a: JsonView, p: spec_fn(JsonView) -> bool)
    ensures
        s.push(a).filter(p).len() == s.filter(p).len() + (if p(a) {
            1int
        } else {
            0
        }),
{
    reveal(Seq::filter);
    assert(s.push(a).drop_last() =~= s);
}

/// Every account is counted once: as one more in all, as one more of its own state and of no
/// other, with its own quota while it is normal, and with its successes and failures.
pub proof fn law_statistics_count_each(accounts: Seq<JsonView>, a: JsonView, total: i64)
    requires
        accounts.len() < i64::MAX,
        0 <= quota_left(accounts) <= i64::MAX - a.int_at("quota"@, 0),
        i64::MIN <= sum_at(accounts, "success"@) + a.int_at("success"@, 0) <= i64::MAX,
        i64::MIN <= sum_at(accounts, "fail"@) + a.int_at("fail"@, 0) <= i64::MAX,
    ensures
        ({
            let s = statistics(accounts, total);
            let n = statistics(accounts.push(a), total);
            let status = a.get("status"@);
            &&& n.int_at("total"@, 0) == s.int_at("total"@, 0) + 1
            &&& n.int_at("cumulative_total"@, 0) == total
            &&& n.int_at("active"@, 0) == s.int_at("active"@, 0) + (if status == Some(
                JsonView::Str("正常"@),
            ) {
                1int
            } else {
                0
            })
            &&& n.int_at("limited"@, 0) == s.int_at("limited"@, 0) + (if status == Some(
                JsonView::Str("限流"@),
            ) {
                1int
            } else {
                0
            })
            &&& n.int_at("abnormal"@, 0) == s.int_at("abnormal"@, 0) + (if status == Some(
                JsonView::Str("异常"@),
            ) {
                1int
            } else {
                0
            })
            &&& n.int_at("disabled"@, 0) == s.int_at("disabled"@, 0) + (if status == Some(
                JsonView::Str("禁用"@),
            ) {
                1int
            } else {
                0
            })
            &&& n.int_at("total_quota"@, 0) == s.int_at("total_quota"@, 0) + (if status == Some(
                JsonView::Str("正常"@),
            ) && a.int_at("quota"@, 0) > 0 {
                a.int_at("quota"@, 0) as int
            } else {
                0
            })
            &&& n.int_at("unlimited_quota_count"@, 0) == s.int_at("unlimited_quota_count"@, 0) + (
            if status == Some(JsonView::Str("正常"@)) && a.bool_at("image_quota_unknown"@, false) {
                1int
            } else {
                0
            })
            &&& n.int_at("total_success"@, 0) == s.int_at("total_success"@, 0) + a.int_at(
                "success"@,
                0,
            )
            &&& n.int_at("total_fail"@, 0) == s.int_at("total_fail"@, 0) + a.int_at("fail"@, 0)
        }),
{
    broadcast use crate::value::group_fields;

    reveal_strlit("total");
    reveal_strlit("cumulative_total");
    reveal_strlit("active");
    reveal_strlit("limited");
    reveal_strlit("abnormal");
    reveal_strlit("disabled");
    reveal_strlit("total_quota");
    reveal_strlit("unlimited_quota_count");
    reveal_strlit("total_success");
    reveal_strlit("total_fail");
    reveal_strlit("by_type");
    assert("total"@.len() == 5);
    assert("cumulative_total"@.len() == 16);
    assert("active"@.len() == 6);
    assert("limited"@.len() == 7 && "limited"@[0] == 'l');
    assert("abnormal"@.len() == 8 && "abnormal"@[0] == 'a');
    assert("disabled"@.len() == 8 && "disabled"@[0] == 'd');
    assert("total_quota"@.len() == 11);
    assert("unlimited_quota_count"@.len() == 21);
    assert("total_success"@.len() == 13);
    assert("total_fail"@.len() == 10);
    assert("by_type"@.len() == 7 && "by_type"@[0] == 'b');
    let all = accounts.push(a);
    assert(all.drop_last() =~= accounts);
    lemma_filter_push(accounts, a, with_status("正常"@));
    lemma_filter_push(accounts, a, with_status("限流"@));
    lemma_filter_push(accounts, a, with_status("异常"@));
    lemma_filter_push(accounts, a, with_status("禁用"@));
    lemma_filter_push(accounts, a, boundless());
    lemma_filter_len(accounts, with_status("正常"@));
    lemma_filter_len(accounts, with_status("限流"@));
    lemma_filter_len(accounts, with_status("异常"@));
    lemma_filter_len(accounts, with_status("禁用"@));
    lemma_filter_len(accounts, boundless());
    lemma_filter_len(all, with_status("正常"@));
    lemma_filter_len(all, with_status("限流"@));
    lemma_filter_len(all, with_status("异常"@));
    lemma_filter_len(all, with_status("禁用"@));
    lemma_filter_len(all, boundless());
}

proof fn lemma_filter_len(s: Seq<JsonView>, p: spec_fn(JsonView) -> bool)
    ensures
        s.filter(p).len() <= s.len(),
    decreases s.len(),
{
    reveal(Seq::filter);
    if s.len() > 0 {
        lemma_filter_len(s.drop_last(), p);
    }
}

/// An account is counted under its plan.
pub proof fn law_plans_are_counted(accounts: Seq<JsonView>, a: JsonView, t: Seq<char>, k: Seq<char>)
    requires
        a.get("type"@) == Some(JsonView::Str(t)),
        0 <= type_counts(accounts).int_at(t, 0) < i64::MAX,
    ensures
        type_counts(accounts.push(a)).int_at(t, 0) == type_counts(accounts).int_at(t, 0) + 1,
        k != t ==> type_counts(accounts.push(a)).get(k) == type_counts(accounts).get(k),
        type_counts(Seq::<JsonView>::empty()) == empty_object(),
{
    broadcast use crate::value::group_fields;

    assert(accounts.push(a).drop_last() =~= accounts);
    lemma_counts_object(accounts);
}

proof fn lemma_counts_object(accounts: Seq<JsonView>)
    ensures
        type_counts(accounts) is Obj,
    decreases accounts.len(),
{
    if accounts.len() > 0 {
        lemma_counts_object(accounts.drop_last());
    }
}

/// The pool is healthy where some account is normal, or normal without a known bound.
pub proof fn law_healthy(accounts: Seq<JsonView>, total: i64, i: int)
    requires
        0 <= i < accounts.len() <= i64::MAX,
        accounts[i].get("status"@) == Some(JsonView::Str("正常"@)),
    ensures
        healthy(statistics(accounts, total)),
        statistics(accounts, total).int_at("active"@, 0) > 0,
{
    broadcast use crate::value::group_fields;

    reveal_strlit("total");
    reveal_strlit("cumulative_total");
    reveal_strlit("active");
    reveal_strlit("limited");
    reveal_strlit("abnormal");
    reveal_strlit("disabled");
    reveal_strlit("total_quota");
    reveal_strlit("unlimited_quota_count");
    reveal_strlit("total_success");
    reveal_strlit("total_fail");
    reveal_strlit("by_type");
    assert("total"@.len() == 5);
    assert("cumulative_total"@.len() == 16);
    assert("active"@.len() == 6);
    assert("limited"@.len() == 7 && "limited"@[0] == 'l');
    assert("abnormal"@.len() == 8 && "abnormal"@[0] == 'a');
    assert("disabled"@.len() == 8 && "disabled"@[0] == 'd');
    assert("total_quota"@.len() == 11);
    assert("unlimited_quota_count"@.len() == 21);
    assert("total_success"@.len() == 13);
    assert("total_fail"@.len() == 10);
    assert("by_type"@.len() == 7 && "by_type"@[0] == 'b');
    let p = with_status("正常"@);
    crate::lists::lemma_filtered_has(accounts, p, accounts[i]);
    assert(accounts.contains(accounts[i]));
    assert(accounts.filter(p).contains(accounts[i]));
    lemma_filter_len(accounts, p);
    assert(accounts.filter(p).len() > 0);
}

// ---------------------------------------------------------------------------
// reports
// ---------------------------------------------------------------------------

/// A failure that is not one of the connection is reported for its account; one of the connection
/// is not. What was refreshed is counted.
pub proof fn law_refresh_outcomes(outcomes: Seq<Outcome>, o: Outcome)
    ensures
        refreshed_count(outcomes.push(o)) == refreshed_count(outcomes) + (if o.result == Ok::<
            bool,
            String,
        >(true) {
            1nat
        } else {
            0
        }),
        o.result matches Err(e) ==> refresh_errors(outcomes.push(o)) == (if mentions_connection(
            unicode_lower(e@),
        ) {
            refresh_errors(outcomes)
        } else {
            refresh_errors(outcomes).push(error_entry(o.label@, e@))
        }),
        o.result is Ok ==> refresh_errors(outcomes.push(o)) == refresh_errors(outcomes),
        error_entry(o.label@, o.label@).str_at("token"@) == o.label@,
{
    broadcast use crate::value::group_fields;

    assert(outcomes.push(o).drop_last() =~= outcomes);
    reveal_strlit("token");
    reveal_strlit("error");
    assert("token"@.len() == 5 && "token"@[0] == 't');
    assert("error"@.len() == 5 && "error"@[0] == 'e');
}

/// Words that mean that a connection failed.
pub proof fn law_connection_words(e: Seq<char>)
    ensures
        occurs(e, "tls"@) ==> mentions_connection(e),
        occurs(e, "ssl"@) ==> mentions_connection(e),
        occurs(e, "handshake"@) ==> mentions_connection(e),
        occurs(e, "connect"@) ==> mentions_connection(e),
        occurs(e, "proxy"@) ==> mentions_connection(e),
        occurs(e, "timed out"@) ==> mentions_connection(e),
        occurs(e, "timeout"@) ==> mentions_connection(e),
        occurs(e, "dns"@) ==> mentions_connection(e),
        occurs(e, "unreachable"@) ==> mentions_connection(e),
        occurs(e, "reset"@) ==> mentions_connection(e),
        occurs(e, "eof"@) ==> mentions_connection(e),
{
}

/// The report of a refresh holds how many were refreshed, what failed, and the accounts.
pub proof fn law_refresh_report(n: nat, errors: Seq<JsonView>, items: Seq<JsonView>)
    requires
        n <= i64::MAX,
    ensures
        refresh_report(n, errors, items).int_at("refreshed"@, 0) == n,
        refresh_report(n, errors, items).items_at("errors"@) == errors,
        refresh_report(n, errors, items).items_at("items"@) == items,
{
    broadcast use crate::value::group_fields;

    reveal_strlit("refreshed");
    reveal_strlit("errors");
    reveal_strlit("items");
    reveal_strlit("relogined");
    assert("refreshed"@.len() == 9 && "refreshed"@[2] == 'f');
    assert("errors"@.len() == 6);
    assert("items"@.len() == 5);
    assert("relogined"@.len() == 9 && "relogined"@[2] == 'l');
}

/// An account that was kept alive counts where no failure is noted with it, and is reported with
/// its failure where one is.
pub proof fn law_keepalive_outcomes(kept: Seq<Kept>, k: Kept)
    ensures
        k.account matches Some(a) ==> {
            let e = field_trim(a@, "last_token_refresh_error"@);
            &&& kept_count(kept.push(k)) == kept_count(kept) + (if e.len() == 0 {
                1nat
            } else {
                0
            })
            &&& e.len() == 0 ==> keepalive_errors(kept.push(k)) == keepalive_errors(kept)
            &&& e.len() > 0 ==> keepalive_errors(kept.push(k)) == keepalive_errors(kept).push(
                error_entry(k.label@, e),
            )
        },
{
    assert(kept.push(k).drop_last() =~= kept);
}

/// Progress counts each account once, under the state that it is in, with its quota. It is over
/// where it is finished, with its result or its error.
pub proof fn law_refresh_progress(progress: JsonView, a: JsonView, s: Seq<char>, total: nat)
    requires
        progress is Obj,
        progress.at("status_counts"@) is Obj,
        a.get("status"@) == Some(JsonView::Str(s)),
        trimmed(s) == s,
        s.len() > 0,
        i64::MIN < progress.int_at("processed"@, 0) < i64::MAX,
        i64::MIN < progress.at("status_counts"@).int_at(s, 0) < i64::MAX,
        0 <= progress.int_at("total_quota"@, 0) <= i64::MAX - a.int_at("quota"@, 0),
        total <= i64::MAX,
    ensures
        ({
            let n = refresh_advanced(progress, Some(a));
            &&& n.int_at("processed"@, 0) == progress.int_at("processed"@, 0) + 1
            &&& n.at("status_counts"@).int_at(s, 0) == progress.at("status_counts"@).int_at(s, 0) + 1
            &&& forall|k: Seq<char>|
                k != s ==> #[trigger] n.at("status_counts"@).get(k) == progress.at(
                    "status_counts"@,
                ).get(k)
            &&& n.int_at("total_quota"@, 0) == progress.int_at("total_quota"@, 0) + (if a.int_at(
                "quota"@,
                0,
            ) < 0 {
                0
            } else {
                a.int_at("quota"@, 0)
            })
            &&& n.get("done"@) == progress.get("done"@)
            &&& n.get("total"@) == progress.get("total"@)
        }),
        refresh_begun(total).int_at("total"@, 0) == total,
        refresh_begun(total).int_at("processed"@, 1) == 0,
        refresh_begun(total).get("done"@) == Some(JsonView::Bool(false)),
        login_begun(total).int_at("total"@, 0) == total,
        login_begun(total).get("done"@) == Some(JsonView::Bool(false)),
{
    broadcast use crate::value::group_fields;

    reveal_strlit("processed");
    reveal_strlit("status_counts");
    reveal_strlit("total_quota");
    reveal_strlit("done");
    reveal_strlit("total");
    reveal_strlit("error");
    reveal_strlit("results");
    assert("processed"@.len() == 9);
    assert("status_counts"@.len() == 13);
    assert("total_quota"@.len() == 11);
    assert("done"@.len() == 4);
    assert("total"@.len() == 5 && "total"@[0] == 't');
    assert("error"@.len() == 5 && "error"@[0] == 'e');
    assert("results"@.len() == 7);
    assert(field_trim(a, "status"@) == s);
}

/// A finished run says so, with its result and its error.
pub proof fn law_finished(progress: JsonView, v: JsonView, e: Seq<char>)
    requires
        progress is Obj,
    ensures
        finished(progress, Some(v), None).get("done"@) == Some(JsonView::Bool(true)),
        finished(progress, Some(v), None).get("result"@) == Some(v),
        finished(progress, Some(v), None).get("error"@) == progress.get("error"@),
        finished(progress, None, Some(e)).get("done"@) == Some(JsonView::Bool(true)),
        finished(progress, None, Some(e)).get("error"@) == Some(JsonView::Str(e)),
{
    broadcast use crate::value::group_fields;

    reveal_strlit("done");
    reveal_strlit("result");
    reveal_strlit("error");
    assert("done"@.len() == 4);
    assert("result"@.len() == 6);
    assert("error"@.len() == 5);
}

/// Every login that was tried is noted, and a run is over with the last of them.
pub proof fn law_login_progress(progress: JsonView, result: JsonView)
    requires
        progress is Obj,
        progress.at("results"@) is Arr,
        i64::MIN < progress.int_at("processed"@, 0) < i64::MAX,
        progress.get("done"@) == Some(JsonView::Bool(false)),
    ensures
        ({
            let n = login_advanced(progress, result);
            &&& n.items_at("results"@) == progress.items_at("results"@).push(result)
            &&& n.int_at("processed"@, 0) == progress.int_at("processed"@, 0) + 1
            &&& n.get("done"@) == Some(
                JsonView::Bool(n.int_at("processed"@, 0) >= progress.int_at("total"@, 0)),
            )
        }),
{
    broadcast use crate::value::group_fields;

    reveal_strlit("done");
    reveal_strlit("results");
    reveal_strlit("processed");
    reveal_strlit("total");
    assert("done"@.len() == 4);
    assert("results"@.len() == 7);
    assert("processed"@.len() == 9);
    assert("total"@.len() == 5);
}

/// An account can be tried to be logged in again only with an address and a password.
pub proof fn law_login_needs_password(a: JsonView)
    ensures
        login_of(None) is Missing,
        login_of(Some(a)) is NoPassword <==> field_trim(a, "email"@).len() == 0 || field_trim(
            a,
            "password"@,
        ).len() == 0,
        login_of(Some(a)) is Unsupported <==> field_trim(a, "email"@).len() > 0 && field_trim(
            a,
            "password"@,
        ).len() > 0,
{
}

// ---------------------------------------------------------------------------
// exports
// ---------------------------------------------------------------------------

/// An account is exported where it has all three tokens, and then with them: under its own
/// address and id where it has them, or under those that its tokens claim.
pub proof fn law_exported_account(a: JsonView)
    ensures
        exported(a) is Some <==> field_trim(a, "access_token"@).len() > 0 && field_trim(
            a,
            "refresh_token"@,
        ).len() > 0 && field_trim(a, "id_token"@).len() > 0,
        exported(a) matches Some(e) ==> {
            let access = field_trim(a, "access_token"@);
            let id = field_trim(a, "id_token"@);
            let auth = claims(access).at("https://api.openai.com/auth"@);
            let profile = claims(access).at("https://api.openai.com/profile"@);
            &&& e.str_at("access_token"@) == access
            &&& e.str_at("refresh_token"@) == field_trim(a, "refresh_token"@)
            &&& e.str_at("id_token"@) == id
            &&& field_trim(a, "export_type"@).len() > 0 ==> e.str_at("type"@) == field_trim(
                a,
                "export_type"@,
            )
            &&& field_trim(a, "export_type"@).len() == 0 ==> e.str_at("type"@) == "codex"@
            &&& field_trim(a, "email"@).len() > 0 ==> e.str_at("email"@) == field_trim(a, "email"@)
            &&& field_trim(a, "email"@).len() == 0 && trimmed(profile.str_at("email"@)).len() > 0
                ==> e.str_at("email"@) == trimmed(profile.str_at("email"@))
            &&& field_trim(a, "email"@).len() == 0 && trimmed(profile.str_at("email"@)).len() == 0
                ==> e.str_at("email"@) == trimmed(claims(id).str_at("email"@))
            &&& field_trim(a, "account_id"@).len() > 0 ==> e.str_at("account_id"@) == field_trim(
                a,
                "account_id"@,
            )
            &&& field_trim(a, "account_id"@).len() == 0 && trimmed(
                auth.str_at("chatgpt_account_id"@),
            ).len() > 0 ==> e.str_at("account_id"@) == trimmed(auth.str_at("chatgpt_account_id"@))
            &&& field_trim(a, "account_id"@).len() == 0 && trimmed(
                auth.str_at("chatgpt_account_id"@),
            ).len() == 0 ==> e.str_at("account_id"@) == field_trim(a, "user_id"@)
            &&& e.str_at("expired"@) == iso_of(claims(access).at("exp"@))
            &&& e.str_at("last_refresh"@) == iso_of(claims(access).at("iat"@))
            &&& field_trim(a, "password"@).len() > 0 ==> e.str_at("password"@) == field_trim(
                a,
                "password"@,
            )
            &&& field_trim(a, "password"@).len() == 0 ==> e.get("password"@) is None
        },
{
    broadcast use crate::value::group_fields;

    reveal_strlit("type");
    reveal_strlit("email");
    reveal_strlit("account_id");
    reveal_strlit("access_token");
    reveal_strlit("refresh_token");
    reveal_strlit("id_token");
    reveal_strlit("expired");
    reveal_strlit("last_refresh");
    reveal_strlit("password");
    assert("type"@.len() == 4);
    assert("email"@.len() == 5);
    assert("account_id"@.len() == 10);
    assert("access_token"@.len() == 12 && "access_token"@[0] == 'a');
    assert("refresh_token"@.len() == 13);
    assert("id_token"@.len() == 8 && "id_token"@[0] == 'i');
    assert("expired"@.len() == 7);
    assert("last_refresh"@.len() == 12 && "last_refresh"@[0] == 'l');
    assert("password"@.len() == 8 && "password"@[0] == 'p');
}

/// All accounts are exported where none is named, and the named ones where some are.
pub proof fn law_export_of_wanted(accounts: Seq<JsonView>, wanted: Seq<Seq<char>>, e: JsonView)
    ensures
        accounts.filter_map(export_of(wanted)).contains(e) <==> exists|i: int|
            0 <= i < accounts.len() && exported(#[trigger] accounts[i]) == Some(e) && (wanted.len()
                == 0 || wanted.contains(field_text(accounts[i], "access_token"@))),
{
    let f = export_of(wanted);
    if accounts.filter_map(f).contains(e) {
        lemma_mapped_from(accounts, f, e);
        let i = choose|i: int| 0 <= i < accounts.len() && f(#[trigger] accounts[i]) == Some(e);
        assert(exported(accounts[i]) == Some(e));
    }
    if exists|i: int|
        0 <= i < accounts.len() && exported(#[trigger] accounts[i]) == Some(e) && (wanted.len() == 0
            || wanted.contains(field_text(accounts[i], "access_token"@))) {
        let i = choose|i: int|
            0 <= i < accounts.len() && exported(#[trigger] accounts[i]) == Some(e) && (wanted.len()
                == 0 || wanted.contains(field_text(accounts[i], "access_token"@)));
        lemma_mapped_has(accounts, f, i);
    }
}

} // verus!
