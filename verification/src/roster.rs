//! What the pool tells about its accounts: lists of tokens, statistics, and exports.
use vstd::prelude::*;

use crate::account::{field_text, field_trim, holds_at, is_at, text_at, trim_at};
use crate::clock::{iso_of, timestamp_to_iso, Moment};
use crate::deferral::{keepalive_due, refresh_token_keepalive_due_at, shifted, DueAt};
use crate::json::non_empty_or;
use crate::jwt::{claims, decode_jwt_payload, needs_refresh, token_needs_refresh};
use crate::pool::AccountService;
use crate::text::{has_text, trim, trimmed, unique_filled, unique_non_empty, views};
use crate::value::{count_json, empty_object, int_json, list_view, or_else, Json, JsonView};

verus! {

broadcast use crate::value::group_json;

/// How many refresh tokens are kept alive at a time.
pub const REFRESH_TOKEN_KEEPALIVE_BATCH_SIZE: usize = 3;

// ---------------------------------------------------------------------------
// lists of tokens
// ---------------------------------------------------------------------------

/// The token of an account that is limited.
pub open spec fn limited_token() -> spec_fn(JsonView) -> Option<Seq<char>> {
    |a: JsonView|
        if is_at(a, "status"@, "限流"@) && field_text(a, "access_token"@).len() > 0 {
            Some(field_text(a, "access_token"@))
        } else {
            None
        }
}

impl AccountService {
    /// The tokens of the limited accounts, in order.
    pub fn list_limited_tokens(&self) -> (r: Vec<String>)
        ensures
            views(r@) == self@.accounts().filter_map(limited_token()),
    {
        let accounts = self.list_accounts();
        let ghost v = list_view(accounts@);
        let ghost f = limited_token();
        let mut out: Vec<String> = Vec::new();
        let mut i: usize = 0;
        assert(v.take(0).filter_map(f) =~= Seq::empty());
        assert(views(out@) =~= Seq::empty());
        while i < accounts.len()
            invariant
                i <= accounts@.len(),
                v == list_view(accounts@),
                f == limited_token(),
                views(out@) == v.take(i as int).filter_map(f),
            decreases accounts@.len() - i,
        {
            proof {
                v.lemma_filter_map_take_succ(f, i as int);
            }
            let ghost done = views(out@);
            if holds_at(&accounts[i], "status", "限流") {
                let t = text_at(&accounts[i], "access_token");
                if !t.as_str().is_empty() {
                    let ghost tv = t@;
                    out.push(t);
                    assert(views(out@) =~= done + seq![tv]);
                }
            }
            assert(views(out@) =~= v.take(i + 1).filter_map(f));
            i += 1;
        }
        assert(v.take(i as int) =~= v);
        out
    }
}

/// The token of an account that can be refreshed and is due for it.
pub open spec fn expiring_token(now: int) -> spec_fn(JsonView) -> Option<Seq<char>> {
    |a: JsonView|
        {
            let t = field_trim(a, "access_token"@);
            if field_trim(a, "refresh_token"@).len() > 0 && t.len() > 0 && needs_refresh(
                t,
                false,
                now,
            ) {
                Some(t)
            } else {
                None
            }
        }
}

impl AccountService {
    /// The tokens that are due for a refresh, in order.
    pub fn list_expiring_access_tokens(&self, now: i64) -> (r: Vec<String>)
        ensures
            views(r@) == self@.accounts().filter_map(expiring_token(now as int)),
    {
        let accounts = self.list_accounts();
        let ghost v = list_view(accounts@);
        let ghost f = expiring_token(now as int);
        let mut out: Vec<String> = Vec::new();
        let mut i: usize = 0;
        assert(v.take(0).filter_map(f) =~= Seq::empty());
        assert(views(out@) =~= Seq::empty());
        while i < accounts.len()
            invariant
                i <= accounts@.len(),
                v == list_view(accounts@),
                f == expiring_token(now as int),
                views(out@) == v.take(i as int).filter_map(f),
            decreases accounts@.len() - i,
        {
            proof {
                v.lemma_filter_map_take_succ(f, i as int);
            }
            let ghost done = views(out@);
            if !trim_at(&accounts[i], "refresh_token").as_str().is_empty() {
                let t = trim_at(&accounts[i], "access_token");
                if !t.as_str().is_empty() && token_needs_refresh(t.as_str(), false, now) {
                    let ghost tv = t@;
                    out.push(t);
                    assert(views(out@) =~= done + seq![tv]);
                }
            }
            assert(views(out@) =~= v.take(i + 1).filter_map(f));
            i += 1;
        }
        assert(v.take(i as int) =~= v);
        out
    }
}

/// A token and when its keepalive fell due.
pub open spec fn due_token(a: JsonView, now: Moment) -> Option<(DueAt, Seq<char>)> {
    let t = field_trim(a, "access_token"@);
    match keepalive_due(a, now) {
        Some(d) => if t.len() > 0 {
            Some((shifted(d.0, d.1), t))
        } else {
            None
        },
        None => None,
    }
}

/// Whether `a` fell due no later than `b`.
pub open spec fn due_first(a: DueAt, b: DueAt) -> bool {
    a.secs < b.secs || (a.secs == b.secs && a.nanos <= b.nanos)
}

/// A list in due order with one more entry, behind those that fell due at the same time.
pub open spec fn queued(s: Seq<(DueAt, Seq<char>)>, x: (DueAt, Seq<char>)) -> Seq<
    (DueAt, Seq<char>),
>
    decreases s.len(),
{
    if s.len() == 0 || due_first(s.last().0, x.0) {
        s.push(x)
    } else {
        queued(s.drop_last(), x).push(s.last())
    }
}

/// The tokens whose keepalive fell due, the longest ago first.
pub open spec fn due_queue(accounts: Seq<JsonView>, now: Moment) -> Seq<(DueAt, Seq<char>)>
    decreases accounts.len(),
{
    if accounts.len() == 0 {
        Seq::empty()
    } else {
        let q = due_queue(accounts.drop_last(), now);
        match due_token(accounts.last(), now) {
            Some(x) => queued(q, x),
            None => q,
        }
    }
}

/// The models of a queue.
pub open spec fn queue_view(q: Seq<(DueAt, String)>) -> Seq<(DueAt, Seq<char>)> {
    q.map_values(|x: (DueAt, String)| (x.0, x.1@))
}

/// A queue is in due order.
pub proof fn lemma_queue_sorted(accounts: Seq<JsonView>, now: Moment)
    ensures
        forall|i: int, j: int|
            0 <= i < j < due_queue(accounts, now).len() ==> due_first(
                (#[trigger] due_queue(accounts, now)[i]).0,
                (#[trigger] due_queue(accounts, now)[j]).0,
            ),
    decreases accounts.len(),
{
    if accounts.len() > 0 {
        lemma_queue_sorted(accounts.drop_last(), now);
        match due_token(accounts.last(), now) {
            Some(x) => {
                lemma_queued_sorted(due_queue(accounts.drop_last(), now), x);
            },
            None => {},
        }
    }
}

proof fn lemma_queued_sorted(s: Seq<(DueAt, Seq<char>)>, x: (DueAt, Seq<char>))
    requires
        forall|i: int, j: int|
            0 <= i < j < s.len() ==> due_first((#[trigger] s[i]).0, (#[trigger] s[j]).0),
    ensures
        forall|i: int, j: int|
            0 <= i < j < queued(s, x).len() ==> due_first(
                (#[trigger] queued(s, x)[i]).0,
                (#[trigger] queued(s, x)[j]).0,
            ),
        queued(s, x).len() == s.len() + 1,
        forall|i: int|
            0 <= i < queued(s, x).len() ==> (#[trigger] queued(s, x)[i] == x || s.contains(
                queued(s, x)[i],
            )),
    decreases s.len(),
{
    let q = queued(s, x);
    if s.len() == 0 || due_first(s.last().0, x.0) {
        assert forall|i: int, j: int| 0 <= i < j < q.len() implies due_first(
            (#[trigger] q[i]).0,
            (#[trigger] q[j]).0,
        ) by {
            if j == s.len() {
                assert(i == s.len() - 1 || due_first(s[i].0, s[s.len() - 1].0));
            } else {
                assert(due_first(s[i].0, s[j].0));
            }
        }
        assert forall|i: int| 0 <= i < q.len() implies #[trigger] q[i] == x || s.contains(q[i]) by {
            if i < s.len() {
                assert(s[i] == q[i]);
            }
        }
    } else {
        let init = s.drop_last();
        lemma_queued_sorted(init, x);
        let p = queued(init, x);
        assert forall|i: int| 0 <= i < p.len() implies due_first((#[trigger] p[i]).0, s.last().0)
            && (p[i] == x || s.contains(p[i])) by {
            if p[i] != x {
                let m = choose|m: int| 0 <= m < init.len() && init[m] == p[i];
                assert(s[m] == p[i]);
                assert(due_first(s[m].0, s[s.len() - 1].0));
            }
        }
        assert forall|i: int| 0 <= i < q.len() implies #[trigger] q[i] == x || s.contains(q[i]) by {
            if i < p.len() {
                assert(p[i] == q[i]);
            } else {
                assert(s[s.len() - 1] == q[i]);
            }
        }
        assert forall|i: int, j: int| 0 <= i < j < q.len() implies due_first(
            (#[trigger] q[i]).0,
            (#[trigger] q[j]).0,
        ) by {
            if j < p.len() {
                assert(due_first(p[i].0, p[j].0));
            } else {
                assert(q[i] == p[i]);
            }
        }
    }
}

fn enqueue(q: &mut Vec<(DueAt, String)>, due: DueAt, token: String)
    ensures
        queue_view(final(q)@) == queued(queue_view(old(q)@), (due, token@)),
{
    let ghost s = queue_view(q@);
    let ghost x = (due, token@);
    let mut i: usize = q.len();
    assert(s.take(s.len() as int) =~= s);
    assert(s.skip(s.len() as int) =~= Seq::empty());
    assert(queued(s, x) =~= queued(s, x) + s.skip(s.len() as int));
    while i > 0 && !(q[i - 1].0.secs < due.secs || (q[i - 1].0.secs == due.secs && q[i - 1].0.nanos
        <= due.nanos))
        invariant
            i <= q@.len(),
            s == queue_view(q@),
            x == (due, token@),
            queued(s, x) == queued(s.take(i as int), x) + s.skip(i as int),
        ensures
            i <= q@.len(),
            s == queue_view(q@),
            queued(s, x) == queued(s.take(i as int), x) + s.skip(i as int),
            i > 0 ==> due_first(s[i - 1].0, due),
        decreases i,
    {
        let ghost t = s.take(i as int);
        assert(t.drop_last() =~= s.take(i - 1));
        assert(queued(t, x) == queued(s.take(i - 1), x).push(s[i - 1]));
        assert(queued(s.take(i - 1), x).push(s[i - 1]) + s.skip(i as int) =~= queued(
            s.take(i - 1),
            x,
        ) + s.skip(i - 1));
        i -= 1;
    }
    q.insert(i, (due, token));
    assert(queued(s.take(i as int), x) == s.take(i as int).push(x));
    assert(queue_view(q@) =~= s.take(i as int).push(x) + s.skip(i as int));
}

impl AccountService {
    /// The tokens whose keepalive fell due the longest ago, one batch of them.
    pub fn list_refresh_token_keepalive_tokens(&self, now: Moment) -> (r: Vec<String>)
        ensures
            ({
                let q = due_queue(self@.accounts(), now);
                let n = if q.len() < REFRESH_TOKEN_KEEPALIVE_BATCH_SIZE {
                    q.len()
                } else {
                    REFRESH_TOKEN_KEEPALIVE_BATCH_SIZE as nat
                };
                views(r@) == q.take(n as int).map_values(|x: (DueAt, Seq<char>)| x.1)
            }),
            r@.len() <= 3,
            r@.len() == 3 || r@.len() == due_queue(self@.accounts(), now).len(),
    {
        let accounts = self.list_accounts();
        let ghost v = list_view(accounts@);
        let mut q: Vec<(DueAt, String)> = Vec::new();
        let mut i: usize = 0;
        assert(v.take(0) =~= Seq::empty());
        assert(queue_view(q@) =~= Seq::empty());
        while i < accounts.len()
            invariant
                i <= accounts@.len(),
                v == list_view(accounts@),
                queue_view(q@) == due_queue(v.take(i as int), now),
            decreases accounts@.len() - i,
        {
            assert(v.take(i + 1).drop_last() =~= v.take(i as int));
            match refresh_token_keepalive_due_at(&accounts[i], now) {
                Some(due) => {
                    let t = trim_at(&accounts[i], "access_token");
                    if !t.as_str().is_empty() {
                        enqueue(&mut q, due, t);
                    }
                },
                None => {},
            }
            i += 1;
        }
        assert(v.take(i as int) =~= v);
        let n: usize = if q.len() < REFRESH_TOKEN_KEEPALIVE_BATCH_SIZE {
            q.len()
        } else {
            REFRESH_TOKEN_KEEPALIVE_BATCH_SIZE
        };
        let ghost want = queue_view(q@).take(n as int).map_values(|x: (DueAt, Seq<char>)| x.1);
        let mut out: Vec<String> = Vec::new();
        let mut k: usize = 0;
        while k < n
            invariant
                k <= n <= q@.len(),
                want == queue_view(q@).take(n as int).map_values(|x: (DueAt, Seq<char>)| x.1),
                views(out@) =~= want.take(k as int),
            decreases n - k,
        {
            let ghost done = views(out@);
            out.push(q[k].1.clone());
            assert(views(out@) =~= done.push(want[k as int]));
            k += 1;
        }
        assert(views(out@) =~= want);
        out
    }
}

// ---------------------------------------------------------------------------
// statistics
// ---------------------------------------------------------------------------

/// The accounts with a status.
pub open spec fn with_status(status: Seq<char>) -> spec_fn(JsonView) -> bool {
    |a: JsonView| is_at(a, "status"@, status)
}

/// The accounts in order with a quota that is not known.
pub open spec fn boundless() -> spec_fn(JsonView) -> bool {
    |a: JsonView| is_at(a, "status"@, "正常"@) && a.bool_at("image_quota_unknown"@, false)
}

/// The quota that is left to the accounts in order.
pub open spec fn quota_left(accounts: Seq<JsonView>) -> i64
    decreases accounts.len(),
{
    if accounts.len() == 0 {
        0
    } else {
        let rest = quota_left(accounts.drop_last());
        let a = accounts.last();
        let quota = a.int_at("quota"@, 0);
        if is_at(a, "status"@, "正常"@) && quota > 0 {
            rest.wrapping_add(quota)
        } else {
            rest
        }
    }
}

/// The sum of the integers in the field `k`.
pub open spec fn sum_at(accounts: Seq<JsonView>, k: Seq<char>) -> i64
    decreases accounts.len(),
{
    if accounts.len() == 0 {
        0
    } else {
        sum_at(accounts.drop_last(), k).wrapping_add(accounts.last().int_at(k, 0))
    }
}

/// How many accounts there are of each type.
pub open spec fn type_counts(accounts: Seq<JsonView>) -> JsonView
    decreases accounts.len(),
{
    if accounts.len() == 0 {
        empty_object()
    } else {
        let counts = type_counts(accounts.drop_last());
        let t = match accounts.last().get("type"@) {
            Some(JsonView::Str(s)) => s,
            _ => "unknown"@,
        };
        counts.put(t, int_json(counts.int_at(t, 0).wrapping_add(1) as int))
    }
}

/// The statistics of the pool.
pub open spec fn statistics(accounts: Seq<JsonView>, total: i64) -> JsonView {
    empty_object().put("total"@, count_json(accounts.len())).put(
        "cumulative_total"@,
        int_json(total as int),
    ).put("active"@, count_json(accounts.filter(with_status("正常"@)).len())).put(
        "limited"@,
        count_json(accounts.filter(with_status("限流"@)).len()),
    ).put("abnormal"@, count_json(accounts.filter(with_status("异常"@)).len())).put(
        "disabled"@,
        count_json(accounts.filter(with_status("禁用"@)).len()),
    ).put("total_quota"@, int_json(quota_left(accounts) as int)).put(
        "unlimited_quota_count"@,
        count_json(accounts.filter(boundless()).len()),
    ).put("total_success"@, int_json(sum_at(accounts, "success"@) as int)).put(
        "total_fail"@,
        int_json(sum_at(accounts, "fail"@) as int),
    ).put("by_type"@, type_counts(accounts))
}

fn count_status(accounts: &Vec<Json>, status: &str) -> (r: usize)
    ensures
        r == list_view(accounts@).filter(with_status(status@)).len(),
{
    let ghost v = list_view(accounts@);
    let ghost keep = with_status(status@);
    let mut n: usize = 0;
    let mut i: usize = 0;
    assert(v.take(0).filter(keep).len() == 0) by {
        reveal(Seq::filter);
    }
    while i < accounts.len()
        invariant
            n <= i <= accounts@.len(),
            v == list_view(accounts@),
            keep == with_status(status@),
            n == v.take(i as int).filter(keep).len(),
        decreases accounts@.len() - i,
    {
        assert(v.take(i + 1).drop_last() =~= v.take(i as int));
        assert(v.take(i + 1).filter(keep).len() == n + (if keep(v[i as int]) {
            1int
        } else {
            0
        })) by {
            reveal(Seq::filter);
        }
        if holds_at(&accounts[i], "status", status) {
            n += 1;
        }
        i += 1;
    }
    assert(v.take(i as int) =~= v);
    n
}

fn count_boundless(accounts: &Vec<Json>) -> (r: usize)
    ensures
        r == list_view(accounts@).filter(boundless()).len(),
{
    let ghost v = list_view(accounts@);
    let ghost keep = boundless();
    let mut n: usize = 0;
    let mut i: usize = 0;
    assert(v.take(0).filter(keep).len() == 0) by {
        reveal(Seq::filter);
    }
    while i < accounts.len()
        invariant
            n <= i <= accounts@.len(),
            v == list_view(accounts@),
            keep == boundless(),
            n == v.take(i as int).filter(keep).len(),
        decreases accounts@.len() - i,
    {
        assert(v.take(i + 1).drop_last() =~= v.take(i as int));
        assert(v.take(i + 1).filter(keep).len() == n + (if keep(v[i as int]) {
            1int
        } else {
            0
        })) by {
            reveal(Seq::filter);
        }
        if holds_at(&accounts[i], "status", "正常") && accounts[i].bool_at(
            "image_quota_unknown",
            false,
        ) {
            n += 1;
        }
        i += 1;
    }
    assert(v.take(i as int) =~= v);
    n
}

fn sum_field(accounts: &Vec<Json>, k: &str) -> (r: i64)
    ensures
        r == sum_at(list_view(accounts@), k@),
{
    let ghost v = list_view(accounts@);
    let mut sum: i64 = 0;
    let mut i: usize = 0;
    while i < accounts.len()
        invariant
            i <= accounts@.len(),
            v == list_view(accounts@),
            sum == sum_at(v.take(i as int), k@),
        decreases accounts@.len() - i,
    {
        assert(v.take(i + 1).drop_last() =~= v.take(i as int));
        sum = sum.wrapping_add(accounts[i].int_at(k, 0));
        i += 1;
    }
    assert(v.take(i as int) =~= v);
    sum
}

fn total_quota(accounts: &Vec<Json>) -> (r: i64)
    ensures
        r == quota_left(list_view(accounts@)),
{
    let ghost v = list_view(accounts@);
    let mut sum: i64 = 0;
    let mut i: usize = 0;
    while i < accounts.len()
        invariant
            i <= accounts@.len(),
            v == list_view(accounts@),
            sum == quota_left(v.take(i as int)),
        decreases accounts@.len() - i,
    {
        assert(v.take(i + 1).drop_last() =~= v.take(i as int));
        let quota = accounts[i].int_at("quota", 0);
        if holds_at(&accounts[i], "status", "正常") && quota > 0 {
            sum = sum.wrapping_add(quota);
        }
        i += 1;
    }
    assert(v.take(i as int) =~= v);
    sum
}

fn count_types(accounts: &Vec<Json>) -> (r: Json)
    ensures
        r@ == type_counts(list_view(accounts@)),
{
    let ghost v = list_view(accounts@);
    let mut counts = Json::object();
    let mut i: usize = 0;
    while i < accounts.len()
        invariant
            i <= accounts@.len(),
            v == list_view(accounts@),
            counts@ == type_counts(v.take(i as int)),
        decreases accounts@.len() - i,
    {
        assert(v.take(i + 1).drop_last() =~= v.take(i as int));
        let t = match accounts[i].get("type") {
            Some(Json::Str(s)) => s.clone(),
            _ => "unknown".to_owned(),
        };
        let n = counts.int_at(t.as_str(), 0).wrapping_add(1);
        counts.set(t.as_str(), Json::from_int(n));
        i += 1;
    }
    assert(v.take(i as int) =~= v);
    counts
}

impl AccountService {
    /// The statistics of the pool.
    pub fn get_stats(&self) -> (r: Json)
        ensures
            r@ == statistics(self@.accounts(), self@.total),
    {
        let accounts = self.list_accounts();
        let mut out = Json::object();
        out.set("total", Json::from_count(accounts.len()));
        out.set("cumulative_total", Json::from_int(self.cumulative_total()));
        out.set("active", Json::from_count(count_status(&accounts, "正常")));
        out.set("limited", Json::from_count(count_status(&accounts, "限流")));
        out.set("abnormal", Json::from_count(count_status(&accounts, "异常")));
        out.set("disabled", Json::from_count(count_status(&accounts, "禁用")));
        out.set("total_quota", Json::from_int(total_quota(&accounts)));
        out.set("unlimited_quota_count", Json::from_count(count_boundless(&accounts)));
        out.set("total_success", Json::from_int(sum_field(&accounts, "success")));
        out.set("total_fail", Json::from_int(sum_field(&accounts, "fail")));
        out.set("by_type", count_types(&accounts));
        assert(list_view(accounts@).len() == accounts@.len());
        out
    }
}

/// Whether statistics show a pool that can serve.
pub open spec fn healthy(stats: JsonView) -> bool {
    stats.int_at("active"@, 0) > 0 || stats.int_at("unlimited_quota_count"@, 0) > 0
}

impl AccountService {
    /// The statistics of the pool with a verdict on its health.
    pub fn account_health(&self) -> (r: Json)
        ensures
            ({
                let stats = statistics(self@.accounts(), self@.total);
                r@ == stats.put("healthy"@, JsonView::Bool(healthy(stats))).put(
                    "status"@,
                    JsonView::Str(
                        if stats.int_at("active"@, 0) > 0 {
                            "ok"@
                        } else {
                            "degraded"@
                        },
                    ),
                )
            }),
            self@.accounts().len() <= i64::MAX && (exists|i: int|
                0 <= i < self@.accounts().len() && is_at(
                    #[trigger] self@.accounts()[i],
                    "status"@,
                    "正常"@,
                )) ==> r@.get("healthy"@) == Some(JsonView::Bool(true)) && r@.str_at("status"@)
                == "ok"@,
    {
        broadcast use crate::value::group_fields;

        proof {
            reveal_strlit("healthy");
            reveal_strlit("status");
            assert("healthy"@.len() == 7);
            assert("status"@.len() == 6);
            let all = self@.accounts();
            if all.len() <= i64::MAX && (exists|i: int|
                0 <= i < all.len() && is_at(#[trigger] all[i], "status"@, "正常"@)) {
                let i = choose|i: int|
                    0 <= i < all.len() && is_at(#[trigger] all[i], "status"@, "正常"@);
                crate::upkeep_laws::law_healthy(all, self@.total, i);
            }
        }
        let mut out = self.get_stats();
        let active = out.int_at("active", 0);
        let unlimited = out.int_at("unlimited_quota_count", 0);
        out.set("healthy", Json::Bool(active > 0 || unlimited > 0));
        out.set(
            "status",
            Json::from_text(
                if active > 0 {
                    "ok"
                } else {
                    "degraded"
                },
            ),
        );
        out
    }
}

// ---------------------------------------------------------------------------
// exports
// ---------------------------------------------------------------------------

/// The first of three texts that is not empty.
pub open spec fn first_of_three(a: Seq<char>, b: Seq<char>, c: Seq<char>) -> Seq<char> {
    or_else(a, or_else(b, c))
}

/// The export of an account; none where one of its three tokens is missing.
pub open spec fn exported(a: JsonView) -> Option<JsonView> {
    let access = field_trim(a, "access_token"@);
    let refresh = field_trim(a, "refresh_token"@);
    let id = field_trim(a, "id_token"@);
    let payload = claims(access);
    let auth = payload.at("https://api.openai.com/auth"@);
    let profile = payload.at("https://api.openai.com/profile"@);
    if access.len() == 0 || refresh.len() == 0 || id.len() == 0 {
        None
    } else {
        let item = empty_object().put(
            "type"@,
            JsonView::Str(or_else(field_trim(a, "export_type"@), "codex"@)),
        ).put(
            "email"@,
            JsonView::Str(
                first_of_three(
                    field_trim(a, "email"@),
                    trimmed(profile.str_at("email"@)),
                    trimmed(claims(id).str_at("email"@)),
                ),
            ),
        ).put(
            "account_id"@,
            JsonView::Str(
                first_of_three(
                    field_trim(a, "account_id"@),
                    trimmed(auth.str_at("chatgpt_account_id"@)),
                    field_trim(a, "user_id"@),
                ),
            ),
        ).put("access_token"@, JsonView::Str(access)).put(
            "refresh_token"@,
            JsonView::Str(refresh),
        ).put("id_token"@, JsonView::Str(id)).put(
            "expired"@,
            JsonView::Str(iso_of(payload.at("exp"@))),
        ).put("last_refresh"@, JsonView::Str(iso_of(payload.at("iat"@))));
        let password = field_trim(a, "password"@);
        Some(
            if password.len() == 0 {
                item
            } else {
                item.put("password"@, JsonView::Str(password))
            },
        )
    }
}

fn export(a: &Json) -> (r: Option<Json>)
    ensures
        match r {
            Some(j) => exported(a@) == Some(j@),
            None => exported(a@) is None,
        },
{
    let access = trim_at(a, "access_token");
    let refresh = trim_at(a, "refresh_token");
    let id = trim_at(a, "id_token");
    if access.as_str().is_empty() || refresh.as_str().is_empty() || id.as_str().is_empty() {
        return None;
    }
    let payload = decode_jwt_payload(access.as_str());
    let id_payload = decode_jwt_payload(id.as_str());
    let auth = payload.at("https://api.openai.com/auth");
    let profile = payload.at("https://api.openai.com/profile");
    let email = {
        let c = trim(id_payload.str_at("email").as_str());
        let b = non_empty_or(trim(profile.str_at("email").as_str()), c.as_str());
        non_empty_or(trim_at(a, "email"), b.as_str())
    };
    let account_id = {
        let c = trim_at(a, "user_id");
        let b = non_empty_or(trim(auth.str_at("chatgpt_account_id").as_str()), c.as_str());
        non_empty_or(trim_at(a, "account_id"), b.as_str())
    };
    let mut item = Json::object();
    item.set("type", Json::Str(non_empty_or(trim_at(a, "export_type"), "codex")));
    item.set("email", Json::Str(email));
    item.set("account_id", Json::Str(account_id));
    item.set("access_token", Json::Str(access));
    item.set("refresh_token", Json::Str(refresh));
    item.set("id_token", Json::Str(id));
    item.set("expired", Json::Str(timestamp_to_iso(&payload.at("exp"))));
    item.set("last_refresh", Json::Str(timestamp_to_iso(&payload.at("iat"))));
    let password = trim_at(a, "password");
    if !password.as_str().is_empty() {
        item.set("password", Json::Str(password));
    }
    Some(item)
}

/// The export of an account that was asked for; an empty list asks for all.
pub open spec fn export_of(wanted: Seq<Seq<char>>) -> spec_fn(JsonView) -> Option<JsonView> {
    |a: JsonView|
        if wanted.len() == 0 || wanted.contains(field_text(a, "access_token"@)) {
            exported(a)
        } else {
            None
        }
}

impl AccountService {
    /// The exports of the accounts of `access_tokens`, or of all accounts where none is named.
    pub fn build_export_items(&self, access_tokens: &Vec<String>) -> (r: Vec<Json>)
        ensures
            list_view(r@) == self@.accounts().filter_map(
                export_of(unique_filled(views(access_tokens@))),
            ),
    {
        let wanted = unique_non_empty(access_tokens);
        let accounts = self.list_accounts();
        let ghost v = list_view(accounts@);
        let ghost f = export_of(views(wanted@));
        let mut out: Vec<Json> = Vec::new();
        let mut i: usize = 0;
        assert(v.take(0).filter_map(f) =~= Seq::empty());
        assert(list_view(out@) =~= Seq::empty());
        assert(views(wanted@).len() == wanted@.len());
        while i < accounts.len()
            invariant
                i <= accounts@.len(),
                v == list_view(accounts@),
                f == export_of(views(wanted@)),
                views(wanted@).len() == wanted@.len(),
                list_view(out@) == v.take(i as int).filter_map(f),
            decreases accounts@.len() - i,
        {
            proof {
                v.lemma_filter_map_take_succ(f, i as int);
            }
            let ghost done = list_view(out@);
            if wanted.len() == 0 || has_text(
                &wanted,
                text_at(&accounts[i], "access_token").as_str(),
            ) {
                match export(&accounts[i]) {
                    Some(item) => {
                        let ghost iv = item@;
                        out.push(item);
                        assert(list_view(out@) =~= done + seq![iv]);
                    },
                    None => {},
                }
            }
            assert(list_view(out@) =~= v.take(i + 1).filter_map(f));
            i += 1;
        }
        assert(v.take(i as int) =~= v);
        out
    }
}

} // verus!
