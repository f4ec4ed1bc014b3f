//! The progress of refreshes and logins that run in the background.
use vstd::prelude::*;

use crate::account::{
    field_trim, is_at, lemma_normal_token, merged, normal_account, trim_at,
};
use crate::account_laws::{lemma_bare_stays, lemma_login_fields};
use crate::assoc::{
    lemma_lookup_found, lemma_lookup_put, lemma_put_at, lookup, put_entry, TextMap,
};
use crate::json::non_empty_or;
use crate::pool::AccountService;
use crate::pool_laws::lemma_same_names;
use crate::pool_model::{lemma_found_wf, lemma_put_wf, PoolView};
use crate::refresh::{error_entry, make_error_entry};
use crate::text::{trimmed, views};
use crate::value::{count_json, empty_object, int_json, list_view, or_else, Json, JsonView};

verus! {

broadcast use crate::value::group_json;

// ---------------------------------------------------------------------------
// one record of progress
// ---------------------------------------------------------------------------

/// The record with which a refresh of `total` accounts starts.
pub open spec fn refresh_begun(total: nat) -> JsonView {
    empty_object().put("total"@, count_json(total)).put("processed"@, int_json(0)).put(
        "done"@,
        JsonView::Bool(false),
    ).put("error"@, JsonView::Null).put(
        "status_counts"@,
        empty_object().put("正常"@, int_json(0)).put("限流"@, int_json(0)).put(
            "异常"@,
            int_json(0),
        ).put("禁用"@, int_json(0)),
    ).put("total_quota"@, int_json(0))
}

/// The record after the account of one more token was refreshed; none where it is gone.
pub open spec fn refresh_advanced(progress: JsonView, account: Option<JsonView>) -> JsonView {
    let status = match account {
        Some(a) => or_else(field_trim(a, "status"@), "正常"@),
        None => "正常"@,
    };
    let quota = match account {
        Some(a) => if a.int_at("quota"@, 0) < 0 {
            0
        } else {
            a.int_at("quota"@, 0)
        },
        None => 0,
    };
    let counts = progress.at("status_counts"@);
    progress.put(
        "processed"@,
        int_json(progress.int_at("processed"@, 0).wrapping_add(1) as int),
    ).put(
        "status_counts"@,
        counts.put(status, int_json(counts.int_at(status, 0).wrapping_add(1) as int)),
    ).put(
        "total_quota"@,
        int_json(progress.int_at("total_quota"@, 0).wrapping_add(quota) as int),
    )
}

/// The record with which a login of `total` accounts starts.
pub open spec fn login_begun(total: nat) -> JsonView {
    empty_object().put("total"@, count_json(total)).put("processed"@, int_json(0)).put(
        "done"@,
        JsonView::Bool(false),
    ).put("error"@, JsonView::Null).put("results"@, JsonView::Arr(Seq::empty()))
}

/// The result of one login.
pub open spec fn login_result(
    label: Seq<char>,
    status: Seq<char>,
    error: Option<Seq<char>>,
) -> JsonView {
    empty_object().put("token"@, JsonView::Str(label)).put("status"@, JsonView::Str(status)).put(
        "error"@,
        crate::value::opt_str(error),
    )
}

/// The record after one more login ended; it is done when all did.
pub open spec fn login_advanced(progress: JsonView, result: JsonView) -> JsonView {
    let n = progress.int_at("processed"@, 0).wrapping_add(1);
    let counted = progress.put("processed"@, int_json(n as int));
    let noted = match counted.get("results"@) {
        Some(JsonView::Arr(v)) => counted.put("results"@, JsonView::Arr(v.push(result))),
        _ => counted,
    };
    if n >= noted.int_at("total"@, 0) {
        noted.put("done"@, JsonView::Bool(true))
    } else {
        noted
    }
}

/// The record of what ended, with its result or its error.
pub open spec fn finished(
    progress: JsonView,
    result: Option<JsonView>,
    error: Option<Seq<char>>,
) -> JsonView {
    let done = progress.put("done"@, JsonView::Bool(true));
    let told = match result {
        Some(v) => done.put("result"@, v),
        None => done,
    };
    match error {
        Some(e) => told.put("error"@, JsonView::Str(e)),
        None => told,
    }
}

fn finish(progress: &mut Json, result: Option<&Json>, error: Option<&str>)
    ensures
        final(progress)@ == finished(
            old(progress)@,
            crate::value::opt_view(result),
            match error {
                Some(e) => Some(e@),
                None => None,
            },
        ),
{
    progress.set("done", Json::Bool(true));
    match result {
        Some(v) => {
            progress.set("result", v.copy());
        },
        None => {},
    }
    match error {
        Some(e) => {
            progress.set("error", Json::from_text(e));
        },
        None => {},
    }
}

// ---------------------------------------------------------------------------
// the board
// ---------------------------------------------------------------------------

/// The records of what runs in the background, by the names that they were given.
pub struct Board {
    refreshes: TextMap<Json>,
    logins: TextMap<Json>,
}

/// The record `v` in place of the one under `k`, where there is one.
pub open spec fn replaced_in(m: Map<Seq<char>, JsonView>, k: Seq<char>, v: JsonView) -> Map<
    Seq<char>,
    JsonView,
> {
    if m.dom().contains(k) {
        m.insert(k, v)
    } else {
        m
    }
}

impl Board {
    /// The records of refreshes.
    pub closed spec fn refreshes(self) -> Map<Seq<char>, JsonView> {
        self.refreshes@
    }

    /// The records of logins.
    pub closed spec fn logins(self) -> Map<Seq<char>, JsonView> {
        self.logins@
    }

    /// A board without records.
    pub fn new() -> (r: Board)
        ensures
            r.refreshes() == Map::<Seq<char>, JsonView>::empty(),
            r.logins() == Map::<Seq<char>, JsonView>::empty(),
    {
        Board { refreshes: TextMap::new(), logins: TextMap::new() }
    }

    /// Starts the record of a refresh.
    pub fn init_refresh_progress(&mut self, progress_id: &str, total: usize)
        ensures
            final(self).refreshes() == old(self).refreshes().insert(
                progress_id@,
                refresh_begun(total as nat),
            ),
            final(self).logins() == old(self).logins(),
    {
        let mut counts = Json::object();
        counts.set("正常", Json::from_int(0));
        counts.set("限流", Json::from_int(0));
        counts.set("异常", Json::from_int(0));
        counts.set("禁用", Json::from_int(0));
        let mut o = Json::object();
        o.set("total", Json::from_count(total));
        o.set("processed", Json::from_int(0));
        o.set("done", Json::Bool(false));
        o.set("error", Json::Null);
        o.set("status_counts", counts);
        o.set("total_quota", Json::from_int(0));
        self.refreshes.set(progress_id, o);
    }

    /// Counts one more refreshed account in.
    pub fn update_refresh_progress(&mut self, progress_id: &str, account: Option<&Json>)
        ensures
            final(self).refreshes() == replaced_in(
                old(self).refreshes(),
                progress_id@,
                refresh_advanced(
                    old(self).refreshes()[progress_id@],
                    crate::value::opt_view(account),
                ),
            ),
            final(self).logins() == old(self).logins(),
    {
        let mut progress = match self.refreshes.get(progress_id) {
            Some(p) => p.copy(),
            None => {
                return;
            },
        };
        let (status, quota): (String, i64) = match account {
            Some(a) => {
                let q = a.int_at("quota", 0);
                (
                    non_empty_or(trim_at(a, "status"), "正常"),
                    if q < 0 {
                        0
                    } else {
                        q
                    },
                )
            },
            None => ("正常".to_owned(), 0),
        };
        let mut counts = progress.at("status_counts");
        let sum = progress.int_at("total_quota", 0).wrapping_add(quota);
        let ghost start = progress@;
        let n = progress.int_at("processed", 0).wrapping_add(1);
        progress.set("processed", Json::from_int(n));
        let c = counts.int_at(status.as_str(), 0).wrapping_add(1);
        counts.set(status.as_str(), Json::from_int(c));
        progress.set("status_counts", counts);
        progress.set("total_quota", Json::from_int(sum));
        self.refreshes.set(progress_id, progress);
    }

    /// Ends the record of a refresh.
    pub fn finish_refresh_progress(
        &mut self,
        progress_id: &str,
        result: Option<&Json>,
        error: Option<&str>,
    )
        ensures
            final(self).refreshes() == replaced_in(
                old(self).refreshes(),
                progress_id@,
                finished(
                    old(self).refreshes()[progress_id@],
                    crate::value::opt_view(result),
                    match error {
                        Some(e) => Some(e@),
                        None => None,
                    },
                ),
            ),
            final(self).logins() == old(self).logins(),
    {
        let mut progress = match self.refreshes.get(progress_id) {
            Some(p) => p.copy(),
            None => {
                return;
            },
        };
        finish(&mut progress, result, error);
        self.refreshes.set(progress_id, progress);
    }

    /// The record of a refresh.
    pub fn get_refresh_progress(&self, progress_id: &str) -> (r: Option<Json>)
        ensures
            match r {
                Some(p) => self.refreshes().dom().contains(progress_id@)
                    && self.refreshes()[progress_id@] == p@,
                None => !self.refreshes().dom().contains(progress_id@),
            },
    {
        match self.refreshes.get(progress_id) {
            Some(p) => Some(p.copy()),
            None => None,
        }
    }

    /// Forgets the record of a refresh.
    pub fn clean_refresh_progress(&mut self, progress_id: &str)
        ensures
            final(self).refreshes() == old(self).refreshes().remove(progress_id@),
            final(self).logins() == old(self).logins(),
    {
        self.refreshes.remove(progress_id);
    }

    /// Starts the record of a login.
    pub fn init_relogin_progress(&mut self, progress_id: &str, total: usize)
        ensures
            final(self).logins() == old(self).logins().insert(
                progress_id@,
                login_begun(total as nat),
            ),
            final(self).refreshes() == old(self).refreshes(),
    {
        let none: Vec<Json> = Vec::new();
        assert(list_view(none@) =~= Seq::empty());
        let mut o = Json::object();
        o.set("total", Json::from_count(total));
        o.set("processed", Json::from_int(0));
        o.set("done", Json::Bool(false));
        o.set("error", Json::Null);
        o.set("results", Json::Arr(none));
        self.logins.set(progress_id, o);
    }

    /// Counts one more login in; `label` is the token in the form in which it is shown.
    pub fn update_relogin_progress(
        &mut self,
        progress_id: &str,
        label: &str,
        status: &str,
        error: Option<&str>,
    )
        ensures
            final(self).logins() == replaced_in(
                old(self).logins(),
                progress_id@,
                login_advanced(
                    old(self).logins()[progress_id@],
                    login_result(
                        label@,
                        status@,
                        match error {
                            Some(e) => Some(e@),
                            None => None,
                        },
                    ),
                ),
            ),
            final(self).refreshes() == old(self).refreshes(),
    {
        let mut progress = match self.logins.get(progress_id) {
            Some(p) => p.copy(),
            None => {
                return;
            },
        };
        let mut entry = Json::object();
        entry.set("token", Json::from_text(label));
        entry.set("status", Json::from_text(status));
        entry.set(
            "error",
            match error {
                Some(e) => Json::from_text(e),
                None => Json::Null,
            },
        );
        let n = progress.int_at("processed", 0).wrapping_add(1);
        progress.set("processed", Json::from_int(n));
        let results = match progress.get("results") {
            Some(Json::Arr(v)) => {
                let mut list = crate::json::copy_list(v);
                let ghost had = list_view(list@);
                let ghost ev = entry@;
                list.push(entry);
                assert(list_view(list@) =~= had.push(ev));
                Some(list)
            },
            _ => None,
        };
        match results {
            Some(list) => {
                progress.set("results", Json::Arr(list));
            },
            None => {},
        }
        if n >= progress.int_at("total", 0) {
            progress.set("done", Json::Bool(true));
        }
        self.logins.set(progress_id, progress);
    }

    /// Ends the record of a login.
    pub fn finish_relogin_progress(
        &mut self,
        progress_id: &str,
        result: Option<&Json>,
        error: Option<&str>,
    )
        ensures
            final(self).logins() == replaced_in(
                old(self).logins(),
                progress_id@,
                finished(
                    old(self).logins()[progress_id@],
                    crate::value::opt_view(result),
                    match error {
                        Some(e) => Some(e@),
                        None => None,
                    },
                ),
            ),
            final(self).refreshes() == old(self).refreshes(),
    {
        let mut progress = match self.logins.get(progress_id) {
            Some(p) => p.copy(),
            None => {
                return;
            },
        };
        finish(&mut progress, result, error);
        self.logins.set(progress_id, progress);
    }

    /// The record of a login.
    pub fn get_relogin_progress(&self, progress_id: &str) -> (r: Option<Json>)
        ensures
            match r {
                Some(p) => self.logins().dom().contains(progress_id@) && self.logins()[progress_id@]
                    == p@,
                None => !self.logins().dom().contains(progress_id@),
            },
    {
        match self.logins.get(progress_id) {
            Some(p) => Some(p.copy()),
            None => None,
        }
    }

    /// Forgets the record of a login.
    pub fn clean_relogin_progress(&mut self, progress_id: &str)
        ensures
            final(self).logins() == old(self).logins().remove(progress_id@),
            final(self).refreshes() == old(self).refreshes(),
    {
        self.logins.remove(progress_id);
    }
}

// ---------------------------------------------------------------------------
// logins
// ---------------------------------------------------------------------------

/// What a login with a password comes to for one account.
pub enum Login {
    /// There is no such account.
    Missing,
    /// The account has no address or no password.
    NoPassword,
    /// Logging in with a password is not possible.
    Unsupported,
}

/// What a login comes to for the account of a token.
pub open spec fn login_of(account: Option<JsonView>) -> Login {
    match account {
        None => Login::Missing,
        Some(a) => if field_trim(a, "email"@).len() == 0 || field_trim(a, "password"@).len() == 0 {
            Login::NoPassword
        } else {
            Login::Unsupported
        },
    }
}

/// Decides what a login comes to, and gives the status and the error to note.
pub fn try_login(account: Option<&Json>) -> (r: (Login, String, String))
    ensures
        r.0 == login_of(crate::value::opt_view(account)),
        r.1@ == (if r.0 is Unsupported {
            "异常"@
        } else {
            "跳过"@
        }),
        r.2@ == (match r.0 {
            Login::Missing => "账号不存在"@,
            Login::NoPassword => "无邮箱密码"@,
            Login::Unsupported => "password login not implemented"@,
        }),
        account is None ==> r.2@ == "账号不存在"@ && r.1@ == "跳过"@,
        account matches Some(a) ==> field_trim(a@, "email"@).len() > 0 && field_trim(
            a@,
            "password"@,
        ).len() > 0 ==> r.1@ == "异常"@,
        account matches Some(a) ==> field_trim(a@, "email"@).len() == 0 || field_trim(
            a@,
            "password"@,
        ).len() == 0 ==> r.1@ == "跳过"@ && r.2@ == "无邮箱密码"@,
{
    match account {
        None => (Login::Missing, "跳过".to_owned(), "账号不存在".to_owned()),
        Some(a) => if trim_at(a, "email").as_str().is_empty() || trim_at(
            a,
            "password",
        ).as_str().is_empty() {
            (Login::NoPassword, "跳过".to_owned(), "无邮箱密码".to_owned())
        } else {
            (
                Login::Unsupported,
                "异常".to_owned(),
                "password login not implemented".to_owned(),
            )
        },
    }
}

/// The errors of logins: one for each token without an account. `labels` are the tokens in the
/// form in which they are shown.
pub open spec fn login_errors(
    found: spec_fn(Seq<char>) -> Option<JsonView>,
    tokens: Seq<Seq<char>>,
    labels: Seq<Seq<char>>,
) -> Seq<JsonView>
    decreases tokens.len(),
{
    if tokens.len() == 0 || labels.len() == 0 {
        Seq::empty()
    } else {
        let rest = login_errors(found, tokens.drop_last(), labels.drop_last());
        if login_of(found(tokens.last())) is Missing {
            rest.push(error_entry(labels.last(), "账号不存在"@))
        } else {
            rest
        }
    }
}

/// How many accounts were skipped for want of a password.
pub open spec fn login_skips(
    found: spec_fn(Seq<char>) -> Option<JsonView>,
    tokens: Seq<Seq<char>>,
) -> nat
    decreases tokens.len(),
{
    if tokens.len() == 0 {
        0
    } else {
        login_skips(found, tokens.drop_last()) + (if login_of(found(tokens.last())) is NoPassword {
            1nat
        } else {
            0
        })
    }
}

/// The accounts of the pool, by token.
pub open spec fn finds(p: crate::pool_model::PoolView) -> spec_fn(Seq<char>) -> Option<JsonView> {
    |t: Seq<char>| p.find(t)
}

/// What is noted of an account that could not be logged in.
pub open spec fn marked_abnormal() -> JsonView {
    empty_object().put("status"@, JsonView::Str("异常"@))
}

/// The pool after logins of the accounts of `tokens`: those that would need a password are marked
/// abnormal.
pub open spec fn relogged(p: PoolView, tokens: Seq<Seq<char>>, now: Seq<char>) -> PoolView
    decreases tokens.len(),
{
    if tokens.len() == 0 {
        p
    } else {
        let q = relogged(p, tokens.drop_last(), now);
        if login_of(q.find(tokens.last())) is Unsupported {
            q.updated(tokens.last(), marked_abnormal(), false, now).0
        } else {
            q
        }
    }
}

/// Whether a login marks the account under `k`.
pub open spec fn is_marked(p: PoolView, tokens: Seq<Seq<char>>, k: Seq<char>) -> bool {
    exists|i: int|
        0 <= i < tokens.len() && login_of(p.find(#[trigger] tokens[i])) is Unsupported && p.resolve(
            tokens[i],
        ) == k
}

/// Marking an account leaves its address and its password.
proof fn lemma_marked(a: JsonView, t: Seq<char>, now: Seq<char>)
    requires
        a is Obj,
        t.len() > 0,
        is_at(a, "access_token"@, t),
    ensures
        ({
            let r = merged(a, marked_abnormal()).put("access_token"@, JsonView::Str(t));
            let b = normal_account(r, now);
            &&& b is Some
            &&& b->0 is Obj
            &&& is_at(b->0, "access_token"@, t)
            &&& is_at(b->0, "status"@, "异常"@)
            &&& login_of(b) == login_of(Some(a))
        }),
{
    broadcast use crate::value::group_fields;

    let m = marked_abnormal()->Obj_0;
    reveal_with_fuel(crate::assoc::put_all, 2);
    assert(m.len() == 1 && m[0] == ("status"@, JsonView::Str("异常"@))) by {
        reveal_with_fuel(crate::assoc::put_entry, 2);
    }
    assert(m.drop_last() =~= Seq::empty());
    assert(merged(a, marked_abnormal()) == a.put("status"@, JsonView::Str("异常"@)));
    let r = merged(a, marked_abnormal()).put("access_token"@, JsonView::Str(t));
    reveal_strlit("access_token");
    reveal_strlit("accessToken");
    reveal_strlit("status");
    reveal_strlit("email");
    reveal_strlit("password");
    reveal_strlit("export_type");
    reveal_strlit("type");
    reveal_strlit("异常");
    assert("access_token"@.len() == 12 && "access_token"@[0] == 'a');
    assert("accessToken"@.len() == 11 && "accessToken"@[0] == 'a');
    assert("status"@.len() == 6 && "status"@[0] == 's');
    assert("email"@.len() == 5 && "email"@[0] == 'e');
    assert("password"@.len() == 8 && "password"@[0] == 'p');
    assert("export_type"@.len() == 11 && "export_type"@[0] == 'e');
    assert("type"@.len() == 4 && "type"@[0] == 't');
    assert("异常"@.len() == 2);
    assert(r.get("status"@) == Some(JsonView::Str("异常"@)));
    assert(r.get("email"@) == a.get("email"@));
    assert(r.get("password"@) == a.get("password"@));
    lemma_login_fields(r, now);
    lemma_normal_token(r, now);
    lemma_bare_stays(Seq::empty());
}

/// What logins leave: the tokens, what they stand for, the slots, and every account that is not
/// marked.
proof fn lemma_relogged(p: PoolView, tokens: Seq<Seq<char>>, now: Seq<char>)
    requires
        p.wf(),
    ensures
        ({
            let q = relogged(p, tokens, now);
            &&& q.wf()
            &&& q.aliases == p.aliases
            &&& q.inflight == p.inflight
            &&& q.index == p.index
            &&& q.total == p.total
            &&& q.tokens() == p.tokens()
            &&& forall|t: Seq<char>| #[trigger] q.resolve(t) == p.resolve(t)
            &&& forall|t: Seq<char>| #[trigger] login_of(q.find(t)) == login_of(p.find(t))
            &&& forall|k: Seq<char>| #[trigger]
                is_marked(p, tokens, k) ==> lookup(q.entries, k) is Some && is_at(
                    lookup(q.entries, k)->0,
                    "status"@,
                    "异常"@,
                )
            &&& forall|k: Seq<char>|
                !is_marked(p, tokens, k) ==> #[trigger] lookup(q.entries, k) == lookup(
                    p.entries,
                    k,
                )
        }),
    decreases tokens.len(),
{
    let q = relogged(p, tokens, now);
    if tokens.len() > 0 {
        let init = tokens.drop_last();
        let t = tokens.last();
        lemma_relogged(p, init, now);
        let b = relogged(p, init, now);
        assert(login_of(b.find(t)) == login_of(p.find(t)));
        assert(b.resolve(t) == p.resolve(t));
        assert forall|k: Seq<char>| #[trigger] is_marked(p, tokens, k) implies is_marked(p, init, k)
            || (login_of(p.find(t)) is Unsupported && k == p.resolve(t)) by {
            let i = choose|i: int|
                0 <= i < tokens.len() && login_of(p.find(#[trigger] tokens[i])) is Unsupported
                    && p.resolve(tokens[i]) == k;
            if i < init.len() {
                assert(init[i] == tokens[i]);
            }
        }
        assert forall|k: Seq<char>| #[trigger] is_marked(p, init, k) implies is_marked(
            p,
            tokens,
            k,
        ) by {
            let i = choose|i: int|
                0 <= i < init.len() && login_of(p.find(#[trigger] init[i])) is Unsupported
                    && p.resolve(init[i]) == k;
            assert(tokens[i] == init[i]);
        }
        if login_of(b.find(t)) is Unsupported {
            let r = b.resolve(t);
            let a = b.find(t)->0;
            assert(lookup(b.entries, r) == Some(a));
            lemma_found_wf(b, r);
            lemma_marked(a, r, now);
            let n = normal_account(
                merged(a, marked_abnormal()).put("access_token"@, JsonView::Str(r)),
                now,
            )->0;
            reveal_strlit("异常");
            reveal_strlit("限流");
            assert("异常"@[0] == '异' && "限流"@[0] == '限');
            assert(q.entries == put_entry(b.entries, r, n));
            assert(q == b.with_entries(put_entry(b.entries, r, n)));
            lemma_put_wf(b, r, n);
            assert(is_marked(p, tokens, r)) by {
                assert(tokens[tokens.len() - 1] == t);
            }
            lemma_put_names(b.entries, r, n);
            assert(q.tokens() =~= b.tokens());
            assert forall|x: Seq<char>| #[trigger] q.resolve(x) == p.resolve(x) by {
                lemma_same_names(b, q, trimmed(x), Set::empty(), b.aliases.dom().len() + 1);
                assert(b.resolve(x) == p.resolve(x));
            }
            assert forall|x: Seq<char>| #[trigger] login_of(q.find(x)) == login_of(p.find(x)) by {
                assert(login_of(b.find(x)) == login_of(p.find(x)));
                assert(q.resolve(x) == p.resolve(x));
                assert(b.resolve(x) == p.resolve(x));
                lemma_lookup_put(b.entries, r, n, b.resolve(x));
            }
            assert forall|k: Seq<char>| #[trigger] is_marked(p, tokens, k) implies lookup(
                q.entries,
                k,
            ) is Some && is_at(lookup(q.entries, k)->0, "status"@, "异常"@) by {
                lemma_lookup_put(b.entries, r, n, k);
            }
            assert forall|k: Seq<char>| !is_marked(p, tokens, k) implies #[trigger] lookup(
                q.entries,
                k,
            ) == lookup(p.entries, k) by {
                lemma_lookup_put(b.entries, r, n, k);
                assert(!is_marked(p, init, k));
            }
        }
    }
}

proof fn lemma_put_names(o: Seq<(Seq<char>, JsonView)>, k: Seq<char>, v: JsonView)
    requires
        lookup(o, k) is Some,
    ensures
        put_entry(o, k, v).len() == o.len(),
        forall|i: int| 0 <= i < o.len() ==> (#[trigger] put_entry(o, k, v)[i]).0 == o[i].0,
{
    lemma_lookup_found(o, k);
    let at = choose|i: int|
        0 <= i < o.len() && #[trigger] o[i] == (k, lookup(o, k)->0) && forall|j: int|
            0 <= j < i ==> (#[trigger] o[j]).0 != k;
    lemma_put_at(o, k, v, at);
}

impl AccountService {
    /// Logs the accounts of `tokens` in again, which are shown as `labels`, and reports on that.
    /// Logging in with a password is not possible: an account with an address and a password is
    /// marked abnormal instead.
    pub fn re_login_accounts(&mut self, tokens: &Vec<String>, labels: &Vec<String>, now: &str) -> (r:
        Json)
        requires
            old(self)@.wf(),
            tokens@.len() == labels@.len(),
        ensures
            final(self)@.wf(),
            final(self)@ == relogged(old(self)@, views(tokens@), now@),
            r@ == empty_object().put("relogined"@, count_json(0)).put(
                "skipped"@,
                count_json(login_skips(finds(old(self)@), views(tokens@))),
            ).put(
                "errors"@,
                JsonView::Arr(login_errors(finds(old(self)@), views(tokens@), views(labels@))),
            ).put("items"@, JsonView::Arr(final(self)@.accounts())),
            forall|i: int|
                0 <= i < tokens@.len() && login_of(
                    old(self)@.find(#[trigger] views(tokens@)[i]),
                ) is Unsupported ==> {
                    let a = final(self)@.find(views(tokens@)[i]);
                    a is Some && is_at(a->0, "status"@, "异常"@)
                },
            forall|k: Seq<char>|
                !is_marked(old(self)@, views(tokens@), k) ==> #[trigger] lookup(
                    final(self)@.entries,
                    k,
                ) == lookup(old(self)@.entries, k),
            final(self)@.tokens() == old(self)@.tokens(),
    {
        let mut skipped: usize = 0;
        let mut errors: Vec<Json> = Vec::new();
        let mut i: usize = 0;
        let ghost ts = views(tokens@);
        let ghost ls = views(labels@);
        let ghost start = self@;
        let ghost f = finds(start);
        assert(list_view(errors@) =~= Seq::empty());
        while i < tokens.len()
            invariant
                skipped <= i <= tokens@.len(),
                tokens@.len() == labels@.len(),
                ts == views(tokens@),
                ls == views(labels@),
                start.wf(),
                start == old(self)@,
                f == finds(start),
                self@.wf(),
                self@ == relogged(start, ts.take(i as int), now@),
                skipped == login_skips(f, ts.take(i as int)),
                list_view(errors@) == login_errors(f, ts.take(i as int), ls.take(i as int)),
            decreases tokens@.len() - i,
        {
            assert(ts.take(i + 1).drop_last() =~= ts.take(i as int));
            assert(ls.take(i + 1).drop_last() =~= ls.take(i as int));
            proof {
                lemma_relogged(start, ts.take(i as int), now@);
                lemma_relogged(start, ts.take(i + 1), now@);
                assert(login_of(self@.find(ts[i as int])) == login_of(start.find(ts[i as int])));
            }
            let account = self.get_account(tokens[i].as_str());
            let (login, _, text) = try_login(account.as_ref());
            match login {
                Login::Missing => {
                    let ghost done = list_view(errors@);
                    let entry = make_error_entry(labels[i].as_str(), text.as_str());
                    let ghost ev = entry@;
                    errors.push(entry);
                    assert(list_view(errors@) =~= done.push(ev));
                },
                Login::NoPassword => {
                    skipped += 1;
                },
                Login::Unsupported => {
                    let mut mark = Json::object();
                    mark.set("status", Json::from_text("异常"));
                    self.update_account(tokens[i].as_str(), &mark, false, now);
                },
            }
            i += 1;
        }
        assert(ts.take(i as int) =~= ts);
        assert(ls.take(i as int) =~= ls);
        proof {
            lemma_relogged(start, ts, now@);
            assert forall|j: int|
                0 <= j < tokens@.len() && login_of(start.find(#[trigger] ts[j])) is Unsupported implies {
                let a = self@.find(ts[j]);
                a is Some && is_at(a->0, "status"@, "异常"@)
            } by {
                assert(is_marked(start, ts, start.resolve(ts[j])));
                assert(self@.resolve(ts[j]) == start.resolve(ts[j]));
            }
        }
        let mut o = Json::object();
        o.set("relogined", Json::from_count(0));
        o.set("skipped", Json::from_count(skipped));
        o.set("errors", Json::Arr(errors));
        o.set("items", Json::Arr(self.list_accounts()));
        o
    }
}

} // verus!
