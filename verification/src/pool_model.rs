//! The model of the account pool: what it holds, and what each operation makes of it.
use vstd::prelude::*;

use crate::account::{
    field_text, is_at, merged, normal_account, opt_text, payload_token, serves, Wanted,
};
use crate::assoc::{
    distinct_names, drop_entry, lemma_drop_shape, lemma_lookup_found, lemma_put_shape, lookup,
    put_entry, retained,
};
use crate::text::trimmed;
use crate::value::{empty_object, int_json, or_else, JsonView};

verus! {

/// What the pool holds.
pub struct PoolView {
    /// The accounts under their tokens, in the order in which the tokens came.
    pub entries: Seq<(Seq<char>, JsonView)>,
    /// The turn of the round robin.
    pub index: usize,
    /// The image slots that are taken, by token; a token without taken slots is absent.
    pub inflight: Map<Seq<char>, i64>,
    /// The tokens that were replaced, each with the one that replaced it.
    pub aliases: Map<Seq<char>, Seq<char>>,
    /// How many accounts were ever added.
    pub total: i64,
}

impl PoolView {
    /// Every account stands once, under the token that it holds, no token has fewer than no slots
    /// taken, and finitely many tokens were replaced.
    pub open spec fn wf(self) -> bool {
        &&& distinct_names(self.entries)
        &&& self.aliases.dom().finite()
        &&& forall|t: Seq<char>| #[trigger]
            self.inflight.dom().contains(t) ==> self.inflight[t] >= 0
        &&& forall|i: int|
            0 <= i < self.entries.len() ==> {
                &&& (#[trigger] self.entries[i]).0.len() > 0
                &&& self.entries[i].1 is Obj
                &&& is_at(self.entries[i].1, "access_token"@, self.entries[i].0)
            }
    }

    pub open spec fn with_entries(self, entries: Seq<(Seq<char>, JsonView)>) -> PoolView {
        PoolView { entries, ..self }
    }

    pub open spec fn with_inflight(self, inflight: Map<Seq<char>, i64>) -> PoolView {
        PoolView { inflight, ..self }
    }

    pub open spec fn with_index(self, index: usize) -> PoolView {
        PoolView { index, ..self }
    }

    // ---- tokens ----
    /// Whether the search for the account of a token ends at `token`: it is empty, has an
    /// account, was not replaced, or was seen before.
    pub open spec fn halts(self, token: Seq<char>, seen: Set<Seq<char>>) -> bool {
        ||| token.len() == 0
        ||| lookup(self.entries, token) is Some
        ||| !self.aliases.dom().contains(token)
        ||| seen.contains(token)
    }

    /// Follows replaced tokens for at most `steps` steps.
    pub open spec fn chase(self, token: Seq<char>, seen: Set<Seq<char>>, steps: nat) -> Seq<char>
        decreases steps,
    {
        if steps == 0 || self.halts(token, seen) {
            token
        } else {
            self.chase(self.aliases[token], seen.insert(token), (steps - 1) as nat)
        }
    }

    /// The token that stands for `token` now.
    pub open spec fn resolve(self, token: Seq<char>) -> Seq<char> {
        self.chase(trimmed(token), Set::empty(), self.aliases.dom().len() + 1)
    }

    /// The account of a token.
    pub open spec fn find(self, token: Seq<char>) -> Option<JsonView> {
        if token.len() == 0 {
            None
        } else {
            lookup(self.entries, self.resolve(token))
        }
    }

    /// The accounts, in order.
    pub open spec fn accounts(self) -> Seq<JsonView> {
        self.entries.map_values(|e: (Seq<char>, JsonView)| e.1)
    }

    /// The tokens, in order.
    pub open spec fn tokens(self) -> Seq<Seq<char>> {
        self.entries.map_values(|e: (Seq<char>, JsonView)| e.0)
    }

    // ---- image slots ----
    /// How many image slots of a token are taken.
    pub open spec fn slots(self, token: Seq<char>) -> i64 {
        if self.inflight.dom().contains(token) {
            self.inflight[token]
        } else {
            0
        }
    }

    /// The tokens that can serve a request, in order.
    pub open spec fn ready(self, excluded: Seq<Seq<char>>, wanted: Wanted) -> Seq<Seq<char>> {
        self.entries.filter_map(ready_token(excluded, wanted))
    }

    /// Those of them with a free slot.
    pub open spec fn available(
        self,
        excluded: Seq<Seq<char>>,
        wanted: Wanted,
        concurrency: int,
    ) -> Seq<Seq<char>> {
        self.ready(excluded, wanted).filter(has_slot(self, concurrency))
    }

    /// The pool after a slot of `token` was taken and the turn passed on.
    pub open spec fn taken(self, token: Seq<char>) -> PoolView {
        self.with_index(self.index.wrapping_add(1)).with_inflight(
            self.inflight.insert(token, (self.slots(token) + 1) as i64),
        )
    }

    /// The token that is handed out next, where one is available.
    pub open spec fn turn(
        self,
        excluded: Seq<Seq<char>>,
        wanted: Wanted,
        concurrency: int,
    ) -> Seq<char> {
        let free = self.available(excluded, wanted, concurrency);
        free[self.index as int % free.len() as int]
    }

    /// The pool after `k` requests in a row that each were handed a token, and these tokens.
    pub open spec fn turns(
        self,
        excluded: Seq<Seq<char>>,
        wanted: Wanted,
        concurrency: int,
        k: nat,
    ) -> (PoolView, Seq<Seq<char>>)
        decreases k,
    {
        if k == 0 {
            (self, Seq::empty())
        } else {
            let (p, got) = self.turns(excluded, wanted, concurrency, (k - 1) as nat);
            let t = p.turn(excluded, wanted, concurrency);
            (p.taken(t), got.push(t))
        }
    }

    /// The pool after a slot of `token` was given back.
    pub open spec fn released(self, token: Seq<char>) -> PoolView {
        if token.len() == 0 {
            self
        } else {
            let t = self.resolve(token);
            let n = self.slots(t);
            if n <= 1 {
                self.with_inflight(self.inflight.remove(t))
            } else {
                self.with_inflight(self.inflight.insert(t, (n - 1) as i64))
            }
        }
    }

    /// The tokens that can hold a text conversation, in order.
    pub open spec fn talkative(self, excluded: Seq<Seq<char>>) -> Seq<Seq<char>> {
        self.entries.filter_map(text_token(excluded))
    }

    // ---- changes of one account ----
    /// The pool with the account made of `record` under `token`.
    pub open spec fn renewed(self, token: Seq<char>, record: JsonView, now: Seq<char>) -> PoolView {
        match normal_account(record, now) {
            Some(a) => self.with_entries(put_entry(self.entries, token, a)),
            None => self,
        }
    }

    /// The pool with one field of a token's account set.
    pub open spec fn touched(
        self,
        token: Seq<char>,
        k: Seq<char>,
        v: JsonView,
        now: Seq<char>,
    ) -> PoolView {
        match self.find(token) {
            Some(a) => self.renewed(self.resolve(token), a.put(k, v), now),
            None => self,
        }
    }

    /// The pool after `record` replaced the account of `token`, and the account where it is
    /// there: a limited one is taken out where `drop_limited` says so.
    pub open spec fn settled(
        self,
        token: Seq<char>,
        record: JsonView,
        drop_limited: bool,
        now: Seq<char>,
    ) -> (PoolView, Option<JsonView>) {
        match normal_account(record, now) {
            Some(a) => if is_at(a, "status"@, "限流"@) && drop_limited {
                (self.with_entries(drop_entry(self.entries, token)), None)
            } else {
                (self.with_entries(put_entry(self.entries, token, a)), Some(a))
            },
            None => (self, None),
        }
    }

    /// The pool after `updates` were set over the account of `token`, and that account.
    pub open spec fn updated(
        self,
        token: Seq<char>,
        updates: JsonView,
        drop_limited: bool,
        now: Seq<char>,
    ) -> (PoolView, Option<JsonView>) {
        match self.find(token) {
            Some(a) => {
                let t = self.resolve(token);
                self.settled(
                    t,
                    merged(a, updates).put("access_token"@, JsonView::Str(t)),
                    drop_limited,
                    now,
                )
            },
            None => (self, None),
        }
    }

    // ---- adding ----
    /// The pool after one payload was added under its token.
    pub open spec fn admitted(self, t: Seq<char>, payload: JsonView, now: Seq<char>) -> PoolView {
        let base = match lookup(self.entries, t) {
            Some(a) => a,
            None => empty_object().put("created_at"@, JsonView::Str(now)),
        };
        let counted = match lookup(self.entries, t) {
            Some(_) => self,
            None => PoolView { total: self.total.wrapping_add(1), ..self },
        };
        counted.renewed(t, combined(base, payload, t), now)
    }

    /// The pool after a list of payloads was added, and how many of them were new and how many
    /// were there before.
    pub open spec fn admitted_all(
        self,
        payloads: Seq<(Seq<char>, JsonView)>,
        now: Seq<char>,
    ) -> (PoolView, nat, nat)
        decreases payloads.len(),
    {
        if payloads.len() == 0 {
            (self, 0, 0)
        } else {
            let (p, added, skipped) = self.admitted_all(payloads.drop_last(), now);
            let (t, payload) = payloads.last();
            let q = p.admitted(t, payload, now);
            if lookup(p.entries, t) is Some {
                (q, added, skipped + 1)
            } else {
                (q, added + 1, skipped)
            }
        }
    }

    // ---- deleting ----
    /// The tokens that stand for `tokens` now, each once; empty ones name none.
    pub open spec fn targets(self, tokens: Seq<Seq<char>>) -> Seq<Seq<char>>
        decreases tokens.len(),
    {
        if tokens.len() == 0 {
            Seq::empty()
        } else {
            let done = self.targets(tokens.drop_last());
            let t = self.resolve(tokens.last());
            if tokens.last().len() == 0 || done.contains(t) {
                done
            } else {
                done.push(t)
            }
        }
    }

    /// The pool without the accounts, the slots and the aliases of the tokens `gone`.
    pub open spec fn purged(self, gone: Seq<Seq<char>>) -> PoolView {
        let entries = self.entries.filter(outside(gone));
        PoolView {
            entries,
            inflight: self.inflight.remove_keys(gone.to_set()),
            aliases: retained(self.aliases, gone),
            index: if entries.len() == self.entries.len() {
                self.index
            } else if entries.len() == 0 {
                0
            } else {
                (self.index as int % entries.len() as int) as usize
            },
            total: self.total,
        }
    }

    /// The pool after the accounts of `tokens` were deleted.
    pub open spec fn deleted(self, tokens: Seq<Seq<char>>) -> PoolView {
        let gone = self.targets(tokens);
        if gone.len() == 0 {
            self
        } else {
            self.purged(gone)
        }
    }

    /// The pool after a token was found to be invalid: its account is deleted where
    /// `drop_invalid` says so, else marked abnormal. Tells whether it was deleted.
    pub open spec fn invalidated(
        self,
        token: Seq<char>,
        drop_invalid: bool,
        drop_limited: bool,
        now: Seq<char>,
    ) -> (PoolView, bool) {
        let without = self.deleted(seq![token]);
        if drop_invalid && without.entries.len() < self.entries.len() {
            (without, true)
        } else if drop_invalid {
            (without.updated(token, abnormal(), drop_limited, now).0, false)
        } else {
            (self.updated(token, abnormal(), drop_limited, now).0, false)
        }
    }

    /// The pool after an image request ended, and the account of its token.
    pub open spec fn image_settled(
        self,
        token: Seq<char>,
        success: bool,
        drop_limited: bool,
        used_at: Seq<char>,
        now: Seq<char>,
    ) -> (PoolView, Option<JsonView>) {
        let p = self.released(token);
        match p.find(token) {
            Some(a) => p.settled(p.resolve(token), image_done(a, success, used_at), drop_limited, now),
            None => (p, None),
        }
    }

    /// The pool after the attempt to refresh a token failed.
    pub open spec fn refresh_failed(
        self,
        token: Seq<char>,
        error: Seq<char>,
        at: Seq<char>,
        now: Seq<char>,
    ) -> PoolView {
        match lookup(self.entries, self.resolve(token)) {
            Some(a) => self.renewed(
                self.resolve(token),
                a.put(
                    "last_token_refresh_error"@,
                    JsonView::Str(or_else(error, "refresh token failed"@)),
                ).put("last_token_refresh_error_at"@, JsonView::Str(at)),
                now,
            ),
            None => self,
        }
    }

    /// The pool after an account's data came in: its errors are cleared.
    pub open spec fn refresh_succeeded(self, token: Seq<char>, now: Seq<char>) -> PoolView {
        match lookup(self.entries, self.resolve(token)) {
            Some(a) => self.renewed(self.resolve(token), cleared(a), now),
            None => self,
        }
    }

    /// The pool after the upstream called a token invalid.
    pub open spec fn invalid_seen(
        self,
        token: Seq<char>,
        error: Seq<char>,
        at: Seq<char>,
        now: Seq<char>,
    ) -> PoolView {
        match lookup(self.entries, self.resolve(token)) {
            Some(a) => self.renewed(self.resolve(token), invalid_once_more(a, error, at), now),
            None => self,
        }
    }

    /// The pool after a token was refreshed with `data`, the token that the account has now,
    /// and whether that is a new one.
    pub open spec fn refreshed(
        self,
        token: Seq<char>,
        data: JsonView,
        at: Seq<char>,
        now: Seq<char>,
    ) -> (PoolView, Seq<char>, bool) {
        let from = self.resolve(token);
        let to = trimmed(
            match data.get("access_token"@) {
                Some(JsonView::Str(s)) => s,
                _ => from,
            },
        );
        match lookup(self.entries, from) {
            Some(a) => if to.len() == 0 {
                (self, from, false)
            } else {
                match normal_account(with_tokens(a, to, data, at), now) {
                    Some(n) => (self.rotated(from, to, n), to, to != from),
                    None => (self, from, false),
                }
            },
            None => (self, from, false),
        }
    }

    // ---- rotation ----
    /// The pool after `account` took the place of the account of `from`, under the token `to`.
    pub open spec fn rotated(self, from: Seq<char>, to: Seq<char>, account: JsonView) -> PoolView {
        if to == from {
            self.with_entries(put_entry(self.entries, to, account))
        } else {
            PoolView {
                entries: put_entry(drop_entry(self.entries, from), to, account),
                aliases: self.aliases.insert(from, to),
                inflight: if self.slots(from) != 0 {
                    let rest = self.inflight.remove(from);
                    rest.insert(to, added_slots(self.slots(to), self.slots(from)))
                } else {
                    self.inflight.remove(from)
                },
                index: self.index,
                total: self.total,
            }
        }
    }
}

/// Two numbers of slots together, cut at the largest that can be counted.
pub open spec fn added_slots(a: i64, b: i64) -> i64 {
    if a + b > i64::MAX {
        i64::MAX
    } else {
        (a + b) as i64
    }
}

/// The token of an entry that can serve a request.
pub open spec fn ready_token(excluded: Seq<Seq<char>>, wanted: Wanted) -> spec_fn(
    (Seq<char>, JsonView),
) -> Option<Seq<char>> {
    |e: (Seq<char>, JsonView)|
        {
            let t = field_text(e.1, "access_token"@);
            if serves(e.1, wanted) && t.len() > 0 && !excluded.contains(t) {
                Some(t)
            } else {
                None
            }
        }
}

/// The tokens with a free slot.
pub open spec fn has_slot(p: PoolView, concurrency: int) -> spec_fn(Seq<char>) -> bool {
    |t: Seq<char>| p.slots(t) < concurrency
}

/// The token of an entry that can hold a text conversation: it is neither disabled nor
/// abnormal.
pub open spec fn text_token(excluded: Seq<Seq<char>>) -> spec_fn((Seq<char>, JsonView)) -> Option<
    Seq<char>,
> {
    |e: (Seq<char>, JsonView)|
        {
            let t = field_text(e.1, "access_token"@);
            if !is_at(e.1, "status"@, "禁用"@) && !is_at(e.1, "status"@, "异常"@) && t.len() > 0
                && !excluded.contains(t) {
                Some(t)
            } else {
                None
            }
        }
}

/// The entries whose name is not among `gone`.
pub open spec fn outside(gone: Seq<Seq<char>>) -> spec_fn((Seq<char>, JsonView)) -> bool {
    |e: (Seq<char>, JsonView)| !gone.contains(e.0)
}

/// The name of what was asked for: the plan, else the source, else nothing.
pub open spec fn wanted_label(wanted: Wanted) -> Seq<char> {
    match wanted.plan_type {
        Some(p) => p@,
        None => opt_text(wanted.source_type),
    }
}

/// The refusal where no account can serve a request.
pub open spec fn no_quota_text(label: Seq<char>) -> Seq<char> {
    if label.len() == 0 {
        "no available image quota"@
    } else {
        "no available "@ + label + " image quota"@
    }
}

/// A payload without a creation time that says nothing.
pub open spec fn incoming(payload: JsonView) -> JsonView {
    if payload.str_at("created_at"@).len() == 0 {
        payload.without("created_at"@)
    } else {
        payload
    }
}

/// The record of a payload set over what is known of the account.
pub open spec fn combined(base: JsonView, payload: JsonView, t: Seq<char>) -> JsonView {
    let new = incoming(payload);
    merged(base, new).put("access_token"@, JsonView::Str(t)).put(
        "type"@,
        JsonView::Str(or_else(new.str_at("type"@), or_else(base.str_at("type"@), "free"@))),
    )
}

/// What marks an account as abnormal.
pub open spec fn abnormal() -> JsonView {
    empty_object().put("status"@, JsonView::Str("异常"@)).put("quota"@, int_json(0))
}

/// An account with its limit lifted.
pub open spec fn unlimited(a: JsonView) -> JsonView {
    if is_at(a, "status"@, "限流"@) {
        a.put("status"@, JsonView::Str("正常"@))
    } else {
        a
    }
}

/// The record of an account after an image request: a success counts, and takes one from a
/// known quota, which limits the account when it is used up; a failure counts.
pub open spec fn image_done(a: JsonView, success: bool, used_at: Seq<char>) -> JsonView {
    let next = a.put("last_used_at"@, JsonView::Str(used_at));
    if success {
        let counted = next.put(
            "success"@,
            int_json(next.int_at("success"@, 0).wrapping_add(1) as int),
        );
        if next.bool_at("image_quota_unknown"@, false) {
            unlimited(counted)
        } else {
            let quota = counted.int_at("quota"@, 0) - 1;
            let left = if quota < 0 {
                0
            } else {
                quota
            };
            let paid = counted.put("quota"@, int_json(left));
            if left == 0 {
                paid.put("status"@, JsonView::Str("限流"@))
            } else {
                unlimited(paid)
            }
        }
    } else {
        next.put("fail"@, int_json(next.int_at("fail"@, 0).wrapping_add(1) as int))
    }
}

/// The record of an account with its errors cleared.
pub open spec fn cleared(a: JsonView) -> JsonView {
    a.put("invalid_count"@, int_json(0)).put("last_invalid_at"@, JsonView::Null).put(
        "last_refresh_error"@,
        JsonView::Null,
    ).put("last_refresh_error_at"@, JsonView::Null)
}

/// The record of an account whose token was called invalid once more.
pub open spec fn invalid_once_more(a: JsonView, error: Seq<char>, at: Seq<char>) -> JsonView {
    a.put(
        "invalid_count"@,
        int_json(a.int_at("invalid_count"@, 0).wrapping_add(1) as int),
    ).put("last_invalid_at"@, JsonView::Str(at)).put(
        "last_refresh_error"@,
        JsonView::Str(or_else(error, "invalid access token"@)),
    ).put("last_refresh_error_at"@, JsonView::Str(at))
}

/// The record with the field `k` taken from `data`, where `data` holds a string there that is
/// not empty.
pub open spec fn with_token_field(a: JsonView, k: Seq<char>, data: JsonView) -> JsonView {
    if data.str_at(k).len() > 0 {
        a.put(k, JsonView::Str(trimmed(data.str_at(k))))
    } else {
        a
    }
}

/// The record of an account that got new tokens.
pub open spec fn with_tokens(a: JsonView, to: Seq<char>, data: JsonView, at: Seq<char>) -> JsonView {
    let n = a.put("access_token"@, JsonView::Str(to));
    let n = with_token_field(n, "refresh_token"@, data);
    let n = with_token_field(n, "id_token"@, data);
    cleared(
        n.put("last_token_refresh_at"@, JsonView::Str(at)).put(
            "last_token_refresh_error"@,
            JsonView::Null,
        ).put("last_token_refresh_error_at"@, JsonView::Null),
    )
}

/// The payloads under their tokens, those of one token merged into one; what is no object or
/// names no token is left out.
pub open spec fn gathered(payloads: Seq<JsonView>) -> Seq<(Seq<char>, JsonView)>
    decreases payloads.len(),
{
    if payloads.len() == 0 {
        Seq::empty()
    } else {
        let done = gathered(payloads.drop_last());
        let p = payloads.last();
        let t = payload_token(p);
        if p is Obj && t.len() > 0 {
            let known = match lookup(done, t) {
                Some(m) => m,
                None => empty_object(),
            };
            put_entry(done, t, merged(known, p).put("access_token"@, JsonView::Str(t)))
        } else {
            done
        }
    }
}

// ---------------------------------------------------------------------------
// what the operations keep
// ---------------------------------------------------------------------------

/// An account that holds its token can be put under it.
pub proof fn lemma_put_wf(p: PoolView, t: Seq<char>, a: JsonView)
    requires
        p.wf(),
        t.len() > 0,
        a is Obj,
        is_at(a, "access_token"@, t),
    ensures
        p.with_entries(put_entry(p.entries, t, a)).wf(),
{
    lemma_put_shape(p.entries, t, a);
    let q = put_entry(p.entries, t, a);
    assert forall|i: int| 0 <= i < q.len() implies {
        &&& (#[trigger] q[i]).0.len() > 0
        &&& q[i].1 is Obj
        &&& is_at(q[i].1, "access_token"@, q[i].0)
    } by {
        if q[i] != (t, a) {
            let j = choose|j: int| 0 <= j < p.entries.len() && p.entries[j] == q[i];
            assert(p.entries[j].0.len() > 0);
        }
    }
}

/// An account can be taken out.
pub proof fn lemma_drop_wf(p: PoolView, t: Seq<char>)
    requires
        p.wf(),
    ensures
        p.with_entries(drop_entry(p.entries, t)).wf(),
{
    lemma_drop_shape(p.entries, t);
    let q = drop_entry(p.entries, t);
    assert forall|i: int| 0 <= i < q.len() implies {
        &&& (#[trigger] q[i]).0.len() > 0
        &&& q[i].1 is Obj
        &&& is_at(q[i].1, "access_token"@, q[i].0)
    } by {
        assert(q[i].0 != t);
        let j = choose|j: int| 0 <= j < p.entries.len() && p.entries[j] == q[i];
        assert(p.entries[j].0.len() > 0);
    }
}

/// An account that is found is an object that holds the token it was found under.
pub proof fn lemma_found_wf(p: PoolView, t: Seq<char>)
    requires
        p.wf(),
        lookup(p.entries, t) is Some,
    ensures
        t.len() > 0,
        lookup(p.entries, t)->0 is Obj,
        is_at(lookup(p.entries, t)->0, "access_token"@, t),
{
    lemma_lookup_found(p.entries, t);
    let i = choose|i: int|
        0 <= i < p.entries.len() && #[trigger] p.entries[i] == (t, lookup(p.entries, t)->0);
    assert(p.entries[i].0.len() > 0);
}

/// Keeping only some entries keeps the pool well formed.
pub proof fn lemma_filter_wf(p: PoolView, gone: Seq<Seq<char>>)
    requires
        p.wf(),
    ensures
        p.with_entries(p.entries.filter(outside(gone))).wf(),
{
    lemma_filter_entries(p, gone, p.entries.len() as int);
    assert(p.entries.take(p.entries.len() as int) =~= p.entries);
}

proof fn lemma_filter_entries(p: PoolView, gone: Seq<Seq<char>>, n: int)
    requires
        p.wf(),
        0 <= n <= p.entries.len(),
    ensures
        ({
            let q = p.entries.take(n).filter(outside(gone));
            &&& p.with_entries(q).wf()
            &&& forall|i: int|
                0 <= i < q.len() ==> exists|j: int|
                    0 <= j < n && p.entries[j] == #[trigger] q[i]
        }),
    decreases n,
{
    reveal(Seq::filter);
    let t = p.entries.take(n);
    if n > 0 {
        lemma_filter_entries(p, gone, n - 1);
        assert(t.drop_last() =~= p.entries.take(n - 1));
        let prev = p.entries.take(n - 1).filter(outside(gone));
        let q = t.filter(outside(gone));
        let e = p.entries[n - 1];
        assert(q == if !gone.contains(e.0) {
            prev.push(e)
        } else {
            prev
        });
        assert forall|i: int| 0 <= i < q.len() implies exists|j: int|
            0 <= j < n && p.entries[j] == #[trigger] q[i] by {
            if i < prev.len() {
                assert(q[i] == prev[i]);
                let j = choose|j: int| 0 <= j < n - 1 && p.entries[j] == prev[i];
                assert(p.entries[j] == q[i]);
            } else {
                assert(p.entries[n - 1] == q[i]);
            }
        }
        assert forall|i: int| 0 <= i < q.len() implies {
            &&& (#[trigger] q[i]).0.len() > 0
            &&& q[i].1 is Obj
            &&& is_at(q[i].1, "access_token"@, q[i].0)
        } by {
            let j = choose|j: int| 0 <= j < n && p.entries[j] == q[i];
            assert(p.entries[j].0.len() > 0);
        }
        assert forall|i: int, j: int| 0 <= i < j < q.len() implies (#[trigger] q[i]).0 != (
        #[trigger] q[j]).0 by {
            if j < prev.len() {
                assert(prev[i].0 != prev[j].0);
            } else {
                let m = choose|m: int| 0 <= m < n - 1 && p.entries[m] == prev[i];
                assert(q[i] == prev[i]);
                assert(p.entries[m].0 != p.entries[n - 1].0);
            }
        }
    } else {
        assert(t.filter(outside(gone)) =~= Seq::empty());
    }
}

} // verus!
