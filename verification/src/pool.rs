//! The account pool: accounts under their tokens, image slots, and replaced tokens.
use vstd::prelude::*;

use crate::account::{
    Wanted, account_payload_token, can_serve, holds_at, is_at, lemma_normal_token,
    lemma_token_name, lemma_token_put, merge_objects, normal_account, normalize_account,
    normalize_source_type, payload_token, prepare_account_payload, prepared, raw_token, serves,
    text_at, text_or_empty,
};
use crate::clock::Moment;
use crate::deferral::{defers, should_defer_invalid_token};
use crate::assoc::{
    distinct_names, drop_entry, lemma_drop_shape, lemma_lookup_found, lookup, put_entry, TextMap,
};
use crate::json::non_empty_or;
use crate::pool_model::{
    gathered, has_slot, lemma_drop_wf, lemma_filter_wf, lemma_found_wf, lemma_put_wf, cleared,
    image_done, no_quota_text, outside, ready_token, text_token, wanted_label, with_token_field,
    with_tokens, PoolView,
};
use crate::records::{
    entries, no_records, put_record, record_at, record_count, record_of, take_record,
};
use crate::text::{cat3, has_text, same, trim, unique_filled, unique_non_empty, views};
use crate::value::{empty_object, list_view, Json, JsonView};

verus! {

broadcast use crate::value::group_json;

/// The account pool.
pub struct AccountService {
    accounts: indexmap::IndexMap<String, Json>,
    index: usize,
    image_inflight: TextMap<i64>,
    token_aliases: TextMap<String>,
    cumulative_total: i64,
}

impl View for AccountService {
    type V = PoolView;

    closed spec fn view(&self) -> PoolView {
        PoolView {
            entries: entries(self.accounts),
            index: self.index,
            inflight: self.image_inflight@,
            aliases: self.token_aliases@,
            total: self.cumulative_total,
        }
    }
}

/// The outcome of asking for an image slot.
pub enum Slot {
    /// A slot of this token was taken.
    Taken(String),
    /// No account can serve the request.
    Exhausted(String),
    /// Every account that can serve the request has its slots taken.
    Busy,
}

/// The pool after the records of `items` were loaded in order.
pub open spec fn loaded(items: Seq<JsonView>, now: Seq<char>) -> Seq<(Seq<char>, JsonView)>
    decreases items.len(),
{
    if items.len() == 0 {
        Seq::empty()
    } else {
        let done = loaded(items.drop_last(), now);
        match normal_account(items.last(), now) {
            Some(a) => put_entry(done, raw_token(items.last()), a),
            None => done,
        }
    }
}

impl AccountService {
    /// The pool of the stored records; what is no account is left out. `total` is the number of
    /// accounts ever added, where it is known, else the number of accounts there are.
    pub fn new(items: &Vec<Json>, total: Option<i64>, now: &str) -> (r: AccountService)
        ensures
            r@.wf(),
            r@.entries == loaded(list_view(items@), now@),
            r@.index == 0,
            r@.inflight == Map::<Seq<char>, i64>::empty(),
            r@.aliases == Map::<Seq<char>, Seq<char>>::empty(),
            r@.total == (match total {
                Some(n) => n,
                None => r@.entries.len() as i64,
            }),
    {
        let mut accounts = no_records();
        let mut i: usize = 0;
        let ghost v = list_view(items@);
        let ghost blank = PoolView {
            entries: Seq::empty(),
            index: 0,
            inflight: Map::empty(),
            aliases: Map::empty(),
            total: 0,
        };
        assert(v.take(0) =~= Seq::empty());
        while i < items.len()
            invariant
                i <= items@.len(),
                v == list_view(items@),
                entries(accounts) == loaded(v.take(i as int), now@),
                blank.with_entries(entries(accounts)).wf(),
            decreases items@.len() - i,
        {
            assert(v.take(i + 1).drop_last() =~= v.take(i as int));
            proof {
                lemma_normal_token(items@[i as int]@, now@);
            }
            match normalize_account(&items[i], now) {
                Some(a) => {
                    let token = text_at(&a, "access_token");
                    assert(token@ == raw_token(items@[i as int]@));
                    proof {
                        lemma_put_wf(blank.with_entries(entries(accounts)), token@, a@);
                    }
                    put_record(&mut accounts, token.as_str(), a);
                },
                None => {},
            }
            i += 1;
        }
        assert(v.take(i as int) =~= v);
        let count = record_count(&accounts);
        let cumulative_total: i64 = match total {
            Some(n) => n,
            None => count as i64,
        };
        let r = AccountService {
            accounts,
            index: 0,
            image_inflight: TextMap::new(),
            token_aliases: TextMap::new(),
            cumulative_total,
        };
        assert(r@.wf()) by {
            assert(blank.with_entries(entries(accounts)).wf());
        }
        r
    }

    // ---- tokens ----
    fn resolve_locked(&self, access_token: &str) -> (r: String)
        ensures
            r@ == self@.resolve(access_token@),
    {
        let ghost p = self@;
        let ghost dom = p.aliases.dom();
        proof {
            self.token_aliases.lemma_finite();
        }
        let mut token = trim(access_token);
        let mut seen: Vec<String> = Vec::new();
        assert(views(seen@).to_set() =~= Set::empty());
        loop
            invariant_except_break
                p == self@,
                dom == p.aliases.dom(),
                dom.finite(),
                views(seen@).no_duplicates(),
                forall|i: int| 0 <= i < seen@.len() ==> dom.contains(#[trigger] views(seen@)[i]),
                seen@.len() <= dom.len(),
                p.chase(token@, views(seen@).to_set(), (dom.len() + 1 - seen@.len()) as nat)
                    == p.resolve(access_token@),
            ensures
                token@ == p.resolve(access_token@),
            decreases dom.len() + 1 - seen@.len(),
        {
            let ghost set = views(seen@).to_set();
            if token.as_str().is_empty() || record_of(&self.accounts, token.as_str()).is_some()
                || has_text(&seen, token.as_str()) {
                assert(p.halts(token@, set));
                break;
            }
            match self.token_aliases.get(token.as_str()) {
                Some(next) => {
                    let next = next.clone();
                    let ghost t = token@;
                    let ghost before = views(seen@);
                    seen.push(token);
                    proof {
                        let now = views(seen@);
                        assert(now =~= before.push(t));
                        before.lemma_push_to_set_commute(t);
                        assert(now.no_duplicates());
                        now.unique_seq_to_set();
                        assert forall|i: int| 0 <= i < seen@.len() implies dom.contains(
                            #[trigger] now[i],
                        ) by {
                            if i < before.len() {
                                assert(before[i] == now[i]);
                            }
                        }
                        assert(now.to_set().subset_of(dom));
                        vstd::set_lib::lemma_len_subset(now.to_set(), dom);
                    }
                    token = next;
                },
                None => {
                    assert(p.halts(token@, set));
                    break;
                },
            }
        }
        token
    }

    /// The token that stands for `access_token` now; empty for an empty one.
    pub fn resolve_access_token(&self, access_token: &str) -> (r: String)
        ensures
            r@ == (if access_token@.len() == 0 {
                Seq::empty()
            } else {
                self@.resolve(access_token@)
            }),
    {
        if access_token.is_empty() {
            String::new()
        } else {
            self.resolve_locked(access_token)
        }
    }

    /// The account of a token.
    pub fn get_account(&self, access_token: &str) -> (r: Option<Json>)
        ensures
            match r {
                Some(a) => self@.find(access_token@) == Some(a@),
                None => self@.find(access_token@) is None,
            },
    {
        if access_token.is_empty() {
            return None;
        }
        let token = self.resolve_locked(access_token);
        match record_of(&self.accounts, token.as_str()) {
            Some(a) => Some(a.copy()),
            None => None,
        }
    }

    /// The accounts, in order.
    pub fn list_accounts(&self) -> (r: Vec<Json>)
        ensures
            list_view(r@) == self@.accounts(),
    {
        let mut out: Vec<Json> = Vec::new();
        let mut i: usize = 0;
        let n = record_count(&self.accounts);
        while i < n
            invariant
                i <= n,
                n == self@.entries.len(),
                list_view(out@) =~= self@.accounts().take(i as int),
            decreases n - i,
        {
            match record_at(&self.accounts, i) {
                Some(e) => {
                    let ghost done = list_view(out@);
                    out.push(e.1.copy());
                    assert(list_view(out@) =~= done.push(self@.accounts()[i as int]));
                },
                None => {},
            }
            i += 1;
        }
        assert(list_view(out@) =~= self@.accounts());
        out
    }

    /// The tokens, in order.
    pub fn list_tokens(&self) -> (r: Vec<String>)
        ensures
            views(r@) == self@.tokens(),
    {
        let mut out: Vec<String> = Vec::new();
        let mut i: usize = 0;
        let n = record_count(&self.accounts);
        while i < n
            invariant
                i <= n,
                n == self@.entries.len(),
                views(out@) =~= self@.tokens().take(i as int),
            decreases n - i,
        {
            match record_at(&self.accounts, i) {
                Some(e) => {
                    let ghost done = views(out@);
                    out.push(e.0.clone());
                    assert(views(out@) =~= done.push(self@.tokens()[i as int]));
                },
                None => {},
            }
            i += 1;
        }
        assert(views(out@) =~= self@.tokens());
        out
    }

    /// How many accounts were ever added.
    pub fn cumulative_total(&self) -> (r: i64)
        ensures
            r == self@.total,
    {
        self.cumulative_total
    }

    // ---- image slots ----
    fn slots(&self, token: &str) -> (r: i64)
        ensures
            r == self@.slots(token@),
    {
        match self.image_inflight.get(token) {
            Some(n) => *n,
            None => 0,
        }
    }

    fn list_ready_candidate_tokens(&self, excluded: &Vec<String>, wanted: &Wanted) -> (r: Vec<
        String,
    >)
        ensures
            views(r@) == self@.ready(views(excluded@), *wanted),
    {
        let mut out: Vec<String> = Vec::new();
        let mut i: usize = 0;
        let n = record_count(&self.accounts);
        let ghost f = ready_token(views(excluded@), *wanted);
        let ghost es = self@.entries;
        assert(es.take(0).filter_map(f) =~= Seq::empty());
        assert(views(out@) =~= Seq::empty());
        while i < n
            invariant
                i <= n,
                n == es.len(),
                es == self@.entries,
                f == ready_token(views(excluded@), *wanted),
                views(out@) == es.take(i as int).filter_map(f),
            decreases n - i,
        {
            proof {
                es.lemma_filter_map_take_succ(f, i as int);
            }
            match record_at(&self.accounts, i) {
                Some(e) => {
                    let ghost done = views(out@);
                    if can_serve(e.1, wanted) {
                        let t = text_at(e.1, "access_token");
                        if !t.as_str().is_empty() && !has_text(excluded, t.as_str()) {
                            let ghost tv = t@;
                            out.push(t);
                            assert(views(out@) =~= done + seq![tv]);
                        }
                    }
                    assert(views(out@) =~= es.take(i + 1).filter_map(f));
                },
                None => {},
            }
            i += 1;
        }
        assert(es.take(n as int) =~= es);
        out
    }

    fn list_available_candidate_tokens(
        &self,
        excluded: &Vec<String>,
        wanted: &Wanted,
        concurrency: i64,
    ) -> (r: Vec<String>)
        ensures
            views(r@) == self@.available(views(excluded@), *wanted, concurrency as int),
    {
        let ready = self.list_ready_candidate_tokens(excluded, wanted);
        let ghost rs = views(ready@);
        let ghost keep = has_slot(self@, concurrency as int);
        let mut out: Vec<String> = Vec::new();
        let mut i: usize = 0;
        proof {
            reveal(Seq::filter);
            assert(views(out@) =~= rs.take(0).filter(keep));
        }
        while i < ready.len()
            invariant
                i <= ready@.len(),
                rs == views(ready@),
                keep == has_slot(self@, concurrency as int),
                views(out@) == rs.take(i as int).filter(keep),
            decreases ready@.len() - i,
        {
            let ghost done = views(out@);
            assert(rs.take(i + 1).drop_last() =~= rs.take(i as int));
            assert(rs.take(i + 1).filter(keep) == if keep(rs[i as int]) {
                done.push(rs[i as int])
            } else {
                done
            }) by {
                reveal(Seq::filter);
            }
            if self.slots(ready[i].as_str()) < concurrency {
                out.push(ready[i].clone());
                assert(views(out@) =~= done.push(rs[i as int]));
            }
            i += 1;
        }
        assert(rs.take(i as int) =~= rs);
        out
    }

    /// Takes a slot of the next account, in turn, that can serve the request and has fewer than
    /// `concurrency` slots taken.
    pub fn acquire_next_candidate_token(
        &mut self,
        excluded: &Vec<String>,
        wanted: &Wanted,
        concurrency: i64,
    ) -> (r: Slot)
        ensures
            ({
                let ready = old(self)@.ready(views(excluded@), *wanted);
                let free = old(self)@.available(
                    views(excluded@),
                    *wanted,
                    if concurrency < 1 {
                        1
                    } else {
                        concurrency as int
                    },
                );
                match r {
                    Slot::Exhausted(text) => {
                        &&& ready.len() == 0
                        &&& text@ == no_quota_text(wanted_label(*wanted))
                        &&& final(self)@ == old(self)@
                    },
                    Slot::Busy => ready.len() > 0 && free.len() == 0 && final(self)@ == old(self)@,
                    Slot::Taken(t) => {
                        &&& free.len() > 0
                        &&& t@ == old(self)@.turn(
                            views(excluded@),
                            *wanted,
                            if concurrency < 1 {
                                1
                            } else {
                                concurrency as int
                            },
                        )
                        &&& final(self)@ == old(self)@.taken(t@)
                    },
                }
            }),
            old(self)@.wf() ==> final(self)@.wf(),
            old(self)@.wf() ==> (r matches Slot::Taken(t) ==> {
                let a = lookup(old(self)@.entries, t@);
                &&& a is Some && serves(a->0, *wanted)
                &&& !views(excluded@).contains(t@)
                &&& final(self)@.slots(t@) == old(self)@.slots(t@) + 1
                &&& final(self)@.slots(t@) <= 1 || final(self)@.slots(t@) <= concurrency
            }),
            old(self)@.wf() && r is Exhausted ==> forall|t: Seq<char>|
                (#[trigger] lookup(old(self)@.entries, t)) is Some && serves(
                    lookup(old(self)@.entries, t)->0,
                    *wanted,
                ) ==> views(excluded@).contains(t),
    {
        if self.list_ready_candidate_tokens(excluded, wanted).len() == 0 {
            assert(views(Seq::<String>::empty()) =~= Seq::empty());
            proof {
                let ex = views(excluded@);
                let p = self@;
                if p.wf() {
                    assert forall|t: Seq<char>|
                        (#[trigger] lookup(p.entries, t)) is Some && serves(
                            lookup(p.entries, t)->0,
                            *wanted,
                        ) implies ex.contains(t) by {
                        crate::pool_use_laws::law_image_accounts(p, ex, *wanted, 1, t);
                    }
                }
            }
            let label = match &wanted.plan_type {
                Some(p) => p.clone(),
                None => text_or_empty(&wanted.source_type),
            };
            return Slot::Exhausted(
                if label.as_str().is_empty() {
                    "no available image quota".to_owned()
                } else {
                    cat3("no available ", label.as_str(), " image quota")
                },
            );
        }
        let limit: i64 = if concurrency < 1 {
            1
        } else {
            concurrency
        };
        let tokens = self.list_available_candidate_tokens(excluded, wanted, limit);
        let ghost free = views(tokens@);
        if tokens.len() == 0 {
            return Slot::Busy;
        }
        let at: usize = self.index % tokens.len();
        let token = tokens[at].clone();
        assert(token@ == free[at as int]);
        proof {
            let keep = has_slot(self@, limit as int);
            broadcast use vstd::seq_lib::group_filter_ensures;

            assert(keep(free[at as int]));
            if self@.wf() {
                assert(free.contains(free[at as int]));
                crate::pool_use_laws::law_image_accounts(
                    self@,
                    views(excluded@),
                    *wanted,
                    limit as int,
                    token@,
                );
            }
        }
        let n = self.slots(token.as_str());
        self.index = self.index.wrapping_add(1);
        self.image_inflight.set(token.as_str(), n + 1);
        Slot::Taken(token)
    }

    /// Gives a slot of a token back.
    pub fn release_image_slot(&mut self, access_token: &str)
        ensures
            final(self)@ == old(self)@.released(access_token@),
            old(self)@.wf() ==> final(self)@.wf(),
    {
        if access_token.is_empty() {
            return;
        }
        let token = self.resolve_locked(access_token);
        let n = self.slots(token.as_str());
        if n <= 1 {
            self.image_inflight.remove(token.as_str());
        } else {
            self.image_inflight.set(token.as_str(), n - 1);
        }
    }

    /// The next token, in turn, that can hold a text conversation; empty where none can.
    pub fn next_text_token(&mut self, excluded: &Vec<String>) -> (r: String)
        ensures
            ({
                let fit = old(self)@.talkative(views(excluded@));
                if fit.len() == 0 {
                    r@.len() == 0 && final(self)@ == old(self)@
                } else {
                    &&& r@ == fit[old(self)@.index as int % fit.len() as int]
                    &&& final(self)@ == old(self)@.with_index(old(self)@.index.wrapping_add(1))
                }
            }),
            old(self)@.wf() ==> final(self)@.wf(),
            old(self)@.wf() && r@.len() > 0 ==> {
                let a = lookup(old(self)@.entries, r@);
                &&& a is Some
                &&& (a->0).get("status"@) != Some(JsonView::Str("禁用"@))
                &&& (a->0).get("status"@) != Some(JsonView::Str("异常"@))
                &&& !views(excluded@).contains(r@)
                &&& final(self)@.index == old(self)@.index.wrapping_add(1)
            },
            old(self)@.wf() && r@.len() == 0 ==> forall|t: Seq<char>|
                (#[trigger] lookup(old(self)@.entries, t)) is Some && !views(excluded@).contains(t)
                    ==> is_at(lookup(old(self)@.entries, t)->0, "status"@, "禁用"@) || is_at(
                    lookup(old(self)@.entries, t)->0,
                    "status"@,
                    "异常"@,
                ),
    {
        let mut fit: Vec<String> = Vec::new();
        let mut i: usize = 0;
        let n = record_count(&self.accounts);
        let ghost f = text_token(views(excluded@));
        let ghost es = self@.entries;
        assert(es.take(0).filter_map(f) =~= Seq::empty());
        assert(views(fit@) =~= Seq::empty());
        while i < n
            invariant
                i <= n,
                n == es.len(),
                es == self@.entries,
                self@ == old(self)@,
                f == text_token(views(excluded@)),
                views(fit@) == es.take(i as int).filter_map(f),
            decreases n - i,
        {
            proof {
                es.lemma_filter_map_take_succ(f, i as int);
            }
            match record_at(&self.accounts, i) {
                Some(e) => {
                    let ghost done = views(fit@);
                    if !holds_at(e.1, "status", "禁用") && !holds_at(e.1, "status", "异常") {
                        let t = text_at(e.1, "access_token");
                        if !t.as_str().is_empty() && !has_text(excluded, t.as_str()) {
                            let ghost tv = t@;
                            fit.push(t);
                            assert(views(fit@) =~= done + seq![tv]);
                        }
                    }
                    assert(views(fit@) =~= es.take(i + 1).filter_map(f));
                },
                None => {},
            }
            i += 1;
        }
        assert(es.take(n as int) =~= es);
        assert(views(fit@).len() == fit@.len());
        proof {
            if old(self)@.wf() {
                let ex = views(excluded@);
                let p = old(self)@;
                assert forall|t: Seq<char>| p.talkative(ex).contains(t) <==> {
                    &&& (#[trigger] lookup(p.entries, t)) is Some
                    &&& !is_at(lookup(p.entries, t)->0, "status"@, "禁用"@)
                    &&& !is_at(lookup(p.entries, t)->0, "status"@, "异常"@)
                    &&& !ex.contains(t)
                } by {
                    crate::pool_use_laws::law_text_accounts(p, ex, t);
                }
                assert(p.talkative(ex) == views(fit@));
                if fit@.len() > 0 {
                    let k = p.index as int % fit@.len() as int;
                    assert(p.talkative(ex).contains(p.talkative(ex)[k]));
                    crate::pool_use_laws::law_text_accounts(p, ex, p.talkative(ex)[k]);
                    lemma_found_wf(p, p.talkative(ex)[k]);
                }
            }
        }
        if fit.len() == 0 {
            return String::new();
        }
        let at: usize = self.index % fit.len();
        self.index = self.index.wrapping_add(1);
        assert(self@.inflight == old(self)@.inflight && self@.entries == old(self)@.entries);
        assert(old(self)@.wf() ==> self@.wf());
        assert(views(fit@)[at as int] == fit@[at as int]@);
        fit[at].clone()
    }

    // ---- changes of one account ----
    fn renew(&mut self, token: &str, record: &Json, now: &str)
        requires
            token@.len() > 0,
            raw_token(record@) == token@,
        ensures
            final(self)@ == old(self)@.renewed(token@, record@, now@),
            old(self)@.wf() ==> final(self)@.wf(),
    {
        proof {
            lemma_normal_token(record@, now@);
        }
        match normalize_account(record, now) {
            Some(a) => {
                proof {
                    if self@.wf() {
                        lemma_put_wf(self@, token@, a@);
                    }
                }
                let ghost before = self@;
                put_record(&mut self.accounts, token, a);
                assert(self@ == before.with_entries(put_entry(before.entries, token@, a@)));
            },
            None => {},
        }
    }

    fn settle(&mut self, token: &str, record: &Json, drop_limited: bool, now: &str) -> (r: Option<
        Json,
    >)
        requires
            token@.len() > 0,
            raw_token(record@) == token@,
        ensures
            final(self)@ == old(self)@.settled(token@, record@, drop_limited, now@).0,
            match r {
                Some(a) => old(self)@.settled(token@, record@, drop_limited, now@).1 == Some(a@),
                None => old(self)@.settled(token@, record@, drop_limited, now@).1 is None,
            },
            old(self)@.wf() ==> final(self)@.wf(),
    {
        proof {
            lemma_normal_token(record@, now@);
        }
        let ghost before = self@;
        match normalize_account(record, now) {
            Some(a) => {
                if holds_at(&a, "status", "限流") && drop_limited {
                    proof {
                        if self@.wf() {
                            lemma_drop_wf(self@, token@);
                        }
                    }
                    take_record(&mut self.accounts, token);
                    assert(self@ == before.with_entries(drop_entry(before.entries, token@)));
                    None
                } else {
                    proof {
                        if self@.wf() {
                            lemma_put_wf(self@, token@, a@);
                        }
                    }
                    put_record(&mut self.accounts, token, a.copy());
                    assert(self@ == before.with_entries(put_entry(before.entries, token@, a@)));
                    Some(a)
                }
            },
            None => None,
        }
    }

    /// Sets the fields of `updates` over the account of a token; a limited account is taken out
    /// where `drop_limited` says so. Gives the account back where it is there.
    pub fn update_account(
        &mut self,
        access_token: &str,
        updates: &Json,
        drop_limited: bool,
        now: &str,
    ) -> (r: Option<Json>)
        requires
            old(self)@.wf(),
        ensures
            final(self)@ == old(self)@.updated(access_token@, updates@, drop_limited, now@).0,
            match r {
                Some(a) => old(self)@.updated(access_token@, updates@, drop_limited, now@).1
                    == Some(a@),
                None => old(self)@.updated(access_token@, updates@, drop_limited, now@).1 is None,
            },
            final(self)@.wf(),
    {
        let current = match self.get_account(access_token) {
            Some(a) => a,
            None => {
                return None;
            },
        };
        let token = self.resolve_locked(access_token);
        proof {
            lemma_found_wf(self@, token@);
        }
        let mut next = merge_objects(current, updates);
        proof {
            lemma_token_put(next@, token@);
        }
        next.set("access_token", Json::Str(token.clone()));
        self.settle(token.as_str(), &next, drop_limited, now)
    }

    // ---- adding ----
    fn gather(payloads: &Vec<Json>) -> (r: indexmap::IndexMap<String, Json>)
        ensures
            entries(r) == gathered(list_view(payloads@)),
    {
        let mut out = no_records();
        let mut i: usize = 0;
        let ghost v = list_view(payloads@);
        assert(v.take(0) =~= Seq::empty());
        while i < payloads.len()
            invariant
                i <= payloads@.len(),
                v == list_view(payloads@),
                entries(out) == gathered(v.take(i as int)),
            decreases payloads@.len() - i,
        {
            assert(v.take(i + 1).drop_last() =~= v.take(i as int));
            let p = &payloads[i];
            let t = account_payload_token(p);
            if p.is_object() && !t.as_str().is_empty() {
                let known = match record_of(&out, t.as_str()) {
                    Some(m) => m.copy(),
                    None => Json::object(),
                };
                let mut m = merge_objects(known, p);
                m.set("access_token", Json::Str(t.clone()));
                put_record(&mut out, t.as_str(), m);
            }
            i += 1;
        }
        assert(v.take(i as int) =~= v);
        out
    }

    fn add_one(&mut self, t: &str, payload: &Json, now: &str) -> (r: bool)
        requires
            t@.len() > 0,
        ensures
            final(self)@ == old(self)@.admitted(t@, payload@, now@),
            r == (lookup(old(self)@.entries, t@) is None),
            old(self)@.wf() ==> final(self)@.wf(),
    {
        let (base, new) = match record_of(&self.accounts, t) {
            Some(a) => (a.copy(), false),
            None => {
                let mut o = Json::object();
                o.set("created_at", Json::from_text(now));
                (o, true)
            },
        };
        if new {
            self.cumulative_total = self.cumulative_total.wrapping_add(1);
        }
        assert(self@.inflight == old(self)@.inflight && self@.entries == old(self)@.entries);
        assert(old(self)@.wf() ==> self@.wf());
        let mut fresh = payload.copy();
        if fresh.str_at("created_at").as_str().is_empty() {
            fresh.remove("created_at");
        }
        let kind = {
            let known = non_empty_or(base.str_at("type"), "free");
            non_empty_or(fresh.str_at("type"), known.as_str())
        };
        let mut next = merge_objects(base, &fresh);
        proof {
            lemma_token_put(next@, t@);
        }
        let ghost m = next@;
        next.set("access_token", Json::from_text(t));
        next.set("type", Json::Str(kind));
        proof {
            lemma_typed_token(m, t@, JsonView::Str(kind@));
        }
        self.renew(t, &next, now);
        new
    }

    /// Adds payloads to the pool: those of one token are merged, a token that is there gets the
    /// payload's fields set over its account. Tells how many were new and how many were not.
    pub fn add_account_payloads(&mut self, payloads: &Vec<Json>, now: &str) -> (r: (usize, usize))
        requires
            old(self)@.wf(),
        ensures
            ({
                let (p, added, skipped) = old(self)@.admitted_all(
                    gathered(list_view(payloads@)),
                    now@,
                );
                final(self)@ == p && r.0 == added && r.1 == skipped
            }),
            final(self)@.wf(),
    {
        let all = Self::gather(payloads);
        let n = record_count(&all);
        let mut i: usize = 0;
        let mut added: usize = 0;
        let mut skipped: usize = 0;
        let ghost g = gathered(list_view(payloads@));
        let ghost start = self@;
        proof {
            lemma_gathered_named(list_view(payloads@));
        }
        assert(g.take(0) =~= Seq::empty());
        while i < n
            invariant
                i <= n,
                n == g.len(),
                g == entries(all),
                start.admitted_all(g.take(i as int), now@) == (self@, added as nat, skipped as nat),
                added + skipped == i,
                forall|k: int| 0 <= k < g.len() ==> (#[trigger] g[k]).0.len() > 0,
                self@.wf(),
            decreases n - i,
        {
            assert(g.take(i + 1).drop_last() =~= g.take(i as int));
            match record_at(&all, i) {
                Some(e) => {
                    assert(g[i as int].0.len() > 0);
                    if self.add_one(e.0.as_str(), e.1, now) {
                        added += 1;
                    } else {
                        skipped += 1;
                    }
                },
                None => {},
            }
            i += 1;
        }
        assert(g.take(i as int) =~= g);
        (added, skipped)
    }

    // ---- deleting ----
    fn targets(&self, tokens: &Vec<String>) -> (r: Vec<String>)
        ensures
            views(r@) == self@.targets(views(tokens@)),
    {
        let mut out: Vec<String> = Vec::new();
        let mut i: usize = 0;
        let ghost v = views(tokens@);
        assert(v.take(0) =~= Seq::empty());
        assert(views(out@) =~= Seq::empty());
        while i < tokens.len()
            invariant
                i <= tokens@.len(),
                v == views(tokens@),
                views(out@) == self@.targets(v.take(i as int)),
            decreases tokens@.len() - i,
        {
            assert(v.take(i + 1).drop_last() =~= v.take(i as int));
            if !tokens[i].as_str().is_empty() {
                let t = self.resolve_locked(tokens[i].as_str());
                crate::text::push_new(&mut out, t.as_str());
            }
            i += 1;
        }
        assert(v.take(i as int) =~= v);
        out
    }

    /// Deletes the accounts of `tokens`, with their slots and the aliases that lead to or from
    /// them, and tells how many accounts went.
    pub fn delete_accounts(&mut self, tokens: &Vec<String>) -> (r: usize)
        requires
            old(self)@.wf(),
        ensures
            final(self)@ == old(self)@.deleted(views(tokens@)),
            r == old(self)@.entries.len() - final(self)@.entries.len(),
            final(self)@.wf(),
    {
        let gone = self.targets(tokens);
        let ghost g = views(gone@);
        let ghost start = self@;
        if gone.len() == 0 {
            return 0;
        }
        let before = record_count(&self.accounts);
        let mut removed: usize = 0;
        let mut i: usize = 0;
        proof {
            lemma_filter_all(start.entries, g.take(0));
        }
        assert(start.inflight.remove_keys(g.take(0).to_set()) =~= start.inflight);
        while i < gone.len()
            invariant
                i <= gone@.len(),
                g == views(gone@),
                start.wf(),
                self@.entries == start.entries.filter(outside(g.take(i as int))),
                self@.inflight == start.inflight.remove_keys(g.take(i as int).to_set()),
                self@.aliases == start.aliases,
                self@.index == start.index,
                self@.total == start.total,
                removed == start.entries.len() - self@.entries.len(),
                start.entries.len() == before,
            decreases gone@.len() - i,
        {
            let ghost now = self@;
            let ghost t = gone@[i as int]@;
            let ghost had = g.take(i as int);
            let ghost has = g.take(i + 1);
            assert(t == g[i as int]);
            assert(has =~= had.push(t));
            proof {
                lemma_filter_wf(start, had);
                lemma_filter_more(start.entries, had, t);
                lemma_drop_len(now.entries, t);
            }
            if take_record(&mut self.accounts, gone[i].as_str()) {
                removed += 1;
            }
            self.image_inflight.remove(gone[i].as_str());
            proof {
                had.lemma_push_to_set_commute(t);
            }
            assert(self@.inflight =~= start.inflight.remove_keys(has.to_set()));
            i += 1;
        }
        assert(g.take(i as int) =~= g);
        proof {
            lemma_filter_wf(start, g);
        }
        self.token_aliases.retain_clear_of(&gone);
        let left = record_count(&self.accounts);
        if removed > 0 {
            if left == 0 {
                self.index = 0;
            } else {
                self.index = self.index % left;
            }
        }
        assert(self@.entries == start.purged(g).entries);
        proof {
            self.token_aliases.lemma_finite();
        }
        removed
    }

    // ---- what happens to an account ----
    /// Notes that a token was used for a text conversation at `used_at`.
    pub fn mark_text_used(&mut self, access_token: &str, used_at: &str, now: &str)
        requires
            old(self)@.wf(),
        ensures
            final(self)@ == old(self)@.touched(
                access_token@,
                "last_used_at"@,
                JsonView::Str(used_at@),
                now@,
            ),
            final(self)@.wf(),
    {
        let mut next = match self.get_account(access_token) {
            Some(a) => a,
            None => {
                return;
            },
        };
        let token = self.resolve_locked(access_token);
        proof {
            lemma_found_wf(self@, token@);
            lemma_token_name();
            broadcast use crate::value::group_fields;

        }
        next.set("last_used_at", Json::from_text(used_at));
        self.renew(token.as_str(), &next, now);
    }

    /// Adds the payloads among `items`.
    pub fn add_account_items(&mut self, items: &Vec<Json>, now: &str) -> (r: (usize, usize))
        requires
            old(self)@.wf(),
        ensures
            ({
                let (p, added, skipped) = old(self)@.admitted_all(
                    gathered(list_view(items@).filter_map(preparing())),
                    now@,
                );
                final(self)@ == p && r.0 == added && r.1 == skipped
            }),
            final(self)@.wf(),
    {
        let mut payloads: Vec<Json> = Vec::new();
        let mut i: usize = 0;
        let ghost v = list_view(items@);
        let ghost f = preparing();
        assert(v.take(0).filter_map(f) =~= Seq::empty());
        assert(list_view(payloads@) =~= Seq::empty());
        while i < items.len()
            invariant
                i <= items@.len(),
                v == list_view(items@),
                f == preparing(),
                list_view(payloads@) == v.take(i as int).filter_map(f),
            decreases items@.len() - i,
        {
            proof {
                v.lemma_filter_map_take_succ(f, i as int);
            }
            let ghost done = list_view(payloads@);
            match prepare_account_payload(&items[i]) {
                Some(p) => {
                    let ghost pv = p@;
                    payloads.push(p);
                    assert(list_view(payloads@) =~= done + seq![pv]);
                },
                None => {},
            }
            assert(list_view(payloads@) =~= v.take(i + 1).filter_map(f));
            i += 1;
        }
        assert(v.take(i as int) =~= v);
        self.add_account_payloads(&payloads, now)
    }

    /// Adds accounts for bare tokens that came from `source`.
    pub fn add_accounts(&mut self, tokens: &Vec<String>, source: &str, now: &str) -> (r: (
        usize,
        usize,
    ))
        requires
            old(self)@.wf(),
        ensures
            ({
                let (p, added, skipped) = old(self)@.admitted_all(
                    gathered(bare_payloads(unique_filled(views(tokens@)), source@)),
                    now@,
                );
                final(self)@ == p && r.0 == added && r.1 == skipped
            }),
            final(self)@.wf(),
    {
        let unique = unique_non_empty(tokens);
        let source_type = normalize_source_type(&Json::from_text(source));
        let mut payloads: Vec<Json> = Vec::new();
        let mut i: usize = 0;
        let ghost u = views(unique@);
        while i < unique.len()
            invariant
                i <= unique@.len(),
                u == views(unique@),
                source_type@ == crate::account::source_type(JsonView::Str(source@)),
                list_view(payloads@) =~= bare_payloads(u, source@).take(i as int),
            decreases unique@.len() - i,
        {
            let mut o = Json::object();
            o.set("access_token", Json::Str(unique[i].clone()));
            o.set("source_type", Json::Str(source_type.clone()));
            let ghost done = list_view(payloads@);
            assert(o@ == bare_payload(u[i as int], source@));
            payloads.push(o);
            assert(list_view(payloads@) =~= done.push(bare_payload(u[i as int], source@)));
            i += 1;
        }
        assert(list_view(payloads@) =~= bare_payloads(u, source@));
        self.add_account_payloads(&payloads, now)
    }

    /// Deletes the account of an invalid token where `drop_invalid` says so, else marks it
    /// abnormal. Tells whether it was deleted.
    pub fn remove_invalid_token(
        &mut self,
        access_token: &str,
        drop_invalid: bool,
        drop_limited: bool,
        now: &str,
    ) -> (r: bool)
        requires
            old(self)@.wf(),
        ensures
            (final(self)@, r) == old(self)@.invalidated(
                access_token@,
                drop_invalid,
                drop_limited,
                now@,
            ),
            final(self)@.wf(),
    {
        let mut marks = Json::object();
        marks.set("status", Json::from_text("异常"));
        marks.set("quota", Json::from_int(0));
        if !drop_invalid {
            self.update_account(access_token, &marks, drop_limited, now);
            return false;
        }
        let mut one: Vec<String> = Vec::new();
        one.push(access_token.to_owned());
        assert(views(one@) =~= seq![access_token@]);
        if self.delete_accounts(&one) > 0 {
            return true;
        }
        self.update_account(access_token, &marks, drop_limited, now);
        false
    }

    /// Notes the end of an image request: gives the slot back, counts it, and takes it from the
    /// quota. Gives the account back where it is there.
    pub fn mark_image_result(
        &mut self,
        access_token: &str,
        success: bool,
        drop_limited: bool,
        used_at: &str,
        now: &str,
    ) -> (r: Option<Json>)
        requires
            old(self)@.wf(),
        ensures
            ({
                let (p, a) = old(self)@.image_settled(
                    access_token@,
                    success,
                    drop_limited,
                    used_at@,
                    now@,
                );
                final(self)@ == p && match r {
                    Some(x) => a == Some(x@),
                    None => a is None,
                }
            }),
            final(self)@.wf(),
    {
        self.release_image_slot(access_token);
        let mut next = match self.get_account(access_token) {
            Some(a) => a,
            None => {
                return None;
            },
        };
        let token = self.resolve_locked(access_token);
        proof {
            lemma_found_wf(self@, token@);
            lemma_token_name();
            broadcast use crate::value::group_fields;

        }
        let ghost a = next@;
        next.set("last_used_at", Json::from_text(used_at));
        if success {
            let unknown = next.bool_at("image_quota_unknown", false);
            let count = next.int_at("success", 0).wrapping_add(1);
            next.set("success", Json::from_int(count));
            if unknown {
                if holds_at(&next, "status", "限流") {
                    next.set("status", Json::from_text("正常"));
                }
            } else {
                let quota = next.int_at("quota", 0);
                let left: i64 = if quota <= 1 {
                    0
                } else {
                    quota - 1
                };
                next.set("quota", Json::from_int(left));
                if left == 0 {
                    next.set("status", Json::from_text("限流"));
                } else if holds_at(&next, "status", "限流") {
                    next.set("status", Json::from_text("正常"));
                }
            }
        } else {
            let count = next.int_at("fail", 0).wrapping_add(1);
            next.set("fail", Json::from_int(count));
        }
        assert(next@ == image_done(a, success, used_at@));
        self.settle(token.as_str(), &next, drop_limited, now)
    }

    /// Notes that refreshing a token failed at `at`.
    pub fn record_token_refresh_error(
        &mut self,
        access_token: &str,
        error: &str,
        at: &str,
        now: &str,
    )
        requires
            old(self)@.wf(),
        ensures
            final(self)@ == old(self)@.refresh_failed(access_token@, error@, at@, now@),
            final(self)@.wf(),
    {
        let token = self.resolve_locked(access_token);
        let mut next = match record_of(&self.accounts, token.as_str()) {
            Some(a) => a.copy(),
            None => {
                return;
            },
        };
        proof {
            lemma_found_wf(self@, token@);
            lemma_token_name();
            broadcast use crate::value::group_fields;

        }
        let text = non_empty_or(error.to_owned(), "refresh token failed");
        next.set("last_token_refresh_error", Json::Str(text));
        next.set("last_token_refresh_error_at", Json::from_text(at));
        self.renew(token.as_str(), &next, now);
    }

    fn clear_errors(next: &mut Json)
        ensures
            final(next)@ == cleared(old(next)@),
    {
        next.set("invalid_count", Json::from_int(0));
        next.set("last_invalid_at", Json::Null);
        next.set("last_refresh_error", Json::Null);
        next.set("last_refresh_error_at", Json::Null);
    }

    /// Notes that an account's data came in.
    pub fn record_refresh_success(&mut self, access_token: &str, now: &str)
        requires
            old(self)@.wf(),
        ensures
            final(self)@ == old(self)@.refresh_succeeded(access_token@, now@),
            final(self)@.wf(),
    {
        let token = self.resolve_locked(access_token);
        let mut next = match record_of(&self.accounts, token.as_str()) {
            Some(a) => a.copy(),
            None => {
                return;
            },
        };
        proof {
            lemma_found_wf(self@, token@);
            lemma_cleared_token(next@, token@);
        }
        Self::clear_errors(&mut next);
        self.renew(token.as_str(), &next, now);
    }

    /// Notes at `at` that the upstream called a token invalid, and tells whether to act on it
    /// now: not where removal may be deferred and the account is new, was not called invalid
    /// before, or was so a moment ago.
    pub fn record_invalid_token_seen(
        &mut self,
        access_token: &str,
        error: &str,
        defer_invalid_removal: bool,
        time: Moment,
        at: &str,
        now: &str,
    ) -> (r: bool)
        requires
            old(self)@.wf(),
        ensures
            final(self)@ == old(self)@.invalid_seen(access_token@, error@, at@, now@),
            r == (match lookup(old(self)@.entries, old(self)@.resolve(access_token@)) {
                Some(a) => !(defer_invalid_removal && defers(a, time)),
                None => true,
            }),
            final(self)@.wf(),
    {
        let token = self.resolve_locked(access_token);
        let mut next = match record_of(&self.accounts, token.as_str()) {
            Some(a) => a.copy(),
            None => {
                return true;
            },
        };
        let deferred = defer_invalid_removal && should_defer_invalid_token(&next, time);
        proof {
            lemma_found_wf(self@, token@);
            lemma_token_name();
            broadcast use crate::value::group_fields;

        }
        let count = next.int_at("invalid_count", 0).wrapping_add(1);
        next.set("invalid_count", Json::from_int(count));
        next.set("last_invalid_at", Json::from_text(at));
        let text = non_empty_or(error.to_owned(), "invalid access token");
        next.set("last_refresh_error", Json::Str(text));
        next.set("last_refresh_error_at", Json::from_text(at));
        self.renew(token.as_str(), &next, now);
        !deferred
    }

    /// Takes in the tokens of a refresh: the account moves under its new access token, the old
    /// one leads to it from then on, and taken slots move along. Gives the account's token, and
    /// whether it is a new one.
    pub fn apply_refreshed_tokens(
        &mut self,
        old_access_token: &str,
        token_data: &Json,
        at: &str,
        now: &str,
    ) -> (r: (String, bool))
        requires
            old(self)@.wf(),
        ensures
            (final(self)@, r.0@, r.1) == old(self)@.refreshed(
                old_access_token@,
                token_data@,
                at@,
                now@,
            ),
            final(self)@.wf(),
    {
        let from = self.resolve_locked(old_access_token);
        let mut next = match record_of(&self.accounts, from.as_str()) {
            Some(a) => a.copy(),
            None => {
                return (from, false);
            },
        };
        let to = match token_data.get("access_token") {
            Some(Json::Str(s)) => trim(s.as_str()),
            _ => trim(from.as_str()),
        };
        if to.as_str().is_empty() {
            return (from, false);
        }
        proof {
            lemma_found_wf(self@, from@);
            lemma_with_tokens(next@, to@, token_data@, at@);
            lemma_normal_token(with_tokens(next@, to@, token_data@, at@), now@);
        }
        next.set("access_token", Json::Str(to.clone()));
        let rt = token_data.str_at("refresh_token");
        if !rt.as_str().is_empty() {
            next.set("refresh_token", Json::Str(trim(rt.as_str())));
        }
        let it = token_data.str_at("id_token");
        if !it.as_str().is_empty() {
            next.set("id_token", Json::Str(trim(it.as_str())));
        }
        next.set("last_token_refresh_at", Json::from_text(at));
        next.set("last_token_refresh_error", Json::Null);
        next.set("last_token_refresh_error_at", Json::Null);
        Self::clear_errors(&mut next);
        let account = match normalize_account(&next, now) {
            Some(a) => a,
            None => {
                return (from, false);
            },
        };
        let ghost start = self@;
        if same(to.as_str(), from.as_str()) {
            proof {
                lemma_put_wf(self@, to@, account@);
            }
            put_record(&mut self.accounts, to.as_str(), account);
            (to, false)
        } else {
            proof {
                lemma_drop_wf(start, from@);
                lemma_put_wf(
                    start.with_entries(drop_entry(start.entries, from@)),
                    to@,
                    account@,
                );
            }
            take_record(&mut self.accounts, from.as_str());
            self.token_aliases.set(from.as_str(), to.clone());
            let taken = self.slots(from.as_str());
            self.image_inflight.remove(from.as_str());
            if taken != 0 {
                let had = self.slots(to.as_str());
                let more: i64 = if had > i64::MAX - taken {
                    i64::MAX
                } else {
                    had + taken
                };
                self.image_inflight.set(to.as_str(), more);
            }
            put_record(&mut self.accounts, to.as_str(), account);
            assert(self@ == start.rotated(from@, to@, account@));
            (to, true)
        }
    }
}

proof fn lemma_cleared_token(a: JsonView, t: Seq<char>)
    requires
        a is Obj,
        t.len() > 0,
        is_at(a, "access_token"@, t),
    ensures
        raw_token(cleared(a)) == t,
        is_at(cleared(a), "access_token"@, t),
{
    broadcast use crate::value::group_fields;

    lemma_token_name();
}

proof fn lemma_with_tokens(a: JsonView, to: Seq<char>, data: JsonView, at: Seq<char>)
    requires
        a is Obj,
        to.len() > 0,
    ensures
        with_tokens(a, to, data, at) is Obj,
        raw_token(with_tokens(a, to, data, at)) == to,
{
    broadcast use crate::value::group_fields;

    lemma_token_name();
    let n = a.put("access_token"@, JsonView::Str(to));
    let n = with_token_field(n, "refresh_token"@, data);
    let n = with_token_field(n, "id_token"@, data);
    let n = n.put("last_token_refresh_at"@, JsonView::Str(at)).put(
        "last_token_refresh_error"@,
        JsonView::Null,
    ).put("last_token_refresh_error_at"@, JsonView::Null);
    assert(is_at(n, "access_token"@, to));
    lemma_cleared_token(n, to);
}

/// Payloads as they are prepared for the pool.
pub open spec fn preparing() -> spec_fn(JsonView) -> Option<JsonView> {
    |item: JsonView| prepared(item)
}

/// The payload of a bare token.
pub open spec fn bare_payload(token: Seq<char>, source: Seq<char>) -> JsonView {
    empty_object().put("access_token"@, JsonView::Str(token)).put(
        "source_type"@,
        JsonView::Str(crate::account::source_type(JsonView::Str(source))),
    )
}

/// The payloads of bare tokens.
pub open spec fn bare_payloads(tokens: Seq<Seq<char>>, source: Seq<char>) -> Seq<JsonView> {
    tokens.map_values(|t: Seq<char>| bare_payload(t, source))
}

/// Setting the type of a record leaves its token.
proof fn lemma_typed_token(m: JsonView, t: Seq<char>, kind: JsonView)
    requires
        m is Obj,
        t.len() > 0,
    ensures
        raw_token(m.put("access_token"@, JsonView::Str(t)).put("type"@, kind)) == t,
{
    broadcast use crate::value::group_fields;

    reveal_strlit("access_token");
    reveal_strlit("type");
    assert("access_token"@.len() != "type"@.len());
}

/// Payloads are gathered under tokens that are not empty.
proof fn lemma_gathered_named(payloads: Seq<JsonView>)
    ensures
        distinct_names(gathered(payloads)),
        forall|k: int|
            0 <= k < gathered(payloads).len() ==> (#[trigger] gathered(payloads)[k]).0.len() > 0,
    decreases payloads.len(),
{
    if payloads.len() > 0 {
        let done = gathered(payloads.drop_last());
        lemma_gathered_named(payloads.drop_last());
        let p = payloads.last();
        let t = payload_token(p);
        if p is Obj && t.len() > 0 {
            let known = match lookup(done, t) {
                Some(m) => m,
                None => empty_object(),
            };
            let v = crate::account::merged(known, p).put("access_token"@, JsonView::Str(t));
            crate::assoc::lemma_put_shape(done, t, v);
            let q = put_entry(done, t, v);
            assert forall|k: int| 0 <= k < q.len() implies (#[trigger] q[k]).0.len() > 0 by {
                if q[k] != (t, v) {
                    let j = choose|j: int| 0 <= j < done.len() && done[j] == q[k];
                    assert(done[j].0.len() > 0);
                }
            }
        }
    }
}

proof fn lemma_filter_all(es: Seq<(Seq<char>, JsonView)>, none: Seq<Seq<char>>)
    requires
        none.len() == 0,
    ensures
        es.filter(outside(none)) == es,
    decreases es.len(),
{
    reveal(Seq::filter);
    if es.len() > 0 {
        lemma_filter_all(es.drop_last(), none);
        assert(es =~= es.drop_last().push(es.last()));
    } else {
        assert(es.filter(outside(none)) =~= es);
    }
}

proof fn lemma_filter_more(
    es: Seq<(Seq<char>, JsonView)>,
    gone: Seq<Seq<char>>,
    t: Seq<char>,
)
    ensures
        drop_entry(es.filter(outside(gone)), t) == es.filter(outside(gone.push(t))),
    decreases es.len(),
{
    reveal(Seq::filter);
    let more = gone.push(t);
    if es.len() > 0 {
        let init = es.drop_last();
        let e = es.last();
        lemma_filter_more(init, gone, t);
        assert(more.contains(e.0) <==> gone.contains(e.0) || e.0 == t) by {
            if gone.contains(e.0) {
                let j = gone.index_of(e.0);
                assert(more[j] == e.0);
            }
            if e.0 == t {
                assert(more[gone.len() as int] == t);
            }
            if more.contains(e.0) && e.0 != t {
                let j = more.index_of(e.0);
                assert(gone[j] == e.0);
            }
        }
        let f = init.filter(outside(gone));
        if !gone.contains(e.0) {
            assert(es.filter(outside(gone)) == f.push(e));
            assert(f.push(e).drop_last() =~= f);
            assert(drop_entry(f.push(e), t) == if e.0 != t {
                drop_entry(f, t).push(e)
            } else {
                drop_entry(f, t)
            });
        }
    } else {
        assert(es.filter(outside(gone)) =~= Seq::empty());
        assert(drop_entry(es.filter(outside(gone)), t) =~= es.filter(outside(more)));
    }
}

proof fn lemma_drop_len(es: Seq<(Seq<char>, JsonView)>, t: Seq<char>)
    requires
        distinct_names(es),
    ensures
        drop_entry(es, t).len() == es.len() - (if lookup(es, t) is Some {
            1int
        } else {
            0
        }),
    decreases es.len(),
{
    if es.len() == 0 {
        lemma_drop_shape(es, t);
    } else {
        let rest = es.drop_first();
        assert forall|i: int, j: int| 0 <= i < j < rest.len() implies (#[trigger] rest[i]).0 != (
        #[trigger] rest[j]).0 by {
            assert(es[i + 1].0 != es[j + 1].0);
        }
        crate::assoc::lemma_drop_front(es, t);
        lemma_drop_len(rest, t);
        if es[0].0 == t {
            lemma_lookup_found(rest, t);
            if lookup(rest, t) is Some {
                let i = choose|i: int| 0 <= i < rest.len() && #[trigger] rest[i] == (t, lookup(rest, t)->0);
                assert(es[i + 1].0 == es[0].0);
            }
        }
    }
}

} // verus!
