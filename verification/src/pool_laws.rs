//! What holds of the account pool across operations.
use vstd::prelude::*;

use crate::account::{image_ready, is_at, normal_account, raw_token, serves, Wanted};
use crate::assoc::{
    drop_entry, lemma_lookup_drop, lemma_lookup_found, lemma_lookup_put, lemma_put_shape, lookup,
    put_entry,
};
use crate::pool_model::{combined, has_slot, image_done, outside, ready_token, PoolView};
use crate::text::trimmed;
use crate::value::JsonView;

verus! {

// ---------------------------------------------------------------------------
// tokens
// ---------------------------------------------------------------------------

proof fn lemma_chase_on(
    p: PoolView,
    from: Seq<char>,
    to: Seq<char>,
    a: JsonView,
    token: Seq<char>,
    seen: Set<Seq<char>>,
    n: nat,
    m: nat,
)
    requires
        p.wf(),
        p.aliases.dom().finite(),
        to != from,
        to.len() > 0,
        lookup(p.entries, from) is Some,
        p.chase(token, seen, n) == from,
        seen.subset_of(p.rotated(from, to, a).aliases.dom().remove(from)),
        m + seen.len() == p.rotated(from, to, a).aliases.dom().len() + 1,
        token != to ==> !seen.contains(to),
        seen.finite(),
    ensures
        p.rotated(from, to, a).chase(token, seen, m) == to,
    decreases n,
{
    let q = p.rotated(from, to, a);
    let dom = q.aliases.dom();
    assert(dom.contains(from));
    vstd::set_lib::lemma_len_subset(seen, dom.remove(from));
    assert(m >= 2);
    lemma_lookup_put(drop_entry(p.entries, from), to, a, token);
    lemma_lookup_put(drop_entry(p.entries, from), to, a, to);
    lemma_lookup_drop(p.entries, from, token);
    crate::pool_model::lemma_found_wf(p, from);
    if token == to {
        assert(q.halts(token, seen));
    } else if token == from {
        assert(!q.halts(token, seen));
        let next = seen.insert(token);
        assert(q.aliases[token] == to);
        assert(q.halts(to, next));
        assert(q.chase(to, next, (m - 1) as nat) == to);
    } else {
        assert(n > 0 && !p.halts(token, seen));
        assert(!q.halts(token, seen));
        assert(q.aliases[token] == p.aliases[token]);
        let next = seen.insert(token);
        assert(next.subset_of(dom.remove(from)));
        if p.aliases[token] != to {
            assert(!next.contains(to));
        }
        lemma_chase_on(p, from, to, a, p.aliases[token], next, (n - 1) as nat, (m - 1) as nat);
    }
}

/// A token keeps leading to its account when the account's token is replaced: what stood for
/// the old token, the old token itself included, stands for the new one afterwards.
pub proof fn law_old_token_leads_on(
    p: PoolView,
    from: Seq<char>,
    to: Seq<char>,
    a: JsonView,
    token: Seq<char>,
)
    requires
        p.wf(),
        to.len() > 0,
        lookup(p.entries, from) is Some,
        p.resolve(token) == from,
    ensures
        p.rotated(from, to, a).resolve(token) == to,
        lookup(p.rotated(from, to, a).entries, to) == Some(a),
{
    let q = p.rotated(from, to, a);
    if to == from {
        lemma_lookup_put(p.entries, to, a, to);
        lemma_same_names(p, q, trimmed(token), Set::empty(), p.aliases.dom().len() + 1);
    } else {
        lemma_lookup_put(drop_entry(p.entries, from), to, a, to);
        lemma_chase_on(
            p,
            from,
            to,
            a,
            trimmed(token),
            Set::empty(),
            p.aliases.dom().len() + 1,
            q.aliases.dom().len() + 1,
        );
    }
}

/// Putting an account in place of one under the same token changes no resolution.
pub proof fn lemma_same_names(
    p: PoolView,
    q: PoolView,
    token: Seq<char>,
    seen: Set<Seq<char>>,
    n: nat,
)
    requires
        p.aliases == q.aliases,
        exists|t: Seq<char>, a: JsonView|
            lookup(p.entries, t) is Some && q.entries == #[trigger] put_entry(p.entries, t, a),
    ensures
        p.chase(token, seen, n) == q.chase(token, seen, n),
    decreases n,
{
    let (t, a) = choose|t: Seq<char>, a: JsonView|
        lookup(p.entries, t) is Some && q.entries == #[trigger] put_entry(p.entries, t, a);
    lemma_lookup_put(p.entries, t, a, token);
    if n > 0 && !p.halts(token, seen) {
        lemma_same_names(p, q, p.aliases[token], seen.insert(token), (n - 1) as nat);
    }
}

// ---------------------------------------------------------------------------
// image slots
// ---------------------------------------------------------------------------

proof fn lemma_same_chase(p: PoolView, q: PoolView, token: Seq<char>, seen: Set<Seq<char>>, n: nat)
    requires
        p.entries == q.entries,
        p.aliases == q.aliases,
    ensures
        p.chase(token, seen, n) == q.chase(token, seen, n),
    decreases n,
{
    if n > 0 && !p.halts(token, seen) {
        lemma_same_chase(p, q, p.aliases[token], seen.insert(token), (n - 1) as nat);
    }
}

/// Giving back a slot that was just handed out leaves every token with the slots that it had.
/// The token has no white space at its ends: what is given back is the token without it.
pub proof fn law_slot_taken_and_released(
    p: PoolView,
    excluded: Seq<Seq<char>>,
    wanted: Wanted,
    limit: i64,
    other: Seq<char>,
)
    requires
        p.wf(),
        p.available(excluded, wanted, limit as int).len() > 0,
        trimmed(p.turn(excluded, wanted, limit as int)) == p.turn(excluded, wanted, limit as int),
    ensures
        ({
            let token = p.turn(excluded, wanted, limit as int);
            let q = p.taken(token).released(token);
            &&& q.slots(other) == p.slots(other)
            &&& q.entries == p.entries
            &&& q.aliases == p.aliases
        }),
{
    let token = p.turn(excluded, wanted, limit as int);
    let free = p.available(excluded, wanted, limit as int);
    law_handed_out(p, excluded, wanted, limit, p.index as int % free.len() as int);
    crate::pool_model::lemma_found_wf(p, token);
    assert(p.slots(token) >= 0);
    assert(p.halts(token, Set::empty()));
    assert(p.resolve(token) == token);
    let q = p.taken(token);
    lemma_same_chase(p, q, trimmed(token), Set::empty(), p.aliases.dom().len() + 1);
}

/// Giving back a slot of a token that has none taken leaves it with none, and no token with fewer
/// than none.
pub proof fn law_slots_not_negative(p: PoolView, token: Seq<char>, other: Seq<char>)
    requires
        p.wf(),
    ensures
        p.released(token).slots(other) >= 0,
        p.slots(p.resolve(token)) == 0 ==> p.released(token).slots(p.resolve(token)) == 0,
        p.released(token).wf(),
{
    assert(p.inflight.dom().contains(other) ==> p.inflight[other] >= 0);
}

/// A token that is handed out belongs to an account that can serve the request, was not
/// excluded, and has no more slots taken afterwards than it may.
pub proof fn law_handed_out(
    p: PoolView,
    excluded: Seq<Seq<char>>,
    wanted: Wanted,
    limit: i64,
    i: int,
)
    requires
        p.wf(),
        0 <= i < p.available(excluded, wanted, limit as int).len(),
    ensures
        ({
            let t = p.available(excluded, wanted, limit as int)[i];
            &&& !excluded.contains(t)
            &&& lookup(p.entries, t) is Some
            &&& serves(lookup(p.entries, t)->0, wanted)
            &&& p.slots(t) < limit
            &&& p.taken(t).slots(t) <= limit
        }),
{
    broadcast use vstd::seq_lib::group_filter_ensures;

    let ready = p.ready(excluded, wanted);
    let keep = has_slot(p, limit as int);
    let free = p.available(excluded, wanted, limit as int);
    let t = free[i];
    assert(keep(free[i]));
    lemma_filter_within(ready, keep, i);
    let j = choose|j: int| 0 <= j < ready.len() && ready[j] == t;
    assert(p.entries.take(p.entries.len() as int) =~= p.entries);
    lemma_ready_serves(p, excluded, wanted, p.entries.len() as int, j);
}

proof fn lemma_filter_within(s: Seq<Seq<char>>, keep: spec_fn(Seq<char>) -> bool, i: int)
    requires
        0 <= i < s.filter(keep).len(),
    ensures
        s.contains(s.filter(keep)[i]),
    decreases s.len(),
{
    reveal(Seq::filter);
    if s.len() > 0 {
        let init = s.drop_last();
        if i < init.filter(keep).len() {
            lemma_filter_within(init, keep, i);
            let j = init.index_of(init.filter(keep)[i]);
            assert(s[j] == s.filter(keep)[i]);
        } else {
            assert(s[s.len() - 1] == s.filter(keep)[i]);
        }
    }
}

proof fn lemma_ready_serves(
    p: PoolView,
    excluded: Seq<Seq<char>>,
    wanted: Wanted,
    n: int,
    j: int,
)
    requires
        p.wf(),
        0 <= n <= p.entries.len(),
        0 <= j < p.entries.take(n).filter_map(ready_token(excluded, wanted)).len(),
    ensures
        ({
            let t = p.entries.take(n).filter_map(ready_token(excluded, wanted))[j];
            &&& !excluded.contains(t)
            &&& lookup(p.entries, t) is Some
            &&& serves(lookup(p.entries, t)->0, wanted)
        }),
    decreases n,
{
    let f = ready_token(excluded, wanted);
    let es = p.entries;
    if n > 0 {
        es.lemma_filter_map_take_succ(f, n - 1);
        let prev = es.take(n - 1).filter_map(f);
        let all = es.take(n).filter_map(f);
        if j < prev.len() {
            assert(all[j] == prev[j]);
            lemma_ready_serves(p, excluded, wanted, n - 1, j);
        } else {
            let e = es[n - 1];
            assert(is_at(e.1, "access_token"@, e.0));
            assert(all[j] == e.0);
            lemma_lookup_found(es, e.0);
            let k = choose|k: int|
                0 <= k < es.len() && #[trigger] es[k] == (e.0, lookup(es, e.0)->0);
            if k < n - 1 {
                assert(es[k].0 != es[n - 1].0);
            } else if n - 1 < k {
                assert(es[n - 1].0 != es[k].0);
            }
        }
    }
}

proof fn lemma_turns_differ(index: int, n: int, i: int, j: int)
    requires
        0 <= index,
        0 <= i < j < n,
    ensures
        (index + i) % n != (index + j) % n,
{
    let a = index + i;
    let b = index + j;
    if a % n == b % n {
        vstd::arithmetic::div_mod::lemma_fundamental_div_mod(a, n);
        vstd::arithmetic::div_mod::lemma_fundamental_div_mod(b, n);
        let q = b / n - a / n;
        assert(b - a == n * q) by (nonlinear_arith)
            requires
                a == n * (a / n) + a % n,
                b == n * (b / n) + b % n,
                a % n == b % n,
                q == b / n - a / n,
        ;
        assert(false) by (nonlinear_arith)
            requires
                b - a == n * q,
                0 < b - a < n,
        ;
    }
}

proof fn lemma_turn_reached(index: int, n: int, at: int) -> (k: int)
    requires
        0 <= index,
        0 <= at < n,
    ensures
        0 <= k < n,
        (index + k) % n == at,
{
    let r = index % n;
    let q = index / n;
    vstd::arithmetic::div_mod::lemma_fundamental_div_mod(index, n);
    vstd::arithmetic::div_mod::lemma_mod_bound(index, n);
    let k = if at >= r {
        at - r
    } else {
        at - r + n
    };
    let w = if at >= r {
        q
    } else {
        q + 1
    };
    assert(index + k == w * n + at) by (nonlinear_arith)
        requires
            index == n * q + r,
            (k == at - r && w == q) || (k == at - r + n && w == q + 1),
    ;
    vstd::arithmetic::div_mod::lemma_fundamental_div_mod_converse(index + k, n, w, at);
    k
}

/// The tokens that can serve a request differ.
proof fn lemma_ready_differ(p: PoolView, excluded: Seq<Seq<char>>, wanted: Wanted, n: int)
    requires
        p.wf(),
        0 <= n <= p.entries.len(),
    ensures
        ({
            let r = p.entries.take(n).filter_map(ready_token(excluded, wanted));
            &&& r.no_duplicates()
            &&& forall|i: int|
                0 <= i < r.len() ==> exists|j: int| 0 <= j < n && p.entries[j].0 == #[trigger] r[i]
        }),
    decreases n,
{
    let f = ready_token(excluded, wanted);
    let es = p.entries;
    if n > 0 {
        es.lemma_filter_map_take_succ(f, n - 1);
        lemma_ready_differ(p, excluded, wanted, n - 1);
        let prev = es.take(n - 1).filter_map(f);
        let all = es.take(n).filter_map(f);
        let e = es[n - 1];
        assert(is_at(e.1, "access_token"@, e.0));
        assert forall|i: int| 0 <= i < all.len() implies exists|j: int|
            0 <= j < n && es[j].0 == #[trigger] all[i] by {
            if i < prev.len() {
                assert(all[i] == prev[i]);
                let j = choose|j: int| 0 <= j < n - 1 && es[j].0 == prev[i];
                assert(es[j].0 == all[i]);
            } else {
                assert(es[n - 1].0 == all[i]);
            }
        }
        assert forall|i: int, j: int| 0 <= i < j < all.len() implies all[i] != all[j] by {
            if j < prev.len() {
                assert(all[i] == prev[i] && all[j] == prev[j]);
            } else {
                assert(all[i] == prev[i]);
                let m = choose|m: int| 0 <= m < n - 1 && es[m].0 == prev[i];
                assert(es[m].0 != es[n - 1].0);
            }
        }
    } else {
        assert(es.take(0).filter_map(f) =~= Seq::empty());
    }
}

proof fn lemma_filter_all(s: Seq<Seq<char>>, keep: spec_fn(Seq<char>) -> bool)
    requires
        forall|i: int| 0 <= i < s.len() ==> keep(#[trigger] s[i]),
    ensures
        s.filter(keep) == s,
    decreases s.len(),
{
    reveal(Seq::filter);
    if s.len() > 0 {
        lemma_filter_all(s.drop_last(), keep);
        assert(s.drop_last().push(s.last()) =~= s);
    }
}

/// What `k` requests in a row do to a pool where no slot was taken.
proof fn lemma_turns(
    p: PoolView,
    excluded: Seq<Seq<char>>,
    wanted: Wanted,
    limit: int,
    k: nat,
)
    requires
        p.wf(),
        2 <= limit <= i64::MAX,
        forall|t: Seq<char>| p.slots(t) == 0,
        k <= p.ready(excluded, wanted).len(),
        p.index + k <= usize::MAX,
    ensures
        ({
            let free = p.ready(excluded, wanted);
            let (q, got) = p.turns(excluded, wanted, limit, k);
            &&& q.entries == p.entries
            &&& q.aliases == p.aliases
            &&& q.index == p.index + k
            &&& got.len() == k
            &&& forall|i: int|
                0 <= i < k ==> #[trigger] got[i] == free[(p.index + i) % (free.len() as int)]
            &&& forall|t: Seq<char>| #[trigger]
                q.slots(t) == (if got.contains(t) {
                    1i64
                } else {
                    0
                })
            &&& free.len() > 0 ==> q.available(excluded, wanted, limit) == free
        }),
    decreases k,
{
    let free = p.ready(excluded, wanted);
    let n = free.len() as int;
    lemma_ready_differ(p, excluded, wanted, p.entries.len() as int);
    assert(p.entries.take(p.entries.len() as int) =~= p.entries);
    let (q, got) = p.turns(excluded, wanted, limit, k);
    if k > 0 {
        lemma_turns(p, excluded, wanted, limit, (k - 1) as nat);
        let (b, had) = p.turns(excluded, wanted, limit, (k - 1) as nat);
        let at = (p.index + (k - 1)) % n;
        vstd::arithmetic::div_mod::lemma_mod_bound(p.index + (k - 1), n);
        let t = free[at];
        assert(b.turn(excluded, wanted, limit) == t);
        assert(got == had.push(t));
        assert(q == b.taken(t));
        assert(!had.contains(t)) by {
            if had.contains(t) {
                let i = choose|i: int| 0 <= i < had.len() && had[i] == t;
                lemma_turns_differ(p.index as int, n, i, k - 1);
                vstd::arithmetic::div_mod::lemma_mod_bound(p.index + i, n);
                assert(free[(p.index + i) % n] == free[at]);
            }
        }
        assert(b.slots(t) == 0);
        assert(got.contains(t)) by {
            assert(got[k - 1] == t);
        }
        assert forall|x: Seq<char>| #[trigger] q.slots(x) == (if got.contains(x) {
            1i64
        } else {
            0
        }) by {
            if x != t {
                assert(q.slots(x) == b.slots(x));
                if had.contains(x) {
                    let i = choose|i: int| 0 <= i < had.len() && had[i] == x;
                    assert(got[i] == x);
                } else if got.contains(x) {
                    let i = choose|i: int| 0 <= i < got.len() && got[i] == x;
                    assert(had[i] == x);
                }
            }
        }
        assert forall|i: int| 0 <= i < k implies #[trigger] got[i] == free[(p.index + i) % n] by {
            if i < k - 1 {
                assert(got[i] == had[i]);
            }
        }
    } else {
        assert forall|t: Seq<char>| #[trigger] q.slots(t) == (if got.contains(t) {
            1i64
        } else {
            0
        }) by {
            assert(p.slots(t) == 0);
        }
    }
    assert(q.ready(excluded, wanted) == free);
    let keep = has_slot(q, limit);
    assert forall|i: int| 0 <= i < free.len() implies keep(#[trigger] free[i]) by {
        assert(q.slots(free[i]) <= 1);
    }
    lemma_filter_all(free, keep);
}

/// Tokens take turns: where no slot is taken and each token may have two, as many requests in a
/// row as there are tokens that can serve them each find all of these tokens free and hand out
/// each of them exactly once, and each of them has one slot taken afterwards.
pub proof fn law_round_robin(
    p: PoolView,
    excluded: Seq<Seq<char>>,
    wanted: Wanted,
    limit: i64,
)
    requires
        p.wf(),
        2 <= limit,
        forall|t: Seq<char>| p.slots(t) == 0,
        p.index + p.ready(excluded, wanted).len() <= usize::MAX,
    ensures
        ({
            let free = p.available(excluded, wanted, limit as int);
            let (q, got) = p.turns(excluded, wanted, limit as int, free.len());
            &&& free == p.ready(excluded, wanted)
            &&& free.no_duplicates()
            &&& forall|k: nat|
                k < free.len() ==> (#[trigger] p.turns(excluded, wanted, limit as int, k)).0.available(
                    excluded,
                    wanted,
                    limit as int,
                ) == free
            &&& got.len() == free.len()
            &&& got.no_duplicates()
            &&& forall|t: Seq<char>| got.contains(t) <==> free.contains(t)
            &&& forall|t: Seq<char>| #[trigger]
                q.slots(t) == (if free.contains(t) {
                    1i64
                } else {
                    0
                })
            &&& q.entries == p.entries
        }),
{
    let ready = p.ready(excluded, wanted);
    let keep = has_slot(p, limit as int);
    assert forall|i: int| 0 <= i < ready.len() implies keep(#[trigger] ready[i]) by {
        assert(p.slots(ready[i]) == 0);
    }
    lemma_filter_all(ready, keep);
    let free = p.available(excluded, wanted, limit as int);
    let n = free.len() as int;
    lemma_ready_differ(p, excluded, wanted, p.entries.len() as int);
    assert(p.entries.take(p.entries.len() as int) =~= p.entries);
    lemma_turns(p, excluded, wanted, limit as int, free.len());
    let (q, got) = p.turns(excluded, wanted, limit as int, free.len());
    assert forall|k: nat| k < free.len() implies (#[trigger] p.turns(
        excluded,
        wanted,
        limit as int,
        k,
    )).0.available(excluded, wanted, limit as int) == free by {
        lemma_turns(p, excluded, wanted, limit as int, k);
    }
    assert forall|i: int, j: int| 0 <= i < j < got.len() implies got[i] != got[j] by {
        lemma_turns_differ(p.index as int, n, i, j);
        vstd::arithmetic::div_mod::lemma_mod_bound(p.index + i, n);
        vstd::arithmetic::div_mod::lemma_mod_bound(p.index + j, n);
    }
    assert forall|t: Seq<char>| got.contains(t) <==> free.contains(t) by {
        if got.contains(t) {
            let i = choose|i: int| 0 <= i < got.len() && got[i] == t;
            vstd::arithmetic::div_mod::lemma_mod_bound(p.index + i, n);
            assert(free[(p.index + i) % n] == t);
        }
        if free.contains(t) {
            let j = choose|j: int| 0 <= j < free.len() && free[j] == t;
            let k = lemma_turn_reached(p.index as int, n, j);
            assert(got[k] == t);
        }
    }
}

// ---------------------------------------------------------------------------
// deleting and adding
// ---------------------------------------------------------------------------

proof fn lemma_targets_hold(p: PoolView, tokens: Seq<Seq<char>>, i: int)
    requires
        0 <= i < tokens.len(),
        tokens[i].len() > 0,
    ensures
        p.targets(tokens).contains(p.resolve(tokens[i])),
    decreases tokens.len(),
{
    let done = p.targets(tokens.drop_last());
    let t = p.resolve(tokens.last());
    if i < tokens.len() - 1 {
        lemma_targets_hold(p, tokens.drop_last(), i);
        let x = p.resolve(tokens[i]);
        let j = done.index_of(x);
        assert(p.targets(tokens)[j] == x);
    } else if !done.contains(t) {
        assert(p.targets(tokens)[done.len() as int] == t);
    }
}

proof fn lemma_filter_lookup(
    es: Seq<(Seq<char>, JsonView)>,
    gone: Seq<Seq<char>>,
    k: Seq<char>,
)
    ensures
        lookup(es.filter(outside(gone)), k) == (if gone.contains(k) {
            None
        } else {
            lookup(es, k)
        }),
    decreases es.len(),
{
    let f = outside(gone);
    if es.len() == 0 {
        assert(es.filter(f) =~= es) by {
            reveal(Seq::filter);
        }
    } else {
        let rest = es.drop_first();
        lemma_filter_lookup(rest, gone, k);
        assert(es =~= seq![es[0]] + rest);
        Seq::filter_distributes_over_add(seq![es[0]], rest, f);
        let head = seq![es[0]].filter(f);
        assert(head =~= if f(es[0]) {
            seq![es[0]]
        } else {
            Seq::empty()
        }) by {
            reveal(Seq::filter);
            assert(seq![es[0]].drop_last() =~= Seq::empty());
            assert(Seq::<(Seq<char>, JsonView)>::empty().filter(f) =~= Seq::empty());
        }
        if f(es[0]) {
            assert(es.filter(f).drop_first() =~= rest.filter(f));
        } else {
            assert(es.filter(f) =~= rest.filter(f));
        }
    }
}

/// Deleting takes out what the tokens stood for, with its slots and its aliases, and leaves
/// every other account as it was.
pub proof fn law_deleted_gone(p: PoolView, tokens: Seq<Seq<char>>, i: int, other: Seq<char>)
    requires
        0 <= i < tokens.len(),
        tokens[i].len() > 0,
    ensures
        ({
            let q = p.deleted(tokens);
            let t = p.resolve(tokens[i]);
            &&& lookup(q.entries, t) is None
            &&& q.slots(t) == 0
            &&& !q.aliases.dom().contains(t)
            &&& q.aliases.dom().contains(other) ==> q.aliases[other] != t
            &&& !p.targets(tokens).contains(other) ==> lookup(q.entries, other) == lookup(
                p.entries,
                other,
            )
        }),
{
    let gone = p.targets(tokens);
    let t = p.resolve(tokens[i]);
    lemma_targets_hold(p, tokens, i);
    lemma_filter_lookup(p.entries, gone, t);
    lemma_filter_lookup(p.entries, gone, other);
    assert(gone.to_set().contains(t));
}

/// Adding payloads leaves an account under each of their tokens, adds one entry for each new
/// one, and loses no account.
pub proof fn law_added_present(
    p: PoolView,
    payloads: Seq<(Seq<char>, JsonView)>,
    now: Seq<char>,
    k: Seq<char>,
)
    requires
        forall|j: int| 0 <= j < payloads.len() ==> (#[trigger] payloads[j]).0.len() > 0,
    ensures
        ({
            let (q, added, skipped) = p.admitted_all(payloads, now);
            &&& added + skipped == payloads.len()
            &&& q.entries.len() == p.entries.len() + added
            &&& (lookup(p.entries, k) is Some || lookup(payloads, k) is Some) ==> lookup(
                q.entries,
                k,
            ) is Some
            &&& (lookup(q.entries, k) is Some ==> lookup(p.entries, k) is Some || lookup(
                payloads,
                k,
            ) is Some)
        }),
    decreases payloads.len(),
{
    if payloads.len() > 0 {
        let init = payloads.drop_last();
        law_added_present(p, init, now, k);
        let (r, added, skipped) = p.admitted_all(init, now);
        let (t, payload) = payloads.last();
        assert(payloads[payloads.len() - 1].0.len() > 0);
        let base = match lookup(r.entries, t) {
            Some(a) => a,
            None => crate::value::empty_object().put("created_at"@, JsonView::Str(now)),
        };
        lemma_combined_token(base, payload, t);
        let a = normal_account(combined(base, payload, t), now)->0;
        lemma_put_shape(r.entries, t, a);
        lemma_lookup_put(r.entries, t, a, k);
        lemma_lookup_found(payloads, k);
        lemma_lookup_found(init, k);
        if lookup(payloads, k) is Some && t != k {
            let i = choose|i: int|
                0 <= i < payloads.len() && #[trigger] payloads[i] == (k, lookup(payloads, k)->0);
            assert(init[i] == payloads[i]);
        }
        if lookup(init, k) is Some {
            let i = choose|i: int|
                0 <= i < init.len() && #[trigger] init[i] == (k, lookup(init, k)->0);
            assert(payloads[i] == init[i]);
        }
        if t == k {
            assert(payloads[payloads.len() - 1].0 == k);
        }
    }
}

proof fn lemma_combined_token(base: JsonView, payload: JsonView, t: Seq<char>)
    requires
        t.len() > 0,
    ensures
        combined(base, payload, t) is Obj,
        raw_token(combined(base, payload, t)) == t,
{
    broadcast use crate::value::group_fields;

    reveal_strlit("access_token");
    reveal_strlit("type");
    assert("access_token"@.len() != "type"@.len());
}

// ---------------------------------------------------------------------------
// quota
// ---------------------------------------------------------------------------

proof fn lemma_status_quota_names()
    ensures
        "status"@ != "quota"@,
        "status"@ != "success"@,
        "quota"@ != "success"@,
        "last_used_at"@ != "status"@,
        "last_used_at"@ != "quota"@,
        "last_used_at"@ != "success"@,
        "image_quota_unknown"@ != "status"@,
        "image_quota_unknown"@ != "quota"@,
        "image_quota_unknown"@ != "success"@,
        "image_quota_unknown"@ != "last_used_at"@,
{
    reveal_strlit("status");
    reveal_strlit("quota");
    reveal_strlit("success");
    reveal_strlit("last_used_at");
    reveal_strlit("image_quota_unknown");
    assert("status"@.len() == 6);
    assert("quota"@.len() == 5);
    assert("success"@.len() == 7);
    assert("last_used_at"@.len() == 12);
    assert("image_quota_unknown"@.len() == 19);
}

/// A successful image takes exactly one from a known quota; the one that uses the quota up
/// leaves the account limited.
pub proof fn law_image_paid(a: JsonView, used_at: Seq<char>)
    requires
        a is Obj,
        !a.bool_at("image_quota_unknown"@, false),
        a.int_at("quota"@, 0) > 0,
    ensures
        image_done(a, true, used_at).int_at("quota"@, 0) == a.int_at("quota"@, 0) - 1,
        a.int_at("quota"@, 0) == 1 <==> !image_ready(image_done(a, true, used_at)) && is_at(
            image_done(a, true, used_at),
            "status"@,
            "限流"@,
        ),
{
    broadcast use crate::value::group_fields;

    lemma_status_quota_names();
    reveal_strlit("限流");
    reveal_strlit("正常");
    assert("限流"@[0] != "正常"@[0]);
}

/// A failed image takes nothing from the quota and leaves the status.
pub proof fn law_image_failed(a: JsonView, used_at: Seq<char>)
    requires
        a is Obj,
    ensures
        image_done(a, false, used_at).get("quota"@) == a.get("quota"@),
        image_done(a, false, used_at).get("status"@) == a.get("status"@),
{
    broadcast use crate::value::group_fields;

    lemma_status_quota_names();
    reveal_strlit("fail");
    reveal_strlit("status");
    reveal_strlit("quota");
    assert("fail"@.len() == 4);
    assert("status"@.len() == 6);
    assert("quota"@.len() == 5);
}

} // verus!
