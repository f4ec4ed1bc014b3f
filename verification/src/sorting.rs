//! Stable sorting by text.
use vstd::multiset::Multiset;
use vstd::prelude::*;

use crate::account::{field_trim, trim_at};
use crate::text::{before, precedes, views};
use crate::value::{list_view, Json, JsonView};

verus! {

broadcast use crate::value::group_json;

/// A sorted list with one more item, behind those that are equal to it.
pub open spec fn placed<A>(s: Seq<A>, x: A, lt: spec_fn(A, A) -> bool) -> Seq<A>
    decreases s.len(),
{
    if s.len() == 0 || !lt(x, s.last()) {
        s.push(x)
    } else {
        placed(s.drop_last(), x, lt).push(s.last())
    }
}

/// The items of a list in order, equal ones in the order in which they came.
pub open spec fn sorted<A>(s: Seq<A>, lt: spec_fn(A, A) -> bool) -> Seq<A>
    decreases s.len(),
{
    if s.len() == 0 {
        s
    } else {
        placed(sorted(s.drop_last(), lt), s.last(), lt)
    }
}

/// Where an item is placed: behind the last one that is not greater.
pub proof fn lemma_placed_at<A>(s: Seq<A>, x: A, lt: spec_fn(A, A) -> bool, i: int)
    requires
        0 <= i <= s.len(),
        forall|j: int| i <= j < s.len() ==> lt(x, #[trigger] s[j]),
        i > 0 ==> !lt(x, s[i - 1]),
    ensures
        placed(s, x, lt) == s.insert(i, x),
    decreases s.len(),
{
    if i == s.len() {
        assert(s.insert(i, x) =~= s.push(x));
    } else {
        let init = s.drop_last();
        assert(lt(x, s[s.len() - 1]));
        assert forall|j: int| i <= j < init.len() implies lt(x, #[trigger] init[j]) by {
            assert(init[j] == s[j]);
        }
        lemma_placed_at(init, x, lt, i);
        assert(s.insert(i, x) =~= init.insert(i, x).push(s.last()));
    }
}

/// Sorting keeps the items.
pub proof fn law_sorted_same_items<A>(s: Seq<A>, lt: spec_fn(A, A) -> bool)
    ensures
        sorted(s, lt).to_multiset() == s.to_multiset(),
        sorted(s, lt).len() == s.len(),
    decreases s.len(),
{
    broadcast use vstd::seq_lib::group_to_multiset_ensures;

    if s.len() > 0 {
        let init = s.drop_last();
        law_sorted_same_items(init, lt);
        lemma_placed_items(sorted(init, lt), s.last(), lt);
        assert(s =~= init.push(s.last()));
    }
}

proof fn lemma_placed_items<A>(s: Seq<A>, x: A, lt: spec_fn(A, A) -> bool)
    ensures
        placed(s, x, lt).to_multiset() == s.to_multiset().insert(x),
        placed(s, x, lt).len() == s.len() + 1,
    decreases s.len(),
{
    broadcast use vstd::seq_lib::group_to_multiset_ensures;

    if s.len() == 0 || !lt(x, s.last()) {
    } else {
        let init = s.drop_last();
        lemma_placed_items(init, x, lt);
        assert(s =~= init.push(s.last()));
        assert(placed(s, x, lt).to_multiset() =~= s.to_multiset().insert(x));
    }
}

/// Text order is a strict total order.
pub proof fn lemma_precedes(a: Seq<char>, b: Seq<char>, c: Seq<char>)
    ensures
        !precedes(a, a),
        precedes(a, b) ==> !precedes(b, a),
        precedes(a, b) && precedes(b, c) ==> precedes(a, c),
        a == b || precedes(a, b) || precedes(b, a),
    decreases a.len() + b.len() + c.len(),
{
    lemma_not_before_itself(a);
    if a.len() > 0 && b.len() > 0 {
        let (x, y) = (a.drop_first(), b.drop_first());
        if c.len() > 0 {
            lemma_precedes(x, y, c.drop_first());
        } else {
            lemma_precedes(x, y, c);
        }
        if x == y && a[0] == b[0] {
            assert(a =~= seq![a[0]] + x);
            assert(b =~= seq![b[0]] + y);
        }
    } else if a.len() == 0 && b.len() == 0 {
        assert(a =~= b);
    }
}

proof fn lemma_not_before_itself(a: Seq<char>)
    ensures
        !precedes(a, a),
    decreases a.len(),
{
    if a.len() > 0 {
        lemma_not_before_itself(a.drop_first());
    }
}

/// Whether no item of a list is less than one before it.
pub open spec fn in_order<A>(s: Seq<A>, lt: spec_fn(A, A) -> bool) -> bool {
    forall|i: int, j: int| 0 <= i < j < s.len() ==> !lt(#[trigger] s[j], #[trigger] s[i])
}

/// Whether `lt` compares items by a text that each of them has.
pub open spec fn by_text<A>(lt: spec_fn(A, A) -> bool, key: spec_fn(A) -> Seq<char>) -> bool {
    ||| forall|x: A, y: A| #[trigger] lt(x, y) == precedes(key(x), key(y))
    ||| forall|x: A, y: A| #[trigger] lt(x, y) == precedes(key(y), key(x))
}

/// A sorted list is in order.
pub proof fn law_sorted_in_order<A>(
    s: Seq<A>,
    lt: spec_fn(A, A) -> bool,
    key: spec_fn(A) -> Seq<char>,
)
    requires
        by_text(lt, key),
    ensures
        in_order(sorted(s, lt), lt),
    decreases s.len(),
{
    if s.len() > 0 {
        law_sorted_in_order(s.drop_last(), lt, key);
        lemma_placed_in_order(sorted(s.drop_last(), lt), s.last(), lt, key);
    }
}

proof fn lemma_placed_in_order<A>(
    s: Seq<A>,
    x: A,
    lt: spec_fn(A, A) -> bool,
    key: spec_fn(A) -> Seq<char>,
)
    requires
        by_text(lt, key),
        in_order(s, lt),
    ensures
        in_order(placed(s, x, lt), lt),
        forall|i: int|
            0 <= i < placed(s, x, lt).len() ==> ((#[trigger] placed(s, x, lt)[i]) == x
                || s.contains(placed(s, x, lt)[i])),
    decreases s.len(),
{
    let q = placed(s, x, lt);
    if s.len() == 0 || !lt(x, s.last()) {
        assert forall|i: int, j: int| 0 <= i < j < q.len() implies !lt(
            #[trigger] q[j],
            #[trigger] q[i],
        ) by {
            if j == s.len() {
                lemma_precedes(key(x), key(s[i]), key(s.last()));
                lemma_precedes(key(s[i]), key(x), key(s.last()));
                lemma_precedes(key(s.last()), key(x), key(s[i]));
                lemma_precedes(key(s.last()), key(s[i]), key(x));
                lemma_precedes(key(x), key(s.last()), key(s[i]));
                lemma_precedes(key(s[i]), key(s.last()), key(x));
                if i < s.len() - 1 {
                    assert(!lt(s[s.len() - 1], s[i]));
                }
            }
        }
        assert forall|i: int| 0 <= i < q.len() implies ((#[trigger] q[i]) == x || s.contains(
            q[i],
        )) by {
            if i < s.len() {
                assert(s[i] == q[i]);
            }
        }
    } else {
        let init = s.drop_last();
        assert forall|i: int, j: int| 0 <= i < j < init.len() implies !lt(
            #[trigger] init[j],
            #[trigger] init[i],
        ) by {
            assert(!lt(s[j], s[i]));
        }
        lemma_placed_in_order(init, x, lt, key);
        let p = placed(init, x, lt);
        assert forall|i: int| 0 <= i < p.len() implies !lt(s.last(), #[trigger] p[i]) && (p[i] == x
            || s.contains(p[i])) by {
            if p[i] == x {
                lemma_precedes(key(x), key(s.last()), key(x));
                lemma_precedes(key(s.last()), key(x), key(x));
            } else {
                let m = choose|m: int| 0 <= m < init.len() && init[m] == p[i];
                assert(s[m] == p[i]);
                assert(!lt(s[s.len() - 1], s[m]));
            }
        }
        assert forall|i: int, j: int| 0 <= i < j < q.len() implies !lt(
            #[trigger] q[j],
            #[trigger] q[i],
        ) by {
            if j < p.len() {
                assert(!lt(p[j], p[i]));
            } else {
                assert(q[i] == p[i]);
            }
        }
        assert forall|i: int| 0 <= i < q.len() implies ((#[trigger] q[i]) == x || s.contains(
            q[i],
        )) by {
            if i < p.len() {
                assert(q[i] == p[i]);
            } else {
                assert(s[s.len() - 1] == q[i]);
            }
        }
    }
}

// ---------------------------------------------------------------------------
// what is sorted
// ---------------------------------------------------------------------------

/// Texts in text order.
pub open spec fn text_order() -> spec_fn(Seq<char>, Seq<char>) -> bool {
    |a: Seq<char>, b: Seq<char>| precedes(a, b)
}

/// Sorts texts.
pub fn sort_texts(v: &Vec<String>) -> (r: Vec<String>)
    ensures
        views(r@) == sorted(views(v@), text_order()),
{
    let ghost lt = text_order();
    let ghost all = views(v@);
    let mut out: Vec<String> = Vec::new();
    let mut k: usize = 0;
    assert(views(out@) =~= Seq::empty());
    while k < v.len()
        invariant
            k <= v@.len(),
            all == views(v@),
            lt == text_order(),
            views(out@) == sorted(all.take(k as int), lt),
        decreases v@.len() - k,
    {
        assert(all.take(k + 1).drop_last() =~= all.take(k as int));
        let ghost s = views(out@);
        let ghost x = all[k as int];
        let mut i: usize = out.len();
        while i > 0 && before(v[k].as_str(), out[i - 1].as_str())
            invariant
                k < v@.len(),
                i <= out@.len(),
                s == views(out@),
                x == v@[k as int]@,
                lt == text_order(),
                forall|j: int| i <= j < s.len() ==> lt(x, #[trigger] s[j]),
            ensures
                i <= out@.len(),
                s == views(out@),
                forall|j: int| i <= j < s.len() ==> lt(x, #[trigger] s[j]),
                i > 0 ==> !lt(x, s[i - 1]),
            decreases i,
        {
            i -= 1;
        }
        proof {
            lemma_placed_at(s, x, lt, i as int);
        }
        out.insert(i, v[k].clone());
        assert(views(out@) =~= s.insert(i as int, x));
        k += 1;
    }
    assert(all.take(k as int) =~= all);
    out
}

/// Pairs in the text order of their first halves.
pub open spec fn pair_order() -> spec_fn((Seq<char>, Seq<char>), (Seq<char>, Seq<char>)) -> bool {
    |a: (Seq<char>, Seq<char>), b: (Seq<char>, Seq<char>)| precedes(a.0, b.0)
}

/// The models of pairs of texts.
pub open spec fn pairs_view(v: Seq<(String, String)>) -> Seq<(Seq<char>, Seq<char>)> {
    v.map_values(|p: (String, String)| (p.0@, p.1@))
}

/// Sorts pairs by their first halves.
pub fn sort_pairs(v: &Vec<(String, String)>) -> (r: Vec<(String, String)>)
    ensures
        pairs_view(r@) == sorted(pairs_view(v@), pair_order()),
{
    let ghost lt = pair_order();
    let ghost all = pairs_view(v@);
    let mut out: Vec<(String, String)> = Vec::new();
    let mut k: usize = 0;
    assert(pairs_view(out@) =~= Seq::empty());
    while k < v.len()
        invariant
            k <= v@.len(),
            all == pairs_view(v@),
            lt == pair_order(),
            pairs_view(out@) == sorted(all.take(k as int), lt),
        decreases v@.len() - k,
    {
        assert(all.take(k + 1).drop_last() =~= all.take(k as int));
        let ghost s = pairs_view(out@);
        let ghost x = all[k as int];
        let mut i: usize = out.len();
        while i > 0 && before(v[k].0.as_str(), out[i - 1].0.as_str())
            invariant
                k < v@.len(),
                i <= out@.len(),
                s == pairs_view(out@),
                x == (v@[k as int].0@, v@[k as int].1@),
                lt == pair_order(),
                forall|j: int| i <= j < s.len() ==> lt(x, #[trigger] s[j]),
            ensures
                i <= out@.len(),
                s == pairs_view(out@),
                forall|j: int| i <= j < s.len() ==> lt(x, #[trigger] s[j]),
                i > 0 ==> !lt(x, s[i - 1]),
            decreases i,
        {
            i -= 1;
        }
        proof {
            lemma_placed_at(s, x, lt, i as int);
        }
        out.insert(i, (v[k].0.clone(), v[k].1.clone()));
        assert(pairs_view(out@) =~= s.insert(i as int, x));
        k += 1;
    }
    assert(all.take(k as int) =~= all);
    out
}

/// Records by the text in a field, the greatest first.
pub open spec fn newest_order(k: Seq<char>) -> spec_fn(JsonView, JsonView) -> bool {
    |a: JsonView, b: JsonView| precedes(b.str_at(k), a.str_at(k))
}

/// Sorts records by the text in a field, the greatest first.
pub fn sort_newest(v: &Vec<Json>, key: &str) -> (r: Vec<Json>)
    ensures
        list_view(r@) == sorted(list_view(v@), newest_order(key@)),
{
    let ghost lt = newest_order(key@);
    let ghost all = list_view(v@);
    let mut out: Vec<Json> = Vec::new();
    let mut k: usize = 0;
    assert(list_view(out@) =~= Seq::empty());
    while k < v.len()
        invariant
            k <= v@.len(),
            all == list_view(v@),
            lt == newest_order(key@),
            list_view(out@) == sorted(all.take(k as int), lt),
        decreases v@.len() - k,
    {
        assert(all.take(k + 1).drop_last() =~= all.take(k as int));
        let ghost s = list_view(out@);
        let ghost x = all[k as int];
        let mine = v[k].str_at(key);
        let mut i: usize = out.len();
        while i > 0 && before(out[i - 1].str_at(key).as_str(), mine.as_str())
            invariant
                k < v@.len(),
                i <= out@.len(),
                s == list_view(out@),
                x == v@[k as int]@,
                mine@ == x.str_at(key@),
                lt == newest_order(key@),
                forall|j: int| i <= j < s.len() ==> lt(x, #[trigger] s[j]),
            ensures
                i <= out@.len(),
                s == list_view(out@),
                forall|j: int| i <= j < s.len() ==> lt(x, #[trigger] s[j]),
                i > 0 ==> !lt(x, s[i - 1]),
            decreases i,
        {
            i -= 1;
        }
        proof {
            lemma_placed_at(s, x, lt, i as int);
        }
        out.insert(i, v[k].copy());
        assert(list_view(out@) =~= s.insert(i as int, x));
        k += 1;
    }
    assert(all.take(k as int) =~= all);
    out
}

/// Records in the text order of the field `k`, from the last to the first where `down`.
pub open spec fn field_order(k: Seq<char>, down: bool) -> spec_fn(JsonView, JsonView) -> bool {
    |a: JsonView, b: JsonView|
        if down {
            precedes(field_trim(b, k), field_trim(a, k))
        } else {
            precedes(field_trim(a, k), field_trim(b, k))
        }
}

/// Sorts records by the text in a field.
pub fn sort_records(v: &Vec<Json>, key: &str, down: bool) -> (r: Vec<Json>)
    ensures
        list_view(r@) == sorted(list_view(v@), field_order(key@, down)),
{
    let ghost lt = field_order(key@, down);
    let ghost all = list_view(v@);
    let mut out: Vec<Json> = Vec::new();
    let mut k: usize = 0;
    assert(list_view(out@) =~= Seq::empty());
    while k < v.len()
        invariant
            k <= v@.len(),
            all == list_view(v@),
            lt == field_order(key@, down),
            list_view(out@) == sorted(all.take(k as int), lt),
        decreases v@.len() - k,
    {
        assert(all.take(k + 1).drop_last() =~= all.take(k as int));
        let ghost s = list_view(out@);
        let ghost x = all[k as int];
        let mine = trim_at(&v[k], key);
        let mut i: usize = out.len();
        while i > 0 && is_before(mine.as_str(), trim_at(&out[i - 1], key).as_str(), down)
            invariant
                k < v@.len(),
                i <= out@.len(),
                s == list_view(out@),
                x == v@[k as int]@,
                mine@ == field_trim(x, key@),
                lt == field_order(key@, down),
                forall|j: int| i <= j < s.len() ==> lt(x, #[trigger] s[j]),
            ensures
                i <= out@.len(),
                s == list_view(out@),
                forall|j: int| i <= j < s.len() ==> lt(x, #[trigger] s[j]),
                i > 0 ==> !lt(x, s[i - 1]),
            decreases i,
        {
            i -= 1;
        }
        proof {
            lemma_placed_at(s, x, lt, i as int);
        }
        out.insert(i, v[k].copy());
        assert(list_view(out@) =~= s.insert(i as int, x));
        k += 1;
    }
    assert(all.take(k as int) =~= all);
    out
}

fn is_before(a: &str, b: &str, down: bool) -> (r: bool)
    ensures
        r == (if down {
            precedes(b@, a@)
        } else {
            precedes(a@, b@)
        }),
{
    if down {
        before(b, a)
    } else {
        before(a, b)
    }
}

} // verus!
