//! What filtering, mapping and sorting a list keeps.
use vstd::prelude::*;

use crate::sorting::{law_sorted_same_items, sorted};

verus! {

/// What an item of a list is mapped to is among what the list is mapped to.
pub proof fn lemma_mapped_has<A, B>(s: Seq<A>, f: spec_fn(A) -> Option<B>, i: int)
    requires
        0 <= i < s.len(),
        f(s[i]) is Some,
    ensures
        s.filter_map(f).contains(f(s[i])->0),
    decreases s.len(),
{
    let init = s.drop_last();
    let m = init.filter_map(f);
    let all = s.filter_map(f);
    if i < init.len() {
        lemma_mapped_has(init, f, i);
        assert(init[i] == s[i]);
        let j = m.index_of(f(s[i])->0);
        assert(all[j] == m[j]);
    } else {
        assert(s.last() == s[i]);
        assert(all[m.len() as int] == f(s[i])->0);
    }
}

/// What a list is mapped to comes of its items.
pub proof fn lemma_mapped_from<A, B>(s: Seq<A>, f: spec_fn(A) -> Option<B>, y: B)
    requires
        s.filter_map(f).contains(y),
    ensures
        exists|i: int| 0 <= i < s.len() && f(#[trigger] s[i]) == Some(y),
    decreases s.len(),
{
    if s.len() > 0 {
        let init = s.drop_last();
        let m = init.filter_map(f);
        let all = s.filter_map(f);
        let k = all.index_of(y);
        if k < m.len() {
            assert(m[k] == all[k]);
            lemma_mapped_from(init, f, y);
            let i = choose|i: int| 0 <= i < init.len() && f(#[trigger] init[i]) == Some(y);
            assert(s[i] == init[i]);
        } else {
            assert(f(s.last()) == Some(y));
            assert(s[s.len() - 1] == s.last());
        }
    }
}

/// A filtered list holds exactly the items that pass.
pub proof fn lemma_filtered_has<A>(s: Seq<A>, p: spec_fn(A) -> bool, x: A)
    ensures
        s.filter(p).contains(x) <==> s.contains(x) && p(x),
    decreases s.len(),
{
    reveal(Seq::filter);
    if s.len() > 0 {
        let init = s.drop_last();
        let f = init.filter(p);
        let all = s.filter(p);
        lemma_filtered_has(init, p, x);
        if all.contains(x) {
            let k = all.index_of(x);
            if k < f.len() {
                assert(f[k] == all[k]);
                let i = init.index_of(x);
                assert(s[i] == x);
            } else {
                assert(s[s.len() - 1] == x);
            }
        }
        if s.contains(x) && p(x) {
            let i = s.index_of(x);
            if i < init.len() {
                assert(init[i] == x);
                let k = f.index_of(x);
                assert(all[k] == f[k]);
            } else {
                assert(all[f.len() as int] == x);
            }
        }
    }
}

/// A sorted list holds what the list held.
pub proof fn lemma_sorted_has<A>(s: Seq<A>, lt: spec_fn(A, A) -> bool, x: A)
    ensures
        sorted(s, lt).contains(x) <==> s.contains(x),
{
    broadcast use vstd::seq_lib::group_to_multiset_ensures;

    law_sorted_same_items(s, lt);
    assert(sorted(s, lt).to_multiset().count(x) == s.to_multiset().count(x));
}

} // verus!
