//! Lists of named values: the model of an object's fields and of a map that keeps the order
//! in which its keys came, and a map from text built on it.
use vstd::prelude::*;

use crate::text::{has_text, same, views};

verus! {

/// The value of the first entry named `k`.
pub open spec fn lookup<V>(o: Seq<(Seq<char>, V)>, k: Seq<char>) -> Option<V>
    decreases o.len(),
{
    if o.len() == 0 {
        None
    } else if o[0].0 == k {
        Some(o[0].1)
    } else {
        lookup(o.drop_first(), k)
    }
}

/// `o` with the entry `k` set to `v`: in its place where it is there, at the end where not.
pub open spec fn put_entry<V>(o: Seq<(Seq<char>, V)>, k: Seq<char>, v: V) -> Seq<(Seq<char>, V)>
    decreases o.len(),
{
    if o.len() == 0 {
        seq![(k, v)]
    } else if o[0].0 == k {
        o.update(0, (k, v))
    } else {
        seq![o[0]] + put_entry(o.drop_first(), k, v)
    }
}

/// The entries that are not named `k`.
pub open spec fn named_otherwise<V>(k: Seq<char>) -> spec_fn((Seq<char>, V)) -> bool {
    |f: (Seq<char>, V)| f.0 != k
}

/// `o` without its entries named `k`.
pub open spec fn drop_entry<V>(o: Seq<(Seq<char>, V)>, k: Seq<char>) -> Seq<(Seq<char>, V)> {
    o.filter(named_otherwise(k))
}

/// `o` with every entry of `p` set, from first to last.
pub open spec fn put_all<V>(o: Seq<(Seq<char>, V)>, p: Seq<(Seq<char>, V)>) -> Seq<(Seq<char>, V)>
    decreases p.len(),
{
    if p.len() == 0 {
        o
    } else {
        put_entry(put_all(o, p.drop_last()), p.last().0, p.last().1)
    }
}

/// The place of the first entry named `k`, or the number of entries.
pub open spec fn place<V>(o: Seq<(Seq<char>, V)>, k: Seq<char>) -> int
    decreases o.len(),
{
    if o.len() == 0 || o[0].0 == k {
        0
    } else {
        1 + place(o.drop_first(), k)
    }
}

/// Whether at most one entry is named `k`.
pub open spec fn stands_once<V>(o: Seq<(Seq<char>, V)>, k: Seq<char>) -> bool {
    forall|i: int, j: int|
        0 <= i < j < o.len() ==> !((#[trigger] o[i]).0 == k && (#[trigger] o[j]).0 == k)
}

/// `o` with the entry `k` pulled out: the last entry takes its place. Where one of these two names
/// stands twice, what is named `k` is taken out and the others stay in order.
pub open spec fn pulled<V>(o: Seq<(Seq<char>, V)>, k: Seq<char>) -> Seq<(Seq<char>, V)> {
    if lookup(o, k) is Some && stands_once(o, k) && stands_once(o, o.last().0) {
        o.update(place(o, k), o.last()).drop_last()
    } else {
        drop_entry(o, k)
    }
}

/// The names of entries, in order.
pub open spec fn names_of<V>(o: Seq<(Seq<char>, V)>) -> Seq<Seq<char>> {
    o.map_values(|e: (Seq<char>, V)| e.0)
}

/// Whether no name stands twice.
pub open spec fn distinct_names<V>(o: Seq<(Seq<char>, V)>) -> bool {
    forall|i: int, j: int| 0 <= i < j < o.len() ==> (#[trigger] o[i]).0 != (#[trigger] o[j]).0
}

pub proof fn lemma_lookup_put<V>(o: Seq<(Seq<char>, V)>, k: Seq<char>, v: V, q: Seq<char>)
    ensures
        lookup(put_entry(o, k, v), q) == (if q == k {
            Some(v)
        } else {
            lookup(o, q)
        }),
    decreases o.len(),
{
    reveal_with_fuel(lookup, 2);
    let p = put_entry(o, k, v);
    if o.len() == 0 {
        assert(p.drop_first() =~= Seq::empty());
    } else if o[0].0 == k {
        assert(p.drop_first() =~= o.drop_first());
    } else {
        lemma_lookup_put(o.drop_first(), k, v, q);
        assert(p.drop_first() =~= put_entry(o.drop_first(), k, v));
    }
}

/// Taking an entry out, seen from the front.
pub proof fn lemma_drop_front<V>(o: Seq<(Seq<char>, V)>, k: Seq<char>)
    requires
        o.len() > 0,
    ensures
        drop_entry(o, k) == (if o[0].0 == k {
            drop_entry(o.drop_first(), k)
        } else {
            seq![o[0]] + drop_entry(o.drop_first(), k)
        }),
{
    let keep = named_otherwise::<V>(k);
    reveal(Seq::filter);
    let rest = o.drop_first();
    assert(o =~= seq![o[0]] + rest);
    Seq::filter_distributes_over_add(seq![o[0]], rest, keep);
    let head = seq![o[0]].filter(keep);
    assert(seq![o[0]].drop_last() =~= Seq::empty());
    assert(Seq::<(Seq<char>, V)>::empty().filter(keep) =~= Seq::empty());
    if keep(o[0]) {
        assert(head =~= seq![o[0]]);
    } else {
        assert(head =~= Seq::empty());
        assert(drop_entry(o, k) =~= drop_entry(rest, k));
    }
}

pub proof fn lemma_lookup_drop<V>(o: Seq<(Seq<char>, V)>, k: Seq<char>, q: Seq<char>)
    ensures
        lookup(drop_entry(o, k), q) == (if q == k {
            None
        } else {
            lookup(o, q)
        }),
    decreases o.len(),
{
    if o.len() == 0 {
        assert(drop_entry(o, k) =~= o) by {
            reveal(Seq::filter);
        }
    } else {
        let rest = o.drop_first();
        lemma_lookup_drop(rest, k, q);
        lemma_drop_front(o, k);
        if o[0].0 != k {
            assert(drop_entry(o, k).drop_first() =~= drop_entry(rest, k));
        }
    }
}

/// An entry that is found stands somewhere; a name that is not found stands nowhere.
pub proof fn lemma_lookup_found<V>(o: Seq<(Seq<char>, V)>, k: Seq<char>)
    ensures
        match lookup(o, k) {
            Some(v) => exists|i: int|
                0 <= i < o.len() && #[trigger] o[i] == (k, v) && forall|j: int|
                    0 <= j < i ==> (#[trigger] o[j]).0 != k,
            None => forall|i: int| 0 <= i < o.len() ==> (#[trigger] o[i]).0 != k,
        },
    decreases o.len(),
{
    if o.len() > 0 && o[0].0 != k {
        let rest = o.drop_first();
        lemma_lookup_found(rest, k);
        match lookup(o, k) {
            Some(v) => {
                let i = choose|i: int|
                    0 <= i < rest.len() && #[trigger] rest[i] == (k, v) && forall|j: int|
                        0 <= j < i ==> (#[trigger] rest[j]).0 != k;
                assert(o[i + 1] == (k, v));
                assert forall|j: int| 0 <= j < i + 1 implies (#[trigger] o[j]).0 != k by {
                    if j > 0 {
                        assert(rest[j - 1] == o[j]);
                    }
                }
            },
            None => {
                assert forall|i: int| 0 <= i < o.len() implies (#[trigger] o[i]).0 != k by {
                    if i > 0 {
                        assert(rest[i - 1] == o[i]);
                    }
                }
            },
        }
    } else if o.len() > 0 {
        assert(o[0] == (k, o[0].1));
    }
}

/// Where an entry is set: at the first position that holds the name, or at the end.
pub proof fn lemma_put_at<V>(o: Seq<(Seq<char>, V)>, k: Seq<char>, v: V, i: int)
    requires
        0 <= i <= o.len(),
        forall|j: int| 0 <= j < i ==> (#[trigger] o[j]).0 != k,
        i < o.len() ==> o[i].0 == k,
    ensures
        put_entry(o, k, v) == (if i < o.len() {
            o.update(i, (k, v))
        } else {
            o.push((k, v))
        }),
    decreases o.len(),
{
    if o.len() == 0 {
        assert(put_entry(o, k, v) =~= o.push((k, v)));
    } else if i > 0 {
        let rest = o.drop_first();
        assert forall|j: int| 0 <= j < i - 1 implies (#[trigger] rest[j]).0 != k by {
            assert(rest[j] == o[j + 1]);
        }
        lemma_put_at(rest, k, v, i - 1);
        if i < o.len() {
            assert(put_entry(o, k, v) =~= o.update(i, (k, v)));
        } else {
            assert(put_entry(o, k, v) =~= o.push((k, v)));
        }
    }
}

/// Setting an entry keeps names distinct, and every entry of the result is the new one or
/// an old one under another name.
pub proof fn lemma_put_shape<V>(o: Seq<(Seq<char>, V)>, k: Seq<char>, v: V)
    ensures
        distinct_names(o) ==> distinct_names(put_entry(o, k, v)),
        distinct_names(o) ==> forall|i: int|
            0 <= i < put_entry(o, k, v).len() ==> (#[trigger] put_entry(o, k, v)[i]) == (k, v) || (
            put_entry(o, k, v)[i].0 != k && o.contains(put_entry(o, k, v)[i])),
        put_entry(o, k, v).len() == (if lookup(o, k) is Some {
            o.len()
        } else {
            o.len() + 1
        }),
{
    lemma_lookup_found(o, k);
    let at = match lookup(o, k) {
        Some(w) => choose|i: int|
            0 <= i < o.len() && #[trigger] o[i] == (k, w) && forall|j: int|
                0 <= j < i ==> (#[trigger] o[j]).0 != k,
        None => o.len() as int,
    };
    lemma_put_at(o, k, v, at);
    let p = put_entry(o, k, v);
    if distinct_names(o) {
        assert forall|i: int| 0 <= i < p.len() implies (#[trigger] p[i]) == (k, v) || (p[i].0 != k
            && o.contains(p[i])) by {
            if i != at {
                assert(p[i] == o[i]);
                if at < o.len() {
                    if i < at {
                        assert(o[i].0 != o[at].0);
                    } else {
                        assert(o[at].0 != o[i].0);
                    }
                }
            }
        }
        assert forall|i: int, j: int| 0 <= i < j < p.len() implies (#[trigger] p[i]).0 != (
        #[trigger] p[j]).0 by {
            if at < o.len() {
                assert(p[i].0 == o[i].0 && p[j].0 == o[j].0);
                assert(o[i].0 != o[j].0);
            } else if j < o.len() {
                assert(o[i].0 != o[j].0);
            } else {
                assert(o[i].0 != k);
            }
        }
    }
}

/// Taking an entry out keeps names distinct and keeps exactly the other entries.
pub proof fn lemma_drop_shape<V>(o: Seq<(Seq<char>, V)>, k: Seq<char>)
    ensures
        distinct_names(o) ==> distinct_names(drop_entry(o, k)),
        forall|i: int|
            0 <= i < drop_entry(o, k).len() ==> (#[trigger] drop_entry(o, k)[i]).0 != k
                && o.contains(drop_entry(o, k)[i]),
        lookup(o, k) is None ==> drop_entry(o, k) == o,
    decreases o.len(),
{
    let p = drop_entry(o, k);
    if o.len() == 0 {
        assert(p =~= o) by {
            reveal(Seq::filter);
        }
    } else {
        let rest = o.drop_first();
        let q = drop_entry(rest, k);
        lemma_drop_shape(rest, k);
        lemma_drop_front(o, k);
        assert forall|x: (Seq<char>, V)| rest.contains(x) implies o.contains(x) by {
            let i = choose|i: int| 0 <= i < rest.len() && rest[i] == x;
            assert(o[i + 1] == x);
        }
        assert forall|i: int| 0 <= i < p.len() implies (#[trigger] p[i]).0 != k && o.contains(
            p[i],
        ) by {
            if o[0].0 == k {
                assert(p[i] == q[i]);
            } else if i > 0 {
                assert(p[i] == q[i - 1]);
            } else {
                assert(o[0] == p[0]);
            }
        }
        if lookup(o, k) is None {
            assert(p =~= o);
        }
        if distinct_names(o) {
            assert forall|i: int, j: int| 0 <= i < j < rest.len() implies (#[trigger] rest[i]).0
                != (#[trigger] rest[j]).0 by {
                assert(o[i + 1].0 != o[j + 1].0);
            }
            assert forall|i: int, j: int| 0 <= i < j < p.len() implies (#[trigger] p[i]).0 != (
            #[trigger] p[j]).0 by {
                if o[0].0 == k {
                    assert(q[i].0 != q[j].0);
                } else if i > 0 {
                    assert(q[i - 1].0 != q[j - 1].0);
                } else {
                    assert(p[j] == q[j - 1]);
                    let m = choose|m: int| 0 <= m < rest.len() && rest[m] == p[j];
                    assert(o[0].0 != o[m + 1].0);
                }
            }
        }
    }
}

/// The first entry named `k` stands in its place.
pub proof fn lemma_place<V>(o: Seq<(Seq<char>, V)>, k: Seq<char>)
    ensures
        0 <= place(o, k) <= o.len(),
        forall|j: int| 0 <= j < place(o, k) ==> (#[trigger] o[j]).0 != k,
        place(o, k) < o.len() ==> o[place(o, k)].0 == k,
        place(o, k) < o.len() ==> lookup(o, k) == Some(o[place(o, k)].1),
        place(o, k) == o.len() ==> lookup(o, k) is None,
    decreases o.len(),
{
    if o.len() > 0 && o[0].0 != k {
        let rest = o.drop_first();
        lemma_place(rest, k);
        assert forall|j: int| 0 <= j < place(o, k) implies (#[trigger] o[j]).0 != k by {
            if j > 0 {
                assert(rest[j - 1] == o[j]);
            }
        }
        if place(o, k) < o.len() {
            assert(rest[place(o, k) - 1] == o[place(o, k)]);
        }
    }
}

/// What a name reads as after an entry was pulled out, which of the entries are left, and that
/// without such an entry nothing changes.
pub proof fn lemma_pulled<V>(o: Seq<(Seq<char>, V)>, k: Seq<char>)
    ensures
        forall|q: Seq<char>| #[trigger]
            lookup(pulled(o, k), q) == (if q == k {
                None
            } else {
                lookup(o, q)
            }),
        forall|i: int|
            0 <= i < pulled(o, k).len() ==> o.contains(#[trigger] pulled(o, k)[i]),
        lookup(o, k) is None ==> pulled(o, k) == o,
{
    let r = pulled(o, k);
    lemma_drop_shape(o, k);
    if lookup(o, k) is Some && stands_once(o, k) && stands_once(o, o.last().0) {
        let i = place(o, k);
        lemma_place(o, k);
        let n = o.len() - 1;
        assert forall|j: int| 0 <= j < r.len() implies o.contains(#[trigger] r[j]) by {
            if j == i {
                assert(o[n] == r[j]);
            } else {
                assert(o[j] == r[j]);
            }
        }
        assert forall|q: Seq<char>| #[trigger] lookup(r, q) == (if q == k {
            None
        } else {
            lookup(o, q)
        }) by {
            let a = place(o, q);
            let b = place(r, q);
            lemma_place(o, q);
            lemma_place(r, q);
            if b < r.len() {
                if b == i {
                    assert(r[b] == o[n]);
                    assert(o[n].0 == q);
                } else {
                    assert(r[b] == o[b]);
                }
            }
            if q == k {
                if b < r.len() {
                    if b == i {
                        assert(o[i].0 == k && o[n].0 == k);
                    } else if b < i {
                        assert(o[b].0 == k && o[i].0 == k);
                    } else {
                        assert(o[i].0 == k && o[b].0 == k);
                    }
                }
            } else if a < o.len() {
                if a < n {
                    assert(r[a] == o[a]);
                    assert(b <= a);
                    if b == i {
                        assert(o[a].0 == o[n].0);
                    }
                } else {
                    assert(i < n);
                    assert(r[i] == o[n]);
                    assert(b <= i);
                    if b < i {
                        assert(o[b].0 == q);
                    }
                }
            }
        }
    } else {
        assert forall|q: Seq<char>| #[trigger] lookup(r, q) == (if q == k {
            None
        } else {
            lookup(o, q)
        }) by {
            lemma_lookup_drop(o, k, q);
        }
    }
}

/// Setting an entry to the value that it has changes nothing.
pub proof fn lemma_put_same<V>(o: Seq<(Seq<char>, V)>, k: Seq<char>, v: V)
    requires
        lookup(o, k) == Some(v),
    ensures
        put_entry(o, k, v) == o,
{
    lemma_lookup_found(o, k);
    let at = choose|i: int|
        0 <= i < o.len() && #[trigger] o[i] == (k, v) && forall|j: int|
            0 <= j < i ==> (#[trigger] o[j]).0 != k;
    lemma_put_at(o, k, v, at);
    assert(o.update(at, (k, v)) =~= o);
}

/// What a name reads as after a list of entries was set.
pub proof fn lemma_lookup_put_all<V>(o: Seq<(Seq<char>, V)>, p: Seq<(Seq<char>, V)>, q: Seq<char>)
    requires
        distinct_names(p),
    ensures
        lookup(put_all(o, p), q) == (match lookup(p, q) {
            Some(v) => Some(v),
            None => lookup(o, q),
        }),
    decreases p.len(),
{
    if p.len() > 0 {
        let init = p.drop_last();
        lemma_lookup_put_all(o, init, q);
        lemma_lookup_put(put_all(o, init), p.last().0, p.last().1, q);
        lemma_lookup_found(p, q);
        lemma_lookup_found(init, q);
        assert(p[p.len() - 1] == p.last());
        match lookup(init, q) {
            Some(v) => {
                let i = choose|i: int| 0 <= i < init.len() && #[trigger] init[i] == (q, v);
                assert(p[i] == (q, v));
                assert(lookup(p, q) is Some);
                let w = lookup(p, q)->0;
                let j = choose|j: int| 0 <= j < p.len() && #[trigger] p[j] == (q, w);
                assert(i == j);
            },
            None => {
                if p.last().0 == q {
                    assert(lookup(p, q) is Some);
                    let w = lookup(p, q)->0;
                    let j = choose|j: int| 0 <= j < p.len() && #[trigger] p[j] == (q, w);
                    if j < init.len() {
                        assert(init[j] == p[j]);
                    }
                } else if lookup(p, q) is Some {
                    let w = lookup(p, q)->0;
                    let j = choose|j: int| 0 <= j < p.len() && #[trigger] p[j] == (q, w);
                    assert(init[j] == p[j]);
                }
            },
        }
    }
}

/// Taking one entry out leaves the other names as they read.
pub proof fn lemma_lookup_remove<V>(o: Seq<(Seq<char>, V)>, i: int, q: Seq<char>)
    requires
        0 <= i < o.len(),
        q != o[i].0,
    ensures
        lookup(o.remove(i), q) == lookup(o, q),
    decreases o.len(),
{
    if i == 0 {
        assert(o.remove(0) =~= o.drop_first());
    } else {
        lemma_lookup_remove(o.drop_first(), i - 1, q);
        assert(o.remove(i).drop_first() =~= o.drop_first().remove(i - 1));
    }
}

// ---------------------------------------------------------------------------
// a map from text
// ---------------------------------------------------------------------------

/// A map whose keys are texts.
pub struct TextMap<V> {
    entries: Vec<(String, V)>,
}

/// The named values of a list of entries.
pub open spec fn named<V: View>(e: Seq<(String, V)>) -> Seq<(Seq<char>, V::V)> {
    e.map_values(|f: (String, V)| (f.0@, f.1@))
}

impl<V: View> View for TextMap<V> {
    type V = Map<Seq<char>, V::V>;

    closed spec fn view(&self) -> Map<Seq<char>, V::V> {
        Map::new(
            |k: Seq<char>| lookup(named(self.entries@), k) is Some,
            |k: Seq<char>| lookup(named(self.entries@), k)->0,
        )
    }
}

impl<V: View> TextMap<V> {
    /// A map holds finitely many keys.
    pub proof fn lemma_finite(&self)
        ensures
            self@.dom().finite(),
    {
        let o = named(self.entries@);
        let names = o.map_values(|f: (Seq<char>, V::V)| f.0);
        vstd::seq_lib::seq_to_set_is_finite(names);
        assert forall|k: Seq<char>| self@.dom().contains(k) implies names.to_set().contains(k) by {
            lemma_lookup_found(o, k);
            let i = choose|i: int| 0 <= i < o.len() && #[trigger] o[i] == (k, lookup(o, k)->0);
            assert(names[i] == k);
        }
        vstd::set_lib::lemma_len_subset(self@.dom(), names.to_set());
    }

    /// The map without entries.
    pub fn new() -> (r: Self)
        ensures
            r@ == Map::<Seq<char>, V::V>::empty(),
    {
        let r = TextMap { entries: Vec::new() };
        assert(named(r.entries@) =~= Seq::empty());
        assert(r@ =~= Map::<Seq<char>, V::V>::empty());
        r
    }

    fn position(&self, k: &str) -> (r: usize)
        ensures
            r <= self.entries@.len(),
            forall|j: int| 0 <= j < r ==> (#[trigger] named(self.entries@)[j]).0 != k@,
            r < self.entries@.len() ==> named(self.entries@)[r as int].0 == k@,
            r < self.entries@.len() <==> self@.dom().contains(k@),
            r < self.entries@.len() ==> self@[k@] == self.entries@[r as int].1@,
    {
        let mut i: usize = 0;
        let ghost o = named(self.entries@);
        while i < self.entries.len() && !same(self.entries[i].0.as_str(), k)
            invariant
                i <= self.entries@.len(),
                o == named(self.entries@),
                forall|j: int| 0 <= j < i ==> (#[trigger] o[j]).0 != k@,
            ensures
                i <= self.entries@.len(),
                o == named(self.entries@),
                forall|j: int| 0 <= j < i ==> (#[trigger] o[j]).0 != k@,
                i < self.entries@.len() ==> o[i as int].0 == k@,
            decreases self.entries@.len() - i,
        {
            i += 1;
        }
        proof {
            lemma_lookup_found(o, k@);
            if lookup(o, k@) is Some {
                let v = lookup(o, k@)->0;
                let at = choose|m: int|
                    0 <= m < o.len() && #[trigger] o[m] == (k@, v) && forall|j: int|
                        0 <= j < m ==> (#[trigger] o[j]).0 != k@;
                if at < i {
                    assert(o[at].0 != k@);
                }
                if i < at {
                    assert(o[i as int].0 == k@);
                }
            } else if i < o.len() {
                assert(o[i as int].0 != k@);
            }
        }
        i
    }

    /// The value under `k`.
    pub fn get(&self, k: &str) -> (r: Option<&V>)
        ensures
            match r {
                Some(v) => self@.dom().contains(k@) && self@[k@] == v@,
                None => !self@.dom().contains(k@),
            },
    {
        let i = self.position(k);
        if i < self.entries.len() {
            Some(&self.entries[i].1)
        } else {
            None
        }
    }

    /// Puts `v` under `k`.
    pub fn set(&mut self, k: &str, v: V)
        ensures
            final(self)@ == old(self)@.insert(k@, v@),
    {
        let i = self.position(k);
        let ghost o = named(self.entries@);
        let ghost start = self@;
        let ghost x = v@;
        proof {
            lemma_put_at(o, k@, x, i as int);
        }
        if i < self.entries.len() {
            self.entries[i] = (k.to_owned(), v);
            assert(named(self.entries@) =~= o.update(i as int, (k@, x)));
        } else {
            self.entries.push((k.to_owned(), v));
            assert(named(self.entries@) =~= o.push((k@, x)));
        }
        assert(self@ =~= start.insert(k@, x)) by {
            assert forall|q: Seq<char>| #[trigger] lookup(put_entry(o, k@, x), q) == (if q == k@ {
                Some(x)
            } else {
                lookup(o, q)
            }) by {
                lemma_lookup_put(o, k@, x, q);
            }
        }
    }

    /// Takes out what stands under `k`.
    pub fn remove(&mut self, k: &str)
        ensures
            final(self)@ == old(self)@.remove(k@),
    {
        let ghost start = self@;
        loop
            invariant_except_break
                forall|q: Seq<char>|
                    q != k@ ==> (#[trigger] self@.dom().contains(q) <==> start.dom().contains(q))
                        && (start.dom().contains(q) ==> self@[q] == start[q]),
            ensures
                self@ == start.remove(k@),
            decreases self.entries@.len(),
        {
            let i = self.position(k);
            if i >= self.entries.len() {
                assert(self@ =~= start.remove(k@));
                break;
            }
            let ghost o = named(self.entries@);
            let ghost was = self@;
            self.entries.remove(i);
            assert(named(self.entries@) =~= o.remove(i as int));
            assert forall|q: Seq<char>| q != k@ implies (#[trigger] self@.dom().contains(q)
                <==> start.dom().contains(q)) && (start.dom().contains(q) ==> self@[q]
                == start[q]) by {
                lemma_lookup_remove(o, i as int, q);
                assert(was.dom().contains(q) <==> lookup(o, q) is Some);
            }
        }
    }
}

/// Whether neither a name nor the text under it is among `gone`.
pub open spec fn clear_of(m: Map<Seq<char>, Seq<char>>, gone: Seq<Seq<char>>, k: Seq<char>) -> bool {
    m.dom().contains(k) && !gone.contains(k) && !gone.contains(m[k])
}

/// `m` without the entries whose name or text is among `gone`.
pub open spec fn retained(m: Map<Seq<char>, Seq<char>>, gone: Seq<Seq<char>>) -> Map<
    Seq<char>,
    Seq<char>,
> {
    Map::new(|k: Seq<char>| clear_of(m, gone, k), |k: Seq<char>| m[k])
}

impl TextMap<String> {
    /// Takes out the entries whose key or text is among `gone`.
    pub fn retain_clear_of(&mut self, gone: &Vec<String>)
        ensures
            final(self)@ == retained(old(self)@, views(gone@)),
    {
        let ghost o = named(self.entries@);
        let ghost start = self@;
        let ghost g = views(gone@);
        let mut out: TextMap<String> = TextMap::new();
        let mut i: usize = self.entries.len();
        while i > 0
            invariant
                i <= self.entries@.len(),
                o == named(self.entries@),
                g == views(gone@),
                forall|q: Seq<char>|
                    #![trigger out@.dom().contains(q)]
                    match lookup(o.skip(i as int), q) {
                        Some(v) => {
                            &&& out@.dom().contains(q) <==> !g.contains(q) && !g.contains(v)
                            &&& out@.dom().contains(q) ==> out@[q] == v
                        },
                        None => !out@.dom().contains(q),
                    },
            decreases i,
        {
            i -= 1;
            assert(o.skip(i as int).drop_first() =~= o.skip(i + 1));
            assert(o.skip(i as int)[0] == o[i as int]);
            let ghost was = out@;
            assert forall|q: Seq<char>| #[trigger] was.dom().contains(q) == out@.dom().contains(
                q,
            ) by {}
            let k = self.entries[i].0.as_str();
            let v = self.entries[i].1.as_str();
            if has_text(gone, k) || has_text(gone, v) {
                out.remove(k);
            } else {
                out.set(k, v.to_owned());
            }
            assert forall|q: Seq<char>|
                #![trigger out@.dom().contains(q)]
                match lookup(o.skip(i as int), q) {
                    Some(v) => {
                        &&& out@.dom().contains(q) <==> !g.contains(q) && !g.contains(v)
                        &&& out@.dom().contains(q) ==> out@[q] == v
                    },
                    None => !out@.dom().contains(q),
                } by {
                assert(was.dom().contains(q) || !was.dom().contains(q));
            }
        }
        assert(o.skip(0) =~= o);
        *self = out;
        assert(self@ =~= retained(start, g)) by {
            assert forall|q: Seq<char>| self@.dom().contains(q) == clear_of(start, g, q) by {}
        }
    }
}

} // verus!
