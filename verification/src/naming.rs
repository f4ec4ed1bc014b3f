//! Names that are made free by a number.
use vstd::prelude::*;

use crate::text::{
    all_digits, cat, cat3, decimal, decimal_text, digit_char, digits_value, has_text, views,
};

verus! {

/// `base` with a number behind it, and `tail` behind that.
pub open spec fn numbered(base: Seq<char>, sep: Seq<char>, k: nat, tail: Seq<char>) -> Seq<char> {
    base + sep + decimal(k) + tail
}

/// Whether `k` is the least number from two on that makes `base` free.
pub open spec fn frees(
    taken: Seq<Seq<char>>,
    base: Seq<char>,
    sep: Seq<char>,
    k: nat,
    tail: Seq<char>,
) -> bool {
    &&& k >= 2
    &&& !taken.contains(numbered(base, sep, k, tail))
    &&& forall|j: nat| 2 <= j < k ==> #[trigger] taken.contains(numbered(base, sep, j, tail))
}

/// Whether `name` is `base` and `tail` where that is free, or else that with the least number from
/// two on between them that makes it free.
pub open spec fn is_free_name(
    taken: Seq<Seq<char>>,
    base: Seq<char>,
    sep: Seq<char>,
    tail: Seq<char>,
    name: Seq<char>,
) -> bool {
    if taken.contains(base + tail) {
        exists|k: nat| frees(taken, base, sep, k, tail) && name == #[trigger] numbered(base, sep, k, tail)
    } else {
        name == base + tail
    }
}

/// The digits of a number stand for it.
pub proof fn lemma_decimal(n: nat)
    ensures
        decimal(n).len() > 0,
        all_digits(decimal(n)),
        digits_value(decimal(n)) == n,
    decreases n,
{
    let d = (n % 10) as int;
    assert(digit_char(d) as u32 == 48 + d);
    if n < 10 {
        assert(decimal(n).drop_last() =~= Seq::empty());
        assert(digits_value(Seq::empty()) == 0);
    } else {
        lemma_decimal(n / 10);
        assert(decimal(n).drop_last() =~= decimal(n / 10));
        assert(decimal(n).last() == digit_char(d));
    }
}

/// Different numbers make different names.
pub proof fn lemma_numbered(base: Seq<char>, sep: Seq<char>, tail: Seq<char>, a: nat, b: nat)
    requires
        numbered(base, sep, a, tail) == numbered(base, sep, b, tail),
    ensures
        a == b,
{
    lemma_decimal(a);
    lemma_decimal(b);
    let n = (base + sep).len() as int;
    let m = (decimal(a).len()) as int;
    assert(numbered(base, sep, a, tail).len() == n + m + tail.len());
    assert(numbered(base, sep, a, tail).subrange(n, n + m) =~= decimal(a));
    assert(numbered(base, sep, b, tail).subrange(n, n + m) =~= decimal(b));
}

/// A free name is indeed free.
pub proof fn law_free_name_is_free(
    taken: Seq<Seq<char>>,
    base: Seq<char>,
    sep: Seq<char>,
    tail: Seq<char>,
    name: Seq<char>,
)
    requires
        is_free_name(taken, base, sep, tail, name),
    ensures
        !taken.contains(name),
{
}

/// How many of the names in `taken` are `base` with a number from `k` on.
spec fn taken_from(
    taken: Seq<Seq<char>>,
    base: Seq<char>,
    sep: Seq<char>,
    tail: Seq<char>,
    k: nat,
) -> nat
    decreases taken.len(),
{
    if taken.len() == 0 {
        0
    } else {
        taken_from(taken.drop_last(), base, sep, tail, k) + (if exists|j: nat|
            j >= k && taken.last() == #[trigger] numbered(base, sep, j, tail) {
            1nat
        } else {
            0
        })
    }
}

proof fn lemma_taken_from(
    taken: Seq<Seq<char>>,
    base: Seq<char>,
    sep: Seq<char>,
    tail: Seq<char>,
    k: nat,
)
    ensures
        taken_from(taken, base, sep, tail, k + 1) <= taken_from(taken, base, sep, tail, k) <= taken.len(),
        taken.contains(numbered(base, sep, k, tail)) ==> taken_from(taken, base, sep, tail, k + 1)
            < taken_from(taken, base, sep, tail, k),
    decreases taken.len(),
{
    if taken.len() > 0 {
        let init = taken.drop_last();
        lemma_taken_from(init, base, sep, tail, k);
        let x = taken.last();
        if exists|j: nat| j >= k + 1 && x == #[trigger] numbered(base, sep, j, tail) {
            let j = choose|j: nat| j >= k + 1 && x == #[trigger] numbered(base, sep, j, tail);
            assert(j >= k && x == numbered(base, sep, j, tail));
        }
        if taken.contains(numbered(base, sep, k, tail)) {
            let i = taken.index_of(numbered(base, sep, k, tail));
            if i < init.len() {
                assert(init[i] == numbered(base, sep, k, tail));
                assert(init.contains(numbered(base, sep, k, tail)));
            } else {
                assert(x == numbered(base, sep, k, tail));
                if exists|j: nat| j >= k + 1 && x == #[trigger] numbered(base, sep, j, tail) {
                    let j = choose|j: nat| j >= k + 1 && x == #[trigger] numbered(base, sep, j, tail);
                    lemma_numbered(base, sep, tail, k, j);
                }
            }
        }
    }
}

spec fn tens(d: nat) -> nat
    decreases d,
{
    if d == 0 {
        1
    } else {
        10 * tens((d - 1) as nat)
    }
}

proof fn lemma_decimal_len(n: nat, d: nat)
    requires
        n < tens(d),
        d >= 1,
    ensures
        decimal(n).len() <= d,
    decreases d,
{
    if n >= 10 {
        assert(d >= 2) by {
            reveal_with_fuel(tens, 3);
        }
        lemma_decimal_len(n / 10, (d - 1) as nat);
    }
}

/// Finds a name that is not among `taken`; it is longer by the separator and at most twenty-one
/// digits.
pub fn free_name(taken: &Vec<String>, base: &str, sep: &str, tail: &str) -> (r: String)
    ensures
        is_free_name(views(taken@), base@, sep@, tail@, r@),
        r@.len() <= base@.len() + sep@.len() + 21 + tail@.len(),
{
    let ghost t = views(taken@);
    let plain = cat(base, tail);
    if !has_text(taken, plain.as_str()) {
        return plain;
    }
    let mut k: u128 = 2;
    proof {
        lemma_taken_from(t, base@, sep@, tail@, 2);
    }
    loop
        invariant
            t == views(taken@),
            t.contains(base@ + tail@),
            2 <= k,
            k - 2 + taken_from(t, base@, sep@, tail@, k as nat) <= taken.len(),
            forall|j: nat| 2 <= j < k ==> #[trigger] t.contains(numbered(base@, sep@, j, tail@)),
        decreases taken_from(t, base@, sep@, tail@, k as nat),
    {
        let name = cat(cat3(base, sep, decimal_text(k).as_str()).as_str(), tail);
        assert(name@ == numbered(base@, sep@, k as nat, tail@));
        if !has_text(taken, name.as_str()) {
            assert(frees(t, base@, sep@, k as nat, tail@));
            proof {
                reveal_with_fuel(tens, 22);
                lemma_decimal_len(k as nat, 21);
            }
            return name;
        }
        proof {
            lemma_taken_from(t, base@, sep@, tail@, k as nat);
        }
        k += 1;
    }
}

/// There is a free name.
pub proof fn lemma_free_name_exists(
    taken: Seq<Seq<char>>,
    base: Seq<char>,
    sep: Seq<char>,
    tail: Seq<char>,
)
    ensures
        is_free_name(taken, base, sep, tail, free_name_for(taken, base, sep, tail)),
{
    if taken.contains(base + tail) {
        lemma_number_free(taken, base, sep, tail, 2);
        let k = choose|k: nat| frees(taken, base, sep, k, tail);
        assert(is_free_name(taken, base, sep, tail, numbered(base, sep, k, tail)));
    } else {
        assert(is_free_name(taken, base, sep, tail, base + tail));
    }
}

proof fn lemma_number_free(
    taken: Seq<Seq<char>>,
    base: Seq<char>,
    sep: Seq<char>,
    tail: Seq<char>,
    k: nat,
)
    requires
        k >= 2,
        forall|j: nat| 2 <= j < k ==> #[trigger] taken.contains(numbered(base, sep, j, tail)),
    ensures
        exists|n: nat| frees(taken, base, sep, n, tail),
    decreases taken_from(taken, base, sep, tail, k),
{
    lemma_taken_from(taken, base, sep, tail, k);
    if taken.contains(numbered(base, sep, k, tail)) {
        lemma_number_free(taken, base, sep, tail, k + 1);
    } else {
        assert(frees(taken, base, sep, k, tail));
    }
}

/// The free name for `base` and `tail`.
pub open spec fn free_name_for(
    taken: Seq<Seq<char>>,
    base: Seq<char>,
    sep: Seq<char>,
    tail: Seq<char>,
) -> Seq<char> {
    choose|name: Seq<char>| is_free_name(taken, base, sep, tail, name)
}

/// There is one free name only.
pub proof fn lemma_free_name_unique(
    taken: Seq<Seq<char>>,
    base: Seq<char>,
    sep: Seq<char>,
    tail: Seq<char>,
    name: Seq<char>,
)
    requires
        is_free_name(taken, base, sep, tail, name),
    ensures
        name == free_name_for(taken, base, sep, tail),
{
    let other = free_name_for(taken, base, sep, tail);
    if taken.contains(base + tail) {
        let a = choose|k: nat|
            frees(taken, base, sep, k, tail) && name == #[trigger] numbered(base, sep, k, tail);
        let b = choose|k: nat|
            frees(taken, base, sep, k, tail) && other == #[trigger] numbered(base, sep, k, tail);
        if a < b {
            assert(taken.contains(numbered(base, sep, a, tail)));
        } else if b < a {
            assert(taken.contains(numbered(base, sep, b, tail)));
        }
    }
}

} // verus!
