//! What cutting, joining and reading text does to it.
use vstd::prelude::*;

use crate::text::{
    all_digits, ascii_lower, begins, between, cut_once, decimal, digit_char, digits_value, ends,
    first_of, int_text, is_white, joined, lemma_first_of, occurs, occurs_at, parsed_count,
    parsed_int, pieces, skip_back, skip_front, strip, trimmed, unique_filled, CharClass,
};

verus! {

// ---------------------------------------------------------------------------
// ends
// ---------------------------------------------------------------------------

proof fn lemma_front(s: Seq<char>, class: CharClass) -> (k: int)
    ensures
        0 <= k <= s.len(),
        skip_front(s, class) == s.skip(k),
        forall|i: int| 0 <= i < k ==> class.has(#[trigger] s[i]),
        k < s.len() ==> !class.has(s[k]),
    decreases s.len(),
{
    if s.len() > 0 && class.has(s[0]) {
        let rest = s.drop_first();
        let j = lemma_front(rest, class);
        assert(rest.skip(j) =~= s.skip(j + 1));
        assert forall|i: int| 0 <= i < j + 1 implies class.has(#[trigger] s[i]) by {
            if i > 0 {
                assert(rest[i - 1] == s[i]);
            }
        }
        j + 1
    } else {
        assert(s.skip(0) =~= s);
        0
    }
}

proof fn lemma_back(s: Seq<char>, class: CharClass) -> (k: int)
    ensures
        0 <= k <= s.len(),
        skip_back(s, class) == s.take(k),
        forall|i: int| k <= i < s.len() ==> class.has(#[trigger] s[i]),
        k > 0 ==> !class.has(s[k - 1]),
    decreases s.len(),
{
    if s.len() > 0 && class.has(s.last()) {
        let init = s.drop_last();
        let j = lemma_back(init, class);
        assert(init.take(j) =~= s.take(j));
        assert forall|i: int| j <= i < s.len() implies class.has(#[trigger] s[i]) by {
            if i < init.len() {
                assert(init[i] == s[i]);
            }
        }
        j
    } else {
        assert(s.take(s.len() as int) =~= s);
        s.len() as int
    }
}

/// Stripping takes away the members of a class at both ends, all of them, and nothing else.
pub proof fn law_stripped(s: Seq<char>, class: CharClass)
    ensures
        exists|a: int, b: int|
            0 <= a <= b <= s.len() && strip(s, class) == #[trigger] s.subrange(a, b) && (forall|
                i: int,
            |
                0 <= i < s.len() && !(a <= i < b) ==> class.has(#[trigger] s[i])),
        strip(s, class).len() > 0 ==> !class.has(strip(s, class)[0]) && !class.has(
            strip(s, class).last(),
        ),
        trimmed(s) == strip(s, CharClass::White),
{
    let a = lemma_front(s, class);
    let m = s.skip(a);
    let k = lemma_back(m, class);
    assert(m.take(k) =~= s.subrange(a, a + k));
    assert forall|i: int| 0 <= i < s.len() && !(a <= i < a + k) implies class.has(
        #[trigger] s[i],
    ) by {
        if i >= a + k {
            assert(m[i - a] == s[i]);
        }
    }
    assert(strip(s, class) == s.subrange(a, a + k));
}

/// Blanks, tabs and line ends are white space; letters, digits and signs are not.
pub proof fn law_white(c: char)
    ensures
        c == ' ' || c == '\t' || c == '\n' || c == '\r' || c == '\u{a0}' || c == '\u{3000}' ==> is_white(c),
        '!' <= c <= '~' ==> !is_white(c),
        CharClass::White.has(c) == is_white(c),
{
}

// ---------------------------------------------------------------------------
// searching
// ---------------------------------------------------------------------------

/// A text holds another exactly where it is made of it and something around it; it begins or ends
/// with it where there is nothing before or behind.
pub proof fn law_occurrence(a: Seq<char>, p: Seq<char>, b: Seq<char>)
    ensures
        occurs(a + p + b, p),
        begins(p + b, p),
        ends(a + p, p),
{
    assert((a + p + b).subrange(a.len() as int, (a.len() + p.len()) as int) =~= p);
    assert(occurs_at(a + p + b, p, a.len() as int));
    assert((p + b).subrange(0, p.len() as int) =~= p);
    assert((a + p).subrange(a.len() as int, (a.len() + p.len()) as int) =~= p);
}

/// What occurs in a text stands somewhere in it.
pub proof fn law_occurs_somewhere(s: Seq<char>, p: Seq<char>)
    ensures
        occurs(s, p) ==> exists|a: Seq<char>, b: Seq<char>| s == #[trigger] (a + p + b),
        begins(s, p) ==> exists|b: Seq<char>| s == #[trigger] (p + b),
        ends(s, p) ==> exists|a: Seq<char>| s == #[trigger] (a + p),
{
    if occurs(s, p) {
        let i = choose|i: int| occurs_at(s, p, i);
        assert(s =~= s.take(i) + p + s.skip(i + p.len()));
    }
    if begins(s, p) {
        assert(s =~= p + s.skip(p.len() as int));
    }
    if ends(s, p) {
        assert(s =~= s.take(s.len() - p.len()) + p);
    }
}

/// A text is cut at the first mark: what is before it has none, and the two parts with the mark
/// between them are the text.
pub proof fn law_cut_once(a: Seq<char>, c: char, b: Seq<char>)
    requires
        !a.contains(c),
    ensures
        cut_once(a + seq![c] + b, c) == Some((a, b)),
        cut_once(a, c) is None,
{
    let s = a + seq![c] + b;
    lemma_first_of(s, c);
    lemma_first_of(a, c);
    assert(s[a.len() as int] == c);
    let k = first_of(s, c);
    if k < a.len() {
        assert(a[k] == c);
    }
    assert(k == a.len());
    assert(s.take(k) =~= a);
    assert(s.skip(k + 1) =~= b);
    let h = first_of(a, c);
    if h < a.len() {
        assert(a[h] == c);
    }
}

/// A text that is split at a mark is its pieces with the mark between them, and no piece holds the
/// mark.
pub proof fn law_split_and_joined(s: Seq<char>, c: char)
    ensures
        pieces(s, c).len() > 0,
        joined(pieces(s, c), seq![c]) == s,
        forall|i: int| 0 <= i < pieces(s, c).len() ==> !(#[trigger] pieces(s, c)[i]).contains(c),
    decreases s.len(),
{
    lemma_first_of(s, c);
    let i = first_of(s, c);
    if i < s.len() {
        let rest = s.skip(i + 1);
        law_split_and_joined(rest, c);
        let p = pieces(rest, c);
        let all = pieces(s, c);
        assert(all == seq![s.take(i)] + p);
        lemma_joined_front(s.take(i), p, seq![c]);
        assert(s =~= s.take(i) + seq![c] + rest);
        assert forall|k: int| 0 <= k < all.len() implies !(#[trigger] all[k]).contains(c) by {
            if k == 0 {
                assert forall|j: int| 0 <= j < i implies s.take(i)[j] != c by {
                    assert(s[j] != c);
                }
            } else {
                assert(all[k] == p[k - 1]);
            }
        }
    } else {
        assert(joined(seq![s], seq![c]) == s);
        assert(!s.contains(c));
    }
}

proof fn lemma_joined_front(x: Seq<char>, p: Seq<Seq<char>>, sep: Seq<char>)
    requires
        p.len() > 0,
    ensures
        joined(seq![x] + p, sep) == x + sep + joined(p, sep),
    decreases p.len(),
{
    let all = seq![x] + p;
    if p.len() == 1 {
        assert(all.drop_last() =~= seq![x]);
        assert(joined(seq![x], sep) == x);
        assert(joined(all, sep) =~= x + sep + p[0]);
    } else {
        let init = p.drop_last();
        lemma_joined_front(x, init, sep);
        assert(all.drop_last() =~= seq![x] + init);
        assert(all.last() == p.last());
        assert(joined(all, sep) =~= x + sep + joined(p, sep));
    }
}

/// What stands between two marks is found between them.
pub proof fn law_between(head: Seq<char>, open: Seq<char>, x: Seq<char>, close: Seq<char>, rest: Seq<char>)
    requires
        open.len() > 0,
        close.len() > 0,
        forall|i: int| 0 <= i < head.len() ==> !occurs_at(head + open + x + close + rest, open, i),
        forall|i: int| 0 <= i < x.len() ==> !occurs_at(x + close + rest, close, i),
    ensures
        between(head + open + x + close + rest, open, close) == trimmed(x),
{
    let s = head + open + x + close + rest;
    let k = head.len() as int;
    assert(s.subrange(k, k + open.len()) =~= open);
    assert(crate::text::first_at(s, open, k));
    crate::text::lemma_find_first(s, open, k);
    let r = s.skip(k + open.len());
    assert(r =~= x + close + rest);
    let j = x.len() as int;
    assert(r.subrange(j, j + close.len()) =~= close);
    assert(crate::text::first_at(r, close, j));
    crate::text::lemma_find_first(r, close, j);
    assert(r.take(j) =~= x);
}

// ---------------------------------------------------------------------------
// lists and numbers
// ---------------------------------------------------------------------------

/// Of a list of texts each that is not empty stays once.
pub proof fn law_unique_filled(s: Seq<Seq<char>>)
    ensures
        unique_filled(s).no_duplicates(),
        forall|x: Seq<char>| #[trigger]
            unique_filled(s).contains(x) <==> x.len() > 0 && s.contains(x),
    decreases s.len(),
{
    if s.len() > 0 {
        let init = s.drop_last();
        law_unique_filled(init);
        let h = unique_filled(init);
        let u = unique_filled(s);
        assert forall|x: Seq<char>| #[trigger] u.contains(x) <==> x.len() > 0 && s.contains(x) by {
            if u.contains(x) {
                let k = u.index_of(x);
                if k < h.len() {
                    assert(h[k] == x);
                    assert(h.contains(x));
                    let j = init.index_of(x);
                    assert(s[j] == x);
                } else {
                    assert(s[s.len() - 1] == x);
                }
            }
            if x.len() > 0 && s.contains(x) {
                let j = s.index_of(x);
                if h.contains(x) {
                    let k = h.index_of(x);
                    assert(u[k] == x);
                } else {
                    if j < init.len() {
                        assert(init[j] == x);
                        assert(init.contains(x));
                        assert(h.contains(x));
                    }
                    assert(u[h.len() as int] == x);
                }
            }
        }
        assert forall|i: int, j: int| 0 <= i < j < u.len() implies u[i] != u[j] by {
            if j == h.len() {
                assert(h.contains(u[i]));
            }
        }
    }
}

proof fn lemma_digit(d: int)
    requires
        0 <= d < 10,
    ensures
        '0' <= digit_char(d) <= '9',
        digit_char(d) as u32 - '0' as u32 == d,
{
}

/// A number that is written is read back.
pub proof fn law_decimal_read_back(n: nat)
    ensures
        all_digits(decimal(n)),
        decimal(n).len() > 0,
        digits_value(decimal(n)) == n,
        n <= u64::MAX ==> parsed_count(decimal(n)) == Some(n),
        n <= i64::MAX ==> parsed_int(decimal(n)) == Some(n as int),
    decreases n,
{
    if n < 10 {
        lemma_digit(n as int);
        let s = seq![digit_char(n as int)];
        assert(s.drop_last() =~= Seq::<char>::empty());
        assert(digits_value(Seq::<char>::empty()) == 0);
        assert(s.last() == digit_char(n as int));
    } else {
        law_decimal_read_back(n / 10);
        lemma_digit((n % 10) as int);
        let h = decimal(n / 10);
        let s = h.push(digit_char((n % 10) as int));
        assert(s.drop_last() =~= h);
        assert(all_digits(s)) by {
            assert forall|i: int| 0 <= i < s.len() implies '0' <= #[trigger] s[i] <= '9' by {
                if i < h.len() {
                    assert(s[i] == h[i]);
                }
            }
        }
    }
    let d = decimal(n);
    assert('0' <= d[0] <= '9');
}

/// So is one with a sign.
pub proof fn law_int_read_back(n: int)
    requires
        i64::MIN <= n <= i64::MAX,
    ensures
        parsed_int(int_text(n)) == Some(n),
{
    if n < 0 {
        let d = decimal((-n) as nat);
        law_decimal_read_back((-n) as nat);
        let s = seq!['-'] + d;
        assert(s.drop_first() =~= d);
    } else {
        law_decimal_read_back(n as nat);
    }
}

/// Lower case changes the capital letters, and nothing else.
pub proof fn law_lower_case(s: Seq<char>, i: int)
    requires
        0 <= i < s.len(),
    ensures
        ascii_lower(s).len() == s.len(),
        !('A' <= s[i] <= 'Z') ==> ascii_lower(s)[i] == s[i],
        'A' <= s[i] <= 'Z' ==> ascii_lower(s)[i] as u32 == s[i] as u32 + 32,
{
}

} // verus!
