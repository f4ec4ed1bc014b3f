//! Strings as sequences of characters: the small vocabulary of cutting, joining and
//! comparing text that the rest of the library is stated in.
use vstd::prelude::*;
use vstd::string::StringExecFns;
use vstd::utf8::{encode_scalar, encode_utf8};

verus! {

/// Appends one character; stands for `String::push`, which appends `c` to the end.
pub assume_specification[ String::push ](s: &mut String, c: char)
    ensures
        final(s)@ == old(s)@.push(c),
;

/// Compares two string slices with `==` of `str`: true exactly on equal text.
#[verifier::external_body]
pub(crate) fn same(a: &str, b: &str) -> (r: bool)
    ensures
        r == (a@ == b@),
{
    a == b
}

/// The texts held by a list of strings.
pub open spec fn views(v: Seq<String>) -> Seq<Seq<char>> {
    v.map_values(|s: String| s@)
}

// ---------------------------------------------------------------------------
// classes of characters
// ---------------------------------------------------------------------------

/// Whether `c` has the Unicode `White_Space` property.
pub open spec fn is_white(c: char) -> bool {
    let n = c as u32;
    ||| 0x09 <= n <= 0x0d
    ||| n == 0x20
    ||| n == 0x85
    ||| n == 0xa0
    ||| n == 0x1680
    ||| 0x2000 <= n <= 0x200a
    ||| n == 0x2028
    ||| n == 0x2029
    ||| n == 0x202f
    ||| n == 0x205f
    ||| n == 0x3000
}

/// Whether `c` is an ASCII letter or digit.
pub open spec fn is_alnum(c: char) -> bool {
    ||| 'a' <= c <= 'z'
    ||| 'A' <= c <= 'Z'
    ||| '0' <= c <= '9'
}

/// A set of characters that can be stripped from the ends of a text.
#[derive(Clone, Copy)]
pub enum CharClass {
    /// Unicode white space.
    White,
    /// One character.
    Just(char),
    /// `-`, `.` and `_`.
    Joiner,
    /// The marks that end a clause: `.`, `,` and `;`, and their wide forms.
    Stop,
}

impl CharClass {
    pub open spec fn has(self, c: char) -> bool {
        match self {
            CharClass::White => is_white(c),
            CharClass::Just(d) => c == d,
            CharClass::Joiner => c == '-' || c == '.' || c == '_',
            CharClass::Stop => c == '.' || c == ',' || c == ';' || c == '，' || c == '。' || c == '；',
        }
    }

    /// Decides membership.
    pub fn holds(self, c: char) -> (r: bool)
        ensures
            r == self.has(c),
    {
        match self {
            CharClass::White => {
                let n: u32 = c as u32;
                (0x09 <= n && n <= 0x0d) || n == 0x20 || n == 0x85 || n == 0xa0 || n == 0x1680 || (
                0x2000 <= n && n <= 0x200a) || n == 0x2028 || n == 0x2029 || n == 0x202f || n
                    == 0x205f || n == 0x3000
            },
            CharClass::Just(d) => c == d,
            CharClass::Joiner => c == '-' || c == '.' || c == '_',
            CharClass::Stop => c == '.' || c == ',' || c == ';' || c == '，' || c == '。' || c == '；',
        }
    }
}

/// Decides [`is_alnum`].
pub fn alnum(c: char) -> (r: bool)
    ensures
        r == is_alnum(c),
{
    ('a' <= c && c <= 'z') || ('A' <= c && c <= 'Z') || ('0' <= c && c <= '9')
}

// ---------------------------------------------------------------------------
// characters in and out of strings
// ---------------------------------------------------------------------------

/// The characters of `s`.
pub fn chars_of(s: &str) -> (r: Vec<char>)
    ensures
        r@ == s@,
{
    let mut out: Vec<char> = Vec::new();
    for c in it: s.chars()
        invariant
            it.seq() == s@,
            out@ == s@.take(it.index()),
    {
        out.push(c);
        assert(out@ =~= s@.take(it.index() + 1));
    }
    assert(out@ =~= s@);
    out
}

/// The text made of the characters `v[from..to]`.
pub fn text_between(v: &Vec<char>, from: usize, to: usize) -> (r: String)
    requires
        from <= to <= v@.len(),
    ensures
        r@ == v@.subrange(from as int, to as int),
{
    let mut out = String::new();
    let mut i: usize = from;
    while i < to
        invariant
            from <= i <= to <= v@.len(),
            out@ =~= v@.subrange(from as int, i as int),
        decreases to - i,
    {
        out.push(v[i]);
        i += 1;
    }
    out
}

/// The text made of the characters `v`.
pub fn text_of(v: &Vec<char>) -> (r: String)
    ensures
        r@ == v@,
{
    let r = text_between(v, 0, v.len());
    assert(v@.subrange(0, v@.len() as int) =~= v@);
    r
}

/// `a` followed by `b`.
pub fn cat(a: &str, b: &str) -> (r: String)
    ensures
        r@ == a@ + b@,
{
    let mut out = String::new();
    out.append(a);
    out.append(b);
    assert(Seq::<char>::empty() + a@ =~= a@);
    out
}

/// `a`, `b` and `c` in a row.
pub fn cat3(a: &str, b: &str, c: &str) -> (r: String)
    ensures
        r@ == a@ + b@ + c@,
{
    let mut out = cat(a, b);
    out.append(c);
    out
}

/// The first `n` characters of `s`, or all of them.
pub fn prefix_chars(s: &str, n: usize) -> (r: String)
    ensures
        r@ == s@.take(if n <= s@.len() { n as int } else { s@.len() as int }),
{
    let v = chars_of(s);
    let k: usize = if n <= v.len() { n } else { v.len() };
    let r = text_between(&v, 0, k);
    assert(v@.subrange(0, k as int) =~= s@.take(k as int));
    r
}

/// The number of bytes of a character.
pub open spec fn char_width(c: char) -> nat {
    encode_scalar(c as u32).len()
}

/// The first characters of a text that fit into `n` bytes.
pub open spec fn byte_head(s: Seq<char>, n: nat) -> Seq<char>
    decreases s.len(),
{
    if s.len() == 0 || char_width(s[0]) > n {
        Seq::empty()
    } else {
        seq![s[0]] + byte_head(s.drop_first(), (n - char_width(s[0])) as nat)
    }
}

/// Characters that take exactly `n` bytes at the front of a text are those that fit into them.
pub proof fn lemma_byte_head(s: Seq<char>, n: nat, k: int)
    requires
        0 <= k <= s.len(),
        encode_utf8(s.take(k)).len() == n,
    ensures
        byte_head(s, n) == s.take(k),
        encode_utf8(s.take(k)) == encode_utf8(s).take(n as int),
    decreases s.len(),
{
    if k == 0 {
        if s.len() > 0 {
            assert(char_width(s[0]) > 0);
        }
        assert(byte_head(s, n) =~= s.take(k));
        assert(encode_utf8(s.take(k)) =~= encode_utf8(s).take(n as int));
    } else {
        let t = s.take(k);
        let w = char_width(s[0]);
        assert(t[0] == s[0]);
        assert(t.drop_first() =~= s.drop_first().take(k - 1));
        lemma_byte_head(s.drop_first(), (n - w) as nat, k - 1);
        assert(byte_head(s, n) =~= s.take(k));
        assert(encode_utf8(s.drop_first()).len() >= n - w) by {
            lemma_bytes_of_front(s.drop_first(), k - 1);
        }
        assert(encode_utf8(t) =~= encode_utf8(s).take(n as int));
    }
}

proof fn lemma_bytes_of_front(s: Seq<char>, k: int)
    requires
        0 <= k <= s.len(),
    ensures
        encode_utf8(s.take(k)).len() <= encode_utf8(s).len(),
    decreases s.len(),
{
    if k > 0 {
        assert(s.take(k)[0] == s[0]);
        assert(s.take(k).drop_first() =~= s.drop_first().take(k - 1));
        lemma_bytes_of_front(s.drop_first(), k - 1);
    }
}

fn width_of(c: char) -> (r: usize)
    ensures
        r == char_width(c),
        1 <= r <= 4,
{
    broadcast use vstd::utf8::char_is_scalar;

    let n: u32 = c as u32;
    if n < 0x80 {
        1
    } else if n < 0x800 {
        2
    } else if n < 0x1_0000 {
        3
    } else {
        4
    }
}

/// The first characters of a text that fit into `n` bytes.
pub fn prefix_bytes(s: &str, n: usize) -> (r: String)
    ensures
        r@ == byte_head(s@, n as nat),
{
    let v = chars_of(s);
    let mut left: usize = n;
    let mut i: usize = 0;
    assert(v@.skip(0) =~= v@);
    assert(v@.take(0) =~= Seq::empty());
    assert(byte_head(s@, n as nat) =~= v@.take(0) + byte_head(v@.skip(0), left as nat));
    while i < v.len() && width_of(v[i]) <= left
        invariant
            i <= v@.len(),
            v@ == s@,
            left <= n,
            byte_head(s@, n as nat) == v@.take(i as int) + byte_head(
                v@.skip(i as int),
                left as nat,
            ),
        decreases v@.len() - i,
    {
        assert(v@.skip(i as int).drop_first() =~= v@.skip(i + 1));
        left -= width_of(v[i]);
        i += 1;
        assert(byte_head(s@, n as nat) =~= v@.take(i as int) + byte_head(
            v@.skip(i as int),
            left as nat,
        ));
    }
    assert(byte_head(s@, n as nat) =~= v@.take(i as int));
    text_between(&v, 0, i)
}

// ---------------------------------------------------------------------------
// trimming and case
// ---------------------------------------------------------------------------

/// `s` without its longest prefix inside `class`.
pub open spec fn skip_front(s: Seq<char>, class: CharClass) -> Seq<char>
    decreases s.len(),
{
    if s.len() > 0 && class.has(s[0]) {
        skip_front(s.drop_first(), class)
    } else {
        s
    }
}

/// `s` without its longest suffix inside `class`.
pub open spec fn skip_back(s: Seq<char>, class: CharClass) -> Seq<char>
    decreases s.len(),
{
    if s.len() > 0 && class.has(s.last()) {
        skip_back(s.drop_last(), class)
    } else {
        s
    }
}

/// `s` without the white space at its two ends.
pub open spec fn trimmed(s: Seq<char>) -> Seq<char> {
    strip(s, CharClass::White)
}

/// `s` without the members of `class` at its two ends.
pub open spec fn strip(s: Seq<char>, class: CharClass) -> Seq<char> {
    skip_back(skip_front(s, class), class)
}

/// Stripping shortens.
pub proof fn lemma_strip_len(s: Seq<char>, class: CharClass)
    ensures
        skip_front(s, class).len() <= s.len(),
        strip(s, class).len() <= s.len(),
{
    lemma_skip_front_len(s, class);
    lemma_skip_back_len(skip_front(s, class), class);
}

proof fn lemma_skip_front_len(s: Seq<char>, class: CharClass)
    ensures
        skip_front(s, class).len() <= s.len(),
    decreases s.len(),
{
    if s.len() > 0 && class.has(s[0]) {
        lemma_skip_front_len(s.drop_first(), class);
    }
}

proof fn lemma_skip_back_len(s: Seq<char>, class: CharClass)
    ensures
        skip_back(s, class).len() <= s.len(),
    decreases s.len(),
{
    if s.len() > 0 && class.has(s.last()) {
        lemma_skip_back_len(s.drop_last(), class);
    }
}

fn front_index(v: &Vec<char>, class: CharClass) -> (r: usize)
    ensures
        r <= v@.len(),
        v@.subrange(r as int, v@.len() as int) == skip_front(v@, class),
{
    let mut i: usize = 0;
    assert(v@.subrange(0, v@.len() as int) =~= v@);
    while i < v.len() && class.holds(v[i])
        invariant
            i <= v@.len(),
            skip_front(v@.subrange(i as int, v@.len() as int), class) == skip_front(v@, class),
        ensures
            i <= v@.len(),
            skip_front(v@.subrange(i as int, v@.len() as int), class) == skip_front(v@, class),
            i < v@.len() ==> !class.has(v@[i as int]),
        decreases v@.len() - i,
    {
        assert(v@.subrange(i as int, v@.len() as int).drop_first() =~= v@.subrange(
            i + 1,
            v@.len() as int,
        ));
        i += 1;
    }
    i
}

fn back_index(v: &Vec<char>, from: usize, class: CharClass) -> (r: usize)
    requires
        from <= v@.len(),
    ensures
        from <= r <= v@.len(),
        v@.subrange(from as int, r as int) == skip_back(
            v@.subrange(from as int, v@.len() as int),
            class,
        ),
{
    let mut j: usize = v.len();
    while j > from && class.holds(v[j - 1])
        invariant
            from <= j <= v@.len(),
            skip_back(v@.subrange(from as int, j as int), class) == skip_back(
                v@.subrange(from as int, v@.len() as int),
                class,
            ),
        ensures
            from <= j <= v@.len(),
            skip_back(v@.subrange(from as int, j as int), class) == skip_back(
                v@.subrange(from as int, v@.len() as int),
                class,
            ),
            from < j ==> !class.has(v@[j - 1]),
        decreases j,
    {
        assert(v@.subrange(from as int, j as int).drop_last() =~= v@.subrange(
            from as int,
            j - 1,
        ));
        j -= 1;
    }
    j
}

/// Strips `class` from both ends.
pub fn trim_class(s: &str, class: CharClass) -> (r: String)
    ensures
        r@ == strip(s@, class),
{
    let v = chars_of(s);
    let i = front_index(&v, class);
    let j = back_index(&v, i, class);
    text_between(&v, i, j)
}

/// Strips `class` from the front.
pub fn trim_front(s: &str, class: CharClass) -> (r: String)
    ensures
        r@ == skip_front(s@, class),
{
    let v = chars_of(s);
    let i = front_index(&v, class);
    text_between(&v, i, v.len())
}

/// Strips `class` from the back.
pub fn trim_back(s: &str, class: CharClass) -> (r: String)
    ensures
        r@ == skip_back(s@, class),
{
    let v = chars_of(s);
    let j = back_index(&v, 0, class);
    assert(v@.subrange(0, v@.len() as int) =~= v@);
    text_between(&v, 0, j)
}

/// Strips white space from both ends.
pub fn trim(s: &str) -> (r: String)
    ensures
        r@ == trimmed(s@),
{
    trim_class(s, CharClass::White)
}

/// `c` in ASCII lower case.
pub open spec fn lower_char(c: char) -> char {
    if 'A' <= c <= 'Z' {
        ((c as u8 + 32) as u8) as char
    } else {
        c
    }
}

/// `s` with its ASCII letters in lower case.
pub open spec fn ascii_lower(s: Seq<char>) -> Seq<char> {
    s.map_values(|c: char| lower_char(c))
}

/// Maps the ASCII letters of `s` to lower case.
pub fn to_ascii_lower(s: &str) -> (r: String)
    ensures
        r@ == ascii_lower(s@),
{
    let v = chars_of(s);
    let mut out = String::new();
    let mut i: usize = 0;
    while i < v.len()
        invariant
            i <= v@.len(),
            v@ == s@,
            out@ =~= ascii_lower(s@).take(i as int),
        decreases v@.len() - i,
    {
        let c = v[i];
        let d = if 'A' <= c && c <= 'Z' {
            ((c as u8 + 32) as u8) as char
        } else {
            c
        };
        out.push(d);
        i += 1;
    }
    assert(out@ =~= ascii_lower(s@));
    out
}

/// Whether every character of `s` is ASCII.
pub open spec fn is_ascii(s: Seq<char>) -> bool {
    forall|i: int| 0 <= i < s.len() ==> #[trigger] s[i] <= '\u{7f}'
}

/// The lower case of a text that is not ASCII, as `str::to_lowercase` gives it.
pub uninterp spec fn full_lower(s: Seq<char>) -> Seq<char>;

/// The Unicode lower case of a text.
pub open spec fn unicode_lower(s: Seq<char>) -> Seq<char> {
    if is_ascii(s) {
        ascii_lower(s)
    } else {
        full_lower(s)
    }
}

/// Calls `str::to_lowercase`. Claims that its result depends on the text alone, and that
/// it is the ASCII lower case where the text is ASCII.
#[verifier::external_body]
pub(crate) fn to_lower(s: &str) -> (r: String)
    ensures
        r@ == (if is_ascii(s@) {
            ascii_lower(s@)
        } else {
            full_lower(s@)
        }),
{
    s.to_lowercase()
}

// ---------------------------------------------------------------------------
// searching
// ---------------------------------------------------------------------------

/// Whether `p` stands in `s` at position `i`.
pub open spec fn occurs_at(s: Seq<char>, p: Seq<char>, i: int) -> bool {
    0 <= i && i + p.len() <= s.len() && s.subrange(i, i + p.len()) == p
}

/// Whether `p` stands anywhere in `s`.
pub open spec fn occurs(s: Seq<char>, p: Seq<char>) -> bool {
    exists|i: int| occurs_at(s, p, i)
}

/// Whether `s` begins with `p`.
pub open spec fn begins(s: Seq<char>, p: Seq<char>) -> bool {
    occurs_at(s, p, 0)
}

/// Whether `s` ends with `p`.
pub open spec fn ends(s: Seq<char>, p: Seq<char>) -> bool {
    occurs_at(s, p, s.len() - p.len())
}

/// Decides [`occurs_at`].
pub fn matches_at(s: &Vec<char>, p: &Vec<char>, i: usize) -> (r: bool)
    ensures
        r == occurs_at(s@, p@, i as int),
{
    if i > s.len() || p.len() > s.len() - i {
        return false;
    }
    let mut k: usize = 0;
    while k < p.len()
        invariant
            k <= p@.len(),
            i + p.len() <= s.len(),
            forall|m: int| 0 <= m < k ==> s@[i + m] == p@[m],
        decreases p@.len() - k,
    {
        if s[i + k] != p[k] {
            assert(s@.subrange(i as int, i + p@.len())[k as int] != p@[k as int]);
            return false;
        }
        k += 1;
    }
    assert(s@.subrange(i as int, i + p@.len()) =~= p@);
    true
}

/// Whether `s` begins with `p`.
pub fn starts_with(s: &str, p: &str) -> (r: bool)
    ensures
        r == begins(s@, p@),
{
    matches_at(&chars_of(s), &chars_of(p), 0)
}

/// Whether `s` ends with `p`.
pub fn ends_with(s: &str, p: &str) -> (r: bool)
    ensures
        r == ends(s@, p@),
{
    let v = chars_of(s);
    let w = chars_of(p);
    if w.len() > v.len() {
        return false;
    }
    matches_at(&v, &w, v.len() - w.len())
}

/// The first position at or after `from` where `p` stands in `s`.
pub fn find_from(s: &Vec<char>, p: &Vec<char>, from: usize) -> (r: Option<usize>)
    requires
        from <= s@.len(),
    ensures
        match r {
            Some(i) => from <= i && occurs_at(s@, p@, i as int) && forall|j: int|
                from <= j < i ==> !occurs_at(s@, p@, j),
            None => forall|j: int| from <= j ==> !occurs_at(s@, p@, j),
        },
{
    let mut i: usize = from;
    while i < s.len()
        invariant
            from <= i <= s@.len(),
            forall|j: int| from <= j < i ==> !occurs_at(s@, p@, j),
        decreases s@.len() - i,
    {
        if matches_at(s, p, i) {
            return Some(i);
        }
        i += 1;
    }
    if matches_at(s, p, i) {
        return Some(i);
    }
    None
}

/// Whether `p` stands anywhere in `s`.
pub fn contains(s: &str, p: &str) -> (r: bool)
    ensures
        r == occurs(s@, p@),
{
    find_from(&chars_of(s), &chars_of(p), 0).is_some()
}

/// The first position of `c` in `s`, or its length.
pub open spec fn first_of(s: Seq<char>, c: char) -> int
    decreases s.len(),
{
    if s.len() == 0 || s[0] == c {
        0
    } else {
        1 + first_of(s.drop_first(), c)
    }
}

/// `first_of` is the least position that holds `c`.
pub proof fn lemma_first_of(s: Seq<char>, c: char)
    ensures
        0 <= first_of(s, c) <= s.len(),
        first_of(s, c) < s.len() ==> s[first_of(s, c)] == c,
        forall|i: int| 0 <= i < first_of(s, c) ==> s[i] != c,
    decreases s.len(),
{
    if s.len() > 0 && s[0] != c {
        lemma_first_of(s.drop_first(), c);
        assert forall|i: int| 0 <= i < first_of(s, c) implies s[i] != c by {
            if i > 0 {
                assert(s[i] == s.drop_first()[i - 1]);
            }
        }
    }
}

/// Finds the first `c` at or after `from`, or the end.
pub fn index_from(v: &Vec<char>, from: usize, c: char) -> (r: usize)
    requires
        from <= v@.len(),
    ensures
        from <= r <= v@.len(),
        r - from == first_of(v@.subrange(from as int, v@.len() as int), c),
{
    let mut i: usize = from;
    while i < v.len() && v[i] != c
        invariant
            from <= i <= v@.len(),
            first_of(v@.subrange(from as int, v@.len() as int), c) == i - from + first_of(
                v@.subrange(i as int, v@.len() as int),
                c,
            ),
        ensures
            from <= i <= v@.len(),
            first_of(v@.subrange(from as int, v@.len() as int), c) == i - from + first_of(
                v@.subrange(i as int, v@.len() as int),
                c,
            ),
            i < v@.len() ==> v@[i as int] == c,
        decreases v@.len() - i,
    {
        assert(v@.subrange(i as int, v@.len() as int).drop_first() =~= v@.subrange(
            i + 1,
            v@.len() as int,
        ));
        i += 1;
    }
    i
}

/// Splits at the first `c`: what stands before it and what stands after it.
pub open spec fn cut_once(s: Seq<char>, c: char) -> Option<(Seq<char>, Seq<char>)> {
    let i = first_of(s, c);
    if i < s.len() {
        Some((s.take(i), s.skip(i + 1)))
    } else {
        None
    }
}

/// Splits at the first `c`.
pub fn split_once(s: &str, c: char) -> (r: Option<(String, String)>)
    ensures
        match r {
            Some(p) => cut_once(s@, c) == Some((p.0@, p.1@)),
            None => cut_once(s@, c) is None,
        },
{
    let v = chars_of(s);
    let i = index_from(&v, 0, c);
    assert(v@.subrange(0, v@.len() as int) =~= v@);
    if i < v.len() {
        let a = text_between(&v, 0, i);
        let b = text_between(&v, i + 1, v.len());
        assert(a@ =~= s@.take(i as int));
        assert(b@ =~= s@.skip(i + 1));
        Some((a, b))
    } else {
        None
    }
}

/// The pieces of `s` between the occurrences of `c`.
pub open spec fn pieces(s: Seq<char>, c: char) -> Seq<Seq<char>>
    decreases s.len(),
{
    let i = first_of(s, c);
    if 0 <= i < s.len() {
        seq![s.take(i)] + pieces(s.skip(i + 1), c)
    } else {
        seq![s]
    }
}

/// Splits `s` at every `c`.
pub fn split(s: &str, c: char) -> (r: Vec<String>)
    ensures
        views(r@) == pieces(s@, c),
{
    let v = chars_of(s);
    let mut out: Vec<String> = Vec::new();
    let mut from: usize = 0;
    assert(v@.subrange(0, v@.len() as int) =~= v@);
    assert(views(out@) + pieces(s@, c) =~= pieces(s@, c));
    loop
        invariant_except_break
            v@ == s@,
            from <= v@.len(),
            views(out@) + pieces(v@.subrange(from as int, v@.len() as int), c) == pieces(s@, c),
        ensures
            views(out@) == pieces(s@, c),
        decreases v@.len() - from,
    {
        let i = index_from(&v, from, c);
        let ghost rest = v@.subrange(from as int, v@.len() as int);
        let ghost before = views(out@);
        let piece = text_between(&v, from, i);
        let ghost p = piece@;
        out.push(piece);
        assert(views(out@) =~= before.push(p));
        if i < v.len() {
            assert(p =~= rest.take(i - from));
            assert(rest.skip(i - from + 1) =~= v@.subrange(i + 1, v@.len() as int));
            assert(views(out@) + pieces(v@.subrange(i + 1, v@.len() as int), c) =~= before
                + pieces(rest, c));
            from = i + 1;
        } else {
            assert(p =~= rest);
            assert(views(out@) =~= before + pieces(rest, c));
            break;
        }
    }
    out
}

/// `parts` with `sep` between neighbours.
pub open spec fn joined(parts: Seq<Seq<char>>, sep: Seq<char>) -> Seq<char>
    decreases parts.len(),
{
    if parts.len() == 0 {
        Seq::empty()
    } else if parts.len() == 1 {
        parts[0]
    } else {
        joined(parts.drop_last(), sep) + sep + parts.last()
    }
}

/// Joins `parts` with `sep`.
pub fn join(parts: &Vec<String>, sep: &str) -> (r: String)
    ensures
        r@ == joined(views(parts@), sep@),
{
    let mut out = String::new();
    let mut i: usize = 0;
    while i < parts.len()
        invariant
            i <= parts@.len(),
            out@ == joined(views(parts@).take(i as int), sep@),
        decreases parts@.len() - i,
    {
        let ghost t = views(parts@).take(i + 1);
        assert(t.drop_last() =~= views(parts@).take(i as int));
        if i > 0 {
            out.append(sep);
        }
        out.append(parts[i].as_str());
        assert(out@ =~= joined(t, sep@));
        i += 1;
    }
    assert(views(parts@).take(i as int) =~= views(parts@));
    out
}

// ---------------------------------------------------------------------------
// lists of strings
// ---------------------------------------------------------------------------

/// Whether `v` holds the text `s`.
pub fn has_text(v: &Vec<String>, s: &str) -> (r: bool)
    ensures
        r == views(v@).contains(s@),
{
    let mut i: usize = 0;
    while i < v.len()
        invariant
            i <= v@.len(),
            forall|j: int| 0 <= j < i ==> views(v@)[j] != s@,
        decreases v@.len() - i,
    {
        if same(v[i].as_str(), s) {
            assert(views(v@)[i as int] == s@);
            return true;
        }
        i += 1;
    }
    false
}

/// A copy of a list of strings.
pub fn copy_texts(v: &Vec<String>) -> (r: Vec<String>)
    ensures
        views(r@) == views(v@),
{
    let mut out: Vec<String> = Vec::new();
    let mut i: usize = 0;
    while i < v.len()
        invariant
            i <= v@.len(),
            views(out@) =~= views(v@).take(i as int),
        decreases v@.len() - i,
    {
        let ghost done = views(out@);
        out.push(v[i].clone());
        assert(views(out@) =~= done.push(views(v@)[i as int]));
        i += 1;
    }
    assert(views(out@) =~= views(v@));
    out
}

/// `s` with each text kept only where it first stands.
pub open spec fn deduped(s: Seq<Seq<char>>) -> Seq<Seq<char>>
    decreases s.len(),
{
    if s.len() == 0 {
        Seq::empty()
    } else {
        let head = deduped(s.drop_last());
        if head.contains(s.last()) {
            head
        } else {
            head.push(s.last())
        }
    }
}

/// Deduplicating keeps exactly the texts of the list, each once.
pub proof fn lemma_deduped(s: Seq<Seq<char>>)
    ensures
        deduped(s).no_duplicates(),
        forall|x: Seq<char>| deduped(s).contains(x) <==> s.contains(x),
        deduped(s).len() <= s.len(),
    decreases s.len(),
{
    if s.len() > 0 {
        lemma_deduped(s.drop_last());
        let head = deduped(s.drop_last());
        let init = s.drop_last();
        assert(s =~= init.push(s.last()));
        assert forall|x: Seq<char>| s.contains(x) <==> (init.contains(x) || x == s.last()) by {
            if init.contains(x) {
                let j = init.index_of(x);
                assert(s[j] == x);
            }
            if x == s.last() {
                assert(s[s.len() - 1] == x);
            }
            if s.contains(x) && x != s.last() {
                let j = s.index_of(x);
                assert(init[j] == x);
            }
        }
        let out = deduped(s);
        assert forall|x: Seq<char>| out.contains(x) <==> (head.contains(x) || x == s.last()) by {
            if head.contains(x) {
                let j = head.index_of(x);
                assert(out[j] == x);
            }
            if x == s.last() && !head.contains(x) {
                assert(out[head.len() as int] == x);
            }
            if out.contains(x) && x != s.last() {
                let j = out.index_of(x);
                assert(head[j] == x);
            }
        }
    }
}

/// Appends `s` unless it is there already.
pub fn push_new(v: &mut Vec<String>, s: &str)
    ensures
        views(final(v)@) == if views(old(v)@).contains(s@) {
            views(old(v)@)
        } else {
            views(old(v)@).push(s@)
        },
{
    if !has_text(v, s) {
        let ghost before = views(v@);
        v.push(s.to_owned());
        assert(views(v@) =~= before.push(s@));
    }
}

/// The texts of `s` that are not empty, each where it first stands.
pub open spec fn unique_filled(s: Seq<Seq<char>>) -> Seq<Seq<char>>
    decreases s.len(),
{
    if s.len() == 0 {
        Seq::empty()
    } else {
        let head = unique_filled(s.drop_last());
        if s.last().len() == 0 || head.contains(s.last()) {
            head
        } else {
            head.push(s.last())
        }
    }
}

/// Keeps the texts that are not empty, each where it first stands.
pub fn unique_non_empty(v: &Vec<String>) -> (r: Vec<String>)
    ensures
        views(r@) == unique_filled(views(v@)),
{
    let mut out: Vec<String> = Vec::new();
    let mut i: usize = 0;
    assert(views(out@) =~= Seq::empty());
    while i < v.len()
        invariant
            i <= v@.len(),
            views(out@) == unique_filled(views(v@).take(i as int)),
        decreases v@.len() - i,
    {
        assert(views(v@).take(i + 1).drop_last() =~= views(v@).take(i as int));
        if !v[i].as_str().is_empty() {
            push_new(&mut out, v[i].as_str());
        }
        i += 1;
    }
    assert(views(v@).take(i as int) =~= views(v@));
    out
}

// ---------------------------------------------------------------------------
// decimal numbers
// ---------------------------------------------------------------------------

/// The character of a decimal digit.
pub open spec fn digit_char(d: int) -> char {
    (('0' as u8 + d) as u8) as char
}

/// `n` in decimal.
pub open spec fn decimal(n: nat) -> Seq<char>
    decreases n,
{
    if n < 10 {
        seq![digit_char(n as int)]
    } else {
        decimal(n / 10).push(digit_char((n % 10) as int))
    }
}

/// `n` in decimal, with a minus sign where it is negative.
pub open spec fn int_text(n: int) -> Seq<char> {
    if n < 0 {
        seq!['-'] + decimal((-n) as nat)
    } else {
        decimal(n as nat)
    }
}

/// Writes `n` in decimal.
pub fn decimal_text(n: u128) -> (r: String)
    ensures
        r@ == decimal(n as nat),
    decreases n,
{
    let mut s = if n < 10 {
        String::new()
    } else {
        decimal_text(n / 10)
    };
    let d: u8 = (n % 10) as u8;
    s.push(((48 + d) as u8) as char);
    assert(s@ =~= decimal(n as nat));
    s
}

/// Writes `n` in decimal.
pub fn signed_text(n: i64) -> (r: String)
    ensures
        r@ == int_text(n as int),
{
    if n < 0 {
        let m: u64 = ((-(n + 1)) as u64) + 1;
        let mut s = String::new();
        s.push('-');
        s.append(decimal_text(m as u128).as_str());
        assert(s@ =~= int_text(n as int));
        s
    } else {
        decimal_text(n as u128)
    }
}

/// Whether every character of `s` is a decimal digit.
pub open spec fn all_digits(s: Seq<char>) -> bool {
    forall|i: int| 0 <= i < s.len() ==> '0' <= #[trigger] s[i] <= '9'
}

/// The number that a run of decimal digits stands for.
pub open spec fn digits_value(s: Seq<char>) -> nat
    decreases s.len(),
{
    if s.len() == 0 {
        0
    } else {
        digits_value(s.drop_last()) * 10 + (s.last() as u32 - '0' as u32) as nat
    }
}

/// The integer that `s` stands for: an optional sign and at least one digit, in the range
/// of `i64`.
pub open spec fn parsed_int(s: Seq<char>) -> Option<int> {
    let signed = s.len() > 0 && (s[0] == '-' || s[0] == '+');
    let digits = if signed {
        s.drop_first()
    } else {
        s
    };
    let value = if signed && s[0] == '-' {
        -(digits_value(digits) as int)
    } else {
        digits_value(digits) as int
    };
    if digits.len() > 0 && all_digits(digits) && i64::MIN <= value <= i64::MAX {
        Some(value)
    } else {
        None
    }
}

proof fn lemma_digits_grow(s: Seq<char>, i: int)
    requires
        0 <= i <= s.len(),
        all_digits(s),
    ensures
        digits_value(s.take(i)) <= digits_value(s),
    decreases s.len() - i,
{
    if i < s.len() {
        lemma_digits_grow(s, i + 1);
        assert(s.take(i + 1).drop_last() =~= s.take(i));
        assert(digits_value(s.take(i + 1)) >= digits_value(s.take(i)));
    } else {
        assert(s.take(i) =~= s);
    }
}

/// Reads a decimal integer in the range of `i64`.
pub fn parse_int(s: &str) -> (r: Option<i64>)
    ensures
        match r {
            Some(n) => parsed_int(s@) == Some(n as int),
            None => parsed_int(s@) is None,
        },
{
    let v = chars_of(s);
    let signed = v.len() > 0 && (v[0] == '-' || v[0] == '+');
    let negative = signed && v[0] == '-';
    let from: usize = if signed {
        1
    } else {
        0
    };
    let ghost digits = if signed {
        s@.drop_first()
    } else {
        s@
    };
    assert(digits =~= v@.subrange(from as int, v@.len() as int));
    if from >= v.len() {
        return None;
    }
    let mut acc: i128 = 0;
    let mut i: usize = from;
    while i < v.len()
        invariant
            from <= i <= v@.len(),
            digits == v@.subrange(from as int, v@.len() as int),
            all_digits(digits.take(i - from)),
            0 <= acc <= 0x8000_0000_0000_0000,
            acc == digits_value(digits.take(i - from)),
            parsed_int(s@) == (if digits.len() > 0 && all_digits(digits) && i64::MIN <= (if negative {
                -(digits_value(digits) as int)
            } else {
                digits_value(digits) as int
            }) <= i64::MAX {
                Some(
                    if negative {
                        -(digits_value(digits) as int)
                    } else {
                        digits_value(digits) as int
                    },
                )
            } else {
                None::<int>
            }),
        decreases v@.len() - i,
    {
        let c = v[i];
        let ghost k = i - from;
        assert(digits[k] == c);
        if !('0' <= c && c <= '9') {
            assert(!all_digits(digits));
            return None;
        }
        let ghost next = digits.take(k + 1);
        assert(next.drop_last() =~= digits.take(k));
        assert(next.last() == c);
        acc = acc * 10 + (c as u32 - '0' as u32) as i128;
        assert(all_digits(next));
        assert(acc == digits_value(next));
        if acc > 0x8000_0000_0000_0000 {
            proof {
                if all_digits(digits) {
                    lemma_digits_grow(digits, k + 1);
                }
            }
            return None;
        }
        i += 1;
    }
    assert(digits.take(i - from) =~= digits);
    if negative {
        Some((-acc) as i64)
    } else if acc <= 0x7fff_ffff_ffff_ffff {
        Some(acc as i64)
    } else {
        None
    }
}

/// The count that `s` stands for: an optional plus sign and at least one digit, in the range of
/// `u64`.
pub open spec fn parsed_count(s: Seq<char>) -> Option<nat> {
    let digits = if s.len() > 0 && s[0] == '+' {
        s.drop_first()
    } else {
        s
    };
    if digits.len() > 0 && all_digits(digits) && digits_value(digits) <= u64::MAX {
        Some(digits_value(digits))
    } else {
        None
    }
}

/// Reads a decimal count in the range of `u64`.
pub fn parse_count(s: &str) -> (r: Option<u64>)
    ensures
        match r {
            Some(n) => parsed_count(s@) == Some(n as nat),
            None => parsed_count(s@) is None,
        },
{
    let v = chars_of(s);
    let from: usize = if v.len() > 0 && v[0] == '+' {
        1
    } else {
        0
    };
    let ghost digits = v@.subrange(from as int, v@.len() as int);
    assert(digits =~= if from == 1 {
        s@.drop_first()
    } else {
        s@
    });
    if from >= v.len() {
        return None;
    }
    let mut acc: u128 = 0;
    let mut i: usize = from;
    while i < v.len()
        invariant
            from <= i <= v@.len(),
            digits == v@.subrange(from as int, v@.len() as int),
            all_digits(digits.take(i - from)),
            acc <= u64::MAX,
            acc == digits_value(digits.take(i - from)),
            parsed_count(s@) == (if digits.len() > 0 && all_digits(digits) && digits_value(digits)
                <= u64::MAX {
                Some(digits_value(digits))
            } else {
                None::<nat>
            }),
        decreases v@.len() - i,
    {
        let c = v[i];
        let ghost k = i - from;
        assert(digits[k] == c);
        if !('0' <= c && c <= '9') {
            assert(!all_digits(digits));
            return None;
        }
        let ghost next = digits.take(k + 1);
        assert(next.drop_last() =~= digits.take(k));
        assert(next.last() == c);
        acc = acc * 10 + (c as u32 - '0' as u32) as u128;
        assert(all_digits(next));
        assert(acc == digits_value(next));
        if acc > 0xffff_ffff_ffff_ffff {
            proof {
                if all_digits(digits) {
                    lemma_digits_grow(digits, k + 1);
                }
            }
            return None;
        }
        i += 1;
    }
    assert(digits.take(i - from) =~= digits);
    Some(acc as u64)
}

// ---------------------------------------------------------------------------
// order
// ---------------------------------------------------------------------------

/// Whether `a` stands before `b` in the order of code points, a prefix before its
/// extensions.
pub open spec fn precedes(a: Seq<char>, b: Seq<char>) -> bool
    decreases a.len(),
{
    if b.len() == 0 {
        false
    } else if a.len() == 0 {
        true
    } else if a[0] == b[0] {
        precedes(a.drop_first(), b.drop_first())
    } else {
        a[0] < b[0]
    }
}

/// Decides [`precedes`].
pub fn before(a: &str, b: &str) -> (r: bool)
    ensures
        r == precedes(a@, b@),
{
    let v = chars_of(a);
    let w = chars_of(b);
    let mut i: usize = 0;
    assert(v@.skip(0) =~= v@);
    assert(w@.skip(0) =~= w@);
    while i < v.len() && i < w.len()
        invariant
            v@ == a@,
            w@ == b@,
            i <= v@.len(),
            i <= w@.len(),
            precedes(a@, b@) == precedes(v@.skip(i as int), w@.skip(i as int)),
        decreases v@.len() - i,
    {
        assert(v@.skip(i as int).drop_first() =~= v@.skip(i + 1));
        assert(w@.skip(i as int).drop_first() =~= w@.skip(i + 1));
        if v[i] != w[i] {
            return v[i] < w[i];
        }
        i += 1;
    }
    i < w.len()
}

// ---------------------------------------------------------------------------
// replacing
// ---------------------------------------------------------------------------

/// `s` with every `c` replaced by the text `with`.
pub open spec fn replaced(s: Seq<char>, c: char, with: Seq<char>) -> Seq<char>
    decreases s.len(),
{
    if s.len() == 0 {
        Seq::empty()
    } else {
        replaced(s.drop_last(), c, with) + (if s.last() == c {
            with
        } else {
            seq![s.last()]
        })
    }
}

/// Replaces every `c` by the text `with`.
pub fn replace_char(s: &str, c: char, with: &str) -> (r: String)
    ensures
        r@ == replaced(s@, c, with@),
{
    let v = chars_of(s);
    let mut out = String::new();
    let mut i: usize = 0;
    while i < v.len()
        invariant
            i <= v@.len(),
            v@ == s@,
            out@ == replaced(v@.take(i as int), c, with@),
        decreases v@.len() - i,
    {
        assert(v@.take(i + 1).drop_last() =~= v@.take(i as int));
        let ghost done = out@;
        if v[i] == c {
            out.append(with);
        } else {
            out.push(v[i]);
        }
        assert(out@ =~= replaced(v@.take(i + 1), c, with@));
        i += 1;
    }
    assert(v@.take(i as int) =~= s@);
    out
}

// ---------------------------------------------------------------------------
// cutting at a text
// ---------------------------------------------------------------------------

/// Whether `i` is the first position at which `p` stands in `s`.
pub open spec fn first_at(s: Seq<char>, p: Seq<char>, i: int) -> bool {
    occurs_at(s, p, i) && forall|j: int| 0 <= j < i ==> !occurs_at(s, p, j)
}

/// The first position at which `p` stands in `s`.
pub open spec fn find_first(s: Seq<char>, p: Seq<char>) -> Option<int> {
    if occurs(s, p) {
        Some(choose|i: int| first_at(s, p, i))
    } else {
        None
    }
}

pub proof fn lemma_find_first(s: Seq<char>, p: Seq<char>, i: int)
    requires
        first_at(s, p, i),
    ensures
        find_first(s, p) == Some(i),
{
    let k = choose|k: int| first_at(s, p, k);
    assert(occurs(s, p));
    if k < i {
        assert(!occurs_at(s, p, k));
    }
    if i < k {
        assert(!occurs_at(s, p, i));
    }
}

/// Finds the first position of `p` in `s`.
pub fn find_text(s: &Vec<char>, p: &Vec<char>) -> (r: Option<usize>)
    ensures
        match r {
            Some(i) => find_first(s@, p@) == Some(i as int) && i + p@.len() <= s@.len(),
            None => find_first(s@, p@) is None,
        },
{
    let r = find_from(s, p, 0);
    match r {
        Some(i) => {
            assert(first_at(s@, p@, i as int));
            proof {
                lemma_find_first(s@, p@, i as int);
            }
        },
        None => {},
    }
    r
}

/// The pieces of `s` between the occurrences of `p`.
pub open spec fn pieces_by(s: Seq<char>, p: Seq<char>) -> Seq<Seq<char>>
    decreases s.len(),
{
    match find_first(s, p) {
        Some(i) => if 0 <= i && i + p.len() <= s.len() && p.len() > 0 {
            seq![s.take(i)] + pieces_by(s.skip(i + p.len()), p)
        } else {
            seq![s]
        },
        None => seq![s],
    }
}

/// Splits `s` at every `p`, which is not empty.
pub fn split_text(s: &str, p: &str) -> (r: Vec<String>)
    requires
        p@.len() > 0,
    ensures
        views(r@) == pieces_by(s@, p@),
{
    let pat = chars_of(p);
    let mut rest = chars_of(s);
    let mut out: Vec<String> = Vec::new();
    assert(views(out@) + pieces_by(s@, p@) =~= pieces_by(s@, p@));
    loop
        invariant_except_break
            pat@ == p@,
            p@.len() > 0,
            views(out@) + pieces_by(rest@, p@) == pieces_by(s@, p@),
        ensures
            views(out@) == pieces_by(s@, p@),
        decreases rest@.len(),
    {
        let ghost had = views(out@);
        let ghost r0 = rest@;
        match find_text(&rest, &pat) {
            Some(i) => {
                let piece = text_between(&rest, 0, i);
                let ghost pv = piece@;
                let n = rest.len();
                let mut next: Vec<char> = Vec::new();
                let mut k: usize = i + pat.len();
                while k < n
                    invariant
                        i + pat@.len() <= k <= n,
                        n == rest@.len(),
                        next@ =~= rest@.subrange(i + pat@.len(), k as int),
                    decreases n - k,
                {
                    next.push(rest[k]);
                    k += 1;
                }
                out.push(piece);
                assert(views(out@) =~= had.push(pv));
                assert(pv =~= r0.take(i as int));
                assert(next@ =~= r0.skip(i + p@.len()));
                assert(views(out@) + pieces_by(next@, p@) =~= had + pieces_by(r0, p@));
                rest = next;
            },
            None => {
                let piece = text_of(&rest);
                out.push(piece);
                assert(views(out@) =~= had.push(r0));
                assert(views(out@) =~= had + pieces_by(r0, p@));
                break;
            },
        }
    }
    out
}

/// The text in `s` between the first `open` and the `close` that follows it, without the white
/// space at its ends; empty where there is none.
pub open spec fn between(s: Seq<char>, open: Seq<char>, close: Seq<char>) -> Seq<char> {
    match find_first(s, open) {
        Some(i) => {
            let rest = s.skip(i + open.len());
            match find_first(rest, close) {
                Some(j) => trimmed(rest.take(j)),
                None => Seq::empty(),
            }
        },
        None => Seq::empty(),
    }
}

/// Finds the text between two marks.
pub fn extract_between(haystack: &str, start: &str, end: &str) -> (r: String)
    ensures
        r@ == between(haystack@, start@, end@),
{
    let v = chars_of(haystack);
    let open = chars_of(start);
    let close = chars_of(end);
    match find_text(&v, &open) {
        Some(i) => {
            let n = v.len();
            let rest_text = text_between(&v, i + open.len(), n);
            let rest = chars_of(rest_text.as_str());
            assert(rest@ =~= haystack@.skip(i + start@.len()));
            match find_text(&rest, &close) {
                Some(j) => {
                    let inner = text_between(&rest, 0, j);
                    assert(inner@ =~= rest@.take(j as int));
                    trim(inner.as_str())
                },
                None => String::new(),
            }
        },
        None => String::new(),
    }
}

/// What stands behind the last `c` in `s`, or all of `s`.
pub open spec fn last_piece(s: Seq<char>, c: char) -> Seq<char> {
    pieces(s, c).last()
}

/// Finds what stands behind the last `c`.
pub fn after_last(s: &str, c: char) -> (r: String)
    ensures
        r@ == last_piece(s@, c),
{
    let parts = split(s, c);
    proof {
        lemma_pieces_nonempty(s@, c);
    }
    assert(views(parts@).len() == parts@.len());
    assert(views(parts@).last() == parts@.last()@);
    parts[parts.len() - 1].clone()
}

/// A text has at least one piece.
pub proof fn lemma_pieces_nonempty(s: Seq<char>, c: char)
    ensures
        pieces(s, c).len() > 0,
{
}

// ---------------------------------------------------------------------------
// words
// ---------------------------------------------------------------------------

/// The runs of `s` without white space.
pub open spec fn words(s: Seq<char>) -> Seq<Seq<char>>
    decreases s.len(),
{
    if s.len() == 0 {
        Seq::empty()
    } else if is_white(s.last()) {
        words(s.drop_last())
    } else if s.len() == 1 || is_white(s[s.len() - 2]) {
        words(s.drop_last()).push(seq![s.last()])
    } else {
        let w = words(s.drop_last());
        w.drop_last().push(w.last().push(s.last()))
    }
}

proof fn lemma_words_open(s: Seq<char>)
    requires
        s.len() > 0,
        !is_white(s.last()),
    ensures
        words(s).len() > 0,
    decreases s.len(),
{
    if !(s.len() == 1 || is_white(s[s.len() - 2])) {
        assert(s.drop_last().last() == s[s.len() - 2]);
        lemma_words_open(s.drop_last());
    }
}

/// Splits `s` into its words.
pub fn split_words(s: &str) -> (r: Vec<String>)
    ensures
        views(r@) == words(s@),
{
    let v = chars_of(s);
    let mut out: Vec<String> = Vec::new();
    let mut i: usize = 0;
    let mut open = false;
    assert(views(out@) =~= Seq::empty());
    while i < v.len()
        invariant
            i <= v@.len(),
            v@ == s@,
            open == (i > 0 && !is_white(v@[i - 1])),
            views(out@) == words(v@.take(i as int)),
        decreases v@.len() - i,
    {
        let ghost t = v@.take(i + 1);
        assert(t.drop_last() =~= v@.take(i as int));
        assert(t.last() == v@[i as int]);
        let ghost had = views(out@);
        let c = v[i];
        if CharClass::White.holds(c) {
            open = false;
        } else if open {
            proof {
                assert(v@.take(i as int).last() == v@[i - 1]);
                lemma_words_open(v@.take(i as int));
                assert(t[t.len() - 2] == v@[i - 1]);
            }
            assert(views(out@).len() == out@.len());
            let last = out.len() - 1;
            let mut w = out[last].clone();
            assert(w@ == had.last());
            w.push(c);
            let ghost wv = w@;
            out.pop();
            assert(views(out@) =~= had.drop_last());
            out.push(w);
            assert(views(out@) =~= had.drop_last().push(wv));
        } else {
            assert(i > 0 ==> t[t.len() - 2] == v@[i - 1]);
            let mut w = String::new();
            w.push(c);
            assert(w@ =~= seq![c]);
            out.push(w);
            assert(views(out@) =~= had.push(seq![c]));
            open = true;
        }
        i += 1;
    }
    assert(v@.take(i as int) =~= s@);
    out
}

/// `c` in ASCII upper case.
pub open spec fn upper_char(c: char) -> char {
    if 'a' <= c <= 'z' {
        ((c as u8 - 32) as u8) as char
    } else {
        c
    }
}

/// `s` with its ASCII letters in upper case.
pub open spec fn ascii_upper(s: Seq<char>) -> Seq<char> {
    s.map_values(|c: char| upper_char(c))
}

/// The upper case of a text that is not ASCII, as `str::to_uppercase` gives it.
pub uninterp spec fn full_upper(s: Seq<char>) -> Seq<char>;

/// The Unicode upper case of a text.
pub open spec fn unicode_upper(s: Seq<char>) -> Seq<char> {
    if is_ascii(s) {
        ascii_upper(s)
    } else {
        full_upper(s)
    }
}

/// Calls `str::to_uppercase`. Claims that its result depends on the text alone, and that it is the
/// ASCII upper case where the text is ASCII.
#[verifier::external_body]
pub(crate) fn to_upper(s: &str) -> (r: String)
    ensures
        r@ == (if is_ascii(s@) {
            ascii_upper(s@)
        } else {
            full_upper(s@)
        }),
{
    s.to_uppercase()
}

} // verus!
