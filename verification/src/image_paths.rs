//! The paths of images: relative, with slashes, and inside the directory of images.
use vstd::prelude::*;

use crate::error::{message_detail, AppError};
use crate::text::{
    after_last, ascii_lower, chars_of, first_of, has_text, join, joined, last_piece,
    lemma_first_of, lemma_pieces_nonempty, pieces, replace_char, replaced, same, skip_front, split,
    text_between, to_ascii_lower, trim, trim_front, trimmed, views, CharClass,
};

verus! {

/// The texts that are not empty.
pub open spec fn filled() -> spec_fn(Seq<char>) -> bool {
    |p: Seq<char>| p.len() > 0
}

/// The segments of a path, with backslashes read as slashes.
pub open spec fn segments(path: Seq<char>) -> Seq<Seq<char>> {
    pieces(
        skip_front(replaced(trimmed(path), '\\', "/"@), CharClass::Just('/')),
        '/',
    ).filter(filled())
}

/// Whether segments lead down only.
pub open spec fn leads_down(parts: Seq<Seq<char>>) -> bool {
    parts.len() > 0 && !parts.contains("."@) && !parts.contains(".."@)
}

/// The path of an image in its normalized form; none where it is empty or leads up.
pub open spec fn safe_path(path: Seq<char>) -> Option<Seq<char>> {
    if leads_down(segments(path)) {
        Some(joined(segments(path), "/"@))
    } else {
        None
    }
}

fn segment_list(path: &str) -> (r: Vec<String>)
    ensures
        views(r@) == segments(path@),
{
    let value = replace_char(trim(path).as_str(), '\\', "/");
    let all = split(trim_front(value.as_str(), CharClass::Just('/')).as_str(), '/');
    let ghost v = views(all@);
    let ghost keep = filled();
    let mut out: Vec<String> = Vec::new();
    let mut i: usize = 0;
    proof {
        reveal(Seq::filter);
        assert(views(out@) =~= v.take(0).filter(keep));
    }
    while i < all.len()
        invariant
            i <= all@.len(),
            v == views(all@),
            keep == filled(),
            views(out@) == v.take(i as int).filter(keep),
        decreases all@.len() - i,
    {
        let ghost done = views(out@);
        assert(v.take(i + 1).drop_last() =~= v.take(i as int));
        assert(v.take(i + 1).filter(keep) == if keep(v[i as int]) {
            done.push(v[i as int])
        } else {
            done
        }) by {
            reveal(Seq::filter);
        }
        if !all[i].as_str().is_empty() {
            out.push(all[i].clone());
            assert(views(out@) =~= done.push(v[i as int]));
        }
        i += 1;
    }
    assert(v.take(i as int) =~= v);
    out
}

/// Normalizes the path of an image; one that is empty or leads up is not found.
pub fn safe_relative_path(path: &str) -> (r: Result<String, AppError>)
    ensures
        match safe_path(path@) {
            Some(s) => r matches Ok(p) && p@ == s,
            None => r matches Err(e) && e.is_plain(404, message_detail("image not found"@)),
        },
{
    let parts = segment_list(path);
    assert(views(parts@).len() == parts@.len());
    if parts.len() == 0 || has_text(&parts, ".") || has_text(&parts, "..") {
        return Err(AppError::not_found("image not found"));
    }
    Ok(join(&parts, "/"))
}

/// The suffix of a file name, in lower case and without its point.
pub open spec fn suffix(name: Seq<char>) -> Seq<char> {
    let file = last_piece(name, '/');
    if pieces(file, '.').len() > 1 {
        ascii_lower(last_piece(file, '.'))
    } else {
        Seq::empty()
    }
}

/// Finds the suffix of a file name.
pub fn suffix_lower(name: &str) -> (r: String)
    ensures
        r@ == suffix(name@),
{
    let file = after_last(name, '/');
    let parts = split(file.as_str(), '.');
    proof {
        lemma_pieces_nonempty(file@, '.');
    }
    assert(views(parts@).len() == parts@.len());
    if parts.len() > 1 {
        assert(views(parts@).last() == parts@.last()@);
        to_ascii_lower(parts[parts.len() - 1].as_str())
    } else {
        String::new()
    }
}

/// Whether a suffix is that of an image.
pub open spec fn image_suffix(s: Seq<char>) -> bool {
    s == "png"@ || s == "jpg"@ || s == "jpeg"@ || s == "webp"@
}

/// Whether a path is that of an image.
pub open spec fn image_path(path: Seq<char>) -> bool {
    match safe_path(path) {
        Some(s) => image_suffix(suffix(s)),
        None => false,
    }
}

/// Decides [`image_path`].
pub fn is_image_rel(path: &str) -> (r: bool)
    ensures
        r == image_path(path@),
{
    match safe_relative_path(path) {
        Ok(safe) => {
            let ext = suffix_lower(safe.as_str());
            let e = ext.as_str();
            same(e, "png") || same(e, "jpg") || same(e, "jpeg") || same(e, "webp")
        },
        Err(_) => false,
    }
}

/// The last segment of a path.
pub fn file_name(rel: &str) -> (r: String)
    ensures
        r@ == last_piece(rel@, '/'),
{
    after_last(rel, '/')
}

/// The first three segments of a path, with hyphens between them: the day of an image.
pub open spec fn day_prefix(rel: Seq<char>) -> Seq<char> {
    let p = pieces(rel, '/');
    joined(
        p.take(
            if p.len() < 3 {
                p.len() as int
            } else {
                3
            },
        ),
        "-"@,
    )
}

/// The day of an image, by its path.
pub fn date_prefix(rel: &str) -> (r: String)
    ensures
        r@ == day_prefix(rel@),
{
    let mut parts = split(rel, '/');
    let ghost p = views(parts@);
    if parts.len() > 3 {
        parts.truncate(3);
        assert(views(parts@) =~= p.take(3));
    } else {
        assert(p.take(p.len() as int) =~= p);
    }
    join(&parts, "-")
}

/// The last position of `c` in `s`.
pub open spec fn last_index(s: Seq<char>, c: char) -> Option<int>
    decreases s.len(),
{
    if s.len() == 0 {
        None
    } else if s.last() == c {
        Some(s.len() - 1)
    } else {
        last_index(s.drop_last(), c)
    }
}

/// A file name, cut before its last point; a point at its start does not count.
pub open spec fn stem_suffix(name: Seq<char>) -> (Seq<char>, Seq<char>) {
    match last_index(name, '.') {
        Some(i) => if i > 0 {
            (name.take(i), name.skip(i))
        } else {
            (name, Seq::empty())
        },
        None => (name, Seq::empty()),
    }
}

fn find_last(v: &Vec<char>, c: char) -> (r: Option<usize>)
    ensures
        match r {
            Some(i) => last_index(v@, c) == Some(i as int) && i < v@.len(),
            None => last_index(v@, c) is None,
        },
{
    let mut i: usize = v.len();
    assert(v@.take(v@.len() as int) =~= v@);
    while i > 0
        invariant
            i <= v@.len(),
            last_index(v@, c) == last_index(v@.take(i as int), c),
        decreases i,
    {
        assert(v@.take(i as int).drop_last() =~= v@.take(i - 1));
        if v[i - 1] == c {
            return Some(i - 1);
        }
        i -= 1;
    }
    None
}

/// Cuts a file name before its last point.
pub fn split_stem_suffix(name: &str) -> (r: (String, String))
    ensures
        (r.0@, r.1@) == stem_suffix(name@),
{
    let v = chars_of(name);
    match find_last(&v, '.') {
        Some(i) => {
            if i > 0 {
                let a = text_between(&v, 0, i);
                let b = text_between(&v, i, v.len());
                assert(a@ =~= name@.take(i as int));
                assert(b@ =~= name@.skip(i as int));
                (a, b)
            } else {
                (name.to_owned(), String::new())
            }
        },
        None => (name.to_owned(), String::new()),
    }
}

/// The type of content that a file name stands for.
pub open spec fn media_of(name: Seq<char>) -> Seq<char> {
    let ext = if pieces(name, '.').len() > 1 {
        ascii_lower(last_piece(name, '.'))
    } else {
        Seq::empty()
    };
    if ext == "jpg"@ || ext == "jpeg"@ {
        "image/jpeg"@
    } else if ext == "webp"@ {
        "image/webp"@
    } else if ext == "gif"@ {
        "image/gif"@
    } else {
        "image/png"@
    }
}

/// The type of content that a file name stands for.
pub fn content_type_for(name: &str) -> (r: String)
    ensures
        r@ == media_of(name@),
{
    let parts = split(name, '.');
    proof {
        lemma_pieces_nonempty(name@, '.');
    }
    assert(views(parts@).len() == parts@.len());
    let ext = if parts.len() > 1 {
        assert(views(parts@).last() == parts@.last()@);
        to_ascii_lower(parts[parts.len() - 1].as_str())
    } else {
        String::new()
    };
    let e = ext.as_str();
    if same(e, "jpg") || same(e, "jpeg") {
        "image/jpeg".to_owned()
    } else if same(e, "webp") {
        "image/webp".to_owned()
    } else if same(e, "gif") {
        "image/gif".to_owned()
    } else {
        "image/png".to_owned()
    }
}

// ---------------------------------------------------------------------------
// laws
// ---------------------------------------------------------------------------

/// Pieces that were joined are found again.
pub proof fn lemma_pieces_joined(parts: Seq<Seq<char>>, c: char)
    requires
        parts.len() > 0,
        forall|i: int| 0 <= i < parts.len() ==> !(#[trigger] parts[i]).contains(c),
    ensures
        pieces(joined(parts, seq![c]), c) == parts,
    decreases parts.len(),
{
    if parts.len() == 1 {
        let s = parts[0];
        lemma_first_of(s, c);
        if first_of(s, c) < s.len() {
            assert(s.contains(s[first_of(s, c)]));
        }
        assert(pieces(s, c) =~= parts);
    } else {
        let init = parts.drop_last();
        assert forall|i: int| 0 <= i < init.len() implies !(#[trigger] init[i]).contains(c) by {
            assert(init[i] == parts[i]);
        }
        lemma_pieces_joined(init, c);
        let head = joined(init, seq![c]);
        lemma_pieces_append(head, parts.last(), c);
        assert(parts[parts.len() - 1] == parts.last());
        assert(head + seq![c] + parts.last() =~= joined(parts, seq![c]));
        assert(init.push(parts.last()) =~= parts);
    }
}

/// A text with a mark and another text behind it has the pieces of the first, and the second.
pub proof fn lemma_pieces_append(head: Seq<char>, tail: Seq<char>, c: char)
    requires
        !tail.contains(c),
    ensures
        pieces(head + seq![c] + tail, c) == pieces(head, c).push(tail),
    decreases head.len(),
{
    let s = head + seq![c] + tail;
    lemma_first_of(s, c);
    lemma_first_of(head, c);
    let i = first_of(head, c);
    assert(s[head.len() as int] == c);
    assert(forall|k: int| 0 <= k < head.len() ==> s[k] == head[k]);
    if i < head.len() {
        let j = first_of(s, c);
        assert(s[i] == c);
        assert(j <= i) by {
            if j > i {
                assert(s[i] != c);
            }
        }
        assert(i <= j) by {
            if j < i {
                assert(head[j] != c);
                assert(s[j] == c);
            }
        }
        let rest = head.skip(i + 1);
        assert(s.skip(i + 1) =~= rest + seq![c] + tail);
        assert(s.take(i) =~= head.take(i));
        lemma_pieces_append(rest, tail, c);
        assert(pieces(s, c) =~= pieces(head, c).push(tail));
    } else {
        let j = first_of(s, c);
        assert(j == head.len()) by {
            if j < head.len() {
                assert(s[j] == c);
                assert(head[j] != c);
            }
            if j > head.len() {
                assert(s[head.len() as int] != c);
            }
        }
        assert(s.take(j) =~= head);
        assert(s.skip(j + 1) =~= tail);
        lemma_first_of(tail, c);
        if first_of(tail, c) < tail.len() {
            assert(tail.contains(tail[first_of(tail, c)]));
        }
        assert(pieces(tail, c) =~= seq![tail]);
        assert(pieces(head, c) =~= seq![head]);
        assert(pieces(s, c) =~= pieces(head, c).push(tail));
    }
}

/// No piece of a text holds what it was cut at.
pub proof fn lemma_pieces_clear(s: Seq<char>, c: char)
    ensures
        forall|i: int| 0 <= i < pieces(s, c).len() ==> !(#[trigger] pieces(s, c)[i]).contains(c),
    decreases s.len(),
{
    lemma_first_of(s, c);
    let i = first_of(s, c);
    if i < s.len() {
        lemma_pieces_clear(s.skip(i + 1), c);
        let rest = pieces(s.skip(i + 1), c);
        assert forall|k: int| 0 <= k < pieces(s, c).len() implies !(
        #[trigger] pieces(s, c)[k]).contains(c) by {
            if k > 0 {
                assert(pieces(s, c)[k] == rest[k - 1]);
            } else {
                assert(pieces(s, c)[0] == s.take(i));
                assert forall|m: int| 0 <= m < i implies s.take(i)[m] != c by {
                    assert(s[m] != c);
                }
            }
        }
    } else {
        assert(pieces(s, c) =~= seq![s]);
    }
}

proof fn lemma_filter_clear(v: Seq<Seq<char>>, c: char)
    requires
        forall|i: int| 0 <= i < v.len() ==> !(#[trigger] v[i]).contains(c),
    ensures
        forall|i: int|
            0 <= i < v.filter(filled()).len() ==> !(#[trigger] v.filter(filled())[i]).contains(c)
                && v.filter(filled())[i].len() > 0,
    decreases v.len(),
{
    reveal(Seq::filter);
    if v.len() > 0 {
        let init = v.drop_last();
        assert forall|i: int| 0 <= i < init.len() implies !(#[trigger] init[i]).contains(c) by {
            assert(init[i] == v[i]);
        }
        lemma_filter_clear(init, c);
        assert(v[v.len() - 1] == v.last());
        let p = init.filter(filled());
        let q = v.filter(filled());
        assert(q == if v.last().len() > 0 {
            p.push(v.last())
        } else {
            p
        });
        assert forall|i: int| 0 <= i < q.len() implies !(#[trigger] q[i]).contains(c)
            && q[i].len() > 0 by {
            if i < p.len() {
                assert(q[i] == p[i]);
            }
        }
    } else {
        assert(v.filter(filled()) =~= Seq::empty());
    }
}

/// The normalized path of an image has only segments that lead down: none is empty, `.` or `..`.
pub proof fn law_safe_path_leads_down(path: Seq<char>, i: int)
    requires
        safe_path(path) is Some,
        0 <= i < pieces(safe_path(path)->0, '/').len(),
    ensures
        pieces(safe_path(path)->0, '/')[i].len() > 0,
        pieces(safe_path(path)->0, '/')[i] != "."@,
        pieces(safe_path(path)->0, '/')[i] != ".."@,
        pieces(safe_path(path)->0, '/') == segments(path),
{
    let base = skip_front(replaced(trimmed(path), '\\', "/"@), CharClass::Just('/'));
    lemma_pieces_clear(base, '/');
    lemma_filter_clear(pieces(base, '/'), '/');
    reveal_strlit("/");
    assert("/"@ =~= seq!['/']);
    lemma_pieces_joined(segments(path), '/');
    assert(segments(path).contains(segments(path)[i]));
}

} // verus!
