//! Text searched and cut by regular expressions.
use vstd::prelude::*;

use crate::archive::opt_text_view;
use crate::text::views;

verus! {

/// The parts of a text that a regular expression leaves between its matches; the whole text
/// where the expression is none.
pub uninterp spec fn between_matches(pattern: Seq<char>, text: Seq<char>) -> Seq<Seq<char>>;

/// Calls `regex::Regex::new` and `split`. Claims that the parts depend on the expression and the
/// text alone, and that there is at least one.
#[verifier::external_body]
pub(crate) fn split_by(pattern: &str, text: &str) -> (r: Vec<String>)
    ensures
        views(r@) == between_matches(pattern@, text@),
        r@.len() >= 1,
{
    match regex::Regex::new(pattern) {
        Ok(re) => re.split(text).map(|s| s.to_string()).collect(),
        Err(_) => vec![text.to_string()],
    }
}

/// What the first group of a regular expression takes of each match in a text, none where it takes
/// no part in the match; no match where the expression is none.
pub uninterp spec fn first_groups(pattern: Seq<char>, text: Seq<char>) -> Seq<Option<Seq<char>>>;

/// The models of optional texts.
pub open spec fn opt_views(v: Seq<Option<String>>) -> Seq<Option<Seq<char>>> {
    v.map_values(|s: Option<String>| opt_text_view(s))
}

/// Calls `regex::Regex::new` and `captures_iter`, and takes the first group of each match. Claims
/// that the texts depend on the expression and the text alone.
#[verifier::external_body]
fn capture_groups(pattern: &str, text: &str) -> (r: Vec<Option<String>>)
    ensures
        opt_views(r@) == first_groups(pattern@, text@),
{
    match regex::Regex::new(pattern) {
        Ok(re) => re.captures_iter(text).map(|c| c.get(1).map(|m| m.as_str().to_string())).collect(),
        Err(_) => Vec::new(),
    }
}

/// A text that is there.
pub open spec fn present() -> spec_fn(Option<Seq<char>>) -> Option<Seq<char>> {
    |s: Option<Seq<char>>| s
}

/// What the first group of a regular expression takes of the matches that it takes part in.
pub open spec fn group_matches(pattern: Seq<char>, text: Seq<char>) -> Seq<Seq<char>> {
    first_groups(pattern, text).filter_map(present())
}

/// Finds [`group_matches`].
pub(crate) fn find_groups(pattern: &str, text: &str) -> (r: Vec<String>)
    ensures
        views(r@) == group_matches(pattern@, text@),
{
    let all = capture_groups(pattern, text);
    let ghost v = opt_views(all@);
    let ghost f = present();
    let mut out: Vec<String> = Vec::new();
    let mut i: usize = 0;
    assert(v.take(0).filter_map(f) =~= Seq::empty());
    assert(views(out@) =~= Seq::empty());
    while i < all.len()
        invariant
            i <= all@.len(),
            v == opt_views(all@),
            f == present(),
            views(out@) == v.take(i as int).filter_map(f),
        decreases all@.len() - i,
    {
        proof {
            v.lemma_filter_map_take_succ(f, i as int);
        }
        let ghost done = views(out@);
        assert(v[i as int] == opt_text_view(all@[i as int]));
        match &all[i] {
            Some(s) => {
                out.push(s.clone());
                assert(views(out@) =~= done + seq![s@]);
            },
            None => {},
        }
        assert(views(out@) =~= v.take(i + 1).filter_map(f));
        i += 1;
    }
    assert(v.take(i as int) =~= v);
    out
}

/// The matches of a regular expression in a text; nothing where the expression is none.
pub uninterp spec fn whole_matches(pattern: Seq<char>, text: Seq<char>) -> Seq<Seq<char>>;

/// Calls `regex::Regex::new` and `find_iter`. Claims that the matches depend on the expression and
/// the text alone.
#[verifier::external_body]
pub(crate) fn find_matches(pattern: &str, text: &str) -> (r: Vec<String>)
    ensures
        views(r@) == whole_matches(pattern@, text@),
{
    match regex::Regex::new(pattern) {
        Ok(re) => re.find_iter(text).map(|m| m.as_str().to_string()).collect(),
        Err(_) => Vec::new(),
    }
}

} // verus!
