//! Records under their tokens, in the order in which the tokens came.
use vstd::prelude::*;

use crate::assoc::{drop_entry, lookup, put_entry};
use crate::value::{Json, JsonView};

verus! {

/// The map that keeps records in order.
#[verifier::external_type_specification]
#[verifier::external_body]
#[verifier::reject_recursive_types(K)]
#[verifier::reject_recursive_types(V)]
#[verifier::reject_recursive_types(S)]
pub struct ExIndexMap<K, V, S>(indexmap::IndexMap<K, V, S>);

/// The tokens and records of a map, in its order.
pub uninterp spec fn entries(m: indexmap::IndexMap<String, Json>) -> Seq<(Seq<char>, JsonView)>;

/// Calls `IndexMap::new`: a map without entries.
#[verifier::external_body]
pub(crate) fn no_records() -> (r: indexmap::IndexMap<String, Json>)
    ensures
        entries(r) == Seq::<(Seq<char>, JsonView)>::empty(),
{
    indexmap::IndexMap::new()
}

/// Calls `IndexMap::len`: the number of entries.
#[verifier::external_body]
pub(crate) fn record_count(m: &indexmap::IndexMap<String, Json>) -> (r: usize)
    ensures
        r == entries(*m).len(),
{
    m.len()
}

/// Calls `IndexMap::get`: the record under a token.
#[verifier::external_body]
pub(crate) fn record_of<'a>(m: &'a indexmap::IndexMap<String, Json>, token: &str) -> (r: Option<
    &'a Json,
>)
    ensures
        match r {
            Some(v) => lookup(entries(*m), token@) == Some(v@),
            None => lookup(entries(*m), token@) is None,
        },
{
    m.get(token)
}

/// Calls `IndexMap::get_index`: the entry at a position.
#[verifier::external_body]
pub(crate) fn record_at(m: &indexmap::IndexMap<String, Json>, i: usize) -> (r: Option<
    (&String, &Json),
>)
    ensures
        match r {
            Some(e) => i < entries(*m).len() && entries(*m)[i as int] == (e.0@, e.1@),
            None => i >= entries(*m).len(),
        },
{
    m.get_index(i)
}

/// Calls `IndexMap::insert`: a token that is there keeps its place and gets the new record, a
/// new one goes to the end.
#[verifier::external_body]
pub(crate) fn put_record(m: &mut indexmap::IndexMap<String, Json>, token: &str, record: Json)
    ensures
        entries(*final(m)) == put_entry(entries(*old(m)), token@, record@),
{
    m.insert(token.to_string(), record);
}

/// Calls `IndexMap::shift_remove`: takes a token's entry out, leaves the others in order, and
/// says whether it was there.
#[verifier::external_body]
pub(crate) fn take_record(m: &mut indexmap::IndexMap<String, Json>, token: &str) -> (r: bool)
    ensures
        entries(*final(m)) == drop_entry(entries(*old(m)), token@),
        r == (lookup(entries(*old(m)), token@) is Some),
{
    m.shift_remove(token).is_some()
}

} // verus!
