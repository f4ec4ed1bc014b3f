//! What the conversation about an image is read for, and what is sent to have one made.
use vstd::prelude::*;

use crate::engine::is_policy_refusal;
use crate::image_tags::with_new;
use crate::lists::{lemma_filtered_has, lemma_mapped_from, lemma_mapped_has, lemma_sorted_has};
use crate::pattern::{group_matches, whole_matches};
use crate::picture::{
    asset_part, attachment, download_address, download_paths, encoded_part, field_holds_pointer,
    first_refusal, gathered_files, gathered_sediments, holds_pointer, ids_in, image_content,
    image_metadata, image_request, item_holds_pointer, last_fault, message_refusal, node_record,
    nodes_of, of_conversation, real_file, searched, task_fault, time_order, tool_records,
    user_message, with_field_ids, with_ids, with_item_ids, with_string_ids, with_unique, RecordView,
};
use crate::text::{begins, occurs, trimmed, unicode_lower};
use crate::value::{empty_object, JsonView};

verus! {

// ---------------------------------------------------------------------------
// what a value holds, however deep
// ---------------------------------------------------------------------------

/// Whether `x` is `v`, or stands somewhere within it.
pub open spec fn within(x: JsonView, v: JsonView) -> bool
    decreases v,
{
    x == v || match v {
        JsonView::Arr(items) => within_items(x, items),
        JsonView::Obj(o) => within_fields(x, o),
        _ => false,
    }
}

/// Whether `x` stands somewhere within the items of an array.
pub open spec fn within_items(x: JsonView, items: Seq<JsonView>) -> bool
    decreases items,
{
    items.len() > 0 && (within_items(x, items.drop_last()) || within(x, items.last()))
}

/// Whether `x` stands somewhere within the fields of an object.
pub open spec fn within_fields(x: JsonView, o: Seq<(Seq<char>, JsonView)>) -> bool
    decreases o,
{
    o.len() > 0 && (within_fields(x, o.drop_last()) || within(x, o.last().1))
}

/// Whether a text names a file: behind `file-service://`, or as such an id itself.
pub open spec fn names_file(s: Seq<char>, id: Seq<char>) -> bool {
    group_matches("file-service://([A-Za-z0-9_-]+)"@, s).contains(id) || whole_matches(
        "\\bfile_00000000[a-f0-9]{24}\\b"@,
        s,
    ).contains(id)
}

/// Whether a text names a sediment: behind `sediment://`.
pub open spec fn names_sediment(s: Seq<char>, id: Seq<char>) -> bool {
    group_matches("sediment://([A-Za-z0-9_-]+)"@, s).contains(id)
}

/// What is put to a list is in it after, and what was in it stays; nothing else comes in.
pub proof fn lemma_unique_from(s: Seq<Seq<char>>, more: Seq<Seq<char>>, id: Seq<char>)
    ensures
        with_unique(s, more).contains(id) <==> s.contains(id) || (id.len() > 0 && more.contains(id)),
    decreases more.len(),
{
    if more.len() > 0 {
        let init = more.drop_last();
        lemma_unique_from(s, init, id);
        let t = with_unique(s, init);
        let u = with_unique(s, more);
        if u.contains(id) {
            let k = u.index_of(id);
            if k < t.len() {
                assert(t[k] == id);
                if init.contains(id) {
                    let j = init.index_of(id);
                    assert(more[j] == id);
                }
            } else {
                assert(more[more.len() - 1] == id);
            }
        }
        if s.contains(id) || (id.len() > 0 && more.contains(id)) {
            if t.contains(id) {
                let k = t.index_of(id);
                assert(u[k] == id);
            } else {
                let j = more.index_of(id);
                if j < init.len() {
                    assert(init[j] == id);
                }
                assert(u[t.len() as int] == id);
            }
        }
    }
}

proof fn lemma_string_ids(ids: (Seq<Seq<char>>, Seq<Seq<char>>), s: Seq<char>, id: Seq<char>)
    ensures
        with_string_ids(ids, s).0.contains(id) <==> ids.0.contains(id) || (id.len() > 0
            && names_file(s, id)),
        with_string_ids(ids, s).1.contains(id) <==> ids.1.contains(id) || (id.len() > 0
            && names_sediment(s, id)),
{
    let f = group_matches("file-service://([A-Za-z0-9_-]+)"@, s);
    lemma_unique_from(ids.0, f, id);
    lemma_unique_from(
        with_unique(ids.0, f),
        whole_matches("\\bfile_00000000[a-f0-9]{24}\\b"@, s),
        id,
    );
    lemma_unique_from(ids.1, group_matches("sediment://([A-Za-z0-9_-]+)"@, s), id);
}

/// Whether a value names a file or a sediment in some text within it.
pub open spec fn names_within(v: JsonView, id: Seq<char>, file: bool) -> bool {
    exists|s: Seq<char>|
        #[trigger] within(JsonView::Str(s), v) && (if file {
            names_file(s, id)
        } else {
            names_sediment(s, id)
        })
}

proof fn lemma_ids_within(ids: (Seq<Seq<char>>, Seq<Seq<char>>), v: JsonView, id: Seq<char>)
    ensures
        with_ids(ids, v).0.contains(id) <==> ids.0.contains(id) || (id.len() > 0 && names_within(
            v,
            id,
            true,
        )),
        with_ids(ids, v).1.contains(id) <==> ids.1.contains(id) || (id.len() > 0 && names_within(
            v,
            id,
            false,
        )),
    decreases v,
{
    match v {
        JsonView::Str(s) => {
            lemma_string_ids(ids, s, id);
            assert(within(JsonView::Str(s), v));
            assert forall|t: Seq<char>| #[trigger] within(JsonView::Str(t), v) implies t == s by {}
        },
        JsonView::Arr(items) => {
            lemma_ids_within_items(ids, items, id);
            assert forall|t: Seq<char>| #[trigger]
                within(JsonView::Str(t), v) == within_items(JsonView::Str(t), items) by {}
            if exists|s: Seq<char>| #[trigger]
                within_items(JsonView::Str(s), items) && names_file(s, id) {
                let s = choose|s: Seq<char>| #[trigger]
                    within_items(JsonView::Str(s), items) && names_file(s, id);
                assert(within(JsonView::Str(s), v));
            }
            if exists|s: Seq<char>| #[trigger]
                within_items(JsonView::Str(s), items) && names_sediment(s, id) {
                let s = choose|s: Seq<char>| #[trigger]
                    within_items(JsonView::Str(s), items) && names_sediment(s, id);
                assert(within(JsonView::Str(s), v));
            }
        },
        JsonView::Obj(o) => {
            lemma_ids_within_fields(ids, o, id);
            assert forall|t: Seq<char>| #[trigger]
                within(JsonView::Str(t), v) == within_fields(JsonView::Str(t), o) by {}
            if exists|s: Seq<char>| #[trigger]
                within_fields(JsonView::Str(s), o) && names_file(s, id) {
                let s = choose|s: Seq<char>| #[trigger]
                    within_fields(JsonView::Str(s), o) && names_file(s, id);
                assert(within(JsonView::Str(s), v));
            }
            if exists|s: Seq<char>| #[trigger]
                within_fields(JsonView::Str(s), o) && names_sediment(s, id) {
                let s = choose|s: Seq<char>| #[trigger]
                    within_fields(JsonView::Str(s), o) && names_sediment(s, id);
                assert(within(JsonView::Str(s), v));
            }
        },
        _ => {
            assert forall|t: Seq<char>| !(#[trigger] within(JsonView::Str(t), v)) by {}
        },
    }
}

proof fn lemma_ids_within_items(
    ids: (Seq<Seq<char>>, Seq<Seq<char>>),
    items: Seq<JsonView>,
    id: Seq<char>,
)
    ensures
        with_item_ids(ids, items).0.contains(id) <==> ids.0.contains(id) || (id.len() > 0
            && exists|s: Seq<char>| #[trigger]
            within_items(JsonView::Str(s), items) && names_file(s, id)),
        with_item_ids(ids, items).1.contains(id) <==> ids.1.contains(id) || (id.len() > 0
            && exists|s: Seq<char>| #[trigger]
            within_items(JsonView::Str(s), items) && names_sediment(s, id)),
    decreases items,
{
    if items.len() > 0 {
        let init = items.drop_last();
        lemma_ids_within_items(ids, init, id);
        lemma_ids_within(with_item_ids(ids, init), items.last(), id);
        assert forall|t: Seq<char>| #[trigger]
            within_items(JsonView::Str(t), items) == (within_items(JsonView::Str(t), init)
                || within(JsonView::Str(t), items.last())) by {}
        if exists|s: Seq<char>| #[trigger]
            within_items(JsonView::Str(s), init) && names_file(s, id) {
            let s = choose|s: Seq<char>| #[trigger]
                within_items(JsonView::Str(s), init) && names_file(s, id);
            assert(within_items(JsonView::Str(s), items));
        }
        if exists|s: Seq<char>| #[trigger]
            within_items(JsonView::Str(s), init) && names_sediment(s, id) {
            let s = choose|s: Seq<char>| #[trigger]
                within_items(JsonView::Str(s), init) && names_sediment(s, id);
            assert(within_items(JsonView::Str(s), items));
        }
        if names_within(items.last(), id, true) {
            let s = choose|s: Seq<char>| #[trigger]
                within(JsonView::Str(s), items.last()) && names_file(s, id);
            assert(within_items(JsonView::Str(s), items));
        }
        if names_within(items.last(), id, false) {
            let s = choose|s: Seq<char>| #[trigger]
                within(JsonView::Str(s), items.last()) && names_sediment(s, id);
            assert(within_items(JsonView::Str(s), items));
        }
    }
}

proof fn lemma_ids_within_fields(
    ids: (Seq<Seq<char>>, Seq<Seq<char>>),
    o: Seq<(Seq<char>, JsonView)>,
    id: Seq<char>,
)
    ensures
        with_field_ids(ids, o).0.contains(id) <==> ids.0.contains(id) || (id.len() > 0
            && exists|s: Seq<char>| #[trigger]
            within_fields(JsonView::Str(s), o) && names_file(s, id)),
        with_field_ids(ids, o).1.contains(id) <==> ids.1.contains(id) || (id.len() > 0
            && exists|s: Seq<char>| #[trigger]
            within_fields(JsonView::Str(s), o) && names_sediment(s, id)),
    decreases o,
{
    if o.len() > 0 {
        let init = o.drop_last();
        lemma_ids_within_fields(ids, init, id);
        lemma_ids_within(with_field_ids(ids, init), o.last().1, id);
        assert forall|t: Seq<char>| #[trigger]
            within_fields(JsonView::Str(t), o) == (within_fields(JsonView::Str(t), init)
                || within(JsonView::Str(t), o.last().1)) by {}
        if exists|s: Seq<char>| #[trigger]
            within_fields(JsonView::Str(s), init) && names_file(s, id) {
            let s = choose|s: Seq<char>| #[trigger]
                within_fields(JsonView::Str(s), init) && names_file(s, id);
            assert(within_fields(JsonView::Str(s), o));
        }
        if exists|s: Seq<char>| #[trigger]
            within_fields(JsonView::Str(s), init) && names_sediment(s, id) {
            let s = choose|s: Seq<char>| #[trigger]
                within_fields(JsonView::Str(s), init) && names_sediment(s, id);
            assert(within_fields(JsonView::Str(s), o));
        }
        if names_within(o.last().1, id, true) {
            let s = choose|s: Seq<char>| #[trigger]
                within(JsonView::Str(s), o.last().1) && names_file(s, id);
            assert(within_fields(JsonView::Str(s), o));
        }
        if names_within(o.last().1, id, false) {
            let s = choose|s: Seq<char>| #[trigger]
                within(JsonView::Str(s), o.last().1) && names_sediment(s, id);
            assert(within_fields(JsonView::Str(s), o));
        }
    }
}

/// The ids that are found in a value are those that some text within it names, however deep it
/// stands, and no others.
pub proof fn law_ids_found_anywhere(v: JsonView, id: Seq<char>)
    requires
        id.len() > 0,
    ensures
        ids_in(v).0.contains(id) <==> exists|s: Seq<char>| #[trigger]
            within(JsonView::Str(s), v) && (group_matches("file-service://([A-Za-z0-9_-]+)"@, s).contains(
                id,
            ) || whole_matches("\\bfile_00000000[a-f0-9]{24}\\b"@, s).contains(id)),
        ids_in(v).1.contains(id) <==> exists|s: Seq<char>| #[trigger]
            within(JsonView::Str(s), v) && group_matches("sediment://([A-Za-z0-9_-]+)"@, s).contains(
                id,
            ),
{
    lemma_ids_within((Seq::empty(), Seq::empty()), v, id);
    if names_within(v, id, true) {
        let s = choose|s: Seq<char>| #[trigger]
            within(JsonView::Str(s), v) && names_file(s, id);
        assert(within(JsonView::Str(s), v));
    }
    if names_within(v, id, false) {
        let s = choose|s: Seq<char>| #[trigger]
            within(JsonView::Str(s), v) && names_sediment(s, id);
        assert(within(JsonView::Str(s), v));
    }
}

/// Whether an object points to an image.
pub open spec fn points(x: JsonView) -> bool {
    x is Obj && (x.get("content_type"@) == Some(JsonView::Str("image_asset_pointer"@)) || begins(
        x.str_at("asset_pointer"@),
        "file-service://"@,
    ) || begins(x.str_at("asset_pointer"@), "sediment://"@))
}

/// A value holds a pointer to an image exactly where some object within it is one.
pub proof fn law_pointer_found_anywhere(v: JsonView)
    ensures
        holds_pointer(v) <==> exists|x: JsonView| #[trigger] within(x, v) && points(x),
    decreases v,
{
    match v {
        JsonView::Arr(items) => {
            lemma_pointer_in_items(items);
            assert forall|x: JsonView| points(x) implies #[trigger] within(x, v) == within_items(
                x,
                items,
            ) by {}
            if exists|x: JsonView| #[trigger] within_items(x, items) && points(x) {
                let x = choose|x: JsonView| #[trigger] within_items(x, items) && points(x);
                assert(within(x, v));
            }
        },
        JsonView::Obj(o) => {
            lemma_pointer_in_fields(o);
            assert(within(v, v));
            if exists|x: JsonView| #[trigger] within_fields(x, o) && points(x) {
                let x = choose|x: JsonView| #[trigger] within_fields(x, o) && points(x);
                assert(within(x, v));
            }
            if exists|x: JsonView| #[trigger] within(x, v) && points(x) {
                let x = choose|x: JsonView| #[trigger] within(x, v) && points(x);
                assert(x == v || within_fields(x, o));
            }
        },
        _ => {
            assert forall|x: JsonView| #[trigger] within(x, v) implies !points(x) by {}
        },
    }
}

proof fn lemma_pointer_in_items(items: Seq<JsonView>)
    ensures
        item_holds_pointer(items) <==> exists|x: JsonView| #[trigger]
            within_items(x, items) && points(x),
    decreases items,
{
    if items.len() > 0 {
        let init = items.drop_last();
        lemma_pointer_in_items(init);
        law_pointer_found_anywhere(items.last());
        assert forall|x: JsonView| #[trigger]
            within_items(x, items) == (within_items(x, init) || within(x, items.last())) by {}
        if item_holds_pointer(init) {
            let x = choose|x: JsonView| #[trigger] within_items(x, init) && points(x);
            assert(within_items(x, items));
        }
        if holds_pointer(items.last()) {
            let x = choose|x: JsonView| #[trigger] within(x, items.last()) && points(x);
            assert(within_items(x, items));
        }
    }
}

proof fn lemma_pointer_in_fields(o: Seq<(Seq<char>, JsonView)>)
    ensures
        field_holds_pointer(o) <==> exists|x: JsonView| #[trigger]
            within_fields(x, o) && points(x),
    decreases o,
{
    if o.len() > 0 {
        let init = o.drop_last();
        lemma_pointer_in_fields(init);
        law_pointer_found_anywhere(o.last().1);
        assert forall|x: JsonView| #[trigger]
            within_fields(x, o) == (within_fields(x, init) || within(x, o.last().1)) by {}
        if field_holds_pointer(init) {
            let x = choose|x: JsonView| #[trigger] within_fields(x, init) && points(x);
            assert(within_fields(x, o));
        }
        if holds_pointer(o.last().1) {
            let x = choose|x: JsonView| #[trigger] within(x, o.last().1) && points(x);
            assert(within_fields(x, o));
        }
    }
}

// ---------------------------------------------------------------------------
// records of a conversation
// ---------------------------------------------------------------------------

/// Whether something stands within the content or the metadata of a message.
pub open spec fn in_message(x: JsonView, m: JsonView) -> bool {
    within(x, m.at("content"@)) || within(x, m.at("metadata"@))
}

/// Who wrote a message, without white space at the ends and in lower case.
pub open spec fn writer(m: JsonView) -> Seq<char> {
    unicode_lower(trimmed(m.at("author"@).str_at("role"@)))
}

proof fn lemma_searched(m: JsonView, s: Seq<char>)
    ensures
        within(JsonView::Str(s), searched(m)) <==> in_message(JsonView::Str(s), m),
{
    let x = JsonView::Str(s);
    let o = searched(m)->Obj_0;
    reveal_strlit("content");
    reveal_strlit("metadata");
    assert("content"@.len() == 7);
    assert("metadata"@.len() == 8);
    assert(o =~= seq![("content"@, m.at("content"@)), ("metadata"@, m.at("metadata"@))]) by {
        let first = seq![("content"@, m.at("content"@))];
        assert(empty_object().put("content"@, m.at("content"@))->Obj_0 =~= first);
        reveal_with_fuel(crate::assoc::put_entry, 3);
        assert(first.drop_first() =~= Seq::empty());
    }
    let c = o.drop_last();
    assert(c =~= seq![("content"@, m.at("content"@))]);
    assert(c.drop_last() =~= Seq::empty());
    assert(!within_fields(x, c.drop_last()));
    assert(within_fields(x, c) == within(x, c.last().1));
    assert(within_fields(x, o) == (within_fields(x, c) || within(x, o.last().1)));
    assert(searched(m) == JsonView::Obj(o));
    assert(within(x, JsonView::Obj(o)) == within_fields(x, o));
}

/// The record of one message of a conversation says which message it is, when it was written, and
/// which ids it names.
pub open spec fn record_says(r: RecordView, name: Seq<char>, m: JsonView) -> bool {
    &&& r.message_id == name
    &&& m.get("create_time"@) is Some ==> r.create_time == m.at("create_time"@)
    &&& forall|s: Seq<char>, id: Seq<char>| #[trigger]
        in_message(JsonView::Str(s), m) && #[trigger] names_file(s, id) && id.len() > 0
            ==> r.file_ids.contains(id)
    &&& forall|s: Seq<char>, id: Seq<char>| #[trigger]
        in_message(JsonView::Str(s), m) && #[trigger] names_sediment(s, id) && id.len() > 0
            ==> r.sediment_ids.contains(id)
    &&& forall|id: Seq<char>| #[trigger]
        r.file_ids.contains(id) ==> exists|s: Seq<char>| #[trigger]
            in_message(JsonView::Str(s), m) && names_file(s, id)
    &&& forall|id: Seq<char>| #[trigger]
        r.sediment_ids.contains(id) ==> exists|s: Seq<char>| #[trigger]
            in_message(JsonView::Str(s), m) && names_sediment(s, id)
}

proof fn lemma_record_says(name: Seq<char>, node: JsonView)
    requires
        node_record()((name, node)) is Some,
    ensures
        record_says(node_record()((name, node))->0, name, node.at("message"@)),
{
    let m = node.at("message"@);
    let r = node_record()((name, node))->0;
    let none: (Seq<Seq<char>>, Seq<Seq<char>>) = (Seq::empty(), Seq::empty());
    assert forall|s: Seq<char>, id: Seq<char>| #[trigger]
        in_message(JsonView::Str(s), m) && #[trigger] names_file(s, id) && id.len()
            > 0 implies r.file_ids.contains(id) by {
        lemma_searched(m, s);
        lemma_ids_within(none, searched(m), id);
    }
    assert forall|s: Seq<char>, id: Seq<char>| #[trigger]
        in_message(JsonView::Str(s), m) && #[trigger] names_sediment(s, id) && id.len()
            > 0 implies r.sediment_ids.contains(id) by {
        lemma_searched(m, s);
        lemma_ids_within(none, searched(m), id);
    }
    assert forall|id: Seq<char>| #[trigger] r.file_ids.contains(id) implies exists|s: Seq<char>|
        #[trigger] in_message(JsonView::Str(s), m) && names_file(s, id) by {
        lemma_ids_within(none, searched(m), id);
        let s = choose|s: Seq<char>| #[trigger]
            within(JsonView::Str(s), searched(m)) && names_file(s, id);
        lemma_searched(m, s);
    }
    assert forall|id: Seq<char>| #[trigger] r.sediment_ids.contains(id) implies exists|
        s: Seq<char>,
    | #[trigger] in_message(JsonView::Str(s), m) && names_sediment(s, id) by {
        lemma_ids_within(none, searched(m), id);
        let s = choose|s: Seq<char>| #[trigger]
            within(JsonView::Str(s), searched(m)) && names_sediment(s, id);
        lemma_searched(m, s);
    }
}

/// Whether a message is about an image that is being made, or points to one.
pub open spec fn shows_image(m: JsonView) -> bool {
    m.at("metadata"@).get("async_task_type"@) == Some(JsonView::Str("image_gen"@)) || exists|
        x: JsonView,
    | #[trigger] in_message(x, m) && points(x)
}

/// Whether a message names some id.
pub open spec fn names_some(m: JsonView) -> bool {
    exists|s: Seq<char>, id: Seq<char>| #[trigger]
        in_message(JsonView::Str(s), m) && #[trigger] names_any(s, id)
}

/// Whether a text names an id that is not empty.
pub open spec fn names_any(s: Seq<char>, id: Seq<char>) -> bool {
    id.len() > 0 && (names_file(s, id) || names_sediment(s, id))
}

proof fn lemma_recorded(name: Seq<char>, node: JsonView)
    ensures
        node_record()((name, node)) is Some <==> {
            let m = node.at("message"@);
            ||| writer(m) == "assistant"@ && shows_image(m)
            ||| writer(m) == "tool"@ && (shows_image(m) || names_some(m))
        },
{
    let m = node.at("message"@);
    law_pointer_found_anywhere(m.at("content"@));
    law_pointer_found_anywhere(m.at("metadata"@));
    let ids = ids_in(searched(m));
    let none: (Seq<Seq<char>>, Seq<Seq<char>>) = (Seq::empty(), Seq::empty());
    if exists|x: JsonView| #[trigger] within(x, m.at("content"@)) && points(x) {
        let x = choose|x: JsonView| #[trigger] within(x, m.at("content"@)) && points(x);
        assert(in_message(x, m));
    }
    if exists|x: JsonView| #[trigger] within(x, m.at("metadata"@)) && points(x) {
        let x = choose|x: JsonView| #[trigger] within(x, m.at("metadata"@)) && points(x);
        assert(in_message(x, m));
    }
    if exists|x: JsonView| #[trigger] in_message(x, m) && points(x) {
        let x = choose|x: JsonView| #[trigger] in_message(x, m) && points(x);
        assert(within(x, m.at("content"@)) || within(x, m.at("metadata"@)));
    }
    if names_some(m) {
        let (s, id) = choose|s: Seq<char>, id: Seq<char>| #[trigger]
            in_message(JsonView::Str(s), m) && #[trigger] names_any(s, id);
        lemma_searched(m, s);
        lemma_ids_within(none, searched(m), id);
        assert(ids.0.contains(id) || ids.1.contains(id));
    }
    if ids.0.len() > 0 {
        let id = ids.0[0];
        assert(ids.0.contains(id));
        lemma_ids_within(none, searched(m), id);
        let s = choose|s: Seq<char>| #[trigger]
            within(JsonView::Str(s), searched(m)) && names_file(s, id);
        lemma_searched(m, s);
        assert(names_any(s, id));
    }
    if ids.1.len() > 0 {
        let id = ids.1[0];
        assert(ids.1.contains(id));
        lemma_ids_within(none, searched(m), id);
        let s = choose|s: Seq<char>| #[trigger]
            within(JsonView::Str(s), searched(m)) && names_sediment(s, id);
        lemma_searched(m, s);
        assert(names_any(s, id));
    }
}

/// Every message of a tool or of the assistant that is about an image has a record, and so has
/// every message of a tool that names an id: with the name of its node, its time, and the ids that
/// it names.
pub proof fn law_image_messages_are_recorded(
    data: JsonView,
    nodes: Seq<(Seq<char>, JsonView)>,
    i: int,
)
    requires
        data.get("mapping"@) == Some(JsonView::Obj(nodes)),
        0 <= i < nodes.len(),
        ({
            let m = nodes[i].1.at("message"@);
            ||| writer(m) == "assistant"@ && shows_image(m)
            ||| writer(m) == "tool"@ && (shows_image(m) || names_some(m))
        }),
    ensures
        exists|r: RecordView| #[trigger]
            tool_records(data).contains(r) && record_says(r, nodes[i].0, nodes[i].1.at("message"@)),
{
    let e = nodes[i];
    lemma_recorded(e.0, e.1);
    lemma_record_says(e.0, e.1);
    let f = node_record();
    assert(e == (e.0, e.1));
    lemma_mapped_has(nodes, f, i);
    lemma_sorted_has(nodes.filter_map(f), time_order(), f(e)->0);
    assert(tool_records(data).contains(f(e)->0));
}

/// Every record is of such a message.
pub proof fn law_records_are_of_image_messages(data: JsonView, r: RecordView)
    requires
        tool_records(data).contains(r),
    ensures
        data.at("mapping"@) is Obj,
        exists|i: int|
            {
                let node = #[trigger] data.at("mapping"@)->Obj_0[i];
                let m = node.1.at("message"@);
                &&& 0 <= i < data.at("mapping"@)->Obj_0.len()
                &&& record_says(r, node.0, m)
                &&& (writer(m) == "assistant"@ && shows_image(m)) || (writer(m) == "tool"@ && (
                shows_image(m) || names_some(m)))
            },
{
    let f = node_record();
    let nodes = nodes_of(data);
    lemma_sorted_has(nodes.filter_map(f), time_order(), r);
    lemma_mapped_from(nodes, f, r);
    let i = choose|i: int| 0 <= i < nodes.len() && f(#[trigger] nodes[i]) == Some(r);
    assert(nodes[i] == (nodes[i].0, nodes[i].1));
    lemma_recorded(nodes[i].0, nodes[i].1);
    lemma_record_says(nodes[i].0, nodes[i].1);
    assert(data.at("mapping"@)->Obj_0[i] == nodes[i]);
}

proof fn lemma_new_has(s: Seq<Seq<char>>, more: Seq<Seq<char>>, id: Seq<char>)
    ensures
        with_new(s, more).contains(id) <==> s.contains(id) || more.contains(id),
    decreases more.len(),
{
    if more.len() > 0 {
        let init = more.drop_last();
        lemma_new_has(s, init, id);
        let t = with_new(s, init);
        let u = with_new(s, more);
        if u.contains(id) {
            let k = u.index_of(id);
            if k < t.len() {
                assert(t[k] == id);
                if init.contains(id) {
                    let j = init.index_of(id);
                    assert(more[j] == id);
                }
            } else {
                assert(more[more.len() - 1] == id);
            }
        }
        if s.contains(id) || more.contains(id) {
            if t.contains(id) {
                let k = t.index_of(id);
                assert(u[k] == id);
            } else {
                let j = more.index_of(id);
                if j < init.len() {
                    assert(init[j] == id);
                }
                assert(u[t.len() as int] == id);
            }
        }
    }
}

/// While an image is waited for, exactly the ids that were known and those of the records are
/// gathered.
pub proof fn law_gathered_ids(ids: Seq<Seq<char>>, records: Seq<RecordView>, id: Seq<char>)
    ensures
        gathered_files(ids, records).contains(id) <==> ids.contains(id) || exists|k: int|
            0 <= k < records.len() && (#[trigger] records[k]).file_ids.contains(id),
        gathered_sediments(ids, records).contains(id) <==> ids.contains(id) || exists|k: int|
            0 <= k < records.len() && (#[trigger] records[k]).sediment_ids.contains(id),
    decreases records.len(),
{
    if records.len() > 0 {
        let init = records.drop_last();
        law_gathered_ids(ids, init, id);
        lemma_new_has(gathered_files(ids, init), records.last().file_ids, id);
        lemma_new_has(gathered_sediments(ids, init), records.last().sediment_ids, id);
        assert(records[records.len() - 1] == records.last());
        assert forall|k: int| 0 <= k < init.len() implies #[trigger] init[k] == records[k] by {}
        if exists|k: int| 0 <= k < init.len() && (#[trigger] init[k]).file_ids.contains(id) {
            let k = choose|k: int| 0 <= k < init.len() && (#[trigger] init[k]).file_ids.contains(id);
            assert(records[k].file_ids.contains(id));
        }
        if exists|k: int| 0 <= k < init.len() && (#[trigger] init[k]).sediment_ids.contains(id) {
            let k = choose|k: int|
                0 <= k < init.len() && (#[trigger] init[k]).sediment_ids.contains(id);
            assert(records[k].sediment_ids.contains(id));
        }
        if exists|k: int| 0 <= k < records.len() && (#[trigger] records[k]).file_ids.contains(id) {
            let k = choose|k: int|
                0 <= k < records.len() && (#[trigger] records[k]).file_ids.contains(id);
            if k < init.len() {
                assert(init[k].file_ids.contains(id));
            }
        }
        if exists|k: int|
            0 <= k < records.len() && (#[trigger] records[k]).sediment_ids.contains(id) {
            let k = choose|k: int|
                0 <= k < records.len() && (#[trigger] records[k]).sediment_ids.contains(id);
            if k < init.len() {
                assert(init[k].sediment_ids.contains(id));
            }
        }
    }
}

/// An id that a message of a tool names is among those that are gathered from its conversation.
/// So is one that a message of the assistant names that is about an image.
pub proof fn law_named_image_is_found(
    data: JsonView,
    nodes: Seq<(Seq<char>, JsonView)>,
    i: int,
    s: Seq<char>,
    id: Seq<char>,
    known: Seq<Seq<char>>,
)
    requires
        data.get("mapping"@) == Some(JsonView::Obj(nodes)),
        0 <= i < nodes.len(),
        in_message(JsonView::Str(s), nodes[i].1.at("message"@)),
        id.len() > 0,
        writer(nodes[i].1.at("message"@)) == "tool"@ || (writer(nodes[i].1.at("message"@))
            == "assistant"@ && shows_image(nodes[i].1.at("message"@))),
    ensures
        names_file(s, id) ==> gathered_files(known, tool_records(data)).contains(id),
        names_sediment(s, id) ==> gathered_sediments(known, tool_records(data)).contains(id),
{
    let m = nodes[i].1.at("message"@);
    if names_file(s, id) || names_sediment(s, id) {
        assert(names_any(s, id));
        law_image_messages_are_recorded(data, nodes, i);
        let records = tool_records(data);
        let r = choose|r: RecordView| #[trigger]
            records.contains(r) && record_says(r, nodes[i].0, m);
        let k = records.index_of(r);
        assert(records[k] == r);
        law_gathered_ids(known, records, id);
    }
}

// ---------------------------------------------------------------------------
// refusals and faults
// ---------------------------------------------------------------------------

/// A conversation is refused exactly where a message of the assistant or of a tool is.
pub proof fn law_refusal_is_said(nodes: Seq<(Seq<char>, JsonView)>)
    ensures
        first_refusal(nodes).len() > 0 <==> exists|i: int|
            0 <= i < nodes.len() && message_refusal((#[trigger] nodes[i]).1.at("message"@)).len() > 0,
        first_refusal(nodes).len() > 0 ==> exists|i: int|
            0 <= i < nodes.len() && first_refusal(nodes) == message_refusal(
                (#[trigger] nodes[i]).1.at("message"@),
            ),
    decreases nodes.len(),
{
    if nodes.len() > 0 {
        let rest = nodes.drop_first();
        law_refusal_is_said(rest);
        assert forall|i: int| 0 <= i < rest.len() implies #[trigger] rest[i] == nodes[i + 1] by {}
        if message_refusal(nodes[0].1.at("message"@)).len() == 0 {
            if first_refusal(nodes).len() > 0 {
                let i = choose|i: int|
                    0 <= i < rest.len() && first_refusal(rest) == message_refusal(
                        (#[trigger] rest[i]).1.at("message"@),
                    );
                assert(nodes[i + 1] == rest[i]);
            }
            if exists|i: int|
                0 <= i < nodes.len() && message_refusal((#[trigger] nodes[i]).1.at("message"@)).len()
                    > 0 {
                let i = choose|i: int|
                    0 <= i < nodes.len() && message_refusal(
                        (#[trigger] nodes[i]).1.at("message"@),
                    ).len() > 0;
                assert(rest[i - 1] == nodes[i]);
            }
        }
    }
}

/// A message of plain text refuses where the assistant or a tool wrote it and it reads as a
/// refusal: the text itself, cut to five hundred characters. No other message of plain text does.
pub proof fn law_plain_refusal(m: JsonView, text: Seq<char>)
    requires
        m.get("content"@) == Some(JsonView::Str(text)),
    ensures
        ({
            let t = trimmed(text);
            let said = (writer(m) == "assistant"@ || writer(m) == "tool"@) && t.len() > 0
                && is_policy_refusal(t);
            &&& said && t.len() <= 500 ==> message_refusal(m) == t
            &&& said && t.len() > 500 ==> message_refusal(m) == t.take(500)
            &&& !said ==> message_refusal(m) == Seq::<char>::empty()
        }),
{
    let t = trimmed(text);
    reveal_with_fuel(crate::text::joined, 3);
    assert(crate::text::joined(seq![t], "\n"@) =~= t);
    assert(crate::text::joined(Seq::<Seq<char>>::empty(), "\n"@) =~= Seq::<char>::empty());
    assert(t.take(t.len() as int) =~= t);
}

/// Words of the upstream that mean a refusal, in either language and whatever the case.
pub proof fn law_refusal_words(msg: Seq<char>)
    ensures
        occurs(unicode_lower(msg), unicode_lower("内容政策"@)) ==> is_policy_refusal(msg),
        occurs(unicode_lower(msg), unicode_lower("防护限制"@)) ==> is_policy_refusal(msg),
        occurs(unicode_lower(msg), unicode_lower("违反"@)) ==> is_policy_refusal(msg),
        occurs(unicode_lower(msg), unicode_lower("moderation"@)) ==> is_policy_refusal(msg),
        occurs(unicode_lower(msg), unicode_lower("policy"@)) ==> is_policy_refusal(msg),
        occurs(unicode_lower(msg), unicode_lower("blocked"@)) ==> is_policy_refusal(msg),
        occurs(unicode_lower(msg), unicode_lower("不能生成"@)) ==> is_policy_refusal(msg),
        occurs(unicode_lower(msg), unicode_lower("无法生成"@)) ==> is_policy_refusal(msg),
        occurs(unicode_lower(msg), unicode_lower("不能帮助"@)) ==> is_policy_refusal(msg),
        occurs(unicode_lower(msg), unicode_lower("无法帮助"@)) ==> is_policy_refusal(msg),
        occurs(unicode_lower(msg), unicode_lower("裸体"@)) ==> is_policy_refusal(msg),
        occurs(unicode_lower(msg), unicode_lower("裸露"@)) ==> is_policy_refusal(msg),
        occurs(unicode_lower(msg), unicode_lower("色情"@)) ==> is_policy_refusal(msg),
        occurs(unicode_lower(msg), unicode_lower("性内容"@)) ==> is_policy_refusal(msg),
        occurs(unicode_lower(msg), unicode_lower("未成年"@)) ==> is_policy_refusal(msg),
        occurs(unicode_lower(msg), unicode_lower("抱歉，我不能"@)) ==> is_policy_refusal(msg),
{
    let w = crate::engine::policy_words();
    assert(w[0] == "内容政策"@);
    assert(w[1] == "防护限制"@);
    assert(w[2] == "违反"@);
    assert(w[3] == "moderation"@);
    assert(w[4] == "policy"@);
    assert(w[5] == "blocked"@);
    assert(w[6] == "不能生成"@);
    assert(w[7] == "无法生成"@);
    assert(w[8] == "不能帮助"@);
    assert(w[9] == "无法帮助"@);
    assert(w[10] == "裸体"@);
    assert(w[11] == "裸露"@);
    assert(w[12] == "色情"@);
    assert(w[13] == "性内容"@);
    assert(w[14] == "未成年"@);
    assert(w[15] == "抱歉，我不能"@);
}

/// A task that failed says so, and with it the texts of its message.
pub proof fn law_task_fault(task: JsonView)
    ensures
        ({
            let m = task.at("image_gen_message"@);
            &&& task_fault(task).0 <==> m is Obj && m.at("metadata"@).get("is_error"@) == Some(
                JsonView::Bool(true),
            )
            &&& task_fault(task).1.len() > 0 ==> task_fault(task).0
            &&& forall|s: Seq<char>|
                task_fault(task).0 && m.at("content"@).get("content_type"@) == Some(
                    JsonView::Str("text"@),
                ) && #[trigger] m.at("content"@).get("parts"@) == Some(
                    JsonView::Arr(seq![JsonView::Str(s)]),
                ) ==> task_fault(task).1 == s
        }),
{
    let m = task.at("image_gen_message"@);
    reveal_strlit("text");
    reveal_strlit("parts");
    reveal_strlit("content_type");
    reveal_strlit("metadata");
    reveal_strlit("content");
    reveal_strlit("is_error");
    reveal_strlit("image_gen_message");
    assert("text"@.len() == 4);
    assert("parts"@.len() == 5);
    assert("content_type"@.len() == 12);
    assert("metadata"@.len() == 8 && "metadata"@[0] == 'm');
    assert("content"@.len() == 7);
    assert("is_error"@.len() == 8 && "is_error"@[0] == 'i');
    assert("image_gen_message"@.len() == 17);
    assert forall|s: Seq<char>|
        task_fault(task).0 && m.at("content"@).get("content_type"@) == Some(
            JsonView::Str("text"@),
        ) && #[trigger] m.at("content"@).get("parts"@) == Some(
            JsonView::Arr(seq![JsonView::Str(s)]),
        ) implies task_fault(task).1 == s by {
        let parts = seq![JsonView::Str(s)];
        let f = crate::picture::text_part();
        assert(parts.drop_last() =~= Seq::<JsonView>::empty());
        reveal_with_fuel(Seq::filter_map, 3);
        assert(parts.filter_map(f) =~= seq![s]);
        reveal_with_fuel(crate::text::joined, 3);
        assert(crate::text::joined(seq![s], ""@) =~= s);
    }
}

/// The fault of the last task that has one is kept; there is none where no task has one.
pub proof fn law_last_fault(tasks: Seq<JsonView>)
    ensures
        last_fault(tasks).len() == 0 <==> forall|i: int|
            0 <= i < tasks.len() ==> task_fault(#[trigger] tasks[i]).1.len() == 0,
        tasks.len() > 0 && task_fault(tasks[tasks.len() - 1]).1.len() > 0 ==> last_fault(tasks)
            == task_fault(tasks[tasks.len() - 1]).1,
    decreases tasks.len(),
{
    if tasks.len() > 0 {
        let init = tasks.drop_last();
        law_last_fault(init);
        assert(tasks[tasks.len() - 1] == tasks.last());
        assert forall|i: int| 0 <= i < init.len() implies #[trigger] init[i] == tasks[i] by {}
        if last_fault(tasks).len() == 0 {
            assert forall|i: int| 0 <= i < tasks.len() implies task_fault(
                #[trigger] tasks[i],
            ).1.len() == 0 by {
                if i < init.len() {
                    assert(init[i] == tasks[i]);
                }
            }
        } else if task_fault(tasks.last()).1.len() == 0 {
            let i = choose|i: int| 0 <= i < init.len() && task_fault(#[trigger] init[i]).1.len() > 0;
            assert(tasks[i] == init[i]);
        }
    }
}

/// The tasks of a conversation are those that name it; an empty name asks for all.
pub proof fn law_tasks_of_conversation(tasks: Seq<JsonView>, id: Seq<char>, t: JsonView)
    ensures
        tasks.filter(of_conversation(id)).contains(t) <==> tasks.contains(t) && (id.len() == 0
            || t.str_at("conversation_id"@) == id || t.str_at("original_conversation_id"@) == id),
{
    lemma_filtered_has(tasks, of_conversation(id), t);
}

// ---------------------------------------------------------------------------
// what is sent
// ---------------------------------------------------------------------------

/// The request for an image carries the model, the prompt and every image that goes with it, in
/// order: each as a part that points to the uploaded file, and as an attachment.
pub proof fn law_image_request_carries_all(
    id: Seq<char>,
    time: JsonView,
    prompt: Seq<char>,
    refs: Seq<JsonView>,
    parent: Seq<char>,
    model: Seq<char>,
)
    ensures
        ({
            let q = image_request(
                user_message(id, time, image_content(prompt, refs), image_metadata(refs)),
                parent,
                model,
            );
            let sent = q.items_at("messages"@);
            let m = sent[0];
            let parts = m.at("content"@).items_at("parts"@);
            let added = m.at("metadata"@).items_at("attachments"@);
            &&& q.str_at("action"@) == "next"@
            &&& q.str_at("model"@) == model
            &&& q.str_at("parent_message_id"@) == parent
            &&& q.items_at("system_hints"@) == seq![JsonView::Str("picture_v2"@)]
            &&& sent.len() == 1
            &&& m.str_at("id"@) == id
            &&& m.at("author"@).str_at("role"@) == "user"@
            &&& m.get("create_time"@) == Some(time)
            &&& m.at("content"@).str_at("content_type"@) == (if refs.len() == 0 {
                "text"@
            } else {
                "multimodal_text"@
            })
            &&& parts.len() == refs.len() + 1
            &&& parts[refs.len() as int] == JsonView::Str(prompt)
            &&& added.len() == refs.len()
            &&& forall|i: int|
                0 <= i < refs.len() ==> {
                    &&& (#[trigger] parts[i]).str_at("content_type"@) == "image_asset_pointer"@
                    &&& parts[i].str_at("asset_pointer"@) == "file-service://"@ + refs[i].str_at(
                        "file_id"@,
                    )
                }
            &&& forall|i: int|
                0 <= i < refs.len() ==> {
                    &&& (#[trigger] added[i]).at("id"@) == refs[i].at("file_id"@)
                    &&& added[i].at("mimeType"@) == refs[i].at("mime_type"@)
                    &&& added[i].at("name"@) == refs[i].at("file_name"@)
                    &&& added[i].at("size"@) == refs[i].at("file_size"@)
                    &&& added[i].at("width"@) == refs[i].at("width"@)
                    &&& added[i].at("height"@) == refs[i].at("height"@)
                }
            &&& forall|i: int|
                0 <= i < refs.len() ==> {
                    &&& refs[i].get("width"@) is Some ==> (#[trigger] parts[i]).at("width"@)
                        == refs[i].at("width"@)
                    &&& refs[i].get("height"@) is Some ==> parts[i].at("height"@) == refs[i].at(
                        "height"@,
                    )
                    &&& refs[i].get("file_size"@) is Some ==> parts[i].at("size_bytes"@) == refs[i].at(
                        "file_size"@,
                    )
                }
        }),
{
    broadcast use crate::value::group_fields;

    reveal_strlit("action");
    reveal_strlit("messages");
    reveal_strlit("parent_message_id");
    reveal_strlit("model");
    reveal_strlit("client_prepare_state");
    reveal_strlit("timezone_offset_min");
    reveal_strlit("timezone");
    reveal_strlit("conversation_mode");
    reveal_strlit("enable_message_followups");
    reveal_strlit("system_hints");
    reveal_strlit("supports_buffering");
    reveal_strlit("supported_encodings");
    reveal_strlit("client_contextual_info");
    reveal_strlit("paragen_cot_summary_display_override");
    reveal_strlit("force_parallel_switch");
    reveal_strlit("id");
    reveal_strlit("author");
    reveal_strlit("create_time");
    reveal_strlit("content");
    reveal_strlit("metadata");
    reveal_strlit("content_type");
    reveal_strlit("parts");
    reveal_strlit("attachments");
    reveal_strlit("developer_mode_connector_ids");
    reveal_strlit("selected_github_repos");
    reveal_strlit("selected_all_github_repos");
    reveal_strlit("serialization_metadata");
    reveal_strlit("asset_pointer");
    reveal_strlit("width");
    reveal_strlit("height");
    reveal_strlit("size_bytes");
    reveal_strlit("mimeType");
    reveal_strlit("name");
    reveal_strlit("size");
    reveal_strlit("role");
    reveal_strlit("kind");
    assert("action"@.len() == 6 && "action"@[0] == 'a' && "action"@[1] == 'c');
    assert("messages"@.len() == 8 && "messages"@[0] == 'm' && "messages"@[1] == 'e' && "messages"@[2] == 's');
    assert("parent_message_id"@.len() == 17 && "parent_message_id"@[0] == 'p');
    assert("model"@.len() == 5 && "model"@[0] == 'm');
    assert("client_prepare_state"@.len() == 20);
    assert("timezone_offset_min"@.len() == 19 && "timezone_offset_min"@[0] == 't');
    assert("timezone"@.len() == 8 && "timezone"@[0] == 't');
    assert("conversation_mode"@.len() == 17 && "conversation_mode"@[0] == 'c');
    assert("enable_message_followups"@.len() == 24);
    assert("system_hints"@.len() == 12 && "system_hints"@[0] == 's');
    assert("supports_buffering"@.len() == 18);
    assert("supported_encodings"@.len() == 19 && "supported_encodings"@[0] == 's');
    assert("client_contextual_info"@.len() == 22 && "client_contextual_info"@[0] == 'c');
    assert("paragen_cot_summary_display_override"@.len() == 36);
    assert("force_parallel_switch"@.len() == 21 && "force_parallel_switch"@[0] == 'f');
    assert("id"@.len() == 2);
    assert("author"@.len() == 6 && "author"@[0] == 'a' && "author"@[1] == 'u');
    assert("create_time"@.len() == 11 && "create_time"@[0] == 'c');
    assert("content"@.len() == 7);
    assert("metadata"@.len() == 8 && "metadata"@[0] == 'm' && "metadata"@[1] == 'e' && "metadata"@[2] == 't');
    assert("content_type"@.len() == 12 && "content_type"@[0] == 'c');
    assert("parts"@.len() == 5 && "parts"@[0] == 'p');
    assert("attachments"@.len() == 11 && "attachments"@[0] == 'a');
    assert("developer_mode_connector_ids"@.len() == 28);
    assert("selected_github_repos"@.len() == 21 && "selected_github_repos"@[0] == 's');
    assert("selected_all_github_repos"@.len() == 25);
    assert("serialization_metadata"@.len() == 22 && "serialization_metadata"@[0] == 's');
    assert("asset_pointer"@.len() == 13);
    assert("width"@.len() == 5 && "width"@[0] == 'w');
    assert("height"@.len() == 6 && "height"@[0] == 'h');
    assert("size_bytes"@.len() == 10);
    assert("mimeType"@.len() == 8 && "mimeType"@[0] == 'm' && "mimeType"@[1] == 'i');
    assert("name"@.len() == 4 && "name"@[0] == 'n');
    assert("size"@.len() == 4 && "size"@[0] == 's');
    assert("role"@.len() == 4 && "role"@[0] == 'r');
    assert("kind"@.len() == 4 && "kind"@[0] == 'k');
    let q = image_request(
        user_message(id, time, image_content(prompt, refs), image_metadata(refs)),
        parent,
        model,
    );
    let m = q.items_at("messages"@)[0];
    let parts = m.at("content"@).items_at("parts"@);
    let added = m.at("metadata"@).items_at("attachments"@);
    assert forall|i: int| 0 <= i < refs.len() implies #[trigger] parts[i] == asset_part(refs[i]) by {}
    assert forall|i: int| 0 <= i < refs.len() implies #[trigger] added[i] == attachment(refs[i]) by {}
}

/// Every image that was found is fetched from its own path, and nothing else is: the files but
/// those that were sent, and, in a conversation with an id, the sediments.
pub proof fn law_found_images_are_fetched(
    conversation: Seq<char>,
    files: Seq<Seq<char>>,
    sediments: Seq<Seq<char>>,
    path: Seq<char>,
)
    ensures
        download_paths(conversation, files, sediments).contains(path) <==> {
            ||| exists|i: int|
                0 <= i < files.len() && #[trigger] files[i] != "file_upload"@ && path
                    == "/backend-api/files/"@ + files[i] + "/download"@
            ||| conversation.len() > 0 && exists|i: int|
                0 <= i < sediments.len() && path == "/backend-api/conversation/"@ + conversation
                    + "/attachment/"@ + #[trigger] sediments[i] + "/download"@
        },
{
    let kept = files.filter(real_file());
    let f = |id: Seq<char>| "/backend-api/files/"@ + id + "/download"@;
    let g = |id: Seq<char>|
        "/backend-api/conversation/"@ + conversation + "/attachment/"@ + id + "/download"@;
    let a = kept.map_values(f);
    let b = sediments.map_values(g);
    let all = download_paths(conversation, files, sediments);
    assert(a =~= files.filter(real_file()).map_values(
        |id: Seq<char>| "/backend-api/files/"@ + id + "/download"@,
    ));
    assert(all =~= if conversation.len() == 0 {
        a
    } else {
        a + b
    });
    if all.contains(path) {
        let k = all.index_of(path);
        if k < a.len() {
            lemma_filtered_has(files, real_file(), kept[k]);
            assert(kept.contains(kept[k]));
            let i = files.index_of(kept[k]);
            assert(files[i] != "file_upload"@);
        } else {
            assert(sediments[k - a.len()] == sediments[k - a.len()]);
            assert(b[k - a.len()] == path);
        }
    }
    if exists|i: int|
        0 <= i < files.len() && #[trigger] files[i] != "file_upload"@ && path
            == "/backend-api/files/"@ + files[i] + "/download"@ {
        let i = choose|i: int|
            0 <= i < files.len() && #[trigger] files[i] != "file_upload"@ && path
                == "/backend-api/files/"@ + files[i] + "/download"@;
        lemma_filtered_has(files, real_file(), files[i]);
        assert(files.contains(files[i]));
        let k = kept.index_of(files[i]);
        assert(a[k] == path);
        assert(all[k] == path);
    }
    if conversation.len() > 0 && exists|i: int|
        0 <= i < sediments.len() && path == "/backend-api/conversation/"@ + conversation
            + "/attachment/"@ + #[trigger] sediments[i] + "/download"@ {
        let i = choose|i: int|
            0 <= i < sediments.len() && path == "/backend-api/conversation/"@ + conversation
                + "/attachment/"@ + #[trigger] sediments[i] + "/download"@;
        assert(b[i] == path);
        assert(all[a.len() + i] == path);
    }
}

/// An image is fetched from the address that its answer gives, under either name.
pub proof fn law_download_address(data: JsonView, url: Seq<char>)
    ensures
        data.get("download_url"@) == Some(JsonView::Str(url)) ==> download_address(data) == url,
        data.get("download_url"@) is None && data.get("url"@) == Some(JsonView::Str(url))
            ==> download_address(data) == url,
{
}

/// Of a data URL the part behind the comma is decoded, and any other text as a whole.
pub proof fn law_encoded_part(head: Seq<char>, rest: Seq<char>)
    requires
        !head.contains(','),
    ensures
        begins(head, "data:"@) ==> encoded_part(head + seq![','] + rest) == rest,
        !begins(head + seq![','] + rest, "data:"@) ==> encoded_part(head + seq![','] + rest) == head
            + seq![','] + rest,
        encoded_part(head) == head,
{
    let all = head + seq![','] + rest;
    crate::text::lemma_first_of(all, ',');
    crate::text::lemma_first_of(head, ',');
    assert(all[head.len() as int] == ',');
    let k = crate::text::first_of(all, ',');
    if k < head.len() {
        assert(head[k] == ',');
    }
    assert(k == head.len());
    assert(all.skip(k + 1) =~= rest);
    if begins(head, "data:"@) {
        assert(begins(all, "data:"@)) by {
            let d = "data:"@;
            assert(all.subrange(0, d.len() as int) =~= head.subrange(0, d.len() as int));
        }
    }
    let h = crate::text::first_of(head, ',');
    if h < head.len() {
        assert(head[h] == ',');
    }
}

} // verus!
