//! Answers from a web search: the request, how the answer is waited for, and what it holds.
use vstd::prelude::*;
use vstd::utf8::encode_utf8;

use crate::accounts_api::{filled_trimmed, trim_filled};
use crate::engine::{
    empty_list, make_text_content, no_items, one_text, path_headers, req_headers, single,
    single_field, text_content, text_list, EngineError,
};
use crate::json::{float_of, float_value, is_below, number_below, parsed, strings_below};
use crate::pattern::{find_groups, find_matches, group_matches, whole_matches};
use crate::picture::{
    make_metadata, make_user_message, message_metadata, nodes_of, text_of_time, time_text,
    user_message,
};
use crate::sorting::pairs_view;
use crate::text::{
    cat, cat3, join, joined, same, skip_back, trim, trim_back, trimmed, views, CharClass,
};
use crate::value::{empty_object, fields_view, int_json, list_view, or_else, Json, JsonView};

verus! {

broadcast use crate::value::group_json;

pub const CONVERSATION_ID: &'static str = "\"conversation_id\"\\s*:\\s*\"([^\"]+)\"";

pub const SEARCH_URL: &'static str = "https?://[^\\s\"'<>）)\\]}]+";

// ---------------------------------------------------------------------------
// looking for a value
// ---------------------------------------------------------------------------

/// A number that every string in a value is shorter than.
pub open spec fn text_bound(v: JsonView) -> nat
    decreases v,
{
    match v {
        JsonView::Str(s) => s.len() + 1,
        JsonView::Arr(items) => items_bound(items),
        JsonView::Obj(o) => fields_bound(o),
        _ => 0,
    }
}

/// A number that every string in a list is shorter than.
pub open spec fn items_bound(items: Seq<JsonView>) -> nat
    decreases items,
{
    if items.len() == 0 {
        0
    } else {
        let rest = items_bound(items.drop_last());
        let last = text_bound(items.last());
        if rest < last {
            last
        } else {
            rest
        }
    }
}

/// A number that every string in an object is shorter than.
pub open spec fn fields_bound(o: Seq<(Seq<char>, JsonView)>) -> nat
    decreases o,
{
    if o.len() == 0 {
        0
    } else {
        let rest = fields_bound(o.drop_last());
        let last = text_bound(o.last().1);
        if rest < last {
            last
        } else {
            rest
        }
    }
}

proof fn lemma_items_bound(items: Seq<JsonView>, i: int)
    requires
        0 <= i < items.len(),
    ensures
        text_bound(items[i]) <= items_bound(items),
    decreases items.len(),
{
    if i < items.len() - 1 {
        lemma_items_bound(items.drop_last(), i);
    }
}

proof fn lemma_fields_bound(o: Seq<(Seq<char>, JsonView)>, i: int)
    requires
        0 <= i < o.len(),
    ensures
        text_bound(o[i].1) <= fields_bound(o),
    decreases o.len(),
{
    if i < o.len() - 1 {
        lemma_fields_bound(o.drop_last(), i);
    }
}

proof fn lemma_text_bound(v: JsonView, n: nat)
    requires
        text_bound(v) <= n,
    ensures
        strings_below(v, n),
    decreases v,
{
    match v {
        JsonView::Arr(items) => {
            assert forall|i: int| 0 <= i < items.len() implies strings_below(
                #[trigger] items[i],
                n,
            ) by {
                lemma_items_bound(items, i);
                lemma_text_bound(items[i], n);
            }
        },
        JsonView::Obj(o) => {
            assert forall|i: int| 0 <= i < o.len() implies strings_below(
                (#[trigger] o[i]).1,
                n,
            ) by {
                lemma_fields_bound(o, i);
                lemma_text_bound(o[i].1, n);
            }
        },
        _ => {},
    }
}

/// The id of a conversation that a text names.
pub open spec fn named_conversation(s: Seq<char>, key: Seq<char>) -> Seq<char> {
    let found = group_matches(CONVERSATION_ID@, s);
    if key == "conversation_id"@ && found.len() > 0 {
        found[0]
    } else {
        Seq::empty()
    }
}

/// What stands under a name in a value, at whatever depth, where every string in the value is
/// shorter than `n`: a text that is not empty. A string that is JSON is looked into as well.
pub open spec fn found_within(v: JsonView, key: Seq<char>, n: nat) -> Seq<char>
    decreases n, v,
{
    match v {
        JsonView::Str(s) => if key == "conversation_id"@ && group_matches(
            CONVERSATION_ID@,
            s,
        ).len() > 0 {
            named_conversation(s, key)
        } else {
            match parsed(encode_utf8(s)) {
                Some(p) => if s.len() < n {
                    found_within(p, key, s.len())
                } else {
                    Seq::empty()
                },
                None => Seq::empty(),
            }
        },
        JsonView::Obj(o) => if v.str_at(key).len() > 0 {
            v.str_at(key)
        } else {
            found_in_fields(o, key, n)
        },
        JsonView::Arr(items) => found_in_items(items, key, n),
        _ => Seq::empty(),
    }
}

/// What stands under a name in the first item that has it.
pub open spec fn found_in_items(items: Seq<JsonView>, key: Seq<char>, n: nat) -> Seq<char>
    decreases n, items,
{
    if items.len() == 0 {
        Seq::empty()
    } else {
        or_else(
            found_in_items(items.drop_last(), key, n),
            found_within(items.last(), key, n),
        )
    }
}

/// What stands under a name in the first field that has it.
pub open spec fn found_in_fields(o: Seq<(Seq<char>, JsonView)>, key: Seq<char>, n: nat) -> Seq<char>
    decreases n, o,
{
    if o.len() == 0 {
        Seq::empty()
    } else {
        or_else(found_in_fields(o.drop_last(), key, n), found_within(o.last().1, key, n))
    }
}

/// What stands under a name in a value, at whatever depth.
pub open spec fn found_value(v: JsonView, key: Seq<char>) -> Seq<char> {
    found_within(v, key, text_bound(v))
}

fn find_within(payload: &Json, key: &str, Ghost(n): Ghost<nat>) -> (r: String)
    requires
        strings_below(payload@, n),
    ensures
        r@ == found_within(payload@, key@, n),
    decreases n, payload,
{
    match payload {
        Json::Str(s) => {
            if same(key, "conversation_id") {
                let found = find_groups(CONVERSATION_ID, s.as_str());
                assert(views(found@).len() == found@.len());
                if found.len() > 0 {
                    assert(views(found@)[0] == found@[0]@);
                    return found[0].clone();
                }
            }
            match Json::parse_text(s.as_str()) {
                Some(p) => find_within(&p, key, Ghost(s@.len())),
                None => String::new(),
            }
        },
        Json::Obj(o) => {
            let own = payload.str_at(key);
            if !own.as_str().is_empty() {
                return own;
            }
            let ghost fv = fields_view(o@);
            let mut out = String::new();
            let mut i: usize = 0;
            assert(fv.take(0) =~= Seq::empty());
            while i < o.len()
                invariant
                    i <= o@.len(),
                    *payload is Obj && payload->Obj_0 == *o,
                    strings_below(payload@, n),
                    fv == fields_view(o@),
                    out@ == found_in_fields(fv.take(i as int), key@, n),
                decreases o@.len() - i,
            {
                assert(fv.take(i + 1).drop_last() =~= fv.take(i as int));
                assert(fv.take(i + 1).last() == (o@[i as int].0@, o@[i as int].1@));
                assert(payload@->Obj_0[i as int].1 == o@[i as int].1@);
                let here = find_within(&o[i].1, key, Ghost(n));
                if out.as_str().is_empty() {
                    out = here;
                }
                i += 1;
            }
            assert(fv.take(i as int) =~= fv);
            out
        },
        Json::Arr(items) => {
            let ghost v = list_view(items@);
            let mut out = String::new();
            let mut i: usize = 0;
            assert(v.take(0) =~= Seq::empty());
            while i < items.len()
                invariant
                    i <= items@.len(),
                    *payload is Arr && payload->Arr_0 == *items,
                    strings_below(payload@, n),
                    v == list_view(items@),
                    out@ == found_in_items(v.take(i as int), key@, n),
                decreases items@.len() - i,
            {
                assert(v.take(i + 1).drop_last() =~= v.take(i as int));
                assert(v.take(i + 1).last() == items@[i as int]@);
                assert(payload@->Arr_0[i as int] == items@[i as int]@);
                let here = find_within(&items[i], key, Ghost(n));
                if out.as_str().is_empty() {
                    out = here;
                }
                i += 1;
            }
            assert(v.take(i as int) =~= v);
            out
        },
        _ => String::new(),
    }
}

/// Finds what stands under a name in a value, at whatever depth; empty where nothing does.
pub fn find_value(payload: &Json, key: &str) -> (r: String)
    ensures
        r@ == found_value(payload@, key@),
{
    proof {
        lemma_text_bound(payload@, text_bound(payload@));
    }
    find_within(payload, key, Ghost(text_bound(payload@)))
}

// ---------------------------------------------------------------------------
// sources
// ---------------------------------------------------------------------------

/// The objects in a value, each before those in it.
pub open spec fn objects_in(v: JsonView) -> Seq<JsonView>
    decreases v,
{
    match v {
        JsonView::Obj(o) => seq![v] + objects_in_fields(o),
        JsonView::Arr(items) => objects_in_items(items),
        _ => Seq::empty(),
    }
}

/// The objects in the items of a list.
pub open spec fn objects_in_items(items: Seq<JsonView>) -> Seq<JsonView>
    decreases items,
{
    if items.len() == 0 {
        Seq::empty()
    } else {
        objects_in_items(items.drop_last()) + objects_in(items.last())
    }
}

/// The objects in the fields of an object.
pub open spec fn objects_in_fields(o: Seq<(Seq<char>, JsonView)>) -> Seq<JsonView>
    decreases o,
{
    if o.len() == 0 {
        Seq::empty()
    } else {
        objects_in_fields(o.drop_last()) + objects_in(o.last().1)
    }
}

/// Adds the objects in a value, each before those in it.
pub fn walk_dicts(payload: &Json, out: &mut Vec<Json>)
    ensures
        list_view(final(out)@) == list_view(old(out)@) + objects_in(payload@),
    decreases payload,
{
    let ghost had = list_view(out@);
    match payload {
        Json::Obj(o) => {
            let ghost fv = fields_view(o@);
            out.push(payload.copy());
            let ghost base = had + seq![payload@];
            assert(list_view(out@) =~= base);
            let mut i: usize = 0;
            assert(fv.take(0) =~= Seq::empty());
            assert(base + objects_in_fields(fv.take(0)) =~= base);
            while i < o.len()
                invariant
                    i <= o@.len(),
                    *payload is Obj && payload->Obj_0 == *o,
                    fv == fields_view(o@),
                    list_view(out@) == base + objects_in_fields(fv.take(i as int)),
                decreases o@.len() - i,
            {
                assert(fv.take(i + 1).drop_last() =~= fv.take(i as int));
                assert(fv.take(i + 1).last() == (o@[i as int].0@, o@[i as int].1@));
                walk_dicts(&o[i].1, out);
                assert(list_view(out@) =~= base + objects_in_fields(fv.take(i + 1)));
                i += 1;
            }
            assert(fv.take(i as int) =~= fv);
            assert(base + objects_in_fields(fv) =~= had + (seq![payload@] + objects_in_fields(fv)));
        },
        Json::Arr(items) => {
            let ghost v = list_view(items@);
            let mut i: usize = 0;
            assert(v.take(0) =~= Seq::empty());
            assert(had + objects_in_items(v.take(0)) =~= had);
            while i < items.len()
                invariant
                    i <= items@.len(),
                    *payload is Arr && payload->Arr_0 == *items,
                    v == list_view(items@),
                    list_view(out@) == had + objects_in_items(v.take(i as int)),
                decreases items@.len() - i,
            {
                assert(v.take(i + 1).drop_last() =~= v.take(i as int));
                assert(v.take(i + 1).last() == items@[i as int]@);
                walk_dicts(&items[i], out);
                assert(list_view(out@) =~= had + objects_in_items(v.take(i + 1)));
                i += 1;
            }
            assert(v.take(i as int) =~= v);
        },
        _ => {
            assert(had + Seq::empty() =~= had);
        },
    }
}

/// An address without the white space round it and the marks behind it.
pub open spec fn clean_url(s: Seq<char>) -> Seq<char> {
    skip_back(trimmed(s), CharClass::Stop)
}

/// Takes the white space round an address away, and the marks behind it.
pub fn clean_search_url(value: &str) -> (r: String)
    ensures
        r@ == clean_url(value@),
{
    trim_back(trim(value).as_str(), CharClass::Stop)
}

/// The address of a source: the first of four fields that is there, where it is a text.
pub open spec fn source_url(o: JsonView) -> Seq<char> {
    let v = match o.get("url"@) {
        Some(v) => v,
        None => match o.get("link"@) {
            Some(v) => v,
            None => match o.get("source_url"@) {
                Some(v) => v,
                None => o.at("metadata"@).at("url"@),
            },
        },
    };
    clean_url(
        match v {
            JsonView::Str(s) => s,
            _ => Seq::empty(),
        },
    )
}

fn url_of(o: &Json) -> (r: String)
    ensures
        r@ == source_url(o@),
{
    let v = match o.get("url") {
        Some(v) => v.copy(),
        None => match o.get("link") {
            Some(v) => v.copy(),
            None => match o.get("source_url") {
                Some(v) => v.copy(),
                None => o.at("metadata").at("url"),
            },
        },
    };
    let raw = match v {
        Json::Str(s) => s,
        _ => String::new(),
    };
    clean_search_url(raw.as_str())
}

/// A source as it is listed.
pub open spec fn source_entry(
    title: Seq<char>,
    url: Seq<char>,
    snippet: Seq<char>,
    kind: Seq<char>,
) -> JsonView {
    empty_object().put("title"@, JsonView::Str(title)).put("url"@, JsonView::Str(url)).put(
        "snippet"@,
        JsonView::Str(snippet),
    ).put("source_type"@, JsonView::Str(kind))
}

fn make_source(title: &str, url: &str, snippet: &str, kind: &str) -> (r: Json)
    ensures
        r@ == source_entry(title@, url@, snippet@, kind@),
{
    let mut o = Json::object();
    o.set("title", Json::from_text(title));
    o.set("url", Json::from_text(url));
    o.set("snippet", Json::from_text(snippet));
    o.set("source_type", Json::from_text(kind));
    o
}

/// The first of three fields that is not blank.
pub open spec fn first_filled(o: JsonView, a: Seq<char>, b: Seq<char>, c: Seq<char>) -> Seq<char> {
    or_else(trimmed(o.str_at(a)), or_else(trimmed(o.str_at(b)), trimmed(o.str_at(c))))
}

fn filled_field(o: &Json, a: &str, b: &str, c: &str) -> (r: String)
    ensures
        r@ == first_filled(o@, a@, b@, c@),
{
    let x = trim(o.str_at(a).as_str());
    if !x.as_str().is_empty() {
        return x;
    }
    let y = trim(o.str_at(b).as_str());
    if !y.as_str().is_empty() {
        return y;
    }
    trim(o.str_at(c).as_str())
}

/// The source that an object stands for.
pub open spec fn source_of(o: JsonView) -> JsonView {
    source_entry(
        first_filled(o, "title"@, "name"@, "source"@),
        source_url(o),
        first_filled(o, "snippet"@, "text"@, "description"@),
        first_filled(o, "type"@, "source_type"@, "source_type"@),
    )
}

/// Whether there is a source with an address.
pub open spec fn has_source(sources: Seq<JsonView>, url: Seq<char>) -> bool {
    exists|i: int|
        0 <= i < sources.len() && (#[trigger] sources[i]).get("url"@) == Some(JsonView::Str(url))
}

fn knows_source(sources: &Vec<Json>, url: &str) -> (r: bool)
    ensures
        r == has_source(list_view(sources@), url@),
{
    let ghost v = list_view(sources@);
    let mut i: usize = 0;
    while i < sources.len()
        invariant
            i <= sources@.len(),
            v == list_view(sources@),
            forall|k: int|
                0 <= k < i ==> (#[trigger] v[k]).get("url"@) != Some(JsonView::Str(url@)),
        decreases sources@.len() - i,
    {
        assert(v[i as int] == sources@[i as int]@);
        if crate::account::holds_at(&sources[i], "url", url) {
            return true;
        }
        i += 1;
    }
    false
}

/// The sources that objects stand for, each address once.
pub open spec fn sources_of(objects: Seq<JsonView>) -> Seq<JsonView>
    decreases objects.len(),
{
    if objects.len() == 0 {
        Seq::empty()
    } else {
        let rest = sources_of(objects.drop_last());
        let url = source_url(objects.last());
        if url.len() == 0 || has_source(rest, url) {
            rest
        } else {
            rest.push(source_of(objects.last()))
        }
    }
}

/// Collects the sources that the objects in a value stand for.
pub fn extract_search_sources(payload: &Json) -> (r: Vec<Json>)
    ensures
        list_view(r@) == sources_of(objects_in(payload@)),
{
    let mut objects: Vec<Json> = Vec::new();
    assert(list_view(objects@) =~= Seq::empty());
    walk_dicts(payload, &mut objects);
    let ghost v = list_view(objects@);
    assert(v =~= objects_in(payload@));
    let mut out: Vec<Json> = Vec::new();
    let mut i: usize = 0;
    assert(list_view(out@) =~= Seq::empty());
    while i < objects.len()
        invariant
            i <= objects@.len(),
            v == list_view(objects@),
            list_view(out@) == sources_of(v.take(i as int)),
        decreases objects@.len() - i,
    {
        assert(v.take(i + 1).drop_last() =~= v.take(i as int));
        assert(v.take(i + 1).last() == objects@[i as int]@);
        let ghost done = list_view(out@);
        let o = &objects[i];
        let url = url_of(o);
        if !url.as_str().is_empty() && !knows_source(&out, url.as_str()) {
            let s = make_source(
                filled_field(o, "title", "name", "source").as_str(),
                url.as_str(),
                filled_field(o, "snippet", "text", "description").as_str(),
                filled_field(o, "type", "source_type", "source_type").as_str(),
            );
            let ghost sv = s@;
            out.push(s);
            assert(list_view(out@) =~= done.push(sv));
        }
        i += 1;
    }
    assert(v.take(i as int) =~= v);
    out
}

// ---------------------------------------------------------------------------
// the answer
// ---------------------------------------------------------------------------

/// A text as a list, empty where it is.
pub open spec fn filled_list(s: Seq<char>) -> Seq<Seq<char>> {
    if s.len() > 0 {
        seq![s]
    } else {
        Seq::empty()
    }
}

/// The texts of a part of a message.
pub open spec fn part_texts(p: JsonView) -> Seq<Seq<char>> {
    match p {
        JsonView::Str(s) => seq![s],
        JsonView::Obj(_) => filled_list(p.str_at("text"@)) + filled_list(p.str_at("summary"@))
            + filled_list(p.str_at("content"@)),
        _ => Seq::empty(),
    }
}

/// The texts of parts, in order.
pub open spec fn all_part_texts(parts: Seq<JsonView>) -> Seq<Seq<char>>
    decreases parts.len(),
{
    if parts.len() == 0 {
        Seq::empty()
    } else {
        all_part_texts(parts.drop_last()) + part_texts(parts.last())
    }
}

/// The texts of the content of a message.
pub open spec fn answer_texts(content: JsonView) -> Seq<Seq<char>> {
    match content {
        JsonView::Obj(_) => (match content.get("text"@) {
            Some(JsonView::Str(s)) => seq![s],
            _ => Seq::empty(),
        }) + all_part_texts(content.items_at("parts"@)),
        JsonView::Str(s) => seq![s],
        _ => Seq::empty(),
    }
}

/// The text of a message.
pub open spec fn answer_text(message: JsonView) -> Seq<char> {
    trimmed(joined(filled_trimmed(answer_texts(message.at("content"@))), "\n"@))
}

fn push_filled(out: &mut Vec<String>, s: String)
    ensures
        views(final(out)@) == views(old(out)@) + filled_list(s@),
{
    let ghost had = views(out@);
    if !s.as_str().is_empty() {
        let ghost sv = s@;
        out.push(s);
        assert(views(out@) =~= had + seq![sv]);
    } else {
        assert(had + Seq::empty() =~= had);
    }
}

fn push_part(out: &mut Vec<String>, p: &Json)
    ensures
        views(final(out)@) == views(old(out)@) + part_texts(p@),
{
    let ghost had = views(out@);
    match p {
        Json::Str(s) => {
            out.push(s.clone());
            assert(views(out@) =~= had + seq![s@]);
        },
        Json::Obj(_) => {
            push_filled(out, p.str_at("text"));
            push_filled(out, p.str_at("summary"));
            push_filled(out, p.str_at("content"));
            assert(views(out@) =~= had + part_texts(p@));
        },
        _ => {
            assert(had + Seq::empty() =~= had);
        },
    }
}

/// Reads the text of a message.
pub fn search_message_text(message: &Json) -> (r: String)
    ensures
        r@ == answer_text(message@),
{
    let content = message.at("content");
    let mut out: Vec<String> = Vec::new();
    assert(views(out@) =~= Seq::empty());
    match &content {
        Json::Obj(_) => {
            let ghost mut first: Seq<Seq<char>> = Seq::empty();
            match content.get("text") {
                Some(Json::Str(s)) => {
                    out.push(s.clone());
                    assert(views(out@) =~= seq![s@]);
                    proof {
                        first = seq![s@];
                    }
                },
                _ => {},
            }
            let parts = content.items_at("parts");
            let ghost v = list_view(parts@);
            let mut i: usize = 0;
            assert(v.take(0) =~= Seq::empty());
            assert(first + all_part_texts(v.take(0)) =~= first);
            while i < parts.len()
                invariant
                    i <= parts@.len(),
                    v == list_view(parts@),
                    views(out@) == first + all_part_texts(v.take(i as int)),
                decreases parts@.len() - i,
            {
                assert(v.take(i + 1).drop_last() =~= v.take(i as int));
                assert(v.take(i + 1).last() == parts@[i as int]@);
                push_part(&mut out, &parts[i]);
                assert(views(out@) =~= first + all_part_texts(v.take(i + 1)));
                i += 1;
            }
            assert(v.take(i as int) =~= v);
        },
        Json::Str(s) => {
            out.push(s.clone());
            assert(views(out@) =~= seq![s@]);
        },
        _ => {},
    }
    trim(join(&trim_filled(&out), "\n").as_str())
}

/// The messages of the assistant in a conversation.
pub open spec fn assistant_message() -> spec_fn((Seq<char>, JsonView)) -> Option<JsonView> {
    |e: (Seq<char>, JsonView)|
        if e.1.at("message"@).at("author"@).get("role"@) == Some(JsonView::Str("assistant"@)) {
            Some(e.1.at("message"@))
        } else {
            None
        }
}

/// The last of the messages with the latest time; an empty object where there is none.
pub open spec fn latest_message(messages: Seq<JsonView>) -> JsonView
    decreases messages.len(),
{
    if messages.len() == 0 {
        empty_object()
    } else if messages.len() == 1 {
        messages[0]
    } else {
        let best = latest_message(messages.drop_last());
        if number_below(
            time_text(messages.last().at("create_time"@)),
            time_text(best.at("create_time"@)),
        ) {
            best
        } else {
            messages.last()
        }
    }
}

fn latest_of(messages: &Vec<Json>) -> (r: Json)
    ensures
        r@ == latest_message(list_view(messages@)),
{
    let ghost v = list_view(messages@);
    assert(v.len() == messages@.len());
    if messages.len() == 0 {
        return Json::object();
    }
    let mut best = messages[0].copy();
    let mut i: usize = 1;
    assert(v.take(1)[0] == messages@[0]@);
    while i < messages.len()
        invariant
            1 <= i <= messages@.len(),
            v == list_view(messages@),
            best@ == latest_message(v.take(i as int)),
        decreases messages@.len() - i,
    {
        assert(v.take(i + 1).drop_last() =~= v.take(i as int));
        assert(v.take(i + 1).last() == messages@[i as int]@);
        let mine = text_of_time(&messages[i].at("create_time"));
        if !is_below(mine.as_str(), text_of_time(&best.at("create_time")).as_str()) {
            best = messages[i].copy();
        }
        i += 1;
    }
    assert(v.take(i as int) =~= v);
    best
}

/// The sources with those that a text names.
pub open spec fn with_named_sources(sources: Seq<JsonView>, urls: Seq<Seq<char>>) -> Seq<JsonView>
    decreases urls.len(),
{
    if urls.len() == 0 {
        sources
    } else {
        let rest = with_named_sources(sources, urls.drop_last());
        let url = clean_url(urls.last());
        if url.len() == 0 || has_source(rest, url) {
            rest
        } else {
            rest.push(source_entry(""@, url, ""@, ""@))
        }
    }
}

/// The status of an answer.
pub open spec fn answer_status(message: JsonView) -> Seq<char> {
    let metadata = message.at("metadata"@);
    let said = match metadata.at("finish_details"@).get("type"@) {
        Some(JsonView::Str(s)) => s,
        _ => metadata.str_at("status"@),
    };
    trimmed(or_else(said, found_value(message, "status"@)))
}

/// What a conversation gives as the answer of a search.
pub open spec fn search_result(conversation_id: Seq<char>, conversation: JsonView) -> JsonView {
    let message = latest_message(nodes_of(conversation).filter_map(assistant_message()));
    let answer = answer_text(message);
    empty_object().put("conversation_id"@, JsonView::Str(conversation_id)).put(
        "status"@,
        JsonView::Str(answer_status(message)),
    ).put("answer"@, JsonView::Str(answer)).put(
        "sources"@,
        JsonView::Arr(
            with_named_sources(
                sources_of(objects_in(message)),
                whole_matches(SEARCH_URL@, answer),
            ),
        ),
    ).put("assistant_message_id"@, JsonView::Str(message.str_at("id"@))).put(
        "create_time"@,
        float_of(time_text(message.at("create_time"@))),
    )
}

fn assistant_messages(conversation: &Json) -> (r: Vec<Json>)
    ensures
        list_view(r@) == nodes_of(conversation@).filter_map(assistant_message()),
{
    let mut out: Vec<Json> = Vec::new();
    let ghost f = assistant_message();
    assert(list_view(out@) =~= Seq::empty());
    match conversation.get("mapping") {
        Some(Json::Obj(o)) => {
            let ghost v = fields_view(o@);
            let mut i: usize = 0;
            assert(v.take(0).filter_map(f) =~= Seq::empty());
            while i < o.len()
                invariant
                    i <= o@.len(),
                    v == fields_view(o@),
                    f == assistant_message(),
                    list_view(out@) == v.take(i as int).filter_map(f),
                decreases o@.len() - i,
            {
                proof {
                    v.lemma_filter_map_take_succ(f, i as int);
                }
                let ghost done = list_view(out@);
                assert(v[i as int] == (o@[i as int].0@, o@[i as int].1@));
                let m = o[i].1.at("message");
                if crate::account::holds_at(&m.at("author"), "role", "assistant") {
                    let ghost mv = m@;
                    out.push(m);
                    assert(list_view(out@) =~= done + seq![mv]);
                }
                assert(list_view(out@) =~= v.take(i + 1).filter_map(f));
                i += 1;
            }
            assert(v.take(i as int) =~= v);
        },
        _ => {
            assert(Seq::<(Seq<char>, JsonView)>::empty().filter_map(f) =~= Seq::empty());
        },
    }
    out
}

/// Reads the answer of a search from a conversation.
pub fn extract_search_result(conversation_id: &str, conversation: &Json) -> (r: Json)
    ensures
        r@ == search_result(conversation_id@, conversation@),
{
    let message = latest_of(&assistant_messages(conversation));
    let metadata = message.at("metadata");
    let answer = search_message_text(&message);
    let mut sources = extract_search_sources(&message);
    let ghost first = list_view(sources@);
    let urls = find_matches(SEARCH_URL, answer.as_str());
    let ghost uv = views(urls@);
    let mut i: usize = 0;
    assert(uv.take(0) =~= Seq::empty());
    while i < urls.len()
        invariant
            i <= urls@.len(),
            uv == views(urls@),
            list_view(sources@) == with_named_sources(first, uv.take(i as int)),
        decreases urls@.len() - i,
    {
        assert(uv.take(i + 1).drop_last() =~= uv.take(i as int));
        assert(uv.take(i + 1).last() == urls@[i as int]@);
        let ghost done = list_view(sources@);
        let url = clean_search_url(urls[i].as_str());
        if !url.as_str().is_empty() && !knows_source(&sources, url.as_str()) {
            let s = make_source("", url.as_str(), "", "");
            let ghost sv = s@;
            sources.push(s);
            assert(list_view(sources@) =~= done.push(sv));
        }
        i += 1;
    }
    assert(uv.take(i as int) =~= uv);
    let details = metadata.at("finish_details");
    let said = match details.get("type") {
        Some(Json::Str(s)) => s.clone(),
        _ => metadata.str_at("status"),
    };
    let status = if said.as_str().is_empty() {
        find_value(&message, "status")
    } else {
        said
    };
    let time = text_of_time(&message.at("create_time"));
    let mut o = Json::object();
    o.set("conversation_id", Json::from_text(conversation_id));
    o.set("status", Json::Str(trim(status.as_str())));
    o.set("answer", Json::Str(answer));
    o.set("sources", Json::Arr(sources));
    o.set("assistant_message_id", Json::Str(message.str_at("id")));
    o.set("create_time", float_value(time.as_str()));
    o
}

// ---------------------------------------------------------------------------
// the request
// ---------------------------------------------------------------------------

/// The headers of the request that prepares a search.
pub fn prepare_search_headers(path: &str) -> (r: Vec<(String, String)>)
    ensures
        pairs_view(r@) == path_headers(path@) + seq![
            ("Accept"@, "*/*"@),
            ("Content-Type"@, "application/json"@),
            ("X-Conduit-Token"@, "no-token"@),
        ],
{
    let mut h: Vec<(String, String)> = Vec::new();
    h.push(("Accept".to_owned(), "*/*".to_owned()));
    h.push(("Content-Type".to_owned(), "application/json".to_owned()));
    h.push(("X-Conduit-Token".to_owned(), "no-token".to_owned()));
    assert(pairs_view(h@) =~= seq![
        ("Accept"@, "*/*"@),
        ("Content-Type"@, "application/json"@),
        ("X-Conduit-Token"@, "no-token"@),
    ]);
    req_headers(path, h)
}

/// Reads the token that a prepared search gives.
pub fn read_conduit_token(data: &Json) -> (r: Result<String, EngineError>)
    ensures
        if data@.str_at("conduit_token"@).len() == 0 {
            r matches Err(e) && e.says("missing conduit_token"@)
        } else {
            r is Ok && r->Ok_0@ == data@.str_at("conduit_token"@)
        },
{
    let token = data.str_at("conduit_token");
    if token.as_str().is_empty() {
        Err(EngineError::other("missing conduit_token"))
    } else {
        Ok(token)
    }
}

/// What a page for a search says of itself.
pub open spec fn search_page() -> JsonView {
    empty_object().put("is_dark_mode"@, JsonView::Bool(false)).put(
        "time_since_loaded"@,
        int_json(36),
    ).put("page_height"@, int_json(925)).put("page_width"@, int_json(886)).put(
        "pixel_ratio"@,
        int_json(2),
    ).put("screen_height"@, int_json(1440)).put("screen_width"@, int_json(2560)).put(
        "app_name"@,
        JsonView::Str("chatgpt.com"@),
    )
}

/// The request for a search.
pub open spec fn search_request(message: JsonView, model: Seq<char>) -> JsonView {
    empty_object().put("action"@, JsonView::Str("next"@)).put(
        "messages"@,
        JsonView::Arr(seq![message]),
    ).put("parent_message_id"@, JsonView::Str("client-created-root"@)).put(
        "model"@,
        JsonView::Str(model),
    ).put("client_prepare_state"@, JsonView::Str("success"@)).put(
        "timezone_offset_min"@,
        int_json(-480),
    ).put("timezone"@, JsonView::Str("Asia/Shanghai"@)).put(
        "conversation_mode"@,
        single("kind"@, JsonView::Str("primary_assistant"@)),
    ).put("enable_message_followups"@, JsonView::Bool(true)).put("system_hints"@, no_items()).put(
        "supports_buffering"@,
        JsonView::Bool(true),
    ).put("supported_encodings"@, one_text("v1"@)).put("force_use_search"@, JsonView::Bool(true)).put(
        "client_reported_search_source"@,
        JsonView::Str("conversation_composer_web_icon"@),
    ).put("client_contextual_info"@, search_page()).put(
        "paragen_cot_summary_display_override"@,
        JsonView::Str("allow"@),
    ).put("force_parallel_switch"@, JsonView::Str("auto"@))
}

/// Makes the request for a search; `time` is when it is made.
pub fn search_payload(prompt: &str, model: &str, message_id: &str, time: Json) -> (r: Json)
    ensures
        r@ == search_request(
            user_message(message_id@, time@, text_content(prompt@), message_metadata("search"@)),
            model@,
        ),
        r@.str_at("model"@) == model@,
        r@.get("force_use_search"@) == Some(JsonView::Bool(true)),
        r@.items_at("messages"@)[0].str_at("id"@) == message_id@,
        r@.items_at("messages"@)[0].at("content"@).items_at("parts"@) == seq![JsonView::Str(prompt@)],
{
    let ghost sent = time@;
    let message = make_user_message(
        message_id,
        time,
        make_text_content(prompt),
        make_metadata("search"),
    );
    let ghost mv = message@;
    let mut messages: Vec<Json> = Vec::new();
    messages.push(message);
    assert(list_view(messages@) =~= seq![mv]);
    let mut page = Json::object();
    page.set("is_dark_mode", Json::Bool(false));
    page.set("time_since_loaded", Json::from_int(36));
    page.set("page_height", Json::from_int(925));
    page.set("page_width", Json::from_int(886));
    page.set("pixel_ratio", Json::from_int(2));
    page.set("screen_height", Json::from_int(1440));
    page.set("screen_width", Json::from_int(2560));
    page.set("app_name", Json::from_text("chatgpt.com"));
    let mut o = Json::object();
    o.set("action", Json::from_text("next"));
    o.set("messages", Json::Arr(messages));
    o.set("parent_message_id", Json::from_text("client-created-root"));
    o.set("model", Json::from_text(model));
    o.set("client_prepare_state", Json::from_text("success"));
    o.set("timezone_offset_min", Json::from_int(-480));
    o.set("timezone", Json::from_text("Asia/Shanghai"));
    o.set("conversation_mode", single_field("kind", Json::from_text("primary_assistant")));
    o.set("enable_message_followups", Json::Bool(true));
    o.set("system_hints", empty_list());
    o.set("supports_buffering", Json::Bool(true));
    o.set("supported_encodings", text_list("v1"));
    o.set("force_use_search", Json::Bool(true));
    o.set("client_reported_search_source", Json::from_text("conversation_composer_web_icon"));
    o.set("client_contextual_info", page);
    o.set("paragen_cot_summary_display_override", Json::from_text("allow"));
    o.set("force_parallel_switch", Json::from_text("auto"));
    proof {
        crate::exchange_laws::law_search_request(message_id@, sent, prompt@, model@);
    }
    o
}

/// The headers of the request for a conversation; a later one stands in the place of an earlier
/// one of its name.
pub fn search_conversation_headers(base_url: &str, conversation_id: &str) -> (r: Vec<(String, String)>)
    ensures
        pairs_view(r@) == path_headers("/backend-api/conversation/"@ + conversation_id@) + seq![
            ("Accept"@, "*/*"@),
            ("Referer"@, base_url@ + "/c/"@ + conversation_id@),
            ("X-OpenAI-Target-Route"@, "/backend-api/conversation/{conversation_id}"@),
        ],
{
    let path = cat("/backend-api/conversation/", conversation_id);
    let mut h: Vec<(String, String)> = Vec::new();
    h.push(("Accept".to_owned(), "*/*".to_owned()));
    h.push(("Referer".to_owned(), cat3(base_url, "/c/", conversation_id)));
    h.push(
        (
            "X-OpenAI-Target-Route".to_owned(),
            "/backend-api/conversation/{conversation_id}".to_owned(),
        ),
    );
    assert(pairs_view(h@) =~= seq![
        ("Accept"@, "*/*"@),
        ("Referer"@, base_url@ + "/c/"@ + conversation_id@),
        ("X-OpenAI-Target-Route"@, "/backend-api/conversation/{conversation_id}"@),
    ]);
    req_headers(path.as_str(), h)
}

/// Takes a payload of the stream of a search in: the first that names the conversation settles
/// its id. Tells whether the stream is over.
pub fn take_search_payload(conversation_id: &mut String, payload: &str) -> (r: bool)
    ensures
        final(conversation_id)@ == or_else(
            old(conversation_id)@,
            found_value(JsonView::Str(payload@), "conversation_id"@),
        ),
        r == (payload@ == "[DONE]"@),
{
    if conversation_id.as_str().is_empty() {
        *conversation_id = find_value(&Json::from_text(payload), "conversation_id");
    }
    same(payload, "[DONE]")
}

/// Settles the id of the conversation once its stream is over.
pub fn finish_search_stream(conversation_id: String) -> (r: Result<String, EngineError>)
    ensures
        if conversation_id@.len() == 0 {
            r matches Err(e) && e.says("conversation_id not found in stream"@)
        } else {
            r is Ok && r->Ok_0@ == conversation_id@
        },
{
    if conversation_id.as_str().is_empty() {
        Err(EngineError::other("conversation_id not found in stream"))
    } else {
        Ok(conversation_id)
    }
}

// ---------------------------------------------------------------------------
// waiting for the answer
// ---------------------------------------------------------------------------

/// What is done next while an answer is waited for.
pub enum SearchStep {
    Fail(EngineError),
    Done(Json),
    Wait,
}

/// Whether a failure to get a conversation passes.
pub open spec fn passing(status: u16) -> bool {
    status == 404 || status == 409 || status == 423 || status == 429 || status == 500 || status
        == 502 || status == 503 || status == 504
}

/// The wait for the answer of a search: an answer counts once it is done, or has stayed the same
/// three times.
pub struct SearchWait {
    last_result: Option<Json>,
    last_answer: String,
    stable_hits: u32,
}

impl SearchWait {
    /// The last answer that was read.
    pub closed spec fn result(self) -> Option<JsonView> {
        match self.last_result {
            Some(v) => Some(v@),
            None => None,
        }
    }

    /// The last text that was not empty.
    pub closed spec fn answer(self) -> Seq<char> {
        self.last_answer@
    }

    /// How many times in a row that text came again.
    pub closed spec fn hits(self) -> nat {
        self.stable_hits as nat
    }

    #[verifier::type_invariant]
    pub closed spec fn wf(self) -> bool {
        self.stable_hits <= 2
    }

    pub fn new() -> (r: SearchWait)
        ensures
            r.result() is None,
            r.answer().len() == 0,
            r.hits() == 0,
    {
        SearchWait { last_result: None, last_answer: String::new(), stable_hits: 0 }
    }

    /// Takes in the conversation, or the failure to get it, and tells what is done next. A failure
    /// that passes leaves the last answer in its place.
    pub fn take(&mut self, conversation_id: &str, conversation: Result<Json, EngineError>) -> (r:
        SearchStep)
        ensures
            ({
                let now = match conversation {
                    Ok(c) => Some(search_result(conversation_id@, c@)),
                    Err(_) => old(self).result(),
                };
                let text = match now {
                    Some(v) => v.str_at("answer"@),
                    None => Seq::empty(),
                };
                let status = match now {
                    Some(v) => v.str_at("status"@),
                    None => Seq::empty(),
                };
                let hits = if text != old(self).answer() {
                    0
                } else if old(self).hits() < 2 {
                    old(self).hits() + 1
                } else {
                    2
                };
                if conversation is Err && !(conversation->Err_0 is Upstream && passing(
                    conversation->Err_0->Upstream_0.status_code,
                )) {
                    &&& r matches SearchStep::Fail(e) && e == conversation->Err_0
                    &&& final(self).result() == old(self).result()
                    &&& final(self).hits() == old(self).hits()
                    &&& final(self).answer() == old(self).answer()
                } else {
                    &&& final(self).result() == now
                    &&& if text.len() == 0 {
                        &&& r is Wait
                        &&& final(self).hits() == old(self).hits()
                        &&& final(self).answer() == old(self).answer()
                    } else if status == "finished_successfully"@ || status
                        == "finished_partial_completion"@ {
                        &&& r matches SearchStep::Done(v) && Some(v@) == now
                        &&& final(self).hits() == old(self).hits()
                        &&& final(self).answer() == old(self).answer()
                    } else {
                        &&& final(self).hits() == hits
                        &&& final(self).answer() == text
                        &&& if hits >= 2 {
                            r matches SearchStep::Done(v) && Some(v@) == now
                        } else {
                            r is Wait
                        }
                    }
                }
            }),
    {
        proof {
            use_type_invariant(&*self);
        }
        match conversation {
            Ok(c) => {
                let found = extract_search_result(conversation_id, &c);
                self.last_result = Some(found);
            },
            Err(e) => {
                let passes = match &e {
                    EngineError::Upstream(u) => {
                        let c = u.status_code;
                        c == 404 || c == 409 || c == 423 || c == 429 || c == 500 || c == 502 || c
                            == 503 || c == 504
                    },
                    _ => false,
                };
                if !passes {
                    return SearchStep::Fail(e);
                }
            },
        }
        let now = match &self.last_result {
            Some(v) => v.copy(),
            None => {
                return SearchStep::Wait;
            },
        };
        let text = now.str_at("answer");
        if text.as_str().is_empty() {
            return SearchStep::Wait;
        }
        let status = now.str_at("status");
        if same(status.as_str(), "finished_successfully") || same(
            status.as_str(),
            "finished_partial_completion",
        ) {
            return SearchStep::Done(now);
        }
        let hits: u32 = if !same(text.as_str(), self.last_answer.as_str()) {
            0
        } else if self.stable_hits < 2 {
            self.stable_hits + 1
        } else {
            2
        };
        self.stable_hits = hits;
        self.last_answer = text;
        if hits >= 2 {
            SearchStep::Done(now)
        } else {
            SearchStep::Wait
        }
    }

    /// What is given when the time is up: the last answer that was read, or that there is none.
    pub fn timed_out(self, conversation_id: &str) -> (r: Result<Json, EngineError>)
        ensures
            match self.result() {
                Some(v) => r is Ok && r->Ok_0@ == v,
                None => r matches Err(e) && e.says(
                    "timed out waiting for search result: "@ + conversation_id@,
                ),
            },
    {
        match self.last_result {
            Some(v) => Ok(v),
            None => Err(
                EngineError::Other(cat("timed out waiting for search result: ", conversation_id)),
            ),
        }
    }
}

// ---------------------------------------------------------------------------
// laws
// ---------------------------------------------------------------------------

proof fn lemma_source_url(title: Seq<char>, url: Seq<char>, snippet: Seq<char>, kind: Seq<char>)
    ensures
        source_entry(title, url, snippet, kind).get("url"@) == Some(JsonView::Str(url)),
{
    broadcast use crate::value::group_fields;

    reveal_strlit("title");
    reveal_strlit("url");
    reveal_strlit("snippet");
    reveal_strlit("source_type");
    assert("title"@.len() == 5);
    assert("url"@.len() == 3);
    assert("snippet"@.len() == 7);
    assert("source_type"@.len() == 11);
}

/// No address stands among the sources twice, and none is empty.
pub proof fn law_sources_differ(objects: Seq<JsonView>, urls: Seq<Seq<char>>, i: int, j: int)
    requires
        0 <= i < j < with_named_sources(sources_of(objects), urls).len(),
    ensures
        ({
            let all = with_named_sources(sources_of(objects), urls);
            all[i].str_at("url"@) != all[j].str_at("url"@) && all[i].str_at("url"@).len() > 0
        }),
{
    lemma_sources(objects);
    lemma_named_distinct(sources_of(objects), urls);
}

/// Whether each source has an address, and none the same as another.
spec fn distinct_sources(s: Seq<JsonView>) -> bool {
    &&& forall|i: int|
        0 <= i < s.len() ==> (#[trigger] s[i]).str_at("url"@).len() > 0 && s[i].get("url"@) == Some(
            JsonView::Str(s[i].str_at("url"@)),
        )
    &&& forall|i: int, j: int|
        0 <= i < j < s.len() ==> (#[trigger] s[i]).str_at("url"@) != (#[trigger] s[j]).str_at(
            "url"@,
        )
}

proof fn lemma_push_source(s: Seq<JsonView>, x: JsonView, url: Seq<char>)
    requires
        distinct_sources(s),
        url.len() > 0,
        x.get("url"@) == Some(JsonView::Str(url)),
        !has_source(s, url),
    ensures
        distinct_sources(s.push(x)),
{
    let p = s.push(x);
    assert(x.str_at("url"@) == url);
    assert forall|i: int| 0 <= i < p.len() implies (#[trigger] p[i]).str_at("url"@).len() > 0
        && p[i].get("url"@) == Some(JsonView::Str(p[i].str_at("url"@))) by {
        if i < s.len() {
            assert(p[i] == s[i]);
        }
    }
    assert forall|i: int, j: int| 0 <= i < j < p.len() implies (#[trigger] p[i]).str_at("url"@)
        != (#[trigger] p[j]).str_at("url"@) by {
        assert(p[i] == s[i]);
        if j < s.len() {
            assert(p[j] == s[j]);
        }
    }
}

proof fn lemma_sources(objects: Seq<JsonView>)
    ensures
        distinct_sources(sources_of(objects)),
    decreases objects.len(),
{
    if objects.len() > 0 {
        lemma_sources(objects.drop_last());
        let rest = sources_of(objects.drop_last());
        let url = source_url(objects.last());
        if url.len() > 0 && !has_source(rest, url) {
            let o = objects.last();
            lemma_source_url(
                first_filled(o, "title"@, "name"@, "source"@),
                url,
                first_filled(o, "snippet"@, "text"@, "description"@),
                first_filled(o, "type"@, "source_type"@, "source_type"@),
            );
            lemma_push_source(rest, source_of(o), url);
        }
    }
}

proof fn lemma_named_distinct(s: Seq<JsonView>, urls: Seq<Seq<char>>)
    requires
        distinct_sources(s),
    ensures
        distinct_sources(with_named_sources(s, urls)),
    decreases urls.len(),
{
    if urls.len() > 0 {
        lemma_named_distinct(s, urls.drop_last());
        let rest = with_named_sources(s, urls.drop_last());
        let url = clean_url(urls.last());
        if url.len() > 0 && !has_source(rest, url) {
            lemma_source_url(""@, url, ""@, ""@);
            lemma_push_source(rest, source_entry(""@, url, ""@, ""@), url);
        }
    }
}

} // verus!
