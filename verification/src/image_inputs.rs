//! Requests to edit images: forms and JSON bodies, and the images that they refer to.
use vstd::prelude::*;
use vstd::string::StringExecFns;
use vstd::utf8::encode_utf8;

use crate::codec::{base64_encode, base64_text};
use crate::content_filter::field_position;
use crate::error::{message_detail, AppError};
use crate::json::{clean_from, non_empty_or, parsed, strings_below};
use crate::text::{
    ascii_lower, begins, chars_of, same, starts_with, to_ascii_lower, trim, trimmed, views,
};
use crate::value::{
    clean_text, empty_object, fields_view, int_json, list_view, opt_view, or_else, Json, JsonView,
};

verus! {

broadcast use crate::value::group_json;

/// Whether a form field refers to images.
pub open spec fn image_field(name: Seq<char>) -> bool {
    name == "image"@ || name == "image[]"@ || name == "images"@ || name == "images[]"@ || name
        == "image_url"@ || name == "image_url[]"@
}

/// Decides [`image_field`].
pub fn is_image_field(name: &str) -> (r: bool)
    ensures
        r == image_field(name@),
{
    same(name, "image") || same(name, "image[]") || same(name, "images") || same(name, "images[]")
        || same(name, "image_url") || same(name, "image_url[]")
}

/// Whether a form field is a setting of the request.
pub open spec fn setting_field(name: Seq<char>) -> bool {
    name == "client_task_id"@ || name == "prompt"@ || name == "model"@ || name == "n"@ || name
        == "size"@ || name == "quality"@ || name == "response_format"@ || name == "stream"@
}

/// Decides [`setting_field`].
pub fn is_setting_field(name: &str) -> (r: bool)
    ensures
        r == setting_field(name@),
{
    same(name, "client_task_id") || same(name, "prompt") || same(name, "model") || same(name, "n")
        || same(name, "size") || same(name, "quality") || same(name, "response_format") || same(
        name,
        "stream",
    )
}

/// The kind of content that a header names, in lower case and without its parameters.
pub open spec fn media_type(header: Seq<char>) -> Seq<char> {
    ascii_lower(trimmed(crate::text::pieces(header, ';')[0]))
}

/// Whether the content of a request is JSON.
pub fn is_json_request(content_type: &str) -> (r: bool)
    ensures
        r == (media_type(content_type@) == "application/json"@),
{
    let parts = crate::text::split(content_type, ';');
    proof {
        crate::text::lemma_pieces_nonempty(content_type@, ';');
    }
    assert(views(parts@).len() == parts@.len());
    assert(views(parts@)[0] == parts@[0]@);
    same(to_ascii_lower(trim(parts[0].as_str()).as_str()).as_str(), "application/json")
}

// ---------------------------------------------------------------------------
// settings
// ---------------------------------------------------------------------------

/// A word as a switch.
pub open spec fn word_switch(w: Seq<char>) -> Option<bool> {
    if w == "true"@ || w == "1"@ || w == "yes"@ || w == "y"@ || w == "on"@ {
        Some(true)
    } else if w == "false"@ || w == "0"@ || w == "no"@ || w == "n"@ || w == "off"@ {
        Some(false)
    } else {
        None
    }
}

fn read_switch(w: &str) -> (r: Option<bool>)
    ensures
        r == word_switch(w@),
{
    if same(w, "true") || same(w, "1") || same(w, "yes") || same(w, "y") || same(w, "on") {
        Some(true)
    } else if same(w, "false") || same(w, "0") || same(w, "no") || same(w, "n") || same(w, "off") {
        Some(false)
    } else {
        None
    }
}

/// Whether a request streams: `null` where it does not say, and none where it says something that
/// is no switch.
pub open spec fn stream_setting(v: Option<JsonView>) -> Option<JsonView> {
    let word = ascii_lower(clean_text(v));
    match v {
        Some(JsonView::Bool(b)) => Some(JsonView::Bool(b)),
        _ => if word.len() == 0 {
            Some(JsonView::Null)
        } else {
            match word_switch(word) {
                Some(b) => Some(JsonView::Bool(b)),
                None => None,
            }
        },
    }
}

/// Reads whether a request streams.
pub fn parse_bool(value: Option<&Json>) -> (r: Result<Json, AppError>)
    ensures
        match stream_setting(opt_view(value)) {
            Some(s) => r matches Ok(v) && v@ == s,
            None => r matches Err(e) && e.is_plain(400, message_detail("stream must be a boolean"@)),
        },
{
    match value {
        Some(Json::Bool(b)) => {
            return Ok(Json::Bool(*b));
        },
        _ => {},
    }
    let word = to_ascii_lower(clean_from(value).as_str());
    if word.as_str().is_empty() {
        return Ok(Json::Null);
    }
    match read_switch(word.as_str()) {
        Some(b) => Ok(Json::Bool(b)),
        None => Err(AppError::bad_request("stream must be a boolean")),
    }
}

/// The text of a setting, or its default.
pub open spec fn setting_or(fields: JsonView, k: Seq<char>, default: Seq<char>) -> Seq<char> {
    or_else(clean_text(fields.get(k)), default)
}

fn clean_or(fields: &Json, k: &str, default: &str) -> (r: String)
    ensures
        r@ == setting_or(fields@, k@, default@),
{
    non_empty_or(clean_from(fields.get(k)), default)
}

/// The settings of a request in their normalized form; `stream` is `null` or a switch.
pub open spec fn edit_payload(fields: JsonView, count: i64, stream: JsonView) -> JsonView {
    let size = clean_text(fields.get("size"@));
    let p = empty_object().put("prompt"@, JsonView::Str(clean_text(fields.get("prompt"@)))).put(
        "model"@,
        JsonView::Str(setting_or(fields, "model"@, "gpt-image-2"@)),
    ).put("n"@, int_json(count as int)).put(
        "size"@,
        if size.len() == 0 {
            JsonView::Null
        } else {
            JsonView::Str(size)
        },
    ).put("quality"@, JsonView::Str(setting_or(fields, "quality"@, "auto"@))).put(
        "response_format"@,
        JsonView::Str(setting_or(fields, "response_format"@, "b64_json"@)),
    ).put("stream"@, stream);
    if fields.get("client_task_id"@) is Some {
        p.put("client_task_id"@, JsonView::Str(clean_text(fields.get("client_task_id"@))))
    } else {
        p
    }
}

/// Whether the settings of a request are refused with an error, or else normalized.
pub open spec fn edit_settings(
    fields: JsonView,
    count: Result<i64, AppError>,
    r: Result<Json, AppError>,
) -> bool {
    let stream = stream_setting(fields.get("stream"@));
    if clean_text(fields.get("prompt"@)).len() == 0 {
        r matches Err(e) && e.is_plain(400, message_detail("prompt is required"@))
    } else if count is Err {
        r matches Err(e) && e == count->Err_0
    } else if stream is None {
        r matches Err(e) && e.is_plain(400, message_detail("stream must be a boolean"@))
    } else {
        r matches Ok(p) && p@ == edit_payload(fields, count->Ok_0, stream->0)
    }
}

/// Normalizes the settings of a request. `count` is the number of images that the field `n` asks
/// for, or what is wrong with it.
pub fn payload_from_fields(fields: &Json, count: Result<i64, AppError>) -> (r: Result<
    Json,
    AppError,
>)
    ensures
        edit_settings(fields@, count, r),
{
    let prompt = clean_from(fields.get("prompt"));
    if prompt.as_str().is_empty() {
        return Err(AppError::bad_request("prompt is required"));
    }
    let n: i64 = match count {
        Ok(n) => n,
        Err(e) => {
            return Err(e);
        },
    };
    let stream = match parse_bool(fields.get("stream")) {
        Ok(v) => v,
        Err(e) => {
            return Err(e);
        },
    };
    let size = clean_from(fields.get("size"));
    let mut p = Json::object();
    p.set("prompt", Json::Str(prompt));
    p.set("model", Json::Str(clean_or(fields, "model", "gpt-image-2")));
    p.set("n", Json::from_int(n));
    let size_value = if size.as_str().is_empty() {
        Json::Null
    } else {
        Json::Str(size)
    };
    p.set("size", size_value);
    p.set("quality", Json::Str(clean_or(fields, "quality", "auto")));
    p.set("response_format", Json::Str(clean_or(fields, "response_format", "b64_json")));
    p.set("stream", stream);
    match fields.get("client_task_id") {
        Some(v) => {
            let id = clean_from(Some(v));
            p.set("client_task_id", Json::Str(id));
        },
        None => {},
    }
    Ok(p)
}

// ---------------------------------------------------------------------------
// references to images
// ---------------------------------------------------------------------------

/// An image inside a request: a data URL or base64 text, with a name and a type where they are
/// given.
pub struct ImageRef {
    pub text: String,
    pub filename: Option<String>,
    pub mime: Option<String>,
}

/// The model of an [`ImageRef`].
pub struct RefView {
    pub text: Seq<char>,
    pub filename: Option<Seq<char>>,
    pub mime: Option<Seq<char>>,
}

impl View for ImageRef {
    type V = RefView;

    open spec fn view(&self) -> RefView {
        RefView {
            text: self.text@,
            filename: match self.filename {
                Some(s) => Some(s@),
                None => None,
            },
            mime: match self.mime {
                Some(s) => Some(s@),
                None => None,
            },
        }
    }
}

/// The models of a list of references.
pub open spec fn image_refs_view(v: Seq<ImageRef>) -> Seq<RefView> {
    v.map_values(|r: ImageRef| r@)
}

/// The images that a value refers to, up to the first fault.
pub struct Found {
    pub refs: Seq<RefView>,
    pub fault: Option<Seq<char>>,
}

/// No images and no fault.
pub open spec fn nothing() -> Found {
    Found { refs: Seq::empty(), fault: None }
}

/// A fault.
pub open spec fn faulty(text: Seq<char>) -> Found {
    Found { refs: Seq::empty(), fault: Some(text) }
}

/// What was found, then what was found after it; a fault ends the search.
pub open spec fn then_found(a: Found, b: Found) -> Found {
    if a.fault is Some {
        a
    } else {
        Found { refs: a.refs + b.refs, fault: b.fault }
    }
}

/// Whether a text is the address of something that is not in the request.
pub open spec fn remote(text: Seq<char>) -> bool {
    begins(ascii_lower(text), "http://"@) || begins(ascii_lower(text), "https://"@)
}

/// What a text that is no JSON refers to.
pub open spec fn leaf(text: Seq<char>) -> Found {
    if remote(text) {
        faulty("remote image URLs are not supported; use a data URL or base64"@)
    } else {
        Found { refs: seq![RefView { text, filename: None, mime: None }], fault: None }
    }
}

/// The string in the first of two fields that is there, without the white space round it.
pub open spec fn either_text(v: JsonView, a: Seq<char>, b: Seq<char>) -> Option<Seq<char>> {
    let x = match v.get(a) {
        Some(x) => x,
        None => v.at(b),
    };
    match x {
        JsonView::Str(s) => if trimmed(s).len() > 0 {
            Some(trimmed(s))
        } else {
            None
        },
        _ => None,
    }
}

/// Whether a text may be JSON.
pub open spec fn looks_like_json(text: Seq<char>) -> bool {
    text.len() > 0 && (text[0] == '[' || text[0] == '{')
}

/// The images that a value refers to. A text that holds a JSON list or object stands for what is
/// in it; `n` is more than the length of any text in the value.
pub open spec fn found(v: JsonView, n: nat) -> Found
    decreases n, v, 0nat,
{
    match v {
        JsonView::Null => nothing(),
        JsonView::Str(s) => {
            let text = trimmed(s);
            if text.len() == 0 {
                nothing()
            } else if looks_like_json(text) && text.len() < n {
                match parsed(encode_utf8(text)) {
                    Some(w) => found(w, text.len()),
                    None => leaf(text),
                }
            } else {
                leaf(text)
            }
        },
        JsonView::Arr(items) => found_items(items, n),
        JsonView::Obj(o) => if !(v.at("file_id"@) is Null) {
            faulty("file_id image references are not supported; use image_url instead"@)
        } else if either_text(v, "b64_json"@, "base64"@) is Some {
            Found {
                refs: seq![
                    RefView {
                        text: either_text(v, "b64_json"@, "base64"@)->0,
                        filename: either_text(v, "filename"@, "file_name"@),
                        mime: either_text(v, "mime_type"@, "mimeType"@),
                    },
                ],
                fault: None,
            }
        } else if v.get("image_url"@) is Some {
            found_url(o, "image_url"@, n)
        } else if v.get("url"@) is Some {
            found_url(o, "url"@, n)
        } else {
            faulty("image reference must include image_url"@)
        },
        _ => faulty("invalid image reference"@),
    }
}

/// The images that the items of a list refer to.
pub open spec fn found_items(items: Seq<JsonView>, n: nat) -> Found
    decreases n, items, 0nat,
{
    if items.len() == 0 {
        nothing()
    } else {
        then_found(found_items(items.drop_last(), n), found(items.last(), n))
    }
}

/// The images that the first field named `k` refers to, or the address in it where it is an
/// object.
pub open spec fn found_url(o: Seq<(Seq<char>, JsonView)>, k: Seq<char>, n: nat) -> Found
    decreases n, o, 0nat,
{
    if o.len() == 0 {
        nothing()
    } else if o[0].0 == k {
        match o[0].1 {
            JsonView::Obj(inner) => found_field(inner, "url"@, n),
            other => found(other, n),
        }
    } else {
        found_url(o.drop_first(), k, n)
    }
}

/// The images that the first field named `k` refers to.
pub open spec fn found_field(o: Seq<(Seq<char>, JsonView)>, k: Seq<char>, n: nat) -> Found
    decreases n, o, 0nat,
{
    if o.len() == 0 {
        nothing()
    } else if o[0].0 == k {
        found(o[0].1, n)
    } else {
        found_field(o.drop_first(), k, n)
    }
}

proof fn lemma_found_field(o: Seq<(Seq<char>, JsonView)>, k: Seq<char>, n: nat, i: int)
    requires
        0 <= i <= o.len(),
        forall|j: int| 0 <= j < i ==> (#[trigger] o[j]).0 != k,
        i < o.len() ==> o[i].0 == k,
    ensures
        found_field(o, k, n) == (if i < o.len() {
            found(o[i].1, n)
        } else {
            nothing()
        }),
    decreases o.len(),
{
    if o.len() > 0 && i > 0 {
        let rest = o.drop_first();
        assert forall|j: int| 0 <= j < i - 1 implies (#[trigger] rest[j]).0 != k by {
            assert(rest[j] == o[j + 1]);
        }
        lemma_found_field(rest, k, n, i - 1);
    }
}

proof fn lemma_found_url(o: Seq<(Seq<char>, JsonView)>, k: Seq<char>, n: nat, i: int)
    requires
        0 <= i <= o.len(),
        forall|j: int| 0 <= j < i ==> (#[trigger] o[j]).0 != k,
        i < o.len() ==> o[i].0 == k,
    ensures
        found_url(o, k, n) == (if i < o.len() {
            match o[i].1 {
                JsonView::Obj(inner) => found_field(inner, "url"@, n),
                other => found(other, n),
            }
        } else {
            nothing()
        }),
    decreases o.len(),
{
    if o.len() > 0 && i > 0 {
        let rest = o.drop_first();
        assert forall|j: int| 0 <= j < i - 1 implies (#[trigger] rest[j]).0 != k by {
            assert(rest[j] == o[j + 1]);
        }
        lemma_found_url(rest, k, n, i - 1);
    }
}

fn trimmed_either(v: &Json, a: &str, b: &str) -> (r: Option<String>)
    ensures
        match r {
            Some(s) => either_text(v@, a@, b@) == Some(s@),
            None => either_text(v@, a@, b@) is None,
        },
{
    let x = match v.get(a) {
        Some(x) => x.copy(),
        None => v.at(b),
    };
    match x {
        Json::Str(s) => {
            let t = trim(s.as_str());
            if t.as_str().is_empty() {
                None
            } else {
                Some(t)
            }
        },
        _ => None,
    }
}

/// Whether the outcome of a search says what was found.
pub open spec fn tells(out: Seq<ImageRef>, fault: Option<String>, f: Found) -> bool {
    image_refs_view(out) == f.refs && match fault {
        Some(s) => f.fault == Some(s@),
        None => f.fault is None,
    }
}

fn search(value: &Json, Ghost(n): Ghost<nat>) -> (r: (Vec<ImageRef>, Option<String>))
    requires
        strings_below(value@, n),
    ensures
        tells(r.0@, r.1, found(value@, n)),
    decreases n, value,
{
    let mut out: Vec<ImageRef> = Vec::new();
    assert(image_refs_view(out@) =~= Seq::empty());
    match value {
        Json::Null => (out, None),
        Json::Str(s) => {
            let text = trim(s.as_str());
            if text.as_str().is_empty() {
                return (out, None);
            }
            proof {
                lemma_trimmed_len(s@);
            }
            let chars = chars_of(text.as_str());
            if chars[0] == '[' || chars[0] == '{' {
                match Json::parse_text(text.as_str()) {
                    Some(w) => {
                        return search(&w, Ghost(text@.len()));
                    },
                    None => {},
                }
            }
            let low = to_ascii_lower(text.as_str());
            if starts_with(low.as_str(), "http://") || starts_with(low.as_str(), "https://") {
                return (
                    out,
                    Some("remote image URLs are not supported; use a data URL or base64".to_owned()),
                );
            }
            let ghost tv = text@;
            out.push(ImageRef { text, filename: None, mime: None });
            assert(image_refs_view(out@) =~= seq![RefView { text: tv, filename: None, mime: None }]);
            (out, None)
        },
        Json::Arr(items) => {
            let ghost v = list_view(items@);
            let mut i: usize = 0;
            assert(v.take(0) =~= Seq::empty());
            while i < items.len()
                invariant
                    i <= items@.len(),
                    *value is Arr && value->Arr_0 == *items,
                    v == list_view(items@),
                    strings_below(value@, n),
                    tells(out@, None, found_items(v.take(i as int), n)),
                decreases items@.len() - i,
            {
                assert(v.take(i + 1).drop_last() =~= v.take(i as int));
                assert(v[i as int] == items@[i as int]@);
                assert(strings_below(value@->Arr_0[i as int], n));
                let ghost had = image_refs_view(out@);
                let (mut more, fault) = search(&items[i], Ghost(n));
                let ghost mv = image_refs_view(more@);
                out.append(&mut more);
                assert(image_refs_view(out@) =~= had + mv);
                match fault {
                    Some(e) => {
                        proof {
                            lemma_fault_ends(v, n, i + 1);
                        }
                        return (out, Some(e));
                    },
                    None => {},
                }
                i += 1;
            }
            assert(v.take(i as int) =~= v);
            (out, None)
        },
        Json::Obj(o) => {
            if !value.at("file_id").is_null() {
                return (
                    out,
                    Some(
                        "file_id image references are not supported; use image_url instead".to_owned(),
                    ),
                );
            }
            match trimmed_either(value, "b64_json", "base64") {
                Some(text) => {
                    let filename = trimmed_either(value, "filename", "file_name");
                    let mime = trimmed_either(value, "mime_type", "mimeType");
                    let found_ref = ImageRef { text, filename, mime };
                    let ghost fv = found_ref@;
                    out.push(found_ref);
                    assert(image_refs_view(out@) =~= seq![fv]);
                    return (out, None);
                },
                None => {},
            }
            let key = if value.get("image_url").is_some() {
                "image_url"
            } else if value.get("url").is_some() {
                "url"
            } else {
                return (out, Some("image reference must include image_url".to_owned()));
            };
            let i = field_position(o, key);
            proof {
                lemma_found_url(fields_view(o@), key@, n, i as int);
                crate::assoc::lemma_lookup_found(fields_view(o@), key@);
            }
            if i >= o.len() {
                return (out, None);
            }
            assert(fields_view(o@)[i as int].1 == o@[i as int].1@);
            assert(strings_below((value@->Obj_0[i as int]).1, n));
            match &o[i].1 {
                Json::Obj(inner) => {
                    let j = field_position(inner, "url");
                    proof {
                        lemma_found_field(fields_view(inner@), "url"@, n, j as int);
                    }
                    if j < inner.len() {
                        assert(o@[i as int].1@->Obj_0 == fields_view(inner@));
                        assert(strings_below((o@[i as int].1@->Obj_0[j as int]).1, n));
                        search(&inner[j].1, Ghost(n))
                    } else {
                        (out, None)
                    }
                },
                other => search(other, Ghost(n)),
            }
        },
        _ => (out, Some("invalid image reference".to_owned())),
    }
}

/// A fault among the first items is the fault of all.
proof fn lemma_fault_ends(v: Seq<JsonView>, n: nat, i: int)
    requires
        0 <= i <= v.len(),
        found_items(v.take(i), n).fault is Some,
    ensures
        found_items(v, n) == found_items(v.take(i), n),
    decreases v.len() - i,
{
    if i == v.len() {
        assert(v.take(i) =~= v);
    } else {
        assert(v.take(i + 1).drop_last() =~= v.take(i));
        lemma_fault_ends(v, n, i + 1);
    }
}

proof fn lemma_trimmed_len(s: Seq<char>)
    ensures
        trimmed(s).len() <= s.len(),
{
    crate::text::lemma_strip_len(s, crate::text::CharClass::White);
}

/// More than the length of any text in a value.
pub open spec fn text_bound(v: JsonView) -> nat
    decreases v,
{
    match v {
        JsonView::Str(s) => s.len() + 1,
        JsonView::Arr(items) => items_bound(items),
        JsonView::Obj(o) => fields_bound(o),
        _ => 0,
    }
}

/// More than the length of any text in some values.
pub open spec fn items_bound(items: Seq<JsonView>) -> nat
    decreases items,
{
    if items.len() == 0 {
        0
    } else {
        let a = items_bound(items.drop_last());
        let b = text_bound(items.last());
        if a < b {
            b
        } else {
            a
        }
    }
}

/// More than the length of any text in some fields.
pub open spec fn fields_bound(o: Seq<(Seq<char>, JsonView)>) -> nat
    decreases o,
{
    if o.len() == 0 {
        0
    } else {
        let a = fields_bound(o.drop_last());
        let b = text_bound(o.last().1);
        if a < b {
            b
        } else {
            a
        }
    }
}

proof fn lemma_bound(v: JsonView, n: nat)
    requires
        n >= text_bound(v),
    ensures
        strings_below(v, n),
    decreases v,
{
    match v {
        JsonView::Arr(items) => {
            assert forall|i: int| 0 <= i < items.len() implies strings_below(
                #[trigger] items[i],
                n,
            ) by {
                lemma_items_bound(items, i);
                lemma_bound(items[i], n);
            }
        },
        JsonView::Obj(o) => {
            assert forall|i: int| 0 <= i < o.len() implies strings_below(
                (#[trigger] o[i]).1,
                n,
            ) by {
                lemma_fields_bound(o, i);
                lemma_bound(o[i].1, n);
            }
        },
        _ => {},
    }
}

proof fn lemma_items_bound(items: Seq<JsonView>, i: int)
    requires
        0 <= i < items.len(),
    ensures
        text_bound(items[i]) <= items_bound(items),
    decreases items.len(),
{
    if i < items.len() - 1 {
        lemma_items_bound(items.drop_last(), i);
        assert(items.drop_last()[i] == items[i]);
    }
}

proof fn lemma_fields_bound(o: Seq<(Seq<char>, JsonView)>, i: int)
    requires
        0 <= i < o.len(),
    ensures
        text_bound(o[i].1) <= fields_bound(o),
    decreases o.len(),
{
    if i < o.len() - 1 {
        lemma_fields_bound(o.drop_last(), i);
        assert(o.drop_last()[i] == o[i]);
    }
}

/// Whether references, and the error of a fault, are what was found: a fault is a bad request.
pub open spec fn answers(refs: Seq<ImageRef>, error: Option<AppError>, f: Found) -> bool {
    &&& image_refs_view(refs) == f.refs
    &&& match f.fault {
        Some(t) => error matches Some(e) && e.is_plain(400, message_detail(t)),
        None => error is None,
    }
}

/// The error of a fault: a bad request.
pub fn refuse_reference(fault: &str) -> (r: AppError)
    ensures
        r.is_plain(400, message_detail(fault@)),
{
    AppError::bad_request(fault)
}

/// Finds the images that a value refers to, up to the first fault, and the error of the fault.
pub fn collect_sources_from_value(value: &Json) -> (r: (Vec<ImageRef>, Option<AppError>))
    ensures
        answers(r.0@, r.1, found(value@, text_bound(value@))),
{
    proof {
        lemma_bound(value@, text_bound(value@));
    }
    let (refs, fault) = search(value, Ghost(text_bound(value@)));
    match fault {
        Some(t) => (refs, Some(refuse_reference(t.as_str()))),
        None => (refs, None),
    }
}

// ---------------------------------------------------------------------------
// whole requests
// ---------------------------------------------------------------------------

/// The images as base64.
pub open spec fn images_text(images: Seq<Vec<u8>>) -> Seq<Seq<char>> {
    images.map_values(|b: Vec<u8>| base64_text(b@))
}

/// Writes images as base64.
pub fn encode_images(images: &Vec<Vec<u8>>) -> (r: Vec<String>)
    ensures
        views(r@) == images_text(images@),
{
    let ghost want = images_text(images@);
    let mut out: Vec<String> = Vec::new();
    let mut i: usize = 0;
    while i < images.len()
        invariant
            i <= images@.len(),
            want == images_text(images@),
            views(out@) =~= want.take(i as int),
        decreases images@.len() - i,
    {
        let ghost done = views(out@);
        out.push(base64_encode(images[i].as_slice()));
        assert(views(out@) =~= done.push(want[i as int]));
        i += 1;
    }
    assert(views(out@) =~= want);
    out
}

/// A form that is being read.
pub struct EditForm {
    /// The settings.
    pub fields: Json,
    /// The images.
    pub images: Vec<Vec<u8>>,
}

impl EditForm {
    pub fn new() -> (r: EditForm)
        ensures
            r.fields@ == empty_object(),
            r.images@.len() == 0,
    {
        EditForm { fields: Json::object(), images: Vec::new() }
    }

    /// Takes in an uploaded file: it counts where its field refers to images, and may not be
    /// empty there.
    pub fn add_file(&mut self, name: &str, bytes: Vec<u8>) -> (r: Result<(), AppError>)
        ensures
            final(self).fields == old(self).fields,
            if !image_field(name@) {
                r is Ok && final(self).images == old(self).images
            } else if bytes@.len() == 0 {
                &&& r matches Err(e) && e.is_plain(400, message_detail("image file is empty"@))
                &&& final(self).images == old(self).images
            } else {
                r is Ok && final(self).images@ == old(self).images@.push(bytes)
            },
    {
        if !is_image_field(name) {
            return Ok(());
        }
        if bytes.len() == 0 {
            return Err(AppError::bad_request("image file is empty"));
        }
        self.images.push(bytes);
        Ok(())
    }

    /// Takes in a text: a setting is kept, and a reference to images gives what it refers to.
    pub fn add_text(&mut self, name: &str, text: &str) -> (r: (Vec<ImageRef>, Option<AppError>))
        ensures
            final(self).images == old(self).images,
            if image_field(name@) {
                &&& final(self).fields == old(self).fields
                &&& answers(r.0@, r.1, found(JsonView::Str(text@), text@.len() + 1))
            } else {
                &&& answers(r.0@, r.1, nothing())
                &&& final(self).fields@ == (if setting_field(name@) {
                    old(self).fields@.put(name@, JsonView::Str(text@))
                } else {
                    old(self).fields@
                })
            },
    {
        if is_image_field(name) {
            return collect_sources_from_value(&Json::from_text(text));
        }
        if is_setting_field(name) {
            self.fields.set(name, Json::from_text(text));
        }
        let none: Vec<ImageRef> = Vec::new();
        assert(image_refs_view(none@) =~= Seq::empty());
        (none, None)
    }

    /// Takes in an image that was decoded from a reference.
    pub fn add_image(&mut self, bytes: Vec<u8>)
        ensures
            final(self).fields == old(self).fields,
            final(self).images@ == old(self).images@.push(bytes),
    {
        self.images.push(bytes);
    }

    /// Ends a form: its settings, and its images as base64; there must be one.
    pub fn finish(&self, count: Result<i64, AppError>) -> (r: Result<(Json, Vec<String>), AppError>)
        ensures
            edit_request(self.fields@, count, images_text(self.images@), true, r),
    {
        let payload = match payload_from_fields(&self.fields, count) {
            Ok(p) => p,
            Err(e) => {
                assert(edit_settings(self.fields@, count, Err(e)));
                return Err(e);
            },
        };
        assert(edit_settings(self.fields@, count, Ok(payload)));
        assert(images_text(self.images@).len() == self.images@.len());
        if self.images.len() == 0 {
            return Err(AppError::bad_request("image file or image_url is required"));
        }
        Ok((payload, encode_images(&self.images)))
    }
}

/// Whether a request with given settings and images is answered as it should be: settings that
/// are at fault come first, then, where one is needed, a missing image.
pub open spec fn edit_request(
    fields: JsonView,
    count: Result<i64, AppError>,
    images: Seq<Seq<char>>,
    needs_image: bool,
    r: Result<(Json, Vec<String>), AppError>,
) -> bool {
    match r {
        Ok(p) => {
            &&& edit_settings(fields, count, Ok(p.0))
            &&& views(p.1@) == images
            &&& needs_image ==> images.len() > 0
        },
        Err(e) => edit_settings(fields, count, Err(e)) || {
            &&& needs_image && images.len() == 0
            &&& exists|p: Json| #[trigger] edit_settings(fields, count, Ok(p))
            &&& e.is_plain(400, message_detail("image file or image_url is required"@))
        },
    }
}

/// Reads a JSON request: its settings, and its images as base64. `images` are the images that it
/// refers to, or what is wrong with them.
pub fn parse_image_edit_json(
    body: &Json,
    count: Result<i64, AppError>,
    images: Result<Vec<Vec<u8>>, AppError>,
) -> (r: Result<(Json, Vec<String>), AppError>)
    ensures
        if !(body@ is Obj) {
            r matches Err(e) && e.is_plain(400, message_detail("JSON body must be an object"@))
        } else {
            match images {
                Ok(v) => edit_request(body@, count, images_text(v@), false, r),
                Err(x) => r matches Err(e) && (edit_settings(body@, count, Err(e)) || (e == x
                    && exists|p: Json| #[trigger] edit_settings(body@, count, Ok(p)))),
            }
        },
{
    if !body.is_object() {
        return Err(AppError::bad_request("JSON body must be an object"));
    }
    let payload = match payload_from_fields(body, count) {
        Ok(p) => p,
        Err(e) => {
            assert(edit_settings(body@, count, Err(e)));
            return Err(e);
        },
    };
    assert(edit_settings(body@, count, Ok(payload)));
    match images {
        Ok(v) => Ok((payload, encode_images(&v))),
        Err(e) => Err(e),
    }
}

} // verus!
