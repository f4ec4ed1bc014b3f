//! Requests to the inference interface: their settings, forms and logs.
use vstd::prelude::*;

use crate::assoc::TextMap;
use crate::codec::{base64_encode, base64_text, lossy_text, read_lossy};
use crate::error::{message_detail, AppError};
use crate::image_inputs::{is_setting_field, setting_field, word_switch};
use crate::json::{copy_list, non_empty_or};
use crate::text::{
    ascii_lower, parse_int, parsed_int, pieces, same, split, to_ascii_lower, trim, trimmed, views,
};
use crate::value::{empty_object, int_json, list_view, or_else, Json, JsonView};

verus! {

broadcast use crate::value::group_json;

/// Whether a request asks for a stream.
pub fn is_stream(body: &Json) -> (r: bool)
    ensures
        r == body@.bool_at("stream"@, false),
{
    body.bool_at("stream", false)
}

/// The trimmed string in a field, or its default.
pub open spec fn text_field(body: JsonView, k: Seq<char>, default: Seq<char>) -> Seq<char> {
    or_else(trimmed(body.str_at(k)), default)
}

/// Reads [`text_field`].
pub fn str_field(body: &Json, k: &str, default: &str) -> (r: String)
    ensures
        r@ == text_field(body@, k@, default@),
{
    non_empty_or(trim(body.str_at(k).as_str()), default)
}

/// A prompt that a request must give.
pub fn required_prompt(body: &Json) -> (r: Result<String, AppError>)
    ensures
        ({
            let prompt = trimmed(body@.str_at("prompt"@));
            if prompt.len() == 0 {
                r matches Err(e) && e.is_plain(400, message_detail("prompt is required"@))
            } else {
                r matches Ok(p) && p@ == prompt
            }
        }),
{
    let prompt = trim(body.str_at("prompt").as_str());
    if prompt.as_str().is_empty() {
        return Err(AppError::bad_request("prompt is required"));
    }
    Ok(prompt)
}

/// The trimmed text of a form field that is there and not empty.
pub open spec fn form_text(fields: Map<Seq<char>, Seq<char>>, k: Seq<char>) -> Option<Seq<char>> {
    if fields.dom().contains(k) && trimmed(fields[k]).len() > 0 {
        Some(trimmed(fields[k]))
    } else {
        None
    }
}

fn form_field(fields: &TextMap<String>, k: &str) -> (r: Option<String>)
    ensures
        match r {
            Some(s) => form_text(fields@, k@) == Some(s@),
            None => form_text(fields@, k@) is None,
        },
{
    match fields.get(k) {
        Some(s) => {
            let t = trim(s.as_str());
            if t.as_str().is_empty() {
                None
            } else {
                Some(t)
            }
        },
        None => None,
    }
}

/// A form field as a switch; none where it says nothing.
pub fn parse_bool_field(value: Option<&str>) -> (r: Result<Option<bool>, AppError>)
    ensures
        ({
            let text = match value {
                Some(s) => trimmed(s@),
                None => Seq::empty(),
            };
            if text.len() == 0 {
                r matches Ok(v) && v is None
            } else {
                match word_switch(ascii_lower(text)) {
                    Some(b) => r matches Ok(v) && v == Some(b),
                    None => r matches Err(e) && e.is_plain(
                        400,
                        message_detail("stream must be a boolean"@),
                    ),
                }
            }
        }),
{
    let text = match value {
        Some(s) => trim(s),
        None => String::new(),
    };
    if text.as_str().is_empty() {
        return Ok(None);
    }
    let w = to_ascii_lower(text.as_str());
    let w = w.as_str();
    if same(w, "true") || same(w, "1") || same(w, "yes") || same(w, "y") || same(w, "on") {
        Ok(Some(true))
    } else if same(w, "false") || same(w, "0") || same(w, "no") || same(w, "n") || same(w, "off") {
        Ok(Some(false))
    } else {
        Err(AppError::bad_request("stream must be a boolean"))
    }
}

/// A form field as a number of images, one where it says nothing.
pub fn parse_count_field(value: Option<&str>) -> (r: Result<i64, AppError>)
    ensures
        ({
            let text = match value {
                Some(s) => trimmed(s@),
                None => Seq::empty(),
            };
            if text.len() == 0 {
                r matches Ok(n) && n == 1
            } else {
                match parsed_int(text) {
                    Some(n) => if 1 <= n <= 4 {
                        r matches Ok(m) && m == n
                    } else {
                        r matches Err(e) && e.is_plain(
                            400,
                            message_detail("n must be between 1 and 4"@),
                        )
                    },
                    None => r matches Err(e) && e.is_plain(
                        400,
                        message_detail("n must be an integer"@),
                    ),
                }
            }
        }),
{
    let text = match value {
        Some(s) => trim(s),
        None => String::new(),
    };
    if text.as_str().is_empty() {
        return Ok(1);
    }
    match parse_int(text.as_str()) {
        Some(n) => {
            if n < 1 || n > 4 {
                Err(AppError::bad_request("n must be between 1 and 4"))
            } else {
                Ok(n)
            }
        },
        None => Err(AppError::bad_request("n must be an integer")),
    }
}

/// A request to edit images that is ready to be served.
pub struct EditRequest {
    pub body: Json,
    pub prompt: String,
    pub model: String,
}

/// Reads a JSON request to edit images: an object with a prompt, which is passed on as it is.
pub fn parse_json_edit(body: &Json) -> (r: Result<EditRequest, AppError>)
    ensures
        ({
            let prompt = trimmed(body@.str_at("prompt"@));
            if !(body@ is Obj) {
                r matches Err(e) && e.is_plain(400, message_detail("JSON body must be an object"@))
            } else if prompt.len() == 0 {
                r matches Err(e) && e.is_plain(400, message_detail("prompt is required"@))
            } else {
                r matches Ok(q) && q.body@ == body@ && q.prompt@ == prompt && q.model@
                    == text_field(body@, "model"@, "gpt-image-2"@)
            }
        }),
{
    if !body.is_object() {
        return Err(AppError::bad_request("JSON body must be an object"));
    }
    let prompt = match required_prompt(body) {
        Ok(p) => p,
        Err(e) => {
            return Err(e);
        },
    };
    let model = str_field(body, "model", "gpt-image-2");
    Ok(EditRequest { body: body.copy(), prompt, model })
}

/// A form to edit images that is being read.
pub struct ImageEditForm {
    pub fields: TextMap<String>,
    pub images: Vec<Json>,
}

/// An uploaded image.
pub open spec fn upload_entry(data: Seq<u8>, mime: Option<Seq<char>>, filename: Option<Seq<char>>) -> JsonView {
    empty_object().put("b64_json"@, JsonView::Str(base64_text(data))).put(
        "mime_type"@,
        JsonView::Str(
            match mime {
                Some(m) => m,
                None => "image/png"@,
            },
        ),
    ).put(
        "filename"@,
        JsonView::Str(
            match filename {
                Some(f) => f,
                None => "image.png"@,
            },
        ),
    )
}

/// The text of an argument that may be missing.
pub open spec fn opt_str_view(s: Option<&str>) -> Option<Seq<char>> {
    match s {
        Some(t) => Some(t@),
        None => None,
    }
}

/// The body that a form stands for.
pub open spec fn form_body(
    fields: Map<Seq<char>, Seq<char>>,
    images: Seq<JsonView>,
    count: int,
    stream: Option<bool>,
) -> JsonView {
    let b = empty_object().put("prompt"@, JsonView::Str(form_text(fields, "prompt"@)->0)).put(
        "model"@,
        JsonView::Str(form_or(fields, "model"@, "gpt-image-2"@)),
    ).put("n"@, int_json(count)).put(
        "quality"@,
        JsonView::Str(form_or(fields, "quality"@, "auto"@)),
    ).put(
        "response_format"@,
        JsonView::Str(form_or(fields, "response_format"@, "b64_json"@)),
    ).put("images"@, JsonView::Arr(images));
    let b = match form_text(fields, "size"@) {
        Some(s) => b.put("size"@, JsonView::Str(s)),
        None => b,
    };
    let b = match stream {
        Some(s) => b.put("stream"@, JsonView::Bool(s)),
        None => b,
    };
    if fields.dom().contains("client_task_id"@) {
        b.put("client_task_id"@, JsonView::Str(fields["client_task_id"@]))
    } else {
        b
    }
}

/// The text of a form field, or its default.
pub open spec fn form_or(fields: Map<Seq<char>, Seq<char>>, k: Seq<char>, default: Seq<char>) -> Seq<char> {
    match form_text(fields, k) {
        Some(s) => s,
        None => default,
    }
}

fn form_or_default(fields: &TextMap<String>, k: &str, default: &str) -> (r: String)
    ensures
        r@ == form_or(fields@, k@, default@),
{
    match form_field(fields, k) {
        Some(s) => s,
        None => default.to_owned(),
    }
}

/// The raw text of a form field.
pub open spec fn raw_field(fields: Map<Seq<char>, Seq<char>>, k: Seq<char>) -> Seq<char> {
    if fields.dom().contains(k) {
        trimmed(fields[k])
    } else {
        Seq::empty()
    }
}

impl ImageEditForm {
    pub fn new() -> (r: ImageEditForm)
        ensures
            r.fields@ == Map::<Seq<char>, Seq<char>>::empty(),
            list_view(r.images@) == Seq::<JsonView>::empty(),
    {
        let r = ImageEditForm { fields: TextMap::new(), images: Vec::new() };
        assert(list_view(r.images@) =~= Seq::empty());
        r
    }

    /// Takes in a part of the form that refers to images: an upload with its name and type, or a
    /// text, which counts unless it is blank.
    pub fn add_image(&mut self, data: &[u8], mime: Option<&str>, filename: Option<&str>)
        ensures
            final(self).fields == old(self).fields,
            list_view(final(self).images@) == (if filename is Some || mime is Some {
                list_view(old(self).images@).push(
                    upload_entry(data@, opt_str_view(mime), opt_str_view(filename)),
                )
            } else if trimmed(lossy_text(data@)).len() > 0 {
                list_view(old(self).images@).push(JsonView::Str(trimmed(lossy_text(data@))))
            } else {
                list_view(old(self).images@)
            }),
    {
        let ghost before = list_view(self.images@);
        if filename.is_some() || mime.is_some() {
            let mut o = Json::object();
            o.set("b64_json", Json::Str(base64_encode(data)));
            let kind = match mime {
                Some(m) => m,
                None => "image/png",
            };
            o.set("mime_type", Json::from_text(kind));
            let name = match filename {
                Some(f) => f,
                None => "image.png",
            };
            o.set("filename", Json::from_text(name));
            let ghost ov = o@;
            self.images.push(o);
            assert(list_view(self.images@) =~= before.push(ov));
        } else {
            let t = trim(read_lossy(data).as_str());
            if !t.as_str().is_empty() {
                let ghost tv = t@;
                self.images.push(Json::Str(t));
                assert(list_view(self.images@) =~= before.push(JsonView::Str(tv)));
            }
        }
    }

    /// Takes in a text part of the form, where it is a setting.
    pub fn add_field(&mut self, name: &str, text: &str)
        ensures
            final(self).images == old(self).images,
            final(self).fields@ == (if setting_field(name@) {
                old(self).fields@.insert(name@, text@)
            } else {
                old(self).fields@
            }),
    {
        if is_setting_field(name) {
            self.fields.set(name, text.to_owned());
        }
    }

    /// Ends the form.
    pub fn finish(&self) -> (r: Result<EditRequest, AppError>)
        ensures
            ({
                let f = self.fields@;
                let n = raw_field(f, "n"@);
                let count = if n.len() == 0 {
                    Some(1int)
                } else {
                    parsed_int(n)
                };
                let word = raw_field(f, "stream"@);
                let stream = word_switch(ascii_lower(word));
                if form_text(f, "prompt"@) is None {
                    r matches Err(e) && e.is_plain(400, message_detail("prompt is required"@))
                } else if count is None {
                    r matches Err(e) && e.is_plain(400, message_detail("n must be an integer"@))
                } else if !(1 <= count->0 <= 4) {
                    r matches Err(e) && e.is_plain(
                        400,
                        message_detail("n must be between 1 and 4"@),
                    )
                } else if word.len() > 0 && stream is None {
                    r matches Err(e) && e.is_plain(
                        400,
                        message_detail("stream must be a boolean"@),
                    )
                } else {
                    r matches Ok(q) && q.body@ == form_body(
                        f,
                        list_view(self.images@),
                        count->0,
                        if word.len() == 0 {
                            None
                        } else {
                            stream
                        },
                    ) && q.prompt@ == form_text(f, "prompt"@)->0 && q.model@ == form_or(
                        f,
                        "model"@,
                        "gpt-image-2"@,
                    )
                }
            }),
    {
        let prompt = match form_field(&self.fields, "prompt") {
            Some(p) => p,
            None => {
                return Err(AppError::bad_request("prompt is required"));
            },
        };
        let n_text = match self.fields.get("n") {
            Some(s) => Some(s.as_str()),
            None => None,
        };
        let n: i64 = match parse_count_field(n_text) {
            Ok(n) => n,
            Err(e) => {
                return Err(e);
            },
        };
        let stream_text = match self.fields.get("stream") {
            Some(s) => Some(s.as_str()),
            None => None,
        };
        let stream = match parse_bool_field(stream_text) {
            Ok(s) => s,
            Err(e) => {
                return Err(e);
            },
        };
        let model = form_or_default(&self.fields, "model", "gpt-image-2");
        let mut b = Json::object();
        b.set("prompt", Json::from_text(prompt.as_str()));
        b.set("model", Json::from_text(model.as_str()));
        b.set("n", Json::from_int(n));
        b.set("quality", Json::Str(form_or_default(&self.fields, "quality", "auto")));
        b.set(
            "response_format",
            Json::Str(form_or_default(&self.fields, "response_format", "b64_json")),
        );
        b.set("images", Json::Arr(copy_list(&self.images)));
        match form_field(&self.fields, "size") {
            Some(s) => {
                b.set("size", Json::Str(s));
            },
            None => {},
        }
        match stream {
            Some(s) => {
                b.set("stream", Json::Bool(s));
            },
            None => {},
        }
        match self.fields.get("client_task_id") {
            Some(s) => {
                b.set("client_task_id", Json::from_text(s.as_str()));
            },
            None => {},
        }
        Ok(EditRequest { body: b, prompt, model })
    }
}

/// A list of names, separated by commas: trimmed, empty ones left out.
pub open spec fn listed_name() -> spec_fn(Seq<char>) -> Option<Seq<char>> {
    |s: Seq<char>|
        if trimmed(s).len() > 0 {
            Some(trimmed(s))
        } else {
            None
        }
}

/// Reads a list of names, separated by commas.
pub fn parse_task_ids(value: &str) -> (r: Vec<String>)
    ensures
        views(r@) == pieces(value@, ',').filter_map(listed_name()),
{
    let parts = split(value, ',');
    let ghost v = views(parts@);
    let ghost f = listed_name();
    let mut out: Vec<String> = Vec::new();
    let mut i: usize = 0;
    assert(v.take(0).filter_map(f) =~= Seq::empty());
    assert(views(out@) =~= Seq::empty());
    while i < parts.len()
        invariant
            i <= parts@.len(),
            v == views(parts@),
            f == listed_name(),
            views(out@) == v.take(i as int).filter_map(f),
        decreases parts@.len() - i,
    {
        proof {
            v.lemma_filter_map_take_succ(f, i as int);
        }
        let ghost done = views(out@);
        let t = trim(parts[i].as_str());
        if !t.as_str().is_empty() {
            let ghost tv = t@;
            out.push(t);
            assert(views(out@) =~= done + seq![tv]);
        }
        assert(views(out@) =~= v.take(i + 1).filter_map(f));
        i += 1;
    }
    assert(v.take(i as int) =~= v);
    out
}

/// What a request for an editable file asks for.
pub struct EditableArgs {
    pub prompt: String,
    pub base64_images: Vec<String>,
    pub client_task_id: String,
}

/// The text of an item that is a string.
pub open spec fn string_item() -> spec_fn(JsonView) -> Option<Seq<char>> {
    |v: JsonView| v.as_text()
}

/// Reads what a request for an editable file asks for.
pub fn editable_task_args(body: &Json) -> (r: EditableArgs)
    ensures
        r.prompt@ == body@.str_at("prompt"@),
        views(r.base64_images@) == body@.items_at("base64_images"@).filter_map(string_item()),
        r.client_task_id@ == body@.str_at("client_task_id"@),
{
    EditableArgs {
        prompt: body.str_at("prompt"),
        base64_images: body_str_list(body, "base64_images"),
        client_task_id: body.str_at("client_task_id"),
    }
}

/// The strings among the items of the array in a field.
pub fn body_str_list(body: &Json, k: &str) -> (r: Vec<String>)
    ensures
        views(r@) == body@.items_at(k@).filter_map(string_item()),
{
    let items = body.items_at(k);
    let ghost v = list_view(items@);
    let ghost f = string_item();
    let mut out: Vec<String> = Vec::new();
    let mut i: usize = 0;
    assert(v.take(0).filter_map(f) =~= Seq::empty());
    assert(views(out@) =~= Seq::empty());
    while i < items.len()
        invariant
            i <= items@.len(),
            v == list_view(items@),
            f == string_item(),
            views(out@) == v.take(i as int).filter_map(f),
        decreases items@.len() - i,
    {
        proof {
            v.lemma_filter_map_take_succ(f, i as int);
        }
        let ghost done = views(out@);
        match &items[i] {
            Json::Str(s) => {
                out.push(s.clone());
                assert(views(out@) =~= done + seq![s@]);
            },
            _ => {},
        }
        assert(views(out@) =~= v.take(i + 1).filter_map(f));
        i += 1;
    }
    assert(v.take(i as int) =~= v);
    out
}

} // verus!
