//! Images from the responses endpoint: the request, and the events of its answer.
use vstd::prelude::*;
use vstd::utf8::encode_utf8;

use crate::engine::{
    single, single_field, EngineError, OpenAIBackendAPI, CODEX_RESPONSES_MODEL,
};
use crate::json::{non_empty_or, parsed};
use crate::log::{lines_of, split_lines};
use crate::sorting::pairs_view;
use crate::text::{
    begins, cat, chars_of, contains, join, joined, occurs, same, skip_front, starts_with,
    text_between, to_lower, trim, trim_front, trimmed, unicode_lower, views, CharClass,
};
use crate::value::{empty_object, list_view, or_else, Json, JsonView};

verus! {

broadcast use crate::value::group_json;

pub const CODEX_RESPONSES_INSTRUCTIONS: &'static str =
    "Use the image_generation tool to create exactly one image for the user's request. Return the generated image result.";

/// Where images are asked for.
pub const CODEX_RESPONSES_PATH: &'static str = "/backend-api/codex/responses";

/// The address of an image in a request: a data address as it is, anything else as the base64 of
/// a PNG file.
pub open spec fn image_address(image: Seq<char>) -> Seq<char> {
    if begins(image, "data:image/"@) {
        image
    } else {
        "data:image/png;base64,"@ + image
    }
}

/// An image in a request.
pub open spec fn image_part(image: Seq<char>) -> JsonView {
    empty_object().put("type"@, JsonView::Str("input_image"@)).put(
        "image_url"@,
        JsonView::Str(image_address(image)),
    )
}

/// The input of a request: a message with the prompt and the images.
pub open spec fn image_input(prompt: Seq<char>, images: Seq<Seq<char>>) -> Seq<JsonView> {
    seq![
        empty_object().put("role"@, JsonView::Str("user"@)).put(
            "content"@,
            JsonView::Arr(
                seq![
                    empty_object().put("type"@, JsonView::Str("input_text"@)).put(
                        "text"@,
                        JsonView::Str(prompt),
                    ),
                ] + images.map_values(|i: Seq<char>| image_part(i)),
            ),
        ),
    ]
}

/// Makes the input of a request.
pub fn codex_image_input(prompt: &str, images: &Vec<String>) -> (r: Vec<Json>)
    ensures
        list_view(r@) == image_input(prompt@, views(images@)),
{
    let ghost iv = views(images@);
    let ghost parts = iv.map_values(|i: Seq<char>| image_part(i));
    let mut first = Json::object();
    first.set("type", Json::from_text("input_text"));
    first.set("text", Json::from_text(prompt));
    let ghost head = seq![first@];
    let mut content: Vec<Json> = Vec::new();
    content.push(first);
    assert(list_view(content@) =~= head + parts.take(0));
    let mut i: usize = 0;
    while i < images.len()
        invariant
            i <= images@.len(),
            iv == views(images@),
            parts == iv.map_values(|i: Seq<char>| image_part(i)),
            list_view(content@) == head + parts.take(i as int),
        decreases images@.len() - i,
    {
        let ghost done = list_view(content@);
        let address = if starts_with(images[i].as_str(), "data:image/") {
            images[i].clone()
        } else {
            cat("data:image/png;base64,", images[i].as_str())
        };
        let mut o = Json::object();
        o.set("type", Json::from_text("input_image"));
        o.set("image_url", Json::Str(address));
        assert(o@ == parts[i as int]);
        let ghost ov = o@;
        content.push(o);
        assert(list_view(content@) =~= done.push(ov));
        assert(list_view(content@) =~= head + parts.take(i + 1));
        i += 1;
    }
    assert(parts.take(i as int) =~= parts);
    let mut message = Json::object();
    message.set("role", Json::from_text("user"));
    message.set("content", Json::Arr(content));
    let ghost mv = message@;
    let mut out: Vec<Json> = Vec::new();
    out.push(message);
    assert(list_view(out@) =~= seq![mv]);
    out
}

/// The tool that makes images.
pub open spec fn image_tool(edit: bool, size: Seq<char>, quality: Seq<char>) -> JsonView {
    empty_object().put("type"@, JsonView::Str("image_generation"@)).put(
        "model"@,
        JsonView::Str("gpt-image-2"@),
    ).put(
        "action"@,
        JsonView::Str(
            if edit {
                "edit"@
            } else {
                "generate"@
            },
        ),
    ).put("size"@, JsonView::Str(size)).put("quality"@, JsonView::Str(quality)).put(
        "output_format"@,
        JsonView::Str("png"@),
    )
}

/// The request for images.
pub open spec fn codex_request(
    prompt: Seq<char>,
    images: Seq<Seq<char>>,
    size: Seq<char>,
    quality: Seq<char>,
) -> JsonView {
    empty_object().put("model"@, JsonView::Str(CODEX_RESPONSES_MODEL@)).put(
        "instructions"@,
        JsonView::Str(CODEX_RESPONSES_INSTRUCTIONS@),
    ).put("store"@, JsonView::Bool(false)).put(
        "input"@,
        JsonView::Arr(image_input(prompt, images)),
    ).put(
        "tools"@,
        JsonView::Arr(seq![image_tool(images.len() > 0, size, or_else(quality, "auto"@))]),
    ).put("tool_choice"@, single("type"@, JsonView::Str("image_generation"@))).put(
        "stream"@,
        JsonView::Bool(true),
    )
}

/// The kind of account that a client is for, in lower case.
pub open spec fn source_of(account: JsonView) -> Seq<char> {
    unicode_lower(
        trimmed(
            match account.get("source_type"@) {
                Some(JsonView::Str(s)) => s,
                _ => "web"@,
            },
        ),
    )
}

impl OpenAIBackendAPI {
    /// The headers of a request for images.
    pub fn codex_responses_headers(&self) -> (r: Vec<(String, String)>)
        ensures
            pairs_view(r@) == seq![
                ("Authorization"@, "Bearer "@ + self.access_token@),
                ("Content-Type"@, "application/json"@),
            ],
    {
        let mut h: Vec<(String, String)> = Vec::new();
        h.push(("Authorization".to_owned(), cat("Bearer ", self.access_token.as_str())));
        h.push(("Content-Type".to_owned(), "application/json".to_owned()));
        assert(pairs_view(h@) =~= seq![
            ("Authorization"@, "Bearer "@ + self.access_token@),
            ("Content-Type"@, "application/json"@),
        ]);
        h
    }

    /// Makes the request for images; it takes an access token and an account of the right kind.
    pub fn codex_payload(&self, prompt: &str, images: &Vec<String>, size: Option<&str>, quality: &str) -> (
    r: Result<Json, EngineError>)
        ensures
            if self.access_token@.len() == 0 {
                r matches Err(e) && e.says("access_token is required for codex image endpoints"@)
            } else if source_of(self.account@) != "codex"@ {
                r matches Err(e) && e.says(
                    "codex responses endpoint requires a codex source account"@,
                )
            } else {
                r is Ok && r->Ok_0@ == codex_request(
                    prompt@,
                    views(images@),
                    match size {
                        Some(s) => s@,
                        None => "1024x1024"@,
                    },
                    quality@,
                )
            },
            r matches Ok(q) ==> {
                let input = q@.items_at("input"@);
                let content = input[0].items_at("content"@);
                &&& input.len() == 1
                &&& content.len() == 1 + images@.len()
                &&& content[0].str_at("text"@) == prompt@
                &&& forall|i: int|
                    0 <= i < images@.len() ==> (#[trigger] content[i + 1]).str_at("image_url"@) == (
                    if begins(images@[i]@, "data:image/"@) {
                        images@[i]@
                    } else {
                        "data:image/png;base64,"@ + images@[i]@
                    })
                &&& q@.items_at("tools"@)[0].str_at("action"@) == (if images@.len() == 0 {
                    "generate"@
                } else {
                    "edit"@
                })
                &&& size matches Some(s) ==> q@.items_at("tools"@)[0].str_at("size"@) == s@
                &&& size is None ==> q@.items_at("tools"@)[0].str_at("size"@) == "1024x1024"@
            },
            r is Ok ==> self.access_token@.len() > 0,
    {
        if self.access_token.as_str().is_empty() {
            return Err(EngineError::other("access_token is required for codex image endpoints"));
        }
        let raw = match self.account.get("source_type") {
            Some(Json::Str(s)) => s.clone(),
            _ => "web".to_owned(),
        };
        let kind = to_lower(trim(raw.as_str()).as_str());
        if !same(kind.as_str(), "codex") {
            return Err(
                EngineError::other("codex responses endpoint requires a codex source account"),
            );
        }
        let ghost size_asked = size;
        let size = match size {
            Some(s) => s.to_owned(),
            None => "1024x1024".to_owned(),
        };
        assert(views(images@).len() == images@.len());
        let action = if images.len() == 0 {
            "generate"
        } else {
            "edit"
        };
        let mut tool = Json::object();
        tool.set("type", Json::from_text("image_generation"));
        tool.set("model", Json::from_text("gpt-image-2"));
        tool.set("action", Json::from_text(action));
        tool.set("size", Json::Str(size));
        tool.set("quality", Json::Str(non_empty_or(quality.to_owned(), "auto")));
        tool.set("output_format", Json::from_text("png"));
        let ghost tv = tool@;
        let mut tools: Vec<Json> = Vec::new();
        tools.push(tool);
        assert(list_view(tools@) =~= seq![tv]);
        let mut o = Json::object();
        o.set("model", Json::from_text(CODEX_RESPONSES_MODEL));
        o.set("instructions", Json::from_text(CODEX_RESPONSES_INSTRUCTIONS));
        o.set("store", Json::Bool(false));
        o.set("input", Json::Arr(codex_image_input(prompt, images)));
        o.set("tools", Json::Arr(tools));
        o.set("tool_choice", single_field("type", Json::from_text("image_generation")));
        o.set("stream", Json::Bool(true));
        proof {
            let asked = match size_asked {
                Some(s) => s@,
                None => "1024x1024"@,
            };
            let iv = views(images@);
            crate::engine_laws::law_codex_request_carries_all(prompt@, iv, asked, quality@);
            assert forall|i: int| 0 <= i < images@.len() implies #[trigger] iv[i] == images@[i]@ by {}
        }
        Ok(o)
    }
}

/// The object that a text holds as JSON, where it does.
pub open spec fn object_in(text: Seq<char>) -> Seq<JsonView> {
    match parsed(encode_utf8(text)) {
        Some(v) => if v is Obj {
            seq![v]
        } else {
            Seq::empty()
        },
        None => Seq::empty(),
    }
}

/// The event of the data lines before an empty line.
pub open spec fn event_of(lines: Seq<Seq<char>>) -> Seq<JsonView> {
    let text = trimmed(joined(lines, "\n"@));
    if lines.len() == 0 || text.len() == 0 || text == "[DONE]"@ {
        Seq::empty()
    } else {
        object_in(text)
    }
}

/// The data lines since the last empty line, and the events before it.
pub open spec fn events_after(lines: Seq<Seq<char>>) -> (Seq<Seq<char>>, Seq<JsonView>)
    decreases lines.len(),
{
    if lines.len() == 0 {
        (Seq::empty(), Seq::empty())
    } else {
        let (data, events) = events_after(lines.drop_last());
        let line = lines.last();
        if line.len() == 0 {
            (Seq::empty(), events + event_of(data))
        } else if begins(line, "data:"@) {
            (data.push(skip_front(line.skip(5), CharClass::White)), events)
        } else {
            (data, events)
        }
    }
}

/// The events of an answer: its one object where it is JSON, else those of its data lines.
pub open spec fn answer_events(content_type: Seq<char>, text: Seq<char>) -> Seq<JsonView> {
    if occurs(content_type, "application/json"@) {
        object_in(text)
    } else {
        events_after(lines_of(text).push(Seq::empty())).1
    }
}

fn push_object(events: &mut Vec<Json>, text: &str)
    ensures
        list_view(final(events)@) == list_view(old(events)@) + object_in(text@),
{
    let ghost had = list_view(events@);
    match Json::parse(text.as_bytes()) {
        Some(v) => {
            if v.is_object() {
                let ghost vv = v@;
                events.push(v);
                assert(list_view(events@) =~= had + seq![vv]);
            } else {
                assert(had + Seq::empty() =~= had);
            }
        },
        None => {
            assert(had + Seq::empty() =~= had);
        },
    }
}

fn flush(events: &mut Vec<Json>, data: &Vec<String>)
    ensures
        list_view(final(events)@) == list_view(old(events)@) + event_of(views(data@)),
{
    let ghost had = list_view(events@);
    assert(views(data@).len() == data@.len());
    if data.len() > 0 {
        let text = trim(join(data, "\n").as_str());
        if !text.as_str().is_empty() && !same(text.as_str(), "[DONE]") {
            push_object(events, text.as_str());
            return;
        }
    }
    assert(had + Seq::empty() =~= had);
}

/// Reads the events of an answer.
pub fn parse_codex_events(content_type: &str, text: &str) -> (r: Vec<Json>)
    ensures
        list_view(r@) == answer_events(content_type@, text@),
{
    let mut events: Vec<Json> = Vec::new();
    assert(list_view(events@) =~= Seq::empty());
    if contains(content_type, "application/json") {
        push_object(&mut events, text);
        assert(Seq::empty() + object_in(text@) =~= object_in(text@));
        return events;
    }
    let mut lines = split_lines(text);
    let ghost l0 = views(lines@);
    lines.push(String::new());
    let ghost ls = views(lines@);
    assert(ls =~= l0.push(Seq::empty()));
    let mut data: Vec<String> = Vec::new();
    let mut i: usize = 0;
    assert(views(data@) =~= Seq::empty());
    assert(ls.take(0) =~= Seq::empty());
    while i < lines.len()
        invariant
            i <= lines@.len(),
            ls == views(lines@),
            (views(data@), list_view(events@)) == events_after(ls.take(i as int)),
        decreases lines@.len() - i,
    {
        assert(ls.take(i + 1).drop_last() =~= ls.take(i as int));
        assert(ls.take(i + 1).last() == lines@[i as int]@);
        let line = lines[i].as_str();
        if line.is_empty() {
            flush(&mut events, &data);
            data = Vec::new();
            assert(views(data@) =~= Seq::empty());
        } else if starts_with(line, "data:") {
            proof {
                reveal_strlit("data:");
            }
            let ghost had = views(data@);
            let v = chars_of(line);
            let rest = text_between(&v, 5, v.len());
            assert(rest@ =~= line@.skip(5));
            let t = trim_front(rest.as_str(), CharClass::White);
            let ghost tv = t@;
            data.push(t);
            assert(views(data@) =~= had.push(tv));
        }
        i += 1;
    }
    assert(ls.take(i as int) =~= ls);
    events
}

/// Every event of an answer is an object.
pub proof fn law_events_are_objects(lines: Seq<Seq<char>>)
    ensures
        forall|i: int|
            0 <= i < events_after(lines).1.len() ==> (#[trigger] events_after(lines).1[i]) is Obj,
    decreases lines.len(),
{
    if lines.len() > 0 {
        law_events_are_objects(lines.drop_last());
        let (data, had) = events_after(lines.drop_last());
        let all = events_after(lines).1;
        assert forall|i: int| 0 <= i < all.len() implies (#[trigger] all[i]) is Obj by {
            if i < had.len() {
                assert(all[i] == had[i]);
            } else {
                assert(all[i] == event_of(data)[i - had.len()]);
            }
        }
    }
}

} // verus!
