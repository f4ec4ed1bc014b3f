//! Images from upstream: what is sent to have them made, and how they are waited for.
use vstd::prelude::*;
use vstd::string::StringExecFns;
use vstd::utf8::encode_utf8;

use crate::codec::{base64_decode, base64_outcome};
use crate::engine::{
    empty_list, is_content_policy_error, is_policy_refusal, make_message, make_text_content,
    message_json, no_items, one_text, path_headers, req_headers, single, single_field,
    text_content, text_list, ChatRequirements, EngineError, CODEX_IMAGE_MODEL,
};
use crate::image_storage::{detect_kind, image_kind, image_size, measure, ImageKind};
use crate::image_tags::with_new;
use crate::json::{is_below, number_below};
use crate::pattern::{find_groups, find_matches, group_matches, whole_matches};
use crate::sorting::{lemma_placed_at, pairs_view, sorted};
use crate::text::{
    begins, cat, cat3, chars_of, contains, cut_once, decimal, decimal_text, join, joined,
    prefix_chars, push_new, same, split_once, starts_with, to_lower, trim, trimmed, unicode_lower,
    views,
};
use crate::value::{
    compact, count_json, empty_object, fields_view, int_json, list_view, Json, JsonView, Number,
    NumberView,
};

verus! {

broadcast use crate::value::group_json;

pub const FILE_SERVICE_ID: &'static str = "file-service://([A-Za-z0-9_-]+)";

pub const REAL_IMAGE_FILE_ID: &'static str = "\\bfile_00000000[a-f0-9]{24}\\b";

pub const SEDIMENT_ID: &'static str = "sediment://([A-Za-z0-9_-]+)";

// ---------------------------------------------------------------------------
// images that are sent
// ---------------------------------------------------------------------------

/// The media type of a kind of image.
pub open spec fn kind_media(k: ImageKind) -> Seq<char> {
    match k {
        ImageKind::Png => "image/png"@,
        ImageKind::Jpeg => "image/jpeg"@,
        ImageKind::Gif => "image/gif"@,
        ImageKind::Webp => "image/webp"@,
        ImageKind::Bmp => "image/bmp"@,
        ImageKind::Other => "image/png"@,
    }
}

/// The media type of an image.
pub fn detect_mime(data: &[u8]) -> (r: &'static str)
    ensures
        r@ == kind_media(image_kind(data@)),
{
    match detect_kind(data) {
        ImageKind::Png => "image/png",
        ImageKind::Jpeg => "image/jpeg",
        ImageKind::Gif => "image/gif",
        ImageKind::Webp => "image/webp",
        ImageKind::Bmp => "image/bmp",
        ImageKind::Other => "image/png",
    }
}

/// The sides of an image; zero where they cannot be read.
pub open spec fn sides_of(data: Seq<u8>) -> (usize, usize) {
    match image_size(data) {
        Some(s) => s,
        None => (0, 0),
    }
}

/// The sides of an image; zero where they cannot be read.
pub fn image_dims(data: &[u8]) -> (r: (usize, usize))
    ensures
        r == sides_of(data@),
{
    match measure(data) {
        Some(s) => s,
        None => (0, 0),
    }
}

/// A list with those of others that are not empty and that it does not hold.
pub open spec fn with_unique(s: Seq<Seq<char>>, more: Seq<Seq<char>>) -> Seq<Seq<char>>
    decreases more.len(),
{
    if more.len() == 0 {
        s
    } else {
        let t = with_unique(s, more.drop_last());
        if more.last().len() == 0 || t.contains(more.last()) {
            t
        } else {
            t.push(more.last())
        }
    }
}

/// Adds the texts that are not empty and not held yet.
pub fn add_unique(values: &mut Vec<String>, candidates: &Vec<String>)
    ensures
        views(final(values)@) == with_unique(views(old(values)@), views(candidates@)),
{
    let ghost first = views(values@);
    let ghost c = views(candidates@);
    let mut i: usize = 0;
    while i < candidates.len()
        invariant
            i <= candidates@.len(),
            c == views(candidates@),
            views(values@) == with_unique(first, c.take(i as int)),
        decreases candidates@.len() - i,
    {
        assert(c.take(i + 1).drop_last() =~= c.take(i as int));
        if !candidates[i].as_str().is_empty() {
            push_new(values, candidates[i].as_str());
        }
        i += 1;
    }
    assert(c.take(i as int) =~= c);
}

/// The model upstream for an image model, given without what is put before it.
pub fn image_model_slug(base_model: Option<&str>) -> (r: &'static str)
    ensures
        r@ == (match base_model {
            Some(m) => if m@ == "gpt-image-2"@ {
                "gpt-5-3"@
            } else if m@ == CODEX_IMAGE_MODEL@ {
                CODEX_IMAGE_MODEL@
            } else {
                "auto"@
            },
            None => "auto"@,
        }),
{
    match base_model {
        Some(m) => {
            if same(m, "gpt-image-2") {
                "gpt-5-3"
            } else if same(m, CODEX_IMAGE_MODEL) {
                CODEX_IMAGE_MODEL
            } else {
                "auto"
            }
        },
        None => "auto",
    }
}

/// The headers of a request for images, but for the path; `trace` names a stream.
pub open spec fn image_header_list(
    q: ChatRequirements,
    conduit: Seq<char>,
    accept: Seq<char>,
    trace: Seq<char>,
) -> Seq<(Seq<char>, Seq<char>)> {
    let h = seq![
        ("Content-Type"@, "application/json"@),
        ("Accept"@, accept),
        ("OpenAI-Sentinel-Chat-Requirements-Token"@, q.token@),
    ];
    let h = if q.proof_token@.len() > 0 {
        h.push(("OpenAI-Sentinel-Proof-Token"@, q.proof_token@))
    } else {
        h
    };
    let h = if conduit.len() > 0 {
        h.push(("X-Conduit-Token"@, conduit))
    } else {
        h
    };
    if accept == "text/event-stream"@ {
        h.push(("X-Oai-Turn-Trace-Id"@, trace))
    } else {
        h
    }
}

/// The headers of a request for images.
pub fn image_headers(path: &str, q: &ChatRequirements, conduit_token: &str, accept: &str, trace: &str) -> (
r: Vec<(String, String)>)
    ensures
        pairs_view(r@) == path_headers(path@) + image_header_list(
            *q,
            conduit_token@,
            accept@,
            trace@,
        ),
{
    let mut h: Vec<(String, String)> = Vec::new();
    h.push(("Content-Type".to_owned(), "application/json".to_owned()));
    h.push(("Accept".to_owned(), accept.to_owned()));
    h.push(("OpenAI-Sentinel-Chat-Requirements-Token".to_owned(), q.token.clone()));
    if !q.proof_token.as_str().is_empty() {
        h.push(("OpenAI-Sentinel-Proof-Token".to_owned(), q.proof_token.clone()));
    }
    if !conduit_token.is_empty() {
        h.push(("X-Conduit-Token".to_owned(), conduit_token.to_owned()));
    }
    if same(accept, "text/event-stream") {
        h.push(("X-Oai-Turn-Trace-Id".to_owned(), trace.to_owned()));
    }
    assert(pairs_view(h@) =~= image_header_list(*q, conduit_token@, accept@, trace@));
    req_headers(path, h)
}

/// Whether the text of an image may be the path of a file: it is short, on one line, and no data
/// address.
pub open spec fn like_path(image: Seq<char>) -> bool {
    image.len() > 0 && encode_utf8(image).len() < 512 && !begins(image, "data:"@) && !image.contains(
        '\n',
    ) && !image.contains('\r')
}

/// Decides [`like_path`].
pub fn may_be_path(image: &str) -> (r: bool)
    ensures
        r == like_path(image@),
{
    if image.is_empty() || image.as_bytes().len() >= 512 || starts_with(image, "data:") {
        return false;
    }
    let v = chars_of(image);
    let mut i: usize = 0;
    while i < v.len()
        invariant
            i <= v@.len(),
            v@ == image@,
            forall|k: int| 0 <= k < i ==> v@[k] != '\n' && v@[k] != '\r',
        decreases v@.len() - i,
    {
        if v[i] == '\n' || v[i] == '\r' {
            assert(image@[i as int] == v@[i as int]);
            return false;
        }
        i += 1;
    }
    true
}

/// What an image is encoded as: the text behind the comma of a data address, or all of it.
pub open spec fn encoded_part(image: Seq<char>) -> Seq<char> {
    match cut_once(image, ',') {
        Some((_, rest)) => if begins(image, "data:"@) {
            rest
        } else {
            image
        },
        None => image,
    }
}

/// Decodes an image that is no file.
pub fn decode_image_base64(image: &str) -> (r: Result<Vec<u8>, EngineError>)
    ensures
        match base64_outcome(trimmed(encoded_part(image@))) {
            Ok(b) => r is Ok && r->Ok_0@ == b,
            Err(e) => r matches Err(x) && x.says("invalid base64 image: "@ + e),
        },
{
    let payload = match split_once(image, ',') {
        Some((_, rest)) => {
            if starts_with(image, "data:") {
                rest
            } else {
                image.to_owned()
            }
        },
        None => image.to_owned(),
    };
    match base64_decode(trim(payload.as_str()).as_str()) {
        Ok(b) => Ok(b),
        Err(e) => Err(EngineError::Other(cat("invalid base64 image: ", e.as_str()))),
    }
}

/// The name of the image at a place, from zero on.
pub fn image_name(index: usize) -> (r: String)
    requires
        index < usize::MAX,
    ensures
        r@ == "image_"@ + decimal((index + 1) as nat) + ".png"@,
{
    cat3("image_", decimal_text((index + 1) as u128).as_str(), ".png")
}

/// The request to upload an image.
pub fn upload_request(file_name: &str, data: &[u8]) -> (r: Json)
    ensures
        r@ == empty_object().put("file_name"@, JsonView::Str(file_name@)).put(
            "file_size"@,
            count_json(data@.len()),
        ).put("use_case"@, JsonView::Str("multimodal"@)).put(
            "width"@,
            count_json(sides_of(data@).0 as nat),
        ).put("height"@, count_json(sides_of(data@).1 as nat)),
        r@.str_at("file_name"@) == file_name@,
        r@.get("file_size"@) == Some(count_json(data@.len())),
        r@.str_at("use_case"@) == "multimodal"@,
{
    broadcast use crate::value::group_fields;

    proof {
        reveal_strlit("file_name");
        reveal_strlit("file_size");
        reveal_strlit("use_case");
        reveal_strlit("width");
        reveal_strlit("height");
        assert("file_name"@.len() == 9 && "file_name"@[5] == 'n');
        assert("file_size"@.len() == 9 && "file_size"@[5] == 's');
        assert("use_case"@.len() == 8);
        assert("width"@.len() == 5);
        assert("height"@.len() == 6);
    }
    let (width, height) = image_dims(data);
    let mut o = Json::object();
    o.set("file_name", Json::from_text(file_name));
    o.set("file_size", Json::from_count(data.len()));
    o.set("use_case", Json::from_text("multimodal"));
    o.set("width", Json::from_count(width));
    o.set("height", Json::from_count(height));
    o
}

/// Reads the address and the id for an upload.
pub fn read_upload(meta: &Json) -> (r: Result<(String, String), EngineError>)
    ensures
        if meta@.str_at("upload_url"@).len() == 0 || meta@.str_at("file_id"@).len() == 0 {
            r matches Err(e) && e.says("invalid upload response: "@ + compact(meta@))
        } else {
            r is Ok && r->Ok_0.0@ == meta@.str_at("upload_url"@) && r->Ok_0.1@ == meta@.str_at(
                "file_id"@,
            )
        },
{
    let url = meta.str_at("upload_url");
    let id = meta.str_at("file_id");
    if url.as_str().is_empty() || id.as_str().is_empty() {
        return Err(
            EngineError::Other(cat("invalid upload response: ", meta.to_text().as_str())),
        );
    }
    Ok((url, id))
}

/// The headers with which an image is put into its place.
pub fn upload_headers(mime_type: &str, base_url: &str, user_agent: &str) -> (r: Vec<(String, String)>)
    ensures
        pairs_view(r@) == seq![
            ("Content-Type"@, mime_type@),
            ("x-ms-blob-type"@, "BlockBlob"@),
            ("x-ms-version"@, "2020-04-08"@),
            ("Origin"@, base_url@),
            ("Accept"@, "application/json, text/plain, */*"@),
            ("Accept-Language"@, "en-US,en;q=0.8"@),
            ("User-Agent"@, user_agent@),
            ("Referer"@, base_url@ + "/"@),
        ],
{
    let mut h: Vec<(String, String)> = Vec::new();
    h.push(("Content-Type".to_owned(), mime_type.to_owned()));
    h.push(("x-ms-blob-type".to_owned(), "BlockBlob".to_owned()));
    h.push(("x-ms-version".to_owned(), "2020-04-08".to_owned()));
    h.push(("Origin".to_owned(), base_url.to_owned()));
    h.push(("Accept".to_owned(), "application/json, text/plain, */*".to_owned()));
    h.push(("Accept-Language".to_owned(), "en-US,en;q=0.8".to_owned()));
    h.push(("User-Agent".to_owned(), user_agent.to_owned()));
    h.push(("Referer".to_owned(), cat(base_url, "/")));
    assert(pairs_view(h@) =~= seq![
        ("Content-Type"@, mime_type@),
        ("x-ms-blob-type"@, "BlockBlob"@),
        ("x-ms-version"@, "2020-04-08"@),
        ("Origin"@, base_url@),
        ("Accept"@, "application/json, text/plain, */*"@),
        ("Accept-Language"@, "en-US,en;q=0.8"@),
        ("User-Agent"@, user_agent@),
        ("Referer"@, base_url@ + "/"@),
    ]);
    h
}

/// Where an upload is reported done.
pub fn uploaded_path(file_id: &str) -> (r: String)
    ensures
        r@ == "/backend-api/files/"@ + file_id@ + "/uploaded"@,
{
    cat3("/backend-api/files/", file_id, "/uploaded")
}

/// What is known of an image that was uploaded.
pub fn upload_record(file_id: &str, file_name: &str, data: &[u8]) -> (r: Json)
    ensures
        r@ == empty_object().put("file_id"@, JsonView::Str(file_id@)).put(
            "file_name"@,
            JsonView::Str(file_name@),
        ).put("file_size"@, count_json(data@.len())).put(
            "mime_type"@,
            JsonView::Str(kind_media(image_kind(data@))),
        ).put("width"@, count_json(sides_of(data@).0 as nat)).put(
            "height"@,
            count_json(sides_of(data@).1 as nat),
        ),
        r@.str_at("file_id"@) == file_id@,
        r@.str_at("file_name"@) == file_name@,
        r@.get("file_size"@) == Some(count_json(data@.len())),
        r@.str_at("mime_type"@) == kind_media(image_kind(data@)),
{
    broadcast use crate::value::group_fields;

    proof {
        reveal_strlit("file_id");
        reveal_strlit("file_name");
        reveal_strlit("file_size");
        reveal_strlit("mime_type");
        reveal_strlit("width");
        reveal_strlit("height");
        assert("file_id"@.len() == 7);
        assert("file_name"@.len() == 9 && "file_name"@[0] == 'f' && "file_name"@[5] == 'n');
        assert("file_size"@.len() == 9 && "file_size"@[0] == 'f' && "file_size"@[5] == 's');
        assert("mime_type"@.len() == 9 && "mime_type"@[0] == 'm');
        assert("width"@.len() == 5);
        assert("height"@.len() == 6);
    }
    let (width, height) = image_dims(data);
    let mut o = Json::object();
    o.set("file_id", Json::from_text(file_id));
    o.set("file_name", Json::from_text(file_name));
    o.set("file_size", Json::from_count(data.len()));
    o.set("mime_type", Json::from_text(detect_mime(data)));
    o.set("width", Json::from_count(width));
    o.set("height", Json::from_count(height));
    o
}

// ---------------------------------------------------------------------------
// conversations that make images
// ---------------------------------------------------------------------------

/// The request that prepares a conversation; `hint` tells what it is for.
pub open spec fn prepare_request(
    prompt: Seq<char>,
    model: Seq<char>,
    hint: Seq<char>,
    parent_id: Seq<char>,
    query_id: Seq<char>,
) -> JsonView {
    empty_object().put("action"@, JsonView::Str("next"@)).put(
        "fork_from_shared_post"@,
        JsonView::Bool(false),
    ).put("parent_message_id"@, JsonView::Str(parent_id)).put("model"@, JsonView::Str(model)).put(
        "client_prepare_state"@,
        JsonView::Str("success"@),
    ).put("timezone_offset_min"@, int_json(-480)).put(
        "timezone"@,
        JsonView::Str("Asia/Shanghai"@),
    ).put("conversation_mode"@, single("kind"@, JsonView::Str("primary_assistant"@))).put(
        "system_hints"@,
        one_text(hint),
    ).put("partial_query"@, message_json(query_id, "user"@, prompt)).put(
        "supports_buffering"@,
        JsonView::Bool(true),
    ).put("supported_encodings"@, one_text("v1"@)).put(
        "client_contextual_info"@,
        single("app_name"@, JsonView::Str("chatgpt.com"@)),
    )
}

/// Makes the request that prepares a conversation.
pub fn prepare_payload(prompt: &str, model: &str, hint: &str, parent_id: &str, query_id: &str) -> (r:
    Json)
    ensures
        r@ == prepare_request(prompt@, model@, hint@, parent_id@, query_id@),
{
    let mut o = Json::object();
    o.set("action", Json::from_text("next"));
    o.set("fork_from_shared_post", Json::Bool(false));
    o.set("parent_message_id", Json::from_text(parent_id));
    o.set("model", Json::from_text(model));
    o.set("client_prepare_state", Json::from_text("success"));
    o.set("timezone_offset_min", Json::from_int(-480));
    o.set("timezone", Json::from_text("Asia/Shanghai"));
    o.set("conversation_mode", single_field("kind", Json::from_text("primary_assistant")));
    o.set("system_hints", text_list(hint));
    o.set("partial_query", make_message(query_id, "user", prompt));
    o.set("supports_buffering", Json::Bool(true));
    o.set("supported_encodings", text_list("v1"));
    o.set("client_contextual_info", single_field("app_name", Json::from_text("chatgpt.com")));
    o
}

/// A field of a value, or zero.
pub open spec fn at_or_zero(v: JsonView, k: Seq<char>) -> JsonView {
    match v.get(k) {
        Some(x) => x,
        None => int_json(0),
    }
}

fn field_or_zero(v: &Json, k: &str) -> (r: Json)
    ensures
        r@ == at_or_zero(v@, k@),
{
    match v.get(k) {
        Some(x) => x.copy(),
        None => Json::from_int(0),
    }
}

/// An uploaded image as a part of a message.
pub open spec fn asset_part(item: JsonView) -> JsonView {
    empty_object().put("content_type"@, JsonView::Str("image_asset_pointer"@)).put(
        "asset_pointer"@,
        JsonView::Str("file-service://"@ + item.str_at("file_id"@)),
    ).put("width"@, at_or_zero(item, "width"@)).put("height"@, at_or_zero(item, "height"@)).put(
        "size_bytes"@,
        at_or_zero(item, "file_size"@),
    )
}

/// An uploaded image as an attachment of a message.
pub open spec fn attachment(item: JsonView) -> JsonView {
    empty_object().put("id"@, item.at("file_id"@)).put("mimeType"@, item.at("mime_type"@)).put(
        "name"@,
        item.at("file_name"@),
    ).put("size"@, item.at("file_size"@)).put("width"@, item.at("width"@)).put(
        "height"@,
        item.at("height"@),
    )
}

/// The content of a message that asks for images.
pub open spec fn image_content(prompt: Seq<char>, references: Seq<JsonView>) -> JsonView {
    if references.len() == 0 {
        text_content(prompt)
    } else {
        empty_object().put("content_type"@, JsonView::Str("multimodal_text"@)).put(
            "parts"@,
            JsonView::Arr(
                references.map_values(|it: JsonView| asset_part(it)).push(JsonView::Str(prompt)),
            ),
        )
    }
}

/// What is said about a message; `hint` tells what it is for.
pub open spec fn message_metadata(hint: Seq<char>) -> JsonView {
    empty_object().put("developer_mode_connector_ids"@, no_items()).put(
        "selected_github_repos"@,
        no_items(),
    ).put("selected_all_github_repos"@, JsonView::Bool(false)).put(
        "system_hints"@,
        one_text(hint),
    ).put("serialization_metadata"@, single("custom_symbol_offsets"@, no_items()))
}

/// Makes what is said about a message.
pub fn make_metadata(hint: &str) -> (r: Json)
    ensures
        r@ == message_metadata(hint@),
{
    let mut o = Json::object();
    o.set("developer_mode_connector_ids", empty_list());
    o.set("selected_github_repos", empty_list());
    o.set("selected_all_github_repos", Json::Bool(false));
    o.set("system_hints", text_list(hint));
    o.set("serialization_metadata", single_field("custom_symbol_offsets", empty_list()));
    o
}

/// A message that a user sends.
pub open spec fn user_message(
    id: Seq<char>,
    time: JsonView,
    content: JsonView,
    metadata: JsonView,
) -> JsonView {
    empty_object().put("id"@, JsonView::Str(id)).put(
        "author"@,
        single("role"@, JsonView::Str("user"@)),
    ).put("create_time"@, time).put("content"@, content).put("metadata"@, metadata)
}

/// Makes a message that a user sends.
pub fn make_user_message(id: &str, time: Json, content: Json, metadata: Json) -> (r: Json)
    ensures
        r@ == user_message(id@, time@, content@, metadata@),
{
    let mut o = Json::object();
    o.set("id", Json::from_text(id));
    o.set("author", single_field("role", Json::from_text("user")));
    o.set("create_time", time);
    o.set("content", content);
    o.set("metadata", metadata);
    o
}

/// What a page for images says of itself.
pub open spec fn image_page() -> JsonView {
    empty_object().put("is_dark_mode"@, JsonView::Bool(false)).put(
        "time_since_loaded"@,
        int_json(1200),
    ).put("page_height"@, int_json(1072)).put("page_width"@, int_json(1724)).put(
        "pixel_ratio"@,
        JsonView::Num(NumberView { int: None, trunc: 1, text: "1.2"@ }),
    ).put("screen_height"@, int_json(1440)).put("screen_width"@, int_json(2560)).put(
        "app_name"@,
        JsonView::Str("chatgpt.com"@),
    )
}

/// The request for images.
pub open spec fn image_request(
    message: JsonView,
    parent_id: Seq<char>,
    model: Seq<char>,
) -> JsonView {
    empty_object().put("action"@, JsonView::Str("next"@)).put(
        "messages"@,
        JsonView::Arr(seq![message]),
    ).put("parent_message_id"@, JsonView::Str(parent_id)).put("model"@, JsonView::Str(model)).put(
        "client_prepare_state"@,
        JsonView::Str("sent"@),
    ).put("timezone_offset_min"@, int_json(-480)).put(
        "timezone"@,
        JsonView::Str("Asia/Shanghai"@),
    ).put("conversation_mode"@, single("kind"@, JsonView::Str("primary_assistant"@))).put(
        "enable_message_followups"@,
        JsonView::Bool(true),
    ).put("system_hints"@, one_text("picture_v2"@)).put(
        "supports_buffering"@,
        JsonView::Bool(true),
    ).put("supported_encodings"@, one_text("v1"@)).put(
        "client_contextual_info"@,
        image_page(),
    ).put("paragen_cot_summary_display_override"@, JsonView::Str("allow"@)).put(
        "force_parallel_switch"@,
        JsonView::Str("auto"@),
    )
}

/// The metadata of a message with images.
pub open spec fn image_metadata(references: Seq<JsonView>) -> JsonView {
    let m = message_metadata("picture_v2"@);
    if references.len() == 0 {
        m
    } else {
        m.put("attachments"@, JsonView::Arr(references.map_values(|it: JsonView| attachment(it))))
    }
}

fn asset_parts(references: &Vec<Json>) -> (r: Vec<Json>)
    ensures
        list_view(r@) == list_view(references@).map_values(|it: JsonView| asset_part(it)),
{
    let ghost want = list_view(references@).map_values(|it: JsonView| asset_part(it));
    let mut out: Vec<Json> = Vec::new();
    let mut i: usize = 0;
    while i < references.len()
        invariant
            i <= references@.len(),
            want == list_view(references@).map_values(|it: JsonView| asset_part(it)),
            list_view(out@) =~= want.take(i as int),
        decreases references@.len() - i,
    {
        let ghost done = list_view(out@);
        let item = &references[i];
        let mut o = Json::object();
        o.set("content_type", Json::from_text("image_asset_pointer"));
        o.set(
            "asset_pointer",
            Json::Str(cat("file-service://", item.str_at("file_id").as_str())),
        );
        o.set("width", field_or_zero(item, "width"));
        o.set("height", field_or_zero(item, "height"));
        o.set("size_bytes", field_or_zero(item, "file_size"));
        assert(o@ == want[i as int]);
        let ghost ov = o@;
        out.push(o);
        assert(list_view(out@) =~= done.push(ov));
        i += 1;
    }
    assert(list_view(out@) =~= want);
    out
}

fn attachments(references: &Vec<Json>) -> (r: Vec<Json>)
    ensures
        list_view(r@) == list_view(references@).map_values(|it: JsonView| attachment(it)),
{
    let ghost want = list_view(references@).map_values(|it: JsonView| attachment(it));
    let mut out: Vec<Json> = Vec::new();
    let mut i: usize = 0;
    while i < references.len()
        invariant
            i <= references@.len(),
            want == list_view(references@).map_values(|it: JsonView| attachment(it)),
            list_view(out@) =~= want.take(i as int),
        decreases references@.len() - i,
    {
        let ghost done = list_view(out@);
        let item = &references[i];
        let mut o = Json::object();
        o.set("id", item.at("file_id"));
        o.set("mimeType", item.at("mime_type"));
        o.set("name", item.at("file_name"));
        o.set("size", item.at("file_size"));
        o.set("width", item.at("width"));
        o.set("height", item.at("height"));
        assert(o@ == want[i as int]);
        let ghost ov = o@;
        out.push(o);
        assert(list_view(out@) =~= done.push(ov));
        i += 1;
    }
    assert(list_view(out@) =~= want);
    out
}

/// Makes the request for images; `references` are those that were uploaded, and `time` is when it
/// is made.
pub fn image_payload(
    prompt: &str,
    model: &str,
    references: &Vec<Json>,
    message_id: &str,
    parent_id: &str,
    time: Json,
) -> (r: Json)
    ensures
        r@ == image_request(
            user_message(
                message_id@,
                time@,
                image_content(prompt@, list_view(references@)),
                image_metadata(list_view(references@)),
            ),
            parent_id@,
            model@,
        ),
        r@.str_at("model"@) == model@,
        r@.str_at("parent_message_id"@) == parent_id@,
        r@.items_at("messages"@)[0].str_at("id"@) == message_id@,
        r@.items_at("messages"@)[0].at("content"@).items_at("parts"@).len() == references@.len() + 1,
        r@.items_at("messages"@)[0].at("content"@).items_at("parts"@).last() == JsonView::Str(
            prompt@,
        ),
        forall|i: int|
            0 <= i < references@.len() ==> (#[trigger] r@.items_at("messages"@)[0].at(
                "content"@,
            ).items_at("parts"@)[i]).str_at("asset_pointer"@) == "file-service://"@ + references@[i]@.str_at(
                "file_id"@,
            ),
{
    let ghost sent = time@;
    let ghost rv = list_view(references@);
    assert(rv.len() == references@.len());
    let content = if references.len() == 0 {
        make_text_content(prompt)
    } else {
        let mut parts = asset_parts(references);
        let ghost pv = list_view(parts@);
        parts.push(Json::from_text(prompt));
        assert(list_view(parts@) =~= pv.push(JsonView::Str(prompt@)));
        let mut o = Json::object();
        o.set("content_type", Json::from_text("multimodal_text"));
        o.set("parts", Json::Arr(parts));
        o
    };
    let mut metadata = make_metadata("picture_v2");
    if references.len() > 0 {
        metadata.set("attachments", Json::Arr(attachments(references)));
    }
    let message = make_user_message(message_id, time, content, metadata);
    let ghost mv = message@;
    let mut messages: Vec<Json> = Vec::new();
    messages.push(message);
    assert(list_view(messages@) =~= seq![mv]);
    let mut page = Json::object();
    page.set("is_dark_mode", Json::Bool(false));
    page.set("time_since_loaded", Json::from_int(1200));
    page.set("page_height", Json::from_int(1072));
    page.set("page_width", Json::from_int(1724));
    page.set("pixel_ratio", Json::Num(Number { int: None, trunc: 1, text: "1.2".to_owned() }));
    page.set("screen_height", Json::from_int(1440));
    page.set("screen_width", Json::from_int(2560));
    page.set("app_name", Json::from_text("chatgpt.com"));
    let mut o = Json::object();
    o.set("action", Json::from_text("next"));
    o.set("messages", Json::Arr(messages));
    o.set("parent_message_id", Json::from_text(parent_id));
    o.set("model", Json::from_text(model));
    o.set("client_prepare_state", Json::from_text("sent"));
    o.set("timezone_offset_min", Json::from_int(-480));
    o.set("timezone", Json::from_text("Asia/Shanghai"));
    o.set("conversation_mode", single_field("kind", Json::from_text("primary_assistant")));
    o.set("enable_message_followups", Json::Bool(true));
    o.set("system_hints", text_list("picture_v2"));
    o.set("supports_buffering", Json::Bool(true));
    o.set("supported_encodings", text_list("v1"));
    o.set("client_contextual_info", page);
    o.set("paragen_cot_summary_display_override", Json::from_text("allow"));
    o.set("force_parallel_switch", Json::from_text("auto"));
    proof {
        let rv = list_view(references@);
        crate::picture_laws::law_image_request_carries_all(
            message_id@,
            sent,
            prompt@,
            rv,
            parent_id@,
            model@,
        );
        assert(rv.len() == references@.len());
        assert forall|i: int| 0 <= i < references@.len() implies #[trigger] rv[i] == references@[i]@ by {}
    }
    o
}

// ---------------------------------------------------------------------------
// what a conversation holds
// ---------------------------------------------------------------------------

/// Whether a task belongs to a conversation; all belong to none.
pub open spec fn of_conversation(conversation_id: Seq<char>) -> spec_fn(JsonView) -> bool {
    |t: JsonView|
        conversation_id.len() == 0 || t.get("conversation_id"@) == Some(
            JsonView::Str(conversation_id),
        ) || t.get("original_conversation_id"@) == Some(JsonView::Str(conversation_id))
}

/// The tasks of a conversation, in an answer.
pub fn conversation_tasks(data: &Json, conversation_id: &str) -> (r: Vec<Json>)
    ensures
        list_view(r@) == data@.items_at("tasks"@).filter(of_conversation(conversation_id@)),
{
    let tasks = data.items_at("tasks");
    let ghost v = list_view(tasks@);
    let ghost keep = of_conversation(conversation_id@);
    let mut out: Vec<Json> = Vec::new();
    let mut i: usize = 0;
    proof {
        reveal(Seq::filter);
        assert(list_view(out@) =~= v.take(0).filter(keep));
    }
    while i < tasks.len()
        invariant
            i <= tasks@.len(),
            v == list_view(tasks@),
            keep == of_conversation(conversation_id@),
            list_view(out@) == v.take(i as int).filter(keep),
        decreases tasks@.len() - i,
    {
        let ghost done = list_view(out@);
        assert(v.take(i + 1).drop_last() =~= v.take(i as int));
        assert(v.take(i + 1).filter(keep) == if keep(v[i as int]) {
            done.push(v[i as int])
        } else {
            done
        }) by {
            reveal(Seq::filter);
        }
        let t = &tasks[i];
        if conversation_id.is_empty() || crate::account::holds_at(
            t,
            "conversation_id",
            conversation_id,
        ) || crate::account::holds_at(t, "original_conversation_id", conversation_id) {
            out.push(t.copy());
            assert(list_view(out@) =~= done.push(v[i as int]));
        }
        i += 1;
    }
    assert(v.take(i as int) =~= v);
    out
}

/// The text of a part.
pub open spec fn text_part() -> spec_fn(JsonView) -> Option<Seq<char>> {
    |p: JsonView| p.as_text()
}

/// What a task says went wrong: whether something did, and the text about it.
pub open spec fn task_fault(task: JsonView) -> (bool, Seq<char>) {
    let message = task.at("image_gen_message"@);
    let content = message.at("content"@);
    let failed = message is Obj && message.at("metadata"@).bool_at("is_error"@, false);
    (
        failed,
        if failed && content.str_at("content_type"@) == "text"@ {
            joined(content.items_at("parts"@).filter_map(text_part()), ""@)
        } else {
            Seq::empty()
        },
    )
}

fn join_texts(parts: &Vec<Json>) -> (r: String)
    ensures
        r@ == joined(list_view(parts@).filter_map(text_part()), ""@),
{
    let ghost v = list_view(parts@);
    let ghost f = text_part();
    let mut out: Vec<String> = Vec::new();
    let mut i: usize = 0;
    assert(v.take(0).filter_map(f) =~= Seq::empty());
    assert(views(out@) =~= Seq::empty());
    while i < parts.len()
        invariant
            i <= parts@.len(),
            v == list_view(parts@),
            f == text_part(),
            views(out@) == v.take(i as int).filter_map(f),
        decreases parts@.len() - i,
    {
        proof {
            v.lemma_filter_map_take_succ(f, i as int);
        }
        let ghost done = views(out@);
        match &parts[i] {
            Json::Str(s) => {
                out.push(s.clone());
                assert(views(out@) =~= done + seq![s@]);
            },
            _ => {},
        }
        assert(views(out@) =~= v.take(i + 1).filter_map(f));
        i += 1;
    }
    assert(v.take(i as int) =~= v);
    join(&out, "")
}

/// Reads what a task says went wrong.
pub fn check_task_error(task: &Json) -> (r: (bool, String))
    ensures
        (r.0, r.1@) == task_fault(task@),
{
    let message = task.at("image_gen_message");
    if !message.is_object() {
        return (false, String::new());
    }
    let failed = message.at("metadata").bool_at("is_error", false);
    let content = message.at("content");
    if failed && same(content.str_at("content_type").as_str(), "text") {
        (true, join_texts(&content.items_at("parts")))
    } else {
        (failed, String::new())
    }
}

/// The ids of images: of files, and of sediments.
pub open spec fn with_string_ids(
    ids: (Seq<Seq<char>>, Seq<Seq<char>>),
    s: Seq<char>,
) -> (Seq<Seq<char>>, Seq<Seq<char>>) {
    (
        with_unique(
            with_unique(ids.0, group_matches(FILE_SERVICE_ID@, s)),
            whole_matches(REAL_IMAGE_FILE_ID@, s),
        ),
        with_unique(ids.1, group_matches(SEDIMENT_ID@, s)),
    )
}

/// The ids after those in a value, with all that is in it.
pub open spec fn with_ids(ids: (Seq<Seq<char>>, Seq<Seq<char>>), v: JsonView) -> (
    Seq<Seq<char>>,
    Seq<Seq<char>>,
)
    decreases v,
{
    match v {
        JsonView::Str(s) => with_string_ids(ids, s),
        JsonView::Arr(items) => with_item_ids(ids, items),
        JsonView::Obj(o) => with_field_ids(ids, o),
        _ => ids,
    }
}

/// The ids after those in the items of a list.
pub open spec fn with_item_ids(ids: (Seq<Seq<char>>, Seq<Seq<char>>), items: Seq<JsonView>) -> (
    Seq<Seq<char>>,
    Seq<Seq<char>>,
)
    decreases items,
{
    if items.len() == 0 {
        ids
    } else {
        with_ids(with_item_ids(ids, items.drop_last()), items.last())
    }
}

/// The ids after those in the fields of an object.
pub open spec fn with_field_ids(
    ids: (Seq<Seq<char>>, Seq<Seq<char>>),
    o: Seq<(Seq<char>, JsonView)>,
) -> (Seq<Seq<char>>, Seq<Seq<char>>)
    decreases o,
{
    if o.len() == 0 {
        ids
    } else {
        with_ids(with_field_ids(ids, o.drop_last()), o.last().1)
    }
}

fn collect_ids(file_ids: &mut Vec<String>, sediment_ids: &mut Vec<String>, value: &Json)
    ensures
        (views(final(file_ids)@), views(final(sediment_ids)@)) == with_ids(
            (views(old(file_ids)@), views(old(sediment_ids)@)),
            value@,
        ),
    decreases value,
{
    let ghost start = (views(file_ids@), views(sediment_ids@));
    match value {
        Json::Str(s) => {
            add_unique(file_ids, &find_groups(FILE_SERVICE_ID, s.as_str()));
            add_unique(file_ids, &find_matches(REAL_IMAGE_FILE_ID, s.as_str()));
            add_unique(sediment_ids, &find_groups(SEDIMENT_ID, s.as_str()));
        },
        Json::Arr(items) => {
            let ghost v = list_view(items@);
            let mut i: usize = 0;
            assert(v.take(0) =~= Seq::empty());
            while i < items.len()
                invariant
                    i <= items@.len(),
                    *value is Arr && value->Arr_0 == *items,
                    v == list_view(items@),
                    (views(file_ids@), views(sediment_ids@)) == with_item_ids(
                        start,
                        v.take(i as int),
                    ),
                decreases items@.len() - i,
            {
                assert(v.take(i + 1).drop_last() =~= v.take(i as int));
                collect_ids(file_ids, sediment_ids, &items[i]);
                i += 1;
            }
            assert(v.take(i as int) =~= v);
        },
        Json::Obj(o) => {
            let ghost fv = fields_view(o@);
            let mut i: usize = 0;
            assert(fv.take(0) =~= Seq::empty());
            while i < o.len()
                invariant
                    i <= o@.len(),
                    *value is Obj && value->Obj_0 == *o,
                    fv == fields_view(o@),
                    (views(file_ids@), views(sediment_ids@)) == with_field_ids(
                        start,
                        fv.take(i as int),
                    ),
                decreases o@.len() - i,
            {
                assert(fv.take(i + 1).drop_last() =~= fv.take(i as int));
                collect_ids(file_ids, sediment_ids, &o[i].1);
                i += 1;
            }
            assert(fv.take(i as int) =~= fv);
        },
        _ => {},
    }
}

/// The ids of images in a value.
pub open spec fn ids_in(v: JsonView) -> (Seq<Seq<char>>, Seq<Seq<char>>) {
    with_ids((Seq::empty(), Seq::empty()), v)
}

/// Collects the ids of images in a value.
pub fn extract_image_reference_ids(payload: &Json) -> (r: (Vec<String>, Vec<String>))
    ensures
        (views(r.0@), views(r.1@)) == ids_in(payload@),
{
    let mut file_ids: Vec<String> = Vec::new();
    let mut sediment_ids: Vec<String> = Vec::new();
    assert(views(file_ids@) =~= Seq::empty());
    assert(views(sediment_ids@) =~= Seq::empty());
    collect_ids(&mut file_ids, &mut sediment_ids, payload);
    (file_ids, sediment_ids)
}

/// Whether an object itself points to an image.
pub open spec fn is_pointer(v: JsonView) -> bool {
    v.get("content_type"@) == Some(JsonView::Str("image_asset_pointer"@)) || begins(
        v.str_at("asset_pointer"@),
        "file-service://"@,
    ) || begins(v.str_at("asset_pointer"@), "sediment://"@)
}

/// Whether a value holds an object that points to an image.
pub open spec fn holds_pointer(v: JsonView) -> bool
    decreases v,
{
    match v {
        JsonView::Obj(o) => is_pointer(v) || field_holds_pointer(o),
        JsonView::Arr(items) => item_holds_pointer(items),
        _ => false,
    }
}

/// Whether an item holds an object that points to an image.
pub open spec fn item_holds_pointer(items: Seq<JsonView>) -> bool
    decreases items,
{
    items.len() > 0 && (item_holds_pointer(items.drop_last()) || holds_pointer(items.last()))
}

/// Whether a field holds an object that points to an image.
pub open spec fn field_holds_pointer(o: Seq<(Seq<char>, JsonView)>) -> bool
    decreases o,
{
    o.len() > 0 && (field_holds_pointer(o.drop_last()) || holds_pointer(o.last().1))
}

/// Decides [`holds_pointer`].
pub fn has_image_asset_pointer(payload: &Json) -> (r: bool)
    ensures
        r == holds_pointer(payload@),
    decreases payload,
{
    match payload {
        Json::Obj(o) => {
            let pointer = payload.str_at("asset_pointer");
            if crate::account::holds_at(payload, "content_type", "image_asset_pointer") || starts_with(
                pointer.as_str(),
                "file-service://",
            ) || starts_with(pointer.as_str(), "sediment://") {
                return true;
            }
            let ghost fv = fields_view(o@);
            let mut found = false;
            let mut i: usize = 0;
            assert(fv.take(0) =~= Seq::empty());
            while i < o.len()
                invariant
                    i <= o@.len(),
                    *payload is Obj && payload->Obj_0 == *o,
                    fv == fields_view(o@),
                    found == field_holds_pointer(fv.take(i as int)),
                decreases o@.len() - i,
            {
                assert(fv.take(i + 1).drop_last() =~= fv.take(i as int));
                assert(fv.take(i + 1).last() == (o@[i as int].0@, o@[i as int].1@));
                if has_image_asset_pointer(&o[i].1) {
                    found = true;
                }
                i += 1;
            }
            assert(fv.take(i as int) =~= fv);
            found
        },
        Json::Arr(items) => {
            let ghost v = list_view(items@);
            let mut found = false;
            let mut i: usize = 0;
            assert(v.take(0) =~= Seq::empty());
            while i < items.len()
                invariant
                    i <= items@.len(),
                    *payload is Arr && payload->Arr_0 == *items,
                    v == list_view(items@),
                    found == item_holds_pointer(v.take(i as int)),
                decreases items@.len() - i,
            {
                assert(v.take(i + 1).drop_last() =~= v.take(i as int));
                assert(v.take(i + 1).last() == items@[i as int]@);
                if has_image_asset_pointer(&items[i]) {
                    found = true;
                }
                i += 1;
            }
            assert(v.take(i as int) =~= v);
            found
        },
        _ => false,
    }
}

/// A message that speaks of images.
pub struct ToolRecord {
    pub message_id: String,
    pub create_time: Json,
    pub file_ids: Vec<String>,
    pub sediment_ids: Vec<String>,
}

/// The model of a [`ToolRecord`].
pub struct RecordView {
    pub message_id: Seq<char>,
    pub create_time: JsonView,
    pub file_ids: Seq<Seq<char>>,
    pub sediment_ids: Seq<Seq<char>>,
}

impl View for ToolRecord {
    type V = RecordView;

    open spec fn view(&self) -> RecordView {
        RecordView {
            message_id: self.message_id@,
            create_time: self.create_time@,
            file_ids: views(self.file_ids@),
            sediment_ids: views(self.sediment_ids@),
        }
    }
}

/// The models of records.
pub open spec fn records_view(v: Seq<ToolRecord>) -> Seq<RecordView> {
    v.map_values(|r: ToolRecord| r@)
}

/// The role of the author of a message, in lower case.
pub open spec fn author_role(message: JsonView) -> Seq<char> {
    unicode_lower(trimmed(message.at("author"@).str_at("role"@)))
}

fn role_of(message: &Json) -> (r: String)
    ensures
        r@ == author_role(message@),
{
    to_lower(trim(message.at("author").str_at("role").as_str()).as_str())
}

/// What a message is searched in for ids.
pub open spec fn searched(message: JsonView) -> JsonView {
    empty_object().put("content"@, message.at("content"@)).put("metadata"@, message.at("metadata"@))
}

/// The record of a node of a conversation: of a message by a tool or an assistant that makes an
/// image, points to one, or, by a tool, names one.
pub open spec fn node_record() -> spec_fn((Seq<char>, JsonView)) -> Option<RecordView> {
    |e: (Seq<char>, JsonView)|
        {
            let m = e.1.at("message"@);
            let role = author_role(m);
            let makes = m.at("metadata"@).get("async_task_type"@) == Some(
                JsonView::Str("image_gen"@),
            );
            let points = holds_pointer(m.at("content"@)) || holds_pointer(m.at("metadata"@));
            let ids = ids_in(searched(m));
            if (role == "assistant"@ && (makes || points)) || (role == "tool"@ && (makes || points
                || ids.0.len() > 0 || ids.1.len() > 0)) {
                Some(
                    RecordView {
                        message_id: e.0,
                        create_time: at_or_zero(m, "create_time"@),
                        file_ids: ids.0,
                        sediment_ids: ids.1,
                    },
                )
            } else {
                None
            }
        }
}

/// The text of a time; that of zero for what is no number.
pub open spec fn time_text(v: JsonView) -> Seq<char> {
    match v {
        JsonView::Num(n) => n.text,
        _ => "0"@,
    }
}

/// Reads [`time_text`].
pub fn text_of_time(v: &Json) -> (r: String)
    ensures
        r@ == time_text(v@),
{
    match v {
        Json::Num(n) => n.text.clone(),
        _ => "0".to_owned(),
    }
}

/// Records by their times, the oldest first.
pub open spec fn time_order() -> spec_fn(RecordView, RecordView) -> bool {
    |a: RecordView, b: RecordView| number_below(time_text(a.create_time), time_text(b.create_time))
}

/// The nodes of a conversation.
pub open spec fn nodes_of(data: JsonView) -> Seq<(Seq<char>, JsonView)> {
    match data.get("mapping"@) {
        Some(JsonView::Obj(o)) => o,
        _ => Seq::empty(),
    }
}

fn sort_by_time(v: Vec<ToolRecord>) -> (r: Vec<ToolRecord>)
    ensures
        records_view(r@) == sorted(records_view(v@), time_order()),
{
    let ghost lt = time_order();
    let ghost all = records_view(v@);
    let mut rest = v;
    let mut out: Vec<ToolRecord> = Vec::new();
    let ghost mut k: int = 0;
    assert(records_view(out@) =~= Seq::empty());
    assert(records_view(rest@) =~= all.skip(0));
    while rest.len() > 0
        invariant
            0 <= k <= all.len(),
            lt == time_order(),
            records_view(rest@) == all.skip(k),
            records_view(out@) == sorted(all.take(k), lt),
        decreases rest@.len(),
    {
        assert(records_view(rest@).len() == rest@.len());
        assert(all.take(k + 1).drop_last() =~= all.take(k));
        let ghost s = records_view(out@);
        let ghost x = all[k];
        assert(records_view(rest@)[0] == rest@[0]@);
        let ghost had = rest@;
        let item = rest.remove(0);
        assert(item@ == x);
        assert(records_view(rest@) =~= all.skip(k + 1)) by {
            assert forall|j: int| 0 <= j < rest@.len() implies #[trigger] records_view(rest@)[j]
                == all.skip(k + 1)[j] by {
                assert(rest@[j] == had[j + 1]);
                assert(records_view(had)[j + 1] == all.skip(k)[j + 1]);
            }
        }
        let mine = text_of_time(&item.create_time);
        let mut i: usize = out.len();
        while i > 0 && is_below(mine.as_str(), text_of_time(&out[i - 1].create_time).as_str())
            invariant
                i <= out@.len(),
                s == records_view(out@),
                item@ == x,
                mine@ == time_text(x.create_time),
                lt == time_order(),
                forall|j: int| i <= j < s.len() ==> lt(x, #[trigger] s[j]),
            ensures
                i <= out@.len(),
                s == records_view(out@),
                forall|j: int| i <= j < s.len() ==> lt(x, #[trigger] s[j]),
                i > 0 ==> !lt(x, s[i - 1]),
            decreases i,
        {
            i -= 1;
        }
        proof {
            lemma_placed_at(s, x, lt, i as int);
        }
        out.insert(i, item);
        assert(records_view(out@) =~= s.insert(i as int, x));
        proof {
            k = k + 1;
        }
    }
    assert(records_view(rest@).len() == rest@.len());
    assert(all.take(k) =~= all);
    out
}

fn record_of(id: &str, node: &Json) -> (r: Option<ToolRecord>)
    ensures
        match r {
            Some(t) => node_record()((id@, node@)) == Some(t@),
            None => node_record()((id@, node@)) is None,
        },
{
    let m = node.at("message");
    let role = role_of(&m);
    proof {
        reveal_strlit("tool");
        reveal_strlit("assistant");
        assert("tool"@.len() == 4 && "assistant"@.len() == 9);
    }
    let tool = same(role.as_str(), "tool");
    let assistant = same(role.as_str(), "assistant");
    if !tool && !assistant {
        return None;
    }
    let metadata = m.at("metadata");
    let content = m.at("content");
    let makes = crate::account::holds_at(&metadata, "async_task_type", "image_gen");
    let points = has_image_asset_pointer(&content) || has_image_asset_pointer(&metadata);
    if assistant && !(makes || points) {
        return None;
    }
    let mut place = Json::object();
    place.set("content", content);
    place.set("metadata", metadata);
    let (file_ids, sediment_ids) = extract_image_reference_ids(&place);
    assert(views(file_ids@).len() == file_ids@.len());
    assert(views(sediment_ids@).len() == sediment_ids@.len());
    if !makes && !points && file_ids.len() == 0 && sediment_ids.len() == 0 {
        return None;
    }
    Some(
        ToolRecord {
            message_id: id.to_owned(),
            create_time: field_or_zero(&m, "create_time"),
            file_ids,
            sediment_ids,
        },
    )
}

/// The records of a conversation, the oldest first.
pub open spec fn tool_records(data: JsonView) -> Seq<RecordView> {
    sorted(nodes_of(data).filter_map(node_record()), time_order())
}

/// Finds [`tool_records`].
pub fn extract_image_tool_records(data: &Json) -> (r: Vec<ToolRecord>)
    ensures
        records_view(r@) == tool_records(data@),
{
    let mut out: Vec<ToolRecord> = Vec::new();
    let ghost f = node_record();
    assert(records_view(out@) =~= Seq::empty());
    match data.get("mapping") {
        Some(Json::Obj(o)) => {
            let ghost v = fields_view(o@);
            let mut i: usize = 0;
            assert(v.take(0).filter_map(f) =~= Seq::empty());
            while i < o.len()
                invariant
                    i <= o@.len(),
                    v == fields_view(o@),
                    f == node_record(),
                    records_view(out@) == v.take(i as int).filter_map(f),
                decreases o@.len() - i,
            {
                proof {
                    v.lemma_filter_map_take_succ(f, i as int);
                }
                let ghost done = records_view(out@);
                match record_of(o[i].0.as_str(), &o[i].1) {
                    Some(t) => {
                        let ghost tv = t@;
                        out.push(t);
                        assert(records_view(out@) =~= done + seq![tv]);
                    },
                    None => {},
                }
                assert(records_view(out@) =~= v.take(i + 1).filter_map(f));
                i += 1;
            }
            assert(v.take(i as int) =~= v);
        },
        _ => {
            assert(Seq::<(Seq<char>, JsonView)>::empty().filter_map(f) =~= Seq::empty());
        },
    }
    sort_by_time(out)
}

/// A text that is not blank, without the white space round it.
pub open spec fn solid_part() -> spec_fn(JsonView) -> Option<Seq<char>> {
    |p: JsonView|
        match p {
            JsonView::Str(s) => if trimmed(s).len() > 0 {
                Some(trimmed(s))
            } else {
                None
            },
            _ => None,
        }
}

/// A text as a list, empty where it is blank.
pub open spec fn solid_text(s: Seq<char>) -> Seq<Seq<char>> {
    if trimmed(s).len() > 0 {
        seq![trimmed(s)]
    } else {
        Seq::empty()
    }
}

/// The texts of the content of a message.
pub open spec fn content_texts(content: JsonView) -> Seq<Seq<char>> {
    match content {
        JsonView::Obj(_) => content.items_at("parts"@).filter_map(solid_part()) + solid_text(
            content.str_at("text"@),
        ),
        JsonView::Str(s) => solid_text(s),
        _ => Seq::empty(),
    }
}

fn push_solid(out: &mut Vec<String>, s: &str)
    ensures
        views(final(out)@) == views(old(out)@) + solid_text(s@),
{
    let ghost had = views(out@);
    let t = trim(s);
    if !t.as_str().is_empty() {
        let ghost tv = t@;
        out.push(t);
        assert(views(out@) =~= had + seq![tv]);
    } else {
        assert(had + Seq::empty() =~= had);
    }
}

fn texts_of(content: &Json) -> (r: Vec<String>)
    ensures
        views(r@) == content_texts(content@),
{
    let mut out: Vec<String> = Vec::new();
    assert(views(out@) =~= Seq::empty());
    match content {
        Json::Obj(_) => {
            let parts = content.items_at("parts");
            let ghost v = list_view(parts@);
            let ghost f = solid_part();
            let mut i: usize = 0;
            assert(v.take(0).filter_map(f) =~= Seq::empty());
            while i < parts.len()
                invariant
                    i <= parts@.len(),
                    v == list_view(parts@),
                    f == solid_part(),
                    views(out@) == v.take(i as int).filter_map(f),
                decreases parts@.len() - i,
            {
                proof {
                    v.lemma_filter_map_take_succ(f, i as int);
                }
                let ghost done = views(out@);
                match &parts[i] {
                    Json::Str(s) => {
                        push_solid(&mut out, s.as_str());
                    },
                    _ => {},
                }
                assert(views(out@) =~= v.take(i + 1).filter_map(f));
                i += 1;
            }
            assert(v.take(i as int) =~= v);
            push_solid(&mut out, content.str_at("text").as_str());
        },
        Json::Str(s) => {
            push_solid(&mut out, s.as_str());
            assert(Seq::empty() + solid_text(s@) =~= solid_text(s@));
        },
        _ => {},
    }
    out
}

/// The refusal in a message: its first five hundred characters; empty where it is none.
pub open spec fn message_refusal(m: JsonView) -> Seq<char> {
    let text = joined(content_texts(m.at("content"@)), "\n"@);
    let role = author_role(m);
    if (role == "assistant"@ || role == "tool"@) && text.len() > 0 && is_policy_refusal(text) {
        text.take(
            if text.len() > 500 {
                500
            } else {
                text.len() as int
            },
        )
    } else {
        Seq::empty()
    }
}

/// The first refusal among nodes.
pub open spec fn first_refusal(nodes: Seq<(Seq<char>, JsonView)>) -> Seq<char>
    decreases nodes.len(),
{
    if nodes.len() == 0 {
        Seq::empty()
    } else if message_refusal(nodes[0].1.at("message"@)).len() > 0 {
        message_refusal(nodes[0].1.at("message"@))
    } else {
        first_refusal(nodes.drop_first())
    }
}

/// Finds the first refusal on grounds of policy in a conversation.
pub fn find_content_policy_error_in_conversation(data: &Json) -> (r: String)
    ensures
        r@ == first_refusal(nodes_of(data@)),
{
    match data.get("mapping") {
        Some(Json::Obj(o)) => {
            let ghost v = fields_view(o@);
            let mut i: usize = 0;
            assert(v.skip(0) =~= v);
            while i < o.len()
                invariant
                    i <= o@.len(),
                    v == fields_view(o@),
                    nodes_of(data@) == v,
                    first_refusal(v) == first_refusal(v.skip(i as int)),
                decreases o@.len() - i,
            {
                assert(v.skip(i as int)[0] == (o@[i as int].0@, o@[i as int].1@));
                assert(v.skip(i as int).drop_first() =~= v.skip(i + 1));
                let m = o[i].1.at("message");
                let role = role_of(&m);
                if same(role.as_str(), "assistant") || same(role.as_str(), "tool") {
                    let text = join(&texts_of(&m.at("content")), "\n");
                    if is_content_policy_error(text.as_str()) {
                        return prefix_chars(text.as_str(), 500);
                    }
                }
                i += 1;
            }
            String::new()
        },
        _ => String::new(),
    }
}

// ---------------------------------------------------------------------------
// waiting for images
// ---------------------------------------------------------------------------

/// The file ids after those of records.
pub open spec fn gathered_files(ids: Seq<Seq<char>>, records: Seq<RecordView>) -> Seq<Seq<char>>
    decreases records.len(),
{
    if records.len() == 0 {
        ids
    } else {
        with_new(gathered_files(ids, records.drop_last()), records.last().file_ids)
    }
}

/// The sediment ids after those of records.
pub open spec fn gathered_sediments(ids: Seq<Seq<char>>, records: Seq<RecordView>) -> Seq<Seq<char>>
    decreases records.len(),
{
    if records.len() == 0 {
        ids
    } else {
        with_new(gathered_sediments(ids, records.drop_last()), records.last().sediment_ids)
    }
}

fn add_new(values: &mut Vec<String>, more: &Vec<String>)
    ensures
        views(final(values)@) == with_new(views(old(values)@), views(more@)),
{
    let ghost first = views(values@);
    let ghost c = views(more@);
    let mut i: usize = 0;
    while i < more.len()
        invariant
            i <= more@.len(),
            c == views(more@),
            views(values@) == with_new(first, c.take(i as int)),
        decreases more@.len() - i,
    {
        assert(c.take(i + 1).drop_last() =~= c.take(i as int));
        push_new(values, more[i].as_str());
        i += 1;
    }
    assert(c.take(i as int) =~= c);
}

/// What is done next while images are waited for.
pub enum PollStep {
    Fail(EngineError),
    /// The images are there.
    Done,
    /// Images are there; unless the time is up, they are looked at once more after a while.
    Settle,
    /// There are none; they are looked for again after a while.
    Wait,
    /// The service is busy; they are looked for again after so many seconds.
    Backoff(u64),
}

/// The wait for the images of a conversation.
pub struct ImagePoll {
    pub file_ids: Vec<String>,
    pub sediment_ids: Vec<String>,
    /// The ids that were there when they were last looked at.
    pub last_hit: Option<(Vec<String>, Vec<String>)>,
    pub attempt: u32,
    pub task_error: String,
    /// Whether ids count only once they are seen twice.
    pub check_before_hit: bool,
    /// Whether ids are given time to settle.
    pub settle: bool,
}

/// How long to wait after the given number of attempts on a busy service: twice as long after
/// each, sixteen seconds at most.
pub open spec fn backoff_secs(attempt: u32) -> u64 {
    if attempt == 0 {
        1
    } else if attempt == 1 {
        2
    } else if attempt == 2 {
        4
    } else if attempt == 3 {
        8
    } else {
        16
    }
}

/// The ids that were there when they were last looked at.
pub open spec fn hit_view(h: Option<(Vec<String>, Vec<String>)>) -> Option<
    (Seq<Seq<char>>, Seq<Seq<char>>),
> {
    match h {
        Some((f, s)) => Some((views(f@), views(s@))),
        None => None,
    }
}

/// Whether a status shows that a service is busy.
pub open spec fn is_busy(status: u16) -> bool {
    status == 429 || status == 500 || status == 502 || status == 503 || status == 504
}

/// The last text about a fault among tasks; empty where there is none.
pub open spec fn last_fault(tasks: Seq<JsonView>) -> Seq<char>
    decreases tasks.len(),
{
    if tasks.len() == 0 {
        Seq::empty()
    } else if task_fault(tasks.last()).1.len() > 0 {
        task_fault(tasks.last()).1
    } else {
        last_fault(tasks.drop_last())
    }
}

fn same_texts(a: &Vec<String>, b: &Vec<String>) -> (r: bool)
    ensures
        r == (views(a@) == views(b@)),
{
    assert(views(a@).len() == a@.len());
    assert(views(b@).len() == b@.len());
    if a.len() != b.len() {
        return false;
    }
    let mut i: usize = 0;
    while i < a.len()
        invariant
            i <= a@.len(),
            a@.len() == b@.len(),
            forall|k: int| 0 <= k < i ==> views(a@)[k] == views(b@)[k],
        decreases a@.len() - i,
    {
        assert(views(a@)[i as int] == a@[i as int]@);
        assert(views(b@)[i as int] == b@[i as int]@);
        if !same(a[i].as_str(), b[i].as_str()) {
            return false;
        }
        i += 1;
    }
    assert(views(a@) =~= views(b@));
    true
}

impl ImagePoll {
    /// Begins to wait, with the ids that are there already; tells whether those are to settle
    /// first.
    pub fn start(
        initial_file_ids: &Vec<String>,
        initial_sediment_ids: &Vec<String>,
        check_before_hit: bool,
        settle: bool,
    ) -> (r: (ImagePoll, bool))
        ensures
            ({
                let f = with_unique(Seq::empty(), views(initial_file_ids@));
                let s = with_unique(Seq::empty(), views(initial_sediment_ids@));
                let has = f.len() > 0 || s.len() > 0;
                &&& views(r.0.file_ids@) == f
                &&& views(r.0.sediment_ids@) == s
                &&& hit_view(r.0.last_hit) == (if has {
                    Some((f, s))
                } else {
                    None
                })
                &&& r.0.attempt == 0
                &&& r.0.task_error@.len() == 0
                &&& r.0.check_before_hit == check_before_hit
                &&& r.0.settle == settle
                &&& r.1 == (has && settle)
            }),
    {
        let mut file_ids: Vec<String> = Vec::new();
        let mut sediment_ids: Vec<String> = Vec::new();
        assert(views(file_ids@) =~= Seq::empty());
        assert(views(sediment_ids@) =~= Seq::empty());
        add_unique(&mut file_ids, initial_file_ids);
        add_unique(&mut sediment_ids, initial_sediment_ids);
        assert(views(file_ids@).len() == file_ids@.len());
        assert(views(sediment_ids@).len() == sediment_ids@.len());
        let has = file_ids.len() > 0 || sediment_ids.len() > 0;
        let last_hit = if has {
            Some((crate::text::copy_texts(&file_ids), crate::text::copy_texts(&sediment_ids)))
        } else {
            None
        };
        (
            ImagePoll {
                file_ids,
                sediment_ids,
                last_hit,
                attempt: 0,
                task_error: String::new(),
                check_before_hit,
                settle,
            },
            has && settle,
        )
    }

    /// Begins another look: counts it, and takes over what the tasks say went wrong; without an
    /// answer about them nothing did.
    pub fn begin_round(&mut self, tasks: &Vec<Json>)
        ensures
            final(self).attempt == (if old(self).attempt == u32::MAX {
                u32::MAX
            } else {
                (old(self).attempt + 1) as u32
            }),
            final(self).task_error@ == last_fault(list_view(tasks@)),
            final(self).file_ids == old(self).file_ids,
            final(self).sediment_ids == old(self).sediment_ids,
            final(self).last_hit == old(self).last_hit,
            final(self).check_before_hit == old(self).check_before_hit,
            final(self).settle == old(self).settle,
    {
        if self.attempt < u32::MAX {
            self.attempt = self.attempt + 1;
        }
        let ghost v = list_view(tasks@);
        let mut error = String::new();
        let mut i: usize = 0;
        assert(v.take(0) =~= Seq::empty());
        while i < tasks.len()
            invariant
                i <= tasks@.len(),
                v == list_view(tasks@),
                error@ == last_fault(v.take(i as int)),
            decreases tasks@.len() - i,
        {
            assert(v.take(i + 1).drop_last() =~= v.take(i as int));
            assert(v.take(i + 1).last() == tasks@[i as int]@);
            let (failed, text) = check_task_error(&tasks[i]);
            if failed && !text.as_str().is_empty() {
                error = text;
            }
            i += 1;
        }
        assert(v.take(i as int) =~= v);
        self.task_error = error;
    }

    /// Takes in the conversation, or the failure to get it, and tells what is done next.
    pub fn answer(&mut self, conversation: Result<Json, EngineError>) -> (r: PollStep)
        ensures
            final(self).attempt == old(self).attempt,
            final(self).task_error == old(self).task_error,
            final(self).check_before_hit == old(self).check_before_hit,
            final(self).settle == old(self).settle,
            match conversation {
                Err(e) => {
                    &&& final(self).file_ids == old(self).file_ids
                    &&& final(self).sediment_ids == old(self).sediment_ids
                    &&& final(self).last_hit == old(self).last_hit
                    &&& if e is Upstream && is_busy(e->Upstream_0.status_code) {
                        r matches PollStep::Backoff(n) && n == (match e->Upstream_0.retry_after {
                            Some(secs) => secs,
                            None => backoff_secs(old(self).attempt),
                        })
                    } else {
                        r matches PollStep::Fail(x) && x == e
                    }
                },
                Ok(data) => {
                    let records = tool_records(data@);
                    let f = gathered_files(views(old(self).file_ids@), records);
                    let s = gathered_sediments(views(old(self).sediment_ids@), records);
                    let refusal = first_refusal(nodes_of(data@));
                    &&& views(final(self).file_ids@) == f
                    &&& views(final(self).sediment_ids@) == s
                    &&& if f.len() == 0 && s.len() == 0 {
                        &&& final(self).last_hit == old(self).last_hit
                        &&& if refusal.len() > 0 {
                            r matches PollStep::Fail(EngineError::ImageContentPolicy(m)) && m@
                                == refusal
                        } else {
                            r is Wait
                        }
                    } else if !old(self).check_before_hit || hit_view(old(self).last_hit) == Some(
                        (f, s),
                    ) {
                        &&& r is Done
                        &&& final(self).last_hit == old(self).last_hit
                    } else {
                        &&& hit_view(final(self).last_hit) == Some((f, s))
                        &&& if old(self).settle {
                            r is Settle
                        } else {
                            r is Done
                        }
                    }
                },
            },
            r is Done || r is Settle ==> final(self).file_ids@.len() > 0
                || final(self).sediment_ids@.len() > 0,
            r is Wait ==> final(self).file_ids@.len() == 0 && final(self).sediment_ids@.len() == 0,
            conversation matches Ok(data) ==> forall|k: int, id: Seq<char>|
                0 <= k < tool_records(data@).len() && (
                #[trigger] tool_records(data@)[k].file_ids.contains(id)) ==> views(
                    final(self).file_ids@,
                ).contains(id),
            conversation matches Ok(data) ==> forall|k: int, id: Seq<char>|
                0 <= k < tool_records(data@).len() && (
                #[trigger] tool_records(data@)[k].sediment_ids.contains(id)) ==> views(
                    final(self).sediment_ids@,
                ).contains(id),
    {
        let data = match conversation {
            Ok(d) => d,
            Err(e) => {
                match &e {
                    EngineError::Upstream(u) => {
                        let c = u.status_code;
                        if c == 429 || c == 500 || c == 502 || c == 503 || c == 504 {
                            let secs: u64 = match u.retry_after {
                                Some(s) => s,
                                None => {
                                    if self.attempt == 0 {
                                        1
                                    } else if self.attempt == 1 {
                                        2
                                    } else if self.attempt == 2 {
                                        4
                                    } else if self.attempt == 3 {
                                        8
                                    } else {
                                        16
                                    }
                                },
                            };
                            return PollStep::Backoff(secs);
                        }
                    },
                    _ => {},
                }
                return PollStep::Fail(e);
            },
        };
        let records = extract_image_tool_records(&data);
        let ghost rv = records_view(records@);
        let ghost f0 = views(self.file_ids@);
        let ghost s0 = views(self.sediment_ids@);
        let mut i: usize = 0;
        assert(rv.take(0) =~= Seq::empty());
        while i < records.len()
            invariant
                i <= records@.len(),
                rv == records_view(records@),
                views(self.file_ids@) == gathered_files(f0, rv.take(i as int)),
                views(self.sediment_ids@) == gathered_sediments(s0, rv.take(i as int)),
                self.attempt == old(self).attempt,
                self.task_error == old(self).task_error,
                self.check_before_hit == old(self).check_before_hit,
                self.settle == old(self).settle,
                self.last_hit == old(self).last_hit,
            decreases records@.len() - i,
        {
            assert(rv.take(i + 1).drop_last() =~= rv.take(i as int));
            assert(rv.take(i + 1).last() == records@[i as int]@);
            add_new(&mut self.file_ids, &records[i].file_ids);
            add_new(&mut self.sediment_ids, &records[i].sediment_ids);
            i += 1;
        }
        assert(rv.take(i as int) =~= rv);
        proof {
            assert forall|k: int, id: Seq<char>|
                0 <= k < rv.len() && (#[trigger] rv[k].file_ids.contains(id)) implies views(
                self.file_ids@,
            ).contains(id) by {
                crate::picture_laws::law_gathered_ids(f0, rv, id);
            }
            assert forall|k: int, id: Seq<char>|
                0 <= k < rv.len() && (#[trigger] rv[k].sediment_ids.contains(id)) implies views(
                self.sediment_ids@,
            ).contains(id) by {
                crate::picture_laws::law_gathered_ids(s0, rv, id);
            }
        }
        assert(views(self.file_ids@).len() == self.file_ids@.len());
        assert(views(self.sediment_ids@).len() == self.sediment_ids@.len());
        if self.file_ids.len() == 0 && self.sediment_ids.len() == 0 {
            let refusal = find_content_policy_error_in_conversation(&data);
            if !refusal.as_str().is_empty() {
                return PollStep::Fail(EngineError::ImageContentPolicy(refusal));
            }
            return PollStep::Wait;
        }
        if !self.check_before_hit {
            return PollStep::Done;
        }
        let seen = match &self.last_hit {
            Some((f, s)) => same_texts(f, &self.file_ids) && same_texts(s, &self.sediment_ids),
            None => false,
        };
        if seen {
            return PollStep::Done;
        }
        self.last_hit = Some(
            (crate::text::copy_texts(&self.file_ids), crate::text::copy_texts(&self.sediment_ids)),
        );
        if self.settle {
            PollStep::Settle
        } else {
            PollStep::Done
        }
    }

    /// What is said when the time is up; `timeout` is the time in seconds.
    pub fn timed_out(&self, conversation_id: &str, timeout: &str) -> (r: EngineError)
        ensures
            r matches EngineError::ImagePollTimeout { message, conversation_id: id, task_error }
                && message@ == "ChatGPT 生图超时（已等待 "@ + timeout@
                + " 秒）。当前超时阈值可在 config.json 中调大 image_poll_timeout_secs，也可能是账号被限流或生图队列拥堵导致。"@
                && id@ == conversation_id@ && crate::archive::opt_text_view(task_error) == (
            if self.task_error@.len() == 0 {
                None
            } else {
                Some(self.task_error@)
            }),
    {
        EngineError::ImagePollTimeout {
            message: cat3(
                "ChatGPT 生图超时（已等待 ",
                timeout,
                " 秒）。当前超时阈值可在 config.json 中调大 image_poll_timeout_secs，也可能是账号被限流或生图队列拥堵导致。",
            ),
            conversation_id: conversation_id.to_owned(),
            task_error: if self.task_error.as_str().is_empty() {
                None
            } else {
                Some(self.task_error.clone())
            },
        }
    }
}

// ---------------------------------------------------------------------------
// where images are
// ---------------------------------------------------------------------------

/// Whether an id is that of a file, and not what stands for one that is uploaded.
pub open spec fn real_file() -> spec_fn(Seq<char>) -> bool {
    |id: Seq<char>| id != "file_upload"@
}

/// Leaves out what stands for a file that is uploaded.
pub fn real_files(file_ids: &Vec<String>) -> (r: Vec<String>)
    ensures
        views(r@) == views(file_ids@).filter(real_file()),
{
    let ghost v = views(file_ids@);
    let ghost keep = real_file();
    let mut out: Vec<String> = Vec::new();
    let mut i: usize = 0;
    proof {
        reveal(Seq::filter);
        assert(views(out@) =~= v.take(0).filter(keep));
    }
    while i < file_ids.len()
        invariant
            i <= file_ids@.len(),
            v == views(file_ids@),
            keep == real_file(),
            views(out@) == v.take(i as int).filter(keep),
        decreases file_ids@.len() - i,
    {
        let ghost done = views(out@);
        assert(v.take(i + 1).drop_last() =~= v.take(i as int));
        assert(v.take(i + 1).filter(keep) == if keep(v[i as int]) {
            done.push(v[i as int])
        } else {
            done
        }) by {
            reveal(Seq::filter);
        }
        if !same(file_ids[i].as_str(), "file_upload") {
            out.push(file_ids[i].clone());
            assert(views(out@) =~= done.push(v[i as int]));
        }
        i += 1;
    }
    assert(v.take(i as int) =~= v);
    out
}

/// Whether the images of a conversation are waited for: where that is asked, there is a
/// conversation, and the ids that are there are not to be taken as they are.
pub fn must_poll(
    poll: bool,
    conversation_id: &str,
    have_ids: bool,
    check_before_hit: bool,
    settle: bool,
) -> (r: bool)
    ensures
        r == (poll && conversation_id@.len() > 0 && !(have_ids && !check_before_hit && !settle)),
{
    poll && !conversation_id.is_empty() && !(have_ids && !check_before_hit && !settle)
}

/// Settles the ids after a wait: those that were there with those that came. A failure counts
/// only where none were there.
pub fn finish_poll(
    file_ids: Vec<String>,
    sediment_ids: Vec<String>,
    outcome: Result<(Vec<String>, Vec<String>), EngineError>,
    conversation_id: &str,
) -> (r: Result<(Vec<String>, Vec<String>), EngineError>)
    ensures
        ({
            let have = file_ids@.len() > 0 || sediment_ids@.len() > 0;
            match outcome {
                Ok(ids) => r is Ok && views(r->Ok_0.0@) == with_unique(
                    views(file_ids@),
                    views(ids.0@),
                ) && views(r->Ok_0.1@) == with_unique(views(sediment_ids@), views(ids.1@)),
                Err(e) => if have {
                    r is Ok && r->Ok_0.0 == file_ids && r->Ok_0.1 == sediment_ids
                } else {
                    match e {
                        EngineError::ImagePollTimeout { task_error: Some(t), .. } => r matches Err(
                            EngineError::ImageContentPolicy(m),
                        ) && m == t,
                        EngineError::ImagePollTimeout { task_error: None, .. } => r matches Err(
                            EngineError::ImagePollTimeout {
                                message,
                                conversation_id: id,
                                task_error: None,
                            },
                        ) && message@ == "image poll timeout"@ && id@ == conversation_id@,
                        other => r matches Err(x) && x == other,
                    }
                },
            }
        }),
        file_ids@.len() > 0 || sediment_ids@.len() > 0 || outcome is Ok <==> r is Ok,
        r matches Ok(ids) ==> forall|id: Seq<char>|
            views(file_ids@).contains(id) ==> #[trigger] views(ids.0@).contains(id),
        r matches Ok(ids) ==> forall|id: Seq<char>|
            views(sediment_ids@).contains(id) ==> #[trigger] views(ids.1@).contains(id),
        r matches Ok(ids) ==> (outcome matches Ok(found) ==> forall|id: Seq<char>|
            id.len() > 0 && views(found.0@).contains(id) ==> #[trigger] views(ids.0@).contains(id)),
        r matches Ok(ids) ==> (outcome matches Ok(found) ==> forall|id: Seq<char>|
            id.len() > 0 && views(found.1@).contains(id) ==> #[trigger] views(ids.1@).contains(id)),
{
    proof {
        if outcome is Ok {
            let found = outcome->Ok_0;
            let a = views(file_ids@);
            let b = views(sediment_ids@);
            let f = views(found.0@);
            let s = views(found.1@);
            assert forall|id: Seq<char>| #[trigger]
                with_unique(a, f).contains(id) <==> a.contains(id) || (id.len() > 0 && f.contains(id)) by {
                crate::picture_laws::lemma_unique_from(a, f, id);
            }
            assert forall|id: Seq<char>| #[trigger]
                with_unique(b, s).contains(id) <==> b.contains(id) || (id.len() > 0 && s.contains(id)) by {
                crate::picture_laws::lemma_unique_from(b, s, id);
            }
        }
    }
    let have = file_ids.len() > 0 || sediment_ids.len() > 0;
    match outcome {
        Ok((f, s)) => {
            let mut file_ids = file_ids;
            let mut sediment_ids = sediment_ids;
            add_unique(&mut file_ids, &f);
            add_unique(&mut sediment_ids, &s);
            Ok((file_ids, sediment_ids))
        },
        Err(e) => {
            if have {
                return Ok((file_ids, sediment_ids));
            }
            match e {
                EngineError::ImagePollTimeout { task_error, message, conversation_id: id } => {
                    match task_error {
                        Some(t) => Err(EngineError::ImageContentPolicy(t)),
                        None => Err(
                            EngineError::ImagePollTimeout {
                                message: "image poll timeout".to_owned(),
                                conversation_id: conversation_id.to_owned(),
                                task_error: None,
                            },
                        ),
                    }
                },
                other => Err(other),
            }
        },
    }
}

/// Where the address of a file is asked for.
pub fn file_download_path(file_id: &str) -> (r: String)
    ensures
        r@ == "/backend-api/files/"@ + file_id@ + "/download"@,
{
    cat3("/backend-api/files/", file_id, "/download")
}

/// Where the address of an attachment of a conversation is asked for.
pub fn attachment_download_path(conversation_id: &str, attachment_id: &str) -> (r: String)
    ensures
        r@ == "/backend-api/conversation/"@ + conversation_id@ + "/attachment/"@ + attachment_id@
            + "/download"@,
{
    let mut s = cat3("/backend-api/conversation/", conversation_id, "/attachment/");
    s.append(attachment_id);
    s.append("/download");
    s
}

/// The address in an answer; empty where there is none.
pub open spec fn download_address(data: JsonView) -> Seq<char> {
    match data.get("download_url"@) {
        Some(JsonView::Str(s)) => s,
        Some(_) => Seq::empty(),
        None => data.str_at("url"@),
    }
}

/// Reads the address in an answer.
pub fn read_download_url(data: &Json) -> (r: String)
    ensures
        r@ == download_address(data@),
{
    match data.get("download_url") {
        Some(Json::Str(s)) => s.clone(),
        Some(_) => String::new(),
        None => data.str_at("url"),
    }
}

/// The paths under which the addresses of images are asked for: those of the files, and where
/// there is a conversation those of its sediments.
pub open spec fn download_paths(
    conversation_id: Seq<char>,
    file_ids: Seq<Seq<char>>,
    sediment_ids: Seq<Seq<char>>,
) -> Seq<Seq<char>> {
    let files = file_ids.filter(real_file()).map_values(
        |id: Seq<char>| "/backend-api/files/"@ + id + "/download"@,
    );
    if conversation_id.len() == 0 {
        files
    } else {
        files + sediment_ids.map_values(
            |id: Seq<char>|
                "/backend-api/conversation/"@ + conversation_id + "/attachment/"@ + id
                    + "/download"@,
        )
    }
}

/// Lists the paths under which the addresses of images are asked for.
pub fn image_download_paths(
    conversation_id: &str,
    file_ids: &Vec<String>,
    sediment_ids: &Vec<String>,
) -> (r: Vec<String>)
    ensures
        views(r@) == download_paths(conversation_id@, views(file_ids@), views(sediment_ids@)),
{
    let files = real_files(file_ids);
    let ghost fv = views(files@);
    let ghost want = fv.map_values(|id: Seq<char>| "/backend-api/files/"@ + id + "/download"@);
    let mut out: Vec<String> = Vec::new();
    let mut i: usize = 0;
    while i < files.len()
        invariant
            i <= files@.len(),
            fv == views(files@),
            want == fv.map_values(|id: Seq<char>| "/backend-api/files/"@ + id + "/download"@),
            views(out@) =~= want.take(i as int),
        decreases files@.len() - i,
    {
        let ghost done = views(out@);
        let p = file_download_path(files[i].as_str());
        assert(p@ == want[i as int]);
        let ghost pv = p@;
        out.push(p);
        assert(views(out@) =~= done.push(pv));
        i += 1;
    }
    assert(views(out@) =~= want);
    if conversation_id.is_empty() {
        return out;
    }
    let ghost sv = views(sediment_ids@);
    let ghost more = sv.map_values(
        |id: Seq<char>|
            "/backend-api/conversation/"@ + conversation_id@ + "/attachment/"@ + id + "/download"@,
    );
    let mut k: usize = 0;
    assert(want + more.take(0) =~= want);
    while k < sediment_ids.len()
        invariant
            k <= sediment_ids@.len(),
            sv == views(sediment_ids@),
            more == sv.map_values(
                |id: Seq<char>|
                    "/backend-api/conversation/"@ + conversation_id@ + "/attachment/"@ + id
                        + "/download"@,
            ),
            views(out@) == want + more.take(k as int),
        decreases sediment_ids@.len() - k,
    {
        let ghost done = views(out@);
        let p = attachment_download_path(conversation_id, sediment_ids[k].as_str());
        assert(p@ == more[k as int]);
        let ghost pv = p@;
        out.push(p);
        assert(views(out@) =~= done.push(pv));
        assert(views(out@) =~= want + more.take(k + 1));
        k += 1;
    }
    assert(more.take(k as int) =~= more);
    out
}

/// The models of images.
pub open spec fn bytes_views(v: Seq<Vec<u8>>) -> Seq<Seq<u8>> {
    v.map_values(|b: Vec<u8>| b@)
}

fn same_bytes(a: &Vec<u8>, b: &Vec<u8>) -> (r: bool)
    ensures
        r == (a@ == b@),
{
    if a.len() != b.len() {
        return false;
    }
    let mut i: usize = 0;
    while i < a.len()
        invariant
            i <= a@.len(),
            a@.len() == b@.len(),
            forall|k: int| 0 <= k < i ==> a@[k] == b@[k],
        decreases a@.len() - i,
    {
        if a[i] != b[i] {
            return false;
        }
        i += 1;
    }
    assert(a@ =~= b@);
    true
}

/// Keeps an image that was downloaded, unless it is there already.
pub fn push_image(images: &mut Vec<Vec<u8>>, bytes: Vec<u8>)
    ensures
        bytes_views(final(images)@) == (if bytes_views(old(images)@).contains(bytes@) {
            bytes_views(old(images)@)
        } else {
            bytes_views(old(images)@).push(bytes@)
        }),
{
    let ghost had = bytes_views(images@);
    let mut i: usize = 0;
    while i < images.len()
        invariant
            i <= images@.len(),
            had == bytes_views(images@),
            images@ == old(images)@,
            forall|k: int| 0 <= k < i ==> (#[trigger] had[k]) != bytes@,
        decreases images@.len() - i,
    {
        assert(had[i as int] == images@[i as int]@);
        if same_bytes(&images[i], &bytes) {
            return;
        }
        i += 1;
    }
    let ghost b = bytes@;
    images.push(bytes);
    assert(bytes_views(images@) =~= had.push(b));
}

// ---------------------------------------------------------------------------
// laws
// ---------------------------------------------------------------------------

/// Adding ids to a list without repetitions gives one without repetitions, which begins with it.
pub proof fn law_added_ids_differ(s: Seq<Seq<char>>, more: Seq<Seq<char>>)
    requires
        s.no_duplicates(),
    ensures
        with_unique(s, more).no_duplicates(),
        s.len() <= with_unique(s, more).len(),
        with_unique(s, more).take(s.len() as int) == s,
        forall|i: int|
            0 <= i < more.len() && more[i].len() > 0 ==> with_unique(s, more).contains(
                #[trigger] more[i],
            ),
    decreases more.len(),
{
    if more.len() == 0 {
        assert(s.take(s.len() as int) =~= s);
    } else {
        let init = more.drop_last();
        law_added_ids_differ(s, init);
        let t = with_unique(s, init);
        let u = with_unique(s, more);
        assert forall|i: int, j: int| 0 <= i < j < u.len() implies u[i] != u[j] by {
            if j == t.len() {
                assert(t.contains(u[i]));
            }
        }
        assert(u.take(s.len() as int) =~= t.take(s.len() as int));
        assert forall|i: int| 0 <= i < more.len() && more[i].len() > 0 implies u.contains(
            #[trigger] more[i],
        ) by {
            if i < init.len() {
                assert(init[i] == more[i]);
                let j = t.index_of(more[i]);
                assert(u[j] == more[i]);
            } else if !t.contains(more.last()) {
                assert(u[u.len() - 1] == more[i]);
            }
        }
    }
}

proof fn lemma_with_new_grows(s: Seq<Seq<char>>, more: Seq<Seq<char>>)
    ensures
        s.len() <= with_new(s, more).len(),
        with_new(s, more).take(s.len() as int) == s,
    decreases more.len(),
{
    if more.len() == 0 {
        assert(s.take(s.len() as int) =~= s);
    } else {
        lemma_with_new_grows(s, more.drop_last());
        let t = with_new(s, more.drop_last());
        assert(with_new(s, more).take(s.len() as int) =~= t.take(s.len() as int));
    }
}

/// Ids that were found are not lost while more are looked for.
pub proof fn law_ids_are_not_lost(ids: Seq<Seq<char>>, records: Seq<RecordView>)
    ensures
        ids.len() <= gathered_files(ids, records).len(),
        gathered_files(ids, records).take(ids.len() as int) == ids,
        ids.len() <= gathered_sediments(ids, records).len(),
        gathered_sediments(ids, records).take(ids.len() as int) == ids,
    decreases records.len(),
{
    if records.len() == 0 {
        assert(ids.take(ids.len() as int) =~= ids);
    } else {
        let init = records.drop_last();
        law_ids_are_not_lost(ids, init);
        let f = gathered_files(ids, init);
        let s = gathered_sediments(ids, init);
        lemma_with_new_grows(f, records.last().file_ids);
        lemma_with_new_grows(s, records.last().sediment_ids);
        let g = gathered_files(ids, records);
        let t = gathered_sediments(ids, records);
        assert(g.take(ids.len() as int) =~= g.take(f.len() as int).take(ids.len() as int));
        assert(t.take(ids.len() as int) =~= t.take(s.len() as int).take(ids.len() as int));
    }
}

} // verus!
