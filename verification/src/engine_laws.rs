//! What is sent upstream in answer to a request, and what is read of the answers.
use vstd::prelude::*;

use crate::codex::{answer_events, codex_request, events_after, image_part, source_of};
use crate::engine::{
    base_headers, challenge_of, client_trait, conversation_header_list, conversation_request,
    converted, image_quota, message_text, model_entries, model_entry, model_slugs, part_text,
    puzzle_of, user_info, ChatRequirements, Fingerprint,
};
use crate::json::parsed;
use crate::lists::lemma_sorted_has;
use crate::sorting::{field_order, sorted};
use crate::text::{begins, joined, occurs, skip_front, trimmed, unicode_lower, CharClass};
use crate::value::{int_json, JsonView};
use vstd::utf8::encode_utf8;

verus! {

// ---------------------------------------------------------------------------
// images by the responses endpoint
// ---------------------------------------------------------------------------

/// The request for an image holds the prompt, and behind it every image that was given, in order.
/// It asks for an edit where there are images, and for a new image where there are none, in the
/// size and the quality that were asked for.
pub proof fn law_codex_request_carries_all(
    prompt: Seq<char>,
    images: Seq<Seq<char>>,
    size: Seq<char>,
    quality: Seq<char>,
)
    ensures
        ({
            let q = codex_request(prompt, images, size, quality);
            let input = q.items_at("input"@);
            let content = input[0].items_at("content"@);
            let tools = q.items_at("tools"@);
            &&& q.str_at("model"@) == "gpt-5.5"@
            &&& q.get("store"@) == Some(JsonView::Bool(false))
            &&& q.get("stream"@) == Some(JsonView::Bool(true))
            &&& q.at("tool_choice"@).str_at("type"@) == "image_generation"@
            &&& input.len() == 1
            &&& input[0].str_at("role"@) == "user"@
            &&& content.len() == 1 + images.len()
            &&& content[0].str_at("type"@) == "input_text"@
            &&& content[0].str_at("text"@) == prompt
            &&& forall|i: int|
                0 <= i < images.len() ==> {
                    &&& (#[trigger] content[i + 1]).str_at("type"@) == "input_image"@
                    &&& content[i + 1].str_at("image_url"@) == (if begins(
                        images[i],
                        "data:image/"@,
                    ) {
                        images[i]
                    } else {
                        "data:image/png;base64,"@ + images[i]
                    })
                }
            &&& tools.len() == 1
            &&& tools[0].str_at("type"@) == "image_generation"@
            &&& tools[0].str_at("model"@) == "gpt-image-2"@
            &&& tools[0].str_at("action"@) == (if images.len() > 0 {
                "edit"@
            } else {
                "generate"@
            })
            &&& tools[0].str_at("size"@) == size
            &&& quality.len() > 0 ==> tools[0].str_at("quality"@) == quality
            &&& quality.len() == 0 ==> tools[0].str_at("quality"@) == "auto"@
            &&& tools[0].str_at("output_format"@) == "png"@
        }),
{
    broadcast use crate::value::group_fields;

    reveal_strlit("model");
    reveal_strlit("instructions");
    reveal_strlit("store");
    reveal_strlit("input");
    reveal_strlit("tools");
    reveal_strlit("tool_choice");
    reveal_strlit("stream");
    reveal_strlit("role");
    reveal_strlit("content");
    reveal_strlit("type");
    reveal_strlit("text");
    reveal_strlit("image_url");
    reveal_strlit("action");
    reveal_strlit("size");
    reveal_strlit("quality");
    reveal_strlit("output_format");
    assert("model"@.len() == 5 && "model"@[0] == 'm');
    assert("instructions"@.len() == 12);
    assert("store"@.len() == 5 && "store"@[0] == 's');
    assert("input"@.len() == 5 && "input"@[0] == 'i');
    assert("tools"@.len() == 5 && "tools"@[0] == 't');
    assert("tool_choice"@.len() == 11);
    assert("stream"@.len() == 6 && "stream"@[0] == 's');
    assert("role"@.len() == 4 && "role"@[0] == 'r');
    assert("content"@.len() == 7 && "content"@[0] == 'c');
    assert("type"@.len() == 4 && "type"@[0] == 't' && "type"@[1] == 'y');
    assert("text"@.len() == 4 && "text"@[0] == 't' && "text"@[1] == 'e');
    assert("image_url"@.len() == 9);
    assert("action"@.len() == 6 && "action"@[0] == 'a');
    assert("size"@.len() == 4 && "size"@[0] == 's');
    assert("quality"@.len() == 7 && "quality"@[0] == 'q');
    assert("output_format"@.len() == 13);
    let content = codex_request(prompt, images, size, quality).items_at("input"@)[0].items_at(
        "content"@,
    );
    assert forall|i: int| 0 <= i < images.len() implies #[trigger] content[i + 1] == image_part(
        images[i],
    ) by {}
}

/// An account is for this endpoint exactly where it says so, whatever the case and the white space
/// around the word.
pub proof fn law_codex_account(account: JsonView, s: Seq<char>)
    ensures
        account.get("source_type"@) == Some(JsonView::Str(s)) ==> (source_of(account) == "codex"@
            <==> unicode_lower(trimmed(s)) == "codex"@),
        !(account.at("source_type"@) is Str) ==> source_of(account) != "codex"@,
{
    reveal_strlit("web");
    reveal_strlit("codex");
    assert("web"@.len() == 3);
    assert("codex"@.len() == 5);
    crate::text::lemma_strip_len("web"@, CharClass::White);
    assert(crate::text::is_ascii(trimmed("web"@)) ==> unicode_lower(trimmed("web"@)).len() <= 3);
    lemma_web_is_ascii();
}

proof fn lemma_web_is_ascii()
    ensures
        crate::text::is_ascii(trimmed("web"@)),
        trimmed("web"@).len() <= 3,
{
    reveal_strlit("web");
    let w = "web"@;
    crate::text::lemma_strip_len(w, CharClass::White);
    assert(!CharClass::White.has(w[0]) && !CharClass::White.has(w[2]));
    assert(trimmed(w) =~= w);
}

/// A block of one data line and an empty one is one event: the object behind `data:`. Neither an
/// end mark nor anything that is not an object is one.
pub proof fn law_data_line_is_an_event(lines: Seq<Seq<char>>, line: Seq<char>)
    requires
        events_after(lines).0.len() == 0,
        begins(line, "data:"@),
    ensures
        ({
            let text = trimmed(skip_front(line.skip(5), CharClass::White));
            let before = events_after(lines).1;
            let after = events_after(lines.push(line).push(Seq::empty()));
            &&& after.0.len() == 0
            &&& forall|v: JsonView|
                text.len() > 0 && text != "[DONE]"@ && #[trigger] parsed(encode_utf8(text)) == Some(
                    v,
                ) && v is Obj ==> after.1 == before.push(v)
            &&& text.len() == 0 || text == "[DONE]"@ || parsed(encode_utf8(text)) is None
                ==> after.1 == before
        }),
{
    let rest = skip_front(line.skip(5), CharClass::White);
    let a = lines.push(line);
    let b = a.push(Seq::empty());
    assert(a.drop_last() =~= lines);
    assert(b.drop_last() =~= a);
    reveal_strlit("data:");
    assert("data:"@.len() == 5);
    assert(line.len() > 0) by {
        if line.len() == 0 {
            assert(!begins(line, "data:"@));
        }
    }
    assert(events_after(lines).0 =~= Seq::empty());
    assert(events_after(a).0 =~= seq![rest]);
    assert(joined(seq![rest], "\n"@) == rest);
    let before = events_after(lines).1;
    assert(before + Seq::<JsonView>::empty() =~= before);
    assert forall|v: JsonView|
        trimmed(rest).len() > 0 && trimmed(rest) != "[DONE]"@ && #[trigger] parsed(
            encode_utf8(trimmed(rest)),
        ) == Some(v) && v is Obj implies events_after(b).1 == before.push(v) by {
        assert(before + seq![v] =~= before.push(v));
    }
}

/// An answer in plain JSON is one event.
pub proof fn law_plain_answer_is_an_event(content_type: Seq<char>, text: Seq<char>, v: JsonView)
    requires
        occurs(content_type, "application/json"@),
    ensures
        parsed(encode_utf8(text)) == Some(v) && v is Obj ==> answer_events(content_type, text)
            == seq![v],
        parsed(encode_utf8(text)) is None ==> answer_events(content_type, text) == Seq::<
            JsonView,
        >::empty(),
{
}

// ---------------------------------------------------------------------------
// conversations
// ---------------------------------------------------------------------------

/// A conversation has a message for each that was asked for, in order: with its own id, the role
/// that it names, `user` where it names none, and its text. There is no conversation exactly where
/// the content of some message is neither a text nor a list.
pub proof fn law_conversation_keeps_messages(messages: Seq<JsonView>, ids: Seq<Seq<char>>)
    ensures
        converted(messages, ids) is None <==> exists|i: int|
            0 <= i < messages.len() && !((#[trigger] messages[i]).at("content"@) is Str)
                && !(messages[i].at("content"@) is Arr),
        converted(messages, ids) matches Some(out) ==> {
            &&& out.len() == messages.len()
            &&& forall|i: int|
                0 <= i < out.len() ==> {
                    &&& (#[trigger] out[i]).str_at("id"@) == ids[i]
                    &&& out[i].at("author"@).get("role"@) == Some(
                        match messages[i].get("role"@) {
                            Some(JsonView::Str(s)) => JsonView::Str(s),
                            _ => JsonView::Str("user"@),
                        },
                    )
                    &&& out[i].at("content"@).str_at("content_type"@) == "text"@
                    &&& out[i].at("content"@).items_at("parts"@).len() == 1
                    &&& messages[i].at("content"@) matches JsonView::Str(s) ==> out[i].at(
                        "content"@,
                    ).items_at("parts"@)[0] == JsonView::Str(s)
                }
        },
    decreases messages.len(),
{
    broadcast use crate::value::group_fields;

    if messages.len() > 0 {
        let init = messages.drop_last();
        law_conversation_keeps_messages(init, ids);
        let m = messages.last();
        assert(messages[messages.len() - 1] == m);
        reveal_strlit("id");
        reveal_strlit("author");
        reveal_strlit("content");
        reveal_strlit("role");
        reveal_strlit("content_type");
        reveal_strlit("parts");
        reveal_strlit("user");
        assert("id"@.len() == 2);
        assert("author"@.len() == 6);
        assert("content"@.len() == 7);
        assert("role"@.len() == 4 && "role"@[0] == 'r');
        assert("content_type"@.len() == 12);
        assert("parts"@.len() == 5);
        assert("user"@.len() == 4 && "user"@[0] == 'u');
        if converted(init, ids) is None {
            let i = choose|i: int|
                0 <= i < init.len() && !((#[trigger] init[i]).at("content"@) is Str) && !(init[i].at(
                    "content"@,
                ) is Arr);
            assert(messages[i] == init[i]);
        } else {
            assert forall|i: int| 0 <= i < init.len() implies (#[trigger] messages[i]).at(
                "content"@,
            ) is Str || messages[i].at("content"@) is Arr by {
                assert(init[i] == messages[i]);
            }
            match converted(messages, ids) {
                Some(out) => {
                    let done = converted(init, ids)->0;
                    assert forall|i: int| 0 <= i < done.len() implies #[trigger] out[i] == done[i]
                        && init[i] == messages[i] by {}
                },
                None => {
                    assert(!(messages[messages.len() - 1].at("content"@) is Str));
                },
            }
        }
    }
}

proof fn lemma_joined_more(parts: Seq<Seq<char>>, p: Seq<char>)
    ensures
        joined(parts.push(p), ""@) == joined(parts, ""@) + p,
{
    let all = parts.push(p);
    reveal_strlit("");
    assert(all.drop_last() =~= parts);
    if parts.len() == 0 {
        assert(joined(all, ""@) =~= p);
        assert(joined(parts, ""@) + p =~= p);
    } else {
        assert(joined(all, ""@) =~= joined(parts, ""@) + p);
    }
}

/// The text of a list of parts is that of its text parts, one behind the other; other parts add
/// nothing to it.
pub proof fn law_parts_are_read_in_order(m: JsonView, n: JsonView, parts: Seq<JsonView>, p: JsonView)
    requires
        m.get("content"@) == Some(JsonView::Arr(parts)),
        n.get("content"@) == Some(JsonView::Arr(parts.push(p))),
    ensures
        message_text(m) is Some,
        message_text(n) == Some(
            if p is Obj && p.str_at("type"@) == "text"@ {
                message_text(m)->0 + p.str_at("text"@)
            } else {
                message_text(m)->0
            },
        ),
        parts.len() == 0 ==> message_text(m) == Some(Seq::<char>::empty()),
{
    let f = part_text();
    let all = parts.push(p);
    assert(all.drop_last() =~= parts);
    let a = parts.filter_map(f);
    lemma_joined_more(a, p.str_at("text"@));
    assert(all.filter_map(f) =~= match f(p) {
        Some(t) => a.push(t),
        None => a,
    });
}

/// The request of a conversation carries its messages, the model and the place behind which it
/// goes on, and leaves no trace in the history.
pub proof fn law_conversation_request_carries_all(
    messages: Seq<JsonView>,
    model: Seq<char>,
    timezone: Seq<char>,
    parent: Seq<char>,
    request: Seq<char>,
)
    ensures
        ({
            let q = conversation_request(messages, model, timezone, parent, request);
            &&& q.str_at("action"@) == "next"@
            &&& q.items_at("messages"@) == messages
            &&& q.str_at("model"@) == model
            &&& q.str_at("parent_message_id"@) == parent
            &&& q.str_at("timezone"@) == timezone
            &&& q.str_at("websocket_request_id"@) == request
            &&& q.get("history_and_training_disabled"@) == Some(JsonView::Bool(true))
            &&& q.get("force_use_sse"@) == Some(JsonView::Bool(true))
            &&& q.at("conversation_mode"@).str_at("kind"@) == "primary_assistant"@
        }),
{
    broadcast use crate::value::group_fields;

    reveal_strlit("action");
    reveal_strlit("messages");
    reveal_strlit("model");
    reveal_strlit("parent_message_id");
    reveal_strlit("conversation_mode");
    reveal_strlit("conversation_origin");
    reveal_strlit("force_paragen");
    reveal_strlit("force_paragen_model_slug");
    reveal_strlit("force_rate_limit");
    reveal_strlit("force_use_sse");
    reveal_strlit("history_and_training_disabled");
    reveal_strlit("reset_rate_limits");
    reveal_strlit("suggestions");
    reveal_strlit("supported_encodings");
    reveal_strlit("system_hints");
    reveal_strlit("timezone");
    reveal_strlit("timezone_offset_min");
    reveal_strlit("variant_purpose");
    reveal_strlit("websocket_request_id");
    reveal_strlit("client_contextual_info");
    reveal_strlit("kind");
    assert("action"@.len() == 6);
    assert("messages"@.len() == 8 && "messages"@[0] == 'm');
    assert("model"@.len() == 5);
    assert("parent_message_id"@.len() == 17 && "parent_message_id"@[0] == 'p');
    assert("conversation_mode"@.len() == 17 && "conversation_mode"@[0] == 'c');
    assert("conversation_origin"@.len() == 19 && "conversation_origin"@[0] == 'c');
    assert("force_paragen"@.len() == 13 && "force_paragen"@[6] == 'p');
    assert("force_paragen_model_slug"@.len() == 24);
    assert("force_rate_limit"@.len() == 16);
    assert("force_use_sse"@.len() == 13 && "force_use_sse"@[6] == 'u');
    assert("history_and_training_disabled"@.len() == 29);
    assert("reset_rate_limits"@.len() == 17 && "reset_rate_limits"@[0] == 'r');
    assert("suggestions"@.len() == 11);
    assert("supported_encodings"@.len() == 19 && "supported_encodings"@[0] == 's');
    assert("system_hints"@.len() == 12);
    assert("timezone"@.len() == 8 && "timezone"@[0] == 't');
    assert("timezone_offset_min"@.len() == 19 && "timezone_offset_min"@[0] == 't');
    assert("variant_purpose"@.len() == 15);
    assert("websocket_request_id"@.len() == 20);
    assert("client_contextual_info"@.len() == 22);
    assert("kind"@.len() == 4);
}

// ---------------------------------------------------------------------------
// who asks
// ---------------------------------------------------------------------------

/// Requests go out in the name of the access token; without one they name nobody. They show the
/// browser and the device of the account.
pub proof fn law_requests_name_the_account(fp: Fingerprint, base: Seq<char>, token: Seq<char>)
    ensures
        ({
            let h = base_headers(fp, base, token);
            &&& token.len() > 0 ==> h.contains(("Authorization"@, "Bearer "@ + token))
            &&& token.len() == 0 ==> forall|i: int|
                0 <= i < h.len() ==> (#[trigger] h[i]).0 != "Authorization"@
            &&& h.contains(("User-Agent"@, fp.user_agent@))
            &&& h.contains(("OAI-Device-Id"@, fp.device_id@))
            &&& h.contains(("OAI-Session-Id"@, fp.session_id@))
            &&& h.contains(("Sec-Ch-Ua"@, fp.sec_ch_ua@))
            &&& h.contains(("Sec-Ch-Ua-Mobile"@, fp.sec_ch_ua_mobile@))
            &&& h.contains(("Sec-Ch-Ua-Platform"@, fp.sec_ch_ua_platform@))
            &&& h.contains(("Origin"@, base))
            &&& h.contains(("Referer"@, base + "/"@))
        }),
{
    let h = base_headers(fp, base, token);
    reveal_strlit("Authorization");
    reveal_strlit("User-Agent");
    reveal_strlit("Origin");
    reveal_strlit("Referer");
    reveal_strlit("Accept-Language");
    reveal_strlit("Cache-Control");
    reveal_strlit("Pragma");
    reveal_strlit("Priority");
    reveal_strlit("Sec-Ch-Ua");
    reveal_strlit("Sec-Ch-Ua-Arch");
    reveal_strlit("Sec-Ch-Ua-Bitness");
    reveal_strlit("Sec-Ch-Ua-Full-Version");
    reveal_strlit("Sec-Ch-Ua-Full-Version-List");
    reveal_strlit("Sec-Ch-Ua-Mobile");
    reveal_strlit("Sec-Ch-Ua-Model");
    reveal_strlit("Sec-Ch-Ua-Platform");
    reveal_strlit("Sec-Ch-Ua-Platform-Version");
    reveal_strlit("Sec-Fetch-Dest");
    reveal_strlit("Sec-Fetch-Mode");
    reveal_strlit("Sec-Fetch-Site");
    reveal_strlit("OAI-Device-Id");
    reveal_strlit("OAI-Session-Id");
    reveal_strlit("OAI-Language");
    reveal_strlit("OAI-Client-Version");
    reveal_strlit("OAI-Client-Build-Number");
    assert("Authorization"@.len() == 13 && "Authorization"@[0] == 'A');
    assert("User-Agent"@.len() == 10);
    assert("Origin"@.len() == 6 && "Origin"@[0] == 'O');
    assert("Referer"@.len() == 7);
    assert("Accept-Language"@.len() == 15 && "Accept-Language"@[0] == 'A');
    assert("Cache-Control"@.len() == 13 && "Cache-Control"@[0] == 'C');
    assert("Pragma"@.len() == 6 && "Pragma"@[0] == 'P');
    assert("Priority"@.len() == 8);
    assert("Sec-Ch-Ua"@.len() == 9);
    assert("Sec-Ch-Ua-Arch"@.len() == 14 && "Sec-Ch-Ua-Arch"@[0] == 'S' && "Sec-Ch-Ua-Arch"@[4] == 'C');
    assert("Sec-Ch-Ua-Bitness"@.len() == 17);
    assert("Sec-Ch-Ua-Full-Version"@.len() == 22);
    assert("Sec-Ch-Ua-Full-Version-List"@.len() == 27);
    assert("Sec-Ch-Ua-Mobile"@.len() == 16);
    assert("Sec-Ch-Ua-Model"@.len() == 15 && "Sec-Ch-Ua-Model"@[0] == 'S');
    assert("Sec-Ch-Ua-Platform"@.len() == 18 && "Sec-Ch-Ua-Platform"@[0] == 'S');
    assert("Sec-Ch-Ua-Platform-Version"@.len() == 26);
    assert("Sec-Fetch-Dest"@.len() == 14 && "Sec-Fetch-Dest"@[0] == 'S' && "Sec-Fetch-Dest"@[4] == 'F' && "Sec-Fetch-Dest"@[10] == 'D');
    assert("Sec-Fetch-Mode"@.len() == 14 && "Sec-Fetch-Mode"@[0] == 'S' && "Sec-Fetch-Mode"@[4] == 'F' && "Sec-Fetch-Mode"@[10] == 'M');
    assert("Sec-Fetch-Site"@.len() == 14 && "Sec-Fetch-Site"@[0] == 'S' && "Sec-Fetch-Site"@[4] == 'F' && "Sec-Fetch-Site"@[10] == 'S');
    assert("OAI-Device-Id"@.len() == 13 && "OAI-Device-Id"@[0] == 'O');
    assert("OAI-Session-Id"@.len() == 14 && "OAI-Session-Id"@[0] == 'O');
    assert("OAI-Language"@.len() == 12);
    assert("OAI-Client-Version"@.len() == 18 && "OAI-Client-Version"@[0] == 'O');
    assert("OAI-Client-Build-Number"@.len() == 23);
    assert(h[0] == ("User-Agent"@, fp.user_agent@));
    assert(h[1] == ("Origin"@, base));
    assert(h[2] == ("Referer"@, base + "/"@));
    assert(h[7] == ("Sec-Ch-Ua"@, fp.sec_ch_ua@));
    assert(h[12] == ("Sec-Ch-Ua-Mobile"@, fp.sec_ch_ua_mobile@));
    assert(h[14] == ("Sec-Ch-Ua-Platform"@, fp.sec_ch_ua_platform@));
    assert(h[19] == ("OAI-Device-Id"@, fp.device_id@));
    assert(h[20] == ("OAI-Session-Id"@, fp.session_id@));
    if token.len() > 0 {
        assert(h[24] == ("Authorization"@, "Bearer "@ + token));
    }
}

/// What an account says of its client itself comes first, without white space at its ends; then
/// what it says of its fingerprint.
pub proof fn law_client_of_account(account: JsonView, key: Seq<char>, s: Seq<char>)
    ensures
        account.get(key) == Some(JsonView::Str(s)) && trimmed(s).len() > 0 ==> client_trait(
            account,
            key,
        ) == Some(trimmed(s)),
        account.get(key) is None && account.get("fp"@) == Some(
            JsonView::Obj(seq![(key, JsonView::Str(s))]),
        ) && unicode_lower(key) == key ==> client_trait(account, key) == Some(s),
        account.get(key) is None && account.get("fp"@) is None ==> client_trait(account, key) is None,
{
    let e: Seq<char> = Seq::empty();
    crate::text::lemma_strip_len(e, CharClass::White);
    let o = seq![(key, JsonView::Str(s))];
    assert(o.last() == (key, JsonView::Str(s)));
}

/// Of the traits in an account's fingerprint the last of a name counts, however the name is
/// cased; one that is no text counts as it is written.
pub proof fn law_client_fingerprint(account: JsonView, o: Seq<(Seq<char>, JsonView)>, key: Seq<char>, i: int)
    requires
        account.get("fp"@) == Some(JsonView::Obj(o)),
        trimmed(account.str_at(key)).len() == 0,
        0 <= i < o.len(),
        unicode_lower(o[i].0) == key,
        forall|j: int| i < j < o.len() ==> unicode_lower((#[trigger] o[j]).0) != key,
    ensures
        o[i].1 matches JsonView::Str(s) ==> client_trait(account, key) == Some(s),
        !(o[i].1 is Str) ==> client_trait(account, key) == Some(crate::value::compact(o[i].1)),
{
    lemma_cased(o, key, i);
}

proof fn lemma_cased(o: Seq<(Seq<char>, JsonView)>, key: Seq<char>, i: int)
    requires
        0 <= i < o.len(),
        unicode_lower(o[i].0) == key,
        forall|j: int| i < j < o.len() ==> unicode_lower((#[trigger] o[j]).0) != key,
    ensures
        crate::engine::cased_field(o, key) == Some(
            match o[i].1 {
                JsonView::Str(s) => s,
                other => crate::value::compact(other),
            },
        ),
    decreases o.len(),
{
    if i < o.len() - 1 {
        assert(o.last() == o[o.len() - 1]);
        let init = o.drop_last();
        assert(init[i] == o[i]);
        assert forall|j: int| i < j < init.len() implies unicode_lower((#[trigger] init[j]).0) != key by {
            assert(init[j] == o[j]);
        }
        lemma_cased(init, key, i);
    }
}

/// A puzzle or a challenge has to be solved exactly where it is required.
pub proof fn law_required_proofs(data: JsonView)
    ensures
        puzzle_of(data) is Some <==> data.at("proofofwork"@).get("required"@) == Some(
            JsonView::Bool(true),
        ),
        puzzle_of(data) is Some ==> (puzzle_of(data)->0).0 == data.at("proofofwork"@).str_at("seed"@)
            && (puzzle_of(data)->0).1 == data.at("proofofwork"@).str_at("difficulty"@),
        challenge_of(data) is Some <==> data.at("turnstile"@).get("required"@) == Some(
            JsonView::Bool(true),
        ) && data.at("turnstile"@).str_at("dx"@).len() > 0,
        challenge_of(data) is Some ==> challenge_of(data)->0 == data.at("turnstile"@).str_at("dx"@),
{
}

/// The proofs that were made go with a conversation, and none that were not.
pub proof fn law_conversation_shows_proofs(q: ChatRequirements)
    ensures
        ({
            let h = conversation_header_list(q);
            &&& h.contains(("Accept"@, "text/event-stream"@))
            &&& h.contains(("OpenAI-Sentinel-Chat-Requirements-Token"@, q.token@))
            &&& q.proof_token@.len() > 0 ==> h.contains(
                ("OpenAI-Sentinel-Proof-Token"@, q.proof_token@),
            )
            &&& q.turnstile_token@.len() > 0 ==> h.contains(
                ("OpenAI-Sentinel-Turnstile-Token"@, q.turnstile_token@),
            )
            &&& q.so_token@.len() > 0 ==> h.contains(("OpenAI-Sentinel-SO-Token"@, q.so_token@))
        }),
{
    let h = conversation_header_list(q);
    assert(h[0] == ("Accept"@, "text/event-stream"@));
    assert(h[2] == ("OpenAI-Sentinel-Chat-Requirements-Token"@, q.token@));
    let n: int = if q.proof_token@.len() > 0 {
        1
    } else {
        0
    };
    let k: int = if q.turnstile_token@.len() > 0 {
        1
    } else {
        0
    };
    if q.proof_token@.len() > 0 {
        assert(h[3] == ("OpenAI-Sentinel-Proof-Token"@, q.proof_token@));
    }
    if q.turnstile_token@.len() > 0 {
        assert(h[3 + n] == ("OpenAI-Sentinel-Turnstile-Token"@, q.turnstile_token@));
    }
    if q.so_token@.len() > 0 {
        assert(h[3 + n + k] == ("OpenAI-Sentinel-SO-Token"@, q.so_token@));
    }
}

// ---------------------------------------------------------------------------
// models
// ---------------------------------------------------------------------------

proof fn lemma_entries(items: Seq<JsonView>)
    ensures
        model_entries(items).len() == model_slugs(items).len(),
        forall|k: int|
            0 <= k < model_entries(items).len() ==> (#[trigger] model_entries(items)[k]).str_at(
                "id"@,
            ) == model_slugs(items)[k],
        forall|i: int|
            0 <= i < items.len() && trimmed((#[trigger] items[i]).str_at("slug"@)).len() > 0
                ==> model_slugs(items).contains(trimmed(items[i].str_at("slug"@))),
        forall|k: int|
            0 <= k < model_entries(items).len() ==> exists|i: int|
                0 <= i < items.len() && #[trigger] model_entries(items)[k] == model_entry(
                    #[trigger] items[i],
                ),
    decreases items.len(),
{
    broadcast use crate::value::group_fields;

    if items.len() > 0 {
        let init = items.drop_last();
        lemma_entries(init);
        reveal_strlit("id");
        reveal_strlit("object");
        reveal_strlit("created");
        reveal_strlit("owned_by");
        reveal_strlit("permission");
        reveal_strlit("root");
        reveal_strlit("parent");
        reveal_strlit("slug");
        assert("id"@.len() == 2);
        assert("object"@.len() == 6 && "object"@[0] == 'o');
        assert("created"@.len() == 7);
        assert("owned_by"@.len() == 8);
        assert("permission"@.len() == 10);
        assert("root"@.len() == 4 && "root"@[0] == 'r');
        assert("parent"@.len() == 6 && "parent"@[0] == 'p');
        assert("slug"@.len() == 4 && "slug"@[0] == 's');
        let e = model_entries(items);
        let d = model_entries(init);
        let s = model_slugs(items);
        let r = model_slugs(init);
        assert forall|i: int|
            0 <= i < items.len() && trimmed((#[trigger] items[i]).str_at("slug"@)).len()
                > 0 implies s.contains(trimmed(items[i].str_at("slug"@))) by {
            let w = trimmed(items[i].str_at("slug"@));
            if i < init.len() {
                assert(init[i] == items[i]);
                let k = r.index_of(w);
                assert(s[k] == w);
            } else if r.contains(w) {
                let k = r.index_of(w);
                assert(s[k] == w);
            } else {
                assert(s[r.len() as int] == w);
            }
        }
        assert forall|k: int| 0 <= k < e.len() implies exists|i: int|
            0 <= i < items.len() && #[trigger] e[k] == model_entry(#[trigger] items[i]) by {
            if k < d.len() {
                assert(e[k] == d[k]);
                let i = choose|i: int|
                    0 <= i < init.len() && d[k] == model_entry(#[trigger] init[i]);
                assert(items[i] == init[i]);
            } else {
                assert(items[items.len() - 1] == items.last());
            }
        }
    }
}

/// Every model of the upstream is listed under its name, and nothing is listed that is not one:
/// each with its own time and owner.
pub proof fn law_models_are_listed(items: Seq<JsonView>, slug: Seq<char>)
    ensures
        (exists|k: int|
            0 <= k < sorted(model_entries(items), field_order("id"@, false)).len() && (
            #[trigger] sorted(model_entries(items), field_order("id"@, false))[k]).str_at("id"@)
                == slug) <==> slug.len() > 0 && exists|i: int|
            0 <= i < items.len() && trimmed((#[trigger] items[i]).str_at("slug"@)) == slug,
        forall|i: int|
            0 <= i < items.len() ==> {
                let e = model_entry(#[trigger] items[i]);
                &&& e.str_at("id"@) == trimmed(items[i].str_at("slug"@))
                &&& e.str_at("root"@) == trimmed(items[i].str_at("slug"@))
                &&& e.str_at("object"@) == "model"@
                &&& e.get("created"@) == Some(int_json(items[i].int_at("created"@, 0) as int))
                &&& e.str_at("owned_by"@) == (match items[i].get("owned_by"@) {
                    Some(JsonView::Str(s)) => s,
                    _ => "chatgpt"@,
                })
            },
{
    broadcast use crate::value::group_fields;

    lemma_entries(items);
    reveal_strlit("id");
    reveal_strlit("object");
    reveal_strlit("created");
    reveal_strlit("owned_by");
    reveal_strlit("permission");
    reveal_strlit("root");
    reveal_strlit("parent");
    reveal_strlit("slug");
    assert("id"@.len() == 2);
    assert("object"@.len() == 6 && "object"@[0] == 'o');
    assert("created"@.len() == 7);
    assert("owned_by"@.len() == 8);
    assert("permission"@.len() == 10);
    assert("root"@.len() == 4 && "root"@[0] == 'r');
    assert("parent"@.len() == 6 && "parent"@[0] == 'p');
    assert("slug"@.len() == 4 && "slug"@[0] == 's');
    let m = model_entries(items);
    let lt = field_order("id"@, false);
    let s = sorted(m, lt);
    if exists|k: int| 0 <= k < s.len() && (#[trigger] s[k]).str_at("id"@) == slug {
        let k = choose|k: int| 0 <= k < s.len() && (#[trigger] s[k]).str_at("id"@) == slug;
        lemma_sorted_has(m, lt, s[k]);
        assert(s.contains(s[k]));
        let j = m.index_of(s[k]);
        let i = choose|i: int| 0 <= i < items.len() && m[j] == model_entry(#[trigger] items[i]);
        assert(trimmed(items[i].str_at("slug"@)) == slug);
        lemma_slugs_filled(items);
        assert(model_slugs(items)[j] == slug);
    }
    if slug.len() > 0 && exists|i: int|
        0 <= i < items.len() && trimmed((#[trigger] items[i]).str_at("slug"@)) == slug {
        let i = choose|i: int|
            0 <= i < items.len() && trimmed((#[trigger] items[i]).str_at("slug"@)) == slug;
        let j = model_slugs(items).index_of(slug);
        lemma_sorted_has(m, lt, m[j]);
        assert(m.contains(m[j]));
        let k = s.index_of(m[j]);
        assert(s[k].str_at("id"@) == slug);
    }
}

proof fn lemma_slugs_filled(items: Seq<JsonView>)
    ensures
        forall|k: int|
            0 <= k < model_slugs(items).len() ==> (#[trigger] model_slugs(items)[k]).len() > 0,
    decreases items.len(),
{
    if items.len() > 0 {
        lemma_slugs_filled(items.drop_last());
        let r = model_slugs(items.drop_last());
        assert forall|k: int| 0 <= k < model_slugs(items).len() implies (
        #[trigger] model_slugs(items)[k]).len() > 0 by {
            if k < r.len() {
                assert(model_slugs(items)[k] == r[k]);
            }
        }
    }
}

// ---------------------------------------------------------------------------
// accounts
// ---------------------------------------------------------------------------

/// The quota for images is that of the first limit for them. It is unknown exactly where there is
/// none.
pub proof fn law_quota_of_first_limit(items: Seq<JsonView>, i: int)
    requires
        0 <= i <= items.len(),
        forall|j: int|
            0 <= j < i ==> (#[trigger] items[j]).get("feature_name"@) != Some(
                JsonView::Str("image_gen"@),
            ),
        i < items.len() ==> items[i].get("feature_name"@) == Some(JsonView::Str("image_gen"@)),
    ensures
        i < items.len() ==> {
            &&& image_quota(items).0 == items[i].int_at("remaining"@, 0)
            &&& !image_quota(items).2
            &&& items[i].str_at("reset_after"@).len() > 0 ==> image_quota(items).1 == Some(
                items[i].str_at("reset_after"@),
            )
            &&& items[i].str_at("reset_after"@).len() == 0 ==> image_quota(items).1 is None
        },
        i == items.len() ==> image_quota(items) == (0i64, None::<Seq<char>>, true),
    decreases items.len(),
{
    if i > 0 {
        let rest = items.drop_first();
        assert(items[0].get("feature_name"@) != Some(JsonView::Str("image_gen"@)));
        assert forall|j: int| 0 <= j < i - 1 implies (#[trigger] rest[j]).get("feature_name"@)
            != Some(JsonView::Str("image_gen"@)) by {
            assert(rest[j] == items[j + 1]);
        }
        if i < items.len() {
            assert(rest[i - 1] == items[i]);
        }
        law_quota_of_first_limit(rest, i - 1);
    }
}

/// An account whose quota for images is known is limited exactly where none of it is left,
/// whatever its plan. One whose quota is not known is limited exactly where its plan is the free
/// one. Its plan, its address, its quota and its limits are those of the answers.
pub proof fn law_user_info(me: JsonView, init: JsonView, account: JsonView, i: int)
    requires
        ({
            let items = init.items_at("limits_progress"@);
            &&& 0 <= i <= items.len()
            &&& forall|j: int|
                0 <= j < i ==> (#[trigger] items[j]).get("feature_name"@) != Some(
                    JsonView::Str("image_gen"@),
                )
            &&& i < items.len() ==> items[i].get("feature_name"@) == Some(
                JsonView::Str("image_gen"@),
            )
        }),
    ensures
        ({
            let items = init.items_at("limits_progress"@);
            let info = user_info(me, init, account);
            let plan = if account.str_at("plan_type"@).len() > 0 {
                account.str_at("plan_type"@)
            } else {
                "free"@
            };
            &&& info.at("email"@) == me.at("email"@)
            &&& info.at("user_id"@) == me.at("id"@)
            &&& info.str_at("type"@) == plan
            &&& info.items_at("limits_progress"@) == items
            &&& info.at("default_model_slug"@) == init.at("default_model_slug"@)
            &&& i < items.len() ==> {
                &&& info.get("image_quota_unknown"@) == Some(JsonView::Bool(false))
                &&& info.get("quota"@) == Some(int_json(items[i].int_at("remaining"@, 0) as int))
                &&& info.str_at("status"@) == (if items[i].int_at("remaining"@, 0) == 0 {
                    "限流"@
                } else {
                    "正常"@
                })
                &&& items[i].str_at("reset_after"@).len() > 0 ==> info.get("restore_at"@) == Some(
                    JsonView::Str(items[i].str_at("reset_after"@)),
                )
            }
            &&& i == items.len() ==> {
                &&& info.get("image_quota_unknown"@) == Some(JsonView::Bool(true))
                &&& info.get("quota"@) == Some(int_json(0))
                &&& info.get("restore_at"@) == Some(JsonView::Null)
                &&& info.str_at("status"@) == (if unicode_lower(plan) == "free"@ {
                    "限流"@
                } else {
                    "正常"@
                })
            }
        }),
{
    broadcast use crate::value::group_fields;

    law_quota_of_first_limit(init.items_at("limits_progress"@), i);
    reveal_strlit("email");
    reveal_strlit("user_id");
    reveal_strlit("type");
    reveal_strlit("quota");
    reveal_strlit("image_quota_unknown");
    reveal_strlit("limits_progress");
    reveal_strlit("default_model_slug");
    reveal_strlit("restore_at");
    reveal_strlit("status");
    assert("email"@.len() == 5 && "email"@[0] == 'e');
    assert("user_id"@.len() == 7);
    assert("type"@.len() == 4);
    assert("quota"@.len() == 5 && "quota"@[0] == 'q');
    assert("image_quota_unknown"@.len() == 19);
    assert("limits_progress"@.len() == 15);
    assert("default_model_slug"@.len() == 18);
    assert("restore_at"@.len() == 10);
    assert("status"@.len() == 6);
}

} // verus!
