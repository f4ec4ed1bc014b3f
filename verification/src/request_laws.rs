//! What is read of a request, what of it is reviewed, and what a review decides.
use vstd::prelude::*;

use crate::ai::{form_body, form_text, listed_name, upload_entry};
use crate::calls::{text_in, Endpoint};
use crate::codec::base64_text;
use crate::content_filter::{
    allows, fails_open, filled_text, flat_field, flat_items, flat_text, holds_word, kept_half,
    rejects, review_passes, review_payload, review_prompt, review_question, string_counted,
    type_counted, verdict, within_limit, without_images, ShapeStats, TRUNCATION_MARKER,
};
use crate::error::AppError;
use crate::image_inputs::{
    edit_request,
    edit_payload, found, found_field, found_items, found_url, image_field, looks_like_json, nothing,
    remote, setting_field, stream_setting, then_found, word_switch,
};
use crate::assoc::lookup;
use crate::lists::{lemma_mapped_from, lemma_mapped_has};
use crate::text::{
    views,
    ascii_lower, begins, ends, joined, occurs, occurs_at, pieces, trimmed, unicode_lower,
};
use crate::value::{
    Json,clean_text, int_json, JsonView};

verus! {

// ---------------------------------------------------------------------------
// what is reviewed
// ---------------------------------------------------------------------------

proof fn lemma_occurs_in(a: Seq<char>, x: Seq<char>, b: Seq<char>, p: Seq<char>)
    requires
        occurs(x, p),
    ensures
        occurs(a + x + b, p),
{
    let i = choose|i: int| occurs_at(x, p, i);
    let s = a + x + b;
    assert(s.subrange(a.len() + i, a.len() + i + p.len()) =~= x.subrange(i, i + p.len()));
    assert(occurs_at(s, p, a.len() + i));
}

proof fn lemma_part_occurs(parts: Seq<Seq<char>>, sep: Seq<char>, i: int, p: Seq<char>)
    requires
        0 <= i < parts.len(),
        occurs(parts[i], p),
    ensures
        occurs(joined(parts, sep), p),
    decreases parts.len(),
{
    let none: Seq<char> = Seq::empty();
    if parts.len() > 1 {
        let init = parts.drop_last();
        if i < init.len() {
            assert(init[i] == parts[i]);
            lemma_part_occurs(init, sep, i, p);
            lemma_occurs_in(none, joined(init, sep), sep + parts.last(), p);
            assert(joined(parts, sep) =~= none + joined(init, sep) + (sep + parts.last()));
        } else {
            lemma_occurs_in(joined(init, sep) + sep, parts.last(), none, p);
            assert(joined(parts, sep) =~= (joined(init, sep) + sep) + parts.last() + none);
        }
    }
}

proof fn lemma_occurs_itself(p: Seq<char>)
    ensures
        occurs(p, p),
{
    assert(p.subrange(0, p.len() as int) =~= p);
    assert(occurs_at(p, p, 0));
}

proof fn lemma_flat_item(items: Seq<JsonView>, i: int)
    requires
        0 <= i < items.len(),
    ensures
        flat_items(items).len() == items.len(),
        flat_items(items)[i] == flat_text(items[i]),
    decreases items,
{
    let init = items.drop_last();
    if i < init.len() {
        lemma_flat_item(init, i);
        assert(init[i] == items[i]);
    } else if init.len() > 0 {
        lemma_flat_item(init, 0);
    } else {
        assert(flat_items(init) == Seq::<Seq<char>>::empty());
    }
    assert(flat_items(items) == flat_items(init).push(flat_text(items.last())));
}

proof fn lemma_flat_field(o: Seq<(Seq<char>, JsonView)>, k: Seq<char>)
    ensures
        flat_field(o, k) == (match lookup(o, k) {
            Some(v) => flat_text(v),
            None => Seq::empty(),
        }),
    decreases o,
{
    if o.len() > 0 && o[0].0 != k {
        lemma_flat_field(o.drop_first(), k);
    }
}

/// The text of a list holds the text of each of its items.
pub proof fn law_text_of_list(items: Seq<JsonView>, i: int, p: Seq<char>)
    requires
        0 <= i < items.len(),
        occurs(flat_text(items[i]), p),
    ensures
        occurs(flat_text(JsonView::Arr(items)), p),
{
    lemma_flat_item(items, i);
    lemma_part_occurs(flat_items(items), "\n"@, i, p);
}

/// The text of an object holds that of each field in which text is sent.
pub proof fn law_text_of_object(v: JsonView, k: Seq<char>, p: Seq<char>)
    requires
        v is Obj,
        k == "text"@ || k == "input_text"@ || k == "content"@ || k == "input"@ || k
            == "instructions"@ || k == "system"@ || k == "prompt"@,
        v.get(k) is Some,
        occurs(flat_text(v.at(k)), p),
    ensures
        occurs(flat_text(v), p),
{
    let o = v->Obj_0;
    lemma_flat_field(o, k);
    let parts = seq![
        flat_field(o, "text"@),
        flat_field(o, "input_text"@),
        flat_field(o, "content"@),
        flat_field(o, "input"@),
        flat_field(o, "instructions"@),
        flat_field(o, "system"@),
        flat_field(o, "prompt"@),
    ];
    let i: int = if k == "text"@ {
        0
    } else if k == "input_text"@ {
        1
    } else if k == "content"@ {
        2
    } else if k == "input"@ {
        3
    } else if k == "instructions"@ {
        4
    } else if k == "system"@ {
        5
    } else {
        6
    };
    assert(parts[i] == flat_field(o, k));
    lemma_part_occurs(parts, "\n"@, i, p);
    assert(flat_text(v) == joined(parts, "\n"@));
}

/// The text of a string is the string.
pub proof fn law_text_of_string(s: Seq<char>)
    ensures
        flat_text(JsonView::Str(s)) == s,
        occurs(flat_text(JsonView::Str(s)), s),
{
    lemma_occurs_itself(s);
}

proof fn lemma_text_in(values: Seq<JsonView>, i: int)
    requires
        0 <= i < values.len(),
        trimmed(flat_text(values[i])).len() > 0,
    ensures
        occurs(text_in(values), trimmed(flat_text(values[i]))),
{
    let f = filled_text();
    let t = trimmed(flat_text(values[i]));
    lemma_mapped_has(values, f, i);
    let all = values.filter_map(f);
    let k = all.index_of(t);
    lemma_occurs_itself(t);
    lemma_part_occurs(all, "\n"@, k, t);
}

/// All that a call says is reviewed: of a chat its prompt and its messages, of a response its
/// input and its instructions, of a message call its system text, its messages and its tools, and
/// of every other call its prompt.
pub proof fn law_whole_call_is_reviewed(body: JsonView)
    ensures
        Endpoint::Images.reviewed_text(body) == trimmed(body.str_at("prompt"@)),
        Endpoint::Search.reviewed_text(body) == body.str_at("prompt"@),
        Endpoint::Ppt.reviewed_text(body) == body.str_at("prompt"@),
        Endpoint::Psd.reviewed_text(body) == body.str_at("prompt"@),
        trimmed(flat_text(body.at("prompt"@))).len() > 0 ==> occurs(
            Endpoint::Chat.reviewed_text(body),
            trimmed(flat_text(body.at("prompt"@))),
        ),
        trimmed(flat_text(body.at("messages"@))).len() > 0 ==> occurs(
            Endpoint::Chat.reviewed_text(body),
            trimmed(flat_text(body.at("messages"@))),
        ),
        trimmed(flat_text(body.at("input"@))).len() > 0 ==> occurs(
            Endpoint::Responses.reviewed_text(body),
            trimmed(flat_text(body.at("input"@))),
        ),
        trimmed(flat_text(body.at("instructions"@))).len() > 0 ==> occurs(
            Endpoint::Responses.reviewed_text(body),
            trimmed(flat_text(body.at("instructions"@))),
        ),
        trimmed(flat_text(body.at("system"@))).len() > 0 ==> occurs(
            Endpoint::Messages.reviewed_text(body),
            trimmed(flat_text(body.at("system"@))),
        ),
        trimmed(flat_text(body.at("messages"@))).len() > 0 ==> occurs(
            Endpoint::Messages.reviewed_text(body),
            trimmed(flat_text(body.at("messages"@))),
        ),
        trimmed(flat_text(body.at("tools"@))).len() > 0 ==> occurs(
            Endpoint::Messages.reviewed_text(body),
            trimmed(flat_text(body.at("tools"@))),
        ),
{
    let chat = seq![body.at("prompt"@), body.at("messages"@)];
    let resp = seq![body.at("input"@), body.at("instructions"@)];
    let mess = seq![body.at("system"@), body.at("messages"@), body.at("tools"@)];
    assert forall|i: int| 0 <= i < 2 && trimmed(flat_text(#[trigger] chat[i])).len() > 0 implies occurs(
        text_in(chat),
        trimmed(flat_text(chat[i])),
    ) by {
        lemma_text_in(chat, i);
    }
    assert forall|i: int| 0 <= i < 2 && trimmed(flat_text(#[trigger] resp[i])).len() > 0 implies occurs(
        text_in(resp),
        trimmed(flat_text(resp[i])),
    ) by {
        lemma_text_in(resp, i);
    }
    assert forall|i: int| 0 <= i < 3 && trimmed(flat_text(#[trigger] mess[i])).len() > 0 implies occurs(
        text_in(mess),
        trimmed(flat_text(mess[i])),
    ) by {
        lemma_text_in(mess, i);
    }
    assert(chat[0] == body.at("prompt"@) && chat[1] == body.at("messages"@));
    assert(resp[0] == body.at("input"@) && resp[1] == body.at("instructions"@));
    assert(mess[0] == body.at("system"@) && mess[1] == body.at("messages"@) && mess[2] == body.at(
        "tools"@,
    ));
}

/// Calls are known by their paths, and go to the model that they name.
pub proof fn law_calls(body: JsonView, search: Seq<char>)
    ensures
        Endpoint::Images.path_text() == "/v1/images/generations"@,
        Endpoint::Chat.path_text() == "/v1/chat/completions"@,
        Endpoint::Responses.path_text() == "/v1/responses"@,
        Endpoint::Messages.path_text() == "/v1/messages"@,
        Endpoint::Search.path_text() == "/v1/search"@,
        trimmed(body.str_at("model"@)).len() > 0 ==> Endpoint::Images.model_of(body, search)
            == trimmed(body.str_at("model"@)) && Endpoint::Chat.model_of(body, search) == trimmed(
            body.str_at("model"@),
        ) && Endpoint::Responses.model_of(body, search) == trimmed(body.str_at("model"@))
            && Endpoint::Messages.model_of(body, search) == trimmed(body.str_at("model"@)),
        body.get("model"@) is None ==> Endpoint::Images.model_of(body, search) == "gpt-image-2"@
            && Endpoint::Chat.model_of(body, search) == "auto"@,
        Endpoint::Search.model_of(body, search) == search,
        Endpoint::Images.wants_prompt() && Endpoint::Search.wants_prompt(),
        !Endpoint::Chat.wants_prompt() && !Endpoint::Responses.wants_prompt()
            && !Endpoint::Messages.wants_prompt(),
{
    if body.get("model"@) is None {
        crate::text::lemma_strip_len(Seq::<char>::empty(), crate::text::CharClass::White);
    }
}

// ---------------------------------------------------------------------------
// reviews
// ---------------------------------------------------------------------------

/// The verdict of a review is the content of its first answer, in lower case and without white
/// space at its ends.
pub proof fn law_verdict(data: JsonView, choice: JsonView, rest: Seq<JsonView>, s: Seq<char>)
    requires
        data.get("choices"@) == Some(JsonView::Arr(seq![choice] + rest)),
    ensures
        choice.at("message"@).get("content"@) == Some(JsonView::Str(s)) ==> verdict(data) == Some(
            unicode_lower(trimmed(s)),
        ),
        choice.at("message"@).get("content"@) is None ==> verdict(data) is None,
{
    assert((seq![choice] + rest)[0] == choice);
}

/// A request passes a review whose verdict allows it, and none whose verdict rejects it. Where it
/// says neither, or nothing at all, the request passes where failures are let through.
pub proof fn law_review_decides(data: JsonView, d: Seq<char>, open: bool)
    ensures
        verdict(data) == Some(d) && (begins(d, "allow"@) || begins(d, "pass"@) || begins(d, "true"@)
            || begins(d, "yes"@) || begins(d, "通过"@) || begins(d, "允许"@) || begins(d, "安全"@))
            ==> review_passes(data, open),
        verdict(data) == Some(d) && (begins(d, "reject"@) || begins(d, "deny"@) || begins(d, "block"@)
            || begins(d, "false"@) || begins(d, "no"@) || begins(d, "拒绝"@) || begins(d, "不允许"@)
            || begins(d, "违规"@) || begins(d, "禁止"@)) ==> !review_passes(data, open),
        verdict(data) == Some(d) && !allows(d) && !rejects(d) ==> review_passes(data, open) == open,
        verdict(data) is None ==> review_passes(data, open) == open,
{
    reveal_strlit("allow");
    reveal_strlit("pass");
    reveal_strlit("true");
    reveal_strlit("yes");
    reveal_strlit("通过");
    reveal_strlit("允许");
    reveal_strlit("安全");
    reveal_strlit("reject");
    reveal_strlit("deny");
    reveal_strlit("block");
    reveal_strlit("false");
    reveal_strlit("no");
    reveal_strlit("拒绝");
    reveal_strlit("不允许");
    reveal_strlit("违规");
    reveal_strlit("禁止");
    assert("allow"@.len() == 5 && "allow"@[0] == 'a');
    assert("pass"@.len() == 4 && "pass"@[0] == 'p');
    assert("true"@.len() == 4 && "true"@[0] == 't');
    assert("yes"@.len() == 3 && "yes"@[0] == 'y');
    assert("通过"@.len() == 2 && "通过"@[0] == '通');
    assert("允许"@.len() == 2 && "允许"@[0] == '允');
    assert("安全"@.len() == 2 && "安全"@[0] == '安');
    assert("reject"@.len() == 6);
    assert("deny"@.len() == 4 && "deny"@[0] == 'd');
    assert("block"@.len() == 5 && "block"@[0] == 'b');
    assert("false"@.len() == 5 && "false"@[0] == 'f');
    assert("no"@.len() == 2 && "no"@[0] == 'n');
    assert("拒绝"@.len() == 2 && "拒绝"@[0] == '拒');
    assert("不允许"@.len() == 3 && "不允许"@[0] == '不');
    assert("违规"@.len() == 2 && "违规"@[0] == '违');
    assert("禁止"@.len() == 2 && "禁止"@[0] == '禁');
    if d.len() > 0 {
        if begins(d, "allow"@) {
            assert(d.subrange(0, 5)[0] == d[0] && "allow"@[0] == 'a');
        }
        if begins(d, "pass"@) {
            assert(d.subrange(0, 4)[0] == d[0] && "pass"@[0] == 'p');
        }
        if begins(d, "true"@) {
            assert(d.subrange(0, 4)[0] == d[0] && "true"@[0] == 't');
        }
        if begins(d, "yes"@) {
            assert(d.subrange(0, 3)[0] == d[0] && "yes"@[0] == 'y');
        }
        if begins(d, "通过"@) {
            assert(d.subrange(0, 2)[0] == d[0] && "通过"@[0] == '通');
        }
        if begins(d, "允许"@) {
            assert(d.subrange(0, 2)[0] == d[0] && "允许"@[0] == '允');
        }
        if begins(d, "安全"@) {
            assert(d.subrange(0, 2)[0] == d[0] && "安全"@[0] == '安');
        }
        if begins(d, "reject"@) {
            assert(d.subrange(0, 6)[0] == d[0] && "reject"@[0] == 'r');
        }
        if begins(d, "deny"@) {
            assert(d.subrange(0, 4)[0] == d[0] && "deny"@[0] == 'd');
        }
        if begins(d, "block"@) {
            assert(d.subrange(0, 5)[0] == d[0] && "block"@[0] == 'b');
        }
        if begins(d, "false"@) {
            assert(d.subrange(0, 5)[0] == d[0] && "false"@[0] == 'f');
        }
        if begins(d, "no"@) {
            assert(d.subrange(0, 2)[0] == d[0] && "no"@[0] == 'n');
        }
        if begins(d, "拒绝"@) {
            assert(d.subrange(0, 2)[0] == d[0] && "拒绝"@[0] == '拒');
        }
        if begins(d, "不允许"@) {
            assert(d.subrange(0, 3)[0] == d[0] && "不允许"@[0] == '不');
        }
        if begins(d, "违规"@) {
            assert(d.subrange(0, 2)[0] == d[0] && "违规"@[0] == '违');
        }
        if begins(d, "禁止"@) {
            assert(d.subrange(0, 2)[0] == d[0] && "禁止"@[0] == '禁');
        }
    }
}

/// A review that fails refuses exactly where it is told not to let failures through.
pub proof fn law_failures_let_through(review: JsonView, s: Seq<char>)
    ensures
        review.get("fail_open"@) == Some(JsonView::Bool(true)) ==> fails_open(review),
        review.get("fail_open"@) == Some(JsonView::Bool(false)) ==> !fails_open(review),
        review.get("fail_open"@) == Some(JsonView::Str(s)) ==> (fails_open(review) <==> {
            let t = unicode_lower(trimmed(s));
            t == "1"@ || t == "true"@ || t == "yes"@ || t == "on"@
        }),
{
}

/// A text is refused for a word exactly where it holds one of the words.
pub proof fn law_words_found(text: Seq<char>, words: Seq<Seq<char>>, a: Seq<char>, w: Seq<char>, b: Seq<char>)
    ensures
        words.contains(w) ==> holds_word(a + w + b, words),
        holds_word(text, words) ==> exists|i: int|
            0 <= i < words.len() && occurs(text, #[trigger] words[i]),
        words.len() == 0 ==> !holds_word(text, words),
{
    if words.contains(w) {
        let i = words.index_of(w);
        crate::text_laws::law_occurrence(a, w, b);
        assert(occurs(a + w + b, words[i]));
    }
}

/// A reviewed text stays whole where it is short; a long one keeps its beginning and its end.
pub proof fn law_reviewed_text_is_cut(s: Seq<char>)
    ensures
        s.len() <= 100_000 ==> within_limit(s) == s,
        s.len() > 100_000 ==> {
            &&& begins(within_limit(s), s.take(kept_half()))
            &&& ends(within_limit(s), s.skip(s.len() - kept_half()))
            &&& occurs(within_limit(s), TRUNCATION_MARKER@)
            &&& kept_half() >= 49_900
        },
{
    crate::content_filter::lemma_marker();
    if s.len() > 100_000 {
        let a = s.take(kept_half());
        let b = s.skip(s.len() - kept_half());
        crate::text_laws::law_occurrence(a, TRUNCATION_MARKER@, b);
        crate::text_laws::law_occurrence(Seq::empty(), a, TRUNCATION_MARKER@ + b);
        assert(within_limit(s) =~= a + (TRUNCATION_MARKER@ + b));
        crate::text_laws::law_occurrence(a + TRUNCATION_MARKER@, b, Seq::empty());
    }
}

/// The question of a review holds its prompt and the text, and goes to the model that is
/// set.
pub proof fn law_review_question(review: JsonView, text: Seq<char>, model: Seq<char>)
    ensures
        ({
            let q = review_question(review, text);
            let p = review_payload(model, q);
            &&& occurs(q, within_limit(without_images(text)))
            &&& begins(q, review_prompt(review))
            &&& p.str_at("model"@) == model
            &&& p.items_at("messages"@).len() == 1
            &&& p.items_at("messages"@)[0].str_at("role"@) == "user"@
            &&& p.items_at("messages"@)[0].str_at("content"@) == q
        }),
        review.get("prompt"@) matches Some(JsonView::Str(s)) ==> s.len() > 0 ==> review_prompt(review)
            == trimmed(s),
{
    broadcast use crate::value::group_fields;

    reveal_strlit("model");
    reveal_strlit("messages");
    reveal_strlit("temperature");
    reveal_strlit("role");
    reveal_strlit("content");
    assert("model"@.len() == 5);
    assert("messages"@.len() == 8);
    assert("temperature"@.len() == 11);
    assert("role"@.len() == 4);
    assert("content"@.len() == 7);
    let a = review_prompt(review);
    let m = "\n\n用户请求:\n"@;
    let t = within_limit(without_images(text));
    let e = "\n\n只回答 ALLOW 或 REJECT。"@;
    let q = review_question(review, text);
    crate::text_laws::law_occurrence(a + m, t, e);
    assert(q =~= (a + m) + t + e);
    crate::text_laws::law_occurrence(Seq::empty(), a, m + t + e);
    assert(q =~= a + (m + t + e));
}

/// Every part and every image of a request is counted once, under its own kind.
pub proof fn law_shape_counts(st: ShapeStats, s: Seq<char>)
    requires
        0 <= st.input_image_parts < i64::MAX,
        0 <= st.image_url_parts < i64::MAX,
        0 <= st.image_parts < i64::MAX,
        0 <= st.response_message_items < i64::MAX,
        0 <= st.data_url_images < i64::MAX,
        0 <= st.remote_image_urls < i64::MAX,
    ensures
        type_counted(st, "input_image"@) == (ShapeStats {
            input_image_parts: (st.input_image_parts + 1) as i64,
            ..st
        }),
        type_counted(st, "image_url"@) == (ShapeStats {
            image_url_parts: (st.image_url_parts + 1) as i64,
            ..st
        }),
        type_counted(st, "image"@) == (ShapeStats { image_parts: (st.image_parts + 1) as i64, ..st }),
        type_counted(st, "message"@) == (ShapeStats {
            response_message_items: (st.response_message_items + 1) as i64,
            ..st
        }),
        begins(unicode_lower(trimmed(s)), "data:image/"@) ==> string_counted(st, s, "url"@).data_url_images
            == st.data_url_images + 1,
        !begins(unicode_lower(trimmed(s)), "data:image/"@) && begins(
            unicode_lower(trimmed(s)),
            "https://"@,
        ) ==> string_counted(st, s, "url"@).remote_image_urls == st.remote_image_urls + 1
            && string_counted(st, s, "image_url"@).remote_image_urls == st.remote_image_urls + 1,
{
    reveal_strlit("message");
    reveal_strlit("input_image");
    reveal_strlit("image_url");
    reveal_strlit("image");
    reveal_strlit("url");
    assert("message"@.len() == 7);
    assert("input_image"@.len() == 11);
    assert("image_url"@.len() == 9);
    assert("image"@.len() == 5);
    assert("url"@.len() == 3);
}

// ---------------------------------------------------------------------------
// forms
// ---------------------------------------------------------------------------

/// Words that switch on and off.
pub proof fn law_switch_words(w: Seq<char>)
    ensures
        word_switch(w) == Some(true) <==> w == "true"@ || w == "1"@ || w == "yes"@ || w == "y"@ || w
            == "on"@,
        word_switch(w) == Some(false) <==> w == "false"@ || w == "0"@ || w == "no"@ || w == "n"@ || w
            == "off"@,
{
    reveal_strlit("true");
    reveal_strlit("1");
    reveal_strlit("yes");
    reveal_strlit("y");
    reveal_strlit("on");
    reveal_strlit("false");
    reveal_strlit("0");
    reveal_strlit("no");
    reveal_strlit("n");
    reveal_strlit("off");
    assert("true"@.len() == 4);
    assert("1"@.len() == 1 && "1"@[0] == '1');
    assert("yes"@.len() == 3 && "yes"@[0] == 'y');
    assert("y"@.len() == 1 && "y"@[0] == 'y');
    assert("on"@.len() == 2 && "on"@[0] == 'o');
    assert("false"@.len() == 5);
    assert("0"@.len() == 1 && "0"@[0] == '0');
    assert("no"@.len() == 2 && "no"@[0] == 'n');
    assert("n"@.len() == 1 && "n"@[0] == 'n');
    assert("off"@.len() == 3 && "off"@[0] == 'o');
}

/// The fields of a form in which images and settings come.
pub proof fn law_form_fields(name: Seq<char>)
    ensures
        image_field(name) <==> name == "image"@ || name == "image[]"@ || name == "images"@ || name
            == "images[]"@ || name == "image_url"@ || name == "image_url[]"@,
        name == "prompt"@ || name == "model"@ || name == "n"@ || name == "size"@ || name
            == "quality"@ || name == "response_format"@ || name == "stream"@ || name
            == "client_task_id"@ ==> setting_field(name),
        image_field(name) ==> !setting_field(name),
{
    reveal_strlit("image");
    reveal_strlit("image[]");
    reveal_strlit("images");
    reveal_strlit("images[]");
    reveal_strlit("image_url");
    reveal_strlit("image_url[]");
    reveal_strlit("prompt");
    reveal_strlit("model");
    reveal_strlit("n");
    reveal_strlit("size");
    reveal_strlit("quality");
    reveal_strlit("response_format");
    reveal_strlit("stream");
    reveal_strlit("client_task_id");
    assert("image"@.len() == 5 && "image"@[0] == 'i');
    assert("image[]"@.len() == 7 && "image[]"@[0] == 'i');
    assert("images"@.len() == 6 && "images"@[0] == 'i');
    assert("images[]"@.len() == 8);
    assert("image_url"@.len() == 9);
    assert("image_url[]"@.len() == 11);
    assert("prompt"@.len() == 6 && "prompt"@[0] == 'p');
    assert("model"@.len() == 5 && "model"@[0] == 'm');
    assert("n"@.len() == 1);
    assert("size"@.len() == 4);
    assert("quality"@.len() == 7 && "quality"@[0] == 'q');
    assert("response_format"@.len() == 15);
    assert("stream"@.len() == 6 && "stream"@[0] == 's');
    assert("client_task_id"@.len() == 14);
}

/// A form asks for what its fields say: the prompt, the model, the size, the quality and the
/// number of images, with the images that came with it in order.
pub proof fn law_form_body(
    fields: Map<Seq<char>, Seq<char>>,
    images: Seq<JsonView>,
    count: int,
    stream: Option<bool>,
)
    requires
        form_text(fields, "prompt"@) is Some,
    ensures
        ({
            let b = form_body(fields, images, count, stream);
            &&& b.str_at("prompt"@) == trimmed(fields["prompt"@])
            &&& b.get("n"@) == Some(int_json(count))
            &&& b.items_at("images"@) == images
            &&& fields.dom().contains("model"@) && trimmed(fields["model"@]).len() > 0 ==> b.str_at(
                "model"@,
            ) == trimmed(fields["model"@])
            &&& !fields.dom().contains("model"@) ==> b.str_at("model"@) == "gpt-image-2"@
            &&& fields.dom().contains("size"@) && trimmed(fields["size"@]).len() > 0 ==> b.str_at(
                "size"@,
            ) == trimmed(fields["size"@])
            &&& !fields.dom().contains("size"@) ==> b.get("size"@) is None
            &&& fields.dom().contains("quality"@) && trimmed(fields["quality"@]).len() > 0
                ==> b.str_at("quality"@) == trimmed(fields["quality"@])
            &&& !fields.dom().contains("quality"@) ==> b.str_at("quality"@) == "auto"@
            &&& fields.dom().contains("response_format"@) && trimmed(
                fields["response_format"@],
            ).len() > 0 ==> b.str_at("response_format"@) == trimmed(fields["response_format"@])
            &&& !fields.dom().contains("response_format"@) ==> b.str_at("response_format"@)
                == "b64_json"@
            &&& stream matches Some(s) ==> b.get("stream"@) == Some(JsonView::Bool(s))
            &&& stream is None ==> b.get("stream"@) is None
            &&& fields.dom().contains("client_task_id"@) ==> b.str_at("client_task_id"@)
                == fields["client_task_id"@]
        }),
{
    broadcast use crate::value::group_fields;

    reveal_strlit("prompt");
    reveal_strlit("model");
    reveal_strlit("n");
    reveal_strlit("quality");
    reveal_strlit("response_format");
    reveal_strlit("images");
    reveal_strlit("size");
    reveal_strlit("stream");
    reveal_strlit("client_task_id");
    assert("prompt"@.len() == 6 && "prompt"@[0] == 'p');
    assert("model"@.len() == 5);
    assert("n"@.len() == 1);
    assert("quality"@.len() == 7);
    assert("response_format"@.len() == 15);
    assert("images"@.len() == 6 && "images"@[0] == 'i');
    assert("size"@.len() == 4);
    assert("stream"@.len() == 6 && "stream"@[0] == 's');
    assert("client_task_id"@.len() == 14);
}

/// An image that came with a form keeps its bytes, its type and its name.
pub proof fn law_upload_entry(data: Seq<u8>, mime: Seq<char>, name: Seq<char>)
    ensures
        upload_entry(data, Some(mime), Some(name)).str_at("b64_json"@) == base64_text(data),
        upload_entry(data, Some(mime), Some(name)).str_at("mime_type"@) == mime,
        upload_entry(data, Some(mime), Some(name)).str_at("filename"@) == name,
        upload_entry(data, None, None).str_at("b64_json"@) == base64_text(data),
        upload_entry(data, None, None).str_at("mime_type"@) == "image/png"@,
{
    broadcast use crate::value::group_fields;

    reveal_strlit("b64_json");
    reveal_strlit("mime_type");
    reveal_strlit("filename");
    assert("b64_json"@.len() == 8 && "b64_json"@[0] == 'b');
    assert("mime_type"@.len() == 9);
    assert("filename"@.len() == 8 && "filename"@[0] == 'f');
}

/// The settings of an edit are those of its fields, or the usual ones.
pub proof fn law_edit_settings(fields: JsonView, count: i64, stream: JsonView)
    ensures
        ({
            let p = edit_payload(fields, count, stream);
            &&& p.str_at("prompt"@) == clean_text(fields.get("prompt"@))
            &&& p.get("n"@) == Some(int_json(count as int))
            &&& p.get("stream"@) == Some(stream)
            &&& clean_text(fields.get("model"@)).len() > 0 ==> p.str_at("model"@) == clean_text(
                fields.get("model"@),
            )
            &&& clean_text(fields.get("model"@)).len() == 0 ==> p.str_at("model"@)
                == "gpt-image-2"@
            &&& clean_text(fields.get("size"@)).len() > 0 ==> p.str_at("size"@) == clean_text(
                fields.get("size"@),
            )
            &&& clean_text(fields.get("size"@)).len() == 0 ==> p.get("size"@) == Some(JsonView::Null)
            &&& clean_text(fields.get("quality"@)).len() > 0 ==> p.str_at("quality"@) == clean_text(
                fields.get("quality"@),
            )
            &&& clean_text(fields.get("quality"@)).len() == 0 ==> p.str_at("quality"@) == "auto"@
            &&& clean_text(fields.get("response_format"@)).len() > 0 ==> p.str_at(
                "response_format"@,
            ) == clean_text(fields.get("response_format"@))
            &&& fields.get("client_task_id"@) is Some ==> p.str_at("client_task_id"@) == clean_text(
                fields.get("client_task_id"@),
            )
        }),
{
    broadcast use crate::value::group_fields;

    reveal_strlit("prompt");
    reveal_strlit("model");
    reveal_strlit("n");
    reveal_strlit("quality");
    reveal_strlit("response_format");
    reveal_strlit("size");
    reveal_strlit("stream");
    reveal_strlit("client_task_id");
    assert("prompt"@.len() == 6 && "prompt"@[0] == 'p');
    assert("model"@.len() == 5);
    assert("n"@.len() == 1);
    assert("quality"@.len() == 7);
    assert("response_format"@.len() == 15);
    assert("size"@.len() == 4);
    assert("stream"@.len() == 6 && "stream"@[0] == 's');
    assert("client_task_id"@.len() == 14);
}

/// Whether an answer is streamed is as the request says, in words or as a value.
pub proof fn law_stream_setting(b: bool, s: Seq<char>)
    ensures
        stream_setting(Some(JsonView::Bool(b))) == Some(JsonView::Bool(b)),
        stream_setting(None) == Some(JsonView::Null),
        ascii_lower(trimmed(s)) == "true"@ ==> stream_setting(Some(JsonView::Str(s))) == Some(
            JsonView::Bool(true),
        ),
        ascii_lower(trimmed(s)) == "false"@ ==> stream_setting(Some(JsonView::Str(s))) == Some(
            JsonView::Bool(false),
        ),
{
    reveal_strlit("true");
    reveal_strlit("1");
    reveal_strlit("yes");
    reveal_strlit("y");
    reveal_strlit("on");
    reveal_strlit("false");
    reveal_strlit("0");
    reveal_strlit("no");
    reveal_strlit("n");
    reveal_strlit("off");
    assert("true"@.len() == 4);
    assert("1"@.len() == 1 && "1"@[0] == '1');
    assert("yes"@.len() == 3 && "yes"@[0] == 'y');
    assert("y"@.len() == 1 && "y"@[0] == 'y');
    assert("on"@.len() == 2 && "on"@[0] == 'o');
    assert("false"@.len() == 5);
    assert("0"@.len() == 1 && "0"@[0] == '0');
    assert("no"@.len() == 2 && "no"@[0] == 'n');
    assert("n"@.len() == 1 && "n"@[0] == 'n');
    assert("off"@.len() == 3 && "off"@[0] == 'o');
    crate::text::lemma_strip_len(Seq::<char>::empty(), crate::text::CharClass::White);
}

/// The ids in a list are its parts between commas that are not blank, without white space at their
/// ends.
pub proof fn law_listed_ids(value: Seq<char>, id: Seq<char>)
    ensures
        pieces(value, ',').filter_map(listed_name()).contains(id) <==> id.len() > 0 && exists|i: int|
            0 <= i < pieces(value, ',').len() && trimmed(#[trigger] pieces(value, ',')[i]) == id,
{
    let p = pieces(value, ',');
    let f = listed_name();
    if p.filter_map(f).contains(id) {
        lemma_mapped_from(p, f, id);
        let i = choose|i: int| 0 <= i < p.len() && f(#[trigger] p[i]) == Some(id);
        assert(trimmed(p[i]) == id);
    }
    if id.len() > 0 && exists|i: int| 0 <= i < p.len() && trimmed(#[trigger] p[i]) == id {
        let i = choose|i: int| 0 <= i < p.len() && trimmed(#[trigger] p[i]) == id;
        lemma_mapped_has(p, f, i);
    }
}

// ---------------------------------------------------------------------------
// images in a request
// ---------------------------------------------------------------------------

/// A text that is an image stands for itself, but for an address elsewhere, which is refused.
pub proof fn law_image_text(s: Seq<char>, n: nat)
    requires
        trimmed(s).len() > 0,
        !looks_like_json(trimmed(s)),
    ensures
        ({
            let t = trimmed(s);
            let f = found(JsonView::Str(s), n);
            let away = begins(ascii_lower(t), "http://"@) || begins(ascii_lower(t), "https://"@);
            &&& away ==> f.refs.len() == 0 && f.fault == Some(
                "remote image URLs are not supported; use a data URL or base64"@,
            )
            &&& !away ==> f.fault is None && f.refs.len() == 1 && f.refs[0].text == t
        }),
{
}

proof fn lemma_found_url(o: Seq<(Seq<char>, JsonView)>, k: Seq<char>, n: nat)
    ensures
        found_url(o, k, n) == (match lookup(o, k) {
            Some(JsonView::Obj(inner)) => found_field(inner, "url"@, n),
            Some(other) => found(other, n),
            None => nothing(),
        }),
    decreases o.len(),
{
    if o.len() > 0 && o[0].0 != k {
        lemma_found_url(o.drop_first(), k, n);
    }
}

proof fn lemma_found_field(o: Seq<(Seq<char>, JsonView)>, k: Seq<char>, n: nat)
    ensures
        found_field(o, k, n) == (match lookup(o, k) {
            Some(v) => found(v, n),
            None => nothing(),
        }),
    decreases o.len(),
{
    if o.len() > 0 && o[0].0 != k {
        lemma_found_field(o.drop_first(), k, n);
    }
}

/// An image comes in an object as its own data, or as an address under either of two names, in
/// the object or in one within it. A reference to a stored file is refused, and so is an object
/// that holds none of these.
pub proof fn law_image_object(v: JsonView, s: Seq<char>, x: JsonView, n: nat)
    requires
        v is Obj,
    ensures
        v.get("file_id"@) is Some && !(v.at("file_id"@) is Null) ==> found(v, n).fault == Some(
            "file_id image references are not supported; use image_url instead"@,
        ) && found(v, n).refs.len() == 0,
        v.get("file_id"@) is None && v.get("b64_json"@) == Some(JsonView::Str(s)) && trimmed(s).len() > 0
            ==> found(v, n).fault is None && found(v, n).refs.len() == 1 && found(v, n).refs[0].text
            == trimmed(s),
        v.get("file_id"@) is None && v.get("b64_json"@) is None && v.get("base64"@) is None && v.get(
            "image_url"@,
        ) == Some(x) && !(x is Obj) ==> found(v, n) == found(x, n),
        v.get("file_id"@) is None && v.get("b64_json"@) is None && v.get("base64"@) is None && v.get(
            "image_url"@,
        ) == Some(x) && x is Obj && x.get("url"@) is Some ==> found(v, n) == found(x.at("url"@), n),
        v.get("file_id"@) is None && v.get("b64_json"@) is None && v.get("base64"@) is None && v.get(
            "image_url"@,
        ) is None && v.get("url"@) == Some(x) && !(x is Obj) ==> found(v, n) == found(x, n),
        v.get("file_id"@) is None && v.get("b64_json"@) is None && v.get("base64"@) is None && v.get(
            "image_url"@,
        ) is None && v.get("url"@) is None ==> found(v, n).fault is Some,
{
    let o = v->Obj_0;
    lemma_found_url(o, "image_url"@, n);
    lemma_found_url(o, "url"@, n);
    if x is Obj {
        lemma_found_field(x->Obj_0, "url"@, n);
    }
}

/// The images of a list are those of its items, in order, up to the first that is refused.
pub proof fn law_image_list(items: Seq<JsonView>, x: JsonView, n: nat)
    ensures
        ({
            let a = found(JsonView::Arr(items), n);
            let b = found(x, n);
            let c = found(JsonView::Arr(items.push(x)), n);
            &&& a.fault is Some ==> c == a
            &&& a.fault is None ==> c.refs == a.refs + b.refs && c.fault == b.fault
        }),
        found(JsonView::Arr(Seq::empty()), n) == nothing(),
        found(JsonView::Null, n).refs.len() == 0 && found(JsonView::Null, n).fault is None,
{
    let all = items.push(x);
    assert(all.drop_last() =~= items);
    assert(all.last() == x);
    assert(found(JsonView::Arr(all), n) == found_items(all, n));
    assert(found_items(all, n) == then_found(found_items(items, n), found(x, n)));
    assert(found(JsonView::Arr(items), n) == found_items(items, n));
    let none: Seq<JsonView> = Seq::empty();
    assert(found(JsonView::Arr(none), n) == found_items(none, n));
    assert(found_items(none, n) == nothing());
}

/// An edit is taken with its prompt and the images that came with it, and refused without a
/// prompt, or without an image where it needs one.
pub proof fn law_edit_request(
    fields: JsonView,
    count: Result<i64, AppError>,
    images: Seq<Seq<char>>,
    needs: bool,
    r: Result<(Json, Vec<String>), AppError>,
)
    requires
        edit_request(fields, count, images, needs, r),
    ensures
        clean_text(fields.get("prompt"@)).len() == 0 ==> r is Err,
        count is Err ==> r is Err,
        needs && images.len() == 0 ==> r is Err,
        r matches Ok(p) ==> views(p.1@) == images && p.0@.str_at("prompt"@) == clean_text(
            fields.get("prompt"@),
        ),
{
    match r {
        Ok(p) => {
            law_edit_settings(
                fields,
                count->Ok_0,
                stream_setting(fields.get("stream"@))->0,
            );
        },
        Err(_) => {},
    }
}

} // verus!
