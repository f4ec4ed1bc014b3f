//! The screening of requests: forbidden words, and an outside review that fails open unless it
//! is told otherwise.
use vstd::prelude::*;
use vstd::string::StringExecFns;

use crate::config::{non_zero, normalize_bool};
use crate::json::{non_empty_or, text_from};
use crate::pattern::{between_matches, split_by};
use crate::text::{
    begins, cat, cat3, chars_of, contains, join, joined, occurs, same, skip_back, starts_with,
    text_between, to_lower, trim, trim_back, trimmed, unicode_lower, views, CharClass,
};
use crate::value::{
    empty_object, fields_view, int_json, list_view, opt_view, or_else, plain_text, Json, JsonView,
};

verus! {

broadcast use crate::value::group_json;

/// The instruction that a review is given where none is set.
pub const DEFAULT_REVIEW_PROMPT: &'static str = "判断用户请求是否允许。只回答 ALLOW 或 REJECT。";

/// The longest text that is reviewed, in characters.
pub const MAX_REVIEW_TEXT_LEN: usize = 100_000;

/// What stands in place of the middle of a text that is too long.
pub const TRUNCATION_MARKER: &'static str = "\n…[truncated]…\n";

/// What an image inside a text looks like.
pub const BASE64_DATA_URI: &'static str = "data:[\\w/.+;-]+;base64,[A-Za-z0-9+/=]+";

/// Why a request is refused.
pub struct ContentFilterError {
    /// The HTTP status.
    pub status_code: u16,
    /// The message.
    pub detail: String,
}

impl ContentFilterError {
    pub fn new(status_code: u16, detail: &str) -> (r: ContentFilterError)
        ensures
            r.status_code == status_code,
            r.detail@ == detail@,
    {
        ContentFilterError { status_code, detail: detail.to_owned() }
    }

    /// The message as the detail of an error.
    pub fn detail_json(&self) -> (r: Json)
        ensures
            r@ == empty_object().put("error"@, JsonView::Str(self.detail@)),
    {
        let mut o = Json::object();
        o.set("error", Json::from_text(self.detail.as_str()));
        o
    }

    /// The refusal as text.
    pub fn to_text(&self) -> (r: String)
        ensures
            r@ == "HTTP "@ + crate::text::decimal(self.status_code as nat) + ": "@ + self.detail@,
    {
        let mut s = cat3(
            "HTTP ",
            crate::text::decimal_text(self.status_code as u128).as_str(),
            ": ",
        );
        s.append(self.detail.as_str());
        s
    }
}

// ---------------------------------------------------------------------------
// the text of a request
// ---------------------------------------------------------------------------

/// The text in a value: a string, the texts of a list one under the other, and those of seven
/// fields of an object.
pub open spec fn flat_text(v: JsonView) -> Seq<char>
    decreases v,
{
    match v {
        JsonView::Str(s) => s,
        JsonView::Arr(items) => joined(flat_items(items), "\n"@),
        JsonView::Obj(o) => joined(
            seq![
                flat_field(o, "text"@),
                flat_field(o, "input_text"@),
                flat_field(o, "content"@),
                flat_field(o, "input"@),
                flat_field(o, "instructions"@),
                flat_field(o, "system"@),
                flat_field(o, "prompt"@),
            ],
            "\n"@,
        ),
        _ => Seq::empty(),
    }
}

/// The texts of the items of a list.
pub open spec fn flat_items(items: Seq<JsonView>) -> Seq<Seq<char>>
    decreases items,
{
    if items.len() == 0 {
        Seq::empty()
    } else {
        flat_items(items.drop_last()).push(flat_text(items.last()))
    }
}

/// The text in the first field named `k`.
pub open spec fn flat_field(o: Seq<(Seq<char>, JsonView)>, k: Seq<char>) -> Seq<char>
    decreases o,
{
    if o.len() == 0 {
        Seq::empty()
    } else if o[0].0 == k {
        flat_text(o[0].1)
    } else {
        flat_field(o.drop_first(), k)
    }
}

proof fn lemma_flat_field(o: Seq<(Seq<char>, JsonView)>, k: Seq<char>, i: int)
    requires
        0 <= i <= o.len(),
        forall|j: int| 0 <= j < i ==> (#[trigger] o[j]).0 != k,
        i < o.len() ==> o[i].0 == k,
    ensures
        flat_field(o, k) == (if i < o.len() {
            flat_text(o[i].1)
        } else {
            Seq::empty()
        }),
    decreases o.len(),
{
    if o.len() > 0 && i > 0 {
        let rest = o.drop_first();
        assert forall|j: int| 0 <= j < i - 1 implies (#[trigger] rest[j]).0 != k by {
            assert(rest[j] == o[j + 1]);
        }
        lemma_flat_field(rest, k, i - 1);
    }
}

/// The position of the first field named `k`, or the number of fields.
pub(crate) fn field_position(o: &Vec<(String, Json)>, k: &str) -> (r: usize)
    ensures
        r <= o@.len(),
        forall|j: int| 0 <= j < r ==> (#[trigger] fields_view(o@)[j]).0 != k@,
        r < o@.len() ==> fields_view(o@)[r as int].0 == k@,
{
    let ghost fv = fields_view(o@);
    let mut i: usize = 0;
    while i < o.len() && !same(o[i].0.as_str(), k)
        invariant
            i <= o@.len(),
            fv == fields_view(o@),
            forall|j: int| 0 <= j < i ==> (#[trigger] fv[j]).0 != k@,
        ensures
            i <= o@.len(),
            fv == fields_view(o@),
            forall|j: int| 0 <= j < i ==> (#[trigger] fv[j]).0 != k@,
            i < o@.len() ==> fv[i as int].0 == k@,
        decreases o@.len() - i,
    {
        i += 1;
    }
    i
}

fn text_in(o: &Vec<(String, Json)>, k: &str) -> (r: String)
    ensures
        r@ == flat_field(fields_view(o@), k@),
    decreases o,
{
    let i = field_position(o, k);
    proof {
        lemma_flat_field(fields_view(o@), k@, i as int);
    }
    if i < o.len() {
        text_of(&o[i].1)
    } else {
        String::new()
    }
}

/// Reads the text in a value.
pub fn text_of(value: &Json) -> (r: String)
    ensures
        r@ == flat_text(value@),
    decreases value,
{
    match value {
        Json::Str(s) => s.clone(),
        Json::Arr(items) => {
            let ghost v = list_view(items@);
            let mut parts: Vec<String> = Vec::new();
            let mut i: usize = 0;
            assert(views(parts@) =~= flat_items(v.take(0)));
            while i < items.len()
                invariant
                    i <= items@.len(),
                    *value is Arr && value->Arr_0 == *items,
                    v == list_view(items@),
                    views(parts@) == flat_items(v.take(i as int)),
                decreases items@.len() - i,
            {
                let ghost done = views(parts@);
                assert(v.take(i + 1).drop_last() =~= v.take(i as int));
                parts.push(text_of(&items[i]));
                assert(views(parts@) =~= done.push(flat_text(v[i as int])));
                i += 1;
            }
            assert(v.take(i as int) =~= v);
            join(&parts, "\n")
        },
        Json::Obj(o) => {
            let mut parts: Vec<String> = Vec::new();
            parts.push(text_in(o, "text"));
            parts.push(text_in(o, "input_text"));
            parts.push(text_in(o, "content"));
            parts.push(text_in(o, "input"));
            parts.push(text_in(o, "instructions"));
            parts.push(text_in(o, "system"));
            parts.push(text_in(o, "prompt"));
            let ghost fv = fields_view(o@);
            assert(views(parts@) =~= seq![
                flat_field(fv, "text"@),
                flat_field(fv, "input_text"@),
                flat_field(fv, "content"@),
                flat_field(fv, "input"@),
                flat_field(fv, "instructions"@),
                flat_field(fv, "system"@),
                flat_field(fv, "prompt"@),
            ]);
            join(&parts, "\n")
        },
        _ => String::new(),
    }
}

// ---------------------------------------------------------------------------
// the shape of a request
// ---------------------------------------------------------------------------

/// How many parts of each kind a request has.
#[derive(Clone, Copy)]
pub struct ShapeStats {
    pub response_message_items: i64,
    pub input_image_parts: i64,
    pub image_url_parts: i64,
    pub image_parts: i64,
    pub data_url_images: i64,
    pub remote_image_urls: i64,
    pub literal_image_placeholders: i64,
}

/// The counts after a string under the key `key`.
pub open spec fn string_counted(st: ShapeStats, s: Seq<char>, key: Seq<char>) -> ShapeStats {
    let lower = unicode_lower(trimmed(s));
    let st = if occurs(lower, "<image>"@) {
        ShapeStats {
            literal_image_placeholders: st.literal_image_placeholders.wrapping_add(1),
            ..st
        }
    } else {
        st
    };
    if begins(lower, "data:image/"@) {
        ShapeStats { data_url_images: st.data_url_images.wrapping_add(1), ..st }
    } else if (key == "image_url"@ || key == "url"@) && (begins(lower, "http://"@) || begins(
        lower,
        "https://"@,
    )) {
        ShapeStats { remote_image_urls: st.remote_image_urls.wrapping_add(1), ..st }
    } else {
        st
    }
}

/// The counts after an object of a type.
pub open spec fn type_counted(st: ShapeStats, kind: Seq<char>) -> ShapeStats {
    if kind == "message"@ {
        ShapeStats { response_message_items: st.response_message_items.wrapping_add(1), ..st }
    } else if kind == "input_image"@ {
        ShapeStats { input_image_parts: st.input_image_parts.wrapping_add(1), ..st }
    } else if kind == "image_url"@ {
        ShapeStats { image_url_parts: st.image_url_parts.wrapping_add(1), ..st }
    } else if kind == "image"@ {
        ShapeStats { image_parts: st.image_parts.wrapping_add(1), ..st }
    } else {
        st
    }
}

/// The counts after a value under the key `key`, with all that is in it.
pub open spec fn counted(st: ShapeStats, v: JsonView, key: Seq<char>) -> ShapeStats
    decreases v,
{
    match v {
        JsonView::Str(s) => string_counted(st, s, key),
        JsonView::Arr(items) => items_counted(st, items, key),
        JsonView::Obj(o) => fields_counted(type_counted(st, trimmed(v.str_at("type"@))), o),
        _ => st,
    }
}

/// The counts after the items of a list under the key `key`.
pub open spec fn items_counted(st: ShapeStats, items: Seq<JsonView>, key: Seq<char>) -> ShapeStats
    decreases items,
{
    if items.len() == 0 {
        st
    } else {
        counted(items_counted(st, items.drop_last(), key), items.last(), key)
    }
}

/// The counts after the fields of an object.
pub open spec fn fields_counted(st: ShapeStats, o: Seq<(Seq<char>, JsonView)>) -> ShapeStats
    decreases o,
{
    if o.len() == 0 {
        st
    } else {
        counted(fields_counted(st, o.drop_last()), o.last().1, o.last().0)
    }
}

/// The object `o` with a count that is not zero.
pub open spec fn with_nonzero(o: JsonView, k: Seq<char>, n: i64) -> JsonView {
    if n != 0 {
        o.put(k, int_json(n as int))
    } else {
        o
    }
}

/// The counts that are not zero.
pub open spec fn shape_json(st: ShapeStats) -> JsonView {
    let o = with_nonzero(empty_object(), "response_message_items"@, st.response_message_items);
    let o = with_nonzero(o, "input_image_parts"@, st.input_image_parts);
    let o = with_nonzero(o, "image_url_parts"@, st.image_url_parts);
    let o = with_nonzero(o, "image_parts"@, st.image_parts);
    let o = with_nonzero(o, "data_url_images"@, st.data_url_images);
    let o = with_nonzero(o, "remote_image_urls"@, st.remote_image_urls);
    with_nonzero(o, "literal_image_placeholders"@, st.literal_image_placeholders)
}

/// No counts.
pub open spec fn no_stats() -> ShapeStats {
    ShapeStats {
        response_message_items: 0,
        input_image_parts: 0,
        image_url_parts: 0,
        image_parts: 0,
        data_url_images: 0,
        remote_image_urls: 0,
        literal_image_placeholders: 0,
    }
}

fn set_nonzero(o: &mut Json, k: &str, n: i64)
    ensures
        final(o)@ == with_nonzero(old(o)@, k@, n),
{
    if n != 0 {
        o.set(k, Json::from_int(n));
    }
}

impl ShapeStats {
    fn count_string(self, s: &str, key: &str) -> (r: ShapeStats)
        ensures
            r == string_counted(self, s@, key@),
    {
        let mut st = self;
        let lower = to_lower(trim(s).as_str());
        let l = lower.as_str();
        if contains(l, "<image>") {
            st.literal_image_placeholders = st.literal_image_placeholders.wrapping_add(1);
        }
        if starts_with(l, "data:image/") {
            st.data_url_images = st.data_url_images.wrapping_add(1);
        } else if (same(key, "image_url") || same(key, "url")) && (starts_with(l, "http://")
            || starts_with(l, "https://")) {
            st.remote_image_urls = st.remote_image_urls.wrapping_add(1);
        }
        st
    }

    fn count_type(self, kind: &str) -> (r: ShapeStats)
        ensures
            r == type_counted(self, kind@),
    {
        let mut st = self;
        if same(kind, "message") {
            st.response_message_items = st.response_message_items.wrapping_add(1);
        } else if same(kind, "input_image") {
            st.input_image_parts = st.input_image_parts.wrapping_add(1);
        } else if same(kind, "image_url") {
            st.image_url_parts = st.image_url_parts.wrapping_add(1);
        } else if same(kind, "image") {
            st.image_parts = st.image_parts.wrapping_add(1);
        }
        st
    }

    /// Counts a value under the key `key` in, with all that is in it.
    pub fn walk(self, value: &Json, key: &str) -> (r: ShapeStats)
        ensures
            r == counted(self, value@, key@),
        decreases value,
    {
        match value {
            Json::Str(s) => self.count_string(s.as_str(), key),
            Json::Arr(items) => {
                let ghost v = list_view(items@);
                let mut st = self;
                let mut i: usize = 0;
                assert(v.take(0) =~= Seq::empty());
                while i < items.len()
                    invariant
                        i <= items@.len(),
                        *value is Arr && value->Arr_0 == *items,
                        v == list_view(items@),
                        st == items_counted(self, v.take(i as int), key@),
                    decreases items@.len() - i,
                {
                    assert(v.take(i + 1).drop_last() =~= v.take(i as int));
                    st = st.walk(&items[i], key);
                    i += 1;
                }
                assert(v.take(i as int) =~= v);
                st
            },
            Json::Obj(o) => {
                let ghost fv = fields_view(o@);
                let kind = trim(value.str_at("type").as_str());
                let start = self.count_type(kind.as_str());
                let mut st = start;
                let mut i: usize = 0;
                assert(fv.take(0) =~= Seq::empty());
                while i < o.len()
                    invariant
                        i <= o@.len(),
                        *value is Obj && value->Obj_0 == *o,
                        fv == fields_view(o@),
                        st == fields_counted(start, fv.take(i as int)),
                    decreases o@.len() - i,
                {
                    assert(fv.take(i + 1).drop_last() =~= fv.take(i as int));
                    st = st.walk(&o[i].1, o[i].0.as_str());
                    i += 1;
                }
                assert(fv.take(i as int) =~= fv);
                st
            },
            _ => self,
        }
    }

    /// The counts that are not zero.
    pub fn into_value(self) -> (r: Json)
        ensures
            r@ == shape_json(self),
    {
        let mut o = Json::object();
        set_nonzero(&mut o, "response_message_items", self.response_message_items);
        set_nonzero(&mut o, "input_image_parts", self.input_image_parts);
        set_nonzero(&mut o, "image_url_parts", self.image_url_parts);
        set_nonzero(&mut o, "image_parts", self.image_parts);
        set_nonzero(&mut o, "data_url_images", self.data_url_images);
        set_nonzero(&mut o, "remote_image_urls", self.remote_image_urls);
        set_nonzero(&mut o, "literal_image_placeholders", self.literal_image_placeholders);
        o
    }
}

/// The counts of a list of values.
pub open spec fn all_counted(values: Seq<JsonView>) -> ShapeStats
    decreases values.len(),
{
    if values.len() == 0 {
        no_stats()
    } else {
        counted(all_counted(values.drop_last()), values.last(), ""@)
    }
}

/// The models of a list of values.
pub open spec fn refs_view(values: Seq<&Json>) -> Seq<JsonView> {
    values.map_values(|v: &Json| v@)
}

/// The text of a value, where it has any.
pub open spec fn filled_text() -> spec_fn(JsonView) -> Option<Seq<char>> {
    |v: JsonView|
        {
            let t = trimmed(flat_text(v));
            if t.len() > 0 {
                Some(t)
            } else {
                None
            }
        }
}

// ---------------------------------------------------------------------------
// the text that is reviewed
// ---------------------------------------------------------------------------

/// The text without its inlined images.
pub open spec fn without_images(text: Seq<char>) -> Seq<char> {
    joined(between_matches(BASE64_DATA_URI@, text), "[image]"@)
}

/// How many characters of each end of a text that is too long are kept.
pub open spec fn kept_half() -> int {
    (MAX_REVIEW_TEXT_LEN - TRUNCATION_MARKER@.len()) / 2
}

/// A text within the limit: one that is too long loses its middle.
pub open spec fn within_limit(s: Seq<char>) -> Seq<char> {
    if s.len() > MAX_REVIEW_TEXT_LEN {
        s.take(kept_half()) + TRUNCATION_MARKER@ + s.skip(s.len() - kept_half())
    } else {
        s
    }
}

pub proof fn lemma_marker()
    ensures
        TRUNCATION_MARKER@.len() == 15,
        kept_half() == 49_992,
{
    reveal_strlit("\n…[truncated]…\n");
    assert(TRUNCATION_MARKER@.len() == 15);
}

/// How many characters a text that is too long loses.
pub open spec fn cut_chars(s: Seq<char>) -> int {
    if s.len() > MAX_REVIEW_TEXT_LEN {
        s.len() - 2 * kept_half()
    } else {
        0
    }
}

/// Cuts the middle out of a text that is too long, and tells how many characters that were.
pub fn limit_text(s: &str) -> (r: (String, usize))
    ensures
        r.0@ == within_limit(s@),
        r.1 == cut_chars(s@),
{
    proof {
        lemma_marker();
    }
    let v = chars_of(s);
    if v.len() > MAX_REVIEW_TEXT_LEN {
        let half: usize = (MAX_REVIEW_TEXT_LEN - chars_of(TRUNCATION_MARKER).len()) / 2;
        let first = text_between(&v, 0, half);
        let last = text_between(&v, v.len() - half, v.len());
        assert(first@ =~= s@.take(half as int));
        assert(last@ =~= s@.skip(s@.len() - half));
        (cat3(first.as_str(), TRUNCATION_MARKER, last.as_str()), v.len() - 2 * half)
    } else {
        (s.to_owned(), 0)
    }
}

/// The text as it is reviewed, without inlined images and within the limit; how many images it
/// had, and how many characters it lost to the limit.
pub fn sanitize_for_review(text: &str) -> (r: (String, usize, usize))
    ensures
        r.0@ == within_limit(without_images(text@)),
        r.1 + 1 == between_matches(BASE64_DATA_URI@, text@).len(),
        r.2 == cut_chars(without_images(text@)),
{
    let parts = split_by(BASE64_DATA_URI, text);
    assert(views(parts@).len() == parts@.len());
    let bare = join(&parts, "[image]");
    let (kept, lost) = limit_text(bare.as_str());
    (kept, parts.len() - 1, lost)
}

/// A reviewed text is never longer than the limit.
pub proof fn law_review_text_within_limit(s: Seq<char>)
    ensures
        within_limit(s).len() <= MAX_REVIEW_TEXT_LEN,
{
    lemma_marker();
}

// ---------------------------------------------------------------------------
// verdicts
// ---------------------------------------------------------------------------

/// Whether a value counts as true.
pub open spec fn truthy_value(v: Option<JsonView>) -> bool {
    match v {
        None => false,
        Some(JsonView::Null) => false,
        Some(JsonView::Bool(b)) => b,
        Some(JsonView::Num(n)) => non_zero(n),
        Some(JsonView::Str(s)) => s.len() > 0,
        Some(JsonView::Arr(a)) => a.len() > 0,
        Some(JsonView::Obj(o)) => o.len() > 0,
    }
}

/// Decides whether a value counts as true.
pub fn truthy(value: Option<&Json>) -> (r: bool)
    ensures
        r == truthy_value(opt_view(value)),
{
    match value {
        None => false,
        Some(Json::Null) => false,
        Some(Json::Bool(b)) => *b,
        Some(Json::Num(_)) => normalize_bool(value, false),
        Some(Json::Str(s)) => !s.as_str().is_empty(),
        Some(Json::Arr(a)) => a.len() > 0,
        Some(Json::Obj(o)) => o.len() > 0,
    }
}

/// The text of a value that counts as true, else nothing.
pub open spec fn truthy_text(v: Option<JsonView>) -> Seq<char> {
    if truthy_value(v) {
        plain_text(v)
    } else {
        Seq::empty()
    }
}

/// Reads [`truthy_text`].
pub fn or_empty_str(value: Option<&Json>) -> (r: String)
    ensures
        r@ == truthy_text(opt_view(value)),
{
    if truthy(value) {
        text_from(value)
    } else {
        String::new()
    }
}

/// The verdict in the answer of a review, in lower case; none where the answer has another
/// form.
pub open spec fn verdict(data: JsonView) -> Option<Seq<char>> {
    let first = data.items_at("choices"@)[0];
    let content = first.at("message"@).at("content"@);
    if data.items_at("choices"@).len() == 0 || content is Null {
        None
    } else {
        Some(unicode_lower(trimmed(plain_text(Some(content)))))
    }
}

/// Reads the verdict in the answer of a review.
pub fn extract_review_decision(data: &Json) -> (r: Option<String>)
    ensures
        match r {
            Some(d) => verdict(data@) == Some(d@),
            None => verdict(data@) is None,
        },
{
    let choices = data.items_at("choices");
    assert(list_view(choices@).len() == choices@.len());
    if choices.len() == 0 {
        return None;
    }
    let content = choices[0].at("message").at("content");
    if content.is_null() {
        return None;
    }
    Some(to_lower(trim(text_from(Some(&content)).as_str()).as_str()))
}

/// Whether a verdict allows.
pub open spec fn allows(d: Seq<char>) -> bool {
    ||| begins(d, "allow"@)
    ||| begins(d, "pass"@)
    ||| begins(d, "true"@)
    ||| begins(d, "yes"@)
    ||| begins(d, "通过"@)
    ||| begins(d, "允许"@)
    ||| begins(d, "安全"@)
}

/// Whether a verdict allows.
pub fn is_allow_decision(decision: &str) -> (r: bool)
    ensures
        r == allows(decision@),
{
    starts_with(decision, "allow") || starts_with(decision, "pass") || starts_with(decision, "true")
        || starts_with(decision, "yes") || starts_with(decision, "通过") || starts_with(
        decision,
        "允许",
    ) || starts_with(decision, "安全")
}

/// Whether a verdict rejects.
pub open spec fn rejects(d: Seq<char>) -> bool {
    ||| begins(d, "reject"@)
    ||| begins(d, "deny"@)
    ||| begins(d, "block"@)
    ||| begins(d, "false"@)
    ||| begins(d, "no"@)
    ||| begins(d, "拒绝"@)
    ||| begins(d, "不允许"@)
    ||| begins(d, "违规"@)
    ||| begins(d, "禁止"@)
}

/// Whether a verdict rejects.
pub fn is_reject_decision(decision: &str) -> (r: bool)
    ensures
        r == rejects(decision@),
{
    starts_with(decision, "reject") || starts_with(decision, "deny") || starts_with(
        decision,
        "block",
    ) || starts_with(decision, "false") || starts_with(decision, "no") || starts_with(
        decision,
        "拒绝",
    ) || starts_with(decision, "不允许") || starts_with(decision, "违规") || starts_with(
        decision,
        "禁止",
    )
}

/// Whether a review that fails lets the request pass; it does unless it is told otherwise.
pub open spec fn fails_open(review: JsonView) -> bool {
    match review.get("fail_open"@) {
        None => true,
        Some(JsonView::Null) => true,
        Some(JsonView::Bool(b)) => b,
        Some(JsonView::Str(s)) => {
            let t = unicode_lower(trimmed(s));
            t == "1"@ || t == "true"@ || t == "yes"@ || t == "on"@
        },
        other => truthy_value(other),
    }
}

/// Decides [`fails_open`].
pub fn resolve_fail_open(review: &Json) -> (r: bool)
    ensures
        r == fails_open(review@),
{
    match review.get("fail_open") {
        None => true,
        Some(Json::Null) => true,
        Some(Json::Bool(b)) => *b,
        Some(Json::Str(s)) => {
            let t = to_lower(trim(s.as_str()).as_str());
            let t = t.as_str();
            same(t, "1") || same(t, "true") || same(t, "yes") || same(t, "on")
        },
        other => truthy(other),
    }
}

/// Whether a refusal has a status and a message.
pub open spec fn is_refusal(r: Result<(), ContentFilterError>, status: u16, detail: Seq<char>) -> bool {
    r matches Err(e) && e.status_code == status && e.detail@ == detail
}

/// The answer where a review failed.
pub fn on_failure(fail_open: bool) -> (r: Result<(), ContentFilterError>)
    ensures
        if fail_open {
            r is Ok
        } else {
            is_refusal(r, 503, "AI 审核服务暂时不可用，请稍后重试"@)
        },
{
    if fail_open {
        Ok(())
    } else {
        Err(ContentFilterError::new(503, "AI 审核服务暂时不可用，请稍后重试"))
    }
}

/// Whether the answer of a review lets a request pass; the answer is `null` where it could not
/// be had or is no JSON.
pub open spec fn review_passes(data: JsonView, fail_open: bool) -> bool {
    match verdict(data) {
        Some(d) => allows(d) || (!rejects(d) && fail_open),
        None => fail_open,
    }
}

/// Judges a request by the answer of its review.
pub fn judge(data: &Json, fail_open: bool) -> (r: Result<(), ContentFilterError>)
    ensures
        r is Ok <==> review_passes(data@, fail_open),
        r is Err ==> (if verdict(data@) matches Some(d) && rejects(d) {
            is_refusal(r, 400, "AI 审核未通过，拒绝本次任务"@)
        } else {
            is_refusal(r, 503, "AI 审核服务暂时不可用，请稍后重试"@)
        }),
        verdict(data@) matches Some(d) ==> begins(d, "reject"@) || begins(d, "拒绝"@) || begins(
            d,
            "违规"@,
        ) ==> is_refusal(r, 400, "AI 审核未通过，拒绝本次任务"@),
        verdict(data@) matches Some(d) ==> begins(d, "allow"@) || begins(d, "通过"@) ==> r is Ok,
{
    proof {
        match verdict(data@) {
            Some(d) => crate::request_laws::law_review_decides(data@, d, fail_open),
            None => {},
        }
    }
    match extract_review_decision(data) {
        Some(d) => {
            if is_allow_decision(d.as_str()) {
                Ok(())
            } else if is_reject_decision(d.as_str()) {
                Err(ContentFilterError::new(400, "AI 审核未通过，拒绝本次任务"))
            } else {
                on_failure(fail_open)
            }
        },
        None => on_failure(fail_open),
    }
}

/// Judges a request by the body of the answer to its review.
pub fn judge_body(body: &str, fail_open: bool) -> (r: Result<(), ContentFilterError>)
    ensures
        ({
            let data = crate::refresh::body_value(body@);
            &&& r is Ok <==> review_passes(data, fail_open)
            &&& r is Err ==> (if verdict(data) matches Some(d) && rejects(d) {
                is_refusal(r, 400, "AI 审核未通过，拒绝本次任务"@)
            } else {
                is_refusal(r, 503, "AI 审核服务暂时不可用，请稍后重试"@)
            })
        }),
{
    let data = crate::refresh::parse_body(body);
    judge(&data, fail_open)
}

// ---------------------------------------------------------------------------
// screening
// ---------------------------------------------------------------------------

/// A review to be asked for.
pub struct Review {
    /// Where to ask.
    pub url: String,
    /// The key to ask with.
    pub api_key: String,
    /// What to send.
    pub payload: Json,
    /// Whether the request passes where the review fails.
    pub fail_open: bool,
}

/// What screening comes to before a review.
pub enum Screening {
    /// The request passes.
    Pass,
    /// The request is refused.
    Refuse(ContentFilterError),
    /// The request is to be reviewed.
    Ask(Review),
}

/// Whether a text holds one of some words.
pub open spec fn holds_word(text: Seq<char>, words: Seq<Seq<char>>) -> bool {
    exists|i: int| 0 <= i < words.len() && occurs(text, #[trigger] words[i])
}

/// The instruction of a review.
pub open spec fn review_prompt(review: JsonView) -> Seq<char> {
    trimmed(or_else(truthy_text(review.get("prompt"@)), DEFAULT_REVIEW_PROMPT@))
}

/// What a review is asked.
pub open spec fn review_question(review: JsonView, text: Seq<char>) -> Seq<char> {
    review_prompt(review) + "\n\n用户请求:\n"@ + within_limit(without_images(text))
        + "\n\n只回答 ALLOW 或 REJECT。"@
}

/// What is sent for a review.
pub open spec fn review_payload(model: Seq<char>, question: Seq<char>) -> JsonView {
    empty_object().put("model"@, JsonView::Str(model)).put(
        "messages"@,
        JsonView::Arr(
            seq![
                empty_object().put("role"@, JsonView::Str("user"@)).put(
                    "content"@,
                    JsonView::Str(question),
                ),
            ],
        ),
    ).put("temperature"@, int_json(0))
}

/// The content filter.
pub struct ContentFilter;

impl ContentFilter {
    /// The texts of some values that have any, one under the other.
    pub fn request_text(values: &[&Json]) -> (r: String)
        ensures
            r@ == joined(refs_view(values@).filter_map(filled_text()), "\n"@),
    {
        let ghost v = refs_view(values@);
        let ghost f = filled_text();
        let mut parts: Vec<String> = Vec::new();
        let mut i: usize = 0;
        assert(v.take(0).filter_map(f) =~= Seq::empty());
        assert(views(parts@) =~= Seq::empty());
        while i < values.len()
            invariant
                i <= values@.len(),
                v == refs_view(values@),
                f == filled_text(),
                views(parts@) == v.take(i as int).filter_map(f),
            decreases values@.len() - i,
        {
            proof {
                v.lemma_filter_map_take_succ(f, i as int);
            }
            let ghost done = views(parts@);
            let t = trim(text_of(values[i]).as_str());
            if !t.as_str().is_empty() {
                let ghost tv = t@;
                parts.push(t);
                assert(views(parts@) =~= done + seq![tv]);
            }
            assert(views(parts@) =~= v.take(i + 1).filter_map(f));
            i += 1;
        }
        assert(v.take(i as int) =~= v);
        join(&parts, "\n")
    }

    /// What kinds of parts some values have, without their contents.
    pub fn request_shape(values: &[&Json]) -> (r: Json)
        ensures
            r@ == shape_json(all_counted(refs_view(values@))),
    {
        let mut st = ShapeStats {
            response_message_items: 0,
            input_image_parts: 0,
            image_url_parts: 0,
            image_parts: 0,
            data_url_images: 0,
            remote_image_urls: 0,
            literal_image_placeholders: 0,
        };
        let ghost v = refs_view(values@);
        let mut i: usize = 0;
        while i < values.len()
            invariant
                i <= values@.len(),
                v == refs_view(values@),
                st == all_counted(v.take(i as int)),
            decreases values@.len() - i,
        {
            assert(v.take(i + 1).drop_last() =~= v.take(i as int));
            st = st.walk(values[i], "");
            i += 1;
        }
        assert(v.take(i as int) =~= v);
        st.into_value()
    }

    /// Screens the text of a request: an empty one passes, a forbidden word refuses it, and a
    /// review that is switched on is asked, where its settings are complete.
    pub fn check_request(text: &str, words: &Vec<String>, review: &Json) -> (r: Screening)
        ensures
            ({
                let url = skip_back(
                    trimmed(truthy_text(review@.get("base_url"@))),
                    CharClass::Just('/'),
                );
                let key = trimmed(truthy_text(review@.get("api_key"@)));
                let model = trimmed(truthy_text(review@.get("model"@)));
                if trimmed(text@).len() == 0 {
                    r is Pass
                } else if holds_word(text@, views(words@)) {
                    r matches Screening::Refuse(e) && e.status_code == 400 && e.detail@
                        == "检测到敏感词，拒绝本次任务"@
                } else if !truthy_value(review@.get("enabled"@)) {
                    r is Pass
                } else if url.len() == 0 || key.len() == 0 || model.len() == 0 {
                    r matches Screening::Refuse(e) && e.status_code == 400 && e.detail@
                        == "ai review config is incomplete"@
                } else {
                    r matches Screening::Ask(a) && {
                        &&& a.url@ == url + "/v1/chat/completions"@
                        &&& a.api_key@ == key
                        &&& a.payload@ == review_payload(model, review_question(review@, text@))
                        &&& a.fail_open == fails_open(review@)
                    }
                }
            }),
            trimmed(text@).len() > 0 ==> forall|i: int|
                0 <= i < words@.len() && occurs(text@, (#[trigger] words@[i])@) ==> r is Refuse,
            r is Pass && trimmed(text@).len() > 0 ==> !truthy_value(review@.get("enabled"@)),
            r matches Screening::Ask(a) ==> {
                let q = a.payload@.items_at("messages"@)[0].str_at("content"@);
                &&& occurs(q, within_limit(without_images(text@)))
                &&& a.payload@.str_at("model"@) == trimmed(truthy_text(review@.get("model"@)))
            },
    {
        if trim(text).as_str().is_empty() {
            return Screening::Pass;
        }
        let mut i: usize = 0;
        while i < words.len()
            invariant
                i <= words@.len(),
                trimmed(text@).len() > 0,
                forall|j: int| 0 <= j < i ==> !occurs(text@, #[trigger] views(words@)[j]),
            decreases words@.len() - i,
        {
            assert(views(words@)[i as int] == words@[i as int]@);
            if contains(text, words[i].as_str()) {
                assert(holds_word(text@, views(words@)));
                return Screening::Refuse(
                    ContentFilterError::new(400, "检测到敏感词，拒绝本次任务"),
                );
            }
            i += 1;
        }
        assert(!holds_word(text@, views(words@)));
        assert forall|i: int| 0 <= i < words@.len() implies !occurs(text@, (#[trigger] words@[i])@) by {
            assert(views(words@)[i] == words@[i]@);
        }
        if !truthy(review.get("enabled")) {
            return Screening::Pass;
        }
        let base_url = trim_back(
            trim(or_empty_str(review.get("base_url")).as_str()).as_str(),
            CharClass::Just('/'),
        );
        let api_key = trim(or_empty_str(review.get("api_key")).as_str());
        let model = trim(or_empty_str(review.get("model")).as_str());
        if base_url.as_str().is_empty() || api_key.as_str().is_empty() || model.as_str().is_empty() {
            return Screening::Refuse(
                ContentFilterError::new(400, "ai review config is incomplete"),
            );
        }
        let (reviewed, _, _) = sanitize_for_review(text);
        let prompt = trim(
            non_empty_or(or_empty_str(review.get("prompt")), DEFAULT_REVIEW_PROMPT).as_str(),
        );
        let mut question = cat3(prompt.as_str(), "\n\n用户请求:\n", reviewed.as_str());
        question.append("\n\n只回答 ALLOW 或 REJECT。");
        let mut message = Json::object();
        message.set("role", Json::from_text("user"));
        message.set("content", Json::Str(question));
        let ghost mv = message@;
        let mut messages: Vec<Json> = Vec::new();
        messages.push(message);
        assert(list_view(messages@) =~= seq![mv]);
        let mut payload = Json::object();
        payload.set("model", Json::Str(model));
        payload.set("messages", Json::Arr(messages));
        payload.set("temperature", Json::from_int(0));
        proof {
            crate::request_laws::law_review_question(
                review@,
                text@,
                trimmed(truthy_text(review@.get("model"@))),
            );
        }
        Screening::Ask(
            Review {
                url: cat(base_url.as_str(), "/v1/chat/completions"),
                api_key,
                payload,
                fail_open: resolve_fail_open(review),
            },
        )
    }
}

/// A review that fails open refuses a request only by a verdict that rejects it.
pub proof fn law_fails_open(data: JsonView)
    ensures
        !review_passes(data, true) ==> verdict(data) is Some && rejects(verdict(data)->0),
        verdict(data) is None ==> review_passes(data, true) && !review_passes(data, false),
{
}

/// A review section that says nothing of failures fails open.
pub proof fn law_open_by_default(review: JsonView)
    requires
        review.get("fail_open"@) is None,
    ensures
        fails_open(review),
{
}

} // verus!
