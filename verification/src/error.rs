//! The error that a request is answered with, and the bodies in which it is rendered.
use vstd::prelude::*;

use crate::json::non_empty_or;
use crate::text::{begins, cat3, join, joined, same, starts_with, trim, trimmed, views};
use crate::value::{compact, empty_object, list_view, or_else, Json, JsonView};

verus! {

broadcast use crate::value::group_json;

/// The error that a request is answered with.
pub struct AppError {
    /// The HTTP status.
    pub status: u16,
    /// A message, or an object with details.
    pub detail: Json,
    /// Headers that go with the answer.
    pub headers: Vec<(String, String)>,
    /// The path of the request, where it decides the form of the body.
    pub path: Option<String>,
}

/// The detail that holds just a message.
pub open spec fn message_detail(msg: Seq<char>) -> JsonView {
    empty_object().put("error"@, JsonView::Str(msg))
}

impl AppError {
    /// An error with the given status and detail, no headers and no path.
    pub open spec fn is_plain(self, status: u16, detail: JsonView) -> bool {
        self.status == status && self.detail@ == detail && self.headers@.len() == 0
            && self.path is None
    }

    pub fn new(status: u16, detail: Json) -> (r: AppError)
        ensures
            r.is_plain(status, detail@),
    {
        AppError { status, detail, headers: Vec::new(), path: None }
    }

    pub fn message(status: u16, msg: &str) -> (r: AppError)
        ensures
            r.is_plain(status, message_detail(msg@)),
    {
        let mut detail = Json::object();
        detail.set("error", Json::from_text(msg));
        AppError::new(status, detail)
    }

    pub fn bad_request(msg: &str) -> (r: AppError)
        ensures
            r.is_plain(400, message_detail(msg@)),
    {
        AppError::message(400, msg)
    }

    pub fn unauthorized(msg: &str) -> (r: AppError)
        ensures
            r.is_plain(401, message_detail(msg@)),
    {
        AppError::message(401, msg)
    }

    pub fn forbidden(msg: &str) -> (r: AppError)
        ensures
            r.is_plain(403, message_detail(msg@)),
    {
        AppError::message(403, msg)
    }

    pub fn not_found(msg: &str) -> (r: AppError)
        ensures
            r.is_plain(404, message_detail(msg@)),
    {
        AppError::message(404, msg)
    }

    pub fn upstream(msg: &str) -> (r: AppError)
        ensures
            r.is_plain(502, message_detail(msg@)),
    {
        AppError::message(502, msg)
    }

    pub fn internal(msg: &str) -> (r: AppError)
        ensures
            r.is_plain(500, message_detail(msg@)),
    {
        AppError::message(500, msg)
    }

    /// The error with one more header.
    pub fn with_header(self, key: &str, value: &str) -> (r: AppError)
        ensures
            r.status == self.status,
            r.detail == self.detail,
            r.path == self.path,
            r.headers@.len() == self.headers@.len() + 1,
            r.headers@.drop_last() == self.headers@,
            r.headers@.last().0@ == key@,
            r.headers@.last().1@ == value@,
    {
        let mut headers = self.headers;
        headers.push((key.to_owned(), value.to_owned()));
        assert(headers@.drop_last() =~= self.headers@);
        AppError { status: self.status, detail: self.detail, headers, path: self.path }
    }

    /// The error of a request to `path`.
    pub fn with_path(self, path: &str) -> (r: AppError)
        ensures
            r.status == self.status,
            r.detail == self.detail,
            r.headers == self.headers,
            r.path matches Some(p) && p@ == path@,
    {
        AppError {
            status: self.status,
            detail: self.detail,
            headers: self.headers,
            path: Some(path.to_owned()),
        }
    }

    /// The error as text: the status, which the caller names, and the message.
    pub fn to_text(&self, status: &str) -> (r: String)
        ensures
            r@ == status@ + ": "@ + detail_message(self.detail@),
    {
        cat3(status, ": ", error_message_from_detail(&self.detail).as_str())
    }

    /// The body of the answer.
    pub fn body(&self) -> (r: Json)
        ensures
            ({
                let path = crate::account::opt_text(self.path);
                r@ == if path == "/v1/messages"@ {
                    anthropic_body(self.detail@, self.status)
                } else if openai_path(path) {
                    openai_body(self.detail@, self.status)
                } else {
                    empty_object().put("detail"@, self.detail@)
                }
            }),
    {
        let path = crate::account::text_or_empty(&self.path);
        if is_anthropic_messages_path(path.as_str()) {
            anthropic_error_payload(&self.detail, self.status)
        } else if is_openai_compatible_path(path.as_str()) {
            openai_error_payload(&self.detail, self.status)
        } else {
            let mut o = Json::object();
            o.set("detail", self.detail.copy());
            o
        }
    }
}

/// Whether a path belongs to the OpenAI-compatible interface.
pub open spec fn openai_path(path: Seq<char>) -> bool {
    path == "/v1"@ || begins(path, "/v1/"@)
}

/// Whether a path belongs to the OpenAI-compatible interface.
pub fn is_openai_compatible_path(path: &str) -> (r: bool)
    ensures
        r == openai_path(path@),
{
    same(path, "/v1") || starts_with(path, "/v1/")
}

/// Whether a path is that of the Anthropic-compatible interface.
pub fn is_anthropic_messages_path(path: &str) -> (r: bool)
    ensures
        r == (path@ == "/v1/messages"@),
{
    same(path, "/v1/messages")
}

/// The message that a value holds: a string itself, or an object's `message`, else what its
/// `error` holds.
pub open spec fn value_message(v: JsonView) -> Seq<char>
    decreases v,
{
    match v {
        JsonView::Str(s) => s,
        JsonView::Obj(o) => if v.str_at("message"@).len() > 0 {
            v.str_at("message"@)
        } else {
            nested_message(o, "error"@)
        },
        _ => Seq::empty(),
    }
}

/// The message that the first field named `k` holds.
pub open spec fn nested_message(o: Seq<(Seq<char>, JsonView)>, k: Seq<char>) -> Seq<char>
    decreases o,
{
    if o.len() == 0 {
        Seq::empty()
    } else if o[0].0 == k {
        value_message(o[0].1)
    } else {
        nested_message(o.drop_first(), k)
    }
}

/// The message of a named field is that of the value that is found under its name.
pub proof fn law_nested_message(o: Seq<(Seq<char>, JsonView)>, k: Seq<char>)
    ensures
        nested_message(o, k) == (match crate::assoc::lookup(o, k) {
            Some(v) => value_message(v),
            None => Seq::empty(),
        }),
    decreases o.len(),
{
    if o.len() > 0 && o[0].0 != k {
        law_nested_message(o.drop_first(), k);
    }
}

fn message_from_fields(o: &Vec<(String, Json)>, from: usize) -> (r: String)
    requires
        from <= o@.len(),
    ensures
        r@ == nested_message(crate::value::fields_view(o@).skip(from as int), "error"@),
    decreases o, o@.len() - from,
{
    let ghost fv = crate::value::fields_view(o@);
    if from == o.len() {
        return String::new();
    }
    assert(fv.skip(from as int)[0] == (o@[from as int].0@, o@[from as int].1@));
    assert(fv.skip(from as int).drop_first() =~= fv.skip(from + 1));
    if same(o[from].0.as_str(), "error") {
        message_from_value(&o[from].1)
    } else {
        message_from_fields(o, from + 1)
    }
}

fn message_from_value(value: &Json) -> (r: String)
    ensures
        r@ == value_message(value@),
    decreases value, 0nat,
{
    match value {
        Json::Str(s) => s.clone(),
        Json::Obj(o) => {
            let own = value.str_at("message");
            if !own.as_str().is_empty() {
                own
            } else {
                assert(crate::value::fields_view(o@).skip(0) =~= crate::value::fields_view(o@));
                message_from_fields(o, 0)
            }
        },
        _ => String::new(),
    }
}

/// One step of a location.
pub open spec fn step_text() -> spec_fn(JsonView) -> Option<Seq<char>> {
    |p: JsonView|
        {
            let s = match p {
                JsonView::Str(s) => s,
                other => compact(other),
            };
            if s == "body"@ {
                None
            } else {
                Some(s)
            }
        }
}

/// Where in a request a fault lies: the steps to it, without the body itself.
pub open spec fn location(v: JsonView) -> Seq<char> {
    joined(v.items_at("loc"@).filter_map(step_text()), "."@)
}

fn location_of(v: &Json) -> (r: String)
    ensures
        r@ == location(v@),
{
    let parts = v.items_at("loc");
    let ghost pv = list_view(parts@);
    let ghost f = step_text();
    let mut out: Vec<String> = Vec::new();
    let mut i: usize = 0;
    assert(pv.take(0).filter_map(f) =~= Seq::empty());
    assert(views(out@) =~= Seq::empty());
    while i < parts.len()
        invariant
            i <= parts@.len(),
            pv == list_view(parts@),
            f == step_text(),
            views(out@) == pv.take(i as int).filter_map(f),
        decreases parts@.len() - i,
    {
        proof {
            pv.lemma_filter_map_take_succ(f, i as int);
        }
        let ghost done = views(out@);
        let s = match &parts[i] {
            Json::Str(s) => s.clone(),
            other => other.to_text(),
        };
        if !same(s.as_str(), "body") {
            let ghost sv = s@;
            out.push(s);
            assert(views(out@) =~= done + seq![sv]);
        }
        assert(views(out@) =~= pv.take(i + 1).filter_map(f));
        i += 1;
    }
    assert(pv.take(i as int) =~= pv);
    join(&out, ".")
}

/// The text of one fault: its message, behind its location where it has one.
pub open spec fn fault_text() -> spec_fn(JsonView) -> Option<Seq<char>> {
    |v: JsonView|
        {
            let msg = trimmed(v.str_at("msg"@));
            if v is Obj && msg.len() > 0 {
                Some(
                    if location(v).len() > 0 {
                        location(v) + ": "@ + msg
                    } else {
                        msg
                    },
                )
            } else {
                None
            }
        }
}

/// The message of an error's detail: the faults of a list, the message of an object, the text
/// of anything else.
pub open spec fn detail_message(detail: JsonView) -> Seq<char> {
    match detail {
        JsonView::Arr(items) => joined(items.filter_map(fault_text()), "; "@),
        JsonView::Obj(_) => or_else(value_message(detail.at("error"@)), value_message(detail)),
        JsonView::Str(s) => s,
        JsonView::Null => Seq::empty(),
        other => compact(other),
    }
}

fn faults_of(items: &Vec<Json>) -> (r: String)
    ensures
        r@ == joined(list_view(items@).filter_map(fault_text()), "; "@),
{
    let ghost v = list_view(items@);
    let ghost f = fault_text();
    let mut out: Vec<String> = Vec::new();
    let mut i: usize = 0;
    assert(v.take(0).filter_map(f) =~= Seq::empty());
    assert(views(out@) =~= Seq::empty());
    while i < items.len()
        invariant
            i <= items@.len(),
            v == list_view(items@),
            f == fault_text(),
            views(out@) == v.take(i as int).filter_map(f),
        decreases items@.len() - i,
    {
        proof {
            v.lemma_filter_map_take_succ(f, i as int);
        }
        let ghost done = views(out@);
        let item = &items[i];
        if item.is_object() {
            let place = location_of(item);
            let msg = trim(item.str_at("msg").as_str());
            if !msg.as_str().is_empty() {
                let text = if place.as_str().is_empty() {
                    msg
                } else {
                    cat3(place.as_str(), ": ", msg.as_str())
                };
                let ghost tv = text@;
                out.push(text);
                assert(views(out@) =~= done + seq![tv]);
            }
        }
        assert(views(out@) =~= v.take(i + 1).filter_map(f));
        i += 1;
    }
    assert(v.take(i as int) =~= v);
    join(&out, "; ")
}

/// The message of an error's detail.
pub fn error_message_from_detail(detail: &Json) -> (r: String)
    ensures
        r@ == detail_message(detail@),
{
    match detail {
        Json::Arr(items) => faults_of(items),
        Json::Obj(_) => {
            let whole = message_from_value(detail);
            non_empty_or(message_from_value(&detail.at("error")), whole.as_str())
        },
        Json::Str(s) => s.clone(),
        Json::Null => String::new(),
        other => other.to_text(),
    }
}

/// The kind of error that a status stands for.
pub open spec fn error_type(status: u16) -> Seq<char> {
    if status == 401 {
        "authentication_error"@
    } else if status == 403 {
        "permission_error"@
    } else if status == 429 {
        "rate_limit_error"@
    } else if 400 <= status <= 499 {
        "invalid_request_error"@
    } else {
        "server_error"@
    }
}

/// The kind of error that a status stands for.
pub fn default_error_type(status_code: u16) -> (r: &'static str)
    ensures
        r@ == error_type(status_code),
{
    if status_code == 401 {
        "authentication_error"
    } else if status_code == 403 {
        "permission_error"
    } else if status_code == 429 {
        "rate_limit_error"
    } else if 400 <= status_code && status_code <= 499 {
        "invalid_request_error"
    } else {
        "server_error"
    }
}

/// The code of error that a status stands for.
pub open spec fn error_code(status: u16) -> Seq<char> {
    if status == 401 {
        "invalid_api_key"@
    } else if status == 403 {
        "permission_denied"@
    } else if status == 429 {
        "rate_limit_exceeded"@
    } else if 400 <= status <= 499 {
        "bad_request"@
    } else {
        "upstream_error"@
    }
}

/// The code of error that a status stands for.
pub fn default_error_code(status_code: u16) -> (r: &'static str)
    ensures
        r@ == error_code(status_code),
{
    if status_code == 401 {
        "invalid_api_key"
    } else if status_code == 403 {
        "permission_denied"
    } else if status_code == 429 {
        "rate_limit_exceeded"
    } else if 400 <= status_code && status_code <= 499 {
        "bad_request"
    } else {
        "upstream_error"
    }
}

/// An error of the OpenAI-compatible interface.
pub open spec fn openai_envelope(
    msg: Seq<char>,
    kind: Seq<char>,
    param: JsonView,
    code: JsonView,
) -> JsonView {
    empty_object().put(
        "error"@,
        empty_object().put("message"@, JsonView::Str(or_else(msg, "request failed"@))).put(
            "type"@,
            JsonView::Str(kind),
        ).put("param"@, param).put("code"@, code),
    )
}

/// The body of an error of the OpenAI-compatible interface: an error object in the detail keeps
/// its type, parameter and code.
pub open spec fn openai_body(detail: JsonView, status: u16) -> JsonView {
    match detail.get("error"@) {
        Some(JsonView::Obj(o)) => {
            let e = JsonView::Obj(o);
            openai_envelope(
                detail_message(e),
                match e.get("type"@) {
                    Some(JsonView::Str(s)) => s,
                    _ => error_type(status),
                },
                e.at("param"@),
                match e.get("code"@) {
                    Some(c) => c,
                    None => JsonView::Str(error_code(status)),
                },
            )
        },
        _ => openai_envelope(
            detail_message(detail),
            error_type(status),
            JsonView::Null,
            JsonView::Str(error_code(status)),
        ),
    }
}

fn make_envelope(msg: String, kind: &str, param: Json, code: Json) -> (r: Json)
    ensures
        r@ == openai_envelope(msg@, kind@, param@, code@),
{
    let mut e = Json::object();
    e.set("message", Json::Str(non_empty_or(msg, "request failed")));
    e.set("type", Json::from_text(kind));
    e.set("param", param);
    e.set("code", code);
    let mut o = Json::object();
    o.set("error", e);
    o
}

/// The body of an error of the OpenAI-compatible interface.
pub fn openai_error_payload(detail: &Json, status_code: u16) -> (r: Json)
    ensures
        r@ == openai_body(detail@, status_code),
{
    match detail.get("error") {
        Some(e) => {
            if e.is_object() {
                let kind = match e.get("type") {
                    Some(Json::Str(s)) => s.clone(),
                    _ => default_error_type(status_code).to_owned(),
                };
                let code = match e.get("code") {
                    Some(c) => c.copy(),
                    None => Json::from_text(default_error_code(status_code)),
                };
                return make_envelope(
                    error_message_from_detail(e),
                    kind.as_str(),
                    e.at("param"),
                    code,
                );
            }
        },
        None => {},
    }
    make_envelope(
        error_message_from_detail(detail),
        default_error_type(status_code),
        Json::Null,
        Json::from_text(default_error_code(status_code)),
    )
}

/// The body of an error of the Anthropic-compatible interface.
pub open spec fn anthropic_body(detail: JsonView, status: u16) -> JsonView {
    empty_object().put("type"@, JsonView::Str("error"@)).put(
        "error"@,
        empty_object().put(
            "type"@,
            JsonView::Str(
                if status >= 500 {
                    "api_error"@
                } else {
                    error_type(status)
                },
            ),
        ).put("message"@, JsonView::Str(or_else(detail_message(detail), "request failed"@))),
    )
}

/// The body of an error of the Anthropic-compatible interface.
pub fn anthropic_error_payload(detail: &Json, status_code: u16) -> (r: Json)
    ensures
        r@ == anthropic_body(detail@, status_code),
{
    let kind = if status_code >= 500 {
        "api_error"
    } else {
        default_error_type(status_code)
    };
    let msg = non_empty_or(error_message_from_detail(detail), "request failed");
    let mut e = Json::object();
    e.set("type", Json::from_text(kind));
    e.set("message", Json::Str(msg));
    let mut o = Json::object();
    o.set("type", Json::from_text("error"));
    o.set("error", e);
    o
}

/// Every error that clients of the two interfaces see has a message.
pub proof fn law_errors_have_messages(detail: JsonView, status: u16)
    ensures
        openai_body(detail, status).at("error"@).str_at("message"@).len() > 0,
        anthropic_body(detail, status).at("error"@).str_at("message"@).len() > 0,
{
    broadcast use crate::value::group_fields;

    reveal_strlit("request failed");
    assert("request failed"@.len() == 14);
    reveal_strlit("error");
    reveal_strlit("message");
    reveal_strlit("type");
    reveal_strlit("param");
    reveal_strlit("code");
    assert("error"@.len() == 5 && "error"@[0] == 'e');
    assert("message"@.len() == 7 && "message"@[0] == 'm');
    assert("type"@.len() == 4 && "type"@[0] == 't');
    assert("param"@.len() == 5 && "param"@[0] == 'p');
    assert("code"@.len() == 4 && "code"@[0] == 'c');
}

} // verus!
