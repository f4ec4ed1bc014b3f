//! The calls of the public interface: what each is about, and how it is refused.
use vstd::prelude::*;

use crate::ai::{str_field, text_field};
use crate::content_filter::{filled_text, refs_view, ContentFilter, ContentFilterError};
use crate::error::{message_detail, AppError};
use crate::text::{joined, trim, trimmed};
use crate::value::{empty_object, Json, JsonView};

verus! {

broadcast use crate::value::group_json;

/// A call of the public interface.
#[derive(Clone, Copy, PartialEq, Eq, Structural)]
pub enum Endpoint {
    Images,
    Chat,
    Responses,
    Messages,
    Search,
    Ppt,
    Psd,
}

impl Endpoint {
    /// The path of a call.
    pub open spec fn path_text(self) -> Seq<char> {
        match self {
            Endpoint::Images => "/v1/images/generations"@,
            Endpoint::Chat => "/v1/chat/completions"@,
            Endpoint::Responses => "/v1/responses"@,
            Endpoint::Messages => "/v1/messages"@,
            Endpoint::Search => "/v1/search"@,
            Endpoint::Ppt => "/v1/ppt/generations"@,
            Endpoint::Psd => "/v1/psd/generations"@,
        }
    }

    /// The path of a call.
    pub fn path(self) -> (r: &'static str)
        ensures
            r@ == self.path_text(),
    {
        match self {
            Endpoint::Images => "/v1/images/generations",
            Endpoint::Chat => "/v1/chat/completions",
            Endpoint::Responses => "/v1/responses",
            Endpoint::Messages => "/v1/messages",
            Endpoint::Search => "/v1/search",
            Endpoint::Ppt => "/v1/ppt/generations",
            Endpoint::Psd => "/v1/psd/generations",
        }
    }

    /// What a call is logged as.
    pub open spec fn summary_text(self) -> Seq<char> {
        match self {
            Endpoint::Images => "文生图"@,
            Endpoint::Chat => "文本生成"@,
            Endpoint::Responses => "Responses"@,
            Endpoint::Messages => "Messages"@,
            Endpoint::Search => "搜索"@,
            Endpoint::Ppt => "PPT生成任务"@,
            Endpoint::Psd => "PSD生成任务"@,
        }
    }

    /// What a call is logged as.
    pub fn summary(self) -> (r: &'static str)
        ensures
            r@ == self.summary_text(),
    {
        match self {
            Endpoint::Images => "文生图",
            Endpoint::Chat => "文本生成",
            Endpoint::Responses => "Responses",
            Endpoint::Messages => "Messages",
            Endpoint::Search => "搜索",
            Endpoint::Ppt => "PPT生成任务",
            Endpoint::Psd => "PSD生成任务",
        }
    }

    /// Whether a call needs a prompt.
    pub open spec fn wants_prompt(self) -> bool {
        self == Endpoint::Images || self == Endpoint::Search
    }

    /// The model that a call names; `search_model` is that of searches.
    pub open spec fn model_of(self, body: JsonView, search_model: Seq<char>) -> Seq<char> {
        match self {
            Endpoint::Images => text_field(body, "model"@, "gpt-image-2"@),
            Endpoint::Search => search_model,
            Endpoint::Ppt => "gpt-5-5-thinking"@,
            Endpoint::Psd => "gpt-5-5-thinking"@,
            _ => text_field(body, "model"@, "auto"@),
        }
    }

    /// The text of a call that is reviewed.
    pub open spec fn reviewed_text(self, body: JsonView) -> Seq<char> {
        match self {
            Endpoint::Images => trimmed(body.str_at("prompt"@)),
            Endpoint::Chat => text_in(seq![body.at("prompt"@), body.at("messages"@)]),
            Endpoint::Responses => text_in(seq![body.at("input"@), body.at("instructions"@)]),
            Endpoint::Messages => text_in(
                seq![body.at("system"@), body.at("messages"@), body.at("tools"@)],
            ),
            _ => body.str_at("prompt"@),
        }
    }
}

/// The texts of values, one under the other.
pub open spec fn text_in(values: Seq<JsonView>) -> Seq<char> {
    joined(values.filter_map(filled_text()), "\n"@)
}

/// What a call is about.
pub struct CallPlan {
    pub model: String,
    /// The text that is reviewed.
    pub text: String,
}

fn text_of_two(a: &Json, b: &Json) -> (r: String)
    ensures
        r@ == text_in(seq![a@, b@]),
{
    let values = [a, b];
    assert(refs_view(values@) =~= seq![a@, b@]);
    ContentFilter::request_text(values.as_slice())
}

fn text_of_three(a: &Json, b: &Json, c: &Json) -> (r: String)
    ensures
        r@ == text_in(seq![a@, b@, c@]),
{
    let values = [a, b, c];
    assert(refs_view(values@) =~= seq![a@, b@, c@]);
    ContentFilter::request_text(values.as_slice())
}

/// Reads what a call is about. A call that needs a prompt is refused without one.
pub fn plan_call(endpoint: Endpoint, body: &Json, search_model: &str) -> (r: Result<CallPlan, AppError>)
    ensures
        if endpoint.wants_prompt() && trimmed(body@.str_at("prompt"@)).len() == 0 {
            r matches Err(e) && e.status == 400 && e.detail@ == message_detail(
                "prompt is required"@,
            ) && e.headers@.len() == 0 && e.path is Some && e.path->0@ == endpoint.path_text()
        } else {
            r matches Ok(p) && p.model@ == endpoint.model_of(body@, search_model@) && p.text@
                == endpoint.reviewed_text(body@)
        },
{
    let prompt = body.str_at("prompt");
    let bare = trim(prompt.as_str());
    let wants = match endpoint {
        Endpoint::Images => true,
        Endpoint::Search => true,
        _ => false,
    };
    if wants && bare.as_str().is_empty() {
        return Err(AppError::bad_request("prompt is required").with_path(endpoint.path()));
    }
    let model = match endpoint {
        Endpoint::Images => str_field(body, "model", "gpt-image-2"),
        Endpoint::Search => search_model.to_owned(),
        Endpoint::Ppt => "gpt-5-5-thinking".to_owned(),
        Endpoint::Psd => "gpt-5-5-thinking".to_owned(),
        _ => str_field(body, "model", "auto"),
    };
    let text = match endpoint {
        Endpoint::Images => bare,
        Endpoint::Chat => text_of_two(&body.at("prompt"), &body.at("messages")),
        Endpoint::Responses => text_of_two(&body.at("input"), &body.at("instructions")),
        Endpoint::Messages => text_of_three(
            &body.at("system"),
            &body.at("messages"),
            &body.at("tools"),
        ),
        _ => prompt,
    };
    Ok(CallPlan { model, text })
}

/// The status of a refusal; 400 for one that is no status.
pub open spec fn refusal_status(code: u16) -> u16 {
    if 100 <= code <= 999 {
        code
    } else {
        400
    }
}

/// The error with which a call is refused; without a path it is none of the public interface.
pub fn refused_call(err: &ContentFilterError, endpoint: Option<&str>) -> (r: AppError)
    ensures
        r.status == refusal_status(err.status_code),
        100 <= err.status_code <= 999 ==> r.status == err.status_code,
        err.status_code < 100 || err.status_code > 999 ==> r.status == 400,
        r.detail@ == message_detail(err.detail@),
        r.headers@.len() == 0,
        match endpoint {
            Some(p) => r.path is Some && r.path->0@ == p@,
            None => r.path is None,
        },
{
    let code: u16 = if 100 <= err.status_code && err.status_code <= 999 {
        err.status_code
    } else {
        400
    };
    let e = AppError::message(code, err.detail.as_str());
    match endpoint {
        Some(p) => e.with_path(p),
        None => e,
    }
}

/// What is noted of a call that failed.
pub fn failure_note(error: Json) -> (r: Json)
    ensures
        r@ == empty_object().put("error"@, error@),
{
    let mut o = Json::object();
    o.set("error", error);
    o
}

} // verus!
