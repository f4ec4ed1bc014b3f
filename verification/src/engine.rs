//! The client of the upstream service: what it sends, and what it makes of the answers.
use vstd::prelude::*;
use vstd::string::StringExecFns;
use vstd::utf8::encode_utf8;

use crate::json::non_empty_or;
use crate::sorting::{field_order, pairs_view, sort_records, sorted};
use crate::text::{
    cat, cat3, contains, decimal, decimal_text, has_text, join, joined, occurs, parse_count,
    parsed_count, same, to_lower, trim, trimmed, unicode_lower, views,
};
use crate::value::{
    compact, empty_object, fields_view, int_json, list_view, opt_str, or_else, Json, JsonView,
};

verus! {

broadcast use crate::value::group_json;

pub const DEFAULT_CLIENT_VERSION: &'static str = "prod-a194cd50d4416d3c0b47c740f206b12ce60f5887";

pub const DEFAULT_CLIENT_BUILD_NUMBER: &'static str = "6708908";

pub const DEFAULT_POW_SCRIPT: &'static str = "https://chatgpt.com/backend-api/sentinel/sdk.js";

pub const CODEX_IMAGE_MODEL: &'static str = "codex-gpt-image-2";

pub const CODEX_RESPONSES_MODEL: &'static str = "gpt-5.5";

pub const SEARCH_MODEL: &'static str = "gpt-5-5";

pub const DEFAULT_USER_AGENT: &'static str =
    "Mozilla/5.0 (Windows NT 10.0; Win64; x64) AppleWebKit/537.36 (KHTML, like Gecko) Chrome/143.0.0.0 Safari/537.36 Edg/143.0.0.0";

// ---------------------------------------------------------------------------
// errors
// ---------------------------------------------------------------------------

/// The words that show a refusal on grounds of policy.
pub open spec fn policy_words() -> Seq<Seq<char>> {
    seq![
        "内容政策"@,
        "防护限制"@,
        "违反"@,
        "moderation"@,
        "policy"@,
        "blocked"@,
        "不能生成"@,
        "无法生成"@,
        "不能帮助"@,
        "无法帮助"@,
        "裸体"@,
        "裸露"@,
        "色情"@,
        "性内容"@,
        "未成年"@,
        "抱歉，我不能"@,
    ]
}

/// Whether a text holds one of the words, in whatever case.
pub open spec fn is_policy_refusal(msg: Seq<char>) -> bool {
    exists|i: int|
        0 <= i < policy_words().len() && #[trigger] occurs(
            unicode_lower(msg),
            unicode_lower(policy_words()[i]),
        )
}

fn policy_list() -> (r: [&'static str; 16])
    ensures
        r@.len() == policy_words().len(),
        forall|i: int| 0 <= i < r@.len() ==> (#[trigger] r@[i])@ == policy_words()[i],
{
    [
        "内容政策",
        "防护限制",
        "违反",
        "moderation",
        "policy",
        "blocked",
        "不能生成",
        "无法生成",
        "不能帮助",
        "无法帮助",
        "裸体",
        "裸露",
        "色情",
        "性内容",
        "未成年",
        "抱歉，我不能",
    ]
}

/// Decides whether a message is a refusal on grounds of policy; an empty one is none.
pub fn is_content_policy_error(error_msg: &str) -> (r: bool)
    ensures
        r == (error_msg@.len() > 0 && is_policy_refusal(error_msg@)),
{
    if error_msg.is_empty() {
        return false;
    }
    let lower = to_lower(error_msg);
    let words = policy_list();
    let mut i: usize = 0;
    while i < 16
        invariant
            i <= 16,
            words@.len() == 16,
            policy_words().len() == 16,
            error_msg@.len() > 0,
            lower@ == unicode_lower(error_msg@),
            forall|k: int| 0 <= k < 16 ==> (#[trigger] words@[k])@ == policy_words()[k],
            forall|k: int|
                0 <= k < i ==> !#[trigger] occurs(lower@, unicode_lower(policy_words()[k])),
        decreases 16 - i,
    {
        assert(words@[i as int]@ == policy_words()[i as int]);
        if contains(lower.as_str(), to_lower(words[i]).as_str()) {
            assert(occurs(unicode_lower(error_msg@), unicode_lower(policy_words()[i as int])));
            return true;
        }
        i += 1;
    }
    false
}

/// An answer with a status that shows a failure.
pub struct UpstreamHttpError {
    pub context: String,
    pub status_code: u16,
    pub body: Json,
    /// After how many seconds to try again.
    pub retry_after: Option<u64>,
}

/// What can go wrong upstream.
pub enum EngineError {
    /// The access token is not accepted.
    InvalidAccessToken(String),
    /// Images did not come in time.
    ImagePollTimeout { message: String, conversation_id: String, task_error: Option<String> },
    /// Images were refused on grounds of policy.
    ImageContentPolicy(String),
    Upstream(UpstreamHttpError),
    Other(String),
}

impl EngineError {
    /// Whether this is another failure with the message `s`.
    pub open spec fn says(self, s: Seq<char>) -> bool {
        self matches EngineError::Other(m) && m@ == s
    }

    /// Another failure.
    pub fn other(msg: &str) -> (r: EngineError)
        ensures
            r.says(msg@),
    {
        EngineError::Other(msg.to_owned())
    }

    /// The error as text; `upstream` is the text of an answer that shows a failure.
    pub fn to_text(&self, upstream: &str) -> (r: String)
        ensures
            r@ == (match self {
                EngineError::InvalidAccessToken(s) => "invalid access token: "@ + s@,
                EngineError::ImagePollTimeout { message, .. } => message@,
                EngineError::ImageContentPolicy(s) => s@,
                EngineError::Upstream(_) => upstream@,
                EngineError::Other(s) => s@,
            }),
    {
        match self {
            EngineError::InvalidAccessToken(s) => cat("invalid access token: ", s.as_str()),
            EngineError::ImagePollTimeout { message, .. } => message.clone(),
            EngineError::ImageContentPolicy(s) => s.clone(),
            EngineError::Upstream(_) => upstream.to_owned(),
            EngineError::Other(s) => s.clone(),
        }
    }
}

/// The failure that a status shows.
pub fn raise_on_error(response_status: u16, path: &str) -> (r: EngineError)
    ensures
        if response_status == 401 {
            r matches EngineError::InvalidAccessToken(s) && s@ == "token invalidated ("@ + path@
                + ")"@
        } else {
            r.says(path@ + " failed: HTTP "@ + decimal(response_status as nat))
        },
{
    if response_status == 401 {
        EngineError::InvalidAccessToken(cat3("token invalidated (", path, ")"))
    } else {
        EngineError::Other(
            cat3(path, " failed: HTTP ", decimal_text(response_status as u128).as_str()),
        )
    }
}

/// The value of a body: what it holds as JSON, or else its text.
pub open spec fn body_of(text: Seq<char>) -> JsonView {
    match crate::json::parsed(encode_utf8(text)) {
        Some(v) => v,
        None => JsonView::Str(text),
    }
}

/// Checks an answer: a status from 200 to 299 will do, any other is a failure with its body and
/// the time after which to try again.
pub fn ensure_ok(status: u16, context: &str, retry_after: Option<&str>, text: &str) -> (r: Result<
    (),
    EngineError,
>)
    ensures
        if 200 <= status < 300 {
            r is Ok
        } else {
            r matches Err(EngineError::Upstream(e)) && e.context@ == context@ && e.status_code
                == status && e.body@ == body_of(text@) && (match (retry_after, e.retry_after) {
                (None, None) => true,
                (None, Some(_)) => false,
                (Some(s), Some(n)) => parsed_count(trimmed(s@)) == Some(n as nat),
                (Some(s), None) => parsed_count(trimmed(s@)) is None,
            })
        },
{
    if status >= 200 && status < 300 {
        return Ok(());
    }
    let after = match retry_after {
        Some(s) => parse_count(trim(s).as_str()),
        None => None,
    };
    let body = match Json::parse(text.as_bytes()) {
        Some(v) => v,
        None => Json::from_text(text),
    };
    Err(
        EngineError::Upstream(
            UpstreamHttpError {
                context: context.to_owned(),
                status_code: status,
                body,
                retry_after: after,
            },
        ),
    )
}

// ---------------------------------------------------------------------------
// the fingerprint
// ---------------------------------------------------------------------------

/// How a client presents itself.
pub struct Fingerprint {
    pub user_agent: String,
    pub impersonate: String,
    pub device_id: String,
    pub session_id: String,
    pub sec_ch_ua: String,
    pub sec_ch_ua_mobile: String,
    pub sec_ch_ua_platform: String,
}

/// The last field that is named `key` in whatever case, as text.
pub open spec fn cased_field(o: Seq<(Seq<char>, JsonView)>, key: Seq<char>) -> Option<Seq<char>>
    decreases o.len(),
{
    if o.len() == 0 {
        None
    } else if unicode_lower(o.last().0) == key {
        Some(
            match o.last().1 {
                JsonView::Str(s) => s,
                other => compact(other),
            },
        )
    } else {
        cased_field(o.drop_last(), key)
    }
}

/// What an account says of a trait of its client: itself, or among its traits.
pub open spec fn client_trait(account: JsonView, key: Seq<char>) -> Option<Seq<char>> {
    if trimmed(account.str_at(key)).len() > 0 {
        Some(trimmed(account.str_at(key)))
    } else {
        match account.get("fp"@) {
            Some(JsonView::Obj(o)) => cased_field(o, key),
            _ => None,
        }
    }
}

/// A trait, or what stands in for it.
pub open spec fn trait_or(t: Option<Seq<char>>, default: Seq<char>) -> Seq<char> {
    match t {
        Some(s) => s,
        None => default,
    }
}

fn read_trait(account: &Json, key: &str, default: &str) -> (r: String)
    ensures
        r@ == trait_or(client_trait(account@, key@), default@),
{
    let own = trim(account.str_at(key).as_str());
    if !own.as_str().is_empty() {
        return own;
    }
    match account.get("fp") {
        Some(Json::Obj(o)) => {
            let ghost fv = fields_view(o@);
            let mut i: usize = o.len();
            assert(fv.take(fv.len() as int) =~= fv);
            while i > 0
                invariant
                    i <= o@.len(),
                    fv == fields_view(o@),
                    client_trait(account@, key@) == cased_field(fv, key@),
                    cased_field(fv, key@) == cased_field(fv.take(i as int), key@),
                decreases i,
            {
                i -= 1;
                assert(fv.take(i + 1).drop_last() =~= fv.take(i as int));
                assert(fv.take(i + 1).last() == (o@[i as int].0@, o@[i as int].1@));
                if same(to_lower(o[i].0.as_str()).as_str(), key) {
                    return match &o[i].1 {
                        Json::Str(s) => s.clone(),
                        other => other.to_text(),
                    };
                }
            }
            assert(fv.take(0) =~= Seq::empty());
            default.to_owned()
        },
        _ => default.to_owned(),
    }
}

/// Makes out how the client of an account presents itself; `device` and `session` name those of
/// an account that names none.
pub fn build_fingerprint(account: &Json, device: &str, session: &str) -> (r: Fingerprint)
    ensures
        r.user_agent@ == trait_or(client_trait(account@, "user-agent"@), DEFAULT_USER_AGENT@),
        r.impersonate@ == trait_or(client_trait(account@, "impersonate"@), "edge101"@),
        r.device_id@ == trait_or(client_trait(account@, "oai-device-id"@), device@),
        r.session_id@ == trait_or(client_trait(account@, "oai-session-id"@), session@),
        r.sec_ch_ua@ == trait_or(
            client_trait(account@, "sec-ch-ua"@),
            "\"Microsoft Edge\";v=\"143\", \"Chromium\";v=\"143\", \"Not A(Brand\";v=\"24\""@,
        ),
        r.sec_ch_ua_mobile@ == trait_or(client_trait(account@, "sec-ch-ua-mobile"@), "?0"@),
        r.sec_ch_ua_platform@ == trait_or(
            client_trait(account@, "sec-ch-ua-platform"@),
            "\"Windows\""@,
        ),
{
    Fingerprint {
        user_agent: read_trait(account, "user-agent", DEFAULT_USER_AGENT),
        impersonate: read_trait(account, "impersonate", "edge101"),
        device_id: read_trait(account, "oai-device-id", device),
        session_id: read_trait(account, "oai-session-id", session),
        sec_ch_ua: read_trait(
            account,
            "sec-ch-ua",
            "\"Microsoft Edge\";v=\"143\", \"Chromium\";v=\"143\", \"Not A(Brand\";v=\"24\"",
        ),
        sec_ch_ua_mobile: read_trait(account, "sec-ch-ua-mobile", "?0"),
        sec_ch_ua_platform: read_trait(account, "sec-ch-ua-platform", "\"Windows\""),
    }
}

/// The browser that a client is like.
#[derive(Clone, Copy, PartialEq, Eq, Structural)]
pub enum Emulation {
    Edge101,
    Edge131,
    Edge134,
}

/// The browser of a name.
pub fn emulation_for(impersonate: &str) -> (r: Emulation)
    ensures
        ({
            let name = unicode_lower(trimmed(impersonate@));
            r == (if name == "edge131"@ {
                Emulation::Edge131
            } else if name == "edge134"@ {
                Emulation::Edge134
            } else {
                Emulation::Edge101
            })
        }),
{
    let name = to_lower(trim(impersonate).as_str());
    if same(name.as_str(), "edge131") {
        Emulation::Edge131
    } else if same(name.as_str(), "edge134") {
        Emulation::Edge134
    } else {
        Emulation::Edge101
    }
}

// ---------------------------------------------------------------------------
// the client
// ---------------------------------------------------------------------------

/// What a conversation needs to be let through.
pub struct ChatRequirements {
    pub token: String,
    pub proof_token: String,
    pub turnstile_token: String,
    pub so_token: String,
    pub raw_finalize: Json,
}

/// A client for one account; without an access token it is nobody's.
pub struct OpenAIBackendAPI {
    pub base_url: String,
    pub access_token: String,
    pub account: Json,
    pub fp: Fingerprint,
    pub pow_script_sources: Vec<String>,
    pub pow_data_build: String,
}

fn pair(k: &str, v: &str) -> (r: (String, String))
    ensures
        r.0@ == k@,
        r.1@ == v@,
{
    (k.to_owned(), v.to_owned())
}

/// The headers of every request.
pub open spec fn base_headers(
    fp: Fingerprint,
    base_url: Seq<char>,
    access_token: Seq<char>,
) -> Seq<(Seq<char>, Seq<char>)> {
    let h = seq![
        ("User-Agent"@, fp.user_agent@),
        ("Origin"@, base_url),
        ("Referer"@, base_url + "/"@),
        ("Accept-Language"@, "zh-CN,zh;q=0.9,en;q=0.8,en-US;q=0.7"@),
        ("Cache-Control"@, "no-cache"@),
        ("Pragma"@, "no-cache"@),
        ("Priority"@, "u=1, i"@),
        ("Sec-Ch-Ua"@, fp.sec_ch_ua@),
        ("Sec-Ch-Ua-Arch"@, "\"x86\""@),
        ("Sec-Ch-Ua-Bitness"@, "\"64\""@),
        ("Sec-Ch-Ua-Full-Version"@, "\"143.0.3650.96\""@),
        (
            "Sec-Ch-Ua-Full-Version-List"@,
            "\"Microsoft Edge\";v=\"143.0.3650.96\", \"Chromium\";v=\"143.0.7499.147\", \"Not A(Brand\";v=\"24.0.0.0\""@,
        ),
        ("Sec-Ch-Ua-Mobile"@, fp.sec_ch_ua_mobile@),
        ("Sec-Ch-Ua-Model"@, "\"\""@),
        ("Sec-Ch-Ua-Platform"@, fp.sec_ch_ua_platform@),
        ("Sec-Ch-Ua-Platform-Version"@, "\"19.0.0\""@),
        ("Sec-Fetch-Dest"@, "empty"@),
        ("Sec-Fetch-Mode"@, "cors"@),
        ("Sec-Fetch-Site"@, "same-origin"@),
        ("OAI-Device-Id"@, fp.device_id@),
        ("OAI-Session-Id"@, fp.session_id@),
        ("OAI-Language"@, "zh-CN"@),
        ("OAI-Client-Version"@, DEFAULT_CLIENT_VERSION@),
        ("OAI-Client-Build-Number"@, DEFAULT_CLIENT_BUILD_NUMBER@),
    ];
    if access_token.len() == 0 {
        h
    } else {
        h.push(("Authorization"@, "Bearer "@ + access_token))
    }
}

/// The headers with which a request tells its path.
pub open spec fn path_headers(path: Seq<char>) -> Seq<(Seq<char>, Seq<char>)> {
    seq![("X-OpenAI-Target-Path"@, path), ("X-OpenAI-Target-Route"@, path)]
}

/// The headers of a request for a path: the path, and `extra`, a later one in the place of an
/// earlier one of its name.
pub fn req_headers(path: &str, extra: Vec<(String, String)>) -> (r: Vec<(String, String)>)
    ensures
        pairs_view(r@) == path_headers(path@) + pairs_view(extra@),
{
    let mut h: Vec<(String, String)> = Vec::new();
    h.push(pair("X-OpenAI-Target-Path", path));
    h.push(pair("X-OpenAI-Target-Route", path));
    assert(pairs_view(h@) =~= path_headers(path@));
    let ghost before = pairs_view(h@);
    let ghost more = pairs_view(extra@);
    let mut extra = extra;
    h.append(&mut extra);
    assert(pairs_view(h@) =~= before + more);
    h
}

/// A header that is sent only with a value.
pub open spec fn filled_header(k: Seq<char>, v: Seq<char>) -> Seq<(Seq<char>, Seq<char>)> {
    if v.len() == 0 {
        Seq::empty()
    } else {
        seq![(k, v)]
    }
}

fn push_filled(h: &mut Vec<(String, String)>, k: &str, v: &str)
    ensures
        pairs_view(final(h)@) == pairs_view(old(h)@) + filled_header(k@, v@),
{
    let ghost had = pairs_view(h@);
    if !v.is_empty() {
        h.push(pair(k, v));
        assert(pairs_view(h@) =~= had + seq![(k@, v@)]);
    } else {
        assert(pairs_view(h@) =~= had + Seq::empty());
    }
}

/// The headers of a request to converse.
pub open spec fn conversation_header_list(q: ChatRequirements) -> Seq<(Seq<char>, Seq<char>)> {
    seq![
        ("Accept"@, "text/event-stream"@),
        ("Content-Type"@, "application/json"@),
        ("OpenAI-Sentinel-Chat-Requirements-Token"@, q.token@),
    ] + filled_header("OpenAI-Sentinel-Proof-Token"@, q.proof_token@) + filled_header(
        "OpenAI-Sentinel-Turnstile-Token"@,
        q.turnstile_token@,
    ) + filled_header("OpenAI-Sentinel-SO-Token"@, q.so_token@)
}

/// The puzzle that a conversation asks for: its seed and its difficulty.
pub open spec fn puzzle_of(data: JsonView) -> Option<(Seq<char>, Seq<char>)> {
    let info = data.at("proofofwork"@);
    if info is Obj && info.bool_at("required"@, false) {
        Some((info.str_at("seed"@), info.str_at("difficulty"@)))
    } else {
        None
    }
}

/// The challenge that a conversation asks for.
pub open spec fn challenge_of(data: JsonView) -> Option<Seq<char>> {
    let info = data.at("turnstile"@);
    if info is Obj && info.bool_at("required"@, false) && info.str_at("dx"@).len() > 0 {
        Some(info.str_at("dx"@))
    } else {
        None
    }
}

/// Reads the puzzle that a conversation asks for.
pub fn required_puzzle(data: &Json) -> (r: Option<(String, String)>)
    ensures
        match r {
            Some(p) => puzzle_of(data@) == Some((p.0@, p.1@)),
            None => puzzle_of(data@) is None,
        },
{
    let info = data.at("proofofwork");
    if info.is_object() && info.bool_at("required", false) {
        Some((info.str_at("seed"), info.str_at("difficulty")))
    } else {
        None
    }
}

/// Reads the challenge that a conversation asks for.
pub fn required_challenge(data: &Json) -> (r: Option<String>)
    ensures
        match r {
            Some(s) => challenge_of(data@) == Some(s@),
            None => challenge_of(data@) is None,
        },
{
    let info = data.at("turnstile");
    if !info.is_object() || !info.bool_at("required", false) {
        return None;
    }
    let dx = info.str_at("dx");
    if dx.as_str().is_empty() {
        None
    } else {
        Some(dx)
    }
}

/// Puts together what a conversation needs: `solution` is the answer to the puzzle that was asked
/// for, and `turnstile` that to the challenge.
pub fn build_requirements(
    data: Json,
    solution: Option<Result<String, String>>,
    turnstile: Option<String>,
) -> (r: Result<ChatRequirements, EngineError>)
    requires
        puzzle_of(data@) is Some <==> solution is Some,
    ensures
        ({
            let arkose = data@.at("arkose"@).bool_at("required"@, false);
            if arkose {
                r matches Err(e) && e.says(
                    "chat requirements requires arkose token, which is not implemented"@,
                )
            } else if solution is Some && solution->0 is Err {
                r matches Err(e) && e.says(solution->0->Err_0@)
            } else {
                r matches Ok(q) && q.token@ == data@.str_at("token"@) && q.so_token@
                    == data@.str_at("so_token"@) && q.raw_finalize@ == data@ && q.proof_token@ == (
                match solution {
                    Some(Ok(p)) => p@,
                    _ => Seq::empty(),
                }) && q.turnstile_token@ == (match turnstile {
                    Some(t) => if challenge_of(data@) is Some {
                        t@
                    } else {
                        Seq::empty()
                    },
                    None => Seq::empty(),
                })
            }
        }),
{
    if data.at("arkose").bool_at("required", false) {
        return Err(
            EngineError::other("chat requirements requires arkose token, which is not implemented"),
        );
    }
    let proof_token = match solution {
        Some(Ok(p)) => p,
        Some(Err(e)) => {
            return Err(EngineError::other(e.as_str()));
        },
        None => String::new(),
    };
    let asked = required_challenge(&data).is_some();
    let turnstile_token = match turnstile {
        Some(t) => {
            if asked {
                t
            } else {
                String::new()
            }
        },
        None => String::new(),
    };
    Ok(
        ChatRequirements {
            token: data.str_at("token"),
            proof_token,
            turnstile_token,
            so_token: data.str_at("so_token"),
            raw_finalize: data,
        },
    )
}

impl OpenAIBackendAPI {
    /// A client for an account; `device` and `session` name those of an account that names none.
    pub fn new(access_token: &str, account: Json, device: &str, session: &str) -> (r: OpenAIBackendAPI)
        ensures
            r.base_url@ == "https://chatgpt.com"@,
            r.access_token@ == access_token@,
            r.account@ == (if account@ is Obj {
                account@
            } else {
                empty_object()
            }),
            r.fp.user_agent@ == trait_or(client_trait(r.account@, "user-agent"@), DEFAULT_USER_AGENT@),
            r.fp.device_id@ == trait_or(client_trait(r.account@, "oai-device-id"@), device@),
            r.fp.session_id@ == trait_or(client_trait(r.account@, "oai-session-id"@), session@),
            r.fp.impersonate@ == trait_or(client_trait(r.account@, "impersonate"@), "edge101"@),
            r.fp.sec_ch_ua@ == trait_or(
                client_trait(r.account@, "sec-ch-ua"@),
                "\"Microsoft Edge\";v=\"143\", \"Chromium\";v=\"143\", \"Not A(Brand\";v=\"24\""@,
            ),
            r.fp.sec_ch_ua_mobile@ == trait_or(client_trait(r.account@, "sec-ch-ua-mobile"@), "?0"@),
            r.fp.sec_ch_ua_platform@ == trait_or(
                client_trait(r.account@, "sec-ch-ua-platform"@),
                "\"Windows\""@,
            ),
            r.pow_script_sources@.len() == 0,
            r.pow_data_build@.len() == 0,
    {
        let account = if account.is_object() {
            account
        } else {
            Json::object()
        };
        let fp = build_fingerprint(&account, device, session);
        OpenAIBackendAPI {
            base_url: "https://chatgpt.com".to_owned(),
            access_token: access_token.to_owned(),
            account,
            fp,
            pow_script_sources: Vec::new(),
            pow_data_build: String::new(),
        }
    }

    /// The proxy of an account, or else that of the settings.
    pub fn proxy(&self, setting: &str) -> (r: String)
        ensures
            r@ == or_else(trimmed(self.account@.str_at("proxy"@)), setting@),
            trimmed(self.account@.str_at("proxy"@)).len() > 0 ==> r@ == trimmed(
                self.account@.str_at("proxy"@),
            ),
            self.account@.get("proxy"@) is None ==> r@ == setting@,
    {
        proof {
            crate::text::lemma_strip_len(Seq::<char>::empty(), crate::text::CharClass::White);
        }
        non_empty_or(trim(self.account.str_at("proxy").as_str()), setting)
    }

    pub fn access_token(&self) -> (r: &str)
        ensures
            r@ == self.access_token@,
    {
        self.access_token.as_str()
    }

    pub fn account(&self) -> (r: &Json)
        ensures
            r == self.account,
    {
        &self.account
    }

    /// The address of a path.
    pub fn url(&self, path: &str) -> (r: String)
        ensures
            r@ == self.base_url@ + path@,
    {
        cat(self.base_url.as_str(), path)
    }

    /// The headers of every request.
    pub fn build_base_headers(&self) -> (r: Vec<(String, String)>)
        ensures
            pairs_view(r@) == base_headers(self.fp, self.base_url@, self.access_token@),
    {
        let base = self.base_url.as_str();
        let mut h: Vec<(String, String)> = Vec::new();
        h.push(pair("User-Agent", self.fp.user_agent.as_str()));
        h.push(pair("Origin", base));
        h.push(pair("Referer", cat(base, "/").as_str()));
        h.push(pair("Accept-Language", "zh-CN,zh;q=0.9,en;q=0.8,en-US;q=0.7"));
        h.push(pair("Cache-Control", "no-cache"));
        h.push(pair("Pragma", "no-cache"));
        h.push(pair("Priority", "u=1, i"));
        h.push(pair("Sec-Ch-Ua", self.fp.sec_ch_ua.as_str()));
        h.push(pair("Sec-Ch-Ua-Arch", "\"x86\""));
        h.push(pair("Sec-Ch-Ua-Bitness", "\"64\""));
        h.push(pair("Sec-Ch-Ua-Full-Version", "\"143.0.3650.96\""));
        h.push(
            pair(
                "Sec-Ch-Ua-Full-Version-List",
                "\"Microsoft Edge\";v=\"143.0.3650.96\", \"Chromium\";v=\"143.0.7499.147\", \"Not A(Brand\";v=\"24.0.0.0\"",
            ),
        );
        h.push(pair("Sec-Ch-Ua-Mobile", self.fp.sec_ch_ua_mobile.as_str()));
        h.push(pair("Sec-Ch-Ua-Model", "\"\""));
        h.push(pair("Sec-Ch-Ua-Platform", self.fp.sec_ch_ua_platform.as_str()));
        h.push(pair("Sec-Ch-Ua-Platform-Version", "\"19.0.0\""));
        h.push(pair("Sec-Fetch-Dest", "empty"));
        h.push(pair("Sec-Fetch-Mode", "cors"));
        h.push(pair("Sec-Fetch-Site", "same-origin"));
        h.push(pair("OAI-Device-Id", self.fp.device_id.as_str()));
        h.push(pair("OAI-Session-Id", self.fp.session_id.as_str()));
        h.push(pair("OAI-Language", "zh-CN"));
        h.push(pair("OAI-Client-Version", DEFAULT_CLIENT_VERSION));
        h.push(pair("OAI-Client-Build-Number", DEFAULT_CLIENT_BUILD_NUMBER));
        if !self.access_token.as_str().is_empty() {
            h.push(pair("Authorization", cat("Bearer ", self.access_token.as_str()).as_str()));
        }
        assert(pairs_view(h@) =~= base_headers(self.fp, self.base_url@, self.access_token@));
        h
    }

    /// The headers of the request for the home page.
    pub fn bootstrap_headers(&self) -> (r: Vec<(String, String)>)
        ensures
            pairs_view(r@) == seq![
                ("User-Agent"@, self.fp.user_agent@),
                (
                    "Accept"@,
                    "text/html,application/xhtml+xml,application/xml;q=0.9,image/avif,image/webp,*/*;q=0.8"@,
                ),
                ("Accept-Language"@, "zh-CN,zh;q=0.9,en;q=0.8"@),
                ("Sec-Ch-Ua"@, self.fp.sec_ch_ua@),
                ("Sec-Ch-Ua-Mobile"@, self.fp.sec_ch_ua_mobile@),
                ("Sec-Ch-Ua-Platform"@, self.fp.sec_ch_ua_platform@),
                ("Sec-Fetch-Dest"@, "document"@),
                ("Sec-Fetch-Mode"@, "navigate"@),
                ("Sec-Fetch-Site"@, "none"@),
                ("Sec-Fetch-User"@, "?1"@),
                ("Upgrade-Insecure-Requests"@, "1"@),
            ],
    {
        let mut h: Vec<(String, String)> = Vec::new();
        h.push(pair("User-Agent", self.fp.user_agent.as_str()));
        h.push(
            pair(
                "Accept",
                "text/html,application/xhtml+xml,application/xml;q=0.9,image/avif,image/webp,*/*;q=0.8",
            ),
        );
        h.push(pair("Accept-Language", "zh-CN,zh;q=0.9,en;q=0.8"));
        h.push(pair("Sec-Ch-Ua", self.fp.sec_ch_ua.as_str()));
        h.push(pair("Sec-Ch-Ua-Mobile", self.fp.sec_ch_ua_mobile.as_str()));
        h.push(pair("Sec-Ch-Ua-Platform", self.fp.sec_ch_ua_platform.as_str()));
        h.push(pair("Sec-Fetch-Dest", "document"));
        h.push(pair("Sec-Fetch-Mode", "navigate"));
        h.push(pair("Sec-Fetch-Site", "none"));
        h.push(pair("Sec-Fetch-User", "?1"));
        h.push(pair("Upgrade-Insecure-Requests", "1"));
        assert(pairs_view(h@) =~= seq![
            ("User-Agent"@, self.fp.user_agent@),
            (
                "Accept"@,
                "text/html,application/xhtml+xml,application/xml;q=0.9,image/avif,image/webp,*/*;q=0.8"@,
            ),
            ("Accept-Language"@, "zh-CN,zh;q=0.9,en;q=0.8"@),
            ("Sec-Ch-Ua"@, self.fp.sec_ch_ua@),
            ("Sec-Ch-Ua-Mobile"@, self.fp.sec_ch_ua_mobile@),
            ("Sec-Ch-Ua-Platform"@, self.fp.sec_ch_ua_platform@),
            ("Sec-Fetch-Dest"@, "document"@),
            ("Sec-Fetch-Mode"@, "navigate"@),
            ("Sec-Fetch-Site"@, "none"@),
            ("Sec-Fetch-User"@, "?1"@),
            ("Upgrade-Insecure-Requests"@, "1"@),
        ]);
        h
    }

    /// Takes over what the home page says of its scripts; one is known where it names none.
    pub fn bootstrap(&mut self, sources: Vec<String>, data_build: String)
        ensures
            views(final(self).pow_script_sources@) == (if sources@.len() == 0 {
                seq![DEFAULT_POW_SCRIPT@]
            } else {
                views(sources@)
            }),
            final(self).pow_data_build == data_build,
            final(self).base_url == old(self).base_url,
            final(self).access_token == old(self).access_token,
            final(self).account == old(self).account,
            final(self).fp == old(self).fp,
    {
        let mut sources = sources;
        if sources.len() == 0 {
            sources.push(DEFAULT_POW_SCRIPT.to_owned());
            assert(views(sources@) =~= seq![DEFAULT_POW_SCRIPT@]);
        }
        self.pow_script_sources = sources;
        self.pow_data_build = data_build;
    }

    /// The path under which a conversation asks to be let through, and the name of that request.
    pub fn requirements_target(&self) -> (r: (&'static str, &'static str))
        ensures
            if self.access_token@.len() == 0 {
                r.0@ == "/backend-anon/sentinel/chat-requirements"@ && r.1@
                    == "noauth_chat_requirements"@
            } else {
                r.0@ == "/backend-api/sentinel/chat-requirements"@ && r.1@
                    == "auth_chat_requirements"@
            },
    {
        if self.access_token.as_str().is_empty() {
            ("/backend-anon/sentinel/chat-requirements", "noauth_chat_requirements")
        } else {
            ("/backend-api/sentinel/chat-requirements", "auth_chat_requirements")
        }
    }

    /// Checks that a conversation is let through: it needs a token.
    pub fn check_requirements(&self, q: ChatRequirements) -> (r: Result<
        ChatRequirements,
        EngineError,
    >)
        ensures
            if q.token@.len() > 0 {
                r matches Ok(x) && x == q
            } else {
                r matches Err(e) && e.says(
                    (if self.access_token@.len() == 0 {
                        "missing chat requirements token"@
                    } else {
                        "missing auth chat requirements token"@
                    }) + ": "@ + compact(q.raw_finalize@),
                )
            },
    {
        if !q.token.as_str().is_empty() {
            return Ok(q);
        }
        let message = if self.access_token.as_str().is_empty() {
            "missing chat requirements token"
        } else {
            "missing auth chat requirements token"
        };
        Err(EngineError::Other(cat3(message, ": ", q.raw_finalize.to_text().as_str())))
    }

    /// Where a conversation goes, and its time zone.
    pub fn chat_target(&self) -> (r: (&'static str, &'static str))
        ensures
            if self.access_token@.len() == 0 {
                r.0@ == "/backend-anon/conversation"@ && r.1@ == "America/Los_Angeles"@
            } else {
                r.0@ == "/backend-api/conversation"@ && r.1@ == "Asia/Shanghai"@
            },
    {
        if self.access_token.as_str().is_empty() {
            ("/backend-anon/conversation", "America/Los_Angeles")
        } else {
            ("/backend-api/conversation", "Asia/Shanghai")
        }
    }

    /// Where the list of models is, its route, and the name of that request.
    pub fn models_target(&self) -> (r: (&'static str, &'static str, &'static str))
        ensures
            if self.access_token@.len() == 0 {
                r.0@ == "/backend-anon/models?iim=false&is_gizmo=false"@ && r.1@
                    == "/backend-anon/models"@ && r.2@ == "anon_models"@
            } else {
                r.0@ == "/backend-api/models?history_and_training_disabled=false"@ && r.1@
                    == "/backend-api/models"@ && r.2@ == "auth_models"@
            },
    {
        if self.access_token.as_str().is_empty() {
            (
                "/backend-anon/models?iim=false&is_gizmo=false",
                "/backend-anon/models",
                "anon_models",
            )
        } else {
            (
                "/backend-api/models?history_and_training_disabled=false",
                "/backend-api/models",
                "auth_models",
            )
        }
    }
}

/// The headers of a request to converse.
pub fn conversation_headers(path: &str, q: &ChatRequirements) -> (r: Vec<(String, String)>)
    ensures
        pairs_view(r@) == path_headers(path@) + conversation_header_list(*q),
{
    let mut extra: Vec<(String, String)> = Vec::new();
    extra.push(pair("Accept", "text/event-stream"));
    extra.push(pair("Content-Type", "application/json"));
    extra.push(pair("OpenAI-Sentinel-Chat-Requirements-Token", q.token.as_str()));
    assert(pairs_view(extra@) =~= seq![
        ("Accept"@, "text/event-stream"@),
        ("Content-Type"@, "application/json"@),
        ("OpenAI-Sentinel-Chat-Requirements-Token"@, q.token@),
    ]);
    push_filled(&mut extra, "OpenAI-Sentinel-Proof-Token", q.proof_token.as_str());
    push_filled(&mut extra, "OpenAI-Sentinel-Turnstile-Token", q.turnstile_token.as_str());
    push_filled(&mut extra, "OpenAI-Sentinel-SO-Token", q.so_token.as_str());
    req_headers(path, extra)
}

// ---------------------------------------------------------------------------
// conversations
// ---------------------------------------------------------------------------

/// An object with one field.
pub open spec fn single(k: Seq<char>, v: JsonView) -> JsonView {
    empty_object().put(k, v)
}

/// Makes an object with one field.
pub fn single_field(k: &str, v: Json) -> (r: Json)
    ensures
        r@ == single(k@, v@),
{
    let mut o = Json::object();
    o.set(k, v);
    o
}

/// A list of one text.
pub open spec fn one_text(s: Seq<char>) -> JsonView {
    JsonView::Arr(seq![JsonView::Str(s)])
}

/// Makes a list of one text.
pub fn text_list(s: &str) -> (r: Json)
    ensures
        r@ == one_text(s@),
{
    let mut v: Vec<Json> = Vec::new();
    v.push(Json::from_text(s));
    assert(list_view(v@) =~= seq![JsonView::Str(s@)]);
    Json::Arr(v)
}

/// The empty list.
pub open spec fn no_items() -> JsonView {
    JsonView::Arr(Seq::empty())
}

/// Makes the empty list.
pub fn empty_list() -> (r: Json)
    ensures
        r@ == no_items(),
{
    let v: Vec<Json> = Vec::new();
    assert(list_view(v@) =~= Seq::empty());
    Json::Arr(v)
}

/// The content of a message that is text.
pub open spec fn text_content(s: Seq<char>) -> JsonView {
    empty_object().put("content_type"@, JsonView::Str("text"@)).put("parts"@, one_text(s))
}

/// Makes the content of a message that is text.
pub fn make_text_content(s: &str) -> (r: Json)
    ensures
        r@ == text_content(s@),
{
    let mut o = Json::object();
    o.set("content_type", Json::from_text("text"));
    o.set("parts", text_list(s));
    o
}

/// A message of a conversation.
pub open spec fn message_json(id: Seq<char>, role: Seq<char>, text: Seq<char>) -> JsonView {
    empty_object().put("id"@, JsonView::Str(id)).put(
        "author"@,
        single("role"@, JsonView::Str(role)),
    ).put("content"@, text_content(text))
}

/// Makes a message of a conversation.
pub fn make_message(id: &str, role: &str, text: &str) -> (r: Json)
    ensures
        r@ == message_json(id@, role@, text@),
{
    let mut o = Json::object();
    o.set("id", Json::from_text(id));
    o.set("author", single_field("role", Json::from_text(role)));
    o.set("content", make_text_content(text));
    o
}

/// The text of a part of a message.
pub open spec fn part_text() -> spec_fn(JsonView) -> Option<Seq<char>> {
    |p: JsonView|
        if p is Obj && p.str_at("type"@) == "text"@ {
            Some(p.str_at("text"@))
        } else {
            None
        }
}

/// The text of a message: its content, or that of the parts that are text; none where the content
/// is neither a text nor a list.
pub open spec fn message_text(m: JsonView) -> Option<Seq<char>> {
    match m.at("content"@) {
        JsonView::Str(s) => Some(s),
        JsonView::Arr(parts) => Some(joined(parts.filter_map(part_text()), ""@)),
        _ => None,
    }
}

/// The role of a message.
pub open spec fn message_role(m: JsonView) -> Seq<char> {
    match m.get("role"@) {
        Some(JsonView::Str(s)) => s,
        _ => "user"@,
    }
}

/// The messages of a conversation under given ids; none where one has no text.
pub open spec fn converted(messages: Seq<JsonView>, ids: Seq<Seq<char>>) -> Option<Seq<JsonView>>
    decreases messages.len(),
{
    if messages.len() == 0 {
        Some(Seq::empty())
    } else {
        match (converted(messages.drop_last(), ids), message_text(messages.last())) {
            (Some(done), Some(text)) => Some(
                done.push(
                    message_json(ids[messages.len() - 1], message_role(messages.last()), text),
                ),
            ),
            _ => None,
        }
    }
}

fn text_of_parts(parts: &Vec<Json>) -> (r: String)
    ensures
        r@ == joined(list_view(parts@).filter_map(part_text()), ""@),
{
    let ghost v = list_view(parts@);
    let ghost f = part_text();
    let mut out: Vec<String> = Vec::new();
    let mut i: usize = 0;
    assert(v.take(0).filter_map(f) =~= Seq::empty());
    assert(views(out@) =~= Seq::empty());
    while i < parts.len()
        invariant
            i <= parts@.len(),
            v == list_view(parts@),
            f == part_text(),
            views(out@) == v.take(i as int).filter_map(f),
        decreases parts@.len() - i,
    {
        proof {
            v.lemma_filter_map_take_succ(f, i as int);
        }
        let ghost done = views(out@);
        if parts[i].is_object() && same(parts[i].str_at("type").as_str(), "text") {
            let t = parts[i].str_at("text");
            let ghost tv = t@;
            out.push(t);
            assert(views(out@) =~= done + seq![tv]);
        }
        assert(views(out@) =~= v.take(i + 1).filter_map(f));
        i += 1;
    }
    assert(v.take(i as int) =~= v);
    join(&out, "")
}

proof fn lemma_converted_fails(messages: Seq<JsonView>, ids: Seq<Seq<char>>, i: int)
    requires
        0 <= i < messages.len(),
        message_text(messages[i]) is None,
    ensures
        converted(messages, ids) is None,
    decreases messages.len(),
{
    if i < messages.len() - 1 {
        lemma_converted_fails(messages.drop_last(), ids, i);
    }
}

/// Turns messages of a request into those of a conversation, under given ids.
pub fn api_messages_to_conversation_messages(messages: &Vec<Json>, ids: &Vec<String>) -> (r: Result<
    Vec<Json>,
    EngineError,
>)
    requires
        ids@.len() >= messages@.len(),
    ensures
        match converted(list_view(messages@), views(ids@)) {
            Some(v) => r is Ok && list_view(r->Ok_0@) == v,
            None => r matches Err(e) && e.says("only string or list message content is supported"@),
        },
        r matches Ok(out) ==> {
            &&& out@.len() == messages@.len()
            &&& forall|i: int|
                0 <= i < out@.len() ==> {
                    &&& (#[trigger] out@[i])@.str_at("id"@) == ids@[i]@
                    &&& out@[i]@.at("author"@).get("role"@) == Some(
                        match messages@[i]@.get("role"@) {
                            Some(JsonView::Str(s)) => JsonView::Str(s),
                            _ => JsonView::Str("user"@),
                        },
                    )
                }
        },
{
    let ghost v = list_view(messages@);
    let ghost iv = views(ids@);
    let mut out: Vec<Json> = Vec::new();
    let mut i: usize = 0;
    assert(list_view(out@) =~= Seq::empty());
    while i < messages.len()
        invariant
            i <= messages@.len() <= ids@.len(),
            v == list_view(messages@),
            iv == views(ids@),
            converted(v.take(i as int), iv) == Some(list_view(out@)),
        decreases messages@.len() - i,
    {
        let ghost done = list_view(out@);
        assert(v.take(i + 1).drop_last() =~= v.take(i as int));
        assert(v.take(i + 1).last() == messages@[i as int]@);
        let item = &messages[i];
        let role = match item.get("role") {
            Some(Json::Str(s)) => s.clone(),
            _ => "user".to_owned(),
        };
        let text = match item.get("content") {
            Some(Json::Str(s)) => s.clone(),
            Some(Json::Arr(parts)) => text_of_parts(parts),
            _ => {
                proof {
                    lemma_converted_fails(v, iv, i as int);
                }
                return Err(EngineError::other("only string or list message content is supported"));
            },
        };
        let m = make_message(ids[i].as_str(), role.as_str(), text.as_str());
        let ghost mv = m@;
        out.push(m);
        assert(list_view(out@) =~= done.push(mv));
        i += 1;
    }
    assert(v.take(i as int) =~= v);
    proof {
        crate::engine_laws::law_conversation_keeps_messages(v, iv);
        let ov = list_view(out@);
        assert(ov.len() == out@.len() && v.len() == messages@.len());
        assert forall|k: int| 0 <= k < out@.len() implies (#[trigger] out@[k])@ == ov[k]
            && messages@[k]@ == v[k] && ids@[k]@ == iv[k] by {}
    }
    Ok(out)
}

/// What a page says of itself.
pub open spec fn chat_page() -> JsonView {
    empty_object().put("is_dark_mode"@, JsonView::Bool(false)).put(
        "time_since_loaded"@,
        int_json(120),
    ).put("page_height"@, int_json(900)).put("page_width"@, int_json(1400)).put(
        "pixel_ratio"@,
        int_json(2),
    ).put("screen_height"@, int_json(1440)).put("screen_width"@, int_json(2560))
}

/// The request to converse.
pub open spec fn conversation_request(
    messages: Seq<JsonView>,
    model: Seq<char>,
    timezone: Seq<char>,
    parent_id: Seq<char>,
    request_id: Seq<char>,
) -> JsonView {
    empty_object().put("action"@, JsonView::Str("next"@)).put(
        "messages"@,
        JsonView::Arr(messages),
    ).put("model"@, JsonView::Str(model)).put("parent_message_id"@, JsonView::Str(parent_id)).put(
        "conversation_mode"@,
        single("kind"@, JsonView::Str("primary_assistant"@)),
    ).put("conversation_origin"@, JsonView::Null).put("force_paragen"@, JsonView::Bool(false)).put(
        "force_paragen_model_slug"@,
        JsonView::Str(""@),
    ).put("force_rate_limit"@, JsonView::Bool(false)).put(
        "force_use_sse"@,
        JsonView::Bool(true),
    ).put("history_and_training_disabled"@, JsonView::Bool(true)).put(
        "reset_rate_limits"@,
        JsonView::Bool(false),
    ).put("suggestions"@, no_items()).put("supported_encodings"@, no_items()).put(
        "system_hints"@,
        no_items(),
    ).put("timezone"@, JsonView::Str(timezone)).put("timezone_offset_min"@, int_json(-480)).put(
        "variant_purpose"@,
        JsonView::Str("comparison_implicit"@),
    ).put("websocket_request_id"@, JsonView::Str(request_id)).put(
        "client_contextual_info"@,
        chat_page(),
    )
}

/// Makes the request to converse; `ids` are those of the messages.
pub fn conversation_payload(
    messages: &Vec<Json>,
    ids: &Vec<String>,
    model: &str,
    timezone: &str,
    parent_id: &str,
    request_id: &str,
) -> (r: Result<Json, EngineError>)
    requires
        ids@.len() >= messages@.len(),
    ensures
        match converted(list_view(messages@), views(ids@)) {
            Some(v) => r is Ok && r->Ok_0@ == conversation_request(
                v,
                model@,
                timezone@,
                parent_id@,
                request_id@,
            ),
            None => r matches Err(e) && e.says("only string or list message content is supported"@),
        },
        r matches Ok(q) ==> {
            &&& q@.str_at("model"@) == model@
            &&& q@.str_at("parent_message_id"@) == parent_id@
            &&& q@.str_at("timezone"@) == timezone@
            &&& q@.get("history_and_training_disabled"@) == Some(JsonView::Bool(true))
            &&& q@.items_at("messages"@).len() == messages@.len()
            &&& forall|i: int|
                0 <= i < messages@.len() ==> (#[trigger] q@.items_at("messages"@)[i]).at(
                    "author"@,
                ).get("role"@) == Some(
                    match messages@[i]@.get("role"@) {
                        Some(JsonView::Str(s)) => JsonView::Str(s),
                        _ => JsonView::Str("user"@),
                    },
                )
        },
{
    let converted_messages = match api_messages_to_conversation_messages(messages, ids) {
        Ok(v) => v,
        Err(e) => {
            return Err(e);
        },
    };
    let mut page = Json::object();
    page.set("is_dark_mode", Json::Bool(false));
    page.set("time_since_loaded", Json::from_int(120));
    page.set("page_height", Json::from_int(900));
    page.set("page_width", Json::from_int(1400));
    page.set("pixel_ratio", Json::from_int(2));
    page.set("screen_height", Json::from_int(1440));
    page.set("screen_width", Json::from_int(2560));
    let mut o = Json::object();
    o.set("action", Json::from_text("next"));
    o.set("messages", Json::Arr(converted_messages));
    o.set("model", Json::from_text(model));
    o.set("parent_message_id", Json::from_text(parent_id));
    o.set("conversation_mode", single_field("kind", Json::from_text("primary_assistant")));
    o.set("conversation_origin", Json::Null);
    o.set("force_paragen", Json::Bool(false));
    o.set("force_paragen_model_slug", Json::from_text(""));
    o.set("force_rate_limit", Json::Bool(false));
    o.set("force_use_sse", Json::Bool(true));
    o.set("history_and_training_disabled", Json::Bool(true));
    o.set("reset_rate_limits", Json::Bool(false));
    o.set("suggestions", empty_list());
    o.set("supported_encodings", empty_list());
    o.set("system_hints", empty_list());
    o.set("timezone", Json::from_text(timezone));
    o.set("timezone_offset_min", Json::from_int(-480));
    o.set("variant_purpose", Json::from_text("comparison_implicit"));
    o.set("websocket_request_id", Json::from_text(request_id));
    o.set("client_contextual_info", page);
    proof {
        let mv = list_view(messages@);
        let out = converted(mv, views(ids@))->0;
        crate::engine_laws::law_conversation_request_carries_all(
            out,
            model@,
            timezone@,
            parent_id@,
            request_id@,
        );
        crate::engine_laws::law_conversation_keeps_messages(mv, views(ids@));
        assert(mv.len() == messages@.len());
        assert forall|i: int| 0 <= i < messages@.len() implies #[trigger] mv[i] == messages@[i]@ by {}
    }
    Ok(o)
}

/// The message that a prompt alone stands for.
pub fn prompt_message(prompt: &str) -> (r: Json)
    ensures
        r@ == empty_object().put("role"@, JsonView::Str("user"@)).put(
            "content"@,
            JsonView::Str(prompt@),
        ),
{
    let mut o = Json::object();
    o.set("role", Json::from_text("user"));
    o.set("content", Json::from_text(prompt));
    o
}

// ---------------------------------------------------------------------------
// models
// ---------------------------------------------------------------------------

/// The slugs of models, each once.
pub open spec fn model_slugs(items: Seq<JsonView>) -> Seq<Seq<char>>
    decreases items.len(),
{
    if items.len() == 0 {
        Seq::empty()
    } else {
        let rest = model_slugs(items.drop_last());
        let slug = trimmed(items.last().str_at("slug"@));
        if slug.len() == 0 || rest.contains(slug) {
            rest
        } else {
            rest.push(slug)
        }
    }
}

/// A model as it is listed.
pub open spec fn model_entry(item: JsonView) -> JsonView {
    let slug = JsonView::Str(trimmed(item.str_at("slug"@)));
    empty_object().put("id"@, slug).put("object"@, JsonView::Str("model"@)).put(
        "created"@,
        int_json(item.int_at("created"@, 0) as int),
    ).put(
        "owned_by"@,
        JsonView::Str(
            match item.get("owned_by"@) {
                Some(JsonView::Str(s)) => s,
                _ => "chatgpt"@,
            },
        ),
    ).put("permission"@, no_items()).put("root"@, slug).put("parent"@, JsonView::Null)
}

/// The models as they are listed, each slug where it first stands.
pub open spec fn model_entries(items: Seq<JsonView>) -> Seq<JsonView>
    decreases items.len(),
{
    if items.len() == 0 {
        Seq::empty()
    } else {
        let rest = model_entries(items.drop_last());
        let slug = trimmed(items.last().str_at("slug"@));
        if slug.len() == 0 || model_slugs(items.drop_last()).contains(slug) {
            rest
        } else {
            rest.push(model_entry(items.last()))
        }
    }
}

/// Whether a list holds a record with an id.
pub open spec fn lists_id(items: Seq<JsonView>, id: Seq<char>) -> bool {
    exists|k: int| 0 <= k < items.len() && (#[trigger] items[k]).str_at("id"@) == id
}

/// Lists the models of an answer, by their slugs.
pub fn list_models(data: &Json) -> (r: Json)
    ensures
        r@ == empty_object().put("object"@, JsonView::Str("list"@)).put(
            "data"@,
            JsonView::Arr(
                sorted(model_entries(data@.items_at("models"@)), field_order("id"@, false)),
            ),
        ),
        forall|slug: Seq<char>|
            slug.len() > 0 && (exists|i: int|
                0 <= i < data@.items_at("models"@).len() && trimmed(
                    (#[trigger] data@.items_at("models"@)[i]).str_at("slug"@),
                ) == slug) <==> #[trigger] lists_id(r@.items_at("data"@), slug),
{
    let items = data.items_at("models");
    let ghost v = list_view(items@);
    let mut seen: Vec<String> = Vec::new();
    let mut out: Vec<Json> = Vec::new();
    let mut i: usize = 0;
    assert(views(seen@) =~= Seq::empty());
    assert(list_view(out@) =~= Seq::empty());
    while i < items.len()
        invariant
            i <= items@.len(),
            v == list_view(items@),
            views(seen@) == model_slugs(v.take(i as int)),
            list_view(out@) == model_entries(v.take(i as int)),
        decreases items@.len() - i,
    {
        assert(v.take(i + 1).drop_last() =~= v.take(i as int));
        assert(v.take(i + 1).last() == items@[i as int]@);
        let ghost had = views(seen@);
        let ghost done = list_view(out@);
        let item = &items[i];
        let slug = trim(item.str_at("slug").as_str());
        if !slug.as_str().is_empty() && !has_text(&seen, slug.as_str()) {
            let mut o = Json::object();
            o.set("id", Json::from_text(slug.as_str()));
            o.set("object", Json::from_text("model"));
            o.set("created", Json::from_int(item.int_at("created", 0)));
            let owner = match item.get("owned_by") {
                Some(Json::Str(s)) => s.clone(),
                _ => "chatgpt".to_owned(),
            };
            o.set("owned_by", Json::Str(owner));
            o.set("permission", empty_list());
            o.set("root", Json::from_text(slug.as_str()));
            o.set("parent", Json::Null);
            let ghost ov = o@;
            out.push(o);
            assert(list_view(out@) =~= done.push(ov));
            let ghost sv = slug@;
            seen.push(slug);
            assert(views(seen@) =~= had.push(sv));
        }
        i += 1;
    }
    assert(v.take(i as int) =~= v);
    let mut r = Json::object();
    r.set("object", Json::from_text("list"));
    r.set("data", Json::Arr(sort_records(&out, "id", false)));
    proof {
        broadcast use crate::value::group_fields;

        reveal_strlit("object");
        reveal_strlit("data");
        assert("object"@.len() == 6);
        assert("data"@.len() == 4);
        assert forall|slug: Seq<char>|
            slug.len() > 0 && (exists|i: int|
                0 <= i < v.len() && trimmed((#[trigger] v[i]).str_at("slug"@)) == slug)
                <==> #[trigger] lists_id(r@.items_at("data"@), slug) by {
            crate::engine_laws::law_models_are_listed(v, slug);
        }
    }
    r
}

// ---------------------------------------------------------------------------
// the account upstream
// ---------------------------------------------------------------------------

/// What is sent to begin a conversation.
pub fn conversation_init_body() -> (r: Json)
    ensures
        r@ == empty_object().put("gizmo_id"@, JsonView::Null).put(
            "requested_default_model"@,
            JsonView::Null,
        ).put("conversation_id"@, JsonView::Null).put("timezone_offset_min"@, int_json(-480)),
{
    let mut o = Json::object();
    o.set("gizmo_id", Json::Null);
    o.set("requested_default_model", Json::Null);
    o.set("conversation_id", Json::Null);
    o.set("timezone_offset_min", Json::from_int(-480));
    o
}

/// The default account of an answer.
pub fn read_default_account(payload: &Json) -> (r: Json)
    ensures
        r@ == (match payload@.at("accounts"@).at("default"@).get("account"@) {
            Some(v) => v,
            None => empty_object(),
        }),
{
    let inner = payload.at("accounts").at("default");
    match inner.get("account") {
        Some(v) => v.copy(),
        None => Json::object(),
    }
}

/// The quota of images: how many are left, when it is renewed, and whether nothing is said of it.
pub open spec fn image_quota(items: Seq<JsonView>) -> (i64, Option<Seq<char>>, bool)
    decreases items.len(),
{
    if items.len() == 0 {
        (0, None, true)
    } else if items[0].get("feature_name"@) == Some(JsonView::Str("image_gen"@)) {
        (
            items[0].int_at("remaining"@, 0),
            if items[0].str_at("reset_after"@).len() > 0 {
                Some(items[0].str_at("reset_after"@))
            } else {
                None
            },
            false,
        )
    } else {
        image_quota(items.drop_first())
    }
}

/// Reads the quota of images.
pub fn extract_quota_and_restore_at(limits_progress: &Vec<Json>) -> (r: (i64, Option<String>, bool))
    ensures
        (r.0, crate::archive::opt_text_view(r.1), r.2) == image_quota(list_view(limits_progress@)),
{
    let ghost v = list_view(limits_progress@);
    let mut i: usize = 0;
    assert(v.skip(0) =~= v);
    while i < limits_progress.len()
        invariant
            i <= limits_progress@.len(),
            v == list_view(limits_progress@),
            image_quota(v) == image_quota(v.skip(i as int)),
        decreases limits_progress@.len() - i,
    {
        assert(v.skip(i as int)[0] == limits_progress@[i as int]@);
        assert(v.skip(i as int).drop_first() =~= v.skip(i + 1));
        let item = &limits_progress[i];
        if crate::account::holds_at(item, "feature_name", "image_gen") {
            let reset = item.str_at("reset_after");
            return (
                item.int_at("remaining", 0),
                if reset.as_str().is_empty() {
                    None
                } else {
                    Some(reset)
                },
                false,
            );
        }
        i += 1;
    }
    (0, None, true)
}

/// What is known of an account upstream.
pub open spec fn user_info(me: JsonView, init: JsonView, account: JsonView) -> JsonView {
    let plan = or_else(account.str_at("plan_type"@), "free"@);
    let limits = init.items_at("limits_progress"@);
    let (quota, restore_at, unknown) = image_quota(limits);
    empty_object().put("email"@, me.at("email"@)).put("user_id"@, me.at("id"@)).put(
        "type"@,
        JsonView::Str(plan),
    ).put("quota"@, int_json(quota as int)).put("image_quota_unknown"@, JsonView::Bool(unknown)).put(
        "limits_progress"@,
        JsonView::Arr(limits),
    ).put("default_model_slug"@, init.at("default_model_slug"@)).put(
        "restore_at"@,
        opt_str(restore_at),
    ).put(
        "status"@,
        JsonView::Str(
            if unknown && unicode_lower(plan) != "free"@ {
                "正常"@
            } else if quota == 0 {
                "限流"@
            } else {
                "正常"@
            },
        ),
    )
}

/// Puts together what is known of an account upstream, from three answers.
pub fn get_user_info(me: &Json, init: &Json, account: &Json) -> (r: Json)
    ensures
        r@ == user_info(me@, init@, account@),
{
    let plan = non_empty_or(account.str_at("plan_type"), "free");
    let limits = init.items_at("limits_progress");
    let (quota, restore_at, unknown) = extract_quota_and_restore_at(&limits);
    let paid = !same(to_lower(plan.as_str()).as_str(), "free");
    let status = if unknown && paid {
        "正常"
    } else if quota == 0 {
        "限流"
    } else {
        "正常"
    };
    let mut o = Json::object();
    o.set("email", me.at("email"));
    o.set("user_id", me.at("id"));
    o.set("type", Json::Str(plan));
    o.set("quota", Json::from_int(quota));
    o.set("image_quota_unknown", Json::Bool(unknown));
    o.set("limits_progress", Json::Arr(limits));
    o.set("default_model_slug", init.at("default_model_slug"));
    o.set(
        "restore_at",
        match restore_at {
            Some(s) => Json::Str(s),
            None => Json::Null,
        },
    );
    o.set("status", Json::from_text(status));
    o
}

// ---------------------------------------------------------------------------
// laws
// ---------------------------------------------------------------------------

/// No model is listed twice.
pub proof fn law_model_slugs_differ(items: Seq<JsonView>)
    ensures
        model_slugs(items).no_duplicates(),
        model_slugs(items).len() == model_entries(items).len(),
        forall|i: int|
            0 <= i < model_entries(items).len() ==> (#[trigger] model_entries(items)[i]).get("id"@)
                == Some(JsonView::Str(model_slugs(items)[i])),
    decreases items.len(),
{
    broadcast use crate::value::group_fields;

    if items.len() > 0 {
        let init = items.drop_last();
        law_model_slugs_differ(init);
        let rest = model_slugs(init);
        let slug = trimmed(items.last().str_at("slug"@));
        if slug.len() > 0 && !rest.contains(slug) {
            let all = model_slugs(items);
            assert forall|i: int, j: int| 0 <= i < j < all.len() implies all[i] != all[j] by {
                if j == rest.len() {
                    assert(rest.contains(all[i]));
                }
            }
            reveal_strlit("id");
            reveal_strlit("object");
            reveal_strlit("created");
            reveal_strlit("owned_by");
            reveal_strlit("permission");
            reveal_strlit("root");
            reveal_strlit("parent");
            assert("id"@.len() == 2);
            assert("object"@.len() == 6);
            assert("created"@.len() == 7);
            assert("owned_by"@.len() == 8);
            assert("permission"@.len() == 10);
            assert("root"@.len() == 4);
            assert("parent"@.len() == 6);
            let es = model_entries(items);
            let had = model_entries(init);
            assert forall|i: int| 0 <= i < es.len() implies (#[trigger] es[i]).get("id"@) == Some(
                JsonView::Str(all[i]),
            ) by {
                if i < had.len() {
                    assert(es[i] == had[i]);
                }
            }
        }
    }
}

} // verus!
