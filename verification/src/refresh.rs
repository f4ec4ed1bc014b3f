//! How access tokens are refreshed, and how a usable one is found.
use vstd::prelude::*;
use vstd::string::StringExecFns;
use vstd::utf8::encode_utf8;

use crate::account::{can_serve, field_text, field_trim, serves, text_at, text_or_empty, trim_at, Wanted};
use crate::clock::Moment;
use crate::deferral::{defers, failed_lately, recent_token_refresh_error};
use crate::json::{non_empty_or, parsed};
use crate::jwt::{needs_refresh, token_needs_refresh};
use crate::pool::{AccountService, Slot};
use crate::pool_model::{wanted_label, PoolView};
use crate::text::{
    cat, cat3, contains, decimal, decimal_text, occurs, prefix_chars, push_new, same, to_lower, trim,
    trimmed, unicode_lower, views,
};
use crate::value::{count_json, empty_object, list_view, or_else, Json, JsonView};

verus! {

broadcast use crate::value::group_json;

/// How many accounts are tried for one request.
pub const MAX_ATTEMPTS: usize = 20;

// ---------------------------------------------------------------------------
// the answer to a refresh
// ---------------------------------------------------------------------------

/// The value that a response body holds; `null` where it is no JSON.
pub open spec fn body_value(text: Seq<char>) -> JsonView {
    match parsed(encode_utf8(text)) {
        Some(v) => v,
        None => JsonView::Null,
    }
}

/// Reads [`body_value`].
pub fn parse_body(text: &str) -> (r: Json)
    ensures
        r@ == body_value(text@),
{
    match Json::parse(text.as_bytes()) {
        Some(v) => v,
        None => Json::Null,
    }
}

/// What an object gives as the reason of a failure: the first of three fields that is there,
/// where it is a string.
pub open spec fn failure_reason(data: JsonView) -> Seq<char> {
    let v = match data.get("error_description"@) {
        Some(v) => v,
        None => match data.get("error"@) {
            Some(v) => v,
            None => data.at("message"@),
        },
    };
    match v {
        JsonView::Str(s) => s,
        _ => Seq::empty(),
    }
}

pub(crate) fn reason_of(data: &Json) -> (r: String)
    ensures
        r@ == failure_reason(data@),
{
    let v = match data.get("error_description") {
        Some(v) => v.copy(),
        None => match data.get("error") {
            Some(v) => v.copy(),
            None => data.at("message"),
        },
    };
    match v {
        Json::Str(s) => s,
        _ => String::new(),
    }
}

/// The first `n` characters of `s`.
pub open spec fn head(s: Seq<char>, n: int) -> Seq<char> {
    s.take(
        if n <= s.len() {
            n
        } else {
            s.len() as int
        },
    )
}

/// What went wrong with a refresh that was answered with `status` and `text`.
pub open spec fn refresh_error(status: nat, data: JsonView, text: Seq<char>) -> Seq<char> {
    let detail = or_else(failure_reason(data), head(text, 300));
    "oauth_refresh_http_"@ + decimal(status) + (if detail.len() == 0 {
        Seq::empty()
    } else {
        ": "@ + detail
    })
}

/// The tokens that a refresh gave: the access token, the refresh token or else the one that
/// was used, and the id token.
pub open spec fn refresh_tokens(data: JsonView, used: Seq<char>) -> JsonView {
    empty_object().put("access_token"@, JsonView::Str(trimmed(data.str_at("access_token"@)))).put(
        "refresh_token"@,
        JsonView::Str(
            trimmed(
                match data.get("refresh_token"@) {
                    Some(JsonView::Str(s)) => s,
                    _ => used,
                },
            ),
        ),
    ).put("id_token"@, JsonView::Str(trimmed(data.str_at("id_token"@))))
}

/// Whether an answer to a refresh gives an access token.
pub open spec fn refresh_granted(status: u16, data: JsonView) -> bool {
    status == 200 && data is Obj && trimmed(data.str_at("access_token"@)).len() > 0
}

/// Reads the value that the upstream answered a refresh with.
pub fn read_refresh_value(status: u16, data: &Json, text: &str, refresh_token: &str) -> (r: Result<
    Json,
    String,
>)
    ensures
        match r {
            Ok(v) => refresh_granted(status, data@) && v@ == refresh_tokens(
                data@,
                refresh_token@,
            ),
            Err(e) => !refresh_granted(status, data@) && e@ == refresh_error(
                status as nat,
                data@,
                text@,
            ),
        },
{
    let access_token = trim(data.str_at("access_token").as_str());
    if status != 200 || !data.is_object() || access_token.as_str().is_empty() {
        let short = prefix_chars(text, 300);
        let detail = non_empty_or(reason_of(data), short.as_str());
        let mut e = cat("oauth_refresh_http_", decimal_text(status as u128).as_str());
        if !detail.as_str().is_empty() {
            let tail = cat(": ", detail.as_str());
            e.append(tail.as_str());
        }
        assert(e@ =~= refresh_error(status as nat, data@, text@));
        return Err(e);
    }
    let kept = match data.get("refresh_token") {
        Some(Json::Str(s)) => trim(s.as_str()),
        _ => trim(refresh_token),
    };
    let mut out = Json::object();
    out.set("access_token", Json::Str(access_token));
    out.set("refresh_token", Json::Str(kept));
    out.set("id_token", Json::Str(trim(data.str_at("id_token").as_str())));
    Ok(out)
}

/// Reads what the upstream answered a refresh with.
pub fn read_refresh_response(status: u16, text: &str, refresh_token: &str) -> (r: Result<
    Json,
    String,
>)
    ensures
        match r {
            Ok(v) => refresh_granted(status, body_value(text@)) && v@ == refresh_tokens(
                body_value(text@),
                refresh_token@,
            ),
            Err(e) => !refresh_granted(status, body_value(text@)) && e@ == refresh_error(
                status as nat,
                body_value(text@),
                text@,
            ),
        },
{
    let data = parse_body(text);
    read_refresh_value(status, &data, text, refresh_token)
}

/// The proxy that an account is refreshed through: its own, or else the one that is set.
pub fn refresh_proxy(account: &Json, setting: &str) -> (r: String)
    ensures
        r@ == trimmed(or_else(field_trim(account@, "proxy"@), setting@)),
{
    trim(non_empty_or(trim_at(account, "proxy"), setting).as_str())
}

// ---------------------------------------------------------------------------
// whether to refresh
// ---------------------------------------------------------------------------

/// What to do about a token.
pub enum RefreshPlan {
    /// Use this token as it is.
    Keep(String),
    /// Refresh this token with that refresh token.
    Request { active: String, refresh_token: String },
}

/// The token that an account goes by: its own, else what the token asked for stands for.
pub open spec fn active_token(p: PoolView, account: JsonView, token: Seq<char>) -> Seq<char> {
    or_else(field_text(account, "access_token"@), or_else(p.resolve(token), token))
}

/// Whether an account's token is refreshed now.
pub open spec fn wants_refresh(account: JsonView, active: Seq<char>, force: bool, now: Moment) -> bool {
    &&& needs_refresh(active, force, now.secs as int)
    &&& field_trim(account, "refresh_token"@).len() > 0
    &&& force || !failed_lately(account, now)
}

/// Decides whether to refresh a token: it is due or the refresh is forced, its account has a
/// refresh token, and, where not forced, no refresh failed a short while ago.
pub fn plan_refresh(pool: &AccountService, access_token: &str, force: bool, now: Moment) -> (r: RefreshPlan)
    ensures
        match pool@.find(access_token@) {
            None => r matches RefreshPlan::Keep(t) && t@ == access_token@,
            Some(a) => {
                let active = active_token(pool@, a, access_token@);
                if wants_refresh(a, active, force, now) {
                    r matches RefreshPlan::Request { active: t, refresh_token } && t@ == active
                        && refresh_token@ == field_trim(a, "refresh_token"@)
                } else {
                    r matches RefreshPlan::Keep(t) && t@ == active
                }
            },
        },
        force && pool@.find(access_token@) is Some && field_trim(
            pool@.find(access_token@)->0,
            "refresh_token"@,
        ).len() > 0 ==> r is Request,
        r matches RefreshPlan::Request { refresh_token, .. } ==> refresh_token@.len() > 0
            && refresh_token@ == field_trim(pool@.find(access_token@)->0, "refresh_token"@),
        pool@.find(access_token@) is Some && field_text(
            pool@.find(access_token@)->0,
            "access_token"@,
        ).len() > 0 ==> field_text(pool@.find(access_token@)->0, "access_token"@) == match r {
            RefreshPlan::Keep(t) => t@,
            RefreshPlan::Request { active, .. } => active@,
        },
        pool@.find(access_token@) is None ==> (r matches RefreshPlan::Keep(t) && t@ == access_token@),
{
    let account = match pool.get_account(access_token) {
        Some(a) => a,
        None => {
            return RefreshPlan::Keep(access_token.to_owned());
        },
    };
    let active = {
        let resolved = pool.resolve_access_token(access_token);
        let fallback = non_empty_or(resolved, access_token);
        non_empty_or(text_at(&account, "access_token"), fallback.as_str())
    };
    if !token_needs_refresh(active.as_str(), force, now.secs) {
        return RefreshPlan::Keep(active);
    }
    let refresh_token = trim_at(&account, "refresh_token");
    if refresh_token.as_str().is_empty() {
        return RefreshPlan::Keep(active);
    }
    if !force && recent_token_refresh_error(&account, now) {
        return RefreshPlan::Keep(active);
    }
    RefreshPlan::Request { active, refresh_token }
}

/// Takes in the outcome of a refresh of `active`, and gives the token to use from now on.
pub fn finish_refresh(
    pool: &mut AccountService,
    active: &str,
    outcome: &Result<Json, String>,
    at: &str,
    now: &str,
) -> (r: String)
    requires
        old(pool)@.wf(),
    ensures
        match outcome {
            Ok(data) => {
                let (p, token, _) = old(pool)@.refreshed(active@, data@, at@, now@);
                final(pool)@ == p && r@ == token
            },
            Err(e) => {
                &&& final(pool)@ == old(pool)@.refresh_failed(active@, e@, at@, now@)
                &&& r@ == active@
            },
        },
        final(pool)@.wf(),
        outcome matches Ok(data) ==> (data@.get("access_token"@) matches Some(JsonView::Str(s))
            ==> trimmed(s).len() > 0 && crate::assoc::lookup(
            old(pool)@.entries,
            old(pool)@.resolve(active@),
        ) is Some && at@.len() > 0 ==> r@ == trimmed(s) && crate::assoc::lookup(
            final(pool)@.entries,
            trimmed(s),
        ) is Some),
{
    proof {
        match outcome {
            Ok(data) => match data@.get("access_token"@) {
                Some(JsonView::Str(s)) => {
                    if trimmed(s).len() > 0 && crate::assoc::lookup(
                        pool@.entries,
                        pool@.resolve(active@),
                    ) is Some && at@.len() > 0 {
                        crate::pool_use_laws::law_refreshed_tokens_replace(
                            pool@,
                            active@,
                            data@,
                            s,
                            at@,
                            now@,
                            s,
                        );
                    }
                },
                _ => {},
            },
            Err(_) => {},
        }
    }
    match outcome {
        Ok(data) => pool.apply_refreshed_tokens(active, data, at, now).0,
        Err(e) => {
            pool.record_token_refresh_error(active, e.as_str(), at, now);
            active.to_owned()
        },
    }
}

// ---------------------------------------------------------------------------
// the data of an account
// ---------------------------------------------------------------------------

/// What the upstream answered when it was asked for an account's data.
pub enum Asked {
    /// The data.
    Info(Json),
    /// The token is invalid.
    Invalid(String),
    /// Something else went wrong.
    Failed(String),
}

/// Where the search for an account's data stands.
pub enum Fetch {
    /// The token is being refreshed where that is due.
    Preflight { token: String },
    /// The upstream is being asked.
    First { active: String },
    /// The token was called invalid with a message and is being refreshed by force.
    Forced { active: String, message: String },
    /// The upstream is being asked again, with the new token.
    Second { active: String },
}

/// What happened while an account's data was searched for.
pub enum FetchEvent {
    /// A refresh gave this token; empty where there is none.
    Refreshed(String),
    /// The upstream answered.
    Answer(Asked),
}

/// What to do next.
pub enum FetchStep {
    /// Refresh the token of this state, then come back.
    Refresh { state: Fetch, token: String, force: bool },
    /// Ask the upstream with this token, then come back.
    Ask { state: Fetch, token: String },
    /// The token is invalid.
    Invalid { token: String, message: String },
    /// Give up.
    Fail(String),
    /// Take in the data.
    Store { token: String, info: Json },
}

/// The first step towards the data of a token's account.
pub fn fetch_start(access_token: &str) -> (r: FetchStep)
    ensures
        if access_token@.len() == 0 {
            r matches FetchStep::Fail(e) && e@ == "access_token is required"@
        } else {
            r matches FetchStep::Refresh { state: Fetch::Preflight { token: s }, token, force } && s@
                == access_token@ && token@ == access_token@ && !force
        },
{
    if access_token.is_empty() {
        FetchStep::Fail("access_token is required".to_owned())
    } else {
        FetchStep::Refresh {
            state: Fetch::Preflight { token: access_token.to_owned() },
            token: access_token.to_owned(),
            force: false,
        }
    }
}

/// How many events a search can still take from a state.
pub open spec fn steps_left(state: Fetch) -> nat {
    match state {
        Fetch::Preflight { .. } => 4,
        Fetch::First { .. } => 3,
        Fetch::Forced { .. } => 2,
        Fetch::Second { .. } => 1,
    }
}

/// The step after an event: refreshed, the upstream is asked; where it calls the token invalid,
/// the token is refreshed by force once, and the upstream asked again only where that gave
/// another token. An event that the state does not wait for ends the search.
pub fn fetch_next(state: Fetch, event: FetchEvent) -> (r: FetchStep)
    ensures
        match (state, event) {
            (Fetch::Preflight { token }, FetchEvent::Refreshed(t)) => {
                r matches FetchStep::Ask { state: Fetch::First { active }, token: asked } && active@
                    == or_else(t@, token@) && asked@ == or_else(t@, token@)
            },
            (Fetch::First { active }, FetchEvent::Answer(Asked::Info(info))) => {
                r matches FetchStep::Store { token, info: i } && token@ == active@ && i@ == info@
            },
            (Fetch::First { active }, FetchEvent::Answer(Asked::Invalid(m))) => {
                r matches FetchStep::Refresh {
                    state: Fetch::Forced { active: a, message },
                    token,
                    force,
                } && a@ == active@ && message@ == m@ && token@ == active@ && force
            },
            (Fetch::Forced { active, message }, FetchEvent::Refreshed(t)) => {
                if t@.len() > 0 && t@ != active@ {
                    r matches FetchStep::Ask { state: Fetch::Second { active: a }, token } && a@
                        == t@ && token@ == t@
                } else {
                    r matches FetchStep::Invalid { token, message: m } && token@ == active@ && m@
                        == message@
                }
            },
            (Fetch::Second { active }, FetchEvent::Answer(Asked::Info(info))) => {
                r matches FetchStep::Store { token, info: i } && token@ == active@ && i@ == info@
            },
            (Fetch::Second { active }, FetchEvent::Answer(Asked::Invalid(m))) => {
                r matches FetchStep::Invalid { token, message } && token@ == active@ && message@
                    == m@
            },
            (_, FetchEvent::Answer(Asked::Failed(e))) => r matches FetchStep::Fail(m) && m@ == e@,
            (_, FetchEvent::Answer(Asked::Invalid(m))) => r matches FetchStep::Fail(e) && e@ == m@,
            _ => r matches FetchStep::Fail(m) && m@ == "unexpected event"@,
        },
        match r {
            FetchStep::Refresh { state: s, .. } => steps_left(s) < steps_left(state),
            FetchStep::Ask { state: s, .. } => steps_left(s) < steps_left(state),
            _ => true,
        },
{
    match (state, event) {
        (Fetch::Preflight { token }, FetchEvent::Refreshed(t)) => {
            let active = non_empty_or(t, token.as_str());
            FetchStep::Ask { state: Fetch::First { active: active.clone() }, token: active }
        },
        (Fetch::First { active }, FetchEvent::Answer(Asked::Info(info))) => FetchStep::Store {
            token: active,
            info,
        },
        (Fetch::First { active }, FetchEvent::Answer(Asked::Invalid(m))) => FetchStep::Refresh {
            state: Fetch::Forced { active: active.clone(), message: m },
            token: active,
            force: true,
        },
        (Fetch::Forced { active, message }, FetchEvent::Refreshed(t)) => {
            if !t.as_str().is_empty() && !same(t.as_str(), active.as_str()) {
                FetchStep::Ask { state: Fetch::Second { active: t.clone() }, token: t }
            } else {
                FetchStep::Invalid { token: active, message }
            }
        },
        (Fetch::Second { active }, FetchEvent::Answer(Asked::Info(info))) => FetchStep::Store {
            token: active,
            info,
        },
        (Fetch::Second { active }, FetchEvent::Answer(Asked::Invalid(m))) => FetchStep::Invalid {
            token: active,
            message: m,
        },
        (_, FetchEvent::Answer(Asked::Failed(e))) => FetchStep::Fail(e),
        (_, FetchEvent::Answer(Asked::Invalid(m))) => FetchStep::Fail(m),
        _ => FetchStep::Fail("unexpected event".to_owned()),
    }
}

/// What the settings say about accounts that stop working.
#[derive(Clone, Copy)]
pub struct Removal {
    /// Delete the accounts of invalid tokens.
    pub drop_invalid: bool,
    /// Take limited accounts out.
    pub drop_limited: bool,
}

/// Takes in that a token is invalid: the complaint is noted and, unless it is deferred, the
/// account is deleted or marked.
pub fn fetch_invalid(
    pool: &mut AccountService,
    token: &str,
    message: &str,
    defer_invalid_removal: bool,
    removal: Removal,
    time: Moment,
    at: &str,
    now: &str,
)
    requires
        old(pool)@.wf(),
    ensures
        ({
            let seen = old(pool)@.invalid_seen(token@, message@, at@, now@);
            let act = match crate::assoc::lookup(
                old(pool)@.entries,
                old(pool)@.resolve(token@),
            ) {
                Some(a) => !(defer_invalid_removal && defers(a, time)),
                None => true,
            };
            final(pool)@ == if act {
                seen.invalidated(token@, removal.drop_invalid, removal.drop_limited, now@).0
            } else {
                seen
            }
        }),
        final(pool)@.wf(),
        !defer_invalid_removal && old(pool)@.find(token@) is Some ==> {
            let left = crate::assoc::lookup(final(pool)@.entries, old(pool)@.resolve(token@));
            &&& removal.drop_invalid ==> left is None
            &&& !removal.drop_invalid ==> left is Some && (left->0).get("status"@) == Some(
                JsonView::Str("异常"@),
            )
        },
{
    let ghost start = pool@;
    if pool.record_invalid_token_seen(token, message, defer_invalid_removal, time, at, now) {
        proof {
            if start.find(token@) is Some {
                let t = start.resolve(token@);
                let a = crate::assoc::lookup(start.entries, t)->0;
                crate::pool_model::lemma_found_wf(start, t);
                crate::pool_use_laws::lemma_seen_stays(start, token@, message@, at@, now@);
                crate::pool_use_laws::law_invalid_account_is_not_used(
                    pool@,
                    token@,
                    removal.drop_invalid,
                    removal.drop_limited,
                    now@,
                    Seq::empty(),
                    arbitrary(),
                );
            }
        }
        pool.remove_invalid_token(token, removal.drop_invalid, removal.drop_limited, now);
    }
}

/// Takes in the data of an account, and gives the account back where it is there.
pub fn fetch_store(pool: &mut AccountService, token: &str, info: &Json, drop_limited: bool, now: &str) -> (r:
    Option<Json>)
    requires
        old(pool)@.wf(),
    ensures
        ({
            let (p, a) = old(pool)@.refresh_succeeded(token@, now@).updated(
                token@,
                info@,
                drop_limited,
                now@,
            );
            final(pool)@ == p && match r {
                Some(x) => a == Some(x@),
                None => a is None,
            }
        }),
        final(pool)@.wf(),
        old(pool)@.find(token@) is Some && info@ is Obj && crate::assoc::distinct_names(
            info@->Obj_0,
        ) ==> (r matches Some(a) ==> {
            &&& info@.str_at("status"@).len() > 0 ==> a@.get("status"@) == info@.get("status"@)
            &&& info@.get("quota"@) is Some && info@.int_at("quota"@, 0) >= 0 ==> a@.int_at(
                "quota"@,
                0,
            ) == info@.int_at("quota"@, 0)
            &&& info@.get("invalid_count"@) is None ==> a@.int_at("invalid_count"@, 0) == 0
            &&& info@.get("last_refresh_error"@) is None ==> a@.get("last_refresh_error"@) == Some(
                JsonView::Null,
            )
        }),
        old(pool)@.find(token@) is Some && info@ is Obj && crate::assoc::distinct_names(
            info@->Obj_0,
        ) && !drop_limited ==> r is Some,
{
    proof {
        if pool@.find(token@) is Some {
            crate::pool_use_laws::lemma_cleared_stays(pool@, token@, now@);
        }
    }
    pool.record_refresh_success(token, now);
    proof {
        if pool@.find(token@) is Some && info@ is Obj && crate::assoc::distinct_names(
            info@->Obj_0,
        ) {
            crate::pool_use_laws::law_updated_account(
                pool@,
                token@,
                info@,
                drop_limited,
                now@,
                token@,
            );
        }
    }
    pool.update_account(token, info, drop_limited, now)
}

// ---------------------------------------------------------------------------
// finding an account for a request
// ---------------------------------------------------------------------------

/// The search for an account that can serve a request.
pub struct Hunt {
    /// The tokens that were tried, each once.
    pub attempted: Vec<String>,
    /// How many accounts were tried.
    pub tries: usize,
}

/// What to do next in the search.
pub enum HuntStep {
    /// Ask for the data of this token's account.
    Check(String),
    /// Wait for a slot.
    Wait,
    /// Give up.
    Fail(String),
}

/// The refusal after `n` tokens were tried.
pub open spec fn tried_text(label: Seq<char>, n: nat) -> Seq<char> {
    crate::pool_model::no_quota_text(label) + " (tried "@ + decimal(n) + " tokens)"@
}

impl Hunt {
    /// A search that has tried nothing.
    pub fn new() -> (r: Hunt)
        ensures
            views(r.attempted@) == Seq::<Seq<char>>::empty(),
            r.tries == 0,
    {
        let r = Hunt { attempted: Vec::new(), tries: 0 };
        assert(views(r.attempted@) =~= Seq::empty());
        r
    }

    /// Takes the next account that was not tried yet.
    pub fn next(&mut self, pool: &mut AccountService, wanted: &Wanted, concurrency: i64) -> (r: HuntStep)
        requires
            old(pool)@.wf(),
            old(self).tries <= MAX_ATTEMPTS,
        ensures
            final(pool)@.wf(),
            final(self).tries <= MAX_ATTEMPTS,
            ({
                let tried = views(old(self).attempted@);
                let p = old(pool)@;
                let limit = if concurrency < 1 {
                    1
                } else {
                    concurrency as int
                };
                let free = p.available(tried, *wanted, limit);
                if old(self).tries >= MAX_ATTEMPTS {
                    &&& r matches HuntStep::Fail(e) && e@ == tried_text(
                        wanted_label(*wanted),
                        tried.len(),
                    )
                    &&& *final(self) == *old(self)
                    &&& final(pool)@ == p
                } else if p.ready(tried, *wanted).len() == 0 {
                    &&& r matches HuntStep::Fail(e) && e@ == crate::pool_model::no_quota_text(
                        wanted_label(*wanted),
                    )
                    &&& *final(self) == *old(self)
                    &&& final(pool)@ == p
                } else if free.len() == 0 {
                    r is Wait && *final(self) == *old(self) && final(pool)@ == p
                } else {
                    let t = free[p.index as int % free.len() as int];
                    &&& r matches HuntStep::Check(x) && x@ == t
                    &&& final(pool)@ == p.taken(t)
                    &&& final(self).tries == old(self).tries + 1
                    &&& views(final(self).attempted@) == (if tried.contains(t) {
                        tried
                    } else {
                        tried.push(t)
                    })
                }
            }),
            r matches HuntStep::Check(x) ==> {
                &&& !views(old(self).attempted@).contains(x@)
                &&& views(final(self).attempted@).contains(x@)
                &&& crate::assoc::lookup(old(pool)@.entries, x@) is Some
                &&& serves(crate::assoc::lookup(old(pool)@.entries, x@)->0, *wanted)
            },
    {
        if self.tries >= MAX_ATTEMPTS {
            let label = match &wanted.plan_type {
                Some(p) => p.clone(),
                None => text_or_empty(&wanted.source_type),
            };
            let mut e = if label.as_str().is_empty() {
                "no available image quota".to_owned()
            } else {
                cat3("no available ", label.as_str(), " image quota")
            };
            e.append(" (tried ");
            e.append(decimal_text(self.attempted.len() as u128).as_str());
            e.append(" tokens)");
            return HuntStep::Fail(e);
        }
        match pool.acquire_next_candidate_token(&self.attempted, wanted, concurrency) {
            Slot::Exhausted(e) => HuntStep::Fail(e),
            Slot::Busy => HuntStep::Wait,
            Slot::Taken(t) => {
                self.tries = self.tries + 1;
                push_new(&mut self.attempted, t.as_str());
                proof {
                    let tried = views(old(self).attempted@);
                    assert(tried.push(t@)[tried.len() as int] == t@);
                }
                HuntStep::Check(t)
            },
        }
    }

    /// Takes in the data of the account of `token`, `None` where it could not be had: the token
    /// is used where the account still serves the request; else its slot is given back.
    pub fn checked(
        &mut self,
        pool: &mut AccountService,
        wanted: &Wanted,
        token: &str,
        account: Option<&Json>,
    ) -> (r: Option<String>)
        requires
            old(pool)@.wf(),
        ensures
            final(pool)@.wf(),
            final(self).tries == old(self).tries,
            match account {
                Some(a) => {
                    let own = field_text(a@, "access_token"@);
                    &&& views(final(self).attempted@) == (if own.len() > 0 && own != token@
                        && !views(old(self).attempted@).contains(own) {
                        views(old(self).attempted@).push(own)
                    } else {
                        views(old(self).attempted@)
                    })
                    &&& if serves(a@, *wanted) {
                        &&& r matches Some(t) && t@ == or_else(own, token@)
                        &&& final(pool)@ == old(pool)@
                    } else {
                        r is None && final(pool)@ == old(pool)@.released(token@)
                    }
                },
                None => {
                    &&& r is None
                    &&& final(pool)@ == old(pool)@.released(token@)
                    &&& views(final(self).attempted@) == views(old(self).attempted@)
                },
            },
            r is Some ==> account is Some && serves((account->0)@, *wanted) && final(pool)@ == old(
                pool,
            )@,
            r is None ==> final(pool)@ == old(pool)@.released(token@),
    {
        match account {
            None => {
                pool.release_image_slot(token);
                None
            },
            Some(a) => {
                let own = text_at(a, "access_token");
                if !own.as_str().is_empty() && !same(own.as_str(), token) {
                    push_new(&mut self.attempted, own.as_str());
                }
                if can_serve(a, wanted) {
                    Some(non_empty_or(own, token))
                } else {
                    pool.release_image_slot(token);
                    None
                }
            },
        }
    }
}

// ---------------------------------------------------------------------------
// reports
// ---------------------------------------------------------------------------

/// Whether a text holds one of twelve marks of a connection that failed.
pub open spec fn mentions_connection(e: Seq<char>) -> bool {
    ||| occurs(e, "tls"@)
    ||| occurs(e, "ssl"@)
    ||| occurs(e, "handshake"@)
    ||| occurs(e, "connect"@)
    ||| occurs(e, "connection"@)
    ||| occurs(e, "proxy"@)
    ||| occurs(e, "timed out"@)
    ||| occurs(e, "timeout"@)
    ||| occurs(e, "dns"@)
    ||| occurs(e, "unreachable"@)
    ||| occurs(e, "reset"@)
    ||| occurs(e, "eof"@)
}

/// Whether an error is one of the connection and says nothing of the account.
pub fn is_tls_connection_error(error: &str) -> (r: bool)
    ensures
        r == mentions_connection(unicode_lower(error@)),
{
    let e = to_lower(error);
    let s = e.as_str();
    contains(s, "tls") || contains(s, "ssl") || contains(s, "handshake") || contains(s, "connect")
        || contains(s, "connection") || contains(s, "proxy") || contains(s, "timed out") || contains(
        s,
        "timeout",
    ) || contains(s, "dns") || contains(s, "unreachable") || contains(s, "reset") || contains(
        s,
        "eof",
    )
}

/// What came of refreshing one account.
pub struct Outcome {
    /// The token, in the form in which it is shown.
    pub label: String,
    /// Whether the account is still there, or what went wrong.
    pub result: Result<bool, String>,
}

/// An entry of a list of errors.
pub open spec fn error_entry(label: Seq<char>, error: Seq<char>) -> JsonView {
    empty_object().put("token"@, JsonView::Str(label)).put("error"@, JsonView::Str(error))
}

/// Writes an entry of a list of errors.
pub fn make_error_entry(label: &str, error: &str) -> (r: Json)
    ensures
        r@ == error_entry(label@, error@),
{
    let mut o = Json::object();
    o.set("token", Json::from_text(label));
    o.set("error", Json::from_text(error));
    o
}

/// How many accounts were refreshed.
pub open spec fn refreshed_count(outcomes: Seq<Outcome>) -> nat
    decreases outcomes.len(),
{
    if outcomes.len() == 0 {
        0
    } else {
        refreshed_count(outcomes.drop_last()) + (if outcomes.last().result == Ok::<bool, String>(
            true,
        ) {
            1nat
        } else {
            0
        })
    }
}

/// The errors of the accounts, without those of the connection.
pub open spec fn refresh_errors(outcomes: Seq<Outcome>) -> Seq<JsonView>
    decreases outcomes.len(),
{
    if outcomes.len() == 0 {
        Seq::empty()
    } else {
        let rest = refresh_errors(outcomes.drop_last());
        match outcomes.last().result {
            Err(e) => if mentions_connection(unicode_lower(e@)) {
                rest
            } else {
                rest.push(error_entry(outcomes.last().label@, e@))
            },
            Ok(_) => rest,
        }
    }
}

/// The report on a refresh of many accounts.
pub open spec fn refresh_report(refreshed: nat, errors: Seq<JsonView>, items: Seq<JsonView>) -> JsonView {
    empty_object().put("refreshed"@, count_json(refreshed)).put(
        "errors"@,
        JsonView::Arr(errors),
    ).put("items"@, JsonView::Arr(items)).put("relogined"@, count_json(0))
}

fn make_report(refreshed: usize, errors: Vec<Json>, items: Vec<Json>) -> (r: Json)
    ensures
        r@ == refresh_report(refreshed as nat, list_view(errors@), list_view(items@)),
{
    let mut o = Json::object();
    o.set("refreshed", Json::from_count(refreshed));
    o.set("errors", Json::Arr(errors));
    o.set("items", Json::Arr(items));
    o.set("relogined", Json::from_count(0));
    o
}

/// The report on a refresh of many accounts, from what came of each.
pub fn report_refresh(pool: &AccountService, outcomes: &Vec<Outcome>) -> (r: Json)
    ensures
        r@ == refresh_report(
            refreshed_count(outcomes@),
            refresh_errors(outcomes@),
            pool@.accounts(),
        ),
        r@.items_at("errors"@) == refresh_errors(outcomes@),
        r@.items_at("items"@) == pool@.accounts(),
        r@.get("refreshed"@) == Some(count_json(refreshed_count(outcomes@))),
{
    broadcast use crate::value::group_fields;

    proof {
        reveal_strlit("refreshed");
        reveal_strlit("errors");
        reveal_strlit("items");
        reveal_strlit("relogined");
        assert("refreshed"@.len() == 9 && "refreshed"@[2] == 'f');
        assert("errors"@.len() == 6);
        assert("items"@.len() == 5);
        assert("relogined"@.len() == 9 && "relogined"@[2] == 'l');
    }
    let mut refreshed: usize = 0;
    let mut errors: Vec<Json> = Vec::new();
    let mut i: usize = 0;
    assert(list_view(errors@) =~= Seq::empty());
    while i < outcomes.len()
        invariant
            refreshed <= i <= outcomes@.len(),
            refreshed == refreshed_count(outcomes@.take(i as int)),
            list_view(errors@) == refresh_errors(outcomes@.take(i as int)),
        decreases outcomes@.len() - i,
    {
        assert(outcomes@.take(i + 1).drop_last() =~= outcomes@.take(i as int));
        assert(outcomes@.take(i + 1).last() == outcomes@[i as int]);
        match &outcomes[i].result {
            Ok(there) => {
                if *there {
                    refreshed += 1;
                }
            },
            Err(e) => {
                if !is_tls_connection_error(e.as_str()) {
                    let ghost done = list_view(errors@);
                    let entry = make_error_entry(outcomes[i].label.as_str(), e.as_str());
                    let ghost ev = entry@;
                    errors.push(entry);
                    assert(list_view(errors@) =~= done.push(ev));
                }
            },
        }
        i += 1;
    }
    assert(outcomes@.take(i as int) =~= outcomes@);
    make_report(refreshed, errors, pool.list_accounts())
}

/// One account after the attempt to keep its refresh token alive.
pub struct Kept {
    /// The token, in the form in which it is shown.
    pub label: String,
    /// The account, where it is there.
    pub account: Option<Json>,
}

/// How many refresh tokens were kept alive.
pub open spec fn kept_count(kept: Seq<Kept>) -> nat
    decreases kept.len(),
{
    if kept.len() == 0 {
        0
    } else {
        kept_count(kept.drop_last()) + (match kept.last().account {
            Some(a) => if field_trim(a@, "last_token_refresh_error"@).len() == 0 {
                1nat
            } else {
                0
            },
            None => 0,
        })
    }
}

/// The errors of the attempts to keep refresh tokens alive.
pub open spec fn keepalive_errors(kept: Seq<Kept>) -> Seq<JsonView>
    decreases kept.len(),
{
    if kept.len() == 0 {
        Seq::empty()
    } else {
        let rest = keepalive_errors(kept.drop_last());
        match kept.last().account {
            Some(a) => {
                let e = field_trim(a@, "last_token_refresh_error"@);
                if e.len() == 0 {
                    rest
                } else {
                    rest.push(error_entry(kept.last().label@, e))
                }
            },
            None => rest,
        }
    }
}

/// The report on a keepalive, from the accounts after it.
pub fn report_keepalive(pool: &AccountService, kept: &Vec<Kept>) -> (r: Json)
    ensures
        r@ == (if kept@.len() == 0 {
            empty_object().put("refreshed"@, count_json(0)).put(
                "errors"@,
                JsonView::Arr(Seq::empty()),
            ).put("items"@, JsonView::Arr(pool@.accounts()))
        } else {
            refresh_report(kept_count(kept@), keepalive_errors(kept@), pool@.accounts())
        }),
        r@.items_at("errors"@) == keepalive_errors(kept@),
        r@.items_at("items"@) == pool@.accounts(),
        r@.get("refreshed"@) == Some(count_json(kept_count(kept@))),
{
    broadcast use crate::value::group_fields;

    proof {
        reveal_strlit("refreshed");
        reveal_strlit("errors");
        reveal_strlit("items");
        reveal_strlit("relogined");
        assert("refreshed"@.len() == 9 && "refreshed"@[2] == 'f');
        assert("errors"@.len() == 6);
        assert("items"@.len() == 5);
        assert("relogined"@.len() == 9 && "relogined"@[2] == 'l');
    }
    if kept.len() == 0 {
        let none: Vec<Json> = Vec::new();
        assert(list_view(none@) =~= Seq::empty());
        let mut o = Json::object();
        o.set("refreshed", Json::from_count(0));
        o.set("errors", Json::Arr(none));
        o.set("items", Json::Arr(pool.list_accounts()));
        return o;
    }
    let mut refreshed: usize = 0;
    let mut errors: Vec<Json> = Vec::new();
    let mut i: usize = 0;
    assert(list_view(errors@) =~= Seq::empty());
    while i < kept.len()
        invariant
            refreshed <= i <= kept@.len(),
            refreshed == kept_count(kept@.take(i as int)),
            list_view(errors@) == keepalive_errors(kept@.take(i as int)),
        decreases kept@.len() - i,
    {
        assert(kept@.take(i + 1).drop_last() =~= kept@.take(i as int));
        assert(kept@.take(i + 1).last() == kept@[i as int]);
        match &kept[i].account {
            Some(a) => {
                let e = trim_at(a, "last_token_refresh_error");
                if e.as_str().is_empty() {
                    refreshed += 1;
                } else {
                    let ghost done = list_view(errors@);
                    let entry = make_error_entry(kept[i].label.as_str(), e.as_str());
                    let ghost ev = entry@;
                    errors.push(entry);
                    assert(list_view(errors@) =~= done.push(ev));
                }
            },
            None => {},
        }
        i += 1;
    }
    assert(kept@.take(i as int) =~= kept@);
    make_report(refreshed, errors, pool.list_accounts())
}

} // verus!
