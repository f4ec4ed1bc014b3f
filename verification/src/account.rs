//! One account of the pool: how its record is normalized, and what requests it can serve.
use vstd::prelude::*;

use crate::json::{bare_from, non_empty_or, text_from};
use crate::text::{replace_char, replaced, same, to_lower, trim, trimmed, unicode_lower, views};
use crate::value::{
    bare_text, compact, int_json, or_else, plain_text, Json, JsonView,
};

verus! {

broadcast use crate::value::group_json;

// ---------------------------------------------------------------------------
// readings of a record
// ---------------------------------------------------------------------------

/// The text in the field `k`.
pub open spec fn field_text(v: JsonView, k: Seq<char>) -> Seq<char> {
    plain_text(v.get(k))
}

/// The text in the field `k`, without the white space at its ends.
pub open spec fn field_trim(v: JsonView, k: Seq<char>) -> Seq<char> {
    trimmed(field_text(v, k))
}

/// Reads [`field_text`].
pub fn text_at(v: &Json, k: &str) -> (r: String)
    ensures
        r@ == field_text(v@, k@),
{
    text_from(v.get(k))
}

/// Reads [`field_trim`].
pub fn trim_at(v: &Json, k: &str) -> (r: String)
    ensures
        r@ == field_trim(v@, k@),
{
    trim(text_at(v, k).as_str())
}

/// Whether the field `k` holds the string `s`.
pub open spec fn is_at(v: JsonView, k: Seq<char>, s: Seq<char>) -> bool {
    v.get(k) == Some(JsonView::Str(s))
}

/// Decides [`is_at`].
pub fn holds_at(v: &Json, k: &str, s: &str) -> (r: bool)
    ensures
        r == is_at(v@, k@, s@),
{
    match v.get(k) {
        Some(Json::Str(t)) => same(t.as_str(), s),
        _ => false,
    }
}

/// Whether the string in the field `k` is `s`, whatever its case and the space round it.
pub open spec fn reads_as(v: JsonView, k: Seq<char>, s: Seq<char>) -> bool {
    unicode_lower(trimmed(v.str_at(k))) == s
}

fn field_reads_as(v: &Json, k: &str, s: &str) -> (r: bool)
    ensures
        r == reads_as(v@, k@, s@),
{
    same(to_lower(trim(v.str_at(k).as_str()).as_str()).as_str(), s)
}

/// The object `n` with an empty string in the field `k` replaced by `null`.
pub open spec fn kept_or_null(n: JsonView, k: Seq<char>) -> JsonView {
    n.put(
        k,
        match n.at(k) {
            JsonView::Str(s) => if s.len() > 0 {
                JsonView::Str(s)
            } else {
                JsonView::Null
            },
            other => other,
        },
    )
}

/// Replaces an empty string in the field `k` by `null`.
pub fn set_or_null(n: &mut Json, k: &str)
    ensures
        final(n)@ == kept_or_null(old(n)@, k@),
{
    let v = match n.at(k) {
        Json::Str(s) => if s.as_str().is_empty() {
            Json::Null
        } else {
            Json::Str(s)
        },
        other => other,
    };
    n.set(k, v);
}

/// The object `n` with the field `k` made an integer.
pub open spec fn with_count(n: JsonView, k: Seq<char>) -> JsonView {
    n.put(k, int_json(n.int_at(k, 0) as int))
}

fn set_count(n: &mut Json, k: &str)
    ensures
        final(n)@ == with_count(old(n)@, k@),
{
    let v = Json::from_int(n.int_at(k, 0));
    n.set(k, v);
}

/// The object `n` with the field `k` made a string that is not empty.
pub open spec fn with_text(n: JsonView, k: Seq<char>, default: Seq<char>) -> JsonView {
    n.put(k, JsonView::Str(or_else(n.str_at(k), default)))
}

fn set_text(n: &mut Json, k: &str, default: &str)
    ensures
        final(n)@ == with_text(old(n)@, k@, default@),
{
    let v = non_empty_or(n.str_at(k), default);
    n.set(k, Json::Str(v));
}

/// `dst` with the fields of the object `src` set over its own; an empty object stands for a
/// `dst` that is none.
pub open spec fn merged(dst: JsonView, src: JsonView) -> JsonView {
    let base = match dst {
        JsonView::Obj(o) => o,
        _ => Seq::empty(),
    };
    match src {
        JsonView::Obj(p) => JsonView::Obj(crate::assoc::put_all(base, p)),
        _ => JsonView::Obj(base),
    }
}

/// Sets the fields of the object `src` over those of `dst`.
pub fn merge_objects(dst: Json, src: &Json) -> (r: Json)
    ensures
        r@ == merged(dst@, src@),
        r@ is Obj,
{
    let mut out = match dst {
        Json::Obj(o) => Json::Obj(o),
        _ => Json::object(),
    };
    let ghost base = out@->Obj_0;
    match src {
        Json::Obj(p) => {
            let ghost fields = crate::value::fields_view(p@);
            let mut i: usize = 0;
            assert(fields.take(0) =~= Seq::empty());
            while i < p.len()
                invariant
                    i <= p@.len(),
                    fields == crate::value::fields_view(p@),
                    out@ == JsonView::Obj(crate::assoc::put_all(base, fields.take(i as int))),
                decreases p@.len() - i,
            {
                assert(fields.take(i + 1).drop_last() =~= fields.take(i as int));
                out.set(p[i].0.as_str(), p[i].1.copy());
                i += 1;
            }
            assert(fields.take(i as int) =~= fields);
        },
        _ => {},
    }
    out
}

// ---------------------------------------------------------------------------
// types
// ---------------------------------------------------------------------------

/// How the account was obtained, in lower case; `web` where it does not say.
pub open spec fn source_type(v: JsonView) -> Seq<char> {
    or_else(
        match v {
            JsonView::Str(s) => unicode_lower(trimmed(s)),
            JsonView::Null => Seq::empty(),
            other => unicode_lower(trimmed(compact(other))),
        },
        "web"@,
    )
}

/// Reads [`source_type`].
pub fn normalize_source_type(value: &Json) -> (r: String)
    ensures
        r@ == source_type(value@),
{
    let raw = match value {
        Json::Str(s) => to_lower(trim(s.as_str()).as_str()),
        Json::Null => String::new(),
        other => to_lower(trim(other.to_text().as_str()).as_str()),
    };
    non_empty_or(raw, "web")
}

/// The plan that a lower-case name stands for.
pub open spec fn plan_alias(k: Seq<char>) -> Option<Seq<char>> {
    if k == "free"@ {
        Some("free"@)
    } else if k == "plus"@ {
        Some("Plus"@)
    } else if k == "pro"@ {
        Some("Pro"@)
    } else if k == "prolite"@ {
        Some("ProLite"@)
    } else if k == "team"@ {
        Some("Team"@)
    } else if k == "business"@ {
        Some("Team"@)
    } else if k == "enterprise"@ {
        Some("Enterprise"@)
    } else {
        None
    }
}

fn alias_of(k: &str) -> (r: Option<String>)
    ensures
        match r {
            Some(s) => plan_alias(k@) == Some(s@),
            None => plan_alias(k@) is None,
        },
{
    if same(k, "free") {
        Some("free".to_owned())
    } else if same(k, "plus") {
        Some("Plus".to_owned())
    } else if same(k, "pro") {
        Some("Pro".to_owned())
    } else if same(k, "prolite") {
        Some("ProLite".to_owned())
    } else if same(k, "team") {
        Some("Team".to_owned())
    } else if same(k, "business") {
        Some("Team".to_owned())
    } else if same(k, "enterprise") {
        Some("Enterprise".to_owned())
    } else {
        None
    }
}

/// A plan's name in lower case, with its separators made underscores.
pub open spec fn plan_key(raw: Seq<char>) -> Seq<char> {
    replaced(replaced(unicode_lower(raw), '-', "_"@), ' ', "_"@)
}

/// The plan that a value names: a known plan under any spelling of its name, or the text
/// itself; none where the text is empty.
pub open spec fn plan_of(v: JsonView) -> Option<Seq<char>> {
    let raw = bare_text(v);
    let key = plan_key(raw);
    if raw.len() == 0 {
        None
    } else {
        match plan_alias(replaced(key, '_', ""@)) {
            Some(p) => Some(p),
            None => match plan_alias(key) {
                Some(p) => Some(p),
                None => Some(raw),
            },
        }
    }
}

/// Reads [`plan_of`].
pub fn normalize_account_type(value: &Json) -> (r: Option<String>)
    ensures
        match r {
            Some(s) => plan_of(value@) == Some(s@),
            None => plan_of(value@) is None,
        },
{
    let raw = bare_from(value);
    if raw.as_str().is_empty() {
        return None;
    }
    let key = replace_char(
        replace_char(to_lower(raw.as_str()).as_str(), '-', "_").as_str(),
        ' ',
        "_",
    );
    let squeezed = replace_char(key.as_str(), '_', "");
    match alias_of(squeezed.as_str()) {
        Some(p) => Some(p),
        None => match alias_of(key.as_str()) {
            Some(p) => Some(p),
            None => Some(raw),
        },
    }
}

// ---------------------------------------------------------------------------
// normalization
// ---------------------------------------------------------------------------

/// The token of a record, under either of its two names.
pub open spec fn raw_token(item: JsonView) -> Seq<char> {
    or_else(item.str_at("access_token"@), item.str_at("accessToken"@))
}

fn token_of(item: &Json) -> (r: String)
    ensures
        r@ == raw_token(item@),
{
    let b = item.str_at("accessToken");
    non_empty_or(item.str_at("access_token"), b.as_str())
}

/// The record under its token, with a `codex` type moved to the export type.
pub open spec fn identified(item: JsonView) -> JsonView {
    let n = item.without("accessToken"@).put("access_token"@, JsonView::Str(raw_token(item)));
    if unicode_lower(field_trim(item, "type"@)) == "codex"@ {
        n.put("export_type"@, JsonView::Str("codex"@)).without("type"@)
    } else {
        n
    }
}

fn identify(item: &Json) -> (r: Json)
    ensures
        r@ == identified(item@),
{
    let token = token_of(item);
    let mut n = item.copy();
    n.remove("accessToken");
    n.set("access_token", Json::Str(token));
    if same(to_lower(trim_at(item, "type").as_str()).as_str(), "codex") {
        n.set("export_type", Json::from_text("codex"));
        n.remove("type");
    }
    n
}

/// The record with its type, status, quota and addresses filled in.
pub open spec fn graded(n: JsonView) -> JsonView {
    let n = with_text(n, "type"@, "free"@);
    let n = with_text(n, "status"@, "正常"@);
    let quota = n.int_at("quota"@, 0);
    let n = n.put(
        "quota"@,
        int_json(
            if quota < 0 {
                0
            } else {
                quota as int
            },
        ),
    );
    let n = n.put(
        "image_quota_unknown"@,
        JsonView::Bool(n.bool_at("image_quota_unknown"@, false)),
    );
    let n = kept_or_null(n, "email"@);
    let n = kept_or_null(n, "user_id"@);
    n.put("proxy"@, JsonView::Str(trimmed(n.str_at("proxy"@))))
}

fn grade(item: Json) -> (r: Json)
    ensures
        r@ == graded(item@),
{
    let mut n = item;
    set_text(&mut n, "type", "free");
    set_text(&mut n, "status", "正常");
    let quota = n.int_at("quota", 0);
    n.set(
        "quota",
        Json::from_int(
            if quota < 0 {
                0
            } else {
                quota
            },
        ),
    );
    let unknown = n.bool_at("image_quota_unknown", false);
    n.set("image_quota_unknown", Json::Bool(unknown));
    set_or_null(&mut n, "email");
    set_or_null(&mut n, "user_id");
    let proxy = trim(n.str_at("proxy").as_str());
    n.set("proxy", Json::Str(proxy));
    n
}

/// How the record says that it was obtained; an export for `codex` counts where it says
/// nothing.
pub open spec fn stated_source(n: JsonView) -> JsonView {
    let st = n.at("source_type"@);
    let blank = match st {
        JsonView::Str(s) => trimmed(s).len() == 0,
        _ => true,
    };
    if blank && reads_as(n, "export_type"@, "codex"@) {
        JsonView::Str("codex"@)
    } else {
        st
    }
}

/// The record with its source, limits and counters filled in.
pub open spec fn sourced(n: JsonView) -> JsonView {
    let n = n.put("source_type"@, JsonView::Str(source_type(stated_source(n))));
    let n = n.put(
        "limits_progress"@,
        match n.at("limits_progress"@) {
            JsonView::Arr(v) => JsonView::Arr(v),
            _ => JsonView::Arr(Seq::empty()),
        },
    );
    let n = kept_or_null(n, "default_model_slug"@);
    let n = kept_or_null(n, "restore_at"@);
    let n = with_count(n, "success"@);
    let n = with_count(n, "fail"@);
    with_count(n, "invalid_count"@)
}

fn source(item: Json) -> (r: Json)
    ensures
        r@ == sourced(item@),
{
    let mut n = item;
    let st = n.at("source_type");
    let blank = match &st {
        Json::Str(s) => trim(s.as_str()).as_str().is_empty(),
        _ => true,
    };
    let stated = if blank && field_reads_as(&n, "export_type", "codex") {
        Json::from_text("codex")
    } else {
        st
    };
    n.set("source_type", Json::Str(normalize_source_type(&stated)));
    let limits = match n.at("limits_progress") {
        Json::Arr(v) => Json::Arr(v),
        _ => {
            let v: Vec<Json> = Vec::new();
            assert(crate::value::list_view(v@) =~= Seq::empty());
            Json::Arr(v)
        },
    };
    n.set("limits_progress", limits);
    set_or_null(&mut n, "default_model_slug");
    set_or_null(&mut n, "restore_at");
    set_count(&mut n, "success");
    set_count(&mut n, "fail");
    set_count(&mut n, "invalid_count");
    n
}

/// The record with its times filled in; `now` stands for a missing creation time.
pub open spec fn dated(n: JsonView, now: Seq<char>) -> JsonView {
    let n = kept_or_null(n, "last_used_at"@);
    let n = kept_or_null(n, "last_invalid_at"@);
    let n = kept_or_null(n, "last_refresh_error"@);
    let n = kept_or_null(n, "last_refresh_error_at"@);
    let n = kept_or_null(n, "last_token_refresh_at"@);
    let n = kept_or_null(n, "last_token_refresh_error"@);
    let n = kept_or_null(n, "last_token_refresh_error_at"@);
    with_text(n, "created_at"@, now)
}

fn date(item: Json, now: &str) -> (r: Json)
    ensures
        r@ == dated(item@, now@),
{
    let mut n = item;
    set_or_null(&mut n, "last_used_at");
    set_or_null(&mut n, "last_invalid_at");
    set_or_null(&mut n, "last_refresh_error");
    set_or_null(&mut n, "last_refresh_error_at");
    set_or_null(&mut n, "last_token_refresh_at");
    set_or_null(&mut n, "last_token_refresh_error");
    set_or_null(&mut n, "last_token_refresh_error_at");
    set_text(&mut n, "created_at", now);
    n
}

/// The account that a record describes; none for a value that is no object or names no token.
pub open spec fn normal_account(item: JsonView, now: Seq<char>) -> Option<JsonView> {
    if item is Obj && raw_token(item).len() > 0 {
        Some(dated(sourced(graded(identified(item))), now))
    } else {
        None
    }
}

/// Makes an account of a record; `now` is the time to give it where it has no creation time.
pub fn normalize_account(item: &Json, now: &str) -> (r: Option<Json>)
    ensures
        match r {
            Some(a) => normal_account(item@, now@) == Some(a@),
            None => normal_account(item@, now@) is None,
        },
{
    if !item.is_object() || token_of(item).as_str().is_empty() {
        return None;
    }
    Some(date(source(grade(identify(item))), now))
}

// ---------------------------------------------------------------------------
// what an account can serve
// ---------------------------------------------------------------------------

/// The accounts that a request can be served by.
pub struct Wanted {
    /// The plan asked for; an empty one asks for none.
    pub plan_type: Option<String>,
    /// The source asked for; an empty one asks for none.
    pub source_type: Option<String>,
    /// The plans that will do; an empty list leaves all.
    pub plan_types: Vec<String>,
}

/// Whether an account can make images: it is neither disabled, limited nor abnormal, and has
/// quota left or an unknown one.
pub open spec fn image_ready(account: JsonView) -> bool {
    &&& account is Obj
    &&& account.str_at("status"@) != "禁用"@
    &&& account.str_at("status"@) != "限流"@
    &&& account.str_at("status"@) != "异常"@
    &&& (account.bool_at("image_quota_unknown"@, false) || account.int_at("quota"@, 0) > 0)
}

/// Decides [`image_ready`].
pub fn is_image_account_available(account: &Json) -> (r: bool)
    ensures
        r == image_ready(account@),
{
    if !account.is_object() {
        return false;
    }
    let status = account.str_at("status");
    if same(status.as_str(), "禁用") || same(status.as_str(), "限流") || same(
        status.as_str(),
        "异常",
    ) {
        return false;
    }
    account.bool_at("image_quota_unknown", false) || account.int_at("quota", 0) > 0
}

/// Whether the account's plan is the one asked for, whatever their case.
pub open spec fn plan_matches(account: JsonView, plan: Seq<char>) -> bool {
    plan.len() == 0 || match (plan_of(JsonView::Str(plan)), plan_of(account.at("type"@))) {
        (Some(p), Some(a)) => unicode_lower(p) == unicode_lower(a),
        _ => false,
    }
}

/// Decides [`plan_matches`].
pub fn account_matches_plan_type(account: &Json, plan: &str) -> (r: bool)
    ensures
        r == plan_matches(account@, plan@),
{
    if plan.is_empty() {
        return true;
    }
    match (normalize_account_type(&Json::from_text(plan)), normalize_account_type(
        &account.at("type"),
    )) {
        (Some(p), Some(a)) => same(to_lower(p.as_str()).as_str(), to_lower(a.as_str()).as_str()),
        _ => false,
    }
}

/// Whether the account's source is the one asked for.
pub open spec fn source_matches(account: JsonView, src: Seq<char>) -> bool {
    src.len() == 0 || source_type(account.at("source_type"@)) == source_type(JsonView::Str(src))
}

/// Decides [`source_matches`].
pub fn account_matches_source_type(account: &Json, src: &str) -> (r: bool)
    ensures
        r == source_matches(account@, src@),
{
    if src.is_empty() {
        return true;
    }
    same(
        normalize_source_type(&account.at("source_type")).as_str(),
        normalize_source_type(&Json::from_text(src)).as_str(),
    )
}

/// Whether the account's plan is one of those that will do.
pub open spec fn any_plan_matches(account: JsonView, plans: Seq<Seq<char>>) -> bool {
    plans.len() == 0 || match plan_of(account.at("type"@)) {
        Some(a) => exists|i: int|
            0 <= i < plans.len() && plan_of(JsonView::Str(#[trigger] plans[i])) == Some(a),
        None => false,
    }
}

/// Decides [`any_plan_matches`].
pub fn account_matches_any_plan_type(account: &Json, plans: &Vec<String>) -> (r: bool)
    ensures
        r == any_plan_matches(account@, views(plans@)),
{
    if plans.len() == 0 {
        return true;
    }
    let a = match normalize_account_type(&account.at("type")) {
        Some(a) => a,
        None => {
            return false;
        },
    };
    let mut i: usize = 0;
    while i < plans.len()
        invariant
            i <= plans@.len(),
            plan_of(account@.at("type"@)) == Some(a@),
            forall|j: int|
                0 <= j < i ==> plan_of(JsonView::Str(#[trigger] views(plans@)[j])) != Some(a@),
        decreases plans@.len() - i,
    {
        assert(views(plans@)[i as int] == plans@[i as int]@);
        match normalize_account_type(&Json::from_text(plans[i].as_str())) {
            Some(p) => {
                if same(p.as_str(), a.as_str()) {
                    return true;
                }
            },
            None => {},
        }
        i += 1;
    }
    false
}

/// The text of an optional argument, or the empty text.
pub open spec fn opt_text(s: Option<String>) -> Seq<char> {
    match s {
        Some(t) => t@,
        None => Seq::empty(),
    }
}

/// Reads [`opt_text`].
pub fn text_or_empty(s: &Option<String>) -> (r: String)
    ensures
        r@ == opt_text(*s),
{
    match s {
        Some(t) => t.clone(),
        None => String::new(),
    }
}

/// Whether an account can serve a request for images.
pub open spec fn serves(account: JsonView, wanted: Wanted) -> bool {
    &&& image_ready(account)
    &&& plan_matches(account, opt_text(wanted.plan_type))
    &&& any_plan_matches(account, views(wanted.plan_types@))
    &&& source_matches(account, opt_text(wanted.source_type))
}

/// Decides [`serves`].
pub fn can_serve(account: &Json, wanted: &Wanted) -> (r: bool)
    ensures
        r == serves(account@, *wanted),
{
    is_image_account_available(account) && account_matches_plan_type(
        account,
        text_or_empty(&wanted.plan_type).as_str(),
    ) && account_matches_any_plan_type(account, &wanted.plan_types) && account_matches_source_type(
        account,
        text_or_empty(&wanted.source_type).as_str(),
    )
}

// ---------------------------------------------------------------------------
// payloads
// ---------------------------------------------------------------------------

/// The token of a payload, without the white space round it.
pub open spec fn payload_token(item: JsonView) -> Seq<char> {
    trimmed(raw_token(item))
}

/// Reads [`payload_token`].
pub fn account_payload_token(item: &Json) -> (r: String)
    ensures
        r@ == payload_token(item@),
{
    trim(token_of(item).as_str())
}

/// A payload as it is added to the pool: under its trimmed token, a `codex` payload marked as
/// such, its plan taken for a missing type.
pub open spec fn prepared(item: JsonView) -> Option<JsonView> {
    if item is Obj && payload_token(item).len() > 0 {
        let p = item.without("accessToken"@).put("access_token"@, JsonView::Str(payload_token(item)));
        let p = if reads_as(p, "type"@, "codex"@) {
            p.put("export_type"@, JsonView::Str("codex"@)).put(
                "source_type"@,
                JsonView::Str("codex"@),
            ).without("type"@)
        } else {
            p
        };
        let p = if reads_as(p, "export_type"@, "codex"@) {
            p.put("source_type"@, JsonView::Str("codex"@))
        } else {
            p
        };
        let plan = trimmed(p.str_at("plan_type"@));
        if plan.len() > 0 && p.str_at("type"@).len() == 0 {
            Some(p.put("type"@, JsonView::Str(plan)))
        } else {
            Some(p)
        }
    } else {
        None
    }
}

/// Prepares a payload for the pool.
pub fn prepare_account_payload(item: &Json) -> (r: Option<Json>)
    ensures
        match r {
            Some(p) => prepared(item@) == Some(p@),
            None => prepared(item@) is None,
        },
{
    let token = account_payload_token(item);
    if !item.is_object() || token.as_str().is_empty() {
        return None;
    }
    let mut p = item.copy();
    p.remove("accessToken");
    p.set("access_token", Json::Str(token));
    if field_reads_as(&p, "type", "codex") {
        p.set("export_type", Json::from_text("codex"));
        p.set("source_type", Json::from_text("codex"));
        p.remove("type");
    }
    if field_reads_as(&p, "export_type", "codex") {
        p.set("source_type", Json::from_text("codex"));
    }
    let plan = trim(p.str_at("plan_type").as_str());
    if !plan.as_str().is_empty() && p.str_at("type").as_str().is_empty() {
        p.set("type", Json::Str(plan));
    }
    Some(p)
}

// ---------------------------------------------------------------------------
// what normalization guarantees
// ---------------------------------------------------------------------------

/// The names of an account's fields differ from that of its token.
pub proof fn lemma_token_name()
    ensures
        "accessToken"@ != "access_token"@,
        "export_type"@ != "access_token"@,
        "type"@ != "access_token"@,
        "status"@ != "access_token"@,
        "quota"@ != "access_token"@,
        "image_quota_unknown"@ != "access_token"@,
        "email"@ != "access_token"@,
        "user_id"@ != "access_token"@,
        "proxy"@ != "access_token"@,
        "source_type"@ != "access_token"@,
        "limits_progress"@ != "access_token"@,
        "default_model_slug"@ != "access_token"@,
        "restore_at"@ != "access_token"@,
        "success"@ != "access_token"@,
        "fail"@ != "access_token"@,
        "invalid_count"@ != "access_token"@,
        "last_used_at"@ != "access_token"@,
        "last_invalid_at"@ != "access_token"@,
        "last_refresh_error"@ != "access_token"@,
        "last_refresh_error_at"@ != "access_token"@,
        "last_token_refresh_at"@ != "access_token"@,
        "last_token_refresh_error"@ != "access_token"@,
        "last_token_refresh_error_at"@ != "access_token"@,
        "created_at"@ != "access_token"@,
        "refresh_token"@ != "access_token"@,
        "id_token"@ != "access_token"@,
{
    reveal_strlit("access_token");
    reveal_strlit("accessToken");
    reveal_strlit("export_type");
    reveal_strlit("type");
    reveal_strlit("status");
    reveal_strlit("quota");
    reveal_strlit("image_quota_unknown");
    reveal_strlit("email");
    reveal_strlit("user_id");
    reveal_strlit("proxy");
    reveal_strlit("source_type");
    reveal_strlit("limits_progress");
    reveal_strlit("default_model_slug");
    reveal_strlit("restore_at");
    reveal_strlit("success");
    reveal_strlit("fail");
    reveal_strlit("invalid_count");
    reveal_strlit("last_used_at");
    reveal_strlit("last_invalid_at");
    reveal_strlit("last_refresh_error");
    reveal_strlit("last_refresh_error_at");
    reveal_strlit("last_token_refresh_at");
    reveal_strlit("last_token_refresh_error");
    reveal_strlit("last_token_refresh_error_at");
    reveal_strlit("created_at");
    reveal_strlit("refresh_token");
    reveal_strlit("id_token");
    assert("access_token"@.len() == 12);
    assert("accessToken"@.len() == 11);
    assert("export_type"@.len() == 11);
    assert("type"@.len() == 4);
    assert("status"@.len() == 6);
    assert("quota"@.len() == 5);
    assert("image_quota_unknown"@.len() == 19);
    assert("email"@.len() == 5);
    assert("user_id"@.len() == 7);
    assert("proxy"@.len() == 5);
    assert("source_type"@.len() == 11);
    assert("limits_progress"@.len() == 15);
    assert("default_model_slug"@.len() == 18);
    assert("restore_at"@.len() == 10);
    assert("success"@.len() == 7);
    assert("fail"@.len() == 4);
    assert("invalid_count"@.len() == 13);
    assert("last_invalid_at"@.len() == 15);
    assert("last_refresh_error"@.len() == 18);
    assert("last_refresh_error_at"@.len() == 21);
    assert("last_token_refresh_at"@.len() == 21);
    assert("last_token_refresh_error"@.len() == 24);
    assert("last_token_refresh_error_at"@.len() == 27);
    assert("created_at"@.len() == 10);
    assert("refresh_token"@.len() == 13);
    assert("id_token"@.len() == 8);
    assert("last_used_at"@[0] != "access_token"@[0]);
}

/// An account is an object that holds the token of the record it was made of.
pub proof fn lemma_normal_token(item: JsonView, now: Seq<char>)
    ensures
        match normal_account(item, now) {
            Some(a) => a is Obj && is_at(a, "access_token"@, raw_token(item)),
            None => true,
        },
{
    if item is Obj && raw_token(item).len() > 0 {
        broadcast use crate::value::group_fields;

        lemma_token_name();
        let t = raw_token(item);
        let n = identified(item);
        assert(n is Obj && is_at(n, "access_token"@, t));
        let g = graded(n);
        assert(g is Obj && is_at(g, "access_token"@, t));
        let s = sourced(g);
        assert(s is Obj && is_at(s, "access_token"@, t));
        let d = dated(s, now);
        assert(d is Obj && is_at(d, "access_token"@, t));
    }
}

/// A record that names its token is read under that token.
pub proof fn lemma_token_put(item: JsonView, t: Seq<char>)
    requires
        item is Obj,
        t.len() > 0,
    ensures
        raw_token(item.put("access_token"@, JsonView::Str(t))) == t,
        is_at(item.put("access_token"@, JsonView::Str(t)), "access_token"@, t),
{
    broadcast use crate::value::group_fields;

}

// ---------------------------------------------------------------------------
// laws
// ---------------------------------------------------------------------------

proof fn lemma_graded(n: JsonView)
    requires
        n is Obj,
    ensures
        graded(n) is Obj,
        graded(n).get("access_token"@) == n.get("access_token"@),
        graded(n).str_at("status"@).len() > 0,
        graded(n).str_at("type"@).len() > 0,
        graded(n).int_at("quota"@, i64::MIN) >= 0,
{
    broadcast use crate::value::group_fields;

    reveal_strlit("access_token");
    reveal_strlit("type");
    reveal_strlit("status");
    reveal_strlit("quota");
    reveal_strlit("image_quota_unknown");
    reveal_strlit("email");
    reveal_strlit("user_id");
    reveal_strlit("proxy");
    assert("access_token"@.len() == 12 && "access_token"@[0] == 'a');
    assert("type"@.len() == 4 && "type"@[0] == 't');
    assert("status"@.len() == 6 && "status"@[0] == 's');
    assert("quota"@.len() == 5 && "quota"@[0] == 'q');
    assert("image_quota_unknown"@.len() == 19 && "image_quota_unknown"@[0] == 'i');
    assert("email"@.len() == 5 && "email"@[0] == 'e');
    assert("user_id"@.len() == 7 && "user_id"@[0] == 'u');
    assert("proxy"@.len() == 5 && "proxy"@[0] == 'p');
    reveal_strlit("free");
    reveal_strlit("正常");
    assert("free"@.len() == 4);
    assert("正常"@.len() == 2);
}

proof fn lemma_sourced(n: JsonView)
    requires
        n is Obj,
    ensures
        sourced(n) is Obj,
        sourced(n).get("access_token"@) == n.get("access_token"@),
        sourced(n).get("status"@) == n.get("status"@),
        sourced(n).get("type"@) == n.get("type"@),
        sourced(n).get("quota"@) == n.get("quota"@),
        sourced(n).str_at("source_type"@) == source_type(stated_source(n)),
{
    broadcast use crate::value::group_fields;

    reveal_strlit("access_token");
    reveal_strlit("type");
    reveal_strlit("status");
    reveal_strlit("quota");
    reveal_strlit("source_type");
    reveal_strlit("limits_progress");
    reveal_strlit("default_model_slug");
    reveal_strlit("restore_at");
    reveal_strlit("success");
    reveal_strlit("fail");
    reveal_strlit("invalid_count");
    assert("access_token"@.len() == 12 && "access_token"@[0] == 'a');
    assert("type"@.len() == 4 && "type"@[0] == 't');
    assert("status"@.len() == 6 && "status"@[0] == 's');
    assert("quota"@.len() == 5 && "quota"@[0] == 'q');
    assert("source_type"@.len() == 11 && "source_type"@[0] == 's');
    assert("limits_progress"@.len() == 15 && "limits_progress"@[0] == 'l');
    assert("default_model_slug"@.len() == 18 && "default_model_slug"@[0] == 'd');
    assert("restore_at"@.len() == 10 && "restore_at"@[0] == 'r');
    assert("success"@.len() == 7 && "success"@[0] == 's');
    assert("fail"@.len() == 4 && "fail"@[0] == 'f');
    assert("invalid_count"@.len() == 13 && "invalid_count"@[0] == 'i');
}

proof fn lemma_dated(n: JsonView, now: Seq<char>)
    requires
        n is Obj,
    ensures
        dated(n, now).get("access_token"@) == n.get("access_token"@),
        dated(n, now).get("status"@) == n.get("status"@),
        dated(n, now).get("type"@) == n.get("type"@),
        dated(n, now).get("quota"@) == n.get("quota"@),
        dated(n, now).get("source_type"@) == n.get("source_type"@),
        now.len() > 0 ==> dated(n, now).str_at("created_at"@).len() > 0,
{
    broadcast use crate::value::group_fields;

    reveal_strlit("access_token");
    reveal_strlit("type");
    reveal_strlit("status");
    reveal_strlit("quota");
    reveal_strlit("source_type");
    reveal_strlit("last_used_at");
    reveal_strlit("last_invalid_at");
    reveal_strlit("last_refresh_error");
    reveal_strlit("last_refresh_error_at");
    reveal_strlit("last_token_refresh_at");
    reveal_strlit("last_token_refresh_error");
    reveal_strlit("last_token_refresh_error_at");
    reveal_strlit("created_at");
    assert("access_token"@.len() == 12 && "access_token"@[0] == 'a');
    assert("type"@.len() == 4 && "type"@[0] == 't');
    assert("status"@.len() == 6 && "status"@[0] == 's');
    assert("quota"@.len() == 5 && "quota"@[0] == 'q');
    assert("source_type"@.len() == 11 && "source_type"@[0] == 's');
    assert("last_used_at"@.len() == 12 && "last_used_at"@[0] == 'l');
    assert("last_invalid_at"@.len() == 15 && "last_invalid_at"@[0] == 'l');
    assert("last_refresh_error"@.len() == 18 && "last_refresh_error"@[0] == 'l');
    assert("last_refresh_error_at"@.len() == 21 && "last_refresh_error_at"@[0] == 'l');
    assert("last_token_refresh_at"@.len() == 21 && "last_token_refresh_at"@[0] == 'l');
    assert("last_token_refresh_error"@.len() == 24 && "last_token_refresh_error"@[0] == 'l');
    assert("last_token_refresh_error_at"@.len() == 27 && "last_token_refresh_error_at"@[0] == 'l');
    assert("created_at"@.len() == 10 && "created_at"@[0] == 'c');
}

/// Every account has a token, a status, a type and a source, and no quota below zero.
pub proof fn law_accounts_are_complete(item: JsonView, now: Seq<char>)
    requires
        normal_account(item, now) is Some,
    ensures
        ({
            let a = normal_account(item, now)->0;
            &&& a.str_at("access_token"@) == raw_token(item)
            &&& a.str_at("access_token"@).len() > 0
            &&& a.str_at("status"@).len() > 0
            &&& a.str_at("type"@).len() > 0
            &&& a.int_at("quota"@, i64::MIN) >= 0
            &&& a.str_at("source_type"@) == source_type(stated_source(graded(identified(item))))
            &&& now.len() > 0 ==> a.str_at("created_at"@).len() > 0
        }),
{
    broadcast use crate::value::group_fields;

    reveal_strlit("access_token");
    reveal_strlit("accessToken");
    reveal_strlit("export_type");
    reveal_strlit("type");
    assert("access_token"@.len() == 12 && "access_token"@[0] == 'a');
    assert("accessToken"@.len() == 11 && "accessToken"@[0] == 'a');
    assert("export_type"@.len() == 11 && "export_type"@[0] == 'e');
    assert("type"@.len() == 4 && "type"@[0] == 't');
    let n = identified(item);
    assert(n is Obj);
    assert(n.get("access_token"@) == Some(JsonView::Str(raw_token(item))));
    lemma_graded(n);
    lemma_sourced(graded(n));
    lemma_dated(sourced(graded(n)), now);
}

} // verus!
