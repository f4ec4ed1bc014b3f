//! The management of accounts: what requests ask for, and what they are answered.
use vstd::prelude::*;
use vstd::string::StringExecFns;
use vstd::utf8::encode_utf8;

use crate::account::{
    account_payload_token, field_text, field_trim, payload_token, text_at, trim_at,
};
use crate::archive::{
    lemma_bytes_len, named_files, pack_zip_openly, zip_bytes, zip_names_differ, zip_names_fit,
    zip_small,
};
use crate::error::{message_detail, AppError};
use crate::json::{non_empty_or, text_from};
use crate::naming::{free_name, free_name_for, lemma_free_name_unique};
use crate::pool::{bare_payloads, preparing, AccountService};
use crate::pool_model::{gathered, PoolView};
use crate::roster::export_of;
use crate::text::{
    alnum, cat, cat3, chars_of, decimal, decimal_text, has_text, is_alnum, prefix_chars, same,
    strip, trim, trim_class, trimmed, unique_filled, unique_non_empty, views, CharClass,
};
use crate::value::{
    count_json, empty_object, list_view, or_else, plain_text, pretty, Json, JsonView,
};

verus! {

broadcast use crate::value::group_json;

// ---------------------------------------------------------------------------
// what requests ask for
// ---------------------------------------------------------------------------

/// The texts of the items of the array in the field `k`.
pub open spec fn texts_at(body: JsonView, k: Seq<char>) -> Seq<Seq<char>> {
    body.items_at(k).map_values(|x: JsonView| plain_text(Some(x)))
}

/// Reads the texts of the items of the array in the field `k`.
pub fn str_array(body: &Json, k: &str) -> (r: Vec<String>)
    ensures
        views(r@) == texts_at(body@, k@),
{
    let items = body.items_at(k);
    let ghost want = texts_at(body@, k@);
    let mut out: Vec<String> = Vec::new();
    let mut i: usize = 0;
    while i < items.len()
        invariant
            i <= items@.len(),
            list_view(items@) == body@.items_at(k@),
            want == texts_at(body@, k@),
            views(out@) =~= want.take(i as int),
        decreases items@.len() - i,
    {
        let ghost done = views(out@);
        assert(list_view(items@)[i as int] == items@[i as int]@);
        out.push(text_from(Some(&items[i])));
        assert(views(out@) =~= done.push(want[i as int]));
        i += 1;
    }
    assert(views(out@) =~= want);
    out
}

/// The fields among `keys` that are there and not `null`.
pub open spec fn updates_of(body: JsonView, keys: Seq<Seq<char>>) -> JsonView
    decreases keys.len(),
{
    if keys.len() == 0 {
        empty_object()
    } else {
        let done = updates_of(body, keys.drop_last());
        if body.at(keys.last()) is Null {
            done
        } else {
            done.put(keys.last(), body.at(keys.last()))
        }
    }
}

/// Picks the fields among `keys` that are there and not `null`.
pub fn build_updates(body: &Json, keys: &Vec<String>) -> (r: Json)
    ensures
        r@ == updates_of(body@, views(keys@)),
{
    let ghost ks = views(keys@);
    let mut out = Json::object();
    let mut i: usize = 0;
    assert(ks.take(0) =~= Seq::empty());
    while i < keys.len()
        invariant
            i <= keys@.len(),
            ks == views(keys@),
            out@ == updates_of(body@, ks.take(i as int)),
        decreases keys@.len() - i,
    {
        assert(ks.take(i + 1).drop_last() =~= ks.take(i as int));
        let v = body.at(keys[i].as_str());
        if !v.is_null() {
            out.set(keys[i].as_str(), v);
        }
        i += 1;
    }
    assert(ks.take(i as int) =~= ks);
    out
}

/// The texts of a list without the white space round them, empty ones left out, each once.
pub open spec fn unique_trimmed(s: Seq<Seq<char>>) -> Seq<Seq<char>> {
    unique_filled(s.map_values(|t: Seq<char>| trimmed(t)))
}

/// Trims tokens, and keeps those that are not empty, each once.
pub fn unique_tokens(tokens: &Vec<String>) -> (r: Vec<String>)
    ensures
        views(r@) == unique_trimmed(views(tokens@)),
{
    unique_non_empty(&trim_all(tokens))
}

fn trim_all(tokens: &Vec<String>) -> (r: Vec<String>)
    ensures
        views(r@) == views(tokens@).map_values(|t: Seq<char>| trimmed(t)),
{
    let ghost want = views(tokens@).map_values(|t: Seq<char>| trimmed(t));
    let mut out: Vec<String> = Vec::new();
    let mut i: usize = 0;
    while i < tokens.len()
        invariant
            i <= tokens@.len(),
            want == views(tokens@).map_values(|t: Seq<char>| trimmed(t)),
            views(out@) =~= want.take(i as int),
        decreases tokens@.len() - i,
    {
        let ghost done = views(out@);
        out.push(trim(tokens[i].as_str()));
        assert(views(out@) =~= done.push(want[i as int]));
        i += 1;
    }
    assert(views(out@) =~= want);
    out
}

/// The texts that are not empty.
pub open spec fn filled() -> spec_fn(Seq<char>) -> bool {
    |t: Seq<char>| t.len() > 0
}

/// The texts of a list without the white space round them, empty ones left out.
pub open spec fn filled_trimmed(s: Seq<Seq<char>>) -> Seq<Seq<char>> {
    s.map_values(|t: Seq<char>| trimmed(t)).filter(filled())
}

/// Trims texts, and keeps those that are not empty.
pub fn trim_filled(v: &Vec<String>) -> (r: Vec<String>)
    ensures
        views(r@) == filled_trimmed(views(v@)),
{
    let all = trim_all(v);
    let ghost av = views(all@);
    let ghost keep = filled();
    let mut out: Vec<String> = Vec::new();
    let mut i: usize = 0;
    proof {
        reveal(Seq::filter);
        assert(views(out@) =~= av.take(0).filter(keep));
    }
    while i < all.len()
        invariant
            i <= all@.len(),
            av == views(all@),
            keep == filled(),
            views(out@) == av.take(i as int).filter(keep),
        decreases all@.len() - i,
    {
        let ghost done = views(out@);
        assert(av.take(i + 1).drop_last() =~= av.take(i as int));
        assert(av.take(i + 1).filter(keep) == if keep(av[i as int]) {
            done.push(av[i as int])
        } else {
            done
        }) by {
            reveal(Seq::filter);
        }
        if !all[i].as_str().is_empty() {
            out.push(all[i].clone());
            assert(views(out@) =~= done.push(av[i as int]));
        }
        i += 1;
    }
    assert(av.take(i as int) =~= av);
    out
}

/// The tokens that a request names in the field `k`: trimmed, empty ones left out.
pub open spec fn tokens_at(body: JsonView, k: Seq<char>) -> Seq<Seq<char>> {
    filled_trimmed(texts_at(body, k))
}

/// Reads the tokens that a request names; there must be one.
pub fn required_tokens(body: &Json, k: &str) -> (r: Result<Vec<String>, AppError>)
    ensures
        match r {
            Ok(v) => tokens_at(body@, k@).len() > 0 && views(v@) == tokens_at(body@, k@),
            Err(e) => tokens_at(body@, k@).len() == 0 && e.is_plain(
                400,
                message_detail(k@ + " is required"@),
            ),
        },
{
    let out = trim_filled(&str_array(body, k));
    assert(views(out@).len() == out@.len());
    if out.len() == 0 {
        return Err(AppError::bad_request(cat(k, " is required").as_str()));
    }
    Ok(out)
}

// ---------------------------------------------------------------------------
// adding accounts
// ---------------------------------------------------------------------------

/// The payloads of a request to add accounts: the objects among its accounts.
pub open spec fn is_payload() -> spec_fn(JsonView) -> bool {
    |v: JsonView| v is Obj
}

/// The payloads of a request to add accounts.
pub open spec fn payloads_at(body: JsonView) -> Seq<JsonView> {
    body.items_at("accounts"@).filter(is_payload())
}

/// The tokens of some payloads.
pub open spec fn payload_tokens(payloads: Seq<JsonView>) -> Seq<Seq<char>> {
    payloads.map_values(|p: JsonView| payload_token(p))
}

/// All tokens of a request to add accounts, bare ones first.
pub open spec fn new_tokens(body: JsonView) -> Seq<Seq<char>> {
    unique_trimmed(texts_at(body, "tokens"@) + payload_tokens(payloads_at(body)))
}

/// Whether a token has no payload.
pub open spec fn without_payload(known: Seq<Seq<char>>) -> spec_fn(Seq<char>) -> bool {
    |t: Seq<char>| !known.contains(t)
}

/// The tokens of a request to add accounts that have no payload.
pub open spec fn extra_tokens(body: JsonView) -> Seq<Seq<char>> {
    new_tokens(body).filter(
        without_payload(unique_trimmed(payload_tokens(payloads_at(body)))),
    )
}

/// The pool after the accounts of a request were added, and how many were new and how many were
/// there before.
pub open spec fn accounts_created(p: PoolView, body: JsonView, now: Seq<char>) -> (
    PoolView,
    nat,
    nat,
) {
    if payloads_at(body).len() > 0 {
        let (q, added, skipped) = p.admitted_all(
            gathered(payloads_at(body).filter_map(preparing())),
            now,
        );
        let extra = extra_tokens(body);
        if extra.len() > 0 {
            let (s, more, again) = q.admitted_all(
                gathered(bare_payloads(unique_filled(extra), "web"@)),
                now,
            );
            (s, added + more, skipped + again)
        } else {
            (q, added, skipped)
        }
    } else {
        p.admitted_all(gathered(bare_payloads(unique_filled(new_tokens(body)), "web"@)), now)
    }
}

fn pick_payloads(body: &Json) -> (r: Vec<Json>)
    ensures
        list_view(r@) == payloads_at(body@),
{
    let items = body.items_at("accounts");
    let ghost v = list_view(items@);
    let ghost keep = is_payload();
    let mut out: Vec<Json> = Vec::new();
    let mut i: usize = 0;
    proof {
        reveal(Seq::filter);
        assert(list_view(out@) =~= v.take(0).filter(keep));
    }
    while i < items.len()
        invariant
            i <= items@.len(),
            v == list_view(items@),
            keep == is_payload(),
            list_view(out@) == v.take(i as int).filter(keep),
        decreases items@.len() - i,
    {
        let ghost done = list_view(out@);
        assert(v.take(i + 1).drop_last() =~= v.take(i as int));
        assert(v.take(i + 1).filter(keep) == if keep(v[i as int]) {
            done.push(v[i as int])
        } else {
            done
        }) by {
            reveal(Seq::filter);
        }
        if items[i].is_object() {
            out.push(items[i].copy());
            assert(list_view(out@) =~= done.push(v[i as int]));
        }
        i += 1;
    }
    assert(v.take(i as int) =~= v);
    out
}

fn tokens_of(payloads: &Vec<Json>) -> (r: Vec<String>)
    ensures
        views(r@) == payload_tokens(list_view(payloads@)),
{
    let ghost want = payload_tokens(list_view(payloads@));
    let mut out: Vec<String> = Vec::new();
    let mut i: usize = 0;
    while i < payloads.len()
        invariant
            i <= payloads@.len(),
            want == payload_tokens(list_view(payloads@)),
            views(out@) =~= want.take(i as int),
        decreases payloads@.len() - i,
    {
        let ghost done = views(out@);
        out.push(account_payload_token(&payloads[i]));
        assert(views(out@) =~= done.push(want[i as int]));
        i += 1;
    }
    assert(views(out@) =~= want);
    out
}

fn tokens_outside(tokens: &Vec<String>, known: &Vec<String>) -> (r: Vec<String>)
    ensures
        views(r@) == views(tokens@).filter(without_payload(views(known@))),
{
    let ghost v = views(tokens@);
    let ghost keep = without_payload(views(known@));
    let mut out: Vec<String> = Vec::new();
    let mut i: usize = 0;
    proof {
        reveal(Seq::filter);
        assert(views(out@) =~= v.take(0).filter(keep));
    }
    while i < tokens.len()
        invariant
            i <= tokens@.len(),
            v == views(tokens@),
            keep == without_payload(views(known@)),
            views(out@) == v.take(i as int).filter(keep),
        decreases tokens@.len() - i,
    {
        let ghost done = views(out@);
        assert(v.take(i + 1).drop_last() =~= v.take(i as int));
        assert(v.take(i + 1).filter(keep) == if keep(v[i as int]) {
            done.push(v[i as int])
        } else {
            done
        }) by {
            reveal(Seq::filter);
        }
        if !has_text(known, tokens[i].as_str()) {
            out.push(tokens[i].clone());
            assert(views(out@) =~= done.push(v[i as int]));
        }
        i += 1;
    }
    assert(v.take(i as int) =~= v);
    out
}

/// What came of adding accounts.
pub struct Created {
    /// The tokens of the request, which are refreshed next.
    pub tokens: Vec<String>,
    pub added: usize,
    pub skipped: usize,
}

/// Adds the accounts that a request describes: payloads with all they hold, and bare tokens that
/// have no payload. A request without tokens is refused.
pub fn create_accounts(pool: &mut AccountService, body: &Json, now: &str) -> (r: Result<Created, AppError>)
    requires
        old(pool)@.wf(),
    ensures
        final(pool)@.wf(),
        if new_tokens(body@).len() == 0 {
            &&& r matches Err(e) && e.is_plain(400, message_detail("tokens is required"@))
            &&& final(pool)@ == old(pool)@
        } else {
            let (p, added, skipped) = accounts_created(old(pool)@, body@, now@);
            &&& final(pool)@ == p
            &&& r matches Ok(c) && views(c.tokens@) == new_tokens(body@) && (added + skipped
                <= usize::MAX ==> c.added == added && c.skipped == skipped)
        },
{
    let payloads = pick_payloads(body);
    assert(list_view(payloads@).len() == payloads@.len());
    let payload_names = tokens_of(&payloads);
    let mut combined = str_array(body, "tokens");
    let ghost bare = views(combined@);
    let ghost pv = views(payload_names@);
    let mut more = crate::text::copy_texts(&payload_names);
    combined.append(&mut more);
    assert(views(combined@) =~= bare + pv);
    let tokens = unique_tokens(&combined);
    assert(views(tokens@).len() == tokens@.len());
    if tokens.len() == 0 {
        return Err(AppError::bad_request("tokens is required"));
    }
    if payloads.len() > 0 {
        let (added, skipped) = pool.add_account_items(&payloads, now);
        let known = unique_tokens(&payload_names);
        let extra = tokens_outside(&tokens, &known);
        assert(views(extra@).len() == extra@.len());
        if extra.len() > 0 {
            let (new, again) = pool.add_accounts(&extra, "web", now);
            Ok(
                Created {
                    tokens,
                    added: added.wrapping_add(new),
                    skipped: skipped.wrapping_add(again),
                },
            )
        } else {
            Ok(Created { tokens, added, skipped })
        }
    } else {
        let (added, skipped) = pool.add_accounts(&tokens, "web", now);
        Ok(Created { tokens, added, skipped })
    }
}

/// The answer to a request that added accounts and refreshed them: `refresh` is the report on the
/// refresh.
pub fn created_report(added: usize, skipped: usize, refresh: &Json, items: Vec<Json>) -> (r: Json)
    ensures
        r@ == empty_object().put("added"@, count_json(added as nat)).put(
            "skipped"@,
            count_json(skipped as nat),
        ).put(
            "items"@,
            match refresh@.get("items"@) {
                Some(v) => v,
                None => JsonView::Arr(list_view(items@)),
            },
        ).put(
            "refreshed"@,
            match refresh@.get("refreshed"@) {
                Some(v) => v,
                None => count_json(0),
            },
        ).put(
            "errors"@,
            match refresh@.get("errors"@) {
                Some(v) => v,
                None => JsonView::Arr(Seq::empty()),
            },
        ),
        r@.get("added"@) == Some(count_json(added as nat)),
        r@.get("skipped"@) == Some(count_json(skipped as nat)),
        refresh@.get("items"@) is Some ==> r@.get("items"@) == refresh@.get("items"@),
        refresh@.get("items"@) is None ==> r@.items_at("items"@) == list_view(items@),
        refresh@.get("refreshed"@) is Some ==> r@.get("refreshed"@) == refresh@.get("refreshed"@),
        refresh@.get("errors"@) is Some ==> r@.get("errors"@) == refresh@.get("errors"@),
{
    proof {
        broadcast use crate::value::group_fields;

        reveal_strlit("added");
        reveal_strlit("skipped");
        reveal_strlit("items");
        reveal_strlit("refreshed");
        reveal_strlit("errors");
        assert("added"@.len() == 5 && "added"@[0] == 'a');
        assert("skipped"@.len() == 7);
        assert("items"@.len() == 5 && "items"@[0] == 'i');
        assert("refreshed"@.len() == 9);
        assert("errors"@.len() == 6);
    }
    broadcast use crate::value::group_fields;

    let mut o = Json::object();
    o.set("added", Json::from_count(added));
    o.set("skipped", Json::from_count(skipped));
    let shown = match refresh.get("items") {
        Some(v) => v.copy(),
        None => Json::Arr(items),
    };
    o.set("items", shown);
    let refreshed = match refresh.get("refreshed") {
        Some(v) => v.copy(),
        None => Json::from_count(0),
    };
    o.set("refreshed", refreshed);
    let errors = match refresh.get("errors") {
        Some(v) => v.copy(),
        None => {
            let none: Vec<Json> = Vec::new();
            assert(list_view(none@) =~= Seq::empty());
            Json::Arr(none)
        },
    };
    o.set("errors", errors);
    o
}

/// The payload of an account that was logged in.
pub fn login_payload(tokens: &Json) -> (r: Json)
    ensures
        r@ == empty_object().put("access_token"@, given(tokens@, "access_token"@)).put(
            "refresh_token"@,
            given(tokens@, "refresh_token"@),
        ).put("id_token"@, given(tokens@, "id_token"@)).put(
            "source_type"@,
            JsonView::Str("oauth_login"@),
        ),
        r@.str_at("access_token"@) == tokens@.str_at("access_token"@),
        r@.str_at("refresh_token"@) == tokens@.str_at("refresh_token"@),
        r@.str_at("id_token"@) == tokens@.str_at("id_token"@),
        r@.str_at("source_type"@) == "oauth_login"@,
{
    broadcast use crate::value::group_fields;

    proof {
        reveal_strlit("");
        reveal_strlit("access_token");
        reveal_strlit("refresh_token");
        reveal_strlit("id_token");
        reveal_strlit("source_type");
        assert("access_token"@.len() == 12);
        assert("refresh_token"@.len() == 13);
        assert("id_token"@.len() == 8);
        assert("source_type"@.len() == 11);
    }
    let mut o = Json::object();
    o.set("access_token", take_given(tokens, "access_token"));
    o.set("refresh_token", take_given(tokens, "refresh_token"));
    o.set("id_token", take_given(tokens, "id_token"));
    o.set("source_type", Json::from_text("oauth_login"));
    o
}

/// The field `k`, or an empty string.
pub open spec fn given(v: JsonView, k: Seq<char>) -> JsonView {
    match v.get(k) {
        Some(x) => x,
        None => JsonView::Str(""@),
    }
}

fn take_given(v: &Json, k: &str) -> (r: Json)
    ensures
        r@ == given(v@, k@),
{
    match v.get(k) {
        Some(x) => x.copy(),
        None => Json::from_text(""),
    }
}

/// What a request to change an account asks for.
pub struct AccountChange {
    pub access_token: String,
    pub updates: Json,
}

/// The fields of an account that a request can change.
pub open spec fn account_fields() -> Seq<Seq<char>> {
    seq!["type"@, "status"@, "quota"@, "proxy"@]
}

/// Reads a request to change an account: it names a token and a change.
pub fn read_account_change(body: &Json) -> (r: Result<AccountChange, AppError>)
    ensures
        ({
            let token = field_trim(body@, "access_token"@);
            let updates = updates_of(body@, account_fields());
            if token.len() == 0 {
                r matches Err(e) && e.is_plain(400, message_detail("access_token is required"@))
            } else if updates == empty_object() {
                r matches Err(e) && e.is_plain(
                    400,
                    message_detail("还没有检测到改动，请修改后再保存"@),
                )
            } else {
                r matches Ok(c) && c.access_token@ == token && c.updates@ == updates
            }
        }),
{
    let access_token = trim_at(body, "access_token");
    if access_token.as_str().is_empty() {
        return Err(AppError::bad_request("access_token is required"));
    }
    let mut keys: Vec<String> = Vec::new();
    keys.push("type".to_owned());
    keys.push("status".to_owned());
    keys.push("quota".to_owned());
    keys.push("proxy".to_owned());
    assert(views(keys@) =~= account_fields());
    let updates = build_updates(body, &keys);
    if no_fields(&updates) {
        return Err(AppError::bad_request("还没有检测到改动，请修改后再保存"));
    }
    Ok(AccountChange { access_token, updates })
}

fn no_fields(v: &Json) -> (r: bool)
    ensures
        r == (v@ == empty_object()),
{
    match v {
        Json::Obj(o) => {
            assert(o@.len() == 0 ==> crate::value::fields_view(o@) =~= Seq::empty());
            assert(crate::value::fields_view(o@).len() == o@.len());
            o.len() == 0
        },
        _ => false,
    }
}

/// The fields of a key that a request can change.
pub open spec fn key_fields() -> Seq<Seq<char>> {
    seq!["name"@, "enabled"@, "key"@]
}

/// Reads a request to change a key: it names a change.
pub fn read_key_change(body: &Json) -> (r: Result<Json, AppError>)
    ensures
        ({
            let updates = updates_of(body@, key_fields());
            if updates == empty_object() {
                r matches Err(e) && e.is_plain(
                    400,
                    message_detail("还没有检测到改动，请修改后再保存"@),
                )
            } else {
                r matches Ok(c) && c@ == updates
            }
        }),
{
    let mut keys: Vec<String> = Vec::new();
    keys.push("name".to_owned());
    keys.push("enabled".to_owned());
    keys.push("key".to_owned());
    assert(views(keys@) =~= key_fields());
    let updates = build_updates(body, &keys);
    if no_fields(&updates) {
        return Err(AppError::bad_request("还没有检测到改动，请修改后再保存"));
    }
    Ok(updates)
}

/// Checks a request to add a pool: it needs an address and a secret.
pub fn check_new_pool(body: &Json) -> (r: Result<(), AppError>)
    ensures
        if field_trim(body@, "base_url"@).len() == 0 {
            r matches Err(e) && e.is_plain(400, message_detail("base_url is required"@))
        } else if field_trim(body@, "secret_key"@).len() == 0 {
            r matches Err(e) && e.is_plain(400, message_detail("secret_key is required"@))
        } else {
            r is Ok
        },
{
    if trim_at(body, "base_url").as_str().is_empty() {
        return Err(AppError::bad_request("base_url is required"));
    }
    if trim_at(body, "secret_key").as_str().is_empty() {
        return Err(AppError::bad_request("secret_key is required"));
    }
    Ok(())
}

/// Checks a request to add a server: it needs an address, and a login or a key.
pub fn check_new_server(body: &Json) -> (r: Result<(), AppError>)
    ensures
        if field_trim(body@, "base_url"@).len() == 0 {
            r matches Err(e) && e.is_plain(400, message_detail("base_url is required"@))
        } else if (field_trim(body@, "email"@).len() == 0 || field_trim(body@, "password"@).len()
            == 0) && field_trim(body@, "api_key"@).len() == 0 {
            r matches Err(e) && e.is_plain(
                400,
                message_detail("email+password or api_key is required"@),
            )
        } else {
            r is Ok
        },
{
    if trim_at(body, "base_url").as_str().is_empty() {
        return Err(AppError::bad_request("base_url is required"));
    }
    let has_login = !trim_at(body, "email").as_str().is_empty() && !trim_at(
        body,
        "password",
    ).as_str().is_empty();
    if !has_login && trim_at(body, "api_key").as_str().is_empty() {
        return Err(AppError::bad_request("email+password or api_key is required"));
    }
    Ok(())
}

// ---------------------------------------------------------------------------
// exports
// ---------------------------------------------------------------------------

/// Whether a character may stand in the name of an exported file.
pub open spec fn name_char(c: char) -> bool {
    is_alnum(c) || c == '.' || c == '_' || c == '-'
}

/// A text with each run of other characters made one hyphen.
pub open spec fn collapsed(s: Seq<char>) -> Seq<char>
    decreases s.len(),
{
    if s.len() == 0 {
        s
    } else if name_char(s.last()) {
        collapsed(s.drop_last()).push(s.last())
    } else if s.len() > 1 && !name_char(s[s.len() - 2]) {
        collapsed(s.drop_last())
    } else {
        collapsed(s.drop_last()).push('-')
    }
}

/// The name under which an export is kept.
pub open spec fn export_name(value: Seq<char>, fallback: Seq<char>) -> Seq<char> {
    let clean = or_else(strip(collapsed(trimmed(value)), CharClass::Joiner), fallback);
    clean.take(
        if clean.len() > 80 {
            80
        } else {
            clean.len() as int
        },
    )
}

fn collapse(s: &str) -> (r: String)
    ensures
        r@ == collapsed(s@),
{
    let v = chars_of(s);
    let mut out = String::new();
    let mut i: usize = 0;
    let mut dash = false;
    while i < v.len()
        invariant
            i <= v@.len(),
            v@ == s@,
            dash == (i > 0 && !name_char(v@[i - 1])),
            out@ == collapsed(v@.take(i as int)),
        decreases v@.len() - i,
    {
        let ghost t = v@.take(i + 1);
        assert(t.drop_last() =~= v@.take(i as int));
        assert(t.last() == v@[i as int]);
        assert(i > 0 ==> t[t.len() - 2] == v@[i - 1]);
        let c = v[i];
        if alnum(c) || c == '.' || c == '_' || c == '-' {
            out.push(c);
            dash = false;
        } else if !dash {
            out.push('-');
            dash = true;
        }
        i += 1;
    }
    assert(v@.take(i as int) =~= s@);
    out
}

/// Makes a name for an export: other characters than letters, digits and `._-` become hyphens,
/// one for each run, and the ends lose `-._`; at most eighty characters stay.
pub fn safe_export_name(value: &str, fallback: &str) -> (r: String)
    ensures
        r@ == export_name(value@, fallback@),
{
    let flat = collapse(trim(value).as_str());
    let clean = non_empty_or(trim_class(flat.as_str(), CharClass::Joiner), fallback);
    prefix_chars(clean.as_str(), 80)
}

/// The number of an export with at least three digits.
pub open spec fn three_digits(n: nat) -> Seq<char> {
    if n < 10 {
        "00"@ + decimal(n)
    } else if n < 100 {
        "0"@ + decimal(n)
    } else {
        decimal(n)
    }
}

/// The name of the export of the `n`th account, before it is made free.
pub open spec fn item_base(item: JsonView, n: nat) -> Seq<char> {
    let fallback = "account-"@ + three_digits(n);
    export_name(
        or_else(field_text(item, "email"@), or_else(field_text(item, "account_id"@), fallback)),
        fallback,
    )
}

/// The names of the exports: each free of those before it.
pub open spec fn item_names(items: Seq<JsonView>) -> Seq<Seq<char>>
    decreases items.len(),
{
    if items.len() == 0 {
        Seq::empty()
    } else {
        let used = item_names(items.drop_last());
        used.push(free_name_for(used, item_base(items.last(), items.len()), "-"@, ""@))
    }
}

/// The files of an export: one for each account.
pub open spec fn item_files(items: Seq<JsonView>) -> Seq<(Seq<char>, Seq<u8>)>
    decreases items.len(),
{
    if items.len() == 0 {
        Seq::empty()
    } else {
        item_files(items.drop_last()).push(
            (
                item_names(items).last() + ".json"@,
                encode_utf8(pretty(items.last()) + "\n"@),
            ),
        )
    }
}

fn base_name(item: &Json, n: usize) -> (r: String)
    ensures
        r@ == item_base(item@, n as nat),
{
    let digits = decimal_text(n as u128);
    let padded = if n < 10 {
        cat("00", digits.as_str())
    } else if n < 100 {
        cat("0", digits.as_str())
    } else {
        digits
    };
    let fallback = cat("account-", padded.as_str());
    let second = non_empty_or(text_at(item, "account_id"), fallback.as_str());
    let raw = non_empty_or(text_at(item, "email"), second.as_str());
    safe_export_name(raw.as_str(), fallback.as_str())
}

/// The names of exports differ.
pub proof fn law_export_names_differ(items: Seq<JsonView>)
    ensures
        item_names(items).no_duplicates(),
        item_names(items).len() == items.len(),
    decreases items.len(),
{
    if items.len() > 0 {
        let used = item_names(items.drop_last());
        law_export_names_differ(items.drop_last());
        let base = item_base(items.last(), items.len());
        crate::naming::lemma_free_name_exists(used, base, "-"@, ""@);
        let name = free_name_for(used, base, "-"@, ""@);
        crate::naming::law_free_name_is_free(used, base, "-"@, ""@, name);
        let all = used.push(name);
        assert forall|i: int, j: int| 0 <= i < j < all.len() implies all[i] != all[j] by {
            if j == used.len() {
                assert(used.contains(all[i]));
            }
        }
    }
}

proof fn lemma_item_files_differ(items: Seq<JsonView>)
    ensures
        item_files(items).len() == items.len(),
        item_names(items).len() == items.len(),
        forall|i: int|
            0 <= i < items.len() ==> (#[trigger] item_files(items)[i]).0 == item_names(items)[i]
                + ".json"@,
        zip_names_differ(item_files(items)),
    decreases items.len(),
{
    law_export_names_differ(items);
    if items.len() > 0 {
        lemma_item_files_differ(items.drop_last());
        law_export_names_differ(items.drop_last());
    }
    let names = item_names(items);
    let files = item_files(items);
    assert forall|i: int| 0 <= i < items.len() implies (#[trigger] files[i]).0 == names[i]
        + ".json"@ by {
        if i < items.len() - 1 {
            assert(files[i] == item_files(items.drop_last())[i]);
            assert(names[i] == item_names(items.drop_last())[i]);
        }
    }
    assert forall|i: int, j: int| 0 <= i < j < files.len() implies (#[trigger] files[i]).0 != (
    #[trigger] files[j]).0 by {
        if files[i].0 == files[j].0 {
            let tail = ".json"@;
            assert(files[i].0 == names[i] + tail && files[j].0 == names[j] + tail);
            assert((names[i] + tail).len() == (names[j] + tail).len());
            assert(names[i] =~= files[i].0.take(names[i].len() as int));
            assert(names[j] =~= files[j].0.take(names[j].len() as int));
        }
    }
}

/// Packs exports: one file for each account, named after its address or its id. Exports that
/// are not small may be passed over where the archive refuses them.
pub fn account_zip_bytes(items: &Vec<Json>) -> (r: Vec<u8>)
    ensures
        zip_small(item_files(list_view(items@))) ==> r@ == zip_bytes(item_files(list_view(items@))),
{
    let ghost v = list_view(items@);
    let mut used: Vec<String> = Vec::new();
    let mut files: Vec<(String, Vec<u8>)> = Vec::new();
    let mut i: usize = 0;
    assert(views(used@) =~= Seq::empty());
    assert(named_files(files@) =~= Seq::empty());
    while i < items.len()
        invariant
            i <= items@.len(),
            v == list_view(items@),
            views(used@) == item_names(v.take(i as int)),
            named_files(files@) == item_files(v.take(i as int)),
            zip_names_fit(named_files(files@)),
        decreases items@.len() - i,
    {
        assert(v.take(i + 1).drop_last() =~= v.take(i as int));
        assert(v.take(i + 1).last() == items@[i as int]@);
        let ghost had = views(used@);
        let ghost done = named_files(files@);
        let base = base_name(&items[i], i + 1);
        let name = free_name(&used, base.as_str(), "-", "");
        proof {
            lemma_free_name_unique(had, base@, "-"@, ""@, name@);
        }
        let text = cat(items[i].to_pretty().as_str(), "\n");
        let bytes = vstd::slice::slice_to_vec(text.as_str().as_bytes());
        let ghost bv = bytes@;
        let file = cat(name.as_str(), ".json");
        let ghost fv = file@;
        let ghost nv = name@;
        proof {
            reveal_strlit("-");
            reveal_strlit("");
            reveal_strlit(".json");
            lemma_bytes_len(fv);
        }
        used.push(name);
        assert(views(used@) =~= had.push(nv));
        files.push((file, bytes));
        assert(named_files(files@) =~= done.push((fv, bv)));
        i += 1;
    }
    assert(v.take(i as int) =~= v);
    proof {
        lemma_item_files_differ(v);
    }
    pack_zip_openly(&files)
}

/// An export as it is downloaded.
pub struct Export {
    pub content_type: String,
    pub filename: String,
    pub bytes: Vec<u8>,
}

/// The text of an export: a single account as an object, more of them as a list.
pub open spec fn export_text(items: Seq<JsonView>) -> Seq<char> {
    pretty(
        if items.len() == 1 {
            items[0]
        } else {
            JsonView::Arr(items)
        },
    ) + "\n"@
}

/// Exports the accounts that a request names, or all. `timestamp` goes into the file's name.
pub fn export_accounts(pool: &AccountService, body: &Json, timestamp: &str) -> (r: Result<Export, AppError>)
    ensures
        ({
            let wanted = unique_filled(unique_trimmed(texts_at(body@, "access_tokens"@)));
            let items = pool@.accounts().filter_map(export_of(wanted));
            if items.len() == 0 {
                r matches Err(e) && e.is_plain(
                    400,
                    message_detail(
                        "没有可导出的完整账号，需要同时有 access_token、refresh_token 和 id_token"@,
                    ),
                )
            } else if field_text(body@, "format"@) == "zip"@ {
                r matches Ok(x) && x.content_type@ == "application/zip"@ && x.filename@
                    == "codex-accounts-"@ + timestamp@ + ".zip"@ && (zip_small(item_files(items)) ==> x.bytes@
                    == zip_bytes(item_files(items)))
            } else {
                r matches Ok(x) && x.content_type@ == "application/json"@ && x.filename@
                    == "codex-accounts-"@ + timestamp@ + ".json"@ && x.bytes@ == encode_utf8(
                    export_text(items),
                )
            }
        }),
        ({
            let items = pool@.accounts().filter_map(
                export_of(unique_filled(unique_trimmed(texts_at(body@, "access_tokens"@)))),
            );
            &&& r is Ok <==> items.len() > 0
            &&& field_text(body@, "format"@) != "zip"@ ==> (r matches Ok(x) ==> x.bytes@ == encode_utf8(
                pretty(
                    if items.len() == 1 {
                        items[0]
                    } else {
                        JsonView::Arr(items)
                    },
                ) + "\n"@,
            ))
        }),
{
    let wanted = unique_tokens(&str_array(body, "access_tokens"));
    let items = pool.build_export_items(&wanted);
    let ghost iv = list_view(items@);
    assert(iv.len() == items@.len());
    if items.len() == 0 {
        return Err(
            AppError::bad_request(
                "没有可导出的完整账号，需要同时有 access_token、refresh_token 和 id_token",
            ),
        );
    }
    if same(text_at(body, "format").as_str(), "zip") {
        return Ok(
            Export {
                content_type: "application/zip".to_owned(),
                filename: cat3("codex-accounts-", timestamp, ".zip"),
                bytes: account_zip_bytes(&items),
            },
        );
    }
    let text = if items.len() == 1 {
        assert(iv[0] == items@[0]@);
        items[0].to_pretty()
    } else {
        Json::Arr(items).to_pretty()
    };
    let full = cat(text.as_str(), "\n");
    Ok(
        Export {
            content_type: "application/json".to_owned(),
            filename: cat3("codex-accounts-", timestamp, ".json"),
            bytes: vstd::slice::slice_to_vec(full.as_str().as_bytes()),
        },
    )
}

} // verus!
