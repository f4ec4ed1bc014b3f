//! Who is let in, what keys are given out, what is taken of a request, and how errors are told.
use vstd::prelude::*;
use vstd::utf8::encode_utf8;

use crate::account::{payload_token, raw_token};
use crate::accounts_api::{
    accounts_created, collapsed, export_name, extra_tokens, filled, item_files, item_names,
    name_char, new_tokens, payload_tokens, payloads_at, texts_at, tokens_at, unique_trimmed,
    updates_of, without_payload,
};
use crate::assoc::lookup;
use crate::auth::{
    hash_taken, hashed, key_fault, key_updated, name_given, new_key, normal_key, opened,
    position_of, role_name, role_names, shown_of, KeyView,
};
use crate::error::{
    anthropic_body, detail_message, error_code, error_type, message_detail, openai_body,
    openai_path,
};
use crate::lists::{lemma_filtered_has, lemma_mapped_from, lemma_mapped_has};
use crate::pool::{bare_payload, bare_payloads, preparing};
use crate::pool_laws::law_added_present;
use crate::pool_model::{gathered, PoolView};
use crate::pool_use_laws::{law_gathered_tokens, law_prepared_payload};
use crate::support::{asset_candidates, bare_server, bearer_token, lies_in};
use crate::text::{
    ascii_lower, begins, trimmed, unicode_lower, unique_filled,
};
use crate::text_laws::{law_cut_once, law_unique_filled};
use crate::value::{bare_text, plain_text, pretty, JsonView};

verus! {

// ---------------------------------------------------------------------------
// keys
// ---------------------------------------------------------------------------

/// A key is refused where it is empty, where it is the administrator's, and where another key has
/// it; no other is.
pub proof fn law_refused_keys(keys: Seq<KeyView>, raw: Seq<char>, exclude: Seq<char>, admin: Seq<char>)
    ensures
        key_fault(keys, raw, exclude, admin) is None <==> {
            &&& trimmed(raw).len() > 0
            &&& trimmed(raw) != trimmed(admin)
            &&& forall|i: int|
                0 <= i < keys.len() && (exclude.len() == 0 || (#[trigger] keys[i]).id != exclude)
                    ==> keys[i].key_hash != hashed(trimmed(raw)) || keys[i].key_hash.len() == 0
        },
{
    let h = hashed(trimmed(raw));
    if hash_taken(keys, h, exclude) {
        let i = choose|i: int|
            0 <= i < keys.len() && (exclude.len() == 0 || (#[trigger] keys[i]).id != exclude)
                && keys[i].key_hash.len() > 0 && keys[i].key_hash == h;
        assert(keys[i].key_hash == h);
    }
}

/// Names are not given twice to keys of one role; a key without a name gets one that is free.
pub proof fn law_given_names(
    keys: Seq<KeyView>,
    name: Seq<char>,
    role: Seq<char>,
    exclude: Seq<char>,
    i: int,
)
    requires
        0 <= i < keys.len(),
        keys[i].role == role,
        exclude.len() == 0 || keys[i].id != exclude,
    ensures
        trimmed(name).len() > 0 ==> name_given(keys, name, role, exclude) != Some(keys[i].name),
        trimmed(name).len() > 0 && trimmed(name) == keys[i].name ==> name_given(
            keys,
            name,
            role,
            exclude,
        ) is None,
        trimmed(name).len() > 0 && name_given(keys, name, role, exclude) is Some ==> name_given(
            keys,
            name,
            role,
            exclude,
        ) == Some(trimmed(name)),
        trimmed(name).len() == 0 ==> name_given(keys, name, role, exclude) is Some,
{
    lemma_mapped_has(keys, role_name(role, exclude), i);
}

/// A name that no key of the role has is given as it is asked for.
pub proof fn law_free_names(keys: Seq<KeyView>, name: Seq<char>, role: Seq<char>, exclude: Seq<char>)
    requires
        trimmed(name).len() > 0,
        forall|i: int|
            0 <= i < keys.len() && (#[trigger] keys[i]).role == role && (exclude.len() == 0
                || keys[i].id != exclude) ==> keys[i].name != trimmed(name),
    ensures
        name_given(keys, name, role, exclude) == Some(trimmed(name)),
{
    let f = role_name(role, exclude);
    if role_names(keys, role, exclude).contains(trimmed(name)) {
        lemma_mapped_from(keys, f, trimmed(name));
        let i = choose|i: int| 0 <= i < keys.len() && f(#[trigger] keys[i]) == Some(trimmed(name));
        assert(keys[i].role == role);
    }
}

/// A change sets what it names, and leaves the rest of a key: its id, its role, its time, and,
/// unless a new key comes, the key itself.
pub proof fn law_changed_key(
    keys: Seq<KeyView>,
    k: KeyView,
    updates: JsonView,
    id: Seq<char>,
    admin: Seq<char>,
)
    ensures
        key_updated(keys, k, updates, id, admin) matches Some(n) ==> {
            &&& n.id == k.id
            &&& n.role == k.role
            &&& n.created_at == k.created_at
            &&& n.last_used_at == k.last_used_at
            &&& updates.get("enabled"@) matches Some(JsonView::Bool(b)) ==> n.enabled == b
            &&& updates.get("enabled"@) is None ==> n.enabled == k.enabled
            &&& updates.get("key"@) is None ==> n.key_hash == k.key_hash
            &&& updates.get("key"@) matches Some(JsonView::Str(s)) ==> n.key_hash == hashed(
                trimmed(trimmed(s)),
            )
            &&& updates.get("name"@) is None ==> n.name == k.name
            &&& updates.get("name"@) matches Some(JsonView::Str(s)) ==> (trimmed(trimmed(s)).len()
                > 0 ==> n.name == trimmed(trimmed(s)))
        },
        updates.get("name"@) is None && updates.get("key"@) is None ==> key_updated(
            keys,
            k,
            updates,
            id,
            admin,
        ) is Some,
{
}

/// A stored key is read where it has a role and a hash: enabled unless it says otherwise.
pub proof fn law_read_key(raw: JsonView, fresh: Seq<char>, now: Seq<char>)
    ensures
        normal_key(raw, fresh, now) is Some <==> raw is Obj && (unicode_lower(
            bare_text(raw.at("role"@)),
        ) == "admin"@ || unicode_lower(bare_text(raw.at("role"@))) == "user"@) && bare_text(
            raw.at("key_hash"@),
        ).len() > 0,
        normal_key(raw, fresh, now) matches Some(k) ==> {
            &&& k.role == unicode_lower(bare_text(raw.at("role"@)))
            &&& k.key_hash == bare_text(raw.at("key_hash"@))
            &&& raw.get("enabled"@) == Some(JsonView::Bool(false)) ==> !k.enabled
            &&& raw.get("enabled"@) == Some(JsonView::Bool(true)) ==> k.enabled
            &&& raw.get("enabled"@) is None ==> k.enabled
            &&& bare_text(raw.at("id"@)).len() > 0 ==> k.id == bare_text(raw.at("id"@))
            &&& bare_text(raw.at("id"@)).len() == 0 ==> k.id == fresh
            &&& bare_text(raw.at("name"@)).len() > 0 ==> k.name == bare_text(raw.at("name"@))
            &&& bare_text(raw.at("name"@)).len() == 0 && trimmed(k.role) == k.role && unicode_lower(
                k.role,
            ) == k.role ==> k.name == if k.role == "admin"@ {
                "管理员密钥"@
            } else {
                "普通用户"@
            }
            &&& bare_text(raw.at("created_at"@)).len() == 0 ==> k.created_at == now
            &&& bare_text(raw.at("last_used_at"@)).len() > 0 ==> k.last_used_at == Some(
                bare_text(raw.at("last_used_at"@)),
            )
            &&& bare_text(raw.at("created_at"@)).len() > 0 ==> k.created_at == bare_text(
                raw.at("created_at"@),
            )
        },
{
}

/// A new key is enabled, of the role that was asked for, opens with what was given, and with
/// nothing else of another hash.
pub proof fn law_new_key(
    id: Seq<char>,
    name: Seq<char>,
    role: Seq<char>,
    raw: Seq<char>,
    now: Seq<char>,
    other: Seq<char>,
)
    ensures
        ({
            let k = new_key(id, name, role, raw, now);
            &&& k.id == id && k.name == name && k.role == role && k.created_at == now
            &&& k.enabled && k.last_used_at is None
            &&& hashed(trimmed(raw)).len() > 0 ==> opened(k, hashed(trimmed(raw)))
            &&& opened(k, hashed(trimmed(other))) ==> hashed(trimmed(other)) == hashed(trimmed(raw))
            &&& hashed(raw) == crate::digest::hex_text(crate::digest::sha256(encode_utf8(raw)))
        }),
{
}

/// Of the keys those of the role that is asked for are shown, each with its own fields.
pub proof fn law_shown_keys(keys: Seq<KeyView>, role: Seq<char>, v: JsonView, k: KeyView)
    ensures
        keys.filter_map(shown_of(Some(role))).contains(v) <==> exists|i: int|
            0 <= i < keys.len() && (#[trigger] keys[i]).role == role && keys[i].shown() == v,
        k.shown().str_at("id"@) == k.id,
        k.shown().str_at("name"@) == k.name,
        k.shown().str_at("role"@) == k.role,
        k.shown().get("enabled"@) == Some(JsonView::Bool(k.enabled)),
        k.shown().str_at("created_at"@) == k.created_at,
        k.stored().str_at("key_hash"@) == k.key_hash,
        k.stored().get("enabled"@) == Some(JsonView::Bool(k.enabled)),
{
    broadcast use crate::value::group_fields;

    reveal_strlit("id");
    reveal_strlit("name");
    reveal_strlit("role");
    reveal_strlit("enabled");
    reveal_strlit("created_at");
    reveal_strlit("last_used_at");
    reveal_strlit("key_hash");
    assert("id"@.len() == 2);
    assert("name"@.len() == 4 && "name"@[0] == 'n');
    assert("role"@.len() == 4 && "role"@[0] == 'r');
    assert("enabled"@.len() == 7);
    assert("created_at"@.len() == 10);
    assert("last_used_at"@.len() == 12);
    assert("key_hash"@.len() == 8);
    let f = shown_of(Some(role));
    if keys.filter_map(f).contains(v) {
        lemma_mapped_from(keys, f, v);
        let i = choose|i: int| 0 <= i < keys.len() && f(#[trigger] keys[i]) == Some(v);
        assert(keys[i].role == role);
    }
    if exists|i: int|
        0 <= i < keys.len() && (#[trigger] keys[i]).role == role && keys[i].shown() == v {
        let i = choose|i: int|
            0 <= i < keys.len() && (#[trigger] keys[i]).role == role && keys[i].shown() == v;
        lemma_mapped_has(keys, f, i);
    }
}

/// A key is found by its id, at the first place where it stands.
pub proof fn law_key_found(keys: Seq<KeyView>, id: Seq<char>)
    ensures
        0 <= position_of(keys, id) <= keys.len(),
        position_of(keys, id) < keys.len() ==> keys[position_of(keys, id)].id == id,
        forall|i: int| 0 <= i < position_of(keys, id) ==> (#[trigger] keys[i]).id != id,
    decreases keys.len(),
{
    if keys.len() > 0 && keys[0].id != id {
        let rest = keys.drop_first();
        law_key_found(rest, id);
        assert forall|i: int| 0 <= i < position_of(keys, id) implies (#[trigger] keys[i]).id != id by {
            if i > 0 {
                assert(rest[i - 1] == keys[i]);
            }
        }
    }
}

// ---------------------------------------------------------------------------
// requests
// ---------------------------------------------------------------------------

/// The token of a request is what follows the word `Bearer`, in whatever case, without white space
/// at its ends. Any other scheme gives none.
pub proof fn law_bearer_token(scheme: Seq<char>, token: Seq<char>)
    requires
        !scheme.contains(' '),
    ensures
        ascii_lower(scheme) == "bearer"@ ==> bearer_token(scheme + seq![' '] + token) == trimmed(
            token,
        ),
        ascii_lower(scheme) != "bearer"@ ==> bearer_token(scheme + seq![' '] + token) == Seq::<
            char,
        >::empty(),
        bearer_token(scheme) == Seq::<char>::empty(),
{
    law_cut_once(scheme, ' ', token);
}

/// A file is served only from below the directory: its own paths are, and those of a sibling whose
/// name begins alike are not.
pub proof fn law_files_below(base: Seq<char>, rest: Seq<char>)
    requires
        base.len() > 1,
    ensures
        lies_in(base, base),
        lies_in(base, base + "/"@ + rest),
        rest.len() > 0 && rest[0] != '/' ==> !lies_in(base, base + rest),
        rest.len() < base.len() ==> !lies_in(base, rest),
{
    reveal_strlit("/");
    assert("/"@.len() == 1);
    let below = base + "/"@;
    assert((below + rest).subrange(0, below.len() as int) =~= below);
    if rest.len() > 0 && rest[0] != '/' {
        let p = base + rest;
        assert(p[base.len() as int] == rest[0]);
        if begins(p, below) {
            assert(p.subrange(0, below.len() as int)[base.len() as int] == below[base.len() as int]);
        }
        assert(p.len() > base.len());
    }
}

/// A page is looked for under its own name, as a directory and with its ending.
pub proof fn law_asset_candidates(path: Seq<char>)
    requires
        path.len() > 0,
        path[0] != '/',
        path.last() != '/',
    ensures
        asset_candidates(path) == seq![path, path + "/index.html"@, path + ".html"@],
        asset_candidates(Seq::<char>::empty()) == seq!["index.html"@],
{
}

/// What is shown of a server keeps its other fields, and says whether it has a key.
pub proof fn law_shown_server(s: JsonView, k: Seq<char>)
    requires
        s is Obj,
    ensures
        k != "password"@ && k != "api_key"@ && k != "has_api_key"@ ==> bare_server(s).get(k)
            == s.get(k),
        bare_server(s).get("has_api_key"@) == Some(
            JsonView::Bool(trimmed(s.str_at("api_key"@)).len() > 0),
        ),
        k != "secret_key"@ ==> s.without("secret_key"@).get(k) == s.get(k),
{
    broadcast use crate::value::group_fields;

    reveal_strlit("password");
    reveal_strlit("api_key");
    reveal_strlit("has_api_key");
    reveal_strlit("secret_key");
    assert("password"@.len() == 8);
    assert("api_key"@.len() == 7);
    assert("has_api_key"@.len() == 11);
    assert("secret_key"@.len() == 10);
}

/// A change holds the fields that may be changed and that the request names, and no others.
pub proof fn law_updates(body: JsonView, keys: Seq<Seq<char>>, k: Seq<char>)
    ensures
        updates_of(body, keys) is Obj,
        updates_of(body, keys).get(k) == (if keys.contains(k) && !(body.at(k) is Null) {
            body.get(k)
        } else {
            None
        }),
    decreases keys.len(),
{
    broadcast use crate::value::group_fields;

    if keys.len() > 0 {
        let init = keys.drop_last();
        law_updates(body, init, k);
        if init.contains(k) {
            let i = init.index_of(k);
            assert(keys[i] == k);
        }
        if keys.contains(k) && !init.contains(k) {
            let i = keys.index_of(k);
            if i < init.len() {
                assert(init[i] == k);
            }
            assert(keys.last() == k);
        }
        if keys.last() == k {
            assert(keys[keys.len() - 1] == k);
        }
    }
}

/// Of an account its plan, its state, its quota and its proxy can be changed; of a key its name,
/// whether it is enabled, and itself.
pub proof fn law_changeable_fields(k: Seq<char>)
    ensures
        crate::accounts_api::account_fields().contains(k) <==> k == "type"@ || k == "status"@ || k
            == "quota"@ || k == "proxy"@,
        crate::accounts_api::key_fields().contains(k) <==> k == "name"@ || k == "enabled"@ || k
            == "key"@,
{
    let a = crate::accounts_api::account_fields();
    let b = crate::accounts_api::key_fields();
    assert(a[0] == "type"@ && a[1] == "status"@ && a[2] == "quota"@ && a[3] == "proxy"@);
    assert(b[0] == "name"@ && b[1] == "enabled"@ && b[2] == "key"@);
}

/// The tokens of a request are its texts that are not blank, without white space at their ends.
pub proof fn law_tokens_of_request(body: JsonView, k: Seq<char>, t: Seq<char>)
    ensures
        tokens_at(body, k).contains(t) <==> t.len() > 0 && exists|i: int|
            0 <= i < body.items_at(k).len() && trimmed(plain_text(Some(#[trigger] body.items_at(k)[i])))
                == t,
{
    let items = body.items_at(k);
    let texts = texts_at(body, k);
    let all = texts.map_values(|t: Seq<char>| trimmed(t));
    lemma_filtered_has(all, filled(), t);
    if all.contains(t) {
        let i = all.index_of(t);
        assert(trimmed(plain_text(Some(items[i]))) == t);
    }
    if exists|i: int|
        0 <= i < items.len() && trimmed(plain_text(Some(#[trigger] items[i]))) == t {
        let i = choose|i: int|
            0 <= i < items.len() && trimmed(plain_text(Some(#[trigger] items[i]))) == t;
        assert(all[i] == t);
    }
}

proof fn lemma_unique_trimmed(s: Seq<Seq<char>>, t: Seq<char>)
    ensures
        unique_trimmed(s).contains(t) <==> t.len() > 0 && exists|i: int|
            0 <= i < s.len() && trimmed(#[trigger] s[i]) == t,
{
    let all = s.map_values(|t: Seq<char>| trimmed(t));
    law_unique_filled(all);
    if all.contains(t) {
        let i = all.index_of(t);
        assert(trimmed(s[i]) == t);
    }
    if exists|i: int| 0 <= i < s.len() && trimmed(#[trigger] s[i]) == t {
        let i = choose|i: int| 0 <= i < s.len() && trimmed(#[trigger] s[i]) == t;
        assert(all[i] == t);
    }
}

/// The accounts that a request brings are those of its tokens and those of its payloads.
pub proof fn law_new_tokens(body: JsonView, t: Seq<char>)
    requires
        t.len() > 0,
    ensures
        new_tokens(body).contains(t) <==> {
            ||| exists|i: int|
                0 <= i < body.items_at("tokens"@).len() && trimmed(
                    plain_text(Some(#[trigger] body.items_at("tokens"@)[i])),
                ) == t
            ||| exists|p: JsonView| #[trigger]
                body.items_at("accounts"@).contains(p) && p is Obj && trimmed(
                    trimmed(raw_token(p)),
                ) == t
        },
{
    let a = texts_at(body, "tokens"@);
    let ps = payloads_at(body);
    let b = payload_tokens(ps);
    let all = a + b;
    let items = body.items_at("tokens"@);
    lemma_unique_trimmed(all, t);
    if exists|i: int| 0 <= i < all.len() && trimmed(#[trigger] all[i]) == t {
        let i = choose|i: int| 0 <= i < all.len() && trimmed(#[trigger] all[i]) == t;
        if i < a.len() {
            assert(a[i] == plain_text(Some(items[i])));
        } else {
            let p = ps[i - a.len()];
            assert(ps.contains(p));
            lemma_filtered_has(
                body.items_at("accounts"@),
                crate::accounts_api::is_payload(),
                p,
            );
            assert(all[i] == b[i - a.len()]);
        }
    }
    if exists|i: int| 0 <= i < items.len() && trimmed(plain_text(Some(#[trigger] items[i]))) == t {
        let i = choose|i: int|
            0 <= i < items.len() && trimmed(plain_text(Some(#[trigger] items[i]))) == t;
        assert(all[i] == plain_text(Some(items[i])));
    }
    if exists|p: JsonView| #[trigger]
        body.items_at("accounts"@).contains(p) && p is Obj && trimmed(trimmed(raw_token(p))) == t {
        let p = choose|p: JsonView| #[trigger]
            body.items_at("accounts"@).contains(p) && p is Obj && trimmed(trimmed(raw_token(p))) == t;
        lemma_filtered_has(body.items_at("accounts"@), crate::accounts_api::is_payload(), p);
        let k = ps.index_of(p);
        assert(b[k] == payload_token(p));
        assert(all[a.len() + k] == b[k]);
    }
}

/// Every account that is shown, and every other, is told by its own name: characters of a name
/// only, eighty at most.
pub proof fn law_export_name(value: Seq<char>, fallback: Seq<char>)
    ensures
        export_name(value, fallback).len() <= 80,
        forall|i: int|
            0 <= i < collapsed(value).len() ==> name_char(#[trigger] collapsed(value)[i]),
        (forall|i: int| 0 <= i < value.len() ==> name_char(#[trigger] value[i])) ==> collapsed(value)
            == value,
{
    lemma_collapsed(value);
}

proof fn lemma_collapsed(s: Seq<char>)
    ensures
        forall|i: int| 0 <= i < collapsed(s).len() ==> name_char(#[trigger] collapsed(s)[i]),
        (forall|i: int| 0 <= i < s.len() ==> name_char(#[trigger] s[i])) ==> collapsed(s) == s,
    decreases s.len(),
{
    if s.len() > 0 {
        let init = s.drop_last();
        lemma_collapsed(init);
        let c = collapsed(s);
        let d = collapsed(init);
        assert forall|i: int| 0 <= i < c.len() implies name_char(#[trigger] c[i]) by {
            if i < d.len() {
                assert(c[i] == d[i]);
            }
        }
        if forall|i: int| 0 <= i < s.len() ==> name_char(#[trigger] s[i]) {
            assert forall|i: int| 0 <= i < init.len() implies name_char(#[trigger] init[i]) by {
                assert(init[i] == s[i]);
            }
            assert(name_char(s[s.len() - 1]));
            assert(init.push(s.last()) =~= s);
        }
    }
}

/// Every export is a file of its own: the account as JSON text, under the name that it was given.
pub proof fn law_export_files(items: Seq<JsonView>)
    ensures
        item_files(items).len() == items.len(),
        item_names(items).len() == items.len(),
        forall|i: int|
            0 <= i < items.len() ==> (#[trigger] item_files(items)[i]).1 == encode_utf8(
                pretty(items[i]) + "\n"@,
            ) && item_files(items)[i].0 == item_names(items)[i] + ".json"@,
    decreases items.len(),
{
    if items.len() > 0 {
        let init = items.drop_last();
        law_export_files(init);
        assert forall|i: int| 0 <= i < items.len() implies (#[trigger] item_files(items)[i]).1
            == encode_utf8(pretty(items[i]) + "\n"@) && item_files(items)[i].0 == item_names(items)[i]
            + ".json"@ by {
            if i < init.len() {
                assert(item_files(items)[i] == item_files(init)[i]);
                assert(items[i] == init[i]);
                assert(item_names(items)[i] == item_names(init)[i]);
            }
        }
    }
}

proof fn lemma_bare_tokens(tokens: Seq<Seq<char>>, source: Seq<char>, t: Seq<char>)
    requires
        t.len() > 0,
        exists|i: int| 0 <= i < tokens.len() && trimmed(#[trigger] tokens[i]) == t,
    ensures
        lookup(gathered(bare_payloads(tokens, source)), t) is Some,
{
    let i = choose|i: int| 0 <= i < tokens.len() && trimmed(#[trigger] tokens[i]) == t;
    let ps = bare_payloads(tokens, source);
    let p = ps[i];
    assert(p == bare_payload(tokens[i], source));
    crate::pool_use_laws::law_bare_payload(tokens[i], source);
    assert(tokens[i].len() > 0) by {
        crate::text::lemma_strip_len(tokens[i], crate::text::CharClass::White);
    }
    assert(raw_token(p) == tokens[i]);
    law_gathered_tokens(ps, t);
    assert(ps[i] is Obj);
}

proof fn lemma_gathered_filled(payloads: Seq<JsonView>)
    ensures
        forall|j: int|
            0 <= j < gathered(payloads).len() ==> (#[trigger] gathered(payloads)[j]).0.len() > 0,
{
    assert forall|j: int| 0 <= j < gathered(payloads).len() implies (
    #[trigger] gathered(payloads)[j]).0.len() > 0 by {
        let k = gathered(payloads)[j].0;
        law_gathered_tokens(payloads, k);
        crate::assoc::lemma_lookup_found(gathered(payloads), k);
    }
}

/// Every token that a request brings has an account afterwards, and no account is lost.
pub proof fn law_created_accounts(p: PoolView, body: JsonView, now: Seq<char>, t: Seq<char>)
    requires
        trimmed(t) == t,
    ensures
        ({
            let q = accounts_created(p, body, now).0;
            &&& new_tokens(body).contains(t) ==> lookup(q.entries, t) is Some
            &&& lookup(p.entries, t) is Some ==> lookup(q.entries, t) is Some
        }),
{
    let ps = payloads_at(body);
    let all = texts_at(body, "tokens"@) + payload_tokens(ps);
    lemma_unique_trimmed(all, t);
    if ps.len() > 0 {
        let prepared = ps.filter_map(preparing());
        let g = gathered(prepared);
        lemma_gathered_filled(prepared);
        law_added_present(p, g, now, t);
        let q = p.admitted_all(g, now).0;
        let known = unique_trimmed(payload_tokens(ps));
        let extra = extra_tokens(body);
        lemma_unique_trimmed(payload_tokens(ps), t);
        lemma_filtered_has(new_tokens(body), without_payload(known), t);
        if known.contains(t) {
            let b = payload_tokens(ps);
            let i = choose|i: int| 0 <= i < b.len() && trimmed(#[trigger] b[i]) == t;
            assert(b[i] == payload_token(ps[i]));
            assert(ps.contains(ps[i]));
            lemma_filtered_has(
                body.items_at("accounts"@),
                crate::accounts_api::is_payload(),
                ps[i],
            );
            law_prepared_payload(ps[i]);
            assert(b[i].len() > 0) by {
                crate::text::lemma_strip_len(b[i], crate::text::CharClass::White);
            }
            lemma_mapped_has(ps, preparing(), i);
            let pp = crate::account::prepared(ps[i])->0;
            let k = prepared.index_of(pp);
            assert(prepared[k] == pp);
            assert(raw_token(pp) == b[i]);
            law_gathered_tokens(prepared, t);
            assert(prepared[k] is Obj);
        }
        let e = unique_filled(extra);
        law_unique_filled(extra);
        let bg = gathered(bare_payloads(e, "web"@));
        lemma_gathered_filled(bare_payloads(e, "web"@));
        law_added_present(q, bg, now, t);
        if new_tokens(body).contains(t) && !known.contains(t) {
            assert(extra.contains(t));
            assert(e.contains(t));
            let k = e.index_of(t);
            assert(trimmed(e[k]) == t);
            lemma_bare_tokens(e, "web"@, t);
            assert(extra.len() > 0);
        }
    } else {
        let e = unique_filled(new_tokens(body));
        law_unique_filled(new_tokens(body));
        let bg = gathered(bare_payloads(e, "web"@));
        lemma_gathered_filled(bare_payloads(e, "web"@));
        law_added_present(p, bg, now, t);
        if new_tokens(body).contains(t) {
            assert(e.contains(t));
            let k = e.index_of(t);
            assert(trimmed(e[k]) == t);
            lemma_bare_tokens(e, "web"@, t);
        }
    }
}

// ---------------------------------------------------------------------------
// errors
// ---------------------------------------------------------------------------

/// Errors are of the kind that their status says, in the words of the API.
pub proof fn law_error_kinds(status: u16)
    ensures
        status == 401 ==> error_type(status) == "authentication_error"@ && error_code(status)
            == "invalid_api_key"@,
        status == 403 ==> error_type(status) == "permission_error"@ && error_code(status)
            == "permission_denied"@,
        status == 429 ==> error_type(status) == "rate_limit_error"@ && error_code(status)
            == "rate_limit_exceeded"@,
        400 <= status <= 499 && status != 401 && status != 403 && status != 429 ==> error_type(status)
            == "invalid_request_error"@ && error_code(status) == "bad_request"@,
        status >= 500 ==> error_type(status) == "server_error"@ && error_code(status)
            == "upstream_error"@,
{
}

/// An error says its message, its kind and its code, in the form of either API. What it says of
/// itself wins over what its status says.
pub proof fn law_error_bodies(msg: Seq<char>, detail: JsonView, status: u16)
    requires
        msg.len() > 0,
    ensures
        ({
            let o = openai_body(message_detail(msg), status).at("error"@);
            let a = anthropic_body(message_detail(msg), status);
            &&& o.str_at("message"@) == msg
            &&& o.str_at("type"@) == error_type(status)
            &&& o.str_at("code"@) == error_code(status)
            &&& o.get("param"@) == Some(JsonView::Null)
            &&& a.str_at("type"@) == "error"@
            &&& a.at("error"@).str_at("message"@) == msg
            &&& status < 500 ==> a.at("error"@).str_at("type"@) == error_type(status)
            &&& status >= 500 ==> a.at("error"@).str_at("type"@) == "api_error"@
        }),
        detail_message(message_detail(msg)) == msg,
        detail_message(JsonView::Str(msg)) == msg,
        ({
            let e = detail.at("error"@);
            let o = openai_body(detail, status).at("error"@);
            e is Obj ==> {
                &&& e.get("type"@) matches Some(JsonView::Str(s)) ==> o.str_at("type"@) == s
                &&& e.get("code"@) is Some ==> o.get("code"@) == e.get("code"@)
                &&& e.get("param"@) is Some ==> o.get("param"@) == e.get("param"@)
                &&& e.str_at("message"@).len() > 0 && e.get("error"@) is None ==> o.str_at("message"@)
                    == e.str_at("message"@)
            }
        }),
{
    broadcast use crate::value::group_fields;

    reveal_strlit("error");
    reveal_strlit("message");
    reveal_strlit("type");
    reveal_strlit("param");
    reveal_strlit("code");
    assert("error"@.len() == 5 && "error"@[0] == 'e');
    assert("message"@.len() == 7);
    assert("type"@.len() == 4 && "type"@[0] == 't');
    assert("param"@.len() == 5 && "param"@[0] == 'p');
    assert("code"@.len() == 4 && "code"@[0] == 'c');
    let e = detail.at("error"@);
    let d = message_detail(msg);
    assert(d.at("error"@) == JsonView::Str(msg));
    if e is Obj && e.get("error"@) is None && e.str_at("message"@).len() > 0 {
        assert(e.at("error"@) == JsonView::Null);
        assert(crate::error::value_message(JsonView::Null).len() == 0);
        assert(crate::error::value_message(e) == e.str_at("message"@));
    }
}

/// The paths of the API are those below `/v1`.
pub proof fn law_api_paths(rest: Seq<char>)
    ensures
        openai_path("/v1"@),
        openai_path("/v1/"@ + rest),
        rest.len() > 0 && rest[0] != '/' ==> !openai_path("/v1"@ + rest),
        openai_path(rest) ==> begins(rest, "/v1"@),
{
    reveal_strlit("/v1");
    reveal_strlit("/v1/");
    assert("/v1"@.len() == 3);
    assert("/v1/"@.len() == 4);
    assert(("/v1/"@ + rest).subrange(0, 4) =~= "/v1/"@);
    if rest.len() > 0 && rest[0] != '/' {
        let p = "/v1"@ + rest;
        assert(p[3] == rest[0]);
        if begins(p, "/v1/"@) {
            assert(p.subrange(0, 4)[3] == "/v1/"@[3]);
        }
    }
    if begins(rest, "/v1/"@) {
        assert(rest.subrange(0, 3) =~= rest.subrange(0, 4).subrange(0, 3));
        assert("/v1/"@.subrange(0, 3) =~= "/v1"@);
    }
    assert("/v1"@.subrange(0, 3) =~= "/v1"@);
}

} // verus!
