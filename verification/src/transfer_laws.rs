//! What backups hold, where they go and how they are opened, and how accounts are imported.
use vstd::prelude::*;
use vstd::utf8::encode_utf8;

use crate::account::{field_text, field_trim};
use crate::archive::ItemView;
use crate::backup::{
    archive_detail, backup_due, backup_files, backup_key, backup_metadata, backup_name,
    backup_state, changed_settings, configured, content_type, download_name, file_of, is_snapshot,
    item_count, item_name, last_success, listed_backup, loose_int, noted, object_key, pack_fault,
    rotated_out, snapshot_of, state_of, unsealed, with_named,
};
use crate::cipher::{
    aes_cbc_decrypted, aes_cbc_encrypted, derived_key, envelope_key, envelope_mark, enveloped,
    hmac, is_envelope, opened_envelope,
};
use crate::clock::{rfc3339_moment, Moment};
use crate::cpa::{
    error_updates, import_error, merged_filled, normal_job, normal_pool, other_pool,
    progress_updates, remote_file, started_job,
};
use crate::digest::{hex_text, sha256};
use crate::json::parsed;
use crate::lists::{lemma_filtered_has, lemma_mapped_from, lemma_mapped_has, lemma_sorted_has};
use crate::r2::{
    authorization, canonical_request, credential_scope, header_lines, header_names, host_of,
    listed_object, next_page, object_path, page_query, plain_headers, signed_items, signing_key,
    squeezed, string_to_sign,
};
use crate::sorting::{field_order, pair_order};
use crate::text::{
    ascii_lower, begins, between, ends, joined, last_piece, occurs, parsed_int, replaced,
    skip_back, skip_front, trimmed, unicode_upper, CharClass,
};
use crate::upkeep_laws::elapsed;
use crate::urlcode::encoded;
use crate::value::{clean_text, count_json, int_json, JsonView};

verus! {

// ---------------------------------------------------------------------------
// what a backup holds
// ---------------------------------------------------------------------------

/// A backup holds the files of the parts that are chosen, and no others.
pub proof fn law_backup_files(parts: JsonView, name: Seq<char>)
    ensures
        backup_files(parts).contains(name) <==> {
            ||| name == "config.json"@ && parts.bool_at("config"@, false)
            ||| name == "data/register.json"@ && parts.bool_at("register"@, false)
            ||| name == "data/cpa_config.json"@ && parts.bool_at("cpa"@, false)
            ||| name == "data/sub2api_config.json"@ && parts.bool_at("sub2api"@, false)
            ||| name == "data/logs.jsonl"@ && parts.bool_at("logs"@, false)
            ||| name == "data/image_tasks.json"@ && parts.bool_at("image_tasks"@, false)
            ||| name == "data/image_index.json"@ && parts.bool_at("image_tasks"@, false)
            ||| name == "snapshots/accounts.json"@ && parts.bool_at("accounts_snapshot"@, false)
            ||| name == "snapshots/auth_keys.json"@ && parts.bool_at("auth_keys_snapshot"@, false)
            ||| name == "data/image_tags.json"@ && parts.bool_at("images"@, false)
            ||| name == "data/images"@ && parts.bool_at("images"@, false)
        },
{
    let e: Seq<Seq<char>> = Seq::empty();
    assert(!e.contains(name));
    let v0 = with_named(e, parts, "config"@, "config.json"@);
    lemma_named(e, parts, "config"@, "config.json"@, name);
    let v1 = with_named(v0, parts, "register"@, "data/register.json"@);
    lemma_named(v0, parts, "register"@, "data/register.json"@, name);
    let v2 = with_named(v1, parts, "cpa"@, "data/cpa_config.json"@);
    lemma_named(v1, parts, "cpa"@, "data/cpa_config.json"@, name);
    let v3 = with_named(v2, parts, "sub2api"@, "data/sub2api_config.json"@);
    lemma_named(v2, parts, "sub2api"@, "data/sub2api_config.json"@, name);
    let v4 = with_named(v3, parts, "logs"@, "data/logs.jsonl"@);
    lemma_named(v3, parts, "logs"@, "data/logs.jsonl"@, name);
    let v5 = with_named(v4, parts, "image_tasks"@, "data/image_tasks.json"@);
    lemma_named(v4, parts, "image_tasks"@, "data/image_tasks.json"@, name);
    let v6 = with_named(v5, parts, "image_tasks"@, "data/image_index.json"@);
    lemma_named(v5, parts, "image_tasks"@, "data/image_index.json"@, name);
    let v7 = with_named(v6, parts, "accounts_snapshot"@, "snapshots/accounts.json"@);
    lemma_named(v6, parts, "accounts_snapshot"@, "snapshots/accounts.json"@, name);
    let v8 = with_named(v7, parts, "auth_keys_snapshot"@, "snapshots/auth_keys.json"@);
    lemma_named(v7, parts, "auth_keys_snapshot"@, "snapshots/auth_keys.json"@, name);
    let v9 = with_named(v8, parts, "images"@, "data/image_tags.json"@);
    lemma_named(v8, parts, "images"@, "data/image_tags.json"@, name);
    let v10 = with_named(v9, parts, "images"@, "data/images"@);
    lemma_named(v9, parts, "images"@, "data/images"@, name);
}

proof fn lemma_named(v: Seq<Seq<char>>, parts: JsonView, k: Seq<char>, n: Seq<char>, x: Seq<char>)
    ensures
        with_named(v, parts, k, n).contains(x) <==> v.contains(x) || (x == n && parts.bool_at(k, false)),
{
    let w = with_named(v, parts, k, n);
    if v.contains(x) {
        let i = v.index_of(x);
        assert(w[i] == x);
    }
    if x == n && parts.bool_at(k, false) {
        assert(w[v.len() as int] == x);
    }
    if w.contains(x) {
        let i = w.index_of(x);
        if i < v.len() {
            assert(v[i] == x);
        }
    }
}

/// A backup says when, why and by what it was made.
pub proof fn law_backup_metadata(at: Seq<char>, why: Seq<char>, version: Seq<char>, backend: JsonView)
    ensures
        backup_metadata(at, why, version, backend).str_at("created_at"@) == at,
        backup_metadata(at, why, version, backend).str_at("trigger"@) == why,
        backup_metadata(at, why, version, backend).str_at("app_version"@) == version,
        backup_metadata(at, why, version, backend).get("storage_backend"@) == Some(backend),
        backup_metadata(at, why, version, backend).get("version"@) == Some(int_json(2)),
{
    broadcast use crate::value::group_fields;

    reveal_strlit("version");
    reveal_strlit("created_at");
    reveal_strlit("trigger");
    reveal_strlit("app_version");
    reveal_strlit("storage_backend");
    assert("version"@.len() == 7 && "version"@[0] == 'v');
    assert("created_at"@.len() == 10);
    assert("trigger"@.len() == 7 && "trigger"@[0] == 't');
    assert("app_version"@.len() == 11);
    assert("storage_backend"@.len() == 15);
}

/// A backup is known by its name, and an encrypted one by its ending.
pub proof fn law_backup_names(prefix: Seq<char>, time: Seq<char>, tag: Seq<char>)
    ensures
        object_key(prefix, time, tag, true) == skip_back(prefix, CharClass::Just('/')) + "/backup-"@
            + time + "-"@ + tag + ".tar.gz.enc"@,
        object_key(prefix, time, tag, false) == skip_back(prefix, CharClass::Just('/'))
            + "/backup-"@ + time + "-"@ + tag + ".tar.gz"@,
        ends(object_key(prefix, time, tag, true), ".enc"@),
{
    reveal_strlit(".tar.gz.enc");
    reveal_strlit(".enc");
    assert(".tar.gz.enc"@.len() == 11);
    assert(".enc"@.len() == 4);
    let k = object_key(prefix, time, tag, true);
    assert(k.subrange(k.len() - 4, k.len() as int) =~= ".enc"@) by {
        assert(".tar.gz.enc"@.subrange(7, 11) =~= ".enc"@);
    }
}

/// A listed backup shows its key, its name, its size, its time and whether it is encrypted.
pub proof fn law_listed_backup(item: JsonView)
    ensures
        ({
            let v = listed_backup(item);
            let key = clean_text(item.get("key"@));
            &&& v.str_at("key"@) == key
            &&& v.str_at("name"@) == last_piece(key, '/')
            &&& v.get("size"@) == Some(int_json(loose_int(item, "size"@)))
            &&& v.at("updated_at"@) == item.at("updated_at"@)
            &&& v.get("encrypted"@) == Some(JsonView::Bool(ends(last_piece(key, '/'), ".enc"@)))
        }),
{
    broadcast use crate::value::group_fields;

    reveal_strlit("key");
    reveal_strlit("name");
    reveal_strlit("size");
    reveal_strlit("updated_at");
    reveal_strlit("encrypted");
    assert("key"@.len() == 3);
    assert("name"@.len() == 4 && "name"@[0] == 'n');
    assert("size"@.len() == 4 && "size"@[0] == 's');
    assert("updated_at"@.len() == 10);
    assert("encrypted"@.len() == 9);
}

/// Rotation deletes only backups, none where nothing is to be deleted, and as many as there are
/// beyond those that are kept.
pub proof fn law_rotated_out(items: Seq<JsonView>, keep: int, key: Seq<char>)
    ensures
        keep <= 0 ==> rotated_out(items, keep).len() == 0,
        keep > 0 && items.filter_map(backup_key()).len() > keep ==> rotated_out(items, keep).len()
            == items.filter_map(backup_key()).len() - keep,
        rotated_out(items, keep).contains(key) ==> backup_name(key) && exists|i: int|
            0 <= i < items.len() && clean_text((#[trigger] items[i]).get("key"@)) == key,
{
    let f = backup_key();
    let keys = items.filter_map(f);
    if rotated_out(items, keep).contains(key) {
        let k = rotated_out(items, keep).index_of(key);
        assert(keys[keep + k] == key);
        assert(keys.contains(key));
        lemma_mapped_from(items, f, key);
        let i = choose|i: int| 0 <= i < items.len() && f(#[trigger] items[i]) == Some(key);
        assert(clean_text(items[i].get("key"@)) == key);
    }
}

/// What is told of an opened backup: what was noted with it, each file with its size and digest,
/// and each snapshot with the number of its items.
pub proof fn law_archive_detail(items: Seq<ItemView>, i: ItemView)
    requires
        items.contains(i),
        i.file,
        i.bytes is Some,
        replaced(i.name, '\\', "/"@) != "backup-metadata.json"@,
    ensures
        ({
            let d = archive_detail(items);
            let name = replaced(i.name, '\\', "/"@);
            let snap = begins(name, "snapshots/"@) && ends(name, ".json"@);
            &&& !snap ==> exists|v: JsonView| #[trigger]
                d.items_at("files"@).contains(v) && v.str_at("name"@) == name && v.get("size"@) == Some(
                    count_json((i.bytes->0).len()),
                ) && v.str_at("sha256"@) == hex_text(sha256(i.bytes->0)) && v.str_at(
                    "content_type"@,
                ) == content_type(name)
            &&& snap ==> exists|v: JsonView| #[trigger]
                d.items_at("snapshots"@).contains(v) && v.get("count"@) == Some(
                    count_json(
                        match parsed(i.bytes->0) {
                            Some(j) => item_count(j),
                            None => 0,
                        },
                    ),
                )
            &&& d.at("created_at"@) == noted(items).at("created_at"@)
            &&& d.at("trigger"@) == noted(items).at("trigger"@)
            &&& d.at("app_version"@) == noted(items).at("app_version"@)
        }),
{
    broadcast use crate::value::group_fields;

    reveal_strlit("created_at");
    reveal_strlit("trigger");
    reveal_strlit("app_version");
    reveal_strlit("storage_backend");
    reveal_strlit("files");
    reveal_strlit("snapshots");
    reveal_strlit("name");
    reveal_strlit("exists");
    reveal_strlit("content_type");
    reveal_strlit("size");
    reveal_strlit("sha256");
    reveal_strlit("count");
    assert("created_at"@.len() == 10);
    assert("trigger"@.len() == 7);
    assert("app_version"@.len() == 11);
    assert("storage_backend"@.len() == 15);
    assert("files"@.len() == 5 && "files"@[0] == 'f');
    assert("snapshots"@.len() == 9);
    assert("name"@.len() == 4 && "name"@[0] == 'n');
    assert("exists"@.len() == 6 && "exists"@[0] == 'e');
    assert("content_type"@.len() == 12);
    assert("size"@.len() == 4 && "size"@[0] == 's');
    assert("sha256"@.len() == 6 && "sha256"@[0] == 's');
    assert("count"@.len() == 5 && "count"@[0] == 'c');
    let k = items.index_of(i);
    let f = file_of();
    let g = snapshot_of();
    let lt = field_order("name"@, false);
    let name = item_name(i);
    if is_snapshot(i) {
        lemma_mapped_has(items, g, k);
        lemma_sorted_has(items.filter_map(g), lt, g(i)->0);
        assert(archive_detail(items).items_at("snapshots"@).contains(g(i)->0));
    } else {
        lemma_mapped_has(items, f, k);
        lemma_sorted_has(items.filter_map(f), lt, f(i)->0);
        assert(archive_detail(items).items_at("files"@).contains(f(i)->0));
    }
}

/// The notes of a backup are those of its file of notes.
pub proof fn law_notes(items: Seq<ItemView>, i: ItemView, v: JsonView)
    requires
        i.file,
        i.bytes is Some,
        replaced(i.name, '\\', "/"@) == "backup-metadata.json"@,
        parsed(i.bytes->0) == Some(v),
        v is Obj,
    ensures
        noted(items.push(i)) == v,
{
    assert(items.push(i).drop_last() =~= items);
}

/// The types of files by their endings.
pub proof fn law_content_types(stem: Seq<char>)
    ensures
        content_type(stem + ".json"@) == "application/json"@,
        content_type(stem + ".jsonl"@) == "application/x-ndjson"@,
        content_type(stem + ".tar.gz"@) == "application/gzip"@,
{
    reveal_strlit(".json");
    reveal_strlit(".jsonl");
    reveal_strlit(".tar.gz");
    reveal_strlit(".gz");
    assert(".json"@.len() == 5);
    assert(".jsonl"@.len() == 6);
    assert(".tar.gz"@.len() == 7);
    assert(".gz"@.len() == 3);
    let a = stem + ".json"@;
    assert(a.subrange(a.len() - 5, a.len() as int) =~= ".json"@);
    let b = stem + ".jsonl"@;
    assert(b.subrange(b.len() - 6, b.len() as int) =~= ".jsonl"@);
    assert(b.last() == 'l');
    if ends(b, ".json"@) {
        assert(b.subrange(b.len() - 5, b.len() as int)[4] == 'n');
    }
    let c = stem + ".tar.gz"@;
    assert(c.subrange(c.len() - 7, c.len() as int) =~= ".tar.gz"@);
    assert(c.last() == 'z');
    if ends(c, ".json"@) {
        assert(c.subrange(c.len() - 5, c.len() as int)[4] == 'n');
    }
    if ends(c, ".jsonl"@) {
        assert(c.subrange(c.len() - 6, c.len() as int)[5] == 'l');
    }
}

/// An encrypted backup is downloaded under its name without the ending, opened with the phrase;
/// any other one as it is.
pub proof fn law_downloaded_backup(key: Seq<char>, payload: Seq<u8>, phrase: Seq<char>)
    ensures
        !ends(key, ".enc"@) ==> unsealed(key, payload, phrase) == Some(payload),
        ends(key, ".enc"@) && phrase.len() == 0 ==> unsealed(key, payload, phrase) is None,
        ends(key, ".enc"@) && !is_envelope(payload) ==> unsealed(key, payload, phrase) is None,
        ends(key, ".enc"@) && phrase.len() > 0 && is_envelope(payload) ==> unsealed(
            key,
            payload,
            phrase,
        ) == opened_envelope(payload, phrase),
        !ends(key, ".enc"@) && last_piece(key, '/').len() > 0 ==> download_name(key) == last_piece(
            key,
            '/',
        ),
        ends(key, ".enc"@) && ends(last_piece(key, '/'), ".enc"@) && last_piece(key, '/').len() > 4
            ==> download_name(key) + ".enc"@ == last_piece(key, '/'),
{
    reveal_strlit(".enc");
    assert(".enc"@.len() == 4);
    let n = last_piece(key, '/');
    if ends(n, ".enc"@) && n.len() > 4 {
        assert(n.take(n.len() - 4) + ".enc"@ =~= n) by {
            assert(n.subrange(n.len() - 4, n.len() as int) =~= ".enc"@);
        }
    }
}

/// What could not be packed is named, with the reason.
pub proof fn law_pack_fault(name: Seq<char>, why: Seq<char>)
    ensures
        ends(pack_fault(name, why), why),
        occurs(pack_fault(name, why), name),
{
    let h = pack_fault(name, Seq::empty());
    let p = pack_fault(name, why);
    assert(p.subrange(p.len() - why.len(), p.len() as int) =~= why);
    let a = if crate::backup::made_for_backup(name) {
        "写入归档项 "@
    } else {
        "写入文件 "@
    };
    crate::text_laws::law_occurrence(a, name, " 失败："@ + why);
    assert(p =~= a + name + (" 失败："@ + why));
}

// ---------------------------------------------------------------------------
// when and whether
// ---------------------------------------------------------------------------

/// Backups can be made where the account, its keys and the bucket are set.
pub proof fn law_backups_configured(s: JsonView)
    ensures
        configured(s) <==> clean_text(s.get("account_id"@)).len() > 0 && clean_text(
            s.get("access_key_id"@),
        ).len() > 0 && clean_text(s.get("secret_access_key"@)).len() > 0 && clean_text(
            s.get("bucket"@),
        ).len() > 0,
{
}

/// A backup is due where backups are on, none is running, and the last success is as long ago as
/// the interval says, six hours where it says nothing; or where there was none.
pub proof fn law_backup_due(settings: JsonView, running: bool, state: JsonView, now: Moment, t: Moment)
    requires
        t.nanos < 1_000_000_000,
        now.nanos < 1_000_000_000,
    ensures
        running ==> !backup_due(settings, running, state, now),
        settings.get("enabled"@) != Some(JsonView::Bool(true)) ==> !backup_due(
            settings,
            running,
            state,
            now,
        ),
        settings.get("enabled"@) == Some(JsonView::Bool(true)) && !running && last_success(state) is Null
            ==> backup_due(settings, running, state, now),
        last_success(state) matches JsonView::Str(s) ==> (rfc3339_moment(replaced(s, 'Z', "+00:00"@))
            == Some(t) && settings.get("enabled"@) == Some(JsonView::Bool(true)) && !running ==> {
            &&& loose_int(settings, "interval_minutes"@) > 0 ==> (backup_due(
                settings,
                running,
                state,
                now,
            ) <==> elapsed(t, now) >= loose_int(settings, "interval_minutes"@) * 60 * 1_000_000_000)
            &&& loose_int(settings, "interval_minutes"@) <= 0 ==> (backup_due(
                settings,
                running,
                state,
                now,
            ) <==> elapsed(t, now) >= 6 * 60 * 60 * 1_000_000_000)
        }),
{
}

/// What is told of the last backup is what was noted: when it began and ended, how, and where it
/// went.
pub proof fn law_backup_state(started: Seq<char>, finished: Seq<char>, key: Seq<char>, error: Seq<char>)
    requires
        started.len() > 0 && trimmed(started) == started,
        finished.len() > 0 && trimmed(finished) == finished,
        key.len() > 0 && trimmed(key) == key,
        error.len() > 0 && trimmed(error) == error,
    ensures
        ({
            let s = backup_state(
                state_of(
                    started,
                    JsonView::Str(finished),
                    "success"@,
                    JsonView::Null,
                    JsonView::Str(key),
                    JsonView::Str(finished),
                ),
            );
            &&& s.str_at("last_started_at"@) == started
            &&& s.str_at("last_finished_at"@) == finished
            &&& s.str_at("last_status"@) == "success"@
            &&& s.get("last_error"@) == Some(JsonView::Null)
            &&& s.str_at("last_object_key"@) == key
            &&& s.str_at("last_success_at"@) == finished
        }),
        ({
            let s = backup_state(
                state_of(
                    started,
                    JsonView::Str(finished),
                    "error"@,
                    JsonView::Str(error),
                    JsonView::Str(key),
                    JsonView::Null,
                ),
            );
            &&& s.str_at("last_status"@) == "error"@
            &&& s.str_at("last_error"@) == error
            &&& s.get("last_success_at"@) == Some(JsonView::Null)
        }),
{
    broadcast use crate::value::group_fields;

    reveal_strlit("last_started_at");
    reveal_strlit("last_finished_at");
    reveal_strlit("last_status");
    reveal_strlit("last_error");
    reveal_strlit("last_object_key");
    reveal_strlit("last_success_at");
    reveal_strlit("success");
    reveal_strlit("error");
    assert("last_started_at"@.len() == 15 && "last_started_at"@[5] == 's' && "last_started_at"@[6] == 't');
    assert("last_finished_at"@.len() == 16);
    assert("last_status"@.len() == 11);
    assert("last_error"@.len() == 10);
    assert("last_object_key"@.len() == 15 && "last_object_key"@[5] == 'o');
    assert("last_success_at"@.len() == 15 && "last_success_at"@[5] == 's' && "last_success_at"@[6] == 'u');
    assert("success"@.len() == 7);
    assert("error"@.len() == 5);
    crate::account_laws::lemma_bare_stays("success"@);
    crate::account_laws::lemma_bare_stays("error"@);
    crate::text::lemma_strip_len(Seq::<char>::empty(), CharClass::White);
}

/// Settings that are changed are merged into those that are there; a secret that comes back as it
/// was shown stays.
pub proof fn law_changed_backup_settings(current: JsonView, payload: JsonView, k: Seq<char>)
    requires
        current is Obj,
        payload is Obj,
        crate::assoc::distinct_names(payload->Obj_0),
        k != "include"@,
    ensures
        ({
            let n = changed_settings(current, payload);
            &&& payload.get(k) is None ==> n.get(k) == current.get(k)
            &&& payload.get(k) is Some && k != "secret_access_key"@ && k != "passphrase"@ ==> n.get(k)
                == payload.get(k)
            &&& payload.get("secret_access_key"@) is Some && payload.get("secret_access_key"@) != Some(
                JsonView::Str("********"@),
            ) ==> n.get("secret_access_key"@) == payload.get("secret_access_key"@)
        }),
{
    broadcast use crate::value::group_fields;

    reveal_strlit("include");
    reveal_strlit("secret_access_key");
    reveal_strlit("passphrase");
    reveal_strlit("********");
    assert("include"@.len() == 7);
    assert("secret_access_key"@.len() == 17);
    assert("passphrase"@.len() == 10);
    assert("********"@.len() == 8);
    crate::pool_use_laws::law_merged_fields(current, payload, k);
    crate::pool_use_laws::law_merged_fields(current, payload, "secret_access_key"@);
}

// ---------------------------------------------------------------------------
// sealing
// ---------------------------------------------------------------------------

/// A sealed backup begins with the mark and the salt, and is encrypted with the key that ten
/// thousand rounds make of the phrase.
pub proof fn law_envelope(data: Seq<u8>, phrase: Seq<char>, salt: Seq<u8>)
    requires
        salt.len() == 8,
    ensures
        envelope_mark() == encode_utf8("Salted__"@),
        envelope_key(phrase, salt) == derived_key(encode_utf8(phrase), salt, 10_000, 48),
        enveloped(data, phrase, salt).take(8) == envelope_mark(),
        enveloped(data, phrase, salt).subrange(8, 16) == salt,
        enveloped(data, phrase, salt).skip(16) == aes_cbc_encrypted(
            envelope_key(phrase, salt).take(32),
            envelope_key(phrase, salt).skip(32),
            data,
        ),
        is_envelope(enveloped(data, phrase, salt)),
        opened_envelope(enveloped(data, phrase, salt), phrase) == aes_cbc_decrypted(
            envelope_key(phrase, salt).take(32),
            envelope_key(phrase, salt).skip(32),
            aes_cbc_encrypted(
                envelope_key(phrase, salt).take(32),
                envelope_key(phrase, salt).skip(32),
                data,
            ),
        ),
{
    let e = enveloped(data, phrase, salt);
    assert(e.take(8) =~= envelope_mark());
    assert(e.subrange(8, 16) =~= salt);
    assert(e.skip(16) =~= aes_cbc_encrypted(
        envelope_key(phrase, salt).take(32),
        envelope_key(phrase, salt).skip(32),
        data,
    ));
    lemma_mark();
}

proof fn lemma_mark()
    ensures
        envelope_mark() == encode_utf8("Salted__"@),
{
    reveal_strlit("Salted__");
    let s = "Salted__"@;
    assert(s =~= seq!['S', 'a', 'l', 't', 'e', 'd', '_', '_']);
    lemma_ascii(s);
    assert(encode_utf8(s) =~= envelope_mark());
}

proof fn lemma_ascii(s: Seq<char>)
    requires
        forall|i: int| 0 <= i < s.len() ==> (#[trigger] s[i]) as u32 <= 0x7f,
    ensures
        encode_utf8(s).len() == s.len(),
        forall|i: int| 0 <= i < s.len() ==> #[trigger] encode_utf8(s)[i] == (s[i] as u32) as u8,
    decreases s.len(),
{
    if s.len() > 0 {
        let rest = s.drop_first();
        assert forall|i: int| 0 <= i < rest.len() implies (#[trigger] rest[i]) as u32 <= 0x7f by {
            assert(rest[i] == s[i + 1]);
        }
        lemma_ascii(rest);
        let c = s[0] as u32;
        let b = vstd::utf8::encode_scalar(c);
        assert(c <= 0x7f);
        assert(b.len() == 1);
        lemma_one_byte(c);
        assert(b[0] == c as u8);
        assert forall|i: int| 0 <= i < s.len() implies #[trigger] encode_utf8(s)[i] == (s[i] as u32) as u8 by {
            if i > 0 {
                assert(rest[i - 1] == s[i]);
                assert(encode_utf8(s)[i] == encode_utf8(rest)[i - 1]);
            }
        }
    }
}

proof fn lemma_one_byte(c: u32)
    requires
        c <= 0x7f,
    ensures
        vstd::utf8::leading_byte_width_1(c) == c as u8,
{
    assert((c & 0x7f) as u8 == c as u8) by (bit_vector)
        requires
            c <= 0x7f,
    ;
}

// ---------------------------------------------------------------------------
// the object store
// ---------------------------------------------------------------------------

/// The signing key is derived from the secret, the day, the region, the service and the end mark,
/// one after the other.
pub proof fn law_signing_key(secret: Seq<char>, day: Seq<char>)
    ensures
        ({
            let k1 = hmac(encode_utf8("AWS4"@ + secret), encode_utf8(day));
            let k2 = hmac(k1, encode_utf8("auto"@));
            let k3 = hmac(k2, encode_utf8("s3"@));
            signing_key(secret, day) == hmac(k3, encode_utf8("aws4_request"@))
        }),
        credential_scope(day) == day + "/auto/s3/aws4_request"@,
{
}

/// The request that is signed holds the method, the path, the query, every header and the digest
/// of the body, each on lines of its own.
pub proof fn law_canonical_request(
    method: Seq<char>,
    path: Seq<char>,
    query: Seq<char>,
    items: Seq<(Seq<char>, Seq<char>)>,
    hash: Seq<char>,
)
    ensures
        canonical_request(method, path, query, items, hash) == unicode_upper(method) + "\n"@ + path
            + "\n"@ + query + "\n"@ + header_lines(items) + "\n"@ + header_names(items) + "\n"@ + hash,
{
    let p = seq![unicode_upper(method), path, query, header_lines(items), header_names(items), hash];
    let p5 = p.drop_last();
    let p4 = p5.drop_last();
    let p3 = p4.drop_last();
    let p2 = p3.drop_last();
    assert(joined(p2.drop_last(), "\n"@) == p[0]);
    assert(joined(p2, "\n"@) == p[0] + "\n"@ + p[1]);
    assert(joined(p3, "\n"@) == p[0] + "\n"@ + p[1] + "\n"@ + p[2]);
    assert(joined(p4, "\n"@) == p[0] + "\n"@ + p[1] + "\n"@ + p[2] + "\n"@ + p[3]);
    assert(joined(p5, "\n"@) == p[0] + "\n"@ + p[1] + "\n"@ + p[2] + "\n"@ + p[3] + "\n"@ + p[4]);
}

/// What is signed is the algorithm, the time, the scope and the digest of the request.
pub proof fn law_string_to_sign(time: Seq<char>, day: Seq<char>, request: Seq<char>)
    ensures
        string_to_sign(time, day, request) == "AWS4-HMAC-SHA256"@ + "\n"@ + time + "\n"@ + (day
            + "/auto/s3/aws4_request"@) + "\n"@ + hex_text(sha256(encode_utf8(request))),
{
    let p = seq![
        "AWS4-HMAC-SHA256"@,
        time,
        credential_scope(day),
        hex_text(sha256(encode_utf8(request))),
    ];
    let p3 = p.drop_last();
    let p2 = p3.drop_last();
    assert(joined(p2.drop_last(), "\n"@) == p[0]);
    assert(joined(p2, "\n"@) == p[0] + "\n"@ + p[1]);
    assert(joined(p3, "\n"@) == p[0] + "\n"@ + p[1] + "\n"@ + p[2]);
}

/// The signature shows the key, the scope and the signed headers, and is made with the signing key.
pub proof fn law_authorization(id: Seq<char>, secret: Seq<char>, day: Seq<char>, names: Seq<char>, text: Seq<char>)
    ensures
        begins(
            authorization(id, secret, day, names, text),
            "AWS4-HMAC-SHA256 Credential="@ + id + "/"@ + day + "/auto/s3/aws4_request"@,
        ),
        occurs(authorization(id, secret, day, names, text), ", SignedHeaders="@ + names),
        ends(
            authorization(id, secret, day, names, text),
            ", Signature="@ + hex_text(hmac(signing_key(secret, day), encode_utf8(text))),
        ),
{
    let a = "AWS4-HMAC-SHA256 Credential="@ + id + "/"@ + day + "/auto/s3/aws4_request"@;
    let b = ", SignedHeaders="@ + names;
    let c = ", Signature="@ + hex_text(hmac(signing_key(secret, day), encode_utf8(text)));
    let s = authorization(id, secret, day, names, text);
    assert(s =~= a + b + c);
    crate::text_laws::law_occurrence(a, b, c);
    crate::text_laws::law_occurrence(Seq::empty(), a, b + c);
    assert(a + b + c =~= a + (b + c));
    crate::text_laws::law_occurrence(a + b, c, Seq::empty());
}

/// Every header is signed, with its name in lower case, and the three of the protocol with it.
pub proof fn law_signed_headers(
    host: Seq<char>,
    hash: Seq<char>,
    time: Seq<char>,
    extra: Seq<(Seq<char>, Seq<char>)>,
    i: int,
)
    requires
        0 <= i < extra.len(),
    ensures
        ({
            let p = plain_headers(host, hash, time, extra);
            &&& p.contains(("host"@, host))
            &&& p.contains(("x-amz-content-sha256"@, hash))
            &&& p.contains(("x-amz-date"@, time))
            &&& p.contains((ascii_lower(extra[i].0), trimmed(extra[i].1)))
            &&& p.len() == extra.len() + 3
            &&& signed_items(p).contains((ascii_lower(extra[i].0), squeezed(trimmed(extra[i].1))))
            &&& signed_items(p).contains(("host"@, squeezed(host)))
            &&& signed_items(p).len() == p.len()
        }),
{
    let p = plain_headers(host, hash, time, extra);
    assert(p[0] == ("host"@, host));
    assert(p[1] == ("x-amz-content-sha256"@, hash));
    assert(p[2] == ("x-amz-date"@, time));
    assert(p[3 + i] == (ascii_lower(extra[i].0), trimmed(extra[i].1)));
    let m = p.map_values(|h: (Seq<char>, Seq<char>)| (h.0, squeezed(h.1)));
    assert(m[0] == ("host"@, squeezed(host)));
    assert(m[3 + i] == (ascii_lower(extra[i].0), squeezed(trimmed(extra[i].1))));
    lemma_sorted_has(m, pair_order(), m[0]);
    lemma_sorted_has(m, pair_order(), m[3 + i]);
    crate::sorting::law_sorted_same_items(m, pair_order());
}

/// The lines of the signed headers: each with its name and its value.
pub proof fn law_header_lines(items: Seq<(Seq<char>, Seq<char>)>, h: (Seq<char>, Seq<char>))
    ensures
        header_lines(items.push(h)) == header_lines(items) + (h.0 + ":"@ + h.1 + "\n"@),
        header_lines(Seq::empty()) == Seq::<char>::empty(),
{
    assert(items.push(h).drop_last() =~= items);
    assert(header_lines(items.push(h)) =~= header_lines(items) + (h.0 + ":"@ + h.1 + "\n"@));
}

/// Objects lie below their bucket, under their key, at the host of the account.
pub proof fn law_object_address(account: Seq<char>, bucket: Seq<char>, key: Seq<char>)
    ensures
        host_of(account) == account + ".r2.cloudflarestorage.com"@,
        object_path(bucket, Seq::empty()) == "/"@ + bucket,
        key.len() > 0 ==> object_path(bucket, key) == "/"@ + bucket + ("/"@ + encoded(
            skip_front(key, CharClass::Just('/')),
            true,
        )),
{
    assert("/"@ + bucket + Seq::<char>::empty() =~= "/"@ + bucket);
}

/// Pages of the list are asked for below the prefix, and from where the last one ended.
pub proof fn law_page_query(prefix: Seq<char>, token: Seq<char>)
    ensures
        page_query(prefix, token).contains(("list-type"@, "2"@)),
        page_query(prefix, token).contains(
            ("prefix"@, skip_back(prefix, CharClass::Just('/')) + "/"@),
        ),
        token.len() > 0 ==> page_query(prefix, token).contains(("continuation-token"@, token)),
        token.len() == 0 ==> page_query(prefix, token).len() == 3,
{
    let q = page_query(prefix, token);
    assert(q[0] == ("list-type"@, "2"@));
    assert(q[1] == ("prefix"@, skip_back(prefix, CharClass::Just('/')) + "/"@));
    if token.len() > 0 {
        assert(q[3] == ("continuation-token"@, token));
    }
}

/// A page that is not the last one names the next; the last one names none.
pub proof fn law_next_page(text: Seq<char>)
    ensures
        occurs(text, "<IsTruncated>true</IsTruncated>"@) && occurs(text, "<NextContinuationToken>"@)
            ==> next_page(text) == between(
            text,
            "<NextContinuationToken>"@,
            "</NextContinuationToken>"@,
        ),
        !occurs(text, "<IsTruncated>true</IsTruncated>"@) ==> next_page(text).len() == 0,
{
}

/// An object of a page is listed with its key, its size and its time.
pub proof fn law_listed_object(block: Seq<char>)
    ensures
        ({
            let key = between(block, "<Key>"@, "</Key>"@);
            let size = parsed_int(trimmed(between(block, "<Size>"@, "</Size>"@)));
            &&& listed_object()(block) is Some <==> key.len() > 0
            &&& listed_object()(block) matches Some(v) ==> v.str_at("key"@) == key && v.str_at(
                "updated_at"@,
            ) == between(block, "<LastModified>"@, "</LastModified>"@) && (size is Some ==> v.get(
                "size"@,
            ) == Some(int_json(size->0)))
        }),
{
    broadcast use crate::value::group_fields;

    reveal_strlit("key");
    reveal_strlit("size");
    reveal_strlit("updated_at");
    assert("key"@.len() == 3);
    assert("size"@.len() == 4);
    assert("updated_at"@.len() == 10);
}

// ---------------------------------------------------------------------------
// imports
// ---------------------------------------------------------------------------

/// An import begins with nothing done.
pub proof fn law_started_import(id: Seq<char>, total: nat, now: Seq<char>)
    ensures
        ({
            let j = started_job(id, total, now);
            &&& j.str_at("job_id"@) == id
            &&& j.str_at("status"@) == "pending"@
            &&& j.str_at("created_at"@) == now
            &&& j.get("total"@) == Some(count_json(total))
            &&& j.get("completed"@) == Some(int_json(0))
            &&& j.get("added"@) == Some(int_json(0))
            &&& j.get("failed"@) == Some(int_json(0))
            &&& j.items_at("errors"@).len() == 0
        }),
{
    broadcast use crate::value::group_fields;

    reveal_strlit("job_id");
    reveal_strlit("status");
    reveal_strlit("created_at");
    reveal_strlit("updated_at");
    reveal_strlit("total");
    reveal_strlit("completed");
    reveal_strlit("added");
    reveal_strlit("skipped");
    reveal_strlit("refreshed");
    reveal_strlit("failed");
    reveal_strlit("errors");
    assert("job_id"@.len() == 6 && "job_id"@[0] == 'j');
    assert("status"@.len() == 6 && "status"@[0] == 's');
    assert("created_at"@.len() == 10 && "created_at"@[0] == 'c');
    assert("updated_at"@.len() == 10 && "updated_at"@[0] == 'u');
    assert("total"@.len() == 5 && "total"@[0] == 't');
    assert("completed"@.len() == 9 && "completed"@[0] == 'c');
    assert("added"@.len() == 5 && "added"@[0] == 'a');
    assert("skipped"@.len() == 7);
    assert("refreshed"@.len() == 9 && "refreshed"@[0] == 'r');
    assert("failed"@.len() == 6 && "failed"@[0] == 'f');
    assert("errors"@.len() == 6 && "errors"@[0] == 'e');
}

/// An import that is kept is kept as it is; one that was interrupted has failed.
pub proof fn law_kept_import(v: JsonView, fail: bool, fresh: Seq<char>, now: Seq<char>)
    requires
        v is Obj,
    ensures
        normal_job(Some(v), fail, fresh, now) matches Some(j) && {
            let status = field_trim(v, "status"@);
            &&& field_trim(v, "job_id"@).len() > 0 ==> j.str_at("job_id"@) == field_trim(v, "job_id"@)
            &&& fail && (status == "pending"@ || status == "running"@) ==> j.str_at("status"@)
                == "failed"@
            &&& !fail && status.len() > 0 ==> j.str_at("status"@) == status
            &&& status == "completed"@ ==> j.str_at("status"@) == "completed"@
            &&& j.get("total"@) == Some(int_json(loose_int(v, "total"@)))
            &&& j.get("completed"@) == Some(int_json(loose_int(v, "completed"@)))
            &&& j.get("added"@) == Some(int_json(loose_int(v, "added"@)))
            &&& j.get("skipped"@) == Some(int_json(loose_int(v, "skipped"@)))
            &&& j.get("refreshed"@) == Some(int_json(loose_int(v, "refreshed"@)))
            &&& j.get("failed"@) == Some(int_json(loose_int(v, "failed"@)))
            &&& j.items_at("errors"@) == v.items_at("errors"@)
        },
{
    broadcast use crate::value::group_fields;

    reveal_strlit("job_id");
    reveal_strlit("status");
    reveal_strlit("created_at");
    reveal_strlit("updated_at");
    reveal_strlit("total");
    reveal_strlit("completed");
    reveal_strlit("added");
    reveal_strlit("skipped");
    reveal_strlit("refreshed");
    reveal_strlit("failed");
    reveal_strlit("errors");
    reveal_strlit("pending");
    reveal_strlit("running");
    assert("job_id"@.len() == 6 && "job_id"@[0] == 'j');
    assert("status"@.len() == 6 && "status"@[0] == 's');
    assert("created_at"@.len() == 10 && "created_at"@[0] == 'c');
    assert("updated_at"@.len() == 10 && "updated_at"@[0] == 'u');
    assert("total"@.len() == 5 && "total"@[0] == 't');
    assert("completed"@.len() == 9 && "completed"@[0] == 'c');
    assert("added"@.len() == 5 && "added"@[0] == 'a');
    assert("skipped"@.len() == 7 && "skipped"@[0] == 's');
    assert("refreshed"@.len() == 9 && "refreshed"@[0] == 'r');
    assert("failed"@.len() == 6 && "failed"@[0] == 'f');
    assert("errors"@.len() == 6 && "errors"@[0] == 'e');
    assert("pending"@.len() == 7 && "pending"@[0] == 'p');
    assert("running"@.len() == 7 && "running"@[0] == 'r');
}

/// A pool is kept with its name, its address and its key.
pub proof fn law_kept_pool(raw: JsonView, fresh: Seq<char>, job: Seq<char>, now: Seq<char>)
    ensures
        ({
            let p = normal_pool(raw, fresh, job, now);
            &&& field_trim(raw, "id"@).len() > 0 ==> p.str_at("id"@) == field_trim(raw, "id"@)
            &&& field_trim(raw, "id"@).len() == 0 ==> p.str_at("id"@) == fresh
            &&& p.str_at("name"@) == field_trim(raw, "name"@)
            &&& p.str_at("base_url"@) == field_trim(raw, "base_url"@)
            &&& p.str_at("secret_key"@) == field_trim(raw, "secret_key"@)
            &&& raw.get("import_job"@) is None ==> p.get("import_job"@) == Some(JsonView::Null)
        }),
{
    broadcast use crate::value::group_fields;

    reveal_strlit("id");
    reveal_strlit("name");
    reveal_strlit("base_url");
    reveal_strlit("secret_key");
    reveal_strlit("import_job");
    assert("id"@.len() == 2);
    assert("name"@.len() == 4);
    assert("base_url"@.len() == 8);
    assert("secret_key"@.len() == 10 && "secret_key"@[0] == 's');
    assert("import_job"@.len() == 10 && "import_job"@[0] == 'i');
}

/// A change of a pool sets the fields that it names and that are not `null`.
pub proof fn law_changed_pool(dst: JsonView, src: Seq<(Seq<char>, JsonView)>, k: Seq<char>)
    requires
        dst is Obj,
        crate::assoc::distinct_names(src),
    ensures
        merged_filled(dst, src) is Obj,
        merged_filled(dst, src).get(k) == (match crate::assoc::lookup(src, k) {
            Some(v) => if v is Null {
                dst.get(k)
            } else {
                Some(v)
            },
            None => dst.get(k),
        }),
    decreases src.len(),
{
    broadcast use crate::value::group_fields;

    if src.len() > 0 {
        let init = src.drop_last();
        assert(crate::assoc::distinct_names(init)) by {
            assert forall|i: int, j: int| 0 <= i < j < init.len() implies (#[trigger] init[i]).0 != (
            #[trigger] init[j]).0 by {
                assert(init[i] == src[i] && init[j] == src[j]);
            }
        }
        law_changed_pool(dst, init, k);
        crate::assoc::lemma_lookup_found(src, k);
        crate::assoc::lemma_lookup_found(init, k);
        let e = src.last();
        assert(src[src.len() - 1] == e);
        if e.0 == k {
            assert(crate::assoc::lookup(init, k) is None) by {
                if crate::assoc::lookup(init, k) is Some {
                    let i = choose|i: int|
                        0 <= i < init.len() && #[trigger] init[i] == (
                            k,
                            crate::assoc::lookup(init, k)->0,
                        );
                    assert(src[i].0 == k);
                }
            }
            let i = choose|i: int|
                0 <= i < src.len() && #[trigger] src[i] == (k, crate::assoc::lookup(src, k)->0);
            assert(i == src.len() - 1);
        } else {
            if crate::assoc::lookup(src, k) is Some {
                let i = choose|i: int|
                    0 <= i < src.len() && #[trigger] src[i] == (k, crate::assoc::lookup(src, k)->0);
                assert(init[i] == src[i]);
                let v = crate::assoc::lookup(init, k);
                assert(v is Some);
                let j = choose|j: int| 0 <= j < init.len() && #[trigger] init[j] == (k, v->0);
                assert(src[j] == init[j]);
                assert(i == j);
            } else if crate::assoc::lookup(init, k) is Some {
                let j = choose|j: int|
                    0 <= j < init.len() && #[trigger] init[j] == (
                        k,
                        crate::assoc::lookup(init, k)->0,
                    );
                assert(src[j].0 == k);
            }
        }
    }
}

/// A deleted pool is gone, and every other one stays.
pub proof fn law_deleted_pool(pools: Seq<JsonView>, id: Seq<char>, p: JsonView)
    ensures
        pools.filter(other_pool(id)).contains(p) <==> pools.contains(p) && field_text(p, "id"@) != id,
{
    lemma_filtered_has(pools, other_pool(id), p);
}

/// A failure of an import is noted with the name of its file, and counted.
pub proof fn law_import_failure(job: JsonView, name: Seq<char>, message: Seq<char>)
    requires
        i64::MIN <= loose_int(job, "completed"@) < i64::MAX,
    ensures
        error_updates(job, name, message).items_at("errors"@) == job.items_at("errors"@).push(
            import_error(name, message),
        ),
        error_updates(job, name, message).get("failed"@) == Some(
            count_json(job.items_at("errors"@).len() + 1),
        ),
        import_error(name, message).str_at("name"@) == name,
        import_error(name, message).str_at("error"@) == message,
        progress_updates(job).get("completed"@) == Some(int_json(loose_int(job, "completed"@) + 1)),
        progress_updates(job).get("failed"@) == Some(count_json(job.items_at("errors"@).len())),
{
    broadcast use crate::value::group_fields;

    reveal_strlit("errors");
    reveal_strlit("failed");
    reveal_strlit("name");
    reveal_strlit("error");
    reveal_strlit("completed");
    assert("errors"@.len() == 6 && "errors"@[0] == 'e');
    assert("failed"@.len() == 6 && "failed"@[0] == 'f');
    assert("name"@.len() == 4);
    assert("error"@.len() == 5);
    assert("completed"@.len() == 9);
}

/// A remote file is shown by its name, with its address or its account.
pub proof fn law_remote_file(v: JsonView)
    ensures
        remote_file()(v) is Some <==> v is Obj && field_trim(v, "name"@).len() > 0,
        remote_file()(v) matches Some(f) ==> f.str_at("name"@) == field_trim(v, "name"@) && (field_trim(
            v,
            "email"@,
        ).len() > 0 ==> f.str_at("email"@) == field_trim(v, "email"@)) && (field_trim(v, "email"@).len()
            == 0 ==> f.str_at("email"@) == field_trim(v, "account"@)),
{
    broadcast use crate::value::group_fields;

    reveal_strlit("name");
    reveal_strlit("email");
    assert("name"@.len() == 4);
    assert("email"@.len() == 5);
}

} // verus!
