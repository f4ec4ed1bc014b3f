//! What settings read as, and what changing them does.
use vstd::prelude::*;

use crate::config::{
    backup_parts, backup_section, cache_section, integer, level_of, patch_fault, patched,
    public_view, refresh_minutes, settled_sections, storage_fault, storage_mode, storage_section,
    switch, word_of,
};
use crate::lists::{lemma_mapped_from, lemma_mapped_has};
use crate::system::register_updates;
use crate::text::{ascii_lower, parsed_int, skip_back, strip, trimmed, CharClass};
use crate::value::{int_json, plain_text, texts_json, JsonView};

verus! {

// ---------------------------------------------------------------------------
// single settings
// ---------------------------------------------------------------------------

/// A switch is as it is set, by a value or by a word, and as usual where it is not set.
pub proof fn law_switch(b: bool, s: Seq<char>, default: bool)
    ensures
        switch(Some(JsonView::Bool(b)), default) == b,
        switch(None, default) == default,
        switch(Some(JsonView::Null), default) == default,
        ascii_lower(trimmed(s)) == "true"@ || ascii_lower(trimmed(s)) == "1"@ || ascii_lower(
            trimmed(s),
        ) == "yes"@ || ascii_lower(trimmed(s)) == "on"@ ==> switch(Some(JsonView::Str(s)), default),
        ascii_lower(trimmed(s)) == "false"@ || ascii_lower(trimmed(s)) == "0"@ || ascii_lower(
            trimmed(s),
        ) == "no"@ || ascii_lower(trimmed(s)) == "off"@ ==> !switch(Some(JsonView::Str(s)), default),
        switch(Some(int_json(0)), default) == false,
        switch(Some(int_json(1)), default) == true,
{
    reveal_strlit("true");
    reveal_strlit("1");
    reveal_strlit("yes");
    reveal_strlit("on");
    reveal_strlit("false");
    reveal_strlit("0");
    reveal_strlit("no");
    reveal_strlit("off");
    assert("true"@.len() == 4);
    assert("1"@.len() == 1 && "1"@[0] == '1');
    assert("yes"@.len() == 3 && "yes"@[0] == 'y');
    assert("on"@.len() == 2 && "on"@[0] == 'o');
    assert("false"@.len() == 5);
    assert("0"@.len() == 1 && "0"@[0] == '0');
    assert("no"@.len() == 2 && "no"@[0] == 'n');
    assert("off"@.len() == 3 && "off"@[0] == 'o');
}

/// A number is as it is set, as a number or in words, and as usual where it is not set; one that
/// is too small becomes the least.
pub proof fn law_integer(n: i64, s: Seq<char>, default: int, least: int)
    ensures
        n >= least ==> integer(Some(int_json(n as int)), default, least) == n,
        n < least ==> integer(Some(int_json(n as int)), default, least) == least,
        default >= least ==> integer(None, default, least) == default,
        parsed_int(trimmed(s)) is Some && parsed_int(trimmed(s))->0 >= least ==> integer(
            Some(JsonView::Str(s)),
            default,
            least,
        ) == parsed_int(trimmed(s))->0,
        parsed_int(trimmed(s)) is None && default >= least ==> integer(
            Some(JsonView::Str(s)),
            default,
            least,
        ) == default,
{
}

// ---------------------------------------------------------------------------
// sections
// ---------------------------------------------------------------------------

/// Everything is part of a backup unless it is left out, but for the images, which are where they
/// are asked for.
pub proof fn law_backup_parts(m: JsonView, k: Seq<char>)
    ensures
        k == "config"@ || k == "register"@ || k == "cpa"@ || k == "sub2api"@ || k == "logs"@ || k
            == "image_tasks"@ || k == "accounts_snapshot"@ || k == "auth_keys_snapshot"@
            ==> backup_parts(m).get(k) == Some(JsonView::Bool(switch(m.get(k), true))),
        backup_parts(m).get("images"@) == Some(JsonView::Bool(switch(m.get("images"@), false))),
{
    broadcast use crate::value::group_fields;

    reveal_strlit("config");
    reveal_strlit("register");
    reveal_strlit("cpa");
    reveal_strlit("sub2api");
    reveal_strlit("logs");
    reveal_strlit("image_tasks");
    reveal_strlit("accounts_snapshot");
    reveal_strlit("auth_keys_snapshot");
    reveal_strlit("images");
    assert("config"@.len() == 6 && "config"@[0] == 'c');
    assert("register"@.len() == 8);
    assert("cpa"@.len() == 3);
    assert("sub2api"@.len() == 7);
    assert("logs"@.len() == 4);
    assert("image_tasks"@.len() == 11);
    assert("accounts_snapshot"@.len() == 17);
    assert("auth_keys_snapshot"@.len() == 18);
    assert("images"@.len() == 6 && "images"@[0] == 'i');
}

/// The settings of backups are as they are set: off, every six hours and ten kept, unless they say
/// otherwise.
pub proof fn law_backup_settings(v: JsonView)
    ensures
        ({
            let s = backup_section(v);
            &&& s.get("enabled"@) == Some(JsonView::Bool(switch(v.get("enabled"@), false)))
            &&& s.get("encrypt"@) == Some(JsonView::Bool(switch(v.get("encrypt"@), false)))
            &&& s.str_at("account_id"@) == trimmed(plain_text(v.get("account_id"@)))
            &&& s.str_at("access_key_id"@) == trimmed(plain_text(v.get("access_key_id"@)))
            &&& s.str_at("secret_access_key"@) == trimmed(plain_text(v.get("secret_access_key"@)))
            &&& s.str_at("bucket"@) == trimmed(plain_text(v.get("bucket"@)))
            &&& s.str_at("passphrase"@) == trimmed(plain_text(v.get("passphrase"@)))
            &&& strip(trimmed(plain_text(v.get("prefix"@))), CharClass::Just('/')).len() > 0
                ==> s.str_at("prefix"@) == strip(
                trimmed(plain_text(v.get("prefix"@))),
                CharClass::Just('/'),
            )
            &&& strip(trimmed(plain_text(v.get("prefix"@))), CharClass::Just('/')).len() == 0
                ==> s.str_at("prefix"@) == "backups"@
            &&& s.get("interval_minutes"@) == Some(int_json(integer(v.get("interval_minutes"@), 360, 1)))
            &&& v.get("interval_minutes"@) is None ==> s.get("interval_minutes"@) == Some(
                int_json(360),
            )
            &&& s.get("rotation_keep"@) == Some(int_json(integer(v.get("rotation_keep"@), 10, 0)))
            &&& s.get("include"@) == Some(backup_parts(v.at("include"@)))
        }),
{
    broadcast use crate::value::group_fields;

    reveal_strlit("enabled");
    reveal_strlit("provider");
    reveal_strlit("account_id");
    reveal_strlit("access_key_id");
    reveal_strlit("secret_access_key");
    reveal_strlit("bucket");
    reveal_strlit("prefix");
    reveal_strlit("interval_minutes");
    reveal_strlit("rotation_keep");
    reveal_strlit("encrypt");
    reveal_strlit("passphrase");
    reveal_strlit("include");
    assert("enabled"@.len() == 7 && "enabled"@[0] == 'e' && "enabled"@[2] == 'a');
    assert("provider"@.len() == 8);
    assert("account_id"@.len() == 10 && "account_id"@[0] == 'a');
    assert("access_key_id"@.len() == 13 && "access_key_id"@[0] == 'a');
    assert("secret_access_key"@.len() == 17);
    assert("bucket"@.len() == 6 && "bucket"@[0] == 'b');
    assert("prefix"@.len() == 6 && "prefix"@[0] == 'p');
    assert("interval_minutes"@.len() == 16);
    assert("rotation_keep"@.len() == 13 && "rotation_keep"@[0] == 'r');
    assert("encrypt"@.len() == 7 && "encrypt"@[0] == 'e' && "encrypt"@[2] == 'c');
    assert("passphrase"@.len() == 10 && "passphrase"@[0] == 'p');
    assert("include"@.len() == 7 && "include"@[0] == 'i');
}

/// Images are stored elsewhere only where that is switched on and asked for.
pub proof fn law_storage_mode(v: JsonView)
    ensures
        !switch(v.get("enabled"@), false) ==> storage_mode(v) == "local"@,
        switch(v.get("enabled"@), false) && ascii_lower(trimmed(plain_text(v.get("mode"@))))
            == "webdav"@ ==> storage_mode(v) == "webdav"@,
        switch(v.get("enabled"@), false) && ascii_lower(trimmed(plain_text(v.get("mode"@)))) == "both"@
            ==> storage_mode(v) == "both"@,
        storage_mode(v) == "local"@ || storage_mode(v) == "webdav"@ || storage_mode(v) == "both"@,
{
}

/// The settings of the image store are as they are set, without slashes at the ends of addresses.
pub proof fn law_storage_settings(v: JsonView)
    ensures
        ({
            let s = storage_section(v);
            &&& s.get("enabled"@) == Some(JsonView::Bool(switch(v.get("enabled"@), false)))
            &&& s.str_at("mode"@) == storage_mode(v)
            &&& s.str_at("webdav_url"@) == skip_back(
                trimmed(plain_text(v.get("webdav_url"@))),
                CharClass::Just('/'),
            )
            &&& s.str_at("webdav_username"@) == trimmed(plain_text(v.get("webdav_username"@)))
            &&& s.str_at("webdav_password"@) == trimmed(plain_text(v.get("webdav_password"@)))
            &&& s.str_at("public_base_url"@) == skip_back(
                trimmed(plain_text(v.get("public_base_url"@))),
                CharClass::Just('/'),
            )
            &&& strip(trimmed(plain_text(v.get("webdav_root_path"@))), CharClass::Just('/')).len() > 0
                ==> s.str_at("webdav_root_path"@) == strip(
                trimmed(plain_text(v.get("webdav_root_path"@))),
                CharClass::Just('/'),
            )
        }),
{
    broadcast use crate::value::group_fields;

    reveal_strlit("enabled");
    reveal_strlit("mode");
    reveal_strlit("webdav_url");
    reveal_strlit("webdav_username");
    reveal_strlit("webdav_password");
    reveal_strlit("webdav_root_path");
    reveal_strlit("public_base_url");
    assert("enabled"@.len() == 7);
    assert("mode"@.len() == 4);
    assert("webdav_url"@.len() == 10);
    assert("webdav_username"@.len() == 15 && "webdav_username"@[0] == 'w' && "webdav_username"@[7] == 'u');
    assert("webdav_password"@.len() == 15 && "webdav_password"@[0] == 'w' && "webdav_password"@[7] == 'p');
    assert("webdav_root_path"@.len() == 16);
    assert("public_base_url"@.len() == 15 && "public_base_url"@[0] == 'p');
}

/// A remote image store is refused without its address or its password, and only then.
pub proof fn law_storage_refused(v: JsonView)
    ensures
        storage_fault(v) is None <==> !switch(v.get("enabled"@), false) || (trimmed(
            plain_text(v.get("webdav_url"@)),
        ).len() > 0 && trimmed(plain_text(v.get("webdav_password"@))).len() > 0),
{
}

/// The settings of the cache are as they are set: on, for a minute and for 256 answers, unless
/// they say otherwise.
pub proof fn law_cache_settings(v: JsonView)
    ensures
        ({
            let s = cache_section(v);
            &&& s.get("enabled"@) == Some(JsonView::Bool(switch(v.get("enabled"@), true)))
            &&& s.get("ttl_seconds"@) == Some(int_json(integer(v.get("ttl_seconds"@), 60, 0)))
            &&& s.get("max_entries"@) == Some(int_json(integer(v.get("max_entries"@), 256, 1)))
            &&& s.get("dedupe_inflight"@) == Some(
                JsonView::Bool(switch(v.get("dedupe_inflight"@), true)),
            )
            &&& s.get("stream_cache"@) == Some(JsonView::Bool(switch(v.get("stream_cache"@), true)))
            &&& s.get("normalize_messages"@) == Some(
                JsonView::Bool(switch(v.get("normalize_messages"@), true)),
            )
            &&& s.get("drop_adjacent_duplicates"@) == Some(
                JsonView::Bool(switch(v.get("drop_adjacent_duplicates"@), true)),
            )
            &&& s.get("drop_assistant_history"@) == Some(
                JsonView::Bool(switch(v.get("drop_assistant_history"@), false)),
            )
        }),
{
    broadcast use crate::value::group_fields;

    reveal_strlit("enabled");
    reveal_strlit("ttl_seconds");
    reveal_strlit("max_entries");
    reveal_strlit("dedupe_inflight");
    reveal_strlit("stream_cache");
    reveal_strlit("normalize_messages");
    reveal_strlit("drop_adjacent_duplicates");
    reveal_strlit("drop_assistant_history");
    assert("enabled"@.len() == 7);
    assert("ttl_seconds"@.len() == 11 && "ttl_seconds"@[0] == 't');
    assert("max_entries"@.len() == 11 && "max_entries"@[0] == 'm');
    assert("dedupe_inflight"@.len() == 15);
    assert("stream_cache"@.len() == 12);
    assert("normalize_messages"@.len() == 18);
    assert("drop_adjacent_duplicates"@.len() == 24);
    assert("drop_assistant_history"@.len() == 22);
}

// ---------------------------------------------------------------------------
// all of them
// ---------------------------------------------------------------------------

/// What is shown of the settings is what they read as, with the usual values for those that are
/// not set; every other field is shown as it stands.
pub proof fn law_shown_settings(data: JsonView, interval: JsonView, wait: JsonView, k: Seq<char>)
    requires
        data is Obj,
    ensures
        ({
            let p = public_view(data, interval, wait);
            &&& data.get("image_retention_days"@) is None ==> p.get("image_retention_days"@) == Some(
                int_json(30),
            )
            &&& p.get("image_retention_days"@) == Some(
                int_json(integer(data.get("image_retention_days"@), 30, 1)),
            )
            &&& p.get("image_poll_timeout_secs"@) == Some(
                int_json(integer(data.get("image_poll_timeout_secs"@), 120, 1)),
            )
            &&& p.get("image_poll_interval_secs"@) == Some(interval)
            &&& p.get("image_poll_initial_wait_secs"@) == Some(wait)
            &&& p.get("image_account_concurrency"@) == Some(
                int_json(integer(data.get("image_account_concurrency"@), 3, 1)),
            )
            &&& p.get("image_parallel_generation"@) == Some(
                JsonView::Bool(switch(data.get("image_parallel_generation"@), true)),
            )
            &&& p.get("auto_remove_invalid_accounts"@) == Some(
                JsonView::Bool(switch(data.get("auto_remove_invalid_accounts"@), false)),
            )
            &&& p.get("auto_remove_rate_limited_accounts"@) == Some(
                JsonView::Bool(switch(data.get("auto_remove_rate_limited_accounts"@), false)),
            )
            &&& p.get("auto_relogin_after_refresh"@) == Some(
                JsonView::Bool(switch(data.get("auto_relogin_after_refresh"@), false)),
            )
            &&& p.get("log_levels"@) == Some(
                texts_json(data.items_at("log_levels"@).filter_map(level_of())),
            )
            &&& p.get("sensitive_words"@) == Some(
                texts_json(data.items_at("sensitive_words"@).filter_map(word_of())),
            )
            &&& data.at("ai_review"@) is Obj ==> p.get("ai_review"@) == data.get("ai_review"@)
            &&& p.str_at("global_system_prompt"@) == trimmed(
                plain_text(data.get("global_system_prompt"@)),
            )
            &&& p.get("backup"@) == Some(backup_section(data.at("backup"@)))
            &&& p.get("image_storage"@) == Some(storage_section(data.at("image_storage"@)))
            &&& p.get("chat_completion_cache"@) == Some(
                cache_section(data.at("chat_completion_cache"@)),
            )
            &&& p.get("auth-key"@) is None
            &&& k != "refresh_account_interval_minute"@ && k != "image_retention_days"@ && k != "image_poll_timeout_secs"@ && k != "image_poll_interval_secs"@ && k != "image_poll_initial_wait_secs"@ && k != "image_account_concurrency"@ && k != "image_parallel_generation"@ && k != "auto_remove_invalid_accounts"@ && k != "auto_remove_rate_limited_accounts"@ && k != "auto_relogin_after_refresh"@ && k != "log_levels"@ && k != "sensitive_words"@ && k != "ai_review"@ && k != "global_system_prompt"@ && k != "backup"@ && k != "image_storage"@ && k != "chat_completion_cache"@ && k != "auth-key"@ ==> p.get(k) == data.get(k)
        }),
        refresh_minutes(data) == integer(data.get("refresh_account_interval_minute"@), 5, 1),
{
    broadcast use crate::value::group_fields;

    reveal_strlit("refresh_account_interval_minute");
    reveal_strlit("image_retention_days");
    reveal_strlit("image_poll_timeout_secs");
    reveal_strlit("image_poll_interval_secs");
    reveal_strlit("image_poll_initial_wait_secs");
    reveal_strlit("image_account_concurrency");
    reveal_strlit("image_parallel_generation");
    reveal_strlit("auto_remove_invalid_accounts");
    reveal_strlit("auto_remove_rate_limited_accounts");
    reveal_strlit("auto_relogin_after_refresh");
    reveal_strlit("log_levels");
    reveal_strlit("sensitive_words");
    reveal_strlit("ai_review");
    reveal_strlit("global_system_prompt");
    reveal_strlit("backup");
    reveal_strlit("image_storage");
    reveal_strlit("chat_completion_cache");
    reveal_strlit("auth-key");
    assert("refresh_account_interval_minute"@.len() == 31);
    assert("image_retention_days"@.len() == 20 && "image_retention_days"@[0] == 'i');
    assert("image_poll_timeout_secs"@.len() == 23);
    assert("image_poll_interval_secs"@.len() == 24);
    assert("image_poll_initial_wait_secs"@.len() == 28 && "image_poll_initial_wait_secs"@[0] == 'i');
    assert("image_account_concurrency"@.len() == 25 && "image_account_concurrency"@[6] == 'a');
    assert("image_parallel_generation"@.len() == 25 && "image_parallel_generation"@[6] == 'p');
    assert("auto_remove_invalid_accounts"@.len() == 28 && "auto_remove_invalid_accounts"@[0] == 'a');
    assert("auto_remove_rate_limited_accounts"@.len() == 33);
    assert("auto_relogin_after_refresh"@.len() == 26);
    assert("log_levels"@.len() == 10);
    assert("sensitive_words"@.len() == 15);
    assert("ai_review"@.len() == 9);
    assert("global_system_prompt"@.len() == 20 && "global_system_prompt"@[0] == 'g');
    assert("backup"@.len() == 6);
    assert("image_storage"@.len() == 13);
    assert("chat_completion_cache"@.len() == 21);
    assert("auth-key"@.len() == 8);
}

/// The levels of the log are the four that there are; words are kept without white space at their
/// ends.
pub proof fn law_listed_settings(items: Seq<JsonView>, s: Seq<char>)
    ensures
        items.filter_map(level_of()).contains(s) <==> (s == "debug"@ || s == "info"@ || s
            == "warning"@ || s == "error"@) && exists|i: int|
            0 <= i < items.len() && ((#[trigger] items[i]) matches JsonView::Str(t) && ascii_lower(
                trimmed(t),
            ) == s),
        items.filter_map(word_of()).contains(s) <==> s.len() > 0 && exists|i: int|
            0 <= i < items.len() && ((#[trigger] items[i]) matches JsonView::Str(t) && trimmed(t) == s),
{
    let f = level_of();
    let g = word_of();
    if items.filter_map(f).contains(s) {
        lemma_mapped_from(items, f, s);
        let i = choose|i: int| 0 <= i < items.len() && f(#[trigger] items[i]) == Some(s);
        assert(items[i] is Str);
    }
    if items.filter_map(g).contains(s) {
        lemma_mapped_from(items, g, s);
        let i = choose|i: int| 0 <= i < items.len() && g(#[trigger] items[i]) == Some(s);
        assert(items[i] is Str);
    }
    if (s == "debug"@ || s == "info"@ || s == "warning"@ || s == "error"@) && exists|i: int|
        0 <= i < items.len() && ((#[trigger] items[i]) matches JsonView::Str(t) && ascii_lower(
            trimmed(t),
        ) == s) {
        let i = choose|i: int|
            0 <= i < items.len() && ((#[trigger] items[i]) matches JsonView::Str(t) && ascii_lower(
                trimmed(t),
            ) == s);
        lemma_mapped_has(items, f, i);
    }
    if s.len() > 0 && exists|i: int|
        0 <= i < items.len() && ((#[trigger] items[i]) matches JsonView::Str(t) && trimmed(t) == s) {
        let i = choose|i: int|
            0 <= i < items.len() && ((#[trigger] items[i]) matches JsonView::Str(t) && trimmed(t)
                == s);
        lemma_mapped_has(items, g, i);
    }
}

/// Changed settings are put into their form before they are kept, and the state of backups is not
/// kept with them. A change that would leave an image store without its address is refused.
pub proof fn law_changed_settings(data: JsonView, patch: JsonView, k: Seq<char>)
    requires
        data is Obj,
        patch is Obj,
        crate::assoc::distinct_names(patch->Obj_0),
    ensures
        ({
            let d = patched(data, patch);
            let s = settled_sections(d);
            &&& patch.get("backup"@) is Some ==> s.get("backup"@) == Some(
                backup_section(patch.at("backup"@)),
            )
            &&& patch.get("image_storage"@) is Some ==> s.get("image_storage"@) == Some(
                storage_section(patch.at("image_storage"@)),
            )
            &&& patch.get("chat_completion_cache"@) is Some ==> s.get("chat_completion_cache"@) == Some(
                cache_section(patch.at("chat_completion_cache"@)),
            )
            &&& s.get("backup_state"@) is None
            &&& patch.get("image_storage"@) is Some ==> patch_fault(d) == storage_fault(
                storage_section(patch.at("image_storage"@)),
            )
            &&& k != "backup"@ && k != "image_storage"@ && k != "chat_completion_cache"@ && k
                != "backup_state"@ ==> s.get(k) == (if patch.get(k) is Some {
                patch.get(k)
            } else {
                data.get(k)
            })
        }),
{
    broadcast use crate::value::group_fields;

    reveal_strlit("backup");
    reveal_strlit("image_storage");
    reveal_strlit("chat_completion_cache");
    reveal_strlit("backup_state");
    assert("backup"@.len() == 6);
    assert("image_storage"@.len() == 13);
    assert("chat_completion_cache"@.len() == 21);
    assert("backup_state"@.len() == 12);
    crate::pool_use_laws::law_merged_fields(data, patch, "backup"@);
    crate::pool_use_laws::law_merged_fields(data, patch, "image_storage"@);
    crate::pool_use_laws::law_merged_fields(data, patch, "chat_completion_cache"@);
    crate::pool_use_laws::law_merged_fields(data, patch, "backup_state"@);
    crate::pool_use_laws::law_merged_fields(data, patch, k);
}

/// Of the settings of registration exactly those that can be changed are taken.
pub proof fn law_register_updates(body: JsonView, k: Seq<char>)
    ensures
        register_updates(body).get(k) == (if (k == "mail"@ || k == "proxy"@ || k == "total"@ || k
            == "threads"@ || k == "mode"@ || k == "target_quota"@ || k == "target_available"@ || k
            == "check_interval"@) && !(body.at(k) is Null) {
            body.get(k)
        } else {
            None
        }),
{
    broadcast use crate::value::group_fields;

    reveal_strlit("mail");
    reveal_strlit("proxy");
    reveal_strlit("total");
    reveal_strlit("threads");
    reveal_strlit("mode");
    reveal_strlit("target_quota");
    reveal_strlit("target_available");
    reveal_strlit("check_interval");
    assert("mail"@.len() == 4 && "mail"@[1] == 'a');
    assert("proxy"@.len() == 5 && "proxy"@[0] == 'p');
    assert("total"@.len() == 5 && "total"@[0] == 't');
    assert("threads"@.len() == 7);
    assert("mode"@.len() == 4 && "mode"@[1] == 'o');
    assert("target_quota"@.len() == 12);
    assert("target_available"@.len() == 16);
    assert("check_interval"@.len() == 14);
}

} // verus!
