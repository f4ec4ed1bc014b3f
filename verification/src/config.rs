//! The configuration: typed readings of a JSON object, and the normalized form of its sections.
use vstd::prelude::*;

use crate::account::{merge_objects, merged};
use crate::clock::Moment;
use crate::json::{non_empty_or, text_from};
use crate::text::{
    ascii_lower, chars_of, first_of, index_from, parse_int, parsed_int, same, skip_back, strip,
    to_ascii_lower, trim, trim_back, trim_class, trimmed, views, CharClass,
};
use crate::value::{
    empty_object, int_json, opt_view, or_else, plain_text, texts_json, Json, JsonView, NumberView,
};

verus! {

broadcast use crate::value::group_json;

// ---------------------------------------------------------------------------
// readings
// ---------------------------------------------------------------------------

/// Whether the mantissa of a number's text has a digit other than zero.
pub open spec fn significant(text: Seq<char>) -> bool {
    exists|i: int| 0 <= i < first_of(text, 'e') && '1' <= #[trigger] text[i] <= '9'
}

/// Whether a number is other than zero.
pub open spec fn non_zero(n: NumberView) -> bool {
    match n.int {
        Some(i) => i != 0,
        None => significant(n.text),
    }
}

fn is_significant(text: &str) -> (r: bool)
    ensures
        r == significant(text@),
{
    let v = chars_of(text);
    let end = index_from(&v, 0, 'e');
    assert(v@.subrange(0, v@.len() as int) =~= v@);
    let mut i: usize = 0;
    while i < end
        invariant
            i <= end <= v@.len(),
            end == first_of(text@, 'e'),
            v@ == text@,
            forall|j: int| 0 <= j < i ==> !('1' <= #[trigger] text@[j] <= '9'),
        decreases end - i,
    {
        if '1' <= v[i] && v[i] <= '9' {
            assert('1' <= text@[i as int] <= '9');
            return true;
        }
        i += 1;
    }
    false
}

/// A setting as a switch: `default` where it says nothing that can be read as one.
pub open spec fn switch(v: Option<JsonView>, default: bool) -> bool {
    match v {
        Some(JsonView::Str(s)) => {
            let t = ascii_lower(trimmed(s));
            if t == "1"@ || t == "true"@ || t == "yes"@ || t == "on"@ {
                true
            } else if t == "0"@ || t == "false"@ || t == "no"@ || t == "off"@ {
                false
            } else {
                default
            }
        },
        Some(JsonView::Bool(b)) => b,
        Some(JsonView::Num(n)) => non_zero(n),
        _ => default,
    }
}

/// Reads a setting as a switch.
pub fn normalize_bool(value: Option<&Json>, default: bool) -> (r: bool)
    ensures
        r == switch(opt_view(value), default),
{
    match value {
        Some(Json::Str(s)) => {
            let t = to_ascii_lower(trim(s.as_str()).as_str());
            let t = t.as_str();
            if same(t, "1") || same(t, "true") || same(t, "yes") || same(t, "on") {
                true
            } else if same(t, "0") || same(t, "false") || same(t, "no") || same(t, "off") {
                false
            } else {
                default
            }
        },
        Some(Json::Bool(b)) => *b,
        Some(Json::Num(n)) => match n.int {
            Some(i) => i != 0,
            None => is_significant(n.text.as_str()),
        },
        _ => default,
    }
}

/// A setting as an integer of at least `minimum`; `default` where it is none.
pub open spec fn integer(v: Option<JsonView>, default: int, minimum: int) -> int {
    let n = match v {
        Some(JsonView::Num(n)) => match n.int {
            Some(i) => i as int,
            None => n.trunc as int,
        },
        Some(JsonView::Str(s)) => match parsed_int(trimmed(s)) {
            Some(i) => i,
            None => default,
        },
        _ => default,
    };
    if n < minimum {
        minimum
    } else {
        n
    }
}

/// Reads a setting as an integer of at least `minimum`.
pub fn normalize_positive_int(value: Option<&Json>, default: i64, minimum: i64) -> (r: i64)
    ensures
        r == integer(opt_view(value), default as int, minimum as int),
{
    let n: i64 = match value {
        Some(Json::Num(n)) => match n.int {
            Some(i) => i,
            None => n.trunc,
        },
        Some(Json::Str(s)) => match parse_int(trim(s.as_str()).as_str()) {
            Some(i) => i,
            None => default,
        },
        _ => default,
    };
    if n < minimum {
        minimum
    } else {
        n
    }
}

/// A setting as trimmed text.
pub open spec fn setting(v: JsonView, k: Seq<char>) -> Seq<char> {
    trimmed(plain_text(v.get(k)))
}

fn setting_text(v: &Json, k: &str) -> (r: String)
    ensures
        r@ == setting(v@, k@),
{
    trim(text_from(v.get(k)).as_str())
}

// ---------------------------------------------------------------------------
// sections
// ---------------------------------------------------------------------------

/// The part `k` of a backup, which is `default` where the section does not say.
pub open spec fn with_part(o: JsonView, m: JsonView, k: Seq<char>, default: bool) -> JsonView {
    o.put(k, JsonView::Bool(switch(m.get(k), default)))
}

/// What a backup holds; a section that is no object leaves everything at its default.
pub open spec fn backup_parts(m: JsonView) -> JsonView {
    let o = with_part(empty_object(), m, "config"@, true);
    let o = with_part(o, m, "register"@, true);
    let o = with_part(o, m, "cpa"@, true);
    let o = with_part(o, m, "sub2api"@, true);
    let o = with_part(o, m, "logs"@, true);
    let o = with_part(o, m, "image_tasks"@, true);
    let o = with_part(o, m, "accounts_snapshot"@, true);
    let o = with_part(o, m, "auth_keys_snapshot"@, true);
    with_part(o, m, "images"@, false)
}

fn set_part(o: &mut Json, m: &Json, k: &str, default: bool)
    ensures
        final(o)@ == with_part(old(o)@, m@, k@, default),
{
    let b = normalize_bool(m.get(k), default);
    o.set(k, Json::Bool(b));
}

fn normalize_backup_parts(m: &Json) -> (r: Json)
    ensures
        r@ == backup_parts(m@),
{
    let mut o = Json::object();
    set_part(&mut o, m, "config", true);
    set_part(&mut o, m, "register", true);
    set_part(&mut o, m, "cpa", true);
    set_part(&mut o, m, "sub2api", true);
    set_part(&mut o, m, "logs", true);
    set_part(&mut o, m, "image_tasks", true);
    set_part(&mut o, m, "accounts_snapshot", true);
    set_part(&mut o, m, "auth_keys_snapshot", true);
    set_part(&mut o, m, "images", false);
    o
}

/// The backup section in its normalized form.
pub open spec fn backup_section(v: JsonView) -> JsonView {
    empty_object().put("enabled"@, JsonView::Bool(switch(v.get("enabled"@), false))).put(
        "provider"@,
        JsonView::Str("cloudflare_r2"@),
    ).put("account_id"@, JsonView::Str(setting(v, "account_id"@))).put(
        "access_key_id"@,
        JsonView::Str(setting(v, "access_key_id"@)),
    ).put("secret_access_key"@, JsonView::Str(setting(v, "secret_access_key"@))).put(
        "bucket"@,
        JsonView::Str(setting(v, "bucket"@)),
    ).put(
        "prefix"@,
        JsonView::Str(or_else(strip(setting(v, "prefix"@), CharClass::Just('/')), "backups"@)),
    ).put("interval_minutes"@, int_json(integer(v.get("interval_minutes"@), 360, 1))).put(
        "rotation_keep"@,
        int_json(integer(v.get("rotation_keep"@), 10, 0)),
    ).put("encrypt"@, JsonView::Bool(switch(v.get("encrypt"@), false))).put(
        "passphrase"@,
        JsonView::Str(setting(v, "passphrase"@)),
    ).put("include"@, backup_parts(v.at("include"@)))
}

/// Normalizes the backup section.
pub fn normalize_backup_settings(v: &Json) -> (r: Json)
    ensures
        r@ == backup_section(v@),
{
    let mut o = Json::object();
    o.set("enabled", Json::Bool(normalize_bool(v.get("enabled"), false)));
    o.set("provider", Json::from_text("cloudflare_r2"));
    o.set("account_id", Json::Str(setting_text(v, "account_id")));
    o.set("access_key_id", Json::Str(setting_text(v, "access_key_id")));
    o.set("secret_access_key", Json::Str(setting_text(v, "secret_access_key")));
    o.set("bucket", Json::Str(setting_text(v, "bucket")));
    let prefix = trim_class(setting_text(v, "prefix").as_str(), CharClass::Just('/'));
    o.set("prefix", Json::Str(non_empty_or(prefix, "backups")));
    o.set(
        "interval_minutes",
        Json::from_int(normalize_positive_int(v.get("interval_minutes"), 360, 1)),
    );
    o.set(
        "rotation_keep",
        Json::from_int(normalize_positive_int(v.get("rotation_keep"), 10, 0)),
    );
    o.set("encrypt", Json::Bool(normalize_bool(v.get("encrypt"), false)));
    o.set("passphrase", Json::Str(setting_text(v, "passphrase")));
    let parts = v.at("include");
    o.set("include", normalize_backup_parts(&parts));
    o
}

/// Where images are kept: `local`, `webdav` or `both`; always `local` while remote storage is
/// off.
pub open spec fn storage_mode(v: JsonView) -> Seq<char> {
    let mode = ascii_lower(setting(v, "mode"@));
    if switch(v.get("enabled"@), false) && (mode == "webdav"@ || mode == "both"@) {
        mode
    } else {
        "local"@
    }
}

/// The image-storage section in its normalized form.
pub open spec fn storage_section(v: JsonView) -> JsonView {
    empty_object().put("enabled"@, JsonView::Bool(switch(v.get("enabled"@), false))).put(
        "mode"@,
        JsonView::Str(storage_mode(v)),
    ).put(
        "webdav_url"@,
        JsonView::Str(skip_back(setting(v, "webdav_url"@), CharClass::Just('/'))),
    ).put("webdav_username"@, JsonView::Str(setting(v, "webdav_username"@))).put(
        "webdav_password"@,
        JsonView::Str(setting(v, "webdav_password"@)),
    ).put(
        "webdav_root_path"@,
        JsonView::Str(
            or_else(
                strip(setting(v, "webdav_root_path"@), CharClass::Just('/')),
                "chatgpt2api/images"@,
            ),
        ),
    ).put(
        "public_base_url"@,
        JsonView::Str(skip_back(setting(v, "public_base_url"@), CharClass::Just('/'))),
    )
}

/// Normalizes the image-storage section.
pub fn normalize_image_storage_settings(v: &Json) -> (r: Json)
    ensures
        r@ == storage_section(v@),
{
    let enabled = normalize_bool(v.get("enabled"), false);
    let mode = to_ascii_lower(setting_text(v, "mode").as_str());
    let mode = if enabled && (same(mode.as_str(), "webdav") || same(mode.as_str(), "both")) {
        mode
    } else {
        "local".to_owned()
    };
    let mut o = Json::object();
    o.set("enabled", Json::Bool(enabled));
    o.set("mode", Json::Str(mode));
    let url = trim_back(setting_text(v, "webdav_url").as_str(), CharClass::Just('/'));
    o.set("webdav_url", Json::Str(url));
    o.set("webdav_username", Json::Str(setting_text(v, "webdav_username")));
    o.set("webdav_password", Json::Str(setting_text(v, "webdav_password")));
    let root = trim_class(setting_text(v, "webdav_root_path").as_str(), CharClass::Just('/'));
    o.set("webdav_root_path", Json::Str(non_empty_or(root, "chatgpt2api/images")));
    let public = trim_back(setting_text(v, "public_base_url").as_str(), CharClass::Just('/'));
    o.set("public_base_url", Json::Str(public));
    o
}

/// What is wrong with an image-storage section: remote storage that is on needs an address and
/// a password.
pub open spec fn storage_fault(v: JsonView) -> Option<Seq<char>> {
    if !switch(v.get("enabled"@), false) {
        None
    } else if setting(v, "webdav_url"@).len() == 0 {
        Some("启用 WebDAV 图片存储后必须填写 WebDAV URL"@)
    } else if setting(v, "webdav_password"@).len() == 0 {
        Some("启用 WebDAV 图片存储后必须填写 WebDAV 密码"@)
    } else {
        None
    }
}

/// Checks an image-storage section.
pub fn validate_image_storage_settings(v: &Json) -> (r: Result<(), String>)
    ensures
        match r {
            Ok(_) => storage_fault(v@) is None,
            Err(e) => storage_fault(v@) == Some(e@),
        },
{
    if !normalize_bool(v.get("enabled"), false) {
        return Ok(());
    }
    if setting_text(v, "webdav_url").as_str().is_empty() {
        return Err("启用 WebDAV 图片存储后必须填写 WebDAV URL".to_owned());
    }
    if setting_text(v, "webdav_password").as_str().is_empty() {
        return Err("启用 WebDAV 图片存储后必须填写 WebDAV 密码".to_owned());
    }
    Ok(())
}

/// The chat-cache section in its normalized form.
pub open spec fn cache_section(v: JsonView) -> JsonView {
    empty_object().put("enabled"@, JsonView::Bool(switch(v.get("enabled"@), true))).put(
        "ttl_seconds"@,
        int_json(integer(v.get("ttl_seconds"@), 60, 0)),
    ).put("max_entries"@, int_json(integer(v.get("max_entries"@), 256, 1))).put(
        "dedupe_inflight"@,
        JsonView::Bool(switch(v.get("dedupe_inflight"@), true)),
    ).put("stream_cache"@, JsonView::Bool(switch(v.get("stream_cache"@), true))).put(
        "normalize_messages"@,
        JsonView::Bool(switch(v.get("normalize_messages"@), true)),
    ).put(
        "drop_adjacent_duplicates"@,
        JsonView::Bool(switch(v.get("drop_adjacent_duplicates"@), true)),
    ).put(
        "drop_assistant_history"@,
        JsonView::Bool(switch(v.get("drop_assistant_history"@), false)),
    )
}

/// Normalizes the chat-cache section.
pub fn normalize_chat_completion_cache_settings(v: &Json) -> (r: Json)
    ensures
        r@ == cache_section(v@),
{
    let mut o = Json::object();
    o.set("enabled", Json::Bool(normalize_bool(v.get("enabled"), true)));
    o.set("ttl_seconds", Json::from_int(normalize_positive_int(v.get("ttl_seconds"), 60, 0)));
    o.set("max_entries", Json::from_int(normalize_positive_int(v.get("max_entries"), 256, 1)));
    o.set("dedupe_inflight", Json::Bool(normalize_bool(v.get("dedupe_inflight"), true)));
    o.set("stream_cache", Json::Bool(normalize_bool(v.get("stream_cache"), true)));
    o.set("normalize_messages", Json::Bool(normalize_bool(v.get("normalize_messages"), true)));
    o.set(
        "drop_adjacent_duplicates",
        Json::Bool(normalize_bool(v.get("drop_adjacent_duplicates"), true)),
    );
    o.set(
        "drop_assistant_history",
        Json::Bool(normalize_bool(v.get("drop_assistant_history"), false)),
    );
    o
}

// ---------------------------------------------------------------------------
// the configuration
// ---------------------------------------------------------------------------

/// The configuration.
pub struct Config {
    data: Json,
}

/// The level that an entry names.
pub open spec fn level_of() -> spec_fn(JsonView) -> Option<Seq<char>> {
    |v: JsonView|
        match v {
            JsonView::Str(s) => {
                let level = ascii_lower(trimmed(s));
                if level == "debug"@ || level == "info"@ || level == "warning"@ || level
                    == "error"@ {
                    Some(level)
                } else {
                    None
                }
            },
            _ => None,
        }
}

/// The word that an entry gives.
pub open spec fn word_of() -> spec_fn(JsonView) -> Option<Seq<char>> {
    |v: JsonView|
        match v {
            JsonView::Str(s) => if trimmed(s).len() > 0 {
                Some(trimmed(s))
            } else {
                None
            },
            _ => None,
        }
}

/// The review section, an empty object where it is none.
pub open spec fn review_section(data: JsonView) -> JsonView {
    match data.get("ai_review"@) {
        Some(JsonView::Obj(o)) => JsonView::Obj(o),
        _ => empty_object(),
    }
}

/// The configuration as it is shown: every setting that is read has its effective value, and
/// the key of the administrator is left out. `interval` and `wait` are the two settings that
/// are fractions of seconds.
pub open spec fn public_view(data: JsonView, interval: JsonView, wait: JsonView) -> JsonView {
    data.put(
        "refresh_account_interval_minute"@,
        int_json(refresh_minutes(data)),
    ).put(
        "image_retention_days"@,
        int_json(integer(data.get("image_retention_days"@), 30, 1)),
    ).put(
        "image_poll_timeout_secs"@,
        int_json(integer(data.get("image_poll_timeout_secs"@), 120, 1)),
    ).put("image_poll_interval_secs"@, interval).put("image_poll_initial_wait_secs"@, wait).put(
        "image_account_concurrency"@,
        int_json(integer(data.get("image_account_concurrency"@), 3, 1)),
    ).put(
        "image_parallel_generation"@,
        JsonView::Bool(switch(data.get("image_parallel_generation"@), true)),
    ).put(
        "auto_remove_invalid_accounts"@,
        JsonView::Bool(switch(data.get("auto_remove_invalid_accounts"@), false)),
    ).put(
        "auto_remove_rate_limited_accounts"@,
        JsonView::Bool(switch(data.get("auto_remove_rate_limited_accounts"@), false)),
    ).put(
        "auto_relogin_after_refresh"@,
        JsonView::Bool(switch(data.get("auto_relogin_after_refresh"@), false)),
    ).put(
        "log_levels"@,
        texts_json(data.items_at("log_levels"@).filter_map(level_of())),
    ).put(
        "sensitive_words"@,
        texts_json(data.items_at("sensitive_words"@).filter_map(word_of())),
    ).put("ai_review"@, review_section(data)).put(
        "global_system_prompt"@,
        JsonView::Str(setting(data, "global_system_prompt"@)),
    ).put("backup"@, backup_section(data.at("backup"@))).put(
        "image_storage"@,
        storage_section(data.at("image_storage"@)),
    ).put("chat_completion_cache"@, cache_section(data.at("chat_completion_cache"@))).without(
        "auth-key"@,
    )
}

/// Between refreshes of the accounts, in minutes.
pub open spec fn refresh_minutes(data: JsonView) -> int {
    let n = integer(data.get("refresh_account_interval_minute"@), 5, 0);
    if n < 1 {
        1
    } else {
        n
    }
}

/// The configuration with a patch set over it and its backup section normalized.
pub open spec fn patched(data: JsonView, patch: JsonView) -> JsonView {
    let d = merged(data, patch);
    match d.get("backup"@) {
        Some(v) => d.put("backup"@, backup_section(v)),
        None => d,
    }
}

/// The configuration with its other sections normalized and the state of backups left out.
pub open spec fn settled_sections(d: JsonView) -> JsonView {
    let d = match d.get("image_storage"@) {
        Some(v) => d.put("image_storage"@, storage_section(v)),
        None => d,
    };
    let d = match d.get("chat_completion_cache"@) {
        Some(v) => d.put("chat_completion_cache"@, cache_section(v)),
        None => d,
    };
    d.without("backup_state"@)
}

/// What is wrong with a patched configuration.
pub open spec fn patch_fault(d: JsonView) -> Option<Seq<char>> {
    match d.get("image_storage"@) {
        Some(v) => storage_fault(storage_section(v)),
        None => None,
    }
}

impl Config {
    /// The settings.
    pub closed spec fn data(self) -> JsonView {
        self.data@
    }

    /// Settings are an object.
    pub open spec fn wf(self) -> bool {
        self.data() is Obj
    }

    /// The configuration that a document holds; an empty one where it holds no object.
    pub fn from_document(text: Option<&str>) -> (r: Config)
        ensures
            r.wf(),
            r.data() == (match text {
                Some(t) => match crate::json::parsed(vstd::utf8::encode_utf8(t@)) {
                    Some(JsonView::Obj(o)) => JsonView::Obj(o),
                    _ => empty_object(),
                },
                None => empty_object(),
            }),
    {
        let data = match text {
            Some(t) => match Json::parse(t.as_bytes()) {
                Some(Json::Obj(o)) => Json::Obj(o),
                _ => Json::object(),
            },
            None => Json::object(),
        };
        Config { data }
    }

    /// The settings as they are stored.
    pub fn settings(&self) -> (r: Json)
        ensures
            r@ == self.data(),
    {
        self.data.copy()
    }

    /// The key of the administrator: what the environment gives, else what is set.
    pub fn auth_key(&self, env: &str) -> (r: String)
        ensures
            r@ == or_else(trimmed(env@), setting(self.data(), "auth-key"@)),
            trimmed(env@).len() > 0 ==> r@ == trimmed(env@),
            trimmed(env@).len() == 0 ==> r@ == trimmed(plain_text(self.data().get("auth-key"@))),
    {
        let set = setting_text(&self.data, "auth-key");
        non_empty_or(trim(env), set.as_str())
    }

    /// The public address of the server: what the environment gives, else what is set.
    pub fn base_url(&self, env: &str) -> (r: String)
        ensures
            r@ == skip_back(
                or_else(trimmed(env@), setting(self.data(), "base_url"@)),
                CharClass::Just('/'),
            ),
    {
        let set = setting_text(&self.data, "base_url");
        trim_back(non_empty_or(trim(env), set.as_str()).as_str(), CharClass::Just('/'))
    }

    pub fn refresh_account_interval_minute(&self) -> (r: i64)
        ensures
            r == refresh_minutes(self.data()),
            r >= 1,
            self.data().get("refresh_account_interval_minute"@) is None ==> r == 5,
    {
        let n = normalize_positive_int(self.data.get("refresh_account_interval_minute"), 5, 0);
        if n < 1 {
            1
        } else {
            n
        }
    }

    pub fn image_retention_days(&self) -> (r: i64)
        ensures
            r == integer(self.data().get("image_retention_days"@), 30, 1),
            self.data().get("image_retention_days"@) is None ==> r == 30,
            r >= 1,
    {
        normalize_positive_int(self.data.get("image_retention_days"), 30, 1)
    }

    pub fn image_poll_timeout_secs(&self) -> (r: i64)
        ensures
            r == integer(self.data().get("image_poll_timeout_secs"@), 120, 1),
            self.data().get("image_poll_timeout_secs"@) is None ==> r == 120,
            r >= 1,
    {
        normalize_positive_int(self.data.get("image_poll_timeout_secs"), 120, 1)
    }

    pub fn image_account_concurrency(&self) -> (r: i64)
        ensures
            r == integer(self.data().get("image_account_concurrency"@), 3, 1),
            self.data().get("image_account_concurrency"@) is None ==> r == 3,
            r >= 1,
    {
        normalize_positive_int(self.data.get("image_account_concurrency"), 3, 1)
    }

    pub fn image_parallel_generation(&self) -> (r: bool)
        ensures
            r == switch(self.data().get("image_parallel_generation"@), true),
            self.data().get("image_parallel_generation"@) is None ==> r == true,
            self.data().get("image_parallel_generation"@) == Some(JsonView::Bool(true)) ==> r,
            self.data().get("image_parallel_generation"@) == Some(JsonView::Bool(false)) ==> !r,
    {
        normalize_bool(self.data.get("image_parallel_generation"), true)
    }

    pub fn image_settle_enabled(&self) -> (r: bool)
        ensures
            r == switch(self.data().get("image_settle_enabled"@), true),
            self.data().get("image_settle_enabled"@) is None ==> r == true,
            self.data().get("image_settle_enabled"@) == Some(JsonView::Bool(true)) ==> r,
            self.data().get("image_settle_enabled"@) == Some(JsonView::Bool(false)) ==> !r,
    {
        normalize_bool(self.data.get("image_settle_enabled"), true)
    }

    pub fn image_check_before_hit_enabled(&self) -> (r: bool)
        ensures
            r == switch(self.data().get("image_check_before_hit_enabled"@), true),
            self.data().get("image_check_before_hit_enabled"@) is None ==> r == true,
            self.data().get("image_check_before_hit_enabled"@) == Some(JsonView::Bool(true)) ==> r,
            self.data().get("image_check_before_hit_enabled"@) == Some(JsonView::Bool(false)) ==> !r,
    {
        normalize_bool(self.data.get("image_check_before_hit_enabled"), true)
    }

    pub fn image_min_free_mb(&self) -> (r: i64)
        ensures
            r == integer(self.data().get("image_min_free_mb"@), 500, 0),
            self.data().get("image_min_free_mb"@) is None ==> r == 500,
            r >= 0,
    {
        normalize_positive_int(self.data.get("image_min_free_mb"), 500, 0)
    }

    pub fn auto_remove_invalid_accounts(&self) -> (r: bool)
        ensures
            r == switch(self.data().get("auto_remove_invalid_accounts"@), false),
            self.data().get("auto_remove_invalid_accounts"@) is None ==> r == false,
            self.data().get("auto_remove_invalid_accounts"@) == Some(JsonView::Bool(true)) ==> r,
            self.data().get("auto_remove_invalid_accounts"@) == Some(JsonView::Bool(false)) ==> !r,
    {
        normalize_bool(self.data.get("auto_remove_invalid_accounts"), false)
    }

    pub fn auto_remove_rate_limited_accounts(&self) -> (r: bool)
        ensures
            r == switch(self.data().get("auto_remove_rate_limited_accounts"@), false),
            self.data().get("auto_remove_rate_limited_accounts"@) is None ==> r == false,
            self.data().get("auto_remove_rate_limited_accounts"@) == Some(JsonView::Bool(true)) ==> r,
            self.data().get("auto_remove_rate_limited_accounts"@) == Some(JsonView::Bool(false)) ==> !r,
    {
        normalize_bool(self.data.get("auto_remove_rate_limited_accounts"), false)
    }

    pub fn auto_relogin_after_refresh(&self) -> (r: bool)
        ensures
            r == switch(self.data().get("auto_relogin_after_refresh"@), false),
            self.data().get("auto_relogin_after_refresh"@) is None ==> r == false,
            self.data().get("auto_relogin_after_refresh"@) == Some(JsonView::Bool(true)) ==> r,
            self.data().get("auto_relogin_after_refresh"@) == Some(JsonView::Bool(false)) ==> !r,
    {
        normalize_bool(self.data.get("auto_relogin_after_refresh"), false)
    }

    /// The levels that are logged.
    pub fn log_levels(&self) -> (r: Vec<String>)
        ensures
            views(r@) == self.data().items_at("log_levels"@).filter_map(level_of()),
    {
        let items = self.data.items_at("log_levels");
        let ghost v = crate::value::list_view(items@);
        let ghost f = level_of();
        let mut out: Vec<String> = Vec::new();
        let mut i: usize = 0;
        assert(v.take(0).filter_map(f) =~= Seq::empty());
        assert(views(out@) =~= Seq::empty());
        while i < items.len()
            invariant
                i <= items@.len(),
                v == crate::value::list_view(items@),
                f == level_of(),
                views(out@) == v.take(i as int).filter_map(f),
            decreases items@.len() - i,
        {
            proof {
                v.lemma_filter_map_take_succ(f, i as int);
            }
            let ghost done = views(out@);
            match &items[i] {
                Json::Str(s) => {
                    let level = to_ascii_lower(trim(s.as_str()).as_str());
                    let l = level.as_str();
                    if same(l, "debug") || same(l, "info") || same(l, "warning") || same(
                        l,
                        "error",
                    ) {
                        let ghost lv = level@;
                        out.push(level);
                        assert(views(out@) =~= done + seq![lv]);
                    }
                },
                _ => {},
            }
            assert(views(out@) =~= v.take(i + 1).filter_map(f));
            i += 1;
        }
        assert(v.take(i as int) =~= v);
        out
    }

    /// The words that a request may not hold.
    pub fn sensitive_words(&self) -> (r: Vec<String>)
        ensures
            views(r@) == self.data().items_at("sensitive_words"@).filter_map(word_of()),
    {
        let items = self.data.items_at("sensitive_words");
        let ghost v = crate::value::list_view(items@);
        let ghost f = word_of();
        let mut out: Vec<String> = Vec::new();
        let mut i: usize = 0;
        assert(v.take(0).filter_map(f) =~= Seq::empty());
        assert(views(out@) =~= Seq::empty());
        while i < items.len()
            invariant
                i <= items@.len(),
                v == crate::value::list_view(items@),
                f == word_of(),
                views(out@) == v.take(i as int).filter_map(f),
            decreases items@.len() - i,
        {
            proof {
                v.lemma_filter_map_take_succ(f, i as int);
            }
            let ghost done = views(out@);
            match &items[i] {
                Json::Str(s) => {
                    let word = trim(s.as_str());
                    if !word.as_str().is_empty() {
                        let ghost wv = word@;
                        out.push(word);
                        assert(views(out@) =~= done + seq![wv]);
                    }
                },
                _ => {},
            }
            assert(views(out@) =~= v.take(i + 1).filter_map(f));
            i += 1;
        }
        assert(v.take(i as int) =~= v);
        out
    }

    /// The review section.
    pub fn ai_review(&self) -> (r: Json)
        ensures
            r@ == review_section(self.data()),
    {
        match self.data.get("ai_review") {
            Some(v) => match v.copy() {
                Json::Obj(o) => Json::Obj(o),
                _ => Json::object(),
            },
            None => Json::object(),
        }
    }

    pub fn global_system_prompt(&self) -> (r: String)
        ensures
            r@ == setting(self.data(), "global_system_prompt"@),
    {
        setting_text(&self.data, "global_system_prompt")
    }

    pub fn proxy_setting(&self) -> (r: String)
        ensures
            r@ == setting(self.data(), "proxy"@),
    {
        setting_text(&self.data, "proxy")
    }

    pub fn get_backup_settings(&self) -> (r: Json)
        ensures
            r@ == backup_section(self.data().at("backup"@)),
    {
        normalize_backup_settings(&self.data.at("backup"))
    }

    pub fn get_image_storage_settings(&self) -> (r: Json)
        ensures
            r@ == storage_section(self.data().at("image_storage"@)),
    {
        normalize_image_storage_settings(&self.data.at("image_storage"))
    }

    pub fn get_chat_completion_cache_settings(&self) -> (r: Json)
        ensures
            r@ == cache_section(self.data().at("chat_completion_cache"@)),
    {
        normalize_chat_completion_cache_settings(&self.data.at("chat_completion_cache"))
    }

    /// The configuration as it is shown.
    pub fn get_public(&self, interval: &Json, wait: &Json) -> (r: Json)
        ensures
            r@ == public_view(self.data(), interval@, wait@),
    {
        let mut d = self.data.copy();
        d.set(
            "refresh_account_interval_minute",
            Json::from_int(self.refresh_account_interval_minute()),
        );
        d.set("image_retention_days", Json::from_int(self.image_retention_days()));
        d.set("image_poll_timeout_secs", Json::from_int(self.image_poll_timeout_secs()));
        d.set("image_poll_interval_secs", interval.copy());
        d.set("image_poll_initial_wait_secs", wait.copy());
        d.set("image_account_concurrency", Json::from_int(self.image_account_concurrency()));
        d.set("image_parallel_generation", Json::Bool(self.image_parallel_generation()));
        d.set("auto_remove_invalid_accounts", Json::Bool(self.auto_remove_invalid_accounts()));
        d.set(
            "auto_remove_rate_limited_accounts",
            Json::Bool(self.auto_remove_rate_limited_accounts()),
        );
        d.set("auto_relogin_after_refresh", Json::Bool(self.auto_relogin_after_refresh()));
        d.set("log_levels", Json::from_texts(&self.log_levels()));
        d.set("sensitive_words", Json::from_texts(&self.sensitive_words()));
        d.set("ai_review", self.ai_review());
        d.set("global_system_prompt", Json::Str(self.global_system_prompt()));
        d.set("backup", self.get_backup_settings());
        d.set("image_storage", self.get_image_storage_settings());
        d.set("chat_completion_cache", self.get_chat_completion_cache_settings());
        d.remove("auth-key");
        d
    }

    /// Sets a patch over the settings and normalizes their sections. Where the image storage is
    /// at fault the patch stays set, with the fault as the answer; what is no object changes
    /// nothing.
    pub fn update(&mut self, patch: &Json) -> (r: Result<(), String>)
        requires
            old(self).wf(),
        ensures
            final(self).wf(),
            if patch@ is Obj {
                let d = patched(old(self).data(), patch@);
                match patch_fault(d) {
                    Some(fault) => {
                        &&& r matches Err(e) && e@ == fault
                        &&& final(self).data() == d
                    },
                    None => r is Ok && final(self).data() == settled_sections(d),
                }
            } else {
                r is Ok && final(self).data() == old(self).data()
            },
    {
        if !patch.is_object() {
            return Ok(());
        }
        let mut d = merge_objects(self.data.copy(), patch);
        let backup = match d.get("backup") {
            Some(v) => Some(normalize_backup_settings(v)),
            None => None,
        };
        match backup {
            Some(v) => {
                d.set("backup", v);
            },
            None => {},
        }
        let storage = match d.get("image_storage") {
            Some(v) => Some(normalize_image_storage_settings(v)),
            None => None,
        };
        match storage {
            Some(v) => {
                match validate_image_storage_settings(&v) {
                    Ok(_) => {},
                    Err(e) => {
                        self.data = d;
                        return Err(e);
                    },
                }
                d.set("image_storage", v);
            },
            None => {},
        }
        let cache = match d.get("chat_completion_cache") {
            Some(v) => Some(normalize_chat_completion_cache_settings(v)),
            None => None,
        };
        match cache {
            Some(v) => {
                d.set("chat_completion_cache", v);
            },
            None => {},
        }
        d.remove("backup_state");
        self.data = d;
        Ok(())
    }
}

/// Whether an image that was last changed at `modified` is more than some days old.
pub fn image_expired(modified: Moment, now: Moment, days: i64) -> (r: bool)
    ensures
        r == (modified.total() < now.total() - days * 86_400_000_000_000),
{
    let age: i128 = now.in_nanos() - modified.in_nanos();
    age > days as i128 * 86_400_000_000_000
}

/// The version that a file gives; `0.0.0` where it gives none.
pub fn app_version(text: &str) -> (r: String)
    ensures
        r@ == or_else(trimmed(text@), "0.0.0"@),
{
    non_empty_or(trim(text), "0.0.0")
}

/// The administrator's key is never shown.
pub proof fn law_key_not_shown(data: JsonView, interval: JsonView, wait: JsonView)
    requires
        data is Obj,
    ensures
        public_view(data, interval, wait).get("auth-key"@) is None,
{
    broadcast use crate::value::group_fields;

}

/// A setting that was changed reads as it was set, unless it is one of the sections, which are
/// normalized.
pub proof fn law_changed_setting_read(data: JsonView, patch: JsonView, k: Seq<char>)
    requires
        data is Obj,
        patch is Obj,
        crate::assoc::distinct_names(patch->Obj_0),
        patch.get(k) is Some,
        k != "backup"@,
        k != "image_storage"@,
        k != "chat_completion_cache"@,
        k != "backup_state"@,
    ensures
        patched(data, patch).get(k) == patch.get(k),
        settled_sections(patched(data, patch)).get(k) == patch.get(k),
{
    broadcast use crate::value::group_fields;

    crate::assoc::lemma_lookup_put_all(data->Obj_0, patch->Obj_0, k);
    assert(merged(data, patch).get(k) == patch.get(k));
}

} // verus!
