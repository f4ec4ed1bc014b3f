//! Backups: what goes into one, when one is due, how old ones go, and what one holds.
use vstd::prelude::*;
use vstd::string::StringExecFns;
use vstd::utf8::encode_utf8;

use crate::account::{merge_objects, merged};
use crate::archive::{
    archive_bytes, archive_items, entry_items, file_items, first_refused, items_view, pack_files,
    packed_view, plain_path, read_archive, tar_refusal, ArchiveItem, ArchiveStep, MADE_MODE,
    ItemView, PackedFile,
};
use crate::assoc::{lemma_lookup_put_all, lemma_put_shape};
use crate::cipher::{decrypt_openssl, encrypt_openssl, is_envelope, opened_envelope};
use crate::clock::{rfc3339_moment, Moment};
use crate::digest::{hex_text, sha256, sha256_hex};
use crate::json::{clean_from, non_empty_or, parsed};
use crate::sorting::{field_order, sort_records, sorted};
use crate::text::{
    after_last, begins, cat, cat3, chars_of, ends, ends_with, last_piece, parse_int, parsed_int,
    replace_char, replaced, same, skip_back, starts_with, text_between, trim, trim_back, trimmed,
    views, CharClass,
};
use crate::value::{
    clean_text, count_json, empty_object, int_json, list_view, or_else, pretty, Json, JsonView,
};

verus! {

broadcast use crate::value::group_json;

/// What a secret is shown as.
pub const MASK: &'static str = "********";

/// A backup that was fetched.
pub struct DownloadedBackup {
    pub key: String,
    pub name: String,
    pub content_type: String,
    pub payload: Vec<u8>,
    pub size: usize,
}

// ---------------------------------------------------------------------------
// names
// ---------------------------------------------------------------------------

/// Whether the name of an object, behind the last slash of its key, is that of a backup.
pub open spec fn backup_name(key: Seq<char>) -> bool {
    let name = last_piece(key, '/');
    begins(name, "backup-"@) && (ends(name, ".tar.gz"@) || ends(name, ".tar.gz.enc"@))
}

/// Whether an object is a backup.
pub fn is_backup_object(key: &str) -> (r: bool)
    ensures
        r == backup_name(key@),
{
    let name = after_last(key, '/');
    let n = name.as_str();
    starts_with(n, "backup-") && (ends_with(n, ".tar.gz") || ends_with(n, ".tar.gz.enc"))
}

/// The type of content that a name stands for.
pub open spec fn content_type(name: Seq<char>) -> Seq<char> {
    if ends(name, ".json"@) {
        "application/json"@
    } else if ends(name, ".jsonl"@) {
        "application/x-ndjson"@
    } else if ends(name, ".tar.gz"@) || ends(name, ".gz"@) {
        "application/gzip"@
    } else {
        "application/octet-stream"@
    }
}

/// The type of content that a name stands for.
pub fn guess_content_type(name: &str) -> (r: &'static str)
    ensures
        r@ == content_type(name@),
{
    if ends_with(name, ".json") {
        "application/json"
    } else if ends_with(name, ".jsonl") {
        "application/x-ndjson"
    } else if ends_with(name, ".tar.gz") || ends_with(name, ".gz") {
        "application/gzip"
    } else {
        "application/octet-stream"
    }
}

/// The name of a new backup.
pub open spec fn object_key(
    prefix: Seq<char>,
    timestamp: Seq<char>,
    tag: Seq<char>,
    encrypted: bool,
) -> Seq<char> {
    skip_back(prefix, CharClass::Just('/')) + "/backup-"@ + timestamp + "-"@ + tag + (
    if encrypted {
        ".tar.gz.enc"@
    } else {
        ".tar.gz"@
    })
}

/// Names a new backup.
pub fn make_object_key(prefix: &str, timestamp: &str, tag: &str, encrypted: bool) -> (r: String)
    ensures
        r@ == object_key(prefix@, timestamp@, tag@, encrypted),
{
    let mut s = cat3(trim_back(prefix, CharClass::Just('/')).as_str(), "/backup-", timestamp);
    s.append("-");
    s.append(tag);
    s.append(
        if encrypted {
            ".tar.gz.enc"
        } else {
            ".tar.gz"
        },
    );
    s
}

/// A new backup is recognized as one.
pub proof fn law_new_backup_is_backup(
    prefix: Seq<char>,
    timestamp: Seq<char>,
    tag: Seq<char>,
    encrypted: bool,
)
    requires
        !timestamp.contains('/'),
        !tag.contains('/'),
    ensures
        backup_name(object_key(prefix, timestamp, tag, encrypted)),
{
    let head = skip_back(prefix, CharClass::Just('/'));
    let suffix = if encrypted {
        ".tar.gz.enc"@
    } else {
        ".tar.gz"@
    };
    let name = "backup-"@ + timestamp + "-"@ + tag + suffix;
    let key = object_key(prefix, timestamp, tag, encrypted);
    reveal_strlit("/backup-");
    reveal_strlit("backup-");
    reveal_strlit("-");
    reveal_strlit(".tar.gz");
    reveal_strlit(".tar.gz.enc");
    assert(key =~= head + seq!['/'] + name);
    assert forall|i: int| 0 <= i < name.len() implies name[i] != '/' by {
        let a = "backup-"@.len() as int;
        let b = a + timestamp.len();
        let c = b + 1;
        let d = c + tag.len();
        if a <= i < b {
            assert(name[i] == timestamp[i - a]);
            assert(timestamp.contains(timestamp[i - a]));
        } else if c <= i < d {
            assert(name[i] == tag[i - c]);
            assert(tag.contains(tag[i - c]));
        } else if d <= i {
            assert(name[i] == suffix[i - d]);
        }
    }
    lemma_last_piece(head, name, '/');
    assert(name.subrange(0, 7) =~= "backup-"@);
    assert(name.subrange(name.len() - suffix.len(), name.len() as int) =~= suffix);
}

/// What stands behind the last separator of a text.
pub proof fn lemma_last_piece(head: Seq<char>, name: Seq<char>, c: char)
    requires
        forall|i: int| 0 <= i < name.len() ==> name[i] != c,
    ensures
        last_piece(head + seq![c] + name, c) == name,
    decreases head.len(),
{
    let s = head + seq![c] + name;
    crate::text::lemma_first_of(s, c);
    let i = crate::text::first_of(s, c);
    assert(s[head.len() as int] == c);
    let rest = s.skip(i + 1);
    let ps = crate::text::pieces(s, c);
    assert(ps.last() == crate::text::pieces(rest, c).last()) by {
        crate::text::lemma_pieces_nonempty(rest, c);
    }
    if i == head.len() {
        assert(rest =~= name);
        crate::text::lemma_first_of(name, c);
        assert(crate::text::pieces(name, c) =~= seq![name]);
    } else {
        let h = head.skip(i + 1);
        assert(rest =~= h + seq![c] + name);
        lemma_last_piece(h, name, c);
    }
}

// ---------------------------------------------------------------------------
// settings
// ---------------------------------------------------------------------------

/// The backup section with one secret masked.
pub open spec fn masked(settings: JsonView, k: Seq<char>) -> JsonView {
    settings.put(
        k,
        JsonView::Str(
            if clean_text(settings.get(k)).len() > 0 {
                MASK@
            } else {
                ""@
            },
        ),
    )
}

fn mask(settings: &mut Json, k: &str)
    ensures
        final(settings)@ == masked(old(settings)@, k@),
{
    let shown = if clean_from(settings.get(k)).as_str().is_empty() {
        ""
    } else {
        MASK
    };
    settings.set(k, Json::from_text(shown));
}

/// The backup section as it is shown.
pub open spec fn shown_settings(settings: JsonView) -> JsonView {
    masked(masked(settings, "secret_access_key"@), "passphrase"@)
}

impl BackupService {
    /// The backup section as it is shown.
    pub fn get_settings(settings: &Json) -> (r: Json)
        ensures
            r@ == shown_settings(settings@),
    {
        let mut s = settings.copy();
        mask(&mut s, "secret_access_key");
        mask(&mut s, "passphrase");
        s
    }
}

/// The section with one secret kept where the mask came back in its place.
pub open spec fn unmasked(
    merged_section: JsonView,
    current: JsonView,
    payload: JsonView,
    k: Seq<char>,
) -> JsonView {
    if payload.get(k) == Some(JsonView::Str(MASK@)) {
        merged_section.put(
            k,
            match current.get(k) {
                Some(v) => v,
                None => JsonView::Str(""@),
            },
        )
    } else {
        merged_section
    }
}

/// The backup section with a change set over it: its parts are merged one by one, and a mask
/// that comes back leaves the secret as it was.
pub open spec fn changed_settings(current: JsonView, payload: JsonView) -> JsonView {
    let all = merged(current, payload);
    let all = match payload.get("include"@) {
        Some(JsonView::Obj(o)) => all.put(
            "include"@,
            merged(current.at("include"@), JsonView::Obj(o)),
        ),
        _ => all,
    };
    let all = unmasked(all, current, payload, "secret_access_key"@);
    unmasked(all, current, payload, "passphrase"@)
}

fn unmask(all: &mut Json, current: &Json, payload: &Json, k: &str)
    ensures
        final(all)@ == unmasked(old(all)@, current@, payload@, k@),
{
    if crate::account::holds_at(payload, k, MASK) {
        let kept = match current.get(k) {
            Some(v) => v.copy(),
            None => Json::from_text(""),
        };
        all.set(k, kept);
    }
}

impl BackupService {
    /// Sets a change over the backup section.
    pub fn update_settings(current: &Json, payload: &Json) -> (r: Json)
        ensures
            r@ == changed_settings(current@, payload@),
    {
        let mut all = merge_objects(current.copy(), payload);
        let parts = match payload.get("include") {
            Some(p) => if p.is_object() {
                Some(merge_objects(current.at("include"), p))
            } else {
                None
            },
            None => None,
        };
        match parts {
            Some(p) => {
                all.set("include", p);
            },
            None => {},
        }
        unmask(&mut all, current, payload, "secret_access_key");
        unmask(&mut all, current, payload, "passphrase");
        all
    }
}

/// Sending back what was shown changes no secret: one that is set stays as it is, and one that is
/// not set, or blank, stays blank.
pub proof fn law_shown_settings_keep_secrets(current: JsonView, k: Seq<char>)
    requires
        current is Obj,
        crate::assoc::distinct_names(current->Obj_0),
        k == "secret_access_key"@ || k == "passphrase"@,
    ensures
        ({
            let back = changed_settings(current, shown_settings(current));
            &&& clean_text(back.get(k)) == clean_text(current.get(k))
            &&& clean_text(current.get(k)).len() > 0 ==> back.get(k) == current.get(k)
        }),
{
    broadcast use crate::value::group_fields;

    reveal_strlit("secret_access_key");
    reveal_strlit("passphrase");
    reveal_strlit("include");
    reveal_strlit("");
    reveal_strlit("********");
    assert("secret_access_key"@.len() == 17);
    assert("passphrase"@.len() == 10);
    assert("include"@.len() == 7);
    assert(""@.len() == 0);
    assert(MASK@.len() == 8);
    let once = masked(current, "secret_access_key"@);
    let shown = shown_settings(current);
    lemma_put_shape(
        current->Obj_0,
        "secret_access_key"@,
        once.get("secret_access_key"@)->0,
    );
    lemma_put_shape(once->Obj_0, "passphrase"@, shown.get("passphrase"@)->0);
    lemma_lookup_put_all(current->Obj_0, shown->Obj_0, k);
    assert(merged(current, shown).get(k) == shown.get(k));
    assert(trimmed(Seq::empty()) == Seq::<char>::empty());
    if clean_text(current.get(k)).len() == 0 {
        assert(shown.get(k) == Some(JsonView::Str(""@)));
        assert(""@ =~= Seq::empty());
        assert(clean_text(current.get(k)) =~= Seq::empty());
    }
}

/// Whether the four settings that the storage needs are there.
pub open spec fn configured(settings: JsonView) -> bool {
    &&& clean_text(settings.get("account_id"@)).len() > 0
    &&& clean_text(settings.get("access_key_id"@)).len() > 0
    &&& clean_text(settings.get("secret_access_key"@)).len() > 0
    &&& clean_text(settings.get("bucket"@)).len() > 0
}

impl BackupService {
    /// Decides [`configured`].
    pub fn is_configured(settings: &Json) -> (r: bool)
        ensures
            r == configured(settings@),
    {
        !clean_from(settings.get("account_id")).as_str().is_empty() && !clean_from(
            settings.get("access_key_id"),
        ).as_str().is_empty() && !clean_from(settings.get("secret_access_key")).as_str().is_empty()
            && !clean_from(settings.get("bucket")).as_str().is_empty()
    }
}

/// The integer in a field: a number cut to one, or the decimal text of one; else zero.
pub open spec fn loose_int(v: JsonView, k: Seq<char>) -> int {
    match v.get(k) {
        Some(JsonView::Num(n)) => match n.int {
            Some(i) => i as int,
            None => n.trunc as int,
        },
        Some(JsonView::Str(s)) => match parsed_int(trimmed(s)) {
            Some(i) => i,
            None => 0,
        },
        _ => 0,
    }
}

/// Reads [`loose_int`].
pub fn ival(v: &Json, k: &str) -> (r: i64)
    ensures
        r == loose_int(v@, k@),
{
    match v.get(k) {
        Some(Json::Num(n)) => match n.int {
            Some(i) => i,
            None => n.trunc,
        },
        Some(Json::Str(s)) => match parse_int(trim(s.as_str()).as_str()) {
            Some(i) => i,
            None => 0,
        },
        _ => 0,
    }
}

// ---------------------------------------------------------------------------
// the state of backups
// ---------------------------------------------------------------------------

/// The text in a field, or `null` where there is none.
pub open spec fn text_or_null(v: JsonView, k: Seq<char>) -> JsonView {
    let t = clean_text(v.get(k));
    if t.len() == 0 {
        JsonView::Null
    } else {
        JsonView::Str(t)
    }
}

fn clean_or_null(v: &Json, k: &str) -> (r: Json)
    ensures
        r@ == text_or_null(v@, k@),
{
    let t = clean_from(v.get(k));
    if t.as_str().is_empty() {
        Json::Null
    } else {
        Json::Str(t)
    }
}

/// When the last successful backup ended, or `null`. A state that does not say so tells it by the
/// end of its last run, where that was a success.
pub open spec fn last_success(v: JsonView) -> JsonView {
    let stated = text_or_null(v, "last_success_at"@);
    if stated is Null && clean_text(v.get("last_status"@)) == "success"@ {
        text_or_null(v, "last_finished_at"@)
    } else {
        stated
    }
}

fn success_time(v: &Json) -> (r: Json)
    ensures
        r@ == last_success(v@),
{
    let stated = clean_or_null(v, "last_success_at");
    if stated.is_null() && same(clean_from(v.get("last_status")).as_str(), "success") {
        clean_or_null(v, "last_finished_at")
    } else {
        stated
    }
}

/// The state of backups as it is shown.
pub open spec fn shown_state(v: JsonView) -> JsonView {
    empty_object().put("last_started_at"@, text_or_null(v, "last_started_at"@)).put(
        "last_finished_at"@,
        text_or_null(v, "last_finished_at"@),
    ).put(
        "last_status"@,
        JsonView::Str(or_else(clean_text(v.get("last_status"@)), "idle"@)),
    ).put("last_error"@, text_or_null(v, "last_error"@)).put(
        "last_object_key"@,
        text_or_null(v, "last_object_key"@),
    )
}

/// The state of backups in its normalized form: what is shown, and when a backup last succeeded.
pub open spec fn backup_state(v: JsonView) -> JsonView {
    shown_state(v).put("last_success_at"@, last_success(v))
}

/// Normalizes the state of backups.
pub fn normalize_backup_state(v: &Json) -> (r: Json)
    ensures
        r@ == backup_state(v@),
{
    let mut o = show_state(v);
    o.set("last_success_at", success_time(v));
    o
}

fn show_state(v: &Json) -> (r: Json)
    ensures
        r@ == shown_state(v@),
{
    let mut o = Json::object();
    o.set("last_started_at", clean_or_null(v, "last_started_at"));
    o.set("last_finished_at", clean_or_null(v, "last_finished_at"));
    o.set("last_status", Json::Str(non_empty_or(clean_from(v.get("last_status")), "idle")));
    o.set("last_error", clean_or_null(v, "last_error"));
    o.set("last_object_key", clean_or_null(v, "last_object_key"));
    o
}

/// A state of backups before it is normalized.
pub open spec fn state_of(
    started: Seq<char>,
    finished: JsonView,
    status: Seq<char>,
    error: JsonView,
    key: JsonView,
    success: JsonView,
) -> JsonView {
    empty_object().put("last_started_at"@, JsonView::Str(started)).put(
        "last_finished_at"@,
        finished,
    ).put("last_status"@, JsonView::Str(status)).put("last_error"@, error).put(
        "last_object_key"@,
        key,
    ).put("last_success_at"@, success)
}

fn make_state(
    started: &str,
    finished: Json,
    status: &str,
    error: Json,
    key: Json,
    success: Json,
) -> (r: Json)
    ensures
        r@ == backup_state(state_of(started@, finished@, status@, error@, key@, success@)),
{
    let mut o = Json::object();
    o.set("last_started_at", Json::from_text(started));
    o.set("last_finished_at", finished);
    o.set("last_status", Json::from_text(status));
    o.set("last_error", error);
    o.set("last_object_key", key);
    o.set("last_success_at", success);
    normalize_backup_state(&o)
}

/// Whether a backup runs, and the state that is stored.
pub struct BackupService {
    pub running: bool,
    pub state: Json,
}

impl BackupService {
    /// The state of backups as it is shown.
    pub fn get_status(&self) -> (r: Json)
        ensures
            r@ == shown_state(self.state@).put("running"@, JsonView::Bool(self.running)),
    {
        let mut s = show_state(&self.state);
        s.set("running", Json::Bool(self.running));
        s
    }

    /// Starts a backup, unless one is running.
    pub fn begin(&mut self, started_at: &str) -> (r: Result<(), String>)
        ensures
            if old(self).running {
                &&& r matches Err(e) && e@ == "当前已有备份任务正在执行"@
                &&& *final(self) == *old(self)
            } else {
                &&& r is Ok
                &&& final(self).running
                &&& final(self).state@ == backup_state(
                    state_of(
                        started_at@,
                        old(self).state@.at("last_finished_at"@),
                        "idle"@,
                        JsonView::Null,
                        old(self).state@.at("last_object_key"@),
                        last_success(old(self).state@),
                    ),
                )
            },
    {
        if self.running {
            return Err("当前已有备份任务正在执行".to_owned());
        }
        let finished = self.state.at("last_finished_at");
        let key = self.state.at("last_object_key");
        let success = success_time(&self.state);
        self.state = make_state(started_at, finished, "idle", Json::Null, key, success);
        self.running = true;
        Ok(())
    }

    /// Ends a backup with its result or its error; the time of the last success changes with a
    /// success only.
    pub fn end(&mut self, outcome: &Result<Json, String>, started_at: &str, finished_at: &str)
        ensures
            !final(self).running,
            final(self).state@ == backup_state(
                match outcome {
                    Ok(result) => state_of(
                        started_at@,
                        JsonView::Str(finished_at@),
                        "success"@,
                        JsonView::Null,
                        result@.at("key"@),
                        JsonView::Str(finished_at@),
                    ),
                    Err(e) => state_of(
                        started_at@,
                        JsonView::Str(finished_at@),
                        "error"@,
                        JsonView::Str(e@),
                        old(self).state@.at("last_object_key"@),
                        last_success(old(self).state@),
                    ),
                },
            ),
            outcome is Ok ==> final(self).state@.str_at("last_status"@) == "success"@,
            outcome is Err ==> final(self).state@.str_at("last_status"@) == "error"@,
            outcome matches Err(e) ==> trimmed(e@).len() > 0 ==> final(self).state@.str_at(
                "last_error"@,
            ) == trimmed(e@),
            outcome is Ok && trimmed(finished_at@).len() > 0 ==> final(self).state@.str_at(
                "last_success_at"@,
            ) == trimmed(finished_at@),
    {
        proof {
            broadcast use crate::value::group_fields;

            reveal_strlit("last_started_at");
            reveal_strlit("last_finished_at");
            reveal_strlit("last_status");
            reveal_strlit("last_error");
            reveal_strlit("last_object_key");
            reveal_strlit("last_success_at");
            reveal_strlit("success");
            reveal_strlit("error");
            assert("last_started_at"@.len() == 15 && "last_started_at"@[5] == 's' && "last_started_at"@[6] == 't');
            assert("last_finished_at"@.len() == 16);
            assert("last_status"@.len() == 11);
            assert("last_error"@.len() == 10);
            assert("last_object_key"@.len() == 15 && "last_object_key"@[5] == 'o');
            assert("last_success_at"@.len() == 15 && "last_success_at"@[5] == 's' && "last_success_at"@[6] == 'u');
            assert("success"@.len() == 7);
            assert("error"@.len() == 5);
            crate::account_laws::lemma_bare_stays("success"@);
            crate::account_laws::lemma_bare_stays("error"@);
        }
        self.running = false;
        self.state = match outcome {
            Ok(result) => make_state(
                started_at,
                Json::from_text(finished_at),
                "success",
                Json::Null,
                result.at("key"),
                Json::from_text(finished_at),
            ),
            Err(e) => {
                let success = success_time(&self.state);
                let key = self.state.at("last_object_key");
                make_state(
                    started_at,
                    Json::from_text(finished_at),
                    "error",
                    Json::from_text(e.as_str()),
                    key,
                    success,
                )
            },
        };
    }
}

/// Whether a scheduled backup is due: backups are on, none is running, and the last successful one
/// ended at least an interval ago or not at a time that can be read.
pub open spec fn backup_due(settings: JsonView, running: bool, state: JsonView, now: Moment) -> bool {
    let minutes = loose_int(settings, "interval_minutes"@);
    let last = match last_success(state) {
        JsonView::Str(s) => rfc3339_moment(replaced(s, 'Z', "+00:00"@)),
        _ => None,
    };
    settings.bool_at("enabled"@, false) && !running && (match last {
        Some(t) => !now.within(
            t,
            60 * (if minutes <= 0 {
                360
            } else {
                minutes
            }),
        ),
        None => true,
    })
}

/// Decides whether a scheduled backup is due.
pub fn is_backup_due(settings: &Json, running: bool, state: &Json, now: Moment) -> (r: bool)
    ensures
        r == backup_due(settings@, running, state@, now),
{
    if !settings.bool_at("enabled", false) || running {
        return false;
    }
    let minutes = ival(settings, "interval_minutes");
    let interval: i64 = if minutes <= 0 {
        360
    } else {
        minutes
    };
    let last = match success_time(state) {
        Json::Str(s) => crate::clock::read_moment(
            replace_char(s.as_str(), 'Z', "+00:00").as_str(),
        ),
        _ => None,
    };
    match last {
        Some(t) => !now.is_within_minutes(t, interval),
        None => true,
    }
}

// ---------------------------------------------------------------------------
// listing and rotation
// ---------------------------------------------------------------------------

/// An object of the storage as a backup in a list.
pub open spec fn listed_backup(item: JsonView) -> JsonView {
    let key = clean_text(item.get("key"@));
    let name = last_piece(key, '/');
    empty_object().put("key"@, JsonView::Str(key)).put("name"@, JsonView::Str(name)).put(
        "size"@,
        int_json(loose_int(item, "size"@)),
    ).put("updated_at"@, item.at("updated_at"@)).put(
        "encrypted"@,
        JsonView::Bool(ends(name, ".enc"@)),
    )
}

impl BackupService {
    /// The objects of the storage as a list of backups.
    pub fn list_backups(items: &Vec<Json>) -> (r: Vec<Json>)
        ensures
            list_view(r@) == list_view(items@).map_values(|i: JsonView| listed_backup(i)),
    {
        let ghost want = list_view(items@).map_values(|i: JsonView| listed_backup(i));
        let mut out: Vec<Json> = Vec::new();
        let mut i: usize = 0;
        while i < items.len()
            invariant
                i <= items@.len(),
                want == list_view(items@).map_values(|i: JsonView| listed_backup(i)),
                list_view(out@) =~= want.take(i as int),
            decreases items@.len() - i,
        {
            let ghost done = list_view(out@);
            let item = &items[i];
            let key = clean_from(item.get("key"));
            let name = after_last(key.as_str(), '/');
            let encrypted = ends_with(name.as_str(), ".enc");
            let mut o = Json::object();
            o.set("key", Json::Str(key));
            o.set("name", Json::Str(name));
            o.set("size", Json::from_int(ival(item, "size")));
            o.set("updated_at", item.at("updated_at"));
            o.set("encrypted", Json::Bool(encrypted));
            assert(o@ == want[i as int]);
            out.push(o);
            assert(list_view(out@) =~= done.push(want[i as int]));
            i += 1;
        }
        assert(list_view(out@) =~= want);
        out
    }
}

/// The key of an object that is a backup.
pub open spec fn backup_key() -> spec_fn(JsonView) -> Option<Seq<char>> {
    |item: JsonView|
        {
            let key = clean_text(item.get("key"@));
            if backup_name(key) {
                Some(key)
            } else {
                None
            }
        }
}

/// The keys of the backups that rotation deletes: all but the first `keep` of a list that has the
/// newest first; none where `keep` is not positive.
pub open spec fn rotated_out(items: Seq<JsonView>, keep: int) -> Seq<Seq<char>> {
    let keys = items.filter_map(backup_key());
    if keep <= 0 || keys.len() <= keep {
        Seq::empty()
    } else {
        keys.skip(keep)
    }
}

/// Finds the backups that rotation deletes.
pub fn apply_rotation(items: &Vec<Json>, keep: i64) -> (r: Vec<String>)
    ensures
        views(r@) == rotated_out(list_view(items@), keep as int),
{
    let ghost v = list_view(items@);
    let ghost f = backup_key();
    let mut keys: Vec<String> = Vec::new();
    let mut i: usize = 0;
    assert(v.take(0).filter_map(f) =~= Seq::empty());
    assert(views(keys@) =~= Seq::empty());
    while i < items.len()
        invariant
            i <= items@.len(),
            v == list_view(items@),
            f == backup_key(),
            views(keys@) == v.take(i as int).filter_map(f),
        decreases items@.len() - i,
    {
        proof {
            v.lemma_filter_map_take_succ(f, i as int);
        }
        let ghost done = views(keys@);
        let key = clean_from(items[i].get("key"));
        if is_backup_object(key.as_str()) {
            let ghost kv = key@;
            keys.push(key);
            assert(views(keys@) =~= done + seq![kv]);
        }
        assert(views(keys@) =~= v.take(i + 1).filter_map(f));
        i += 1;
    }
    assert(v.take(i as int) =~= v);
    let mut out: Vec<String> = Vec::new();
    assert(views(out@) =~= Seq::empty());
    assert(views(keys@).len() == keys@.len());
    if keep <= 0 || keys.len() as i128 <= keep as i128 {
        return out;
    }
    let ghost want = views(keys@).skip(keep as int);
    let mut k: usize = keep as usize;
    while k < keys.len()
        invariant
            0 < keep <= k <= keys@.len(),
            want == views(keys@).skip(keep as int),
            views(out@) =~= want.take(k - keep),
        decreases keys@.len() - k,
    {
        let ghost done = views(out@);
        out.push(keys[k].clone());
        assert(views(out@) =~= done.push(want[k - keep]));
        k += 1;
    }
    assert(views(out@) =~= want);
    out
}

/// Rotation leaves the newest backups, as many as are kept.
pub proof fn law_rotation_keeps_newest(items: Seq<JsonView>, keep: int)
    requires
        keep > 0,
    ensures
        ({
            let keys = items.filter_map(backup_key());
            let n = if keys.len() < keep {
                keys.len() as int
            } else {
                keep
            };
            keys == keys.take(n) + rotated_out(items, keep)
        }),
{
    let keys = items.filter_map(backup_key());
    let n = if keys.len() < keep {
        keys.len() as int
    } else {
        keep
    };
    assert(keys =~= keys.take(n) + rotated_out(items, keep));
}

// ---------------------------------------------------------------------------
// making a backup
// ---------------------------------------------------------------------------

/// The list `v` with `name` where the part `k` is to be kept.
pub open spec fn with_named(v: Seq<Seq<char>>, parts: JsonView, k: Seq<char>, name: Seq<char>) -> Seq<
    Seq<char>,
> {
    if parts.bool_at(k, false) {
        v.push(name)
    } else {
        v
    }
}

/// The files of a backup, by their names in it, which are their paths under the base directory.
pub open spec fn backup_files(parts: JsonView) -> Seq<Seq<char>> {
    let v = with_named(Seq::empty(), parts, "config"@, "config.json"@);
    let v = with_named(v, parts, "register"@, "data/register.json"@);
    let v = with_named(v, parts, "cpa"@, "data/cpa_config.json"@);
    let v = with_named(v, parts, "sub2api"@, "data/sub2api_config.json"@);
    let v = with_named(v, parts, "logs"@, "data/logs.jsonl"@);
    let v = with_named(v, parts, "image_tasks"@, "data/image_tasks.json"@);
    let v = with_named(v, parts, "image_tasks"@, "data/image_index.json"@);
    let v = with_named(v, parts, "accounts_snapshot"@, "snapshots/accounts.json"@);
    let v = with_named(v, parts, "auth_keys_snapshot"@, "snapshots/auth_keys.json"@);
    let v = with_named(v, parts, "images"@, "data/image_tags.json"@);
    with_named(v, parts, "images"@, "data/images"@)
}

fn add_named(v: &mut Vec<String>, parts: &Json, k: &str, name: &str)
    ensures
        views(final(v)@) == with_named(views(old(v)@), parts@, k@, name@),
{
    if parts.bool_at(k, false) {
        let ghost before = views(v@);
        v.push(name.to_owned());
        assert(views(v@) =~= before.push(name@));
    }
}

/// Lists the files of a backup, in the order in which they are packed. Those under `snapshots/`
/// are written from the storage, and `data/images` is a directory.
pub fn list_backup_files(parts: &Json) -> (r: Vec<String>)
    ensures
        views(r@) == backup_files(parts@),
{
    let mut v: Vec<String> = Vec::new();
    assert(views(v@) =~= Seq::empty());
    add_named(&mut v, parts, "config", "config.json");
    add_named(&mut v, parts, "register", "data/register.json");
    add_named(&mut v, parts, "cpa", "data/cpa_config.json");
    add_named(&mut v, parts, "sub2api", "data/sub2api_config.json");
    add_named(&mut v, parts, "logs", "data/logs.jsonl");
    add_named(&mut v, parts, "image_tasks", "data/image_tasks.json");
    add_named(&mut v, parts, "image_tasks", "data/image_index.json");
    add_named(&mut v, parts, "accounts_snapshot", "snapshots/accounts.json");
    add_named(&mut v, parts, "auth_keys_snapshot", "snapshots/auth_keys.json");
    add_named(&mut v, parts, "images", "data/image_tags.json");
    add_named(&mut v, parts, "images", "data/images");
    v
}

/// What is noted with a backup.
pub open spec fn backup_metadata(
    created_at: Seq<char>,
    trigger: Seq<char>,
    version: Seq<char>,
    backend: JsonView,
) -> JsonView {
    empty_object().put("version"@, int_json(2)).put("created_at"@, JsonView::Str(created_at)).put(
        "trigger"@,
        JsonView::Str(trigger),
    ).put("app_version"@, JsonView::Str(version)).put("storage_backend"@, backend)
}

/// Writes what is noted with a backup.
pub fn make_metadata(created_at: &str, trigger: &str, version: &str, backend: &Json) -> (r: Json)
    ensures
        r@ == backup_metadata(created_at@, trigger@, version@, backend@),
{
    let mut o = Json::object();
    o.set("version", Json::from_int(2));
    o.set("created_at", Json::from_text(created_at));
    o.set("trigger", Json::from_text(trigger));
    o.set("app_version", Json::from_text(version));
    o.set("storage_backend", backend.copy());
    o
}

/// A value as the bytes of a file.
pub fn json_bytes(value: &Json) -> (r: Vec<u8>)
    ensures
        r@ == encode_utf8(pretty(value@)),
{
    vstd::slice::slice_to_vec(value.to_pretty().as_str().as_bytes())
}

/// Whether what is packed under a name is written for the backup, and not read from a file.
pub open spec fn made_for_backup(name: Seq<char>) -> bool {
    name == "backup-metadata.json"@ || begins(name, "snapshots/"@)
}

/// What is said of a name that cannot be packed.
pub open spec fn pack_fault(name: Seq<char>, why: Seq<char>) -> Seq<char> {
    (if made_for_backup(name) {
        "写入归档项 "@
    } else {
        "写入文件 "@
    }) + name + " 失败："@ + why
}

/// Packs a backup: what is noted with it, then its files.
pub fn build_backup_archive(metadata: &Json, mtime: u64, files: Vec<PackedFile>) -> (r: Result<
    Vec<u8>,
    String,
>)
    ensures
        ({
            let first = (
                "backup-metadata.json"@,
                encode_utf8(pretty(metadata@)),
                MADE_MODE,
                None::<(u64, u64)>,
                mtime,
            );
            let all = seq![first] + packed_view(files@);
            match first_refused(all) {
                Some(i) => r matches Err(e) && 0 <= i < all.len() && tar_refusal(all[i].0) is Some
                    && e@ == pack_fault(all[i].0, tar_refusal(all[i].0)->0),
                None => {
                    &&& r matches Ok(x) && x@ == archive_bytes(all)
                    &&& (forall|i: int|
                        0 <= i < files@.len() ==> plain_path((#[trigger] files@[i]).name@))
                        ==> archive_items(archive_bytes(all)) == Some(
                        seq![
                            ItemView { file: true, name: first.0, bytes: Some(first.1) },
                        ] + file_items(files@),
                    )
                },
            }
        }),
{
    let ghost fv = files@;
    let bytes = json_bytes(metadata);
    let ghost bv = bytes@;
    let mut all: Vec<PackedFile> = Vec::new();
    all.push(
        PackedFile {
            name: "backup-metadata.json".to_owned(),
            bytes,
            mode: MADE_MODE,
            owner: None,
            mtime,
        },
    );
    let mut rest = files;
    all.append(&mut rest);
    let ghost av = packed_view(all@);
    assert(av =~= seq![
        ("backup-metadata.json"@, bv, MADE_MODE, None::<(u64, u64)>, mtime),
    ] + packed_view(fv));
    assert(entry_items(av) =~= seq![
        ItemView { file: true, name: "backup-metadata.json"@, bytes: Some(bv) },
    ] + file_items(fv));
    proof {
        lemma_metadata_name();
        if forall|i: int| 0 <= i < fv.len() ==> plain_path((#[trigger] fv[i]).name@) {
            assert forall|i: int| 0 <= i < av.len() implies plain_path((#[trigger] av[i]).0) by {
                if i > 0 {
                    assert(av[i].0 == fv[i - 1].name@);
                }
            }
        }
    }
    match pack_files(&all) {
        Ok(b) => Ok(b),
        Err((step, why)) => {
            let head = match &step {
                ArchiveStep::File(i) => {
                    let name = all[*i].name.as_str();
                    assert(packed_view(all@)[*i as int].0 == name@);
                    let kind = if same(name, "backup-metadata.json") || starts_with(
                        name,
                        "snapshots/",
                    ) {
                        "写入归档项 "
                    } else {
                        "写入文件 "
                    };
                    cat3(kind, name, " 失败：")
                },
                ArchiveStep::End => "打包备份失败：".to_owned(),
                ArchiveStep::Compression => "压缩备份失败：".to_owned(),
            };
            Err(cat(head.as_str(), why.as_str()))
        },
    }
}

proof fn lemma_metadata_name()
    ensures
        plain_path("backup-metadata.json"@),
{
    let s = "backup-metadata.json"@;
    reveal_strlit("backup-metadata.json");
    reveal_strlit(".");
    reveal_strlit("..");
    crate::text::lemma_first_of(s, '/');
    assert(s.len() == 20);
    assert(crate::text::pieces(s, '/') =~= seq![s]);
}

/// The bytes of a backup as they are stored, and the name of its kind.
pub fn seal_backup(archive: Vec<u8>, encrypt: bool, passphrase: &str) -> (r: Result<Vec<u8>, String>)
    ensures
        if !encrypt {
            r matches Ok(b) && b@ == archive@
        } else if passphrase@.len() == 0 {
            r matches Err(e) && e@ == "已启用备份加密，但未设置加密口令"@
        } else {
            r matches Ok(b) && is_envelope(b@) && opened_envelope(b@, passphrase@) == Some(
                archive@,
            )
        },
{
    if !encrypt {
        return Ok(archive);
    }
    if passphrase.is_empty() {
        return Err("已启用备份加密，但未设置加密口令".to_owned());
    }
    Ok(encrypt_openssl(archive.as_slice(), passphrase))
}

/// What is told of a backup that was made.
pub fn backup_result(key: &str, size: usize, encrypted: bool) -> (r: Json)
    ensures
        r@ == empty_object().put("key"@, JsonView::Str(key@)).put(
            "size"@,
            count_json(size as nat),
        ).put("encrypted"@, JsonView::Bool(encrypted)),
{
    let mut o = Json::object();
    o.set("key", Json::from_text(key));
    o.set("size", Json::from_count(size));
    o.set("encrypted", Json::Bool(encrypted));
    o
}

// ---------------------------------------------------------------------------
// reading a backup
// ---------------------------------------------------------------------------

/// The key of a backup that was asked for.
pub fn wanted_key(key: &str) -> (r: Result<String, String>)
    ensures
        match r {
            Ok(k) => trimmed(key@).len() > 0 && k@ == trimmed(key@),
            Err(e) => trimmed(key@).len() == 0 && e@ == "备份对象 key 不能为空"@,
        },
{
    let k = trim(key);
    if k.as_str().is_empty() {
        Err("备份对象 key 不能为空".to_owned())
    } else {
        Ok(k)
    }
}

/// The name under which a backup is downloaded: what stands behind the last slash of its key,
/// without the mark of an encrypted one.
pub open spec fn download_name(key: Seq<char>) -> Seq<char> {
    let name = or_else(last_piece(key, '/'), "backup.bin"@);
    if ends(key, ".enc"@) && ends(name, ".enc"@) {
        or_else(name.take(name.len() - 4), "backup.tar.gz"@)
    } else {
        name
    }
}

/// What an encrypted backup decrypts to with the passphrase that is set.
pub open spec fn unsealed(key: Seq<char>, payload: Seq<u8>, passphrase: Seq<char>) -> Option<Seq<u8>> {
    if !ends(key, ".enc"@) {
        Some(payload)
    } else if passphrase.len() > 0 && is_envelope(payload) {
        opened_envelope(payload, passphrase)
    } else {
        None
    }
}

fn unseal(key: &str, payload: Vec<u8>, passphrase: &str, refusal: &str) -> (r: Result<
    Vec<u8>,
    String,
>)
    ensures
        match r {
            Ok(b) => unsealed(key@, payload@, passphrase@) == Some(b@),
            Err(e) => {
                &&& unsealed(key@, payload@, passphrase@) is None
                &&& e@ == (if passphrase@.len() == 0 {
                    refusal@
                } else if is_envelope(payload@) {
                    "解密备份失败：口令错误或数据已损坏"@
                } else {
                    "解密备份失败：数据不是有效的加密备份（缺少 Salted__ 头）"@
                })
            },
        },
{
    if !ends_with(key, ".enc") {
        return Ok(payload);
    }
    if passphrase.is_empty() {
        return Err(refusal.to_owned());
    }
    decrypt_openssl(payload.as_slice(), passphrase)
}

impl BackupService {
    /// Takes in a backup that was fetched, for download: an encrypted one is decrypted.
    pub fn download_backup(key: &str, payload: Vec<u8>, passphrase: &str) -> (r: Result<
        DownloadedBackup,
        String,
    >)
        ensures
            match r {
                Ok(d) => {
                    &&& unsealed(key@, payload@, passphrase@) == Some(d.payload@)
                    &&& d.key@ == key@
                    &&& d.name@ == download_name(key@)
                    &&& d.content_type@ == content_type(download_name(key@))
                    &&& d.size == d.payload@.len()
                },
                Err(e) => {
                    &&& unsealed(key@, payload@, passphrase@) is None
                    &&& e@ == (if passphrase@.len() == 0 {
                        "当前未配置加密口令，无法下载并解密已加密备份"@
                    } else if is_envelope(payload@) {
                        "解密备份失败：口令错误或数据已损坏"@
                    } else {
                        "解密备份失败：数据不是有效的加密备份（缺少 Salted__ 头）"@
                    })
                },
            },
    {
        let bytes = match unseal(
            key,
            payload,
            passphrase,
            "当前未配置加密口令，无法下载并解密已加密备份",
        ) {
            Ok(b) => b,
            Err(e) => {
                return Err(e);
            },
        };
        let full = non_empty_or(after_last(key, '/'), "backup.bin");
        let name = if ends_with(key, ".enc") && ends_with(full.as_str(), ".enc") {
            let v = chars_of(full.as_str());
            proof {
                reveal_strlit(".enc");
            }
            let cut = text_between(&v, 0, v.len() - 4);
            assert(cut@ =~= full@.take(full@.len() - 4));
            non_empty_or(cut, "backup.tar.gz")
        } else {
            full
        };
        let kind = guess_content_type(name.as_str()).to_owned();
        let size = bytes.len();
        Ok(DownloadedBackup { key: key.to_owned(), name, content_type: kind, payload: bytes, size })
    }
}

/// How many items a value has.
pub open spec fn item_count(v: JsonView) -> nat {
    match v {
        JsonView::Arr(a) => a.len(),
        JsonView::Obj(o) => o.len(),
        _ => 0,
    }
}

/// Counts the items of a value.
pub fn count_items(v: &Json) -> (r: usize)
    ensures
        r == item_count(v@),
{
    match v {
        Json::Arr(a) => a.len(),
        Json::Obj(o) => o.len(),
        _ => 0,
    }
}

/// The name of an item, with slashes.
pub open spec fn item_name(i: ItemView) -> Seq<char> {
    replaced(i.name, '\\', "/"@)
}

/// Whether an item counts: it is a file that can be read.
pub open spec fn readable(i: ItemView) -> bool {
    i.file && i.bytes is Some
}

/// Whether an item holds what is noted with the backup.
pub open spec fn is_metadata(i: ItemView) -> bool {
    item_name(i) == "backup-metadata.json"@
}

/// Whether an item is a snapshot.
pub open spec fn is_snapshot(i: ItemView) -> bool {
    begins(item_name(i), "snapshots/"@) && ends(item_name(i), ".json"@)
}

/// The name of a snapshot without its directory and its suffix; a name in which the two overlap
/// stays as it is.
pub open spec fn snapshot_name(name: Seq<char>) -> Seq<char> {
    let bare = name.skip(10);
    if ends(bare, ".json"@) {
        bare.take(bare.len() - 5)
    } else {
        name
    }
}

/// The summary of a snapshot.
pub open spec fn snapshot_of() -> spec_fn(ItemView) -> Option<JsonView> {
    |i: ItemView|
        if readable(i) && !is_metadata(i) && is_snapshot(i) {
            Some(
                empty_object().put("name"@, JsonView::Str(snapshot_name(item_name(i)))).put(
                    "count"@,
                    count_json(
                        match parsed(i.bytes->0) {
                            Some(v) => item_count(v),
                            None => 0,
                        },
                    ),
                ),
            )
        } else {
            None
        }
}

/// The summary of a file.
pub open spec fn file_of() -> spec_fn(ItemView) -> Option<JsonView> {
    |i: ItemView|
        if readable(i) && !is_metadata(i) && !is_snapshot(i) {
            Some(
                empty_object().put("name"@, JsonView::Str(item_name(i))).put(
                    "exists"@,
                    JsonView::Bool(true),
                ).put("content_type"@, JsonView::Str(content_type(item_name(i)))).put(
                    "size"@,
                    count_json((i.bytes->0).len()),
                ).put("sha256"@, JsonView::Str(hex_text(sha256(i.bytes->0)))),
            )
        } else {
            None
        }
}

/// What is noted with a backup: the last such item that holds an object.
pub open spec fn noted(items: Seq<ItemView>) -> JsonView
    decreases items.len(),
{
    if items.len() == 0 {
        empty_object()
    } else {
        let i = items.last();
        if readable(i) && is_metadata(i) && (parsed(i.bytes->0) matches Some(JsonView::Obj(_))) {
            parsed(i.bytes->0)->0
        } else {
            noted(items.drop_last())
        }
    }
}

/// The summary of what a backup holds.
pub open spec fn archive_detail(items: Seq<ItemView>) -> JsonView {
    let m = noted(items);
    empty_object().put("created_at"@, m.at("created_at"@)).put("trigger"@, m.at("trigger"@)).put(
        "app_version"@,
        m.at("app_version"@),
    ).put("storage_backend"@, m.at("storage_backend"@)).put(
        "files"@,
        JsonView::Arr(sorted(items.filter_map(file_of()), field_order("name"@, false))),
    ).put(
        "snapshots"@,
        JsonView::Arr(sorted(items.filter_map(snapshot_of()), field_order("name"@, false))),
    )
}

/// Sums up what a backup holds.
pub fn summarize(items: &Vec<ArchiveItem>) -> (r: Json)
    ensures
        r@ == archive_detail(items_view(items@)),
{
    let ghost v = items_view(items@);
    let ghost ff = file_of();
    let ghost fs = snapshot_of();
    let mut files: Vec<Json> = Vec::new();
    let mut snapshots: Vec<Json> = Vec::new();
    let mut metadata = Json::object();
    let mut i: usize = 0;
    assert(v.take(0).filter_map(ff) =~= Seq::empty());
    assert(v.take(0).filter_map(fs) =~= Seq::empty());
    assert(list_view(files@) =~= Seq::empty());
    assert(list_view(snapshots@) =~= Seq::empty());
    while i < items.len()
        invariant
            i <= items@.len(),
            v == items_view(items@),
            ff == file_of(),
            fs == snapshot_of(),
            list_view(files@) == v.take(i as int).filter_map(ff),
            list_view(snapshots@) == v.take(i as int).filter_map(fs),
            metadata@ == noted(v.take(i as int)),
        decreases items@.len() - i,
    {
        proof {
            v.lemma_filter_map_take_succ(ff, i as int);
            v.lemma_filter_map_take_succ(fs, i as int);
            assert(v.take(i + 1).drop_last() =~= v.take(i as int));
        }
        let ghost df = list_view(files@);
        let ghost ds = list_view(snapshots@);
        let item = &items[i];
        let ghost iv = v[i as int];
        assert(iv == item@);
        match &item.bytes {
            Some(raw) => {
                if item.file {
                    let name = replace_char(item.name.as_str(), '\\', "/");
                    let n = name.as_str();
                    if same(n, "backup-metadata.json") {
                        match Json::parse(raw.as_slice()) {
                            Some(m) => {
                                if m.is_object() {
                                    metadata = m;
                                }
                            },
                            None => {},
                        }
                    } else if starts_with(n, "snapshots/") && ends_with(n, ".json") {
                        let count: usize = match Json::parse(raw.as_slice()) {
                            Some(m) => count_items(&m),
                            None => 0,
                        };
                        proof {
                            reveal_strlit("snapshots/");
                            reveal_strlit(".json");
                        }
                        let chars = chars_of(n);
                        let bare = text_between(&chars, 10, chars.len());
                        assert(bare@ =~= name@.skip(10));
                        let short = if ends_with(bare.as_str(), ".json") {
                            let b = chars_of(bare.as_str());
                            let s = text_between(&b, 0, b.len() - 5);
                            assert(s@ =~= bare@.take(bare@.len() - 5));
                            s
                        } else {
                            name.clone()
                        };
                        let mut o = Json::object();
                        o.set("name", Json::Str(short));
                        o.set("count", Json::from_count(count));
                        let ghost ov = o@;
                        snapshots.push(o);
                        assert(list_view(snapshots@) =~= ds + seq![ov]);
                    } else {
                        let mut o = Json::object();
                        o.set("name", Json::from_text(n));
                        o.set("exists", Json::Bool(true));
                        o.set("content_type", Json::from_text(guess_content_type(n)));
                        o.set("size", Json::from_count(raw.len()));
                        o.set("sha256", Json::Str(sha256_hex(raw.as_slice())));
                        let ghost ov = o@;
                        files.push(o);
                        assert(list_view(files@) =~= df + seq![ov]);
                    }
                }
            },
            None => {},
        }
        assert(list_view(files@) =~= v.take(i + 1).filter_map(ff));
        assert(list_view(snapshots@) =~= v.take(i + 1).filter_map(fs));
        i += 1;
    }
    assert(v.take(i as int) =~= v);
    let mut o = Json::object();
    o.set("created_at", metadata.at("created_at"));
    o.set("trigger", metadata.at("trigger"));
    o.set("app_version", metadata.at("app_version"));
    o.set("storage_backend", metadata.at("storage_backend"));
    o.set("files", Json::Arr(sort_records(&files, "name", false)));
    o.set("snapshots", Json::Arr(sort_records(&snapshots, "name", false)));
    o
}

/// Sums up what an archive holds.
pub fn decode_archive_detail(payload: &[u8]) -> (r: Result<Json, String>)
    ensures
        match archive_items(payload@) {
            Some(items) => r matches Ok(v) && v@ == archive_detail(items),
            None => r matches Err(e) && e@ == "解析备份压缩包失败，备份可能已损坏"@,
        },
{
    match read_archive(payload) {
        Some(items) => Ok(summarize(&items)),
        None => Err("解析备份压缩包失败，备份可能已损坏".to_owned()),
    }
}

impl BackupService {
    /// Sums up a backup that was fetched: an encrypted one is decrypted.
    pub fn get_backup_detail(key: &str, payload: Vec<u8>, passphrase: &str) -> (r: Result<Json, String>)
        ensures
            match unsealed(key@, payload@, passphrase@) {
                Some(bytes) => match archive_items(bytes) {
                    Some(items) => r matches Ok(v) && v@ == archive_detail(items).put(
                        "key"@,
                        JsonView::Str(key@),
                    ).put("name"@, JsonView::Str(last_piece(key@, '/'))).put(
                        "encrypted"@,
                        JsonView::Bool(ends(key@, ".enc"@)),
                    ),
                    None => r matches Err(e) && e@ == "解析备份压缩包失败，备份可能已损坏"@,
                },
                None => r matches Err(e) && e@ == (if passphrase@.len() == 0 {
                    "当前未配置加密口令，无法查看已加密备份"@
                } else if is_envelope(payload@) {
                    "解密备份失败：口令错误或数据已损坏"@
                } else {
                    "解密备份失败：数据不是有效的加密备份（缺少 Salted__ 头）"@
                }),
            },
    {
        let bytes = match unseal(
            key,
            payload,
            passphrase,
            "当前未配置加密口令，无法查看已加密备份",
        ) {
            Ok(b) => b,
            Err(e) => {
                return Err(e);
            },
        };
        let mut detail = match decode_archive_detail(bytes.as_slice()) {
            Ok(d) => d,
            Err(e) => {
                return Err(e);
            },
        };
        detail.set("key", Json::from_text(key));
        detail.set("name", Json::Str(after_last(key, '/')));
        detail.set("encrypted", Json::Bool(ends_with(key, ".enc")));
        Ok(detail)
    }
}

/// What was sealed with a passphrase is read back with it.
pub proof fn law_sealed_backup_opens(
    key: Seq<char>,
    stored: Seq<u8>,
    archive: Seq<u8>,
    passphrase: Seq<char>,
)
    requires
        passphrase.len() > 0,
        ends(key, ".enc"@),
        is_envelope(stored),
        opened_envelope(stored, passphrase) == Some(archive),
    ensures
        unsealed(key, stored, passphrase) == Some(archive),
{
}

} // verus!
