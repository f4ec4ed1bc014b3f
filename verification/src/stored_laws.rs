//! What loading leaves alone: records that were written in the form that loading gives them.
use vstd::prelude::*;

use crate::account::field_trim;
use crate::account_laws::{lemma_bare_stays, lemma_trimmed_bare};
use crate::backup::{backup_due, backup_state, last_success, loose_int, state_of, text_or_null};
use crate::clock::Moment;
use crate::cpa::{job_or_null, normal_job, normal_pool};
use crate::digest::is_hex;
use crate::image_task::{cleaned_value, known_status, loaded_task};
use crate::text::trimmed;
use crate::value::{clean_text, int_json, or_else, JsonView};

verus! {

broadcast use crate::value::group_json;

/// A text without white space at its ends.
pub open spec fn is_bare(s: Seq<char>) -> bool {
    trimmed(s) == s
}

proof fn lemma_blank()
    ensures
        is_bare(Seq::empty()),
{
    lemma_bare_stays(Seq::empty());
}

proof fn lemma_hex_bare(s: Seq<char>, n: nat)
    requires
        is_hex(s, n),
    ensures
        is_bare(s),
{
    if s.len() > 0 {
        assert('0' <= s[0] <= '9' || 'a' <= s[0] <= 'f');
        assert('0' <= s[s.len() - 1] <= '9' || 'a' <= s[s.len() - 1] <= 'f');
    }
    lemma_bare_stays(s);
}

proof fn lemma_clean_bare(v: Option<JsonView>)
    ensures
        is_bare(clean_text(v)),
{
    lemma_trimmed_bare(crate::value::plain_text(v));
}

// ---------------------------------------------------------------------------
// backups
// ---------------------------------------------------------------------------

proof fn lemma_text_or_null(v: JsonView, w: JsonView, k: Seq<char>)
    requires
        w.get(k) == Some(text_or_null(v, k)),
    ensures
        text_or_null(w, k) == text_or_null(v, k),
{
    lemma_clean_bare(v.get(k));
    lemma_blank();
}

/// The state of backups that was stored is read back as it was.
pub proof fn law_backup_state_read_back(v: JsonView)
    ensures
        backup_state(backup_state(v)) == backup_state(v),
{
    broadcast use crate::value::group_fields;

    reveal_strlit("last_started_at");
    reveal_strlit("last_finished_at");
    reveal_strlit("last_status");
    reveal_strlit("last_error");
    reveal_strlit("last_object_key");
    reveal_strlit("last_success_at");
    assert("last_success_at"@.len() == 15 && "last_success_at"@[5] == 's' && "last_success_at"@[6]
        == 'u');
    assert("last_started_at"@[6] == 't');
    assert("last_object_key"@[5] == 'o');
    assert("last_started_at"@.len() == 15 && "last_started_at"@[5] == 's');
    assert("last_finished_at"@.len() == 16);
    assert("last_status"@.len() == 11);
    assert("last_error"@.len() == 10);
    assert("last_object_key"@.len() == 15 && "last_object_key"@[5] == 'o');
    let s = backup_state(v);
    assert(s.get("last_started_at"@) == Some(text_or_null(v, "last_started_at"@)));
    lemma_text_or_null(v, s, "last_started_at"@);
    assert(s.get("last_finished_at"@) == Some(text_or_null(v, "last_finished_at"@)));
    lemma_text_or_null(v, s, "last_finished_at"@);
    assert(s.get("last_error"@) == Some(text_or_null(v, "last_error"@)));
    lemma_text_or_null(v, s, "last_error"@);
    assert(s.get("last_object_key"@) == Some(text_or_null(v, "last_object_key"@)));
    lemma_text_or_null(v, s, "last_object_key"@);
    let success = last_success(v);
    assert(s.get("last_success_at"@) == Some(success));
    lemma_clean_bare(v.get("last_success_at"@));
    lemma_clean_bare(v.get("last_finished_at"@));
    lemma_blank();
    let status = or_else(clean_text(v.get("last_status"@)), "idle"@);
    assert(s.get("last_status"@) == Some(JsonView::Str(status)));
    lemma_clean_bare(v.get("last_status"@));
    reveal_strlit("idle");
    assert("idle"@.len() == 4 && "idle"@[0] == 'i' && "idle"@[3] == 'e');
    lemma_bare_stays("idle"@);
    assert(is_bare(status) && status.len() > 0);
    assert(clean_text(s.get("last_status"@)) == status);
    reveal_strlit("success");
    assert("success"@.len() == 7);
    if success is Str {
        assert(text_or_null(s, "last_success_at"@) == success);
    } else {
        assert(success is Null);
        assert(text_or_null(s, "last_success_at"@) is Null);
    }
    assert(last_success(s) == success);
}

proof fn lemma_success_kept(v: JsonView, s: JsonView, status: Seq<char>)
    requires
        v.get("last_success_at"@) == Some(s),
        v.get("last_status"@) == Some(JsonView::Str(status)),
        s is Null || (s matches JsonView::Str(x) && is_bare(x) && x.len() > 0),
        is_bare(status),
        status != "success"@,
    ensures
        last_success(v) == s,
{
    lemma_blank();
}

/// A run that failed changes nothing of when the next backup is due.
pub proof fn law_failed_run_does_not_delay(
    settings: JsonView,
    state: JsonView,
    started: Seq<char>,
    finished: Seq<char>,
    error: Seq<char>,
    now: Moment,
)
    ensures
        ({
            let begun = backup_state(
                state_of(
                    started,
                    state.at("last_finished_at"@),
                    "idle"@,
                    JsonView::Null,
                    state.at("last_object_key"@),
                    last_success(state),
                ),
            );
            let ended = backup_state(
                state_of(
                    started,
                    JsonView::Str(finished),
                    "error"@,
                    JsonView::Str(error),
                    begun.at("last_object_key"@),
                    last_success(begun),
                ),
            );
            backup_due(settings, false, ended, now) == backup_due(settings, false, state, now)
        }),
{
    broadcast use crate::value::group_fields;

    reveal_strlit("last_started_at");
    reveal_strlit("last_finished_at");
    reveal_strlit("last_status");
    reveal_strlit("last_error");
    reveal_strlit("last_object_key");
    reveal_strlit("last_success_at");
    assert("last_started_at"@.len() == 15 && "last_started_at"@[6] == 't');
    assert("last_finished_at"@.len() == 16);
    assert("last_status"@.len() == 11);
    assert("last_error"@.len() == 10);
    assert("last_object_key"@.len() == 15 && "last_object_key"@[5] == 'o');
    assert("last_success_at"@.len() == 15 && "last_success_at"@[5] == 's' && "last_success_at"@[6]
        == 'u');
    let a = state_of(
        started,
        state.at("last_finished_at"@),
        "idle"@,
        JsonView::Null,
        state.at("last_object_key"@),
        last_success(state),
    );
    reveal_strlit("idle");
    reveal_strlit("error");
    reveal_strlit("success");
    assert("idle"@.len() == 4 && "idle"@[0] == 'i' && "idle"@[3] == 'e');
    assert("error"@.len() == 5 && "error"@[0] == 'e' && "error"@[4] == 'r');
    assert("success"@.len() == 7);
    lemma_bare_stays("idle"@);
    lemma_bare_stays("error"@);
    lemma_clean_bare(state.get("last_success_at"@));
    lemma_clean_bare(state.get("last_finished_at"@));
    lemma_success_kept(a, last_success(state), "idle"@);
    let begun = backup_state(a);
    assert(last_success(begun) == last_success(state)) by {
        lemma_success_kept(begun, last_success(state), "idle"@);
    }
    let b = state_of(
        started,
        JsonView::Str(finished),
        "error"@,
        JsonView::Str(error),
        begun.at("last_object_key"@),
        last_success(begun),
    );
    lemma_success_kept(b, last_success(state), "error"@);
    let ended = backup_state(b);
    lemma_success_kept(ended, last_success(state), "error"@);
}

// ---------------------------------------------------------------------------
// remote pools
// ---------------------------------------------------------------------------

proof fn lemma_loose_int(v: JsonView, w: JsonView, k: Seq<char>)
    requires
        w.get(k) == Some(int_json(loose_int(v, k))),
    ensures
        loose_int(w, k) == loose_int(v, k),
{
}

proof fn lemma_field_bare(v: JsonView, k: Seq<char>)
    ensures
        is_bare(field_trim(v, k)),
{
    lemma_trimmed_bare(crate::account::field_text(v, k));
}

/// An import job that was read once is read again as it is.
proof fn lemma_job_stays(
    raw: Option<JsonView>,
    fresh: Seq<char>,
    now: Seq<char>,
    fresh2: Seq<char>,
    later: Seq<char>,
)
    requires
        normal_job(raw, true, fresh, now) is Some,
        is_hex(fresh, 32),
        is_bare(now),
        now.len() > 0,
    ensures
        normal_job(normal_job(raw, true, fresh, now), true, fresh2, later) == normal_job(
            raw,
            true,
            fresh,
            now,
        ),
{
    broadcast use crate::value::group_fields;

    reveal_strlit("job_id");
    reveal_strlit("status");
    reveal_strlit("created_at");
    reveal_strlit("updated_at");
    reveal_strlit("total");
    reveal_strlit("completed");
    reveal_strlit("added");
    reveal_strlit("skipped");
    reveal_strlit("refreshed");
    reveal_strlit("failed");
    reveal_strlit("errors");
    assert("job_id"@.len() == 6 && "job_id"@[0] == 'j');
    assert("status"@.len() == 6 && "status"@[0] == 's');
    assert("created_at"@.len() == 10 && "created_at"@[0] == 'c');
    assert("updated_at"@.len() == 10 && "updated_at"@[0] == 'u');
    assert("total"@.len() == 5 && "total"@[0] == 't');
    assert("completed"@.len() == 9 && "completed"@[0] == 'c');
    assert("added"@.len() == 5 && "added"@[0] == 'a');
    assert("skipped"@.len() == 7);
    assert("refreshed"@.len() == 9 && "refreshed"@[0] == 'r');
    assert("failed"@.len() == 6 && "failed"@[0] == 'f');
    assert("errors"@.len() == 6 && "errors"@[0] == 'e');
    let v = raw->0;
    let j = normal_job(raw, true, fresh, now)->0;
    reveal_strlit("failed");
    reveal_strlit("pending");
    reveal_strlit("running");
    assert("failed"@.len() == 6 && "failed"@[5] == 'd' && "failed"@[0] == 'f');
    assert("pending"@.len() == 7 && "running"@.len() == 7);
    lemma_bare_stays("failed"@);
    lemma_hex_bare(fresh, 32);
    lemma_field_bare(v, "job_id"@);
    lemma_field_bare(v, "status"@);
    lemma_field_bare(v, "created_at"@);
    lemma_field_bare(v, "updated_at"@);
    let id = or_else(field_trim(v, "job_id"@), fresh);
    assert(j.get("job_id"@) == Some(JsonView::Str(id)));
    assert(is_bare(id) && id.len() > 0);
    let raw_status = or_else(field_trim(v, "status"@), "failed"@);
    let status = if raw_status == "pending"@ || raw_status == "running"@ {
        "failed"@
    } else {
        raw_status
    };
    assert(j.get("status"@) == Some(JsonView::Str(status)));
    assert(is_bare(status) && status.len() > 0);
    let created = or_else(field_trim(v, "created_at"@), now);
    assert(j.get("created_at"@) == Some(JsonView::Str(created)));
    let updated = or_else(field_trim(v, "updated_at"@), created);
    assert(j.get("updated_at"@) == Some(JsonView::Str(updated)));
    assert(is_bare(created) && created.len() > 0 && is_bare(updated) && updated.len() > 0);
    assert(j.get("total"@) == Some(int_json(loose_int(v, "total"@))));
    lemma_loose_int(v, j, "total"@);
    assert(j.get("completed"@) == Some(int_json(loose_int(v, "completed"@))));
    lemma_loose_int(v, j, "completed"@);
    assert(j.get("added"@) == Some(int_json(loose_int(v, "added"@))));
    lemma_loose_int(v, j, "added"@);
    assert(j.get("skipped"@) == Some(int_json(loose_int(v, "skipped"@))));
    lemma_loose_int(v, j, "skipped"@);
    assert(j.get("refreshed"@) == Some(int_json(loose_int(v, "refreshed"@))));
    lemma_loose_int(v, j, "refreshed"@);
    assert(j.get("failed"@) == Some(int_json(loose_int(v, "failed"@))));
    lemma_loose_int(v, j, "failed"@);
    assert(j.get("errors"@) == Some(JsonView::Arr(v.items_at("errors"@))));
}

/// A pool that was loaded, stored and loaded again is as it was, whatever the second ids and time.
pub proof fn law_pool_read_back(
    raw: JsonView,
    fresh: Seq<char>,
    job: Seq<char>,
    now: Seq<char>,
    fresh2: Seq<char>,
    job2: Seq<char>,
    later: Seq<char>,
)
    requires
        is_hex(fresh, 12),
        is_hex(job, 32),
        is_bare(now),
        now.len() > 0,
    ensures
        normal_pool(normal_pool(raw, fresh, job, now), fresh2, job2, later) == normal_pool(
            raw,
            fresh,
            job,
            now,
        ),
{
    broadcast use crate::value::group_fields;

    reveal_strlit("id");
    reveal_strlit("name");
    reveal_strlit("base_url");
    reveal_strlit("secret_key");
    reveal_strlit("import_job");
    assert("id"@.len() == 2);
    assert("name"@.len() == 4);
    assert("base_url"@.len() == 8);
    assert("secret_key"@.len() == 10 && "secret_key"@[0] == 's');
    assert("import_job"@.len() == 10 && "import_job"@[0] == 'i');
    let p = normal_pool(raw, fresh, job, now);
    lemma_hex_bare(fresh, 12);
    lemma_field_bare(raw, "id"@);
    lemma_field_bare(raw, "name"@);
    lemma_field_bare(raw, "base_url"@);
    lemma_field_bare(raw, "secret_key"@);
    let id = or_else(field_trim(raw, "id"@), fresh);
    assert(p.get("id"@) == Some(JsonView::Str(id)));
    assert(is_bare(id) && id.len() > 0);
    assert(p.get("name"@) == Some(JsonView::Str(field_trim(raw, "name"@))));
    assert(p.get("base_url"@) == Some(JsonView::Str(field_trim(raw, "base_url"@))));
    assert(p.get("secret_key"@) == Some(JsonView::Str(field_trim(raw, "secret_key"@))));
    let import = normal_job(raw.get("import_job"@), true, job, now);
    assert(p.get("import_job"@) == Some(job_or_null(import)));
    if import is Some {
        lemma_job_stays(raw.get("import_job"@), job, now, job2, later);
        assert(import->0 is Obj);
        assert(normal_job(Some(import->0), true, job2, later) == import);
    }
}

// ---------------------------------------------------------------------------
// image tasks
// ---------------------------------------------------------------------------

proof fn lemma_cleaned_bare(v: Option<JsonView>, default: Seq<char>)
    ensures
        is_bare(cleaned_value(v, default)),
        trimmed(default).len() > 0 ==> cleaned_value(v, default).len() > 0,
{
    lemma_trimmed_bare(default);
    match v {
        Some(JsonView::Str(s)) => lemma_trimmed_bare(s),
        Some(other) => lemma_trimmed_bare(crate::value::compact(other)),
        None => {},
    }
}

proof fn lemma_cleaned_stays(s: Seq<char>, default: Seq<char>)
    requires
        is_bare(s),
        s.len() > 0 || trimmed(default).len() == 0,
    ensures
        cleaned_value(Some(JsonView::Str(s)), default) == s,
{
    assert(s.len() == 0 ==> s =~= trimmed(default));
}

/// A task that was loaded, stored and loaded again is as it was, whatever the second time.
pub proof fn law_task_read_back(item: JsonView, now: Seq<char>, later: Seq<char>)
    requires
        loaded_task(item, now) is Some,
        trimmed(now).len() > 0,
    ensures
        loaded_task((loaded_task(item, now)->0).1, later) == loaded_task(item, now),
{
    broadcast use crate::value::group_fields;

    reveal_strlit("id");
    reveal_strlit("owner_id");
    reveal_strlit("status");
    reveal_strlit("mode");
    reveal_strlit("model");
    reveal_strlit("size");
    reveal_strlit("quality");
    reveal_strlit("created_at");
    reveal_strlit("updated_at");
    reveal_strlit("created_ts");
    reveal_strlit("updated_ts");
    reveal_strlit("started_ts");
    reveal_strlit("duration_ms");
    reveal_strlit("data");
    reveal_strlit("usage");
    reveal_strlit("error");
    assert("id"@.len() == 2);
    assert("owner_id"@.len() == 8);
    assert("status"@.len() == 6);
    assert("mode"@.len() == 4 && "mode"@[0] == 'm');
    assert("model"@.len() == 5 && "model"@[0] == 'm');
    assert("size"@.len() == 4 && "size"@[0] == 's');
    assert("quality"@.len() == 7);
    assert("created_at"@.len() == 10 && "created_at"@[0] == 'c' && "created_at"@[8] == 'a');
    assert("updated_at"@.len() == 10 && "updated_at"@[0] == 'u' && "updated_at"@[8] == 'a');
    assert("created_ts"@.len() == 10 && "created_ts"@[8] == 't' && "created_ts"@[0] == 'c');
    assert("updated_ts"@.len() == 10 && "updated_ts"@[0] == 'u' && "updated_ts"@[8] == 't');
    assert("started_ts"@.len() == 10 && "started_ts"@[0] == 's');
    assert("duration_ms"@.len() == 11);
    assert("data"@.len() == 4 && "data"@[0] == 'd');
    assert("usage"@.len() == 5 && "usage"@[0] == 'u');
    assert("error"@.len() == 5 && "error"@[0] == 'e');
    reveal_strlit("");
    reveal_strlit("gpt-image-2");
    reveal_strlit("auto");
    assert(""@ =~= Seq::empty());
    lemma_blank();
    assert("gpt-image-2"@.len() == 11 && "gpt-image-2"@[0] == 'g' && "gpt-image-2"@[10] == '2');
    lemma_bare_stays("gpt-image-2"@);
    assert("auto"@.len() == 4 && "auto"@[0] == 'a' && "auto"@[3] == 'o');
    lemma_bare_stays("auto"@);
    let id = cleaned_value(item.get("id"@), ""@);
    let owner = cleaned_value(item.get("owner_id"@), ""@);
    let raw_status = cleaned_value(item.get("status"@), ""@);
    let status = if known_status(raw_status) {
        raw_status
    } else {
        "error"@
    };
    let mode = if item.str_at("mode"@) == "edit"@ {
        "edit"@
    } else {
        "generate"@
    };
    let model = cleaned_value(item.get("model"@), "gpt-image-2"@);
    let size = cleaned_value(item.get("size"@), ""@);
    let quality = cleaned_value(item.get("quality"@), "auto"@);
    let created = cleaned_value(item.get("created_at"@), now);
    let updated = cleaned_value(item.get("updated_at"@), created);
    let error = cleaned_value(item.get("error"@), ""@);
    lemma_cleaned_bare(item.get("id"@), ""@);
    lemma_cleaned_bare(item.get("owner_id"@), ""@);
    lemma_cleaned_bare(item.get("status"@), ""@);
    lemma_cleaned_bare(item.get("model"@), "gpt-image-2"@);
    lemma_cleaned_bare(item.get("size"@), ""@);
    lemma_cleaned_bare(item.get("quality"@), "auto"@);
    lemma_cleaned_bare(item.get("created_at"@), now);
    lemma_cleaned_bare(item.get("updated_at"@), created);
    lemma_cleaned_bare(item.get("error"@), ""@);
    assert("error"@[4] == 'r');
    lemma_bare_stays("error"@);
    let t = (loaded_task(item, now)->0).1;
    assert(t.get("id"@) == Some(JsonView::Str(id)));
    assert(t.get("owner_id"@) == Some(JsonView::Str(owner)));
    assert(t.get("status"@) == Some(JsonView::Str(status)));
    assert(t.get("mode"@) == Some(JsonView::Str(mode)));
    assert(t.get("model"@) == Some(JsonView::Str(model)));
    assert(t.get("size"@) == Some(JsonView::Str(size)));
    assert(t.get("quality"@) == Some(JsonView::Str(quality)));
    assert(t.get("created_at"@) == Some(JsonView::Str(created)));
    assert(t.get("updated_at"@) == Some(JsonView::Str(updated)));
    assert(t.at("created_ts"@) == item.at("created_ts"@));
    assert(t.at("updated_ts"@) == item.at("updated_ts"@));
    assert(t.at("started_ts"@) == item.at("started_ts"@));
    assert(t.at("duration_ms"@) == item.at("duration_ms"@));
    assert(item.at("data"@) is Arr ==> t.at("data"@) == item.at("data"@));
    assert(!(item.at("data"@) is Arr) ==> t.at("data"@) is Null);
    assert(item.at("usage"@) is Obj ==> t.at("usage"@) == item.at("usage"@));
    assert(!(item.at("usage"@) is Obj) ==> t.at("usage"@) is Null);
    assert(t.get("error"@) == (if error.len() > 0 {
        Some(JsonView::Str(error))
    } else {
        None
    }));
    lemma_cleaned_stays(id, ""@);
    lemma_cleaned_stays(owner, ""@);
    lemma_cleaned_stays(status, ""@);
    lemma_cleaned_stays(model, "gpt-image-2"@);
    lemma_cleaned_stays(size, ""@);
    lemma_cleaned_stays(quality, "auto"@);
    lemma_cleaned_stays(created, later);
    lemma_cleaned_stays(updated, created);
    lemma_cleaned_stays(error, ""@);
    assert(known_status(status));
    let again = (loaded_task(t, later)->0).1;
    assert(again =~= t);
}

} // verus!
