//! Remote pools of accounts, and the imports from them.
use vstd::prelude::*;

use crate::account::{field_text, field_trim, merge_objects, merged, text_at, trim_at};
use crate::accounts_api::{filled_trimmed, trim_filled};
use crate::backup::{ival, loose_int};
use crate::digest::{is_hex, random_uuid, short_uuid};
use crate::json::non_empty_or;
use crate::text::{
    CharClass, cat, decimal, decimal_text, same, skip_back, trim_back, trimmed, views,
};
use crate::value::{
    count_json, empty_object, int_json, list_view, opt_view, or_else, Json, JsonView,
};

verus! {

broadcast use crate::value::group_json;

// ---------------------------------------------------------------------------
// import jobs
// ---------------------------------------------------------------------------

/// An import job in its normalized form; none for what is no object. `fresh` stands for a missing
/// id, `now` for missing times; where `fail_unfinished`, a job that did not end has failed.
pub open spec fn normal_job(
    raw: Option<JsonView>,
    fail_unfinished: bool,
    fresh: Seq<char>,
    now: Seq<char>,
) -> Option<JsonView> {
    match raw {
        Some(JsonView::Obj(o)) => {
            let v = JsonView::Obj(o);
            let status = or_else(field_trim(v, "status"@), "failed"@);
            let created = field_trim(v, "created_at"@);
            Some(
                empty_object().put(
                    "job_id"@,
                    JsonView::Str(or_else(field_trim(v, "job_id"@), fresh)),
                ).put(
                    "status"@,
                    JsonView::Str(
                        if fail_unfinished && (status == "pending"@ || status == "running"@) {
                            "failed"@
                        } else {
                            status
                        },
                    ),
                ).put("created_at"@, JsonView::Str(or_else(created, now))).put(
                    "updated_at"@,
                    JsonView::Str(or_else(field_trim(v, "updated_at"@), or_else(created, now))),
                ).put("total"@, int_json(loose_int(v, "total"@))).put(
                    "completed"@,
                    int_json(loose_int(v, "completed"@)),
                ).put("added"@, int_json(loose_int(v, "added"@))).put(
                    "skipped"@,
                    int_json(loose_int(v, "skipped"@)),
                ).put("refreshed"@, int_json(loose_int(v, "refreshed"@))).put(
                    "failed"@,
                    int_json(loose_int(v, "failed"@)),
                ).put("errors"@, JsonView::Arr(v.items_at("errors"@))),
            )
        },
        _ => None,
    }
}

/// Normalizes an import job.
pub fn normalize_import_job(raw: Option<&Json>, fail_unfinished: bool, fresh: &str, now: &str) -> (r:
    Option<Json>)
    ensures
        match r {
            Some(j) => normal_job(opt_view(raw), fail_unfinished, fresh@, now@) == Some(j@),
            None => normal_job(opt_view(raw), fail_unfinished, fresh@, now@) is None,
        },
{
    let v = match raw {
        Some(v) => v,
        None => {
            return None;
        },
    };
    if !v.is_object() {
        return None;
    }
    let status = non_empty_or(trim_at(v, "status"), "failed");
    let status = if fail_unfinished && (same(status.as_str(), "pending") || same(
        status.as_str(),
        "running",
    )) {
        "failed".to_owned()
    } else {
        status
    };
    let created = non_empty_or(trim_at(v, "created_at"), now);
    let mut o = Json::object();
    o.set("job_id", Json::Str(non_empty_or(trim_at(v, "job_id"), fresh)));
    o.set("status", Json::Str(status));
    o.set("created_at", Json::from_text(created.as_str()));
    o.set("updated_at", Json::Str(non_empty_or(trim_at(v, "updated_at"), created.as_str())));
    o.set("total", Json::from_int(ival(v, "total")));
    o.set("completed", Json::from_int(ival(v, "completed")));
    o.set("added", Json::from_int(ival(v, "added")));
    o.set("skipped", Json::from_int(ival(v, "skipped")));
    o.set("refreshed", Json::from_int(ival(v, "refreshed")));
    o.set("failed", Json::from_int(ival(v, "failed")));
    o.set("errors", Json::Arr(v.items_at("errors")));
    Some(o)
}

/// An import job, or `null`.
pub open spec fn job_or_null(j: Option<JsonView>) -> JsonView {
    match j {
        Some(v) => v,
        None => JsonView::Null,
    }
}

/// A pool in its normalized form.
pub open spec fn normal_pool(raw: JsonView, fresh: Seq<char>, job: Seq<char>, now: Seq<char>) -> JsonView {
    empty_object().put("id"@, JsonView::Str(or_else(field_trim(raw, "id"@), fresh))).put(
        "name"@,
        JsonView::Str(field_trim(raw, "name"@)),
    ).put("base_url"@, JsonView::Str(field_trim(raw, "base_url"@))).put(
        "secret_key"@,
        JsonView::Str(field_trim(raw, "secret_key"@)),
    ).put("import_job"@, job_or_null(normal_job(raw.get("import_job"@), true, job, now)))
}

/// Normalizes a pool. `fresh` stands for its missing id, `job` for that of its import job.
pub fn normalize_pool(raw: &Json, fresh: &str, job: &str, now: &str) -> (r: Json)
    ensures
        r@ == normal_pool(raw@, fresh@, job@, now@),
{
    let mut o = Json::object();
    o.set("id", Json::Str(non_empty_or(trim_at(raw, "id"), fresh)));
    o.set("name", Json::Str(trim_at(raw, "name")));
    o.set("base_url", Json::Str(trim_at(raw, "base_url")));
    o.set("secret_key", Json::Str(trim_at(raw, "secret_key")));
    let import = match normalize_import_job(raw.get("import_job"), true, job, now) {
        Some(j) => j,
        None => Json::Null,
    };
    o.set("import_job", import);
    o
}

/// Whether a pool is what a stored record stands for, with random ids for those that it lacks.
pub open spec fn read_from(p: JsonView, raw: JsonView, now: Seq<char>) -> bool {
    exists|fresh: Seq<char>, job: Seq<char>|
        is_hex(fresh, 12) && is_hex(job, 32) && p == #[trigger] normal_pool(raw, fresh, job, now)
}

/// An error of an import.
pub open spec fn import_error(name: Seq<char>, message: Seq<char>) -> JsonView {
    empty_object().put("name"@, JsonView::Str(name)).put("error"@, JsonView::Str(message))
}

// ---------------------------------------------------------------------------
// pools
// ---------------------------------------------------------------------------

/// The remote pools.
pub struct CpaService {
    pools: Vec<Json>,
}

/// The position of the first pool with an id, or the number of pools.
pub open spec fn pool_at(pools: Seq<JsonView>, id: Seq<char>) -> int
    decreases pools.len(),
{
    if pools.len() == 0 || field_text(pools[0], "id"@) == id {
        0
    } else {
        1 + pool_at(pools.drop_first(), id)
    }
}

/// The fields of an object that are not `null`, set over those of another.
pub open spec fn merged_filled(dst: JsonView, src: Seq<(Seq<char>, JsonView)>) -> JsonView
    decreases src.len(),
{
    if src.len() == 0 {
        dst
    } else {
        let done = merged_filled(dst, src.drop_last());
        if src.last().1 is Null {
            done
        } else {
            done.put(src.last().0, src.last().1)
        }
    }
}

/// Whether a pool has another id.
pub open spec fn other_pool(id: Seq<char>) -> spec_fn(JsonView) -> bool {
    |p: JsonView| field_text(p, "id"@) != id
}

/// The import job of a pool, where it has one.
pub open spec fn pool_job(pools: Seq<JsonView>, id: Seq<char>) -> Option<JsonView> {
    let i = pool_at(pools, id);
    if i < pools.len() && pools[i].at("import_job"@) is Obj {
        Some(pools[i].at("import_job"@))
    } else {
        None
    }
}

/// The pools with an import job set for one of them.
pub open spec fn with_job(pools: Seq<JsonView>, id: Seq<char>, job: JsonView, fresh: Seq<char>, now: Seq<char>) -> Seq<
    JsonView,
> {
    let i = pool_at(pools, id);
    if i < pools.len() {
        pools.update(
            i,
            pools[i].put("import_job"@, job_or_null(normal_job(Some(job), false, fresh, now))),
        )
    } else {
        pools
    }
}

/// The pools with the import job of one of them changed, where it has one.
pub open spec fn with_job_updates(
    pools: Seq<JsonView>,
    id: Seq<char>,
    updates: JsonView,
    fresh: Seq<char>,
    now: Seq<char>,
) -> Seq<JsonView> {
    match pool_job(pools, id) {
        Some(j) => with_job(
            pools,
            id,
            merged(j, updates).put("updated_at"@, JsonView::Str(now)),
            fresh,
            now,
        ),
        None => pools,
    }
}

/// What changes in an import job when an error is noted.
pub open spec fn error_updates(job: JsonView, name: Seq<char>, message: Seq<char>) -> JsonView {
    let errors = job.items_at("errors"@).push(import_error(name, message));
    empty_object().put("errors"@, JsonView::Arr(errors)).put("failed"@, count_json(errors.len()))
}

/// The pools with an error noted in the import job of one of them.
pub open spec fn with_error(
    pools: Seq<JsonView>,
    id: Seq<char>,
    name: Seq<char>,
    message: Seq<char>,
    fresh: Seq<char>,
    now: Seq<char>,
) -> Seq<JsonView> {
    match pool_job(pools, id) {
        Some(j) => with_job_updates(pools, id, error_updates(j, name, message), fresh, now),
        None => pools,
    }
}

/// What changes in an import job when one more file is done.
pub open spec fn progress_updates(job: JsonView) -> JsonView {
    empty_object().put("completed"@, int_json(wrapped_next(loose_int(job, "completed"@)))).put(
        "failed"@,
        count_json(job.items_at("errors"@).len()),
    )
}

/// The next integer; the least one after the greatest.
pub open spec fn wrapped_next(n: int) -> int {
    if n == i64::MAX {
        i64::MIN as int
    } else {
        n + 1
    }
}

/// An import job that just started.
pub open spec fn started_job(id: Seq<char>, total: nat, now: Seq<char>) -> JsonView {
    empty_object().put("job_id"@, JsonView::Str(id)).put("status"@, JsonView::Str("pending"@)).put(
        "created_at"@,
        JsonView::Str(now),
    ).put("updated_at"@, JsonView::Str(now)).put("total"@, count_json(total)).put(
        "completed"@,
        int_json(0),
    ).put("added"@, int_json(0)).put("skipped"@, int_json(0)).put("refreshed"@, int_json(0)).put(
        "failed"@,
        int_json(0),
    ).put("errors"@, JsonView::Arr(Seq::empty()))
}

/// A job, or an object without fields.
pub open spec fn job_or_empty(j: Option<JsonView>) -> JsonView {
    match j {
        Some(v) => v,
        None => empty_object(),
    }
}

impl CpaService {
    /// The pools, in order.
    pub closed spec fn pools(self) -> Seq<JsonView> {
        list_view(self.pools@)
    }

    /// The pools that a document holds: a list of objects, or one object with an address.
    pub fn load(raw: &Json, now: &str) -> (r: CpaService)
        ensures
            r.pools().len() == stored_pools(raw@).len(),
            forall|i: int|
                0 <= i < r.pools().len() ==> read_from(
                    #[trigger] r.pools()[i],
                    stored_pools(raw@)[i],
                    now@,
                ),
    {
        let stored = pick_stored(raw);
        let ghost sv = list_view(stored@);
        let mut pools: Vec<Json> = Vec::new();
        let mut i: usize = 0;
        while i < stored.len()
            invariant
                i <= stored@.len(),
                sv == list_view(stored@),
                sv == stored_pools(raw@),
                pools@.len() == i,
                forall|k: int|
                    0 <= k < i ==> read_from(#[trigger] list_view(pools@)[k], sv[k], now@),
            decreases stored@.len() - i,
        {
            let ghost before = list_view(pools@);
            let fresh = short_uuid();
            let job = random_uuid();
            let p = normalize_pool(&stored[i], fresh.as_str(), job.as_str(), now);
            let ghost pv = p@;
            assert(pv == normal_pool(sv[i as int], fresh@, job@, now@));
            pools.push(p);
            assert(list_view(pools@) =~= before.push(pv));
            assert(read_from(pv, sv[i as int], now@));
            assert forall|k: int| 0 <= k < i + 1 implies read_from(
                #[trigger] list_view(pools@)[k],
                sv[k],
                now@,
            ) by {
                if k < i {
                    assert(list_view(pools@)[k] == before[k]);
                }
            }
            i += 1;
        }
        assert(list_view(pools@).len() == pools@.len());
        let r = CpaService { pools };
        assert(r.pools() == list_view(pools@));
        r
    }

    /// The pools, in order.
    pub fn list_pools(&self) -> (r: Vec<Json>)
        ensures
            list_view(r@) == self.pools(),
    {
        crate::json::copy_list(&self.pools)
    }

    fn find(&self, id: &str) -> (r: usize)
        ensures
            r == pool_at(self.pools(), id@),
            r <= self.pools().len(),
            self.pools().len() == self.pools@.len(),
            r < self.pools@.len() ==> self.pools()[r as int] == self.pools@[r as int]@,
    {
        let ghost ps = self.pools();
        let mut i: usize = 0;
        assert(ps.skip(0) =~= ps);
        assert(ps.len() == self.pools@.len());
        while i < self.pools.len() && !same(text_at(&self.pools[i], "id").as_str(), id)
            invariant
                i <= self.pools@.len(),
                ps == list_view(self.pools@),
                ps.len() == self.pools@.len(),
                pool_at(ps, id@) == i + pool_at(ps.skip(i as int), id@),
            ensures
                i <= self.pools@.len(),
                ps == list_view(self.pools@),
                pool_at(ps, id@) == i + pool_at(ps.skip(i as int), id@),
                i < self.pools@.len() ==> field_text(ps[i as int], "id"@) == id@,
            decreases self.pools@.len() - i,
        {
            assert(ps.skip(i as int).drop_first() =~= ps.skip(i + 1));
            i += 1;
        }
        i
    }

    /// The pool with an id.
    pub fn get_pool(&self, pool_id: &str) -> (r: Option<Json>)
        ensures
            ({
                let i = pool_at(self.pools(), pool_id@);
                if i < self.pools().len() {
                    r matches Some(p) && p@ == self.pools()[i]
                } else {
                    r is None
                }
            }),
    {
        let i = self.find(pool_id);
        if i < self.pools.len() {
            Some(self.pools[i].copy())
        } else {
            None
        }
    }

    /// Adds a pool with a given id.
    pub fn add_pool(&mut self, id: &str, name: &str, base_url: &str, secret_key: &str) -> (r: Json)
        ensures
            r@ == normal_pool(
                empty_object().put("id"@, JsonView::Str(id@)).put(
                    "name"@,
                    JsonView::Str(name@),
                ).put("base_url"@, JsonView::Str(base_url@)).put(
                    "secret_key"@,
                    JsonView::Str(secret_key@),
                ),
                id@,
                ""@,
                ""@,
            ),
            final(self).pools() == old(self).pools().push(r@),
            r@.str_at("name"@) == trimmed(name@),
            r@.str_at("base_url"@) == trimmed(base_url@),
            r@.str_at("secret_key"@) == trimmed(secret_key@),
            trimmed(id@).len() > 0 ==> r@.str_at("id"@) == trimmed(id@),
    {
        let mut o = Json::object();
        o.set("id", Json::from_text(id));
        o.set("name", Json::from_text(name));
        o.set("base_url", Json::from_text(base_url));
        o.set("secret_key", Json::from_text(secret_key));
        let pool = normalize_pool(&o, id, "", "");
        proof {
            broadcast use crate::value::group_fields;

            reveal_strlit("id");
            reveal_strlit("name");
            reveal_strlit("base_url");
            reveal_strlit("secret_key");
            assert("id"@.len() == 2);
            assert("name"@.len() == 4);
            assert("base_url"@.len() == 8);
            assert("secret_key"@.len() == 10);
            crate::transfer_laws::law_kept_pool(o@, id@, ""@, ""@);
            assert(field_trim(o@, "name"@) == trimmed(name@));
            assert(field_trim(o@, "base_url"@) == trimmed(base_url@));
            assert(field_trim(o@, "secret_key"@) == trimmed(secret_key@));
            assert(field_trim(o@, "id"@) == trimmed(id@));
        }
        let ghost before = list_view(self.pools@);
        let ghost pv = pool@;
        self.pools.push(pool.copy());
        assert(list_view(self.pools@) =~= before.push(pv));
        pool
    }

    /// Sets the fields of `updates` that are not `null` over the pool with an id, which keeps its
    /// id. `job` stands for the missing id of an import job.
    pub fn update_pool(&mut self, pool_id: &str, updates: &Json, job: &str, now: &str) -> (r: Option<Json>)
        ensures
            ({
                let ps = old(self).pools();
                let i = pool_at(ps, pool_id@);
                let fields = match updates@ {
                    JsonView::Obj(o) => o,
                    _ => Seq::empty(),
                };
                let next = normal_pool(
                    merged_filled(ps[i], fields).put("id"@, JsonView::Str(pool_id@)),
                    pool_id@,
                    job@,
                    now@,
                );
                if i < ps.len() {
                    &&& r matches Some(p) && p@ == next
                    &&& final(self).pools() == ps.update(i, next)
                } else {
                    r is None && final(self).pools() == ps
                }
            }),
    {
        let i = self.find(pool_id);
        let ghost ps = self.pools();
        if i >= self.pools.len() {
            return None;
        }
        let mut m = self.pools[i].copy();
        let ghost base = m@;
        match updates {
            Json::Obj(o) => {
                let ghost fv = crate::value::fields_view(o@);
                let mut k: usize = 0;
                assert(fv.take(0) =~= Seq::empty());
                while k < o.len()
                    invariant
                        k <= o@.len(),
                        fv == crate::value::fields_view(o@),
                        m@ == merged_filled(base, fv.take(k as int)),
                    decreases o@.len() - k,
                {
                    assert(fv.take(k + 1).drop_last() =~= fv.take(k as int));
                    if !o[k].1.is_null() {
                        m.set(o[k].0.as_str(), o[k].1.copy());
                    }
                    k += 1;
                }
                assert(fv.take(k as int) =~= fv);
            },
            _ => {},
        }
        m.set("id", Json::from_text(pool_id));
        let next = normalize_pool(&m, pool_id, job, now);
        let ghost nv = next@;
        self.pools[i] = next.copy();
        assert(list_view(self.pools@) =~= ps.update(i as int, nv));
        Some(next)
    }

    /// Deletes the pools with an id, and tells whether there was one.
    pub fn delete_pool(&mut self, pool_id: &str) -> (r: bool)
        ensures
            final(self).pools() == old(self).pools().filter(other_pool(pool_id@)),
            r == (final(self).pools().len() < old(self).pools().len()),
            forall|p: JsonView| #[trigger]
                final(self).pools().contains(p) <==> old(self).pools().contains(p) && field_text(
                    p,
                    "id"@,
                ) != pool_id@,
    {
        let ghost ps = self.pools();
        let ghost keep = other_pool(pool_id@);
        let before = self.pools.len();
        let mut kept: Vec<Json> = Vec::new();
        let mut i: usize = 0;
        proof {
            reveal(Seq::filter);
            assert(list_view(kept@) =~= ps.take(0).filter(keep));
        }
        while i < self.pools.len()
            invariant
                kept@.len() <= i <= self.pools@.len(),
                ps == list_view(self.pools@),
                keep == other_pool(pool_id@),
                list_view(kept@) == ps.take(i as int).filter(keep),
            decreases self.pools@.len() - i,
        {
            let ghost done = list_view(kept@);
            assert(ps.take(i + 1).drop_last() =~= ps.take(i as int));
            assert(ps.take(i + 1).filter(keep) == if keep(ps[i as int]) {
                done.push(ps[i as int])
            } else {
                done
            }) by {
                reveal(Seq::filter);
            }
            if !same(text_at(&self.pools[i], "id").as_str(), pool_id) {
                kept.push(self.pools[i].copy());
                assert(list_view(kept@) =~= done.push(ps[i as int]));
            }
            i += 1;
        }
        assert(ps.take(i as int) =~= ps);
        assert(list_view(kept@).len() == kept@.len());
        assert(ps.len() == before);
        proof {
            assert forall|p: JsonView| #[trigger]
                list_view(kept@).contains(p) <==> ps.contains(p) && field_text(p, "id"@) != pool_id@ by {
                crate::lists::lemma_filtered_has(ps, keep, p);
            }
        }
        let left = kept.len();
        self.pools = kept;
        left < before
    }

    /// The import job of the pool with an id.
    pub fn get_import_job(&self, pool_id: &str) -> (r: Option<Json>)
        ensures
            match r {
                Some(j) => pool_job(self.pools(), pool_id@) == Some(j@),
                None => pool_job(self.pools(), pool_id@) is None,
            },
    {
        let i = self.find(pool_id);
        if i >= self.pools.len() {
            return None;
        }
        let job = self.pools[i].at("import_job");
        if job.is_object() {
            Some(job)
        } else {
            None
        }
    }

    fn set_import_job(&mut self, pool_id: &str, job: &Json, fresh: &str, now: &str) -> (r: bool)
        ensures
            final(self).pools() == with_job(old(self).pools(), pool_id@, job@, fresh@, now@),
            r == (pool_at(old(self).pools(), pool_id@) < old(self).pools().len()),
    {
        let i = self.find(pool_id);
        let ghost ps = self.pools();
        if i >= self.pools.len() {
            return false;
        }
        let mut next = self.pools[i].copy();
        let j = match normalize_import_job(Some(job), false, fresh, now) {
            Some(j) => j,
            None => Json::Null,
        };
        next.set("import_job", j);
        let ghost nv = next@;
        self.pools[i] = next;
        assert(list_view(self.pools@) =~= ps.update(i as int, nv));
        true
    }

    /// Sets the fields of `updates` over the import job of the pool with an id.
    pub fn update_job(&mut self, pool_id: &str, updates: &Json, fresh: &str, now: &str)
        ensures
            final(self).pools() == with_job_updates(
                old(self).pools(),
                pool_id@,
                updates@,
                fresh@,
                now@,
            ),
    {
        match self.get_import_job(pool_id) {
            Some(j) => {
                let mut next = merge_objects(j, updates);
                next.set("updated_at", Json::from_text(now));
                self.set_import_job(pool_id, &next, fresh, now);
            },
            None => {},
        }
    }

    /// Notes an error in the import job of the pool with an id.
    pub fn append_error(&mut self, pool_id: &str, file_name: &str, message: &str, fresh: &str, now: &str)
        ensures
            final(self).pools() == with_error(
                old(self).pools(),
                pool_id@,
                file_name@,
                message@,
                fresh@,
                now@,
            ),
    {
        match self.get_import_job(pool_id) {
            Some(j) => {
                let mut errors = j.items_at("errors");
                let ghost ev = list_view(errors@);
                let mut e = Json::object();
                e.set("name", Json::from_text(file_name));
                e.set("error", Json::from_text(message));
                let ghost x = e@;
                errors.push(e);
                assert(list_view(errors@) =~= ev.push(x));
                let n = errors.len();
                assert(list_view(errors@).len() == n);
                let mut u = Json::object();
                u.set("errors", Json::Arr(errors));
                u.set("failed", Json::from_count(n));
                self.update_job(pool_id, &u, fresh, now);
            },
            None => {},
        }
    }

    /// Starts an import of the files that were selected into the pool with an id: gives the job
    /// and the names of the files.
    pub fn start_import(&mut self, pool_id: &str, selected: &Vec<String>, job_id: &str, now: &str) -> (r:
        Result<(Json, Vec<String>), String>)
        ensures
            ({
                let names = filled_trimmed(views(selected@));
                let job = started_job(job_id@, names.len(), now@);
                let i = pool_at(old(self).pools(), pool_id@);
                if names.len() == 0 {
                    &&& r matches Err(e) && e@ == "selected files is required"@
                    &&& final(self).pools() == old(self).pools()
                } else if i >= old(self).pools().len() {
                    &&& r matches Err(e) && e@ == "pool not found"@
                    &&& final(self).pools() == old(self).pools()
                } else {
                    &&& final(self).pools() == with_job(
                        old(self).pools(),
                        pool_id@,
                        job,
                        job_id@,
                        now@,
                    )
                    &&& r matches Ok(p) && Some(p.0@) == normal_job(Some(job), false, job_id@, now@)
                        && views(p.1@) == names
                }
            }),
    {
        let names = trim_filled(selected);
        assert(views(names@).len() == names@.len());
        if names.len() == 0 {
            return Err("selected files is required".to_owned());
        }
        let none: Vec<Json> = Vec::new();
        assert(list_view(none@) =~= Seq::empty());
        let mut job = Json::object();
        job.set("job_id", Json::from_text(job_id));
        job.set("status", Json::from_text("pending"));
        job.set("created_at", Json::from_text(now));
        job.set("updated_at", Json::from_text(now));
        job.set("total", Json::from_count(names.len()));
        job.set("completed", Json::from_int(0));
        job.set("added", Json::from_int(0));
        job.set("skipped", Json::from_int(0));
        job.set("refreshed", Json::from_int(0));
        job.set("failed", Json::from_int(0));
        job.set("errors", Json::Arr(none));
        if !self.set_import_job(pool_id, &job, job_id, now) {
            return Err("pool not found".to_owned());
        }
        match normalize_import_job(Some(&job), false, job_id, now) {
            Some(j) => Ok((j, names)),
            None => Ok((job, names)),
        }
    }

    /// Notes that the import into the pool with an id runs.
    pub fn import_running(&mut self, pool_id: &str, fresh: &str, now: &str)
        ensures
            final(self).pools() == with_job_updates(
                old(self).pools(),
                pool_id@,
                empty_object().put("status"@, JsonView::Str("running"@)),
                fresh@,
                now@,
            ),
    {
        let mut u = Json::object();
        u.set("status", Json::from_text("running"));
        self.update_job(pool_id, &u, fresh, now);
    }

    /// Notes that one more file of an import is done, with the error where there was one.
    pub fn import_progress(
        &mut self,
        pool_id: &str,
        name: &str,
        error: Option<&str>,
        fresh: &str,
        now: &str,
    )
        ensures
            ({
                let noted = match error {
                    Some(e) => with_error(old(self).pools(), pool_id@, name@, e@, fresh@, now@),
                    None => old(self).pools(),
                };
                final(self).pools() == with_job_updates(
                    noted,
                    pool_id@,
                    progress_updates(job_or_empty(pool_job(noted, pool_id@))),
                    fresh@,
                    now@,
                )
            }),
    {
        match error {
            Some(e) => {
                self.append_error(pool_id, name, e, fresh, now);
            },
            None => {},
        }
        let current = match self.get_import_job(pool_id) {
            Some(j) => j,
            None => Json::object(),
        };
        let errors = current.items_at("errors");
        assert(list_view(errors@).len() == errors@.len());
        let mut u = Json::object();
        let done: i64 = ival(&current, "completed");
        u.set("completed", Json::from_int(done.wrapping_add(1)));
        u.set("failed", Json::from_count(errors.len()));
        self.update_job(pool_id, &u, fresh, now);
    }

    /// Notes that an import gave no tokens.
    pub fn import_failed(&mut self, pool_id: &str, fresh: &str, now: &str)
        ensures
            ({
                let job = job_or_empty(pool_job(old(self).pools(), pool_id@));
                final(self).pools() == with_job_updates(
                    old(self).pools(),
                    pool_id@,
                    empty_object().put("status"@, JsonView::Str("failed"@)).put(
                        "completed"@,
                        int_json(loose_int(job, "total"@)),
                    ).put("failed"@, count_json(job.items_at("errors"@).len())),
                    fresh@,
                    now@,
                )
            }),
    {
        let current = match self.get_import_job(pool_id) {
            Some(j) => j,
            None => Json::object(),
        };
        let errors = current.items_at("errors");
        assert(list_view(errors@).len() == errors@.len());
        let mut u = Json::object();
        u.set("status", Json::from_text("failed"));
        u.set("completed", Json::from_int(ival(&current, "total")));
        u.set("failed", Json::from_count(errors.len()));
        self.update_job(pool_id, &u, fresh, now);
    }

    /// Notes that an import of `total` files ended: how many accounts it added, found and
    /// refreshed.
    pub fn import_completed(
        &mut self,
        pool_id: &str,
        total: usize,
        added: usize,
        skipped: usize,
        refreshed: i64,
        fresh: &str,
        now: &str,
    )
        ensures
            ({
                let job = job_or_empty(pool_job(old(self).pools(), pool_id@));
                final(self).pools() == with_job_updates(
                    old(self).pools(),
                    pool_id@,
                    empty_object().put("status"@, JsonView::Str("completed"@)).put(
                        "completed"@,
                        count_json(total as nat),
                    ).put("added"@, count_json(added as nat)).put(
                        "skipped"@,
                        count_json(skipped as nat),
                    ).put("refreshed"@, int_json(refreshed as int)).put(
                        "failed"@,
                        count_json(job.items_at("errors"@).len()),
                    ),
                    fresh@,
                    now@,
                )
            }),
            pool_job(old(self).pools(), pool_id@) matches Some(job) ==> total <= i64::MAX && added
                <= i64::MAX && skipped <= i64::MAX && job.items_at("errors"@).len() <= i64::MAX ==> {
                let j = final(self).pools()[pool_at(old(self).pools(), pool_id@)].at("import_job"@);
                &&& j.str_at("status"@) == "completed"@
                &&& j.get("completed"@) == Some(int_json(total as int))
                &&& j.get("added"@) == Some(int_json(added as int))
                &&& j.get("skipped"@) == Some(int_json(skipped as int))
                &&& j.get("refreshed"@) == Some(int_json(refreshed as int))
                &&& j.get("failed"@) == Some(int_json(job.items_at("errors"@).len() as int))
            },
    {
        proof {
            let ps = self.pools();
            lemma_pool_at(ps, pool_id@);
            if pool_job(ps, pool_id@) is Some && total <= i64::MAX && added <= i64::MAX && skipped
                <= i64::MAX && (pool_job(ps, pool_id@)->0).items_at("errors"@).len() <= i64::MAX {
                crate::detail_laws::law_job_ended(
                    ps,
                    pool_id@,
                    total as nat,
                    added as nat,
                    skipped as nat,
                    refreshed as int,
                    (pool_job(ps, pool_id@)->0).items_at("errors"@).len(),
                    fresh@,
                    now@,
                );
            }
        }
        let current = match self.get_import_job(pool_id) {
            Some(j) => j,
            None => Json::object(),
        };
        let errors = current.items_at("errors");
        assert(list_view(errors@).len() == errors@.len());
        let mut u = Json::object();
        u.set("status", Json::from_text("completed"));
        u.set("completed", Json::from_count(total));
        u.set("added", Json::from_count(added));
        u.set("skipped", Json::from_count(skipped));
        u.set("refreshed", Json::from_int(refreshed));
        u.set("failed", Json::from_count(errors.len()));
        self.update_job(pool_id, &u, fresh, now);
    }
}

proof fn lemma_pool_at(pools: Seq<JsonView>, id: Seq<char>)
    ensures
        0 <= pool_at(pools, id) <= pools.len(),
    decreases pools.len(),
{
    if pools.len() > 0 && field_text(pools[0], "id"@) != id {
        lemma_pool_at(pools.drop_first(), id);
    }
}

/// Whether a value is an object.
pub open spec fn is_object() -> spec_fn(JsonView) -> bool {
    |v: JsonView| v is Obj
}

/// The pools that a document holds, as they are stored.
pub open spec fn stored_pools(raw: JsonView) -> Seq<JsonView> {
    match raw {
        JsonView::Obj(_) => if field_trim(raw, "base_url"@).len() > 0 {
            seq![raw]
        } else {
            Seq::empty()
        },
        JsonView::Arr(v) => v.filter(is_object()),
        _ => Seq::empty(),
    }
}

fn pick_stored(raw: &Json) -> (r: Vec<Json>)
    ensures
        list_view(r@) == stored_pools(raw@),
{
    let mut out: Vec<Json> = Vec::new();
    assert(list_view(out@) =~= Seq::empty());
    match raw {
        Json::Obj(_) => {
            if !trim_at(raw, "base_url").as_str().is_empty() {
                out.push(raw.copy());
                assert(list_view(out@) =~= seq![raw@]);
            }
        },
        Json::Arr(items) => {
            let ghost v = list_view(items@);
            let ghost keep = is_object();
            let mut i: usize = 0;
            proof {
                reveal(Seq::filter);
                assert(list_view(out@) =~= v.take(0).filter(keep));
            }
            while i < items.len()
                invariant
                    i <= items@.len(),
                    v == list_view(items@),
                    keep == is_object(),
                    list_view(out@) == v.take(i as int).filter(keep),
                decreases items@.len() - i,
            {
                let ghost done = list_view(out@);
                assert(v.take(i + 1).drop_last() =~= v.take(i as int));
                assert(v.take(i + 1).filter(keep) == if keep(v[i as int]) {
                    done.push(v[i as int])
                } else {
                    done
                }) by {
                    reveal(Seq::filter);
                }
                if items[i].is_object() {
                    out.push(items[i].copy());
                    assert(list_view(out@) =~= done.push(v[i as int]));
                }
                i += 1;
            }
            assert(v.take(i as int) =~= v);
        },
        _ => {},
    }
    out
}

// ---------------------------------------------------------------------------
// the remote side
// ---------------------------------------------------------------------------

/// The address of the list of files of a pool.
pub fn files_url(base_url: &str) -> (r: String)
    ensures
        r@ == skip_back(base_url@, CharClass::Just('/')) + "/v0/management/auth-files"@,
{
    cat(trim_back(base_url, CharClass::Just('/')).as_str(), "/v0/management/auth-files")
}

/// The address of a file of a pool.
pub fn download_url(base_url: &str) -> (r: String)
    ensures
        r@ == skip_back(base_url@, CharClass::Just('/')) + "/v0/management/auth-files/download"@,
{
    cat(trim_back(base_url, CharClass::Just('/')).as_str(), "/v0/management/auth-files/download")
}

/// A file of a pool: its name and the address of its account.
pub open spec fn remote_file() -> spec_fn(JsonView) -> Option<JsonView> {
    |v: JsonView|
        if v is Obj && field_trim(v, "name"@).len() > 0 {
            Some(
                empty_object().put("name"@, JsonView::Str(field_trim(v, "name"@))).put(
                    "email"@,
                    JsonView::Str(or_else(field_trim(v, "email"@), field_trim(v, "account"@))),
                ),
            )
        } else {
            None
        }
}

/// Reads the list of the files of a pool.
pub fn read_remote_files(status: u16, payload: &Json) -> (r: Result<Vec<Json>, String>)
    ensures
        if status >= 400 {
            r matches Err(e) && e@ == "remote list failed: HTTP "@ + decimal(status as nat)
        } else {
            match payload@.get("files"@) {
                Some(JsonView::Arr(v)) => r matches Ok(files) && list_view(files@) == v.filter_map(
                    remote_file(),
                ),
                _ => r matches Err(e) && e@ == "remote list payload is invalid"@,
            }
        },
{
    if status >= 400 {
        return Err(cat("remote list failed: HTTP ", decimal_text(status as u128).as_str()));
    }
    match payload.get("files") {
        Some(Json::Arr(items)) => {
            let ghost v = list_view(items@);
            let ghost f = remote_file();
            let mut out: Vec<Json> = Vec::new();
            let mut i: usize = 0;
            assert(v.take(0).filter_map(f) =~= Seq::empty());
            assert(list_view(out@) =~= Seq::empty());
            while i < items.len()
                invariant
                    i <= items@.len(),
                    v == list_view(items@),
                    f == remote_file(),
                    list_view(out@) == v.take(i as int).filter_map(f),
                decreases items@.len() - i,
            {
                proof {
                    v.lemma_filter_map_take_succ(f, i as int);
                }
                let ghost done = list_view(out@);
                let item = &items[i];
                let name = trim_at(item, "name");
                if item.is_object() && !name.as_str().is_empty() {
                    let account = trim_at(item, "account");
                    let email = non_empty_or(trim_at(item, "email"), account.as_str());
                    let mut o = Json::object();
                    o.set("name", Json::Str(name));
                    o.set("email", Json::Str(email));
                    let ghost ov = o@;
                    out.push(o);
                    assert(list_view(out@) =~= done + seq![ov]);
                }
                assert(list_view(out@) =~= v.take(i + 1).filter_map(f));
                i += 1;
            }
            assert(v.take(i as int) =~= v);
            Ok(out)
        },
        _ => Err("remote list payload is invalid".to_owned()),
    }
}

/// Reads a file of a pool: the access token in it. `payload` is none where the body is no JSON.
pub fn read_remote_token(status: u16, payload: Option<&Json>) -> (r: Result<String, String>)
    ensures
        if status >= 400 {
            r matches Err(e) && e@ == "HTTP "@ + decimal(status as nat)
        } else {
            match opt_view(payload) {
                Some(JsonView::Obj(o)) => {
                    let token = field_trim(JsonView::Obj(o), "access_token"@);
                    if token.len() == 0 {
                        r matches Err(e) && e@ == "missing access_token"@
                    } else {
                        r matches Ok(t) && t@ == token
                    }
                },
                _ => r matches Err(e) && e@ == "invalid payload"@,
            }
        },
{
    if status >= 400 {
        return Err(cat("HTTP ", decimal_text(status as u128).as_str()));
    }
    match payload {
        Some(p) => {
            if !p.is_object() {
                return Err("invalid payload".to_owned());
            }
            let token = trim_at(p, "access_token");
            if token.as_str().is_empty() {
                Err("missing access_token".to_owned())
            } else {
                Ok(token)
            }
        },
        None => Err("invalid payload".to_owned()),
    }
}

// ---------------------------------------------------------------------------
// laws
// ---------------------------------------------------------------------------

/// A pool that was read from storage has no import that still runs.
pub proof fn law_no_import_survives(raw: Option<JsonView>, fresh: Seq<char>, now: Seq<char>)
    ensures
        match normal_job(raw, true, fresh, now) {
            Some(j) => j.str_at("status"@) != "pending"@ && j.str_at("status"@) != "running"@,
            None => true,
        },
{
    broadcast use crate::value::group_fields;

    reveal_strlit("status");
    reveal_strlit("created_at");
    reveal_strlit("updated_at");
    reveal_strlit("total");
    reveal_strlit("completed");
    reveal_strlit("added");
    reveal_strlit("skipped");
    reveal_strlit("refreshed");
    reveal_strlit("failed");
    reveal_strlit("errors");
    reveal_strlit("pending");
    reveal_strlit("running");
    assert("status"@.len() == 6);
    assert("created_at"@.len() == 10);
    assert("updated_at"@.len() == 10);
    assert("total"@.len() == 5);
    assert("completed"@.len() == 9);
    assert("added"@.len() == 5);
    assert("skipped"@.len() == 7);
    assert("refreshed"@.len() == 9);
    assert("failed"@[0] != "status"@[0]);
    assert("errors"@[0] != "status"@[0]);
    assert("pending"@.len() == 7);
    assert("running"@.len() == 7);
    assert("failed"@.len() == 6);
}

} // verus!
