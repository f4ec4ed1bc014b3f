//! Image tasks: what clients asked for, how far it is, and what came of it.
use vstd::prelude::*;

use crate::account::{merge_objects, merged};
use crate::accounts_api::{filled_trimmed, trim_filled};
use crate::assoc::{lemma_lookup_put, lookup, put_entry};
use crate::clock::{local_second, naive_moment, read_moment, read_naive, rfc3339_moment, Moment};
use crate::content_filter::field_position;
use crate::image_tags::lemma_lookup_at;
use crate::error::{message_detail, AppError};
use crate::json::{clean_from, copy_list, set_field};
use crate::sorting::{newest_order, sort_newest, sorted};
use crate::text::{
    cat, cat3, deduped, prefix_chars, push_new, replace_char, replaced, same, starts_with, trim,
    trimmed, views,
};
use crate::value::{
    clean_text, compact, empty_object, fields_view, int_json, list_view, opt_view, or_else, texts_json, Json,
    JsonView, Number, NumberView,
};

verus! {

broadcast use crate::value::group_json;

// ---------------------------------------------------------------------------
// readings
// ---------------------------------------------------------------------------

/// Whether a number is zero.
pub open spec fn is_zero(n: NumberView) -> bool {
    match n.int {
        Some(i) => i == 0,
        None => n.text == "0.0"@ || n.text == "-0.0"@,
    }
}

fn zero(n: &Number) -> (r: bool)
    ensures
        r == is_zero(n@),
{
    match n.int {
        Some(i) => i == 0,
        None => same(n.text.as_str(), "0.0") || same(n.text.as_str(), "-0.0"),
    }
}

/// Whether a value is a number above zero.
pub open spec fn is_positive(v: JsonView) -> bool {
    match v {
        JsonView::Num(n) => match n.int {
            Some(i) => i > 0,
            None => !crate::text::begins(n.text, "-"@) && n.text != "0.0"@,
        },
        _ => false,
    }
}

fn positive(v: &Json) -> (r: bool)
    ensures
        r == is_positive(v@),
{
    match v {
        Json::Num(n) => match n.int {
            Some(i) => i > 0,
            None => !starts_with(n.text.as_str(), "-") && !same(n.text.as_str(), "0.0"),
        },
        _ => false,
    }
}

/// The text of a value, without the white space round it; `default` for none, `null`, `false`,
/// zero and blank text.
pub open spec fn cleaned_value(v: Option<JsonView>, default: Seq<char>) -> Seq<char> {
    let raw = match v {
        Some(JsonView::Str(s)) => s,
        None => default,
        Some(JsonView::Null) => default,
        Some(JsonView::Bool(b)) => if b {
            compact(JsonView::Bool(b))
        } else {
            default
        },
        Some(JsonView::Num(n)) => if is_zero(n) {
            default
        } else {
            compact(JsonView::Num(n))
        },
        Some(other) => compact(other),
    };
    or_else(trimmed(raw), trimmed(default))
}

/// Reads [`cleaned_value`].
pub fn clean_value(value: Option<&Json>, default: &str) -> (r: String)
    ensures
        r@ == cleaned_value(opt_view(value), default@),
{
    let raw = match value {
        Some(Json::Str(s)) => s.clone(),
        None => default.to_owned(),
        Some(Json::Null) => default.to_owned(),
        Some(Json::Bool(b)) => {
            if *b {
                Json::Bool(*b).to_text()
            } else {
                default.to_owned()
            }
        },
        Some(Json::Num(n)) => {
            if zero(n) {
                default.to_owned()
            } else {
                value.unwrap().to_text()
            }
        },
        Some(other) => other.to_text(),
    };
    let t = trim(raw.as_str());
    if t.as_str().is_empty() {
        trim(default)
    } else {
        t
    }
}

/// The owner that tasks of an identity belong to.
pub open spec fn owner_of(identity: JsonView) -> Seq<char> {
    or_else(cleaned_value(identity.get("id"@), ""@), "anonymous"@)
}

/// Reads [`owner_of`].
pub fn owner_id(identity: &Json) -> (r: String)
    ensures
        r@ == owner_of(identity@),
{
    crate::json::non_empty_or(clean_value(identity.get("id"), ""), "anonymous")
}

/// The key of a task: its owner and its id.
pub open spec fn key_of(owner: Seq<char>, id: Seq<char>) -> Seq<char> {
    owner + ":"@ + id
}

/// Makes [`key_of`].
pub fn task_key(owner_id: &str, task_id: &str) -> (r: String)
    ensures
        r@ == key_of(owner_id@, task_id@),
{
    cat3(owner_id, ":", task_id)
}

/// The plain times that a text can be read as: with a space, or with a `T`, between date and time.
pub open spec fn plain_readings(s: Seq<char>) -> Seq<Option<Moment>> {
    let head = s.take(
        if s.len() < 26 {
            s.len() as int
        } else {
            26
        },
    );
    let short = s.take(
        if s.len() < 19 {
            s.len() as int
        } else {
            19
        },
    );
    seq![
        naive_moment(short, "%Y-%m-%d %H:%M:%S"@),
        naive_moment(head, "%Y-%m-%dT%H:%M:%S%.f"@),
        naive_moment(head, "%Y-%m-%dT%H:%M:%S"@),
    ]
}

/// The second of a text: the first of its plain times that is a single second on the local
/// clock, else that of an RFC 3339 time, else zero.
pub open spec fn settled(locals: Seq<Option<i64>>, s: Seq<char>) -> i64
    decreases locals.len(),
{
    if locals.len() == 0 {
        match rfc3339_moment(replaced(s, 'Z', "+00:00"@)) {
            Some(m) => m.secs,
            None => 0,
        }
    } else {
        match locals[0] {
            Some(t) => t,
            None => settled(locals.drop_first(), s),
        }
    }
}

/// Settles the second of a text, given the seconds of its plain times.
pub fn settle(locals: &Vec<Option<i64>>, s: &str) -> (r: i64)
    ensures
        r == settled(locals@, s@),
{
    let mut i: usize = 0;
    assert(locals@.skip(0) =~= locals@);
    while i < locals.len()
        invariant
            i <= locals@.len(),
            settled(locals@, s@) == settled(locals@.skip(i as int), s@),
        decreases locals@.len() - i,
    {
        assert(locals@.skip(i as int).drop_first() =~= locals@.skip(i + 1));
        match locals[i] {
            Some(t) => {
                return t;
            },
            None => {},
        }
        i += 1;
    }
    match read_moment(replace_char(s, 'Z', "+00:00").as_str()) {
        Some(m) => m.secs,
        None => 0,
    }
}

fn local_of(m: Option<Moment>) -> (r: Option<i64>)
    ensures
        m is None ==> r is None,
{
    match m {
        Some(m) => local_second(m),
        None => None,
    }
}

/// Whether a time may stand for the second `r`. A time without a zone is on the local clock, and
/// nothing is said of its second; a time that cannot be read stands for zero.
pub open spec fn may_stamp(value: Option<JsonView>, r: i64) -> bool {
    match value {
        Some(JsonView::Str(raw)) => {
            let s = trimmed(raw);
            if s.len() == 0 {
                r == 0
            } else {
                exists|locals: Seq<Option<i64>>|
                    locals.len() == 3 && (forall|i: int|
                        0 <= i < 3 && plain_readings(s)[i] is None ==> #[trigger] locals[i] is None)
                        && r == #[trigger] settled(locals, s)
            }
        },
        _ => r == 0,
    }
}

/// Whether tasks may have been changed last in the seconds `stamps`, in order.
pub open spec fn may_stamp_all(tasks: Seq<(Seq<char>, JsonView)>, stamps: Seq<i64>) -> bool {
    &&& stamps.len() == tasks.len()
    &&& forall|i: int|
        0 <= i < tasks.len() ==> may_stamp(tasks[i].1.get("updated_at"@), #[trigger] stamps[i])
}

/// Reads a text as plain times, without the white space round it.
pub fn plain_times(s: &str) -> (r: Vec<Option<Moment>>)
    ensures
        r@ == plain_readings(trimmed(s@)),
{
    let t = trim(s);
    let head = prefix_chars(t.as_str(), 26);
    let short = prefix_chars(t.as_str(), 19);
    let mut out: Vec<Option<Moment>> = Vec::new();
    out.push(read_naive(short.as_str(), "%Y-%m-%d %H:%M:%S"));
    out.push(read_naive(head.as_str(), "%Y-%m-%dT%H:%M:%S%.f"));
    out.push(read_naive(head.as_str(), "%Y-%m-%dT%H:%M:%S"));
    assert(out@ =~= plain_readings(t@));
    out
}

/// Reads the second that a time stands for: what [`settle`] makes of the seconds that its plain
/// times are on the local clock.
pub fn parse_timestamp(value: Option<&Json>) -> (r: i64)
    ensures
        may_stamp(opt_view(value), r),
{
    let s = match value {
        Some(Json::Str(s)) => trim(s.as_str()),
        _ => {
            return 0;
        },
    };
    if s.as_str().is_empty() {
        return 0;
    }
    let plain = plain_times(s.as_str());
    proof {
        crate::account_laws::lemma_trimmed_bare(value->0->Str_0@);
    }
    let mut locals: Vec<Option<i64>> = Vec::new();
    locals.push(local_of(plain[0]));
    locals.push(local_of(plain[1]));
    locals.push(local_of(plain[2]));
    let r = settle(&locals, s.as_str());
    assert(r == settled(locals@, s@));
    r
}

/// The addresses of images.
pub open spec fn image_address() -> spec_fn(JsonView) -> Option<Seq<char>> {
    |it: JsonView|
        if it.str_at("url"@).len() > 0 {
            Some(it.str_at("url"@))
        } else {
            None
        }
}

/// Collects the addresses of images.
pub fn collect_image_urls(data: &Vec<Json>) -> (r: Vec<String>)
    ensures
        views(r@) == list_view(data@).filter_map(image_address()),
{
    let ghost v = list_view(data@);
    let ghost f = image_address();
    let mut out: Vec<String> = Vec::new();
    let mut i: usize = 0;
    assert(v.take(0).filter_map(f) =~= Seq::empty());
    assert(views(out@) =~= Seq::empty());
    while i < data.len()
        invariant
            i <= data@.len(),
            v == list_view(data@),
            f == image_address(),
            views(out@) == v.take(i as int).filter_map(f),
        decreases data@.len() - i,
    {
        proof {
            v.lemma_filter_map_take_succ(f, i as int);
        }
        let ghost done = views(out@);
        let url = data[i].str_at("url");
        if !url.as_str().is_empty() {
            let ghost u = url@;
            out.push(url);
            assert(views(out@) =~= done + seq![u]);
        }
        assert(views(out@) =~= v.take(i + 1).filter_map(f));
        i += 1;
    }
    assert(v.take(i as int) =~= v);
    out
}

/// Keeps each text where it first stands.
pub fn dedupe(values: &Vec<String>) -> (r: Vec<String>)
    ensures
        views(r@) == deduped(views(values@)),
{
    let ghost v = views(values@);
    let mut out: Vec<String> = Vec::new();
    let mut i: usize = 0;
    assert(views(out@) =~= Seq::empty());
    while i < values.len()
        invariant
            i <= values@.len(),
            v == views(values@),
            views(out@) == deduped(v.take(i as int)),
        decreases values@.len() - i,
    {
        assert(v.take(i + 1).drop_last() =~= v.take(i as int));
        push_new(&mut out, values[i].as_str());
        i += 1;
    }
    assert(v.take(i as int) =~= v);
    out
}

// ---------------------------------------------------------------------------
// tasks
// ---------------------------------------------------------------------------

/// `o` with the field `k` of `t`, where that is a text that is not empty.
pub open spec fn with_filled(o: JsonView, t: JsonView, k: Seq<char>) -> JsonView {
    if t.str_at(k).len() > 0 {
        o.put(k, t.at(k))
    } else {
        o
    }
}

/// `o` with the field `k` of `t`, where that is there and not `null`.
pub open spec fn with_present(o: JsonView, t: JsonView, k: Seq<char>) -> JsonView {
    if t.at(k) is Null {
        o
    } else {
        o.put(k, t.at(k))
    }
}

fn put_filled(o: &mut Json, t: &Json, k: &str)
    ensures
        final(o)@ == with_filled(old(o)@, t@, k@),
{
    if !t.str_at(k).as_str().is_empty() {
        o.set(k, t.at(k));
    }
}

fn put_present(o: &mut Json, t: &Json, k: &str)
    ensures
        final(o)@ == with_present(old(o)@, t@, k@),
{
    let v = t.at(k);
    if !v.is_null() {
        o.set(k, v);
    }
}

/// What clients see of a task, but for how long it has taken.
pub open spec fn public_part(t: JsonView) -> JsonView {
    let o = empty_object().put("id"@, t.at("id"@)).put("status"@, t.at("status"@)).put(
        "mode"@,
        t.at("mode"@),
    ).put("model"@, t.at("model"@)).put("size"@, t.at("size"@)).put(
        "quality"@,
        t.at("quality"@),
    ).put("created_at"@, t.at("created_at"@)).put("updated_at"@, t.at("updated_at"@));
    let o = with_filled(o, t, "conversation_id"@);
    let o = with_present(o, t, "data"@);
    let o = with_present(o, t, "usage"@);
    let o = with_filled(o, t, "error"@);
    let o = with_filled(o, t, "progress"@);
    with_present(o, t, "duration_ms"@)
}

/// The time since which a task waits or runs, where it does and the time is known.
pub open spec fn since_of(t: JsonView) -> Option<JsonView> {
    let status = t.str_at("status"@);
    let base = if status == "running"@ {
        t.at("started_ts"@)
    } else if status == "queued"@ {
        if is_positive(t.at("created_ts"@)) {
            t.at("created_ts"@)
        } else {
            t.at("updated_ts"@)
        }
    } else {
        JsonView::Null
    };
    if is_positive(base) {
        Some(base)
    } else {
        None
    }
}

/// A task as clients see it, and the time since which it waits or runs.
pub struct PublicTask {
    pub task: Json,
    pub since: Option<Json>,
}

impl View for PublicTask {
    type V = (JsonView, Option<JsonView>);

    open spec fn view(&self) -> (JsonView, Option<JsonView>) {
        (
            self.task@,
            match self.since {
                Some(s) => Some(s@),
                None => None,
            },
        )
    }
}

/// The models of tasks as clients see them.
pub open spec fn tasks_view(v: Seq<PublicTask>) -> Seq<(JsonView, Option<JsonView>)> {
    v.map_values(|t: PublicTask| t@)
}

/// What clients see of a task.
pub open spec fn shown(t: JsonView) -> (JsonView, Option<JsonView>) {
    (public_part(t), since_of(t))
}

/// Shows a task.
pub fn public_task(task: &Json) -> (r: PublicTask)
    ensures
        r@ == shown(task@),
{
    let mut o = Json::object();
    o.set("id", task.at("id"));
    o.set("status", task.at("status"));
    o.set("mode", task.at("mode"));
    o.set("model", task.at("model"));
    o.set("size", task.at("size"));
    o.set("quality", task.at("quality"));
    o.set("created_at", task.at("created_at"));
    o.set("updated_at", task.at("updated_at"));
    put_filled(&mut o, task, "conversation_id");
    put_present(&mut o, task, "data");
    put_present(&mut o, task, "usage");
    put_filled(&mut o, task, "error");
    put_filled(&mut o, task, "progress");
    put_present(&mut o, task, "duration_ms");
    let status = task.str_at("status");
    let base = if same(status.as_str(), "running") {
        task.at("started_ts")
    } else if same(status.as_str(), "queued") {
        let created = task.at("created_ts");
        if positive(&created) {
            created
        } else {
            task.at("updated_ts")
        }
    } else {
        Json::Null
    };
    PublicTask {
        task: o,
        since: if positive(&base) {
            Some(base)
        } else {
            None
        },
    }
}

/// Whether a status is one that tasks have.
pub open spec fn known_status(s: Seq<char>) -> bool {
    s == "queued"@ || s == "running"@ || s == "success"@ || s == "error"@
}

/// A task as it is read from a stored item; none for an item that is no object or lacks an id or
/// an owner.
pub open spec fn loaded_task(item: JsonView, now: Seq<char>) -> Option<(Seq<char>, JsonView)> {
    let id = cleaned_value(item.get("id"@), ""@);
    let owner = cleaned_value(item.get("owner_id"@), ""@);
    let status = cleaned_value(item.get("status"@), ""@);
    let created = cleaned_value(item.get("created_at"@), now);
    let error = cleaned_value(item.get("error"@), ""@);
    if !(item is Obj) || id.len() == 0 || owner.len() == 0 {
        None
    } else {
        let o = empty_object().put("id"@, JsonView::Str(id)).put(
            "owner_id"@,
            JsonView::Str(owner),
        ).put(
            "status"@,
            JsonView::Str(
                if known_status(status) {
                    status
                } else {
                    "error"@
                },
            ),
        ).put(
            "mode"@,
            JsonView::Str(
                if item.str_at("mode"@) == "edit"@ {
                    "edit"@
                } else {
                    "generate"@
                },
            ),
        ).put("model"@, JsonView::Str(cleaned_value(item.get("model"@), "gpt-image-2"@))).put(
            "size"@,
            JsonView::Str(cleaned_value(item.get("size"@), ""@)),
        ).put("quality"@, JsonView::Str(cleaned_value(item.get("quality"@), "auto"@))).put(
            "created_at"@,
            JsonView::Str(created),
        ).put("updated_at"@, JsonView::Str(cleaned_value(item.get("updated_at"@), created))).put(
            "created_ts"@,
            item.at("created_ts"@),
        ).put("updated_ts"@, item.at("updated_ts"@)).put("started_ts"@, item.at("started_ts"@)).put(
            "duration_ms"@,
            item.at("duration_ms"@),
        );
        let o = if item.at("data"@) is Arr {
            o.put("data"@, item.at("data"@))
        } else {
            o
        };
        let o = if item.at("usage"@) is Obj {
            o.put("usage"@, item.at("usage"@))
        } else {
            o
        };
        Some(
            (
                key_of(owner, id),
                if error.len() > 0 {
                    o.put("error"@, JsonView::Str(error))
                } else {
                    o
                },
            ),
        )
    }
}

fn load_task(item: &Json, now: &str) -> (r: Option<(String, Json)>)
    ensures
        match r {
            Some(t) => loaded_task(item@, now@) == Some((t.0@, t.1@)),
            None => loaded_task(item@, now@) is None,
        },
{
    if !item.is_object() {
        return None;
    }
    let id = clean_value(item.get("id"), "");
    let owner = clean_value(item.get("owner_id"), "");
    if id.as_str().is_empty() || owner.as_str().is_empty() {
        return None;
    }
    let key = task_key(owner.as_str(), id.as_str());
    let raw = clean_value(item.get("status"), "");
    let status = if same(raw.as_str(), "queued") || same(raw.as_str(), "running") || same(
        raw.as_str(),
        "success",
    ) || same(raw.as_str(), "error") {
        raw
    } else {
        "error".to_owned()
    };
    let mode = if same(item.str_at("mode").as_str(), "edit") {
        "edit"
    } else {
        "generate"
    };
    let created = clean_value(item.get("created_at"), now);
    let updated = clean_value(item.get("updated_at"), created.as_str());
    let mut o = Json::object();
    o.set("id", Json::Str(id));
    o.set("owner_id", Json::Str(owner));
    o.set("status", Json::Str(status));
    o.set("mode", Json::from_text(mode));
    o.set("model", Json::Str(clean_value(item.get("model"), "gpt-image-2")));
    o.set("size", Json::Str(clean_value(item.get("size"), "")));
    o.set("quality", Json::Str(clean_value(item.get("quality"), "auto")));
    o.set("created_at", Json::Str(created));
    o.set("updated_at", Json::Str(updated));
    o.set("created_ts", item.at("created_ts"));
    o.set("updated_ts", item.at("updated_ts"));
    o.set("started_ts", item.at("started_ts"));
    o.set("duration_ms", item.at("duration_ms"));
    let data = item.at("data");
    let is_list = match &data {
        Json::Arr(_) => true,
        _ => false,
    };
    if is_list {
        o.set("data", data);
    }
    let usage = item.at("usage");
    if usage.is_object() {
        o.set("usage", usage);
    }
    let error = clean_value(item.get("error"), "");
    if !error.as_str().is_empty() {
        o.set("error", Json::Str(error));
    }
    Some((key, o))
}

/// The tasks of stored items, a later one in the place of an earlier one with its key.
pub open spec fn loaded_tasks(items: Seq<JsonView>, now: Seq<char>) -> Seq<(Seq<char>, JsonView)>
    decreases items.len(),
{
    if items.len() == 0 {
        Seq::empty()
    } else {
        let rest = loaded_tasks(items.drop_last(), now);
        match loaded_task(items.last(), now) {
            Some(t) => put_entry(rest, t.0, t.1),
            None => rest,
        }
    }
}

/// The stored items of a document: the list under `tasks`, or the document itself.
pub open spec fn stored_items(raw: JsonView) -> Seq<JsonView> {
    match raw {
        JsonView::Arr(a) => a,
        JsonView::Obj(_) => raw.items_at("tasks"@),
        _ => Seq::empty(),
    }
}

/// Whether a task waits or runs.
pub open spec fn unfinished(t: JsonView) -> bool {
    t.str_at("status"@) == "queued"@ || t.str_at("status"@) == "running"@
}

fn is_unfinished(t: &Json) -> (r: bool)
    ensures
        r == unfinished(t@),
{
    let s = t.str_at("status");
    same(s.as_str(), "queued") || same(s.as_str(), "running")
}

/// What is said of a task that a restart broke off.
pub open spec fn recover_message() -> Seq<char> {
    "服务已重启，未完成的图片任务已中断"@
}

/// A task after a restart: one that waited or ran has failed.
pub open spec fn recovered(t: JsonView, now: Seq<char>) -> JsonView {
    if unfinished(t) {
        t.put("status"@, JsonView::Str("error"@)).put("error"@, JsonView::Str(recover_message())).put(
            "updated_at"@,
            JsonView::Str(now),
        )
    } else {
        t
    }
}

/// Tasks after a restart.
pub open spec fn recovered_tasks(
    tasks: Seq<(Seq<char>, JsonView)>,
    now: Seq<char>,
) -> Seq<(Seq<char>, JsonView)> {
    tasks.map_values(|t: (Seq<char>, JsonView)| (t.0, recovered(t.1, now)))
}

/// Whether a task that ended is older than the days that tasks are kept, at least one.
pub open spec fn expired(t: JsonView, stamp: i64, days: i64, now: Moment) -> bool {
    let kept = if days < 1 {
        1
    } else {
        days as int
    };
    (t.str_at("status"@) == "success"@ || t.str_at("status"@) == "error"@) && (stamp + kept * 86_400)
        * 1_000_000_000 < now.total()
}

fn is_expired(t: &Json, stamp: i64, days: i64, now: Moment) -> (r: bool)
    ensures
        r == expired(t@, stamp, days, now),
{
    let s = t.str_at("status");
    if !same(s.as_str(), "success") && !same(s.as_str(), "error") {
        return false;
    }
    let kept: i128 = if days < 1 {
        1
    } else {
        days as i128
    };
    let at: i128 = now.secs as i128 * 1_000_000_000 + now.nanos as i128;
    (stamp as i128 + kept * 86_400) * 1_000_000_000 < at
}

/// The tasks that are not expired; `stamps` are the seconds of their last changes.
pub open spec fn kept_tasks(
    tasks: Seq<(Seq<char>, JsonView)>,
    stamps: Seq<i64>,
    days: i64,
    now: Moment,
) -> Seq<(Seq<char>, JsonView)>
    decreases tasks.len(),
{
    if tasks.len() == 0 {
        Seq::empty()
    } else {
        let rest = kept_tasks(tasks.drop_last(), stamps, days, now);
        if expired(tasks.last().1, stamps[tasks.len() - 1], days, now) {
            rest
        } else {
            rest.push(tasks.last())
        }
    }
}

/// The task that is made for a request.
pub open spec fn queued_task(
    owner: Seq<char>,
    id: Seq<char>,
    mode: Seq<char>,
    model: Seq<char>,
    size: Seq<char>,
    quality: Seq<char>,
    now: Seq<char>,
    now_ts: JsonView,
) -> JsonView {
    empty_object().put("id"@, JsonView::Str(id)).put("owner_id"@, JsonView::Str(owner)).put(
        "status"@,
        JsonView::Str("queued"@),
    ).put("mode"@, JsonView::Str(mode)).put(
        "model"@,
        JsonView::Str(or_else(trimmed(model), "gpt-image-2"@)),
    ).put("size"@, JsonView::Str(trimmed(size))).put(
        "quality"@,
        JsonView::Str(or_else(trimmed(quality), "auto"@)),
    ).put("created_at"@, JsonView::Str(now)).put("updated_at"@, JsonView::Str(now)).put(
        "created_ts"@,
        now_ts,
    )
}

/// A request for images, as it is run.
pub struct TaskRequest {
    pub model: String,
    pub prompt: String,
    pub images: Option<Vec<String>>,
    pub n: usize,
    pub size: Option<String>,
    pub quality: String,
    pub response_format: String,
    pub base_url: Option<String>,
}

fn filled_or_none(s: &str) -> (r: Option<String>)
    ensures
        if trimmed(s@).len() == 0 {
            r is None
        } else {
            r matches Some(t) && t@ == s@
        },
{
    if trim(s).as_str().is_empty() {
        None
    } else {
        Some(s.to_owned())
    }
}

/// Makes the request that a task runs: one image, given by its address; blank settings are left
/// out.
pub fn task_request(
    prompt: &str,
    model: &str,
    size: Option<&str>,
    quality: &str,
    base_url: &str,
    images: Option<Vec<String>>,
) -> (r: TaskRequest)
    ensures
        r.model@ == model@,
        r.prompt@ == prompt@,
        r.images == images,
        r.n == 1,
        match size {
            Some(s) => if trimmed(s@).len() == 0 {
                r.size is None
            } else {
                r.size is Some && r.size->0@ == s@
            },
            None => r.size is None,
        },
        r.quality@ == (if trimmed(quality@).len() == 0 {
            "auto"@
        } else {
            quality@
        }),
        r.response_format@ == "url"@,
        if trimmed(base_url@).len() == 0 {
            r.base_url is None
        } else {
            r.base_url is Some && r.base_url->0@ == base_url@
        },
{
    TaskRequest {
        model: model.to_owned(),
        prompt: prompt.to_owned(),
        images,
        n: 1,
        size: match size {
            Some(s) => filled_or_none(s),
            None => None,
        },
        quality: if trim(quality).as_str().is_empty() {
            "auto".to_owned()
        } else {
            quality.to_owned()
        },
        response_format: "url".to_owned(),
        base_url: filled_or_none(base_url),
    }
}

/// The size that a request asks for; empty where it asks for none.
pub open spec fn size_of(request: TaskRequest) -> Seq<char> {
    match request.size {
        Some(s) => s@,
        None => Seq::empty(),
    }
}

fn new_task(owner: &str, id: &str, mode: &str, request: &TaskRequest, now: &str, now_ts: Json) -> (r:
    Json)
    ensures
        r@ == queued_task(
            owner@,
            id@,
            mode@,
            request.model@,
            size_of(*request),
            request.quality@,
            now@,
            now_ts@,
        ),
{
    let size = match &request.size {
        Some(s) => trim(s.as_str()),
        None => {
            proof {
                reveal_strlit("");
                assert(""@ =~= Seq::empty());
            }
            trim("")
        },
    };
    let model = crate::json::non_empty_or(trim(request.model.as_str()), "gpt-image-2");
    let quality = crate::json::non_empty_or(trim(request.quality.as_str()), "auto");
    let mut t = Json::object();
    t.set("id", Json::from_text(id));
    t.set("owner_id", Json::from_text(owner));
    t.set("status", Json::from_text("queued"));
    t.set("mode", Json::from_text(mode));
    t.set("model", Json::Str(model));
    t.set("size", Json::Str(size));
    t.set("quality", Json::Str(quality));
    t.set("created_at", Json::from_text(now));
    t.set("updated_at", Json::from_text(now));
    t.set("created_ts", now_ts);
    t
}

/// What comes of a request for a task.
pub enum Submitted {
    /// It is refused: it has no id.
    Refused(Json),
    /// Its task was there already.
    Known(PublicTask),
    /// Its task was made, and is to be run under a key.
    Started(String, PublicTask),
}

/// The tasks of an owner.
pub open spec fn owned(owner: Seq<char>) -> spec_fn((Seq<char>, JsonView)) -> Option<JsonView> {
    |t: (Seq<char>, JsonView)|
        if t.1.get("owner_id"@) == Some(JsonView::Str(owner)) {
            Some(t.1)
        } else {
            None
        }
}

/// The tasks that are there under ids.
pub open spec fn found_task(
    tasks: Seq<(Seq<char>, JsonView)>,
    owner: Seq<char>,
) -> spec_fn(Seq<char>) -> Option<(JsonView, Option<JsonView>)> {
    |id: Seq<char>|
        match lookup(tasks, key_of(owner, id)) {
            Some(t) => Some(shown(t)),
            None => None,
        }
}

/// Whether there is no task under an id.
pub open spec fn missing_task(
    tasks: Seq<(Seq<char>, JsonView)>,
    owner: Seq<char>,
) -> spec_fn(Seq<char>) -> bool {
    |id: Seq<char>| lookup(tasks, key_of(owner, id)) is None
}

/// Tasks as they are listed, and the ids under which there are none.
pub struct Listing {
    pub items: Vec<PublicTask>,
    pub missing_ids: Vec<String>,
}

/// The listing as it is answered, once `items` say how long they have taken.
pub fn listing_value(items: Vec<Json>, missing_ids: &Vec<String>) -> (r: Json)
    ensures
        r@ == empty_object().put("items"@, JsonView::Arr(list_view(items@))).put(
            "missing_ids"@,
            texts_json(views(missing_ids@)),
        ),
{
    let mut o = Json::object();
    o.set("items", Json::Arr(items));
    o.set("missing_ids", Json::from_texts(missing_ids));
    o
}

/// The tasks, under their keys.
pub struct ImageTaskService {
    tasks: Vec<(String, Json)>,
}

impl ImageTaskService {
    /// The tasks, in order.
    pub closed spec fn entries(self) -> Seq<(Seq<char>, JsonView)> {
        fields_view(self.tasks@)
    }

    /// Reads the tasks that a document holds.
    pub fn load_tasks(raw: &Json, now: &str) -> (r: ImageTaskService)
        ensures
            r.entries() == loaded_tasks(stored_items(raw@), now@),
    {
        let items: Vec<Json> = match raw {
            Json::Arr(a) => copy_list(a),
            Json::Obj(_) => {
                match raw.get("tasks") {
                    Some(Json::Arr(a)) => copy_list(a),
                    _ => Vec::new(),
                }
            },
            _ => Vec::new(),
        };
        let ghost v = list_view(items@);
        assert(v =~= stored_items(raw@));
        let mut tasks: Vec<(String, Json)> = Vec::new();
        let mut i: usize = 0;
        assert(fields_view(tasks@) =~= Seq::empty());
        while i < items.len()
            invariant
                i <= items@.len(),
                v == list_view(items@),
                fields_view(tasks@) == loaded_tasks(v.take(i as int), now@),
            decreases items@.len() - i,
        {
            assert(v.take(i + 1).drop_last() =~= v.take(i as int));
            assert(v.take(i + 1).last() == items@[i as int]@);
            match load_task(&items[i], now) {
                Some((k, t)) => {
                    set_field(&mut tasks, k.as_str(), t);
                },
                None => {},
            }
            i += 1;
        }
        assert(v.take(i as int) =~= v);
        ImageTaskService { tasks }
    }

    /// The document in which the tasks are stored: the last changed first.
    pub fn save_tasks(&self) -> (r: Json)
        ensures
            r@ == empty_object().put(
                "tasks"@,
                JsonView::Arr(
                    sorted(
                        self.entries().map_values(|t: (Seq<char>, JsonView)| t.1),
                        newest_order("updated_at"@),
                    ),
                ),
            ),
    {
        let ghost want = self.entries().map_values(|t: (Seq<char>, JsonView)| t.1);
        let mut all: Vec<Json> = Vec::new();
        let mut i: usize = 0;
        while i < self.tasks.len()
            invariant
                i <= self.tasks@.len(),
                want == self.entries().map_values(|t: (Seq<char>, JsonView)| t.1),
                list_view(all@) =~= want.take(i as int),
            decreases self.tasks@.len() - i,
        {
            let ghost done = list_view(all@);
            all.push(self.tasks[i].1.copy());
            assert(list_view(all@) =~= done.push(want[i as int]));
            i += 1;
        }
        assert(list_view(all@) =~= want);
        let mut o = Json::object();
        o.set("tasks", Json::Arr(sort_newest(&all, "updated_at")));
        o
    }

    fn find(&self, key: &str) -> (r: Option<Json>)
        ensures
            match r {
                Some(v) => lookup(self.entries(), key@) == Some(v@),
                None => lookup(self.entries(), key@) is None,
            },
    {
        let i = field_position(&self.tasks, key);
        proof {
            lemma_lookup_at(self.entries(), key@, i as int);
        }
        if i < self.tasks.len() {
            assert(self.entries()[i as int].1 == self.tasks@[i as int].1@);
            Some(self.tasks[i].1.copy())
        } else {
            None
        }
    }

    /// Fails the tasks that waited or ran, and tells whether there were any.
    pub fn recover_unfinished(&mut self, now: &str) -> (r: bool)
        ensures
            final(self).entries() == recovered_tasks(old(self).entries(), now@),
            r == exists|i: int|
                0 <= i < old(self).entries().len() && unfinished(
                    (#[trigger] old(self).entries()[i]).1,
                ),
    {
        let ghost es = self.entries();
        let ghost want = recovered_tasks(es, now@);
        let mut out: Vec<(String, Json)> = Vec::new();
        let mut changed = false;
        let mut i: usize = 0;
        while i < self.tasks.len()
            invariant
                i <= self.tasks@.len(),
                es == self.entries(),
                es == old(self).entries(),
                want == recovered_tasks(es, now@),
                fields_view(out@) =~= want.take(i as int),
                changed == exists|j: int| 0 <= j < i && unfinished((#[trigger] es[j]).1),
            decreases self.tasks@.len() - i,
        {
            let ghost done = fields_view(out@);
            assert(es[i as int].1 == self.tasks@[i as int].1@);
            let mut t = self.tasks[i].1.copy();
            if is_unfinished(&t) {
                t.set("status", Json::from_text("error"));
                t.set("error", Json::from_text("服务已重启，未完成的图片任务已中断"));
                t.set("updated_at", Json::from_text(now));
                changed = true;
            }
            out.push((self.tasks[i].0.clone(), t));
            assert(fields_view(out@) =~= done.push(want[i as int]));
            i += 1;
        }
        assert(fields_view(out@) =~= want);
        self.tasks = out;
        changed
    }

    /// The seconds of the last changes of the tasks, in order; what a time without a zone stands
    /// for is left to the local clock.
    pub fn stamps(&self) -> (r: Vec<i64>)
        ensures
            may_stamp_all(self.entries(), r@),
    {
        let mut out: Vec<i64> = Vec::new();
        let mut i: usize = 0;
        while i < self.tasks.len()
            invariant
                i <= self.tasks@.len(),
                out@.len() == i,
                forall|j: int|
                    0 <= j < i ==> may_stamp(
                        self.entries()[j].1.get("updated_at"@),
                        #[trigger] out@[j],
                    ),
            decreases self.tasks@.len() - i,
        {
            out.push(parse_timestamp(self.tasks[i].1.get("updated_at")));
            i += 1;
        }
        out
    }

    /// Forgets the tasks that are expired, and tells whether there were any; `stamps` are the
    /// seconds of their last changes.
    pub fn cleanup_tasks(&mut self, stamps: &Vec<i64>, retention_days: i64, now: Moment) -> (r: bool)
        requires
            stamps@.len() == old(self).entries().len(),
        ensures
            final(self).entries() == kept_tasks(old(self).entries(), stamps@, retention_days, now),
            r == (final(self).entries().len() < old(self).entries().len()),
    {
        let ghost es = self.entries();
        let mut out: Vec<(String, Json)> = Vec::new();
        let mut removed = false;
        let mut i: usize = 0;
        assert(fields_view(out@) =~= Seq::empty());
        while i < self.tasks.len()
            invariant
                i <= self.tasks@.len(),
                es == self.entries(),
                es == old(self).entries(),
                stamps@.len() == es.len(),
                fields_view(out@) == kept_tasks(es.take(i as int), stamps@, retention_days, now),
                out@.len() <= i,
                removed == (out@.len() < i),
            decreases self.tasks@.len() - i,
        {
            assert(es.take(i + 1).drop_last() =~= es.take(i as int));
            assert(es.take(i + 1).last() == (self.tasks@[i as int].0@, self.tasks@[i as int].1@));
            let ghost done = fields_view(out@);
            if is_expired(&self.tasks[i].1, stamps[i], retention_days, now) {
                removed = true;
            } else {
                out.push((self.tasks[i].0.clone(), self.tasks[i].1.copy()));
                assert(fields_view(out@) =~= done.push(es[i as int]));
            }
            i += 1;
        }
        assert(es.take(i as int) =~= es);
        self.tasks = out;
        assert(self.entries().len() == self.tasks@.len());
        removed
    }

    /// Forgets the tasks that are expired now.
    pub fn cleanup(&mut self, retention_days: i64, now: Moment) -> (r: bool)
        ensures
            exists|stamps: Seq<i64>| #[trigger]
                kept_tasks(old(self).entries(), stamps, retention_days, now)
                    == final(self).entries() && may_stamp_all(old(self).entries(), stamps),
            r == (final(self).entries().len() < old(self).entries().len()),
    {
        let stamps = self.stamps();
        self.cleanup_tasks(&stamps, retention_days, now)
    }

    /// Takes a request for a task: the task that is there under its key, or a new one that
    /// waits. Expired tasks are to be forgotten before.
    pub fn submit(
        &mut self,
        identity: &Json,
        client_task_id: &str,
        mode: &str,
        request: &TaskRequest,
        now: &str,
        now_ts: Json,
    ) -> (r: Submitted)
        ensures
            ({
                let id = trimmed(client_task_id@);
                let owner = owner_of(identity@);
                let key = key_of(owner, id);
                let task = queued_task(
                    owner,
                    id,
                    mode@,
                    request.model@,
                    size_of(*request),
                    request.quality@,
                    now@,
                    now_ts@,
                );
                if id.len() == 0 {
                    &&& r matches Submitted::Refused(e) && e@ == empty_object().put(
                        "error"@,
                        JsonView::Str("client_task_id is required"@),
                    )
                    &&& final(self).entries() == old(self).entries()
                } else {
                    match lookup(old(self).entries(), key) {
                        Some(t) => {
                            &&& r matches Submitted::Known(p) && p@ == shown(t)
                            &&& final(self).entries() == old(self).entries()
                        },
                        None => {
                            &&& r matches Submitted::Started(k, p) && k@ == key && p@ == shown(task)
                            &&& final(self).entries() == put_entry(old(self).entries(), key, task)
                        },
                    }
                }
            }),
            r matches Submitted::Started(k, p) ==> {
                let t = lookup(final(self).entries(), k@)->0;
                &&& lookup(old(self).entries(), k@) is None
                &&& lookup(final(self).entries(), k@) is Some
                &&& t.str_at("status"@) == "queued"@
                &&& t.str_at("id"@) == trimmed(client_task_id@)
                &&& t.str_at("owner_id"@) == owner_of(identity@)
                &&& t.str_at("mode"@) == mode@
                &&& trimmed(request.model@).len() > 0 ==> t.str_at("model"@) == trimmed(request.model@)
                &&& request.size matches Some(s) ==> t.str_at("size"@) == trimmed(s@)
                &&& k@ == owner_of(identity@) + ":"@ + trimmed(client_task_id@)
            },
            !(r is Started) ==> final(self).entries() == old(self).entries(),
    {
        let ghost stamp = now_ts@;
        let id = trim(client_task_id);
        if id.as_str().is_empty() {
            let mut o = Json::object();
            o.set("error", Json::from_text("client_task_id is required"));
            return Submitted::Refused(o);
        }
        let owner = owner_id(identity);
        let key = task_key(owner.as_str(), id.as_str());
        match self.find(key.as_str()) {
            Some(t) => {
                return Submitted::Known(public_task(&t));
            },
            None => {},
        }
        let t = new_task(owner.as_str(), id.as_str(), mode, request, now, now_ts);
        let p = public_task(&t);
        proof {
            crate::gallery_laws::law_queued_task(
                owner@,
                id@,
                mode@,
                request.model@,
                size_of(*request),
                request.quality@,
                now@,
                stamp,
            );
            crate::assoc::lemma_lookup_put(self.entries(), key@, t@, key@);
        }
        set_field(&mut self.tasks, key.as_str(), t);
        Submitted::Started(key, p)
    }

    /// Sets fields of a task, and notes when; tells whether the task is there.
    pub fn update_task(&mut self, key: &str, updates: &Json, now: &str, now_ts: Json) -> (r: bool)
        ensures
            match lookup(old(self).entries(), key@) {
                Some(JsonView::Obj(o)) => r && final(self).entries() == put_entry(
                    old(self).entries(),
                    key@,
                    merged(JsonView::Obj(o), updates@).put("updated_at"@, JsonView::Str(now@)).put(
                        "updated_ts"@,
                        now_ts@,
                    ),
                ),
                _ => !r && final(self).entries() == old(self).entries(),
            },
            r && updates@ is Obj && crate::assoc::distinct_names(updates@->Obj_0) ==> {
                let t = lookup(final(self).entries(), key@)->0;
                &&& lookup(final(self).entries(), key@) is Some
                &&& t.str_at("updated_at"@) == now@
                &&& updates@.get("status"@) is Some ==> t.get("status"@) == updates@.get("status"@)
                &&& updates@.get("data"@) is Some ==> t.get("data"@) == updates@.get("data"@)
                &&& updates@.get("error"@) is Some ==> t.get("error"@) == updates@.get("error"@)
            },
    {
        proof {
            broadcast use crate::value::group_fields;

            reveal_strlit("updated_at");
            reveal_strlit("updated_ts");
            reveal_strlit("status");
            reveal_strlit("data");
            reveal_strlit("error");
            assert("updated_at"@.len() == 10 && "updated_at"@[8] == 'a');
            assert("updated_ts"@.len() == 10 && "updated_ts"@[8] == 't');
            assert("status"@.len() == 6);
            assert("data"@.len() == 4);
            assert("error"@.len() == 5);
            match lookup(self.entries(), key@) {
                Some(JsonView::Obj(o)) => {
                    if updates@ is Obj && crate::assoc::distinct_names(updates@->Obj_0) {
                        let old_task = JsonView::Obj(o);
                        crate::pool_use_laws::law_merged_fields(old_task, updates@, "status"@);
                        crate::pool_use_laws::law_merged_fields(old_task, updates@, "data"@);
                        crate::pool_use_laws::law_merged_fields(old_task, updates@, "error"@);
                        let t = merged(old_task, updates@).put(
                            "updated_at"@,
                            JsonView::Str(now@),
                        ).put("updated_ts"@, now_ts@);
                        crate::assoc::lemma_lookup_put(self.entries(), key@, t, key@);
                    }
                },
                _ => {},
            }
        }
        match self.find(key) {
            Some(Json::Obj(o)) => {
                let mut t = merge_objects(Json::Obj(o), updates);
                t.set("updated_at", Json::from_text(now));
                t.set("updated_ts", now_ts);
                set_field(&mut self.tasks, key, t);
                true
            },
            _ => false,
        }
    }

    /// The tasks of an identity: those under the ids that are asked for, or all, the last changed
    /// first. Expired tasks are to be forgotten before.
    pub fn list_tasks(&self, identity: &Json, task_ids: &Vec<String>) -> (r: Listing)
        ensures
            ({
                let owner = owner_of(identity@);
                let ids = filled_trimmed(views(task_ids@));
                if ids.len() == 0 {
                    &&& tasks_view(r.items@) == sorted(
                        self.entries().filter_map(owned(owner)),
                        newest_order("updated_at"@),
                    ).map_values(|t: JsonView| shown(t))
                    &&& r.missing_ids@.len() == 0
                } else {
                    &&& tasks_view(r.items@) == ids.filter_map(found_task(self.entries(), owner))
                    &&& views(r.missing_ids@) == ids.filter(missing_task(self.entries(), owner))
                }
            }),
    {
        let owner = owner_id(identity);
        let ids = trim_filled(task_ids);
        assert(views(ids@).len() == ids@.len());
        if ids.len() == 0 {
            let mine = self.tasks_of(owner.as_str());
            let ordered = sort_newest(&mine, "updated_at");
            let ghost want = list_view(ordered@).map_values(|t: JsonView| shown(t));
            let mut items: Vec<PublicTask> = Vec::new();
            let mut i: usize = 0;
            while i < ordered.len()
                invariant
                    i <= ordered@.len(),
                    want == list_view(ordered@).map_values(|t: JsonView| shown(t)),
                    tasks_view(items@) =~= want.take(i as int),
                decreases ordered@.len() - i,
            {
                let ghost done = tasks_view(items@);
                items.push(public_task(&ordered[i]));
                assert(tasks_view(items@) =~= done.push(want[i as int]));
                i += 1;
            }
            assert(tasks_view(items@) =~= want);
            return Listing { items, missing_ids: Vec::new() };
        }
        let ghost v = views(ids@);
        let ghost f = found_task(self.entries(), owner@);
        let ghost keep = missing_task(self.entries(), owner@);
        let mut items: Vec<PublicTask> = Vec::new();
        let mut missing: Vec<String> = Vec::new();
        let mut i: usize = 0;
        assert(v.take(0).filter_map(f) =~= Seq::empty());
        assert(tasks_view(items@) =~= Seq::empty());
        proof {
            reveal(Seq::filter);
            assert(views(missing@) =~= v.take(0).filter(keep));
        }
        while i < ids.len()
            invariant
                i <= ids@.len(),
                v == views(ids@),
                f == found_task(self.entries(), owner@),
                keep == missing_task(self.entries(), owner@),
                tasks_view(items@) == v.take(i as int).filter_map(f),
                views(missing@) == v.take(i as int).filter(keep),
            decreases ids@.len() - i,
        {
            proof {
                v.lemma_filter_map_take_succ(f, i as int);
            }
            let ghost done = tasks_view(items@);
            let ghost gone = views(missing@);
            assert(v.take(i + 1).drop_last() =~= v.take(i as int));
            assert(v.take(i + 1).filter(keep) == if keep(v[i as int]) {
                gone.push(v[i as int])
            } else {
                gone
            }) by {
                reveal(Seq::filter);
            }
            let key = task_key(owner.as_str(), ids[i].as_str());
            match self.find(key.as_str()) {
                Some(t) => {
                    items.push(public_task(&t));
                    assert(tasks_view(items@) =~= done + seq![shown(t@)]);
                },
                None => {
                    missing.push(ids[i].clone());
                    assert(views(missing@) =~= gone.push(v[i as int]));
                },
            }
            assert(tasks_view(items@) =~= v.take(i + 1).filter_map(f));
            i += 1;
        }
        assert(v.take(i as int) =~= v);
        Listing { items, missing_ids: missing }
    }

    fn tasks_of(&self, owner: &str) -> (r: Vec<Json>)
        ensures
            list_view(r@) == self.entries().filter_map(owned(owner@)),
    {
        let ghost es = self.entries();
        let ghost f = owned(owner@);
        let mut out: Vec<Json> = Vec::new();
        let mut i: usize = 0;
        assert(es.take(0).filter_map(f) =~= Seq::empty());
        assert(list_view(out@) =~= Seq::empty());
        while i < self.tasks.len()
            invariant
                i <= self.tasks@.len(),
                es == self.entries(),
                f == owned(owner@),
                list_view(out@) == es.take(i as int).filter_map(f),
            decreases self.tasks@.len() - i,
        {
            proof {
                es.lemma_filter_map_take_succ(f, i as int);
            }
            let ghost done = list_view(out@);
            assert(es[i as int].1 == self.tasks@[i as int].1@);
            if crate::account::holds_at(&self.tasks[i].1, "owner_id", owner) {
                out.push(self.tasks[i].1.copy());
                assert(list_view(out@) =~= done + seq![es[i as int].1]);
            }
            assert(list_view(out@) =~= es.take(i + 1).filter_map(f));
            i += 1;
        }
        assert(es.take(i as int) =~= es);
        out
    }

    /// The task of an identity under an id.
    pub fn get_task(&self, identity: &Json, task_id: &str) -> (r: Option<PublicTask>)
        ensures
            match lookup(self.entries(), key_of(owner_of(identity@), trimmed(task_id@))) {
                Some(t) => r is Some && r->0@ == shown(t),
                None => r is None,
            },
    {
        let owner = owner_id(identity);
        match self.find(task_key(owner.as_str(), trim(task_id).as_str()).as_str()) {
            Some(t) => Some(public_task(&t)),
            None => None,
        }
    }
}

// ---------------------------------------------------------------------------
// requests
// ---------------------------------------------------------------------------

/// What a request for a task asks for.
pub struct TaskFields {
    pub client_task_id: String,
    pub prompt: String,
    pub model: String,
    pub size: Option<String>,
    pub quality: String,
}

/// Reads a request for a task: it needs an id, and, unless it edits images, a prompt.
pub fn read_task_fields(body: &Json, edit: bool) -> (r: Result<TaskFields, AppError>)
    ensures
        ({
            let id = clean_text(body@.get("client_task_id"@));
            let prompt = clean_text(body@.get("prompt"@));
            let size = clean_text(body@.get("size"@));
            if id.len() == 0 {
                r matches Err(e) && e.is_plain(400, message_detail("client_task_id is required"@))
            } else if !edit && prompt.len() == 0 {
                r matches Err(e) && e.is_plain(400, message_detail("prompt is required"@))
            } else {
                r matches Ok(f) && f.client_task_id@ == id && f.prompt@ == prompt && f.model@
                    == or_else(clean_text(body@.get("model"@)), "gpt-image-2"@) && f.quality@
                    == or_else(clean_text(body@.get("quality"@)), "auto"@) && (if size.len() == 0 {
                    f.size is None
                } else {
                    f.size is Some && f.size->0@ == size
                })
            }
        }),
{
    let client_task_id = clean_from(body.get("client_task_id"));
    if client_task_id.as_str().is_empty() {
        return Err(AppError::bad_request("client_task_id is required"));
    }
    let prompt = clean_from(body.get("prompt"));
    if !edit && prompt.as_str().is_empty() {
        return Err(AppError::bad_request("prompt is required"));
    }
    let size = clean_from(body.get("size"));
    Ok(
        TaskFields {
            client_task_id,
            prompt,
            model: crate::json::non_empty_or(clean_from(body.get("model")), "gpt-image-2"),
            size: if size.as_str().is_empty() {
                None
            } else {
                Some(size)
            },
            quality: crate::json::non_empty_or(clean_from(body.get("quality")), "auto"),
        },
    )
}

// ---------------------------------------------------------------------------
// runs
// ---------------------------------------------------------------------------

/// What is set on a task when it starts to run.
pub fn running_updates(started_ts: Json) -> (r: Json)
    ensures
        r@ == empty_object().put("status"@, JsonView::Str("running"@)).put(
            "error"@,
            JsonView::Str(""@),
        ).put("started_ts"@, started_ts@).put("progress"@, JsonView::Str("running"@)),
{
    let mut o = Json::object();
    o.set("status", Json::from_text("running"));
    o.set("error", Json::from_text(""));
    o.set("started_ts", started_ts);
    o.set("progress", Json::from_text("running"));
    o
}

/// How a run ended: what is set on its task, and what is logged.
pub struct RunEnd {
    pub updates: Json,
    pub suffix: String,
    pub status: String,
    pub error: String,
    pub urls: Vec<String>,
    pub account_email: String,
}

/// What is set on a task that failed.
pub open spec fn failed_updates(message: Seq<char>, duration_ms: int) -> JsonView {
    empty_object().put("status"@, JsonView::Str("error"@)).put("error"@, JsonView::Str(message)).put(
        "data"@,
        JsonView::Arr(Seq::empty()),
    ).put("duration_ms"@, int_json(duration_ms))
}

fn fail_updates(message: &str, duration_ms: i64) -> (r: Json)
    ensures
        r@ == failed_updates(message@, duration_ms as int),
{
    let mut o = Json::object();
    o.set("status", Json::from_text("error"));
    o.set("error", Json::from_text(message));
    let none: Vec<Json> = Vec::new();
    assert(list_view(none@) =~= Seq::empty());
    o.set("data", Json::Arr(none));
    o.set("duration_ms", Json::from_int(duration_ms));
    o
}

/// What is said of a run that gave no image and no reason.
pub open spec fn no_account_message() -> Seq<char> {
    "号池中没有可用账号或所有账号均被限流，请检查号池状态（账号额度、是否被封禁、是否到达生图上限）"@
}

/// Ends a run that gave a result: it succeeded where there are images.
pub fn finish_run(result: &Json, duration_ms: i64) -> (r: RunEnd)
    ensures
        ({
            let data = result@.items_at("data"@);
            let message = or_else(cleaned_value(result@.get("message"@), ""@), no_account_message());
            &&& r.account_email@ == cleaned_value(result@.get("_account_email"@), ""@)
            &&& if data.len() == 0 {
                &&& r.updates@ == failed_updates(message, duration_ms as int)
                &&& r.suffix@ == "调用失败"@
                &&& r.status@ == "failed"@
                &&& r.error@ == message
                &&& r.urls@.len() == 0
            } else {
                &&& r.updates@ == empty_object().put("status"@, JsonView::Str("success"@)).put(
                    "data"@,
                    JsonView::Arr(data),
                ).put("error"@, JsonView::Str(""@)).put("duration_ms"@, int_json(duration_ms as int))
                &&& r.suffix@ == "调用完成"@
                &&& r.status@ == "success"@
                &&& r.error@ == ""@
                &&& views(r.urls@) == data.filter_map(image_address())
            }
        }),
        result@.items_at("data"@).len() > 0 <==> r.status@ == "success"@,
        result@.items_at("data"@).len() > 0 ==> r.updates@.str_at("status"@) == "success"@
            && r.updates@.items_at("data"@) == result@.items_at("data"@),
        result@.items_at("data"@).len() == 0 ==> r.updates@.str_at("status"@) == "error"@
            && r.updates@.str_at("error"@).len() > 0,
{
    broadcast use crate::value::group_fields;

    proof {
        reveal_strlit("status");
        reveal_strlit("error");
        reveal_strlit("data");
        reveal_strlit("duration_ms");
        reveal_strlit("success");
        reveal_strlit("failed");
        assert("status"@.len() == 6 && "status"@[0] == 's');
        assert("error"@.len() == 5);
        assert("data"@.len() == 4);
        assert("duration_ms"@.len() == 11);
        assert("success"@.len() == 7);
        assert("failed"@.len() == 6 && "failed"@[0] == 'f');
        reveal_strlit(
            "号池中没有可用账号或所有账号均被限流，请检查号池状态（账号额度、是否被封禁、是否到达生图上限）",
        );
    }
    let data: Vec<Json> = match result.get("data") {
        Some(Json::Arr(a)) => copy_list(a),
        _ => Vec::new(),
    };
    assert(list_view(data@) =~= result@.items_at("data"@));
    let account_email = clean_value(result.get("_account_email"), "");
    if data.len() == 0 {
        let message = crate::json::non_empty_or(
            clean_value(result.get("message"), ""),
            "号池中没有可用账号或所有账号均被限流，请检查号池状态（账号额度、是否被封禁、是否到达生图上限）",
        );
        return RunEnd {
            updates: fail_updates(message.as_str(), duration_ms),
            suffix: "调用失败".to_owned(),
            status: "failed".to_owned(),
            error: message,
            urls: Vec::new(),
            account_email,
        };
    }
    let urls = collect_image_urls(&data);
    let mut o = Json::object();
    o.set("status", Json::from_text("success"));
    o.set("data", Json::Arr(data));
    o.set("error", Json::from_text(""));
    o.set("duration_ms", Json::from_int(duration_ms));
    RunEnd {
        updates: o,
        suffix: "调用完成".to_owned(),
        status: "success".to_owned(),
        error: "".to_owned(),
        urls,
        account_email,
    }
}

/// Ends a run that failed.
pub fn fail_run(message: &str, account_email: &str, conversation_id: &str, duration_ms: i64) -> (r:
    RunEnd)
    ensures
        ({
            let said = if trimmed(message@).len() == 0 {
                "image task failed"@
            } else {
                message@
            };
            let id = trimmed(conversation_id@);
            let updates = failed_updates(said, duration_ms as int);
            &&& r.updates@ == (if id.len() == 0 {
                updates
            } else {
                updates.put("conversation_id"@, JsonView::Str(id))
            })
            &&& r.suffix@ == "调用失败"@
            &&& r.status@ == "failed"@
            &&& r.error@ == said
            &&& r.urls@.len() == 0
            &&& r.account_email@ == trimmed(account_email@)
        }),
        r.updates@.str_at("status"@) == "error"@,
        r.updates@.str_at("error"@).len() > 0,
        trimmed(message@).len() > 0 ==> r.updates@.str_at("error"@) == message@,
        trimmed(conversation_id@).len() > 0 ==> r.updates@.str_at("conversation_id"@) == trimmed(
            conversation_id@,
        ),
{
    broadcast use crate::value::group_fields;

    proof {
        reveal_strlit("status");
        reveal_strlit("error");
        reveal_strlit("data");
        reveal_strlit("duration_ms");
        reveal_strlit("conversation_id");
        assert("status"@.len() == 6);
        assert("error"@.len() == 5);
        assert("data"@.len() == 4);
        assert("duration_ms"@.len() == 11);
        assert("conversation_id"@.len() == 15);
        reveal_strlit("image task failed");
        crate::text::lemma_strip_len(message@, crate::text::CharClass::White);
    }
    let said = if trim(message).as_str().is_empty() {
        "image task failed".to_owned()
    } else {
        message.to_owned()
    };
    let mut updates = fail_updates(said.as_str(), duration_ms);
    let id = trim(conversation_id);
    if !id.as_str().is_empty() {
        updates.set("conversation_id", Json::Str(id));
    }
    RunEnd {
        updates,
        suffix: "调用失败".to_owned(),
        status: "failed".to_owned(),
        error: said,
        urls: Vec::new(),
        account_email: trim(account_email),
    }
}

/// `o` with the field `k` set to a text that is not empty.
pub open spec fn with_some(o: JsonView, k: Seq<char>, s: Seq<char>) -> JsonView {
    if s.len() > 0 {
        o.put(k, JsonView::Str(s))
    } else {
        o
    }
}

fn put_some(o: &mut Json, k: &str, s: &str)
    ensures
        final(o)@ == with_some(old(o)@, k@, s@),
{
    if !s.is_empty() {
        o.set(k, Json::from_text(s));
    }
}

/// What is logged of a run: who asked for it, for what, and how it ended.
pub open spec fn run_detail(
    identity: JsonView,
    mode: Seq<char>,
    model: Seq<char>,
    started_at: Seq<char>,
    ended_at: Seq<char>,
    duration_ms: int,
    prompt: Seq<char>,
    end: RunEnd,
) -> JsonView {
    let o = empty_object().put("key_id"@, identity.at("id"@)).put(
        "key_name"@,
        identity.at("name"@),
    ).put("role"@, identity.at("role"@)).put(
        "endpoint"@,
        JsonView::Str(
            if mode == "edit"@ {
                "/v1/images/edits"@
            } else {
                "/v1/images/generations"@
            },
        ),
    ).put("model"@, JsonView::Str(model)).put("started_at"@, JsonView::Str(started_at)).put(
        "ended_at"@,
        JsonView::Str(ended_at),
    ).put("duration_ms"@, int_json(duration_ms)).put("status"@, JsonView::Str(end.status@));
    let o = with_some(o, "request_text"@, trimmed(prompt));
    let o = with_some(o, "error"@, end.error@);
    let o = with_some(o, "account_email"@, end.account_email@);
    if end.urls@.len() > 0 {
        o.put("urls"@, texts_json(deduped(views(end.urls@))))
    } else {
        o
    }
}

/// The summary and the detail of the log entry for a run.
pub fn log_call(
    identity: &Json,
    mode: &str,
    model: &str,
    started_at: &str,
    ended_at: &str,
    duration_ms: i64,
    prompt: &str,
    end: &RunEnd,
) -> (r: (String, Json))
    ensures
        r.0@ == (if mode@ == "edit"@ {
            "图生图"@
        } else {
            "文生图"@
        }) + end.suffix@,
        r.1@ == run_detail(
            identity@,
            mode@,
            model@,
            started_at@,
            ended_at@,
            duration_ms as int,
            prompt@,
            *end,
        ),
{
    let edit = same(mode, "edit");
    let mut o = Json::object();
    o.set("key_id", identity.at("id"));
    o.set("key_name", identity.at("name"));
    o.set("role", identity.at("role"));
    o.set(
        "endpoint",
        Json::from_text(
            if edit {
                "/v1/images/edits"
            } else {
                "/v1/images/generations"
            },
        ),
    );
    o.set("model", Json::from_text(model));
    o.set("started_at", Json::from_text(started_at));
    o.set("ended_at", Json::from_text(ended_at));
    o.set("duration_ms", Json::from_int(duration_ms));
    o.set("status", Json::from_text(end.status.as_str()));
    put_some(&mut o, "request_text", trim(prompt).as_str());
    put_some(&mut o, "error", end.error.as_str());
    put_some(&mut o, "account_email", end.account_email.as_str());
    if end.urls.len() > 0 {
        o.set("urls", Json::from_texts(&dedupe(&end.urls)));
    }
    let prefix = if edit {
        "图生图"
    } else {
        "文生图"
    };
    (cat(prefix, end.suffix.as_str()), o)
}

// ---------------------------------------------------------------------------
// laws
// ---------------------------------------------------------------------------

/// After a restart no task waits or runs.
pub proof fn law_recovered_tasks_ended(tasks: Seq<(Seq<char>, JsonView)>, now: Seq<char>, i: int)
    requires
        0 <= i < tasks.len(),
        tasks[i].1 is Obj,
    ensures
        !unfinished(recovered_tasks(tasks, now)[i].1),
        recovered_tasks(tasks, now)[i].0 == tasks[i].0,
{
    broadcast use crate::value::group_fields;

    reveal_strlit("status");
    reveal_strlit("error");
    reveal_strlit("updated_at");
    reveal_strlit("queued");
    reveal_strlit("running");
    assert("status"@.len() == 6);
    assert("error"@.len() == 5);
    assert("updated_at"@.len() == 10);
    assert("queued"@.len() == 6);
    assert("running"@.len() == 7);
}

/// A task that was taken is there under its key, and shows as waiting, until it is changed.
pub proof fn law_submitted_task_waits(
    tasks: Seq<(Seq<char>, JsonView)>,
    key: Seq<char>,
    owner: Seq<char>,
    id: Seq<char>,
    mode: Seq<char>,
    model: Seq<char>,
    size: Seq<char>,
    quality: Seq<char>,
    now: Seq<char>,
    now_ts: JsonView,
)
    ensures
        ({
            let task = queued_task(owner, id, mode, model, size, quality, now, now_ts);
            &&& lookup(put_entry(tasks, key, task), key) == Some(task)
            &&& unfinished(task)
            &&& shown(task).0.get("status"@) == Some(JsonView::Str("queued"@))
            &&& shown(task).0.get("id"@) == Some(JsonView::Str(id))
        }),
{
    broadcast use crate::value::group_fields;

    let task = queued_task(owner, id, mode, model, size, quality, now, now_ts);
    lemma_lookup_put(tasks, key, task, key);
    reveal_strlit("id");
    reveal_strlit("owner_id");
    reveal_strlit("status");
    reveal_strlit("mode");
    reveal_strlit("model");
    reveal_strlit("size");
    reveal_strlit("quality");
    reveal_strlit("created_at");
    reveal_strlit("updated_at");
    reveal_strlit("created_ts");
    reveal_strlit("conversation_id");
    reveal_strlit("data");
    reveal_strlit("usage");
    reveal_strlit("error");
    reveal_strlit("progress");
    reveal_strlit("duration_ms");
    assert("id"@.len() == 2);
    assert("owner_id"@.len() == 8);
    assert("status"@.len() == 6);
    assert("mode"@.len() == 4);
    assert("model"@.len() == 5);
    assert("size"@.len() == 4);
    assert("quality"@.len() == 7);
    assert("created_at"@.len() == 10);
    assert("updated_at"@.len() == 10);
    assert("created_ts"@.len() == 10);
    assert("conversation_id"@.len() == 15);
    assert("data"@.len() == 4);
    assert("usage"@.len() == 5);
    assert("error"@.len() == 5);
    assert("progress"@.len() == 8);
    assert("duration_ms"@.len() == 11);
}

/// A task that waits or runs is not forgotten, however old it is.
pub proof fn law_unfinished_kept(
    tasks: Seq<(Seq<char>, JsonView)>,
    stamps: Seq<i64>,
    days: i64,
    now: Moment,
    i: int,
)
    requires
        0 <= i < tasks.len(),
        unfinished(tasks[i].1),
    ensures
        kept_tasks(tasks, stamps, days, now).contains(tasks[i]),
    decreases tasks.len(),
{
    reveal_strlit("queued");
    reveal_strlit("running");
    reveal_strlit("success");
    reveal_strlit("error");
    assert("queued"@.len() == 6 && "error"@.len() == 5 && "running"@.len() == 7);
    assert("running"@[0] == 'r' && "success"@[0] == 's' && "success"@.len() == 7);
    let rest = kept_tasks(tasks.drop_last(), stamps, days, now);
    if i == tasks.len() - 1 {
        assert(kept_tasks(tasks, stamps, days, now).last() == tasks[i]);
    } else {
        law_unfinished_kept(tasks.drop_last(), stamps, days, now, i);
        let j = rest.index_of(tasks[i]);
        assert(kept_tasks(tasks, stamps, days, now)[j] == tasks[i]);
    }
}

} // verus!
