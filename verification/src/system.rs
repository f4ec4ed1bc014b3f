//! The pages and settings of the server itself.
use vstd::prelude::*;
use vstd::string::StringExecFns;

use crate::ai::{body_str_list, string_item};
use crate::error::{message_detail, AppError};
use crate::json::non_empty_or;
use crate::roster::healthy;
use crate::sorting::{pair_order, pairs_view, sort_pairs, sorted};
use crate::support::Identity;
use crate::text::{
    cat, cat3, has_text, int_text, push_new, signed_text, skip_front, trim, trim_front, trimmed,
    views, CharClass,
};
use crate::urlcode::{encode_rfc5987, encoded};
use crate::value::{empty_object, fields_view, Json, JsonView};

verus! {

broadcast use crate::value::group_json;

/// How many entries of the log are listed.
pub const LOG_LIST_LIMIT: usize = 200;

/// A parameter of a query without the white space round it; empty where it is not there.
pub fn query_str(value: Option<&str>) -> (r: String)
    ensures
        r@ == (match value {
            Some(s) => trimmed(s@),
            None => Seq::empty(),
        }),
{
    match value {
        Some(s) => trim(s),
        None => String::new(),
    }
}

/// The headers that go with images.
pub fn cors_image_headers() -> (r: Vec<(String, String)>)
    ensures
        pairs_view(r@) == seq![
            ("Access-Control-Allow-Origin"@, "*"@),
            ("Access-Control-Allow-Methods"@, "GET, OPTIONS"@),
            ("Access-Control-Allow-Headers"@, "*"@),
        ],
{
    let mut h: Vec<(String, String)> = Vec::new();
    h.push(("Access-Control-Allow-Origin".to_owned(), "*".to_owned()));
    h.push(("Access-Control-Allow-Methods".to_owned(), "GET, OPTIONS".to_owned()));
    h.push(("Access-Control-Allow-Headers".to_owned(), "*".to_owned()));
    assert(pairs_view(h@) =~= seq![
        ("Access-Control-Allow-Origin"@, "*"@),
        ("Access-Control-Allow-Methods"@, "GET, OPTIONS"@),
        ("Access-Control-Allow-Headers"@, "*"@),
    ]);
    h
}

/// The header that names the download of an image.
pub fn image_disposition(filename: Option<&str>) -> (r: String)
    ensures
        r@ == "attachment; filename=\""@ + (match filename {
            Some(s) => s@,
            None => "image"@,
        }) + "\""@,
{
    let name = match filename {
        Some(s) => s,
        None => "image",
    };
    cat3("attachment; filename=\"", name, "\"")
}

/// The header that names the download of a backup.
pub fn backup_disposition(name: &str) -> (r: String)
    ensures
        r@ == "attachment; filename*=UTF-8''"@ + encoded(name@, false),
{
    cat("attachment; filename*=UTF-8''", encode_rfc5987(name).as_str())
}

/// The answer to a login.
pub fn login_answer(identity: &Identity, version: &str) -> (r: Json)
    ensures
        r@ == empty_object().put("ok"@, JsonView::Bool(true)).put(
            "version"@,
            JsonView::Str(version@),
        ).put("role"@, JsonView::Str(identity.role@)).put(
            "subject_id"@,
            JsonView::Str(identity.id@),
        ).put("name"@, JsonView::Str(identity.name@)),
        r@.get("ok"@) == Some(JsonView::Bool(true)),
        r@.str_at("version"@) == version@,
        r@.str_at("role"@) == identity.role@,
        r@.str_at("subject_id"@) == identity.id@,
        r@.str_at("name"@) == identity.name@,
{
    broadcast use crate::value::group_fields;

    proof {
        reveal_strlit("ok");
        reveal_strlit("version");
        reveal_strlit("role");
        reveal_strlit("subject_id");
        reveal_strlit("name");
        assert("ok"@.len() == 2);
        assert("version"@.len() == 7);
        assert("role"@.len() == 4 && "role"@[0] == 'r');
        assert("subject_id"@.len() == 10);
        assert("name"@.len() == 4 && "name"@[0] == 'n');
    }
    let mut o = Json::object();
    o.set("ok", Json::Bool(true));
    o.set("version", Json::from_text(version));
    o.set("role", Json::from_text(identity.role.as_str()));
    o.set("subject_id", Json::from_text(identity.id.as_str()));
    o.set("name", Json::from_text(identity.name.as_str()));
    o
}

/// Reads a request to tag an image: its path without slashes before it, and the tags.
pub fn read_tags_request(body: &Json) -> (r: Result<(String, Vec<String>), AppError>)
    ensures
        ({
            let rel = skip_front(trimmed(body@.str_at("path"@)), CharClass::Just('/'));
            if rel.len() == 0 {
                r matches Err(e) && e.is_plain(400, message_detail("path is required"@))
            } else {
                r is Ok && r->Ok_0.0@ == rel && views(r->Ok_0.1@) == body@.items_at(
                    "tags"@,
                ).filter_map(string_item())
            }
        }),
{
    let rel = trim_front(trim(body.str_at("path").as_str()).as_str(), CharClass::Just('/'));
    if rel.as_str().is_empty() {
        return Err(AppError::bad_request("path is required"));
    }
    Ok((rel, body_str_list(body, "tags")))
}

/// What is answered about something that is not there yet.
pub fn not_implemented(what: &str) -> (r: AppError)
    ensures
        r.is_plain(501, message_detail(what@ + " 尚未在 Rust 版本中实现"@)),
{
    AppError::message(501, cat(what, " 尚未在 Rust 版本中实现").as_str())
}

/// The proxy that is tried out: the one that is named, or else that of the settings.
pub fn proxy_candidate(body: &Json, setting: &str) -> (r: Result<String, AppError>)
    ensures
        ({
            let named = trimmed(body@.str_at("url"@));
            let chosen = if named.len() > 0 {
                named
            } else {
                setting@
            };
            if trimmed(chosen).len() == 0 {
                r matches Err(e) && e.is_plain(400, message_detail("proxy url is required"@))
            } else {
                r is Ok && r->Ok_0@ == chosen
            }
        }),
{
    let chosen = non_empty_or(trim(body.str_at("url").as_str()), setting);
    if trim(chosen.as_str()).as_str().is_empty() {
        return Err(AppError::bad_request("proxy url is required"));
    }
    Ok(chosen)
}

/// `o` with the field `k` of `v`, where that is there and not `null`.
pub open spec fn with_field(o: JsonView, v: JsonView, k: Seq<char>) -> JsonView {
    if v.at(k) is Null {
        o
    } else {
        o.put(k, v.at(k))
    }
}

fn keep_field(o: &mut Json, v: &Json, k: &str)
    ensures
        final(o)@ == with_field(old(o)@, v@, k@),
{
    let x = v.at(k);
    if !x.is_null() {
        o.set(k, x);
    }
}

/// What a request may change of the settings for registrations.
pub open spec fn register_updates(body: JsonView) -> JsonView {
    let o = with_field(empty_object(), body, "mail"@);
    let o = with_field(o, body, "proxy"@);
    let o = with_field(o, body, "total"@);
    let o = with_field(o, body, "threads"@);
    let o = with_field(o, body, "mode"@);
    let o = with_field(o, body, "target_quota"@);
    let o = with_field(o, body, "target_available"@);
    with_field(o, body, "check_interval"@)
}

/// Keeps of a request what may be changed of the settings for registrations.
pub fn sanitize_updates(body: &Json) -> (r: Json)
    ensures
        r@ == register_updates(body@),
{
    let mut o = Json::object();
    keep_field(&mut o, body, "mail");
    keep_field(&mut o, body, "proxy");
    keep_field(&mut o, body, "total");
    keep_field(&mut o, body, "threads");
    keep_field(&mut o, body, "mode");
    keep_field(&mut o, body, "target_quota");
    keep_field(&mut o, body, "target_available");
    keep_field(&mut o, body, "check_interval");
    o
}

// ---------------------------------------------------------------------------
// the watch over accounts
// ---------------------------------------------------------------------------

/// Whether a token is not in a list.
pub open spec fn not_among(list: Seq<Seq<char>>) -> spec_fn(Seq<char>) -> bool {
    |t: Seq<char>| !list.contains(t)
}

/// The tokens that are refreshed, and those that are kept alive.
pub struct WatchPlan {
    pub tokens: Vec<String>,
    pub keepalive: Vec<String>,
}

/// Plans a round of the watch: the limited and the expiring tokens are refreshed, each once, and
/// the others that are due are kept alive.
pub fn watch_plan(limited: &Vec<String>, expiring: &Vec<String>, keepalive: &Vec<String>) -> (r: WatchPlan)
    ensures
        views(r.tokens@) == crate::text::deduped(views(limited@) + views(expiring@)),
        views(r.keepalive@) == views(keepalive@).filter(not_among(views(expiring@))),
        views(r.tokens@).no_duplicates(),
        forall|t: Seq<char>| #[trigger]
            views(r.tokens@).contains(t) <==> views(limited@).contains(t) || views(expiring@).contains(t),
        forall|t: Seq<char>| #[trigger]
            views(r.keepalive@).contains(t) <==> views(keepalive@).contains(t) && !views(
                expiring@,
            ).contains(t),
{
    let ghost all = views(limited@) + views(expiring@);
    let mut tokens: Vec<String> = Vec::new();
    let mut i: usize = 0;
    assert(views(tokens@) =~= Seq::empty());
    assert(all.take(0) =~= Seq::empty());
    while i < limited.len()
        invariant
            i <= limited@.len(),
            all == views(limited@) + views(expiring@),
            views(tokens@) == crate::text::deduped(all.take(i as int)),
        decreases limited@.len() - i,
    {
        assert(all.take(i + 1).drop_last() =~= all.take(i as int));
        assert(all.take(i + 1).last() == limited@[i as int]@);
        push_new(&mut tokens, limited[i].as_str());
        i += 1;
    }
    let n = limited.len();
    let mut k: usize = 0;
    while k < expiring.len()
        invariant
            k <= expiring@.len(),
            n == limited@.len(),
            all == views(limited@) + views(expiring@),
            views(tokens@) == crate::text::deduped(all.take(n + k)),
        decreases expiring@.len() - k,
    {
        assert(all.take(n + k + 1).drop_last() =~= all.take(n + k));
        assert(all.take(n + k + 1).last() == expiring@[k as int]@);
        push_new(&mut tokens, expiring[k].as_str());
        k += 1;
    }
    assert(all.take(n + k) =~= all);
    let ghost v = views(keepalive@);
    let ghost keep = not_among(views(expiring@));
    let mut rest: Vec<String> = Vec::new();
    let mut j: usize = 0;
    proof {
        reveal(Seq::filter);
        assert(views(rest@) =~= v.take(0).filter(keep));
    }
    while j < keepalive.len()
        invariant
            j <= keepalive@.len(),
            v == views(keepalive@),
            keep == not_among(views(expiring@)),
            views(rest@) == v.take(j as int).filter(keep),
        decreases keepalive@.len() - j,
    {
        let ghost done = views(rest@);
        assert(v.take(j + 1).drop_last() =~= v.take(j as int));
        assert(v.take(j + 1).filter(keep) == if keep(v[j as int]) {
            done.push(v[j as int])
        } else {
            done
        }) by {
            reveal(Seq::filter);
        }
        if !has_text(expiring, keepalive[j].as_str()) {
            rest.push(keepalive[j].clone());
            assert(views(rest@) =~= done.push(v[j as int]));
        }
        j += 1;
    }
    assert(v.take(j as int) =~= v);
    proof {
        law_watch_touches_once(views(limited@), views(expiring@), v, Seq::empty());
        assert forall|t: Seq<char>| #[trigger]
            views(tokens@).contains(t) <==> views(limited@).contains(t) || views(expiring@).contains(t) by {
            law_watch_touches_once(views(limited@), views(expiring@), v, t);
        }
        assert forall|t: Seq<char>| #[trigger]
            views(rest@).contains(t) <==> v.contains(t) && !views(expiring@).contains(t) by {
            law_watch_touches_once(views(limited@), views(expiring@), v, t);
        }
    }
    WatchPlan { tokens, keepalive: rest }
}

/// How many seconds lie between two rounds of the watch, given the minutes that are set; at most as
/// many as can be told.
pub fn watch_interval(minutes: i64) -> (r: u64)
    ensures
        ({
            let secs = 60 * (if minutes < 1 {
                1
            } else {
                minutes as int
            });
            r == (if secs > u64::MAX {
                u64::MAX as int
            } else {
                secs
            })
        }),
{
    if minutes < 1 {
        60
    } else if minutes as u64 > u64::MAX / 60 {
        u64::MAX
    } else {
        minutes as u64 * 60
    }
}

// ---------------------------------------------------------------------------
// the health page
// ---------------------------------------------------------------------------

/// The state of the server as JSON.
pub fn health_json(stats: &Json, version: &str, backend: Json, health: Json) -> (r: Json)
    ensures
        r@ == empty_object().put(
            "status"@,
            JsonView::Str(
                if healthy(stats@) {
                    "ok"@
                } else {
                    "degraded"@
                },
            ),
        ).put("healthy"@, JsonView::Bool(healthy(stats@))).put(
            "version"@,
            JsonView::Str(version@),
        ).put(
            "storage"@,
            empty_object().put("backend"@, backend@).put("health"@, health@),
        ).put("accounts"@, stats@),
{
    let well = is_healthy(stats);
    let status = if well {
        "ok"
    } else {
        "degraded"
    };
    let mut storage = Json::object();
    storage.set("backend", backend);
    storage.set("health", health);
    let mut o = Json::object();
    o.set("status", Json::from_text(status));
    o.set("healthy", Json::Bool(well));
    o.set("version", Json::from_text(version));
    o.set("storage", storage);
    o.set("accounts", stats.copy());
    o
}

fn is_healthy(stats: &Json) -> (r: bool)
    ensures
        r == healthy(stats@),
{
    stats.int_at("active", 0) > 0 || stats.int_at("unlimited_quota_count", 0) > 0
}

/// The kinds of accounts and how many there are of each, as text.
pub open spec fn type_rows(stats: JsonView) -> Seq<(Seq<char>, Seq<char>)> {
    match stats.get("by_type"@) {
        Some(JsonView::Obj(o)) => o.map_values(
            |e: (Seq<char>, JsonView)|
                (
                    e.0,
                    int_text(
                        match e.1.as_int_value() {
                            Some(n) => n as int,
                            None => 0,
                        },
                    ),
                ),
        ),
        _ => Seq::empty(),
    }
}

fn rows_of(stats: &Json) -> (r: Vec<(String, String)>)
    ensures
        pairs_view(r@) == type_rows(stats@),
{
    let mut out: Vec<(String, String)> = Vec::new();
    assert(pairs_view(out@) =~= Seq::empty());
    match stats.get("by_type") {
        Some(Json::Obj(o)) => {
            let ghost want = type_rows(stats@);
            let ghost fv = fields_view(o@);
            assert(want.len() == fv.len());
            let mut i: usize = 0;
            while i < o.len()
                invariant
                    i <= o@.len(),
                    fv == fields_view(o@),
                    want == type_rows(stats@),
                    stats@.get("by_type"@) == Some(JsonView::Obj(fv)),
                    want.len() == fv.len(),
                    pairs_view(out@) =~= want.take(i as int),
                decreases o@.len() - i,
            {
                let ghost done = pairs_view(out@);
                assert(fv[i as int] == (o@[i as int].0@, o@[i as int].1@));
                let n: i64 = match o[i].1.as_int() {
                    Some(n) => n,
                    None => 0,
                };
                let row = (o[i].0.clone(), signed_text(n));
                assert((row.0@, row.1@) == want[i as int]);
                let ghost rv = (row.0@, row.1@);
                out.push(row);
                assert(pairs_view(out@) =~= done.push(rv));
                i += 1;
            }
            assert(pairs_view(out@) =~= want);
        },
        _ => {},
    }
    out
}

/// The rows of a table.
pub open spec fn table_text(rows: Seq<(Seq<char>, Seq<char>)>) -> Seq<char>
    decreases rows.len(),
{
    if rows.len() == 0 {
        Seq::empty()
    } else {
        table_text(rows.drop_last()) + "<tr><td>"@ + rows.last().0 + "</td><td>"@ + rows.last().1
            + "</td></tr>"@
    }
}

fn table_of(rows: &Vec<(String, String)>) -> (r: String)
    ensures
        r@ == table_text(pairs_view(rows@)),
{
    let ghost v = pairs_view(rows@);
    let mut s = String::new();
    let mut i: usize = 0;
    assert(v.take(0) =~= Seq::empty());
    while i < rows.len()
        invariant
            i <= rows@.len(),
            v == pairs_view(rows@),
            s@ == table_text(v.take(i as int)),
        decreases rows@.len() - i,
    {
        assert(v.take(i + 1).drop_last() =~= v.take(i as int));
        assert(v.take(i + 1).last() == (rows@[i as int].0@, rows@[i as int].1@));
        s.append("<tr><td>");
        s.append(rows[i].0.as_str());
        s.append("</td><td>");
        s.append(rows[i].1.as_str());
        s.append("</td></tr>");
        i += 1;
    }
    assert(v.take(i as int) =~= v);
    s
}

/// What comes before the state on the health page.
pub const PAGE_HEAD: &'static str = "<!DOCTYPE html>
<html lang=\"zh\">
<head><meta charset=\"UTF-8\"><meta name=\"viewport\" content=\"width=device-width,initial-scale=1\">
<title>号池健康监控 - chatgpt2api</title>
<style>
*{margin:0;padding:0;box-sizing:border-box}
body{font-family:system-ui,-apple-system,sans-serif;background:#0f1117;color:#e2e8f0;min-height:100vh}
.header{background:#1a1d27;border-bottom:1px solid #2a2d3a;padding:16px 24px;display:flex;justify-content:space-between;align-items:center}
.header h1{font-size:20px}
.status-dot{display:inline-block;width:10px;height:10px;border-radius:50%;margin-right:8px}
.status-ok{background:#22c55e;box-shadow:0 0 8px #22c55e88}
.status-degraded{background:#f59e0b;box-shadow:0 0 8px #f59e0b88}
.container{max-width:960px;margin:0 auto;padding:24px}
.cards{display:grid;grid-template-columns:repeat(auto-fit,minmax(140px,1fr));gap:12px;margin-bottom:24px}
.card{background:#1a1d27;border:1px solid #2a2d3a;border-radius:10px;padding:16px}
.card .value{font-size:28px;font-weight:700;margin:4px 0}
.card .label{font-size:13px;color:#94a3b8}
.green{color:#22c55e}.yellow{color:#f59e0b}.red{color:#ef4444}.blue{color:#6c63ff}
table{width:100%;border-collapse:collapse;background:#1a1d27;border:1px solid #2a2d3a;border-radius:10px;overflow:hidden}
th{background:#242836;font-weight:600;text-align:left;padding:10px 12px;font-size:12px;color:#94a3b8;text-transform:uppercase}
td{padding:8px 12px;border-top:1px solid #2a2d3a;font-size:14px}tr:hover td{background:rgba(108,99,255,.05)}
.api-url{font-family:monospace;font-size:12px;color:#6c63ff}
.refresh{font-size:12px;color:#64748b;text-align:center;margin-top:24px}
</style>
<meta http-equiv=\"refresh\" content=\"30\">
</head>
<body>
<div class=\"header\">
<h1><span class=\"status-dot ";

/// What comes between the state and the version.
pub const PAGE_TITLE: &'static str = "\"></span>号池健康监控</h1>
<div style=\"font-size:13px;color:#94a3b8\">v";

/// What comes between the version and the cards.
pub const PAGE_CARDS: &'static str = " · 30s 自动刷新</div>
</div>
<div class=\"container\">
<div class=\"cards\">
";

/// What comes between the cards and the table.
pub const PAGE_TABLE: &'static str = "</div>
<h2 style=\"margin-bottom:12px;font-size:16px\">账号类型分布</h2>
<table>
<tr><th>类型</th><th>数量</th></tr>
";

/// What comes behind the table.
pub const PAGE_FOOT: &'static str = "
</table>
<div class=\"refresh\">JSON: <span class=\"api-url\">/health?format=json</span></div>
</div></body></html>";

/// A card with a value.
pub open spec fn card(label: Seq<char>, class: Seq<char>, value: Seq<char>) -> Seq<char> {
    "<div class=\"card\"><div class=\"label\">"@ + label + "</div><div class=\""@ + class + "\">"@
        + value + "</div></div>\n"@
}

fn make_card(label: &str, class: &str, value: &str) -> (r: String)
    ensures
        r@ == card(label@, class@, value@),
{
    let mut s = cat3("<div class=\"card\"><div class=\"label\">", label, "</div><div class=\"");
    s.append(class);
    s.append("\">");
    s.append(value);
    s.append("</div></div>\n");
    s
}

/// A count among statistics, as text.
pub open spec fn stat(stats: JsonView, k: Seq<char>) -> Seq<char> {
    int_text(stats.int_at(k, 0) as int)
}

fn stat_text(stats: &Json, k: &str) -> (r: String)
    ensures
        r@ == stat(stats@, k@),
{
    signed_text(stats.int_at(k, 0))
}

/// The health page.
pub open spec fn page_text(stats: JsonView, version: Seq<char>) -> Seq<char> {
    let well = healthy(stats);
    PAGE_HEAD@ + (if well {
        "status-ok"@
    } else {
        "status-degraded"@
    }) + PAGE_TITLE@ + version + PAGE_CARDS@ + card(
        "号池状态"@,
        if well {
            "value green"@
        } else {
            "value yellow"@
        },
        if well {
            "正常"@
        } else {
            "异常"@
        },
    ) + card("当前账号"@, "value blue"@, stat(stats, "total"@)) + card(
        "累计入库"@,
        "value"@,
        stat(stats, "cumulative_total"@),
    ) + card("可用账号"@, "value green"@, stat(stats, "active"@)) + card(
        "无限额"@,
        "value"@,
        stat(stats, "unlimited_quota_count"@),
    ) + card("剩余额度"@, "value"@, stat(stats, "total_quota"@)) + card(
        "限流"@,
        "value yellow"@,
        stat(stats, "limited"@),
    ) + card("异常"@, "value red"@, stat(stats, "abnormal"@)) + card(
        "禁用"@,
        "value"@,
        stat(stats, "disabled"@),
    ) + card(
        "成功/失败"@,
        "value"@,
        stat(stats, "total_success"@)
            + "<span style=\"font-size:18px;color:#94a3b8\">/</span><span class=\"red\">"@ + stat(
            stats,
            "total_fail"@,
        ) + "</span>"@,
    ) + PAGE_TABLE@ + table_text(sorted(type_rows(stats), pair_order())) + PAGE_FOOT@
}

/// Makes the health page.
pub fn health_page(stats: &Json, version: &str) -> (r: String)
    ensures
        r@ == page_text(stats@, version@),
{
    let well = is_healthy(stats);
    let mut s = PAGE_HEAD.to_owned();
    s.append(
        if well {
            "status-ok"
        } else {
            "status-degraded"
        },
    );
    s.append(PAGE_TITLE);
    s.append(version);
    s.append(PAGE_CARDS);
    let state = if well {
        make_card("号池状态", "value green", "正常")
    } else {
        make_card("号池状态", "value yellow", "异常")
    };
    s.append(state.as_str());
    s.append(make_card("当前账号", "value blue", stat_text(stats, "total").as_str()).as_str());
    s.append(
        make_card("累计入库", "value", stat_text(stats, "cumulative_total").as_str()).as_str(),
    );
    s.append(make_card("可用账号", "value green", stat_text(stats, "active").as_str()).as_str());
    s.append(
        make_card("无限额", "value", stat_text(stats, "unlimited_quota_count").as_str()).as_str(),
    );
    s.append(make_card("剩余额度", "value", stat_text(stats, "total_quota").as_str()).as_str());
    s.append(make_card("限流", "value yellow", stat_text(stats, "limited").as_str()).as_str());
    s.append(make_card("异常", "value red", stat_text(stats, "abnormal").as_str()).as_str());
    s.append(make_card("禁用", "value", stat_text(stats, "disabled").as_str()).as_str());
    let mut both = cat3(
        stat_text(stats, "total_success").as_str(),
        "<span style=\"font-size:18px;color:#94a3b8\">/</span><span class=\"red\">",
        stat_text(stats, "total_fail").as_str(),
    );
    both.append("</span>");
    s.append(make_card("成功/失败", "value", both.as_str()).as_str());
    s.append(PAGE_TABLE);
    s.append(table_of(&sort_pairs(&rows_of(stats))).as_str());
    s.append(PAGE_FOOT);
    s
}

/// A round of the watch refreshes no token twice, and keeps none alive that it refreshes because
/// it expires.
pub proof fn law_watch_touches_once(
    limited: Seq<Seq<char>>,
    expiring: Seq<Seq<char>>,
    keepalive: Seq<Seq<char>>,
    t: Seq<char>,
)
    ensures
        crate::text::deduped(limited + expiring).no_duplicates(),
        crate::text::deduped(limited + expiring).contains(t) <==> limited.contains(t)
            || expiring.contains(t),
        keepalive.filter(not_among(expiring)).contains(t) <==> keepalive.contains(t)
            && !expiring.contains(t),
{
    broadcast use vstd::seq_lib::group_filter_ensures;

    let all = limited + expiring;
    crate::text::lemma_deduped(all);
    if limited.contains(t) {
        assert(all[limited.index_of(t)] == t);
    }
    if expiring.contains(t) {
        assert(all[limited.len() + expiring.index_of(t)] == t);
    }
    if all.contains(t) {
        let i = all.index_of(t);
        if i < limited.len() {
            assert(limited[i] == t);
        } else {
            assert(expiring[i - limited.len()] == t);
        }
    }
    let keep = not_among(expiring);
    let q = keepalive.filter(keep);
    if q.contains(t) {
        assert(keep(q[q.index_of(t)]));
        assert(keepalive.contains(t)) by {
            lemma_filtered_from(keepalive, keep, q.index_of(t));
        }
    }
    if keepalive.contains(t) && !expiring.contains(t) {
        assert(keep(keepalive[keepalive.index_of(t)]));
    }
}

proof fn lemma_filtered_from(s: Seq<Seq<char>>, keep: spec_fn(Seq<char>) -> bool, i: int)
    requires
        0 <= i < s.filter(keep).len(),
    ensures
        s.contains(s.filter(keep)[i]),
    decreases s.len(),
{
    reveal(Seq::filter);
    if s.len() > 0 {
        let init = s.drop_last();
        let p = init.filter(keep);
        if i < p.len() {
            lemma_filtered_from(init, keep, i);
            let k = init.index_of(p[i]);
            assert(s[k] == p[i]);
            assert(s.filter(keep)[i] == p[i]);
        } else {
            assert(s[s.len() - 1] == s.last());
        }
    }
}

} // verus!
