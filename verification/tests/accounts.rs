use model2api::account::{
    can_serve, is_image_account_available, merge_objects, normalize_account,
    normalize_account_type, normalize_source_type, prepare_account_payload, Wanted,
};
use model2api::accounts_api::{
    account_zip_bytes, check_new_pool, check_new_server, create_accounts, export_accounts,
    login_payload, read_account_change, read_key_change, required_tokens, safe_export_name,
    unique_tokens,
};
use model2api::clock::Moment;
use model2api::deferral::{
    recent_token_refresh_error, refresh_token_keepalive_due_at, should_defer_invalid_token,
};
use model2api::pool::{AccountService, Slot};
use model2api::progress::Board;
use model2api::refresh::{
    fetch_next, fetch_start, finish_refresh, is_tls_connection_error, plan_refresh,
    read_refresh_response, refresh_proxy, report_keepalive, report_refresh, Asked, FetchEvent,
    FetchStep, Hunt, HuntStep, Kept, Outcome, RefreshPlan,
};
use model2api::value::Json;

const NOW: &str = "2024-05-06T07:08:09Z";

fn j(s: &str) -> Json {
    Json::parse_text(s).unwrap()
}

fn texts(v: &[&str]) -> Vec<String> {
    v.iter().map(|s| s.to_string()).collect()
}

fn anyone() -> Wanted {
    Wanted { plan_type: None, source_type: None, plan_types: Vec::new() }
}

fn pool(items: &[&str]) -> AccountService {
    AccountService::new(&items.iter().map(|s| j(s)).collect(), None, NOW)
}

fn token(claims: &str) -> String {
    let alphabet: Vec<char> =
        "ABCDEFGHIJKLMNOPQRSTUVWXYZabcdefghijklmnopqrstuvwxyz0123456789-_".chars().collect();
    let mut out = String::new();
    for c in claims.as_bytes().chunks(3) {
        let n = (c[0] as u32) << 16
            | (*c.get(1).unwrap_or(&0) as u32) << 8
            | (*c.get(2).unwrap_or(&0) as u32);
        for k in 0..(c.len() + 1) {
            out.push(alphabet[((n >> (18 - 6 * k)) & 63) as usize]);
        }
    }
    format!("h.{out}.s")
}

#[test]
fn accounts_are_normalized() {
    let a = normalize_account(
        &j(r#"{"accessToken":"t","type":"Codex","quota":-3,"email":"","proxy":" p ","success":2}"#),
        NOW,
    )
    .unwrap();
    assert_eq!(a.str_at("access_token"), "t");
    assert!(a.get("accessToken").is_none());
    assert_eq!(a.str_at("export_type"), "codex");
    assert_eq!(a.str_at("source_type"), "codex");
    assert_eq!(a.str_at("type"), "free");
    assert_eq!(a.str_at("status"), "正常");
    assert_eq!(a.int_at("quota", 9), 0);
    assert_eq!(a.int_at("success", 0), 2);
    assert_eq!(a.int_at("fail", 9), 0);
    assert!(a.at("email").is_null());
    assert_eq!(a.str_at("proxy"), "p");
    assert_eq!(a.at("limits_progress").to_text(), "[]");
    assert_eq!(a.str_at("created_at"), NOW);
    assert!(normalize_account(&j(r#"{"access_token":""}"#), NOW).is_none());
    assert!(normalize_account(&j("[]"), NOW).is_none());
}

#[test]
fn plans_and_sources_have_aliases() {
    assert_eq!(normalize_account_type(&j(r#""PRO-lite""#)).unwrap(), "ProLite");
    assert_eq!(normalize_account_type(&j(r#""business""#)).unwrap(), "Team");
    assert_eq!(normalize_account_type(&j(r#"" Gold ""#)).unwrap(), "Gold");
    assert!(normalize_account_type(&j("null")).is_none());
    assert_eq!(normalize_source_type(&j(r#"" Web ""#)), "web");
    assert_eq!(normalize_source_type(&j("null")), "web");
    assert_eq!(normalize_source_type(&j(r#""CODEX""#)), "codex");
}

#[test]
fn only_accounts_with_quota_serve() {
    assert!(is_image_account_available(&j(r#"{"status":"正常","quota":1}"#)));
    assert!(is_image_account_available(&j(r#"{"status":"正常","image_quota_unknown":true}"#)));
    assert!(!is_image_account_available(&j(r#"{"status":"正常","quota":0}"#)));
    assert!(!is_image_account_available(&j(r#"{"status":"限流","quota":5}"#)));
    let a = j(r#"{"status":"正常","quota":1,"type":"plus","source_type":"web"}"#);
    let mut w = anyone();
    assert!(can_serve(&a, &w));
    w.plan_type = Some("Plus".to_string());
    assert!(can_serve(&a, &w));
    w.source_type = Some("codex".to_string());
    assert!(!can_serve(&a, &w));
    w.source_type = None;
    w.plan_types = texts(&["Team"]);
    assert!(!can_serve(&a, &w));
}

#[test]
fn payloads_are_prepared() {
    let p = prepare_account_payload(&j(r#"{"accessToken":" t ","type":"codex","plan_type":"Plus"}"#))
        .unwrap();
    assert_eq!(p.str_at("access_token"), "t");
    assert_eq!(p.str_at("source_type"), "codex");
    assert_eq!(p.str_at("type"), "Plus");
    assert!(prepare_account_payload(&j(r#"{"access_token":"  "}"#)).is_none());
    assert_eq!(
        merge_objects(j(r#"{"a":1,"b":2}"#), &j(r#"{"b":3,"c":4}"#)).to_text(),
        r#"{"a":1,"b":3,"c":4}"#
    );
}

#[test]
fn slots_go_round() {
    let mut p = pool(&[
        r#"{"access_token":"a","quota":5}"#,
        r#"{"access_token":"b","quota":5}"#,
        r#"{"access_token":"c","quota":0}"#,
    ]);
    let mut got = Vec::new();
    for _ in 0..4 {
        match p.acquire_next_candidate_token(&Vec::new(), &anyone(), 2) {
            Slot::Taken(t) => got.push(t),
            _ => panic!("no slot"),
        }
    }
    assert_eq!(got, texts(&["a", "b", "a", "b"]));
    assert!(matches!(
        p.acquire_next_candidate_token(&Vec::new(), &anyone(), 2),
        Slot::Busy
    ));
    p.release_image_slot("b");
    match p.acquire_next_candidate_token(&Vec::new(), &anyone(), 2) {
        Slot::Taken(t) => assert_eq!(t, "b"),
        _ => panic!("no slot"),
    }
}

#[test]
fn a_request_without_accounts_is_refused() {
    let mut p = pool(&[r#"{"access_token":"a","quota":0}"#]);
    match p.acquire_next_candidate_token(&Vec::new(), &anyone(), 1) {
        Slot::Exhausted(e) => assert_eq!(e, "no available image quota"),
        _ => panic!("served"),
    }
    let mut w = anyone();
    w.plan_type = Some("Plus".to_string());
    match p.acquire_next_candidate_token(&Vec::new(), &w, 1) {
        Slot::Exhausted(e) => assert_eq!(e, "no available Plus image quota"),
        _ => panic!("served"),
    }
}

#[test]
fn text_tokens_skip_disabled_accounts() {
    let mut p = pool(&[
        r#"{"access_token":"a","status":"禁用"}"#,
        r#"{"access_token":"b","status":"限流"}"#,
        r#"{"access_token":"c"}"#,
    ]);
    assert_eq!(p.next_text_token(&Vec::new()), "b");
    assert_eq!(p.next_text_token(&Vec::new()), "c");
    assert_eq!(p.next_text_token(&texts(&["b", "c"])), "");
}

#[test]
fn adding_counts_new_and_known_accounts() {
    let mut p = pool(&[r#"{"access_token":"a","type":"Plus","quota":3}"#]);
    assert_eq!(p.cumulative_total(), 1);
    let items = vec![
        j(r#"{"access_token":"a","email":"x"}"#),
        j(r#"{"access_token":"b"}"#),
        j(r#"{"access_token":"b","quota":2}"#),
        j("5"),
    ];
    assert_eq!(p.add_account_items(&items, NOW), (1, 1));
    assert_eq!(p.cumulative_total(), 2);
    assert_eq!(p.list_tokens(), texts(&["a", "b"]));
    let a = p.get_account("a").unwrap();
    assert_eq!(a.str_at("type"), "Plus");
    assert_eq!(a.str_at("email"), "x");
    assert_eq!(p.get_account("b").unwrap().int_at("quota", 0), 2);
    assert_eq!(p.add_accounts(&texts(&["c", "", "c"]), "codex", NOW), (1, 0));
    assert_eq!(p.get_account("c").unwrap().str_at("source_type"), "codex");
}

#[test]
fn deleted_accounts_are_gone() {
    let mut p = pool(&[r#"{"access_token":"a"}"#, r#"{"access_token":"b"}"#]);
    assert_eq!(p.delete_accounts(&texts(&["a", "x", ""])), 1);
    assert!(p.get_account("a").is_none());
    assert!(p.get_account("b").is_some());
    assert_eq!(p.delete_accounts(&texts(&[])), 0);
}

#[test]
fn images_are_paid_for() {
    let mut p = pool(&[r#"{"access_token":"a","quota":2}"#]);
    let a = p.mark_image_result("a", true, false, "now", NOW).unwrap();
    assert_eq!((a.int_at("quota", 9), a.int_at("success", 9)), (1, 1));
    assert_eq!(a.str_at("status"), "正常");
    assert_eq!(a.str_at("last_used_at"), "now");
    let a = p.mark_image_result("a", true, false, "now", NOW).unwrap();
    assert_eq!(a.int_at("quota", 9), 0);
    assert_eq!(a.str_at("status"), "限流");
    let a = p.mark_image_result("a", false, false, "now", NOW).unwrap();
    assert_eq!(a.int_at("fail", 9), 1);
    assert!(p.mark_image_result("a", true, true, "now", NOW).is_none());
    assert!(p.get_account("a").is_none());
}

#[test]
fn changes_keep_the_token() {
    let mut p = pool(&[r#"{"access_token":"a"}"#]);
    let a = p.update_account("a", &j(r#"{"access_token":"z","status":"禁用"}"#), false, NOW).unwrap();
    assert_eq!(a.str_at("access_token"), "a");
    assert_eq!(a.str_at("status"), "禁用");
    assert!(p.update_account("q", &j("{}"), false, NOW).is_none());
    assert!(p.update_account("a", &j(r#"{"status":"限流"}"#), true, NOW).is_none());
    assert!(p.get_account("a").is_none());
}

#[test]
fn invalid_tokens_are_marked_or_removed() {
    let mut p = pool(&[r#"{"access_token":"a","quota":4}"#, r#"{"access_token":"b"}"#]);
    assert!(!p.remove_invalid_token("a", false, false, NOW));
    let a = p.get_account("a").unwrap();
    assert_eq!(a.str_at("status"), "异常");
    assert_eq!(a.int_at("quota", 9), 0);
    assert!(p.remove_invalid_token("b", true, false, NOW));
    assert!(p.get_account("b").is_none());
}

#[test]
fn old_tokens_lead_to_new_ones() {
    let mut p = pool(&[r#"{"access_token":"a","quota":5,"refresh_token":"r"}"#]);
    match p.acquire_next_candidate_token(&Vec::new(), &anyone(), 1) {
        Slot::Taken(t) => assert_eq!(t, "a"),
        _ => panic!("no slot"),
    }
    let (t, rotated) = p.apply_refreshed_tokens(
        "a",
        &j(r#"{"access_token":" b ","refresh_token":"r2","id_token":""}"#),
        "at",
        NOW,
    );
    assert_eq!((t.as_str(), rotated), ("b", true));
    assert_eq!(p.resolve_access_token("a"), "b");
    let b = p.get_account("a").unwrap();
    assert_eq!(b.str_at("refresh_token"), "r2");
    assert_eq!(b.str_at("last_token_refresh_at"), "at");
    assert!(matches!(
        p.acquire_next_candidate_token(&Vec::new(), &anyone(), 1),
        Slot::Busy
    ));
    p.release_image_slot("a");
    assert!(matches!(
        p.acquire_next_candidate_token(&Vec::new(), &anyone(), 1),
        Slot::Taken(_)
    ));
}

#[test]
fn complaints_about_tokens_are_deferred() {
    let time = Moment { secs: 1714979289, nanos: 0 };
    let fresh = j(r#"{"created_at":"2024-05-06T07:00:00Z","invalid_count":5}"#);
    assert!(should_defer_invalid_token(&fresh, time));
    let first = j(r#"{"created_at":"2024-05-01T00:00:00Z","invalid_count":1}"#);
    assert!(should_defer_invalid_token(&first, time));
    let again = j(
        r#"{"created_at":"2024-05-01T00:00:00Z","invalid_count":2,"last_invalid_at":"2024-05-06T07:08:00Z"}"#,
    );
    assert!(should_defer_invalid_token(&again, time));
    let settled = j(
        r#"{"created_at":"2024-05-01T00:00:00Z","invalid_count":2,"last_invalid_at":"2024-05-06T07:00:00Z"}"#,
    );
    assert!(!should_defer_invalid_token(&settled, time));
    let mut p = pool(&[r#"{"access_token":"a","created_at":"2024-05-01T00:00:00Z"}"#]);
    assert!(!p.record_invalid_token_seen("a", "", true, time, "at", NOW));
    let a = p.get_account("a").unwrap();
    assert_eq!(a.int_at("invalid_count", 0), 1);
    assert_eq!(a.str_at("last_refresh_error"), "invalid access token");
    assert!(p.record_invalid_token_seen("a", "e", false, time, "at", NOW));
    p.record_refresh_success("a", NOW);
    assert_eq!(p.get_account("a").unwrap().int_at("invalid_count", 9), 0);
    assert!(p.record_invalid_token_seen("unknown", "e", true, time, "at", NOW));
}

#[test]
fn keepalive_waits_its_turn() {
    let now = Moment { secs: 1714979289, nanos: 0 };
    assert!(refresh_token_keepalive_due_at(&j(r#"{"access_token":"a"}"#), now).is_none());
    let due = j(r#"{"refresh_token":"r","last_token_refresh_at":"2024-05-01T00:00:00Z"}"#);
    assert!(refresh_token_keepalive_due_at(&due, now).is_some());
    let fresh = j(r#"{"refresh_token":"r","last_token_refresh_at":"2024-05-06T00:00:00Z"}"#);
    assert!(refresh_token_keepalive_due_at(&fresh, now).is_none());
    let failed = j(
        r#"{"refresh_token":"r","last_token_refresh_at":"2024-05-01T00:00:00Z","last_token_refresh_error_at":"2024-05-06T05:00:00Z"}"#,
    );
    assert!(refresh_token_keepalive_due_at(&failed, now).is_none());
    assert!(recent_token_refresh_error(
        &j(r#"{"last_token_refresh_error_at":"2024-05-06T07:05:00Z"}"#),
        now
    ));
    assert!(!recent_token_refresh_error(
        &j(r#"{"last_token_refresh_error_at":"2024-05-06T07:00:00Z"}"#),
        now
    ));
    let p = pool(&[
        r#"{"access_token":"a","refresh_token":"r","last_token_refresh_at":"2024-05-03T00:00:00Z"}"#,
        r#"{"access_token":"b","refresh_token":"r","last_token_refresh_at":"2024-05-01T00:00:00Z"}"#,
        r#"{"access_token":"c","refresh_token":"r","last_token_refresh_at":"2024-05-02T00:00:00Z"}"#,
        r#"{"access_token":"d","refresh_token":"r","last_token_refresh_at":"2024-05-02T12:00:00Z"}"#,
        r#"{"access_token":"e","refresh_token":"r","status":"禁用"}"#,
    ]);
    assert_eq!(p.list_refresh_token_keepalive_tokens(now), texts(&["b", "c", "d"]));
}

#[test]
fn rosters_list_tokens() {
    let soon = token(r#"{"exp":1000000}"#);
    let late = token(r#"{"exp":9000000}"#);
    let items = vec![
        j(&format!(r#"{{"access_token":"{soon}","refresh_token":"r","status":"限流"}}"#)),
        j(&format!(r#"{{"access_token":"{late}","refresh_token":"r"}}"#)),
        j(r#"{"access_token":"x","status":"限流"}"#),
    ];
    let p = AccountService::new(&items, None, NOW);
    assert_eq!(p.list_limited_tokens(), vec![soon.clone(), "x".to_string()]);
    assert_eq!(p.list_expiring_access_tokens(999_000), vec![soon]);
}

#[test]
fn statistics_add_up() {
    let p = pool(&[
        r#"{"access_token":"a","quota":5,"success":2,"fail":1,"type":"Plus"}"#,
        r#"{"access_token":"b","status":"限流","quota":7,"success":1}"#,
        r#"{"access_token":"c","status":"异常"}"#,
        r#"{"access_token":"d","image_quota_unknown":true,"type":"Plus"}"#,
    ]);
    assert_eq!(
        p.get_stats().to_text(),
        r#"{"total":4,"cumulative_total":4,"active":2,"limited":1,"abnormal":1,"disabled":0,"total_quota":5,"unlimited_quota_count":1,"total_success":3,"total_fail":1,"by_type":{"Plus":2,"free":2}}"#
    );
    let h = p.account_health();
    assert!(h.bool_at("healthy", false));
    assert_eq!(h.str_at("status"), "ok");
    let empty = pool(&[]);
    assert_eq!(empty.account_health().str_at("status"), "degraded");
}

#[test]
fn exports_need_three_tokens() {
    let access = token(
        r#"{"exp":0,"iat":1714979289,"https://api.openai.com/auth":{"chatgpt_account_id":"acc"},"https://api.openai.com/profile":{"email":"p@x"}}"#,
    );
    let items = vec![
        j(&format!(
            r#"{{"access_token":"{access}","refresh_token":"r","id_token":"i","password":"pw"}}"#
        )),
        j(r#"{"access_token":"b","refresh_token":"r"}"#),
    ];
    let p = AccountService::new(&items, None, NOW);
    let out = p.build_export_items(&Vec::new());
    assert_eq!(out.len(), 1);
    assert_eq!(out[0].str_at("type"), "codex");
    assert_eq!(out[0].str_at("email"), "p@x");
    assert_eq!(out[0].str_at("account_id"), "acc");
    assert_eq!(out[0].str_at("last_refresh"), "2024-05-06T15:08:09+08:00");
    assert_eq!(out[0].str_at("expired"), "1970-01-01T08:00:00+08:00");
    assert_eq!(out[0].str_at("password"), "pw");
    assert_eq!(p.build_export_items(&texts(&["b"])).len(), 0);
    let x = export_accounts(&p, &j("{}"), "T").ok().unwrap();
    assert_eq!(x.filename, "codex-accounts-T.json");
    assert_eq!(x.content_type, "application/json");
    let z = export_accounts(&p, &j(r#"{"format":"zip"}"#), "T").ok().unwrap();
    assert_eq!(z.filename, "codex-accounts-T.zip");
    assert_eq!(&z.bytes[..2], b"PK");
    let none = export_accounts(&p, &j(r#"{"access_tokens":["b"]}"#), "T").err().unwrap();
    assert_eq!(none.status, 400);
}

#[test]
fn export_names_are_safe_and_differ() {
    assert_eq!(safe_export_name(" a b/c@d..", "x"), "a-b-c-d");
    assert_eq!(safe_export_name("///", "x"), "x");
    assert_eq!(safe_export_name(&"y".repeat(100), "x").len(), 80);
    let items = vec![j(r#"{"email":"a@b"}"#), j(r#"{"email":"a@b"}"#), j("{}")];
    let zip = account_zip_bytes(&items);
    let find = |name: &str| zip.windows(name.len()).any(|w| w == name.as_bytes());
    assert!(find("a-b.json"));
    assert!(find("a-b-2.json"));
    assert!(find("account-003.json"));
}

#[test]
fn tokens_of_requests_are_read() {
    assert_eq!(unique_tokens(&texts(&[" a ", "", "a", "b"])), texts(&["a", "b"]));
    assert_eq!(required_tokens(&j(r#"{"tokens":["a"]}"#), "tokens").ok().unwrap(), texts(&["a"]));
    assert_eq!(required_tokens(&j("{}"), "tokens").err().unwrap().status, 400);
    let mut p = pool(&[]);
    let made = create_accounts(&mut p, &j(r#"{"tokens":["a","b"]}"#), NOW).ok().unwrap();
    assert_eq!(made.added, 2);
    assert_eq!(p.list_tokens(), texts(&["a", "b"]));
    assert_eq!(create_accounts(&mut p, &j("{}"), NOW).err().unwrap().status, 400);
    assert_eq!(read_account_change(&j("{}")).err().unwrap().status, 400);
    assert_eq!(read_key_change(&j("{}")).err().unwrap().status, 400);
}

#[test]
fn new_pools_and_servers_are_checked() {
    let msg = |e: model2api::error::AppError| e.detail.str_at("error");
    assert_eq!(msg(check_new_pool(&j("{}")).err().unwrap()), "base_url is required");
    assert_eq!(
        msg(check_new_pool(&j(r#"{"base_url":"u"}"#)).err().unwrap()),
        "secret_key is required"
    );
    assert!(check_new_pool(&j(r#"{"base_url":"u","secret_key":"s"}"#)).is_ok());
    assert_eq!(
        msg(check_new_server(&j(r#"{"base_url":"u","email":"e"}"#)).err().unwrap()),
        "email+password or api_key is required"
    );
    assert!(check_new_server(&j(r#"{"base_url":"u","api_key":"k"}"#)).is_ok());
}

#[test]
fn logins_become_accounts() {
    let p = login_payload(&j(r#"{"access_token":"a","refresh_token":"r","id_token":"i"}"#));
    assert_eq!(p.str_at("access_token"), "a");
    assert_eq!(p.str_at("refresh_token"), "r");
}

#[test]
fn refreshes_are_planned() {
    let soon = token(r#"{"exp":1000000}"#);
    let p = pool(&[&format!(r#"{{"access_token":"{soon}","refresh_token":"r"}}"#)]);
    let now = Moment { secs: 999_000, nanos: 0 };
    match plan_refresh(&p, &soon, false, now) {
        RefreshPlan::Request { active, refresh_token } => {
            assert_eq!(active, soon);
            assert_eq!(refresh_token, "r");
        }
        _ => panic!("kept"),
    }
    match plan_refresh(&p, &soon, false, Moment { secs: 5, nanos: 0 }) {
        RefreshPlan::Keep(t) => assert_eq!(t, soon),
        _ => panic!("asked"),
    }
    match plan_refresh(&p, "unknown", true, now) {
        RefreshPlan::Keep(t) => assert_eq!(t, "unknown"),
        _ => panic!("asked"),
    }
    assert_eq!(refresh_proxy(&j(r#"{"proxy":" p "}"#), "q"), "p");
    assert_eq!(refresh_proxy(&j("{}"), "q"), "q");
}

#[test]
fn answers_to_refreshes_are_read() {
    let ok = read_refresh_response(200, r#"{"access_token":" a "}"#, "r").unwrap();
    assert_eq!(ok.to_text(), r#"{"access_token":"a","refresh_token":"r","id_token":""}"#);
    assert_eq!(
        read_refresh_response(400, r#"{"error":"bad"}"#, "r").err().unwrap(),
        "oauth_refresh_http_400: bad"
    );
    assert_eq!(
        read_refresh_response(500, "oops", "r").err().unwrap(),
        "oauth_refresh_http_500: oops"
    );
    assert_eq!(read_refresh_response(200, "", "r").err().unwrap(), "oauth_refresh_http_200");
    let mut p = pool(&[r#"{"access_token":"a"}"#]);
    assert_eq!(finish_refresh(&mut p, "a", &Err("e".to_string()), "at", NOW), "a");
    assert_eq!(p.get_account("a").unwrap().str_at("last_token_refresh_error"), "e");
    assert_eq!(finish_refresh(&mut p, "a", &Ok(j(r#"{"access_token":"b"}"#)), "at", NOW), "b");
}

#[test]
fn data_are_fetched_in_steps() {
    let FetchStep::Refresh { state, token, force } = fetch_start("a") else { panic!("no refresh") };
    assert_eq!((token.as_str(), force), ("a", false));
    let FetchStep::Ask { state, token } = fetch_next(state, FetchEvent::Refreshed(String::new()))
    else {
        panic!("no question")
    };
    assert_eq!(token, "a");
    let FetchStep::Refresh { state, token, force } =
        fetch_next(state, FetchEvent::Answer(Asked::Invalid("m".to_string())))
    else {
        panic!("no refresh")
    };
    assert_eq!((token.as_str(), force), ("a", true));
    let FetchStep::Ask { state, token } = fetch_next(state, FetchEvent::Refreshed("b".to_string()))
    else {
        panic!("no question")
    };
    assert_eq!(token, "b");
    match fetch_next(state, FetchEvent::Answer(Asked::Info(j("{}")))) {
        FetchStep::Store { token, .. } => assert_eq!(token, "b"),
        _ => panic!("not stored"),
    }
    match fetch_start("") {
        FetchStep::Fail(e) => assert_eq!(e, "access_token is required"),
        _ => panic!("went on"),
    }
}

#[test]
fn hunts_end() {
    let mut p = pool(&[r#"{"access_token":"a","quota":5}"#, r#"{"access_token":"b","quota":5}"#]);
    let mut h = Hunt::new();
    let HuntStep::Check(t) = h.next(&mut p, &anyone(), 1) else { panic!("no check") };
    assert_eq!(t, "a");
    assert!(h.checked(&mut p, &anyone(), &t, None).is_none());
    let HuntStep::Check(t) = h.next(&mut p, &anyone(), 1) else { panic!("no check") };
    assert_eq!(t, "b");
    let account = p.get_account("b").unwrap();
    assert_eq!(h.checked(&mut p, &anyone(), &t, Some(&account)), Some("b".to_string()));
    match h.next(&mut p, &anyone(), 1) {
        HuntStep::Fail(e) => assert_eq!(e, "no available image quota"),
        _ => panic!("went on"),
    }
}

#[test]
fn reports_leave_connection_errors_out() {
    assert!(is_tls_connection_error("TLS handshake"));
    assert!(!is_tls_connection_error("quota"));
    let p = pool(&[]);
    let r = report_refresh(
        &p,
        &vec![
            Outcome { label: "a".to_string(), result: Ok(true) },
            Outcome { label: "b".to_string(), result: Ok(false) },
            Outcome { label: "c".to_string(), result: Err("timeout".to_string()) },
            Outcome { label: "d".to_string(), result: Err("denied".to_string()) },
        ],
    );
    assert_eq!(
        r.to_text(),
        r#"{"refreshed":1,"errors":[{"token":"d","error":"denied"}],"items":[],"relogined":0}"#
    );
    let k = report_keepalive(
        &p,
        &vec![
            Kept { label: "a".to_string(), account: Some(j("{}")) },
            Kept { label: "b".to_string(), account: None },
            Kept { label: "c".to_string(), account: Some(j(r#"{"last_token_refresh_error":"e"}"#)) },
        ],
    );
    assert_eq!(
        k.to_text(),
        r#"{"refreshed":1,"errors":[{"token":"c","error":"e"}],"items":[],"relogined":0}"#
    );
}

#[test]
fn progress_is_kept_until_cleaned() {
    let mut b = Board::new();
    b.init_refresh_progress("p", 2);
    b.update_refresh_progress("p", Some(&j(r#"{"status":"限流","quota":3}"#)));
    b.update_refresh_progress("p", None);
    let v = b.get_refresh_progress("p").unwrap();
    assert_eq!(v.int_at("processed", 0), 2);
    assert_eq!(v.int_at("total_quota", 0), 3);
    assert_eq!(v.at("status_counts").int_at("限流", 0), 1);
    assert_eq!(v.at("status_counts").int_at("正常", 0), 1);
    b.finish_refresh_progress("p", None, Some("e"));
    let v = b.get_refresh_progress("p").unwrap();
    assert!(v.bool_at("done", false));
    assert_eq!(v.str_at("error"), "e");
    b.clean_refresh_progress("p");
    assert!(b.get_refresh_progress("p").is_none());
    b.init_relogin_progress("q", 1);
    b.update_relogin_progress("q", "t", "跳过", Some("无邮箱密码"));
    let v = b.get_relogin_progress("q").unwrap();
    assert!(v.bool_at("done", false));
    assert_eq!(v.items_at("results")[0].str_at("status"), "跳过");
    b.update_relogin_progress("q", "u", "正常", None);
    assert!(b.get_relogin_progress("q").unwrap().items_at("results")[1].at("error").is_null());
}

#[test]
fn logins_with_passwords_are_not_made() {
    let mut p = pool(&[
        r#"{"access_token":"a","email":"e","password":"p","quota":3}"#,
        r#"{"access_token":"b"}"#,
        r#"{"access_token":"d","email":"e","password":"p"}"#,
    ]);
    let others = (p.get_account("b").unwrap().to_text(), p.get_account("d").unwrap().to_text());
    let r = p.re_login_accounts(&texts(&["a", "b", "c"]), &texts(&["A", "B", "C"]), NOW);
    assert_eq!(p.get_account("a").unwrap().str_at("status"), "异常");
    assert_eq!(p.get_account("a").unwrap().int_at("quota", 0), 3);
    assert_eq!(p.get_account("b").unwrap().to_text(), others.0);
    assert_eq!(p.get_account("d").unwrap().to_text(), others.1);
    assert_eq!(r.items_at("items")[0].str_at("status"), "异常");
    assert_eq!(r.int_at("relogined", 9), 0);
    assert_eq!(r.int_at("skipped", 9), 1);
    assert_eq!(r.at("errors").to_text(), r#"[{"token":"C","error":"账号不存在"}]"#);
}

#[test]
fn stored_accounts_are_read_back() {
    let p = pool(&[
        r#"{"accessToken":"t","type":"Codex","quota":-3,"email":"","proxy":" p "}"#,
        r#"{"access_token":"u","source_type":" WEB ","restore_at":5}"#,
    ]);
    let stored = p.list_accounts();
    let again = AccountService::new(&stored, None, "2030-01-01T00:00:00Z");
    assert_eq!(Json::Arr(again.list_accounts()).to_text(), Json::Arr(stored).to_text());
    let a = p.get_account("u").unwrap();
    assert_eq!(a.str_at("source_type"), "web");
    assert_eq!(normalize_account(&a, "later").unwrap().to_text(), a.to_text());
}

#[test]
fn text_use_is_dated() {
    let mut p = pool(&[r#"{"access_token":"t"}"#]);
    assert!(p.get_account("t").unwrap().at("last_used_at").is_null());
    p.mark_text_used("t", "2024-01-02 03:04:05", NOW);
    assert_eq!(p.get_account("t").unwrap().str_at("last_used_at"), "2024-01-02 03:04:05");
    p.mark_text_used("nobody", "x", NOW);
    assert_eq!(p.list_tokens(), texts(&["t"]));
    let mut b = Board::new();
    b.init_relogin_progress("q", 1);
    b.finish_relogin_progress("q", Some(&j("[1]")), None);
    assert_eq!(b.get_relogin_progress("q").unwrap().at("result").to_text(), "[1]");
    b.clean_relogin_progress("q");
    assert!(b.get_relogin_progress("q").is_none());
}

#[test]
fn each_token_has_its_turn() {
    let mut p = pool(&[
        r#"{"access_token":"a","quota":5}"#,
        r#"{"access_token":"b","quota":5}"#,
        r#"{"access_token":"c","quota":5}"#,
    ]);
    let mut got = Vec::new();
    for _ in 0..3 {
        match p.acquire_next_candidate_token(&Vec::new(), &anyone(), 2) {
            Slot::Taken(t) => got.push(t),
            _ => panic!("a token is free"),
        }
    }
    got.sort();
    assert_eq!(got, texts(&["a", "b", "c"]));
    for t in &got {
        p.release_image_slot(t);
        p.release_image_slot(t);
    }
    let mut again = 0;
    while let Slot::Taken(_) = p.acquire_next_candidate_token(&Vec::new(), &anyone(), 2) {
        again += 1;
    }
    assert_eq!(again, 6);
}

#[test]
fn normalizing_twice_keeps_other_text() {
    let a = normalize_account(&j(r#"{"access_token":"t","source_type":" ÉCOLE ","note":[1]}"#), NOW);
    let a = a.unwrap();
    assert_eq!(a.str_at("source_type"), "école");
    assert_eq!(a.at("note").to_text(), "[1]");
    assert_eq!(normalize_account(&a, "later").unwrap().to_text(), a.to_text());
}
