use model2api::cpa::{
    download_url, files_url, normalize_import_job, normalize_pool, read_remote_files,
    read_remote_token, CpaService,
};
use model2api::log::{matches_filters, parse_line, split_lines, LogService, LoggedCall};
use model2api::auth::token_urlsafe;
use model2api::digest::{full_uuid, hyphenated_uuid};
use model2api::oauth::{
    draw_secrets, exchange_payload, extract_code_from_callback, make_challenge, read_exchange,
    OAuthLoginService, Platform, Secrets,
};
use model2api::value::Json;

fn j(s: &str) -> Json {
    Json::parse_text(s).unwrap()
}

fn texts(v: &[&str]) -> Vec<String> {
    v.iter().map(|s| s.to_string()).collect()
}

fn platform() -> Platform {
    Platform {
        auth_base: "https://auth".to_string(),
        client_id: "cid".to_string(),
        audience: "aud".to_string(),
        redirect_uri: "https://back/cb".to_string(),
        auth0_client: "a0".to_string(),
    }
}

fn secrets(session: &str) -> Secrets {
    Secrets {
        verifier: format!("ver-{session}"),
        challenge: "ch".to_string(),
        nonce: "no".to_string(),
        device_id: "de".to_string(),
        session_id: session.to_string(),
        state_tail: "tail".to_string(),
    }
}

#[test]
fn logins_start_with_an_address() {
    let mut s = OAuthLoginService::new();
    let v = s.start(&platform(), &secrets("s1"), " a@b ", 0);
    assert_eq!(v.str_at("session_id"), "s1");
    assert_eq!(v.str_at("redirect_uri_prefix"), "https://back/cb");
    let url = v.str_at("authorize_url");
    assert!(url.starts_with("https://auth/api/accounts/authorize?issuer=https%3A%2F%2Fauth&client_id=cid&"));
    assert!(url.contains("&state=s1.tail&"));
    assert!(url.ends_with("&login_hint=a%40b"));
}

#[test]
fn secrets_are_drawn() {
    assert_eq!(
        make_challenge("dBjftJeZ4CVP-mB92K27uhbUJU1p1r_wW1gFWFOEjXk"),
        "E9Melhoa2OwvFrEMTJguCHaoeK1t8URWbuGJSstw-cM"
    );
    let s = draw_secrets();
    assert_eq!(s.challenge, make_challenge(&s.verifier));
    assert_eq!((s.verifier.len(), s.nonce.len(), s.state_tail.len()), (86, 43, 22));
    assert_ne!(s.verifier, draw_secrets().verifier);
    assert_eq!(token_urlsafe(0), "");
    assert!(token_urlsafe(24).chars().all(|c| c.is_ascii_alphanumeric() || c == '-' || c == '_'));
    let (plain, grouped) = (full_uuid(), hyphenated_uuid());
    assert_eq!(plain.len(), 32);
    assert!(plain.chars().all(|c| c.is_ascii_hexdigit()));
    let sides: Vec<usize> = grouped.split('-').map(|p| p.len()).collect();
    assert_eq!(sides, vec![8, 4, 4, 4, 12]);
    assert_eq!(s.device_id.len(), 36);
    assert_eq!(s.session_id.len(), 32);
}

#[test]
fn callbacks_find_their_session() {
    let mut s = OAuthLoginService::new();
    s.start(&platform(), &secrets("s1"), "", 0);
    let x = s.match_callback("", "c", "s1.tail", 10).ok().unwrap();
    assert_eq!((x.session_id.as_str(), x.code_verifier.as_str()), ("s1", "ver-s1"));
    assert_eq!(
        exchange_payload(&platform(), &x).to_text(),
        r#"{"client_id":"cid","code_verifier":"ver-s1","grant_type":"authorization_code","code":"c","redirect_uri":"https://back/cb"}"#
    );
    assert!(s.match_callback(" s1 ", "c", "", 10).is_ok());
    assert!(s.match_callback("", "c", "s1.other", 10).err().unwrap().0.starts_with("state 不匹配"));
    assert_eq!(s.match_callback("", "", "", 10).err().unwrap().0, "缺少 code 或 callback URL");
    assert_eq!(
        s.match_callback("", "c", "", 10).err().unwrap().0,
        "既未提供 session_id，callback URL 中也未携带 state"
    );
    assert!(s.match_callback("zzz", "c", "", 10).err().unwrap().0.starts_with("OAuth 会话已过期"));
    s.complete("s1");
    assert!(s.match_callback("s1", "c", "", 10).is_err());
}

#[test]
fn sessions_expire_and_are_bounded() {
    let mut s = OAuthLoginService::new();
    s.start(&platform(), &secrets("old"), "", 0);
    assert!(s.match_callback("old", "c", "", i64::MAX / 2).is_err());
    let mut s = OAuthLoginService::new();
    for i in 0..70 {
        s.start(&platform(), &secrets(&format!("s{i}")), "", i);
    }
    assert!(s.match_callback("s0", "c", "", 70).is_err());
    assert!(s.match_callback("s69", "c", "", 70).is_ok());
}

#[test]
fn codes_are_taken_from_addresses() {
    let ok = |v: &str| extract_code_from_callback(v).ok().unwrap();
    assert_eq!(
        ok(" https://x/cb?code=a%20b&state=s.t "),
        ("a b".to_string(), "s.t".to_string())
    );
    assert_eq!(ok("rawcode"), ("rawcode".to_string(), String::new()));
    assert_eq!(ok("  "), (String::new(), String::new()));
    let bad = |v: &str| extract_code_from_callback(v).err().unwrap().0;
    assert_eq!(bad("https://x/?error=e&error_description=d"), "d");
    assert_eq!(bad("https://x/?error=e"), "e");
    assert_eq!(bad("https://x/"), "callback URL 中没有 code 参数");
    assert!(bad("https://").starts_with("无法解析 callback URL: "));
}

#[test]
fn exchanges_are_read() {
    assert_eq!(
        read_exchange(200, r#"{"access_token":" a ","refresh_token":"r"}"#).ok().unwrap().to_text(),
        r#"{"access_token":"a","refresh_token":"r","id_token":""}"#
    );
    assert_eq!(
        read_exchange(400, r#"{"error_description":"d"}"#).err().unwrap().0,
        "OpenAI 拒绝换 token (HTTP 400): d"
    );
    assert_eq!(read_exchange(502, "").err().unwrap().0, "OpenAI 拒绝换 token (HTTP 502)");
    assert!(read_exchange(200, r#"{"access_token":"a"}"#)
        .err()
        .unwrap()
        .0
        .starts_with("OpenAI 没有返回 refresh_token"));
}

#[test]
fn pools_are_kept() {
    let mut c = CpaService::load(&j("[]"), "now");
    let p = c.add_pool("id1", " n ", " http://x/ ", " s ");
    assert_eq!(
        p.to_text(),
        r#"{"id":"id1","name":"n","base_url":"http://x/","secret_key":"s","import_job":null}"#
    );
    assert!(c.get_pool("id1").is_some());
    assert!(c.get_pool("id2").is_none());
    let p = c.update_pool("id1", &j(r#"{"name":"m","base_url":null,"id":"z"}"#), "job", "now").unwrap();
    assert_eq!((p.str_at("id"), p.str_at("name")), ("id1".to_string(), "m".to_string()));
    assert_eq!(p.str_at("base_url"), "http://x/");
    assert!(c.delete_pool("id1"));
    assert!(!c.delete_pool("id1"));
    let one = CpaService::load(&j(r#"{"base_url":"u","id":"q"}"#), "now");
    assert_eq!(one.list_pools()[0].str_at("id"), "q");
    assert!(CpaService::load(&j(r#"{"base_url":""}"#), "now").list_pools().is_empty());
}

#[test]
fn imports_are_followed() {
    let mut c = CpaService::load(&j("[]"), "now");
    c.add_pool("p", "n", "u", "s");
    assert_eq!(
        c.start_import("p", &texts(&[" "]), "job", "t0").err().unwrap(),
        "selected files is required"
    );
    assert_eq!(
        c.start_import("q", &texts(&["a"]), "job", "t0").err().unwrap(),
        "pool not found"
    );
    let (job, names) = c.start_import("p", &texts(&[" a ", "", "b"]), "job", "t0").ok().unwrap();
    assert_eq!(names, texts(&["a", "b"]));
    assert_eq!((job.str_at("status"), job.int_at("total", 0)), ("pending".to_string(), 2));
    c.import_running("p", "f", "t1");
    c.import_progress("p", "a", None, "f", "t2");
    c.import_progress("p", "b", Some("bad"), "f", "t3");
    let job = c.get_import_job("p").unwrap();
    assert_eq!(job.str_at("status"), "running");
    assert_eq!((job.int_at("completed", 0), job.int_at("failed", 0)), (2, 1));
    assert_eq!(job.at("errors").to_text(), r#"[{"name":"b","error":"bad"}]"#);
    c.import_completed("p", 2, 1, 0, 1, "f", "t4");
    let job = c.get_import_job("p").unwrap();
    assert_eq!((job.str_at("status"), job.int_at("added", 0)), ("completed".to_string(), 1));
    assert_eq!(job.str_at("updated_at"), "t4");
    c.import_failed("p", "f", "t5");
    assert_eq!(c.get_import_job("p").unwrap().str_at("status"), "failed");
}

#[test]
fn unfinished_imports_fail_on_loading() {
    let raw = j(r#"{"status":"running","total":"4"}"#);
    let job = normalize_import_job(Some(&raw), true, "fresh", "now").unwrap();
    assert_eq!((job.str_at("status"), job.str_at("job_id")), ("failed".to_string(), "fresh".to_string()));
    assert_eq!(job.int_at("total", 0), 4);
    assert_eq!(
        normalize_import_job(Some(&raw), false, "f", "n").unwrap().str_at("status"),
        "running"
    );
    assert!(normalize_import_job(None, true, "f", "n").is_none());
    assert_eq!(normalize_pool(&j("{}"), "fresh", "j", "n").str_at("id"), "fresh");
}

#[test]
fn remote_files_are_read() {
    assert_eq!(files_url("http://x//"), "http://x/v0/management/auth-files");
    assert_eq!(download_url("http://x"), "http://x/v0/management/auth-files/download");
    let files = read_remote_files(
        200,
        &j(r#"{"files":[{"name":" a ","account":"e"},{"name":""},5]}"#),
    )
    .ok()
    .unwrap();
    assert_eq!(files[0].to_text(), r#"{"name":"a","email":"e"}"#);
    assert_eq!(files.len(), 1);
    assert_eq!(read_remote_files(404, &j("{}")).err().unwrap(), "remote list failed: HTTP 404");
    assert_eq!(read_remote_files(200, &j("{}")).err().unwrap(), "remote list payload is invalid");
    assert_eq!(read_remote_token(200, Some(&j(r#"{"access_token":" t "}"#))).unwrap(), "t");
    assert_eq!(read_remote_token(500, None).err().unwrap(), "HTTP 500");
    assert_eq!(read_remote_token(200, None).err().unwrap(), "invalid payload");
    assert_eq!(read_remote_token(200, Some(&j("{}"))).err().unwrap(), "missing access_token");
}

#[test]
fn log_entries_are_written_and_read() {
    let line = LogService::add("1", "2024-05-06 07:08:09", "call", "s", &j(r#"{"a":1}"#));
    assert_eq!(
        line,
        "{\"id\":\"1\",\"time\":\"2024-05-06 07:08:09\",\"type\":\"call\",\"summary\":\"s\",\"detail\":{\"a\":1}}\n"
    );
    let e = parse_line(line.trim_end(), 0).unwrap();
    assert_eq!(e.str_at("id"), "1");
    assert!(parse_line("nothing", 0).is_none());
    assert!(parse_line("[]", 0).is_none());
    let old = parse_line(r#"{"type":"call"}"#, 3).unwrap();
    assert_eq!(old.str_at("id"), "a881a56d0f71aed5d4413d8d");
    assert_ne!(old.str_at("id"), parse_line(r#"{"type":"call"}"#, 4).unwrap().str_at("id"));
    assert!(matches_filters(&e, "call", "2024-05-06", "2024-05-06"));
    assert!(!matches_filters(&e, "account", "", ""));
    assert!(!matches_filters(&e, "", "2024-05-07", ""));
    assert!(!matches_filters(&e, "", "", "2024-05-05"));
    let wide = j(r#"{"time":"日本語2x"}"#);
    assert!(matches_filters(&wide, "", "日本語2", "日本語2"));
    assert!(!matches_filters(&wide, "", "日本語2x", ""));
    assert!(matches_filters(&j(r#"{"time":"日本語語"}"#), "", "日本語", "日本語"));
    assert_eq!(split_lines("a\r\nb\n\nc"), texts(&["a", "b", "", "c"]));
    assert_eq!(split_lines(""), texts(&[]));
}

#[test]
fn the_newest_entries_come_first() {
    let mut log = String::new();
    for i in 0..4 {
        log.push_str(&LogService::add(&i.to_string(), "2024-05-06", "call", "s", &Json::Null));
    }
    log.push_str("broken\n");
    let ids = |v: Vec<Json>| v.iter().map(|e| e.str_at("id")).collect::<Vec<String>>();
    assert_eq!(ids(LogService::list(&log, "", "", "", 2)), texts(&["3", "2"]));
    assert_eq!(ids(LogService::list(&log, "call", "", "", 0)), texts(&[]));
    assert_eq!(ids(LogService::list(&log, "call", "", "", 1)), texts(&["3"]));
    assert_eq!(ids(LogService::list(&log, "x", "", "", 5)), texts(&[]));
    let (rest, n) = LogService::delete(&log, &texts(&["1", " 3 ", "9"]));
    assert_eq!(n, 2);
    let rest = rest.unwrap();
    assert!(rest.ends_with("broken\n"));
    assert_eq!(ids(LogService::list(&rest, "", "", "", 9)), texts(&["2", "0"]));
    assert_eq!(LogService::delete(&log, &texts(&[" "])), (None, 0));
}

#[test]
fn calls_are_logged() {
    let c = LoggedCall::new(&j(r#"{"id":"1","name":"n","role":"user"}"#), "/e", "m", "sum");
    let (s, d) = c.finish("", "success", 5, &j(r#"{"x":1,"status":"other"}"#));
    assert_eq!(s, "sum");
    assert_eq!(
        d.to_text(),
        r#"{"key_id":"1","key_name":"n","role":"user","endpoint":"/e","model":"m","status":"other","duration_ms":5,"x":1}"#
    );
    assert_eq!(c.finish("t", "failed", 5, &Json::Null).0, "t");
}

#[test]
fn stored_pools_are_read_back() {
    let raw = j(r#"{"name":" n ","import_job":{"status":"running","total":"3","errors":[1]}}"#);
    let p = normalize_pool(&raw, "0123456789ab", "0123456789abcdef0123456789abcdef", "now");
    assert_eq!(p.str_at("id"), "0123456789ab");
    assert_eq!(p.at("import_job").str_at("status"), "failed");
    assert_eq!(p.at("import_job").int_at("total", 0), 3);
    assert_eq!(normalize_pool(&p, "x", "y", "later").to_text(), p.to_text());
}
