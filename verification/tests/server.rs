use model2api::ai::{
    body_str_list, editable_task_args, is_stream, parse_bool_field, parse_count_field,
    parse_json_edit, parse_task_ids, required_prompt, str_field, ImageEditForm,
};
use model2api::auth::{default_name, hash_key, normalize_item, random_key, AuthService};
use model2api::calls::{failure_note, plan_call, refused_call, Endpoint};
use model2api::clock::Moment;
use model2api::config::{
    app_version, image_expired, normalize_backup_settings, normalize_bool,
    normalize_chat_completion_cache_settings, normalize_image_storage_settings,
    normalize_positive_int, validate_image_storage_settings, Config,
};
use model2api::content_filter::{
    extract_review_decision, is_allow_decision, is_reject_decision, judge, judge_body, limit_text,
    on_failure, resolve_fail_open, sanitize_for_review, text_of, truthy, ContentFilter,
    ContentFilterError, Screening,
};
use model2api::error::{
    anthropic_error_payload, default_error_code, default_error_type, error_message_from_detail,
    is_anthropic_messages_path, is_openai_compatible_path, openai_error_payload, AppError,
};
use model2api::image_inputs::{
    collect_sources_from_value, encode_images, is_image_field, is_json_request, is_setting_field,
    parse_bool, parse_image_edit_json, payload_from_fields, EditForm,
};
use model2api::support::{
    extract_bearer_token, image_quota_error, legacy_admin_identity, message_authorization,
    require_admin, require_identity, resolve_image_base_url, resolve_web_asset,
    sanitize_cpa_pools, sanitize_sub2api_servers, web_asset_candidates, Identity, ResolvedPath,
};
use model2api::system::{
    backup_disposition, cors_image_headers, health_json, health_page, image_disposition,
    login_answer, not_implemented, proxy_candidate, query_str, read_tags_request,
    sanitize_updates, watch_interval, watch_plan,
};
use model2api::value::Json;

fn j(s: &str) -> Json {
    Json::parse_text(s).unwrap()
}

fn texts(v: &[&str]) -> Vec<String> {
    v.iter().map(|s| s.to_string()).collect()
}

fn said(e: &AppError) -> String {
    e.detail.str_at("error")
}

fn at(secs: i64) -> Moment {
    Moment { secs, nanos: 0 }
}

#[test]
fn errors_are_answered_by_path() {
    let e = AppError::bad_request("no");
    assert_eq!(e.body().to_text(), r#"{"detail":{"error":"no"}}"#);
    assert_eq!(e.to_text("400 Bad Request"), "400 Bad Request: no");
    let e = AppError::unauthorized("no").with_path("/v1/chat/completions");
    assert_eq!(
        e.body().to_text(),
        r#"{"error":{"message":"no","type":"authentication_error","param":null,"code":"invalid_api_key"}}"#
    );
    let e = AppError::upstream("no").with_path("/v1/messages").with_header("A", "b");
    assert_eq!(e.status, 502);
    assert_eq!(e.headers, vec![("A".to_string(), "b".to_string())]);
    assert_eq!(
        e.body().to_text(),
        r#"{"type":"error","error":{"type":"api_error","message":"no"}}"#
    );
    assert_eq!(AppError::forbidden("x").status, 403);
    assert_eq!(AppError::not_found("x").status, 404);
    assert_eq!(AppError::internal("x").status, 500);
    assert!(is_openai_compatible_path("/v1"));
    assert!(!is_openai_compatible_path("/v10"));
    assert!(is_anthropic_messages_path("/v1/messages"));
}

#[test]
fn errors_have_messages() {
    assert_eq!(
        error_message_from_detail(&j(
            r#"[{"loc":["body","n",0],"msg":" bad "},{"msg":"worse"},5,{"loc":["x"]}]"#
        )),
        "n.0: bad; worse"
    );
    assert_eq!(error_message_from_detail(&j(r#"{"error":{"message":"","error":"deep"}}"#)), "deep");
    assert_eq!(error_message_from_detail(&j(r#"{"message":"m"}"#)), "m");
    assert_eq!(error_message_from_detail(&j("7")), "7");
    assert_eq!(error_message_from_detail(&Json::Null), "");
    assert_eq!(
        openai_error_payload(&j(r#"{"error":{"message":"m","type":"t","param":"p","code":5}}"#), 400)
            .to_text(),
        r#"{"error":{"message":"m","type":"t","param":"p","code":5}}"#
    );
    assert_eq!(
        openai_error_payload(&j(r#"{"error":{}}"#), 429).to_text(),
        r#"{"error":{"message":"request failed","type":"rate_limit_error","param":null,"code":"rate_limit_exceeded"}}"#
    );
    assert_eq!(
        anthropic_error_payload(&Json::Null, 404).to_text(),
        r#"{"type":"error","error":{"type":"invalid_request_error","message":"request failed"}}"#
    );
    assert_eq!(default_error_type(403), "permission_error");
    assert_eq!(default_error_type(302), "server_error");
    assert_eq!(default_error_code(403), "permission_denied");
    assert_eq!(default_error_code(418), "bad_request");
    assert_eq!(default_error_code(500), "upstream_error");
}

#[test]
fn settings_are_normalized() {
    assert!(normalize_bool(Some(&j(r#"" ON ""#)), false));
    assert!(!normalize_bool(Some(&j(r#""off""#)), true));
    assert!(normalize_bool(Some(&j(r#""maybe""#)), true));
    assert!(normalize_bool(Some(&j("0.5")), false));
    assert!(!normalize_bool(Some(&j("0")), true));
    assert!(normalize_bool(None, true));
    assert_eq!(normalize_positive_int(Some(&j("2.9")), 5, 0), 2);
    assert_eq!(normalize_positive_int(Some(&j(r#"" 7 ""#)), 5, 0), 7);
    assert_eq!(normalize_positive_int(Some(&j("-3")), 5, 1), 1);
    assert_eq!(normalize_positive_int(Some(&j("[]")), 5, 1), 5);
    let b = normalize_backup_settings(&j(
        r#"{"prefix":"/a/b/","bucket":" x ","interval_minutes":0,"include":{"images":"yes"}}"#,
    ));
    assert_eq!(b.str_at("prefix"), "a/b");
    assert_eq!(b.str_at("bucket"), "x");
    assert_eq!(b.int_at("interval_minutes", 0), 1);
    assert_eq!(b.int_at("rotation_keep", 0), 10);
    assert!(b.at("include").bool_at("images", false));
    assert!(b.at("include").bool_at("config", false));
    assert_eq!(normalize_backup_settings(&Json::Null).str_at("prefix"), "backups");
    let s = normalize_image_storage_settings(&j(
        r#"{"enabled":true,"mode":"BOTH","webdav_url":"http://x//","webdav_root_path":"/"}"#,
    ));
    assert_eq!(s.str_at("mode"), "both");
    assert_eq!(s.str_at("webdav_url"), "http://x");
    assert_eq!(s.str_at("webdav_root_path"), "chatgpt2api/images");
    assert_eq!(
        normalize_image_storage_settings(&j(r#"{"mode":"both"}"#)).str_at("mode"),
        "local"
    );
    assert_eq!(
        validate_image_storage_settings(&s).err().unwrap(),
        "启用 WebDAV 图片存储后必须填写 WebDAV 密码"
    );
    assert_eq!(
        validate_image_storage_settings(&j(r#"{"enabled":true}"#)).err().unwrap(),
        "启用 WebDAV 图片存储后必须填写 WebDAV URL"
    );
    assert!(validate_image_storage_settings(&j("{}")).is_ok());
    assert_eq!(
        normalize_chat_completion_cache_settings(&Json::Null).to_text(),
        r#"{"enabled":true,"ttl_seconds":60,"max_entries":256,"dedupe_inflight":true,"stream_cache":true,"normalize_messages":true,"drop_adjacent_duplicates":true,"drop_assistant_history":false}"#
    );
}

#[test]
fn configuration_is_read_and_changed() {
    let mut c = Config::from_document(Some(
        r#"{"auth-key":" k ","base_url":"http://h/ ","log_levels":["INFO","x",1],"sensitive_words":[" w ",""],"proxy":" p "}"#,
    ));
    assert_eq!(c.auth_key(""), "k");
    assert_eq!(c.auth_key(" e "), "e");
    assert_eq!(c.base_url(""), "http://h");
    assert_eq!(c.base_url("http://e/"), "http://e");
    assert_eq!(c.log_levels(), texts(&["info"]));
    assert_eq!(c.sensitive_words(), texts(&["w"]));
    assert_eq!(c.proxy_setting(), "p");
    assert_eq!(c.refresh_account_interval_minute(), 5);
    assert_eq!(c.image_retention_days(), 30);
    assert_eq!(c.image_account_concurrency(), 3);
    assert!(c.image_settle_enabled());
    assert_eq!(c.ai_review().to_text(), "{}");
    assert!(c.update(&j(r#"{"image_retention_days":7,"backup_state":1}"#)).is_ok());
    assert_eq!(c.image_retention_days(), 7);
    assert!(c.settings().get("backup_state").is_none());
    assert!(c.update(&j(r#"{"image_storage":{"enabled":true}}"#)).is_err());
    let shown = c.get_public(&j("10.0"), &j("10.0"));
    assert!(shown.get("auth-key").is_none());
    assert_eq!(shown.int_at("image_retention_days", 0), 7);
    assert_eq!(shown.at("image_poll_interval_secs").to_text(), "10.0");
    assert!(c.update(&j("5")).is_ok());
    assert_eq!(Config::from_document(Some("[]")).settings().to_text(), "{}");
    assert_eq!(Config::from_document(None).auth_key(""), "");
}

#[test]
fn versions_and_ages() {
    assert_eq!(app_version(" 1.2.3\n"), "1.2.3");
    assert_eq!(app_version(" \n"), "0.0.0");
    assert!(image_expired(at(0), at(86_401), 1));
    assert!(!image_expired(at(0), at(86_400), 1));
    assert!(image_expired(at(0), Moment { secs: 86_400, nanos: 1 }, 1));
    assert!(!image_expired(Moment { secs: 0, nanos: 1 }, at(86_400), 1));
}

#[test]
fn keys_open_until_they_are_disabled_or_deleted() {
    let mut s = AuthService::load(&Vec::new(), "now");
    let shown = s.create_key("user", "", "sk-1", "id1", "adm", "now").unwrap();
    assert_eq!(
        shown.to_text(),
        r#"{"id":"id1","name":"普通用户","role":"user","enabled":true,"created_at":"now","last_used_at":null}"#
    );
    let (k, flush) = s.authenticate(" sk-1 ", at(100), "t1").unwrap();
    assert_eq!(k.str_at("last_used_at"), "t1");
    assert!(flush);
    s.mark_flushed("id1", at(100));
    assert!(!s.authenticate("sk-1", at(130), "t2").unwrap().1);
    assert!(s.authenticate("sk-1", at(1000), "t3").unwrap().1);
    assert!(s.authenticate("sk-2", at(1000), "t").is_none());
    assert!(s.update_key("id1", &j(r#"{"enabled":false}"#), None, "adm").is_some());
    assert!(s.authenticate("sk-1", at(1000), "t").is_none());
    assert!(s.update_key("id1", &j(r#"{"enabled":true,"key":"sk-9"}"#), None, "adm").is_some());
    assert!(s.authenticate("sk-9", at(1000), "t").is_some());
    assert!(!s.delete_key("id1", Some("admin")));
    assert!(s.delete_key("id1", Some("user")));
    assert!(s.authenticate("sk-9", at(1000), "t").is_none());
}

#[test]
fn keys_and_names_are_not_given_twice() {
    let mut s = AuthService::load(&Vec::new(), "now");
    s.create_key("user", "a", "sk-1", "1", "adm", "now").unwrap();
    assert_eq!(
        s.create_key("user", "a", "sk-2", "2", "adm", "now").err().unwrap(),
        "这个名称已经在使用中了，换一个更容易区分的名称吧"
    );
    assert_eq!(
        s.create_key("user", "b", "sk-1", "2", "adm", "now").err().unwrap(),
        "这个专用密钥已经存在，请换一个新的密钥"
    );
    assert_eq!(
        s.create_key("user", "b", "adm", "2", "adm", "now").err().unwrap(),
        "这个密钥和管理员密钥冲突了，请换一个新的密钥"
    );
    assert_eq!(
        s.create_key("user", "b", " ", "2", "adm", "now").err().unwrap(),
        "请输入新的专用密钥"
    );
    assert!(s.create_key("admin", "a", "sk-2", "2", "adm", "now").is_ok());
    s.create_key("user", "", "sk-3", "3", "", "now").unwrap();
    let n = s.create_key("user", "", "sk-4", "4", "", "now").unwrap();
    assert_eq!(n.str_at("name"), "普通用户 2");
    assert_eq!(s.list_keys(Some("admin")).len(), 1);
    assert_eq!(s.list_keys(None).len(), 4);
}

#[test]
fn stored_keys_are_read_back() {
    let mut s = AuthService::load(&Vec::new(), "now");
    s.create_key("admin", "a", "sk-1", "1", "", "now").unwrap();
    let stored = s.to_values();
    assert_eq!(stored[0].str_at("key_hash"), hash_key("sk-1"));
    let again = AuthService::load(&stored, "later");
    assert_eq!(again.to_values()[0].to_text(), stored[0].to_text());
    assert!(normalize_item(&j(r#"{"role":"guest","key_hash":"h"}"#), "f", "n").is_none());
    assert!(normalize_item(&j(r#"{"role":"user"}"#), "f", "n").is_none());
    let k = normalize_item(&j(r#"{"role":" USER ","key_hash":"h"}"#), "f", "n").unwrap();
    assert_eq!((k.id.as_str(), k.role.as_str(), k.created_at.as_str()), ("f", "user", "n"));
    assert!(k.public().get("key_hash").is_none());
    assert_eq!(default_name("Admin"), "管理员密钥");
    let key = random_key();
    assert!(key.starts_with("sk-"));
    assert_eq!(key.len(), 35);
    assert_ne!(key, random_key());
}

#[test]
fn requests_are_let_in() {
    assert_eq!(extract_bearer_token(Some("bearer  t ")), "t");
    assert_eq!(extract_bearer_token(Some("Basic t")), "");
    assert_eq!(extract_bearer_token(Some("Bearer")), "");
    assert_eq!(extract_bearer_token(None), "");
    assert!(legacy_admin_identity("", "").is_none());
    assert_eq!(legacy_admin_identity("k", "k").unwrap().name, "管理员");
    let mut keys = AuthService::load(&Vec::new(), "now");
    keys.create_key("user", "u", "sk-1", "1", "k", "now").unwrap();
    let a = require_identity("k", &mut keys, Some("Bearer k"), at(0), "t").ok().unwrap();
    assert!(require_admin(a).is_ok());
    let u = require_identity("k", &mut keys, Some("Bearer sk-1"), at(0), "t").ok().unwrap();
    assert_eq!(u.identity.to_json().to_text(), r#"{"id":"1","name":"u","role":"user"}"#);
    let e = require_admin(u).err().unwrap();
    assert_eq!((e.status, said(&e).as_str()), (403, "需要管理员权限才能执行这个操作"));
    let e = require_identity("k", &mut keys, Some("Bearer x"), at(0), "t").err().unwrap();
    assert_eq!((e.status, said(&e).as_str()), (401, "密钥无效或已失效，请重新登录"));
    assert_eq!(message_authorization(None, Some("x".to_string())), Some("Bearer x".to_string()));
    assert_eq!(
        message_authorization(Some("a".to_string()), Some("x".to_string())),
        Some("a".to_string())
    );
    assert_eq!(message_authorization(None, None), None);
}

#[test]
fn support_helpers() {
    assert_eq!(resolve_image_base_url("http://c", Some("h"), "https"), "http://c");
    assert_eq!(resolve_image_base_url(" ", Some("h"), "https"), "https://h");
    assert_eq!(resolve_image_base_url("", None, "http"), "http://localhost");
    let e = image_quota_error("NO available image quota left");
    assert_eq!((e.status, said(&e).as_str()), (429, "no available image quota"));
    let e = image_quota_error("other");
    assert_eq!((e.status, said(&e).as_str()), (502, "other"));
    assert_eq!(
        sanitize_cpa_pools(&vec![j(r#"{"a":1,"secret_key":"s"}"#), j("5")])[0].to_text(),
        r#"{"a":1}"#
    );
    assert_eq!(
        sanitize_sub2api_servers(&vec![j(r#"{"api_key":" k ","password":"p","x":1}"#)])[0].to_text(),
        r#"{"x":1,"has_api_key":true}"#
    );
}

#[test]
fn assets_stay_inside() {
    assert_eq!(web_asset_candidates("/"), texts(&["index.html"]));
    assert_eq!(web_asset_candidates("/a/b/"), texts(&["a/b", "a/b/index.html", "a/b.html"]));
    let out = |path: &str, is_file: bool| Some(ResolvedPath { path: path.to_string(), is_file });
    assert_eq!(
        resolve_web_asset("/w", &vec![None, out("/x/a", true), out("/w/a", false), out("/w/b", true)]),
        Some("/w/b".to_string())
    );
    assert_eq!(resolve_web_asset("/w", &vec![out("/wide/a", true)]), None);
}

#[test]
fn reviewed_text_is_gathered() {
    assert_eq!(text_of(&j(r#"["a",{"text":"b","prompt":"c"},5]"#)), "a\nb\n\n\n\n\n\nc\n");
    let v = j(r#"" x ""#);
    let n = Json::Null;
    let m = j(r#"["y"]"#);
    assert_eq!(ContentFilter::request_text(&[&v, &n, &m]), "x\ny");
    let shape = ContentFilter::request_shape(&[&j(
        r#"[{"type":"message","content":[{"type":"input_image","image_url":"data:image/png;base64,AA"},{"type":"image_url","image_url":{"url":"https://x"}},{"type":"image","t":"a <IMAGE>"}]}]"#,
    )]);
    assert_eq!(
        shape.to_text(),
        r#"{"response_message_items":1,"input_image_parts":1,"image_url_parts":1,"image_parts":1,"data_url_images":1,"remote_image_urls":1,"literal_image_placeholders":1}"#
    );
}

#[test]
fn reviewed_text_is_cut() {
    let (t, images, cut) = sanitize_for_review("a data:image/png;base64,AAAA= b data:x/y;base64,B");
    assert_eq!((t.as_str(), images, cut), ("a [image] b [image]", 2, 0));
    let long = "x".repeat(100_001);
    let (t, cut) = limit_text(&long);
    assert_eq!(t.chars().count(), 100_000 - (100_000 - 15) % 2);
    assert_eq!(cut, 100_001 - 2 * ((100_000 - 15) / 2));
    assert!(t.contains("\n…[truncated]…\n"));
    assert_eq!(limit_text("abc"), ("abc".to_string(), 0));
}

#[test]
fn reviews_decide() {
    let reply = |s: &str| j(&format!(r#"{{"choices":[{{"message":{{"content":"{s}"}}}}]}}"#));
    assert_eq!(extract_review_decision(&reply(" ALLOW ")), Some("allow".to_string()));
    assert_eq!(extract_review_decision(&j(r#"{"choices":[]}"#)), None);
    assert!(is_allow_decision("allowed"));
    assert!(is_reject_decision("不允许"));
    assert!(!is_reject_decision("maybe"));
    assert!(judge(&reply("pass"), false).is_ok());
    let e = judge(&reply("reject"), true).err().unwrap();
    assert_eq!((e.status_code, e.detail.as_str()), (400, "AI 审核未通过，拒绝本次任务"));
    assert_eq!(e.to_text(), "HTTP 400: AI 审核未通过，拒绝本次任务");
    assert!(judge(&reply("hm"), true).is_ok());
    assert_eq!(judge(&reply("hm"), false).err().unwrap().status_code, 503);
    assert!(judge_body("not json", true).is_ok());
    assert_eq!(judge_body("not json", false).err().unwrap().status_code, 503);
    assert!(on_failure(true).is_ok());
    assert!(resolve_fail_open(&j("{}")));
    assert!(!resolve_fail_open(&j(r#"{"fail_open":"maybe"}"#)));
    assert!(resolve_fail_open(&j(r#"{"fail_open":" Yes "}"#)));
    assert!(!truthy(Some(&j("[]"))));
    assert!(truthy(Some(&j("[0]"))));
    assert!(!truthy(Some(&j("0.0"))));
}

#[test]
fn requests_are_screened() {
    let words = texts(&["bad"]);
    assert!(matches!(ContentFilter::check_request("  ", &words, &j("{}")), Screening::Pass));
    assert!(matches!(ContentFilter::check_request("ok", &words, &j("{}")), Screening::Pass));
    match ContentFilter::check_request("a bad one", &words, &j("{}")) {
        Screening::Refuse(e) => {
            assert_eq!((e.status_code, e.detail.as_str()), (400, "检测到敏感词，拒绝本次任务"))
        }
        _ => panic!("passed"),
    }
    match ContentFilter::check_request("x", &words, &j(r#"{"enabled":true,"base_url":"u"}"#)) {
        Screening::Refuse(e) => assert_eq!(e.detail, "ai review config is incomplete"),
        _ => panic!("passed"),
    }
    let review = j(r#"{"enabled":1,"base_url":"u/","api_key":"k","model":"m","fail_open":false}"#);
    match ContentFilter::check_request("x", &words, &review) {
        Screening::Ask(r) => {
            assert_eq!(r.url, "u/v1/chat/completions");
            assert_eq!(r.api_key, "k");
            assert!(!r.fail_open);
            assert_eq!(
                r.payload.items_at("messages")[0].str_at("content"),
                "判断用户请求是否允许。只回答 ALLOW 或 REJECT。\n\n用户请求:\nx\n\n只回答 ALLOW 或 REJECT。"
            );
        }
        _ => panic!("not asked"),
    }
}

#[test]
fn forms_are_read() {
    assert!(is_stream(&j(r#"{"stream":true}"#)));
    assert!(!is_stream(&j(r#"{"stream":"true"}"#)));
    assert_eq!(str_field(&j(r#"{"m":" x "}"#), "m", "d"), "x");
    assert_eq!(str_field(&j(r#"{"m":" "}"#), "m", "d"), "d");
    assert_eq!(said(&required_prompt(&j("{}")).err().unwrap()), "prompt is required");
    assert_eq!(parse_bool_field(Some(" On ")).ok().unwrap(), Some(true));
    assert_eq!(parse_bool_field(Some("n")).ok().unwrap(), Some(false));
    assert_eq!(parse_bool_field(Some(" ")).ok().unwrap(), None);
    assert_eq!(
        said(&parse_bool_field(Some("maybe")).err().unwrap()),
        "stream must be a boolean"
    );
    assert_eq!(parse_count_field(None).ok().unwrap(), 1);
    assert_eq!(parse_count_field(Some("4")).ok().unwrap(), 4);
    assert_eq!(said(&parse_count_field(Some("5")).err().unwrap()), "n must be between 1 and 4");
    assert_eq!(said(&parse_count_field(Some("x")).err().unwrap()), "n must be an integer");
    let mut f = ImageEditForm::new();
    f.add_image(b"abc", Some("image/jpeg"), None);
    f.add_image(b"  data:x  ", None, None);
    f.add_image(b"   ", None, None);
    f.add_field("prompt", " p ");
    f.add_field("size", "1x1");
    f.add_field("stream", "yes");
    f.add_field("other", "x");
    let r = f.finish().ok().unwrap();
    assert_eq!(r.prompt, "p");
    assert_eq!(
        r.body.to_text(),
        r#"{"prompt":"p","model":"gpt-image-2","n":1,"quality":"auto","response_format":"b64_json","images":[{"b64_json":"YWJj","mime_type":"image/jpeg","filename":"image.png"},"data:x"],"size":"1x1","stream":true}"#
    );
    assert_eq!(said(&ImageEditForm::new().finish().err().unwrap()), "prompt is required");
    assert_eq!(
        said(&parse_json_edit(&j("[]")).err().unwrap()),
        "JSON body must be an object"
    );
    assert_eq!(parse_json_edit(&j(r#"{"prompt":"p","model":"m"}"#)).ok().unwrap().model, "m");
}

#[test]
fn task_ids_and_lists_are_read() {
    assert_eq!(parse_task_ids(" a ,,b "), texts(&["a", "b"]));
    assert_eq!(body_str_list(&j(r#"{"l":["a",1,"b"]}"#), "l"), texts(&["a", "b"]));
    let a = editable_task_args(&j(r#"{"prompt":" p","base64_images":["x"],"client_task_id":"c"}"#));
    assert_eq!((a.prompt.as_str(), a.client_task_id.as_str()), (" p", "c"));
    assert_eq!(a.base64_images, texts(&["x"]));
}

#[test]
fn image_edits_are_read() {
    assert!(is_image_field("image[]"));
    assert!(!is_image_field("mask"));
    assert!(is_setting_field("quality"));
    assert!(is_json_request("Application/JSON; charset=utf-8"));
    assert!(!is_json_request("multipart/form-data"));
    assert_eq!(parse_bool(Some(&j(r#""Y""#))).ok().unwrap().to_text(), "true");
    assert_eq!(parse_bool(None).ok().unwrap().to_text(), "null");
    assert!(parse_bool(Some(&j("2"))).is_err());
    let p = payload_from_fields(&j(r#"{"prompt":" p ","client_task_id":5}"#), Ok(2)).ok().unwrap();
    assert_eq!(
        p.to_text(),
        r#"{"prompt":"p","model":"gpt-image-2","n":2,"size":null,"quality":"auto","response_format":"b64_json","stream":null,"client_task_id":"5"}"#
    );
    assert_eq!(encode_images(&vec![b"abc".to_vec()]), texts(&["YWJj"]));
    let (refs, fault) = collect_sources_from_value(&j(
        r#"["[\"AA\"]",{"b64_json":" BB ","filename":"f","mime_type":"image/gif"},{"image_url":{"url":"CC"}}]"#,
    ));
    assert!(fault.is_none());
    let got: Vec<&str> = refs.iter().map(|r| r.text.as_str()).collect();
    assert_eq!(got, vec!["AA", "BB", "CC"]);
    assert_eq!(refs[1].filename.as_deref(), Some("f"));
    assert_eq!(refs[1].mime.as_deref(), Some("image/gif"));
    let fault_of = |s: &str| {
        let e = collect_sources_from_value(&j(s)).1.unwrap();
        assert_eq!(e.status, 400);
        said(&e)
    };
    assert_eq!(
        fault_of(r#"{"file_id":"f1","b64_json":"AAAA"}"#),
        "file_id image references are not supported; use image_url instead"
    );
    assert_eq!(
        fault_of(r#"" HTTPS://x/a.png ""#),
        "remote image URLs are not supported; use a data URL or base64"
    );
    assert_eq!(
        fault_of(r#""HTTP://x""#),
        "remote image URLs are not supported; use a data URL or base64"
    );
    assert_eq!(
        fault_of(r#"{"file_id":"x"}"#),
        "file_id image references are not supported; use image_url instead"
    );
    assert_eq!(fault_of("{}"), "image reference must include image_url");
    assert_eq!(fault_of("5"), "invalid image reference");
    let mut form = EditForm::new();
    assert!(form.add_file("mask", b"x".to_vec()).is_ok());
    assert_eq!(
        said(&form.add_file("image", Vec::new()).err().unwrap()),
        "image file is empty"
    );
    assert!(form.add_text("prompt", "p").1.is_none());
    let e = form.add_text("image", "https://x/a.png").1.unwrap();
    assert_eq!(
        (e.status, said(&e).as_str()),
        (400, "remote image URLs are not supported; use a data URL or base64")
    );
    assert_eq!(
        said(&form.finish(Ok(1)).err().unwrap()),
        "image file or image_url is required"
    );
    assert!(form.add_file("image", b"abc".to_vec()).is_ok());
    form.add_image(b"d".to_vec());
    assert_eq!(form.finish(Ok(1)).ok().unwrap().1, texts(&["YWJj", "ZA=="]));
    assert_eq!(
        said(&parse_image_edit_json(&j("[]"), Ok(1), Ok(Vec::new())).err().unwrap()),
        "JSON body must be an object"
    );
}

#[test]
fn calls_are_planned() {
    let e = plan_call(Endpoint::Images, &j("{}"), "s").err().unwrap();
    assert_eq!((e.status, said(&e).as_str()), (400, "prompt is required"));
    assert_eq!(e.path.as_deref(), Some("/v1/images/generations"));
    let p = plan_call(Endpoint::Images, &j(r#"{"prompt":" x "}"#), "s").ok().unwrap();
    assert_eq!((p.model.as_str(), p.text.as_str()), ("gpt-image-2", "x"));
    let p = plan_call(Endpoint::Chat, &j(r#"{"messages":[{"content":"hi"}],"model":"m"}"#), "s")
        .ok()
        .unwrap();
    assert_eq!((p.model.as_str(), p.text.as_str()), ("m", "hi"));
    let p = plan_call(Endpoint::Messages, &j(r#"{"system":"a","messages":"b","tools":"c"}"#), "s")
        .ok()
        .unwrap();
    assert_eq!((p.model.as_str(), p.text.as_str()), ("auto", "a\nb\nc"));
    let p = plan_call(Endpoint::Responses, &j(r#"{"input":"a","instructions":"b"}"#), "s").ok().unwrap();
    assert_eq!(p.text, "a\nb");
    let p = plan_call(Endpoint::Search, &j(r#"{"prompt":" q "}"#), "s").ok().unwrap();
    assert_eq!((p.model.as_str(), p.text.as_str()), ("s", " q "));
    let p = plan_call(Endpoint::Ppt, &j("{}"), "s").ok().unwrap();
    assert_eq!((p.model.as_str(), p.text.as_str()), ("gpt-5-5-thinking", ""));
    assert_eq!(Endpoint::Psd.path(), "/v1/psd/generations");
    assert_eq!(Endpoint::Chat.summary(), "文本生成");
    let e = refused_call(&ContentFilterError::new(503, "d"), Some("/v1/x"));
    assert_eq!((e.status, said(&e).as_str()), (503, "d"));
    assert_eq!(refused_call(&ContentFilterError::new(1000, "d"), None).status, 400);
    assert_eq!(failure_note(j("1")).to_text(), r#"{"error":1}"#);
}

#[test]
fn system_answers() {
    assert_eq!(query_str(Some(" a ")), "a");
    assert_eq!(query_str(None), "");
    assert_eq!(cors_image_headers().len(), 3);
    assert_eq!(image_disposition(None), "attachment; filename=\"image\"");
    assert_eq!(image_disposition(Some("a.png")), "attachment; filename=\"a.png\"");
    assert_eq!(backup_disposition("a b"), "attachment; filename*=UTF-8''a%20b");
    let who = Identity { id: "1".to_string(), name: "n".to_string(), role: "user".to_string() };
    assert_eq!(
        login_answer(&who, "9").to_text(),
        r#"{"ok":true,"version":"9","role":"user","subject_id":"1","name":"n"}"#
    );
    let (rel, tags) = read_tags_request(&j(r#"{"path":" //a/b ","tags":["x",1]}"#)).ok().unwrap();
    assert_eq!((rel.as_str(), tags), ("a/b", texts(&["x"])));
    assert_eq!(said(&read_tags_request(&j(r#"{"path":"/"}"#)).err().unwrap()), "path is required");
    let e = not_implemented("图片压缩");
    assert_eq!((e.status, said(&e).as_str()), (501, "图片压缩 尚未在 Rust 版本中实现"));
    assert_eq!(proxy_candidate(&j("{}"), "p").ok().unwrap(), "p");
    assert_eq!(
        said(&proxy_candidate(&j(r#"{"url":" "}"#), " ").err().unwrap()),
        "proxy url is required"
    );
    assert_eq!(
        sanitize_updates(&j(r#"{"mode":"m","threads":3,"total":null,"x":1}"#)).to_text(),
        r#"{"threads":3,"mode":"m"}"#
    );
}

#[test]
fn the_watch_is_planned() {
    let p = watch_plan(&texts(&["a", "b"]), &texts(&["b", "c"]), &texts(&["c", "d"]));
    assert_eq!(p.tokens, texts(&["a", "b", "c"]));
    assert_eq!(p.keepalive, texts(&["d"]));
    assert_eq!(watch_interval(-4), 60);
    assert_eq!(watch_interval(5), 300);
    assert_eq!(watch_interval(i64::MAX), u64::MAX);
}

#[test]
fn health_is_shown() {
    let stats = j(
        r#"{"active":0,"unlimited_quota_count":1,"total":3,"total_success":4,"total_fail":5,"by_type":{"free":1,"Plus":2}}"#,
    );
    assert_eq!(
        health_json(&stats, "9", j("1"), j("2")).at("storage").to_text(),
        r#"{"backend":1,"health":2}"#
    );
    assert_eq!(health_json(&j("{}"), "9", j("1"), j("2")).str_at("status"), "degraded");
    let page = health_page(&stats, "9");
    assert!(page.starts_with("<!DOCTYPE html>\n<html lang=\"zh\">\n"));
    assert!(page.contains("<span class=\"status-dot status-ok\"></span>"));
    assert!(page.contains(">v9 · 30s 自动刷新</div>"));
    assert!(page.contains(
        "<div class=\"card\"><div class=\"label\">当前账号</div><div class=\"value blue\">3</div></div>\n"
    ));
    assert!(page.contains(
        "<tr><td>Plus</td><td>2</td></tr><tr><td>free</td><td>1</td></tr>\n</table>"
    ));
    assert!(page.contains(
        "4<span style=\"font-size:18px;color:#94a3b8\">/</span><span class=\"red\">5</span></div>"
    ));
    assert!(health_page(&j("{}"), "9").contains("status-degraded\""));
}

#[test]
fn refusals_are_shown() {
    let e = ContentFilterError::new(400, "no");
    assert_eq!(e.detail_json().to_text(), r#"{"error":"no"}"#);
    assert_eq!(e.to_text(), "HTTP 400: no");
}
