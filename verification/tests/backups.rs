use model2api::archive::{PackedFile, MADE_MODE};
use model2api::backup::{
    apply_rotation, backup_result, build_backup_archive, count_items, decode_archive_detail,
    guess_content_type, is_backup_due, is_backup_object, list_backup_files, make_metadata,
    make_object_key, normalize_backup_state, seal_backup, wanted_key, BackupService,
};
use model2api::cipher::{decrypt_openssl, encrypt_openssl, encrypt_with_salt, pbkdf2_hmac_sha256};
use model2api::clock::Moment;
use model2api::r2::R2Client;
use model2api::value::Json;

fn j(s: &str) -> Json {
    Json::parse_text(s).unwrap()
}

fn texts(v: &[&str]) -> Vec<String> {
    v.iter().map(|s| s.to_string()).collect()
}

fn pairs(v: &[(&str, &str)]) -> Vec<(String, String)> {
    v.iter().map(|(a, b)| (a.to_string(), b.to_string())).collect()
}

fn hex(b: &[u8]) -> String {
    b.iter().map(|x| format!("{x:02x}")).collect()
}

fn client() -> R2Client {
    R2Client::new(&j(
        r#"{"account_id":" acct ","access_key_id":"AKID","secret_access_key":"SECRET","bucket":"bkt","prefix":"p/"}"#,
    ))
}

#[test]
fn keys_are_derived() {
    assert_eq!(
        hex(&pbkdf2_hmac_sha256(b"password", b"salt", 2, 40)),
        "ae4d0c95af6b46d32d0adff928f06dd02a303f8ef3c251dfd6e2d85a95474c43830651afcb5c862f"
    );
    assert_eq!(
        hex(&pbkdf2_hmac_sha256(b"password", b"salt", 1, 32)),
        "120fb6cffcf8b32c43e7225256c4f837a86548c92ccc35480805987cb70be17b"
    );
}

#[test]
fn encrypts_like_openssl() {
    let sealed = encrypt_with_salt(b"hello backup", "secret", &vec![1, 2, 3, 4, 5, 6, 7, 8]);
    assert_eq!(
        hex(&sealed),
        "53616c7465645f5f0102030405060708e032dcf856ee3caa571fe42fab30eecd"
    );
    assert_eq!(decrypt_openssl(&sealed, "secret").unwrap(), b"hello backup");
    assert_eq!(encrypt_openssl(&[0; 15], "p").len(), 32);
    assert_eq!(encrypt_openssl(&[0; 16], "p").len(), 48);
    assert_eq!(
        decrypt_openssl(b"short", "secret").err().unwrap(),
        "解密备份失败：数据不是有效的加密备份（缺少 Salted__ 头）"
    );
    let mut broken = sealed.clone();
    broken.pop();
    assert_eq!(
        decrypt_openssl(&broken, "secret").err().unwrap(),
        "解密备份失败：口令错误或数据已损坏"
    );
}

#[test]
fn sealed_backups_open() {
    let sealed = encrypt_openssl(b"data", "pw");
    assert_ne!(sealed, encrypt_openssl(b"data", "pw"));
    assert_eq!(decrypt_openssl(&sealed, "pw").unwrap(), b"data");
    assert_eq!(seal_backup(b"x".to_vec(), false, "").unwrap(), b"x");
    assert_eq!(
        seal_backup(b"x".to_vec(), true, "").err().unwrap(),
        "已启用备份加密，但未设置加密口令"
    );
    let sealed = seal_backup(b"x".to_vec(), true, "pw").unwrap();
    let d = BackupService::download_backup("p/backup-1.tar.gz.enc", sealed, "pw").ok().unwrap();
    assert_eq!(d.name, "backup-1.tar.gz");
    assert_eq!(d.content_type, "application/gzip");
    assert_eq!((d.payload.as_slice(), d.size), (&b"x"[..], 1));
    assert_eq!(
        BackupService::download_backup("a.enc", Vec::new(), "").err().unwrap(),
        "当前未配置加密口令，无法下载并解密已加密备份"
    );
    assert_eq!(wanted_key(" ").err().unwrap(), "备份对象 key 不能为空");
    assert_eq!(wanted_key(" a ").unwrap(), "a");
}

#[test]
fn backups_have_names() {
    assert!(is_backup_object("p/backup-1.tar.gz"));
    assert!(is_backup_object("backup-1.tar.gz.enc"));
    assert!(!is_backup_object("backup-1/x.tar.gz"));
    assert_eq!(guess_content_type("a.json"), "application/json");
    assert_eq!(guess_content_type("a.jsonl"), "application/x-ndjson");
    assert_eq!(guess_content_type("a.gz"), "application/gzip");
    assert_eq!(guess_content_type("a"), "application/octet-stream");
    assert_eq!(make_object_key("p//", "T", "00ff", true), "p/backup-T-00ff.tar.gz.enc");
    assert!(is_backup_object(&make_object_key("p", "T", "00ff", false)));
    assert_eq!(
        backup_result("k", 3, false).to_text(),
        r#"{"key":"k","size":3,"encrypted":false}"#
    );
}

#[test]
fn settings_hide_secrets() {
    let shown = BackupService::get_settings(&j(r#"{"secret_access_key":"s","passphrase":"","a":1}"#));
    assert_eq!(shown.str_at("secret_access_key"), "********");
    assert_eq!(shown.str_at("passphrase"), "");
    let next = BackupService::update_settings(
        &j(r#"{"secret_access_key":"s","passphrase":"p","include":{"a":true,"b":true}}"#),
        &j(r#"{"secret_access_key":"********","passphrase":"new","include":{"a":false}}"#),
    );
    assert_eq!(next.str_at("secret_access_key"), "s");
    assert_eq!(next.str_at("passphrase"), "new");
    assert_eq!(next.at("include").to_text(), r#"{"a":false,"b":true}"#);
    assert!(!BackupService::is_configured(&j("{}")));
    assert!(BackupService::is_configured(&j(
        r#"{"account_id":"a","access_key_id":"b","secret_access_key":"c","bucket":"d"}"#
    )));
}

#[test]
fn runs_are_noted() {
    let mut b = BackupService { running: false, state: normalize_backup_state(&Json::Null) };
    assert!(b.begin("t1").is_ok());
    assert_eq!(b.begin("t2").err().unwrap(), "当前已有备份任务正在执行");
    assert!(b.get_status().bool_at("running", false));
    b.end(&Ok(j(r#"{"key":"k"}"#)), "t1", "t3");
    assert_eq!(
        b.get_status().to_text(),
        r#"{"last_started_at":"t1","last_finished_at":"t3","last_status":"success","last_error":null,"last_object_key":"k","running":false}"#
    );
    assert!(b.begin("t4").is_ok());
    b.end(&Err("e".to_string()), "t4", "t5");
    assert_eq!(b.get_status().str_at("last_status"), "error");
    assert_eq!(b.get_status().str_at("last_error"), "e");
    assert_eq!(b.get_status().str_at("last_object_key"), "k");
}

#[test]
fn backups_fall_due() {
    let s = j(r#"{"enabled":true,"interval_minutes":60}"#);
    let state = j(r#"{"last_success_at":"2024-05-06T07:00:00Z"}"#);
    let at = |secs| Moment { secs, nanos: 0 };
    assert!(!is_backup_due(&s, false, &state, at(1714978800 + 3599)));
    assert!(is_backup_due(&s, false, &state, at(1714978800 + 3600)));
    assert!(!is_backup_due(&s, true, &state, at(1714978800 + 3600)));
    assert!(is_backup_due(&s, false, &j("{}"), at(0)));
    assert!(is_backup_due(&s, false, &j(r#"{"last_finished_at":"x"}"#), at(0)));
    assert!(!is_backup_due(&j("{}"), false, &state, at(1 << 40)));
    let older = j(r#"{"last_finished_at":"2024-05-06T07:00:00Z","last_status":"success"}"#);
    assert!(!is_backup_due(&s, false, &older, at(1714978800 + 3599)));
    let mut b = BackupService { running: false, state };
    assert!(b.begin("2024-05-06T07:59:00Z").is_ok());
    b.end(&Err("e".to_string()), "2024-05-06T07:59:00Z", "2024-05-06T07:59:30Z");
    assert!(is_backup_due(&s, b.running, &b.state, at(1714978800 + 3600)));
    assert!(b.begin("2024-05-06T08:00:00Z").is_ok());
    b.end(&Ok(j("{}")), "2024-05-06T08:00:00Z", "2024-05-06T08:01:00Z");
    assert!(!is_backup_due(&s, b.running, &b.state, at(1714978800 + 3700)));
}

#[test]
fn rotation_keeps_the_newest() {
    let items: Vec<Json> = ["backup-3", "other", "backup-2", "backup-1"]
        .iter()
        .map(|n| j(&format!(r#"{{"key":"p/{n}.tar.gz"}}"#)))
        .collect();
    assert_eq!(apply_rotation(&items, 1), texts(&["p/backup-2.tar.gz", "p/backup-1.tar.gz"]));
    assert!(apply_rotation(&items, 3).is_empty());
    assert!(apply_rotation(&items, 0).is_empty());
    let listed = BackupService::list_backups(&vec![j(
        r#"{"key":"p/a.enc","size":3,"updated_at":"u"}"#,
    )]);
    assert_eq!(
        listed[0].to_text(),
        r#"{"key":"p/a.enc","name":"a.enc","size":3,"updated_at":"u","encrypted":true}"#
    );
}

#[test]
fn files_keep_their_mode_and_owner() {
    let files = vec![
        PackedFile {
            name: "config.json".to_string(),
            bytes: b"abc".to_vec(),
            mode: 0o100600,
            owner: Some((1000, 3_000_000)),
            mtime: 6,
        },
        PackedFile {
            name: "snapshots/accounts.json".to_string(),
            bytes: b"[]".to_vec(),
            mode: MADE_MODE,
            owner: None,
            mtime: 5,
        },
    ];
    let packed = build_backup_archive(&j("{}"), 5, files).ok().unwrap();
    let mut archive = tar::Archive::new(flate2::read::GzDecoder::new(packed.as_slice()));
    let mut seen = Vec::new();
    for entry in archive.entries().unwrap() {
        let entry = entry.unwrap();
        let h = entry.header();
        let owner = h.uid().ok().zip(h.gid().ok());
        seen.push((h.mode().unwrap(), owner, h.mtime().unwrap(), h.as_old().uid == [0; 8]));
    }
    assert_eq!((seen[0].0, seen[0].2, seen[0].3), (0o644, 5, true));
    assert_eq!(seen[1], (0o100600, Some((1000, 3_000_000)), 6, false));
    assert_eq!((seen[2].0, seen[2].2, seen[2].3), (0o644, 5, true));
}

#[test]
fn archives_are_described() {
    let meta = make_metadata("c", "manual", "9", &j(r#"{"type":"json"}"#));
    let files = vec![
        PackedFile { name: "data/b.json".to_string(), bytes: b"{}".to_vec(), mode: 0o100644, owner: Some((7, 8)), mtime: 5 },
        PackedFile { name: "config.json".to_string(), bytes: b"abc".to_vec(), mode: 0o100644, owner: Some((7, 8)), mtime: 5 },
        PackedFile { name: "snapshots/accounts.json".to_string(), bytes: b"[1,2]".to_vec(), mode: 0o100644, owner: Some((7, 8)), mtime: 5 },
    ];
    let packed = build_backup_archive(&meta, 5, files).ok().unwrap();
    let d = decode_archive_detail(&packed).ok().unwrap();
    assert_eq!(d.str_at("trigger"), "manual");
    assert_eq!(d.str_at("app_version"), "9");
    let names: Vec<String> = d.items_at("files").iter().map(|f| f.str_at("name")).collect();
    assert_eq!(names, texts(&["config.json", "data/b.json"]));
    assert_eq!(
        d.items_at("files")[0].str_at("sha256"),
        "ba7816bf8f01cfea414140de5dae2223b00361a396177a9cb410ff61f20015ad"
    );
    assert_eq!(d.at("snapshots").to_text(), r#"[{"name":"accounts","count":2}]"#);
    assert_eq!(
        decode_archive_detail(b"nothing").err().unwrap(),
        "解析备份压缩包失败，备份可能已损坏"
    );
    let full = BackupService::get_backup_detail("p/backup-1.tar.gz", packed, "").ok().unwrap();
    assert_eq!(full.str_at("name"), "backup-1.tar.gz");
    assert!(!full.bool_at("encrypted", true));
    assert_eq!(count_items(&j(r#"{"a":1}"#)), 1);
    assert_eq!(count_items(&j("5")), 0);
    let listed = list_backup_files(&j(r#"{"config":true,"image_tasks":true,"logs":false}"#));
    assert!(listed.contains(&"config.json".to_string()));
    assert!(listed.contains(&"data/image_index.json".to_string()));
    assert!(!listed.contains(&"data/logs.jsonl".to_string()));
}

#[test]
fn requests_are_signed() {
    let c = client();
    let r = c.request(
        "put",
        "/x/y z",
        &pairs(&[("prefix", "a/b"), ("list-type", "2")]),
        b"hello",
        &pairs(&[("Content-Type", " text/plain "), ("x-amz-meta-k", "a  b")]),
        "20240506T070809Z",
        "20240506",
    );
    assert_eq!(
        r.url,
        "https://acct.r2.cloudflarestorage.com/bkt/x/y%20z?list-type=2&prefix=a%2Fb"
    );
    let auth = &r.headers.iter().find(|h| h.0 == "authorization").unwrap().1;
    assert_eq!(
        auth,
        "AWS4-HMAC-SHA256 Credential=AKID/20240506/auto/s3/aws4_request, SignedHeaders=content-type;host;x-amz-content-sha256;x-amz-date;x-amz-meta-k, Signature=ac1f198ef7c4592cdc25883e2d7476a53cce730813c830c07028f1864e06a89f"
    );
    assert_eq!(r.headers[1].1, "2cf24dba5fb0a30e26e83b2ac5b9e29e1b161e5c1fa7425e73043362938b9824");
}

#[test]
fn storage_answers_are_read() {
    assert!(client().validate().is_ok());
    assert_eq!(
        R2Client::new(&j(r#"{"bucket":"b"}"#)).validate().err().unwrap(),
        "R2 配置不完整：缺少 Account ID、Access Key ID、Secret Access Key"
    );
    assert_eq!(client().host(), "acct.r2.cloudflarestorage.com");
    assert_eq!(
        client().list_query("t"),
        pairs(&[("list-type", "2"), ("prefix", "p/"), ("max-keys", "1000"), ("continuation-token", "t")])
    );
    let mut items = Vec::new();
    let page = "<x><Contents><Key>a</Key><Size> 5 </Size><LastModified>2</LastModified></Contents>\
<Contents><Size>1</Size></Contents><Contents><Key>b</Key><LastModified>3</LastModified></Contents>\
<IsTruncated>true</IsTruncated><NextContinuationToken>n</NextContinuationToken></x>";
    assert_eq!(R2Client::read_page(&mut items, 200, page).unwrap(), "n");
    assert_eq!(items.len(), 2);
    assert_eq!(items[0].int_at("size", 0), 5);
    let ordered = R2Client::newest_first(&items);
    assert_eq!(ordered[0].str_at("key"), "b");
    assert_eq!(
        R2Client::read_page(&mut items, 500, "").err().unwrap(),
        "获取备份列表失败：HTTP 500"
    );
    assert_eq!(
        R2Client::read_upload("k", 200, "\"e\"").ok().unwrap().to_text(),
        r#"{"key":"k","etag":"e"}"#
    );
    assert_eq!(R2Client::read_upload("k", 403, "").err().unwrap(), "上传备份失败：HTTP 403");
    assert!(R2Client::read_delete(404).is_ok());
    assert_eq!(R2Client::read_delete(500).err().unwrap(), "删除备份失败：HTTP 500");
    assert_eq!(R2Client::read_download(404).err().unwrap(), "读取备份失败：HTTP 404");
    assert_eq!(R2Client::read_test(200).ok().unwrap().to_text(), r#"{"ok":true,"status":200}"#);
    assert_eq!(R2Client::read_test(401).err().unwrap(), "连接 R2 失败：HTTP 401");
    assert_eq!(
        R2Client::upload_headers("c", &pairs(&[("a", "b")])),
        pairs(&[("content-type", "c"), ("x-amz-meta-a", "b")])
    );
}

#[test]
fn stored_states_are_read_back() {
    let s = normalize_backup_state(&j(r#"{"last_error":" e ","last_status":"","last_object_key":7}"#));
    assert_eq!(s.str_at("last_error"), "e");
    assert_eq!(s.str_at("last_status"), "idle");
    assert_eq!(s.str_at("last_object_key"), "7");
    assert_eq!(normalize_backup_state(&s).to_text(), s.to_text());
}

#[test]
fn names_that_lead_up_are_not_packed() {
    let packed = |name: &str| {
        let file = PackedFile { name: name.to_string(), bytes: b"x".to_vec(), mode: 0o100644, owner: Some((7, 8)), mtime: 5 };
        build_backup_archive(&j("{}"), 5, vec![file])
    };
    assert!(packed("data/x").is_ok());
    assert!(packed("../x").err().unwrap().starts_with("写入文件 ../x 失败："));
    let e = packed("snapshots/../x").err().unwrap();
    assert!(e.starts_with("写入归档项 snapshots/../x 失败："));
    assert!(e.len() > "写入归档项 snapshots/../x 失败：".len());
}
