use model2api::clock::Moment;
use model2api::editable::EditableFileTaskService;
use model2api::image_paths::{
    content_type_for, date_prefix, file_name, is_image_rel, safe_relative_path, split_stem_suffix,
    suffix_lower,
};
use model2api::image_service::{
    encode_picture, make_thumbnail, plan_shrink, set_upright, shrink, thumbnail_of, ImageService,
    Picture, Shrinking,
};
use model2api::image_storage::{
    check_sync, delete_outcome, ext_from_type, make_relative_path, public_url, storage_label,
    storage_targets, FoundFile, ImageSource, ImageStorageService, SyncResult, SyncStep, SyncTally,
    WebDavClient,
};
use model2api::image_tags::{value_to_tags, ImageTagsService};
use model2api::image_task::{
    clean_value, collect_image_urls, dedupe, fail_run, finish_run, listing_value, log_call,
    owner_id, parse_timestamp, plain_times, public_task, read_task_fields, running_updates, settle, task_key,
    task_request, ImageTaskService, Submitted,
};
use model2api::picture::{detect_mime, image_dims};
use model2api::value::Json;

fn j(s: &str) -> Json {
    Json::parse_text(s).unwrap()
}

fn texts(v: &[&str]) -> Vec<String> {
    v.iter().map(|s| s.to_string()).collect()
}

fn png(width: u32, height: u32, alpha: bool) -> Vec<u8> {
    let mut out = std::io::Cursor::new(Vec::new());
    let img = if alpha {
        image::DynamicImage::ImageRgba8(image::RgbaImage::from_pixel(
            width,
            height,
            image::Rgba([1, 2, 3, 4]),
        ))
    } else {
        image::DynamicImage::ImageRgb8(image::RgbImage::from_pixel(
            width,
            height,
            image::Rgb([1, 2, 3]),
        ))
    };
    img.write_to(&mut out, image::ImageFormat::Png).unwrap();
    out.into_inner()
}

fn found(rel: &str, data: Vec<u8>) -> FoundFile {
    FoundFile {
        name: file_name(rel),
        rel: rel.to_string(),
        size: data.len() as u64,
        data,
        day: "2024-05-07".to_string(),
        created_at: "2024-05-07 00:00:00".to_string(),
    }
}

#[test]
fn paths_are_made_safe() {
    assert_eq!(safe_relative_path(" \\a//b\\c.png ").ok().unwrap(), "a/b/c.png");
    for bad in ["", " / ", "a/../b", "./a", ".."] {
        let e = safe_relative_path(bad).err().unwrap();
        assert_eq!((e.status, e.detail.str_at("error")), (404, "image not found".to_string()));
    }
    assert_eq!(suffix_lower("a/b.PNG"), "png");
    assert_eq!(suffix_lower("a.b/c"), "");
    assert_eq!(suffix_lower("c."), "");
    assert!(is_image_rel("a/b.JPeG"));
    assert!(!is_image_rel("a/b.gif"));
    assert!(!is_image_rel("../b.png"));
    assert_eq!(file_name("a/b"), "b");
    assert_eq!(date_prefix("2024/05/06/x.png"), "2024-05-06");
    assert_eq!(date_prefix("x"), "x");
    assert_eq!(split_stem_suffix("a.b.c"), ("a.b".to_string(), ".c".to_string()));
    assert_eq!(split_stem_suffix(".c"), (".c".to_string(), String::new()));
    assert_eq!(content_type_for("a.JPG"), "image/jpeg");
    assert_eq!(content_type_for("a.gif"), "image/gif");
    assert_eq!(content_type_for("a"), "image/png");
}

#[test]
fn images_are_recognized() {
    let p = png(3, 2, false);
    assert_eq!(ext_from_type(&p), "png");
    assert_eq!(ext_from_type(&[0xff, 0xd8, 0xff, 0xe0, 0, 0, 0, 0, 0, 0, 0, 0]), "jpg");
    assert_eq!(ext_from_type(b"nothing at all"), "png");
    assert_eq!(detect_mime(&p), "image/png");
    assert_eq!(detect_mime(b"GIF89a\x01\x00\x01\x00\x00\x00\x00"), "image/gif");
    assert_eq!(image_dims(&p), (3, 2));
    assert_eq!(image_dims(b"x"), (0, 0));
    assert_eq!(
        make_relative_path(b"abc", "2024/05/06", 7),
        "2024/05/06/7_ba7816bf8f01cfea414140de5dae2223b00361a396177a9cb410ff61f20015ad.png"
    );
}

#[test]
fn addresses_of_images() {
    let none = j("{}");
    let cdn = j(r#"{"public_base_url":"http://cdn/"}"#);
    assert_eq!(public_url("/a.png", &cdn, "http://h", "http://d").ok().unwrap(), "http://cdn/a.png");
    assert_eq!(
        public_url("a.png", &none, " http://h/ ", "http://d").ok().unwrap(),
        "http://h/images/a.png"
    );
    assert_eq!(public_url("a.png", &none, " ", "http://d").ok().unwrap(), "http://d/images/a.png");
    assert_eq!(public_url("..", &none, "", "").err().unwrap().status, 404);
    assert_eq!(storage_label(true, true), "both");
    assert_eq!(storage_label(false, true), "webdav");
    assert_eq!(storage_label(false, false), "local");
    assert_eq!(storage_targets("both"), (true, true));
    assert_eq!(storage_targets("webdav"), (false, true));
    assert_eq!(storage_targets("odd"), (true, false));
    assert_eq!(ImageStorageService::mode(&none), "local");
}

#[test]
fn stored_images_are_found_again() {
    let mut s = ImageStorageService::load_clean_index(&j(
        r#"{"items":{"2024/05/06/a.png":{"webdav":true,"date":"2024-05-06"},"x.txt":{},"b.png":5}}"#,
    ));
    assert!(s.get("2024/05/06/a.png").is_some());
    assert!(s.get("x.txt").is_none());
    let p = png(3, 2, false);
    let r = s.save("2024/05/07/b.png", &p, "2024-05-07 01:00:00", true, false, "", &j("{}"), "http://h", "");
    assert_eq!((r.storage.as_str(), r.size), ("local", p.len()));
    assert_eq!(r.url, "http://h/images/2024/05/07/b.png");
    let e = s.get("2024/05/07/b.png").unwrap();
    assert_eq!((e.int_at("width", 0), e.int_at("height", 0)), (3, 2));
    assert_eq!(e.str_at("date"), "2024-05-07");
    assert!(s.image_source("2024/05/07/b.png", true) == ImageSource::Local);
    assert!(s.image_source("/2024/05/06/a.png", false) == ImageSource::Remote);
    assert!(s.image_source("2024/05/07/b.png", false) == ImageSource::Missing);
    assert!(s.image_source("../b.png", true) == ImageSource::Missing);
    assert!(s.is_stored("2024/05/06/a.png", false));
    assert!(ImageStorageService::has_local("b.png", true));
    assert!(!ImageStorageService::has_local("b.txt", true));
    assert!(s.delete("2024/05/07/b.png"));
    assert!(!s.delete("2024/05/07/b.png"));
    assert_eq!(
        s.to_value().to_text(),
        r#"{"items":{"2024/05/06/a.png":{"webdav":true,"date":"2024-05-06"}}}"#
    );
}

#[test]
fn the_index_follows_the_disk() {
    let mut s = ImageStorageService::load_clean_index(&j(
        r#"{"items":{"gone.png":{"local":true},"remote.png":{"webdav":true,"date":"2024-05-01","created_at":"1","local":true,"storage":"both"}}}"#,
    ));
    assert!(s.add_found(&found("2024/05/06/n.png", png(1, 1, false))));
    assert!(!s.add_found(&found("2024/05/06/n.png", Vec::new())));
    assert!(!s.add_found(&found("notes.txt", Vec::new())));
    assert!(s.add_found(&found("flat.png", Vec::new())));
    let local = texts(&["2024/05/06/n.png", "flat.png"]);
    let list = s.list_items(&local, &j("{}"), "http://h", "", "", "");
    assert!(s.get("gone.png").is_none());
    let r = s.get("remote.png").unwrap();
    assert_eq!(r.str_at("storage"), "webdav");
    assert!(!r.bool_at("local", true));
    assert_eq!(s.get("flat.png").unwrap().str_at("date"), "2024-05-07");
    let rels: Vec<String> = list.iter().map(|x| x.str_at("rel")).collect();
    assert_eq!(rels, texts(&["2024/05/06/n.png", "flat.png", "remote.png"]));
    assert_eq!(list[2].str_at("url"), "http://h/images/remote.png");
    assert_eq!(s.list_items(&local, &j("{}"), "", "", "2024-05-06", "2024-05-06").len(), 1);
    assert!(s.sync_step("remote.png", "remote.png") == SyncStep::Skip);
    assert!(s.sync_step("n.png", "2024/05/06/n.png") == SyncStep::Upload);
    assert!(s.sync_step("notes.txt", "notes.txt") == SyncStep::Pass);
    s.record_upload(&found("flat.png", b"abc".to_vec()), "http://r/flat.png");
    let e = s.get("flat.png").unwrap();
    assert_eq!((e.str_at("storage"), e.int_at("size", 0)), ("both".to_string(), 3));
}

#[test]
fn a_freed_place_goes_to_the_last_image() {
    let index = || {
        ImageStorageService::load_clean_index(&j(
            r#"{"items":{"a.png":{},"b.png":{"local":true,"storage":"local"},"c.png":{"local":true,"storage":"local"}}}"#,
        ))
    };
    let after = r#"{"items":{"c.png":{"local":true,"storage":"local"},"b.png":{"local":true,"storage":"local"}}}"#;
    let local = texts(&["b.png", "c.png"]);
    let mut s = index();
    s.reconcile(&local);
    assert_eq!(s.to_value().to_text(), after);
    let mut s = index();
    let list = s.list_items(&local, &j("{}"), "http://h", "", "", "");
    let rels: Vec<String> = list.iter().map(|x| x.str_at("rel")).collect();
    assert_eq!(rels, texts(&["b.png", "c.png"]));
    assert_eq!(s.to_value().to_text(), after);
    let mut s = index();
    assert!(s.list_items(&Vec::new(), &j("{}"), "", "", "", "").is_empty());
    assert_eq!(s.to_value().to_text(), r#"{"items":{}}"#);
}

#[test]
fn deletions_and_syncs_are_settled() {
    assert!(delete_outcome(true, None).ok().unwrap());
    assert!(!delete_outcome(false, Some(Ok(false))).ok().unwrap());
    let fail = || Some(Err(model2api::error::AppError::upstream("x")));
    assert!(delete_outcome(true, fail()).ok().unwrap());
    assert_eq!(delete_outcome(false, fail()).err().unwrap().status, 502);
    let mut tally = SyncTally::new();
    tally.count(SyncResult::Uploaded);
    tally.count(SyncResult::Skipped);
    tally.count(SyncResult::Skipped);
    tally.count(SyncResult::Failed);
    assert_eq!(tally.report().to_text(), r#"{"uploaded":1,"skipped":2,"failed":1}"#);
    assert!(check_sync("both").is_ok());
    assert_eq!(check_sync("local").err().unwrap().detail.str_at("error"), "WebDAV 图片存储未启用");
}

#[test]
fn webdav_requests() {
    let c = WebDavClient::new(&j(
        r#"{"webdav_url":" http://d/ ","webdav_username":"u","webdav_password":"p","webdav_root_path":"/r o/"}"#,
    ));
    assert_eq!(c.basic_auth().unwrap(), "Basic dTpw");
    assert_eq!(c.remote_url("a b/c.png").ok().unwrap(), "http://d/r%20o/a%20b/c.png");
    assert_eq!(c.remote_url("").ok().unwrap(), "http://d/r%20o");
    assert_eq!(c.remote_url("..").err().unwrap().status, 404);
    assert_eq!(
        c.directories("x/y/c.png").ok().unwrap(),
        texts(&["http://d/r%20o", "http://d/r%20o/x", "http://d/r%20o/x/y"])
    );
    assert!(WebDavClient::check_mkcol(405).is_ok());
    assert_eq!(
        WebDavClient::check_mkcol(403).err().unwrap().detail.str_at("error"),
        "WebDAV MKCOL failed: HTTP 403"
    );
    assert!(WebDavClient::check_status("MKCOL", 405).is_ok());
    assert!(WebDavClient::check_status("PUT", 405).is_err());
    assert!(WebDavClient::read_delete(204).ok().unwrap());
    assert!(!WebDavClient::read_delete(404).ok().unwrap());
    assert!(WebDavClient::read_delete(500).is_err());
    assert!(c.url_fault().is_none());
    assert_eq!(WebDavClient::new(&j("{}")).url_fault(), Some("WebDAV URL is required"));
    assert_eq!(
        WebDavClient::new(&j(r#"{"webdav_url":"ftp://x"}"#)).url_fault(),
        Some("invalid WebDAV URL")
    );
    assert_eq!(
        WebDavClient::test_report(Some("e")).to_text(),
        r#"{"ok":false,"status":0,"error":"e"}"#
    );
    assert_eq!(WebDavClient::test_report(None).to_text(), r#"{"ok":true,"status":200,"error":null}"#);
}

#[test]
fn small_pictures_are_made() {
    let small = make_thumbnail(&png(640, 100, true)).ok().unwrap();
    assert_eq!(image_dims(&small), (320, 50));
    let whole = make_thumbnail(&png(20, 10, false)).ok().unwrap();
    assert_eq!(image_dims(&whole), (20, 10));
    let back = image::load_from_memory(&whole).unwrap();
    assert!(!back.color().has_alpha());
    assert_eq!(back.to_rgb8().get_pixel(0, 0).0, [1, 2, 3]);
    let e = make_thumbnail(b"no image").err().unwrap();
    assert_eq!((e.status, e.detail.str_at("error")), (422, "failed to create thumbnail".to_string()));
    let p = Picture { width: 1, height: 1, alpha: true, pixels: vec![9, 8, 7, 6] };
    let q = shrink(p).unwrap();
    assert_eq!(q.pixels, vec![9, 8, 7, 6]);
    let file = encode_picture(q).ok().unwrap();
    assert_eq!(image::load_from_memory(&file).unwrap().to_rgba8().get_pixel(0, 0).0, [9, 8, 7, 6]);
}

#[test]
fn the_gallery_serves_files() {
    assert_eq!(
        ImageService::thumbnail_url("http://h/", "/a.png").ok().unwrap(),
        "http://h/image-thumbnails/a.png"
    );
    assert_eq!(ImageService::thumbnail_path("a.png").ok().unwrap(), "a.png.png");
    assert_eq!(ImageService::get_image("a.webp", true, vec![1]).content_type, "image/webp");
    assert_eq!(ImageService::get_image("a.webp", false, vec![1]).content_type, "image/png");
    let d = ImageService::get_image_download("x/a.jpg", None, vec![1]).ok().unwrap();
    assert_eq!(d.filename.as_deref(), Some("a.jpg"));
    let d = ImageService::get_image_download("x/a.jpg", Some("b.jpg"), vec![1]).ok().unwrap();
    assert_eq!((d.filename.as_deref(), d.content_type.as_str()), (Some("b.jpg"), "image/jpeg"));
    assert_eq!(ImageService::get_thumbnail(vec![2]).bytes, vec![2]);
    let m = |secs| Some(Moment { secs, nanos: 0 });
    assert!(ImageService::thumbnail_fresh(m(5), None));
    assert!(ImageService::thumbnail_fresh(m(5), m(5)));
    assert!(!ImageService::thumbnail_fresh(m(4), m(5)));
    assert!(!ImageService::thumbnail_fresh(None, None));
    assert_eq!(ImageService::thumbnail_source("a.png.png"), Some("a.png".to_string()));
    assert_eq!(ImageService::thumbnail_source("a.jpg"), None);
    let s = ImageStorageService::load_clean_index(&j(r#"{"items":{"r.png":{"webdav":true}}}"#));
    assert!(ImageService::keeps_thumbnail("r.png.png", &s, false));
    assert!(!ImageService::keeps_thumbnail("q.png.png", &s, false));
    assert!(ImageService::keeps_thumbnail("q.png.png", &s, true));
    assert_eq!(ImageService::delete_report(3).to_text(), r#"{"removed":3}"#);
    assert_eq!(
        ImageService::delete_targets(true, &vec![j(r#"{"path":"a"}"#), j("{}")], texts(&["z"])),
        texts(&["a"])
    );
    assert_eq!(ImageService::delete_targets(false, &Vec::new(), texts(&["z"])), texts(&["z"]));
}

#[test]
fn images_are_grouped_by_day() {
    let mut tags = ImageTagsService::from_value(Json::Null);
    tags.set_tags("b.png", &texts(&["t"]));
    let raw = vec![
        j(r#"{"path":"a.png","date":"2","url":"u"}"#),
        j(r#"{"path":"b.png","date":"1"}"#),
        j(r#"{"path":"c.png","date":"2"}"#),
        j("5"),
    ];
    let v = ImageService::list_images(&raw, "http://h/", &tags);
    let items = v.items_at("items");
    assert_eq!(items.len(), 3);
    assert_eq!(items[0].str_at("url"), "u");
    assert_eq!(items[1].str_at("url"), "http://h/images/b.png");
    assert_eq!(items[1].str_at("thumbnail_url"), "http://h/image-thumbnails/b.png");
    assert_eq!(items[1].at("tags").to_text(), r#"["t"]"#);
    assert_eq!(items[0].at("tags").to_text(), "[]");
    let groups = v.items_at("groups");
    assert_eq!(groups.len(), 2);
    assert_eq!((groups[0].str_at("date"), groups[0].items_at("items").len()), ("2".to_string(), 2));
    assert_eq!(groups[1].items_at("items")[0].str_at("path"), "b.png");
}

#[test]
fn images_are_packed() {
    assert_eq!(
        ImageService::zip_names(&texts(&["x/a.png", "y/a.png", "z/a.png", "b"])),
        texts(&["a.png", "a_2.png", "a_3.png", "b"])
    );
    let e = ImageService::download_images_zip(Vec::new()).err().unwrap();
    assert_eq!((e.status, e.detail.str_at("error")), (404, "no images found".to_string()));
    let z = ImageService::download_images_zip(vec![
        ("x/a.png".to_string(), vec![1, 2, 3]),
        ("y/a.png".to_string(), vec![4]),
    ])
    .ok()
    .unwrap();
    let mut archive = zip::ZipArchive::new(std::io::Cursor::new(z)).unwrap();
    assert_eq!(archive.len(), 2);
    let mut out = Vec::new();
    std::io::Read::read_to_end(&mut archive.by_name("a_2.png").unwrap(), &mut out).unwrap();
    assert_eq!(out, vec![4]);
}

#[test]
fn tags_are_kept() {
    let mut t = ImageTagsService::from_value(j(r#"{"a":["x","y"],"b":"z"}"#));
    assert_eq!(t.get_tags("a"), texts(&["x", "y"]));
    assert_eq!(t.set_tags("c", &texts(&[" y ", "", "y"])), texts(&["y"]));
    assert_eq!(t.get_tags("c"), texts(&["y"]));
    assert_eq!(t.delete_tag("y"), 2);
    assert_eq!(t.get_tags("a"), texts(&["x"]));
    assert!(t.get_tags("c").is_empty());
    assert!(t.tags_value("c").is_none());
    assert!(t.remove_tags("a"));
    assert!(!t.remove_tags("a"));
    t.set_tags("d", &texts(&["q", "p"]));
    assert_eq!(t.get_all_tags(), texts(&["q", "p"]));
    assert!(t.set_tags("d", &texts(&[" "])).is_empty());
    assert!(t.get_all_tags().is_empty());
    assert_eq!(value_to_tags(Some(&j(r#"["a",1]"#))), texts(&["a"]));
}

#[test]
fn a_deleted_tag_leaves_its_place_to_the_last() {
    let mut t = ImageTagsService::from_value(j(r#"{"a":["x"],"b":["y"],"c":["z"]}"#));
    assert_eq!(t.delete_tag("x"), 1);
    assert_eq!(t.get_all_tags(), texts(&["z", "y"]));
    let mut t = ImageTagsService::from_value(j(r#"{"a":["x"],"b":["x","y","x"],"c":["x"]}"#));
    assert_eq!(t.delete_tag("x"), 3);
    assert_eq!(t.to_value().to_text(), r#"{"b":["y"]}"#);
    assert_eq!(t.delete_tag("x"), 0);
}

#[test]
fn plain_times_are_read() {
    let read = |s: &str| -> Vec<Option<(i64, u32)>> {
        plain_times(s).iter().map(|m| m.as_ref().map(|m| (m.secs, m.nanos))).collect()
    };
    let at = Some((1_700_000_000, 0));
    assert_eq!(read(" 2023-11-14 22:13:20 "), vec![at, None, None]);
    assert_eq!(read("2023-11-14T22:13:20"), vec![None, at, at]);
    assert_eq!(read("2023-11-14T22:13:20.25"), vec![None, Some((1_700_000_000, 250_000_000)), None]);
    assert_eq!(read("2023-11-14T22:13:20.123456+00:00"), vec![
        None,
        Some((1_700_000_000, 123_456_000)),
        None
    ]);
    assert_eq!(read("soon"), vec![None, None, None]);
}

#[test]
fn task_values_are_cleaned() {
    assert_eq!(clean_value(Some(&j(r#"" a ""#)), "d"), "a");
    assert_eq!(clean_value(Some(&j("0.0")), " d "), "d");
    assert_eq!(clean_value(Some(&j("0")), "d"), "d");
    assert_eq!(clean_value(Some(&j("false")), "d"), "d");
    assert_eq!(clean_value(Some(&j("true")), "d"), "true");
    assert_eq!(clean_value(Some(&j("[1]")), "d"), "[1]");
    assert_eq!(clean_value(None, "d"), "d");
    assert_eq!(owner_id(&j("{}")), "anonymous");
    assert_eq!(owner_id(&j(r#"{"id":"o"}"#)), "o");
    assert_eq!(task_key("o", "t"), "o:t");
    assert_eq!(dedupe(&texts(&["a", "b", "a"])), texts(&["a", "b"]));
    assert_eq!(collect_image_urls(&vec![j(r#"{"url":"u"}"#), j(r#"{"url":""}"#)]), texts(&["u"]));
    assert_eq!(parse_timestamp(Some(&j(r#""""#))), 0);
    assert_eq!(parse_timestamp(Some(&j("5"))), 0);
    assert_eq!(parse_timestamp(Some(&j(r#""soon""#))), 0);
    assert_eq!(settle(&vec![None, Some(7)], "x"), 7);
    assert_eq!(settle(&vec![None], "2024-05-06T07:08:09Z"), 1714979289);
    assert_eq!(settle(&Vec::new(), "x"), 0);
}

#[test]
fn tasks_are_submitted_once() {
    let mut s = ImageTaskService::load_tasks(&j("{}"), "now");
    let me = j(r#"{"id":"o"}"#);
    let r = task_request("p", " m ", Some(" "), "", "", None);
    assert_eq!((r.quality.as_str(), r.size.is_none(), r.base_url.is_none()), ("auto", true, true));
    match s.submit(&me, " ", "generate", &r, "t0", j("1.5")) {
        Submitted::Refused(e) => assert_eq!(e.str_at("error"), "client_task_id is required"),
        _ => panic!("taken"),
    }
    match s.submit(&me, " x ", "generate", &r, "t0", j("1.5")) {
        Submitted::Started(key, p) => {
            assert_eq!(key, "o:x");
            assert_eq!(
                p.task.to_text(),
                r#"{"id":"x","status":"queued","mode":"generate","model":"m","size":"","quality":"auto","created_at":"t0","updated_at":"t0"}"#
            );
            assert_eq!(p.since.unwrap().to_text(), "1.5");
        }
        _ => panic!("not started"),
    }
    assert!(matches!(
        s.submit(&me, "x", "edit", &r, "t1", j("2.5")),
        Submitted::Known(_)
    ));
    assert!(s.update_task("o:x", &running_updates(j("3.5")), "t2", j("3.5")));
    let p = s.get_task(&me, "x").unwrap();
    assert_eq!(p.task.str_at("status"), "running");
    assert_eq!(p.since.unwrap().to_text(), "3.5");
    assert!(!s.update_task("o:y", &j("{}"), "t", j("1")));
    assert!(s.recover_unfinished("t3"));
    let p = s.get_task(&me, "x").unwrap();
    assert_eq!(p.task.str_at("status"), "error");
    assert_eq!(p.task.str_at("error"), "服务已重启，未完成的图片任务已中断");
    assert!(p.since.is_none());
    assert!(!s.recover_unfinished("t4"));
    assert!(s.get_task(&j("{}"), "x").is_none());
}

#[test]
fn tasks_are_loaded_listed_and_forgotten() {
    let doc = j(
        r#"{"tasks":[{"id":"a","owner_id":"o","status":"odd","mode":"edit","updated_at":"2"},{"id":"b","owner_id":"o","status":"success","updated_at":"3","data":[1]},{"id":"","owner_id":"o"},{"id":"c","owner_id":"p","status":"running"}]}"#,
    );
    let mut s = ImageTaskService::load_tasks(&doc, "1");
    let me = j(r#"{"id":"o"}"#);
    let l = s.list_tasks(&me, &Vec::new());
    let ids: Vec<String> = l.items.iter().map(|t| t.task.str_at("id")).collect();
    assert_eq!(ids, texts(&["b", "a"]));
    assert_eq!(l.items[1].task.str_at("status"), "error");
    assert_eq!(l.items[0].task.at("data").to_text(), "[1]");
    let l = s.list_tasks(&me, &texts(&[" a ", "c", ""]));
    assert_eq!((l.items.len(), l.missing_ids.clone()), (1, texts(&["c"])));
    assert_eq!(
        listing_value(Vec::new(), &l.missing_ids).to_text(),
        r#"{"items":[],"missing_ids":["c"]}"#
    );
    let order: Vec<String> =
        s.save_tasks().items_at("tasks").iter().map(|t| t.str_at("id")).collect();
    assert_eq!(order, texts(&["b", "a", "c"]));
    let now = Moment { secs: 200_000, nanos: 0 };
    assert!(s.cleanup_tasks(&vec![0, 150_000, 0], 1, now));
    assert_eq!(s.save_tasks().items_at("tasks").len(), 2);
    assert!(!s.cleanup_tasks(&vec![150_000, 0], 1, now));
    assert_eq!(s.stamps().len(), 2);
    assert_eq!(ImageTaskService::load_tasks(&j(r#"[{"id":"z","owner_id":"o"}]"#), "1").stamps().len(), 1);
}

#[test]
fn runs_end() {
    let ok = finish_run(&j(r#"{"data":[{"url":"u"},{"url":"u"}],"_account_email":" e "}"#), 5);
    assert_eq!(ok.updates.str_at("status"), "success");
    assert_eq!((ok.suffix.as_str(), ok.urls.len()), ("调用完成", 2));
    let (summary, detail) =
        log_call(&j(r#"{"id":"1"}"#), "edit", "m", "a", "b", 5, " p ", &ok);
    assert_eq!(summary, "图生图调用完成");
    assert_eq!(
        detail.to_text(),
        r#"{"key_id":"1","key_name":null,"role":null,"endpoint":"/v1/images/edits","model":"m","started_at":"a","ended_at":"b","duration_ms":5,"status":"success","request_text":"p","account_email":"e","urls":["u"]}"#
    );
    let none = finish_run(&j(r#"{"data":[],"message":" why "}"#), 5);
    assert_eq!(none.error, "why");
    assert!(finish_run(&j("{}"), 5).error.starts_with("号池中没有可用账号"));
    let bad = fail_run(" ", " e ", " c ", 7);
    assert_eq!(bad.error, "image task failed");
    assert_eq!(bad.account_email, "e");
    assert_eq!(
        bad.updates.to_text(),
        r#"{"status":"error","error":"image task failed","data":[],"duration_ms":7,"conversation_id":"c"}"#
    );
    assert_eq!(public_task(&j(r#"{"id":"i","usage":null,"progress":""}"#)).task.get("usage").is_none(), true);
}

#[test]
fn task_requests_are_read() {
    let said = |b: &str, edit: bool| {
        read_task_fields(&j(b), edit).err().unwrap().detail.str_at("error")
    };
    assert_eq!(said("{}", false), "client_task_id is required");
    assert_eq!(said(r#"{"client_task_id":5}"#, false), "prompt is required");
    let f = read_task_fields(&j(r#"{"client_task_id":5,"size":" s "}"#), true).ok().unwrap();
    assert_eq!((f.client_task_id.as_str(), f.model.as_str()), ("5", "gpt-image-2"));
    assert_eq!((f.size.as_deref(), f.quality.as_str()), (Some("s"), "auto"));
}

#[test]
fn editable_files_are_not_made() {
    let mut s = EditableFileTaskService::new();
    assert_eq!(
        s.submit_ppt().str_at("error"),
        "PPT export is not available in this build (engine editable-file export pending)"
    );
    assert!(s.submit_psd().str_at("error").starts_with("PSD "));
    assert!(s.public_file_path("x").is_none());
    s.tasks.push(j(r#"{"owner_id":"o","task_id":"1"}"#));
    s.tasks.push(j(r#"{"owner_id":"p","task_id":"2"}"#));
    let me = j(r#"{"id":"o"}"#);
    assert_eq!(s.list_tasks(&me, &Vec::new()).items_at("items").len(), 1);
    assert_eq!(s.list_tasks(&me, &texts(&["2"])).items_at("items").len(), 0);
}

#[test]
fn stored_tasks_are_read_back() {
    let doc = j(
        r#"[{"id":" a ","owner_id":"o","status":"odd","error":" e ","data":[1],"usage":3}]"#,
    );
    let saved = ImageTaskService::load_tasks(&doc, "then").save_tasks();
    let t = &saved.items_at("tasks")[0];
    assert_eq!((t.str_at("id"), t.str_at("error")), ("a".to_string(), "e".to_string()));
    assert_eq!(t.str_at("updated_at"), "then");
    assert!(t.get("usage").is_none());
    assert_eq!(ImageTaskService::load_tasks(&saved, "later").save_tasks().to_text(), saved.to_text());
}

#[test]
fn small_pictures_keep_their_ratio() {
    for (w, h, small) in [(640, 480, (320, 240)), (321, 1, (320, 1)), (100, 400, (80, 320))] {
        assert_eq!(image_dims(&make_thumbnail(&png(w, h, false)).ok().unwrap()), small);
    }
    let p = Picture { width: 400, height: 200, alpha: true, pixels: vec![7; 400 * 200 * 4] };
    let q = shrink(p).unwrap();
    assert_eq!((q.width, q.height), (320, 160));
}

#[test]
fn pictures_are_set_upright() {
    let turned = |turn: Option<u8>| {
        let pixels = vec![1, 1, 1, 1, 2, 2, 2, 2, 3, 3, 3, 3, 4, 4, 4, 4, 5, 5, 5, 5, 6, 6, 6, 6];
        let q = set_upright(Picture { width: 3, height: 2, alpha: true, pixels }, turn).unwrap();
        let firsts: Vec<u8> = q.pixels.chunks(4).map(|p| p[0]).collect();
        (q.width, q.height, firsts)
    };
    assert_eq!(turned(None), (3, 2, vec![1, 2, 3, 4, 5, 6]));
    assert_eq!(turned(Some(1)), (3, 2, vec![1, 2, 3, 4, 5, 6]));
    assert_eq!(turned(Some(2)), (3, 2, vec![3, 2, 1, 6, 5, 4]));
    assert_eq!(turned(Some(3)), (3, 2, vec![6, 5, 4, 3, 2, 1]));
    assert_eq!(turned(Some(4)), (3, 2, vec![4, 5, 6, 1, 2, 3]));
    assert_eq!(turned(Some(5)), (2, 3, vec![1, 4, 2, 5, 3, 6]));
    assert_eq!(turned(Some(6)), (2, 3, vec![4, 1, 5, 2, 6, 3]));
    assert_eq!(turned(Some(7)), (2, 3, vec![6, 3, 5, 2, 4, 1]));
    assert_eq!(turned(Some(8)), (2, 3, vec![3, 6, 2, 5, 1, 4]));
}

/// The sides of a picture file and the brightness of its pixels, row by row.
fn grays(file: &[u8]) -> (u32, u32, Vec<u8>) {
    let img = image::load_from_memory(file).unwrap().to_rgb8();
    (img.width(), img.height(), img.pixels().map(|p| p.0[0]).collect())
}

/// The bytes of a picture in one of the formats.
fn encoded(img: image::DynamicImage, format: image::ImageFormat) -> Vec<u8> {
    let mut out = std::io::Cursor::new(Vec::new());
    img.write_to(&mut out, format).unwrap();
    out.into_inner()
}

#[test]
fn small_pictures_show_what_is_stored() {
    let img = image::RgbaImage::from_fn(5, 3, |x, y| {
        image::Rgba([x as u8 * 40, y as u8 * 80, (x + y) as u8, 255 - x as u8])
    });
    for format in [image::ImageFormat::Png, image::ImageFormat::WebP] {
        let file = encoded(image::DynamicImage::ImageRgba8(img.clone()), format);
        let thumb = make_thumbnail(&file).ok().unwrap();
        assert!(thumb.starts_with(b"\x89PNG"));
        assert_eq!(image::load_from_memory(&thumb).unwrap().to_rgba8(), img);
    }
}

#[test]
fn large_pictures_are_resized() {
    let img = image::RgbImage::from_fn(640, 640, |x, y| {
        image::Rgb([if x < 320 { 10 } else { 200 }, if y < 320 { 30 } else { 240 }, 77])
    });
    let file = encoded(image::DynamicImage::ImageRgb8(img), image::ImageFormat::Png);
    let thumb = image::load_from_memory(&make_thumbnail(&file).ok().unwrap()).unwrap().to_rgb8();
    assert_eq!((thumb.width(), thumb.height()), (320, 320));
    assert_eq!(thumb.get_pixel(40, 40).0, [10, 30, 77]);
    assert_eq!(thumb.get_pixel(280, 40).0, [200, 30, 77]);
    assert_eq!(thumb.get_pixel(40, 280).0, [10, 240, 77]);
    assert_eq!(thumb.get_pixel(280, 280).0, [200, 240, 77]);
}

#[test]
fn resizing_is_planned() {
    let of = |width: u32, height: u32| Picture {
        width,
        height,
        alpha: true,
        pixels: vec![9; (width * height * 4) as usize],
    };
    match plan_shrink(of(320, 320)) {
        Shrinking::Keep(p) => assert_eq!((p.width, p.height, p.pixels), (320, 320, vec![9; 409_600])),
        Shrinking::Resize(..) => panic!("a picture that fits was resized"),
    }
    match plan_shrink(of(321, 1)) {
        Shrinking::Resize(p, w, h) => {
            assert_eq!((p.width, p.height, w, h), (321, 1, 320, 320));
            assert_eq!(p.pixels, vec![9; 1284]);
        }
        Shrinking::Keep(_) => panic!("a wide picture was kept"),
    }
}

#[test]
fn turned_pictures_are_turned_in_their_files() {
    let made = |turn: Option<u8>| {
        let pixels = [10u8, 20, 30, 40, 50, 60].iter().flat_map(|&g| vec![g, g, g, 255]).collect();
        let stored = Picture { width: 3, height: 2, alpha: false, pixels };
        grays(&thumbnail_of(stored, turn).ok().unwrap())
    };
    assert_eq!(made(None), (3, 2, vec![10, 20, 30, 40, 50, 60]));
    assert_eq!(made(Some(1)), (3, 2, vec![10, 20, 30, 40, 50, 60]));
    assert_eq!(made(Some(2)), (3, 2, vec![30, 20, 10, 60, 50, 40]));
    assert_eq!(made(Some(3)), (3, 2, vec![60, 50, 40, 30, 20, 10]));
    assert_eq!(made(Some(4)), (3, 2, vec![40, 50, 60, 10, 20, 30]));
    assert_eq!(made(Some(5)), (2, 3, vec![10, 40, 20, 50, 30, 60]));
    assert_eq!(made(Some(6)), (2, 3, vec![40, 10, 50, 20, 60, 30]));
    assert_eq!(made(Some(7)), (2, 3, vec![60, 30, 50, 20, 40, 10]));
    assert_eq!(made(Some(8)), (2, 3, vec![30, 60, 20, 50, 10, 40]));
}

#[test]
fn turned_files_are_set_upright() {
    // Four quarters of different brightness, each two blocks of the format wide and high.
    let shade = |x: u32, y: u32| [[20u8, 90], [160, 230]][(y / 16) as usize][(x / 32) as usize];
    let img = image::RgbImage::from_fn(64, 32, |x, y| image::Rgb([shade(x, y); 3]));
    let mut out = std::io::Cursor::new(Vec::new());
    image::DynamicImage::ImageRgb8(img).write_to(&mut out, image::ImageFormat::Jpeg).unwrap();
    let plain = out.into_inner();
    let turned = |turn: u8| {
        let exif: Vec<u8> = [
            &[0xff, 0xe1, 0, 34][..],
            b"Exif\0\0",
            b"II*\0\x08\0\0\0",
            &[1, 0, 0x12, 1, 3, 0, 1, 0, 0, 0, turn, 0, 0, 0, 0, 0, 0, 0],
        ]
        .concat();
        [&plain[..2], &exif, &plain[2..]].concat()
    };
    let stored = grays(&plain);
    assert_eq!(grays(&make_thumbnail(&plain).ok().unwrap()), stored);
    let (w, h, pixels) = stored;
    // Where the pixel of column x and row y of the upright picture stands in the file.
    let place = |turn: u8, x: u32, y: u32| match turn {
        1 => (x, y),
        2 => (w - 1 - x, y),
        3 => (w - 1 - x, h - 1 - y),
        4 => (x, h - 1 - y),
        5 => (y, x),
        6 => (y, h - 1 - x),
        7 => (w - 1 - y, h - 1 - x),
        _ => (w - 1 - y, x),
    };
    for turn in 1..=8 {
        let (uw, uh) = if turn < 5 { (w, h) } else { (h, w) };
        let mut want = Vec::new();
        for y in 0..uh {
            for x in 0..uw {
                let (sx, sy) = place(turn, x, y);
                want.push(pixels[(sy * w + sx) as usize]);
            }
        }
        assert_eq!(grays(&make_thumbnail(&turned(turn)).ok().unwrap()), (uw, uh, want));
    }
    let (_, _, six) = grays(&make_thumbnail(&turned(6)).ok().unwrap());
    let near = |got: u8, want: u8| got.abs_diff(want) < 12;
    assert!(near(six[4 * 32 + 4], 160) && near(six[4 * 32 + 28], 20));
    assert!(near(six[60 * 32 + 4], 230) && near(six[60 * 32 + 28], 90));
}
