use model2api::codex::{codex_image_input, parse_codex_events};
use model2api::engine::{
    api_messages_to_conversation_messages, build_fingerprint, build_requirements,
    conversation_headers, conversation_init_body, conversation_payload, emulation_for, ensure_ok,
    extract_quota_and_restore_at, get_user_info, is_content_policy_error, list_models,
    prompt_message, raise_on_error, read_default_account, req_headers, required_challenge,
    required_puzzle, ChatRequirements, Emulation, EngineError, OpenAIBackendAPI, UpstreamHttpError,
};
use model2api::picture::{
    add_unique, attachment_download_path, check_task_error, conversation_tasks,
    decode_image_base64, extract_image_reference_ids, extract_image_tool_records,
    file_download_path, find_content_policy_error_in_conversation, finish_poll,
    has_image_asset_pointer, image_download_paths, image_headers, image_model_slug, image_name,
    image_payload, may_be_path, must_poll, prepare_payload, push_image, read_download_url,
    read_upload, real_files, upload_headers, upload_record, upload_request, uploaded_path,
    ImagePoll, PollStep,
};
use model2api::search::{
    clean_search_url, extract_search_result, extract_search_sources, find_value,
    finish_search_stream, prepare_search_headers, read_conduit_token, search_conversation_headers,
    search_message_text, search_payload, take_search_payload, walk_dicts, SearchStep, SearchWait,
};
use model2api::sse::{payload_from_line, SseStep, SseStream};
use model2api::value::Json;

fn j(s: &str) -> Json {
    Json::parse_text(s).unwrap()
}

fn texts(v: &[&str]) -> Vec<String> {
    v.iter().map(|s| s.to_string()).collect()
}

fn pairs(v: &[(&str, &str)]) -> Vec<(String, String)> {
    v.iter().map(|(a, b)| (a.to_string(), b.to_string())).collect()
}

fn busy(status: u16, retry: Option<u64>) -> EngineError {
    EngineError::Upstream(UpstreamHttpError {
        context: "c".to_string(),
        status_code: status,
        body: Json::Null,
        retry_after: retry,
    })
}

fn needs(token: &str, proof: &str) -> ChatRequirements {
    ChatRequirements {
        token: token.to_string(),
        proof_token: proof.to_string(),
        turnstile_token: String::new(),
        so_token: "so".to_string(),
        raw_finalize: j(r#"{"a":1}"#),
    }
}

#[test]
fn refusals_are_recognized() {
    assert!(is_content_policy_error("Your request was BLOCKED"));
    assert!(is_content_policy_error("这违反了规定"));
    assert!(!is_content_policy_error("all fine"));
    assert!(!is_content_policy_error(""));
}

#[test]
fn failures_of_the_upstream() {
    assert_eq!(
        raise_on_error(401, "/p").to_text(""),
        "invalid access token: token invalidated (/p)"
    );
    assert_eq!(raise_on_error(500, "/p").to_text(""), "/p failed: HTTP 500");
    assert!(ensure_ok(204, "c", None, "").is_ok());
    match ensure_ok(429, "c", Some(" 7 "), r#"{"e":1}"#).err().unwrap() {
        EngineError::Upstream(e) => {
            assert_eq!((e.status_code, e.retry_after), (429, Some(7)));
            assert_eq!(e.body.to_text(), r#"{"e":1}"#);
        }
        _ => panic!("another failure"),
    }
    match ensure_ok(500, "c", Some("soon"), "oops").err().unwrap() {
        EngineError::Upstream(e) => {
            assert_eq!(e.retry_after, None);
            assert_eq!(e.body.to_text(), "\"oops\"");
        }
        _ => panic!("another failure"),
    }
    assert_eq!(busy(500, None).to_text("text"), "text");
    assert_eq!(EngineError::other("x").to_text(""), "x");
}

#[test]
fn clients_present_themselves() {
    let f = build_fingerprint(
        &j(r#"{"fp":{"User-Agent":"ua","OAI-Device-Id":7},"sec-ch-ua":" x "}"#),
        "dev",
        "ses",
    );
    assert_eq!(f.user_agent, "ua");
    assert_eq!(f.device_id, "7");
    assert_eq!(f.session_id, "ses");
    assert_eq!(f.sec_ch_ua, "x");
    assert_eq!(f.impersonate, "edge101");
    assert!(emulation_for(" Edge131 ") == Emulation::Edge131);
    assert!(emulation_for("edge134") == Emulation::Edge134);
    assert!(emulation_for("x") == Emulation::Edge101);
    let c = OpenAIBackendAPI::new("t", j(r#"{"proxy":" p "}"#), "dev", "ses");
    assert_eq!(c.proxy("q"), "p");
    assert_eq!(c.url("/x"), "https://chatgpt.com/x");
    let h = c.build_base_headers();
    assert_eq!(h.len(), 25);
    assert_eq!(h[2], ("Referer".to_string(), "https://chatgpt.com/".to_string()));
    assert_eq!(h[24], ("Authorization".to_string(), "Bearer t".to_string()));
    assert_eq!(c.bootstrap_headers().len(), 11);
    assert_eq!(c.access_token(), "t");
    assert_eq!(c.account().str_at("proxy"), " p ");
    let anon = OpenAIBackendAPI::new("", Json::Null, "dev", "ses");
    assert_eq!(anon.build_base_headers().len(), 24);
    assert_eq!(anon.chat_target(), ("/backend-anon/conversation", "America/Los_Angeles"));
    assert_eq!(c.chat_target(), ("/backend-api/conversation", "Asia/Shanghai"));
    assert_eq!(anon.requirements_target().1, "noauth_chat_requirements");
    assert_eq!(c.models_target().2, "auth_models");
    let mut c = c;
    c.bootstrap(Vec::new(), "b".to_string());
    assert_eq!(
        c.pow_script_sources,
        texts(&["https://chatgpt.com/backend-api/sentinel/sdk.js"])
    );
}

#[test]
fn requirements_are_put_together() {
    let said = |r: Result<ChatRequirements, EngineError>| r.err().unwrap().to_text("");
    assert_eq!(
        said(build_requirements(j(r#"{"arkose":{"required":true}}"#), None, None)),
        "chat requirements requires arkose token, which is not implemented"
    );
    let pow = r#"{"proofofwork":{"required":true,"seed":"s","difficulty":"d"},"turnstile":{"required":true,"dx":"x"},"token":"t"}"#;
    assert_eq!(required_puzzle(&j(pow)), Some(("s".to_string(), "d".to_string())));
    assert_eq!(required_challenge(&j(pow)), Some("x".to_string()));
    assert_eq!(required_puzzle(&j("{}")), None);
    assert_eq!(required_challenge(&j(r#"{"turnstile":{"required":true}}"#)), None);
    assert_eq!(said(build_requirements(j(pow), Some(Err("e".to_string())), None)), "e");
    let q = build_requirements(j(pow), Some(Ok("proof".to_string())), Some("turn".to_string()))
        .ok()
        .unwrap();
    assert_eq!((q.token.as_str(), q.proof_token.as_str(), q.turnstile_token.as_str()), ("t", "proof", "turn"));
    let c = OpenAIBackendAPI::new("t", Json::Null, "d", "s");
    assert!(c.check_requirements(q).is_ok());
    assert_eq!(
        said(c.check_requirements(needs("", ""))),
        r#"missing auth chat requirements token: {"a":1}"#
    );
    assert_eq!(
        conversation_headers("/p", &needs("t", "")),
        pairs(&[
            ("X-OpenAI-Target-Path", "/p"),
            ("X-OpenAI-Target-Route", "/p"),
            ("Accept", "text/event-stream"),
            ("Content-Type", "application/json"),
            ("OpenAI-Sentinel-Chat-Requirements-Token", "t"),
            ("OpenAI-Sentinel-SO-Token", "so"),
        ])
    );
    assert_eq!(req_headers("/p", pairs(&[("a", "b")])).len(), 3);
}

#[test]
fn messages_are_converted() {
    let m = vec![
        j(r#"{"role":"system","content":"a"}"#),
        j(r#"{"content":[{"type":"text","text":"b"},{"type":"image"},"x",{"type":"text","text":"c"}]}"#),
    ];
    let out = api_messages_to_conversation_messages(&m, &texts(&["1", "2"])).ok().unwrap();
    assert_eq!(
        out[0].to_text(),
        r#"{"id":"1","author":{"role":"system"},"content":{"content_type":"text","parts":["a"]}}"#
    );
    assert_eq!(
        out[1].to_text(),
        r#"{"id":"2","author":{"role":"user"},"content":{"content_type":"text","parts":["bc"]}}"#
    );
    let bad = vec![j(r#"{"content":5}"#)];
    assert_eq!(
        conversation_payload(&bad, &texts(&["1"]), "m", "z", "p", "w").err().unwrap().to_text(""),
        "only string or list message content is supported"
    );
    let p = conversation_payload(&vec![prompt_message("hi")], &texts(&["1"]), "m", "z", "p", "w")
        .ok()
        .unwrap();
    assert_eq!(p.str_at("model"), "m");
    assert_eq!(p.int_at("timezone_offset_min", 0), -480);
    assert_eq!(p.at("client_contextual_info").int_at("page_width", 0), 1400);
    assert_eq!(p.items_at("messages").len(), 1);
    assert_eq!(p.str_at("websocket_request_id"), "w");
}

#[test]
fn models_are_listed() {
    let v = list_models(&j(
        r#"{"models":[{"slug":"b","created":5},{"slug":" a ","owned_by":"x"},{"slug":"b"},{"slug":""},7]}"#,
    ));
    assert_eq!(
        v.to_text(),
        r#"{"object":"list","data":[{"id":"a","object":"model","created":0,"owned_by":"x","permission":[],"root":"a","parent":null},{"id":"b","object":"model","created":5,"owned_by":"chatgpt","permission":[],"root":"b","parent":null}]}"#
    );
}

#[test]
fn accounts_upstream_are_read() {
    assert_eq!(conversation_init_body().int_at("timezone_offset_min", 0), -480);
    assert_eq!(
        read_default_account(&j(r#"{"accounts":{"default":{"account":{"x":1}}}}"#)).to_text(),
        r#"{"x":1}"#
    );
    assert_eq!(read_default_account(&j("[]")).to_text(), "{}");
    let limits = vec![j("{}"), j(r#"{"feature_name":"image_gen","remaining":4,"reset_after":"t"}"#)];
    assert_eq!(extract_quota_and_restore_at(&limits), (4, Some("t".to_string()), false));
    assert_eq!(extract_quota_and_restore_at(&Vec::new()), (0, None, true));
    let info = get_user_info(
        &j(r#"{"email":"e","id":"u"}"#),
        &j(r#"{"limits_progress":[],"default_model_slug":"m"}"#),
        &j(r#"{"plan_type":"plus"}"#),
    );
    assert_eq!(
        info.to_text(),
        r#"{"email":"e","user_id":"u","type":"plus","quota":0,"image_quota_unknown":true,"limits_progress":[],"default_model_slug":"m","restore_at":null,"status":"正常"}"#
    );
    assert_eq!(get_user_info(&j("{}"), &j("{}"), &j("{}")).str_at("status"), "限流");
}

#[test]
fn events_come_whatever_the_chunks() {
    let bytes = "data: a\r\n\nevent: x\ndata:\ndata:  b ü\ndata: last".as_bytes();
    for step in 1..bytes.len() {
        let mut s = SseStream::new();
        let mut got = Vec::new();
        for c in bytes.chunks(step) {
            s.feed(c);
            while let SseStep::Payload(p) = s.next_payload() {
                got.push(p);
            }
            assert!(matches!(s.next_payload(), SseStep::Need));
        }
        s.close();
        while let SseStep::Payload(p) = s.next_payload() {
            got.push(p);
        }
        assert!(matches!(s.next_payload(), SseStep::End));
        assert_eq!(got, texts(&["a", "b ü", "last"]));
    }
    assert_eq!(payload_from_line(b"  data:x"), Some("x".to_string()));
    assert_eq!(payload_from_line(b"data: \xff"), Some("\u{fffd}".to_string()));
    assert_eq!(payload_from_line(b""), None);
}

#[test]
fn images_are_sent() {
    let mut v = texts(&["a"]);
    add_unique(&mut v, &texts(&["", "b", "a", "b"]));
    assert_eq!(v, texts(&["a", "b"]));
    assert_eq!(image_model_slug(Some("gpt-image-2")), "gpt-5-3");
    assert_eq!(image_model_slug(Some("codex-gpt-image-2")), "codex-gpt-image-2");
    assert_eq!(image_model_slug(Some("x")), "auto");
    assert_eq!(image_model_slug(None), "auto");
    assert!(may_be_path("a/b.png"));
    assert!(!may_be_path("data:x"));
    assert!(!may_be_path("a\nb"));
    assert!(!may_be_path(&"x".repeat(512)));
    assert_eq!(decode_image_base64("data:image/png;base64, YWJj ").ok().unwrap(), b"abc");
    assert_eq!(decode_image_base64("YWJj").ok().unwrap(), b"abc");
    assert!(decode_image_base64("!").err().unwrap().to_text("").starts_with("invalid base64 image: "));
    assert_eq!(image_name(0), "image_1.png");
    assert_eq!(
        upload_request("f", b"abc").to_text(),
        r#"{"file_name":"f","file_size":3,"use_case":"multimodal","width":0,"height":0}"#
    );
    assert_eq!(
        read_upload(&j(r#"{"upload_url":"u","file_id":"i"}"#)).ok().unwrap(),
        ("u".to_string(), "i".to_string())
    );
    assert_eq!(
        read_upload(&j(r#"{"file_id":"i"}"#)).err().unwrap().to_text(""),
        r#"invalid upload response: {"file_id":"i"}"#
    );
    assert_eq!(upload_headers("m", "http://b", "ua").len(), 8);
    assert_eq!(uploaded_path("i"), "/backend-api/files/i/uploaded");
    assert_eq!(
        upload_record("i", "f", b"abc").to_text(),
        r#"{"file_id":"i","file_name":"f","file_size":3,"mime_type":"image/png","width":0,"height":0}"#
    );
    let h = image_headers("/p", &needs("t", "pr"), "con", "text/event-stream", "tr");
    assert_eq!(h[2], ("Content-Type".to_string(), "application/json".to_string()));
    assert_eq!(h[6], ("X-Conduit-Token".to_string(), "con".to_string()));
    assert_eq!(h[7], ("X-Oai-Turn-Trace-Id".to_string(), "tr".to_string()));
    assert_eq!(image_headers("/p", &needs("t", ""), "", "*/*", "tr").len(), 5);
}

#[test]
fn image_requests_are_made() {
    let p = prepare_payload("hi", "m", "picture_v2", "par", "q");
    assert_eq!(p.at("system_hints").to_text(), r#"["picture_v2"]"#);
    assert_eq!(p.at("partial_query").str_at("id"), "q");
    let refs = vec![j(r#"{"file_id":"i","file_name":"f","mime_type":"image/png","width":3}"#)];
    let v = image_payload("hi", "m", &refs, "id", "par", j("1.5"));
    let m = &v.items_at("messages")[0];
    assert_eq!(
        m.at("content").to_text(),
        r#"{"content_type":"multimodal_text","parts":[{"content_type":"image_asset_pointer","asset_pointer":"file-service://i","width":3,"height":0,"size_bytes":0},"hi"]}"#
    );
    assert_eq!(
        m.at("metadata").at("attachments").to_text(),
        r#"[{"id":"i","mimeType":"image/png","name":"f","size":null,"width":3,"height":null}]"#
    );
    assert_eq!(m.at("create_time").to_text(), "1.5");
    assert_eq!(v.at("client_contextual_info").at("pixel_ratio").to_text(), "1.2");
    let plain = image_payload("hi", "m", &Vec::new(), "id", "par", j("1"));
    assert_eq!(
        plain.items_at("messages")[0].at("content").to_text(),
        r#"{"content_type":"text","parts":["hi"]}"#
    );
    assert!(plain.items_at("messages")[0].at("metadata").get("attachments").is_none());
}

const CONVERSATION: &str = r#"{"mapping":{
"n1":{"message":{"author":{"role":"Tool"},"create_time":9.5,"content":{"parts":["file-service://late sediment://sed_1"]}}},
"n2":{"message":{"author":{"role":"assistant"},"create_time":10,"content":{"parts":["file-service://ignored"]}}},
"n3":{"message":{"author":{"role":"assistant"},"create_time":2,"metadata":{"async_task_type":"image_gen"},"content":{"asset_pointer":"sediment://early"}}},
"n4":{"message":{"author":{"role":"user"},"content":"file-service://mine"}}}}"#;

#[test]
fn images_are_found_in_conversations() {
    let (f, s) = extract_image_reference_ids(&j(
        r#"["file-service://a-1 file-service://a-1",{"x":"sediment://s_2, file_000000000123456789abcdef01234567"}]"#,
    ));
    assert_eq!(f, texts(&["a-1", "file_000000000123456789abcdef01234567"]));
    assert_eq!(s, texts(&["s_2"]));
    assert!(has_image_asset_pointer(&j(r#"[{"a":{"content_type":"image_asset_pointer"}}]"#)));
    assert!(has_image_asset_pointer(&j(r#"{"asset_pointer":"sediment://x"}"#)));
    assert!(!has_image_asset_pointer(&j(r#"{"asset_pointer":"other"}"#)));
    let r = extract_image_tool_records(&j(CONVERSATION));
    let ids: Vec<&str> = r.iter().map(|x| x.message_id.as_str()).collect();
    assert_eq!(ids, vec!["n3", "n1"]);
    assert_eq!(r[0].sediment_ids, texts(&["early"]));
    assert_eq!((r[1].file_ids.clone(), r[1].sediment_ids.clone()), (texts(&["late"]), texts(&["sed_1"])));
    assert_eq!(
        find_content_policy_error_in_conversation(&j(
            r#"{"mapping":{"a":{"message":{"author":{"role":"user"},"content":"blocked"}},"b":{"message":{"author":{"role":"assistant"},"content":{"parts":[" x ",5],"text":"policy "}}}}}"#
        )),
        "x\npolicy"
    );
    assert_eq!(find_content_policy_error_in_conversation(&j(CONVERSATION)), "");
    let tasks = j(r#"{"tasks":[{"conversation_id":"c"},{"original_conversation_id":"c"},{"conversation_id":"d"}]}"#);
    assert_eq!(conversation_tasks(&tasks, "c").len(), 2);
    assert_eq!(conversation_tasks(&tasks, "").len(), 3);
    assert_eq!(
        check_task_error(&j(
            r#"{"image_gen_message":{"metadata":{"is_error":true},"content":{"content_type":"text","parts":["a",1,"b"]}}}"#
        )),
        (true, "ab".to_string())
    );
    assert_eq!(check_task_error(&j("{}")), (false, String::new()));
}

#[test]
fn images_are_waited_for() {
    let (mut p, settle) = ImagePoll::start(&Vec::new(), &Vec::new(), true, true);
    assert!(!settle);
    p.begin_round(&Vec::new());
    assert!(matches!(p.answer(Err(busy(503, None))), PollStep::Backoff(2)));
    p.begin_round(&Vec::new());
    assert!(matches!(p.answer(Err(busy(429, Some(30)))), PollStep::Backoff(30)));
    assert!(matches!(p.answer(Ok(j("{}"))), PollStep::Wait));
    assert!(matches!(p.answer(Ok(j(CONVERSATION))), PollStep::Settle));
    assert!(matches!(p.answer(Ok(j(CONVERSATION))), PollStep::Done));
    assert_eq!(p.file_ids, texts(&["late"]));
    assert_eq!(p.sediment_ids, texts(&["early", "sed_1"]));
    assert!(matches!(p.answer(Err(busy(404, None))), PollStep::Fail(_)));
    let (mut q, _) = ImagePoll::start(&Vec::new(), &Vec::new(), false, true);
    assert!(matches!(q.answer(Ok(j(CONVERSATION))), PollStep::Done));
    let (mut q, _) = ImagePoll::start(&Vec::new(), &Vec::new(), true, false);
    assert!(matches!(q.answer(Ok(j(CONVERSATION))), PollStep::Done));
    let (q, settle) = ImagePoll::start(&texts(&["a", ""]), &Vec::new(), true, true);
    assert!(settle);
    assert_eq!(q.file_ids, texts(&["a"]));
    let refusal = r#"{"mapping":{"b":{"message":{"author":{"role":"tool"},"content":"it was blocked"}}}}"#;
    let (mut q, _) = ImagePoll::start(&Vec::new(), &Vec::new(), true, true);
    match q.answer(Ok(j(refusal))) {
        PollStep::Fail(EngineError::ImageContentPolicy(m)) => assert_eq!(m, "it was blocked"),
        _ => panic!("went on"),
    }
    q.begin_round(&vec![j(
        r#"{"image_gen_message":{"metadata":{"is_error":true},"content":{"content_type":"text","parts":["no"]}}}"#,
    )]);
    match q.timed_out("c", "120") {
        EngineError::ImagePollTimeout { message, task_error, .. } => {
            assert!(message.starts_with("ChatGPT 生图超时（已等待 120 秒）"));
            assert_eq!(task_error.as_deref(), Some("no"));
        }
        _ => panic!("another failure"),
    }
}

#[test]
fn waits_are_settled() {
    assert!(must_poll(true, "c", false, false, false));
    assert!(must_poll(true, "c", true, true, false));
    assert!(!must_poll(true, "c", true, false, false));
    assert!(!must_poll(true, "", false, true, true));
    let late = |t: Option<&str>| EngineError::ImagePollTimeout {
        message: "m".to_string(),
        conversation_id: "x".to_string(),
        task_error: t.map(|s| s.to_string()),
    };
    match finish_poll(Vec::new(), Vec::new(), Err(late(Some("t"))), "c") {
        Err(EngineError::ImageContentPolicy(m)) => assert_eq!(m, "t"),
        _ => panic!("another outcome"),
    }
    match finish_poll(Vec::new(), Vec::new(), Err(late(None)), "c") {
        Err(EngineError::ImagePollTimeout { message, conversation_id, .. }) => {
            assert_eq!((message.as_str(), conversation_id.as_str()), ("image poll timeout", "c"))
        }
        _ => panic!("another outcome"),
    }
    let kept = finish_poll(texts(&["a"]), Vec::new(), Err(late(None)), "c").ok().unwrap();
    assert_eq!(kept.0, texts(&["a"]));
    let merged =
        finish_poll(texts(&["a"]), Vec::new(), Ok((texts(&["a", "b"]), texts(&["s"]))), "c").ok().unwrap();
    assert_eq!(merged, (texts(&["a", "b"]), texts(&["s"])));
    assert_eq!(real_files(&texts(&["file_upload", "a"])), texts(&["a"]));
    assert_eq!(file_download_path("a"), "/backend-api/files/a/download");
    assert_eq!(
        attachment_download_path("c", "a"),
        "/backend-api/conversation/c/attachment/a/download"
    );
    assert_eq!(
        image_download_paths("c", &texts(&["file_upload", "a"]), &texts(&["s"])),
        texts(&["/backend-api/files/a/download", "/backend-api/conversation/c/attachment/s/download"])
    );
    assert_eq!(image_download_paths("", &Vec::new(), &texts(&["s"])).len(), 0);
    assert_eq!(read_download_url(&j(r#"{"url":"u"}"#)), "u");
    assert_eq!(read_download_url(&j(r#"{"download_url":5,"url":"u"}"#)), "");
    let mut v = Vec::new();
    push_image(&mut v, vec![1]);
    push_image(&mut v, vec![2]);
    push_image(&mut v, vec![1]);
    assert_eq!(v, vec![vec![1], vec![2]]);
}

#[test]
fn responses_make_images() {
    let input = codex_image_input("p", &texts(&["AA", "data:image/gif;base64,BB"]));
    assert_eq!(
        input[0].to_text(),
        r#"{"role":"user","content":[{"type":"input_text","text":"p"},{"type":"input_image","image_url":"data:image/png;base64,AA"},{"type":"input_image","image_url":"data:image/gif;base64,BB"}]}"#
    );
    let said = |c: &OpenAIBackendAPI| c.codex_payload("p", &Vec::new(), None, "").err().unwrap().to_text("");
    assert_eq!(
        said(&OpenAIBackendAPI::new("", Json::Null, "d", "s")),
        "access_token is required for codex image endpoints"
    );
    assert_eq!(
        said(&OpenAIBackendAPI::new("t", Json::Null, "d", "s")),
        "codex responses endpoint requires a codex source account"
    );
    let c = OpenAIBackendAPI::new("t", j(r#"{"source_type":" Codex "}"#), "d", "s");
    let v = c.codex_payload("p", &Vec::new(), None, "").ok().unwrap();
    assert_eq!(
        v.at("tools").to_text(),
        r#"[{"type":"image_generation","model":"gpt-image-2","action":"generate","size":"1024x1024","quality":"auto","output_format":"png"}]"#
    );
    let v = c.codex_payload("p", &texts(&["AA"]), Some("1x1"), "high").ok().unwrap();
    assert_eq!(v.items_at("tools")[0].str_at("action"), "edit");
    assert_eq!(c.codex_responses_headers()[0].1, "Bearer t");
    let events = parse_codex_events(
        "text/event-stream",
        "event: x\ndata: {\"a\":\ndata: 1}\n\ndata: [DONE]\n\ndata: 5\n\ndata:{\"b\":2}",
    );
    let got: Vec<String> = events.iter().map(|e| e.to_text()).collect();
    assert_eq!(got, texts(&[r#"{"a":1}"#, r#"{"b":2}"#]));
    assert_eq!(parse_codex_events("application/json; x", r#"{"a":1}"#).len(), 1);
    assert_eq!(parse_codex_events("application/json", "[]").len(), 0);
}

#[test]
fn values_are_found_at_any_depth() {
    assert_eq!(find_value(&j(r#"{"a":[{"b":""},{"b":"x"}]}"#), "b"), "x");
    assert_eq!(find_value(&j(r#""{\"a\":\"{\\\"b\\\":\\\"deep\\\"}\"}""#), "b"), "deep");
    assert_eq!(
        find_value(&Json::from_text(r#"junk "conversation_id" : "c1" junk"#), "conversation_id"),
        "c1"
    );
    assert_eq!(find_value(&j("5"), "b"), "");
    let mut id = String::new();
    assert!(!take_search_payload(&mut id, r#"{"v":1}"#));
    assert!(!take_search_payload(&mut id, r#"{"conversation_id":"c1"}"#));
    assert!(!take_search_payload(&mut id, r#"{"conversation_id":"c2"}"#));
    assert!(take_search_payload(&mut id, "[DONE]"));
    assert_eq!(finish_search_stream(id).ok().unwrap(), "c1");
    assert_eq!(
        finish_search_stream(String::new()).err().unwrap().to_text(""),
        "conversation_id not found in stream"
    );
    let mut out = Vec::new();
    walk_dicts(&j(r#"[{"a":{"b":1}},{"c":[{}]}]"#), &mut out);
    let got: Vec<String> = out.iter().map(|o| o.to_text()).collect();
    assert_eq!(got, texts(&[r#"{"a":{"b":1}}"#, r#"{"b":1}"#, r#"{"c":[{}]}"#, "{}"]));
}

#[test]
fn sources_are_listed_once() {
    assert_eq!(clean_search_url(" http://x.。； "), "http://x");
    let s = extract_search_sources(&j(
        r#"[{"url":"http://a.","title":" T "},{"link":"http://a"},{"metadata":{"url":"http://b"},"snippet":"s","type":"t"},{"url":5,"link":"http://c"}]"#,
    ));
    let got: Vec<String> = s.iter().map(|o| o.to_text()).collect();
    assert_eq!(
        got,
        texts(&[
            r#"{"title":"T","url":"http://a","snippet":"","source_type":""}"#,
            r#"{"title":"","url":"http://b","snippet":"s","source_type":"t"}"#,
        ])
    );
    assert_eq!(
        search_message_text(&j(
            r#"{"content":{"text":" a ","parts":["b",{"text":"c","summary":"","content":"d"},5]}}"#
        )),
        "a\nb\nc\nd"
    );
    assert_eq!(search_message_text(&j(r#"{"content":" x "}"#)), "x");
}

#[test]
fn answers_of_searches_are_read() {
    let conv = r#"{"mapping":{
"1":{"message":{"id":"m1","author":{"role":"assistant"},"create_time":5,"content":"old"}},
"2":{"message":{"id":"m2","author":{"role":"assistant"},"create_time":7,"content":"see https://x.y/z, ok","metadata":{"finish_details":{"type":"finished_successfully"}}}},
"3":{"message":{"id":"m3","author":{"role":"user"},"create_time":9,"content":"?"}}}}"#;
    assert_eq!(
        extract_search_result("c", &j(conv)).to_text(),
        r#"{"conversation_id":"c","status":"finished_successfully","answer":"see https://x.y/z, ok","sources":[{"title":"","url":"https://x.y/z","snippet":"","source_type":""}],"assistant_message_id":"m2","create_time":7.0}"#
    );
    assert_eq!(
        extract_search_result("c", &j("{}")).to_text(),
        r#"{"conversation_id":"c","status":"","answer":"","sources":[],"assistant_message_id":"","create_time":0.0}"#
    );
    assert!(matches!(SearchWait::new().take("c", Ok(j(conv))), SearchStep::Done(_)));
    let open = |t: &str| {
        j(&format!(
            r#"{{"mapping":{{"1":{{"message":{{"author":{{"role":"assistant"}},"content":"{t}"}}}}}}}}"#
        ))
    };
    let mut w = SearchWait::new();
    assert!(matches!(w.take("c", Err(busy(404, None))), SearchStep::Wait));
    assert!(matches!(w.take("c", Ok(open("a"))), SearchStep::Wait));
    assert!(matches!(w.take("c", Ok(open("b"))), SearchStep::Wait));
    assert!(matches!(w.take("c", Ok(open("b"))), SearchStep::Wait));
    match w.take("c", Err(busy(500, None))) {
        SearchStep::Done(v) => assert_eq!(v.str_at("answer"), "b"),
        _ => panic!("went on"),
    }
    assert!(matches!(SearchWait::new().take("c", Err(busy(401, None))), SearchStep::Fail(_)));
    assert_eq!(w.timed_out("c").ok().unwrap().str_at("answer"), "b");
    assert_eq!(
        SearchWait::new().timed_out("c").err().unwrap().to_text(""),
        "timed out waiting for search result: c"
    );
}

#[test]
fn searches_are_asked_for() {
    assert_eq!(prepare_search_headers("/p")[4], ("X-Conduit-Token".to_string(), "no-token".to_string()));
    assert_eq!(read_conduit_token(&j(r#"{"conduit_token":"t"}"#)).ok().unwrap(), "t");
    assert_eq!(read_conduit_token(&j("{}")).err().unwrap().to_text(""), "missing conduit_token");
    let v = search_payload("q", "m", "id", j("1"));
    assert!(v.bool_at("force_use_search", false));
    assert_eq!(v.items_at("messages")[0].at("metadata").at("system_hints").to_text(), r#"["search"]"#);
    assert_eq!(v.at("client_contextual_info").int_at("time_since_loaded", 0), 36);
    let h = search_conversation_headers("http://b", "c");
    assert_eq!(h[0].1, "/backend-api/conversation/c");
    assert_eq!(h[3].1, "http://b/c/c");
    assert_eq!(h[4].1, "/backend-api/conversation/{conversation_id}");
}
