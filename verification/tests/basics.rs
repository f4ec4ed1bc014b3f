use model2api::clock::{parse_time, timestamp_to_iso, Moment};
use model2api::digest::{ct_eq, sha256_hex, short_uuid};
use model2api::json::float_value;
use model2api::jwt::{
    decode_jwt_payload, jwt_exp, token_expires_in, token_issued_at, token_needs_refresh,
};
use model2api::naming::free_name;
use model2api::sorting::{sort_newest, sort_pairs, sort_records, sort_texts};
use model2api::text::{
    after_last, before, contains, decimal_text, ends_with, extract_between, join, parse_count,
    parse_int, prefix_chars, push_new, replace_char, signed_text, split, split_once, split_text,
    split_words, starts_with, to_ascii_lower, trim, trim_back, trim_class,
    trim_front, unique_non_empty, CharClass,
};
use model2api::urlcode::{
    encode_component, encode_query, encode_rfc5987, encode_segment, percent_encode, urlencode,
};
use model2api::value::{Json, Number};

fn j(s: &str) -> Json {
    Json::parse_text(s).unwrap()
}

fn texts(v: &[&str]) -> Vec<String> {
    v.iter().map(|s| s.to_string()).collect()
}

fn pairs(v: &[(&str, &str)]) -> Vec<(String, String)> {
    v.iter().map(|(a, b)| (a.to_string(), b.to_string())).collect()
}

#[test]
fn trims_white_space_and_classes() {
    assert_eq!(trim("  a b\u{3000}\n"), "a b");
    assert_eq!(trim("\u{85}"), "");
    assert_eq!(trim_class("//a/b//", CharClass::Just('/')), "a/b");
    assert_eq!(trim_front("//a/", CharClass::Just('/')), "a/");
    assert_eq!(trim_back("/a//", CharClass::Just('/')), "/a");
    assert_eq!(trim_class("-._x._-", CharClass::Joiner), "x");
    assert_eq!(trim_back("x。；,", CharClass::Stop), "x");
}

#[test]
fn changes_ascii_case_only() {
    assert_eq!(to_ascii_lower("ABÄz"), "abÄz");
}

#[test]
fn searches_text() {
    assert!(starts_with("abc", "ab"));
    assert!(!starts_with("abc", "b"));
    assert!(ends_with("abc", "bc"));
    assert!(!ends_with("c", "bc"));
    assert!(contains("abc", ""));
    assert!(contains("abcabd", "abd"));
    assert!(!contains("ab", "abc"));
    assert_eq!(extract_between("<a>x</a><a>y</a>", "<a>", "</a>"), "x");
    assert_eq!(extract_between("<a>x", "<a>", "</a>"), "");
    assert_eq!(after_last("a/b/c", '/'), "c");
    assert_eq!(after_last("c", '/'), "c");
}

#[test]
fn splits_and_joins() {
    assert_eq!(split("a,,b", ','), texts(&["a", "", "b"]));
    assert_eq!(split("", ','), texts(&[""]));
    assert_eq!(split_once("a=b=c", '='), Some(("a".to_string(), "b=c".to_string())));
    assert_eq!(split_once("abc", '='), None);
    assert_eq!(split_text("a--b--", "--"), texts(&["a", "b", ""]));
    assert_eq!(split_words(" a  b\tc "), texts(&["a", "b", "c"]));
    assert_eq!(join(&texts(&["a", "", "b"]), "-"), "a--b");
    assert_eq!(replace_char("a\\b\\", '\\', "/"), "a/b/");
    assert_eq!(prefix_chars("äöü", 2), "äö");
    assert_eq!(prefix_chars("ä", 2), "ä");
}

#[test]
fn keeps_texts_once() {
    let mut v = texts(&["a"]);
    push_new(&mut v, "a");
    push_new(&mut v, "b");
    assert_eq!(v, texts(&["a", "b"]));
    assert_eq!(unique_non_empty(&texts(&["", "b", "a", "b"])), texts(&["b", "a"]));
}

#[test]
fn writes_and_reads_integers() {
    assert_eq!(decimal_text(0), "0");
    assert_eq!(decimal_text(u128::MAX), u128::MAX.to_string());
    assert_eq!(signed_text(i64::MIN), i64::MIN.to_string());
    assert_eq!(parse_int("+12"), Some(12));
    assert_eq!(parse_int("-9223372036854775808"), Some(i64::MIN));
    assert_eq!(parse_int("9223372036854775808"), None);
    assert_eq!(parse_int(""), None);
    assert_eq!(parse_int("-"), None);
    assert_eq!(parse_int("1.5"), None);
    assert_eq!(parse_count("18446744073709551615"), Some(u64::MAX));
    assert_eq!(parse_count("18446744073709551616"), None);
    assert_eq!(parse_count("+7"), Some(7));
    assert_eq!(parse_count("-0"), None);
}

#[test]
fn orders_text_by_code_points() {
    assert!(before("a", "ab"));
    assert!(before("Z", "a"));
    assert!(!before("b", "a"));
    assert!(!before("a", "a"));
    assert_eq!(sort_texts(&texts(&["b", "a", "ä", "B"])), texts(&["B", "a", "b", "ä"]));
}

#[test]
fn sorting_is_stable() {
    let p = pairs(&[("b", "1"), ("a", "2"), ("b", "3"), ("a", "4")]);
    assert_eq!(sort_pairs(&p), pairs(&[("a", "2"), ("a", "4"), ("b", "1"), ("b", "3")]));
    let r = vec![j(r#"{"k":"1","n":1}"#), j(r#"{"k":"2","n":2}"#), j(r#"{"k":"1","n":3}"#)];
    let up: Vec<String> = sort_records(&r, "k", false).iter().map(|x| x.to_text()).collect();
    assert_eq!(up, vec![r#"{"k":"1","n":1}"#, r#"{"k":"1","n":3}"#, r#"{"k":"2","n":2}"#]);
    let new: Vec<String> = sort_newest(&r, "k").iter().map(|x| x.to_text()).collect();
    assert_eq!(new, vec![r#"{"k":"2","n":2}"#, r#"{"k":"1","n":1}"#, r#"{"k":"1","n":3}"#]);
}

#[test]
fn free_names_are_free() {
    assert_eq!(free_name(&texts(&[]), "a", "-", ".x"), "a.x");
    assert_eq!(free_name(&texts(&["a.x", "a-3.x"]), "a", "-", ".x"), "a-2.x");
    assert_eq!(free_name(&texts(&["a.x", "a-2.x", "a-3.x"]), "a", "-", ".x"), "a-4.x");
}

#[test]
fn json_keeps_what_it_reads() {
    let text = r#"{"b":{},"a":[1,-2,1.5,true,null,"x\"\\\n\u0001é"]}"#;
    assert_eq!(j(text).to_text(), text);
    assert!(Json::parse_text("{").is_none());
    assert!(Json::parse(b"[1,]").is_none());
    assert_eq!(Json::parse(b"[1]").unwrap().to_text(), "[1]");
}

#[test]
fn json_reads_fields() {
    let v = j(r#"{"s":"x","i":7,"b":true,"l":[1],"n":null,"f":2.75}"#);
    assert_eq!(v.str_at("s"), "x");
    assert_eq!(v.str_at("i"), "");
    assert_eq!(v.int_at("i", 0), 7);
    assert_eq!(v.int_at("f", 3), 3);
    assert!(v.bool_at("b", false));
    assert!(v.bool_at("missing", true));
    assert_eq!(v.items_at("l").len(), 1);
    assert!(v.at("n").is_null());
    assert!(v.get("missing").is_none());
    match v.at("f") {
        Json::Num(Number { int, trunc, text }) => {
            assert_eq!(int, None);
            assert_eq!(trunc, 2);
            assert_eq!(text, "2.75");
        }
        _ => panic!("not a number"),
    }
}

#[test]
fn json_sets_and_removes_fields() {
    let mut v = Json::object();
    v.set("b", Json::from_int(1));
    v.set("a", Json::from_text("x"));
    v.set("b", Json::from_count(2));
    assert_eq!(v.to_text(), r#"{"b":2,"a":"x"}"#);
    v.remove("b");
    assert_eq!(v.to_text(), r#"{"a":"x"}"#);
    assert_eq!(Json::from_count(usize::MAX).to_text(), usize::MAX.to_string());
}

#[test]
fn json_is_written_over_several_lines() {
    let v = j(r#"{"a":[1,{"b":"x"}],"c":[],"d":{}}"#);
    assert_eq!(
        v.to_pretty(),
        "{\n  \"a\": [\n    1,\n    {\n      \"b\": \"x\"\n    }\n  ],\n  \"c\": [],\n  \"d\": {}\n}"
    );
}

#[test]
fn numbers_become_floats() {
    assert_eq!(float_value("5").to_text(), "5.0");
    assert_eq!(float_value("1.25").to_text(), "1.25");
    assert_eq!(float_value("x").to_text(), "null");
}

#[test]
fn digests_and_compares() {
    assert_eq!(
        sha256_hex(b"abc"),
        "ba7816bf8f01cfea414140de5dae2223b00361a396177a9cb410ff61f20015ad"
    );
    assert!(ct_eq("abc", "abc"));
    assert!(!ct_eq("abc", "abd"));
    assert!(!ct_eq("abc", "ab"));
    let a = short_uuid();
    assert_eq!(a.len(), 12);
    assert!(a.chars().all(|c| c.is_ascii_hexdigit()));
    assert_ne!(a, short_uuid());
}

#[test]
fn reads_times() {
    let t = parse_time(&j(r#""2024-05-06T07:08:09Z""#)).unwrap();
    assert_eq!((t.secs, t.nanos), (1714979289, 0));
    let u = parse_time(&j(r#""2024-05-06T15:08:09.5+08:00""#)).unwrap();
    assert_eq!((u.secs, u.nanos), (1714979289, 500_000_000));
    let p = parse_time(&j(r#"" 2024-05-06 07:08:09 ""#)).unwrap();
    assert_eq!(p.secs, 1714979289);
    assert!(parse_time(&j(r#""soon""#)).is_none());
    assert!(parse_time(&Json::Null).is_none());
}

#[test]
fn compares_times() {
    let a = Moment { secs: 100, nanos: 5 };
    let b = Moment { secs: 160, nanos: 4 };
    let c = Moment { secs: 160, nanos: 5 };
    assert!(b.is_within(a, 60));
    assert!(!c.is_within(a, 60));
    assert!(b.is_within_minutes(a, 1));
    assert!(!c.is_within_minutes(a, 1));
    assert!(a.is_not_after(b));
    assert!(!c.is_not_after(b));
    let leap = Moment { secs: 59, nanos: 1_000_000_000 };
    let next = Moment { secs: 60, nanos: 0 };
    assert!(!next.is_within(leap, 1));
    assert!(next.is_within(leap, 2));
    assert!(!leap.is_within(Moment { secs: 0, nanos: 0 }, 60));
}

#[test]
fn the_last_field_takes_the_place_of_one_that_goes() {
    let mut v = j(r#"{"a":1,"b":2,"c":3}"#);
    v.remove("a");
    assert_eq!(v.to_text(), r#"{"c":3,"b":2}"#);
    v.remove("b");
    assert_eq!(v.to_text(), r#"{"c":3}"#);
    v.remove("x");
    v.remove("c");
    assert_eq!(v.to_text(), "{}");
}

#[test]
fn writes_times_east_of_greenwich() {
    assert_eq!(timestamp_to_iso(&j("1714979289")), "2024-05-06T15:08:09+08:00");
    assert_eq!(timestamp_to_iso(&j(r#"" 0 ""#)), "1970-01-01T08:00:00+08:00");
    assert_eq!(timestamp_to_iso(&j(r#""x""#)), "");
    assert_eq!(timestamp_to_iso(&j("9223372036854775807")), "");
}

fn token(claims: &str) -> String {
    let body: String = {
        let alphabet: Vec<char> =
            "ABCDEFGHIJKLMNOPQRSTUVWXYZabcdefghijklmnopqrstuvwxyz0123456789-_".chars().collect();
        let b = claims.as_bytes();
        let mut out = String::new();
        for c in b.chunks(3) {
            let n = (c[0] as u32) << 16
                | (*c.get(1).unwrap_or(&0) as u32) << 8
                | (*c.get(2).unwrap_or(&0) as u32);
            for k in 0..(c.len() + 1) {
                out.push(alphabet[((n >> (18 - 6 * k)) & 63) as usize]);
            }
        }
        out
    };
    format!("h.{body}.s")
}

#[test]
fn reads_tokens() {
    let t = token(r#"{"exp":2000,"iat":1000,"x":"y"}"#);
    assert_eq!(decode_jwt_payload(&t).str_at("x"), "y");
    assert_eq!(jwt_exp(&t), 2000);
    assert_eq!(token_expires_in(&t, 1500), Some(500));
    assert_eq!(token_issued_at(&t).unwrap().secs, 1000);
    assert_eq!(jwt_exp("nothing"), 0);
    assert_eq!(token_expires_in("nothing", 5), None);
    assert!(token_issued_at("a.b.c").is_none());
    assert_eq!(decode_jwt_payload("a.b.c").to_text(), "{}");
}

#[test]
fn tokens_that_end_soon_are_refreshed() {
    let t = token(r#"{"exp":1000000}"#);
    assert!(token_needs_refresh(&t, false, 999_999));
    assert!(!token_needs_refresh(&t, false, 1000));
    assert!(token_needs_refresh(&t, true, 1000));
}

#[test]
fn encodes_for_addresses() {
    assert_eq!(encode_segment("a b/ü~"), "a%20b%2F%C3%BC~");
    assert_eq!(percent_encode("a/b c", true), "a/b%20c");
    assert_eq!(percent_encode("a/b c", false), "a%2Fb%20c");
    assert_eq!(encode_rfc5987("备份.tar"), "%E5%A4%87%E4%BB%BD.tar");
    assert_eq!(encode_component("a+b"), "a%2Bb");
    assert_eq!(urlencode(&pairs(&[("a b", "c&d"), ("e", "")])), "a%20b=c%26d&e=");
    assert_eq!(encode_query(&pairs(&[("b", "1/2"), ("a", "x y")])), "a=x%20y&b=1%2F2");
}
