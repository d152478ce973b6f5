use bsr_core::cookie_json::{merge_cookie_map_from_json, merge_cookie_map_from_url};
use bsr_core::cookie_map::{
    build_cookie_string, collect_cookie_map, has_login_cookie, is_cookie_attr_key,
    merge_cookie_header_string, merge_cookie_maps, merge_set_cookie_line, parse_cookie_header,
    remove_cookie_keys_ci, CookieMap,
};
use bsr_core::cookies::{
    cookie_list_from_header, cookie_pair_count, extract_douyin_uid, extract_kuaishou_kww,
    extract_tiktok_uid, filter_kuaishou_cookie_header, get_item_from_cookies_ci,
    has_kuaishou_full_cookie, is_kuaishou_login_cookie, normalize_cookie_input,
    normalize_cookie_string_for_compare, sanitize_cookie_header, strip_cookie_fields,
};
use bsr_core::ids::{
    extract_numeric_after_marker, fallback_uid_from_cookies, gen_device_id, gen_kuaishou_web_did,
    kuaishou_web_did, md5_cookie_id,
};
use bsr_core::json::parse_json;

#[test]
fn normalize_input_folds_fullwidth_and_drops_empty_parts() {
    assert_eq!(normalize_cookie_input(" a＝1；；b=2 ; "), "a=1; b=2");
    assert_eq!(normalize_cookie_input(""), "");
}

#[test]
fn compare_form_sorts_trimmed_pairs() {
    assert_eq!(normalize_cookie_string_for_compare("b = 2; a=1; junk; "), "a=1; b=2");
    assert_eq!(
        normalize_cookie_string_for_compare("a=1; b=2"),
        normalize_cookie_string_for_compare("b=2;a=1")
    );
}

#[test]
fn sanitize_keeps_valid_and_strips_non_ascii() {
    assert_eq!(sanitize_cookie_header("a=1; b=2").unwrap(), "a=1; b=2");
    assert_eq!(sanitize_cookie_header("a=\u{1}x").unwrap_err(), "Invalid cookies");
    assert_eq!(sanitize_cookie_header("a=é").unwrap(), "a=é");
}

#[test]
fn case_insensitive_lookup() {
    assert_eq!(get_item_from_cookies_ci("USERID", "a=1; userId= 42 ").unwrap(), " 42");
    assert_eq!(get_item_from_cookies_ci("x", "a=1").unwrap_err(), "Invalid cookies: missing x");
}

#[test]
fn strip_fields_ignores_case() {
    assert_eq!(strip_cookie_fields("A=1; b=2; ; c=3", &["a", "C"]), "b=2");
}

#[test]
fn kuaishou_helpers() {
    assert_eq!(filter_kuaishou_cookie_header("a=1; b=; =3; c ; d = 4"), "a=1; d=4");
    assert_eq!(extract_kuaishou_kww("x=1; KWFV1= v ; kww=w"), Some("v".to_string()));
    assert_eq!(extract_kuaishou_kww("kww= "), None);
    assert!(is_kuaishou_login_cookie("PassToken=abc"));
    assert!(!is_kuaishou_login_cookie("a=b"));
    assert!(has_kuaishou_full_cookie(
        "bUserId=1; kuaishou.web.cp.api_st=2; kuaishou.web.cp.api_ph=3; perf_dv6Tr4n=4"
    ));
    assert!(!has_kuaishou_full_cookie("bUserId=1"));
}

#[test]
fn uid_extraction() {
    assert_eq!(extract_tiktok_uid("__user_77=x; sessionid=s"), Some("77".to_string()));
    assert_eq!(extract_tiktok_uid("uid_tt=u"), Some("u".to_string()));
    assert_eq!(extract_tiktok_uid("a=1"), None);
    assert_eq!(extract_douyin_uid("sessionid=s; uid_tt_ss=t"), Some("t".to_string()));
    assert_eq!(fallback_uid_from_cookies("yyuid=9; uid=3"), "3");
    assert_eq!(fallback_uid_from_cookies("a=1"), md5_cookie_id("a=1"));
    assert_eq!(md5_cookie_id(""), "cookie_d41d8cd98f00b204e9800998ecf8427e");
}

#[test]
fn pair_count_and_list() {
    assert_eq!(cookie_pair_count("a=1; b; c=3;"), 2);
    let items = cookie_list_from_header(" a = 1 ; =2; b=; c");
    let got: Vec<(String, String)> = items.into_iter().map(|c| (c.name, c.value)).collect();
    assert_eq!(got, vec![("a".to_string(), "1".to_string()), ("b".to_string(), "".to_string())]);
}

#[test]
fn numeric_after_marker() {
    assert_eq!(extract_numeric_after_marker("uid\":\"12345\"", "uid"), Some("12345".to_string()));
    assert_eq!(extract_numeric_after_marker("uid none", "uid"), None);
    assert_eq!(extract_numeric_after_marker("abc", ""), None);
}

#[test]
fn random_ids_have_their_shape() {
    let d = gen_device_id();
    assert_eq!(d.len(), 19);
    assert!(d.chars().all(|c| c.is_ascii_digit()));
    let k = gen_kuaishou_web_did();
    assert!(k.starts_with("web_"));
    assert_eq!(kuaishou_web_did(&[0xab; 16]), format!("web_{}", "ab".repeat(16)));
}

#[test]
fn cookie_map_parse_and_string() {
    let m = parse_cookie_header("b=2; a=1; ; c");
    assert_eq!(build_cookie_string(&m), "a=1; b=2");
    assert_eq!(m.get("a"), Some("1".to_string()));
    assert_eq!(m.len(), 2);
}

#[test]
fn cookie_map_merges() {
    let mut m = CookieMap::new();
    merge_cookie_header_string(&mut m, "x=1; path=/; y=2");
    assert_eq!(build_cookie_string(&m), "x=1; y=2");
    merge_set_cookie_line(&mut m, "z=3; Path=/; HttpOnly");
    assert_eq!(m.get("z"), Some("3".to_string()));
    assert!(is_cookie_attr_key("Max-Age"));
    assert!(!is_cookie_attr_key("sessionid"));
    let mut other = CookieMap::new();
    other.insert("x", "9");
    merge_cookie_maps(&mut m, other);
    assert_eq!(m.get("x"), Some("9".to_string()));
    assert!(!has_login_cookie(&m));
    m.insert("SID_TT", "s");
    assert!(has_login_cookie(&m));
    remove_cookie_keys_ci(&mut m, &["sid_tt", "X"]);
    assert_eq!(build_cookie_string(&m), "y=2; z=3");
}

#[test]
fn set_cookie_lines_collected() {
    let lines = vec!["a=1; Path=/".to_string(), "b = 2 ;x".to_string(), "c=3".to_string(), "a=4; y".to_string()];
    let m = collect_cookie_map(&lines);
    assert_eq!(build_cookie_string(&m), "a=4; b=2");
}

#[test]
fn cookies_in_urls_and_json() {
    let mut m = CookieMap::new();
    merge_cookie_map_from_url(&mut m, "https://x.com/a?set_cookie=sid%3D5%3B%20Path%3D%2F&q=1#cookie=t%3D7");
    assert_eq!(m.get("sid"), Some("5".to_string()));
    assert_eq!(m.get("t"), Some("7".to_string()));
    merge_cookie_map_from_url(&mut m, "ftp://x.com/?cookie=u%3D1");
    assert_eq!(m.get("u"), None);
    let j = parse_json(r#"{"data":{"cookies":[{"name":"k","value":"v"}]}}"#).unwrap();
    let mut n = CookieMap::new();
    merge_cookie_map_from_json(&mut n, &j);
    assert_eq!(n.get("k"), Some("v".to_string()));
}

#[test]
fn cookie_header_parses_back_to_its_map() {
    let mut m = CookieMap::new();
    m.insert("sessionid", "abc=def");
    m.insert("ttwid", "1|x");
    m.insert("msToken", "");
    let header = build_cookie_string(&m);
    assert_eq!(header, "msToken=; sessionid=abc=def; ttwid=1|x");
    let back = parse_cookie_header(&header);
    assert_eq!(back.len(), 3);
    assert_eq!(back.get("sessionid"), Some("abc=def".to_string()));
    assert_eq!(back.get("ttwid"), Some("1|x".to_string()));
    assert_eq!(back.get("msToken"), Some(String::new()));
}

#[test]
fn cookie_header_ignores_insertion_order() {
    let mut a = CookieMap::new();
    a.insert("b", "2");
    a.insert("a", "1");
    a.insert("c", "x=y");
    let mut b = CookieMap::new();
    b.insert("c", "old");
    b.insert("a", "1");
    b.insert("c", "x=y");
    b.insert("b", "2");
    assert_eq!(build_cookie_string(&a), build_cookie_string(&b));
    assert_eq!(build_cookie_string(&a), "a=1; b=2; c=x=y");
}
