use bsr_core::tiktok::{page_fallback_step, PageNext};
use bsr_core::json::{parse_json, JsonValue};
use bsr_core::tiktok::{
    append_codec, build_live_referer, build_live_url, build_profile_referer, build_room_info_url,
    cookie_value_from_account, extract_first_media_uri, extract_username_from_url,
    is_room_id_numeric, is_tiktok_live_status_flag, is_waf_wait_page, normalize_proxy_url,
    parse_bool_env, parse_feed_override, prefer_protocol, probe_timeout_error, proxy_env_keys,
    proxy_url_from_env, set_tiktok_cooldown, settle_live_status, should_request_guest_refresh,
    status_after_room_error, tiktok_api_allowed, to_iso_8859_1_bytes, Account, LiveTransition,
    RecorderError, TikTokProtocol,
};
use bsr_core::tiktok_data::{
    danmu_result_from_json, extract_chat_text, extract_stream_candidates_from_stream_data,
    find_m3u8_in_value, get_i64_field, get_string_field, value_to_string,
};

fn account(cookies: &str) -> Account {
    Account { id: "id1".to_string(), name: "@Name ".to_string(), cookies: cookies.to_string() }
}

fn obj(j: &JsonValue) -> &Vec<(String, JsonValue)> {
    match j {
        JsonValue::Object(m) => m,
        _ => panic!("not an object"),
    }
}

#[test]
fn proxy_urls() {
    assert_eq!(normalize_proxy_url("  "), None);
    assert_eq!(normalize_proxy_url(" socks5://h:1 "), Some("socks5://h:1".to_string()));
    assert_eq!(normalize_proxy_url("h:8080"), Some("http://h:8080".to_string()));
    let keys = proxy_env_keys();
    assert_eq!(keys[0], "TIKTOK_PROXY_URL");
    assert_eq!(keys.len(), 8);
    let values = vec![None, Some(" ".to_string()), Some("h:1".to_string()), None, None, None, None, None];
    assert_eq!(proxy_url_from_env(&values), Some("http://h:1".to_string()));
}

#[test]
fn cooldown_gate() {
    let until = set_tiktok_cooldown(1000);
    assert_eq!(until, 1120);
    assert!(!tiktok_api_allowed(1100, until, &None));
    assert!(tiktok_api_allowed(1100, until, &Some("http://p".to_string())));
    assert!(tiktok_api_allowed(1120, until, &None));
}

#[test]
fn urls_and_referers() {
    assert_eq!(build_live_referer(""), "https://www.tiktok.com/");
    assert_eq!(build_live_referer("abc"), "https://www.tiktok.com/@abc/live");
    assert_eq!(build_profile_referer("abc"), "https://www.tiktok.com/@abc");
    assert_eq!(build_room_info_url("7"), "https://webcast.tiktok.com/webcast/room/info/?aid=1988&room_id=7");
    assert_eq!(extract_username_from_url("https://www.tiktok.com/@bob/live?x=@y"), "bob");
    assert_eq!(extract_username_from_url("https://www.tiktok.com/@/live"), "");
    assert_eq!(append_codec("http://a/b.m3u8", "h264"), "http://a/b.m3u8?codec=h264");
    assert_eq!(append_codec("http://a/b.m3u8?x=1", "h264"), "http://a/b.m3u8?x=1&codec=h264");
    assert_eq!(append_codec("http://a/b?codec=1", "h264"), "http://a/b?codec=1");
    assert_eq!(append_codec("http://a/b", ""), "http://a/b");
    assert_eq!(
        build_live_url("123"),
        "https://live.tiktok.com/123?enter_from_merge=others_homepage&enter_method=others_photo"
    );
    assert_eq!(
        build_live_url("@bob"),
        "https://www.tiktok.com/@bob/live?enter_from_merge=others_homepage&enter_method=others_photo"
    );
    assert_eq!(build_live_url("https://x/y?z=1"), "https://x/y?z=1");
    assert!(is_room_id_numeric("0123"));
    assert!(!is_room_id_numeric("12a"));
}

#[test]
fn playlist_and_flags() {
    assert_eq!(extract_first_media_uri("#EXTM3U\n\n  seg1.ts \nseg2.ts"), Some("seg1.ts".to_string()));
    assert_eq!(extract_first_media_uri("#EXTM3U"), None);
    assert!(is_tiktok_live_status_flag(2));
    assert!(!is_tiktok_live_status_flag(4));
    assert!(is_waf_wait_page("<html>Please Wait</html>"));
    assert!(!is_waf_wait_page("<html></html>"));
    assert_eq!(parse_feed_override("  https://f "), Some("https://f".to_string()));
    assert_eq!(parse_feed_override("ftp://f"), None);
    assert_eq!(to_iso_8859_1_bytes("aé€"), vec![97u8, 233u8, 63u8]);
}

#[test]
fn protocol_preference() {
    assert_eq!(TikTokProtocol::from_str(" M3U8 "), Some(TikTokProtocol::Hls));
    assert_eq!(parse_bool_env(" On "), Some(true));
    assert_eq!(parse_bool_env("maybe"), None);
    assert_eq!(prefer_protocol(&Some("rtmp".to_string()), &None, &None), TikTokProtocol::Rtmp);
    assert_eq!(prefer_protocol(&Some("bad".to_string()), &None, &Some("yes".to_string())), TikTokProtocol::Flv);
    assert_eq!(prefer_protocol(&None, &None, &None), TikTokProtocol::Hls);
}

#[test]
fn status_decisions() {
    assert_eq!(settle_live_status(false, false, true, true), (true, LiveTransition::Unchanged));
    assert_eq!(settle_live_status(false, false, true, false), (false, LiveTransition::Ended));
    assert_eq!(settle_live_status(false, true, false, false), (true, LiveTransition::Started));
    assert_eq!(status_after_room_error(false, true), (true, LiveTransition::Started));
    assert_eq!(status_after_room_error(true, false), (true, LiveTransition::Unchanged));
    assert!(should_request_guest_refresh("Room Enter Status: 403", true, false));
    assert!(!should_request_guest_refresh("Room Enter Status: 403", false, true));
    match probe_timeout_error(6) {
        RecorderError::ApiError { error } => assert_eq!(error, "TikTok stream probe timeout after 6s"),
        _ => panic!("wrong error"),
    }
}

#[test]
fn account_cookies() {
    assert_eq!(cookie_value_from_account(&account("a=1; b = 2"), "b"), Some("2".to_string()));
    assert_eq!(cookie_value_from_account(&account(""), "b"), None);
}

#[test]
fn json_fields() {
    let j = parse_json(r#"{"a":"","b":7,"c":" x ","d":"12","e":"q"}"#).unwrap();
    assert_eq!(get_string_field(obj(&j), &["a", "b"]), Some("7".to_string()));
    assert_eq!(get_string_field(obj(&j), &["zz"]), None);
    assert_eq!(get_i64_field(obj(&j), &["e", "d"]), Some(12));
    let c = parse_json(r#"" x ""#).unwrap();
    assert_eq!(value_to_string(&c), Some("x".to_string()));
}

#[test]
fn chat_text_search() {
    let j = parse_json(r#"{"payload":{"text":"  hi "}}"#).unwrap();
    assert_eq!(extract_chat_text(&j), Some("hi".to_string()));
    let deep = parse_json(r#"{"data":{"data":{"data":{"data":{"data":"too deep"}}}}}"#).unwrap();
    assert_eq!(extract_chat_text(&deep), None);
}

#[test]
fn danmu_answers() {
    let ok = parse_json(r#"{"data":{"messages":[{"content":"a"},{"x":1},{"text":"b"}],"cursor":"c1","fetch_interval":-5}}"#).unwrap();
    let r = danmu_result_from_json(&ok).unwrap();
    assert_eq!(r.messages, vec!["a".to_string(), "b".to_string()]);
    assert_eq!(r.next_cursor, Some("c1".to_string()));
    assert_eq!(r.fetch_interval_ms, Some(0));
    let bad = parse_json(r#"{"status_code":5}"#).unwrap();
    match danmu_result_from_json(&bad) {
        Err(RecorderError::ApiError { error }) => assert_eq!(error, "TikTok danmu error status: 5"),
        _ => panic!("expected an error"),
    }
}

#[test]
fn m3u8_search() {
    let j = parse_json(r#"{"a":[1,{"b":"https://x/y.m3u8"}]}"#).unwrap();
    assert_eq!(find_m3u8_in_value(&j), Some("https://x/y.m3u8".to_string()));
    let n = parse_json(r#"{"a":"ftp://x/y.m3u8"}"#).unwrap();
    assert_eq!(find_m3u8_in_value(&n), None);
}

#[test]
fn stream_candidates_are_ranked() {
    let raw = r#"{"data":{"hd":{"main":{"hls":"https://h/hd.m3u8","flv":"https://f/hd.flv","sdk_params":"{\"vbitrate\":2000,\"resolution\":\"1280x720\",\"VCodec\":\"h264\"}"}},"sd":{"main":{"hls":"https://h/sd.m3u8","sdk_params":"{\"vbitrate\":\"500\",\"resolution\":\"640x360\"}"}},"none":{"main":{}}}}"#;
    let c = extract_stream_candidates_from_stream_data(raw);
    assert_eq!(c.len(), 2);
    assert_eq!(c[0].bitrate, 2000);
    assert_eq!(c[0].hls_url, Some("https://h/hd.m3u8?codec=h264".to_string()));
    assert_eq!(c[0].width, 1280);
    assert_eq!(c[1].bitrate, 500);
    assert_eq!(c[1].flv_url, None);
    assert!(extract_stream_candidates_from_stream_data("not json").is_empty());
}

#[test]
fn page_fallback_reads_web_then_mobile() {
    let url = "https://www.tiktok.com/@abc/live";
    let err = |s: &str| RecorderError::ApiError { error: s.to_string() };
    match page_fallback_step::<u32>(url, false, None, None) {
        PageNext::Load { url: u, mobile } => assert_eq!((u.as_str(), mobile), (url, false)),
        other => panic!("unexpected {other:?}"),
    }
    assert!(matches!(page_fallback_step::<u32>(url, false, Some(Ok(7)), None), PageNext::Done(Ok(7))));
    match page_fallback_step::<u32>(url, false, Some(Err(err("web"))), None) {
        PageNext::Load { url: u, mobile } => assert_eq!((u.as_str(), mobile), ("https://m.tiktok.com/@abc/live", true)),
        other => panic!("unexpected {other:?}"),
    }
    assert!(matches!(page_fallback_step::<u32>(url, false, Some(Err(err("web"))), Some(Ok(8))), PageNext::Done(Ok(8))));
    match page_fallback_step::<u32>(url, false, Some(Err(err("web"))), Some(Err(err("mobile")))) {
        PageNext::Done(Err(RecorderError::ApiError { error })) => assert_eq!(error, "web"),
        other => panic!("unexpected {other:?}"),
    }
    match page_fallback_step::<u32>(url, true, None, None) {
        PageNext::Load { url: u, mobile } => assert_eq!((u.as_str(), mobile), ("https://m.tiktok.com/@abc/live", true)),
        other => panic!("unexpected {other:?}"),
    }
    match page_fallback_step::<u32>(url, true, None, Some(Err(err("mobile")))) {
        PageNext::Done(Err(RecorderError::ApiError { error })) => assert_eq!(error, "mobile"),
        other => panic!("unexpected {other:?}"),
    }
}
