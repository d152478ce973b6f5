use bsr_core::tiktok_account::{user_info_step, EndpointAnswer, UserInfoNext};
use bsr_core::cookie_map::CookieMap;
use bsr_core::json::parse_json;
use bsr_core::tiktok::{Account, RecorderError, TikTokProtocol};
use bsr_core::tiktok_account::{
    account_info_handle, account_info_user_info, build_secsdk_csrf_token, cookie_check_result,
    cookie_check_without_request, passport_answer, passport_user_info, proxy_check_result, region_block_error,
    user_info_from_page,
};
use bsr_core::tiktok_data::UserInfo;
use bsr_core::tiktok_headers::{
    apply_tiktok_extra_headers, build_page_headers, build_passport_headers, build_room_enter_headers,
    build_tiktok_headers, ExtraHeaderSettings,
};
use bsr_core::tiktok_record::{
    after_flv_failed, after_hls_failed, danmu_messages_to_emit, danmu_poll_interval,
    first_record_action, next_danmu_cursor, next_live_id, offline_poll_interval,
    parse_poll_override, pause_after_recording, RecordAction,
};
use bsr_core::tiktok_urls::{
    apply_feed_template, build_auth_broadcast_query, build_query, check_alive_room_ids,
    choose_feed_template, encode_url_component, extract_next_url, feed_cookie_value,
    feed_device_id, feed_override_template, im_fetch_params, next_redirect,
    redirect_start_cookies, FeedValues,
};

fn account(name: &str, cookies: &str) -> Account {
    Account { id: "@@idx".to_string(), name: name.to_string(), cookies: cookies.to_string() }
}

fn no_extras() -> ExtraHeaderSettings {
    ExtraHeaderSettings {
        client_data: None,
        mssdk_info: None,
        iteration_version: None,
        public_key: None,
        version: None,
        web_version: None,
    }
}

#[test]
fn csrf_token_hashes_the_csrf_cookie() {
    let a = account("n", "csrfToken=abc; csrf_session_id=S");
    assert_eq!(
        build_secsdk_csrf_token(&a),
        Some("000100000001ba7816bf8f01cfea414140de5dae2223b00361a396177a9cb410ff61f20015ad,S".to_string())
    );
    assert_eq!(build_secsdk_csrf_token(&account("n", "csrfToken=; csrf_session_id=S")), None);
    assert_eq!(build_secsdk_csrf_token(&account("n", "")), None);
}

#[test]
fn passport_answers() {
    let j = parse_json(r#"{"data":{"uid":5,"unique_id":"u"},"x":{"avatar_url":"https://a/b.jpg"}}"#).unwrap();
    let u = passport_user_info(&j).unwrap();
    assert_eq!((u.user_id.as_str(), u.user_name.as_str()), ("5", "u"));
    let j = parse_json(r#"{"data":{"id":"9"}}"#).unwrap();
    assert_eq!(passport_user_info(&j).unwrap().user_name, "9");
    match passport_user_info(&parse_json(r#"{"data":[]}"#).unwrap()) {
        Err(RecorderError::ApiError { error }) => assert_eq!(error, "User info not found in passport response"),
        _ => panic!("expected an error"),
    }
}

#[test]
fn account_info_answers() {
    let j = parse_json(r#"{"data":{"user_id_str":"11","screen_name":"S","avatar_url":"av"}}"#).unwrap();
    let u = account_info_user_info(&j).unwrap();
    assert_eq!((u.user_id.as_str(), u.user_name.as_str(), u.user_avatar.as_str()), ("11", "S", "av"));
    match account_info_user_info(&parse_json(r#"{"data":{"screen_name":"S"}}"#).unwrap()) {
        Err(RecorderError::ApiError { error }) => assert_eq!(error, "User id not found in account info response"),
        _ => panic!("expected an error"),
    }
    match account_info_user_info(&parse_json("[]").unwrap()) {
        Err(RecorderError::ApiError { error }) => assert_eq!(error, "User info not found in account info response"),
        _ => panic!("expected an error"),
    }
    assert_eq!(account_info_handle(&account("  @@bob ", "")), "bob");
    assert_eq!(account_info_handle(&account(" @ ", "")), "idx");
}

#[test]
fn page_answers() {
    assert!(region_block_error("We regret to inform you that we have discontinued operating TikTok here").is_some());
    assert!(region_block_error("fine").is_none());
    let html = r#"<script id="SIGI_STATE">{"UserModule":{"users":{"a":{"id":"1","nickname":"N"}}}}</script>"#;
    let u = user_info_from_page(html).unwrap();
    assert_eq!((u.user_id.as_str(), u.user_name.as_str()), ("1", "N"));
    match user_info_from_page("<html></html>") {
        Err(RecorderError::ApiError { error }) => assert!(error.starts_with("Failed to extract TikTok state")),
        _ => panic!("expected an error"),
    }
}

#[test]
fn proxy_and_cookie_checks() {
    let c = proxy_check_result(false, 403, "403 Forbidden", "", Some("http://p".to_string()));
    assert!(!c.ok);
    assert_eq!(c.message, "status 403 Forbidden");
    let c = proxy_check_result(true, 200, "200 OK", "<html></html>", None);
    assert!(c.ok);
    assert_eq!(c.message, "ok");
    let blank = cookie_check_without_request(&account("n", "  ")).unwrap();
    assert_eq!(blank.message, "cookies empty");
    assert!(cookie_check_without_request(&account("n", "a=1")).is_none());
    let ok = cookie_check_result(Ok(UserInfo { user_id: "1".to_string(), user_name: "n".to_string(), user_avatar: String::new() }));
    assert!(ok.ok);
    let bad = cookie_check_result(Err("boom".to_string()));
    assert_eq!((bad.ok, bad.message.as_str()), (false, "boom"));
}

#[test]
fn recorder_choice() {
    let hls = Some("h".to_string());
    let flv = Some("f".to_string());
    assert!(matches!(first_record_action(&hls, &flv, TikTokProtocol::Flv), RecordAction::Flv { ref url, last: false } if url == "f"));
    assert!(matches!(first_record_action(&hls, &flv, TikTokProtocol::Hls), RecordAction::Hls { ref url } if url == "h"));
    assert!(matches!(first_record_action(&None, &flv, TikTokProtocol::Hls), RecordAction::Flv { last: true, .. }));
    assert!(matches!(first_record_action(&None, &None, TikTokProtocol::Hls), RecordAction::Fail(RecorderError::NoStreamAvailable)));
    assert!(matches!(after_flv_failed(&None, "e".to_string()), RecordAction::Fail(RecorderError::ApiError { ref error }) if error == "e"));
    assert!(matches!(after_flv_failed(&hls, "e".to_string()), RecordAction::Hls { .. }));
    assert!(matches!(after_hls_failed(&flv), Some(RecordAction::Flv { last: true, .. })));
    assert!(after_hls_failed(&None).is_none());
}

#[test]
fn chat_polling() {
    assert_eq!(parse_poll_override(&Some(" 150 ".to_string())), Some(150));
    assert_eq!(parse_poll_override(&Some("+9".to_string())), Some(9));
    assert_eq!(parse_poll_override(&Some("-9".to_string())), None);
    assert_eq!(danmu_poll_interval(Some(100), None), 250);
    assert_eq!(danmu_poll_interval(None, None), 1000);
    assert_eq!(danmu_poll_interval(Some(100), Some(150)), 200);
    assert_eq!(danmu_poll_interval(Some(9000), Some(7000)), 5000);
    let shown = danmu_messages_to_emit(vec!["a".to_string(), "  ".to_string(), "b".to_string()]);
    assert_eq!(shown, vec!["a".to_string(), "b".to_string()]);
    assert_eq!(next_danmu_cursor(Some("1".to_string()), None), Some("1".to_string()));
    assert_eq!(next_danmu_cursor(Some("1".to_string()), Some("2".to_string())), Some("2".to_string()));
}

#[test]
fn recorder_loop() {
    assert_eq!(next_live_id(true, Some("77".to_string()), 5), ("77".to_string(), false, Some("77".to_string())));
    assert_eq!(next_live_id(false, Some("77".to_string()), 5), ("5".to_string(), false, Some("5".to_string())));
    assert_eq!(next_live_id(true, None, 9), ("9".to_string(), true, Some("9".to_string())));
    assert_eq!(offline_poll_interval(0), 2);
    assert_eq!(offline_poll_interval(60), 3);
    assert_eq!(pause_after_recording(7), 5);
}

#[test]
fn form_queries() {
    let q = build_query(&vec![("a b".to_string(), "x&y=é".to_string()), ("".to_string(), "".to_string()), ("k".to_string(), "*-._~".to_string())]);
    assert_eq!(q, "a+b=x%26y%3D%C3%A9&=&k=*-._%7E");
    assert_eq!(encode_url_component("https://www.tiktok.com/"), "https%3A%2F%2Fwww.tiktok.com%2F");
    let p = im_fetch_params("r", "0", "d", "f", "m");
    assert_eq!(p.len(), 34);
    assert_eq!(p[22], ("room_id".to_string(), "r".to_string()));
    assert_eq!(p[33], ("cursor".to_string(), "0".to_string()));
    let aq = build_auth_broadcast_query("d", "f", "m", 12);
    assert!(aq.starts_with("WebIdLastTime=12&aid=1988&"));
    assert!(aq.ends_with("&msToken=m"));
    assert_eq!(check_alive_room_ids(&vec!["1".to_string(), "2".to_string()]).unwrap(), "1,2");
    assert!(check_alive_room_ids(&vec![]).is_err());
}

#[test]
fn feed_values_and_template() {
    let a = account("n", "s_v_web_id=fp; msToken=mt");
    assert_eq!(feed_cookie_value(Some("  ".to_string()), &a, "s_v_web_id"), "fp");
    assert_eq!(feed_cookie_value(Some(" v ".to_string()), &a, "s_v_web_id"), " v ");
    assert_eq!(feed_cookie_value(None, &account("n", ""), "msToken"), "");
    assert_eq!(feed_device_id(Some("42".to_string())), "42");
    assert_eq!(feed_device_id(None).len(), 19);
    let v = FeedValues {
        referer: "https://r/".to_string(),
        root_referer: "x y".to_string(),
        ms_token: "M".to_string(),
        verify_fp: "F".to_string(),
        device_id: "D".to_string(),
    };
    assert_eq!(
        apply_feed_template("u?r={referer}&rr={root_referer}&m={ms_token}&f={verify_fp}&d={device_id}&z={x_bogus}", &v),
        "u?r=https%3A%2F%2Fr%2F&rr=x+y&m=M&f=F&d=D&z={x_bogus}"
    );
    assert_eq!(choose_feed_template(Some(" ".to_string()), Some(" t ".to_string()), "b"), "t");
    assert_eq!(choose_feed_template(None, None, "b"), "b");
    assert_eq!(feed_override_template(Some("  ")), None);
    assert_eq!(feed_override_template(Some(" o ")), Some("o".to_string()));
}

#[test]
fn login_links() {
    assert_eq!(extract_next_url("https://a/b?x=1&next_url=https%3A%2F%2Fn%2F"), Some("https://n/".to_string()));
    assert_eq!(extract_next_url("not a url"), None);
    assert_eq!(next_redirect("https://a/b/c", true, Some("../d".to_string())), Some("https://a/d".to_string()));
    assert_eq!(next_redirect("https://a/b", true, Some("".to_string())), None);
    assert_eq!(next_redirect("https://a/b", false, Some("x".to_string())), None);
    let m = redirect_start_cookies("https://a/?cookie=k%3D1", Some("j=2"));
    assert_eq!(m.get("k"), Some("1".to_string()));
    assert_eq!(m.get("j"), Some("2".to_string()));
}

#[test]
fn request_headers() {
    let h = build_tiktok_headers(&account("n", "a=1"));
    assert_eq!(h.get("cookie"), Some("a=1".to_string()));
    assert_eq!(h.get("origin"), Some("https://www.tiktok.com".to_string()));
    let h = build_tiktok_headers(&account("n", ""));
    assert_eq!(h.get("cookie"), None);
    let p = build_page_headers("https://x/\u{1}", "UA", true);
    assert_eq!(p.get("referer"), None);
    assert_eq!(p.get("sec-ch-ua-mobile"), Some("?1".to_string()));
    let e = build_room_enter_headers(&account("n", "csrfToken=abc; csrf_session_id=S"), "https://r/", &no_extras());
    assert!(e.get("x-secsdk-csrf-token").unwrap().ends_with(",S"));
    assert_eq!(e.get("referer"), Some("https://r/".to_string()));
    let mut cm = CookieMap::new();
    cm.insert("passport_csrf_token", "T");
    let ph = build_passport_headers(&cm);
    assert_eq!(ph.get("cookie"), Some("passport_csrf_token=T".to_string()));
    assert_eq!(ph.get("x-tt-passport-csrf-token"), Some("T".to_string()));
    let mut x = CookieMap::new();
    let s = ExtraHeaderSettings {
        client_data: Some(" {\"a\":1} ".to_string()),
        mssdk_info: Some(" info ".to_string()),
        iteration_version: Some("  ".to_string()),
        public_key: None,
        version: Some("bad\u{7f}".to_string()),
        web_version: Some("w".to_string()),
    };
    apply_tiktok_extra_headers(&mut x, &s);
    assert_eq!(x.get("tt-ticket-guard-client-data"), Some("eyJhIjoxfQ==".to_string()));
    assert_eq!(x.get("x-mssdk-info"), Some("info".to_string()));
    assert_eq!(x.get("tt-ticket-guard-iteration-version"), None);
    assert_eq!(x.get("tt-ticket-guard-version"), None);
    assert_eq!(x.get("tt-ticket-guard-web-version"), Some("w".to_string()));
}

#[test]
fn empty_and_placeholder_query_params_are_dropped() {
    assert_eq!(
        bsr_core::tiktok_urls::strip_empty_query_params("https://a.com/p?x=1&y=&z=%7Bv%7D&w=2"),
        "https://a.com/p?x=1&w=2"
    );
    assert_eq!(bsr_core::tiktok_urls::strip_empty_query_params("https://a.com/p?y="), "https://a.com/p");
    assert_eq!(bsr_core::tiktok_urls::strip_empty_query_params("not a url"), "not a url");
}

#[test]
fn sign_query_leaves_out_signatures() {
    assert_eq!(
        bsr_core::tiktok_urls::extract_sign_query("https://a.com/?a=1&X-Bogus=2&b=x%20y&X-Gnarly=3"),
        Some("a=1&b=x+y".to_string())
    );
    assert_eq!(bsr_core::tiktok_urls::extract_sign_query("nope"), None);
}

#[test]
fn playlist_references_resolve_against_the_playlist() {
    assert_eq!(
        bsr_core::tiktok_urls::resolve_uri("https://h.com/a/b.m3u8?t=1", "seg1.ts"),
        Some("https://h.com/a/seg1.ts".to_string())
    );
    assert_eq!(
        bsr_core::tiktok_urls::resolve_uri("bad base", "http://x.com/s.ts"),
        Some("http://x.com/s.ts".to_string())
    );
    assert_eq!(bsr_core::tiktok_urls::resolve_uri("bad base", "s.ts"), None);
}

#[test]
fn passport_answer_fails_on_an_unsuccessful_status() {
    let j = parse_json(r#"{"data":{"user_id":"5","nickname":"u"}}"#).unwrap();
    match passport_answer(false, "403 Forbidden", &j) {
        Err(RecorderError::ApiError { error }) => {
            assert_eq!(error, "Failed to fetch TikTok passport info, status: 403 Forbidden")
        }
        _ => panic!("expected an error"),
    }
    let u = passport_answer(true, "200 OK", &j).unwrap();
    assert_eq!((u.user_id.as_str(), u.user_name.as_str()), ("5", "u"));
}

#[test]
fn user_info_steps_follow_the_fallback_order() {
    let answer = |ok: bool, body: &str| EndpointAnswer::Answered {
        success: ok,
        status: if ok { "200 OK".to_string() } else { "403 Forbidden".to_string() },
        body: parse_json(body).unwrap(),
    };
    match user_info_step(false, "500 Internal Server Error", "", EndpointAnswer::NotAsked, EndpointAnswer::NotAsked) {
        UserInfoNext::Done(Err(RecorderError::ApiError { error })) => {
            assert_eq!(error, "Failed to fetch TikTok, status: 500 Internal Server Error")
        }
        other => panic!("unexpected {other:?}"),
    }
    let blocked = "<p>We regret to inform you that we have discontinued operating TikTok</p>";
    match user_info_step(true, "200 OK", blocked, EndpointAnswer::NotAsked, EndpointAnswer::NotAsked) {
        UserInfoNext::Done(Err(RecorderError::ApiError { error })) => {
            assert_eq!(error, "TikTok is not available in this region. Please use a different proxy.")
        }
        other => panic!("unexpected {other:?}"),
    }
    assert!(matches!(
        user_info_step(true, "200 OK", "<html>", EndpointAnswer::NotAsked, EndpointAnswer::NotAsked),
        UserInfoNext::AskPassport
    ));
    match user_info_step(true, "200 OK", "<html>", answer(true, r#"{"data":{"user_id":"1"}}"#), EndpointAnswer::NotAsked) {
        UserInfoNext::Done(Ok(u)) => assert_eq!((u.user_id.as_str(), u.user_name.as_str()), ("1", "1")),
        other => panic!("unexpected {other:?}"),
    }
    // A user in an answer with a failed status does not count.
    assert!(matches!(
        user_info_step(true, "200 OK", "<html>", answer(false, r#"{"data":{"user_id":"1"}}"#), EndpointAnswer::NotAsked),
        UserInfoNext::AskPassportAccount
    ));
    match user_info_step(
        true,
        "200 OK",
        "<html>",
        EndpointAnswer::Failed,
        answer(true, r#"{"data":{"user_id_str":"2","screen_name":"S"}}"#),
    ) {
        UserInfoNext::Done(Ok(u)) => assert_eq!((u.user_id.as_str(), u.user_name.as_str()), ("2", "S")),
        other => panic!("unexpected {other:?}"),
    }
    match user_info_step(true, "200 OK", "<html></html>", EndpointAnswer::Failed, answer(true, r#"{"data":{}}"#)) {
        UserInfoNext::Done(Err(RecorderError::ApiError { error })) => assert!(error.starts_with("Failed to extract TikTok state")),
        other => panic!("unexpected {other:?}"),
    }
}
