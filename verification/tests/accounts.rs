use bsr_core::account_rows::{login_account_cookies, LoginCookies};
use bsr_core::account_rows::{
    bili_csrf_token, bilibili_uid_from_cookies, cookie_domains_for_platform, domain_for_platform,
    fallback_user_info, huya_uid_from_cookies, join_cookie_sets, prepare_account_cookies, Platform,
};
use bsr_core::accounts::{
    GuestRefreshGate,
    account_priority, account_quality_score, compare_accounts, is_guest_account_uid,
    is_login_account_uid, is_placeholder_name, select_account_for_platform, try_begin_guest_refresh,
    AccountRow, GuestRefreshDecision,
};
use bsr_core::config::{
    clamp_status_check_interval, clear_guest_account_cookies, detect_env_proxy,
    get_login_account_platforms, network_env_actions, non_blank_of, normalize_proxy_url,
    remove_login_account, remove_login_account_by_platform, write_login_account, AccountsFile,
    DefaultAccountConfig, EnvAction,
};
use bsr_core::cookies::CookieItem;
use bsr_core::guest::{
    apply_guest_updates, changed_guest_updates, guest_refresh_step, load_guest_accounts_from_rows,
    stale_guest_entries, stale_guest_rows, GuestRefreshStep,
};
use bsr_core::platform_qr::{
    bilibili_qr_info, build_account_extra_json, build_webview_cookie_result, douyin_qr_info,
    kuaishou_qr_info, kuaishou_qr_key, kuaishou_qr_status, show_image, tiktok_platform_qr_status,
    tiktok_qr_platform_info,
};
use bsr_core::tiktok_data::UserInfo;
use bsr_core::tiktok_qr::{TikTokQrInfo, TikTokQrStatus};

fn row(platform: &str, uid: &str, cookies: &str, created: &str) -> AccountRow {
    AccountRow {
        platform: platform.to_string(),
        uid: uid.to_string(),
        name: "n".to_string(),
        avatar: String::new(),
        csrf: String::new(),
        cookies: cookies.to_string(),
        extra: String::new(),
        created_at: created.to_string(),
    }
}

fn entry(platform: &str, cookies: &str) -> DefaultAccountConfig {
    DefaultAccountConfig { platform: platform.to_string(), cookies: cookies.to_string(), extra: String::new() }
}

fn user(id: &str, name: &str, avatar: &str) -> UserInfo {
    UserInfo { user_id: id.to_string(), user_name: name.to_string(), user_avatar: avatar.to_string() }
}

#[test]
fn uid_kinds_and_names() {
    assert!(is_login_account_uid(" login:1"));
    assert!(is_guest_account_uid("cookie_abc"));
    assert!(!is_guest_account_uid("123"));
    assert!(is_placeholder_name(" Kuaishou Live "));
    assert!(!is_placeholder_name("Bob"));
}

#[test]
fn ranking_and_choice() {
    let login = row("tiktok", "login:1", "a=1", "2024");
    let guest = row("tiktok", "guest:2", "a=1; b=2", "2025");
    assert_eq!(account_priority(&login), 3);
    assert_eq!(account_priority(&guest), 1);
    assert_eq!(account_quality_score(&guest), 3 * 100 + 2);
    assert_eq!(compare_accounts(&guest, &login), -1);
    let rows = vec![guest, login, row("douyin", "x", "a=1", "2026"), row("tiktok", "plain", "  ", "2027")];
    assert_eq!(select_account_for_platform(&rows, "tiktok", true, true), Some(1));
    assert_eq!(select_account_for_platform(&rows, "tiktok", false, true), Some(0));
    assert_eq!(select_account_for_platform(&rows, "huya", true, true), None);
}

#[test]
fn guest_refresh_gate() {
    assert_eq!(try_begin_guest_refresh(100, 0, false, false), GuestRefreshDecision::Cooldown);
    assert_eq!(try_begin_guest_refresh(200, 0, true, false), GuestRefreshDecision::AlreadyRunning);
    assert_eq!(try_begin_guest_refresh(40, 0, false, true), GuestRefreshDecision::Start);
}

#[test]
fn platforms_and_domains() {
    assert_eq!(Platform::from_str("tiktok"), Some(Platform::TikTok));
    assert_eq!(Platform::from_str("TikTok"), None);
    assert_eq!(Platform::BiliBili.fallback_name(), "BiliBili");
    assert_eq!(Platform::BiliBili.guest_name(), "Bilibili");
    assert_eq!(domain_for_platform("huya"), Some("huya.com".to_string()));
    assert_eq!(domain_for_platform("x"), None);
    assert!(cookie_domains_for_platform("tiktok").is_some());
    assert_eq!(join_cookie_sets(&vec!["a=1".to_string(), "".to_string(), "b=2".to_string()]), Some("a=1; b=2".to_string()));
    assert_eq!(join_cookie_sets(&vec!["".to_string()]), None);
}

#[test]
fn account_cookie_preparation() {
    assert_eq!(bili_csrf_token("x=1; bili_jct=tok"), "tok");
    assert_eq!(bilibili_uid_from_cookies("DedeUserID=42"), "42");
    assert_eq!(huya_uid_from_cookies("yyuid=7"), Some("7".to_string()));
    assert!(prepare_account_cookies("tiktok", "sessionid=s").is_ok());
    let f = fallback_user_info(Platform::Huya, "yyuid=7", "");
    assert_eq!(f.user_name, "Huya");
}

#[test]
fn config_helpers() {
    assert_eq!(normalize_proxy_url("http=a:1;https=b:2"), Some("http://b:2".to_string()));
    assert_eq!(normalize_proxy_url("socks5://x"), Some("socks5://x".to_string()));
    assert_eq!(normalize_proxy_url(" "), None);
    assert_eq!(detect_env_proxy(&vec![None, Some("h:1".to_string())]), Some("http://h:1".to_string()));
    let acts = network_env_actions("h:1", "");
    assert_eq!(acts.len(), 4);
    match &acts[2] {
        EnvAction::Assign { key, value } => assert_eq!((key.as_str(), value.as_str()), ("https_proxy", "http://h:1")),
        _ => panic!("expected an assignment"),
    }
    match &network_env_actions("", "")[0] {
        EnvAction::Unset { key } => assert_eq!(key, "http_proxy"),
        _ => panic!("expected a removal"),
    }
    assert_eq!(non_blank_of("  x "), Some("x".to_string()));
    assert_eq!(clamp_status_check_interval(1), 2);
    assert_eq!(clamp_status_check_interval(30), 30);
}

#[test]
fn accounts_file_edits() {
    let mut f = AccountsFile { guest_accounts: vec![entry("tiktok", "g=1")], login_accounts: vec![] };
    write_login_account(&mut f, "douyin", "a=1", Some("{}"));
    write_login_account(&mut f, "douyin", "a=2", None);
    assert_eq!(f.login_accounts.len(), 1);
    assert_eq!(f.login_accounts[0].cookies, "a=2");
    assert_eq!(f.login_accounts[0].extra, "{}");
    assert_eq!(get_login_account_platforms(&f.login_accounts), vec!["douyin".to_string()]);
    assert!(!remove_login_account(&mut f, "douyin", "a=9"));
    assert!(remove_login_account(&mut f, "douyin", " a=2 "));
    write_login_account(&mut f, "huya", "h=1", None);
    assert!(remove_login_account_by_platform(&mut f, "huya"));
    assert!(f.login_accounts.is_empty());
    clear_guest_account_cookies(&mut f);
    assert_eq!(f.guest_accounts[0].cookies, "");
}

#[test]
fn guest_updates() {
    let old = vec![entry("tiktok", "a=1; b=2"), entry("douyin", "d=1")];
    let ups = vec![("tiktok".to_string(), "b=2;a=1".to_string()), ("huya".to_string(), "h=1".to_string())];
    let changed = changed_guest_updates(&old, &ups);
    assert_eq!(changed, vec![("huya".to_string(), "h=1".to_string())]);
    match guest_refresh_step(&old, &ups, false, 1, 3) {
        GuestRefreshStep::Apply { changed, .. } => assert_eq!(changed, vec!["huya".to_string()]),
        _ => panic!("expected changes"),
    }
    match guest_refresh_step(&old, &vec![], false, 3, 3) {
        GuestRefreshStep::Fail { message } => assert_eq!(message, "未获取到访客 Cookie，请稍后重试"),
        _ => panic!("expected a failure"),
    }
    let same = vec![("douyin".to_string(), "d=1".to_string())];
    assert!(matches!(guest_refresh_step(&old, &same, false, 1, 3), GuestRefreshStep::Retry));
    assert!(matches!(guest_refresh_step(&old, &same, true, 1, 3), GuestRefreshStep::Apply { .. }));
    let applied = apply_guest_updates(old, &ups);
    let shown: Vec<(String, String)> = applied.iter().map(|e| (e.platform.clone(), e.cookies.clone())).collect();
    assert_eq!(
        shown,
        vec![
            ("douyin".to_string(), "d=1".to_string()),
            ("tiktok".to_string(), "b=2;a=1".to_string()),
            ("huya".to_string(), "h=1".to_string())
        ]
    );
    let stale = stale_guest_entries(&vec![entry("tiktok", "a=1"), entry("huya", "h=1")], &vec![entry("huya", " h=1 ")]);
    assert_eq!(stale, vec![("tiktok".to_string(), "a=1".to_string())]);
}

#[test]
fn guest_rows() {
    let rows = vec![
        row("tiktok", "guest:1", "a=1", "2024"),
        row("tiktok", "guest:2", "a=2", "2025"),
        row("douyin", "login:3", "d=1", "2025"),
        row("douyin", "cookie_4", "d=2", "2023"),
    ];
    let loaded = load_guest_accounts_from_rows(&rows);
    let shown: Vec<(String, String)> = loaded.iter().map(|e| (e.platform.clone(), e.cookies.clone())).collect();
    assert_eq!(shown, vec![("douyin".to_string(), "d=2".to_string()), ("tiktok".to_string(), "a=2".to_string())]);
    let stale = stale_guest_rows(&rows, &vec![entry("tiktok", "a=2")]);
    assert_eq!(stale, vec![("tiktok".to_string(), "guest:1".to_string()), ("douyin".to_string(), "cookie_4".to_string())]);
}

#[test]
fn qr_codes_for_the_interface() {
    let b = bilibili_qr_info("k".to_string(), "u".to_string());
    assert_eq!((b.url, b.image), (Some("u".to_string()), None));
    let d = douyin_qr_info("k".to_string(), "".to_string(), Some("abc".to_string()));
    assert_eq!(d.url, None);
    assert_eq!(d.image, Some("data:image/png;base64,abc".to_string()));
    let k = kuaishou_qr_info("t", "s", "c", "IMG");
    assert_eq!(k.oauth_key, "t|s|c");
    assert_eq!(k.image, Some("data:image/png;base64,IMG".to_string()));
    let t = tiktok_qr_platform_info(TikTokQrInfo {
        oauth_key: "o".to_string(),
        url: "https://q".to_string(),
        image: Some("https://img".to_string()),
    });
    assert_eq!(t.image, Some("https://img".to_string()));
    assert_eq!(show_image("https://img".to_string(), false), "data:image/png;base64,https://img");
    assert_eq!(show_image("data:image/gif;base64,x".to_string(), false), "data:image/gif;base64,x");
    let st = tiktok_platform_qr_status(TikTokQrStatus { code: 2, cookies: String::new(), message: "m".to_string() });
    assert_eq!((st.code, st.message), (2, Some("m".to_string())));
}

#[test]
fn kuaishou_keys_and_states() {
    assert_eq!(kuaishou_qr_key("t|s|c|x").unwrap(), ("t".to_string(), "s".to_string(), Some("c".to_string())));
    assert_eq!(kuaishou_qr_key("t|s").unwrap().2, None);
    assert_eq!(kuaishou_qr_key("t").unwrap_err(), "Invalid Kuaishou QR key");
    let st = kuaishou_qr_status(0, "a=1; userId= 9 ; b=", None, None, Some(" ".to_string()), None);
    assert_eq!(st.cookies, "a=1; userId=9");
    assert_eq!(
        st.extra,
        Some(r#"{"cookie_info":{"cookies":[{"name":"a","value":"1"},{"name":"userId","value":"9"}]},"token_info":{},"platform_tokens":{},"user_info":{"avatar":"","user_id":"9","username":""},"login_info":{"avatar":"","user_id":"9","username":""}}"#.to_string())
    );
    let none = kuaishou_qr_status(1, "a=1", Some("wait".to_string()), Some("".to_string()), None, None);
    assert_eq!(none.extra, None);
    assert_eq!(none.message, Some("wait".to_string()));
}

#[test]
fn extra_data_text() {
    let items = vec![CookieItem { name: "k".to_string(), value: "v\"".to_string() }];
    let text = build_account_extra_json(&items, &user("1", "N", "A"));
    assert_eq!(
        text,
        r#"{"cookie_info":{"cookies":[{"name":"k","value":"v\""}]},"token_info":{},"platform_tokens":{},"user_info":{"avatar":"A","user_id":"1","username":"N"},"login_info":{"avatar":"A","user_id":"1","username":"N"}}"#
    );
    let r = build_webview_cookie_result("k=v".to_string(), &items, &user("1", "N", "A"));
    assert_eq!(r.cookies, "k=v");
    assert_eq!(r.extra, text);
}

#[test]
fn protocol_preference_is_trimmed_and_lowercased() {
    assert_eq!(bsr_core::config::normalize_protocol_preference("  HLS \n"), "hls");
    assert_eq!(bsr_core::config::normalize_protocol_preference("Flv"), "flv");
    assert_eq!(bsr_core::config::normalize_protocol_preference("   "), "");
}

#[test]
fn guest_setup_does_nothing_when_off_or_unconfigured() {
    let rows = vec![row("tiktok", "guest:x", "old=1", "1")];
    let entries = vec![entry("tiktok", " a=1 "), entry("nowhere", "b=2"), entry("douyin", "  ")];
    assert!(bsr_core::guest::guest_setup_cleanup(false, &entries, &rows).is_none());
    assert!(bsr_core::guest::guest_setup_cleanup(true, &Vec::new(), &rows).is_none());
    assert!(bsr_core::guest::guest_setup_plans(false, &entries, &rows).is_empty());
    assert!(bsr_core::guest::guest_setup_plans(true, &Vec::new(), &rows).is_empty());
    let stale = bsr_core::guest::guest_setup_cleanup(true, &entries, &rows).unwrap();
    assert_eq!(stale, vec![("tiktok".to_string(), "guest:x".to_string())]);
    let plans = bsr_core::guest::guest_setup_plans(true, &entries, &rows);
    assert_eq!(plans.len(), 1);
    assert_eq!(plans[0].platform, Platform::TikTok);
    assert_eq!(plans[0].cookies, "a=1");
    assert!(plans[0].build);
}

#[test]
fn assembled_rows_keep_given_extra_or_build_it() {
    let prepared = prepare_account_cookies("tiktok", "sessionid=s; uid_tt=9").unwrap();
    let user = UserInfo { user_id: "9".to_string(), user_name: "n".to_string(), user_avatar: "a".to_string() };
    let kept = bsr_core::account_rows::assemble_account_row(&prepared, user, Some("{\"x\":1}"), Some("login"), "t0");
    assert_eq!(kept.extra, "{\"x\":1}");
    assert_eq!(kept.uid, "login:9");
    assert_eq!(kept.platform, "tiktok");
    let user = UserInfo { user_id: "9".to_string(), user_name: "n".to_string(), user_avatar: "a".to_string() };
    let built = bsr_core::account_rows::assemble_account_row(&prepared, user, None, Some("guest"), "t0");
    let items = bsr_core::cookies::cookie_list_from_header(&prepared.cookies);
    let user = UserInfo { user_id: "9".to_string(), user_name: "n".to_string(), user_avatar: "a".to_string() };
    assert_eq!(built.extra, build_account_extra_json(&items, &user));
    assert_eq!(built.name, "TikTok");
    assert_eq!(built.avatar, "");
}

#[test]
fn guest_refresh_gate_marks_and_clears_a_running_refresh() {
    let mut g = GuestRefreshGate::new();
    assert_eq!(g.begin(1_000, false), GuestRefreshDecision::Start);
    assert_eq!(g, GuestRefreshGate { last_ts: 1_000, in_flight: true });
    assert_eq!(g.begin(1_200, true), GuestRefreshDecision::AlreadyRunning);
    assert_eq!(g, GuestRefreshGate { last_ts: 1_000, in_flight: true });
    g.finish();
    assert_eq!(g, GuestRefreshGate { last_ts: 1_000, in_flight: false });
    assert_eq!(g.begin(1_020, true), GuestRefreshDecision::Cooldown);
    assert_eq!(g.begin(1_100, false), GuestRefreshDecision::Cooldown);
    assert_eq!(g.begin(1_030, true), GuestRefreshDecision::Start);
    assert_eq!(g, GuestRefreshGate { last_ts: 1_030, in_flight: true });
}

#[test]
fn proxy_urls_come_back_unchanged() {
    for raw in ["host:8080", "http=a:1;https=b:2", " socks5://x ", "https=", "a=1;b"] {
        let v = normalize_proxy_url(raw).unwrap();
        assert!(v.contains("://"));
        assert_eq!(normalize_proxy_url(&v), Some(v.clone()));
    }
    // A URL that itself starts with a protocol entry is read again as one.
    let v = normalize_proxy_url("https=https=h://x").unwrap();
    assert_eq!(v, "https=h://x");
    assert_eq!(normalize_proxy_url(&v), Some("h://x".to_string()));
}

#[test]
fn login_account_update_needs_cookies() {
    match login_account_cookies("bilibili", "   ", None) {
        Err(e) => assert_eq!(e, "Empty cookies"),
        Ok(_) => panic!("expected an error"),
    }
    match login_account_cookies("bilibili", "a=1", None) {
        Ok(LoginCookies::Use(c)) => assert_eq!(c, "a=1"),
        other => panic!("unexpected {other:?}"),
    }
    match login_account_cookies("kuaishou", "kuaishou.live.web_st=x", Some("{}")) {
        Ok(LoginCookies::FetchKuaishou(c)) => assert_eq!(c, "kuaishou.live.web_st=x"),
        other => panic!("unexpected {other:?}"),
    }
}
