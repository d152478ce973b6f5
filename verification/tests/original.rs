use bsr_core::cookies::get_item_from_cookies;
use bsr_core::tiktok::{force_mobile_fallback, to_mobile_url};

#[test]
fn mobile_url_rewrite() {
    let web = "https://www.tiktok.com/@abc/live?x=1";
    assert_eq!(to_mobile_url(web), "https://m.tiktok.com/@abc/live?x=1");
    let mobile = "https://m.tiktok.com/@abc/live?x=1";
    assert_eq!(to_mobile_url(mobile), mobile);
}

#[test]
fn force_mobile_env_flag() {
    assert!(!force_mobile_fallback(&None));
    assert!(force_mobile_fallback(&Some("true".to_string())));
    assert!(!force_mobile_fallback(&Some("0".to_string())));
}

#[test]
fn test_get_item_from_cookies() {
    let cookies = "DedeUserID=1234567890; bili_jct=1234567890; yyuid=1234567890";
    let uid = get_item_from_cookies("DedeUserID", cookies).unwrap();
    assert_eq!(uid, "1234567890");
    let uid = get_item_from_cookies("yyuid", cookies).unwrap();
    assert_eq!(uid, "1234567890");
    let uid = get_item_from_cookies("bili_jct", cookies).unwrap();
    assert_eq!(uid, "1234567890");
    let uid = get_item_from_cookies("unknown", cookies).unwrap_err();
    assert_eq!(uid, "Invalid cookies: missing unknown");
}

#[test]
fn mobile_url_is_stable() {
    for url in [
        "https://www.tiktok.com/@abc/live",
        "https://m.tiktok.com/@abc/live",
        "https://www.tiktok.com/x?next=https://www.tiktok.com/y",
        "https://example.com/",
    ] {
        let once = to_mobile_url(url);
        assert_eq!(to_mobile_url(&once), once);
    }
    assert_eq!(
        to_mobile_url("https://www.tiktok.com/x?next=https://www.tiktok.com/y"),
        "https://m.tiktok.com/x?next=https://m.tiktok.com/y"
    );
}
