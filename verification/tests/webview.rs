use bsr_core::manager::whole_clip_names;
use bsr_core::manager::whole_clip_plan;
use bsr_core::account_rows::Platform;
use bsr_core::manager::{
    event_actions, first_segment_timestamp, first_segment_timestamp_checked, EventAction,
    ManagerEvent, SegmentStart, WebhookKind,
};
use bsr_core::recorders::RecorderManagerError;
use bsr_core::webview::{
    finish_bilibili_guest_cookies, finish_bilibili_webview_cookies, finish_douyin_guest_cookies,
    finish_douyin_webview_cookies, finish_huya_guest_cookies, finish_huya_webview_cookies,
    finish_kuaishou_guest_cookies, finish_kuaishou_webview_cookies, finish_tiktok_guest_cookies,
    finish_tiktok_webview_cookies, harvest_webview_cookies, split_cookie_items,
};

fn pairs(items: &[(&str, &str)]) -> Vec<(String, String)> {
    items.iter().map(|(k, v)| (k.to_string(), v.to_string())).collect()
}

fn names_of(items: &[bsr_core::cookies::CookieItem]) -> Vec<String> {
    let mut v: Vec<String> = items.iter().map(|i| format!("{}={}", i.name, i.value)).collect();
    v.sort();
    v
}

#[test]
fn harvest_skips_empty_values_and_keeps_last() {
    let h = harvest_webview_cookies(&pairs(&[("A", "1"), ("b", ""), ("A", "2"), ("B", "3")]));
    assert_eq!(h.exact.get("A"), Some("2".to_string()));
    assert_eq!(h.exact.get("b"), None);
    assert_eq!(h.exact.get("B"), Some("3".to_string()));
    assert_eq!(h.lower.get("a"), Some("2".to_string()));
    assert_eq!(h.lower.get("b"), Some("3".to_string()));
    assert_eq!(h.exact.len(), 2);
}

#[test]
fn tiktok_login_import_drops_device_cookies_from_header_only() {
    let r = finish_tiktok_webview_cookies(&pairs(&[
        ("sessionid", "s1"),
        ("buvid3", "dev"),
        ("ttwid", "t"),
    ]))
    .unwrap();
    assert_eq!(r.cookies, "sessionid=s1; ttwid=t");
    assert_eq!(names_of(&r.items), vec!["buvid3=dev", "sessionid=s1", "ttwid=t"]);
}

#[test]
fn tiktok_login_import_errors() {
    let e = finish_tiktok_webview_cookies(&pairs(&[("BUVID3", "x"), ("a", "")])).unwrap_err();
    assert_eq!(e, "未读取到 Cookie，请先在内置浏览器完成登录");
    let e = finish_tiktok_webview_cookies(&pairs(&[("ttwid", "t")])).unwrap_err();
    assert_eq!(e, "未检测到 TikTok 登录状态。请在内置浏览器完成登录（出现个人头像）后再导入。");
    // a session cookie under another case counts through the lowercase map
    let r = finish_tiktok_webview_cookies(&pairs(&[("SessionID", "S")])).unwrap();
    assert_eq!(r.cookies, "SessionID=S");
}

#[test]
fn douyin_login_import_merges_lowercase_and_cleans() {
    let r = finish_douyin_webview_cookies(&pairs(&[("SessionID", "abc"), ("ttwid", " ")])).unwrap();
    assert_eq!(r.cookies, "SessionID=abc; sessionid=abc");
    assert_eq!(r.items.len(), 2);
    assert_eq!(r.items[0].name, "SessionID");
    assert_eq!(r.items[1].value, "abc");
    let e = finish_douyin_webview_cookies(&pairs(&[("ttwid", "t")])).unwrap_err();
    assert_eq!(e, "未检测到抖音登录状态。请在内置浏览器完成登录后再导入。");
    let e = finish_douyin_webview_cookies(&pairs(&[("x", " ")])).unwrap_err();
    assert_eq!(e, "未读取到 Cookie，请先在内置浏览器完成登录");
}

#[test]
fn kuaishou_login_import_drops_private_cookies() {
    let r = finish_kuaishou_webview_cookies(&pairs(&[("userId", "7"), ("PASSTOKEN", "p"), ("_did", "d")]))
        .unwrap();
    assert_eq!(r.cookies, "userId=7; userid=7");
    let e = finish_kuaishou_webview_cookies(&pairs(&[("passToken", "p")])).unwrap_err();
    assert_eq!(e, "未读取到 Cookie，请先在内置浏览器完成登录");
}

#[test]
fn huya_login_import_fills_yyuid() {
    let r = finish_huya_webview_cookies(&pairs(&[("UDB_UID", "42")])).unwrap();
    assert_eq!(r.cookies, "UDB_UID=42; yyuid=42");
    let r = finish_huya_webview_cookies(&pairs(&[("yyuid", "1"), ("uid", "2")])).unwrap();
    assert_eq!(r.cookies, "uid=2; yyuid=1");
    let e = finish_huya_webview_cookies(&pairs(&[])).unwrap_err();
    assert_eq!(e, "未读取到完整 Cookie，请在内置浏览器完成登录并访问 www.huya.com / i.huya.com");
}

#[test]
fn bilibili_login_import_keeps_exact_names() {
    let r = finish_bilibili_webview_cookies(&pairs(&[("SESSDATA", "s"), ("bili_jct", "c")])).unwrap();
    assert_eq!(r.cookies, "SESSDATA=s; bili_jct=c");
    assert_eq!(names_of(&r.items), vec!["SESSDATA=s", "bili_jct=c"]);
    assert!(finish_bilibili_webview_cookies(&pairs(&[("a", "")])).is_err());
}

#[test]
fn guest_headers_leave_out_private_cookies() {
    assert_eq!(
        finish_tiktok_guest_cookies(&pairs(&[("ttwid", "t"), ("msToken", "m")])).unwrap(),
        "msToken=m; mstoken=m"
    );
    assert_eq!(
        finish_tiktok_guest_cookies(&pairs(&[("ttwid", "t")])).unwrap_err(),
        "未读取到 Cookie，请先在内置浏览器访问 TikTok 页面"
    );
    assert_eq!(
        finish_douyin_guest_cookies(&pairs(&[("sessionid_ss", "s"), ("a", "1")])).unwrap(),
        "a=1"
    );
    assert_eq!(
        finish_douyin_guest_cookies(&pairs(&[("device_id", "d")])).unwrap_err(),
        "未读取到 Cookie，请先在内置浏览器访问抖音页面"
    );
    assert_eq!(finish_huya_guest_cookies(&pairs(&[("GUID", "g"), ("x", "1")])).unwrap(), "x=1");
    assert_eq!(
        finish_huya_guest_cookies(&pairs(&[("guid", "g")])).unwrap_err(),
        "未读取到 Cookie，请先在内置浏览器访问虎牙页面"
    );
    assert_eq!(finish_bilibili_guest_cookies(&pairs(&[("b", "2"), ("a", "1")])).unwrap(), "a=1; b=2");
    assert_eq!(
        finish_bilibili_guest_cookies(&pairs(&[])).unwrap_err(),
        "未读取到 Cookie，请先在内置浏览器访问 BiliBili 页面"
    );
    assert_eq!(finish_kuaishou_guest_cookies(&pairs(&[("b", "2"), ("a", " ")])).unwrap(), "b=2");
    assert_eq!(
        finish_kuaishou_guest_cookies(&pairs(&[("a", " ")])).unwrap_err(),
        "未读取到 Kuaishou Cookie"
    );
}

#[test]
fn split_items_keep_spaces_inside() {
    let items = split_cookie_items(" a =1; b; c= 2 ;");
    assert_eq!(items.len(), 2);
    assert_eq!(items[0].name, "a ");
    assert_eq!(items[0].value, "1");
    assert_eq!(items[1].name, "c");
    assert_eq!(items[1].value, " 2");
}

fn seg(pdt: Option<i64>, tags: &[(&str, Option<&str>)]) -> Option<SegmentStart> {
    Some(SegmentStart {
        program_date_time_ms: pdt,
        tags: tags.iter().map(|(k, v)| (k.to_string(), v.map(|s| s.to_string()))).collect(),
    })
}

#[test]
fn first_segment_timestamp_sources() {
    assert!(matches!(first_segment_timestamp(&None, "1"), Err(RecorderManagerError::EmptyPlaylist)));
    assert_eq!(first_segment_timestamp(&seg(Some(5), &[]), "1").unwrap(), 5);
    assert_eq!(
        first_segment_timestamp(&seg(None, &[("X-PROGRAM-DATE-TIME", Some("2025-10-18T17:18:17.004+0800"))]), "1")
            .unwrap(),
        1760779097004
    );
    assert_eq!(first_segment_timestamp(&seg(None, &[("OTHER", Some("x"))]), "1700").unwrap(), 1700);
    assert_eq!(first_segment_timestamp(&seg(None, &[("X-PROGRAM-DATE-TIME", None)]), "-3").unwrap(), -3);
    assert!(matches!(
        first_segment_timestamp(&seg(None, &[]), "abc"),
        Err(RecorderManagerError::InvalidLiveID)
    ));
    assert!(first_segment_timestamp_checked(&seg(None, &[("X-PROGRAM-DATE-TIME", Some("bad"))]), "1").is_none());
    assert_eq!(first_segment_timestamp_checked(&seg(Some(9), &[]), "1").unwrap().unwrap(), 9);
}

#[test]
fn event_actions_follow_the_event() {
    let a = event_actions(
        &ManagerEvent::LiveStart { user_name: "u".to_string(), room_title: "t".to_string() },
        true,
        false,
    );
    assert_eq!(a.len(), 2);
    assert!(matches!(a[0], EventAction::PostWebhook { kind: WebhookKind::LiveStarted }));
    match &a[1] {
        EventAction::Notify { title, body } => {
            assert_eq!(title, "ShadowVerse - 直播开始");
            assert_eq!(body, "u 开启了直播：t");
        }
        other => panic!("unexpected {other:?}"),
    }
    let a = event_actions(
        &ManagerEvent::LiveEnd { user_name: "u".to_string(), room_title: "t".to_string() },
        true,
        false,
    );
    assert_eq!(a.len(), 1);
    let a = event_actions(
        &ManagerEvent::RecordStart {
            platform: Platform::TikTok,
            room_id: "r".to_string(),
            live_id: "9".to_string(),
            room_cover: "c".to_string(),
            has_resolution: true,
        },
        false,
        false,
    );
    assert_eq!(a.len(), 3);
    match &a[0] {
        EventAction::AddRecord { cover_path } => {
            assert_eq!(cover_path.as_deref(), Some("tiktok/r/9/cover.jpg"))
        }
        other => panic!("unexpected {other:?}"),
    }
    assert!(matches!(a[1], EventAction::SaveResolution));
    let a = event_actions(&ManagerEvent::RecordEnd { record_size: Some(0) }, false, false);
    assert!(matches!(a[1], EventAction::RemoveEmptyRecord));
    let a = event_actions(&ManagerEvent::RecordEnd { record_size: Some(10) }, false, false);
    assert!(matches!(a[1], EventAction::HandleLiveEnd));
    let a = event_actions(&ManagerEvent::RecordEnd { record_size: None }, false, false);
    assert!(matches!(a[1], EventAction::StopHandling));
    let a = event_actions(
        &ManagerEvent::GuestCookieRefreshRequested { platform: Platform::Douyin, reason: "403".to_string() },
        false,
        false,
    );
    match &a[0] {
        EventAction::RefreshGuests { reason } => assert_eq!(reason, "douyin: 403"),
        other => panic!("unexpected {other:?}"),
    }
    let a = event_actions(&ManagerEvent::DanmuReceived, false, false);
    assert!(matches!(a[0], EventAction::Forward));
}

fn record(live_id: &str, title: &str, created_at: &str) -> bsr_core::manager::LiveRecord {
    bsr_core::manager::LiveRecord {
        live_id: live_id.to_string(),
        title: title.to_string(),
        created_at: created_at.to_string(),
    }
}

#[test]
fn related_playlists_keep_or_sort_their_records() {
    let records = vec![
        record("3", "c", "2025-01-03"),
        record("1", "a", "2025-01-01"),
        record("2", "b", "2025-01-03"),
        record("0", "z", "2024-12-31"),
    ];
    let kept = bsr_core::manager::related_playlists(&records, Platform::TikTok, "room", "/cache");
    let ids: Vec<&str> = kept.iter().map(|p| p.live_id.as_str()).collect();
    assert_eq!(ids, vec!["3", "1", "2", "0"]);
    let sep = std::path::MAIN_SEPARATOR;
    assert_eq!(kept[0].path, format!("/cache{sep}tiktok/room/3/playlist.m3u8"));
    assert_eq!(kept[1].title, "a");
    let sorted = bsr_core::manager::related_playlists_by_time(&records, Platform::TikTok, "room", "/cache");
    let ids: Vec<&str> = sorted.iter().map(|p| p.live_id.as_str()).collect();
    // equal times keep their order
    assert_eq!(ids, vec!["0", "1", "3", "2"]);
}

#[test]
fn playlists_of_other_lives_are_outdated() {
    assert!(bsr_core::manager::is_outdated_playlist(None, "1"));
    assert!(bsr_core::manager::is_outdated_playlist(Some(("2", true)), "1"));
    assert!(bsr_core::manager::is_outdated_playlist(Some(("1", false)), "1"));
    assert!(!bsr_core::manager::is_outdated_playlist(Some(("1", true)), "1"));
}

#[test]
fn playlist_bytes_give_the_start_time() {
    let dated = b"#EXTM3U\n#EXT-X-VERSION:3\n#EXT-X-TARGETDURATION:2\n#EXT-X-PROGRAM-DATE-TIME:2025-10-18T17:18:17.004+08:00\n#EXTINF:2.0,\nseg0.ts\n";
    assert_eq!(bsr_core::manager::playlist_start_from_bytes(dated, "1").unwrap(), 1760779097004);
    let undated = b"#EXTM3U\n#EXT-X-TARGETDURATION:2\n#EXTINF:2.0,\nseg0.ts\n";
    assert_eq!(bsr_core::manager::playlist_start_from_bytes(undated, "1700").unwrap(), 1700);
    let empty = b"#EXTM3U\n#EXT-X-TARGETDURATION:2\n";
    assert!(matches!(bsr_core::manager::playlist_start_from_bytes(empty, "1"), Err(RecorderManagerError::EmptyPlaylist)));
    match bsr_core::manager::playlist_start_from_bytes(b"not a playlist", "1") {
        Err(RecorderManagerError::M3u8ParseFailed { content }) => assert_eq!(content, "not a playlist"),
        other => panic!("unexpected {other:?}"),
    }
    assert!(bsr_core::manager::playlist_start_checked(&[0xff, 0xfe], "1").is_none());
}

#[test]
fn whole_clip_names_follow_the_first_title() {
    let (file, cover) = whole_clip_names(Platform::TikTok, "42", "p1", None, Some("My Live"), "20240102030405").unwrap();
    assert_eq!(file, "[full][TikTok][42][p1][20240102030405]My Live.mp4");
    assert_eq!(cover, "[full][TikTok][42][p1][20240102030405]My Live.jpg");
    // Unsafe characters go; the tag falls back to the first picked live.
    let ids = vec!["l7".to_string(), "l8".to_string()];
    let (file, cover) = whole_clip_names(Platform::BiliBili, "9", "", Some(&ids), Some("a/b:c?"), "t").unwrap();
    assert_eq!(file, "[full][BiliBili][9][l7][t]abc.mp4");
    assert_eq!(cover, "[full][BiliBili][9][l7][t]abc.jpg");
    let empty: Vec<String> = Vec::new();
    let (file, _) = whole_clip_names(Platform::Douyin, "9", "", Some(&empty), Some("x"), "t").unwrap();
    assert_eq!(file, "[full][Douyin][9][][t]x.mp4");
    assert!(whole_clip_names(Platform::Douyin, "9", "p", None, None, "t").is_none());
}

#[test]
fn whole_clip_plan_reads_playlists_in_order() {
    let records = vec![record("b", "Second", "2024-02"), record("a", "First", "2024-01")];
    let ids = vec!["b".to_string(), "a".to_string()];
    let plan = whole_clip_plan(&records, Platform::TikTok, "1", "", Some(&ids), "ts", "/cache").unwrap();
    let lives: Vec<&str> = plan.playlists.iter().map(|p| p.live_id.as_str()).collect();
    assert_eq!(lives, vec!["a", "b"]);
    assert_eq!(plan.file, "[full][TikTok][1][b][ts]First.mp4");
    assert_eq!(plan.cover, "[full][TikTok][1][b][ts]First.jpg");
    let sep = std::path::MAIN_SEPARATOR;
    assert_eq!(plan.playlists[0].path, format!("/cache{sep}tiktok/1/a/playlist.m3u8"));
    let plan = whole_clip_plan(&records, Platform::TikTok, "1", "par", None, "ts", "/cache").unwrap();
    assert_eq!(plan.playlists[0].live_id, "b");
    assert_eq!(plan.file, "[full][TikTok][1][par][ts]Second.mp4");
    assert!(whole_clip_plan(&records, Platform::TikTok, "1", "", Some(&Vec::new()), "ts", "/cache").is_none());
    assert!(whole_clip_plan(&Vec::new(), Platform::TikTok, "1", "p", None, "ts", "/cache").is_none());
}
