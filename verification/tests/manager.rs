use bsr_core::account_rows::Platform;
use bsr_core::clips::{
    archive_danmus, filter_danmus_in_range, range_anchors, relative_danmus, shift_danmus, DanmuEntry,
};
use bsr_core::hls::{hls_request_readable, parse_hls_request};
use bsr_core::manager::{
    account_required, account_retry_due, add_recorder_check, missing_account_retry_at,
    plan_recorders_to_add, recorder_id, recording_is_empty, resolve_recorder_id,
    restart_after_guest_refresh, restart_decision, whole_clip_failure, whole_clip_task_payload,
    StoredRecorder,
};
use bsr_core::recorders::{
    live_end_notice, live_start_notice, record_cover_path, reload_cooldown_for, RecorderManagerError,
    ReloadCooldowns,
};

fn stored(p: &str, room: &str, auto: bool, extra: &str) -> StoredRecorder {
    StoredRecorder { platform: p.to_string(), room_id: room.to_string(), auto_start: auto, extra: extra.to_string() }
}

fn d(ts: i64, c: &str) -> DanmuEntry {
    DanmuEntry { ts, content: c.to_string() }
}

fn times(v: &[DanmuEntry]) -> Vec<i64> {
    v.iter().map(|e| e.ts).collect()
}

#[test]
fn ids_and_accounts() {
    assert_eq!(recorder_id(Platform::TikTok, "42"), "tiktok:42");
    assert!(!account_required(Platform::Huya));
    assert!(account_required(Platform::Douyin));
    assert!(account_retry_due(None, 5));
    assert!(!account_retry_due(Some(6), 5));
    assert_eq!(missing_account_retry_at(10), 310);
}

#[test]
fn monitor_plans_each_startable_recorder_once() {
    let rows = vec![
        stored("tiktok", "1", true, "a"),
        stored("weibo", "2", true, ""),
        stored("douyin", "3", false, ""),
        stored("tiktok", "1", false, "b"),
        stored("huya", "4", true, ""),
    ];
    let running = vec!["douyin:3".to_string()];
    let removing = vec!["huya:4".to_string()];
    let plan = plan_recorders_to_add(&rows, &running, &removing);
    assert_eq!(plan.len(), 1);
    assert_eq!(plan[0].platform, Platform::TikTok);
    assert_eq!(plan[0].room_id, "1");
    assert!(!plan[0].auto_start);
    assert_eq!(plan[0].extra, "b");
}

#[test]
fn add_and_remove_checks() {
    let running = vec!["kuaishou:9".to_string(), "tiktok:77".to_string()];
    match add_recorder_check(Platform::Weibo, "1", &running) {
        Err(RecorderManagerError::InvalidPlatformType { platform }) => assert_eq!(platform, "weibo (temporarily disabled)"),
        _ => panic!("expected a refusal"),
    }
    match add_recorder_check(Platform::Kuaishou, "9", &running) {
        Err(RecorderManagerError::AlreadyExisted { room_id }) => assert_eq!(room_id, "9"),
        _ => panic!("expected a refusal"),
    }
    assert!(matches!(add_recorder_check(Platform::Kuaishou, "8", &running), Ok(true)));
    assert!(matches!(add_recorder_check(Platform::TikTok, "8", &running), Ok(false)));
    assert_eq!(resolve_recorder_id(Platform::TikTok, "77", &running), Some("tiktok:77".to_string()));
    assert_eq!(resolve_recorder_id(Platform::Douyin, "77", &running), Some("tiktok:77".to_string()));
    assert_eq!(resolve_recorder_id(Platform::Douyin, "5", &running), None);
}

#[test]
fn restarts_and_tasks() {
    let ps = vec![Platform::TikTok];
    assert!(matches!(restart_decision(&ps, "tiktok"), Ok(Some(Platform::TikTok))));
    assert!(matches!(restart_decision(&ps, "huya"), Ok(None)));
    match restart_decision(&ps, "myspace") {
        Err(RecorderManagerError::InvalidPlatformType { platform }) => assert_eq!(platform, "myspace"),
        _ => panic!("expected an error"),
    }
    assert_eq!(
        whole_clip_task_payload(Platform::Douyin, "r1", "p1"),
        r#"{"parent_id":"p1","platform":"douyin","room_id":"r1"}"#
    );
    assert_eq!(whole_clip_failure("x"), "Failed to generate whole clip: x");
    assert!(recording_is_empty(0));
    assert!(!recording_is_empty(3));
    assert!(restart_after_guest_refresh(&vec![Platform::Huya, Platform::TikTok], Platform::TikTok));
    assert!(!restart_after_guest_refresh(&vec![], Platform::TikTok));
}

#[test]
fn hls_requests() {
    let r = parse_hls_request("tiktok/12/34/playlist.m3u8?start=10&end=20").unwrap();
    assert_eq!(r.platform, Platform::TikTok);
    assert_eq!((r.room_id.as_str(), r.live_id.as_str()), ("12", "34"));
    assert_eq!(r.range, Some((10, 20)));
    assert!(r.playlist);
    let s = parse_hls_request("douyin/1/2/seg%7C3.ts").unwrap();
    assert!(!s.playlist);
    assert_eq!(s.range, None);
    assert_eq!(s.segment_path, "douyin/1/2/seg|3.ts");
    let nested = parse_hls_request("huya/1/2/a/playlist.m3u8").unwrap();
    assert!(nested.playlist);
    match parse_hls_request("tiktok/1") {
        Err(RecorderManagerError::HLSError { err }) => assert_eq!(err, "Invalid hls path"),
        _ => panic!("expected an error"),
    }
    match parse_hls_request("nope/1/2/x") {
        Err(RecorderManagerError::InvalidPlatformType { platform }) => assert_eq!(platform, "nope"),
        _ => panic!("expected an error"),
    }
    assert!(hls_request_readable("tiktok/1/2/x?start=5"));
    assert!(!hls_request_readable("tiktok/1/2/x?start=five"));
    assert!(!hls_request_readable("tiktok/1/2/x?end"));
    assert!(hls_request_readable("tiktok/1?start=five"));
}

#[test]
fn chat_timing() {
    let v = vec![d(1000, "a"), d(5000, "b"), d(12000, "c")];
    let rel = relative_danmus(v, 1000, 2);
    assert_eq!(times(&rel), vec![-2000, 2000, 9000]);
    let in_range = filter_danmus_in_range(rel, 1000, Some(3000), 500);
    assert_eq!(times(&in_range), vec![1500]);
    assert_eq!(in_range[0].content, "b");
    let all = filter_danmus_in_range(vec![d(1, "x"), d(-5, "y")], 1, None, 0);
    assert_eq!(times(&all), vec![0, -6]);
    assert_eq!(range_anchors(&vec![1000, 2500, 99]), vec![0, 1000, 3500]);
    assert_eq!(times(&archive_danmus(vec![d(5, "a"), d(20, "b")], 10)), vec![10]);
    assert_eq!(times(&shift_danmus(vec![d(5, "a")], 3)), vec![8]);
}

#[test]
fn reload_cooldowns() {
    assert_eq!(reload_cooldown_for(Platform::Kuaishou), 15000);
    assert_eq!(reload_cooldown_for(Platform::TikTok), 3000);
    let mut c = ReloadCooldowns::new();
    assert_eq!(c.check_reload_cooldown(Platform::TikTok, "1", 10_000), None);
    assert_eq!(c.check_reload_cooldown(Platform::TikTok, "1", 11_000), Some(2000));
    assert_eq!(c.check_reload_cooldown(Platform::TikTok, "1", 13_000), None);
}

#[test]
fn kuaishou_reload_cooldown_and_pruning_by_shorter_checks() {
    let mut c = ReloadCooldowns::new();
    assert_eq!(c.check_reload_cooldown(Platform::Kuaishou, "7", 0), None);
    assert_eq!(c.check_reload_cooldown(Platform::Kuaishou, "7", 10_000), Some(5000));
    assert_eq!(c.check_reload_cooldown(Platform::Kuaishou, "7", 15_000), None);
    // A check under the 3 s cooldown drops older Kuaishou reloads too.
    assert_eq!(c.check_reload_cooldown(Platform::TikTok, "1", 20_000), None);
    assert_eq!(c.check_reload_cooldown(Platform::Kuaishou, "7", 25_000), None);
}

#[test]
fn notices_and_covers() {
    assert_eq!(live_start_notice("U", "T"), "U 开启了直播：T");
    assert_eq!(live_end_notice("U", "T"), "U 结束了直播：T");
    assert_eq!(record_cover_path("tiktok", "1", "2", "http://c"), Some("tiktok/1/2/cover.jpg".to_string()));
    assert_eq!(record_cover_path("tiktok", "1", "2", ""), None);
    assert_eq!(RecorderManagerError::EmptyPlaylist.message(), "Empty playlist");
}
