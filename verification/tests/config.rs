use bsr_core::clip_names::{ClipRange, ClipRangeParams};
use bsr_core::config::{cache_path_move, check_cache_path_move};
use bsr_core::config::{
    default_auto_generate_config, default_douyin_passport, default_tiktok_feed, Config, EnvAction,
};

fn config() -> Config {
    Config {
        cache: "/data/cache".to_string(),
        output: "/data/output".to_string(),
        http_proxy: String::new(),
        https_proxy: String::new(),
        live_start_notify: true,
        live_end_notify: true,
        clip_notify: true,
        post_notify: true,
        bilibili_post_enabled: false,
        auto_subtitle: false,
        subtitle_generator_type: "whisper".to_string(),
        whisper_model: String::new(),
        whisper_prompt: String::new(),
        openai_api_endpoint: String::new(),
        openai_api_key: String::new(),
        clip_name_format: "[{room_id}][{live_id}]{title}.mp4".to_string(),
        auto_generate: default_auto_generate_config(),
        status_check_interval: 30,
        record_protocol_preference: "hls".to_string(),
        config_path: String::new(),
        whisper_language: "auto".to_string(),
        webhook_url: String::new(),
        powerlive_key: String::new(),
        reverse_generate_path: String::new(),
        douyin_passport: default_douyin_passport(),
        guest_accounts: Vec::new(),
        use_guest_accounts: true,
        login_accounts: Vec::new(),
        use_login_accounts: true,
        kuaishou_enable_follow_list_fallback: false,
        kuaishou_enable_public_page_fallback: false,
        tiktok_feed: default_tiktok_feed(),
        kuaishou_ws_token: String::new(),
        kuaishou_ws_urls: String::new(),
        kuaishou_ws_updated_at: 0,
        kuaishou_danmu_cookie: String::new(),
    }
}

fn pairs(actions: &[EnvAction]) -> Vec<(String, Option<String>)> {
    actions
        .iter()
        .map(|a| match a {
            EnvAction::Assign { key, value } => (key.clone(), Some(value.clone())),
            EnvAction::Unset { key } => (key.clone(), None),
        })
        .collect()
}

#[test]
fn tiktok_proxy_variable_follows_the_environment() {
    let c = config();
    let found = c.apply_proxy_env(&vec![None, Some("  ".to_string()), Some("127.0.0.1:7890".to_string()), None, None, None]);
    assert_eq!(pairs(&found), vec![("TIKTOK_PROXY_URL".to_string(), Some("http://127.0.0.1:7890".to_string()))]);
    let none = c.apply_proxy_env(&vec![None, None, None, None, None, None]);
    assert_eq!(pairs(&none), vec![("TIKTOK_PROXY_URL".to_string(), None)]);
}

#[test]
fn network_settings_become_proxy_variables() {
    let mut c = config();
    let actions = c.set_network_config(" http://p:1 ", "");
    assert_eq!(c.http_proxy, "http://p:1");
    assert_eq!(c.https_proxy, "");
    assert_eq!(
        pairs(&actions),
        vec![
            ("http_proxy".to_string(), Some("http://p:1".to_string())),
            ("HTTP_PROXY".to_string(), Some("http://p:1".to_string())),
            ("https_proxy".to_string(), Some("http://p:1".to_string())),
            ("HTTPS_PROXY".to_string(), Some("http://p:1".to_string())),
        ]
    );
    assert_eq!(pairs(&c.apply_network_env()), pairs(&actions));
    let protocol = c.apply_record_protocol_env();
    assert_eq!(
        pairs(&protocol),
        vec![
            ("BSR_KUAISHOU_PREFER_PROTOCOL".to_string(), Some("hls".to_string())),
            ("BSR_TIKTOK_PREFER_PROTOCOL".to_string(), Some("hls".to_string())),
        ]
    );
}

#[test]
fn blank_storage_paths_get_the_defaults() {
    let mut c = config();
    c.cache = "  ".to_string();
    let changed = c.normalize_storage_paths("/default/cache", "/default/output");
    assert!(changed);
    assert_eq!(c.cache, "/default/cache");
    assert_eq!(c.output, "/data/output");
    assert!(!c.normalize_account_switches());
}

#[test]
fn clip_path_from_clip_parameters() {
    let mut c = config();
    c.output = "/out".to_string();
    c.clip_name_format = "{platform}-{room_id}-{title}-{x}-{y}.mp4".to_string();
    let mut params = ClipRangeParams {
        title: "a b!c".to_string(),
        note: String::new(),
        cover: String::new(),
        platform: "tiktok".to_string(),
        room_id: "42".to_string(),
        live_id: "l".to_string(),
        ranges: Vec::new(),
        danmu: false,
        local_offset: 0,
        fix_encoding: false,
        transition: None,
    };
    let sep = std::path::MAIN_SEPARATOR;
    assert_eq!(c.generate_clip_name(&params, "2024-01-01_00-00-00", "0"), format!("/out{sep}tiktok-42-abc-0-0.mp4"));
    params.ranges = vec![
        ClipRange { start: "1.5".to_string(), end: "3".to_string() },
        ClipRange { start: "10".to_string(), end: "12.25".to_string() },
    ];
    assert_eq!(c.generate_clip_name(&params, "t", "3.75"), format!("/out{sep}tiktok-42-abc-1.5-12.25.mp4"));
}

#[test]
fn cache_path_moves() {
    assert_eq!(check_cache_path_move("/data/cache", "/data/cache"), Ok(false));
    assert_eq!(
        check_cache_path_move("/data/cache", "/data/cache/new"),
        Err("New cache path cannot be under old cache path".to_string())
    );
    assert_eq!(check_cache_path_move("/data/cache", "/data/cache2"), Ok(true));
    assert_eq!(cache_path_move("/a", "/b", true), Err("New cache path cannot be under old cache path".to_string()));
    assert_eq!(cache_path_move("/a", "/b", false), Ok(true));
}

#[test]
fn relative_storage_paths_get_the_defaults() {
    let mut c = config();
    c.output = "clips/out".to_string();
    assert!(c.normalize_storage_paths("/default/cache", "/default/output"));
    assert_eq!(c.cache, "/data/cache");
    assert_eq!(c.output, "/default/output");
}
