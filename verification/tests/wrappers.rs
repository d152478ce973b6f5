use bsr_core::account_rows::Platform;
use bsr_core::clip_names::{clip_title, generate_clip_name, ClipNameParts};
use bsr_core::ids::md5_cookie_id;
use bsr_core::json::{parse_json, JsonValue};
use bsr_core::manager::whole_clip_task_payload;
use bsr_core::tiktok_data::decode_json_string;
use bsr_core::tiktok_page::{extract_m3u8_from_html, extract_script_json, extract_state_value};

#[test]
fn clip_titles_keep_letters_and_numbers() {
    assert_eq!(clip_title("Live #1: 直播, ok!"), "Live1直播ok");
}

#[test]
fn clip_names_are_safe_file_names() {
    let parts = ClipNameParts {
        title: "a b".to_string(),
        platform: "tiktok".to_string(),
        room_id: "r/1".to_string(),
        live_id: "9".to_string(),
        note: "n".to_string(),
        x: "0".to_string(),
        y: "5".to_string(),
        created_at: "t".to_string(),
        length: "5".to_string(),
    };
    assert_eq!(generate_clip_name("{title}|{room_id}?{length}.mp4", &parts), "abr15.mp4");
}

#[test]
fn md5_ids_are_lowercase_hex() {
    assert_eq!(md5_cookie_id("abc"), "cookie_900150983cd24fb0d6963f7d28e17f72");
}

#[test]
fn page_state_and_playlist_are_found() {
    let html = "<html><script id=\"SIGI_STATE\" type=\"application/json\">{\"LiveRoom\":{\"x\":1}}</script></html>";
    assert_eq!(
        extract_script_json(html, "SIGI_STATE"),
        Some("{\"LiveRoom\":{\"x\":1}}".to_string())
    );
    let state = extract_state_value(html).expect("state");
    assert!(matches!(state, JsonValue::Object(ref m) if m.len() == 1 && m[0].0 == "LiveRoom"));
    // the pattern wants a backslash and one more character before `m3u8`
    let page = r#"var u = "https://pullcdn.com/live\.m3u8?q=1";"#;
    assert_eq!(
        extract_m3u8_from_html(page),
        Some(r"https://pullcdn.com/live\.m3u8?q=1".to_string())
    );
    assert_eq!(extract_m3u8_from_html(r#"u = "https://pullcdn.com/live/a.m3u8";"#), None);
}

#[test]
fn json_strings_and_documents_are_read() {
    assert_eq!(decode_json_string("a\\u0026b\\n"), Some("a&b\n".to_string()));
    assert!(parse_json("{\"a\": [1, 2]}").is_some());
    assert!(parse_json("{\"a\": ").is_none());
    assert_eq!(
        whole_clip_task_payload(Platform::Douyin, "r1", "p9"),
        "{\"parent_id\":\"p9\",\"platform\":\"douyin\",\"room_id\":\"r1\"}"
    );
}

#[test]
fn clip_name_without_unsafe_characters_is_kept_whole() {
    let parts = ClipNameParts {
        title: "a b!c".to_string(),
        platform: "tiktok".to_string(),
        room_id: "42".to_string(),
        live_id: "l".to_string(),
        note: String::new(),
        x: "0".to_string(),
        y: "0".to_string(),
        created_at: String::new(),
        length: "0".to_string(),
    };
    assert_eq!(
        generate_clip_name("{platform}-{room_id}-{title}-{x}-{y}.mp4", &parts),
        "tiktok-42-abc-0-0.mp4"
    );
}
