//! The application configuration: its fields and their defaults, the
//! setters, what loading migrates, the accounts file, the proxy setting and
//! the environment variables the configuration stands for.
use vstd::prelude::*;
use crate::cookies::{first_some, is_compare_form, normalize_cookie_string_for_compare};
use crate::cookies::{strip_prefix, strip_prefix_chars};
use crate::text::{
    chars_of, contains, contains_chars, has_char, is_ws, lemma_split_char_pieces,
    lemma_split_char_prefix, lemma_split_char_single, lemma_trim_end_after, lemma_trim_fixed,
    lemma_trim_trim, occurs_at, split_char, split_chars, starts_with, string_of, to_string_of, trim,
    trim_chars, trim_end, trim_start, views,
};

verus! {

#[derive(Debug)]
/// What is generated automatically after a live ends.
pub struct AutoGenerateConfig {
    pub enabled: bool,
    pub encode_danmu: bool,
    pub delete_cache_after_clip: bool,
}

#[derive(Debug)]
/// An account listed in the accounts file.
pub struct DefaultAccountConfig {
    pub platform: String,
    pub cookies: String,
    pub extra: String,
}

#[derive(Debug)]
/// The accounts file: guest and login accounts.
pub struct AccountsFile {
    pub guest_accounts: Vec<DefaultAccountConfig>,
    pub login_accounts: Vec<DefaultAccountConfig>,
}

#[derive(Debug)]
/// The application configuration (the danmu subtitle options, which hold
/// floating-point values, and the shared interval cell live beside it in the
/// application).
pub struct Config {
    pub cache: String,
    pub output: String,
    pub http_proxy: String,
    pub https_proxy: String,
    pub live_start_notify: bool,
    pub live_end_notify: bool,
    pub clip_notify: bool,
    pub post_notify: bool,
    pub bilibili_post_enabled: bool,
    pub auto_subtitle: bool,
    pub subtitle_generator_type: String,
    pub whisper_model: String,
    pub whisper_prompt: String,
    pub openai_api_endpoint: String,
    pub openai_api_key: String,
    pub clip_name_format: String,
    pub auto_generate: AutoGenerateConfig,
    pub status_check_interval: u64,
    pub record_protocol_preference: String,
    pub config_path: String,
    pub whisper_language: String,
    pub webhook_url: String,
    pub powerlive_key: String,
    pub reverse_generate_path: String,
    pub douyin_passport: DouyinPassportConfig,
    pub guest_accounts: Vec<DefaultAccountConfig>,
    pub use_guest_accounts: bool,
    pub login_accounts: Vec<DefaultAccountConfig>,
    pub use_login_accounts: bool,
    pub kuaishou_enable_follow_list_fallback: bool,
    pub kuaishou_enable_public_page_fallback: bool,
    pub tiktok_feed: TikTokFeedConfig,
    pub kuaishou_ws_token: String,
    pub kuaishou_ws_urls: String,
    pub kuaishou_ws_updated_at: i64,
    pub kuaishou_danmu_cookie: String,
}

// ---------------------------------------------------------------------------
// Defaults
// ---------------------------------------------------------------------------

/// Subtitles are not generated automatically by default.
pub fn default_auto_subtitle() -> (b: bool)
    ensures
        !b,
{
    false
}

/// Posting to Bilibili is off by default.
pub fn default_bilibili_post_enabled() -> (b: bool)
    ensures
        !b,
{
    false
}

/// Subtitles are generated with whisper by default.
pub fn default_subtitle_generator_type() -> (s: String)
    ensures
        s@ == "whisper"@,
{
    to_string_of("whisper")
}

/// The default whisper model file.
pub fn default_whisper_model() -> (s: String)
    ensures
        s@ == "whisper_model.bin"@,
{
    to_string_of("whisper_model.bin")
}

/// The default whisper prompt.
pub fn default_whisper_prompt() -> (s: String)
    ensures
        s@ == "这是一段中文 你们好"@,
{
    to_string_of("这是一段中文 你们好")
}

/// The default OpenAI endpoint.
pub fn default_openai_api_endpoint() -> (s: String)
    ensures
        s@ == "https://api.openai.com/v1"@,
{
    to_string_of("https://api.openai.com/v1")
}

/// No OpenAI key by default.
pub fn default_openai_api_key() -> (s: String)
    ensures
        s@.len() == 0,
{
    String::new()
}

/// The default clip file name pattern.
pub fn default_clip_name_format() -> (s: String)
    ensures
        s@ == "[{room_id}][{live_id}][{title}][{created_at}].mp4"@,
{
    to_string_of("[{room_id}][{live_id}][{title}][{created_at}].mp4")
}

/// Nothing is generated automatically by default.
pub fn default_auto_generate_config() -> (c: AutoGenerateConfig)
    ensures
        !c.enabled && !c.encode_danmu && !c.delete_cache_after_clip,
{
    AutoGenerateConfig { enabled: false, encode_danmu: false, delete_cache_after_clip: false }
}

/// Live status is checked every 15 seconds by default.
pub fn default_status_check_interval() -> (n: u64)
    ensures
        n == 15,
{
    15
}

/// HLS is the preferred recording protocol by default.
pub fn default_record_protocol_preference() -> (s: String)
    ensures
        s@ == "hls"@,
{
    to_string_of("hls")
}

/// Whisper detects the language by default.
pub fn default_whisper_language() -> (s: String)
    ensures
        s@ == "auto"@,
{
    to_string_of("auto")
}

/// No webhook by default.
pub fn default_webhook_url() -> (s: String)
    ensures
        s@.len() == 0,
{
    String::new()
}

/// No PowerLive key by default.
pub fn default_powerlive_key() -> (s: String)
    ensures
        s@.len() == 0,
{
    String::new()
}

/// No reverse-generation directory by default.
pub fn default_reverse_generate_path() -> (s: String)
    ensures
        s@.len() == 0,
{
    String::new()
}

/// No guest accounts by default.
pub fn default_guest_accounts() -> (v: Vec<DefaultAccountConfig>)
    ensures
        v@.len() == 0,
{
    Vec::new()
}

/// Guest accounts are used by default.
pub fn default_use_guest_accounts() -> (b: bool)
    ensures
        b,
{
    true
}

/// No login accounts by default.
pub fn default_login_accounts() -> (v: Vec<DefaultAccountConfig>)
    ensures
        v@.len() == 0,
{
    Vec::new()
}

/// Login accounts are used by default.
pub fn default_use_login_accounts() -> (b: bool)
    ensures
        b,
{
    true
}

/// Kuaishou's follow-list fallback is off by default.
pub fn default_kuaishou_enable_follow_list_fallback() -> (b: bool)
    ensures
        !b,
{
    false
}

/// Kuaishou's public-page fallback is off by default.
pub fn default_kuaishou_enable_public_page_fallback() -> (b: bool)
    ensures
        !b,
{
    false
}

/// No Kuaishou websocket token by default.
pub fn default_kuaishou_ws_token() -> (s: String)
    ensures
        s@.len() == 0,
{
    String::new()
}

/// No Kuaishou websocket URLs by default.
pub fn default_kuaishou_ws_urls() -> (s: String)
    ensures
        s@.len() == 0,
{
    String::new()
}

/// The Kuaishou websocket settings were never updated by default.
pub fn default_kuaishou_ws_updated_at() -> (n: i64)
    ensures
        n == 0,
{
    0
}

/// No Kuaishou danmu cookie by default.
pub fn default_kuaishou_danmu_cookie() -> (s: String)
    ensures
        s@.len() == 0,
{
    String::new()
}

/// No HTTP proxy by default.
pub fn default_http_proxy() -> (s: String)
    ensures
        s@.len() == 0,
{
    String::new()
}

/// No HTTPS proxy by default.
pub fn default_https_proxy() -> (s: String)
    ensures
        s@.len() == 0,
{
    String::new()
}

#[derive(Debug)]
/// The request parameters of Douyin's QR passport login.
pub struct DouyinPassportConfig {
    pub provider_url: String,
    pub sign: String,
    pub qs: String,
    pub passport_jssdk_version: String,
    pub passport_jssdk_type: String,
    pub is_from_ttaccountsdk: String,
    pub aid: String,
    pub language: String,
    pub account_app_language: String,
    pub next: String,
    pub need_short_url: String,
    pub need_logo: String,
    pub is_new_login: String,
    pub is_from_iesaccountsaas: String,
    pub account_sdk_source: String,
    pub account_sdk_source_info: String,
    pub service: String,
    pub p_ui: String,
    pub p_ca: String,
    pub p_ca_real: String,
    pub p_js_v: String,
    pub p_js_t: String,
    pub p_zt: String,
    pub p_ver: String,
    pub p_ver_real: String,
    pub request_host: String,
    pub p_bd: String,
    pub p_ts: String,
    pub p_no: String,
    pub biz_trace_id: String,
    pub device_platform: String,
    pub verify_fp: String,
    pub fp: String,
    pub ms_token: String,
    pub a_bogus: String,
    pub x_tt_passport_csrf_token: String,
    pub x_tt_passport_aid_sign: String,
    pub x_tt_passport_trace_id: String,
    pub x_tt_passport_verify_portrait: String,
    pub x_tt_session_dtrait: String,
    pub qr_origin: String,
    pub qr_referer: String,
}

#[derive(Debug)]
/// Douyin QR-login values read from the reverse-generation directory; a blank value overrides nothing.
pub struct DouyinQrLoginOverrides {
    pub verify_fp: String,
    pub fp: String,
    pub ms_token: String,
    pub a_bogus: String,
    pub sign: String,
    pub qs: String,
    pub user_agent: String,
    pub device_platform: String,
    pub qr_origin: String,
    pub qr_referer: String,
    pub params_raw: String,
    pub params_raw_status: String,
    pub challenge_params_raw: String,
    pub challenge_body: String,
    pub challenge_content_type: String,
    pub x_tt_passport_csrf_token: String,
    pub x_tt_passport_aid_sign: String,
    pub x_tt_passport_trace_id: String,
    pub x_tt_passport_verify_portrait: String,
    pub x_tt_session_dtrait: String,
}

#[derive(Debug)]
/// The QR-login override file.
pub struct QrLoginConfig {
    pub douyin: DouyinQrLoginOverrides,
}

#[derive(Debug)]
/// The TikTok feed request settings.
pub struct TikTokFeedConfig {
    pub url: String,
    pub url_template: String,
    pub x_gnarly: String,
    pub x_bogus: String,
    pub user_agent: String,
    pub device_id: String,
    pub verify_fp: String,
    pub ms_token: String,
    pub root_referer: String,
}

/// The built-in Douyin passport parameters.
pub fn default_douyin_passport() -> (r: DouyinPassportConfig)
    ensures
        r.provider_url@.len() == 0,
        r.sign@.len() == 0,
        r.qs@.len() == 0,
        r.passport_jssdk_version@ == "3.1.3"@,
        r.passport_jssdk_type@ == "normal"@,
        r.is_from_ttaccountsdk@ == "1"@,
        r.aid@ == "6383"@,
        r.language@ == "zh"@,
        r.account_app_language@ == "zh-CN"@,
        r.next@ == "https://live.douyin.com"@,
        r.need_short_url@ == "true"@,
        r.need_logo@ == "false"@,
        r.is_new_login@ == "1"@,
        r.is_from_iesaccountsaas@ == "1"@,
        r.account_sdk_source@ == "web"@,
        r.account_sdk_source_info@.len() == 0,
        r.service@ == "https://live.douyin.com"@,
        r.p_ui@ == "2.1.4"@,
        r.p_ca@ == "4.0.17"@,
        r.p_ca_real@ == "1.0.0.729"@,
        r.p_js_v@ == "3.1.3"@,
        r.p_js_t@ == "pro"@,
        r.p_zt@ == "3.3.10"@,
        r.p_ver@ == "1.1.3"@,
        r.p_ver_real@ == "0"@,
        r.request_host@ == "https://live.douyin.com"@,
        r.p_bd@ == "1.0.1.19-fix.01"@,
        r.p_ts@.len() == 0,
        r.p_no@.len() == 0,
        r.biz_trace_id@.len() == 0,
        r.device_platform@ == "web_app"@,
        r.verify_fp@.len() == 0,
        r.fp@.len() == 0,
        r.ms_token@.len() == 0,
        r.a_bogus@.len() == 0,
        r.x_tt_passport_csrf_token@.len() == 0,
        r.x_tt_passport_aid_sign@.len() == 0,
        r.x_tt_passport_trace_id@.len() == 0,
        r.x_tt_passport_verify_portrait@.len() == 0,
        r.x_tt_session_dtrait@.len() == 0,
        r.qr_origin@ == "https://live.douyin.com"@,
        r.qr_referer@ == "https://live.douyin.com/"@,
{
    DouyinPassportConfig {
        provider_url: String::new(),
        sign: String::new(),
        qs: String::new(),
        passport_jssdk_version: to_string_of("3.1.3"),
        passport_jssdk_type: to_string_of("normal"),
        is_from_ttaccountsdk: to_string_of("1"),
        aid: to_string_of("6383"),
        language: to_string_of("zh"),
        account_app_language: to_string_of("zh-CN"),
        next: to_string_of("https://live.douyin.com"),
        need_short_url: to_string_of("true"),
        need_logo: to_string_of("false"),
        is_new_login: to_string_of("1"),
        is_from_iesaccountsaas: to_string_of("1"),
        account_sdk_source: to_string_of("web"),
        account_sdk_source_info: String::new(),
        service: to_string_of("https://live.douyin.com"),
        p_ui: to_string_of("2.1.4"),
        p_ca: to_string_of("4.0.17"),
        p_ca_real: to_string_of("1.0.0.729"),
        p_js_v: to_string_of("3.1.3"),
        p_js_t: to_string_of("pro"),
        p_zt: to_string_of("3.3.10"),
        p_ver: to_string_of("1.1.3"),
        p_ver_real: to_string_of("0"),
        request_host: to_string_of("https://live.douyin.com"),
        p_bd: to_string_of("1.0.1.19-fix.01"),
        p_ts: String::new(),
        p_no: String::new(),
        biz_trace_id: String::new(),
        device_platform: to_string_of("web_app"),
        verify_fp: String::new(),
        fp: String::new(),
        ms_token: String::new(),
        a_bogus: String::new(),
        x_tt_passport_csrf_token: String::new(),
        x_tt_passport_aid_sign: String::new(),
        x_tt_passport_trace_id: String::new(),
        x_tt_passport_verify_portrait: String::new(),
        x_tt_session_dtrait: String::new(),
        qr_origin: to_string_of("https://live.douyin.com"),
        qr_referer: to_string_of("https://live.douyin.com/"),
    }
}

/// An empty TikTok feed configuration.
pub fn default_tiktok_feed() -> (r: TikTokFeedConfig)
    ensures
        r.url@.len() == 0,
        r.url_template@.len() == 0,
        r.x_gnarly@.len() == 0,
        r.x_bogus@.len() == 0,
        r.user_agent@.len() == 0,
        r.device_id@.len() == 0,
        r.verify_fp@.len() == 0,
        r.ms_token@.len() == 0,
        r.root_referer@.len() == 0,
{
    TikTokFeedConfig {
        url: String::new(),
        url_template: String::new(),
        x_gnarly: String::new(),
        x_bogus: String::new(),
        user_agent: String::new(),
        device_id: String::new(),
        verify_fp: String::new(),
        ms_token: String::new(),
        root_referer: String::new(),
    }
}

/// Empty Douyin QR-login overrides (serde's default of the file).
pub fn default_douyin_qr_login_overrides() -> (r: DouyinQrLoginOverrides)
    ensures
        r.verify_fp@.len() == 0,
        r.fp@.len() == 0,
        r.ms_token@.len() == 0,
        r.a_bogus@.len() == 0,
        r.sign@.len() == 0,
        r.qs@.len() == 0,
        r.user_agent@.len() == 0,
        r.device_platform@.len() == 0,
        r.qr_origin@.len() == 0,
        r.qr_referer@.len() == 0,
        r.params_raw@.len() == 0,
        r.params_raw_status@.len() == 0,
        r.challenge_params_raw@.len() == 0,
        r.challenge_body@.len() == 0,
        r.challenge_content_type@.len() == 0,
        r.x_tt_passport_csrf_token@.len() == 0,
        r.x_tt_passport_aid_sign@.len() == 0,
        r.x_tt_passport_trace_id@.len() == 0,
        r.x_tt_passport_verify_portrait@.len() == 0,
        r.x_tt_session_dtrait@.len() == 0,
{
    DouyinQrLoginOverrides {
        verify_fp: String::new(),
        fp: String::new(),
        ms_token: String::new(),
        a_bogus: String::new(),
        sign: String::new(),
        qs: String::new(),
        user_agent: String::new(),
        device_platform: String::new(),
        qr_origin: String::new(),
        qr_referer: String::new(),
        params_raw: String::new(),
        params_raw_status: String::new(),
        challenge_params_raw: String::new(),
        challenge_body: String::new(),
        challenge_content_type: String::new(),
        x_tt_passport_csrf_token: String::new(),
        x_tt_passport_aid_sign: String::new(),
        x_tt_passport_trace_id: String::new(),
        x_tt_passport_verify_portrait: String::new(),
        x_tt_session_dtrait: String::new(),
    }
}


// ---------------------------------------------------------------------------
// Proxy setting
// ---------------------------------------------------------------------------

/// The state of the scan for a protocol entry in a proxy setting such as
/// `http=host:1;https=host:2`: the value found so far, and whether it came
/// from an `https=` entry (which ends the scan).
pub open spec fn proxy_entry_scan(entries: Seq<Seq<char>>) -> (Option<Seq<char>>, bool)
    decreases entries.len(),
{
    if entries.len() == 0 {
        (None, false)
    } else {
        let prev = proxy_entry_scan(entries.drop_last());
        if prev.1 {
            prev
        } else {
            let e = trim(entries.last());
            match strip_prefix(e, "https="@) {
                Some(v) => (Some(trim(v)), true),
                None => match strip_prefix(e, "http="@) {
                    Some(v) => (Some(trim(v)), false),
                    None => prev,
                },
            }
        }
    }
}

/// A proxy setting as a URL: blank gives none; a list of `proto=host`
/// entries gives the first `https=` entry, else the last `http=` entry; a
/// value without `://` gets `http://` in front.
pub open spec fn proxy_url(raw: Seq<char>) -> Option<Seq<char>> {
    let t = trim(raw);
    if t.len() == 0 {
        None
    } else {
        let value = if has_eq(t) {
            match proxy_entry_scan(split_char(t, ';')).0 {
                Some(v) => v,
                None => t,
            }
        } else {
            t
        };
        if contains(value, "://"@) {
            Some(value)
        } else {
            Some("http://"@ + value)
        }
    }
}

/// `s` holds `=`.
pub open spec fn has_eq(s: Seq<char>) -> bool {
    exists|i: int| 0 <= i < s.len() && s[i] == '='
}

/// An entry of a proxy setting that names a protocol (`https=` or `http=`).
pub open spec fn proxy_entry_matches(e: Seq<char>) -> bool {
    strip_prefix(trim(e), "https="@) is Some || strip_prefix(trim(e), "http="@) is Some
}

/// The scan finds nothing exactly when no entry names a protocol; a scan
/// ended by `https=` has found a value.
proof fn lemma_scan_none(es: Seq<Seq<char>>)
    ensures
        proxy_entry_scan(es).0 is None <==> forall|i: int| 0 <= i < es.len() ==> !proxy_entry_matches(#[trigger] es[i]),
        proxy_entry_scan(es).1 ==> proxy_entry_scan(es).0 is Some,
    decreases es.len(),
{
    if es.len() > 0 {
        let es0 = es.drop_last();
        lemma_scan_none(es0);
        let prev = proxy_entry_scan(es0);
        assert(es[es.len() - 1] == es.last());
        if proxy_entry_scan(es).0 is None {
            assert forall|i: int| 0 <= i < es.len() implies !proxy_entry_matches(#[trigger] es[i]) by {
                if i < es.len() - 1 {
                    assert(es[i] == es0[i]);
                }
            }
        } else if prev.0 is Some && (prev.1 || !proxy_entry_matches(es.last())) {
            let i = choose|i: int| 0 <= i < es0.len() && proxy_entry_matches(#[trigger] es0[i]);
            assert(es[i] == es0[i]);
        }
    }
}

/// A value the scan finds is trimmed and, when no entry holds `;`, holds
/// none either.
proof fn lemma_scan_value(es: Seq<Seq<char>>)
    requires
        forall|i: int| 0 <= i < es.len() ==> !has_char(#[trigger] es[i], ';'),
    ensures
        proxy_entry_scan(es).0 matches Some(w) ==> trim(w) == w && !has_char(w, ';'),
    decreases es.len(),
{
    if es.len() > 0 {
        let es0 = es.drop_last();
        assert forall|i: int| 0 <= i < es0.len() implies !has_char(#[trigger] es0[i], ';') by {
            assert(es0[i] == es[i]);
        }
        lemma_scan_value(es0);
        assert(es[es.len() - 1] == es.last());
        let e = trim(es.last());
        lemma_trim_trim(es.last());
        assert(!has_char(e, ';'));
        assert forall|k: int| 0 <= k <= e.len() implies !has_char(#[trigger] e.skip(k), ';') by {
            if has_char(e.skip(k), ';') {
                let m = choose|m: int| 0 <= m < e.skip(k).len() && e.skip(k)[m] == ';';
                assert(e[k + m] == ';');
            }
        }
        reveal_strlit("https=");
        reveal_strlit("http=");
        if starts_with(e, "https="@) {
            assert(strip_prefix(e, "https="@) == Some(e.skip(6)));
            lemma_trim_trim(e.skip(6));
        }
        if starts_with(e, "http="@) {
            assert(strip_prefix(e, "http="@) == Some(e.skip(5)));
            lemma_trim_trim(e.skip(5));
        }
    }
}

/// `http://` and a trimmed text whose pieces after the first name no
/// protocol give a proxy setting that comes back unchanged.
proof fn lemma_http_prefixed(x: Seq<char>)
    requires
        trim(x) == x,
        !has_eq(x) || forall|i: int| 1 <= i < split_char(x, ';').len() ==> !proxy_entry_matches(#[trigger] split_char(x, ';')[i]),
    ensures
        proxy_url("http://"@ + x) == Some("http://"@ + x),
{
    reveal_strlit("http://");
    reveal_strlit("://");
    reveal_strlit("http=");
    reveal_strlit("https=");
    let pre = "http://"@;
    let v = pre + x;
    lemma_trim_trim(x);
    assert(v[0] == 'h');
    if x.len() > 0 {
        assert(v.last() == x.last());
    } else {
        assert(v.last() == '/');
    }
    lemma_trim_fixed(v);
    assert(occurs_at(v, "://"@, 4)) by {
        assert(v.subrange(4, 7) =~= "://"@);
    }
    if has_eq(v) {
        assert(has_eq(x)) by {
            let i = choose|i: int| 0 <= i < v.len() && v[i] == '=';
            assert(i >= 7);
            assert(x[i - 7] == '=');
        }
        assert(!has_char(pre, ';'));
        lemma_split_char_prefix(pre, x, ';');
        crate::cookie_map::lemma_split_nonempty(x, ';');
        let es = split_char(x, ';');
        let es2 = split_char(v, ';');
        assert(es2[0] == pre + es[0]);
        assert(trim_start(pre + es[0]) == pre + es[0]);
        lemma_trim_end_after(pre, es[0]);
        let e0 = trim(es2[0]);
        assert(e0 == pre + trim_end(es[0]));
        assert(e0[4] == ':');
        assert(!starts_with(e0, "https="@)) by {
            if starts_with(e0, "https="@) {
                assert(e0.take(6)[4] == e0[4]);
            }
        }
        assert(!starts_with(e0, "http="@)) by {
            if starts_with(e0, "http="@) {
                assert(e0.take(5)[4] == e0[4]);
            }
        }
        assert forall|i: int| 0 <= i < es2.len() implies !proxy_entry_matches(#[trigger] es2[i]) by {
            if i > 0 {
                assert(es2[i] == es[i]);
            }
        }
        lemma_scan_none(es2);
    }
}

/// Every proxy URL that a setting gives holds `://`.
pub proof fn lemma_proxy_url_has_scheme(raw: Seq<char>, v: Seq<char>)
    requires
        proxy_url(raw) == Some(v),
    ensures
        contains(v, "://"@),
{
    reveal_strlit("http://");
    reveal_strlit("://");
    if !contains(v, "://"@) {
        let t = trim(raw);
        let value = if has_eq(t) {
            match proxy_entry_scan(split_char(t, ';')).0 {
                Some(w) => w,
                None => t,
            }
        } else {
            t
        };
        assert(v == "http://"@ + value);
        assert(occurs_at(v, "://"@, 4)) by {
            assert(v.subrange(4, 7) =~= "://"@);
        }
    }
}

/// A proxy URL that a setting gives, taken as a setting, gives itself back,
/// unless it starts with `http=` or `https=` (the setting
/// `https=https=h://x` gives `https=h://x`, which gives `h://x`).
pub proof fn lemma_proxy_url_fixed_point(raw: Seq<char>, v: Seq<char>)
    requires
        proxy_url(raw) == Some(v),
        !starts_with(v, "http="@),
        !starts_with(v, "https="@),
    ensures
        proxy_url(v) == Some(v),
{
    reveal_strlit("http://");
    reveal_strlit("://");
    let t = trim(raw);
    lemma_trim_trim(raw);
    let es = split_char(t, ';');
    let value = if has_eq(t) {
        match proxy_entry_scan(es).0 {
            Some(w) => w,
            None => t,
        }
    } else {
        t
    };
    if !has_eq(t) || proxy_entry_scan(es).0 is None {
        assert(value == t);
        if contains(t, "://"@) {
            assert(v == t);
            assert(trim(v) == trim(raw));
        } else {
            assert(v == "http://"@ + t);
            if has_eq(t) {
                lemma_scan_none(es);
            }
            lemma_http_prefixed(t);
        }
    } else {
        lemma_split_char_pieces(t, ';');
        lemma_scan_value(es);
        let w = value;
        assert(trim(w) == w && !has_char(w, ';'));
        lemma_split_char_single(w, ';');
        if contains(w, "://"@) {
            assert(v == w);
            let one = seq![w];
            assert(one.drop_last() =~= Seq::<Seq<char>>::empty());
            assert(one.last() == w);
            assert(proxy_entry_scan(one.drop_last()) == (None::<Seq<char>>, false));
            assert(strip_prefix(trim(w), "https="@) is None);
            assert(strip_prefix(trim(w), "http="@) is None);
            assert(proxy_entry_scan(one).0 is None);
            assert(split_char(trim(v), ';') == one);
            assert(proxy_url(v) == Some(v));
        } else {
            lemma_http_prefixed(w);
            assert(proxy_url(v) == Some(v));
        }
    }
}

/// The proxy URL of a setting (see `proxy_url`).
pub fn normalize_proxy_url(raw: &str) -> (r: Option<String>)
    ensures
        match r {
            Some(v) => proxy_url(raw@) == Some(v@),
            None => proxy_url(raw@) is None,
        },
{
    let rv = chars_of(raw);
    let t = trim_chars(rv.as_slice());
    if t.len() == 0 {
        return None;
    }
    let mut value = t.clone();
    if crate::text::has_char_chars(t.as_slice(), '=') {
        let entries = split_chars(t.as_slice(), ';');
        let https = chars_of("https=");
        let http = chars_of("http=");
        let ghost es = views(entries@);
        let mut selected: Option<Vec<char>> = None;
        let mut done = false;
        let mut i: usize = 0;
        assert(es.take(0) =~= Seq::<Seq<char>>::empty());
        while i < entries.len() && !done
            invariant
                i <= entries.len(),
                es == views(entries@),
                https@ == "https="@,
                http@ == "http="@,
                !done ==> proxy_entry_scan(es.take(i as int)) == (
                    match selected {
                        Some(v) => Some(v@),
                        None => None,
                    },
                    false,
                ),
                done ==> proxy_entry_scan(es) == (
                    match selected {
                        Some(v) => Some(v@),
                        None => None,
                    },
                    true,
                ),
            decreases entries.len() - i,
        {
            assert(es.take(i as int + 1).drop_last() =~= es.take(i as int));
            let e = trim_chars(entries[i].as_slice());
            match strip_prefix_chars(e.as_slice(), https.as_slice()) {
                Some(v) => {
                    selected = Some(trim_chars(v.as_slice()));
                    proof {
                        lemma_proxy_scan_done(es, i as int + 1);
                    }
                    done = true;
                },
                None => match strip_prefix_chars(e.as_slice(), http.as_slice()) {
                    Some(v) => {
                        selected = Some(trim_chars(v.as_slice()));
                    },
                    None => {},
                },
            }
            i = i + 1;
        }
        proof {
            if !done {
                assert(es.take(entries.len() as int) =~= es);
            }
        }
        match selected {
            Some(v) => {
                value = v;
            },
            None => {},
        }
    }
    let sep = chars_of("://");
    if contains_chars(value.as_slice(), sep.as_slice()) {
        Some(string_of(value.as_slice()))
    } else {
        let mut out = chars_of("http://");
        crate::text::push_all(&mut out, value.as_slice());
        Some(string_of(out.as_slice()))
    }
}

/// Once an `https=` entry is found, later entries change nothing.
pub proof fn lemma_proxy_scan_done(es: Seq<Seq<char>>, n: int)
    requires
        0 <= n <= es.len(),
        proxy_entry_scan(es.take(n)).1,
    ensures
        proxy_entry_scan(es) == proxy_entry_scan(es.take(n)),
    decreases es.len() - n,
{
    if n < es.len() {
        assert(es.take(n) =~= es.drop_last().take(n));
        lemma_proxy_scan_done(es.drop_last(), n);
    } else {
        assert(es.take(n) =~= es);
    }
}

/// The proxy found in the environment: the first of the values of
/// `HTTPS_PROXY`, `https_proxy`, `HTTP_PROXY`, `http_proxy`, `ALL_PROXY`,
/// `all_proxy` (in that order, as read by the caller) that gives a proxy URL.
pub fn detect_env_proxy(values: &Vec<Option<String>>) -> (r: Option<String>)
    ensures
        match r {
            Some(v) => first_some(env_proxy_candidates(values@)) == Some(v@),
            None => first_some(env_proxy_candidates(values@)) is None,
        },
{
    let ghost m = env_proxy_candidates(values@);
    let mut i: usize = 0;
    assert(m.take(0) =~= Seq::<Option<Seq<char>>>::empty());
    while i < values.len()
        invariant
            i <= values.len(),
            m == env_proxy_candidates(values@),
            first_some(m.take(i as int)) is None,
        decreases values.len() - i,
    {
        proof {
            crate::cookies::lemma_first_some_step(m, i as int);
        }
        match &values[i] {
            Some(v) => match normalize_proxy_url(v.as_str()) {
                Some(u) => {
                    return Some(u);
                },
                None => {},
            },
            None => {},
        }
        i = i + 1;
    }
    assert(m.take(values.len() as int) =~= m);
    None
}

/// The proxy URL each environment value gives.
pub open spec fn env_proxy_candidates(values: Seq<Option<String>>) -> Seq<Option<Seq<char>>> {
    values.map_values(
        |v: Option<String>|
            match v {
                Some(s) => proxy_url(s@),
                None => None,
            },
    )
}

// ---------------------------------------------------------------------------
// Environment variables
// ---------------------------------------------------------------------------

#[derive(Debug)]
/// A change to the process environment.
pub enum EnvAction {
    Assign { key: String, value: String },
    Unset { key: String },
}

/// An `EnvAction` as character sequences: the key and, for a set, the value.
pub open spec fn action_view(a: EnvAction) -> (Seq<char>, Option<Seq<char>>) {
    match a {
        EnvAction::Assign { key, value } => (key@, Some(value@)),
        EnvAction::Unset { key } => (key@, None),
    }
}

/// The views of a list of actions.
pub open spec fn actions_view(v: Seq<EnvAction>) -> Seq<(Seq<char>, Option<Seq<char>>)> {
    v.map_values(|a: EnvAction| action_view(a))
}

/// Appends the action setting (or, for `None`, removing) `key`.
pub(crate) fn push_action(out: &mut Vec<EnvAction>, key: &str, value: &Option<String>)
    ensures
        actions_view(final(out)@) == actions_view(old(out)@).push(
            (
                key@,
                match value {
                    Some(v) => Some(v@),
                    None => None,
                },
            ),
        ),
{
    let a = match value {
        Some(v) => EnvAction::Assign { key: to_string_of(key), value: v.clone() },
        None => EnvAction::Unset { key: to_string_of(key) },
    };
    out.push(a);
    assert(actions_view(out@) =~= actions_view(old(out)@).push(
        (
            key@,
            match value {
                Some(v) => Some(v@),
                None => None,
            },
        ),
    ));
}

/// `p` as an optional character sequence.
pub open spec fn opt_view(p: Option<String>) -> Option<Seq<char>> {
    match p {
        Some(s) => Some(s@),
        None => None,
    }
}

/// `a`, else `b`.
pub open spec fn or_else_seq(a: Option<Seq<char>>, b: Option<Seq<char>>) -> Option<Seq<char>> {
    match a {
        Some(x) => Some(x),
        None => b,
    }
}

/// The proxy variables of a proxy configuration: `http_proxy`/`HTTP_PROXY`
/// from the HTTP proxy, `https_proxy`/`HTTPS_PROXY` from the HTTPS proxy or
/// else the HTTP one; each set, or removed when there is no proxy.
pub open spec fn network_env(http: Seq<char>, https: Seq<char>) -> Seq<
    (Seq<char>, Option<Seq<char>>),
> {
    let h = proxy_url(http);
    let s = or_else_seq(proxy_url(https), h);
    seq![("http_proxy"@, h), ("HTTP_PROXY"@, h), ("https_proxy"@, s), ("HTTPS_PROXY"@, s)]
}

/// The environment changes of `network_env`.
pub fn network_env_actions(http_proxy: &str, https_proxy: &str) -> (r: Vec<EnvAction>)
    ensures
        actions_view(r@) == network_env(http_proxy@, https_proxy@),
{
    let h = normalize_proxy_url(http_proxy);
    let s = match normalize_proxy_url(https_proxy) {
        Some(v) => Some(v),
        None => match &h {
            Some(v) => Some(v.clone()),
            None => None,
        },
    };
    let mut out: Vec<EnvAction> = Vec::new();
    push_action(&mut out, "http_proxy", &h);
    push_action(&mut out, "HTTP_PROXY", &h);
    push_action(&mut out, "https_proxy", &s);
    push_action(&mut out, "HTTPS_PROXY", &s);
    assert(actions_view(out@) =~= network_env(http_proxy@, https_proxy@));
    out
}

/// `Some(trim(v))` when `v` is not blank.
pub open spec fn non_blank(v: Seq<char>) -> Option<Seq<char>> {
    if trim(v).len() == 0 {
        None
    } else {
        Some(trim(v))
    }
}

/// Exec `non_blank`.
pub fn non_blank_of(v: &str) -> (r: Option<String>)
    ensures
        opt_view(r) == non_blank(v@),
{
    let c = chars_of(v);
    let t = trim_chars(c.as_slice());
    if t.len() == 0 {
        None
    } else {
        Some(string_of(t.as_slice()))
    }
}

impl Config {
    /// Stores the trimmed proxy settings and returns the proxy variables
    /// they stand for (`network_env`).
    pub fn set_network_config(&mut self, http_proxy: &str, https_proxy: &str) -> (r: Vec<
        EnvAction,
    >)
        ensures
            final(self).http_proxy@ == trim(http_proxy@),
            final(self).https_proxy@ == trim(https_proxy@),
            *final(self) == (Config {
                http_proxy: final(self).http_proxy,
                https_proxy: final(self).https_proxy,
                ..*old(self)
            }),
            actions_view(r@) == network_env(trim(http_proxy@), trim(https_proxy@)),
    {
        let hc = chars_of(http_proxy);
        let sc = chars_of(https_proxy);
        let h = string_of(trim_chars(hc.as_slice()).as_slice());
        let s = string_of(trim_chars(sc.as_slice()).as_slice());
        let r = network_env_actions(h.as_str(), s.as_str());
        self.http_proxy = h;
        self.https_proxy = s;
        r
    }

    /// The proxy variables of the stored proxy settings (`network_env`).
    pub fn apply_network_env(&self) -> (r: Vec<EnvAction>)
        ensures
            actions_view(r@) == network_env(self.http_proxy@, self.https_proxy@),
    {
        network_env_actions(self.http_proxy.as_str(), self.https_proxy.as_str())
    }

    /// The TikTok proxy variable: `TIKTOK_PROXY_URL` set to the proxy found
    /// among the environment's proxy variables (`detect_env_proxy`, values
    /// given in its order), or removed when there is none.
    pub fn apply_proxy_env(&self, env_values: &Vec<Option<String>>) -> (r: Vec<EnvAction>)
        ensures
            actions_view(r@) == seq![
                (
                    "TIKTOK_PROXY_URL"@,
                    first_some(env_proxy_candidates(env_values@)),
                ),
            ],
    {
        let detected = detect_env_proxy(env_values);
        let mut out: Vec<EnvAction> = Vec::new();
        push_action(&mut out, "TIKTOK_PROXY_URL", &detected);
        assert(actions_view(out@) =~= seq![
            ("TIKTOK_PROXY_URL"@, first_some(env_proxy_candidates(env_values@))),
        ]);
        out
    }

    /// The protocol-preference variables: both set to the trimmed preference,
    /// or both removed when it is blank.
    pub fn apply_record_protocol_env(&self) -> (r: Vec<EnvAction>)
        ensures
            actions_view(r@) == seq![
                ("BSR_KUAISHOU_PREFER_PROTOCOL"@, non_blank(self.record_protocol_preference@)),
                ("BSR_TIKTOK_PREFER_PROTOCOL"@, non_blank(self.record_protocol_preference@)),
            ],
    {
        let v = non_blank_of(self.record_protocol_preference.as_str());
        let mut out: Vec<EnvAction> = Vec::new();
        push_action(&mut out, "BSR_KUAISHOU_PREFER_PROTOCOL", &v);
        push_action(&mut out, "BSR_TIKTOK_PREFER_PROTOCOL", &v);
        assert(actions_view(out@) =~= seq![
            ("BSR_KUAISHOU_PREFER_PROTOCOL"@, non_blank(self.record_protocol_preference@)),
            ("BSR_TIKTOK_PREFER_PROTOCOL"@, non_blank(self.record_protocol_preference@)),
        ]);
        out
    }

    /// The Kuaishou fallback variables: each set to `true` when enabled,
    /// else removed.
    pub fn apply_kuaishou_fallback_env(&self) -> (r: Vec<EnvAction>)
        ensures
            actions_view(r@) == seq![
                (
                    "BSR_KUAISHOU_ENABLE_FOLLOW_LIST_FALLBACK"@,
                    if self.kuaishou_enable_follow_list_fallback {
                        Some("true"@)
                    } else {
                        None
                    },
                ),
                (
                    "BSR_KUAISHOU_ENABLE_PUBLIC_PAGE_FALLBACK"@,
                    if self.kuaishou_enable_public_page_fallback {
                        Some("true"@)
                    } else {
                        None
                    },
                ),
            ],
    {
        let a = if self.kuaishou_enable_follow_list_fallback {
            Some(to_string_of("true"))
        } else {
            None
        };
        let b = if self.kuaishou_enable_public_page_fallback {
            Some(to_string_of("true"))
        } else {
            None
        };
        let mut out: Vec<EnvAction> = Vec::new();
        push_action(&mut out, "BSR_KUAISHOU_ENABLE_FOLLOW_LIST_FALLBACK", &a);
        push_action(&mut out, "BSR_KUAISHOU_ENABLE_PUBLIC_PAGE_FALLBACK", &b);
        out
    }

    /// The Kuaishou websocket variables: `KUAISHOU_WS_TOKEN` and
    /// `KUAISHOU_WS_URLS` set to the trimmed values, or removed when blank.
    pub fn apply_kuaishou_ws_env(&self) -> (r: Vec<EnvAction>)
        ensures
            actions_view(r@) == seq![
                ("KUAISHOU_WS_TOKEN"@, non_blank(self.kuaishou_ws_token@)),
                ("KUAISHOU_WS_URLS"@, non_blank(self.kuaishou_ws_urls@)),
            ],
    {
        let a = non_blank_of(self.kuaishou_ws_token.as_str());
        let b = non_blank_of(self.kuaishou_ws_urls.as_str());
        let mut out: Vec<EnvAction> = Vec::new();
        push_action(&mut out, "KUAISHOU_WS_TOKEN", &a);
        push_action(&mut out, "KUAISHOU_WS_URLS", &b);
        out
    }

    /// The TikTok feed variables: each set to the trimmed setting, or removed
    /// when it is blank.
    pub fn apply_tiktok_feed_env(&self) -> (r: Vec<EnvAction>)
        ensures
            actions_view(r@) == seq![
                ("TIKTOK_FEED_URL"@, non_blank(self.tiktok_feed.url@)),
                ("TIKTOK_FEED_URL_TEMPLATE"@, non_blank(self.tiktok_feed.url_template@)),
                ("TIKTOK_FEED_X_GNARLY"@, non_blank(self.tiktok_feed.x_gnarly@)),
                ("TIKTOK_FEED_X_BOGUS"@, non_blank(self.tiktok_feed.x_bogus@)),
                ("TIKTOK_FEED_USER_AGENT"@, non_blank(self.tiktok_feed.user_agent@)),
                ("TIKTOK_FEED_DEVICE_ID"@, non_blank(self.tiktok_feed.device_id@)),
                ("TIKTOK_FEED_VERIFY_FP"@, non_blank(self.tiktok_feed.verify_fp@)),
                ("TIKTOK_FEED_MS_TOKEN"@, non_blank(self.tiktok_feed.ms_token@)),
                ("TIKTOK_FEED_ROOT_REFERER"@, non_blank(self.tiktok_feed.root_referer@)),
            ],
    {
        let f = &self.tiktok_feed;
        let mut out: Vec<EnvAction> = Vec::new();
        push_action(&mut out, "TIKTOK_FEED_URL", &non_blank_of(f.url.as_str()));
        push_action(&mut out, "TIKTOK_FEED_URL_TEMPLATE", &non_blank_of(f.url_template.as_str()));
        push_action(&mut out, "TIKTOK_FEED_X_GNARLY", &non_blank_of(f.x_gnarly.as_str()));
        push_action(&mut out, "TIKTOK_FEED_X_BOGUS", &non_blank_of(f.x_bogus.as_str()));
        push_action(&mut out, "TIKTOK_FEED_USER_AGENT", &non_blank_of(f.user_agent.as_str()));
        push_action(&mut out, "TIKTOK_FEED_DEVICE_ID", &non_blank_of(f.device_id.as_str()));
        push_action(&mut out, "TIKTOK_FEED_VERIFY_FP", &non_blank_of(f.verify_fp.as_str()));
        push_action(&mut out, "TIKTOK_FEED_MS_TOKEN", &non_blank_of(f.ms_token.as_str()));
        push_action(&mut out, "TIKTOK_FEED_ROOT_REFERER", &non_blank_of(f.root_referer.as_str()));
        assert(actions_view(out@) =~= seq![
            ("TIKTOK_FEED_URL"@, non_blank(self.tiktok_feed.url@)),
            ("TIKTOK_FEED_URL_TEMPLATE"@, non_blank(self.tiktok_feed.url_template@)),
            ("TIKTOK_FEED_X_GNARLY"@, non_blank(self.tiktok_feed.x_gnarly@)),
            ("TIKTOK_FEED_X_BOGUS"@, non_blank(self.tiktok_feed.x_bogus@)),
            ("TIKTOK_FEED_USER_AGENT"@, non_blank(self.tiktok_feed.user_agent@)),
            ("TIKTOK_FEED_DEVICE_ID"@, non_blank(self.tiktok_feed.device_id@)),
            ("TIKTOK_FEED_VERIFY_FP"@, non_blank(self.tiktok_feed.verify_fp@)),
            ("TIKTOK_FEED_MS_TOKEN"@, non_blank(self.tiktok_feed.ms_token@)),
            ("TIKTOK_FEED_ROOT_REFERER"@, non_blank(self.tiktok_feed.root_referer@)),
        ]);
        out
    }
}

/// What `set_if_missing` does to one variable of the Douyin passport: a
/// variable that already holds a non-blank value is left alone (`None`);
/// otherwise it is set to the trimmed configured value, or removed when
/// that is blank.
pub open spec fn passport_env_change(current: Option<Seq<char>>, value: Seq<char>) -> Option<
    Option<Seq<char>>,
> {
    if current matches Some(c) && trim(c).len() > 0 {
        None
    } else {
        Some(non_blank(value))
    }
}

/// Exec `passport_env_change` for the variable `key`.
pub fn passport_env_action(key: &str, current: &Option<String>, value: &str) -> (r: Option<
    EnvAction,
>)
    ensures
        match r {
            Some(a) => passport_env_change(opt_view(*current), value@) == Some(action_view(a).1)
                && action_view(a).0 == key@,
            None => passport_env_change(opt_view(*current), value@) is None,
        },
{
    match current {
        Some(c) => {
            if non_blank_of(c.as_str()).is_some() {
                return None;
            }
        },
        None => {},
    }
    match non_blank_of(value) {
        Some(v) => Some(EnvAction::Assign { key: to_string_of(key), value: v }),
        None => Some(EnvAction::Unset { key: to_string_of(key) }),
    }
}

// ---------------------------------------------------------------------------
// Setters and loading
// ---------------------------------------------------------------------------

impl Config {
    /// Sets the cache directory.
    pub fn set_cache_path(&mut self, path: &str)
        ensures
            final(self).cache@ == path@,
            *final(self) == (Config { cache: final(self).cache, ..*old(self) }),
    {
        self.cache = to_string_of(path);
    }

    /// Sets the output directory.
    pub fn set_output_path(&mut self, path: &str)
        ensures
            final(self).output@ == path@,
            *final(self) == (Config { output: final(self).output, ..*old(self) }),
    {
        self.output = to_string_of(path);
    }

    /// Sets the whisper language.
    pub fn set_whisper_language(&mut self, language: &str)
        ensures
            final(self).whisper_language@ == language@,
            *final(self) == (Config { whisper_language: final(self).whisper_language, ..*old(self) }),
    {
        self.whisper_language = to_string_of(language);
    }

    /// Sets the live-status check interval (seconds).
    pub fn set_status_check_interval(&mut self, interval: u64)
        ensures
            *final(self) == (Config { status_check_interval: interval, ..*old(self) }),
    {
        self.status_check_interval = interval;
    }

    /// Account switches need no normalisation: login and guest accounts may
    /// both be enabled (their priority is decided when an account is
    /// chosen), so nothing changes.
    pub fn normalize_account_switches(&mut self) -> (changed: bool)
        ensures
            !changed,
            *final(self) == *old(self),
    {
        false
    }

    /// What loading a stored configuration migrates: the legacy intervals 67
    /// and 77 become 15; a blank reverse-generation path becomes
    /// `inferred_reverse_path` when there is one; a blank protocol
    /// preference becomes `hls`. The result says whether the file must be
    /// saved again: after any of these, or when `content` holds a legacy
    /// Kuaishou fallback key or a `[douyin_passport]` or `[tiktok_feed]`
    /// table.
    pub fn apply_load_migrations(&mut self, content: &str, inferred_reverse_path: Option<String>) -> (needs_save: bool)
        ensures
            final(self).status_check_interval == (if old(self).status_check_interval == 67
                || old(self).status_check_interval == 77 {
                15
            } else {
                old(self).status_check_interval
            }),
            final(self).reverse_generate_path@ == (if trim(old(self).reverse_generate_path@).len() == 0
                && inferred_reverse_path is Some {
                inferred_reverse_path->0@
            } else {
                old(self).reverse_generate_path@
            }),
            final(self).record_protocol_preference@ == (if trim(
                old(self).record_protocol_preference@,
            ).len() == 0 {
                "hls"@
            } else {
                old(self).record_protocol_preference@
            }),
            *final(self) == (Config {
                status_check_interval: final(self).status_check_interval,
                reverse_generate_path: final(self).reverse_generate_path,
                record_protocol_preference: final(self).record_protocol_preference,
                ..*old(self)
            }),
            needs_save == (old(self).status_check_interval == 67 || old(self).status_check_interval
                == 77 || (trim(old(self).reverse_generate_path@).len() == 0
                && inferred_reverse_path is Some) || trim(old(self).record_protocol_preference@).len()
                == 0 || contains(content@, "BSR_KUAISHOU_ENABLE_FOLLOW_LIST_FALLBACK"@) || contains(
                content@,
                "BSR_KUAISHOU_ENABLE_PUBLIC_PAGE_FALLBACK"@,
            ) || contains(content@, "[douyin_passport]"@) || contains(
                content@,
                "[tiktok_feed]"@,
            )),
    {
        let mut needs_save = false;
        if self.status_check_interval == 67 || self.status_check_interval == 77 {
            self.status_check_interval = 15;
            needs_save = true;
        }
        let rp = chars_of(self.reverse_generate_path.as_str());
        if trim_chars(rp.as_slice()).len() == 0 {
            match inferred_reverse_path {
                Some(p) => {
                    self.reverse_generate_path = p;
                    needs_save = true;
                },
                None => {},
            }
        }
        let pp = chars_of(self.record_protocol_preference.as_str());
        if trim_chars(pp.as_slice()).len() == 0 {
            self.record_protocol_preference = to_string_of("hls");
            needs_save = true;
        }
        let cv = chars_of(content);
        let m1 = chars_of("BSR_KUAISHOU_ENABLE_FOLLOW_LIST_FALLBACK");
        let m2 = chars_of("BSR_KUAISHOU_ENABLE_PUBLIC_PAGE_FALLBACK");
        let m3 = chars_of("[douyin_passport]");
        let m4 = chars_of("[tiktok_feed]");
        if contains_chars(cv.as_slice(), m1.as_slice()) || contains_chars(cv.as_slice(), m2.as_slice()) {
            needs_save = true;
        }
        if contains_chars(cv.as_slice(), m3.as_slice()) || contains_chars(cv.as_slice(), m4.as_slice()) {
            needs_save = true;
        }
        needs_save
    }

    /// Resets the storage directories that are blank or relative to the
    /// defaults; `cache_is_relative` and `output_is_relative` say whether the
    /// stored paths are relative on this machine. The result says whether
    /// anything changed.
    pub fn normalize_storage_paths_with(
        &mut self,
        default_cache: &str,
        default_output: &str,
        cache_is_relative: bool,
        output_is_relative: bool,
    ) -> (changed: bool)
        ensures
            final(self).cache@ == (if trim(old(self).cache@).len() == 0 || cache_is_relative {
                default_cache@
            } else {
                old(self).cache@
            }),
            final(self).output@ == (if trim(old(self).output@).len() == 0 || output_is_relative {
                default_output@
            } else {
                old(self).output@
            }),
            *final(self) == (Config { cache: final(self).cache, output: final(self).output, ..*old(self) }),
            changed == (trim(old(self).cache@).len() == 0 || cache_is_relative || trim(
                old(self).output@,
            ).len() == 0 || output_is_relative),
            !changed ==> *final(self) == *old(self),
    {
        let mut changed = false;
        let c = chars_of(self.cache.as_str());
        if trim_chars(c.as_slice()).len() == 0 || cache_is_relative {
            self.cache = to_string_of(default_cache);
            changed = true;
        }
        let o = chars_of(self.output.as_str());
        if trim_chars(o.as_slice()).len() == 0 || output_is_relative {
            self.output = to_string_of(default_output);
            changed = true;
        }
        changed
    }

    /// Resets the storage directories that are blank or relative (on this
    /// machine) to the defaults; the result says whether anything changed.
    pub fn normalize_storage_paths(&mut self, default_cache: &str, default_output: &str) -> (changed:
        bool)
        ensures
            final(self).cache@ == old(self).cache@ || final(self).cache@ == default_cache@,
            final(self).output@ == old(self).output@ || final(self).output@ == default_output@,
            trim(old(self).cache@).len() == 0 ==> final(self).cache@ == default_cache@,
            trim(old(self).output@).len() == 0 ==> final(self).output@ == default_output@,
            surely_relative(old(self).cache@) ==> final(self).cache@ == default_cache@,
            surely_relative(old(self).output@) ==> final(self).output@ == default_output@,
            *final(self) == (Config { cache: final(self).cache, output: final(self).output, ..*old(self) }),
            trim(old(self).cache@).len() == 0 || trim(old(self).output@).len() == 0 ==> changed,
            surely_relative(old(self).cache@) || surely_relative(old(self).output@) ==> changed,
            !changed ==> *final(self) == *old(self),
            changed ==> final(self).cache@ != old(self).cache@ || final(self).output@ != old(self).output@
                || final(self).cache@ == default_cache@ || final(self).output@ == default_output@,
    {
        let cache_rel = path_is_relative(self.cache.as_str());
        let output_rel = path_is_relative(self.output.as_str());
        self.normalize_storage_paths_with(default_cache, default_output, cache_rel, output_rel)
    }
}

/// The message of a cache folder move into the old cache folder.
pub open spec fn cache_under_old_message() -> Seq<char> {
    "New cache path cannot be under old cache path"@
}

/// Whether a move of the cache folder from `old` to `new` is to be done:
/// `Ok(false)` (nothing to do) for the same folder, the error when the new
/// folder lies under the old one (`under`, as `Path::starts_with` finds it),
/// `Ok(true)` otherwise.
pub fn cache_path_move(old: &str, new: &str, under: bool) -> (r: Result<bool, String>)
    ensures
        old@ == new@ ==> r == Ok::<bool, String>(false),
        old@ != new@ && under ==> (r matches Err(e) && e@ == cache_under_old_message()),
        old@ != new@ && !under ==> r == Ok::<bool, String>(true),
{
    if crate::text::same_str(old, new) {
        return Ok(false);
    }
    if under {
        return Err(to_string_of("New cache path cannot be under old cache path"));
    }
    Ok(true)
}

/// `path` is a plain file name inside the folder `base`: `base` is a plain
/// folder (`plain_folder`) that does not start with `//` (a network share on
/// Windows), and `path` is `base`, `/` and a plain file name
/// (`plain_file_name`).
pub open spec fn file_in_folder(path: Seq<char>, base: Seq<char>) -> bool {
    &&& crate::clip_names::plain_folder(base)
    &&& !(base.len() >= 2 && base[0] == '/' && base[1] == '/')
    &&& path.len() > base.len() + 1
    &&& path.take(base.len() as int) == base
    &&& path[base.len() as int] == '/'
    &&& crate::clip_names::plain_file_name(path.skip(base.len() as int + 1))
}

/// Wraps `std::path::Path::starts_with` on path texts: whether `base` is a
/// prefix of `path` in whole components. Components are read by the
/// platform's rules, so only what holds on every platform is stated: a path
/// starts with itself, and a plain file name inside a plain folder
/// (`file_in_folder`; `/` separates on every platform, and such a folder has
/// no prefix) starts with that folder.
#[verifier::external_body]
fn path_starts_with(path: &str, base: &str) -> (b: bool)
    ensures
        path@ == base@ ==> b,
        file_in_folder(path@, base@) ==> b,
{
    std::path::Path::new(path).starts_with(std::path::Path::new(base))
}

/// Checks a move of the cache folder from `old` to `new` (`cache_path_move`
/// with `Path::starts_with` asked whether `new` lies under `old`): nothing
/// to do for the same folder; the error for a plain file name inside the
/// old folder (`file_in_folder`); otherwise either the move or the error,
/// as the platform reads the paths.
pub fn check_cache_path_move(old: &str, new: &str) -> (r: Result<bool, String>)
    ensures
        old@ == new@ ==> r == Ok::<bool, String>(false),
        old@ != new@ ==> r == Ok::<bool, String>(true) || (r matches Err(e) && e@ == cache_under_old_message()),
        file_in_folder(new@, old@) ==> (r matches Err(e) && e@ == cache_under_old_message()),
{
    let under = path_starts_with(new, old);
    cache_path_move(old, new, under)
}

/// A path that is relative on every platform: not empty, without `:` (no
/// drive prefix), and not starting with `/` or a backslash (no root).
pub open spec fn surely_relative(p: Seq<char>) -> bool {
    p.len() > 0 && !has_char(p, ':') && p[0] != '/' && p[0] != '\\'
}

/// Wraps `std::path::Path::is_relative` on the given path text. Whether a
/// path is relative depends on the platform (`C:\x` is absolute on Windows
/// only), so only what holds everywhere is stated: a path without a root
/// or a drive prefix (`surely_relative`) is relative.
#[verifier::external_body]
fn path_is_relative(p: &str) -> (b: bool)
    ensures
        surely_relative(p@) ==> b,
{
    std::path::Path::new(p).is_relative()
}

// ---------------------------------------------------------------------------
// Accounts file
// ---------------------------------------------------------------------------

/// An account entry as character sequences: platform, cookies, extra.
pub open spec fn acct_view(a: DefaultAccountConfig) -> (Seq<char>, Seq<char>, Seq<char>) {
    (a.platform@, a.cookies@, a.extra@)
}

/// The views of a list of account entries.
pub open spec fn accts_view(v: Seq<DefaultAccountConfig>) -> Seq<(Seq<char>, Seq<char>, Seq<char>)> {
    v.map_values(|a: DefaultAccountConfig| acct_view(a))
}

/// A copy of an account entry.
pub fn copy_account(a: &DefaultAccountConfig) -> (r: DefaultAccountConfig)
    ensures
        acct_view(r) == acct_view(*a),
{
    DefaultAccountConfig { platform: a.platform.clone(), cookies: a.cookies.clone(), extra: a.extra.clone() }
}

/// A copy of a list of account entries.
pub fn copy_accounts(v: &Vec<DefaultAccountConfig>) -> (r: Vec<DefaultAccountConfig>)
    ensures
        accts_view(r@) == accts_view(v@),
{
    let mut r: Vec<DefaultAccountConfig> = Vec::new();
    let mut i: usize = 0;
    while i < v.len()
        invariant
            i <= v.len(),
            accts_view(r@) == accts_view(v@).take(i as int),
        decreases v.len() - i,
    {
        let ghost before = accts_view(r@);
        let a = copy_account(&v[i]);
        r.push(a);
        assert(accts_view(r@) =~= before.push(acct_view(v@[i as int])));
        i = i + 1;
        assert(accts_view(r@) =~= accts_view(v@).take(i as int));
    }
    assert(accts_view(v@).take(v.len() as int) =~= accts_view(v@));
    r
}

/// The two lists hold the same entries in the same order.
pub fn same_accounts(a: &Vec<DefaultAccountConfig>, b: &Vec<DefaultAccountConfig>) -> (r: bool)
    ensures
        r == (accts_view(a@) == accts_view(b@)),
{
    if a.len() != b.len() {
        assert(accts_view(a@).len() != accts_view(b@).len());
        return false;
    }
    let mut i: usize = 0;
    while i < a.len()
        invariant
            a.len() == b.len(),
            i <= a.len(),
            forall|k: int| 0 <= k < i ==> accts_view(a@)[k] == accts_view(b@)[k],
        decreases a.len() - i,
    {
        if a[i].platform != b[i].platform || a[i].cookies != b[i].cookies || a[i].extra != b[i].extra {
            assert(accts_view(a@)[i as int] != accts_view(b@)[i as int]);
            return false;
        }
        i = i + 1;
    }
    assert(accts_view(a@) =~= accts_view(b@));
    true
}

impl Config {
    /// Takes the guest and login accounts from the accounts file when they
    /// differ; the result says whether anything changed.
    pub fn apply_login_account_override(&mut self, accounts: &AccountsFile) -> (changed: bool)
        ensures
            accts_view(final(self).guest_accounts@) == accts_view(accounts.guest_accounts@),
            accts_view(final(self).login_accounts@) == accts_view(accounts.login_accounts@),
            *final(self) == (Config {
                guest_accounts: final(self).guest_accounts,
                login_accounts: final(self).login_accounts,
                ..*old(self)
            }),
            changed == (accts_view(old(self).guest_accounts@) != accts_view(
                accounts.guest_accounts@,
            ) || accts_view(old(self).login_accounts@) != accts_view(accounts.login_accounts@)),
    {
        let mut changed = false;
        if !same_accounts(&self.guest_accounts, &accounts.guest_accounts) {
            self.guest_accounts = copy_accounts(&accounts.guest_accounts);
            changed = true;
        }
        if !same_accounts(&self.login_accounts, &accounts.login_accounts) {
            self.login_accounts = copy_accounts(&accounts.login_accounts);
            changed = true;
        }
        changed
    }

    /// The configuration as shown to the user interface: every account's
    /// cookies are blanked.
    pub fn mask_account_cookies(&mut self)
        ensures
            final(self).guest_accounts@.len() == old(self).guest_accounts@.len(),
            final(self).login_accounts@.len() == old(self).login_accounts@.len(),
            forall|i: int|
                0 <= i < final(self).guest_accounts@.len() ==> acct_view(
                    #[trigger] final(self).guest_accounts@[i],
                ) == (old(self).guest_accounts@[i].platform@, Seq::<char>::empty(), old(
                    self,
                ).guest_accounts@[i].extra@),
            forall|i: int|
                0 <= i < final(self).login_accounts@.len() ==> acct_view(
                    #[trigger] final(self).login_accounts@[i],
                ) == (old(self).login_accounts@[i].platform@, Seq::<char>::empty(), old(
                    self,
                ).login_accounts@[i].extra@),
            *final(self) == (Config {
                guest_accounts: final(self).guest_accounts,
                login_accounts: final(self).login_accounts,
                ..*old(self)
            }),
    {
        let g = blank_cookies(&self.guest_accounts);
        let l = blank_cookies(&self.login_accounts);
        self.guest_accounts = g;
        self.login_accounts = l;
    }
}

/// The entries with their cookies blanked.
fn blank_cookies(v: &Vec<DefaultAccountConfig>) -> (r: Vec<DefaultAccountConfig>)
    ensures
        r@.len() == v@.len(),
        forall|i: int|
            0 <= i < r@.len() ==> acct_view(#[trigger] r@[i]) == (
                v@[i].platform@,
                Seq::<char>::empty(),
                v@[i].extra@,
            ),
{
    let mut r: Vec<DefaultAccountConfig> = Vec::new();
    let mut i: usize = 0;
    while i < v.len()
        invariant
            i <= v.len(),
            r@.len() == i,
            forall|k: int|
                0 <= k < i ==> acct_view(#[trigger] r@[k]) == (
                    v@[k].platform@,
                    Seq::<char>::empty(),
                    v@[k].extra@,
                ),
        decreases v.len() - i,
    {
        r.push(
            DefaultAccountConfig {
                platform: v[i].platform.clone(),
                cookies: String::new(),
                extra: v[i].extra.clone(),
            },
        );
        i = i + 1;
    }
    r
}

/// The platforms of the login accounts with non-blank cookies, each once,
/// in order of first appearance.
pub open spec fn login_platforms(entries: Seq<(Seq<char>, Seq<char>, Seq<char>)>) -> Seq<Seq<char>>
    decreases entries.len(),
{
    if entries.len() == 0 {
        Seq::<Seq<char>>::empty()
    } else {
        let prev = login_platforms(entries.drop_last());
        let e = entries.last();
        if trim(e.1).len() > 0 && !prev.contains(e.0) {
            prev.push(e.0)
        } else {
            prev
        }
    }
}

/// Exec `login_platforms`.
pub fn get_login_account_platforms(entries: &Vec<DefaultAccountConfig>) -> (r: Vec<String>)
    ensures
        r@.map_values(|s: String| s@) == login_platforms(accts_view(entries@)),
{
    let ghost ev = accts_view(entries@);
    let mut r: Vec<String> = Vec::new();
    let mut i: usize = 0;
    assert(ev.take(0) =~= Seq::<(Seq<char>, Seq<char>, Seq<char>)>::empty());
    while i < entries.len()
        invariant
            i <= entries.len(),
            ev == accts_view(entries@),
            r@.map_values(|s: String| s@) == login_platforms(ev.take(i as int)),
        decreases entries.len() - i,
    {
        assert(ev.take(i as int + 1).drop_last() =~= ev.take(i as int));
        let ghost prev = r@.map_values(|s: String| s@);
        let c = chars_of(entries[i].cookies.as_str());
        if trim_chars(c.as_slice()).len() > 0 {
            let mut found = false;
            let mut j: usize = 0;
            while j < r.len()
                invariant
                    j <= r.len(),
                    i < entries.len(),
                    prev == r@.map_values(|s: String| s@),
                    found == (exists|q: int| 0 <= q < j && prev[q] == entries@[i as int].platform@),
                decreases r.len() - j,
            {
                assert(prev[j as int] == r@[j as int]@);
                if r[j] == entries[i].platform {
                    found = true;
                }
                j = j + 1;
            }
            assert(found == prev.contains(entries@[i as int].platform@));
            if !found {
                let p = entries[i].platform.clone();
                r.push(p);
                assert(r@.map_values(|s: String| s@) =~= prev.push(entries@[i as int].platform@));
            }
        }
        i = i + 1;
    }
    assert(ev.take(entries.len() as int) =~= ev);
    r
}

/// The stored form of a chosen recording protocol: trimmed and in ASCII
/// lowercase.
pub fn normalize_protocol_preference(raw: &str) -> (r: String)
    ensures
        r@ == crate::text::lower_seq(crate::text::trim(raw@)),
{
    let c = crate::text::chars_of(raw);
    let t = crate::text::trim_chars(c.as_slice());
    let l = crate::text::lower_chars(t.as_slice());
    crate::text::string_of(l.as_slice())
}

/// The status-check interval accepted from the user: at least 2 seconds.
pub fn clamp_status_check_interval(interval: u64) -> (r: u64)
    ensures
        r == (if interval < 2 {
            2
        } else {
            interval
        }),
{
    if interval < 2 {
        2
    } else {
        interval
    }
}

/// The login entries with `platform`'s entry (the first one) given new
/// cookies (and new extra data when `extra` is given), or a new entry
/// (with `extra` or empty extra data) appended when there is none.
pub open spec fn upserted(
    entries: Seq<(Seq<char>, Seq<char>, Seq<char>)>,
    platform: Seq<char>,
    cookies: Seq<char>,
    extra: Option<Seq<char>>,
) -> Seq<(Seq<char>, Seq<char>, Seq<char>)> {
    if exists|i: int| 0 <= i < entries.len() && entries[i].0 == platform {
        let i = choose|i: int|
            0 <= i < entries.len() && entries[i].0 == platform && forall|j: int|
                0 <= j < i ==> entries[j].0 != platform;
        entries.update(
            i,
            (
                platform,
                cookies,
                match extra {
                    Some(e) => e,
                    None => entries[i].2,
                },
            ),
        )
    } else {
        entries.push(
            (
                platform,
                cookies,
                match extra {
                    Some(e) => e,
                    None => Seq::<char>::empty(),
                },
            ),
        )
    }
}

/// Writes a login account into the accounts file's list (see `upserted`).
pub fn write_login_account(
    accounts: &mut AccountsFile,
    platform: &str,
    cookies: &str,
    extra: Option<&str>,
)
    ensures
        accts_view(final(accounts).login_accounts@) == upserted(
            accts_view(old(accounts).login_accounts@),
            platform@,
            cookies@,
            match extra {
                Some(e) => Some(e@),
                None => None,
            },
        ),
        accts_view(final(accounts).guest_accounts@) == accts_view(old(accounts).guest_accounts@),
{
    let ghost ev = accts_view(accounts.login_accounts@);
    let mut i: usize = 0;
    while i < accounts.login_accounts.len()
        invariant
            i <= accounts.login_accounts.len(),
            ev == accts_view(accounts.login_accounts@),
            forall|j: int| 0 <= j < i ==> ev[j].0 != platform@,
            accts_view(accounts.guest_accounts@) == accts_view(old(accounts).guest_accounts@),
            ev == accts_view(old(accounts).login_accounts@),
        decreases accounts.login_accounts.len() - i,
    {
        if crate::text::same_str(accounts.login_accounts[i].platform.as_str(), platform) {
            let old_extra = accounts.login_accounts[i].extra.clone();
            let new_extra = match extra {
                Some(e) => to_string_of(e),
                None => old_extra,
            };
            let entry = DefaultAccountConfig {
                platform: to_string_of(platform),
                cookies: to_string_of(cookies),
                extra: new_extra,
            };
            let ghost ent = acct_view(entry);
            accounts.login_accounts.set(i, entry);
            proof {
                let c = choose|c: int|
                    0 <= c < ev.len() && ev[c].0 == platform@ && forall|j: int|
                        0 <= j < c ==> ev[j].0 != platform@;
                assert(ev[i as int].0 == platform@);
                if c < i {
                } else if c > i {
                    assert(ev[i as int].0 != platform@);
                }
                assert(c == i);
                assert(accts_view(accounts.login_accounts@) =~= ev.update(i as int, ent));
            }
            return;
        }
        i = i + 1;
    }
    let entry = DefaultAccountConfig {
        platform: to_string_of(platform),
        cookies: to_string_of(cookies),
        extra: match extra {
            Some(e) => to_string_of(e),
            None => String::new(),
        },
    };
    let ghost ent = acct_view(entry);
    accounts.login_accounts.push(entry);
    assert(accts_view(accounts.login_accounts@) =~= ev.push(ent));
}

/// The entries kept by `retain`: those for which `keep` holds, in order.
pub open spec fn kept(entries: Seq<(Seq<char>, Seq<char>, Seq<char>)>, keep: spec_fn((Seq<char>, Seq<char>, Seq<char>)) -> bool) -> Seq<(Seq<char>, Seq<char>, Seq<char>)>
    decreases entries.len(),
{
    if entries.len() == 0 {
        entries
    } else if keep(entries.last()) {
        kept(entries.drop_last(), keep).push(entries.last())
    } else {
        kept(entries.drop_last(), keep)
    }
}

/// Removes the login entries of `platform`; the result says whether any was
/// removed.
pub fn remove_login_account_by_platform(accounts: &mut AccountsFile, platform: &str) -> (removed: bool)
    ensures
        accts_view(final(accounts).login_accounts@) == kept(
            accts_view(old(accounts).login_accounts@),
            |e: (Seq<char>, Seq<char>, Seq<char>)| e.0 != platform@,
        ),
        accts_view(final(accounts).guest_accounts@) == accts_view(old(accounts).guest_accounts@),
        removed == (final(accounts).login_accounts@.len() != old(accounts).login_accounts@.len()),
{
    let ghost keep = |e: (Seq<char>, Seq<char>, Seq<char>)| e.0 != platform@;
    let ghost ev = accts_view(accounts.login_accounts@);
    let mut r: Vec<DefaultAccountConfig> = Vec::new();
    let mut i: usize = 0;
    let n = accounts.login_accounts.len();
    assert(ev.take(0) =~= Seq::<(Seq<char>, Seq<char>, Seq<char>)>::empty());
    while i < n
        invariant
            i <= n == accounts.login_accounts.len(),
            ev == accts_view(accounts.login_accounts@),
            keep == (|e: (Seq<char>, Seq<char>, Seq<char>)| e.0 != platform@),
            accts_view(r@) == kept(ev.take(i as int), keep),
        decreases n - i,
    {
        assert(ev.take(i as int + 1).drop_last() =~= ev.take(i as int));
        if !crate::text::same_str(accounts.login_accounts[i].platform.as_str(), platform) {
            let ghost before = accts_view(r@);
            let a = copy_account(&accounts.login_accounts[i]);
            r.push(a);
            assert(accts_view(r@) =~= before.push(ev[i as int]));
        }
        i = i + 1;
    }
    assert(ev.take(n as int) =~= ev);
    let removed = r.len() != n;
    accounts.login_accounts = r;
    removed
}

/// Removes the login entries of `platform` whose cookies have the same
/// canonical comparison form as `cookies`; the result says whether any was
/// removed.
pub fn remove_login_account(accounts: &mut AccountsFile, platform: &str, cookies: &str) -> (removed: bool)
    ensures
        accts_view(final(accounts).login_accounts@) == kept(
            accts_view(old(accounts).login_accounts@),
            |e: (Seq<char>, Seq<char>, Seq<char>)| e.0 != platform@ || !same_compare_form(e.1, cookies@),
        ),
        accts_view(final(accounts).guest_accounts@) == accts_view(old(accounts).guest_accounts@),
        removed == (final(accounts).login_accounts@.len() != old(accounts).login_accounts@.len()),
{
    let target = normalize_cookie_string_for_compare(cookies);
    let ghost keep = |e: (Seq<char>, Seq<char>, Seq<char>)| e.0 != platform@ || !same_compare_form(e.1, cookies@);
    let ghost ev = accts_view(accounts.login_accounts@);
    let mut r: Vec<DefaultAccountConfig> = Vec::new();
    let mut i: usize = 0;
    let n = accounts.login_accounts.len();
    assert(ev.take(0) =~= Seq::<(Seq<char>, Seq<char>, Seq<char>)>::empty());
    while i < n
        invariant
            i <= n == accounts.login_accounts.len(),
            ev == accts_view(accounts.login_accounts@),
            is_compare_form(cookies@, target@),
            keep == (|e: (Seq<char>, Seq<char>, Seq<char>)| e.0 != platform@ || !same_compare_form(e.1, cookies@)),
            accts_view(r@) == kept(ev.take(i as int), keep),
        decreases n - i,
    {
        assert(ev.take(i as int + 1).drop_last() =~= ev.take(i as int));
        let mine = normalize_cookie_string_for_compare(accounts.login_accounts[i].cookies.as_str());
        proof {
            lemma_compare_form_of(ev[i as int].1, mine@);
            lemma_compare_form_of(cookies@, target@);
        }
        if !crate::text::same_str(accounts.login_accounts[i].platform.as_str(), platform) || !(mine == target) {
            let ghost before = accts_view(r@);
            let a = copy_account(&accounts.login_accounts[i]);
            r.push(a);
            assert(accts_view(r@) =~= before.push(ev[i as int]));
        }
        i = i + 1;
    }
    assert(ev.take(n as int) =~= ev);
    let removed = r.len() != n;
    accounts.login_accounts = r;
    removed
}

/// Two cookie headers have the same canonical comparison form.
pub open spec fn same_compare_form(a: Seq<char>, b: Seq<char>) -> bool {
    compare_form(a) == compare_form(b)
}

/// The canonical comparison form of a cookie header.
pub open spec fn compare_form(c: Seq<char>) -> Seq<char> {
    choose|r: Seq<char>| is_compare_form(c, r)
}

/// A text that is a canonical comparison form of `c` is the one that
/// `compare_form` names.
pub proof fn lemma_compare_form_of(c: Seq<char>, r: Seq<char>)
    requires
        is_compare_form(c, r),
    ensures
        compare_form(c) == r,
{
    crate::laws::lemma_compare_form_unique(c, compare_form(c), r);
}

/// Blanks the cookies and extra data of every guest entry, keeping the
/// entries (and their platforms).
pub fn clear_guest_account_cookies(accounts: &mut AccountsFile)
    ensures
        final(accounts).guest_accounts@.len() == old(accounts).guest_accounts@.len(),
        forall|i: int|
            0 <= i < final(accounts).guest_accounts@.len() ==> acct_view(
                #[trigger] final(accounts).guest_accounts@[i],
            ) == (old(accounts).guest_accounts@[i].platform@, Seq::<char>::empty(), Seq::<char>::empty()),
        accts_view(final(accounts).login_accounts@) == accts_view(old(accounts).login_accounts@),
{
    let mut r: Vec<DefaultAccountConfig> = Vec::new();
    let mut i: usize = 0;
    while i < accounts.guest_accounts.len()
        invariant
            i <= accounts.guest_accounts.len(),
            accounts.guest_accounts@ == old(accounts).guest_accounts@,
            accounts.login_accounts@ == old(accounts).login_accounts@,
            r@.len() == i,
            forall|k: int|
                0 <= k < i ==> acct_view(#[trigger] r@[k]) == (
                    accounts.guest_accounts@[k].platform@,
                    Seq::<char>::empty(),
                    Seq::<char>::empty(),
                ),
        decreases accounts.guest_accounts.len() - i,
    {
        r.push(
            DefaultAccountConfig {
                platform: accounts.guest_accounts[i].platform.clone(),
                cookies: String::new(),
                extra: String::new(),
            },
        );
        i = i + 1;
    }
    accounts.guest_accounts = r;
}

} // verus!
