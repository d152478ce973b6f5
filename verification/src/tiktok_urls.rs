//! The query strings of TikTok's web endpoints: form encoding, the fixed
//! parameters each endpoint takes, the device identity they carry, and the
//! feed URL template.
use vstd::prelude::*;
use vstd::utf8::encode_utf8;
use crate::config::opt_view;
use crate::json::{decimal, signed_decimal};
use crate::passport::pairs_view;
use crate::text::{chars_of, join, replace_all, replace_chars, string_of, to_string_of, trim, trim_chars};
use crate::tiktok::{account_cookie, cookie_value_from_account, Account};
use crate::cookie_map::CookieMap;

verus! {

// ---------------------------------------------------------------------------
// Form encoding
// ---------------------------------------------------------------------------

/// A byte that form encoding keeps as it is: an ASCII letter or digit, `*`,
/// `-`, `.` or `_`.
pub open spec fn form_safe(b: u8) -> bool {
    (48 <= b <= 57) || (65 <= b <= 90) || (97 <= b <= 122) || b == 42 || b == 45 || b == 46 || b == 95
}

/// Digit `n` (0 to 15) of uppercase hexadecimal.
pub open spec fn upper_hex(n: int) -> char {
    if n < 10 {
        ('0' as int + n) as char
    } else {
        ('A' as int + (n - 10)) as char
    }
}

/// A byte form-encoded: kept when safe, a space as `+`, any other as `%XX`.
pub open spec fn form_byte(b: u8) -> Seq<char> {
    if form_safe(b) {
        seq![b as char]
    } else if b == 32 {
        seq!['+']
    } else {
        seq!['%', upper_hex(b as int / 16), upper_hex(b as int % 16)]
    }
}

/// Bytes form-encoded one by one.
pub open spec fn form_bytes(bs: Seq<u8>) -> Seq<char>
    decreases bs.len(),
{
    if bs.len() == 0 {
        Seq::<char>::empty()
    } else {
        form_bytes(bs.drop_last()) + form_byte(bs.last())
    }
}

/// A text form-encoded: its UTF-8 bytes, each form-encoded.
pub open spec fn form_component(s: Seq<char>) -> Seq<char> {
    form_bytes(encode_utf8(s))
}

/// Pairs as an `application/x-www-form-urlencoded` query:
/// `name=value` of each, both form-encoded, joined by `&`.
pub open spec fn form_query(ps: Seq<(Seq<char>, Seq<char>)>) -> Seq<char> {
    join(ps.map_values(|p: (Seq<char>, Seq<char>)| form_component(p.0) + "="@ + form_component(p.1)), "&"@)
}

/// Calls `url::form_urlencoded::Serializer::append_pair` for each pair on a
/// new serializer, then `finish`: the pairs as a form query (`form_query`).
#[verifier::external_body]
fn form_serialize(pairs: &Vec<(String, String)>) -> (r: String)
    ensures
        r@ == form_query(pairs_view(pairs@)),
{
    let mut s = url::form_urlencoded::Serializer::new(String::new());
    for (k, v) in pairs {
        s.append_pair(k, v);
    }
    s.finish()
}

/// Calls `url::form_urlencoded::byte_serialize` on the text's bytes: the
/// text form-encoded (`form_component`).
#[verifier::external_body]
fn byte_serialize_text(value: &str) -> (r: String)
    ensures
        r@ == form_component(value@),
{
    url::form_urlencoded::byte_serialize(value.as_bytes()).collect()
}

/// The query of some parameters (`form_query`).
pub fn build_query(params: &Vec<(String, String)>) -> (r: String)
    ensures
        r@ == form_query(pairs_view(params@)),
{
    form_serialize(params)
}

/// A text form-encoded for a URL (`form_component`).
pub fn encode_url_component(value: &str) -> (r: String)
    ensures
        r@ == form_component(value@),
{
    byte_serialize_text(value)
}

// ---------------------------------------------------------------------------
// The device identity of feed requests
// ---------------------------------------------------------------------------

/// A setting that is set and not blank (kept as it is).
pub open spec fn set_value(v: Option<Seq<char>>) -> Option<Seq<char>> {
    match v {
        Some(x) => if trim(x).len() > 0 {
            Some(x)
        } else {
            None
        },
        None => None,
    }
}

/// Exec `set_value`.
pub fn non_blank_setting(v: Option<String>) -> (r: Option<String>)
    ensures
        opt_view(r) == set_value(opt_view(v)),
{
    match v {
        Some(x) => {
            let c = chars_of(x.as_str());
            let t = trim_chars(c.as_slice());
            if t.len() > 0 {
                Some(x)
            } else {
                None
            }
        },
        None => None,
    }
}

/// The first of two optional texts that is there, else empty.
pub open spec fn first_or_empty(a: Option<Seq<char>>, b: Option<Seq<char>>) -> Seq<char> {
    match a {
        Some(x) => x,
        None => match b {
            Some(y) => y,
            None => Seq::<char>::empty(),
        },
    }
}

/// The fingerprint and token feed requests carry: the setting when set and
/// not blank, else the account's cookie (`s_v_web_id`, `msToken`), else
/// empty.
pub fn feed_cookie_value(setting: Option<String>, account: &Account, cookie: &str) -> (r: String)
    ensures
        r@ == first_or_empty(set_value(opt_view(setting)), account_cookie(account.cookies@, cookie@)),
{
    match non_blank_setting(setting) {
        Some(v) => v,
        None => match cookie_value_from_account(account, cookie) {
            Some(c) => c,
            None => {
                let e = String::new();
                assert(e@ =~= Seq::<char>::empty());
                e
            },
        },
    }
}

/// The device id feed requests carry: the setting when set and not blank,
/// else a random one.
pub fn feed_device_id(setting: Option<String>) -> (r: String)
    ensures
        match set_value(opt_view(setting)) {
            Some(v) => r@ == v,
            None => crate::tiktok_qr::is_device_id(r@),
        },
{
    match non_blank_setting(setting) {
        Some(v) => v,
        None => crate::ids::gen_device_id(),
    }
}

// ---------------------------------------------------------------------------
// The feed URL template
// ---------------------------------------------------------------------------

#[derive(Debug)]
/// The values a feed URL template is filled with.
pub struct FeedValues {
    pub referer: String,
    pub root_referer: String,
    pub ms_token: String,
    pub verify_fp: String,
    pub device_id: String,
}

/// A feed URL template filled in: `{referer}` and `{root_referer}` by the
/// form-encoded referers, `{ms_token}`, `{verify_fp}` and `{device_id}` by
/// their values, in that order.
pub open spec fn filled_template(t: Seq<char>, v: FeedValues) -> Seq<char> {
    let a = replace_all(t, "{referer}"@, form_component(v.referer@));
    let b = replace_all(a, "{root_referer}"@, form_component(v.root_referer@));
    let c = replace_all(b, "{ms_token}"@, v.ms_token@);
    let d = replace_all(c, "{verify_fp}"@, v.verify_fp@);
    replace_all(d, "{device_id}"@, v.device_id@)
}

/// Every occurrence of a non-empty literal replaced.
fn replace_lit(s: &str, p: &str, rep: &str) -> (r: String)
    requires
        p@.len() > 0,
    ensures
        r@ == replace_all(s@, p@, rep@),
{
    let sc = chars_of(s);
    let pc = chars_of(p);
    let rc = chars_of(rep);
    let out = replace_chars(sc.as_slice(), pc.as_slice(), rc.as_slice());
    string_of(out.as_slice())
}

/// Exec `filled_template`.
pub fn apply_feed_template(template: &str, values: &FeedValues) -> (r: String)
    ensures
        r@ == filled_template(template@, *values),
{
    proof {
        reveal_strlit("{referer}");
        reveal_strlit("{root_referer}");
        reveal_strlit("{ms_token}");
        reveal_strlit("{verify_fp}");
        reveal_strlit("{device_id}");
    }
    let referer = encode_url_component(values.referer.as_str());
    let root = encode_url_component(values.root_referer.as_str());
    let a = replace_lit(template, "{referer}", referer.as_str());
    let b = replace_lit(a.as_str(), "{root_referer}", root.as_str());
    let c = replace_lit(b.as_str(), "{ms_token}", values.ms_token.as_str());
    let d = replace_lit(c.as_str(), "{verify_fp}", values.verify_fp.as_str());
    replace_lit(d.as_str(), "{device_id}", values.device_id.as_str())
}

/// The feed URL template in use: the first of `TIKTOK_FEED_URL` and
/// `TIKTOK_FEED_URL_TEMPLATE` that is set and not blank (trimmed), else the
/// built-in one.
pub open spec fn feed_template_choice(url: Option<Seq<char>>, template: Option<Seq<char>>, builtin: Seq<char>) -> Seq<char> {
    match set_value(url) {
        Some(u) => trim(u),
        None => match set_value(template) {
            Some(t) => trim(t),
            None => builtin,
        },
    }
}

/// Exec `feed_template_choice`.
pub fn choose_feed_template(url: Option<String>, template: Option<String>, builtin: &str) -> (r: String)
    ensures
        r@ == feed_template_choice(opt_view(url), opt_view(template), builtin@),
{
    match non_blank_setting(url) {
        Some(u) => {
            let c = chars_of(u.as_str());
            string_of(trim_chars(c.as_slice()).as_slice())
        },
        None => match non_blank_setting(template) {
            Some(t) => {
                let c = chars_of(t.as_str());
                string_of(trim_chars(c.as_slice()).as_slice())
            },
            None => to_string_of(builtin),
        },
    }
}

/// The feed URL to sign for a request: the override, trimmed, when it is
/// set and not blank; else none (the configured template is used).
pub fn feed_override_template(override_url: Option<&str>) -> (r: Option<String>)
    ensures
        opt_view(r) == match crate::cookie_json::opt_str(override_url) {
            Some(o) => if trim(o).len() > 0 {
                Some(trim(o))
            } else {
                None
            },
            None => None,
        },
{
    match override_url {
        Some(o) => {
            let c = chars_of(o);
            let t = trim_chars(c.as_slice());
            if t.len() > 0 {
                Some(string_of(t.as_slice()))
            } else {
                None
            }
        },
        None => None,
    }
}

} // verus!

verus! {

// ---------------------------------------------------------------------------
// Endpoint parameters
// ---------------------------------------------------------------------------

/// The parameters of a chat poll: the fixed ones, the device id, room id, fingerprint, token and cursor.
pub open spec fn im_fetch_params_spec(room_id: Seq<char>, cursor: Seq<char>, device_id: Seq<char>, verify_fp: Seq<char>, ms_token: Seq<char>) -> Seq<(Seq<char>, Seq<char>)> {
    seq![
        ("version_code"@, "270000"@),
        ("device_platform"@, "web"@),
        ("aid"@, "1988"@),
        ("app_name"@, "tiktok_web"@),
        ("app_language"@, "zh-Hans"@),
        ("browser_online"@, "true"@),
        ("browser_language"@, "zh-CN"@),
        ("browser_name"@, "Mozilla"@),
        ("browser_platform"@, "Win32"@),
        ("browser_version"@, "Mozilla/5.0 (Windows NT 10.0; Win64; x64) AppleWebKit/537.36 (KHTML, like Gecko) Chrome/138.0.0.0 Safari/537.36"@),
        ("screen_width"@, "2560"@),
        ("screen_height"@, "1440"@),
        ("tz_name"@, "Asia/Shanghai"@),
        ("ws_direct"@, "1"@),
        ("channel"@, "tiktok_web"@),
        ("cookie_enabled"@, "true"@),
        ("device_id"@, device_id),
        ("is_page_visible"@, "true"@),
        ("priority_region"@, "JP"@),
        ("region"@, "JP"@),
        ("live_id"@, "12"@),
        ("client_enter"@, "1"@),
        ("room_id"@, room_id),
        ("identity"@, "audience"@),
        ("history_comment_count"@, "6"@),
        ("fetch_rule"@, "1"@),
        ("last_rtt"@, "-1"@),
        ("internal_ext"@, "0"@),
        ("sup_ws_ds_opt"@, "1"@),
        ("resp_content_type"@, "json"@),
        ("resp_type"@, "json"@),
        ("verifyFp"@, verify_fp),
        ("msToken"@, ms_token),
        ("cursor"@, cursor),
    ]
}

/// The parameters of a chat poll (`im_fetch_params_spec`); the cursor is the previous poll's, `0` for the first.
pub fn im_fetch_params(room_id: &str, cursor: &str, device_id: &str, verify_fp: &str, ms_token: &str) -> (r: Vec<(String, String)>)
    ensures
        pairs_view(r@) == im_fetch_params_spec(room_id@, cursor@, device_id@, verify_fp@, ms_token@),
{
    let mut out: Vec<(String, String)> = Vec::new();
    out.push((to_string_of("version_code"), to_string_of("270000")));
    out.push((to_string_of("device_platform"), to_string_of("web")));
    out.push((to_string_of("aid"), to_string_of("1988")));
    out.push((to_string_of("app_name"), to_string_of("tiktok_web")));
    out.push((to_string_of("app_language"), to_string_of("zh-Hans")));
    out.push((to_string_of("browser_online"), to_string_of("true")));
    out.push((to_string_of("browser_language"), to_string_of("zh-CN")));
    out.push((to_string_of("browser_name"), to_string_of("Mozilla")));
    out.push((to_string_of("browser_platform"), to_string_of("Win32")));
    out.push((to_string_of("browser_version"), to_string_of("Mozilla/5.0 (Windows NT 10.0; Win64; x64) AppleWebKit/537.36 (KHTML, like Gecko) Chrome/138.0.0.0 Safari/537.36")));
    out.push((to_string_of("screen_width"), to_string_of("2560")));
    out.push((to_string_of("screen_height"), to_string_of("1440")));
    out.push((to_string_of("tz_name"), to_string_of("Asia/Shanghai")));
    out.push((to_string_of("ws_direct"), to_string_of("1")));
    out.push((to_string_of("channel"), to_string_of("tiktok_web")));
    out.push((to_string_of("cookie_enabled"), to_string_of("true")));
    out.push((to_string_of("device_id"), to_string_of(device_id)));
    out.push((to_string_of("is_page_visible"), to_string_of("true")));
    out.push((to_string_of("priority_region"), to_string_of("JP")));
    out.push((to_string_of("region"), to_string_of("JP")));
    out.push((to_string_of("live_id"), to_string_of("12")));
    out.push((to_string_of("client_enter"), to_string_of("1")));
    out.push((to_string_of("room_id"), to_string_of(room_id)));
    out.push((to_string_of("identity"), to_string_of("audience")));
    out.push((to_string_of("history_comment_count"), to_string_of("6")));
    out.push((to_string_of("fetch_rule"), to_string_of("1")));
    out.push((to_string_of("last_rtt"), to_string_of("-1")));
    out.push((to_string_of("internal_ext"), to_string_of("0")));
    out.push((to_string_of("sup_ws_ds_opt"), to_string_of("1")));
    out.push((to_string_of("resp_content_type"), to_string_of("json")));
    out.push((to_string_of("resp_type"), to_string_of("json")));
    out.push((to_string_of("verifyFp"), to_string_of(verify_fp)));
    out.push((to_string_of("msToken"), to_string_of(ms_token)));
    out.push((to_string_of("cursor"), to_string_of(cursor)));
    assert(pairs_view(out@) =~= im_fetch_params_spec(room_id@, cursor@, device_id@, verify_fp@, ms_token@));
    out
}

/// The parameters of a room liveness check.
pub open spec fn check_alive_params_spec(referer: Seq<char>, room_ids: Seq<char>, device_id: Seq<char>, root_referer: Seq<char>) -> Seq<(Seq<char>, Seq<char>)> {
    seq![
        ("aid"@, "1988"@),
        ("app_language"@, "zh-Hans"@),
        ("app_name"@, "tiktok_web"@),
        ("browser_language"@, "zh-CN"@),
        ("browser_name"@, "Mozilla"@),
        ("browser_online"@, "true"@),
        ("browser_platform"@, "Win32"@),
        ("browser_version"@, "Mozilla/5.0 (Windows NT 10.0; Win64; x64) AppleWebKit/537.36 (KHTML, like Gecko) Chrome/138.0.0.0 Safari/537.36"@),
        ("channel"@, "tiktok_web"@),
        ("cookie_enabled"@, "true"@),
        ("data_collection_enabled"@, "true"@),
        ("device_id"@, device_id),
        ("device_platform"@, "web_pc"@),
        ("focus_state"@, "false"@),
        ("from_page"@, ""@),
        ("history_len"@, "7"@),
        ("is_fullscreen"@, "false"@),
        ("is_page_visible"@, "true"@),
        ("os"@, "windows"@),
        ("priority_region"@, "JP"@),
        ("referer"@, referer),
        ("region"@, "JP"@),
        ("room_ids"@, room_ids),
        ("root_referer"@, root_referer),
    ]
}

/// The parameters of a room liveness check (`check_alive_params_spec`); `room_ids` joined by commas.
pub fn check_alive_params(referer: &str, room_ids: &str, device_id: &str, root_referer: &str) -> (r: Vec<(String, String)>)
    ensures
        pairs_view(r@) == check_alive_params_spec(referer@, room_ids@, device_id@, root_referer@),
{
    let mut out: Vec<(String, String)> = Vec::new();
    out.push((to_string_of("aid"), to_string_of("1988")));
    out.push((to_string_of("app_language"), to_string_of("zh-Hans")));
    out.push((to_string_of("app_name"), to_string_of("tiktok_web")));
    out.push((to_string_of("browser_language"), to_string_of("zh-CN")));
    out.push((to_string_of("browser_name"), to_string_of("Mozilla")));
    out.push((to_string_of("browser_online"), to_string_of("true")));
    out.push((to_string_of("browser_platform"), to_string_of("Win32")));
    out.push((to_string_of("browser_version"), to_string_of("Mozilla/5.0 (Windows NT 10.0; Win64; x64) AppleWebKit/537.36 (KHTML, like Gecko) Chrome/138.0.0.0 Safari/537.36")));
    out.push((to_string_of("channel"), to_string_of("tiktok_web")));
    out.push((to_string_of("cookie_enabled"), to_string_of("true")));
    out.push((to_string_of("data_collection_enabled"), to_string_of("true")));
    out.push((to_string_of("device_id"), to_string_of(device_id)));
    out.push((to_string_of("device_platform"), to_string_of("web_pc")));
    out.push((to_string_of("focus_state"), to_string_of("false")));
    out.push((to_string_of("from_page"), to_string_of("")));
    out.push((to_string_of("history_len"), to_string_of("7")));
    out.push((to_string_of("is_fullscreen"), to_string_of("false")));
    out.push((to_string_of("is_page_visible"), to_string_of("true")));
    out.push((to_string_of("os"), to_string_of("windows")));
    out.push((to_string_of("priority_region"), to_string_of("JP")));
    out.push((to_string_of("referer"), to_string_of(referer)));
    out.push((to_string_of("region"), to_string_of("JP")));
    out.push((to_string_of("room_ids"), to_string_of(room_ids)));
    out.push((to_string_of("root_referer"), to_string_of(root_referer)));
    assert(pairs_view(out@) =~= check_alive_params_spec(referer@, room_ids@, device_id@, root_referer@));
    out
}

/// The parameters of a room enter request.
pub open spec fn room_enter_params_spec(referer: Seq<char>, device_id: Seq<char>, root_referer: Seq<char>, verify_fp: Seq<char>, ms_token: Seq<char>) -> Seq<(Seq<char>, Seq<char>)> {
    seq![
        ("aid"@, "1988"@),
        ("app_language"@, "zh-Hans"@),
        ("app_name"@, "tiktok_web"@),
        ("browser_language"@, "zh-CN"@),
        ("browser_name"@, "Mozilla"@),
        ("browser_online"@, "true"@),
        ("browser_platform"@, "Win32"@),
        ("browser_version"@, "Mozilla/5.0 (Windows NT 10.0; Win64; x64) AppleWebKit/537.36 (KHTML, like Gecko) Chrome/138.0.0.0 Safari/537.36"@),
        ("channel"@, "tiktok_web"@),
        ("cookie_enabled"@, "true"@),
        ("data_collection_enabled"@, "true"@),
        ("device_id"@, device_id),
        ("device_platform"@, "web_pc"@),
        ("device_type"@, "web_h265"@),
        ("focus_state"@, "true"@),
        ("from_page"@, ""@),
        ("history_len"@, "13"@),
        ("is_fullscreen"@, "false"@),
        ("is_page_visible"@, "true"@),
        ("os"@, "windows"@),
        ("priority_region"@, "JP"@),
        ("referer"@, referer),
        ("region"@, "JP"@),
        ("root_referer"@, root_referer),
        ("screen_height"@, "1440"@),
        ("screen_width"@, "2560"@),
        ("tz_name"@, "Asia/Shanghai"@),
        ("user_is_login"@, "true"@),
        ("verifyFp"@, verify_fp),
        ("webcast_language"@, "zh-Hans"@),
        ("msToken"@, ms_token),
    ]
}

/// The parameters of a room enter request (`room_enter_params_spec`).
pub fn room_enter_params(referer: &str, device_id: &str, root_referer: &str, verify_fp: &str, ms_token: &str) -> (r: Vec<(String, String)>)
    ensures
        pairs_view(r@) == room_enter_params_spec(referer@, device_id@, root_referer@, verify_fp@, ms_token@),
{
    let mut out: Vec<(String, String)> = Vec::new();
    out.push((to_string_of("aid"), to_string_of("1988")));
    out.push((to_string_of("app_language"), to_string_of("zh-Hans")));
    out.push((to_string_of("app_name"), to_string_of("tiktok_web")));
    out.push((to_string_of("browser_language"), to_string_of("zh-CN")));
    out.push((to_string_of("browser_name"), to_string_of("Mozilla")));
    out.push((to_string_of("browser_online"), to_string_of("true")));
    out.push((to_string_of("browser_platform"), to_string_of("Win32")));
    out.push((to_string_of("browser_version"), to_string_of("Mozilla/5.0 (Windows NT 10.0; Win64; x64) AppleWebKit/537.36 (KHTML, like Gecko) Chrome/138.0.0.0 Safari/537.36")));
    out.push((to_string_of("channel"), to_string_of("tiktok_web")));
    out.push((to_string_of("cookie_enabled"), to_string_of("true")));
    out.push((to_string_of("data_collection_enabled"), to_string_of("true")));
    out.push((to_string_of("device_id"), to_string_of(device_id)));
    out.push((to_string_of("device_platform"), to_string_of("web_pc")));
    out.push((to_string_of("device_type"), to_string_of("web_h265")));
    out.push((to_string_of("focus_state"), to_string_of("true")));
    out.push((to_string_of("from_page"), to_string_of("")));
    out.push((to_string_of("history_len"), to_string_of("13")));
    out.push((to_string_of("is_fullscreen"), to_string_of("false")));
    out.push((to_string_of("is_page_visible"), to_string_of("true")));
    out.push((to_string_of("os"), to_string_of("windows")));
    out.push((to_string_of("priority_region"), to_string_of("JP")));
    out.push((to_string_of("referer"), to_string_of(referer)));
    out.push((to_string_of("region"), to_string_of("JP")));
    out.push((to_string_of("root_referer"), to_string_of(root_referer)));
    out.push((to_string_of("screen_height"), to_string_of("1440")));
    out.push((to_string_of("screen_width"), to_string_of("2560")));
    out.push((to_string_of("tz_name"), to_string_of("Asia/Shanghai")));
    out.push((to_string_of("user_is_login"), to_string_of("true")));
    out.push((to_string_of("verifyFp"), to_string_of(verify_fp)));
    out.push((to_string_of("webcast_language"), to_string_of("zh-Hans")));
    out.push((to_string_of("msToken"), to_string_of(ms_token)));
    assert(pairs_view(out@) =~= room_enter_params_spec(referer@, device_id@, root_referer@, verify_fp@, ms_token@));
    out
}

/// The parameters of an account info request.
pub open spec fn account_info_params_spec(referer: Seq<char>, device_id: Seq<char>, root_referer: Seq<char>, verify_fp: Seq<char>, ms_token: Seq<char>) -> Seq<(Seq<char>, Seq<char>)> {
    seq![
        ("aid"@, "1459"@),
        ("app_language"@, "zh"@),
        ("app_name"@, "tiktok_web"@),
        ("browser_language"@, "zh-CN"@),
        ("browser_name"@, "Mozilla"@),
        ("browser_online"@, "true"@),
        ("browser_platform"@, "Win32"@),
        ("browser_version"@, "Mozilla/5.0 (Windows NT 10.0; Win64; x64) AppleWebKit/537.36 (KHTML, like Gecko) Chrome/138.0.0.0 Safari/537.36"@),
        ("channel"@, "tiktok_web"@),
        ("cookie_enabled"@, "true"@),
        ("data_collection_enabled"@, "true"@),
        ("device_id"@, device_id),
        ("device_platform"@, "web_pc"@),
        ("focus_state"@, "false"@),
        ("from_page"@, ""@),
        ("history_len"@, "7"@),
        ("is_fullscreen"@, "false"@),
        ("is_page_visible"@, "true"@),
        ("locale"@, "zh-Hans"@),
        ("os"@, "windows"@),
        ("priority_region"@, "JP"@),
        ("referer"@, referer),
        ("region"@, "JP"@),
        ("root_referer"@, root_referer),
        ("screen_height"@, "1440"@),
        ("screen_width"@, "2560"@),
        ("tz_name"@, "Asia/Shanghai"@),
        ("user_is_login"@, "true"@),
        ("verifyFp"@, verify_fp),
        ("webcast_language"@, "zh-Hans"@),
        ("msToken"@, ms_token),
    ]
}

/// The parameters of an account info request (`account_info_params_spec`).
pub fn account_info_params(referer: &str, device_id: &str, root_referer: &str, verify_fp: &str, ms_token: &str) -> (r: Vec<(String, String)>)
    ensures
        pairs_view(r@) == account_info_params_spec(referer@, device_id@, root_referer@, verify_fp@, ms_token@),
{
    let mut out: Vec<(String, String)> = Vec::new();
    out.push((to_string_of("aid"), to_string_of("1459")));
    out.push((to_string_of("app_language"), to_string_of("zh")));
    out.push((to_string_of("app_name"), to_string_of("tiktok_web")));
    out.push((to_string_of("browser_language"), to_string_of("zh-CN")));
    out.push((to_string_of("browser_name"), to_string_of("Mozilla")));
    out.push((to_string_of("browser_online"), to_string_of("true")));
    out.push((to_string_of("browser_platform"), to_string_of("Win32")));
    out.push((to_string_of("browser_version"), to_string_of("Mozilla/5.0 (Windows NT 10.0; Win64; x64) AppleWebKit/537.36 (KHTML, like Gecko) Chrome/138.0.0.0 Safari/537.36")));
    out.push((to_string_of("channel"), to_string_of("tiktok_web")));
    out.push((to_string_of("cookie_enabled"), to_string_of("true")));
    out.push((to_string_of("data_collection_enabled"), to_string_of("true")));
    out.push((to_string_of("device_id"), to_string_of(device_id)));
    out.push((to_string_of("device_platform"), to_string_of("web_pc")));
    out.push((to_string_of("focus_state"), to_string_of("false")));
    out.push((to_string_of("from_page"), to_string_of("")));
    out.push((to_string_of("history_len"), to_string_of("7")));
    out.push((to_string_of("is_fullscreen"), to_string_of("false")));
    out.push((to_string_of("is_page_visible"), to_string_of("true")));
    out.push((to_string_of("locale"), to_string_of("zh-Hans")));
    out.push((to_string_of("os"), to_string_of("windows")));
    out.push((to_string_of("priority_region"), to_string_of("JP")));
    out.push((to_string_of("referer"), to_string_of(referer)));
    out.push((to_string_of("region"), to_string_of("JP")));
    out.push((to_string_of("root_referer"), to_string_of(root_referer)));
    out.push((to_string_of("screen_height"), to_string_of("1440")));
    out.push((to_string_of("screen_width"), to_string_of("2560")));
    out.push((to_string_of("tz_name"), to_string_of("Asia/Shanghai")));
    out.push((to_string_of("user_is_login"), to_string_of("true")));
    out.push((to_string_of("verifyFp"), to_string_of(verify_fp)));
    out.push((to_string_of("webcast_language"), to_string_of("zh-Hans")));
    out.push((to_string_of("msToken"), to_string_of(ms_token)));
    assert(pairs_view(out@) =~= account_info_params_spec(referer@, device_id@, root_referer@, verify_fp@, ms_token@));
    out
}

/// The parameters of an auth broadcast request.
pub open spec fn auth_broadcast_params_spec(now: Seq<char>, device_id: Seq<char>, verify_fp: Seq<char>, ms_token: Seq<char>) -> Seq<(Seq<char>, Seq<char>)> {
    seq![
        ("WebIdLastTime"@, now),
        ("aid"@, "1988"@),
        ("app_language"@, "zh-Hans"@),
        ("app_name"@, "tiktok_web"@),
        ("browser_language"@, "zh-CN"@),
        ("browser_name"@, "Mozilla"@),
        ("browser_online"@, "true"@),
        ("browser_platform"@, "Win32"@),
        ("browser_version"@, "Mozilla/5.0 (Windows NT 10.0; Win64; x64) AppleWebKit/537.36 (KHTML, like Gecko) Chrome/141.0.0.0 Safari/537.36"@),
        ("channel"@, "tiktok_web"@),
        ("cookie_enabled"@, "true"@),
        ("data_collection_enabled"@, "true"@),
        ("device_id"@, device_id),
        ("device_platform"@, "web_pc"@),
        ("focus_state"@, "false"@),
        ("history_len"@, "6"@),
        ("is_fullscreen"@, "false"@),
        ("is_page_visible"@, "true"@),
        ("os"@, "windows"@),
        ("region"@, "TW"@),
        ("screen_height"@, "1440"@),
        ("screen_width"@, "2560"@),
        ("tz_name"@, "Asia/Shanghai"@),
        ("user_is_login"@, "false"@),
        ("verifyFp"@, verify_fp),
        ("webcast_language"@, "zh-Hans"@),
        ("msToken"@, ms_token),
    ]
}

/// The parameters of an auth broadcast request (`auth_broadcast_params_spec`); `now` is the current time in seconds, as text.
pub fn auth_broadcast_params(now: &str, device_id: &str, verify_fp: &str, ms_token: &str) -> (r: Vec<(String, String)>)
    ensures
        pairs_view(r@) == auth_broadcast_params_spec(now@, device_id@, verify_fp@, ms_token@),
{
    let mut out: Vec<(String, String)> = Vec::new();
    out.push((to_string_of("WebIdLastTime"), to_string_of(now)));
    out.push((to_string_of("aid"), to_string_of("1988")));
    out.push((to_string_of("app_language"), to_string_of("zh-Hans")));
    out.push((to_string_of("app_name"), to_string_of("tiktok_web")));
    out.push((to_string_of("browser_language"), to_string_of("zh-CN")));
    out.push((to_string_of("browser_name"), to_string_of("Mozilla")));
    out.push((to_string_of("browser_online"), to_string_of("true")));
    out.push((to_string_of("browser_platform"), to_string_of("Win32")));
    out.push((to_string_of("browser_version"), to_string_of("Mozilla/5.0 (Windows NT 10.0; Win64; x64) AppleWebKit/537.36 (KHTML, like Gecko) Chrome/141.0.0.0 Safari/537.36")));
    out.push((to_string_of("channel"), to_string_of("tiktok_web")));
    out.push((to_string_of("cookie_enabled"), to_string_of("true")));
    out.push((to_string_of("data_collection_enabled"), to_string_of("true")));
    out.push((to_string_of("device_id"), to_string_of(device_id)));
    out.push((to_string_of("device_platform"), to_string_of("web_pc")));
    out.push((to_string_of("focus_state"), to_string_of("false")));
    out.push((to_string_of("history_len"), to_string_of("6")));
    out.push((to_string_of("is_fullscreen"), to_string_of("false")));
    out.push((to_string_of("is_page_visible"), to_string_of("true")));
    out.push((to_string_of("os"), to_string_of("windows")));
    out.push((to_string_of("region"), to_string_of("TW")));
    out.push((to_string_of("screen_height"), to_string_of("1440")));
    out.push((to_string_of("screen_width"), to_string_of("2560")));
    out.push((to_string_of("tz_name"), to_string_of("Asia/Shanghai")));
    out.push((to_string_of("user_is_login"), to_string_of("false")));
    out.push((to_string_of("verifyFp"), to_string_of(verify_fp)));
    out.push((to_string_of("webcast_language"), to_string_of("zh-Hans")));
    out.push((to_string_of("msToken"), to_string_of(ms_token)));
    assert(pairs_view(out@) =~= auth_broadcast_params_spec(now@, device_id@, verify_fp@, ms_token@));
    out
}

/// The query of an auth broadcast request, at `now` (seconds).
pub fn build_auth_broadcast_query(device_id: &str, verify_fp: &str, ms_token: &str, now: i64) -> (r: String)
    ensures
        r@ == form_query(auth_broadcast_params_spec(signed_decimal(now as int), device_id@, verify_fp@, ms_token@)),
{
    let n = crate::json::number_to_string(&crate::json::JsonNumber::NegInt(now));
    let ps = auth_broadcast_params(n.as_str(), device_id, verify_fp, ms_token);
    build_query(&ps)
}

/// The message of a liveness check without room ids.
pub open spec fn no_room_ids_message() -> Seq<char> {
    "TikTok check_alive missing room ids"@
}

/// The room ids of a liveness check joined by commas; an error when there
/// are none.
pub fn check_alive_room_ids(room_ids: &Vec<String>) -> (r: Result<String, crate::tiktok::RecorderError>)
    ensures
        room_ids@.len() == 0 ==> (r matches Err(crate::tiktok::RecorderError::ApiError { error }) && error@ == no_room_ids_message()),
        room_ids@.len() > 0 ==> (r matches Ok(s) && s@ == join(room_ids@.map_values(|x: String| x@), ","@)),
{
    if room_ids.len() == 0 {
        return Err(crate::tiktok::RecorderError::ApiError { error: to_string_of("TikTok check_alive missing room ids") });
    }
    let mut parts: Vec<Vec<char>> = Vec::new();
    let mut i: usize = 0;
    while i < room_ids.len()
        invariant
            i <= room_ids.len(),
            crate::text::views(parts@) == room_ids@.map_values(|x: String| x@).take(i as int),
        decreases room_ids.len() - i,
    {
        let c = chars_of(room_ids[i].as_str());
        let ghost before = crate::text::views(parts@);
        let ghost cv = c@;
        parts.push(c);
        assert(crate::text::views(parts@) =~= before.push(cv));
        assert(cv == room_ids@.map_values(|x: String| x@)[i as int]);
        assert(crate::text::views(parts@) =~= room_ids@.map_values(|x: String| x@).take(i as int + 1));
        i = i + 1;
    }
    assert(room_ids@.map_values(|x: String| x@).take(room_ids.len() as int) =~= room_ids@.map_values(|x: String| x@));
    let joined = crate::text::join_chars(&parts, chars_of(",").as_slice());
    Ok(string_of(joined.as_slice()))
}

} // verus!

verus! {

// ---------------------------------------------------------------------------
// Following a login link
// ---------------------------------------------------------------------------

/// The value of the first query pair named `key`.
pub open spec fn first_pair_value(ps: Seq<(Seq<char>, Seq<char>)>, key: Seq<char>) -> Option<Seq<char>>
    decreases ps.len(),
{
    if ps.len() == 0 {
        None
    } else if ps[0].0 == key {
        Some(ps[0].1)
    } else {
        first_pair_value(ps.drop_first(), key)
    }
}

/// The `next_url` query parameter of a login link, decoded.
pub open spec fn next_url_of(target: Seq<char>) -> Option<Seq<char>> {
    match crate::cookie_json::url_parts(target) {
        Some((q, _)) => first_pair_value(q, "next_url"@),
        None => None,
    }
}

/// Exec `next_url_of`.
pub fn extract_next_url(target: &str) -> (r: Option<String>)
    ensures
        opt_view(r) == next_url_of(target@),
{
    match crate::cookie_json::parse_url_parts(target) {
        Some((q, _)) => {
            let ghost ps = pairs_view(q@);
            let mut i: usize = 0;
            assert(ps.skip(0) =~= ps);
            while i < q.len()
                invariant
                    i <= q.len(),
                    ps == pairs_view(q@),
                    next_url_of(target@) == first_pair_value(ps, "next_url"@),
                    first_pair_value(ps.skip(i as int), "next_url"@) == first_pair_value(ps, "next_url"@),
                decreases q.len() - i,
            {
                assert(ps.len() == q.len());
                assert(ps.skip(i as int).len() > 0);
                assert(ps.skip(i as int)[0] == (q@[i as int].0@, q@[i as int].1@));
                assert(ps.skip(i as int).drop_first() =~= ps.skip(i as int + 1));
                if crate::text::same_str(q[i].0.as_str(), "next_url") {
                    assert(first_pair_value(ps.skip(i as int), "next_url"@) == Some(q@[i as int].1@));
                    return Some(to_string_of(q[i].1.as_str()));
                }
                i = i + 1;
            }
            assert(ps.skip(q.len() as int) =~= Seq::<(Seq<char>, Seq<char>)>::empty());
            None
        },
        None => None,
    }
}

/// What `url::Url::parse(base)` and then `Url::join(location)` give, as
/// text; none when either fails.
pub uninterp spec fn url_joined(base: Seq<char>, location: Seq<char>) -> Option<Seq<char>>;

/// What `url::Url::parse` gives for a text, printed; none when it fails.
pub uninterp spec fn url_normalized(raw: Seq<char>) -> Option<Seq<char>>;

/// Calls `url::Url::parse` on `base`, then `Url::join` with `location`, and
/// prints the result. Its result is named (`url_joined`).
#[verifier::external_body]
fn join_url(base: &str, location: &str) -> (r: Option<String>)
    ensures
        opt_view(r) == url_joined(base@, location@),
{
    url::Url::parse(base).and_then(|b| b.join(location)).ok().map(|u| u.to_string())
}

/// Calls `url::Url::parse` and prints the result. Its result is named
/// (`url_normalized`).
#[verifier::external_body]
fn normalize_url(raw: &str) -> (r: Option<String>)
    ensures
        opt_view(r) == url_normalized(raw@),
{
    url::Url::parse(raw).ok().map(|u| u.to_string())
}

/// Where a login redirect leads: for a redirect with a non-empty location,
/// the location resolved against the current URL, else the location read on
/// its own; none (the chain stops) otherwise.
pub open spec fn redirect_target(current: Seq<char>, is_redirect: bool, location: Option<Seq<char>>) -> Option<Seq<char>> {
    if !is_redirect {
        None
    } else {
        match location {
            Some(l) => if l.len() == 0 {
                None
            } else {
                match url_joined(current, l) {
                    Some(u) => Some(u),
                    None => url_normalized(l),
                }
            },
            None => None,
        }
    }
}

/// Exec `redirect_target`.
pub fn next_redirect(current: &str, is_redirect: bool, location: Option<String>) -> (r: Option<String>)
    ensures
        opt_view(r) == redirect_target(current@, is_redirect, opt_view(location)),
{
    if !is_redirect {
        return None;
    }
    match location {
        Some(l) => {
            if l.unicode_len() == 0 {
                return None;
            }
            match join_url(current, l.as_str()) {
                Some(u) => Some(u),
                None => normalize_url(l.as_str()),
            }
        },
        None => None,
    }
}

/// The cookies a login chain starts with: those its first URL carries, then
/// those of the request's cookie header.
pub fn redirect_start_cookies(start_url: &str, header_cookie: Option<&str>) -> (m: CookieMap)
    ensures
        m.wf(),
        m@ == match crate::cookie_json::opt_str(header_cookie) {
            Some(h) => crate::cookie_json::url_cookie_merge(Map::empty(), start_url@).union_prefer_right(
                crate::cookie_map::parse_map(crate::cookies::cookie_parts(h)),
            ),
            None => crate::cookie_json::url_cookie_merge(Map::empty(), start_url@),
        },
{
    let mut m = CookieMap::new();
    crate::cookie_json::merge_cookie_map_from_url(&mut m, start_url);
    if let Some(h) = header_cookie {
        let extra = crate::cookie_map::parse_cookie_header(h);
        crate::cookie_map::merge_cookie_maps(&mut m, extra);
    }
    m
}

// ---------------------------------------------------------------------------
// Queries of signed URLs and playlist references
// ---------------------------------------------------------------------------

/// What `url::Url::parse(raw)`, then `Url::set_query(query)`, give,
/// printed; none when the parse fails.
pub uninterp spec fn url_requeried(raw: Seq<char>, query: Option<Seq<char>>) -> Option<Seq<char>>;

/// Calls `url::Url::parse`, then `Url::set_query` with `query` and prints the
/// URL. Its result is named (`url_requeried`).
#[verifier::external_body]
fn requery_url(raw: &str, query: Option<&str>) -> (r: Option<String>)
    ensures
        opt_view(r) == url_requeried(raw@, crate::cookie_json::opt_str(query)),
{
    match url::Url::parse(raw) {
        Ok(mut u) => {
            u.set_query(query);
            Some(u.to_string())
        },
        Err(_) => None,
    }
}

/// The pairs whose value is neither empty nor holds `{` (an unfilled
/// placeholder).
pub open spec fn filled_pairs(ps: Seq<(Seq<char>, Seq<char>)>) -> Seq<(Seq<char>, Seq<char>)>
    decreases ps.len(),
{
    if ps.len() == 0 {
        ps
    } else {
        let rest = filled_pairs(ps.drop_last());
        let p = ps.last();
        if p.1.len() == 0 || crate::text::has_char(p.1, '{') {
            rest
        } else {
            rest.push(p)
        }
    }
}

/// A URL without its empty or unfilled query parameters: the URL with the
/// query made of the other pairs (no query when none is left); the text
/// itself when it is not a URL.
pub open spec fn stripped_url(url: Seq<char>) -> Seq<char> {
    match crate::cookie_json::url_parts(url) {
        None => url,
        Some((q, _)) => {
            let nq = form_query(filled_pairs(q));
            match url_requeried(url, if nq.len() == 0 { None } else { Some(nq) }) {
                Some(u) => u,
                None => url,
            }
        },
    }
}

/// Exec `stripped_url`.
pub fn strip_empty_query_params(url: &str) -> (r: String)
    ensures
        r@ == stripped_url(url@),
{
    let (pairs, _) = match crate::cookie_json::parse_url_parts(url) {
        Some(parts) => parts,
        None => {
            return to_string_of(url);
        },
    };
    let ghost ps = pairs_view(pairs@);
    let mut kept: Vec<(String, String)> = Vec::new();
    let mut i: usize = 0;
    assert(ps.take(0) =~= Seq::<(Seq<char>, Seq<char>)>::empty());
    while i < pairs.len()
        invariant
            i <= pairs.len(),
            ps == pairs_view(pairs@),
            pairs_view(kept@) == filled_pairs(ps.take(i as int)),
        decreases pairs.len() - i,
    {
        assert(ps.take(i as int + 1).drop_last() =~= ps.take(i as int));
        let v = chars_of(pairs[i].1.as_str());
        let mut brace = false;
        let mut j: usize = 0;
        while j < v.len()
            invariant
                j <= v.len(),
                brace == exists|k: int| 0 <= k < j && v@[k] == '{',
            decreases v.len() - j,
        {
            if v[j] == '{' {
                brace = true;
            }
            j = j + 1;
        }
        if v.len() > 0 && !brace {
            let ghost before = pairs_view(kept@);
            kept.push((pairs[i].0.clone(), pairs[i].1.clone()));
            assert(pairs_view(kept@) =~= before.push(ps[i as int]));
        }
        i = i + 1;
    }
    assert(ps.take(pairs.len() as int) =~= ps);
    let nq = form_serialize(&kept);
    let requeried = if nq.unicode_len() == 0 {
        requery_url(url, None)
    } else {
        requery_url(url, Some(nq.as_str()))
    };
    match requeried {
        Some(u) => u,
        None => to_string_of(url),
    }
}

/// The query a signature is computed over: the URL's query pairs without
/// `X-Bogus` and `X-Gnarly`; none when the text is not a URL.
pub open spec fn sign_query(url: Seq<char>) -> Option<Seq<char>> {
    match crate::cookie_json::url_parts(url) {
        None => None,
        Some((q, _)) => Some(form_query(q.filter(|p: (Seq<char>, Seq<char>)| p.0 != "X-Bogus"@ && p.0 != "X-Gnarly"@))),
    }
}

/// Exec `sign_query`.
pub fn extract_sign_query(url: &str) -> (r: Option<String>)
    ensures
        opt_view(r) == sign_query(url@),
{
    let (pairs, _) = match crate::cookie_json::parse_url_parts(url) {
        Some(parts) => parts,
        None => {
            return None;
        },
    };
    let ghost ps = pairs_view(pairs@);
    let ghost keep = |p: (Seq<char>, Seq<char>)| p.0 != "X-Bogus"@ && p.0 != "X-Gnarly"@;
    let mut kept: Vec<(String, String)> = Vec::new();
    let mut i: usize = 0;
    assert(ps.take(0).filter(keep) =~= Seq::<(Seq<char>, Seq<char>)>::empty());
    while i < pairs.len()
        invariant
            i <= pairs.len(),
            ps == pairs_view(pairs@),
            keep == (|p: (Seq<char>, Seq<char>)| p.0 != "X-Bogus"@ && p.0 != "X-Gnarly"@),
            pairs_view(kept@) == ps.take(i as int).filter(keep),
        decreases pairs.len() - i,
    {
        let ghost before = pairs_view(kept@);
        assert(ps.take(i as int + 1).drop_last() =~= ps.take(i as int));
        reveal(Seq::filter);
        let k = pairs[i].0.as_str();
        if !crate::text::same_str(k, "X-Bogus") && !crate::text::same_str(k, "X-Gnarly") {
            kept.push((pairs[i].0.clone(), pairs[i].1.clone()));
            assert(pairs_view(kept@) =~= before.push(ps[i as int]));
        }
        assert(ps.take(i as int + 1).filter(keep) =~= pairs_view(kept@));
        i = i + 1;
    }
    assert(ps.take(pairs.len() as int) =~= ps);
    Some(form_serialize(&kept))
}

/// A playlist reference resolved against the playlist's URL: an absolute
/// `http://` or `https://` reference as it is, else the reference joined to
/// the base (none when that fails).
pub open spec fn resolved_uri(base: Seq<char>, uri: Seq<char>) -> Option<Seq<char>> {
    if crate::text::starts_with(uri, "http://"@) || crate::text::starts_with(uri, "https://"@) {
        Some(uri)
    } else {
        url_joined(base, uri)
    }
}

/// Exec `resolved_uri`.
pub fn resolve_uri(base: &str, uri: &str) -> (r: Option<String>)
    ensures
        opt_view(r) == resolved_uri(base@, uri@),
{
    let u = chars_of(uri);
    let h1 = chars_of("http://");
    let h2 = chars_of("https://");
    if crate::text::starts_with_chars(u.as_slice(), h1.as_slice()) || crate::text::starts_with_chars(
        u.as_slice(),
        h2.as_slice(),
    ) {
        return Some(to_string_of(uri));
    }
    join_url(base, uri)
}

} // verus!
