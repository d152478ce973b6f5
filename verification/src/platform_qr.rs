//! What the user interface gets for a QR login or a webview login on any
//! platform: the QR code to show, the login state, and the account's extra
//! data.
use vstd::prelude::*;
use crate::config::opt_view;
use crate::cookies::{
    concat_str, cookie_item_ci, cookie_list, cookie_list_from_header, cookie_parts,
    filter_kuaishou_cookie_header, full_pairs, get_item_from_cookies_ci, item_views, semi_sep,
    CookieItem,
};
use crate::json::{json_text, json_to_string, JsonData, JsonValue};
use crate::text::{chars_of, join, split_char, split_chars, starts_with, starts_with_chars, string_of, to_string_of, trim, trim_chars, views};
use crate::tiktok_data::UserInfo;
use crate::tiktok_qr::{status_view, TikTokQrInfo, TikTokQrStatus};

verus! {

// ---------------------------------------------------------------------------
// The account's extra data
// ---------------------------------------------------------------------------

#[derive(Debug)]
/// A login's cookies and the extra data stored with the account.
pub struct WebviewCookieResult {
    pub cookies: String,
    pub extra: String,
}

/// `{"user_id": .., "username": .., "avatar": ..}`.
pub open spec fn user_data(u: (Seq<char>, Seq<char>, Seq<char>)) -> JsonData {
    JsonData::Object(
        seq![
            ("avatar"@, JsonData::Str(u.2)),
            ("user_id"@, JsonData::Str(u.0)),
            ("username"@, JsonData::Str(u.1)),
        ],
    )
}

/// `{"name": .., "value": ..}`.
pub open spec fn item_data(c: (Seq<char>, Seq<char>)) -> JsonData {
    JsonData::Object(seq![("name"@, JsonData::Str(c.0)), ("value"@, JsonData::Str(c.1))])
}

/// `{"cookies": [..]}`: the cookie items of an account's extra data.
pub open spec fn cookie_info_data(items: Seq<(Seq<char>, Seq<char>)>) -> JsonData {
    JsonData::Object(
        seq![("cookies"@, JsonData::Array(items.map_values(|c: (Seq<char>, Seq<char>)| item_data(c))))],
    )
}

/// The extra data of an account as JSON text, members in this order:
/// `cookie_info` (the cookie items), empty `token_info` and
/// `platform_tokens`, and the user under `user_info` and `login_info`.
pub open spec fn account_extra_text(
    items: Seq<(Seq<char>, Seq<char>)>,
    user: (Seq<char>, Seq<char>, Seq<char>),
) -> Seq<char> {
    "{\"cookie_info\":"@ + json_text(cookie_info_data(items)) + ",\"token_info\":{},\"platform_tokens\":{},\"user_info\":"@
        + json_text(user_data(user)) + ",\"login_info\":"@ + json_text(user_data(user)) + "}"@
}

/// A user as id, name and avatar.
pub open spec fn user_triple(u: &UserInfo) -> (Seq<char>, Seq<char>, Seq<char>) {
    (u.user_id@, u.user_name@, u.user_avatar@)
}

/// Exec `user_data`.
fn user_value(u: &UserInfo) -> (r: JsonValue)
    ensures
        r@ == user_data(user_triple(u)),
{
    let mut m: Vec<(String, JsonValue)> = Vec::new();
    m.push((to_string_of("avatar"), JsonValue::Str(u.user_avatar.clone())));
    m.push((to_string_of("user_id"), JsonValue::Str(u.user_id.clone())));
    m.push((to_string_of("username"), JsonValue::Str(u.user_name.clone())));
    proof {
        crate::json::lemma_object_data(m);
        assert(crate::json::entries_data(m@) =~= user_data(user_triple(u))->Object_0);
    }
    JsonValue::Object(m)
}

/// The cookie items of an account's extra data as a document
/// (`cookie_info_data`).
pub fn cookie_info_value(cookie_list: &Vec<CookieItem>) -> (r: JsonValue)
    ensures
        r@ == cookie_info_data(item_views(cookie_list@)),
{
    let ghost iv = item_views(cookie_list@);
    let mut items: Vec<JsonValue> = Vec::new();
    let mut i: usize = 0;
    while i < cookie_list.len()
        invariant
            i <= cookie_list.len(),
            iv == item_views(cookie_list@),
            items@.len() == i,
            forall|k: int| 0 <= k < i ==> (#[trigger] items@[k])@ == item_data(iv[k]),
        decreases cookie_list.len() - i,
    {
        let mut m: Vec<(String, JsonValue)> = Vec::new();
        m.push((to_string_of("name"), JsonValue::Str(cookie_list[i].name.clone())));
        m.push((to_string_of("value"), JsonValue::Str(cookie_list[i].value.clone())));
        proof {
            crate::json::lemma_object_data(m);
            assert(crate::json::entries_data(m@) =~= item_data(iv[i as int])->Object_0);
        }
        items.push(JsonValue::Object(m));
        i = i + 1;
    }
    proof {
        crate::json::lemma_array_data(items);
        assert(crate::json::items_data(items@) =~= iv.map_values(|c: (Seq<char>, Seq<char>)| item_data(c)));
    }
    let mut info: Vec<(String, JsonValue)> = Vec::new();
    info.push((to_string_of("cookies"), JsonValue::Array(items)));
    proof {
        crate::json::lemma_object_data(info);
        assert(crate::json::entries_data(info@) =~= cookie_info_data(iv)->Object_0);
    }
    JsonValue::Object(info)
}

/// The extra data of an account as JSON text (`account_extra_text`).
pub fn build_account_extra_json(cookie_list: &Vec<CookieItem>, user_info: &UserInfo) -> (r: String)
    ensures
        r@ == account_extra_text(item_views(cookie_list@), user_triple(user_info)),
{
    let info = json_to_string(&cookie_info_value(cookie_list));
    let user = json_to_string(&user_value(user_info));
    let mut out = to_string_of("{\"cookie_info\":");
    out.append(info.as_str());
    out.append(",\"token_info\":{},\"platform_tokens\":{},\"user_info\":");
    out.append(user.as_str());
    out.append(",\"login_info\":");
    out.append(user.as_str());
    out.append("}");
    out
}

/// A webview login's result: its cookie header, and as extra data the cookie
/// items together with the account's user.
pub fn build_webview_cookie_result(cookies: String, cookie_list: &Vec<CookieItem>, user: &UserInfo) -> (r: WebviewCookieResult)
    ensures
        r.cookies@ == cookies@,
        r.extra@ == account_extra_text(item_views(cookie_list@), user_triple(user)),
{
    let extra = build_account_extra_json(cookie_list, user);
    WebviewCookieResult { cookies, extra }
}

} // verus!

verus! {

// ---------------------------------------------------------------------------
// QR codes and QR login states, as the user interface gets them
// ---------------------------------------------------------------------------

#[derive(Debug)]
/// A QR code to show for any platform.
pub struct PlatformQrInfo {
    pub oauth_key: String,
    pub url: Option<String>,
    pub image: Option<String>,
}

#[derive(Debug)]
/// A QR login's state for any platform.
pub struct PlatformQrStatus {
    pub code: u8,
    pub cookies: String,
    pub message: Option<String>,
    pub extra: Option<String>,
}

/// The view of a QR code.
pub open spec fn info_view(i: PlatformQrInfo) -> (Seq<char>, Option<Seq<char>>, Option<Seq<char>>) {
    (i.oauth_key@, opt_view(i.url), opt_view(i.image))
}

/// The view of a QR login state.
pub open spec fn platform_status_view(s: PlatformQrStatus) -> (u8, Seq<char>, Option<Seq<char>>, Option<Seq<char>>) {
    (s.code, s.cookies@, opt_view(s.message), opt_view(s.extra))
}

/// `s`, unless it is empty.
pub open spec fn unless_empty_text(s: Seq<char>) -> Option<Seq<char>> {
    if s.len() > 0 {
        Some(s)
    } else {
        None
    }
}

/// An image as the user interface shows it: kept when it is already a
/// `data:image` URL (or, with `links`, an `http://` or `https://` link),
/// else taken as base64 PNG data.
pub open spec fn shown_image(raw: Seq<char>, links: bool) -> Seq<char> {
    if starts_with(raw, "data:image"@) || (links && (starts_with(raw, "http://"@) || starts_with(
        raw,
        "https://"@,
    ))) {
        raw
    } else {
        "data:image/png;base64,"@ + raw
    }
}

/// Exec `shown_image`.
pub fn show_image(raw: String, links: bool) -> (r: String)
    ensures
        r@ == shown_image(raw@, links),
{
    let c = chars_of(raw.as_str());
    if starts_with_chars(c.as_slice(), chars_of("data:image").as_slice()) || (links && (
    starts_with_chars(c.as_slice(), chars_of("http://").as_slice()) || starts_with_chars(
        c.as_slice(),
        chars_of("https://").as_slice(),
    ))) {
        raw
    } else {
        concat_str("data:image/png;base64,", raw.as_str())
    }
}

/// `s` unless it is empty.
fn unless_empty_string(s: String) -> (r: Option<String>)
    ensures
        opt_view(r) == unless_empty_text(s@),
{
    if s.unicode_len() > 0 {
        Some(s)
    } else {
        None
    }
}

/// An optional image as shown.
fn show_opt_image(image: Option<String>, links: bool) -> (r: Option<String>)
    ensures
        opt_view(r) == match opt_view(image) {
            Some(x) => Some(shown_image(x, links)),
            None => None,
        },
{
    match image {
        Some(raw) => Some(show_image(raw, links)),
        None => None,
    }
}

/// Bilibili's QR code: its key and page, no image.
pub fn bilibili_qr_info(oauth_key: String, url: String) -> (r: PlatformQrInfo)
    ensures
        info_view(r) == (oauth_key@, Some(url@), None::<Seq<char>>),
{
    PlatformQrInfo { oauth_key, url: Some(url), image: None }
}

/// Douyin's QR code: its key, its page unless empty, its image as shown
/// (`shown_image` without links).
pub fn douyin_qr_info(oauth_key: String, url: String, image: Option<String>) -> (r: PlatformQrInfo)
    ensures
        info_view(r) == (oauth_key@, unless_empty_text(url@), match opt_view(image) {
            Some(x) => Some(shown_image(x, false)),
            None => None,
        }),
{
    PlatformQrInfo { oauth_key, url: unless_empty_string(url), image: show_opt_image(image, false) }
}

/// Kuaishou's QR code: the key `token|signature|cookie`, no page, the image
/// data as a PNG data URL.
pub fn kuaishou_qr_info(token: &str, signature: &str, cookie: &str, image_data: &str) -> (r: PlatformQrInfo)
    ensures
        info_view(r) == (
            token@ + "|"@ + signature@ + "|"@ + cookie@,
            None::<Seq<char>>,
            Some("data:image/png;base64,"@ + image_data@),
        ),
{
    proof {
        reveal_strlit("|");
    }
    let mut key = String::new();
    key.append(token);
    key.append("|");
    key.append(signature);
    key.append("|");
    key.append(cookie);
    assert(key@ =~= token@ + "|"@ + signature@ + "|"@ + cookie@);
    PlatformQrInfo { oauth_key: key, url: None, image: Some(concat_str("data:image/png;base64,", image_data)) }
}

/// TikTok's QR code: its key, its page unless empty, its image as shown
/// (`shown_image` with links).
pub fn tiktok_qr_platform_info(info: TikTokQrInfo) -> (r: PlatformQrInfo)
    ensures
        info_view(r) == (info.oauth_key@, unless_empty_text(info.url@), match opt_view(info.image) {
            Some(x) => Some(shown_image(x, true)),
            None => None,
        }),
{
    PlatformQrInfo {
        oauth_key: info.oauth_key,
        url: unless_empty_string(info.url),
        image: show_opt_image(info.image, true),
    }
}

/// Bilibili's QR login state: code and cookies, no message.
pub fn bilibili_qr_status(code: u8, cookies: String) -> (r: PlatformQrStatus)
    ensures
        platform_status_view(r) == (code, cookies@, None::<Seq<char>>, None::<Seq<char>>),
{
    PlatformQrStatus { code, cookies, message: None, extra: None }
}

/// A QR login state with its message (Douyin, TikTok).
pub fn message_qr_status(code: u8, cookies: String, message: String) -> (r: PlatformQrStatus)
    ensures
        platform_status_view(r) == (code, cookies@, Some(message@), None::<Seq<char>>),
{
    PlatformQrStatus { code, cookies, message: Some(message), extra: None }
}

/// TikTok's QR login state, with its message.
pub fn tiktok_platform_qr_status(st: TikTokQrStatus) -> (r: PlatformQrStatus)
    ensures
        platform_status_view(r) == (status_view(st).0, status_view(st).1, Some(status_view(st).2), None::<Seq<char>>),
{
    message_qr_status(st.code, st.cookies, st.message)
}

/// The message of a Kuaishou QR key without a signature.
pub open spec fn invalid_kuaishou_key() -> Seq<char> {
    "Invalid Kuaishou QR key"@
}

/// A Kuaishou QR key's token, signature and cookie (`token|signature[|cookie]`);
/// an error without a signature.
pub fn kuaishou_qr_key(key: &str) -> (r: Result<(String, String, Option<String>), String>)
    ensures
        ({
            let p = split_char(key@, '|');
            match r {
                Ok((t, s, c)) => p.len() >= 2 && t@ == p[0] && s@ == p[1] && opt_view(c) == (if p.len() > 2 {
                    Some(p[2])
                } else {
                    None
                }),
                Err(e) => p.len() < 2 && e@ == invalid_kuaishou_key(),
            }
        }),
{
    let c = chars_of(key);
    let parts = split_chars(c.as_slice(), '|');
    proof {
        crate::cookie_map::lemma_split_nonempty(c@, '|');
    }
    if parts.len() < 2 {
        return Err(to_string_of("Invalid Kuaishou QR key"));
    }
    let cookie = if parts.len() > 2 {
        Some(string_of(parts[2].as_slice()))
    } else {
        None
    };
    Ok((string_of(parts[0].as_slice()), string_of(parts[1].as_slice()), cookie))
}

/// A platform that offers QR login.
#[derive(Debug, Clone, Copy, PartialEq, Eq, Structural)]
pub enum QrPlatform {
    BiliBili,
    Douyin,
    Kuaishou,
    TikTok,
}

/// The QR login platform a name stands for, if any (names are matched
/// exactly, in lower case).
pub open spec fn qr_platform_of(name: Seq<char>) -> Option<QrPlatform> {
    if name == "bilibili"@ {
        Some(QrPlatform::BiliBili)
    } else if name == "douyin"@ {
        Some(QrPlatform::Douyin)
    } else if name == "kuaishou"@ {
        Some(QrPlatform::Kuaishou)
    } else if name == "tiktok"@ {
        Some(QrPlatform::TikTok)
    } else {
        None
    }
}

/// The message for a platform without QR login.
pub open spec fn invalid_platform() -> Seq<char> {
    "Invalid platform"@
}

/// The QR login platform that `name` stands for; `Invalid platform` for any
/// other name.
pub fn qr_platform(name: &str) -> (r: Result<QrPlatform, String>)
    ensures
        match r {
            Ok(k) => qr_platform_of(name@) == Some(k),
            Err(e) => qr_platform_of(name@) is None && e@ == invalid_platform(),
        },
{
    if crate::text::same_str(name, "bilibili") {
        Ok(QrPlatform::BiliBili)
    } else if crate::text::same_str(name, "douyin") {
        Ok(QrPlatform::Douyin)
    } else if crate::text::same_str(name, "kuaishou") {
        Ok(QrPlatform::Kuaishou)
    } else if crate::text::same_str(name, "tiktok") {
        Ok(QrPlatform::TikTok)
    } else {
        Err(to_string_of("Invalid platform"))
    }
}

/// The QR login state request to make: which platform's endpoint is asked,
/// and with what key.
#[derive(Debug)]
pub enum QrStatusRequest {
    BiliBili { key: String },
    Douyin { key: String },
    Kuaishou { token: String, signature: String, cookie: Option<String> },
    TikTok { key: String },
}

/// The request for a QR login state on `platform` with `key`; `Invalid
/// platform` for a platform without QR login and `Invalid Kuaishou QR key`
/// for a Kuaishou key without a signature, in which cases nothing is asked.
pub fn qr_status_request(platform: &str, key: &str) -> (r: Result<QrStatusRequest, String>)
    ensures
        ({
            let p = split_char(key@, '|');
            match qr_platform_of(platform@) {
                None => r matches Err(e) && e@ == invalid_platform(),
                Some(QrPlatform::Kuaishou) => if p.len() < 2 {
                    r matches Err(e) && e@ == invalid_kuaishou_key()
                } else {
                    r matches Ok(QrStatusRequest::Kuaishou { token, signature, cookie }) && token@ == p[0]
                        && signature@ == p[1] && opt_view(cookie) == (if p.len() > 2 {
                        Some(p[2])
                    } else {
                        None
                    })
                },
                Some(QrPlatform::BiliBili) => r matches Ok(QrStatusRequest::BiliBili { key: k }) && k@ == key@,
                Some(QrPlatform::Douyin) => r matches Ok(QrStatusRequest::Douyin { key: k }) && k@ == key@,
                Some(QrPlatform::TikTok) => r matches Ok(QrStatusRequest::TikTok { key: k }) && k@ == key@,
            }
        }),
{
    match qr_platform(platform) {
        Err(e) => Err(e),
        Ok(QrPlatform::BiliBili) => Ok(QrStatusRequest::BiliBili { key: to_string_of(key) }),
        Ok(QrPlatform::Douyin) => Ok(QrStatusRequest::Douyin { key: to_string_of(key) }),
        Ok(QrPlatform::TikTok) => Ok(QrStatusRequest::TikTok { key: to_string_of(key) }),
        Ok(QrPlatform::Kuaishou) => match kuaishou_qr_key(key) {
            Err(e) => Err(e),
            Ok((token, signature, cookie)) => Ok(QrStatusRequest::Kuaishou { token, signature, cookie }),
        },
    }
}

/// A Kuaishou login's user id: the one the state names, else the trimmed
/// `userId` cookie; none when that is empty.
pub open spec fn kuaishou_user_id(user_id: Option<Seq<char>>, cookies: Seq<char>) -> Option<Seq<char>> {
    let picked = match user_id {
        Some(u) => Some(u),
        None => match cookie_item_ci("userId"@, cookies) {
            Some(v) => Some(trim(v)),
            None => None,
        },
    };
    match picked {
        Some(u) => unless_empty_text(u),
        None => None,
    }
}

/// A name or avatar that is not blank, else empty.
pub open spec fn non_blank_or_empty(v: Option<Seq<char>>) -> Seq<char> {
    match v {
        Some(x) => if trim(x).len() > 0 {
            x
        } else {
            Seq::<char>::empty()
        },
        None => Seq::<char>::empty(),
    }
}

/// Exec `non_blank_or_empty`.
fn non_blank_string(v: Option<String>) -> (r: String)
    ensures
        r@ == non_blank_or_empty(opt_view(v)),
{
    match v {
        Some(x) => {
            let c = chars_of(x.as_str());
            let t = trim_chars(c.as_slice());
            if t.len() > 0 {
                x
            } else {
                let e = String::new();
                assert(e@ =~= Seq::<char>::empty());
                e
            }
        },
        None => {
            let e = String::new();
            assert(e@ =~= Seq::<char>::empty());
            e
        },
    }
}

/// Kuaishou's QR login state: the cookie header cleaned (only full
/// `key=value` pairs), the message, and, when a user id is known
/// (`kuaishou_user_id`), the account's extra data for the cleaned cookies
/// and that user.
pub fn kuaishou_qr_status(
    code: u8,
    cookies: &str,
    message: Option<String>,
    user_id: Option<String>,
    user_name: Option<String>,
    user_avatar: Option<String>,
) -> (r: PlatformQrStatus)
    ensures
        ({
            let cleaned = join(full_pairs(cookie_parts(cookies@)), semi_sep());
            &&& r.code == code
            &&& r.cookies@ == cleaned
            &&& opt_view(r.message) == opt_view(message)
            &&& opt_view(r.extra) == match kuaishou_user_id(opt_view(user_id), cookies@) {
                Some(u) => Some(account_extra_text(
                    cookie_list(cookie_parts(cleaned)),
                    (u, non_blank_or_empty(opt_view(user_name)), non_blank_or_empty(opt_view(user_avatar))),
                )),
                None => None,
            }
        }),
{
    let picked: Option<String> = match user_id {
        Some(u) => Some(u),
        None => match get_item_from_cookies_ci("userId", cookies) {
            Ok(v) => {
                let c = chars_of(v.as_str());
                let t = trim_chars(c.as_slice());
                Some(string_of(t.as_slice()))
            },
            Err(_) => None,
        },
    };
    let uid = match picked {
        Some(u) => unless_empty_string(u),
        None => None,
    };
    let cleaned = filter_kuaishou_cookie_header(cookies);
    let extra = match uid {
        Some(u) => {
            let user = UserInfo {
                user_id: u,
                user_name: non_blank_string(user_name),
                user_avatar: non_blank_string(user_avatar),
            };
            let items = cookie_list_from_header(cleaned.as_str());
            Some(build_account_extra_json(&items, &user))
        },
        None => None,
    };
    PlatformQrStatus { code, cookies: cleaned, message, extra }
}

} // verus!
