//! The headers of TikTok's web requests, as a map from lowercase header
//! names to values: the fixed browser headers of each endpoint, the
//! account's cookies, and the ticket-guard headers set in the environment.
use vstd::prelude::*;
use crate::config::opt_view;
use crate::cookie_map::{build_cookie_string, is_cookie_string, CookieMap};
use crate::cookies::{header_value_accepts, header_value_ok};
use crate::text::{chars_of, lower_seq, string_of, to_string_of, trim, trim_chars};
use crate::tiktok::{iso_8859_1, Account};
use crate::tiktok_qr::base64_text;

verus! {

/// Headers by lowercase name; each name at most once.
pub type HeaderList = CookieMap;

/// `m` with each pair inserted, in order.
pub open spec fn inserts(m: Map<Seq<char>, Seq<char>>, ps: Seq<(Seq<char>, Seq<char>)>) -> Map<Seq<char>, Seq<char>>
    decreases ps.len(),
{
    if ps.len() == 0 {
        m
    } else {
        inserts(m, ps.drop_last()).insert(ps.last().0, ps.last().1)
    }
}

/// The views of literal pairs.
pub open spec fn lit_pairs(ps: Seq<(&str, &str)>) -> Seq<(Seq<char>, Seq<char>)> {
    ps.map_values(|p: (&str, &str)| (p.0@, p.1@))
}

/// Inserts literal pairs in order.
fn insert_all(h: &mut HeaderList, ps: &[(&str, &str)])
    requires
        old(h).wf(),
    ensures
        final(h).wf(),
        final(h)@ == inserts(old(h)@, lit_pairs(ps@)),
{
    let ghost start = h@;
    let ghost lp = lit_pairs(ps@);
    let mut i: usize = 0;
    assert(lp.take(0) =~= Seq::<(Seq<char>, Seq<char>)>::empty());
    while i < ps.len()
        invariant
            i <= ps.len(),
            lp == lit_pairs(ps@),
            h.wf(),
            h@ == inserts(start, lp.take(i as int)),
        decreases ps.len() - i,
    {
        assert(lp.take(i as int + 1).drop_last() =~= lp.take(i as int));
        assert(lp.take(i as int + 1).last() == (ps@[i as int].0@, ps@[i as int].1@));
        h.insert(ps[i].0, ps[i].1);
        i = i + 1;
    }
    assert(lp.take(ps.len() as int) =~= lp);
}

/// `m` with `value` under `name` when the value can stand in a header.
pub open spec fn try_insert(m: Map<Seq<char>, Seq<char>>, name: Seq<char>, value: Seq<char>) -> Map<Seq<char>, Seq<char>> {
    if header_value_ok(value) {
        m.insert(name, value)
    } else {
        m
    }
}

/// Exec `try_insert`.
fn try_set(h: &mut HeaderList, name: &str, value: &str)
    requires
        old(h).wf(),
    ensures
        final(h).wf(),
        final(h)@ == try_insert(old(h)@, name@, value@),
{
    if header_value_accepts(value) {
        h.insert(name, value);
    }
}

/// `m` with the account's cookies as `cookie`, when it has any.
pub open spec fn with_cookies(m: Map<Seq<char>, Seq<char>>, cookies: Seq<char>) -> Map<Seq<char>, Seq<char>> {
    if cookies.len() > 0 {
        m.insert("cookie"@, cookies)
    } else {
        m
    }
}

/// Exec `with_cookies`.
fn set_cookies(h: &mut HeaderList, account: &Account)
    requires
        old(h).wf(),
    ensures
        final(h).wf(),
        final(h)@ == with_cookies(old(h)@, account.cookies@),
{
    if account.cookies.unicode_len() > 0 {
        h.insert("cookie", account.cookies.as_str());
    }
}

// ---------------------------------------------------------------------------
// Ticket-guard headers
// ---------------------------------------------------------------------------

/// The environment settings copied to headers, and the header each goes to.
pub open spec fn extra_header_names() -> Seq<Seq<char>> {
    seq![
        "x-mssdk-info"@,
        "tt-ticket-guard-iteration-version"@,
        "tt-ticket-guard-public-key"@,
        "tt-ticket-guard-version"@,
        "tt-ticket-guard-web-version"@,
    ]
}

/// The client data header's value: the trimmed setting, as base64 of its
/// ISO-8859-1 bytes when it is JSON (starts with `{` or `[`).
pub open spec fn client_data_value(v: Seq<char>) -> Seq<char> {
    let t = trim(v);
    if t.len() > 0 && (t[0] == '{' || t[0] == '[') {
        base64_text(iso_8859_1(t))
    } else {
        t
    }
}

/// `m` with a setting's trimmed value under `name`, when it is set, not
/// blank and can stand in a header.
pub open spec fn with_setting(m: Map<Seq<char>, Seq<char>>, name: Seq<char>, v: Option<Seq<char>>) -> Map<Seq<char>, Seq<char>> {
    match v {
        Some(x) => if trim(x).len() > 0 {
            try_insert(m, name, trim(x))
        } else {
            m
        },
        None => m,
    }
}

/// The ticket-guard headers added from the settings `client_data`
/// (`TIKTOK_TT_TICKET_GUARD_CLIENT_DATA`) and `values` (`TIKTOK_X_MSSDK_INFO`,
/// `TIKTOK_TT_TICKET_GUARD_ITERATION_VERSION`, `.._PUBLIC_KEY`,
/// `.._VERSION`, `.._WEB_VERSION`, in that order).
pub open spec fn with_extra_headers(
    m: Map<Seq<char>, Seq<char>>,
    client_data: Option<Seq<char>>,
    values: Seq<Option<Seq<char>>>,
) -> Map<Seq<char>, Seq<char>> {
    let m0 = match client_data {
        Some(v) => if trim(v).len() > 0 {
            try_insert(m, "tt-ticket-guard-client-data"@, client_data_value(v))
        } else {
            m
        },
        None => m,
    };
    let n = extra_header_names();
    with_setting(with_setting(with_setting(with_setting(with_setting(m0, n[0], values[0]), n[1], values[1]), n[2], values[2]), n[3], values[3]), n[4], values[4])
}

#[derive(Debug)]
/// The settings the ticket-guard headers come from.
pub struct ExtraHeaderSettings {
    pub client_data: Option<String>,
    pub mssdk_info: Option<String>,
    pub iteration_version: Option<String>,
    pub public_key: Option<String>,
    pub version: Option<String>,
    pub web_version: Option<String>,
}

/// The settings' values, in header order.
pub open spec fn setting_values(s: ExtraHeaderSettings) -> Seq<Option<Seq<char>>> {
    seq![opt_view(s.mssdk_info), opt_view(s.iteration_version), opt_view(s.public_key), opt_view(s.version), opt_view(s.web_version)]
}

/// Exec `with_setting`.
fn set_setting(h: &mut HeaderList, name: &str, v: &Option<String>)
    requires
        old(h).wf(),
    ensures
        final(h).wf(),
        final(h)@ == with_setting(old(h)@, name@, opt_view(*v)),
{
    if let Some(x) = v {
        let c = chars_of(x.as_str());
        let t = trim_chars(c.as_slice());
        if t.len() > 0 {
            let ts = string_of(t.as_slice());
            try_set(h, name, ts.as_str());
        }
    }
}

/// Adds the ticket-guard headers (`with_extra_headers`).
pub fn apply_tiktok_extra_headers(h: &mut HeaderList, s: &ExtraHeaderSettings)
    requires
        old(h).wf(),
    ensures
        final(h).wf(),
        final(h)@ == with_extra_headers(old(h)@, opt_view(s.client_data), setting_values(*s)),
{
    if let Some(v) = &s.client_data {
        let c = chars_of(v.as_str());
        let t = trim_chars(c.as_slice());
        if t.len() > 0 {
            let value = if t[0] == '{' || t[0] == '[' {
                let ts = string_of(t.as_slice());
                let bytes = crate::tiktok::to_iso_8859_1_bytes(ts.as_str());
                crate::tiktok_qr::base64_encode(bytes.as_slice())
            } else {
                string_of(t.as_slice())
            };
            try_set(h, "tt-ticket-guard-client-data", value.as_str());
        }
    }
    proof {
        reveal_strlit("x-mssdk-info");
        reveal_strlit("tt-ticket-guard-iteration-version");
        reveal_strlit("tt-ticket-guard-public-key");
        reveal_strlit("tt-ticket-guard-version");
        reveal_strlit("tt-ticket-guard-web-version");
    }
    set_setting(h, "x-mssdk-info", &s.mssdk_info);
    set_setting(h, "tt-ticket-guard-iteration-version", &s.iteration_version);
    set_setting(h, "tt-ticket-guard-public-key", &s.public_key);
    set_setting(h, "tt-ticket-guard-version", &s.version);
    set_setting(h, "tt-ticket-guard-web-version", &s.web_version);
}

// ---------------------------------------------------------------------------
// The headers of each request
// ---------------------------------------------------------------------------

/// The fixed headers of feed requests.
pub open spec fn feed_header_list() -> Seq<(Seq<char>, Seq<char>)> {
    seq![
        ("user-agent"@, "Mozilla/5.0 (Windows NT 10.0; Win64; x64) AppleWebKit/537.36 (KHTML, like Gecko) Chrome/138.0.0.0 Safari/537.36"@),
        ("accept"@, "*/*"@),
        ("accept-language"@, "zh-CN,zh;q=0.9,en;q=0.8"@),
        ("origin"@, "https://www.tiktok.com"@),
        ("sec-ch-ua"@, "\"Not)A;Brand\";v=\"8\", \"Chromium\";v=\"138\", \"Google Chrome\";v=\"138\""@),
        ("sec-ch-ua-mobile"@, "?0"@),
        ("sec-ch-ua-platform"@, "\"Windows\""@),
        ("sec-fetch-dest"@, "empty"@),
        ("sec-fetch-mode"@, "cors"@),
        ("sec-fetch-site"@, "same-site"@),
        ("priority"@, "u=1, i"@),
        ("referer"@, "https://www.tiktok.com/"@),
    ]
}

/// The headers of a feed request: the fixed ones, the account's cookies,
/// the ticket-guard headers.
pub fn build_feed_headers(account: &Account, s: &ExtraHeaderSettings) -> (h: HeaderList)
    ensures
        h.wf(),
        h@ == with_extra_headers(
            with_cookies(inserts(Map::empty(), feed_header_list()), account.cookies@),
            opt_view(s.client_data),
            setting_values(*s),
        ),
{
    let mut h = CookieMap::new();
    let fixed: [(&str, &str); 12] = [
        ("user-agent", "Mozilla/5.0 (Windows NT 10.0; Win64; x64) AppleWebKit/537.36 (KHTML, like Gecko) Chrome/138.0.0.0 Safari/537.36"),
        ("accept", "*/*"),
        ("accept-language", "zh-CN,zh;q=0.9,en;q=0.8"),
        ("origin", "https://www.tiktok.com"),
        ("sec-ch-ua", "\"Not)A;Brand\";v=\"8\", \"Chromium\";v=\"138\", \"Google Chrome\";v=\"138\""),
        ("sec-ch-ua-mobile", "?0"),
        ("sec-ch-ua-platform", "\"Windows\""),
        ("sec-fetch-dest", "empty"),
        ("sec-fetch-mode", "cors"),
        ("sec-fetch-site", "same-site"),
        ("priority", "u=1, i"),
        ("referer", "https://www.tiktok.com/"),
    ];
    assert(lit_pairs(fixed@) =~= feed_header_list());
    insert_all(&mut h, &fixed);
    set_cookies(&mut h, account);
    apply_tiktok_extra_headers(&mut h, s);
    h
}

/// The fixed headers of chat polls (after the user agent).
pub open spec fn im_header_list() -> Seq<(Seq<char>, Seq<char>)> {
    seq![
        ("accept"@, "application/json"@),
        ("accept-language"@, "zh-CN,zh;q=0.9,en;q=0.8"@),
        ("sec-ch-ua"@, "\"Not)A;Brand\";v=\"8\", \"Chromium\";v=\"138\", \"Google Chrome\";v=\"138\""@),
        ("sec-ch-ua-mobile"@, "?0"@),
        ("sec-ch-ua-platform"@, "\"Windows\""@),
        ("sec-fetch-dest"@, "empty"@),
        ("sec-fetch-mode"@, "cors"@),
        ("sec-fetch-site"@, "same-site"@),
        ("priority"@, "u=1, i"@),
        ("referer"@, "https://www.tiktok.com/"@),
    ]
}

/// The headers of a chat poll: the user agent (the setting, else the feed
/// one), the fixed ones, the account's cookies, the ticket-guard headers.
pub fn build_im_headers(account: &Account, user_agent: &str, s: &ExtraHeaderSettings) -> (h: HeaderList)
    ensures
        h.wf(),
        h@ == with_extra_headers(
            with_cookies(inserts(Map::empty().insert("user-agent"@, user_agent@), im_header_list()), account.cookies@),
            opt_view(s.client_data),
            setting_values(*s),
        ),
{
    let mut h = CookieMap::new();
    h.insert("user-agent", user_agent);
    let fixed: [(&str, &str); 10] = [
        ("accept", "application/json"),
        ("accept-language", "zh-CN,zh;q=0.9,en;q=0.8"),
        ("sec-ch-ua", "\"Not)A;Brand\";v=\"8\", \"Chromium\";v=\"138\", \"Google Chrome\";v=\"138\""),
        ("sec-ch-ua-mobile", "?0"),
        ("sec-ch-ua-platform", "\"Windows\""),
        ("sec-fetch-dest", "empty"),
        ("sec-fetch-mode", "cors"),
        ("sec-fetch-site", "same-site"),
        ("priority", "u=1, i"),
        ("referer", "https://www.tiktok.com/"),
    ];
    assert(lit_pairs(fixed@) =~= im_header_list());
    insert_all(&mut h, &fixed);
    set_cookies(&mut h, account);
    apply_tiktok_extra_headers(&mut h, s);
    h
}

/// The fixed headers of a liveness check.
pub open spec fn check_alive_header_list() -> Seq<(Seq<char>, Seq<char>)> {
    seq![
        ("user-agent"@, "Mozilla/5.0 (Windows NT 10.0; Win64; x64) AppleWebKit/537.36 (KHTML, like Gecko) Chrome/138.0.0.0 Safari/537.36"@),
        ("accept"@, "*/*"@),
        ("accept-language"@, "zh-CN,zh;q=0.9,en;q=0.8"@),
        ("origin"@, "https://www.tiktok.com"@),
        ("sec-ch-ua"@, "\"Not)A;Brand\";v=\"8\", \"Chromium\";v=\"138\", \"Google Chrome\";v=\"138\""@),
        ("sec-ch-ua-mobile"@, "?0"@),
        ("sec-ch-ua-platform"@, "\"Windows\""@),
        ("sec-fetch-dest"@, "empty"@),
        ("sec-fetch-mode"@, "cors"@),
        ("sec-fetch-site"@, "same-site"@),
        ("priority"@, "u=1, i"@),
    ]
}

/// The headers of a liveness check: the fixed ones, the referer when it can
/// stand in a header, the account's cookies, the ticket-guard headers.
pub fn build_check_alive_headers(account: &Account, referer: &str, s: &ExtraHeaderSettings) -> (h: HeaderList)
    ensures
        h.wf(),
        h@ == with_extra_headers(
            with_cookies(try_insert(inserts(Map::empty(), check_alive_header_list()), "referer"@, referer@), account.cookies@),
            opt_view(s.client_data),
            setting_values(*s),
        ),
{
    let mut h = CookieMap::new();
    let fixed: [(&str, &str); 11] = [
        ("user-agent", "Mozilla/5.0 (Windows NT 10.0; Win64; x64) AppleWebKit/537.36 (KHTML, like Gecko) Chrome/138.0.0.0 Safari/537.36"),
        ("accept", "*/*"),
        ("accept-language", "zh-CN,zh;q=0.9,en;q=0.8"),
        ("origin", "https://www.tiktok.com"),
        ("sec-ch-ua", "\"Not)A;Brand\";v=\"8\", \"Chromium\";v=\"138\", \"Google Chrome\";v=\"138\""),
        ("sec-ch-ua-mobile", "?0"),
        ("sec-ch-ua-platform", "\"Windows\""),
        ("sec-fetch-dest", "empty"),
        ("sec-fetch-mode", "cors"),
        ("sec-fetch-site", "same-site"),
        ("priority", "u=1, i"),
    ];
    assert(lit_pairs(fixed@) =~= check_alive_header_list());
    insert_all(&mut h, &fixed);
    try_set(&mut h, "referer", referer);
    set_cookies(&mut h, account);
    apply_tiktok_extra_headers(&mut h, s);
    h
}

/// The fixed headers of an account info request.
pub open spec fn account_info_header_list() -> Seq<(Seq<char>, Seq<char>)> {
    seq![
        ("user-agent"@, "Mozilla/5.0 (Windows NT 10.0; Win64; x64) AppleWebKit/537.36 (KHTML, like Gecko) Chrome/138.0.0.0 Safari/537.36"@),
        ("accept"@, "*/*"@),
        ("accept-language"@, "zh-CN,zh;q=0.9,en;q=0.8"@),
        ("origin"@, "https://www.tiktok.com"@),
        ("sec-ch-ua"@, "\"Not)A;Brand\";v=\"8\", \"Chromium\";v=\"138\", \"Google Chrome\";v=\"138\""@),
        ("sec-ch-ua-mobile"@, "?0"@),
        ("sec-ch-ua-platform"@, "\"Windows\""@),
        ("sec-fetch-dest"@, "empty"@),
        ("sec-fetch-mode"@, "cors"@),
        ("sec-fetch-site"@, "same-origin"@),
        ("priority"@, "u=1, i"@),
    ]
}

/// The headers of an account info request: the fixed ones, the referer when
/// it can stand in a header, the account's cookies, the ticket-guard
/// headers.
pub fn build_account_info_headers(account: &Account, referer: &str, s: &ExtraHeaderSettings) -> (h: HeaderList)
    ensures
        h.wf(),
        h@ == with_extra_headers(
            with_cookies(try_insert(inserts(Map::empty(), account_info_header_list()), "referer"@, referer@), account.cookies@),
            opt_view(s.client_data),
            setting_values(*s),
        ),
{
    let mut h = CookieMap::new();
    let fixed: [(&str, &str); 11] = [
        ("user-agent", "Mozilla/5.0 (Windows NT 10.0; Win64; x64) AppleWebKit/537.36 (KHTML, like Gecko) Chrome/138.0.0.0 Safari/537.36"),
        ("accept", "*/*"),
        ("accept-language", "zh-CN,zh;q=0.9,en;q=0.8"),
        ("origin", "https://www.tiktok.com"),
        ("sec-ch-ua", "\"Not)A;Brand\";v=\"8\", \"Chromium\";v=\"138\", \"Google Chrome\";v=\"138\""),
        ("sec-ch-ua-mobile", "?0"),
        ("sec-ch-ua-platform", "\"Windows\""),
        ("sec-fetch-dest", "empty"),
        ("sec-fetch-mode", "cors"),
        ("sec-fetch-site", "same-origin"),
        ("priority", "u=1, i"),
    ];
    assert(lit_pairs(fixed@) =~= account_info_header_list());
    insert_all(&mut h, &fixed);
    try_set(&mut h, "referer", referer);
    set_cookies(&mut h, account);
    apply_tiktok_extra_headers(&mut h, s);
    h
}

/// The fixed headers of a room enter request.
pub open spec fn room_enter_header_list() -> Seq<(Seq<char>, Seq<char>)> {
    seq![
        ("user-agent"@, "Mozilla/5.0 (Windows NT 10.0; Win64; x64) AppleWebKit/537.36 (KHTML, like Gecko) Chrome/138.0.0.0 Safari/537.36"@),
        ("accept"@, "*/*"@),
        ("accept-language"@, "zh-CN,zh;q=0.9,en;q=0.8"@),
        ("origin"@, "https://www.tiktok.com"@),
        ("sec-ch-ua"@, "\"Not)A;Brand\";v=\"8\", \"Chromium\";v=\"138\", \"Google Chrome\";v=\"138\""@),
        ("sec-ch-ua-mobile"@, "?0"@),
        ("sec-ch-ua-platform"@, "\"Windows\""@),
        ("sec-fetch-dest"@, "empty"@),
        ("sec-fetch-mode"@, "cors"@),
        ("sec-fetch-site"@, "same-site"@),
        ("content-type"@, "application/x-www-form-urlencoded; charset=UTF-8"@),
        ("priority"@, "u=1, i"@),
    ]
}

/// The headers of a room enter request: the fixed ones, the referer and the
/// account's secsdk CSRF token when they can stand in a header, the
/// account's cookies, the ticket-guard headers.
pub fn build_room_enter_headers(account: &Account, referer: &str, s: &ExtraHeaderSettings) -> (h: HeaderList)
    ensures
        h.wf(),
        h@ == with_extra_headers(
            with_cookies(
                match crate::tiktok_account::secsdk_csrf_token(account.cookies@) {
                    Some(t) => try_insert(try_insert(inserts(Map::empty(), room_enter_header_list()), "referer"@, referer@), "x-secsdk-csrf-token"@, t),
                    None => try_insert(inserts(Map::empty(), room_enter_header_list()), "referer"@, referer@),
                },
                account.cookies@,
            ),
            opt_view(s.client_data),
            setting_values(*s),
        ),
{
    let mut h = CookieMap::new();
    let fixed: [(&str, &str); 12] = [
        ("user-agent", "Mozilla/5.0 (Windows NT 10.0; Win64; x64) AppleWebKit/537.36 (KHTML, like Gecko) Chrome/138.0.0.0 Safari/537.36"),
        ("accept", "*/*"),
        ("accept-language", "zh-CN,zh;q=0.9,en;q=0.8"),
        ("origin", "https://www.tiktok.com"),
        ("sec-ch-ua", "\"Not)A;Brand\";v=\"8\", \"Chromium\";v=\"138\", \"Google Chrome\";v=\"138\""),
        ("sec-ch-ua-mobile", "?0"),
        ("sec-ch-ua-platform", "\"Windows\""),
        ("sec-fetch-dest", "empty"),
        ("sec-fetch-mode", "cors"),
        ("sec-fetch-site", "same-site"),
        ("content-type", "application/x-www-form-urlencoded; charset=UTF-8"),
        ("priority", "u=1, i"),
    ];
    assert(lit_pairs(fixed@) =~= room_enter_header_list());
    insert_all(&mut h, &fixed);
    try_set(&mut h, "referer", referer);
    if let Some(token) = crate::tiktok_account::build_secsdk_csrf_token(account) {
        try_set(&mut h, "x-secsdk-csrf-token", token.as_str());
    }
    set_cookies(&mut h, account);
    apply_tiktok_extra_headers(&mut h, s);
    h
}

/// The browser headers of a page request before and after
/// `sec-ch-ua-mobile`.
pub open spec fn browser_header_lists() -> (Seq<(Seq<char>, Seq<char>)>, Seq<(Seq<char>, Seq<char>)>) {
    (seq![
        ("accept"@, "text/html,application/xhtml+xml,application/xml;q=0.9,image/avif,image/webp,*/*;q=0.8"@),
        ("accept-language"@, "en-US,en;q=0.9"@),
        ("sec-ch-ua"@, "\"Chromium\";v=\"141\", \"Not?A_Brand\";v=\"8\", \"Google Chrome\";v=\"141\""@),
    ], seq![
        ("sec-ch-ua-platform"@, "\"Windows\""@),
        ("sec-fetch-dest"@, "document"@),
        ("sec-fetch-mode"@, "navigate"@),
        ("sec-fetch-site"@, "none"@),
        ("sec-fetch-user"@, "?1"@),
        ("upgrade-insecure-requests"@, "1"@),
    ])
}

/// The headers of a page request: the user agent, the page as referer when
/// it can stand in a header, and a browser's navigation headers
/// (`sec-ch-ua-mobile` `?1` for a phone, else `?0`).
pub fn build_page_headers(url: &str, user_agent: &str, mobile: bool) -> (h: HeaderList)
    ensures
        h.wf(),
        h@ == inserts(
            inserts(
                try_insert(Map::empty().insert("user-agent"@, user_agent@), "referer"@, url@),
                browser_header_lists().0,
            ).insert("sec-ch-ua-mobile"@, if mobile { "?1"@ } else { "?0"@ }),
            browser_header_lists().1,
        ),
{
    let mut h = CookieMap::new();
    h.insert("user-agent", user_agent);
    try_set(&mut h, "referer", url);
    let pre: [(&str, &str); 3] = [
        ("accept", "text/html,application/xhtml+xml,application/xml;q=0.9,image/avif,image/webp,*/*;q=0.8"),
        ("accept-language", "en-US,en;q=0.9"),
        ("sec-ch-ua", "\"Chromium\";v=\"141\", \"Not?A_Brand\";v=\"8\", \"Google Chrome\";v=\"141\""),
    ];
    assert(lit_pairs(pre@) =~= browser_header_lists().0);
    insert_all(&mut h, &pre);
    proof {
        reveal_strlit("?1");
        reveal_strlit("?0");
    }
    h.insert("sec-ch-ua-mobile", if mobile { "?1" } else { "?0" });
    let post: [(&str, &str); 6] = [
        ("sec-ch-ua-platform", "\"Windows\""),
        ("sec-fetch-dest", "document"),
        ("sec-fetch-mode", "navigate"),
        ("sec-fetch-site", "none"),
        ("sec-fetch-user", "?1"),
        ("upgrade-insecure-requests", "1"),
    ];
    assert(lit_pairs(post@) =~= browser_header_lists().1);
    insert_all(&mut h, &post);
    h
}

/// The user agent of recorder requests.
pub open spec fn recorder_user_agent() -> Seq<char> {
    "Mozilla/5.0 (Windows NT 10.0; Win64; x64) AppleWebKit/537.36 (KHTML, like Gecko) Chrome/120.0.0.0 Safari/537.36"@
}

/// The headers of a recorder's stream requests: referer, origin, user agent
/// and the account's cookies.
pub fn build_tiktok_headers(account: &Account) -> (h: HeaderList)
    ensures
        h.wf(),
        h@ == with_cookies(
            Map::empty().insert("referer"@, "https://www.tiktok.com/"@).insert("origin"@, "https://www.tiktok.com"@).insert(
                "user-agent"@,
                recorder_user_agent(),
            ),
            account.cookies@,
        ),
{
    let mut h = CookieMap::new();
    h.insert("referer", "https://www.tiktok.com/");
    h.insert("origin", "https://www.tiktok.com");
    h.insert("user-agent", "Mozilla/5.0 (Windows NT 10.0; Win64; x64) AppleWebKit/537.36 (KHTML, like Gecko) Chrome/120.0.0.0 Safari/537.36");
    set_cookies(&mut h, account);
    h
}

/// The headers of a passport request: user agent, referer, the cookies as a
/// header when there are any, and `passport_csrf_token` as the CSRF header
/// when it is among them.
pub fn build_passport_headers(cookies: &CookieMap) -> (h: HeaderList)
    requires
        cookies.wf(),
    ensures
        h.wf(),
        exists|c: Seq<char>|
            is_cookie_string(cookies@, c) && h@ == ({
                let base = Map::empty().insert("user-agent"@, "Mozilla/5.0 (Windows NT 10.0; Win64; x64) AppleWebKit/537.36 (KHTML, like Gecko) Chrome/141.0.0.0 Safari/537.36"@).insert(
                    "referer"@,
                    "https://www.tiktok.com/"@,
                );
                let with_c = if c.len() > 0 {
                    base.insert("cookie"@, c)
                } else {
                    base
                };
                if cookies@.contains_key("passport_csrf_token"@) {
                    with_c.insert("x-tt-passport-csrf-token"@, cookies@["passport_csrf_token"@])
                } else {
                    with_c
                }
            }),
{
    let mut h = CookieMap::new();
    h.insert("user-agent", "Mozilla/5.0 (Windows NT 10.0; Win64; x64) AppleWebKit/537.36 (KHTML, like Gecko) Chrome/141.0.0.0 Safari/537.36");
    h.insert("referer", "https://www.tiktok.com/");
    let header = build_cookie_string(cookies);
    if header.unicode_len() > 0 {
        h.insert("cookie", header.as_str());
    }
    if let Some(csrf) = cookies.get("passport_csrf_token") {
        h.insert("x-tt-passport-csrf-token", csrf.as_str());
    }
    h
}

} // verus!
