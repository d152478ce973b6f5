//! TikTok: the URLs the recorder requests, its proxy, cooldown and protocol
//! settings, and the stream variants of a stream.
use vstd::prelude::*;
use crate::config::opt_view;
use crate::cookie_map::{parse_cookie_header, parse_map};
use crate::cookies::{concat_str, cookie_parts, first_some, lemma_first_some_step};
use crate::ids::hex_lower;
use crate::json::{all_digits, digits_value, parse_json_string, json_string_parse};
use crate::text::{
    chars_of, contains, contains_chars, has_char, has_char_chars, is_digit, lower_chars, lower_seq,
    replace_all, replace_chars, split_char, split_chars, starts_with, starts_with_chars, string_of,
    to_string_of, trim, trim_chars, views,
};

verus! {

#[derive(Debug)]
/// The account a request is made with: its id, display name and cookies.
pub struct Account {
    pub id: String,
    pub name: String,
    pub cookies: String,
}

/// The value of cookie `key` among an account's cookies: none when it has
/// no cookies, else the value the parsed cookie header gives the name.
pub open spec fn account_cookie(cookies: Seq<char>, key: Seq<char>) -> Option<Seq<char>> {
    if cookies.len() == 0 {
        None
    } else if parse_map(cookie_parts(cookies)).contains_key(key) {
        Some(parse_map(cookie_parts(cookies))[key])
    } else {
        None
    }
}

/// Exec `account_cookie`.
pub fn cookie_value_from_account(account: &Account, key: &str) -> (r: Option<String>)
    ensures
        opt_view(r) == account_cookie(account.cookies@, key@),
{
    if account.cookies.unicode_len() == 0 {
        return None;
    }
    let m = parse_cookie_header(account.cookies.as_str());
    m.get(key)
}

/// What went wrong in a TikTok request.
#[derive(Debug)]
pub enum RecorderError {
    NoStreamAvailable,
    ApiError { error: String },
}

// ---------------------------------------------------------------------------
// Proxy and cooldown
// ---------------------------------------------------------------------------

/// A proxy setting as a URL: blank gives none; one that starts with
/// `http://`, `https://`, `socks5://` or `socks5h://` is kept (trimmed); any
/// other gets `http://` in front.
pub open spec fn tiktok_proxy_url(raw: Seq<char>) -> Option<Seq<char>> {
    let t = trim(raw);
    if t.len() == 0 {
        None
    } else if starts_with(t, "http://"@) || starts_with(t, "https://"@) || starts_with(
        t,
        "socks5://"@,
    ) || starts_with(t, "socks5h://"@) {
        Some(t)
    } else {
        Some("http://"@ + t)
    }
}

/// The proxy URL of a proxy setting (`tiktok_proxy_url`).
pub fn normalize_proxy_url(raw: &str) -> (r: Option<String>)
    ensures
        opt_view(r) == tiktok_proxy_url(raw@),
{
    let c = chars_of(raw);
    let t = trim_chars(c.as_slice());
    if t.len() == 0 {
        return None;
    }
    let s = string_of(t.as_slice());
    if starts_with_chars(t.as_slice(), chars_of("http://").as_slice()) || starts_with_chars(
        t.as_slice(),
        chars_of("https://").as_slice(),
    ) || starts_with_chars(t.as_slice(), chars_of("socks5://").as_slice()) || starts_with_chars(
        t.as_slice(),
        chars_of("socks5h://").as_slice(),
    ) {
        Some(s)
    } else {
        Some(concat_str("http://", s.as_str()))
    }
}

/// The environment variables a TikTok proxy is read from, in order.
pub open spec fn proxy_env_key_list() -> Seq<Seq<char>> {
    seq![
        "TIKTOK_PROXY_URL"@,
        "tiktok_proxy_url"@,
        "HTTPS_PROXY"@,
        "https_proxy"@,
        "HTTP_PROXY"@,
        "http_proxy"@,
        "ALL_PROXY"@,
        "all_proxy"@,
    ]
}

/// The variables of `proxy_env_key_list`.
pub fn proxy_env_keys() -> (r: Vec<String>)
    ensures
        r@.map_values(|s: String| s@) == proxy_env_key_list(),
{
    let mut r: Vec<String> = Vec::new();
    r.push(to_string_of("TIKTOK_PROXY_URL"));
    r.push(to_string_of("tiktok_proxy_url"));
    r.push(to_string_of("HTTPS_PROXY"));
    r.push(to_string_of("https_proxy"));
    r.push(to_string_of("HTTP_PROXY"));
    r.push(to_string_of("http_proxy"));
    r.push(to_string_of("ALL_PROXY"));
    r.push(to_string_of("all_proxy"));
    assert(r@.map_values(|s: String| s@) =~= proxy_env_key_list());
    r
}

/// The proxy URL each present value gives.
pub open spec fn proxy_candidates(values: Seq<Option<String>>) -> Seq<Option<Seq<char>>> {
    values.map_values(
        |v: Option<String>|
            match v {
                Some(s) => tiktok_proxy_url(s@),
                None => None,
            },
    )
}

/// The proxy found in the environment: `values` are those of
/// `proxy_env_keys`, in order, `None` for an unset one; the first that gives
/// a proxy URL wins.
pub fn proxy_url_from_env(values: &Vec<Option<String>>) -> (r: Option<String>)
    ensures
        opt_view(r) == first_some(proxy_candidates(values@)),
{
    let ghost m = proxy_candidates(values@);
    let mut i: usize = 0;
    assert(m.take(0) =~= Seq::<Option<Seq<char>>>::empty());
    while i < values.len()
        invariant
            i <= values.len(),
            m == proxy_candidates(values@),
            first_some(m.take(i as int)) is None,
        decreases values.len() - i,
    {
        proof {
            lemma_first_some_step(m, i as int);
        }
        match &values[i] {
            Some(v) => match normalize_proxy_url(v.as_str()) {
                Some(u) => {
                    return Some(u);
                },
                None => {},
            },
            None => {},
        }
        i = i + 1;
    }
    assert(m.take(values.len() as int) =~= m);
    None
}

/// How long the API rests after it was refused, in seconds.
pub open spec fn cooldown_secs() -> int {
    120
}

/// Whether the API may be called at time `now` (seconds): once the cooldown
/// that ends at `cooldown_until` is over, or at any time while a proxy is
/// configured.
pub fn tiktok_api_allowed(now: i64, cooldown_until: i64, proxy: &Option<String>) -> (b: bool)
    ensures
        b == (now >= cooldown_until || proxy is Some),
{
    if now >= cooldown_until {
        return true;
    }
    proxy.is_some()
}

/// The end of a cooldown that starts at `now` (seconds).
pub fn set_tiktok_cooldown(now: i64) -> (until: i64)
    requires
        now + cooldown_secs() <= i64::MAX,
    ensures
        until == now + cooldown_secs(),
{
    now + 120
}

// ---------------------------------------------------------------------------
// Pages and URLs
// ---------------------------------------------------------------------------

/// A page is TikTok's wait page of its web firewall: its lowercase text
/// holds `slardar-config`, `slardarwaf`, `_wafchallengeid` or `please wait`.
pub open spec fn waf_wait_page(html: Seq<char>) -> bool {
    let l = lower_seq(html);
    contains(l, "slardar-config"@) || contains(l, "slardarwaf"@) || contains(
        l,
        "_wafchallengeid"@,
    ) || contains(l, "please wait"@)
}

/// Exec `waf_wait_page`.
pub fn is_waf_wait_page(html_str: &str) -> (b: bool)
    ensures
        b == waf_wait_page(html_str@),
{
    let c = chars_of(html_str);
    let l = lower_chars(c.as_slice());
    contains_chars(l.as_slice(), chars_of("slardar-config").as_slice()) || contains_chars(
        l.as_slice(),
        chars_of("slardarwaf").as_slice(),
    ) || contains_chars(l.as_slice(), chars_of("_wafchallengeid").as_slice()) || contains_chars(
        l.as_slice(),
        chars_of("please wait").as_slice(),
    )
}

/// The live page of a TikTok handle, or the home page for none.
pub fn build_live_referer(handle: &str) -> (r: String)
    ensures
        r@ == (if handle@.len() == 0 {
            "https://www.tiktok.com/"@
        } else {
            "https://www.tiktok.com/@"@ + handle@ + "/live"@
        }),
{
    if handle.unicode_len() == 0 {
        to_string_of("https://www.tiktok.com/")
    } else {
        let mut r = concat_str("https://www.tiktok.com/@", handle);
        r.append("/live");
        r
    }
}

/// The profile page of a TikTok handle, or the home page for none.
pub fn build_profile_referer(handle: &str) -> (r: String)
    ensures
        r@ == (if handle@.len() == 0 {
            "https://www.tiktok.com/"@
        } else {
            "https://www.tiktok.com/@"@ + handle@
        }),
{
    if handle.unicode_len() == 0 {
        to_string_of("https://www.tiktok.com/")
    } else {
        concat_str("https://www.tiktok.com/@", handle)
    }
}

/// The room-info endpoint for a room.
pub fn build_room_info_url(room_id: &str) -> (r: String)
    ensures
        r@ == "https://webcast.tiktok.com/webcast/room/info/?aid=1988&room_id="@ + room_id@,
{
    concat_str("https://webcast.tiktok.com/webcast/room/info/?aid=1988&room_id=", room_id)
}

/// The mobile form of a TikTok URL: one that already names `m.tiktok.com`
/// is kept, otherwise every `www.tiktok.com` becomes `m.tiktok.com`.
pub open spec fn mobile_url(url: Seq<char>) -> Seq<char> {
    if contains(url, "m.tiktok.com"@) {
        url
    } else {
        replace_all(url, "www.tiktok.com"@, "m.tiktok.com"@)
    }
}

/// Exec `mobile_url`.
pub fn to_mobile_url(url: &str) -> (r: String)
    ensures
        r@ == mobile_url(url@),
{
    let c = chars_of(url);
    if contains_chars(c.as_slice(), chars_of("m.tiktok.com").as_slice()) {
        return to_string_of(url);
    }
    let www = chars_of("www.tiktok.com");
    proof {
        reveal_strlit("www.tiktok.com");
    }
    let out = replace_chars(c.as_slice(), www.as_slice(), chars_of("m.tiktok.com").as_slice());
    string_of(out.as_slice())
}

/// The handle named in a TikTok URL: the first `/`-separated piece of the
/// part before `?` that is `@` followed by at least one character, without
/// the `@`; empty when there is none.
pub open spec fn handle_piece(p: Seq<char>) -> Option<Seq<char>> {
    if p.len() > 1 && p[0] == '@' {
        Some(p.drop_first())
    } else {
        None
    }
}

/// The handle candidates of the pieces of a URL path.
pub open spec fn handle_candidates(pieces: Seq<Seq<char>>) -> Seq<Option<Seq<char>>> {
    pieces.map_values(|p: Seq<char>| handle_piece(p))
}

/// See `handle_piece`.
pub open spec fn url_username(url: Seq<char>) -> Seq<char> {
    match first_some(handle_candidates(split_char(split_char(url, '?')[0], '/'))) {
        Some(h) => h,
        None => Seq::<char>::empty(),
    }
}

/// Exec `url_username`.
pub fn extract_username_from_url(url: &str) -> (r: String)
    ensures
        r@ == url_username(url@),
{
    let c = chars_of(url);
    let q = split_chars(c.as_slice(), '?');
    proof {
        crate::cookie_map::lemma_split_nonempty(url@, '?');
    }
    let head = &q[0];
    let pieces = split_chars(head.as_slice(), '/');
    let ghost pv = views(pieces@);
    let ghost m = handle_candidates(pv);
    assert(views(q@)[0] == q@[0]@);
    assert(pv == split_char(split_char(url@, '?')[0], '/'));
    let mut i: usize = 0;
    assert(m.take(0) =~= Seq::<Option<Seq<char>>>::empty());
    while i < pieces.len()
        invariant
            i <= pieces.len(),
            pv == views(pieces@),
            pv == split_char(split_char(url@, '?')[0], '/'),
            m == handle_candidates(pv),
            first_some(m.take(i as int)) is None,
        decreases pieces.len() - i,
    {
        proof {
            lemma_first_some_step(m, i as int);
        }
        assert(pv[i as int] == pieces@[i as int]@);
        assert(m[i as int] == handle_piece(pv[i as int]));
        let p = &pieces[i];
        if p.len() > 1 && p[0] == '@' {
            let mut out: Vec<char> = Vec::new();
            let mut k: usize = 1;
            while k < p.len()
                invariant
                    1 <= k <= p.len(),
                    out@ == p@.subrange(1, k as int),
                decreases p.len() - k,
            {
                out.push(p[k]);
                k = k + 1;
                assert(out@ =~= p@.subrange(1, k as int));
            }
            assert(p@.subrange(1, p@.len() as int) =~= p@.drop_first());
            return string_of(out.as_slice());
        }
        i = i + 1;
    }
    assert(m.take(pieces.len() as int) =~= m);
    String::new()
}

/// `url` with `codec=` appended, after `&` when it has a query and after `?`
/// otherwise; a blank codec, or a URL that already names one, is left as it
/// is.
pub open spec fn with_codec(url: Seq<char>, codec: Seq<char>) -> Seq<char> {
    if codec.len() == 0 || contains(url, "codec="@) {
        url
    } else {
        url + (if has_char(url, '?') {
            "&"@
        } else {
            "?"@
        }) + "codec="@ + codec
    }
}

/// Exec `with_codec`.
pub fn append_codec(url: &str, codec: &str) -> (r: String)
    ensures
        r@ == with_codec(url@, codec@),
{
    let c = chars_of(url);
    if codec.unicode_len() == 0 || contains_chars(c.as_slice(), chars_of("codec=").as_slice()) {
        return to_string_of(url);
    }
    let mut r = to_string_of(url);
    if has_char_chars(c.as_slice(), '?') {
        r.append("&");
    } else {
        r.append("?");
    }
    r.append("codec=");
    r.append(codec);
    r
}

/// The media line a line of a playlist stands for, if any: the trimmed line
/// when it is neither blank nor a `#` tag.
pub open spec fn media_line(line: Seq<char>) -> Option<Seq<char>> {
    let t = trim(line);
    if t.len() == 0 || t[0] == '#' {
        None
    } else {
        Some(t)
    }
}

/// The first media URI of an M3U8 playlist.
pub open spec fn first_media_uri(text: Seq<char>) -> Option<Seq<char>> {
    first_some(split_char(text, '\n').map_values(|l: Seq<char>| media_line(l)))
}

/// Exec `first_media_uri`.
pub fn extract_first_media_uri(m3u8_text: &str) -> (r: Option<String>)
    ensures
        opt_view(r) == first_media_uri(m3u8_text@),
{
    let c = chars_of(m3u8_text);
    let lines = split_chars(c.as_slice(), '\n');
    let ghost lv = views(lines@);
    let ghost m = split_char(m3u8_text@, '\n').map_values(|l: Seq<char>| media_line(l));
    assert(lv == split_char(m3u8_text@, '\n'));
    let mut i: usize = 0;
    assert(m.take(0) =~= Seq::<Option<Seq<char>>>::empty());
    while i < lines.len()
        invariant
            i <= lines.len(),
            lv == views(lines@),
            lv == split_char(m3u8_text@, '\n'),
            m == lv.map_values(|l: Seq<char>| media_line(l)),
            first_some(m.take(i as int)) is None,
        decreases lines.len() - i,
    {
        proof {
            lemma_first_some_step(m, i as int);
        }
        assert(lv[i as int] == lines@[i as int]@);
        assert(m[i as int] == media_line(lv[i as int]));
        let t = trim_chars(lines[i].as_slice());
        if t.len() > 0 && t[0] != '#' {
            return Some(string_of(t.as_slice()));
        }
        i = i + 1;
    }
    assert(m.take(lines.len() as int) =~= m);
    None
}

/// TikTok's live-status flags that mean "live".
pub fn is_tiktok_live_status_flag(flag: i64) -> (b: bool)
    ensures
        b == (flag == 1 || flag == 2),
{
    flag == 1 || flag == 2
}

/// A feed URL given in a recorder's extra settings: the trimmed text when
/// it starts with `http://` or `https://`.
pub fn parse_feed_override(extra: &str) -> (r: Option<String>)
    ensures
        opt_view(r) == (if trim(extra@).len() > 0 && (starts_with(trim(extra@), "http://"@)
            || starts_with(trim(extra@), "https://"@)) {
            Some(trim(extra@))
        } else {
            None
        }),
{
    let c = chars_of(extra);
    let t = trim_chars(c.as_slice());
    if t.len() == 0 {
        return None;
    }
    if starts_with_chars(t.as_slice(), chars_of("http://").as_slice()) || starts_with_chars(
        t.as_slice(),
        chars_of("https://").as_slice(),
    ) {
        Some(string_of(t.as_slice()))
    } else {
        None
    }
}

/// A string as ISO-8859-1 bytes: each character up to U+00FF is its code,
/// any other is `?`.
pub open spec fn iso_8859_1(s: Seq<char>) -> Seq<u8> {
    Seq::new(s.len(), |i: int| if (s[i] as u32) <= 255 { (s[i] as u32) as u8 } else { 63u8 })
}

/// Exec `iso_8859_1`.
pub fn to_iso_8859_1_bytes(value: &str) -> (r: Vec<u8>)
    ensures
        r@ == iso_8859_1(value@),
{
    let c = chars_of(value);
    let mut r: Vec<u8> = Vec::new();
    let mut i: usize = 0;
    while i < c.len()
        invariant
            i <= c.len(),
            c@ == value@,
            r@ == iso_8859_1(value@).take(i as int),
        decreases c.len() - i,
    {
        let code = c[i] as u32;
        let b: u8 = if code <= 255 {
            code as u8
        } else {
            63u8
        };
        r.push(b);
        i = i + 1;
        assert(r@ =~= iso_8859_1(value@).take(i as int));
    }
    assert(iso_8859_1(value@).take(c.len() as int) =~= iso_8859_1(value@));
    r
}

// ---------------------------------------------------------------------------
// Protocol preference
// ---------------------------------------------------------------------------

/// The stream protocols the recorder can prefer.
#[derive(Clone, Copy, Debug, PartialEq, Eq, Structural)]
pub enum TikTokProtocol {
    Hls,
    Flv,
    Rtmp,
}

/// The protocol a setting names: `hls` or `m3u8`, `flv`, `rtmp`, trimmed and
/// without ASCII case.
pub open spec fn protocol_named(value: Seq<char>) -> Option<TikTokProtocol> {
    let v = lower_seq(trim(value));
    if v == "hls"@ || v == "m3u8"@ {
        Some(TikTokProtocol::Hls)
    } else if v == "flv"@ {
        Some(TikTokProtocol::Flv)
    } else if v == "rtmp"@ {
        Some(TikTokProtocol::Rtmp)
    } else {
        None
    }
}

/// A boolean setting: `1`, `true`, `yes`, `on` or `0`, `false`, `no`, `off`,
/// trimmed and without ASCII case.
pub open spec fn bool_named(value: Seq<char>) -> Option<bool> {
    let v = lower_seq(trim(value));
    if v == "1"@ || v == "true"@ || v == "yes"@ || v == "on"@ {
        Some(true)
    } else if v == "0"@ || v == "false"@ || v == "no"@ || v == "off"@ {
        Some(false)
    } else {
        None
    }
}

/// Trimmed and lowercased characters of `s`.
fn lower_trimmed(s: &str) -> (r: Vec<char>)
    ensures
        r@ == lower_seq(trim(s@)),
{
    let c = chars_of(s);
    let t = trim_chars(c.as_slice());
    lower_chars(t.as_slice())
}

/// `c` holds exactly the text `lit`.
fn is_text(c: &Vec<char>, lit: &str) -> (b: bool)
    ensures
        b == (c@ == lit@),
{
    let l = chars_of(lit);
    crate::text::eq_chars(c.as_slice(), l.as_slice())
}

impl TikTokProtocol {
    /// The protocol a setting names (`protocol_named`).
    pub fn from_str(value: &str) -> (r: Option<TikTokProtocol>)
        ensures
            r == protocol_named(value@),
    {
        let v = lower_trimmed(value);
        if is_text(&v, "hls") || is_text(&v, "m3u8") {
            Some(TikTokProtocol::Hls)
        } else if is_text(&v, "flv") {
            Some(TikTokProtocol::Flv)
        } else if is_text(&v, "rtmp") {
            Some(TikTokProtocol::Rtmp)
        } else {
            None
        }
    }
}

/// A boolean setting (`bool_named`).
pub fn parse_bool_env(value: &str) -> (r: Option<bool>)
    ensures
        r == bool_named(value@),
{
    let v = lower_trimmed(value);
    if is_text(&v, "1") || is_text(&v, "true") || is_text(&v, "yes") || is_text(&v, "on") {
        Some(true)
    } else if is_text(&v, "0") || is_text(&v, "false") || is_text(&v, "no") || is_text(&v, "off") {
        Some(false)
    } else {
        None
    }
}

/// The preferred protocol: the one `BSR_TIKTOK_PREFER_PROTOCOL` names, else
/// HLS when `BSR_TIKTOK_PREFER_HLS` is true, else FLV when
/// `BSR_TIKTOK_PREFER_FLV` is true, else HLS.
pub open spec fn preferred_protocol(
    protocol: Option<Seq<char>>,
    prefer_hls: Option<Seq<char>>,
    prefer_flv: Option<Seq<char>>,
) -> TikTokProtocol {
    if protocol matches Some(p) && protocol_named(p) is Some {
        protocol_named(protocol.unwrap()).unwrap()
    } else if prefer_hls matches Some(h) && bool_named(h) == Some(true) {
        TikTokProtocol::Hls
    } else if prefer_flv matches Some(f) && bool_named(f) == Some(true) {
        TikTokProtocol::Flv
    } else {
        TikTokProtocol::Hls
    }
}

/// Exec `preferred_protocol`, given the three variables' values.
pub fn prefer_protocol(
    protocol: &Option<String>,
    prefer_hls: &Option<String>,
    prefer_flv: &Option<String>,
) -> (r: TikTokProtocol)
    ensures
        r == preferred_protocol(opt_view(*protocol), opt_view(*prefer_hls), opt_view(*prefer_flv)),
{
    if let Some(p) = protocol {
        if let Some(v) = TikTokProtocol::from_str(p.as_str()) {
            return v;
        }
    }
    if let Some(h) = prefer_hls {
        if parse_bool_env(h.as_str()) == Some(true) {
            return TikTokProtocol::Hls;
        }
    }
    if let Some(f) = prefer_flv {
        if parse_bool_env(f.as_str()) == Some(true) {
            return TikTokProtocol::Flv;
        }
    }
    TikTokProtocol::Hls
}

/// Whether `BSR_TIKTOK_FORCE_MOBILE` (its value given, `None` when unset)
/// asks for the mobile pages: `1`, `true`, `yes` or `on`, without ASCII case
/// (and not trimmed).
pub fn force_mobile_fallback(value: &Option<String>) -> (b: bool)
    ensures
        b == (match *value {
            Some(v) => {
                let l = lower_seq(v@);
                l == "1"@ || l == "true"@ || l == "yes"@ || l == "on"@
            },
            None => false,
        }),
{
    match value {
        Some(v) => {
            let c = chars_of(v.as_str());
            let l = lower_chars(c.as_slice());
            is_text(&l, "1") || is_text(&l, "true") || is_text(&l, "yes") || is_text(&l, "on")
        },
        None => false,
    }
}

// ---------------------------------------------------------------------------
// Rooms
// ---------------------------------------------------------------------------

/// A room id made only of ASCII digits (an empty one counts).
pub fn is_room_id_numeric(room_id: &str) -> (b: bool)
    ensures
        b == all_digits(room_id@),
{
    let c = chars_of(room_id);
    let mut i: usize = 0;
    while i < c.len()
        invariant
            i <= c.len(),
            c@ == room_id@,
            forall|k: int| 0 <= k < i ==> is_digit(#[trigger] c@[k]),
        decreases c.len() - i,
    {
        if !('0' <= c[i] && c[i] <= '9') {
            assert(!is_digit(c@[i as int]));
            return false;
        }
        i = i + 1;
    }
    true
}

/// The live page of a room: a URL is kept, a handle with `@` goes under
/// `www.tiktok.com/<handle>/live`, a numeric id under `live.tiktok.com/`,
/// any other under `www.tiktok.com/@<id>/live`; a page without a query gets
/// `?enter_from_merge=others_homepage&enter_method=others_photo`.
pub open spec fn live_url(room_id: Seq<char>) -> Seq<char> {
    let base = if starts_with(room_id, "http"@) {
        room_id
    } else if room_id.len() > 0 && room_id[0] == '@' {
        "https://www.tiktok.com/"@ + room_id + "/live"@
    } else if all_digits(room_id) {
        "https://live.tiktok.com/"@ + room_id
    } else {
        "https://www.tiktok.com/@"@ + room_id + "/live"@
    };
    if has_char(base, '?') {
        base
    } else {
        base + "?enter_from_merge=others_homepage&enter_method=others_photo"@
    }
}

/// Exec `live_url`.
pub fn build_live_url(room_id: &str) -> (r: String)
    ensures
        r@ == live_url(room_id@),
{
    let c = chars_of(room_id);
    let mut url = if starts_with_chars(c.as_slice(), chars_of("http").as_slice()) {
        to_string_of(room_id)
    } else if c.len() > 0 && c[0] == '@' {
        let mut u = concat_str("https://www.tiktok.com/", room_id);
        u.append("/live");
        u
    } else if is_room_id_numeric(room_id) {
        concat_str("https://live.tiktok.com/", room_id)
    } else {
        let mut u = concat_str("https://www.tiktok.com/@", room_id);
        u.append("/live");
        u
    };
    let uc = chars_of(url.as_str());
    if !has_char_chars(uc.as_slice(), '?') {
        url.append("?enter_from_merge=others_homepage&enter_method=others_photo");
    }
    url
}

} // verus!

verus! {

// ---------------------------------------------------------------------------
// Status checks
// ---------------------------------------------------------------------------

/// How long a room stays live after it was last seen live, in seconds.
pub open spec fn live_sticky_secs() -> int {
    20
}

/// The end of the sticky window that starts at `now` (seconds).
pub fn refresh_live_sticky_until(now: i64) -> (until: i64)
    requires
        now + live_sticky_secs() <= i64::MAX,
    ensures
        until == now + live_sticky_secs(),
{
    now + 20
}

/// Whether `now` lies before the end of the sticky window.
pub fn within_live_sticky_window(until: i64, now: i64) -> (b: bool)
    ensures
        b == (until > now),
{
    until > now
}

/// What a status check tells the manager.
#[derive(Clone, Copy, Debug, PartialEq, Eq, Structural)]
pub enum LiveTransition {
    Unchanged,
    Started,
    Ended,
}

/// The live status a status check settles on: live when the room info says
/// so, else when a stream probe finds a stream, else when the room was live
/// before and the sticky window is still open; and the change from before.
pub open spec fn settled_status(reported: bool, probe_found: bool, pre: bool, sticky: bool) -> (bool, LiveTransition) {
    let live = reported || probe_found || (pre && sticky);
    (
        live,
        if pre == live {
            LiveTransition::Unchanged
        } else if live {
            LiveTransition::Started
        } else {
            LiveTransition::Ended
        },
    )
}

/// Exec `settled_status`; the probe is only made (and `probe_found` only
/// read) when the room info does not report a live room.
pub fn settle_live_status(reported: bool, probe_found: bool, pre: bool, sticky: bool) -> (r: (bool, LiveTransition))
    ensures
        r == settled_status(reported, probe_found, pre, sticky),
{
    let live = reported || probe_found || (pre && sticky);
    let t = if pre == live {
        LiveTransition::Unchanged
    } else if live {
        LiveTransition::Started
    } else {
        LiveTransition::Ended
    };
    (live, t)
}

/// Whether a status check of a live room can record: it must be asked to
/// record; then a fresh stream, or failing that a stream already cached,
/// is needed.
pub fn can_record_live(should_record: bool, stream_found: bool, cached_stream: bool) -> (b: bool)
    ensures
        b == (!should_record || stream_found || cached_stream),
{
    if !should_record {
        return true;
    }
    stream_found || cached_stream
}

/// A room-check error text that calls for fresh guest cookies: it names a
/// 403 on room enter, an empty feed body, an unavailable live room id, or a
/// failed state extraction (without ASCII case).
pub open spec fn guest_refresh_error(text: Seq<char>) -> bool {
    let l = lower_seq(text);
    contains(l, "room enter status: 403"@) || contains(l, "feed empty response body"@) || contains(
        l,
        "live room id unavailable"@,
    ) || contains(l, "failed to extract tiktok state"@)
}

/// Whether a failed room check asks for fresh guest cookies: only for a
/// guest account, when the error is a guest-cookie block or its text calls
/// for it (`guest_refresh_error`).
pub fn should_request_guest_refresh(error_text: &str, is_guest: bool, is_block_error: bool) -> (b: bool)
    ensures
        b == (is_guest && (is_block_error || guest_refresh_error(error_text@))),
{
    if !is_guest {
        return false;
    }
    if is_block_error {
        return true;
    }
    let c = chars_of(error_text);
    let l = lower_chars(c.as_slice());
    contains_chars(l.as_slice(), chars_of("room enter status: 403").as_slice()) || contains_chars(
        l.as_slice(),
        chars_of("feed empty response body").as_slice(),
    ) || contains_chars(l.as_slice(), chars_of("live room id unavailable").as_slice())
        || contains_chars(l.as_slice(), chars_of("failed to extract tiktok state").as_slice())
}

/// The outcome of a failed room check: when the room was not live, a stream
/// probe that finds a stream makes it live (and starts it); otherwise the
/// status stays what it was.
pub fn status_after_room_error(pre: bool, probe_found: bool) -> (r: (bool, LiveTransition))
    ensures
        r == (if !pre && probe_found {
            (true, LiveTransition::Started)
        } else {
            (pre, LiveTransition::Unchanged)
        }),
{
    if !pre && probe_found {
        (true, LiveTransition::Started)
    } else {
        (pre, LiveTransition::Unchanged)
    }
}

/// The error of a stream probe that ran out of time.
pub fn probe_timeout_error(timeout_secs: u64) -> (e: RecorderError)
    ensures
        e matches RecorderError::ApiError { error } && error@ == "TikTok stream probe timeout after "@
            + crate::json::decimal(timeout_secs as nat) + "s"@,
{
    let d = crate::json::decimal_chars(timeout_secs);
    let mut t = concat_str("TikTok stream probe timeout after ", string_of(d.as_slice()).as_str());
    t.append("s");
    RecorderError::ApiError { error: t }
}


/// What reading a live's page (for its room info or its stream) needs next:
/// a page to load (the web page with the desktop profile, or the mobile
/// page with the mobile profile), or nothing more (the answer).
#[derive(Debug)]
pub enum PageNext<T> {
    Load { url: String, mobile: bool },
    Done(Result<T, RecorderError>),
}

/// One step of reading a live's page, given whether the mobile pages are
/// forced and what the web and mobile pages gave so far: when forced, only
/// the mobile page is read and its answer stands; otherwise the web page is
/// read first, its success stands, and when it failed the mobile page is
/// read, whose success stands, while its failure gives the web page's error.
pub fn page_fallback_step<T>(
    url: &str,
    forced_mobile: bool,
    web: Option<Result<T, RecorderError>>,
    mobile: Option<Result<T, RecorderError>>,
) -> (r: PageNext<T>)
    ensures
        forced_mobile ==> match mobile {
            None => r matches PageNext::Load { url: u, mobile: m } && m && u@ == mobile_url(url@),
            Some(x) => r == PageNext::Done(x),
        },
        !forced_mobile ==> match web {
            None => r matches PageNext::Load { url: u, mobile: m } && !m && u@ == url@,
            Some(Ok(t)) => r == PageNext::<T>::Done(Ok(t)),
            Some(Err(e)) => match mobile {
                None => r matches PageNext::Load { url: u, mobile: m } && m && u@ == mobile_url(url@),
                Some(Ok(t)) => r == PageNext::<T>::Done(Ok(t)),
                Some(Err(_)) => r == PageNext::<T>::Done(Err(e)),
            },
        },
{
    if forced_mobile {
        return match mobile {
            None => PageNext::Load { url: to_mobile_url(url), mobile: true },
            Some(x) => PageNext::Done(x),
        };
    }
    match web {
        None => PageNext::Load { url: to_string_of(url), mobile: false },
        Some(Ok(t)) => PageNext::Done(Ok(t)),
        Some(Err(e)) => match mobile {
            None => PageNext::Load { url: to_mobile_url(url), mobile: true },
            Some(Ok(t)) => PageNext::Done(Ok(t)),
            Some(Err(_)) => PageNext::Done(Err(e)),
        },
    }
}
} // verus!
