//! Building account rows from cookies: the platforms, the cookies kept for
//! each, the user a row falls back to when the platform's API does not
//! answer, and the final row.
use vstd::prelude::*;
use crate::accounts::AccountRow;
use crate::config::opt_view;
use crate::cookies::{
    concat_str, cookie_item, cookie_item_ci, douyin_uid, filter_kuaishou_cookie_header,
    get_item_from_cookies, get_item_from_cookies_ci, extract_douyin_uid, extract_tiktok_uid,
    full_pairs, is_kuaishou_login, is_kuaishou_login_cookie, sanitize_cookie_header,
    sanitized_cookie, strip_prefix, tiktok_uid, cookie_parts,
};
use crate::ids::{fallback_uid_from_cookies, first_uid, hex_lower, md5_cookie_id, md5_digest, uid_keys};
use crate::json::{
    as_str, as_str_opt, get, get_opt, items_data, json_as_str, json_get, json_get_opt, json_parse,
    lemma_array_data, parse_json, JsonData, JsonValue,
};
use crate::text::{
    chars_of, eq_ignore_case, eq_ignore_case_chars, join, string_of, to_string_of, trim, trim_chars,
};
use crate::tiktok_data::UserInfo;

verus! {

// ---------------------------------------------------------------------------
// Platforms
// ---------------------------------------------------------------------------

/// The platforms accounts can belong to.
#[derive(Clone, Copy, Debug, PartialEq, Eq, Structural)]
pub enum Platform {
    BiliBili,
    Douyin,
    Huya,
    Kuaishou,
    Xiaohongshu,
    TikTok,
    Weibo,
    Youtube,
}

/// The name a platform is stored under.
pub open spec fn platform_name(p: Platform) -> Seq<char> {
    match p {
        Platform::BiliBili => "bilibili"@,
        Platform::Douyin => "douyin"@,
        Platform::Huya => "huya"@,
        Platform::Kuaishou => "kuaishou"@,
        Platform::Xiaohongshu => "xiaohongshu"@,
        Platform::TikTok => "tiktok"@,
        Platform::Weibo => "weibo"@,
        Platform::Youtube => "youtube"@,
    }
}

/// The platform stored under `s`, if any.
pub open spec fn platform_named(s: Seq<char>) -> Option<Platform> {
    if s == "bilibili"@ {
        Some(Platform::BiliBili)
    } else if s == "douyin"@ {
        Some(Platform::Douyin)
    } else if s == "huya"@ {
        Some(Platform::Huya)
    } else if s == "kuaishou"@ {
        Some(Platform::Kuaishou)
    } else if s == "xiaohongshu"@ {
        Some(Platform::Xiaohongshu)
    } else if s == "tiktok"@ {
        Some(Platform::TikTok)
    } else if s == "weibo"@ {
        Some(Platform::Weibo)
    } else if s == "youtube"@ {
        Some(Platform::Youtube)
    } else {
        None
    }
}

/// The name a guest account of a platform is shown with.
pub open spec fn guest_display_name(p: Platform) -> Seq<char> {
    match p {
        Platform::BiliBili => "Bilibili"@,
        Platform::Douyin => "Douyin"@,
        Platform::Huya => "Huya"@,
        Platform::Kuaishou => "Kuaishou"@,
        Platform::Xiaohongshu => "Xiaohongshu"@,
        Platform::TikTok => "TikTok"@,
        Platform::Weibo => "Weibo"@,
        Platform::Youtube => "Youtube"@,
    }
}

/// The name an account of a platform is shown with when the platform's
/// API gives none.
pub open spec fn fallback_display_name(p: Platform) -> Seq<char> {
    match p {
        Platform::BiliBili => "BiliBili"@,
        _ => guest_display_name(p),
    }
}

/// `s` holds exactly the text `lit`.
fn is_lit(s: &str, lit: &str) -> (b: bool)
    ensures
        b == (s@ == lit@),
{
    crate::text::same_str(s, lit)
}

/// The name `{:?}` writes for a platform: its variant's name.
pub open spec fn platform_debug_name(p: Platform) -> Seq<char> {
    match p {
        Platform::BiliBili => "BiliBili"@,
        Platform::Douyin => "Douyin"@,
        Platform::Huya => "Huya"@,
        Platform::Kuaishou => "Kuaishou"@,
        Platform::Xiaohongshu => "Xiaohongshu"@,
        Platform::TikTok => "TikTok"@,
        Platform::Weibo => "Weibo"@,
        Platform::Youtube => "Youtube"@,
    }
}

impl Platform {
    /// The variant's name, as `{:?}` writes it (`platform_debug_name`).
    pub fn debug_name(&self) -> (r: String)
        ensures
            r@ == platform_debug_name(*self),
    {
        match self {
            Platform::BiliBili => to_string_of("BiliBili"),
            Platform::Douyin => to_string_of("Douyin"),
            Platform::Huya => to_string_of("Huya"),
            Platform::Kuaishou => to_string_of("Kuaishou"),
            Platform::Xiaohongshu => to_string_of("Xiaohongshu"),
            Platform::TikTok => to_string_of("TikTok"),
            Platform::Weibo => to_string_of("Weibo"),
            Platform::Youtube => to_string_of("Youtube"),
        }
    }

    /// The platform stored under `s` (`platform_named`).
    pub fn from_str(s: &str) -> (r: Option<Platform>)
        ensures
            r == platform_named(s@),
    {
        if is_lit(s, "bilibili") {
            Some(Platform::BiliBili)
        } else if is_lit(s, "douyin") {
            Some(Platform::Douyin)
        } else if is_lit(s, "huya") {
            Some(Platform::Huya)
        } else if is_lit(s, "kuaishou") {
            Some(Platform::Kuaishou)
        } else if is_lit(s, "xiaohongshu") {
            Some(Platform::Xiaohongshu)
        } else if is_lit(s, "tiktok") {
            Some(Platform::TikTok)
        } else if is_lit(s, "weibo") {
            Some(Platform::Weibo)
        } else if is_lit(s, "youtube") {
            Some(Platform::Youtube)
        } else {
            None
        }
    }

    /// The name the platform is stored under (`platform_name`).
    pub fn as_str(&self) -> (r: String)
        ensures
            r@ == platform_name(*self),
    {
        match self {
            Platform::BiliBili => to_string_of("bilibili"),
            Platform::Douyin => to_string_of("douyin"),
            Platform::Huya => to_string_of("huya"),
            Platform::Kuaishou => to_string_of("kuaishou"),
            Platform::Xiaohongshu => to_string_of("xiaohongshu"),
            Platform::TikTok => to_string_of("tiktok"),
            Platform::Weibo => to_string_of("weibo"),
            Platform::Youtube => to_string_of("youtube"),
        }
    }

    /// The name a guest account is shown with (`guest_display_name`).
    pub fn guest_name(&self) -> (r: String)
        ensures
            r@ == guest_display_name(*self),
    {
        match self {
            Platform::BiliBili => to_string_of("Bilibili"),
            Platform::Douyin => to_string_of("Douyin"),
            Platform::Huya => to_string_of("Huya"),
            Platform::Kuaishou => to_string_of("Kuaishou"),
            Platform::Xiaohongshu => to_string_of("Xiaohongshu"),
            Platform::TikTok => to_string_of("TikTok"),
            Platform::Weibo => to_string_of("Weibo"),
            Platform::Youtube => to_string_of("Youtube"),
        }
    }

    /// The name an account is shown with without an API answer
    /// (`fallback_display_name`).
    pub fn fallback_name(&self) -> (r: String)
        ensures
            r@ == fallback_display_name(*self),
    {
        match self {
            Platform::BiliBili => to_string_of("BiliBili"),
            _ => self.guest_name(),
        }
    }
}

/// The cookie domain of a platform's site.
pub open spec fn platform_domain(platform: Seq<char>) -> Option<Seq<char>> {
    match platform_named(platform) {
        Some(p) => Some(platform_name(p) + ".com"@),
        None => None,
    }
}

/// Exec `platform_domain`.
pub fn domain_for_platform(platform: &str) -> (r: Option<String>)
    ensures
        opt_view(r) == platform_domain(platform@),
{
    match Platform::from_str(platform) {
        Some(p) => {
            let mut d = p.as_str();
            d.append(".com");
            Some(d)
        },
        None => None,
    }
}

/// The domains whose browser cookies a platform's login uses: its own, and
/// for Huya also `yy.com`.
pub open spec fn browser_cookie_domains(platform: Seq<char>) -> Option<Seq<Seq<char>>> {
    match platform_domain(platform) {
        Some(d) => if platform == "huya"@ {
            Some(seq![d, "yy.com"@])
        } else {
            Some(seq![d])
        },
        None => None,
    }
}

/// Exec `browser_cookie_domains`.
pub fn cookie_domains_for_platform(platform: &str) -> (r: Option<Vec<String>>)
    ensures
        match r {
            Some(v) => browser_cookie_domains(platform@) == Some(v@.map_values(|s: String| s@)),
            None => browser_cookie_domains(platform@) is None,
        },
{
    match domain_for_platform(platform) {
        Some(d) => {
            let mut v: Vec<String> = Vec::new();
            v.push(d);
            if is_lit(platform, "huya") {
                v.push(to_string_of("yy.com"));
            }
            assert(v@.map_values(|s: String| s@) =~= browser_cookie_domains(platform@).unwrap());
            Some(v)
        },
        None => None,
    }
}

/// The cookie sets found for a platform joined into one header: the
/// non-empty ones, joined by `; `; none when there is none.
pub open spec fn joined_cookie_sets(sets: Seq<Seq<char>>) -> Option<Seq<char>> {
    let kept = crate::text::non_empty(sets);
    if kept.len() == 0 {
        None
    } else {
        Some(join(kept, "; "@))
    }
}

/// Exec `joined_cookie_sets`.
pub fn join_cookie_sets(sets: &Vec<String>) -> (r: Option<String>)
    ensures
        opt_view(r) == joined_cookie_sets(sets@.map_values(|s: String| s@)),
{
    let ghost sv = sets@.map_values(|s: String| s@);
    let mut kept: Vec<Vec<char>> = Vec::new();
    let mut i: usize = 0;
    assert(sv.take(0) =~= Seq::<Seq<char>>::empty());
    while i < sets.len()
        invariant
            i <= sets.len(),
            sv == sets@.map_values(|s: String| s@),
            crate::text::views(kept@) == crate::text::non_empty(sv.take(i as int)),
        decreases sets.len() - i,
    {
        assert(sv.take(i as int + 1).drop_last() =~= sv.take(i as int));
        assert(sv[i as int] == sets@[i as int]@);
        let c = chars_of(sets[i].as_str());
        if c.len() > 0 {
            let ghost before = crate::text::views(kept@);
            let ghost cv = c@;
            kept.push(c);
            assert(crate::text::views(kept@) =~= before.push(cv));
        }
        i = i + 1;
    }
    assert(sv.take(sets.len() as int) =~= sv);
    if kept.len() == 0 {
        return None;
    }
    let sep = chars_of("; ");
    let j = crate::text::join_chars(&kept, sep.as_slice());
    Some(string_of(j.as_slice()))
}

// ---------------------------------------------------------------------------
// Cookies and users of a new row
// ---------------------------------------------------------------------------

#[derive(Debug)]
/// The cookies and CSRF token a new account row starts from.
pub struct PreparedCookies {
    pub platform: Platform,
    pub cookies: String,
    pub csrf: String,
}

/// The CSRF token of a cookie header: the value of its first trimmed piece
/// that starts with `bili_jct=`, empty when there is none.
pub open spec fn bili_csrf(cookies: Seq<char>) -> Seq<char> {
    match crate::cookies::first_some(
        crate::text::split_char(cookies, ';').map_values(
            |p: Seq<char>| strip_prefix(trim(p), "bili_jct="@),
        ),
    ) {
        Some(v) => v,
        None => Seq::<char>::empty(),
    }
}

/// What a new row of `platform` keeps of `cookies`: the sanitized cookie
/// header (an error `Invalid cookies: ...` when that fails), an error for
/// an unknown platform or for YouTube, Kuaishou's full pairs only, and the
/// CSRF token (Bilibili's `bili_jct`, empty elsewhere).
pub open spec fn prepared_cookies(platform: Seq<char>, cookies: Seq<char>) -> Result<
    (Platform, Seq<char>, Seq<char>),
    Seq<char>,
> {
    match sanitized_cookie(cookies) {
        None => Err("Invalid cookies: "@ + "Invalid cookies"@),
        Some(c) => match platform_named(platform) {
            None => Err("Invalid platform"@),
            Some(p) => if p == Platform::Youtube {
                Err("Unsupported platform"@)
            } else {
                let kept = if p == Platform::Kuaishou {
                    join(full_pairs(cookie_parts(c)), crate::cookies::semi_sep())
                } else {
                    c
                };
                let csrf = if p == Platform::BiliBili {
                    bili_csrf(kept)
                } else {
                    Seq::<char>::empty()
                };
                Ok((p, kept, csrf))
            },
        },
    }
}

} // verus!

verus! {

/// Exec `bili_csrf`.
pub fn bili_csrf_token(cookies: &str) -> (r: String)
    ensures
        r@ == bili_csrf(cookies@),
{
    let c = chars_of(cookies);
    let parts = crate::text::split_chars(c.as_slice(), ';');
    let pre = chars_of("bili_jct=");
    let ghost m = crate::text::split_char(cookies@, ';').map_values(
        |p: Seq<char>| strip_prefix(trim(p), "bili_jct="@),
    );
    let ghost pv = crate::text::views(parts@);
    let mut i: usize = 0;
    assert(m.take(0) =~= Seq::<Option<Seq<char>>>::empty());
    while i < parts.len()
        invariant
            i <= parts.len(),
            pv == crate::text::views(parts@),
            pv == crate::text::split_char(cookies@, ';'),
            pre@ == "bili_jct="@,
            m == crate::text::split_char(cookies@, ';').map_values(
                |p: Seq<char>| strip_prefix(trim(p), "bili_jct="@),
            ),
            crate::cookies::first_some(m.take(i as int)) is None,
        decreases parts.len() - i,
    {
        proof {
            crate::cookies::lemma_first_some_step(m, i as int);
        }
        assert(pv[i as int] == parts@[i as int]@);
        assert(m[i as int] == strip_prefix(trim(pv[i as int]), "bili_jct="@));
        let t = trim_chars(parts[i].as_slice());
        match crate::cookies::strip_prefix_chars(t.as_slice(), pre.as_slice()) {
            Some(v) => {
                return string_of(v.as_slice());
            },
            None => {},
        }
        i = i + 1;
    }
    assert(m.take(parts.len() as int) =~= m);
    String::new()
}

/// Exec `prepared_cookies`.
pub fn prepare_account_cookies(platform: &str, cookies: &str) -> (r: Result<PreparedCookies, String>)
    ensures
        match r {
            Ok(p) => prepared_cookies(platform@, cookies@) == Ok::<
                (Platform, Seq<char>, Seq<char>),
                Seq<char>,
            >((p.platform, p.cookies@, p.csrf@)),
            Err(e) => prepared_cookies(platform@, cookies@) == Err::<
                (Platform, Seq<char>, Seq<char>),
                Seq<char>,
            >(e@),
        },
{
    let c = match sanitize_cookie_header(cookies) {
        Ok(c) => c,
        Err(e) => {
            return Err(concat_str("Invalid cookies: ", e.as_str()));
        },
    };
    let p = match Platform::from_str(platform) {
        Some(p) => p,
        None => {
            return Err(to_string_of("Invalid platform"));
        },
    };
    if p == Platform::Youtube {
        return Err(to_string_of("Unsupported platform"));
    }
    let kept = if p == Platform::Kuaishou {
        filter_kuaishou_cookie_header(c.as_str())
    } else {
        c
    };
    let csrf = if p == Platform::BiliBili {
        bili_csrf_token(kept.as_str())
    } else {
        String::new()
    };
    Ok(PreparedCookies { platform: p, cookies: kept, csrf })
}

/// The uid of a Huya cookie header: `yyuid`, `udb_uid` or `uid`, then the
/// same names without ASCII case.
pub open spec fn huya_uid(cookies: Seq<char>) -> Option<Seq<char>> {
    match cookie_item("yyuid"@, cookies) {
        Some(v) => Some(v),
        None => match cookie_item("udb_uid"@, cookies) {
            Some(v) => Some(v),
            None => match cookie_item("uid"@, cookies) {
                Some(v) => Some(v),
                None => match cookie_item_ci("yyuid"@, cookies) {
                    Some(v) => Some(v),
                    None => match cookie_item_ci("udb_uid"@, cookies) {
                        Some(v) => Some(v),
                        None => cookie_item_ci("uid"@, cookies),
                    },
                },
            },
        },
    }
}

/// Exec `huya_uid`.
pub fn huya_uid_from_cookies(cookies: &str) -> (r: Option<String>)
    ensures
        opt_view(r) == huya_uid(cookies@),
{
    if let Ok(v) = get_item_from_cookies("yyuid", cookies) {
        return Some(v);
    }
    if let Ok(v) = get_item_from_cookies("udb_uid", cookies) {
        return Some(v);
    }
    if let Ok(v) = get_item_from_cookies("uid", cookies) {
        return Some(v);
    }
    if let Ok(v) = get_item_from_cookies_ci("yyuid", cookies) {
        return Some(v);
    }
    if let Ok(v) = get_item_from_cookies_ci("udb_uid", cookies) {
        return Some(v);
    }
    match get_item_from_cookies_ci("uid", cookies) {
        Ok(v) => Some(v),
        Err(_) => None,
    }
}

/// The uid a cookie header falls back to (`fallback_uid_from_cookies`).
pub open spec fn fallback_uid(cookies: Seq<char>) -> Seq<char> {
    match first_uid(uid_keys(), cookies) {
        Some(v) => v,
        None => "cookie_"@ + hex_lower(md5_digest(cookies)),
    }
}

/// The uid a Bilibili row asks the API about: `DedeUserID`, else the
/// fallback uid.
pub open spec fn bilibili_uid(cookies: Seq<char>) -> Seq<char> {
    match cookie_item("DedeUserID"@, cookies) {
        Some(v) => v,
        None => fallback_uid(cookies),
    }
}

/// Exec `bilibili_uid`.
pub fn bilibili_uid_from_cookies(cookies: &str) -> (r: String)
    ensures
        r@ == bilibili_uid(cookies@),
{
    match get_item_from_cookies("DedeUserID", cookies) {
        Ok(v) => v,
        Err(_) => fallback_uid_from_cookies(cookies),
    }
}

/// The user a row of `platform` takes when the platform's API does not
/// answer: Bilibili and Huya keep `uid_hint` (the uid they asked about),
/// Douyin and TikTok the uid their cookies name, the others the fallback
/// uid; the name is the platform's; no avatar.
pub open spec fn fallback_user(platform: Platform, cookies: Seq<char>, uid_hint: Seq<char>) -> (
    Seq<char>,
    Seq<char>,
    Seq<char>,
) {
    let id = match platform {
        Platform::BiliBili => uid_hint,
        Platform::Huya => uid_hint,
        Platform::Douyin => match douyin_uid(cookies) {
            Some(v) => v,
            None => fallback_uid(cookies),
        },
        Platform::TikTok => match tiktok_uid(cookies) {
            Some(v) => v,
            None => fallback_uid(cookies),
        },
        _ => fallback_uid(cookies),
    };
    (id, fallback_display_name(platform), Seq::<char>::empty())
}

/// Exec `fallback_user`.
pub fn fallback_user_info(platform: Platform, cookies: &str, uid_hint: &str) -> (r: UserInfo)
    ensures
        crate::tiktok_data::user_view(r) == fallback_user(platform, cookies@, uid_hint@),
{
    let id = match platform {
        Platform::BiliBili => to_string_of(uid_hint),
        Platform::Huya => to_string_of(uid_hint),
        Platform::Douyin => match extract_douyin_uid(cookies) {
            Some(v) => v,
            None => fallback_uid_from_cookies(cookies),
        },
        Platform::TikTok => match extract_tiktok_uid(cookies) {
            Some(v) => v,
            None => fallback_uid_from_cookies(cookies),
        },
        _ => fallback_uid_from_cookies(cookies),
    };
    UserInfo { user_id: id, user_name: platform.fallback_name(), user_avatar: String::new() }
}

/// The row built for an account: a Kuaishou guest's user id is `cookie_`
/// and the MD5 of its cookies; a prefix goes before the uid with `:`; a
/// guest shows the platform's guest name and no avatar.
pub open spec fn built_row(
    platform: Platform,
    cookies: Seq<char>,
    csrf: Seq<char>,
    user: (Seq<char>, Seq<char>, Seq<char>),
    uid_prefix: Option<Seq<char>>,
    extra: Seq<char>,
    created_at: Seq<char>,
) -> (Seq<char>, Seq<char>, Seq<char>, Seq<char>, Seq<char>, Seq<char>, Seq<char>, Seq<char>) {
    let guest = uid_prefix == Some("guest"@);
    let id = if guest && platform == Platform::Kuaishou {
        "cookie_"@ + hex_lower(md5_digest(cookies))
    } else {
        user.0
    };
    let uid = match uid_prefix {
        Some(p) => p + ":"@ + id,
        None => id,
    };
    let name = if guest {
        guest_display_name(platform)
    } else {
        user.1
    };
    let avatar = if guest {
        Seq::<char>::empty()
    } else {
        user.2
    };
    (platform_name(platform), uid, name, avatar, csrf, cookies, extra, created_at)
}

/// The view of a row.
pub open spec fn row_data(r: AccountRow) -> (
    Seq<char>,
    Seq<char>,
    Seq<char>,
    Seq<char>,
    Seq<char>,
    Seq<char>,
    Seq<char>,
    Seq<char>,
) {
    (r.platform@, r.uid@, r.name@, r.avatar@, r.csrf@, r.cookies@, r.extra@, r.created_at@)
}

/// Exec `built_row`.
pub fn finish_account_row(
    platform: Platform,
    cookies: &str,
    csrf: &str,
    user: UserInfo,
    uid_prefix: Option<&str>,
    extra: &str,
    created_at: &str,
) -> (r: AccountRow)
    ensures
        row_data(r) == built_row(
            platform,
            cookies@,
            csrf@,
            crate::tiktok_data::user_view(user),
            crate::cookie_json::opt_str(uid_prefix),
            extra@,
            created_at@,
        ),
{
    let guest = match uid_prefix {
        Some(p) => is_lit(p, "guest"),
        None => false,
    };
    let id = if guest && platform == Platform::Kuaishou {
        md5_cookie_id(cookies)
    } else {
        user.user_id
    };
    let uid = match uid_prefix {
        Some(p) => {
            let mut u = concat_str(p, ":");
            u.append(id.as_str());
            u
        },
        None => id,
    };
    let name = if guest {
        platform.guest_name()
    } else {
        user.user_name
    };
    let avatar = if guest {
        String::new()
    } else {
        user.user_avatar
    };
    AccountRow {
        platform: platform.as_str(),
        uid,
        name,
        avatar,
        csrf: to_string_of(csrf),
        cookies: to_string_of(cookies),
        extra: to_string_of(extra),
        created_at: to_string_of(created_at),
    }
}

/// The extra data a new row keeps: the one given, else the cookie list of
/// its cookies and its user, framed as account extra data.
pub open spec fn chosen_extra(extra: Option<Seq<char>>, cookies: Seq<char>, user: UserInfo) -> Seq<char> {
    match extra {
        Some(e) => e,
        None => crate::platform_qr::account_extra_text(
            crate::cookies::cookie_list(crate::cookies::cookie_parts(cookies)),
            crate::platform_qr::user_triple(&user),
        ),
    }
}

/// Assembles the row of an account from its prepared cookies and the user
/// found for them: the extra data given, or else the one built from the
/// cookie list and that user (before a guest row drops the user's name and
/// avatar), then the row as `built_row` makes it.
pub fn assemble_account_row(
    prepared: &PreparedCookies,
    user: UserInfo,
    extra: Option<&str>,
    uid_prefix: Option<&str>,
    created_at: &str,
) -> (r: AccountRow)
    ensures
        row_data(r) == built_row(
            prepared.platform,
            prepared.cookies@,
            prepared.csrf@,
            crate::tiktok_data::user_view(user),
            crate::cookie_json::opt_str(uid_prefix),
            chosen_extra(crate::cookie_json::opt_str(extra), prepared.cookies@, user),
            created_at@,
        ),
{
    let extra_text = match extra {
        Some(e) => to_string_of(e),
        None => {
            let items = crate::cookies::cookie_list_from_header(prepared.cookies.as_str());
            crate::platform_qr::build_account_extra_json(&items, &user)
        },
    };
    finish_account_row(
        prepared.platform,
        prepared.cookies.as_str(),
        prepared.csrf.as_str(),
        user,
        uid_prefix,
        extra_text.as_str(),
        created_at,
    )
}

} // verus!

verus! {

// ---------------------------------------------------------------------------
// Kuaishou user ids kept in an account's extra data
// ---------------------------------------------------------------------------

/// The user id an account's extra data names: `user_info.user_id`, else
/// `login_info.user_id`, when it is a string.
pub open spec fn extra_user_id(p: JsonData) -> Option<Seq<char>> {
    match as_str_opt(get_opt(get(p, "user_info"@), "user_id"@)) {
        Some(u) => Some(u),
        None => as_str_opt(get_opt(get(p, "login_info"@), "user_id"@)),
    }
}

/// A cookie header with `userId=<uid>` added at its end.
pub open spec fn with_user_id(cookies: Seq<char>, uid: Seq<char>) -> Seq<char> {
    if trim(cookies).len() == 0 {
        "userId="@ + uid
    } else {
        cookies + "; userId="@ + uid
    }
}

/// Exec `with_user_id`.
fn add_user_id(cookies: &str, uid: &str) -> (r: String)
    ensures
        r@ == with_user_id(cookies@, uid@),
{
    let c = chars_of(cookies);
    if trim_chars(c.as_slice()).len() == 0 {
        concat_str("userId=", uid)
    } else {
        let mut r = concat_str(cookies, "; userId=");
        r.append(uid);
        r
    }
}

/// Exec `extra_user_id`.
fn extra_user_id_exec(p: &JsonValue) -> (r: Option<String>)
    ensures
        opt_view(r) == extra_user_id(p@),
{
    let a = json_get_opt(json_get(p, "user_info"), "user_id");
    match a {
        Some(x) => match json_as_str(x) {
            Some(u) => {
                return Some(u);
            },
            None => {},
        },
        None => {},
    }
    let b = json_get_opt(json_get(p, "login_info"), "user_id");
    match b {
        Some(x) => json_as_str(x),
        None => None,
    }
}

/// A Kuaishou cookie header with the user id of its extra data added: a
/// login header is kept; otherwise the trimmed, non-blank user id that
/// `extra_user_id` finds is appended.
pub open spec fn kuaishou_with_extra_uid(cookies: Seq<char>, extra: Option<Seq<char>>) -> Seq<char> {
    if is_kuaishou_login(cookies) {
        cookies
    } else {
        match extra {
            None => cookies,
            Some(e) => match json_parse(e) {
                None => cookies,
                Some(p) => match extra_user_id(p) {
                    None => cookies,
                    Some(u) => if trim(u).len() == 0 {
                        cookies
                    } else {
                        with_user_id(cookies, trim(u))
                    },
                },
            },
        }
    }
}

/// Exec `kuaishou_with_extra_uid`.
pub fn append_kuaishou_user_id_from_extra(cookies: &str, extra: Option<&str>) -> (r: String)
    ensures
        r@ == kuaishou_with_extra_uid(cookies@, crate::cookie_json::opt_str(extra)),
{
    if is_kuaishou_login_cookie(cookies) {
        return to_string_of(cookies);
    }
    let e = match extra {
        Some(e) => e,
        None => {
            return to_string_of(cookies);
        },
    };
    let p = match parse_json(e) {
        Some(p) => p,
        None => {
            return to_string_of(cookies);
        },
    };
    let u = match extra_user_id_exec(&p) {
        Some(u) => u,
        None => {
            return to_string_of(cookies);
        },
    };
    let uc = chars_of(u.as_str());
    let t = trim_chars(uc.as_slice());
    if t.len() == 0 {
        return to_string_of(cookies);
    }
    let ts = string_of(t.as_slice());
    add_user_id(cookies, ts.as_str())
}

/// The user id the `cookie_info.cookies` list of an account's extra data
/// holds: the trimmed value of the first item named `userId` (without
/// ASCII case) whose value is not blank.
pub open spec fn cookie_info_user_id(items: Seq<JsonData>) -> Option<Seq<char>>
    decreases items.len(),
{
    if items.len() == 0 {
        None
    } else {
        let it = items[0];
        let name = match as_str_opt(get(it, "name"@)) {
            Some(n) => n,
            None => Seq::<char>::empty(),
        };
        let value = match as_str_opt(get(it, "value"@)) {
            Some(v) => v,
            None => Seq::<char>::empty(),
        };
        if eq_ignore_case(name, "userId"@) && trim(value).len() > 0 {
            Some(trim(value))
        } else {
            cookie_info_user_id(items.drop_first())
        }
    }
}

/// A Kuaishou cookie header made fit to read a profile: when it has no
/// `userId` (any case) and the non-blank extra data names one (directly, or
/// in its saved cookie list), that user id is appended.
pub open spec fn kuaishou_profile_cookies(cookies: Seq<char>, extra: Option<Seq<char>>) -> Seq<char> {
    match extra {
        None => cookies,
        Some(e) => if trim(e).len() == 0 || cookie_item_ci("userId"@, cookies) is Some {
            cookies
        } else {
            match json_parse(e) {
                None => cookies,
                Some(p) => {
                    let direct = extra_user_id(p);
                    if direct matches Some(u) && trim(u).len() > 0 {
                        with_user_id(cookies, trim(direct.unwrap()))
                    } else {
                        match get_opt(get(p, "cookie_info"@), "cookies"@) {
                            Some(JsonData::Array(items)) => match cookie_info_user_id(items) {
                                Some(u) => with_user_id(cookies, u),
                                None => cookies,
                            },
                            _ => cookies,
                        }
                    }
                },
            }
        },
    }
}

/// Exec `kuaishou_profile_cookies`.
pub fn restore_kuaishou_userid_for_profile(cookies: &str, extra: Option<&str>) -> (r: String)
    ensures
        r@ == kuaishou_profile_cookies(cookies@, crate::cookie_json::opt_str(extra)),
{
    let e = match extra {
        Some(e) => e,
        None => {
            return to_string_of(cookies);
        },
    };
    let ec = chars_of(e);
    if trim_chars(ec.as_slice()).len() == 0 {
        return to_string_of(cookies);
    }
    if get_item_from_cookies_ci("userId", cookies).is_ok() {
        return to_string_of(cookies);
    }
    let p = match parse_json(e) {
        Some(p) => p,
        None => {
            return to_string_of(cookies);
        },
    };
    match extra_user_id_exec(&p) {
        Some(u) => {
            let uc = chars_of(u.as_str());
            let t = trim_chars(uc.as_slice());
            if t.len() > 0 {
                let ts = string_of(t.as_slice());
                return add_user_id(cookies, ts.as_str());
            }
        },
        None => {},
    }
    let items = match json_get_opt(json_get(&p, "cookie_info"), "cookies") {
        Some(JsonValue::Array(items)) => items,
        _ => {
            return to_string_of(cookies);
        },
    };
    proof {
        lemma_array_data(*items);
    }
    let ghost iv = items_data(items@);
    let mut i: usize = 0;
    assert(iv.skip(0) =~= iv);
    while i < items.len()
        invariant
            i <= items.len(),
            iv == items_data(items@),
            crate::cookie_json::opt_str(extra) == Some(e@),
            trim(e@).len() > 0,
            cookie_item_ci("userId"@, cookies@) is None,
            json_parse(e@) == Some(p@),
            !(extra_user_id(p@) matches Some(u) && trim(u).len() > 0),
            get_opt(get(p@, "cookie_info"@), "cookies"@) == Some(JsonData::Array(iv)),
            cookie_info_user_id(iv) == cookie_info_user_id(iv.skip(i as int)),
        decreases items.len() - i,
    {
        assert(iv.skip(i as int).drop_first() =~= iv.skip(i as int + 1));
        assert(iv.skip(i as int)[0] == items@[i as int]@);
        let name = match json_get(&items[i], "name") {
            Some(x) => match json_as_str(x) {
                Some(n) => n,
                None => String::new(),
            },
            None => String::new(),
        };
        let value = match json_get(&items[i], "value") {
            Some(x) => match json_as_str(x) {
                Some(v) => v,
                None => String::new(),
            },
            None => String::new(),
        };
        let nc = chars_of(name.as_str());
        let vc = chars_of(value.as_str());
        let vt = trim_chars(vc.as_slice());
        if eq_ignore_case_chars(nc.as_slice(), chars_of("userId").as_slice()) && vt.len() > 0 {
            let vs = string_of(vt.as_slice());
            return add_user_id(cookies, vs.as_str());
        }
        i = i + 1;
    }
    to_string_of(cookies)
}


/// The cookies a login account update goes on with: as given, or, for
/// Kuaishou, with the user id of the extra data added (`kuaishou_with_extra_uid`)
/// before Kuaishou's login cookies are fetched for them.
#[derive(Debug)]
pub enum LoginCookies {
    Use(String),
    FetchKuaishou(String),
}

/// The message of a login account update without cookies.
pub open spec fn empty_cookies_message() -> Seq<char> {
    "Empty cookies"@
}

/// The first step of a login account update: `Empty cookies` for blank
/// cookies; else the cookies to go on with (`LoginCookies`).
pub fn login_account_cookies(platform: &str, cookies: &str, extra: Option<&str>) -> (r: Result<LoginCookies, String>)
    ensures
        crate::text::trim(cookies@).len() == 0 ==> (r matches Err(e) && e@ == empty_cookies_message()),
        crate::text::trim(cookies@).len() > 0 && platform@ == "kuaishou"@ ==> (r matches Ok(
            LoginCookies::FetchKuaishou(c),
        ) && c@ == kuaishou_with_extra_uid(cookies@, crate::cookie_json::opt_str(extra))),
        crate::text::trim(cookies@).len() > 0 && platform@ != "kuaishou"@ ==> (r matches Ok(LoginCookies::Use(c))
            && c@ == cookies@),
{
    let c = crate::text::chars_of(cookies);
    if crate::text::trim_chars(c.as_slice()).len() == 0 {
        return Err(to_string_of("Empty cookies"));
    }
    if is_lit(platform, "kuaishou") {
        Ok(LoginCookies::FetchKuaishou(append_kuaishou_user_id_from_extra(cookies, extra)))
    } else {
        Ok(LoginCookies::Use(to_string_of(cookies)))
    }
}
} // verus!
