//! Cookies read from the built-in browser: how the cookies of each login or
//! guest window become the account's cookie header and cookie list.
//!
//! The window hands over every cookie it holds as a `(name, value)` pair, in
//! the order it read them. Cookies with an empty value are skipped, later
//! pairs replace earlier ones of the same name, and a second map keyed by the
//! ASCII-lowercase name is kept beside the exact one.
use vstd::prelude::*;
use crate::cookie_map::{
    is_cookie_string, is_listing, matches_any_ci, build_cookie_string, merge_missing_from,
    remove_cookie_keys_ci, CookieMap,
};
use crate::cookies::{
    cookie_parts, filter_kuaishou_cookie_header, full_pairs, item_views, semi_sep, CookieItem,
};
use crate::passport::pairs_view;
use crate::text::{
    chars_of, join, lower_chars, lower_seq, split_once, split_once_chars, string_of, to_string_of,
    trimmed_parts, trimmed_parts_chars, views,
};

verus! {

/// The exact-name map of the pairs: empty values skipped, later pairs win.
pub open spec fn harvested(ps: Seq<(Seq<char>, Seq<char>)>) -> Map<Seq<char>, Seq<char>>
    decreases ps.len(),
{
    if ps.len() == 0 {
        Map::<Seq<char>, Seq<char>>::empty()
    } else {
        let m = harvested(ps.drop_last());
        let p = ps.last();
        if p.1.len() == 0 {
            m
        } else {
            m.insert(p.0, p.1)
        }
    }
}

/// The lowercase-name map of the pairs: empty values skipped, later pairs
/// win.
pub open spec fn harvested_lower(ps: Seq<(Seq<char>, Seq<char>)>) -> Map<Seq<char>, Seq<char>>
    decreases ps.len(),
{
    if ps.len() == 0 {
        Map::<Seq<char>, Seq<char>>::empty()
    } else {
        let m = harvested_lower(ps.drop_last());
        let p = ps.last();
        if p.1.len() == 0 {
            m
        } else {
            m.insert(lower_seq(p.0), p.1)
        }
    }
}

#[derive(Debug)]
/// The cookies of one window read: by exact name and by lowercase name.
pub struct HarvestedCookies {
    pub exact: CookieMap,
    pub lower: CookieMap,
}

/// Collects the cookies a window handed over (`pairs`, in reading order):
/// both maps skip empty values and keep the last value of a name.
pub fn harvest_webview_cookies(pairs: &Vec<(String, String)>) -> (r: HarvestedCookies)
    ensures
        r.exact.wf(),
        r.lower.wf(),
        r.exact@ == harvested(pairs_view(pairs@)),
        r.lower@ == harvested_lower(pairs_view(pairs@)),
{
    let ghost ps = pairs_view(pairs@);
    let mut exact = CookieMap::new();
    let mut lower = CookieMap::new();
    let mut i: usize = 0;
    assert(ps.take(0) =~= Seq::<(Seq<char>, Seq<char>)>::empty());
    while i < pairs.len()
        invariant
            i <= pairs.len(),
            ps == pairs_view(pairs@),
            exact.wf(),
            lower.wf(),
            exact@ == harvested(ps.take(i as int)),
            lower@ == harvested_lower(ps.take(i as int)),
        decreases pairs.len() - i,
    {
        assert(ps.take(i as int + 1).drop_last() =~= ps.take(i as int));
        assert(ps.take(i as int + 1).last() == ps[i as int]);
        let name = chars_of(pairs[i].0.as_str());
        let value = chars_of(pairs[i].1.as_str());
        if value.len() > 0 {
            let low = lower_chars(name.as_slice());
            exact.insert_chars(name, value.clone());
            lower.insert_chars(low, value);
        }
        i = i + 1;
    }
    assert(ps.take(pairs.len() as int) =~= ps);
    HarvestedCookies { exact, lower }
}

/// `m` holds one of `keys`.
pub open spec fn holds_any(m: Map<Seq<char>, Seq<char>>, keys: Seq<Seq<char>>) -> bool {
    exists|j: int| 0 <= j < keys.len() && m.contains_key(#[trigger] keys[j])
}

/// The value of the first of `keys` that `m` holds.
pub open spec fn first_held(m: Map<Seq<char>, Seq<char>>, keys: Seq<Seq<char>>) -> Option<
    Seq<char>,
>
    decreases keys.len(),
{
    if keys.len() == 0 {
        None
    } else if m.contains_key(keys[0]) {
        Some(m[keys[0]])
    } else {
        first_held(m, keys.drop_first())
    }
}

/// The names of a list of string literals.
pub open spec fn names(keys: Seq<&str>) -> Seq<Seq<char>> {
    keys.map_values(|k: &str| k@)
}

/// Whether `map` holds one of `keys`.
pub fn contains_any(map: &CookieMap, keys: &[&str]) -> (b: bool)
    requires
        map.wf(),
    ensures
        b == holds_any(map@, names(keys@)),
{
    let mut i: usize = 0;
    while i < keys.len()
        invariant
            i <= keys.len(),
            map.wf(),
            forall|j: int| 0 <= j < i ==> !map@.contains_key(#[trigger] names(keys@)[j]),
        decreases keys.len() - i,
    {
        if map.get(keys[i]).is_some() {
            assert(map@.contains_key(names(keys@)[i as int]));
            return true;
        }
        i = i + 1;
    }
    false
}

/// The value of the first of `keys` that `map` holds.
pub fn first_held_value(map: &CookieMap, keys: &[&str]) -> (r: Option<String>)
    requires
        map.wf(),
    ensures
        match r {
            Some(v) => first_held(map@, names(keys@)) == Some(v@),
            None => first_held(map@, names(keys@)) is None,
        },
{
    let ghost ks = names(keys@);
    let mut i: usize = 0;
    assert(ks.skip(0) =~= ks);
    while i < keys.len()
        invariant
            i <= keys.len(),
            ks == names(keys@),
            map.wf(),
            first_held(map@, ks) == first_held(map@, ks.skip(i as int)),
        decreases keys.len() - i,
    {
        assert(ks.skip(i as int)[0] == ks[i as int]);
        assert(ks.skip(i as int).drop_first() =~= ks.skip(i as int + 1));
        match map.get(keys[i]) {
            Some(v) => {
                return Some(v);
            },
            None => {},
        }
        i = i + 1;
    }
    assert(ks.skip(keys.len() as int).len() == 0);
    None
}

/// `m` with `target` set from the first of `sources` that `lower` holds,
/// when `m` holds none of `absent` and such a source exists.
pub open spec fn with_fallback(
    m: Map<Seq<char>, Seq<char>>,
    lower: Map<Seq<char>, Seq<char>>,
    absent: Seq<Seq<char>>,
    target: Seq<char>,
    sources: Seq<Seq<char>>,
) -> Map<Seq<char>, Seq<char>> {
    if holds_any(m, absent) {
        m
    } else {
        match first_held(lower, sources) {
            Some(v) => m.insert(target, v),
            None => m,
        }
    }
}

/// Sets `target` from the first of `sources` in `lower` when `map` holds
/// none of `absent`.
pub fn fill_from_lower(
    map: &mut CookieMap,
    lower: &CookieMap,
    absent: &[&str],
    target: &str,
    sources: &[&str],
)
    requires
        old(map).wf(),
        lower.wf(),
    ensures
        final(map).wf(),
        final(map)@ == with_fallback(old(map)@, lower@, names(absent@), target@, names(sources@)),
{
    if contains_any(map, absent) {
        return ;
    }
    match first_held_value(lower, sources) {
        Some(v) => {
            map.insert(target, v.as_str());
        },
        None => {},
    }
}

/// The items of a cookie map, one per cookie.
pub fn cookie_items_of(map: &CookieMap) -> (r: Vec<CookieItem>)
    requires
        map.wf(),
    ensures
        is_listing(item_views(r@), map@),
{
    let pairs = map.to_pairs();
    let mut r: Vec<CookieItem> = Vec::new();
    let mut i: usize = 0;
    while i < pairs.len()
        invariant
            i <= pairs.len(),
            item_views(r@) == pairs_view(pairs@).take(i as int),
        decreases pairs.len() - i,
    {
        let ghost before = item_views(r@);
        let item = CookieItem { name: pairs[i].0.clone(), value: pairs[i].1.clone() };
        let ghost iv = (item.name@, item.value@);
        r.push(item);
        assert(item_views(r@) =~= before.push(iv));
        assert(pairs_view(pairs@).take(i as int + 1) =~= pairs_view(pairs@).take(i as int).push(
            pairs_view(pairs@)[i as int],
        ));
        i = i + 1;
    }
    assert(pairs_view(pairs@).take(pairs.len() as int) =~= pairs_view(pairs@));
    r
}

/// The `name` / `value` pairs of the `;`-separated trimmed pieces of a
/// header that hold `=`, split at the first `=` and not trimmed further.
pub open spec fn split_items(parts: Seq<Seq<char>>) -> Seq<(Seq<char>, Seq<char>)>
    decreases parts.len(),
{
    if parts.len() == 0 {
        Seq::<(Seq<char>, Seq<char>)>::empty()
    } else {
        let rest = split_items(parts.drop_last());
        match split_once(parts.last(), '=') {
            Some((k, v)) => rest.push((k, v)),
            None => rest,
        }
    }
}

/// The cookie items of a header: each trimmed `;`-piece that holds `=`,
/// split at its first `=`.
pub fn split_cookie_items(cookies: &str) -> (r: Vec<CookieItem>)
    ensures
        item_views(r@) == split_items(cookie_parts(cookies@)),
{
    let cv = chars_of(cookies);
    let parts = trimmed_parts_chars(cv.as_slice(), ';');
    let mut r: Vec<CookieItem> = Vec::new();
    let mut i: usize = 0;
    assert(views(parts@).take(0) =~= Seq::<Seq<char>>::empty());
    while i < parts.len()
        invariant
            i <= parts.len(),
            item_views(r@) == split_items(views(parts@).take(i as int)),
        decreases parts.len() - i,
    {
        let ghost before = item_views(r@);
        assert(views(parts@).take(i as int + 1).drop_last() =~= views(parts@).take(i as int));
        match split_once_chars(parts[i].as_slice(), '=') {
            Some((k, v)) => {
                let item = CookieItem { name: string_of(k.as_slice()), value: string_of(v.as_slice()) };
                let ghost iv = (item.name@, item.value@);
                r.push(item);
                assert(item_views(r@) =~= before.push(iv));
            },
            None => {},
        }
        i = i + 1;
    }
    assert(views(parts@).take(parts.len() as int) =~= views(parts@));
    r
}

/// `k` equals one of `ns` up to ASCII case.
pub open spec fn matches_name_ci(k: Seq<char>, ns: Seq<Seq<char>>) -> bool {
    exists|j: int| 0 <= j < ns.len() && lower_seq(k) == lower_seq(#[trigger] ns[j])
}

/// `m` without the cookies named like one of `ns`, ASCII case ignored.
pub open spec fn without_ci(m: Map<Seq<char>, Seq<char>>, ns: Seq<Seq<char>>) -> Map<
    Seq<char>,
    Seq<char>,
> {
    m.restrict(m.dom().filter(|k: Seq<char>| !matches_name_ci(k, ns)))
}

/// Removes the cookies named like one of `keys`, ASCII case ignored.
pub fn remove_names_ci(map: &mut CookieMap, keys: &[&str])
    requires
        old(map).wf(),
    ensures
        final(map).wf(),
        final(map)@ == without_ci(old(map)@, names(keys@)),
{
    let ghost m0 = map@;
    remove_cookie_keys_ci(map, keys);
    proof {
        assert forall|k: Seq<char>| matches_any_ci(k, keys@) == matches_name_ci(k, names(keys@)) by {
            if matches_any_ci(k, keys@) {
                let j = choose|j: int| 0 <= j < keys@.len() && lower_seq(k) == lower_seq(#[trigger] keys@[j]@);
                assert(names(keys@)[j] == keys@[j]@);
            }
            if matches_name_ci(k, names(keys@)) {
                let j = choose|j: int| 0 <= j < names(keys@).len() && lower_seq(k) == lower_seq(#[trigger] names(keys@)[j]);
                assert(names(keys@)[j] == keys@[j]@);
            }
        }
        assert(m0.dom().filter(|k: Seq<char>| !matches_any_ci(k, keys@)) =~= m0.dom().filter(
            |k: Seq<char>| !matches_name_ci(k, names(keys@)),
        ));
    }
}

/// The canonical header of `map`, or the error `err` when the map is
/// empty.
pub fn header_or(map: &CookieMap, err: &str) -> (r: Result<String, String>)
    requires
        map.wf(),
    ensures
        match r {
            Ok(v) => map@.dom().len() > 0 && is_cookie_string(map@, v@),
            Err(e) => map@.dom().len() == 0 && e@ == err@,
        },
{
    if map.len() == 0 {
        return Err(to_string_of(err));
    }
    Ok(build_cookie_string(map))
}

#[derive(Debug)]
/// The header and cookie list taken from a login window.
pub struct WebviewImport {
    pub cookies: String,
    pub items: Vec<CookieItem>,
}

/// `sessionid`, `sessionid_ss`.
pub open spec fn session_names() -> Seq<Seq<char>> {
    seq!["sessionid"@, "sessionid_ss"@]
}

/// Device cookies left out of a TikTok login import.
pub open spec fn tiktok_device_names() -> Seq<Seq<char>> {
    seq!["buvid3"@, "buvid4"@, "buvid_fp"@, "buvid_fp_plain"@, "_uuid"@, "b_lsid"@]
}

/// The message for a login window that gave no cookie.
pub open spec fn no_login_cookie_msg() -> Seq<char> {
    "未读取到 Cookie，请先在内置浏览器完成登录"@
}

/// What a TikTok login window import gives: the cookie list of the exact
/// map; the header of that map without device cookies, which must not be
/// empty and must come with a session cookie in either map.
pub open spec fn tiktok_import_spec(
    pairs: Seq<(Seq<char>, Seq<char>)>,
    r: Result<WebviewImport, String>,
) -> bool {
    let ex = harvested(pairs);
    let lo = harvested_lower(pairs);
    let kept = without_ci(ex, tiktok_device_names());
    let login = holds_any(kept, session_names()) || holds_any(lo, session_names());
    match r {
        Ok(v) => kept.dom().len() > 0 && login && is_cookie_string(kept, v.cookies@) && is_listing(
            item_views(v.items@),
            ex,
        ),
        Err(e) => if kept.dom().len() == 0 {
            e@ == no_login_cookie_msg()
        } else {
            !login && e@
                == "未检测到 TikTok 登录状态。请在内置浏览器完成登录（出现个人头像）后再导入。"@
        },
    }
}

/// Turns the cookies of the TikTok login window into the account's header
/// and cookie list.
pub fn finish_tiktok_webview_cookies(pairs: &Vec<(String, String)>) -> (r: Result<
    WebviewImport,
    String,
>)
    ensures
        tiktok_import_spec(pairs_view(pairs@), r),
{
    let mut h = harvest_webview_cookies(pairs);
    let items = cookie_items_of(&h.exact);
    let drop: Vec<&str> = vec!["buvid3", "buvid4", "buvid_fp", "buvid_fp_plain", "_uuid", "b_lsid"];
    assert(names(drop@) =~= tiktok_device_names());
    remove_names_ci(&mut h.exact, drop.as_slice());
    let cookies = match header_or(&h.exact, "未读取到 Cookie，请先在内置浏览器完成登录") {
        Ok(c) => c,
        Err(e) => {
            return Err(e);
        },
    };
    let sessions: Vec<&str> = vec!["sessionid", "sessionid_ss"];
    assert(names(sessions@) =~= session_names());
    if !contains_any(&h.exact, sessions.as_slice()) && !contains_any(&h.lower, sessions.as_slice()) {
        return Err(
            to_string_of(
                "未检测到 TikTok 登录状态。请在内置浏览器完成登录（出现个人头像）后再导入。",
            ),
        );
    }
    Ok(WebviewImport { cookies, items })
}

/// The Kuaishou-style cleaning of a header: its `key=value` pieces whose
/// trimmed key and value are both non-empty, joined by `"; "`.
pub open spec fn full_header(raw: Seq<char>) -> Seq<char> {
    join(full_pairs(cookie_parts(raw)), semi_sep())
}

/// The Douyin map: the exact map completed from the lowercase one, with
/// `sessionid` taken from the lowercase map when neither session cookie is
/// there.
pub open spec fn douyin_map(pairs: Seq<(Seq<char>, Seq<char>)>) -> Map<Seq<char>, Seq<char>> {
    let lo = harvested_lower(pairs);
    let m1 = lo.union_prefer_right(harvested(pairs));
    with_fallback(m1, lo, session_names(), "sessionid"@, session_names())
}

/// What a Douyin login window import gives: the cleaned header of the
/// Douyin map, which must not be empty and must come with a session cookie,
/// and the items split from that header.
pub open spec fn douyin_import_spec(
    pairs: Seq<(Seq<char>, Seq<char>)>,
    r: Result<WebviewImport, String>,
) -> bool {
    let m = douyin_map(pairs);
    let lo = harvested_lower(pairs);
    let login = holds_any(m, session_names()) || holds_any(lo, session_names());
    match r {
        Ok(v) => (exists|raw: Seq<char>| is_cookie_string(m, raw) && full_header(raw) == v.cookies@)
            && v.cookies@.len() > 0 && login && item_views(v.items@) == split_items(
            cookie_parts(v.cookies@),
        ),
        Err(e) => exists|raw: Seq<char>|
            is_cookie_string(m, raw) && if full_header(raw).len() == 0 {
                e@ == no_login_cookie_msg()
            } else {
                !login && e@ == "未检测到抖音登录状态。请在内置浏览器完成登录后再导入。"@
            },
    }
}

/// Turns the cookies of the Douyin login window into the account's header
/// and cookie list.
pub fn finish_douyin_webview_cookies(pairs: &Vec<(String, String)>) -> (r: Result<
    WebviewImport,
    String,
>)
    ensures
        douyin_import_spec(pairs_view(pairs@), r),
{
    let mut h = harvest_webview_cookies(pairs);
    merge_missing_from(&mut h.exact, &h.lower);
    let sessions: Vec<&str> = vec!["sessionid", "sessionid_ss"];
    assert(names(sessions@) =~= session_names());
    fill_from_lower(&mut h.exact, &h.lower, sessions.as_slice(), "sessionid", sessions.as_slice());
    let raw = build_cookie_string(&h.exact);
    let cookies = filter_kuaishou_cookie_header(raw.as_str());
    let items = split_cookie_items(cookies.as_str());
    let cv = chars_of(cookies.as_str());
    assert(h.exact@ == douyin_map(pairs_view(pairs@)));
    assert(is_cookie_string(douyin_map(pairs_view(pairs@)), raw@));
    assert(full_header(raw@) == cookies@);
    if cv.len() == 0 {
        return Err(to_string_of("未读取到 Cookie，请先在内置浏览器完成登录"));
    }
    if !contains_any(&h.exact, sessions.as_slice()) && !contains_any(&h.lower, sessions.as_slice()) {
        return Err(to_string_of("未检测到抖音登录状态。请在内置浏览器完成登录后再导入。"));
    }
    Ok(WebviewImport { cookies, items })
}

/// Login-only cookies left out of a Kuaishou import.
pub open spec fn kuaishou_private_names() -> Seq<Seq<char>> {
    seq!["_did"@, "passtoken"@, "passToken"@]
}

/// The Kuaishou map: the exact map completed from the lowercase one,
/// without the login-only cookies.
pub open spec fn kuaishou_map(pairs: Seq<(Seq<char>, Seq<char>)>) -> Map<Seq<char>, Seq<char>> {
    without_ci(
        harvested_lower(pairs).union_prefer_right(harvested(pairs)),
        kuaishou_private_names(),
    )
}

/// What an import of cookies whose map is `m` gives: its header and cookie
/// list, or `err` when the map is empty.
pub open spec fn plain_import_spec(
    m: Map<Seq<char>, Seq<char>>,
    err: Seq<char>,
    r: Result<WebviewImport, String>,
) -> bool {
    match r {
        Ok(v) => m.dom().len() > 0 && is_cookie_string(m, v.cookies@) && is_listing(
            item_views(v.items@),
            m,
        ),
        Err(e) => m.dom().len() == 0 && e@ == err,
    }
}

/// The header and cookie list of a map, or the error `err` when it is
/// empty.
fn import_of(map: &CookieMap, err: &str) -> (r: Result<WebviewImport, String>)
    requires
        map.wf(),
    ensures
        plain_import_spec(map@, err@, r),
{
    let items = cookie_items_of(map);
    match header_or(map, err) {
        Ok(cookies) => Ok(WebviewImport { cookies, items }),
        Err(e) => Err(e),
    }
}

/// Turns the cookies of the Kuaishou login window into the account's header
/// and cookie list.
pub fn finish_kuaishou_webview_cookies(pairs: &Vec<(String, String)>) -> (r: Result<
    WebviewImport,
    String,
>)
    ensures
        plain_import_spec(kuaishou_map(pairs_view(pairs@)), no_login_cookie_msg(), r),
{
    let mut h = harvest_webview_cookies(pairs);
    merge_missing_from(&mut h.exact, &h.lower);
    let drop: Vec<&str> = vec!["_did", "passtoken", "passToken"];
    assert(names(drop@) =~= kuaishou_private_names());
    remove_names_ci(&mut h.exact, drop.as_slice());
    import_of(&h.exact, "未读取到 Cookie，请先在内置浏览器完成登录")
}

/// Where Huya's `yyuid` may be found under another name.
pub open spec fn yyuid_sources() -> Seq<Seq<char>> {
    seq!["yyuid"@, "yyuid_u"@, "udb_uid"@, "uid"@]
}

/// The Huya map: the exact map, with `yyuid` taken from the lowercase map
/// when it is missing.
pub open spec fn huya_map(pairs: Seq<(Seq<char>, Seq<char>)>) -> Map<Seq<char>, Seq<char>> {
    with_fallback(
        harvested(pairs),
        harvested_lower(pairs),
        seq!["yyuid"@],
        "yyuid"@,
        yyuid_sources(),
    )
}

/// The message for a Huya login window that gave no cookie.
pub open spec fn huya_no_cookie_msg() -> Seq<char> {
    "未读取到完整 Cookie，请在内置浏览器完成登录并访问 www.huya.com / i.huya.com"@
}

/// Turns the cookies of the Huya login window into the account's header and
/// cookie list.
pub fn finish_huya_webview_cookies(pairs: &Vec<(String, String)>) -> (r: Result<
    WebviewImport,
    String,
>)
    ensures
        plain_import_spec(huya_map(pairs_view(pairs@)), huya_no_cookie_msg(), r),
{
    let mut h = harvest_webview_cookies(pairs);
    let absent: Vec<&str> = vec!["yyuid"];
    let sources: Vec<&str> = vec!["yyuid", "yyuid_u", "udb_uid", "uid"];
    assert(names(absent@) =~= seq!["yyuid"@]);
    assert(names(sources@) =~= yyuid_sources());
    fill_from_lower(&mut h.exact, &h.lower, absent.as_slice(), "yyuid", sources.as_slice());
    import_of(
        &h.exact,
        "未读取到完整 Cookie，请在内置浏览器完成登录并访问 www.huya.com / i.huya.com",
    )
}

/// Turns the cookies of the Bilibili login window into the account's header
/// and cookie list (exact names only).
pub fn finish_bilibili_webview_cookies(pairs: &Vec<(String, String)>) -> (r: Result<
    WebviewImport,
    String,
>)
    ensures
        plain_import_spec(harvested(pairs_view(pairs@)), no_login_cookie_msg(), r),
{
    let h = harvest_webview_cookies(pairs);
    import_of(&h.exact, "未读取到 Cookie，请先在内置浏览器完成登录")
}

/// Login and device cookies left out of a TikTok or Douyin guest header.
pub open spec fn guest_private_names() -> Seq<Seq<char>> {
    seq![
        "sessionid"@,
        "sessionid_ss"@,
        "sid_tt"@,
        "sid_guard"@,
        "uid_tt"@,
        "uid_tt_ss"@,
        "s_v_web_id"@,
        "ttwid"@,
        "tt_webid"@,
        "tt_webid_v2"@,
        "device_id"@,
    ]
}

/// `r` is the header of `m`, or `err` when `m` is empty.
pub open spec fn header_spec(
    m: Map<Seq<char>, Seq<char>>,
    err: Seq<char>,
    r: Result<String, String>,
) -> bool {
    match r {
        Ok(v) => m.dom().len() > 0 && is_cookie_string(m, v@),
        Err(e) => m.dom().len() == 0 && e@ == err,
    }
}

/// The exact map of the pairs completed from the lowercase one.
pub open spec fn merged(pairs: Seq<(Seq<char>, Seq<char>)>) -> Map<Seq<char>, Seq<char>> {
    harvested_lower(pairs).union_prefer_right(harvested(pairs))
}

/// Drops the login and device cookies of a TikTok or Douyin guest map.
fn drop_guest_private(map: &mut CookieMap)
    requires
        old(map).wf(),
    ensures
        final(map).wf(),
        final(map)@ == without_ci(old(map)@, guest_private_names()),
{
    let drop: Vec<&str> = vec![
        "sessionid",
        "sessionid_ss",
        "sid_tt",
        "sid_guard",
        "uid_tt",
        "uid_tt_ss",
        "s_v_web_id",
        "ttwid",
        "tt_webid",
        "tt_webid_v2",
        "device_id",
    ];
    assert(names(drop@) =~= guest_private_names());
    remove_names_ci(map, drop.as_slice());
}

/// The guest header of the TikTok guest window's cookies.
pub fn finish_tiktok_guest_cookies(pairs: &Vec<(String, String)>) -> (r: Result<String, String>)
    ensures
        header_spec(
            without_ci(merged(pairs_view(pairs@)), guest_private_names()),
            "未读取到 Cookie，请先在内置浏览器访问 TikTok 页面"@,
            r,
        ),
{
    let mut h = harvest_webview_cookies(pairs);
    merge_missing_from(&mut h.exact, &h.lower);
    drop_guest_private(&mut h.exact);
    header_or(&h.exact, "未读取到 Cookie，请先在内置浏览器访问 TikTok 页面")
}

/// The Douyin guest map before the private cookies are dropped: the merged
/// map, with `sessionid` taken from the lowercase map when it is missing.
pub open spec fn douyin_guest_map(pairs: Seq<(Seq<char>, Seq<char>)>) -> Map<Seq<char>, Seq<char>> {
    with_fallback(
        merged(pairs),
        harvested_lower(pairs),
        seq!["sessionid"@],
        "sessionid"@,
        session_names(),
    )
}

/// The guest header of the Douyin guest window's cookies.
pub fn finish_douyin_guest_cookies(pairs: &Vec<(String, String)>) -> (r: Result<String, String>)
    ensures
        header_spec(
            without_ci(douyin_guest_map(pairs_view(pairs@)), guest_private_names()),
            "未读取到 Cookie，请先在内置浏览器访问抖音页面"@,
            r,
        ),
{
    let mut h = harvest_webview_cookies(pairs);
    merge_missing_from(&mut h.exact, &h.lower);
    let absent: Vec<&str> = vec!["sessionid"];
    let sources: Vec<&str> = vec!["sessionid", "sessionid_ss"];
    assert(names(absent@) =~= seq!["sessionid"@]);
    assert(names(sources@) =~= session_names());
    fill_from_lower(&mut h.exact, &h.lower, absent.as_slice(), "sessionid", sources.as_slice());
    drop_guest_private(&mut h.exact);
    header_or(&h.exact, "未读取到 Cookie，请先在内置浏览器访问抖音页面")
}

/// The guest header of the Huya guest window's cookies: the merged map
/// without `guid`.
pub fn finish_huya_guest_cookies(pairs: &Vec<(String, String)>) -> (r: Result<String, String>)
    ensures
        header_spec(
            without_ci(merged(pairs_view(pairs@)), seq!["guid"@]),
            "未读取到 Cookie，请先在内置浏览器访问虎牙页面"@,
            r,
        ),
{
    let mut h = harvest_webview_cookies(pairs);
    merge_missing_from(&mut h.exact, &h.lower);
    let drop: Vec<&str> = vec!["guid"];
    assert(names(drop@) =~= seq!["guid"@]);
    remove_names_ci(&mut h.exact, drop.as_slice());
    header_or(&h.exact, "未读取到 Cookie，请先在内置浏览器访问虎牙页面")
}

/// The guest header of the Bilibili guest window's cookies (exact names).
pub fn finish_bilibili_guest_cookies(pairs: &Vec<(String, String)>) -> (r: Result<String, String>)
    ensures
        header_spec(
            harvested(pairs_view(pairs@)),
            "未读取到 Cookie，请先在内置浏览器访问 BiliBili 页面"@,
            r,
        ),
{
    let h = harvest_webview_cookies(pairs);
    header_or(&h.exact, "未读取到 Cookie，请先在内置浏览器访问 BiliBili 页面")
}

/// The guest header of the Kuaishou guest window's cookies: the sorted
/// header of the exact map, cleaned as Kuaishou headers are; the error when
/// nothing is left.
pub fn finish_kuaishou_guest_cookies(pairs: &Vec<(String, String)>) -> (r: Result<String, String>)
    ensures
        exists|raw: Seq<char>|
            is_cookie_string(harvested(pairs_view(pairs@)), raw) && match r {
                Ok(v) => v@ == full_header(raw) && v@.len() > 0,
                Err(e) => full_header(raw).len() == 0 && e@ == "未读取到 Kuaishou Cookie"@,
            },
{
    let h = harvest_webview_cookies(pairs);
    let raw = build_cookie_string(&h.exact);
    let cookies = filter_kuaishou_cookie_header(raw.as_str());
    let cv = chars_of(cookies.as_str());
    assert(is_cookie_string(harvested(pairs_view(pairs@)), raw@));
    if cv.len() == 0 {
        return Err(to_string_of("未读取到 Kuaishou Cookie"));
    }
    Ok(cookies)
}

} // verus!
