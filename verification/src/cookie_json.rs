//! Cookies found in URLs and in JSON answers, merged into a cookie map.
use vstd::prelude::*;
use crate::config::opt_view;
use crate::cookie_map::{
    merge_cookie_header_string, merge_cookie_pair, merge_header_parts, merge_pair,
    merge_set_cookie, merge_set_cookie_line, CookieMap,
};
use crate::cookies::cookie_parts;
use crate::json::{
    as_str_opt, entries_data, entry_get, entry_get_exec, has_key, has_key_exec, items_data,
    json_as_str, lemma_array_data, lemma_object_data, JsonData, JsonValue,
};
use crate::passport::pairs_view;
use crate::text::{
    chars_of, contains, contains_chars, ends_with, lower_chars, lower_seq, starts_with,
    starts_with_chars, string_of, trim, trim_chars,
};

verus! {

/// What `url::Url::parse` reads from a text: none when it fails; else the
/// URL's query pairs, decoded, in order (`Url::query_pairs`), and its
/// fragment (`Url::fragment`).
pub uninterp spec fn url_parts(raw: Seq<char>) -> Option<
    (Seq<(Seq<char>, Seq<char>)>, Option<Seq<char>>),
>;

/// The pairs `url::form_urlencoded::parse` decodes from a text, in order.
pub uninterp spec fn form_pairs(text: Seq<char>) -> Seq<(Seq<char>, Seq<char>)>;

/// Calls `url::Url::parse`, then `Url::query_pairs` and `Url::fragment` on
/// the result. Its result is named (`url_parts`).
#[verifier::external_body]
pub(crate) fn parse_url_parts(raw: &str) -> (r: Option<(Vec<(String, String)>, Option<String>)>)
    ensures
        match r {
            Some((q, f)) => url_parts(raw@) == Some((pairs_view(q@), opt_view(f))),
            None => url_parts(raw@) is None,
        },
{
    match url::Url::parse(raw) {
        Ok(u) => Some((
            u.query_pairs().map(|(k, v)| (k.into_owned(), v.into_owned())).collect(),
            u.fragment().map(|f| f.to_string()),
        )),
        Err(_) => None,
    }
}

/// Calls `url::form_urlencoded::parse`. Its result is named (`form_pairs`).
#[verifier::external_body]
fn parse_form_pairs(text: &str) -> (r: Vec<(String, String)>)
    ensures
        pairs_view(r@) == form_pairs(text@),
{
    url::form_urlencoded::parse(text.as_bytes()).map(|(k, v)| (k.into_owned(), v.into_owned())).collect()
}

/// One decoded URL pair merged into a cookie map: a name that holds
/// `set_cookie` or `set-cookie` (without ASCII case) carries a `Set-Cookie`
/// line, one that holds `cookie` a cookie header; others carry nothing.
pub open spec fn url_pair_merge(
    m: Map<Seq<char>, Seq<char>>,
    k: Seq<char>,
    v: Seq<char>,
) -> Map<Seq<char>, Seq<char>> {
    let kl = lower_seq(k);
    if contains(kl, "set_cookie"@) || contains(kl, "set-cookie"@) {
        merge_set_cookie(m, v)
    } else if contains(kl, "cookie"@) {
        merge_header_parts(m, cookie_parts(v))
    } else {
        m
    }
}

/// `url_pair_merge` of each pair, in order.
pub open spec fn url_pairs_merge(
    m: Map<Seq<char>, Seq<char>>,
    ps: Seq<(Seq<char>, Seq<char>)>,
) -> Map<Seq<char>, Seq<char>>
    decreases ps.len(),
{
    if ps.len() == 0 {
        m
    } else {
        let prev = url_pairs_merge(m, ps.drop_last());
        url_pair_merge(prev, ps.last().0, ps.last().1)
    }
}

/// The cookies an HTTP(S) URL carries in its query and then its fragment,
/// merged into a cookie map; anything else changes nothing.
pub open spec fn url_cookie_merge(m: Map<Seq<char>, Seq<char>>, raw: Seq<char>) -> Map<
    Seq<char>,
    Seq<char>,
> {
    let t = trim(raw);
    if t.len() == 0 || (!starts_with(t, "http://"@) && !starts_with(t, "https://"@)) {
        m
    } else {
        match url_parts(t) {
            None => m,
            Some((q, f)) => {
                let m1 = url_pairs_merge(m, q);
                match f {
                    Some(fr) => url_pairs_merge(m1, form_pairs(fr)),
                    None => m1,
                }
            },
        }
    }
}

/// Exec `url_pairs_merge`.
fn merge_url_pairs(map: &mut CookieMap, ps: &Vec<(String, String)>)
    requires
        old(map).wf(),
    ensures
        final(map).wf(),
        final(map)@ == url_pairs_merge(old(map)@, pairs_view(ps@)),
{
    let ghost pv = pairs_view(ps@);
    let mut i: usize = 0;
    assert(pv.take(0) =~= Seq::<(Seq<char>, Seq<char>)>::empty());
    while i < ps.len()
        invariant
            i <= ps.len(),
            pv == pairs_view(ps@),
            map.wf(),
            map@ == url_pairs_merge(old(map)@, pv.take(i as int)),
        decreases ps.len() - i,
    {
        assert(pv.take(i as int + 1).drop_last() =~= pv.take(i as int));
        assert(pv[i as int] == (ps@[i as int].0@, ps@[i as int].1@));
        let kc = chars_of(ps[i].0.as_str());
        let kl = lower_chars(kc.as_slice());
        if contains_chars(kl.as_slice(), chars_of("set_cookie").as_slice()) || contains_chars(
            kl.as_slice(),
            chars_of("set-cookie").as_slice(),
        ) {
            merge_set_cookie_line(map, ps[i].1.as_str());
        } else if contains_chars(kl.as_slice(), chars_of("cookie").as_slice()) {
            merge_cookie_header_string(map, ps[i].1.as_str());
        }
        i = i + 1;
    }
    assert(pv.take(ps.len() as int) =~= pv);
}

/// Exec `url_cookie_merge`.
pub fn merge_cookie_map_from_url(map: &mut CookieMap, raw: &str)
    requires
        old(map).wf(),
    ensures
        final(map).wf(),
        final(map)@ == url_cookie_merge(old(map)@, raw@),
{
    let rc = chars_of(raw);
    let t = trim_chars(rc.as_slice());
    if t.len() == 0 || (!starts_with_chars(t.as_slice(), chars_of("http://").as_slice())
        && !starts_with_chars(t.as_slice(), chars_of("https://").as_slice())) {
        return;
    }
    let ts = string_of(t.as_slice());
    match parse_url_parts(ts.as_str()) {
        None => {},
        Some((q, f)) => {
            merge_url_pairs(map, &q);
            match f {
                Some(fr) => {
                    let fp = parse_form_pairs(fr.as_str());
                    merge_url_pairs(map, &fp);
                },
                None => {},
            }
        },
    }
}

/// The string values of `name_key` and `value_key` merged as a cookie,
/// when both are strings.
pub open spec fn named_pair_merge(
    m: Map<Seq<char>, Seq<char>>,
    es: Seq<(Seq<char>, JsonData)>,
    name_key: Seq<char>,
    value_key: Seq<char>,
) -> Map<Seq<char>, Seq<char>> {
    match (as_str_opt(entry_get(es, name_key)), as_str_opt(entry_get(es, value_key))) {
        (Some(n), Some(v)) => merge_pair(m, n, v),
        _ => m,
    }
}

/// The cookies a JSON answer carries, merged into a cookie map, walking it
/// to nesting depth 8; `hint` is the name of the member the value sits
/// under. An object that sits under a name holding `cookie`, or that has a
/// cookie attribute member (`domain`, `path`, `expires`, `httpOnly`,
/// `sameSite`), gives its `name`/`value` pair; any object gives its
/// `cookieName`/`cookieValue` pair; then its members are walked in order.
/// An array's items are walked under the same name. A string under a name
/// holding `set_cookie`/`set-cookie` or equal to `setcookie` is a
/// `Set-Cookie` line; under a name holding `cookie` a cookie header; under
/// `location` or a name ending in `url` or `uri`, or when it starts with
/// `http://` or `https://`, a URL that may carry cookies.
pub open spec fn json_cookie_merge(
    m: Map<Seq<char>, Seq<char>>,
    v: JsonData,
    hint: Option<Seq<char>>,
    depth: int,
) -> Map<Seq<char>, Seq<char>>
    decreases 9 - depth, 1int, 0int,
{
    if depth > 8 || depth < 0 {
        m
    } else {
        match v {
            JsonData::Object(es) => {
                let hint_cookie = match hint {
                    Some(h) => contains(lower_seq(h), "cookie"@),
                    None => false,
                };
                let looks = has_key(es, "domain"@) || has_key(es, "path"@) || has_key(es, "expires"@)
                    || has_key(es, "httpOnly"@) || has_key(es, "sameSite"@);
                let m1 = if hint_cookie || looks {
                    named_pair_merge(m, es, "name"@, "value"@)
                } else {
                    m
                };
                let m2 = named_pair_merge(m1, es, "cookieName"@, "cookieValue"@);
                json_members_merge(m2, es, 0, depth)
            },
            JsonData::Array(items) => json_items_merge(m, items, 0, hint, depth),
            JsonData::Str(raw) => {
                let h = lower_seq(
                    match hint {
                        Some(x) => x,
                        None => Seq::<char>::empty(),
                    },
                );
                if contains(h, "set_cookie"@) || contains(h, "set-cookie"@) || h == "setcookie"@ {
                    merge_set_cookie(m, raw)
                } else if contains(h, "cookie"@) {
                    merge_header_parts(m, cookie_parts(raw))
                } else if h == "location"@ || ends_with(h, "url"@) || ends_with(h, "uri"@)
                    || starts_with(raw, "http://"@) || starts_with(raw, "https://"@) {
                    url_cookie_merge(m, raw)
                } else {
                    m
                }
            },
            _ => m,
        }
    }
}

/// `json_cookie_merge` of the members from the `k`-th on, in order, each
/// under its own name, one level deeper.
pub open spec fn json_members_merge(
    m: Map<Seq<char>, Seq<char>>,
    es: Seq<(Seq<char>, JsonData)>,
    k: int,
    depth: int,
) -> Map<Seq<char>, Seq<char>>
    decreases 9 - depth, 0int, es.len() - k,
{
    if depth > 8 || depth < 0 || k < 0 || k >= es.len() {
        m
    } else {
        json_members_merge(json_cookie_merge(m, es[k].1, Some(es[k].0), depth + 1), es, k + 1, depth)
    }
}

/// `json_cookie_merge` of the items from the `k`-th on, in order, under
/// `hint`, one level deeper.
pub open spec fn json_items_merge(
    m: Map<Seq<char>, Seq<char>>,
    items: Seq<JsonData>,
    k: int,
    hint: Option<Seq<char>>,
    depth: int,
) -> Map<Seq<char>, Seq<char>>
    decreases 9 - depth, 0int, items.len() - k,
{
    if depth > 8 || depth < 0 || k < 0 || k >= items.len() {
        m
    } else {
        json_items_merge(json_cookie_merge(m, items[k], hint, depth + 1), items, k + 1, hint, depth)
    }
}

/// The text of an optional `&str`.
pub open spec fn opt_str(h: Option<&str>) -> Option<Seq<char>> {
    match h {
        Some(s) => Some(s@),
        None => None,
    }
}

/// Exec `named_pair_merge`.
fn merge_named_pair(map: &mut CookieMap, es: &Vec<(String, JsonValue)>, name_key: &str, value_key: &str)
    requires
        old(map).wf(),
    ensures
        final(map).wf(),
        final(map)@ == named_pair_merge(old(map)@, entries_data(es@), name_key@, value_key@),
{
    let n = match entry_get_exec(es, name_key) {
        Some(x) => json_as_str(x),
        None => None,
    };
    let v = match entry_get_exec(es, value_key) {
        Some(x) => json_as_str(x),
        None => None,
    };
    match (n, v) {
        (Some(n), Some(v)) => merge_cookie_pair(map, n.as_str(), v.as_str()),
        _ => {},
    }
}

/// Exec `json_cookie_merge`.
fn merge_json_at(map: &mut CookieMap, value: &JsonValue, key_hint: Option<&str>, depth: usize)
    requires
        old(map).wf(),
        depth <= 9,
    ensures
        final(map).wf(),
        final(map)@ == json_cookie_merge(old(map)@, value@, opt_str(key_hint), depth as int),
    decreases 9 - depth, 1int, 0int,
{
    if depth > 8 {
        return;
    }
    match value {
        JsonValue::Object(es) => {
            proof {
                lemma_object_data(*es);
            }
            let hint_cookie = match key_hint {
                Some(h) => {
                    let hc = chars_of(h);
                    let hl = lower_chars(hc.as_slice());
                    contains_chars(hl.as_slice(), chars_of("cookie").as_slice())
                },
                None => false,
            };
            let looks = has_key_exec(es, "domain") || has_key_exec(es, "path") || has_key_exec(
                es,
                "expires",
            ) || has_key_exec(es, "httpOnly") || has_key_exec(es, "sameSite");
            if hint_cookie || looks {
                merge_named_pair(map, es, "name", "value");
            }
            merge_named_pair(map, es, "cookieName", "cookieValue");
            let ghost ed = entries_data(es@);
            let ghost m2 = map@;
            let mut k: usize = 0;
            while k < es.len()
                invariant
                    k <= es.len(),
                    depth <= 8,
                    ed == entries_data(es@),
                    map.wf(),
                    json_members_merge(m2, ed, 0, depth as int) == json_members_merge(
                        map@,
                        ed,
                        k as int,
                        depth as int,
                    ),
                decreases es.len() - k,
            {
                assert(ed[k as int] == (es@[k as int].0@, es@[k as int].1@));
                merge_json_at(map, &es[k].1, Some(es[k].0.as_str()), depth + 1);
                k = k + 1;
            }
        },
        JsonValue::Array(items) => {
            proof {
                lemma_array_data(*items);
            }
            let ghost iv = items_data(items@);
            let ghost m0 = map@;
            let mut k: usize = 0;
            while k < items.len()
                invariant
                    k <= items.len(),
                    depth <= 8,
                    iv == items_data(items@),
                    map.wf(),
                    json_items_merge(m0, iv, 0, opt_str(key_hint), depth as int) == json_items_merge(
                        map@,
                        iv,
                        k as int,
                        opt_str(key_hint),
                        depth as int,
                    ),
                decreases items.len() - k,
            {
                assert(iv[k as int] == items@[k as int]@);
                merge_json_at(map, &items[k], key_hint, depth + 1);
                k = k + 1;
            }
        },
        JsonValue::Str(raw) => {
            let hc = match key_hint {
                Some(h) => chars_of(h),
                None => Vec::new(),
            };
            let h = lower_chars(hc.as_slice());
            if contains_chars(h.as_slice(), chars_of("set_cookie").as_slice()) || contains_chars(
                h.as_slice(),
                chars_of("set-cookie").as_slice(),
            ) || crate::text::eq_chars(h.as_slice(), chars_of("setcookie").as_slice()) {
                merge_set_cookie_line(map, raw.as_str());
                return;
            }
            if contains_chars(h.as_slice(), chars_of("cookie").as_slice()) {
                merge_cookie_header_string(map, raw.as_str());
                return;
            }
            let rc = chars_of(raw.as_str());
            if crate::text::eq_chars(h.as_slice(), chars_of("location").as_slice())
                || ends_with_chars(&h, "url") || ends_with_chars(&h, "uri") || starts_with_chars(
                rc.as_slice(),
                chars_of("http://").as_slice(),
            ) || starts_with_chars(rc.as_slice(), chars_of("https://").as_slice()) {
                merge_cookie_map_from_url(map, raw.as_str());
            }
        },
        _ => {},
    }
}

/// `ends_with` on characters and a literal.
pub fn ends_with_chars(s: &Vec<char>, p: &str) -> (b: bool)
    ensures
        b == ends_with(s@, p@),
{
    let pc = chars_of(p);
    if pc.len() > s.len() {
        return false;
    }
    let tail = crate::text::slice_chars(s.as_slice(), s.len() - pc.len(), s.len());
    assert(tail@ =~= s@.skip(s@.len() - p@.len()));
    crate::text::eq_chars(tail.as_slice(), pc.as_slice())
}

/// The cookies a JSON answer carries, merged into a cookie map
/// (`json_cookie_merge` from the top, under no name).
pub fn merge_cookie_map_from_json(map: &mut CookieMap, value: &JsonValue)
    requires
        old(map).wf(),
    ensures
        final(map).wf(),
        final(map)@ == json_cookie_merge(old(map)@, value@, None, 0),
{
    merge_json_at(map, value, None, 0);
}

} // verus!
