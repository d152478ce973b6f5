//! Reading TikTok's pages: the JSON state they embed, the M3U8 URLs they
//! name, and the live room user information inside page data.
use vstd::prelude::*;
use crate::config::opt_view;
use crate::cookies::{concat_str, first_some, lemma_first_some_step};
use crate::json::{
    get, items_data, json_parse_first, entries_data, lemma_array_data, lemma_object_data,
    parse_json_first, JsonData, JsonValue,
};
use crate::text::{chars_of, contains, contains_chars, find_first, occurs_at, string_of};
use crate::tiktok_data::{clone_json, decode_json_string, decoded_json_string};

verus! {

/// The first capture group of the first match of `pattern` in `text`: what
/// `regex::Regex::new(pattern)`, then `captures(text)` and `get(1)` give;
/// `None` when the pattern does not compile, nothing matches or the group
/// took no part.
pub uninterp spec fn regex_capture(pattern: Seq<char>, text: Seq<char>) -> Option<Seq<char>>;

/// Calls `regex::Regex::new`, `Regex::captures` and `Captures::get(1)`. Its
/// result is named (`regex_capture`); nothing more is stated of it.
#[verifier::external_body]
pub(crate) fn regex_first_capture(pattern: &str, text: &str) -> (r: Option<String>)
    ensures
        opt_view(r) == regex_capture(pattern@, text@),
{
    let re = match regex::Regex::new(pattern) {
        Ok(re) => re,
        Err(_) => return None,
    };
    match re.captures(text) {
        Some(c) => c.get(1).map(|m| m.as_str().to_string()),
        None => None,
    }
}

/// The first JSON value of a text: read from its first `{`, or when it has
/// none from its first `[`; none when it has neither.
pub open spec fn first_json_value(raw: Seq<char>) -> Option<JsonData> {
    match find_first(raw, '{') {
        Some(i) => json_parse_first(raw.skip(i)),
        None => match find_first(raw, '[') {
            Some(i) => json_parse_first(raw.skip(i)),
            None => None,
        },
    }
}

/// Exec `first_json_value`.
pub fn parse_first_json_value(raw: &str) -> (r: Option<JsonValue>)
    ensures
        crate::json::ref_data(
            match r {
                Some(v) => Some(&v),
                None => None,
            },
        ) == first_json_value(raw@),
{
    let c = chars_of(raw);
    let start = match crate::text::find_char(c.as_slice(), '{') {
        Some(i) => i,
        None => match crate::text::find_char(c.as_slice(), '[') {
            Some(i) => i,
            None => {
                return None;
            },
        },
    };
    let tail = crate::text::slice_chars(c.as_slice(), start, c.len());
    assert(tail@ =~= raw@.skip(start as int));
    let ts = string_of(tail.as_slice());
    parse_json_first(ts.as_str())
}

/// How far a search moves past a match of `marker`: its length, or one
/// character for an empty marker.
pub open spec fn marker_step(marker: Seq<char>) -> int {
    if marker.len() == 0 {
        1
    } else {
        marker.len() as int
    }
}

/// The first JSON value found right after a match of `marker` in `html`,
/// trying the matches that `str::match_indices` yields from position `from`
/// on, left to right.
pub open spec fn after_marker_scan(html: Seq<char>, marker: Seq<char>, from: int) -> Option<JsonData>
    decreases html.len() + 1 - from,
{
    if from < 0 || from > html.len() {
        None
    } else if occurs_at(html, marker, from) {
        match first_json_value(html.skip(from + marker.len())) {
            Some(v) => Some(v),
            None => after_marker_scan(html, marker, from + marker_step(marker)),
        }
    } else {
        after_marker_scan(html, marker, from + 1)
    }
}

/// Exec `after_marker_scan` from the start.
pub fn extract_json_after_marker(html_str: &str, marker: &str) -> (r: Option<JsonValue>)
    ensures
        crate::json::ref_data(
            match r {
                Some(v) => Some(&v),
                None => None,
            },
        ) == after_marker_scan(html_str@, marker@, 0),
{
    let h = chars_of(html_str);
    let m = chars_of(marker);
    let mut pos: usize = 0;
    while pos <= h.len()
        invariant
            h@ == html_str@,
            m@ == marker@,
            pos <= h.len() + 1,
            after_marker_scan(html_str@, marker@, 0) == after_marker_scan(html_str@, marker@, pos as int),
        decreases h.len() + 1 - pos,
    {
        if crate::text::occurs_at_chars(h.as_slice(), m.as_slice(), pos) {
            let tail = crate::text::slice_chars(h.as_slice(), pos + m.len(), h.len());
            assert(tail@ =~= html_str@.skip(pos + marker@.len()));
            let ts = string_of(tail.as_slice());
            match parse_first_json_value(ts.as_str()) {
                Some(v) => {
                    return Some(v);
                },
                None => {},
            }
            if m.len() == 0 {
                if pos >= h.len() {
                    assert(after_marker_scan(html_str@, marker@, pos as int + 1) is None);
                    return None;
                }
                pos = pos + 1;
            } else {
                pos = pos + m.len();
            }
        } else {
            if pos >= h.len() {
                assert(after_marker_scan(html_str@, marker@, pos as int + 1) is None);
                return None;
            }
            pos = pos + 1;
        }
    }
    None
}

/// The regular expression for the content of the `<script>` element whose
/// id is `id`.
pub open spec fn script_pattern(id: Seq<char>) -> Seq<char> {
    "(?s)<script[^>]*id=['\"]"@ + id + "['\"][^>]*>(.*?)</script>"@
}

/// The JSON in the `<script>` element whose id is `id`.
pub open spec fn script_state(html: Seq<char>, id: Seq<char>) -> Option<JsonData> {
    match regex_capture(script_pattern(id), html) {
        Some(js) => first_json_value(js),
        None => None,
    }
}

/// The JSON a `window` assignment pattern captures.
pub open spec fn pattern_state(html: Seq<char>, pattern: Seq<char>) -> Option<JsonData> {
    match regex_capture(pattern, html) {
        Some(js) => first_json_value(js),
        None => None,
    }
}

/// Where a page's state is looked for, in order: the `SIGI_STATE`,
/// `__UNIVERSAL_DATA_FOR_REHYDRATION__` and `__NEXT_DATA__` script elements;
/// JSON right after those names; then five `window` assignments.
pub open spec fn state_candidates(html: Seq<char>) -> Seq<Option<JsonData>> {
    seq![
        script_state(html, "SIGI_STATE"@),
        script_state(html, "__UNIVERSAL_DATA_FOR_REHYDRATION__"@),
        script_state(html, "__NEXT_DATA__"@),
        after_marker_scan(html, "SIGI_STATE"@, 0),
        after_marker_scan(html, "__UNIVERSAL_DATA_FOR_REHYDRATION__"@, 0),
        after_marker_scan(html, "__NEXT_DATA__"@, 0),
        pattern_state(html, "(?s)window\\['SIGI_STATE'\\]\\s*=\\s*(.*?);\\s*window"@),
        pattern_state(html, "(?s)window\\['SIGI_STATE'\\]\\s*=\\s*(.*?);\\s*</script>"@),
        pattern_state(html, "(?s)window\\.SIGI_STATE\\s*=\\s*(.*?);\\s*window"@),
        pattern_state(html, "(?s)window\\.__UNIVERSAL_DATA_FOR_REHYDRATION__\\s*=\\s*(.*?);\\s*window"@),
        pattern_state(html, "(?s)window\\.__UNIVERSAL_DATA_FOR_REHYDRATION__\\s*=\\s*(.*?);\\s*</script>"@),
    ]
}

/// The JSON script content of the element whose id is `script_id`.
pub fn extract_script_json(html_str: &str, script_id: &str) -> (r: Option<String>)
    ensures
        opt_view(r) == regex_capture(script_pattern(script_id@), html_str@),
{
    let mut pattern = concat_str("(?s)<script[^>]*id=['\"]", script_id);
    pattern.append("['\"][^>]*>(.*?)</script>");
    regex_first_capture(pattern.as_str(), html_str)
}

/// Exec `pattern_state`.
fn state_by_pattern(html_str: &str, pattern: &str) -> (r: Option<JsonValue>)
    ensures
        crate::json::ref_data(
            match r {
                Some(v) => Some(&v),
                None => None,
            },
        ) == pattern_state(html_str@, pattern@),
{
    match regex_first_capture(pattern, html_str) {
        Some(js) => parse_first_json_value(js.as_str()),
        None => None,
    }
}

/// Exec `script_state`.
fn state_by_script(html_str: &str, id: &str) -> (r: Option<JsonValue>)
    ensures
        crate::json::ref_data(
            match r {
                Some(v) => Some(&v),
                None => None,
            },
        ) == script_state(html_str@, id@),
{
    match extract_script_json(html_str, id) {
        Some(js) => parse_first_json_value(js.as_str()),
        None => None,
    }
}

/// The state a page embeds: the first of `state_candidates` found.
pub fn extract_state_value(html_str: &str) -> (r: Option<JsonValue>)
    ensures
        crate::json::ref_data(
            match r {
                Some(v) => Some(&v),
                None => None,
            },
        ) == first_some(state_candidates(html_str@)),
{
    let ghost c = state_candidates(html_str@);
    proof {
        assert(c.take(0) =~= Seq::<Option<JsonData>>::empty());
        lemma_first_some_step(c, 0);
    }
    if let Some(v) = state_by_script(html_str, "SIGI_STATE") {
        return Some(v);
    }
    proof {
        lemma_first_some_step(c, 1);
    }
    if let Some(v) = state_by_script(html_str, "__UNIVERSAL_DATA_FOR_REHYDRATION__") {
        return Some(v);
    }
    proof {
        lemma_first_some_step(c, 2);
    }
    if let Some(v) = state_by_script(html_str, "__NEXT_DATA__") {
        return Some(v);
    }
    proof {
        lemma_first_some_step(c, 3);
    }
    if let Some(v) = extract_json_after_marker(html_str, "SIGI_STATE") {
        return Some(v);
    }
    proof {
        lemma_first_some_step(c, 4);
    }
    if let Some(v) = extract_json_after_marker(html_str, "__UNIVERSAL_DATA_FOR_REHYDRATION__") {
        return Some(v);
    }
    proof {
        lemma_first_some_step(c, 5);
    }
    if let Some(v) = extract_json_after_marker(html_str, "__NEXT_DATA__") {
        return Some(v);
    }
    proof {
        lemma_first_some_step(c, 6);
    }
    if let Some(v) = state_by_pattern(html_str, "(?s)window\\['SIGI_STATE'\\]\\s*=\\s*(.*?);\\s*window") {
        return Some(v);
    }
    proof {
        lemma_first_some_step(c, 7);
    }
    if let Some(v) = state_by_pattern(html_str, "(?s)window\\['SIGI_STATE'\\]\\s*=\\s*(.*?);\\s*</script>") {
        return Some(v);
    }
    proof {
        lemma_first_some_step(c, 8);
    }
    if let Some(v) = state_by_pattern(html_str, "(?s)window\\.SIGI_STATE\\s*=\\s*(.*?);\\s*window") {
        return Some(v);
    }
    proof {
        lemma_first_some_step(c, 9);
    }
    if let Some(v) = state_by_pattern(html_str, "(?s)window\\.__UNIVERSAL_DATA_FOR_REHYDRATION__\\s*=\\s*(.*?);\\s*window") {
        return Some(v);
    }
    proof {
        lemma_first_some_step(c, 10);
    }
    if let Some(v) = state_by_pattern(html_str, "(?s)window\\.__UNIVERSAL_DATA_FOR_REHYDRATION__\\s*=\\s*(.*?);\\s*</script>") {
        return Some(v);
    }
    assert(c.take(11) =~= c);
    None
}

/// The regular expression for an M3U8 URL in a page, escaped or not.
pub open spec fn m3u8_pattern() -> Seq<char> {
    "(https?:\\\\?/\\\\?/[^\"'\\\\s]+\\\\.m3u8[^\"'\\\\s]*)"@
}

/// The M3U8 URL a page names: the first match of `m3u8_pattern`, decoded as
/// a JSON string where that works, if it still holds `.m3u8`.
pub open spec fn html_m3u8(html: Seq<char>) -> Option<Seq<char>> {
    match regex_capture(m3u8_pattern(), html) {
        Some(raw) => {
            let d = match decoded_json_string(raw) {
                Some(x) => x,
                None => raw,
            };
            if contains(d, ".m3u8"@) {
                Some(d)
            } else {
                None
            }
        },
        None => None,
    }
}

/// Exec `html_m3u8`.
pub fn extract_m3u8_from_html(html_str: &str) -> (r: Option<String>)
    ensures
        opt_view(r) == html_m3u8(html_str@),
{
    let raw = match regex_first_capture("(https?:\\\\?/\\\\?/[^\"'\\\\s]+\\\\.m3u8[^\"'\\\\s]*)", html_str) {
        Some(x) => x,
        None => {
            return None;
        },
    };
    let d = match decode_json_string(raw.as_str()) {
        Some(x) => x,
        None => raw,
    };
    let dc = chars_of(d.as_str());
    if contains_chars(dc.as_slice(), chars_of(".m3u8").as_slice()) {
        Some(d)
    } else {
        None
    }
}

} // verus!

verus! {

/// The `liveRoomUserInfo` a value holds, depth first, reading strings that
/// hold JSON as documents too, at most `budget` of them deep: for an object,
/// `LiveRoom.liveRoomUserInfo`, else its own `liveRoomUserInfo`, else the
/// first found in its members' values; for an array, the first found in its
/// items.
pub open spec fn live_user_info(v: JsonData, budget: nat) -> Option<JsonData>
    decreases budget, v, 1int, 0int,
{
    match v {
        JsonData::Object(m) => match crate::json::get_opt(
            crate::json::entry_get(m, "LiveRoom"@),
            "liveRoomUserInfo"@,
        ) {
            Some(i) => Some(i),
            None => match crate::json::entry_get(m, "liveRoomUserInfo"@) {
                Some(i) => Some(i),
                None => live_user_in_members(m, m.len() as int, budget),
            },
        },
        JsonData::Array(items) => live_user_in_items(items, items.len() as int, budget),
        JsonData::Str(s) => if budget == 0 {
            None
        } else {
            match first_json_value(s) {
                Some(p) => live_user_info(p, (budget - 1) as nat),
                None => None,
            }
        },
        _ => None,
    }
}

/// `live_user_info` over the last `n` items.
pub open spec fn live_user_in_items(items: Seq<JsonData>, n: int, budget: nat) -> Option<JsonData>
    decreases budget, items, 0int, n,
{
    if n <= 0 || n > items.len() {
        None
    } else {
        match live_user_info(items[items.len() - n], budget) {
            Some(u) => Some(u),
            None => live_user_in_items(items, n - 1, budget),
        }
    }
}

/// `live_user_info` over the values of the last `n` members.
pub open spec fn live_user_in_members(m: Seq<(Seq<char>, JsonData)>, n: int, budget: nat) -> Option<
    JsonData,
>
    decreases budget, m, 0int, n,
{
    if n <= 0 || n > m.len() {
        None
    } else {
        proof {
            assert(decreases_to!(m => m[m.len() - n]));
        }
        match live_user_info(m[m.len() - n].1, budget) {
            Some(u) => Some(u),
            None => live_user_in_members(m, n - 1, budget),
        }
    }
}

/// The view of an optional owned value.
pub open spec fn owned_data(r: Option<JsonValue>) -> Option<JsonData> {
    match r {
        Some(v) => Some(v@),
        None => None,
    }
}

/// Exec `live_user_in_members` over all members.
fn live_user_in_members_exec(m: &Vec<(String, JsonValue)>, budget: usize) -> (r: Option<JsonValue>)
    ensures
        owned_data(r) == live_user_in_members(entries_data(m@), m@.len() as int, budget as nat),
    decreases budget, m, 0int,
{
    let ghost md = entries_data(m@);
    let n = m.len();
    let mut i: usize = 0;
    while i < n
        invariant
            i <= n == m@.len() == md.len(),
            md == entries_data(m@),
            live_user_in_members(md, n as int, budget as nat) == live_user_in_members(
                md,
                (n - i) as int,
                budget as nat,
            ),
        decreases n - i,
    {
        assert(md[(md.len() - (n - i)) as int] == (m@[i as int].0@, m@[i as int].1@));
        assert(decreases_to!(m => m@[i as int].1));
        match live_user_info_at(&m[i].1, budget) {
            Some(u) => {
                return Some(u);
            },
            None => {},
        }
        i = i + 1;
    }
    None
}

/// Exec `live_user_in_items` over all items.
fn live_user_in_items_exec(items: &Vec<JsonValue>, budget: usize) -> (r: Option<JsonValue>)
    ensures
        owned_data(r) == live_user_in_items(items_data(items@), items@.len() as int, budget as nat),
    decreases budget, items, 0int,
{
    let ghost iv = items_data(items@);
    let n = items.len();
    let mut i: usize = 0;
    while i < n
        invariant
            i <= n == items@.len() == iv.len(),
            iv == items_data(items@),
            live_user_in_items(iv, n as int, budget as nat) == live_user_in_items(
                iv,
                (n - i) as int,
                budget as nat,
            ),
        decreases n - i,
    {
        assert(iv[(iv.len() - (n - i)) as int] == items@[i as int]@);
        assert(decreases_to!(items => items@[i as int]));
        match live_user_info_at(&items[i], budget) {
            Some(u) => {
                return Some(u);
            },
            None => {},
        }
        i = i + 1;
    }
    None
}

/// Exec `live_user_info`.
fn live_user_info_at(value: &JsonValue, budget: usize) -> (r: Option<JsonValue>)
    ensures
        owned_data(r) == live_user_info(value@, budget as nat),
    decreases budget, value, 1int,
{
    match value {
        JsonValue::Object(m) => {
            proof {
                lemma_object_data(*m);
            }
            let lr = crate::json::entry_get_exec(m, "LiveRoom");
            match crate::json::json_get_opt(lr, "liveRoomUserInfo") {
                Some(i) => {
                    return Some(clone_json(i));
                },
                None => {},
            }
            match crate::json::entry_get_exec(m, "liveRoomUserInfo") {
                Some(i) => {
                    return Some(clone_json(i));
                },
                None => {},
            }
            live_user_in_members_exec(m, budget)
        },
        JsonValue::Array(items) => {
            proof {
                lemma_array_data(*items);
            }
            live_user_in_items_exec(items, budget)
        },
        JsonValue::Str(s) => {
            if budget == 0 {
                return None;
            }
            match parse_first_json_value(s.as_str()) {
                Some(p) => live_user_info_at(&p, budget - 1),
                None => None,
            }
        },
        _ => None,
    }
}

/// The `liveRoomUserInfo` a page's data holds (`live_user_info`, reading
/// embedded JSON strings up to `usize::MAX` deep).
pub fn extract_live_room_user_info(value: &JsonValue) -> (r: Option<JsonValue>)
    ensures
        owned_data(r) == live_user_info(value@, usize::MAX as nat),
{
    live_user_info_at(value, usize::MAX)
}

} // verus!
