//! Reading TikTok's JSON documents: fields, chat text, stream candidates,
//! room and user information.
use vstd::prelude::*;
use crate::config::opt_view;
use crate::cookies::concat_str;
use crate::tiktok::{is_tiktok_live_status_flag, Account, RecorderError};
use crate::json::{
    as_i64, entries_data, entry_get, entry_get_exec, get, items_data, json_get, json_parse,
    json_string_parse, lemma_array_data, lemma_object_data, number_text, number_to_string,
    parse_i64, parse_i64_exec, parse_json, parse_json_string, JsonData, JsonNumber, JsonValue,
    NumberData,
};
use crate::text::{
    chars_of, contains, contains_chars, replace_all, replace_chars, starts_with, starts_with_chars,
    string_of, to_string_of, trim, trim_chars,
};

verus! {

// ---------------------------------------------------------------------------
// Copies and text
// ---------------------------------------------------------------------------

/// A copy of a list of values.
fn clone_items(items: &Vec<JsonValue>) -> (r: Vec<JsonValue>)
    ensures
        items_data(r@) == items_data(items@),
    decreases items, 0nat,
{
    let mut r: Vec<JsonValue> = Vec::new();
    let mut i: usize = 0;
    while i < items.len()
        invariant
            i <= items.len(),
            items_data(r@) == items_data(items@).take(i as int),
        decreases items.len() - i,
    {
        assert(decreases_to!(items => items@[i as int]));
        let x = clone_json(&items[i]);
        let ghost before = items_data(r@);
        r.push(x);
        assert(items_data(r@) =~= before.push(x@));
        i = i + 1;
        assert(items_data(r@) =~= items_data(items@).take(i as int));
    }
    assert(items_data(items@).take(items.len() as int) =~= items_data(items@));
    r
}

/// A copy of the members of an object.
fn clone_entries(entries: &Vec<(String, JsonValue)>) -> (r: Vec<(String, JsonValue)>)
    ensures
        entries_data(r@) == entries_data(entries@),
    decreases entries, 0nat,
{
    let mut r: Vec<(String, JsonValue)> = Vec::new();
    let mut i: usize = 0;
    while i < entries.len()
        invariant
            i <= entries.len(),
            entries_data(r@) == entries_data(entries@).take(i as int),
        decreases entries.len() - i,
    {
        assert(decreases_to!(entries => entries@[i as int].1));
        let k = entries[i].0.clone();
        let x = clone_json(&entries[i].1);
        let ghost before = entries_data(r@);
        r.push((k, x));
        assert(entries_data(r@) =~= before.push((k@, x@)));
        i = i + 1;
        assert(entries_data(r@) =~= entries_data(entries@).take(i as int));
    }
    assert(entries_data(entries@).take(entries.len() as int) =~= entries_data(entries@));
    r
}

/// A copy of a JSON value.
pub fn clone_json(v: &JsonValue) -> (r: JsonValue)
    ensures
        r@ == v@,
    decreases v, 1nat,
{
    proof {
        match v {
            JsonValue::Array(items) => lemma_array_data(*items),
            JsonValue::Object(m) => lemma_object_data(*m),
            _ => {},
        }
    }
    match v {
        JsonValue::Null => JsonValue::Null,
        JsonValue::Bool(b) => JsonValue::Bool(*b),
        JsonValue::Number(JsonNumber::PosInt(u)) => JsonValue::Number(JsonNumber::PosInt(*u)),
        JsonValue::Number(JsonNumber::NegInt(i)) => JsonValue::Number(JsonNumber::NegInt(*i)),
        JsonValue::Number(JsonNumber::Float(s)) => JsonValue::Number(JsonNumber::Float(s.clone())),
        JsonValue::Str(s) => JsonValue::Str(s.clone()),
        JsonValue::Array(items) => {
            let c = clone_items(items);
            proof {
                lemma_array_data(c);
            }
            JsonValue::Array(c)
        },
        JsonValue::Object(entries) => {
            let c = clone_entries(entries);
            proof {
                lemma_object_data(c);
            }
            JsonValue::Object(c)
        },
    }
}

} // verus!

verus! {

/// `raw` read as the inside of a JSON string literal; when that fails, `raw`
/// with `\u002F` and `\/` turned into `/`, `\u0026` into `&` and `\u003D`
/// into `=`, if that changed anything.
pub open spec fn decoded_json_string(raw: Seq<char>) -> Option<Seq<char>> {
    match json_string_parse("\""@ + raw + "\""@) {
        Some(s) => Some(s),
        None => {
            let d = replace_all(
                replace_all(
                    replace_all(replace_all(raw, "\\u002F"@, "/"@), "\\/"@, "/"@),
                    "\\u0026"@,
                    "&"@,
                ),
                "\\u003D"@,
                "="@,
            );
            if d == raw {
                None
            } else {
                Some(d)
            }
        },
    }
}

/// `replace_all` on a string.
fn replace_str(s: &Vec<char>, p: &str, r: &str) -> (out: Vec<char>)
    requires
        p@.len() > 0,
    ensures
        out@ == replace_all(s@, p@, r@),
{
    let pc = chars_of(p);
    let rc = chars_of(r);
    replace_chars(s.as_slice(), pc.as_slice(), rc.as_slice())
}

/// Exec `decoded_json_string`.
pub fn decode_json_string(raw: &str) -> (r: Option<String>)
    ensures
        opt_view(r) == decoded_json_string(raw@),
{
    let mut quoted = concat_str("\"", raw);
    quoted.append("\"");
    match parse_json_string(quoted.as_str()) {
        Some(s) => Some(s),
        None => {
            proof {
                reveal_strlit("\\u002F");
                reveal_strlit("\\/");
                reveal_strlit("\\u0026");
                reveal_strlit("\\u003D");
            }
            let c = chars_of(raw);
            let d1 = replace_str(&c, "\\u002F", "/");
            let d2 = replace_str(&d1, "\\/", "/");
            let d3 = replace_str(&d2, "\\u0026", "&");
            let d4 = replace_str(&d3, "\\u003D", "=");
            if crate::text::eq_chars(d4.as_slice(), c.as_slice()) {
                None
            } else {
                Some(string_of(d4.as_slice()))
            }
        },
    }
}

/// `value_to_string`: a string's trimmed text when it is not blank, or a
/// number's text.
pub open spec fn value_text(v: JsonData) -> Option<Seq<char>> {
    match v {
        JsonData::Str(s) => if trim(s).len() == 0 {
            None
        } else {
            Some(trim(s))
        },
        JsonData::Number(n) => Some(number_text(n)),
        _ => None,
    }
}

/// Exec `value_text`.
pub fn value_to_string(value: &JsonValue) -> (r: Option<String>)
    ensures
        opt_view(r) == value_text(value@),
{
    match value {
        JsonValue::Str(s) => {
            let c = chars_of(s.as_str());
            let t = trim_chars(c.as_slice());
            if t.len() == 0 {
                None
            } else {
                Some(string_of(t.as_slice()))
            }
        },
        JsonValue::Number(n) => Some(number_to_string(n)),
        _ => None,
    }
}

/// The first of `keys` that names a non-empty string (its text) or a number
/// (its printed text) in the object.
pub open spec fn string_field(m: Seq<(Seq<char>, JsonData)>, keys: Seq<Seq<char>>) -> Option<
    Seq<char>,
>
    decreases keys.len(),
{
    if keys.len() == 0 {
        None
    } else {
        match entry_get(m, keys[0]) {
            Some(JsonData::Str(s)) => if s.len() > 0 {
                Some(s)
            } else {
                string_field(m, keys.drop_first())
            },
            Some(JsonData::Number(n)) => Some(number_text(n)),
            _ => string_field(m, keys.drop_first()),
        }
    }
}

/// The first of `keys` that names a number (then its `as_i64`, whatever that
/// gives) or a string that parses as an `i64` in the object.
pub open spec fn i64_field(m: Seq<(Seq<char>, JsonData)>, keys: Seq<Seq<char>>) -> Option<i64>
    decreases keys.len(),
{
    if keys.len() == 0 {
        None
    } else {
        match entry_get(m, keys[0]) {
            Some(JsonData::Number(n)) => crate::json::number_i64(n),
            Some(JsonData::Str(s)) => match parse_i64(s) {
                Some(x) => Some(x),
                None => i64_field(m, keys.drop_first()),
            },
            _ => i64_field(m, keys.drop_first()),
        }
    }
}

/// The texts of a list of `&str`.
pub open spec fn strs(keys: Seq<&str>) -> Seq<Seq<char>> {
    keys.map_values(|k: &str| k@)
}

/// Exec `string_field`.
pub fn get_string_field(map: &Vec<(String, JsonValue)>, keys: &[&str]) -> (r: Option<String>)
    ensures
        opt_view(r) == string_field(entries_data(map@), strs(keys@)),
{
    let ghost m = entries_data(map@);
    let ghost ks = strs(keys@);
    let mut i: usize = 0;
    assert(ks.skip(0) =~= ks);
    while i < keys.len()
        invariant
            i <= keys.len(),
            m == entries_data(map@),
            ks == strs(keys@),
            string_field(m, ks) == string_field(m, ks.skip(i as int)),
        decreases keys.len() - i,
    {
        assert(ks.skip(i as int).drop_first() =~= ks.skip(i as int + 1));
        assert(ks.skip(i as int)[0] == keys@[i as int]@);
        match entry_get_exec(map, keys[i]) {
            Some(JsonValue::Str(s)) => {
                if s.unicode_len() > 0 {
                    return Some(s.clone());
                }
            },
            Some(JsonValue::Number(n)) => {
                return Some(number_to_string(n));
            },
            _ => {},
        }
        i = i + 1;
    }
    None
}

/// Exec `i64_field`.
pub fn get_i64_field(map: &Vec<(String, JsonValue)>, keys: &[&str]) -> (r: Option<i64>)
    ensures
        r == i64_field(entries_data(map@), strs(keys@)),
{
    let ghost m = entries_data(map@);
    let ghost ks = strs(keys@);
    let mut i: usize = 0;
    assert(ks.skip(0) =~= ks);
    while i < keys.len()
        invariant
            i <= keys.len(),
            m == entries_data(map@),
            ks == strs(keys@),
            i64_field(m, ks) == i64_field(m, ks.skip(i as int)),
        decreases keys.len() - i,
    {
        assert(ks.skip(i as int).drop_first() =~= ks.skip(i as int + 1));
        assert(ks.skip(i as int)[0] == keys@[i as int]@);
        match entry_get_exec(map, keys[i]) {
            Some(v) => match v {
                JsonValue::Number(_) => {
                    return crate::json::json_as_i64(v);
                },
                JsonValue::Str(s) => {
                    match parse_i64_exec(s.as_str()) {
                        Some(x) => {
                            return Some(x);
                        },
                        None => {},
                    }
                },
                _ => {},
            },
            None => {},
        }
        i = i + 1;
    }
    None
}

} // verus!

verus! {

/// The keys whose values hold a chat message's text, in the order tried.
pub open spec fn chat_text_keys() -> Seq<Seq<char>> {
    seq![
        "content"@,
        "text"@,
        "message"@,
        "msg"@,
        "comment"@,
        "display_text"@,
        "displayText"@,
        "body"@,
        "content_text"@,
        "text_content"@,
        "prompt"@,
        "chat"@,
    ]
}

/// The keys whose values may nest a chat message, in the order tried.
pub open spec fn chat_nested_keys() -> Seq<Seq<char>> {
    seq![
        "message"@,
        "payload"@,
        "data"@,
        "content"@,
        "text"@,
        "comment"@,
        "msg"@,
        "body"@,
        "extras"@,
    ]
}

/// The text of a chat message at nesting `depth`: nothing below depth 4;
/// a string's trimmed non-blank text; a number's text; the first item of an
/// array that has one; for an object, the first of `chat_text_keys`, then of
/// `chat_nested_keys`, whose value has one.
pub open spec fn chat_text(v: JsonData, depth: int) -> Option<Seq<char>>
    decreases 5 - depth, 1int, 0int,
{
    if depth > 4 || depth < 0 {
        None
    } else {
        match v {
            JsonData::Str(s) => if trim(s).len() == 0 {
                None
            } else {
                Some(trim(s))
            },
            JsonData::Number(n) => Some(number_text(n)),
            JsonData::Array(items) => chat_text_items(items, depth, items.len() as int),
            JsonData::Object(m) => match chat_text_in(m, chat_text_keys(), depth, 12) {
                Some(t) => Some(t),
                None => chat_text_in(m, chat_nested_keys(), depth, 9),
            },
            _ => None,
        }
    }
}

/// `chat_text` of the first of the last `n` items that has one.
pub open spec fn chat_text_items(items: Seq<JsonData>, depth: int, n: int) -> Option<Seq<char>>
    decreases 5 - depth, 0int, n,
{
    if depth > 4 || depth < 0 || n <= 0 || n > items.len() {
        None
    } else {
        match chat_text(items[items.len() - n], depth + 1) {
            Some(t) => Some(t),
            None => chat_text_items(items, depth, n - 1),
        }
    }
}

/// `chat_text` of the value of the first of the last `n` keys that has one.
pub open spec fn chat_text_in(
    m: Seq<(Seq<char>, JsonData)>,
    keys: Seq<Seq<char>>,
    depth: int,
    n: int,
) -> Option<Seq<char>>
    decreases 5 - depth, 0int, n,
{
    if depth > 4 || depth < 0 || n <= 0 || n > keys.len() {
        None
    } else {
        match entry_get(m, keys[keys.len() - n]) {
            Some(x) => match chat_text(x, depth + 1) {
                Some(t) => Some(t),
                None => chat_text_in(m, keys, depth, n - 1),
            },
            None => chat_text_in(m, keys, depth, n - 1),
        }
    }
}

/// The first chat text among the values of `keys`.
fn chat_text_of_keys(
    map: &Vec<(String, JsonValue)>,
    keys: &Vec<&str>,
    depth: usize,
) -> (r: Option<String>)
    requires
        depth <= 4,
    ensures
        opt_view(r) == chat_text_in(entries_data(map@), strs(keys@), depth as int, keys@.len() as int),
    decreases 5 - depth, 0int,
{
    let ghost m = entries_data(map@);
    let ghost ks = strs(keys@);
    let n = keys.len();
    let mut i: usize = 0;
    while i < n
        invariant
            i <= n == keys@.len() == ks.len(),
            depth <= 4,
            m == entries_data(map@),
            ks == strs(keys@),
            chat_text_in(m, ks, depth as int, n as int) == chat_text_in(m, ks, depth as int, (n - i) as int),
        decreases n - i,
    {
        assert(ks[(ks.len() - (n - i)) as int] == keys@[i as int]@);
        match entry_get_exec(map, keys[i]) {
            Some(x) => match chat_text_at(x, depth + 1) {
                Some(t) => {
                    return Some(t);
                },
                None => {},
            },
            None => {},
        }
        i = i + 1;
    }
    None
}

/// Exec `chat_text`.
fn chat_text_at(value: &JsonValue, depth: usize) -> (r: Option<String>)
    requires
        depth <= 5,
    ensures
        opt_view(r) == chat_text(value@, depth as int),
    decreases 5 - depth, 1int,
{
    if depth > 4 {
        return None;
    }
    match value {
        JsonValue::Str(s) => {
            let c = chars_of(s.as_str());
            let t = trim_chars(c.as_slice());
            if t.len() == 0 {
                None
            } else {
                Some(string_of(t.as_slice()))
            }
        },
        JsonValue::Number(n) => Some(number_to_string(n)),
        JsonValue::Array(items) => {
            proof {
                lemma_array_data(*items);
            }
            let ghost iv = items_data(items@);
            let n = items.len();
            let mut i: usize = 0;
            while i < n
                invariant
                    i <= n == items@.len() == iv.len(),
                    depth <= 4,
                    iv == items_data(items@),
                    value@ == JsonData::Array(iv),
                    chat_text_items(iv, depth as int, n as int) == chat_text_items(
                        iv,
                        depth as int,
                        (n - i) as int,
                    ),
                decreases n - i,
            {
                assert(iv[(iv.len() - (n - i)) as int] == items@[i as int]@);
                match chat_text_at(&items[i], depth + 1) {
                    Some(t) => {
                        assert(chat_text_items(iv, depth as int, (n - i) as int) == Some(t@));
                        assert(chat_text(value@, depth as int) == chat_text_items(iv, depth as int, n as int));
                        return Some(t);
                    },
                    None => {},
                }
                i = i + 1;
            }
            None
        },
        JsonValue::Object(m) => {
            proof {
                lemma_object_data(*m);
            }
            let text_keys: Vec<&str> = vec![
                "content",
                "text",
                "message",
                "msg",
                "comment",
                "display_text",
                "displayText",
                "body",
                "content_text",
                "text_content",
                "prompt",
                "chat",
            ];
            assert(strs(text_keys@) =~= chat_text_keys());
            match chat_text_of_keys(m, &text_keys, depth) {
                Some(t) => {
                    return Some(t);
                },
                None => {},
            }
            let nested_keys: Vec<&str> = vec![
                "message",
                "payload",
                "data",
                "content",
                "text",
                "comment",
                "msg",
                "body",
                "extras",
            ];
            assert(strs(nested_keys@) =~= chat_nested_keys());
            chat_text_of_keys(m, &nested_keys, depth)
        },
        _ => None,
    }
}

/// The text of a chat message (`chat_text` from depth 0).
pub fn extract_chat_text(value: &JsonValue) -> (r: Option<String>)
    ensures
        opt_view(r) == chat_text(value@, 0),
{
    chat_text_at(value, 0)
}

} // verus!

verus! {

/// The first M3U8 URL held by a value, depth first: a string, decoded as a
/// JSON string where that works, that holds `.m3u8` and starts with `http`;
/// for an object its members' values in order, for an array its items.
pub open spec fn m3u8_in(v: JsonData) -> Option<Seq<char>>
    decreases v, 1int, 0int,
{
    match v {
        JsonData::Str(s) => {
            let d = match decoded_json_string(s) {
                Some(x) => x,
                None => s,
            };
            if contains(d, ".m3u8"@) && starts_with(d, "http"@) {
                Some(d)
            } else {
                None
            }
        },
        JsonData::Object(m) => m3u8_in_members(m, m.len() as int),
        JsonData::Array(items) => m3u8_in_items(items, items.len() as int),
        _ => None,
    }
}

/// `m3u8_in` over the last `n` items.
pub open spec fn m3u8_in_items(items: Seq<JsonData>, n: int) -> Option<Seq<char>>
    decreases items, 0int, n,
{
    if n <= 0 || n > items.len() {
        None
    } else {
        match m3u8_in(items[items.len() - n]) {
            Some(u) => Some(u),
            None => m3u8_in_items(items, n - 1),
        }
    }
}

/// `m3u8_in` over the values of the last `n` members.
pub open spec fn m3u8_in_members(m: Seq<(Seq<char>, JsonData)>, n: int) -> Option<Seq<char>>
    decreases m, 0int, n,
{
    if n <= 0 || n > m.len() {
        None
    } else {
        proof {
            assert(decreases_to!(m => m[m.len() - n]));
        }
        match m3u8_in(m[m.len() - n].1) {
            Some(u) => Some(u),
            None => m3u8_in_members(m, n - 1),
        }
    }
}

/// Exec `m3u8_in_members` over all members.
fn m3u8_in_members_exec(m: &Vec<(String, JsonValue)>) -> (r: Option<String>)
    ensures
        opt_view(r) == m3u8_in_members(entries_data(m@), m@.len() as int),
    decreases m, 0int,
{
    let ghost mv = entries_data(m@);
    let n = m.len();
    let mut i: usize = 0;
    while i < n
        invariant
            i <= n == m@.len() == mv.len(),
            mv == entries_data(m@),
            m3u8_in_members(mv, n as int) == m3u8_in_members(mv, (n - i) as int),
        decreases n - i,
    {
        assert(mv[(mv.len() - (n - i)) as int] == (m@[i as int].0@, m@[i as int].1@));
        assert(decreases_to!(m => m@[i as int].1));
        match find_m3u8_in_value(&m[i].1) {
            Some(u) => {
                return Some(u);
            },
            None => {},
        }
        i = i + 1;
    }
    None
}

/// Exec `m3u8_in_items` over all items.
fn m3u8_in_items_exec(items: &Vec<JsonValue>) -> (r: Option<String>)
    ensures
        opt_view(r) == m3u8_in_items(items_data(items@), items@.len() as int),
    decreases items, 0int,
{
    let ghost iv = items_data(items@);
    let n = items.len();
    let mut i: usize = 0;
    while i < n
        invariant
            i <= n == items@.len() == iv.len(),
            iv == items_data(items@),
            m3u8_in_items(iv, n as int) == m3u8_in_items(iv, (n - i) as int),
        decreases n - i,
    {
        assert(iv[(iv.len() - (n - i)) as int] == items@[i as int]@);
        assert(decreases_to!(items => items@[i as int]));
        match find_m3u8_in_value(&items[i]) {
            Some(u) => {
                return Some(u);
            },
            None => {},
        }
        i = i + 1;
    }
    None
}

/// Exec `m3u8_in`.
pub fn find_m3u8_in_value(value: &JsonValue) -> (r: Option<String>)
    ensures
        opt_view(r) == m3u8_in(value@),
    decreases value, 1int,
{
    match value {
        JsonValue::Str(s) => {
            let d = match decode_json_string(s.as_str()) {
                Some(x) => x,
                None => s.clone(),
            };
            let dc = chars_of(d.as_str());
            if contains_chars(dc.as_slice(), chars_of(".m3u8").as_slice()) && starts_with_chars(
                dc.as_slice(),
                chars_of("http").as_slice(),
            ) {
                Some(d)
            } else {
                None
            }
        },
        JsonValue::Object(m) => {
            proof {
                lemma_object_data(*m);
            }
            m3u8_in_members_exec(m)
        },
        JsonValue::Array(items) => {
            proof {
                lemma_array_data(*items);
            }
            m3u8_in_items_exec(items)
        },
        _ => None,
    }
}

} // verus!

verus! {

// ---------------------------------------------------------------------------
// check_alive answers
// ---------------------------------------------------------------------------

/// The keys a room id is read from.
pub open spec fn room_id_keys() -> Seq<Seq<char>> {
    seq!["room_id"@, "roomId"@, "id"@, "id_str"@]
}

/// The keys a live status is read from in a check_alive entry.
pub open spec fn alive_status_keys() -> Seq<Seq<char>> {
    seq!["status"@, "live_status"@, "liveStatus"@]
}

/// The entries of a check_alive answer: the items of its `data` array, or
/// its `data` object alone.
pub open spec fn check_alive_entries(value: JsonData) -> Seq<JsonData> {
    match get(value, "data"@) {
        Some(JsonData::Array(vs)) => vs,
        Some(JsonData::Object(m)) => seq![JsonData::Object(m)],
        _ => Seq::<JsonData>::empty(),
    }
}

/// The views of a list of references.
pub open spec fn refs_data(v: Seq<&JsonValue>) -> Seq<JsonData> {
    v.map_values(|x: &JsonValue| x@)
}

/// Exec `check_alive_entries`, as references into the answer.
fn check_alive_entry_refs<'a>(value: &'a JsonValue) -> (r: Vec<&'a JsonValue>)
    ensures
        refs_data(r@) == check_alive_entries(value@),
{
    let mut r: Vec<&JsonValue> = Vec::new();
    match json_get(value, "data") {
        Some(d) => match d {
            JsonValue::Array(vs) => {
                proof {
                    lemma_array_data(*vs);
                }
                let mut i: usize = 0;
                while i < vs.len()
                    invariant
                        i <= vs.len(),
                        refs_data(r@) == items_data(vs@).take(i as int),
                    decreases vs.len() - i,
                {
                    let ghost before = refs_data(r@);
                    r.push(&vs[i]);
                    assert(refs_data(r@) =~= before.push(vs@[i as int]@));
                    i = i + 1;
                    assert(refs_data(r@) =~= items_data(vs@).take(i as int));
                }
                assert(items_data(vs@).take(vs.len() as int) =~= items_data(vs@));
            },
            JsonValue::Object(_) => {
                r.push(d);
                assert(refs_data(r@) =~= seq![d@]);
            },
            _ => {},
        },
        None => {},
    }
    r
}

/// The room ids of a check_alive answer's entries, in order.
pub open spec fn alive_room_ids(es: Seq<JsonData>) -> Seq<Seq<char>>
    decreases es.len(),
{
    if es.len() == 0 {
        Seq::<Seq<char>>::empty()
    } else {
        let p = alive_room_ids(es.drop_last());
        match es.last() {
            JsonData::Object(m) => match string_field(m, room_id_keys()) {
                Some(id) => p.push(id),
                None => p,
            },
            _ => p,
        }
    }
}

/// The room-id keys as a list.
fn room_id_key_list() -> (r: Vec<&'static str>)
    ensures
        strs(r@) == room_id_keys(),
{
    let r: Vec<&str> = vec!["room_id", "roomId", "id", "id_str"];
    assert(strs(r@) =~= room_id_keys());
    r
}

/// Exec `alive_room_ids`.
pub fn collect_check_alive_room_ids(value: &JsonValue) -> (r: Vec<String>)
    ensures
        r@.map_values(|s: String| s@) == alive_room_ids(check_alive_entries(value@)),
{
    let entries = check_alive_entry_refs(value);
    let ghost es = refs_data(entries@);
    let keys = room_id_key_list();
    let mut ids: Vec<String> = Vec::new();
    let mut i: usize = 0;
    assert(es.take(0) =~= Seq::<JsonData>::empty());
    while i < entries.len()
        invariant
            i <= entries.len(),
            es == refs_data(entries@),
            strs(keys@) == room_id_keys(),
            ids@.map_values(|s: String| s@) == alive_room_ids(es.take(i as int)),
        decreases entries.len() - i,
    {
        assert(es.take(i as int + 1).drop_last() =~= es.take(i as int));
        assert(es[i as int] == entries@[i as int]@);
        match entries[i] {
            JsonValue::Object(m) => {
                proof {
                    lemma_object_data(*m);
                }
                match get_string_field(m, keys.as_slice()) {
                    Some(id) => {
                        let ghost before = ids@.map_values(|s: String| s@);
                        ids.push(id);
                        assert(ids@.map_values(|s: String| s@) =~= before.push(id@));
                    },
                    None => {},
                }
            },
            _ => {},
        }
        i = i + 1;
    }
    assert(es.take(entries.len() as int) =~= es);
    ids
}

/// Whether a check_alive entry says the room is alive: `is_alive == 1`,
/// else `alive`, else `isLive`; unknown when none of them is there.
pub open spec fn alive_flag(m: Seq<(Seq<char>, JsonData)>) -> Option<bool> {
    match crate::json::as_i64_opt(entry_get(m, "is_alive"@)) {
        Some(x) => Some(x == 1),
        None => match crate::json::as_bool_opt(entry_get(m, "alive"@)) {
            Some(b) => Some(b),
            None => crate::json::as_bool_opt(entry_get(m, "isLive"@)),
        },
    }
}

/// The live room of a check_alive answer, scanning its entries with the
/// first room id seen so far and whether any entry told a status: the first
/// entry with a room id whose status is a live flag or that is alive; when
/// none is, the first room id, but only if no entry told a status.
pub open spec fn alive_scan(es: Seq<JsonData>, fallback: Option<Seq<char>>, saw: bool) -> Option<
    Seq<char>,
>
    decreases es.len(),
{
    if es.len() == 0 {
        if saw {
            None
        } else {
            fallback
        }
    } else {
        let rest = es.drop_first();
        match es[0] {
            JsonData::Object(m) => match string_field(m, room_id_keys()) {
                Some(id) => {
                    let fb = if fallback is None {
                        Some(id)
                    } else {
                        fallback
                    };
                    let status = i64_field(m, alive_status_keys());
                    if status matches Some(st) && (st == 1 || st == 2) {
                        Some(id)
                    } else {
                        let alive = alive_flag(m);
                        if alive == Some(true) {
                            Some(id)
                        } else {
                            alive_scan(rest, fb, saw || status is Some || alive is Some)
                        }
                    }
                },
                None => alive_scan(rest, fallback, saw),
            },
            _ => alive_scan(rest, fallback, saw),
        }
    }
}

/// Exec `alive_flag`.
fn alive_flag_exec(m: &Vec<(String, JsonValue)>) -> (r: Option<bool>)
    ensures
        r == alive_flag(entries_data(m@)),
{
    match entry_get_exec(m, "is_alive") {
        Some(v) => match crate::json::json_as_i64(v) {
            Some(x) => {
                return Some(x == 1);
            },
            None => {},
        },
        None => {},
    }
    match entry_get_exec(m, "alive") {
        Some(v) => match crate::json::json_as_bool(v) {
            Some(b) => {
                return Some(b);
            },
            None => {},
        },
        None => {},
    }
    match entry_get_exec(m, "isLive") {
        Some(v) => crate::json::json_as_bool(v),
        None => None,
    }
}

/// The live room of a check_alive answer (`alive_scan` from the start).
pub fn extract_room_id_from_check_alive(value: &JsonValue) -> (r: Option<String>)
    ensures
        opt_view(r) == alive_scan(check_alive_entries(value@), None, false),
{
    let entries = check_alive_entry_refs(value);
    let ghost es = refs_data(entries@);
    let keys = room_id_key_list();
    let status_keys: Vec<&str> = vec!["status", "live_status", "liveStatus"];
    assert(strs(status_keys@) =~= alive_status_keys());
    let mut fallback: Option<String> = None;
    let mut saw_status = false;
    let mut i: usize = 0;
    assert(es.skip(0) =~= es);
    while i < entries.len()
        invariant
            i <= entries.len(),
            es == refs_data(entries@),
            strs(keys@) == room_id_keys(),
            strs(status_keys@) == alive_status_keys(),
            es == check_alive_entries(value@),
            alive_scan(es, None, false) == alive_scan(es.skip(i as int), opt_view(fallback), saw_status),
        decreases entries.len() - i,
    {
        assert(es.skip(i as int).drop_first() =~= es.skip(i as int + 1));
        assert(es.skip(i as int)[0] == entries@[i as int]@);
        match entries[i] {
            JsonValue::Object(m) => {
                proof {
                    lemma_object_data(*m);
                }
                match get_string_field(m, keys.as_slice()) {
                    Some(room_id) => {
                        if fallback.is_none() {
                            fallback = Some(room_id.clone());
                        }
                        let status = get_i64_field(m, status_keys.as_slice());
                        match status {
                            Some(st) => {
                                saw_status = true;
                                if is_tiktok_live_status_flag(st) {
                                    return Some(room_id);
                                }
                            },
                            None => {},
                        }
                        let alive = alive_flag_exec(m);
                        if alive.is_some() {
                            saw_status = true;
                        }
                        if alive == Some(true) {
                            return Some(room_id);
                        }
                    },
                    None => {},
                }
            },
            _ => {},
        }
        i = i + 1;
    }
    if saw_status {
        return None;
    }
    fallback
}

// ---------------------------------------------------------------------------
// Danmu answers
// ---------------------------------------------------------------------------

#[derive(Debug)]
/// A page of danmu.
pub struct DanmuFetchResult {
    pub messages: Vec<String>,
    pub next_cursor: Option<String>,
    pub fetch_interval_ms: Option<u64>,
}

/// The chat texts of a list of messages, in order, skipping those without.
pub open spec fn chat_texts(ms: Seq<JsonData>) -> Seq<Seq<char>>
    decreases ms.len(),
{
    if ms.len() == 0 {
        Seq::<Seq<char>>::empty()
    } else {
        let p = chat_texts(ms.drop_last());
        match chat_text(ms.last(), 0) {
            Some(t) => p.push(t),
            None => p,
        }
    }
}

/// The messages of a danmu answer: the items of `data.messages`.
pub open spec fn danmu_messages(json: JsonData) -> Seq<JsonData> {
    match crate::json::get_opt(get(json, "data"@), "messages"@) {
        Some(JsonData::Array(ms)) => ms,
        _ => Seq::<JsonData>::empty(),
    }
}

/// The status code of a danmu answer, 0 when it has none.
pub open spec fn danmu_status(json: JsonData) -> i64 {
    match crate::json::as_i64_opt(get(json, "status_code"@)) {
        Some(c) => c,
        None => 0,
    }
}

/// The next cursor of a danmu answer: `data.cursor`, else `cursor`, as text.
pub open spec fn danmu_cursor(json: JsonData) -> Option<Seq<char>> {
    match crate::json::get_opt(get(json, "data"@), "cursor"@) {
        Some(c) if value_text(c) is Some => value_text(c),
        _ => match get(json, "cursor"@) {
            Some(c) => value_text(c),
            None => None,
        },
    }
}

/// The polling interval of a danmu answer: `data.fetch_interval`, with a
/// negative one taken as 0.
pub open spec fn danmu_interval(json: JsonData) -> Option<u64> {
    match crate::json::as_i64_opt(crate::json::get_opt(get(json, "data"@), "fetch_interval"@)) {
        Some(v) => Some(if v < 0 {
            0u64
        } else {
            v as u64
        }),
        None => None,
    }
}

/// The error message for a danmu answer with a non-zero status.
pub open spec fn danmu_status_message(code: i64) -> Seq<char> {
    "TikTok danmu error status: "@ + crate::json::signed_decimal(code as int)
}

} // verus!

verus! {

/// Reads a danmu answer: an error naming the status when `status_code` is
/// present and not 0; otherwise the chat texts of `data.messages`, the next
/// cursor and the polling interval.
pub fn danmu_result_from_json(json: &JsonValue) -> (r: Result<DanmuFetchResult, RecorderError>)
    ensures
        match r {
            Ok(d) => danmu_status(json@) == 0 && d.messages@.map_values(|s: String| s@)
                == chat_texts(danmu_messages(json@)) && opt_view(d.next_cursor) == danmu_cursor(
                json@,
            ) && d.fetch_interval_ms == danmu_interval(json@),
            Err(e) => danmu_status(json@) != 0 && (e matches RecorderError::ApiError { error }
                && error@ == danmu_status_message(danmu_status(json@))),
        },
{
    let status_code: i64 = match json_get(json, "status_code") {
        Some(v) => match crate::json::json_as_i64(v) {
            Some(c) => c,
            None => 0,
        },
        None => 0,
    };
    if status_code != 0 {
        let code_text = number_to_string(&JsonNumber::NegInt(status_code));
        let error = concat_str("TikTok danmu error status: ", code_text.as_str());
        return Err(RecorderError::ApiError { error });
    }
    let data = json_get(json, "data");
    let mut texts: Vec<String> = Vec::new();
    match crate::json::json_get_opt(data, "messages") {
        Some(JsonValue::Array(ms)) => {
            proof {
                lemma_array_data(*ms);
            }
            let ghost mv = items_data(ms@);
            let mut i: usize = 0;
            assert(mv.take(0) =~= Seq::<JsonData>::empty());
            while i < ms.len()
                invariant
                    i <= ms.len(),
                    mv == items_data(ms@),
                    texts@.map_values(|s: String| s@) == chat_texts(mv.take(i as int)),
                decreases ms.len() - i,
            {
                assert(mv.take(i as int + 1).drop_last() =~= mv.take(i as int));
                assert(mv[i as int] == ms@[i as int]@);
                match extract_chat_text(&ms[i]) {
                    Some(t) => {
                        let ghost before = texts@.map_values(|s: String| s@);
                        texts.push(t);
                        assert(texts@.map_values(|s: String| s@) =~= before.push(t@));
                    },
                    None => {},
                }
                i = i + 1;
            }
            assert(mv.take(ms.len() as int) =~= mv);
        },
        _ => {},
    }
    let from_data = match crate::json::json_get_opt(data, "cursor") {
        Some(c) => value_to_string(c),
        None => None,
    };
    let next_cursor = match from_data {
        Some(c) => Some(c),
        None => match json_get(json, "cursor") {
            Some(c) => value_to_string(c),
            None => None,
        },
    };
    let fetch_interval_ms = match crate::json::json_get_opt(data, "fetch_interval") {
        Some(v) => match crate::json::json_as_i64(v) {
            Some(x) => Some(
                if x < 0 {
                    0u64
                } else {
                    x as u64
                },
            ),
            None => None,
        },
        None => None,
    };
    Ok(DanmuFetchResult { messages: texts, next_cursor, fetch_interval_ms })
}

} // verus!

verus! {

// ---------------------------------------------------------------------------
// Stream candidates
// ---------------------------------------------------------------------------

#[derive(Debug)]
/// One stream a room offers.
pub struct StreamCandidate {
    pub hls_url: Option<String>,
    pub flv_url: Option<String>,
    pub bitrate: i64,
    pub width: i64,
    pub height: i64,
    pub resolution: String,
}

/// What a stream candidate is, with text as characters.
pub struct CandidateData {
    pub hls: Option<Seq<char>>,
    pub flv: Option<Seq<char>>,
    pub bitrate: i64,
    pub width: i64,
    pub height: i64,
    pub resolution: Seq<char>,
}

/// The view of a candidate.
pub open spec fn cand_data(c: StreamCandidate) -> CandidateData {
    CandidateData {
        hls: opt_view(c.hls_url),
        flv: opt_view(c.flv_url),
        bitrate: c.bitrate,
        width: c.width,
        height: c.height,
        resolution: c.resolution@,
    }
}

/// The views of a list of candidates.
pub open spec fn cands_data(v: Seq<StreamCandidate>) -> Seq<CandidateData> {
    v.map_values(|c: StreamCandidate| cand_data(c))
}

/// `a` comes strictly before `b`: higher bitrate, then width, then height.
pub open spec fn cand_before(a: CandidateData, b: CandidateData) -> bool {
    a.bitrate > b.bitrate || (a.bitrate == b.bitrate && (a.width > b.width || (a.width == b.width
        && a.height > b.height)))
}

/// `x` inserted into a sorted list after every member it does not come
/// strictly before.
pub open spec fn insert_stable(sorted: Seq<CandidateData>, x: CandidateData) -> Seq<CandidateData>
    decreases sorted.len(),
{
    if sorted.len() == 0 {
        seq![x]
    } else if cand_before(x, sorted.last()) {
        insert_stable(sorted.drop_last(), x).push(sorted.last())
    } else {
        sorted.push(x)
    }
}

/// The candidates in the order of a stable sort by `cand_before`.
pub open spec fn stable_sorted(s: Seq<CandidateData>) -> Seq<CandidateData>
    decreases s.len(),
{
    if s.len() == 0 {
        s
    } else {
        insert_stable(stable_sorted(s.drop_last()), s.last())
    }
}

/// `a` is at least as good as `b`: a higher bitrate, or the same and a
/// greater width, or both the same and at least the height.
pub open spec fn cand_at_least(a: CandidateData, b: CandidateData) -> bool {
    a.bitrate > b.bitrate || (a.bitrate == b.bitrate && (a.width > b.width || (a.width == b.width
        && a.height >= b.height)))
}

/// Every candidate is at least as good as each one after it.
pub open spec fn best_first(s: Seq<CandidateData>) -> bool {
    forall|i: int, j: int| 0 <= i < j < s.len() ==> cand_at_least(#[trigger] s[i], #[trigger] s[j])
}

/// Inserting into a sorted list puts `x` at one place, after the members
/// it does not come strictly before and before those it does.
proof fn lemma_insert_stable_shape(sorted: Seq<CandidateData>, x: CandidateData) -> (k: int)
    ensures
        0 <= k <= sorted.len(),
        insert_stable(sorted, x) == sorted.insert(k, x),
        forall|i: int| k <= i < sorted.len() ==> cand_before(x, #[trigger] sorted[i]),
        k > 0 ==> !cand_before(x, sorted[k - 1]),
    decreases sorted.len(),
{
    if sorted.len() == 0 {
        assert(seq![x] =~= sorted.insert(0, x));
        0
    } else if cand_before(x, sorted.last()) {
        let k = lemma_insert_stable_shape(sorted.drop_last(), x);
        assert(sorted.drop_last().insert(k, x).push(sorted.last()) =~= sorted.insert(k, x));
        assert forall|i: int| k <= i < sorted.len() implies cand_before(x, #[trigger] sorted[i]) by {
            if i < sorted.len() - 1 {
                assert(sorted[i] == sorted.drop_last()[i]);
            }
        }
        if k > 0 {
            assert(sorted[k - 1] == sorted.drop_last()[k - 1]);
        }
        k
    } else {
        assert(sorted.push(x) =~= sorted.insert(sorted.len() as int, x));
        sorted.len() as int
    }
}

/// Inserting keeps a best-first list best first.
proof fn lemma_insert_stable_best_first(sorted: Seq<CandidateData>, x: CandidateData)
    requires
        best_first(sorted),
    ensures
        best_first(insert_stable(sorted, x)),
        insert_stable(sorted, x).to_multiset() == sorted.to_multiset().insert(x),
{
    broadcast use vstd::seq_lib::group_to_multiset_ensures;

    let k = lemma_insert_stable_shape(sorted, x);
    let t = sorted.insert(k, x);
    assert forall|i: int, j: int| 0 <= i < j < t.len() implies cand_at_least(#[trigger] t[i], #[trigger] t[j]) by {
        if j < k {
            assert(t[i] == sorted[i] && t[j] == sorted[j]);
        } else if j == k {
            assert(t[i] == sorted[i]);
            assert(cand_at_least(sorted[k - 1], x));
            if i < k - 1 {
                assert(cand_at_least(sorted[i], sorted[k - 1]));
            }
        } else if i == k {
            assert(t[j] == sorted[j - 1]);
            assert(cand_before(x, sorted[j - 1]));
        } else if i < k {
            assert(t[i] == sorted[i] && t[j] == sorted[j - 1]);
        } else {
            assert(t[i] == sorted[i - 1] && t[j] == sorted[j - 1]);
        }
    }
}

/// The candidates are put best first: each has a bitrate at least that of
/// every later one, and of two with the same bitrate the wider one comes
/// first, then the taller; and none is added or lost.
pub proof fn lemma_candidates_best_first(s: Seq<CandidateData>)
    ensures
        forall|i: int, j: int|
            #![trigger stable_sorted(s)[i], stable_sorted(s)[j]]
            0 <= i < j < stable_sorted(s).len() ==> stable_sorted(s)[i].bitrate >= stable_sorted(s)[j].bitrate
                && (stable_sorted(s)[i].bitrate == stable_sorted(s)[j].bitrate ==> stable_sorted(s)[i].width
                >= stable_sorted(s)[j].width) && (stable_sorted(s)[i].bitrate == stable_sorted(s)[j].bitrate
                && stable_sorted(s)[i].width == stable_sorted(s)[j].width ==> stable_sorted(s)[i].height
                >= stable_sorted(s)[j].height),
        stable_sorted(s).to_multiset() == s.to_multiset(),
    decreases s.len(),
{
    broadcast use vstd::seq_lib::group_to_multiset_ensures;

    lemma_stable_sorted_best_first(s);
    let r = stable_sorted(s);
    assert forall|i: int, j: int| #![trigger r[i], r[j]] 0 <= i < j < r.len() implies cand_at_least(r[i], r[j]) by {}
}

/// A stable sort gives a best-first list with the same candidates.
proof fn lemma_stable_sorted_best_first(s: Seq<CandidateData>)
    ensures
        best_first(stable_sorted(s)),
        stable_sorted(s).to_multiset() == s.to_multiset(),
    decreases s.len(),
{
    broadcast use vstd::seq_lib::group_to_multiset_ensures;

    if s.len() == 0 {
    } else {
        lemma_stable_sorted_best_first(s.drop_last());
        lemma_insert_stable_best_first(stable_sorted(s.drop_last()), s.last());
        assert(s =~= s.drop_last().push(s.last()));
    }
}

/// `str` value of an optional value, or `default`.
pub open spec fn str_or(v: Option<JsonData>, default: Seq<char>) -> Seq<char> {
    match crate::json::as_str_opt(v) {
        Some(s) => s,
        None => default,
    }
}

/// `with_codec` on an optional URL.
pub open spec fn opt_with_codec(u: Option<Seq<char>>, codec: Seq<char>) -> Option<Seq<char>> {
    match u {
        Some(x) => Some(crate::tiktok::with_codec(x, codec)),
        None => None,
    }
}

/// The width and height of a `<w>x<h>` resolution, `(0, 0)` when it is not
/// one.
pub open spec fn resolution_size(r: Seq<char>) -> (i64, i64) {
    match crate::text::split_once(r, 'x') {
        Some((a, b)) => match (parse_i64(a), parse_i64(b)) {
            (Some(x), Some(y)) => (x, y),
            _ => (0, 0),
        },
        None => (0, 0),
    }
}

/// The bitrate of a stream's SDK parameters: `vbitrate` as a number, or as
/// a string that parses, else 0.
pub open spec fn sdk_bitrate(sdk: JsonData) -> i64 {
    match crate::json::as_i64_opt(get(sdk, "vbitrate"@)) {
        Some(b) => b,
        None => match crate::json::as_str_opt(get(sdk, "vbitrate"@)) {
            Some(t) => match parse_i64(t) {
                Some(b) => b,
                None => 0,
            },
            None => 0,
        },
    }
}

/// The candidate an entry of `stream_data.data` describes: its `main`
/// object's `hls` and `flv` URLs, each with the SDK parameters' `VCodec`
/// appended, and the SDK parameters' bitrate and resolution; none when the
/// entry has neither URL.
pub open spec fn candidate_of(entry: JsonData) -> Option<CandidateData> {
    match get(entry, "main"@) {
        Some(JsonData::Object(main)) => {
            let sdk_raw = str_or(entry_get(main, "sdk_params"@), "{}"@);
            let sdk = match json_parse(sdk_raw) {
                Some(v) => v,
                None => JsonData::Null,
            };
            let resolution = str_or(get(sdk, "resolution"@), Seq::<char>::empty());
            let size = resolution_size(resolution);
            let vcodec = str_or(get(sdk, "VCodec"@), Seq::<char>::empty());
            let hls = opt_with_codec(crate::json::as_str_opt(entry_get(main, "hls"@)), vcodec);
            let flv = opt_with_codec(crate::json::as_str_opt(entry_get(main, "flv"@)), vcodec);
            if hls is None && flv is None {
                None
            } else {
                Some(
                    CandidateData {
                        hls,
                        flv,
                        bitrate: sdk_bitrate(sdk),
                        width: size.0,
                        height: size.1,
                        resolution,
                    },
                )
            }
        },
        _ => None,
    }
}

/// The candidates of a list of entries, in order.
pub open spec fn candidates_of(es: Seq<(Seq<char>, JsonData)>) -> Seq<CandidateData>
    decreases es.len(),
{
    if es.len() == 0 {
        Seq::<CandidateData>::empty()
    } else {
        let p = candidates_of(es.drop_last());
        match candidate_of(es.last().1) {
            Some(c) => p.push(c),
            None => p,
        }
    }
}

/// A stream-data text as JSON: read as is, or else decoded first.
pub open spec fn stream_data_value(raw: Seq<char>) -> Option<JsonData> {
    match json_parse(raw) {
        Some(v) => Some(v),
        None => match decoded_json_string(raw) {
            Some(d) => json_parse(d),
            None => None,
        },
    }
}

/// The candidates of a stream-data text, best first: those of the entries
/// of its `data` object, stably sorted by `cand_before`.
pub open spec fn stream_candidates(raw: Seq<char>) -> Seq<CandidateData> {
    match stream_data_value(raw) {
        Some(v) => match get(v, "data"@) {
            Some(JsonData::Object(es)) => stable_sorted(candidates_of(es)),
            _ => Seq::<CandidateData>::empty(),
        },
        None => Seq::<CandidateData>::empty(),
    }
}

/// Exec `stream_data_value`.
pub fn parse_stream_data_value(raw: &str) -> (r: Option<JsonValue>)
    ensures
        crate::json::ref_data(
            match r {
                Some(v) => Some(&v),
                None => None,
            },
        ) == stream_data_value(raw@),
{
    match parse_json(raw) {
        Some(v) => Some(v),
        None => match decode_json_string(raw) {
            Some(d) => parse_json(d.as_str()),
            None => None,
        },
    }
}

/// `a` comes strictly before `b` (`cand_before`).
fn cand_before_exec(a: &StreamCandidate, b: &StreamCandidate) -> (r: bool)
    ensures
        r == cand_before(cand_data(*a), cand_data(*b)),
{
    a.bitrate > b.bitrate || (a.bitrate == b.bitrate && (a.width > b.width || (a.width == b.width
        && a.height > b.height)))
}

/// One step of the backward scan for `x`'s place in a sorted list.
proof fn lemma_insert_stable_step(s: Seq<CandidateData>, k: int, x: CandidateData)
    requires
        0 < k <= s.len(),
        cand_before(x, s[k - 1]),
    ensures
        insert_stable(s.take(k), x) + s.skip(k) == insert_stable(s.take(k - 1), x) + s.skip(k - 1),
{
    assert(s.take(k).drop_last() =~= s.take(k - 1));
    assert(s.take(k).last() == s[k - 1]);
    assert(insert_stable(s.take(k), x) == insert_stable(s.take(k - 1), x).push(s[k - 1]));
    assert(insert_stable(s.take(k - 1), x).push(s[k - 1]) + s.skip(k) =~= insert_stable(
        s.take(k - 1),
        x,
    ) + s.skip(k - 1));
}

/// Sorts candidates stably, best first (`stable_sorted`).
pub fn sort_candidates(v: Vec<StreamCandidate>) -> (r: Vec<StreamCandidate>)
    ensures
        cands_data(r@) == stable_sorted(cands_data(v@)),
        r@.len() == v@.len(),
        forall|i: int, j: int| 0 <= i < j < r@.len() ==> #[trigger] r@[i].bitrate >= #[trigger] r@[j].bitrate,
{
    let ghost id = cands_data(v@);
    let mut out: Vec<StreamCandidate> = Vec::new();
    let mut rest = v;
    let mut queue: Vec<StreamCandidate> = Vec::new();
    assert(cands_data(queue@).reverse() =~= Seq::<CandidateData>::empty());
    assert(cands_data(rest@) + cands_data(queue@).reverse() =~= id);
    while rest.len() > 0
        invariant
            cands_data(rest@) + cands_data(queue@).reverse() == id,
        decreases rest.len(),
    {
        let ghost bq = cands_data(queue@);
        let ghost br = cands_data(rest@);
        let c = rest.pop().unwrap();
        queue.push(c);
        proof {
            assert(cands_data(queue@) =~= bq.push(cand_data(c)));
            assert(cands_data(rest@) =~= br.drop_last());
            assert(br =~= br.drop_last().push(cand_data(c)));
            assert(bq.push(cand_data(c)).reverse() =~= seq![cand_data(c)] + bq.reverse());
            assert(cands_data(rest@) + cands_data(queue@).reverse() =~= br + bq.reverse());
        }
    }
    assert(cands_data(rest@) =~= Seq::<CandidateData>::empty());
    assert(cands_data(queue@).reverse() =~= id);
    assert(cands_data(queue@) =~= id.reverse());
    assert(stable_sorted(id.take(0)) =~= Seq::<CandidateData>::empty());
    while queue.len() > 0
        invariant
            cands_data(queue@) == id.reverse().take(queue@.len() as int),
            queue@.len() <= id.len(),
            cands_data(out@) == stable_sorted(id.take((id.len() - queue@.len()) as int)),
        decreases queue.len(),
    {
        let ghost j = (id.len() - queue@.len()) as int;
        let ghost od = cands_data(out@);
        let ghost bq = cands_data(queue@);
        let c = queue.pop().unwrap();
        proof {
            assert(bq.last() == cand_data(c));
            assert(id.reverse()[queue@.len() as int] == id[j]);
            assert(cand_data(c) == id[j]);
            assert(cands_data(queue@) =~= id.reverse().take(queue@.len() as int));
            assert(id.take(j + 1).drop_last() =~= id.take(j));
        }
        let ghost x = cand_data(c);
        let mut k: usize = out.len();
        assert(od.take(k as int) =~= od);
        assert(od.skip(k as int) =~= Seq::<CandidateData>::empty());
        while k > 0 && cand_before_exec(&c, &out[k - 1])
            invariant
                k <= out.len(),
                od == cands_data(out@),
                x == cand_data(c),
                insert_stable(od, x) == insert_stable(od.take(k as int), x) + od.skip(k as int),
            decreases k,
        {
            proof {
                assert(cands_data(out@)[k - 1] == cand_data(out@[k - 1]));
                lemma_insert_stable_step(od, k as int, x);
            }
            k = k - 1;
        }
        proof {
            if k > 0 {
                assert(cands_data(out@)[k - 1] == cand_data(out@[k - 1]));
                assert(od.take(k as int).last() == od[k - 1]);
                assert(insert_stable(od.take(k as int), x) == od.take(k as int).push(x));
            } else {
                assert(insert_stable(od.take(0), x) =~= seq![x]);
            }
            assert(od.take(k as int).push(x) + od.skip(k as int) =~= od.insert(k as int, x));
        }
        out.insert(k, c);
        proof {
            assert(cands_data(out@) =~= od.insert(k as int, x));
        }
    }
    assert(id.take(id.len() as int) =~= id);
    proof {
        lemma_candidates_best_first(id);
        vstd::seq_lib::to_multiset_len(id);
        vstd::seq_lib::to_multiset_len(stable_sorted(id));
        assert forall|i: int, j: int| 0 <= i < j < out@.len() implies #[trigger] out@[i].bitrate
            >= #[trigger] out@[j].bitrate by {
            assert(cands_data(out@)[i] == cand_data(out@[i]));
            assert(cands_data(out@)[j] == cand_data(out@[j]));
        }
    }
    out
}

} // verus!

verus! {

/// Exec `str_or` for a member of an object.
fn member_str_or(m: &Vec<(String, JsonValue)>, key: &str, default: &str) -> (r: String)
    ensures
        r@ == str_or(entry_get(entries_data(m@), key@), default@),
{
    match entry_get_exec(m, key) {
        Some(v) => match crate::json::json_as_str(v) {
            Some(s) => s,
            None => to_string_of(default),
        },
        None => to_string_of(default),
    }
}

/// Exec `str_or` for a member of a value.
fn value_str_or(v: &JsonValue, key: &str, default: &str) -> (r: String)
    ensures
        r@ == str_or(get(v@, key@), default@),
{
    match json_get(v, key) {
        Some(x) => match crate::json::json_as_str(x) {
            Some(s) => s,
            None => to_string_of(default),
        },
        None => to_string_of(default),
    }
}

/// Exec `resolution_size`.
fn resolution_size_exec(r: &str) -> (wh: (i64, i64))
    ensures
        wh == resolution_size(r@),
{
    let c = chars_of(r);
    match crate::text::split_once_chars(c.as_slice(), 'x') {
        Some((a, b)) => {
            let sa = string_of(a.as_slice());
            let sb = string_of(b.as_slice());
            match (parse_i64_exec(sa.as_str()), parse_i64_exec(sb.as_str())) {
                (Some(x), Some(y)) => (x, y),
                _ => (0, 0),
            }
        },
        None => (0, 0),
    }
}

/// Exec `sdk_bitrate`.
fn sdk_bitrate_exec(sdk: &JsonValue) -> (b: i64)
    ensures
        b == sdk_bitrate(sdk@),
{
    match json_get(sdk, "vbitrate") {
        Some(v) => match crate::json::json_as_i64(v) {
            Some(b) => b,
            None => match crate::json::json_as_str(v) {
                Some(t) => match parse_i64_exec(t.as_str()) {
                    Some(b) => b,
                    None => 0,
                },
                None => 0,
            },
        },
        None => 0,
    }
}

/// An optional URL of an object's member, with a codec appended.
fn member_url(m: &Vec<(String, JsonValue)>, key: &str, codec: &str) -> (r: Option<String>)
    ensures
        opt_view(r) == opt_with_codec(crate::json::as_str_opt(entry_get(entries_data(m@), key@)), codec@),
{
    match entry_get_exec(m, key) {
        Some(v) => match crate::json::json_as_str(v) {
            Some(u) => Some(crate::tiktok::append_codec(u.as_str(), codec)),
            None => None,
        },
        None => None,
    }
}

/// Exec `candidate_of`.
pub fn candidate_from_entry(entry: &JsonValue) -> (r: Option<StreamCandidate>)
    ensures
        match r {
            Some(c) => candidate_of(entry@) == Some(cand_data(c)),
            None => candidate_of(entry@) is None,
        },
{
    let main = match json_get(entry, "main") {
        Some(JsonValue::Object(m)) => m,
        _ => {
            return None;
        },
    };
    proof {
        lemma_object_data(*main);
        reveal_strlit("");
    }
    let sdk_raw = member_str_or(main, "sdk_params", "{}");
    let sdk = match parse_json(sdk_raw.as_str()) {
        Some(v) => v,
        None => JsonValue::Null,
    };
    let bitrate = sdk_bitrate_exec(&sdk);
    let resolution = value_str_or(&sdk, "resolution", "");
    let wh = resolution_size_exec(resolution.as_str());
    let vcodec = value_str_or(&sdk, "VCodec", "");
    let hls_url = member_url(main, "hls", vcodec.as_str());
    let flv_url = member_url(main, "flv", vcodec.as_str());
    if hls_url.is_none() && flv_url.is_none() {
        return None;
    }
    proof {
        let m = entries_data(main@);
        assert(get(entry@, "main"@) == Some(JsonData::Object(m)));
        let sdk_d = match json_parse(str_or(entry_get(m, "sdk_params"@), "{}"@)) {
            Some(v) => v,
            None => JsonData::Null,
        };
        assert(sdk@ == sdk_d);
        assert(bitrate == sdk_bitrate(sdk_d));
        assert(resolution@ == str_or(get(sdk_d, "resolution"@), Seq::<char>::empty()));
    }
    Some(StreamCandidate { hls_url, flv_url, bitrate, width: wh.0, height: wh.1, resolution })
}

/// The candidates of a stream-data text (`stream_candidates`).
pub fn extract_stream_candidates_from_stream_data(stream_data_raw: &str) -> (r: Vec<StreamCandidate>)
    ensures
        cands_data(r@) == stream_candidates(stream_data_raw@),
        forall|i: int, j: int| 0 <= i < j < r@.len() ==> #[trigger] r@[i].bitrate >= #[trigger] r@[j].bitrate,
{
    let v = match parse_stream_data_value(stream_data_raw) {
        Some(v) => v,
        None => {
            return Vec::new();
        },
    };
    let es = match json_get(&v, "data") {
        Some(JsonValue::Object(es)) => es,
        _ => {
            return Vec::new();
        },
    };
    proof {
        lemma_object_data(*es);
    }
    let ghost ed = entries_data(es@);
    let mut found: Vec<StreamCandidate> = Vec::new();
    let mut i: usize = 0;
    assert(ed.take(0) =~= Seq::<(Seq<char>, JsonData)>::empty());
    while i < es.len()
        invariant
            i <= es.len(),
            ed == entries_data(es@),
            cands_data(found@) == candidates_of(ed.take(i as int)),
        decreases es.len() - i,
    {
        assert(ed.take(i as int + 1).drop_last() =~= ed.take(i as int));
        assert(ed[i as int] == (es@[i as int].0@, es@[i as int].1@));
        match candidate_from_entry(&es[i].1) {
            Some(c) => {
                let ghost before = cands_data(found@);
                found.push(c);
                assert(cands_data(found@) =~= before.push(cand_data(c)));
            },
            None => {},
        }
        i = i + 1;
    }
    assert(ed.take(es.len() as int) =~= ed);
    sort_candidates(found)
}

/// The stream-data text of a live room's page data:
/// `liveRoom.streamData.pull_data.stream_data`.
pub open spec fn live_room_stream_data(info: JsonData) -> Option<Seq<char>> {
    crate::json::as_str_opt(
        crate::json::get_opt(
            crate::json::get_opt(crate::json::get_opt(get(info, "liveRoom"@), "streamData"@), "pull_data"@),
            "stream_data"@,
        ),
    )
}

/// The stream-data text of a room-info answer:
/// `(stream_url or streamUrl).live_core_sdk_data.pull_data.stream_data`.
pub open spec fn room_data_stream_data(room: JsonData) -> Option<Seq<char>> {
    let su = match get(room, "stream_url"@) {
        Some(x) => Some(x),
        None => get(room, "streamUrl"@),
    };
    crate::json::as_str_opt(
        crate::json::get_opt(
            crate::json::get_opt(crate::json::get_opt(su, "live_core_sdk_data"@), "pull_data"@),
            "stream_data"@,
        ),
    )
}

/// Candidates of an optional stream-data text.
pub open spec fn candidates_at(raw: Option<Seq<char>>) -> Seq<CandidateData> {
    match raw {
        Some(r) => stream_candidates(r),
        None => Seq::<CandidateData>::empty(),
    }
}

/// The candidates of a live room's page data.
pub fn extract_stream_candidates(live_room_info: &JsonValue) -> (r: Vec<StreamCandidate>)
    ensures
        cands_data(r@) == candidates_at(live_room_stream_data(live_room_info@)),
{
    let a = json_get(live_room_info, "liveRoom");
    let b = crate::json::json_get_opt(a, "streamData");
    let c = crate::json::json_get_opt(b, "pull_data");
    let d = crate::json::json_get_opt(c, "stream_data");
    match d {
        Some(x) => match crate::json::json_as_str(x) {
            Some(raw) => extract_stream_candidates_from_stream_data(raw.as_str()),
            None => Vec::new(),
        },
        None => Vec::new(),
    }
}

/// The candidates of a room-info answer.
pub fn extract_stream_candidates_from_room_info(room_data: &JsonValue) -> (r: Vec<StreamCandidate>)
    ensures
        cands_data(r@) == candidates_at(room_data_stream_data(room_data@)),
{
    let su = match json_get(room_data, "stream_url") {
        Some(x) => Some(x),
        None => json_get(room_data, "streamUrl"),
    };
    let b = crate::json::json_get_opt(su, "live_core_sdk_data");
    let c = crate::json::json_get_opt(b, "pull_data");
    let d = crate::json::json_get_opt(c, "stream_data");
    match d {
        Some(x) => match crate::json::json_as_str(x) {
            Some(raw) => extract_stream_candidates_from_stream_data(raw.as_str()),
            None => Vec::new(),
        },
        None => Vec::new(),
    }
}

} // verus!

verus! {

// ---------------------------------------------------------------------------
// Streams
// ---------------------------------------------------------------------------

#[derive(Debug)]
/// The URLs of a live stream.
pub struct StreamInfo {
    pub hls_url: Option<String>,
    pub rtmp_url: Option<String>,
    pub resolution: Option<String>,
}

/// The container a stream variant is delivered in.
#[derive(Clone, Copy, Debug, PartialEq, Eq, Structural)]
pub enum StreamFormat {
    Rtmp,
    Hls,
}

#[derive(Debug)]
/// One way to play a stream.
pub struct StreamVariant {
    pub url: String,
    pub format: StreamFormat,
}

/// The variants of a stream: the RTMP one first, then the HLS one, each when
/// its URL is known.
pub open spec fn variants_of(rtmp: Option<Seq<char>>, hls: Option<Seq<char>>) -> Seq<
    (Seq<char>, StreamFormat),
> {
    let a = match rtmp {
        Some(u) => seq![(u, StreamFormat::Rtmp)],
        None => Seq::<(Seq<char>, StreamFormat)>::empty(),
    };
    let b = match hls {
        Some(u) => seq![(u, StreamFormat::Hls)],
        None => Seq::<(Seq<char>, StreamFormat)>::empty(),
    };
    a + b
}

/// The view of a variant.
pub open spec fn variant_data(v: StreamVariant) -> (Seq<char>, StreamFormat) {
    (v.url@, v.format)
}

impl StreamInfo {
    /// The variant to record: RTMP when there is one, else HLS; an error when
    /// there is neither.
    pub fn primary_variant(&self) -> (r: Result<StreamVariant, RecorderError>)
        ensures
            match r {
                Ok(v) => variants_of(opt_view(self.rtmp_url), opt_view(self.hls_url)).len() > 0
                    && variant_data(v) == variants_of(opt_view(self.rtmp_url), opt_view(self.hls_url))[0],
                Err(e) => variants_of(opt_view(self.rtmp_url), opt_view(self.hls_url)).len() == 0
                    && e is NoStreamAvailable,
            },
    {
        if let Some(u) = &self.rtmp_url {
            return Ok(StreamVariant { url: u.clone(), format: StreamFormat::Rtmp });
        }
        if let Some(u) = &self.hls_url {
            return Ok(StreamVariant { url: u.clone(), format: StreamFormat::Hls });
        }
        Err(RecorderError::NoStreamAvailable)
    }

    /// Every variant (`variants_of`).
    pub fn all_variants(&self) -> (r: Vec<StreamVariant>)
        ensures
            r@.map_values(|v: StreamVariant| variant_data(v)) == variants_of(
                opt_view(self.rtmp_url),
                opt_view(self.hls_url),
            ),
    {
        let mut r: Vec<StreamVariant> = Vec::new();
        if let Some(u) = &self.rtmp_url {
            r.push(StreamVariant { url: u.clone(), format: StreamFormat::Rtmp });
        }
        if let Some(u) = &self.hls_url {
            r.push(StreamVariant { url: u.clone(), format: StreamFormat::Hls });
        }
        assert(r@.map_values(|v: StreamVariant| variant_data(v)) =~= variants_of(
            opt_view(self.rtmp_url),
            opt_view(self.hls_url),
        ));
        r
    }

    /// TikTok's stream URLs carry no expiry.
    pub fn expires_at(&self) -> (r: Option<i64>)
        ensures
            r is None,
    {
        None
    }
}

/// The stream of a live room's page data: its best candidate, with the FLV
/// URL as the RTMP one.
pub fn extract_stream_from_live_room(live_room_info: &JsonValue) -> (r: Option<StreamInfo>)
    ensures
        match r {
            Some(s) => candidates_at(live_room_stream_data(live_room_info@)).len() > 0 && {
                let b = candidates_at(live_room_stream_data(live_room_info@))[0];
                opt_view(s.hls_url) == b.hls && opt_view(s.rtmp_url) == b.flv && opt_view(
                    s.resolution,
                ) == Some(b.resolution)
            },
            None => candidates_at(live_room_stream_data(live_room_info@)).len() == 0,
        },
{
    let mut cs = extract_stream_candidates(live_room_info);
    if cs.len() == 0 {
        return None;
    }
    let ghost d = cands_data(cs@);
    let best = cs.remove(0);
    assert(cand_data(best) == d[0]);
    Some(StreamInfo { hls_url: best.hls_url, rtmp_url: best.flv_url, resolution: Some(best.resolution) })
}

// ---------------------------------------------------------------------------
// Images
// ---------------------------------------------------------------------------

/// The first URL a value holds: a string itself; an object's `url`, else
/// the first item of its first present list among `url_list`, `urlList`,
/// `urls`; an array's first item; each only when it is a string.
pub open spec fn first_url(v: JsonData) -> Option<Seq<char>> {
    match v {
        JsonData::Str(s) => Some(s),
        JsonData::Object(m) => match crate::json::as_str_opt(entry_get(m, "url"@)) {
            Some(u) => Some(u),
            None => {
                let list = match entry_get(m, "url_list"@) {
                    Some(x) => Some(x),
                    None => match entry_get(m, "urlList"@) {
                        Some(x) => Some(x),
                        None => entry_get(m, "urls"@),
                    },
                };
                match list {
                    Some(JsonData::Array(items)) => if items.len() > 0 {
                        crate::json::as_str(items[0])
                    } else {
                        None
                    },
                    _ => None,
                }
            },
        },
        JsonData::Array(items) => if items.len() > 0 {
            crate::json::as_str(items[0])
        } else {
            None
        },
        _ => None,
    }
}

/// The string of the first item of a list, if it is one.
fn first_item_str(items: &Vec<JsonValue>) -> (r: Option<String>)
    ensures
        opt_view(r) == (if items@.len() > 0 {
            crate::json::as_str(items@[0]@)
        } else {
            None
        }),
{
    if items.len() > 0 {
        crate::json::json_as_str(&items[0])
    } else {
        None
    }
}

/// Exec `first_url`.
pub fn extract_first_url(value: &JsonValue) -> (r: Option<String>)
    ensures
        opt_view(r) == first_url(value@),
{
    match value {
        JsonValue::Str(s) => Some(s.clone()),
        JsonValue::Object(m) => {
            proof {
                lemma_object_data(*m);
            }
            match entry_get_exec(m, "url") {
                Some(x) => match crate::json::json_as_str(x) {
                    Some(u) => {
                        return Some(u);
                    },
                    None => {},
                },
                None => {},
            }
            let list = match entry_get_exec(m, "url_list") {
                Some(x) => Some(x),
                None => match entry_get_exec(m, "urlList") {
                    Some(x) => Some(x),
                    None => entry_get_exec(m, "urls"),
                },
            };
            match list {
                Some(JsonValue::Array(items)) => {
                    proof {
                        lemma_array_data(*items);
                    }
                    first_item_str(items)
                },
                _ => None,
            }
        },
        JsonValue::Array(items) => {
            proof {
                lemma_array_data(*items);
            }
            first_item_str(items)
        },
        _ => None,
    }
}

/// The first string among a list of values.
pub open spec fn first_str_item(items: Seq<JsonData>) -> Option<Seq<char>>
    decreases items.len(),
{
    if items.len() == 0 {
        None
    } else {
        match crate::json::as_str(items[0]) {
            Some(s) => Some(s),
            None => first_str_item(items.drop_first()),
        }
    }
}

/// The first string a value holds: itself, an array's first string item, or
/// an object's first string member value.
pub open spec fn first_string(v: JsonData) -> Option<Seq<char>> {
    match v {
        JsonData::Str(s) => Some(s),
        JsonData::Array(items) => first_str_item(items),
        JsonData::Object(m) => first_str_item(m.map_values(|e: (Seq<char>, JsonData)| e.1)),
        _ => None,
    }
}

/// Exec `first_string`.
pub fn extract_first_string(value: &JsonValue) -> (r: Option<String>)
    ensures
        opt_view(r) == first_string(value@),
{
    match value {
        JsonValue::Str(s) => Some(s.clone()),
        JsonValue::Array(items) => {
            proof {
                lemma_array_data(*items);
            }
            let ghost iv = items_data(items@);
            let mut i: usize = 0;
            assert(iv.skip(0) =~= iv);
            while i < items.len()
                invariant
                    i <= items.len(),
                    iv == items_data(items@),
                    value@ == JsonData::Array(iv),
                    first_str_item(iv) == first_str_item(iv.skip(i as int)),
                decreases items.len() - i,
            {
                assert(iv.skip(i as int).drop_first() =~= iv.skip(i as int + 1));
                assert(iv.skip(i as int)[0] == items@[i as int]@);
                match crate::json::json_as_str(&items[i]) {
                    Some(s) => {
                        return Some(s);
                    },
                    None => {},
                }
                i = i + 1;
            }
            None
        },
        JsonValue::Object(m) => {
            proof {
                lemma_object_data(*m);
            }
            let ghost iv = entries_data(m@).map_values(|e: (Seq<char>, JsonData)| e.1);
            let mut i: usize = 0;
            assert(iv.skip(0) =~= iv);
            while i < m.len()
                invariant
                    i <= m.len(),
                    iv == entries_data(m@).map_values(|e: (Seq<char>, JsonData)| e.1),
                    value@ == JsonData::Object(entries_data(m@)),
                    first_str_item(iv) == first_str_item(iv.skip(i as int)),
                decreases m.len() - i,
            {
                assert(iv.skip(i as int).drop_first() =~= iv.skip(i as int + 1));
                assert(iv.skip(i as int)[0] == m@[i as int].1@);
                match crate::json::json_as_str(&m[i].1) {
                    Some(s) => {
                        return Some(s);
                    },
                    None => {},
                }
                i = i + 1;
            }
            None
        },
        _ => None,
    }
}

/// An image URL: trimmed, with `https:` in front of a scheme-relative one.
pub open spec fn image_url(url: Seq<char>) -> Seq<char> {
    let t = trim(url);
    if starts_with(t, "//"@) {
        "https:"@ + t
    } else {
        t
    }
}

/// Exec `image_url`.
pub fn normalize_image_url(url: &str) -> (r: String)
    ensures
        r@ == image_url(url@),
{
    let c = chars_of(url);
    let t = trim_chars(c.as_slice());
    let ts = string_of(t.as_slice());
    if starts_with_chars(t.as_slice(), chars_of("//").as_slice()) {
        concat_str("https:", ts.as_str())
    } else {
        ts
    }
}

} // verus!

verus! {

/// The keys a cover image is looked up under, in order.
pub open spec fn cover_keys() -> Seq<Seq<char>> {
    seq![
        "cover"@,
        "coverUrl"@,
        "cover_url"@,
        "coverImage"@,
        "coverImageUrl"@,
        "roomCover"@,
        "roomCoverUrl"@,
        "liveRoomCover"@,
        "shareCover"@,
        "shareImage"@,
    ]
}

/// The keys an avatar image is looked up under, in order.
pub open spec fn avatar_keys() -> Seq<Seq<char>> {
    seq![
        "avatarThumb"@,
        "avatar_thumb"@,
        "avatar"@,
        "avatarUrl"@,
        "avatarMedium"@,
        "avatarLarge"@,
        "headUrl"@,
        "head_url"@,
        "profileImage"@,
    ]
}

/// The image URL of the first of the last `n` keys whose value holds a URL.
pub open spec fn url_by_keys(m: Seq<(Seq<char>, JsonData)>, keys: Seq<Seq<char>>, n: int) -> Option<
    Seq<char>,
>
    decreases n,
{
    if n <= 0 || n > keys.len() {
        None
    } else {
        match entry_get(m, keys[keys.len() - n]) {
            Some(x) => match first_url(x) {
                Some(u) => Some(image_url(u)),
                None => url_by_keys(m, keys, n - 1),
            },
            None => url_by_keys(m, keys, n - 1),
        }
    }
}

/// The image URL of the first of the last `n` members whose name holds
/// `cover` (without ASCII case) and whose value holds a URL.
pub open spec fn url_by_cover_name(m: Seq<(Seq<char>, JsonData)>, n: int) -> Option<Seq<char>>
    decreases n,
{
    if n <= 0 || n > m.len() {
        None
    } else {
        let e = m[m.len() - n];
        if contains(crate::text::lower_seq(e.0), "cover"@) && first_url(e.1) is Some {
            Some(image_url(first_url(e.1).unwrap()))
        } else {
            url_by_cover_name(m, n - 1)
        }
    }
}

/// The first cover image of a value, depth first: for an object, the first
/// of `cover_keys` with a URL, else the first member named like a cover
/// with a URL, else the first found in its members' values; for an array,
/// the first found in its items.
pub open spec fn cover_in(v: JsonData) -> Option<Seq<char>>
    decreases v, 1int, 0int,
{
    match v {
        JsonData::Object(m) => match url_by_keys(m, cover_keys(), 10) {
            Some(u) => Some(u),
            None => match url_by_cover_name(m, m.len() as int) {
                Some(u) => Some(u),
                None => cover_in_members(m, m.len() as int),
            },
        },
        JsonData::Array(items) => cover_in_items(items, items.len() as int),
        _ => None,
    }
}

/// `cover_in` over the last `n` items.
pub open spec fn cover_in_items(items: Seq<JsonData>, n: int) -> Option<Seq<char>>
    decreases items, 0int, n,
{
    if n <= 0 || n > items.len() {
        None
    } else {
        match cover_in(items[items.len() - n]) {
            Some(u) => Some(u),
            None => cover_in_items(items, n - 1),
        }
    }
}

/// `cover_in` over the values of the last `n` members.
pub open spec fn cover_in_members(m: Seq<(Seq<char>, JsonData)>, n: int) -> Option<Seq<char>>
    decreases m, 0int, n,
{
    if n <= 0 || n > m.len() {
        None
    } else {
        proof {
            assert(decreases_to!(m => m[m.len() - n]));
        }
        match cover_in(m[m.len() - n].1) {
            Some(u) => Some(u),
            None => cover_in_members(m, n - 1),
        }
    }
}

/// The first avatar image of a value, depth first: for an object, the first
/// of `avatar_keys` with a URL, else the first found in its members'
/// values; for an array, the first found in its items.
pub open spec fn avatar_in(v: JsonData) -> Option<Seq<char>>
    decreases v, 1int, 0int,
{
    match v {
        JsonData::Object(m) => match url_by_keys(m, avatar_keys(), 9) {
            Some(u) => Some(u),
            None => avatar_in_members(m, m.len() as int),
        },
        JsonData::Array(items) => avatar_in_items(items, items.len() as int),
        _ => None,
    }
}

/// `avatar_in` over the last `n` items.
pub open spec fn avatar_in_items(items: Seq<JsonData>, n: int) -> Option<Seq<char>>
    decreases items, 0int, n,
{
    if n <= 0 || n > items.len() {
        None
    } else {
        match avatar_in(items[items.len() - n]) {
            Some(u) => Some(u),
            None => avatar_in_items(items, n - 1),
        }
    }
}

/// `avatar_in` over the values of the last `n` members.
pub open spec fn avatar_in_members(m: Seq<(Seq<char>, JsonData)>, n: int) -> Option<Seq<char>>
    decreases m, 0int, n,
{
    if n <= 0 || n > m.len() {
        None
    } else {
        proof {
            assert(decreases_to!(m => m[m.len() - n]));
        }
        match avatar_in(m[m.len() - n].1) {
            Some(u) => Some(u),
            None => avatar_in_members(m, n - 1),
        }
    }
}

/// Exec `url_by_keys` over all keys.
fn url_by_keys_exec(m: &Vec<(String, JsonValue)>, keys: &Vec<&str>) -> (r: Option<String>)
    ensures
        opt_view(r) == url_by_keys(entries_data(m@), strs(keys@), keys@.len() as int),
{
    let ghost md = entries_data(m@);
    let ghost ks = strs(keys@);
    let n = keys.len();
    let mut i: usize = 0;
    while i < n
        invariant
            i <= n == keys@.len() == ks.len(),
            md == entries_data(m@),
            ks == strs(keys@),
            url_by_keys(md, ks, n as int) == url_by_keys(md, ks, (n - i) as int),
        decreases n - i,
    {
        assert(ks[(ks.len() - (n - i)) as int] == keys@[i as int]@);
        match entry_get_exec(m, keys[i]) {
            Some(x) => match extract_first_url(x) {
                Some(u) => {
                    return Some(normalize_image_url(u.as_str()));
                },
                None => {},
            },
            None => {},
        }
        i = i + 1;
    }
    None
}

/// Exec `url_by_cover_name` over all members.
fn url_by_cover_name_exec(m: &Vec<(String, JsonValue)>) -> (r: Option<String>)
    ensures
        opt_view(r) == url_by_cover_name(entries_data(m@), m@.len() as int),
{
    let ghost md = entries_data(m@);
    let n = m.len();
    let mut i: usize = 0;
    while i < n
        invariant
            i <= n == m@.len() == md.len(),
            md == entries_data(m@),
            url_by_cover_name(md, n as int) == url_by_cover_name(md, (n - i) as int),
        decreases n - i,
    {
        assert(md[(md.len() - (n - i)) as int] == (m@[i as int].0@, m@[i as int].1@));
        let kc = chars_of(m[i].0.as_str());
        let lk = crate::text::lower_chars(kc.as_slice());
        if contains_chars(lk.as_slice(), chars_of("cover").as_slice()) {
            match extract_first_url(&m[i].1) {
                Some(u) => {
                    return Some(normalize_image_url(u.as_str()));
                },
                None => {},
            }
        }
        i = i + 1;
    }
    None
}

/// The cover keys as a list.
fn cover_key_list() -> (r: Vec<&'static str>)
    ensures
        strs(r@) == cover_keys(),
        r@.len() == 10,
{
    let r: Vec<&str> = vec![
        "cover",
        "coverUrl",
        "cover_url",
        "coverImage",
        "coverImageUrl",
        "roomCover",
        "roomCoverUrl",
        "liveRoomCover",
        "shareCover",
        "shareImage",
    ];
    assert(strs(r@) =~= cover_keys());
    r
}

/// The avatar keys as a list.
fn avatar_key_list() -> (r: Vec<&'static str>)
    ensures
        strs(r@) == avatar_keys(),
        r@.len() == 9,
{
    let r: Vec<&str> = vec![
        "avatarThumb",
        "avatar_thumb",
        "avatar",
        "avatarUrl",
        "avatarMedium",
        "avatarLarge",
        "headUrl",
        "head_url",
        "profileImage",
    ];
    assert(strs(r@) =~= avatar_keys());
    r
}

/// Exec `cover_in_members` over all members.
fn cover_in_members_exec(m: &Vec<(String, JsonValue)>) -> (r: Option<String>)
    ensures
        opt_view(r) == cover_in_members(entries_data(m@), m@.len() as int),
    decreases m, 0int,
{
    let ghost md = entries_data(m@);
    let n = m.len();
    let mut i: usize = 0;
    while i < n
        invariant
            i <= n == m@.len() == md.len(),
            md == entries_data(m@),
            cover_in_members(md, n as int) == cover_in_members(md, (n - i) as int),
        decreases n - i,
    {
        assert(md[(md.len() - (n - i)) as int] == (m@[i as int].0@, m@[i as int].1@));
        assert(decreases_to!(m => m@[i as int].1));
        match find_cover_url(&m[i].1) {
            Some(u) => {
                return Some(u);
            },
            None => {},
        }
        i = i + 1;
    }
    None
}

/// Exec `cover_in_items` over all items.
fn cover_in_items_exec(items: &Vec<JsonValue>) -> (r: Option<String>)
    ensures
        opt_view(r) == cover_in_items(items_data(items@), items@.len() as int),
    decreases items, 0int,
{
    let ghost iv = items_data(items@);
    let n = items.len();
    let mut i: usize = 0;
    while i < n
        invariant
            i <= n == items@.len() == iv.len(),
            iv == items_data(items@),
            cover_in_items(iv, n as int) == cover_in_items(iv, (n - i) as int),
        decreases n - i,
    {
        assert(iv[(iv.len() - (n - i)) as int] == items@[i as int]@);
        assert(decreases_to!(items => items@[i as int]));
        match find_cover_url(&items[i]) {
            Some(u) => {
                return Some(u);
            },
            None => {},
        }
        i = i + 1;
    }
    None
}

/// Exec `cover_in`.
pub fn find_cover_url(value: &JsonValue) -> (r: Option<String>)
    ensures
        opt_view(r) == cover_in(value@),
    decreases value, 1int,
{
    match value {
        JsonValue::Object(m) => {
            proof {
                lemma_object_data(*m);
            }
            let keys = cover_key_list();
            match url_by_keys_exec(m, &keys) {
                Some(u) => {
                    return Some(u);
                },
                None => {},
            }
            match url_by_cover_name_exec(m) {
                Some(u) => {
                    return Some(u);
                },
                None => {},
            }
            cover_in_members_exec(m)
        },
        JsonValue::Array(items) => {
            proof {
                lemma_array_data(*items);
            }
            cover_in_items_exec(items)
        },
        _ => None,
    }
}

/// Exec `avatar_in_members` over all members.
fn avatar_in_members_exec(m: &Vec<(String, JsonValue)>) -> (r: Option<String>)
    ensures
        opt_view(r) == avatar_in_members(entries_data(m@), m@.len() as int),
    decreases m, 0int,
{
    let ghost md = entries_data(m@);
    let n = m.len();
    let mut i: usize = 0;
    while i < n
        invariant
            i <= n == m@.len() == md.len(),
            md == entries_data(m@),
            avatar_in_members(md, n as int) == avatar_in_members(md, (n - i) as int),
        decreases n - i,
    {
        assert(md[(md.len() - (n - i)) as int] == (m@[i as int].0@, m@[i as int].1@));
        assert(decreases_to!(m => m@[i as int].1));
        match find_avatar_url(&m[i].1) {
            Some(u) => {
                return Some(u);
            },
            None => {},
        }
        i = i + 1;
    }
    None
}

/// Exec `avatar_in_items` over all items.
fn avatar_in_items_exec(items: &Vec<JsonValue>) -> (r: Option<String>)
    ensures
        opt_view(r) == avatar_in_items(items_data(items@), items@.len() as int),
    decreases items, 0int,
{
    let ghost iv = items_data(items@);
    let n = items.len();
    let mut i: usize = 0;
    while i < n
        invariant
            i <= n == items@.len() == iv.len(),
            iv == items_data(items@),
            avatar_in_items(iv, n as int) == avatar_in_items(iv, (n - i) as int),
        decreases n - i,
    {
        assert(iv[(iv.len() - (n - i)) as int] == items@[i as int]@);
        assert(decreases_to!(items => items@[i as int]));
        match find_avatar_url(&items[i]) {
            Some(u) => {
                return Some(u);
            },
            None => {},
        }
        i = i + 1;
    }
    None
}

/// Exec `avatar_in`.
pub fn find_avatar_url(value: &JsonValue) -> (r: Option<String>)
    ensures
        opt_view(r) == avatar_in(value@),
    decreases value, 1int,
{
    match value {
        JsonValue::Object(m) => {
            proof {
                lemma_object_data(*m);
            }
            let keys = avatar_key_list();
            match url_by_keys_exec(m, &keys) {
                Some(u) => {
                    return Some(u);
                },
                None => {},
            }
            avatar_in_members_exec(m)
        },
        JsonValue::Array(items) => {
            proof {
                lemma_array_data(*items);
            }
            avatar_in_items_exec(items)
        },
        _ => None,
    }
}

} // verus!

verus! {

// ---------------------------------------------------------------------------
// Rooms and users
// ---------------------------------------------------------------------------

#[derive(Debug)]
/// A live room as the recorder shows it.
pub struct RoomInfo {
    pub live_status: bool,
    pub room_title: String,
    pub room_cover_url: String,
    pub user_id: String,
    pub user_name: String,
    pub user_avatar: String,
}

/// What a room is, with text as characters.
pub struct RoomData {
    pub live_status: bool,
    pub room_title: Seq<char>,
    pub room_cover_url: Seq<char>,
    pub user_id: Seq<char>,
    pub user_name: Seq<char>,
    pub user_avatar: Seq<char>,
}

/// The view of a room.
pub open spec fn room_view(r: RoomInfo) -> RoomData {
    RoomData {
        live_status: r.live_status,
        room_title: r.room_title@,
        room_cover_url: r.room_cover_url@,
        user_id: r.user_id@,
        user_name: r.user_name@,
        user_avatar: r.user_avatar@,
    }
}

#[derive(Debug)]
/// A user of a platform.
pub struct UserInfo {
    pub user_id: String,
    pub user_name: String,
    pub user_avatar: String,
}

/// The members of a value that is an object.
pub open spec fn object_of(v: Option<JsonData>) -> Option<Seq<(Seq<char>, JsonData)>> {
    match v {
        Some(JsonData::Object(m)) => Some(m),
        _ => None,
    }
}

/// `string_field` of an optional object, empty when there is none.
pub open spec fn field_or_empty(m: Option<Seq<(Seq<char>, JsonData)>>, keys: Seq<Seq<char>>) -> Seq<
    char,
> {
    match m {
        Some(x) => match string_field(x, keys) {
            Some(s) => s,
            None => Seq::<char>::empty(),
        },
        None => Seq::<char>::empty(),
    }
}

/// An optional text, empty when there is none.
pub open spec fn or_empty(s: Option<Seq<char>>) -> Seq<char> {
    match s {
        Some(x) => x,
        None => Seq::<char>::empty(),
    }
}

/// The room a page or API answer describes, once its parts are read: the
/// user's name falls back to the account's name, then the handle in the
/// page URL, then `TikTok Live`; the user's id to the account's id, then the
/// handle; a missing title is `<name>'s live`; a missing cover is the
/// avatar.
pub open spec fn room_from_parts(
    live_status: bool,
    title: Seq<char>,
    cover: Seq<char>,
    user_id: Seq<char>,
    user_name: Seq<char>,
    avatar: Seq<char>,
    account_id: Seq<char>,
    account_name: Seq<char>,
    url: Seq<char>,
) -> RoomData {
    let handle = crate::tiktok::url_username(url);
    let name = if user_name.len() > 0 {
        user_name
    } else if account_name.len() > 0 {
        account_name
    } else if handle.len() > 0 {
        handle
    } else {
        "TikTok Live"@
    };
    let id = if user_id.len() > 0 {
        user_id
    } else if account_id.len() > 0 {
        account_id
    } else {
        handle
    };
    RoomData {
        live_status,
        room_title: if title.len() == 0 {
            name + "'s live"@
        } else {
            title
        },
        room_cover_url: if cover.len() == 0 {
            avatar
        } else {
            cover
        },
        user_id: id,
        user_name: name,
        user_avatar: avatar,
    }
}

/// Exec `room_from_parts`.
fn finish_room_info(
    live_status: bool,
    title: String,
    cover: String,
    user_id: String,
    user_name: String,
    avatar: String,
    account: &Account,
    url: &str,
) -> (r: RoomInfo)
    ensures
        room_view(r) == room_from_parts(
            live_status,
            title@,
            cover@,
            user_id@,
            user_name@,
            avatar@,
            account.id@,
            account.name@,
            url@,
        ),
{
    let handle = crate::tiktok::extract_username_from_url(url);
    let name = if user_name.unicode_len() > 0 {
        user_name
    } else if account.name.unicode_len() > 0 {
        account.name.clone()
    } else if handle.unicode_len() > 0 {
        handle.clone()
    } else {
        to_string_of("TikTok Live")
    };
    let id = if user_id.unicode_len() > 0 {
        user_id
    } else if account.id.unicode_len() > 0 {
        account.id.clone()
    } else {
        handle
    };
    let room_title = if title.unicode_len() == 0 {
        concat_str(name.as_str(), "'s live")
    } else {
        title
    };
    let room_cover_url = if cover.unicode_len() == 0 {
        avatar.clone()
    } else {
        cover
    };
    RoomInfo { live_status, room_title, room_cover_url, user_id: id, user_name: name, user_avatar: avatar }
}

/// `string_field` of an optional object's members, empty when absent.
fn field_or_empty_exec(m: Option<&Vec<(String, JsonValue)>>, keys: &[&str]) -> (r: String)
    ensures
        r@ == field_or_empty(
            match m {
                Some(x) => Some(entries_data(x@)),
                None => None,
            },
            strs(keys@),
        ),
{
    match m {
        Some(x) => match get_string_field(x, keys) {
            Some(s) => s,
            None => String::new(),
        },
        None => String::new(),
    }
}

/// The members of an optional object value.
fn object_ref<'a>(v: Option<&'a JsonValue>) -> (r: Option<&'a Vec<(String, JsonValue)>>)
    ensures
        match r {
            Some(x) => object_of(crate::json::ref_data(v)) == Some(entries_data(x@)),
            None => object_of(crate::json::ref_data(v)) is None,
        },
{
    match v {
        Some(JsonValue::Object(m)) => {
            proof {
                lemma_object_data(*m);
            }
            Some(m)
        },
        _ => None,
    }
}

/// The room a live room's page data describes (`extract_room_info_from_live_room`).
pub open spec fn live_room_data_info(info: JsonData, account_id: Seq<char>, account_name: Seq<char>, url: Seq<char>) -> Option<RoomData> {
    match info {
        JsonData::Object(m) => {
            let user = object_of(entry_get(m, "user"@));
            let lr = object_of(entry_get(m, "liveRoom"@));
            let user_name = field_or_empty(user, seq!["nickname"@, "nickName"@, "name"@, "userName"@]);
            let user_id = field_or_empty(user, seq!["uniqueId"@, "userId"@, "id"@, "uid"@]);
            let status = match user {
                Some(u) => i64_field(u, seq!["status"@, "liveStatus"@]),
                None => None,
            };
            let lr_status = match lr {
                Some(l) => i64_field(l, seq!["status"@, "liveStatus"@]),
                None => None,
            };
            let title = field_or_empty(lr, seq!["title"@, "roomTitle"@]);
            let avatar = match user {
                Some(u) => match entry_get(u, "avatarThumb"@) {
                    Some(a) => match first_url(a) {
                        Some(x) => image_url(x),
                        None => Seq::<char>::empty(),
                    },
                    None => Seq::<char>::empty(),
                },
                None => Seq::<char>::empty(),
            };
            let cover = match lr {
                Some(l) => or_empty(cover_in(JsonData::Object(l))),
                None => Seq::<char>::empty(),
            };
            let cs = candidates_at(live_room_stream_data(info));
            let has_stream = cs.len() > 0 && (cs[0].hls is Some || cs[0].flv is Some);
            let flag = match status {
                Some(s) => Some(s),
                None => lr_status,
            };
            let live = has_stream || (flag matches Some(f) && (f == 1 || f == 2));
            Some(room_from_parts(live, title, cover, user_id, user_name, avatar, account_id, account_name, url))
        },
        _ => None,
    }
}

/// Exec `live_room_data_info`.
pub fn extract_room_info_from_live_room(
    live_room_info: &JsonValue,
    account: &Account,
    url: &str,
) -> (r: Option<RoomInfo>)
    ensures
        match r {
            Some(x) => live_room_data_info(live_room_info@, account.id@, account.name@, url@) == Some(room_view(x)),
            None => live_room_data_info(live_room_info@, account.id@, account.name@, url@) is None,
        },
{
    let m = match live_room_info {
        JsonValue::Object(m) => m,
        _ => {
            return None;
        },
    };
    proof {
        lemma_object_data(*m);
    }
    let user_v = entry_get_exec(m, "user");
    let lr_v = entry_get_exec(m, "liveRoom");
    let user = object_ref(user_v);
    let lr = object_ref(lr_v);
    let k_name: Vec<&str> = vec!["nickname", "nickName", "name", "userName"];
    let k_id: Vec<&str> = vec!["uniqueId", "userId", "id", "uid"];
    let k_status: Vec<&str> = vec!["status", "liveStatus"];
    let k_title: Vec<&str> = vec!["title", "roomTitle"];
    assert(strs(k_name@) =~= seq!["nickname"@, "nickName"@, "name"@, "userName"@]);
    assert(strs(k_id@) =~= seq!["uniqueId"@, "userId"@, "id"@, "uid"@]);
    assert(strs(k_status@) =~= seq!["status"@, "liveStatus"@]);
    assert(strs(k_title@) =~= seq!["title"@, "roomTitle"@]);
    let user_name = field_or_empty_exec(user, k_name.as_slice());
    let user_id = field_or_empty_exec(user, k_id.as_slice());
    let status = match user {
        Some(u) => get_i64_field(u, k_status.as_slice()),
        None => None,
    };
    let lr_status = match lr {
        Some(l) => get_i64_field(l, k_status.as_slice()),
        None => None,
    };
    let title = field_or_empty_exec(lr, k_title.as_slice());
    let avatar = match user {
        Some(u) => match entry_get_exec(u, "avatarThumb") {
            Some(a) => match extract_first_url(a) {
                Some(x) => normalize_image_url(x.as_str()),
                None => String::new(),
            },
            None => String::new(),
        },
        None => String::new(),
    };
    let cover = match lr_v {
        Some(lv) => match lv {
            JsonValue::Object(_) => match find_cover_url(lv) {
                Some(c) => c,
                None => String::new(),
            },
            _ => String::new(),
        },
        None => String::new(),
    };
    let has_stream = match extract_stream_from_live_room(live_room_info) {
        Some(s) => s.hls_url.is_some() || s.rtmp_url.is_some(),
        None => false,
    };
    let flag = match status {
        Some(s) => Some(s),
        None => lr_status,
    };
    let live = has_stream || match flag {
        Some(f) => crate::tiktok::is_tiktok_live_status_flag(f),
        None => false,
    };
    proof {
        reveal_strlit("");
    }
    Some(finish_room_info(live, title, cover, user_id, user_name, avatar, account, url))
}

/// Whether a room-info answer names a stream: it has candidates, or its
/// stream URL object has a first string under `hls_pull_url`, else
/// `rtmp_pull_url`, else `flv_pull_url`.
pub open spec fn room_has_stream(room: JsonData) -> bool {
    let su = match get(room, "stream_url"@) {
        Some(x) => Some(x),
        None => get(room, "streamUrl"@),
    };
    let pull = match su {
        Some(s) => match get(s, "hls_pull_url"@) {
            Some(x) => Some(x),
            None => match get(s, "rtmp_pull_url"@) {
                Some(x) => Some(x),
                None => get(s, "flv_pull_url"@),
            },
        },
        None => None,
    };
    candidates_at(room_data_stream_data(room)).len() > 0 || (pull matches Some(p) && first_string(p) is Some)
}

/// The room a room-info answer's room data describes
/// (`extract_room_info_from_room_data`).
pub open spec fn room_data_info(room: JsonData, account_id: Seq<char>, account_name: Seq<char>, url: Seq<char>) -> Option<RoomData> {
    match room {
        JsonData::Object(m) => {
            let owner_v = entry_get(m, "owner"@);
            let owner = object_of(owner_v);
            let user_name = field_or_empty(owner, seq!["nickname"@, "uniqueId"@, "displayId"@, "userName"@]);
            let user_id = field_or_empty(owner, seq!["id"@, "userId"@, "owner_user_id"@]);
            let status = i64_field(m, seq!["status"@, "liveStatus"@, "live_status"@]);
            let title = match string_field(m, seq!["title"@, "roomTitle"@, "room_title"@]) {
                Some(t) => t,
                None => Seq::<char>::empty(),
            };
            let avatar = match owner {
                Some(o) => or_empty(avatar_in(JsonData::Object(o))),
                None => Seq::<char>::empty(),
            };
            let cover = or_empty(cover_in(room));
            let live = room_has_stream(room) || (status matches Some(f) && (f == 1 || f == 2));
            Some(room_from_parts(live, title, cover, user_id, user_name, avatar, account_id, account_name, url))
        },
        _ => None,
    }
}

/// Exec `room_has_stream`.
fn room_has_stream_exec(room_data: &JsonValue) -> (b: bool)
    ensures
        b == room_has_stream(room_data@),
{
    let cs = extract_stream_candidates_from_room_info(room_data);
    if cs.len() > 0 {
        return true;
    }
    let su = match json_get(room_data, "stream_url") {
        Some(x) => Some(x),
        None => json_get(room_data, "streamUrl"),
    };
    let pull = match su {
        Some(s) => match json_get(s, "hls_pull_url") {
            Some(x) => Some(x),
            None => match json_get(s, "rtmp_pull_url") {
                Some(x) => Some(x),
                None => json_get(s, "flv_pull_url"),
            },
        },
        None => None,
    };
    match pull {
        Some(p) => extract_first_string(p).is_some(),
        None => false,
    }
}

/// Exec `room_data_info`.
pub fn extract_room_info_from_room_data(
    room_data: &JsonValue,
    account: &Account,
    url: &str,
) -> (r: Option<RoomInfo>)
    ensures
        match r {
            Some(x) => room_data_info(room_data@, account.id@, account.name@, url@) == Some(room_view(x)),
            None => room_data_info(room_data@, account.id@, account.name@, url@) is None,
        },
{
    let m = match room_data {
        JsonValue::Object(m) => m,
        _ => {
            return None;
        },
    };
    proof {
        lemma_object_data(*m);
    }
    let owner_v = entry_get_exec(m, "owner");
    let owner = object_ref(owner_v);
    let k_name: Vec<&str> = vec!["nickname", "uniqueId", "displayId", "userName"];
    let k_id: Vec<&str> = vec!["id", "userId", "owner_user_id"];
    let k_status: Vec<&str> = vec!["status", "liveStatus", "live_status"];
    let k_title: Vec<&str> = vec!["title", "roomTitle", "room_title"];
    assert(strs(k_name@) =~= seq!["nickname"@, "uniqueId"@, "displayId"@, "userName"@]);
    assert(strs(k_id@) =~= seq!["id"@, "userId"@, "owner_user_id"@]);
    assert(strs(k_status@) =~= seq!["status"@, "liveStatus"@, "live_status"@]);
    assert(strs(k_title@) =~= seq!["title"@, "roomTitle"@, "room_title"@]);
    let user_name = field_or_empty_exec(owner, k_name.as_slice());
    let user_id = field_or_empty_exec(owner, k_id.as_slice());
    let status = get_i64_field(m, k_status.as_slice());
    let title = match get_string_field(m, k_title.as_slice()) {
        Some(t) => t,
        None => String::new(),
    };
    let avatar = match owner_v {
        Some(ov) => match ov {
            JsonValue::Object(_) => match find_avatar_url(ov) {
                Some(a) => a,
                None => String::new(),
            },
            _ => String::new(),
        },
        None => String::new(),
    };
    let cover = match find_cover_url(room_data) {
        Some(c) => c,
        None => String::new(),
    };
    let has_stream = room_has_stream_exec(room_data);
    let live = has_stream || match status {
        Some(f) => crate::tiktok::is_tiktok_live_status_flag(f),
        None => false,
    };
    Some(finish_room_info(live, title, cover, user_id, user_name, avatar, account, url))
}

/// The id of a room-info answer's room data.
pub open spec fn room_data_id(room: JsonData) -> Option<Seq<char>> {
    match room {
        JsonData::Object(m) => string_field(
            m,
            seq!["id_str"@, "id"@, "room_id"@, "roomId"@, "live_room_id"@, "liveRoomId"@],
        ),
        _ => None,
    }
}

/// Exec `room_data_id`.
pub fn extract_room_id_from_room_data(room_data: &JsonValue) -> (r: Option<String>)
    ensures
        opt_view(r) == room_data_id(room_data@),
{
    match room_data {
        JsonValue::Object(m) => {
            proof {
                lemma_object_data(*m);
            }
            let keys: Vec<&str> = vec!["id_str", "id", "room_id", "roomId", "live_room_id", "liveRoomId"];
            assert(strs(keys@) =~= seq!["id_str"@, "id"@, "room_id"@, "roomId"@, "live_room_id"@, "liveRoomId"@]);
            get_string_field(m, keys.as_slice())
        },
        _ => None,
    }
}

} // verus!

verus! {

/// `handle` without its leading `@` characters.
pub open spec fn strip_ats(h: Seq<char>) -> Seq<char>
    decreases h.len(),
{
    if h.len() > 0 && h[0] == '@' {
        strip_ats(h.drop_first())
    } else {
        h
    }
}

/// The keys an owner's handle is read from.
pub open spec fn owner_handle_keys() -> Seq<Seq<char>> {
    seq![
        "unique_id"@,
        "uniqueId"@,
        "display_id"@,
        "displayId"@,
        "user_name"@,
        "userName"@,
        "nickname"@,
        "name"@,
    ]
}

/// An owner matches a handle: any owner matches no handle; otherwise the
/// owner's handle, lowercase, must be non-empty and equal to the handle
/// without leading `@`s, lowercase.
pub open spec fn owner_matches(owner: Seq<(Seq<char>, JsonData)>, handle: Seq<char>) -> bool {
    if handle.len() == 0 {
        true
    } else {
        let c = crate::text::lower_seq(field_or_empty(Some(owner), owner_handle_keys()));
        c.len() > 0 && c == crate::text::lower_seq(strip_ats(handle))
    }
}

/// Exec `owner_matches`.
pub fn owner_matches_handle(owner: &Vec<(String, JsonValue)>, handle: &str) -> (b: bool)
    ensures
        b == owner_matches(entries_data(owner@), handle@),
{
    let h = chars_of(handle);
    if h.len() == 0 {
        return true;
    }
    let mut k: usize = 0;
    assert(strip_ats(h@) == strip_ats(h@.skip(0))) by {
        assert(h@.skip(0) =~= h@);
    }
    while k < h.len() && h[k] == '@'
        invariant
            k <= h.len(),
            strip_ats(h@) == strip_ats(h@.skip(k as int)),
        decreases h.len() - k,
    {
        assert(h@.skip(k as int).drop_first() =~= h@.skip(k as int + 1));
        k = k + 1;
    }
    let mut rest: Vec<char> = Vec::new();
    let mut j: usize = k;
    while j < h.len()
        invariant
            k <= j <= h.len(),
            rest@ == h@.subrange(k as int, j as int),
        decreases h.len() - j,
    {
        rest.push(h[j]);
        j = j + 1;
        assert(rest@ =~= h@.subrange(k as int, j as int));
    }
    assert(rest@ =~= h@.skip(k as int));
    assert(strip_ats(h@.skip(k as int)) == h@.skip(k as int));
    let target = crate::text::lower_chars(rest.as_slice());
    let keys: Vec<&str> = vec![
        "unique_id",
        "uniqueId",
        "display_id",
        "displayId",
        "user_name",
        "userName",
        "nickname",
        "name",
    ];
    assert(strs(keys@) =~= owner_handle_keys());
    let cand = match get_string_field(owner, keys.as_slice()) {
        Some(s) => s,
        None => String::new(),
    };
    let cc = chars_of(cand.as_str());
    let lc = crate::text::lower_chars(cc.as_slice());
    if lc.len() == 0 {
        return false;
    }
    crate::text::eq_chars(lc.as_slice(), target.as_slice())
}

/// An object looks like a room: it tells a status, names an owner or a
/// stream, and names a title or a room id.
pub open spec fn room_like(m: Seq<(Seq<char>, JsonData)>) -> bool {
    let hk = |k: Seq<char>| crate::json::has_key(m, k);
    (hk("status"@) || hk("liveStatus"@) || hk("live_status"@)) && (hk("owner"@) || hk(
        "ownerInfo"@,
    ) || hk("user"@) || hk("userInfo"@) || hk("host"@) || hk("author"@) || hk("streamUrl"@) || hk(
        "stream_url"@,
    ) || hk("streamUrlInfo"@) || hk("stream_url_info"@)) && (hk("title"@) || hk("roomId"@) || hk(
        "room_id"@,
    ) || hk("liveRoomId"@) || hk("live_room_id"@))
}

/// Exec `room_like`.
pub fn looks_like_room_info(map: &Vec<(String, JsonValue)>) -> (b: bool)
    ensures
        b == room_like(entries_data(map@)),
{
    let hk = |k: &str| -> (r: bool)
        ensures
            r == crate::json::has_key(entries_data(map@), k@),
        { crate::json::has_key_exec(map, k) };
    if !(hk("status") || hk("liveStatus") || hk("live_status")) {
        return false;
    }
    let has_owner = hk("owner") || hk("ownerInfo") || hk("user") || hk("userInfo") || hk("host")
        || hk("author");
    let has_stream = hk("streamUrl") || hk("stream_url") || hk("streamUrlInfo") || hk(
        "stream_url_info",
    );
    let has_title = hk("title") || hk("roomId") || hk("room_id") || hk("liveRoomId") || hk(
        "live_room_id",
    );
    (has_owner || has_stream) && has_title
}

/// An object looks like a stream URL object: it names an HLS, RTMP or FLV
/// pull or play URL.
pub open spec fn stream_url_like(m: Seq<(Seq<char>, JsonData)>) -> bool {
    let hk = |k: Seq<char>| crate::json::has_key(m, k);
    hk("hlsPullUrl"@) || hk("hls_pull_url"@) || hk("hlsPlayUrl"@) || hk("rtmpPullUrl"@) || hk(
        "rtmp_pull_url"@,
    ) || hk("rtmpPlayUrl"@) || hk("flvPullUrl"@)
}

/// Exec `stream_url_like`.
pub fn looks_like_stream_url(map: &Vec<(String, JsonValue)>) -> (b: bool)
    ensures
        b == stream_url_like(entries_data(map@)),
{
    let hk = |k: &str| -> (r: bool)
        ensures
            r == crate::json::has_key(entries_data(map@), k@),
        { crate::json::has_key_exec(map, k) };
    hk("hlsPullUrl") || hk("hls_pull_url") || hk("hlsPlayUrl") || hk("rtmpPullUrl") || hk(
        "rtmp_pull_url",
    ) || hk("rtmpPlayUrl") || hk("flvPullUrl")
}

/// The room data of a room-info answer: the `data` of the first item of its
/// `data` array that has one.
pub open spec fn room_info_api_data(v: JsonData) -> Option<JsonData> {
    match get(v, "data"@) {
        Some(JsonData::Array(es)) => crate::cookies::first_some(
            es.map_values(|e: JsonData| get(e, "data"@)),
        ),
        _ => None,
    }
}

/// Exec `room_info_api_data`, as a reference into the answer.
pub fn extract_room_data_from_room_info_api(value: &JsonValue) -> (r: Option<&JsonValue>)
    ensures
        crate::json::ref_data(r) == room_info_api_data(value@),
{
    let es = match json_get(value, "data") {
        Some(JsonValue::Array(es)) => es,
        _ => {
            return None;
        },
    };
    proof {
        lemma_array_data(*es);
    }
    let ghost m = items_data(es@).map_values(|e: JsonData| get(e, "data"@));
    let mut i: usize = 0;
    assert(m.take(0) =~= Seq::<Option<JsonData>>::empty());
    while i < es.len()
        invariant
            i <= es.len(),
            m == items_data(es@).map_values(|e: JsonData| get(e, "data"@)),
            get(value@, "data"@) == Some(JsonData::Array(items_data(es@))),
            crate::cookies::first_some(m.take(i as int)) is None,
        decreases es.len() - i,
    {
        proof {
            crate::cookies::lemma_first_some_step(m, i as int);
        }
        assert(m[i as int] == get(es@[i as int]@, "data"@));
        match json_get(&es[i], "data") {
            Some(d) => {
                return Some(d);
            },
            None => {},
        }
        i = i + 1;
    }
    assert(m.take(es.len() as int) =~= m);
    None
}

/// What a user is, with text as characters: id, name, avatar.
pub open spec fn user_view(u: UserInfo) -> (Seq<char>, Seq<char>, Seq<char>) {
    (u.user_id@, u.user_name@, u.user_avatar@)
}

/// The user a user object describes: its id from `id_keys`, its name from
/// `nickname` or `uniqueId` (the id when it has none), its avatar; none
/// without an id.
pub open spec fn user_from(user: JsonData, id_keys: Seq<Seq<char>>) -> Option<
    (Seq<char>, Seq<char>, Seq<char>),
> {
    let m = match user {
        JsonData::Object(m) => m,
        _ => Seq::<(Seq<char>, JsonData)>::empty(),
    };
    let id = field_or_empty(Some(m), id_keys);
    let name = field_or_empty(Some(m), seq!["nickname"@, "uniqueId"@]);
    let avatar = or_empty(avatar_in(user));
    if id.len() > 0 {
        Some(
            (
                id,
                if name.len() == 0 {
                    id
                } else {
                    name
                },
                avatar,
            ),
        )
    } else {
        None
    }
}

/// The user of a page's `AppContext.appContext.user`.
pub open spec fn app_context_user(v: JsonData) -> Option<JsonData> {
    crate::json::get_opt(crate::json::get_opt(get(v, "AppContext"@), "appContext"@), "user"@)
}

/// The user of a page state part's `__DEFAULT_SCOPE__["webapp.user-info"].data.user`.
pub open spec fn scope_user(v: JsonData) -> Option<JsonData> {
    crate::json::get_opt(
        crate::json::get_opt(crate::json::get_opt(get(v, "__DEFAULT_SCOPE__"@), "webapp.user-info"@), "data"@),
        "user"@,
    )
}

/// The signed-in user of a scope part, by `uid`, `id` or `secUid`.
pub open spec fn scope_user_info(v: JsonData) -> Option<(Seq<char>, Seq<char>, Seq<char>)> {
    match scope_user(v) {
        Some(u) => user_from(u, seq!["uid"@, "id"@, "secUid"@]),
        None => None,
    }
}

/// The signed-in user a page state names: from `AppContext` (by `uid` or
/// `id`), else from the first member of the state whose scope names one.
pub open spec fn current_user(v: JsonData) -> Option<(Seq<char>, Seq<char>, Seq<char>)> {
    let first = match app_context_user(v) {
        Some(u) => user_from(u, seq!["uid"@, "id"@]),
        None => None,
    };
    if first is Some {
        first
    } else {
        match v {
            JsonData::Object(m) => crate::cookies::first_some(
                m.map_values(|e: (Seq<char>, JsonData)| scope_user_info(e.1)),
            ),
            _ => None,
        }
    }
}

/// Exec `user_from`.
fn user_from_exec(user: &JsonValue, id_keys: &[&str]) -> (r: Option<UserInfo>)
    ensures
        match r {
            Some(u) => user_from(user@, strs(id_keys@)) == Some(user_view(u)),
            None => user_from(user@, strs(id_keys@)) is None,
        },
{
    let name_keys: Vec<&str> = vec!["nickname", "uniqueId"];
    assert(strs(name_keys@) =~= seq!["nickname"@, "uniqueId"@]);
    let (id, name) = match user {
        JsonValue::Object(m) => {
            proof {
                lemma_object_data(*m);
            }
            (field_or_empty_exec(Some(m), id_keys), field_or_empty_exec(Some(m), name_keys.as_slice()))
        },
        _ => {
            let empty: Vec<(String, JsonValue)> = Vec::new();
            assert(entries_data(empty@) =~= Seq::<(Seq<char>, JsonData)>::empty());
            (field_or_empty_exec(Some(&empty), id_keys), field_or_empty_exec(Some(&empty), name_keys.as_slice()))
        },
    };
    let avatar = match find_avatar_url(user) {
        Some(a) => a,
        None => String::new(),
    };
    if id.unicode_len() > 0 {
        let name = if name.unicode_len() == 0 {
            id.clone()
        } else {
            name
        };
        Some(UserInfo { user_id: id, user_name: name, user_avatar: avatar })
    } else {
        None
    }
}

/// Exec `current_user`.
pub fn find_current_user_info(value: &JsonValue) -> (r: Option<UserInfo>)
    ensures
        match r {
            Some(u) => current_user(value@) == Some(user_view(u)),
            None => current_user(value@) is None,
        },
{
    let a = json_get(value, "AppContext");
    let b = crate::json::json_get_opt(a, "appContext");
    let c = crate::json::json_get_opt(b, "user");
    let k1: Vec<&str> = vec!["uid", "id"];
    assert(strs(k1@) =~= seq!["uid"@, "id"@]);
    match c {
        Some(u) => match user_from_exec(u, k1.as_slice()) {
            Some(info) => {
                return Some(info);
            },
            None => {},
        },
        None => {},
    }
    let m = match value {
        JsonValue::Object(m) => m,
        _ => {
            return None;
        },
    };
    proof {
        lemma_object_data(*m);
    }
    let k2: Vec<&str> = vec!["uid", "id", "secUid"];
    assert(strs(k2@) =~= seq!["uid"@, "id"@, "secUid"@]);
    let ghost ms = entries_data(m@).map_values(|e: (Seq<char>, JsonData)| scope_user_info(e.1));
    let mut i: usize = 0;
    assert(ms.take(0) =~= Seq::<Option<(Seq<char>, Seq<char>, Seq<char>)>>::empty());
    while i < m.len()
        invariant
            i <= m.len(),
            strs(k2@) == seq!["uid"@, "id"@, "secUid"@],
            ms == entries_data(m@).map_values(|e: (Seq<char>, JsonData)| scope_user_info(e.1)),
            value@ == JsonData::Object(entries_data(m@)),
            (match app_context_user(value@) {
                Some(u) => user_from(u, seq!["uid"@, "id"@]),
                None => None,
            }) is None,
            crate::cookies::first_some(ms.take(i as int)) is None,
        decreases m.len() - i,
    {
        proof {
            crate::cookies::lemma_first_some_step(ms, i as int);
        }
        assert(ms[i as int] == scope_user_info(m@[i as int].1@));
        let s1 = json_get(&m[i].1, "__DEFAULT_SCOPE__");
        let s2 = crate::json::json_get_opt(s1, "webapp.user-info");
        let s3 = crate::json::json_get_opt(s2, "data");
        let s4 = crate::json::json_get_opt(s3, "user");
        match s4 {
            Some(u) => match user_from_exec(u, k2.as_slice()) {
                Some(info) => {
                    return Some(info);
                },
                None => {},
            },
            None => {},
        }
        i = i + 1;
    }
    assert(ms.take(m.len() as int) =~= ms);
    None
}

} // verus!
