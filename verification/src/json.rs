//! JSON documents as plain values, the reading of JSON text, and the
//! accessors the rest of the library reads documents with.
use vstd::prelude::*;
use serde::Deserialize;
use crate::ids::{hex_digit, hex_digit_char};
use crate::text::{chars_of, is_digit, same_str, string_of};

verus! {

#[derive(Debug)]
/// A JSON number: a non-negative integer, a negative integer, or any other
/// number, kept as the text it prints as.
pub enum JsonNumber {
    PosInt(u64),
    NegInt(i64),
    Float(String),
}

#[derive(Debug)]
/// A JSON value. An object keeps its members in the order they are walked.
pub enum JsonValue {
    Null,
    Bool(bool),
    Number(JsonNumber),
    Str(String),
    Array(Vec<JsonValue>),
    Object(Vec<(String, JsonValue)>),
}

/// What a JSON number is: as `JsonNumber`, with text as characters.
pub enum NumberData {
    PosInt(u64),
    NegInt(i64),
    Float(Seq<char>),
}

/// What a JSON value is: as `JsonValue`, with text as characters and lists
/// as sequences.
pub enum JsonData {
    Null,
    Bool(bool),
    Number(NumberData),
    Str(Seq<char>),
    Array(Seq<JsonData>),
    Object(Seq<(Seq<char>, JsonData)>),
}

/// The view of a number.
pub open spec fn number_data(n: JsonNumber) -> NumberData {
    match n {
        JsonNumber::PosInt(u) => NumberData::PosInt(u),
        JsonNumber::NegInt(i) => NumberData::NegInt(i),
        JsonNumber::Float(s) => NumberData::Float(s@),
    }
}

/// The view of a value.
pub open spec fn json_data(v: JsonValue) -> JsonData
    decreases v,
{
    match v {
        JsonValue::Null => JsonData::Null,
        JsonValue::Bool(b) => JsonData::Bool(b),
        JsonValue::Number(n) => JsonData::Number(number_data(n)),
        JsonValue::Str(s) => JsonData::Str(s@),
        JsonValue::Array(items) => JsonData::Array(
            Seq::new(
                items@.len(),
                |i: int|
                    if 0 <= i < items@.len() {
                        json_data(items@[i])
                    } else {
                        JsonData::Null
                    },
            ),
        ),
        JsonValue::Object(m) => JsonData::Object(
            Seq::new(
                m@.len(),
                |i: int|
                    if 0 <= i < m@.len() {
                        (m@[i].0@, json_data(m@[i].1))
                    } else {
                        (Seq::<char>::empty(), JsonData::Null)
                    },
            ),
        ),
    }
}

impl View for JsonValue {
    type V = JsonData;

    open spec fn view(&self) -> JsonData {
        json_data(*self)
    }
}

/// The views of the members of an object.
pub open spec fn entries_data(m: Seq<(String, JsonValue)>) -> Seq<(Seq<char>, JsonData)> {
    m.map_values(|e: (String, JsonValue)| (e.0@, e.1@))
}

/// The views of a list of values.
pub open spec fn items_data(items: Seq<JsonValue>) -> Seq<JsonData> {
    items.map_values(|x: JsonValue| x@)
}

/// The view of an array is the views of its items.
pub proof fn lemma_array_data(items: Vec<JsonValue>)
    ensures
        JsonValue::Array(items)@ == JsonData::Array(items_data(items@)),
{
    let v = JsonValue::Array(items);
    assert(json_data(v) is Array);
    let t = json_data(v)->Array_0;
    assert(t =~= items_data(items@));
}

/// The view of an object is the views of its members.
pub proof fn lemma_object_data(m: Vec<(String, JsonValue)>)
    ensures
        JsonValue::Object(m)@ == JsonData::Object(entries_data(m@)),
{
    let v = JsonValue::Object(m);
    assert(json_data(v) is Object);
    let t = json_data(v)->Object_0;
    assert(t =~= entries_data(m@));
}

#[verifier::external_type_specification]
#[verifier::external_body]
pub struct ExSerdeJsonValue(serde_json::Value);

#[verifier::external_type_specification]
#[verifier::external_body]
pub struct ExSerdeJsonNumber(serde_json::Number);

/// Converts a `serde_json::Number` variant by variant.
#[verifier::external_body]
fn number_of(n: serde_json::Number) -> JsonNumber {
    match (n.as_u64(), n.as_i64()) {
        (Some(u), _) => JsonNumber::PosInt(u),
        (None, Some(i)) => JsonNumber::NegInt(i),
        (None, None) => JsonNumber::Float(n.to_string()),
    }
}

/// Converts a `serde_json::Value` variant by variant.
#[verifier::external_body]
fn json_of(v: serde_json::Value) -> JsonValue {
    match v {
        serde_json::Value::Null => JsonValue::Null,
        serde_json::Value::Bool(b) => JsonValue::Bool(b),
        serde_json::Value::Number(n) => JsonValue::Number(number_of(n)),
        serde_json::Value::String(s) => JsonValue::Str(s),
        serde_json::Value::Array(a) => JsonValue::Array(a.into_iter().map(json_of).collect()),
        serde_json::Value::Object(o) => JsonValue::Object(
            o.into_iter().map(|(k, x)| (k, json_of(x))).collect(),
        ),
    }
}

/// The document that `serde_json::from_str::<Value>` reads from a text that
/// holds exactly one JSON value; `None` where it fails.
pub uninterp spec fn json_parse(text: Seq<char>) -> Option<JsonData>;

/// The first JSON value at the start of a text, as `Value::deserialize` on a
/// `serde_json::Deserializer` reads it, whatever follows it; `None` where it
/// fails.
pub uninterp spec fn json_parse_first(text: Seq<char>) -> Option<JsonData>;

/// The string that `serde_json::from_str::<String>` reads from a text that
/// holds one JSON string literal; `None` where it fails.
pub uninterp spec fn json_string_parse(text: Seq<char>) -> Option<Seq<char>>;

/// Calls `serde_json::from_str::<serde_json::Value>`. Its result is named
/// (`json_parse`); nothing more is stated of it.
#[verifier::external_body]
fn serde_from_str(text: &str) -> (r: Option<JsonValue>)
    ensures
        match r {
            Some(v) => json_parse(text@) == Some(v@),
            None => json_parse(text@) is None,
        },
{
    match serde_json::from_str::<serde_json::Value>(text) {
        Ok(v) => Some(json_of(v)),
        Err(_) => None,
    }
}

/// Reads a JSON document (`json_parse`): the value a text holds, `None`
/// when the text is not exactly one JSON value.
pub fn parse_json(text: &str) -> (r: Option<JsonValue>)
    ensures
        match r {
            Some(v) => json_parse(text@) == Some(v@),
            None => json_parse(text@) is None,
        },
{
    serde_from_str(text)
}

/// Calls `serde_json::Value::deserialize` on a `serde_json::Deserializer`
/// over `text`, which reads the first value and leaves the rest. Its result
/// is named (`json_parse_first`).
#[verifier::external_body]
pub(crate) fn parse_json_first(text: &str) -> (r: Option<JsonValue>)
    ensures
        match r {
            Some(v) => json_parse_first(text@) == Some(v@),
            None => json_parse_first(text@) is None,
        },
{
    let mut de = serde_json::Deserializer::from_str(text);
    match serde_json::Value::deserialize(&mut de) {
        Ok(v) => Some(json_of(v)),
        Err(_) => None,
    }
}

/// Calls `serde_json::from_str::<String>`. Its result is named
/// (`json_string_parse`).
#[verifier::external_body]
pub(crate) fn parse_json_string(text: &str) -> (r: Option<String>)
    ensures
        match r {
            Some(s) => json_string_parse(text@) == Some(s@),
            None => json_string_parse(text@) is None,
        },
{
    serde_json::from_str::<String>(text).ok()
}

/// The text `serde_json::Value`'s `to_string` prints for a document.
pub uninterp spec fn json_text(v: JsonData) -> Seq<char>;

/// Converts a number to a `serde_json::Value` variant by variant.
#[verifier::external_body]
fn serde_number_of(n: &JsonNumber) -> serde_json::Value {
    match n {
        JsonNumber::PosInt(u) => serde_json::Value::from(*u),
        JsonNumber::NegInt(i) => serde_json::Value::from(*i),
        JsonNumber::Float(s) => s.parse().map(serde_json::Value::Number).unwrap_or_default(),
    }
}

/// Converts a document to a `serde_json::Value` variant by variant.
#[verifier::external_body]
fn serde_value_of(v: &JsonValue) -> serde_json::Value {
    match v {
        JsonValue::Null => serde_json::Value::Null,
        JsonValue::Bool(b) => serde_json::Value::Bool(*b),
        JsonValue::Number(n) => serde_number_of(n),
        JsonValue::Str(s) => serde_json::Value::String(s.clone()),
        JsonValue::Array(a) => serde_json::Value::Array(a.iter().map(serde_value_of).collect()),
        JsonValue::Object(m) => serde_json::Value::Object(m.iter().map(|(k, x)| (k.clone(), serde_value_of(x))).collect()),
    }
}

/// Calls `serde_json::Value`'s `to_string` on the document. Its result is
/// named (`json_text`).
#[verifier::external_body]
pub(crate) fn json_to_string(v: &JsonValue) -> (r: String)
    ensures
        r@ == json_text(v@),
{
    serde_value_of(v).to_string()
}


// ---------------------------------------------------------------------------
// Reading a document
// ---------------------------------------------------------------------------

/// The value of the first member named `key`.
pub open spec fn entry_get(entries: Seq<(Seq<char>, JsonData)>, key: Seq<char>) -> Option<JsonData>
    decreases entries.len(),
{
    if entries.len() == 0 {
        None
    } else if entries[0].0 == key {
        Some(entries[0].1)
    } else {
        entry_get(entries.drop_first(), key)
    }
}

/// `Value::get(key)`: the member `key` of an object.
pub open spec fn get(v: JsonData, key: Seq<char>) -> Option<JsonData> {
    match v {
        JsonData::Object(m) => entry_get(m, key),
        _ => None,
    }
}

/// `get` on an optional value (`Option::and_then`).
pub open spec fn get_opt(v: Option<JsonData>, key: Seq<char>) -> Option<JsonData> {
    match v {
        Some(x) => get(x, key),
        None => None,
    }
}

/// The object has a member `key`.
pub open spec fn has_key(entries: Seq<(Seq<char>, JsonData)>, key: Seq<char>) -> bool {
    entry_get(entries, key) is Some
}

/// `Value::as_str`.
pub open spec fn as_str(v: JsonData) -> Option<Seq<char>> {
    match v {
        JsonData::Str(s) => Some(s),
        _ => None,
    }
}

/// `as_str` on an optional value.
pub open spec fn as_str_opt(v: Option<JsonData>) -> Option<Seq<char>> {
    match v {
        Some(x) => as_str(x),
        None => None,
    }
}

/// `Number::as_i64`.
pub open spec fn number_i64(n: NumberData) -> Option<i64> {
    match n {
        NumberData::PosInt(u) => if u <= i64::MAX {
            Some(u as i64)
        } else {
            None
        },
        NumberData::NegInt(i) => Some(i),
        NumberData::Float(_) => None,
    }
}

/// `Value::as_i64`.
pub open spec fn as_i64(v: JsonData) -> Option<i64> {
    match v {
        JsonData::Number(n) => number_i64(n),
        _ => None,
    }
}

/// `as_i64` on an optional value.
pub open spec fn as_i64_opt(v: Option<JsonData>) -> Option<i64> {
    match v {
        Some(x) => as_i64(x),
        None => None,
    }
}

/// `Value::as_bool`.
pub open spec fn as_bool(v: JsonData) -> Option<bool> {
    match v {
        JsonData::Bool(b) => Some(b),
        _ => None,
    }
}

/// `as_bool` on an optional value.
pub open spec fn as_bool_opt(v: Option<JsonData>) -> Option<bool> {
    match v {
        Some(x) => as_bool(x),
        None => None,
    }
}

/// The decimal digit `d` (`d < 10`).
pub open spec fn digit_char(d: int) -> char {
    hex_digit(d)
}

/// The decimal text of `n`.
pub open spec fn decimal(n: nat) -> Seq<char>
    decreases n,
{
    if n < 10 {
        seq![digit_char(n as int)]
    } else {
        decimal(n / 10).push(digit_char((n % 10) as int))
    }
}

/// The decimal text of an integer, with `-` in front of a negative one.
pub open spec fn signed_decimal(i: int) -> Seq<char> {
    if i < 0 {
        seq!['-'] + decimal((-i) as nat)
    } else {
        decimal(i as nat)
    }
}

/// What a number prints as (`Number`'s `to_string`).
pub open spec fn number_text(n: NumberData) -> Seq<char> {
    match n {
        NumberData::PosInt(u) => decimal(u as nat),
        NumberData::NegInt(i) => signed_decimal(i as int),
        NumberData::Float(s) => s,
    }
}

/// The value of a sequence of decimal digits.
pub open spec fn digits_value(s: Seq<char>) -> int
    decreases s.len(),
{
    if s.len() == 0 {
        0
    } else {
        digits_value(s.drop_last()) * 10 + (s.last() as int - 48)
    }
}

/// Every character is a decimal digit.
pub open spec fn all_digits(s: Seq<char>) -> bool {
    forall|i: int| 0 <= i < s.len() ==> is_digit(#[trigger] s[i])
}

/// `str::parse::<i64>`: an optional `+` or `-`, then at least one decimal
/// digit and nothing else, with a value that fits in `i64`.
pub open spec fn parse_i64(s: Seq<char>) -> Option<i64> {
    let neg = s.len() > 0 && s[0] == '-';
    let body = if s.len() > 0 && (s[0] == '-' || s[0] == '+') {
        s.drop_first()
    } else {
        s
    };
    let v = if neg {
        -digits_value(body)
    } else {
        digits_value(body)
    };
    if body.len() == 0 || !all_digits(body) || v < i64::MIN || v > i64::MAX {
        None
    } else {
        Some(v as i64)
    }
}

/// `str::parse::<u64>`: an optional `+`, then at least one decimal digit
/// and nothing else, with a value that fits in `u64`.
pub open spec fn parse_u64(s: Seq<char>) -> Option<u64> {
    let body = if s.len() > 0 && s[0] == '+' {
        s.drop_first()
    } else {
        s
    };
    if body.len() == 0 || !all_digits(body) || digits_value(body) > u64::MAX {
        None
    } else {
        Some(digits_value(body) as u64)
    }
}

// ---------------------------------------------------------------------------
// Exec accessors
// ---------------------------------------------------------------------------

/// The value of the first member named `key`.
pub fn entry_get_exec<'a>(entries: &'a Vec<(String, JsonValue)>, key: &str) -> (r: Option<
    &'a JsonValue,
>)
    ensures
        match r {
            Some(x) => entry_get(entries_data(entries@), key@) == Some(x@),
            None => entry_get(entries_data(entries@), key@) is None,
        },
{
    let ghost ev = entries_data(entries@);
    let mut i: usize = 0;
    assert(ev.skip(0) =~= ev);
    while i < entries.len()
        invariant
            i <= entries.len(),
            ev == entries_data(entries@),
            entry_get(ev, key@) == entry_get(ev.skip(i as int), key@),
        decreases entries.len() - i,
    {
        assert(ev.skip(i as int).drop_first() =~= ev.skip(i as int + 1));
        assert(ev.skip(i as int)[0] == (entries@[i as int].0@, entries@[i as int].1@));
        if same_str(entries[i].0.as_str(), key) {
            return Some(&entries[i].1);
        }
        i = i + 1;
    }
    None
}

/// `Value::get(key)`.
pub fn json_get<'a>(v: &'a JsonValue, key: &str) -> (r: Option<&'a JsonValue>)
    ensures
        match r {
            Some(x) => get(v@, key@) == Some(x@),
            None => get(v@, key@) is None,
        },
{
    match v {
        JsonValue::Object(m) => {
            proof {
                lemma_object_data(*m);
            }
            entry_get_exec(m, key)
        },
        _ => None,
    }
}

/// The view of an optional reference.
pub open spec fn ref_data(v: Option<&JsonValue>) -> Option<JsonData> {
    match v {
        Some(y) => Some(y@),
        None => None,
    }
}

/// `get` on an optional value.
pub fn json_get_opt<'a>(v: Option<&'a JsonValue>, key: &str) -> (r: Option<&'a JsonValue>)
    ensures
        ref_data(r) == get_opt(ref_data(v), key@),
{
    match v {
        Some(x) => json_get(x, key),
        None => None,
    }
}

/// The object has a member `key` (`Map::contains_key`).
pub fn has_key_exec(entries: &Vec<(String, JsonValue)>, key: &str) -> (b: bool)
    ensures
        b == has_key(entries_data(entries@), key@),
{
    entry_get_exec(entries, key).is_some()
}

/// `Value::as_str`, owned.
pub fn json_as_str(v: &JsonValue) -> (r: Option<String>)
    ensures
        opt_string_data(r) == as_str(v@),
{
    match v {
        JsonValue::Str(s) => Some(s.clone()),
        _ => None,
    }
}

/// An optional string as optional characters.
pub open spec fn opt_string_data(r: Option<String>) -> Option<Seq<char>> {
    match r {
        Some(s) => Some(s@),
        None => None,
    }
}

/// `Value::as_i64`.
pub fn json_as_i64(v: &JsonValue) -> (r: Option<i64>)
    ensures
        r == as_i64(v@),
{
    match v {
        JsonValue::Number(JsonNumber::PosInt(u)) => if *u <= 9223372036854775807u64 {
            Some(*u as i64)
        } else {
            None
        },
        JsonValue::Number(JsonNumber::NegInt(i)) => Some(*i),
        _ => None,
    }
}

/// `Value::as_bool`.
pub fn json_as_bool(v: &JsonValue) -> (r: Option<bool>)
    ensures
        r == as_bool(v@),
{
    match v {
        JsonValue::Bool(b) => Some(*b),
        _ => None,
    }
}

/// The decimal text of `n`.
pub fn decimal_chars(n: u64) -> (r: Vec<char>)
    ensures
        r@ == decimal(n as nat),
    decreases n,
{
    if n < 10 {
        let c = hex_digit_char(n as u8);
        let mut r: Vec<char> = Vec::new();
        r.push(c);
        assert(r@ =~= seq![digit_char(n as int)]);
        r
    } else {
        let mut r = decimal_chars(n / 10);
        let c = hex_digit_char((n % 10) as u8);
        r.push(c);
        r
    }
}

/// What a number prints as (`number_text`).
pub fn number_to_string(n: &JsonNumber) -> (r: String)
    ensures
        r@ == number_text(number_data(*n)),
{
    match n {
        JsonNumber::PosInt(u) => {
            let d = decimal_chars(*u);
            string_of(d.as_slice())
        },
        JsonNumber::NegInt(i) => {
            if *i < 0 {
                let m: u64 = ((-(*i + 1)) as u64) + 1;
                let d = decimal_chars(m);
                let mut out: Vec<char> = Vec::new();
                out.push('-');
                crate::text::push_all(&mut out, d.as_slice());
                assert(out@ =~= seq!['-'] + decimal((-(*i as int)) as nat));
                string_of(out.as_slice())
            } else {
                let d = decimal_chars(*i as u64);
                string_of(d.as_slice())
            }
        },
        JsonNumber::Float(s) => s.clone(),
    }
}

/// `digits_value` of one more digit.
proof fn lemma_digits_value_push(s: Seq<char>, c: char)
    ensures
        digits_value(s.push(c)) == digits_value(s) * 10 + (c as int - 48),
{
    assert(s.push(c).drop_last() =~= s);
}

/// `str::parse::<i64>` (`parse_i64`).
pub fn parse_i64_exec(s: &str) -> (r: Option<i64>)
    ensures
        r == parse_i64(s@),
{
    let c = chars_of(s);
    let n = c.len();
    let mut start: usize = 0;
    let mut neg = false;
    if n > 0 && (c[0] == '-' || c[0] == '+') {
        start = 1;
        neg = c[0] == '-';
    }
    let ghost body = if s@.len() > 0 && (s@[0] == '-' || s@[0] == '+') {
        s@.drop_first()
    } else {
        s@
    };
    assert(body =~= c@.skip(start as int));
    if start >= n {
        return None;
    }
    let cap: u128 = 9223372036854775809u128;
    let mut acc: u128 = 0;
    let mut i: usize = start;
    assert(c@.subrange(start as int, start as int) =~= Seq::<char>::empty());
    while i < n
        invariant
            start <= i <= n == c@.len(),
            c@ == s@,
            body =~= c@.skip(start as int),
            body == (if s@.len() > 0 && (s@[0] == '-' || s@[0] == '+') {
                s@.drop_first()
            } else {
                s@
            }),
            cap == 9223372036854775809u128,
            all_digits(c@.subrange(start as int, i as int)),
            acc == (if digits_value(c@.subrange(start as int, i as int)) < cap {
                digits_value(c@.subrange(start as int, i as int))
            } else {
                cap as int
            }),
        decreases n - i,
    {
        let ch = c[i];
        if !('0' <= ch && ch <= '9') {
            proof {
                assert(body[i - start] == ch);
                assert(!is_digit(body[i - start]));
                assert(!all_digits(body));
            }
            return None;
        }
        let ghost pre = c@.subrange(start as int, i as int);
        proof {
            assert(c@.subrange(start as int, i as int + 1) =~= pre.push(ch));
            lemma_digits_value_push(pre, ch);
            assert(digits_value(pre) >= 0) by {
                lemma_digits_value_nonneg(pre);
            }
        }
        let d = (ch as u32 - 48) as u128;
        if acc >= cap {
            acc = cap;
        } else {
            let next = acc * 10 + d;
            acc = if next < cap {
                next
            } else {
                cap
            };
        }
        i = i + 1;
    }
    assert(c@.subrange(start as int, n as int) =~= body);
    proof {
        lemma_digits_value_nonneg(body);
    }
    let ghost dv = digits_value(body);
    assert(neg == (s@.len() > 0 && s@[0] == '-'));
    assert(body.len() > 0);
    if neg {
        if acc > 9223372036854775808u128 {
            None
        } else if acc == 9223372036854775808u128 {
            Some(-9223372036854775807i64 - 1)
        } else {
            Some(-(acc as i64))
        }
    } else {
        if acc > 9223372036854775807u128 {
            None
        } else {
            Some(acc as i64)
        }
    }
}

/// Exec `parse_u64`.
pub fn parse_u64_exec(s: &str) -> (r: Option<u64>)
    ensures
        r == parse_u64(s@),
{
    let c = chars_of(s);
    let n = c.len();
    let mut start: usize = 0;
    if n > 0 && c[0] == '+' {
        start = 1;
    }
    let ghost body = if s@.len() > 0 && s@[0] == '+' {
        s@.drop_first()
    } else {
        s@
    };
    assert(body =~= c@.skip(start as int));
    if start >= n {
        return None;
    }
    let cap: u128 = 18446744073709551616u128;
    let mut acc: u128 = 0;
    let mut i: usize = start;
    assert(c@.subrange(start as int, start as int) =~= Seq::<char>::empty());
    while i < n
        invariant
            start <= i <= n == c@.len(),
            c@ == s@,
            body =~= c@.skip(start as int),
            body == (if s@.len() > 0 && s@[0] == '+' {
                s@.drop_first()
            } else {
                s@
            }),
            cap == 18446744073709551616u128,
            all_digits(c@.subrange(start as int, i as int)),
            acc == (if digits_value(c@.subrange(start as int, i as int)) < cap {
                digits_value(c@.subrange(start as int, i as int))
            } else {
                cap as int
            }),
        decreases n - i,
    {
        let ch = c[i];
        if !('0' <= ch && ch <= '9') {
            proof {
                assert(body[i - start] == ch);
                assert(!is_digit(body[i - start]));
                assert(!all_digits(body));
            }
            return None;
        }
        let ghost pre = c@.subrange(start as int, i as int);
        proof {
            assert(c@.subrange(start as int, i as int + 1) =~= pre.push(ch));
            lemma_digits_value_push(pre, ch);
            assert(digits_value(pre) >= 0) by {
                lemma_digits_value_nonneg(pre);
            }
        }
        let d = (ch as u32 - 48) as u128;
        if acc >= cap {
            acc = cap;
        } else {
            let next = acc * 10 + d;
            acc = if next < cap {
                next
            } else {
                cap
            };
        }
        i = i + 1;
    }
    assert(c@.subrange(start as int, n as int) =~= body);
    proof {
        lemma_digits_value_nonneg(body);
    }
    assert(body.len() > 0);
    if acc > 18446744073709551615u128 {
        None
    } else {
        Some(acc as u64)
    }
}

/// Digit values are never negative.
proof fn lemma_digits_value_nonneg(s: Seq<char>)
    requires
        all_digits(s),
    ensures
        digits_value(s) >= 0,
    decreases s.len(),
{
    if s.len() > 0 {
        assert(all_digits(s.drop_last())) by {
            assert forall|i: int| 0 <= i < s.drop_last().len() implies is_digit(
                #[trigger] s.drop_last()[i],
            ) by {
                assert(s.drop_last()[i] == s[i]);
            }
        }
        assert(is_digit(s[s.len() - 1]));
        lemma_digits_value_nonneg(s.drop_last());
    }
}

} // verus!
