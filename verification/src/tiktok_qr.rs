//! TikTok's QR login: the login request's parameters, the key handed to the
//! user interface, and the reading of the status answers.
use vstd::prelude::*;
use base64::Engine;
use vstd::utf8::{decode_utf8, encode_utf8, valid_utf8};
use crate::config::opt_view;
use crate::cookie_map::{build_cookie_string, CookieMap};
use crate::cookies::concat_str;
use crate::json::{
    as_i64_opt, as_str, as_str_opt, get, get_opt, json_as_i64, json_text, json_to_string, json_as_str, json_get, json_get_opt, JsonData,
    JsonNumber, JsonValue, NumberData,
};
use crate::passport::pairs_view;
use crate::text::{
    chars_of, contains, contains_chars, has_char, lemma_split_char_append, lemma_split_char_single,
    lower_chars, lower_seq, same_str, split_char, split_chars, string_of, to_string_of, trim, views,
};
use crate::tiktok::RecorderError;
use crate::tiktok_data::{str_or, value_text, value_to_string};

verus! {

// ---------------------------------------------------------------------------
// Outside encodings
// ---------------------------------------------------------------------------

/// Digit `n` (0 to 63) of the standard base64 alphabet.
pub open spec fn base64_digit(n: int) -> char {
    if n < 26 {
        ('A' as int + n) as char
    } else if n < 52 {
        ('a' as int + (n - 26)) as char
    } else if n < 62 {
        ('0' as int + (n - 52)) as char
    } else if n == 62 {
        '+'
    } else {
        '/'
    }
}

/// The standard base64 text of some bytes: each group of three bytes as four
/// digits of six bits, a last group of one or two bytes padded with `=`.
pub open spec fn base64_text(b: Seq<u8>) -> Seq<char>
    decreases b.len(),
{
    if b.len() == 0 {
        Seq::<char>::empty()
    } else if b.len() == 1 {
        seq![base64_digit((b[0] as int) / 4), base64_digit(((b[0] as int) % 4) * 16), '=', '=']
    } else if b.len() == 2 {
        seq![
            base64_digit((b[0] as int) / 4),
            base64_digit(((b[0] as int) % 4) * 16 + (b[1] as int) / 16),
            base64_digit(((b[1] as int) % 16) * 4),
            '=',
        ]
    } else {
        seq![
            base64_digit((b[0] as int) / 4),
            base64_digit(((b[0] as int) % 4) * 16 + (b[1] as int) / 16),
            base64_digit(((b[1] as int) % 16) * 4 + (b[2] as int) / 64),
            base64_digit((b[2] as int) % 64),
        ] + base64_text(b.skip(3))
    }
}

/// The bytes whose standard base64 text is `text`; none when no bytes have
/// it (one at most, by `lemma_base64_text_injective`).
pub open spec fn base64_bytes(text: Seq<char>) -> Option<Seq<u8>> {
    if exists|x: Seq<u8>| #[trigger] base64_text(x) == text {
        Some(choose|x: Seq<u8>| #[trigger] base64_text(x) == text)
    } else {
        None
    }
}

/// Digits of different values differ, and no digit is the padding `=`.
proof fn lemma_base64_digit(n: int, m: int)
    requires
        0 <= n < 64,
        0 <= m < 64,
    ensures
        base64_digit(n) == base64_digit(m) ==> n == m,
        base64_digit(n) != '=',
{
}

/// The base64 text of some bytes is four characters per started group of
/// three bytes.
proof fn lemma_base64_text_len(b: Seq<u8>)
    ensures
        b.len() > 0 ==> base64_text(b).len() >= 4,
        b.len() == 0 ==> base64_text(b).len() == 0,
{
}

/// Different bytes have different base64 texts.
pub proof fn lemma_base64_text_injective(x: Seq<u8>, y: Seq<u8>)
    requires
        base64_text(x) == base64_text(y),
    ensures
        x == y,
    decreases x.len(),
{
    let t = base64_text(x);
    lemma_base64_text_len(x);
    lemma_base64_text_len(y);
    if x.len() == 0 {
        assert(x =~= y);
    } else {
        let (a0, a1, a2) = (x[0] as int, if x.len() > 1 { x[1] as int } else { 0 }, if x.len() > 2 { x[2] as int } else { 0 });
        let (c0, c1, c2) = (y[0] as int, if y.len() > 1 { y[1] as int } else { 0 }, if y.len() > 2 { y[2] as int } else { 0 });
        let u = base64_text(y);
        assert(t[0] == base64_digit(a0 / 4));
        assert(u[0] == base64_digit(c0 / 4));
        assert(t[1] == base64_digit((a0 % 4) * 16 + a1 / 16));
        assert(u[1] == base64_digit((c0 % 4) * 16 + c1 / 16));
        lemma_base64_digit(a0 / 4, c0 / 4);
        assert(a0 / 4 == c0 / 4);
        if x.len() == 1 || y.len() == 1 {
            lemma_base64_digit(((a0 % 4) * 16 + a1 / 16) % 64, ((c0 % 4) * 16 + c1 / 16) % 64);
            lemma_base64_digit(((a1 % 16) * 4 + a2 / 64) % 64, ((c1 % 16) * 4 + c2 / 64) % 64);
            assert(x.len() == 1 && y.len() == 1);
            lemma_base64_digit((a0 % 4) * 16, (c0 % 4) * 16);
            assert(a0 == c0);
            assert(x =~= y);
        } else {
            lemma_base64_digit((a0 % 4) * 16 + a1 / 16, (c0 % 4) * 16 + c1 / 16);
            assert(a0 == c0 && a1 / 16 == c1 / 16);
            if x.len() == 2 || y.len() == 2 {
                lemma_base64_digit(((a1 % 16) * 4 + a2 / 64) % 64, ((c1 % 16) * 4 + c2 / 64) % 64);
                lemma_base64_digit(a2 % 64, c2 % 64);
                assert(x.len() == 2 && y.len() == 2);
                lemma_base64_digit((a1 % 16) * 4, (c1 % 16) * 4);
                assert(a1 == c1);
                assert(x =~= y);
            } else {
                assert(t[2] == base64_digit((a1 % 16) * 4 + a2 / 64));
                assert(u[2] == base64_digit((c1 % 16) * 4 + c2 / 64));
                assert(t[3] == base64_digit(a2 % 64));
                assert(u[3] == base64_digit(c2 % 64));
                lemma_base64_digit((a1 % 16) * 4 + a2 / 64, (c1 % 16) * 4 + c2 / 64);
                lemma_base64_digit(a2 % 64, c2 % 64);
                assert(a1 == c1 && a2 == c2);
                assert(t.skip(4) == base64_text(x.skip(3)));
                assert(t.skip(4) == base64_text(y.skip(3)));
                lemma_base64_text_injective(x.skip(3), y.skip(3));
                assert(x =~= x.take(3) + x.skip(3));
                assert(y =~= y.take(3) + y.skip(3));
                assert(x.take(3) =~= y.take(3));
            }
        }
    }
}

/// Calls `base64::engine::general_purpose::STANDARD.encode`: the standard
/// base64 text of the bytes, padded (`base64_text`).
#[verifier::external_body]
pub(crate) fn base64_encode(bytes: &[u8]) -> (r: String)
    ensures
        r@ == base64_text(bytes@),
{
    base64::engine::general_purpose::STANDARD.encode(bytes)
}

/// Calls `base64::engine::general_purpose::STANDARD.decode`. That engine
/// requires canonical padding and no trailing bits, so it accepts exactly
/// the texts its `encode` writes (`base64_text`): the result is the bytes
/// whose text is the given one, none when no bytes have it.
#[verifier::external_body]
fn base64_decode(text: &str) -> (r: Option<Vec<u8>>)
    ensures
        match r {
            Some(b) => base64_text(b@) == text@,
            None => forall|x: Seq<u8>| #[trigger] base64_text(x) != text@,
        },
{
    base64::engine::general_purpose::STANDARD.decode(text).ok()
}

/// Calls `String::from_utf8`: the text the bytes encode when they are valid
/// UTF-8, none otherwise.
#[verifier::external_body]
pub(crate) fn utf8_decode(bytes: Vec<u8>) -> (r: Option<String>)
    ensures
        match r {
            Some(s) => valid_utf8(bytes@) && s@ == decode_utf8(bytes@),
            None => !valid_utf8(bytes@),
        },
{
    String::from_utf8(bytes).ok()
}

} // verus!

verus! {

// ---------------------------------------------------------------------------
// The login request
// ---------------------------------------------------------------------------

/// The `shark_extra` document of a QR-login request.
pub open spec fn shark_extra_data(device_id: Seq<char>, verify_fp: Seq<char>) -> JsonData {
    JsonData::Object(seq![
        ("aid"@, JsonData::Number(NumberData::PosInt(1459))),
        ("app_name"@, JsonData::Str("Tik_Tok_Login"@)),
        ("channel"@, JsonData::Str("tiktok_web"@)),
        ("device_platform"@, JsonData::Str("web_pc"@)),
        ("device_id"@, JsonData::Str(device_id)),
        ("region"@, JsonData::Str("TW"@)),
        ("priority_region"@, JsonData::Str(""@)),
        ("os"@, JsonData::Str("windows"@)),
        ("referer"@, JsonData::Str("https://www.tiktok.com/"@)),
        ("cookie_enabled"@, JsonData::Bool(true)),
        ("screen_width"@, JsonData::Number(NumberData::PosInt(2560))),
        ("screen_height"@, JsonData::Number(NumberData::PosInt(1440))),
        ("browser_language"@, JsonData::Str("zh-CN"@)),
        ("browser_platform"@, JsonData::Str("Win32"@)),
        ("browser_name"@, JsonData::Str("Mozilla"@)),
        ("browser_version"@, JsonData::Str("5.0 (Windows NT 10.0; Win64; x64) AppleWebKit/537.36 (KHTML, like Gecko) Chrome/138.0.0.0 Safari/537.36"@)),
        ("browser_online"@, JsonData::Bool(true)),
        ("verifyFp"@, JsonData::Str(verify_fp)),
        ("app_language"@, JsonData::Str("zh-Hans"@)),
        ("webcast_language"@, JsonData::Str("zh-Hans"@)),
        ("tz_name"@, JsonData::Str("Asia/Shanghai"@)),
        ("is_page_visible"@, JsonData::Bool(true)),
        ("focus_state"@, JsonData::Bool(true)),
        ("is_fullscreen"@, JsonData::Bool(false)),
        ("history_len"@, JsonData::Number(NumberData::PosInt(2))),
        ("user_is_login"@, JsonData::Bool(false)),
        ("data_collection_enabled"@, JsonData::Bool(true)),
    ])
}

/// The `shark_extra` document of a QR-login request (`shark_extra_data`).
pub fn shark_extra(device_id: &str, verify_fp: &str) -> (r: JsonValue)
    ensures
        r@ == shark_extra_data(device_id@, verify_fp@),
{
    let mut m: Vec<(String, JsonValue)> = Vec::new();
    m.push((to_string_of("aid"), JsonValue::Number(JsonNumber::PosInt(1459))));
    m.push((to_string_of("app_name"), JsonValue::Str(to_string_of("Tik_Tok_Login"))));
    m.push((to_string_of("channel"), JsonValue::Str(to_string_of("tiktok_web"))));
    m.push((to_string_of("device_platform"), JsonValue::Str(to_string_of("web_pc"))));
    m.push((to_string_of("device_id"), JsonValue::Str(to_string_of(device_id))));
    m.push((to_string_of("region"), JsonValue::Str(to_string_of("TW"))));
    m.push((to_string_of("priority_region"), JsonValue::Str(to_string_of(""))));
    m.push((to_string_of("os"), JsonValue::Str(to_string_of("windows"))));
    m.push((to_string_of("referer"), JsonValue::Str(to_string_of("https://www.tiktok.com/"))));
    m.push((to_string_of("cookie_enabled"), JsonValue::Bool(true)));
    m.push((to_string_of("screen_width"), JsonValue::Number(JsonNumber::PosInt(2560))));
    m.push((to_string_of("screen_height"), JsonValue::Number(JsonNumber::PosInt(1440))));
    m.push((to_string_of("browser_language"), JsonValue::Str(to_string_of("zh-CN"))));
    m.push((to_string_of("browser_platform"), JsonValue::Str(to_string_of("Win32"))));
    m.push((to_string_of("browser_name"), JsonValue::Str(to_string_of("Mozilla"))));
    m.push((to_string_of("browser_version"), JsonValue::Str(to_string_of("5.0 (Windows NT 10.0; Win64; x64) AppleWebKit/537.36 (KHTML, like Gecko) Chrome/138.0.0.0 Safari/537.36"))));
    m.push((to_string_of("browser_online"), JsonValue::Bool(true)));
    m.push((to_string_of("verifyFp"), JsonValue::Str(to_string_of(verify_fp))));
    m.push((to_string_of("app_language"), JsonValue::Str(to_string_of("zh-Hans"))));
    m.push((to_string_of("webcast_language"), JsonValue::Str(to_string_of("zh-Hans"))));
    m.push((to_string_of("tz_name"), JsonValue::Str(to_string_of("Asia/Shanghai"))));
    m.push((to_string_of("is_page_visible"), JsonValue::Bool(true)));
    m.push((to_string_of("focus_state"), JsonValue::Bool(true)));
    m.push((to_string_of("is_fullscreen"), JsonValue::Bool(false)));
    m.push((to_string_of("history_len"), JsonValue::Number(JsonNumber::PosInt(2))));
    m.push((to_string_of("user_is_login"), JsonValue::Bool(false)));
    m.push((to_string_of("data_collection_enabled"), JsonValue::Bool(true)));
    proof {
        crate::json::lemma_object_data(m);
        assert(crate::json::entries_data(m@) =~= shark_extra_data(device_id@, verify_fp@)->Object_0);
    }
    JsonValue::Object(m)
}

/// The parameters of a QR-login request: the fixed ones, the device id,
/// fingerprint and token, the QR token when polling, and `shark_extra`.
pub open spec fn qr_params(token: Option<Seq<char>>, device_id: Seq<char>, verify_fp: Seq<char>, ms_token: Seq<char>) -> Seq<
    (Seq<char>, Seq<char>),
> {
    let base = seq![
        ("next"@, "https://www.tiktok.com"@),
        ("multi_login"@, "1"@),
        ("did"@, device_id),
        ("locale"@, "zh-Hans"@),
        ("app_language"@, "zh"@),
        ("aid"@, "1459"@),
        ("account_sdk_source"@, "web"@),
        ("sdk_version"@, "2.1.11-tiktokbeta.3"@),
        ("language"@, "zh-Hant"@),
        ("verifyFp"@, verify_fp),
        ("target_aid"@, ""@),
        ("standalone_aid"@, ""@),
        ("msToken"@, ms_token),
    ];
    let with_token = match token {
        Some(t) => base.push(("token"@, t)),
        None => base,
    };
    with_token.push(("shark_extra"@, json_text(shark_extra_data(device_id, verify_fp))))
}

/// Exec `qr_params`.
pub fn build_qr_params(token: Option<&str>, device_id: &str, verify_fp: &str, ms_token: &str) -> (r: Vec<
    (String, String),
>)
    ensures
        pairs_view(r@) == qr_params(crate::cookie_json::opt_str(token), device_id@, verify_fp@, ms_token@),
{
    let mut out: Vec<(String, String)> = Vec::new();
    out.push((to_string_of("next"), to_string_of("https://www.tiktok.com")));
    out.push((to_string_of("multi_login"), to_string_of("1")));
    out.push((to_string_of("did"), to_string_of(device_id)));
    out.push((to_string_of("locale"), to_string_of("zh-Hans")));
    out.push((to_string_of("app_language"), to_string_of("zh")));
    out.push((to_string_of("aid"), to_string_of("1459")));
    out.push((to_string_of("account_sdk_source"), to_string_of("web")));
    out.push((to_string_of("sdk_version"), to_string_of("2.1.11-tiktokbeta.3")));
    out.push((to_string_of("language"), to_string_of("zh-Hant")));
    out.push((to_string_of("verifyFp"), to_string_of(verify_fp)));
    out.push((to_string_of("target_aid"), to_string_of("")));
    out.push((to_string_of("standalone_aid"), to_string_of("")));
    out.push((to_string_of("msToken"), to_string_of(ms_token)));
    if let Some(t) = token {
        out.push((to_string_of("token"), to_string_of(t)));
    }
    let extra = shark_extra(device_id, verify_fp);
    out.push((to_string_of("shark_extra"), json_to_string(&extra)));
    assert(pairs_view(out@) =~= qr_params(crate::cookie_json::opt_str(token), device_id@, verify_fp@, ms_token@));
    out
}

} // verus!

verus! {

// ---------------------------------------------------------------------------
// The key handed to the user interface
// ---------------------------------------------------------------------------

#[derive(Debug)]
/// The parts of a QR key: `token|device_id|verify_fp|ms_token[|ticket[|cookies]]`.
pub struct QrTokenKey {
    pub token: String,
    pub device_id: String,
    pub verify_fp: String,
    pub ms_token: String,
    pub ttwid_ticket: Option<String>,
    pub bootstrap_cookie_header: String,
}

/// Part `i` of `parts`, empty when there is none.
pub open spec fn part_or_empty(parts: Seq<Seq<char>>, i: int) -> Seq<char> {
    if 0 <= i < parts.len() {
        parts[i]
    } else {
        Seq::<char>::empty()
    }
}

/// The cookie header that base64 text carries: its bytes read as UTF-8, or
/// empty when either step fails.
pub open spec fn carried_cookie_header(encoded: Seq<char>) -> Seq<char> {
    match base64_bytes(encoded) {
        Some(b) => if valid_utf8(b) {
            decode_utf8(b)
        } else {
            Seq::<char>::empty()
        },
        None => Seq::<char>::empty(),
    }
}

/// The view of a key's parts.
pub open spec fn token_key_view(k: QrTokenKey) -> (
    Seq<char>,
    Seq<char>,
    Seq<char>,
    Seq<char>,
    Option<Seq<char>>,
    Seq<char>,
) {
    (k.token@, k.device_id@, k.verify_fp@, k.ms_token@, opt_view(k.ttwid_ticket), k.bootstrap_cookie_header@)
}

/// What a key text holds: the first four `|`-separated parts (empty when
/// missing), the fifth when there is one, and the cookie header that the
/// sixth carries.
pub open spec fn token_key_parts(key: Seq<char>) -> (
    Seq<char>,
    Seq<char>,
    Seq<char>,
    Seq<char>,
    Option<Seq<char>>,
    Seq<char>,
) {
    let p = split_char(key, '|');
    (
        part_or_empty(p, 0),
        part_or_empty(p, 1),
        part_or_empty(p, 2),
        part_or_empty(p, 3),
        if p.len() > 4 {
            Some(p[4])
        } else {
            None
        },
        if p.len() > 5 {
            carried_cookie_header(p[5])
        } else {
            Seq::<char>::empty()
        },
    )
}

/// Part `i` of the split key as a string, empty when there is none.
fn part_string(parts: &Vec<Vec<char>>, i: usize) -> (r: String)
    ensures
        r@ == part_or_empty(views(parts@), i as int),
{
    if i < parts.len() {
        string_of(parts[i].as_slice())
    } else {
        let r = String::new();
        assert(r@ =~= Seq::<char>::empty());
        r
    }
}

/// The cookie header carried by base64 text (`carried_cookie_header`);
/// the base64 of a header's UTF-8 bytes gives that header back.
pub fn decode_carried_cookies(encoded: &str) -> (r: String)
    ensures
        r@ == carried_cookie_header(encoded@),
        forall|h: Seq<char>| #[trigger] base64_text(encode_utf8(h)) == encoded@ ==> r@ == h,
{
    let empty = String::new();
    assert(empty@ =~= Seq::<char>::empty());
    let decoded = base64_decode(encoded);
    let ghost d = decoded;
    let r = match decoded {
        Some(bytes) => match utf8_decode(bytes) {
            Some(text) => text,
            None => empty,
        },
        None => empty,
    };
    proof {
        if let Some(x) = d {
            assert(base64_text(x@) == encoded@);
            let c = choose|y: Seq<u8>| #[trigger] base64_text(y) == encoded@;
            lemma_base64_text_injective(c, x@);
            assert(base64_bytes(encoded@) == Some(x@));
        }
        assert forall|h: Seq<char>| #[trigger] base64_text(encode_utf8(h)) == encoded@ implies r@ == h by {
            vstd::utf8::encode_utf8_valid_utf8(h);
            vstd::utf8::encode_utf8_decode_utf8(h);
            assert(base64_text(encode_utf8(h)) == encoded@);
            if let Some(x) = d {
                lemma_base64_text_injective(x@, encode_utf8(h));
            }
            assert(d matches Some(x) && x@ == encode_utf8(h));
        }
    }
    r
}

/// Splits a QR key into its parts (`token_key_parts`). A key made by
/// `compose_oauth_key` from parts without `|` and with a ticket gives those
/// parts back, the cookie header included.
pub fn parse_qr_token_key(token_key: &str) -> (r: QrTokenKey)
    ensures
        token_key_view(r) == token_key_parts(token_key@),
        forall|t: Seq<char>, d: Seq<char>, f: Seq<char>, m: Seq<char>, ti: Seq<char>, h: Seq<char>|
            #[trigger] oauth_key_text(t, d, f, m, ti, h) == token_key@ && !has_char(t, '|') && !has_char(
                d,
                '|',
            ) && !has_char(f, '|') && !has_char(m, '|') && !has_char(ti, '|') && ti.len() > 0
                ==> token_key_view(r) == (t, d, f, m, Some(ti), h),
{
    let chars = chars_of(token_key);
    let parts = split_chars(chars.as_slice(), '|');
    let ttwid_ticket = if parts.len() > 4 {
        Some(string_of(parts[4].as_slice()))
    } else {
        None
    };
    let bootstrap_cookie_header = if parts.len() > 5 {
        let encoded = string_of(parts[5].as_slice());
        decode_carried_cookies(encoded.as_str())
    } else {
        let e = String::new();
        assert(e@ =~= Seq::<char>::empty());
        e
    };
    let r = QrTokenKey {
        token: part_string(&parts, 0),
        device_id: part_string(&parts, 1),
        verify_fp: part_string(&parts, 2),
        ms_token: part_string(&parts, 3),
        ttwid_ticket,
        bootstrap_cookie_header,
    };
    proof {
        assert forall|t: Seq<char>, d: Seq<char>, f: Seq<char>, m: Seq<char>, ti: Seq<char>, h: Seq<char>|
            #[trigger] oauth_key_text(t, d, f, m, ti, h) == token_key@ && !has_char(t, '|') && !has_char(
                d,
                '|',
            ) && !has_char(f, '|') && !has_char(m, '|') && !has_char(ti, '|') && ti.len() > 0
            implies token_key_view(r) == (t, d, f, m, Some(ti), h) by {
            lemma_oauth_key_split(t, d, f, m, ti, h);
            if h.len() > 0 {
                assert(views(parts@)[5] == base64_text(encode_utf8(h)));
            } else {
                assert(r.bootstrap_cookie_header@ =~= h);
            }
        }
    }
    r
}

/// The key handed out for a QR code: `token|device_id|verify_fp|ms_token`,
/// then `|ticket` when there is a ticket, then `|` and the base64 of the
/// cookie header when it is not empty.
pub open spec fn oauth_key_text(
    token: Seq<char>,
    device_id: Seq<char>,
    verify_fp: Seq<char>,
    ms_token: Seq<char>,
    ticket: Seq<char>,
    cookie_header: Seq<char>,
) -> Seq<char> {
    let base = token + "|"@ + device_id + "|"@ + verify_fp + "|"@ + ms_token;
    let with_ticket = if ticket.len() > 0 {
        base + "|"@ + ticket
    } else {
        base
    };
    if cookie_header.len() > 0 {
        with_ticket + "|"@ + base64_text(encode_utf8(cookie_header))
    } else {
        with_ticket
    }
}

/// Exec `oauth_key_text`.
pub fn compose_oauth_key(
    token: &str,
    device_id: &str,
    verify_fp: &str,
    ms_token: &str,
    ticket: &str,
    cookie_header: &str,
) -> (r: String)
    ensures
        r@ == oauth_key_text(token@, device_id@, verify_fp@, ms_token@, ticket@, cookie_header@),
{
    proof {
        reveal_strlit("|");
    }
    let mut key = String::new();
    key.append(token);
    key.append("|");
    key.append(device_id);
    key.append("|");
    key.append(verify_fp);
    key.append("|");
    key.append(ms_token);
    assert(key@ =~= token@ + "|"@ + device_id@ + "|"@ + verify_fp@ + "|"@ + ms_token@);
    if ticket.unicode_len() > 0 {
        key.append("|");
        key.append(ticket);
    }
    if cookie_header.unicode_len() > 0 {
        let encoded = base64_encode(cookie_header.as_bytes());
        key.append("|");
        key.append(encoded.as_str());
    }
    key
}

/// No digit of the base64 alphabet is `|`.
proof fn lemma_base64_digit_not_bar(n: int)
    requires
        0 <= n < 64,
    ensures
        base64_digit(n) != '|',
{
    if n < 26 {
        assert(('A' as int + n) as char != '|');
    } else if n < 52 {
        assert(('a' as int + (n - 26)) as char != '|');
    } else if n < 62 {
        assert(('0' as int + (n - 52)) as char != '|');
    }
}

/// Base64 text holds no `|`.
proof fn lemma_base64_text_no_bar(b: Seq<u8>)
    ensures
        !has_char(base64_text(b), '|'),
    decreases b.len(),
{
    let t = base64_text(b);
    if b.len() == 0 {
    } else if b.len() <= 2 {
        lemma_base64_digit_not_bar((b[0] as int) / 4);
        if b.len() == 1 {
            lemma_base64_digit_not_bar(((b[0] as int) % 4) * 16);
        } else {
            lemma_base64_digit_not_bar(((b[0] as int) % 4) * 16 + (b[1] as int) / 16);
            lemma_base64_digit_not_bar(((b[1] as int) % 16) * 4);
        }
        assert(!has_char(t, '|'));
    } else {
        lemma_base64_digit_not_bar((b[0] as int) / 4);
        lemma_base64_digit_not_bar(((b[0] as int) % 4) * 16 + (b[1] as int) / 16);
        lemma_base64_digit_not_bar(((b[1] as int) % 16) * 4 + (b[2] as int) / 64);
        lemma_base64_digit_not_bar((b[2] as int) % 64);
        lemma_base64_text_no_bar(b.skip(3));
        let head = seq![
            base64_digit((b[0] as int) / 4),
            base64_digit(((b[0] as int) % 4) * 16 + (b[1] as int) / 16),
            base64_digit(((b[1] as int) % 16) * 4 + (b[2] as int) / 64),
            base64_digit((b[2] as int) % 64),
        ];
        assert(t == head + base64_text(b.skip(3)));
        assert forall|i: int| 0 <= i < t.len() implies t[i] != '|' by {
            if i >= 4 {
                assert(t[i] == base64_text(b.skip(3))[i - 4]);
            }
        }
    }
}

/// The parts of a key (`oauth_key_text`) whose token, device id,
/// fingerprint, token and non-empty ticket hold no `|`: those five, then
/// the base64 of the cookie header when there is one.
pub proof fn lemma_oauth_key_split(
    token: Seq<char>,
    device_id: Seq<char>,
    verify_fp: Seq<char>,
    ms_token: Seq<char>,
    ticket: Seq<char>,
    cookie_header: Seq<char>,
)
    requires
        !has_char(token, '|'),
        !has_char(device_id, '|'),
        !has_char(verify_fp, '|'),
        !has_char(ms_token, '|'),
        !has_char(ticket, '|'),
        ticket.len() > 0,
    ensures
        split_char(oauth_key_text(token, device_id, verify_fp, ms_token, ticket, cookie_header), '|')
            == if cookie_header.len() > 0 {
            seq![token, device_id, verify_fp, ms_token, ticket, base64_text(encode_utf8(cookie_header))]
        } else {
            seq![token, device_id, verify_fp, ms_token, ticket]
        },
{
    reveal_strlit("|");
    let bar = seq!['|'];
    assert("|"@ == bar);
    lemma_split_char_single(token, '|');
    let k1 = token + bar + device_id;
    lemma_split_char_append(token, '|', device_id);
    let k2 = k1 + bar + verify_fp;
    lemma_split_char_append(k1, '|', verify_fp);
    let k3 = k2 + bar + ms_token;
    lemma_split_char_append(k2, '|', ms_token);
    let k4 = k3 + bar + ticket;
    lemma_split_char_append(k3, '|', ticket);
    assert(split_char(k4, '|') =~= seq![token, device_id, verify_fp, ms_token, ticket]);
    if cookie_header.len() > 0 {
        let e = base64_text(encode_utf8(cookie_header));
        lemma_base64_text_no_bar(encode_utf8(cookie_header));
        lemma_split_char_append(k4, '|', e);
        assert(oauth_key_text(token, device_id, verify_fp, ms_token, ticket, cookie_header) == k4 + bar + e);
        assert(split_char(k4 + bar + e, '|') =~= seq![
            token,
            device_id,
            verify_fp,
            ms_token,
            ticket,
            e,
        ]);
    } else {
        assert(oauth_key_text(token, device_id, verify_fp, ms_token, ticket, cookie_header) == k4);
    }
}

} // verus!

verus! {

// ---------------------------------------------------------------------------
// Guest state and the identity of a QR login
// ---------------------------------------------------------------------------

#[derive(Debug)]
/// What TikTok's home page hands a guest.
pub struct TikTokGuestState {
    pub ttwid: String,
    pub ssid: String,
    pub device_id: String,
    pub verify_fp: String,
}

/// The device id a page state names: `AppContext.wid` when it is a string,
/// else `device_id` when it is one.
pub open spec fn state_device_id(state: Option<JsonData>) -> Option<Seq<char>> {
    match state {
        Some(v) => match as_str_opt(get_opt(get(v, "AppContext"@), "wid"@)) {
            Some(d) => Some(d),
            None => as_str_opt(get(v, "device_id"@)),
        },
        None => None,
    }
}

/// The value stored under `key`, or empty.
pub open spec fn map_value_or_empty(m: Map<Seq<char>, Seq<char>>, key: Seq<char>) -> Seq<char> {
    if m.contains_key(key) {
        m[key]
    } else {
        Seq::<char>::empty()
    }
}

/// `s` is a TikTok web device id: 19 decimal digits.
pub open spec fn is_device_id(s: Seq<char>) -> bool {
    s.len() == 19 && forall|i: int| 0 <= i < 19 ==> '0' <= #[trigger] s[i] && s[i] <= '9'
}

/// The value stored under `key`, or an empty string.
fn cookie_or_empty(m: &CookieMap, key: &str) -> (r: String)
    requires
        m.wf(),
    ensures
        r@ == map_value_or_empty(m@, key@),
{
    match m.get(key) {
        Some(v) => v,
        None => {
            let e = String::new();
            assert(e@ =~= Seq::<char>::empty());
            e
        },
    }
}

/// The guest state of a home page answer: the `ttwid`, `ssid` and
/// `s_v_web_id` cookies of its `Set-Cookie` values (empty when missing),
/// and the device id its embedded state names, or a random one when it names
/// none or an empty one.
pub fn guest_state_from_page(set_cookie_lines: &Vec<String>, html: &str) -> (r: TikTokGuestState)
    ensures
        ({
            let m = crate::cookie_map::collect_lines(
                Map::<Seq<char>, Seq<char>>::empty(),
                set_cookie_lines@.map_values(|l: String| l@),
            );
            &&& r.ttwid@ == map_value_or_empty(m, "ttwid"@)
            &&& r.ssid@ == map_value_or_empty(m, "ssid"@)
            &&& r.verify_fp@ == map_value_or_empty(m, "s_v_web_id"@)
            &&& match state_device_id(crate::cookies::first_some(crate::tiktok_page::state_candidates(html@))) {
                Some(d) => if d.len() > 0 {
                    r.device_id@ == d
                } else {
                    is_device_id(r.device_id@)
                },
                None => is_device_id(r.device_id@),
            }
        }),
{
    let cookies = crate::cookie_map::collect_cookie_map(set_cookie_lines);
    let ttwid = cookie_or_empty(&cookies, "ttwid");
    let ssid = cookie_or_empty(&cookies, "ssid");
    let verify_fp = cookie_or_empty(&cookies, "s_v_web_id");
    let state = crate::tiktok_page::extract_state_value(html);
    let named: Option<String> = match &state {
        Some(v) => match json_get_opt(json_get(v, "AppContext"), "wid") {
            Some(w) => match json_as_str(w) {
                Some(d) => Some(d),
                None => match json_get(v, "device_id") {
                    Some(x) => json_as_str(x),
                    None => None,
                },
            },
            None => match json_get(v, "device_id") {
                Some(x) => json_as_str(x),
                None => None,
            },
        },
        None => None,
    };
    let device_id = match named {
        Some(d) => if d.unicode_len() > 0 {
            d
        } else {
            crate::ids::gen_device_id()
        },
        None => crate::ids::gen_device_id(),
    };
    TikTokGuestState { ttwid, ssid, device_id, verify_fp }
}

#[derive(Debug)]
/// The device id, fingerprint and `ttwid` ticket a QR login starts from.
pub struct QrIdentity {
    pub device_id: String,
    pub verify_fp: String,
    pub ttwid_ticket: String,
}

/// A setting's value, or empty when it is not set.
pub open spec fn setting_or_empty(v: Option<Seq<char>>) -> Seq<char> {
    match v {
        Some(x) => x,
        None => Seq::<char>::empty(),
    }
}

/// An optional string, or an empty one.
fn string_or_empty(v: Option<String>) -> (r: String)
    ensures
        r@ == setting_or_empty(opt_view(v)),
{
    match v {
        Some(x) => x,
        None => {
            let e = String::new();
            assert(e@ =~= Seq::<char>::empty());
            e
        },
    }
}

/// `a` when it is not empty, else `b`.
pub open spec fn unless_empty(a: Seq<char>, b: Seq<char>) -> Seq<char> {
    if a.len() > 0 {
        a
    } else {
        b
    }
}

impl QrIdentity {
    /// The identity the saved settings give (each missing one empty).
    pub fn from_overrides(
        device_id: Option<String>,
        verify_fp: Option<String>,
        ttwid_ticket: Option<String>,
    ) -> (r: QrIdentity)
        ensures
            r.device_id@ == setting_or_empty(opt_view(device_id)),
            r.verify_fp@ == setting_or_empty(opt_view(verify_fp)),
            r.ttwid_ticket@ == setting_or_empty(opt_view(ttwid_ticket)),
    {
        QrIdentity {
            device_id: string_or_empty(device_id),
            verify_fp: string_or_empty(verify_fp),
            ttwid_ticket: string_or_empty(ttwid_ticket),
        }
    }

    /// One of the three is still empty, so the guest state is fetched.
    pub fn needs_guest_state(&self) -> (b: bool)
        ensures
            b == (self.device_id@.len() == 0 || self.verify_fp@.len() == 0
                || self.ttwid_ticket@.len() == 0),
    {
        self.device_id.unicode_len() == 0 || self.verify_fp.unicode_len() == 0
            || self.ttwid_ticket.unicode_len() == 0
    }

    /// Fills each empty part from the guest state (its `ttwid` as the
    /// ticket).
    pub fn adopt_guest_state(&mut self, guest: &TikTokGuestState)
        ensures
            final(self).device_id@ == unless_empty(old(self).device_id@, guest.device_id@),
            final(self).verify_fp@ == unless_empty(old(self).verify_fp@, guest.verify_fp@),
            final(self).ttwid_ticket@ == unless_empty(old(self).ttwid_ticket@, guest.ttwid@),
    {
        if self.device_id.unicode_len() == 0 {
            self.device_id = guest.device_id.clone();
        }
        if self.verify_fp.unicode_len() == 0 {
            self.verify_fp = guest.verify_fp.clone();
        }
        if self.ttwid_ticket.unicode_len() == 0 {
            self.ttwid_ticket = guest.ttwid.clone();
        }
    }

    /// Gives an empty device id a random one and an empty fingerprint the
    /// given one; the ticket stays.
    pub fn fill_fallbacks(&mut self, fallback_verify_fp: &str)
        ensures
            old(self).device_id@.len() > 0 ==> final(self).device_id@ == old(self).device_id@,
            old(self).device_id@.len() == 0 ==> is_device_id(final(self).device_id@),
            final(self).verify_fp@ == unless_empty(old(self).verify_fp@, fallback_verify_fp@),
            final(self).ttwid_ticket@ == old(self).ttwid_ticket@,
    {
        if self.device_id.unicode_len() == 0 {
            self.device_id = crate::ids::gen_device_id();
        }
        if self.verify_fp.unicode_len() == 0 {
            self.verify_fp = to_string_of(fallback_verify_fp);
        }
    }
}

/// The cookies a QR login request starts with: `ttwid` (the ticket, when
/// there is one), `s_v_web_id` (the fingerprint) and `msToken` (the saved
/// one, when set and not empty).
pub open spec fn initial_qr_cookies(
    ticket: Seq<char>,
    verify_fp: Seq<char>,
    ms_token: Option<Seq<char>>,
) -> Map<Seq<char>, Seq<char>> {
    let a = if ticket.len() > 0 {
        Map::<Seq<char>, Seq<char>>::empty().insert("ttwid"@, ticket)
    } else {
        Map::<Seq<char>, Seq<char>>::empty()
    };
    let b = a.insert("s_v_web_id"@, verify_fp);
    match ms_token {
        Some(t) => if t.len() > 0 {
            b.insert("msToken"@, t)
        } else {
            b
        },
        None => b,
    }
}

/// Exec `initial_qr_cookies`.
pub fn qr_initial_cookies(id: &QrIdentity, ms_token_override: Option<&str>) -> (m: CookieMap)
    ensures
        m.wf(),
        m@ == initial_qr_cookies(id.ttwid_ticket@, id.verify_fp@, crate::cookie_json::opt_str(ms_token_override)),
{
    let mut m = CookieMap::new();
    if id.ttwid_ticket.unicode_len() > 0 {
        m.insert("ttwid", id.ttwid_ticket.as_str());
    }
    m.insert("s_v_web_id", id.verify_fp.as_str());
    if let Some(t) = ms_token_override {
        if t.unicode_len() > 0 {
            m.insert("msToken", t);
        }
    }
    m
}

/// The token a QR login sends: its `msToken` cookie, else the fallback.
pub fn qr_ms_token(cookies: &CookieMap, fallback: String) -> (r: String)
    requires
        cookies.wf(),
    ensures
        r@ == (if cookies@.contains_key("msToken"@) {
            cookies@["msToken"@]
        } else {
            fallback@
        }),
{
    match cookies.get("msToken") {
        Some(t) => t,
        None => fallback,
    }
}

} // verus!

verus! {

// ---------------------------------------------------------------------------
// The QR code answer
// ---------------------------------------------------------------------------

#[derive(Debug)]
/// A QR code to show: the key to poll with, the page it opens and, when
/// TikTok sent one, its image.
pub struct TikTokQrInfo {
    pub oauth_key: String,
    pub url: String,
    pub image: Option<String>,
}

#[derive(Debug)]
/// A QR code and the `ttwid` ticket to save, when the answer brought a new
/// one.
pub struct QrLoginOutcome {
    pub info: TikTokQrInfo,
    pub persist_ticket: Option<String>,
}

/// The cookies after a QR code answer: the `Set-Cookie` values merged in, the
/// `x-ms-token` header as `msToken`, then the cookies the body names.
pub open spec fn qr_answer_cookies(
    start: Map<Seq<char>, Seq<char>>,
    lines: Seq<Seq<char>>,
    ms_header: Option<Seq<char>>,
    answer: JsonData,
) -> Map<Seq<char>, Seq<char>> {
    let a = start.union_prefer_right(
        crate::cookie_map::collect_lines(Map::<Seq<char>, Seq<char>>::empty(), lines),
    );
    let b = match ms_header {
        Some(v) => a.insert("msToken"@, v),
        None => a,
    };
    crate::cookie_json::json_cookie_merge(b, answer, None, 0)
}

/// The message of a QR code answer without `data`.
pub open spec fn missing_data_message() -> Seq<char> {
    "TikTok QR: missing data"@
}

/// A string member of `data`, or empty.
pub open spec fn data_str(d: JsonData, key: Seq<char>) -> Seq<char> {
    str_or(get(d, key), Seq::<char>::empty())
}

/// What a QR code answer gives, when it has `data`: the key (with the saved
/// ticket, else the answer's, and the cookie header), the index page, the
/// image when it is not empty, and the answer's ticket to save when there is
/// no saved one.
pub open spec fn qr_outcome_ok(
    d: JsonData,
    cookies: Map<Seq<char>, Seq<char>>,
    ms_token: Seq<char>,
    device_id: Seq<char>,
    verify_fp: Seq<char>,
    saved_ticket: Seq<char>,
    o: QrLoginOutcome,
) -> bool {
    let token = data_str(d, "token"@);
    let index_url = data_str(d, "qrcode_index_url"@);
    let answer_ticket = data_str(d, "ttwid_migration_ticket"@);
    let image = data_str(d, "qrcode"@);
    let ticket = unless_empty(saved_ticket, answer_ticket);
    &&& exists|h: Seq<char>|
        crate::cookie_map::is_cookie_string(cookies, h) && o.info.oauth_key@ == oauth_key_text(
            token,
            device_id,
            verify_fp,
            ms_token,
            ticket,
            h,
        )
    &&& o.info.url@ == index_url
    &&& opt_view(o.info.image) == (if image.len() > 0 {
        Some(image)
    } else {
        None
    })
    &&& opt_view(o.persist_ticket) == (if answer_ticket.len() > 0 && saved_ticket.len() == 0 {
        Some(answer_ticket)
    } else {
        None
    })
}

/// A string member of an object, or an empty string.
fn member_str_or_empty(d: &JsonValue, key: &str) -> (r: String)
    ensures
        r@ == data_str(d@, key@),
{
    match json_get(d, key) {
        Some(v) => match json_as_str(v) {
            Some(x) => x,
            None => {
                let e = String::new();
                assert(e@ =~= Seq::<char>::empty());
                e
            },
        },
        None => {
            let e = String::new();
            assert(e@ =~= Seq::<char>::empty());
            e
        },
    }
}

/// Reads the answer to a QR code request. `cookies` are the cookies the
/// request was sent with, `set_cookie_lines` and `ms_header` the answer's
/// `Set-Cookie` values and `x-ms-token` header, `saved_ticket` the saved
/// `ttwid` ticket (empty when none). Fails when the answer has no `data`.
pub fn finish_qr_login(
    answer: &JsonValue,
    set_cookie_lines: &Vec<String>,
    ms_header: Option<String>,
    cookies: CookieMap,
    ms_token: String,
    id: &QrIdentity,
    saved_ticket: &str,
) -> (r: Result<QrLoginOutcome, RecorderError>)
    requires
        cookies.wf(),
    ensures
        ({
            let final_cookies = qr_answer_cookies(
                cookies@,
                set_cookie_lines@.map_values(|l: String| l@),
                opt_view(ms_header),
                answer@,
            );
            let final_ms = match opt_view(ms_header) {
                Some(v) => v,
                None => ms_token@,
            };
            match get(answer@, "data"@) {
                Some(d) => r is Ok && qr_outcome_ok(
                    d,
                    final_cookies,
                    final_ms,
                    id.device_id@,
                    id.verify_fp@,
                    saved_ticket@,
                    r->Ok_0,
                ),
                None => r matches Err(RecorderError::ApiError { error }) && error@
                    == missing_data_message(),
            }
        }),
{
    let mut cookies = cookies;
    let mut ms_token = ms_token;
    let extra = crate::cookie_map::collect_cookie_map(set_cookie_lines);
    crate::cookie_map::merge_cookie_maps(&mut cookies, extra);
    if let Some(v) = ms_header {
        cookies.insert("msToken", v.as_str());
        ms_token = v;
    }
    crate::cookie_json::merge_cookie_map_from_json(&mut cookies, answer);
    let data = match json_get(answer, "data") {
        Some(d) => d,
        None => {
            return Err(RecorderError::ApiError { error: to_string_of("TikTok QR: missing data") });
        },
    };
    let token = member_str_or_empty(data, "token");
    let index_url = member_str_or_empty(data, "qrcode_index_url");
    let answer_ticket = member_str_or_empty(data, "ttwid_migration_ticket");
    let qrcode = member_str_or_empty(data, "qrcode");
    let image = if qrcode.unicode_len() > 0 {
        Some(qrcode)
    } else {
        None
    };
    let ticket: &str = if saved_ticket.unicode_len() > 0 {
        saved_ticket
    } else {
        answer_ticket.as_str()
    };
    let header = build_cookie_string(&cookies);
    let oauth_key = compose_oauth_key(
        token.as_str(),
        id.device_id.as_str(),
        id.verify_fp.as_str(),
        ms_token.as_str(),
        ticket,
        header.as_str(),
    );
    let persist_ticket = if answer_ticket.unicode_len() > 0 && saved_ticket.unicode_len() == 0 {
        Some(answer_ticket.clone())
    } else {
        None
    };
    Ok(QrLoginOutcome { info: TikTokQrInfo { oauth_key, url: index_url, image }, persist_ticket })
}

} // verus!

verus! {

// ---------------------------------------------------------------------------
// Polling a QR code
// ---------------------------------------------------------------------------

#[derive(Debug)]
/// Where a QR login stands: `code` 0 with the login cookies, 1 waiting for a
/// scan, 2 waiting for confirmation, 3 failed.
pub struct TikTokQrStatus {
    pub code: u8,
    pub cookies: String,
    pub message: String,
}

/// A status as code, cookies and message.
pub open spec fn status_view(s: TikTokQrStatus) -> (u8, Seq<char>, Seq<char>) {
    (s.code, s.cookies@, s.message@)
}

/// A status without cookies.
fn plain_status(code: u8, message: &str) -> (r: TikTokQrStatus)
    ensures
        status_view(r) == (code, Seq::<char>::empty(), message@),
{
    let cookies = String::new();
    assert(cookies@ =~= Seq::<char>::empty());
    TikTokQrStatus { code, cookies, message: to_string_of(message) }
}

/// The message of a poll refused during the cooldown.
pub open spec fn too_frequent_message() -> Seq<char> {
    "\u{8bbf}\u{95ee}\u{592a}\u{9891}\u{7e41}\u{ff0c}\u{8bf7}\u{7a0d}\u{540e}\u{518d}\u{8bd5}"@
}

/// The answer to a poll made during the cooldown: waiting, with the
/// too-frequent message.
pub fn qr_rate_limited_status() -> (r: TikTokQrStatus)
    ensures
        status_view(r) == (1u8, Seq::<char>::empty(), too_frequent_message()),
{
    plain_status(1, "\u{8bbf}\u{95ee}\u{592a}\u{9891}\u{7e41}\u{ff0c}\u{8bf7}\u{7a0d}\u{540e}\u{518d}\u{8bd5}")
}

/// A successful login with its cookie header.
fn ok_status(cookies: String) -> (r: TikTokQrStatus)
    ensures
        status_view(r) == (0u8, cookies@, "ok"@),
{
    TikTokQrStatus { code: 0, cookies, message: to_string_of("ok") }
}

/// The answer says `"message": "error"`.
pub open spec fn is_error_answer(j: JsonData) -> bool {
    as_str_opt(get(j, "message"@)) == Some("error"@)
}

/// Exec `is_error_answer`.
pub fn qr_answer_is_error(json: &JsonValue) -> (b: bool)
    ensures
        b == is_error_answer(json@),
{
    match json_get(json, "message") {
        Some(m) => match json_as_str(m) {
            Some(t) => {
                proof {
                    reveal_strlit("error");
                }
                same_str(t.as_str(), "error")
            },
            None => false,
        },
        None => false,
    }
}

/// `value_text` of an optional value.
pub open spec fn text_of(v: Option<JsonData>) -> Option<Seq<char>> {
    match v {
        Some(x) => value_text(x),
        None => None,
    }
}

/// Exec `text_of`.
fn text_of_ref(v: Option<&JsonValue>) -> (r: Option<String>)
    ensures
        opt_view(r) == text_of(crate::json::ref_data(v)),
{
    match v {
        Some(x) => value_to_string(x),
        None => None,
    }
}

/// The description of an error answer, or `TikTok QR error`.
pub open spec fn error_description(j: JsonData) -> Seq<char> {
    match text_of(get_opt(get(j, "data"@), "description"@)) {
        Some(d) => d,
        None => "TikTok QR error"@,
    }
}

/// An error answer is a rate limit: error code 7, or a description that says
/// "too frequent" or "try again later", or holds `rate` in any case.
pub open spec fn is_rate_limited(j: JsonData) -> bool {
    let d = error_description(j);
    ||| as_i64_opt(get_opt(get(j, "data"@), "error_code"@)) == Some(7i64)
    ||| contains(d, "\u{8bbf}\u{95ee}\u{592a}\u{9891}\u{7e41}"@)
    ||| contains(d, "\u{8bf7}\u{7a0d}\u{540e}\u{518d}\u{8bd5}"@)
    ||| contains(lower_seq(d), "rate"@)
}

/// The status an error answer gives, and whether it is a rate limit (which
/// starts the cooldown): code 1 when rate limited, else 3, with the
/// description as message.
pub fn qr_error_status(json: &JsonValue) -> (r: (TikTokQrStatus, bool))
    ensures
        r.1 == is_rate_limited(json@),
        status_view(r.0) == (
            if is_rate_limited(json@) {
                1u8
            } else {
                3u8
            },
            Seq::<char>::empty(),
            error_description(json@),
        ),
{
    let data = json_get(json, "data");
    let description = match text_of_ref(json_get_opt(data, "description")) {
        Some(d) => d,
        None => to_string_of("TikTok QR error"),
    };
    let code7 = match json_get_opt(data, "error_code") {
        Some(c) => match json_as_i64(c) {
            Some(n) => n == 7,
            None => false,
        },
        None => false,
    };
    let dc = chars_of(description.as_str());
    let lowered = lower_chars(dc.as_slice());
    let rate = code7 || contains_chars(dc.as_slice(), chars_of("\u{8bbf}\u{95ee}\u{592a}\u{9891}\u{7e41}").as_slice())
        || contains_chars(dc.as_slice(), chars_of("\u{8bf7}\u{7a0d}\u{540e}\u{518d}\u{8bd5}").as_slice())
        || contains_chars(lowered.as_slice(), chars_of("rate").as_slice());
    let cookies = String::new();
    assert(cookies@ =~= Seq::<char>::empty());
    (TikTokQrStatus { code: if rate { 1 } else { 3 }, cookies, message: description }, rate)
}

/// The status a status word gives: `success`, `confirm`, `scan` and
/// `scanned` wait for confirmation (2, `waiting_confirm`); `new` waits for a
/// scan (1); `expired`, `cancel` and `failed` fail (3); any other waits (1).
/// All but the first keep the word as message.
pub open spec fn status_of_word(w: Seq<char>) -> (u8, Seq<char>, Seq<char>) {
    if w == "success"@ || w == "confirm"@ || w == "scan"@ || w == "scanned"@ {
        (2u8, Seq::<char>::empty(), "waiting_confirm"@)
    } else if w == "new"@ {
        (1u8, Seq::<char>::empty(), w)
    } else if w == "expired"@ || w == "cancel"@ || w == "failed"@ {
        (3u8, Seq::<char>::empty(), w)
    } else {
        (1u8, Seq::<char>::empty(), w)
    }
}

/// What each status word the login page sends means: a scanned or
/// confirmed code waits for confirmation (2), a new code waits for a scan
/// (1), and an expired, cancelled or failed login has failed (3), keeping
/// the word as its message.
pub proof fn lemma_qr_status_words()
    ensures
        status_of_word("expired"@) == (3u8, Seq::<char>::empty(), "expired"@),
        status_of_word("cancel"@) == (3u8, Seq::<char>::empty(), "cancel"@),
        status_of_word("failed"@) == (3u8, Seq::<char>::empty(), "failed"@),
        status_of_word("new"@) == (1u8, Seq::<char>::empty(), "new"@),
        status_of_word("success"@).0 == 2 && status_of_word("confirm"@).0 == 2,
        status_of_word("scan"@).0 == 2 && status_of_word("scanned"@).0 == 2,
{
    lemma_status_literals();
}

/// The status words are different texts.
proof fn lemma_status_literals()
    ensures
        "expired"@ != "success"@ && "expired"@ != "confirm"@ && "expired"@ != "scan"@ && "expired"@
            != "scanned"@ && "expired"@ != "new"@,
        "cancel"@ != "success"@ && "cancel"@ != "confirm"@ && "cancel"@ != "scan"@ && "cancel"@
            != "scanned"@ && "cancel"@ != "new"@ && "cancel"@ != "expired"@,
        "failed"@ != "success"@ && "failed"@ != "confirm"@ && "failed"@ != "scan"@ && "failed"@
            != "scanned"@ && "failed"@ != "new"@ && "failed"@ != "expired"@ && "failed"@ != "cancel"@,
        "new"@ != "success"@ && "new"@ != "confirm"@ && "new"@ != "scan"@ && "new"@ != "scanned"@,
{
    reveal_strlit("expired");
    reveal_strlit("cancel");
    reveal_strlit("failed");
    reveal_strlit("new");
    reveal_strlit("success");
    reveal_strlit("confirm");
    reveal_strlit("scan");
    reveal_strlit("scanned");
    assert("expired"@[0] != "success"@[0] && "expired"@[0] != "confirm"@[0] && "expired"@[0] != "scanned"@[0]);
    assert("cancel"@[0] != "failed"@[0]);
    assert("expired"@.len() != "cancel"@.len() && "expired"@.len() != "failed"@.len());
    assert("new"@.len() == 3 && "success"@.len() == 7 && "confirm"@.len() == 7 && "scan"@.len() == 4
        && "scanned"@.len() == 7);
}

/// Exec `status_of_word`: an expired, cancelled or failed login fails (3)
/// with the word as message; a new code waits for a scan (1); a scanned or
/// confirmed one waits for confirmation (2).
pub fn qr_status_for(status: &str) -> (r: TikTokQrStatus)
    ensures
        status_view(r) == status_of_word(status@),
        status@ == "expired"@ || status@ == "cancel"@ || status@ == "failed"@ ==> r.code == 3 && r.message@
            == status@,
        status@ == "new"@ ==> r.code == 1 && r.message@ == status@,
        status@ == "success"@ || status@ == "confirm"@ || status@ == "scan"@ || status@ == "scanned"@
            ==> r.code == 2,
{
    proof {
        lemma_qr_status_words();
    }
    if same_str(status, "success") || same_str(status, "confirm") || same_str(status, "scan")
        || same_str(status, "scanned") {
        plain_status(2, "waiting_confirm")
    } else if same_str(status, "new") {
        plain_status(1, status)
    } else if same_str(status, "expired") || same_str(status, "cancel") || same_str(status, "failed") {
        plain_status(3, status)
    } else {
        plain_status(1, status)
    }
}

} // verus!

verus! {

/// The login link of a poll answer: `data.authnext`, else (only when that
/// member is absent) `data.auth_next`, as text.
pub open spec fn authnext_url(j: JsonData) -> Option<Seq<char>> {
    let d = get(j, "data"@);
    match get_opt(d, "authnext"@) {
        Some(x) => value_text(x),
        None => text_of(get_opt(d, "auth_next"@)),
    }
}

/// The redirect of a poll answer: `data.redirect_url` as text.
pub open spec fn redirect_url(j: JsonData) -> Option<Seq<char>> {
    text_of(get_opt(get(j, "data"@), "redirect_url"@))
}

/// The poll answer says the scan was confirmed: status code 0, sub-status
/// code 2001.
pub open spec fn check_passed(j: JsonData) -> bool {
    as_i64_opt(get(j, "status_code"@)) == Some(0i64) && as_i64_opt(get(j, "sub_status_code"@))
        == Some(2001i64)
}

/// The status word and target of an entry, when it has a status.
pub open spec fn entry_status(x: JsonData) -> Option<(Seq<char>, Option<Seq<char>>)> {
    match text_of(get(x, "status"@)) {
        Some(s) => Some((s, text_of(get(x, "target"@)))),
        None => None,
    }
}

/// The status word and target of a poll answer: from the first entry of
/// `data` when it is an array, from `data` when it is an object.
pub open spec fn status_entry(j: JsonData) -> Option<(Seq<char>, Option<Seq<char>>)> {
    match get(j, "data"@) {
        Some(JsonData::Array(items)) => if items.len() > 0 {
            entry_status(items[0])
        } else {
            None
        },
        Some(JsonData::Object(m)) => entry_status(JsonData::Object(m)),
        _ => None,
    }
}

/// The steps of reading a poll answer, in order; each later one is reached
/// when the earlier ones gave no login.
#[derive(Clone, Copy, Debug, PartialEq, Eq, Structural)]
pub enum QrStage {
    Authnext,
    Redirect,
    CheckPass,
    Target,
    StatusOnly,
    AfterBroadcast,
}

#[derive(Debug)]
/// What to do next with a poll answer.
pub enum QrNext {
    /// Follow this login link; a non-empty cookie header from it is the
    /// login, otherwise go on at `next`.
    Follow { url: String, next: QrStage },
    /// Ask the broadcast endpoint for the login cookies; without a login
    /// cookie among them go on at `AfterBroadcast`.
    AuthBroadcast,
    /// The poll's result.
    Finish(TikTokQrStatus),
}

/// The plan of a poll answer, in the terms of its specification.
pub enum QrPlan {
    Follow(Seq<char>, QrStage),
    AuthBroadcast,
    FinishWithCookies,
    Finish((u8, Seq<char>, Seq<char>)),
}

/// The answer's status, or `unknown`.
pub open spec fn plan_from_status(j: JsonData) -> QrPlan {
    match status_entry(j) {
        Some((w, _)) => QrPlan::Finish(status_of_word(w)),
        None => QrPlan::Finish((1u8, Seq::<char>::empty(), "unknown"@)),
    }
}

/// The answer's target link, else its status.
pub open spec fn plan_from_target(j: JsonData) -> QrPlan {
    match status_entry(j) {
        Some((_, Some(t))) => QrPlan::Follow(t, QrStage::StatusOnly),
        _ => plan_from_status(j),
    }
}

/// A confirmed scan: the answer's cookies when they hold a login, else the
/// broadcast; otherwise the target.
pub open spec fn plan_from_check(j: JsonData, login: bool) -> QrPlan {
    if check_passed(j) {
        if login {
            QrPlan::FinishWithCookies
        } else {
            QrPlan::AuthBroadcast
        }
    } else {
        plan_from_target(j)
    }
}

/// The redirect, else the confirmed scan.
pub open spec fn plan_from_redirect(j: JsonData, login: bool) -> QrPlan {
    match redirect_url(j) {
        Some(u) => QrPlan::Follow(u, QrStage::CheckPass),
        None => plan_from_check(j, login),
    }
}

/// What to do with a (non-error) poll answer at a stage; `login` says
/// whether the cookies collected so far hold a login cookie.
pub open spec fn qr_plan(j: JsonData, login: bool, stage: QrStage) -> QrPlan {
    match stage {
        QrStage::Authnext => match authnext_url(j) {
            Some(u) => QrPlan::Follow(u, QrStage::Redirect),
            None => plan_from_redirect(j, login),
        },
        QrStage::Redirect => plan_from_redirect(j, login),
        QrStage::CheckPass => plan_from_check(j, login),
        QrStage::Target => plan_from_target(j),
        QrStage::StatusOnly => plan_from_status(j),
        QrStage::AfterBroadcast => QrPlan::Finish((2u8, Seq::<char>::empty(), "waiting_confirm"@)),
    }
}

/// `n` carries out `p`; `cookies` are the cookies collected so far.
pub open spec fn carries_out(n: QrNext, p: QrPlan, cookies: Map<Seq<char>, Seq<char>>) -> bool {
    match p {
        QrPlan::Follow(u, s) => n matches QrNext::Follow { url, next } && url@ == u && next == s,
        QrPlan::AuthBroadcast => n is AuthBroadcast,
        QrPlan::FinishWithCookies => n matches QrNext::Finish(st) && st.code == 0 && st.message@
            == "ok"@ && crate::cookie_map::is_cookie_string(cookies, st.cookies@),
        QrPlan::Finish(v) => n matches QrNext::Finish(st) && status_view(st) == v,
    }
}

/// The entry's status word and target, when it has a status.
fn entry_status_exec(x: &JsonValue) -> (r: Option<(String, Option<String>)>)
    ensures
        match r {
            Some((s, t)) => entry_status(x@) == Some((s@, opt_view(t))),
            None => entry_status(x@) is None,
        },
{
    match text_of_ref(json_get(x, "status")) {
        Some(s) => Some((s, text_of_ref(json_get(x, "target")))),
        None => None,
    }
}

/// Exec `status_entry`.
fn status_entry_exec(json: &JsonValue) -> (r: Option<(String, Option<String>)>)
    ensures
        match r {
            Some((s, t)) => status_entry(json@) == Some((s@, opt_view(t))),
            None => status_entry(json@) is None,
        },
{
    match json_get(json, "data") {
        Some(d) => match d {
            JsonValue::Array(items) => {
                if items.len() > 0 {
                    proof {
                        crate::json::lemma_array_data(*items);
                    }
                    entry_status_exec(&items[0])
                } else {
                    proof {
                        crate::json::lemma_array_data(*items);
                    }
                    None
                }
            },
            JsonValue::Object(_) => entry_status_exec(d),
            _ => None,
        },
        None => None,
    }
}

/// Exec `plan_from_status`.
fn next_from_status(json: &JsonValue) -> (r: QrNext)
    ensures
        carries_out(r, plan_from_status(json@), Map::<Seq<char>, Seq<char>>::empty()),
{
    match status_entry_exec(json) {
        Some((w, _)) => QrNext::Finish(qr_status_for(w.as_str())),
        None => QrNext::Finish(plain_status(1, "unknown")),
    }
}

/// Decides the next step for a poll answer that is not an error, at
/// `stage`, with `cookies` collected so far (`qr_plan`).
pub fn qr_next(json: &JsonValue, cookies: &CookieMap, stage: QrStage) -> (r: QrNext)
    requires
        cookies.wf(),
    ensures
        carries_out(r, qr_plan(json@, crate::cookie_map::has_login(cookies@), stage), cookies@),
{
    let data = json_get(json, "data");
    if let QrStage::Authnext = stage {
        let link = match json_get_opt(data, "authnext") {
            Some(x) => value_to_string(x),
            None => text_of_ref(json_get_opt(data, "auth_next")),
        };
        if let Some(u) = link {
            return QrNext::Follow { url: u, next: QrStage::Redirect };
        }
    }
    if let QrStage::Authnext | QrStage::Redirect = stage {
        if let Some(u) = text_of_ref(json_get_opt(data, "redirect_url")) {
            return QrNext::Follow { url: u, next: QrStage::CheckPass };
        }
    }
    if let QrStage::Authnext | QrStage::Redirect | QrStage::CheckPass = stage {
        let status_code = match json_get(json, "status_code") {
            Some(v) => json_as_i64(v),
            None => None,
        };
        let sub_status_code = match json_get(json, "sub_status_code") {
            Some(v) => json_as_i64(v),
            None => None,
        };
        if status_code == Some(0i64) && sub_status_code == Some(2001i64) {
            if crate::cookie_map::has_login_cookie(cookies) {
                return QrNext::Finish(ok_status(build_cookie_string(cookies)));
            }
            return QrNext::AuthBroadcast;
        }
    }
    match stage {
        QrStage::AfterBroadcast => QrNext::Finish(plain_status(2, "waiting_confirm")),
        QrStage::StatusOnly => next_from_status(json),
        _ => match status_entry_exec(json) {
            Some((_, Some(t))) => QrNext::Follow { url: t, next: QrStage::StatusOnly },
            _ => next_from_status(json),
        },
    }
}

/// The login that following a link gave: a non-empty cookie header.
pub fn qr_followed(cookies: Option<String>) -> (r: Option<TikTokQrStatus>)
    ensures
        match cookies {
            Some(c) => if c@.len() > 0 {
                r matches Some(st) && status_view(st) == (0u8, c@, "ok"@)
            } else {
                r is None
            },
            None => r is None,
        },
{
    match cookies {
        Some(c) => if c.unicode_len() > 0 {
            Some(ok_status(c))
        } else {
            None
        },
        None => None,
    }
}

/// The login that the broadcast gave: its cookies when they hold a login
/// cookie, as a header.
pub fn qr_broadcast_done(cookies: Option<CookieMap>) -> (r: Option<TikTokQrStatus>)
    requires
        match cookies {
            Some(m) => m.wf(),
            None => true,
        },
    ensures
        match cookies {
            Some(m) => if crate::cookie_map::has_login(m@) {
                r matches Some(st) && st.code == 0 && st.message@ == "ok"@
                    && crate::cookie_map::is_cookie_string(m@, st.cookies@)
            } else {
                r is None
            },
            None => r is None,
        },
{
    match cookies {
        Some(m) => if crate::cookie_map::has_login_cookie(&m) {
            Some(ok_status(build_cookie_string(&m)))
        } else {
            None
        },
        None => None,
    }
}


/// The cookies a QR login poll starts from, given those the home page set:
/// the device's fingerprint as `s_v_web_id` when there is one, then the
/// token as `msToken`. The flag says whether a `ttwid` is still to be asked
/// for (none is among them).
pub fn poll_start_cookies(home: CookieMap, verify_fp: &str, ms_token: &str) -> (r: (CookieMap, bool))
    requires
        home.wf(),
    ensures
        r.0.wf(),
        r.0@ == (if verify_fp@.len() > 0 {
            home@.insert("s_v_web_id"@, verify_fp@)
        } else {
            home@
        }).insert("msToken"@, ms_token@),
        r.1 == !r.0@.contains_key("ttwid"@),
{
    let mut cookies = home;
    if crate::text::chars_of(verify_fp).len() > 0 {
        cookies.insert("s_v_web_id", verify_fp);
    }
    cookies.insert("msToken", ms_token);
    let need_ttwid = cookies.get("ttwid").is_none();
    (cookies, need_ttwid)
}

/// The `x-tt-passport-ttwid-ticket` header value of a QR key: its ticket,
/// when it has one that is not empty.
pub fn ticket_header(ticket: &Option<String>) -> (r: Option<String>)
    ensures
        match ticket {
            Some(t) => if t@.len() > 0 {
                r matches Some(v) && v@ == t@
            } else {
                r is None
            },
            None => r is None,
        },
{
    match ticket {
        Some(t) => if crate::text::chars_of(t.as_str()).len() > 0 {
            Some(to_string_of(t.as_str()))
        } else {
            None
        },
        None => None,
    }
}
} // verus!
