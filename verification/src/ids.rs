//! Identifiers: user ids found in cookie headers or pages, digests in hex,
//! and the random device ids and user agents sent to the platforms.
use vstd::prelude::*;
use rand::Rng;
use vstd::string::StringSliceAdditionalSpecFns;
use crate::cookies::{cookie_item, get_item_from_cookies};
use crate::text::{string_of, to_string_of, trim, trim_chars, chars_of};

verus! {

// ---------------------------------------------------------------------------
// Hex
// ---------------------------------------------------------------------------

/// The lowercase hex digit of `n` (below 16).
pub open spec fn hex_digit(n: int) -> char {
    if n < 10 {
        ((48 + n) as u32) as char
    } else {
        ((87 + n) as u32) as char
    }
}

/// Lowercase hex of bytes, two digits per byte (`{:02x}`).
pub open spec fn hex_lower(bytes: Seq<u8>) -> Seq<char>
    decreases bytes.len(),
{
    if bytes.len() == 0 {
        Seq::<char>::empty()
    } else {
        let b = bytes.last();
        hex_lower(bytes.drop_last()).push(hex_digit(b as int / 16)).push(hex_digit(b as int % 16))
    }
}

/// Exec `hex_digit`.
pub fn hex_digit_char(n: u8) -> (c: char)
    requires
        n < 16,
    ensures
        c == hex_digit(n as int),
{
    if n < 10 {
        (48u8 + n) as char
    } else {
        (87u8 + n) as char
    }
}

/// Appends the lowercase hex of `bytes` to `out`.
pub fn push_hex(out: &mut Vec<char>, bytes: &[u8])
    ensures
        final(out)@ == old(out)@ + hex_lower(bytes@),
{
    let mut i: usize = 0;
    assert(bytes@.take(0) =~= Seq::<u8>::empty());
    assert(old(out)@ + hex_lower(bytes@.take(0)) =~= old(out)@);
    while i < bytes.len()
        invariant
            i <= bytes.len(),
            out@ == old(out)@ + hex_lower(bytes@.take(i as int)),
        decreases bytes.len() - i,
    {
        let b = bytes[i];
        assert(bytes@.take(i as int + 1).drop_last() =~= bytes@.take(i as int));
        out.push(hex_digit_char(b / 16));
        out.push(hex_digit_char(b % 16));
        i = i + 1;
        assert(out@ =~= old(out)@ + hex_lower(bytes@.take(i as int)));
    }
    assert(bytes@.take(bytes.len() as int) =~= bytes@);
}

// ---------------------------------------------------------------------------
// Digits after a marker
// ---------------------------------------------------------------------------

/// An ASCII digit byte.
pub open spec fn is_digit_byte(b: u8) -> bool {
    48 <= b && b <= 57
}

/// First index from `j` below `max` that holds a digit (or `max`).
pub open spec fn skip_non_digits(t: Seq<u8>, j: int, max: int) -> int
    decreases max - j,
{
    if j < max && 0 <= j < t.len() && !is_digit_byte(t[j]) {
        skip_non_digits(t, j + 1, max)
    } else {
        j
    }
}

/// First index from `j` below `max` that holds no digit (or `max`).
pub open spec fn skip_digits(t: Seq<u8>, j: int, max: int) -> int
    decreases max - j,
{
    if j < max && 0 <= j < t.len() && is_digit_byte(t[j]) {
        skip_digits(t, j + 1, max)
    } else {
        j
    }
}

/// The digit run found after the marker at `i`: the first digits within 200
/// bytes after the marker, if any.
pub open spec fn digits_after(t: Seq<u8>, m: Seq<u8>, i: int) -> Option<Seq<u8>> {
    let j0 = i + m.len();
    let max = if j0 + 200 < t.len() {
        j0 + 200
    } else {
        t.len() as int
    };
    let start = skip_non_digits(t, j0, max);
    let end = skip_digits(t, start, max);
    if end > start {
        Some(t.subrange(start, end))
    } else {
        None
    }
}

/// Scan for the marker from `i` on; the digits after the first occurrence
/// that has some.
pub open spec fn scan_marker(t: Seq<u8>, m: Seq<u8>, i: int) -> Option<Seq<u8>>
    decreases t.len() + 1 - i,
{
    if i < 0 || i + m.len() > t.len() {
        None
    } else if t.subrange(i, i + m.len()) == m && digits_after(t, m, i) is Some {
        digits_after(t, m, i)
    } else {
        scan_marker(t, m, i + 1)
    }
}

/// The digits that follow the first occurrence of `m` in `t` that is
/// followed, within 200 bytes, by a digit.
pub open spec fn numeric_after_marker(t: Seq<u8>, m: Seq<u8>) -> Option<Seq<u8>> {
    if m.len() == 0 || t.len() < m.len() {
        None
    } else {
        scan_marker(t, m, 0)
    }
}

/// The characters of an ASCII digit byte sequence.
pub open spec fn digit_chars(d: Seq<u8>) -> Seq<char> {
    Seq::new(d.len(), |i: int| (d[i] as u32) as char)
}

/// `numeric_after_marker` as text.
pub open spec fn numeric_text(t: Seq<u8>, m: Seq<u8>) -> Option<Seq<char>> {
    match numeric_after_marker(t, m) {
        Some(d) => Some(digit_chars(d)),
        None => None,
    }
}

/// Exec `digits_after`, as a byte range.
fn digits_after_range(t: &[u8], m_len: usize, i: usize) -> (r: (usize, usize))
    requires
        i + m_len <= t.len(),
    ensures
        r.0 <= r.1 <= t.len(),
        digits_after(t@, t@.subrange(i as int, i + m_len), i as int) is Some <==> r.1 > r.0,
        r.1 > r.0 ==> digits_after(t@, t@.subrange(i as int, i + m_len), i as int) == Some(
            t@.subrange(r.0 as int, r.1 as int),
        ),
{
    let ghost m = t@.subrange(i as int, i + m_len);
    let j0 = i + m_len;
    let max = if t.len() - j0 > 200 {
        j0 + 200
    } else {
        t.len()
    };
    assert(max as int == (if j0 + 200 < t@.len() {
        j0 + 200
    } else {
        t@.len() as int
    }));
    let mut j = j0;
    while j < max && !(48 <= t[j] && t[j] <= 57)
        invariant
            j0 <= j <= max <= t.len(),
            skip_non_digits(t@, j0 as int, max as int) == skip_non_digits(
                t@,
                j as int,
                max as int,
            ),
        decreases max - j,
    {
        j = j + 1;
    }
    let start = j;
    while j < max && 48 <= t[j] && t[j] <= 57
        invariant
            start <= j <= max <= t.len(),
            skip_digits(t@, start as int, max as int) == skip_digits(t@, j as int, max as int),
        decreases max - j,
    {
        j = j + 1;
    }
    (start, j)
}

/// The digits (as text) that follow the first occurrence of `marker` in
/// `text` that has a digit within 200 bytes after it; the search skips
/// non-digits first, then takes the run of digits.
pub fn extract_numeric_after_marker(text: &str, marker: &str) -> (r: Option<String>)
    ensures
        match r {
            Some(v) => numeric_text(text.spec_bytes(), marker.spec_bytes()) == Some(v@),
            None => numeric_text(text.spec_bytes(), marker.spec_bytes()) is None,
        },
{
    let bytes = text.as_bytes();
    let needle = marker.as_bytes();
    if needle.len() == 0 || bytes.len() < needle.len() {
        return None;
    }
    let mut i: usize = 0;
    while i <= bytes.len() - needle.len()
        invariant
            0 < needle.len() <= bytes.len(),
            bytes@ == text.spec_bytes(),
            needle@ == marker.spec_bytes(),
            i <= bytes.len() - needle.len() + 1,
            numeric_after_marker(bytes@, needle@) == scan_marker(bytes@, needle@, i as int),
        decreases bytes.len() - i,
    {
        let mut matched = true;
        let mut k: usize = 0;
        while k < needle.len()
            invariant
                i + needle.len() <= bytes.len(),
                k <= needle.len(),
                matched == (forall|q: int| 0 <= q < k ==> bytes@[i + q] == needle@[q]),
            decreases needle.len() - k,
        {
            if bytes[i + k] != needle[k] {
                matched = false;
            }
            k = k + 1;
        }
        proof {
            if matched {
                assert(bytes@.subrange(i as int, i + needle@.len()) =~= needle@);
            } else {
                if bytes@.subrange(i as int, i + needle@.len()) == needle@ {
                    assert forall|q: int| 0 <= q < needle@.len() implies bytes@[i + q]
                        == needle@[q] by {
                        assert(bytes@.subrange(i as int, i + needle@.len())[q] == bytes@[i + q]);
                    }
                }
            }
        }
        if matched {
            let (start, end) = digits_after_range(bytes, needle.len(), i);
            assert(bytes@.subrange(i as int, i + needle@.len()) == needle@);
            if end > start {
                assert(scan_marker(bytes@, needle@, i as int) == digits_after(
                    bytes@,
                    needle@,
                    i as int,
                ));
                let mut out: Vec<char> = Vec::new();
                let mut p: usize = start;
                while p < end
                    invariant
                        start <= p <= end <= bytes.len(),
                        out@ == digit_chars(bytes@.subrange(start as int, p as int)),
                    decreases end - p,
                {
                    out.push(bytes[p] as char);
                    p = p + 1;
                    assert(out@ =~= digit_chars(bytes@.subrange(start as int, p as int)));
                }
                assert(p == end);
                assert(numeric_after_marker(bytes@, needle@) == Some(
                    bytes@.subrange(start as int, end as int),
                ));
                let res = string_of(out.as_slice());
                assert(res@ == digit_chars(bytes@.subrange(start as int, end as int)));
                return Some(res);
            }
        }
        i = i + 1;
    }
    assert(scan_marker(bytes@, needle@, i as int) is None);
    None
}

// ---------------------------------------------------------------------------
// Fallback user id
// ---------------------------------------------------------------------------

/// Name for what `md5::compute` returns on the UTF-8 bytes of a text.
pub uninterp spec fn md5_digest(s: Seq<char>) -> Seq<u8>;

/// Wraps `md5::compute` on the bytes of `s`; the contract names the 16-byte
/// digest as `md5_digest` of the text and claims nothing more of it.
#[verifier::external_body]
fn md5_of(s: &str) -> (r: [u8; 16])
    ensures
        r@ == md5_digest(s@),
{
    md5::compute(s).0
}

/// The known user-id cookies tried, in order, by `fallback_uid_from_cookies`.
pub open spec fn uid_keys() -> Seq<Seq<char>> {
    seq!["userId"@, "user_id"@, "uid"@, "sec_uid"@, "yyuid"@]
}

/// The first of `keys` whose cookie value, trimmed, is not empty.
pub open spec fn first_uid(keys: Seq<Seq<char>>, cookies: Seq<char>) -> Option<Seq<char>>
    decreases keys.len(),
{
    if keys.len() == 0 {
        None
    } else {
        match first_uid(keys.drop_last(), cookies) {
            Some(v) => Some(v),
            None => match cookie_item(keys.last(), cookies) {
                Some(v) => if trim(v).len() > 0 {
                    Some(v)
                } else {
                    None
                },
                None => None,
            },
        }
    }
}

/// A user id for a cookie header: the value of the first of `userId`,
/// `user_id`, `uid`, `sec_uid`, `yyuid` that is present and not blank, else
/// `cookie_` followed by the lowercase hex MD5 of the header.
pub fn fallback_uid_from_cookies(cookies: &str) -> (r: String)
    ensures
        r@ == match first_uid(uid_keys(), cookies@) {
            Some(v) => v,
            None => "cookie_"@ + hex_lower(md5_digest(cookies@)),
        },
{
    let keys: [&str; 5] = ["userId", "user_id", "uid", "sec_uid", "yyuid"];
    let ghost ks = uid_keys();
    assert(keys@.map_values(|k: &str| k@) =~= ks);
    let mut i: usize = 0;
    assert(ks.take(0) =~= Seq::<Seq<char>>::empty());
    while i < 5
        invariant
            i <= 5,
            keys@.map_values(|k: &str| k@) == ks,
            ks == uid_keys(),
            first_uid(ks.take(i as int), cookies@) is None,
        decreases 5 - i,
    {
        assert(ks.take(i as int + 1).drop_last() =~= ks.take(i as int));
        assert(keys[i as int]@ == ks[i as int]);
        match get_item_from_cookies(keys[i], cookies) {
            Ok(val) => {
                let vc = chars_of(val.as_str());
                let t = trim_chars(vc.as_slice());
                if t.len() > 0 {
                    proof {
                        assert(ks.take(i as int + 1).last() == ks[i as int]);
                        assert(cookie_item(ks[i as int], cookies@) == Some(val@));
                        assert(first_uid(ks.take(i as int + 1), cookies@) == Some(val@));
                        lemma_first_uid_prefix(ks, i as int + 1, cookies@);
                        assert(first_uid(uid_keys(), cookies@) == Some(val@));
                    }
                    return val;
                }
            },
            Err(_) => {},
        }
        i = i + 1;
    }
    assert(ks.take(5) =~= ks);
    md5_cookie_id(cookies)
}

/// `cookie_` followed by the lowercase hex MD5 digest of `s`.
pub fn md5_cookie_id(s: &str) -> (r: String)
    ensures
        r@ == "cookie_"@ + hex_lower(md5_digest(s@)),
{
    let digest = md5_of(s);
    let mut out = chars_of("cookie_");
    push_hex(&mut out, &digest);
    string_of(out.as_slice())
}

/// Once found in a prefix of the keys, the value is the one of all keys.
pub proof fn lemma_first_uid_prefix(keys: Seq<Seq<char>>, n: int, cookies: Seq<char>)
    requires
        0 <= n <= keys.len(),
        first_uid(keys.take(n), cookies) is Some,
    ensures
        first_uid(keys, cookies) == first_uid(keys.take(n), cookies),
    decreases keys.len() - n,
{
    if n < keys.len() {
        assert(keys.take(n) =~= keys.drop_last().take(n));
        lemma_first_uid_prefix(keys.drop_last(), n, cookies);
    } else {
        assert(keys.take(n) =~= keys);
    }
}

// ---------------------------------------------------------------------------
// Random identifiers
// ---------------------------------------------------------------------------

/// Wraps `Rng::fill` of `rand::rng()` on a 16-byte array. The bytes are
/// random; nothing is claimed of them.
#[verifier::external_body]
fn random_bytes_16() -> (r: [u8; 16]) {
    let mut bytes = [0u8; 16];
    rand::rng().fill(&mut bytes);
    bytes
}

/// Wraps `Rng::random_range(0..n)` of `rand::rng()`: per rand's documentation
/// a value of the half-open range (it panics on an empty range, which
/// `requires` rules out).
#[verifier::external_body]
fn random_below(n: usize) -> (r: usize)
    requires
        n > 0,
    ensures
        r < n,
{
    rand::rng().random_range(0..n)
}

/// The Kuaishou web device id made of the given bytes: `web_` and their
/// lowercase hex.
pub fn kuaishou_web_did(bytes: &[u8]) -> (r: String)
    ensures
        r@ == "web_"@ + hex_lower(bytes@),
{
    let mut out = chars_of("web_");
    push_hex(&mut out, bytes);
    string_of(out.as_slice())
}

/// A fresh Kuaishou web device id: `web_` and the hex of 16 random bytes.
pub fn gen_kuaishou_web_did() -> (r: String)
    ensures
        exists|b: Seq<u8>| b.len() == 16 && r@ == "web_"@ + hex_lower(b),
{
    let bytes = random_bytes_16();
    let r = kuaishou_web_did(&bytes);
    assert(bytes@.len() == 16 && r@ == "web_"@ + hex_lower(bytes@));
    r
}

/// The desktop Chrome user agents Kuaishou requests pick from.
pub open spec fn kuaishou_user_agents() -> Seq<Seq<char>> {
    seq![
        "Mozilla/5.0 (Windows NT 10.0; Win64; x64) AppleWebKit/537.36 (KHTML, like Gecko) Chrome/120.0.0.0 Safari/537.36"@,
        "Mozilla/5.0 (Windows NT 10.0; Win64; x64) AppleWebKit/537.36 (KHTML, like Gecko) Chrome/121.0.0.0 Safari/537.36"@,
        "Mozilla/5.0 (Windows NT 10.0; Win64; x64) AppleWebKit/537.36 (KHTML, like Gecko) Chrome/122.0.0.0 Safari/537.36"@,
    ]
}

/// One of the Kuaishou user agents, picked at random.
pub fn random_kuaishou_user_agent() -> (r: String)
    ensures
        kuaishou_user_agents().contains(r@),
{
    let uas: [&str; 3] = [
        "Mozilla/5.0 (Windows NT 10.0; Win64; x64) AppleWebKit/537.36 (KHTML, like Gecko) Chrome/120.0.0.0 Safari/537.36",
        "Mozilla/5.0 (Windows NT 10.0; Win64; x64) AppleWebKit/537.36 (KHTML, like Gecko) Chrome/121.0.0.0 Safari/537.36",
        "Mozilla/5.0 (Windows NT 10.0; Win64; x64) AppleWebKit/537.36 (KHTML, like Gecko) Chrome/122.0.0.0 Safari/537.36",
    ];
    let idx = random_below(3);
    let r = to_string_of(uas[idx]);
    assert(kuaishou_user_agents()[idx as int] == r@);
    r
}

/// A TikTok web device id: 19 random decimal digits.
pub fn gen_device_id() -> (r: String)
    ensures
        r@.len() == 19,
        forall|i: int| 0 <= i < 19 ==> '0' <= #[trigger] r@[i] && r@[i] <= '9',
{
    let mut out: Vec<char> = Vec::new();
    let mut i: usize = 0;
    while i < 19
        invariant
            i <= 19,
            out@.len() == i,
            forall|k: int| 0 <= k < i ==> '0' <= #[trigger] out@[k] && out@[k] <= '9',
        decreases 19 - i,
    {
        let d = random_below(10) as u8;
        out.push((48u8 + d) as char);
        i = i + 1;
    }
    string_of(out.as_slice())
}

} // verus!
