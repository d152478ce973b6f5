//! Cookie header strings: lookup of single cookies, normalisation of what a
//! user pastes, filtering and the login-cookie checks.
use vstd::prelude::*;
use hyper::header::HeaderValue;
use crate::text::{
    chars_of, contains, to_string_of, eq_ignore_case, eq_ignore_case_chars, has_char, join, join_chars,
    lemma_seq_lt_asym, lemma_seq_lt_total, lemma_seq_lt_trans, lower_seq, lt_chars, non_empty,
    seq_le, seq_lt, contains_chars, lower_chars, has_char_chars, push_all, eq_chars, slice_chars, split_once, split_once_chars, starts_with,
    starts_with_chars, string_of, trim, trim_chars, trimmed_parts, trimmed_parts_chars, views,
};

verus! {

// ---------------------------------------------------------------------------
// Specifications
// ---------------------------------------------------------------------------

/// The first present member of `s`.
pub open spec fn first_some<A>(s: Seq<Option<A>>) -> Option<A>
    decreases s.len(),
{
    if s.len() == 0 {
        None
    } else {
        match first_some(s.drop_last()) {
            Some(a) => Some(a),
            None => s.last(),
        }
    }
}

/// The trimmed pieces of a cookie header, split at `;`.
pub open spec fn cookie_parts(cookies: Seq<char>) -> Seq<Seq<char>> {
    trimmed_parts(cookies, ';')
}

/// `part` with the prefix `pre` removed, when it has that prefix.
pub open spec fn strip_prefix(part: Seq<char>, pre: Seq<char>) -> Option<Seq<char>> {
    if starts_with(part, pre) {
        Some(part.skip(pre.len() as int))
    } else {
        None
    }
}

/// The value of the first cookie piece that begins with `name=`.
pub open spec fn cookie_item(name: Seq<char>, cookies: Seq<char>) -> Option<Seq<char>> {
    first_some(cookie_parts(cookies).map_values(|p: Seq<char>| strip_prefix(p, name.push('='))))
}

/// The error text for a cookie that is not there.
pub open spec fn missing_message(name: Seq<char>) -> Seq<char> {
    "Invalid cookies: missing "@ + name
}

/// The value (untrimmed) of a piece whose trimmed key equals `name` up to
/// ASCII case.
pub open spec fn item_ci(part: Seq<char>, name: Seq<char>) -> Option<Seq<char>> {
    match split_once(part, '=') {
        Some((k, v)) => if eq_ignore_case(trim(k), name) {
            Some(v)
        } else {
            None
        },
        None => None,
    }
}

/// Case-insensitive cookie lookup.
pub open spec fn cookie_item_ci(name: Seq<char>, cookies: Seq<char>) -> Option<Seq<char>> {
    first_some(cookie_parts(cookies).map_values(|p: Seq<char>| item_ci(p, name)))
}

/// The separator `"; "` of cookie headers.
pub open spec fn semi_sep() -> Seq<char> {
    seq![';', ' ']
}

/// The ASCII character that a full-width `；`, `，` or `＝` stands for.
pub open spec fn fold_fullwidth(c: char) -> char {
    if c == '；' {
        ';'
    } else if c == '，' {
        ','
    } else if c == '＝' {
        '='
    } else {
        c
    }
}

/// `raw` with the full-width separators replaced by ASCII ones.
pub open spec fn fold_fullwidth_seq(raw: Seq<char>) -> Seq<char> {
    Seq::new(raw.len(), |i: int| fold_fullwidth(raw[i]))
}

/// A pasted cookie header in canonical form: full-width separators folded,
/// pieces trimmed, empty pieces dropped, joined by `"; "`.
pub open spec fn normalized_input(raw: Seq<char>) -> Seq<char> {
    join(non_empty(cookie_parts(fold_fullwidth_seq(raw))), semi_sep())
}

/// The `key=value` pairs of the non-empty pieces that hold `=`, with key
/// and value trimmed.
pub open spec fn trimmed_pairs(parts: Seq<Seq<char>>) -> Seq<Seq<char>>
    decreases parts.len(),
{
    if parts.len() == 0 {
        Seq::<Seq<char>>::empty()
    } else {
        let rest = trimmed_pairs(parts.drop_last());
        match split_once(parts.last(), '=') {
            Some((k, v)) => if parts.last().len() > 0 {
                rest.push(trim(k).push('=') + trim(v))
            } else {
                rest
            },
            None => rest,
        }
    }
}

/// `q` is in ascending order.
pub open spec fn sorted(q: Seq<Seq<char>>) -> bool {
    forall|i: int, j: int| 0 <= i < j < q.len() ==> seq_le(q[i], q[j])
}

/// The pairs of a cookie header, trimmed, for order-independent comparison.
pub open spec fn compare_pairs(cookies: Seq<char>) -> Seq<Seq<char>> {
    trimmed_pairs(cookie_parts(cookies))
}

/// `r` is the canonical comparison form of `cookies`: its pairs sorted and
/// joined by `"; "`.
pub open spec fn is_compare_form(cookies: Seq<char>, r: Seq<char>) -> bool {
    exists|q: Seq<Seq<char>>|
        #![trigger join(q, semi_sep())]
        sorted(q) && q.to_multiset() == compare_pairs(cookies).to_multiset() && r == join(
            q,
            semi_sep(),
        )
}

/// `part` begins with `field=`, compared without ASCII case.
pub open spec fn has_field_prefix(part: Seq<char>, field: Seq<char>) -> bool {
    starts_with(lower_seq(part), lower_seq(field).push('='))
}

/// `part` names none of `fields`.
pub open spec fn keeps_part(part: Seq<char>, fields: Seq<Seq<char>>) -> bool {
    forall|k: int| 0 <= k < fields.len() ==> !has_field_prefix(part, #[trigger] fields[k])
}

/// The members of `parts` that name none of `fields`.
pub open spec fn without_fields(parts: Seq<Seq<char>>, fields: Seq<Seq<char>>) -> Seq<Seq<char>>
    decreases parts.len(),
{
    if parts.len() == 0 {
        parts
    } else if keeps_part(parts.last(), fields) {
        without_fields(parts.drop_last(), fields).push(parts.last())
    } else {
        without_fields(parts.drop_last(), fields)
    }
}

/// The `key=value` pairs (trimmed) whose key and value are both non-empty.
pub open spec fn full_pairs(parts: Seq<Seq<char>>) -> Seq<Seq<char>>
    decreases parts.len(),
{
    if parts.len() == 0 {
        Seq::<Seq<char>>::empty()
    } else {
        let rest = full_pairs(parts.drop_last());
        match split_once(parts.last(), '=') {
            Some((k, v)) => if trim(k).len() > 0 && trim(v).len() > 0 {
                rest.push(trim(k).push('=') + trim(v))
            } else {
                rest
            },
            None => rest,
        }
    }
}

/// The trimmed value of a `kww` or `kwfv1` piece (any case), when non-empty.
pub open spec fn kww_item(part: Seq<char>) -> Option<Seq<char>> {
    match split_once(part, '=') {
        Some((k, v)) => if (lower_seq(trim(k)) == "kww"@ || lower_seq(trim(k)) == "kwfv1"@)
            && trim(v).len() > 0 {
            Some(trim(v))
        } else {
            None
        },
        None => None,
    }
}

/// The user id carried in the name of a `__user_<id>` cookie.
pub open spec fn user_name_item(part: Seq<char>) -> Option<Seq<char>> {
    match split_once(part, '=') {
        Some((k, _v)) => match strip_prefix(k, "__user_"@) {
            Some(uid) => if uid.len() > 0 {
                Some(uid)
            } else {
                None
            },
            None => None,
        },
        None => None,
    }
}

/// The first of two optional values that is present.
pub open spec fn or_else<A>(a: Option<A>, b: Option<A>) -> Option<A> {
    match a {
        Some(x) => Some(x),
        None => b,
    }
}

/// The TikTok user id held in a cookie header.
pub open spec fn tiktok_uid(cookies: Seq<char>) -> Option<Seq<char>> {
    or_else(
        first_some(cookie_parts(cookies).map_values(|p: Seq<char>| user_name_item(p))),
        or_else(cookie_item("sessionid"@, cookies), cookie_item("uid_tt"@, cookies)),
    )
}

/// The Douyin user id held in a cookie header.
pub open spec fn douyin_uid(cookies: Seq<char>) -> Option<Seq<char>> {
    or_else(
        cookie_item("uid_tt"@, cookies),
        or_else(cookie_item("uid_tt_ss"@, cookies), cookie_item("sessionid"@, cookies)),
    )
}

/// Number of non-empty pieces that hold `=`.
pub open spec fn pair_count(parts: Seq<Seq<char>>) -> nat
    decreases parts.len(),
{
    if parts.len() == 0 {
        0
    } else {
        pair_count(parts.drop_last()) + if parts.last().len() > 0 && has_char(
            parts.last(),
            '=',
        ) {
            1nat
        } else {
            0nat
        }
    }
}

/// A cookie header that holds one of Kuaishou's login tokens.
pub open spec fn is_kuaishou_login(cookies: Seq<char>) -> bool {
    let l = lower_seq(cookies);
    contains(l, "kuaishou.live.web_st="@) || contains(l, "kuaishou.live.web.at="@) || contains(
        l,
        "kuaishou.live.web_ph="@,
    ) || contains(l, "passtoken="@) || contains(l, "ssecurity="@)
}

/// A cookie header that holds all of Kuaishou's creator-platform cookies.
pub open spec fn is_kuaishou_full(cookies: Seq<char>) -> bool {
    let l = lower_seq(cookies);
    contains(l, "buserid="@) && contains(l, "kuaishou.web.cp.api_st="@) && contains(
        l,
        "kuaishou.web.cp.api_ph="@,
    ) && contains(l, "perf_dv6tr4n="@)
}

// ---------------------------------------------------------------------------
// Lemmas
// ---------------------------------------------------------------------------

/// Once a present member lies in a prefix, it is the first present member.
pub proof fn lemma_first_some_prefix<A>(s: Seq<Option<A>>, n: int)
    requires
        0 <= n <= s.len(),
        first_some(s.take(n)) is Some,
    ensures
        first_some(s) == first_some(s.take(n)),
    decreases s.len() - n,
{
    if n < s.len() {
        assert(s.take(n) =~= s.drop_last().take(n));
        lemma_first_some_prefix(s.drop_last(), n);
    } else {
        assert(s.take(n) =~= s);
    }
}

/// One step of a left-to-right search for the first present member.
pub proof fn lemma_first_some_step<A>(s: Seq<Option<A>>, i: int)
    requires
        0 <= i < s.len(),
        first_some(s.take(i)) is None,
    ensures
        first_some(s.take(i + 1)) == s[i],
        s[i] is Some ==> first_some(s) == s[i],
{
    assert(s.take(i + 1).drop_last() =~= s.take(i));
    if s[i] is Some {
        lemma_first_some_prefix(s, i + 1);
    }
}

// ---------------------------------------------------------------------------
// Executable helpers
// ---------------------------------------------------------------------------

/// The string `lit` followed by `tail`.
pub fn concat_str(lit: &str, tail: &str) -> (r: String)
    ensures
        r@ == lit@ + tail@,
{
    let mut r = String::new();
    r.append(lit);
    r.append(tail);
    assert(r@ =~= lit@ + tail@);
    r
}

/// `strip_prefix` on characters.
pub fn strip_prefix_chars(part: &[char], pre: &[char]) -> (r: Option<Vec<char>>)
    ensures
        match r {
            Some(v) => strip_prefix(part@, pre@) == Some(v@),
            None => strip_prefix(part@, pre@) is None,
        },
{
    if starts_with_chars(part, pre) {
        let v = slice_chars(part, pre.len(), part.len());
        assert(v@ =~= part@.skip(pre@.len() as int));
        Some(v)
    } else {
        None
    }
}

/// The first value of a piece starting with `pre`, over trimmed pieces.
fn find_prefixed(parts: &Vec<Vec<char>>, pre: &[char]) -> (r: Option<Vec<char>>)
    ensures
        match r {
            Some(v) => first_some(views(parts@).map_values(|p: Seq<char>| strip_prefix(p, pre@)))
                == Some(v@),
            None => first_some(
                views(parts@).map_values(|p: Seq<char>| strip_prefix(p, pre@)),
            ) is None,
        },
{
    let ghost m = views(parts@).map_values(|p: Seq<char>| strip_prefix(p, pre@));
    let mut i: usize = 0;
    assert(m.take(0) =~= Seq::<Option<Seq<char>>>::empty());
    while i < parts.len()
        invariant
            i <= parts.len(),
            m == views(parts@).map_values(|p: Seq<char>| strip_prefix(p, pre@)),
            first_some(m.take(i as int)) is None,
        decreases parts.len() - i,
    {
        proof {
            lemma_first_some_step(m, i as int);
        }
        match strip_prefix_chars(parts[i].as_slice(), pre) {
            Some(v) => {
                return Some(v);
            },
            None => {},
        }
        i = i + 1;
    }
    assert(m.take(parts.len() as int) =~= m);
    None
}

// ---------------------------------------------------------------------------
// Public operations
// ---------------------------------------------------------------------------

/// The value of cookie `name` in the header `cookies`: the rest of the first
/// `;`-separated piece (trimmed) that begins with `name=`.
pub fn get_item_from_cookies(name: &str, cookies: &str) -> (r: Result<String, String>)
    ensures
        match r {
            Ok(v) => cookie_item(name@, cookies@) == Some(v@),
            Err(e) => cookie_item(name@, cookies@) is None && e@ == missing_message(name@),
        },
{
    let cv = chars_of(cookies);
    let parts = trimmed_parts_chars(cv.as_slice(), ';');
    let mut pre = chars_of(name);
    pre.push('=');
    match find_prefixed(&parts, pre.as_slice()) {
        Some(v) => Ok(string_of(v.as_slice())),
        None => Err(concat_str("Invalid cookies: missing ", name)),
    }
}

/// Exec `item_ci`.
fn item_ci_chars(part: &[char], name: &[char]) -> (r: Option<Vec<char>>)
    ensures
        match r {
            Some(v) => item_ci(part@, name@) == Some(v@),
            None => item_ci(part@, name@) is None,
        },
{
    match split_once_chars(part, '=') {
        Some((k, v)) => {
            let kt = trim_chars(k.as_slice());
            if eq_ignore_case_chars(kt.as_slice(), name) {
                Some(v)
            } else {
                None
            }
        },
        None => None,
    }
}

/// Case-insensitive lookup: the (untrimmed) value of the first piece whose
/// trimmed key equals `name` up to ASCII case.
pub fn get_item_from_cookies_ci(name: &str, cookies: &str) -> (r: Result<String, String>)
    ensures
        match r {
            Ok(v) => cookie_item_ci(name@, cookies@) == Some(v@),
            Err(e) => cookie_item_ci(name@, cookies@) is None && e@ == missing_message(name@),
        },
{
    let cv = chars_of(cookies);
    let parts = trimmed_parts_chars(cv.as_slice(), ';');
    let nv = chars_of(name);
    let ghost m = cookie_parts(cookies@).map_values(|p: Seq<char>| item_ci(p, name@));
    let mut i: usize = 0;
    assert(m.take(0) =~= Seq::<Option<Seq<char>>>::empty());
    while i < parts.len()
        invariant
            i <= parts.len(),
            views(parts@) == cookie_parts(cookies@),
            nv@ == name@,
            m == cookie_parts(cookies@).map_values(|p: Seq<char>| item_ci(p, name@)),
            first_some(m.take(i as int)) is None,
        decreases parts.len() - i,
    {
        proof {
            lemma_first_some_step(m, i as int);
        }
        match item_ci_chars(parts[i].as_slice(), nv.as_slice()) {
            Some(v) => {
                return Ok(string_of(v.as_slice()));
            },
            None => {},
        }
        i = i + 1;
    }
    assert(m.take(parts.len() as int) =~= m);
    Err(concat_str("Invalid cookies: missing ", name))
}

/// The non-empty members of `parts`.
pub fn non_empty_parts(parts: &Vec<Vec<char>>) -> (r: Vec<Vec<char>>)
    ensures
        views(r@) == non_empty(views(parts@)),
{
    let mut r: Vec<Vec<char>> = Vec::new();
    let mut i: usize = 0;
    assert(views(parts@).take(0) =~= Seq::<Seq<char>>::empty());
    while i < parts.len()
        invariant
            i <= parts.len(),
            views(r@) == non_empty(views(parts@).take(i as int)),
        decreases parts.len() - i,
    {
        let ghost before = views(r@);
        assert(views(parts@).take(i as int + 1).drop_last() =~= views(parts@).take(i as int));
        if parts[i].len() > 0 {
            let p = parts[i].clone();
            r.push(p);
            assert(views(r@) =~= before.push(views(parts@)[i as int]));
        }
        i = i + 1;
    }
    assert(views(parts@).take(parts.len() as int) =~= views(parts@));
    r
}

/// The characters of `"; "`.
pub fn semi_sep_chars() -> (r: Vec<char>)
    ensures
        r@ == semi_sep(),
{
    let mut r: Vec<char> = Vec::new();
    r.push(';');
    r.push(' ');
    assert(r@ =~= semi_sep());
    r
}

/// Canonical form of a pasted cookie header: the full-width `；`, `，`, `＝`
/// become `;`, `,`, `=`, the pieces are trimmed, empty pieces are dropped and
/// the rest are joined by `"; "`.
pub fn normalize_cookie_input(raw: &str) -> (r: String)
    ensures
        r@ == normalized_input(raw@),
{
    let rv = chars_of(raw);
    let mut folded: Vec<char> = Vec::new();
    let mut i: usize = 0;
    while i < rv.len()
        invariant
            i <= rv.len(),
            folded@ == fold_fullwidth_seq(rv@.take(i as int)),
        decreases rv.len() - i,
    {
        let c = rv[i];
        let f = if c == '；' {
            ';'
        } else if c == '，' {
            ','
        } else if c == '＝' {
            '='
        } else {
            c
        };
        folded.push(f);
        i = i + 1;
        assert(folded@ =~= fold_fullwidth_seq(rv@.take(i as int)));
    }
    assert(rv@.take(rv@.len() as int) =~= rv@);
    let parts = trimmed_parts_chars(folded.as_slice(), ';');
    let kept = non_empty_parts(&parts);
    let sep = semi_sep_chars();
    let joined = join_chars(&kept, sep.as_slice());
    string_of(joined.as_slice())
}

/// Sorts character sequences in ascending order (insertion sort).
pub fn sort_parts(v: &Vec<Vec<char>>) -> (r: Vec<Vec<char>>)
    ensures
        sorted(views(r@)),
        views(r@).to_multiset() == views(v@).to_multiset(),
{
    let mut r: Vec<Vec<char>> = Vec::new();
    let mut i: usize = 0;
    assert(views(r@) =~= views(v@).take(0));
    while i < v.len()
        invariant
            i <= v.len(),
            sorted(views(r@)),
            views(r@).to_multiset() == views(v@).take(i as int).to_multiset(),
        decreases v.len() - i,
    {
        let x = v[i].clone();
        let mut j: usize = 0;
        while j < r.len() && !lt_chars(x.as_slice(), r[j].as_slice())
            invariant
                j <= r.len(),
                forall|k: int| 0 <= k < j ==> !seq_lt(x@, #[trigger] views(r@)[k]),
            decreases r.len() - j,
        {
            j = j + 1;
        }
        let ghost old_r = views(r@);
        let ghost xv = x@;
        r.insert(j, x);
        proof {
            assert(views(r@) =~= old_r.insert(j as int, xv));
            assert forall|a: int, b: int| 0 <= a < b < views(r@).len() implies seq_le(
                views(r@)[a],
                views(r@)[b],
            ) by {
                let ra = views(r@)[a];
                let rb = views(r@)[b];
                if a < j && b < j {
                    assert(ra == old_r[a] && rb == old_r[b]);
                } else if a < j && b == j {
                    lemma_seq_lt_total(xv, old_r[a]);
                } else if a < j && b > j {
                    assert(rb == old_r[b - 1]);
                } else if a == j {
                    assert(rb == old_r[b - 1]);
                    assert(seq_lt(xv, old_r[j as int]));
                    if b - 1 > j {
                        assert(seq_le(old_r[j as int], old_r[b - 1]));
                        if seq_lt(old_r[j as int], old_r[b - 1]) {
                            lemma_seq_lt_trans(xv, old_r[j as int], old_r[b - 1]);
                        }
                    }
                } else {
                    assert(ra == old_r[a - 1] && rb == old_r[b - 1]);
                }
            }
            assert(views(v@).take(i as int + 1) =~= views(v@).take(i as int).push(xv));
            vstd::seq_lib::to_multiset_insert(old_r, j as int, xv);
            vstd::seq_lib::to_multiset_build(views(v@).take(i as int), xv);
        }
        i = i + 1;
    }
    assert(views(v@).take(v.len() as int) =~= views(v@));
    r
}

/// Exec `trimmed_pairs`.
fn trimmed_pairs_chars(parts: &Vec<Vec<char>>) -> (r: Vec<Vec<char>>)
    ensures
        views(r@) == trimmed_pairs(views(parts@)),
{
    let mut r: Vec<Vec<char>> = Vec::new();
    let mut i: usize = 0;
    assert(views(parts@).take(0) =~= Seq::<Seq<char>>::empty());
    while i < parts.len()
        invariant
            i <= parts.len(),
            views(r@) == trimmed_pairs(views(parts@).take(i as int)),
        decreases parts.len() - i,
    {
        let ghost before = views(r@);
        assert(views(parts@).take(i as int + 1).drop_last() =~= views(parts@).take(i as int));
        if parts[i].len() > 0 {
            match split_once_chars(parts[i].as_slice(), '=') {
                Some((k, v)) => {
                    let mut pair = trim_chars(k.as_slice());
                    let ghost kt = pair@;
                    pair.push('=');
                    let vt = trim_chars(v.as_slice());
                    push_all(&mut pair, vt.as_slice());
                    let ghost pv = pair@;
                    r.push(pair);
                    assert(views(r@) =~= before.push(pv));
                },
                None => {},
            }
        }
        i = i + 1;
    }
    assert(views(parts@).take(parts.len() as int) =~= views(parts@));
    r
}

/// Order-independent form of a cookie header: the `key=value` pairs of its
/// non-empty pieces, with key and value trimmed, sorted and joined by `"; "`.
/// Pieces without `=` are dropped.
pub fn normalize_cookie_string_for_compare(cookies: &str) -> (r: String)
    ensures
        is_compare_form(cookies@, r@),
{
    let cv = chars_of(cookies);
    let parts = trimmed_parts_chars(cv.as_slice(), ';');
    let pairs = trimmed_pairs_chars(&parts);
    let sorted_pairs = sort_parts(&pairs);
    let sep = semi_sep_chars();
    let joined = join_chars(&sorted_pairs, sep.as_slice());
    let r = string_of(joined.as_slice());
    assert(sorted(views(sorted_pairs@)) && views(sorted_pairs@).to_multiset()
        == compare_pairs(cookies@).to_multiset() && r@ == join(views(sorted_pairs@), semi_sep()));
    r
}

/// `part` begins with `field=` up to ASCII case, on characters.
fn has_field_prefix_chars(part: &[char], field: &[char]) -> (b: bool)
    ensures
        b == has_field_prefix(part@, field@),
{
    let lp = lower_chars(part);
    let mut lf = lower_chars(field);
    lf.push('=');
    starts_with_chars(lp.as_slice(), lf.as_slice())
}

/// The pieces of `cookies` (trimmed, non-empty) that do not start with one
/// of `fields` followed by `=` (ASCII case ignored), joined by `"; "`.
pub fn strip_cookie_fields(cookies: &str, fields: &[&str]) -> (r: String)
    ensures
        r@ == join(
            without_fields(
                non_empty(cookie_parts(cookies@)),
                fields@.map_values(|f: &str| f@),
            ),
            semi_sep(),
        ),
{
    let ghost fs = fields@.map_values(|f: &str| f@);
    let cv = chars_of(cookies);
    let parts = trimmed_parts_chars(cv.as_slice(), ';');
    let parts = non_empty_parts(&parts);
    let mut fvs: Vec<Vec<char>> = Vec::new();
    let mut k: usize = 0;
    while k < fields.len()
        invariant
            k <= fields.len(),
            views(fvs@) == fs.take(k as int),
            fs == fields@.map_values(|f: &str| f@),
        decreases fields.len() - k,
    {
        let f = chars_of(fields[k]);
        let ghost before = views(fvs@);
        let ghost fv = f@;
        fvs.push(f);
        assert(views(fvs@) =~= before.push(fv));
        k = k + 1;
        assert(views(fvs@) =~= fs.take(k as int));
    }
    assert(fs.take(fields.len() as int) =~= fs);
    let mut kept: Vec<Vec<char>> = Vec::new();
    let mut i: usize = 0;
    assert(views(parts@).take(0) =~= Seq::<Seq<char>>::empty());
    while i < parts.len()
        invariant
            i <= parts.len(),
            views(fvs@) == fs,
            views(kept@) == without_fields(views(parts@).take(i as int), fs),
        decreases parts.len() - i,
    {
        let mut keep = true;
        let mut j: usize = 0;
        while j < fvs.len()
            invariant
                j <= fvs.len(),
                i < parts.len(),
                views(fvs@) == fs,
                keep == (forall|q: int| 0 <= q < j ==> !has_field_prefix(views(parts@)[i as int], #[trigger] fs[q])),
            decreases fvs.len() - j,
        {
            if has_field_prefix_chars(parts[i].as_slice(), fvs[j].as_slice()) {
                keep = false;
            }
            assert(fs[j as int] == fvs@[j as int]@);
            j = j + 1;
        }
        let ghost before = views(kept@);
        assert(views(parts@).take(i as int + 1).drop_last() =~= views(parts@).take(i as int));
        if keep {
            let p = parts[i].clone();
            kept.push(p);
            assert(views(kept@) =~= before.push(views(parts@)[i as int]));
        }
        i = i + 1;
    }
    assert(views(parts@).take(parts.len() as int) =~= views(parts@));
    let sep = semi_sep_chars();
    let joined = join_chars(&kept, sep.as_slice());
    string_of(joined.as_slice())
}

/// Kuaishou cookie header cleaned for sending: the `key=value` pieces whose
/// trimmed key and trimmed value are both non-empty, joined by `"; "`.
pub fn filter_kuaishou_cookie_header(cookies: &str) -> (r: String)
    ensures
        r@ == join(full_pairs(cookie_parts(cookies@)), semi_sep()),
{
    let cv = chars_of(cookies);
    let parts = trimmed_parts_chars(cv.as_slice(), ';');
    let mut kept: Vec<Vec<char>> = Vec::new();
    let mut i: usize = 0;
    assert(views(parts@).take(0) =~= Seq::<Seq<char>>::empty());
    while i < parts.len()
        invariant
            i <= parts.len(),
            views(kept@) == full_pairs(views(parts@).take(i as int)),
        decreases parts.len() - i,
    {
        let ghost before = views(kept@);
        assert(views(parts@).take(i as int + 1).drop_last() =~= views(parts@).take(i as int));
        match split_once_chars(parts[i].as_slice(), '=') {
            Some((k, v)) => {
                let mut kt = trim_chars(k.as_slice());
                let vt = trim_chars(v.as_slice());
                if kt.len() > 0 && vt.len() > 0 {
                    kt.push('=');
                    push_all(&mut kt, vt.as_slice());
                    let ghost pv = kt@;
                    kept.push(kt);
                    assert(views(kept@) =~= before.push(pv));
                }
            },
            None => {},
        }
        i = i + 1;
    }
    assert(views(parts@).take(parts.len() as int) =~= views(parts@));
    let sep = semi_sep_chars();
    let joined = join_chars(&kept, sep.as_slice());
    string_of(joined.as_slice())
}

/// The trimmed value of the first `kww` or `kwfv1` cookie (key compared
/// without ASCII case) whose value is not empty.
pub fn extract_kuaishou_kww(cookies: &str) -> (r: Option<String>)
    ensures
        match r {
            Some(v) => first_some(cookie_parts(cookies@).map_values(|p: Seq<char>| kww_item(p)))
                == Some(v@),
            None => first_some(
                cookie_parts(cookies@).map_values(|p: Seq<char>| kww_item(p)),
            ) is None,
        },
{
    let cv = chars_of(cookies);
    let parts = trimmed_parts_chars(cv.as_slice(), ';');
    let kww = chars_of("kww");
    let kwfv1 = chars_of("kwfv1");
    let ghost m = cookie_parts(cookies@).map_values(|p: Seq<char>| kww_item(p));
    let mut i: usize = 0;
    assert(m.take(0) =~= Seq::<Option<Seq<char>>>::empty());
    while i < parts.len()
        invariant
            i <= parts.len(),
            views(parts@) == cookie_parts(cookies@),
            kww@ == "kww"@,
            kwfv1@ == "kwfv1"@,
            m == cookie_parts(cookies@).map_values(|p: Seq<char>| kww_item(p)),
            first_some(m.take(i as int)) is None,
        decreases parts.len() - i,
    {
        proof {
            lemma_first_some_step(m, i as int);
        }
        match split_once_chars(parts[i].as_slice(), '=') {
            Some((k, v)) => {
                let kt = trim_chars(k.as_slice());
                let kl = lower_chars(kt.as_slice());
                let vt = trim_chars(v.as_slice());
                if (eq_chars(kl.as_slice(), kww.as_slice()) || eq_chars(
                    kl.as_slice(),
                    kwfv1.as_slice(),
                )) && vt.len() > 0 {
                    return Some(string_of(vt.as_slice()));
                }
            },
            None => {},
        }
        i = i + 1;
    }
    assert(m.take(parts.len() as int) =~= m);
    None
}

/// Exec `user_name_item`.
fn user_name_item_chars(part: &[char], pre: &[char]) -> (r: Option<Vec<char>>)
    requires
        pre@ == "__user_"@,
    ensures
        match r {
            Some(v) => user_name_item(part@) == Some(v@),
            None => user_name_item(part@) is None,
        },
{
    match split_once_chars(part, '=') {
        Some((k, _v)) => match strip_prefix_chars(k.as_slice(), pre) {
            Some(uid) => if uid.len() > 0 {
                Some(uid)
            } else {
                None
            },
            None => None,
        },
        None => None,
    }
}

/// No member of `s` is some: the first that is some is none.
proof fn lemma_first_some_none<A>(s: Seq<Option<A>>)
    requires
        forall|i: int| 0 <= i < s.len() ==> s[i] is None,
    ensures
        first_some(s) is None,
    decreases s.len(),
{
    if s.len() > 0 {
        lemma_first_some_none(s.drop_last());
        assert(s[s.len() - 1] is None);
    }
}

/// No piece of a cookie header names a `__user_<id>` cookie.
pub open spec fn no_user_name_cookie(cookies: Seq<char>) -> bool {
    forall|i: int| 0 <= i < cookie_parts(cookies).len() ==> user_name_item(#[trigger] cookie_parts(cookies)[i]) is None
}

/// Where a TikTok user id comes from: the id of the first piece that names
/// a `__user_<id>` cookie; without one, the `sessionid` cookie's value,
/// whatever other cookies (`uid_tt`) hold; without both, the `uid_tt`
/// cookie's value.
pub proof fn lemma_tiktok_uid_sources(cookies: Seq<char>)
    ensures
        forall|i: int|
            #![trigger cookie_parts(cookies)[i]]
            0 <= i < cookie_parts(cookies).len() && user_name_item(cookie_parts(cookies)[i]) is Some
                && (forall|j: int| 0 <= j < i ==> user_name_item(#[trigger] cookie_parts(cookies)[j]) is None)
                ==> tiktok_uid(cookies) == user_name_item(cookie_parts(cookies)[i]),
        no_user_name_cookie(cookies) ==> (cookie_item("sessionid"@, cookies) matches Some(v) ==> tiktok_uid(
            cookies,
        ) == Some(v)),
        no_user_name_cookie(cookies) && cookie_item("sessionid"@, cookies) is None ==> tiktok_uid(cookies)
            == cookie_item("uid_tt"@, cookies),
{
    let parts = cookie_parts(cookies);
    let m = parts.map_values(|p: Seq<char>| user_name_item(p));
    assert forall|i: int|
        #![trigger cookie_parts(cookies)[i]]
        0 <= i < parts.len() && user_name_item(parts[i]) is Some && (forall|j: int|
            0 <= j < i ==> user_name_item(#[trigger] cookie_parts(cookies)[j]) is None) implies tiktok_uid(cookies)
        == user_name_item(parts[i]) by {
        assert forall|j: int| 0 <= j < m.take(i).len() implies m.take(i)[j] is None by {
            assert(m.take(i)[j] == user_name_item(parts[j]));
        }
        lemma_first_some_none(m.take(i));
        lemma_first_some_step(m, i);
    }
    if no_user_name_cookie(cookies) {
        assert forall|j: int| 0 <= j < m.len() implies m[j] is None by {
            assert(m[j] == user_name_item(parts[j]));
        }
        lemma_first_some_none(m);
    }
}

/// The TikTok user id of a cookie header: the suffix of the first
/// `__user_<id>` cookie name with a non-empty `<id>`, else the `sessionid`
/// cookie, else the `uid_tt` cookie.
pub fn extract_tiktok_uid(cookies: &str) -> (r: Option<String>)
    ensures
        match r {
            Some(v) => tiktok_uid(cookies@) == Some(v@),
            None => tiktok_uid(cookies@) is None,
        },
        no_user_name_cookie(cookies@) ==> (cookie_item("sessionid"@, cookies@) matches Some(v) ==> (r matches Some(
            x,
        ) && x@ == v)),
{
    proof {
        lemma_tiktok_uid_sources(cookies@);
    }
    let cv = chars_of(cookies);
    let parts = trimmed_parts_chars(cv.as_slice(), ';');
    let pre = chars_of("__user_");
    let ghost m = cookie_parts(cookies@).map_values(|p: Seq<char>| user_name_item(p));
    let mut i: usize = 0;
    assert(m.take(0) =~= Seq::<Option<Seq<char>>>::empty());
    while i < parts.len()
        invariant
            i <= parts.len(),
            views(parts@) == cookie_parts(cookies@),
            pre@ == "__user_"@,
            m == cookie_parts(cookies@).map_values(|p: Seq<char>| user_name_item(p)),
            first_some(m.take(i as int)) is None,
        decreases parts.len() - i,
    {
        proof {
            lemma_first_some_step(m, i as int);
        }
        match user_name_item_chars(parts[i].as_slice(), pre.as_slice()) {
            Some(uid) => {
                return Some(string_of(uid.as_slice()));
            },
            None => {},
        }
        i = i + 1;
    }
    assert(m.take(parts.len() as int) =~= m);
    match get_item_from_cookies("sessionid", cookies) {
        Ok(v) => Some(v),
        Err(_) => match get_item_from_cookies("uid_tt", cookies) {
            Ok(v) => Some(v),
            Err(_) => None,
        },
    }
}

/// The Douyin user id of a cookie header: the `uid_tt` cookie, else
/// `uid_tt_ss`, else `sessionid`.
pub fn extract_douyin_uid(cookies: &str) -> (r: Option<String>)
    ensures
        match r {
            Some(v) => douyin_uid(cookies@) == Some(v@),
            None => douyin_uid(cookies@) is None,
        },
{
    match get_item_from_cookies("uid_tt", cookies) {
        Ok(v) => Some(v),
        Err(_) => match get_item_from_cookies("uid_tt_ss", cookies) {
            Ok(v) => Some(v),
            Err(_) => match get_item_from_cookies("sessionid", cookies) {
                Ok(v) => Some(v),
                Err(_) => None,
            },
        },
    }
}

/// Number of `;`-separated pieces that, trimmed, are non-empty and hold `=`.
pub fn cookie_pair_count(cookies: &str) -> (n: usize)
    ensures
        n == pair_count(cookie_parts(cookies@)),
{
    let cv = chars_of(cookies);
    let parts = trimmed_parts_chars(cv.as_slice(), ';');
    let mut n: usize = 0;
    let mut i: usize = 0;
    assert(views(parts@).take(0) =~= Seq::<Seq<char>>::empty());
    while i < parts.len()
        invariant
            i <= parts.len(),
            n == pair_count(views(parts@).take(i as int)),
            n <= i,
        decreases parts.len() - i,
    {
        assert(views(parts@).take(i as int + 1).drop_last() =~= views(parts@).take(i as int));
        if parts[i].len() > 0 && has_char_chars(parts[i].as_slice(), '=') {
            n = n + 1;
        }
        i = i + 1;
    }
    assert(views(parts@).take(parts.len() as int) =~= views(parts@));
    n
}

/// The header holds one of Kuaishou's login tokens (`kuaishou.live.web_st=`,
/// `kuaishou.live.web.at=`, `kuaishou.live.web_ph=`, `passtoken=`,
/// `ssecurity=`, ASCII case ignored).
pub fn is_kuaishou_login_cookie(cookies: &str) -> (b: bool)
    ensures
        b == is_kuaishou_login(cookies@),
{
    let cv = chars_of(cookies);
    let l = lower_chars(cv.as_slice());
    let a = chars_of("kuaishou.live.web_st=");
    let b = chars_of("kuaishou.live.web.at=");
    let c = chars_of("kuaishou.live.web_ph=");
    let d = chars_of("passtoken=");
    let e = chars_of("ssecurity=");
    contains_chars(l.as_slice(), a.as_slice()) || contains_chars(l.as_slice(), b.as_slice())
        || contains_chars(l.as_slice(), c.as_slice()) || contains_chars(l.as_slice(), d.as_slice())
        || contains_chars(l.as_slice(), e.as_slice())
}

/// The header holds all of `buserid=`, `kuaishou.web.cp.api_st=`,
/// `kuaishou.web.cp.api_ph=` and `perf_dv6tr4n=` (ASCII case ignored).
pub fn has_kuaishou_full_cookie(cookies: &str) -> (b: bool)
    ensures
        b == is_kuaishou_full(cookies@),
{
    let cv = chars_of(cookies);
    let l = lower_chars(cv.as_slice());
    let a = chars_of("buserid=");
    let b = chars_of("kuaishou.web.cp.api_st=");
    let c = chars_of("kuaishou.web.cp.api_ph=");
    let d = chars_of("perf_dv6tr4n=");
    contains_chars(l.as_slice(), a.as_slice()) && contains_chars(l.as_slice(), b.as_slice())
        && contains_chars(l.as_slice(), c.as_slice()) && contains_chars(l.as_slice(), d.as_slice())
}

/// One cookie of a header, as stored in the account's extra data.
#[derive(Debug)]
pub struct CookieItem {
    pub name: String,
    pub value: String,
}

/// The trimmed `(name, value)` pairs of the pieces that hold `=` and whose
/// trimmed name is not empty.
pub open spec fn cookie_list(parts: Seq<Seq<char>>) -> Seq<(Seq<char>, Seq<char>)>
    decreases parts.len(),
{
    if parts.len() == 0 {
        Seq::<(Seq<char>, Seq<char>)>::empty()
    } else {
        let rest = cookie_list(parts.drop_last());
        match split_once(parts.last(), '=') {
            Some((k, v)) => if trim(k).len() > 0 {
                rest.push((trim(k), trim(v)))
            } else {
                rest
            },
            None => rest,
        }
    }
}

/// The name and value of each item, as character sequences.
pub open spec fn item_views(items: Seq<CookieItem>) -> Seq<(Seq<char>, Seq<char>)> {
    items.map_values(|c: CookieItem| (c.name@, c.value@))
}

/// The cookies of a header as a list of name/value items, in order: every
/// piece that holds `=` and has a non-empty trimmed name, name and value
/// trimmed.
pub fn cookie_list_from_header(cookies: &str) -> (r: Vec<CookieItem>)
    ensures
        item_views(r@) == cookie_list(cookie_parts(cookies@)),
{
    let cv = chars_of(cookies);
    let parts = trimmed_parts_chars(cv.as_slice(), ';');
    let mut r: Vec<CookieItem> = Vec::new();
    let mut i: usize = 0;
    assert(views(parts@).take(0) =~= Seq::<Seq<char>>::empty());
    while i < parts.len()
        invariant
            i <= parts.len(),
            item_views(r@) == cookie_list(views(parts@).take(i as int)),
        decreases parts.len() - i,
    {
        let ghost before = item_views(r@);
        assert(views(parts@).take(i as int + 1).drop_last() =~= views(parts@).take(i as int));
        match split_once_chars(parts[i].as_slice(), '=') {
            Some((k, v)) => {
                let kt = trim_chars(k.as_slice());
                if kt.len() > 0 {
                    let vt = trim_chars(v.as_slice());
                    let item = CookieItem { name: string_of(kt.as_slice()), value: string_of(vt.as_slice()) };
                    let ghost iv = (item.name@, item.value@);
                    r.push(item);
                    assert(item_views(r@) =~= before.push(iv));
                }
            },
            None => {},
        }
        i = i + 1;
    }
    assert(views(parts@).take(parts.len() as int) =~= views(parts@));
    r
}

/// A character an HTTP header value may hold: a tab, or a character from
/// U+0020 up other than U+007F.
pub open spec fn header_char_ok(c: char) -> bool {
    c == '\t' || ((c as u32) >= 32 && (c as u32) != 127)
}

/// Every character of `s` may stand in an HTTP header value.
pub open spec fn header_value_ok(s: Seq<char>) -> bool {
    forall|i: int| 0 <= i < s.len() ==> header_char_ok(#[trigger] s[i])
}

/// The ASCII characters of `s`, in order.
pub open spec fn ascii_only(s: Seq<char>) -> Seq<char>
    decreases s.len(),
{
    if s.len() == 0 {
        s
    } else if (s.last() as u32) < 128 {
        ascii_only(s.drop_last()).push(s.last())
    } else {
        ascii_only(s.drop_last())
    }
}

/// The result of cleaning a pasted cookie header for use as a header value.
pub open spec fn sanitized_cookie(raw: Seq<char>) -> Option<Seq<char>> {
    let n = normalized_input(raw);
    if header_value_ok(n) {
        Some(n)
    } else if header_value_ok(ascii_only(n)) {
        Some(ascii_only(n))
    } else {
        None
    }
}

/// Wraps `hyper::header::HeaderValue::from_str`. In the http crate's source
/// the value is accepted exactly when each byte of its UTF-8 encoding is a
/// tab or lies in 32..=255 other than 127; a character above U+007F encodes
/// to bytes of 128 and more, so this is `header_value_ok` of the characters.
#[verifier::external_body]
pub(crate) fn header_value_accepts(s: &str) -> (b: bool)
    ensures
        b == header_value_ok(s@),
{
    HeaderValue::from_str(s).is_ok()
}

/// A pasted cookie header made fit for an HTTP header: its normal form
/// (`normalize_cookie_input`) when the header accepts it, else that form
/// without its non-ASCII characters when the header accepts that, else the
/// error `"Invalid cookies"`.
pub fn sanitize_cookie_header(raw: &str) -> (r: Result<String, String>)
    ensures
        match r {
            Ok(v) => sanitized_cookie(raw@) == Some(v@),
            Err(e) => sanitized_cookie(raw@) is None && e@ == "Invalid cookies"@,
        },
{
    let normalized = normalize_cookie_input(raw);
    if header_value_accepts(normalized.as_str()) {
        return Ok(normalized);
    }
    let nv = chars_of(normalized.as_str());
    let mut kept: Vec<char> = Vec::new();
    let mut i: usize = 0;
    assert(nv@.take(0) =~= Seq::<char>::empty());
    while i < nv.len()
        invariant
            i <= nv.len(),
            kept@ == ascii_only(nv@.take(i as int)),
        decreases nv.len() - i,
    {
        assert(nv@.take(i as int + 1).drop_last() =~= nv@.take(i as int));
        if (nv[i] as u32) < 128 {
            kept.push(nv[i]);
        }
        i = i + 1;
    }
    assert(nv@.take(nv.len() as int) =~= nv@);
    let ascii = string_of(kept.as_slice());
    if header_value_accepts(ascii.as_str()) {
        return Ok(ascii);
    }
    Err(to_string_of("Invalid cookies"))
}

} // verus!
