//! The library's laws: properties that relate several operations, stated
//! over the specifications the operations' contracts use.
use vstd::prelude::*;
use crate::cookie_map::{
    distinct_keys, entries_map, has_key, is_cookie_string, is_listing, pair_text, parse_map,
};
use crate::cookies::{compare_pairs, cookie_parts, is_compare_form, semi_sep, sorted};
use crate::tiktok::mobile_url;
use crate::text::{
    contains, find_first, has_char, is_ws, join, occurs_at, replace_all, starts_with, lemma_seq_lt_asym, lemma_split_char_append,
    lemma_split_char_single, seq_le, split_char, split_once, trim, trim_end, trim_start,
    trimmed_parts,
};

verus! {

/// `seq_le` is antisymmetric.
proof fn lemma_seq_le_antisym(a: Seq<char>, b: Seq<char>)
    requires
        seq_le(a, b),
        seq_le(b, a),
    ensures
        a == b,
{
    if a != b {
        lemma_seq_lt_asym(a, b);
    }
}

/// The last element of a non-empty sorted sequence is at least every element.
proof fn lemma_sorted_last_max(q: Seq<Seq<char>>, x: Seq<char>)
    requires
        sorted(q),
        q.len() > 0,
        q.contains(x),
    ensures
        seq_le(x, q.last()),
{
    let j = choose|j: int| 0 <= j < q.len() && q[j] == x;
    if j < q.len() - 1 {
        assert(seq_le(q[j], q[q.len() - 1]));
    }
}

/// Two sorted sequences that hold the same multiset of pairs are equal.
pub proof fn lemma_sorted_permutation_unique(q1: Seq<Seq<char>>, q2: Seq<Seq<char>>)
    requires
        sorted(q1),
        sorted(q2),
        q1.to_multiset() == q2.to_multiset(),
    ensures
        q1 == q2,
    decreases q1.len(),
{
    broadcast use vstd::seq_lib::group_to_multiset_ensures;

    assert(q1.len() == q2.len()) by {
        assert(q1.len() == q1.to_multiset().len());
        assert(q2.len() == q2.to_multiset().len());
    }
    if q1.len() == 0 {
        assert(q1 =~= q2);
    } else {
        let a = q1.last();
        let b = q2.last();
        assert(q1.contains(a)) by {
            assert(q1[q1.len() - 1] == a);
        }
        assert(q2.contains(b)) by {
            assert(q2[q2.len() - 1] == b);
        }
        assert(q1.to_multiset().count(a) > 0);
        assert(q2.contains(a));
        assert(q2.to_multiset().count(b) > 0);
        assert(q1.contains(b));
        lemma_sorted_last_max(q2, a);
        lemma_sorted_last_max(q1, b);
        lemma_seq_le_antisym(a, b);
        let p1 = q1.drop_last();
        let p2 = q2.drop_last();
        assert(p1.push(a) =~= q1);
        assert(p2.push(b) =~= q2);
        assert(p1.to_multiset() =~= q1.to_multiset().remove(a)) by {
            assert(q1.to_multiset() =~= p1.to_multiset().insert(a));
        }
        assert(p2.to_multiset() =~= q2.to_multiset().remove(b)) by {
            assert(q2.to_multiset() =~= p2.to_multiset().insert(b));
        }
        assert(sorted(p1));
        assert(sorted(p2));
        lemma_sorted_permutation_unique(p1, p2);
    }
}

/// The canonical comparison form of a cookie header is unique: whatever
/// sorted arrangement of its trimmed pairs is joined, the text is the same.
pub proof fn lemma_compare_form_unique(c: Seq<char>, r1: Seq<char>, r2: Seq<char>)
    requires
        is_compare_form(c, r1),
        is_compare_form(c, r2),
    ensures
        r1 == r2,
{
    let q1 = choose|q: Seq<Seq<char>>|
        #![trigger join(q, semi_sep())]
        sorted(q) && q.to_multiset() == compare_pairs(c).to_multiset() && r1 == join(q, semi_sep());
    let q2 = choose|q: Seq<Seq<char>>|
        #![trigger join(q, semi_sep())]
        sorted(q) && q.to_multiset() == compare_pairs(c).to_multiset() && r2 == join(q, semi_sep());
    lemma_sorted_permutation_unique(q1, q2);
}

/// Order independence: two cookie headers whose trimmed pairs are the same
/// multiset have the same canonical comparison form.
pub proof fn lemma_compare_form_order_independent(
    c1: Seq<char>,
    c2: Seq<char>,
    r1: Seq<char>,
    r2: Seq<char>,
)
    requires
        compare_pairs(c1).to_multiset() == compare_pairs(c2).to_multiset(),
        is_compare_form(c1, r1),
        is_compare_form(c2, r2),
    ensures
        r1 == r2,
{
    let q2 = choose|q: Seq<Seq<char>>|
        #![trigger join(q, semi_sep())]
        sorted(q) && q.to_multiset() == compare_pairs(c2).to_multiset() && r2 == join(q, semi_sep());
    assert(is_compare_form(c1, join(q2, semi_sep())));
    lemma_compare_form_unique(c1, r1, r2);
}

/// A text without `d` has no first `d`.
proof fn lemma_find_first_none(s: Seq<char>, d: char)
    requires
        !has_char(s, d),
    ensures
        find_first(s, d) is None,
    decreases s.len(),
{
    if s.len() > 0 {
        assert(!has_char(s.drop_last(), d)) by {
            if has_char(s.drop_last(), d) {
                let i = choose|i: int| 0 <= i < s.drop_last().len() && s.drop_last()[i] == d;
                assert(s[i] == d);
            }
        }
        lemma_find_first_none(s.drop_last(), d);
        assert(s.last() != d) by {
            if s.last() == d {
                assert(s[s.len() - 1] == d);
            }
        }
    }
}

/// A `name=value` text whose name holds no `=` splits back into its name
/// and value.
proof fn lemma_split_once_pair(k: Seq<char>, v: Seq<char>)
    requires
        !has_char(k, '='),
    ensures
        find_first(pair_text((k, v)), '=') == Some(k.len() as int),
        split_once(pair_text((k, v)), '=') == Some((k, v)),
    decreases v.len(),
{
    let t = pair_text((k, v));
    if v.len() == 0 {
        lemma_find_first_none(k, '=');
        assert(t.drop_last() =~= k);
        assert(find_first(t, '=') == Some(k.len() as int));
    } else {
        lemma_split_once_pair(k, v.drop_last());
        assert(t.drop_last() =~= pair_text((k, v.drop_last())));
        assert(find_first(t, '=') == Some(k.len() as int));
    }
    assert(t.take(k.len() as int) =~= k);
    assert(t.skip(k.len() as int + 1) =~= v);
}

/// A cookie name the header form keeps intact: no `;` or `=`, no
/// whitespace at either end.
pub open spec fn clean_name(k: Seq<char>) -> bool {
    !has_char(k, ';') && !has_char(k, '=') && (k.len() > 0 ==> !is_ws(k[0]) && !is_ws(k.last()))
}

/// A cookie value the header form keeps intact: no `;`, no whitespace at
/// either end.
pub open spec fn clean_value(v: Seq<char>) -> bool {
    !has_char(v, ';') && (v.len() > 0 ==> !is_ws(v[0]) && !is_ws(v.last()))
}

/// Every cookie of `m` has a clean name and value.
pub open spec fn clean_cookies(m: Map<Seq<char>, Seq<char>>) -> bool {
    forall|k: Seq<char>| #[trigger] m.contains_key(k) ==> clean_name(k) && clean_value(m[k])
}

/// The pieces `str::split(';')` makes of a `"; "`-joined text: the first
/// part, then each later part after a space.
pub open spec fn spaced(q: Seq<Seq<char>>) -> Seq<Seq<char>> {
    Seq::new(q.len(), |i: int| if i == 0 { q[0] } else { seq![' '] + q[i] })
}

/// Splitting `"; "`-joined parts without `;` at `;` gives the parts, each
/// later one after a space.
proof fn lemma_split_join(q: Seq<Seq<char>>)
    requires
        q.len() > 0,
        forall|j: int| 0 <= j < q.len() ==> !has_char(#[trigger] q[j], ';'),
    ensures
        split_char(join(q, semi_sep()), ';') == spaced(q),
    decreases q.len(),
{
    if q.len() == 1 {
        lemma_split_char_single(q[0], ';');
        assert(spaced(q) =~= seq![q[0]]);
    } else {
        let p = q.drop_last();
        lemma_split_join(p);
        let tail = seq![' '] + q.last();
        assert(!has_char(tail, ';')) by {
            if has_char(tail, ';') {
                let i = choose|i: int| 0 <= i < tail.len() && tail[i] == ';';
                assert(q.last()[i - 1] == ';');
                assert(q[q.len() - 1] == q.last());
            }
        }
        lemma_split_char_append(join(p, semi_sep()), ';', tail);
        assert(join(q, semi_sep()) =~= join(p, semi_sep()) + seq![';'] + tail);
        assert(spaced(p).push(tail) =~= spaced(q));
    }
}

/// A clean `name=value` text, after a space or not, trims to itself.
proof fn lemma_trim_pair(k: Seq<char>, v: Seq<char>)
    requires
        clean_name(k),
        clean_value(v),
    ensures
        trim(pair_text((k, v))) == pair_text((k, v)),
        trim(seq![' '] + pair_text((k, v))) == pair_text((k, v)),
        !has_char(pair_text((k, v)), ';'),
{
    let t = pair_text((k, v));
    assert(t.len() > 0);
    assert(!is_ws(t[0])) by {
        if k.len() > 0 {
            assert(t[0] == k[0]);
        } else {
            assert(t[0] == '=');
        }
    }
    assert(!is_ws(t.last())) by {
        if v.len() > 0 {
            assert(t.last() == v.last());
        } else {
            assert(t.last() == '=');
        }
    }
    assert(trim_start(t) == t);
    assert(trim_end(t) == t);
    let st = seq![' '] + t;
    assert(is_ws(' '));
    assert(st.drop_first() =~= t);
    assert(trim_start(st) == trim_start(t));
    assert(!has_char(t, ';')) by {
        if has_char(t, ';') {
            let i = choose|i: int| 0 <= i < t.len() && t[i] == ';';
            if i < k.len() {
                assert(k[i] == ';');
            } else if i > k.len() {
                assert(v[i - k.len() - 1] == ';');
            }
        }
    }
}

/// `t` is the `name=value` text of one of the entries `e`.
pub open spec fn is_entry_text(e: Seq<(Seq<char>, Seq<char>)>, t: Seq<char>) -> bool {
    exists|i: int| 0 <= i < e.len() && t == pair_text(e[i])
}

/// What the `name=value` texts of entries of `m` parse to stays inside `m`
/// and holds the name of each such text.
proof fn lemma_parse_texts(q: Seq<Seq<char>>, e: Seq<(Seq<char>, Seq<char>)>)
    requires
        distinct_keys(e),
        forall|i: int| 0 <= i < e.len() ==> clean_name(#[trigger] e[i].0),
        forall|i: int| 0 <= i < e.len() ==> clean_value(#[trigger] e[i].1),
        forall|j: int| 0 <= j < q.len() ==> is_entry_text(e, #[trigger] q[j]),
    ensures
        forall|k: Seq<char>| #[trigger] parse_map(q).contains_key(k) ==> entries_map(e).contains_key(k)
            && parse_map(q)[k] == entries_map(e)[k],
        forall|i: int| 0 <= i < e.len() && q.contains(#[trigger] pair_text(e[i])) ==> parse_map(
            q,
        ).contains_key(e[i].0),
    decreases q.len(),
{
    if q.len() > 0 {
        let q0 = q.drop_last();
        assert forall|j: int| 0 <= j < q0.len() implies is_entry_text(e, #[trigger] q0[j]) by {
            assert(q0[j] == q[j]);
        }
        lemma_parse_texts(q0, e);
        let t = q.last();
        assert(q[q.len() - 1] == t);
        assert(is_entry_text(e, q[q.len() - 1]));
        let i0 = choose|i: int| 0 <= i < e.len() && q[q.len() - 1] == pair_text(e[i]);
        lemma_split_once_pair(e[i0].0, e[i0].1);
        let k0 = e[i0].0;
        let v0 = e[i0].1;
        assert(trim(k0) == k0);
        assert(clean_value(e[i0].1));
        assert(trim_start(v0) == v0);
        assert(trim_end(v0) == v0);
        assert(trim(v0) == v0);
        assert(t.len() > 0);
        assert(parse_map(q) == parse_map(q0).insert(trim(k0), trim(v0)));
        assert(entries_map(e).contains_key(k0)) by {
            assert(e[i0].0 == k0);
        }
        assert(entries_map(e)[k0] == v0) by {
            let c = choose|c: int| 0 <= c < e.len() && e[c].0 == k0;
            assert(c == i0);
        }
        assert forall|i: int| 0 <= i < e.len() && q.contains(#[trigger] pair_text(e[i])) implies parse_map(
            q,
        ).contains_key(e[i].0) by {
            let j = choose|j: int| 0 <= j < q.len() && q[j] == pair_text(e[i]);
            if j < q.len() - 1 {
                assert(q0[j] == pair_text(e[i]));
                assert(q0.contains(pair_text(e[i])));
            } else {
                lemma_split_once_pair(e[i].0, e[i].1);
            }
        }
    }
}

/// Round trip of the canonical `Cookie` header (`build_cookie_string`):
/// when no cookie name or value holds `;`, no name holds `=`, and none has
/// whitespace at either end, parsing the header (`parse_cookie_header`)
/// gives the map back.
pub proof fn lemma_cookie_header_round_trip(m: Map<Seq<char>, Seq<char>>, r: Seq<char>)
    requires
        clean_cookies(m),
        is_cookie_string(m, r),
    ensures
        parse_map(cookie_parts(r)) == m,
{
    broadcast use vstd::seq_lib::group_to_multiset_ensures;

    let (e, q) = choose|e: Seq<(Seq<char>, Seq<char>)>, q: Seq<Seq<char>>|
        #![trigger is_listing(e, m), sorted(q)]
        is_listing(e, m) && sorted(q) && q.to_multiset() == e.map_values(
            |p: (Seq<char>, Seq<char>)| pair_text(p),
        ).to_multiset() && r == join(q, semi_sep());
    let texts = e.map_values(|p: (Seq<char>, Seq<char>)| pair_text(p));
    assert forall|i: int| 0 <= i < e.len() implies clean_name(#[trigger] e[i].0) && clean_value(
        e[i].1,
    ) by {
        assert(entries_map(e).contains_key(e[i].0));
        let c = choose|c: int| 0 <= c < e.len() && e[c].0 == e[i].0;
        assert(c == i);
        assert(m.contains_key(e[i].0));
    }
    assert forall|i: int| 0 <= i < e.len() implies clean_value(#[trigger] e[i].1) by {
        assert(clean_name(e[i].0) && clean_value(e[i].1));
    }
    assert forall|j: int| 0 <= j < q.len() implies is_entry_text(e, #[trigger] q[j]) by {
        assert(q.contains(q[j]));
        assert(q.to_multiset().count(q[j]) > 0);
        assert(texts.contains(q[j]));
        let i = choose|i: int| 0 <= i < texts.len() && texts[i] == q[j];
        assert(q[j] == pair_text(e[i]));
    }
    if q.len() == 0 {
        assert(texts.len() == 0) by {
            assert(texts.to_multiset().len() == 0);
        }
        assert(m =~= Map::<Seq<char>, Seq<char>>::empty()) by {
            assert forall|k: Seq<char>| !m.contains_key(k) by {
                if m.contains_key(k) {
                    let i = choose|i: int| 0 <= i < e.len() && e[i].0 == k;
                    assert(texts[i] == pair_text(e[i]));
                }
            }
        }
        assert(r =~= Seq::<char>::empty());
        assert(split_char(r, ';') =~= seq![Seq::<char>::empty()]);
        assert(cookie_parts(r) =~= seq![trim(Seq::<char>::empty())]);
        assert(trim(Seq::<char>::empty()) =~= Seq::<char>::empty());
        let ps = cookie_parts(r);
        assert(ps.drop_last() =~= Seq::<Seq<char>>::empty());
        assert(ps.last() =~= Seq::<char>::empty());
        assert(find_first(Seq::<char>::empty(), '=') is None);
        assert(split_once(ps.last(), '=') is None);
        assert(parse_map(ps.drop_last()) =~= Map::<Seq<char>, Seq<char>>::empty());
        assert(parse_map(ps) =~= m);
    } else {
        assert forall|j: int| 0 <= j < q.len() implies !has_char(#[trigger] q[j], ';') by {
            assert(is_entry_text(e, q[j]));
            let i = choose|i: int| 0 <= i < e.len() && q[j] == pair_text(e[i]);
            lemma_trim_pair(e[i].0, e[i].1);
        }
        lemma_split_join(q);
        assert(cookie_parts(r) =~= q) by {
            assert forall|j: int| 0 <= j < q.len() implies #[trigger] trim(spaced(q)[j]) == q[j] by {
                assert(is_entry_text(e, q[j]));
                let i = choose|i: int| 0 <= i < e.len() && q[j] == pair_text(e[i]);
                lemma_trim_pair(e[i].0, e[i].1);
            }
        }
        lemma_parse_texts(q, e);
        assert forall|k: Seq<char>| m.contains_key(k) implies #[trigger] parse_map(q).contains_key(k) by {
            let i = choose|i: int| 0 <= i < e.len() && e[i].0 == k;
            assert(texts[i] == pair_text(e[i]));
            assert(texts.contains(pair_text(e[i])));
            assert(texts.to_multiset().count(pair_text(e[i])) > 0);
            assert(q.contains(pair_text(e[i])));
        }
        assert(parse_map(q) =~= m);
    }
}

/// Replacing a pattern that does not occur changes nothing.
pub proof fn lemma_replace_absent(s: Seq<char>, p: Seq<char>, r: Seq<char>)
    requires
        !contains(s, p),
    ensures
        replace_all(s, p, r) == s,
    decreases s.len(),
{
    if p.len() > 0 && s.len() > 0 {
        assert(!starts_with(s, p)) by {
            if starts_with(s, p) {
                assert(occurs_at(s, p, 0));
            }
        }
        let t = s.drop_first();
        assert(!contains(t, p)) by {
            if contains(t, p) {
                let i = choose|i: int| occurs_at(t, p, i);
                assert(s.subrange(i + 1, i + 1 + p.len()) =~= t.subrange(i, i + p.len()));
                assert(occurs_at(s, p, i + 1));
            }
        }
        lemma_replace_absent(t, p, r);
        assert(seq![s[0]] + t =~= s);
    }
}

/// Replacing a pattern that occurs leaves the replacement in the text.
proof fn lemma_replace_present(s: Seq<char>, p: Seq<char>, r: Seq<char>)
    requires
        p.len() > 0,
        contains(s, p),
    ensures
        contains(replace_all(s, p, r), r),
    decreases s.len(),
{
    let i = choose|i: int| occurs_at(s, p, i);
    assert(s.len() > 0);
    if starts_with(s, p) {
        let out = replace_all(s, p, r);
        assert(out.subrange(0, r.len() as int) =~= r);
        assert(occurs_at(out, r, 0));
    } else {
        assert(i != 0) by {
            if i == 0 {
                assert(s.take(p.len() as int) =~= s.subrange(0, p.len() as int));
            }
        }
        let t = s.drop_first();
        assert(occurs_at(t, p, i - 1)) by {
            assert(t.subrange(i - 1, i - 1 + p.len()) =~= s.subrange(i, i + p.len()));
        }
        lemma_replace_present(t, p, r);
        let rt = replace_all(t, p, r);
        let j = choose|j: int| occurs_at(rt, r, j);
        let out = seq![s[0]] + rt;
        assert(out.subrange(j + 1, j + 1 + r.len()) =~= rt.subrange(j, j + r.len()));
        assert(occurs_at(out, r, j + 1));
    }
}

/// Making a TikTok URL mobile twice is making it mobile once: a URL that
/// `to_mobile_url` returned is kept as it is.
pub proof fn lemma_mobile_url_idempotent(url: Seq<char>)
    ensures
        mobile_url(mobile_url(url)) == mobile_url(url),
{
    reveal_strlit("m.tiktok.com");
    reveal_strlit("www.tiktok.com");
    if !contains(url, "m.tiktok.com"@) {
        if contains(url, "www.tiktok.com"@) {
            lemma_replace_present(url, "www.tiktok.com"@, "m.tiktok.com"@);
        } else {
            lemma_replace_absent(url, "www.tiktok.com"@, "m.tiktok.com"@);
        }
    }
}

/// The `name=value` texts of a list of entries.
pub open spec fn entry_texts(e: Seq<(Seq<char>, Seq<char>)>) -> Seq<Seq<char>> {
    e.map_values(|p: (Seq<char>, Seq<char>)| pair_text(p))
}

/// Leaving one entry out of a listing lists the map without that name.
proof fn lemma_listing_remove(e: Seq<(Seq<char>, Seq<char>)>, m: Map<Seq<char>, Seq<char>>, j: int)
    requires
        is_listing(e, m),
        0 <= j < e.len(),
    ensures
        is_listing(e.remove(j), m.remove(e[j].0)),
{
    let f = e.remove(j);
    let k0 = e[j].0;
    assert forall|a: int, b: int| 0 <= a < f.len() && 0 <= b < f.len() && a != b implies f[a].0 != f[b].0 by {
        let a2 = if a < j { a } else { a + 1 };
        let b2 = if b < j { b } else { b + 1 };
        assert(f[a] == e[a2]);
        assert(f[b] == e[b2]);
    }
    assert forall|k: Seq<char>| #[trigger] has_key(f, k) == (has_key(e, k) && k != k0) by {
        if has_key(f, k) {
            let a = choose|a: int| 0 <= a < f.len() && f[a].0 == k;
            let a2 = if a < j { a } else { a + 1 };
            assert(f[a] == e[a2]);
            assert(a2 != j);
        }
        if has_key(e, k) && k != k0 {
            let a = choose|a: int| 0 <= a < e.len() && e[a].0 == k;
            assert(a != j);
            let a1 = if a < j { a } else { a - 1 };
            assert(f[a1] == e[a]);
        }
    }
    assert forall|k: Seq<char>| has_key(f, k) implies entries_map(f)[k] == m[k] by {
        let c = choose|c: int| 0 <= c < f.len() && f[c].0 == k;
        let c2 = if c < j { c } else { c + 1 };
        assert(f[c] == e[c2]);
        let d = choose|d: int| 0 <= d < e.len() && e[d].0 == k;
        assert(d == c2);
    }
    assert(entries_map(f) =~= m.remove(k0));
}

/// Two listings of one map hold the same texts, counted with repeats.
proof fn lemma_listings_same_texts(
    e1: Seq<(Seq<char>, Seq<char>)>,
    e2: Seq<(Seq<char>, Seq<char>)>,
    m: Map<Seq<char>, Seq<char>>,
)
    requires
        is_listing(e1, m),
        is_listing(e2, m),
    ensures
        entry_texts(e1).to_multiset() == entry_texts(e2).to_multiset(),
    decreases e1.len(),
{
    broadcast use vstd::seq_lib::group_to_multiset_ensures;

    if e1.len() == 0 {
        assert(e2.len() == 0) by {
            if e2.len() > 0 {
                assert(has_key(e2, e2[0].0));
                assert(m.contains_key(e2[0].0));
                assert(!has_key(e1, e2[0].0));
            }
        }
        assert(entry_texts(e1) =~= entry_texts(e2));
    } else {
        let i = e1.len() - 1;
        let x = e1[i];
        assert(has_key(e1, x.0));
        assert(m.contains_key(x.0));
        assert(m[x.0] == x.1) by {
            let c = choose|c: int| 0 <= c < e1.len() && e1[c].0 == x.0;
            assert(c == i);
        }
        assert(has_key(e2, x.0));
        let j = choose|j: int| 0 <= j < e2.len() && e2[j].0 == x.0;
        assert(e2[j].1 == x.1) by {
            let c = choose|c: int| 0 <= c < e2.len() && e2[c].0 == x.0;
            assert(c == j);
        }
        assert(e2[j] == x);
        lemma_listing_remove(e1, m, i);
        lemma_listing_remove(e2, m, j);
        lemma_listings_same_texts(e1.remove(i), e2.remove(j), m.remove(x.0));
        assert(entry_texts(e1.remove(i)).push(pair_text(x)) =~= entry_texts(e1));
        assert(entry_texts(e2.remove(j)) =~= entry_texts(e2).remove(j));
        assert(entry_texts(e2)[j] == pair_text(x));
    }
}

/// The canonical `Cookie` header of a map (`build_cookie_string`) depends
/// on the map alone: whatever order its cookies were stored in, the header
/// is the same text.
pub proof fn lemma_cookie_header_unique(m: Map<Seq<char>, Seq<char>>, r1: Seq<char>, r2: Seq<char>)
    requires
        is_cookie_string(m, r1),
        is_cookie_string(m, r2),
    ensures
        r1 == r2,
{
    let (e1, q1) = choose|e: Seq<(Seq<char>, Seq<char>)>, q: Seq<Seq<char>>|
        #![trigger is_listing(e, m), sorted(q)]
        is_listing(e, m) && sorted(q) && q.to_multiset() == e.map_values(
            |p: (Seq<char>, Seq<char>)| pair_text(p),
        ).to_multiset() && r1 == join(q, semi_sep());
    let (e2, q2) = choose|e: Seq<(Seq<char>, Seq<char>)>, q: Seq<Seq<char>>|
        #![trigger is_listing(e, m), sorted(q)]
        is_listing(e, m) && sorted(q) && q.to_multiset() == e.map_values(
            |p: (Seq<char>, Seq<char>)| pair_text(p),
        ).to_multiset() && r2 == join(q, semi_sep());
    lemma_listings_same_texts(e1, e2, m);
    assert(entry_texts(e1) == e1.map_values(|p: (Seq<char>, Seq<char>)| pair_text(p)));
    assert(entry_texts(e2) == e2.map_values(|p: (Seq<char>, Seq<char>)| pair_text(p)));
    lemma_sorted_permutation_unique(q1, q2);
}

} // verus!
