//! A map from cookie names to values, as the TikTok client keeps the cookies
//! it collects: parsing of `Cookie` and `Set-Cookie` text, merging, and the
//! canonical header string.
use vstd::prelude::*;
use crate::cookies::{cookie_parts, sort_parts, sorted, semi_sep};
use crate::text::{
    chars_of, eq_chars, join, join_chars, lower_chars, lower_seq, push_all, split_char,
    split_chars, split_once, split_once_chars, string_of, trim, trim_chars, trimmed_parts_chars,
    views,
};

verus! {

#[derive(Debug, Clone)]
/// Cookie names and values, each name at most once.
pub struct CookieMap {
    entries: Vec<(Vec<char>, Vec<char>)>,
}

/// The entries as pairs of character sequences.
pub open spec fn entry_views(e: Seq<(Vec<char>, Vec<char>)>) -> Seq<(Seq<char>, Seq<char>)> {
    e.map_values(|p: (Vec<char>, Vec<char>)| (p.0@, p.1@))
}

/// No name occurs twice in `s`.
pub open spec fn distinct_keys(s: Seq<(Seq<char>, Seq<char>)>) -> bool {
    forall|i: int, j: int| 0 <= i < s.len() && 0 <= j < s.len() && i != j ==> s[i].0 != s[j].0
}

/// `s` has an entry named `k`.
pub open spec fn has_key(s: Seq<(Seq<char>, Seq<char>)>, k: Seq<char>) -> bool {
    exists|i: int| 0 <= i < s.len() && s[i].0 == k
}

/// The map that a list of entries with distinct names stands for.
pub open spec fn entries_map(s: Seq<(Seq<char>, Seq<char>)>) -> Map<Seq<char>, Seq<char>> {
    Map::new(
        |k: Seq<char>| has_key(s, k),
        |k: Seq<char>| s[choose|i: int| 0 <= i < s.len() && s[i].0 == k].1,
    )
}

/// `e` lists the entries of `m`, each name once.
pub open spec fn is_listing(e: Seq<(Seq<char>, Seq<char>)>, m: Map<Seq<char>, Seq<char>>) -> bool {
    distinct_keys(e) && entries_map(e) == m
}

/// `name=value`.
pub open spec fn pair_text(p: (Seq<char>, Seq<char>)) -> Seq<char> {
    p.0.push('=') + p.1
}

impl View for CookieMap {
    type V = Map<Seq<char>, Seq<char>>;

    closed spec fn view(&self) -> Map<Seq<char>, Seq<char>> {
        entries_map(entry_views(self.entries@))
    }
}

impl CookieMap {
    /// No name occurs twice.
    pub closed spec fn wf(&self) -> bool {
        distinct_keys(entry_views(self.entries@))
    }

    /// An empty map.
    pub fn new() -> (m: Self)
        ensures
            m.wf(),
            m@ == Map::<Seq<char>, Seq<char>>::empty(),
    {
        let m = CookieMap { entries: Vec::new() };
        assert(m@ =~= Map::<Seq<char>, Seq<char>>::empty());
        m
    }

    /// Index of the entry named `key`.
    fn find(&self, key: &[char]) -> (r: Option<usize>)
        requires
            self.wf(),
        ensures
            match r {
                Some(i) => i < self.entries.len() && entry_views(self.entries@)[i as int].0
                    == key@,
                None => !has_key(entry_views(self.entries@), key@),
            },
    {
        let mut i: usize = 0;
        while i < self.entries.len()
            invariant
                i <= self.entries.len(),
                forall|k: int| 0 <= k < i ==> entry_views(self.entries@)[k].0 != key@,
            decreases self.entries.len() - i,
        {
            if eq_chars(self.entries[i].0.as_slice(), key) {
                return Some(i);
            }
            i = i + 1;
        }
        None
    }

    /// The value stored for `key`.
    pub fn get(&self, key: &str) -> (r: Option<String>)
        requires
            self.wf(),
        ensures
            match r {
                Some(v) => self@.contains_key(key@) && self@[key@] == v@,
                None => !self@.contains_key(key@),
            },
    {
        let kv = chars_of(key);
        match self.find(kv.as_slice()) {
            Some(i) => {
                let ghost s = entry_views(self.entries@);
                proof {
                    let j = choose|j: int| 0 <= j < s.len() && s[j].0 == key@;
                    assert(j == i);
                }
                Some(string_of(self.entries[i].1.as_slice()))
            },
            None => None,
        }
    }

    /// The cookies as name/value pairs, in the order they were first
    /// stored.
    pub fn to_pairs(&self) -> (r: Vec<(String, String)>)
        requires
            self.wf(),
        ensures
            is_listing(crate::passport::pairs_view(r@), self@),
    {
        let ghost s = entry_views(self.entries@);
        let mut r: Vec<(String, String)> = Vec::new();
        let mut i: usize = 0;
        while i < self.entries.len()
            invariant
                i <= self.entries.len(),
                s == entry_views(self.entries@),
                crate::passport::pairs_view(r@) == s.take(i as int),
            decreases self.entries.len() - i,
        {
            let ghost before = crate::passport::pairs_view(r@);
            let k = string_of(self.entries[i].0.as_slice());
            let v = string_of(self.entries[i].1.as_slice());
            r.push((k, v));
            assert(crate::passport::pairs_view(r@) =~= before.push(s[i as int]));
            assert(s.take(i as int + 1) =~= s.take(i as int).push(s[i as int]));
            i = i + 1;
        }
        assert(s.take(self.entries.len() as int) =~= s);
        r
    }

    /// Number of cookies.
    pub fn len(&self) -> (n: usize)
        requires
            self.wf(),
        ensures
            n == self@.dom().len(),
    {
        proof {
            lemma_listing_len(entry_views(self.entries@));
        }
        self.entries.len()
    }

    /// Stores `value` under `key`, replacing what was there (as
    /// `HashMap::insert`).
    pub fn insert_chars(&mut self, key: Vec<char>, value: Vec<char>)
        requires
            old(self).wf(),
        ensures
            final(self).wf(),
            final(self)@ == old(self)@.insert(key@, value@),
    {
        let ghost s = entry_views(self.entries@);
        let ghost kv = key@;
        let ghost vv = value@;
        match self.find(key.as_slice()) {
            Some(i) => {
                self.entries.set(i, (key, value));
                proof {
                    let t = entry_views(self.entries@);
                    assert(t =~= s.update(i as int, (kv, vv)));
                    assert forall|k: Seq<char>| #[trigger] has_key(t, k) == has_key(s, k) by {
                        if has_key(s, k) {
                            let j = choose|j: int| 0 <= j < s.len() && s[j].0 == k;
                            assert(t[j].0 == k);
                        }
                        if has_key(t, k) {
                            let j = choose|j: int| 0 <= j < t.len() && t[j].0 == k;
                            assert(s[j].0 == k);
                        }
                    }
                    assert forall|k: Seq<char>| has_key(t, k) implies entries_map(t)[k] == (
                        if k == kv {
                            vv
                        } else {
                            entries_map(s)[k]
                        }) by {
                        let jt = choose|j: int| 0 <= j < t.len() && t[j].0 == k;
                        let js = choose|j: int| 0 <= j < s.len() && s[j].0 == k;
                        if k == kv {
                            assert(jt == i);
                        } else {
                            assert(jt == js);
                        }
                    }
                    assert(entries_map(t) =~= entries_map(s).insert(kv, vv));
                }
            },
            None => {
                self.entries.push((key, value));
                proof {
                    let t = entry_views(self.entries@);
                    assert(t =~= s.push((kv, vv)));
                    assert forall|k: Seq<char>| #[trigger] has_key(t, k) == (has_key(s, k) || k
                        == kv) by {
                        if has_key(s, k) {
                            let j = choose|j: int| 0 <= j < s.len() && s[j].0 == k;
                            assert(t[j].0 == k);
                        }
                        if k == kv {
                            assert(t[s.len() as int].0 == k);
                        }
                    }
                    assert forall|k: Seq<char>| has_key(t, k) implies entries_map(t)[k] == (
                        if k == kv {
                            vv
                        } else {
                            entries_map(s)[k]
                        }) by {
                        let jt = choose|j: int| 0 <= j < t.len() && t[j].0 == k;
                        if k == kv {
                            assert(jt == s.len());
                        } else {
                            let js = choose|j: int| 0 <= j < s.len() && s[j].0 == k;
                            assert(t[js].0 == k);
                            assert(jt == js);
                        }
                    }
                    assert(entries_map(t) =~= entries_map(s).insert(kv, vv));
                }
            },
        }
    }

    /// Stores `value` under `key` (as `HashMap::insert`).
    pub fn insert(&mut self, key: &str, value: &str)
        requires
            old(self).wf(),
        ensures
            final(self).wf(),
            final(self)@ == old(self)@.insert(key@, value@),
    {
        let k = chars_of(key);
        let v = chars_of(value);
        self.insert_chars(k, v);
    }

    /// Removes every cookie whose name satisfies `drop` (given as the
    /// indices of the entries to drop).
    fn retain_where(&mut self, drop: Ghost<spec_fn(Seq<char>) -> bool>, keep_flags: Vec<bool>)
        requires
            old(self).wf(),
            keep_flags.len() == old(self).entries.len(),
            forall|i: int|
                0 <= i < keep_flags.len() ==> keep_flags@[i] == !(drop@)(
                    entry_views(old(self).entries@)[i].0,
                ),
        ensures
            final(self).wf(),
            final(self)@ == old(self)@.restrict(old(self)@.dom().filter(|k: Seq<char>| !(drop@)(k))),
    {
        let ghost s = entry_views(self.entries@);
        let ghost d = drop@;
        let mut kept: Vec<(Vec<char>, Vec<char>)> = Vec::new();
        let mut i: usize = 0;
        let n = self.entries.len();
        while i < n
            invariant
                i <= n == self.entries.len() == keep_flags.len(),
                s == entry_views(self.entries@),
                distinct_keys(s),
                forall|q: int|
                    0 <= q < keep_flags.len() ==> keep_flags@[q] == !d(s[q].0),
                distinct_keys(entry_views(kept@)),
                forall|k: Seq<char>|
                    #[trigger] has_key(entry_views(kept@), k) <==> (exists|q: int|
                        0 <= q < i && s[q].0 == k && !d(k)),
                forall|q: int|
                    0 <= q < kept.len() ==> exists|p: int|
                        0 <= p < i && #[trigger] entry_views(kept@)[q] == s[p],
            decreases n - i,
        {
            if keep_flags[i] {
                let e = (self.entries[i].0.clone(), self.entries[i].1.clone());
                let ghost before = entry_views(kept@);
                kept.push(e);
                proof {
                    let t = entry_views(kept@);
                    assert(t =~= before.push(s[i as int]));
                    assert forall|a: int, b: int|
                        0 <= a < t.len() && 0 <= b < t.len() && a != b implies t[a].0 != t[b].0 by {
                        if a < before.len() && b < before.len() {
                        } else if a == before.len() {
                            let p = choose|p: int| 0 <= p < i && before[b] == s[p];
                            assert(p != i);
                        } else {
                            let p = choose|p: int| 0 <= p < i && before[a] == s[p];
                            assert(p != i);
                        }
                    }
                    assert forall|k: Seq<char>| #[trigger] has_key(t, k) <==> (exists|q: int|
                        0 <= q < i + 1 && s[q].0 == k && !d(k)) by {
                        if has_key(t, k) {
                            let j = choose|j: int| 0 <= j < t.len() && t[j].0 == k;
                            if j < before.len() {
                                assert(has_key(before, k));
                            } else {
                                assert(s[i as int].0 == k);
                            }
                        }
                        if exists|q: int| 0 <= q < i + 1 && s[q].0 == k && !d(k) {
                            let q = choose|q: int| 0 <= q < i + 1 && s[q].0 == k && !d(k);
                            if q < i {
                                assert(has_key(before, k));
                                let j = choose|j: int| 0 <= j < before.len() && before[j].0 == k;
                                assert(t[j].0 == k);
                            } else {
                                assert(t[before.len() as int].0 == k);
                            }
                        }
                    }
                    assert forall|q: int| 0 <= q < t.len() implies exists|p: int|
                        0 <= p < i + 1 && #[trigger] t[q] == s[p] by {
                        if q < before.len() {
                            let p = choose|p: int| 0 <= p < i && before[q] == s[p];
                            assert(t[q] == s[p]);
                        } else {
                            assert(t[q] == s[i as int]);
                        }
                    }
                }
            } else {
                proof {
                    let t = entry_views(kept@);
                    assert forall|k: Seq<char>| #[trigger] has_key(t, k) <==> (exists|q: int|
                        0 <= q < i + 1 && s[q].0 == k && !d(k)) by {
                        if exists|q: int| 0 <= q < i + 1 && s[q].0 == k && !d(k) {
                            let q = choose|q: int| 0 <= q < i + 1 && s[q].0 == k && !d(k);
                            assert(q != i);
                        }
                    }
                }
            }
            i = i + 1;
        }
        self.entries = kept;
        proof {
            let t = entry_views(self.entries@);
            let m = entries_map(s);
            let target = m.restrict(m.dom().filter(|k: Seq<char>| !d(k)));
            assert forall|k: Seq<char>| #[trigger] target.contains_key(k) <==> has_key(t, k) by {
                if has_key(t, k) {
                    let q = choose|q: int| 0 <= q < n && s[q].0 == k && !d(k);
                    assert(has_key(s, k));
                }
            }
            assert forall|k: Seq<char>| has_key(t, k) implies entries_map(t)[k] == m[k] by {
                let jt = choose|j: int| 0 <= j < t.len() && t[j].0 == k;
                let p = choose|p: int| 0 <= p < n && t[jt] == s[p];
                let js = choose|j: int| 0 <= j < s.len() && s[j].0 == k;
                assert(s[p].0 == k);
                assert(js == p);
            }
            assert(entries_map(t) =~= target);
        }
    }
}

/// A listing of distinct names has as many entries as its map.
pub proof fn lemma_listing_len(s: Seq<(Seq<char>, Seq<char>)>)
    requires
        distinct_keys(s),
    ensures
        entries_map(s).dom().finite(),
        entries_map(s).dom().len() == s.len(),
    decreases s.len(),
{
    if s.len() == 0 {
        assert(entries_map(s).dom() =~= Set::<Seq<char>>::empty());
    } else {
        let t = s.drop_last();
        lemma_listing_len(t);
        assert(entries_map(s).dom() =~= entries_map(t).dom().insert(s.last().0)) by {
            assert forall|k: Seq<char>| has_key(s, k) <==> (has_key(t, k) || k == s.last().0) by {
                if has_key(s, k) {
                    let j = choose|j: int| 0 <= j < s.len() && s[j].0 == k;
                    if j < t.len() {
                        assert(t[j].0 == k);
                    }
                }
                if has_key(t, k) {
                    let j = choose|j: int| 0 <= j < t.len() && t[j].0 == k;
                    assert(s[j].0 == k);
                }
                if k == s.last().0 {
                    assert(s[s.len() - 1].0 == k);
                }
            }
        }
        if has_key(t, s.last().0) {
            let j = choose|j: int| 0 <= j < t.len() && t[j].0 == s.last().0;
            assert(s[j].0 == s[s.len() - 1].0);
        }
    }
}

/// The map a `Cookie` header parses to: for each trimmed non-empty piece
/// with `=`, its trimmed name mapped to its trimmed value, later pieces
/// overriding earlier ones.
pub open spec fn parse_map(parts: Seq<Seq<char>>) -> Map<Seq<char>, Seq<char>>
    decreases parts.len(),
{
    if parts.len() == 0 {
        Map::<Seq<char>, Seq<char>>::empty()
    } else {
        let m = parse_map(parts.drop_last());
        match split_once(parts.last(), '=') {
            Some((k, v)) => if parts.last().len() > 0 {
                m.insert(trim(k), trim(v))
            } else {
                m
            },
            None => m,
        }
    }
}

/// `m` after `merge_cookie_pair(key, value)`.
pub open spec fn merge_pair(m: Map<Seq<char>, Seq<char>>, key: Seq<char>, value: Seq<char>) -> Map<
    Seq<char>,
    Seq<char>,
> {
    if trim(key).len() == 0 {
        m
    } else {
        m.insert(trim(key), trim(value))
    }
}

/// The cookie attribute names of `Set-Cookie` lines.
pub open spec fn cookie_attr_names() -> Seq<Seq<char>> {
    seq![
        "path"@,
        "domain"@,
        "expires"@,
        "max-age"@,
        "secure"@,
        "httponly"@,
        "samesite"@,
        "priority"@,
        "partitioned"@,
        "comment"@,
        "version"@,
    ]
}

/// `key` is a cookie attribute name, ASCII case ignored.
pub open spec fn is_attr_key(key: Seq<char>) -> bool {
    cookie_attr_names().contains(lower_seq(key))
}

/// `m` after merging the pieces of a cookie header string: each trimmed
/// non-empty piece with `=` whose trimmed name is no attribute name.
pub open spec fn merge_header_parts(m: Map<Seq<char>, Seq<char>>, parts: Seq<Seq<char>>) -> Map<
    Seq<char>,
    Seq<char>,
>
    decreases parts.len(),
{
    if parts.len() == 0 {
        m
    } else {
        let prev = merge_header_parts(m, parts.drop_last());
        match split_once(parts.last(), '=') {
            Some((k, v)) => if parts.last().len() > 0 && !is_attr_key(trim(k)) {
                merge_pair(prev, k, v)
            } else {
                prev
            },
            None => prev,
        }
    }
}

/// `m` after merging the name/value pair of a `Set-Cookie` line: the text
/// before the first `;`, split at its first `=`.
pub open spec fn merge_set_cookie(m: Map<Seq<char>, Seq<char>>, raw: Seq<char>) -> Map<
    Seq<char>,
    Seq<char>,
> {
    match split_once(split_char(raw, ';')[0], '=') {
        Some((k, v)) => merge_pair(m, k, v),
        None => m,
    }
}

/// The names of TikTok's login cookies.
pub open spec fn login_cookie_names() -> Seq<Seq<char>> {
    seq!["sessionid"@, "sessionid_ss"@, "sid_tt"@, "sid_guard"@, "uid_tt"@, "uid_tt_ss"@]
}

/// `m` holds one of TikTok's login cookies (name compared in lowercase).
pub open spec fn has_login(m: Map<Seq<char>, Seq<char>>) -> bool {
    exists|k: Seq<char>| m.contains_key(k) && login_cookie_names().contains(lower_seq(k))
}

/// `m` after setting the cookies of `lines` (raw `Set-Cookie` values): each
/// line that holds `;` contributes the pair before it, split at `=`, name
/// and value trimmed.
pub open spec fn collect_lines(m: Map<Seq<char>, Seq<char>>, lines: Seq<Seq<char>>) -> Map<
    Seq<char>,
    Seq<char>,
>
    decreases lines.len(),
{
    if lines.len() == 0 {
        m
    } else {
        let prev = collect_lines(m, lines.drop_last());
        match split_once(lines.last(), ';') {
            Some((pair, _)) => match split_once(pair, '=') {
                Some((k, v)) => prev.insert(trim(k), trim(v)),
                None => prev,
            },
            None => prev,
        }
    }
}

/// Exec `is_attr_key`.
pub fn is_cookie_attr_key(key: &str) -> (b: bool)
    ensures
        b == is_attr_key(key@),
{
    let kv = chars_of(key);
    is_attr_key_chars(kv.as_slice())
}

fn is_attr_key_chars(key: &[char]) -> (b: bool)
    ensures
        b == is_attr_key(key@),
{
    let l = lower_chars(key);
    let names: [&str; 11] = [
        "path",
        "domain",
        "expires",
        "max-age",
        "secure",
        "httponly",
        "samesite",
        "priority",
        "partitioned",
        "comment",
        "version",
    ];
    let ghost ns = cookie_attr_names();
    assert(names@.map_values(|n: &str| n@) =~= ns);
    let mut i: usize = 0;
    while i < 11
        invariant
            i <= 11,
            ns == cookie_attr_names(),
            names@.map_values(|n: &str| n@) == ns,
            l@ == lower_seq(key@),
            forall|q: int| 0 <= q < i ==> ns[q] != l@,
        decreases 11 - i,
    {
        let nv = chars_of(names[i]);
        assert(names@[i as int]@ == ns[i as int]);
        if eq_chars(l.as_slice(), nv.as_slice()) {
            assert(ns[i as int] == l@);
            return true;
        }
        i = i + 1;
    }
    assert(!ns.contains(l@)) by {
        if ns.contains(l@) {
            let q = choose|q: int| 0 <= q < ns.len() && ns[q] == l@;
        }
    }
    false
}

/// Parses a `Cookie` header into a map: every trimmed non-empty piece with
/// `=` sets its trimmed name to its trimmed value, later pieces winning.
pub fn parse_cookie_header(header: &str) -> (m: CookieMap)
    ensures
        m.wf(),
        m@ == parse_map(cookie_parts(header@)),
{
    let hv = chars_of(header);
    let parts = trimmed_parts_chars(hv.as_slice(), ';');
    let mut m = CookieMap::new();
    let mut i: usize = 0;
    assert(views(parts@).take(0) =~= Seq::<Seq<char>>::empty());
    while i < parts.len()
        invariant
            i <= parts.len(),
            m.wf(),
            m@ == parse_map(views(parts@).take(i as int)),
        decreases parts.len() - i,
    {
        assert(views(parts@).take(i as int + 1).drop_last() =~= views(parts@).take(i as int));
        if parts[i].len() > 0 {
            match split_once_chars(parts[i].as_slice(), '=') {
                Some((k, v)) => {
                    let kt = trim_chars(k.as_slice());
                    let vt = trim_chars(v.as_slice());
                    m.insert_chars(kt, vt);
                },
                None => {},
            }
        }
        i = i + 1;
    }
    assert(views(parts@).take(parts.len() as int) =~= views(parts@));
    m
}

fn merge_pair_chars(map: &mut CookieMap, key: &[char], value: &[char])
    requires
        old(map).wf(),
    ensures
        final(map).wf(),
        final(map)@ == merge_pair(old(map)@, key@, value@),
{
    let k = trim_chars(key);
    if k.len() == 0 {
        return;
    }
    let v = trim_chars(value);
    map.insert_chars(k, v);
}

/// Sets cookie `key` (trimmed) to `value` (trimmed); a blank key changes
/// nothing.
pub fn merge_cookie_pair(map: &mut CookieMap, key: &str, value: &str)
    requires
        old(map).wf(),
    ensures
        final(map).wf(),
        final(map)@ == merge_pair(old(map)@, key@, value@),
{
    let k = chars_of(key);
    let v = chars_of(value);
    merge_pair_chars(map, k.as_slice(), v.as_slice());
}

/// Merges the pairs of a cookie header string into `map`, skipping pieces
/// whose name is a cookie attribute (`path`, `domain`, `expires`, ...).
pub fn merge_cookie_header_string(map: &mut CookieMap, raw: &str)
    requires
        old(map).wf(),
    ensures
        final(map).wf(),
        final(map)@ == merge_header_parts(old(map)@, cookie_parts(raw@)),
{
    let rv = chars_of(raw);
    let parts = trimmed_parts_chars(rv.as_slice(), ';');
    let mut i: usize = 0;
    assert(views(parts@).take(0) =~= Seq::<Seq<char>>::empty());
    while i < parts.len()
        invariant
            i <= parts.len(),
            map.wf(),
            map@ == merge_header_parts(old(map)@, views(parts@).take(i as int)),
        decreases parts.len() - i,
    {
        assert(views(parts@).take(i as int + 1).drop_last() =~= views(parts@).take(i as int));
        if parts[i].len() > 0 {
            match split_once_chars(parts[i].as_slice(), '=') {
                Some((k, v)) => {
                    let kt = trim_chars(k.as_slice());
                    if !is_attr_key_chars(kt.as_slice()) {
                        merge_pair_chars(map, k.as_slice(), v.as_slice());
                    }
                },
                None => {},
            }
        }
        i = i + 1;
    }
    assert(views(parts@).take(parts.len() as int) =~= views(parts@));
}

/// Merges the name/value pair of one `Set-Cookie` line (the text before its
/// first `;`) into `map`.
pub fn merge_set_cookie_line(map: &mut CookieMap, raw: &str)
    requires
        old(map).wf(),
    ensures
        final(map).wf(),
        final(map)@ == merge_set_cookie(old(map)@, raw@),
{
    let rv = chars_of(raw);
    let parts = split_chars(rv.as_slice(), ';');
    proof {
        lemma_split_nonempty(rv@, ';');
    }
    assert(views(parts@)[0] == parts@[0]@);
    match split_once_chars(parts[0].as_slice(), '=') {
        Some((k, v)) => merge_pair_chars(map, k.as_slice(), v.as_slice()),
        None => {},
    }
}

/// `split_char` always yields at least one piece.
pub proof fn lemma_split_nonempty(s: Seq<char>, d: char)
    ensures
        split_char(s, d).len() >= 1,
    decreases s.len(),
{
    if s.len() > 0 {
        lemma_split_nonempty(s.drop_last(), d);
    }
}

/// Adds every cookie of `extra` to `target`, replacing values of the same
/// name.
pub fn merge_cookie_maps(target: &mut CookieMap, extra: CookieMap)
    requires
        old(target).wf(),
        extra.wf(),
    ensures
        final(target).wf(),
        final(target)@ == old(target)@.union_prefer_right(extra@),
{
    let ghost s = entry_views(extra.entries@);
    let n = extra.entries.len();
    let mut i: usize = 0;
    proof {
        assert(entries_map(s.take(0)) =~= Map::<Seq<char>, Seq<char>>::empty());
        assert(old(target)@.union_prefer_right(entries_map(s.take(0))) =~= old(target)@);
    }
    while i < n
        invariant
            i <= n == extra.entries.len(),
            s == entry_views(extra.entries@),
            distinct_keys(s),
            target.wf(),
            target@ == old(target)@.union_prefer_right(entries_map(s.take(i as int))),
        decreases n - i,
    {
        let k = extra.entries[i].0.clone();
        let v = extra.entries[i].1.clone();
        target.insert_chars(k, v);
        proof {
            lemma_entries_map_take_step(s, i as int);
            assert(target@ =~= old(target)@.union_prefer_right(entries_map(s.take(i as int + 1))));
        }
        i = i + 1;
    }
    assert(s.take(n as int) =~= s);
}

/// Adds each cookie of `extra` whose name `target` does not hold yet;
/// cookies already in `target` keep their values.
pub fn merge_missing_from(target: &mut CookieMap, extra: &CookieMap)
    requires
        old(target).wf(),
        extra.wf(),
    ensures
        final(target).wf(),
        final(target)@ == extra@.union_prefer_right(old(target)@),
{
    let ghost s = entry_views(extra.entries@);
    let ghost t0 = old(target)@;
    let n = extra.entries.len();
    let mut i: usize = 0;
    proof {
        assert(entries_map(s.take(0)) =~= Map::<Seq<char>, Seq<char>>::empty());
        assert(entries_map(s.take(0)).union_prefer_right(t0) =~= t0);
    }
    while i < n
        invariant
            i <= n == extra.entries.len(),
            s == entry_views(extra.entries@),
            distinct_keys(s),
            target.wf(),
            target@ == entries_map(s.take(i as int)).union_prefer_right(t0),
        decreases n - i,
    {
        proof {
            lemma_entries_map_take_step(s, i as int);
            if has_key(s.take(i as int), s[i as int].0) {
                let j = choose|j: int| 0 <= j < s.take(i as int).len() && s.take(i as int)[j].0
                    == s[i as int].0;
                assert(s[j].0 == s[i as int].0);
            }
        }
        let present = target.find(extra.entries[i].0.as_slice());
        if present.is_none() {
            let ghost before = target@;
            assert(!before.contains_key(s[i as int].0));
            assert(!t0.contains_key(s[i as int].0));
            let k = extra.entries[i].0.clone();
            let v = extra.entries[i].1.clone();
            target.insert_chars(k, v);
            proof {
                let m0 = entries_map(s.take(i as int));
                let m1 = entries_map(s.take(i as int + 1));
                assert(m1 == m0.insert(s[i as int].0, s[i as int].1));
                assert(target@ == before.insert(s[i as int].0, s[i as int].1));
                assert(target@ =~= entries_map(s.take(i as int + 1)).union_prefer_right(t0));
            }
        } else {
            proof {
                assert(target@.contains_key(s[i as int].0));
                assert(!has_key(s.take(i as int), s[i as int].0));
                assert(t0.contains_key(s[i as int].0));
                let m0 = entries_map(s.take(i as int));
                let m1 = entries_map(s.take(i as int + 1));
                assert(m1 == m0.insert(s[i as int].0, s[i as int].1));
                assert(m1.union_prefer_right(t0).dom() =~= m0.union_prefer_right(t0).dom());
                assert(m1.union_prefer_right(t0) =~= m0.union_prefer_right(t0));
            }
        }
        i = i + 1;
    }
    assert(s.take(n as int) =~= s);
}

/// Growing a prefix of a distinct listing by one entry inserts that entry.
pub proof fn lemma_entries_map_take_step(s: Seq<(Seq<char>, Seq<char>)>, i: int)
    requires
        distinct_keys(s),
        0 <= i < s.len(),
    ensures
        entries_map(s.take(i + 1)) == entries_map(s.take(i)).insert(s[i].0, s[i].1),
{
    let a = s.take(i);
    let b = s.take(i + 1);
    assert forall|k: Seq<char>| #[trigger] has_key(b, k) == (has_key(a, k) || k == s[i].0) by {
        if has_key(b, k) {
            let j = choose|j: int| 0 <= j < b.len() && b[j].0 == k;
            if j < i {
                assert(a[j].0 == k);
            }
        }
        if has_key(a, k) {
            let j = choose|j: int| 0 <= j < a.len() && a[j].0 == k;
            assert(b[j].0 == k);
        }
        if k == s[i].0 {
            assert(b[i].0 == k);
        }
    }
    assert forall|k: Seq<char>| has_key(b, k) implies entries_map(b)[k] == (if k == s[i].0 {
        s[i].1
    } else {
        entries_map(a)[k]
    }) by {
        let jb = choose|j: int| 0 <= j < b.len() && b[j].0 == k;
        if k == s[i].0 {
            assert(jb == i);
        } else {
            let ja = choose|j: int| 0 <= j < a.len() && a[j].0 == k;
            assert(b[ja].0 == k);
            assert(jb == ja);
        }
    }
    assert(entries_map(b) =~= entries_map(a).insert(s[i].0, s[i].1));
}

/// `map` holds one of TikTok's login cookies (`sessionid`, `sessionid_ss`,
/// `sid_tt`, `sid_guard`, `uid_tt`, `uid_tt_ss`), name case ignored.
pub fn has_login_cookie(map: &CookieMap) -> (b: bool)
    requires
        map.wf(),
    ensures
        b == has_login(map@),
{
    let ghost s = entry_views(map.entries@);
    let names: [&str; 6] = ["sessionid", "sessionid_ss", "sid_tt", "sid_guard", "uid_tt", "uid_tt_ss"];
    let ghost ns = login_cookie_names();
    assert(names@.map_values(|n: &str| n@) =~= ns);
    let mut i: usize = 0;
    while i < map.entries.len()
        invariant
            i <= map.entries.len(),
            s == entry_views(map.entries@),
            ns == login_cookie_names(),
            names@.map_values(|n: &str| n@) == ns,
            forall|q: int| 0 <= q < i ==> !ns.contains(lower_seq(#[trigger] s[q].0)),
        decreases map.entries.len() - i,
    {
        let l = lower_chars(map.entries[i].0.as_slice());
        let mut j: usize = 0;
        while j < 6
            invariant
                j <= 6,
                i < s.len(),
                s == entry_views(map.entries@),
                ns == login_cookie_names(),
                names@.map_values(|n: &str| n@) == ns,
                l@ == lower_seq(s[i as int].0),
                forall|q: int| 0 <= q < j ==> ns[q] != l@,
            decreases 6 - j,
        {
            let nv = chars_of(names[j]);
            assert(names@[j as int]@ == ns[j as int]);
            if eq_chars(l.as_slice(), nv.as_slice()) {
                proof {
                    assert(ns[j as int] == l@);
                    assert(map@.contains_key(s[i as int].0)) by {
                        assert(has_key(s, s[i as int].0));
                    }
                }
                return true;
            }
            j = j + 1;
        }
        assert(!ns.contains(l@)) by {
            if ns.contains(l@) {
                let q = choose|q: int| 0 <= q < ns.len() && ns[q] == l@;
            }
        }
        i = i + 1;
    }
    assert(!has_login(map@)) by {
        if has_login(map@) {
            let k = choose|k: Seq<char>| map@.contains_key(k) && login_cookie_names().contains(
                lower_seq(k),
            );
            let q = choose|q: int| 0 <= q < s.len() && s[q].0 == k;
            assert(!ns.contains(lower_seq(s[q].0)));
        }
    }
    false
}

/// `r` is the canonical `Cookie` header of `m`: the `name=value` pairs of a
/// listing of `m`, sorted, joined by `"; "`.
pub open spec fn is_cookie_string(m: Map<Seq<char>, Seq<char>>, r: Seq<char>) -> bool {
    exists|e: Seq<(Seq<char>, Seq<char>)>, q: Seq<Seq<char>>|
        #![trigger is_listing(e, m), sorted(q)]
        is_listing(e, m) && sorted(q) && q.to_multiset() == e.map_values(
            |p: (Seq<char>, Seq<char>)| pair_text(p),
        ).to_multiset() && r == join(q, semi_sep())
}

/// The canonical `Cookie` header of a map: every `name=value` pair, sorted,
/// joined by `"; "`.
pub fn build_cookie_string(map: &CookieMap) -> (r: String)
    requires
        map.wf(),
    ensures
        is_cookie_string(map@, r@),
{
    let ghost s = entry_views(map.entries@);
    let mut pairs: Vec<Vec<char>> = Vec::new();
    let mut i: usize = 0;
    while i < map.entries.len()
        invariant
            i <= map.entries.len(),
            s == entry_views(map.entries@),
            views(pairs@) == s.take(i as int).map_values(|p: (Seq<char>, Seq<char>)| pair_text(p)),
        decreases map.entries.len() - i,
    {
        let mut t = map.entries[i].0.clone();
        t.push('=');
        push_all(&mut t, map.entries[i].1.as_slice());
        let ghost before = views(pairs@);
        let ghost tv = t@;
        pairs.push(t);
        assert(views(pairs@) =~= before.push(tv));
        assert(tv == pair_text(s[i as int]));
        i = i + 1;
        assert(views(pairs@) =~= s.take(i as int).map_values(|p: (Seq<char>, Seq<char>)| pair_text(p)));
    }
    assert(s.take(map.entries.len() as int) =~= s);
    let q = sort_parts(&pairs);
    let sep = crate::cookies::semi_sep_chars();
    let joined = join_chars(&q, sep.as_slice());
    let r = string_of(joined.as_slice());
    assert(is_listing(s, map@));
    assert(sorted(views(q@)));
    r
}

/// `k` equals one of `keys` up to ASCII case.
pub open spec fn matches_any_ci(k: Seq<char>, keys: Seq<&str>) -> bool {
    exists|j: int| 0 <= j < keys.len() && lower_seq(k) == lower_seq(#[trigger] keys[j]@)
}

/// Removes every cookie whose name equals one of `keys` up to ASCII case.
pub fn remove_cookie_keys_ci(map: &mut CookieMap, keys: &[&str])
    requires
        old(map).wf(),
    ensures
        final(map).wf(),
        final(map)@ == old(map)@.restrict(
            old(map)@.dom().filter(|k: Seq<char>| !matches_any_ci(k, keys@)),
        ),
{
    let ghost s = entry_views(map.entries@);
    let mut lowered: Vec<Vec<char>> = Vec::new();
    let mut j: usize = 0;
    while j < keys.len()
        invariant
            j <= keys.len(),
            lowered@.len() == j,
            forall|q: int| 0 <= q < j ==> #[trigger] lowered@[q]@ == lower_seq(keys@[q]@),
        decreases keys.len() - j,
    {
        let kv = chars_of(keys[j]);
        lowered.push(lower_chars(kv.as_slice()));
        j = j + 1;
    }
    let mut flags: Vec<bool> = Vec::new();
    let mut i: usize = 0;
    while i < map.entries.len()
        invariant
            i <= map.entries.len(),
            s == entry_views(map.entries@),
            lowered@.len() == keys@.len(),
            forall|q: int| 0 <= q < keys@.len() ==> #[trigger] lowered@[q]@ == lower_seq(keys@[q]@),
            flags@.len() == i,
            forall|q: int| 0 <= q < i ==> #[trigger] flags@[q] == !matches_any_ci(s[q].0, keys@),
        decreases map.entries.len() - i,
    {
        let l = lower_chars(map.entries[i].0.as_slice());
        let mut found = false;
        let mut j: usize = 0;
        while j < lowered.len()
            invariant
                j <= lowered.len() == keys@.len(),
                i < s.len(),
                l@ == lower_seq(s[i as int].0),
                forall|q: int| 0 <= q < keys@.len() ==> #[trigger] lowered@[q]@ == lower_seq(keys@[q]@),
                found == exists|q: int| 0 <= q < j && lower_seq(s[i as int].0) == lower_seq(#[trigger] keys@[q]@),
            decreases lowered.len() - j,
        {
            if eq_chars(l.as_slice(), lowered[j].as_slice()) {
                found = true;
            }
            proof {
                if lower_seq(s[i as int].0) == lower_seq(keys@[j as int]@) {
                    assert(exists|q: int| 0 <= q < j + 1 && lower_seq(s[i as int].0) == lower_seq(#[trigger] keys@[q]@));
                }
                if found && !(exists|q: int| 0 <= q < j && lower_seq(s[i as int].0) == lower_seq(#[trigger] keys@[q]@)) {
                    assert(lower_seq(s[i as int].0) == lower_seq(keys@[j as int]@));
                }
            }
            j = j + 1;
        }
        assert(found == matches_any_ci(s[i as int].0, keys@));
        let ghost fb = flags@;
        flags.push(!found);
        assert(flags@ =~= fb.push(!found));
        i = i + 1;
    }
    let ghost drop = |k: Seq<char>| matches_any_ci(k, keys@);
    map.retain_where(Ghost(drop), flags);
    assert(old(map)@.dom().filter(|k: Seq<char>| !drop(k)) =~= old(map)@.dom().filter(
        |k: Seq<char>| !matches_any_ci(k, keys@),
    ));
}

/// Collects the cookies of `Set-Cookie` header values: each value that
/// holds `;` contributes the pair before it, split at its first `=`, name
/// and value trimmed; later values win.
pub fn collect_cookie_map(lines: &Vec<String>) -> (m: CookieMap)
    ensures
        m.wf(),
        m@ == collect_lines(
            Map::<Seq<char>, Seq<char>>::empty(),
            lines@.map_values(|l: String| l@),
        ),
{
    let ghost ls = lines@.map_values(|l: String| l@);
    let mut m = CookieMap::new();
    let mut i: usize = 0;
    assert(ls.take(0) =~= Seq::<Seq<char>>::empty());
    while i < lines.len()
        invariant
            i <= lines.len(),
            ls == lines@.map_values(|l: String| l@),
            m.wf(),
            m@ == collect_lines(Map::<Seq<char>, Seq<char>>::empty(), ls.take(i as int)),
        decreases lines.len() - i,
    {
        assert(ls.take(i as int + 1).drop_last() =~= ls.take(i as int));
        let lv = chars_of(lines[i].as_str());
        match split_once_chars(lv.as_slice(), ';') {
            Some((pair, _rest)) => match split_once_chars(pair.as_slice(), '=') {
                Some((k, v)) => {
                    let kt = trim_chars(k.as_slice());
                    let vt = trim_chars(v.as_slice());
                    m.insert_chars(kt, vt);
                },
                None => {},
            },
            None => {},
        }
        i = i + 1;
    }
    assert(ls.take(lines.len() as int) =~= ls);
    m
}

} // verus!
