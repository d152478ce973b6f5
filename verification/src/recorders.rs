//! The recorder manager's decisions: the list of recorders it shows, the
//! cached room details it refreshes, the reload cooldown it keeps, and the
//! texts of its errors and notices.
use vstd::prelude::*;
use crate::accounts::placeholder_name;
use crate::config::opt_view;
use crate::cookies::concat_str;
use crate::text::{chars_of, same_str, seq_lt, to_string_of, trim, trim_chars};

verus! {

#[derive(Debug)]
/// The room a recorder watches.
pub struct RecorderRoom {
    pub platform: String,
    pub status: bool,
    pub room_id: String,
    pub room_title: String,
    pub room_cover: String,
}

#[derive(Debug)]
/// The user a recorder's room belongs to.
pub struct RecorderUser {
    pub user_id: String,
    pub user_name: String,
    pub user_avatar: String,
}

#[derive(Debug)]
/// What the manager shows of a recorder.
pub struct RecorderInfo {
    pub platform_live_id: String,
    pub live_id: String,
    pub recording: bool,
    pub enabled: bool,
    pub room_info: RecorderRoom,
    pub user_info: RecorderUser,
    pub resolution: Option<String>,
}

#[derive(Debug)]
/// A recorder as stored, with the room details cached for it.
pub struct RecorderRow {
    pub platform: String,
    pub room_id: String,
    pub room_title: Option<String>,
    pub room_cover: Option<String>,
    pub user_name: Option<String>,
    pub user_avatar: Option<String>,
    pub extra: String,
}

#[derive(Debug)]
/// The recorders the manager shows, with the number of stored recorders.
pub struct RecorderList {
    pub count: usize,
    pub recorders: Vec<RecorderInfo>,
}

/// A recorder's shown details: platform, room id, title, cover, user id,
/// user name, avatar, status, live ids, recording, enabled, resolution.
pub struct InfoData {
    pub platform: Seq<char>,
    pub room_id: Seq<char>,
    pub title: Seq<char>,
    pub cover: Seq<char>,
    pub user_id: Seq<char>,
    pub user_name: Seq<char>,
    pub avatar: Seq<char>,
    pub status: bool,
    pub platform_live_id: Seq<char>,
    pub live_id: Seq<char>,
    pub recording: bool,
    pub enabled: bool,
    pub resolution: Option<Seq<char>>,
}

/// The view of a recorder's details.
pub open spec fn info_data(r: RecorderInfo) -> InfoData {
    InfoData {
        platform: r.room_info.platform@,
        room_id: r.room_info.room_id@,
        title: r.room_info.room_title@,
        cover: r.room_info.room_cover@,
        user_id: r.user_info.user_id@,
        user_name: r.user_info.user_name@,
        avatar: r.user_info.user_avatar@,
        status: r.room_info.status,
        platform_live_id: r.platform_live_id@,
        live_id: r.live_id@,
        recording: r.recording,
        enabled: r.enabled,
        resolution: opt_view(r.resolution),
    }
}

/// The views of a list of recorder details.
pub open spec fn infos_data(v: Seq<RecorderInfo>) -> Seq<InfoData> {
    v.map_values(|r: RecorderInfo| info_data(r))
}

/// A stored recorder's details: platform, room id, title, cover, user name,
/// avatar, extra data.
pub struct RowData {
    pub platform: Seq<char>,
    pub room_id: Seq<char>,
    pub title: Option<Seq<char>>,
    pub cover: Option<Seq<char>>,
    pub user_name: Option<Seq<char>>,
    pub avatar: Option<Seq<char>>,
    pub extra: Seq<char>,
}

/// The view of a stored recorder.
pub open spec fn row_data(r: RecorderRow) -> RowData {
    RowData {
        platform: r.platform@,
        room_id: r.room_id@,
        title: opt_view(r.room_title),
        cover: opt_view(r.room_cover),
        user_name: opt_view(r.user_name),
        avatar: opt_view(r.user_avatar),
        extra: r.extra@,
    }
}

/// The views of stored recorders.
pub open spec fn rows_data(v: Seq<RecorderRow>) -> Seq<RowData> {
    v.map_values(|r: RecorderRow| row_data(r))
}

/// The key a recorder is known by: its platform, `:` and its room id.
pub open spec fn recorder_key(platform: Seq<char>, room_id: Seq<char>) -> Seq<char> {
    platform + ":"@ + room_id
}

/// The last stored recorder with key `key`.
pub open spec fn row_for(rows: Seq<RowData>, key: Seq<char>) -> Option<RowData>
    decreases rows.len(),
{
    if rows.len() == 0 {
        None
    } else if recorder_key(rows.last().platform, rows.last().room_id) == key {
        Some(rows.last())
    } else {
        row_for(rows.drop_last(), key)
    }
}

/// What a stored recorder that is not running is shown as.
pub open spec fn idle_info(r: RowData) -> InfoData {
    InfoData {
        platform: r.platform,
        room_id: r.room_id,
        title: match r.title {
            Some(t) => t,
            None => r.room_id,
        },
        cover: match r.cover {
            Some(c) => c,
            None => Seq::<char>::empty(),
        },
        user_id: Seq::<char>::empty(),
        user_name: match r.user_name {
            Some(n) => n,
            None => Seq::<char>::empty(),
        },
        avatar: match r.avatar {
            Some(a) => a,
            None => Seq::<char>::empty(),
        },
        status: false,
        platform_live_id: Seq::<char>::empty(),
        live_id: Seq::<char>::empty(),
        recording: false,
        enabled: false,
        resolution: None,
    }
}

/// A running recorder has key `key`.
pub open spec fn running_has(running: Seq<InfoData>, key: Seq<char>) -> bool {
    exists|j: int| 0 <= j < running.len() && recorder_key(running[j].platform, running[j].room_id) == key
}

/// The stored recorders that are not running, as shown, in order.
pub open spec fn idle_infos(rows: Seq<RowData>, running: Seq<InfoData>) -> Seq<InfoData>
    decreases rows.len(),
{
    if rows.len() == 0 {
        Seq::<InfoData>::empty()
    } else {
        let p = idle_infos(rows.drop_last(), running);
        let r = rows.last();
        if running_has(running, recorder_key(r.platform, r.room_id)) {
            p
        } else {
            p.push(idle_info(r))
        }
    }
}

/// A shown value that may be replaced by a cached one: Kuaishou's
/// placeholders and empty values.
pub open spec fn replaceable(platform: Seq<char>, v: Seq<char>) -> bool {
    (platform == "kuaishou"@ && placeholder_name(v)) || v.len() == 0
}

/// The user id a recorder without one is shown with: Douyin's stored extra
/// data, or for Kuaishou and TikTok the room id, when not empty.
pub open spec fn filled_user_id(i: InfoData, row: Option<RowData>) -> Seq<char> {
    if i.user_id.len() > 0 {
        i.user_id
    } else if i.platform == "douyin"@ {
        match row {
            Some(r) => if r.extra.len() > 0 {
                r.extra
            } else {
                i.user_id
            },
            None => i.user_id,
        }
    } else if (i.platform == "kuaishou"@ || i.platform == "tiktok"@) && i.room_id.len() > 0 {
        i.room_id
    } else {
        i.user_id
    }
}

/// A recorder's details completed from its stored row: a replaceable title
/// or user name takes the cached one when that is not blank, an empty cover
/// or avatar takes the cached one; then the user id (`filled_user_id`).
pub open spec fn filled_info(i: InfoData, row: Option<RowData>) -> InfoData {
    match row {
        Some(r) => InfoData {
            title: if replaceable(i.platform, i.title) && (r.title matches Some(t) && trim(t).len() > 0) {
                r.title.unwrap()
            } else {
                i.title
            },
            cover: if i.cover.len() == 0 && r.cover is Some {
                r.cover.unwrap()
            } else {
                i.cover
            },
            user_name: if replaceable(i.platform, i.user_name) && (r.user_name matches Some(n) && trim(n).len() > 0) {
                r.user_name.unwrap()
            } else {
                i.user_name
            },
            avatar: if i.avatar.len() == 0 && r.avatar is Some {
                r.avatar.unwrap()
            } else {
                i.avatar
            },
            user_id: filled_user_id(i, row),
            ..i
        },
        None => InfoData { user_id: filled_user_id(i, row), ..i },
    }
}

/// A shown value differs from the cached one (a missing one counts as
/// empty); an empty shown value never does.
pub open spec fn differs(shown: Seq<char>, cached: Option<Seq<char>>) -> bool {
    shown.len() > 0 && shown != match cached {
        Some(c) => c,
        None => Seq::<char>::empty(),
    }
}

/// The cached details to rewrite for a shown recorder: when it shows some
/// detail, has a stored row that one of its details differs from, and its
/// platform is known: platform, room id, title, cover, user name, avatar.
pub open spec fn cache_update(i: InfoData, row: Option<RowData>) -> Option<
    (Seq<char>, Seq<char>, Seq<char>, Seq<char>, Seq<char>, Seq<char>),
> {
    if i.title.len() == 0 && i.cover.len() == 0 && i.user_name.len() == 0 && i.avatar.len() == 0 {
        None
    } else {
        match row {
            Some(r) => if (differs(i.title, r.title) || differs(i.cover, r.cover) || differs(
                i.user_name,
                r.user_name,
            ) || differs(i.avatar, r.avatar)) && crate::account_rows::platform_named(i.platform) is Some {
                Some((i.platform, i.room_id, i.title, i.cover, i.user_name, i.avatar))
            } else {
                None
            },
            None => None,
        }
    }
}

} // verus!

verus! {

/// The shown recorders completed from the stored rows.
pub open spec fn filled_infos(infos: Seq<InfoData>, rows: Seq<RowData>) -> Seq<InfoData> {
    infos.map_values(|i: InfoData| filled_info(i, row_for(rows, recorder_key(i.platform, i.room_id))))
}

/// The cached details to rewrite, in the order of the shown recorders.
pub open spec fn cache_updates(infos: Seq<InfoData>, rows: Seq<RowData>) -> Seq<
    (Seq<char>, Seq<char>, Seq<char>, Seq<char>, Seq<char>, Seq<char>),
>
    decreases infos.len(),
{
    if infos.len() == 0 {
        Seq::empty()
    } else {
        let p = cache_updates(infos.drop_last(), rows);
        let i = infos.last();
        match cache_update(i, row_for(rows, recorder_key(i.platform, i.room_id))) {
            Some(u) => p.push(u),
            None => p,
        }
    }
}

/// `x` inserted into recorders sorted by room id, after every recorder
/// whose room id it does not precede.
pub open spec fn insert_by_room(sorted: Seq<InfoData>, x: InfoData) -> Seq<InfoData>
    decreases sorted.len(),
{
    if sorted.len() == 0 {
        seq![x]
    } else if seq_lt(x.room_id, sorted.last().room_id) {
        insert_by_room(sorted.drop_last(), x).push(sorted.last())
    } else {
        sorted.push(x)
    }
}

/// Recorders in the order of a stable sort by room id.
pub open spec fn sorted_by_room(s: Seq<InfoData>) -> Seq<InfoData>
    decreases s.len(),
{
    if s.len() == 0 {
        s
    } else {
        insert_by_room(sorted_by_room(s.drop_last()), s.last())
    }
}

/// The recorders shown: the running ones (in the order given), then the
/// stored ones that are not running; all completed from the stored rows.
pub open spec fn shown_recorders(running: Seq<InfoData>, rows: Seq<RowData>) -> Seq<InfoData> {
    filled_infos(running + idle_infos(rows, running), rows)
}

/// The key of a shown recorder.
pub open spec fn info_key(i: InfoData) -> Seq<char> {
    recorder_key(i.platform, i.room_id)
}

/// How many of the recorders `s` have the key `key`.
pub open spec fn count_key(s: Seq<InfoData>, key: Seq<char>) -> nat
    decreases s.len(),
{
    if s.len() == 0 {
        0
    } else {
        count_key(s.drop_last(), key) + if info_key(s.last()) == key {
            1nat
        } else {
            0nat
        }
    }
}

/// How many of the stored rows have the key `key`.
pub open spec fn count_row_key(rows: Seq<RowData>, key: Seq<char>) -> nat
    decreases rows.len(),
{
    if rows.len() == 0 {
        0
    } else {
        count_row_key(rows.drop_last(), key) + if recorder_key(rows.last().platform, rows.last().room_id)
            == key {
            1nat
        } else {
            0nat
        }
    }
}

/// No two running recorders have the same key.
pub open spec fn distinct_info_keys(s: Seq<InfoData>) -> bool {
    forall|i: int, j: int| 0 <= i < j < s.len() ==> info_key(#[trigger] s[i]) != info_key(#[trigger] s[j])
}

/// No two stored recorders have the same key.
pub open spec fn distinct_row_keys(rows: Seq<RowData>) -> bool {
    forall|i: int, j: int|
        0 <= i < j < rows.len() ==> recorder_key(#[trigger] rows[i].platform, rows[i].room_id) != recorder_key(
            #[trigger] rows[j].platform,
            rows[j].room_id,
        )
}

proof fn lemma_count_key_concat(a: Seq<InfoData>, b: Seq<InfoData>, key: Seq<char>)
    ensures
        count_key(a + b, key) == count_key(a, key) + count_key(b, key),
    decreases b.len(),
{
    if b.len() == 0 {
        assert(a + b =~= a);
    } else {
        lemma_count_key_concat(a, b.drop_last(), key);
        assert((a + b).drop_last() =~= a + b.drop_last());
        assert((a + b).last() == b.last());
    }
}

proof fn lemma_count_key_insert(s: Seq<InfoData>, k: int, x: InfoData, key: Seq<char>)
    requires
        0 <= k <= s.len(),
    ensures
        count_key(s.insert(k, x), key) == count_key(s, key) + if info_key(x) == key {
            1nat
        } else {
            0nat
        },
{
    assert(s.insert(k, x) =~= s.take(k) + (seq![x] + s.skip(k)));
    assert(s =~= s.take(k) + s.skip(k));
    lemma_count_key_concat(s.take(k), seq![x] + s.skip(k), key);
    lemma_count_key_concat(seq![x], s.skip(k), key);
    lemma_count_key_concat(s.take(k), s.skip(k), key);
    let one = seq![x];
    assert(one.drop_last() =~= Seq::<InfoData>::empty());
    assert(one.last() == x);
    assert(count_key(Seq::<InfoData>::empty(), key) == 0);
    assert(count_key(one, key) == count_key(one.drop_last(), key) + if info_key(x) == key {
        1nat
    } else {
        0nat
    });
}

proof fn lemma_insert_by_room_shape(sorted: Seq<InfoData>, x: InfoData) -> (k: int)
    ensures
        0 <= k <= sorted.len(),
        insert_by_room(sorted, x) == sorted.insert(k, x),
    decreases sorted.len(),
{
    if sorted.len() == 0 {
        assert(seq![x] =~= sorted.insert(0, x));
        0
    } else if seq_lt(x.room_id, sorted.last().room_id) {
        let k = lemma_insert_by_room_shape(sorted.drop_last(), x);
        assert(sorted.drop_last().insert(k, x).push(sorted.last()) =~= sorted.insert(k, x));
        k
    } else {
        assert(sorted.push(x) =~= sorted.insert(sorted.len() as int, x));
        sorted.len() as int
    }
}

/// Sorting by room id keeps how many recorders have each key.
proof fn lemma_sorted_by_room_count(s: Seq<InfoData>, key: Seq<char>)
    ensures
        count_key(sorted_by_room(s), key) == count_key(s, key),
    decreases s.len(),
{
    if s.len() > 0 {
        lemma_sorted_by_room_count(s.drop_last(), key);
        let k = lemma_insert_by_room_shape(sorted_by_room(s.drop_last()), s.last());
        lemma_count_key_insert(sorted_by_room(s.drop_last()), k, s.last(), key);
    }
}

/// Completing recorders from the stored rows keeps their keys.
proof fn lemma_filled_infos_count(s: Seq<InfoData>, rows: Seq<RowData>, key: Seq<char>)
    ensures
        count_key(filled_infos(s, rows), key) == count_key(s, key),
    decreases s.len(),
{
    if s.len() > 0 {
        lemma_filled_infos_count(s.drop_last(), rows, key);
        assert(filled_infos(s, rows).drop_last() =~= filled_infos(s.drop_last(), rows));
        assert(filled_infos(s, rows).last() == filled_info(
            s.last(),
            row_for(rows, recorder_key(s.last().platform, s.last().room_id)),
        ));
    }
}

/// The stored recorders shown as not running: none with the key of a
/// running one, and each stored one with another key.
proof fn lemma_idle_infos_count(rows: Seq<RowData>, running: Seq<InfoData>, key: Seq<char>)
    ensures
        running_has(running, key) ==> count_key(idle_infos(rows, running), key) == 0,
        !running_has(running, key) ==> count_key(idle_infos(rows, running), key) == count_row_key(rows, key),
    decreases rows.len(),
{
    if rows.len() > 0 {
        lemma_idle_infos_count(rows.drop_last(), running, key);
        let r = rows.last();
        let p = idle_infos(rows.drop_last(), running);
        if !running_has(running, recorder_key(r.platform, r.room_id)) {
            assert(p.push(idle_info(r)).drop_last() =~= p);
            assert(info_key(idle_info(r)) == recorder_key(r.platform, r.room_id));
        }
    }
}

/// With distinct keys, a key held by one member is held by exactly one, and
/// a key held by none is counted zero.
proof fn lemma_count_row_distinct(rows: Seq<RowData>, key: Seq<char>)
    requires
        distinct_row_keys(rows),
    ensures
        (forall|j: int| 0 <= j < rows.len() ==> recorder_key(#[trigger] rows[j].platform, rows[j].room_id) != key)
            ==> count_row_key(rows, key) == 0,
        (exists|j: int| 0 <= j < rows.len() && recorder_key(#[trigger] rows[j].platform, rows[j].room_id) == key)
            ==> count_row_key(rows, key) == 1,
    decreases rows.len(),
{
    if rows.len() > 0 {
        let d = rows.drop_last();
        assert(distinct_row_keys(d)) by {
            assert forall|i: int, j: int| 0 <= i < j < d.len() implies recorder_key(#[trigger] d[i].platform, d[i].room_id)
                != recorder_key(#[trigger] d[j].platform, d[j].room_id) by {
                assert(d[i] == rows[i] && d[j] == rows[j]);
            }
        }
        lemma_count_row_distinct(d, key);
        let n = rows.len() - 1;
        assert(rows.last() == rows[n]);
        if recorder_key(rows[n].platform, rows[n].room_id) == key {
            assert forall|j: int| 0 <= j < d.len() implies recorder_key(#[trigger] d[j].platform, d[j].room_id) != key by {
                assert(d[j] == rows[j]);
            }
        } else {
            if exists|j: int| 0 <= j < rows.len() && recorder_key(#[trigger] rows[j].platform, rows[j].room_id) == key {
                let j = choose|j: int| 0 <= j < rows.len() && recorder_key(#[trigger] rows[j].platform, rows[j].room_id) == key;
                assert(d[j] == rows[j]);
            } else {
                assert forall|j: int| 0 <= j < d.len() implies recorder_key(#[trigger] d[j].platform, d[j].room_id) != key by {
                    assert(d[j] == rows[j]);
                }
            }
        }
    }
}

/// With distinct keys, a running recorder's key is counted once, another
/// key zero times.
proof fn lemma_count_info_distinct(s: Seq<InfoData>, key: Seq<char>)
    requires
        distinct_info_keys(s),
    ensures
        !running_has(s, key) ==> count_key(s, key) == 0,
        running_has(s, key) ==> count_key(s, key) == 1,
    decreases s.len(),
{
    if s.len() > 0 {
        let d = s.drop_last();
        assert(distinct_info_keys(d)) by {
            assert forall|i: int, j: int| 0 <= i < j < d.len() implies info_key(#[trigger] d[i]) != info_key(#[trigger] d[j]) by {
                assert(d[i] == s[i] && d[j] == s[j]);
            }
        }
        lemma_count_info_distinct(d, key);
        let n = s.len() - 1;
        assert(s.last() == s[n]);
        if info_key(s[n]) == key {
            assert(!running_has(d, key)) by {
                if running_has(d, key) {
                    let j = choose|j: int| 0 <= j < d.len() && recorder_key(d[j].platform, d[j].room_id) == key;
                    assert(d[j] == s[j]);
                    assert(info_key(s[j]) == info_key(s[n]));
                }
            }
        } else {
            if running_has(s, key) {
                let j = choose|j: int| 0 <= j < s.len() && recorder_key(s[j].platform, s[j].room_id) == key;
                assert(d[j] == s[j]);
            } else {
                assert(!running_has(d, key)) by {
                    if running_has(d, key) {
                        let j = choose|j: int| 0 <= j < d.len() && recorder_key(d[j].platform, d[j].room_id) == key;
                        assert(d[j] == s[j]);
                    }
                }
            }
        }
    }
}

/// Every running recorder is shown exactly once, whether it is stored or
/// not (when the running recorders have distinct keys).
pub proof fn lemma_running_recorders_shown_once(running: Seq<InfoData>, rows: Seq<RowData>)
    requires
        distinct_info_keys(running),
    ensures
        forall|j: int|
            0 <= j < running.len() ==> count_key(sorted_by_room(shown_recorders(running, rows)), info_key(#[trigger] running[j]))
                == 1,
{
    assert forall|j: int| 0 <= j < running.len() implies count_key(
        sorted_by_room(shown_recorders(running, rows)),
        info_key(#[trigger] running[j]),
    ) == 1 by {
        let key = info_key(running[j]);
        let all = running + idle_infos(rows, running);
        assert(running_has(running, key));
        lemma_sorted_by_room_count(filled_infos(all, rows), key);
        lemma_filled_infos_count(all, rows, key);
        lemma_count_key_concat(running, idle_infos(rows, running), key);
        lemma_idle_infos_count(rows, running, key);
        lemma_count_info_distinct(running, key);
    }
}

/// Every stored recorder is shown exactly once, running or not: when the
/// running recorders have distinct keys and so do the stored ones, for
/// each stored recorder exactly one shown recorder (in the list sorted by
/// room id) has its platform and room id.
pub proof fn lemma_stored_recorders_shown_once(running: Seq<InfoData>, rows: Seq<RowData>)
    requires
        distinct_info_keys(running),
        distinct_row_keys(rows),
    ensures
        forall|i: int|
            0 <= i < rows.len() ==> count_key(
                sorted_by_room(shown_recorders(running, rows)),
                recorder_key(#[trigger] rows[i].platform, rows[i].room_id),
            ) == 1,
{
    assert forall|i: int| 0 <= i < rows.len() implies count_key(
        sorted_by_room(shown_recorders(running, rows)),
        recorder_key(#[trigger] rows[i].platform, rows[i].room_id),
    ) == 1 by {
        let key = recorder_key(rows[i].platform, rows[i].room_id);
        let all = running + idle_infos(rows, running);
        lemma_sorted_by_room_count(filled_infos(all, rows), key);
        lemma_filled_infos_count(all, rows, key);
        lemma_count_key_concat(running, idle_infos(rows, running), key);
        lemma_idle_infos_count(rows, running, key);
        lemma_count_info_distinct(running, key);
        lemma_count_row_distinct(rows, key);
    }
}

/// The view of a cache update.
pub open spec fn update_data(u: (String, String, String, String, String, String)) -> (
    Seq<char>,
    Seq<char>,
    Seq<char>,
    Seq<char>,
    Seq<char>,
    Seq<char>,
) {
    (u.0@, u.1@, u.2@, u.3@, u.4@, u.5@)
}

#[derive(Debug)]
/// The recorder list and the cached details it calls to rewrite.
pub struct RecorderListing {
    pub list: RecorderList,
    pub cache_updates: Vec<(String, String, String, String, String, String)>,
}

/// An owned copy of an optional string.
fn copy_opt(s: &Option<String>) -> (r: Option<String>)
    ensures
        opt_view(r) == opt_view(*s),
{
    match s {
        Some(x) => Some(x.clone()),
        None => None,
    }
}

/// The key of a recorder (`recorder_key`).
fn key_of(platform: &String, room_id: &String) -> (r: String)
    ensures
        r@ == recorder_key(platform@, room_id@),
{
    let mut k = concat_str(platform.as_str(), ":");
    k.append(room_id.as_str());
    k
}

/// Exec `row_for`, as an index.
fn find_row(rows: &Vec<RecorderRow>, key: &String) -> (r: Option<usize>)
    ensures
        match r {
            Some(k) => k < rows@.len() && row_for(rows_data(rows@), key@) == Some(row_data(rows@[k as int])),
            None => row_for(rows_data(rows@), key@) is None,
        },
{
    let ghost rv = rows_data(rows@);
    let mut k: usize = rows.len();
    assert(rv.take(k as int) =~= rv);
    while k > 0
        invariant
            k <= rows.len(),
            rv == rows_data(rows@),
            row_for(rv, key@) == row_for(rv.take(k as int), key@),
        decreases k,
    {
        assert(rv.take(k as int).drop_last() =~= rv.take(k as int - 1));
        assert(rv.take(k as int).last() == row_data(rows@[k - 1]));
        let rk = key_of(&rows[k - 1].platform, &rows[k - 1].room_id);
        if same_str(rk.as_str(), key.as_str()) {
            return Some(k - 1);
        }
        k = k - 1;
    }
    None
}

/// Exec `running_has`.
fn running_has_exec(running: &Vec<RecorderInfo>, key: &String) -> (b: bool)
    ensures
        b == running_has(infos_data(running@), key@),
{
    let ghost iv = infos_data(running@);
    let mut j: usize = 0;
    while j < running.len()
        invariant
            j <= running.len(),
            iv == infos_data(running@),
            forall|k: int| 0 <= k < j ==> recorder_key(iv[k].platform, iv[k].room_id) != key@,
        decreases running.len() - j,
    {
        assert(iv[j as int] == info_data(running@[j as int]));
        let rk = key_of(&running[j].room_info.platform, &running[j].room_info.room_id);
        if same_str(rk.as_str(), key.as_str()) {
            return true;
        }
        j = j + 1;
    }
    false
}

/// Exec `replaceable`.
fn replaceable_exec(platform: &String, v: &String) -> (b: bool)
    ensures
        b == replaceable(platform@, v@),
{
    (same_str(platform.as_str(), "kuaishou") && crate::accounts::is_placeholder_name(v.as_str()))
        || v.unicode_len() == 0
}

/// A string that is not blank.
fn not_blank(s: &String) -> (b: bool)
    ensures
        b == (trim(s@).len() > 0),
{
    let c = chars_of(s.as_str());
    trim_chars(c.as_slice()).len() > 0
}

/// Exec `filled_info`.
fn fill_one(i: &RecorderInfo, row: Option<&RecorderRow>) -> (r: RecorderInfo)
    ensures
        info_data(r) == filled_info(
            info_data(*i),
            match row {
                Some(x) => Some(row_data(*x)),
                None => None,
            },
        ),
{
    let p = &i.room_info.platform;
    let mut title = i.room_info.room_title.clone();
    let mut cover = i.room_info.room_cover.clone();
    let mut user_name = i.user_info.user_name.clone();
    let mut avatar = i.user_info.user_avatar.clone();
    let mut user_id = i.user_info.user_id.clone();
    if let Some(r) = row {
        if replaceable_exec(p, &i.room_info.room_title) {
            if let Some(t) = &r.room_title {
                if not_blank(t) {
                    title = t.clone();
                }
            }
        }
        if i.room_info.room_cover.unicode_len() == 0 {
            if let Some(c) = &r.room_cover {
                cover = c.clone();
            }
        }
        if replaceable_exec(p, &i.user_info.user_name) {
            if let Some(n) = &r.user_name {
                if not_blank(n) {
                    user_name = n.clone();
                }
            }
        }
        if i.user_info.user_avatar.unicode_len() == 0 {
            if let Some(a) = &r.user_avatar {
                avatar = a.clone();
            }
        }
    }
    if i.user_info.user_id.unicode_len() == 0 {
        if same_str(p.as_str(), "douyin") {
            if let Some(r) = row {
                if r.extra.unicode_len() > 0 {
                    user_id = r.extra.clone();
                }
            }
        } else if (same_str(p.as_str(), "kuaishou") || same_str(p.as_str(), "tiktok"))
            && i.room_info.room_id.unicode_len() > 0 {
            user_id = i.room_info.room_id.clone();
        }
    }
    RecorderInfo {
        platform_live_id: i.platform_live_id.clone(),
        live_id: i.live_id.clone(),
        recording: i.recording,
        enabled: i.enabled,
        room_info: RecorderRoom {
            platform: p.clone(),
            status: i.room_info.status,
            room_id: i.room_info.room_id.clone(),
            room_title: title,
            room_cover: cover,
        },
        user_info: RecorderUser { user_id, user_name, user_avatar: avatar },
        resolution: copy_opt(&i.resolution),
    }
}

/// Exec `differs`.
fn differs_exec(shown: &String, cached: &Option<String>) -> (b: bool)
    ensures
        b == differs(shown@, opt_view(*cached)),
{
    if shown.unicode_len() == 0 {
        return false;
    }
    match cached {
        Some(c) => !same_str(shown.as_str(), c.as_str()),
        None => {
            proof {
                reveal_strlit("");
            }
            true
        },
    }
}

/// Exec `cache_update`.
fn cache_update_exec(i: &RecorderInfo, row: Option<&RecorderRow>) -> (r: Option<(String, String, String, String, String, String)>)
    ensures
        match r {
            Some(u) => cache_update(
                info_data(*i),
                match row {
                    Some(x) => Some(row_data(*x)),
                    None => None,
                },
            ) == Some(update_data(u)),
            None => cache_update(
                info_data(*i),
                match row {
                    Some(x) => Some(row_data(*x)),
                    None => None,
                },
            ) is None,
        },
{
    if i.room_info.room_title.unicode_len() == 0 && i.room_info.room_cover.unicode_len() == 0
        && i.user_info.user_name.unicode_len() == 0 && i.user_info.user_avatar.unicode_len() == 0 {
        return None;
    }
    match row {
        Some(r) => {
            let changed = differs_exec(&i.room_info.room_title, &r.room_title) || differs_exec(
                &i.room_info.room_cover,
                &r.room_cover,
            ) || differs_exec(&i.user_info.user_name, &r.user_name) || differs_exec(
                &i.user_info.user_avatar,
                &r.user_avatar,
            );
            if changed && crate::account_rows::Platform::from_str(i.room_info.platform.as_str()).is_some() {
                Some(
                    (
                        i.room_info.platform.clone(),
                        i.room_info.room_id.clone(),
                        i.room_info.room_title.clone(),
                        i.room_info.room_cover.clone(),
                        i.user_info.user_name.clone(),
                        i.user_info.user_avatar.clone(),
                    ),
                )
            } else {
                None
            }
        },
        None => None,
    }
}

} // verus!

verus! {

/// What a stored recorder that is not running is shown as (`idle_info`).
fn idle_info_exec(r: &RecorderRow) -> (i: RecorderInfo)
    ensures
        info_data(i) == idle_info(row_data(*r)),
{
    let title = match &r.room_title {
        Some(t) => t.clone(),
        None => r.room_id.clone(),
    };
    let cover = match &r.room_cover {
        Some(c) => c.clone(),
        None => String::new(),
    };
    let user_name = match &r.user_name {
        Some(n) => n.clone(),
        None => String::new(),
    };
    let avatar = match &r.user_avatar {
        Some(a) => a.clone(),
        None => String::new(),
    };
    RecorderInfo {
        platform_live_id: String::new(),
        live_id: String::new(),
        recording: false,
        enabled: false,
        room_info: RecorderRoom {
            platform: r.platform.clone(),
            status: false,
            room_id: r.room_id.clone(),
            room_title: title,
            room_cover: cover,
        },
        user_info: RecorderUser { user_id: String::new(), user_name, user_avatar: avatar },
        resolution: None,
    }
}

/// One step of the backward scan for `x`'s place among recorders sorted by
/// room id.
proof fn lemma_insert_by_room_step(s: Seq<InfoData>, k: int, x: InfoData)
    requires
        0 < k <= s.len(),
        seq_lt(x.room_id, s[k - 1].room_id),
    ensures
        insert_by_room(s.take(k), x) + s.skip(k) == insert_by_room(s.take(k - 1), x) + s.skip(k - 1),
{
    assert(s.take(k).drop_last() =~= s.take(k - 1));
    assert(s.take(k).last() == s[k - 1]);
    assert(insert_by_room(s.take(k - 1), x).push(s[k - 1]) + s.skip(k) =~= insert_by_room(
        s.take(k - 1),
        x,
    ) + s.skip(k - 1));
}

/// Recorders sorted stably by room id (`sorted_by_room`).
fn sort_by_room(v: Vec<RecorderInfo>) -> (r: Vec<RecorderInfo>)
    ensures
        infos_data(r@) == sorted_by_room(infos_data(v@)),
{
    let ghost id = infos_data(v@);
    let mut rest = v;
    let mut stack: Vec<RecorderInfo> = Vec::new();
    assert(infos_data(rest@) + infos_data(stack@).reverse() =~= id);
    while rest.len() > 0
        invariant
            infos_data(rest@) + infos_data(stack@).reverse() == id,
        decreases rest.len(),
    {
        let ghost bs = infos_data(stack@);
        let ghost br = infos_data(rest@);
        let e = rest.pop().unwrap();
        stack.push(e);
        proof {
            assert(infos_data(stack@) =~= bs.push(info_data(e)));
            assert(infos_data(rest@) =~= br.drop_last());
            assert(br =~= br.drop_last().push(info_data(e)));
            assert(bs.push(info_data(e)).reverse() =~= seq![info_data(e)] + bs.reverse());
            assert(infos_data(rest@) + infos_data(stack@).reverse() =~= br + bs.reverse());
        }
    }
    assert(infos_data(rest@) =~= Seq::<InfoData>::empty());
    assert(infos_data(stack@) =~= id.reverse());
    let mut out: Vec<RecorderInfo> = Vec::new();
    assert(sorted_by_room(id.take(0)) =~= Seq::<InfoData>::empty());
    while stack.len() > 0
        invariant
            infos_data(stack@) == id.reverse().take(stack@.len() as int),
            stack@.len() <= id.len(),
            infos_data(out@) == sorted_by_room(id.take((id.len() - stack@.len()) as int)),
        decreases stack.len(),
    {
        let ghost j = (id.len() - stack@.len()) as int;
        let ghost od = infos_data(out@);
        let ghost bs = infos_data(stack@);
        let c = stack.pop().unwrap();
        proof {
            assert(bs.last() == info_data(c));
            assert(id.reverse()[stack@.len() as int] == id[j]);
            assert(infos_data(stack@) =~= id.reverse().take(stack@.len() as int));
            assert(id.take(j + 1).drop_last() =~= id.take(j));
        }
        let ghost x = info_data(c);
        let cr = chars_of(c.room_info.room_id.as_str());
        let mut k: usize = out.len();
        assert(od.take(k as int) =~= od);
        assert(od.skip(k as int) =~= Seq::<InfoData>::empty());
        while k > 0 && crate::text::lt_chars(cr.as_slice(), chars_of(out[k - 1].room_info.room_id.as_str()).as_slice())
            invariant
                k <= out.len(),
                od == infos_data(out@),
                x == info_data(c),
                cr@ == x.room_id,
                insert_by_room(od, x) == insert_by_room(od.take(k as int), x) + od.skip(k as int),
            decreases k,
        {
            proof {
                assert(infos_data(out@)[k - 1] == info_data(out@[k - 1]));
                lemma_insert_by_room_step(od, k as int, x);
            }
            k = k - 1;
        }
        proof {
            if k > 0 {
                assert(infos_data(out@)[k - 1] == info_data(out@[k - 1]));
                assert(od.take(k as int).last() == od[k - 1]);
                assert(insert_by_room(od.take(k as int), x) == od.take(k as int).push(x));
            } else {
                assert(insert_by_room(od.take(0), x) =~= seq![x]);
            }
            assert(od.take(k as int).push(x) + od.skip(k as int) =~= od.insert(k as int, x));
        }
        out.insert(k, c);
        proof {
            assert(infos_data(out@) =~= od.insert(k as int, x));
        }
    }
    assert(id.take(id.len() as int) =~= id);
    out
}

/// The recorder list the manager shows, given the running recorders (in
/// any order) and the stored ones: `count` is the number of stored
/// recorders; the recorders are `shown_recorders`, stably sorted by room
/// id; the cache updates are those of `cache_updates`, in the order before
/// sorting.
pub fn build_recorder_list(running: Vec<RecorderInfo>, rows: &Vec<RecorderRow>) -> (r: RecorderListing)
    ensures
        r.list.count == rows@.len(),
        infos_data(r.list.recorders@) == sorted_by_room(
            shown_recorders(infos_data(running@), rows_data(rows@)),
        ),
        r.cache_updates@.map_values(|u: (String, String, String, String, String, String)| update_data(u))
            == cache_updates(
            shown_recorders(infos_data(running@), rows_data(rows@)),
            rows_data(rows@),
        ),
        distinct_info_keys(infos_data(running@)) && distinct_row_keys(rows_data(rows@)) ==> forall|i: int|
            0 <= i < rows@.len() ==> count_key(
                infos_data(r.list.recorders@),
                recorder_key(#[trigger] rows@[i].platform@, rows@[i].room_id@),
            ) == 1,        distinct_info_keys(infos_data(running@)) ==> forall|j: int|
            0 <= j < running@.len() ==> count_key(
                infos_data(r.list.recorders@),
                recorder_key(#[trigger] running@[j].room_info.platform@, running@[j].room_info.room_id@),
            ) == 1,
{
    let ghost rv = rows_data(rows@);
    let ghost runv = infos_data(running@);
    let ghost run0 = running@;
    let mut idle: Vec<RecorderInfo> = Vec::new();
    let mut i: usize = 0;
    assert(rv.take(0) =~= Seq::<RowData>::empty());
    while i < rows.len()
        invariant
            i <= rows.len(),
            rv == rows_data(rows@),
            runv == infos_data(running@),
            infos_data(idle@) == idle_infos(rv.take(i as int), runv),
        decreases rows.len() - i,
    {
        assert(rv.take(i as int + 1).drop_last() =~= rv.take(i as int));
        assert(rv.take(i as int + 1).last() == row_data(rows@[i as int]));
        let k = key_of(&rows[i].platform, &rows[i].room_id);
        if !running_has_exec(&running, &k) {
            let ghost before = infos_data(idle@);
            let e = idle_info_exec(&rows[i]);
            idle.push(e);
            assert(infos_data(idle@) =~= before.push(info_data(e)));
        }
        i = i + 1;
    }
    assert(rv.take(rows.len() as int) =~= rv);
    let mut all = running;
    let ghost a0 = infos_data(all@);
    let ghost b0 = infos_data(idle@);
    all.append(&mut idle);
    assert(infos_data(all@) =~= a0 + b0);
    let ghost allv = infos_data(all@);
    let mut filled: Vec<RecorderInfo> = Vec::new();
    let mut j: usize = 0;
    while j < all.len()
        invariant
            j <= all.len(),
            allv == infos_data(all@),
            rv == rows_data(rows@),
            infos_data(filled@) == filled_infos(allv, rv).take(j as int),
        decreases all.len() - j,
    {
        assert(allv[j as int] == info_data(all@[j as int]));
        let k = key_of(&all[j].room_info.platform, &all[j].room_info.room_id);
        let row = match find_row(rows, &k) {
            Some(x) => Some(&rows[x]),
            None => None,
        };
        let f = fill_one(&all[j], row);
        let ghost before = infos_data(filled@);
        filled.push(f);
        assert(infos_data(filled@) =~= before.push(info_data(f)));
        j = j + 1;
        assert(infos_data(filled@) =~= filled_infos(allv, rv).take(j as int));
    }
    assert(filled_infos(allv, rv).take(all.len() as int) =~= filled_infos(allv, rv));
    let ghost fv = infos_data(filled@);
    let mut updates: Vec<(String, String, String, String, String, String)> = Vec::new();
    let mut m: usize = 0;
    assert(fv.take(0) =~= Seq::<InfoData>::empty());
    while m < filled.len()
        invariant
            m <= filled.len(),
            fv == infos_data(filled@),
            rv == rows_data(rows@),
            updates@.map_values(|u: (String, String, String, String, String, String)| update_data(u))
                == cache_updates(fv.take(m as int), rv),
        decreases filled.len() - m,
    {
        assert(fv.take(m as int + 1).drop_last() =~= fv.take(m as int));
        assert(fv.take(m as int + 1).last() == info_data(filled@[m as int]));
        let k = key_of(&filled[m].room_info.platform, &filled[m].room_info.room_id);
        let row = match find_row(rows, &k) {
            Some(x) => Some(&rows[x]),
            None => None,
        };
        match cache_update_exec(&filled[m], row) {
            Some(u) => {
                let ghost before = updates@.map_values(
                    |u: (String, String, String, String, String, String)| update_data(u),
                );
                updates.push(u);
                assert(updates@.map_values(
                    |u: (String, String, String, String, String, String)| update_data(u),
                ) =~= before.push(update_data(u)));
            },
            None => {},
        }
        m = m + 1;
    }
    assert(fv.take(filled.len() as int) =~= fv);
    let sorted = sort_by_room(filled);
    proof {
        if distinct_info_keys(runv) && distinct_row_keys(rv) {
            lemma_stored_recorders_shown_once(runv, rv);
            let shown = sorted_by_room(shown_recorders(runv, rv));
            assert(infos_data(sorted@) == shown);
            assert forall|i: int| 0 <= i < rows@.len() implies count_key(
                infos_data(sorted@),
                recorder_key(#[trigger] rows@[i].platform@, rows@[i].room_id@),
            ) == 1 by {
                assert(rv[i] == row_data(rows@[i]));
                assert(count_key(shown, recorder_key(rv[i].platform, rv[i].room_id)) == 1);
            }
        }
    }
    proof {
        if distinct_info_keys(runv) {
            lemma_running_recorders_shown_once(runv, rv);
            let shown = sorted_by_room(shown_recorders(runv, rv));
            assert(infos_data(sorted@) == shown);
            assert forall|j: int| 0 <= j < run0.len() implies count_key(
                infos_data(sorted@),
                recorder_key(#[trigger] run0[j].room_info.platform@, run0[j].room_info.room_id@),
            ) == 1 by {
                assert(runv[j] == info_data(run0[j]));
                assert(count_key(shown, info_key(runv[j])) == 1);
            }
        }
    }
    RecorderListing { list: RecorderList { count: rows.len(), recorders: sorted }, cache_updates: updates }
}

} // verus!

verus! {

// ---------------------------------------------------------------------------
// Reload cooldowns
// ---------------------------------------------------------------------------

/// How long, in milliseconds, a recorder of a platform waits between
/// reloads: 15 s on Kuaishou, 3 s elsewhere.
pub open spec fn reload_cooldown_ms(platform: crate::account_rows::Platform) -> u64 {
    if platform == crate::account_rows::Platform::Kuaishou {
        15000
    } else {
        3000
    }
}

/// Exec `reload_cooldown_ms`.
pub fn reload_cooldown_for(platform: crate::account_rows::Platform) -> (ms: u64)
    ensures
        ms == reload_cooldown_ms(platform),
{
    if platform == crate::account_rows::Platform::Kuaishou {
        15000
    } else {
        3000
    }
}

/// `now - then`, or 0 when `then` is later.
pub open spec fn elapsed_ms(now: u64, then: u64) -> u64 {
    if now >= then {
        (now - then) as u64
    } else {
        0
    }
}

#[derive(Debug)]
/// The last reload of each recorder, by key, as milliseconds on a clock
/// that never goes back.
pub struct ReloadCooldowns {
    pub entries: Vec<(String, u64)>,
}

/// The reloads as keys and times.
pub open spec fn reloads_view(v: Seq<(String, u64)>) -> Seq<(Seq<char>, u64)> {
    v.map_values(|e: (String, u64)| (e.0@, e.1))
}

/// The reloads still within `cooldown` of `now`, in order.
pub open spec fn fresh_reloads(v: Seq<(Seq<char>, u64)>, now: u64, cooldown: u64) -> Seq<(Seq<char>, u64)>
    decreases v.len(),
{
    if v.len() == 0 {
        v
    } else {
        let p = fresh_reloads(v.drop_last(), now, cooldown);
        if elapsed_ms(now, v.last().1) < cooldown {
            p.push(v.last())
        } else {
            p
        }
    }
}

/// The first reload of `key`.
pub open spec fn reload_of(v: Seq<(Seq<char>, u64)>, key: Seq<char>) -> Option<u64>
    decreases v.len(),
{
    if v.len() == 0 {
        None
    } else if v[0].0 == key {
        Some(v[0].1)
    } else {
        reload_of(v.drop_first(), key)
    }
}

/// Every reload kept as fresh is within the cooldown.
proof fn lemma_fresh_within(v: Seq<(Seq<char>, u64)>, now: u64, cd: u64, key: Seq<char>, t: u64)
    requires
        reload_of(fresh_reloads(v, now, cd), key) == Some(t),
    ensures
        elapsed_ms(now, t) < cd,
    decreases v.len(),
{
    lemma_fresh_all(v, now, cd);
    lemma_reload_of_member(fresh_reloads(v, now, cd), key, t);
}

/// The kept reloads are all within the cooldown.
proof fn lemma_fresh_all(v: Seq<(Seq<char>, u64)>, now: u64, cd: u64)
    ensures
        forall|i: int| 0 <= i < fresh_reloads(v, now, cd).len() ==> elapsed_ms(now, #[trigger] fresh_reloads(v, now, cd)[i].1) < cd,
    decreases v.len(),
{
    if v.len() > 0 {
        lemma_fresh_all(v.drop_last(), now, cd);
        let p = fresh_reloads(v.drop_last(), now, cd);
        let f = fresh_reloads(v, now, cd);
        assert forall|i: int| 0 <= i < f.len() implies elapsed_ms(now, #[trigger] f[i].1) < cd by {
            if i < p.len() {
                assert(f[i] == p[i]);
            }
        }
    }
}

/// The time `reload_of` finds is the time of one of the reloads.
proof fn lemma_reload_of_member(v: Seq<(Seq<char>, u64)>, key: Seq<char>, t: u64)
    requires
        reload_of(v, key) == Some(t),
    ensures
        exists|i: int| 0 <= i < v.len() && #[trigger] v[i].1 == t,
    decreases v.len(),
{
    if v[0].0 == key {
        assert(v[0].1 == t);
    } else {
        lemma_reload_of_member(v.drop_first(), key, t);
        let i = choose|i: int| 0 <= i < v.drop_first().len() && #[trigger] v.drop_first()[i].1 == t;
        assert(v[i + 1].1 == t);
    }
}

/// A key not found among the reloads occurs in none of them.
proof fn lemma_reload_of_none(v: Seq<(Seq<char>, u64)>, key: Seq<char>)
    requires
        reload_of(v, key) is None,
    ensures
        forall|i: int| 0 <= i < v.len() ==> #[trigger] v[i].0 != key,
    decreases v.len(),
{
    if v.len() > 0 {
        lemma_reload_of_none(v.drop_first(), key);
        assert forall|i: int| 0 <= i < v.len() implies #[trigger] v[i].0 != key by {
            if i > 0 {
                assert(v[i] == v.drop_first()[i - 1]);
            }
        }
    }
}

/// Appending a reload of a key that occurs nowhere else makes it the
/// key's reload.
proof fn lemma_reload_of_push(v: Seq<(Seq<char>, u64)>, x: (Seq<char>, u64))
    requires
        forall|i: int| 0 <= i < v.len() ==> #[trigger] v[i].0 != x.0,
    ensures
        reload_of(v.push(x), x.0) == Some(x.1),
    decreases v.len(),
{
    if v.len() > 0 {
        assert(v.push(x).drop_first() =~= v.drop_first().push(x));
        assert forall|i: int| 0 <= i < v.drop_first().len() implies #[trigger] v.drop_first()[i].0 != x.0 by {
            assert(v.drop_first()[i] == v[i + 1]);
        }
        lemma_reload_of_push(v.drop_first(), x);
        assert(v.push(x)[0] == v[0]);
    }
}

/// The reloads kept as fresh are reloads of the list.
proof fn lemma_fresh_from(v: Seq<(Seq<char>, u64)>, now: u64, cd: u64)
    ensures
        forall|i: int| 0 <= i < fresh_reloads(v, now, cd).len() ==> exists|j: int|
            0 <= j < v.len() && v[j] == #[trigger] fresh_reloads(v, now, cd)[i],
    decreases v.len(),
{
    if v.len() > 0 {
        lemma_fresh_from(v.drop_last(), now, cd);
        let p = fresh_reloads(v.drop_last(), now, cd);
        let f = fresh_reloads(v, now, cd);
        assert forall|i: int| 0 <= i < f.len() implies exists|j: int| 0 <= j < v.len() && v[j] == #[trigger] f[i] by {
            if i < p.len() {
                assert(f[i] == p[i]);
                let j = choose|j: int| 0 <= j < v.drop_last().len() && v.drop_last()[j] == #[trigger] p[i];
                assert(v[j] == f[i]);
            } else {
                assert(f[i] == v[v.len() - 1]);
            }
        }
    }
}

/// A reload let through blocks its recorder for the cooldown: after a
/// check at `t1` that found no fresh reload of `key` and recorded one, a
/// check of the same key at any `t2` from `t1` until the cooldown `cd`
/// has passed finds that reload, and answers the time left, `cd - (t2 - t1)`.
pub proof fn lemma_reload_cooldown_blocks(
    v: Seq<(Seq<char>, u64)>,
    key: Seq<char>,
    t1: u64,
    t2: u64,
    cd: u64,
)
    requires
        reload_of(fresh_reloads(v, t1, cd), key) is None,
        t1 <= t2,
        t2 - t1 < cd,
    ensures
        reload_of(fresh_reloads(fresh_reloads(v, t1, cd).push((key, t1)), t2, cd), key) == Some(t1),
        cd - elapsed_ms(t2, t1) == cd - (t2 - t1),
{
    let f1 = fresh_reloads(v, t1, cd);
    lemma_reload_of_none(f1, key);
    let w = f1.push((key, t1));
    assert(w.drop_last() =~= f1);
    let f2 = fresh_reloads(f1, t2, cd);
    assert(fresh_reloads(w, t2, cd) == f2.push((key, t1)));
    lemma_fresh_from(f1, t2, cd);
    assert forall|i: int| 0 <= i < f2.len() implies #[trigger] f2[i].0 != key by {
        let j = choose|j: int| 0 <= j < f1.len() && f1[j] == #[trigger] f2[i];
        assert(f1[j].0 != key);
    }
    lemma_reload_of_push(f2, (key, t1));
}

/// A sequence in which no entry has `key` holds no reload of it.
proof fn lemma_reload_of_absent(v: Seq<(Seq<char>, u64)>, key: Seq<char>)
    requires
        forall|i: int| 0 <= i < v.len() ==> #[trigger] v[i].0 != key,
    ensures
        reload_of(v, key) is None,
    decreases v.len(),
{
    if v.len() > 0 {
        assert forall|i: int| 0 <= i < v.drop_first().len() implies #[trigger] v.drop_first()[i].0 != key by {
            assert(v.drop_first()[i] == v[i + 1]);
        }
        lemma_reload_of_absent(v.drop_first(), key);
    }
}

/// Once the cooldown has passed, the block is lifted: after a check at
/// `t1` that found no fresh reload of `key` and recorded one, the next check
/// of that key at a `t2` at least the cooldown `cd` later finds no fresh
/// reload, so it lets the reload through and records `t2` in its place.
pub proof fn lemma_reload_cooldown_expires(
    v: Seq<(Seq<char>, u64)>,
    key: Seq<char>,
    t1: u64,
    t2: u64,
    cd: u64,
)
    requires
        reload_of(fresh_reloads(v, t1, cd), key) is None,
        t1 <= t2,
        t2 - t1 >= cd,
    ensures
        reload_of(fresh_reloads(fresh_reloads(v, t1, cd).push((key, t1)), t2, cd), key) is None,
{
    let f1 = fresh_reloads(v, t1, cd);
    lemma_reload_of_none(f1, key);
    let w = f1.push((key, t1));
    assert(w.drop_last() =~= f1);
    let f2 = fresh_reloads(f1, t2, cd);
    assert(fresh_reloads(w, t2, cd) == f2);
    lemma_fresh_from(f1, t2, cd);
    assert forall|i: int| 0 <= i < f2.len() implies #[trigger] f2[i].0 != key by {
        let j = choose|j: int| 0 <= j < f1.len() && f1[j] == #[trigger] f2[i];
        assert(f1[j].0 != key);
    }
    lemma_reload_of_absent(f2, key);
}

/// The two-call law of `check_reload_cooldown`: after a check of `key` at
/// `t1` that found no fresh reload (so it let the reload through and stored
/// `(key, t1)` after keeping the fresh reloads), the next check of `key` at
/// `t2` sees, with cooldown `cd`:
/// - before the cooldown has passed, the reload of `t1`, so it answers the
///   time left, `cd - (t2 - t1)` (more than 0 and at most `cd`), and keeps
///   `t1` stored;
/// - once it has passed, no fresh reload, so it answers none and stores
///   `t2` for the key.
pub proof fn lemma_reload_cooldown_two_calls(
    v: Seq<(Seq<char>, u64)>,
    key: Seq<char>,
    t1: u64,
    t2: u64,
    cd: u64,
)
    requires
        reload_of(fresh_reloads(v, t1, cd), key) is None,
        t1 <= t2,
    ensures
        ({
            let after_first = fresh_reloads(v, t1, cd).push((key, t1));
            let kept = fresh_reloads(after_first, t2, cd);
            &&& t2 - t1 < cd ==> reload_of(kept, key) == Some(t1) && cd - elapsed_ms(t2, t1) == cd - (t2 - t1)
                && 0 < cd - elapsed_ms(t2, t1) <= cd
            &&& t2 - t1 >= cd ==> reload_of(kept, key) is None && reload_of(kept.push((key, t2)), key) == Some(t2)
        }),
{
    let kept = fresh_reloads(fresh_reloads(v, t1, cd).push((key, t1)), t2, cd);
    if t2 - t1 < cd {
        lemma_reload_cooldown_blocks(v, key, t1, t2, cd);
    } else {
        lemma_reload_cooldown_expires(v, key, t1, t2, cd);
        lemma_reload_of_none(kept, key);
        lemma_reload_of_push(kept, (key, t2));
    }
}

impl ReloadCooldowns {
    /// No reloads yet.
    pub fn new() -> (r: Self)
        ensures
            reloads_view(r.entries@) == Seq::<(Seq<char>, u64)>::empty(),
    {
        let r = ReloadCooldowns { entries: Vec::new() };
        assert(reloads_view(r.entries@) =~= Seq::<(Seq<char>, u64)>::empty());
        r
    }

    /// Asks to reload the recorder of `room_id` on `platform` at time `now`:
    /// first forgets every reload older than the platform's cooldown; then,
    /// when the recorder reloaded within it, answers the time left; else
    /// records this reload and answers none.
    pub fn check_reload_cooldown(&mut self, platform: crate::account_rows::Platform, room_id: &str, now: u64) -> (r: Option<u64>)
        ensures
            ({
                let key = crate::account_rows::platform_name(platform) + ":"@ + room_id@;
                let cd = reload_cooldown_ms(platform);
                let fresh = fresh_reloads(reloads_view(old(self).entries@), now, cd);
                match reload_of(fresh, key) {
                    Some(t) => r == Some((cd - elapsed_ms(now, t)) as u64) && reloads_view(final(self).entries@) == fresh,
                    None => r is None && reloads_view(final(self).entries@) == fresh.push((key, now)),
                }
            }),
    {
        let cd = reload_cooldown_for(platform);
        let mut key = platform.as_str();
        key.append(":");
        key.append(room_id);
        let ghost ov = reloads_view(self.entries@);
        let mut kept: Vec<(String, u64)> = Vec::new();
        let mut i: usize = 0;
        assert(ov.take(0) =~= Seq::<(Seq<char>, u64)>::empty());
        while i < self.entries.len()
            invariant
                i <= self.entries.len(),
                ov == reloads_view(self.entries@),
                reloads_view(kept@) == fresh_reloads(ov.take(i as int), now, cd),
            decreases self.entries.len() - i,
        {
            let ts = self.entries[i].1;
            let el: u64 = if now >= ts {
                now - ts
            } else {
                0
            };
            let ghost e = ov[i as int];
            assert(e == (self.entries@[i as int].0@, ts));
            assert(ov.take(i as int + 1).drop_last() =~= ov.take(i as int));
            assert(ov.take(i as int + 1).last() == e);
            if el < cd {
                let ghost before = reloads_view(kept@);
                kept.push((self.entries[i].0.clone(), ts));
                assert(reloads_view(kept@) =~= before.push(e));
            }
            i = i + 1;
        }
        assert(ov.take(self.entries.len() as int) =~= ov);
        let ghost kv = reloads_view(kept@);
        let mut j: usize = 0;
        assert(kv.skip(0) =~= kv);
        let mut found: Option<u64> = None;
        while j < kept.len() && found.is_none()
            invariant
                j <= kept.len(),
                kv == reloads_view(kept@),
                found is None ==> reload_of(kv, key@) == reload_of(kv.skip(j as int), key@),
                found matches Some(t) ==> reload_of(kv, key@) == Some(t),
            decreases kept.len() - j,
        {
            assert(kv.skip(j as int).drop_first() =~= kv.skip(j as int + 1));
            assert(kv.skip(j as int)[0] == (kept@[j as int].0@, kept@[j as int].1));
            if same_str(kept[j].0.as_str(), key.as_str()) {
                found = Some(kept[j].1);
            }
            j = j + 1;
        }
        match found {
            Some(t) => {
                proof {
                    lemma_fresh_within(ov, now, cd, key@, t);
                }
                let el: u64 = if now >= t {
                    now - t
                } else {
                    0
                };
                self.entries = kept;
                Some(cd - el)
            },
            None => {
                let ghost before = reloads_view(kept@);
                let ghost kview = key@;
                kept.push((key, now));
                assert(reloads_view(kept@) =~= before.push((kview, now)));
                self.entries = kept;
                None
            },
        }
    }
}

} // verus!

verus! {

// ---------------------------------------------------------------------------
// Errors and notices
// ---------------------------------------------------------------------------

#[derive(Debug)]
/// What went wrong in the recorder manager. Errors of other parts are kept
/// as their text.
pub enum RecorderManagerError {
    AlreadyExisted { room_id: String },
    NotFound { room_id: String },
    InvalidPlatformType { platform: String },
    RecorderError { error: String },
    IoError { error: String },
    HLSError { err: String },
    DatabaseError { error: String },
    Recording { live_id: String },
    ClipError { err: String },
    M3u8ParseFailed { content: String },
    EmptyPlaylist,
    SubtitleNotFound { live_id: String },
    SubtitleGenerationFailed { error: String },
    InvalidLiveID,
    ArchiveDanmuAssGenerationFailed { error: String },
}

/// The message of an error.
pub open spec fn error_message(e: RecorderManagerError) -> Seq<char> {
    match e {
        RecorderManagerError::AlreadyExisted { room_id } => "Recorder already exists: "@ + room_id@,
        RecorderManagerError::NotFound { room_id } => "Recorder not found: "@ + room_id@,
        RecorderManagerError::InvalidPlatformType { platform } => "Invalid platform type: "@ + platform@,
        RecorderManagerError::RecorderError { error } => "Recorder error: "@ + error@,
        RecorderManagerError::IoError { error } => "IO error: "@ + error@,
        RecorderManagerError::HLSError { err } => "HLS error: "@ + err@,
        RecorderManagerError::DatabaseError { error } => "Database error: "@ + error@,
        RecorderManagerError::Recording { live_id } => "Recording: "@ + live_id@,
        RecorderManagerError::ClipError { err } => "Clip error: "@ + err@,
        RecorderManagerError::M3u8ParseFailed { content } => "M3u8 parse failed: "@ + content@,
        RecorderManagerError::EmptyPlaylist => "Empty playlist"@,
        RecorderManagerError::SubtitleNotFound { live_id } => "Subtitle not found: "@ + live_id@,
        RecorderManagerError::SubtitleGenerationFailed { error } => "Subtitle generation failed: "@ + error@,
        RecorderManagerError::InvalidLiveID => "Invalid live id, not timestamp str"@,
        RecorderManagerError::ArchiveDanmuAssGenerationFailed { error } => "Archive danmu ass generation failed: "@
            + error@,
    }
}

impl RecorderManagerError {
    /// The error's message (`error_message`).
    pub fn message(&self) -> (r: String)
        ensures
            r@ == error_message(*self),
    {
        match self {
            RecorderManagerError::AlreadyExisted { room_id } => concat_str("Recorder already exists: ", room_id.as_str()),
            RecorderManagerError::NotFound { room_id } => concat_str("Recorder not found: ", room_id.as_str()),
            RecorderManagerError::InvalidPlatformType { platform } => concat_str("Invalid platform type: ", platform.as_str()),
            RecorderManagerError::RecorderError { error } => concat_str("Recorder error: ", error.as_str()),
            RecorderManagerError::IoError { error } => concat_str("IO error: ", error.as_str()),
            RecorderManagerError::HLSError { err } => concat_str("HLS error: ", err.as_str()),
            RecorderManagerError::DatabaseError { error } => concat_str("Database error: ", error.as_str()),
            RecorderManagerError::Recording { live_id } => concat_str("Recording: ", live_id.as_str()),
            RecorderManagerError::ClipError { err } => concat_str("Clip error: ", err.as_str()),
            RecorderManagerError::M3u8ParseFailed { content } => concat_str("M3u8 parse failed: ", content.as_str()),
            RecorderManagerError::EmptyPlaylist => to_string_of("Empty playlist"),
            RecorderManagerError::SubtitleNotFound { live_id } => concat_str("Subtitle not found: ", live_id.as_str()),
            RecorderManagerError::SubtitleGenerationFailed { error } => concat_str("Subtitle generation failed: ", error.as_str()),
            RecorderManagerError::InvalidLiveID => to_string_of("Invalid live id, not timestamp str"),
            RecorderManagerError::ArchiveDanmuAssGenerationFailed { error } => concat_str(
                "Archive danmu ass generation failed: ",
                error.as_str(),
            ),
        }
    }
}

/// The notice shown when a live starts.
pub fn live_start_notice(user_name: &str, room_title: &str) -> (r: String)
    ensures
        r@ == user_name@ + " 开启了直播："@ + room_title@,
{
    let mut r = concat_str(user_name, " 开启了直播：");
    r.append(room_title);
    r
}

/// The notice shown when a live ends.
pub fn live_end_notice(user_name: &str, room_title: &str) -> (r: String)
    ensures
        r@ == user_name@ + " 结束了直播："@ + room_title@,
{
    let mut r = concat_str(user_name, " 结束了直播：");
    r.append(room_title);
    r
}

/// Where a new record's cover is stored, relative to the cache: under the
/// platform, room and live, when the room has a cover.
pub fn record_cover_path(platform: &str, room_id: &str, live_id: &str, room_cover: &str) -> (r: Option<String>)
    ensures
        opt_view(r) == (if room_cover@.len() > 0 {
            Some(platform@ + "/"@ + room_id@ + "/"@ + live_id@ + "/cover.jpg"@)
        } else {
            None
        }),
{
    if room_cover.unicode_len() == 0 {
        return None;
    }
    let mut r = concat_str(platform, "/");
    r.append(room_id);
    r.append("/");
    r.append(live_id);
    r.append("/cover.jpg");
    Some(r)
}

} // verus!
