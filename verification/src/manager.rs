//! The recorder manager's bookkeeping: recorder ids, which stored recorders
//! the monitor starts, the checks before a recorder is added or removed,
//! and the task an ended live hands to the clip generator.
use vstd::prelude::*;
use vstd::utf8::{decode_utf8, valid_utf8};
use crate::account_rows::{platform_name, platform_named, Platform};
use crate::config::opt_view;
use crate::json::{json_text, json_to_string, parse_i64, parse_i64_exec, JsonData, JsonValue};
use crate::recorders::RecorderManagerError;
use crate::text::{ends_with, same_str, seq_lt, to_string_of};

verus! {

// ---------------------------------------------------------------------------
// Recorder ids
// ---------------------------------------------------------------------------

/// A recorder's id: `<platform>:<room id>`.
pub open spec fn id_text(p: Platform, room_id: Seq<char>) -> Seq<char> {
    platform_name(p) + ":"@ + room_id
}

/// Exec `id_text`.
pub fn recorder_id(platform: Platform, room_id: &str) -> (r: String)
    ensures
        r@ == id_text(platform, room_id@),
{
    proof {
        reveal_strlit(":");
    }
    let mut r = platform.as_str();
    r.append(":");
    r.append(room_id);
    r
}

/// The views of a list of strings.
pub open spec fn texts(v: Seq<String>) -> Seq<Seq<char>> {
    v.map_values(|s: String| s@)
}

/// `v` holds `s`.
pub fn list_contains(v: &Vec<String>, s: &str) -> (b: bool)
    ensures
        b == texts(v@).contains(s@),
{
    let mut i: usize = 0;
    while i < v.len()
        invariant
            i <= v.len(),
            forall|k: int| 0 <= k < i ==> texts(v@)[k] != s@,
        decreases v.len() - i,
    {
        if same_str(v[i].as_str(), s) {
            assert(texts(v@)[i as int] == s@);
            return true;
        }
        i = i + 1;
    }
    assert(!texts(v@).contains(s@)) by {
        if texts(v@).contains(s@) {
            let k = choose|k: int| 0 <= k < texts(v@).len() && texts(v@)[k] == s@;
            assert(texts(v@)[k] != s@);
        }
    }
    false
}

/// Recorders of these platforms are not started for now.
pub open spec fn is_disabled(p: Platform) -> bool {
    p == Platform::Xiaohongshu || p == Platform::Weibo
}

/// Exec `is_disabled`.
pub fn platform_disabled(p: Platform) -> (b: bool)
    ensures
        b == is_disabled(p),
{
    match p {
        Platform::Xiaohongshu | Platform::Weibo => true,
        _ => false,
    }
}

// ---------------------------------------------------------------------------
// Starting stored recorders
// ---------------------------------------------------------------------------

#[derive(Debug)]
/// A recorder as stored: platform name, room id, whether it records on its
/// own, and its platform-specific setting.
pub struct StoredRecorder {
    pub platform: String,
    pub room_id: String,
    pub auto_start: bool,
    pub extra: String,
}

#[derive(Debug)]
/// A stored recorder the monitor starts.
pub struct PlannedRecorder {
    pub platform: Platform,
    pub room_id: String,
    pub auto_start: bool,
    pub extra: String,
}

/// The platform and room of a stored recorder.
pub open spec fn stored_key(r: StoredRecorder) -> (Platform, Seq<char>) {
    (platform_named(r.platform@).unwrap(), r.room_id@)
}

/// The platform and room of a planned recorder.
pub open spec fn planned_key(r: PlannedRecorder) -> (Platform, Seq<char>) {
    (r.platform, r.room_id@)
}

/// The stored recorders of enabled platforms by platform and room, each
/// with the settings of its last row.
pub open spec fn stored_map(s: Seq<StoredRecorder>) -> Map<(Platform, Seq<char>), (bool, Seq<char>)>
    decreases s.len(),
{
    if s.len() == 0 {
        Map::empty()
    } else {
        let m = stored_map(s.drop_last());
        let k = stored_key(s.last());
        if is_disabled(k.0) {
            m
        } else {
            m.insert(k, (s.last().auto_start, s.last().extra@))
        }
    }
}

/// A recorder the monitor may start: neither running nor being removed.
pub open spec fn startable(k: (Platform, Seq<char>), running: Seq<Seq<char>>, removing: Seq<Seq<char>>) -> bool {
    !running.contains(id_text(k.0, k.1)) && !removing.contains(id_text(k.0, k.1))
}

/// `out` plans exactly the startable recorders of `m`, each once, with its
/// settings.
pub open spec fn plans(
    out: Seq<PlannedRecorder>,
    m: Map<(Platform, Seq<char>), (bool, Seq<char>)>,
    running: Seq<Seq<char>>,
    removing: Seq<Seq<char>>,
) -> bool {
    &&& forall|i: int, j: int|
        0 <= i < out.len() && 0 <= j < out.len() && i != j ==> planned_key(#[trigger] out[i])
            != planned_key(#[trigger] out[j])
    &&& forall|i: int|
        0 <= i < out.len() ==> m.contains_key(planned_key(#[trigger] out[i])) && m[planned_key(out[i])]
            == (out[i].auto_start, out[i].extra@) && startable(planned_key(out[i]), running, removing)
    &&& forall|k: (Platform, Seq<char>)|
        m.contains_key(k) && startable(k, running, removing) ==> exists|i: int|
            0 <= i < out.len() && planned_key(#[trigger] out[i]) == k
}

/// Index of the plan for platform `p` and room `room`.
fn find_plan(out: &Vec<PlannedRecorder>, p: Platform, room: &str) -> (r: Option<usize>)
    ensures
        match r {
            Some(j) => j < out.len() && planned_key(out@[j as int]) == (p, room@),
            None => forall|i: int| 0 <= i < out.len() ==> planned_key(#[trigger] out@[i]) != (p, room@),
        },
{
    let mut i: usize = 0;
    while i < out.len()
        invariant
            i <= out.len(),
            forall|k: int| 0 <= k < i ==> planned_key(#[trigger] out@[k]) != (p, room@),
        decreases out.len() - i,
    {
        if out[i].platform == p && same_str(out[i].room_id.as_str(), room) {
            return Some(i);
        }
        i = i + 1;
    }
    None
}

/// The recorders the monitor starts: the stored ones of enabled platforms
/// that are neither running (`running`, by id) nor being removed
/// (`removing`, by id), each once with the settings of its last row.
pub fn plan_recorders_to_add(rows: &Vec<StoredRecorder>, running: &Vec<String>, removing: &Vec<String>) -> (out: Vec<PlannedRecorder>)
    requires
        forall|i: int| 0 <= i < rows.len() ==> platform_named((#[trigger] rows@[i]).platform@) is Some,
    ensures
        plans(out@, stored_map(rows@), texts(running@), texts(removing@)),
{
    let ghost run = texts(running@);
    let ghost rem = texts(removing@);
    let mut out: Vec<PlannedRecorder> = Vec::new();
    let mut idx: usize = 0;
    assert(rows@.take(0) =~= Seq::<StoredRecorder>::empty());
    while idx < rows.len()
        invariant
            idx <= rows.len(),
            run == texts(running@),
            rem == texts(removing@),
            forall|i: int| 0 <= i < rows.len() ==> platform_named((#[trigger] rows@[i]).platform@) is Some,
            plans(out@, stored_map(rows@.take(idx as int)), run, rem),
        decreases rows.len() - idx,
    {
        let ghost before = stored_map(rows@.take(idx as int));
        let ghost prev = out@;
        assert(rows@.take(idx as int + 1).drop_last() =~= rows@.take(idx as int));
        assert(rows@.take(idx as int + 1).last() == rows@[idx as int]);
        let r = &rows[idx];
        let p = match Platform::from_str(r.platform.as_str()) {
            Some(p) => p,
            None => {
                assert(false);
                Platform::BiliBili
            },
        };
        let ghost k = (p, r.room_id@);
        assert(stored_key(rows@[idx as int]) == k);
        if !platform_disabled(p) {
            let ghost after = stored_map(rows@.take(idx as int + 1));
            assert(after == before.insert(k, (r.auto_start, r.extra@)));
            let id = recorder_id(p, r.room_id.as_str());
            let runs = list_contains(running, id.as_str());
            let removed = list_contains(removing, id.as_str());
            if !runs && !removed {
                match find_plan(&out, p, r.room_id.as_str()) {
                    Some(j) => {
                        let entry = PlannedRecorder {
                            platform: p,
                            room_id: r.room_id.clone(),
                            auto_start: r.auto_start,
                            extra: r.extra.clone(),
                        };
                        out.set(j, entry);
                        assert(plans(out@, after, run, rem)) by {
                            assert forall|i: int| 0 <= i < out@.len() implies planned_key(#[trigger] out@[i]) == planned_key(prev[i]) by {}
                            assert forall|q: (Platform, Seq<char>)| after.contains_key(q) && startable(q, run, rem) implies exists|i: int|
                                0 <= i < out@.len() && planned_key(#[trigger] out@[i]) == q by {
                                if q != k {
                                    assert(before.contains_key(q));
                                    let i = choose|i: int| 0 <= i < prev.len() && planned_key(#[trigger] prev[i]) == q;
                                    assert(planned_key(out@[i]) == q);
                                } else {
                                    assert(planned_key(out@[j as int]) == q);
                                }
                            }
                        }
                    },
                    None => {
                        let entry = PlannedRecorder {
                            platform: p,
                            room_id: r.room_id.clone(),
                            auto_start: r.auto_start,
                            extra: r.extra.clone(),
                        };
                        out.push(entry);
                        assert(plans(out@, after, run, rem)) by {
                            assert forall|i: int| 0 <= i < prev.len() implies planned_key(#[trigger] out@[i]) == planned_key(prev[i]) by {}
                            assert forall|q: (Platform, Seq<char>)| after.contains_key(q) && startable(q, run, rem) implies exists|i: int|
                                0 <= i < out@.len() && planned_key(#[trigger] out@[i]) == q by {
                                if q != k {
                                    assert(before.contains_key(q));
                                    let i = choose|i: int| 0 <= i < prev.len() && planned_key(#[trigger] prev[i]) == q;
                                    assert(planned_key(out@[i]) == q);
                                } else {
                                    assert(planned_key(out@[prev.len() as int]) == q);
                                }
                            }
                        }
                    },
                }
            } else {
                assert(!startable(k, run, rem));
                assert(plans(out@, after, run, rem)) by {
                    assert forall|i: int| 0 <= i < out@.len() implies after.contains_key(planned_key(#[trigger] out@[i])) && after[planned_key(out@[i])]
                        == (out@[i].auto_start, out@[i].extra@) by {
                        assert(planned_key(out@[i]) != k);
                    }
                }
            }
        } else {
            assert(stored_map(rows@.take(idx as int + 1)) == before);
        }
        idx = idx + 1;
    }
    assert(rows@.take(rows.len() as int) =~= rows@);
    out
}

} // verus!

verus! {

// ---------------------------------------------------------------------------
// Accounts for new recorders
// ---------------------------------------------------------------------------

/// Recorders of every platform but Huya need an account.
pub open spec fn needs_account(p: Platform) -> bool {
    p != Platform::Huya
}

/// Exec `needs_account`.
pub fn account_required(p: Platform) -> (b: bool)
    ensures
        b == needs_account(p),
{
    match p {
        Platform::Huya => false,
        _ => true,
    }
}

/// Whether the monitor tries to start a recorder that needs an account now:
/// not before the retry time set when no account was found.
pub fn account_retry_due(next_retry: Option<u64>, now: u64) -> (b: bool)
    ensures
        b == match next_retry {
            Some(t) => t <= now,
            None => true,
        },
{
    match next_retry {
        Some(t) => t <= now,
        None => true,
    }
}

/// When to try again after no account was found: five minutes on.
pub fn missing_account_retry_at(now: u64) -> (t: u64)
    requires
        now + 300 <= u64::MAX,
    ensures
        t == now + 300,
{
    now + 300
}

// ---------------------------------------------------------------------------
// Adding, removing and restarting recorders
// ---------------------------------------------------------------------------

/// The checks before a recorder is added: a disabled platform is refused,
/// as is a recorder already running (`running`, by id). When it may be
/// added, whether Kuaishou's websocket settings are applied first.
pub fn add_recorder_check(platform: Platform, room_id: &str, running: &Vec<String>) -> (r: Result<bool, RecorderManagerError>)
    ensures
        is_disabled(platform) ==> (r matches Err(RecorderManagerError::InvalidPlatformType { platform: t })
            && t@ == platform_name(platform) + " (temporarily disabled)"@),
        !is_disabled(platform) && texts(running@).contains(id_text(platform, room_id@)) ==> (r matches Err(
            RecorderManagerError::AlreadyExisted { room_id: x },
        ) && x@ == room_id@),
        !is_disabled(platform) && !texts(running@).contains(id_text(platform, room_id@)) ==> (r matches Ok(
            k,
        ) && k == (platform == Platform::Kuaishou)),
{
    if platform_disabled(platform) {
        let mut t = platform.as_str();
        t.append(" (temporarily disabled)");
        return Err(RecorderManagerError::InvalidPlatformType { platform: t });
    }
    let id = recorder_id(platform, room_id);
    if list_contains(running, id.as_str()) {
        return Err(RecorderManagerError::AlreadyExisted { room_id: to_string_of(room_id) });
    }
    Ok(match platform {
        Platform::Kuaishou => true,
        _ => false,
    })
}

/// The running recorder a removal stops: the one with the exact id, else
/// one whose id ends with `:<room id>`; none when no running recorder
/// matches (the stored one is still removed).
pub fn resolve_recorder_id(platform: Platform, room_id: &str, running: &Vec<String>) -> (r: Option<String>)
    ensures
        texts(running@).contains(id_text(platform, room_id@)) ==> opt_view(r) == Some(id_text(platform, room_id@)),
        !texts(running@).contains(id_text(platform, room_id@)) ==> match r {
            Some(k) => texts(running@).contains(k@) && ends_with(k@, ":"@ + room_id@),
            None => forall|i: int| 0 <= i < running@.len() ==> !ends_with(#[trigger] texts(running@)[i], ":"@ + room_id@),
        },
{
    let id = recorder_id(platform, room_id);
    if list_contains(running, id.as_str()) {
        return Some(id);
    }
    let mut suffix = to_string_of(":");
    suffix.append(room_id);
    assert(suffix@ =~= ":"@ + room_id@);
    let sc = crate::text::chars_of(suffix.as_str());
    let mut i: usize = 0;
    while i < running.len()
        invariant
            i <= running.len(),
            sc@ == ":"@ + room_id@,
            suffix@ == ":"@ + room_id@,
            !texts(running@).contains(id_text(platform, room_id@)),
            forall|k: int| 0 <= k < i ==> !ends_with(#[trigger] texts(running@)[k], ":"@ + room_id@),
        decreases running.len() - i,
    {
        let kc = crate::text::chars_of(running[i].as_str());
        if crate::cookie_json::ends_with_chars(&kc, suffix.as_str()) {
            assert(texts(running@)[i as int] == running@[i as int]@);
            return Some(running[i].clone());
        }
        i = i + 1;
    }
    None
}

/// Whether a stored recorder is restarted when the recorders of
/// `platforms` are: its platform name must name a platform (else the
/// restart stops with an error) that is among them.
pub fn restart_decision(platforms: &Vec<Platform>, row_platform: &str) -> (r: Result<Option<Platform>, RecorderManagerError>)
    ensures
        match platform_named(row_platform@) {
            Some(p) => r matches Ok(x) && x == (if platforms@.contains(p) {
                Some(p)
            } else {
                None
            }),
            None => r matches Err(RecorderManagerError::InvalidPlatformType { platform }) && platform@ == row_platform@,
        },
{
    match Platform::from_str(row_platform) {
        Some(p) => {
            let mut i: usize = 0;
            while i < platforms.len()
                invariant
                    i <= platforms.len(),
                    platform_named(row_platform@) == Some(p),
                    forall|k: int| 0 <= k < i ==> platforms@[k] != p,
                decreases platforms.len() - i,
            {
                if platforms[i] == p {
                    assert(platforms@[i as int] == p);
                    assert(platforms@.contains(p));
                    return Ok(Some(p));
                }
                i = i + 1;
            }
            assert(!platforms@.contains(p)) by {
                if platforms@.contains(p) {
                    let k = choose|k: int| 0 <= k < platforms@.len() && platforms@[k] == p;
                    assert(platforms@[k] != p);
                }
            }
            Ok(None)
        },
        None => Err(RecorderManagerError::InvalidPlatformType { platform: to_string_of(row_platform) }),
    }
}

// ---------------------------------------------------------------------------
// Ended lives
// ---------------------------------------------------------------------------

/// The payload of the clip task of an ended live:
/// `{"parent_id": .., "platform": .., "room_id": ..}`.
pub open spec fn whole_clip_task_data(platform: Platform, room_id: Seq<char>, parent_id: Seq<char>) -> JsonData {
    JsonData::Object(
        seq![
            ("parent_id"@, JsonData::Str(parent_id)),
            ("platform"@, JsonData::Str(platform_name(platform))),
            ("room_id"@, JsonData::Str(room_id)),
        ],
    )
}

/// The payload of the clip task of an ended live, as JSON text.
pub fn whole_clip_task_payload(platform: Platform, room_id: &str, parent_id: &str) -> (r: String)
    ensures
        r@ == json_text(whole_clip_task_data(platform, room_id@, parent_id@)),
{
    let mut m: Vec<(String, JsonValue)> = Vec::new();
    m.push((to_string_of("parent_id"), JsonValue::Str(to_string_of(parent_id))));
    m.push((to_string_of("platform"), JsonValue::Str(platform.as_str())));
    m.push((to_string_of("room_id"), JsonValue::Str(to_string_of(room_id))));
    proof {
        crate::json::lemma_object_data(m);
        assert(crate::json::entries_data(m@) =~= whole_clip_task_data(platform, room_id@, parent_id@)->Object_0);
    }
    let v = JsonValue::Object(m);
    json_to_string(&v)
}

/// The message of a failed clip task.
pub fn whole_clip_failure(error: &str) -> (r: String)
    ensures
        r@ == "Failed to generate whole clip: "@ + error@,
{
    crate::cookies::concat_str("Failed to generate whole clip: ", error)
}

/// What happens to a recording that ended: one that stored nothing is
/// removed (with its folder); one that did hands its live to the clip
/// generator.
pub fn recording_is_empty(size: i64) -> (b: bool)
    ensures
        b == (size == 0),
{
    size == 0
}

/// Whether the recorders of a platform restart after a guest cookie
/// refresh: when the refresh changed that platform's cookies.
pub fn restart_after_guest_refresh(changed: &Vec<Platform>, target: Platform) -> (b: bool)
    ensures
        b == changed@.contains(target),
{
    let mut i: usize = 0;
    while i < changed.len()
        invariant
            i <= changed.len(),
            forall|k: int| 0 <= k < i ==> changed@[k] != target,
        decreases changed.len() - i,
    {
        if changed[i] == target {
            assert(changed@[i as int] == target);
            return true;
        }
        i = i + 1;
    }
    false
}

} // verus!

verus! {

// ---------------------------------------------------------------------------
// Cached lives
// ---------------------------------------------------------------------------

/// A live recorded before under the same parent, with its playlist.
#[derive(Debug)]
pub struct RelatedPlaylist {
    pub live_id: String,
    pub title: String,
    /// The playlist's path.
    pub path: String,
}

/// Where a live's playlist lies below the cache folder:
/// `<platform>/<room id>/<live id>/playlist.m3u8`.
pub fn playlist_relative_path(platform: Platform, room_id: &str, live_id: &str) -> (r: String)
    ensures
        r@ == platform_name(platform) + "/"@ + room_id@ + "/"@ + live_id@ + "/playlist.m3u8"@,
{
    let mut r = platform.as_str();
    r.append("/");
    r.append(room_id);
    r.append("/");
    r.append(live_id);
    r.append("/playlist.m3u8");
    r
}

/// A live's playlist is outdated (to be served as a finished recording)
/// unless a recorder of its room is recording that very live.
/// `current` is the room's recorder, if any: the live it is on and whether
/// it is recording.
pub fn is_outdated_playlist(current: Option<(&str, bool)>, live_id: &str) -> (b: bool)
    ensures
        b == !(current matches Some((c, recording)) && c@ == live_id@ && recording),
{
    match current {
        Some((c, recording)) => !(recording && same_str(c, live_id)),
        None => true,
    }
}

/// A stored record of a live, as far as its playlist goes.
#[derive(Debug)]
pub struct LiveRecord {
    pub live_id: String,
    pub title: String,
    /// When the record was made, as stored (compared as text).
    pub created_at: String,
}

/// A record as live id, title and creation time.
pub open spec fn record_view(r: LiveRecord) -> (Seq<char>, Seq<char>, Seq<char>) {
    (r.live_id@, r.title@, r.created_at@)
}

/// The views of some records.
pub open spec fn records_view(v: Seq<LiveRecord>) -> Seq<(Seq<char>, Seq<char>, Seq<char>)> {
    v.map_values(|r: LiveRecord| record_view(r))
}

/// The related playlist of a record: its live id, its title, and the path
/// of its playlist below the cache folder.
pub open spec fn playlist_entry(
    platform: Platform,
    room_id: Seq<char>,
    r: (Seq<char>, Seq<char>, Seq<char>),
) -> (Seq<char>, Seq<char>, Seq<char>) {
    (r.0, r.1, platform_name(platform) + "/"@ + room_id + "/"@ + r.0 + "/playlist.m3u8"@)
}

/// `x` placed into records sorted by creation time, after every record it
/// does not precede.
pub open spec fn insert_by_time(
    sorted: Seq<(Seq<char>, Seq<char>, Seq<char>)>,
    x: (Seq<char>, Seq<char>, Seq<char>),
) -> Seq<(Seq<char>, Seq<char>, Seq<char>)>
    decreases sorted.len(),
{
    if sorted.len() == 0 {
        seq![x]
    } else if seq_lt(x.2, sorted.last().2) {
        insert_by_time(sorted.drop_last(), x).push(sorted.last())
    } else {
        sorted.push(x)
    }
}

/// Records in the order of a stable sort by creation time.
pub open spec fn sorted_by_time(s: Seq<(Seq<char>, Seq<char>, Seq<char>)>) -> Seq<
    (Seq<char>, Seq<char>, Seq<char>),
>
    decreases s.len(),
{
    if s.len() == 0 {
        s
    } else {
        insert_by_time(sorted_by_time(s.drop_last()), s.last())
    }
}

/// One step of the backward scan for `x`'s place among sorted records.
proof fn lemma_insert_by_time_step(
    s: Seq<(Seq<char>, Seq<char>, Seq<char>)>,
    k: int,
    x: (Seq<char>, Seq<char>, Seq<char>),
)
    requires
        0 < k <= s.len(),
        seq_lt(x.2, s[k - 1].2),
    ensures
        insert_by_time(s.take(k), x) + s.skip(k) == insert_by_time(s.take(k - 1), x) + s.skip(k - 1),
{
    assert(s.take(k).drop_last() =~= s.take(k - 1));
    assert(s.take(k).last() == s[k - 1]);
    assert(insert_by_time(s.take(k - 1), x).push(s[k - 1]) + s.skip(k) =~= insert_by_time(
        s.take(k - 1),
        x,
    ) + s.skip(k - 1));
}

/// A copy of a record.
fn copy_record(r: &LiveRecord) -> (c: LiveRecord)
    ensures
        record_view(c) == record_view(*r),
{
    LiveRecord { live_id: r.live_id.clone(), title: r.title.clone(), created_at: r.created_at.clone() }
}

/// Records sorted stably by creation time (`sorted_by_time`).
pub fn sort_records_by_time(records: &Vec<LiveRecord>) -> (r: Vec<LiveRecord>)
    ensures
        records_view(r@) == sorted_by_time(records_view(records@)),
{
    let ghost id = records_view(records@);
    let mut out: Vec<LiveRecord> = Vec::new();
    let mut i: usize = 0;
    assert(sorted_by_time(id.take(0)) =~= Seq::<(Seq<char>, Seq<char>, Seq<char>)>::empty());
    while i < records.len()
        invariant
            i <= records.len(),
            id == records_view(records@),
            records_view(out@) == sorted_by_time(id.take(i as int)),
        decreases records.len() - i,
    {
        let ghost od = records_view(out@);
        let c = copy_record(&records[i]);
        let ghost x = record_view(c);
        assert(x == id[i as int]);
        let cr = crate::text::chars_of(c.created_at.as_str());
        let mut k: usize = out.len();
        assert(od.take(k as int) =~= od);
        assert(od.skip(k as int) =~= Seq::<(Seq<char>, Seq<char>, Seq<char>)>::empty());
        while k > 0 && crate::text::lt_chars(
            cr.as_slice(),
            crate::text::chars_of(out[k - 1].created_at.as_str()).as_slice(),
        )
            invariant
                k <= out.len(),
                od == records_view(out@),
                x == record_view(c),
                cr@ == x.2,
                insert_by_time(od, x) == insert_by_time(od.take(k as int), x) + od.skip(k as int),
            decreases k,
        {
            proof {
                assert(records_view(out@)[k - 1] == record_view(out@[k - 1]));
                lemma_insert_by_time_step(od, k as int, x);
            }
            k = k - 1;
        }
        proof {
            if k > 0 {
                assert(records_view(out@)[k - 1] == record_view(out@[k - 1]));
                assert(od.take(k as int).last() == od[k - 1]);
                assert(insert_by_time(od.take(k as int), x) == od.take(k as int).push(x));
            } else {
                assert(insert_by_time(od.take(0), x) =~= seq![x]);
            }
            assert(od.take(k as int).push(x) + od.skip(k as int) =~= od.insert(k as int, x));
            assert(id.take(i as int + 1).drop_last() =~= id.take(i as int));
            assert(id.take(i as int + 1).last() == x);
        }
        out.insert(k, c);
        proof {
            assert(records_view(out@) =~= od.insert(k as int, x));
        }
        i = i + 1;
    }
    assert(id.take(records.len() as int) =~= id);
    out
}

/// `p` is the related playlist of entry `e` (live id, title, path below
/// the cache folder), its path joined to the cache folder `cache`
/// (`joined_path`).
pub open spec fn playlist_under(p: RelatedPlaylist, cache: Seq<char>, e: (Seq<char>, Seq<char>, Seq<char>)) -> bool {
    &&& p.live_id@ == e.0
    &&& p.title@ == e.1
    &&& crate::clip_names::joined_path(p.path@, cache, e.2)
}

/// The playlists `r` are those of the entries `es`, one for one and in
/// order, below the cache folder `cache`.
pub open spec fn playlists_under(
    r: Seq<RelatedPlaylist>,
    cache: Seq<char>,
    es: Seq<(Seq<char>, Seq<char>, Seq<char>)>,
) -> bool {
    &&& r.len() == es.len()
    &&& forall|i: int| 0 <= i < r.len() ==> playlist_under(#[trigger] r[i], cache, es[i])
}

/// The related playlists of some records, in their order, with their paths
/// below the cache folder `cache`.
pub fn related_playlists(records: &Vec<LiveRecord>, platform: Platform, room_id: &str, cache: &str) -> (r: Vec<
    RelatedPlaylist,
>)
    ensures
        playlists_under(
            r@,
            cache@,
            records_view(records@).map_values(
                |x: (Seq<char>, Seq<char>, Seq<char>)| playlist_entry(platform, room_id@, x),
            ),
        ),
{
    let ghost id = records_view(records@);
    let ghost es = id.map_values(|x: (Seq<char>, Seq<char>, Seq<char>)| playlist_entry(platform, room_id@, x));
    let mut r: Vec<RelatedPlaylist> = Vec::new();
    let mut i: usize = 0;
    while i < records.len()
        invariant
            i <= records.len(),
            id == records_view(records@),
            es == id.map_values(|x: (Seq<char>, Seq<char>, Seq<char>)| playlist_entry(platform, room_id@, x)),
            r@.len() == i,
            forall|j: int| 0 <= j < i ==> playlist_under(#[trigger] r@[j], cache@, es[j]),
        decreases records.len() - i,
    {
        let rel = playlist_relative_path(platform, room_id, records[i].live_id.as_str());
        let p = RelatedPlaylist {
            live_id: records[i].live_id.clone(),
            title: records[i].title.clone(),
            path: crate::clip_names::join_path(cache, rel.as_str()),
        };
        assert(id[i as int] == record_view(records@[i as int]));
        assert(es[i as int] == playlist_entry(platform, room_id@, id[i as int]));
        assert(playlist_under(p, cache@, es[i as int]));
        r.push(p);
        i = i + 1;
    }
    r
}

/// The related playlists of the records of some lives, oldest first (a
/// stable sort by creation time), with their paths below `cache`.
pub fn related_playlists_by_time(records: &Vec<LiveRecord>, platform: Platform, room_id: &str, cache: &str) -> (r: Vec<
    RelatedPlaylist,
>)
    ensures
        playlists_under(
            r@,
            cache@,
            sorted_by_time(records_view(records@)).map_values(
                |x: (Seq<char>, Seq<char>, Seq<char>)| playlist_entry(platform, room_id@, x),
            ),
        ),
{
    let sorted = sort_records_by_time(records);
    related_playlists(&sorted, platform, room_id, cache)
}

/// Some texts as character sequences, when given.
pub open spec fn opt_seqs(v: Option<&Vec<String>>) -> Option<Seq<Seq<char>>> {
    match v {
        Some(x) => Some(x@.map_values(|s: String| s@)),
        None => None,
    }
}

/// The tag of a whole-live clip: the parent id; when lives were picked by
/// id, the parent id if it is not empty, else the first live id, else empty.
pub open spec fn whole_clip_parent_tag(parent_id: Seq<char>, live_ids: Option<Seq<Seq<char>>>) -> Seq<char> {
    match live_ids {
        None => parent_id,
        Some(ids) => if parent_id.len() > 0 {
            parent_id
        } else if ids.len() > 0 {
            ids[0]
        } else {
            Seq::<char>::empty()
        },
    }
}

/// The file name of a whole-live clip before it is made safe:
/// `[full][<platform>][<room>][<tag>][<timestamp>]<title>.mp4`.
pub open spec fn whole_clip_raw_name(
    platform: Seq<char>,
    room_id: Seq<char>,
    tag: Seq<char>,
    timestamp: Seq<char>,
    title: Seq<char>,
) -> Seq<char> {
    "[full]["@ + platform + "]["@ + room_id + "]["@ + tag + "]["@ + timestamp + "]"@ + title + ".mp4"@
}

/// The file and cover names of a whole-live clip whose first playlist has
/// the title `first_title` (none when there is no playlist): the raw name
/// (`whole_clip_raw_name`, with the platform as `{:?}` writes it and the tag
/// `whole_clip_parent_tag`) made safe, and the same name with the `jpg`
/// extension. `timestamp` is the local time the clip is made.
pub fn whole_clip_names(
    platform: Platform,
    room_id: &str,
    parent_id: &str,
    live_ids: Option<&Vec<String>>,
    first_title: Option<&str>,
    timestamp: &str,
) -> (r: Option<(String, String)>)
    ensures
        first_title is None <==> r is None,
        r matches Some((file, cover)) ==> crate::clip_names::sanitized_from(
            file@,
            whole_clip_raw_name(
                crate::account_rows::platform_debug_name(platform),
                room_id@,
                whole_clip_parent_tag(parent_id@, opt_seqs(live_ids)),
                timestamp@,
                first_title->0@,
            ),
        ) && cover@ == crate::clip_names::with_extension(file@, "jpg"@),
{
    let title = match first_title {
        Some(t) => t,
        None => {
            return None;
        },
    };
    let tag: String = match live_ids {
        None => to_string_of(parent_id),
        Some(ids) => {
            if crate::text::chars_of(parent_id).len() > 0 {
                to_string_of(parent_id)
            } else if ids.len() > 0 {
                ids[0].clone()
            } else {
                String::new()
            }
        },
    };
    let mut raw = to_string_of("[full][");
    raw.append(platform.debug_name().as_str());
    raw.append("][");
    raw.append(room_id);
    raw.append("][");
    raw.append(tag.as_str());
    raw.append("][");
    raw.append(timestamp);
    raw.append("]");
    raw.append(title);
    raw.append(".mp4");
    let ghost rv = whole_clip_raw_name(
        crate::account_rows::platform_debug_name(platform),
        room_id@,
        whole_clip_parent_tag(parent_id@, opt_seqs(live_ids)),
        timestamp@,
        title@,
    );
    proof {
        reveal_strlit("[full][");
        reveal_strlit("][");
        reveal_strlit("]");
        reveal_strlit(".mp4");
        reveal_strlit("jpg");
        reveal_strlit(".");
        reveal_strlit("..");
        if let Some(ids) = live_ids {
            if ids@.len() > 0 {
                assert(opt_seqs(live_ids)->0[0] == ids@[0]@);
            }
        }
        assert(raw@ =~= rv);
        assert(rv[0] == '[');
    }
    let file = crate::clip_names::sanitize_file_name(raw.as_str());
    proof {
        assert(file@[0] == '[');
        assert(file@ != "."@);
        assert(file@ != ".."@);
        assert(forall|i: int| 0 <= i < file@.len() ==> file@[i] != '/' && file@[i] != '\\' && file@[i] != ':');
    }
    let cover = crate::clip_names::path_with_extension(file.as_str(), "jpg");
    Some((file, cover))
}

/// What making a whole-live clip works from: the related playlists, and
/// the clip's file and cover names.
#[derive(Debug)]
pub struct WholeClipPlan {
    pub playlists: Vec<RelatedPlaylist>,
    pub file: String,
    pub cover: String,
}

/// The related playlists of a whole-live clip: those of the records read
/// by parent id, in their order; when lives were picked by id, none for an
/// empty pick, else those of the records read for the ids, oldest first.
pub open spec fn whole_clip_playlists(
    records: Seq<(Seq<char>, Seq<char>, Seq<char>)>,
    platform: Platform,
    room_id: Seq<char>,
    live_ids: Option<Seq<Seq<char>>>,
) -> Seq<(Seq<char>, Seq<char>, Seq<char>)> {
    let picked = match live_ids {
        None => records,
        Some(ids) => if ids.len() == 0 {
            Seq::empty()
        } else {
            sorted_by_time(records)
        },
    };
    picked.map_values(|x: (Seq<char>, Seq<char>, Seq<char>)| playlist_entry(platform, room_id, x))
}

/// Plans a whole-live clip from the records read for it: nothing (the
/// original's early `Ok`) when there is no related playlist, else the
/// playlists (`whole_clip_playlists`, below the cache folder `cache`) and
/// the names that `whole_clip_names` gives for the first playlist's title.
pub fn whole_clip_plan(
    records: &Vec<LiveRecord>,
    platform: Platform,
    room_id: &str,
    parent_id: &str,
    live_ids: Option<&Vec<String>>,
    timestamp: &str,
    cache: &str,
) -> (r: Option<WholeClipPlan>)
    ensures
        ({
            let pv = whole_clip_playlists(records_view(records@), platform, room_id@, opt_seqs(live_ids));
            &&& r is None <==> pv.len() == 0
            &&& r matches Some(plan) ==> {
                &&& playlists_under(plan.playlists@, cache@, pv)
                &&& crate::clip_names::sanitized_from(
                    plan.file@,
                    whole_clip_raw_name(
                        crate::account_rows::platform_debug_name(platform),
                        room_id@,
                        whole_clip_parent_tag(parent_id@, opt_seqs(live_ids)),
                        timestamp@,
                        pv[0].1,
                    ),
                )
                &&& plan.cover@ == crate::clip_names::with_extension(plan.file@, "jpg"@)
            }
        }),
{
    let ghost rv = records_view(records@);
    let playlists: Vec<RelatedPlaylist> = match live_ids {
        None => related_playlists(records, platform, room_id, cache),
        Some(ids) => if ids.len() == 0 {
            let e: Vec<RelatedPlaylist> = Vec::new();
            proof {
                assert(Seq::<(Seq<char>, Seq<char>, Seq<char>)>::empty().map_values(
                    |x: (Seq<char>, Seq<char>, Seq<char>)| playlist_entry(platform, room_id@, x),
                ) =~= Seq::<(Seq<char>, Seq<char>, Seq<char>)>::empty());
            }
            e
        } else {
            related_playlists_by_time(records, platform, room_id, cache)
        },
    };
    let ghost pv = whole_clip_playlists(rv, platform, room_id@, opt_seqs(live_ids));
    assert(playlists_under(playlists@, cache@, pv));
    if playlists.len() == 0 {
        return None;
    }
    assert(playlist_under(playlists@[0], cache@, pv[0]));
    let names = whole_clip_names(platform, room_id, parent_id, live_ids, Some(playlists[0].title.as_str()), timestamp);
    match names {
        Some((file, cover)) => Some(WholeClipPlan { playlists, file, cover }),
        None => None,
    }
}

/// What an import of a cache folder brought: recordings added and
/// recordings updated.
#[derive(Debug)]
pub struct ImportCacheResult {
    pub added: usize,
    pub updated: usize,
}

/// The platform folders a cache holds, in the order they are imported.
pub open spec fn cache_platform_names() -> Seq<Seq<char>> {
    seq!["bilibili"@, "douyin"@, "kuaishou"@, "huya"@, "tiktok"@, "weibo"@, "xiaohongshu"@]
}

/// Exec `cache_platform_names`.
pub fn cache_platforms() -> (r: Vec<String>)
    ensures
        texts(r@) == cache_platform_names(),
{
    let mut r: Vec<String> = Vec::new();
    r.push(to_string_of("bilibili"));
    r.push(to_string_of("douyin"));
    r.push(to_string_of("kuaishou"));
    r.push(to_string_of("huya"));
    r.push(to_string_of("tiktok"));
    r.push(to_string_of("weibo"));
    r.push(to_string_of("xiaohongshu"));
    assert(texts(r@) =~= cache_platform_names());
    r
}

/// The folder an import reads from: the trimmed path; an error when it is
/// blank.
pub fn import_source_path(source_path: &str) -> (r: Result<String, String>)
    ensures
        crate::text::trim(source_path@).len() == 0 ==> (r matches Err(e) && e@ == "Empty cache path"@),
        crate::text::trim(source_path@).len() > 0 ==> (r matches Ok(p) && p@ == crate::text::trim(source_path@)),
{
    let c = crate::text::chars_of(source_path);
    let t = crate::text::trim_chars(c.as_slice());
    if t.len() == 0 {
        Err(to_string_of("Empty cache path"))
    } else {
        Ok(crate::text::string_of(t.as_slice()))
    }
}

// ---------------------------------------------------------------------------
// When a recording started
// ---------------------------------------------------------------------------

/// What the first segment of a playlist says of the time it was recorded.
#[derive(Debug)]
pub struct SegmentStart {
    /// `#EXT-X-PROGRAM-DATE-TIME` as the playlist parser read it, in
    /// milliseconds since the epoch.
    pub program_date_time_ms: Option<i64>,
    /// The segment's tags the parser did not know: each tag's name and the
    /// text after it.
    pub tags: Vec<(String, Option<String>)>,
}

/// The tags as names and optional texts.
pub open spec fn tag_views(tags: Seq<(String, Option<String>)>) -> Seq<(Seq<char>, Option<Seq<char>>)> {
    tags.map_values(|t: (String, Option<String>)| (t.0@, opt_view(t.1)))
}

/// The text of the first tag named `X-PROGRAM-DATE-TIME`, when there is one
/// (`Some(None)` when that tag has no text).
pub open spec fn program_date_tag(tags: Seq<(Seq<char>, Option<Seq<char>>)>) -> Option<
    Option<Seq<char>>,
>
    decreases tags.len(),
{
    if tags.len() == 0 {
        None
    } else if tags[0].0 == "X-PROGRAM-DATE-TIME"@ {
        Some(tags[0].1)
    } else {
        program_date_tag(tags.drop_first())
    }
}

/// What chrono's `DateTime::parse_from_str` with the format
/// `%Y-%m-%dT%H:%M:%S%.3f%z` gives for `value`, as milliseconds since the
/// epoch; `None` when the text does not fit the format.
pub uninterp spec fn program_date_millis(value: Seq<char>) -> Option<i64>;

/// Wraps `chrono::DateTime::parse_from_str` with the playlist's date format
/// (`2025-10-18T17:18:17.004+0800`) and `DateTime::timestamp_millis`: the
/// result is the name `program_date_millis` of the text, nothing more is
/// claimed of it.
#[verifier::external_body]
fn parse_program_date(value: &str) -> (r: Option<i64>)
    ensures
        r == program_date_millis(value@),
{
    match chrono::DateTime::parse_from_str(value, "%Y-%m-%dT%H:%M:%S%.3f%z") {
        Ok(t) => Some(t.timestamp_millis()),
        Err(_) => None,
    }
}

/// What a first segment says of its start, as plain values: its program
/// date and its other tags.
pub open spec fn start_view(first: Option<SegmentStart>) -> Option<
    (Option<i64>, Seq<(Seq<char>, Option<Seq<char>>)>),
> {
    match first {
        Some(s) => Some((s.program_date_time_ms, tag_views(s.tags@))),
        None => None,
    }
}

/// When the first segment (given by `start_view`) was recorded: its program
/// date; else the date text of its `X-PROGRAM-DATE-TIME` tag (which must be
/// readable, see `start_view_readable`); else the live id read as a number.
/// An empty playlist and a live id that is not a number are errors.
pub open spec fn start_timestamp_of(
    first: Option<(Option<i64>, Seq<(Seq<char>, Option<Seq<char>>)>)>,
    live_id: Seq<char>,
) -> Result<i64, RecorderManagerError> {
    let from_id = match parse_i64(live_id) {
        Some(v) => Ok(v),
        None => Err(RecorderManagerError::InvalidLiveID),
    };
    match first {
        None => Err(RecorderManagerError::EmptyPlaylist),
        Some((pdt, tags)) => match pdt {
            Some(t) => Ok(t),
            None => match program_date_tag(tags) {
                Some(Some(v)) => Ok(program_date_millis(v)->0),
                _ => from_id,
            },
        },
    }
}

/// The date text a start time would be read from fits the date format
/// (where it does not, reading it panics).
pub open spec fn start_view_readable(
    first: Option<(Option<i64>, Seq<(Seq<char>, Option<Seq<char>>)>)>,
) -> bool {
    match first {
        Some((pdt, tags)) => pdt is None ==> match program_date_tag(tags) {
            Some(Some(v)) => program_date_millis(v) is Some,
            _ => true,
        },
        None => true,
    }
}

/// `start_timestamp_of` of a first segment.
pub open spec fn start_timestamp(first: Option<SegmentStart>, live_id: Seq<char>) -> Result<
    i64,
    RecorderManagerError,
> {
    start_timestamp_of(start_view(first), live_id)
}

/// `start_view_readable` of a first segment.
pub open spec fn start_date_readable(first: Option<SegmentStart>) -> bool {
    start_view_readable(start_view(first))
}

/// The text of the first `X-PROGRAM-DATE-TIME` tag.
fn find_program_date_tag(tags: &Vec<(String, Option<String>)>) -> (r: Option<Option<String>>)
    ensures
        match r {
            Some(Some(v)) => program_date_tag(tag_views(tags@)) == Some(Some(v@)),
            Some(None) => program_date_tag(tag_views(tags@)) == Some(None::<Seq<char>>),
            None => program_date_tag(tag_views(tags@)) is None,
        },
{
    let ghost ts = tag_views(tags@);
    let mut i: usize = 0;
    assert(ts.skip(0) =~= ts);
    while i < tags.len()
        invariant
            i <= tags.len(),
            ts == tag_views(tags@),
            program_date_tag(ts) == program_date_tag(ts.skip(i as int)),
        decreases tags.len() - i,
    {
        assert(ts.skip(i as int)[0] == ts[i as int]);
        assert(ts.skip(i as int).drop_first() =~= ts.skip(i as int + 1));
        if same_str(tags[i].0.as_str(), "X-PROGRAM-DATE-TIME") {
            return match &tags[i].1 {
                Some(v) => Some(Some(v.clone())),
                None => Some(None),
            };
        }
        i = i + 1;
    }
    assert(ts.skip(tags.len() as int).len() == 0);
    None
}

/// When a recording started, from its playlist's first segment (`None`
/// for an empty playlist) and its live id.
pub fn first_segment_timestamp(first: &Option<SegmentStart>, live_id: &str) -> (r: Result<
    i64,
    RecorderManagerError,
>)
    requires
        start_date_readable(*first),
    ensures
        r == start_timestamp(*first, live_id@),
{
    let s = match first {
        None => {
            return Err(RecorderManagerError::EmptyPlaylist);
        },
        Some(s) => s,
    };
    if let Some(t) = s.program_date_time_ms {
        return Ok(t);
    }
    match find_program_date_tag(&s.tags) {
        Some(Some(v)) => Ok(parse_program_date(v.as_str()).unwrap()),
        _ => match parse_i64_exec(live_id) {
            Some(v) => Ok(v),
            None => Err(RecorderManagerError::InvalidLiveID),
        },
    }
}

/// `first_segment_timestamp` where the date text can be read; `None` where
/// reading it would fail.
pub fn first_segment_timestamp_checked(first: &Option<SegmentStart>, live_id: &str) -> (r: Option<
    Result<i64, RecorderManagerError>,
>)
    ensures
        match r {
            Some(t) => start_date_readable(*first) && t == start_timestamp(*first, live_id@),
            None => !start_date_readable(*first),
        },
{
    if let Some(s) = first {
        if s.program_date_time_ms.is_none() {
            if let Some(Some(v)) = find_program_date_tag(&s.tags) {
                if parse_program_date(v.as_str()).is_none() {
                    return None;
                }
            }
        }
    }
    Some(first_segment_timestamp(first, live_id))
}

/// What `m3u8_rs::parse_media_playlist` reads from a playlist's bytes, as
/// far as its first segment's start goes: `None` when the parse fails;
/// else the first segment's program date (in milliseconds) and other tags,
/// or `None` for a playlist without segments.
pub uninterp spec fn media_playlist_start(bytes: Seq<u8>) -> Option<
    Option<(Option<i64>, Seq<(Seq<char>, Option<Seq<char>>)>)>,
>;

/// Calls `m3u8_rs::parse_media_playlist` and converts the first segment's
/// program date (`DateTime::timestamp_millis`) and unknown tags. Its result
/// is named (`media_playlist_start`).
#[verifier::external_body]
fn parse_media_playlist_start(bytes: &[u8]) -> (r: Option<Option<SegmentStart>>)
    ensures
        match r {
            Some(f) => media_playlist_start(bytes@) == Some(start_view(f)),
            None => media_playlist_start(bytes@) is None,
        },
{
    match m3u8_rs::parse_media_playlist(bytes) {
        Ok((_, pl)) => Some(pl.segments.first().map(|s| SegmentStart {
            program_date_time_ms: s.program_date_time.map(|t| t.timestamp_millis()),
            tags: s.unknown_tags.iter().map(|t| (t.tag.clone(), t.rest.clone())).collect(),
        })),
        Err(_) => None,
    }
}

/// The playlist's bytes can be read to the end: they are UTF-8 where they
/// do not parse (the error carries them as text), and the first segment's
/// date text is readable (`start_view_readable`).
pub open spec fn playlist_start_readable(bytes: Seq<u8>) -> bool {
    match media_playlist_start(bytes) {
        None => valid_utf8(bytes),
        Some(first) => start_view_readable(first),
    }
}

/// The bytes as a vector.
fn copy_bytes(bytes: &[u8]) -> (v: Vec<u8>)
    ensures
        v@ == bytes@,
{
    let mut v: Vec<u8> = Vec::new();
    let mut i: usize = 0;
    while i < bytes.len()
        invariant
            i <= bytes.len(),
            v@ == bytes@.take(i as int),
        decreases bytes.len() - i,
    {
        v.push(bytes[i]);
        i = i + 1;
        assert(v@ =~= bytes@.take(i as int));
    }
    assert(bytes@.take(bytes.len() as int) =~= bytes@);
    v
}

/// When a recording started, from its playlist's bytes and its live id:
/// `M3u8ParseFailed` with the bytes as text when they do not parse as a
/// media playlist, else `start_timestamp_of` of the first segment.
pub fn playlist_start_from_bytes(bytes: &[u8], live_id: &str) -> (r: Result<i64, RecorderManagerError>)
    requires
        playlist_start_readable(bytes@),
    ensures
        match media_playlist_start(bytes@) {
            None => r matches Err(RecorderManagerError::M3u8ParseFailed { content }) && content@
                == decode_utf8(bytes@),
            Some(first) => r == start_timestamp_of(first, live_id@),
        },
{
    match parse_media_playlist_start(bytes) {
        Some(first) => first_segment_timestamp(&first, live_id),
        None => {
            let v = copy_bytes(bytes);
            let content = crate::tiktok_qr::utf8_decode(v).unwrap();
            Err(RecorderManagerError::M3u8ParseFailed { content })
        },
    }
}

/// `playlist_start_from_bytes` where the bytes can be read to the end;
/// `None` where reading them would fail.
pub fn playlist_start_checked(bytes: &[u8], live_id: &str) -> (r: Option<Result<i64, RecorderManagerError>>)
    ensures
        match r {
            Some(t) => playlist_start_readable(bytes@) && match media_playlist_start(bytes@) {
                None => t matches Err(RecorderManagerError::M3u8ParseFailed { content }) && content@
                    == decode_utf8(bytes@),
                Some(first) => t == start_timestamp_of(first, live_id@),
            },
            None => !playlist_start_readable(bytes@),
        },
{
    match parse_media_playlist_start(bytes) {
        Some(first) => match first_segment_timestamp_checked(&first, live_id) {
            Some(t) => Some(t),
            None => None,
        },
        None => {
            let v = copy_bytes(bytes);
            match crate::tiktok_qr::utf8_decode(v) {
                Some(content) => Some(Err(RecorderManagerError::M3u8ParseFailed { content })),
                None => None,
            }
        },
    }
}

// ---------------------------------------------------------------------------
// Recorder events
// ---------------------------------------------------------------------------

/// The webhook events the manager posts.
#[derive(Debug, Clone, Copy, PartialEq, Eq, Structural)]
pub enum WebhookKind {
    LiveStarted,
    LiveEnded,
    RecordStarted,
    RecordEnded,
}

/// An event a recorder sends to the manager, with what the manager needs of
/// it.
#[derive(Debug)]
pub enum ManagerEvent {
    LiveStart { user_name: String, room_title: String },
    LiveEnd { user_name: String, room_title: String },
    RecordStart {
        platform: Platform,
        room_id: String,
        live_id: String,
        room_cover: String,
        has_resolution: bool,
    },
    RecordUpdate,
    /// A recording ended; `record_size` is the size of its stored record,
    /// `None` when no record was found.
    RecordEnd { record_size: Option<i64> },
    ProgressUpdate,
    ProgressFinished,
    GuestCookieRefreshRequested { platform: Platform, reason: String },
    DanmuReceived,
}

/// What the manager does for an event, in order.
#[derive(Debug)]
pub enum EventAction {
    PostWebhook { kind: WebhookKind },
    Notify { title: String, body: String },
    /// Store a record of the new recording, with its cover path.
    AddRecord { cover_path: Option<String> },
    SaveResolution,
    UpdateRecordDelta,
    /// Delete the empty record and its cache folder.
    RemoveEmptyRecord,
    /// Hand the ended recording to the auto-generation.
    HandleLiveEnd,
    /// Pass the event on to the user interface.
    Forward,
    /// Refresh the guest accounts, for the reason given.
    RefreshGuests { reason: String },
    /// Stop handling events.
    StopHandling,
}

/// What the manager does for `event`: webhooks, notifications when they
/// are switched on, the record bookkeeping, forwarding.
pub open spec fn event_actions_ok(
    event: ManagerEvent,
    live_start_notify: bool,
    live_end_notify: bool,
    r: Seq<EventAction>,
) -> bool {
    match event {
        ManagerEvent::LiveStart { user_name, room_title } => {
            &&& r.len() == if live_start_notify { 2int } else { 1int }
            &&& r[0] == EventAction::PostWebhook { kind: WebhookKind::LiveStarted }
            &&& live_start_notify ==> (r[1] matches EventAction::Notify { title, body } && title@
                == "ShadowVerse - 直播开始"@ && body@ == user_name@ + " 开启了直播："@
                + room_title@)
        },
        ManagerEvent::LiveEnd { user_name, room_title } => {
            &&& r.len() == if live_end_notify { 2int } else { 1int }
            &&& r[0] == EventAction::PostWebhook { kind: WebhookKind::LiveEnded }
            &&& live_end_notify ==> (r[1] matches EventAction::Notify { title, body } && title@
                == "ShadowVerse - 直播结束"@ && body@ == user_name@ + " 结束了直播："@
                + room_title@)
        },
        ManagerEvent::RecordStart { platform, room_id, live_id, room_cover, has_resolution } => {
            &&& r.len() == if has_resolution { 3int } else { 2int }
            &&& r[0] matches EventAction::AddRecord { cover_path } && opt_view(cover_path) == (
            if room_cover@.len() > 0 {
                Some(platform_name(platform) + "/"@ + room_id@ + "/"@ + live_id@ + "/cover.jpg"@)
            } else {
                None
            })
            &&& has_resolution ==> r[1] == EventAction::SaveResolution
            &&& r[r.len() - 1] == EventAction::PostWebhook { kind: WebhookKind::RecordStarted }
        },
        ManagerEvent::RecordUpdate => r == seq![EventAction::UpdateRecordDelta],
        ManagerEvent::RecordEnd { record_size } => match record_size {
            None => r == seq![
                EventAction::PostWebhook { kind: WebhookKind::RecordEnded },
                EventAction::StopHandling,
            ],
            Some(size) => r == seq![
                EventAction::PostWebhook { kind: WebhookKind::RecordEnded },
                if size == 0 {
                    EventAction::RemoveEmptyRecord
                } else {
                    EventAction::HandleLiveEnd
                },
            ],
        },
        ManagerEvent::GuestCookieRefreshRequested { platform, reason } => {
            &&& r.len() == 1
            &&& r[0] matches EventAction::RefreshGuests { reason: why } && why@ == platform_name(
                platform,
            ) + ": "@ + reason@
        },
        _ => r == seq![EventAction::Forward],
    }
}

/// Decides what the manager does for one recorder event; the caller
/// performs the actions in order.
pub fn event_actions(event: &ManagerEvent, live_start_notify: bool, live_end_notify: bool) -> (r: Vec<
    EventAction,
>)
    ensures
        event_actions_ok(*event, live_start_notify, live_end_notify, r@),
{
    let mut r: Vec<EventAction> = Vec::new();
    match event {
        ManagerEvent::LiveStart { user_name, room_title } => {
            r.push(EventAction::PostWebhook { kind: WebhookKind::LiveStarted });
            if live_start_notify {
                r.push(
                    EventAction::Notify {
                        title: to_string_of("ShadowVerse - 直播开始"),
                        body: crate::recorders::live_start_notice(user_name.as_str(), room_title.as_str()),
                    },
                );
            }
        },
        ManagerEvent::LiveEnd { user_name, room_title } => {
            r.push(EventAction::PostWebhook { kind: WebhookKind::LiveEnded });
            if live_end_notify {
                r.push(
                    EventAction::Notify {
                        title: to_string_of("ShadowVerse - 直播结束"),
                        body: crate::recorders::live_end_notice(user_name.as_str(), room_title.as_str()),
                    },
                );
            }
        },
        ManagerEvent::RecordStart { platform, room_id, live_id, room_cover, has_resolution } => {
            let name = platform.as_str();
            let cover_path = crate::recorders::record_cover_path(
                name.as_str(),
                room_id.as_str(),
                live_id.as_str(),
                room_cover.as_str(),
            );
            r.push(EventAction::AddRecord { cover_path });
            if *has_resolution {
                r.push(EventAction::SaveResolution);
            }
            r.push(EventAction::PostWebhook { kind: WebhookKind::RecordStarted });
        },
        ManagerEvent::RecordUpdate => {
            r.push(EventAction::UpdateRecordDelta);
        },
        ManagerEvent::RecordEnd { record_size } => {
            r.push(EventAction::PostWebhook { kind: WebhookKind::RecordEnded });
            match record_size {
                None => r.push(EventAction::StopHandling),
                Some(size) => {
                    if *size == 0 {
                        r.push(EventAction::RemoveEmptyRecord);
                    } else {
                        r.push(EventAction::HandleLiveEnd);
                    }
                },
            }
        },
        ManagerEvent::GuestCookieRefreshRequested { platform, reason } => {
            let mut why = platform.as_str();
            why.append(": ");
            why.append(reason.as_str());
            r.push(EventAction::RefreshGuests { reason: why });
        },
        _ => {
            r.push(EventAction::Forward);
        },
    }
    proof {
        if r@.len() == 1 {
            assert(r@ =~= seq![r@[0]]);
        }
        if r@.len() == 2 {
            assert(r@ =~= seq![r@[0], r@[1]]);
        }
    }
    r
}

} // verus!
