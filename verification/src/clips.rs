//! Chat timing for clips and archives: chat entries moved from wall-clock
//! milliseconds to the clip's timeline, range by range.
use vstd::prelude::*;

verus! {

#[derive(Debug)]
/// A chat entry: when it was sent (milliseconds) and what it says.
pub struct DanmuEntry {
    pub ts: i64,
    pub content: String,
}

/// An entry as time and text.
pub open spec fn entry_view(d: DanmuEntry) -> (int, Seq<char>) {
    (d.ts as int, d.content@)
}

/// The entries as times and texts.
pub open spec fn entries_view(v: Seq<DanmuEntry>) -> Seq<(int, Seq<char>)> {
    v.map_values(|d: DanmuEntry| entry_view(d))
}

/// Every entry's time moved by `delta`.
pub open spec fn shifted(v: Seq<(int, Seq<char>)>, delta: int) -> Seq<(int, Seq<char>)> {
    v.map_values(|e: (int, Seq<char>)| (e.0 + delta, e.1))
}

/// Every entry's time moved by `delta` fits in `i64`.
pub open spec fn shift_fits(v: Seq<DanmuEntry>, delta: int) -> bool {
    forall|i: int| 0 <= i < v.len() ==> i64::MIN <= (#[trigger] v[i]).ts + delta <= i64::MAX
}

/// Moves every entry's time by `delta`.
pub fn shift_danmus(danmus: Vec<DanmuEntry>, delta: i64) -> (r: Vec<DanmuEntry>)
    requires
        shift_fits(danmus@, delta as int),
    ensures
        entries_view(r@) == shifted(entries_view(danmus@), delta as int),
{
    let ghost all = danmus@;
    let mut out: Vec<DanmuEntry> = Vec::new();
    let n = danmus.len();
    let mut i: usize = 0;
    while i < n
        invariant
            i <= n == all.len(),
            danmus@ == all,
            shift_fits(all, delta as int),
            out@.len() == i,
            forall|k: int| 0 <= k < i ==> entry_view(#[trigger] out@[k]) == (all[k].ts + delta, all[k].content@),
        decreases n - i,
    {
        let d = &danmus[i];
        let e = DanmuEntry { ts: d.ts + delta, content: d.content.clone() };
        out.push(e);
        i = i + 1;
    }
    assert(entries_view(out@) =~= shifted(entries_view(all), delta as int));
    out
}

/// The entries relative to a stream's start: each time less the start and
/// the local offset (seconds).
pub fn relative_danmus(danmus: Vec<DanmuEntry>, stream_start_ms: i64, local_offset_secs: i64) -> (r: Vec<DanmuEntry>)
    requires
        i64::MIN <= local_offset_secs * 1000 <= i64::MAX,
        i64::MIN <= stream_start_ms + local_offset_secs * 1000 <= i64::MAX,
        shift_fits(danmus@, -(stream_start_ms + local_offset_secs * 1000)),
    ensures
        entries_view(r@) == shifted(entries_view(danmus@), -(stream_start_ms + local_offset_secs * 1000)),
{
    let base = stream_start_ms + local_offset_secs * 1000;
    shift_danmus_neg(danmus, base)
}

/// Moves every entry's time back by `delta`.
fn shift_danmus_neg(danmus: Vec<DanmuEntry>, delta: i64) -> (r: Vec<DanmuEntry>)
    requires
        shift_fits(danmus@, -(delta as int)),
    ensures
        entries_view(r@) == shifted(entries_view(danmus@), -(delta as int)),
{
    let ghost all = danmus@;
    let mut out: Vec<DanmuEntry> = Vec::new();
    let n = danmus.len();
    let mut i: usize = 0;
    while i < n
        invariant
            i <= n == all.len(),
            danmus@ == all,
            shift_fits(all, -(delta as int)),
            out@.len() == i,
            forall|k: int| 0 <= k < i ==> entry_view(#[trigger] out@[k]) == (all[k].ts - delta, all[k].content@),
        decreases n - i,
    {
        let d = &danmus[i];
        let e = DanmuEntry { ts: d.ts - delta, content: d.content.clone() };
        out.push(e);
        i = i + 1;
    }
    assert(entries_view(out@) =~= shifted(entries_view(all), -(delta as int)));
    out
}

} // verus!

verus! {

/// The entries whose time lies in `[lo, hi]`, in order.
pub open spec fn within(v: Seq<(int, Seq<char>)>, lo: int, hi: int) -> Seq<(int, Seq<char>)>
    decreases v.len(),
{
    if v.len() == 0 {
        v
    } else if lo <= v.last().0 <= hi {
        within(v.drop_last(), lo, hi).push(v.last())
    } else {
        within(v.drop_last(), lo, hi)
    }
}

/// The entries of one clip range on the clip's timeline: moved back by the
/// range's start; when the range has a length (`window`, rounded
/// milliseconds), only those from 0 to it; then moved on by the range's
/// anchor.
pub open spec fn range_danmus(
    v: Seq<(int, Seq<char>)>,
    start: int,
    window: Option<i64>,
    anchor: int,
) -> Seq<(int, Seq<char>)> {
    let s = shifted(v, -start);
    let kept = match window {
        Some(w) => within(s, 0, w as int),
        None => s,
    };
    shifted(kept, anchor)
}

/// `e` stays in the range's window.
pub open spec fn kept_in_window(t: int, window: Option<i64>) -> bool {
    match window {
        Some(w) => 0 <= t <= w,
        None => true,
    }
}

/// Exec `range_danmus`.
pub fn filter_danmus_in_range(danmus: Vec<DanmuEntry>, start_ms: i64, window_ms: Option<i64>, anchor: i64) -> (r: Vec<DanmuEntry>)
    requires
        forall|i: int|
            0 <= i < danmus@.len() ==> i64::MIN <= (#[trigger] danmus@[i]).ts - start_ms <= i64::MAX && (
            kept_in_window(danmus@[i].ts - start_ms, window_ms) ==> i64::MIN <= danmus@[i].ts - start_ms + anchor
                <= i64::MAX),
    ensures
        entries_view(r@) == range_danmus(entries_view(danmus@), start_ms as int, window_ms, anchor as int),
{
    let ghost all = entries_view(danmus@);
    let ghost s = shifted(all, -(start_ms as int));
    let mut out: Vec<DanmuEntry> = Vec::new();
    let mut i: usize = 0;
    assert(s.take(0) =~= Seq::<(int, Seq<char>)>::empty());
    while i < danmus.len()
        invariant
            i <= danmus.len(),
            all == entries_view(danmus@),
            s == shifted(all, -(start_ms as int)),
            forall|k: int|
                0 <= k < danmus@.len() ==> i64::MIN <= (#[trigger] danmus@[k]).ts - start_ms <= i64::MAX && (
                kept_in_window(danmus@[k].ts - start_ms, window_ms) ==> i64::MIN <= danmus@[k].ts - start_ms
                    + anchor <= i64::MAX),
            entries_view(out@) == shifted(
                match window_ms {
                    Some(w) => within(s.take(i as int), 0, w as int),
                    None => s.take(i as int),
                },
                anchor as int,
            ),
        decreases danmus.len() - i,
    {
        let d = &danmus[i];
        let t = d.ts - start_ms;
        let ghost prev = entries_view(out@);
        assert(s.take(i as int + 1).drop_last() =~= s.take(i as int));
        assert(s.take(i as int + 1).last() == (t as int, d.content@));
        let keep = match window_ms {
            Some(w) => 0 <= t && t <= w,
            None => true,
        };
        if keep {
            out.push(DanmuEntry { ts: t + anchor, content: d.content.clone() });
            proof {
                assert(entries_view(out@) =~= prev.push((t + anchor, d.content@)));
                match window_ms {
                    Some(w) => {
                        assert(within(s.take(i as int + 1), 0, w as int) == within(s.take(i as int), 0, w as int).push((t as int, d.content@)));
                        assert(shifted(within(s.take(i as int + 1), 0, w as int), anchor as int) =~= shifted(within(s.take(i as int), 0, w as int), anchor as int).push((t + anchor, d.content@)));
                    },
                    None => {
                        assert(shifted(s.take(i as int + 1), anchor as int) =~= shifted(s.take(i as int), anchor as int).push((t + anchor, d.content@)));
                    },
                }
            }
        } else {
            proof {
                match window_ms {
                    Some(w) => {
                        assert(within(s.take(i as int + 1), 0, w as int) == within(s.take(i as int), 0, w as int));
                    },
                    None => {},
                }
            }
        }
        i = i + 1;
    }
    assert(s.take(danmus.len() as int) =~= s);
    out
}

/// The sum of the first `n` durations.
pub open spec fn prefix_sum(d: Seq<i64>, n: int) -> int
    decreases n,
{
    if n <= 0 {
        0
    } else {
        prefix_sum(d, n - 1) + d[n - 1]
    }
}

/// Where each clip range starts on the clip's timeline: the sum of the
/// durations (milliseconds) of the ranges before it.
pub fn range_anchors(durations_ms: &Vec<i64>) -> (r: Vec<i64>)
    requires
        forall|i: int| 0 <= i < durations_ms.len() ==> i64::MIN <= #[trigger] prefix_sum(durations_ms@, i) <= i64::MAX,
    ensures
        r@.len() == durations_ms@.len(),
        forall|i: int| 0 <= i < r@.len() ==> r@[i] == prefix_sum(durations_ms@, i),
{
    let mut r: Vec<i64> = Vec::new();
    let mut i: usize = 0;
    while i < durations_ms.len()
        invariant
            i <= durations_ms.len(),
            r@.len() == i,
            forall|k: int| 0 <= k < durations_ms.len() ==> i64::MIN <= #[trigger] prefix_sum(durations_ms@, k) <= i64::MAX,
            forall|k: int| 0 <= k < i ==> r@[k] == prefix_sum(durations_ms@, k),
        decreases durations_ms.len() - i,
    {
        if i == 0 {
            r.push(0);
        } else {
            let prev = r[i - 1];
            assert(prefix_sum(durations_ms@, i as int) == prefix_sum(durations_ms@, i - 1) + durations_ms@[i - 1]);
            r.push(durations_ms[i - 1] + prev);
        }
        i = i + 1;
    }
    r
}

/// An archive's chat on its own timeline: the entries sent from its first
/// segment on, moved back by that segment's time.
pub open spec fn archive_danmus_view(v: Seq<(int, Seq<char>)>, first: int) -> Seq<(int, Seq<char>)> {
    shifted(within(v, first, i64::MAX as int), -first)
}

/// Exec `archive_danmus_view`.
pub fn archive_danmus(danmus: Vec<DanmuEntry>, first_ms: i64) -> (r: Vec<DanmuEntry>)
    requires
        forall|i: int| 0 <= i < danmus@.len() && (#[trigger] danmus@[i]).ts >= first_ms ==> danmus@[i].ts - first_ms <= i64::MAX,
    ensures
        entries_view(r@) == archive_danmus_view(entries_view(danmus@), first_ms as int),
{
    let ghost all = entries_view(danmus@);
    let mut out: Vec<DanmuEntry> = Vec::new();
    let mut i: usize = 0;
    assert(all.take(0) =~= Seq::<(int, Seq<char>)>::empty());
    while i < danmus.len()
        invariant
            i <= danmus.len(),
            all == entries_view(danmus@),
            forall|k: int| 0 <= k < danmus@.len() && (#[trigger] danmus@[k]).ts >= first_ms ==> danmus@[k].ts - first_ms <= i64::MAX,
            entries_view(out@) == shifted(within(all.take(i as int), first_ms as int, i64::MAX as int), -first_ms),
        decreases danmus.len() - i,
    {
        let d = &danmus[i];
        let ghost prev = entries_view(out@);
        assert(all.take(i as int + 1).drop_last() =~= all.take(i as int));
        assert(all.take(i as int + 1).last() == (d.ts as int, d.content@));
        if d.ts >= first_ms {
            out.push(DanmuEntry { ts: d.ts - first_ms, content: d.content.clone() });
            assert(entries_view(out@) =~= prev.push((d.ts - first_ms, d.content@)));
            assert(shifted(within(all.take(i as int + 1), first_ms as int, i64::MAX as int), -first_ms) =~= shifted(within(all.take(i as int), first_ms as int, i64::MAX as int), -first_ms).push((d.ts - first_ms, d.content@)));
        }
        i = i + 1;
    }
    assert(all.take(danmus.len() as int) =~= all);
    out
}

} // verus!
