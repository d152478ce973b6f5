//! The decisions of a TikTok recorder's loop: which recorder to start on a
//! stream and what to do when it stops, how fast to poll chat, which live id
//! a recording gets, and how long to wait while the room is offline.
use vstd::prelude::*;
use crate::config::opt_view;
use crate::json::{parse_u64, parse_u64_exec};
use crate::text::{chars_of, string_of, to_string_of, trim, trim_chars};
use crate::tiktok::{RecorderError, TikTokProtocol};

verus! {

// ---------------------------------------------------------------------------
// Choosing the recorder
// ---------------------------------------------------------------------------

#[derive(Debug)]
/// What to record a stream with next.
pub enum RecordAction {
    /// Record the FLV (RTMP) stream at `url`. When `last`, its outcome is the
    /// recording's; otherwise a failure goes on with `after_flv_failed`.
    Flv { url: String, last: bool },
    /// Record the HLS stream at `url`; a failure goes on with
    /// `after_hls_failed`.
    Hls { url: String },
    /// Nothing can be recorded.
    Fail(RecorderError),
}

/// The first recorder for a stream: the FLV stream first when there is one
/// and FLV or RTMP is preferred; else HLS when there is an HLS stream; else
/// FLV as the only choice; else no stream.
pub fn first_record_action(hls: &Option<String>, rtmp: &Option<String>, prefer: TikTokProtocol) -> (r: RecordAction)
    ensures
        match (opt_view(*hls), opt_view(*rtmp)) {
            (_, Some(f)) if !(prefer is Hls) => r matches RecordAction::Flv { url, last } && url@ == f && !last,
            (Some(h), _) => r matches RecordAction::Hls { url } && url@ == h,
            (None, Some(f)) => r matches RecordAction::Flv { url, last } && url@ == f && last,
            (None, None) => r matches RecordAction::Fail(RecorderError::NoStreamAvailable),
        },
{
    let prefer_rtmp = match prefer {
        TikTokProtocol::Flv | TikTokProtocol::Rtmp => true,
        TikTokProtocol::Hls => false,
    };
    if let Some(f) = rtmp {
        if prefer_rtmp {
            return RecordAction::Flv { url: f.clone(), last: false };
        }
    }
    match hls {
        Some(h) => RecordAction::Hls { url: h.clone() },
        None => match rtmp {
            Some(f) => RecordAction::Flv { url: f.clone(), last: true },
            None => RecordAction::Fail(RecorderError::NoStreamAvailable),
        },
    }
}

/// After the preferred FLV recorder failed with `error`: HLS when there is an
/// HLS stream, else the recording fails with that error.
pub fn after_flv_failed(hls: &Option<String>, error: String) -> (r: RecordAction)
    ensures
        match opt_view(*hls) {
            Some(h) => r matches RecordAction::Hls { url } && url@ == h,
            None => r matches RecordAction::Fail(RecorderError::ApiError { error: e }) && e@ == error@,
        },
{
    match hls {
        Some(h) => RecordAction::Hls { url: h.clone() },
        None => RecordAction::Fail(RecorderError::ApiError { error }),
    }
}

/// After the HLS recorder failed: the FLV stream, when there is one, whose
/// outcome is then the recording's; else the HLS failure stands.
pub fn after_hls_failed(rtmp: &Option<String>) -> (r: Option<RecordAction>)
    ensures
        match opt_view(*rtmp) {
            Some(f) => r matches Some(RecordAction::Flv { url, last }) && url@ == f && last,
            None => r is None,
        },
{
    match rtmp {
        Some(f) => Some(RecordAction::Flv { url: f.clone(), last: true }),
        None => None,
    }
}

// ---------------------------------------------------------------------------
// Chat polling
// ---------------------------------------------------------------------------

/// `v` clamped to `[lo, hi]`.
pub open spec fn clamped(v: int, lo: int, hi: int) -> int {
    if v < lo {
        lo
    } else if v > hi {
        hi
    } else {
        v
    }
}

/// The poll interval set for chat (`TIKTOK_DANMU_POLL_MS`): a trimmed,
/// non-empty value that parses as `u64`.
pub open spec fn poll_override(raw: Option<Seq<char>>) -> Option<u64> {
    match raw {
        Some(v) => if trim(v).len() == 0 {
            None
        } else {
            parse_u64(trim(v))
        },
        None => None,
    }
}

/// Exec `poll_override`.
pub fn parse_poll_override(raw: &Option<String>) -> (r: Option<u64>)
    ensures
        r == poll_override(opt_view(*raw)),
{
    match raw {
        Some(v) => {
            let c = chars_of(v.as_str());
            let t = trim_chars(c.as_slice());
            if t.len() == 0 {
                None
            } else {
                let s = string_of(t.as_slice());
                parse_u64_exec(s.as_str())
            }
        },
        None => None,
    }
}

/// The wait before the next chat poll, in milliseconds: the override
/// clamped to 200..5000, else the interval the answer asked for (1000 when
/// none) clamped to 250..5000.
pub fn danmu_poll_interval(fetch_interval_ms: Option<u64>, override_ms: Option<u64>) -> (ms: u64)
    ensures
        ms == match override_ms {
            Some(o) => clamped(o as int, 200, 5000),
            None => clamped(
                match fetch_interval_ms {
                    Some(f) => f as int,
                    None => 1000,
                },
                250,
                5000,
            ),
        },
{
    match override_ms {
        Some(o) => if o < 200 {
            200
        } else if o > 5000 {
            5000
        } else {
            o
        },
        None => {
            let f = match fetch_interval_ms {
                Some(f) => f,
                None => 1000,
            };
            if f < 250 {
                250
            } else if f > 5000 {
                5000
            } else {
                f
            }
        },
    }
}

/// The chat messages that are passed on: those that are not blank, in
/// order.
pub open spec fn shown_messages(ms: Seq<Seq<char>>) -> Seq<Seq<char>>
    decreases ms.len(),
{
    if ms.len() == 0 {
        Seq::<Seq<char>>::empty()
    } else if trim(ms.last()).len() == 0 {
        shown_messages(ms.drop_last())
    } else {
        shown_messages(ms.drop_last()).push(ms.last())
    }
}

/// Exec `shown_messages`.
pub fn danmu_messages_to_emit(messages: Vec<String>) -> (r: Vec<String>)
    ensures
        r@.map_values(|s: String| s@) == shown_messages(messages@.map_values(|s: String| s@)),
{
    let ghost ms = messages@.map_values(|s: String| s@);
    let mut out: Vec<String> = Vec::new();
    let mut i: usize = 0;
    assert(ms.take(0) =~= Seq::<Seq<char>>::empty());
    while i < messages.len()
        invariant
            i <= messages.len(),
            ms == messages@.map_values(|s: String| s@),
            out@.map_values(|s: String| s@) == shown_messages(ms.take(i as int)),
        decreases messages.len() - i,
    {
        assert(ms.take(i as int + 1).drop_last() =~= ms.take(i as int));
        let c = chars_of(messages[i].as_str());
        let t = trim_chars(c.as_slice());
        if t.len() > 0 {
            let ghost before = out@.map_values(|s: String| s@);
            out.push(messages[i].clone());
            assert(out@.map_values(|s: String| s@) =~= before.push(messages@[i as int]@));
        }
        i = i + 1;
    }
    assert(ms.take(messages.len() as int) =~= ms);
    out
}

/// The chat cursor after a poll: the answer's next cursor, else the one
/// before.
pub fn next_danmu_cursor(current: Option<String>, next: Option<String>) -> (r: Option<String>)
    ensures
        opt_view(r) == match opt_view(next) {
            Some(n) => Some(n),
            None => opt_view(current),
        },
{
    match next {
        Some(n) => Some(n),
        None => current,
    }
}

// ---------------------------------------------------------------------------
// The recorder loop
// ---------------------------------------------------------------------------

/// The live id of a new recording and the loop's state after choosing it:
/// the previous live id continues an expired stream (and clears the flag);
/// otherwise the current time in milliseconds becomes the id and is kept as
/// the previous one.
pub fn next_live_id(should_continue: bool, pre_live_id: Option<String>, now_ms: i64) -> (r: (String, bool, Option<String>))
    ensures
        match opt_view(pre_live_id) {
            Some(p) if should_continue => r.0@ == p && !r.1 && opt_view(r.2) == Some(p),
            _ => r.0@ == crate::json::signed_decimal(now_ms as int) && r.1 == should_continue
                && opt_view(r.2) == Some(r.0@),
        },
{
    match pre_live_id {
        Some(p) => {
            if should_continue {
                let id = p.clone();
                return (id, false, Some(p));
            }
            let id = crate::json::number_to_string(&crate::json::JsonNumber::NegInt(now_ms));
            let kept = id.clone();
            (id, should_continue, Some(kept))
        },
        None => {
            let id = crate::json::number_to_string(&crate::json::JsonNumber::NegInt(now_ms));
            let kept = id.clone();
            (id, should_continue, Some(kept))
        },
    }
}

/// The status-check interval while the room is offline, in seconds: the
/// configured one, at least 2, at most 3 (before jitter).
pub fn offline_poll_interval(configured: u64) -> (s: u64)
    ensures
        s == (if configured < 2 {
            2
        } else if configured > 3 {
            3
        } else {
            configured
        }),
{
    let c = if configured < 2 {
        2
    } else {
        configured
    };
    if c > 3 {
        3
    } else {
        c
    }
}

/// The pause after a recording ended, in seconds: 2 to 5, from a random
/// number.
pub fn pause_after_recording(random: u64) -> (s: u64)
    ensures
        s == random % 4 + 2,
        2 <= s <= 5,
{
    random % 4 + 2
}

/// The room id chat is fetched for, when it needs no request: a numeric
/// room id is one.
pub fn danmu_room_id_without_request(room_id: &str) -> (r: Option<String>)
    ensures
        match r {
            Some(x) => x@ == room_id@ && forall|i: int| 0 <= i < room_id@.len() ==> crate::text::is_digit(#[trigger] room_id@[i]),
            None => exists|i: int| 0 <= i < room_id@.len() && !crate::text::is_digit(#[trigger] room_id@[i]),
        },
{
    if crate::tiktok::is_room_id_numeric(room_id) {
        Some(to_string_of(room_id))
    } else {
        None
    }
}

} // verus!
