//! Requests to the built-in HLS server: `<platform>/<room>/<live>/<file>`
//! with optional `start` and `end` seconds, answered with a playlist or a
//! cached segment.
use vstd::prelude::*;
use crate::account_rows::{platform_named, Platform};
use crate::json::{parse_i64, parse_i64_exec};
use crate::recorders::RecorderManagerError;
use crate::text::{
    chars_of, ends_with, eq_chars, join, join_chars, replace_all, replace_chars, split_char,
    split_chars, string_of, to_string_of, views,
};

verus! {

/// The path of a request: what comes before its first `?`.
pub open spec fn request_path(uri: Seq<char>) -> Seq<char> {
    split_char(uri, '?')[0]
}

/// The query of a request: what comes between its first and second `?`.
pub open spec fn request_query(uri: Seq<char>) -> Seq<char> {
    let p = split_char(uri, '?');
    if p.len() > 1 {
        p[1]
    } else {
        Seq::<char>::empty()
    }
}

/// The query's parameters, each split at `=`.
pub open spec fn query_params(q: Seq<char>) -> Seq<Seq<Seq<char>>> {
    split_char(q, '&').map_values(|x: Seq<char>| split_char(x, '='))
}

/// The first parameter from `i` on named `name`.
pub open spec fn find_param(ps: Seq<Seq<Seq<char>>>, name: Seq<char>, i: int) -> Option<int>
    decreases ps.len() - i,
{
    if i < 0 || i >= ps.len() {
        None
    } else if ps[i].len() > 0 && ps[i][0] == name {
        Some(i)
    } else {
        find_param(ps, name, i + 1)
    }
}

/// The first parameter named `name` is missing, or has a value that
/// parses as `i64`.
pub open spec fn param_ok(ps: Seq<Seq<Seq<char>>>, name: Seq<char>) -> bool {
    match find_param(ps, name, 0) {
        Some(i) => ps[i].len() >= 2 && parse_i64(ps[i][1]) is Some,
        None => true,
    }
}

/// The value of the first parameter named `name`, or 0 when there is none.
pub open spec fn param_or_zero(ps: Seq<Seq<Seq<char>>>, name: Seq<char>) -> i64 {
    match find_param(ps, name, 0) {
        Some(i) => parse_i64(ps[i][1]).unwrap(),
        None => 0,
    }
}

/// The path's segments.
pub open spec fn path_segments(uri: Seq<char>) -> Seq<Seq<char>> {
    split_char(request_path(uri), '/')
}

/// A request the server can read: with at least four path segments, its
/// `start` and `end` parameters (the first of each) must be numbers.
pub open spec fn hls_request_ok(uri: Seq<char>) -> bool {
    path_segments(uri).len() >= 4 ==> param_ok(query_params(request_query(uri)), "start"@) && param_ok(
        query_params(request_query(uri)),
        "end"@,
    )
}

#[derive(Debug)]
/// A request of the HLS server, read.
pub struct HlsRequest {
    pub platform: Platform,
    pub room_id: String,
    pub live_id: String,
    /// `start` and `end` in seconds, when either is not 0.
    pub range: Option<(i64, i64)>,
    /// The request is for the live's playlist.
    pub playlist: bool,
    /// The segment's path below the cache folder (`%7C` read as `|`).
    pub segment_path: String,
}

/// The message of a request with too few path segments.
pub open spec fn invalid_hls_path() -> Seq<char> {
    "Invalid hls path"@
}

/// The nested views of split parameters.
pub open spec fn param_views(v: Seq<Vec<Vec<char>>>) -> Seq<Seq<Seq<char>>> {
    v.map_values(|x: Vec<Vec<char>>| views(x@))
}

/// Exec `find_param` from 0.
fn find_param_exec(ps: &Vec<Vec<Vec<char>>>, name: &str) -> (r: Option<usize>)
    ensures
        match r {
            Some(i) => find_param(param_views(ps@), name@, 0) == Some(i as int) && i < ps.len(),
            None => find_param(param_views(ps@), name@, 0) is None,
        },
{
    let ghost pv = param_views(ps@);
    let nc = chars_of(name);
    let mut i: usize = 0;
    while i < ps.len()
        invariant
            i <= ps.len(),
            pv == param_views(ps@),
            pv.len() == ps.len(),
            nc@ == name@,
            find_param(pv, name@, 0) == find_param(pv, name@, i as int),
        decreases ps.len() - i,
    {
        assert(pv[i as int] == views(ps@[i as int]@));
        if ps[i].len() > 0 && eq_chars(ps[i][0].as_slice(), nc.as_slice()) {
            return Some(i);
        }
        i = i + 1;
    }
    None
}

/// Reads a request of the HLS server: an error when its path has fewer
/// than four segments or names no platform; else the platform, room and
/// live of the first three segments, the range of its `start` and `end`
/// parameters, whether the rest of the path is the playlist, and the
/// segment's path.
pub fn parse_hls_request(uri: &str) -> (r: Result<HlsRequest, RecorderManagerError>)
    requires
        hls_request_ok(uri@),
    ensures
        ({
            let segs = path_segments(uri@);
            let ps = query_params(request_query(uri@));
            if segs.len() < 4 {
                r matches Err(RecorderManagerError::HLSError { err }) && err@ == invalid_hls_path()
            } else {
                match platform_named(segs[0]) {
                    None => r matches Err(RecorderManagerError::InvalidPlatformType { platform }) && platform@ == segs[0],
                    Some(p) => r matches Ok(h) && {
                        let start = param_or_zero(ps, "start"@);
                        let end = param_or_zero(ps, "end"@);
                        let rest = join(segs.skip(3), "/"@);
                        &&& h.platform == p
                        &&& h.room_id@ == segs[1]
                        &&& h.live_id@ == segs[2]
                        &&& h.range == (if start != 0 || end != 0 {
                            Some((start, end))
                        } else {
                            None
                        })
                        &&& h.playlist == (rest == "playlist.m3u8"@ || ends_with(rest, "/playlist.m3u8"@))
                        &&& h.segment_path@ == replace_all(request_path(uri@), "%7C"@, "|"@)
                    },
                }
            }
        }),
{
    let uc = chars_of(uri);
    let parts = split_chars(uc.as_slice(), '?');
    proof {
        crate::cookie_map::lemma_split_nonempty(uc@, '?');
    }
    let path = &parts[0];
    let empty: Vec<char> = Vec::new();
    let query: &Vec<char> = if parts.len() > 1 {
        &parts[1]
    } else {
        &empty
    };
    assert(query@ == request_query(uri@)) by {
        if parts.len() <= 1 {
            assert(empty@ =~= Seq::<char>::empty());
        }
    }
    let segs = split_chars(path.as_slice(), '/');
    if segs.len() < 4 {
        return Err(RecorderManagerError::HLSError { err: to_string_of("Invalid hls path") });
    }
    let pieces = split_chars(query.as_slice(), '&');
    let mut ps: Vec<Vec<Vec<char>>> = Vec::new();
    let mut i: usize = 0;
    while i < pieces.len()
        invariant
            i <= pieces.len(),
            ps@.len() == i,
            forall|k: int| 0 <= k < i ==> param_views(ps@)[k] == split_char(views(pieces@)[k], '='),
        decreases pieces.len() - i,
    {
        let sp = split_chars(pieces[i].as_slice(), '=');
        let ghost before = ps@;
        let ghost spv = views(sp@);
        assert(spv == split_char(views(pieces@)[i as int], '='));
        ps.push(sp);
        proof {
            assert(param_views(ps@) =~= param_views(before).push(spv));
        }
        i = i + 1;
    }
    assert(param_views(ps@) =~= query_params(request_query(uri@)));
    let start: i64 = match find_param_exec(&ps, "start") {
        Some(k) => {
            assert(param_views(ps@)[k as int] == views(ps@[k as int]@));
            let v = string_of(ps[k][1].as_slice());
            match parse_i64_exec(v.as_str()) {
                Some(n) => n,
                None => 0,
            }
        },
        None => 0,
    };
    let end: i64 = match find_param_exec(&ps, "end") {
        Some(k) => {
            assert(param_views(ps@)[k as int] == views(ps@[k as int]@));
            let v = string_of(ps[k][1].as_slice());
            match parse_i64_exec(v.as_str()) {
                Some(n) => n,
                None => 0,
            }
        },
        None => 0,
    };
    let platform_text = string_of(segs[0].as_slice());
    let platform = match Platform::from_str(platform_text.as_str()) {
        Some(p) => p,
        None => {
            return Err(RecorderManagerError::InvalidPlatformType { platform: platform_text });
        },
    };
    let range = if start != 0 || end != 0 {
        Some((start, end))
    } else {
        None
    };
    let mut rest_parts: Vec<Vec<char>> = Vec::new();
    let mut j: usize = 3;
    while j < segs.len()
        invariant
            3 <= j <= segs.len(),
            views(rest_parts@) == views(segs@).subrange(3, j as int),
        decreases segs.len() - j,
    {
        let piece = crate::text::slice_chars(segs[j].as_slice(), 0, segs[j].len());
        assert(piece@ =~= segs@[j as int]@);
        let ghost before = views(rest_parts@);
        rest_parts.push(piece);
        assert(views(rest_parts@) =~= before.push(segs@[j as int]@));
        assert(views(segs@)[j as int] == segs@[j as int]@);
        assert(views(rest_parts@) =~= views(segs@).subrange(3, j as int + 1));
        j = j + 1;
    }
    assert(views(segs@).subrange(3, segs.len() as int) =~= views(segs@).skip(3));
    let rest = join_chars(&rest_parts, chars_of("/").as_slice());
    let playlist = eq_chars(rest.as_slice(), chars_of("playlist.m3u8").as_slice())
        || crate::cookie_json::ends_with_chars(&rest, "/playlist.m3u8");
    proof {
        reveal_strlit("%7C");
    }
    let seg = replace_chars(path.as_slice(), chars_of("%7C").as_slice(), chars_of("|").as_slice());
    Ok(HlsRequest {
        platform,
        room_id: string_of(segs[1].as_slice()),
        live_id: string_of(segs[2].as_slice()),
        range,
        playlist,
        segment_path: string_of(seg.as_slice()),
    })
}

/// Whether the HLS server can read a request (`hls_request_ok`); the server
/// stops on one it cannot.
pub fn hls_request_readable(uri: &str) -> (b: bool)
    ensures
        b == hls_request_ok(uri@),
{
    let uc = chars_of(uri);
    let parts = split_chars(uc.as_slice(), '?');
    proof {
        crate::cookie_map::lemma_split_nonempty(uc@, '?');
    }
    let segs = split_chars(parts[0].as_slice(), '/');
    if segs.len() < 4 {
        return true;
    }
    let empty: Vec<char> = Vec::new();
    let query: &Vec<char> = if parts.len() > 1 {
        &parts[1]
    } else {
        &empty
    };
    assert(query@ == request_query(uri@)) by {
        if parts.len() <= 1 {
            assert(empty@ =~= Seq::<char>::empty());
        }
    }
    let pieces = split_chars(query.as_slice(), '&');
    let mut ps: Vec<Vec<Vec<char>>> = Vec::new();
    let mut i: usize = 0;
    while i < pieces.len()
        invariant
            i <= pieces.len(),
            ps@.len() == i,
            forall|k: int| 0 <= k < i ==> param_views(ps@)[k] == split_char(views(pieces@)[k], '='),
        decreases pieces.len() - i,
    {
        let sp = split_chars(pieces[i].as_slice(), '=');
        let ghost before = ps@;
        let ghost spv = views(sp@);
        assert(spv == split_char(views(pieces@)[i as int], '='));
        ps.push(sp);
        proof {
            assert(param_views(ps@) =~= param_views(before).push(spv));
        }
        i = i + 1;
    }
    assert(param_views(ps@) =~= query_params(request_query(uri@)));
    param_ok_exec(&ps, "start") && param_ok_exec(&ps, "end")
}

/// Exec `param_ok`.
fn param_ok_exec(ps: &Vec<Vec<Vec<char>>>, name: &str) -> (b: bool)
    ensures
        b == param_ok(param_views(ps@), name@),
{
    match find_param_exec(ps, name) {
        Some(k) => {
            assert(param_views(ps@)[k as int] == views(ps@[k as int]@));
            if ps[k].len() >= 2 {
                let v = string_of(ps[k][1].as_slice());
                parse_i64_exec(v.as_str()).is_some()
            } else {
                false
            }
        },
        None => true,
    }
}

} // verus!
