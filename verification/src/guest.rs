//! Guest accounts: which freshly collected guest cookies count as changes,
//! how a refresh attempt ends, how the stored guest entries are updated,
//! and which stored rows the configured guest entries keep.
use vstd::prelude::*;
use crate::accounts::AccountRow;
use crate::config::{
    accts_view, acct_view, compare_form, lemma_compare_form_of, same_compare_form,
    DefaultAccountConfig,
};
use crate::cookies::normalize_cookie_string_for_compare;
use crate::passport::pairs_view;
use crate::text::{chars_of, same_str, starts_with, starts_with_chars, string_of, to_string_of, trim, trim_chars};

verus! {

/// The cookies of the first entry of `platform`.
pub open spec fn old_cookies_of(old: Seq<(Seq<char>, Seq<char>, Seq<char>)>, platform: Seq<char>) -> Option<
    Seq<char>,
>
    decreases old.len(),
{
    if old.len() == 0 {
        None
    } else if old[0].0 == platform {
        Some(old[0].1)
    } else {
        old_cookies_of(old.drop_first(), platform)
    }
}

/// Fresh cookies for `platform` are a change: the platform had no entry,
/// or its first entry's cookies have another comparison form.
pub open spec fn update_changes(
    old: Seq<(Seq<char>, Seq<char>, Seq<char>)>,
    platform: Seq<char>,
    cookies: Seq<char>,
) -> bool {
    match old_cookies_of(old, platform) {
        Some(oc) => !same_compare_form(oc, cookies),
        None => true,
    }
}

/// The updates that are changes, in order.
pub open spec fn changed_updates(
    old: Seq<(Seq<char>, Seq<char>, Seq<char>)>,
    ups: Seq<(Seq<char>, Seq<char>)>,
) -> Seq<(Seq<char>, Seq<char>)>
    decreases ups.len(),
{
    if ups.len() == 0 {
        ups
    } else {
        let p = changed_updates(old, ups.drop_last());
        if update_changes(old, ups.last().0, ups.last().1) {
            p.push(ups.last())
        } else {
            p
        }
    }
}

/// Exec `old_cookies_of`.
fn old_cookies_of_exec<'a>(old: &'a Vec<DefaultAccountConfig>, platform: &str) -> (r: Option<&'a String>)
    ensures
        match r {
            Some(c) => old_cookies_of(accts_view(old@), platform@) == Some(c@),
            None => old_cookies_of(accts_view(old@), platform@) is None,
        },
{
    let ghost ov = accts_view(old@);
    let mut i: usize = 0;
    assert(ov.skip(0) =~= ov);
    while i < old.len()
        invariant
            i <= old.len(),
            ov == accts_view(old@),
            old_cookies_of(ov, platform@) == old_cookies_of(ov.skip(i as int), platform@),
        decreases old.len() - i,
    {
        assert(ov.skip(i as int).drop_first() =~= ov.skip(i as int + 1));
        assert(ov.skip(i as int)[0] == acct_view(old@[i as int]));
        if same_str(old[i].platform.as_str(), platform) {
            return Some(&old[i].cookies);
        }
        i = i + 1;
    }
    None
}

/// Exec `changed_updates`.
pub fn changed_guest_updates(old: &Vec<DefaultAccountConfig>, updates: &Vec<(String, String)>) -> (r: Vec<
    (String, String),
>)
    ensures
        pairs_view(r@) == changed_updates(accts_view(old@), pairs_view(updates@)),
{
    let ghost ov = accts_view(old@);
    let ghost uv = pairs_view(updates@);
    let mut r: Vec<(String, String)> = Vec::new();
    let mut i: usize = 0;
    assert(uv.take(0) =~= Seq::<(Seq<char>, Seq<char>)>::empty());
    while i < updates.len()
        invariant
            i <= updates.len(),
            ov == accts_view(old@),
            uv == pairs_view(updates@),
            pairs_view(r@) == changed_updates(ov, uv.take(i as int)),
        decreases updates.len() - i,
    {
        assert(uv.take(i as int + 1).drop_last() =~= uv.take(i as int));
        assert(uv[i as int] == (updates@[i as int].0@, updates@[i as int].1@));
        let changed = match old_cookies_of_exec(old, updates[i].0.as_str()) {
            Some(oc) => {
                let a = normalize_cookie_string_for_compare(oc.as_str());
                let b = normalize_cookie_string_for_compare(updates[i].1.as_str());
                proof {
                    lemma_compare_form_of(oc@, a@);
                    lemma_compare_form_of(updates@[i as int].1@, b@);
                }
                !(a == b)
            },
            None => true,
        };
        if changed {
            let ghost before = pairs_view(r@);
            let p = (updates[i].0.clone(), updates[i].1.clone());
            r.push(p);
            assert(pairs_view(r@) =~= before.push(uv[i as int]));
        }
        i = i + 1;
    }
    assert(uv.take(updates.len() as int) =~= uv);
    r
}

#[derive(Debug)]
/// How one attempt of a guest refresh ends.
pub enum GuestRefreshStep {
    Retry,
    Fail { message: String },
    Apply { updates: Vec<(String, String)>, changed: Vec<String> },
}

/// The message when no guest cookies could be collected.
pub open spec fn no_guest_cookies_message() -> Seq<char> {
    "未获取到访客 Cookie，请稍后重试"@
}

/// The message when the collected guest cookies are unchanged.
pub open spec fn unchanged_guest_cookies_message() -> Seq<char> {
    "访客 Cookie 未变化，请稍后再试"@
}

/// The platforms of a list of updates.
pub open spec fn update_platforms(ups: Seq<(Seq<char>, Seq<char>)>) -> Seq<Seq<char>> {
    ups.map_values(|u: (Seq<char>, Seq<char>)| u.0)
}

/// How attempt `attempt` of `max_attempts` ends, given the entries before
/// the refresh and the cookies collected: nothing collected means another
/// attempt, or failure after the last; collected cookies that change
/// nothing mean applying them all anyway when forced (no platform counted
/// as changed), else another attempt, or failure after the last; otherwise
/// the changes are applied.
pub fn guest_refresh_step(
    old: &Vec<DefaultAccountConfig>,
    updates: &Vec<(String, String)>,
    force: bool,
    attempt: u8,
    max_attempts: u8,
) -> (r: GuestRefreshStep)
    ensures
        updates@.len() == 0 ==> (if attempt < max_attempts {
            r is Retry
        } else {
            r matches GuestRefreshStep::Fail { message } && message@ == no_guest_cookies_message()
        }),
        updates@.len() > 0 && changed_updates(accts_view(old@), pairs_view(updates@)).len() == 0 ==> (
        if force {
            r matches GuestRefreshStep::Apply { updates: u, changed: c } && pairs_view(u@)
                == pairs_view(updates@) && c@.len() == 0
        } else if attempt < max_attempts {
            r is Retry
        } else {
            r matches GuestRefreshStep::Fail { message } && message@
                == unchanged_guest_cookies_message()
        }),
        updates@.len() > 0 && changed_updates(accts_view(old@), pairs_view(updates@)).len() > 0 ==> (
        r matches GuestRefreshStep::Apply { updates: u, changed: c } && pairs_view(u@)
            == changed_updates(accts_view(old@), pairs_view(updates@)) && c@.map_values(
            |s: String| s@,
        ) == update_platforms(changed_updates(accts_view(old@), pairs_view(updates@)))),
{
    if updates.len() == 0 {
        if attempt < max_attempts {
            return GuestRefreshStep::Retry;
        }
        return GuestRefreshStep::Fail { message: to_string_of("未获取到访客 Cookie，请稍后重试") };
    }
    let changed = changed_guest_updates(old, updates);
    if changed.len() == 0 {
        if force {
            let mut all: Vec<(String, String)> = Vec::new();
            let mut i: usize = 0;
            while i < updates.len()
                invariant
                    i <= updates.len(),
                    pairs_view(all@) == pairs_view(updates@).take(i as int),
                decreases updates.len() - i,
            {
                let ghost before = pairs_view(all@);
                all.push((updates[i].0.clone(), updates[i].1.clone()));
                assert(pairs_view(all@) =~= before.push(pairs_view(updates@)[i as int]));
                i = i + 1;
                assert(pairs_view(all@) =~= pairs_view(updates@).take(i as int));
            }
            assert(pairs_view(updates@).take(updates.len() as int) =~= pairs_view(updates@));
            return GuestRefreshStep::Apply { updates: all, changed: Vec::new() };
        }
        if attempt < max_attempts {
            return GuestRefreshStep::Retry;
        }
        return GuestRefreshStep::Fail { message: to_string_of("访客 Cookie 未变化，请稍后再试") };
    }
    let mut platforms: Vec<String> = Vec::new();
    let mut i: usize = 0;
    while i < changed.len()
        invariant
            i <= changed.len(),
            platforms@.map_values(|s: String| s@) == update_platforms(pairs_view(changed@)).take(i as int),
        decreases changed.len() - i,
    {
        let ghost before = platforms@.map_values(|s: String| s@);
        platforms.push(changed[i].0.clone());
        assert(platforms@.map_values(|s: String| s@) =~= before.push(changed@[i as int].0@));
        i = i + 1;
        assert(platforms@.map_values(|s: String| s@) =~= update_platforms(pairs_view(changed@)).take(i as int));
    }
    assert(update_platforms(pairs_view(changed@)).take(changed.len() as int) =~= update_platforms(
        pairs_view(changed@),
    ));
    GuestRefreshStep::Apply { updates: changed, changed: platforms }
}

/// The guest entries after applying updates in order: each update drops
/// the entries of its platform and adds one with its cookies and no extra
/// data.
pub open spec fn applied_updates(
    entries: Seq<(Seq<char>, Seq<char>, Seq<char>)>,
    ups: Seq<(Seq<char>, Seq<char>)>,
) -> Seq<(Seq<char>, Seq<char>, Seq<char>)>
    decreases ups.len(),
{
    if ups.len() == 0 {
        entries
    } else {
        let prev = applied_updates(entries, ups.drop_last());
        prev.filter(|e: (Seq<char>, Seq<char>, Seq<char>)| e.0 != ups.last().0).push(
            (ups.last().0, ups.last().1, Seq::<char>::empty()),
        )
    }
}

/// The entries of other platforms than `platform`, in order.
fn drop_platform(v: Vec<DefaultAccountConfig>, platform: &str) -> (r: Vec<DefaultAccountConfig>)
    ensures
        accts_view(r@) == accts_view(v@).filter(
            |e: (Seq<char>, Seq<char>, Seq<char>)| e.0 != platform@,
        ),
{
    let ghost vv = accts_view(v@);
    let ghost f = |e: (Seq<char>, Seq<char>, Seq<char>)| e.0 != platform@;
    let mut rest = v;
    let mut stack: Vec<DefaultAccountConfig> = Vec::new();
    // Reverse into `stack`, then keep while popping back in order.
    while rest.len() > 0
        invariant
            accts_view(rest@) + accts_view(stack@).reverse() == vv,
        decreases rest.len(),
    {
        let ghost bs = accts_view(stack@);
        let ghost br = accts_view(rest@);
        let e = rest.pop().unwrap();
        stack.push(e);
        proof {
            assert(accts_view(stack@) =~= bs.push(acct_view(e)));
            assert(accts_view(rest@) =~= br.drop_last());
            assert(br =~= br.drop_last().push(acct_view(e)));
            assert(bs.push(acct_view(e)).reverse() =~= seq![acct_view(e)] + bs.reverse());
            assert(accts_view(rest@) + accts_view(stack@).reverse() =~= br + bs.reverse());
        }
    }
    assert(accts_view(rest@) =~= Seq::<(Seq<char>, Seq<char>, Seq<char>)>::empty());
    assert(accts_view(stack@).reverse() =~= vv);
    let mut out: Vec<DefaultAccountConfig> = Vec::new();
    assert(vv.take(0) =~= Seq::<(Seq<char>, Seq<char>, Seq<char>)>::empty());
    assert(vv.take(0).filter(f) =~= Seq::<(Seq<char>, Seq<char>, Seq<char>)>::empty());
    while stack.len() > 0
        invariant
            stack@.len() <= vv.len(),
            accts_view(stack@) == vv.reverse().take(stack@.len() as int),
            accts_view(out@) == vv.take(vv.len() - stack@.len()).filter(f),
            f == (|e: (Seq<char>, Seq<char>, Seq<char>)| e.0 != platform@),
        decreases stack.len(),
    {
        let ghost j = vv.len() - stack@.len();
        let ghost bs = accts_view(stack@);
        let e = stack.pop().unwrap();
        proof {
            assert(bs.last() == acct_view(e));
            assert(vv.reverse()[stack@.len() as int] == vv[j]);
            assert(accts_view(stack@) =~= vv.reverse().take(stack@.len() as int));
            assert(vv.take(j + 1).drop_last() =~= vv.take(j));
            assert(vv.take(j + 1).last() == acct_view(e));
        }
        if !same_str(e.platform.as_str(), platform) {
            let ghost before = accts_view(out@);
            out.push(e);
            assert(accts_view(out@) =~= before.push(acct_view(e)));
        }
        proof {
            assert(vv.take(j + 1).filter(f) == (if f(acct_view(e)) {
                vv.take(j).filter(f).push(acct_view(e))
            } else {
                vv.take(j).filter(f)
            })) by {
                vv.take(j).lemma_filter_push(acct_view(e), f);
                assert(vv.take(j).push(acct_view(e)) =~= vv.take(j + 1));
            }
        }
    }
    assert(vv.take(vv.len() as int) =~= vv);
    out
}

/// Exec `applied_updates`.
pub fn apply_guest_updates(entries: Vec<DefaultAccountConfig>, updates: &Vec<(String, String)>) -> (r: Vec<
    DefaultAccountConfig,
>)
    ensures
        accts_view(r@) == applied_updates(accts_view(entries@), pairs_view(updates@)),
{
    let ghost ev = accts_view(entries@);
    let ghost uv = pairs_view(updates@);
    let mut next = entries;
    let mut i: usize = 0;
    assert(uv.take(0) =~= Seq::<(Seq<char>, Seq<char>)>::empty());
    while i < updates.len()
        invariant
            i <= updates.len(),
            uv == pairs_view(updates@),
            accts_view(next@) == applied_updates(ev, uv.take(i as int)),
        decreases updates.len() - i,
    {
        assert(uv.take(i as int + 1).drop_last() =~= uv.take(i as int));
        assert(uv[i as int] == (updates@[i as int].0@, updates@[i as int].1@));
        let mut kept = drop_platform(next, updates[i].0.as_str());
        let ghost before = accts_view(kept@);
        let e = DefaultAccountConfig {
            platform: updates[i].0.clone(),
            cookies: updates[i].1.clone(),
            extra: String::new(),
        };
        kept.push(e);
        assert(accts_view(kept@) =~= before.push(acct_view(e)));
        next = kept;
        i = i + 1;
    }
    assert(uv.take(updates.len() as int) =~= uv);
    next
}

/// An old entry is still present among the updated entries: one of the
/// same platform has the same trimmed cookies.
pub open spec fn still_present(updated: Seq<(Seq<char>, Seq<char>, Seq<char>)>, e: (Seq<char>, Seq<char>, Seq<char>)) -> bool {
    exists|j: int| 0 <= j < updated.len() && updated[j].0 == e.0 && trim(updated[j].1) == trim(e.1)
}

/// The old entries no longer present, as platform and cookies, in order:
/// their stored account rows are to be removed.
pub open spec fn stale_entries(
    old: Seq<(Seq<char>, Seq<char>, Seq<char>)>,
    updated: Seq<(Seq<char>, Seq<char>, Seq<char>)>,
) -> Seq<(Seq<char>, Seq<char>)>
    decreases old.len(),
{
    if old.len() == 0 {
        Seq::<(Seq<char>, Seq<char>)>::empty()
    } else {
        let p = stale_entries(old.drop_last(), updated);
        if still_present(updated, old.last()) {
            p
        } else {
            p.push((old.last().0, old.last().1))
        }
    }
}

/// Exec `still_present`.
fn still_present_exec(updated: &Vec<DefaultAccountConfig>, e: &DefaultAccountConfig) -> (b: bool)
    ensures
        b == still_present(accts_view(updated@), acct_view(*e)),
{
    let ghost uv = accts_view(updated@);
    let ec = chars_of(e.cookies.as_str());
    let et = trim_chars(ec.as_slice());
    let mut j: usize = 0;
    while j < updated.len()
        invariant
            j <= updated.len(),
            uv == accts_view(updated@),
            et@ == trim(e.cookies@),
            forall|k: int| 0 <= k < j ==> !(uv[k].0 == e.platform@ && trim(uv[k].1) == trim(e.cookies@)),
        decreases updated.len() - j,
    {
        assert(uv[j as int] == acct_view(updated@[j as int]));
        let uc = chars_of(updated[j].cookies.as_str());
        let ut = trim_chars(uc.as_slice());
        if same_str(updated[j].platform.as_str(), e.platform.as_str()) && crate::text::eq_chars(
            ut.as_slice(),
            et.as_slice(),
        ) {
            return true;
        }
        j = j + 1;
    }
    false
}

/// Exec `stale_entries`.
pub fn stale_guest_entries(old: &Vec<DefaultAccountConfig>, updated: &Vec<DefaultAccountConfig>) -> (r: Vec<
    (String, String),
>)
    ensures
        pairs_view(r@) == stale_entries(accts_view(old@), accts_view(updated@)),
{
    let ghost ov = accts_view(old@);
    let mut r: Vec<(String, String)> = Vec::new();
    let mut i: usize = 0;
    assert(ov.take(0) =~= Seq::<(Seq<char>, Seq<char>, Seq<char>)>::empty());
    while i < old.len()
        invariant
            i <= old.len(),
            ov == accts_view(old@),
            pairs_view(r@) == stale_entries(ov.take(i as int), accts_view(updated@)),
        decreases old.len() - i,
    {
        assert(ov.take(i as int + 1).drop_last() =~= ov.take(i as int));
        assert(ov[i as int] == acct_view(old@[i as int]));
        if !still_present_exec(updated, &old[i]) {
            let ghost before = pairs_view(r@);
            r.push((old[i].platform.clone(), old[i].cookies.clone()));
            assert(pairs_view(r@) =~= before.push((ov[i as int].0, ov[i as int].1)));
        }
        i = i + 1;
    }
    assert(ov.take(old.len() as int) =~= ov);
    r
}

} // verus!

verus! {

// ---------------------------------------------------------------------------
// Stored guest rows
// ---------------------------------------------------------------------------

/// A stored row as platform, uid, cookies, name, avatar, extra data and
/// creation time.
pub open spec fn row_fields(r: AccountRow) -> (Seq<char>, Seq<char>, Seq<char>, Seq<char>, Seq<char>, Seq<char>, Seq<char>) {
    (r.platform@, r.uid@, r.cookies@, r.name@, r.avatar@, r.extra@, r.created_at@)
}

/// The views of stored rows.
pub open spec fn rows_fields(v: Seq<AccountRow>) -> Seq<(Seq<char>, Seq<char>, Seq<char>, Seq<char>, Seq<char>, Seq<char>, Seq<char>)> {
    v.map_values(|r: AccountRow| row_fields(r))
}

/// A uid that marks a row as a guest's: it starts with `guest:` or
/// `cookie_`.
pub open spec fn guest_marked(uid: Seq<char>) -> bool {
    starts_with(uid, "guest:"@) || starts_with(uid, "cookie_"@)
}

/// Exec `guest_marked`.
fn guest_marked_exec(uid: &str) -> (b: bool)
    ensures
        b == guest_marked(uid@),
{
    let c = chars_of(uid);
    starts_with_chars(c.as_slice(), chars_of("guest:").as_slice()) || starts_with_chars(
        c.as_slice(),
        chars_of("cookie_").as_slice(),
    )
}

/// A configured guest entry has `platform` and, trimmed, `cookies`.
pub open spec fn configured(entries: Seq<(Seq<char>, Seq<char>, Seq<char>)>, platform: Seq<char>, cookies: Seq<char>) -> bool {
    exists|j: int| 0 <= j < entries.len() && entries[j].0 == platform && trim(entries[j].1) == cookies
}

/// The guest rows to remove, as platform and uid, scanning the rows in
/// order with the (platform, trimmed cookies) keys already kept: a guest
/// row that no configured entry has, and any later guest row with a key
/// already kept.
pub open spec fn stale_rows(
    rows: Seq<(Seq<char>, Seq<char>, Seq<char>, Seq<char>, Seq<char>, Seq<char>, Seq<char>)>,
    entries: Seq<(Seq<char>, Seq<char>, Seq<char>)>,
    seen: Seq<(Seq<char>, Seq<char>)>,
) -> Seq<(Seq<char>, Seq<char>)>
    decreases rows.len(),
{
    if rows.len() == 0 {
        Seq::<(Seq<char>, Seq<char>)>::empty()
    } else {
        let r = rows[0];
        let rest = rows.drop_first();
        let key = (r.0, trim(r.2));
        if !guest_marked(r.1) {
            stale_rows(rest, entries, seen)
        } else if !configured(entries, r.0, trim(r.2)) || seen.contains(key) {
            seq![(r.0, r.1)] + stale_rows(rest, entries, seen)
        } else {
            stale_rows(rest, entries, seen.push(key))
        }
    }
}

/// Exec `configured`.
fn configured_exec(entries: &Vec<DefaultAccountConfig>, platform: &str, cookies: &Vec<char>) -> (b: bool)
    ensures
        b == configured(accts_view(entries@), platform@, cookies@),
{
    let ghost ev = accts_view(entries@);
    let mut j: usize = 0;
    while j < entries.len()
        invariant
            j <= entries.len(),
            ev == accts_view(entries@),
            forall|k: int| 0 <= k < j ==> !(ev[k].0 == platform@ && trim(ev[k].1) == cookies@),
        decreases entries.len() - j,
    {
        assert(ev[j as int] == acct_view(entries@[j as int]));
        let ec = chars_of(entries[j].cookies.as_str());
        let et = trim_chars(ec.as_slice());
        if same_str(entries[j].platform.as_str(), platform) && crate::text::eq_chars(
            et.as_slice(),
            cookies.as_slice(),
        ) {
            return true;
        }
        j = j + 1;
    }
    false
}

/// The views of a list of character-vector pairs.
pub open spec fn char_pairs(v: Seq<(Vec<char>, Vec<char>)>) -> Seq<(Seq<char>, Seq<char>)> {
    v.map_values(|p: (Vec<char>, Vec<char>)| (p.0@, p.1@))
}

/// Whether a key is among the keys kept so far.
fn seen_contains(seen: &Vec<(Vec<char>, Vec<char>)>, p: &Vec<char>, c: &Vec<char>) -> (b: bool)
    ensures
        b == char_pairs(seen@).contains((p@, c@)),
{
    let ghost sv = char_pairs(seen@);
    let mut j: usize = 0;
    while j < seen.len()
        invariant
            j <= seen.len(),
            sv == char_pairs(seen@),
            forall|k: int| 0 <= k < j ==> sv[k] != (p@, c@),
        decreases seen.len() - j,
    {
        assert(sv[j as int] == (seen@[j as int].0@, seen@[j as int].1@));
        if crate::text::eq_chars(seen[j].0.as_slice(), p.as_slice()) && crate::text::eq_chars(
            seen[j].1.as_slice(),
            c.as_slice(),
        ) {
            return true;
        }
        j = j + 1;
    }
    false
}

/// Exec `stale_rows` from no kept key.
pub fn stale_guest_rows(rows: &Vec<AccountRow>, entries: &Vec<DefaultAccountConfig>) -> (r: Vec<(String, String)>)
    ensures
        pairs_view(r@) == stale_rows(rows_fields(rows@), accts_view(entries@), Seq::empty()),
{
    let ghost rv = rows_fields(rows@);
    let ghost ev = accts_view(entries@);
    let mut seen: Vec<(Vec<char>, Vec<char>)> = Vec::new();
    let mut out: Vec<(String, String)> = Vec::new();
    let mut i: usize = 0;
    assert(rv.skip(0) =~= rv);
    assert(char_pairs(seen@) =~= Seq::<(Seq<char>, Seq<char>)>::empty());
    assert(pairs_view(out@) =~= Seq::<(Seq<char>, Seq<char>)>::empty());
    while i < rows.len()
        invariant
            i <= rows.len(),
            rv == rows_fields(rows@),
            ev == accts_view(entries@),
            stale_rows(rv, ev, Seq::empty()) == pairs_view(out@) + stale_rows(
                rv.skip(i as int),
                ev,
                char_pairs(seen@),
            ),
        decreases rows.len() - i,
    {
        assert(rv.skip(i as int).drop_first() =~= rv.skip(i as int + 1));
        assert(rv.skip(i as int)[0] == row_fields(rows@[i as int]));
        let r = &rows[i];
        if guest_marked_exec(r.uid.as_str()) {
            let pc = chars_of(r.platform.as_str());
            let cc = chars_of(r.cookies.as_str());
            let ct = trim_chars(cc.as_slice());
            let known = configured_exec(entries, r.platform.as_str(), &ct);
            let dup = seen_contains(&seen, &pc, &ct);
            if !known || dup {
                let ghost before = pairs_view(out@);
                out.push((r.platform.clone(), r.uid.clone()));
                proof {
                    assert(pairs_view(out@) =~= before.push((r.platform@, r.uid@)));
                    assert(before.push((r.platform@, r.uid@)) + stale_rows(
                        rv.skip(i as int + 1),
                        ev,
                        char_pairs(seen@),
                    ) =~= before + (seq![(r.platform@, r.uid@)] + stale_rows(
                        rv.skip(i as int + 1),
                        ev,
                        char_pairs(seen@),
                    )));
                }
            } else {
                let ghost before = char_pairs(seen@);
                let ghost key = (pc@, ct@);
                seen.push((pc, ct));
                assert(char_pairs(seen@) =~= before.push(key));
            }
        }
        i = i + 1;
    }
    assert(rv.skip(rows.len() as int) =~= Seq::<(Seq<char>, Seq<char>, Seq<char>, Seq<char>, Seq<char>, Seq<char>, Seq<char>)>::empty());
    assert(pairs_view(out@) + Seq::<(Seq<char>, Seq<char>)>::empty() =~= pairs_view(out@));
    out
}

} // verus!

verus! {

/// A guest's row as kept for the configuration: platform, trimmed cookies,
/// extra data, creation time.
pub type GuestPick = (Seq<char>, Seq<char>, Seq<char>, Seq<char>);

/// The index of the pick of `platform`, if any.
pub open spec fn pick_index(picks: Seq<GuestPick>, platform: Seq<char>) -> Option<int>
    decreases picks.len(),
{
    if picks.len() == 0 {
        None
    } else if picks.last().0 == platform {
        Some(picks.len() - 1)
    } else {
        pick_index(picks.drop_last(), platform)
    }
}

/// The latest guest row of each platform, by scanning the rows in order: a
/// guest-marked row with non-blank cookies becomes its platform's pick when
/// the platform has none yet or when it was created strictly later.
pub open spec fn guest_picks(
    rows: Seq<(Seq<char>, Seq<char>, Seq<char>, Seq<char>, Seq<char>, Seq<char>, Seq<char>)>,
) -> Seq<GuestPick>
    decreases rows.len(),
{
    if rows.len() == 0 {
        Seq::<GuestPick>::empty()
    } else {
        let prev = guest_picks(rows.drop_last());
        let r = rows.last();
        if !guest_marked(r.1) || trim(r.2).len() == 0 {
            prev
        } else {
            let pick = (r.0, trim(r.2), r.5, r.6);
            match pick_index(prev, r.0) {
                None => prev.push(pick),
                Some(k) => if crate::text::seq_lt(prev[k].3, r.6) {
                    prev.update(k, pick)
                } else {
                    prev
                },
            }
        }
    }
}

/// `x` inserted into picks sorted by platform, after every pick whose
/// platform it does not precede.
pub open spec fn insert_by_platform(sorted: Seq<GuestPick>, x: GuestPick) -> Seq<GuestPick>
    decreases sorted.len(),
{
    if sorted.len() == 0 {
        seq![x]
    } else if crate::text::seq_lt(x.0, sorted.last().0) {
        insert_by_platform(sorted.drop_last(), x).push(sorted.last())
    } else {
        sorted.push(x)
    }
}

/// Picks in the order of a stable sort by platform.
pub open spec fn sorted_by_platform(s: Seq<GuestPick>) -> Seq<GuestPick>
    decreases s.len(),
{
    if s.len() == 0 {
        s
    } else {
        insert_by_platform(sorted_by_platform(s.drop_last()), s.last())
    }
}

/// The guest entries recovered from stored rows: the latest guest row of
/// each platform, sorted by platform.
pub open spec fn recovered_guests(
    rows: Seq<(Seq<char>, Seq<char>, Seq<char>, Seq<char>, Seq<char>, Seq<char>, Seq<char>)>,
) -> Seq<(Seq<char>, Seq<char>, Seq<char>)> {
    sorted_by_platform(guest_picks(rows)).map_values(|p: GuestPick| (p.0, p.1, p.2))
}

#[derive(Debug)]
/// A pick under construction.
pub struct PickEntry {
    pub platform: String,
    pub cookies: String,
    pub extra: String,
    pub created_at: String,
}

/// The view of a pick.
pub open spec fn pick_view(p: PickEntry) -> GuestPick {
    (p.platform@, p.cookies@, p.extra@, p.created_at@)
}

/// The views of picks.
pub open spec fn picks_view(v: Seq<PickEntry>) -> Seq<GuestPick> {
    v.map_values(|p: PickEntry| pick_view(p))
}

/// Exec `pick_index`.
fn find_pick(picks: &Vec<PickEntry>, platform: &str) -> (r: Option<usize>)
    ensures
        match r {
            Some(k) => k < picks@.len() && pick_index(picks_view(picks@), platform@) == Some(k as int),
            None => pick_index(picks_view(picks@), platform@) is None,
        },
{
    let ghost pv = picks_view(picks@);
    let mut k: usize = picks.len();
    assert(pv.take(k as int) =~= pv);
    while k > 0
        invariant
            k <= picks.len(),
            pv == picks_view(picks@),
            pick_index(pv, platform@) == pick_index(pv.take(k as int), platform@),
        decreases k,
    {
        assert(pv.take(k as int).drop_last() =~= pv.take(k as int - 1));
        assert(pv.take(k as int).last() == pick_view(picks@[k - 1]));
        if same_str(picks[k - 1].platform.as_str(), platform) {
            return Some(k - 1);
        }
        k = k - 1;
    }
    None
}

/// One step of the backward scan for `x`'s place among sorted picks.
proof fn lemma_insert_by_platform_step(s: Seq<GuestPick>, k: int, x: GuestPick)
    requires
        0 < k <= s.len(),
        crate::text::seq_lt(x.0, s[k - 1].0),
    ensures
        insert_by_platform(s.take(k), x) + s.skip(k) == insert_by_platform(s.take(k - 1), x) + s.skip(k - 1),
{
    assert(s.take(k).drop_last() =~= s.take(k - 1));
    assert(s.take(k).last() == s[k - 1]);
    assert(insert_by_platform(s.take(k - 1), x).push(s[k - 1]) + s.skip(k) =~= insert_by_platform(
        s.take(k - 1),
        x,
    ) + s.skip(k - 1));
}

/// The guest entries recovered from stored rows (`recovered_guests`).
pub fn load_guest_accounts_from_rows(rows: &Vec<AccountRow>) -> (r: Vec<DefaultAccountConfig>)
    ensures
        accts_view(r@) == recovered_guests(rows_fields(rows@)),
{
    let ghost rv = rows_fields(rows@);
    let mut picks: Vec<PickEntry> = Vec::new();
    let mut i: usize = 0;
    assert(rv.take(0) =~= Seq::<(Seq<char>, Seq<char>, Seq<char>, Seq<char>, Seq<char>, Seq<char>, Seq<char>)>::empty());
    while i < rows.len()
        invariant
            i <= rows.len(),
            rv == rows_fields(rows@),
            picks_view(picks@) == guest_picks(rv.take(i as int)),
        decreases rows.len() - i,
    {
        assert(rv.take(i as int + 1).drop_last() =~= rv.take(i as int));
        assert(rv.take(i as int + 1).last() == row_fields(rows@[i as int]));
        let r = &rows[i];
        let cc = chars_of(r.cookies.as_str());
        let ct = trim_chars(cc.as_slice());
        if guest_marked_exec(r.uid.as_str()) && ct.len() > 0 {
            let pick = PickEntry {
                platform: r.platform.clone(),
                cookies: string_of(ct.as_slice()),
                extra: r.extra.clone(),
                created_at: r.created_at.clone(),
            };
            let ghost before = picks_view(picks@);
            match find_pick(&picks, r.platform.as_str()) {
                None => {
                    picks.push(pick);
                    assert(picks_view(picks@) =~= before.push(pick_view(pick)));
                },
                Some(k) => {
                    let a = chars_of(picks[k].created_at.as_str());
                    let b = chars_of(r.created_at.as_str());
                    if crate::text::lt_chars(a.as_slice(), b.as_slice()) {
                        picks.set(k, pick);
                        assert(picks_view(picks@) =~= before.update(k as int, pick_view(pick)));
                    }
                },
            }
        }
        i = i + 1;
    }
    assert(rv.take(rows.len() as int) =~= rv);
    // Sort the picks by platform: reverse them into a stack, then insert
    // each in turn, popping the stack back in order.
    let ghost id = picks_view(picks@);
    let mut rest = picks;
    let mut stack: Vec<PickEntry> = Vec::new();
    assert(picks_view(rest@) + picks_view(stack@).reverse() =~= id);
    while rest.len() > 0
        invariant
            picks_view(rest@) + picks_view(stack@).reverse() == id,
        decreases rest.len(),
    {
        let ghost bs = picks_view(stack@);
        let ghost br = picks_view(rest@);
        let e = rest.pop().unwrap();
        stack.push(e);
        proof {
            assert(picks_view(stack@) =~= bs.push(pick_view(e)));
            assert(picks_view(rest@) =~= br.drop_last());
            assert(br =~= br.drop_last().push(pick_view(e)));
            assert(bs.push(pick_view(e)).reverse() =~= seq![pick_view(e)] + bs.reverse());
            assert(picks_view(rest@) + picks_view(stack@).reverse() =~= br + bs.reverse());
        }
    }
    assert(picks_view(rest@) =~= Seq::<GuestPick>::empty());
    assert(picks_view(stack@) =~= id.reverse());
    let mut out: Vec<PickEntry> = Vec::new();
    assert(sorted_by_platform(id.take(0)) =~= Seq::<GuestPick>::empty());
    while stack.len() > 0
        invariant
            picks_view(stack@) == id.reverse().take(stack@.len() as int),
            stack@.len() <= id.len(),
            picks_view(out@) == sorted_by_platform(id.take((id.len() - stack@.len()) as int)),
        decreases stack.len(),
    {
        let ghost j = (id.len() - stack@.len()) as int;
        let ghost od = picks_view(out@);
        let ghost bs = picks_view(stack@);
        let c = stack.pop().unwrap();
        proof {
            assert(bs.last() == pick_view(c));
            assert(id.reverse()[stack@.len() as int] == id[j]);
            assert(picks_view(stack@) =~= id.reverse().take(stack@.len() as int));
            assert(id.take(j + 1).drop_last() =~= id.take(j));
        }
        let ghost x = pick_view(c);
        let cp = chars_of(c.platform.as_str());
        let mut k: usize = out.len();
        assert(od.take(k as int) =~= od);
        assert(od.skip(k as int) =~= Seq::<GuestPick>::empty());
        while k > 0 && crate::text::lt_chars(cp.as_slice(), chars_of(out[k - 1].platform.as_str()).as_slice())
            invariant
                k <= out.len(),
                od == picks_view(out@),
                x == pick_view(c),
                cp@ == x.0,
                insert_by_platform(od, x) == insert_by_platform(od.take(k as int), x) + od.skip(k as int),
            decreases k,
        {
            proof {
                assert(picks_view(out@)[k - 1] == pick_view(out@[k - 1]));
                lemma_insert_by_platform_step(od, k as int, x);
            }
            k = k - 1;
        }
        proof {
            if k > 0 {
                assert(picks_view(out@)[k - 1] == pick_view(out@[k - 1]));
                assert(od.take(k as int).last() == od[k - 1]);
                assert(insert_by_platform(od.take(k as int), x) == od.take(k as int).push(x));
            } else {
                assert(insert_by_platform(od.take(0), x) =~= seq![x]);
            }
            assert(od.take(k as int).push(x) + od.skip(k as int) =~= od.insert(k as int, x));
        }
        out.insert(k, c);
        proof {
            assert(picks_view(out@) =~= od.insert(k as int, x));
        }
    }
    assert(id.take(id.len() as int) =~= id);
    let ghost sorted = picks_view(out@);
    let mut result: Vec<DefaultAccountConfig> = Vec::new();
    let mut src = out;
    let mut back: Vec<PickEntry> = Vec::new();
    while src.len() > 0
        invariant
            picks_view(src@) + picks_view(back@).reverse() == sorted,
        decreases src.len(),
    {
        let ghost bs = picks_view(back@);
        let ghost br = picks_view(src@);
        let e = src.pop().unwrap();
        back.push(e);
        proof {
            assert(picks_view(back@) =~= bs.push(pick_view(e)));
            assert(picks_view(src@) =~= br.drop_last());
            assert(br =~= br.drop_last().push(pick_view(e)));
            assert(bs.push(pick_view(e)).reverse() =~= seq![pick_view(e)] + bs.reverse());
            assert(picks_view(src@) + picks_view(back@).reverse() =~= br + bs.reverse());
        }
    }
    assert(picks_view(src@) =~= Seq::<GuestPick>::empty());
    assert(picks_view(back@) =~= sorted.reverse());
    let ghost target = sorted.map_values(|p: GuestPick| (p.0, p.1, p.2));
    assert(target.take(0) =~= Seq::<(Seq<char>, Seq<char>, Seq<char>)>::empty());
    while back.len() > 0
        invariant
            picks_view(back@) == sorted.reverse().take(back@.len() as int),
            back@.len() <= sorted.len(),
            target == sorted.map_values(|p: GuestPick| (p.0, p.1, p.2)),
            accts_view(result@) == target.take((sorted.len() - back@.len()) as int),
        decreases back.len(),
    {
        let ghost j = (sorted.len() - back@.len()) as int;
        let ghost bs = picks_view(back@);
        let ghost before = accts_view(result@);
        let e = back.pop().unwrap();
        proof {
            assert(bs.last() == pick_view(e));
            assert(sorted.reverse()[back@.len() as int] == sorted[j]);
            assert(picks_view(back@) =~= sorted.reverse().take(back@.len() as int));
        }
        let d = DefaultAccountConfig { platform: e.platform, cookies: e.cookies, extra: e.extra };
        result.push(d);
        assert(accts_view(result@) =~= before.push(acct_view(d)));
        assert(target.take(j + 1) =~= target.take(j).push(target[j]));
    }
    assert(target.take(sorted.len() as int) =~= target);
    result
}

} // verus!

verus! {

#[derive(Debug)]
/// What to do for one configured guest entry.
pub struct GuestEntryPlan {
    /// The platform of the entry.
    pub platform: crate::account_rows::Platform,
    /// The entry's trimmed cookies.
    pub cookies: String,
    /// A stored row to remove first (a Kuaishou guest stored under an
    /// outdated uid).
    pub remove_uid: Option<String>,
    /// A stored row whose cookies are to be rewritten to `cookies`.
    pub rewrite_uid: Option<String>,
    /// Whether to build (and store) a fresh row for the entry.
    pub build: bool,
    /// A stored row to remove when building fails.
    pub remove_on_failure: Option<String>,
}

/// The first stored row of `platform` whose trimmed cookies are `cookies`.
pub open spec fn matching_row(
    rows: Seq<(Seq<char>, Seq<char>, Seq<char>, Seq<char>, Seq<char>, Seq<char>, Seq<char>)>,
    platform: Seq<char>,
    cookies: Seq<char>,
) -> Option<(Seq<char>, Seq<char>, Seq<char>, Seq<char>, Seq<char>, Seq<char>, Seq<char>)>
    decreases rows.len(),
{
    if rows.len() == 0 {
        None
    } else if rows[0].0 == platform && trim(rows[0].2) == cookies {
        Some(rows[0])
    } else {
        matching_row(rows.drop_first(), platform, cookies)
    }
}

/// The plan for a configured guest entry, as platform, trimmed cookies,
/// row to remove first, row to rewrite, whether to build, row to remove
/// when building fails; none for an entry with blank cookies or an unknown
/// platform. A stored Kuaishou row whose uid is not `guest:cookie_` and the
/// MD5 of the cookies is removed and not reused; a reused row with other
/// untrimmed cookies is rewritten; a fresh row is built unless the reused
/// row already shows the platform's guest name and no avatar.
pub open spec fn guest_plan(
    entry: (Seq<char>, Seq<char>, Seq<char>),
    rows: Seq<(Seq<char>, Seq<char>, Seq<char>, Seq<char>, Seq<char>, Seq<char>, Seq<char>)>,
) -> Option<
    (crate::account_rows::Platform, Seq<char>, Option<Seq<char>>, Option<Seq<char>>, bool, Option<Seq<char>>),
> {
    let c = trim(entry.1);
    if c.len() == 0 {
        None
    } else {
        match crate::account_rows::platform_named(entry.0) {
            None => None,
            Some(p) => {
                let ex = matching_row(rows, crate::account_rows::platform_name(p), c);
                let outdated = ex matches Some(e) && p == crate::account_rows::Platform::Kuaishou
                    && e.1 != "guest:"@ + ("cookie_"@ + crate::ids::hex_lower(crate::ids::md5_digest(c)));
                let remove_uid = if outdated {
                    Some(ex.unwrap().1)
                } else {
                    None
                };
                let kept = if outdated {
                    None
                } else {
                    ex
                };
                let rewrite = match kept {
                    Some(e) => if e.2 != c {
                        Some(e.1)
                    } else {
                        None
                    },
                    None => None,
                };
                let done = kept matches Some(e) && e.3 == crate::account_rows::guest_display_name(p)
                    && e.4.len() == 0;
                let on_failure = if done {
                    None
                } else {
                    match kept {
                        Some(e) => Some(e.1),
                        None => None,
                    }
                };
                Some((p, c, remove_uid, rewrite, !done, on_failure))
            },
        }
    }
}

/// The view of a plan.
pub open spec fn plan_view(g: GuestEntryPlan) -> (
    crate::account_rows::Platform,
    Seq<char>,
    Option<Seq<char>>,
    Option<Seq<char>>,
    bool,
    Option<Seq<char>>,
) {
    (g.platform, g.cookies@, crate::config::opt_view(g.remove_uid), crate::config::opt_view(g.rewrite_uid), g.build, crate::config::opt_view(g.remove_on_failure))
}

/// Exec `matching_row`, as the index of the row.
fn matching_row_index(rows: &Vec<AccountRow>, platform: &str, cookies: &Vec<char>) -> (r: Option<usize>)
    ensures
        match r {
            Some(k) => k < rows@.len() && matching_row(rows_fields(rows@), platform@, cookies@) == Some(
                row_fields(rows@[k as int]),
            ),
            None => matching_row(rows_fields(rows@), platform@, cookies@) is None,
        },
{
    let ghost rv = rows_fields(rows@);
    let mut i: usize = 0;
    assert(rv.skip(0) =~= rv);
    while i < rows.len()
        invariant
            i <= rows.len(),
            rv == rows_fields(rows@),
            matching_row(rv, platform@, cookies@) == matching_row(rv.skip(i as int), platform@, cookies@),
        decreases rows.len() - i,
    {
        assert(rv.skip(i as int).drop_first() =~= rv.skip(i as int + 1));
        assert(rv.skip(i as int)[0] == row_fields(rows@[i as int]));
        let cc = chars_of(rows[i].cookies.as_str());
        let ct = trim_chars(cc.as_slice());
        if same_str(rows[i].platform.as_str(), platform) && crate::text::eq_chars(ct.as_slice(), cookies.as_slice()) {
            return Some(i);
        }
        i = i + 1;
    }
    None
}

/// Exec `guest_plan`.
pub fn guest_entry_plan(entry: &DefaultAccountConfig, rows: &Vec<AccountRow>) -> (r: Option<GuestEntryPlan>)
    ensures
        match r {
            Some(g) => guest_plan(acct_view(*entry), rows_fields(rows@)) == Some(plan_view(g)),
            None => guest_plan(acct_view(*entry), rows_fields(rows@)) is None,
        },
{
    let ec = chars_of(entry.cookies.as_str());
    let c = trim_chars(ec.as_slice());
    if c.len() == 0 {
        return None;
    }
    let p = match crate::account_rows::Platform::from_str(entry.platform.as_str()) {
        Some(p) => p,
        None => {
            return None;
        },
    };
    let cs = string_of(c.as_slice());
    let pname = p.as_str();
    let ex = matching_row_index(rows, pname.as_str(), &c);
    let outdated = match ex {
        Some(k) => {
            if p == crate::account_rows::Platform::Kuaishou {
                let expected = crate::cookies::concat_str("guest:", crate::ids::md5_cookie_id(cs.as_str()).as_str());
                !same_str(rows[k].uid.as_str(), expected.as_str())
            } else {
                false
            }
        },
        None => false,
    };
    let remove_uid = if outdated {
        match ex {
            Some(k) => Some(rows[k].uid.clone()),
            None => None,
        }
    } else {
        None
    };
    let kept = if outdated {
        None
    } else {
        ex
    };
    let rewrite_uid = match kept {
        Some(k) => if !same_str(rows[k].cookies.as_str(), cs.as_str()) {
            Some(rows[k].uid.clone())
        } else {
            None
        },
        None => None,
    };
    let done = match kept {
        Some(k) => same_str(rows[k].name.as_str(), p.guest_name().as_str()) && rows[k].avatar.unicode_len() == 0,
        None => false,
    };
    let remove_on_failure = if done {
        None
    } else {
        match kept {
            Some(k) => Some(rows[k].uid.clone()),
            None => None,
        }
    };
    Some(GuestEntryPlan { platform: p, cookies: cs, remove_uid, rewrite_uid, build: !done, remove_on_failure })
}

/// Guest setup does nothing at all: guest accounts are switched off or none
/// is configured.
pub open spec fn guest_setup_skipped(use_guest: bool, entries: Seq<(Seq<char>, Seq<char>, Seq<char>)>) -> bool {
    !use_guest || entries.len() == 0
}

/// The plans of the configured entries against the stored rows, in order,
/// leaving out the entries that get none (`guest_plan`).
pub open spec fn entry_plans(
    entries: Seq<(Seq<char>, Seq<char>, Seq<char>)>,
    rows: Seq<(Seq<char>, Seq<char>, Seq<char>, Seq<char>, Seq<char>, Seq<char>, Seq<char>)>,
) -> Seq<(crate::account_rows::Platform, Seq<char>, Option<Seq<char>>, Option<Seq<char>>, bool, Option<Seq<char>>)>
    decreases entries.len(),
{
    if entries.len() == 0 {
        Seq::empty()
    } else {
        let prev = entry_plans(entries.drop_last(), rows);
        match guest_plan(entries.last(), rows) {
            Some(g) => prev.push(g),
            None => prev,
        }
    }
}

/// The stored guest rows to remove before guest setup (`stale_rows`): none
/// (`None`, and nothing is read or written) when guest setup is skipped.
pub fn guest_setup_cleanup(use_guest: bool, entries: &Vec<DefaultAccountConfig>, rows: &Vec<AccountRow>) -> (r: Option<
    Vec<(String, String)>,
>)
    ensures
        match r {
            None => guest_setup_skipped(use_guest, accts_view(entries@)),
            Some(v) => !guest_setup_skipped(use_guest, accts_view(entries@)) && pairs_view(v@)
                == stale_rows(rows_fields(rows@), accts_view(entries@), Seq::empty()),
        },
{
    if !use_guest || entries.len() == 0 {
        return None;
    }
    Some(stale_guest_rows(rows, entries))
}

/// The plans of guest setup against the stored rows given: none when guest
/// accounts are switched off or none is configured, else the plan of each
/// configured entry that gets one (`guest_plan`), in order.
pub fn guest_setup_plans(use_guest: bool, entries: &Vec<DefaultAccountConfig>, rows: &Vec<AccountRow>) -> (r: Vec<
    GuestEntryPlan,
>)
    ensures
        guest_setup_skipped(use_guest, accts_view(entries@)) ==> r@.len() == 0,
        !guest_setup_skipped(use_guest, accts_view(entries@)) ==> r@.map_values(|g: GuestEntryPlan| plan_view(g))
            == entry_plans(accts_view(entries@), rows_fields(rows@)),
{
    let mut out: Vec<GuestEntryPlan> = Vec::new();
    if !use_guest || entries.len() == 0 {
        return out;
    }
    let ghost ev = accts_view(entries@);
    let ghost rv = rows_fields(rows@);
    let mut i: usize = 0;
    assert(ev.take(0) =~= Seq::<(Seq<char>, Seq<char>, Seq<char>)>::empty());
    while i < entries.len()
        invariant
            i <= entries.len(),
            ev == accts_view(entries@),
            rv == rows_fields(rows@),
            out@.map_values(|g: GuestEntryPlan| plan_view(g)) == entry_plans(ev.take(i as int), rv),
        decreases entries.len() - i,
    {
        assert(ev.take(i as int + 1).drop_last() =~= ev.take(i as int));
        assert(ev.take(i as int + 1).last() == acct_view(entries@[i as int]));
        let ghost before = out@.map_values(|g: GuestEntryPlan| plan_view(g));
        match guest_entry_plan(&entries[i], rows) {
            Some(g) => {
                let ghost gv = plan_view(g);
                out.push(g);
                assert(out@.map_values(|g: GuestEntryPlan| plan_view(g)) =~= before.push(gv));
            },
            None => {},
        }
        i = i + 1;
    }
    assert(ev.take(entries.len() as int) =~= ev);
    out
}

} // verus!
