//! Accounts: the classification of stored accounts by uid, their ranking, the
//! automatic choice of an account for a platform, and the guest-refresh gate.
use vstd::prelude::*;
use crate::cookies::{cookie_parts, cookie_pair_count, pair_count};
use crate::text::{
    chars_of, eq_chars, lt_chars, seq_lt, starts_with, starts_with_chars, trim, trim_chars,
    lemma_seq_lt_asym, lemma_seq_lt_irrefl, lemma_seq_lt_total, lemma_seq_lt_trans,
};

verus! {

#[derive(Debug)]
/// An account as stored in the database.
pub struct AccountRow {
    pub platform: String,
    pub uid: String,
    pub name: String,
    pub avatar: String,
    pub csrf: String,
    pub cookies: String,
    pub extra: String,
    pub created_at: String,
}

// ---------------------------------------------------------------------------
// Classification
// ---------------------------------------------------------------------------

/// A uid given to accounts that were logged in (`login:` or `manual:`).
pub open spec fn login_uid(uid: Seq<char>) -> bool {
    starts_with(trim(uid), "login:"@) || starts_with(trim(uid), "manual:"@)
}

/// A uid given to guest accounts (`guest:`, `cookie_` or `guest_`).
pub open spec fn guest_uid(uid: Seq<char>) -> bool {
    starts_with(trim(uid), "guest:"@) || starts_with(trim(uid), "cookie_"@) || starts_with(
        trim(uid),
        "guest_"@,
    )
}

/// A display name that is only a placeholder: blank, `Kuaishou` or
/// `Kuaishou Live` (after trimming).
pub open spec fn placeholder_name(value: Seq<char>) -> bool {
    trim(value).len() == 0 || trim(value) == "Kuaishou"@ || trim(value) == "Kuaishou Live"@
}

/// Exec `placeholder_name`.
pub fn is_placeholder_name(value: &str) -> (b: bool)
    ensures
        b == placeholder_name(value@),
{
    let v = chars_of(value);
    let t = trim_chars(v.as_slice());
    let a = chars_of("Kuaishou");
    let b = chars_of("Kuaishou Live");
    t.len() == 0 || eq_chars(t.as_slice(), a.as_slice()) || eq_chars(t.as_slice(), b.as_slice())
}

/// Exec `login_uid`.
pub fn is_login_account_uid(uid: &str) -> (b: bool)
    ensures
        b == login_uid(uid@),
{
    let v = chars_of(uid);
    let t = trim_chars(v.as_slice());
    let a = chars_of("login:");
    let b = chars_of("manual:");
    starts_with_chars(t.as_slice(), a.as_slice()) || starts_with_chars(t.as_slice(), b.as_slice())
}

/// Exec `guest_uid`.
pub fn is_guest_account_uid(uid: &str) -> (b: bool)
    ensures
        b == guest_uid(uid@),
{
    let v = chars_of(uid);
    let t = trim_chars(v.as_slice());
    let a = chars_of("guest:");
    let b = chars_of("cookie_");
    let c = chars_of("guest_");
    starts_with_chars(t.as_slice(), a.as_slice()) || starts_with_chars(t.as_slice(), b.as_slice())
        || starts_with_chars(t.as_slice(), c.as_slice())
}

// ---------------------------------------------------------------------------
// Ranking
// ---------------------------------------------------------------------------

/// The ranking data of an account, as character sequences.
pub struct AccountView {
    pub uid: Seq<char>,
    pub name: Seq<char>,
    pub avatar: Seq<char>,
    pub csrf: Seq<char>,
    pub cookies: Seq<char>,
    pub created_at: Seq<char>,
    pub platform: Seq<char>,
}

impl AccountRow {
    /// The account's fields as character sequences.
    pub open spec fn view_of(&self) -> AccountView {
        AccountView {
            uid: self.uid@,
            name: self.name@,
            avatar: self.avatar@,
            csrf: self.csrf@,
            cookies: self.cookies@,
            created_at: self.created_at@,
            platform: self.platform@,
        }
    }
}

/// 1 when `s` is not blank.
pub open spec fn filled(s: Seq<char>) -> nat {
    if trim(s).len() > 0 {
        1
    } else {
        0
    }
}

/// How complete an account is: 100 for each of uid, name, avatar, csrf and
/// cookies that is not blank, plus the number of cookie pairs (capped at
/// `usize::MAX`).
pub open spec fn quality(a: AccountView) -> int {
    let v = (filled(a.uid) + filled(a.name) + filled(a.avatar) + filled(a.csrf) + filled(
        a.cookies,
    )) * 100 + pair_count(cookie_parts(a.cookies));
    if v > usize::MAX {
        usize::MAX as int
    } else {
        v as int
    }
}

/// Login accounts rank above ordinary ones, which rank above guests.
pub open spec fn priority(a: AccountView) -> int {
    if login_uid(a.uid) {
        3
    } else if guest_uid(a.uid) {
        1
    } else {
        2
    }
}

/// Exec `quality`.
pub fn account_quality_score(account: &AccountRow) -> (n: usize)
    ensures
        n == quality(account.view_of()),
{
    let mut score: usize = 0;
    if trim_chars(chars_of(account.uid.as_str()).as_slice()).len() > 0 {
        score = score + 1;
    }
    if trim_chars(chars_of(account.name.as_str()).as_slice()).len() > 0 {
        score = score + 1;
    }
    if trim_chars(chars_of(account.avatar.as_str()).as_slice()).len() > 0 {
        score = score + 1;
    }
    if trim_chars(chars_of(account.csrf.as_str()).as_slice()).len() > 0 {
        score = score + 1;
    }
    if trim_chars(chars_of(account.cookies.as_str()).as_slice()).len() > 0 {
        score = score + 1;
    }
    let n = cookie_pair_count(account.cookies.as_str());
    (score * 100).saturating_add(n)
}

/// Exec `priority`.
pub fn account_priority(account: &AccountRow) -> (p: usize)
    ensures
        p == priority(account.view_of()),
{
    if is_login_account_uid(account.uid.as_str()) {
        3
    } else if is_guest_account_uid(account.uid.as_str()) {
        1
    } else {
        2
    }
}

/// `a` ranks strictly below `b`: by priority, then quality, then creation
/// time (compared as text).
pub open spec fn ranks_below(a: AccountView, b: AccountView) -> bool {
    priority(a) < priority(b) || (priority(a) == priority(b) && (quality(a) < quality(b) || (
    quality(a) == quality(b) && seq_lt(a.created_at, b.created_at))))
}

/// `a` and `b` rank equal.
pub open spec fn ranks_equal(a: AccountView, b: AccountView) -> bool {
    priority(a) == priority(b) && quality(a) == quality(b) && a.created_at == b.created_at
}

/// Exec ranking: `-1`, `0` or `1` as `a` ranks below, equal to or above `b`.
pub fn compare_accounts(a: &AccountRow, b: &AccountRow) -> (c: i8)
    ensures
        c == -1 <==> ranks_below(a.view_of(), b.view_of()),
        c == 0 <==> ranks_equal(a.view_of(), b.view_of()),
        c == 1 <==> ranks_below(b.view_of(), a.view_of()),
        c == -1 || c == 0 || c == 1,
{
    let pa = account_priority(a);
    let pb = account_priority(b);
    if pa != pb {
        return if pa < pb {
            -1
        } else {
            1
        };
    }
    let qa = account_quality_score(a);
    let qb = account_quality_score(b);
    if qa != qb {
        return if qa < qb {
            -1
        } else {
            1
        };
    }
    let ca = chars_of(a.created_at.as_str());
    let cb = chars_of(b.created_at.as_str());
    proof {
        lemma_seq_lt_total(ca@, cb@);
        if seq_lt(ca@, cb@) {
            lemma_seq_lt_asym(ca@, cb@);
        }
        if ca@ == cb@ {
            lemma_seq_lt_irrefl(ca@);
        }
    }
    if lt_chars(ca.as_slice(), cb.as_slice()) {
        -1
    } else if eq_chars(ca.as_slice(), cb.as_slice()) {
        0
    } else {
        1
    }
}

// ---------------------------------------------------------------------------
// Choice of an account
// ---------------------------------------------------------------------------

/// The ranking views of a list of accounts.
pub open spec fn row_views(rows: Seq<AccountRow>) -> Seq<AccountView> {
    rows.map_values(|r: AccountRow| r.view_of())
}

/// `i` is the best of the members of `v` that `cand` selects, as
/// `Iterator::max_by` picks it: none ranks above it, and none after it ranks
/// equal to it (the last of equal maxima wins).
pub open spec fn is_best(v: Seq<AccountView>, cand: spec_fn(int) -> bool, i: int) -> bool {
    &&& 0 <= i < v.len()
    &&& cand(i)
    &&& forall|j: int| 0 <= j < v.len() && #[trigger] cand(j) ==> !ranks_below(v[i], v[j])
    &&& forall|j: int| i < j < v.len() && #[trigger] cand(j) ==> !ranks_equal(v[i], v[j])
}

/// Ranking is a strict total order up to `ranks_equal`.
pub proof fn lemma_rank_trichotomy(a: AccountView, b: AccountView)
    ensures
        (ranks_below(a, b) as int) + (ranks_equal(a, b) as int) + (ranks_below(b, a) as int) == 1,
{
    lemma_seq_lt_total(a.created_at, b.created_at);
    if seq_lt(a.created_at, b.created_at) {
        lemma_seq_lt_asym(a.created_at, b.created_at);
    }
    if a.created_at == b.created_at {
        lemma_seq_lt_irrefl(a.created_at);
    }
}

/// `ranks_below` is transitive.
pub proof fn lemma_rank_trans(a: AccountView, b: AccountView, c: AccountView)
    requires
        ranks_below(a, b),
        ranks_below(b, c),
    ensures
        ranks_below(a, c),
{
    if priority(a) == priority(b) && priority(b) == priority(c) && quality(a) == quality(b)
        && quality(b) == quality(c) {
        lemma_seq_lt_trans(a.created_at, b.created_at, c.created_at);
    }
}

/// The candidates of a round of the choice: the accounts of the platform
/// with non-blank cookies (`kind` 0), their login accounts (`kind` 1) or
/// their guest accounts (`kind` 2).
pub open spec fn candidates(v: Seq<AccountView>, platform: Seq<char>, kind: u8) -> spec_fn(
    int,
) -> bool {
    |i: int|
        0 <= i < v.len() && v[i].platform == platform && trim(v[i].cookies).len() > 0 && (kind
            == 1 ==> login_uid(v[i].uid)) && (kind == 2 ==> guest_uid(v[i].uid))
}

/// Some member of `v` is selected by `cand`.
pub open spec fn any_selected(v: Seq<AccountView>, cand: spec_fn(int) -> bool) -> bool {
    exists|j: int| 0 <= j < v.len() && #[trigger] cand(j)
}

/// The best account among the rows that `kind` selects: 0 for all accounts
/// of the platform with cookies, 1 for their login accounts, 2 for their
/// guest accounts.
fn best_of(rows: &Vec<AccountRow>, platform: &str, kind: u8) -> (r: Option<usize>)
    requires
        kind <= 2,
    ensures
        ({
            let v = row_views(rows@);
            let cand = candidates(v, platform@, kind);
            match r {
                Some(i) => is_best(v, cand, i as int),
                None => !any_selected(v, cand),
            }
        }),
{
    let ghost v = row_views(rows@);
    let ghost cand = candidates(v, platform@, kind);
    let pv = chars_of(platform);
    let mut best: Option<usize> = None;
    let mut i: usize = 0;
    while i < rows.len()
        invariant
            i <= rows.len(),
            v == row_views(rows@),
            pv@ == platform@,
            cand == candidates(v, platform@, kind),
            match best {
                Some(b) => is_best(v.take(i as int), cand, b as int) && b < i,
                None => !any_selected(v.take(i as int), cand),
            },
        decreases rows.len() - i,
    {
        let row = &rows[i];
        let rp = chars_of(row.platform.as_str());
        let rc = chars_of(row.cookies.as_str());
        let same = eq_chars(rp.as_slice(), pv.as_slice());
        let rt = trim_chars(rc.as_slice());
        let mut selected = same && rt.len() > 0;
        assert(v[i as int] == rows@[i as int].view_of());
        if selected && kind == 1 {
            selected = is_login_account_uid(row.uid.as_str());
        } else if selected && kind == 2 {
            selected = is_guest_account_uid(row.uid.as_str());
        }
        assert(selected == cand(i as int));
        let ghost vt = v.take(i as int + 1);
        if selected {
            match best {
                Some(b) => {
                    let c = compare_accounts(&rows[b], row);
                    assert(v[b as int] == rows@[b as int].view_of());
                    if c == 1 {
                        proof {
                            assert forall|j: int| 0 <= j < vt.len() && #[trigger] cand(j) implies !ranks_below(
                                vt[b as int],
                                vt[j],
                            ) by {
                                if j == i {
                                    lemma_rank_trichotomy(v[b as int], v[j]);
                                } else {
                                    assert(vt[j] == v.take(i as int)[j]);
                                }
                            }
                            assert forall|j: int| b < j < vt.len() && #[trigger] cand(j) implies !ranks_equal(
                                vt[b as int],
                                vt[j],
                            ) by {
                                if j == i {
                                    lemma_rank_trichotomy(v[b as int], v[j]);
                                } else {
                                    assert(vt[j] == v.take(i as int)[j]);
                                }
                            }
                        }
                    } else {
                        proof {
                            lemma_rank_trichotomy(v[b as int], v[i as int]);
                            assert forall|j: int| 0 <= j < vt.len() && #[trigger] cand(j) implies !ranks_below(
                                vt[i as int],
                                vt[j],
                            ) by {
                                if j < i {
                                    assert(vt[j] == v.take(i as int)[j]);
                                    assert(!ranks_below(v[b as int], v[j]));
                                    lemma_rank_trichotomy(v[b as int], v[j]);
                                    lemma_rank_trichotomy(v[i as int], v[j]);
                                    if ranks_below(v[i as int], v[j]) {
                                        if ranks_below(v[b as int], v[i as int]) {
                                            lemma_rank_trans(v[b as int], v[i as int], v[j]);
                                        } else {
                                            assert(ranks_equal(v[b as int], v[i as int]));
                                        }
                                    }
                                } else {
                                    lemma_rank_trichotomy(v[i as int], v[i as int]);
                                    lemma_seq_lt_irrefl(v[i as int].created_at);
                                }
                            }
                        }
                        best = Some(i);
                    }
                },
                None => {
                    proof {
                        lemma_seq_lt_irrefl(v[i as int].created_at);
                        assert forall|j: int| 0 <= j < vt.len() && #[trigger] cand(j) implies j == i by {
                            if j < i {
                                assert(vt[j] == v.take(i as int)[j]);
                                assert(any_selected(v.take(i as int), cand));
                            }
                        }
                    }
                    best = Some(i);
                },
            }
        } else {
            proof {
                match best {
                    Some(b) => {
                        assert forall|j: int| 0 <= j < vt.len() && #[trigger] cand(j) implies !ranks_below(
                            vt[b as int],
                            vt[j],
                        ) by {
                            assert(vt[j] == v.take(i as int)[j]);
                        }
                        assert forall|j: int| b < j < vt.len() && #[trigger] cand(j) implies !ranks_equal(
                            vt[b as int],
                            vt[j],
                        ) by {
                            assert(vt[j] == v.take(i as int)[j]);
                        }
                    },
                    None => {
                        if any_selected(vt, cand) {
                            let j = choose|j: int| 0 <= j < vt.len() && #[trigger] cand(j);
                            assert(vt[j] == v.take(i as int)[j]);
                        }
                    },
                }
            }
        }
        i = i + 1;
    }
    assert(v.take(rows.len() as int) =~= v);
    best
}

/// The rank of the account that would be chosen for `platform`: with login
/// accounts enabled, the best login account of the platform; else, with
/// guest accounts enabled, the best guest account; else (or when the
/// enabled kinds have none) the best account of the platform. Only accounts
/// of the platform with non-blank cookies count.
pub open spec fn chosen(
    v: Seq<AccountView>,
    platform: Seq<char>,
    use_login: bool,
    use_guest: bool,
    r: Option<usize>,
) -> bool {
    if use_login && any_selected(v, candidates(v, platform, 1)) {
        r matches Some(i) && is_best(v, candidates(v, platform, 1), i as int)
    } else if use_guest && any_selected(v, candidates(v, platform, 2)) {
        r matches Some(i) && is_best(v, candidates(v, platform, 2), i as int)
    } else if any_selected(v, candidates(v, platform, 0)) {
        r matches Some(i) && is_best(v, candidates(v, platform, 0), i as int)
    } else {
        r is None
    }
}

/// Chooses the account to record `platform` with (see `chosen`); the result
/// is the index of the chosen row.
pub fn select_account_for_platform(
    accounts: &Vec<AccountRow>,
    platform: &str,
    use_login_accounts: bool,
    use_guest_accounts: bool,
) -> (r: Option<usize>)
    ensures
        chosen(row_views(accounts@), platform@, use_login_accounts, use_guest_accounts, r),
{
    if use_login_accounts {
        let b = best_of(accounts, platform, 1);
        if b.is_some() {
            return b;
        }
    }
    if use_guest_accounts {
        let b = best_of(accounts, platform, 2);
        if b.is_some() {
            return b;
        }
    }
    best_of(accounts, platform, 0)
}

// ---------------------------------------------------------------------------
// Guest refresh gate
// ---------------------------------------------------------------------------

/// What a request to refresh the guest accounts comes to.
#[derive(Debug, PartialEq, Eq, Structural, Clone, Copy)]
pub enum GuestRefreshDecision {
    /// The last refresh is too recent.
    Cooldown,
    /// A refresh is already running.
    AlreadyRunning,
    /// Start a refresh now (and record `now` as its time).
    Start,
}

/// Seconds that must pass between guest refreshes (30 when forced).
pub open spec fn guest_min_interval(force: bool) -> int {
    if force {
        30
    } else {
        120
    }
}

/// `now - last`, saturating at the bounds of `i64`.
pub open spec fn sat_sub(now: i64, last: i64) -> int {
    let d = now - last;
    if d > i64::MAX {
        i64::MAX as int
    } else if d < i64::MIN {
        i64::MIN as int
    } else {
        d
    }
}

/// Whether a guest refresh may start at `now`, given the time of the last
/// one and whether one is running.
pub fn try_begin_guest_refresh(now: i64, last: i64, in_flight: bool, force: bool) -> (d:
    GuestRefreshDecision)
    ensures
        d == (if sat_sub(now, last) < guest_min_interval(force) {
            GuestRefreshDecision::Cooldown
        } else if in_flight {
            GuestRefreshDecision::AlreadyRunning
        } else {
            GuestRefreshDecision::Start
        }),
{
    let min_interval: i64 = if force {
        30
    } else {
        120
    };
    let wide: i128 = now as i128 - last as i128;
    let diff: i64 = if wide > i64::MAX as i128 {
        i64::MAX
    } else if wide < i64::MIN as i128 {
        i64::MIN
    } else {
        wide as i64
    };
    if diff < min_interval {
        GuestRefreshDecision::Cooldown
    } else if in_flight {
        GuestRefreshDecision::AlreadyRunning
    } else {
        GuestRefreshDecision::Start
    }
}


/// The state of the guest refresh gate: the time the last refresh started
/// and whether one is running.
#[derive(Debug, Clone, Copy, PartialEq, Eq, Structural)]
pub struct GuestRefreshGate {
    pub last_ts: i64,
    pub in_flight: bool,
}

/// What a request at `now` comes to on gate `g`.
pub open spec fn gate_decision(g: GuestRefreshGate, now: i64, force: bool) -> GuestRefreshDecision {
    if sat_sub(now, g.last_ts) < guest_min_interval(force) {
        GuestRefreshDecision::Cooldown
    } else if g.in_flight {
        GuestRefreshDecision::AlreadyRunning
    } else {
        GuestRefreshDecision::Start
    }
}

/// The next state of gate `g` for a request at `now` (see `gate_decision`).
pub open spec fn gate_after(g: GuestRefreshGate, now: i64, force: bool) -> GuestRefreshGate {
    if gate_decision(g, now, force) == GuestRefreshDecision::Start {
        GuestRefreshGate { last_ts: now, in_flight: true }
    } else {
        g
    }
}

impl GuestRefreshGate {
    /// A gate with no refresh run yet and none running.
    pub fn new() -> (g: Self)
        ensures
            g == (GuestRefreshGate { last_ts: 0, in_flight: false }),
    {
        GuestRefreshGate { last_ts: 0, in_flight: false }
    }

    /// Decides the request made at `now` (`gate_decision`) and moves the
    /// gate to its next state (`gate_after`).
    pub fn begin(&mut self, now: i64, force: bool) -> (d: GuestRefreshDecision)
        ensures
            d == gate_decision(*old(self), now, force),
            *final(self) == gate_after(*old(self), now, force),
    {
        let d = try_begin_guest_refresh(now, self.last_ts, self.in_flight, force);
        if d == GuestRefreshDecision::Start {
            self.in_flight = true;
            self.last_ts = now;
        }
        d
    }

    /// Marks the running refresh as done; the recorded time stays.
    pub fn finish(&mut self)
        ensures
            final(self).in_flight == false,
            final(self).last_ts == old(self).last_ts,
    {
        self.in_flight = false;
    }
}

/// No second refresh can begin while one is in flight, whatever `force`
/// says.
pub proof fn lemma_gate_excludes_overlap(g: GuestRefreshGate, t1: i64, f1: bool, t2: i64, f2: bool)
    requires
        gate_decision(g, t1, f1) == GuestRefreshDecision::Start,
    ensures
        gate_decision(gate_after(g, t1, f1), t2, f2) != GuestRefreshDecision::Start,
        gate_after(g, t1, f1) == (GuestRefreshGate { last_ts: t1, in_flight: true }),
{
}

/// A forced request is refused for 30 seconds after a refresh started, an
/// ordinary one for 120 seconds, even once that refresh has finished.
pub proof fn lemma_gate_cooldown(g: GuestRefreshGate, t1: i64, f1: bool, t2: i64, f2: bool)
    requires
        gate_decision(g, t1, f1) == GuestRefreshDecision::Start,
        t1 <= t2 < t1 + guest_min_interval(f2),
    ensures
        gate_decision(GuestRefreshGate { in_flight: false, ..gate_after(g, t1, f1) }, t2, f2)
            == GuestRefreshDecision::Cooldown,
{
}

} // verus!
