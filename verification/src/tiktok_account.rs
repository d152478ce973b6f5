//! The TikTok account side: the secsdk CSRF token, the answers of the user
//! info endpoints and pages, and the proxy and cookie checks.
use vstd::prelude::*;
use sha2::Digest;
use vstd::utf8::encode_utf8;
use crate::config::opt_view;
use crate::cookies::concat_str;
use crate::ids::{hex_lower, push_hex};
use crate::json::{
    as_str_opt, entries_data, get, json_as_str, json_get, JsonData, JsonValue,
};
use crate::text::{chars_of, contains, contains_chars, push_all, string_of, to_string_of, trim, trim_chars};
use crate::tiktok::{account_cookie, cookie_value_from_account, Account, RecorderError};
use crate::tiktok_data::{
    avatar_in, current_user, find_avatar_url, find_current_user_info, get_string_field, string_field,
    strs, user_view, UserInfo,
};

verus! {

// ---------------------------------------------------------------------------
// The secsdk CSRF token
// ---------------------------------------------------------------------------

/// Name for the SHA-256 digest of some bytes.
pub uninterp spec fn sha256_digest(bytes: Seq<u8>) -> Seq<u8>;

/// Calls `sha2::Sha256::digest`. Its 32-byte result is named
/// (`sha256_digest`).
#[verifier::external_body]
fn sha256_of(bytes: &[u8]) -> (r: [u8; 32])
    ensures
        r@ == sha256_digest(bytes@),
{
    sha2::Sha256::digest(bytes).into()
}

/// The secsdk CSRF token of an account: `000100000001`, the lowercase hex
/// SHA-256 of its `csrfToken` cookie, `,` and its `csrf_session_id`
/// cookie; none unless both cookies are there and not empty.
pub open spec fn secsdk_csrf_token(cookies: Seq<char>) -> Option<Seq<char>> {
    match (account_cookie(cookies, "csrfToken"@), account_cookie(cookies, "csrf_session_id"@)) {
        (Some(t), Some(s)) => if t.len() > 0 && s.len() > 0 {
            Some("000100000001"@ + hex_lower(sha256_digest(encode_utf8(t))) + ","@ + s)
        } else {
            None
        },
        _ => None,
    }
}

/// Exec `secsdk_csrf_token`.
pub fn build_secsdk_csrf_token(account: &Account) -> (r: Option<String>)
    ensures
        opt_view(r) == secsdk_csrf_token(account.cookies@),
{
    let csrf_token = match cookie_value_from_account(account, "csrfToken") {
        Some(t) => t,
        None => return None,
    };
    let session_id = match cookie_value_from_account(account, "csrf_session_id") {
        Some(s) => s,
        None => return None,
    };
    if csrf_token.unicode_len() == 0 || session_id.unicode_len() == 0 {
        return None;
    }
    let digest = sha256_of(csrf_token.as_str().as_bytes());
    let mut out = chars_of("000100000001");
    push_hex(&mut out, &digest);
    out.push(',');
    let sc = chars_of(session_id.as_str());
    push_all(&mut out, sc.as_slice());
    proof {
        reveal_strlit(",");
        assert(out@ =~= "000100000001"@ + hex_lower(sha256_digest(encode_utf8(csrf_token@))) + ","@ + session_id@);
    }
    Some(string_of(out.as_slice()))
}

// ---------------------------------------------------------------------------
// User info answers
// ---------------------------------------------------------------------------

/// The members of a value that is an object.
pub open spec fn members(v: Option<JsonData>) -> Option<Seq<(Seq<char>, JsonData)>> {
    match v {
        Some(JsonData::Object(m)) => Some(m),
        _ => None,
    }
}

/// An optional text, or empty.
pub open spec fn or_empty(v: Option<Seq<char>>) -> Seq<char> {
    match v {
        Some(x) => x,
        None => Seq::<char>::empty(),
    }
}

/// `name` unless it is empty, else `id`.
pub open spec fn name_or_id(name: Seq<char>, id: Seq<char>) -> Seq<char> {
    if name.len() > 0 {
        name
    } else {
        id
    }
}

/// An optional string, or an empty one.
fn or_empty_string(v: Option<String>) -> (r: String)
    ensures
        r@ == or_empty(opt_view(v)),
{
    match v {
        Some(x) => x,
        None => {
            let e = String::new();
            assert(e@ =~= Seq::<char>::empty());
            e
        },
    }
}

/// The message of a passport answer without a user.
pub open spec fn passport_missing_message() -> Seq<char> {
    "User info not found in passport response"@
}

/// The user a passport answer names: `data` must be an object with a user
/// id (`user_id`, `uid` or `id`); the name is `nickname` or `unique_id`,
/// else the id; the avatar is the first found in the whole answer.
pub open spec fn passport_user(j: JsonData) -> Option<(Seq<char>, Seq<char>, Seq<char>)> {
    match members(get(j, "data"@)) {
        Some(d) => {
            let id = or_empty(string_field(d, seq!["user_id"@, "uid"@, "id"@]));
            let name = or_empty(string_field(d, seq!["nickname"@, "unique_id"@]));
            if id.len() > 0 {
                Some((id, name_or_id(name, id), or_empty(avatar_in(j))))
            } else {
                None
            }
        },
        None => None,
    }
}

/// Reads the user out of a passport user info answer (`passport_user`).
pub fn passport_user_info(json: &JsonValue) -> (r: Result<UserInfo, RecorderError>)
    ensures
        match r {
            Ok(u) => passport_user(json@) == Some(user_view(u)),
            Err(e) => passport_user(json@) is None && (e matches RecorderError::ApiError { error }
                && error@ == passport_missing_message()),
        },
{
    if let Some(JsonValue::Object(d)) = json_get(json, "data") {
        proof {
            crate::json::lemma_object_data(*d);
        }
        let k1: [&str; 3] = ["user_id", "uid", "id"];
        let k2: [&str; 2] = ["nickname", "unique_id"];
        proof {
            assert(strs(k1@) =~= seq!["user_id"@, "uid"@, "id"@]);
            assert(strs(k2@) =~= seq!["nickname"@, "unique_id"@]);
        }
        let user_id = or_empty_string(get_string_field(d, &k1));
        let user_name = or_empty_string(get_string_field(d, &k2));
        let user_avatar = or_empty_string(find_avatar_url(json));
        if user_id.unicode_len() > 0 {
            let final_name = if user_name.unicode_len() == 0 {
                user_id.clone()
            } else {
                user_name
            };
            return Ok(UserInfo { user_id, user_name: final_name, user_avatar });
        }
    }
    Err(RecorderError::ApiError { error: to_string_of("User info not found in passport response") })
}

/// The answer to a passport user info request: an error naming the status
/// (`status_text`, as the HTTP client prints it) when the status is not a
/// success, else the user it reads (`passport_user_info`).
pub fn passport_answer(success: bool, status_text: &str, json: &JsonValue) -> (r: Result<UserInfo, RecorderError>)
    ensures
        !success ==> (r matches Err(RecorderError::ApiError { error }) && error@
            == "Failed to fetch TikTok passport info, status: "@ + status_text@),
        success ==> match r {
            Ok(u) => passport_user(json@) == Some(user_view(u)),
            Err(e) => passport_user(json@) is None && (e matches RecorderError::ApiError { error }
                && error@ == passport_missing_message()),
        },
{
    if !success {
        return Err(RecorderError::ApiError { error: concat_str("Failed to fetch TikTok passport info, status: ", status_text) });
    }
    passport_user_info(json)
}

/// The message of an account info answer without `data`.
pub open spec fn account_info_missing_message() -> Seq<char> {
    "User info not found in account info response"@
}

/// The message of an account info answer without a user id.
pub open spec fn account_info_no_id_message() -> Seq<char> {
    "User id not found in account info response"@
}

/// The user an account info answer names, when `data` is an object: id from
/// `user_id_str`, `user_id`, `uid` or `id`; name from `screen_name`,
/// `username`, `unique_id` or `nickname`, else the id; avatar the string
/// `avatar_url`, else empty.
pub open spec fn account_info_user(d: Seq<(Seq<char>, JsonData)>) -> (Seq<char>, Seq<char>, Seq<char>) {
    let id = or_empty(string_field(d, seq!["user_id_str"@, "user_id"@, "uid"@, "id"@]));
    let name = or_empty(string_field(d, seq!["screen_name"@, "username"@, "unique_id"@, "nickname"@]));
    let avatar = or_empty(as_str_opt(crate::json::entry_get(d, "avatar_url"@)));
    (id, name_or_id(name, id), avatar)
}

/// Reads the user out of an account info answer: an error when `data` is
/// not an object or names no user id, else `account_info_user`.
pub fn account_info_user_info(json: &JsonValue) -> (r: Result<UserInfo, RecorderError>)
    ensures
        match members(get(json@, "data"@)) {
            Some(d) => if account_info_user(d).0.len() > 0 {
                r matches Ok(u) && user_view(u) == account_info_user(d)
            } else {
                r matches Err(RecorderError::ApiError { error }) && error@ == account_info_no_id_message()
            },
            None => r matches Err(RecorderError::ApiError { error }) && error@
                == account_info_missing_message(),
        },
{
    let d = match json_get(json, "data") {
        Some(JsonValue::Object(d)) => d,
        _ => {
            return Err(RecorderError::ApiError { error: to_string_of("User info not found in account info response") });
        },
    };
    proof {
        crate::json::lemma_object_data(*d);
    }
    let k1: [&str; 4] = ["user_id_str", "user_id", "uid", "id"];
    let k2: [&str; 4] = ["screen_name", "username", "unique_id", "nickname"];
    proof {
        assert(strs(k1@) =~= seq!["user_id_str"@, "user_id"@, "uid"@, "id"@]);
        assert(strs(k2@) =~= seq!["screen_name"@, "username"@, "unique_id"@, "nickname"@]);
    }
    let user_id = or_empty_string(get_string_field(d, &k1));
    let user_name = or_empty_string(get_string_field(d, &k2));
    let user_avatar = match crate::json::entry_get_exec(d, "avatar_url") {
        Some(v) => or_empty_string(json_as_str(v)),
        None => or_empty_string(None),
    };
    if user_id.unicode_len() == 0 {
        return Err(RecorderError::ApiError { error: to_string_of("User id not found in account info response") });
    }
    let final_name = if user_name.unicode_len() == 0 {
        user_id.clone()
    } else {
        user_name
    };
    Ok(UserInfo { user_id, user_name: final_name, user_avatar })
}

} // verus!

verus! {

/// The text of a page TikTok shows where it does not operate.
pub open spec fn region_block_text() -> Seq<char> {
    "We regret to inform you that we have discontinued operating TikTok"@
}

/// The message of a page from a region TikTok does not serve.
pub open spec fn region_block_message() -> Seq<char> {
    "TikTok is not available in this region. Please use a different proxy."@
}

/// The home page says TikTok does not operate where the request came from;
/// then its error.
pub fn region_block_error(html: &str) -> (r: Option<RecorderError>)
    ensures
        match r {
            Some(e) => contains(html@, region_block_text()) && (e matches RecorderError::ApiError { error }
                && error@ == region_block_message()),
            None => !contains(html@, region_block_text()),
        },
{
    let h = chars_of(html);
    let t = chars_of("We regret to inform you that we have discontinued operating TikTok");
    if contains_chars(h.as_slice(), t.as_slice()) {
        Some(RecorderError::ApiError { error: to_string_of("TikTok is not available in this region. Please use a different proxy.") })
    } else {
        None
    }
}

/// The message of a page without state.
pub open spec fn no_state_message() -> Seq<char> {
    "Failed to extract TikTok state - please check if your network can access TikTok normally (proxy might be needed)."@
}

/// The message of a page whose state names no user.
pub open spec fn no_page_user_message() -> Seq<char> {
    "Could not find user info in TikTok page"@
}

/// The user of the first entry of a state's `UserModule.users`: id from
/// `id` or `secUid`, name from `nickname` or `uniqueId`, the avatar found in
/// it; only when id and name are both there.
pub open spec fn user_module_user(state: JsonData) -> Option<(Seq<char>, Seq<char>, Seq<char>)> {
    match members(crate::json::get_opt(get(state, "UserModule"@), "users"@)) {
        Some(users) => if users.len() > 0 {
            let u = users[0].1;
            let m = match members(Some(u)) {
                Some(x) => x,
                None => Seq::<(Seq<char>, JsonData)>::empty(),
            };
            let id = or_empty(string_field(m, seq!["id"@, "secUid"@]));
            let name = or_empty(string_field(m, seq!["nickname"@, "uniqueId"@]));
            if id.len() > 0 && name.len() > 0 {
                Some((id, name, or_empty(avatar_in(u))))
            } else {
                None
            }
        } else {
            None
        },
        None => None,
    }
}

/// The user a page's state names: the current user, else the first of
/// `UserModule.users`.
pub open spec fn page_user(state: JsonData) -> Option<(Seq<char>, Seq<char>, Seq<char>)> {
    match current_user(state) {
        Some(u) => Some(u),
        None => user_module_user(state),
    }
}

/// Exec `user_module_user`.
fn user_module_user_exec(state: &JsonValue) -> (r: Option<UserInfo>)
    ensures
        match r {
            Some(u) => user_module_user(state@) == Some(user_view(u)),
            None => user_module_user(state@) is None,
        },
{
    let users = crate::json::json_get_opt(json_get(state, "UserModule"), "users");
    if let Some(JsonValue::Object(us)) = users {
        proof {
            crate::json::lemma_object_data(*us);
        }
        if us.len() > 0 {
            let u = &us[0].1;
            let empty: Vec<(String, JsonValue)> = Vec::new();
            let m: &Vec<(String, JsonValue)> = match u {
                JsonValue::Object(x) => x,
                _ => &empty,
            };
            proof {
                crate::json::lemma_object_data(*m);
                crate::json::lemma_object_data(empty);
                assert(entries_data(empty@) =~= Seq::<(Seq<char>, JsonData)>::empty());
            }
            let k1: [&str; 2] = ["id", "secUid"];
            let k2: [&str; 2] = ["nickname", "uniqueId"];
            proof {
                assert(strs(k1@) =~= seq!["id"@, "secUid"@]);
                assert(strs(k2@) =~= seq!["nickname"@, "uniqueId"@]);
            }
            let user_id = or_empty_string(get_string_field(m, &k1));
            let user_name = or_empty_string(get_string_field(m, &k2));
            let user_avatar = or_empty_string(find_avatar_url(u));
            if user_id.unicode_len() > 0 && user_name.unicode_len() > 0 {
                return Some(UserInfo { user_id, user_name, user_avatar });
            }
        }
    }
    None
}

/// `r` is what a home page's state says of the user (`page_user`): an
/// error when the page has no state or its state names no user.
pub open spec fn page_user_answer(html: Seq<char>, r: Result<UserInfo, RecorderError>) -> bool {
    match crate::cookies::first_some(crate::tiktok_page::state_candidates(html)) {
        Some(state) => match page_user(state) {
            Some(u) => r matches Ok(x) && user_view(x) == u,
            None => r matches Err(RecorderError::ApiError { error }) && error@ == no_page_user_message(),
        },
        None => r matches Err(RecorderError::ApiError { error }) && error@ == no_state_message(),
    }
}

/// The user a home page shows (checked for the region block first, by
/// `region_block_error`): an error when the page has no state or its state
/// names no user (`page_user_answer`).
pub fn user_info_from_page(html: &str) -> (r: Result<UserInfo, RecorderError>)
    ensures
        page_user_answer(html@, r),
{
    let state = match crate::tiktok_page::extract_state_value(html) {
        Some(s) => s,
        None => {
            return Err(RecorderError::ApiError {
                error: to_string_of("Failed to extract TikTok state - please check if your network can access TikTok normally (proxy might be needed)."),
            });
        },
    };
    if let Some(u) = find_current_user_info(&state) {
        return Ok(u);
    }
    match user_module_user_exec(&state) {
        Some(u) => Ok(u),
        None => Err(RecorderError::ApiError { error: to_string_of("Could not find user info in TikTok page") }),
    }
}

/// `s` without its leading `@` characters.
pub open spec fn strip_ats(s: Seq<char>) -> Seq<char>
    decreases s.len(),
{
    if s.len() > 0 && s[0] == '@' {
        strip_ats(s.drop_first())
    } else {
        s
    }
}

/// Exec `strip_ats` of the trimmed text.
fn trimmed_handle(s: &str) -> (r: String)
    ensures
        r@ == strip_ats(trim(s@)),
{
    let c = chars_of(s);
    let t = trim_chars(c.as_slice());
    let mut i: usize = 0;
    assert(t@.skip(0) =~= t@);
    while i < t.len() && t[i] == '@'
        invariant
            i <= t.len(),
            strip_ats(t@.skip(i as int)) == strip_ats(t@),
        decreases t.len() - i,
    {
        assert(t@.skip(i as int).drop_first() =~= t@.skip(i as int + 1));
        i = i + 1;
    }
    let rest = crate::text::slice_chars(t.as_slice(), i, t.len());
    assert(rest@ =~= t@.skip(i as int));
    string_of(rest.as_slice())
}

/// The handle an account info request is made for: the account's trimmed
/// name without leading `@`, else the same of its id.
pub open spec fn account_handle(name: Seq<char>, id: Seq<char>) -> Seq<char> {
    if strip_ats(trim(name)).len() > 0 {
        strip_ats(trim(name))
    } else {
        strip_ats(trim(id))
    }
}

/// Exec `account_handle`.
pub fn account_info_handle(account: &Account) -> (r: String)
    ensures
        r@ == account_handle(account.name@, account.id@),
{
    let h = trimmed_handle(account.name.as_str());
    if h.unicode_len() > 0 {
        h
    } else {
        trimmed_handle(account.id.as_str())
    }
}

// ---------------------------------------------------------------------------
// Proxy and cookie checks
// ---------------------------------------------------------------------------

#[derive(Debug)]
/// Whether TikTok's home page can be reached (through the proxy, when one
/// is set).
pub struct TikTokProxyCheck {
    pub ok: bool,
    pub status: u16,
    pub waf: bool,
    pub proxy: Option<String>,
    pub message: String,
}

#[derive(Debug)]
/// Whether an account's cookies still log in.
pub struct TikTokCookieCheck {
    pub ok: bool,
    pub user_id: String,
    pub user_name: String,
    pub message: String,
}

/// The message of a proxy check: `ok`; else `status <status>` for an
/// unsuccessful status; else `waf` for a WAF wait page.
pub open spec fn proxy_check_message(success: bool, status_text: Seq<char>, waf: bool) -> Seq<char> {
    if success && !waf {
        "ok"@
    } else if !success {
        "status "@ + status_text
    } else if waf {
        "waf"@
    } else {
        "unexpected"@
    }
}

/// The result of a proxy check from the home page's answer: its status code,
/// whether that is a success, how it prints (`status_text`), its body and
/// the proxy used. Fine when the status is a success and the page is no WAF
/// wait page.
pub fn proxy_check_result(
    success: bool,
    status: u16,
    status_text: &str,
    html: &str,
    proxy: Option<String>,
) -> (r: TikTokProxyCheck)
    ensures
        r.waf == crate::tiktok::waf_wait_page(html@),
        r.ok == (success && !r.waf),
        r.status == status,
        opt_view(r.proxy) == opt_view(proxy),
        r.message@ == proxy_check_message(success, status_text@, r.waf),
{
    let waf = crate::tiktok::is_waf_wait_page(html);
    let ok = success && !waf;
    let message = if ok {
        to_string_of("ok")
    } else if !success {
        concat_str("status ", status_text)
    } else if waf {
        to_string_of("waf")
    } else {
        to_string_of("unexpected")
    };
    TikTokProxyCheck { ok, status, waf, proxy, message }
}

/// A cookie check that needs no request: for an account whose cookies are
/// blank, a failure saying so.
pub fn cookie_check_without_request(account: &Account) -> (r: Option<TikTokCookieCheck>)
    ensures
        match r {
            Some(c) => trim(account.cookies@).len() == 0 && !c.ok && c.user_id@.len() == 0
                && c.user_name@.len() == 0 && c.message@ == "cookies empty"@,
            None => trim(account.cookies@).len() > 0,
        },
{
    let c = chars_of(account.cookies.as_str());
    let t = trim_chars(c.as_slice());
    if t.len() == 0 {
        Some(TikTokCookieCheck {
            ok: false,
            user_id: or_empty_string(None),
            user_name: or_empty_string(None),
            message: to_string_of("cookies empty"),
        })
    } else {
        None
    }
}

/// A cookie check from the account info request: its user when it gave
/// one, else a failure with the error's text.
pub fn cookie_check_result(info: Result<UserInfo, String>) -> (r: TikTokCookieCheck)
    ensures
        match info {
            Ok(u) => r.ok && r.user_id@ == u.user_id@ && r.user_name@ == u.user_name@ && r.message@ == "ok"@,
            Err(e) => !r.ok && r.user_id@.len() == 0 && r.user_name@.len() == 0 && r.message@ == e@,
        },
{
    match info {
        Ok(u) => TikTokCookieCheck { ok: true, user_id: u.user_id, user_name: u.user_name, message: to_string_of("ok") },
        Err(e) => TikTokCookieCheck { ok: false, user_id: or_empty_string(None), user_name: or_empty_string(None), message: e },
    }
}


/// What finding the user of a TikTok account needs next: the passport user
/// info, the passport account info, or nothing more (the answer).
#[derive(Debug)]
pub enum UserInfoNext {
    AskPassport,
    AskPassportAccount,
    Done(Result<UserInfo, RecorderError>),
}

/// The message of a home page that did not load.
pub open spec fn home_failed_message(status: Seq<char>) -> Seq<char> {
    "Failed to fetch TikTok, status: "@ + status
}

/// What an endpoint asked for the user gave: not asked yet, no answer (the
/// request or the reading of its JSON failed), or an answer: whether its
/// HTTP status is a success, the status text and the JSON body.
#[derive(Debug)]
pub enum EndpointAnswer {
    NotAsked,
    Failed,
    Answered { success: bool, status: String, body: JsonValue },
}

/// The user a passport user info answer gives (`passport_user`), when it
/// came with a success status.
pub open spec fn passport_found(a: EndpointAnswer) -> Option<(Seq<char>, Seq<char>, Seq<char>)> {
    match a {
        EndpointAnswer::Answered { success, body, .. } => if success {
            passport_user(body@)
        } else {
            None
        },
        _ => None,
    }
}

/// The user an account info answer gives (`account_info_user`, when it
/// names a user id), when it came with a success status.
pub open spec fn account_found(a: EndpointAnswer) -> Option<(Seq<char>, Seq<char>, Seq<char>)> {
    match a {
        EndpointAnswer::Answered { success, body, .. } => if success {
            match members(get(body@, "data"@)) {
                Some(d) => if account_info_user(d).0.len() > 0 {
                    Some(account_info_user(d))
                } else {
                    None
                },
                None => None,
            }
        } else {
            None
        },
        _ => None,
    }
}

/// The first member that is some, when there is one, is one of the members.
proof fn lemma_first_some_member<A>(s: Seq<Option<A>>)
    ensures
        crate::cookies::first_some(s) matches Some(x) ==> exists|i: int| 0 <= i < s.len() && s[i] == Some(x),
    decreases s.len(),
{
    if s.len() > 0 {
        lemma_first_some_member(s.drop_last());
        if let Some(x) = crate::cookies::first_some(s) {
            if let Some(y) = crate::cookies::first_some(s.drop_last()) {
                let i = choose|i: int| 0 <= i < s.drop_last().len() && s.drop_last()[i] == Some(y);
                assert(s[i] == Some(x));
            } else {
                assert(s[s.len() - 1] == Some(x));
            }
        }
    }
}

/// A user a page's state names has a non-empty id and name.
proof fn lemma_page_user_named(state: JsonData)
    ensures
        page_user(state) matches Some(u) ==> u.0.len() > 0 && u.1.len() > 0,
{
    if let Some(u) = current_user(state) {
        let first = match crate::tiktok_data::app_context_user(state) {
            Some(a) => crate::tiktok_data::user_from(a, seq!["uid"@, "id"@]),
            None => None,
        };
        if first is None {
            if let JsonData::Object(m) = state {
                let s = m.map_values(|e: (Seq<char>, JsonData)| crate::tiktok_data::scope_user_info(e.1));
                lemma_first_some_member(s);
                let i = choose|i: int| 0 <= i < s.len() && s[i] == Some(u);
                assert(s[i] == crate::tiktok_data::scope_user_info(m[i].1));
            }
        }
    }
}

/// One step of finding the user of a TikTok account, given the home page
/// (whether it loaded, its status text and its text) and what the two
/// passport endpoints answered so far: a home page that did not load or
/// that shows the region block ends with that error; then the passport user
/// info is asked, then the passport account info, and the first user found
/// is the answer (`passport_found`, `account_found`); when neither gave
/// one, the page's state decides (`page_user_answer`). Every user found has
/// a non-empty id and name.
pub fn user_info_step(
    home_ok: bool,
    home_status: &str,
    html: &str,
    passport: EndpointAnswer,
    account: EndpointAnswer,
) -> (r: UserInfoNext)
    ensures
        !home_ok ==> (r matches UserInfoNext::Done(Err(RecorderError::ApiError { error })) && error@
            == home_failed_message(home_status@)),
        home_ok && contains(html@, region_block_text()) ==> (r matches UserInfoNext::Done(
            Err(RecorderError::ApiError { error }),
        ) && error@ == region_block_message()),
        home_ok && !contains(html@, region_block_text()) ==> if passport is NotAsked {
            r is AskPassport
        } else {
            match passport_found(passport) {
                Some(x) => r matches UserInfoNext::Done(Ok(u)) && user_view(u) == x,
                None => if account is NotAsked {
                    r is AskPassportAccount
                } else {
                    match account_found(account) {
                        Some(x) => r matches UserInfoNext::Done(Ok(u)) && user_view(u) == x,
                        None => r matches UserInfoNext::Done(x) && page_user_answer(html@, x),
                    }
                },
            }
        },
        r matches UserInfoNext::Done(Ok(u)) ==> u.user_id@.len() > 0 && u.user_name@.len() > 0,
{
    if !home_ok {
        return UserInfoNext::Done(
            Err(RecorderError::ApiError { error: concat_str("Failed to fetch TikTok, status: ", home_status) }),
        );
    }
    if let Some(e) = region_block_error(html) {
        return UserInfoNext::Done(Err(e));
    }
    match passport {
        EndpointAnswer::NotAsked => {
            return UserInfoNext::AskPassport;
        },
        EndpointAnswer::Failed => {},
        EndpointAnswer::Answered { success, status, body } => {
            if let Ok(u) = passport_answer(success, status.as_str(), &body) {
                return UserInfoNext::Done(Ok(u));
            }
        },
    }
    match account {
        EndpointAnswer::NotAsked => {
            return UserInfoNext::AskPassportAccount;
        },
        EndpointAnswer::Failed => {},
        EndpointAnswer::Answered { success, body, .. } => {
            if success {
                if let Ok(u) = account_info_user_info(&body) {
                    return UserInfoNext::Done(Ok(u));
                }
            }
        },
    }
    let r = user_info_from_page(html);
    proof {
        if let Some(state) = crate::cookies::first_some(crate::tiktok_page::state_candidates(html@)) {
            lemma_page_user_named(state);
        }
    }
    UserInfoNext::Done(r)
}

} // verus!
