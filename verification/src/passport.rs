//! The Douyin passport settings and the Douyin QR-login overrides, as
//! changes to the process environment and to the configuration.
use vstd::prelude::*;
use crate::config::{
    action_view, actions_view, non_blank_of, opt_view, passport_env_action, passport_env_change,
    Config, DouyinPassportConfig, DouyinQrLoginOverrides, EnvAction, QrLoginConfig,
};
use crate::text::{chars_of, string_of, to_string_of, trim, trim_chars};

verus! {

/// Pairs of strings as pairs of character sequences.
pub open spec fn pairs_view(v: Seq<(String, String)>) -> Seq<(Seq<char>, Seq<char>)> {
    v.map_values(|p: (String, String)| (p.0@, p.1@))
}

/// Optional strings as optional character sequences.
pub open spec fn opts_view(v: Seq<Option<String>>) -> Seq<Option<Seq<char>>> {
    v.map_values(|o: Option<String>| opt_view(o))
}

/// Appends the pair `(k, v)`.
fn push_pair(out: &mut Vec<(String, String)>, k: &str, v: &String)
    ensures
        pairs_view(final(out)@) == pairs_view(old(out)@).push((k@, v@)),
{
    let ghost before = pairs_view(out@);
    out.push((to_string_of(k), v.clone()));
    assert(pairs_view(out@) =~= before.push((k@, v@)));
}

/// The passport variables and the configured values they take, in the order
/// in which they are applied.
pub open spec fn passport_env_pairs(c: DouyinPassportConfig) -> Seq<(Seq<char>, Seq<char>)> {
    seq![
        ("DOUYIN_PASSPORT_PROVIDER_URL"@, c.provider_url@),
        ("DOUYIN_SIGN"@, c.sign@),
        ("DOUYIN_QS"@, c.qs@),
        ("DOUYIN_PASSPORT_JSSDK_VERSION"@, c.passport_jssdk_version@),
        ("DOUYIN_PASSPORT_JSSDK_TYPE"@, c.passport_jssdk_type@),
        ("DOUYIN_IS_FROM_TTACCOUNTSDK"@, c.is_from_ttaccountsdk@),
        ("DOUYIN_AID"@, c.aid@),
        ("DOUYIN_LANGUAGE"@, c.language@),
        ("DOUYIN_ACCOUNT_APP_LANGUAGE"@, c.account_app_language@),
        ("DOUYIN_NEXT"@, c.next@),
        ("DOUYIN_NEED_SHORT_URL"@, c.need_short_url@),
        ("DOUYIN_NEED_LOGO"@, c.need_logo@),
        ("DOUYIN_IS_NEW_LOGIN"@, c.is_new_login@),
        ("DOUYIN_IS_FROM_IESACCOUNTSAAS"@, c.is_from_iesaccountsaas@),
        ("DOUYIN_ACCOUNT_SDK_SOURCE"@, c.account_sdk_source@),
        ("DOUYIN_ACCOUNT_SDK_SOURCE_INFO"@, c.account_sdk_source_info@),
        ("DOUYIN_SERVICE"@, c.service@),
        ("DOUYIN_P_UI"@, c.p_ui@),
        ("DOUYIN_P_CA"@, c.p_ca@),
        ("DOUYIN_P_CA_REAL"@, c.p_ca_real@),
        ("DOUYIN_P_JS_V"@, c.p_js_v@),
        ("DOUYIN_P_JS_T"@, c.p_js_t@),
        ("DOUYIN_P_ZT"@, c.p_zt@),
        ("DOUYIN_P_VER"@, c.p_ver@),
        ("DOUYIN_P_VER_REAL"@, c.p_ver_real@),
        ("DOUYIN_REQUEST_HOST"@, c.request_host@),
        ("DOUYIN_P_BD"@, c.p_bd@),
        ("DOUYIN_P_TS"@, c.p_ts@),
        ("DOUYIN_P_NO"@, c.p_no@),
        ("DOUYIN_BIZ_TRACE_ID"@, c.biz_trace_id@),
        ("DOUYIN_DEVICE_PLATFORM"@, c.device_platform@),
        ("DOUYIN_VERIFY_FP"@, c.verify_fp@),
        ("DOUYIN_FP"@, c.fp@),
        ("DOUYIN_MS_TOKEN"@, c.ms_token@),
        ("DOUYIN_A_BOGUS"@, c.a_bogus@),
        ("DOUYIN_X_TT_PASSPORT_CSRF_TOKEN"@, c.x_tt_passport_csrf_token@),
        ("DOUYIN_X_TT_PASSPORT_AID_SIGN"@, c.x_tt_passport_aid_sign@),
        ("DOUYIN_X_TT_PASSPORT_TRACE_ID"@, c.x_tt_passport_trace_id@),
        ("DOUYIN_X_TT_PASSPORT_VERIFY_PORTRAIT"@, c.x_tt_passport_verify_portrait@),
        ("DOUYIN_X_TT_SESSION_DTRAIT"@, c.x_tt_session_dtrait@),
        ("DOUYIN_QR_ORIGIN"@, c.qr_origin@),
        ("DOUYIN_QR_REFERER"@, c.qr_referer@),
    ]
}

/// The value found for the `k`-th variable; `None` past the end of `current`.
pub open spec fn current_at(current: Seq<Option<Seq<char>>>, k: int) -> Option<Seq<char>> {
    if 0 <= k < current.len() {
        current[k]
    } else {
        None
    }
}

/// The changes made to the variables of `pairs`, the `k`-th of which holds
/// `current_at(current, k)`: each one that already holds a non-blank value is
/// left alone, every other one is set or removed (`passport_env_change`).
pub open spec fn passport_env_plan(
    pairs: Seq<(Seq<char>, Seq<char>)>,
    current: Seq<Option<Seq<char>>>,
) -> Seq<(Seq<char>, Option<Seq<char>>)>
    decreases pairs.len(),
{
    if pairs.len() == 0 {
        Seq::<(Seq<char>, Option<Seq<char>>)>::empty()
    } else {
        let prev = passport_env_plan(pairs.drop_last(), current);
        match passport_env_change(current_at(current, pairs.len() - 1), pairs.last().1) {
            Some(v) => prev.push((pairs.last().0, v)),
            None => prev,
        }
    }
}

/// The QR-login variables and the override values they take, in order.
pub open spec fn qr_env_pairs(d: DouyinQrLoginOverrides) -> Seq<(Seq<char>, Seq<char>)> {
    seq![
        ("DOUYIN_PASSPORT_USER_AGENT"@, d.user_agent@),
        ("DOUYIN_USER_AGENT"@, d.user_agent@),
        ("DOUYIN_DEVICE_PLATFORM"@, d.device_platform@),
        ("DOUYIN_QR_ORIGIN"@, d.qr_origin@),
        ("DOUYIN_QR_REFERER"@, d.qr_referer@),
        ("DOUYIN_PASSPORT_PARAMS_RAW"@, d.params_raw@),
        ("DOUYIN_PASSPORT_PARAMS_RAW_STATUS"@, d.params_raw_status@),
        ("DOUYIN_PASSPORT_CHALLENGE_PARAMS_RAW"@, d.challenge_params_raw@),
        ("DOUYIN_PASSPORT_CHALLENGE_BODY"@, d.challenge_body@),
        ("DOUYIN_PASSPORT_CHALLENGE_CONTENT_TYPE"@, d.challenge_content_type@),
        ("DOUYIN_X_TT_PASSPORT_CSRF_TOKEN"@, d.x_tt_passport_csrf_token@),
        ("DOUYIN_X_TT_PASSPORT_AID_SIGN"@, d.x_tt_passport_aid_sign@),
        ("DOUYIN_X_TT_PASSPORT_TRACE_ID"@, d.x_tt_passport_trace_id@),
        ("DOUYIN_X_TT_PASSPORT_VERIFY_PORTRAIT"@, d.x_tt_passport_verify_portrait@),
        ("DOUYIN_X_TT_SESSION_DTRAIT"@, d.x_tt_session_dtrait@),
        ("DOUYIN_SIGN"@, d.sign@),
        ("DOUYIN_QS"@, d.qs@),
    ]
}

/// The variables of `pairs` whose value is not blank, each set to its
/// trimmed value.
pub open spec fn set_non_blank(pairs: Seq<(Seq<char>, Seq<char>)>) -> Seq<(Seq<char>, Option<Seq<char>>)>
    decreases pairs.len(),
{
    if pairs.len() == 0 {
        Seq::<(Seq<char>, Option<Seq<char>>)>::empty()
    } else {
        let prev = set_non_blank(pairs.drop_last());
        if trim(pairs.last().1).len() > 0 {
            prev.push((pairs.last().0, Some(trim(pairs.last().1))))
        } else {
            prev
        }
    }
}

/// A configured value replaced by an override: the trimmed override when it
/// is not blank, else the configured value.
pub open spec fn overridden(current: Seq<char>, v: Seq<char>) -> Seq<char> {
    if trim(v).len() > 0 {
        trim(v)
    } else {
        current
    }
}

/// The fingerprints of the QR-login overrides after filling: a blank
/// `verify_fp` takes the trimmed `fp`, or, when that is blank too, `fresh`,
/// which `fp` then takes as well; a blank `fp` beside a set `verify_fp` takes
/// the trimmed `verify_fp`. The flag says whether anything changed.
pub open spec fn filled_fingerprints(verify_fp: Seq<char>, fp: Seq<char>, fresh: Seq<char>) -> (
    Seq<char>,
    Seq<char>,
    bool,
) {
    if trim(verify_fp).len() > 0 {
        if trim(fp).len() == 0 {
            (verify_fp, trim(verify_fp), true)
        } else {
            (verify_fp, fp, false)
        }
    } else if trim(fp).len() > 0 {
        (trim(fp), fp, true)
    } else {
        (fresh, fresh, true)
    }
}

/// Applies `set_non_blank` to a list of pairs.
fn set_non_blank_actions(pairs: &Vec<(String, String)>) -> (r: Vec<EnvAction>)
    ensures
        actions_view(r@) == set_non_blank(pairs_view(pairs@)),
{
    let ghost pv = pairs_view(pairs@);
    let mut out: Vec<EnvAction> = Vec::new();
    let mut i: usize = 0;
    assert(pv.take(0) =~= Seq::<(Seq<char>, Seq<char>)>::empty());
    while i < pairs.len()
        invariant
            i <= pairs.len(),
            pv == pairs_view(pairs@),
            actions_view(out@) == set_non_blank(pv.take(i as int)),
        decreases pairs.len() - i,
    {
        assert(pv.take(i as int + 1).drop_last() =~= pv.take(i as int));
        assert(pv[i as int] == (pairs@[i as int].0@, pairs@[i as int].1@));
        match non_blank_of(pairs[i].1.as_str()) {
            Some(v) => {
                let ghost before = actions_view(out@);
                let a = EnvAction::Assign { key: pairs[i].0.clone(), value: v };
                out.push(a);
                assert(actions_view(out@) =~= before.push(action_view(a)));
            },
            None => {},
        }
        i = i + 1;
    }
    assert(pv.take(pairs.len() as int) =~= pv);
    out
}

/// Exec `overridden`.
fn override_value(current: &String, v: &String) -> (r: String)
    ensures
        r@ == overridden(current@, v@),
{
    match non_blank_of(v.as_str()) {
        Some(t) => t,
        None => current.clone(),
    }
}

/// Fills the fingerprints of the QR-login overrides (`filled_fingerprints`),
/// `fresh` standing for a newly generated fingerprint; the result says
/// whether anything changed. The other overrides stay as they are.
pub fn fill_qr_fingerprints(d: &mut DouyinQrLoginOverrides, fresh: &str) -> (updated: bool)
    ensures
        (final(d).verify_fp@, final(d).fp@, updated) == filled_fingerprints(
            old(d).verify_fp@,
            old(d).fp@,
            fresh@,
        ),
        *final(d) == (DouyinQrLoginOverrides {
            verify_fp: final(d).verify_fp,
            fp: final(d).fp,
            ..*old(d)
        }),
{
    let v = non_blank_of(d.verify_fp.as_str());
    let f = non_blank_of(d.fp.as_str());
    match v {
        Some(tv) => match f {
            Some(_) => false,
            None => {
                d.fp = tv;
                true
            },
        },
        None => match f {
            Some(tf) => {
                d.verify_fp = tf;
                true
            },
            None => {
                d.verify_fp = to_string_of(fresh);
                d.fp = to_string_of(fresh);
                true
            },
        },
    }
}

impl Config {
    /// The passport variables with their configured values
    /// (`passport_env_pairs`).
    pub fn passport_env_entries(&self) -> (r: Vec<(String, String)>)
        ensures
            pairs_view(r@) == passport_env_pairs(self.douyin_passport),
    {
        let c = &self.douyin_passport;
        let mut out: Vec<(String, String)> = Vec::new();
        push_pair(&mut out, "DOUYIN_PASSPORT_PROVIDER_URL", &c.provider_url);
        push_pair(&mut out, "DOUYIN_SIGN", &c.sign);
        push_pair(&mut out, "DOUYIN_QS", &c.qs);
        push_pair(&mut out, "DOUYIN_PASSPORT_JSSDK_VERSION", &c.passport_jssdk_version);
        push_pair(&mut out, "DOUYIN_PASSPORT_JSSDK_TYPE", &c.passport_jssdk_type);
        push_pair(&mut out, "DOUYIN_IS_FROM_TTACCOUNTSDK", &c.is_from_ttaccountsdk);
        push_pair(&mut out, "DOUYIN_AID", &c.aid);
        push_pair(&mut out, "DOUYIN_LANGUAGE", &c.language);
        push_pair(&mut out, "DOUYIN_ACCOUNT_APP_LANGUAGE", &c.account_app_language);
        push_pair(&mut out, "DOUYIN_NEXT", &c.next);
        push_pair(&mut out, "DOUYIN_NEED_SHORT_URL", &c.need_short_url);
        push_pair(&mut out, "DOUYIN_NEED_LOGO", &c.need_logo);
        push_pair(&mut out, "DOUYIN_IS_NEW_LOGIN", &c.is_new_login);
        push_pair(&mut out, "DOUYIN_IS_FROM_IESACCOUNTSAAS", &c.is_from_iesaccountsaas);
        push_pair(&mut out, "DOUYIN_ACCOUNT_SDK_SOURCE", &c.account_sdk_source);
        push_pair(&mut out, "DOUYIN_ACCOUNT_SDK_SOURCE_INFO", &c.account_sdk_source_info);
        push_pair(&mut out, "DOUYIN_SERVICE", &c.service);
        push_pair(&mut out, "DOUYIN_P_UI", &c.p_ui);
        push_pair(&mut out, "DOUYIN_P_CA", &c.p_ca);
        push_pair(&mut out, "DOUYIN_P_CA_REAL", &c.p_ca_real);
        push_pair(&mut out, "DOUYIN_P_JS_V", &c.p_js_v);
        push_pair(&mut out, "DOUYIN_P_JS_T", &c.p_js_t);
        push_pair(&mut out, "DOUYIN_P_ZT", &c.p_zt);
        push_pair(&mut out, "DOUYIN_P_VER", &c.p_ver);
        push_pair(&mut out, "DOUYIN_P_VER_REAL", &c.p_ver_real);
        push_pair(&mut out, "DOUYIN_REQUEST_HOST", &c.request_host);
        push_pair(&mut out, "DOUYIN_P_BD", &c.p_bd);
        push_pair(&mut out, "DOUYIN_P_TS", &c.p_ts);
        push_pair(&mut out, "DOUYIN_P_NO", &c.p_no);
        push_pair(&mut out, "DOUYIN_BIZ_TRACE_ID", &c.biz_trace_id);
        push_pair(&mut out, "DOUYIN_DEVICE_PLATFORM", &c.device_platform);
        push_pair(&mut out, "DOUYIN_VERIFY_FP", &c.verify_fp);
        push_pair(&mut out, "DOUYIN_FP", &c.fp);
        push_pair(&mut out, "DOUYIN_MS_TOKEN", &c.ms_token);
        push_pair(&mut out, "DOUYIN_A_BOGUS", &c.a_bogus);
        push_pair(&mut out, "DOUYIN_X_TT_PASSPORT_CSRF_TOKEN", &c.x_tt_passport_csrf_token);
        push_pair(&mut out, "DOUYIN_X_TT_PASSPORT_AID_SIGN", &c.x_tt_passport_aid_sign);
        push_pair(&mut out, "DOUYIN_X_TT_PASSPORT_TRACE_ID", &c.x_tt_passport_trace_id);
        push_pair(&mut out, "DOUYIN_X_TT_PASSPORT_VERIFY_PORTRAIT", &c.x_tt_passport_verify_portrait);
        push_pair(&mut out, "DOUYIN_X_TT_SESSION_DTRAIT", &c.x_tt_session_dtrait);
        push_pair(&mut out, "DOUYIN_QR_ORIGIN", &c.qr_origin);
        push_pair(&mut out, "DOUYIN_QR_REFERER", &c.qr_referer);
        assert(pairs_view(out@) =~= passport_env_pairs(*c));
        out
    }

    /// The environment changes of the passport settings: `current[i]` is what
    /// the environment holds for the `i`-th variable of
    /// `passport_env_entries` (a missing entry counts as unset). A variable
    /// that already holds a non-blank value is left alone; every other one is
    /// set to the trimmed setting, or removed when the setting is blank.
    pub fn apply_douyin_passport_env(&self, current: &Vec<Option<String>>) -> (r: Vec<EnvAction>)
        ensures
            actions_view(r@) == passport_env_plan(
                passport_env_pairs(self.douyin_passport),
                opts_view(current@),
            ),
    {
        let entries = self.passport_env_entries();
        let ghost pv = pairs_view(entries@);
        let ghost cv = opts_view(current@);
        let mut out: Vec<EnvAction> = Vec::new();
        let mut i: usize = 0;
        assert(pv.take(0) =~= Seq::<(Seq<char>, Seq<char>)>::empty());
        while i < entries.len()
            invariant
                i <= entries.len(),
                pv == pairs_view(entries@),
                cv == opts_view(current@),
                actions_view(out@) == passport_env_plan(pv.take(i as int), cv),
            decreases entries.len() - i,
        {
            assert(pv.take(i as int + 1).drop_last() =~= pv.take(i as int));
            assert(pv[i as int] == (entries@[i as int].0@, entries@[i as int].1@));
            let cur: Option<String> = if i < current.len() {
                match &current[i] {
                    Some(s) => Some(s.clone()),
                    None => None,
                }
            } else {
                None
            };
            assert(opt_view(cur) == current_at(cv, i as int));
            match passport_env_action(entries[i].0.as_str(), &cur, entries[i].1.as_str()) {
                Some(a) => {
                    let ghost before = actions_view(out@);
                    out.push(a);
                    assert(actions_view(out@) =~= before.push(action_view(a)));
                },
                None => {},
            }
            i = i + 1;
        }
        assert(pv.take(entries.len() as int) =~= pv);
        out
    }

    /// Applies the Douyin QR-login overrides: each of `verify_fp`, `fp`,
    /// `ms_token`, `a_bogus`, `sign` and `qs` of the passport settings takes
    /// the trimmed override when that is not blank; the result is the
    /// variables set from the non-blank overrides (`qr_env_pairs`). The rest of
    /// the configuration stays as it is.
    pub fn apply_qr_douyin_overrides(&mut self, d: &DouyinQrLoginOverrides) -> (r: Vec<EnvAction>)
        ensures
            final(self).douyin_passport.verify_fp@ == overridden(old(self).douyin_passport.verify_fp@, d.verify_fp@),
            final(self).douyin_passport.fp@ == overridden(old(self).douyin_passport.fp@, d.fp@),
            final(self).douyin_passport.ms_token@ == overridden(old(self).douyin_passport.ms_token@, d.ms_token@),
            final(self).douyin_passport.a_bogus@ == overridden(old(self).douyin_passport.a_bogus@, d.a_bogus@),
            final(self).douyin_passport.sign@ == overridden(old(self).douyin_passport.sign@, d.sign@),
            final(self).douyin_passport.qs@ == overridden(old(self).douyin_passport.qs@, d.qs@),
            final(self).douyin_passport == (DouyinPassportConfig {
                verify_fp: final(self).douyin_passport.verify_fp,
                fp: final(self).douyin_passport.fp,
                ms_token: final(self).douyin_passport.ms_token,
                a_bogus: final(self).douyin_passport.a_bogus,
                sign: final(self).douyin_passport.sign,
                qs: final(self).douyin_passport.qs,
                ..old(self).douyin_passport
            }),
            *final(self) == (Config { douyin_passport: final(self).douyin_passport, ..*old(self) }),
            actions_view(r@) == set_non_blank(qr_env_pairs(*d)),
    {
        let verify_fp = override_value(&self.douyin_passport.verify_fp, &d.verify_fp);
        let fp = override_value(&self.douyin_passport.fp, &d.fp);
        let ms_token = override_value(&self.douyin_passport.ms_token, &d.ms_token);
        let a_bogus = override_value(&self.douyin_passport.a_bogus, &d.a_bogus);
        let sign = override_value(&self.douyin_passport.sign, &d.sign);
        let qs = override_value(&self.douyin_passport.qs, &d.qs);
        self.douyin_passport.verify_fp = verify_fp;
        self.douyin_passport.fp = fp;
        self.douyin_passport.ms_token = ms_token;
        self.douyin_passport.a_bogus = a_bogus;
        self.douyin_passport.sign = sign;
        self.douyin_passport.qs = qs;
        let mut out: Vec<(String, String)> = Vec::new();
        push_pair(&mut out, "DOUYIN_PASSPORT_USER_AGENT", &d.user_agent);
        push_pair(&mut out, "DOUYIN_USER_AGENT", &d.user_agent);
        push_pair(&mut out, "DOUYIN_DEVICE_PLATFORM", &d.device_platform);
        push_pair(&mut out, "DOUYIN_QR_ORIGIN", &d.qr_origin);
        push_pair(&mut out, "DOUYIN_QR_REFERER", &d.qr_referer);
        push_pair(&mut out, "DOUYIN_PASSPORT_PARAMS_RAW", &d.params_raw);
        push_pair(&mut out, "DOUYIN_PASSPORT_PARAMS_RAW_STATUS", &d.params_raw_status);
        push_pair(&mut out, "DOUYIN_PASSPORT_CHALLENGE_PARAMS_RAW", &d.challenge_params_raw);
        push_pair(&mut out, "DOUYIN_PASSPORT_CHALLENGE_BODY", &d.challenge_body);
        push_pair(&mut out, "DOUYIN_PASSPORT_CHALLENGE_CONTENT_TYPE", &d.challenge_content_type);
        push_pair(&mut out, "DOUYIN_X_TT_PASSPORT_CSRF_TOKEN", &d.x_tt_passport_csrf_token);
        push_pair(&mut out, "DOUYIN_X_TT_PASSPORT_AID_SIGN", &d.x_tt_passport_aid_sign);
        push_pair(&mut out, "DOUYIN_X_TT_PASSPORT_TRACE_ID", &d.x_tt_passport_trace_id);
        push_pair(&mut out, "DOUYIN_X_TT_PASSPORT_VERIFY_PORTRAIT", &d.x_tt_passport_verify_portrait);
        push_pair(&mut out, "DOUYIN_X_TT_SESSION_DTRAIT", &d.x_tt_session_dtrait);
        push_pair(&mut out, "DOUYIN_SIGN", &d.sign);
        push_pair(&mut out, "DOUYIN_QS", &d.qs);
        assert(pairs_view(out@) =~= qr_env_pairs(*d));
        set_non_blank_actions(&out)
    }

    /// Loads the QR-login overrides: first fills their fingerprints
    /// (`fill_qr_fingerprints`, with `fresh` as the newly generated one), then
    /// applies the Douyin overrides to this configuration
    /// (`apply_qr_douyin_overrides`). The result says whether the overrides
    /// changed (and are to be written back), and gives the variables to set.
    pub fn apply_qr_login_overrides(&mut self, qr: &mut QrLoginConfig, fresh: &str) -> (r: (
        bool,
        Vec<EnvAction>,
    ))
        ensures
            (final(qr).douyin.verify_fp@, final(qr).douyin.fp@, r.0) == filled_fingerprints(
                old(qr).douyin.verify_fp@,
                old(qr).douyin.fp@,
                fresh@,
            ),
            final(qr).douyin == (DouyinQrLoginOverrides {
                verify_fp: final(qr).douyin.verify_fp,
                fp: final(qr).douyin.fp,
                ..old(qr).douyin
            }),
            final(self).douyin_passport.verify_fp@ == overridden(old(self).douyin_passport.verify_fp@, final(qr).douyin.verify_fp@),
            final(self).douyin_passport.fp@ == overridden(old(self).douyin_passport.fp@, final(qr).douyin.fp@),
            final(self).douyin_passport.ms_token@ == overridden(old(self).douyin_passport.ms_token@, old(qr).douyin.ms_token@),
            final(self).douyin_passport.a_bogus@ == overridden(old(self).douyin_passport.a_bogus@, old(qr).douyin.a_bogus@),
            final(self).douyin_passport.sign@ == overridden(old(self).douyin_passport.sign@, old(qr).douyin.sign@),
            final(self).douyin_passport.qs@ == overridden(old(self).douyin_passport.qs@, old(qr).douyin.qs@),
            final(self).douyin_passport == (DouyinPassportConfig {
                verify_fp: final(self).douyin_passport.verify_fp,
                fp: final(self).douyin_passport.fp,
                ms_token: final(self).douyin_passport.ms_token,
                a_bogus: final(self).douyin_passport.a_bogus,
                sign: final(self).douyin_passport.sign,
                qs: final(self).douyin_passport.qs,
                ..old(self).douyin_passport
            }),
            *final(self) == (Config { douyin_passport: final(self).douyin_passport, ..*old(self) }),
            actions_view(r.1@) == set_non_blank(qr_env_pairs(final(qr).douyin)),
    {
        let updated = fill_qr_fingerprints(&mut qr.douyin, fresh);
        let actions = self.apply_qr_douyin_overrides(&qr.douyin);
        (updated, actions)
    }
}

} // verus!
