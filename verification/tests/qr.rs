use bsr_core::platform_qr::{qr_platform, qr_status_request, QrPlatform, QrStatusRequest};
use bsr_core::cookie_map::CookieMap;
use bsr_core::json::parse_json;
use bsr_core::tiktok_qr::{
    build_qr_params, compose_oauth_key, decode_carried_cookies, finish_qr_login,
    parse_qr_token_key, poll_start_cookies, qr_answer_is_error, qr_error_status, qr_next, qr_status_for, ticket_header, QrIdentity,
    QrNext, QrStage,
};

#[test]
fn qr_key_round_trip_of_cookie_header() {
    let key = compose_oauth_key("tok", "123", "fp", "ms", "tick", "a=1; b=2");
    assert_eq!(key, "tok|123|fp|ms|tick|YT0xOyBiPTI=");
    let parts = parse_qr_token_key(&key);
    assert_eq!(parts.token, "tok");
    assert_eq!(parts.device_id, "123");
    assert_eq!(parts.verify_fp, "fp");
    assert_eq!(parts.ms_token, "ms");
    assert_eq!(parts.ttwid_ticket, Some("tick".to_string()));
    assert_eq!(parts.bootstrap_cookie_header, "a=1; b=2");
}

#[test]
fn qr_key_without_ticket_or_cookies() {
    let key = compose_oauth_key("tok", "1", "fp", "ms", "", "");
    assert_eq!(key, "tok|1|fp|ms");
    let parts = parse_qr_token_key("only");
    assert_eq!(parts.token, "only");
    assert_eq!(parts.device_id, "");
    assert_eq!(parts.ttwid_ticket, None);
    assert_eq!(parts.bootstrap_cookie_header, "");
}

#[test]
fn carried_cookies_reject_bad_base64() {
    assert_eq!(decode_carried_cookies("!!!"), "");
    assert_eq!(decode_carried_cookies("YT0x"), "a=1");
}

#[test]
fn qr_params_order_and_token() {
    let p = build_qr_params(Some("T"), "D", "F", "M");
    let keys: Vec<&str> = p.iter().map(|(k, _)| k.as_str()).collect();
    assert_eq!(keys[0], "next");
    assert_eq!(keys[13], "token");
    assert_eq!(keys[14], "shark_extra");
    assert_eq!(p[2].1, "D");
    assert!(p[14].1.starts_with("{\"aid\":1459,"));
    assert!(p[14].1.contains("\"device_id\":\"D\""));
    let q = build_qr_params(None, "D", "F", "M");
    assert_eq!(q.len(), 14);
}

#[test]
fn qr_status_words() {
    let s = qr_status_for("scanned");
    assert_eq!((s.code, s.message.as_str()), (2, "waiting_confirm"));
    let s = qr_status_for("new");
    assert_eq!((s.code, s.message.as_str()), (1, "new"));
    let s = qr_status_for("expired");
    assert_eq!((s.code, s.message.as_str()), (3, "expired"));
    let s = qr_status_for("weird");
    assert_eq!((s.code, s.message.as_str()), (1, "weird"));
}

#[test]
fn qr_error_rate_limit() {
    let j = parse_json(r#"{"message":"error","data":{"error_code":7,"description":"x"}}"#).unwrap();
    assert!(qr_answer_is_error(&j));
    let (st, rate) = qr_error_status(&j);
    assert!(rate);
    assert_eq!((st.code, st.message.as_str()), (1, "x"));
    let j = parse_json(r#"{"message":"error","data":{"description":"Rate Limit"}}"#).unwrap();
    assert!(qr_error_status(&j).1);
    let j = parse_json(r#"{"message":"error"}"#).unwrap();
    let (st, rate) = qr_error_status(&j);
    assert!(!rate);
    assert_eq!((st.code, st.message.as_str()), (3, "TikTok QR error"));
}

#[test]
fn qr_plan_follows_links_in_order() {
    let j = parse_json(r#"{"data":{"authnext":"A","redirect_url":"R","status":"new"}}"#).unwrap();
    let m = CookieMap::new();
    match qr_next(&j, &m, QrStage::Authnext) {
        QrNext::Follow { url, next } => {
            assert_eq!(url, "A");
            assert!(next == QrStage::Redirect);
        }
        _ => panic!("expected a link"),
    }
    match qr_next(&j, &m, QrStage::Redirect) {
        QrNext::Follow { url, next } => {
            assert_eq!(url, "R");
            assert!(next == QrStage::CheckPass);
        }
        _ => panic!("expected a link"),
    }
    match qr_next(&j, &m, QrStage::CheckPass) {
        QrNext::Finish(st) => assert_eq!((st.code, st.message.as_str()), (1, "new")),
        _ => panic!("expected a result"),
    }
}

#[test]
fn qr_plan_confirmed_scan() {
    let j = parse_json(r#"{"status_code":0,"sub_status_code":2001,"data":{}}"#).unwrap();
    let mut m = CookieMap::new();
    assert!(matches!(qr_next(&j, &m, QrStage::Authnext), QrNext::AuthBroadcast));
    m.insert("sessionid", "s");
    m.insert("a", "1");
    match qr_next(&j, &m, QrStage::Authnext) {
        QrNext::Finish(st) => {
            assert_eq!(st.code, 0);
            assert_eq!(st.cookies, "a=1; sessionid=s");
        }
        _ => panic!("expected the login"),
    }
    match qr_next(&j, &m, QrStage::AfterBroadcast) {
        QrNext::Finish(st) => assert_eq!((st.code, st.message.as_str()), (2, "waiting_confirm")),
        _ => panic!("expected a result"),
    }
    let empty = parse_json("{}").unwrap();
    match qr_next(&empty, &m, QrStage::Authnext) {
        QrNext::Finish(st) => assert_eq!((st.code, st.message.as_str()), (1, "unknown")),
        _ => panic!("expected a result"),
    }
}

#[test]
fn qr_login_answer() {
    let j = parse_json(
        r#"{"data":{"token":"T","qrcode_index_url":"https://u","qrcode":"IMG","ttwid_migration_ticket":"K"}}"#,
    )
    .unwrap();
    let id = QrIdentity::from_overrides(Some("D".to_string()), Some("F".to_string()), None);
    let lines = vec!["x=1; Path=/".to_string()];
    let out = finish_qr_login(&j, &lines, None, CookieMap::new(), "M".to_string(), &id, "").unwrap();
    assert_eq!(out.info.url, "https://u");
    assert_eq!(out.info.image, Some("IMG".to_string()));
    assert_eq!(out.persist_ticket, Some("K".to_string()));
    assert_eq!(out.info.oauth_key, "T|D|F|M|K|eD0x");
    let missing = parse_json("{}").unwrap();
    assert!(finish_qr_login(&missing, &lines, None, CookieMap::new(), "M".to_string(), &id, "").is_err());
}

#[test]
fn oauth_key_reads_back_its_parts() {
    let key = compose_oauth_key("tok", "dev", "fp", "ms", "tick", "a=1; 中=2");
    let parts = parse_qr_token_key(&key);
    assert_eq!(parts.token, "tok");
    assert_eq!(parts.device_id, "dev");
    assert_eq!(parts.verify_fp, "fp");
    assert_eq!(parts.ms_token, "ms");
    assert_eq!(parts.ttwid_ticket.as_deref(), Some("tick"));
    assert_eq!(parts.bootstrap_cookie_header, "a=1; 中=2");
    // without a ticket the encoded header takes the ticket's place
    let key = compose_oauth_key("tok", "dev", "fp", "ms", "", "a=1");
    let parts = parse_qr_token_key(&key);
    assert_eq!(parts.ttwid_ticket.as_deref(), Some("YT0x"));
    assert_eq!(parts.bootstrap_cookie_header, "");
}

#[test]
fn qr_platforms_are_matched_exactly() {
    assert_eq!(qr_platform("bilibili"), Ok(QrPlatform::BiliBili));
    assert_eq!(qr_platform("douyin"), Ok(QrPlatform::Douyin));
    assert_eq!(qr_platform("kuaishou"), Ok(QrPlatform::Kuaishou));
    assert_eq!(qr_platform("tiktok"), Ok(QrPlatform::TikTok));
    assert_eq!(qr_platform("TikTok"), Err("Invalid platform".to_string()));
    assert_eq!(qr_platform("youtube"), Err("Invalid platform".to_string()));
}

#[test]
fn qr_status_requests_check_platform_and_key() {
    match qr_status_request("huya", "k") {
        Err(e) => assert_eq!(e, "Invalid platform"),
        Ok(_) => panic!("expected an error"),
    }
    match qr_status_request("kuaishou", "tokenonly") {
        Err(e) => assert_eq!(e, "Invalid Kuaishou QR key"),
        Ok(_) => panic!("expected an error"),
    }
    match qr_status_request("kuaishou", "t|s|c=1") {
        Ok(QrStatusRequest::Kuaishou { token, signature, cookie }) => {
            assert_eq!((token.as_str(), signature.as_str()), ("t", "s"));
            assert_eq!(cookie, Some("c=1".to_string()));
        }
        _ => panic!("expected a Kuaishou request"),
    }
    match qr_status_request("bilibili", "abc") {
        Ok(QrStatusRequest::BiliBili { key }) => assert_eq!(key, "abc"),
        _ => panic!("expected a BiliBili request"),
    }
}

#[test]
fn poll_start_cookies_and_ticket_header() {
    let mut home = CookieMap::new();
    home.insert("a", "1");
    let (c, need) = poll_start_cookies(home, "fp", "ms");
    assert_eq!(c.get("s_v_web_id"), Some("fp".to_string()));
    assert_eq!(c.get("msToken"), Some("ms".to_string()));
    assert_eq!(c.get("a"), Some("1".to_string()));
    assert!(need);
    let mut home = CookieMap::new();
    home.insert("ttwid", "t");
    let (c, need) = poll_start_cookies(home, "", "ms");
    assert_eq!(c.get("s_v_web_id"), None);
    assert!(!need);
    assert_eq!(ticket_header(&Some("tk".to_string())), Some("tk".to_string()));
    assert_eq!(ticket_header(&Some(String::new())), None);
    assert_eq!(ticket_header(&None), None);
}
