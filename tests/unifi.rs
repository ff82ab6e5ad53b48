use penguin::auth::{authorize, bearer_token, token_payload, Claims, CLIENT_ID};
use penguin::errors::MyError;
use penguin::unifi::{create_block_rule, BandwidthLimit, Schedule, TargetDevice, TrafficRule, UnifiClient};

#[test]
fn new_client_is_logged_out() {
    let c = UnifiClient::new("user", "pw");
    assert_eq!(c.username, "user");
    assert_eq!(c.password, "pw");
    assert!(c.cookie.is_none());
    assert_eq!(c.url_path("api/auth/login"), "https://192.168.1.1/api/auth/login");
}

#[test]
fn session_headers_from_cookie() {
    let mut c = UnifiClient::new("u", "p");
    assert!(matches!(c.session_headers(), Err(MyError::Failed(_))));
    c.update_session(Some("TOKEN=abc.def; path=/; samesite=none".to_string()), Some("csrf1".to_string()));
    let (cookie, csrf) = c.session_headers().unwrap();
    assert_eq!(cookie, "TOKEN=abc.def");
    assert_eq!(csrf, "csrf1");
    c.update_session(None, None);
    assert_eq!(c.csrf_token.as_deref(), Some("csrf1"));
}

#[test]
fn bad_cookie_drops_session() {
    let mut c = UnifiClient::new("u", "p");
    c.update_session(Some("SESSION=1; path=/".to_string()), Some("x".to_string()));
    assert!(c.session_headers().is_err());
    assert!(c.cookie.is_none());
    assert!(c.csrf_token.is_none());
    let mut c = UnifiClient::new("u", "p");
    c.update_session(Some("TOKEN=t".to_string()), None);
    assert!(c.session_headers().is_err());
    assert!(c.cookie.is_none());
}

#[test]
fn traffic_rule_builders() {
    let r = TrafficRule::block_internet();
    assert_eq!(r.matching_target, "INTERNET");
    assert_eq!(r.action, "BLOCK");
    assert!(!r.enabled);
    assert_eq!(r.schedule.mode, "ALWAYS");
    let d = TrafficRule::default();
    assert_eq!(d.matching_target, "APP");
    let b = BandwidthLimit::disabled();
    assert_eq!((b.download_limit_kbps, b.enabled, b.upload_limit_kbps), (1024, false, 1024));
    assert_eq!(Schedule::always().mode, "ALWAYS");
    let t = TargetDevice::for_client_mac("00:23:62:00:08:67");
    assert_eq!(t.client_mac, "00:23:62:00:08:67");
    assert_eq!(t.typ, "CLIENT");
    let rule = create_block_rule("aa:bb", true);
    assert!(rule.enabled);
    assert_eq!(rule.description, "Traffic rule created by Penguin");
    assert_eq!(rule.target_devices.len(), 1);
    assert_eq!(rule.target_devices[0].client_mac, "aa:bb");
}

#[test]
fn bearer_and_payload() {
    assert_eq!(bearer_token("Bearer abc").as_deref(), Some("abc"));
    assert!(bearer_token("Basic abc").is_none());
    // {"a":1} without padding
    assert_eq!(token_payload("x.eyJhIjoxfQ.y").unwrap(), b"{\"a\":1}".to_vec());
    assert!(token_payload("x.y").is_err());
    assert!(token_payload("x.!!!.y").is_err());
}

#[test]
fn claims_are_checked() {
    let users = vec!["me@example.com".to_string()];
    let ok = Claims { email: "me@example.com".to_string(), aud: CLIENT_ID.to_string(), iss: "i".to_string() };
    assert_eq!(authorize(&ok, &users).unwrap().email, "me@example.com");
    let other_aud = Claims { email: "me@example.com".to_string(), aud: "x".to_string(), iss: "i".to_string() };
    assert!(matches!(authorize(&other_aud, &users), Err(MyError::NotAuthorized)));
    let stranger = Claims { email: "you@example.com".to_string(), aud: CLIENT_ID.to_string(), iss: "i".to_string() };
    assert!(matches!(authorize(&stranger, &users), Err(MyError::NotAuthorized)));
}
