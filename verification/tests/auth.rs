use suno_downloader::auth::{
    build_browser_token, build_browser_token_at, build_headers, build_headers_with,
    verification_outcome, AuthError,
};
use suno_downloader::session::SessionData;

fn session(jwt: &str, device: &str) -> SessionData {
    SessionData { jwt: jwt.to_string(), device_id: device.to_string(), storage_state: None, saved_at: String::new() }
}

#[test]
fn browser_token_encodes_the_time() {
    assert_eq!(build_browser_token_at(0), "{\"token\":\"eyJ0aW1lc3RhbXAiOjB9\"}");
    assert_eq!(build_browser_token_at(1_700_000_000_123), "{\"token\":\"eyJ0aW1lc3RhbXAiOjE3MDAwMDAwMDAxMjN9\"}");
    let t = build_browser_token();
    assert!(t.starts_with("{\"token\":\"eyJ0aW1lc3RhbXAiOj"));
    let encoded = t.trim_start_matches("{\"token\":\"").trim_end_matches("\"}");
    let payload = String::from_utf8(base64::Engine::decode(&base64::engine::general_purpose::STANDARD, encoded).unwrap()).unwrap();
    let millis: i64 = payload.trim_start_matches("{\"timestamp\":").trim_end_matches('}').parse().unwrap();
    let now = std::time::SystemTime::now().duration_since(std::time::UNIX_EPOCH).unwrap().as_millis() as i64;
    assert!((now - millis).abs() < 60_000);
}

#[test]
fn headers_in_order() {
    let h = build_headers_with(&session("jwt1", "dev1"), "tok").ok().unwrap();
    let pairs: Vec<(&str, &str)> = h.iter().map(|(k, v)| (k.as_str(), v.as_str())).collect();
    assert_eq!(
        pairs,
        vec![
            ("authorization", "Bearer jwt1"),
            ("device-id", "dev1"),
            ("browser-token", "tok"),
            ("origin", "https://suno.com"),
            ("referer", "https://suno.com/"),
        ]
    );
    assert!(build_headers(&session("jwt1", "dev1")).is_ok());
}

#[test]
fn headers_refuse_control_characters() {
    match build_headers_with(&session("a\nb", "d"), "t") {
        Err(AuthError::Message(m)) => assert_eq!(m, "failed to parse header value"),
        _ => panic!("expected a refusal"),
    }
    assert!(build_headers_with(&session("a\tb", "dé"), "t").is_ok());
    assert!(build_headers_with(&session("a", "d\u{7f}"), "t").is_err());
    match build_headers(&session("jwt", "dev\r")) {
        Err(AuthError::Message(m)) => assert_eq!(m, "failed to parse header value"),
        _ => panic!("expected a refusal"),
    }
    let h = build_headers(&session("jwt", "dev")).ok().unwrap();
    assert_eq!(h[0].1, "Bearer jwt");
    assert_eq!(h[2].0, "browser-token");
    assert!(h[2].1.starts_with("{\"token\":\""));
}

#[test]
fn token_check_outcomes() {
    assert_eq!(verification_outcome(401, "401 Unauthorized", "Unauthorized").err().unwrap(), "Token is invalid or expired.");
    assert_eq!(
        verification_outcome(500, "500 Internal Server Error", "Internal Server Error").err().unwrap(),
        "Token verification failed: 500 Internal Server Error Internal Server Error"
    );
    assert!(verification_outcome(204, "204 No Content", "No Content").is_ok());
}
