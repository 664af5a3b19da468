use suno_downloader::session::{auth_status_of, normalize_token, select_session, SessionData, SessionError};

fn session(jwt: &str, device: &str) -> SessionData {
    SessionData {
        jwt: jwt.to_string(),
        device_id: device.to_string(),
        storage_state: None,
        saved_at: "2024-01-01T00:00:00+00:00".to_string(),
    }
}

fn message(e: SessionError) -> String {
    match e {
        SessionError::Message(m) => m,
    }
}

#[test]
fn normalize_trims_and_drops_non_ascii() {
    assert_eq!(normalize_token("  abc.def  "), "abc.def");
    assert_eq!(normalize_token("ab\u{1F600}c"), "abc");
    assert_eq!(normalize_token("\u{3000}tok\u{3000}"), "tok");
}

#[test]
fn normalize_bearer_keeps_the_last_seven_characters() {
    assert_eq!(normalize_token("Bearer abcdefghij"), "defghij");
    assert_eq!(normalize_token("bearer xyz"), "rer xyz");
    assert_eq!(normalize_token("BEARER abc"), "RER abc");
}

#[test]
fn normalize_without_prefix_is_unchanged() {
    assert_eq!(normalize_token("eyJhbGciOi.payload.sig"), "eyJhbGciOi.payload.sig");
    assert_eq!(normalize_token(""), "");
}

#[test]
fn select_prefers_the_app_session() {
    let r = select_session(Ok(Some(session("a", "d1"))), Ok(Some(session("b", "d2"))), Ok(None));
    let s = r.ok().unwrap();
    assert_eq!(s.jwt, "a");
    let r = select_session(Ok(None), Ok(None), Ok(Some(session("c", "d3"))));
    assert_eq!(r.ok().unwrap().jwt, "c");
}

#[test]
fn select_reports_the_first_read_error() {
    let r = select_session(Ok(Some(session("a", "d"))), Err("bad cli".to_string()), Err("bad legacy".to_string()));
    assert_eq!(message(r.err().unwrap()), "bad cli");
}

#[test]
fn select_without_session_or_with_blank_fields() {
    let r = select_session(Ok(None), Ok(None), Ok(None));
    assert_eq!(message(r.err().unwrap()), "セッションが見つかりません。認証を行ってください。");
    let r = select_session(Ok(Some(session("  ", "d"))), Ok(None), Ok(None));
    assert_eq!(message(r.err().unwrap()), "セッションファイルが無効です。再度認証してください。");
    let r = select_session(Ok(Some(session("jwt", " "))), Ok(None), Ok(None));
    assert_eq!(message(r.err().unwrap()), "セッションファイルが無効です。再度認証してください。");
}

#[test]
fn auth_status_reports_the_saved_time() {
    let st = auth_status_of(Some(session("a", "b")), true, "http://x".to_string());
    assert!(st.authenticated);
    assert_eq!(st.saved_at.as_deref(), Some("2024-01-01T00:00:00+00:00"));
    assert!(st.token_server_running);
    let st = auth_status_of(None, false, "u".to_string());
    assert!(!st.authenticated);
    assert_eq!(st.saved_at, None);
}

#[test]
fn session_error_auth_holds_the_text() {
    assert_eq!(message(SessionError::auth("x".to_string())), "x");
}
