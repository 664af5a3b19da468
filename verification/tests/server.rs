use suno_downloader::chrome_extension::zip_entry_name;
use suno_downloader::commands::plan_manual_auth;
use suno_downloader::token_server::{
    is_known_service, resolve_token_submission, route_request, route_response, status_body,
    token_server_status, HttpMethod, Route,
};

fn s(v: &str) -> Option<String> {
    Some(v.to_string())
}

fn is_uuid(v: &str) -> bool {
    v.len() == 36
        && v.chars().enumerate().all(|(i, c)| if [8, 13, 18, 23].contains(&i) { c == '-' } else { c.is_ascii_hexdigit() })
}

#[test]
fn routes() {
    assert_eq!(route_request(HttpMethod::Options, "/anything"), Route::Preflight);
    assert_eq!(route_request(HttpMethod::Get, "/status"), Route::Status);
    assert_eq!(route_request(HttpMethod::Get, "/status?x=1?y"), Route::Status);
    assert_eq!(route_request(HttpMethod::Post, "/token?t=1"), Route::Token);
    assert_eq!(route_request(HttpMethod::Get, "/token"), Route::NotFound);
    assert_eq!(route_request(HttpMethod::Other, "/status"), Route::NotFound);
    assert_eq!(route_request(HttpMethod::Get, "/statuss"), Route::NotFound);
}

#[test]
fn status_answers() {
    assert_eq!(status_body(), "{\"ok\":true,\"service\":\"suno-downloader\"}");
    assert!(is_known_service("suno"));
    assert!(is_known_service("suno-sync-mini"));
    assert!(!is_known_service("other"));
    let st = token_server_status(Some("suno-downloader"));
    assert!(st.running);
    assert_eq!(st.url, "http://127.0.0.1:38946");
    assert_eq!(st.port, 38946);
    assert!(!token_server_status(None).running);
}

#[test]
fn token_submissions() {
    assert_eq!(resolve_token_submission(None, None, None, None, s("cur")).err().unwrap(), "token is required");
    let (jwt, dev) = resolve_token_submission(s(" abc "), s("ignored"), s(" d1 "), s("d2"), s("cur")).ok().unwrap();
    assert_eq!(jwt, "abc");
    assert_eq!(dev, "d1");
    let (jwt, dev) = resolve_token_submission(None, s("j"), None, s("d2"), s("cur")).ok().unwrap();
    assert_eq!(jwt, "j");
    assert_eq!(dev, "d2");
    let (_, dev) = resolve_token_submission(s("t"), None, s("  "), s("d2"), s("cur")).ok().unwrap();
    assert_eq!(dev, "cur");
    let (_, dev) = resolve_token_submission(s("t"), None, None, None, None).ok().unwrap();
    assert!(is_uuid(&dev));
}

#[test]
fn fresh_device_ids() {
    let (_, a) = resolve_token_submission(s("t"), None, None, None, None).ok().unwrap();
    let (_, b) = resolve_token_submission(s("t"), None, None, None, None).ok().unwrap();
    assert!(is_uuid(&a));
    assert_ne!(a, b);
}

#[test]
fn manual_sign_in() {
    assert_eq!(plan_manual_auth("  ", None, None).err().unwrap(), "JWT is required.");
    let a = plan_manual_auth(" jwt ", s(" dev "), None).ok().unwrap();
    assert_eq!(a.jwt, "jwt");
    assert_eq!(a.device_id, "dev");
    assert!(a.verify);
    let a = plan_manual_auth("jwt", s("   "), Some(true)).ok().unwrap();
    assert!(is_uuid(&a.device_id));
    assert!(!a.verify);
    assert!(plan_manual_auth("jwt", None, Some(false)).ok().unwrap().verify);
}

#[test]
fn archive_entry_names() {
    assert_eq!(zip_entry_name("icons\\a.png", false), "icons/a.png");
    assert_eq!(zip_entry_name("icons", true), "icons/");
    assert_eq!(zip_entry_name("background.js", false), "background.js");
}

#[test]
fn answers_per_route() {
    assert_eq!(route_response(Route::Preflight), (204, String::new()));
    assert_eq!(route_response(Route::Status), (200, "{\"ok\":true,\"service\":\"suno-downloader\"}".to_string()));
    assert_eq!(route_response(Route::Token), (200, "{\"ok\":true}".to_string()));
    assert_eq!(route_response(Route::NotFound), (404, "{\"ok\":false,\"error\":\"not found\"}".to_string()));
}
