//! Request headers that authenticate the app with the music service, and what a token check
//! answers.
use vstd::prelude::*;
use base64::Engine;
use crate::session::SessionData;
use crate::text::{chars_of, push_chars, signed_decimal, signed_decimal_chars64, string_of};
use crate::time::{timestamp_millis, utc_now};

verus! {

broadcast use vstd::string::group_string_axioms;

/// An error while talking to the service; its text is shown to the user.
pub enum AuthError {
    Message(String),
}

/// The text of `STANDARD` (padded) base64 of the UTF-8 bytes of `s`.
pub uninterp spec fn base64_utf8(s: Seq<char>) -> Seq<char>;

/// A character of the standard base64 alphabet (`A`-`Z`, `a`-`z`, `0`-`9`, `+`, `/`) or the
/// padding `=`.
pub open spec fn is_base64_char(c: char) -> bool {
    ('A' <= c && c <= 'Z') || ('a' <= c && c <= 'z') || ('0' <= c && c <= '9') || c == '+' || c
        == '/' || c == '='
}

/// Base64 (standard alphabet, padded) of the UTF-8 bytes of `s` (`STANDARD.encode`); every
/// character of the result is of that alphabet or the padding.
#[verifier::external_body]
fn encode_base64(s: &str) -> (r: String)
    ensures
        r@ == base64_utf8(s@),
        forall|k: int| 0 <= k < r@.len() ==> is_base64_char(#[trigger] r@[k]),
{
    base64::engine::general_purpose::STANDARD.encode(s)
}

/// A character a header value may hold: a tab, or anything from the space on but DEL
/// (every byte of a non-ASCII character's UTF-8 form is allowed).
pub open spec fn is_header_char(c: char) -> bool {
    c == '\t' || ((c as u32) >= 32 && (c as u32) != 127)
}

pub open spec fn is_header_value(s: Seq<char>) -> bool {
    forall|i: int| 0 <= i < s.len() ==> is_header_char(#[trigger] s[i])
}

/// Whether `s` can be a header value (`HeaderValue::from_str` succeeds): every byte is a tab or
/// at least 32 and not 127.
#[verifier::external_body]
fn header_value_ok(s: &str) -> (b: bool)
    ensures
        b == is_header_value(s@),
{
    reqwest::header::HeaderValue::from_str(s).is_ok()
}

/// `{"timestamp":<ms>}`.
pub open spec fn browser_token_payload(millis: int) -> Seq<char> {
    "{\"timestamp\":"@ + signed_decimal(millis) + seq!['}']
}

/// `{"token":"<base64 of the payload>"}`.
pub open spec fn browser_token_for(millis: int) -> Seq<char> {
    "{\"token\":\""@ + base64_utf8(browser_token_payload(millis)) + seq!['"', '}']
}

/// The browser token for the given time in milliseconds since the UNIX epoch.
pub fn build_browser_token_at(millis: i64) -> (r: String)
    ensures
        r@ == browser_token_for(millis as int),
        is_header_value(r@),
{
    let mut payload = chars_of("{\"timestamp\":");
    let digits = signed_decimal_chars64(millis);
    push_chars(&mut payload, &digits);
    push_chars(&mut payload, &['}']);
    assert(payload@ =~= browser_token_payload(millis as int));
    let payload_text = string_of(&payload);
    let encoded = encode_base64(payload_text.as_str());
    let mut token = chars_of("{\"token\":\"");
    let enc = chars_of(encoded.as_str());
    push_chars(&mut token, &enc);
    push_chars(&mut token, &['"', '}']);
    assert(token@ =~= browser_token_for(millis as int));
    proof {
        reveal_strlit("{\"token\":\"");
        let pre = "{\"token\":\""@;
        assert(pre.len() == 10);
        assert(token@ =~= pre + enc@ + seq!['"', '}']);
        assert forall|k: int| 0 <= k < token@.len() implies is_header_char(#[trigger] token@[k]) by {
            if k < 10 {
                assert(token@[k] == pre[k]);
            } else if k < 10 + enc@.len() {
                assert(token@[k] == enc@[k - 10]);
                assert(is_base64_char(encoded@[k - 10]));
            }
        }
    }
    string_of(&token)
}

/// The browser token for the current time. The time is read from the clock, so the token that
/// comes back is not stated beyond its form.
pub fn build_browser_token() -> (r: String)
    ensures
        exists|ms: i64| r@ == browser_token_for(ms as int),
        is_header_value(r@),
{
    let now = utc_now();
    let ms = timestamp_millis(&now);
    build_browser_token_at(ms)
}

pub open spec fn bearer_value(jwt: Seq<char>) -> Seq<char> {
    "Bearer "@ + jwt
}

/// The headers sent with every request to the service, as name and value pairs in order:
/// `authorization`, `device-id`, `browser-token`, `origin` and `referer`.
pub open spec fn auth_header_pairs(jwt: Seq<char>, device_id: Seq<char>, browser_token: Seq<char>) -> Seq<
    (Seq<char>, Seq<char>),
> {
    seq![
        ("authorization"@, bearer_value(jwt)),
        ("device-id"@, device_id),
        ("browser-token"@, browser_token),
        ("origin"@, "https://suno.com"@),
        ("referer"@, "https://suno.com/"@),
    ]
}

pub open spec fn pair_views(v: Seq<(String, String)>) -> Seq<(Seq<char>, Seq<char>)> {
    v.map_values(|p: (String, String)| (p.0@, p.1@))
}

pub open spec fn header_error_text() -> Seq<char> {
    "failed to parse header value"@
}

/// The authentication headers for a session and browser token; refused when the bearer value,
/// the device id or the token holds a character a header value may not.
pub fn build_headers_with(session: &SessionData, browser_token: &str) -> (r: Result<
    Vec<(String, String)>,
    AuthError,
>)
    ensures
        match r {
            Ok(v) => is_header_value(bearer_value(session.jwt@)) && is_header_value(
                session.device_id@,
            ) && is_header_value(browser_token@) && pair_views(v@) == auth_header_pairs(
                session.jwt@,
                session.device_id@,
                browser_token@,
            ),
            Err(AuthError::Message(m)) => m@ == header_error_text() && !(is_header_value(
                bearer_value(session.jwt@),
            ) && is_header_value(session.device_id@) && is_header_value(browser_token@)),
        },
{
    let mut bearer = chars_of("Bearer ");
    let jwt = chars_of(session.jwt.as_str());
    push_chars(&mut bearer, &jwt);
    let bearer = string_of(&bearer);
    if !header_value_ok(bearer.as_str()) || !header_value_ok(session.device_id.as_str())
        || !header_value_ok(browser_token) {
        return Err(AuthError::Message("failed to parse header value".to_string()));
    }
    let mut v: Vec<(String, String)> = Vec::new();
    v.push(("authorization".to_string(), bearer));
    v.push(("device-id".to_string(), session.device_id.clone()));
    v.push(("browser-token".to_string(), browser_token.to_string()));
    v.push(("origin".to_string(), "https://suno.com".to_string()));
    v.push(("referer".to_string(), "https://suno.com/".to_string()));
    assert(pair_views(v@) =~= auth_header_pairs(
        session.jwt@,
        session.device_id@,
        browser_token@,
    ));
    Ok(v)
}

/// The authentication headers for a session, with a browser token for the current time;
/// refused exactly when the bearer value or the device id holds a character a header value may
/// not (the browser token never does).
pub fn build_headers(session: &SessionData) -> (r: Result<Vec<(String, String)>, AuthError>)
    ensures
        r is Ok <==> (is_header_value(bearer_value(session.jwt@)) && is_header_value(
            session.device_id@,
        )),
        r matches Err(AuthError::Message(m)) ==> m@ == header_error_text(),
        r matches Ok(v) ==> exists|ms: i64|
            pair_views(v@) == auth_header_pairs(
                session.jwt@,
                session.device_id@,
                browser_token_for(ms as int),
            ),
{
    let token = build_browser_token();
    build_headers_with(session, token.as_str())
}

/// What a token check answers, from the response status: refused on 401; refused with the
/// status and its reason on any other status outside 200 to 299; accepted otherwise.
pub fn verification_outcome(status: u16, status_text: &str, reason: &str) -> (r: Result<
    (),
    String,
>)
    ensures
        status == 401 ==> (r matches Err(m) && m@ == "Token is invalid or expired."@),
        status != 401 && !(200 <= status <= 299) ==> (r matches Err(m) && m@
            == "Token verification failed: "@ + status_text@ + seq![' '] + reason@),
        200 <= status <= 299 ==> r is Ok,
{
    if status == 401 {
        return Err("Token is invalid or expired.".to_string());
    }
    if !(200 <= status && status <= 299) {
        let mut m = chars_of("Token verification failed: ");
        push_chars(&mut m, &chars_of(status_text));
        push_chars(&mut m, &[' ']);
        push_chars(&mut m, &chars_of(reason));
        return Err(string_of(&m));
    }
    Ok(())
}

} // verus!
