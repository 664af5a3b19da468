//! Saved sessions: choosing the session file to use, checking it, and cleaning pasted tokens.
use vstd::prelude::*;
use crate::time::{rfc3339_text, utc_now, utc_rfc3339, Instant};
use crate::text::{
    all_ascii, ascii_lower, chars_of, chars_start_with, is_ascii_char, slice_chars, string_of,
    starts_with, to_lowercase, trim, trim_chars,
};

verus! {

broadcast use vstd::string::group_string_axioms;

/// The outside JSON value type, carried through unread.
#[verifier::external_type_specification]
#[verifier::external_body]
pub struct ExJsonValue(serde_json::Value);

/// An error about the saved session; its text is shown to the user as it is.
pub enum SessionError {
    Message(String),
}

impl SessionError {
    /// An authentication error with the given text.
    pub fn auth(message: String) -> (e: SessionError)
        ensures
            e == SessionError::Message(message),
    {
        SessionError::Message(message)
    }
}

/// What a session file holds.
pub struct SessionData {
    pub jwt: String,
    pub device_id: String,
    pub storage_state: Option<serde_json::Value>,
    pub saved_at: String,
}

/// What the front end is told about authentication.
pub struct AuthStatus {
    pub authenticated: bool,
    pub saved_at: Option<String>,
    pub token_server_running: bool,
    pub token_server_url: String,
}

/// The ASCII characters of `s`, in order (`String::retain(char::is_ascii)`).
pub open spec fn ascii_chars(s: Seq<char>) -> Seq<char>
    decreases s.len(),
{
    if s.len() == 0 {
        seq![]
    } else if is_ascii_char(s.last()) {
        ascii_chars(s.drop_last()).push(s.last())
    } else {
        ascii_chars(s.drop_last())
    }
}

pub open spec fn bearer_prefix() -> Seq<char> {
    seq!['b', 'e', 'a', 'r', 'e', 'r', ' ']
}

/// A pasted token, cleaned: trimmed, non-ASCII characters dropped; when it begins with
/// `bearer ` in any letter case, the text from the position `len - 7` on, trimmed again.
/// That position is the length of the text after the prefix, so this keeps the last seven
/// characters rather than the text after `bearer `: `Bearer abc` becomes `rer abc`. The cleaning
/// does exactly this; nothing states that the prefix itself is meant to be removed.
pub open spec fn normalized_token(raw: Seq<char>) -> Seq<char> {
    let t = ascii_chars(trim(raw));
    if starts_with(ascii_lower(t), bearer_prefix()) {
        trim(t.subrange(t.len() - 7, t.len() as int))
    } else {
        t
    }
}

proof fn lemma_ascii_chars_ascii(s: Seq<char>)
    ensures
        all_ascii(ascii_chars(s)),
        ascii_chars(s).len() <= s.len(),
    decreases s.len(),
{
    if s.len() > 0 {
        lemma_ascii_chars_ascii(s.drop_last());
    }
}

fn retain_ascii(v: &[char]) -> (r: Vec<char>)
    ensures
        r@ == ascii_chars(v@),
{
    let mut r: Vec<char> = Vec::new();
    let mut i: usize = 0;
    while i < v.len()
        invariant
            i <= v.len(),
            r@ == ascii_chars(v@.take(i as int)),
        decreases v.len() - i,
    {
        let c = v[i];
        assert(v@.take(i + 1).drop_last() =~= v@.take(i as int));
        if (c as u32) < 0x80 {
            r.push(c);
        }
        i = i + 1;
    }
    assert(v@.take(v.len() as int) =~= v@);
    r
}

/// Cleans a pasted token (see [`normalized_token`]).
pub fn normalize_token(raw: &str) -> (r: String)
    ensures
        r@ == normalized_token(raw@),
{
    let chars = chars_of(raw);
    let trimmed = trim_chars(&chars);
    let token = retain_ascii(&trimmed);
    proof {
        lemma_ascii_chars_ascii(trimmed@);
    }
    let token_text = string_of(&token);
    let lower_text = to_lowercase(token_text.as_str());
    let lower = chars_of(lower_text.as_str());
    if chars_start_with(&lower, &['b', 'e', 'a', 'r', 'e', 'r', ' ']) {
        assert(lower@.len() == token@.len());
        let tail = slice_chars(&token, token.len() - 7, token.len());
        let t = trim_chars(&tail);
        return string_of(&t);
    }
    token_text
}

pub open spec fn session_missing_text() -> Seq<char> {
    "セッションが見つかりません。認証を行ってください。"@
}

pub open spec fn session_invalid_text() -> Seq<char> {
    "セッションファイルが無効です。再度認証してください。"@
}

/// The session chosen from what the three session files held, in order of preference (this
/// app's file, the command-line tool's file, the older app's file).
pub open spec fn chosen_session<'a>(
    primary: &'a Option<SessionData>,
    cli: &'a Option<SessionData>,
    legacy: &'a Option<SessionData>,
) -> &'a Option<SessionData> {
    if primary is Some {
        primary
    } else if cli is Some {
        cli
    } else {
        legacy
    }
}

/// Picks the session to use from the outcome of reading the three session files (each an error
/// text or the session the file held, if any). The first read error, in order of preference,
/// is returned; else the first session found is used, and it must have a non-blank token and
/// device id.
pub fn select_session(
    primary: Result<Option<SessionData>, String>,
    cli: Result<Option<SessionData>, String>,
    legacy: Result<Option<SessionData>, String>,
) -> (r: Result<SessionData, SessionError>)
    ensures
        primary is Err ==> r == Err::<SessionData, SessionError>(
            SessionError::Message(primary->Err_0),
        ),
        primary is Ok && cli is Err ==> r == Err::<SessionData, SessionError>(
            SessionError::Message(cli->Err_0),
        ),
        primary is Ok && cli is Ok && legacy is Err ==> r == Err::<SessionData, SessionError>(
            SessionError::Message(legacy->Err_0),
        ),
        primary is Ok && cli is Ok && legacy is Ok ==> {
            let chosen = *chosen_session(&primary->Ok_0, &cli->Ok_0, &legacy->Ok_0);
            match chosen {
                None => r matches Err(SessionError::Message(m)) && m@ == session_missing_text(),
                Some(s) => if trim(s.jwt@).len() == 0 || trim(s.device_id@).len() == 0 {
                    r matches Err(SessionError::Message(m)) && m@ == session_invalid_text()
                } else {
                    r == Ok::<SessionData, SessionError>(s)
                },
            }
        },
{
    let primary = match primary {
        Err(e) => return Err(SessionError::Message(e)),
        Ok(v) => v,
    };
    let cli = match cli {
        Err(e) => return Err(SessionError::Message(e)),
        Ok(v) => v,
    };
    let legacy = match legacy {
        Err(e) => return Err(SessionError::Message(e)),
        Ok(v) => v,
    };
    let chosen = match primary {
        Some(s) => Some(s),
        None => match cli {
            Some(s) => Some(s),
            None => legacy,
        },
    };
    let session = match chosen {
        None => {
            return Err(SessionError::auth("セッションが見つかりません。認証を行ってください。".to_string()));
        },
        Some(s) => s,
    };
    let jwt_chars = chars_of(session.jwt.as_str());
    let device_chars = chars_of(session.device_id.as_str());
    if trim_chars(&jwt_chars).len() == 0 || trim_chars(&device_chars).len() == 0 {
        return Err(SessionError::auth("セッションファイルが無効です。再度認証してください。".to_string()));
    }
    Ok(session)
}

/// The session saved for a token and device id at the given time (written as RFC 3339).
pub fn session_at(jwt: &str, device_id: &str, saved_at: &Instant) -> (s: SessionData)
    ensures
        s.jwt@ == jwt@,
        s.device_id@ == device_id@,
        s.storage_state is None,
        s.saved_at@ == utc_rfc3339(saved_at.secs(), saved_at.nanos()),
{
    SessionData {
        jwt: jwt.to_string(),
        device_id: device_id.to_string(),
        storage_state: None,
        saved_at: rfc3339_text(saved_at),
    }
}

/// The session to save for a token and device id, stamped with the current time. The time is
/// read from the clock, so which stamp is not stated beyond its form.
pub fn new_session(jwt: &str, device_id: &str) -> (s: SessionData)
    ensures
        s.jwt@ == jwt@,
        s.device_id@ == device_id@,
        s.storage_state is None,
        exists|secs: int, nanos: int| s.saved_at@ == utc_rfc3339(secs, nanos),
{
    let now = utc_now();
    session_at(jwt, device_id, &now)
}

/// The authentication status reported for the loaded session (if any) and token server.
pub fn auth_status_of(session: Option<SessionData>, token_server_running: bool, url: String) -> (r:
    AuthStatus)
    ensures
        r.authenticated == session is Some,
        r.saved_at == (match session {
            Some(s) => Some(s.saved_at),
            None => None,
        }),
        r.token_server_running == token_server_running,
        r.token_server_url == url,
{
    let authenticated = session.is_some();
    let saved_at = match session {
        Some(s) => Some(s.saved_at),
        None => None,
    };
    AuthStatus { authenticated, saved_at, token_server_running, token_server_url: url }
}

} // verus!
