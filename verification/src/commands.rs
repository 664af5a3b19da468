//! What the front end's commands decide before they read or write anything.
use vstd::prelude::*;
use crate::local_index::is_uuid_text;
use crate::session::{normalize_token, normalized_token};
use crate::text::{chars_of, string_of, trim, trim_chars};
use crate::token_server::new_device_id;

verus! {

broadcast use vstd::string::group_string_axioms;

/// A manual sign-in to carry out.
pub struct ManualAuth {
    /// The cleaned token.
    pub jwt: String,
    /// The device id to use.
    pub device_id: String,
    /// Check the token with the service before saving it.
    pub verify: bool,
}

/// Plans a manual sign-in: the token cleaned by [`normalize_token`] (refused when nothing is
/// left), the device id given (trimmed, when not blank) or a fresh one, and a check with the
/// service unless it is skipped.
pub fn plan_manual_auth(token: &str, device_id: Option<String>, skip_verify: Option<bool>) -> (r: Result<ManualAuth, String>)
    ensures
        normalized_token(token@).len() == 0 ==> (r matches Err(m) && m@ == "JWT is required."@),
        normalized_token(token@).len() > 0 ==> (r matches Ok(a) && {
            &&& a.jwt@ == normalized_token(token@)
            &&& a.verify == !(skip_verify == Some(true))
            &&& ((device_id matches Some(d) && trim(d@).len() > 0) ==> a.device_id@ == trim(device_id->0@))
            &&& (!(device_id matches Some(d) && trim(d@).len() > 0) ==> is_uuid_text(a.device_id@))
        }),
{
    let jwt = normalize_token(token);
    if jwt.as_str().is_empty() {
        return Err("JWT is required.".to_string());
    }
    let given = match device_id {
        Some(d) => {
            let t = trim_chars(&chars_of(d.as_str()));
            if t.len() > 0 {
                Some(string_of(&t))
            } else {
                None
            }
        },
        None => None,
    };
    let device_id = match given {
        Some(d) => d,
        None => new_device_id(),
    };
    let verify = match skip_verify {
        Some(b) => !b,
        None => true,
    };
    Ok(ManualAuth { jwt, device_id, verify })
}

} // verus!
