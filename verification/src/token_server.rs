//! The local token server: how it routes requests and what it makes of a submitted token.
//! Listening and answering are done by the caller.
use vstd::prelude::*;
use crate::local_index::is_uuid_text;
use crate::paths::token_server_url;
use crate::session::{normalize_token, normalized_token};
use crate::text::{chars_of, slice_chars, string_of, trim, trim_chars};
use crate::types::TokenServerStatus;

verus! {

broadcast use vstd::string::group_string_axioms;

/// A fresh random device id (`Uuid::new_v4().to_string()`): 36 characters, hexadecimal digits
/// in groups of 8, 4, 4, 4 and 12 separated by hyphens. Which id is not stated.
#[verifier::external_body]
pub(crate) fn new_device_id() -> (r: String)
    ensures
        is_uuid_text(r@),
{
    uuid::Uuid::new_v4().to_string()
}

/// The request methods the server tells apart.
#[derive(Clone, Copy, Debug, PartialEq, Eq, Structural)]
pub enum HttpMethod {
    Options,
    Get,
    Post,
    Other,
}

/// What the server does with a request.
#[derive(Clone, Copy, Debug, PartialEq, Eq, Structural)]
pub enum Route {
    /// Answer 204 with an empty body.
    Preflight,
    /// Answer 200 with the service description.
    Status,
    /// Read a submitted token.
    Token,
    /// Answer 404.
    NotFound,
}

/// The path of a request target: the text before the first `?`.
pub open spec fn target_path(url: Seq<char>) -> Seq<char> {
    if exists|i: int| 0 <= i < url.len() && url[i] == '?' {
        url.take(choose_first_question(url))
    } else {
        url
    }
}

/// The position of the first `?`.
pub open spec fn choose_first_question(url: Seq<char>) -> int {
    choose|i: int| 0 <= i < url.len() && url[i] == '?' && forall|k: int| 0 <= k < i ==> url[k] != '?'
}

/// The route of a request: every `OPTIONS` request is a preflight; `GET /status` and
/// `POST /token` (query ignored) are served; anything else is not found.
pub open spec fn route_of(method: HttpMethod, url: Seq<char>) -> Route {
    if method == HttpMethod::Options {
        Route::Preflight
    } else if method == HttpMethod::Get && target_path(url) == "/status"@ {
        Route::Status
    } else if method == HttpMethod::Post && target_path(url) == "/token"@ {
        Route::Token
    } else {
        Route::NotFound
    }
}

fn path_of(url: &str) -> (p: Vec<char>)
    ensures
        p@ == target_path(url@),
{
    let v = chars_of(url);
    let mut i: usize = 0;
    while i < v.len()
        invariant
            i <= v.len(),
            v@ == url@,
            forall|k: int| 0 <= k < i ==> v@[k] != '?',
        decreases v.len() - i,
    {
        if v[i] == '?' {
            let ghost j = choose_first_question(url@);
            proof {
                assert(0 <= i < url@.len() && url@[i as int] == '?' && forall|k: int| 0 <= k < i ==> url@[k] != '?');
                assert(j == i) by {
                    if j < i {
                        assert(url@[j] != '?');
                    }
                    if j > i {
                        assert(url@[i as int] != '?');
                    }
                }
            }
            let r = slice_chars(&v, 0, i);
            assert(r@ =~= url@.take(i as int));
            return r;
        }
        i = i + 1;
    }
    v
}

/// Routes a request (see [`route_of`]).
pub fn route_request(method: HttpMethod, url: &str) -> (r: Route)
    ensures
        r == route_of(method, url@),
{
    if method == HttpMethod::Options {
        return Route::Preflight;
    }
    let path = path_of(url);
    let status = chars_of("/status");
    let token = chars_of("/token");
    if method == HttpMethod::Get && crate::text::chars_eq(&path, &status) {
        return Route::Status;
    }
    if method == HttpMethod::Post && crate::text::chars_eq(&path, &token) {
        return Route::Token;
    }
    Route::NotFound
}

/// The body of the status answer: `{"ok":true,"service":"suno-downloader"}`.
pub fn status_body() -> (r: String)
    ensures
        r@ == "{\"ok\":true,\"service\":\"suno-downloader\"}"@,
{
    "{\"ok\":true,\"service\":\"suno-downloader\"}".to_string()
}

/// The answer to a route: status code and JSON body. A preflight gets `204` with an empty
/// body, the status request `200` with [`status_body`], a submitted token (once verified and
/// saved) `200` with `{"ok":true}`, and anything else `404` with
/// `{"ok":false,"error":"not found"}`.
pub fn route_response(route: Route) -> (r: (u16, String))
    ensures
        match route {
            Route::Preflight => r.0 == 204 && r.1@ == ""@,
            Route::Status => r.0 == 200 && r.1@ == "{\"ok\":true,\"service\":\"suno-downloader\"}"@,
            Route::Token => r.0 == 200 && r.1@ == "{\"ok\":true}"@,
            Route::NotFound => r.0 == 404 && r.1@ == "{\"ok\":false,\"error\":\"not found\"}"@,
        },
{
    match route {
        Route::Preflight => (204, "".to_string()),
        Route::Status => (200, status_body()),
        Route::Token => (200, "{\"ok\":true}".to_string()),
        Route::NotFound => (404, "{\"ok\":false,\"error\":\"not found\"}".to_string()),
    }
}

/// A service name that counts as a running token server: this app's, `suno`, or the older
/// app's.
pub open spec fn known_service(name: Seq<char>) -> bool {
    name == "suno-downloader"@ || name == "suno"@ || name == "suno-sync-mini"@
}

pub fn is_known_service(name: &str) -> (b: bool)
    ensures
        b == known_service(name@),
{
    let n = chars_of(name);
    crate::text::chars_eq(&n, &chars_of("suno-downloader")) || crate::text::chars_eq(&n, &chars_of("suno"))
        || crate::text::chars_eq(&n, &chars_of("suno-sync-mini"))
}

/// The token server status: whether a known service answered its status request, its address
/// and port.
pub fn token_server_status(service: Option<&str>) -> (r: TokenServerStatus)
    ensures
        r.running == (match service {
            Some(s) => known_service(s@),
            None => false,
        }),
        r.port == crate::paths::TOKEN_SERVER_PORT,
        r.url@ == "http://"@ + crate::paths::token_server_host() + seq![':'] + crate::text::decimal(crate::paths::TOKEN_SERVER_PORT as nat),
{
    let running = match service {
        Some(s) => is_known_service(s),
        None => false,
    };
    TokenServerStatus { running, url: token_server_url(), port: crate::paths::TOKEN_SERVER_PORT }
}

pub open spec fn opt_view(o: Option<String>) -> Option<Seq<char>> {
    match o {
        Some(s) => Some(s@),
        None => None,
    }
}

/// What a submitted token body yields: the token (`token`, else `jwt`) cleaned by
/// [`normalize_token`], and the device id (`deviceId`, else `device_id`, trimmed; when that is
/// absent or blank, the server's current id, or a fresh one when the current id cannot be
/// read). Refused when neither token field is present.
pub fn resolve_token_submission(token: Option<String>, jwt: Option<String>, device_id: Option<String>, device_id_snake: Option<String>, current: Option<String>) -> (r: Result<(String, String), String>)
    ensures
        token is None && jwt is None ==> (r matches Err(m) && m@ == "token is required"@),
        !(token is None && jwt is None) ==> (r matches Ok((j, d)) && {
            let raw = match token {
                Some(t) => t@,
                None => jwt->0@,
            };
            let given = match device_id {
                Some(x) => Some(x@),
                None => opt_view(device_id_snake),
            };
            &&& j@ == normalized_token(raw)
            &&& ((given matches Some(g) && trim(g).len() > 0) ==> d@ == trim(given->0))
            &&& (!(given matches Some(g) && trim(g).len() > 0) ==> match current {
                Some(c) => d@ == c@,
                None => is_uuid_text(d@),
            })
        }),
{
    let raw = match token {
        Some(t) => t,
        None => match jwt {
            Some(j) => j,
            None => return Err("token is required".to_string()),
        },
    };
    let jwt = normalize_token(raw.as_str());
    let given = match device_id {
        Some(d) => Some(d),
        None => device_id_snake,
    };
    let trimmed = match given {
        Some(g) => {
            let t = trim_chars(&chars_of(g.as_str()));
            if t.len() > 0 {
                Some(string_of(&t))
            } else {
                None
            }
        },
        None => None,
    };
    let device = match trimmed {
        Some(d) => d,
        None => match current {
            Some(c) => c,
            None => new_device_id(),
        },
    };
    Ok((jwt, device))
}

} // verus!
