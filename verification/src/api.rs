//! Talking to the music service: where requests go, how the library feed is paged and merged,
//! and how a clip's WAV file is located. The requests themselves are sent by the caller.
use vstd::prelude::*;
use crate::json::{
    entry_views, find_wav_url, lookup, found_in_items, found_wav_url, keyed_wav_url, lemma_values_as_items,
    opt_text, wav_url_keys, Json,
};
use crate::auth::AuthError;
use crate::text::{
    chars_contain, chars_of, chars_start_with, contains_text, push_chars, starts_with, string_of,
};
use crate::types::Clip;

verus! {

pub open spec fn opt_json(o: Option<String>) -> Json {
    match o {
        Some(s) => Json::Str(s),
        None => Json::Null,
    }
}

/// The keys of a clip written as a JSON object, in ascending order.
pub open spec fn clip_json_keys() -> Seq<Seq<char>> {
    seq![
        seq!['a', 'u', 'd', 'i', 'o', '_', 'u', 'r', 'l'],
        seq!['a', 'u', 'd', 'i', 'o', '_', 'u', 'r', 'l', '_', 'w', 'a', 'v'],
        seq!['c', 'r', 'e', 'a', 't', 'e', 'd', '_', 'a', 't'],
        seq!['i', 'd'],
        seq!['m', 'a', 's', 't', 'e', 'r', '_', 'w', 'a', 'v', '_', 'u', 'r', 'l'],
        seq!['p', 'r', 'e', 'v', 'i', 'e', 'w', '_', 'w', 'a', 'v', '_', 'u', 'r', 'l'],
        seq!['t', 'i', 't', 'l', 'e'],
        seq!['w', 'a', 'v', '_', 'a', 'u', 'd', 'i', 'o', '_', 'u', 'r', 'l'],
        seq!['w', 'a', 'v', '_', 'u', 'r', 'l'],
    ]
}

/// The values of a clip written as a JSON object (absent fields are `null`), in key order.
pub open spec fn clip_json_values(c: Clip) -> Seq<Json> {
    seq![
        opt_json(c.audio_url),
        opt_json(c.audio_url_wav),
        opt_json(c.created_at),
        Json::Str(c.id),
        opt_json(c.master_wav_url),
        opt_json(c.preview_wav_url),
        opt_json(c.title),
        opt_json(c.wav_audio_url),
        opt_json(c.wav_url),
    ]
}

/// The entries of a clip written as a JSON object.
pub open spec fn clip_json_entries(c: Clip) -> Seq<(Seq<char>, Json)> {
    Seq::new(9, |i: int| (clip_json_keys()[i], clip_json_values(c)[i]))
}

/// The WAV address found in a clip written as a JSON object: the first WAV field that starts
/// with `http`, or else the first field value that looks like a WAV address, in key order.
pub open spec fn clip_wav_url(c: Clip) -> Option<Seq<char>> {
    match keyed_wav_url(clip_json_entries(c), wav_url_keys()) {
        Some(u) => Some(u),
        None => found_in_items(clip_json_values(c)),
    }
}

fn opt_to_json(o: &Option<String>) -> (j: Json)
    ensures
        j == opt_json(*o),
{
    match o {
        Some(s) => Json::Str(s.clone()),
        None => Json::Null,
    }
}

fn key_text(k: &[char]) -> (s: String)
    ensures
        s@ == k@,
{
    string_of(k)
}

/// The clip as a JSON object, keys in ascending order.
pub fn clip_to_json(clip: &Clip) -> (j: Json)
    ensures
        j matches Json::Object(e) && entry_views(e@) == clip_json_entries(*clip) && e@.map_values(
            |x: (String, Json)| x.1,
        ) == clip_json_values(*clip),
{
    let mut e: Vec<(String, Json)> = Vec::new();
    e.push((key_text(&['a', 'u', 'd', 'i', 'o', '_', 'u', 'r', 'l']), opt_to_json(&clip.audio_url)));
    e.push(
        (
            key_text(&['a', 'u', 'd', 'i', 'o', '_', 'u', 'r', 'l', '_', 'w', 'a', 'v']),
            opt_to_json(&clip.audio_url_wav),
        ),
    );
    e.push(
        (key_text(&['c', 'r', 'e', 'a', 't', 'e', 'd', '_', 'a', 't']), opt_to_json(&clip.created_at)),
    );
    e.push((key_text(&['i', 'd']), Json::Str(clip.id.clone())));
    e.push(
        (
            key_text(&['m', 'a', 's', 't', 'e', 'r', '_', 'w', 'a', 'v', '_', 'u', 'r', 'l']),
            opt_to_json(&clip.master_wav_url),
        ),
    );
    e.push(
        (
            key_text(&['p', 'r', 'e', 'v', 'i', 'e', 'w', '_', 'w', 'a', 'v', '_', 'u', 'r', 'l']),
            opt_to_json(&clip.preview_wav_url),
        ),
    );
    e.push((key_text(&['t', 'i', 't', 'l', 'e']), opt_to_json(&clip.title)));
    e.push(
        (
            key_text(&['w', 'a', 'v', '_', 'a', 'u', 'd', 'i', 'o', '_', 'u', 'r', 'l']),
            opt_to_json(&clip.wav_audio_url),
        ),
    );
    e.push((key_text(&['w', 'a', 'v', '_', 'u', 'r', 'l']), opt_to_json(&clip.wav_url)));
    assert(entry_views(e@) =~= clip_json_entries(*clip));
    assert(e@.map_values(|x: (String, Json)| x.1) =~= clip_json_values(*clip));
    Json::Object(e)
}

/// The WAV address found in the clip's own fields (see [`clip_wav_url`]).
pub fn find_wav_url_in_clip(clip: &Clip) -> (r: Option<String>)
    ensures
        opt_text(r) == clip_wav_url(*clip),
{
    let j = clip_to_json(clip);
    let r = find_wav_url(&j);
    proof {
        if let Json::Object(e) = j {
            lemma_values_as_items(e@);
        }
    }
    r
}

/// Where to get a clip's WAV file: the address found in the clip, and whether the service
/// must first be asked to convert the clip to WAV (exactly when no address was found).
pub fn resolve_wav_source(clip: &Clip) -> (r: (Option<String>, bool))
    ensures
        opt_text(r.0) == clip_wav_url(*clip),
        r.1 == (clip_wav_url(*clip) is None),
{
    match find_wav_url_in_clip(clip) {
        Some(url) => (Some(url), false),
        None => (None, true),
    }
}

/// The text of an API answer with status 401.
/// The fields of a feed answer that may hold its list of clips, in the order they are tried.
pub open spec fn clip_list_keys() -> Seq<Seq<char>> {
    seq!["clips"@, "songs"@, "data"@, "items"@]
}

/// The values under those of `keys` that the entries hold, in the order of `keys`.
pub open spec fn values_at(entries: Seq<(Seq<char>, Json)>, keys: Seq<Seq<char>>) -> Seq<Json>
    decreases keys.len(),
{
    if keys.len() == 0 {
        seq![]
    } else {
        let rest = values_at(entries, keys.drop_first());
        match lookup(entries, keys[0]) {
            Some(v) => seq![v] + rest,
            None => rest,
        }
    }
}

/// Where a feed answer's clips may be, in the order to try them: a list answer is itself the
/// list (and nothing else is tried); an object answer offers its `clips`, `songs`, `data` and
/// `items` fields that are present; any other answer offers nothing. The clips are those of
/// the first candidate that reads as a list of clips, or none.
pub open spec fn clip_list_candidates_of(data: Json) -> Seq<Json> {
    match data {
        Json::Array(_) => seq![data],
        Json::Object(entries) => values_at(entry_views(entries@), clip_list_keys()),
        _ => seq![],
    }
}

fn list_key(k: usize) -> (r: Vec<char>)
    requires
        k < 4,
    ensures
        r@ == clip_list_keys()[k as int],
{
    proof {
        reveal_strlit("clips");
        reveal_strlit("songs");
        reveal_strlit("data");
        reveal_strlit("items");
    }
    let r = if k == 0 {
        vec!['c', 'l', 'i', 'p', 's']
    } else if k == 1 {
        vec!['s', 'o', 'n', 'g', 's']
    } else if k == 2 {
        vec!['d', 'a', 't', 'a']
    } else {
        vec!['i', 't', 'e', 'm', 's']
    };
    assert(r@ =~= clip_list_keys()[k as int]);
    r
}

/// The candidates for a feed answer's list of clips (see [`clip_list_candidates_of`]).
pub fn clip_list_candidates<'a>(data: &'a Json) -> (r: Vec<&'a Json>)
    ensures
        r@.map_values(|x: &Json| *x) == clip_list_candidates_of(*data),
{
    let mut r: Vec<&'a Json> = Vec::new();
    match data {
        Json::Array(_) => {
            r.push(data);
            assert(r@.map_values(|x: &Json| *x) =~= seq![*data]);
        },
        Json::Object(entries) => {
            let ghost ev = entry_views(entries@);
            let mut k: usize = 4;
            let ghost keys = clip_list_keys();
            let mut found: Vec<&'a Json> = Vec::new();
            while k > 0
                invariant
                    k <= 4,
                    ev == entry_views(entries@),
                    keys == clip_list_keys(),
                    found@.map_values(|x: &Json| *x) == values_at(ev, keys.subrange(k as int, 4)),
                decreases k,
            {
                k = k - 1;
                let key = list_key(k);
                assert(keys.subrange(k as int, 4).drop_first() =~= keys.subrange(k + 1, 4));
                assert(keys.subrange(k as int, 4)[0] == keys[k as int]);
                match crate::json::lookup_key(entries, &key) {
                    Some(v) => {
                        let ghost before = found@;
                        found.insert(0, v);
                        assert(found@.map_values(|x: &Json| *x) =~= seq![*v] + before.map_values(|x: &Json| *x));
                    },
                    None => {},
                }
            }
            assert(keys.subrange(0, 4) =~= keys);
            r = found;
        },
        _ => {
            assert(r@.map_values(|x: &Json| *x) =~= Seq::<Json>::empty());
        },
    }
    r
}

pub open spec fn session_expired_text() -> Seq<char> {
    "セッションの有効期限が切れました。再度認証してください。"@
}

/// A response of the service is refused, whatever the request, when its status is 401.
pub fn check_api_response(status: u16) -> (r: Result<(), AuthError>)
    ensures
        status == 401 ==> (r matches Err(AuthError::Message(m)) && m@ == session_expired_text()),
        status != 401 ==> r is Ok,
{
    if status == 401 {
        return Err(AuthError::Message("セッションの有効期限が切れました。再度認証してください。".to_string()));
    }
    Ok(())
}

/// `/api/gen/{clip_id}/wav_file/`.
pub open spec fn wav_file_path(clip_id: Seq<char>) -> Seq<char> {
    "/api/gen/"@ + clip_id + "/wav_file/"@
}

/// `/api/gen/{clip_id}/convert_wav/`.
pub open spec fn convert_wav_path(clip_id: Seq<char>) -> Seq<char> {
    "/api/gen/"@ + clip_id + "/convert_wav/"@
}

/// The path that reports a clip's WAV file.
pub fn wav_file_api_path(clip_id: &str) -> (r: String)
    ensures
        r@ == wav_file_path(clip_id@),
{
    let mut v = chars_of("/api/gen/");
    push_chars(&mut v, &chars_of(clip_id));
    push_chars(&mut v, &chars_of("/wav_file/"));
    assert(v@ =~= wav_file_path(clip_id@));
    string_of(&v)
}

/// The path that asks for a clip to be converted to WAV.
pub fn convert_wav_api_path(clip_id: &str) -> (r: String)
    ensures
        r@ == convert_wav_path(clip_id@),
{
    let mut v = chars_of("/api/gen/");
    push_chars(&mut v, &chars_of(clip_id));
    push_chars(&mut v, &chars_of("/convert_wav/"));
    assert(v@ =~= convert_wav_path(clip_id@));
    string_of(&v)
}

/// What an answer about a clip's WAV file means.
pub enum WavStatus {
    /// Not there yet (404): ask again later.
    NotReady,
    /// Refused (any other status outside 200 to 299).
    Failed(AuthError),
    /// There: read the body.
    Ready,
}

/// What the status of an answer about a clip's WAV file means.
pub fn wav_status(status: u16, status_text: &str) -> (r: WavStatus)
    ensures
        status == 404 ==> r is NotReady,
        status != 404 && !(200 <= status <= 299) ==> (r matches WavStatus::Failed(
            AuthError::Message(m),
        ) && m@ == "WAV status check failed: "@ + status_text@),
        200 <= status <= 299 ==> r is Ready,
{
    if status == 404 {
        return WavStatus::NotReady;
    }
    if !(200 <= status && status <= 299) {
        let mut v = chars_of("WAV status check failed: ");
        push_chars(&mut v, &chars_of(status_text));
        return WavStatus::Failed(AuthError::Message(string_of(&v)));
    }
    WavStatus::Ready
}

/// The body of a WAV-file answer is read as JSON when its content type mentions
/// `application/json`.
pub fn is_json_content(content_type: &str) -> (b: bool)
    ensures
        b == contains_text(content_type@, "application/json"@),
{
    let c = chars_of(content_type);
    let j = chars_of("application/json");
    chars_contain(&c, &j)
}

pub open spec fn binary_marker_prefix() -> Seq<char> {
    "__binary__:"@
}

/// What a ready WAV-file answer yields: for a JSON body, the WAV address found in it; for any
/// other non-empty body, the marker `__binary__:{clip_id}` (the file itself is the body);
/// nothing otherwise.
pub fn wav_url_from_answer(clip_id: &str, json_body: Option<&Json>, body_len: usize) -> (r: Option<
    String,
>)
    ensures
        match json_body {
            Some(j) => opt_text(r) == found_wav_url(*j),
            None => if body_len > 0 {
                r matches Some(u) && u@ == binary_marker_prefix() + clip_id@
            } else {
                r is None
            },
        },
{
    match json_body {
        Some(j) => find_wav_url(j),
        None => {
            if body_len > 0 {
                let mut v = chars_of("__binary__:");
                push_chars(&mut v, &chars_of(clip_id));
                Some(string_of(&v))
            } else {
                None
            }
        },
    }
}

/// How to download a clip's WAV file.
pub enum WavDownload {
    /// From the service, at this API path.
    Binary { path: String },
    /// From this address.
    Direct { url: String },
}

/// `{CDN}/{clip_id}.wav`.
pub open spec fn cdn_wav_url(clip_id: Seq<char>) -> Seq<char> {
    crate::paths::cdn_base() + seq!['/'] + clip_id + seq!['.', 'w', 'a', 'v']
}

/// How to download a clip's WAV file, given the address found for it (if any): with none, the
/// CDN address; an address with the binary marker means the service's WAV-file path.
pub fn wav_download_plan(clip_id: &str, found: Option<String>) -> (r: WavDownload)
    ensures
        ({
            let url = match found {
                Some(u) => u@,
                None => cdn_wav_url(clip_id@),
            };
            if starts_with(url, binary_marker_prefix()) {
                r matches WavDownload::Binary { path } && path@ == wav_file_path(clip_id@)
            } else {
                r matches WavDownload::Direct { url: u } && u@ == url
            }
        }),
{
    let url = match found {
        Some(u) => u,
        None => {
            let mut v = chars_of("https://cdn1.suno.ai");
            push_chars(&mut v, &['/']);
            push_chars(&mut v, &chars_of(clip_id));
            push_chars(&mut v, &['.', 'w', 'a', 'v']);
            assert(v@ =~= cdn_wav_url(clip_id@));
            string_of(&v)
        },
    };
    let uc = chars_of(url.as_str());
    if chars_start_with(&uc, &chars_of("__binary__:")) {
        WavDownload::Binary { path: wav_file_api_path(clip_id) }
    } else {
        WavDownload::Direct { url }
    }
}

/// Why a WAV request failed.
pub enum WavStage {
    /// The conversion request.
    Conversion,
    /// Downloading the file from the service.
    Binary,
    /// Downloading the file from its address.
    Cdn,
}

/// The error for a WAV request refused with the given status.
pub fn wav_failure(stage: WavStage, status_text: &str) -> (e: AuthError)
    ensures
        e matches AuthError::Message(m) && m@ == match stage {
            WavStage::Conversion => "WAV conversion request failed: "@ + status_text@,
            WavStage::Binary => "Failed to download WAV binary: "@ + status_text@,
            WavStage::Cdn => "Failed to download WAV from CDN: "@ + status_text@,
        },
{
    let mut v = match stage {
        WavStage::Conversion => chars_of("WAV conversion request failed: "),
        WavStage::Binary => chars_of("Failed to download WAV binary: "),
        WavStage::Cdn => chars_of("Failed to download WAV from CDN: "),
    };
    push_chars(&mut v, &chars_of(status_text));
    AuthError::Message(string_of(&v))
}

} // verus!
