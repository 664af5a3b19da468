use suno_downloader::api::{
    check_api_response, clip_list_candidates, clip_to_json, convert_wav_api_path, find_wav_url_in_clip,
    is_json_content, resolve_wav_source, wav_download_plan, wav_failure, wav_file_api_path,
    wav_status, wav_url_from_answer, WavDownload, WavStage, WavStatus,
};
use suno_downloader::auth::AuthError;
use suno_downloader::json::{find_wav_url, Json};
use suno_downloader::paths::api_url;
use suno_downloader::types::Clip;

fn s(t: &str) -> Json {
    Json::Str(t.to_string())
}

fn obj(entries: Vec<(&str, Json)>) -> Json {
    Json::Object(entries.into_iter().map(|(k, v)| (k.to_string(), v)).collect())
}

fn text(e: AuthError) -> String {
    match e {
        AuthError::Message(m) => m,
    }
}

fn bare_clip(id: &str) -> Clip {
    Clip {
        id: id.to_string(),
        title: None,
        created_at: None,
        audio_url: None,
        audio_url_wav: None,
        wav_url: None,
        wav_audio_url: None,
        master_wav_url: None,
        preview_wav_url: None,
    }
}

#[test]
fn wav_url_in_string() {
    assert_eq!(find_wav_url(&s("https://cdn/x.wav")).as_deref(), Some("https://cdn/x.wav"));
    assert_eq!(find_wav_url(&s("HTTPS://CDN/X.WAV")).as_deref(), Some("HTTPS://CDN/X.WAV"));
    assert_eq!(find_wav_url(&s("https://cdn/x.mp3")), None);
    assert_eq!(find_wav_url(&s("ftp://cdn/x.wav")), None);
    assert_eq!(find_wav_url(&Json::Null), None);
}

#[test]
fn wav_url_in_array_takes_the_first() {
    let a = Json::Array(vec![s("nope"), s("http://a/1.wav"), s("http://a/2.wav")]);
    assert_eq!(find_wav_url(&a).as_deref(), Some("http://a/1.wav"));
}

#[test]
fn wav_url_keys_come_first() {
    let o = obj(vec![
        ("a", s("http://z/first.wav")),
        ("wav_url", s("http://z/keyed")),
    ]);
    assert_eq!(find_wav_url(&o).as_deref(), Some("http://z/keyed"));
    let o = obj(vec![
        ("wav_url", s("http://z/second")),
        ("audio_url_wav", s("http://z/first")),
    ]);
    assert_eq!(find_wav_url(&o).as_deref(), Some("http://z/first"));
    let o = obj(vec![("wav_url", s("not-http")), ("x", obj(vec![("y", s("http://n/deep.wav"))]))]);
    assert_eq!(find_wav_url(&o).as_deref(), Some("http://n/deep.wav"));
}

#[test]
fn wav_url_in_clip() {
    let mut c = bare_clip("id1");
    assert_eq!(find_wav_url_in_clip(&c), None);
    c.audio_url = Some("https://cdn/song.wav".to_string());
    assert_eq!(find_wav_url_in_clip(&c).as_deref(), Some("https://cdn/song.wav"));
    c.wav_url = Some("https://cdn/keyed".to_string());
    assert_eq!(find_wav_url_in_clip(&c).as_deref(), Some("https://cdn/keyed"));
    let (url, convert) = resolve_wav_source(&c);
    assert_eq!(url.as_deref(), Some("https://cdn/keyed"));
    assert!(!convert);
    let (url, convert) = resolve_wav_source(&bare_clip("x"));
    assert_eq!(url, None);
    assert!(convert);
}

#[test]
fn clip_json_has_sorted_keys() {
    match clip_to_json(&bare_clip("id9")) {
        Json::Object(e) => {
            let keys: Vec<&str> = e.iter().map(|(k, _)| k.as_str()).collect();
            let mut sorted = keys.clone();
            sorted.sort();
            assert_eq!(keys, sorted);
            assert_eq!(keys.len(), 9);
            assert!(matches!(&e[3].1, Json::Str(v) if v == "id9"));
        }
        _ => panic!("expected an object"),
    }
}

#[test]
fn api_paths() {
    assert_eq!(api_url("/api/feed/"), "https://studio-api.prod.suno.com/api/feed/");
    assert_eq!(api_url("https://other/x"), "https://other/x");
    assert_eq!(wav_file_api_path("abc"), "/api/gen/abc/wav_file/");
    assert_eq!(convert_wav_api_path("abc"), "/api/gen/abc/convert_wav/");
}

#[test]
fn unauthorized_answers_are_refused() {
    assert_eq!(text(check_api_response(401).err().unwrap()), "セッションの有効期限が切れました。再度認証してください。");
    assert!(check_api_response(200).is_ok());
    assert!(check_api_response(500).is_ok());
}

#[test]
fn wav_status_answers() {
    assert!(matches!(wav_status(404, "404 Not Found"), WavStatus::NotReady));
    assert!(matches!(wav_status(200, "200 OK"), WavStatus::Ready));
    match wav_status(500, "500 Internal Server Error") {
        WavStatus::Failed(e) => assert_eq!(text(e), "WAV status check failed: 500 Internal Server Error"),
        _ => panic!("expected a failure"),
    }
    assert!(is_json_content("application/json; charset=utf-8"));
    assert!(!is_json_content("audio/wav"));
}

#[test]
fn wav_answer_bodies() {
    let j = obj(vec![("wav_file_url", s("https://cdn/done.wav"))]);
    assert_eq!(wav_url_from_answer("c1", Some(&j), 0).as_deref(), Some("https://cdn/done.wav"));
    assert_eq!(wav_url_from_answer("c1", None, 10).as_deref(), Some("__binary__:c1"));
    assert_eq!(wav_url_from_answer("c1", None, 0), None);
}

#[test]
fn wav_download_plans() {
    match wav_download_plan("c1", None) {
        WavDownload::Direct { url } => assert_eq!(url, "https://cdn1.suno.ai/c1.wav"),
        _ => panic!("expected the CDN"),
    }
    match wav_download_plan("c1", Some("__binary__:c1".to_string())) {
        WavDownload::Binary { path } => assert_eq!(path, "/api/gen/c1/wav_file/"),
        _ => panic!("expected the service"),
    }
    match wav_download_plan("c1", Some("https://x/y.wav".to_string())) {
        WavDownload::Direct { url } => assert_eq!(url, "https://x/y.wav"),
        _ => panic!("expected the address"),
    }
}

#[test]
fn wav_failures() {
    assert_eq!(text(wav_failure(WavStage::Conversion, "403 Forbidden")), "WAV conversion request failed: 403 Forbidden");
    assert_eq!(text(wav_failure(WavStage::Binary, "500 X")), "Failed to download WAV binary: 500 X");
    assert_eq!(text(wav_failure(WavStage::Cdn, "404 Not Found")), "Failed to download WAV from CDN: 404 Not Found");
}

#[test]
fn feed_answer_list_candidates() {
    let list = Json::Array(vec![s("a")]);
    let c = clip_list_candidates(&list);
    assert_eq!(c.len(), 1);
    assert!(matches!(c[0], Json::Array(_)));
    let obj = Json::Object(vec![
        ("items".to_string(), s("i")),
        ("other".to_string(), s("o")),
        ("clips".to_string(), s("c")),
        ("data".to_string(), s("d")),
    ]);
    let c = clip_list_candidates(&obj);
    let texts: Vec<&str> = c
        .iter()
        .map(|j| match j {
            Json::Str(t) => t.as_str(),
            _ => "",
        })
        .collect();
    assert_eq!(texts, vec!["c", "d", "i"]);
    assert!(clip_list_candidates(&s("x")).is_empty());
    assert!(clip_list_candidates(&Json::Object(vec![])).is_empty());
}
