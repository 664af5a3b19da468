use suno_downloader::auth::AuthError;
use suno_downloader::feed::{
    feed_strategies, merge_feed_results, FeedPager, FeedStep, FeedVersion, FetchClipsOptions,
};
use suno_downloader::json::Json;
use suno_downloader::time::Instant;
use suno_downloader::types::Clip;

fn clip(id: &str, created_at: Option<&str>) -> Clip {
    Clip {
        id: id.to_string(),
        title: None,
        created_at: created_at.map(|s| s.to_string()),
        audio_url: None,
        audio_url_wav: None,
        wav_url: None,
        wav_audio_url: None,
        master_wav_url: None,
        preview_wav_url: None,
    }
}

fn clips(ids: &[&str]) -> Vec<Clip> {
    ids.iter().map(|i| clip(i, None)).collect()
}

fn ids(v: &[Clip]) -> Vec<String> {
    v.iter().map(|c| c.id.clone()).collect()
}

fn no_cutoff() -> FetchClipsOptions {
    FetchClipsOptions { created_after: None }
}

fn request_path(step: FeedStep) -> String {
    match step {
        FeedStep::Request(r) => r.path,
        _ => panic!("expected a request"),
    }
}

#[test]
fn v1_pages_until_empty() {
    let mut p = FeedPager::new(FeedVersion::V1, 0, &no_cutoff());
    assert_eq!(request_path(p.next_request()), "/api/feed/?page=1");
    assert!(!p.on_page(clips(&["a", "b"]), None, None));
    assert_eq!(request_path(p.next_request()), "/api/feed/?page=2");
    assert!(!p.on_page(clips(&["b", "c"]), None, None));
    assert_eq!(request_path(p.next_request()), "/api/feed/?page=3");
    assert!(!p.on_page(vec![], None, None));
    assert!(p.is_finished());
    assert!(matches!(p.next_request(), FeedStep::Done));
    assert_eq!(ids(&p.into_clips()), vec!["a", "b", "c"]);
}

#[test]
fn v1_respects_the_page_limit() {
    let mut p = FeedPager::new(FeedVersion::V1, 2, &no_cutoff());
    assert_eq!(request_path(p.next_request()), "/api/feed/?page=1");
    p.on_page(clips(&["a"]), None, None);
    assert_eq!(request_path(p.next_request()), "/api/feed/?page=2");
    p.on_page(clips(&["b"]), None, None);
    assert!(matches!(p.next_request(), FeedStep::Done));
    assert_eq!(ids(&p.into_clips()), vec!["a", "b"]);
}

#[test]
fn v2_stops_on_a_short_page() {
    let mut p = FeedPager::new(FeedVersion::V2, 0, &no_cutoff());
    assert_eq!(request_path(p.next_request()), "/api/feed/v2/?page=0&page_size=20");
    let full: Vec<Clip> = (0..20).map(|i| clip(&format!("id{i}"), None)).collect();
    p.on_page(full, None, None);
    assert_eq!(request_path(p.next_request()), "/api/feed/v2/?page=1&page_size=20");
    p.on_page(clips(&["x"]), None, None);
    assert!(p.is_finished());
    assert_eq!(p.into_clips().len(), 21);
}

#[test]
fn v2_page_limit_counts_from_zero() {
    let mut p = FeedPager::new(FeedVersion::V2, 1, &no_cutoff());
    assert_eq!(request_path(p.next_request()), "/api/feed/v2/?page=0&page_size=20");
    let full: Vec<Clip> = (0..20).map(|i| clip(&format!("id{i}"), None)).collect();
    p.on_page(full, None, None);
    assert!(matches!(p.next_request(), FeedStep::Done));
}

#[test]
fn v3_follows_the_cursor() {
    let mut p = FeedPager::new(FeedVersion::V3, 0, &no_cutoff());
    match p.next_request() {
        FeedStep::Request(r) => {
            assert!(r.post);
            assert_eq!(r.path, "/api/feed/v3");
            match r.body {
                Some(Json::Object(e)) => {
                    let keys: Vec<&str> = e.iter().map(|(k, _)| k.as_str()).collect();
                    assert_eq!(keys, vec!["filters", "limit"]);
                }
                _ => panic!("expected a body"),
            }
        }
        _ => panic!("expected a request"),
    }
    p.on_page(clips(&["a"]), Some(true), Some("next".to_string()));
    match p.next_request() {
        FeedStep::Request(r) => match r.body {
            Some(Json::Object(e)) => {
                assert_eq!(e[0].0, "cursor");
                assert!(matches!(&e[0].1, Json::Str(c) if c == "next"));
            }
            _ => panic!("expected a body"),
        },
        _ => panic!("expected a request"),
    }
    p.on_page(clips(&["a", "b"]), Some(false), Some("more".to_string()));
    assert!(p.is_finished());
    assert_eq!(ids(&p.into_clips()), vec!["a", "b"]);
}

#[test]
fn v3_page_limit() {
    let mut p = FeedPager::new(FeedVersion::V3, 1, &no_cutoff());
    assert!(matches!(p.next_request(), FeedStep::Request(_)));
    p.on_page(clips(&["a"]), Some(true), Some("c".to_string()));
    assert!(matches!(p.next_request(), FeedStep::Done));
}

#[test]
fn paging_stops_at_the_cutoff() {
    let cutoff = Instant::from_timestamp(1_709_632_800, 0).unwrap();
    let mut p = FeedPager::new(FeedVersion::V1, 0, &FetchClipsOptions { created_after: Some(cutoff) });
    p.next_request();
    p.on_page(vec![clip("new", Some("2024-03-06T00:00:00Z"))], None, None);
    assert!(!p.is_finished());
    p.next_request();
    p.on_page(vec![clip("old", Some("2024-03-01T00:00:00Z"))], None, None);
    assert!(p.is_finished());
    assert_eq!(ids(&p.into_clips()), vec!["new", "old"]);
}

#[test]
fn feed_failure_messages() {
    let p = FeedPager::new(FeedVersion::V2, 0, &no_cutoff());
    match p.failure("500 Internal Server Error") {
        AuthError::Message(m) => assert_eq!(m, "feed v2 failed on page 0: 500 Internal Server Error"),
    }
    let p = FeedPager::new(FeedVersion::V3, 0, &no_cutoff());
    match p.failure("502 Bad Gateway") {
        AuthError::Message(m) => assert_eq!(m, "feed v3 failed: 502 Bad Gateway"),
    }
}

#[test]
fn strategies_are_tried_v2_v3_v1() {
    assert_eq!(feed_strategies(), [FeedVersion::V2, FeedVersion::V3, FeedVersion::V1]);
}

#[test]
fn merge_keeps_first_occurrences() {
    let r = merge_feed_results(vec![
        Ok(clips(&["a", "b"])),
        Err(AuthError::Message("v3 down".to_string())),
        Ok(clips(&["b", "c"])),
    ]);
    assert_eq!(ids(&r.ok().unwrap()), vec!["a", "b", "c"]);
}

#[test]
fn merge_reports_the_last_error_when_empty() {
    let r = merge_feed_results(vec![
        Err(AuthError::Message("one".to_string())),
        Ok(vec![]),
        Err(AuthError::Message("two".to_string())),
    ]);
    match r {
        Err(AuthError::Message(m)) => assert_eq!(m, "two"),
        _ => panic!("expected the last error"),
    }
    assert_eq!(merge_feed_results(vec![Ok(vec![])]).ok().unwrap().len(), 0);
}
