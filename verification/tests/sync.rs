use suno_downloader::auth::AuthError;
use suno_downloader::sync::{
    build_library_list, clip_title, dry_run_over, conversion_delay_at, pending_estimate, request_sync_cancel,
    sync_choices,
    wav_conversion_delay_secs, ClipDecision, SyncRun,
};
use suno_downloader::text_set::TextSet;
use suno_downloader::time::Instant;
use suno_downloader::types::{AppSettings, Clip, OrganizeMode, SyncOptions};

fn clip(id: &str, title: Option<&str>, created_at: Option<&str>) -> Clip {
    Clip {
        id: id.to_string(),
        title: title.map(|s| s.to_string()),
        created_at: created_at.map(|s| s.to_string()),
        audio_url: None,
        audio_url_wav: None,
        wav_url: None,
        wav_audio_url: None,
        master_wav_url: None,
        preview_wav_url: None,
    }
}

fn set_of(v: &[&str]) -> TextSet {
    TextSet::from_vec(v.iter().map(|s| s.to_string()).collect())
}

#[test]
fn titles() {
    assert_eq!(clip_title(&clip("a", Some("  Song  "), None)), "Song");
    assert_eq!(clip_title(&clip("a", Some("   "), None)), "untitled");
    assert_eq!(clip_title(&clip("a", None, None)), "untitled");
}

#[test]
fn library_listing() {
    let clips = vec![
        clip("AA", Some("One"), Some("2024-03-06T00:00:00Z")),
        clip("bb", None, Some("2024-03-01T00:00:00Z")),
        clip("cc", Some("Three"), None),
    ];
    let local = set_of(&["aa", "zz"]);
    let r = build_library_list(clips, &local, None);
    assert_eq!(r.local_count, 2);
    assert_eq!(r.clips.len(), 3);
    assert!(r.clips[0].synced);
    assert_eq!(r.clips[0].id, "AA");
    assert_eq!(r.clips[1].title, "untitled");
    assert!(!r.clips[1].synced);
    let cutoff = Instant::from_timestamp(1_709_632_800, 0).unwrap();
    let clips = vec![
        clip("AA", Some("One"), Some("2024-03-06T00:00:00Z")),
        clip("bb", None, Some("2024-03-01T00:00:00Z")),
        clip("cc", Some("Three"), None),
    ];
    let r = build_library_list(clips, &local, Some(&cutoff));
    assert_eq!(r.clips.len(), 1);
    assert_eq!(r.clips[0].title, "One");
}

#[test]
fn choices_prefer_options() {
    let settings = AppSettings {
        output_dir: None,
        organize: Some(OrganizeMode::Month),
        delay: None,
        max_pages: Some(4),
        since: Some("7d".to_string()),
    };
    let none = SyncOptions { dir: None, delay: None, dry_run: None, max_pages: None, organize: None, since: None };
    let (pages, organize, since) = sync_choices(&none, &settings);
    assert_eq!(pages, 4);
    assert_eq!(organize, OrganizeMode::Month);
    assert_eq!(since.as_deref(), Some("7d"));
    let some = SyncOptions {
        dir: None,
        delay: None,
        dry_run: None,
        max_pages: Some(1),
        organize: Some(OrganizeMode::Flat),
        since: Some("".to_string()),
    };
    let (pages, organize, since) = sync_choices(&some, &settings);
    assert_eq!(pages, 1);
    assert_eq!(organize, OrganizeMode::Flat);
    assert_eq!(since.as_deref(), Some(""));
    let empty = AppSettings { output_dir: None, organize: None, delay: None, max_pages: None, since: None };
    let (pages, organize, since) = sync_choices(&none, &empty);
    assert_eq!(pages, 0);
    assert_eq!(organize, OrganizeMode::Week);
    assert_eq!(since, None);
}

#[test]
fn estimate_counts_missing_clips() {
    let clips = vec![clip("A", None, None), clip("b", None, None), clip("c", None, None)];
    assert_eq!(pending_estimate(&clips, &set_of(&["a"])), 2);
}

#[test]
fn dry_run_counts_and_lists() {
    let clips = vec![
        clip("Have", Some("x"), None),
        clip("old", Some("Old"), Some("2024-03-01T00:00:00Z")),
        clip("new", Some("New"), Some("2024-03-06T10:00:00Z")),
    ];
    let cutoff = Instant::from_timestamp(1_709_632_800, 0).unwrap();
    let mut run = SyncRun::new("out".to_string(), OrganizeMode::Month, Some(cutoff), true, &clips, set_of(&["have"]));
    match run.decide(&clips[0]) {
        ClipDecision::Report(e) => assert_eq!(e.status, "skipped"),
        _ => panic!("expected a skip"),
    }
    match run.decide(&clips[1]) {
        ClipDecision::Report(e) => {
            assert_eq!(e.status, "filtered");
            assert_eq!(e.title, "Old");
        }
        _ => panic!("expected a filter"),
    }
    assert!(matches!(run.decide(&clips[2]), ClipDecision::Preview));
    let s = run.current_summary();
    assert_eq!((s.remote_count, s.skipped, s.filtered, s.pending_count, s.downloaded, s.failed), (3, 1, 1, 1, 0, 0));
    let (s, listed) = run.finish();
    assert_eq!(s.pending_count, 1);
    assert_eq!(listed.len(), 1);
    assert_eq!(listed[0].id, "new");
    assert_eq!(listed[0].title, "New");
    assert_eq!(listed[0].target_dir, vec!["out", "2024-03"]);
}

#[test]
fn downloads_count_success_and_failure() {
    let clips = vec![
        clip("a", Some("A"), None),
        clip("b", Some("B"), None),
        clip("c", None, None),
        clip("A", None, None),
    ];
    let mut run = SyncRun::new("out".to_string(), OrganizeMode::Flat, None, false, &clips, TextSet::new());
    assert_eq!(run.delay_inputs(), (0, 4));
    match run.decide(&clips[0]) {
        ClipDecision::Download { event, title, target_dir } => {
            assert_eq!(event.status, "downloading");
            assert_eq!(title, "A");
            assert_eq!(target_dir, vec!["out"]);
        }
        _ => panic!("expected a download"),
    }
    let ids = run.mark_downloaded("A");
    assert_eq!(ids, vec!["a"]);
    let (event, stop) = run.record_download(&clips[0], "A".to_string(), Ok(("out/A.wav".to_string(), true)));
    assert_eq!(event.status, "done");
    assert_eq!(event.message.as_deref(), Some("out/A.wav"));
    assert!(stop.is_none());
    assert_eq!(run.delay_inputs(), (1, 4));
    run.decide(&clips[1]);
    let (event, stop) = run.record_download(&clips[1], "B".to_string(), Err(AuthError::Message("network".to_string())));
    assert_eq!(event.status, "failed");
    assert!(stop.is_none());
    run.decide(&clips[2]);
    let msg = "セッションの有効期限が切れました。再度認証してください。".to_string();
    let (_, stop) = run.record_download(&clips[2], "untitled".to_string(), Err(AuthError::Message(msg.clone())));
    assert_eq!(stop, Some(msg));
    let s = run.current_summary();
    assert_eq!((s.remote_count, s.pending_count, s.downloaded, s.failed), (3, 3, 1, 2));
    match run.decide(&clips[3]) {
        ClipDecision::Report(e) => assert_eq!(e.status, "skipped"),
        _ => panic!("a downloaded clip is skipped"),
    }
    let (s, listed) = run.finish();
    assert!(listed.is_empty());
    assert_eq!((s.remote_count, s.skipped, s.pending_count, s.downloaded, s.failed), (4, 1, 3, 1, 2));
}

#[test]
fn conversion_delays() {
    assert_eq!(conversion_delay_at(0, 0, 0), 5);
    assert_eq!(conversion_delay_at(10, 0, 15), 15);
    assert_eq!(conversion_delay_at(11, 0, 16), 8);
    assert_eq!(conversion_delay_at(3, 12, 50), 5 + 6 + 2 + 3);
    assert_eq!(conversion_delay_at(21, 1000, 1000), 5 + 10 + 20 + 10);
    let d = wav_conversion_delay_secs(0, 0);
    assert!((5..=15).contains(&d));
}

#[test]
fn cancel_sets_the_flag() {
    let flag = std::sync::Arc::new(std::sync::atomic::AtomicBool::new(false));
    request_sync_cancel(&flag);
    assert!(flag.load(std::sync::atomic::Ordering::Relaxed));
    request_sync_cancel(&flag);
    assert!(flag.load(std::sync::atomic::Ordering::Relaxed));
}

#[test]
fn dry_run_over_all_clips() {
    let clips = vec![
        clip("Have", Some("x"), None),
        clip("old", Some("Old"), Some("2024-03-01T00:00:00Z")),
        clip("new", Some(" New "), Some("2024-03-06T10:00:00Z")),
        clip("nodate", None, None),
        clip("late", Some("Late"), Some("2024-03-07T10:00:00Z")),
    ];
    let cutoff = Instant::from_timestamp(1_709_632_800, 0).unwrap();
    let (s, listed) = dry_run_over("out".to_string(), OrganizeMode::Week, Some(cutoff), &clips, set_of(&["have"]));
    assert_eq!((s.remote_count, s.skipped, s.filtered, s.pending_count, s.downloaded, s.failed), (5, 1, 2, 2, 0, 0));
    assert_eq!(listed.len(), 2);
    assert_eq!((listed[0].id.as_str(), listed[0].title.as_str()), ("new", "New"));
    assert_eq!(listed[0].target_dir, vec!["out", "2024-W10"]);
    assert_eq!(listed[1].id, "late");
    let (s, listed) = dry_run_over("out".to_string(), OrganizeMode::Flat, None, &clips, TextSet::new());
    assert_eq!((s.remote_count, s.skipped, s.filtered, s.pending_count), (5, 0, 0, 5));
    assert_eq!(listed.len(), 5);
    assert_eq!(listed[3].title, "untitled");
}
