use suno_downloader::date_filters::since_cutoff_from;
use suno_downloader::session::{new_session, session_at};
use suno_downloader::text_set::TextSet;
use suno_downloader::time::Instant;

#[test]
fn text_set_basics() {
    let mut s = TextSet::new();
    assert!(s.insert("a".to_string()));
    assert!(!s.insert("a".to_string()));
    assert!(s.insert("b".to_string()));
    assert_eq!(s.len(), 2);
    assert_eq!(s.to_vec(), vec!["a", "b"]);
    let t = TextSet::from_vec(vec!["x".to_string(), "x".to_string()]);
    assert_eq!(t.len(), 1);
}

#[test]
fn instants() {
    assert!(Instant::from_timestamp(i64::MAX, 0).is_none());
    assert!(Instant::from_timestamp(0, 2_000_000_000).is_none());
    let t = Instant::from_timestamp(1_709_632_800, 5_000_000).unwrap();
    assert_eq!(t.timestamp(), 1_709_632_800);
    assert_eq!(t.subsec_nanos(), 5_000_000);
    let epoch = Instant::from_timestamp(0, 0).unwrap();
    assert_eq!(session_at("j", "d", &epoch).saved_at, "1970-01-01T00:00:00+00:00");
    assert_eq!(session_at("j", "d", &t).saved_at, "2024-03-05T10:00:00.005+00:00");
    let e = since_cutoff_from(&t, "1h").ok().unwrap();
    assert_eq!(e.timestamp(), 1_709_629_200);
    assert_eq!(e.subsec_nanos(), 5_000_000);
    assert!(e.not_after(&t));
    assert!(!t.not_after(&e));
}

#[test]
fn sessions_to_save() {
    let s = new_session("jwt", "dev");
    assert_eq!(s.jwt, "jwt");
    assert_eq!(s.device_id, "dev");
    assert!(s.storage_state.is_none());
    assert!(s.saved_at.contains('T'));
}
