use suno_downloader::local_index::{
    index_ids, legacy_clip_id, legacy_ids_from_filenames, mark_clip_downloaded, merge_local_index,
    sorted_index_ids, wav_filenames,
};
use suno_downloader::text_set::TextSet;

fn strings(v: &[&str]) -> Vec<String> {
    v.iter().map(|s| s.to_string()).collect()
}

fn set_of(v: &[&str]) -> TextSet {
    TextSet::from_vec(strings(v))
}

#[test]
fn legacy_ids_from_file_names() {
    assert_eq!(
        legacy_clip_id("Song - 0A1B2C3D-4e5f-6789-ABCD-ef0123456789.WAV").as_deref(),
        Some("0a1b2c3d-4e5f-6789-abcd-ef0123456789")
    );
    assert_eq!(legacy_clip_id("0a1b2c3d-4e5f-6789-abcd-ef0123456789.wav.bak"), None);
    assert_eq!(legacy_clip_id("0a1b2c3d_4e5f-6789-abcd-ef0123456789.wav"), None);
    assert_eq!(legacy_clip_id("0a1b2c3d-4e5f-6789-abcd-ef012345678g.wav"), None);
    assert_eq!(legacy_clip_id("short.wav"), None);
}

#[test]
fn legacy_id_set() {
    let s = legacy_ids_from_filenames(&strings(&[
        "a-0a1b2c3d-4e5f-6789-abcd-ef0123456789.wav",
        "0A1B2C3D-4E5F-6789-ABCD-EF0123456789.wav",
        "other.wav",
    ]));
    assert_eq!(s.len(), 1);
    assert!(s.contains(&"0a1b2c3d-4e5f-6789-abcd-ef0123456789".to_string()));
}

#[test]
fn index_ids_are_lower_cased() {
    let s = index_ids(&strings(&["ABC", "abc", "Déf"]));
    assert_eq!(s.len(), 2);
    assert!(s.contains(&"abc".to_string()));
    assert!(s.contains(&"déf".to_string()));
}

#[test]
fn merging_the_index() {
    let (m, persist) = merge_local_index(&set_of(&["a"]), &set_of(&["b"]), &set_of(&["a", "c"]));
    assert_eq!(m.len(), 3);
    assert!(persist);
    let (m, persist) = merge_local_index(&set_of(&["a", "b"]), &set_of(&[]), &set_of(&["c", "d"]));
    assert_eq!(m.len(), 4);
    assert!(!persist);
    let (_, persist) = merge_local_index(&set_of(&[]), &set_of(&["x"]), &set_of(&[]));
    assert!(!persist);
}

#[test]
fn index_is_written_sorted() {
    let v = sorted_index_ids(&set_of(&["b", "a", "ab", "B", "é", "aa"]));
    assert_eq!(v, strings(&["B", "a", "aa", "ab", "b", "é"]));
}

#[test]
fn marking_adds_the_lower_cased_id() {
    let mut s = set_of(&["x"]);
    mark_clip_downloaded("ABC", &mut s);
    assert!(s.contains(&"abc".to_string()));
    assert_eq!(s.len(), 2);
    mark_clip_downloaded("abc", &mut s);
    assert_eq!(s.len(), 2);
}

#[test]
fn wav_file_names() {
    let s = wav_filenames(&strings(&["a.wav", "B.WAV", "c.mp3", ".wav", "wav"]));
    assert_eq!(s.len(), 3);
    assert!(s.contains(&"B.WAV".to_string()));
    assert!(!s.contains(&"c.mp3".to_string()));
}

#[test]
fn index_written_then_read_back_is_the_same() {
    let mut ids = TextSet::new();
    ids.insert("f47ac10b-58cc-4372-a567-0e02b2c3d479".to_string());
    ids.insert("0f8fad5b-d9cb-469f-a165-70867728950e".to_string());
    let written = sorted_index_ids(&ids);
    assert_eq!(
        written,
        vec![
            "0f8fad5b-d9cb-469f-a165-70867728950e".to_string(),
            "f47ac10b-58cc-4372-a567-0e02b2c3d479".to_string(),
        ]
    );
    let read = index_ids(&written);
    assert_eq!(read.len(), 2);
    assert!(read.contains(&"0f8fad5b-d9cb-469f-a165-70867728950e".to_string()));
    assert!(read.contains(&"f47ac10b-58cc-4372-a567-0e02b2c3d479".to_string()));
}
