use suno_downloader::filenames::{build_wav_filename, sanitize_filename};
use suno_downloader::text_set::TextSet;

fn set_of(names: &[&str]) -> TextSet {
    TextSet::from_vec(names.iter().map(|s| s.to_string()).collect())
}

#[test]
fn sanitize_collapses_white_space_and_trims() {
    assert_eq!(sanitize_filename("  Hello \t\n  World  "), "Hello World");
}

#[test]
fn sanitize_drops_invalid_and_control_characters() {
    assert_eq!(sanitize_filename("a/b\\c:d*e?f\"g<h>i|j\u{7}k"), "abcdefghijk");
}

#[test]
fn sanitize_empty_title_is_untitled() {
    assert_eq!(sanitize_filename(""), "untitled");
    assert_eq!(sanitize_filename("  \u{3000} /// \u{1}"), "untitled");
}

#[test]
fn sanitize_cuts_long_titles_to_120_characters() {
    let long = "a".repeat(130);
    assert_eq!(sanitize_filename(&long), "a".repeat(120));
}

#[test]
fn sanitize_cut_drops_trailing_space() {
    let title = format!("{} bbb", "a".repeat(119));
    assert_eq!(sanitize_filename(&title), "a".repeat(119));
}

#[test]
fn sanitize_keeps_unicode_letters() {
    assert_eq!(sanitize_filename("夜の 歌"), "夜の 歌");
    assert_eq!(sanitize_filename("x\u{00a0}\u{00a0}y"), "x y");
}

#[test]
fn sanitize_twice_is_sanitize_once() {
    for t in ["  a  b ", "///", "x?y", &"z ".repeat(80)] {
        let once = sanitize_filename(t);
        assert_eq!(sanitize_filename(&once), once);
    }
}

#[test]
fn wav_filename_free_name() {
    assert_eq!(build_wav_filename("My Song", &TextSet::new()), "My Song.wav");
}

#[test]
fn wav_filename_numbers_taken_names() {
    let existing = set_of(&["My Song.wav"]);
    assert_eq!(build_wav_filename("My Song", &existing), "My Song (2).wav");
    let existing = set_of(&["My Song.wav", "My Song (2).wav", "My Song (3).wav"]);
    assert_eq!(build_wav_filename("My Song", &existing), "My Song (4).wav");
}

#[test]
fn wav_filename_skips_only_taken_numbers() {
    let existing = set_of(&["untitled.wav", "untitled (3).wav"]);
    assert_eq!(build_wav_filename("", &existing), "untitled (2).wav");
}

#[test]
fn wav_filename_uses_sanitized_title() {
    let existing = set_of(&["a b.wav"]);
    assert_eq!(build_wav_filename(" a / b ", &existing), "a b (2).wav");
}
