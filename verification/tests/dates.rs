use suno_downloader::date_filters::{
    is_clip_created_after, parse_since_duration, resolve_since_cutoff_optional, since_cutoff_from,
    since_duration_fits, should_stop_feed_paging, SinceError,
};
use suno_downloader::date_folders::{
    format_iso_week_key, format_month_key, parse_created_at, resolve_clip_output_dir,
};
use suno_downloader::time::Instant;
use suno_downloader::types::{Clip, OrganizeMode};

fn clip(id: &str, created_at: Option<&str>) -> Clip {
    Clip {
        id: id.to_string(),
        title: None,
        created_at: created_at.map(|s| s.to_string()),
        audio_url: None,
        audio_url_wav: None,
        wav_url: None,
        wav_audio_url: None,
        master_wav_url: None,
        preview_wav_url: None,
    }
}

fn at(secs: i64) -> Instant {
    Instant::from_timestamp(secs, 0).unwrap()
}

#[test]
fn since_units() {
    assert_eq!(parse_since_duration("7d").ok(), Some(7 * 86_400_000));
    assert_eq!(parse_since_duration("1w").ok(), Some(7 * 86_400_000));
    assert_eq!(parse_since_duration("2W").ok(), Some(14 * 86_400_000));
    assert_eq!(parse_since_duration("12h").ok(), Some(12 * 3_600_000));
    assert_eq!(parse_since_duration("3m").ok(), Some(90 * 86_400_000));
    assert_eq!(parse_since_duration(" 1D \n").ok(), Some(86_400_000));
    assert_eq!(parse_since_duration("007d").ok(), Some(7 * 86_400_000));
    assert_eq!(parse_since_duration("2w").ok(), parse_since_duration("14d").ok());
    assert_eq!(parse_since_duration(" 2H ").ok(), Some(7_200_000));
    assert_eq!(parse_since_duration("1m").ok(), Some(2_592_000_000));
    assert!(matches!(parse_since_duration("7 d"), Err(SinceError::Invalid(_))));
    assert!(matches!(parse_since_duration("d7"), Err(SinceError::Invalid(_))));
}

#[test]
fn since_cutoff_is_the_duration_before_now() {
    let now = std::time::SystemTime::now().duration_since(std::time::UNIX_EPOCH).unwrap().as_secs() as i64;
    let c = resolve_since_cutoff_optional(Some(" 1h ")).ok().unwrap().unwrap();
    assert!((c.timestamp() - (now - 3_600)).abs() < 60);
    let c = resolve_since_cutoff_optional(Some("2d")).ok().unwrap().unwrap();
    assert!((c.timestamp() - (now - 2 * 86_400)).abs() < 60);
}

#[test]
fn since_errors() {
    assert!(matches!(parse_since_duration("   "), Err(SinceError::Empty)));
    match parse_since_duration(" 7x ") {
        Err(SinceError::Invalid(v)) => assert_eq!(v, " 7x "),
        _ => panic!("expected an invalid value"),
    }
    assert!(matches!(parse_since_duration("d"), Err(SinceError::Invalid(_))));
    assert!(matches!(parse_since_duration("1.5d"), Err(SinceError::Invalid(_))));
    assert!(matches!(parse_since_duration("-1d"), Err(SinceError::Invalid(_))));
    assert!(matches!(parse_since_duration("0d"), Err(SinceError::NotPositive)));
    assert!(matches!(parse_since_duration("99999999999999999999h"), Err(SinceError::TooLarge)));
}

#[test]
fn since_other_decimal_digits() {
    // Arabic-Indic three and full-width one are decimal digits, but not ASCII ones.
    assert!(matches!(parse_since_duration("\u{663}d"), Err(SinceError::InvalidDigit)));
    assert!(matches!(parse_since_duration("3\u{663}w"), Err(SinceError::InvalidDigit)));
    assert!(matches!(parse_since_duration(" \u{ff11}h "), Err(SinceError::InvalidDigit)));
    // Digits before the first non-ASCII one that already overflow.
    assert!(matches!(parse_since_duration("99999999999999999999\u{663}d"), Err(SinceError::TooLarge)));
    // A Roman numeral is a number but not a decimal digit.
    assert!(matches!(parse_since_duration("\u{216b}d"), Err(SinceError::Invalid(_))));
    assert_eq!(SinceError::InvalidDigit.message(), "invalid digit found in string");
    assert!(since_duration_fits("\u{663}d"));
}

#[test]
fn since_overflow_is_detected() {
    assert!(since_duration_fits("7d"));
    assert!(since_duration_fits("garbage"));
    assert!(!since_duration_fits("9223372036854775807d"));
    assert!(since_duration_fits("106751991167d"));
    assert!(!since_duration_fits("106751991168d"));
}

#[test]
fn cutoff_is_now_minus_duration() {
    let now = Instant::from_timestamp(1_000_000, 500).unwrap();
    let c = since_cutoff_from(&now, "1d").ok().unwrap();
    assert_eq!(c.timestamp(), 1_000_000 - 86_400);
    assert_eq!(c.subsec_nanos(), 500);
    assert!(matches!(since_cutoff_from(&now, "x"), Err(SinceError::Invalid(_))));
}

#[test]
fn optional_cutoff() {
    assert!(matches!(resolve_since_cutoff_optional(None), Ok(None)));
    assert!(matches!(resolve_since_cutoff_optional(Some("  ")), Ok(None)));
    assert!(matches!(resolve_since_cutoff_optional(Some("7d")), Ok(Some(_))));
    assert!(matches!(resolve_since_cutoff_optional(Some("7q")), Err(SinceError::Invalid(_))));
}

#[test]
fn created_after_cutoff() {
    let c = clip("a", Some("2024-03-05T10:00:00Z"));
    assert!(is_clip_created_after(&c, &at(1_709_632_800)));
    assert!(!is_clip_created_after(&c, &at(1_709_632_801)));
    assert!(!is_clip_created_after(&clip("b", None), &at(0)));
    assert!(!is_clip_created_after(&clip("b", Some("yesterday")), &at(0)));
}

#[test]
fn stop_paging_when_all_dated_clips_are_old() {
    let cutoff = at(1_709_632_800);
    let old = clip("a", Some("2024-03-01T00:00:00Z"));
    let new = clip("b", Some("2024-03-06T00:00:00Z"));
    let undated = clip("c", None);
    assert!(should_stop_feed_paging(&[old.duplicate(), undated.duplicate()], &cutoff));
    assert!(!should_stop_feed_paging(&[old.duplicate(), new.duplicate()], &cutoff));
    assert!(!should_stop_feed_paging(&[undated.duplicate()], &cutoff));
    assert!(!should_stop_feed_paging(&[], &cutoff));
}

#[test]
fn created_at_is_read_as_rfc3339() {
    let t = parse_created_at(&clip("a", Some("2024-03-05T19:00:00+09:00"))).unwrap();
    assert_eq!(t.timestamp(), 1_709_632_800);
    assert!(parse_created_at(&clip("a", Some("2024-03-05"))).is_none());
    assert!(parse_created_at(&clip("a", None)).is_none());
}

#[test]
fn month_and_week_keys() {
    assert_eq!(format_month_key(&at(0)), "1970-01");
    assert_eq!(format_iso_week_key(&at(0)), "1970-W01");
    assert_eq!(format_month_key(&at(1_709_632_800)), "2024-03");
    assert_eq!(format_iso_week_key(&at(1_709_632_800)), "2024-W10");
    assert_eq!(format_month_key(&at(1_609_459_200)), "2021-01");
    assert_eq!(format_iso_week_key(&at(1_609_459_200)), "2020-W53");
    assert_eq!(format_month_key(&at(-1)), "1969-12");
    assert_eq!(format_month_key(&at(951_782_400)), "2000-02");
    assert_eq!(format_month_key(&at(951_868_800)), "2000-03");
}

#[test]
fn output_dir_by_mode() {
    let created = Some("2024-03-05T10:00:00Z");
    assert_eq!(resolve_clip_output_dir("out", created, &OrganizeMode::Flat), vec!["out"]);
    assert_eq!(resolve_clip_output_dir("out", created, &OrganizeMode::Month), vec!["out", "2024-03"]);
    assert_eq!(resolve_clip_output_dir("out", created, &OrganizeMode::Week), vec!["out", "2024-W10"]);
    assert_eq!(
        resolve_clip_output_dir("out", created, &OrganizeMode::MonthWeek),
        vec!["out", "2024-03", "2024-W10"]
    );
    assert_eq!(resolve_clip_output_dir("out", None, &OrganizeMode::Week), vec!["out", "unknown"]);
    assert_eq!(resolve_clip_output_dir("out", Some("bad"), &OrganizeMode::Month), vec!["out", "unknown"]);
}
