//! Folder names for clips by creation date.
use vstd::prelude::*;
use crate::text::{
    chars_of, push_chars, signed_decimal, signed_decimal_chars, string_of, two_digit_chars,
    two_digits,
};
use crate::text_set::texts_of;
use crate::time::{
    fractional_z_instant, instant_is, iso_week_of, iso_year_of, month_of, parse_fractional_z,
    parse_rfc3339, rfc3339_instant, utc_iso_week, utc_iso_year, utc_month, utc_year, year_of,
    Instant,
};
use crate::types::{Clip, OrganizeMode};

verus! {

/// The folder for clips without a readable creation date.
pub open spec fn unknown_folder() -> Seq<char> {
    seq!['u', 'n', 'k', 'n', 'o', 'w', 'n']
}

/// What a timestamp text is read as: RFC 3339, or else the `%Y-%m-%dT%H:%M:%S%.fZ` format.
pub open spec fn created_instant(raw: Seq<char>) -> Option<(int, int)> {
    if rfc3339_instant(raw) is Some {
        rfc3339_instant(raw)
    } else {
        fractional_z_instant(raw)
    }
}

/// `r` is the instant the text is read as, or both are absent.
pub open spec fn instant_matches(r: Option<Instant>, p: Option<(int, int)>) -> bool {
    match r {
        Some(t) => p is Some && instant_is(t, p->0),
        None => p is None,
    }
}

/// When the clip was created, read from its `created_at` text.
pub fn parse_created_at(clip: &Clip) -> (r: Option<Instant>)
    ensures
        match clip.created_at {
            None => r is None,
            Some(raw) => instant_matches(r, created_instant(raw@)),
        },
{
    let raw = match &clip.created_at {
        Some(raw) => raw,
        None => return None,
    };
    match parse_rfc3339(raw.as_str()) {
        Some(t) => Some(t),
        None => parse_fractional_z(raw.as_str()),
    }
}

/// `"{year}-{month:02}"` of the UTC date.
pub open spec fn month_key(secs: int, nanos: int) -> Seq<char> {
    signed_decimal(utc_year(secs, nanos)) + seq!['-'] + two_digits(utc_month(secs, nanos) as nat)
}

/// `"{iso_year}-W{iso_week:02}"` of the UTC date.
pub open spec fn iso_week_key(secs: int, nanos: int) -> Seq<char> {
    signed_decimal(utc_iso_year(secs, nanos)) + seq!['-', 'W'] + two_digits(
        utc_iso_week(secs, nanos) as nat,
    )
}

/// The month folder name, such as `2024-03`.
pub fn format_month_key(date: &Instant) -> (r: String)
    ensures
        r@ == month_key(date.secs(), date.nanos()),
{
    let mut v = signed_decimal_chars(year_of(date));
    push_chars(&mut v, &['-']);
    let m = two_digit_chars(month_of(date));
    push_chars(&mut v, &m);
    string_of(&v)
}

/// The ISO week year and number of the date.
fn iso_week_parts(date: &Instant) -> (r: (i32, u32))
    ensures
        r.0 == utc_iso_year(date.secs(), date.nanos()),
        r.1 == utc_iso_week(date.secs(), date.nanos()),
        1 <= r.1 <= 53,
{
    (iso_year_of(date), iso_week_of(date))
}

/// The ISO week folder name, such as `2024-W09`.
pub fn format_iso_week_key(date: &Instant) -> (r: String)
    ensures
        r@ == iso_week_key(date.secs(), date.nanos()),
{
    let (iso_year, iso_week) = iso_week_parts(date);
    let mut v = signed_decimal_chars(iso_year);
    push_chars(&mut v, &['-', 'W']);
    let w = two_digit_chars(iso_week);
    push_chars(&mut v, &w);
    string_of(&v)
}

/// The folder a clip goes to, as path parts to be joined in order: the base folder, then the
/// month and/or ISO week folder the mode asks for. Only an RFC 3339 creation time is read here;
/// a clip without one goes to `unknown` (unless the mode is flat).
pub open spec fn clip_output_parts(base: Seq<char>, created_at: Option<Seq<char>>, mode: OrganizeMode) -> Seq<Seq<char>> {
    if mode == OrganizeMode::Flat {
        seq![base]
    } else {
        let date = match created_at {
            Some(raw) => rfc3339_instant(raw),
            None => None,
        };
        match date {
            None => seq![base, unknown_folder()],
            Some(p) => match mode {
                OrganizeMode::Month => seq![base, month_key(p.0, p.1)],
                OrganizeMode::Week => seq![base, iso_week_key(p.0, p.1)],
                _ => seq![base, month_key(p.0, p.1), iso_week_key(p.0, p.1)],
            },
        }
    }
}

/// The folder a clip goes to (see [`clip_output_parts`]), as path parts.
pub fn resolve_clip_output_dir(base_dir: &str, created_at: Option<&str>, mode: &OrganizeMode) -> (r:
    Vec<String>)
    ensures
        texts_of(r@) == clip_output_parts(
            base_dir@,
            match created_at {
                Some(s) => Some(s@),
                None => None,
            },
            *mode,
        ),
{
    let base = string_of(&chars_of(base_dir));
    let mut parts: Vec<String> = Vec::new();
    parts.push(base);
    if *mode == OrganizeMode::Flat {
        assert(texts_of(parts@) =~= seq![base_dir@]);
        return parts;
    }
    let date = match created_at {
        Some(raw) => parse_rfc3339(raw),
        None => None,
    };
    let date = match date {
        Some(d) => d,
        None => {
            parts.push(string_of(&['u', 'n', 'k', 'n', 'o', 'w', 'n']));
            assert(texts_of(parts@) =~= seq![base_dir@, unknown_folder()]);
            return parts;
        },
    };
    match mode {
        OrganizeMode::Month => {
            parts.push(format_month_key(&date));
        },
        OrganizeMode::Week => {
            parts.push(format_iso_week_key(&date));
        },
        _ => {
            parts.push(format_month_key(&date));
            parts.push(format_iso_week_key(&date));
        },
    }
    assert(texts_of(parts@) =~= clip_output_parts(
        base_dir@,
        match created_at {
            Some(s) => Some(s@),
            None => None,
        },
        *mode,
    ));
    parts
}

} // verus!
