//! The "since" filter: how far back a synchronisation looks, and which clips fall inside it.
use vstd::prelude::*;
use crate::date_folders::{created_instant, parse_created_at};
use crate::text::{
    all_digits, ascii_lower_char, chars_of, decimal, is_ascii_char, is_ws, lemma_decimal_digits,
    lemma_trim_noop, digits_value, is_ascii_digit, string_of, trim,
    trim_chars,
};
use crate::time::{checked_sub_millis, instant_is, instant_le, utc_minus_millis, utc_now, Instant};
use crate::types::Clip;

verus! {

pub const MS_PER_HOUR: i64 = 3_600_000;

pub const MS_PER_DAY: i64 = 86_400_000;

/// Why a "since" value was refused.
pub enum SinceError {
    /// The value is blank.
    Empty,
    /// The value is not a count followed by `h`, `d`, `w` or `m`; it holds the value as given.
    Invalid(String),
    /// The count does not fit in a signed 64-bit integer.
    TooLarge,
    /// The count holds a decimal digit other than ASCII `0` to `9`.
    InvalidDigit,
    /// The count is zero.
    NotPositive,
    /// The cut-off lies before the earliest time the date library can represent.
    OutOfRange,
}

impl SinceError {
    /// The text shown to the user.
    pub fn message(&self) -> (m: String)
        ensures
            match self {
                SinceError::Empty => m@ == "Since value must not be empty"@,
                SinceError::Invalid(v) => m@ == "Invalid since value: "@ + v@,
                SinceError::TooLarge => m@ == "number too large to fit in target type"@,
                SinceError::InvalidDigit => m@ == "invalid digit found in string"@,
                SinceError::NotPositive => m@ == "Duration must be greater than 0"@,
                SinceError::OutOfRange => m@ == "since value reaches before the earliest representable date"@,
            },
    {
        match self {
            SinceError::Empty => "Since value must not be empty".to_string(),
            SinceError::Invalid(v) => {
                let mut t = chars_of("Invalid since value: ");
                crate::text::push_chars(&mut t, &chars_of(v.as_str()));
                string_of(&t)
            },
            SinceError::TooLarge => "number too large to fit in target type".to_string(),
            SinceError::InvalidDigit => "invalid digit found in string".to_string(),
            SinceError::NotPositive => "Duration must be greater than 0".to_string(),
            SinceError::OutOfRange => "since value reaches before the earliest representable date".to_string(),
        }
    }
}

/// A unit letter: `h` (hours), `d` (days), `w` (weeks) or `m` (30-day months), in either case.
pub open spec fn is_since_unit(c: char) -> bool {
    let l = ascii_lower_char(c);
    l == 'h' || l == 'd' || l == 'w' || l == 'm'
}

/// Milliseconds in one unit.
pub open spec fn unit_millis(c: char) -> int {
    let l = ascii_lower_char(c);
    if l == 'h' {
        3_600_000
    } else if l == 'w' {
        604_800_000
    } else if l == 'm' {
        2_592_000_000
    } else {
        86_400_000
    }
}

/// Whether `c` is in the regular-expression class `\d` of the `regex` crate: Unicode's decimal
/// digits (general category `Nd`), ASCII `0` to `9` among them.
pub uninterp spec fn regex_decimal_digit(c: char) -> bool;

/// Whether `c` is matched by the `regex` crate's `\d` (see [`regex_decimal_digit`]).
#[verifier::external_body]
fn is_regex_digit(c: char) -> (b: bool)
    ensures
        b == regex_decimal_digit(c),
{
    regex::Regex::new(r"^\d$").unwrap().is_match(&c.to_string())
}

/// A decimal digit in the sense of `\d`: among ASCII characters exactly `0` to `9`; beyond
/// ASCII, Unicode's other decimal digits.
pub open spec fn since_digit(c: char) -> bool {
    if is_ascii_char(c) {
        is_ascii_digit(c)
    } else {
        regex_decimal_digit(c)
    }
}

/// Every character is a decimal digit in the sense of `\d`.
pub open spec fn all_since_digits(d: Seq<char>) -> bool {
    forall|k: int| 0 <= k < d.len() ==> since_digit(#[trigger] d[k])
}

/// Whether `c` is a decimal digit in the sense of `\d` (see [`since_digit`]).
fn is_since_digit(c: char) -> (b: bool)
    ensures
        b == since_digit(c),
{
    if (c as u32) < 0x80 {
        '0' <= c && c <= '9'
    } else {
        is_regex_digit(c)
    }
}

/// The trimmed value matches `^(\d+)([dwmh])$` ignoring case: one or more decimal digits
/// followed by a unit letter.
pub open spec fn since_syntax_ok(t: Seq<char>) -> bool {
    t.len() >= 2 && all_since_digits(t.drop_last()) && is_since_unit(t.last())
}

/// How many of the leading characters of `d` are ASCII digits.
pub open spec fn ascii_digit_run(d: Seq<char>) -> nat
    decreases d.len(),
{
    if d.len() > 0 && is_ascii_digit(d[0]) {
        1 + ascii_digit_run(d.drop_first())
    } else {
        0
    }
}

/// The count written in a well-formed trimmed value whose digits are ASCII.
pub open spec fn since_amount(t: Seq<char>) -> nat {
    digits_value(t.drop_last())
}

/// Reading a count of ASCII digits with a positive value that fits in `i64`, and a unit letter,
/// multiplies without leaving `i64`. A value with a positive count that fits in `i64` but whose
/// duration does not is one on which the computation overflows.
pub open spec fn since_fits(value: Seq<char>) -> bool {
    let t = trim(value);
    t.len() >= 2 && all_digits(t.drop_last()) && is_since_unit(t.last()) && 0 < since_amount(t)
        <= i64::MAX ==> since_amount(t) * unit_millis(t.last()) <= i64::MAX
}

/// The duration, in milliseconds, that a well-formed value with ASCII digits and a count from 1
/// to `i64::MAX` stands for.
pub open spec fn since_millis(value: Seq<char>) -> Option<int> {
    let t = trim(value);
    if since_syntax_ok(t) && all_digits(t.drop_last()) && 0 < since_amount(t) <= i64::MAX {
        Some(since_amount(t) * unit_millis(t.last()))
    } else {
        None
    }
}

/// The outcome of reading a "since" value: its duration in milliseconds, or why it is refused.
/// The count is read as `str::parse::<i64>` reads it, left to right: the first character that
/// is not an ASCII digit refuses it as an invalid digit, unless the digits before it already
/// exceed `i64::MAX`.
pub open spec fn since_outcome(value: Seq<char>, r: Result<i64, SinceError>) -> bool {
    let t = trim(value);
    let d = t.drop_last();
    let p = ascii_digit_run(d);
    if t.len() == 0 {
        r is Err && r->Err_0 is Empty
    } else if !since_syntax_ok(t) {
        r matches Err(SinceError::Invalid(v)) && v@ == value
    } else if digits_value(d.take(p as int)) > i64::MAX {
        r is Err && r->Err_0 is TooLarge
    } else if p < d.len() {
        r is Err && r->Err_0 is InvalidDigit
    } else if since_amount(t) == 0 {
        r is Err && r->Err_0 is NotPositive
    } else {
        r matches Ok(ms) && ms == since_amount(t) * unit_millis(t.last())
    }
}

proof fn lemma_digits_value_prefix(s: Seq<char>, k: int)
    requires
        0 <= k <= s.len(),
    ensures
        digits_value(s) >= digits_value(s.take(k)),
    decreases s.len() - k,
{
    if k < s.len() {
        lemma_digits_value_prefix(s, k + 1);
        assert(s.take(k + 1).drop_last() =~= s.take(k));
    } else {
        assert(s.take(k) =~= s);
    }
}

/// The leading ASCII digits are at most all of `d`, and all of it exactly when every character
/// is an ASCII digit.
proof fn lemma_ascii_digit_run_whole(d: Seq<char>)
    ensures
        ascii_digit_run(d) <= d.len(),
        (ascii_digit_run(d) == d.len()) == all_digits(d),
    decreases d.len(),
{
    if d.len() > 0 {
        let rest = d.drop_first();
        lemma_ascii_digit_run_whole(rest);
        if all_digits(d) {
            assert forall|k: int| 0 <= k < rest.len() implies is_ascii_digit(#[trigger] rest[k]) by {
                assert(rest[k] == d[k + 1]);
            }
        }
        if is_ascii_digit(d[0]) && all_digits(rest) {
            assert forall|k: int| 0 <= k < d.len() implies is_ascii_digit(#[trigger] d[k]) by {
                if k > 0 {
                    assert(d[k] == rest[k - 1]);
                }
            }
        }
    }
}

/// The leading ASCII digits of `d` number at least `i` when the first `i` characters are ASCII
/// digits, and exactly `i` when the next one is not (or there is none).
proof fn lemma_ascii_digit_run(d: Seq<char>, i: int)
    requires
        0 <= i <= d.len(),
        all_digits(d.take(i)),
    ensures
        ascii_digit_run(d) >= i,
        (i == d.len() || !is_ascii_digit(d[i])) ==> ascii_digit_run(d) == i,
    decreases i,
{
    if i > 0 {
        assert(is_ascii_digit(d.take(i)[0]));
        let rest = d.drop_first();
        assert forall|k: int| 0 <= k < i - 1 implies is_ascii_digit(#[trigger] rest.take(i - 1)[k]) by {
            assert(rest.take(i - 1)[k] == d.take(i)[k + 1]);
        }
        lemma_ascii_digit_run(rest, i - 1);
        if i < d.len() {
            assert(rest[i - 1] == d[i]);
        }
    }
}

/// Reads a count of decimal digits as `str::parse::<i64>` does (see [`since_outcome`]).
fn parse_count(digits: &[char]) -> (r: Result<i64, SinceError>)
    ensures
        ({
            let d = digits@;
            let p = ascii_digit_run(d);
            if digits_value(d.take(p as int)) > i64::MAX {
                r is Err && r->Err_0 is TooLarge
            } else if p < d.len() {
                r is Err && r->Err_0 is InvalidDigit
            } else {
                r matches Ok(n) && n == digits_value(d) && all_digits(d)
            }
        }),
{
    let ghost d = digits@;
    let mut acc: i64 = 0;
    let mut i: usize = 0;
    while i < digits.len()
        invariant
            i <= digits.len(),
            d == digits@,
            all_digits(d.take(i as int)),
            acc == digits_value(d.take(i as int)),
        decreases digits.len() - i,
    {
        let c = digits[i];
        if !('0' <= c && c <= '9') {
            proof {
                lemma_ascii_digit_run(d, i as int);
            }
            return Err(SinceError::InvalidDigit);
        }
        let dig: i64 = ((c as u32) - 48) as i64;
        assert(d.take(i + 1).drop_last() =~= d.take(i as int));
        assert(d.take(i + 1).last() == c);
        assert forall|k: int| 0 <= k < i + 1 implies is_ascii_digit(#[trigger] d.take(i + 1)[k]) by {
            if k < i {
                assert(d.take(i + 1)[k] == d.take(i as int)[k]);
            }
        }
        if acc > 922337203685477580 || (acc == 922337203685477580 && dig > 7) {
            proof {
                lemma_ascii_digit_run(d, i + 1);
                lemma_ascii_digit_run_whole(d);
                let p = ascii_digit_run(d) as int;
                assert(d.take(p).take(i + 1) =~= d.take(i + 1));
                lemma_digits_value_prefix(d.take(p), i + 1);
            }
            return Err(SinceError::TooLarge);
        }
        acc = acc * 10 + dig;
        i = i + 1;
    }
    proof {
        assert(d.take(d.len() as int) =~= d);
        lemma_ascii_digit_run(d, d.len() as int);
    }
    Ok(acc)
}

fn unit_of(c: char) -> (r: Option<i64>)
    ensures
        r is Some <==> is_since_unit(c),
        r matches Some(ms) ==> ms == unit_millis(c),
{
    if c == 'h' || c == 'H' {
        Some(MS_PER_HOUR)
    } else if c == 'w' || c == 'W' {
        Some(7 * MS_PER_DAY)
    } else if c == 'm' || c == 'M' {
        Some(30 * MS_PER_DAY)
    } else if c == 'd' || c == 'D' {
        Some(MS_PER_DAY)
    } else {
        None
    }
}

/// Reads a "since" value such as `7d`, `2w`, `12h` or `3M`: a count of hours, days, weeks or
/// 30-day months, surrounded by optional white space; the result is the duration in
/// milliseconds (see [`since_outcome`]).
pub fn parse_since_duration(value: &str) -> (r: Result<i64, SinceError>)
    requires
        since_fits(value@),
    ensures
        since_outcome(value@, r),
        since_millis(value@) matches Some(ms) ==> r == Ok::<i64, SinceError>(ms as i64),
        r matches Ok(ms) ==> ms > 0 && since_millis(value@) == Some(ms as int),
{
    proof {
        if trim(value@).len() > 0 {
            let d = trim(value@).drop_last();
            lemma_ascii_digit_run_whole(d);
            assert(d.take(d.len() as int) =~= d);
        }
    }
    let chars = chars_of(value);
    let t = trim_chars(&chars);
    if t.len() == 0 {
        return Err(SinceError::Empty);
    }
    let n = t.len();
    let mut all = n >= 2;
    let mut i: usize = 0;
    while i < n - 1
        invariant
            n == t.len(),
            n > 0,
            i <= n - 1,
            all == (n >= 2 && forall|k: int| 0 <= k < i ==> since_digit(#[trigger] t@[k])),
        decreases n - i,
    {
        let c = t[i];
        if !is_since_digit(c) {
            all = false;
        }
        i = i + 1;
    }
    let unit = unit_of(t[n - 1]);
    proof {
        if n >= 2 {
            let dl = t@.drop_last();
            if all {
                assert forall|k: int| 0 <= k < dl.len() implies since_digit(#[trigger] dl[k]) by {
                    assert(dl[k] == t@[k]);
                }
            }
            if all_since_digits(dl) {
                assert forall|k: int| 0 <= k < i implies since_digit(#[trigger] t@[k]) by {
                    assert(dl[k] == t@[k]);
                }
            }
            assert(all == all_since_digits(t@.drop_last()));
        }
    }
    if !all || unit.is_none() {
        return Err(SinceError::Invalid(string_of(&chars)));
    }
    let unit_ms = unit.unwrap();
    let mut digits: Vec<char> = Vec::new();
    let mut j: usize = 0;
    while j < n - 1
        invariant
            n == t.len(),
            n > 0,
            j <= n - 1,
            digits@ == t@.take(j as int),
        decreases n - j,
    {
        digits.push(t[j]);
        j = j + 1;
        assert(digits@ =~= t@.take(j as int));
    }
    assert(digits@ =~= t@.drop_last());
    let amount = match parse_count(&digits) {
        Err(e) => return Err(e),
        Ok(a) => a,
    };
    if amount <= 0 {
        return Err(SinceError::NotPositive);
    }
    proof {
        assert(amount * unit_ms <= i64::MAX);
        assert(amount * unit_ms > 0) by (nonlinear_arith)
            requires
                amount > 0,
                unit_ms > 0,
        ;
    }
    Ok(amount * unit_ms)
}

/// A count of weeks stands for seven times that count of days: `"{k}w"` and `"{7k}d"` are both
/// `k` times 604 800 000 milliseconds.
pub proof fn lemma_weeks_are_seven_days(k: nat)
    requires
        1 <= k,
        7 * k <= i64::MAX,
    ensures
        since_millis(decimal(k).push('w')) == Some((k * 604_800_000) as int),
        since_millis(decimal(7 * k).push('d')) == Some((k * 604_800_000) as int),
{
    lemma_count_with_unit(k, 'w');
    lemma_count_with_unit(7 * k, 'd');
    assert(7 * k * 86_400_000 == k * 604_800_000) by (nonlinear_arith);
}

/// A count written in decimal followed by a unit letter reads as that count of units.
proof fn lemma_count_with_unit(n: nat, u: char)
    requires
        1 <= n <= i64::MAX,
        is_since_unit(u),
        !is_ws(u),
    ensures
        since_millis(decimal(n).push(u)) == Some(n * unit_millis(u)),
{
    let v = decimal(n).push(u);
    lemma_decimal_digits(n);
    assert(v.drop_last() =~= decimal(n));
    assert(v[0] == decimal(n)[0]);
    assert(is_ascii_digit(decimal(n)[0]));
    lemma_trim_noop(v);
    assert forall|k: int| 0 <= k < v.drop_last().len() implies since_digit(#[trigger] v.drop_last()[k]) by {
        assert(is_ascii_digit(decimal(n)[k]));
    }
}

/// The cut-off `since` before `now`: the parsed duration subtracted from `now`.
pub fn since_cutoff_from(now: &Instant, since: &str) -> (r: Result<Instant, SinceError>)
    requires
        since_fits(since@),
    ensures
        match r {
            Ok(c) => since_millis(since@) matches Some(ms) && utc_minus_millis(
                now.secs(),
                now.nanos(),
                ms,
            ) matches Some(p) && instant_is(c, p),
            Err(SinceError::OutOfRange) => since_millis(since@) matches Some(ms)
                && utc_minus_millis(now.secs(), now.nanos(), ms) is None,
            Err(e) => since_outcome(since@, Err(e)) && since_millis(since@) is None,
        },
        now.nanos() < 1_000_000_000 ==> (r matches Ok(c) ==> instant_le(c, *now) && !instant_le(*now, c)),
{
    proof {
        let t = trim(since@);
        lemma_ascii_digit_run_whole(t.drop_last());
        assert(t.drop_last().take(t.drop_last().len() as int) =~= t.drop_last());
    }
    let ms = match parse_since_duration(since) {
        Err(e) => return Err(e),
        Ok(ms) => ms,
    };
    match checked_sub_millis(now, ms) {
        Some(c) => {
            proof {
                if now.nanos() < 1_000_000_000 {
                    c.lemma_ranges();
                    now.lemma_ranges();
                    lemma_earlier(c.secs(), c.nanos(), now.secs(), now.nanos());
                }
            }
            Ok(c)
        },
        None => Err(SinceError::OutOfRange),
    }
}

/// A time strictly earlier by value is earlier by (seconds, nanoseconds), when neither lies in
/// a leap second.
proof fn lemma_earlier(s1: int, n1: int, s2: int, n2: int)
    requires
        0 <= n1 < 1_000_000_000,
        0 <= n2 < 1_000_000_000,
        s1 * 1_000_000_000 + n1 < s2 * 1_000_000_000 + n2,
    ensures
        s1 < s2 || (s1 == s2 && n1 < n2),
{
    if s1 > s2 {
        assert(s1 * 1_000_000_000 >= (s2 + 1) * 1_000_000_000) by (nonlinear_arith)
            requires
                s1 >= s2 + 1,
        ;
    }
}

/// `c` is what some clock reading moved back by `ms` milliseconds gives, and (outside a leap
/// second) it lies strictly before that reading.
pub open spec fn cutoff_for_some_time(c: Instant, ms: int) -> bool {
    exists|t: Instant|
        #[trigger] utc_minus_millis(t.secs(), t.nanos(), ms) == Some(pair_of(c)) && (t.nanos()
            < 1_000_000_000 ==> instant_le(c, t) && !instant_le(t, c))
}

/// Some clock reading moved back by `ms` milliseconds leaves the representable range.
pub open spec fn out_of_range_for_some_time(ms: int) -> bool {
    exists|t: Instant| #[trigger] utc_minus_millis(t.secs(), t.nanos(), ms) is None
}

/// The cut-off for a "since" value: the current time moved back by the value's duration.
/// Parse errors are those of [`parse_since_duration`]; for a valid value the result is the
/// current time moved back by [`since_millis`], or `OutOfRange` when that time cannot be
/// represented. The current time is read from the clock, so which cut-off comes back is not
/// stated.
pub fn resolve_since_cutoff(since: &str) -> (r: Result<Instant, SinceError>)
    requires
        since_fits(since@),
    ensures
        match r {
            Ok(c) => since_millis(since@) matches Some(ms) && cutoff_for_some_time(c, ms),
            Err(SinceError::OutOfRange) => since_millis(since@) matches Some(ms)
                && out_of_range_for_some_time(ms),
            Err(e) => since_outcome(since@, Err(e)) && since_millis(since@) is None,
        },
{
    let now = utc_now();
    let r = since_cutoff_from(&now, since);
    proof {
        if let Some(ms) = since_millis(since@) {
            assert(r matches Ok(c) ==> utc_minus_millis(now.secs(), now.nanos(), ms) == Some(pair_of(c)));
            assert(r matches Err(SinceError::OutOfRange) ==> utc_minus_millis(now.secs(), now.nanos(), ms) is None);
        }
    }
    r
}

/// A "since" value that is absent or blank means no cut-off; any other is read by
/// [`resolve_since_cutoff`] after trimming.
pub fn resolve_since_cutoff_optional(since: Option<&str>) -> (r: Result<
    Option<Instant>,
    SinceError,
>)
    requires
        since matches Some(s) ==> since_fits(trim(s@)),
    ensures
        match since {
            None => r == Ok::<Option<Instant>, SinceError>(None),
            Some(s) => if trim(s@).len() == 0 {
                r == Ok::<Option<Instant>, SinceError>(None)
            } else {
                match r {
                    Ok(Some(c)) => since_millis(trim(s@)) matches Some(ms) && cutoff_for_some_time(c, ms),
                    Ok(None) => false,
                    Err(SinceError::OutOfRange) => since_millis(trim(s@)) matches Some(ms)
                        && out_of_range_for_some_time(ms),
                    Err(e) => since_outcome(trim(s@), Err(e)) && since_millis(trim(s@)) is None,
                }
            },
        },
{
    let value = match since {
        None => return Ok(None),
        Some(v) => v,
    };
    let trimmed = string_of(&trim_chars(&chars_of(value)));
    if trimmed.as_str().is_empty() {
        return Ok(None);
    }
    match resolve_since_cutoff(trimmed.as_str()) {
        Ok(c) => Ok(Some(c)),
        Err(e) => Err(e),
    }
}

/// Whether reading a "since" value would not overflow (see [`since_fits`]). A caller outside
/// verified code tests this before asking for a cut-off.
pub fn since_duration_fits(value: &str) -> (b: bool)
    ensures
        b == since_fits(value@),
{
    let t = trim_chars(&chars_of(value));
    let n = t.len();
    if n < 2 {
        return true;
    }
    let mut digits: Vec<char> = Vec::new();
    let mut j: usize = 0;
    let mut all = true;
    while j < n - 1
        invariant
            n == t.len(),
            n >= 2,
            j <= n - 1,
            digits@ == t@.take(j as int),
            all == all_digits(digits@),
        decreases n - j,
    {
        let c = t[j];
        if !('0' <= c && c <= '9') {
            all = false;
        }
        let ghost before = digits@;
        digits.push(c);
        j = j + 1;
        assert(digits@ =~= t@.take(j as int));
        proof {
            lemma_all_digits_push(before, c);
        }
    }
    assert(digits@ =~= t@.drop_last());
    let unit = unit_of(t[n - 1]);
    if !all || unit.is_none() {
        return true;
    }
    let amount = match parse_count(&digits) {
        Err(_) => {
            proof {
                lemma_ascii_digit_run(digits@, digits@.len() as int);
                assert(digits@.take(digits@.len() as int) =~= digits@);
            }
            return true;
        },
        Ok(a) => a,
    };
    if amount <= 0 {
        return true;
    }
    let unit_ms = unit.unwrap();
    proof {
        lemma_fits_by_division(amount as int, unit_ms as int, i64::MAX as int);
    }
    amount <= i64::MAX / unit_ms
}

proof fn lemma_fits_by_division(a: int, u: int, m: int)
    requires
        a > 0,
        u > 0,
        m >= 0,
    ensures
        (a <= m / u) == (a * u <= m),
{
    let q = m / u;
    assert(q * u <= m && m < (q + 1) * u) by (nonlinear_arith)
        requires
            u > 0,
            m >= 0,
            q == m / u,
    ;
    if a <= q {
        assert(a * u <= q * u) by (nonlinear_arith)
            requires
                a <= q,
                u > 0,
        ;
    } else {
        assert(a * u >= (q + 1) * u) by (nonlinear_arith)
            requires
                a >= q + 1,
                u > 0,
        ;
    }
}

proof fn lemma_all_digits_push(s: Seq<char>, c: char)
    ensures
        all_digits(s.push(c)) == (all_digits(s) && is_ascii_digit(c)),
{
    let t = s.push(c);
    if all_digits(t) {
        assert forall|k: int| 0 <= k < s.len() implies is_ascii_digit(#[trigger] s[k]) by {
            assert(t[k] == s[k]);
        }
        assert(is_ascii_digit(t[s.len() as int]));
    }
    if all_digits(s) && is_ascii_digit(c) {
        assert forall|k: int| 0 <= k < t.len() implies is_ascii_digit(#[trigger] t[k]) by {
            if k < s.len() {
                assert(t[k] == s[k]);
            }
        }
    }
}

/// When a clip was created, as a timestamp pair, if its text can be read.
pub open spec fn clip_created(clip: Clip) -> Option<(int, int)> {
    match clip.created_at {
        None => None,
        Some(raw) => created_instant(raw@),
    }
}

/// `a` is not later than `b` (timestamp first, then nanoseconds).
pub open spec fn pair_le(a: (int, int), b: (int, int)) -> bool {
    a.0 < b.0 || (a.0 == b.0 && a.1 <= b.1)
}

pub open spec fn pair_of(t: Instant) -> (int, int) {
    (t.secs(), t.nanos())
}

/// Whether the clip's creation time can be read and is not before the cut-off.
pub fn is_clip_created_after(clip: &Clip, cutoff: &Instant) -> (b: bool)
    ensures
        b == (clip_created(*clip) matches Some(p) && pair_le(pair_of(*cutoff), p)),
{
    match parse_created_at(clip) {
        Some(created) => cutoff.not_after(&created),
        None => false,
    }
}

/// Whether fetching further feed pages can stop: some clip of this page has a readable
/// creation time, and every readable one is before the cut-off.
pub fn should_stop_feed_paging(clips: &[Clip], created_after: &Instant) -> (b: bool)
    ensures
        b == ((exists|i: int| 0 <= i < clips@.len() && #[trigger] clip_created(clips@[i]) is Some)
            && forall|i: int|
            0 <= i < clips@.len() ==> (#[trigger] clip_created(clips@[i]) matches Some(p)
                ==> !pair_le(pair_of(*created_after), p))),
{
    let mut has_valid_date = false;
    let mut i: usize = 0;
    while i < clips.len()
        invariant
            i <= clips.len(),
            has_valid_date == exists|k: int| 0 <= k < i && #[trigger] clip_created(clips@[k]) is Some,
            forall|k: int|
                0 <= k < i ==> (#[trigger] clip_created(clips@[k]) matches Some(p) ==> !pair_le(
                    pair_of(*created_after),
                    p,
                )),
        decreases clips.len() - i,
    {
        let created = parse_created_at(&clips[i]);
        match created {
            None => {
                i = i + 1;
                continue;
            },
            Some(created_at) => {
                has_valid_date = true;
                if created_after.not_after(&created_at) {
                    assert(clip_created(clips@[i as int]) is Some);
                    return false;
                }
            },
        }
        i = i + 1;
    }
    has_valid_date
}

} // verus!
