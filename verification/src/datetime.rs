//! Timestamp formatting: relative ages, absolute dates and RFC 3339.
//!
//! Calendar arithmetic comes from `chrono`; this module decides what is shown.

use chrono::{Datelike, Timelike};
use vstd::prelude::*;

use crate::chars::{decimal, push_char, push_decimal, push_str, push_zero_padded, zero_padded};

verus! {

/// Proleptic Gregorian (year, month, day) of a day count from 1970-01-01.
pub open spec fn civil_from_days(days: int) -> (int, int, int) {
    let z = days + 719468;
    let era = z / 146097;
    let doe = z - era * 146097;
    let yoe = (doe - doe / 1460 + doe / 36524 - doe / 146096) / 365;
    let y = yoe + era * 400;
    let doy = doe - (365 * yoe + yoe / 4 - yoe / 100);
    let mp = (5 * doy + 2) / 153;
    let d = doy - (153 * mp + 2) / 5 + 1;
    let m = if mp < 10 { mp + 3 } else { mp - 9 };
    (if m <= 2 { y + 1 } else { y }, m, d)
}

/// Calendar year of a Unix timestamp, in UTC.
pub open spec fn civil_year(ts: int) -> int {
    civil_from_days(ts / 86400).0
}

/// Unix timestamps chrono represents: years -262143 through 262142.
pub open spec fn in_chrono_range(ts: int) -> bool {
    -262143 <= civil_year(ts) <= 262142
}

/// A UTC instant broken into its calendar fields.
#[derive(Clone, Copy, Debug, PartialEq, Eq, Structural)]
pub struct UtcInstant {
    pub timestamp: i64,
    pub year: i32,
    pub month: u32,
    pub day: u32,
    pub hour: u32,
    pub minute: u32,
    pub second: u32,
}

/// The fields are those of `ts` in the proleptic Gregorian calendar, UTC.
pub open spec fn describes(inst: UtcInstant, ts: int) -> bool {
    let days = ts / 86400;
    let secs = ts % 86400;
    let (y, m, d) = civil_from_days(days);
    &&& inst.timestamp == ts
    &&& inst.year == y
    &&& inst.month == m
    &&& inst.day == d
    &&& inst.hour == secs / 3600
    &&& inst.minute == (secs % 3600) / 60
    &&& inst.second == secs % 60
    &&& 1 <= m <= 12
    &&& 1 <= d <= 31
    &&& 0 <= secs / 3600 < 24
}

/// Calls chrono's `DateTime::from_timestamp(ts, 0)` and reads its fields.
/// chrono returns a value exactly for the timestamps whose year lies within
/// its range, and that value is the UTC calendar date and time of `ts`.
#[verifier::external_body]
pub(crate) fn utc_instant(ts: i64) -> (r: Option<UtcInstant>)
    ensures
        r.is_some() == in_chrono_range(ts as int),
        r matches Some(inst) ==> describes(inst, ts as int),
{
    match chrono::DateTime::from_timestamp(ts, 0) {
        Some(dt) => Some(UtcInstant { timestamp: dt.timestamp(), year: dt.year(),
            month: dt.month(), day: dt.day(), hour: dt.hour(), minute: dt.minute(),
            second: dt.second() }),
        None => None,
    }
}

/// The timestamp of chrono's earliest instant, -262143-01-01T00:00:00Z.
pub const EARLIEST_TIMESTAMP: i64 = -8334601228800;

/// Reads the fields of chrono's `DateTime::<Utc>::MIN_UTC`, the first second
/// of -262143-01-01.
#[verifier::external_body]
pub(crate) fn earliest_utc() -> (r: UtcInstant)
    ensures
        describes(r, EARLIEST_TIMESTAMP as int),
        r.year == -262143,
        r.month == 1,
        r.day == 1,
        r.hour == 0,
        r.minute == 0,
{
    let dt = chrono::DateTime::<chrono::Utc>::MIN_UTC;
    UtcInstant { timestamp: dt.timestamp(), year: dt.year(), month: dt.month(), day: dt.day(),
        hour: dt.hour(), minute: dt.minute(), second: dt.second() }
}

/// Reads the system clock with std's `SystemTime::now` and measures it
/// against the Unix epoch with `duration_since`: `Ok` holds the whole
/// seconds since the epoch, `Err` the whole seconds the clock reads before
/// it. Nothing is claimed about the value: it is the machine's clock.
#[verifier::external_body]
fn clock_seconds() -> (r: Result<u64, u64>) {
    match std::time::SystemTime::now().duration_since(std::time::UNIX_EPOCH) {
        Ok(d) => Ok(d.as_secs()),
        Err(e) => Err(e.duration().as_secs()),
    }
}

/// The current time in Unix seconds, negative for a clock set before 1970,
/// saturating at the ends of `i64`.
pub fn utc_now_secs() -> (r: i64) {
    match clock_seconds() {
        Ok(after) => if after <= i64::MAX as u64 {
            after as i64
        } else {
            i64::MAX
        },
        Err(before) => if before <= i64::MAX as u64 {
            -(before as i64)
        } else {
            i64::MIN
        },
    }
}

/// The instant of `ts`, or chrono's earliest instant when `ts` is out of
/// range.
pub open spec fn instant_of(inst: UtcInstant, ts: int) -> bool {
    if in_chrono_range(ts) {
        describes(inst, ts)
    } else {
        describes(inst, EARLIEST_TIMESTAMP as int)
    }
}

/// Converts a Unix timestamp to a UTC instant, falling back to the earliest
/// representable instant out of range.
pub fn from_epoch(ts: i64) -> (inst: UtcInstant)
    ensures
        instant_of(inst, ts as int),
{
    match utc_instant(ts) {
        Some(inst) => inst,
        None => earliest_utc(),
    }
}

// ── Absolute dates ───────────────────────────────────────────────────────────

/// English month names.
pub open spec fn month_name(m: int) -> Seq<char> {
    if m == 1 {
        "January"@
    } else if m == 2 {
        "February"@
    } else if m == 3 {
        "March"@
    } else if m == 4 {
        "April"@
    } else if m == 5 {
        "May"@
    } else if m == 6 {
        "June"@
    } else if m == 7 {
        "July"@
    } else if m == 8 {
        "August"@
    } else if m == 9 {
        "September"@
    } else if m == 10 {
        "October"@
    } else if m == 11 {
        "November"@
    } else {
        "December"@
    }
}

/// A year as `%Y` writes it: four digits, zero-padded, with an explicit sign
/// outside 0..=9999.
pub open spec fn year_text(y: int) -> Seq<char> {
    if 0 <= y <= 9999 {
        zero_padded(y as nat, 4)
    } else if y < 0 {
        seq!['-'] + zero_padded((-y) as nat, 4)
    } else {
        seq!['+'] + zero_padded(y as nat, 4)
    }
}

/// Hour on the 12-hour clock.
pub open spec fn hour12(h: int) -> int {
    if h % 12 == 0 {
        12
    } else {
        h % 12
    }
}

/// "Month D, YYYY at H:MM AM/PM".
pub open spec fn absolute_text(inst: UtcInstant) -> Seq<char> {
    month_name(inst.month as int) + seq![' '] + decimal(inst.day as nat) + seq![',', ' ']
        + year_text(inst.year as int) + " at "@ + decimal(hour12(inst.hour as int) as nat)
        + seq![':'] + zero_padded(inst.minute as nat, 2) + seq![' '] + (if inst.hour < 12 {
        "AM"@
    } else {
        "PM"@
    })
}

fn month_name_str(m: u32) -> (s: &'static str)
    ensures
        s@ == month_name(m as int),
{
    if m == 1 {
        "January"
    } else if m == 2 {
        "February"
    } else if m == 3 {
        "March"
    } else if m == 4 {
        "April"
    } else if m == 5 {
        "May"
    } else if m == 6 {
        "June"
    } else if m == 7 {
        "July"
    } else if m == 8 {
        "August"
    } else if m == 9 {
        "September"
    } else if m == 10 {
        "October"
    } else if m == 11 {
        "November"
    } else {
        "December"
    }
}

fn push_year(s: &mut String, y: i32)
    ensures
        final(s)@ == old(s)@ + year_text(y as int),
{
    if 0 <= y && y <= 9999 {
        push_zero_padded(s, y as u64, 4);
    } else if y < 0 {
        push_char(s, '-');
        let a: u64 = if y == i32::MIN { 2147483648u64 } else { (-y) as u64 };
        push_zero_padded(s, a, 4);
        assert(s@ =~= old(s)@ + year_text(y as int));
    } else {
        push_char(s, '+');
        push_zero_padded(s, y as u64, 4);
        assert(s@ =~= old(s)@ + year_text(y as int));
    }
}

/// Formats an instant as "Month D, YYYY at H:MM AM/PM".
pub fn format_instant(inst: &UtcInstant) -> (s: String)
    ensures
        s@ == absolute_text(*inst),
{
    let mut s = String::new();
    push_str(&mut s, month_name_str(inst.month));
    push_char(&mut s, ' ');
    push_decimal(&mut s, inst.day as u64);
    push_char(&mut s, ',');
    push_char(&mut s, ' ');
    push_year(&mut s, inst.year);
    push_str(&mut s, " at ");
    let h12: u32 = if inst.hour % 12 == 0 { 12 } else { inst.hour % 12 };
    push_decimal(&mut s, h12 as u64);
    push_char(&mut s, ':');
    push_zero_padded(&mut s, inst.minute as u64, 2);
    push_char(&mut s, ' ');
    if inst.hour < 12 {
        push_str(&mut s, "AM");
    } else {
        push_str(&mut s, "PM");
    }
    assert(s@ =~= absolute_text(*inst));
    s
}

/// Fixed-format absolute date and time, "Month D, YYYY at H:MM AM/PM"
/// (e.g. "January 5, 2024 at 3:42 PM"), in UTC and independent of locale.
pub fn format_absolute_fixed(ts: i64) -> (s: String)
    ensures
        exists|inst: UtcInstant| instant_of(inst, ts as int) && s@ == absolute_text(inst),
{
    let inst = from_epoch(ts);
    format_instant(&inst)
}

/// Formats a Unix timestamp as a full absolute date and time string.
pub fn format_absolute(ts: i64) -> (s: String)
    ensures
        exists|inst: UtcInstant| instant_of(inst, ts as int) && s@ == absolute_text(inst),
        s@.len() > 0,
{
    let inst = from_epoch(ts);
    let s = format_instant(&inst);
    assert(s@.len() > 0) by {
        assert(s@ == absolute_text(inst));
    }
    s
}

// ── Relative ages ────────────────────────────────────────────────────────────

/// Whole calendar months from `then` to `now`, by year, month and day fields
/// (not a fixed day count), never negative.
pub open spec fn months_between(then: UtcInstant, now: UtcInstant) -> int {
    let m = (now.year - then.year) * 12 + (now.month - then.month) - (if now.day < then.day {
        1int
    } else {
        0int
    });
    if m < 0 {
        0
    } else {
        m
    }
}

/// Seconds from `then` to `now`, never negative.
pub open spec fn elapsed_secs(then: UtcInstant, now: UtcInstant) -> int {
    let e = now.timestamp - then.timestamp;
    if e < 0 {
        0
    } else {
        e
    }
}

/// `"a {unit} ago"` for one, `"N {units} ago"` otherwise.
pub open spec fn ago(n: int, one: Seq<char>, unit_plural: Seq<char>) -> Seq<char> {
    if n == 1 {
        one
    } else {
        decimal(n as nat) + seq![' '] + unit_plural + " ago"@
    }
}

/// The relative label for an age of `elapsed` seconds spanning `months`
/// calendar months: under a minute "just now", then minutes, hours,
/// "yesterday" (24 to 47 hours), days (2 to 6), weeks (1 to 4), months
/// (at least one, up to 11) and years.
pub open spec fn relative_text(elapsed: int, months: int) -> Seq<char> {
    if elapsed < 60 {
        "just now"@
    } else if elapsed < 3600 {
        ago(elapsed / 60, "a minute ago"@, "minutes"@)
    } else if elapsed < 86400 {
        ago(elapsed / 3600, "an hour ago"@, "hours"@)
    } else if elapsed < 172800 {
        "yesterday"@
    } else if elapsed < 604800 {
        decimal((elapsed / 86400) as nat) + " days ago"@
    } else if elapsed < 2592000 {
        ago(elapsed / 604800, "a week ago"@, "weeks"@)
    } else {
        let m = if months < 1 {
            1
        } else {
            months
        };
        if m < 12 {
            ago(m, "a month ago"@, "months"@)
        } else {
            ago(m / 12, "a year ago"@, "years"@)
        }
    }
}

/// The relative label of `ts` seen from `now_ts`, both read through
/// `from_epoch`.
pub open spec fn relative_label(ts: int, now_ts: int, text: Seq<char>) -> bool {
    exists|then: UtcInstant, now: UtcInstant|
        instant_of(then, ts) && instant_of(now, now_ts) && text == relative_text(
            elapsed_secs(then, now),
            months_between(then, now),
        )
}

fn push_ago(s: &mut String, n: u64, one: &str, unit_plural: &str)
    ensures
        final(s)@ == old(s)@ + ago(n as int, one@, unit_plural@),
{
    if n == 1 {
        push_str(s, one);
    } else {
        push_decimal(s, n);
        push_char(s, ' ');
        push_str(s, unit_plural);
        push_str(s, " ago");
    }
}

/// Formats the age of `ts` as seen at `now_ts` (both Unix seconds).
pub fn format_relative_since(ts: i64, now_ts: i64) -> (r: String)
    ensures
        relative_label(ts as int, now_ts as int, r@),
{
    let then = from_epoch(ts);
    let now = from_epoch(now_ts);
    let diff: i128 = now.timestamp as i128 - then.timestamp as i128;
    let elapsed: i128 = if diff < 0 { 0 } else { diff };
    let mut m: i64 = (now.year as i64 - then.year as i64) * 12 + (now.month as i64
        - then.month as i64);
    if now.day < then.day {
        m = m - 1;
    }
    let months: i64 = if m < 0 { 0 } else { m };
    let mut r = String::new();
    if elapsed < 60 {
        push_str(&mut r, "just now");
    } else if elapsed < 3600 {
        push_ago(&mut r, (elapsed / 60) as u64, "a minute ago", "minutes");
    } else if elapsed < 86400 {
        push_ago(&mut r, (elapsed / 3600) as u64, "an hour ago", "hours");
    } else if elapsed < 2 * 86400 {
        push_str(&mut r, "yesterday");
    } else if elapsed < 7 * 86400 {
        push_decimal(&mut r, (elapsed / 86400) as u64);
        push_str(&mut r, " days ago");
    } else if elapsed < 30 * 86400 {
        push_ago(&mut r, (elapsed / (7 * 86400)) as u64, "a week ago", "weeks");
    } else {
        let mm: i64 = if months < 1 { 1 } else { months };
        if mm < 12 {
            push_ago(&mut r, mm as u64, "a month ago", "months");
        } else {
            push_ago(&mut r, (mm / 12) as u64, "a year ago", "years");
        }
    }
    assert(r@ =~= relative_text(elapsed_secs(then, now), months_between(then, now)));
    r
}

/// Formats a Unix timestamp relative to the current time ("just now",
/// "5 minutes ago", "yesterday", "2 years ago"). The clock is read once; the
/// label is that of `ts` seen from the instant read.
pub fn format_relative(ts: i64) -> (r: String)
    ensures
        exists|now_ts: i64|
            call_ensures(utc_now_secs, (), now_ts) && relative_label(ts as int, now_ts as int, r@),
{
    let now_ts = utc_now_secs();
    let r = format_relative_since(ts, now_ts);
    assert(call_ensures(utc_now_secs, (), now_ts) && relative_label(ts as int, now_ts as int, r@));
    r
}

// ── RFC 3339 ─────────────────────────────────────────────────────────────────

/// `ts` in UTC as chrono's `to_rfc3339` writes it:
/// `YYYY-MM-DDTHH:MM:SS+00:00`, the year as `year_text` gives it.
pub open spec fn rfc3339_text(ts: int) -> Seq<char> {
    let days = ts / 86400;
    let secs = ts % 86400;
    let (y, m, d) = civil_from_days(days);
    year_text(y) + seq!['-'] + zero_padded(m as nat, 2) + seq!['-'] + zero_padded(d as nat, 2)
        + seq!['T'] + zero_padded((secs / 3600) as nat, 2) + seq![':'] + zero_padded(
        ((secs % 3600) / 60) as nat,
        2,
    ) + seq![':'] + zero_padded((secs % 60) as nat, 2) + "+00:00"@
}

/// The Unix timestamp chrono's `DateTime::parse_from_rfc3339` reads from a
/// text, if it accepts it.
pub uninterp spec fn rfc3339_timestamp(text: Seq<char>) -> Option<int>;

/// Parses an RFC 3339 timestamp (e.g. `2024-07-16T10:45:52-05:00`) into Unix
/// seconds, through chrono's `DateTime::parse_from_rfc3339`. Claimed: the
/// result is `rfc3339_timestamp` of the input, and the text
/// `epoch_to_rfc3339` writes for a year from 0 to 9999 reads back as its
/// timestamp. Which other texts parse, and to what, is left to chrono.
#[verifier::external_body]
pub fn parse_rfc3339_to_epoch(input: &str) -> (r: Option<i64>)
    ensures
        match r {
            Some(t) => rfc3339_timestamp(input@) == Some(t as int),
            None => rfc3339_timestamp(input@) is None,
        },
        forall|ts: i64|
            0 <= civil_year(ts as int) <= 9999 && input@ == #[trigger] rfc3339_text(ts as int)
                ==> r == Some(ts),
{
    match chrono::DateTime::parse_from_rfc3339(input) {
        Ok(dt) => Some(dt.timestamp()),
        Err(_) => None,
    }
}

/// Formats Unix seconds as an RFC 3339 string in UTC (e.g.
/// `2024-07-16T15:45:52+00:00`) through chrono's `DateTime::from_timestamp`
/// and `to_rfc3339`; `None` out of chrono's range.
#[verifier::external_body]
pub fn epoch_to_rfc3339(epoch: i64) -> (r: Option<String>)
    ensures
        r.is_some() == in_chrono_range(epoch as int),
        r matches Some(s) ==> s@ == rfc3339_text(epoch as int),
{
    match chrono::DateTime::from_timestamp(epoch, 0) {
        Some(dt) => Some(dt.to_rfc3339()),
        None => None,
    }
}

/// The month word of an absolute date is chrono's `%B`: the English month
/// names in calendar order, January for month 1 through December for
/// month 12, so the text of any instant begins with its own month's name.
pub proof fn lemma_month_names_in_calendar_order(inst: UtcInstant)
    ensures
        month_name(1) == "January"@,
        month_name(2) == "February"@,
        month_name(3) == "March"@,
        month_name(4) == "April"@,
        month_name(5) == "May"@,
        month_name(6) == "June"@,
        month_name(7) == "July"@,
        month_name(8) == "August"@,
        month_name(9) == "September"@,
        month_name(10) == "October"@,
        month_name(11) == "November"@,
        month_name(12) == "December"@,
        absolute_text(inst).take(month_name(inst.month as int).len() as int) == month_name(
            inst.month as int,
        ),
{
    let w = month_name(inst.month as int);
    assert(absolute_text(inst).take(w.len() as int) =~= w);
}

/// Months are counted in whole calendar months: with months indexed as
/// `year * 12 + month`, `months_between` is the largest `k` (at least 0)
/// such that the day-of-month of `then`, `k` months later, is not after
/// `now`'s date. So 2024-01-20 to 2024-03-05 is one month, not two.
pub proof fn lemma_months_between_counts_whole_months(then: UtcInstant, now: UtcInstant)
    ensures
        months_between(then, now) >= 0,
        ({
            let k = months_between(then, now);
            let start = then.year * 12 + then.month;
            let end = now.year * 12 + now.month;
            &&& k > 0 ==> (start + k < end || (start + k == end && then.day <= now.day))
            &&& (start + k + 1 > end || (start + k + 1 == end && then.day > now.day))
        }),
{
}

} // verus!
