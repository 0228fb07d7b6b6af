//! Instants read from session logs, and their UTC texts, through `chrono`.
use vstd::prelude::*;

verus! {

/// An instant: whole seconds since the Unix epoch and the nanoseconds past them.
#[derive(Clone, Copy, PartialEq, Eq, Structural, Debug)]
pub struct UtcInstant {
    pub secs: i64,
    pub nanos: u32,
}

/// Time order of instants.
pub open spec fn instant_le(a: UtcInstant, b: UtcInstant) -> bool {
    a.secs < b.secs || (a.secs == b.secs && a.nanos <= b.nanos)
}

pub fn instant_le_exec(a: UtcInstant, b: UtcInstant) -> (r: bool)
    ensures
        r == instant_le(a, b),
{
    a.secs < b.secs || (a.secs == b.secs && a.nanos <= b.nanos)
}

/// Whether `b` is at most `seconds` whole seconds after `a` (`b - a <= seconds`).
pub open spec fn within_seconds(a: UtcInstant, b: UtcInstant, seconds: int) -> bool {
    (b.secs - a.secs) * 1_000_000_000 + (b.nanos - a.nanos) <= seconds * 1_000_000_000
}

pub fn within_seconds_exec(a: UtcInstant, b: UtcInstant, seconds: i64) -> (r: bool)
    requires
        -1_000_000 <= seconds <= 1_000_000,
    ensures
        r == within_seconds(a, b, seconds as int),
{
    let d = (b.secs as i128 - a.secs as i128) * 1_000_000_000 + (b.nanos as i128 - a.nanos as i128);
    d <= (seconds as i128) * 1_000_000_000
}

/// What `chrono::DateTime::parse_from_rfc3339` reads from a text, as a UTC instant.
pub uninterp spec fn rfc3339_instant(text: Seq<char>) -> Option<UtcInstant>;

/// `DateTime::parse_from_rfc3339(text)` taken to UTC: named by `rfc3339_instant`.
#[verifier::external_body]
pub(crate) fn parse_rfc3339(text: &str) -> (r: Option<UtcInstant>)
    ensures
        r == rfc3339_instant(text@),
{
    chrono::DateTime::parse_from_rfc3339(text).ok().map(
        |t| UtcInstant { secs: t.timestamp(), nanos: t.timestamp_subsec_nanos() },
    )
}

/// What `chrono::NaiveDateTime::parse_from_str(text, "%Y-%m-%d %H:%M:%S")`
/// reads, taken as UTC.
pub uninterp spec fn plain_utc_instant(text: Seq<char>) -> Option<UtcInstant>;

/// `NaiveDateTime::parse_from_str(text, "%Y-%m-%d %H:%M:%S")` read as UTC:
/// named by `plain_utc_instant`.
#[verifier::external_body]
pub(crate) fn parse_plain_utc(text: &str) -> (r: Option<UtcInstant>)
    ensures
        r == plain_utc_instant(text@),
{
    chrono::NaiveDateTime::parse_from_str(text, "%Y-%m-%d %H:%M:%S").ok().map(
        |t| UtcInstant { secs: t.and_utc().timestamp(), nanos: t.and_utc().timestamp_subsec_nanos() },
    )
}

/// A log timestamp: RFC 3339, else `YYYY-MM-DD HH:MM:SS` in UTC.
pub open spec fn codex_time(text: Seq<char>) -> Option<UtcInstant> {
    match rfc3339_instant(text) {
        Some(t) => Some(t),
        None => plain_utc_instant(text),
    }
}

pub fn parse_codex_time(value: &str) -> (r: Option<UtcInstant>)
    ensures
        r == codex_time(value@),
{
    match parse_rfc3339(value) {
        Some(t) => Some(t),
        None => parse_plain_utc(value),
    }
}

/// What `format("%Y-%m-%d %H:%M:%S")` writes for an instant in UTC (empty
/// for an instant outside `chrono`'s range).
pub uninterp spec fn utc_compact_text(secs: i64, nanos: u32) -> Seq<char>;

/// An instant as `YYYY-MM-DD HH:MM:SS` in UTC: named by `utc_compact_text`.
#[verifier::external_body]
pub(crate) fn format_utc_compact(t: UtcInstant) -> (r: String)
    ensures
        r@ == utc_compact_text(t.secs, t.nanos),
{
    chrono::DateTime::from_timestamp(t.secs, t.nanos).map(
        |d| d.format("%Y-%m-%d %H:%M:%S").to_string(),
    ).unwrap_or_default()
}

/// The first second `chrono` holds: the start of -262143-01-01 UTC.
pub open spec fn earliest_secs() -> int {
    -8334601228800
}

/// The last second `chrono` holds: 262142-12-31 23:59:59 UTC.
pub open spec fn latest_secs() -> int {
    8210266876799
}

/// What `Utc.timestamp_opt(secs, 0).single()` gives: the instant `secs`
/// whole seconds after the epoch, where it lies within `chrono`'s dates
/// (from -262143-01-01 00:00:00 to 262142-12-31 23:59:59 UTC), else none.
pub open spec fn unix_instant(secs: i64) -> Option<UtcInstant> {
    if earliest_secs() <= secs <= latest_secs() {
        Some(UtcInstant { secs, nanos: 0 })
    } else {
        None
    }
}

/// `Utc.timestamp_opt(secs, 0).single()`: `DateTime::from_timestamp` takes
/// the day `secs.div_euclid(86_400)` from the epoch, which exists exactly
/// within `chrono`'s year range, and the second within it, so the result is
/// `unix_instant(secs)`.
#[verifier::external_body]
pub(crate) fn parse_unix_seconds(secs: i64) -> (r: Option<UtcInstant>)
    ensures
        r == unix_instant(secs),
{
    chrono::TimeZone::timestamp_opt(&chrono::Utc, secs, 0).single().map(
        |t| UtcInstant { secs: t.timestamp(), nanos: t.timestamp_subsec_nanos() },
    )
}

/// A calendar date.
#[derive(Clone, Copy, PartialEq, Eq, Structural, Debug)]
pub struct CivilDate {
    pub year: i32,
    pub month: u32,
    pub day: u32,
}

/// What `NaiveDate::parse_from_str(text, "%Y-%m-%d")` reads.
pub uninterp spec fn filter_date(text: Seq<char>) -> Option<CivilDate>;

/// `NaiveDate::parse_from_str(text, "%Y-%m-%d")`: named by `filter_date`; a
/// date it gives has a month of the year, a day of the month, and a year in
/// `chrono`'s range (`-262143..=262142`).
#[verifier::external_body]
pub(crate) fn parse_filter_date(text: &str) -> (r: Option<CivilDate>)
    ensures
        r == filter_date(text@),
        r matches Some(d) ==> 1 <= d.month <= 12 && 1 <= d.day <= 31 && -262143 <= d.year
            <= 262142,
{
    chrono::NaiveDate::parse_from_str(text, "%Y-%m-%d").ok().map(
        |d| CivilDate {
            year: chrono::Datelike::year(&d),
            month: chrono::Datelike::month(&d),
            day: chrono::Datelike::day(&d),
        },
    )
}

/// What `NaiveDate::format("%Y-%m-%d")` writes for a date (empty where
/// `chrono` has no such date).
pub uninterp spec fn date_text(year: i32, month: u32, day: u32) -> Seq<char>;

/// A date as `%Y-%m-%d`: named by `date_text`.
#[verifier::external_body]
pub(crate) fn format_date(d: CivilDate) -> (r: String)
    ensures
        r@ == date_text(d.year, d.month, d.day),
{
    chrono::NaiveDate::from_ymd_opt(d.year, d.month, d.day).map(
        |x| x.format("%Y-%m-%d").to_string(),
    ).unwrap_or_default()
}

} // verus!
