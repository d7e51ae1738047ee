//! Timestamps as whole seconds since the Unix epoch (UTC), calendar days as
//! day numbers, and their text forms.

use vstd::prelude::*;

verus! {

/// First second of 0001-01-01 (UTC): the earliest instant whose RFC 3339 text
/// has a four-digit year.
pub const MIN_TIMESTAMP: i64 = -62135596800;

/// Last second of 9999-12-31 (UTC).
pub const MAX_TIMESTAMP: i64 = 253402300799;

pub const SECONDS_PER_DAY: i64 = 86400;

/// Day number of 0001-01-01 (days since 1970-01-01).
pub const MIN_DAY: i64 = -719162;

/// Day number of 9999-12-31.
pub const MAX_DAY: i64 = 2932896;

pub open spec fn valid_timestamp(t: int) -> bool {
    MIN_TIMESTAMP <= t <= MAX_TIMESTAMP
}

pub open spec fn valid_day(d: int) -> bool {
    MIN_DAY <= d <= MAX_DAY
}

/// The UTC calendar day (days since 1970-01-01) that contains second `t`.
pub open spec fn day_of(t: int) -> int {
    t / (SECONDS_PER_DAY as int)
}

/// The RFC 3339 text of second `t` (UTC).
pub uninterp spec fn rfc3339_text(t: int) -> Seq<char>;

/// The second denoted by an RFC 3339 text, if it is one.
pub uninterp spec fn rfc3339_seconds(s: Seq<char>) -> Option<i64>;

/// Second `t` (UTC) rendered by a strftime-style format.
pub uninterp spec fn formatted_date(fmt: Seq<char>, t: int) -> Seq<char>;

/// The first second of the date that `s` denotes under format `fmt`, if any.
pub uninterp spec fn parsed_date(s: Seq<char>, fmt: Seq<char>) -> Option<i64>;

/// The calendar day that contains second `t`.
pub fn day_number(t: i64) -> (d: i64)
    requires
        valid_timestamp(t as int),
    ensures
        d == day_of(t as int),
        valid_day(d as int),
{
    if t >= 0 {
        ((t as u64) / (SECONDS_PER_DAY as u64)) as i64
    } else {
        let u: u64 = (-(t + 1)) as u64;
        let q: u64 = u / (SECONDS_PER_DAY as u64);
        assert(q as int == (-(t + 1)) / 86400);
        assert(day_of(t as int) == -(q as int) - 1) by (nonlinear_arith)
            requires
                q as int == (-(t + 1)) / 86400,
                t < 0,
        {
        }
        -(q as i64) - 1
    }
}

/// The first second of day `d`.
pub fn day_start(d: i64) -> (t: i64)
    requires
        valid_day(d as int),
    ensures
        t == d * SECONDS_PER_DAY,
        valid_timestamp(t as int),
        day_of(t as int) == d,
{
    assert(day_of(d * 86400) == d) by (nonlinear_arith);
    d * SECONDS_PER_DAY
}

/// Day `d` as `YYYY-MM-DD` text.
pub fn date_text(d: i64) -> (r: String)
    requires
        valid_day(d as int),
    ensures
        r@ == formatted_date("%Y-%m-%d"@, d * 86400),
{
    format_date("%Y-%m-%d", day_start(d))
}

/// Relies on chrono's `DateTime::to_rfc3339` (after `DateTime::from_timestamp`,
/// which accepts every valid timestamp): the RFC 3339 text of second `t`.
#[verifier::external_body]
pub(crate) fn format_rfc3339(t: i64) -> (r: String)
    requires
        valid_timestamp(t as int),
    ensures
        r@ == rfc3339_text(t as int),
{
    match chrono::DateTime::from_timestamp(t, 0) {
        Some(d) => d.to_rfc3339(),
        None => String::new(),
    }
}

/// Relies on chrono's `DateTime::parse_from_rfc3339`, read as whole seconds by
/// `DateTime::timestamp`: `None` where the text is no RFC 3339 date and time.
#[verifier::external_body]
pub(crate) fn parse_rfc3339(s: &str) -> (r: Option<i64>)
    ensures
        r == rfc3339_seconds(s@),
{
    match chrono::DateTime::parse_from_rfc3339(s) {
        Ok(d) => Some(d.timestamp()),
        Err(_) => None,
    }
}

/// Relies on chrono's `DateTime::format` (after `DateTime::from_timestamp`,
/// which accepts every valid timestamp): second `t` rendered by `fmt`. Only
/// the `YYYY-MM-DD` format is admitted: an unknown specifier would make the
/// rendering fail.
#[verifier::external_body]
pub(crate) fn format_date(fmt: &str, t: i64) -> (r: String)
    requires
        fmt@ == "%Y-%m-%d"@,
        valid_timestamp(t as int),
    ensures
        r@ == formatted_date(fmt@, t as int),
{
    match chrono::DateTime::from_timestamp(t, 0) {
        Some(d) => d.format(fmt).to_string(),
        None => String::new(),
    }
}

/// Relies on chrono's `NaiveDate::parse_from_str`, read at midnight UTC as
/// whole seconds: `None` where `s` does not match `fmt`.
#[verifier::external_body]
pub(crate) fn parse_date(s: &str, fmt: &str) -> (r: Option<i64>)
    ensures
        r == parsed_date(s@, fmt@),
{
    match chrono::NaiveDate::parse_from_str(s, fmt) {
        Ok(d) => Some(d.and_time(chrono::NaiveTime::MIN).and_utc().timestamp()),
        Err(_) => None,
    }
}

} // verus!
