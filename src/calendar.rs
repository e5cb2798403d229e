//! Calendar dates and the few things about them that chrono computes.

use vstd::prelude::*;
use chrono::{Datelike, NaiveDate, NaiveDateTime, TimeDelta};
use crate::task::Date;

verus! {

/// What `NaiveDate::parse_from_str(s, fmt)` gives, as a [`Date`].
pub uninterp spec fn date_parsed(s: Seq<char>, fmt: Seq<char>) -> Option<Date>;

/// The date part of what `NaiveDateTime::parse_from_str(s, fmt)` gives.
pub uninterp spec fn datetime_date_parsed(s: Seq<char>, fmt: Seq<char>) -> Option<Date>;

/// What `NaiveDate::checked_add_signed` gives for `d` and a span of `n` days,
/// or `None` where `TimeDelta::try_days(n)` has no span.
pub uninterp spec fn days_after(d: Date, n: i64) -> Option<Date>;

/// What chrono writes for `d` under the format `%Y-%m-%d`.
pub uninterp spec fn iso_date_text(d: Date) -> Seq<char>;

/// Relies on chrono's `NaiveDate::parse_from_str`: the result depends on the
/// text and the format alone, and a `NaiveDate` is a valid date of chrono's
/// calendar, whose `month()` and `day()` are 1-based.
#[verifier::external_body]
pub(crate) fn parse_naive_date(s: &str, fmt: &str) -> (r: Option<Date>)
    ensures
        r == date_parsed(s@, fmt@),
        r matches Some(d) ==> d.is_valid(),
{
    NaiveDate::parse_from_str(s, fmt).ok().map(|d| Date { year: d.year(), month: d.month(), day: d.day() })
}

/// Relies on chrono's `NaiveDateTime::parse_from_str` and `NaiveDateTime::date`:
/// the result depends on the text and the format alone, and its date is a
/// valid date of chrono's calendar.
#[verifier::external_body]
pub(crate) fn parse_naive_datetime_date(s: &str, fmt: &str) -> (r: Option<Date>)
    ensures
        r == datetime_date_parsed(s@, fmt@),
        r matches Some(d) ==> d.is_valid(),
{
    NaiveDateTime::parse_from_str(s, fmt).ok().map(|dt| dt.date()).map(
        |d| Date { year: d.year(), month: d.month(), day: d.day() },
    )
}

/// Relies on chrono's `TimeDelta::try_days` and `NaiveDate::checked_add_signed`:
/// `d` moved by `n` days, or `None` where the span or the result is out of
/// range. A valid `d` always converts to a `NaiveDate`.
#[verifier::external_body]
pub(crate) fn add_days(d: Date, n: i64) -> (r: Option<Date>)
    requires
        d.is_valid(),
    ensures
        r == days_after(d, n),
        r matches Some(x) ==> x.is_valid(),
{
    let nd = NaiveDate::from_ymd_opt(d.year, d.month, d.day)?;
    TimeDelta::try_days(n).and_then(|t| nd.checked_add_signed(t)).map(
        |x| Date { year: x.year(), month: x.month(), day: x.day() },
    )
}

/// Relies on chrono's `DateFormat` display of a `NaiveDate` under `%Y-%m-%d`,
/// which depends on the date alone. A valid `d` always converts to a `NaiveDate`.
#[verifier::external_body]
pub(crate) fn format_iso_date(d: Date) -> (r: String)
    requires
        d.is_valid(),
    ensures
        r@ == iso_date_text(d),
{
    NaiveDate::from_ymd_opt(d.year, d.month, d.day).map(|nd| nd.format("%Y-%m-%d").to_string()).unwrap_or_default()
}

/// Relies on chrono's `Local::now` and `DateTime::date_naive`: today's date in
/// the machine's time zone, a valid date of chrono's calendar.
#[verifier::external_body]
pub(crate) fn today() -> (r: Date)
    ensures
        r.is_valid(),
{
    let d = chrono::Local::now().date_naive();
    Date { year: d.year(), month: d.month(), day: d.day() }
}

} // verus!
