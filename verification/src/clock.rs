//! The wall clock.

use vstd::prelude::*;
use chrono::Datelike;
use crate::period::LocalDate;

verus! {

/// Reads the current local date with `chrono::Local::now` and hands out the
/// year, month and day that `chrono::Datelike` gives for it. Nothing is
/// claimed of the year; the month lies between 1 and 12 and the day between
/// 1 and 31, as `Datelike::month` and `Datelike::day` document.
#[verifier::external_body]
fn local_calendar_now() -> (ymd: (i32, u32, u32))
    ensures
        1 <= ymd.1 <= 12,
        1 <= ymd.2 <= 31,
{
    let now = chrono::Local::now();
    (now.year(), now.month(), now.day())
}

/// Reads the current time with `chrono::Utc::now` and hands out its
/// `timestamp`, the whole seconds since the Unix epoch. `Utc::now` measures
/// forward from the epoch, so the count is not negative.
#[verifier::external_body]
fn unix_seconds_now() -> (seconds: i64)
    ensures
        seconds >= 0,
{
    chrono::Utc::now().timestamp()
}

/// Today's date on the local wall clock, or `None` where the clock shows a
/// year that a four-digit bucket name cannot hold.
pub fn today() -> (date: Option<LocalDate>)
    ensures
        date matches Some(d) ==> d.wf(),
{
    let (year, month, day) = local_calendar_now();
    LocalDate::from_calendar(year, month, day)
}

/// The current time in whole seconds since the Unix epoch.
pub fn timestamp_now() -> (seconds: i64)
    ensures
        seconds >= 0,
{
    unix_seconds_now()
}

} // verus!
