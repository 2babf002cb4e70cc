//! Calendar dates and the day window.
//!
//! A date is a count of days (the local calendar day number), a timestamp a
//! count of seconds on the same scale: timestamp `t` falls on date `d` when
//! `d * 86400 <= t < (d + 1) * 86400`. Every "on this date" filter uses that
//! half-open window.

use vstd::prelude::*;

use chrono::Datelike;
use chrono::Timelike;

verus! {

/// Seconds in one calendar day.
pub const SECONDS_PER_DAY: i64 = 86400;

/// Dates handled by the library stay in this range, so that second-scale
/// arithmetic on them fits comfortably in `i64`.
pub open spec fn date_in_range(date: i64) -> bool {
    -100_000_000 <= date <= 100_000_000
}

/// Timestamp `ts` lies in the half-open day window of `date`:
/// `[midnight(date), midnight(date + 1))`.
pub open spec fn in_day_window(ts: i64, date: i64) -> bool {
    date * 86400 <= ts < (date + 1) * 86400
}

/// The half-open datetime interval `[midnight(date), midnight(date + 1))`.
pub fn day_window(date: i64) -> (r: (i64, i64))
    requires
        date_in_range(date),
    ensures
        r.0 == date * 86400,
        r.1 == date * 86400 + 86400,
        forall|ts: i64| in_day_window(ts, date) <==> r.0 <= ts < r.1,
{
    let start = date * SECONDS_PER_DAY;
    (start, start + SECONDS_PER_DAY)
}

/// Relies on `chrono::Local::now` and its naive accessors: the current local
/// calendar date as a day count (`Datelike::num_days_from_ce`, bounded by
/// chrono's supported year range of roughly ±262,000 years) and the seconds
/// past that date's midnight (`Timelike::num_seconds_from_midnight`, always
/// below 86,400). The value depends on the clock, so nothing more is
/// promised.
#[verifier::external_body]
fn now_local() -> (r: (i64, u32))
    ensures
        date_in_range(r.0),
        r.1 < 86400,
{
    let now = chrono::Local::now().naive_local();
    (now.date().num_days_from_ce() as i64, now.time().num_seconds_from_midnight())
}

/// The server's current local calendar date, with the current moment as a
/// timestamp inside that date's day window.
pub fn current_time() -> (r: (i64, i64))
    ensures
        date_in_range(r.0),
        in_day_window(r.1, r.0),
{
    let (date, secs) = now_local();
    (date, date * SECONDS_PER_DAY + (secs as i64))
}

} // verus!
