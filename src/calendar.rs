//! Calendar timestamps and the current-quarter window.

use chrono::{Datelike, Timelike};
use vstd::prelude::*;

verus! {

/// A calendar timestamp with second precision, in the platform's local time.
#[derive(Clone, Copy, Debug, PartialEq, Eq, Structural)]
pub struct Timestamp {
    pub year: i32,
    pub month: u32,
    pub day: u32,
    pub hour: u32,
    pub minute: u32,
    pub second: u32,
}

/// A half-open interval `[start, end)` of timestamps.
#[derive(Clone, Copy, Debug, PartialEq, Eq, Structural)]
pub struct DateRange {
    pub start: Timestamp,
    pub end: Timestamp,
}

pub open spec fn is_leap_year(year: int) -> bool {
    (year % 4 == 0 && year % 100 != 0) || year % 400 == 0
}

pub open spec fn days_in_month(year: int, month: int) -> int {
    if month == 2 {
        if is_leap_year(year) { 29 } else { 28 }
    } else if month == 4 || month == 6 || month == 9 || month == 11 {
        30
    } else {
        31
    }
}

/// Strict chronological order, which for valid timestamps is the
/// lexicographic order of (year, month, day, hour, minute, second).
pub open spec fn before(a: Timestamp, b: Timestamp) -> bool {
    a.year < b.year || (a.year == b.year && (a.month < b.month || (a.month == b.month && (a.day
        < b.day || (a.day == b.day && (a.hour < b.hour || (a.hour == b.hour && (a.minute
        < b.minute || (a.minute == b.minute && a.second < b.second)))))))))
}

/// The months since year zero at which a timestamp's month starts.
pub open spec fn month_index(t: Timestamp) -> int {
    t.year * 12 + t.month - 1
}

pub open spec fn not_after(a: Timestamp, b: Timestamp) -> bool {
    !before(b, a)
}

/// Whether `t` lies in the half-open interval `[r.start, r.end)`.
pub open spec fn in_range(t: Timestamp, r: DateRange) -> bool {
    not_after(r.start, t) && before(t, r.end)
}

/// Whether `t` lies in the window, where no window accepts every timestamp.
pub open spec fn in_window(t: Timestamp, w: Option<DateRange>) -> bool {
    match w {
        Some(r) => in_range(t, r),
        None => true,
    }
}

/// The first second of the given month.
pub open spec fn month_start(year: int, month: int) -> Timestamp {
    Timestamp { year: year as i32, month: month as u32, day: 1, hour: 0, minute: 0, second: 0 }
}

/// The quarter (0 to 3) that a month (1 to 12) belongs to.
pub open spec fn quarter_of(month: int) -> int {
    (month - 1) / 3
}

impl Timestamp {
    /// A valid calendar date and time of day.
    pub open spec fn wf(self) -> bool {
        &&& 1 <= self.month <= 12
        &&& 1 <= self.day <= days_in_month(self.year as int, self.month as int)
        &&& self.hour < 24
        &&& self.minute < 60
        &&& self.second < 60
    }
}

impl DateRange {
    /// A non-empty interval.
    pub open spec fn wf(self) -> bool {
        before(self.start, self.end)
    }
}

/// Whether `a` is strictly earlier than `b`.
pub fn is_before(a: &Timestamp, b: &Timestamp) -> (r: bool)
    ensures
        r == before(*a, *b),
{
    if a.year != b.year {
        return a.year < b.year;
    }
    if a.month != b.month {
        return a.month < b.month;
    }
    if a.day != b.day {
        return a.day < b.day;
    }
    if a.hour != b.hour {
        return a.hour < b.hour;
    }
    if a.minute != b.minute {
        return a.minute < b.minute;
    }
    a.second < b.second
}

/// Whether `t` lies in `[range.start, range.end)`.
pub fn is_in_range(t: &Timestamp, range: &DateRange) -> (r: bool)
    ensures
        r == in_range(*t, *range),
{
    !is_before(t, &range.start) && is_before(t, &range.end)
}

/// Whether `t` lies in the window; no window accepts every timestamp.
pub fn is_in_window(t: &Timestamp, window: &Option<DateRange>) -> (r: bool)
    ensures
        r == in_window(*t, *window),
{
    match window {
        Some(w) => is_in_range(t, w),
        None => true,
    }
}

/// The half-open interval of the calendar quarter that holds `now`: from the
/// first day of the quarter's first month, at midnight, to the first day of
/// the month three months later, at midnight (in the next year for the
/// last quarter).
pub fn get_current_quarter_range(now: &Timestamp) -> (r: DateRange)
    requires
        now.wf(),
        now.year < i32::MAX,
    ensures
        r == quarter_range_of(*now),
        is_quarter_range(r),
        r.start == month_start(now.year as int, quarter_of(now.month as int) * 3 + 1),
        now.month <= 9 ==> r.end == month_start(now.year as int, quarter_of(now.month as int) * 3 + 4),
        now.month > 9 ==> r.end == month_start(now.year + 1, 1),
        month_index(r.end) == month_index(r.start) + 3,
        now.month == 12 ==> r.end.month == 1 && r.end.year == now.year + 1,
        now.month <= 9 ==> r.end.year == now.year,
        r.start.wf(),
        r.end.wf(),
        r.wf(),
        in_range(*now, r),
{
    let quarter = (now.month - 1) / 3;
    let start_month = quarter * 3 + 1;
    let end_month = start_month + 3;
    let start = Timestamp { year: now.year, month: start_month, day: 1, hour: 0, minute: 0, second: 0 };
    let end = if end_month > 12 {
        Timestamp { year: now.year + 1, month: 1, day: 1, hour: 0, minute: 0, second: 0 }
    } else {
        Timestamp { year: now.year, month: end_month, day: 1, hour: 0, minute: 0, second: 0 }
    };
    DateRange { start, end }
}

/// Whether `r` is the window of some calendar quarter: it starts at midnight
/// on the first day of a quarter's first month and ends three months later.
pub open spec fn is_quarter_range(r: DateRange) -> bool {
    &&& r.start == month_start(r.start.year as int, r.start.month as int)
    &&& r.start.month == 1 || r.start.month == 4 || r.start.month == 7 || r.start.month == 10
    &&& month_index(r.end) == month_index(r.start) + 3
    &&& r.end.day == 1 && r.end.hour == 0 && r.end.minute == 0 && r.end.second == 0
}

/// The window a request asks for: the quarter that holds `now` when the
/// quarter flag is set, else none.
pub fn quarter_window(current_quarter: Option<bool>, now: &Timestamp) -> (r: Option<DateRange>)
    requires
        now.wf(),
        now.year < i32::MAX,
    ensures
        current_quarter == Some(true) ==> r == Some(quarter_range_of(*now)),
        current_quarter != Some(true) ==> r is None,
{
    match current_quarter {
        Some(true) => Some(get_current_quarter_range(now)),
        _ => None,
    }
}

/// The quarter range of `now`, as `get_current_quarter_range` computes it.
pub open spec fn quarter_range_of(now: Timestamp) -> DateRange {
    let start_month = quarter_of(now.month as int) * 3 + 1;
    DateRange {
        start: month_start(now.year as int, start_month),
        end: if start_month + 3 > 12 {
            month_start(now.year + 1, 1)
        } else {
            month_start(now.year as int, start_month + 3)
        },
    }
}

/// The local time now.
/// Relies on chrono's `Local::now` with the `Datelike` and `Timelike`
/// accessors: a valid date (month 1 to 12, a day of that month) in chrono's
/// year range, which ends below `i32::MAX`, and hour, minute and second
/// below 24, 60 and 60 (a leap second is carried in the nanoseconds).
/// chrono panics, here as in any caller of `Local::now`, when the system
/// clock reads before 1970 or the zone data has no entry for the current
/// time; both depend on the machine, not on anything passed in.
#[verifier::external_body]
fn local_now() -> (r: Timestamp)
    ensures
        r.wf(),
        r.year < i32::MAX,
{
    let now = chrono::Local::now();
    Timestamp {
        year: now.year(),
        month: now.month(),
        day: now.day(),
        hour: now.hour(),
        minute: now.minute(),
        second: now.second(),
    }
}

/// The window a request asks for, at the current local time: a quarter
/// range that holds the moment of the call when the flag is set, else none.
pub fn current_quarter_window(current_quarter: Option<bool>) -> (r: Option<DateRange>)
    ensures
        current_quarter == Some(true) <==> r is Some,
        r matches Some(d) ==> is_quarter_range(d) && d.wf(),
{
    if current_quarter == Some(true) {
        let now = local_now();
        quarter_window(current_quarter, &now)
    } else {
        None
    }
}

} // verus!
