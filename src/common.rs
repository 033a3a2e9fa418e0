//! Values shared by the codecs: option types and calendar dates.
use vstd::prelude::*;

verus! {

/// Whether an option is a call or a put.
#[derive(Clone, Copy, Debug, PartialEq, Eq, Hash, Structural)]
pub enum OptionType {
    Call,
    Put,
}

pub open spec fn is_leap_year(y: int) -> bool {
    y % 4 == 0 && (y % 100 != 0 || y % 400 == 0)
}

pub open spec fn days_in_month(y: int, m: int) -> int {
    if m == 2 {
        if is_leap_year(y) {
            29
        } else {
            28
        }
    } else if m == 4 || m == 6 || m == 9 || m == 11 {
        30
    } else {
        31
    }
}

/// A day that exists in the proleptic Gregorian calendar.
pub open spec fn is_calendar_date(y: int, m: int, d: int) -> bool {
    1 <= m <= 12 && 1 <= d <= days_in_month(y, m)
}

/// The earliest and latest years that chrono's dates cover.
pub const MIN_YEAR: i32 = -262143;

pub const MAX_YEAR: i32 = 262142;

/// Relies on `chrono::NaiveDate::from_ymd_opt`, which returns `None` exactly when the month
/// or the day is invalid, the day does not exist in that month, or the year lies outside
/// `MIN_YEAR..=MAX_YEAR`; it does not panic.
#[verifier::external_body]
fn calendar_date_exists(year: i32, month: u32, day: u32) -> (r: bool)
    ensures
        r == (MIN_YEAR <= year <= MAX_YEAR && is_calendar_date(
            year as int,
            month as int,
            day as int,
        )),
{
    chrono::NaiveDate::from_ymd_opt(year, month, day).is_some()
}

/// A point in time: seconds and nanoseconds since the Unix epoch, and the UTC offset it was
/// written with.
#[derive(Clone, Copy, Debug, PartialEq, Eq, Hash, Structural)]
pub struct Timestamp {
    pub seconds: i64,
    pub nanoseconds: u32,
    pub offset_seconds: i32,
}

/// A calendar date with no time of day.
#[derive(Clone, Copy, Debug, PartialEq, Eq, PartialOrd, Ord, Hash, Structural)]
pub struct ExpirationDate {
    pub year: i32,
    pub month: u32,
    pub day: u32,
}

impl ExpirationDate {
    /// The date, when it exists in the calendar and lies in the years that chrono covers.
    pub fn new(year: i32, month: u32, day: u32) -> (r: Option<ExpirationDate>)
        ensures
            r is Some <==> MIN_YEAR <= year <= MAX_YEAR && is_calendar_date(
                year as int,
                month as int,
                day as int,
            ),
            r matches Some(d) ==> d.year == year && d.month == month && d.day == day,
    {
        if calendar_date_exists(year, month, day) {
            Some(ExpirationDate { year, month, day })
        } else {
            None
        }
    }
}

} // verus!
