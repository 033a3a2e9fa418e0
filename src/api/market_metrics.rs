//! Earnings announcements of the market metrics.
use vstd::prelude::*;

use crate::common::ExpirationDate;

verus! {

/// Whether earnings are announced before the open or after the close.
#[derive(Clone, Copy, Debug, PartialEq, Eq, PartialOrd, Ord, Hash, Structural)]
pub enum EarningsTimeOfDay {
    BTO,
    AMC,
}

/// An expected earnings announcement.
#[derive(Clone, Copy, Debug, PartialEq, Eq, Structural)]
pub struct Earnings {
    pub expected_report_date: ExpirationDate,
    pub estimated: bool,
    pub time_of_day: Option<EarningsTimeOfDay>,
}

pub open spec fn date_key(d: ExpirationDate) -> (int, int, int) {
    (d.year as int, d.month as int, d.day as int)
}

/// The rank of an announcement time: unknown first, then before the open, then after the
/// close.
pub open spec fn time_rank(t: Option<EarningsTimeOfDay>) -> int {
    match t {
        None => 0,
        Some(EarningsTimeOfDay::BTO) => 1,
        Some(EarningsTimeOfDay::AMC) => 2,
    }
}

/// `a` comes before `b`: by report date, then by time of day; whether it is estimated does
/// not count.
pub open spec fn earnings_before(a: Earnings, b: Earnings) -> bool {
    let (ya, ma, da) = date_key(a.expected_report_date);
    let (yb, mb, db) = date_key(b.expected_report_date);
    ya < yb || (ya == yb && (ma < mb || (ma == mb && (da < db || (da == db && time_rank(
        a.time_of_day,
    ) < time_rank(b.time_of_day))))))
}

fn rank(t: Option<EarningsTimeOfDay>) -> (r: u8)
    ensures
        r as int == time_rank(t),
{
    match t {
        None => 0,
        Some(EarningsTimeOfDay::BTO) => 1,
        Some(EarningsTimeOfDay::AMC) => 2,
    }
}

impl Earnings {
    /// Orders announcements by report date, then by time of day.
    pub fn compare(&self, other: &Earnings) -> (r: core::cmp::Ordering)
        ensures
            (r == core::cmp::Ordering::Less) == earnings_before(*self, *other),
            (r == core::cmp::Ordering::Greater) == earnings_before(*other, *self),
    {
        let a = &self.expected_report_date;
        let b = &other.expected_report_date;
        if a.year != b.year {
            if a.year < b.year {
                core::cmp::Ordering::Less
            } else {
                core::cmp::Ordering::Greater
            }
        } else if a.month != b.month {
            if a.month < b.month {
                core::cmp::Ordering::Less
            } else {
                core::cmp::Ordering::Greater
            }
        } else if a.day != b.day {
            if a.day < b.day {
                core::cmp::Ordering::Less
            } else {
                core::cmp::Ordering::Greater
            }
        } else {
            let x = rank(self.time_of_day);
            let y = rank(other.time_of_day);
            if x < y {
                core::cmp::Ordering::Less
            } else if x > y {
                core::cmp::Ordering::Greater
            } else {
                core::cmp::Ordering::Equal
            }
        }
    }
}

} // verus!
