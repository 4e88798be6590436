//! Calendar dates, ordered by year, month and day.
use vstd::prelude::*;

verus! {

/// A calendar date.
#[derive(Debug, Clone, Copy, PartialEq, Eq, Structural)]
pub struct Date {
    pub year: i32,
    pub month: u8,
    pub day: u8,
}

/// Whether a date has a month in `1..=12` and a day in `1..=31`.
pub open spec fn date_wf(d: Date) -> bool {
    1 <= d.month <= 12 && 1 <= d.day <= 31
}

/// Whether `a` comes before `b`.
pub open spec fn date_lt(a: Date, b: Date) -> bool {
    a.year < b.year || (a.year == b.year && a.month < b.month) || (a.year == b.year && a.month
        == b.month && a.day < b.day)
}

/// A number that orders well-formed dates as the calendar does.
pub open spec fn date_key(d: Date) -> int {
    d.year * 416 + d.month * 32 + d.day
}

/// The earliest date: the first of January of the year -9999.
pub open spec fn date_min() -> Date {
    Date { year: -9999i32, month: 1, day: 1 }
}

/// For well-formed dates, the key order is the calendar order.
pub proof fn lemma_date_key_order(a: Date, b: Date)
    requires
        date_wf(a),
        date_wf(b),
    ensures
        date_lt(a, b) <==> date_key(a) < date_key(b),
        a == b <==> date_key(a) == date_key(b),
{
}

impl Date {
    /// The earliest date.
    pub fn min() -> (r: Date)
        ensures
            r == date_min(),
    {
        Date { year: -9999, month: 1, day: 1 }
    }

    /// Whether this date comes before `other`.
    pub fn lt(&self, other: &Date) -> (r: bool)
        ensures
            r == date_lt(*self, *other),
    {
        self.year < other.year || (self.year == other.year && self.month < other.month) || (
        self.year == other.year && self.month == other.month && self.day < other.day)
    }

    /// The ordering key of this date.
    pub fn key(&self) -> (r: i64)
        ensures
            r as int == date_key(*self),
    {
        (self.year as i64) * 416 + (self.month as i64) * 32 + (self.day as i64)
    }
}

} // verus!
