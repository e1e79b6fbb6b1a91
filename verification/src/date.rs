//! Calendar dates: the plain (year, month, day) triple the destination
//! layout is computed from, obtained from a file's creation timestamp.

use vstd::prelude::*;

verus! {

/// A calendar date as plain year, month and day numbers.
#[derive(Clone, Copy, PartialEq, Eq, Structural, Debug)]
pub struct Date {
    pub year: u32,
    pub month: u32,
    pub day: u32,
}

impl Date {
    /// The ranges the destination layout relies on: a year of at most
    /// four digits and calendar month and day numbers.
    pub open spec fn valid(self) -> bool {
        &&& 1 <= self.year <= 9999
        &&& 1 <= self.month <= 12
        &&& 1 <= self.day <= 31
    }
}

/// The civil date (year, month, day) in UTC of a count of seconds since
/// the Unix epoch, as the calendar library computes it; `None` where the
/// count lies outside its range. It is a function of the seconds alone.
pub uninterp spec fn spec_civil_date(secs: int) -> Option<(i32, u32, u32)>;

/// Relies on `chrono::DateTime::<Utc>::from_timestamp` and the
/// `chrono::Datelike` accessors `year`, `month` and `day`: the civil date
/// in UTC of a count of non-leap seconds since the Unix epoch, `None` on
/// an out-of-range count; `month` ranges over `1..=12` and `day` over
/// `1..=31`.
#[verifier::external_body]
fn civil_from_unix(secs: i64) -> (r: Option<(i32, u32, u32)>)
    ensures
        r == spec_civil_date(secs as int),
        match r {
            Some(t) => 1 <= t.1 <= 12 && 1 <= t.2 <= 31,
            None => true,
        },
{
    match chrono::DateTime::<chrono::Utc>::from_timestamp(secs, 0) {
        Some(dt) => Some((
            chrono::Datelike::year(&dt),
            chrono::Datelike::month(&dt),
            chrono::Datelike::day(&dt),
        )),
        None => None,
    }
}

/// The date a timestamp is filed under: the civil date in UTC, provided
/// the timestamp is in range for the calendar library and the year has at
/// most four digits; `None` otherwise.
pub open spec fn spec_date_of_unix(secs: int) -> Option<Date> {
    match spec_civil_date(secs) {
        Some(t) => if 1 <= t.0 <= 9999 {
            Some(Date { year: t.0 as u32, month: t.1, day: t.2 })
        } else {
            None
        },
        None => None,
    }
}

/// The date a file's creation timestamp (seconds since the Unix epoch)
/// files it under, or `None` when no valid date can be derived — a file
/// without one is skipped rather than filed under a substitute date.
pub fn date_of_unix(secs: i64) -> (r: Option<Date>)
    ensures
        r == spec_date_of_unix(secs as int),
        r is Some ==> r->Some_0.valid(),
{
    match civil_from_unix(secs) {
        Some((y, m, d)) => {
            if 1 <= y && y <= 9999 {
                Some(Date { year: y as u32, month: m, day: d })
            } else {
                None
            }
        },
        None => None,
    }
}

/// The English name of a calendar month, `"Unknown"` outside `1..=12`.
pub open spec fn spec_month_name(m: int) -> Seq<char> {
    if m == 1 {
        "January"@
    } else if m == 2 {
        "February"@
    } else if m == 3 {
        "March"@
    } else if m == 4 {
        "April"@
    } else if m == 5 {
        "May"@
    } else if m == 6 {
        "June"@
    } else if m == 7 {
        "July"@
    } else if m == 8 {
        "August"@
    } else if m == 9 {
        "September"@
    } else if m == 10 {
        "October"@
    } else if m == 11 {
        "November"@
    } else if m == 12 {
        "December"@
    } else {
        "Unknown"@
    }
}

pub fn month_name(m: u32) -> (r: &'static str)
    ensures
        r@ == spec_month_name(m as int),
{
    match m {
        1 => "January",
        2 => "February",
        3 => "March",
        4 => "April",
        5 => "May",
        6 => "June",
        7 => "July",
        8 => "August",
        9 => "September",
        10 => "October",
        11 => "November",
        12 => "December",
        _ => "Unknown",
    }
}

} // verus!
