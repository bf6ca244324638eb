//! Calendar dates of posts, parsed from their `YYYY-MM-DD` text by `chrono`.

use vstd::prelude::*;

verus! {

/// Whether `year` is a leap year of the proleptic Gregorian calendar.
pub open spec fn is_leap_year(year: int) -> bool {
    (year % 4 == 0 && year % 100 != 0) || year % 400 == 0
}

/// The number of days of `month` (1 to 12) in `year`.
pub open spec fn days_in_month(year: int, month: int) -> int {
    if month == 2 {
        if is_leap_year(year) {
            29
        } else {
            28
        }
    } else if month == 4 || month == 6 || month == 9 || month == 11 {
        30
    } else {
        31
    }
}

/// `year`, `month` and `day` name a day of the proleptic Gregorian calendar.
pub open spec fn is_valid_date(year: int, month: int, day: int) -> bool {
    &&& 1 <= month <= 12
    &&& 1 <= day <= days_in_month(year, month)
}

/// What `chrono::NaiveDate::parse_from_str(text, format)` yields, as year,
/// month and day, or `None` where it fails.
pub uninterp spec fn chrono_parsed_date(text: Seq<char>, format: Seq<char>) -> Option<(i32, u32, u32)>;

/// Parses `text` with `chrono::NaiveDate::parse_from_str(text, format)` and
/// returns the year, month and day of the date.
///
/// Trusted: the result is the named `chrono_parsed_date` of the two texts; a
/// date that `chrono` returns is a valid calendar day (a `NaiveDate` is always
/// one). Which texts `chrono` accepts for a format is not stated.
#[verifier::external_body]
fn chrono_parse_date(text: &str, format: &str) -> (r: Option<(i32, u32, u32)>)
    ensures
        r == chrono_parsed_date(text@, format@),
        r matches Some(ymd) ==> is_valid_date(ymd.0 as int, ymd.1 as int, ymd.2 as int),
{
    match chrono::NaiveDate::parse_from_str(text, format) {
        Ok(date) => Some((
            chrono::Datelike::year(&date),
            chrono::Datelike::month(&date),
            chrono::Datelike::day(&date),
        )),
        Err(_) => None,
    }
}

/// A calendar date.
#[derive(Clone, Copy, Debug, PartialEq, Eq, Hash)]
pub struct Date {
    pub year: i32,
    pub month: u32,
    pub day: u32,
}

/// The format `%Y-%m-%d` that post dates are written in.
pub open spec fn iso_format() -> Seq<char> {
    "%Y-%m-%d"@
}

/// The date that `chrono` reads from `text` in the format `%Y-%m-%d`, if any.
pub open spec fn parsed_iso_date(text: Seq<char>) -> Option<Date> {
    match chrono_parsed_date(text, iso_format()) {
        Some(ymd) => Some(Date { year: ymd.0, month: ymd.1, day: ymd.2 }),
        None => None,
    }
}

impl Date {
    /// The date of the given year, month and day, where that day exists.
    pub fn from_ymd(year: i32, month: u32, day: u32) -> (r: Option<Date>)
        ensures
            r is Some <==> is_valid_date(year as int, month as int, day as int),
            r matches Some(d) ==> d.year == year && d.month == month && d.day == day,
    {
        if month < 1 || month > 12 || day < 1 {
            return None;
        }
        let leap = (year % 4 == 0 && year % 100 != 0) || year % 400 == 0;
        let max_day: u32 = if month == 2 {
            if leap {
                29
            } else {
                28
            }
        } else if month == 4 || month == 6 || month == 9 || month == 11 {
            30
        } else {
            31
        };
        if day > max_day {
            None
        } else {
            Some(Date { year, month, day })
        }
    }

    /// The date that a successful parse produced, or `None` for a failed one.
    pub fn from_parsed(parsed: Option<(i32, u32, u32)>) -> (r: Option<Date>)
        ensures
            r == (match parsed {
                Some(ymd) => Some(Date { year: ymd.0, month: ymd.1, day: ymd.2 }),
                None => None,
            }),
    {
        match parsed {
            Some((year, month, day)) => Some(Date { year, month, day }),
            None => None,
        }
    }

    /// Parses `text` as a date in the format `%Y-%m-%d` (`NaiveDate::parse_from_str`).
    pub fn parse_iso(text: &str) -> (r: Option<Date>)
        ensures
            r == parsed_iso_date(text@),
            r matches Some(d) ==> is_valid_date(d.year as int, d.month as int, d.day as int),
    {
        let format = "%Y-%m-%d";
        proof {
            assert(format@ == iso_format());
        }
        Date::from_parsed(chrono_parse_date(text, format))
    }
}

} // verus!
