//! Calendar dates as plain year/month/day numbers, with a strict
//! `YYYY-MM-DD` parser. A date string is accepted only when it matches the
//! ten-character digit pattern and names a valid proleptic-Gregorian
//! calendar day.

use vstd::prelude::*;

verus! {

/// A calendar date held as plain numbers. A well-formed value names a real
/// calendar day (month in range, day within the month's length).
#[derive(Clone, Copy, PartialEq, Eq, Structural, Debug)]
pub struct Date {
    pub year: u32,
    pub month: u32,
    pub day: u32,
}

pub open spec fn is_leap_year(y: int) -> bool {
    y % 4 == 0 && (y % 100 != 0 || y % 400 == 0)
}

pub open spec fn days_in_month(y: int, m: int) -> int {
    if m == 2 {
        if is_leap_year(y) {
            29
        } else {
            28
        }
    } else if m == 4 || m == 6 || m == 9 || m == 11 {
        30
    } else {
        31
    }
}

pub open spec fn valid_ymd(y: int, m: int, d: int) -> bool {
    &&& 1 <= m <= 12
    &&& 1 <= d <= days_in_month(y, m)
}

impl Date {
    pub open spec fn wf(&self) -> bool {
        valid_ymd(self.year as int, self.month as int, self.day as int)
    }
}

pub open spec fn is_digit(c: char) -> bool {
    '0' <= c && c <= '9'
}

pub open spec fn digit_value(c: char) -> int {
    c as int - '0' as int
}

/// The shape demanded of a date-of-birth line: exactly four digits, a dash,
/// two digits, a dash, two digits.
pub open spec fn dob_format(s: Seq<char>) -> bool {
    &&& s.len() == 10
    &&& is_digit(s[0]) && is_digit(s[1]) && is_digit(s[2]) && is_digit(s[3])
    &&& s[4] == '-'
    &&& is_digit(s[5]) && is_digit(s[6])
    &&& s[7] == '-'
    &&& is_digit(s[8]) && is_digit(s[9])
}

pub open spec fn dob_year(s: Seq<char>) -> int {
    digit_value(s[0]) * 1000 + digit_value(s[1]) * 100 + digit_value(s[2]) * 10 + digit_value(
        s[3],
    )
}

pub open spec fn dob_month(s: Seq<char>) -> int {
    digit_value(s[5]) * 10 + digit_value(s[6])
}

pub open spec fn dob_day(s: Seq<char>) -> int {
    digit_value(s[8]) * 10 + digit_value(s[9])
}

/// A line is an acceptable date of birth exactly when it has the strict
/// `YYYY-MM-DD` shape and the numbers name a valid calendar day.
pub open spec fn parses_to_valid_date(s: Seq<char>) -> bool {
    &&& dob_format(s)
    &&& valid_ymd(dob_year(s), dob_month(s), dob_day(s))
}

/// Reads one character as a decimal digit.
fn digit_of(c: char) -> (r: Option<u32>)
    ensures
        match r {
            Some(v) => is_digit(c) && v == digit_value(c) && v <= 9,
            None => !is_digit(c),
        },
{
    if '0' <= c && c <= '9' {
        Some(c as u32 - '0' as u32)
    } else {
        None
    }
}

/// The number of days in the given month of the given year.
pub fn month_length(y: u32, m: u32) -> (r: u32)
    ensures
        r == days_in_month(y as int, m as int),
{
    if m == 2 {
        if y % 4 == 0 && (y % 100 != 0 || y % 400 == 0) {
            29
        } else {
            28
        }
    } else if m == 4 || m == 6 || m == 9 || m == 11 {
        30
    } else {
        31
    }
}

/// Parses a date-of-birth line. Accepts exactly the strings that match the
/// strict `YYYY-MM-DD` pattern and name a valid calendar day; any other
/// line is rejected.
pub fn parse_date(s: &str) -> (r: Option<Date>)
    ensures
        match r {
            Some(d) => {
                &&& parses_to_valid_date(s@)
                &&& d.year == dob_year(s@)
                &&& d.month == dob_month(s@)
                &&& d.day == dob_day(s@)
                &&& d.wf()
            },
            None => !parses_to_valid_date(s@),
        },
{
    if s.unicode_len() != 10 {
        return None;
    }
    if s.get_char(4) != '-' || s.get_char(7) != '-' {
        return None;
    }
    let y0 = digit_of(s.get_char(0));
    let y1 = digit_of(s.get_char(1));
    let y2 = digit_of(s.get_char(2));
    let y3 = digit_of(s.get_char(3));
    let m0 = digit_of(s.get_char(5));
    let m1 = digit_of(s.get_char(6));
    let d0 = digit_of(s.get_char(8));
    let d1 = digit_of(s.get_char(9));
    match (y0, y1, y2, y3, m0, m1, d0, d1) {
        (
            Some(y0),
            Some(y1),
            Some(y2),
            Some(y3),
            Some(m0),
            Some(m1),
            Some(d0),
            Some(d1),
        ) => {
            let year: u32 = y0 * 1000 + y1 * 100 + y2 * 10 + y3;
            let month: u32 = m0 * 10 + m1;
            let day: u32 = d0 * 10 + d1;
            if 1 <= month && month <= 12 && 1 <= day && day <= month_length(year, month) {
                Some(Date { year, month, day })
            } else {
                None
            }
        },
        _ => None,
    }
}

} // verus!
