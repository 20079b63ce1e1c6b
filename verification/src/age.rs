//! Age derivation: parses a date of birth in `YYYY-MM-DD` form and derives
//! an integer age in years from the current date. The rule compares only
//! the day of month, never the month, and a date that does not parse
//! yields age 0 silently; both oddities are part of the published
//! behaviour and are kept as they stand.

use vstd::prelude::*;

use crate::numbers::{digit_val, is_digit};

verus! {

/// Whether a year is a leap year in the proleptic Gregorian calendar.
pub open spec fn is_leap_year(y: int) -> bool {
    (y % 4 == 0 && y % 100 != 0) || y % 400 == 0
}

/// The number of days in a month of a year.
pub open spec fn days_in_month(y: int, m: int) -> int {
    if m == 2 {
        if is_leap_year(y) {
            29
        } else {
            28
        }
    } else if m == 4 || m == 6 || m == 9 || m == 11 {
        30
    } else {
        31
    }
}

/// The year denoted by the first four characters of a date string.
pub open spec fn year_of(s: Seq<char>) -> int {
    digit_val(s[0]) * 1000 + digit_val(s[1]) * 100 + digit_val(s[2]) * 10 + digit_val(s[3])
}

/// The month denoted by characters five and six of a date string.
pub open spec fn month_of(s: Seq<char>) -> int {
    digit_val(s[5]) * 10 + digit_val(s[6])
}

/// The day of month denoted by the last two characters of a date string.
pub open spec fn day_of(s: Seq<char>) -> int {
    digit_val(s[8]) * 10 + digit_val(s[9])
}

/// Whether a string is a well-formed `YYYY-MM-DD` date: ten characters,
/// digits and dashes in their places, and a valid calendar date.
pub open spec fn is_valid_date_str(s: Seq<char>) -> bool {
    &&& s.len() == 10
    &&& is_digit(s[0])
    &&& is_digit(s[1])
    &&& is_digit(s[2])
    &&& is_digit(s[3])
    &&& s[4] == '-'
    &&& is_digit(s[5])
    &&& is_digit(s[6])
    &&& s[7] == '-'
    &&& is_digit(s[8])
    &&& is_digit(s[9])
    &&& 1 <= month_of(s) <= 12
    &&& 1 <= day_of(s) <= days_in_month(year_of(s), month_of(s))
}

/// The age a date of birth yields on a given current year and day of
/// month: the difference of the years, less one when the current day of
/// month is below the birth day of month; 0 for a string that is not a
/// well-formed date.
pub open spec fn spec_age(s: Seq<char>, now_year: int, now_day: int) -> int {
    if is_valid_date_str(s) {
        if now_day < day_of(s) {
            now_year - year_of(s) - 1
        } else {
            now_year - year_of(s)
        }
    } else {
        0
    }
}

/// Reads one digit character of a date string.
fn read_digit(s: &str, i: usize) -> (r: Option<u32>)
    requires
        i < s@.len(),
    ensures
        match r {
            Some(d) => is_digit(s@[i as int]) && d == digit_val(s@[i as int]),
            None => !is_digit(s@[i as int]),
        },
{
    let c = s.get_char(i);
    let v = c as u32;
    if 48 <= v && v <= 57 {
        Some(v - 48)
    } else {
        None
    }
}

/// Parses a `YYYY-MM-DD` date string into (year, month, day), rejecting
/// anything that is not a well-formed calendar date.
pub fn parse_date_str(s: &str) -> (r: Option<(i32, i32, i32)>)
    ensures
        match r {
            Some(p) => is_valid_date_str(s@) && p.0 == year_of(s@) && p.1 == month_of(s@) && p.2
                == day_of(s@),
            None => !is_valid_date_str(s@),
        },
{
    if s.unicode_len() != 10 {
        return None;
    }
    if s.get_char(4) != '-' || s.get_char(7) != '-' {
        return None;
    }
    let d0 = match read_digit(s, 0) {
        Some(d) => d,
        None => {
            return None;
        },
    };
    let d1 = match read_digit(s, 1) {
        Some(d) => d,
        None => {
            return None;
        },
    };
    let d2 = match read_digit(s, 2) {
        Some(d) => d,
        None => {
            return None;
        },
    };
    let d3 = match read_digit(s, 3) {
        Some(d) => d,
        None => {
            return None;
        },
    };
    let d5 = match read_digit(s, 5) {
        Some(d) => d,
        None => {
            return None;
        },
    };
    let d6 = match read_digit(s, 6) {
        Some(d) => d,
        None => {
            return None;
        },
    };
    let d8 = match read_digit(s, 8) {
        Some(d) => d,
        None => {
            return None;
        },
    };
    let d9 = match read_digit(s, 9) {
        Some(d) => d,
        None => {
            return None;
        },
    };
    let year = (d0 * 1000 + d1 * 100 + d2 * 10 + d3) as i32;
    let month = (d5 * 10 + d6) as i32;
    let day = (d8 * 10 + d9) as i32;
    if month < 1 || month > 12 {
        return None;
    }
    let max_day: i32 = if month == 2 {
        if (year % 4 == 0 && year % 100 != 0) || year % 400 == 0 {
            29
        } else {
            28
        }
    } else if month == 4 || month == 6 || month == 9 || month == 11 {
        30
    } else {
        31
    };
    if day < 1 || day > max_day {
        return None;
    }
    Some((year, month, day))
}

/// Relies on chrono's `Local::now` and the `Datelike` `year` and `day`
/// accessors: the clock's current year and day of month. `day` is
/// documented to range from 1 to 31, and every chrono date's year lies
/// between its minimum and maximum representable years, -262143 and
/// 262142.
#[verifier::external_body]
pub(crate) fn today_year_day() -> (r: (i32, u32))
    ensures
        -262143 <= r.0 <= 262142,
        1 <= r.1 <= 31,
{
    let now = chrono::Local::now();
    (chrono::Datelike::year(&now), chrono::Datelike::day(&now))
}

/// The age a date of birth yields on an explicitly given current year and
/// day of month.
pub fn calculate_age_on(dob_str: &String, now_year: i32, now_day: u32) -> (age: i32)
    requires
        now_year - 10001 >= i32::MIN,
    ensures
        age == spec_age(dob_str@, now_year as int, now_day as int),
{
    match parse_date_str(dob_str.as_str()) {
        Some((year, _month, day)) => {
            let mut years = now_year - year;
            if now_day < (day as u32) {
                years = years - 1;
            }
            years
        },
        None => 0,
    }
}

/// The age a date of birth yields today: years since the birth year, less
/// one when today's day of month is below the birth day of month. A
/// string that is not a well-formed `YYYY-MM-DD` date yields 0 silently,
/// indistinguishable from an age with no applicable band.
pub fn calculate_age(dob_str: &String) -> (age: i32)
    ensures
        !is_valid_date_str(dob_str@) ==> age == 0,
        exists|y: int, d: int|
            -262143 <= y <= 262142 && 1 <= d <= 31 && age == spec_age(dob_str@, y, d),
{
    let (y, d) = today_year_day();
    let age = calculate_age_on(dob_str, y, d);
    proof {
        assert(age == spec_age(dob_str@, y as int, d as int));
    }
    age
}

} // verus!
