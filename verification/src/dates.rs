//! Day-precision release dates: parsing the catalog's "YYYY-MM-DD" strings
//! into calendar-checked year, month and day.

use vstd::prelude::*;
use crate::numbers::is_digit_char;
use crate::text::chars_of;

verus! {

pub open spec fn is_leap_year(y: int) -> bool {
    (y % 4 == 0 && y % 100 != 0) || y % 400 == 0
}

pub open spec fn days_in_month(y: int, m: int) -> int {
    if m == 2 {
        if is_leap_year(y) {
            29
        } else {
            28
        }
    } else if m == 4 || m == 6 || m == 9 || m == 11 {
        30
    } else {
        31
    }
}

pub open spec fn digit_at(s: Seq<char>, i: int) -> int {
    s[i] as u32 - 48
}

/// A ten-character "YYYY-MM-DD" string naming a valid calendar date, and the
/// date it names.
pub open spec fn parse_ymd_spec(s: Seq<char>) -> Option<(int, int, int)> {
    if s.len() == 10 && is_digit_char(s[0]) && is_digit_char(s[1]) && is_digit_char(s[2])
        && is_digit_char(s[3]) && s[4] == '-' && is_digit_char(s[5]) && is_digit_char(s[6]) && s[7]
        == '-' && is_digit_char(s[8]) && is_digit_char(s[9]) {
        let y = digit_at(s, 0) * 1000 + digit_at(s, 1) * 100 + digit_at(s, 2) * 10 + digit_at(
            s,
            3,
        );
        let m = digit_at(s, 5) * 10 + digit_at(s, 6);
        let d = digit_at(s, 8) * 10 + digit_at(s, 9);
        if 1 <= m <= 12 && 1 <= d <= days_in_month(y, m) {
            Some((y, m, d))
        } else {
            None
        }
    } else {
        None
    }
}

fn digit_val_exec(c: char) -> (r: u32)
    requires
        is_digit_char(c),
    ensures
        r == c as u32 - 48,
        r <= 9,
{
    c as u32 - 48
}

fn is_digit_exec(c: char) -> (r: bool)
    ensures
        r == is_digit_char(c),
{
    let u = c as u32;
    48 <= u && u <= 57
}

fn days_in_month_exec(y: i32, m: u8) -> (r: u8)
    ensures
        r == days_in_month(y as int, m as int),
{
    if m == 2 {
        let leap = (y % 4 == 0 && y % 100 != 0) || y % 400 == 0;
        if leap {
            29
        } else {
            28
        }
    } else if m == 4 || m == 6 || m == 9 || m == 11 {
        30
    } else {
        31
    }
}

/// Parses a day-precision "YYYY-MM-DD" date, validating the calendar,
/// including month lengths and leap years.
pub fn parse_ymd(s: &str) -> (r: Option<(i32, u8, u8)>)
    ensures
        match r {
            Some(t) => parse_ymd_spec(s@) == Some((t.0 as int, t.1 as int, t.2 as int)),
            None => parse_ymd_spec(s@) is None,
        },
{
    let v = chars_of(s);
    if v.len() != 10 {
        return None;
    }
    let shape = is_digit_exec(v[0]) && is_digit_exec(v[1]) && is_digit_exec(v[2]) && is_digit_exec(
        v[3],
    ) && v[4] == '-' && is_digit_exec(v[5]) && is_digit_exec(v[6]) && v[7] == '-' && is_digit_exec(
        v[8],
    ) && is_digit_exec(v[9]);
    if !shape {
        return None;
    }
    let y: u32 = digit_val_exec(v[0]) * 1000 + digit_val_exec(v[1]) * 100 + digit_val_exec(v[2])
        * 10 + digit_val_exec(v[3]);
    let m: u32 = digit_val_exec(v[5]) * 10 + digit_val_exec(v[6]);
    let d: u32 = digit_val_exec(v[8]) * 10 + digit_val_exec(v[9]);
    if !(1 <= m && m <= 12) {
        return None;
    }
    let month = m as u8;
    let year = y as i32;
    if d < 1 || (d as u8) > days_in_month_exec(year, month) {
        return None;
    }
    Some((year, month, d as u8))
}

} // verus!
