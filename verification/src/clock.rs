//! Writing a date and time as text, through chrono.
use vstd::prelude::*;
use crate::text::decimal;

verus! {

/// A year of the proleptic Gregorian calendar with 366 days.
pub open spec fn leap_year(year: int) -> bool {
    (year % 4 == 0 && year % 100 != 0) || year % 400 == 0
}

/// The number of days of `month` (1 to 12) in `year`.
pub open spec fn days_in_month(year: int, month: int) -> int {
    if month == 2 {
        if leap_year(year) {
            29
        } else {
            28
        }
    } else if month == 4 || month == 6 || month == 9 || month == 11 {
        30
    } else {
        31
    }
}

/// A calendar date and time of day that chrono can hold: a year from
/// -262143 to 262142, a real day of a real month, and a time of day
/// without leap second.
pub open spec fn valid_date_time(year: i32, month: u32, day: u32, hour: u32, minute: u32, second: u32) -> bool {
    &&& -262143 <= year <= 262142
    &&& 1 <= month <= 12
    &&& 1 <= day <= days_in_month(year as int, month as int)
    &&& hour < 24
    &&& minute < 60
    &&& second < 60
}

/// `digits` padded on the left with zeros to `width` characters.
pub open spec fn zero_padded(digits: Seq<char>, width: nat) -> Seq<char> {
    if digits.len() < width {
        Seq::new((width - digits.len()) as nat, |i: int| '0') + digits
    } else {
        digits
    }
}

/// A year as strftime's `%Y` writes it: four digits from 0 to 9999, and
/// a sign before at least four digits outside that range.
pub open spec fn year_text(year: int) -> Seq<char> {
    if 0 <= year <= 9999 {
        zero_padded(decimal(year as nat), 4)
    } else if year < 0 {
        "-"@ + zero_padded(decimal((-year) as nat), 4)
    } else {
        "+"@ + zero_padded(decimal(year as nat), 4)
    }
}

/// A number below 100 as two digits.
pub open spec fn two_digits(v: int) -> Seq<char> {
    zero_padded(decimal(v as nat), 2)
}

/// The pattern that the updater writes its stamp after.
pub open spec fn stamp_pattern() -> Seq<char> {
    "%Y-%m-%d %H:%M:%S"@
}

/// A date and time written as `YYYY-MM-DD HH:MM:SS`.
pub open spec fn stamp_text(year: i32, month: u32, day: u32, hour: u32, minute: u32, second: u32) -> Seq<char> {
    year_text(year as int) + "-"@ + two_digits(month as int) + "-"@ + two_digits(day as int) + " "@
        + two_digits(hour as int) + ":"@ + two_digits(minute as int) + ":"@ + two_digits(
        second as int,
    )
}

/// A strftime pattern made only of literal characters and the
/// specifiers `%Y`, `%m`, `%d`, `%H`, `%M` and `%S`.
pub open spec fn simple_strftime(p: Seq<char>) -> bool {
    forall|i: int|
        0 <= i < p.len() && #[trigger] p[i] == '%' ==> i + 1 < p.len() && (p[i + 1] == 'Y'
            || p[i + 1] == 'm' || p[i + 1] == 'd' || p[i + 1] == 'H' || p[i + 1] == 'M' || p[i
            + 1] == 'S')
}

/// `s` holds no newline.
pub open spec fn single_line(s: Seq<char>) -> bool {
    forall|i: int| 0 <= i < s.len() ==> s[i] != '\n'
}

/// chrono's `NaiveDate::from_ymd_opt`, `NaiveDate::and_hms_opt` and
/// `NaiveDateTime::format`, rendered to a `String`: the date and time
/// given by its fields, written after the strftime pattern `pattern`.
/// The fields are held to a date and time chrono can build, and the
/// pattern to plain specifiers, on which the rendering cannot fail.
/// Claimed: numbers come out as digits, signs and padding and everything
/// else is the pattern's own text, so a pattern without a newline gives a
/// text without one; for `%Y-%m-%d %H:%M:%S` the text is
/// `stamp_text(..)`, as chrono's `write_year` and `write_two` write the
/// fields (zero padding, a sign on years outside 0 to 9999).
#[verifier::external_body]
pub(crate) fn format_date_time(
    year: i32,
    month: u32,
    day: u32,
    hour: u32,
    minute: u32,
    second: u32,
    pattern: &str,
) -> (r: String)
    requires
        valid_date_time(year, month, day, hour, minute, second),
        simple_strftime(pattern@),
    ensures
        single_line(pattern@) ==> single_line(r@),
        pattern@ == stamp_pattern() ==> r@ == stamp_text(year, month, day, hour, minute, second),
{
    chrono::NaiveDate::from_ymd_opt(year, month, day)
        .unwrap()
        .and_hms_opt(hour, minute, second)
        .unwrap()
        .format(pattern)
        .to_string()
}

} // verus!
