use vstd::prelude::*;
use chrono::Datelike;

verus! {

/// A calendar date with no time of day and no time zone.
#[derive(Clone, Copy, Debug, PartialEq, Eq, Structural)]
pub struct CalendarDate {
    pub year: i32,
    pub month: u32,
    pub day: u32,
}

/// Leap years of the proleptic Gregorian calendar.
pub open spec fn is_leap_year(y: int) -> bool {
    (y % 4 == 0 && y % 100 != 0) || y % 400 == 0
}

/// The number of days of month `m` (1 to 12) of year `y`.
pub open spec fn days_in_month(y: int, m: int) -> int {
    if m == 2 {
        if is_leap_year(y) { 29 } else { 28 }
    } else if m == 4 || m == 6 || m == 9 || m == 11 {
        30
    } else {
        31
    }
}

/// `y`-`m`-`d` names a day of the proleptic Gregorian calendar.
pub open spec fn is_valid_ymd(y: int, m: int, d: int) -> bool {
    1 <= m <= 12 && 1 <= d <= days_in_month(y, m)
}

impl CalendarDate {
    pub open spec fn valid(self) -> bool {
        is_valid_ymd(self.year as int, self.month as int, self.day as int)
    }
}

pub open spec fn is_digit(c: char) -> bool {
    '0' <= c && c <= '9'
}

pub open spec fn digit_value(c: char) -> int {
    c as int - '0' as int
}

/// `s` is written `YYYY-MM-DD`: four digits, a dash, two digits, a dash and two digits.
pub open spec fn is_iso_form(s: Seq<char>) -> bool {
    &&& s.len() == 10
    &&& is_digit(s[0]) && is_digit(s[1]) && is_digit(s[2]) && is_digit(s[3])
    &&& s[4] == '-'
    &&& is_digit(s[5]) && is_digit(s[6])
    &&& s[7] == '-'
    &&& is_digit(s[8]) && is_digit(s[9])
}

pub open spec fn iso_year(s: Seq<char>) -> int {
    digit_value(s[0]) * 1000 + digit_value(s[1]) * 100 + digit_value(s[2]) * 10 + digit_value(s[3])
}

pub open spec fn iso_month(s: Seq<char>) -> int {
    digit_value(s[5]) * 10 + digit_value(s[6])
}

pub open spec fn iso_day(s: Seq<char>) -> int {
    digit_value(s[8]) * 10 + digit_value(s[9])
}

/// What chrono's `%Y-%m-%d` parser reads from a text, as year, month and day.
pub uninterp spec fn chrono_ymd(s: Seq<char>) -> Option<(i32, u32, u32)>;

/// Relies on `chrono::NaiveDate::parse_from_str` with the pattern `%Y-%m-%d`: the result
/// depends on the text alone; a date it returns is a real calendar date; a text of the
/// form `YYYY-MM-DD` is read as the date its digits name, where that date exists.
#[verifier::external_body]
fn parse_ymd(s: &str) -> (r: Option<(i32, u32, u32)>)
    ensures
        r == chrono_ymd(s@),
        r matches Some((y, m, d)) ==> is_valid_ymd(y as int, m as int, d as int),
        is_iso_form(s@) && is_valid_ymd(iso_year(s@), iso_month(s@), iso_day(s@)) ==> r
            == Some((iso_year(s@) as i32, iso_month(s@) as u32, iso_day(s@) as u32)),
        is_iso_form(s@) && !is_valid_ymd(iso_year(s@), iso_month(s@), iso_day(s@)) ==> r
            is None,
{
    match chrono::NaiveDate::parse_from_str(s, "%Y-%m-%d") {
        Ok(d) => Some((d.year(), d.month(), d.day())),
        Err(_) => None,
    }
}

/// The date that a parse result stands for: the parsed date, or `today` where the text
/// could not be read.
pub open spec fn resolved_date(parsed: Option<(i32, u32, u32)>, today: CalendarDate) -> CalendarDate {
    match parsed {
        Some((y, m, d)) => CalendarDate { year: y, month: m, day: d },
        None => today,
    }
}

/// The calendar date that an aggregator date string is stored as: its first ten
/// characters read as `%Y-%m-%d`, or `today` where they cannot be read (or the string is
/// shorter than ten characters).
pub open spec fn normalized_date(raw: Seq<char>, today: CalendarDate) -> CalendarDate {
    if raw.len() >= 10 {
        resolved_date(chrono_ymd(raw.subrange(0, 10)), today)
    } else {
        today
    }
}

/// Turns the result of reading a date into the date that is stored, falling back to
/// `today` where nothing could be read.
pub fn resolve_date(parsed: Option<(i32, u32, u32)>, today: CalendarDate) -> (r: CalendarDate)
    ensures
        r == resolved_date(parsed, today),
        parsed matches Some((y, m, d)) ==> r == (CalendarDate { year: y, month: m, day: d }),
        parsed is None ==> r == today,
{
    match parsed {
        Some((y, m, d)) => CalendarDate { year: y, month: m, day: d },
        None => today,
    }
}

/// Normalises an aggregator date string (an ISO date, possibly followed by a time) to a
/// calendar date. Never fails: an unreadable date becomes `today`.
pub fn normalize_date(raw: &str, today: CalendarDate) -> (r: CalendarDate)
    ensures
        r == normalized_date(raw@, today),
        today.valid() ==> r.valid(),
        raw@.len() >= 10 && is_iso_form(raw@.subrange(0, 10)) && is_valid_ymd(
            iso_year(raw@.subrange(0, 10)),
            iso_month(raw@.subrange(0, 10)),
            iso_day(raw@.subrange(0, 10)),
        ) ==> r == (CalendarDate {
            year: iso_year(raw@.subrange(0, 10)) as i32,
            month: iso_month(raw@.subrange(0, 10)) as u32,
            day: iso_day(raw@.subrange(0, 10)) as u32,
        }),
{
    let n = raw.unicode_len();
    if n < 10 {
        return today;
    }
    let prefix = raw.substring_char(0, 10);
    let parsed = parse_ymd(prefix);
    resolve_date(parsed, today)
}

} // verus!
