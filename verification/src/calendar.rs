use vstd::prelude::*;
use chrono::Datelike;
use vstd::string::StringExecFns;
use crate::models::{Date, Time};
use crate::text::{decimal, zero_pad, push_padded};

verus! {

/// The first year that a calendar day of this library may have.
pub open spec fn first_year() -> int {
    -262143
}

/// The last year that a calendar day of this library may have.
pub open spec fn last_year() -> int {
    262142
}

/// Leap years of the proleptic Gregorian calendar.
pub open spec fn is_leap_year(y: int) -> bool {
    y % 4 == 0 && (y % 100 != 0 || y % 400 == 0)
}

/// The number of days of a month of a year.
pub open spec fn days_in_month(y: int, m: int) -> int {
    if m == 2 {
        if is_leap_year(y) {
            29
        } else {
            28
        }
    } else if m == 4 || m == 6 || m == 9 || m == 11 {
        30
    } else {
        31
    }
}

/// A day that exists in the calendar, within the years that a day may have.
pub open spec fn is_valid_date(d: Date) -> bool {
    &&& first_year() <= d.year <= last_year()
    &&& 1 <= d.month <= 12
    &&& 1 <= d.day <= days_in_month(d.year as int, d.month as int)
}

/// A time of day: hours, minutes and seconds in range, and a nanosecond
/// count below one second, or below two seconds in the last second of a
/// minute (the extra second stands for a leap second).
pub open spec fn is_valid_time(t: Time) -> bool {
    &&& t.hour < 24
    &&& t.minute < 60
    &&& t.second < 60
    &&& t.nanosecond < 2_000_000_000
    &&& t.nanosecond >= 1_000_000_000 ==> t.second == 59
}

/// Whether `y` is a leap year.
pub fn leap_year(y: i32) -> (r: bool)
    ensures
        r == is_leap_year(y as int),
{
    y % 4 == 0 && (y % 100 != 0 || y % 400 == 0)
}

/// Whether a day exists in the calendar, within the years a day may have.
pub fn date_is_valid(d: Date) -> (r: bool)
    ensures
        r == is_valid_date(d),
{
    if d.year < -262143 || d.year > 262142 || d.month < 1 || d.month > 12 || d.day < 1 {
        return false;
    }
    let last: u32 = if d.month == 2 {
        if leap_year(d.year) {
            29
        } else {
            28
        }
    } else if d.month == 4 || d.month == 6 || d.month == 9 || d.month == 11 {
        30
    } else {
        31
    };
    d.day <= last
}

/// Whether a time of day is one that chrono can hold.
pub fn time_is_valid(t: Time) -> (r: bool)
    ensures
        r == is_valid_time(t),
{
    t.hour < 24 && t.minute < 60 && t.second < 60 && t.nanosecond < 2_000_000_000 && (t.nanosecond
        < 1_000_000_000 || t.second == 59)
}

/// The day after `d`, or nothing after the last day of the last year.
pub open spec fn spec_next_day(d: Date) -> Option<Date> {
    if (d.day as int) < days_in_month(d.year as int, d.month as int) {
        Some(Date { day: (d.day + 1) as u32, ..d })
    } else if d.month < 12 {
        Some(Date { month: (d.month + 1) as u32, day: 1, ..d })
    } else if d.year < last_year() {
        Some(Date { year: (d.year + 1) as i32, month: 1, day: 1 })
    } else {
        None
    }
}

/// What chrono's `NaiveDate::parse_from_str` with the pattern `%Y-%m-%d`
/// gives for a text.
pub uninterp spec fn parsed_iso_date(s: Seq<char>) -> Option<Date>;

/// What std's `str::to_lowercase` gives for a text.
pub uninterp spec fn lowercased(s: Seq<char>) -> Seq<char>;

/// The day after `d`, as chrono computes it: `NaiveDate + Duration::days(1)`,
/// in the form that answers `None` where that sum would overflow (after the
/// last representable day). The contract states the calendar rule that
/// chrono documents for it: the next calendar day.
#[verifier::external_body]
fn chrono_next_day(d: Date) -> (r: Option<Date>)
    requires
        is_valid_date(d),
    ensures
        r == spec_next_day(d),
{
    let day = chrono::NaiveDate::from_ymd_opt(d.year, d.month, d.day)?;
    let next = day.checked_add_signed(chrono::Duration::days(1))?;
    Some(Date { year: next.year(), month: next.month(), day: next.day() })
}

/// chrono's `NaiveDate::parse_from_str(s, "%Y-%m-%d")`, with the parsed day
/// taken apart into its year, month and day. The result is named
/// `parsed_iso_date`; the contract adds only that a parsed day is a day of
/// the calendar within chrono's range, as every `NaiveDate` is. Which texts
/// chrono accepts is not restated here.
#[verifier::external_body]
fn chrono_parse_iso_date(s: &str) -> (r: Option<Date>)
    ensures
        r == parsed_iso_date(s@),
        r matches Some(d) ==> is_valid_date(d),
{
    match chrono::NaiveDate::parse_from_str(s, "%Y-%m-%d") {
        Ok(day) => Some(Date { year: day.year(), month: day.month(), day: day.day() }),
        Err(_) => None,
    }
}

/// std's `str::to_lowercase`. Its result is named `lowercased`; the Unicode
/// case mapping it applies is not restated here.
#[verifier::external_body]
fn std_to_lowercase(s: &str) -> (r: String)
    ensures
        r@ == lowercased(s@),
{
    s.to_lowercase()
}

/// Why a date argument was refused.
#[derive(Debug)]
pub enum DateArgError {
    /// The (lower-cased) text is neither a keyword nor a `YYYY-MM-DD` day.
    InvalidDate(String),
}

impl DateArgError {
    /// The message that the command line prints for the error.
    pub fn message(&self) -> (r: String)
        ensures
            r@ == spec_date_arg_message(*self),
    {
        match self {
            DateArgError::InvalidDate(text) => {
                proof {
                    reveal_strlit("invalid date '");
                    reveal_strlit("', expected YYYY-MM-DD or 'today'/'tomorrow'");
                }
                let mut out = String::from_str("invalid date '");
                out.append(text.as_str());
                out.append("', expected YYYY-MM-DD or 'today'/'tomorrow'");
                out
            },
        }
    }
}

/// The message of a refused date argument.
pub open spec fn spec_date_arg_message(e: DateArgError) -> Seq<char> {
    match e {
        DateArgError::InvalidDate(text) => "invalid date '"@ + text@
            + "', expected YYYY-MM-DD or 'today'/'tomorrow'"@,
    }
}

/// The day that a date argument names: `today` and `tomorrow` (in any case)
/// name the given day and the day after it; any other text is read, lower
/// cased, as a `YYYY-MM-DD` day. A text that names no day is refused with its
/// lower-cased form.
pub open spec fn spec_date_arg(s: Seq<char>, today: Date) -> Result<Date, Seq<char>> {
    let l = lowercased(s);
    if l == "today"@ {
        Ok(today)
    } else if l == "tomorrow"@ {
        Ok(spec_next_day(today).unwrap())
    } else {
        match parsed_iso_date(l) {
            Some(d) => Ok(d),
            None => Err(l),
        }
    }
}

/// What a lower-cased date argument names, given the current day, the day
/// after it and the day that the text reads as: `today` names the current
/// day, `tomorrow` the day after it, and any other text the day it reads as,
/// or it is refused with its text.
pub open spec fn spec_resolve_date_arg(lower: Seq<char>, today: Date, tomorrow: Option<Date>, parsed: Option<Date>) -> Result<Date, Seq<char>> {
    if lower == "today"@ {
        Ok(today)
    } else if lower == "tomorrow"@ {
        Ok(tomorrow.unwrap())
    } else {
        match parsed {
            Some(d) => Ok(d),
            None => Err(lower),
        }
    }
}

/// Decides what a lower-cased date argument names, from the current day,
/// the day after it (when there is one) and the day that the text reads as
/// (when it reads as one).
pub fn resolve_date_arg(lower: String, today: Date, tomorrow: Option<Date>, parsed: Option<Date>) -> (r: Result<Date, DateArgError>)
    requires
        lower@ == "tomorrow"@ ==> tomorrow is Some,
    ensures
        match (r, spec_resolve_date_arg(lower@, today, tomorrow, parsed)) {
            (Ok(d), Ok(e)) => d == e,
            (Err(DateArgError::InvalidDate(t)), Err(e)) => t@ == e,
            _ => false,
        },
{
    if lower == String::from_str("today") {
        Ok(today)
    } else if lower == String::from_str("tomorrow") {
        match tomorrow {
            Some(d) => Ok(d),
            None => Ok(today),
        }
    } else {
        match parsed {
            Some(d) => Ok(d),
            None => Err(DateArgError::InvalidDate(lower)),
        }
    }
}

/// Reads a date argument of the command line against the given current day.
/// `tomorrow` needs a day after the current one (there is none after the
/// last day of the last year).
pub fn parse_date_arg(s: &str, today: Date) -> (r: Result<Date, DateArgError>)
    requires
        is_valid_date(today),
        lowercased(s@) == "tomorrow"@ ==> spec_next_day(today) is Some,
    ensures
        match (r, spec_date_arg(s@, today)) {
            (Ok(d), Ok(e)) => d == e,
            (Err(DateArgError::InvalidDate(t)), Err(e)) => t@ == e,
            _ => false,
        },
        r matches Ok(d) ==> is_valid_date(d),
{
    let lower = std_to_lowercase(s);
    let tomorrow = chrono_next_day(today);
    let parsed = chrono_parse_iso_date(lower.as_str());
    proof {
        crate::laws::law_next_day_is_following_calendar_day(today, today);
    }
    resolve_date_arg(lower, today, tomorrow, parsed)
}

/// Reads a date argument as `parse_date_arg` does, where it can: `None`
/// exactly when the argument is `tomorrow` and the current day is the last
/// one there is.
pub fn try_parse_date_arg(s: &str, today: Date) -> (r: Option<Result<Date, DateArgError>>)
    requires
        is_valid_date(today),
    ensures
        r is None <==> (lowercased(s@) == "tomorrow"@ && spec_next_day(today) is None),
        r matches Some(x) ==> match (x, spec_date_arg(s@, today)) {
            (Ok(d), Ok(e)) => d == e,
            (Err(DateArgError::InvalidDate(t)), Err(e)) => t@ == e,
            _ => false,
        },
        r matches Some(Ok(d)) ==> is_valid_date(d),
{
    let lower = std_to_lowercase(s);
    if lower == String::from_str("tomorrow") && chrono_next_day(today).is_none() {
        None
    } else {
        Some(parse_date_arg(s, today))
    }
}

/// The `YYYY-MM-DD` text of a day, as chrono writes a `NaiveDate`: four digits
/// of year for the years 0 to 9999, and otherwise a sign and at least four
/// digits.
pub open spec fn spec_date_text(d: Date) -> Seq<char> {
    let year_part = if 0 <= d.year <= 9999 {
        zero_pad(decimal(d.year as nat), 4)
    } else if d.year < 0 {
        seq!['-'] + zero_pad(decimal((-d.year) as nat), 4)
    } else {
        seq!['+'] + zero_pad(decimal(d.year as nat), 4)
    };
    year_part + seq!['-'] + zero_pad(decimal(d.month as nat), 2) + seq!['-'] + zero_pad(
        decimal(d.day as nat),
        2,
    )
}

/// The `HH:MM` text of a time of day.
pub open spec fn spec_hour_minute_text(t: Time) -> Seq<char> {
    zero_pad(decimal(t.hour as nat), 2) + seq![':'] + zero_pad(decimal(t.minute as nat), 2)
}

/// Writes a day as `YYYY-MM-DD`.
pub fn date_text(d: Date) -> (r: String)
    ensures
        r@ == spec_date_text(d),
{
    proof {
        reveal_strlit("-");
        reveal_strlit("+");
    }
    let mut out = String::new();
    if 0 <= d.year && d.year <= 9999 {
        push_padded(&mut out, d.year as u64, 4);
    } else if d.year < 0 {
        out.append("-");
        let magnitude: i64 = 0 - (d.year as i64);
        push_padded(&mut out, magnitude as u64, 4);
    } else {
        out.append("+");
        push_padded(&mut out, d.year as u64, 4);
    }
    out.append("-");
    push_padded(&mut out, d.month as u64, 2);
    out.append("-");
    push_padded(&mut out, d.day as u64, 2);
    assert(out@ =~= spec_date_text(d));
    out
}

/// Writes a time of day as `HH:MM`.
pub fn hour_minute_text(t: Time) -> (r: String)
    ensures
        r@ == spec_hour_minute_text(t),
{
    proof {
        reveal_strlit(":");
    }
    let mut out = String::new();
    push_padded(&mut out, t.hour as u64, 2);
    out.append(":");
    push_padded(&mut out, t.minute as u64, 2);
    assert(out@ =~= spec_hour_minute_text(t));
    out
}

} // verus!
