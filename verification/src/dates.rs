//! Upload dates and the time stamps that a feed shows for them.
//!
//! A date in a metadata file is eight digits: four of the year, two of the
//! month, two of the day. A feed shows it as a time stamp at a fixed time of
//! that day, taken as UTC, written by the `chrono` crate.

use std::fmt::Write;
use vstd::prelude::*;
use crate::error::Error;
use crate::text::{all_digits, chars_of, digits_value, parse_digits};

verus! {

/// The hour of the day at which every publication is stamped.
pub const STAMP_HOUR: u32 = 9;

/// The minute of the hour at which every publication is stamped.
pub const STAMP_MINUTE: u32 = 10;

/// The second of the minute at which every publication is stamped.
pub const STAMP_SECOND: u32 = 11;

/// The pattern of a time stamp: day of the week, day, month, year, time and
/// offset from UTC.
pub open spec fn stamp_pattern() -> Seq<char> {
    "%a, %d %b %Y %H:%M:%S %z"@
}

/// The text that `chrono` writes, under `pattern`, for the moment in UTC that
/// the six fields give; `None` where the fields give no moment or `pattern`
/// cannot be used.
pub uninterp spec fn utc_stamp(
    year: int,
    month: int,
    day: int,
    hour: int,
    minute: int,
    second: int,
    pattern: Seq<char>,
) -> Option<Seq<char>>;

/// Calls `chrono`: `DateTime::<Utc>::format` on the moment that
/// `NaiveDate::from_ymd_opt` and `NaiveDate::and_hms_opt` build from the six
/// fields. The contract only gives the outcome its name, `utc_stamp`: it is
/// `None` where `chrono` builds no moment from the fields or reports an error
/// while it writes, and the written text otherwise.
#[verifier::external_body]
fn format_utc(
    year: i32,
    month: u32,
    day: u32,
    hour: u32,
    minute: u32,
    second: u32,
    pattern: &str,
) -> (text: Option<String>)
    ensures
        match text {
            Some(t) => utc_stamp(
                year as int,
                month as int,
                day as int,
                hour as int,
                minute as int,
                second as int,
                pattern@,
            ) == Some(t@),
            None => utc_stamp(
                year as int,
                month as int,
                day as int,
                hour as int,
                minute as int,
                second as int,
                pattern@,
            ) is None,
        },
{
    let date = chrono::NaiveDate::from_ymd_opt(year, month, day)?;
    let at = date.and_hms_opt(hour, minute, second)?;
    let moment = chrono::DateTime::<chrono::Utc>::from_naive_utc_and_offset(at, chrono::Utc);
    let mut text = String::new();
    write!(text, "{}", moment.format(pattern)).ok()?;
    Some(text)
}

/// True when the calendar of `chrono` has the day `day` of the month `month`
/// of the year `year`.
pub uninterp spec fn calendar_has(year: int, month: int, day: int) -> bool;

/// Calls `NaiveDate::from_ymd_opt` and tells whether it gives a date. The
/// contract gives the answer its name, `calendar_has`.
#[verifier::external_body]
fn on_calendar(year: i32, month: u32, day: u32) -> (yes: bool)
    ensures
        yes == calendar_has(year as int, month as int, day as int),
{
    chrono::NaiveDate::from_ymd_opt(year, month, day).is_some()
}

/// True when the eight digits that spell `number` are a date of the
/// calendar: the first four the year, the next two the month, the last two
/// the day.
pub open spec fn date_on_calendar(number: int) -> bool {
    calendar_has(number / 10000, (number / 100) % 100, number % 100)
}

/// Tells whether the eight digits that spell `number` are a date of the
/// calendar. A number of more than eight digits is none.
pub fn is_calendar_date(number: u32) -> (yes: bool)
    ensures
        yes == (number <= 99_999_999 && date_on_calendar(number as int)),
{
    if number > 99_999_999 {
        return false;
    }
    on_calendar((number / 10000) as i32, (number / 100) % 100, number % 100)
}

/// True when `text` is written as a date: eight digits.
pub open spec fn is_date_text(text: Seq<char>) -> bool {
    text.len() == 8 && all_digits(text)
}

/// The year that a date's first four digits spell.
pub open spec fn year_of(text: Seq<char>) -> int {
    digits_value(text.subrange(0, 4))
}

/// The month that a date's fifth and sixth digits spell.
pub open spec fn month_of(text: Seq<char>) -> int {
    digits_value(text.subrange(4, 6))
}

/// The day that a date's last two digits spell.
pub open spec fn day_of(text: Seq<char>) -> int {
    digits_value(text.subrange(6, 8))
}

/// The time stamp of a publication on the date that `upload_date` is written
/// as, or `None` where `upload_date` is not written as a date or names a day
/// that no calendar has.
pub open spec fn publication_stamp(upload_date: Seq<char>) -> Option<Seq<char>> {
    if is_date_text(upload_date) {
        utc_stamp(
            year_of(upload_date),
            month_of(upload_date),
            day_of(upload_date),
            STAMP_HOUR as int,
            STAMP_MINUTE as int,
            STAMP_SECOND as int,
            stamp_pattern(),
        )
    } else {
        None
    }
}

/// Splits a date of eight digits into year, month and day.
pub fn date_fields(upload_date: &str) -> (fields: Option<(i32, u32, u32)>)
    ensures
        match fields {
            Some((year, month, day)) => is_date_text(upload_date@) && year == year_of(
                upload_date@,
            ) && month == month_of(upload_date@) && day == day_of(upload_date@),
            None => !is_date_text(upload_date@),
        },
{
    let chars = chars_of(upload_date);
    if chars.len() != 8 {
        return None;
    }
    let year = parse_digits(&chars, 0, 4);
    let month = parse_digits(&chars, 4, 6);
    let day = parse_digits(&chars, 6, 8);
    proof {
        let text = upload_date@;
        if all_digits(text) {
            assert forall|i: int| 0 <= i < 4 implies crate::text::is_digit(
                #[trigger] text.subrange(0, 4)[i],
            ) by {
                assert(text.subrange(0, 4)[i] == text[i]);
            }
            assert forall|i: int| 0 <= i < 2 implies crate::text::is_digit(
                #[trigger] text.subrange(4, 6)[i],
            ) by {
                assert(text.subrange(4, 6)[i] == text[i + 4]);
            }
            assert forall|i: int| 0 <= i < 2 implies crate::text::is_digit(
                #[trigger] text.subrange(6, 8)[i],
            ) by {
                assert(text.subrange(6, 8)[i] == text[i + 6]);
            }
        }
    }
    match (year, month, day) {
        (Some(year), Some(month), Some(day)) => {
            proof {
                let text = upload_date@;
                assert forall|i: int| 0 <= i < 8 implies crate::text::is_digit(
                    #[trigger] text[i],
                ) by {
                    if i < 4 {
                        assert(text.subrange(0, 4)[i] == text[i]);
                    } else if i < 6 {
                        assert(text.subrange(4, 6)[i - 4] == text[i]);
                    } else {
                        assert(text.subrange(6, 8)[i - 6] == text[i]);
                    }
                }
                crate::text::lemma_digits_bound(text.subrange(0, 4));
                reveal_with_fuel(crate::text::pow10, 5);
            }
            Some((year as i32, month, day))
        },
        _ => None,
    }
}

/// Turns what the formatter gave for an upload date into the stamp or the
/// error that the date's owner is told: a missing stamp means that the
/// metadata is malformed, and the error quotes the date.
pub fn stamp_or_error(stamp: Option<String>, upload_date: &str) -> (outcome: Result<String, Error>)
    ensures
        match outcome {
            Ok(text) => stamp == Some(text),
            Err(error) => stamp is None && error.is_malformed(upload_date@),
        },
{
    match stamp {
        Some(text) => Ok(text),
        None => Err(Error::MalformedMetadata(String::from_str(upload_date))),
    }
}

/// Writes the time stamp of a publication on the date `upload_date`.
/// Fails with `MalformedMetadata`, quoting the date, exactly where
/// `upload_date` is not eight digits or names a day that no calendar has.
pub fn pub_date_of(upload_date: &str) -> (outcome: Result<String, Error>)
    ensures
        match outcome {
            Ok(text) => publication_stamp(upload_date@) == Some(text@),
            Err(error) => publication_stamp(upload_date@) is None && error.is_malformed(
                upload_date@,
            ),
        },
{
    let stamp = match date_fields(upload_date) {
        Some((year, month, day)) => format_utc(
            year,
            month,
            day,
            STAMP_HOUR,
            STAMP_MINUTE,
            STAMP_SECOND,
            "%a, %d %b %Y %H:%M:%S %z",
        ),
        None => None,
    };
    stamp_or_error(stamp, upload_date)
}

} // verus!
