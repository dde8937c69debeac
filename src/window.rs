use vstd::prelude::*;

use chrono::Datelike;
use chrono::Timelike;

use crate::civil::lemma_shift_order_iff;
use crate::civil::lemma_shift_round_trip;
use crate::civil::not_after;
use crate::civil::shift_hours;
use crate::civil::Civil;
use crate::civil::Date;
use crate::civil::DateTime;
use crate::offset::offset_result;
use crate::offset::parse_offset;
use crate::offset::OffsetError;
use crate::text::datetime_text;
use crate::text::format_datetime;

verus! {

/// First and last years that chrono's naive dates can hold.
pub const FIRST_YEAR: i32 = -262143;

pub const LAST_YEAR: i32 = 262142;

/// chrono's parse error, carried as an opaque value and mapped to `TimeError`.
#[verifier::external_type_specification]
#[verifier::external_body]
pub struct ExParseError(chrono::ParseError);

/// Why a date, a timestamp or an offset was not accepted.
#[derive(Clone, Copy, Debug, PartialEq, Eq, Structural)]
pub enum TimeError {
    MalformedDate,
    MalformedTimestamp,
    MalformedOffset,
    OffsetOutOfRange,
    MissingTimestamp,
}

pub open spec fn offset_error(e: OffsetError) -> TimeError {
    match e {
        OffsetError::Malformed => TimeError::MalformedOffset,
        OffsetError::OutOfRange => TimeError::OffsetOutOfRange,
    }
}

fn from_offset_error(e: OffsetError) -> (r: TimeError)
    ensures
        r == offset_error(e),
{
    match e {
        OffsetError::Malformed => TimeError::MalformedOffset,
        OffsetError::OutOfRange => TimeError::OffsetOutOfRange,
    }
}

/// The date that chrono reads from a `%Y-%m-%d` text, if any.
pub uninterp spec fn parsed_date(s: Seq<char>) -> Option<Date>;

/// The moment that chrono reads from a `%Y-%m-%d %H:%M:%S` text, if any.
pub uninterp spec fn parsed_datetime(s: Seq<char>) -> Option<DateTime>;

/// Relies on `chrono::NaiveDate::parse_from_str` with `%Y-%m-%d`: its result
/// depends on the text alone, and a `NaiveDate` is a calendar date within
/// chrono's years.
#[verifier::external_body]
fn read_date(s: &str) -> (r: Result<Date, chrono::ParseError>)
    ensures
        r is Ok <==> parsed_date(s@) is Some,
        r matches Ok(d) ==> {
            &&& parsed_date(s@) == Some(d)
            &&& d.valid()
            &&& FIRST_YEAR <= d.year <= LAST_YEAR
        },
{
    chrono::NaiveDate::parse_from_str(s, "%Y-%m-%d").map(
        |d| Date { year: d.year(), month: d.month(), day: d.day() },
    )
}

/// Relies on `chrono::NaiveDateTime::parse_from_str` with
/// `%Y-%m-%d %H:%M:%S`: its result depends on the text alone, a
/// `NaiveDateTime` is a calendar date within chrono's years, and `second()`
/// stays below 60.
#[verifier::external_body]
fn read_datetime(s: &str) -> (r: Result<DateTime, chrono::ParseError>)
    ensures
        r is Ok <==> parsed_datetime(s@) is Some,
        r matches Ok(d) ==> {
            &&& parsed_datetime(s@) == Some(d)
            &&& d@.valid()
            &&& FIRST_YEAR <= d.year <= LAST_YEAR
        },
{
    chrono::NaiveDateTime::parse_from_str(s, "%Y-%m-%d %H:%M:%S").map(
        |t| DateTime {
            year: t.year(),
            month: t.month(),
            day: t.day(),
            hour: t.hour(),
            minute: t.minute(),
            second: t.second(),
        },
    )
}

/// A local wall-clock moment at a whole-hour offset, brought to UTC.
pub fn to_utc(local: &DateTime, hours: i32) -> (r: DateTime)
    requires
        local.wf(),
        -23 <= hours <= 23,
    ensures
        r@ == local@.shift_hours(-hours as int),
        r@.shift_hours(hours as int) == local@,
{
    proof {
        lemma_shift_round_trip(local@, hours as int);
    }
    shift_hours(local, -hours)
}

/// A UTC moment brought to the wall clock of a whole-hour offset.
pub fn to_local(utc: &DateTime, hours: i32) -> (r: DateTime)
    requires
        utc.wf(),
        -23 <= hours <= 23,
    ensures
        r@ == utc@.shift_hours(hours as int),
        r@.shift_hours(-hours as int) == utc@,
{
    proof {
        lemma_shift_round_trip(utc@, -hours as int);
    }
    shift_hours(utc, hours)
}

/// The first and last minute of day `d` at offset `z`, in UTC.
pub open spec fn window_spec(d: Date, z: int) -> (Civil, Civil) {
    (d.at_spec(0, 0, 0).shift_hours(-z), d.at_spec(23, 59, 0).shift_hours(-z))
}

/// A valid UTC moment `t` lies in the window of day `d` at offset `z`, ends
/// included, exactly when its wall-clock time at `z` lies between 00:00:00 and
/// 23:59:00 of `d`.
pub proof fn lemma_window_membership(d: Date, z: int, t: Civil)
    requires
        d.valid(),
        -23 <= z <= 23,
        t.valid(),
    ensures
        (not_after(window_spec(d, z).0, t) && not_after(t, window_spec(d, z).1)) <==> (not_after(
            d.at_spec(0, 0, 0),
            t.shift_hours(z),
        ) && not_after(t.shift_hours(z), d.at_spec(23, 59, 0))),
{
    let first = d.at_spec(0, 0, 0);
    let last = d.at_spec(23, 59, 0);
    lemma_shift_round_trip(first, z);
    lemma_shift_round_trip(last, z);
    lemma_shift_order_iff(first.shift_hours(-z), t, z);
    lemma_shift_order_iff(t, last.shift_hours(-z), z);
}

/// The inclusive UTC range that covers calendar day `date` at the offset
/// that `offset` names: from 00:00:00 to 23:59:00 local time.
pub fn window_for(date: &Date, offset: &str) -> (r: Result<(DateTime, DateTime), TimeError>)
    requires
        date.valid(),
        i32::MIN < date.year < i32::MAX,
    ensures
        match offset_result(offset@) {
            Err(e) => r == Err::<(DateTime, DateTime), TimeError>(offset_error(e)),
            Ok(z) => r matches Ok(w) && (w.0@, w.1@) == window_spec(*date, z as int) && w.0@.shift_hours(
                z as int,
            ) == date.at_spec(0, 0, 0) && w.1@.shift_hours(z as int) == date.at_spec(23, 59, 0),
        },
{
    let z = match parse_offset(offset) {
        Err(e) => {
            return Err(from_offset_error(e));
        },
        Ok(z) => z,
    };
    let start = to_utc(&date.at(0, 0, 0), z);
    let end = to_utc(&date.at(23, 59, 0), z);
    Ok((start, end))
}

/// Reads day `date` (`YYYY-MM-DD`) and gives its UTC range at `offset`.
pub fn day_window(date: &str, offset: &str) -> (r: Result<(DateTime, DateTime), TimeError>)
    ensures
        match parsed_date(date@) {
            None => r == Err::<(DateTime, DateTime), TimeError>(TimeError::MalformedDate),
            Some(d) => match offset_result(offset@) {
                Err(e) => r == Err::<(DateTime, DateTime), TimeError>(offset_error(e)),
                Ok(z) => r matches Ok(w) && (w.0@, w.1@) == window_spec(d, z as int),
            },
        },
{
    match read_date(date) {
        Err(_) => Err(TimeError::MalformedDate),
        Ok(d) => window_for(&d, offset),
    }
}

/// A UTC moment written as `YYYY-MM-DD HH:MM:SS` on the wall clock of the
/// offset that `offset` names.
pub fn display_in_zone(utc: &DateTime, offset: &str) -> (r: Result<String, TimeError>)
    requires
        utc.wf(),
    ensures
        match offset_result(offset@) {
            Err(e) => r == Err::<String, TimeError>(offset_error(e)),
            Ok(z) => r matches Ok(s) && s@ == datetime_text(utc@.shift_hours(z as int)),
        },
{
    let z = match parse_offset(offset) {
        Err(e) => {
            return Err(from_offset_error(e));
        },
        Ok(z) => z,
    };
    let local = to_local(utc, z);
    Ok(format_datetime(&local))
}

/// What a stored UTC timestamp reads as on the wall clock of `offset`.
pub open spec fn zone_text(stamp: Seq<char>, offset: Seq<char>) -> Result<Seq<char>, TimeError> {
    match parsed_datetime(stamp) {
        None => Err(TimeError::MalformedTimestamp),
        Some(t) => match offset_result(offset) {
            Err(e) => Err(offset_error(e)),
            Ok(z) => Ok(datetime_text(t@.shift_hours(z as int))),
        },
    }
}

/// Reads a stored UTC timestamp (`YYYY-MM-DD HH:MM:SS`) and writes it on the
/// wall clock of `offset`.
pub fn to_zone(stamp: &str, offset: &str) -> (r: Result<String, TimeError>)
    ensures
        match zone_text(stamp@, offset@) {
            Err(e) => r == Err::<String, TimeError>(e),
            Ok(t) => r matches Ok(s) && s@ == t,
        },
{
    match read_datetime(stamp) {
        Err(_) => Err(TimeError::MalformedTimestamp),
        Ok(t) => display_in_zone(&t, offset),
    }
}

/// Whether `s` matches `^\d{4}-\d{2}-\d{2}$`.
pub uninterp spec fn date_pattern(s: Seq<char>) -> bool;

pub open spec fn ascii_digit(c: char) -> bool {
    '0' <= c <= '9'
}

/// Ten characters: four ASCII digits, '-', two digits, '-', two digits.
pub open spec fn ascii_date_shape(s: Seq<char>) -> bool {
    &&& s.len() == 10
    &&& s[4] == '-'
    &&& s[7] == '-'
    &&& forall|i: int| 0 <= i < 10 && i != 4 && i != 7 ==> ascii_digit(#[trigger] s[i])
}

/// Relies on `regex::Regex::is_match` with `^\d{4}-\d{2}-\d{2}$`: the answer
/// depends on the text alone; each `\d` matches one character (a Unicode
/// decimal digit, the ASCII ones among them), and `^`/`$` anchor the whole
/// text, so a match is ten characters with '-' at 4 and 7.
#[verifier::external_body]
fn matches_date_pattern(s: &str) -> (r: bool)
    ensures
        r == date_pattern(s@),
        r ==> s@.len() == 10 && s@[4] == '-' && s@[7] == '-',
        ascii_date_shape(s@) ==> r,
{
    regex::Regex::new(r"^\d{4}-\d{2}-\d{2}$").unwrap().is_match(s)
}

/// Whether `date` has the `YYYY-MM-DD` shape (digits are not range-checked).
pub fn is_valid_date(date: &str) -> (r: bool)
    ensures
        r == date_pattern(date@),
        r ==> date@.len() == 10 && date@[4] == '-' && date@[7] == '-',
        ascii_date_shape(date@) ==> r,
{
    matches_date_pattern(date)
}

/// The day that `list` shows: the argument when it is non-empty and has the
/// date shape, else `today`.
pub fn list_date(today: &str, arg: &str) -> (r: String)
    ensures
        r@ == (if arg@.len() > 0 && date_pattern(arg@) {
            arg@
        } else {
            today@
        }),
{
    if arg.unicode_len() > 0 && is_valid_date(arg) {
        String::from_str(arg)
    } else {
        String::from_str(today)
    }
}

} // verus!
