//! Calendar timestamps as read from embedded metadata, the sentinel values
//! some cameras write when their clock was never set, and their text form.
use vstd::prelude::*;
use chrono::{Datelike, Timelike};
use crate::text::{decimal, zero_pad, push_padded};

verus! {

/// A timestamp without time zone, to the second.
#[derive(Clone, Copy, Debug, PartialEq, Eq, Structural)]
pub struct DateTime {
    pub year: i32,
    pub month: u32,
    pub day: u32,
    pub hour: u32,
    pub minute: u32,
    pub second: u32,
}

/// A calendar day.
#[derive(Clone, Copy, Debug, PartialEq, Eq, Structural)]
pub struct Date {
    pub year: i32,
    pub month: u32,
    pub day: u32,
}

/// Month, day and time of day lie in their calendar ranges.
pub open spec fn fields_in_range(d: DateTime) -> bool {
    1 <= d.month <= 12 && 1 <= d.day <= 31 && d.hour < 24 && d.minute < 60 && d.second < 60
}

/// What a text in the EXIF timestamp layout `YYYY:MM:DD HH:MM:SS` denotes.
pub uninterp spec fn exif_datetime_of(s: Seq<char>) -> Option<DateTime>;

/// What a text in the EXIF date layout `YYYY:MM:DD` denotes.
pub uninterp spec fn exif_date_of(s: Seq<char>) -> Option<Date>;

/// Relies on chrono::NaiveDateTime::parse_from_str with the layout
/// "%Y:%m:%d %T"; the fields come from chrono's Datelike and Timelike
/// accessors, whose documented ranges are stated.
#[verifier::external_body]
fn parse_exif_datetime(s: &str) -> (r: Option<DateTime>)
    ensures
        r == exif_datetime_of(s@),
        r matches Some(d) ==> fields_in_range(d),
{
    chrono::NaiveDateTime::parse_from_str(s, "%Y:%m:%d %T").ok().map(|d| DateTime {
        year: d.year(),
        month: d.month(),
        day: d.day(),
        hour: d.hour(),
        minute: d.minute(),
        second: d.second(),
    })
}

/// Relies on chrono::NaiveDate::parse_from_str with the layout "%Y:%m:%d".
#[verifier::external_body]
fn parse_exif_date(s: &str) -> (r: Option<Date>)
    ensures
        r == exif_date_of(s@),
        r matches Some(d) ==> 1 <= d.month <= 12 && 1 <= d.day <= 31,
{
    chrono::NaiveDate::parse_from_str(s, "%Y:%m:%d").ok().map(|d| Date {
        year: d.year(),
        month: d.month(),
        day: d.day(),
    })
}

/// Reads a timestamp written in the EXIF layout.
pub fn read_exif_datetime(s: &str) -> (r: Option<DateTime>)
    ensures
        r == exif_datetime_of(s@),
        r matches Some(d) ==> fields_in_range(d),
{
    parse_exif_datetime(s)
}

/// Reads a date written in the EXIF layout.
pub fn read_exif_date(s: &str) -> (r: Option<Date>)
    ensures
        r == exif_date_of(s@),
{
    parse_exif_date(s)
}

/// 1970-01-01 00:00:00, written by cameras whose clock counts from zero.
pub open spec fn epoch_zero() -> DateTime {
    DateTime { year: 1970, month: 1, day: 1, hour: 0, minute: 0, second: 0 }
}

/// 2000-01-01 00:00:00, written by cameras whose clock was never set.
pub open spec fn y2k_zero() -> DateTime {
    DateTime { year: 2000, month: 1, day: 1, hour: 0, minute: 0, second: 0 }
}

/// A default timestamp that carries no information about the capture.
pub open spec fn is_sentinel(d: DateTime) -> bool {
    d == epoch_zero() || d == y2k_zero()
}

/// Whether `d` is one of the two known default timestamps.
pub fn is_sentinel_date(d: &DateTime) -> (r: bool)
    ensures
        r == is_sentinel(*d),
{
    d.month == 1 && d.day == 1 && d.hour == 0 && d.minute == 0 && d.second == 0
        && (d.year == 1970 || d.year == 2000)
}

/// A date with a time of day, when the time lies in range.
pub open spec fn at_time(d: Date, h: u32, m: u32, s: u32) -> Option<DateTime> {
    if h < 24 && m < 60 && s < 60 {
        Some(DateTime { year: d.year, month: d.month, day: d.day, hour: h, minute: m, second: s })
    } else {
        None
    }
}

/// Combines a date and a time of day, or `None` when the time is out of range.
pub fn combine_date_time(d: Date, h: u32, m: u32, s: u32) -> (r: Option<DateTime>)
    ensures
        r == at_time(d, h, m, s),
{
    if h < 24 && m < 60 && s < 60 {
        Some(DateTime { year: d.year, month: d.month, day: d.day, hour: h, minute: m, second: s })
    } else {
        None
    }
}

/// The year as ISO 8601 writes it: four digits within 0..=9999, otherwise
/// an explicit sign and at least four digits.
pub open spec fn year_text(y: int) -> Seq<char> {
    if 0 <= y <= 9999 {
        zero_pad(decimal(y as nat), 4)
    } else if y < 0 {
        seq!['-'] + zero_pad(decimal((-y) as nat), 4)
    } else {
        seq!['+'] + zero_pad(decimal(y as nat), 4)
    }
}

/// `YYYY-MM-DD`.
pub open spec fn day_text(d: DateTime) -> Seq<char> {
    year_text(d.year as int) + seq!['-'] + zero_pad(decimal(d.month as nat), 2) + seq!['-']
        + zero_pad(decimal(d.day as nat), 2)
}

/// `HH:MM:SS`.
pub open spec fn time_text(d: DateTime) -> Seq<char> {
    zero_pad(decimal(d.hour as nat), 2) + seq![':'] + zero_pad(decimal(d.minute as nat), 2)
        + seq![':'] + zero_pad(decimal(d.second as nat), 2)
}

/// `YYYY-MM-DD HH:MM:SS`.
pub open spec fn datetime_text(d: DateTime) -> Seq<char> {
    day_text(d) + seq![' '] + time_text(d)
}

/// Appends `YYYY-MM-DD`.
pub fn push_day_text(out: &mut String, d: &DateTime)
    ensures
        final(out)@ == old(out)@ + day_text(*d),
{
    proof {
        reveal_strlit("-");
        reveal_strlit("+");
    }
    let ghost start = out@;
    if 0 <= d.year && d.year <= 9999 {
        push_padded(out, d.year as u64, 4);
    } else if d.year < 0 {
        out.append("-");
        let magnitude: u64 = (0i64 - d.year as i64) as u64;
        push_padded(out, magnitude, 4);
    } else {
        out.append("+");
        push_padded(out, d.year as u64, 4);
    }
    assert(out@ =~= start + year_text(d.year as int));
    out.append("-");
    push_padded(out, d.month as u64, 2);
    out.append("-");
    push_padded(out, d.day as u64, 2);
    assert(out@ =~= start + day_text(*d));
}

/// Appends `HH:MM:SS`.
pub fn push_time_text(out: &mut String, d: &DateTime)
    ensures
        final(out)@ == old(out)@ + time_text(*d),
{
    proof {
        reveal_strlit(":");
    }
    let ghost start = out@;
    push_padded(out, d.hour as u64, 2);
    out.append(":");
    push_padded(out, d.minute as u64, 2);
    out.append(":");
    push_padded(out, d.second as u64, 2);
    assert(out@ =~= start + time_text(*d));
}

/// Appends `YYYY-MM-DD HH:MM:SS`.
pub fn push_datetime_text(out: &mut String, d: &DateTime)
    ensures
        final(out)@ == old(out)@ + datetime_text(*d),
{
    proof {
        reveal_strlit(" ");
    }
    let ghost start = out@;
    push_day_text(out, d);
    out.append(" ");
    push_time_text(out, d);
    assert(out@ =~= start + datetime_text(*d));
}

} // verus!
