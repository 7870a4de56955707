//! Dates, times of day and date-times of partial precision, as a DICOM decoder
//! hands them out, and their textual forms.
//!
//! The forms are `YYYY-MM-DD`, `HH:MM:SS.F` and the two joined by a space, with
//! the offset from UTC last. A component that the value does not hold is left
//! out together with its separator.
//!
//! On every valid value (`valid_date`, `valid_time`, `valid_date_time`) the
//! form is the one that `dicom_core` prints for its `DicomDate`, `DicomTime`
//! and `DicomDateTime`. A decoder hands out valid values only. A value
//! outside the ranges is rendered by the same rules, and nothing is claimed of
//! what any other library would print for it.

use vstd::prelude::*;
use vstd::string::*;
use crate::text::{lemma_zero_padded_width, pow10, push_zero_padded, zero_padded, Rendered};

verus! {

/// A calendar date of which the month, or the day, may be unknown.
#[derive(Clone, Copy, Debug, PartialEq, Eq)]
pub enum PartialDate {
    /// A year alone.
    Year(u16),
    /// A year and a month.
    Month(u16, u8),
    /// A year, a month and a day.
    Day(u16, u8, u8),
}

/// A time of day of which the trailing components may be unknown.
#[derive(Clone, Copy, Debug, PartialEq, Eq)]
pub enum PartialTime {
    /// An hour alone.
    Hour(u8),
    /// An hour and a minute.
    Minute(u8, u8),
    /// An hour, a minute and a second.
    Second(u8, u8, u8),
    /// An hour, a minute, a second, and a fraction of a second: the fraction's
    /// value, then the number of decimal digits it was written with (1 to 6;
    /// the value is below ten to that power).
    Fraction(u8, u8, u8, u32, u8),
}

/// A date, possibly a time, and the offset of local time from UTC.
#[derive(Clone, Copy, Debug, PartialEq, Eq)]
pub struct PartialDateTime {
    /// The date.
    pub date: PartialDate,
    /// The time of day, where one is known.
    pub time: Option<PartialTime>,
    /// Seconds to add to UTC to get local time; negative west of Greenwich.
    pub offset_seconds: i32,
}

/// The dates that a decoder hands out: a year of at most four digits, a month
/// of the year, a day of at most 31.
pub open spec fn valid_date(date: PartialDate) -> bool {
    match date {
        PartialDate::Year(y) => y <= 9999,
        PartialDate::Month(y, m) => y <= 9999 && 1 <= m <= 12,
        PartialDate::Day(y, m, d) => y <= 9999 && 1 <= m <= 12 && 1 <= d <= 31,
    }
}

/// The fractions of a second that a decoder hands out: one to six digits, and
/// a value that fits them.
pub open spec fn valid_fraction(value: u32, digits: u8) -> bool {
    1 <= digits <= 6 && value < pow10(digits as nat)
}

/// The times of day that a decoder hands out: an hour of the day, a minute of
/// the hour, a second of the minute or a leap second, and a valid fraction.
pub open spec fn valid_time(time: PartialTime) -> bool {
    match time {
        PartialTime::Hour(h) => h <= 23,
        PartialTime::Minute(h, m) => h <= 23 && m <= 59,
        PartialTime::Second(h, m, s) => h <= 23 && m <= 59 && s <= 60,
        PartialTime::Fraction(h, m, s, f, p) => h <= 23 && m <= 59 && s <= 60 && valid_fraction(
            f,
            p,
        ),
    }
}

/// The offsets from UTC that a decoder hands out: less than a day either way.
pub open spec fn valid_offset(seconds: int) -> bool {
    -86_400 < seconds < 86_400
}

/// The date-times that a decoder hands out: a valid date and offset, and a
/// valid time only beside a date that is known to the day.
pub open spec fn valid_date_time(value: PartialDateTime) -> bool {
    &&& valid_date(value.date)
    &&& valid_offset(value.offset_seconds as int)
    &&& value.time matches Some(time) ==> valid_time(time) && value.date is Day
}

/// The textual form of a date: the year in four digits, then the month and the
/// day in two digits each, as far as they are known, with hyphens between.
pub open spec fn date_text(date: PartialDate) -> Seq<char> {
    match date {
        PartialDate::Year(y) => zero_padded(y as nat, 4),
        PartialDate::Month(y, m) => zero_padded(y as nat, 4) + seq!['-'] + zero_padded(m as nat, 2),
        PartialDate::Day(y, m, d) => zero_padded(y as nat, 4) + seq!['-'] + zero_padded(
            m as nat,
            2,
        ) + seq!['-'] + zero_padded(d as nat, 2),
    }
}

/// The digits after the decimal point of a second: a lone `0` for no fraction
/// at all, else the value in exactly as many digits as it was written with.
pub open spec fn fraction_text(value: u32, digits: u8) -> Seq<char> {
    if value == 0 {
        seq!['0']
    } else {
        zero_padded(value as nat, digits as nat)
    }
}

/// The textual form of a time of day: hour, minute and second in two digits
/// each, as far as they are known, with colons between, and the fraction after
/// a point.
pub open spec fn time_text(time: PartialTime) -> Seq<char> {
    match time {
        PartialTime::Hour(h) => zero_padded(h as nat, 2),
        PartialTime::Minute(h, m) => zero_padded(h as nat, 2) + seq![':'] + zero_padded(
            m as nat,
            2,
        ),
        PartialTime::Second(h, m, s) => zero_padded(h as nat, 2) + seq![':'] + zero_padded(
            m as nat,
            2,
        ) + seq![':'] + zero_padded(s as nat, 2),
        PartialTime::Fraction(h, m, s, f, p) => zero_padded(h as nat, 2) + seq![':']
            + zero_padded(m as nat, 2) + seq![':'] + zero_padded(s as nat, 2) + seq!['.']
            + fraction_text(f, p),
    }
}

/// The size of an offset, whatever its direction.
pub open spec fn magnitude(seconds: int) -> nat {
    if seconds < 0 {
        (-seconds) as nat
    } else {
        seconds as nat
    }
}

/// The textual form of an offset from UTC: a sign, then hours and minutes in
/// two digits each with a colon between; seconds follow only where they are
/// not zero.
pub open spec fn offset_text(seconds: int) -> Seq<char> {
    let size = magnitude(seconds);
    let sign = if seconds < 0 {
        '-'
    } else {
        '+'
    };
    let main = seq![sign] + zero_padded(size / 3600, 2) + seq![':'] + zero_padded(
        (size / 60) % 60,
        2,
    );
    if size % 60 == 0 {
        main
    } else {
        main + seq![':'] + zero_padded(size % 60, 2)
    }
}

/// The textual form of a date-time: the date, the time where there is one, and
/// the offset, with one space between neighbours.
pub open spec fn date_time_text(value: PartialDateTime) -> Seq<char> {
    match value.time {
        None => date_text(value.date) + seq![' '] + offset_text(value.offset_seconds as int),
        Some(time) => date_text(value.date) + seq![' '] + time_text(time) + seq![' ']
            + offset_text(value.offset_seconds as int),
    }
}

fn push_mark(out: &mut String, mark: char)
    requires
        mark == '-' || mark == ':' || mark == '.' || mark == ' ' || mark == '+',
    ensures
        final(out)@ == old(out)@ + seq![mark],
{
    proof {
        reveal_strlit("-");
        reveal_strlit(":");
        reveal_strlit(".");
        reveal_strlit(" ");
        reveal_strlit("+");
    }
    if mark == '-' {
        out.append("-");
    } else if mark == ':' {
        out.append(":");
    } else if mark == '.' {
        out.append(".");
    } else if mark == ' ' {
        out.append(" ");
    } else {
        out.append("+");
    }
    assert(out@ =~= old(out)@ + seq![mark]);
}

/// Appends the textual form of a date.
pub fn push_date(out: &mut String, date: &PartialDate)
    ensures
        final(out)@ == old(out)@ + date_text(*date),
{
    match *date {
        PartialDate::Year(y) => {
            push_zero_padded(out, y as u32, 4);
        },
        PartialDate::Month(y, m) => {
            push_zero_padded(out, y as u32, 4);
            push_mark(out, '-');
            push_zero_padded(out, m as u32, 2);
        },
        PartialDate::Day(y, m, d) => {
            push_zero_padded(out, y as u32, 4);
            push_mark(out, '-');
            push_zero_padded(out, m as u32, 2);
            push_mark(out, '-');
            push_zero_padded(out, d as u32, 2);
        },
    }
    assert(out@ =~= old(out)@ + date_text(*date));
}

fn push_fraction(out: &mut String, value: u32, digits: u8)
    ensures
        final(out)@ == old(out)@ + fraction_text(value, digits),
{
    if value == 0 {
        push_zero_padded(out, 0, 1);
        assert(zero_padded(0, 1) =~= seq!['0']);
    } else {
        push_zero_padded(out, value, digits as usize);
    }
}

/// Appends the textual form of a time of day.
pub fn push_time(out: &mut String, time: &PartialTime)
    ensures
        final(out)@ == old(out)@ + time_text(*time),
{
    match *time {
        PartialTime::Hour(h) => {
            push_zero_padded(out, h as u32, 2);
        },
        PartialTime::Minute(h, m) => {
            push_zero_padded(out, h as u32, 2);
            push_mark(out, ':');
            push_zero_padded(out, m as u32, 2);
        },
        PartialTime::Second(h, m, s) => {
            push_zero_padded(out, h as u32, 2);
            push_mark(out, ':');
            push_zero_padded(out, m as u32, 2);
            push_mark(out, ':');
            push_zero_padded(out, s as u32, 2);
        },
        PartialTime::Fraction(h, m, s, f, p) => {
            push_zero_padded(out, h as u32, 2);
            push_mark(out, ':');
            push_zero_padded(out, m as u32, 2);
            push_mark(out, ':');
            push_zero_padded(out, s as u32, 2);
            push_mark(out, '.');
            push_fraction(out, f, p);
        },
    }
    assert(out@ =~= old(out)@ + time_text(*time));
}

/// Appends the textual form of an offset from UTC.
pub fn push_offset(out: &mut String, seconds: i32)
    ensures
        final(out)@ == old(out)@ + offset_text(seconds as int),
{
    let size: u32 = if seconds < 0 {
        (0 - (seconds as i64)) as u32
    } else {
        seconds as u32
    };
    assert(size == magnitude(seconds as int));
    if seconds < 0 {
        push_mark(out, '-');
    } else {
        push_mark(out, '+');
    }
    push_zero_padded(out, size / 3600, 2);
    push_mark(out, ':');
    push_zero_padded(out, (size / 60) % 60, 2);
    if size % 60 != 0 {
        push_mark(out, ':');
        push_zero_padded(out, size % 60, 2);
    }
    assert(out@ =~= old(out)@ + offset_text(seconds as int));
}

/// Appends the textual form of a date-time.
pub fn push_date_time(out: &mut String, value: &PartialDateTime)
    ensures
        final(out)@ == old(out)@ + date_time_text(*value),
{
    push_date(out, &value.date);
    push_mark(out, ' ');
    match value.time {
        None => {},
        Some(time) => {
            push_time(out, &time);
            push_mark(out, ' ');
        },
    }
    push_offset(out, value.offset_seconds);
    assert(out@ =~= old(out)@ + date_time_text(*value));
}

impl Rendered for PartialDate {
    open spec fn rendering(&self) -> Seq<char> {
        date_text(*self)
    }

    fn render(&self, out: &mut String) {
        push_date(out, self);
    }
}

impl Rendered for PartialTime {
    open spec fn rendering(&self) -> Seq<char> {
        time_text(*self)
    }

    fn render(&self, out: &mut String) {
        push_time(out, self);
    }
}

impl Rendered for PartialDateTime {
    open spec fn rendering(&self) -> Seq<char> {
        date_time_text(*self)
    }

    fn render(&self, out: &mut String) {
        push_date_time(out, self);
    }
}

impl PartialDate {
    /// Whether the date is one that a decoder hands out.
    pub fn is_valid(&self) -> (valid: bool)
        ensures
            valid == valid_date(*self),
    {
        match *self {
            PartialDate::Year(y) => y <= 9999,
            PartialDate::Month(y, m) => y <= 9999 && 1 <= m && m <= 12,
            PartialDate::Day(y, m, d) => y <= 9999 && 1 <= m && m <= 12 && 1 <= d && d <= 31,
        }
    }
}

/// Whether a fraction of a second is one that a decoder hands out.
pub fn is_valid_fraction(value: u32, digits: u8) -> (valid: bool)
    ensures
        valid == valid_fraction(value, digits),
{
    proof {
        reveal_with_fuel(pow10, 7);
    }
    if digits == 1 {
        value < 10
    } else if digits == 2 {
        value < 100
    } else if digits == 3 {
        value < 1_000
    } else if digits == 4 {
        value < 10_000
    } else if digits == 5 {
        value < 100_000
    } else if digits == 6 {
        value < 1_000_000
    } else {
        false
    }
}

impl PartialTime {
    /// Whether the time is one that a decoder hands out.
    pub fn is_valid(&self) -> (valid: bool)
        ensures
            valid == valid_time(*self),
    {
        match *self {
            PartialTime::Hour(h) => h <= 23,
            PartialTime::Minute(h, m) => h <= 23 && m <= 59,
            PartialTime::Second(h, m, s) => h <= 23 && m <= 59 && s <= 60,
            PartialTime::Fraction(h, m, s, f, p) => h <= 23 && m <= 59 && s <= 60
                && is_valid_fraction(f, p),
        }
    }
}

impl PartialDateTime {
    /// Whether the date-time is one that a decoder hands out.
    pub fn is_valid(&self) -> (valid: bool)
        ensures
            valid == valid_date_time(*self),
    {
        let offset_fits = -86_400 < self.offset_seconds && self.offset_seconds < 86_400;
        let time_fits = match self.time {
            None => true,
            Some(time) => time.is_valid() && match self.date {
                PartialDate::Day(_, _, _) => true,
                _ => false,
            },
        };
        self.date.is_valid() && offset_fits && time_fits
    }
}

/// A valid date is written in exactly four, seven or ten characters, by what
/// is known of it: no component runs over its width.
pub proof fn lemma_valid_date_width(date: PartialDate)
    requires
        valid_date(date),
    ensures
        date_text(date).len() == (match date {
            PartialDate::Year(_) => 4nat,
            PartialDate::Month(_, _) => 7nat,
            PartialDate::Day(_, _, _) => 10nat,
        }),
{
    reveal_with_fuel(pow10, 5);
    match date {
        PartialDate::Year(y) => {
            lemma_zero_padded_width(y as nat, 4);
        },
        PartialDate::Month(y, m) => {
            lemma_zero_padded_width(y as nat, 4);
            lemma_zero_padded_width(m as nat, 2);
        },
        PartialDate::Day(y, m, d) => {
            lemma_zero_padded_width(y as nat, 4);
            lemma_zero_padded_width(m as nat, 2);
            lemma_zero_padded_width(d as nat, 2);
        },
    }
}

/// A valid fraction that is not zero is written in exactly as many digits as
/// it was read with; zero is written as a single `0`.
pub proof fn lemma_valid_fraction_width(value: u32, digits: u8)
    requires
        valid_fraction(value, digits),
    ensures
        fraction_text(value, digits).len() == (if value == 0 {
            1nat
        } else {
            digits as nat
        }),
{
    if value != 0 {
        lemma_zero_padded_width(value as nat, digits as nat);
    }
}

} // verus!
