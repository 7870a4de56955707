//! The value of a data element, and its coercion to one text.

use vstd::prelude::*;
use vstd::string::*;
use crate::temporal::{
    date_text,
    date_time_text,
    time_text,
    PartialDate,
    PartialDateTime,
    PartialTime,
};
use crate::text::{comma_joined, decimal_text, join_rendered, renderings, Rendered};

verus! {

/// The shapes of value that have no textual form here.
#[derive(Clone, Copy, Debug, PartialEq, Eq)]
pub enum OtherShape {
    /// A primitive value with nothing in it.
    Empty,
    /// A list of element tags.
    Tags,
    /// Raw bytes, such as pixel data.
    Bytes,
    /// Numbers of a width other than signed 32 bits and unsigned 16 bits.
    Number,
    /// A sequence of nested items.
    Sequence,
    /// An encapsulated pixel sequence.
    PixelSequence,
}

/// A decoded element value.
#[derive(Clone, Debug)]
pub enum ElementValue {
    /// One string.
    Str(String),
    /// Several strings.
    Strs(Vec<String>),
    /// One or more dates.
    Date(Vec<PartialDate>),
    /// One or more times of day.
    Time(Vec<PartialTime>),
    /// One or more date-times.
    DateTime(Vec<PartialDateTime>),
    /// One or more signed 32-bit integers.
    I32(Vec<i32>),
    /// One or more unsigned 16-bit integers.
    U16(Vec<u16>),
    /// Any shape that is not turned into text.
    Other(OtherShape),
}

/// What an element value is, with strings as sequences of characters.
pub enum ValueModel {
    Str(Seq<char>),
    Strs(Seq<Seq<char>>),
    Date(Seq<PartialDate>),
    Time(Seq<PartialTime>),
    DateTime(Seq<PartialDateTime>),
    I32(Seq<i32>),
    U16(Seq<u16>),
    Other(OtherShape),
}

impl View for ElementValue {
    type V = ValueModel;

    open spec fn view(&self) -> ValueModel {
        match *self {
            ElementValue::Str(s) => ValueModel::Str(s@),
            ElementValue::Strs(v) => ValueModel::Strs(renderings(v@)),
            ElementValue::Date(v) => ValueModel::Date(v@),
            ElementValue::Time(v) => ValueModel::Time(v@),
            ElementValue::DateTime(v) => ValueModel::DateTime(v@),
            ElementValue::I32(v) => ValueModel::I32(v@),
            ElementValue::U16(v) => ValueModel::U16(v@),
            ElementValue::Other(shape) => ValueModel::Other(shape),
        }
    }
}

/// The one text that stands for a value, or `None` for a shape that has none.
///
/// A single string is itself. Several strings, dates, times, date-times or
/// numbers are rendered one by one and joined with commas; none at all gives
/// the empty text. Every other shape gives `None`.
pub open spec fn coerced_text(value: ValueModel) -> Option<Seq<char>> {
    match value {
        ValueModel::Str(s) => Some(s),
        ValueModel::Strs(parts) => Some(comma_joined(parts)),
        ValueModel::Date(dates) => Some(comma_joined(renderings(dates))),
        ValueModel::Time(times) => Some(comma_joined(renderings(times))),
        ValueModel::DateTime(values) => Some(comma_joined(renderings(values))),
        ValueModel::I32(numbers) => Some(comma_joined(renderings(numbers))),
        ValueModel::U16(numbers) => Some(comma_joined(renderings(numbers))),
        ValueModel::Other(_) => None,
    }
}

/// The text of an optional string.
pub open spec fn optional_text(text: Option<String>) -> Option<Seq<char>> {
    match text {
        Some(s) => Some(s@),
        None => None,
    }
}

/// Coerces an element value to one text, or to `None` where its shape has no
/// textual form. Never fails.
pub fn get_value(value: &ElementValue) -> (text: Option<String>)
    ensures
        optional_text(text) == coerced_text(value@),
{
    match value {
        ElementValue::Str(s) => Some(s.clone()),
        ElementValue::Strs(parts) => Some(join_rendered(parts)),
        ElementValue::Date(dates) => Some(join_rendered(dates)),
        ElementValue::Time(times) => Some(join_rendered(times)),
        ElementValue::DateTime(values) => Some(join_rendered(values)),
        ElementValue::I32(numbers) => Some(join_rendered(numbers)),
        ElementValue::U16(numbers) => Some(join_rendered(numbers)),
        ElementValue::Other(_) => None,
    }
}

/// Three parts joined are the first, a comma, the second, a comma, the third.
pub proof fn lemma_three_joined(a: Seq<char>, b: Seq<char>, c: Seq<char>)
    ensures
        comma_joined(seq![a, b, c]) == a + seq![','] + b + seq![','] + c,
{
    let all = seq![a, b, c];
    let two = seq![a, b];
    assert(all.drop_last() =~= two);
    assert(two.drop_last() =~= seq![a]);
    assert(comma_joined(seq![a]) == a);
    assert(comma_joined(two) == a + seq![','] + b);
}

/// Three values rendered and joined are the first's text, a comma, the
/// second's, a comma, the third's.
pub proof fn lemma_three_rendered<T: Rendered>(a: T, b: T, c: T)
    ensures
        comma_joined(renderings(seq![a, b, c])) == a.rendering() + seq![','] + b.rendering()
            + seq![','] + c.rendering(),
{
    lemma_three_joined(a.rendering(), b.rendering(), c.rendering());
    assert(renderings(seq![a, b, c]) =~= seq![a.rendering(), b.rendering(), c.rendering()]);
}

/// A field of three signed numbers is their decimal forms with commas between.
pub proof fn lemma_three_signed(a: i32, b: i32, c: i32)
    ensures
        coerced_text(ValueModel::I32(seq![a, b, c])) == Some(
            decimal_text(a as int) + seq![','] + decimal_text(b as int) + seq![','] + decimal_text(
                c as int,
            ),
        ),
{
    lemma_three_rendered(a, b, c);
}

/// A field of three unsigned numbers is their decimal forms with commas
/// between.
pub proof fn lemma_three_unsigned(a: u16, b: u16, c: u16)
    ensures
        coerced_text(ValueModel::U16(seq![a, b, c])) == Some(
            decimal_text(a as int) + seq![','] + decimal_text(b as int) + seq![','] + decimal_text(
                c as int,
            ),
        ),
{
    lemma_three_rendered(a, b, c);
}

/// A field of three dates is their textual forms with commas between.
pub proof fn lemma_three_dates(a: PartialDate, b: PartialDate, c: PartialDate)
    ensures
        coerced_text(ValueModel::Date(seq![a, b, c])) == Some(
            date_text(a) + seq![','] + date_text(b) + seq![','] + date_text(c),
        ),
{
    lemma_three_rendered(a, b, c);
}

/// A field of three times is their textual forms with commas between.
pub proof fn lemma_three_times(a: PartialTime, b: PartialTime, c: PartialTime)
    ensures
        coerced_text(ValueModel::Time(seq![a, b, c])) == Some(
            time_text(a) + seq![','] + time_text(b) + seq![','] + time_text(c),
        ),
{
    lemma_three_rendered(a, b, c);
}

/// A field of three date-times is their textual forms with commas between.
pub proof fn lemma_three_date_times(a: PartialDateTime, b: PartialDateTime, c: PartialDateTime)
    ensures
        coerced_text(ValueModel::DateTime(seq![a, b, c])) == Some(
            date_time_text(a) + seq![','] + date_time_text(b) + seq![','] + date_time_text(c),
        ),
{
    lemma_three_rendered(a, b, c);
}

} // verus!
