//! Encoding a projected record as the text of a JSON object, and reading such
//! a text back.

use vstd::prelude::*;
use std::collections::BTreeMap;
use std::collections::HashMap;
use crate::boundary::Failure;
use crate::record::ProjectedRecord;
use crate::value::optional_text;

verus! {

/// `serde_json::Error`, the encoder's own error. It is carried from the
/// encoder to `encoded_or_failure` and nothing is claimed of what it holds.
#[verifier::external_type_specification]
#[verifier::external_body]
pub struct ExJsonError(serde_json::Error);

/// The compact JSON text of the object with these members: each key with the
/// string recorded under it, or with `null` where nothing textual is recorded.
/// The members are written in the order of their keys, so the text depends on
/// the mapping alone.
pub uninterp spec fn json_object_text(entries: Map<Seq<char>, Option<Seq<char>>>) -> Seq<char>;

/// Turns the record into a JSON value with `serde_json::to_value`, and that
/// value into text with its `Display` impl. The encoder gets the members as a
/// map ordered by key.
///
/// Trusted: that the encoder succeeds, and that the text is a function of the
/// mapping that the record stands for, named `json_object_text`. The encoder
/// has no way to fail on string keys with values that are strings or absent.
#[verifier::external_body]
fn encode_entries(record: &ProjectedRecord) -> (encoded: Result<String, serde_json::Error>)
    ensures
        encoded is Ok,
        encoded matches Ok(text) ==> text@ == json_object_text(record@),
{
    let object: BTreeMap<&str, Option<&str>> = record.table.entries.iter().map(
        |entry| (entry.key.as_str(), entry.value.as_deref()),
    ).collect();
    serde_json::to_value(&object).map(|value| value.to_string())
}

/// What the JSON reader makes of a text: the members of the object, if the
/// text is a JSON object whose values are all strings or `null`, and `None`
/// for every other text. It depends on the text alone.
pub uninterp spec fn json_object_entries(text: Seq<char>) -> Option<
    Map<Seq<char>, Option<Seq<char>>>,
>;

/// The mapping that a list of members stands for: each key with its value,
/// a later member replacing an earlier one of the same key.
pub open spec fn members_map(members: Seq<(String, Option<String>)>) -> Map<
    Seq<char>,
    Option<Seq<char>>,
>
    decreases members.len(),
{
    if members.len() == 0 {
        Map::empty()
    } else {
        members_map(members.drop_last()).insert(
            members.last().0@,
            optional_text(members.last().1),
        )
    }
}

/// Reads a text with `serde_json::from_str` as a map from strings to optional
/// strings, and lists the map's members.
///
/// Trusted: that whether the reader accepts the text, and which members it
/// finds, is a function of the text alone, named `json_object_entries`. The
/// members come out of a map, so no key is listed twice, and the order of the
/// list does not matter to the mapping it stands for.
#[verifier::external_body]
fn read_members(text: &str) -> (members: Option<Vec<(String, Option<String>)>>)
    ensures
        match members {
            Some(list) => json_object_entries(text@) == Some(members_map(list@)),
            None => json_object_entries(text@) is None,
        },
{
    serde_json::from_str::<HashMap<String, Option<String>>>(text).ok().map(
        |object| object.into_iter().collect(),
    )
}

/// What the caller gets for an outcome of the encoder: the text as it is, or
/// `Failure::Serialization` in place of the encoder's own error.
pub fn encoded_or_failure(encoded: Result<String, serde_json::Error>) -> (out: Result<
    String,
    Failure,
>)
    ensures
        match encoded {
            Ok(text) => out == Ok::<String, Failure>(text),
            Err(_) => out == Err::<String, Failure>(Failure::Serialization),
        },
{
    match encoded {
        Ok(text) => Ok(text),
        Err(_) => Err(Failure::Serialization),
    }
}

/// The record that a list of members stands for.
pub fn record_of(members: &Vec<(String, Option<String>)>) -> (record: ProjectedRecord)
    ensures
        record@ == members_map(members@),
{
    let mut record = ProjectedRecord::new();
    let mut index: usize = 0;
    while index < members.len()
        invariant
            index <= members.len(),
            record@ == members_map(members@.take(index as int)),
        decreases members.len() - index,
    {
        proof {
            let longer = members@.take(index + 1);
            assert(longer.drop_last() =~= members@.take(index as int));
            assert(longer.last() == members@[index as int]);
        }
        let key = members[index].0.clone();
        let value = match &members[index].1 {
            Some(text) => Some(text.clone()),
            None => None,
        };
        record.insert(key, value);
        index = index + 1;
    }
    assert(members@.take(index as int) =~= members@);
    record
}

/// Reads the text of a JSON object whose values are strings or `null` back
/// into a record. Any other text gives `None`.
pub fn decode(text: &str) -> (record: Option<ProjectedRecord>)
    ensures
        match record {
            Some(read) => json_object_entries(text@) == Some(read@),
            None => json_object_entries(text@) is None,
        },
{
    match read_members(text) {
        Some(members) => Some(record_of(&members)),
        None => None,
    }
}

/// Hands a text out only if what was read back from it is the record that it
/// was made from.
pub fn confirmed(
    record: &ProjectedRecord,
    text: String,
    read_back: Option<ProjectedRecord>,
) -> (out: Result<String, Failure>)
    ensures
        out == (if read_back matches Some(read) && read@ == record@ {
            Ok::<String, Failure>(text)
        } else {
            Err::<String, Failure>(Failure::Serialization)
        }),
{
    match read_back {
        Some(read) => {
            if read.same_as(record) {
                Ok(text)
            } else {
                Err(Failure::Serialization)
            }
        },
        None => Err(Failure::Serialization),
    }
}

/// Encodes a record as JSON text.
///
/// The text is read back before it is handed out. So a text that comes back
/// is the JSON object of the record's mapping, and is known to parse as an
/// object whose values are strings or `null` and whose members are exactly
/// those of the record: never a part of them. A text is owed whenever the
/// record's JSON object reads back as the record; only where it does not is
/// the outcome the failure `Serialization`, and then no text is returned.
pub fn encode(record: &ProjectedRecord) -> (out: Result<String, Failure>)
    ensures
        out matches Ok(text) ==> text@ == json_object_text(record@),
        out matches Ok(text) ==> json_object_entries(text@) == Some(record@),
        out matches Err(failure) ==> failure == Failure::Serialization,
        out is Err ==> json_object_entries(json_object_text(record@)) != Some(record@),
{
    match encoded_or_failure(encode_entries(record)) {
        Ok(text) => {
            let read_back = decode(text.as_str());
            confirmed(record, text, read_back)
        },
        Err(failure) => Err(failure),
    }
}

} // verus!
