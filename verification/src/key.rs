//! The key under which an element is recorded: its symbolic name from the
//! standard data dictionary, or its tag in canonical numeric form.

use vstd::prelude::*;
use vstd::string::*;
use dicom_core::DataDictionary;
use dicom_dictionary_std::StandardDataDictionary;
use crate::element::Tag;
use crate::value::optional_text;

verus! {

/// The character that stands for the hexadecimal digit `d`, in upper case.
pub open spec fn hex_digit(d: nat) -> char
    recommends
        d < 16,
{
    if d == 0 {
        '0'
    } else if d == 1 {
        '1'
    } else if d == 2 {
        '2'
    } else if d == 3 {
        '3'
    } else if d == 4 {
        '4'
    } else if d == 5 {
        '5'
    } else if d == 6 {
        '6'
    } else if d == 7 {
        '7'
    } else if d == 8 {
        '8'
    } else if d == 9 {
        '9'
    } else if d == 10 {
        'A'
    } else if d == 11 {
        'B'
    } else if d == 12 {
        'C'
    } else if d == 13 {
        'D'
    } else if d == 14 {
        'E'
    } else {
        'F'
    }
}

/// A 16-bit number in exactly four upper-case hexadecimal digits.
pub open spec fn hex4(n: u16) -> Seq<char> {
    seq![
        hex_digit((n as nat / 4096) % 16),
        hex_digit((n as nat / 256) % 16),
        hex_digit((n as nat / 16) % 16),
        hex_digit(n as nat % 16),
    ]
}

/// The canonical numeric form of a tag: `(GGGG,EEEE)`.
pub open spec fn canonical_tag_text(tag: Tag) -> Seq<char> {
    seq!['('] + hex4(tag.group) + seq![','] + hex4(tag.element) + seq![')']
}

/// The key of an element whose tag the dictionary does not know.
pub open spec fn unknown_key() -> Seq<char> {
    seq!['U', 'n', 'k', 'n', 'o', 'w', 'n']
}

/// The alias that the standard data dictionary holds for a tag, if it holds
/// one. The dictionary is a fixed table, so the alias depends on the tag alone.
pub uninterp spec fn standard_alias(group: u16, element: u16) -> Option<Seq<char>>;

/// The symbolic key of a tag: its alias in the standard dictionary, exactly as
/// stored, or `Unknown` where the dictionary has no entry for it.
pub open spec fn symbolic_key(tag: Tag) -> Seq<char> {
    match standard_alias(tag.group, tag.element) {
        Some(alias) => alias,
        None => unknown_key(),
    }
}

/// The key of a tag: symbolic when `symbolic` is set, numeric otherwise.
pub open spec fn key_text(tag: Tag, symbolic: bool) -> Seq<char> {
    if symbolic {
        symbolic_key(tag)
    } else {
        canonical_tag_text(tag)
    }
}

/// Formats a tag with `dicom_core`'s `Display` for `Tag`.
///
/// Trusted: that the result is an opening parenthesis, the group in four
/// upper-case hexadecimal digits, a comma, the element in four such digits,
/// and a closing parenthesis, which is what the format `({:04X},{:04X})` of
/// that impl writes for two 16-bit numbers.
#[verifier::external_body]
fn tag_text(tag: Tag) -> (text: String)
    ensures
        text@ == canonical_tag_text(tag),
{
    dicom_core::Tag(tag.group, tag.element).to_string()
}

/// Looks a tag up with `StandardDataDictionary::by_tag` and copies the alias
/// of the entry found.
///
/// Trusted: that the outcome is a function of the tag alone, named
/// `standard_alias`. Nothing is claimed about which tags have an entry.
#[verifier::external_body]
fn lookup_alias(tag: Tag) -> (alias: Option<String>)
    ensures
        optional_text(alias) == standard_alias(tag.group, tag.element),
{
    StandardDataDictionary.by_tag(dicom_core::Tag(tag.group, tag.element)).map(
        |entry| entry.alias.to_owned(),
    )
}

/// The name to use for the outcome of a dictionary lookup: the alias, or
/// `Unknown` after a miss.
pub fn alias_or_unknown(found: Option<String>) -> (name: String)
    ensures
        name@ == (match found {
            Some(alias) => alias@,
            None => unknown_key(),
        }),
{
    match found {
        Some(alias) => alias,
        None => {
            proof {
                reveal_strlit("Unknown");
            }
            let name = String::from_str("Unknown");
            assert(name@ =~= unknown_key());
            name
        },
    }
}

/// The symbolic name of a tag. Total: a tag without a dictionary entry is
/// named `Unknown`.
pub fn get_tag_name(tag: Tag) -> (name: String)
    ensures
        name@ == symbolic_key(tag),
{
    alias_or_unknown(lookup_alias(tag))
}

/// The key under which an element with this tag is recorded.
///
/// With `symbolic` set it is the tag's name in the standard dictionary (or
/// `Unknown`); without, the tag's canonical numeric form.
pub fn resolve_key(tag: Tag, symbolic: bool) -> (key: String)
    ensures
        key@ == key_text(tag, symbolic),
{
    if symbolic {
        get_tag_name(tag)
    } else {
        tag_text(tag)
    }
}

} // verus!
