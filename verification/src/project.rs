//! The projection of a list of elements to a record, and of the record to
//! JSON text.

use vstd::prelude::*;
use crate::boundary::Failure;
use crate::element::{allow_list, models_of, Element, ElementModel};
use crate::json::{encode, json_object_entries, json_object_text};
use crate::key::{key_text, resolve_key};
use crate::record::ProjectedRecord;
use crate::value::{coerced_text, get_value};

verus! {

/// The record that a list of elements projects to.
///
/// The elements are taken in order. One whose value representation is not on
/// the allow-list leaves the record as it is. Any other is written under its
/// key with its coerced text, replacing what an earlier element wrote under
/// the same key.
pub open spec fn projected(elements: Seq<ElementModel>, symbolic: bool) -> Map<
    Seq<char>,
    Option<Seq<char>>,
>
    decreases elements.len(),
{
    if elements.len() == 0 {
        Map::empty()
    } else {
        let earlier = projected(elements.drop_last(), symbolic);
        let element = elements.last();
        if allow_list().contains(element.vr) {
            earlier.insert(key_text(element.tag, symbolic), coerced_text(element.value))
        } else {
            earlier
        }
    }
}

/// Projects the elements of a decoded object to a flat record.
///
/// `symbolic` selects the keys: the elements' names in the standard
/// dictionary when set, their numeric tags otherwise.
pub fn project(elements: &Vec<Element>, symbolic: bool) -> (record: ProjectedRecord)
    ensures
        record@ == projected(models_of(elements@), symbolic),
{
    let mut record = ProjectedRecord::new();
    let ghost models = models_of(elements@);
    let mut index: usize = 0;
    while index < elements.len()
        invariant
            index <= elements.len(),
            models == models_of(elements@),
            record@ == projected(models.take(index as int), symbolic),
        decreases elements.len() - index,
    {
        let element = &elements[index];
        proof {
            let longer = models.take(index + 1);
            assert(longer.drop_last() =~= models.take(index as int));
            assert(longer.last() == element@);
        }
        if element.vr.is_allowed() {
            let key = resolve_key(element.tag, symbolic);
            let value = get_value(&element.value);
            record.insert(key, value);
        }
        index = index + 1;
    }
    assert(models.take(index as int) =~= models);
    record
}

/// What `parse` returns for these elements.
///
/// A text is the JSON object of the record that the elements project to, and
/// reads back as that record. A text is owed whenever that JSON object reads
/// back as the record; a failure is `Serialization`, and comes only where it
/// does not.
pub open spec fn is_parse_outcome(
    elements: Seq<ElementModel>,
    show_tag: bool,
    out: Result<String, Failure>,
) -> bool {
    let record = projected(elements, show_tag);
    match out {
        Ok(text) => {
            &&& text@ == json_object_text(record)
            &&& json_object_entries(text@) == Some(record)
        },
        Err(failure) => {
            &&& failure == Failure::Serialization
            &&& json_object_entries(json_object_text(record)) != Some(record)
        },
    }
}

/// Projects the elements of a decoded object and encodes the record as JSON.
///
/// With `show_tag` set the keys are the elements' symbolic names, without it
/// their numeric tags. A text that comes back is the JSON object of the
/// projected record, and parses as an object with exactly the record's
/// members. It comes back whenever that object reads back as the record;
/// otherwise the failure is `Serialization` and no text is returned.
pub fn parse(elements: &Vec<Element>, show_tag: bool) -> (out: Result<String, Failure>)
    ensures
        is_parse_outcome(models_of(elements@), show_tag, out),
{
    let record = project(elements, show_tag);
    encode(&record)
}

/// Whether element `i` is on the allow-list and has the key `key`.
pub open spec fn writes_key(
    elements: Seq<ElementModel>,
    symbolic: bool,
    i: int,
    key: Seq<char>,
) -> bool {
    &&& 0 <= i < elements.len()
    &&& allow_list().contains(elements[i].vr)
    &&& key_text(elements[i].tag, symbolic) == key
}

/// The same elements with the same flag give the same text, whenever a text
/// is given: the output depends on nothing else.
pub proof fn lemma_output_is_determined(
    elements: Seq<ElementModel>,
    show_tag: bool,
    first: Result<String, Failure>,
    second: Result<String, Failure>,
)
    requires
        is_parse_outcome(elements, show_tag, first),
        is_parse_outcome(elements, show_tag, second),
        first is Ok,
        second is Ok,
    ensures
        first->Ok_0@ == second->Ok_0@,
{
}

/// A text that `parse` returns is valid JSON: it reads back as an object whose
/// values are strings or `null`, with the key of every allowed element and no
/// other key.
pub proof fn lemma_output_reads_back(
    elements: Seq<ElementModel>,
    show_tag: bool,
    out: Result<String, Failure>,
    key: Seq<char>,
)
    requires
        is_parse_outcome(elements, show_tag, out),
        out is Ok,
    ensures
        json_object_entries(out->Ok_0@) is Some,
        json_object_entries(out->Ok_0@)->Some_0.contains_key(key) <==> exists|i: int|
            writes_key(elements, show_tag, i, key),
{
    lemma_keys_come_from_allowed_elements(elements, show_tag, key);
}

/// Two lists of elements that `parse` turns into the same text project to the
/// same record: the text loses nothing of the record.
pub proof fn lemma_same_text_same_record(
    first: Seq<ElementModel>,
    second: Seq<ElementModel>,
    show_tag: bool,
    out: Result<String, Failure>,
    other: Result<String, Failure>,
)
    requires
        is_parse_outcome(first, show_tag, out),
        is_parse_outcome(second, show_tag, other),
        out is Ok,
        other is Ok,
        out->Ok_0@ == other->Ok_0@,
    ensures
        projected(first, show_tag) == projected(second, show_tag),
{
}

/// A key is in the record exactly if some element on the allow-list has it.
/// So every key comes from an allowed element, and an element outside the
/// allow-list brings no key of its own.
pub proof fn lemma_keys_come_from_allowed_elements(
    elements: Seq<ElementModel>,
    symbolic: bool,
    key: Seq<char>,
)
    ensures
        projected(elements, symbolic).contains_key(key) <==> exists|i: int|
            writes_key(elements, symbolic, i, key),
    decreases elements.len(),
{
    if elements.len() > 0 {
        let earlier = elements.drop_last();
        let last = elements.len() - 1;
        lemma_keys_come_from_allowed_elements(earlier, symbolic, key);
        if projected(elements, symbolic).contains_key(key) {
            if writes_key(elements, symbolic, last, key) {
            } else {
                assert(projected(earlier, symbolic).contains_key(key));
                let i = choose|i: int| writes_key(earlier, symbolic, i, key);
                assert(writes_key(elements, symbolic, i, key));
            }
        }
        if exists|i: int| writes_key(elements, symbolic, i, key) {
            let i = choose|i: int| writes_key(elements, symbolic, i, key);
            if i < last {
                assert(writes_key(earlier, symbolic, i, key));
            }
        }
    }
}

/// Under each key stands the coerced text of the last allowed element that
/// has the key.
pub proof fn lemma_last_write_wins(
    elements: Seq<ElementModel>,
    symbolic: bool,
    i: int,
    key: Seq<char>,
)
    requires
        writes_key(elements, symbolic, i, key),
        forall|j: int| i < j < elements.len() ==> !writes_key(elements, symbolic, j, key),
    ensures
        projected(elements, symbolic).contains_key(key),
        projected(elements, symbolic)[key] == coerced_text(elements[i].value),
    decreases elements.len(),
{
    let earlier = elements.drop_last();
    let last = elements.len() - 1;
    if i < last {
        assert(!writes_key(elements, symbolic, last, key));
        assert(writes_key(earlier, symbolic, i, key));
        assert forall|j: int| i < j < earlier.len() implies !writes_key(
            earlier,
            symbolic,
            j,
            key,
        ) by {
            assert(!writes_key(elements, symbolic, j, key));
        }
        lemma_last_write_wins(earlier, symbolic, i, key);
    }
}

/// Taking the elements outside the allow-list away changes nothing: they
/// contribute no key and no value.
pub proof fn lemma_disallowed_elements_are_ignored(elements: Seq<ElementModel>, symbolic: bool)
    ensures
        projected(elements, symbolic) == projected(
            elements.filter(|e: ElementModel| allow_list().contains(e.vr)),
            symbolic,
        ),
    decreases elements.len(),
{
    reveal(Seq::filter);
    let allowed = |e: ElementModel| allow_list().contains(e.vr);
    if elements.len() > 0 {
        let earlier = elements.drop_last();
        lemma_disallowed_elements_are_ignored(earlier, symbolic);
        if allowed(elements.last()) {
            let kept = earlier.filter(allowed).push(elements.last());
            assert(elements.filter(allowed) == kept);
            assert(kept.drop_last() =~= earlier.filter(allowed));
            assert(kept.last() == elements.last());
        }
    }
}

/// A list of elements none of which is on the allow-list projects to the
/// empty record.
pub proof fn lemma_nothing_allowed_gives_empty(elements: Seq<ElementModel>, symbolic: bool)
    requires
        forall|i: int| 0 <= i < elements.len() ==> !allow_list().contains(#[trigger] elements[i].vr),
    ensures
        projected(elements, symbolic) == Map::<Seq<char>, Option<Seq<char>>>::empty(),
    decreases elements.len(),
{
    if elements.len() > 0 {
        let earlier = elements.drop_last();
        assert forall|i: int| 0 <= i < earlier.len() implies !allow_list().contains(
            #[trigger] earlier[i].vr,
        ) by {
            assert(earlier[i] == elements[i]);
        }
        lemma_nothing_allowed_gives_empty(earlier, symbolic);
        assert(!allow_list().contains(elements[elements.len() - 1].vr));
    }
}

} // verus!
