//! The projected record: a mapping from key to optional text, in which a
//! later write under a key replaces the earlier one.

use vstd::hash_map::StringHashMap;
use vstd::prelude::*;
use vstd::string::*;
use crate::value::optional_text;

verus! {

/// One key of a record with what is recorded under it.
#[derive(Debug)]
pub(crate) struct Entry {
    pub(crate) key: String,
    pub(crate) value: Option<String>,
}

/// Whether position `i` of `entries` holds the key `k`.
spec fn holds_key(entries: Seq<Entry>, i: int, k: Seq<char>) -> bool {
    0 <= i < entries.len() && entries[i].key@ == k
}

/// No key stands at two positions.
spec fn keys_distinct(entries: Seq<Entry>) -> bool {
    forall|i: int, j: int|
        0 <= i < j < entries.len() ==> (#[trigger] entries[i]).key@ != (#[trigger] entries[j]).key@
}

/// The mapping that a list of entries with distinct keys stands for.
spec fn entries_map(entries: Seq<Entry>) -> Map<Seq<char>, Option<Seq<char>>> {
    Map::new(
        |k: Seq<char>| exists|i: int| holds_key(entries, i, k),
        |k: Seq<char>| optional_text(entries[choose|i: int| holds_key(entries, i, k)].value),
    )
}

/// The keys of a list of entries, in order.
spec fn keys_of(entries: Seq<Entry>) -> Seq<Seq<char>> {
    entries.map_values(|e: Entry| e.key@)
}

/// Whether `index` tells, for every key of `entries` and for no other text,
/// the position at which the key stands.
spec fn locates(index: Map<Seq<char>, usize>, entries: Seq<Entry>) -> bool {
    &&& forall|k: Seq<char>| #[trigger]
        index.contains_key(k) ==> holds_key(entries, index[k] as int, k)
    &&& forall|i: int|
        0 <= i < entries.len() ==> index.contains_key((#[trigger] entries[i]).key@)
}

/// A flat mapping from key to optional text.
///
/// Its view is a `Map` from the key's characters to the value's characters,
/// `None` standing for a value without a textual form. The entries are kept in
/// the order in which their keys were first written; a hash index finds the
/// position of a key, so that a write takes constant expected time.
pub struct ProjectedRecord {
    pub(crate) table: Table,
}

/// The entries of a record and the index into them.
pub(crate) struct Table {
    pub(crate) entries: Vec<Entry>,
    pub(crate) index: StringHashMap<usize>,
}

impl View for ProjectedRecord {
    type V = Map<Seq<char>, Option<Seq<char>>>;

    closed spec fn view(&self) -> Self::V {
        entries_map(self.table.entries@)
    }
}

/// Writing under a key that position `at` holds replaces the value there and
/// touches nothing else.
proof fn lemma_overwrite(before: Seq<Entry>, after: Seq<Entry>, at: int, entry: Entry)
    requires
        keys_distinct(before),
        0 <= at < before.len(),
        before[at].key@ == entry.key@,
        after == before.update(at, entry),
    ensures
        keys_distinct(after),
        entries_map(after) == entries_map(before).insert(entry.key@, optional_text(entry.value)),
{
    assert forall|i: int, k: Seq<char>| holds_key(after, i, k) == holds_key(before, i, k) by {}
    let goal = entries_map(before).insert(entry.key@, optional_text(entry.value));
    assert forall|k: Seq<char>| entries_map(after).dom().contains(k) == goal.dom().contains(k) by {
        if entries_map(after).dom().contains(k) {
            let i = choose|i: int| holds_key(after, i, k);
            assert(holds_key(before, i, k));
        }
        if goal.dom().contains(k) {
            if k == entry.key@ {
                assert(holds_key(after, at, k));
            } else {
                let i = choose|i: int| holds_key(before, i, k);
                assert(holds_key(after, i, k));
            }
        }
    }
    assert forall|k: Seq<char>| entries_map(after).dom().contains(k) implies entries_map(after)[k]
        == goal[k] by {
        let i = choose|i: int| holds_key(after, i, k);
        assert(holds_key(before, i, k));
        if k == entry.key@ {
            assert(i == at);
        } else {
            let j = choose|j: int| holds_key(before, j, k);
            assert(holds_key(before, j, k));
            assert(i == j);
            assert(i != at);
        }
    }
    assert(entries_map(after) =~= goal);
}

/// Writing under a key that no position holds adds one entry.
proof fn lemma_append(before: Seq<Entry>, after: Seq<Entry>, entry: Entry)
    requires
        keys_distinct(before),
        forall|i: int| 0 <= i < before.len() ==> (#[trigger] before[i]).key@ != entry.key@,
        after == before.push(entry),
    ensures
        keys_distinct(after),
        entries_map(after) == entries_map(before).insert(entry.key@, optional_text(entry.value)),
{
    let goal = entries_map(before).insert(entry.key@, optional_text(entry.value));
    let last = before.len() as int;
    assert forall|k: Seq<char>| entries_map(after).dom().contains(k) == goal.dom().contains(k) by {
        if entries_map(after).dom().contains(k) {
            let i = choose|i: int| holds_key(after, i, k);
            if i < last {
                assert(holds_key(before, i, k));
            }
        }
        if goal.dom().contains(k) {
            if k == entry.key@ {
                assert(holds_key(after, last, k));
            } else {
                let i = choose|i: int| holds_key(before, i, k);
                assert(holds_key(after, i, k));
            }
        }
    }
    assert forall|k: Seq<char>| entries_map(after).dom().contains(k) implies entries_map(after)[k]
        == goal[k] by {
        let i = choose|i: int| holds_key(after, i, k);
        if k == entry.key@ {
            assert(i == last);
        } else {
            assert(i < last);
            assert(holds_key(before, i, k));
            let j = choose|j: int| holds_key(before, j, k);
            assert(holds_key(before, j, k));
            assert(i == j);
        }
    }
    assert(entries_map(after) =~= goal);
}

/// An index that locates the keys of `before` still does so after a value was
/// replaced in place.
proof fn lemma_index_after_overwrite(
    index: Map<Seq<char>, usize>,
    before: Seq<Entry>,
    at: int,
    entry: Entry,
)
    requires
        locates(index, before),
        0 <= at < before.len(),
        before[at].key@ == entry.key@,
    ensures
        locates(index, before.update(at, entry)),
{
    let after = before.update(at, entry);
    assert forall|k: Seq<char>| #[trigger] index.contains_key(k) implies holds_key(
        after,
        index[k] as int,
        k,
    ) by {
        assert(holds_key(before, index[k] as int, k));
    }
    assert forall|i: int| 0 <= i < after.len() implies index.contains_key(
        (#[trigger] after[i]).key@,
    ) by {
        assert(before[i].key@ == after[i].key@);
    }
}

/// An index that locates the keys of `before`, told where a new key was
/// appended, locates the keys of the longer list.
proof fn lemma_index_after_append(index: Map<Seq<char>, usize>, before: Seq<Entry>, entry: Entry)
    requires
        locates(index, before),
        !index.contains_key(entry.key@),
        before.len() <= usize::MAX,
    ensures
        locates(index.insert(entry.key@, before.len() as usize), before.push(entry)),
{
    let after = before.push(entry);
    let longer = index.insert(entry.key@, before.len() as usize);
    assert forall|k: Seq<char>| #[trigger] longer.contains_key(k) implies holds_key(
        after,
        longer[k] as int,
        k,
    ) by {
        if k != entry.key@ {
            assert(index.contains_key(k));
            assert(holds_key(before, index[k] as int, k));
        }
    }
    assert forall|i: int| 0 <= i < after.len() implies longer.contains_key(
        (#[trigger] after[i]).key@,
    ) by {
        if i < before.len() {
            assert(index.contains_key(before[i].key@));
        }
    }
}

/// Each entry of a list with distinct keys is in the mapping, with its value.
proof fn lemma_entry_in_map(entries: Seq<Entry>, i: int)
    requires
        keys_distinct(entries),
        0 <= i < entries.len(),
    ensures
        entries_map(entries).contains_key(entries[i].key@),
        entries_map(entries)[entries[i].key@] == optional_text(entries[i].value),
{
    let k = entries[i].key@;
    assert(holds_key(entries, i, k));
    let j = choose|j: int| holds_key(entries, j, k);
    assert(holds_key(entries, j, k));
    assert(i == j);
}

/// Whether two optional strings have the same text, or are both absent.
fn same_text(a: &Option<String>, b: &Option<String>) -> (same: bool)
    ensures
        same == (optional_text(*a) == optional_text(*b)),
{
    match (a, b) {
        (Some(x), Some(y)) => *x == *y,
        (None, None) => true,
        _ => false,
    }
}

/// A record of distinct keys has as many keys as entries.
proof fn lemma_size(entries: Seq<Entry>)
    requires
        keys_distinct(entries),
    ensures
        entries_map(entries).dom().finite(),
        entries_map(entries).dom().len() == entries.len(),
{
    let keys = keys_of(entries);
    assert(keys.no_duplicates()) by {
        assert forall|i: int, j: int| 0 <= i < keys.len() && 0 <= j < keys.len() && i != j implies keys[i]
            != keys[j] by {
            if i < j {
                assert(entries[i].key@ != entries[j].key@);
            } else {
                assert(entries[j].key@ != entries[i].key@);
            }
        }
    }
    assert(entries_map(entries).dom() =~= keys.to_set()) by {
        assert forall|k: Seq<char>| entries_map(entries).dom().contains(k) == keys.to_set().contains(
            k,
        ) by {
            if entries_map(entries).dom().contains(k) {
                let i = choose|i: int| holds_key(entries, i, k);
                assert(keys[i] == k);
                assert(keys.contains(k));
            }
            if keys.to_set().contains(k) {
                let i = choose|i: int| 0 <= i < keys.len() && keys[i] == k;
                assert(holds_key(entries, i, k));
            }
        }
    }
    keys.unique_seq_to_set();
    vstd::seq_lib::seq_to_set_is_finite(keys);
}

impl ProjectedRecord {
    #[verifier::type_invariant]
    closed spec fn well_formed(&self) -> bool {
        &&& keys_distinct(self.table.entries@)
        &&& locates(self.table.index@, self.table.entries@)
    }

    /// A record without keys.
    pub fn new() -> (record: Self)
        ensures
            record@ == Map::<Seq<char>, Option<Seq<char>>>::empty(),
    {
        let record = ProjectedRecord {
            table: Table { entries: Vec::new(), index: StringHashMap::new() },
        };
        assert(record@ =~= Map::<Seq<char>, Option<Seq<char>>>::empty()) by {
            assert forall|k: Seq<char>| !record@.dom().contains(k) by {
                if record@.dom().contains(k) {
                    let i = choose|i: int| holds_key(record.table.entries@, i, k);
                    assert(holds_key(record.table.entries@, i, k));
                }
            }
        }
        record
    }

    /// Where `key` stands among the entries, if it does.
    fn position(&self, key: &str) -> (found: Option<usize>)
        ensures
            match found {
                Some(at) => holds_key(self.table.entries@, at as int, key@),
                None => forall|i: int|
                    0 <= i < self.table.entries@.len() ==> (#[trigger] self.table.entries@[i]).key@ != key@,
            },
    {
        proof {
            use_type_invariant(self);
        }
        match self.table.index.get(key) {
            Some(at) => Some(*at),
            None => None,
        }
    }

    /// Records `value` under `key`. A value recorded under that key before is
    /// replaced; every other key keeps its value.
    pub fn insert(&mut self, key: String, value: Option<String>)
        ensures
            final(self)@ == old(self)@.insert(key@, optional_text(value)),
    {
        proof {
            use_type_invariant(&*self);
        }
        let found = self.position(key.as_str());
        let mut table = Table { entries: Vec::new(), index: StringHashMap::new() };
        core::mem::swap(&mut self.table, &mut table);
        let Table { mut entries, mut index } = table;
        match found {
            Some(at) => {
                let entry = Entry { key, value };
                proof {
                    lemma_overwrite(entries@, entries@.update(at as int, entry), at as int, entry);
                    lemma_index_after_overwrite(index@, entries@, at as int, entry);
                }
                entries.set(at, entry);
            },
            None => {
                let copy = key.clone();
                let entry = Entry { key, value };
                proof {
                    assert(!index@.contains_key(entry.key@)) by {
                        if index@.contains_key(entry.key@) {
                            assert(holds_key(entries@, index@[entry.key@] as int, entry.key@));
                        }
                    }
                    assert(entries@.len() == entries.len());
                    lemma_append(entries@, entries@.push(entry), entry);
                    lemma_index_after_append(index@, entries@, entry);
                }
                index.insert(copy, entries.len());
                entries.push(entry);
            },
        }
        self.table = Table { entries, index };
    }

    /// What is recorded under `key`: `None` where the key is absent,
    /// `Some(None)` where it is present without a text.
    pub fn get(&self, key: &str) -> (found: Option<Option<String>>)
        ensures
            match found {
                Some(value) => self@.contains_key(key@) && self@[key@] == optional_text(value),
                None => !self@.contains_key(key@),
            },
    {
        proof {
            use_type_invariant(self);
        }
        match self.position(key) {
            Some(at) => {
                proof {
                    let i = choose|i: int| holds_key(self.table.entries@, i, key@);
                    assert(holds_key(self.table.entries@, at as int, key@));
                    assert(holds_key(self.table.entries@, i, key@));
                    assert(i == at);
                }
                Some(self.table.entries[at].value.clone())
            },
            None => {
                proof {
                    if self@.contains_key(key@) {
                        let i = choose|i: int| holds_key(self.table.entries@, i, key@);
                        assert(holds_key(self.table.entries@, i, key@));
                    }
                }
                None
            },
        }
    }

    /// Whether anything is recorded under `key`.
    pub fn contains_key(&self, key: &str) -> (present: bool)
        ensures
            present == self@.contains_key(key@),
    {
        match self.position(key) {
            Some(at) => {
                proof {
                    assert(holds_key(self.table.entries@, at as int, key@));
                }
                true
            },
            None => {
                proof {
                    if self@.contains_key(key@) {
                        let i = choose|i: int| holds_key(self.table.entries@, i, key@);
                        assert(holds_key(self.table.entries@, i, key@));
                    }
                }
                false
            },
        }
    }

    /// Whether two records are the same mapping, in whatever order their keys
    /// were written.
    pub fn same_as(&self, other: &ProjectedRecord) -> (same: bool)
        ensures
            same == (self@ == other@),
    {
        proof {
            use_type_invariant(self);
            use_type_invariant(other);
            lemma_size(self.table.entries@);
            lemma_size(other.table.entries@);
        }
        if self.table.entries.len() != other.table.entries.len() {
            return false;
        }
        let mut index: usize = 0;
        while index < self.table.entries.len()
            invariant
                index <= self.table.entries@.len(),
                keys_distinct(self.table.entries@),
                keys_distinct(other.table.entries@),
                forall|i: int|
                    0 <= i < index ==> other@.contains_key(
                        (#[trigger] self.table.entries@[i]).key@,
                    ) && other@[self.table.entries@[i].key@] == optional_text(
                        self.table.entries@[i].value,
                    ),
            decreases self.table.entries@.len() - index,
        {
            let entry = &self.table.entries[index];
            proof {
                lemma_entry_in_map(self.table.entries@, index as int);
            }
            match other.position(entry.key.as_str()) {
                None => {
                    proof {
                        if other@.contains_key(entry.key@) {
                            let i = choose|i: int| holds_key(other.table.entries@, i, entry.key@);
                            assert(holds_key(other.table.entries@, i, entry.key@));
                        }
                    }
                    return false;
                },
                Some(at) => {
                    proof {
                        lemma_entry_in_map(other.table.entries@, at as int);
                    }
                    if !same_text(&entry.value, &other.table.entries[at].value) {
                        return false;
                    }
                },
            }
            index = index + 1;
        }
        proof {
            assert forall|k: Seq<char>| self@.contains_key(k) implies other@.contains_key(k)
                && other@[k] == self@[k] by {
                let i = choose|i: int| holds_key(self.table.entries@, i, k);
                assert(holds_key(self.table.entries@, i, k));
                lemma_entry_in_map(self.table.entries@, i);
            }
            assert(self@.dom().subset_of(other@.dom()));
            vstd::set_lib::lemma_subset_equality(self@.dom(), other@.dom());
            assert(self@ =~= other@);
        }
        true
    }

    /// The number of keys.
    pub fn len(&self) -> (count: usize)
        ensures
            self@.dom().finite(),
            count == self@.len(),
    {
        proof {
            use_type_invariant(self);
            lemma_size(self.table.entries@);
        }
        self.table.entries.len()
    }

    /// Whether the record has no key.
    pub fn is_empty(&self) -> (empty: bool)
        ensures
            empty == (self@.len() == 0),
    {
        self.len() == 0
    }
}

} // verus!
