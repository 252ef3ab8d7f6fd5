//! The metrics table: a flat mapping from metric names to values that keeps
//! its keys in the order in which they were first inserted.
//!
//! The mathematical model of a table is the sequence of its `(key, value)`
//! pairs; [`lookup`] and [`put`] say what reading and inserting mean on that
//! sequence, and the laws below relate the two.

use vstd::prelude::*;

verus! {

/// A metric value. Values are carried from the provider to the transport and
/// never computed with.
#[derive(Clone, Copy, Debug, PartialEq, Eq, Structural)]
pub enum Value {
    /// A single-precision reading, held as its IEEE 754 bit pattern.
    Float(u32),
    /// A whole-number reading.
    Integer(u64),
}

/// The model of one table entry: the key's characters and the value.
pub type EntryView = (Seq<char>, Value);

/// Whether `entries` holds `key` at position `i`, and at no earlier position.
pub open spec fn first_at(entries: Seq<EntryView>, key: Seq<char>, i: int) -> bool {
    &&& 0 <= i < entries.len()
    &&& entries[i].0 == key
    &&& forall|j: int| 0 <= j < i ==> (#[trigger] entries[j]).0 != key
}

/// Whether some entry of `entries` stands under `key`.
pub open spec fn has_key(entries: Seq<EntryView>, key: Seq<char>) -> bool {
    exists|i: int| 0 <= i < entries.len() && (#[trigger] entries[i]).0 == key
}

/// The position of the first entry under `key`, if there is one.
pub open spec fn find(entries: Seq<EntryView>, key: Seq<char>) -> Option<int> {
    if exists|i: int| first_at(entries, key, i) {
        Some(choose|i: int| first_at(entries, key, i))
    } else {
        None
    }
}

/// The value stored under `key`, if any.
pub open spec fn lookup(entries: Seq<EntryView>, key: Seq<char>) -> Option<Value> {
    match find(entries, key) {
        Some(i) => Some(entries[i].1),
        None => None,
    }
}

/// The entries after storing `value` under `key`: an entry already under that
/// key keeps its position and takes the new value; otherwise the pair is
/// appended.
pub open spec fn put(entries: Seq<EntryView>, key: Seq<char>, value: Value) -> Seq<EntryView> {
    match find(entries, key) {
        Some(i) => entries.update(i, (key, value)),
        None => entries.push((key, value)),
    }
}

/// Whether no key occurs twice in `entries`.
pub open spec fn distinct_keys(entries: Seq<EntryView>) -> bool {
    forall|i: int, j: int|
        0 <= i < j < entries.len() ==> (#[trigger] entries[i]).0 != (#[trigger] entries[j]).0
}

/// `find` answers `Some(i)` exactly for the first position under the key, and
/// `None` exactly when no entry stands under it.
pub proof fn lemma_find(entries: Seq<EntryView>, key: Seq<char>)
    ensures
        match find(entries, key) {
            Some(i) => first_at(entries, key, i),
            None => !has_key(entries, key),
        },
        forall|i: int| first_at(entries, key, i) ==> find(entries, key) == Some(i),
{
    if has_key(entries, key) {
        let w = choose|i: int| 0 <= i < entries.len() && (#[trigger] entries[i]).0 == key;
        lemma_first_exists(entries, key, w);
    }
}

/// Below any position under the key lies a first one.
proof fn lemma_first_exists(entries: Seq<EntryView>, key: Seq<char>, w: int)
    requires
        0 <= w < entries.len(),
        entries[w].0 == key,
    ensures
        exists|i: int| first_at(entries, key, i),
    decreases w,
{
    if forall|j: int| 0 <= j < w ==> (#[trigger] entries[j]).0 != key {
        assert(first_at(entries, key, w));
    } else {
        let j = choose|j: int| 0 <= j < w && (#[trigger] entries[j]).0 == key;
        lemma_first_exists(entries, key, j);
    }
}

/// Reading back what was just stored: `put` leaves `value` under `key`,
/// leaves every other key as it was, and keeps the keys distinct.
pub proof fn lemma_put(entries: Seq<EntryView>, key: Seq<char>, value: Value)
    ensures
        lookup(put(entries, key, value), key) == Some(value),
        forall|other: Seq<char>|
            other != key ==> lookup(put(entries, key, value), other) == lookup(entries, other),
        forall|other: Seq<char>|
            has_key(put(entries, key, value), other) <==> other == key || has_key(entries, other),
        distinct_keys(entries) ==> distinct_keys(put(entries, key, value)),
        put(entries, key, value).len() == entries.len() + (if has_key(entries, key) {
            0int
        } else {
            1int
        }),
{
    let after = put(entries, key, value);
    lemma_find(entries, key);
    if let Some(i) = find(entries, key) {
        assert(first_at(after, key, i));
    }
    lemma_find(after, key);
    assert forall|other: Seq<char>| other != key implies lookup(after, other) == lookup(
        entries,
        other,
    ) by {
        lemma_find(entries, other);
        lemma_find(after, other);
        if let Some(k) = find(entries, other) {
            assert(first_at(after, other, k));
        }
    }
    assert forall|other: Seq<char>| has_key(after, other) <==> other == key || has_key(
        entries,
        other,
    ) by {
        if has_key(entries, other) {
            let k = choose|k: int| 0 <= k < entries.len() && (#[trigger] entries[k]).0 == other;
            assert(after[k].0 == other);
        }
        if other == key && find(entries, key).is_none() {
            assert(after[entries.len() as int].0 == key);
        }
    }
}

/// One entry of a table.
#[derive(Debug)]
pub struct Entry {
    /// The metric's name.
    pub key: String,
    /// The metric's value.
    pub value: Value,
}

impl View for Entry {
    type V = EntryView;

    open spec fn view(&self) -> EntryView {
        (self.key@, self.value)
    }
}

/// A table of metrics. No key occurs twice, and the entries stand in the
/// order in which their keys were first inserted.
#[derive(Debug)]
pub struct Table {
    entries: Vec<Entry>,
}

impl View for Table {
    type V = Seq<EntryView>;

    closed spec fn view(&self) -> Seq<EntryView> {
        self.entries@.map_values(|e: Entry| e@)
    }
}

impl Table {
    #[verifier::type_invariant]
    spec fn keys_are_distinct(&self) -> bool {
        distinct_keys(self@)
    }

    /// An empty table.
    pub fn new() -> (table: Table)
        ensures
            table@ == Seq::<EntryView>::empty(),
    {
        Table { entries: Vec::new() }
    }

    /// The number of entries.
    pub fn len(&self) -> (n: usize)
        ensures
            n == self@.len(),
            distinct_keys(self@),
    {
        proof {
            use_type_invariant(self);
        }
        self.entries.len()
    }

    /// The position of the entry under `key`, if there is one.
    fn position(&self, key: &String) -> (found: Option<usize>)
        ensures
            distinct_keys(self@),
            match found {
                Some(i) => find(self@, key@) == Some(i as int) && i < self.entries.len(),
                None => find(self@, key@).is_none(),
            },
    {
        proof {
            use_type_invariant(self);
        }
        let mut i: usize = 0;
        while i < self.entries.len()
            invariant
                i <= self.entries.len(),
                distinct_keys(self@),
                forall|j: int| 0 <= j < i ==> (#[trigger] self@[j]).0 != key@,
            decreases self.entries.len() - i,
        {
            if self.entries[i].key == *key {
                proof {
                    assert(first_at(self@, key@, i as int));
                    lemma_find(self@, key@);
                }
                return Some(i);
            }
            i += 1;
        }
        proof {
            lemma_find(self@, key@);
        }
        None
    }

    /// Stores `value` under `key` and returns the value that stood there
    /// before, if any. A key that is already present keeps its position.
    pub fn insert(&mut self, key: String, value: Value) -> (previous: Option<Value>)
        ensures
            final(self)@ == put(old(self)@, key@, value),
            previous == lookup(old(self)@, key@),
            distinct_keys(final(self)@),
    {
        let found = self.position(&key);
        proof {
            lemma_put(self@, key@, value);
        }
        // The vector is changed while the table holds an empty one, and put
        // back once the keys are distinct again.
        let mut entries = Vec::new();
        core::mem::swap(&mut self.entries, &mut entries);
        let previous = match found {
            Some(i) => {
                let previous = entries[i].value;
                entries.set(i, Entry { key, value });
                Some(previous)
            },
            None => {
                entries.push(Entry { key, value });
                None
            },
        };
        assert(entries@.map_values(|e: Entry| e@) =~= put(old(self)@, key@, value));
        core::mem::swap(&mut self.entries, &mut entries);
        previous
    }

    /// The value stored under `key`, if any.
    pub fn get(&self, key: &str) -> (value: Option<Value>)
        ensures
            value == lookup(self@, key@),
    {
        let wanted = key.to_owned();
        match self.position(&wanted) {
            Some(i) => Some(self.entries[i].value),
            None => None,
        }
    }

    /// Whether an entry stands under `key`.
    pub fn contains_key(&self, key: &str) -> (present: bool)
        ensures
            present == has_key(self@, key@),
    {
        let wanted = key.to_owned();
        proof {
            lemma_find(self@, key@);
        }
        self.position(&wanted).is_some()
    }

    /// The entries, in the order in which their keys were first inserted.
    pub fn entries(&self) -> (entries: &Vec<Entry>)
        ensures
            entries@.len() == self@.len(),
            forall|i: int| 0 <= i < entries@.len() ==> (#[trigger] entries@[i])@ == self@[i],
            distinct_keys(self@),
    {
        proof {
            use_type_invariant(self);
        }
        &self.entries
    }
}

} // verus!
