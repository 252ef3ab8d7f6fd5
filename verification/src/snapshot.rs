//! One cycle's readings, and the table that is built from them.
//!
//! A [`Snapshot`] holds what the metrics provider reported in one cycle as
//! plain values. [`build_table`] turns it into the table that is published;
//! [`entries_of`] says which table that is.

use crate::table::{
    distinct_keys, first_at, has_key, lemma_find, lemma_put, lookup, put, EntryView, Table, Value,
};
use vstd::prelude::*;

verus! {

/// Key of the global CPU utilisation, a percentage.
pub const CPU_USAGE: &'static str = "cpu usage";

/// Key of the amount of memory in use.
pub const USED_MEMORY: &'static str = "used memory";

/// Key of the total amount of memory.
pub const TOTAL_MEMORY: &'static str = "total memory";

/// Key of the amount of memory available for use.
pub const AVAILABLE_MEMORY: &'static str = "available memory";

/// Key of the amount of unallocated memory.
pub const FREE_MEMORY: &'static str = "free memory";

/// What one hardware component reported.
#[derive(Debug)]
pub struct ComponentReading {
    /// The component's display label.
    pub label: String,
    /// Its temperature as the bit pattern of a single-precision number, if it
    /// reported one.
    pub temperature: Option<u32>,
}

/// The model of a [`ComponentReading`].
pub struct ComponentView {
    pub label: Seq<char>,
    pub temperature: Option<u32>,
}

impl View for ComponentReading {
    type V = ComponentView;

    open spec fn view(&self) -> ComponentView {
        ComponentView { label: self.label@, temperature: self.temperature }
    }
}

/// The readings of one cycle.
#[derive(Debug)]
pub struct Snapshot {
    /// Global CPU utilisation as the bit pattern of a single-precision number.
    pub cpu_usage: u32,
    /// Memory in use.
    pub used_memory: u64,
    /// Total memory.
    pub total_memory: u64,
    /// Memory available for use.
    pub available_memory: u64,
    /// Unallocated memory, where the provider reports it.
    pub free_memory: Option<u64>,
    /// The hardware components, in the provider's order.
    pub components: Vec<ComponentReading>,
}

/// The model of a [`Snapshot`].
pub struct SnapshotView {
    pub cpu_usage: u32,
    pub used_memory: u64,
    pub total_memory: u64,
    pub available_memory: u64,
    pub free_memory: Option<u64>,
    pub components: Seq<ComponentView>,
}

impl View for Snapshot {
    type V = SnapshotView;

    open spec fn view(&self) -> SnapshotView {
        SnapshotView {
            cpu_usage: self.cpu_usage,
            used_memory: self.used_memory,
            total_memory: self.total_memory,
            available_memory: self.available_memory,
            free_memory: self.free_memory,
            components: self.components@.map_values(|c: ComponentReading| c@),
        }
    }
}

/// The entries under the fixed keys: CPU usage and the memory figures, in
/// this order, with free memory last where it was reported.
pub open spec fn fixed_entries(s: SnapshotView) -> Seq<EntryView> {
    let always = seq![
        (CPU_USAGE@, Value::Float(s.cpu_usage)),
        (USED_MEMORY@, Value::Integer(s.used_memory)),
        (TOTAL_MEMORY@, Value::Integer(s.total_memory)),
        (AVAILABLE_MEMORY@, Value::Integer(s.available_memory)),
    ];
    match s.free_memory {
        Some(free) => always.push((FREE_MEMORY@, Value::Integer(free))),
        None => always,
    }
}

/// `entries` after the components were entered in order: each one that
/// reports a temperature is stored under its label, the others are skipped.
pub open spec fn with_components(
    entries: Seq<EntryView>,
    components: Seq<ComponentView>,
) -> Seq<EntryView>
    decreases components.len(),
{
    if components.len() == 0 {
        entries
    } else {
        let before = with_components(entries, components.drop_last());
        match components.last().temperature {
            Some(bits) => put(before, components.last().label, Value::Float(bits)),
            None => before,
        }
    }
}

/// The table of a snapshot: the fixed entries, then the components.
pub open spec fn entries_of(s: SnapshotView) -> Seq<EntryView> {
    with_components(fixed_entries(s), s.components)
}

/// The five fixed keys differ from one another.
pub proof fn lemma_fixed_keys_differ()
    ensures
        CPU_USAGE@ != USED_MEMORY@,
        CPU_USAGE@ != TOTAL_MEMORY@,
        CPU_USAGE@ != AVAILABLE_MEMORY@,
        CPU_USAGE@ != FREE_MEMORY@,
        USED_MEMORY@ != TOTAL_MEMORY@,
        USED_MEMORY@ != AVAILABLE_MEMORY@,
        USED_MEMORY@ != FREE_MEMORY@,
        TOTAL_MEMORY@ != AVAILABLE_MEMORY@,
        TOTAL_MEMORY@ != FREE_MEMORY@,
        AVAILABLE_MEMORY@ != FREE_MEMORY@,
{
    reveal_strlit("cpu usage");
    reveal_strlit("used memory");
    reveal_strlit("total memory");
    reveal_strlit("available memory");
    reveal_strlit("free memory");
    assert(CPU_USAGE@.len() == 9);
    assert(USED_MEMORY@.len() == 11);
    assert(TOTAL_MEMORY@.len() == 12);
    assert(AVAILABLE_MEMORY@.len() == 16);
    assert(FREE_MEMORY@.len() == 11);
    assert(USED_MEMORY@[0] != FREE_MEMORY@[0]);
}

/// Storing under a key that is not present appends the pair.
proof fn lemma_put_fresh(entries: Seq<EntryView>, key: Seq<char>, value: Value)
    requires
        forall|i: int| 0 <= i < entries.len() ==> (#[trigger] entries[i]).0 != key,
    ensures
        put(entries, key, value) == entries.push((key, value)),
{
    lemma_find(entries, key);
}

/// Entering the fixed readings one after the other yields
/// [`fixed_entries`], whose keys are distinct.
proof fn lemma_fixed_entries(s: SnapshotView)
    ensures
        distinct_keys(fixed_entries(s)),
        fixed_entries(s) == {
            let e0 = put(Seq::empty(), CPU_USAGE@, Value::Float(s.cpu_usage));
            let e1 = put(e0, USED_MEMORY@, Value::Integer(s.used_memory));
            let e2 = put(e1, TOTAL_MEMORY@, Value::Integer(s.total_memory));
            let e3 = put(e2, AVAILABLE_MEMORY@, Value::Integer(s.available_memory));
            match s.free_memory {
                Some(free) => put(e3, FREE_MEMORY@, Value::Integer(free)),
                None => e3,
            }
        },
{
    lemma_fixed_keys_differ();
    let e0 = seq![(CPU_USAGE@, Value::Float(s.cpu_usage))];
    let e1 = e0.push((USED_MEMORY@, Value::Integer(s.used_memory)));
    let e2 = e1.push((TOTAL_MEMORY@, Value::Integer(s.total_memory)));
    let e3 = e2.push((AVAILABLE_MEMORY@, Value::Integer(s.available_memory)));
    lemma_put_fresh(Seq::empty(), CPU_USAGE@, Value::Float(s.cpu_usage));
    lemma_put_fresh(e0, USED_MEMORY@, Value::Integer(s.used_memory));
    lemma_put_fresh(e1, TOTAL_MEMORY@, Value::Integer(s.total_memory));
    lemma_put_fresh(e2, AVAILABLE_MEMORY@, Value::Integer(s.available_memory));
    assert(e3 =~= seq![
        (CPU_USAGE@, Value::Float(s.cpu_usage)),
        (USED_MEMORY@, Value::Integer(s.used_memory)),
        (TOTAL_MEMORY@, Value::Integer(s.total_memory)),
        (AVAILABLE_MEMORY@, Value::Integer(s.available_memory)),
    ]);
    if let Some(free) = s.free_memory {
        lemma_put_fresh(e3, FREE_MEMORY@, Value::Integer(free));
    }
}

/// Entering components keeps the keys distinct.
proof fn lemma_with_components_distinct(entries: Seq<EntryView>, components: Seq<ComponentView>)
    requires
        distinct_keys(entries),
    ensures
        distinct_keys(with_components(entries, components)),
    decreases components.len(),
{
    if components.len() > 0 {
        lemma_with_components_distinct(entries, components.drop_last());
        if let Some(bits) = components.last().temperature {
            lemma_put(
                with_components(entries, components.drop_last()),
                components.last().label,
                Value::Float(bits),
            );
        }
    }
}

/// Builds the table that is published for `snapshot`. The table is made from
/// the snapshot alone: nothing of an earlier cycle enters it.
pub fn build_table(snapshot: &Snapshot) -> (table: Table)
    ensures
        table@ == entries_of(snapshot@),
        distinct_keys(table@),
{
    let mut table = Table::new();
    table.insert(CPU_USAGE.to_owned(), Value::Float(snapshot.cpu_usage));
    table.insert(USED_MEMORY.to_owned(), Value::Integer(snapshot.used_memory));
    table.insert(TOTAL_MEMORY.to_owned(), Value::Integer(snapshot.total_memory));
    table.insert(AVAILABLE_MEMORY.to_owned(), Value::Integer(snapshot.available_memory));
    if let Some(free) = snapshot.free_memory {
        table.insert(FREE_MEMORY.to_owned(), Value::Integer(free));
    }
    proof {
        lemma_fixed_entries(snapshot@);
    }
    let mut i: usize = 0;
    while i < snapshot.components.len()
        invariant
            i <= snapshot.components.len(),
            table@ == with_components(fixed_entries(snapshot@), snapshot@.components.take(i as int)),
            distinct_keys(table@),
        decreases snapshot.components.len() - i,
    {
        let component = &snapshot.components[i];
        proof {
            let upto = snapshot@.components.take(i + 1);
            assert(upto.drop_last() =~= snapshot@.components.take(i as int));
        }
        if let Some(bits) = component.temperature {
            table.insert(component.label.clone(), Value::Float(bits));
        }
        i += 1;
    }
    proof {
        assert(snapshot@.components.take(i as int) =~= snapshot@.components);
    }
    table
}

/// The labels of the components that reported no temperature, in order.
pub open spec fn skipped_of(components: Seq<ComponentView>) -> Seq<Seq<char>>
    decreases components.len(),
{
    if components.len() == 0 {
        Seq::empty()
    } else {
        let before = skipped_of(components.drop_last());
        match components.last().temperature {
            Some(_) => before,
            None => before.push(components.last().label),
        }
    }
}

/// The labels of the components of `snapshot` that get no entry because they
/// reported no temperature. That is expected of some hardware and no error;
/// the caller may want to mention them in its diagnostics.
pub fn skipped_labels(snapshot: &Snapshot) -> (labels: Vec<String>)
    ensures
        labels@.map_values(|l: String| l@) == skipped_of(snapshot@.components),
{
    let mut labels: Vec<String> = Vec::new();
    let mut i: usize = 0;
    while i < snapshot.components.len()
        invariant
            i <= snapshot.components.len(),
            labels@.map_values(|l: String| l@) == skipped_of(
                snapshot@.components.take(i as int),
            ),
        decreases snapshot.components.len() - i,
    {
        let component = &snapshot.components[i];
        proof {
            let upto = snapshot@.components.take(i + 1);
            assert(upto.drop_last() =~= snapshot@.components.take(i as int));
        }
        if component.temperature.is_none() {
            let ghost before = labels@.map_values(|l: String| l@);
            labels.push(component.label.clone());
            assert(labels@.map_values(|l: String| l@) =~= before.push(component.label@));
        }
        i += 1;
    }
    proof {
        assert(snapshot@.components.take(i as int) =~= snapshot@.components);
    }
    labels
}

/// Whether component `i` stands under the label `key` and reports a
/// temperature.
pub open spec fn reports_at(components: Seq<ComponentView>, key: Seq<char>, i: int) -> bool {
    &&& 0 <= i < components.len()
    &&& components[i].label == key
    &&& components[i].temperature is Some
}

/// Whether some component labelled `key` reports a temperature.
pub open spec fn reports(components: Seq<ComponentView>, key: Seq<char>) -> bool {
    exists|i: int| reports_at(components, key, i)
}

/// Whether component `i` is the last one that reports a temperature under
/// the label `key`.
pub open spec fn last_report_at(components: Seq<ComponentView>, key: Seq<char>, i: int) -> bool {
    &&& reports_at(components, key, i)
    &&& forall|j: int| i < j < components.len() ==> !reports_at(components, key, j)
}

/// What entering components does to one key: the key is present afterwards
/// exactly if it was present before or a component reports under it; its
/// value is that of the last such component, and the old value where there is
/// none.
pub proof fn lemma_with_components(
    entries: Seq<EntryView>,
    components: Seq<ComponentView>,
    key: Seq<char>,
)
    ensures
        has_key(with_components(entries, components), key) <==> has_key(entries, key) || reports(
            components,
            key,
        ),
        !reports(components, key) ==> lookup(with_components(entries, components), key) == lookup(
            entries,
            key,
        ),
        forall|i: int| #[trigger]
            last_report_at(components, key, i) ==> lookup(
                with_components(entries, components),
                key,
            ) == Some(Value::Float(components[i].temperature->0)),
    decreases components.len(),
{
    if components.len() > 0 {
        let init = components.drop_last();
        let last = components.last();
        let before = with_components(entries, init);
        lemma_with_components(entries, init, key);
        assert forall|i: int| reports_at(init, key, i) implies reports_at(components, key, i) by {}
        if last.label == key && last.temperature is Some {
            assert(reports_at(components, key, init.len() as int));
            lemma_put(before, key, Value::Float(last.temperature->0));
        } else {
            if let Some(bits) = last.temperature {
                lemma_put(before, last.label, Value::Float(bits));
            }
            assert forall|i: int| reports_at(components, key, i) implies reports_at(
                init,
                key,
                i,
            ) by {}
            assert forall|i: int| #[trigger]
                last_report_at(components, key, i) implies last_report_at(init, key, i) by {
                assert forall|j: int| i < j < init.len() implies !reports_at(init, key, j) by {
                    assert(!reports_at(components, key, j));
                }
            }
        }
    }
}

/// No key occurs twice in the table of a snapshot.
pub proof fn lemma_entries_distinct(s: SnapshotView)
    ensures
        distinct_keys(entries_of(s)),
{
    lemma_fixed_entries(s);
    lemma_with_components_distinct(fixed_entries(s), s.components);
}

/// Whether the snapshot gives a value for `key`: as one of the four keys that
/// are always written, as the key of free memory where that was reported, or
/// as the label of a component that reports a temperature.
pub open spec fn provides(s: SnapshotView, key: Seq<char>) -> bool {
    ||| key == CPU_USAGE@
    ||| key == USED_MEMORY@
    ||| key == TOTAL_MEMORY@
    ||| key == AVAILABLE_MEMORY@
    ||| (key == FREE_MEMORY@ && s.free_memory is Some)
    ||| reports(s.components, key)
}

/// The keys of a snapshot's table are exactly those that the snapshot
/// provides. In particular a component without a temperature adds no key.
pub proof fn lemma_table_keys(s: SnapshotView, key: Seq<char>)
    ensures
        has_key(entries_of(s), key) <==> provides(s, key),
{
    lemma_with_components(fixed_entries(s), s.components, key);
    lemma_fixed_lookup(s);
    lemma_find(fixed_entries(s), key);
}

/// What stands under each fixed key before the components are entered.
proof fn lemma_fixed_lookup(s: SnapshotView)
    ensures
        lookup(fixed_entries(s), CPU_USAGE@) == Some(Value::Float(s.cpu_usage)),
        lookup(fixed_entries(s), USED_MEMORY@) == Some(Value::Integer(s.used_memory)),
        lookup(fixed_entries(s), TOTAL_MEMORY@) == Some(Value::Integer(s.total_memory)),
        lookup(fixed_entries(s), AVAILABLE_MEMORY@) == Some(Value::Integer(s.available_memory)),
        lookup(fixed_entries(s), FREE_MEMORY@) == match s.free_memory {
            Some(free) => Some(Value::Integer(free)),
            None => None,
        },
{
    lemma_fixed_keys_differ();
    let e = fixed_entries(s);
    assert(first_at(e, CPU_USAGE@, 0));
    assert(first_at(e, USED_MEMORY@, 1));
    assert(first_at(e, TOTAL_MEMORY@, 2));
    assert(first_at(e, AVAILABLE_MEMORY@, 3));
    if s.free_memory is Some {
        assert(first_at(e, FREE_MEMORY@, 4));
    }
    lemma_find(e, CPU_USAGE@);
    lemma_find(e, USED_MEMORY@);
    lemma_find(e, TOTAL_MEMORY@);
    lemma_find(e, AVAILABLE_MEMORY@);
    lemma_find(e, FREE_MEMORY@);
}

/// A fixed key under which no component reports holds the snapshot's own
/// reading.
pub proof fn lemma_fixed_values(s: SnapshotView)
    ensures
        !reports(s.components, CPU_USAGE@) ==> lookup(entries_of(s), CPU_USAGE@) == Some(
            Value::Float(s.cpu_usage),
        ),
        !reports(s.components, USED_MEMORY@) ==> lookup(entries_of(s), USED_MEMORY@) == Some(
            Value::Integer(s.used_memory),
        ),
        !reports(s.components, TOTAL_MEMORY@) ==> lookup(entries_of(s), TOTAL_MEMORY@) == Some(
            Value::Integer(s.total_memory),
        ),
        !reports(s.components, AVAILABLE_MEMORY@) ==> lookup(entries_of(s), AVAILABLE_MEMORY@)
            == Some(Value::Integer(s.available_memory)),
        !reports(s.components, FREE_MEMORY@) ==> lookup(entries_of(s), FREE_MEMORY@)
            == match s.free_memory {
            Some(free) => Some(Value::Integer(free)),
            None => None,
        },
{
    lemma_fixed_lookup(s);
    lemma_with_components(fixed_entries(s), s.components, CPU_USAGE@);
    lemma_with_components(fixed_entries(s), s.components, USED_MEMORY@);
    lemma_with_components(fixed_entries(s), s.components, TOTAL_MEMORY@);
    lemma_with_components(fixed_entries(s), s.components, AVAILABLE_MEMORY@);
    lemma_with_components(fixed_entries(s), s.components, FREE_MEMORY@);
}

/// The label of a component that reports a temperature holds that
/// temperature, unless a later component reports under the same label.
pub proof fn lemma_component_value(s: SnapshotView, i: int)
    requires
        last_report_at(s.components, s.components[i].label, i),
    ensures
        lookup(entries_of(s), s.components[i].label) == Some(
            Value::Float(s.components[i].temperature->0),
        ),
{
    lemma_with_components(fixed_entries(s), s.components, s.components[i].label);
}

/// A key of an earlier cycle's table does not linger: whatever `previous`
/// held, the table of `current` has `key` only if `current` itself provides
/// it. So the key of a component that has disappeared, or that has stopped
/// reporting, is gone from the next table.
pub proof fn lemma_no_stale_keys(previous: SnapshotView, current: SnapshotView, key: Seq<char>)
    requires
        !provides(current, key),
    ensures
        !has_key(entries_of(current), key),
        lookup(entries_of(current), key).is_none(),
{
    lemma_table_keys(current, key);
    lemma_find(entries_of(current), key);
}

} // verus!
