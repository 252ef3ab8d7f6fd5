//! Drawing a snapshot from the host through the `sysinfo` crate.
//!
//! `sysinfo` keeps the host's figures in two handles that are refreshed and
//! then read. What a refresh finds depends on the machine and is left open.
//! What the getters hand out depends on the handle alone, and is named here
//! so that [`Sampler::sample`] can say which handle each reading was read
//! from, and when it reads none at all.

use crate::snapshot::{ComponentReading, ComponentView, Snapshot, SnapshotView};
use vstd::prelude::*;

verus! {

/// `sysinfo::System`, the handle that holds the CPU and memory figures.
#[verifier::external_type_specification]
#[verifier::external_body]
pub struct ExSystem(sysinfo::System);

/// `sysinfo::Components`, the handle that holds the list of hardware
/// components.
#[verifier::external_type_specification]
#[verifier::external_body]
pub struct ExComponents(sysinfo::Components);

/// `sysinfo::Component`, one entry of that list. `Components` hands its
/// entries out by reference, so the type has to be known.
#[verifier::external_type_specification]
#[verifier::external_body]
pub struct ExComponent(sysinfo::Component);

/// The bit pattern of what `System::global_cpu_usage` returns for `system`.
pub uninterp spec fn cpu_usage_of(system: sysinfo::System) -> u32;

/// What `System::total_memory` returns for `system`.
pub uninterp spec fn total_memory_of(system: sysinfo::System) -> u64;

/// What `System::available_memory` returns for `system`.
pub uninterp spec fn available_memory_of(system: sysinfo::System) -> u64;

/// What `System::free_memory` returns for `system`.
pub uninterp spec fn free_memory_of(system: sysinfo::System) -> u64;

/// What `System::used_memory` returns for `system`.
pub uninterp spec fn used_memory_of(system: sysinfo::System) -> u64;

/// What `components` holds: for each component of `Components::list`, in
/// order, its label and the bit pattern of its temperature, if it has one.
pub uninterp spec fn components_of(components: sysinfo::Components) -> Seq<
    (Seq<char>, Option<u32>),
>;

/// `System::new` makes a handle with nothing loaded: it refreshes nothing,
/// and on every platform the handle starts with a CPU usage of zero and with
/// all memory figures at zero.
pub assume_specification[ sysinfo::System::new ]() -> (system: sysinfo::System)
    ensures
        cpu_usage_of(system) == 0,
        total_memory_of(system) == 0,
        available_memory_of(system) == 0,
        free_memory_of(system) == 0,
        used_memory_of(system) == 0,
;

/// `System::refresh_cpu_all` reads the CPU figures anew. What it finds is
/// the machine's affair: nothing is claimed of the handle afterwards.
pub assume_specification[ sysinfo::System::refresh_cpu_all ](system: &mut sysinfo::System);

/// `System::refresh_memory` reads the memory figures anew. Nothing is claimed
/// of the handle afterwards.
pub assume_specification[ sysinfo::System::refresh_memory ](system: &mut sysinfo::System);

/// `System::total_memory` is a getter: it returns the figure that the handle
/// holds.
pub assume_specification[ sysinfo::System::total_memory ](system: &sysinfo::System) -> (bytes: u64)
    ensures
        bytes == total_memory_of(*system),
;

/// `System::available_memory` is a getter: it returns the figure that the
/// handle holds.
pub assume_specification[ sysinfo::System::available_memory ](system: &sysinfo::System) -> (bytes: u64)
    ensures
        bytes == available_memory_of(*system),
;

/// `System::free_memory` is a getter: it returns the figure that the handle
/// holds.
pub assume_specification[ sysinfo::System::free_memory ](system: &sysinfo::System) -> (bytes: u64)
    ensures
        bytes == free_memory_of(*system),
;

/// `System::used_memory` returns a figure that depends on the handle alone.
/// On Linux and Windows it subtracts the available memory from the total,
/// which overflows where the handle holds more available than total memory;
/// such handles are left out.
pub assume_specification[ sysinfo::System::used_memory ](system: &sysinfo::System) -> (bytes: u64)
    requires
        available_memory_of(*system) <= total_memory_of(*system),
    ensures
        bytes == used_memory_of(*system),
;

/// `Components::new` makes an empty list.
pub assume_specification[ sysinfo::Components::new ]() -> (components: sysinfo::Components)
    ensures
        components_of(components).len() == 0,
;

/// `Components::refresh` reads the sensors anew, and drops the components
/// that are gone if asked to. Nothing is claimed of the list afterwards.
pub assume_specification[ sysinfo::Components::refresh ](
    components: &mut sysinfo::Components,
    remove_not_listed_components: bool,
);

/// Calls `System::global_cpu_usage`, a getter, and hands out the bit pattern
/// of the single-precision number that it returns.
#[verifier::external_body]
fn cpu_usage_bits(system: &sysinfo::System) -> (bits: u32)
    ensures
        bits == cpu_usage_of(*system),
{
    system.global_cpu_usage().to_bits()
}

/// Calls `Components::list` and hands out the length of the list.
#[verifier::external_body]
fn component_count(components: &sysinfo::Components) -> (count: usize)
    ensures
        count == components_of(*components).len(),
{
    components.list().len()
}

/// Calls `Component::label`, a getter, on the component at `index` of
/// `Components::list`, and hands out a copy of the label.
#[verifier::external_body]
fn component_label(components: &sysinfo::Components, index: usize) -> (label: String)
    requires
        index < components_of(*components).len(),
    ensures
        label@ == components_of(*components)[index as int].0,
{
    components.list()[index].label().to_owned()
}

/// Calls `Component::temperature`, a getter, on the component at `index` of
/// `Components::list`, and hands out the bit pattern of the temperature, if
/// the component has one.
#[verifier::external_body]
fn component_temperature(components: &sysinfo::Components, index: usize) -> (bits: Option<u32>)
    requires
        index < components_of(*components).len(),
    ensures
        bits == components_of(*components)[index as int].1,
{
    match components.list()[index].temperature() {
        Some(celsius) => Some(celsius.to_bits()),
        None => None,
    }
}

/// The two handles that a snapshot is drawn from. They are made once and
/// refreshed in every cycle.
pub struct Sampler {
    /// CPU and memory figures.
    pub system: sysinfo::System,
    /// The hardware components and their temperatures.
    pub components: sysinfo::Components,
}

/// Whether the memory figures of `system` fit together: no more memory is
/// available than there is.
pub open spec fn memory_is_consistent(system: sysinfo::System) -> bool {
    available_memory_of(system) <= total_memory_of(system)
}

/// The snapshot that the two handles hold.
pub open spec fn reading_of(
    system: sysinfo::System,
    components: sysinfo::Components,
) -> SnapshotView {
    SnapshotView {
        cpu_usage: cpu_usage_of(system),
        used_memory: used_memory_of(system),
        total_memory: total_memory_of(system),
        available_memory: available_memory_of(system),
        free_memory: Some(free_memory_of(system)),
        components: components_of(components).map_values(
            |c: (Seq<char>, Option<u32>)| ComponentView { label: c.0, temperature: c.1 },
        ),
    }
}

/// The snapshot that fresh handles hold, before anything was loaded: every
/// figure is zero and there is no component.
pub open spec fn nothing_loaded() -> SnapshotView {
    SnapshotView {
        cpu_usage: 0,
        used_memory: 0,
        total_memory: 0,
        available_memory: 0,
        free_memory: Some(0),
        components: Seq::empty(),
    }
}

impl Sampler {
    /// A sampler with fresh handles, nothing loaded. The figures of the host
    /// enter with the first [`Sampler::sample`].
    pub fn new() -> (sampler: Sampler)
        ensures
            reading_of(sampler.system, sampler.components) == nothing_loaded(),
            components_of(sampler.components).len() == 0,
            memory_is_consistent(sampler.system),
    {
        let sampler = Sampler {
            system: sysinfo::System::new(),
            components: sysinfo::Components::new(),
        };
        assert(reading_of(sampler.system, sampler.components).components =~= Seq::empty());
        sampler
    }

    /// Refreshes the CPU figures, the memory figures and the component list,
    /// and reads the snapshot that the handles then hold.
    ///
    /// Sampling fails, with `None`, exactly where the refreshed memory figures
    /// do not fit together; the cycle then has nothing to publish.
    pub fn sample(&mut self) -> (snapshot: Option<Snapshot>)
        ensures
            match snapshot {
                Some(s) => {
                    &&& memory_is_consistent(final(self).system)
                    &&& s@ == reading_of(final(self).system, final(self).components)
                },
                None => !memory_is_consistent(final(self).system),
            },
    {
        self.system.refresh_cpu_all();
        self.system.refresh_memory();
        self.components.refresh(false);
        let total_memory = self.system.total_memory();
        let available_memory = self.system.available_memory();
        if available_memory > total_memory {
            return None;
        }
        let cpu_usage = cpu_usage_bits(&self.system);
        let used_memory = self.system.used_memory();
        let free_memory = self.system.free_memory();
        let count = component_count(&self.components);
        let mut components: Vec<ComponentReading> = Vec::new();
        let mut i: usize = 0;
        while i < count
            invariant
                i <= count,
                count == components_of(self.components).len(),
                components@.len() == i,
                forall|j: int|
                    0 <= j < i ==> {
                        &&& (#[trigger] components@[j]).label@ == components_of(self.components)[j].0
                        &&& components@[j].temperature == components_of(self.components)[j].1
                    },
            decreases count - i,
        {
            let label = component_label(&self.components, i);
            let temperature = component_temperature(&self.components, i);
            components.push(ComponentReading { label, temperature });
            i += 1;
        }
        let snapshot = Snapshot {
            cpu_usage,
            used_memory,
            total_memory,
            available_memory,
            free_memory: Some(free_memory),
            components,
        };
        assert(snapshot@.components =~= reading_of(self.system, self.components).components);
        Some(snapshot)
    }
}

} // verus!
