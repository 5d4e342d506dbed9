//! Tick-stamped value stores and the arena that holds them.
//!
//! A store is the unit of shared wiring state: a fixed-width value plus
//! the simulation tick at which it was last written. All stores live in
//! one arena and devices hold stable slot indices into it; rewiring a
//! device replaces the index it holds, never a slot's identity.

use crate::un::U;
use vstd::prelude::*;

verus! {

/// A versioned value cell: the current value and the tick at which it
/// was last written.
#[derive(Clone, Copy, Debug, PartialEq, Eq, Structural)]
pub struct Store {
    pub value: U,
    pub last_write_tick: u32,
}

impl Store {
    /// A store is well formed when its value is.
    pub open spec fn wf(self) -> bool {
        self.value.wf()
    }

    /// The bit width of the signal this store carries.
    pub open spec fn width(self) -> u32 {
        self.value.bits
    }

    /// A fresh store holding `value`, stamped with tick 0.
    pub fn new(value: U) -> (r: Store)
        ensures
            r.value == value,
            r.last_write_tick == 0,
    {
        Store { value, last_write_tick: 0 }
    }

    /// Reads the current value.
    pub fn get(&self) -> (r: U)
        ensures
            r == self.value,
    {
        self.value
    }

    /// Reads the tick of the last write.
    pub fn get_store_tick(&self) -> (r: u32)
        ensures
            r == self.last_write_tick,
    {
        self.last_write_tick
    }

    /// Writes a new value, stamped with the given tick.
    pub fn set(&mut self, value: U, tick: u32)
        ensures
            *final(self) == (Store { value, last_write_tick: tick }),
    {
        self.value = value;
        self.last_write_tick = tick;
    }
}

/// The arena of store slots. A slot index handed out by `add_store`
/// stays valid for the arena's whole life, and a slot's width never
/// changes once allocated.
pub struct Stores {
    pub slots: Vec<Store>,
}

impl Stores {
    /// Every slot holds a well-formed store.
    pub open spec fn wf(self) -> bool {
        forall|i: int| 0 <= i < self.slots@.len() ==> (#[trigger] self.slots@[i]).wf()
    }

    /// The store in slot `i`.
    pub open spec fn slot(self, i: int) -> Store {
        self.slots@[i]
    }

    /// Two arenas have the same shape when they have the same slots at
    /// the same widths; values and tick stamps may differ.
    pub open spec fn same_shape(self, other: Stores) -> bool {
        &&& self.slots@.len() == other.slots@.len()
        &&& forall|i: int|
            0 <= i < self.slots@.len() ==> (#[trigger] other.slots@[i]).width()
                == self.slots@[i].width()
    }

    /// An empty arena.
    pub fn new() -> (r: Stores)
        ensures
            r.slots@.len() == 0,
            r.wf(),
    {
        Stores { slots: Vec::new() }
    }

    /// Allocates a slot for `store` and returns its index.
    pub fn add_store(&mut self, store: Store) -> (id: usize)
        ensures
            final(self).slots@ == old(self).slots@.push(store),
            id == old(self).slots@.len(),
    {
        let id = self.slots.len();
        self.slots.push(store);
        id
    }

    /// Reads the value in slot `id`.
    pub fn read(&self, id: usize) -> (r: U)
        requires
            id < self.slots@.len(),
        ensures
            r == self.slot(id as int).value,
    {
        self.slots[id].get()
    }

    /// Reads the last-write tick of slot `id`.
    pub fn read_tick(&self, id: usize) -> (r: u32)
        requires
            id < self.slots@.len(),
        ensures
            r == self.slot(id as int).last_write_tick,
    {
        self.slots[id].get_store_tick()
    }

    /// Writes slot `id`, stamped with `tick`. The value must have the
    /// slot's width, so the arena's shape is preserved.
    pub fn write(&mut self, id: usize, value: U, tick: u32)
        requires
            id < old(self).slots@.len(),
            value.bits == old(self).slot(id as int).width(),
        ensures
            final(self).slots@ == old(self).slots@.update(
                id as int,
                Store { value, last_write_tick: tick },
            ),
    {
        let slot = &mut self.slots[id];
        slot.set(value, tick);
    }
}

} // verus!
