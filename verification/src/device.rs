//! The device capability and the simulation driver.
//!
//! A device is anything advanced one discrete tick at a time. Devices
//! communicate only through the shared store arena; each one states, as
//! its `inv`, how it is wired into that arena.

use crate::store::Stores;
use vstd::prelude::*;

verus! {

/// The polymorphic capability of taking part in the simulation.
pub trait Device: Sized {
    /// The device's wiring invariant over the store arena: which slots
    /// it holds and at which widths.
    spec fn inv(&self, stores: Stores) -> bool;

    /// The wiring invariant depends only on the arena's shape (slot
    /// count and slot widths), never on values or tick stamps, so one
    /// device's tick cannot unwire another.
    proof fn lemma_inv_shape(&self, s1: Stores, s2: Stores)
        requires
            self.inv(s1),
            s1.same_shape(s2),
        ensures
            self.inv(s2),
    ;

    /// Advances the device by one tick. It may mutate stores it is
    /// wired to, but preserves the arena's shape and well-formedness.
    fn tick(&mut self, stores: &mut Stores, tick: u32)
        requires
            old(self).inv(*old(stores)),
            old(stores).wf(),
        ensures
            final(self).inv(*final(stores)),
            final(stores).wf(),
            old(stores).same_shape(*final(stores)),
    ;
}

/// Ticks every device, in the collection's fixed order, once per global
/// tick. The iteration order is part of the observable behaviour, since
/// devices compare already-recorded tick stamps.
///
/// `ticks` bounds the run; `None` runs until the 32-bit tick counter is
/// exhausted.
pub fn run_simulation<D: Device>(devices: &mut Vec<D>, stores: &mut Stores, ticks: Option<u32>)
    requires
        old(stores).wf(),
        forall|k: int|
            0 <= k < old(devices)@.len() ==> (#[trigger] old(devices)@[k]).inv(*old(stores)),
    ensures
        final(stores).wf(),
        final(devices)@.len() == old(devices)@.len(),
        old(stores).same_shape(*final(stores)),
        forall|k: int|
            0 <= k < final(devices)@.len() ==> (#[trigger] final(devices)@[k]).inv(*final(stores)),
{
    let limit: u32 = match ticks {
        Some(t) => t,
        None => u32::MAX,
    };
    let mut tick: u32 = 0;
    while tick < limit
        invariant
            stores.wf(),
            devices@.len() == old(devices)@.len(),
            old(stores).same_shape(*stores),
            forall|k: int|
                0 <= k < devices@.len() ==> (#[trigger] devices@[k]).inv(*stores),
        decreases limit - tick,
    {
        let n = devices.len();
        let mut d: usize = 0;
        while d < n
            invariant
                d <= n,
                n == devices@.len(),
                devices@.len() == old(devices)@.len(),
                stores.wf(),
                old(stores).same_shape(*stores),
                forall|k: int|
                    0 <= k < devices@.len() ==> (#[trigger] devices@[k]).inv(*stores),
            decreases n - d,
        {
            let ghost stores_before = *stores;
            let ghost devices_before = devices@;
            let device = &mut devices[d];
            device.tick(stores, tick);
            proof {
                assert forall|k: int|
                    0 <= k < devices@.len() implies (#[trigger] devices@[k]).inv(*stores) by {
                    if k != d {
                        assert(devices@[k] == devices_before[k]);
                        devices_before[k].lemma_inv_shape(stores_before, *stores);
                    }
                }
            }
            d += 1;
        }
        tick = tick + 1;
    }
}

} // verus!
