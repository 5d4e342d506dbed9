//! Wiring and the splitter device.
//!
//! `Connectable` is the capability a device exposes for a signal of a
//! given width: hand out a shared handle to its store, or rewire its
//! store to another device's handle (a join, not a copy).
//!
//! A `Splitter` owns one wide store and two narrow stores whose widths
//! sum to the wide width, and reconciles the three every tick with a
//! last-writer-wins protocol: for each narrow side independently, if the
//! combined store was written more recently, its bits flow outward;
//! otherwise the narrow store's bits flow into its slice of the combined
//! store. Both directions are decided from the tick stamps as they stood
//! before the call.

use crate::device::Device;
use crate::store::{Store, Stores};
use crate::un::{mod_pow2, MAX_WIDTH, U};
use vstd::arithmetic::div_mod::{
    lemma_fundamental_div_mod, lemma_fundamental_div_mod_converse_div,
    lemma_fundamental_div_mod_converse_mod, lemma_mod_multiples_basic, lemma_small_mod,
};
use vstd::arithmetic::mul::{lemma_mul_inequality, lemma_mul_is_commutative};
use vstd::arithmetic::power2::{lemma_pow2_adds, lemma_pow2_pos, pow2};
use vstd::bits::{lemma_u64_low_bits_mask_is_mod, lemma_u64_pow2_no_overflow, lemma_u64_shl_is_mul};
use vstd::prelude::*;

verus! {

/// The capability of being wired into the store arena at one signal.
pub trait Connectable: Sized {
    /// The bit width of the signal at this connection point.
    spec fn conn_width(&self) -> u32;

    /// The arena slot this connection point currently uses.
    spec fn conn_ref(&self) -> usize;

    /// Hands out a shared handle to this device's store for the signal.
    fn get_value_ref(&self) -> (r: usize)
        ensures
            r == self.conn_ref(),
    ;

    /// Rewires this device's store to another device's handle, making
    /// the two the same store thereafter: both sides observe each
    /// other's writes on the next read.
    fn connect_to(&mut self, other_ref: usize)
        ensures
            final(self).conn_ref() == other_ref,
            final(self).conn_width() == old(self).conn_width(),
    ;
}

/// The low `low_width` bits of `v`.
pub open spec fn low_of(v: u64, low_width: u32) -> u64 {
    mod_pow2(v, low_width)
}

/// The bits of `v` above the low `low_width` bits.
pub open spec fn high_of(v: u64, low_width: u32) -> u64 {
    (v as nat / pow2(low_width as nat)) as u64
}

/// The wide value whose low bits are `lo` and whose remaining bits are
/// `hi`.
pub open spec fn combine(lo: u64, hi: u64, low_width: u32) -> u64 {
    (lo + hi * pow2(low_width as nat)) as u64
}

/// One reconciliation step over the three stores (combined, low, high),
/// decided from the tick stamps as they stood before the step:
/// - each narrow store takes its slice of the combined value if the
///   combined store is strictly newer, stamped with the current tick;
/// - each slice of the combined value is replaced by its narrow store's
///   value otherwise, and the combined store is then stamped with the
///   current tick.
pub open spec fn reconciled(c: Store, l: Store, h: Store, low_width: u32, tick: u32) -> (
    Store,
    Store,
    Store,
) {
    let c_newer_than_l = c.last_write_tick > l.last_write_tick;
    let c_newer_than_h = c.last_write_tick > h.last_write_tick;
    let new_l = if c_newer_than_l {
        Store {
            value: U { bits: l.value.bits, value: low_of(c.value.value, low_width) },
            last_write_tick: tick,
        }
    } else {
        l
    };
    let new_h = if c_newer_than_h {
        Store {
            value: U { bits: h.value.bits, value: high_of(c.value.value, low_width) },
            last_write_tick: tick,
        }
    } else {
        h
    };
    let new_c = if c_newer_than_l && c_newer_than_h {
        c
    } else {
        Store {
            value: U {
                bits: c.value.bits,
                value: combine(
                    if c_newer_than_l {
                        low_of(c.value.value, low_width)
                    } else {
                        l.value.value
                    },
                    if c_newer_than_h {
                        high_of(c.value.value, low_width)
                    } else {
                        h.value.value
                    },
                    low_width,
                ),
            },
            last_write_tick: tick,
        }
    };
    (new_c, new_l, new_h)
}

/// A device that keeps a wide store and two narrow stores mutually
/// consistent. The width invariant `low_width + high_width ==
/// width(combined)` is fixed at construction and never changes; any of
/// the three stores may later be rewired to another device's store.
#[derive(Clone, Copy, Debug)]
pub struct Splitter {
    /// Width of the low narrow store.
    pub low_width: u32,
    /// Width of the high narrow store.
    pub high_width: u32,
    /// Slot of the wide store.
    pub combined: usize,
    /// Slot of the low narrow store.
    pub low_end: usize,
    /// Slot of the high narrow store.
    pub high_end: usize,
}

impl Splitter {
    /// The wiring invariant: the three slots exist, are pairwise
    /// distinct, and carry the three widths, whose sum is supported.
    pub open spec fn wf(self, stores: Stores) -> bool {
        &&& self.low_width + self.high_width <= MAX_WIDTH
        &&& self.combined < stores.slots@.len()
        &&& self.low_end < stores.slots@.len()
        &&& self.high_end < stores.slots@.len()
        &&& self.combined != self.low_end
        &&& self.combined != self.high_end
        &&& self.low_end != self.high_end
        &&& stores.slot(self.combined as int).width() == self.low_width + self.high_width
        &&& stores.slot(self.low_end as int).width() == self.low_width
        &&& stores.slot(self.high_end as int).width() == self.high_width
    }

    /// Builds a splitter of the given widths, allocating its three
    /// stores (combined, low, high, in that order) zeroed at tick 0.
    pub fn new(low_width: u32, high_width: u32, stores: &mut Stores) -> (r: Splitter)
        requires
            low_width + high_width <= MAX_WIDTH,
            old(stores).wf(),
        ensures
            r.wf(*final(stores)),
            final(stores).wf(),
            r.low_width == low_width,
            r.high_width == high_width,
            final(stores).slots@ == old(stores).slots@.push(
                Store { value: U { bits: (low_width + high_width) as u32, value: 0 }, last_write_tick: 0 },
            ).push(Store { value: U { bits: low_width, value: 0 }, last_write_tick: 0 }).push(
                Store { value: U { bits: high_width, value: 0 }, last_write_tick: 0 },
            ),
            r.combined == old(stores).slots@.len(),
            r.low_end == old(stores).slots@.len() + 1,
            r.high_end == old(stores).slots@.len() + 2,
    {
        proof {
            lemma_u64_pow2_no_overflow((low_width + high_width) as nat);
            lemma_u64_pow2_no_overflow(low_width as nat);
            lemma_u64_pow2_no_overflow(high_width as nat);
        }
        let combined = stores.add_store(Store::new(U::new(low_width + high_width, 0)));
        let low_end = stores.add_store(Store::new(U::new(low_width, 0)));
        let high_end = stores.add_store(Store::new(U::new(high_width, 0)));
        Splitter { low_width, high_width, combined, low_end, high_end }
    }

    /// Adapts this splitter into its low-end connection point.
    pub fn as_low_end(self) -> (r: LowEnd)
        ensures
            r.splitter == self,
    {
        LowEnd { splitter: self }
    }

    /// Adapts this splitter into its high-end connection point.
    pub fn as_high_end(self) -> (r: HighEnd)
        ensures
            r.splitter == self,
    {
        HighEnd { splitter: self }
    }

    /// Performs one reconciliation over the three stores, exactly as
    /// [`reconciled`] describes, leaving every other slot untouched.
    pub fn reconcile(&self, stores: &mut Stores, tick: u32)
        requires
            self.wf(*old(stores)),
            old(stores).wf(),
        ensures
            final(stores).wf(),
            old(stores).same_shape(*final(stores)),
            self.wf(*final(stores)),
            forall|i: int|
                0 <= i < old(stores).slots@.len() && i != self.combined && i != self.low_end && i
                    != self.high_end ==> final(stores).slots@[i] == old(stores).slots@[i],
            ({
                let (nc, nl, nh) = reconciled(
                    old(stores).slot(self.combined as int),
                    old(stores).slot(self.low_end as int),
                    old(stores).slot(self.high_end as int),
                    self.low_width,
                    tick,
                );
                &&& final(stores).slot(self.combined as int) == nc
                &&& final(stores).slot(self.low_end as int) == nl
                &&& final(stores).slot(self.high_end as int) == nh
            }),
    {
        let combined_width = self.low_width + self.high_width;
        let c = stores.read(self.combined);
        let ct = stores.read_tick(self.combined);
        let l = stores.read(self.low_end);
        let lt = stores.read_tick(self.low_end);
        let h = stores.read(self.high_end);
        let ht = stores.read_tick(self.high_end);
        proof {
            lemma_pow2_pos(self.low_width as nat);
            lemma_pow2_pos(self.high_width as nat);
            lemma_pow2_adds(self.low_width as nat, self.high_width as nat);
            lemma_u64_pow2_no_overflow(self.low_width as nat);
            lemma_u64_pow2_no_overflow(self.high_width as nat);
            lemma_u64_pow2_no_overflow(combined_width as nat);
        }

        proof {
            lemma_split_parts(c.value, self.low_width, self.high_width);
        }

        // Low side.
        if ct > lt {
            stores.write(self.low_end, c.change_bits(self.low_width), tick);
        } else {
            let bottom_zeroed = c.shr(self.low_width).shl(self.low_width);
            proof {
                // The high part shifted back up is a multiple of the low
                // page that still fits the combined width.
                lemma_combine_parts(
                    0u64,
                    high_of(c.value, self.low_width),
                    self.low_width,
                    self.high_width,
                );
                lemma_small_mod(
                    (high_of(c.value, self.low_width) as nat * pow2(self.low_width as nat)) as nat,
                    pow2(combined_width as nat),
                );
                lemma_combine_parts(
                    l.value,
                    high_of(c.value, self.low_width),
                    self.low_width,
                    self.high_width,
                );
                lemma_or_disjoint_is_sum(
                    l.value,
                    bottom_zeroed.value,
                    self.low_width,
                );
            }
            stores.write(
                self.combined,
                bottom_zeroed.or(l.change_bits(combined_width)),
                tick,
            );
        }

        // High side, decided from the pre-step stamps.
        let c2 = stores.read(self.combined);
        proof {
            lemma_split_parts(c2.value, self.low_width, self.high_width);
        }
        if ct > ht {
            proof {
                lemma_high_part_bound(c.value, self.low_width, self.high_width);
                lemma_small_mod(
                    high_of(c.value, self.low_width) as nat,
                    pow2(self.high_width as nat),
                );
            }
            stores.write(
                self.high_end,
                c.shr(self.low_width).change_bits(self.high_width),
                tick,
            );
        } else {
            let top_zeroed = c2.change_bits(self.low_width).change_bits(combined_width);
            let high_shifted = h.change_bits(combined_width).shl(self.low_width);
            proof {
                lemma_combine_parts(
                    top_zeroed.value,
                    h.value,
                    self.low_width,
                    self.high_width,
                );
                lemma_combine_parts(0u64, h.value, self.low_width, self.high_width);
                lemma_small_mod(
                    (h.value as nat * pow2(self.low_width as nat)) as nat,
                    pow2(combined_width as nat),
                );
                lemma_or_disjoint_is_sum(top_zeroed.value, high_shifted.value, self.low_width);
            }
            stores.write(self.combined, top_zeroed.or(high_shifted), tick);
        }
    }
}

impl Device for Splitter {
    open spec fn inv(&self, stores: Stores) -> bool {
        self.wf(stores)
    }

    proof fn lemma_inv_shape(&self, s1: Stores, s2: Stores) {
    }

    fn tick(&mut self, stores: &mut Stores, tick: u32) {
        self.reconcile(stores, tick);
    }
}

impl Connectable for Splitter {
    open spec fn conn_width(&self) -> u32 {
        (self.low_width + self.high_width) as u32
    }

    open spec fn conn_ref(&self) -> usize {
        self.combined
    }

    fn get_value_ref(&self) -> usize {
        self.combined
    }

    fn connect_to(&mut self, other_ref: usize) {
        self.combined = other_ref;
    }
}

/// The splitter seen as its low-width connection point. The adapter
/// owns the splitter; take it back with [`LowEnd::into_splitter`].
#[derive(Clone, Copy, Debug)]
pub struct LowEnd {
    pub splitter: Splitter,
}

impl LowEnd {
    /// Returns the splitter, with whatever rewiring was done through
    /// this adapter.
    pub fn into_splitter(self) -> (r: Splitter)
        ensures
            r == self.splitter,
    {
        self.splitter
    }
}

impl Connectable for LowEnd {
    open spec fn conn_width(&self) -> u32 {
        self.splitter.low_width
    }

    open spec fn conn_ref(&self) -> usize {
        self.splitter.low_end
    }

    fn get_value_ref(&self) -> usize {
        self.splitter.low_end
    }

    fn connect_to(&mut self, other_ref: usize) {
        self.splitter.low_end = other_ref;
    }
}

/// The splitter seen as its high-width connection point.
#[derive(Clone, Copy, Debug)]
pub struct HighEnd {
    pub splitter: Splitter,
}

impl HighEnd {
    /// Returns the splitter, with whatever rewiring was done through
    /// this adapter.
    pub fn into_splitter(self) -> (r: Splitter)
        ensures
            r == self.splitter,
    {
        self.splitter
    }
}

impl Connectable for HighEnd {
    open spec fn conn_width(&self) -> u32 {
        self.splitter.high_width
    }

    open spec fn conn_ref(&self) -> usize {
        self.splitter.high_end
    }

    fn get_value_ref(&self) -> usize {
        self.splitter.high_end
    }

    fn connect_to(&mut self, other_ref: usize) {
        self.splitter.high_end = other_ref;
    }
}

/// Convergence from the low side: when the low store was written at the
/// current tick `t`, the combined store is older than `t` but newer than
/// the high store, reconciling at `t` drives the written value into the
/// combined store's low bits and stamps the combined store with `t`,
/// while the combined store's high bits and the low store itself are
/// unchanged.
pub proof fn lemma_splitter_converges_from_low(
    c: Store,
    l: Store,
    h: Store,
    low_width: u32,
    high_width: u32,
    t: u32,
)
    requires
        c.wf(),
        l.wf(),
        h.wf(),
        low_width + high_width <= MAX_WIDTH,
        c.value.bits == low_width + high_width,
        l.value.bits == low_width,
        h.value.bits == high_width,
        l.last_write_tick == t,
        c.last_write_tick < t,
        c.last_write_tick > h.last_write_tick,
    ensures
        ({
            let (nc, nl, nh) = reconciled(c, l, h, low_width, t);
            &&& low_of(nc.value.value, low_width) == l.value.value
            &&& high_of(nc.value.value, low_width) == high_of(c.value.value, low_width)
            &&& nc.last_write_tick == t
            &&& nl == l
        }),
{
    lemma_split_parts(c.value.value, low_width, high_width);
    lemma_combine_parts(
        l.value.value,
        high_of(c.value.value, low_width),
        low_width,
        high_width,
    );
}

/// Convergence from the combined side: when the combined store was
/// written at the current tick `t` and both narrow stores are older,
/// reconciling at `t` propagates the combined value outward instead -
/// the low store takes the masked low bits, the high store takes the
/// bits shifted right by the low width, both stamped with `t` - and the
/// combined store is untouched.
pub proof fn lemma_splitter_converges_from_combined(
    c: Store,
    l: Store,
    h: Store,
    low_width: u32,
    high_width: u32,
    t: u32,
)
    requires
        c.wf(),
        l.wf(),
        h.wf(),
        low_width + high_width <= MAX_WIDTH,
        c.value.bits == low_width + high_width,
        l.value.bits == low_width,
        h.value.bits == high_width,
        c.last_write_tick == t,
        l.last_write_tick < t,
        h.last_write_tick < t,
    ensures
        ({
            let (nc, nl, nh) = reconciled(c, l, h, low_width, t);
            &&& nc == c
            &&& nl.value.value == low_of(c.value.value, low_width)
            &&& nl.last_write_tick == t
            &&& nh.value.value == high_of(c.value.value, low_width)
            &&& nh.last_write_tick == t
        }),
{
}

/// Idempotence: reconciling twice at the same tick with no intervening
/// writes never changes a store's value the second time; and when the
/// first reconciliation leaves all three stores stamped with that tick,
/// the second changes nothing at all, stamps included.
pub proof fn lemma_splitter_tick_idempotent(
    c: Store,
    l: Store,
    h: Store,
    low_width: u32,
    high_width: u32,
    t: u32,
)
    requires
        c.wf(),
        l.wf(),
        h.wf(),
        low_width + high_width <= MAX_WIDTH,
        c.value.bits == low_width + high_width,
        l.value.bits == low_width,
        h.value.bits == high_width,
        c.last_write_tick <= t,
        l.last_write_tick <= t,
        h.last_write_tick <= t,
    ensures
        ({
            let (c1, l1, h1) = reconciled(c, l, h, low_width, t);
            let (c2, l2, h2) = reconciled(c1, l1, h1, low_width, t);
            &&& c2.value == c1.value
            &&& l2.value == l1.value
            &&& h2.value == h1.value
            &&& c1.last_write_tick == t && l1.last_write_tick == t && h1.last_write_tick == t
                ==> (c2 == c1 && l2 == l1 && h2 == h1)
        }),
{
    let cv = c.value.value;
    let lv = l.value.value;
    let hv = h.value.value;
    lemma_split_parts(cv, low_width, high_width);
    lemma_combine_parts(low_of(cv, low_width), hv, low_width, high_width);
    lemma_combine_parts(lv, high_of(cv, low_width), low_width, high_width);
    lemma_combine_parts(lv, hv, low_width, high_width);
}

/// A sum of a low part and a shifted high part fits the combined width,
/// and each part can be read back from it.
proof fn lemma_combine_parts(lo: u64, hi: u64, low_width: u32, high_width: u32)
    requires
        low_width + high_width <= MAX_WIDTH,
        (lo as nat) < pow2(low_width as nat),
        (hi as nat) < pow2(high_width as nat),
    ensures
        lo + hi * pow2(low_width as nat) < pow2((low_width + high_width) as nat),
        combine(lo, hi, low_width) == lo + hi * pow2(low_width as nat),
        low_of(combine(lo, hi, low_width), low_width) == lo,
        high_of(combine(lo, hi, low_width), low_width) == hi,
        (hi as int * pow2(low_width as nat) as int) % (pow2(low_width as nat) as int) == 0,
{
    let d = pow2(low_width as nat) as int;
    lemma_pow2_pos(low_width as nat);
    lemma_pow2_pos(high_width as nat);
    lemma_pow2_adds(low_width as nat, high_width as nat);
    lemma_u64_pow2_no_overflow((low_width + high_width) as nat);
    lemma_mul_inequality(hi as int, (pow2(high_width as nat) - 1) as int, d);
    lemma_mul_is_commutative(hi as int, d);
    lemma_mul_is_commutative((pow2(high_width as nat) - 1) as int, d);
    vstd::arithmetic::mul::lemma_mul_is_distributive_sub(d, pow2(high_width as nat) as int, 1);
    lemma_mod_multiples_basic(hi as int, d);
    let x = lo + hi as int * d;
    lemma_fundamental_div_mod_converse_div(x, d, hi as int, lo as int);
    lemma_fundamental_div_mod_converse_mod(x, d, hi as int, lo as int);
}

/// The combined value is exactly its two parts put back together.
proof fn lemma_split_parts(v: u64, low_width: u32, high_width: u32)
    requires
        low_width + high_width <= MAX_WIDTH,
        (v as nat) < pow2((low_width + high_width) as nat),
    ensures
        (low_of(v, low_width) as nat) < pow2(low_width as nat),
        (high_of(v, low_width) as nat) < pow2(high_width as nat),
        combine(low_of(v, low_width), high_of(v, low_width), low_width) == v,
{
    let d = pow2(low_width as nat) as int;
    lemma_pow2_pos(low_width as nat);
    lemma_high_part_bound(v, low_width, high_width);
    lemma_u64_pow2_no_overflow(low_width as nat);
    lemma_fundamental_div_mod(v as int, d);
    lemma_combine_parts(low_of(v, low_width), high_of(v, low_width), low_width, high_width);
}

/// A value below `2^low_width` ORed with a multiple of `2^low_width` is
/// their sum: the bit ranges are disjoint.
proof fn lemma_or_disjoint_is_sum(lo: u64, hp: u64, low_width: u32)
    requires
        low_width <= MAX_WIDTH,
        (lo as nat) < pow2(low_width as nat),
        (hp as nat) % pow2(low_width as nat) == 0,
    ensures
        (lo | hp) == lo + hp,
        (hp | lo) == lo + hp,
{
    let s: u64 = low_width as u64;
    lemma_u64_pow2_no_overflow(low_width as nat);
    lemma_u64_shl_is_mul(1u64, s);
    lemma_u64_low_bits_mask_is_mod(hp, low_width as nat);
    assert(hp & (((1u64 << s) - 1) as u64) == 0);
    assert((hp & (((1u64 << s) - 1) as u64)) == 0 && lo < (1u64 << s) ==> (lo | hp) == lo + hp
        && (hp | lo) == lo + hp) by (bit_vector)
        requires
            s < 64,
    ;
}

/// The high part of a value that fits `low_width + high_width` bits
/// fits `high_width` bits.
proof fn lemma_high_part_bound(v: u64, low_width: u32, high_width: u32)
    requires
        low_width + high_width <= MAX_WIDTH,
        (v as nat) < pow2((low_width + high_width) as nat),
    ensures
        (v as nat / pow2(low_width as nat)) < pow2(high_width as nat),
        high_of(v, low_width) as nat == v as nat / pow2(low_width as nat),
{
    lemma_pow2_pos(low_width as nat);
    lemma_pow2_pos(high_width as nat);
    lemma_pow2_adds(low_width as nat, high_width as nat);
    vstd::arithmetic::div_mod::lemma_multiply_divide_lt(
        v as int,
        pow2(low_width as nat) as int,
        pow2(high_width as nat) as int,
    );
    lemma_u64_pow2_no_overflow((low_width + high_width) as nat);
}

} // verus!
