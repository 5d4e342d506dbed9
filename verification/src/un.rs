//! Fixed-width unsigned values.
//!
//! A `U` is an unsigned integer constrained to a bit width chosen at
//! construction time. Every operation re-truncates its result into the
//! range `[0, 2^bits - 1]`, so truncation behaviour is identical wherever
//! it is needed: register ids, addresses, ports, pins and immediates all
//! use this one primitive.

use vstd::arithmetic::div_mod::{
    lemma_mod_multiples_basic, lemma_small_mod, lemma_truncate_middle,
};
use vstd::arithmetic::mul::{
    lemma_mul_is_associative, lemma_mul_is_commutative, lemma_mul_strict_inequality,
};
use vstd::arithmetic::power2::{lemma_pow2_adds, lemma_pow2_pos, lemma_pow2_strictly_increases, pow2};
use vstd::bits::{
    lemma_u64_low_bits_mask_is_mod, lemma_u64_pow2_no_overflow, lemma_u64_shl_is_mul,
    lemma_u64_shr_is_div, low_bits_mask,
};
use vstd::prelude::*;

verus! {

/// The widest value a `U` can hold, chosen so that `2^bits - 1` always
/// fits in the backing `u64`.
pub const MAX_WIDTH: u32 = 63;

/// An unsigned integer of a fixed bit width.
///
/// Invariant (`wf`): `value < 2^bits` and `bits <= MAX_WIDTH`.
#[derive(Clone, Copy, Debug, PartialEq, Eq, Structural, Hash)]
pub struct U {
    /// The bit width of this value.
    pub bits: u32,
    /// The numeric value, always below `2^bits`.
    pub value: u64,
}

/// `v` truncated to its low `bits` bits.
pub open spec fn mod_pow2(v: u64, bits: u32) -> u64 {
    v % (pow2(bits as nat) as u64)
}

/// Computes the all-ones mask for a width: `2^bits - 1`.
fn width_mask(bits: u32) -> (r: u64)
    requires
        bits <= MAX_WIDTH,
    ensures
        r as nat == low_bits_mask(bits as nat),
        r as nat == pow2(bits as nat) - 1,
{
    proof {
        lemma_u64_pow2_no_overflow(bits as nat);
        lemma_u64_shl_is_mul(1u64, bits as u64);
    }
    (1u64 << (bits as u64)) - 1
}

impl U {
    /// The representation invariant: the width is supported and the value
    /// lies in `[0, 2^bits - 1]`.
    pub open spec fn wf(self) -> bool {
        &&& self.bits <= MAX_WIDTH
        &&& (self.value as nat) < pow2(self.bits as nat)
    }

    /// Constructs a `bits`-wide value from a native integer, truncating:
    /// the result is exactly `value mod 2^bits`.
    pub fn new(bits: u32, value: u64) -> (r: U)
        requires
            bits <= MAX_WIDTH,
        ensures
            r.bits == bits,
            r.value == mod_pow2(value, bits),
            r.wf(),
    {
        let m = width_mask(bits);
        proof {
            lemma_u64_pow2_no_overflow(bits as nat);
            lemma_u64_low_bits_mask_is_mod(value, bits as nat);
        }
        U { bits, value: value & m }
    }

    /// Converts to a different width: truncates when narrowing, and keeps
    /// the value unchanged when widening (zero-extension).
    pub fn change_bits(self, new_bits: u32) -> (r: U)
        requires
            self.wf(),
            new_bits <= MAX_WIDTH,
        ensures
            r.bits == new_bits,
            r.value == mod_pow2(self.value, new_bits),
            r.wf(),
            self.bits <= new_bits ==> r.value == self.value,
    {
        proof {
            if self.bits <= new_bits {
                if self.bits < new_bits {
                    lemma_pow2_strictly_increases(self.bits as nat, new_bits as nat);
                }
                lemma_u64_pow2_no_overflow(new_bits as nat);
                lemma_small_mod(self.value as nat, pow2(new_bits as nat));
            }
        }
        U::new(new_bits, self.value)
    }

    /// Bitwise AND of two values of the same width.
    pub fn and(self, other: U) -> (r: U)
        requires
            self.wf(),
            other.wf(),
            self.bits == other.bits,
        ensures
            r.bits == self.bits,
            r.value == self.value & other.value,
            r.wf(),
    {
        proof {
            let x = self.value;
            let y = other.value;
            assert((x & y) <= x) by (bit_vector);
        }
        U { bits: self.bits, value: self.value & other.value }
    }

    /// Bitwise OR of two values of the same width.
    pub fn or(self, other: U) -> (r: U)
        requires
            self.wf(),
            other.wf(),
            self.bits == other.bits,
        ensures
            r.bits == self.bits,
            r.value == self.value | other.value,
            r.wf(),
    {
        proof {
            lemma_or_bound(self.value, other.value, self.bits);
        }
        U { bits: self.bits, value: self.value | other.value }
    }

    /// Left shift, re-masked to this value's width: the result is
    /// `(value * 2^amount) mod 2^bits`.
    pub fn shl(self, amount: u32) -> (r: U)
        requires
            self.wf(),
            amount <= MAX_WIDTH,
        ensures
            r.bits == self.bits,
            r.value as nat == (self.value as nat * pow2(amount as nat)) % pow2(self.bits as nat),
            r.wf(),
    {
        proof {
            lemma_pow2_pos(self.bits as nat);
        }
        if amount >= self.bits {
            proof {
                lemma_shl_discards_all(self.value, amount, self.bits);
            }
            U { bits: self.bits, value: 0 }
        } else {
            let keep = self.value & width_mask(self.bits - amount);
            proof {
                lemma_u64_pow2_no_overflow((self.bits - amount) as nat);
                lemma_u64_low_bits_mask_is_mod(self.value, (self.bits - amount) as nat);
                lemma_pow2_pos((self.bits - amount) as nat);
                // keep == value % 2^(bits - amount), so keep * 2^amount < 2^bits.
                lemma_pow2_adds((self.bits - amount) as nat, amount as nat);
                lemma_pow2_pos(amount as nat);
                lemma_mul_strict_inequality(
                    keep as int,
                    pow2((self.bits - amount) as nat) as int,
                    pow2(amount as nat) as int,
                );
                lemma_u64_pow2_no_overflow(self.bits as nat);
                lemma_u64_shl_is_mul(keep, amount as u64);
                lemma_shl_keeps_low_bits(self.value, amount, self.bits);
            }
            U { bits: self.bits, value: keep << (amount as u64) }
        }
    }

    /// Right shift: the result is `value / 2^amount`, at the same width.
    pub fn shr(self, amount: u32) -> (r: U)
        requires
            self.wf(),
            amount <= MAX_WIDTH,
        ensures
            r.bits == self.bits,
            r.value as nat == self.value as nat / pow2(amount as nat),
            r.wf(),
    {
        proof {
            lemma_u64_shr_is_div(self.value, amount as u64);
            lemma_pow2_pos(amount as nat);
            vstd::arithmetic::div_mod::lemma_div_nonincreasing(
                self.value as int,
                pow2(amount as nat) as int,
            );
        }
        U { bits: self.bits, value: self.value >> (amount as u64) }
    }

    /// The maximum representable value for a width: `2^bits - 1`.
    pub fn max(bits: u32) -> (r: U)
        requires
            bits <= MAX_WIDTH,
        ensures
            r.bits == bits,
            r.value as nat == pow2(bits as nat) - 1,
            r.wf(),
    {
        proof {
            lemma_pow2_pos(bits as nat);
        }
        U { bits, value: width_mask(bits) }
    }
}

/// The OR of two values below `2^bits` stays below `2^bits`.
proof fn lemma_or_bound(x: u64, y: u64, bits: u32)
    requires
        bits <= MAX_WIDTH,
        (x as nat) < pow2(bits as nat),
        (y as nat) < pow2(bits as nat),
    ensures
        ((x | y) as nat) < pow2(bits as nat),
{
    let s: u64 = bits as u64;
    lemma_u64_pow2_no_overflow(bits as nat);
    lemma_u64_shl_is_mul(1u64, s);
    assert(x < (1u64 << s) && y < (1u64 << s) ==> (x | y) < (1u64 << s)) by (bit_vector)
        requires
            s < 64,
    ;
}

/// Shifting left by at least the width clears every kept bit:
/// `(v * 2^amount) mod 2^bits == 0` when `amount >= bits`.
proof fn lemma_shl_discards_all(v: u64, amount: u32, bits: u32)
    requires
        bits <= amount <= MAX_WIDTH,
    ensures
        (v as nat * pow2(amount as nat)) % pow2(bits as nat) == 0,
{
    lemma_pow2_adds(bits as nat, (amount - bits) as nat);
    lemma_pow2_pos(bits as nat);
    lemma_pow2_pos((amount - bits) as nat);
    lemma_mul_is_associative(v as int, pow2((amount - bits) as nat) as int, pow2(bits as nat) as int);
    assert(v as nat * pow2(amount as nat) == (v as nat * pow2((amount - bits) as nat)) * pow2(
        bits as nat,
    ));
    lemma_mod_multiples_basic(
        (v as nat * pow2((amount - bits) as nat)) as int,
        pow2(bits as nat) as int,
    );
}

/// Shifting left keeps only the low `bits - amount` input bits:
/// `(v mod 2^(bits - amount)) * 2^amount == (v * 2^amount) mod 2^bits`.
proof fn lemma_shl_keeps_low_bits(v: u64, amount: u32, bits: u32)
    requires
        amount < bits <= MAX_WIDTH,
    ensures
        (v as nat % pow2((bits - amount) as nat)) * pow2(amount as nat) == (v as nat * pow2(
            amount as nat,
        )) % pow2(bits as nat),
{
    let a = pow2(amount as nat) as int;
    let c = pow2((bits - amount) as nat) as int;
    lemma_pow2_pos(amount as nat);
    lemma_pow2_pos((bits - amount) as nat);
    lemma_pow2_adds(amount as nat, (bits - amount) as nat);
    lemma_truncate_middle(v as int, a, c);
    assert((a * v) % (a * c) == a * (v as int % c));
    lemma_mul_is_commutative(v as int, a);
    lemma_mul_is_commutative(v as int % c, a);
}

} // verus!
