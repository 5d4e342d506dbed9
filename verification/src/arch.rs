//! Architecture parameters shared by the assembler and the emulator
//! substrate: operand field widths and the program-counter width that
//! fixes the page size.

use vstd::prelude::*;

verus! {

/// Width of the machine word used for ports, pins and immediates.
pub const WORD_BITS: u32 = 4;

/// Width of a register id; the register file holds four registers.
pub const REG_ID_BITS: u32 = 2;

/// Width of the program counter within a page; a page holds
/// `2^PC_BITS` instructions.
pub const PC_BITS: u32 = 4;

/// Size in bytes of a loaded program image.
pub const PROGRAM_MEMORY_SIZE: usize = 256;

} // verus!
