//! The instruction set and its binary encoding.
//!
//! Every instruction packs into one byte: a tag in the high bits and the
//! operand fields at fixed offsets below it. Decoding is the exact
//! inverse, and `lemma_decode_encode` proves the round trip for every
//! well-formed instruction.

use crate::arch::{REG_ID_BITS, WORD_BITS};
use crate::un::U;
use vstd::arithmetic::div_mod::{
    lemma_fundamental_div_mod_converse_div, lemma_fundamental_div_mod_converse_mod,
};
use vstd::prelude::*;

verus! {

/// One decoded unit of the instruction set, tagged by opcode with typed
/// operand fields. Register ids are `REG_ID_BITS` wide; ports, pins and
/// immediates are `WORD_BITS` wide.
#[derive(Clone, Copy, Debug, PartialEq, Eq, Structural)]
pub enum Instruction {
    NOP,
    STR { register_id: U },
    LOD { register_id: U },
    LDI { register_id: U, immediate: U },
    MOV { register_from_id: U, register_to_id: U },
    OUT { port_id: U },
    SEP { pin_id: U },
    RSP { pin_id: U },
    BRN { immediate: U },
    SSJ,
    RSJ,
    RET,
    SSF,
    RSF,
}

/// A register-id operand: a well-formed `U` of width `REG_ID_BITS`.
pub open spec fn reg_operand(u: U) -> bool {
    u.wf() && u.bits == REG_ID_BITS
}

/// A word operand (port, pin or immediate): a well-formed `U` of width
/// `WORD_BITS`.
pub open spec fn word_operand(u: U) -> bool {
    u.wf() && u.bits == WORD_BITS
}

impl Instruction {
    /// Well-formedness: every operand field has its architecture-defined
    /// width and holds a value inside that width.
    pub open spec fn wf(self) -> bool {
        match self {
            Instruction::NOP => true,
            Instruction::STR { register_id } => reg_operand(register_id),
            Instruction::LOD { register_id } => reg_operand(register_id),
            Instruction::LDI { register_id, immediate } => reg_operand(register_id)
                && word_operand(immediate),
            Instruction::MOV { register_from_id, register_to_id } => reg_operand(register_from_id)
                && reg_operand(register_to_id),
            Instruction::OUT { port_id } => word_operand(port_id),
            Instruction::SEP { pin_id } => word_operand(pin_id),
            Instruction::RSP { pin_id } => word_operand(pin_id),
            Instruction::BRN { immediate } => word_operand(immediate),
            Instruction::SSJ => true,
            Instruction::RSJ => true,
            Instruction::RET => true,
            Instruction::SSF => true,
            Instruction::RSF => true,
        }
    }
}

/// The encoded byte of a well-formed instruction: the opcode's tag plus
/// its operand fields at their defined offsets.
pub open spec fn encode_spec(i: Instruction) -> u8 {
    match i {
        Instruction::NOP => 0u8,
        Instruction::SSJ => 1u8,
        Instruction::RSJ => 2u8,
        Instruction::RET => 3u8,
        Instruction::SSF => 4u8,
        Instruction::RSF => 5u8,
        Instruction::STR { register_id } => (16 + register_id.value) as u8,
        Instruction::LOD { register_id } => (20 + register_id.value) as u8,
        Instruction::MOV { register_from_id, register_to_id } => (32 + register_from_id.value * 4
            + register_to_id.value) as u8,
        Instruction::OUT { port_id } => (48 + port_id.value) as u8,
        Instruction::SEP { pin_id } => (64 + pin_id.value) as u8,
        Instruction::RSP { pin_id } => (80 + pin_id.value) as u8,
        Instruction::BRN { immediate } => (96 + immediate.value) as u8,
        Instruction::LDI { register_id, immediate } => (128 + register_id.value * 16
            + immediate.value) as u8,
    }
}

/// The instruction a byte decodes to, or `None` when the byte is not the
/// encoding of any supported instruction.
pub open spec fn decode_spec(b: u8) -> Option<Instruction> {
    let v = b as int;
    if v == 0 {
        Some(Instruction::NOP)
    } else if v == 1 {
        Some(Instruction::SSJ)
    } else if v == 2 {
        Some(Instruction::RSJ)
    } else if v == 3 {
        Some(Instruction::RET)
    } else if v == 4 {
        Some(Instruction::SSF)
    } else if v == 5 {
        Some(Instruction::RSF)
    } else if 16 <= v < 20 {
        Some(Instruction::STR { register_id: U { bits: REG_ID_BITS, value: (v - 16) as u64 } })
    } else if 20 <= v < 24 {
        Some(Instruction::LOD { register_id: U { bits: REG_ID_BITS, value: (v - 20) as u64 } })
    } else if 32 <= v < 48 {
        Some(
            Instruction::MOV {
                register_from_id: U { bits: REG_ID_BITS, value: ((v - 32) / 4) as u64 },
                register_to_id: U { bits: REG_ID_BITS, value: ((v - 32) % 4) as u64 },
            },
        )
    } else if 48 <= v < 64 {
        Some(Instruction::OUT { port_id: U { bits: WORD_BITS, value: (v - 48) as u64 } })
    } else if 64 <= v < 80 {
        Some(Instruction::SEP { pin_id: U { bits: WORD_BITS, value: (v - 64) as u64 } })
    } else if 80 <= v < 96 {
        Some(Instruction::RSP { pin_id: U { bits: WORD_BITS, value: (v - 80) as u64 } })
    } else if 96 <= v < 112 {
        Some(Instruction::BRN { immediate: U { bits: WORD_BITS, value: (v - 96) as u64 } })
    } else if 128 <= v < 192 {
        Some(
            Instruction::LDI {
                register_id: U { bits: REG_ID_BITS, value: ((v - 128) / 16) as u64 },
                immediate: U { bits: WORD_BITS, value: ((v - 128) % 16) as u64 },
            },
        )
    } else {
        None
    }
}

/// Encodes an instruction into its one-byte binary word.
pub fn encode_instruction(i: Instruction) -> (r: u8)
    requires
        i.wf(),
    ensures
        r == encode_spec(i),
{
    proof {
        vstd::arithmetic::power2::lemma2_to64();
    }
    match i {
        Instruction::NOP => 0,
        Instruction::SSJ => 1,
        Instruction::RSJ => 2,
        Instruction::RET => 3,
        Instruction::SSF => 4,
        Instruction::RSF => 5,
        Instruction::STR { register_id } => 16 + (register_id.value as u8),
        Instruction::LOD { register_id } => 20 + (register_id.value as u8),
        Instruction::MOV { register_from_id, register_to_id } => 32 + (register_from_id.value
            as u8) * 4 + (register_to_id.value as u8),
        Instruction::OUT { port_id } => 48 + (port_id.value as u8),
        Instruction::SEP { pin_id } => 64 + (pin_id.value as u8),
        Instruction::RSP { pin_id } => 80 + (pin_id.value as u8),
        Instruction::BRN { immediate } => 96 + (immediate.value as u8),
        Instruction::LDI { register_id, immediate } => 128 + (register_id.value as u8) * 16 + (
        immediate.value as u8),
    }
}

/// Decodes a byte back into an instruction, or `None` for a byte that no
/// supported instruction encodes to.
pub fn decode_instruction(b: u8) -> (r: Option<Instruction>)
    ensures
        r == decode_spec(b),
        r is Some ==> r.unwrap().wf(),
{
    proof {
        vstd::arithmetic::power2::lemma2_to64();
    }
    if b == 0 {
        Some(Instruction::NOP)
    } else if b == 1 {
        Some(Instruction::SSJ)
    } else if b == 2 {
        Some(Instruction::RSJ)
    } else if b == 3 {
        Some(Instruction::RET)
    } else if b == 4 {
        Some(Instruction::SSF)
    } else if b == 5 {
        Some(Instruction::RSF)
    } else if 16 <= b && b < 20 {
        Some(Instruction::STR { register_id: U { bits: REG_ID_BITS, value: (b - 16) as u64 } })
    } else if 20 <= b && b < 24 {
        Some(Instruction::LOD { register_id: U { bits: REG_ID_BITS, value: (b - 20) as u64 } })
    } else if 32 <= b && b < 48 {
        Some(
            Instruction::MOV {
                register_from_id: U { bits: REG_ID_BITS, value: ((b - 32) / 4) as u64 },
                register_to_id: U { bits: REG_ID_BITS, value: ((b - 32) % 4) as u64 },
            },
        )
    } else if 48 <= b && b < 64 {
        Some(Instruction::OUT { port_id: U { bits: WORD_BITS, value: (b - 48) as u64 } })
    } else if 64 <= b && b < 80 {
        Some(Instruction::SEP { pin_id: U { bits: WORD_BITS, value: (b - 64) as u64 } })
    } else if 80 <= b && b < 96 {
        Some(Instruction::RSP { pin_id: U { bits: WORD_BITS, value: (b - 80) as u64 } })
    } else if 96 <= b && b < 112 {
        Some(Instruction::BRN { immediate: U { bits: WORD_BITS, value: (b - 96) as u64 } })
    } else if 128 <= b && b < 192 {
        Some(
            Instruction::LDI {
                register_id: U { bits: REG_ID_BITS, value: ((b - 128) / 16) as u64 },
                immediate: U { bits: WORD_BITS, value: ((b - 128) % 16) as u64 },
            },
        )
    } else {
        None
    }
}

/// Round trip: decoding the encoding of any well-formed instruction gives
/// back exactly that instruction.
pub proof fn lemma_decode_encode(i: Instruction)
    requires
        i.wf(),
    ensures
        decode_spec(encode_spec(i)) == Some(i),
{
    vstd::arithmetic::power2::lemma2_to64();
    match i {
        Instruction::MOV { register_from_id, register_to_id } => {
            let f = register_from_id.value as int;
            let t = register_to_id.value as int;
            lemma_fundamental_div_mod_converse_div(f * 4 + t, 4, f, t);
            lemma_fundamental_div_mod_converse_mod(f * 4 + t, 4, f, t);
        },
        Instruction::LDI { register_id, immediate } => {
            let r = register_id.value as int;
            let m = immediate.value as int;
            lemma_fundamental_div_mod_converse_div(r * 16 + m, 16, r, m);
            lemma_fundamental_div_mod_converse_mod(r * 16 + m, 16, r, m);
        },
        _ => {},
    }
}

} // verus!
