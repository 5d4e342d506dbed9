//! The abstract syntax consumed by the assembler backend.
//!
//! An external parser produces a flat sequence of nodes: instruction
//! nodes (with argument sub-nodes), label definitions, and the literal
//! and reference nodes that appear as instruction arguments. The backend
//! treats them as read-only input.

use vstd::prelude::*;

verus! {

/// A machine register named in source text.
#[derive(Clone, Copy, Debug, PartialEq, Eq, Structural)]
pub enum Register {
    A,
    X,
    Y,
    Z,
}

/// An opcode mnemonic recognised by the lexer. The assembler implements
/// a subset of these; see [`InstructionKind::implemented`].
#[derive(Clone, Copy, Debug, PartialEq, Eq, Structural)]
pub enum InstructionKind {
    NOP,
    STR,
    LOD,
    LDI,
    INC,
    DEC,
    MOV,
    INP,
    OUT,
    SEP,
    RSP,
    ADD,
    SUB,
    BOR,
    AND,
    CMP,
    GRT,
    LES,
    BRN,
    SSJ,
    RSJ,
    RET,
    SSF,
    RSF,
}

impl InstructionKind {
    /// Whether the assembler can encode this opcode. The remaining
    /// arithmetic/logic opcodes are recognised by the lexer but not yet
    /// implemented by the encoder.
    pub open spec fn implemented(self) -> bool {
        match self {
            InstructionKind::INC => false,
            InstructionKind::DEC => false,
            InstructionKind::INP => false,
            InstructionKind::ADD => false,
            InstructionKind::SUB => false,
            InstructionKind::BOR => false,
            InstructionKind::AND => false,
            InstructionKind::CMP => false,
            InstructionKind::GRT => false,
            InstructionKind::LES => false,
            _ => true,
        }
    }
}

/// Which property of a label a reference asks for: its address within
/// its page, or its page number.
#[derive(Clone, Copy, Debug, PartialEq, Eq, Structural)]
pub enum LabelPropertyKind {
    Address,
    Page,
}

/// One node of the parsed source.
#[derive(Debug)]
pub enum Node {
    /// An instruction with its argument sub-nodes.
    Instruction { kind: InstructionKind, arguments: Vec<Node> },
    /// A label definition, binding the name to the next instruction's
    /// address.
    Label { name: String },
    /// A register literal argument.
    RegisterLiteral { register: Register },
    /// A numeric literal argument.
    NumberLiteral { value: u32 },
    /// A reference to a label's address or page, as an argument.
    LabelReference { label_name: String, reference_kind: LabelPropertyKind },
}

impl Node {
    /// Whether this node, standing at the top level, names an opcode the
    /// assembler can encode. Non-instruction nodes place no demand.
    pub open spec fn supported(self) -> bool {
        match self {
            Node::Instruction { kind, .. } => kind.implemented(),
            _ => true,
        }
    }
}

} // verus!
