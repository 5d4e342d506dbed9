//! The assembler backend: two-pass compilation of a flat node sequence
//! into encoded instruction bytes.
//!
//! Pass 1 walks the sequence and binds every label name to the
//! `(address-within-page, page)` pair of the next instruction, flagging
//! duplicate definitions and unexpected node kinds. Pass 2 compiles each
//! instruction node against a fixed argument-shape table, resolving label
//! references through the map. Errors accumulate; they never short-circuit
//! a pass, but pass 2 only runs when pass 1 found no error, and no bytes
//! are produced unless both passes are clean.

use crate::arch::{REG_ID_BITS, WORD_BITS};
use crate::instruction::{encode_instruction, encode_spec, Instruction};
use crate::node::{InstructionKind, LabelPropertyKind, Node, Register};
use crate::un::{mod_pow2, U};
use vstd::arithmetic::power2::{lemma_pow2_pos, lemma2_to64, pow2};
use vstd::bits::{lemma_u32_pow2_no_overflow, lemma_u32_shl_is_mul};
use vstd::prelude::*;

verus! {

/// What went wrong at one node of the input.
#[derive(Clone, Copy, Debug, PartialEq, Eq, Structural)]
pub enum CompilationErrorKind {
    /// A node appeared where only instructions and labels are valid.
    UnexpectedNodeKind,
    /// Argument count or shape does not match the opcode's required shape.
    BadInstructionArguments,
    /// A referenced label name was never defined.
    BadLabelReference,
    /// A label name was defined more than once.
    DuplicateLabel,
}

/// One diagnostic: an error kind and the zero-based index of the
/// offending node in the top-level sequence.
#[derive(Clone, Copy, Debug, PartialEq, Eq, Structural)]
pub struct CompilationError {
    pub kind: CompilationErrorKind,
    pub block_index: usize,
}

/// Whether a node is an instruction node; only those occupy an address.
pub open spec fn is_instruction_node(n: Node) -> bool {
    n matches Node::Instruction { .. }
}

/// The number of instruction nodes among the first `k` nodes: the
/// address the next instruction would occupy. Label nodes do not count.
pub open spec fn instructions_before(nodes: Seq<Node>, k: int) -> int
    decreases k,
{
    if k <= 0 {
        0
    } else {
        instructions_before(nodes, k - 1) + if is_instruction_node(nodes[k - 1]) {
            1int
        } else {
            0int
        }
    }
}

/// Whether node `k` defines the label `name`.
pub open spec fn label_def_at(nodes: Seq<Node>, k: int, name: Seq<char>) -> bool {
    0 <= k < nodes.len() && match nodes[k] {
        Node::Label { name: defined } => defined@ == name,
        _ => false,
    }
}

/// The index of the first definition of `name` in `nodes[from..upto]`,
/// or `-1` when there is none.
pub open spec fn first_label_def(nodes: Seq<Node>, name: Seq<char>, from: int, upto: int) -> int
    decreases upto - from,
{
    if from < 0 || from >= upto || from >= nodes.len() {
        -1
    } else if label_def_at(nodes, from, name) {
        from
    } else {
        first_label_def(nodes, name, from + 1, upto)
    }
}

/// Instructions per page: `2^pc_bits`.
pub open spec fn page_size(pc_bits: u32) -> int {
    pow2(pc_bits as nat) as int
}

/// What `name` resolves to after scanning `nodes[..upto]`: the
/// `(address-within-page, page)` pair of its first definition, derived
/// from the instruction count at that point, or `None` when undefined.
pub open spec fn label_lookup(nodes: Seq<Node>, name: Seq<char>, pc_bits: u32, upto: int) -> Option<
    (u32, u32),
> {
    let k = first_label_def(nodes, name, 0, upto);
    if k >= 0 {
        let c = instructions_before(nodes, k);
        Some(((c % page_size(pc_bits)) as u32, (c / page_size(pc_bits)) as u32))
    } else {
        None
    }
}

/// The pass-1 diagnostic for node `k`, if any: a duplicate label, or a
/// node kind that may not stand at the top level.
pub open spec fn pass1_error_at(nodes: Seq<Node>, k: int) -> Option<CompilationError> {
    match nodes[k] {
        Node::Label { name } => if first_label_def(nodes, name@, 0, k) >= 0 {
            Some(
                CompilationError {
                    kind: CompilationErrorKind::DuplicateLabel,
                    block_index: k as usize,
                },
            )
        } else {
            None
        },
        Node::Instruction { .. } => None,
        _ => Some(
            CompilationError {
                kind: CompilationErrorKind::UnexpectedNodeKind,
                block_index: k as usize,
            },
        ),
    }
}

/// All pass-1 diagnostics for `nodes[..upto]`, in node order.
pub open spec fn pass1_errors(nodes: Seq<Node>, upto: int) -> Seq<CompilationError>
    decreases upto,
{
    if upto <= 0 {
        Seq::empty()
    } else {
        pass1_errors(nodes, upto - 1) + match pass1_error_at(nodes, upto - 1) {
            Some(e) => seq![e],
            None => Seq::<CompilationError>::empty(),
        }
    }
}

/// First-match lookup in the label map's entry list. Entries are only
/// ever inserted for names not yet present, so the first match is the
/// only one.
pub open spec fn map_lookup(entries: Seq<(String, u32, u32)>, name: Seq<char>) -> Option<(u32, u32)>
    decreases entries.len(),
{
    if entries.len() == 0 {
        None
    } else if entries[0].0@ == name {
        Some((entries[0].1, entries[0].2))
    } else {
        map_lookup(entries.drop_first(), name)
    }
}

/// The numeric id a register literal assembles to.
pub open spec fn register_id_spec(register: Register) -> U {
    U {
        bits: REG_ID_BITS,
        value: match register {
            Register::A => 0u64,
            Register::X => 1u64,
            Register::Y => 2u64,
            Register::Z => 3u64,
        },
    }
}

/// Maps a register literal to its id field value.
pub fn register_to_id(register: Register) -> (r: U)
    ensures
        r == register_id_spec(register),
        r.wf(),
        r.bits == REG_ID_BITS,
{
    proof {
        lemma2_to64();
    }
    match register {
        Register::A => U { bits: REG_ID_BITS, value: 0 },
        Register::X => U { bits: REG_ID_BITS, value: 1 },
        Register::Y => U { bits: REG_ID_BITS, value: 2 },
        Register::Z => U { bits: REG_ID_BITS, value: 3 },
    }
}

/// The bad-argument diagnostic for node `idx`.
pub open spec fn bad_args(idx: int) -> CompilationError {
    CompilationError {
        kind: CompilationErrorKind::BadInstructionArguments,
        block_index: idx as usize,
    }
}

/// What compiling the instruction node at `idx` yields: the instruction
/// with its operands truncated to their field widths, or the diagnostic.
/// Label references resolve against the whole sequence, to the requested
/// property of the label.
pub open spec fn compile_instruction_spec(
    kind: InstructionKind,
    args: Seq<Node>,
    idx: int,
    nodes: Seq<Node>,
    pc_bits: u32,
) -> Result<Instruction, CompilationError> {
    match kind {
        InstructionKind::NOP => if args.len() == 0 {
            Ok(Instruction::NOP)
        } else {
            Err(bad_args(idx))
        },
        InstructionKind::STR => if args.len() == 1 {
            match args[0] {
                Node::RegisterLiteral { register } => Ok(
                    Instruction::STR { register_id: register_id_spec(register) },
                ),
                _ => Err(bad_args(idx)),
            }
        } else {
            Err(bad_args(idx))
        },
        InstructionKind::LOD => if args.len() == 1 {
            match args[0] {
                Node::RegisterLiteral { register } => Ok(
                    Instruction::LOD { register_id: register_id_spec(register) },
                ),
                _ => Err(bad_args(idx)),
            }
        } else {
            Err(bad_args(idx))
        },
        InstructionKind::LDI => if args.len() == 2 {
            match (args[0], args[1]) {
                (Node::RegisterLiteral { register }, Node::NumberLiteral { value }) => Ok(
                    Instruction::LDI {
                        register_id: register_id_spec(register),
                        immediate: U { bits: WORD_BITS, value: mod_pow2(value as u64, WORD_BITS) },
                    },
                ),
                _ => Err(bad_args(idx)),
            }
        } else {
            Err(bad_args(idx))
        },
        InstructionKind::MOV => if args.len() == 2 {
            match (args[0], args[1]) {
                (
                    Node::RegisterLiteral { register: r1 },
                    Node::RegisterLiteral { register: r2 },
                ) => Ok(
                    Instruction::MOV {
                        register_from_id: register_id_spec(r2),
                        register_to_id: register_id_spec(r1),
                    },
                ),
                _ => Err(bad_args(idx)),
            }
        } else {
            Err(bad_args(idx))
        },
        InstructionKind::OUT => if args.len() == 1 {
            match args[0] {
                Node::NumberLiteral { value } => Ok(
                    Instruction::OUT {
                        port_id: U { bits: WORD_BITS, value: mod_pow2(value as u64, WORD_BITS) },
                    },
                ),
                _ => Err(bad_args(idx)),
            }
        } else {
            Err(bad_args(idx))
        },
        InstructionKind::SEP => if args.len() == 1 {
            match args[0] {
                Node::NumberLiteral { value } => Ok(
                    Instruction::SEP {
                        pin_id: U { bits: WORD_BITS, value: mod_pow2(value as u64, WORD_BITS) },
                    },
                ),
                _ => Err(bad_args(idx)),
            }
        } else {
            Err(bad_args(idx))
        },
        InstructionKind::RSP => if args.len() == 1 {
            match args[0] {
                Node::NumberLiteral { value } => Ok(
                    Instruction::RSP {
                        pin_id: U { bits: WORD_BITS, value: mod_pow2(value as u64, WORD_BITS) },
                    },
                ),
                _ => Err(bad_args(idx)),
            }
        } else {
            Err(bad_args(idx))
        },
        InstructionKind::BRN => if args.len() == 1 {
            match args[0] {
                Node::LabelReference { label_name, reference_kind } => {
                    match label_lookup(nodes, label_name@, pc_bits, nodes.len() as int) {
                        Some(ap) => Ok(
                            Instruction::BRN {
                                immediate: U {
                                    bits: WORD_BITS,
                                    value: mod_pow2(
                                        (match reference_kind {
                                            LabelPropertyKind::Address => ap.0,
                                            LabelPropertyKind::Page => ap.1,
                                        }) as u64,
                                        WORD_BITS,
                                    ),
                                },
                            },
                        ),
                        None => Err(
                            CompilationError {
                                kind: CompilationErrorKind::BadLabelReference,
                                block_index: idx as usize,
                            },
                        ),
                    }
                },
                _ => Err(bad_args(idx)),
            }
        } else {
            Err(bad_args(idx))
        },
        InstructionKind::SSJ => if args.len() == 0 {
            Ok(Instruction::SSJ)
        } else {
            Err(bad_args(idx))
        },
        InstructionKind::RSJ => if args.len() == 0 {
            Ok(Instruction::RSJ)
        } else {
            Err(bad_args(idx))
        },
        InstructionKind::RET => if args.len() == 0 {
            Ok(Instruction::RET)
        } else {
            Err(bad_args(idx))
        },
        InstructionKind::SSF => if args.len() == 0 {
            Ok(Instruction::SSF)
        } else {
            Err(bad_args(idx))
        },
        InstructionKind::RSF => if args.len() == 0 {
            Ok(Instruction::RSF)
        } else {
            Err(bad_args(idx))
        },
        _ => Err(bad_args(idx)),
    }
}

/// The instructions pass 2 emits for `nodes[..upto]`, in order, skipping
/// nodes whose compilation fails.
pub open spec fn pass2_insts(nodes: Seq<Node>, pc_bits: u32, upto: int) -> Seq<Instruction>
    decreases upto,
{
    if upto <= 0 {
        Seq::empty()
    } else {
        let prev = pass2_insts(nodes, pc_bits, upto - 1);
        match nodes[upto - 1] {
            Node::Instruction { kind, arguments } => match compile_instruction_spec(
                kind,
                arguments@,
                upto - 1,
                nodes,
                pc_bits,
            ) {
                Ok(inst) => prev.push(inst),
                Err(_) => prev,
            },
            _ => prev,
        }
    }
}

/// The diagnostics pass 2 accumulates for `nodes[..upto]`, in node order.
pub open spec fn pass2_errors(nodes: Seq<Node>, pc_bits: u32, upto: int) -> Seq<CompilationError>
    decreases upto,
{
    if upto <= 0 {
        Seq::empty()
    } else {
        let prev = pass2_errors(nodes, pc_bits, upto - 1);
        match nodes[upto - 1] {
            Node::Instruction { kind, arguments } => match compile_instruction_spec(
                kind,
                arguments@,
                upto - 1,
                nodes,
                pc_bits,
            ) {
                Ok(_) => prev,
                Err(e) => prev.push(e),
            },
            Node::Label { .. } => prev,
            _ => prev.push(
                CompilationError {
                    kind: CompilationErrorKind::UnexpectedNodeKind,
                    block_index: (upto - 1) as usize,
                },
            ),
        }
    }
}

/// The instruction count never exceeds the number of nodes scanned.
proof fn lemma_instructions_before_le(nodes: Seq<Node>, k: int)
    requires
        k >= 0,
    ensures
        0 <= instructions_before(nodes, k) <= k,
    decreases k,
{
    if k > 0 {
        lemma_instructions_before_le(nodes, k - 1);
    }
}

/// Extending the scanned prefix by one node either keeps a name's first
/// definition, or finds it at the new node.
proof fn lemma_first_label_def_extend(nodes: Seq<Node>, name: Seq<char>, from: int, upto: int)
    requires
        0 <= from <= upto,
    ensures
        first_label_def(nodes, name, from, upto + 1) == if first_label_def(nodes, name, from, upto)
            >= 0 {
            first_label_def(nodes, name, from, upto)
        } else if label_def_at(nodes, upto, name) {
            upto as int
        } else {
            -1
        },
    decreases upto - from,
{
    if from < upto {
        if from < nodes.len() && !label_def_at(nodes, from, name) {
            lemma_first_label_def_extend(nodes, name, from + 1, upto);
        }
    } else {
        assert(first_label_def(nodes, name, from + 1, upto + 1) == -1);
    }
}

/// `first_label_def` never returns a later definition than any known one.
proof fn lemma_first_label_def_min(nodes: Seq<Node>, name: Seq<char>, from: int, upto: int, k: int)
    requires
        0 <= from <= k < upto,
        label_def_at(nodes, k, name),
    ensures
        ({
            let k0 = first_label_def(nodes, name, from, upto);
            from <= k0 <= k && label_def_at(nodes, k0, name)
        }),
    decreases k - from,
{
    if !label_def_at(nodes, from, name) {
        lemma_first_label_def_min(nodes, name, from + 1, upto, k);
    }
}

/// Duplicate definitions do not overwrite: however many times a name is
/// defined, it resolves to the address and page derived from the
/// instruction count at its earliest definition.
pub proof fn lemma_first_definition_wins(nodes: Seq<Node>, name: Seq<char>, pc_bits: u32, k: int)
    requires
        label_def_at(nodes, k, name),
    ensures
        ({
            let k0 = first_label_def(nodes, name, 0, nodes.len() as int);
            &&& 0 <= k0 <= k
            &&& label_def_at(nodes, k0, name)
            &&& label_lookup(nodes, name, pc_bits, nodes.len() as int) == Some(
                (
                    (instructions_before(nodes, k0) % page_size(pc_bits)) as u32,
                    (instructions_before(nodes, k0) / page_size(pc_bits)) as u32,
                ),
            )
        }),
{
    lemma_first_label_def_min(nodes, name, 0, nodes.len() as int, k);
}

/// Appending an entry leaves every present name's lookup unchanged and
/// binds the new name only if it was absent.
proof fn lemma_map_lookup_push(entries: Seq<(String, u32, u32)>, e: (String, u32, u32), name: Seq<char>)
    ensures
        map_lookup(entries.push(e), name) == if map_lookup(entries, name) is Some {
            map_lookup(entries, name)
        } else if e.0@ == name {
            Some((e.1, e.2))
        } else {
            None::<(u32, u32)>
        },
    decreases entries.len(),
{
    if entries.len() == 0 {
        assert(entries.push(e)[0] == e);
        assert(entries.push(e).drop_first() =~= Seq::<(String, u32, u32)>::empty());
        assert(map_lookup(Seq::<(String, u32, u32)>::empty(), name) is None);
        assert(map_lookup(entries, name) is None);
    } else {
        assert(entries.push(e)[0] == entries[0]);
        assert(entries.push(e).drop_first() =~= entries.drop_first().push(e));
        lemma_map_lookup_push(entries.drop_first(), e, name);
    }
}

/// Linear lookup of a name in the label map's entries.
fn lookup_label(entries: &Vec<(String, u32, u32)>, name: &String) -> (r: Option<(u32, u32)>)
    ensures
        r == map_lookup(entries@, name@),
{
    let n = entries.len();
    let mut i: usize = 0;
    proof {
        assert(entries@.skip(0) =~= entries@);
    }
    while i < n
        invariant
            i <= n,
            n == entries@.len(),
            map_lookup(entries@, name@) == map_lookup(entries@.skip(i as int), name@),
        decreases n - i,
    {
        let e = &entries[i];
        proof {
            assert(entries@.skip(i as int)[0] == entries@[i as int]);
            assert(entries@.skip(i as int).drop_first() =~= entries@.skip(i as int + 1));
        }
        if e.0 == *name {
            return Some((e.1, e.2));
        }
        i += 1;
    }
    proof {
        assert(entries@.skip(n as int) =~= Seq::<(String, u32, u32)>::empty());
    }
    None
}

/// Pass 1: walks the node sequence once, building the label map from the
/// running instruction counter. On any diagnostic the map is withheld and
/// the full list of pass-1 diagnostics is returned instead. The first
/// definition of a duplicated name wins.
pub fn build_label_map(nodes: &Vec<Node>, pc_bits: u32) -> (r: Result<
    Vec<(String, u32, u32)>,
    Vec<CompilationError>,
>)
    requires
        pc_bits < 32,
        nodes@.len() <= u32::MAX,
    ensures
        match r {
            Ok(m) => pass1_errors(nodes@, nodes@.len() as int).len() == 0 && forall|
                name: Seq<char>,
            |
                #[trigger] map_lookup(m@, name) == label_lookup(
                    nodes@,
                    name,
                    pc_bits,
                    nodes@.len() as int,
                ),
            Err(e) => e@ == pass1_errors(nodes@, nodes@.len() as int) && e@.len() > 0,
        },
{
    let mut map: Vec<(String, u32, u32)> = Vec::new();
    let mut errors: Vec<CompilationError> = Vec::new();
    let mut instruction_count: u32 = 0;
    proof {
        lemma_u32_pow2_no_overflow(pc_bits as nat);
        lemma_u32_shl_is_mul(1u32, pc_bits);
        lemma_pow2_pos(pc_bits as nat);
    }
    let instructions_per_page: u32 = 1u32 << pc_bits;
    let n = nodes.len();
    let mut i: usize = 0;
    while i < n
        invariant
            i <= n,
            n == nodes@.len(),
            nodes@.len() <= u32::MAX,
            instructions_per_page as int == page_size(pc_bits),
            instructions_per_page >= 1,
            instruction_count as int == instructions_before(nodes@, i as int),
            errors@ == pass1_errors(nodes@, i as int),
            forall|name: Seq<char>|
                #[trigger] map_lookup(map@, name) == label_lookup(nodes@, name, pc_bits, i as int),
        decreases n - i,
    {
        proof {
            lemma_instructions_before_le(nodes@, i as int);
        }
        let ghost map0 = map@;
        match &nodes[i] {
            Node::Label { name } => {
                let existing = lookup_label(&map, name);
                if existing.is_some() {
                    errors.push(
                        CompilationError {
                            kind: CompilationErrorKind::DuplicateLabel,
                            block_index: i,
                        },
                    );
                } else {
                    let address = instruction_count % instructions_per_page;
                    let page = instruction_count / instructions_per_page;
                    map.push((name.clone(), address, page));
                }
                proof {
                    assert forall|nm: Seq<char>|
                        #[trigger] map_lookup(map@, nm) == label_lookup(
                            nodes@,
                            nm,
                            pc_bits,
                            i as int + 1,
                        ) by {
                        lemma_first_label_def_extend(nodes@, nm, 0, i as int);
                        if map@ != map0 {
                            lemma_map_lookup_push(
                                map0,
                                map@[map0.len() as int],
                                nm,
                            );
                        }
                    }
                }
            },
            Node::Instruction { .. } => {
                instruction_count = instruction_count + 1;
                proof {
                    assert forall|nm: Seq<char>|
                        #[trigger] map_lookup(map@, nm) == label_lookup(
                            nodes@,
                            nm,
                            pc_bits,
                            i as int + 1,
                        ) by {
                        lemma_first_label_def_extend(nodes@, nm, 0, i as int);
                    }
                }
            },
            _ => {
                errors.push(
                    CompilationError {
                        kind: CompilationErrorKind::UnexpectedNodeKind,
                        block_index: i,
                    },
                );
                proof {
                    assert forall|nm: Seq<char>|
                        #[trigger] map_lookup(map@, nm) == label_lookup(
                            nodes@,
                            nm,
                            pc_bits,
                            i as int + 1,
                        ) by {
                        lemma_first_label_def_extend(nodes@, nm, 0, i as int);
                    }
                }
            },
        }
        i += 1;
    }
    if errors.len() == 0 {
        Ok(map)
    } else {
        Err(errors)
    }
}

/// Compiles one instruction node against the opcode's argument-shape
/// table, resolving label references through the map built by pass 1.
fn compile_instruction(
    kind: InstructionKind,
    arguments: &Vec<Node>,
    block_index: usize,
    label_map: &Vec<(String, u32, u32)>,
    Ghost(nodes): Ghost<Seq<Node>>,
    Ghost(pc_bits): Ghost<u32>,
) -> (r: Result<Instruction, CompilationError>)
    requires
        kind.implemented(),
        forall|name: Seq<char>|
            #[trigger] map_lookup(label_map@, name) == label_lookup(
                nodes,
                name,
                pc_bits,
                nodes.len() as int,
            ),
    ensures
        r == compile_instruction_spec(kind, arguments@, block_index as int, nodes, pc_bits),
        r matches Ok(inst) ==> inst.wf(),
{
    proof {
        lemma2_to64();
    }
    let bad = CompilationError {
        kind: CompilationErrorKind::BadInstructionArguments,
        block_index,
    };
    match kind {
        InstructionKind::NOP => if arguments.len() == 0 {
            Ok(Instruction::NOP)
        } else {
            Err(bad)
        },
        InstructionKind::STR => if arguments.len() == 1 {
            match &arguments[0] {
                Node::RegisterLiteral { register } => Ok(
                    Instruction::STR { register_id: register_to_id(*register) },
                ),
                _ => Err(bad),
            }
        } else {
            Err(bad)
        },
        InstructionKind::LOD => if arguments.len() == 1 {
            match &arguments[0] {
                Node::RegisterLiteral { register } => Ok(
                    Instruction::LOD { register_id: register_to_id(*register) },
                ),
                _ => Err(bad),
            }
        } else {
            Err(bad)
        },
        InstructionKind::LDI => if arguments.len() == 2 {
            match (&arguments[0], &arguments[1]) {
                (Node::RegisterLiteral { register }, Node::NumberLiteral { value }) => Ok(
                    Instruction::LDI {
                        register_id: register_to_id(*register),
                        immediate: U::new(WORD_BITS, *value as u64),
                    },
                ),
                _ => Err(bad),
            }
        } else {
            Err(bad)
        },
        InstructionKind::MOV => if arguments.len() == 2 {
            match (&arguments[0], &arguments[1]) {
                (
                    Node::RegisterLiteral { register: r1 },
                    Node::RegisterLiteral { register: r2 },
                ) => Ok(
                    Instruction::MOV {
                        register_from_id: register_to_id(*r2),
                        register_to_id: register_to_id(*r1),
                    },
                ),
                _ => Err(bad),
            }
        } else {
            Err(bad)
        },
        InstructionKind::OUT => if arguments.len() == 1 {
            match &arguments[0] {
                Node::NumberLiteral { value } => Ok(
                    Instruction::OUT { port_id: U::new(WORD_BITS, *value as u64) },
                ),
                _ => Err(bad),
            }
        } else {
            Err(bad)
        },
        InstructionKind::SEP => if arguments.len() == 1 {
            match &arguments[0] {
                Node::NumberLiteral { value } => Ok(
                    Instruction::SEP { pin_id: U::new(WORD_BITS, *value as u64) },
                ),
                _ => Err(bad),
            }
        } else {
            Err(bad)
        },
        InstructionKind::RSP => if arguments.len() == 1 {
            match &arguments[0] {
                Node::NumberLiteral { value } => Ok(
                    Instruction::RSP { pin_id: U::new(WORD_BITS, *value as u64) },
                ),
                _ => Err(bad),
            }
        } else {
            Err(bad)
        },
        InstructionKind::BRN => if arguments.len() == 1 {
            match &arguments[0] {
                Node::LabelReference { label_name, reference_kind } => {
                    match lookup_label(label_map, label_name) {
                        Some(pair) => {
                            let branch_address = match reference_kind {
                                LabelPropertyKind::Address => pair.0,
                                LabelPropertyKind::Page => pair.1,
                            };
                            Ok(
                                Instruction::BRN {
                                    immediate: U::new(WORD_BITS, branch_address as u64),
                                },
                            )
                        },
                        None => Err(
                            CompilationError {
                                kind: CompilationErrorKind::BadLabelReference,
                                block_index,
                            },
                        ),
                    }
                },
                _ => Err(bad),
            }
        } else {
            Err(bad)
        },
        InstructionKind::SSJ => if arguments.len() == 0 {
            Ok(Instruction::SSJ)
        } else {
            Err(bad)
        },
        InstructionKind::RSJ => if arguments.len() == 0 {
            Ok(Instruction::RSJ)
        } else {
            Err(bad)
        },
        InstructionKind::RET => if arguments.len() == 0 {
            Ok(Instruction::RET)
        } else {
            Err(bad)
        },
        InstructionKind::SSF => if arguments.len() == 0 {
            Ok(Instruction::SSF)
        } else {
            Err(bad)
        },
        InstructionKind::RSF => if arguments.len() == 0 {
            Ok(Instruction::RSF)
        } else {
            Err(bad)
        },
        _ => vstd::pervasive::unreached(),
    }
}

/// Compiles a block of nodes into the encoded byte program.
///
/// Pass 1 builds the label map; if it produced any diagnostic, those are
/// returned at once. Pass 2 then compiles every instruction node even
/// when earlier ones fail, accumulating every diagnostic. The result is
/// either the complete encoded program (when no diagnostic arose) or the
/// complete list of diagnostics - never a partial byte sequence.
pub fn compile(block: &Vec<Node>, pc_bits: u32) -> (r: Result<Vec<u8>, Vec<CompilationError>>)
    requires
        pc_bits < 32,
        block@.len() <= u32::MAX,
        forall|k: int| 0 <= k < block@.len() ==> (#[trigger] block@[k]).supported(),
    ensures
        ({
            let p1 = pass1_errors(block@, block@.len() as int);
            let p2e = pass2_errors(block@, pc_bits, block@.len() as int);
            let p2i = pass2_insts(block@, pc_bits, block@.len() as int);
            &&& p1.len() > 0 ==> (r matches Err(e) && e@ == p1)
            &&& p1.len() == 0 && p2e.len() > 0 ==> (r matches Err(e) && e@ == p2e)
            &&& p1.len() == 0 && p2e.len() == 0 ==> (r matches Ok(bytes) && bytes@
                == p2i.map_values(|inst: Instruction| encode_spec(inst)))
        }),
{
    let label_map = match build_label_map(block, pc_bits) {
        Ok(m) => m,
        Err(e) => {
            return Err(e);
        },
    };
    let mut result: Vec<Instruction> = Vec::new();
    let mut errors: Vec<CompilationError> = Vec::new();
    let n = block.len();
    let mut i: usize = 0;
    while i < n
        invariant
            i <= n,
            n == block@.len(),
            block@.len() <= u32::MAX,
            pc_bits < 32,
            forall|k: int| 0 <= k < block@.len() ==> (#[trigger] block@[k]).supported(),
            forall|name: Seq<char>|
                #[trigger] map_lookup(label_map@, name) == label_lookup(
                    block@,
                    name,
                    pc_bits,
                    block@.len() as int,
                ),
            result@ == pass2_insts(block@, pc_bits, i as int),
            errors@ == pass2_errors(block@, pc_bits, i as int),
            forall|k: int| 0 <= k < result@.len() ==> (#[trigger] result@[k]).wf(),
        decreases n - i,
    {
        match &block[i] {
            Node::Instruction { kind, arguments } => {
                match compile_instruction(
                    *kind,
                    arguments,
                    i,
                    &label_map,
                    Ghost(block@),
                    Ghost(pc_bits),
                ) {
                    Ok(inst) => result.push(inst),
                    Err(err) => errors.push(err),
                }
            },
            Node::Label { .. } => {},
            _ => {
                errors.push(
                    CompilationError {
                        kind: CompilationErrorKind::UnexpectedNodeKind,
                        block_index: i,
                    },
                );
            },
        }
        i += 1;
    }
    if errors.len() == 0 {
        let mut bytes: Vec<u8> = Vec::new();
        let m = result.len();
        let mut j: usize = 0;
        while j < m
            invariant
                j <= m,
                m == result@.len(),
                forall|k: int| 0 <= k < result@.len() ==> (#[trigger] result@[k]).wf(),
                bytes@.len() == j,
                forall|k: int| 0 <= k < j ==> bytes@[k] == encode_spec(#[trigger] result@[k]),
            decreases m - j,
        {
            bytes.push(encode_instruction(result[j]));
            j += 1;
        }
        proof {
            assert(bytes@ =~= result@.map_values(|inst: Instruction| encode_spec(inst)));
        }
        Ok(bytes)
    } else {
        Err(errors)
    }
}

} // verus!
