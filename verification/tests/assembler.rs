use toymachine::backend::{compile, CompilationErrorKind};
use toymachine::node::{InstructionKind, LabelPropertyKind, Node, Register};

fn inst(kind: InstructionKind, arguments: Vec<Node>) -> Node {
    Node::Instruction { kind, arguments }
}

fn label(name: &str) -> Node {
    Node::Label { name: String::from(name) }
}

fn reg_lit(register: Register) -> Node {
    Node::RegisterLiteral { register }
}

fn num_lit(value: u32) -> Node {
    Node::NumberLiteral { value }
}

fn label_ref(name: &str, reference_kind: LabelPropertyKind) -> Node {
    Node::LabelReference { label_name: String::from(name), reference_kind }
}

#[test]
fn assembles_a_full_program() {
    let block = vec![
        inst(InstructionKind::NOP, vec![]),
        inst(InstructionKind::LDI, vec![reg_lit(Register::A), num_lit(5)]),
        inst(InstructionKind::MOV, vec![reg_lit(Register::A), reg_lit(Register::X)]),
        inst(InstructionKind::OUT, vec![num_lit(1)]),
        inst(InstructionKind::SEP, vec![num_lit(2)]),
        inst(InstructionKind::RSP, vec![num_lit(3)]),
        inst(InstructionKind::STR, vec![reg_lit(Register::X)]),
        inst(InstructionKind::LOD, vec![reg_lit(Register::Y)]),
        inst(InstructionKind::SSJ, vec![]),
        inst(InstructionKind::RSJ, vec![]),
        inst(InstructionKind::RET, vec![]),
        inst(InstructionKind::SSF, vec![]),
        inst(InstructionKind::RSF, vec![]),
        inst(InstructionKind::BRN, vec![label_ref("end", LabelPropertyKind::Address)]),
        label("end"),
    ];
    let bytes = compile(&block, 4).unwrap();
    assert_eq!(bytes, vec![0, 133, 36, 49, 66, 83, 17, 22, 1, 2, 3, 4, 5, 110]);
}

#[test]
fn empty_block_compiles_to_no_bytes() {
    let bytes = compile(&vec![], 4).unwrap();
    assert_eq!(bytes, Vec::<u8>::new());
}

#[test]
fn labels_emit_no_bytes() {
    let block = vec![label("a"), inst(InstructionKind::NOP, vec![]), label("b")];
    assert_eq!(compile(&block, 4).unwrap(), vec![0]);
}

#[test]
fn label_resolves_within_its_page() {
    // I0 I1 L: I2 I3 with a page size of 16: L is at address 2, page 0.
    let block = vec![
        inst(InstructionKind::NOP, vec![]),
        inst(InstructionKind::NOP, vec![]),
        label("l"),
        inst(InstructionKind::NOP, vec![]),
        inst(InstructionKind::NOP, vec![]),
        inst(InstructionKind::BRN, vec![label_ref("l", LabelPropertyKind::Address)]),
    ];
    let bytes = compile(&block, 4).unwrap();
    assert_eq!(bytes, vec![0, 0, 0, 0, 96 + 2]);
}

#[test]
fn label_crossing_a_page_boundary() {
    // With a page size of 2, a label after two instructions is at
    // address 0 of page 1.
    let block = vec![
        inst(InstructionKind::NOP, vec![]),
        inst(InstructionKind::NOP, vec![]),
        label("l"),
        inst(InstructionKind::NOP, vec![]),
        inst(InstructionKind::BRN, vec![label_ref("l", LabelPropertyKind::Address)]),
        inst(InstructionKind::BRN, vec![label_ref("l", LabelPropertyKind::Page)]),
    ];
    let bytes = compile(&block, 1).unwrap();
    assert_eq!(bytes, vec![0, 0, 0, 96 + 0, 96 + 1]);
}

#[test]
fn two_bad_argument_instructions_give_two_errors_and_no_bytes() {
    let block = vec![
        inst(InstructionKind::STR, vec![]),
        inst(InstructionKind::OUT, vec![reg_lit(Register::A)]),
    ];
    let errors = compile(&block, 4).unwrap_err();
    assert_eq!(errors.len(), 2);
    assert_eq!(errors[0].kind, CompilationErrorKind::BadInstructionArguments);
    assert_eq!(errors[0].block_index, 0);
    assert_eq!(errors[1].kind, CompilationErrorKind::BadInstructionArguments);
    assert_eq!(errors[1].block_index, 1);
}

#[test]
fn duplicate_label_gives_one_error_at_the_second_definition() {
    let block = vec![label("l"), inst(InstructionKind::NOP, vec![]), label("l")];
    let errors = compile(&block, 4).unwrap_err();
    assert_eq!(errors.len(), 1);
    assert_eq!(errors[0].kind, CompilationErrorKind::DuplicateLabel);
    assert_eq!(errors[0].block_index, 2);
}

#[test]
fn unexpected_node_kind_at_top_level() {
    let block = vec![num_lit(7)];
    let errors = compile(&block, 4).unwrap_err();
    assert_eq!(errors.len(), 1);
    assert_eq!(errors[0].kind, CompilationErrorKind::UnexpectedNodeKind);
    assert_eq!(errors[0].block_index, 0);
}

#[test]
fn undefined_label_reference_is_reported() {
    let block = vec![
        inst(InstructionKind::NOP, vec![]),
        inst(InstructionKind::BRN, vec![label_ref("missing", LabelPropertyKind::Address)]),
    ];
    let errors = compile(&block, 4).unwrap_err();
    assert_eq!(errors.len(), 1);
    assert_eq!(errors[0].kind, CompilationErrorKind::BadLabelReference);
    assert_eq!(errors[0].block_index, 1);
}

#[test]
fn pass_two_is_skipped_when_pass_one_fails() {
    // The bad STR would be a pass-2 diagnostic; only the duplicate label
    // from pass 1 is reported.
    let block = vec![label("l"), label("l"), inst(InstructionKind::STR, vec![])];
    let errors = compile(&block, 4).unwrap_err();
    assert_eq!(errors.len(), 1);
    assert_eq!(errors[0].kind, CompilationErrorKind::DuplicateLabel);
    assert_eq!(errors[0].block_index, 1);
}

#[test]
fn oversized_immediate_is_truncated() {
    let block = vec![inst(InstructionKind::LDI, vec![reg_lit(Register::A), num_lit(100)])];
    // 100 mod 16 == 4.
    assert_eq!(compile(&block, 4).unwrap(), vec![128 + 4]);
}

#[test]
fn oversized_port_is_truncated() {
    let block = vec![inst(InstructionKind::OUT, vec![num_lit(20)])];
    // 20 mod 16 == 4.
    assert_eq!(compile(&block, 4).unwrap(), vec![48 + 4]);
}
