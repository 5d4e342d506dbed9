use toymachine::instruction::{decode_instruction, encode_instruction, Instruction};
use toymachine::un::U;

fn reg(v: u64) -> U {
    U::new(2, v)
}

fn word(v: u64) -> U {
    U::new(4, v)
}

fn assert_round_trips(i: Instruction) {
    assert_eq!(decode_instruction(encode_instruction(i)), Some(i));
}

#[test]
fn round_trip_zero_operand_instructions() {
    assert_round_trips(Instruction::NOP);
    assert_round_trips(Instruction::SSJ);
    assert_round_trips(Instruction::RSJ);
    assert_round_trips(Instruction::RET);
    assert_round_trips(Instruction::SSF);
    assert_round_trips(Instruction::RSF);
}

#[test]
fn round_trip_register_instructions() {
    for r in 0..4u64 {
        assert_round_trips(Instruction::STR { register_id: reg(r) });
        assert_round_trips(Instruction::LOD { register_id: reg(r) });
    }
}

#[test]
fn round_trip_ldi_exhaustive() {
    for r in 0..4u64 {
        for m in 0..16u64 {
            assert_round_trips(Instruction::LDI { register_id: reg(r), immediate: word(m) });
        }
    }
}

#[test]
fn round_trip_mov_exhaustive() {
    for f in 0..4u64 {
        for t in 0..4u64 {
            assert_round_trips(
                Instruction::MOV { register_from_id: reg(f), register_to_id: reg(t) },
            );
        }
    }
}

#[test]
fn round_trip_word_operand_instructions() {
    for v in 0..16u64 {
        assert_round_trips(Instruction::OUT { port_id: word(v) });
        assert_round_trips(Instruction::SEP { pin_id: word(v) });
        assert_round_trips(Instruction::RSP { pin_id: word(v) });
        assert_round_trips(Instruction::BRN { immediate: word(v) });
    }
}

#[test]
fn encode_exact_values() {
    assert_eq!(encode_instruction(Instruction::NOP), 0);
    assert_eq!(encode_instruction(Instruction::SSJ), 1);
    assert_eq!(encode_instruction(Instruction::RSJ), 2);
    assert_eq!(encode_instruction(Instruction::RET), 3);
    assert_eq!(encode_instruction(Instruction::SSF), 4);
    assert_eq!(encode_instruction(Instruction::RSF), 5);
    assert_eq!(encode_instruction(Instruction::STR { register_id: reg(1) }), 17);
    assert_eq!(encode_instruction(Instruction::LOD { register_id: reg(2) }), 22);
    assert_eq!(
        encode_instruction(
            Instruction::MOV { register_from_id: reg(1), register_to_id: reg(0) },
        ),
        36,
    );
    assert_eq!(encode_instruction(Instruction::OUT { port_id: word(1) }), 49);
    assert_eq!(encode_instruction(Instruction::SEP { pin_id: word(2) }), 66);
    assert_eq!(encode_instruction(Instruction::RSP { pin_id: word(3) }), 83);
    assert_eq!(encode_instruction(Instruction::BRN { immediate: word(14) }), 110);
    assert_eq!(
        encode_instruction(Instruction::LDI { register_id: reg(0), immediate: word(5) }),
        133,
    );
}

#[test]
fn decode_rejects_bytes_outside_the_encoding() {
    for b in 6..16u8 {
        assert_eq!(decode_instruction(b), None);
    }
    for b in 24..32u8 {
        assert_eq!(decode_instruction(b), None);
    }
    for b in 112..128u8 {
        assert_eq!(decode_instruction(b), None);
    }
    for b in 192..=255u8 {
        assert_eq!(decode_instruction(b), None);
    }
}

#[test]
fn construction_truncates_modulo_width() {
    assert_eq!(U::new(4, 23).value, 7);
    assert_eq!(U::new(4, 16).value, 0);
    assert_eq!(U::new(4, 15).value, 15);
    assert_eq!(U::new(2, 7).value, 3);
    assert_eq!(U::new(0, 5).value, 0);
    assert_eq!(U::new(8, 256).value, 0);
    assert_eq!(U::new(8, 511).value, 255);
}

#[test]
fn change_bits_extends_and_truncates() {
    let v = U::new(3, 5);
    let wide = v.change_bits(6);
    assert_eq!(wide.bits, 6);
    assert_eq!(wide.value, 5);
    let narrow = U::new(6, 45).change_bits(3);
    assert_eq!(narrow.bits, 3);
    assert_eq!(narrow.value, 45 % 8);
}

#[test]
fn bitwise_operations_stay_in_width() {
    assert_eq!(U::new(4, 0b1100).and(U::new(4, 0b1010)).value, 0b1000);
    assert_eq!(U::new(4, 0b1100).or(U::new(4, 0b1010)).value, 0b1110);
    assert_eq!(U::new(4, 0b0110).shl(2).value, 0b1000);
    assert_eq!(U::new(4, 0b0110).shr(1).value, 0b0011);
    assert_eq!(U::max(4).value, 15);
    assert_eq!(U::max(0).value, 0);
    assert_eq!(U::max(8).shl(4).value, 0xF0);
    assert_eq!(U::max(8).shr(4).value, 0x0F);
}
