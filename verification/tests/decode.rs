use vb_core::cpu::decode::{Condition, DecodeError, Format, Op, decode, decode_slice, instruction_width};

fn short(opcode: u8, reg2: u8, reg1: u8) -> u16 {
    (u16::from(opcode) << 10) | (u16::from(reg2) << 5) | u16::from(reg1)
}

fn branch(cond: u8, disp: i16) -> u16 {
    let raw = u16::from_le_bytes(disp.to_le_bytes());
    0b100 << 13 | (u16::from(cond) << 9) | (raw & 0x01FF)
}

#[test]
fn widths_follow_the_opcode_boundary() {
    assert_eq!(instruction_width(short(0b000000, 0, 0)), 2);
    assert_eq!(instruction_width(short(0b011111, 0, 0)), 2);
    assert_eq!(instruction_width(branch(5, 0)), 2);
    assert_eq!(instruction_width(short(0b100111, 0, 0)), 2);
    assert_eq!(instruction_width(short(0b101000, 0, 0)), 4);
    assert_eq!(instruction_width(short(0b111111, 0, 0)), 4);
}

#[test]
fn format_width_agrees_with_instruction_width() {
    let cases = [
        short(0b000001, 3, 4),
        short(0b010000, 3, 4),
        branch(2, 8),
        short(0b101010, 0, 0),
        short(0b101000, 3, 4),
        short(0b110000, 3, 4),
    ];
    for word0 in cases {
        let decoded = decode(word0, 0).unwrap();
        assert_eq!(decoded.width, decoded.format.width());
        assert_eq!(decoded.width, instruction_width(word0));
    }
}

#[test]
fn decodes_format_i() {
    let decoded = decode(short(0b000010, 30, 7), 0).unwrap();
    assert_eq!(decoded.op, Op::Sub);
    assert_eq!(decoded.format, Format::I);
    assert_eq!(decoded.reg2, 30);
    assert_eq!(decoded.reg1, 7);
    assert_eq!(decoded.imm, 0);
}

#[test]
fn format_ii_sign_extends_arithmetic_immediates() {
    let decoded = decode(short(0b010000, 1, 0x1F), 0).unwrap();
    assert_eq!(decoded.op, Op::MovImm);
    assert_eq!(decoded.imm, -1);

    let decoded = decode(short(0b010001, 1, 0x10), 0).unwrap();
    assert_eq!(decoded.op, Op::AddImm);
    assert_eq!(decoded.imm, -16);
}

#[test]
fn format_ii_zero_extends_shift_immediates() {
    for (opcode, op) in [
        (0b010100u8, Op::ShlImm),
        (0b010101, Op::ShrImm),
        (0b010111, Op::SarImm),
    ] {
        let decoded = decode(short(opcode, 1, 0x1F), 0).unwrap();
        assert_eq!(decoded.op, op);
        assert_eq!(decoded.imm, 31);
    }
}

#[test]
fn format_ii_zero_extends_regid_and_vector() {
    assert_eq!(decode(short(0b011100, 2, 0x1F), 0).unwrap().imm, 31);
    assert_eq!(decode(short(0b011101, 2, 0x18), 0).unwrap().imm, 24);
    assert_eq!(decode(short(0b011000, 0, 0x1F), 0).unwrap().imm, 31);
}

#[test]
fn setf_carries_its_condition() {
    let decoded = decode(short(0b010010, 9, 0b0_1010), 0).unwrap();
    assert_eq!(decoded.op, Op::Setf);
    assert_eq!(decoded.cond, Some(Condition::NotZero));
    assert_eq!(decoded.reg2, 9);
}

#[test]
fn operandless_format_ii_instructions_clear_imm() {
    for (opcode, op) in [
        (0b010110u8, Op::Cli),
        (0b011001, Op::Reti),
        (0b011010, Op::Halt),
        (0b011110, Op::Sei),
    ] {
        let decoded = decode(short(opcode, 0, 0x1F), 0).unwrap();
        assert_eq!(decoded.op, op);
        assert_eq!(decoded.imm, 0);
    }
}

#[test]
fn decodes_bit_strings() {
    assert_eq!(decode(short(0b011111, 0, 0), 0).unwrap().op, Op::Sch0bsu);
    assert_eq!(
        decode(short(0b011111, 0, 0b01011), 0).unwrap().op,
        Op::Movbsu
    );
    assert_eq!(
        decode(short(0b011111, 0, 0b01111), 0).unwrap().op,
        Op::Notbsu
    );

    assert_eq!(
        decode(short(0b011111, 0, 0b00100), 0).unwrap_err(),
        DecodeError::IllegalSubOpcode {
            opcode: 0b011111,
            sub: 0b00100
        }
    );
    assert!(decode(short(0b011111, 0, 0b10000), 0).is_err());
}

#[test]
fn decodes_branches_with_signed_byte_displacement() {
    let decoded = decode(branch(6, -4), 0).unwrap();
    assert_eq!(decoded.op, Op::Bcond);
    assert_eq!(decoded.format, Format::III);
    assert_eq!(decoded.cond, Some(Condition::LessThan));
    assert_eq!(decoded.imm, -4);

    assert_eq!(decode(branch(0, 255), 0).unwrap().imm, 255);
    assert_eq!(decode(branch(0, -256), 0).unwrap().imm, -256);
}

#[test]
fn every_branch_condition_decodes() {
    for bits in 0u8..16 {
        let decoded = decode(branch(bits, 0), 0).unwrap();
        assert_eq!(decoded.cond, Some(Condition::from_bits(bits)));
    }
}

#[test]
fn decodes_format_iv_across_both_halfwords() {
    let decoded = decode(short(0b101011, 0, 0) | 0x0001, 0x0000).unwrap();
    assert_eq!(decoded.op, Op::Jal);
    assert_eq!(decoded.imm, 0x0001_0000);

    let all_ones = decode(short(0b101010, 0, 0) | 0x03FF, 0xFFFF).unwrap();
    assert_eq!(all_ones.op, Op::Jr);
    assert_eq!(all_ones.imm, -1);

    let max_positive = decode(short(0b101010, 0, 0) | 0x01FF, 0xFFFF).unwrap();
    assert_eq!(max_positive.imm, 0x01FF_FFFF);
}

#[test]
fn format_v_extension_depends_on_the_instruction() {
    assert_eq!(decode(short(0b101000, 1, 2), 0xFFFF).unwrap().imm, -1);
    assert_eq!(decode(short(0b101001, 1, 2), 0x8000).unwrap().imm, -32768);
    assert_eq!(decode(short(0b101100, 1, 2), 0xFFFF).unwrap().imm, 0xFFFF);
    assert_eq!(decode(short(0b101101, 1, 2), 0x8000).unwrap().imm, 0x8000);
    assert_eq!(decode(short(0b101111, 1, 2), 0xFFFF).unwrap().imm, 0xFFFF);
}

#[test]
fn format_vi_sign_extends_displacement() {
    let decoded = decode(short(0b110011, 5, 6), 0xFFFC).unwrap();
    assert_eq!(decoded.op, Op::LdW);
    assert_eq!(decoded.reg2, 5);
    assert_eq!(decoded.reg1, 6);
    assert_eq!(decoded.imm, -4);
}

#[test]
fn decodes_format_vii_sub_opcodes() {
    let word1 = |sub: u16| sub << 10;
    assert_eq!(
        decode(short(0b111110, 1, 2), word1(0b000100)).unwrap().op,
        Op::AddfS
    );
    assert_eq!(
        decode(short(0b111110, 1, 2), word1(0b001010)).unwrap().op,
        Op::Rev
    );
    assert_eq!(
        decode(short(0b111110, 1, 2), word1(0b001100)).unwrap().op,
        Op::Mpyhw
    );

    assert_eq!(
        decode(short(0b111110, 1, 2), word1(0b000001)).unwrap_err(),
        DecodeError::IllegalSubOpcode {
            opcode: 0b111110,
            sub: 0b000001
        }
    );
    assert!(decode(short(0b111110, 1, 2), word1(0b111111)).is_err());
}

#[test]
fn rejects_the_documented_illegal_opcodes() {
    for opcode in [0b011011u8, 0b110010, 0b110110] {
        assert_eq!(
            decode(short(opcode, 0, 0), 0).unwrap_err(),
            DecodeError::IllegalOpcode(opcode)
        );
    }
}

#[test]
fn every_opcode_either_decodes_or_reports_illegal() {
    for opcode in 0u8..64 {
        let word0 = short(opcode, 1, 2);
        match decode(word0, 0) {
            Ok(decoded) => assert_eq!(decoded.width, instruction_width(word0)),
            Err(DecodeError::IllegalOpcode(reported)) => assert_eq!(reported, opcode),
            Err(DecodeError::IllegalSubOpcode { .. }) => {}
            Err(other) => panic!("unexpected error for {opcode:#08b}: {}", other.to_string()),
        }
    }
}

#[test]
fn decode_slice_reports_truncation() {
    assert_eq!(
        decode_slice(&[]).unwrap_err(),
        DecodeError::Truncated {
            available: 0,
            needed: 2
        }
    );
    assert_eq!(
        decode_slice(&[0x00, 0xA8]).unwrap_err(),
        DecodeError::Truncated {
            available: 2,
            needed: 4
        }
    );
}

#[test]
fn decode_slice_reads_little_endian_halfwords() {
    let word0 = short(0b101000, 1, 2);
    let bytes = [word0.to_le_bytes()[0], word0.to_le_bytes()[1], 0xFF, 0xFF];
    let decoded = decode_slice(&bytes).unwrap();
    assert_eq!(decoded.op, Op::Movea);
    assert_eq!(decoded.imm, -1);
}

#[test]
fn format_vii_wins_over_the_format_vi_range() {
    let vii = decode(short(0b111110, 1, 2), 0b001010 << 10).unwrap();
    assert_eq!(vii.format, Format::VII);
    assert_eq!(vii.op, Op::Rev);

    let vi = decode(short(0b111111, 1, 2), 0x0004).unwrap();
    assert_eq!(vi.format, Format::VI);
    assert_eq!(vi.op, Op::OutW);
}

#[test]
fn condition_truth_table_matches_the_reference() {
    let cases: [(Condition, bool, bool, bool, bool, bool); 16] = [
        (Condition::Overflow, false, false, true, false, true),
        (Condition::Carry, false, false, false, true, true),
        (Condition::Zero, true, false, false, false, true),
        (Condition::NotHigher, true, false, false, false, true),
        (Condition::Negative, false, true, false, false, true),
        (Condition::Always, false, false, false, false, true),
        (Condition::LessThan, false, true, false, false, true),
        (Condition::LessOrEqual, true, false, false, false, true),
        (Condition::NotOverflow, false, false, true, false, false),
        (Condition::NotCarry, false, false, false, true, false),
        (Condition::NotZero, true, false, false, false, false),
        (Condition::Higher, true, false, false, false, false),
        (Condition::Positive, false, true, false, false, false),
        (Condition::Never, false, false, false, false, false),
        (Condition::GreaterOrEqual, false, true, false, false, false),
        (Condition::GreaterThan, true, false, false, false, false),
    ];

    for (cond, z, s, ov, cy, expected) in cases {
        assert_eq!(cond.evaluate(z, s, ov, cy), expected, "{cond:?}");
    }
}

#[test]
fn opposite_conditions_are_complementary() {
    let pairs = [
        (Condition::Overflow, Condition::NotOverflow),
        (Condition::Carry, Condition::NotCarry),
        (Condition::Zero, Condition::NotZero),
        (Condition::NotHigher, Condition::Higher),
        (Condition::Negative, Condition::Positive),
        (Condition::Always, Condition::Never),
        (Condition::LessThan, Condition::GreaterOrEqual),
        (Condition::LessOrEqual, Condition::GreaterThan),
    ];

    for flags in 0u8..16 {
        let z = flags & 1 != 0;
        let s = flags & 2 != 0;
        let ov = flags & 4 != 0;
        let cy = flags & 8 != 0;
        for (a, b) in pairs {
            assert_ne!(
                a.evaluate(z, s, ov, cy),
                b.evaluate(z, s, ov, cy),
                "{a:?} vs {b:?} with flags {flags:#06b}"
            );
        }
    }
}

#[test]
fn decode_errors_describe_themselves() {
    assert_eq!(DecodeError::IllegalOpcode(0b011011).to_string(), "illegal opcode 0b011011");
    assert_eq!(
        DecodeError::IllegalSubOpcode { opcode: 0b111110, sub: 0b000011 }.to_string(),
        "illegal sub-opcode 0b000011 for opcode 0b111110"
    );
    assert_eq!(DecodeError::Truncated { available: 2, needed: 4 }.to_string(), "need 4 bytes to decode, 2 available");
}

#[test]
fn only_register_and_immediate_forms_share_a_mnemonic() {
    assert_eq!(Op::Mov.mnemonic(), Op::MovImm.mnemonic());
    assert_eq!(Op::Sar.mnemonic(), Op::SarImm.mnemonic());
    assert_ne!(Op::Add.mnemonic(), Op::Addi.mnemonic());
    assert_ne!(Op::LdW.mnemonic(), Op::InW.mnemonic());
    assert_eq!(Op::LdW.mnemonic(), "ld.w");
    assert_eq!(Op::CvtWs.mnemonic(), "cvt.ws");
}
