use vb_core::cart::{
    Cart, GAME_CODE_LEN, GAME_CODE_START, HEADER_OFFSET_FROM_END, MAKER_CODE_LEN, MAKER_CODE_START, TITLE_LEN,
    VERSION_START,
};
use vb_core::bus::Bus;
use vb_core::cpu::exec::{EXC_ADDRESS_TRAP, EXC_ILLEGAL_OPCODE, EXC_TRAP_BASE, EXC_ZERO_DIVISION, Exception, HANDLER_ADDRESS_TRAP, HANDLER_DUPLEXED, HANDLER_ILLEGAL_OPCODE, HANDLER_TRAP_HIGH, HANDLER_TRAP_LOW, HANDLER_ZERO_DIVISION, StepOutcome, Stop};
use vb_core::cpu::state::{Cpu, PIR_VALUE, PSW_AE, PSW_CY, PSW_EP, PSW_ID, PSW_NP, PSW_OV, PSW_S, PSW_Z, SR_ECR, SR_PIR, SR_PSW};
use vb_core::cpu::decode::{Op};

fn test_rom(len: usize) -> Vec<u8> {
    let mut rom = vec![0u8; len];
    let base = len - HEADER_OFFSET_FROM_END;
    rom[base..base + TITLE_LEN].copy_from_slice(b"VERMILLION TEST ROM ");
    rom[base + MAKER_CODE_START..base + MAKER_CODE_START + MAKER_CODE_LEN].copy_from_slice(b"01");
    rom[base + GAME_CODE_START..base + GAME_CODE_START + GAME_CODE_LEN].copy_from_slice(b"VTRE");
    rom[base + VERSION_START] = 0x02;
    rom
}

const ROM_BASE: u32 = 0x0700_0000;

fn short(opcode: u8, reg2: u8, reg1: u8) -> u16 {
    (u16::from(opcode) << 10) | (u16::from(reg2) << 5) | u16::from(reg1)
}

fn branch(cond: u8, disp: i16) -> u16 {
    let raw = u16::from_le_bytes(disp.to_le_bytes());
    0b100 << 13 | (u16::from(cond) << 9) | (raw & 0x01FF)
}

fn machine(program: &[u16]) -> (Cpu, Bus) {
    let mut rom = test_rom(0x1000);
    for (index, word) in program.iter().enumerate() {
        let offset = index * 2;
        rom[offset..offset + 2].copy_from_slice(&word.to_le_bytes());
    }
    let mut cpu = Cpu::new();
    cpu.pc = ROM_BASE;
    cpu.set_flag(PSW_NP, false);
    (cpu, Bus::new(Cart::new(rom).unwrap()))
}

#[test]
fn executes_a_register_add_and_advances_pc() {
    let (mut cpu, mut bus) = machine(&[short(0b000001, 1, 2)]);
    cpu.regs[1] = 5;
    cpu.regs[2] = 7;

    cpu.step(&mut bus).unwrap();

    assert_eq!(cpu.regs[1], 12);
    assert_eq!(cpu.pc, ROM_BASE + 2);
    assert_eq!(cpu.cycles, 1);
}

#[test]
fn add_sets_carry_and_overflow_independently() {
    let (mut cpu, mut bus) = machine(&[short(0b000001, 1, 2)]);
    cpu.regs[1] = 0xFFFF_FFFF;
    cpu.regs[2] = 1;
    cpu.step(&mut bus).unwrap();
    assert!(cpu.flag(PSW_CY));
    assert!(!cpu.flag(PSW_OV));
    assert!(cpu.flag(PSW_Z));

    let (mut cpu, mut bus) = machine(&[short(0b000001, 1, 2)]);
    cpu.regs[1] = 0x7FFF_FFFF;
    cpu.regs[2] = 1;
    cpu.step(&mut bus).unwrap();
    assert!(cpu.flag(PSW_OV));
    assert!(!cpu.flag(PSW_CY));
    assert!(cpu.flag(PSW_S));
}

#[test]
fn sub_sets_carry_on_unsigned_borrow() {
    let (mut cpu, mut bus) = machine(&[short(0b000010, 1, 2)]);
    cpu.regs[1] = 1;
    cpu.regs[2] = 2;
    cpu.step(&mut bus).unwrap();
    assert_eq!(cpu.regs[1], 0xFFFF_FFFF);
    assert!(cpu.flag(PSW_CY));
    assert!(cpu.flag(PSW_S));
    assert!(!cpu.flag(PSW_OV));
}

#[test]
fn cmp_discards_the_result_but_keeps_flags() {
    let (mut cpu, mut bus) = machine(&[short(0b000011, 1, 2)]);
    cpu.regs[1] = 4;
    cpu.regs[2] = 4;
    cpu.step(&mut bus).unwrap();
    assert_eq!(cpu.regs[1], 4);
    assert!(cpu.flag(PSW_Z));
}

#[test]
fn andi_always_clears_the_sign_flag() {
    let (mut cpu, mut bus) = machine(&[short(0b101101, 1, 2), 0xFFFF]);
    cpu.regs[2] = 0xFFFF_FFFF;
    cpu.step(&mut bus).unwrap();

    assert_eq!(cpu.regs[1], 0x0000_FFFF);
    assert!(!cpu.flag(PSW_S));
    assert!(!cpu.flag(PSW_Z));
    assert!(!cpu.flag(PSW_OV));
}

#[test]
fn and_keeps_the_sign_flag_unlike_andi() {
    let (mut cpu, mut bus) = machine(&[short(0b001101, 1, 2)]);
    cpu.regs[1] = 0xFFFF_FFFF;
    cpu.regs[2] = 0x8000_0000;
    cpu.step(&mut bus).unwrap();
    assert!(cpu.flag(PSW_S));
}

#[test]
fn shifts_report_the_last_bit_shifted_out() {
    let (mut cpu, mut bus) = machine(&[short(0b010101, 1, 1)]);
    cpu.regs[1] = 0b11;
    cpu.step(&mut bus).unwrap();
    assert_eq!(cpu.regs[1], 0b1);
    assert!(cpu.flag(PSW_CY));

    let (mut cpu, mut bus) = machine(&[short(0b010100, 1, 0)]);
    cpu.regs[1] = 0xFFFF_FFFF;
    cpu.step(&mut bus).unwrap();
    assert_eq!(cpu.regs[1], 0xFFFF_FFFF);
    assert!(!cpu.flag(PSW_CY));
}

#[test]
fn arithmetic_shift_propagates_the_sign() {
    let (mut cpu, mut bus) = machine(&[short(0b010111, 1, 4)]);
    cpu.regs[1] = 0x8000_0000;
    cpu.step(&mut bus).unwrap();
    assert_eq!(cpu.regs[1], 0xF800_0000);
}

#[test]
fn multiply_writes_r30_before_the_destination() {
    let (mut cpu, mut bus) = machine(&[short(0b001000, 30, 2)]);
    cpu.regs[30] = 0x0001_0000;
    cpu.regs[2] = 0x0001_0000;
    cpu.step(&mut bus).unwrap();

    assert_eq!(cpu.regs[30], 0);
    assert!(cpu.flag(PSW_OV));
}

#[test]
fn divide_stores_remainder_then_quotient() {
    let (mut cpu, mut bus) = machine(&[short(0b001001, 1, 2)]);
    cpu.regs[1] = 17;
    cpu.regs[2] = 5;
    cpu.step(&mut bus).unwrap();

    assert_eq!(cpu.regs[1], 3);
    assert_eq!(cpu.regs[30], 2);
    assert!(!cpu.flag(PSW_OV));
    assert_eq!(cpu.cycles, 38);
}

#[test]
fn divide_remainder_takes_the_dividend_sign() {
    let (mut cpu, mut bus) = machine(&[short(0b001001, 1, 2)]);
    cpu.regs[1] = (-17i32).cast_unsigned();
    cpu.regs[2] = 5;
    cpu.step(&mut bus).unwrap();

    assert_eq!(cpu.regs[1].cast_signed(), -3);
    assert_eq!(cpu.regs[30].cast_signed(), -2);
}

#[test]
fn divide_overflow_case_is_special_cased() {
    let (mut cpu, mut bus) = machine(&[short(0b001001, 1, 2)]);
    cpu.regs[1] = 0x8000_0000;
    cpu.regs[2] = 0xFFFF_FFFF;
    cpu.step(&mut bus).unwrap();

    assert_eq!(cpu.regs[1], 0x8000_0000);
    assert_eq!(cpu.regs[30], 0);
    assert!(cpu.flag(PSW_OV));
}

#[test]
fn divide_by_zero_raises_an_exception() {
    let (mut cpu, mut bus) = machine(&[short(0b001001, 1, 2)]);
    cpu.regs[1] = 1;
    cpu.regs[2] = 0;
    cpu.step(&mut bus).unwrap();

    assert_eq!(cpu.pc, HANDLER_ZERO_DIVISION);
    assert_eq!(cpu.ecr & 0xFFFF, u32::from(EXC_ZERO_DIVISION));
    assert_eq!(cpu.eipc, ROM_BASE);
    assert!(cpu.flag(PSW_EP));
    assert!(cpu.flag(PSW_ID));
}

#[test]
fn divu_never_sets_overflow() {
    let (mut cpu, mut bus) = machine(&[short(0b001011, 1, 2)]);
    cpu.regs[1] = 0x8000_0000;
    cpu.regs[2] = 0xFFFF_FFFF;
    cpu.step(&mut bus).unwrap();
    assert!(!cpu.flag(PSW_OV));
    assert_eq!(cpu.regs[1], 0);
    assert_eq!(cpu.regs[30], 0x8000_0000);
}

#[test]
fn branch_displacement_is_relative_to_the_instruction() {
    let (mut cpu, mut bus) = machine(&[branch(5, 8)]);
    cpu.step(&mut bus).unwrap();
    assert_eq!(cpu.pc, ROM_BASE + 8);
    assert_eq!(cpu.cycles, 3);
}

#[test]
fn untaken_branch_falls_through_cheaply() {
    let (mut cpu, mut bus) = machine(&[branch(13, 8)]);
    cpu.step(&mut bus).unwrap();
    assert_eq!(cpu.pc, ROM_BASE + 2);
    assert_eq!(cpu.cycles, 1);
}

#[test]
fn jal_links_to_the_instruction_after_itself() {
    let (mut cpu, mut bus) = machine(&[short(0b101011, 0, 0), 0x0010]);
    cpu.step(&mut bus).unwrap();
    assert_eq!(cpu.regs[31], ROM_BASE + 4);
    assert_eq!(cpu.pc, ROM_BASE + 0x10);
}

#[test]
fn jump_targets_are_forced_even() {
    let (mut cpu, mut bus) = machine(&[short(0b000110, 0, 5)]);
    cpu.regs[5] = ROM_BASE + 0x21;
    cpu.step(&mut bus).unwrap();
    assert_eq!(cpu.pc, ROM_BASE + 0x20);
}

#[test]
fn load_sign_extends_where_input_zero_extends() {
    let (mut cpu, mut bus) = machine(&[short(0b110000, 1, 2), 0x0000]);
    cpu.regs[2] = 0x0500_0000;
    bus.write_u8(0x0500_0000, 0x80);
    cpu.step(&mut bus).unwrap();
    assert_eq!(cpu.regs[1], 0xFFFF_FF80);

    let (mut cpu, mut bus) = machine(&[short(0b111000, 1, 2), 0x0000]);
    cpu.regs[2] = 0x0500_0000;
    bus.write_u8(0x0500_0000, 0x80);
    cpu.step(&mut bus).unwrap();
    assert_eq!(cpu.regs[1], 0x0000_0080);
}

#[test]
fn store_masks_to_the_access_width() {
    let (mut cpu, mut bus) = machine(&[short(0b110100, 1, 2), 0x0000]);
    cpu.regs[1] = 0xDEAD_BEEF;
    cpu.regs[2] = 0x0500_0000;
    cpu.step(&mut bus).unwrap();
    assert_eq!(bus.read_u8(0x0500_0000), 0xEF);
    assert_eq!(bus.read_u8(0x0500_0001), 0x00);
}

#[test]
fn consecutive_loads_are_cheaper_than_isolated_ones() {
    let (mut cpu, mut bus) =
        machine(&[short(0b110011, 1, 2), 0x0000, short(0b110011, 3, 2), 0x0000]);
    cpu.regs[2] = 0x0500_0000;

    cpu.step(&mut bus).unwrap();
    assert_eq!(cpu.cycles, 5);
    cpu.step(&mut bus).unwrap();
    assert_eq!(cpu.cycles, 9);
}

#[test]
fn ldsr_to_psw_changes_flags_but_other_targets_do_not() {
    let (mut cpu, mut bus) = machine(&[short(0b011100, 1, SR_PSW)]);
    cpu.regs[1] = PSW_Z | PSW_CY;
    cpu.step(&mut bus).unwrap();
    assert!(cpu.flag(PSW_Z));
    assert!(cpu.flag(PSW_CY));

    let (mut cpu, mut bus) = machine(&[short(0b011100, 1, SR_ECR)]);
    let before = cpu.psw;
    cpu.regs[1] = 0xFFFF_FFFF;
    cpu.step(&mut bus).unwrap();
    assert_eq!(cpu.psw, before);
    assert_eq!(cpu.ecr, vb_core::RESET_ECR);
}

#[test]
fn stsr_reads_the_fixed_processor_id() {
    let (mut cpu, mut bus) = machine(&[short(0b011101, 1, SR_PIR)]);
    cpu.step(&mut bus).unwrap();
    assert_eq!(cpu.regs[1], PIR_VALUE);
}

#[test]
fn trap_dispatches_by_vector_and_saves_the_next_pc() {
    let (mut cpu, mut bus) = machine(&[short(0b011000, 0, 3)]);
    cpu.step(&mut bus).unwrap();
    assert_eq!(cpu.pc, HANDLER_TRAP_LOW);
    assert_eq!(cpu.ecr & 0xFFFF, u32::from(EXC_TRAP_BASE + 3));
    assert_eq!(cpu.eipc, ROM_BASE + 2);

    let (mut cpu, mut bus) = machine(&[short(0b011000, 0, 20)]);
    cpu.step(&mut bus).unwrap();
    assert_eq!(cpu.pc, HANDLER_TRAP_HIGH);
}

#[test]
fn reti_restores_from_eipc_when_np_is_clear() {
    let (mut cpu, mut bus) = machine(&[short(0b011001, 0, 0)]);
    cpu.eipc = 0x0700_0100;
    cpu.eipsw = PSW_Z;
    cpu.set_flag(PSW_EP, true);
    cpu.step(&mut bus).unwrap();

    assert_eq!(cpu.pc, 0x0700_0100);
    assert!(cpu.flag(PSW_Z));
    assert!(!cpu.flag(PSW_EP));
}

#[test]
fn reti_restores_from_fepc_when_np_is_set() {
    let (mut cpu, mut bus) = machine(&[short(0b011001, 0, 0)]);
    cpu.fepc = 0x0700_0200;
    cpu.fepsw = 0;
    cpu.set_flag(PSW_NP, true);
    cpu.step(&mut bus).unwrap();

    assert_eq!(cpu.pc, 0x0700_0200);
    assert!(!cpu.flag(PSW_NP));
}

#[test]
fn illegal_opcode_raises_with_the_current_pc() {
    let (mut cpu, mut bus) = machine(&[short(0b011011, 0, 0)]);
    assert_eq!(
        cpu.step(&mut bus).unwrap(),
        StepOutcome::Exception {
            code: EXC_ILLEGAL_OPCODE
        }
    );

    assert_eq!(cpu.pc, HANDLER_ILLEGAL_OPCODE);
    assert_eq!(cpu.ecr & 0xFFFF, u32::from(EXC_ILLEGAL_OPCODE));
    assert_eq!(cpu.eipc, ROM_BASE);
}

#[test]
fn exception_during_exception_becomes_duplexed() {
    let (mut cpu, mut bus) = machine(&[short(0b011000, 0, 1)]);
    cpu.set_flag(PSW_EP, true);
    cpu.step(&mut bus).unwrap();

    assert_eq!(cpu.pc, HANDLER_DUPLEXED);
    assert_eq!(cpu.ecr >> 16, u32::from(EXC_TRAP_BASE + 1));
    assert!(cpu.flag(PSW_NP));
    assert_eq!(cpu.fepc, ROM_BASE + 2);
}

#[test]
fn exception_while_np_is_set_is_fatal() {
    let (mut cpu, mut bus) = machine(&[short(0b011000, 0, 1)]);
    cpu.set_flag(PSW_NP, true);
    let stop = cpu.step(&mut bus).unwrap_err();

    assert_eq!(
        stop,
        Stop::Fatal {
            code: EXC_TRAP_BASE + 1,
            pc: ROM_BASE + 2
        }
    );
    assert!(cpu.halted);
}

#[test]
fn reset_state_makes_the_first_exception_fatal() {
    let (mut cpu, mut bus) = machine(&[short(0b011000, 0, 1)]);
    cpu.psw = vb_core::RESET_PSW;
    assert!(cpu.flag(PSW_NP));
    assert!(matches!(
        cpu.step(&mut bus).unwrap_err(),
        Stop::Fatal { .. }
    ));
}

#[test]
fn halt_stops_the_cpu() {
    let (mut cpu, mut bus) = machine(&[short(0b011010, 0, 0)]);
    cpu.step(&mut bus).unwrap();
    assert!(cpu.halted);
    assert_eq!(cpu.step(&mut bus).unwrap_err(), Stop::Halted);
}

#[test]
fn interrupt_flag_instructions_toggle_id() {
    let (mut cpu, mut bus) = machine(&[short(0b011110, 0, 0), short(0b010110, 0, 0)]);
    cpu.step(&mut bus).unwrap();
    assert!(cpu.flag(PSW_ID));
    cpu.step(&mut bus).unwrap();
    assert!(!cpu.flag(PSW_ID));
}

#[test]
fn nvc_byte_and_halfword_exchanges() {
    let (mut cpu, mut bus) = machine(&[short(0b111110, 1, 0), 0b001000 << 10]);
    cpu.regs[1] = 0x1234_5678;
    cpu.step(&mut bus).unwrap();
    assert_eq!(cpu.regs[1], 0x1234_7856);

    let (mut cpu, mut bus) = machine(&[short(0b111110, 1, 0), 0b001001 << 10]);
    cpu.regs[1] = 0x1234_5678;
    cpu.step(&mut bus).unwrap();
    assert_eq!(cpu.regs[1], 0x5678_1234);
}

#[test]
fn nvc_reverse_and_multiply_halfword() {
    let (mut cpu, mut bus) = machine(&[short(0b111110, 1, 2), 0b001010 << 10]);
    cpu.regs[2] = 0x8000_0001;
    cpu.step(&mut bus).unwrap();
    assert_eq!(cpu.regs[1], 0x8000_0001u32.reverse_bits());

    let (mut cpu, mut bus) = machine(&[short(0b111110, 1, 2), 0b001100 << 10]);
    cpu.regs[1] = 3;
    cpu.regs[2] = 0x0001_FFFF;
    cpu.step(&mut bus).unwrap();
    assert_eq!(cpu.regs[1].cast_signed(), -3);
}

#[test]
fn setf_materialises_a_condition() {
    let (mut cpu, mut bus) = machine(&[short(0b010010, 1, 2)]);
    cpu.set_flag(PSW_Z, true);
    cpu.step(&mut bus).unwrap();
    assert_eq!(cpu.regs[1], 1);

    let (mut cpu, mut bus) = machine(&[short(0b010010, 1, 2)]);
    cpu.set_flag(PSW_Z, false);
    cpu.step(&mut bus).unwrap();
    assert_eq!(cpu.regs[1], 0);
}

#[test]
fn caxi_always_writes_back() {
    let (mut cpu, mut bus) = machine(&[short(0b111010, 1, 2), 0x0000]);
    cpu.regs[1] = 0xAAAA_AAAA;
    cpu.regs[2] = 0x0500_0000;
    cpu.regs[30] = 0xBBBB_BBBB;
    bus.write_u32(0x0500_0000, 0xAAAA_AAAA);
    cpu.step(&mut bus).unwrap();

    assert_eq!(bus.read_u32(0x0500_0000), 0xBBBB_BBBB);
    assert_eq!(cpu.regs[1], 0xAAAA_AAAA);
    assert!(cpu.flag(PSW_Z));
}

#[test]
fn unimplemented_instructions_stop_rather_than_lie() {
    let (mut cpu, mut bus) = machine(&[short(0b011111, 0, 0b01011)]);
    assert_eq!(
        cpu.step(&mut bus).unwrap_err(),
        Stop::Unimplemented {
            op: Op::Movbsu,
            pc: ROM_BASE
        }
    );

    let (mut cpu, mut bus) = machine(&[short(0b111110, 1, 2), 0b000100 << 10]);
    assert!(matches!(
        cpu.step(&mut bus).unwrap_err(),
        Stop::Unimplemented { op: Op::AddfS, .. }
    ));
}

#[test]
fn address_trap_fires_before_the_fetch() {
    let (mut cpu, mut bus) = machine(&[short(0b000000, 1, 2)]);
    cpu.adtre = ROM_BASE;
    cpu.set_flag(PSW_AE, true);
    assert_eq!(
        cpu.step(&mut bus).unwrap(),
        StepOutcome::Exception {
            code: EXC_ADDRESS_TRAP
        }
    );

    assert_eq!(cpu.pc, HANDLER_ADDRESS_TRAP);
    assert_eq!(cpu.eipc, ROM_BASE);
    assert!(!cpu.flag(PSW_AE));
}

#[test]
fn r0_stays_zero_through_execution() {
    let (mut cpu, mut bus) = machine(&[short(0b010000, 0, 0x1F)]);
    cpu.step(&mut bus).unwrap();
    assert_eq!(cpu.regs[0], 0);
}

#[test]
fn an_interrupt_raises_the_level_and_wakes_the_cpu() {
    let (mut cpu, mut bus) = machine(&[short(0b011010, 0, 0)]);
    cpu.halted = true;
    let result = cpu.raise(
        &mut bus,
        Exception { code: 0xFE10, handler: 0xFFFF_FE10, restore_pc: ROM_BASE + 2, level: Some(1) },
    );
    assert_eq!(result, Ok(()));
    assert!(!cpu.halted);
    assert_eq!(cpu.interrupt_level(), 2);
    assert_eq!(cpu.pc, 0xFFFF_FE10);
    assert_eq!(cpu.eipc, ROM_BASE + 2);

    let (mut cpu, mut bus) = machine(&[short(0b011010, 0, 0)]);
    cpu.raise(&mut bus, Exception { code: 0xFE40, handler: 0xFFFF_FE40, restore_pc: ROM_BASE, level: Some(15) })
        .unwrap();
    assert_eq!(cpu.interrupt_level(), 15);
}

#[test]
fn reti_returns_to_where_the_trap_was_taken() {
    let (mut cpu, mut bus) = machine(&[short(0b011000, 0, 2)]);
    let psw = cpu.psw;
    cpu.step(&mut bus).unwrap();
    assert_eq!(cpu.pc, HANDLER_TRAP_LOW);
    let mut rom_bus = bus;
    // run a reti placed in work ram by jumping there
    rom_bus.write_u16(0x0500_0000, short(0b011001, 0, 0));
    cpu.pc = 0x0500_0000;
    cpu.step(&mut rom_bus).unwrap();
    assert_eq!(cpu.pc, ROM_BASE + 2);
    assert_eq!(cpu.psw, psw);
}

#[test]
fn a_fatal_exception_records_code_psw_and_pc_in_memory() {
    let (mut cpu, mut bus) = machine(&[short(0b011000, 0, 1)]);
    cpu.set_flag(PSW_NP, true);
    let psw = cpu.psw;
    cpu.step(&mut bus).unwrap_err();
    assert_eq!(bus.read_u32(0x0000_0000), 0xFFFF_0000 | u32::from(EXC_TRAP_BASE + 1));
    assert_eq!(bus.read_u32(0x0000_0004), psw);
    assert_eq!(bus.read_u32(0x0000_0008), ROM_BASE + 2);
}

#[test]
fn a_halted_cpu_steps_even_with_a_full_cycle_counter() {
    let (mut cpu, mut bus) = machine(&[short(0b011010, 0, 0)]);
    cpu.halted = true;
    cpu.cycles = u64::MAX;
    assert_eq!(cpu.step(&mut bus).unwrap_err(), Stop::Halted);
    assert_eq!(cpu.cycles, u64::MAX);
    assert_eq!(cpu.pc, ROM_BASE);
}
