use vb_core::cart::{
    Cart, GAME_CODE_LEN, GAME_CODE_START, HEADER_OFFSET_FROM_END, MAKER_CODE_LEN, MAKER_CODE_START, TITLE_LEN,
    VERSION_START,
};
use vb_core::bus::Bus;
use vb_core::cpu::bitstring::{DST_OFFSET, DST_WORD, LENGTH, SRC_OFFSET, SRC_WORD};
use vb_core::cpu::state::{Cpu, PSW_Z};
use vb_core::cpu::decode::{Op};

fn test_rom(len: usize) -> Vec<u8> {
    let mut rom = vec![0u8; len];
    let base = len - HEADER_OFFSET_FROM_END;
    rom[base..base + TITLE_LEN].copy_from_slice(b"VERMILLION TEST ROM ");
    rom[base + MAKER_CODE_START..base + MAKER_CODE_START + MAKER_CODE_LEN].copy_from_slice(b"01");
    rom[base + GAME_CODE_START..base + GAME_CODE_START + GAME_CODE_LEN].copy_from_slice(b"VTRE");
    rom[base + VERSION_START] = 0x02;
    rom
}

const RAM: u32 = 0x0500_0000;

fn machine() -> (Cpu, Bus) {
    (Cpu::new(), Bus::new(Cart::new(test_rom(0x1000)).unwrap()))
}

fn run_string(cpu: &mut Cpu, bus: &mut Bus, op: Op) -> u32 {
    let mut passes = 0;
    while !cpu.step_bit_string(bus, op) {
        passes += 1;
        assert!(passes < 200, "bit string never finished");
    }
    passes + 1
}

#[test]
fn movbsu_copies_a_whole_word() {
    let (mut cpu, mut bus) = machine();
    bus.write_u32(RAM, 0xDEAD_BEEF);

    cpu.set_reg(SRC_WORD, RAM);
    cpu.set_reg(DST_WORD, RAM + 8);
    cpu.set_reg(LENGTH, 32);
    run_string(&mut cpu, &mut bus, Op::Movbsu);

    assert_eq!(bus.read_u32(RAM + 8), 0xDEAD_BEEF);
    assert_eq!(cpu.reg(LENGTH), 0);
}

#[test]
fn a_long_copy_takes_one_pass_per_destination_word() {
    let (mut cpu, mut bus) = machine();
    for i in 0..4 {
        bus.write_u32(RAM + i * 4, 0x1111_1111 * (i + 1));
    }

    cpu.set_reg(SRC_WORD, RAM);
    cpu.set_reg(DST_WORD, RAM + 0x100);
    cpu.set_reg(LENGTH, 128);
    let passes = run_string(&mut cpu, &mut bus, Op::Movbsu);

    assert_eq!(passes, 4);
    for i in 0..4 {
        assert_eq!(bus.read_u32(RAM + 0x100 + i * 4), 0x1111_1111 * (i + 1));
    }
}

#[test]
fn pc_stays_put_until_the_string_is_done() {
    let (mut cpu, mut bus) = machine();
    cpu.set_reg(SRC_WORD, RAM);
    cpu.set_reg(DST_WORD, RAM + 0x100);
    cpu.set_reg(LENGTH, 64);

    assert!(!cpu.step_bit_string(&mut bus, Op::Movbsu));
    assert_eq!(cpu.reg(LENGTH), 32);
    assert!(cpu.step_bit_string(&mut bus, Op::Movbsu));
    assert_eq!(cpu.reg(LENGTH), 0);
}

#[test]
fn unaligned_offsets_are_honoured() {
    let (mut cpu, mut bus) = machine();
    bus.write_u32(RAM, 0b1111);

    cpu.set_reg(SRC_WORD, RAM);
    cpu.set_reg(SRC_OFFSET, 0);
    cpu.set_reg(DST_WORD, RAM + 8);
    cpu.set_reg(DST_OFFSET, 4);
    cpu.set_reg(LENGTH, 4);
    run_string(&mut cpu, &mut bus, Op::Movbsu);

    assert_eq!(bus.read_u32(RAM + 8), 0b1111_0000);
}

#[test]
fn logic_operations_combine_both_strings() {
    for (op, expected) in [
        (Op::Orbsu, 0b1110u32),
        (Op::Andbsu, 0b1000),
        (Op::Xorbsu, 0b0110),
        (Op::Notbsu, 0b0101),
    ] {
        let (mut cpu, mut bus) = machine();
        bus.write_u32(RAM, 0b1010);
        bus.write_u32(RAM + 8, 0b1100);

        cpu.set_reg(SRC_WORD, RAM);
        cpu.set_reg(DST_WORD, RAM + 8);
        cpu.set_reg(LENGTH, 4);
        run_string(&mut cpu, &mut bus, op);

        assert_eq!(bus.read_u32(RAM + 8) & 0b1111, expected, "{op:?}");
    }
}

#[test]
fn zero_length_completes_immediately() {
    let (mut cpu, mut bus) = machine();
    cpu.set_reg(LENGTH, 0);
    assert!(cpu.step_bit_string(&mut bus, Op::Movbsu));
    assert!(cpu.step_bit_search(&mut bus, Op::Sch1bsu));
}

#[test]
fn addresses_and_offsets_are_masked_before_use() {
    let (mut cpu, mut bus) = machine();
    cpu.set_reg(SRC_WORD, RAM + 3);
    cpu.set_reg(DST_WORD, RAM + 0x103);
    cpu.set_reg(SRC_OFFSET, 0xFFFF_FFE1);
    cpu.set_reg(DST_OFFSET, 0xFFFF_FFE2);
    cpu.set_reg(LENGTH, 1);

    cpu.step_bit_string(&mut bus, Op::Movbsu);

    assert_eq!(cpu.reg(SRC_WORD) & 3, 0);
    assert_eq!(cpu.reg(DST_WORD) & 3, 0);
}

#[test]
fn search_finds_a_set_bit_and_clears_zero() {
    let (mut cpu, mut bus) = machine();
    bus.write_u32(RAM, 1 << 5);

    cpu.set_reg(SRC_WORD, RAM);
    cpu.set_reg(LENGTH, 32);
    cpu.set_reg(DST_WORD, 0);

    while !cpu.step_bit_search(&mut bus, Op::Sch1bsu) {}

    assert!(!cpu.flag(PSW_Z));
    assert_eq!(cpu.reg(DST_WORD), 5);
    assert_eq!(cpu.reg(SRC_OFFSET), 6);
}

#[test]
fn search_that_finds_nothing_leaves_zero_set() {
    let (mut cpu, mut bus) = machine();
    bus.write_u32(RAM, 0);

    cpu.set_reg(SRC_WORD, RAM);
    cpu.set_reg(LENGTH, 32);
    cpu.set_reg(DST_WORD, 0);

    while !cpu.step_bit_search(&mut bus, Op::Sch1bsu) {}

    assert!(cpu.flag(PSW_Z));
    assert_eq!(cpu.reg(DST_WORD), 32);
    assert_eq!(cpu.reg(LENGTH), 0);
}

#[test]
fn search_downward_walks_backwards() {
    let (mut cpu, mut bus) = machine();
    bus.write_u32(RAM, 1 << 20);

    cpu.set_reg(SRC_WORD, RAM);
    cpu.set_reg(SRC_OFFSET, 31);
    cpu.set_reg(LENGTH, 32);
    cpu.set_reg(DST_WORD, 0);

    while !cpu.step_bit_search(&mut bus, Op::Sch1bsd) {}

    assert!(!cpu.flag(PSW_Z));
    assert_eq!(cpu.reg(DST_WORD), 11);
    assert_eq!(cpu.reg(SRC_OFFSET), 19);
}

#[test]
fn search_for_zero_works_too() {
    let (mut cpu, mut bus) = machine();
    bus.write_u32(RAM, !(1 << 3));

    cpu.set_reg(SRC_WORD, RAM);
    cpu.set_reg(LENGTH, 32);
    cpu.set_reg(DST_WORD, 0);

    while !cpu.step_bit_search(&mut bus, Op::Sch0bsu) {}

    assert!(!cpu.flag(PSW_Z));
    assert_eq!(cpu.reg(DST_WORD), 3);
}
