use vb_core::bus::Bus;
use vb_core::cart::{
    Cart, GAME_CODE_LEN, GAME_CODE_START, HEADER_OFFSET_FROM_END, MAKER_CODE_LEN, MAKER_CODE_START, TITLE_LEN,
    VERSION_START,
};
use vb_core::cpu::decode::Op;
use vb_core::cpu::exec::Stop;
use vb_core::cpu::state::{Cpu, PSW_CY, PSW_EP, PSW_Z};
use vb_core::trace::{
    changes, check_rom_file, describe, exception_line, executed_line, info_lines, open_cart, raw_bytes, step_limit,
    Trace, TraceStep, DEFAULT_STEPS, SAFETY_CAP,
};

fn test_rom(len: usize) -> Vec<u8> {
    let mut rom = vec![0u8; len];
    let base = len - HEADER_OFFSET_FROM_END;
    rom[base..base + TITLE_LEN].copy_from_slice(b"VERMILLION TEST ROM ");
    rom[base + MAKER_CODE_START..base + MAKER_CODE_START + MAKER_CODE_LEN].copy_from_slice(b"01");
    rom[base + GAME_CODE_START..base + GAME_CODE_START + GAME_CODE_LEN].copy_from_slice(b"VTRE");
    rom[base + VERSION_START] = 0x02;
    rom
}

// the four instructions of the readme's example, placed at the reset vector
fn readme_machine() -> (Cpu, Bus) {
    let mut rom = test_rom(0x1000);
    let program: [u8; 14] = [0x20, 0xbc, 0x00, 0x05, 0x21, 0xa0, 0x00, 0x01, 0x45, 0x40, 0x42, 0x04, 0x00, 0x00];
    let reset = 0x1000 - 0x10;
    rom[reset..reset + program.len()].copy_from_slice(&program);
    (Cpu::new(), Bus::new(Cart::new(rom).unwrap()))
}

#[test]
fn the_step_limit_follows_the_command_line() {
    assert_eq!(step_limit(Some(4), true, Some(10)), 4);
    assert_eq!(step_limit(None, false, None), DEFAULT_STEPS);
    assert_eq!(step_limit(None, true, None), SAFETY_CAP);
    assert_eq!(step_limit(None, false, Some(1000)), SAFETY_CAP);
}

#[test]
fn a_trace_lists_the_readme_example() {
    let (mut cpu, mut bus) = readme_machine();
    let mut run = Trace::new(Some(4), false, None);
    let mut lines = Vec::new();
    loop {
        match run.next(&mut cpu, &mut bus) {
            TraceStep::Line(line) => lines.push(line),
            TraceStep::Finished(note) => {
                assert_eq!(note, "-- stopped after 4 instructions");
                break;
            },
        }
    }
    assert_eq!(
        lines,
        vec![
            "fffffff0  20 bc 00 05  movhi   0x500, r0, r1    r1=05000000",
            "fffffff4  21 a0 00 01  movea   0x100, r1, r1    r1=05000100",
            "fffffff8  45 40        mov     0x5, r2          r2=00000005",
            "fffffffa  42 04        add     r2, r2           r2=0000000a",
        ]
    );
}

#[test]
fn a_trace_stops_at_the_cycle_budget() {
    let (mut cpu, mut bus) = readme_machine();
    let mut run = Trace::new(None, false, Some(2));
    assert!(matches!(run.next(&mut cpu, &mut bus), TraceStep::Line(_)));
    assert!(matches!(run.next(&mut cpu, &mut bus), TraceStep::Line(_)));
    match run.next(&mut cpu, &mut bus) {
        TraceStep::Finished(note) => assert_eq!(note, "-- stopped after 2 cycles"),
        TraceStep::Line(line) => panic!("unexpected line {line}"),
    }
}

#[test]
fn the_safety_cap_has_its_own_note() {
    let (mut cpu, mut bus) = readme_machine();
    let mut run = Trace::new(None, true, None);
    assert!(run.capped);
    run.executed = run.limit;
    match run.next(&mut cpu, &mut bus) {
        TraceStep::Finished(note) => {
            assert_eq!(note, "-- safety cap of 10000000 instructions hit, rom never halted")
        },
        TraceStep::Line(line) => panic!("unexpected line {line}"),
    }
}

#[test]
fn a_stop_ends_the_trace_with_its_reason() {
    let (mut cpu, mut bus) = readme_machine();
    cpu.halted = true;
    let mut run = Trace::new(Some(4), false, None);
    match run.next(&mut cpu, &mut bus) {
        TraceStep::Finished(note) => {
            assert_eq!(note, "-- halted with nothing able to wake it after 0 instructions")
        },
        TraceStep::Line(line) => panic!("unexpected line {line}"),
    }
}

#[test]
fn an_exception_gets_a_line_of_its_own() {
    let mut rom = test_rom(0x1000);
    let reset = 0x1000 - 0x10;
    // an illegal opcode at the reset vector, with np cleared so the exception is not fatal
    rom[reset..reset + 2].copy_from_slice(&(0b011011u16 << 10).to_le_bytes());
    let mut bus = Bus::new(Cart::new(rom).unwrap());
    let mut cpu = Cpu::new();
    cpu.psw = 0;
    let mut run = Trace::new(Some(1), false, None);
    match run.next(&mut cpu, &mut bus) {
        TraceStep::Line(line) => {
            assert_eq!(line, "fffffff0  00 6c        exception 0xff90        -> ffffff90")
        },
        TraceStep::Finished(note) => panic!("unexpected note {note}"),
    }
    assert_eq!(run.executed, 1);
    assert!(cpu.flag(PSW_EP));
}

#[test]
fn raw_bytes_follow_the_instruction_width() {
    let (_, bus) = readme_machine();
    assert_eq!(raw_bytes(&bus, 0xFFFF_FFF0), "20 bc 00 05");
    assert_eq!(raw_bytes(&bus, 0xFFFF_FFF8), "45 40");
}

#[test]
fn changes_list_registers_flags_and_the_psw() {
    let before = [0u32; 32];
    let mut cpu = Cpu::new();
    cpu.regs[3] = 0xABCD;
    cpu.regs[31] = 1;
    let psw = cpu.psw;
    assert_eq!(changes(&before, psw, &cpu), " r3=0000abcd r31=00000001");

    cpu.psw = psw | PSW_Z | PSW_CY;
    assert_eq!(changes(&before, psw, &cpu), " r3=0000abcd r31=00000001 z1 s0 ov0 cy1");

    cpu.psw = psw | PSW_EP;
    assert_eq!(changes(&before, psw, &cpu), " r3=0000abcd r31=00000001 psw=0000c000");
    assert_eq!(changes(&cpu.regs, cpu.psw, &cpu), "");
}

#[test]
fn stops_describe_themselves() {
    assert_eq!(describe(Stop::Halted), "halted with nothing able to wake it");
    assert_eq!(describe(Stop::Fatal { code: 0xFFA1, pc: 0x0700_0002 }), "fatal exception 0xffa1 at 07000002");
    assert_eq!(
        describe(Stop::Unimplemented { op: Op::Movbsu, pc: 0x0700_0000 }),
        "unimplemented instruction movbsu at 07000000"
    );
}

#[test]
fn lines_are_columns_without_trailing_spaces() {
    assert_eq!(executed_line(0x10, "45 40", "halt", ""), "00000010  45 40        halt");
    assert_eq!(
        executed_line(0x10, "45 40", "mov     r1, r2", " r2=00000001"),
        "00000010  45 40        mov     r1, r2           r2=00000001"
    );
    assert_eq!(exception_line(0x20, "00 6c", 0xFF90, 0xFFFF_FF90), "00000020  00 6c        exception 0xff90        -> ffffff90");
}

#[test]
fn oversized_files_and_game_paks_are_refused_with_their_name() {
    assert!(check_rom_file("rom.vb", 0x0100_0000).is_ok());
    assert_eq!(
        check_rom_file("rom.vb", 0x0100_0001).unwrap_err(),
        "rom.vb: 16777217 bytes exceeds the 16777216 byte maximum"
    );
    assert_eq!(
        open_cart(test_rom(0x1000), Some(0x0200_0000), "rom.vb").unwrap_err(),
        "sram of 33554432 bytes exceeds the 16777216 byte maximum"
    );
    assert_eq!(open_cart(vec![0; 0x200], None, "rom.vb").unwrap_err(), "rom.vb: rom is 512 bytes, minimum is 1024");
    let cart = open_cart(test_rom(0x1000), Some(0x400), "rom.vb").unwrap();
    assert_eq!(cart.sram().len(), 0x400);
}

#[test]
fn info_prints_the_header_and_sizes() {
    let cart = Cart::with_sram(test_rom(0x1000), 0x2000).unwrap();
    assert_eq!(
        info_lines(&cart),
        vec![
            "title       VERMILLION TEST ROM",
            "maker       01",
            "game code   VTRE",
            "version     1.2",
            "rom bytes   4096",
            "sram bytes  8192",
        ]
    );
}
