use vb_core::cart::{
    Cart, GAME_CODE_LEN, GAME_CODE_START, HEADER_OFFSET_FROM_END, MAKER_CODE_LEN, MAKER_CODE_START, TITLE_LEN,
    VERSION_START,
};
use vb_core::bus::Bus;
use vb_core::cpu::cache::{index_of, tag_of, BLOCK_LEN, CEC_SHIFT, CHCW_ICC, CHCW_ICD, CHCW_ICE, CHCW_ICR, Cache, ENTRIES, SPILL_LEN, TAG_LEN, TAG_MASK, TAG_VALID};
use vb_core::cpu::state::{Cpu, SR_CHCW};

fn test_rom(len: usize) -> Vec<u8> {
    let mut rom = vec![0u8; len];
    let base = len - HEADER_OFFSET_FROM_END;
    rom[base..base + TITLE_LEN].copy_from_slice(b"VERMILLION TEST ROM ");
    rom[base + MAKER_CODE_START..base + MAKER_CODE_START + MAKER_CODE_LEN].copy_from_slice(b"01");
    rom[base + GAME_CODE_START..base + GAME_CODE_START + GAME_CODE_LEN].copy_from_slice(b"VTRE");
    rom[base + VERSION_START] = 0x02;
    rom
}

const ROM: u32 = 0x0700_0000;
const RAM: u32 = 0x0500_0000;

fn machine() -> (Cpu, Bus) {
    let mut rom = test_rom(0x1000);
    for (index, byte) in rom.iter_mut().take(0x400).enumerate() {
        *byte = u8::try_from(index & 0xFF).unwrap_or(0);
    }
    (Cpu::new(), Bus::new(Cart::new(rom).unwrap()))
}

#[test]
fn a_new_cache_holds_nothing() {
    let cache = Cache::new();
    for index in 0..ENTRIES {
        assert_eq!(cache.tag(index), 0);
    }
    assert!(!cache.contains(ROM));
}

#[test]
fn a_fill_captures_the_whole_block() {
    let (mut cpu, bus) = machine();
    cpu.cache.fill(&bus, ROM + 0x2A);

    assert!(cpu.cache.contains(ROM + 0x2A));
    assert!(
        cpu.cache.contains(ROM + 0x28),
        "the block covers eight bytes"
    );
    assert!(!cpu.cache.contains(ROM + 0x30));

    let index = u32::try_from(index_of(ROM + 0x2A)).unwrap();
    assert_eq!(cpu.cache.block(index)[2], bus.read_u8(ROM + 0x2A));
}

#[test]
fn entries_are_selected_by_index_so_distant_blocks_evict() {
    let (mut cpu, bus) = machine();
    cpu.cache.fill(&bus, ROM);
    assert!(cpu.cache.contains(ROM));

    cpu.cache.fill(&bus, ROM + 0x400);
    assert!(cpu.cache.contains(ROM + 0x400));
    assert!(!cpu.cache.contains(ROM), "same index, different tag");
}

#[test]
fn devices_are_never_cached() {
    let (mut cpu, bus) = machine();
    for base in [0x0000_0000u32, 0x0100_0000, 0x0200_0000, 0x0400_0000] {
        cpu.cache.fill(&bus, base);
        assert!(!cpu.cache.contains(base), "region at {base:#010X}");
    }
}

#[test]
fn clear_frees_entries_without_wiping_them() {
    let (mut cpu, bus) = machine();
    cpu.cache.fill(&bus, ROM);
    let block = cpu.cache.block(0);

    cpu.cache.clear(0, 1);

    assert!(!cpu.cache.contains(ROM));
    assert_eq!(cpu.cache.block(0), block);
    assert_eq!(cpu.cache.tag(0) & TAG_MASK, tag_of(ROM));
}

#[test]
fn clear_stops_after_the_last_entry() {
    let (mut cpu, bus) = machine();
    for index in 0..ENTRIES {
        cpu.cache.fill(&bus, ROM + index * BLOCK_LEN);
    }

    cpu.cache.clear(120, 0xFFF);

    assert!(cpu.cache.contains(ROM + 119 * BLOCK_LEN));
    assert!(!cpu.cache.contains(ROM + 127 * BLOCK_LEN));
}

#[test]
fn a_clear_of_no_entries_clears_nothing() {
    let (mut cpu, bus) = machine();
    cpu.cache.fill(&bus, ROM);
    cpu.cache.clear(0, 0);
    assert!(cpu.cache.contains(ROM));
}

#[test]
fn clear_beyond_the_last_entry_does_nothing() {
    let (mut cpu, bus) = machine();
    cpu.cache.fill(&bus, ROM);
    cpu.cache.clear(200, 64);
    assert!(cpu.cache.contains(ROM));
}

#[test]
fn dump_and_restore_round_trip_through_memory() {
    let (mut cpu, mut bus) = machine();
    for index in 0..ENTRIES {
        cpu.cache.fill(&bus, ROM + index * BLOCK_LEN);
    }
    let before = cpu.cache.clone();

    cpu.cache.dump(&mut bus, RAM);
    cpu.cache = Cache::new();
    assert_ne!(cpu.cache, before);

    cpu.cache.restore(&bus, RAM);
    assert_eq!(cpu.cache, before);
}

#[test]
fn a_dump_writes_blocks_then_tags() {
    let (mut cpu, mut bus) = machine();
    cpu.cache.fill(&bus, ROM);
    cpu.cache.dump(&mut bus, RAM);

    assert_eq!(bus.read_u8(RAM), bus.read_u8(ROM));
    assert_eq!(
        bus.read_u32(RAM + ENTRIES * BLOCK_LEN),
        TAG_VALID | tag_of(ROM)
    );
    assert_eq!(bus.read_u32(RAM + SPILL_LEN - TAG_LEN), 0);
}

#[test]
fn ldsr_keeps_only_the_enable_bit() {
    let (mut cpu, mut bus) = machine();
    let no_operation = !(CHCW_ICC | CHCW_ICD | CHCW_ICR);
    cpu.cache_control(&mut bus, no_operation);
    assert_eq!(cpu.chcw, CHCW_ICE);
    assert_eq!(cpu.read_system_register(SR_CHCW), CHCW_ICE);
}

#[test]
fn ldsr_performs_the_requested_operation() {
    let (mut cpu, mut bus) = machine();
    cpu.cache.fill(&bus, ROM);

    cpu.cache_control(&mut bus, RAM | CHCW_ICD);
    assert_eq!(bus.read_u8(RAM), bus.read_u8(ROM));

    cpu.cache_control(&mut bus, CHCW_ICC | (1 << CEC_SHIFT));
    assert!(!cpu.cache.contains(ROM));

    cpu.cache_control(&mut bus, RAM | CHCW_ICR);
    assert!(cpu.cache.contains(ROM));
}

#[test]
fn a_spill_address_wider_than_the_bus_is_ignored() {
    let (mut cpu, mut bus) = machine();
    cpu.cache.fill(&bus, ROM);
    cpu.cache_control(&mut bus, 0x0800_0000 | CHCW_ICD);
    assert_eq!(bus.read_u8(RAM), 0);
}

#[test]
fn a_clear_request_ignores_the_dump_bits() {
    let (mut cpu, mut bus) = machine();
    cpu.cache.fill(&bus, ROM);
    cpu.cache_control(&mut bus, CHCW_ICC | CHCW_ICD | (1 << CEC_SHIFT));

    assert!(!cpu.cache.contains(ROM));
    assert_eq!(bus.read_u8(RAM), 0, "no dump alongside a clear");
}

#[test]
fn a_spill_address_with_upper_bits_round_trips_through_work_ram() {
    let (mut cpu, mut bus) = machine();
    for index in 0..ENTRIES {
        cpu.cache.fill(&bus, ROM + index * BLOCK_LEN);
    }
    let before = cpu.cache.clone();
    cpu.cache.dump(&mut bus, 0xFD00_0100);
    assert_eq!(bus.read_u8(0x0500_0100), before.block(0)[0]);
    let mut restored = Cache::new();
    restored.restore(&bus, 0x0D00_0100);
    assert_eq!(restored, before);
}
