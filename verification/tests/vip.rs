use vb_core::vip::{BG_MAPS, CHARACTER_MIRROR, CHARACTER_TABLE_0, CHARACTER_TABLE_LEN, CHARACTER_TABLE_STRIDE, FRAME_LEN, LEFT_FRAME_0, LEFT_FRAME_1, OBJECT_ATTRIBUTES, RIGHT_FRAME_0, RIGHT_FRAME_1, Target, Vip, resolve};
use vb_core::vip::registers::{BKCOL, BRTA, VER, VER_VALUE};

#[test]
fn regions_resolve_where_the_map_says() {
    assert_eq!(resolve(LEFT_FRAME_0), Target::Vram(0));
    assert_eq!(resolve(CHARACTER_TABLE_0), Target::Vram(CHARACTER_TABLE_0));
    assert_eq!(resolve(OBJECT_ATTRIBUTES), Target::Vram(OBJECT_ATTRIBUTES));
    assert_eq!(resolve(BRTA), Target::Register(BRTA));
    assert_eq!(resolve(0x0004_0000), Target::Unmapped);
    assert_eq!(resolve(0x0006_0000), Target::Unmapped);
}

#[test]
fn the_character_mirrors_land_on_the_real_tables() {
    for table in 0..4u32 {
        let mirror = CHARACTER_MIRROR + table * CHARACTER_TABLE_LEN;
        let real = CHARACTER_TABLE_0 + table * CHARACTER_TABLE_STRIDE;
        assert_eq!(resolve(mirror), Target::Vram(real), "table {table}");
        assert_eq!(
            resolve(mirror + CHARACTER_TABLE_LEN - 1),
            Target::Vram(real + CHARACTER_TABLE_LEN - 1)
        );
    }
}

#[test]
fn a_write_through_a_mirror_is_visible_at_the_real_address() {
    let mut vip = Vip::new();
    vip.write_u16(CHARACTER_MIRROR + 0x40, 0xBEEF);
    assert_eq!(vip.read_u16(CHARACTER_TABLE_0 + 0x40), 0xBEEF);

    vip.write_u16(0x0001_E000 + 0x20, 0x1234);
    assert_eq!(vip.read_u16(CHARACTER_MIRROR + 0x6020), 0x1234);
}

#[test]
fn characters_are_contiguous_through_the_mirror() {
    let mut vip = Vip::new();
    vip.write_u16(CHARACTER_MIRROR + 0x1FF0, 0xAAAA);
    vip.write_u16(CHARACTER_MIRROR + 0x2000, 0x5555);

    assert_eq!(vip.read_u16(CHARACTER_TABLE_0 + 0x1FF0), 0xAAAA);
    assert_eq!(vip.read_u16(0x0000_E000), 0x5555);
}

#[test]
fn the_whole_map_mirrors_every_512k() {
    let mut vip = Vip::new();
    vip.write_u16(0x0002_0000, 0x0F0F);

    assert_eq!(vip.read_u16(0x0008_0000 + 0x0002_0000), 0x0F0F);
    assert_eq!(vip.read_u16(0x00F0_0000 + 0x0002_0000), 0x0F0F);
}

#[test]
fn vram_round_trips_at_every_width() {
    let mut vip = Vip::new();
    vip.write_u16(BG_MAPS, 0x1234);
    vip.write_u32(BG_MAPS + 4, 0xDEAD_BEEF);
    vip.write_u8(BG_MAPS + 8, 0x99);

    assert_eq!(vip.read_u16(BG_MAPS), 0x1234);
    assert_eq!(vip.read_u32(BG_MAPS + 4), 0xDEAD_BEEF);
    assert_eq!(vip.read_u8(BG_MAPS + 8), 0x99);
    assert_eq!(vip.read_u8(BG_MAPS), 0x34);
    assert_eq!(vip.read_u8(BG_MAPS + 1), 0x12);
}

#[test]
fn unmapped_reads_zero_and_swallows_writes() {
    let mut vip = Vip::new();
    vip.write_u16(0x0004_0000, 0xFFFF);
    vip.write_u32(0x0006_0000, 0xFFFF_FFFF);
    assert_eq!(vip.read_u16(0x0004_0000), 0);
    assert_eq!(vip.read_u32(0x0006_0000), 0);
}

#[test]
fn registers_are_reachable_through_the_vip() {
    let mut vip = Vip::new();
    vip.write_u16(BRTA, 0x0042);
    assert_eq!(vip.read_u16(BRTA), 0x0042);
    assert_eq!(vip.read_u16(VER), VER_VALUE);
}

#[test]
fn an_even_byte_write_stores_the_whole_source_halfword() {
    let mut vip = Vip::new();
    vip.write_u8(BRTA, 0x0000_1234);
    assert_eq!(vip.read_u16(BRTA), 0x0034, "brta keeps only its low byte");

    vip.write_u8(BKCOL, 0x0000_FF03);
    assert_eq!(vip.read_u16(BKCOL), 0x0003);
}

#[test]
fn an_odd_byte_write_shifts_the_source_into_the_high_byte() {
    let mut vip = Vip::new();
    vip.write_u8(0x0005_F849, 0x0000_0002);
    assert_eq!(vip.read_u16(0x0005_F848), 0x0200);
}

#[test]
fn a_byte_write_to_vram_stays_a_byte() {
    let mut vip = Vip::new();
    vip.write_u8(BG_MAPS, 0x0000_1234);
    assert_eq!(vip.read_u8(BG_MAPS), 0x34);
    assert_eq!(
        vip.read_u8(BG_MAPS + 1),
        0x00,
        "no halfword anomaly outside the registers"
    );
}

#[test]
fn frame_buffers_do_not_overlap_the_character_tables() {
    let mut vip = Vip::new();
    vip.write_u16(LEFT_FRAME_0 + FRAME_LEN - 2, 0x1111);
    vip.write_u16(CHARACTER_TABLE_0, 0x2222);
    vip.write_u16(LEFT_FRAME_1, 0x3333);
    vip.write_u16(RIGHT_FRAME_0, 0x4444);
    vip.write_u16(RIGHT_FRAME_1, 0x5555);

    assert_eq!(vip.read_u16(LEFT_FRAME_0 + FRAME_LEN - 2), 0x1111);
    assert_eq!(vip.read_u16(CHARACTER_TABLE_0), 0x2222);
    assert_eq!(vip.read_u16(LEFT_FRAME_1), 0x3333);
    assert_eq!(vip.read_u16(RIGHT_FRAME_0), 0x4444);
    assert_eq!(vip.read_u16(RIGHT_FRAME_1), 0x5555);
}
