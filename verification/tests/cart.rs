use vb_core::cart::{
    ascii_lossy, Cart, CartError, GAME_CODE_LEN, GAME_CODE_START, HEADER_OFFSET_FROM_END, MAKER_CODE_LEN,
    MAKER_CODE_START, MAX_SRAM_LEN, MIN_ROM_LEN, RESERVED_LEN, TITLE_LEN, VERSION_START,
};

fn test_rom(len: usize) -> Vec<u8> {
    let mut rom = vec![0u8; len];
    let base = len - HEADER_OFFSET_FROM_END;
    rom[base..base + TITLE_LEN].copy_from_slice(b"VERMILLION TEST ROM ");
    rom[base + MAKER_CODE_START..base + MAKER_CODE_START + MAKER_CODE_LEN].copy_from_slice(b"01");
    rom[base + GAME_CODE_START..base + GAME_CODE_START + GAME_CODE_LEN].copy_from_slice(b"VTRE");
    rom[base + VERSION_START] = 0x02;
    rom
}

#[test]
fn header_offset_matches_bus_mirroring() {
    for shift in 10..=24u32 {
        let len: u32 = 1 << shift;
        let mirrored = 0x00FF_FDE0u32 & (len - 1);
        assert_eq!(mirrored as usize, len as usize - HEADER_OFFSET_FROM_END, "len {len:#x}");
    }
}

#[test]
fn parses_header() {
    let cart = Cart::new(test_rom(0x8000)).unwrap();
    let header = cart.header();

    assert_eq!(header.title_ascii_lossy(), "VERMILLION TEST ROM");
    assert_eq!(header.maker_code_ascii_lossy(), "01");
    assert_eq!(header.game_code_ascii_lossy(), "VTRE");
    assert_eq!(header.version, 0x02);
    assert_eq!(header.reserved, [0u8; RESERVED_LEN]);
}

#[test]
fn parses_header_at_minimum_rom_size() {
    let cart = Cart::new(test_rom(MIN_ROM_LEN)).unwrap();
    assert_eq!(cart.header().game_code_ascii_lossy(), "VTRE");
}

#[test]
fn rom_reads_mirror() {
    let mut rom = test_rom(0x1000);
    rom[0x0123] = 0xAB;
    let cart = Cart::new(rom).unwrap();

    assert_eq!(cart.read_rom(0x0000_0123), 0xAB);
    assert_eq!(cart.read_rom(0x0000_1123), 0xAB);
    assert_eq!(cart.read_rom(0x00FF_F123), 0xAB);
}

#[test]
fn absent_sram_reads_zero_and_ignores_writes() {
    let mut cart = Cart::new(test_rom(0x1000)).unwrap();
    assert!(!cart.has_sram());

    cart.write_sram(0, 0xFF);
    assert_eq!(cart.read_sram(0), 0);
}

#[test]
fn sram_round_trips_and_mirrors() {
    let mut cart = Cart::with_sram(test_rom(0x1000), 0x2000).unwrap();
    assert!(cart.has_sram());

    cart.write_sram(0x0010, 0x5A);
    assert_eq!(cart.read_sram(0x0010), 0x5A);
    assert_eq!(cart.read_sram(0x2010), 0x5A);
    assert_eq!(cart.read_sram(0x00FF_E010), 0x5A);
}

#[test]
fn rejects_bad_rom_sizes() {
    assert_eq!(Cart::new(vec![0; 0x200]).unwrap_err(), CartError::RomTooSmall(0x200));
    assert_eq!(Cart::new(vec![0; 0x1800]).unwrap_err(), CartError::RomNotPowerOfTwo(0x1800));
}

#[test]
fn rejects_bad_sram_sizes() {
    assert_eq!(Cart::with_sram(test_rom(0x1000), 0x1500).unwrap_err(), CartError::SramNotPowerOfTwo(0x1500));
    assert_eq!(
        Cart::with_sram(test_rom(0x1000), MAX_SRAM_LEN * 2).unwrap_err(),
        CartError::SramTooLarge(MAX_SRAM_LEN * 2)
    );
}

#[test]
fn ascii_lossy_replaces_unprintable_and_trims() {
    assert_eq!(ascii_lossy(b"OK\x00\x00\x00"), "OK");
    assert_eq!(ascii_lossy(b"A\x01B"), "A?B");
    assert_eq!(ascii_lossy(b"   "), "");
}

#[test]
fn cart_errors_describe_the_rejected_length() {
    assert_eq!(CartError::RomTooSmall(0x200).to_string(), "rom is 512 bytes, minimum is 1024");
    assert_eq!(CartError::RomTooLarge(0x0200_0000).to_string(), "rom is 33554432 bytes, maximum is 16777216");
    assert_eq!(CartError::RomNotPowerOfTwo(0x1800).to_string(), "rom is 6144 bytes, which is not a power of two");
    assert_eq!(CartError::SramTooLarge(0x0200_0000).to_string(), "sram is 33554432 bytes, maximum is 16777216");
    assert_eq!(CartError::SramNotPowerOfTwo(0x1500).to_string(), "sram is 5376 bytes, which is not a power of two");
}

#[test]
fn an_oversized_rom_is_rejected() {
    assert_eq!(Cart::new(vec![0; 0x0200_0000]).unwrap_err(), CartError::RomTooLarge(0x0200_0000));
}

#[test]
fn sram_mut_writes_through_to_reads() {
    let mut cart = Cart::with_sram(test_rom(0x1000), 0x400).unwrap();
    cart.sram_mut()[0x10] = 0x77;
    assert_eq!(cart.read_sram(0x0410), 0x77);
    assert_eq!(cart.sram().len(), 0x400);
}
