use vb_core::pad::{A, B, BUTTON_COUNT, GamePad, HARDWARE_READ_CYCLES, RD, SCR, SCR_HW_SI, SCR_K_INT_INH, SCR_PARA_SI, SCR_SI_STAT, SCR_SOFT_CK, SCR_S_ABT_DIS, SCR_UNUSED, SDHR, SDLR, SGN, STA};

fn software_read(pad: &mut GamePad) {
    pad.write(SCR, SCR_PARA_SI);
    pad.write(SCR, 0);
    for _ in 0..BUTTON_COUNT {
        pad.write(SCR, SCR_SOFT_CK);
        pad.write(SCR, 0);
    }
}

#[test]
fn a_fresh_pad_reports_the_signature_only() {
    let pad = GamePad::new();
    assert_eq!(pad.buttons(), SGN);
    assert!(!pad.interrupt_pending());
}

#[test]
fn a_software_read_shifts_the_whole_word_in() {
    let mut pad = GamePad::new();
    pad.set_buttons(SGN | A | STA | RD);
    software_read(&mut pad);

    assert_eq!(pad.data(), SGN | A | STA | RD);
    assert_eq!(pad.read(SDLR), (SGN | A).to_le_bytes()[0]);
    assert_eq!(pad.read(SDHR), (STA | RD).to_le_bytes()[1]);
}

#[test]
fn the_data_registers_are_incomplete_until_the_sixteenth_bit() {
    let mut pad = GamePad::new();
    pad.set_buttons(RD);

    pad.write(SCR, SCR_PARA_SI);
    pad.write(SCR, 0);
    for _ in 0..BUTTON_COUNT - 1 {
        pad.write(SCR, SCR_SOFT_CK);
        pad.write(SCR, 0);
    }
    assert_eq!(pad.data(), 0, "rd has not been clocked in yet");

    pad.write(SCR, SCR_SOFT_CK);
    pad.write(SCR, 0);
    assert_eq!(pad.data(), RD);
}

#[test]
fn a_held_latch_keeps_resetting_the_read() {
    let mut pad = GamePad::new();
    pad.set_buttons(SGN | A);

    for _ in 0..BUTTON_COUNT {
        pad.write(SCR, SCR_PARA_SI | SCR_SOFT_CK);
        pad.write(SCR, SCR_PARA_SI);
    }
    assert_eq!(pad.data(), 0, "nothing clocks while para/si is held");
}

#[test]
fn a_hardware_read_takes_512_microseconds() {
    let mut pad = GamePad::new();
    pad.set_buttons(SGN | B);
    pad.write(SCR, SCR_HW_SI);

    assert!(pad.reading());
    assert_ne!(pad.read(SCR) & SCR_SI_STAT, 0);

    pad.tick(HARDWARE_READ_CYCLES - 1);
    assert!(pad.reading());
    assert_eq!(pad.data(), 0);

    pad.tick(1);
    assert!(!pad.reading());
    assert_eq!(pad.read(SCR) & SCR_SI_STAT, 0);
    assert_eq!(pad.data(), SGN | B);
}

#[test]
fn aborting_cancels_a_hardware_read() {
    let mut pad = GamePad::new();
    pad.write(SCR, SCR_HW_SI);
    pad.tick(HARDWARE_READ_CYCLES / 2);

    pad.write(SCR, SCR_S_ABT_DIS);
    assert!(!pad.reading());

    pad.tick(HARDWARE_READ_CYCLES);
    assert_eq!(pad.data(), 0, "the cancelled read never landed");
}

#[test]
fn starting_a_read_that_is_already_running_does_nothing() {
    let mut pad = GamePad::new();
    pad.write(SCR, SCR_HW_SI);
    pad.tick(HARDWARE_READ_CYCLES - 1);

    pad.write(SCR, SCR_HW_SI);
    pad.tick(1);
    assert!(
        !pad.reading(),
        "the second request did not restart the clock"
    );
}

#[test]
fn hw_si_always_reads_set_and_unused_bits_too() {
    let pad = GamePad::new();
    assert_ne!(pad.read(SCR) & SCR_HW_SI, 0);
    assert_eq!(pad.read(SCR) & SCR_UNUSED, SCR_UNUSED);
}

#[test]
fn a_standard_pad_can_never_raise_the_key_interrupt() {
    let mut pad = GamePad::new();
    pad.set_buttons(SGN | RD | STA);
    pad.write(SCR, SCR_HW_SI);
    pad.tick(HARDWARE_READ_CYCLES);

    assert_eq!(pad.data(), SGN | RD | STA);
    assert!(!pad.interrupt_pending(), "sgn blocks it");
}

#[test]
fn without_the_signature_a_high_button_does_raise() {
    let mut pad = GamePad::new();
    pad.set_buttons(RD);
    pad.write(SCR, SCR_HW_SI);
    pad.tick(HARDWARE_READ_CYCLES);

    assert!(pad.interrupt_pending());
}

#[test]
fn a_low_button_alone_never_raises() {
    let mut pad = GamePad::new();
    pad.set_buttons(A);
    pad.write(SCR, SCR_HW_SI);
    pad.tick(HARDWARE_READ_CYCLES);

    assert!(!pad.interrupt_pending(), "nothing in 15 through 4 is set");
}

#[test]
fn inhibiting_the_interrupt_acknowledges_it() {
    let mut pad = GamePad::new();
    pad.set_buttons(RD);
    pad.write(SCR, SCR_HW_SI);
    pad.tick(HARDWARE_READ_CYCLES);
    assert!(pad.interrupt_pending());

    pad.write(SCR, SCR_K_INT_INH);
    assert!(!pad.interrupt_pending());
    assert_ne!(pad.read(SCR) & SCR_K_INT_INH, 0);
}

#[test]
fn an_inhibited_read_never_raises_in_the_first_place() {
    let mut pad = GamePad::new();
    pad.set_buttons(RD);
    pad.write(SCR, SCR_K_INT_INH | SCR_HW_SI);
    pad.tick(HARDWARE_READ_CYCLES);

    assert_eq!(pad.data(), RD);
    assert!(!pad.interrupt_pending());
}

#[test]
fn the_data_registers_ignore_writes() {
    let mut pad = GamePad::new();
    pad.set_buttons(RD);
    pad.write(SCR, SCR_HW_SI);
    pad.tick(HARDWARE_READ_CYCLES);

    pad.write(SDLR, 0xFF);
    pad.write(SDHR, 0xFF);
    assert_eq!(pad.data(), RD);
}

#[test]
fn only_the_pad_registers_are_claimed() {
    for owned in [SDLR, SDHR, SCR] {
        assert!(GamePad::handles(owned), "{owned:#010X}");
    }
    for other in [0x0200_0018u32, 0x0200_0020, 0x0200_0024] {
        assert!(!GamePad::handles(other), "{other:#010X}");
    }
}
