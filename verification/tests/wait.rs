use vb_core::wait::{WaitController, WCR, WCR_EXP1W, WCR_ROM1W, WCR_UNUSED};

#[test]
fn reset_asks_for_the_slower_timing() {
    let wait = WaitController::new();
    assert_eq!(wait.rom_waits(), 2);
    assert_eq!(wait.expansion_waits(), 2);
}

#[test]
fn a_set_bit_means_one_wait_not_two() {
    let mut wait = WaitController::new();
    wait.write(WCR_ROM1W);

    assert_eq!(wait.rom_waits(), 1);
    assert_eq!(wait.expansion_waits(), 2, "the two are independent");

    wait.write(WCR_ROM1W | WCR_EXP1W);
    assert_eq!(wait.expansion_waits(), 1);
}

#[test]
fn unused_bits_read_as_set() {
    let wait = WaitController::new();
    assert_eq!(wait.read(), WCR_UNUSED);

    let mut wait = WaitController::new();
    wait.write(0xFF);
    assert_eq!(wait.read(), 0xFF);
}

#[test]
fn only_the_wait_register_is_claimed() {
    assert!(WaitController::handles(WCR));
    for other in [0x0200_0018u32, 0x0200_001C, 0x0200_0020, 0x0200_0028] {
        assert!(!WaitController::handles(other), "{other:#010X}");
    }
}

#[test]
fn reads_echo_the_written_speed_bits() {
    let mut wait = WaitController::new();
    wait.write(WCR_EXP1W);
    assert_eq!(wait.read(), WCR_UNUSED | WCR_EXP1W);
    assert_eq!(wait.rom_waits(), 2);
    assert_eq!(WaitController::default().read(), WCR_UNUSED);
}
