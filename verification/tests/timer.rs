use vb_core::timer::{TCR, TCR_TIM_Z_INT, TCR_T_CLK_SEL, TCR_T_ENB, TCR_UNUSED, TCR_Z_STAT, TCR_Z_STAT_CLR, THR, TICK_CYCLES, TLR, Timer};

fn started(counter: u16, control: u8) -> Timer {
    let mut timer = Timer::new();
    timer.write(TLR, counter.to_le_bytes()[0]);
    timer.write(THR, counter.to_le_bytes()[1]);
    timer.write(TCR, control);
    timer
}

#[test]
fn the_fast_clock_counts_every_tick() {
    let mut timer = started(10, TCR_T_ENB | TCR_T_CLK_SEL);
    timer.tick(TICK_CYCLES);
    assert_eq!(timer.counter(), 9);
    timer.tick(TICK_CYCLES * 4);
    assert_eq!(timer.counter(), 5);
}

#[test]
fn the_slow_clock_counts_once_every_five_ticks() {
    let mut timer = started(10, TCR_T_ENB);
    timer.tick(TICK_CYCLES * 4);
    assert_eq!(timer.counter(), 10);
    timer.tick(TICK_CYCLES);
    assert_eq!(timer.counter(), 9);
}

#[test]
fn a_disabled_timer_holds_its_count() {
    let mut timer = started(10, 0);
    timer.tick(TICK_CYCLES * 20);
    assert_eq!(timer.counter(), 10);
}

#[test]
fn reaching_zero_sets_status_and_raises() {
    let mut timer = started(2, TCR_T_ENB | TCR_T_CLK_SEL | TCR_TIM_Z_INT);
    timer.tick(TICK_CYCLES);
    assert!(!timer.interrupt_pending());

    timer.tick(TICK_CYCLES);
    assert_eq!(timer.counter(), 0);
    assert!(timer.interrupt_pending());
    assert_ne!(timer.read(TCR) & TCR_Z_STAT, 0);
}

#[test]
fn the_interrupt_stays_quiet_when_it_is_not_enabled() {
    let mut timer = started(1, TCR_T_ENB | TCR_T_CLK_SEL);
    timer.tick(TICK_CYCLES);
    assert_eq!(timer.counter(), 0);
    assert!(!timer.interrupt_pending());
    assert_ne!(
        timer.read(TCR) & TCR_Z_STAT,
        0,
        "status is not the interrupt"
    );
}

#[test]
fn the_counter_reloads_on_the_interval_after_zero() {
    let mut timer = started(2, TCR_T_ENB | TCR_T_CLK_SEL);
    timer.tick(TICK_CYCLES * 2);
    assert_eq!(timer.counter(), 0);

    timer.tick(TICK_CYCLES);
    assert_eq!(
        timer.counter(),
        2,
        "reload happens after zero is observable"
    );
}

#[test]
fn a_reload_of_zero_never_raises() {
    let mut timer = started(0, TCR_T_ENB | TCR_T_CLK_SEL | TCR_TIM_Z_INT);
    assert!(!timer.interrupt_pending());

    timer.tick(TICK_CYCLES * 8);
    assert_eq!(timer.counter(), 0);
    assert!(!timer.interrupt_pending());
}

#[test]
fn writing_a_reload_that_lands_on_zero_does_raise() {
    let mut timer = started(5, TCR_T_ENB | TCR_T_CLK_SEL | TCR_TIM_Z_INT);
    assert!(!timer.interrupt_pending());

    timer.write(TLR, 0);
    timer.write(THR, 0);
    assert!(timer.interrupt_pending());
}

#[test]
fn writing_either_half_loads_the_whole_counter() {
    let mut timer = Timer::new();
    timer.write(TLR, 0x34);
    timer.write(THR, 0x12);

    assert_eq!(timer.reload(), 0x1234);
    assert_eq!(timer.counter(), 0x1234);
    assert_eq!(timer.read(TLR), 0x34);
    assert_eq!(timer.read(THR), 0x12);
}

#[test]
fn a_write_restarts_the_interval() {
    let mut timer = started(10, TCR_T_ENB | TCR_T_CLK_SEL);
    timer.tick(TICK_CYCLES - 1);

    timer.write(TLR, 10);
    timer.tick(1);
    assert_eq!(timer.counter(), 10, "the interval restarted from the write");
}

#[test]
fn switching_to_the_fast_clock_mid_interval_spends_the_tick() {
    let mut timer = started(10, TCR_T_ENB);
    timer.tick(TICK_CYCLES);
    assert_eq!(timer.counter(), 10);

    timer.write(TCR, TCR_T_ENB | TCR_T_CLK_SEL);
    assert_eq!(timer.counter(), 9);
}

#[test]
fn switching_clocks_on_a_tick_boundary_costs_nothing() {
    let mut timer = started(10, TCR_T_ENB);
    timer.write(TCR, TCR_T_ENB | TCR_T_CLK_SEL);
    assert_eq!(timer.counter(), 10);
}

#[test]
fn clearing_zero_status_acknowledges_the_interrupt() {
    let mut timer = started(1, TCR_T_ENB | TCR_T_CLK_SEL | TCR_TIM_Z_INT);
    timer.tick(TICK_CYCLES * 2);
    assert!(timer.interrupt_pending());
    assert_ne!(timer.counter(), 0, "reloaded, so the clear is allowed");

    timer.write(
        TCR,
        TCR_T_ENB | TCR_T_CLK_SEL | TCR_TIM_Z_INT | TCR_Z_STAT_CLR,
    );
    assert!(!timer.interrupt_pending());
    assert_eq!(timer.read(TCR) & TCR_Z_STAT, 0);
}

#[test]
fn zero_status_cannot_be_cleared_while_it_is_still_zero_and_running() {
    let mut timer = started(1, TCR_T_ENB | TCR_T_CLK_SEL | TCR_TIM_Z_INT);
    timer.tick(TICK_CYCLES);
    assert_eq!(timer.counter(), 0);

    timer.write(
        TCR,
        TCR_T_ENB | TCR_T_CLK_SEL | TCR_TIM_Z_INT | TCR_Z_STAT_CLR,
    );
    assert_ne!(timer.read(TCR) & TCR_Z_STAT, 0);
    assert!(timer.interrupt_pending());
}

#[test]
fn disabling_and_clearing_together_disables_without_clearing() {
    let mut timer = started(1, TCR_T_ENB | TCR_T_CLK_SEL | TCR_TIM_Z_INT);
    timer.tick(TICK_CYCLES);
    assert_ne!(timer.read(TCR) & TCR_Z_STAT, 0);

    timer.write(TCR, TCR_TIM_Z_INT | TCR_Z_STAT_CLR);

    assert_eq!(timer.read(TCR) & TCR_T_ENB, 0, "the timer did stop");
    assert_ne!(timer.read(TCR) & TCR_Z_STAT, 0, "but status survived");
    assert!(timer.interrupt_pending());
}

#[test]
fn clearing_the_interrupt_enable_acknowledges_too() {
    let mut timer = started(1, TCR_T_ENB | TCR_T_CLK_SEL | TCR_TIM_Z_INT);
    timer.tick(TICK_CYCLES);
    assert!(timer.interrupt_pending());

    timer.write(TCR, TCR_T_ENB | TCR_T_CLK_SEL);
    assert!(!timer.interrupt_pending());
}

#[test]
fn unused_control_bits_read_as_set() {
    let timer = Timer::new();
    assert_eq!(timer.read(TCR) & TCR_UNUSED, TCR_UNUSED);
    assert_ne!(timer.read(TCR) & TCR_Z_STAT_CLR, 0);
}

#[test]
fn a_partial_interval_carries_over_between_calls() {
    let mut timer = started(10, TCR_T_ENB | TCR_T_CLK_SEL);
    for _ in 0..TICK_CYCLES {
        timer.tick(1);
    }
    assert_eq!(timer.counter(), 9);
}

#[test]
fn the_registers_read_back_what_was_loaded() {
    let mut timer = Timer::new();
    timer.write(TLR, 0x34);
    timer.write(THR, 0x12);
    assert_eq!(timer.reload(), 0x1234);
    assert_eq!(timer.counter(), 0x1234);
    assert_eq!(timer.read(TLR), 0x34);
    assert_eq!(timer.read(THR), 0x12);
    assert!(Timer::handles(TLR) && Timer::handles(THR) && Timer::handles(TCR));
    assert!(!Timer::handles(0x0200_0024));
}
