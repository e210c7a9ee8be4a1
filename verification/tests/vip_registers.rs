use vb_core::vip::registers::{BKCOL, BRTA, DPCTRL, DPSTTS, DP_DISP, DP_DPRST, DP_FCLK, DP_L0BSY, DP_LOCK, DP_RE, DP_SCANRDY, DP_SYNCE, FRMCYC, GPLT0, INTCLR, INTENB, INTPND, INT_FRAMESTART, INT_SBHIT, INT_SCANERR, INT_TIMEERR, INT_XPEND, JPLT0, Registers, SB_MASK, SB_SHIFT, SPT0, VER, VER_VALUE, XPCTRL, XPSTTS, XP_XPEN, XP_XPRST, shade};

#[test]
fn version_is_fixed_at_two() {
    assert_eq!(Registers::new().read(VER), VER_VALUE);
}

#[test]
fn write_only_registers_read_as_zero() {
    let mut regs = Registers::new();
    regs.write(DPCTRL, DP_DISP | DP_SYNCE);
    regs.write(XPCTRL, XP_XPEN);

    assert_eq!(regs.read(DPCTRL), 0);
    assert_eq!(regs.read(XPCTRL), 0);
    assert_eq!(regs.read(INTCLR), 0);
}

#[test]
fn display_control_reaches_the_status_register() {
    let mut regs = Registers::new();
    regs.write(DPCTRL, DP_DISP | DP_SYNCE | DP_LOCK | DP_RE);

    let status = regs.read(DPSTTS);
    assert_ne!(status & DP_DISP, 0);
    assert_ne!(status & DP_SYNCE, 0);
    assert_ne!(status & DP_LOCK, 0);
    assert_ne!(status & DP_RE, 0);
}

#[test]
fn read_only_display_bits_ignore_writes() {
    let mut regs = Registers::new();
    regs.write(DPCTRL, DP_FCLK | DP_SCANRDY | DP_L0BSY);

    let status = regs.read(DPSTTS);
    assert_eq!(status & DP_FCLK, 0);
    assert_eq!(status & DP_SCANRDY, 0);
    assert_eq!(status & DP_L0BSY, 0);
}

#[test]
fn interrupts_only_fire_when_pending_and_enabled_agree() {
    let mut regs = Registers::new();
    regs.raise(INT_XPEND);
    assert!(!regs.interrupt_pending(), "pending alone is not enough");

    regs.write(INTENB, INT_FRAMESTART);
    assert!(!regs.interrupt_pending(), "a different flag does not count");

    regs.write(INTENB, INT_XPEND);
    assert!(regs.interrupt_pending());
}

#[test]
fn intclr_clears_only_the_written_flags() {
    let mut regs = Registers::new();
    regs.raise(INT_XPEND);
    regs.raise(INT_FRAMESTART);

    regs.write(INTCLR, INT_XPEND);

    assert_eq!(regs.read(INTPND) & INT_XPEND, 0);
    assert_ne!(regs.read(INTPND) & INT_FRAMESTART, 0);
}

#[test]
fn intpnd_ignores_writes() {
    let mut regs = Registers::new();
    regs.write(INTPND, INT_XPEND);
    assert_eq!(regs.read(INTPND), 0);
}

#[test]
fn dprst_and_xprst_clear_different_flags() {
    let mut regs = Registers::new();
    let all = INT_TIMEERR | INT_XPEND | INT_SBHIT | INT_FRAMESTART | INT_SCANERR;

    regs.pending = all;
    regs.enabled = all;
    regs.write(DPCTRL, DP_DPRST);

    assert_ne!(
        regs.pending & INT_XPEND,
        0,
        "xpend survives a display reset"
    );
    assert_ne!(regs.pending & INT_SBHIT, 0);
    assert_eq!(regs.pending & INT_FRAMESTART, 0);
    assert_eq!(regs.pending & INT_TIMEERR, 0);
    assert_eq!(regs.enabled & INT_SCANERR, 0);

    regs.pending = all;
    regs.enabled = all;
    regs.write(XPCTRL, XP_XPRST);

    assert_eq!(regs.pending & INT_XPEND, 0);
    assert_eq!(regs.pending & INT_SBHIT, 0);
    assert_ne!(
        regs.pending & INT_FRAMESTART,
        0,
        "framestart survives a draw reset"
    );
}

#[test]
fn xprst_also_disables_drawing() {
    let mut regs = Registers::new();
    regs.write(XPCTRL, XP_XPEN);
    assert_ne!(regs.read(XPSTTS) & XP_XPEN, 0);

    regs.write(XPCTRL, XP_XPEN | XP_XPRST);
    assert_eq!(regs.read(XPSTTS) & XP_XPEN, 0, "reset wins over enable");
}

#[test]
fn the_row_group_compare_field_is_five_bits() {
    let mut regs = Registers::new();
    regs.write(XPCTRL, 0xFF << SB_SHIFT);
    assert_eq!(regs.row_group_compare, 0x1F);

    regs.row_group = 27;
    assert_eq!((regs.read(XPSTTS) >> SB_SHIFT) & SB_MASK, 27);
}

#[test]
fn narrow_registers_drop_their_unused_bits() {
    let mut regs = Registers::new();
    regs.write(BRTA, 0xFFFF);
    regs.write(FRMCYC, 0xFFFF);
    regs.write(BKCOL, 0xFFFF);
    regs.write(SPT0, 0xFFFF);
    regs.write(GPLT0, 0xFFFF);

    assert_eq!(regs.read(BRTA), 0xFF);
    assert_eq!(regs.read(FRMCYC), 0xF);
    assert_eq!(regs.read(BKCOL), 0x3);
    assert_eq!(regs.read(SPT0), 0x3FF);
    assert_eq!(
        regs.read(GPLT0),
        0xFC,
        "the low two bits have no palette entry"
    );
}

#[test]
fn each_palette_and_group_register_is_separate() {
    let mut regs = Registers::new();
    for index in 0..4u32 {
        regs.write(GPLT0 + index * 2, 0xFC);
        regs.write(JPLT0 + index * 2, 0x54);
        regs.write(SPT0 + index * 2, u16::try_from(index).unwrap() + 1);
    }

    for index in 0..4u32 {
        assert_eq!(regs.read(GPLT0 + index * 2), 0xFC);
        assert_eq!(regs.read(JPLT0 + index * 2), 0x54);
        assert_eq!(
            regs.read(SPT0 + index * 2),
            u16::try_from(index).unwrap() + 1
        );
    }
}

#[test]
fn palette_lookup_skips_the_transparent_entry() {
    let palette = 0b1110_0100;
    assert_eq!(shade(palette, 0), 0, "pixel 0 never reaches a palette");
    assert_eq!(shade(palette, 1), 1);
    assert_eq!(shade(palette, 2), 2);
    assert_eq!(shade(palette, 3), 3);
}

#[test]
fn unmapped_register_addresses_are_inert() {
    let mut regs = Registers::new();
    regs.write(0x0005_F806, 0xFFFF);
    regs.write(0x0005_F900, 0xFFFF);
    assert_eq!(regs.read(0x0005_F806), 0);
    assert_eq!(regs.read(0x0005_F900), 0);
}
