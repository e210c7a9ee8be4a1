use vb_core::cpu::state::{Cpu, PIR_VALUE, PSW_AE, PSW_CY, PSW_EP, PSW_ID, PSW_I_MASK, PSW_NP, PSW_OV, PSW_S, PSW_WRITABLE, PSW_Z, SR_ECR, SR_EIPC, SR_FEPC, SR_PIR, SR_TKCW};

#[test]
fn reset_state_matches_the_reference() {
    let cpu = Cpu::new();
    assert_eq!(cpu.pc, 0xFFFF_FFF0);
    assert_eq!(cpu.psw, 0x0000_8000);
    assert_eq!(cpu.ecr, 0x0000_FFF0);
    assert!(cpu.flag(PSW_NP));
    assert!(!cpu.flag(PSW_EP));
    assert!(!cpu.flag(PSW_ID));
    assert_eq!(cpu.interrupt_level(), 0);
}

#[test]
fn psw_flag_bits_match_the_documented_layout() {
    assert_eq!(PSW_Z, 1 << 0);
    assert_eq!(PSW_S, 1 << 1);
    assert_eq!(PSW_OV, 1 << 2);
    assert_eq!(PSW_CY, 1 << 3);
    assert_eq!(PSW_ID, 1 << 12);
    assert_eq!(PSW_AE, 1 << 13);
    assert_eq!(PSW_EP, 1 << 14);
    assert_eq!(PSW_NP, 1 << 15);
    assert_eq!(PSW_I_MASK, 0x000F_0000);
}

#[test]
fn r0_never_takes_a_write() {
    let mut cpu = Cpu::new();
    cpu.set_reg(0, 0xDEAD_BEEF);
    assert_eq!(cpu.reg(0), 0);

    cpu.set_reg(31, 0xDEAD_BEEF);
    assert_eq!(cpu.reg(31), 0xDEAD_BEEF);
}

#[test]
fn psw_rejects_reserved_bits() {
    let mut cpu = Cpu::new();
    cpu.set_psw(0xFFFF_FFFF);
    assert_eq!(cpu.psw, PSW_WRITABLE);
    assert_eq!(cpu.psw & 0xFFF0_0000, 0);
    assert_eq!(cpu.psw & 0x0000_0C00, 0);
}

#[test]
fn read_only_system_registers_ignore_writes() {
    let mut cpu = Cpu::new();
    let ecr = cpu.ecr;

    cpu.write_system_register(SR_ECR, 0xFFFF_FFFF);
    cpu.write_system_register(SR_PIR, 0xFFFF_FFFF);
    cpu.write_system_register(SR_TKCW, 0xFFFF_FFFF);
    cpu.write_system_register(30, 0xFFFF_FFFF);

    assert_eq!(cpu.ecr, ecr);
    assert_eq!(cpu.read_system_register(SR_PIR), PIR_VALUE);
    assert_eq!(cpu.tkcw, 0);
    assert_eq!(cpu.sr30, 0);
}

#[test]
fn reserved_system_registers_read_zero() {
    let mut cpu = Cpu::new();
    for index in [8u8, 15, 23, 26, 28] {
        cpu.write_system_register(index, 0xFFFF_FFFF);
        assert_eq!(cpu.read_system_register(index), 0, "sr{index}");
    }
}

#[test]
fn restore_registers_keep_pc_even() {
    let mut cpu = Cpu::new();
    cpu.write_system_register(SR_EIPC, 0xFFFF_FFFF);
    cpu.write_system_register(SR_FEPC, 0xFFFF_FFFF);
    assert_eq!(cpu.eipc & 1, 0);
    assert_eq!(cpu.fepc & 1, 0);
}

#[test]
fn interrupt_level_clamps_to_15() {
    let mut cpu = Cpu::new();
    cpu.set_interrupt_level(20);
    assert_eq!(cpu.interrupt_level(), 15);
    cpu.set_interrupt_level(4);
    assert_eq!(cpu.interrupt_level(), 4);
}
