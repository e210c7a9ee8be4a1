use vstd::prelude::*;
use crate::cpu::state::{
    Cpu, PSW_CY, PSW_FIV, PSW_FOV, PSW_FPR, PSW_FRO, PSW_FUD, PSW_FZD, PSW_OV, PSW_S, PSW_Z, psw_with,
};

verus! {

pub const EXC_FP_RESERVED: u16 = 0xFF60;
pub const EXC_FP_INVALID: u16 = 0xFF70;
pub const EXC_FP_ZERO_DIVIDE: u16 = 0xFF68;
pub const EXC_FP_OVERFLOW: u16 = 0xFF64;

pub const HANDLER_FP: u32 = 0xFFFF_FF60;

/// A floating-point fault: each has an exception code and a sticky psw flag.
#[derive(Debug, Clone, Copy, PartialEq, Eq, Structural)]
pub enum FpFault {
    Reserved,
    Invalid,
    ZeroDivide,
    Overflow,
}

impl FpFault {
    pub open spec fn code_spec(self) -> u16 {
        match self {
            FpFault::Reserved => EXC_FP_RESERVED,
            FpFault::Invalid => EXC_FP_INVALID,
            FpFault::ZeroDivide => EXC_FP_ZERO_DIVIDE,
            FpFault::Overflow => EXC_FP_OVERFLOW,
        }
    }

    pub open spec fn flag_spec(self) -> u32 {
        match self {
            FpFault::Reserved => PSW_FRO,
            FpFault::Invalid => PSW_FIV,
            FpFault::ZeroDivide => PSW_FZD,
            FpFault::Overflow => PSW_FOV,
        }
    }

    /// The exception code the fault raises.
    pub fn code(self) -> (r: u16)
        ensures
            r == self.code_spec(),
    {
        match self {
            FpFault::Reserved => EXC_FP_RESERVED,
            FpFault::Invalid => EXC_FP_INVALID,
            FpFault::ZeroDivide => EXC_FP_ZERO_DIVIDE,
            FpFault::Overflow => EXC_FP_OVERFLOW,
        }
    }

    /// The sticky psw flag the fault sets.
    pub fn flag(self) -> (r: u32)
        ensures
            r == self.flag_spec(),
    {
        match self {
            FpFault::Reserved => PSW_FRO,
            FpFault::Invalid => PSW_FIV,
            FpFault::ZeroDivide => PSW_FZD,
            FpFault::Overflow => PSW_FOV,
        }
    }
}

/// What the floating-point unit worked out for one instruction, as plain values: the cpu state
/// it leads to is decided here.
#[derive(Debug, Clone, Copy, PartialEq, Eq, Structural)]
pub enum FpOutcome {
    /// The operation faults: its sticky flag is raised and no register changes.
    Fault(FpFault),
    /// A result for the destination register: its bits, whether the exact value was too small
    /// for a normal single (then zero is stored) and whether rounding lost precision.
    Value { bits: u32, underflow: bool, inexact: bool },
    /// A comparison: only the condition flags are set, from the bits of the difference.
    Compare { bits: u32 },
    /// Nothing to do.
    Nothing,
}

impl Cpu {
    /// Condition flags from a floating-point result; carry copies the sign and overflow clears.
    pub open spec fn with_fp_condition(self, result: u32) -> Cpu {
        let sign = result & 0x8000_0000u32 != 0;
        self.with_flag(PSW_Z, result == 0).with_flag(PSW_S, sign).with_flag(PSW_CY, sign).with_flag(PSW_OV, false)
    }

    /// The cpu after the floating-point unit's outcome for an instruction whose destination is
    /// `target`, and the fault, if any, to raise.
    pub open spec fn apply_float_spec(self, outcome: FpOutcome, target: u8) -> (Cpu, Option<FpFault>) {
        match outcome {
            FpOutcome::Fault(fault) => (self.with_flag(fault.flag_spec(), true), Some(fault)),
            FpOutcome::Value { bits, underflow, inexact } => if underflow {
                (self.with_flag(PSW_FUD, true).with_reg(target, 0).with_fp_condition(0), None)
            } else {
                let c = if inexact { self.with_flag(PSW_FPR, true) } else { self };
                (c.with_reg(target, bits).with_fp_condition(bits), None)
            },
            FpOutcome::Compare { bits } => (self.with_fp_condition(bits), None),
            FpOutcome::Nothing => (self, None),
        }
    }

    fn set_fp_condition(&mut self, result: u32)
        ensures
            *final(self) == old(self).with_fp_condition(result),
    {
        self.set_flag(PSW_Z, result == 0);
        let sign = result & 0x8000_0000u32 != 0;
        self.set_flag(PSW_S, sign);
        // carry duplicates sign for floating point, unlike every integer op
        self.set_flag(PSW_CY, sign);
        self.set_flag(PSW_OV, false);
    }

    // these are sticky, software clears them with ldsr
    fn raise_fp_flag(&mut self, fault: FpFault)
        ensures
            *final(self) == old(self).with_flag(fault.flag_spec(), true),
    {
        self.psw = self.psw | fault.flag();
    }

    /// Carries out what the floating-point unit worked out: raises a fault's sticky flag, or
    /// stores a result with its precision and underflow flags and the condition flags.
    pub fn apply_float(&mut self, outcome: FpOutcome, target: u8) -> (r: Option<FpFault>)
        ensures
            (*final(self), r) == old(self).apply_float_spec(outcome, target),
    {
        match outcome {
            FpOutcome::Fault(fault) => {
                self.raise_fp_flag(fault);
                Some(fault)
            },
            FpOutcome::Value { bits, underflow, inexact } => {
                if underflow {
                    self.psw = self.psw | PSW_FUD;
                    self.set_reg(target, 0);
                    self.set_fp_condition(0);
                } else {
                    if inexact {
                        self.psw = self.psw | PSW_FPR;
                    }
                    self.set_reg(target, bits);
                    self.set_fp_condition(bits);
                }
                None
            },
            FpOutcome::Compare { bits } => {
                self.set_fp_condition(bits);
                None
            },
            FpOutcome::Nothing => None,
        }
    }
}

/// Setting a flag, or changing bits outside it, keeps a set flag set.
proof fn lemma_flag_survives(p: u32, q: u32, v: bool, m: u32)
    by (bit_vector)
    requires
        p & m != 0,
        q & m == 0 || v,
    ensures
        psw_with(p, q, v) & m != 0,
{
}

/// Setting the condition flags keeps every floating-point flag.
proof fn lemma_condition_keeps_fp_flags(p: u32, z: bool, s: bool, m: u32)
    by (bit_vector)
    requires
        p & m != 0,
        m == 0x10u32 || m == 0x20u32 || m == 0x40u32 || m == 0x80u32 || m == 0x100u32 || m == 0x200u32,
    ensures
        psw_with(psw_with(psw_with(psw_with(p, 1u32, z), 2u32, s), 8u32, s), 4u32, false) & m != 0,
{
}

/// The floating-point flags are sticky: no outcome clears one that is set.
pub proof fn lemma_fp_flags_are_sticky(c: Cpu, outcome: FpOutcome, target: u8, mask: u32)
    requires
        mask == PSW_FRO || mask == PSW_FIV || mask == PSW_FZD || mask == PSW_FOV || mask == PSW_FUD || mask
            == PSW_FPR,
        c.flag_spec(mask),
    ensures
        c.apply_float_spec(outcome, target).0.flag_spec(mask),
{
    let p = c.psw;
    match outcome {
        FpOutcome::Fault(fault) => {
            lemma_flag_survives(p, fault.flag_spec(), true, mask);
        },
        FpOutcome::Value { bits, underflow, inexact } => {
            if underflow {
                lemma_flag_survives(p, PSW_FUD, true, mask);
                lemma_condition_keeps_fp_flags(psw_with(p, PSW_FUD, true), 0u32 == 0, 0u32 & 0x8000_0000u32 != 0, mask);
            } else {
                let p1 = if inexact { psw_with(p, PSW_FPR, true) } else { p };
                lemma_flag_survives(p, PSW_FPR, true, mask);
                lemma_condition_keeps_fp_flags(p1, bits == 0, bits & 0x8000_0000u32 != 0, mask);
            }
        },
        FpOutcome::Compare { bits } => {
            lemma_condition_keeps_fp_flags(p, bits == 0, bits & 0x8000_0000u32 != 0, mask);
        },
        FpOutcome::Nothing => {},
    }
}

} // verus!
