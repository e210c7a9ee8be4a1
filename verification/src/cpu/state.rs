use vstd::prelude::*;
use vstd::array::spec_array_update;
use crate::cpu::cache::{CHCW_ICE, Cache};

verus! {

pub const PSW_Z: u32 = 0x0001;
pub const PSW_S: u32 = 0x0002;
pub const PSW_OV: u32 = 0x0004;
pub const PSW_CY: u32 = 0x0008;
pub const PSW_FPR: u32 = 0x0010;
pub const PSW_FUD: u32 = 0x0020;
pub const PSW_FOV: u32 = 0x0040;
pub const PSW_FZD: u32 = 0x0080;
pub const PSW_FIV: u32 = 0x0100;
pub const PSW_FRO: u32 = 0x0200;
pub const PSW_ID: u32 = 0x1000;
pub const PSW_AE: u32 = 0x2000;
pub const PSW_EP: u32 = 0x4000;
pub const PSW_NP: u32 = 0x8000;

pub const PSW_I_SHIFT: u32 = 16;
pub const PSW_I_MASK: u32 = 0x000F_0000;

// rfu bits read as zero and cannot be written
pub const PSW_WRITABLE: u32 = 0x000F_F3FF;

pub const SR_EIPC: u8 = 0;
pub const SR_EIPSW: u8 = 1;
pub const SR_FEPC: u8 = 2;
pub const SR_FEPSW: u8 = 3;
pub const SR_ECR: u8 = 4;
pub const SR_PSW: u8 = 5;
pub const SR_PIR: u8 = 6;
pub const SR_TKCW: u8 = 7;
pub const SR_CHCW: u8 = 24;
pub const SR_ADTRE: u8 = 25;

pub const PIR_VALUE: u32 = 0x0000_5346;

/// The v810's architectural state, its instruction cache, and the cycle accounting.
#[derive(Debug, Clone, PartialEq, Eq)]
pub struct Cpu {
    pub cache: Cache,
    pub regs: [u32; 32],
    pub pc: u32,
    pub psw: u32,
    pub eipc: u32,
    pub eipsw: u32,
    pub fepc: u32,
    pub fepsw: u32,
    pub ecr: u32,
    pub tkcw: u32,
    pub chcw: u32,
    pub adtre: u32,
    pub sr29: u32,
    pub sr30: u32,
    pub sr31: u32,
    pub halted: bool,
    pub cycles: u64,
    // load and store timing depends on the previous bus access
    pub prev_was_load: bool,
    pub consecutive_stores: u32,
}

/// A program status word with the bits of `mask` set or cleared.
pub open spec fn psw_with(psw: u32, mask: u32, value: bool) -> u32 {
    if value {
        psw | mask
    } else {
        psw & !mask
    }
}

/// Whether any bit of `mask` is set.
pub open spec fn psw_flag(psw: u32, mask: u32) -> bool {
    psw & mask != 0
}

impl Cpu {
    /// General register `index`, taken modulo 32.
    pub open spec fn reg_spec(self, index: u8) -> u32 {
        self.regs[(index % 32) as int]
    }

    /// The state after a write of `value` to general register `index`; r0 ignores writes.
    pub open spec fn with_reg(self, index: u8, value: u32) -> Cpu {
        if index % 32 != 0 {
            Cpu { regs: spec_array_update(self.regs, (index % 32) as int, value), ..self }
        } else {
            self
        }
    }

    pub open spec fn flag_spec(self, mask: u32) -> bool {
        psw_flag(self.psw, mask)
    }

    pub open spec fn with_flag(self, mask: u32, value: bool) -> Cpu {
        Cpu { psw: psw_with(self.psw, mask, value), ..self }
    }

    pub open spec fn interrupt_level_spec(self) -> u32 {
        (self.psw & PSW_I_MASK) >> 16u32
    }

    /// The psw with its interrupt level field replaced, clamped to 15.
    pub open spec fn with_interrupt_level(self, level: u32) -> Cpu {
        let clamped = if level < 15 { level } else { 15u32 };
        Cpu { psw: (self.psw & !PSW_I_MASK) | ((clamped << 16u32) & PSW_I_MASK), ..self }
    }

    /// A write to the psw; reserved bits stay clear.
    pub open spec fn with_psw(self, value: u32) -> Cpu {
        Cpu { psw: value & PSW_WRITABLE, ..self }
    }

    /// A system register read; reserved indices read zero, pir reads its fixed value.
    pub open spec fn read_system_register_spec(self, index: u8) -> u32 {
        let i = index % 32;
        if i == 0 { self.eipc }
        else if i == 1 { self.eipsw }
        else if i == 2 { self.fepc }
        else if i == 3 { self.fepsw }
        else if i == 4 { self.ecr }
        else if i == 5 { self.psw }
        else if i == 6 { PIR_VALUE }
        else if i == 7 { self.tkcw }
        else if i == 24 { self.chcw }
        else if i == 25 { self.adtre }
        else if i == 29 { self.sr29 }
        else if i == 30 { self.sr30 }
        else if i == 31 { self.sr31 }
        else { 0 }
    }

    /// A system register write. The restore pcs stay even, the saved psws drop reserved bits,
    /// chcw keeps only the enable bit; ecr, pir, tkcw, sr30 and reserved indices ignore writes.
    pub open spec fn write_system_register_spec(self, index: u8, value: u32) -> Cpu {
        let i = index % 32;
        if i == 0 { Cpu { eipc: value & !1u32, ..self } }
        else if i == 1 { Cpu { eipsw: value & PSW_WRITABLE, ..self } }
        else if i == 2 { Cpu { fepc: value & !1u32, ..self } }
        else if i == 3 { Cpu { fepsw: value & PSW_WRITABLE, ..self } }
        else if i == 5 { self.with_psw(value) }
        else if i == 24 { Cpu { chcw: value & CHCW_ICE, ..self } }
        else if i == 25 { Cpu { adtre: value, ..self } }
        else if i == 29 { Cpu { sr29: value, ..self } }
        else if i == 31 { Cpu { sr31: value, ..self } }
        else { self }
    }

    /// The state at reset: pc at the reset vector, only np set in the psw.
    pub open spec fn is_reset(self) -> bool {
        &&& self.cache.is_empty()
        &&& forall|i: int| 0 <= i < 32 ==> self.regs[i] == 0
        &&& self.pc == crate::RESET_PC
        &&& self.psw == crate::RESET_PSW
        &&& self.eipc == 0 && self.eipsw == 0 && self.fepc == 0 && self.fepsw == 0
        &&& self.ecr == crate::RESET_ECR
        &&& self.tkcw == 0 && self.chcw == 0 && self.adtre == 0
        &&& self.sr29 == 0 && self.sr30 == 0 && self.sr31 == 0
        &&& !self.halted && self.cycles == 0 && !self.prev_was_load && self.consecutive_stores == 0
    }

    /// A cpu at reset.
    pub fn new() -> (r: Self)
        ensures
            r.is_reset(),
    {
        Cpu {
            cache: Cache::new(),
            regs: [0u32; 32],
            pc: crate::RESET_PC,
            psw: crate::RESET_PSW,
            eipc: 0,
            eipsw: 0,
            fepc: 0,
            fepsw: 0,
            ecr: crate::RESET_ECR,
            tkcw: 0,
            chcw: 0,
            adtre: 0,
            sr29: 0,
            sr30: 0,
            sr31: 0,
            halted: false,
            cycles: 0,
            prev_was_load: false,
            consecutive_stores: 0,
        }
    }

    /// Reads general register `index` (modulo 32).
    pub fn reg(&self, index: u8) -> (r: u32)
        ensures
            r == self.reg_spec(index),
    {
        self.regs[(index % 32) as usize]
    }

    /// Writes general register `index` (modulo 32); writes to r0 are dropped.
    pub fn set_reg(&mut self, index: u8, value: u32)
        ensures
            *final(self) == old(self).with_reg(index, value),
    {
        let index = (index % 32) as usize;
        if index != 0 {
            self.regs[index] = value;
        }
    }

    /// Whether any psw bit of `mask` is set.
    pub fn flag(&self, mask: u32) -> (r: bool)
        ensures
            r == self.flag_spec(mask),
    {
        self.psw & mask != 0
    }

    /// Sets or clears the psw bits of `mask`.
    pub fn set_flag(&mut self, mask: u32, value: bool)
        ensures
            *final(self) == old(self).with_flag(mask, value),
    {
        if value {
            self.psw = self.psw | mask;
        } else {
            self.psw = self.psw & !mask;
        }
    }

    /// The interrupt level field of the psw.
    pub fn interrupt_level(&self) -> (r: u32)
        ensures
            r == self.interrupt_level_spec(),
    {
        (self.psw & PSW_I_MASK) >> 16u32
    }

    /// Sets the interrupt level, clamped to 15.
    pub fn set_interrupt_level(&mut self, level: u32)
        ensures
            *final(self) == old(self).with_interrupt_level(level),
    {
        let clamped = if level < 15 { level } else { 15u32 };
        self.psw = (self.psw & !PSW_I_MASK) | ((clamped << 16u32) & PSW_I_MASK);
    }

    /// Writes the psw; reserved bits read as zero.
    pub fn set_psw(&mut self, value: u32)
        ensures
            *final(self) == old(self).with_psw(value),
    {
        self.psw = value & PSW_WRITABLE;
    }

    /// Reads a system register by its index (modulo 32).
    pub fn read_system_register(&self, index: u8) -> (r: u32)
        ensures
            r == self.read_system_register_spec(index),
    {
        let i = index % 32;
        if i == 0 { self.eipc }
        else if i == 1 { self.eipsw }
        else if i == 2 { self.fepc }
        else if i == 3 { self.fepsw }
        else if i == 4 { self.ecr }
        else if i == 5 { self.psw }
        else if i == 6 { PIR_VALUE }
        else if i == 7 { self.tkcw }
        else if i == 24 { self.chcw }
        else if i == 25 { self.adtre }
        else if i == 29 { self.sr29 }
        else if i == 30 { self.sr30 }
        else if i == 31 { self.sr31 }
        else { 0 }
    }

    // ecr, pir, tkcw and sr30 ignore writes; reserved indices too
    /// Writes a system register by its index (modulo 32).
    pub fn write_system_register(&mut self, index: u8, value: u32)
        ensures
            *final(self) == old(self).write_system_register_spec(index, value),
    {
        let i = index % 32;
        if i == 0 {
            self.eipc = value & !1u32;
        } else if i == 1 {
            self.eipsw = value & PSW_WRITABLE;
        } else if i == 2 {
            self.fepc = value & !1u32;
        } else if i == 3 {
            self.fepsw = value & PSW_WRITABLE;
        } else if i == 5 {
            self.set_psw(value);
        } else if i == 24 {
            // the operation bits are write-only requests, not state; cache_control runs them
            self.chcw = value & CHCW_ICE;
        } else if i == 25 {
            self.adtre = value;
        } else if i == 29 {
            self.sr29 = value;
        } else if i == 31 {
            self.sr31 = value;
        }
    }
}

/// Setting or clearing one psw flag changes that flag and no other.
pub proof fn lemma_flag_update(psw: u32, i: u32, j: u32, value: bool)
    requires
        i < 32,
        j < 32,
    ensures
        psw_flag(psw_with(psw, 1u32 << i, value), 1u32 << j) == if i == j { value } else { psw_flag(psw, 1u32 << j) },
{
    lemma_flag_bits(psw, i, j);
}

proof fn lemma_flag_bits(psw: u32, i: u32, j: u32)
    by (bit_vector)
    requires
        i < 32,
        j < 32,
    ensures
        ((psw | (1u32 << i)) & (1u32 << j) != 0) == (i == j || psw & (1u32 << j) != 0),
        ((psw & !(1u32 << i)) & (1u32 << j) != 0) == (i != j && psw & (1u32 << j) != 0),
{
}

/// A psw write never sets a reserved bit, and the level field reads back clamped to 15.
pub proof fn lemma_psw_fields(c: Cpu, value: u32, level: u32)
    ensures
        c.with_psw(value).psw & !PSW_WRITABLE == 0,
        c.with_interrupt_level(level).interrupt_level_spec() == if level < 15 { level } else { 15 },
{
    let p = c.psw;
    let l: u32 = if level < 15 { level } else { 15 };
    assert((value & 0x000F_F3FFu32) & !0x000F_F3FFu32 == 0 && ((((p & !0x000F_0000u32) | ((l << 16u32) & 0x000F_0000u32))
        & 0x000F_0000u32) >> 16u32 == l)) by (bit_vector)
        requires
            l <= 15;
}

/// r0 is hard-wired: a write to it changes nothing.
pub proof fn lemma_r0_ignores_writes(c: Cpu, value: u32)
    ensures
        c.with_reg(0, value) == c,
        c.with_reg(32, value) == c,
{
}

/// A write to a general register reads back, and leaves every other register alone.
pub proof fn lemma_reg_round_trip(c: Cpu, index: u8, other: u8, value: u32)
    requires
        index % 32 != 0,
    ensures
        c.with_reg(index, value).reg_spec(index) == value,
        other % 32 != index % 32 ==> c.with_reg(index, value).reg_spec(other) == c.reg_spec(other),
{
}

impl Default for Cpu {
    fn default() -> (r: Self)
        ensures
            r.is_reset(),
    {
        Self::new()
    }
}

} // verus!
