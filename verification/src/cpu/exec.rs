use vstd::prelude::*;
use crate::bus::{Bus, BusView};
use crate::cpu::decode::{
    Condition, Instruction, Op, decode, decode_spec, instruction_width, instruction_width_spec,
};
use crate::cpu::state::{
    Cpu, PSW_AE, PSW_CY, PSW_EP, PSW_ID, PSW_NP, PSW_OV, PSW_S, PSW_Z, lemma_flag_update, psw_flag,
    psw_with,
};

verus! {

pub const EXC_ADDRESS_TRAP: u16 = 0xFFC0;
pub const EXC_ILLEGAL_OPCODE: u16 = 0xFF90;
pub const EXC_ZERO_DIVISION: u16 = 0xFF80;
pub const EXC_TRAP_BASE: u16 = 0xFFA0;

pub const HANDLER_DUPLEXED: u32 = 0xFFFF_FFD0;
pub const HANDLER_ADDRESS_TRAP: u32 = 0xFFFF_FFC0;
pub const HANDLER_ILLEGAL_OPCODE: u32 = 0xFFFF_FF90;
pub const HANDLER_ZERO_DIVISION: u32 = 0xFFFF_FF80;
pub const HANDLER_TRAP_LOW: u32 = 0xFFFF_FFA0;
pub const HANDLER_TRAP_HIGH: u32 = 0xFFFF_FFB0;

/// Why the cpu stopped.
#[derive(Debug, Clone, Copy, PartialEq, Eq, Structural)]
pub enum Stop {
    Halted,
    Fatal { code: u16, pc: u32 },
    Unimplemented { op: Op, pc: u32 },
}

// an exception is not a stop, the cpu keeps running at the handler
/// What one step did.
#[derive(Debug, Clone, Copy, PartialEq, Eq, Structural)]
pub enum StepOutcome {
    Executed(Instruction),
    Exception { code: u16 },
}

/// An exception or interrupt to be taken.
#[derive(Debug, Clone, Copy, PartialEq, Eq, Structural)]
pub struct Exception {
    pub code: u16,
    pub handler: u32,
    pub restore_pc: u32,
    pub level: Option<u32>,
}

/// A byte read as a signed value.
pub open spec fn sign_extend_byte_spec(value: u8) -> u32 {
    ((value as u32) ^ 0x80u32).wrapping_sub(0x80)
}

/// A halfword read as a signed value.
pub open spec fn sign_extend_halfword_spec(value: u16) -> u32 {
    ((value as u32) ^ 0x8000u32).wrapping_sub(0x8000)
}

/// The low 17 bits of a word read as a signed value.
pub open spec fn sign_extend_17_spec(value: u32) -> u32 {
    ((value & 0x1_FFFFu32) ^ 0x1_0000u32).wrapping_sub(0x1_0000)
}

/// The system register number a ldsr, stsr or trap carries in its immediate.
pub open spec fn field_index_spec(imm: i32) -> u8 {
    ((imm as u32) % 32) as u8
}

/// The first `n` bits of `x` in reverse order: bit 0 of `x` ends up highest.
pub open spec fn reverse_bits_upto(x: u32, n: nat) -> u32
    decreases n,
{
    if n == 0 {
        0
    } else {
        (reverse_bits_upto(x, (n - 1) as nat) << 1u32) | ((x >> ((n - 1) as u32)) & 1u32)
    }
}

/// The thirty-two bits of `x` in reverse order.
pub open spec fn reverse_bits_spec(x: u32) -> u32 {
    reverse_bits_upto(x, 32)
}

/// Truncating signed division, as the divide instruction rounds.
pub open spec fn div_trunc(left: i32, right: i32) -> i32 {
    match left.checked_div(right) {
        Some(q) => q,
        None => 0,
    }
}

/// The remainder of truncating division, which takes the dividend's sign.
pub open spec fn rem_trunc(left: i32, right: i32) -> i32 {
    match left.checked_rem(right) {
        Some(r) => r,
        None => 0,
    }
}

impl Cpu {
    /// Zero and sign flags from a result.
    pub open spec fn with_zs(self, result: u32) -> Cpu {
        self.with_flag(PSW_Z, result == 0).with_flag(PSW_S, result & 0x8000_0000u32 != 0)
    }

    /// Addition with all four flags.
    pub open spec fn add_flags_spec(self, left: u32, right: u32) -> (Cpu, u32) {
        let result = left.wrapping_add(right);
        let overflow = (left ^ result) & (right ^ result) & 0x8000_0000u32 != 0;
        (self.with_zs(result).with_flag(PSW_OV, overflow).with_flag(PSW_CY, left + right > u32::MAX), result)
    }

    /// Subtraction with all four flags; carry is the unsigned borrow.
    pub open spec fn sub_flags_spec(self, left: u32, right: u32) -> (Cpu, u32) {
        let result = left.wrapping_sub(right);
        let overflow = (left ^ right) & (left ^ result) & 0x8000_0000u32 != 0;
        (self.with_zs(result).with_flag(PSW_OV, overflow).with_flag(PSW_CY, left < right), result)
    }

    /// Flags after a shift: carry is the last bit shifted out, overflow clear.
    pub open spec fn finish_shift_spec(self, result: u32, carry: bool) -> Cpu {
        self.with_zs(result).with_flag(PSW_OV, false).with_flag(PSW_CY, carry)
    }

    pub open spec fn shift_left_spec(self, value: u32, amount: u32) -> (Cpu, u32) {
        let a = amount % 32;
        let result = if a == 0 { value } else { value << a };
        let carry = if a == 0 { false } else { (value >> ((32 - a) as u32)) & 1u32 != 0 };
        (self.finish_shift_spec(result, carry), result)
    }

    pub open spec fn shift_right_spec(self, value: u32, amount: u32) -> (Cpu, u32) {
        let a = amount % 32;
        let result = if a == 0 { value } else { value >> a };
        let carry = if a == 0 { false } else { (value >> ((a - 1) as u32)) & 1u32 != 0 };
        (self.finish_shift_spec(result, carry), result)
    }

    pub open spec fn shift_arithmetic_right_spec(self, value: u32, amount: u32) -> (Cpu, u32) {
        let a = amount % 32;
        let result = if a == 0 { value } else { ((value as i32) >> a) as u32 };
        let carry = if a == 0 { false } else { (value >> ((a - 1) as u32)) & 1u32 != 0 };
        (self.finish_shift_spec(result, carry), result)
    }

    /// Flags after a logic operation: zero and sign from the result, overflow clear.
    pub open spec fn logic_spec(self, result: u32) -> Cpu {
        self.with_zs(result).with_flag(PSW_OV, false)
    }

    /// Whether an instruction's condition holds; an instruction without one never branches.
    pub open spec fn condition_holds_spec(self, instruction: Instruction) -> bool {
        match instruction.cond {
            Some(cond) => cond.evaluate_spec(
                self.flag_spec(PSW_Z),
                self.flag_spec(PSW_S),
                self.flag_spec(PSW_OV),
                self.flag_spec(PSW_CY),
            ),
            None => false,
        }
    }

    /// The address a load or store uses: reg1 plus the signed displacement, wrapping.
    pub open spec fn effective_address_spec(self, instruction: Instruction) -> u32 {
        self.reg_spec(instruction.reg1).wrapping_add_signed(instruction.imm)
    }

    /// Timing state after an instruction that is neither a load nor a store.
    pub open spec fn plain(self) -> Cpu {
        Cpu { prev_was_load: false, consecutive_stores: 0, ..self }
    }

    /// A load costs four cycles right after another load and five otherwise.
    pub open spec fn load_timing(self) -> (Cpu, u64) {
        (Cpu { prev_was_load: true, consecutive_stores: 0, ..self }, if self.prev_was_load { 4u64 } else { 5u64 })
    }

    /// A store costs one cycle, four from the third in a row on.
    pub open spec fn store_timing(self) -> (Cpu, u64) {
        (
            Cpu { consecutive_stores: self.consecutive_stores.saturating_add(1), prev_was_load: false, ..self },
            if self.consecutive_stores < 2 { 1u64 } else { 4u64 },
        )
    }

    /// The cycle counter advanced by `n`.
    pub open spec fn charge(self, n: u64) -> Cpu {
        Cpu { cycles: (self.cycles + n) as u64, ..self }
    }

    /// Taking an exception. With np set it is fatal: the code, psw and pc are written to the
    /// start of memory and the cpu halts. With ep set it becomes a duplexed exception saved in
    /// fepc and fepsw. Otherwise it is saved in eipc and eipsw and the cpu jumps to its handler.
    pub open spec fn raise_spec(self, bus: BusView, exception: Exception) -> (Cpu, BusView, Result<(), Stop>) {
        if self.flag_spec(PSW_NP) {
            let b = bus.write_u32(0, 0xFFFF_0000u32 | (exception.code as u32)).write_u32(4, self.psw).write_u32(8, self.pc);
            (Cpu { halted: true, ..self }, b, Err(Stop::Fatal { code: exception.code, pc: exception.restore_pc }))
        } else {
            let saved = if self.flag_spec(PSW_EP) {
                Cpu {
                    pc: HANDLER_DUPLEXED,
                    ..Cpu {
                        ecr: (self.ecr & 0x0000_FFFFu32) | ((exception.code as u32) << 16u32),
                        fepsw: self.psw,
                        fepc: exception.restore_pc & !1u32,
                        ..self
                    }.with_flag(PSW_NP, true)
                }
            } else {
                Cpu {
                    pc: exception.handler,
                    ..Cpu {
                        ecr: (self.ecr & 0xFFFF_0000u32) | (exception.code as u32),
                        eipsw: self.psw,
                        eipc: exception.restore_pc & !1u32,
                        ..self
                    }.with_flag(PSW_EP, true)
                }
            };
            let leveled = match exception.level {
                Some(level) => Cpu { halted: false, ..saved.with_interrupt_level(level.saturating_add(1)) },
                None => saved,
            };
            (leveled.with_flag(PSW_ID, true).with_flag(PSW_AE, false), bus, Ok(()))
        }
    }

    /// The instructions that touch only registers and never raise: their effect on the cpu,
    /// cycles included.
    pub open spec fn register_op_spec(self, instruction: Instruction, pc: u32) -> Cpu {
        let reg1 = self.reg_spec(instruction.reg1);
        let reg2 = self.reg_spec(instruction.reg2);
        let imm = instruction.imm;
        let dst = instruction.reg2;
        match instruction.op {
            Op::Mov => self.with_reg(dst, reg1).plain().charge(1),
            Op::MovImm => self.with_reg(dst, imm as u32).plain().charge(1),
            Op::Movea => self.with_reg(dst, reg1.wrapping_add_signed(imm)).plain().charge(1),
            Op::Movhi => self.with_reg(dst, reg1.wrapping_add((imm as u32) << 16u32)).plain().charge(1),
            Op::Add => {
                let (c, r) = self.add_flags_spec(reg2, reg1);
                c.with_reg(dst, r).plain().charge(1)
            },
            Op::AddImm => {
                let (c, r) = self.add_flags_spec(reg2, imm as u32);
                c.with_reg(dst, r).plain().charge(1)
            },
            Op::Addi => {
                let (c, r) = self.add_flags_spec(reg1, imm as u32);
                c.with_reg(dst, r).plain().charge(1)
            },
            Op::Sub => {
                let (c, r) = self.sub_flags_spec(reg2, reg1);
                c.with_reg(dst, r).plain().charge(1)
            },
            Op::Cmp => self.sub_flags_spec(reg2, reg1).0.plain().charge(1),
            Op::CmpImm => self.sub_flags_spec(reg2, imm as u32).0.plain().charge(1),
            Op::And => self.logic_spec(reg2 & reg1).with_reg(dst, reg2 & reg1).plain().charge(1),
            // andi clears s, unlike and, the immediate is zero-extended
            Op::Andi => {
                let r = reg1 & (imm as u32);
                self.with_flag(PSW_Z, r == 0).with_flag(PSW_S, false).with_flag(PSW_OV, false).with_reg(dst, r).plain().charge(1)
            },
            Op::Or => self.logic_spec(reg2 | reg1).with_reg(dst, reg2 | reg1).plain().charge(1),
            Op::Ori => self.logic_spec(reg1 | (imm as u32)).with_reg(dst, reg1 | (imm as u32)).plain().charge(1),
            Op::Xor => self.logic_spec(reg2 ^ reg1).with_reg(dst, reg2 ^ reg1).plain().charge(1),
            Op::Xori => self.logic_spec(reg1 ^ (imm as u32)).with_reg(dst, reg1 ^ (imm as u32)).plain().charge(1),
            Op::Not => self.logic_spec(!reg1).with_reg(dst, !reg1).plain().charge(1),
            Op::Shl => {
                let (c, r) = self.shift_left_spec(reg2, reg1);
                c.with_reg(dst, r).plain().charge(1)
            },
            Op::ShlImm => {
                let (c, r) = self.shift_left_spec(reg2, imm as u32);
                c.with_reg(dst, r).plain().charge(1)
            },
            Op::Shr => {
                let (c, r) = self.shift_right_spec(reg2, reg1);
                c.with_reg(dst, r).plain().charge(1)
            },
            Op::ShrImm => {
                let (c, r) = self.shift_right_spec(reg2, imm as u32);
                c.with_reg(dst, r).plain().charge(1)
            },
            Op::Sar => {
                let (c, r) = self.shift_arithmetic_right_spec(reg2, reg1);
                c.with_reg(dst, r).plain().charge(1)
            },
            Op::SarImm => {
                let (c, r) = self.shift_arithmetic_right_spec(reg2, imm as u32);
                c.with_reg(dst, r).plain().charge(1)
            },
            Op::Jmp => Cpu { pc: reg1 & !1u32, ..self }.plain().charge(3),
            Op::Jr => Cpu { pc: pc.wrapping_add_signed(imm) & !1u32, ..self }.plain().charge(3),
            Op::Jal => Cpu { pc: pc.wrapping_add_signed(imm) & !1u32, ..self.with_reg(31, pc.wrapping_add(4)) }.plain().charge(3),
            Op::Bcond => if self.condition_holds_spec(instruction) {
                Cpu { pc: pc.wrapping_add_signed(imm) & !1u32, ..self }.plain().charge(3)
            } else {
                self.plain().charge(1)
            },
            Op::Setf => self.with_reg(dst, if self.condition_holds_spec(instruction) { 1u32 } else { 0u32 }).plain().charge(1),
            Op::Ldsr => self.write_system_register_spec(field_index_spec(imm), reg2).plain().charge(8),
            Op::Stsr => self.with_reg(dst, self.read_system_register_spec(field_index_spec(imm))).plain().charge(8),
            Op::Reti => if self.flag_spec(PSW_NP) {
                Cpu { pc: self.fepc, ..self }.with_psw(self.fepsw).plain().charge(10)
            } else {
                Cpu { pc: self.eipc, ..self }.with_psw(self.eipsw).plain().charge(10)
            },
            Op::Halt => Cpu { halted: true, ..self }.plain().charge(1),
            Op::Cli => self.with_flag(PSW_ID, false).plain().charge(12),
            Op::Sei => self.with_flag(PSW_ID, true).plain().charge(12),
            Op::Xb => self.with_reg(
                dst,
                (reg2 & 0xFFFF_0000u32) | ((reg2 << 8u32) & 0xFF00u32) | ((reg2 >> 8u32) & 0x00FFu32),
            ).plain().charge(6),
            Op::Xh => self.with_reg(dst, (reg2 >> 16u32) | (reg2 << 16u32)).plain().charge(1),
            Op::Rev => self.with_reg(dst, reverse_bits_spec(reg1)).plain().charge(22),
            _ => self.with_reg(
                dst,
                ((reg2 as i32).wrapping_mul(sign_extend_17_spec(reg1) as i32)) as u32,
            ).plain().charge(9),
        }
    }

    /// The divide-by-zero exception, after the divide's cycles.
    pub open spec fn zero_division_spec(self, bus: BusView, pc: u32) -> (Cpu, BusView, Result<(), Stop>) {
        self.plain().charge(38).raise_spec(
            bus,
            Exception { code: EXC_ZERO_DIVISION, handler: HANDLER_ZERO_DIVISION, restore_pc: pc, level: None },
        )
    }

    /// Multiply and divide: the low result goes to reg2, the high half or remainder to r30, which
    /// is written first.
    pub open spec fn mul_div_spec(self, bus: BusView, instruction: Instruction, pc: u32) -> (Cpu, BusView, Result<(), Stop>) {
        let reg1 = self.reg_spec(instruction.reg1);
        let reg2 = self.reg_spec(instruction.reg2);
        let dst = instruction.reg2;
        match instruction.op {
            Op::Mul => {
                let product = ((reg2 as i32) as int * (reg1 as i32) as int) as i64;
                let low = ((product as u64) % 0x1_0000_0000) as u32;
                let high = ((product as u64) / 0x1_0000_0000) as u32;
                (self.with_zs(low).with_flag(PSW_OV, product != (low as i32) as i64).with_reg(30, high).with_reg(dst, low).plain().charge(13), bus, Ok(()))
            },
            Op::Mulu => {
                let product = (reg2 as int * reg1 as int) as u64;
                let low = (product % 0x1_0000_0000) as u32;
                let high = (product / 0x1_0000_0000) as u32;
                (self.with_zs(low).with_flag(PSW_OV, product != low as u64).with_reg(30, high).with_reg(dst, low).plain().charge(13), bus, Ok(()))
            },
            Op::Div => {
                let left = reg2 as i32;
                let right = reg1 as i32;
                if right == 0 {
                    self.zero_division_spec(bus, pc)
                } else {
                    let overflow = left == i32::MIN && right == -1;
                    let quotient = if overflow { i32::MIN } else { div_trunc(left, right) };
                    let remainder = if overflow { 0i32 } else { rem_trunc(left, right) };
                    (self.with_zs(quotient as u32).with_flag(PSW_OV, overflow).with_reg(30, remainder as u32).with_reg(dst, quotient as u32).plain().charge(38), bus, Ok(()))
                }
            },
            _ => {
                if reg1 == 0 {
                    self.zero_division_spec(bus, pc)
                } else {
                    let quotient = reg2 / reg1;
                    let remainder = reg2 % reg1;
                    (self.with_zs(quotient).with_flag(PSW_OV, false).with_reg(30, remainder).with_reg(dst, quotient).plain().charge(36), bus, Ok(()))
                }
            },
        }
    }

    /// Loads, stores, input, output and caxi.
    pub open spec fn memory_spec(self, bus: BusView, instruction: Instruction) -> (Cpu, BusView, Result<(), Stop>) {
        let reg2 = self.reg_spec(instruction.reg2);
        let dst = instruction.reg2;
        let address = self.effective_address_spec(instruction);
        match instruction.op {
            Op::LdB => {
                let (c, n) = self.with_reg(dst, sign_extend_byte_spec(bus.read_u8(address))).load_timing();
                (c.charge(n), bus, Ok(()))
            },
            Op::InB => {
                let (c, n) = self.with_reg(dst, bus.read_u8(address) as u32).load_timing();
                (c.charge(n), bus, Ok(()))
            },
            Op::LdH => {
                let (c, n) = self.with_reg(dst, sign_extend_halfword_spec(bus.read_u16(address))).load_timing();
                (c.charge(n), bus, Ok(()))
            },
            Op::InH => {
                let (c, n) = self.with_reg(dst, bus.read_u16(address) as u32).load_timing();
                (c.charge(n), bus, Ok(()))
            },
            Op::LdW | Op::InW => {
                let (c, n) = self.with_reg(dst, bus.read_u32(address)).load_timing();
                (c.charge(n), bus, Ok(()))
            },
            Op::StB | Op::OutB => {
                let (c, n) = self.store_timing();
                (c.charge(n), bus.write_u8(address, (reg2 % 256) as u8), Ok(()))
            },
            Op::StH | Op::OutH => {
                let (c, n) = self.store_timing();
                (c.charge(n), bus.write_u16(address, (reg2 % 65536) as u16), Ok(()))
            },
            Op::StW | Op::OutW => {
                let (c, n) = self.store_timing();
                (c.charge(n), bus.write_u32(address, reg2), Ok(()))
            },
            _ => {
                let value = bus.read_u32(address);
                let c = self.sub_flags_spec(reg2, value).0;
                let b = if c.flag_spec(PSW_Z) { bus.write_u32(address, c.reg_spec(30)) } else { bus.write_u32(address, value) };
                (c.with_reg(dst, value).plain().charge(26), b, Ok(()))
            },
        }
    }

    /// What executing a decoded instruction does. `pc` is the instruction's own address, which
    /// branches count from; `next_pc` the one after it, which a trap returns to.
    pub open spec fn execute_spec(self, bus: BusView, instruction: Instruction, pc: u32, next_pc: u32) -> (Cpu, BusView, Result<(), Stop>) {
        match instruction.op {
            Op::Mul | Op::Mulu | Op::Div | Op::Divu => self.mul_div_spec(bus, instruction, pc),
            Op::LdB | Op::LdH | Op::LdW | Op::InB | Op::InH | Op::InW | Op::StB | Op::StH | Op::StW | Op::OutB
            | Op::OutH | Op::OutW | Op::Caxi => self.memory_spec(bus, instruction),
            Op::Trap => {
                let vector = field_index_spec(instruction.imm) as u16;
                self.plain().charge(15).raise_spec(
                    bus,
                    Exception {
                        code: (EXC_TRAP_BASE + vector) as u16,
                        handler: if vector < 16 { HANDLER_TRAP_LOW } else { HANDLER_TRAP_HIGH },
                        restore_pc: next_pc,
                        level: None,
                    },
                )
            },
            Op::Sch0bsu | Op::Sch0bsd | Op::Sch1bsu | Op::Sch1bsd | Op::Orbsu | Op::Andbsu | Op::Xorbsu
            | Op::Movbsu | Op::Ornbsu | Op::Andnbsu | Op::Xornbsu | Op::Notbsu | Op::CmpfS | Op::CvtWs
            | Op::CvtSw | Op::AddfS | Op::SubfS | Op::MulfS | Op::DivfS | Op::TrncSw => (
                self,
                bus,
                Err(Stop::Unimplemented { op: instruction.op, pc }),
            ),
            _ => (self.register_op_spec(instruction, pc), bus, Ok(())),
        }
    }

    /// One step: stop if halted, take an address trap before the fetch, otherwise fetch and
    /// decode at pc, advance pc past the instruction and execute it; an undecodable
    /// instruction raises the illegal opcode exception at its own address.
    pub open spec fn step_spec(self, bus: BusView) -> (Cpu, BusView, Result<StepOutcome, Stop>) {
        if self.halted {
            (self, bus, Err(Stop::Halted))
        } else if self.flag_spec(PSW_AE) && self.pc == self.adtre {
            let (c, b, r) = self.raise_spec(
                bus,
                Exception { code: EXC_ADDRESS_TRAP, handler: HANDLER_ADDRESS_TRAP, restore_pc: self.pc, level: None },
            );
            (c, b, match r {
                Ok(_) => Ok(StepOutcome::Exception { code: EXC_ADDRESS_TRAP }),
                Err(s) => Err(s),
            })
        } else {
            let pc = self.pc;
            let word0 = bus.read_u16(pc);
            let width = instruction_width_spec(word0);
            let word1 = if width == 4 { bus.read_u16(pc.wrapping_add(2)) } else { 0 };
            match decode_spec(word0, word1) {
                Ok(instruction) => {
                    let next_pc = pc.wrapping_add(width);
                    let (c, b, r) = Cpu { pc: next_pc, ..self }.execute_spec(bus, instruction, pc, next_pc);
                    (c, b, match r {
                        Ok(_) => Ok(StepOutcome::Executed(instruction)),
                        Err(s) => Err(s),
                    })
                },
                Err(_) => {
                    let (c, b, r) = self.raise_spec(
                        bus,
                        Exception { code: EXC_ILLEGAL_OPCODE, handler: HANDLER_ILLEGAL_OPCODE, restore_pc: pc, level: None },
                    );
                    (c, b, match r {
                        Ok(_) => Ok(StepOutcome::Exception { code: EXC_ILLEGAL_OPCODE }),
                        Err(s) => Err(s),
                    })
                },
            }
        }
    }
}

fn sign_extend_byte(value: u8) -> (r: u32)
    ensures
        r == sign_extend_byte_spec(value),
{
    ((value as u32) ^ 0x80u32).wrapping_sub(0x80)
}

fn sign_extend_halfword(value: u16) -> (r: u32)
    ensures
        r == sign_extend_halfword_spec(value),
{
    ((value as u32) ^ 0x8000u32).wrapping_sub(0x8000)
}

fn sign_extend_17(value: u32) -> (r: u32)
    ensures
        r == sign_extend_17_spec(value),
{
    ((value & 0x1_FFFFu32) ^ 0x1_0000u32).wrapping_sub(0x1_0000)
}

fn field_index(imm: i32) -> (r: u8)
    ensures
        r == field_index_spec(imm),
        r < 32,
{
    ((imm as u32) % 32) as u8
}

/// The thirty-two bits of `x` in reverse order.
fn reverse_bits(x: u32) -> (r: u32)
    ensures
        r == reverse_bits_spec(x),
{
    let mut r: u32 = 0;
    let mut i: u32 = 0;
    while i < 32
        invariant
            i <= 32,
            r == reverse_bits_upto(x, i as nat),
        decreases 32 - i,
    {
        r = (r << 1u32) | ((x >> i) & 1u32);
        i = i + 1;
    }
    r
}

impl Cpu {
    /// Takes an exception or interrupt. With np set it is fatal: the code, psw and pc are
    /// written to the start of memory, the cpu halts and the stop is returned. With ep set it
    /// becomes a duplexed exception; otherwise it is saved in eipc, eipsw and ecr's low half.
    /// An interrupt also raises the interrupt level past its own and wakes a halted cpu.
    #[verifier::spinoff_prover]
    pub fn raise(&mut self, bus: &mut Bus, exception: Exception) -> (r: Result<(), Stop>)
        requires
            old(bus).wf(),
        ensures
            final(bus).wf(),
            (*final(self), final(bus)@, r) == old(self).raise_spec(old(bus)@, exception),
    {
        if self.flag(PSW_NP) {
            bus.write_u32(0x0000_0000, 0xFFFF_0000u32 | (exception.code as u32));
            bus.write_u32(0x0000_0004, self.psw);
            bus.write_u32(0x0000_0008, self.pc);
            self.halted = true;
            return Err(Stop::Fatal { code: exception.code, pc: exception.restore_pc });
        }
        if self.flag(PSW_EP) {
            self.ecr = (self.ecr & 0x0000_FFFFu32) | ((exception.code as u32) << 16u32);
            self.fepsw = self.psw;
            self.fepc = exception.restore_pc & !1u32;
            self.set_flag(PSW_NP, true);
            self.pc = HANDLER_DUPLEXED;
        } else {
            self.ecr = (self.ecr & 0xFFFF_0000u32) | (exception.code as u32);
            self.eipsw = self.psw;
            self.eipc = exception.restore_pc & !1u32;
            self.set_flag(PSW_EP, true);
            self.pc = exception.handler;
        }
        if let Some(level) = exception.level {
            self.set_interrupt_level(level.saturating_add(1));
            self.halted = false;
        }
        self.set_flag(PSW_ID, true);
        self.set_flag(PSW_AE, false);
        Ok(())
    }

    fn set_zs(&mut self, result: u32)
        ensures
            *final(self) == old(self).with_zs(result),
    {
        self.set_flag(PSW_Z, result == 0);
        self.set_flag(PSW_S, result & 0x8000_0000u32 != 0);
    }

    fn add_flags(&mut self, left: u32, right: u32) -> (r: u32)
        ensures
            (*final(self), r) == old(self).add_flags_spec(left, right),
    {
        let result = left.wrapping_add(right);
        let carry = (left as u64) + (right as u64) > 0xFFFF_FFFFu64;
        let overflow = (left ^ result) & (right ^ result) & 0x8000_0000u32 != 0;
        self.set_zs(result);
        self.set_flag(PSW_OV, overflow);
        self.set_flag(PSW_CY, carry);
        result
    }

    fn sub_flags(&mut self, left: u32, right: u32) -> (r: u32)
        ensures
            (*final(self), r) == old(self).sub_flags_spec(left, right),
    {
        let result = left.wrapping_sub(right);
        let borrow = left < right;
        let overflow = (left ^ right) & (left ^ result) & 0x8000_0000u32 != 0;
        self.set_zs(result);
        self.set_flag(PSW_OV, overflow);
        self.set_flag(PSW_CY, borrow);
        result
    }

    fn finish_shift(&mut self, result: u32, carry: bool)
        ensures
            *final(self) == old(self).finish_shift_spec(result, carry),
    {
        self.set_zs(result);
        self.set_flag(PSW_OV, false);
        self.set_flag(PSW_CY, carry);
    }

    fn shift_left(&mut self, value: u32, amount: u32) -> (r: u32)
        ensures
            (*final(self), r) == old(self).shift_left_spec(value, amount),
    {
        let a = amount % 32;
        let result = if a == 0 { value } else { value << a };
        let carry = if a == 0 { false } else { (value >> (32 - a)) & 1u32 != 0 };
        self.finish_shift(result, carry);
        result
    }

    fn shift_right(&mut self, value: u32, amount: u32) -> (r: u32)
        ensures
            (*final(self), r) == old(self).shift_right_spec(value, amount),
    {
        let a = amount % 32;
        let result = if a == 0 { value } else { value >> a };
        let carry = if a == 0 { false } else { (value >> (a - 1)) & 1u32 != 0 };
        self.finish_shift(result, carry);
        result
    }

    fn shift_arithmetic_right(&mut self, value: u32, amount: u32) -> (r: u32)
        ensures
            (*final(self), r) == old(self).shift_arithmetic_right_spec(value, amount),
    {
        let a = amount % 32;
        let result = if a == 0 { value } else { ((value as i32) >> a) as u32 };
        let carry = if a == 0 { false } else { (value >> (a - 1)) & 1u32 != 0 };
        self.finish_shift(result, carry);
        result
    }

    fn set_logic_flags(&mut self, result: u32)
        ensures
            *final(self) == old(self).logic_spec(result),
    {
        self.set_zs(result);
        self.set_flag(PSW_OV, false);
    }

    fn condition_holds(&self, instruction: Instruction) -> (r: bool)
        ensures
            r == self.condition_holds_spec(instruction),
    {
        match instruction.cond {
            Some(cond) => cond.evaluate(self.flag(PSW_Z), self.flag(PSW_S), self.flag(PSW_OV), self.flag(PSW_CY)),
            None => false,
        }
    }

    fn effective_address(&self, instruction: Instruction) -> (r: u32)
        ensures
            r == self.effective_address_spec(instruction),
    {
        self.reg(instruction.reg1).wrapping_add_signed(instruction.imm)
    }

    fn load_cycles(&mut self) -> (r: u64)
        ensures
            (*final(self), r) == old(self).load_timing(),
    {
        let cycles: u64 = if self.prev_was_load { 4 } else { 5 };
        self.prev_was_load = true;
        self.consecutive_stores = 0;
        cycles
    }

    fn store_cycles(&mut self) -> (r: u64)
        ensures
            (*final(self), r) == old(self).store_timing(),
    {
        let cycles: u64 = if self.consecutive_stores < 2 { 1 } else { 4 };
        self.consecutive_stores = self.consecutive_stores.saturating_add(1);
        self.prev_was_load = false;
        cycles
    }

    fn plain_cycles(&mut self, cycles: u64) -> (r: u64)
        ensures
            *final(self) == old(self).plain(),
            r == cycles,
    {
        self.prev_was_load = false;
        self.consecutive_stores = 0;
        cycles
    }

    fn add_cycles(&mut self, n: u64)
        requires
            old(self).cycles + n <= u64::MAX,
        ensures
            *final(self) == old(self).charge(n),
    {
        self.cycles = self.cycles + n;
    }
}

spec fn arith_op(op: Op) -> bool {
    match op {
        Op::Mov | Op::MovImm | Op::Movea | Op::Movhi | Op::Add | Op::AddImm | Op::Addi | Op::Sub | Op::Cmp
        | Op::CmpImm => true,
        _ => false,
    }
}

spec fn logic_op(op: Op) -> bool {
    match op {
        Op::And | Op::Andi | Op::Or | Op::Ori | Op::Xor | Op::Xori | Op::Not => true,
        _ => false,
    }
}

spec fn shift_op(op: Op) -> bool {
    match op {
        Op::Shl | Op::ShlImm | Op::Shr | Op::ShrImm | Op::Sar | Op::SarImm => true,
        _ => false,
    }
}

spec fn control_op(op: Op) -> bool {
    match op {
        Op::Jmp | Op::Jr | Op::Jal | Op::Bcond | Op::Setf | Op::Ldsr | Op::Stsr | Op::Reti | Op::Halt | Op::Cli
        | Op::Sei => true,
        _ => false,
    }
}

spec fn nvc_op(op: Op) -> bool {
    match op {
        Op::Xb | Op::Xh | Op::Rev | Op::Mpyhw => true,
        _ => false,
    }
}

impl Cpu {
    #[verifier::spinoff_prover]
    fn execute_arith(&mut self, instruction: Instruction, pc: u32)
        requires
            old(self).cycles + 38 <= u64::MAX,
            arith_op(instruction.op),
        ensures
            *final(self) == old(self).register_op_spec(instruction, pc),
    {
        let reg1 = self.reg(instruction.reg1);
        let reg2 = self.reg(instruction.reg2);
        let imm = instruction.imm;
        let dst = instruction.reg2;
        match instruction.op {
            Op::Mov => self.set_reg(dst, reg1),
            Op::MovImm => self.set_reg(dst, imm as u32),
            Op::Movea => self.set_reg(dst, reg1.wrapping_add_signed(imm)),
            Op::Movhi => self.set_reg(dst, reg1.wrapping_add((imm as u32) << 16u32)),
            Op::Add => {
                let result = self.add_flags(reg2, reg1);
                self.set_reg(dst, result);
            },
            Op::AddImm => {
                let result = self.add_flags(reg2, imm as u32);
                self.set_reg(dst, result);
            },
            Op::Addi => {
                let result = self.add_flags(reg1, imm as u32);
                self.set_reg(dst, result);
            },
            Op::Sub => {
                let result = self.sub_flags(reg2, reg1);
                self.set_reg(dst, result);
            },
            Op::Cmp => {
                self.sub_flags(reg2, reg1);
            },
            _ => {
                self.sub_flags(reg2, imm as u32);
            },
        }
        let n = self.plain_cycles(1);
        self.add_cycles(n);
    }

    #[verifier::spinoff_prover]
    fn execute_logic(&mut self, instruction: Instruction, pc: u32)
        requires
            old(self).cycles + 38 <= u64::MAX,
            logic_op(instruction.op),
        ensures
            *final(self) == old(self).register_op_spec(instruction, pc),
    {
        let reg1 = self.reg(instruction.reg1);
        let reg2 = self.reg(instruction.reg2);
        let imm = instruction.imm as u32;
        let dst = instruction.reg2;
        match instruction.op {
            Op::And => {
                self.set_logic_flags(reg2 & reg1);
                self.set_reg(dst, reg2 & reg1);
            },
            // andi clears s, unlike and, the immediate is zero-extended
            Op::Andi => {
                let result = reg1 & imm;
                self.set_flag(PSW_Z, result == 0);
                self.set_flag(PSW_S, false);
                self.set_flag(PSW_OV, false);
                self.set_reg(dst, result);
            },
            Op::Or => {
                self.set_logic_flags(reg2 | reg1);
                self.set_reg(dst, reg2 | reg1);
            },
            Op::Ori => {
                self.set_logic_flags(reg1 | imm);
                self.set_reg(dst, reg1 | imm);
            },
            Op::Xor => {
                self.set_logic_flags(reg2 ^ reg1);
                self.set_reg(dst, reg2 ^ reg1);
            },
            Op::Xori => {
                self.set_logic_flags(reg1 ^ imm);
                self.set_reg(dst, reg1 ^ imm);
            },
            _ => {
                self.set_logic_flags(!reg1);
                self.set_reg(dst, !reg1);
            },
        }
        let n = self.plain_cycles(1);
        self.add_cycles(n);
    }

    #[verifier::spinoff_prover]
    fn execute_shift(&mut self, instruction: Instruction, pc: u32)
        requires
            old(self).cycles + 38 <= u64::MAX,
            shift_op(instruction.op),
        ensures
            *final(self) == old(self).register_op_spec(instruction, pc),
    {
        let reg1 = self.reg(instruction.reg1);
        let reg2 = self.reg(instruction.reg2);
        let imm = instruction.imm as u32;
        let result = match instruction.op {
            Op::Shl => self.shift_left(reg2, reg1),
            Op::ShlImm => self.shift_left(reg2, imm),
            Op::Shr => self.shift_right(reg2, reg1),
            Op::ShrImm => self.shift_right(reg2, imm),
            Op::Sar => self.shift_arithmetic_right(reg2, reg1),
            _ => self.shift_arithmetic_right(reg2, imm),
        };
        self.set_reg(instruction.reg2, result);
        let n = self.plain_cycles(1);
        self.add_cycles(n);
    }

    #[verifier::spinoff_prover]
    fn execute_control(&mut self, instruction: Instruction, pc: u32)
        requires
            old(self).cycles + 38 <= u64::MAX,
            control_op(instruction.op),
        ensures
            *final(self) == old(self).register_op_spec(instruction, pc),
    {
        let reg1 = self.reg(instruction.reg1);
        let reg2 = self.reg(instruction.reg2);
        let imm = instruction.imm;
        let dst = instruction.reg2;
        let cycles: u64 = match instruction.op {
            Op::Jmp => {
                self.pc = reg1 & !1u32;
                3
            },
            Op::Jr => {
                self.pc = pc.wrapping_add_signed(imm) & !1u32;
                3
            },
            Op::Jal => {
                self.set_reg(31, pc.wrapping_add(4));
                self.pc = pc.wrapping_add_signed(imm) & !1u32;
                3
            },
            Op::Bcond => {
                if self.condition_holds(instruction) {
                    self.pc = pc.wrapping_add_signed(imm) & !1u32;
                    3
                } else {
                    1
                }
            },
            Op::Setf => {
                let value: u32 = if self.condition_holds(instruction) { 1 } else { 0 };
                self.set_reg(dst, value);
                1
            },
            Op::Ldsr => {
                self.write_system_register(field_index(imm), reg2);
                8
            },
            Op::Stsr => {
                let value = self.read_system_register(field_index(imm));
                self.set_reg(dst, value);
                8
            },
            Op::Reti => {
                if self.flag(PSW_NP) {
                    self.pc = self.fepc;
                    let psw = self.fepsw;
                    self.set_psw(psw);
                } else {
                    self.pc = self.eipc;
                    let psw = self.eipsw;
                    self.set_psw(psw);
                }
                10
            },
            Op::Halt => {
                self.halted = true;
                1
            },
            Op::Cli => {
                self.set_flag(PSW_ID, false);
                12
            },
            _ => {
                self.set_flag(PSW_ID, true);
                12
            },
        };
        let n = self.plain_cycles(cycles);
        self.add_cycles(n);
    }

    #[verifier::spinoff_prover]
    fn execute_nvc(&mut self, instruction: Instruction, pc: u32)
        requires
            old(self).cycles + 38 <= u64::MAX,
            nvc_op(instruction.op),
        ensures
            *final(self) == old(self).register_op_spec(instruction, pc),
    {
        let reg1 = self.reg(instruction.reg1);
        let reg2 = self.reg(instruction.reg2);
        let dst = instruction.reg2;
        let cycles: u64 = match instruction.op {
            Op::Xb => {
                let result = (reg2 & 0xFFFF_0000u32) | ((reg2 << 8u32) & 0xFF00u32) | ((reg2 >> 8u32) & 0x00FFu32);
                self.set_reg(dst, result);
                6
            },
            Op::Xh => {
                self.set_reg(dst, (reg2 >> 16u32) | (reg2 << 16u32));
                1
            },
            Op::Rev => {
                self.set_reg(dst, reverse_bits(reg1));
                22
            },
            _ => {
                let right = sign_extend_17(reg1);
                let result = (reg2 as i32).wrapping_mul(right as i32);
                self.set_reg(dst, result as u32);
                9
            },
        };
        let n = self.plain_cycles(cycles);
        self.add_cycles(n);
    }
}

spec fn memory_op(op: Op) -> bool {
    match op {
        Op::LdB | Op::LdH | Op::LdW | Op::InB | Op::InH | Op::InW | Op::StB | Op::StH | Op::StW | Op::OutB
        | Op::OutH | Op::OutW | Op::Caxi => true,
        _ => false,
    }
}

spec fn mul_div_op(op: Op) -> bool {
    match op {
        Op::Mul | Op::Mulu | Op::Div | Op::Divu => true,
        _ => false,
    }
}

/// The product of two signed words fits in a signed doubleword.
proof fn lemma_signed_product_bound(a: i32, b: i32)
    ensures
        i64::MIN <= (a as int) * (b as int) <= i64::MAX,
{
    assert(-0x8000_0000 <= a <= 0x7FFF_FFFF);
    assert(-0x8000_0000 <= b <= 0x7FFF_FFFF);
    assert((a as int) * (b as int) <= 0x4000_0000_0000_0000) by (nonlinear_arith)
        requires
            -0x8000_0000 <= a <= 0x7FFF_FFFF,
            -0x8000_0000 <= b <= 0x7FFF_FFFF,
    ;
    assert((a as int) * (b as int) >= -0x4000_0000_0000_0000) by (nonlinear_arith)
        requires
            -0x8000_0000 <= a <= 0x7FFF_FFFF,
            -0x8000_0000 <= b <= 0x7FFF_FFFF,
    ;
}

/// The product of two unsigned words fits in an unsigned doubleword.
proof fn lemma_unsigned_product_bound(a: u32, b: u32)
    ensures
        (a as int) * (b as int) <= u64::MAX,
{
    assert((a as int) * (b as int) <= 0xFFFF_FFFF * 0xFFFF_FFFF) by (nonlinear_arith)
        requires
            a <= 0xFFFF_FFFF,
            b <= 0xFFFF_FFFF,
    ;
}

impl Cpu {
    fn raise_zero_division(&mut self, bus: &mut Bus, pc: u32) -> (r: Result<(), Stop>)
        requires
            old(bus).wf(),
            old(self).cycles + 38 <= u64::MAX,
        ensures
            final(bus).wf(),
            (*final(self), final(bus)@, r) == old(self).zero_division_spec(old(bus)@, pc),
    {
        let n = self.plain_cycles(38);
        self.add_cycles(n);
        self.raise(
            bus,
            Exception { code: EXC_ZERO_DIVISION, handler: HANDLER_ZERO_DIVISION, restore_pc: pc, level: None },
        )
    }

    #[verifier::spinoff_prover]
    fn execute_mul_div(&mut self, bus: &mut Bus, instruction: Instruction, pc: u32) -> (r: Result<(), Stop>)
        requires
            old(bus).wf(),
            old(self).cycles + 38 <= u64::MAX,
            mul_div_op(instruction.op),
        ensures
            final(bus).wf(),
            (*final(self), final(bus)@, r) == old(self).mul_div_spec(old(bus)@, instruction, pc),
    {
        let reg1 = self.reg(instruction.reg1);
        let reg2 = self.reg(instruction.reg2);
        let dst = instruction.reg2;
        match instruction.op {
            Op::Mul => {
                proof {
                    lemma_signed_product_bound(reg2 as i32, reg1 as i32);
                }
                let product = (reg2 as i32 as i64) * (reg1 as i32 as i64);
                let low = ((product as u64) % 0x1_0000_0000) as u32;
                let high = ((product as u64) / 0x1_0000_0000) as u32;
                self.set_zs(low);
                self.set_flag(PSW_OV, product != (low as i32) as i64);
                // r30 first, then reg2, the order shows when reg2 is r30
                self.set_reg(30, high);
                self.set_reg(dst, low);
                let n = self.plain_cycles(13);
                self.add_cycles(n);
                Ok(())
            },
            Op::Mulu => {
                proof {
                    lemma_unsigned_product_bound(reg2, reg1);
                }
                let product = (reg2 as u64) * (reg1 as u64);
                let low = (product % 0x1_0000_0000) as u32;
                let high = (product / 0x1_0000_0000) as u32;
                self.set_zs(low);
                self.set_flag(PSW_OV, product != low as u64);
                self.set_reg(30, high);
                self.set_reg(dst, low);
                let n = self.plain_cycles(13);
                self.add_cycles(n);
                Ok(())
            },
            Op::Div => {
                let left = reg2 as i32;
                let right = reg1 as i32;
                if right == 0 {
                    return self.raise_zero_division(bus, pc);
                }
                let overflow = left == i32::MIN && right == -1;
                let quotient: i32 = if overflow {
                    i32::MIN
                } else {
                    match left.checked_div(right) {
                        Some(q) => q,
                        None => 0,
                    }
                };
                let remainder: i32 = if overflow {
                    0
                } else {
                    match left.checked_rem(right) {
                        Some(q) => q,
                        None => 0,
                    }
                };
                self.set_zs(quotient as u32);
                self.set_flag(PSW_OV, overflow);
                self.set_reg(30, remainder as u32);
                self.set_reg(dst, quotient as u32);
                let n = self.plain_cycles(38);
                self.add_cycles(n);
                Ok(())
            },
            _ => {
                if reg1 == 0 {
                    return self.raise_zero_division(bus, pc);
                }
                let quotient = reg2 / reg1;
                let remainder = reg2 % reg1;
                self.set_zs(quotient);
                self.set_flag(PSW_OV, false);
                self.set_reg(30, remainder);
                self.set_reg(dst, quotient);
                let n = self.plain_cycles(36);
                self.add_cycles(n);
                Ok(())
            },
        }
    }

    #[verifier::spinoff_prover]
    fn execute_memory(&mut self, bus: &mut Bus, instruction: Instruction) -> (r: Result<(), Stop>)
        requires
            old(bus).wf(),
            old(self).cycles + 38 <= u64::MAX,
            memory_op(instruction.op),
        ensures
            final(bus).wf(),
            (*final(self), final(bus)@, r) == old(self).memory_spec(old(bus)@, instruction),
    {
        let reg2 = self.reg(instruction.reg2);
        let dst = instruction.reg2;
        let address = self.effective_address(instruction);
        match instruction.op {
            Op::LdB => {
                let value = sign_extend_byte(bus.read_u8(address));
                self.set_reg(dst, value);
                let n = self.load_cycles();
                self.add_cycles(n);
            },
            Op::InB => {
                let value = bus.read_u8(address) as u32;
                self.set_reg(dst, value);
                let n = self.load_cycles();
                self.add_cycles(n);
            },
            Op::LdH => {
                let value = sign_extend_halfword(bus.read_u16(address));
                self.set_reg(dst, value);
                let n = self.load_cycles();
                self.add_cycles(n);
            },
            Op::InH => {
                let value = bus.read_u16(address) as u32;
                self.set_reg(dst, value);
                let n = self.load_cycles();
                self.add_cycles(n);
            },
            Op::LdW | Op::InW => {
                let value = bus.read_u32(address);
                self.set_reg(dst, value);
                let n = self.load_cycles();
                self.add_cycles(n);
            },
            Op::StB | Op::OutB => {
                bus.write_u8(address, (reg2 % 256) as u8);
                let n = self.store_cycles();
                self.add_cycles(n);
            },
            Op::StH | Op::OutH => {
                bus.write_u16(address, (reg2 % 65536) as u16);
                let n = self.store_cycles();
                self.add_cycles(n);
            },
            Op::StW | Op::OutW => {
                bus.write_u32(address, reg2);
                let n = self.store_cycles();
                self.add_cycles(n);
            },
            _ => {
                let value = bus.read_u32(address);
                self.sub_flags(reg2, value);
                if self.flag(PSW_Z) {
                    let swap = self.reg(30);
                    bus.write_u32(address, swap);
                } else {
                    bus.write_u32(address, value);
                }
                self.set_reg(dst, value);
                let n = self.plain_cycles(26);
                self.add_cycles(n);
            },
        }
        Ok(())
    }

    #[verifier::spinoff_prover]
    fn execute(&mut self, bus: &mut Bus, instruction: Instruction, pc: u32, next_pc: u32) -> (r: Result<(), Stop>)
        requires
            old(bus).wf(),
            old(self).cycles + 38 <= u64::MAX,
        ensures
            final(bus).wf(),
            (*final(self), final(bus)@, r) == old(self).execute_spec(old(bus)@, instruction, pc, next_pc),
    {
        match instruction.op {
            Op::Mul | Op::Mulu | Op::Div | Op::Divu => self.execute_mul_div(bus, instruction, pc),
            Op::LdB | Op::LdH | Op::LdW | Op::InB | Op::InH | Op::InW | Op::StB | Op::StH | Op::StW | Op::OutB
            | Op::OutH | Op::OutW | Op::Caxi => self.execute_memory(bus, instruction),
            Op::Trap => {
                let vector = field_index(instruction.imm) as u16;
                let handler = if vector < 16 { HANDLER_TRAP_LOW } else { HANDLER_TRAP_HIGH };
                let n = self.plain_cycles(15);
                self.add_cycles(n);
                self.raise(
                    bus,
                    Exception { code: EXC_TRAP_BASE + vector, handler, restore_pc: next_pc, level: None },
                )
            },
            Op::Sch0bsu | Op::Sch0bsd | Op::Sch1bsu | Op::Sch1bsd | Op::Orbsu | Op::Andbsu | Op::Xorbsu
            | Op::Movbsu | Op::Ornbsu | Op::Andnbsu | Op::Xornbsu | Op::Notbsu | Op::CmpfS | Op::CvtWs
            | Op::CvtSw | Op::AddfS | Op::SubfS | Op::MulfS | Op::DivfS | Op::TrncSw => Err(
                Stop::Unimplemented { op: instruction.op, pc },
            ),
            Op::Mov | Op::MovImm | Op::Movea | Op::Movhi | Op::Add | Op::AddImm | Op::Addi | Op::Sub | Op::Cmp
            | Op::CmpImm => {
                self.execute_arith(instruction, pc);
                Ok(())
            },
            Op::And | Op::Andi | Op::Or | Op::Ori | Op::Xor | Op::Xori | Op::Not => {
                self.execute_logic(instruction, pc);
                Ok(())
            },
            Op::Shl | Op::ShlImm | Op::Shr | Op::ShrImm | Op::Sar | Op::SarImm => {
                self.execute_shift(instruction, pc);
                Ok(())
            },
            Op::Xb | Op::Xh | Op::Rev | Op::Mpyhw => {
                self.execute_nvc(instruction, pc);
                Ok(())
            },
            _ => {
                self.execute_control(instruction, pc);
                Ok(())
            },
        }
    }

    /// Runs one instruction: stops if halted, takes an address trap before the fetch, otherwise
    /// fetches and decodes at pc, moves pc past the instruction and executes it. An undecodable
    /// instruction raises the illegal opcode exception at its own address.
    #[verifier::spinoff_prover]
    pub fn step(&mut self, bus: &mut Bus) -> (r: Result<StepOutcome, Stop>)
        requires
            old(bus).wf(),
            old(self).halted || old(self).cycles + 38 <= u64::MAX,
        ensures
            final(bus).wf(),
            (*final(self), final(bus)@, r) == old(self).step_spec(old(bus)@),
            old(self).halted ==> r == Err::<StepOutcome, Stop>(Stop::Halted) && *final(self) == *old(self)
                && final(bus)@ == old(bus)@,
    {
        if self.halted {
            return Err(Stop::Halted);
        }
        if self.flag(PSW_AE) && self.pc == self.adtre {
            let restore_pc = self.pc;
            let raised = self.raise(
                bus,
                Exception { code: EXC_ADDRESS_TRAP, handler: HANDLER_ADDRESS_TRAP, restore_pc, level: None },
            );
            return match raised {
                Ok(_) => Ok(StepOutcome::Exception { code: EXC_ADDRESS_TRAP }),
                Err(stop) => Err(stop),
            };
        }
        let pc = self.pc;
        let word0 = bus.read_u16(pc);
        let width = instruction_width(word0);
        let word1 = if width == 4 { bus.read_u16(pc.wrapping_add(2)) } else { 0 };
        match decode(word0, word1) {
            Ok(instruction) => {
                let next_pc = pc.wrapping_add(width);
                self.pc = next_pc;
                match self.execute(bus, instruction, pc, next_pc) {
                    Ok(_) => Ok(StepOutcome::Executed(instruction)),
                    Err(stop) => Err(stop),
                }
            },
            Err(_) => {
                let raised = self.raise(
                    bus,
                    Exception { code: EXC_ILLEGAL_OPCODE, handler: HANDLER_ILLEGAL_OPCODE, restore_pc: pc, level: None },
                );
                match raised {
                    Ok(_) => Ok(StepOutcome::Exception { code: EXC_ILLEGAL_OPCODE }),
                    Err(stop) => Err(stop),
                }
            },
        }
    }
}

/// Taking an exception with np set is fatal: the cpu halts, nothing is saved in the exception
/// registers, and the stop names the exception and where it happened.
pub proof fn lemma_raise_with_np_is_fatal(c: Cpu, b: BusView, e: Exception)
    requires
        c.flag_spec(PSW_NP),
    ensures
        c.raise_spec(b, e).0 == (Cpu { halted: true, ..c }),
        c.raise_spec(b, e).2 == Err::<(), Stop>(Stop::Fatal { code: e.code, pc: e.restore_pc }),
{
}

/// At reset np is set, so the first exception is fatal.
pub proof fn lemma_reset_makes_exceptions_fatal(c: Cpu, b: BusView, e: Exception)
    requires
        c.is_reset(),
    ensures
        c.raise_spec(b, e).2 is Err,
        c.raise_spec(b, e).0.halted,
{
    assert(psw_flag(crate::RESET_PSW, PSW_NP)) by (bit_vector);
}

/// An exception outside any handler saves pc and psw in eipc and eipsw, records its code in
/// the low half of ecr, sets ep and id, clears ae and jumps to its handler.
pub proof fn lemma_raise_saves_in_eipc(c: Cpu, b: BusView, e: Exception)
    requires
        !c.flag_spec(PSW_NP),
        !c.flag_spec(PSW_EP),
        e.level is None,
    ensures
        ({
            let (n, nb, r) = c.raise_spec(b, e);
            &&& r is Ok
            &&& nb == b
            &&& n.pc == e.handler
            &&& n.eipc == e.restore_pc & !1u32
            &&& n.eipsw == c.psw
            &&& n.ecr % 0x10000 == e.code
            &&& n.ecr / 0x10000 == c.ecr / 0x10000
            &&& n.flag_spec(PSW_EP) && n.flag_spec(PSW_ID) && !n.flag_spec(PSW_AE) && !n.flag_spec(PSW_NP)
            &&& n.regs == c.regs
        }),
{
    let p = c.psw;
    assert(psw_flag(psw_with(psw_with(psw_with(p, PSW_EP, true), PSW_ID, true), PSW_AE, false), PSW_EP)
        && psw_flag(psw_with(psw_with(psw_with(p, PSW_EP, true), PSW_ID, true), PSW_AE, false), PSW_ID)
        && !psw_flag(psw_with(psw_with(psw_with(p, PSW_EP, true), PSW_ID, true), PSW_AE, false), PSW_AE)
        && (!psw_flag(p, PSW_NP) ==> !psw_flag(
            psw_with(psw_with(psw_with(p, PSW_EP, true), PSW_ID, true), PSW_AE, false),
            PSW_NP,
        ))) by (bit_vector);
    let ecr = c.ecr;
    let code = e.code;
    assert(((ecr & 0xFFFF_0000u32) | (code as u32)) % 0x10000 == code && ((ecr & 0xFFFF_0000u32) | (code as u32))
        / 0x10000 == ecr / 0x10000) by (bit_vector);
}

/// An exception inside a handler (ep set) is duplexed: pc and psw go to fepc and fepsw, the code
/// to the high half of ecr, np is set, and the cpu jumps to the duplexed handler.
pub proof fn lemma_raise_in_handler_is_duplexed(c: Cpu, b: BusView, e: Exception)
    requires
        !c.flag_spec(PSW_NP),
        c.flag_spec(PSW_EP),
        e.level is None,
    ensures
        ({
            let (n, nb, r) = c.raise_spec(b, e);
            &&& r is Ok
            &&& nb == b
            &&& n.pc == HANDLER_DUPLEXED
            &&& n.fepc == e.restore_pc & !1u32
            &&& n.fepsw == c.psw
            &&& n.eipc == c.eipc && n.eipsw == c.eipsw
            &&& n.ecr / 0x10000 == e.code
            &&& n.ecr % 0x10000 == c.ecr % 0x10000
            &&& n.flag_spec(PSW_NP) && n.flag_spec(PSW_EP) && n.flag_spec(PSW_ID) && !n.flag_spec(PSW_AE)
            &&& n.regs == c.regs
        }),
{
    let p = c.psw;
    assert(psw_flag(p, PSW_EP) ==> psw_flag(psw_with(psw_with(psw_with(p, PSW_NP, true), PSW_ID, true), PSW_AE, false), PSW_NP)
        && psw_flag(psw_with(psw_with(psw_with(p, PSW_NP, true), PSW_ID, true), PSW_AE, false), PSW_EP)
        && psw_flag(psw_with(psw_with(psw_with(p, PSW_NP, true), PSW_ID, true), PSW_AE, false), PSW_ID)
        && !psw_flag(psw_with(psw_with(psw_with(p, PSW_NP, true), PSW_ID, true), PSW_AE, false), PSW_AE)) by (bit_vector);
    let ecr = c.ecr;
    let code = e.code;
    assert(((ecr & 0x0000_FFFFu32) | ((code as u32) << 16u32)) / 0x10000 == code && ((ecr & 0x0000_FFFFu32) | (
    (code as u32) << 16u32)) % 0x10000 == ecr % 0x10000) by (bit_vector);
}

/// Reti undoes an exception taken outside any handler: it returns to the restore address, made
/// even, with the psw the cpu had before (reserved bits read as zero).
pub proof fn lemma_reti_returns_from_exception(c: Cpu, b: BusView, e: Exception, reti: Instruction, at: u32)
    requires
        !c.flag_spec(PSW_NP),
        !c.flag_spec(PSW_EP),
        e.level is None,
        reti.op == Op::Reti,
    ensures
        c.raise_spec(b, e).0.register_op_spec(reti, at).pc == e.restore_pc & !1u32,
        c.raise_spec(b, e).0.register_op_spec(reti, at).psw == c.psw & crate::cpu::state::PSW_WRITABLE,
{
    lemma_raise_saves_in_eipc(c, b, e);
}

/// Reti undoes a duplexed exception too: from fepc and fepsw.
pub proof fn lemma_reti_returns_from_duplexed(c: Cpu, b: BusView, e: Exception, reti: Instruction, at: u32)
    requires
        !c.flag_spec(PSW_NP),
        c.flag_spec(PSW_EP),
        e.level is None,
        reti.op == Op::Reti,
    ensures
        c.raise_spec(b, e).0.register_op_spec(reti, at).pc == e.restore_pc & !1u32,
        c.raise_spec(b, e).0.register_op_spec(reti, at).psw == c.psw & crate::cpu::state::PSW_WRITABLE,
{
    lemma_raise_in_handler_is_duplexed(c, b, e);
}

/// A halted cpu does not step: nothing changes and the stop says so.
pub proof fn lemma_halted_cpu_stays_halted(c: Cpu, b: BusView)
    requires
        c.halted,
    ensures
        c.step_spec(b) == (c, b, Err::<StepOutcome, Stop>(Stop::Halted)),
{
}

/// Exceptions never touch the general registers.
proof fn lemma_raise_keeps_registers(c: Cpu, b: BusView, e: Exception)
    ensures
        c.raise_spec(b, e).0.regs == c.regs,
{
}

#[verifier::spinoff_prover]
#[verifier::rlimit(40)]
proof fn lemma_register_op_keeps_r0(c: Cpu, instruction: Instruction, pc: u32)
    requires
        c.regs[0] == 0,
    ensures
        c.register_op_spec(instruction, pc).regs[0] == 0,
{
}

#[verifier::spinoff_prover]
#[verifier::rlimit(40)]
proof fn lemma_mul_div_keeps_r0(c: Cpu, b: BusView, instruction: Instruction, pc: u32)
    requires
        c.regs[0] == 0,
    ensures
        c.mul_div_spec(b, instruction, pc).0.regs[0] == 0,
{
    lemma_raise_keeps_registers(c.plain().charge(38), b, Exception {
        code: EXC_ZERO_DIVISION,
        handler: HANDLER_ZERO_DIVISION,
        restore_pc: pc,
        level: None,
    });
}

#[verifier::spinoff_prover]
#[verifier::rlimit(40)]
proof fn lemma_memory_keeps_r0(c: Cpu, b: BusView, instruction: Instruction)
    requires
        c.regs[0] == 0,
    ensures
        c.memory_spec(b, instruction).0.regs[0] == 0,
{
}

/// No instruction writes r0.
#[verifier::spinoff_prover]
proof fn lemma_execute_keeps_r0(c: Cpu, b: BusView, instruction: Instruction, pc: u32, next_pc: u32)
    requires
        c.regs[0] == 0,
    ensures
        c.execute_spec(b, instruction, pc, next_pc).0.regs[0] == 0,
{
    lemma_raise_keeps_registers(c.plain().charge(15), b, Exception {
        code: (EXC_TRAP_BASE + field_index_spec(instruction.imm) as u16) as u16,
        handler: if (field_index_spec(instruction.imm) as u16) < 16 { HANDLER_TRAP_LOW } else { HANDLER_TRAP_HIGH },
        restore_pc: next_pc,
        level: None,
    });
    lemma_register_op_keeps_r0(c, instruction, pc);
    lemma_mul_div_keeps_r0(c, b, instruction, pc);
    lemma_memory_keeps_r0(c, b, instruction);
}

/// r0 reads zero forever: a step from a state where it is zero leaves it zero.
#[verifier::spinoff_prover]
pub proof fn lemma_step_keeps_r0(c: Cpu, b: BusView)
    requires
        c.regs[0] == 0,
    ensures
        c.step_spec(b).0.regs[0] == 0,
{
    let pc = c.pc;
    let word0 = b.read_u16(pc);
    let width = instruction_width_spec(word0);
    let word1 = if width == 4 { b.read_u16(pc.wrapping_add(2)) } else { 0 };
    if let Ok(instruction) = decode_spec(word0, word1) {
        lemma_execute_keeps_r0(Cpu { pc: pc.wrapping_add(width), ..c }, b, instruction, pc, pc.wrapping_add(width));
    }
}

/// Exceptions take no cycles of their own.
proof fn lemma_raise_keeps_cycles(c: Cpu, b: BusView, e: Exception)
    ensures
        c.raise_spec(b, e).0.cycles == c.cycles,
{
}

#[verifier::spinoff_prover]
#[verifier::rlimit(40)]
proof fn lemma_register_op_cycles(c: Cpu, instruction: Instruction, pc: u32)
    requires
        c.cycles + 38 <= u64::MAX,
    ensures
        c.cycles <= c.register_op_spec(instruction, pc).cycles <= c.cycles + 38,
{
}

#[verifier::spinoff_prover]
#[verifier::rlimit(40)]
proof fn lemma_mul_div_cycles(c: Cpu, b: BusView, instruction: Instruction, pc: u32)
    requires
        c.cycles + 38 <= u64::MAX,
    ensures
        c.cycles <= c.mul_div_spec(b, instruction, pc).0.cycles <= c.cycles + 38,
{
    lemma_raise_keeps_cycles(c.plain().charge(38), b, Exception {
        code: EXC_ZERO_DIVISION,
        handler: HANDLER_ZERO_DIVISION,
        restore_pc: pc,
        level: None,
    });
}

#[verifier::spinoff_prover]
#[verifier::rlimit(40)]
proof fn lemma_memory_cycles(c: Cpu, b: BusView, instruction: Instruction)
    requires
        c.cycles + 38 <= u64::MAX,
    ensures
        c.cycles <= c.memory_spec(b, instruction).0.cycles <= c.cycles + 38,
{
}

/// Executing an instruction costs between zero (it stopped) and 38 cycles.
#[verifier::spinoff_prover]
proof fn lemma_execute_cycles(c: Cpu, b: BusView, instruction: Instruction, pc: u32, next_pc: u32)
    requires
        c.cycles + 38 <= u64::MAX,
    ensures
        c.cycles <= c.execute_spec(b, instruction, pc, next_pc).0.cycles <= c.cycles + 38,
{
    lemma_raise_keeps_cycles(c.plain().charge(15), b, Exception {
        code: (EXC_TRAP_BASE + field_index_spec(instruction.imm) as u16) as u16,
        handler: if (field_index_spec(instruction.imm) as u16) < 16 { HANDLER_TRAP_LOW } else { HANDLER_TRAP_HIGH },
        restore_pc: next_pc,
        level: None,
    });
    lemma_register_op_cycles(c, instruction, pc);
    lemma_mul_div_cycles(c, b, instruction, pc);
    lemma_memory_cycles(c, b, instruction);
}

/// Time only moves forward: a step adds at most 38 cycles and never takes any away.
#[verifier::spinoff_prover]
pub proof fn lemma_step_cycles(c: Cpu, b: BusView)
    requires
        c.cycles + 38 <= u64::MAX,
    ensures
        c.cycles <= c.step_spec(b).0.cycles <= c.cycles + 38,
{
    let pc = c.pc;
    let word0 = b.read_u16(pc);
    let width = instruction_width_spec(word0);
    let word1 = if width == 4 { b.read_u16(pc.wrapping_add(2)) } else { 0 };
    if let Ok(instruction) = decode_spec(word0, word1) {
        lemma_execute_cycles(Cpu { pc: pc.wrapping_add(width), ..c }, b, instruction, pc, pc.wrapping_add(width));
    }
}

/// An interrupt (an exception with a level) sets the interrupt level one above its own, capped
/// at 15, and wakes a halted cpu.
pub proof fn lemma_interrupt_raises_level(c: Cpu, b: BusView, e: Exception, level: u32)
    requires
        !c.flag_spec(PSW_NP),
        e.level == Some(level),
    ensures
        !c.raise_spec(b, e).0.halted,
        c.raise_spec(b, e).0.interrupt_level_spec() == if level < 14 { level + 1 } else { 15 },
{
    let n = c.raise_spec(b, e).0;
    let saved = if c.flag_spec(PSW_EP) {
        Cpu {
            pc: HANDLER_DUPLEXED,
            ..Cpu {
                ecr: (c.ecr & 0x0000_FFFFu32) | ((e.code as u32) << 16u32),
                fepsw: c.psw,
                fepc: e.restore_pc & !1u32,
                ..c
            }.with_flag(PSW_NP, true)
        }
    } else {
        Cpu {
            pc: e.handler,
            ..Cpu { ecr: (c.ecr & 0xFFFF_0000u32) | (e.code as u32), eipsw: c.psw, eipc: e.restore_pc & !1u32, ..c }.with_flag(
                PSW_EP,
                true,
            )
        }
    };
    let l = level.saturating_add(1);
    let clamped: u32 = if l < 15 { l } else { 15 };
    let p = saved.psw;
    assert((psw_with(psw_with((p & !0x000F_0000u32) | ((clamped << 16u32) & 0x000F_0000u32), 0x1000u32, true), 0x2000u32, false)
        & 0x000F_0000u32) >> 16u32 == clamped) by (bit_vector)
        requires
            clamped <= 15,
    ;
}

/// The core is deterministic: equal states step to equal states, so a rom runs the same way
/// every time.
pub proof fn lemma_step_is_deterministic(c1: Cpu, b1: BusView, c2: Cpu, b2: BusView)
    requires
        c1 == c2,
        b1 == b2,
    ensures
        c1.step_spec(b1) == c2.step_spec(b2),
{
}

/// A word read as a two's-complement number.
pub open spec fn signed_word(x: u32) -> int {
    if x < 0x8000_0000 {
        x as int
    } else {
        x as int - 0x1_0000_0000
    }
}

/// What each condition asks of the two words after `cmp left, right` (left minus right):
/// the unsigned and signed orderings, the sign of the wrapped difference, and whether the
/// signed difference leaves the 32-bit range.
pub open spec fn comparison_holds(cond: Condition, left: u32, right: u32) -> bool {
    let difference = signed_word(left) - signed_word(right);
    let overflows = difference < -0x8000_0000 || difference >= 0x8000_0000;
    let wrapped = if left >= right { left - right } else { left - right + 0x1_0000_0000 };
    match cond {
        Condition::Overflow => overflows,
        Condition::NotOverflow => !overflows,
        Condition::Carry => left < right,
        Condition::NotCarry => left >= right,
        Condition::Zero => left == right,
        Condition::NotZero => left != right,
        Condition::NotHigher => left <= right,
        Condition::Higher => left > right,
        Condition::Negative => wrapped >= 0x8000_0000,
        Condition::Positive => wrapped < 0x8000_0000,
        Condition::LessThan => signed_word(left) < signed_word(right),
        Condition::GreaterOrEqual => signed_word(left) >= signed_word(right),
        Condition::LessOrEqual => signed_word(left) <= signed_word(right),
        Condition::GreaterThan => signed_word(left) > signed_word(right),
        Condition::Always => true,
        Condition::Never => false,
    }
}

/// The four integer flags read back as they were last set, whatever the psw held before.
proof fn lemma_four_flags(c: Cpu, z: bool, s: bool, ov: bool, cy: bool)
    ensures ({
        let f = c.with_flag(PSW_Z, z).with_flag(PSW_S, s).with_flag(PSW_OV, ov).with_flag(PSW_CY, cy);
        f.flag_spec(PSW_Z) == z && f.flag_spec(PSW_S) == s && f.flag_spec(PSW_OV) == ov
            && f.flag_spec(PSW_CY) == cy
    }),
{
    assert(1u32 << 0u32 == 1u32 && 1u32 << 1u32 == 2u32 && 1u32 << 2u32 == 4u32 && 1u32 << 3u32 == 8u32)
        by (bit_vector);
    let p0 = c.psw;
    let p1 = psw_with(p0, PSW_Z, z);
    let p2 = psw_with(p1, PSW_S, s);
    let p3 = psw_with(p2, PSW_OV, ov);
    let p4 = psw_with(p3, PSW_CY, cy);
    lemma_flag_update(p0, 0, 0, z);
    lemma_flag_update(p1, 1, 0, s);
    lemma_flag_update(p1, 1, 1, s);
    lemma_flag_update(p2, 2, 0, ov);
    lemma_flag_update(p2, 2, 1, ov);
    lemma_flag_update(p2, 2, 2, ov);
    lemma_flag_update(p3, 3, 0, cy);
    lemma_flag_update(p3, 3, 1, cy);
    lemma_flag_update(p3, 3, 2, cy);
    lemma_flag_update(p3, 3, 3, cy);
}

/// After `cmp left, right` every branch condition means its comparison of the two words:
/// `bl`/`bnh`/`bh` compare them unsigned, `blt`/`ble`/`bgt`/`bge` signed, `be` tests
/// equality, `bn` the sign of the wrapped difference and `bv` a signed overflow.
pub proof fn lemma_conditions_after_compare(c: Cpu, left: u32, right: u32, cond: Condition)
    ensures ({
        let f = c.sub_flags_spec(left, right).0;
        cond.evaluate_spec(f.flag_spec(PSW_Z), f.flag_spec(PSW_S), f.flag_spec(PSW_OV), f.flag_spec(PSW_CY))
            == comparison_holds(cond, left, right)
    }),
{
    let result = left.wrapping_sub(right);
    let overflow = (left ^ right) & (left ^ result) & 0x8000_0000u32 != 0;
    lemma_four_flags(c, result == 0, result & 0x8000_0000u32 != 0, overflow, left < right);
    assert(((left ^ right) & (left ^ result) & 0x8000_0000u32 != 0) == ((left >= 0x8000_0000u32)
        != (right >= 0x8000_0000u32) && (left >= 0x8000_0000u32) != (result >= 0x8000_0000u32))
        && ((result & 0x8000_0000u32 != 0) == (result >= 0x8000_0000u32))) by (bit_vector);
}

} // verus!
