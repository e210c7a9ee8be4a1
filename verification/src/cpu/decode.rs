use vstd::prelude::*;
use crate::text::{binary_padded, decimal, push_binary_padded, push_decimal, push_str};

verus! {

/// The seven instruction encodings of the v810.
#[derive(Debug, Clone, Copy, PartialEq, Eq, Hash, Structural)]
pub enum Format {
    I,
    II,
    III,
    IV,
    V,
    VI,
    VII,
}

impl Format {
    pub open spec fn width_spec(self) -> u32 {
        match self {
            Format::I | Format::II | Format::III => 2,
            Format::IV | Format::V | Format::VI | Format::VII => 4,
        }
    }

    /// The length of an instruction of this format in bytes.
    pub fn width(self) -> (r: u32)
        ensures
            r == self.width_spec(),
    {
        match self {
            Format::I | Format::II | Format::III => 2,
            Format::IV | Format::V | Format::VI | Format::VII => 4,
        }
    }
}

/// The sixteen branch and setf conditions.
#[derive(Debug, Clone, Copy, PartialEq, Eq, Hash, Structural)]
pub enum Condition {
    Overflow,
    Carry,
    Zero,
    NotHigher,
    Negative,
    Always,
    LessThan,
    LessOrEqual,
    NotOverflow,
    NotCarry,
    NotZero,
    Higher,
    Positive,
    Never,
    GreaterOrEqual,
    GreaterThan,
}

impl Condition {
    /// The condition selected by the low four bits of a field.
    pub open spec fn from_bits_spec(bits: u8) -> Condition {
        let b = bits % 16;
        if b == 0 { Condition::Overflow }
        else if b == 1 { Condition::Carry }
        else if b == 2 { Condition::Zero }
        else if b == 3 { Condition::NotHigher }
        else if b == 4 { Condition::Negative }
        else if b == 5 { Condition::Always }
        else if b == 6 { Condition::LessThan }
        else if b == 7 { Condition::LessOrEqual }
        else if b == 8 { Condition::NotOverflow }
        else if b == 9 { Condition::NotCarry }
        else if b == 10 { Condition::NotZero }
        else if b == 11 { Condition::Higher }
        else if b == 12 { Condition::Positive }
        else if b == 13 { Condition::Never }
        else if b == 14 { Condition::GreaterOrEqual }
        else { Condition::GreaterThan }
    }

    /// The four-bit code of a condition.
    pub open spec fn bits_spec(self) -> u8 {
        match self {
            Condition::Overflow => 0,
            Condition::Carry => 1,
            Condition::Zero => 2,
            Condition::NotHigher => 3,
            Condition::Negative => 4,
            Condition::Always => 5,
            Condition::LessThan => 6,
            Condition::LessOrEqual => 7,
            Condition::NotOverflow => 8,
            Condition::NotCarry => 9,
            Condition::NotZero => 10,
            Condition::Higher => 11,
            Condition::Positive => 12,
            Condition::Never => 13,
            Condition::GreaterOrEqual => 14,
            Condition::GreaterThan => 15,
        }
    }

    /// Whether the condition holds for the given zero, sign, overflow and carry flags.
    pub open spec fn evaluate_spec(self, z: bool, s: bool, ov: bool, cy: bool) -> bool {
        match self {
            Condition::Overflow => ov,
            Condition::Carry => cy,
            Condition::Zero => z,
            Condition::NotHigher => cy || z,
            Condition::Negative => s,
            Condition::Always => true,
            Condition::LessThan => ov != s,
            Condition::LessOrEqual => (ov != s) || z,
            Condition::NotOverflow => !ov,
            Condition::NotCarry => !cy,
            Condition::NotZero => !z,
            Condition::Higher => !(cy || z),
            Condition::Positive => !s,
            Condition::Never => false,
            Condition::GreaterOrEqual => ov == s,
            Condition::GreaterThan => !((ov != s) || z),
        }
    }

    /// Decodes a condition from the low four bits of `bits`.
    pub fn from_bits(bits: u8) -> (r: Condition)
        ensures
            r == Condition::from_bits_spec(bits),
    {
        let b = bits % 16;
        match b {
            0 => Condition::Overflow,
            1 => Condition::Carry,
            2 => Condition::Zero,
            3 => Condition::NotHigher,
            4 => Condition::Negative,
            5 => Condition::Always,
            6 => Condition::LessThan,
            7 => Condition::LessOrEqual,
            8 => Condition::NotOverflow,
            9 => Condition::NotCarry,
            10 => Condition::NotZero,
            11 => Condition::Higher,
            12 => Condition::Positive,
            13 => Condition::Never,
            14 => Condition::GreaterOrEqual,
            _ => Condition::GreaterThan,
        }
    }

    /// Evaluates the condition against the four integer flags.
    pub fn evaluate(self, z: bool, s: bool, ov: bool, cy: bool) -> (r: bool)
        ensures
            r == self.evaluate_spec(z, s, ov, cy),
    {
        match self {
            Condition::Overflow => ov,
            Condition::Carry => cy,
            Condition::Zero => z,
            Condition::NotHigher => cy || z,
            Condition::Negative => s,
            Condition::Always => true,
            Condition::LessThan => ov != s,
            Condition::LessOrEqual => (ov != s) || z,
            Condition::NotOverflow => !ov,
            Condition::NotCarry => !cy,
            Condition::NotZero => !z,
            Condition::Higher => !(cy || z),
            Condition::Positive => !s,
            Condition::Never => false,
            Condition::GreaterOrEqual => ov == s,
            Condition::GreaterThan => !((ov != s) || z),
        }
    }

    pub open spec fn mnemonic_spec(self) -> Seq<char> {
        match self {
            Condition::Overflow => "v"@,
            Condition::Carry => "c"@,
            Condition::Zero => "e"@,
            Condition::NotHigher => "nh"@,
            Condition::Negative => "n"@,
            Condition::Always => "r"@,
            Condition::LessThan => "lt"@,
            Condition::LessOrEqual => "le"@,
            Condition::NotOverflow => "nv"@,
            Condition::NotCarry => "nc"@,
            Condition::NotZero => "ne"@,
            Condition::Higher => "h"@,
            Condition::Positive => "p"@,
            Condition::Never => "nop"@,
            Condition::GreaterOrEqual => "ge"@,
            Condition::GreaterThan => "gt"@,
        }
    }

    /// The assembler suffix of the condition.
    pub fn mnemonic(self) -> (r: &'static str)
        ensures
            r@ == self.mnemonic_spec(),
    {
        match self {
            Condition::Overflow => "v",
            Condition::Carry => "c",
            Condition::Zero => "e",
            Condition::NotHigher => "nh",
            Condition::Negative => "n",
            Condition::Always => "r",
            Condition::LessThan => "lt",
            Condition::LessOrEqual => "le",
            Condition::NotOverflow => "nv",
            Condition::NotCarry => "nc",
            Condition::NotZero => "ne",
            Condition::Higher => "h",
            Condition::Positive => "p",
            Condition::Never => "nop",
            Condition::GreaterOrEqual => "ge",
            Condition::GreaterThan => "gt",
        }
    }
}

/// Codes `c` and `c + 8` are each other's negation, for every flag combination.
pub proof fn lemma_opposite_conditions(bits: u8, z: bool, s: bool, ov: bool, cy: bool)
    requires
        bits < 8,
    ensures
        Condition::from_bits_spec(bits).evaluate_spec(z, s, ov, cy)
            != Condition::from_bits_spec((bits + 8) as u8).evaluate_spec(z, s, ov, cy),
{
}

/// Decoding a condition from its code gives the condition back.
pub proof fn lemma_condition_bits_round_trip(c: Condition)
    ensures
        Condition::from_bits_spec(c.bits_spec()) == c,
        c.bits_spec() < 16,
{
}

} // verus!
verus! {

/// Every operation the decoder recognises.
#[derive(Debug, Clone, Copy, PartialEq, Eq, Hash, Structural)]
pub enum Op {
    Mov,
    Add,
    Sub,
    Cmp,
    Shl,
    Shr,
    Jmp,
    Sar,
    Mul,
    Div,
    Mulu,
    Divu,
    Or,
    And,
    Xor,
    Not,
    MovImm,
    AddImm,
    Setf,
    CmpImm,
    ShlImm,
    ShrImm,
    Cli,
    SarImm,
    Trap,
    Reti,
    Halt,
    Ldsr,
    Stsr,
    Sei,
    Sch0bsu,
    Sch0bsd,
    Sch1bsu,
    Sch1bsd,
    Orbsu,
    Andbsu,
    Xorbsu,
    Movbsu,
    Ornbsu,
    Andnbsu,
    Xornbsu,
    Notbsu,
    Bcond,
    Jr,
    Jal,
    Movea,
    Addi,
    Ori,
    Andi,
    Xori,
    Movhi,
    LdB,
    LdH,
    LdW,
    StB,
    StH,
    StW,
    InB,
    InH,
    InW,
    OutB,
    OutH,
    OutW,
    Caxi,
    CmpfS,
    CvtWs,
    CvtSw,
    AddfS,
    SubfS,
    MulfS,
    DivfS,
    TrncSw,
    Xb,
    Xh,
    Rev,
    Mpyhw,
}

impl Op {
    pub open spec fn mnemonic_spec(self) -> Seq<char> {
        match self {
            Op::Mov => "mov"@,
            Op::Add => "add"@,
            Op::Sub => "sub"@,
            Op::Cmp => "cmp"@,
            Op::Shl => "shl"@,
            Op::Shr => "shr"@,
            Op::Jmp => "jmp"@,
            Op::Sar => "sar"@,
            Op::Mul => "mul"@,
            Op::Div => "div"@,
            Op::Mulu => "mulu"@,
            Op::Divu => "divu"@,
            Op::Or => "or"@,
            Op::And => "and"@,
            Op::Xor => "xor"@,
            Op::Not => "not"@,
            Op::MovImm => "mov"@,
            Op::AddImm => "add"@,
            Op::Setf => "setf"@,
            Op::CmpImm => "cmp"@,
            Op::ShlImm => "shl"@,
            Op::ShrImm => "shr"@,
            Op::Cli => "cli"@,
            Op::SarImm => "sar"@,
            Op::Trap => "trap"@,
            Op::Reti => "reti"@,
            Op::Halt => "halt"@,
            Op::Ldsr => "ldsr"@,
            Op::Stsr => "stsr"@,
            Op::Sei => "sei"@,
            Op::Sch0bsu => "sch0bsu"@,
            Op::Sch0bsd => "sch0bsd"@,
            Op::Sch1bsu => "sch1bsu"@,
            Op::Sch1bsd => "sch1bsd"@,
            Op::Orbsu => "orbsu"@,
            Op::Andbsu => "andbsu"@,
            Op::Xorbsu => "xorbsu"@,
            Op::Movbsu => "movbsu"@,
            Op::Ornbsu => "ornbsu"@,
            Op::Andnbsu => "andnbsu"@,
            Op::Xornbsu => "xornbsu"@,
            Op::Notbsu => "notbsu"@,
            Op::Bcond => "b"@,
            Op::Jr => "jr"@,
            Op::Jal => "jal"@,
            Op::Movea => "movea"@,
            Op::Addi => "addi"@,
            Op::Ori => "ori"@,
            Op::Andi => "andi"@,
            Op::Xori => "xori"@,
            Op::Movhi => "movhi"@,
            Op::LdB => "ld.b"@,
            Op::LdH => "ld.h"@,
            Op::LdW => "ld.w"@,
            Op::StB => "st.b"@,
            Op::StH => "st.h"@,
            Op::StW => "st.w"@,
            Op::InB => "in.b"@,
            Op::InH => "in.h"@,
            Op::InW => "in.w"@,
            Op::OutB => "out.b"@,
            Op::OutH => "out.h"@,
            Op::OutW => "out.w"@,
            Op::Caxi => "caxi"@,
            Op::CmpfS => "cmpf.s"@,
            Op::CvtWs => "cvt.ws"@,
            Op::CvtSw => "cvt.sw"@,
            Op::AddfS => "addf.s"@,
            Op::SubfS => "subf.s"@,
            Op::MulfS => "mulf.s"@,
            Op::DivfS => "divf.s"@,
            Op::TrncSw => "trnc.sw"@,
            Op::Xb => "xb"@,
            Op::Xh => "xh"@,
            Op::Rev => "rev"@,
            Op::Mpyhw => "mpyhw"@,
        }
    }

    /// The assembler name of the operation; register and immediate forms share one.
    pub fn mnemonic(self) -> (r: &'static str)
        ensures
            r@ == self.mnemonic_spec(),
    {
        match self {
            Op::Mov => "mov",
            Op::Add => "add",
            Op::Sub => "sub",
            Op::Cmp => "cmp",
            Op::Shl => "shl",
            Op::Shr => "shr",
            Op::Jmp => "jmp",
            Op::Sar => "sar",
            Op::Mul => "mul",
            Op::Div => "div",
            Op::Mulu => "mulu",
            Op::Divu => "divu",
            Op::Or => "or",
            Op::And => "and",
            Op::Xor => "xor",
            Op::Not => "not",
            Op::MovImm => "mov",
            Op::AddImm => "add",
            Op::Setf => "setf",
            Op::CmpImm => "cmp",
            Op::ShlImm => "shl",
            Op::ShrImm => "shr",
            Op::Cli => "cli",
            Op::SarImm => "sar",
            Op::Trap => "trap",
            Op::Reti => "reti",
            Op::Halt => "halt",
            Op::Ldsr => "ldsr",
            Op::Stsr => "stsr",
            Op::Sei => "sei",
            Op::Sch0bsu => "sch0bsu",
            Op::Sch0bsd => "sch0bsd",
            Op::Sch1bsu => "sch1bsu",
            Op::Sch1bsd => "sch1bsd",
            Op::Orbsu => "orbsu",
            Op::Andbsu => "andbsu",
            Op::Xorbsu => "xorbsu",
            Op::Movbsu => "movbsu",
            Op::Ornbsu => "ornbsu",
            Op::Andnbsu => "andnbsu",
            Op::Xornbsu => "xornbsu",
            Op::Notbsu => "notbsu",
            Op::Bcond => "b",
            Op::Jr => "jr",
            Op::Jal => "jal",
            Op::Movea => "movea",
            Op::Addi => "addi",
            Op::Ori => "ori",
            Op::Andi => "andi",
            Op::Xori => "xori",
            Op::Movhi => "movhi",
            Op::LdB => "ld.b",
            Op::LdH => "ld.h",
            Op::LdW => "ld.w",
            Op::StB => "st.b",
            Op::StH => "st.h",
            Op::StW => "st.w",
            Op::InB => "in.b",
            Op::InH => "in.h",
            Op::InW => "in.w",
            Op::OutB => "out.b",
            Op::OutH => "out.h",
            Op::OutW => "out.w",
            Op::Caxi => "caxi",
            Op::CmpfS => "cmpf.s",
            Op::CvtWs => "cvt.ws",
            Op::CvtSw => "cvt.sw",
            Op::AddfS => "addf.s",
            Op::SubfS => "subf.s",
            Op::MulfS => "mulf.s",
            Op::DivfS => "divf.s",
            Op::TrncSw => "trnc.sw",
            Op::Xb => "xb",
            Op::Xh => "xh",
            Op::Rev => "rev",
            Op::Mpyhw => "mpyhw",
        }
    }
}

} // verus!

verus! {

/// A decoded instruction. `imm` holds whatever immediate or displacement the format carries,
/// already sign- or zero-extended as the instruction requires.
#[derive(Debug, Clone, Copy, PartialEq, Eq, Structural)]
pub struct Instruction {
    pub op: Op,
    pub format: Format,
    pub width: u32,
    pub reg1: u8,
    pub reg2: u8,
    pub imm: i32,
    pub cond: Option<Condition>,
}

/// Why a halfword pair (or a byte slice) does not decode.
#[derive(Debug, Clone, Copy, PartialEq, Eq, Structural)]
pub enum DecodeError {
    IllegalOpcode(u8),
    IllegalSubOpcode { opcode: u8, sub: u8 },
    Truncated { available: usize, needed: usize },
}

/// The six-bit major opcode of the first halfword.
pub open spec fn opcode_spec(word0: u16) -> u8 {
    (word0 / 1024) as u8
}

pub open spec fn reg2_spec(word0: u16) -> u8 {
    ((word0 / 32) % 32) as u8
}

pub open spec fn reg1_spec(word0: u16) -> u8 {
    (word0 % 32) as u8
}

/// The two's-complement reading of a field that holds `2 * half` values.
pub open spec fn sign_extend_spec(value: int, half: int) -> int {
    if value < half {
        value
    } else {
        value - 2 * half
    }
}

/// Instructions are two bytes long below opcode 0b101000 and four bytes from there on.
pub open spec fn instruction_width_spec(word0: u16) -> u32 {
    if opcode_spec(word0) < 40 {
        2
    } else {
        4
    }
}

pub open spec fn format_i_op(opcode: u8) -> Op {
    if opcode == 0 { Op::Mov }
    else if opcode == 1 { Op::Add }
    else if opcode == 2 { Op::Sub }
    else if opcode == 3 { Op::Cmp }
    else if opcode == 4 { Op::Shl }
    else if opcode == 5 { Op::Shr }
    else if opcode == 6 { Op::Jmp }
    else if opcode == 7 { Op::Sar }
    else if opcode == 8 { Op::Mul }
    else if opcode == 9 { Op::Div }
    else if opcode == 10 { Op::Mulu }
    else if opcode == 11 { Op::Divu }
    else if opcode == 12 { Op::Or }
    else if opcode == 13 { Op::And }
    else if opcode == 14 { Op::Xor }
    else { Op::Not }
}

/// How a format II instruction reads its five-bit field.
pub enum FieldUse {
    Signed,
    Unsigned,
    Condition,
    Unused,
}

/// Operation and field use of each format II opcode; `None` for the hole at 0b011011.
pub open spec fn format_ii_op(opcode: u8) -> Option<(Op, FieldUse)> {
    if opcode == 16 { Some((Op::MovImm, FieldUse::Signed)) }
    else if opcode == 17 { Some((Op::AddImm, FieldUse::Signed)) }
    else if opcode == 18 { Some((Op::Setf, FieldUse::Condition)) }
    else if opcode == 19 { Some((Op::CmpImm, FieldUse::Signed)) }
    else if opcode == 20 { Some((Op::ShlImm, FieldUse::Unsigned)) }
    else if opcode == 21 { Some((Op::ShrImm, FieldUse::Unsigned)) }
    else if opcode == 22 { Some((Op::Cli, FieldUse::Unused)) }
    else if opcode == 23 { Some((Op::SarImm, FieldUse::Unsigned)) }
    else if opcode == 24 { Some((Op::Trap, FieldUse::Unsigned)) }
    else if opcode == 25 { Some((Op::Reti, FieldUse::Unused)) }
    else if opcode == 26 { Some((Op::Halt, FieldUse::Unused)) }
    else if opcode == 28 { Some((Op::Ldsr, FieldUse::Unsigned)) }
    else if opcode == 29 { Some((Op::Stsr, FieldUse::Unsigned)) }
    else if opcode == 30 { Some((Op::Sei, FieldUse::Unused)) }
    else { None }
}

/// The bit string operation named by a sub-opcode, if any.
pub open spec fn bit_string_op(sub: u8) -> Option<Op> {
    if sub == 0 { Some(Op::Sch0bsu) }
    else if sub == 1 { Some(Op::Sch0bsd) }
    else if sub == 2 { Some(Op::Sch1bsu) }
    else if sub == 3 { Some(Op::Sch1bsd) }
    else if sub == 8 { Some(Op::Orbsu) }
    else if sub == 9 { Some(Op::Andbsu) }
    else if sub == 10 { Some(Op::Xorbsu) }
    else if sub == 11 { Some(Op::Movbsu) }
    else if sub == 12 { Some(Op::Ornbsu) }
    else if sub == 13 { Some(Op::Andnbsu) }
    else if sub == 14 { Some(Op::Xornbsu) }
    else if sub == 15 { Some(Op::Notbsu) }
    else { None }
}

/// The format VI operation of an opcode in 0b110000..=0b111111, if any.
pub open spec fn format_vi_op(opcode: u8) -> Option<Op> {
    if opcode == 48 { Some(Op::LdB) }
    else if opcode == 49 { Some(Op::LdH) }
    else if opcode == 51 { Some(Op::LdW) }
    else if opcode == 52 { Some(Op::StB) }
    else if opcode == 53 { Some(Op::StH) }
    else if opcode == 55 { Some(Op::StW) }
    else if opcode == 56 { Some(Op::InB) }
    else if opcode == 57 { Some(Op::InH) }
    else if opcode == 58 { Some(Op::Caxi) }
    else if opcode == 59 { Some(Op::InW) }
    else if opcode == 60 { Some(Op::OutB) }
    else if opcode == 61 { Some(Op::OutH) }
    else if opcode == 63 { Some(Op::OutW) }
    else { None }
}

/// The format VII operation of a sub-opcode, if any.
pub open spec fn format_vii_op(sub: u8) -> Option<Op> {
    if sub == 0 { Some(Op::CmpfS) }
    else if sub == 2 { Some(Op::CvtWs) }
    else if sub == 3 { Some(Op::CvtSw) }
    else if sub == 4 { Some(Op::AddfS) }
    else if sub == 5 { Some(Op::SubfS) }
    else if sub == 6 { Some(Op::MulfS) }
    else if sub == 7 { Some(Op::DivfS) }
    else if sub == 8 { Some(Op::Xb) }
    else if sub == 9 { Some(Op::Xh) }
    else if sub == 10 { Some(Op::Rev) }
    else if sub == 11 { Some(Op::TrncSw) }
    else if sub == 12 { Some(Op::Mpyhw) }
    else { None }
}

pub open spec fn decode_format_ii_spec(opcode: u8, word0: u16) -> Result<Instruction, DecodeError> {
    let field = word0 % 32;
    if opcode == 31 {
        let sub = reg1_spec(word0);
        match bit_string_op(sub) {
            Some(op) => Ok(Instruction {
                op,
                format: Format::II,
                width: 2,
                reg1: sub,
                reg2: reg2_spec(word0),
                imm: 0,
                cond: None,
            }),
            None => Err(DecodeError::IllegalSubOpcode { opcode, sub }),
        }
    } else {
        match format_ii_op(opcode) {
            Some((op, used)) => Ok(Instruction {
                op,
                format: Format::II,
                width: 2,
                reg1: 0,
                reg2: reg2_spec(word0),
                imm: match used {
                    FieldUse::Signed => sign_extend_spec(field as int, 16) as i32,
                    FieldUse::Unused => 0,
                    _ => field as i32,
                },
                cond: match used {
                    FieldUse::Condition => Some(Condition::from_bits_spec((field % 16) as u8)),
                    _ => None,
                },
            }),
            None => Err(DecodeError::IllegalOpcode(opcode)),
        }
    }
}

/// What a pair of halfwords decodes to. `word1` is only consulted by four-byte formats.
pub open spec fn decode_spec(word0: u16, word1: u16) -> Result<Instruction, DecodeError> {
    let opcode = opcode_spec(word0);
    if 32 <= opcode < 40 {
        Ok(Instruction {
            op: Op::Bcond,
            format: Format::III,
            width: 2,
            reg1: 0,
            reg2: 0,
            imm: sign_extend_spec((word0 % 512) as int, 256) as i32,
            cond: Some(Condition::from_bits_spec(((word0 / 512) % 16) as u8)),
        })
    } else if opcode < 16 {
        Ok(Instruction {
            op: format_i_op(opcode),
            format: Format::I,
            width: 2,
            reg1: reg1_spec(word0),
            reg2: reg2_spec(word0),
            imm: 0,
            cond: None,
        })
    } else if opcode < 32 {
        decode_format_ii_spec(opcode, word0)
    } else if opcode == 42 || opcode == 43 {
        Ok(Instruction {
            op: if opcode == 42 { Op::Jr } else { Op::Jal },
            format: Format::IV,
            width: 4,
            reg1: 0,
            reg2: 0,
            imm: sign_extend_spec((word0 % 1024) * 65536 + word1, 0x0200_0000) as i32,
            cond: None,
        })
    } else if opcode < 48 {
        Ok(Instruction {
            op: if opcode == 40 { Op::Movea }
                else if opcode == 41 { Op::Addi }
                else if opcode == 44 { Op::Ori }
                else if opcode == 45 { Op::Andi }
                else if opcode == 46 { Op::Xori }
                else { Op::Movhi },
            format: Format::V,
            width: 4,
            reg1: reg1_spec(word0),
            reg2: reg2_spec(word0),
            imm: if opcode == 40 || opcode == 41 { sign_extend_spec(word1 as int, 0x8000) as i32 } else { word1 as i32 },
            cond: None,
        })
    } else if opcode == 62 {
        let sub = (word1 / 1024) as u8;
        match format_vii_op(sub) {
            Some(op) => Ok(Instruction {
                op,
                format: Format::VII,
                width: 4,
                reg1: reg1_spec(word0),
                reg2: reg2_spec(word0),
                imm: 0,
                cond: None,
            }),
            None => Err(DecodeError::IllegalSubOpcode { opcode, sub }),
        }
    } else {
        match format_vi_op(opcode) {
            Some(op) => Ok(Instruction {
                op,
                format: Format::VI,
                width: 4,
                reg1: reg1_spec(word0),
                reg2: reg2_spec(word0),
                imm: sign_extend_spec(word1 as int, 0x8000) as i32,
                cond: None,
            }),
            None => Err(DecodeError::IllegalOpcode(opcode)),
        }
    }
}

fn opcode_of(word0: u16) -> (r: u8)
    ensures
        r == opcode_spec(word0),
        r < 64,
{
    (word0 / 1024) as u8
}

fn reg2_of(word0: u16) -> (r: u8)
    ensures
        r == reg2_spec(word0),
{
    ((word0 / 32) % 32) as u8
}

fn reg1_of(word0: u16) -> (r: u8)
    ensures
        r == reg1_spec(word0),
{
    (word0 % 32) as u8
}

fn sign_extend(value: u32, half: u32) -> (r: i32)
    requires
        half == 16 || half == 256 || half == 0x8000 || half == 0x0200_0000,
        value < 2 * half,
    ensures
        r == sign_extend_spec(value as int, half as int),
{
    if value < half {
        value as i32
    } else {
        (value as i32) - ((2 * half) as i32)
    }
}

/// The length in bytes of the instruction whose first halfword is `word0`.
pub fn instruction_width(word0: u16) -> (r: u32)
    ensures
        r == instruction_width_spec(word0),
{
    if opcode_of(word0) < 40 {
        2
    } else {
        4
    }
}

/// Decodes the instruction that starts with `word0`; `word1` is the following halfword.
pub fn decode(word0: u16, word1: u16) -> (r: Result<Instruction, DecodeError>)
    ensures
        r == decode_spec(word0, word1),
{
    let opcode = opcode_of(word0);

    if 32 <= opcode && opcode < 40 {
        return Ok(Instruction {
            op: Op::Bcond,
            format: Format::III,
            width: 2,
            reg1: 0,
            reg2: 0,
            // disp counts from this instruction's own address, not the next one
            imm: sign_extend((word0 % 512) as u32, 256),
            cond: Some(Condition::from_bits(((word0 / 512) % 16) as u8)),
        });
    }

    if opcode < 16 {
        decode_format_i(opcode, word0)
    } else if opcode < 32 {
        decode_format_ii(opcode, word0)
    } else if opcode == 42 || opcode == 43 {
        decode_format_iv(opcode, word0, word1)
    } else if opcode < 48 {
        decode_format_v(opcode, word0, word1)
    } else if opcode == 62 {
        decode_format_vii(opcode, word0, word1)
    } else {
        decode_format_vi(opcode, word0, word1)
    }
}

/// Decodes the instruction at the start of a byte slice, reading halfwords little-endian.
pub fn decode_slice(bytes: &[u8]) -> (r: Result<Instruction, DecodeError>)
    ensures
        bytes@.len() < 2 ==> r == Err::<Instruction, DecodeError>(
            DecodeError::Truncated { available: bytes@.len() as usize, needed: 2 },
        ),
        bytes@.len() >= 2 ==> ({
            let word0 = (bytes@[0] + 256 * bytes@[1]) as u16;
            if instruction_width_spec(word0) == 2 {
                r == decode_spec(word0, 0)
            } else if bytes@.len() < 4 {
                r == Err::<Instruction, DecodeError>(
                    DecodeError::Truncated { available: bytes@.len() as usize, needed: 4 },
                )
            } else {
                r == decode_spec(word0, (bytes@[2] + 256 * bytes@[3]) as u16)
            }
        }),
{
    if bytes.len() < 2 {
        return Err(DecodeError::Truncated { available: bytes.len(), needed: 2 });
    }

    let word0 = bytes[0] as u16 + 256 * (bytes[1] as u16);
    if instruction_width(word0) == 2 {
        return decode(word0, 0);
    }

    if bytes.len() < 4 {
        return Err(DecodeError::Truncated { available: bytes.len(), needed: 4 });
    }

    decode(word0, bytes[2] as u16 + 256 * (bytes[3] as u16))
}

fn decode_format_i(opcode: u8, word0: u16) -> (r: Result<Instruction, DecodeError>)
    requires
        opcode < 16,
        opcode == opcode_spec(word0),
    ensures
        r == decode_spec(word0, 0),
{
    let op = match opcode {
        0 => Op::Mov,
        1 => Op::Add,
        2 => Op::Sub,
        3 => Op::Cmp,
        4 => Op::Shl,
        5 => Op::Shr,
        6 => Op::Jmp,
        7 => Op::Sar,
        8 => Op::Mul,
        9 => Op::Div,
        10 => Op::Mulu,
        11 => Op::Divu,
        12 => Op::Or,
        13 => Op::And,
        14 => Op::Xor,
        _ => Op::Not,
    };

    Ok(Instruction {
        op,
        format: Format::I,
        width: 2,
        reg1: reg1_of(word0),
        reg2: reg2_of(word0),
        imm: 0,
        cond: None,
    })
}

fn decode_format_ii(opcode: u8, word0: u16) -> (r: Result<Instruction, DecodeError>)
    requires
        16 <= opcode < 32,
        opcode == opcode_spec(word0),
    ensures
        r == decode_format_ii_spec(opcode, word0),
{
    let field = (word0 % 32) as u32;
    if opcode == 31 {
        return decode_bit_string(opcode, word0);
    }
    let signed = sign_extend(field, 16);
    let unsigned = field as i32;

    let (op, imm, cond) = match opcode {
        16 => (Op::MovImm, signed, None),
        17 => (Op::AddImm, signed, None),
        18 => (Op::Setf, unsigned, Some(Condition::from_bits((field % 16) as u8))),
        19 => (Op::CmpImm, signed, None),
        20 => (Op::ShlImm, unsigned, None),
        21 => (Op::ShrImm, unsigned, None),
        22 => (Op::Cli, 0, None),
        23 => (Op::SarImm, unsigned, None),
        24 => (Op::Trap, unsigned, None),
        25 => (Op::Reti, 0, None),
        26 => (Op::Halt, 0, None),
        28 => (Op::Ldsr, unsigned, None),
        29 => (Op::Stsr, unsigned, None),
        30 => (Op::Sei, 0, None),
        _ => return Err(DecodeError::IllegalOpcode(opcode)),
    };

    Ok(Instruction {
        op,
        format: Format::II,
        width: 2,
        reg1: 0,
        reg2: reg2_of(word0),
        imm,
        cond,
    })
}

fn decode_bit_string(opcode: u8, word0: u16) -> (r: Result<Instruction, DecodeError>)
    requires
        opcode == 31,
    ensures
        r == decode_format_ii_spec(opcode, word0),
{
    let sub = reg1_of(word0);
    let op = match sub {
        0 => Op::Sch0bsu,
        1 => Op::Sch0bsd,
        2 => Op::Sch1bsu,
        3 => Op::Sch1bsd,
        8 => Op::Orbsu,
        9 => Op::Andbsu,
        10 => Op::Xorbsu,
        11 => Op::Movbsu,
        12 => Op::Ornbsu,
        13 => Op::Andnbsu,
        14 => Op::Xornbsu,
        15 => Op::Notbsu,
        _ => return Err(DecodeError::IllegalSubOpcode { opcode, sub }),
    };

    Ok(Instruction {
        op,
        format: Format::II,
        width: 2,
        reg1: sub,
        reg2: reg2_of(word0),
        imm: 0,
        cond: None,
    })
}

fn decode_format_iv(opcode: u8, word0: u16, word1: u16) -> (r: Result<Instruction, DecodeError>)
    requires
        opcode == 42 || opcode == 43,
        opcode == opcode_spec(word0),
    ensures
        r == decode_spec(word0, word1),
{
    let raw = (word0 % 1024) as u32 * 65536 + word1 as u32;

    Ok(Instruction {
        op: if opcode == 42 { Op::Jr } else { Op::Jal },
        format: Format::IV,
        width: 4,
        reg1: 0,
        reg2: 0,
        imm: sign_extend(raw, 0x0200_0000),
        cond: None,
    })
}

fn decode_format_v(opcode: u8, word0: u16, word1: u16) -> (r: Result<Instruction, DecodeError>)
    requires
        40 <= opcode < 48,
        opcode != 42 && opcode != 43,
        opcode == opcode_spec(word0),
    ensures
        r == decode_spec(word0, word1),
{
    let raw = word1 as u32;
    let signed = sign_extend(raw, 0x8000);
    let unsigned = raw as i32;

    let (op, imm) = match opcode {
        40 => (Op::Movea, signed),
        41 => (Op::Addi, signed),
        44 => (Op::Ori, unsigned),
        45 => (Op::Andi, unsigned),
        46 => (Op::Xori, unsigned),
        _ => (Op::Movhi, unsigned),
    };

    Ok(Instruction {
        op,
        format: Format::V,
        width: 4,
        reg1: reg1_of(word0),
        reg2: reg2_of(word0),
        imm,
        cond: None,
    })
}

fn decode_format_vi(opcode: u8, word0: u16, word1: u16) -> (r: Result<Instruction, DecodeError>)
    requires
        48 <= opcode < 64,
        opcode != 62,
        opcode == opcode_spec(word0),
    ensures
        r == decode_spec(word0, word1),
{
    let op = match opcode {
        48 => Op::LdB,
        49 => Op::LdH,
        51 => Op::LdW,
        52 => Op::StB,
        53 => Op::StH,
        55 => Op::StW,
        56 => Op::InB,
        57 => Op::InH,
        58 => Op::Caxi,
        59 => Op::InW,
        60 => Op::OutB,
        61 => Op::OutH,
        63 => Op::OutW,
        _ => return Err(DecodeError::IllegalOpcode(opcode)),
    };

    Ok(Instruction {
        op,
        format: Format::VI,
        width: 4,
        reg1: reg1_of(word0),
        reg2: reg2_of(word0),
        imm: sign_extend(word1 as u32, 0x8000),
        cond: None,
    })
}

fn decode_format_vii(opcode: u8, word0: u16, word1: u16) -> (r: Result<Instruction, DecodeError>)
    requires
        opcode == 62,
        opcode == opcode_spec(word0),
    ensures
        r == decode_spec(word0, word1),
{
    let sub = (word1 / 1024) as u8;
    let op = match sub {
        0 => Op::CmpfS,
        2 => Op::CvtWs,
        3 => Op::CvtSw,
        4 => Op::AddfS,
        5 => Op::SubfS,
        6 => Op::MulfS,
        7 => Op::DivfS,
        8 => Op::Xb,
        9 => Op::Xh,
        10 => Op::Rev,
        11 => Op::TrncSw,
        12 => Op::Mpyhw,
        _ => return Err(DecodeError::IllegalSubOpcode { opcode, sub }),
    };

    Ok(Instruction {
        op,
        format: Format::VII,
        width: 4,
        reg1: reg1_of(word0),
        reg2: reg2_of(word0),
        imm: 0,
        cond: None,
    })
}

/// A decoded instruction's width agrees with its format and with `instruction_width`.
pub proof fn lemma_decoded_width(word0: u16, word1: u16)
    ensures
        decode_spec(word0, word1) matches Ok(i) ==> {
            &&& i.width == i.format.width_spec()
            &&& i.width == instruction_width_spec(word0)
        },
{
}

/// Decoding a halfword pair never reports truncation, and an illegal opcode is the one given.
pub proof fn lemma_decode_errors(word0: u16, word1: u16)
    ensures
        !(decode_spec(word0, word1) is Err && decode_spec(word0, word1)->Err_0 is Truncated),
        decode_spec(word0, word1) matches Err(DecodeError::IllegalOpcode(o)) ==> o == opcode_spec(word0),
{
}

/// Short instructions ignore the second halfword.
pub proof fn lemma_short_ignores_word1(word0: u16, a: u16, b: u16)
    requires
        instruction_width_spec(word0) == 2,
    ensures
        decode_spec(word0, a) == decode_spec(word0, b),
{
}

/// Only format III and setf carry a condition, and branches always do.
pub proof fn lemma_conditions_carried(word0: u16, word1: u16)
    ensures
        decode_spec(word0, word1) matches Ok(i) ==> ((i.op == Op::Bcond || i.op == Op::Setf) <==> i.cond is Some),
{
}

/// Format V (opcodes 0b101000..=0b101111 but jr and jal) takes its immediate from the second
/// halfword: the logical and high-half operations ori, andi, xori and movhi zero-extend it, so
/// it lies in 0..65536 and equals the halfword; only movea and addi sign-extend it.
pub proof fn lemma_format_v_immediates(word0: u16, word1: u16)
    requires
        40 <= opcode_spec(word0) < 48,
        opcode_spec(word0) != 42,
        opcode_spec(word0) != 43,
    ensures
        decode_spec(word0, word1) is Ok,
        ({
            let i = decode_spec(word0, word1)->Ok_0;
            let opcode = word0 / 1024;
            &&& i.format == Format::V
            &&& i.width == 4
            &&& i.reg1 == word0 % 32
            &&& i.reg2 == (word0 / 32) % 32
            &&& i.cond is None
            &&& opcode == 40 ==> i.op == Op::Movea
            &&& opcode == 41 ==> i.op == Op::Addi
            &&& opcode == 44 ==> i.op == Op::Ori
            &&& opcode == 45 ==> i.op == Op::Andi
            &&& opcode == 46 ==> i.op == Op::Xori
            &&& opcode == 47 ==> i.op == Op::Movhi
            &&& (i.op == Op::Ori || i.op == Op::Andi || i.op == Op::Xori || i.op == Op::Movhi) ==> {
                &&& i.imm as int == word1 as int
                &&& 0 <= i.imm < 0x1_0000
            }
            &&& (i.op == Op::Movea || i.op == Op::Addi) ==> i.imm as int == if word1 < 0x8000 {
                word1 as int
            } else {
                word1 as int - 0x1_0000
            }
        }),
{
}

/// The signed comparisons and the sign and overflow tests never look at the carry flag; only
/// the unsigned comparisons (carry, no carry, higher, not higher) do.
pub proof fn lemma_signed_conditions_ignore_carry(cond: Condition, z: bool, s: bool, ov: bool)
    requires
        cond != Condition::Carry,
        cond != Condition::NotCarry,
        cond != Condition::NotHigher,
        cond != Condition::Higher,
    ensures
        cond.evaluate_spec(z, s, ov, true) == cond.evaluate_spec(z, s, ov, false),
        cond == Condition::LessThan ==> cond.evaluate_spec(z, s, ov, true) == (s != ov),
        cond == Condition::LessOrEqual ==> cond.evaluate_spec(z, s, ov, true) == ((s != ov) || z),
        cond == Condition::GreaterThan ==> cond.evaluate_spec(z, s, ov, true) == (s == ov && !z),
        cond == Condition::GreaterOrEqual ==> cond.evaluate_spec(z, s, ov, true) == (s == ov),
{
}

impl DecodeError {
    /// What went wrong, in words.
    pub open spec fn message_spec(self) -> Seq<char> {
        match self {
            DecodeError::IllegalOpcode(opcode) => "illegal opcode 0b"@ + binary_padded(opcode as nat, 6),
            DecodeError::IllegalSubOpcode { opcode, sub } => "illegal sub-opcode 0b"@ + binary_padded(sub as nat, 6)
                + " for opcode 0b"@ + binary_padded(opcode as nat, 6),
            DecodeError::Truncated { available, needed } => "need "@ + decimal(needed as nat)
                + " bytes to decode, "@ + decimal(available as nat) + " available"@,
        }
    }

    /// What went wrong, in words; opcodes print in binary.
    pub fn to_string(&self) -> (r: String)
        ensures
            r@ == self.message_spec(),
    {
        let mut text = String::new();
        match *self {
            DecodeError::IllegalOpcode(opcode) => {
                push_str(&mut text, "illegal opcode 0b");
                push_binary_padded(&mut text, opcode as u32, 6);
            },
            DecodeError::IllegalSubOpcode { opcode, sub } => {
                push_str(&mut text, "illegal sub-opcode 0b");
                push_binary_padded(&mut text, sub as u32, 6);
                push_str(&mut text, " for opcode 0b");
                push_binary_padded(&mut text, opcode as u32, 6);
            },
            DecodeError::Truncated { available, needed } => {
                push_str(&mut text, "need ");
                push_decimal(&mut text, needed as u64);
                push_str(&mut text, " bytes to decode, ");
                push_decimal(&mut text, available as u64);
                push_str(&mut text, " available");
            },
        }
        assert(text@ =~= self.message_spec());
        text
    }
}

impl Op {
    /// The register form of an immediate form (`mov` with an immediate is `mov`); any other
    /// operation is its own.
    pub open spec fn register_form(self) -> Op {
        match self {
            Op::MovImm => Op::Mov,
            Op::AddImm => Op::Add,
            Op::CmpImm => Op::Cmp,
            Op::ShlImm => Op::Shl,
            Op::ShrImm => Op::Shr,
            Op::SarImm => Op::Sar,
            other => other,
        }
    }
}

/// Character `i` of a text, as a number, or zero past its end.
spec fn char_code(s: Seq<char>, i: int) -> int {
    if i < s.len() {
        s[i] as int
    } else {
        0
    }
}

/// A number that tells apart texts of at most seven ascii characters: the length, then each
/// character as a base-128 digit.
spec fn short_text_key(s: Seq<char>) -> int {
    s.len() * 0x2_0000_0000_0000 + char_code(s, 0) + char_code(s, 1) * 0x80 + char_code(s, 2) * 0x4000 + char_code(
        s,
        3,
    ) * 0x20_0000 + char_code(s, 4) * 0x1000_0000 + char_code(s, 5) * 0x8_0000_0000 + char_code(s, 6)
        * 0x400_0000_0000
}

/// The key of each operation's mnemonic.
spec fn mnemonic_key(op: Op) -> int {
    match op {
        Op::Mov => 1688849862211565,
        Op::Add => 1688849861915233,
        Op::Sub => 1688849861884659,
        Op::Cmp => 1688849862112995,
        Op::Shl => 1688849862046835,
        Op::Shr => 1688849862145139,
        Op::Jmp => 1688849862113002,
        Op::Sar => 1688849862144243,
        Op::Mul => 1688849862048493,
        Op::Div => 1688849862210788,
        Op::Mulu => 2251800060836589,
        Op::Divu => 2251800060998884,
        Op::Or => 1125899906857327,
        Op::And => 1688849861916513,
        Op::Xor => 1688849862146040,
        Op::Not => 1688849862178798,
        Op::MovImm => 1688849862211565,
        Op::AddImm => 1688849861915233,
        Op::Setf => 2251800029508339,
        Op::CmpImm => 1688849862112995,
        Op::ShlImm => 1688849862046835,
        Op::ShrImm => 1688849862145139,
        Op::Cli => 1688849861998179,
        Op::SarImm => 1688849862144243,
        Op::Trap => 2251800050170228,
        Op::Reti => 2251800035799794,
        Op::Halt => 2251800058736872,
        Op::Ldsr => 2251800054657644,
        Op::Stsr => 2251800054659699,
        Op::Sei => 1688849861997299,
        Op::Sch0bsu => 4459198894715379,
        Op::Sch0bsd => 4384432104026611,
        Op::Sch1bsu => 4459198896812531,
        Op::Sch1bsd => 4384432106123763,
        Op::Orbsu => 2814781416847727,
        Op::Andbsu => 3381750887167841,
        Op::Xorbsu => 3381750887397368,
        Op::Movbsu => 3381750887462893,
        Op::Ornbsu => 3381750887332207,
        Op::Andnbsu => 4459199024674657,
        Op::Xornbsu => 4459199024904184,
        Op::Notbsu => 3381750887430126,
        Op::Bcond => 562949953421410,
        Op::Jr => 1125899906857322,
        Op::Jal => 1688849862045930,
        Op::Movea => 2814776019105773,
        Op::Addi => 2251800035537505,
        Op::Ori => 1688849861998959,
        Op::Andi => 2251800035538785,
        Op::Xori => 2251800035768312,
        Op::Movhi => 2814778172880877,
        Op::LdB => 2251800019972716,
        Op::LdH => 2251800032555628,
        Op::LdW => 2251800064012908,
        Op::StB => 2251800019974771,
        Op::StH => 2251800032557683,
        Op::StW => 2251800064014963,
        Op::InB => 2251800019973993,
        Op::InH => 2251800032556905,
        Op::InW => 2251800064014185,
        Op::OutB => 2814776172165871,
        Op::OutH => 2814777782778607,
        Op::OutW => 2814781809310447,
        Op::Caxi => 2251800035864803,
        Op::CmpfS => 3381663654229731,
        Op::CvtWs => 3381683132644195,
        Op::CvtSw => 3381819497855843,
        Op::AddfS => 3381663654031969,
        Op::SubfS => 3381663654001395,
        Op::MulfS => 3381663654165229,
        Op::DivfS => 3381663654327524,
        Op::TrncSw => 4467981136148852,
        Op::Xb => 1125899906855288,
        Op::Xh => 1125899906856056,
        Op::Rev => 1688849862210290,
        Op::Mpyhw => 2814781931026541,
    }
}

/// The operation (in register form) whose mnemonic has a given key.
spec fn op_of_key(key: int) -> Op {
    if key == 1688849862211565 { Op::Mov }
    else if key == 1688849861915233 { Op::Add }
    else if key == 1688849861884659 { Op::Sub }
    else if key == 1688849862112995 { Op::Cmp }
    else if key == 1688849862046835 { Op::Shl }
    else if key == 1688849862145139 { Op::Shr }
    else if key == 1688849862113002 { Op::Jmp }
    else if key == 1688849862144243 { Op::Sar }
    else if key == 1688849862048493 { Op::Mul }
    else if key == 1688849862210788 { Op::Div }
    else if key == 2251800060836589 { Op::Mulu }
    else if key == 2251800060998884 { Op::Divu }
    else if key == 1125899906857327 { Op::Or }
    else if key == 1688849861916513 { Op::And }
    else if key == 1688849862146040 { Op::Xor }
    else if key == 1688849862178798 { Op::Not }
    else if key == 2251800029508339 { Op::Setf }
    else if key == 1688849861998179 { Op::Cli }
    else if key == 2251800050170228 { Op::Trap }
    else if key == 2251800035799794 { Op::Reti }
    else if key == 2251800058736872 { Op::Halt }
    else if key == 2251800054657644 { Op::Ldsr }
    else if key == 2251800054659699 { Op::Stsr }
    else if key == 1688849861997299 { Op::Sei }
    else if key == 4459198894715379 { Op::Sch0bsu }
    else if key == 4384432104026611 { Op::Sch0bsd }
    else if key == 4459198896812531 { Op::Sch1bsu }
    else if key == 4384432106123763 { Op::Sch1bsd }
    else if key == 2814781416847727 { Op::Orbsu }
    else if key == 3381750887167841 { Op::Andbsu }
    else if key == 3381750887397368 { Op::Xorbsu }
    else if key == 3381750887462893 { Op::Movbsu }
    else if key == 3381750887332207 { Op::Ornbsu }
    else if key == 4459199024674657 { Op::Andnbsu }
    else if key == 4459199024904184 { Op::Xornbsu }
    else if key == 3381750887430126 { Op::Notbsu }
    else if key == 562949953421410 { Op::Bcond }
    else if key == 1125899906857322 { Op::Jr }
    else if key == 1688849862045930 { Op::Jal }
    else if key == 2814776019105773 { Op::Movea }
    else if key == 2251800035537505 { Op::Addi }
    else if key == 1688849861998959 { Op::Ori }
    else if key == 2251800035538785 { Op::Andi }
    else if key == 2251800035768312 { Op::Xori }
    else if key == 2814778172880877 { Op::Movhi }
    else if key == 2251800019972716 { Op::LdB }
    else if key == 2251800032555628 { Op::LdH }
    else if key == 2251800064012908 { Op::LdW }
    else if key == 2251800019974771 { Op::StB }
    else if key == 2251800032557683 { Op::StH }
    else if key == 2251800064014963 { Op::StW }
    else if key == 2251800019973993 { Op::InB }
    else if key == 2251800032556905 { Op::InH }
    else if key == 2251800064014185 { Op::InW }
    else if key == 2814776172165871 { Op::OutB }
    else if key == 2814777782778607 { Op::OutH }
    else if key == 2814781809310447 { Op::OutW }
    else if key == 2251800035864803 { Op::Caxi }
    else if key == 3381663654229731 { Op::CmpfS }
    else if key == 3381683132644195 { Op::CvtWs }
    else if key == 3381819497855843 { Op::CvtSw }
    else if key == 3381663654031969 { Op::AddfS }
    else if key == 3381663654001395 { Op::SubfS }
    else if key == 3381663654165229 { Op::MulfS }
    else if key == 3381663654327524 { Op::DivfS }
    else if key == 4467981136148852 { Op::TrncSw }
    else if key == 1125899906855288 { Op::Xb }
    else if key == 1125899906856056 { Op::Xh }
    else if key == 1688849862210290 { Op::Rev }
    else if key == 2814781931026541 { Op::Mpyhw }
    else { Op::Mov }
}

proof fn lemma_mnemonic_key(op: Op)
    ensures
        short_text_key(op.mnemonic_spec()) == mnemonic_key(op),
        op_of_key(mnemonic_key(op)) == op.register_form(),
        op.mnemonic_spec() == op.register_form().mnemonic_spec(),
{
    match op {
        Op::Mov => reveal_strlit("mov"),
        Op::Add => reveal_strlit("add"),
        Op::Sub => reveal_strlit("sub"),
        Op::Cmp => reveal_strlit("cmp"),
        Op::Shl => reveal_strlit("shl"),
        Op::Shr => reveal_strlit("shr"),
        Op::Jmp => reveal_strlit("jmp"),
        Op::Sar => reveal_strlit("sar"),
        Op::Mul => reveal_strlit("mul"),
        Op::Div => reveal_strlit("div"),
        Op::Mulu => reveal_strlit("mulu"),
        Op::Divu => reveal_strlit("divu"),
        Op::Or => reveal_strlit("or"),
        Op::And => reveal_strlit("and"),
        Op::Xor => reveal_strlit("xor"),
        Op::Not => reveal_strlit("not"),
        Op::MovImm => reveal_strlit("mov"),
        Op::AddImm => reveal_strlit("add"),
        Op::Setf => reveal_strlit("setf"),
        Op::CmpImm => reveal_strlit("cmp"),
        Op::ShlImm => reveal_strlit("shl"),
        Op::ShrImm => reveal_strlit("shr"),
        Op::Cli => reveal_strlit("cli"),
        Op::SarImm => reveal_strlit("sar"),
        Op::Trap => reveal_strlit("trap"),
        Op::Reti => reveal_strlit("reti"),
        Op::Halt => reveal_strlit("halt"),
        Op::Ldsr => reveal_strlit("ldsr"),
        Op::Stsr => reveal_strlit("stsr"),
        Op::Sei => reveal_strlit("sei"),
        Op::Sch0bsu => reveal_strlit("sch0bsu"),
        Op::Sch0bsd => reveal_strlit("sch0bsd"),
        Op::Sch1bsu => reveal_strlit("sch1bsu"),
        Op::Sch1bsd => reveal_strlit("sch1bsd"),
        Op::Orbsu => reveal_strlit("orbsu"),
        Op::Andbsu => reveal_strlit("andbsu"),
        Op::Xorbsu => reveal_strlit("xorbsu"),
        Op::Movbsu => reveal_strlit("movbsu"),
        Op::Ornbsu => reveal_strlit("ornbsu"),
        Op::Andnbsu => reveal_strlit("andnbsu"),
        Op::Xornbsu => reveal_strlit("xornbsu"),
        Op::Notbsu => reveal_strlit("notbsu"),
        Op::Bcond => reveal_strlit("b"),
        Op::Jr => reveal_strlit("jr"),
        Op::Jal => reveal_strlit("jal"),
        Op::Movea => reveal_strlit("movea"),
        Op::Addi => reveal_strlit("addi"),
        Op::Ori => reveal_strlit("ori"),
        Op::Andi => reveal_strlit("andi"),
        Op::Xori => reveal_strlit("xori"),
        Op::Movhi => reveal_strlit("movhi"),
        Op::LdB => reveal_strlit("ld.b"),
        Op::LdH => reveal_strlit("ld.h"),
        Op::LdW => reveal_strlit("ld.w"),
        Op::StB => reveal_strlit("st.b"),
        Op::StH => reveal_strlit("st.h"),
        Op::StW => reveal_strlit("st.w"),
        Op::InB => reveal_strlit("in.b"),
        Op::InH => reveal_strlit("in.h"),
        Op::InW => reveal_strlit("in.w"),
        Op::OutB => reveal_strlit("out.b"),
        Op::OutH => reveal_strlit("out.h"),
        Op::OutW => reveal_strlit("out.w"),
        Op::Caxi => reveal_strlit("caxi"),
        Op::CmpfS => reveal_strlit("cmpf.s"),
        Op::CvtWs => reveal_strlit("cvt.ws"),
        Op::CvtSw => reveal_strlit("cvt.sw"),
        Op::AddfS => reveal_strlit("addf.s"),
        Op::SubfS => reveal_strlit("subf.s"),
        Op::MulfS => reveal_strlit("mulf.s"),
        Op::DivfS => reveal_strlit("divf.s"),
        Op::TrncSw => reveal_strlit("trnc.sw"),
        Op::Xb => reveal_strlit("xb"),
        Op::Xh => reveal_strlit("xh"),
        Op::Rev => reveal_strlit("rev"),
        Op::Mpyhw => reveal_strlit("mpyhw"),
    }
}

/// Two operations share a mnemonic exactly when they are the register and immediate forms of
/// one instruction: mov, add, cmp, shl, shr and sar.
pub proof fn lemma_shared_mnemonics(a: Op, b: Op)
    ensures
        (a.mnemonic_spec() == b.mnemonic_spec()) <==> a.register_form() == b.register_form(),
{
    lemma_mnemonic_key(a);
    lemma_mnemonic_key(b);
}

/// The bit-string group (opcode 0b011111) names its operation in the low five bits: 0..=3 are
/// the searches, 8..=15 the string operations, each decoded as a two-byte format II instruction
/// whose reg1 holds the sub-opcode, with no immediate and no condition; every other sub-opcode
/// is illegal.
pub proof fn lemma_bit_string_decoding(word0: u16, word1: u16)
    requires
        opcode_spec(word0) == 31,
    ensures
        ({
            let sub = reg1_spec(word0);
            let ops = seq![
                Op::Sch0bsu,
                Op::Sch0bsd,
                Op::Sch1bsu,
                Op::Sch1bsd,
                Op::Orbsu,
                Op::Andbsu,
                Op::Xorbsu,
                Op::Movbsu,
                Op::Ornbsu,
                Op::Andnbsu,
                Op::Xornbsu,
                Op::Notbsu,
            ];
            if sub < 4 || 8 <= sub < 16 {
                decode_spec(word0, word1) == Ok::<Instruction, DecodeError>(
                    Instruction {
                        op: ops[if sub < 4 { sub as int } else { sub - 4 }],
                        format: Format::II,
                        width: 2,
                        reg1: sub,
                        reg2: reg2_spec(word0),
                        imm: 0,
                        cond: None,
                    },
                )
            } else {
                decode_spec(word0, word1) == Err::<Instruction, DecodeError>(
                    DecodeError::IllegalSubOpcode { opcode: 31, sub },
                )
            }
        }),
{
}

} // verus!
