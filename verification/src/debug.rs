use vstd::prelude::*;
use vstd::string::StrSliceExecFns;
use crate::cpu::decode::{Condition, Format, Instruction, Op};
use crate::cpu::exec::field_index_spec;
use crate::cpu::state::{Cpu, PIR_VALUE};
use crate::text::{
    decimal, hex_digits, pad_right, padded_hex, push_char, push_decimal, push_hex, push_padded_hex, push_str,
};

verus! {

/// A signed value as `0x..` or `-0x..`.
pub open spec fn signed_hex_spec(value: i32) -> Seq<char> {
    if value < 0 {
        seq!['-', '0', 'x'] + hex_digits((-value) as nat)
    } else {
        seq!['0', 'x'] + hex_digits(value as nat)
    }
}

/// A general register name, `r0`..`r31`.
pub open spec fn register_spec(r: u8) -> Seq<char> {
    seq!['r'] + decimal(r as nat)
}

/// `[rN]`, preceded by the displacement unless it is zero.
pub open spec fn memory_operand_spec(instruction: Instruction) -> Seq<char> {
    let base = seq!['['] + register_spec(instruction.reg1) + seq![']'];
    if instruction.imm == 0 {
        base
    } else {
        signed_hex_spec(instruction.imm) + base
    }
}

/// The absolute target of a relative jump or branch, as eight hexadecimal digits.
pub open spec fn target_spec(instruction: Instruction, pc: u32) -> Seq<char> {
    seq!['0', 'x'] + padded_hex((pc.wrapping_add_signed(instruction.imm) & !1u32) as nat, 8)
}

pub open spec fn system_register_name_spec(index: u8) -> Seq<char> {
    let i = index % 32;
    if i == 0 { "eipc"@ }
    else if i == 1 { "eipsw"@ }
    else if i == 2 { "fepc"@ }
    else if i == 3 { "fepsw"@ }
    else if i == 4 { "ecr"@ }
    else if i == 5 { "psw"@ }
    else if i == 6 { "pir"@ }
    else if i == 7 { "tkcw"@ }
    else if i == 24 { "chcw"@ }
    else if i == 25 { "adtre"@ }
    else if i == 29 { "sr29"@ }
    else if i == 30 { "sr30"@ }
    else if i == 31 { "sr31"@ }
    else { "reserved"@ }
}

pub open spec fn branch_mnemonic_spec(condition: Condition) -> Seq<char> {
    match condition {
        Condition::Overflow => "bv"@,
        Condition::Carry => "bc"@,
        Condition::Zero => "be"@,
        Condition::NotHigher => "bnh"@,
        Condition::Negative => "bn"@,
        Condition::Always => "br"@,
        Condition::LessThan => "blt"@,
        Condition::LessOrEqual => "ble"@,
        Condition::NotOverflow => "bnv"@,
        Condition::NotCarry => "bnc"@,
        Condition::NotZero => "bne"@,
        Condition::Higher => "bh"@,
        Condition::Positive => "bp"@,
        Condition::Never => "nop"@,
        Condition::GreaterOrEqual => "bge"@,
        Condition::GreaterThan => "bgt"@,
    }
}

pub open spec fn mnemonic_spec(instruction: Instruction) -> Seq<char> {
    match instruction.op {
        Op::Bcond => match instruction.cond {
            Some(condition) => branch_mnemonic_spec(condition),
            None => "b"@,
        },
        other => other.mnemonic_spec(),
    }
}

/// The condition a setf names, `?` if it has none.
pub open spec fn setf_condition_spec(instruction: Instruction) -> Seq<char> {
    match instruction.cond {
        Some(condition) => condition.mnemonic_spec(),
        None => seq!['?'],
    }
}

/// The operand text of an instruction: destination on the right, immediates first.
pub open spec fn operands_spec(instruction: Instruction, pc: u32) -> Seq<char> {
    let reg1 = register_spec(instruction.reg1);
    let reg2 = register_spec(instruction.reg2);
    let comma = seq![',', ' '];
    match instruction.op {
        Op::Jmp => seq!['['] + reg1 + seq![']'],
        Op::Bcond => if instruction.cond != Some(Condition::Never) {
            target_spec(instruction, pc)
        } else {
            Seq::empty()
        },
        Op::Jr | Op::Jal => target_spec(instruction, pc),
        Op::LdB | Op::LdH | Op::LdW | Op::InB | Op::InH | Op::InW | Op::Caxi => memory_operand_spec(instruction)
            + comma + reg2,
        Op::StB | Op::StH | Op::StW | Op::OutB | Op::OutH | Op::OutW => reg2 + comma + memory_operand_spec(
            instruction,
        ),
        Op::Ldsr => reg2 + comma + system_register_name_spec(field_index_spec(instruction.imm)),
        Op::Stsr => system_register_name_spec(field_index_spec(instruction.imm)) + comma + reg2,
        Op::Setf => setf_condition_spec(instruction) + comma + reg2,
        Op::Trap => signed_hex_spec(instruction.imm),
        Op::Movea | Op::Addi | Op::Ori | Op::Andi | Op::Xori | Op::Movhi => signed_hex_spec(instruction.imm)
            + comma + reg1 + comma + reg2,
        Op::MovImm | Op::AddImm | Op::CmpImm | Op::ShlImm | Op::ShrImm | Op::SarImm => signed_hex_spec(
            instruction.imm,
        ) + comma + reg2,
        Op::Reti | Op::Halt | Op::Cli | Op::Sei | Op::Sch0bsu | Op::Sch0bsd | Op::Sch1bsu | Op::Sch1bsd
        | Op::Orbsu | Op::Andbsu | Op::Xorbsu | Op::Movbsu | Op::Ornbsu | Op::Andnbsu | Op::Xornbsu
        | Op::Notbsu => Seq::empty(),
        _ => match instruction.format {
            Format::I | Format::VII => reg1 + comma + reg2,
            _ => signed_hex_spec(instruction.imm) + comma + reg2,
        },
    }
}

/// One line of assembly: the mnemonic, padded to seven columns when operands follow.
pub open spec fn disassemble_spec(instruction: Instruction, pc: u32) -> Seq<char> {
    let name = mnemonic_spec(instruction);
    let operands = operands_spec(instruction, pc);
    if operands.len() == 0 {
        name
    } else {
        pad_right(name, 7) + seq![' '] + operands
    }
}

fn push_register(s: &mut String, r: u8)
    ensures
        final(s)@ == old(s)@ + register_spec(r),
{
    push_char(s, 'r');
    push_decimal(s, r as u64);
    assert(final(s)@ =~= old(s)@ + register_spec(r));
}

fn push_comma(s: &mut String)
    ensures
        final(s)@ == old(s)@ + seq![',', ' '],
{
    push_char(s, ',');
    push_char(s, ' ');
    assert(final(s)@ =~= old(s)@ + seq![',', ' ']);
}

fn push_signed_hex(s: &mut String, value: i32)
    ensures
        final(s)@ == old(s)@ + signed_hex_spec(value),
{
    if value < 0 {
        push_char(s, '-');
        push_char(s, '0');
        push_char(s, 'x');
        push_hex(s, (-(value as i64)) as u32);
    } else {
        push_char(s, '0');
        push_char(s, 'x');
        push_hex(s, value as u32);
    }
    assert(final(s)@ =~= old(s)@ + signed_hex_spec(value));
}

fn signed_hex(value: i32) -> (r: String)
    ensures
        r@ == signed_hex_spec(value),
{
    let mut text = String::new();
    push_signed_hex(&mut text, value);
    assert(text@ =~= signed_hex_spec(value));
    text
}

fn push_memory_operand(s: &mut String, instruction: Instruction)
    ensures
        final(s)@ == old(s)@ + memory_operand_spec(instruction),
{
    if instruction.imm != 0 {
        push_signed_hex(s, instruction.imm);
    }
    push_char(s, '[');
    push_register(s, instruction.reg1);
    push_char(s, ']');
    assert(final(s)@ =~= old(s)@ + memory_operand_spec(instruction));
}

fn memory_operand(instruction: Instruction) -> (r: String)
    ensures
        r@ == memory_operand_spec(instruction),
{
    let mut text = String::new();
    push_memory_operand(&mut text, instruction);
    assert(text@ =~= memory_operand_spec(instruction));
    text
}

fn push_target(s: &mut String, instruction: Instruction, pc: u32)
    ensures
        final(s)@ == old(s)@ + target_spec(instruction, pc),
{
    push_char(s, '0');
    push_char(s, 'x');
    push_padded_hex(s, pc.wrapping_add_signed(instruction.imm) & !1u32, 8);
    assert(final(s)@ =~= old(s)@ + target_spec(instruction, pc));
}

/// The name of system register `index` (modulo 32); unassigned numbers are "reserved".
pub fn system_register_name(index: u8) -> (r: &'static str)
    ensures
        r@ == system_register_name_spec(index),
{
    let i = index % 32;
    if i == 0 { "eipc" }
    else if i == 1 { "eipsw" }
    else if i == 2 { "fepc" }
    else if i == 3 { "fepsw" }
    else if i == 4 { "ecr" }
    else if i == 5 { "psw" }
    else if i == 6 { "pir" }
    else if i == 7 { "tkcw" }
    else if i == 24 { "chcw" }
    else if i == 25 { "adtre" }
    else if i == 29 { "sr29" }
    else if i == 30 { "sr30" }
    else if i == 31 { "sr31" }
    else { "reserved" }
}

// condition 13 is written "nop" with no operand, every other condition is b + mnemonic
/// The assembler name of a conditional branch.
pub fn branch_mnemonic(condition: Condition) -> (r: &'static str)
    ensures
        r@ == branch_mnemonic_spec(condition),
{
    match condition {
        Condition::Overflow => "bv",
        Condition::Carry => "bc",
        Condition::Zero => "be",
        Condition::NotHigher => "bnh",
        Condition::Negative => "bn",
        Condition::Always => "br",
        Condition::LessThan => "blt",
        Condition::LessOrEqual => "ble",
        Condition::NotOverflow => "bnv",
        Condition::NotCarry => "bnc",
        Condition::NotZero => "bne",
        Condition::Higher => "bh",
        Condition::Positive => "bp",
        Condition::Never => "nop",
        Condition::GreaterOrEqual => "bge",
        Condition::GreaterThan => "bgt",
    }
}

/// The assembler name of an instruction; a branch is named by its condition.
pub fn mnemonic(instruction: Instruction) -> (r: &'static str)
    ensures
        r@ == mnemonic_spec(instruction),
{
    match instruction.op {
        Op::Bcond => match instruction.cond {
            Some(condition) => branch_mnemonic(condition),
            None => "b",
        },
        other => other.mnemonic(),
    }
}

fn operands(instruction: Instruction, pc: u32) -> (r: String)
    ensures
        r@ == operands_spec(instruction, pc),
{
    let mut text = String::new();
    let reg1 = instruction.reg1;
    let reg2 = instruction.reg2;
    let imm = instruction.imm;
    match instruction.op {
        Op::Jmp => {
            push_char(&mut text, '[');
            push_register(&mut text, reg1);
            push_char(&mut text, ']');
        },
        Op::Bcond => {
            let never = match instruction.cond {
                Some(Condition::Never) => true,
                _ => false,
            };
            if !never {
                push_target(&mut text, instruction, pc);
            }
        },
        Op::Jr | Op::Jal => {
            push_target(&mut text, instruction, pc);
        },
        Op::LdB | Op::LdH | Op::LdW | Op::InB | Op::InH | Op::InW | Op::Caxi => {
            push_memory_operand(&mut text, instruction);
            push_comma(&mut text);
            push_register(&mut text, reg2);
        },
        Op::StB | Op::StH | Op::StW | Op::OutB | Op::OutH | Op::OutW => {
            push_register(&mut text, reg2);
            push_comma(&mut text);
            push_memory_operand(&mut text, instruction);
        },
        Op::Ldsr => {
            push_register(&mut text, reg2);
            push_comma(&mut text);
            push_str(&mut text, system_register_name(((imm as u32) % 32) as u8));
        },
        Op::Stsr => {
            push_str(&mut text, system_register_name(((imm as u32) % 32) as u8));
            push_comma(&mut text);
            push_register(&mut text, reg2);
        },
        Op::Setf => {
            match instruction.cond {
                Some(condition) => push_str(&mut text, condition.mnemonic()),
                None => push_char(&mut text, '?'),
            }
            push_comma(&mut text);
            push_register(&mut text, reg2);
        },
        Op::Trap => {
            push_signed_hex(&mut text, imm);
        },
        Op::Movea | Op::Addi | Op::Ori | Op::Andi | Op::Xori | Op::Movhi => {
            push_signed_hex(&mut text, imm);
            push_comma(&mut text);
            push_register(&mut text, reg1);
            push_comma(&mut text);
            push_register(&mut text, reg2);
        },
        Op::MovImm | Op::AddImm | Op::CmpImm | Op::ShlImm | Op::ShrImm | Op::SarImm => {
            push_signed_hex(&mut text, imm);
            push_comma(&mut text);
            push_register(&mut text, reg2);
        },
        Op::Reti | Op::Halt | Op::Cli | Op::Sei => {},
        Op::Sch0bsu | Op::Sch0bsd | Op::Sch1bsu | Op::Sch1bsd | Op::Orbsu | Op::Andbsu | Op::Xorbsu
        | Op::Movbsu | Op::Ornbsu | Op::Andnbsu | Op::Xornbsu | Op::Notbsu => {},
        _ => match instruction.format {
            Format::I | Format::VII => {
                push_register(&mut text, reg1);
                push_comma(&mut text);
                push_register(&mut text, reg2);
            },
            _ => {
                push_signed_hex(&mut text, imm);
                push_comma(&mut text);
                push_register(&mut text, reg2);
            },
        },
    }
    assert(text@ =~= operands_spec(instruction, pc));
    text
}

/// One line of assembly for an instruction at `pc`: the mnemonic, then (padded to seven
/// columns and a space) the operands, destination last; relative targets print absolute.
pub fn disassemble(instruction: Instruction, pc: u32) -> (r: String)
    ensures
        r@ == disassemble_spec(instruction, pc),
{
    let name = mnemonic(instruction);
    let operands = operands(instruction, pc);
    let mut text = String::new();
    push_str(&mut text, name);
    if operands.as_str().unicode_len() == 0 {
        assert(text@ =~= disassemble_spec(instruction, pc));
        return text;
    }
    let mut width = name.unicode_len();
    while width < 7
        invariant
            name@.len() <= width <= 7 || (name@.len() > 7 && width == name@.len()),
            text@ == name@ + Seq::new((width - name@.len()) as nat, |k: int| ' '),
        decreases 7 - width,
    {
        push_char(&mut text, ' ');
        width = width + 1;
        assert(text@ =~= name@ + Seq::new((width - name@.len()) as nat, |k: int| ' '));
    }
    push_char(&mut text, ' ');
    push_str(&mut text, operands.as_str());
    assert(text@ =~= disassemble_spec(instruction, pc));
    text
}

/// No operation has an empty mnemonic.
proof fn lemma_op_mnemonic_nonempty(op: Op)
    ensures
        op.mnemonic_spec().len() > 0,
{
    match op {
        Op::Mov => reveal_strlit("mov"),
        Op::Add => reveal_strlit("add"),
        Op::Sub => reveal_strlit("sub"),
        Op::Cmp => reveal_strlit("cmp"),
        Op::Shl => reveal_strlit("shl"),
        Op::Shr => reveal_strlit("shr"),
        Op::Jmp => reveal_strlit("jmp"),
        Op::Sar => reveal_strlit("sar"),
        Op::Mul => reveal_strlit("mul"),
        Op::Div => reveal_strlit("div"),
        Op::Mulu => reveal_strlit("mulu"),
        Op::Divu => reveal_strlit("divu"),
        Op::Or => reveal_strlit("or"),
        Op::And => reveal_strlit("and"),
        Op::Xor => reveal_strlit("xor"),
        Op::Not => reveal_strlit("not"),
        Op::MovImm => reveal_strlit("mov"),
        Op::AddImm => reveal_strlit("add"),
        Op::Setf => reveal_strlit("setf"),
        Op::CmpImm => reveal_strlit("cmp"),
        Op::ShlImm => reveal_strlit("shl"),
        Op::ShrImm => reveal_strlit("shr"),
        Op::Cli => reveal_strlit("cli"),
        Op::SarImm => reveal_strlit("sar"),
        Op::Trap => reveal_strlit("trap"),
        Op::Reti => reveal_strlit("reti"),
        Op::Halt => reveal_strlit("halt"),
        Op::Ldsr => reveal_strlit("ldsr"),
        Op::Stsr => reveal_strlit("stsr"),
        Op::Sei => reveal_strlit("sei"),
        Op::Sch0bsu => reveal_strlit("sch0bsu"),
        Op::Sch0bsd => reveal_strlit("sch0bsd"),
        Op::Sch1bsu => reveal_strlit("sch1bsu"),
        Op::Sch1bsd => reveal_strlit("sch1bsd"),
        Op::Orbsu => reveal_strlit("orbsu"),
        Op::Andbsu => reveal_strlit("andbsu"),
        Op::Xorbsu => reveal_strlit("xorbsu"),
        Op::Movbsu => reveal_strlit("movbsu"),
        Op::Ornbsu => reveal_strlit("ornbsu"),
        Op::Andnbsu => reveal_strlit("andnbsu"),
        Op::Xornbsu => reveal_strlit("xornbsu"),
        Op::Notbsu => reveal_strlit("notbsu"),
        Op::Bcond => reveal_strlit("b"),
        Op::Jr => reveal_strlit("jr"),
        Op::Jal => reveal_strlit("jal"),
        Op::Movea => reveal_strlit("movea"),
        Op::Addi => reveal_strlit("addi"),
        Op::Ori => reveal_strlit("ori"),
        Op::Andi => reveal_strlit("andi"),
        Op::Xori => reveal_strlit("xori"),
        Op::Movhi => reveal_strlit("movhi"),
        Op::LdB => reveal_strlit("ld.b"),
        Op::LdH => reveal_strlit("ld.h"),
        Op::LdW => reveal_strlit("ld.w"),
        Op::StB => reveal_strlit("st.b"),
        Op::StH => reveal_strlit("st.h"),
        Op::StW => reveal_strlit("st.w"),
        Op::InB => reveal_strlit("in.b"),
        Op::InH => reveal_strlit("in.h"),
        Op::InW => reveal_strlit("in.w"),
        Op::OutB => reveal_strlit("out.b"),
        Op::OutH => reveal_strlit("out.h"),
        Op::OutW => reveal_strlit("out.w"),
        Op::Caxi => reveal_strlit("caxi"),
        Op::CmpfS => reveal_strlit("cmpf.s"),
        Op::CvtWs => reveal_strlit("cvt.ws"),
        Op::CvtSw => reveal_strlit("cvt.sw"),
        Op::AddfS => reveal_strlit("addf.s"),
        Op::SubfS => reveal_strlit("subf.s"),
        Op::MulfS => reveal_strlit("mulf.s"),
        Op::DivfS => reveal_strlit("divf.s"),
        Op::TrncSw => reveal_strlit("trnc.sw"),
        Op::Xb => reveal_strlit("xb"),
        Op::Xh => reveal_strlit("xh"),
        Op::Rev => reveal_strlit("rev"),
        Op::Mpyhw => reveal_strlit("mpyhw"),
    }
}

/// No branch has an empty mnemonic.
proof fn lemma_branch_mnemonic_nonempty(condition: Condition)
    ensures
        branch_mnemonic_spec(condition).len() > 0,
{
    match condition {
        Condition::Overflow => reveal_strlit("bv"),
        Condition::Carry => reveal_strlit("bc"),
        Condition::Zero => reveal_strlit("be"),
        Condition::NotHigher => reveal_strlit("bnh"),
        Condition::Negative => reveal_strlit("bn"),
        Condition::Always => reveal_strlit("br"),
        Condition::LessThan => reveal_strlit("blt"),
        Condition::LessOrEqual => reveal_strlit("ble"),
        Condition::NotOverflow => reveal_strlit("bnv"),
        Condition::NotCarry => reveal_strlit("bnc"),
        Condition::NotZero => reveal_strlit("bne"),
        Condition::Higher => reveal_strlit("bh"),
        Condition::Positive => reveal_strlit("bp"),
        Condition::Never => reveal_strlit("nop"),
        Condition::GreaterOrEqual => reveal_strlit("bge"),
        Condition::GreaterThan => reveal_strlit("bgt"),
    }
}

/// Every instruction disassembles to some text: no mnemonic is empty.
pub proof fn lemma_disassembly_never_empty(instruction: Instruction, pc: u32)
    ensures
        disassemble_spec(instruction, pc).len() > 0,
{
    match instruction.op {
        Op::Bcond => match instruction.cond {
            Some(condition) => lemma_branch_mnemonic_nonempty(condition),
            None => reveal_strlit("b"),
        },
        other => lemma_op_mnemonic_nonempty(other),
    }
}

/// The operations written without operands: return, halt, the interrupt switches and the
/// bit-string group.
pub open spec fn takes_no_operands(op: Op) -> bool {
    match op {
        Op::Reti | Op::Halt | Op::Cli | Op::Sei | Op::Sch0bsu | Op::Sch0bsd | Op::Sch1bsu | Op::Sch1bsd
        | Op::Orbsu | Op::Andbsu | Op::Xorbsu | Op::Movbsu | Op::Ornbsu | Op::Andnbsu | Op::Xornbsu
        | Op::Notbsu => true,
        _ => false,
    }
}

/// An instruction has no operand text exactly when its operation takes none or it is the
/// never-taken branch, `nop`.
pub proof fn lemma_operands_empty(instruction: Instruction, pc: u32)
    ensures
        operands_spec(instruction, pc).len() == 0 <==> (takes_no_operands(instruction.op) || (instruction.op
            == Op::Bcond && instruction.cond == Some(Condition::Never))),
{
}

/// A branch is written `b` and its condition's suffix (`blt`, `be`, `br`), except that the
/// never-taken branch is `nop`.
pub proof fn lemma_branch_mnemonics(condition: Condition)
    ensures
        branch_mnemonic_spec(condition) == if condition == Condition::Never {
            "nop"@
        } else {
            seq!['b'] + condition.mnemonic_spec()
        },
{
    match condition {
        Condition::Overflow => {
            reveal_strlit("bv");
            reveal_strlit("v");
            assert("bv"@ =~= seq!['b'] + "v"@);
        },
        Condition::Carry => {
            reveal_strlit("bc");
            reveal_strlit("c");
            assert("bc"@ =~= seq!['b'] + "c"@);
        },
        Condition::Zero => {
            reveal_strlit("be");
            reveal_strlit("e");
            assert("be"@ =~= seq!['b'] + "e"@);
        },
        Condition::NotHigher => {
            reveal_strlit("bnh");
            reveal_strlit("nh");
            assert("bnh"@ =~= seq!['b'] + "nh"@);
        },
        Condition::Negative => {
            reveal_strlit("bn");
            reveal_strlit("n");
            assert("bn"@ =~= seq!['b'] + "n"@);
        },
        Condition::Always => {
            reveal_strlit("br");
            reveal_strlit("r");
            assert("br"@ =~= seq!['b'] + "r"@);
        },
        Condition::LessThan => {
            reveal_strlit("blt");
            reveal_strlit("lt");
            assert("blt"@ =~= seq!['b'] + "lt"@);
        },
        Condition::LessOrEqual => {
            reveal_strlit("ble");
            reveal_strlit("le");
            assert("ble"@ =~= seq!['b'] + "le"@);
        },
        Condition::NotOverflow => {
            reveal_strlit("bnv");
            reveal_strlit("nv");
            assert("bnv"@ =~= seq!['b'] + "nv"@);
        },
        Condition::NotCarry => {
            reveal_strlit("bnc");
            reveal_strlit("nc");
            assert("bnc"@ =~= seq!['b'] + "nc"@);
        },
        Condition::NotZero => {
            reveal_strlit("bne");
            reveal_strlit("ne");
            assert("bne"@ =~= seq!['b'] + "ne"@);
        },
        Condition::Higher => {
            reveal_strlit("bh");
            reveal_strlit("h");
            assert("bh"@ =~= seq!['b'] + "h"@);
        },
        Condition::Positive => {
            reveal_strlit("bp");
            reveal_strlit("p");
            assert("bp"@ =~= seq!['b'] + "p"@);
        },
        Condition::Never => {},
        Condition::GreaterOrEqual => {
            reveal_strlit("bge");
            reveal_strlit("ge");
            assert("bge"@ =~= seq!['b'] + "ge"@);
        },
        Condition::GreaterThan => {
            reveal_strlit("bgt");
            reveal_strlit("gt");
            assert("bgt"@ =~= seq!['b'] + "gt"@);
        },
    }
}

/// The value of the cpu register that a system register name stands for; a name the cpu
/// does not know reads as zero, as the reserved indices do.
pub open spec fn register_named(c: Cpu, name: Seq<char>) -> u32 {
    if name == "eipc"@ { c.eipc }
    else if name == "eipsw"@ { c.eipsw }
    else if name == "fepc"@ { c.fepc }
    else if name == "fepsw"@ { c.fepsw }
    else if name == "ecr"@ { c.ecr }
    else if name == "psw"@ { c.psw }
    else if name == "pir"@ { PIR_VALUE }
    else if name == "tkcw"@ { c.tkcw }
    else if name == "chcw"@ { c.chcw }
    else if name == "adtre"@ { c.adtre }
    else if name == "sr29"@ { c.sr29 }
    else if name == "sr30"@ { c.sr30 }
    else if name == "sr31"@ { c.sr31 }
    else { 0 }
}

/// The disassembler names each system register index after the register that `stsr` reads
/// there, so a listing of `ldsr`/`stsr` shows the register the cpu really uses.
pub proof fn lemma_register_names_match_cpu(c: Cpu, index: u8)
    ensures
        c.read_system_register_spec(index) == register_named(c, system_register_name_spec(index)),
{
    reveal_strlit("eipc");
    reveal_strlit("eipsw");
    reveal_strlit("fepc");
    reveal_strlit("fepsw");
    reveal_strlit("ecr");
    reveal_strlit("psw");
    reveal_strlit("pir");
    reveal_strlit("tkcw");
    reveal_strlit("chcw");
    reveal_strlit("adtre");
    reveal_strlit("sr29");
    reveal_strlit("sr30");
    reveal_strlit("sr31");
    reveal_strlit("reserved");
    assert("eipc"@.len() == 4);
    assert("eipsw"@.len() == 5);
    assert("fepc"@.len() == 4);
    assert("fepsw"@.len() == 5);
    assert("ecr"@.len() == 3);
    assert("psw"@.len() == 3);
    assert("pir"@.len() == 3);
    assert("tkcw"@.len() == 4);
    assert("chcw"@.len() == 4);
    assert("adtre"@.len() == 5);
    assert("sr29"@.len() == 4);
    assert("sr30"@.len() == 4);
    assert("sr31"@.len() == 4);
    assert("reserved"@.len() == 8);
    assert("eipc"@[0] == 'e');
    assert("eipsw"@[0] == 'e');
    assert("fepc"@[0] == 'f');
    assert("fepsw"@[0] == 'f');
    assert("ecr"@[0] == 'e');
    assert("psw"@[0] == 'p');
    assert("psw"@[1] == 's');
    assert("pir"@[0] == 'p');
    assert("pir"@[1] == 'i');
    assert("tkcw"@[0] == 't');
    assert("chcw"@[0] == 'c');
    assert("adtre"@[0] == 'a');
    assert("sr29"@[0] == 's');
    assert("sr29"@[2] == '2');
    assert("sr30"@[0] == 's');
    assert("sr30"@[2] == '3');
    assert("sr30"@[3] == '0');
    assert("sr31"@[0] == 's');
    assert("sr31"@[2] == '3');
    assert("sr31"@[3] == '1');
}

/// `ldsr` to a system register index changes no register that goes by another name: what the
/// disassembler names is all that the write can touch.
pub proof fn lemma_register_write_touches_named(c: Cpu, index: u8, value: u32, name: Seq<char>)
    requires
        name != system_register_name_spec(index),
    ensures
        register_named(c.write_system_register_spec(index, value), name) == register_named(c, name),
{
}

} // verus!
