use vstd::prelude::*;
use crate::bus::{Bus, BusView};
use crate::cart::{Cart, CartView, HEADER_OFFSET_FROM_END, MAX_ROM_LEN, MAX_SRAM_LEN, ascii_lossy_spec};
use crate::cpu::decode::{instruction_width, instruction_width_spec};
use crate::cpu::exec::{StepOutcome, Stop, lemma_step_cycles};
use crate::cpu::state::{Cpu, PSW_CY, PSW_OV, PSW_S, PSW_Z};
use crate::debug::{disassemble, disassemble_spec};
use crate::text::{
    decimal, lemma_digit_not_space, lemma_padded_hex_len, lemma_trim_keeps_prefix, pad_right, padded_hex, push_char, push_decimal, push_padded, push_padded_hex, push_str, trim_end,
    trim_end_spaces,
};

verus! {

pub const DEFAULT_STEPS: u64 = 100;

// roms loop forever by design, so an unbounded run needs a backstop
pub const SAFETY_CAP: u64 = 10_000_000;

/// The condition flags: zero, sign, overflow and carry.
pub const FLAG_MASK: u32 = 0x000F;

/// How many instructions a trace runs: the count asked for; otherwise a short default when
/// neither a halt nor a cycle budget ends the run; otherwise the safety cap.
pub open spec fn step_limit_spec(steps: Option<u64>, until_halt: bool, max_cycles: Option<u64>) -> u64 {
    match steps {
        Some(n) => n,
        None => if !until_halt && max_cycles is None {
            DEFAULT_STEPS
        } else {
            SAFETY_CAP
        },
    }
}

/// The first `n` bytes from `pc` in hexadecimal, separated by spaces.
pub open spec fn byte_text(b: BusView, pc: u32, n: nat) -> Seq<char>
    decreases n,
{
    if n == 0 {
        Seq::empty()
    } else {
        let before = byte_text(b, pc, (n - 1) as nat);
        (if n == 1 { before } else { before.push(' ') }) + padded_hex(
            b.read_u8(pc.wrapping_add((n - 1) as u32)) as nat,
            2,
        )
    }
}

/// The bytes of the instruction at `pc`, in hexadecimal.
pub open spec fn raw_bytes_spec(b: BusView, pc: u32) -> Seq<char> {
    byte_text(b, pc, instruction_width_spec(b.read_u16(pc)) as nat)
}

/// ` rN=` and the new value in eight hex digits, for each of the first `n` registers that
/// changed.
pub open spec fn register_changes(before: Seq<u32>, after: Seq<u32>, n: nat) -> Seq<char>
    decreases n,
{
    if n == 0 {
        Seq::empty()
    } else {
        register_changes(before, after, (n - 1) as nat) + if before[n - 1] != after[n - 1] {
            seq![' ', 'r'] + decimal((n - 1) as nat) + seq!['='] + padded_hex(after[n - 1] as nat, 8)
        } else {
            Seq::empty()
        }
    }
}

pub open spec fn bit_char(b: bool) -> char {
    if b {
        '1'
    } else {
        '0'
    }
}

/// What an instruction changed: the registers that differ, all four condition flags when one of
/// them changed, and the whole psw when any other bit changed.
pub open spec fn changes_spec(before_regs: Seq<u32>, before_psw: u32, after_regs: Seq<u32>, psw: u32) -> Seq<char> {
    let changed = before_psw ^ psw;
    let flags = if changed & FLAG_MASK != 0 {
        seq![
            ' ',
            'z',
            bit_char(psw & PSW_Z != 0),
            ' ',
            's',
            bit_char(psw & PSW_S != 0),
            ' ',
            'o',
            'v',
            bit_char(psw & PSW_OV != 0),
            ' ',
            'c',
            'y',
            bit_char(psw & PSW_CY != 0),
        ]
    } else {
        Seq::empty()
    };
    let whole = if changed & !FLAG_MASK != 0 {
        seq![' ', 'p', 's', 'w', '='] + padded_hex(psw as nat, 8)
    } else {
        Seq::empty()
    };
    register_changes(before_regs, after_regs, 32) + flags + whole
}

/// Why a trace stopped, in words.
pub open spec fn describe_spec(stop: Stop) -> Seq<char> {
    match stop {
        Stop::Halted => "halted with nothing able to wake it"@,
        Stop::Fatal { code, pc } => "fatal exception 0x"@ + padded_hex(code as nat, 4) + " at "@ + padded_hex(
            pc as nat,
            8,
        ),
        Stop::Unimplemented { op, pc } => "unimplemented instruction "@ + op.mnemonic_spec() + " at "@
            + padded_hex(pc as nat, 8),
    }
}

/// The trace line of an executed instruction: address, bytes, disassembly and changes, in
/// columns, without trailing spaces.
pub open spec fn executed_line_spec(pc: u32, bytes: Seq<char>, text: Seq<char>, changes: Seq<char>) -> Seq<char> {
    trim_end_spaces(
        padded_hex(pc as nat, 8) + seq![' ', ' '] + pad_right(bytes, 11) + seq![' ', ' '] + pad_right(text, 24)
            + changes,
    )
}

/// The trace line of an exception: address, bytes, the code and where the cpu went.
pub open spec fn exception_line_spec(pc: u32, bytes: Seq<char>, code: u16, target: u32) -> Seq<char> {
    padded_hex(pc as nat, 8) + seq![' ', ' '] + pad_right(bytes, 11) + seq![' ', ' '] + pad_right(
        "exception 0x"@ + padded_hex(code as nat, 4),
        24,
    ) + "-> "@ + padded_hex(target as nat, 8)
}

/// How many instructions to run, from the command line's choices.
pub fn step_limit(steps: Option<u64>, until_halt: bool, max_cycles: Option<u64>) -> (r: u64)
    ensures
        r == step_limit_spec(steps, until_halt, max_cycles),
{
    match steps {
        Some(n) => n,
        None => if !until_halt && max_cycles.is_none() {
            DEFAULT_STEPS
        } else {
            SAFETY_CAP
        },
    }
}

/// The bytes of the instruction at `pc` in hexadecimal, separated by spaces.
pub fn raw_bytes(bus: &Bus, pc: u32) -> (r: String)
    requires
        bus.wf(),
    ensures
        r@ == raw_bytes_spec(bus@, pc),
{
    let width = instruction_width(bus.read_u16(pc));
    let mut text = String::new();
    let mut offset: u32 = 0;
    while offset < width
        invariant
            bus.wf(),
            width == instruction_width_spec(bus@.read_u16(pc)),
            offset <= width,
            text@ == byte_text(bus@, pc, offset as nat),
        decreases width - offset,
    {
        let ghost before = text@;
        if offset != 0 {
            push_char(&mut text, ' ');
        }
        push_padded_hex(&mut text, bus.read_u8(pc.wrapping_add(offset)) as u32, 2);
        offset = offset + 1;
        assert(text@ =~= byte_text(bus@, pc, offset as nat));
    }
    text
}

fn push_bit(s: &mut String, b: bool)
    ensures
        final(s)@ == old(s)@.push(bit_char(b)),
{
    if b {
        push_char(s, '1');
    } else {
        push_char(s, '0');
    }
}

/// What an instruction changed: ` rN=` and the new value for each changed register, the four
/// condition flags as ` z1 s0 ov0 cy0` when one of them changed, and ` psw=` and the new psw
/// when another psw bit did; values in eight hex digits.
pub fn changes(before_regs: &[u32; 32], before_psw: u32, cpu: &Cpu) -> (r: String)
    ensures
        r@ == changes_spec(before_regs@, before_psw, cpu.regs@, cpu.psw),
{
    let mut text = String::new();
    let mut index: usize = 0;
    while index < 32
        invariant
            index <= 32,
            text@ == register_changes(before_regs@, cpu.regs@, index as nat),
        decreases 32 - index,
    {
        let ghost prior = text@;
        let before = before_regs[index];
        let after = cpu.regs[index];
        if before != after {
            push_char(&mut text, ' ');
            push_char(&mut text, 'r');
            push_decimal(&mut text, index as u64);
            push_char(&mut text, '=');
            push_padded_hex(&mut text, after, 8);
        }
        index = index + 1;
        assert(text@ =~= register_changes(before_regs@, cpu.regs@, index as nat));
    }
    let ghost regs = text@;

    let changed = before_psw ^ cpu.psw;
    if changed & FLAG_MASK != 0 {
        push_char(&mut text, ' ');
        push_char(&mut text, 'z');
        push_bit(&mut text, cpu.psw & PSW_Z != 0);
        push_char(&mut text, ' ');
        push_char(&mut text, 's');
        push_bit(&mut text, cpu.psw & PSW_S != 0);
        push_char(&mut text, ' ');
        push_char(&mut text, 'o');
        push_char(&mut text, 'v');
        push_bit(&mut text, cpu.psw & PSW_OV != 0);
        push_char(&mut text, ' ');
        push_char(&mut text, 'c');
        push_char(&mut text, 'y');
        push_bit(&mut text, cpu.psw & PSW_CY != 0);
    }
    let ghost flagged = text@;
    if changed & !FLAG_MASK != 0 {
        push_char(&mut text, ' ');
        push_char(&mut text, 'p');
        push_char(&mut text, 's');
        push_char(&mut text, 'w');
        push_char(&mut text, '=');
        push_padded_hex(&mut text, cpu.psw, 8);
    }
    assert(text@ =~= changes_spec(before_regs@, before_psw, cpu.regs@, cpu.psw));
    text
}

/// Why the cpu stopped, in words.
pub fn describe(stop: Stop) -> (r: String)
    ensures
        r@ == describe_spec(stop),
{
    let mut text = String::new();
    match stop {
        Stop::Halted => push_str(&mut text, "halted with nothing able to wake it"),
        Stop::Fatal { code, pc } => {
            push_str(&mut text, "fatal exception 0x");
            push_padded_hex(&mut text, code as u32, 4);
            push_str(&mut text, " at ");
            push_padded_hex(&mut text, pc, 8);
        },
        Stop::Unimplemented { op, pc } => {
            push_str(&mut text, "unimplemented instruction ");
            push_str(&mut text, op.mnemonic());
            push_str(&mut text, " at ");
            push_padded_hex(&mut text, pc, 8);
        },
    }
    assert(text@ =~= describe_spec(stop));
    text
}

fn push_columns(s: &mut String, pc: u32, bytes: &str)
    ensures
        final(s)@ == old(s)@ + padded_hex(pc as nat, 8) + seq![' ', ' '] + pad_right(bytes@, 11) + seq![' ', ' '],
{
    push_padded_hex(s, pc, 8);
    push_char(s, ' ');
    push_char(s, ' ');
    push_padded(s, bytes, 11);
    push_char(s, ' ');
    push_char(s, ' ');
    assert(final(s)@ =~= old(s)@ + padded_hex(pc as nat, 8) + seq![' ', ' '] + pad_right(bytes@, 11) + seq![
        ' ',
        ' ',
    ]);
}

/// The trace line of an executed instruction.
pub fn executed_line(pc: u32, bytes: &str, text: &str, changes: &str) -> (r: String)
    ensures
        r@ == executed_line_spec(pc, bytes@, text@, changes@),
{
    let mut line = String::new();
    push_columns(&mut line, pc, bytes);
    push_padded(&mut line, text, 24);
    push_str(&mut line, changes);
    assert(line@ =~= padded_hex(pc as nat, 8) + seq![' ', ' '] + pad_right(bytes@, 11) + seq![' ', ' ']
        + pad_right(text@, 24) + changes@);
    trim_end(&mut line);
    line
}

/// The trace line of an exception.
pub fn exception_line(pc: u32, bytes: &str, code: u16, target: u32) -> (r: String)
    ensures
        r@ == exception_line_spec(pc, bytes@, code, target),
{
    let mut label = String::new();
    push_str(&mut label, "exception 0x");
    push_padded_hex(&mut label, code as u32, 4);
    let mut line = String::new();
    push_columns(&mut line, pc, bytes);
    push_padded(&mut line, label.as_str(), 24);
    push_str(&mut line, "-> ");
    push_padded_hex(&mut line, target, 8);
    assert(line@ =~= exception_line_spec(pc, bytes@, code, target));
    line
}

/// A trace in progress: how many instructions it may run, how many lines it has printed, its
/// cycle budget, and whether its limit is the safety cap rather than a count asked for.
pub struct Trace {
    pub limit: u64,
    pub executed: u64,
    pub max_cycles: Option<u64>,
    pub capped: bool,
}

/// What one round of a trace produced: a line for the listing, or the closing note.
pub enum TraceStep {
    Line(String),
    Finished(String),
}

impl TraceStep {
    pub open spec fn text(self) -> Seq<char> {
        match self {
            TraceStep::Line(s) => s@,
            TraceStep::Finished(s) => s@,
        }
    }

    pub open spec fn finished(self) -> bool {
        self is Finished
    }
}

impl Trace {
    /// One round of a trace: stop at the instruction limit or the cycle budget; otherwise step
    /// the cpu, run the devices for the cycles it took, and describe what happened. Executed
    /// instructions and exceptions give a line and count; a stop ends the trace.
    pub open spec fn round(self, cpu: Cpu, bus: BusView) -> (Trace, Cpu, BusView, bool, Seq<char>) {
        if self.executed >= self.limit {
            (
                self,
                cpu,
                bus,
                true,
                if self.capped {
                    "-- safety cap of "@ + decimal(SAFETY_CAP as nat) + " instructions hit, rom never halted"@
                } else {
                    "-- stopped after "@ + decimal(self.executed as nat) + " instructions"@
                },
            )
        } else if self.max_cycles is Some && cpu.cycles >= self.max_cycles->0 {
            (self, cpu, bus, true, "-- stopped after "@ + decimal(cpu.cycles as nat) + " cycles"@)
        } else {
            let pc = cpu.pc;
            let bytes = raw_bytes_spec(bus, pc);
            let (c, b, r) = cpu.step_spec(bus);
            let ticked = b.after_cycles((c.cycles - cpu.cycles) as u64);
            let counted = Trace { executed: (self.executed + 1) as u64, ..self };
            match r {
                Ok(StepOutcome::Executed(instruction)) => (
                    counted,
                    c,
                    ticked,
                    false,
                    executed_line_spec(
                        pc,
                        bytes,
                        disassemble_spec(instruction, pc),
                        changes_spec(cpu.regs@, cpu.psw, c.regs@, c.psw),
                    ),
                ),
                Ok(StepOutcome::Exception { code }) => (
                    counted,
                    c,
                    ticked,
                    false,
                    exception_line_spec(pc, bytes, code, c.pc),
                ),
                Err(stop) => (
                    self,
                    c,
                    ticked,
                    true,
                    "-- "@ + describe_spec(stop) + " after "@ + decimal(self.executed as nat) + " instructions"@,
                ),
            }
        }
    }

    /// A trace that has run nothing yet.
    pub fn new(steps: Option<u64>, until_halt: bool, max_cycles: Option<u64>) -> (r: Trace)
        ensures
            r.limit == step_limit_spec(steps, until_halt, max_cycles),
            r.executed == 0,
            r.max_cycles == max_cycles,
            r.capped == (steps is None && r.limit == SAFETY_CAP),
    {
        let limit = step_limit(steps, until_halt, max_cycles);
        Trace { limit, executed: 0, max_cycles, capped: steps.is_none() && limit == SAFETY_CAP }
    }

    /// Runs one round of the trace (see `round`).
    #[verifier::spinoff_prover]
    pub fn next(&mut self, cpu: &mut Cpu, bus: &mut Bus) -> (r: TraceStep)
        requires
            old(bus).wf(),
            old(cpu).cycles + 38 <= u64::MAX,
        ensures
            final(bus).wf(),
            (*final(self), *final(cpu), final(bus)@, r.finished(), r.text()) == old(self).round(*old(cpu), old(bus)@),
    {
        if self.executed >= self.limit {
            let mut note = String::new();
            if self.capped {
                push_str(&mut note, "-- safety cap of ");
                push_decimal(&mut note, SAFETY_CAP);
                push_str(&mut note, " instructions hit, rom never halted");
            } else {
                push_str(&mut note, "-- stopped after ");
                push_decimal(&mut note, self.executed);
                push_str(&mut note, " instructions");
            }
            return TraceStep::Finished(note);
        }
        if let Some(limit) = self.max_cycles {
            if cpu.cycles >= limit {
                let mut note = String::new();
                push_str(&mut note, "-- stopped after ");
                push_decimal(&mut note, cpu.cycles);
                push_str(&mut note, " cycles");
                return TraceStep::Finished(note);
            }
        }

        let pc = cpu.pc;
        let bytes = raw_bytes(bus, pc);
        let before_regs = cpu.regs;
        let before_psw = cpu.psw;
        let before_cycles = cpu.cycles;
        let ghost before_cpu = *cpu;
        let ghost before_bus = bus@;

        let outcome = cpu.step(bus);
        proof {
            lemma_step_cycles(before_cpu, before_bus);
            bus.lemma_wf();
        }
        bus.tick(cpu.cycles - before_cycles);

        match outcome {
            Ok(StepOutcome::Executed(instruction)) => {
                let text = disassemble(instruction, pc);
                let changed = changes(&before_regs, before_psw, cpu);
                let line = executed_line(pc, bytes.as_str(), text.as_str(), changed.as_str());
                self.executed = self.executed + 1;
                TraceStep::Line(line)
            },
            Ok(StepOutcome::Exception { code }) => {
                let line = exception_line(pc, bytes.as_str(), code, cpu.pc);
                self.executed = self.executed + 1;
                TraceStep::Line(line)
            },
            Err(stop) => {
                let mut note = String::new();
                push_str(&mut note, "-- ");
                let reason = describe(stop);
                push_str(&mut note, reason.as_str());
                push_str(&mut note, " after ");
                push_decimal(&mut note, self.executed);
                push_str(&mut note, " instructions");
                assert(note@ =~= "-- "@ + describe_spec(stop) + " after "@ + decimal(self.executed as nat)
                    + " instructions"@);
                TraceStep::Finished(note)
            },
        }
    }
}

/// Whether a rom file of `len` bytes may be read at all: anything over the largest rom is
/// refused before reading, so an oversized file cannot exhaust memory.
pub fn check_rom_file(name: &str, len: u64) -> (r: Result<(), String>)
    ensures
        len <= MAX_ROM_LEN ==> r is Ok,
        len > MAX_ROM_LEN ==> (r matches Err(m) && m@ == name@ + ": "@ + decimal(len as nat) + " bytes exceeds the "@
            + decimal(MAX_ROM_LEN as nat) + " byte maximum"@),
{
    if len > MAX_ROM_LEN as u64 {
        let mut message = String::new();
        push_str(&mut message, name);
        push_str(&mut message, ": ");
        push_decimal(&mut message, len);
        push_str(&mut message, " bytes exceeds the ");
        push_decimal(&mut message, MAX_ROM_LEN as u64);
        push_str(&mut message, " byte maximum");
        return Err(message);
    }
    Ok(())
}

/// The game pak a command runs: the rom with the cartridge ram asked for, none by default. A
/// ram size over the maximum is refused first; a rom or ram the game pak refuses is reported
/// after the file's name.
pub fn open_cart(rom: Vec<u8>, sram: Option<usize>, name: &str) -> (r: Result<Cart, String>)
    ensures
        ({
            let len: usize = match sram {
                Some(n) => n,
                None => 0,
            };
            if len > MAX_SRAM_LEN {
                r matches Err(m) && m@ == "sram of "@ + decimal(len as nat) + " bytes exceeds the "@ + decimal(
                    MAX_SRAM_LEN as nat,
                ) + " byte maximum"@
            } else {
                match Cart::check_lengths(rom@.len() as int, len as int) {
                    Some(e) => r matches Err(m) && m@ == name@ + ": "@ + e.message_spec(),
                    None => r matches Ok(c) && c.wf() && c@ == (CartView {
                        rom: rom@,
                        sram: Seq::new(len as nat, |i: int| 0u8),
                    }),
                }
            }
        }),
{
    let len: usize = match sram {
        Some(n) => n,
        None => 0,
    };
    if len > MAX_SRAM_LEN {
        let mut message = String::new();
        push_str(&mut message, "sram of ");
        push_decimal(&mut message, len as u64);
        push_str(&mut message, " bytes exceeds the ");
        push_decimal(&mut message, MAX_SRAM_LEN as u64);
        push_str(&mut message, " byte maximum");
        return Err(message);
    }
    match Cart::with_sram(rom, len) {
        Ok(cart) => Ok(cart),
        Err(error) => {
            let mut message = String::new();
            push_str(&mut message, name);
            push_str(&mut message, ": ");
            let reason = error.to_string();
            push_str(&mut message, reason.as_str());
            Err(message)
        },
    }
}

/// The lines the info command prints: title, maker and game codes, version, and the rom and ram
/// sizes, each after a label in a twelve-column field. The header sits 0x220 bytes before the
/// end of the rom.
pub open spec fn info_spec(cart: CartView) -> Seq<Seq<char>> {
    let base = cart.rom.len() - HEADER_OFFSET_FROM_END;
    seq![
        "title       "@ + ascii_lossy_spec(cart.rom.subrange(base, base + 20)),
        "maker       "@ + ascii_lossy_spec(cart.rom.subrange(base + 25, base + 27)),
        "game code   "@ + ascii_lossy_spec(cart.rom.subrange(base + 27, base + 31)),
        "version     1."@ + decimal(cart.rom[base + 31] as nat),
        "rom bytes   "@ + decimal(cart.rom.len()),
        "sram bytes  "@ + decimal(cart.sram.len()),
    ]
}

/// The lines the info command prints for a game pak.
pub fn info_lines(cart: &Cart) -> (r: Vec<String>)
    requires
        cart.wf(),
    ensures
        r@.len() == 6,
        forall|i: int| 0 <= i < 6 ==> #[trigger] r@[i]@ == info_spec(cart@)[i],
{
    let header = cart.header();
    let mut lines: Vec<String> = Vec::new();

    let mut line = String::new();
    push_str(&mut line, "title       ");
    let text = header.title_ascii_lossy();
    push_str(&mut line, text.as_str());
    lines.push(line);

    let mut line = String::new();
    push_str(&mut line, "maker       ");
    let text = header.maker_code_ascii_lossy();
    push_str(&mut line, text.as_str());
    lines.push(line);

    let mut line = String::new();
    push_str(&mut line, "game code   ");
    let text = header.game_code_ascii_lossy();
    push_str(&mut line, text.as_str());
    lines.push(line);

    let mut line = String::new();
    push_str(&mut line, "version     1.");
    push_decimal(&mut line, header.version as u64);
    lines.push(line);

    let mut line = String::new();
    push_str(&mut line, "rom bytes   ");
    push_decimal(&mut line, cart.rom().len() as u64);
    lines.push(line);

    let mut line = String::new();
    push_str(&mut line, "sram bytes  ");
    push_decimal(&mut line, cart.sram().len() as u64);
    lines.push(line);

    lines
}

/// The lines printed by at most `n` rounds of a trace, stopping at the round that finishes it.
pub open spec fn lines_printed(t: Trace, cpu: Cpu, bus: BusView, n: nat) -> nat
    decreases n,
{
    if n == 0 {
        0
    } else {
        let (next, c, b, finished, text) = t.round(cpu, bus);
        if finished {
            0
        } else {
            1 + lines_printed(next, c, b, (n - 1) as nat)
        }
    }
}

/// A round that prints a line runs one instruction below the limit, counts it, and the line
/// starts with that instruction's address in eight hex digits; a round that finishes counts
/// nothing. The limit, the cycle budget and the cap stay.
pub proof fn lemma_round_lines(t: Trace, cpu: Cpu, bus: BusView)
    ensures
        ({
            let (next, c, b, finished, text) = t.round(cpu, bus);
            &&& next.limit == t.limit && next.max_cycles == t.max_cycles && next.capped == t.capped
            &&& finished ==> next.executed == t.executed
            &&& !finished ==> {
                &&& t.executed < t.limit
                &&& next.executed == t.executed + 1
                &&& text.len() >= 8
                &&& text.subrange(0, 8) == padded_hex(cpu.pc as nat, 8)
            }
        }),
{
    let (next, c, b, finished, text) = t.round(cpu, bus);
    lemma_padded_hex_len(cpu.pc as nat, 8);
    lemma_digit_not_space((cpu.pc % 16) as int);
    if !finished {
        let pc = cpu.pc;
        let bytes = raw_bytes_spec(bus, pc);
        let (c1, b1, r) = cpu.step_spec(bus);
        if let Ok(StepOutcome::Executed(instruction)) = r {
            let whole = padded_hex(pc as nat, 8) + seq![' ', ' '] + pad_right(bytes, 11) + seq![' ', ' '] + pad_right(
                disassemble_spec(instruction, pc),
                24,
            ) + changes_spec(cpu.regs@, cpu.psw, c1.regs@, c1.psw);
            assert(whole[7] == padded_hex(pc as nat, 8)[7]);
            lemma_trim_keeps_prefix(whole, 7);
            assert(whole.subrange(0, 8) =~= padded_hex(pc as nat, 8));
        }
        assert(text.subrange(0, 8) =~= padded_hex(pc as nat, 8));
    }
}

/// However the rom behaves, a trace prints no more lines than its limit leaves: a whole run, of
/// any number of rounds, prints at most `limit - executed` lines, one per instruction.
pub proof fn lemma_trace_line_bound(t: Trace, cpu: Cpu, bus: BusView, n: nat)
    requires
        t.executed <= t.limit,
    ensures
        lines_printed(t, cpu, bus, n) <= t.limit - t.executed,
    decreases n,
{
    if n > 0 {
        lemma_round_lines(t, cpu, bus);
        let (next, c, b, finished, text) = t.round(cpu, bus);
        if !finished {
            lemma_trace_line_bound(next, c, b, (n - 1) as nat);
        }
    }
}

} // verus!
