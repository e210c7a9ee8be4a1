use vstd::prelude::*;
use crate::bus::{Bus, BusView};
use crate::cpu::decode::Op;
use crate::cpu::state::{Cpu, PSW_Z};

verus! {

pub const SRC_WORD: u8 = 30;
pub const DST_WORD: u8 = 29;
pub const LENGTH: u8 = 28;
pub const SRC_OFFSET: u8 = 27;
pub const DST_OFFSET: u8 = 26;

/// A bit-string operation on one source bit and one destination bit (the low bits); the "n"
/// forms take the source bit inverted.
pub open spec fn combine_spec(op: Op, src: u32, dst: u32) -> u32 {
    match op {
        Op::Orbsu => dst | src,
        Op::Andbsu => dst & src,
        Op::Xorbsu => dst ^ src,
        Op::Movbsu => src,
        Op::Ornbsu => dst | (!src & 1u32),
        Op::Andnbsu => dst & (!src & 1u32),
        Op::Xornbsu => dst ^ (!src & 1u32),
        _ => !src & 1u32,
    }
}

/// The same operation applied to every bit of two words at once.
pub open spec fn combine_word(op: Op, src: u32, dst: u32) -> u32 {
    match op {
        Op::Orbsu => dst | src,
        Op::Andbsu => dst & src,
        Op::Xorbsu => dst ^ src,
        Op::Movbsu => src,
        Op::Ornbsu => dst | !src,
        Op::Andnbsu => dst & !src,
        Op::Xornbsu => dst ^ !src,
        _ => !src,
    }
}

/// The `n` bits from bit `lo` up.
pub open spec fn field_mask(lo: u32, n: u32) -> u32 {
    ((0xFFFF_FFFFu64 >> ((32 - n) as u64)) << (lo as u64)) as u32
}

/// `dst` with its `n` bits from bit `lo` up taken from `src`.
pub open spec fn splice(dst: u32, src: u32, lo: u32, n: u32) -> u32 {
    (dst & !field_mask(lo, n)) | (src & field_mask(lo, n))
}

/// The source bit string starting at bit `offset` of word `w0` (continuing into `w1`), moved so
/// that it starts at bit `lo`.
pub open spec fn aligned_source(w0: u32, w1: u32, offset: u32, lo: u32) -> u32 {
    (((((w1 as u64) << 32u64) | (w0 as u64)) >> (offset as u64)) << (lo as u64)) as u32
}

fn combine(op: Op, src: u32, dst: u32) -> (r: u32)
    ensures
        r == combine_spec(op, src, dst),
{
    match op {
        Op::Orbsu => dst | src,
        Op::Andbsu => dst & src,
        Op::Xorbsu => dst ^ src,
        Op::Movbsu => src,
        Op::Ornbsu => dst | (!src & 1u32),
        Op::Andnbsu => dst & (!src & 1u32),
        Op::Xornbsu => dst ^ (!src & 1u32),
        _ => !src & 1u32,
    }
}

/// Taking one more bit into a splice.
proof fn lemma_splice_step(dst: u32, src: u32, lo: u32, i: u32)
    by (bit_vector)
    requires
        lo + i < 32,
    ensures
        (splice(dst, src, lo, i) & !(1u32 << (lo + i) as u32)) | (((src >> (lo + i) as u32) & 1u32) << (lo
            + i) as u32) == splice(dst, src, lo, (i + 1) as u32),
        (splice(dst, src, lo, i) >> (lo + i) as u32) & 1u32 == (dst >> (lo + i) as u32) & 1u32,
{
}

/// A splice of no bits is the destination.
proof fn lemma_splice_empty(dst: u32, src: u32, lo: u32)
    by (bit_vector)
    requires
        lo < 32,
    ensures
        splice(dst, src, lo, 0) == dst,
{
}

/// The word-wide operation agrees with the one-bit operation at every bit.
proof fn lemma_combine_bit(op: Op, src: u32, dst: u32, k: u32)
    requires
        k < 32,
    ensures
        combine_spec(op, (src >> k) & 1u32, (dst >> k) & 1u32) & 1u32 == (combine_word(op, src, dst) >> k) & 1u32,
{
    let a = (src >> k) & 1u32;
    let b = (dst >> k) & 1u32;
    match op {
        Op::Orbsu => {
            assert((b | a) & 1u32 == ((dst | src) >> k) & 1u32) by (bit_vector)
                requires
                    a == (src >> k) & 1u32,
                    b == (dst >> k) & 1u32,
            ;
        },
        Op::Andbsu => {
            assert((b & a) & 1u32 == ((dst & src) >> k) & 1u32) by (bit_vector)
                requires
                    a == (src >> k) & 1u32,
                    b == (dst >> k) & 1u32,
            ;
        },
        Op::Xorbsu => {
            assert((b ^ a) & 1u32 == ((dst ^ src) >> k) & 1u32) by (bit_vector)
                requires
                    a == (src >> k) & 1u32,
                    b == (dst >> k) & 1u32,
            ;
        },
        Op::Movbsu => {
            assert(a & 1u32 == (src >> k) & 1u32) by (bit_vector)
                requires
                    a == (src >> k) & 1u32,
            ;
        },
        Op::Ornbsu => {
            assert((b | (!a & 1u32)) & 1u32 == ((dst | !src) >> k) & 1u32) by (bit_vector)
                requires
                    a == (src >> k) & 1u32,
                    b == (dst >> k) & 1u32,
                    k < 32,
            ;
        },
        Op::Andnbsu => {
            assert((b & (!a & 1u32)) & 1u32 == ((dst & !src) >> k) & 1u32) by (bit_vector)
                requires
                    a == (src >> k) & 1u32,
                    b == (dst >> k) & 1u32,
                    k < 32,
            ;
        },
        Op::Xornbsu => {
            assert((b ^ (!a & 1u32)) & 1u32 == ((dst ^ !src) >> k) & 1u32) by (bit_vector)
                requires
                    a == (src >> k) & 1u32,
                    b == (dst >> k) & 1u32,
                    k < 32,
            ;
        },
        _ => {
            assert((!a & 1u32) & 1u32 == ((!src) >> k) & 1u32) by (bit_vector)
                requires
                    a == (src >> k) & 1u32,
                    k < 32,
            ;
        },
    }
}

/// Bit `lo + i` of the aligned source is bit `offset + i` of the two source words read as one.
proof fn lemma_aligned_bit(w0: u32, w1: u32, offset: u32, lo: u32, i: u32)
    by (bit_vector)
    requires
        offset < 32,
        lo + i < 32,
    ensures
        offset + i < 32 ==> (aligned_source(w0, w1, offset, lo) >> (lo + i) as u32) & 1u32 == (w0 >> (offset
            + i) as u32) & 1u32,
        offset + i >= 32 ==> (aligned_source(w0, w1, offset, lo) >> (lo + i) as u32) & 1u32 == (w1 >> (offset + i
            - 32) as u32) & 1u32,
{
}

proof fn lemma_low_five(x: u32)
    by (bit_vector)
    ensures
        x & 31u32 < 32,
{
}

impl Cpu {
    /// The source word address made a multiple of four and the source offset reduced below 32.
    pub open spec fn normalised_source(self) -> Cpu {
        let c = self.with_reg(SRC_WORD, self.reg_spec(SRC_WORD) & !3u32);
        c.with_reg(SRC_OFFSET, c.reg_spec(SRC_OFFSET) & 31u32)
    }

    /// The same for the destination word and offset.
    pub open spec fn normalised_destination(self) -> Cpu {
        let c = self.with_reg(DST_WORD, self.reg_spec(DST_WORD) & !3u32);
        c.with_reg(DST_OFFSET, c.reg_spec(DST_OFFSET) & 31u32)
    }

    /// One pass of a bit-string operation: it fills the rest of the current destination word,
    /// or as much of it as the length allows, with the operation applied to the source bits
    /// that line up with it; then it advances the addresses, offsets and length in r26..r30.
    /// The result says whether the string is done.
    pub open spec fn bit_string_spec(self, bus: BusView, op: Op) -> (Cpu, BusView, bool) {
        let c = self.normalised_source().normalised_destination();
        let length = c.reg_spec(LENGTH);
        if length == 0 {
            (c, bus, true)
        } else {
            let src_word = c.reg_spec(SRC_WORD);
            let src_offset = c.reg_spec(SRC_OFFSET);
            let dst_word = c.reg_spec(DST_WORD);
            let dst_offset = c.reg_spec(DST_OFFSET);
            let n = if length < 32 - dst_offset { length } else { (32 - dst_offset) as u32 };
            let source = aligned_source(
                bus.read_u32(src_word),
                bus.read_u32(src_word.wrapping_add(4)),
                src_offset,
                dst_offset,
            );
            let destination = bus.read_u32(dst_word);
            let written = splice(destination, combine_word(op, source, destination), dst_offset, n);
            let after = c.with_reg(DST_WORD, if dst_offset + n == 32 { dst_word.wrapping_add(4) } else { dst_word })
                .with_reg(SRC_WORD, if src_offset + n >= 32 { src_word.wrapping_add(4) } else { src_word })
                .with_reg(SRC_OFFSET, ((src_offset + n) % 32) as u32)
                .with_reg(DST_OFFSET, ((dst_offset + n) % 32) as u32)
                .with_reg(LENGTH, (length - n) as u32);
            (after, bus.write_u32(dst_word, written), length == n)
        }
    }

    fn normalise_source(&mut self)
        ensures
            *final(self) == old(self).normalised_source(),
            final(self).reg_spec(SRC_OFFSET) < 32,
    {
        let word = self.reg(SRC_WORD) & !3u32;
        self.set_reg(SRC_WORD, word);
        let offset = self.reg(SRC_OFFSET) & 31u32;
        proof {
            lemma_low_five(self.reg_spec(SRC_OFFSET));
        }
        self.set_reg(SRC_OFFSET, offset);
    }

    fn normalise_destination(&mut self)
        ensures
            *final(self) == old(self).normalised_destination(),
            final(self).reg_spec(DST_OFFSET) < 32,
            final(self).reg_spec(SRC_OFFSET) == old(self).reg_spec(SRC_OFFSET),
    {
        let word = self.reg(DST_WORD) & !3u32;
        self.set_reg(DST_WORD, word);
        let offset = self.reg(DST_OFFSET) & 31u32;
        proof {
            lemma_low_five(self.reg_spec(DST_OFFSET));
        }
        self.set_reg(DST_OFFSET, offset);
    }

    // one destination word per call, pc stays put until the string is done
    /// Runs one pass of a bit-string operation (see `bit_string_spec`) and says whether the
    /// string is done.
    #[verifier::spinoff_prover]
    pub fn step_bit_string(&mut self, bus: &mut Bus, op: Op) -> (done: bool)
        requires
            old(bus).wf(),
        ensures
            final(bus).wf(),
            (*final(self), final(bus)@, done) == old(self).bit_string_spec(old(bus)@, op),
    {
        self.normalise_source();
        self.normalise_destination();
        let ghost c = *self;

        let mut length = self.reg(LENGTH);
        if length == 0 {
            return true;
        }

        let mut src_word = self.reg(SRC_WORD);
        let mut src_offset = self.reg(SRC_OFFSET);
        let dst_word = self.reg(DST_WORD);
        let mut dst_offset = self.reg(DST_OFFSET);
        let mut source = bus.read_u32(src_word);
        let mut destination = bus.read_u32(dst_word);
        let ghost src_offset0 = src_offset;
        let ghost src_word0 = src_word;
        let ghost dst_offset0 = dst_offset;
        let ghost length0 = length;
        let ghost d0 = destination;
        let ghost aligned = aligned_source(
            bus@.read_u32(src_word0),
            bus@.read_u32(src_word0.wrapping_add(4)),
            src_offset0,
            dst_offset0,
        );
        let ghost combined = combine_word(op, aligned, d0);
        proof {
            lemma_splice_empty(d0, combined, dst_offset0);
        }

        while dst_offset < 32 && length > 0
            invariant
                bus.wf(),
                bus@ == old(bus)@,
                src_offset0 < 32,
                dst_offset0 <= dst_offset <= 32,
                length0 == length + (dst_offset - dst_offset0),
                src_offset == (src_offset0 + (dst_offset - dst_offset0)) % 32,
                src_word == if src_offset0 + (dst_offset - dst_offset0) >= 32 {
                    src_word0.wrapping_add(4)
                } else {
                    src_word0
                },
                source == bus@.read_u32(src_word),
                d0 == bus@.read_u32(dst_word),
                aligned == aligned_source(
                    bus@.read_u32(src_word0),
                    bus@.read_u32(src_word0.wrapping_add(4)),
                    src_offset0,
                    dst_offset0,
                ),
                combined == combine_word(op, aligned, d0),
                destination == splice(d0, combined, dst_offset0, (dst_offset - dst_offset0) as u32),
            decreases length,
        {
            let ghost i = (dst_offset - dst_offset0) as u32;
            proof {
                lemma_splice_step(d0, combined, dst_offset0, i);
                lemma_combine_bit(op, aligned, d0, dst_offset);
                lemma_aligned_bit(
                    bus@.read_u32(src_word0),
                    bus@.read_u32(src_word0.wrapping_add(4)),
                    src_offset0,
                    dst_offset0,
                    i,
                );
            }
            let src_bit = (source >> src_offset) & 1u32;
            let dst_bit = (destination >> dst_offset) & 1u32;
            let result = combine(op, src_bit, dst_bit) & 1u32;
            destination = (destination & !(1u32 << dst_offset)) | (result << dst_offset);

            src_offset = src_offset + 1;
            if src_offset == 32 {
                src_offset = 0;
                src_word = src_word.wrapping_add(4);
                source = bus.read_u32(src_word);
            }
            dst_offset = dst_offset + 1;
            length = length - 1;
        }

        bus.write_u32(dst_word, destination);
        if dst_offset == 32 {
            dst_offset = 0;
            self.set_reg(DST_WORD, dst_word.wrapping_add(4));
        } else {
            self.set_reg(DST_WORD, dst_word);
        }
        self.set_reg(SRC_WORD, src_word);
        self.set_reg(SRC_OFFSET, src_offset);
        self.set_reg(DST_OFFSET, dst_offset);
        self.set_reg(LENGTH, length);
        length == 0
    }
}

/// How many bits of `source`, from bit `offset` on, moving up or down, differ from `wanted`
/// before the first that matches; at most `budget`.
pub open spec fn misses(source: u32, offset: int, upward: bool, wanted: u32, budget: nat) -> nat
    decreases budget,
{
    if budget == 0 {
        0
    } else if (source >> (offset as u32)) & 1u32 == wanted {
        0
    } else {
        1 + misses(source, if upward { offset + 1 } else { offset - 1 }, upward, wanted, (budget - 1) as nat)
    }
}

/// Whether a search op looks upward (towards higher bits and addresses).
pub open spec fn searches_upward(op: Op) -> bool {
    op == Op::Sch0bsu || op == Op::Sch1bsu
}

/// The bit value a search op looks for.
pub open spec fn searched_bit(op: Op) -> u32 {
    if op == Op::Sch1bsu || op == Op::Sch1bsd { 1 } else { 0 }
}

/// A bit position one past the current word, moved into the next (or previous) word.
pub open spec fn wrap_position(word: u32, position: int) -> (u32, u32) {
    if position >= 32 {
        (word.wrapping_add(4), 0u32)
    } else if position < 0 {
        (word.wrapping_sub(4), 31u32)
    } else {
        (word, position as u32)
    }
}

impl Cpu {
    /// One pass of a bit search: it scans the current source word from the source offset, up or
    /// down, until it meets the wanted bit, runs out of length, or leaves the word. r29 counts
    /// the bits skipped, r27 and r30 move past the bits examined, r28 shrinks by them; zero is
    /// cleared when the bit was found. The result says whether the search is over.
    pub open spec fn bit_search_spec(self, bus: BusView, op: Op) -> (Cpu, bool) {
        let c = self.normalised_source().with_flag(PSW_Z, true);
        let length = c.reg_spec(LENGTH);
        if length == 0 {
            (c, true)
        } else {
            let upward = searches_upward(op);
            let word = c.reg_spec(SRC_WORD);
            let offset = c.reg_spec(SRC_OFFSET);
            let room: int = if upward { 32 - offset } else { offset + 1 };
            let budget: nat = if length < room { length as nat } else { room as nat };
            let m = misses(bus.read_u32(word), offset as int, upward, searched_bit(op), budget);
            let found = m < budget;
            let consumed: int = if found { m + 1int } else { budget as int };
            let (new_word, new_offset) = wrap_position(
                word,
                if upward { offset + consumed } else { offset - consumed },
            );
            let flagged = if found { c.with_flag(PSW_Z, false) } else { c };
            let after = flagged.with_reg(SRC_WORD, new_word).with_reg(SRC_OFFSET, new_offset).with_reg(
                DST_WORD,
                c.reg_spec(DST_WORD).wrapping_add(m as u32),
            ).with_reg(LENGTH, (length - consumed) as u32);
            (after, found || length == consumed)
        }
    }

    // one source word per call, same re-entry rule
    /// Runs one pass of a bit search (see `bit_search_spec`) and says whether it is over.
    #[verifier::spinoff_prover]
    pub fn step_bit_search(&mut self, bus: &mut Bus, op: Op) -> (done: bool)
        requires
            old(bus).wf(),
        ensures
            *final(bus) == *old(bus),
            (*final(self), done) == old(self).bit_search_spec(old(bus)@, op),
    {
        self.normalise_source();

        let upward = match op {
            Op::Sch0bsu | Op::Sch1bsu => true,
            _ => false,
        };
        let wanted: u32 = match op {
            Op::Sch1bsu | Op::Sch1bsd => 1,
            _ => 0,
        };

        self.set_flag(PSW_Z, true);
        let ghost c = *self;

        let mut length = self.reg(LENGTH);
        if length == 0 {
            return true;
        }

        let mut word = self.reg(SRC_WORD);
        let mut offset = self.reg(SRC_OFFSET);
        let mut skipped = self.reg(DST_WORD);
        let source = bus.read_u32(word);

        let ghost word0 = word;
        let ghost offset0 = offset as int;
        let ghost length0 = length;
        let ghost skipped0 = skipped;
        let ghost room: int = if upward { 32 - offset0 } else { offset0 + 1 };
        let ghost budget: nat = if length0 < room { length0 as nat } else { room as nat };
        let ghost total = misses(source, offset0, upward, wanted, budget);
        let ghost mut consumed: int = 0;

        let mut found = false;
        let mut boundary = false;
        while length > 0 && !found && !boundary
            invariant
                0 <= offset0 < 32,
                length0 > 0,
                room == if upward { 32 - offset0 } else { offset0 + 1 },
                budget == if length0 < room { length0 as nat } else { room as nat },
                0 <= consumed <= budget,
                budget <= length0,
                budget <= room,
                length == length0 - consumed,
                found ==> total == consumed - 1,
                !found ==> total == consumed + misses(
                    source,
                    if upward { offset0 + consumed } else { offset0 - consumed },
                    upward,
                    wanted,
                    (budget - consumed) as nat,
                ),
                skipped == skipped0.wrapping_add((if found { consumed - 1 } else { consumed }) as u32),
                boundary ==> !found && consumed == room,
                !boundary && !found ==> consumed < room,
                (word, offset) == wrap_position(word0, if upward { offset0 + consumed } else { offset0 - consumed }),
            decreases length,
        {
            assert(consumed < budget);
            let ghost position: int = if upward { offset0 + consumed } else { offset0 - consumed };
            assert(0 <= position < 32);
            assert(offset == position);
            let bit = (source >> offset) & 1u32;
            assert(misses(source, position, upward, wanted, (budget - consumed) as nat) == if bit == wanted {
                0
            } else {
                1 + misses(
                    source,
                    if upward { position + 1 } else { position - 1 },
                    upward,
                    wanted,
                    (budget - consumed - 1) as nat,
                )
            });
            length = length - 1;
            if bit == wanted {
                found = true;
            } else {
                skipped = skipped.wrapping_add(1);
            }
            if upward {
                offset = offset + 1;
                if offset == 32 {
                    offset = 0;
                    word = word.wrapping_add(4);
                }
            } else if offset == 0 {
                offset = 31;
                word = word.wrapping_sub(4);
            } else {
                offset = offset - 1;
            }
            proof {
                consumed = consumed + 1;
            }
            // stop at a word boundary so interrupts can land between reads
            if !found && ((upward && offset == 0) || (!upward && offset == 31)) {
                boundary = true;
            }
        }

        if found {
            self.set_flag(PSW_Z, false);
        }
        self.set_reg(SRC_WORD, word);
        self.set_reg(SRC_OFFSET, offset);
        self.set_reg(DST_WORD, skipped);
        self.set_reg(LENGTH, length);
        found || length == 0
    }
}

/// A bit-string pass touches only r26..r30 and the destination word: pc, the psw and the cycle
/// count stay put, so the instruction is re-entered until it is done.
pub proof fn lemma_bit_string_keeps_pc(c: Cpu, b: BusView, op: Op)
    ensures
        c.bit_string_spec(b, op).0.pc == c.pc,
        c.bit_string_spec(b, op).0.psw == c.psw,
        c.bit_string_spec(b, op).0.cycles == c.cycles,
        c.bit_search_spec(b, op).0.pc == c.pc,
        c.bit_search_spec(b, op).0.cycles == c.cycles,
{
}

/// Every pass with length left shortens it by at least one bit, so a string always finishes;
/// a pass that is not the last uses up the rest of its destination word.
pub proof fn lemma_bit_string_progress(c: Cpu, b: BusView, op: Op)
    requires
        c.normalised_source().normalised_destination().reg_spec(LENGTH) > 0,
    ensures
        c.bit_string_spec(b, op).0.reg_spec(LENGTH) < c.normalised_source().normalised_destination().reg_spec(
            LENGTH,
        ),
        !c.bit_string_spec(b, op).2 ==> c.bit_string_spec(b, op).0.reg_spec(DST_OFFSET) == 0,
{
    let c1 = c.normalised_source();
    lemma_low_five(c1.with_reg(DST_WORD, c1.reg_spec(DST_WORD) & !3u32).reg_spec(DST_OFFSET));
    lemma_low_five(c.with_reg(SRC_WORD, c.reg_spec(SRC_WORD) & !3u32).reg_spec(SRC_OFFSET));
}

/// Every search pass with length left shortens it by at least one bit.
pub proof fn lemma_bit_search_progress(c: Cpu, b: BusView, op: Op)
    requires
        c.normalised_source().reg_spec(LENGTH) > 0,
    ensures
        c.bit_search_spec(b, op).0.reg_spec(LENGTH) < c.normalised_source().reg_spec(LENGTH),
{
    lemma_low_five(c.with_reg(SRC_WORD, c.reg_spec(SRC_WORD) & !3u32).reg_spec(SRC_OFFSET));
    let length = c.normalised_source().reg_spec(LENGTH);
    let upward = searches_upward(op);
    let word = c.normalised_source().reg_spec(SRC_WORD);
    let offset = c.normalised_source().reg_spec(SRC_OFFSET);
    let room: int = if upward { 32 - offset } else { offset + 1 };
    let budget: nat = if length < room { length as nat } else { room as nat };
    lemma_misses_bound(b.read_u32(word), offset as int, upward, searched_bit(op), budget);
}

proof fn lemma_misses_bound(source: u32, offset: int, upward: bool, wanted: u32, budget: nat)
    ensures
        misses(source, offset, upward, wanted, budget) <= budget,
    decreases budget,
{
    if budget > 0 {
        lemma_misses_bound(source, if upward { offset + 1 } else { offset - 1 }, upward, wanted, (budget - 1) as nat);
    }
}

/// Whether bit `k` of `x` is set.
pub open spec fn bit_set(x: u32, k: u32) -> bool {
    (x >> k) & 1u32 == 1u32
}

/// What each bit-string operation makes of one source bit `s` and one destination bit `d`, as
/// a truth table: or, and, xor and move, and the same four with the source bit inverted.
pub open spec fn string_op_holds(op: Op, s: bool, d: bool) -> bool {
    match op {
        Op::Orbsu => d || s,
        Op::Andbsu => d && s,
        Op::Xorbsu => d != s,
        Op::Movbsu => s,
        Op::Ornbsu => d || !s,
        Op::Andnbsu => d && !s,
        Op::Xornbsu => d == s,
        _ => !s,
    }
}

proof fn lemma_word_op_bits(s: u32, d: u32, k: u32)
    by (bit_vector)
    requires
        k < 32,
    ensures
        (((d | s) >> k) & 1u32 == 1u32) == (((d >> k) & 1u32 == 1u32) || ((s >> k) & 1u32 == 1u32)),
        (((d & s) >> k) & 1u32 == 1u32) == (((d >> k) & 1u32 == 1u32) && ((s >> k) & 1u32 == 1u32)),
        (((d ^ s) >> k) & 1u32 == 1u32) == (((d >> k) & 1u32 == 1u32) != ((s >> k) & 1u32 == 1u32)),
        (((d | !s) >> k) & 1u32 == 1u32) == (((d >> k) & 1u32 == 1u32) || !((s >> k) & 1u32 == 1u32)),
        (((d & !s) >> k) & 1u32 == 1u32) == (((d >> k) & 1u32 == 1u32) && !((s >> k) & 1u32 == 1u32)),
        (((d ^ !s) >> k) & 1u32 == 1u32) == (((d >> k) & 1u32 == 1u32) == ((s >> k) & 1u32 == 1u32)),
        (((!s) >> k) & 1u32 == 1u32) == !((s >> k) & 1u32 == 1u32),
{
}

/// Bit `k` of a splice comes from `x` inside the field and from `dst` outside it.
proof fn lemma_splice_bit(dst: u32, x: u32, lo: u32, n: u32, k: u32)
    by (bit_vector)
    requires
        lo + n <= 32,
        k < 32,
    ensures
        (splice(dst, x, lo, n) >> k) & 1u32 == if lo <= k && k < lo + n {
            (x >> k) & 1u32
        } else {
            (dst >> k) & 1u32
        },
{
}

/// A bit-string operation works bit by bit: every bit of the result is the operation's truth
/// table applied to the source and destination bits at the same position.
pub proof fn lemma_combine_truth_table(op: Op, src: u32, dst: u32, k: u32)
    requires
        k < 32,
    ensures
        bit_set(combine_word(op, src, dst), k) == string_op_holds(op, bit_set(src, k), bit_set(dst, k)),
{
    lemma_word_op_bits(src, dst, k);
}

/// The "n" forms are the plain forms on the inverted source, and notbsu is movbsu of it.
pub proof fn lemma_inverted_forms(src: u32, dst: u32)
    ensures
        combine_word(Op::Ornbsu, src, dst) == combine_word(Op::Orbsu, !src, dst),
        combine_word(Op::Andnbsu, src, dst) == combine_word(Op::Andbsu, !src, dst),
        combine_word(Op::Xornbsu, src, dst) == combine_word(Op::Xorbsu, !src, dst),
        combine_word(Op::Notbsu, src, dst) == combine_word(Op::Movbsu, !src, dst),
{
}

/// One pass of a bit-string operation writes the destination word once: inside the field it
/// fills (from the destination offset, as many bits as the length and the word allow) each bit
/// is the operation applied to the lined-up source bit (read on from the next source word
/// past bit 31) and the old destination bit; every other bit keeps its old value.
pub proof fn lemma_bit_string_pass_bits(c: Cpu, b: BusView, op: Op, k: u32)
    requires
        k < 32,
        c.normalised_source().normalised_destination().reg_spec(LENGTH) > 0,
    ensures
        ({
            let n = c.normalised_source().normalised_destination();
            let dst_word = n.reg_spec(DST_WORD);
            let lo = n.reg_spec(DST_OFFSET);
            let src_word = n.reg_spec(SRC_WORD);
            let j = n.reg_spec(SRC_OFFSET) + k - lo;
            let count = if n.reg_spec(LENGTH) < 32 - lo { n.reg_spec(LENGTH) as int } else { 32 - lo };
            let old_bit = bit_set(b.read_u32(dst_word), k);
            let src_bit = if j < 32 {
                bit_set(b.read_u32(src_word), j as u32)
            } else {
                bit_set(b.read_u32(src_word.wrapping_add(4)), (j - 32) as u32)
            };
            exists|w: u32|
                #![trigger b.write_u32(dst_word, w)]
                b.write_u32(dst_word, w) == c.bit_string_spec(b, op).1 && bit_set(w, k) == if lo <= k < lo + count {
                    string_op_holds(op, src_bit, old_bit)
                } else {
                    old_bit
                }
        }),
{
    let c1 = c.normalised_source();
    lemma_low_five(c1.with_reg(DST_WORD, c1.reg_spec(DST_WORD) & !3u32).reg_spec(DST_OFFSET));
    lemma_low_five(c.with_reg(SRC_WORD, c.reg_spec(SRC_WORD) & !3u32).reg_spec(SRC_OFFSET));
    let n = c.normalised_source().normalised_destination();
    let dst_word = n.reg_spec(DST_WORD);
    let lo = n.reg_spec(DST_OFFSET);
    let src_word = n.reg_spec(SRC_WORD);
    let src_offset = n.reg_spec(SRC_OFFSET);
    let length = n.reg_spec(LENGTH);
    let count: u32 = if length < 32 - lo { length } else { (32 - lo) as u32 };
    let w0 = b.read_u32(src_word);
    let w1 = b.read_u32(src_word.wrapping_add(4));
    let source = aligned_source(w0, w1, src_offset, lo);
    let destination = b.read_u32(dst_word);
    let written = splice(destination, combine_word(op, source, destination), lo, count);
    lemma_splice_bit(destination, combine_word(op, source, destination), lo, count, k);
    if lo <= k && k < lo + count {
        lemma_aligned_bit(w0, w1, src_offset, lo, (k - lo) as u32);
        lemma_combine_truth_table(op, source, destination, k);
    }
    assert(b.write_u32(dst_word, written) == c.bit_string_spec(b, op).1);
}

} // verus!
