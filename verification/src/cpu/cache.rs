use vstd::prelude::*;
use crate::bus::{
    Bus, BusView, lemma_addresses_wrap, Region, bus_addr, lemma_wram_access, lemma_word_bytes, lemma_wram_word_read,
    lemma_wram_word_write, region_spec,
};
use crate::cpu::state::{Cpu, SR_CHCW};

verus! {

pub const ENTRIES: u32 = 128;
pub const BLOCK_LEN: u32 = 8;
pub const TAG_LEN: u32 = 4;
pub const SPILL_LEN: u32 = 1536;

pub const CHCW_ICC: u32 = 0x01;
pub const CHCW_ICE: u32 = 0x02;
pub const CHCW_ICD: u32 = 0x10;
pub const CHCW_ICR: u32 = 0x20;

pub const TAG_VALID: u32 = 0x0040_0000;
pub const TAG_MASK: u32 = 0x003F_FFFF;

pub const CEN_SHIFT: u32 = 20;
pub const CEC_SHIFT: u32 = 8;
pub const CLEAR_FIELD: u32 = 0xFFF;

// sa shares bits with cen, so an address wider than the bus reads back as cen >= 128,
// which the v810 manual says performs no dump or restore
pub const SPILL_LIMIT: u32 = 0x0800_0000;

/// The cache entry an address maps to: bits 9 through 3.
pub open spec fn index_spec(addr: u32) -> int {
    ((addr / 8) % 128) as int
}

/// The tag an address is cached under: bits 31 through 10.
pub open spec fn tag_spec(addr: u32) -> u32 {
    addr / 1024
}

pub fn index_of(addr: u32) -> (r: usize)
    ensures
        r == index_spec(addr),
        r < 128,
{
    ((addr / 8) % 128) as usize
}

pub fn tag_of(addr: u32) -> (r: u32)
    ensures
        r == tag_spec(addr),
{
    addr / 1024
}

/// The instruction cache: 128 entries of one eight-byte block and one tag word each.
#[derive(Debug, Clone, PartialEq, Eq)]
pub struct Cache {
    blocks: [u8; 1024],
    tags: [u32; 128],
}

/// The cache's contents: the blocks laid end to end, and the tag words.
pub ghost struct CacheView {
    pub blocks: Seq<u8>,
    pub tags: Seq<u32>,
}

impl View for Cache {
    type V = CacheView;

    closed spec fn view(&self) -> CacheView {
        CacheView { blocks: self.blocks@, tags: self.tags@ }
    }
}

impl CacheView {
    /// Whether an entry holds a valid copy of the block that contains `addr`. A restored tag may
    /// carry reserved bits, so the valid bit and the tag field are compared separately.
    pub open spec fn contains(self, addr: u32) -> bool {
        let entry = self.tags[index_spec(addr)];
        entry & TAG_VALID != 0 && entry & TAG_MASK == tag_spec(addr)
    }
}

/// The block bytes written to memory from `spill` on, the first `n` of them.
pub open spec fn dump_blocks(b: BusView, blocks: Seq<u8>, spill: u32, n: nat) -> BusView
    decreases n,
{
    if n == 0 {
        b
    } else {
        dump_blocks(b, blocks, spill, (n - 1) as nat).write_u8(spill.wrapping_add((n - 1) as u32), blocks[n - 1])
    }
}

/// The tag words written to memory from `at` on, the first `n` of them.
pub open spec fn dump_tags(b: BusView, tags: Seq<u32>, at: u32, n: nat) -> BusView
    decreases n,
{
    if n == 0 {
        b
    } else {
        dump_tags(b, tags, at, (n - 1) as nat).write_u32(at.wrapping_add((4 * (n - 1)) as u32), tags[n - 1])
    }
}

/// A cache read back from memory at `spill`: 1024 block bytes, then 128 tag words.
pub open spec fn restored(b: BusView, spill: u32) -> CacheView {
    CacheView {
        blocks: Seq::new(1024, |i: int| b.read_u8(spill.wrapping_add(i as u32))),
        tags: Seq::new(128, |j: int| b.read_u32(spill.wrapping_add(1024).wrapping_add((4 * j) as u32))),
    }
}

impl CacheView {
    /// Memory after the cache is written to it at `spill`: the blocks, then the tags.
    pub open spec fn dump_spec(self, b: BusView, spill: u32) -> BusView {
        dump_tags(dump_blocks(b, self.blocks, spill, 1024), self.tags, spill.wrapping_add(1024), 128)
    }

    /// The cache after `clear(first, count)`: the valid bit goes, everything else stays.
    pub open spec fn cleared(self, first: u32, count: u32) -> CacheView {
        CacheView {
            blocks: self.blocks,
            tags: Seq::new(
                128,
                |i: int|
                    if first <= i < clear_end(first, count) {
                        self.tags[i] & !TAG_VALID
                    } else {
                        self.tags[i]
                    },
            ),
        }
    }
}

/// The index range `clear(first, count)` invalidates: from `first` for `count` entries, never past
/// the last entry.
pub open spec fn clear_end(first: u32, count: u32) -> int {
    let n = if count < 128 { count as int } else { 128 };
    if first + n < 128 { first + n } else { 128 }
}

impl Cache {
    /// The blocks and tags always cover the 128 entries.
    pub proof fn lemma_lengths(&self)
        ensures
            self@.blocks.len() == 1024,
            self@.tags.len() == 128,
    {
    }

    /// A cache that holds nothing: every byte and tag zero.
    pub open spec fn is_empty(&self) -> bool {
        &&& forall|i: int| 0 <= i < 1024 ==> self@.blocks[i] == 0
        &&& forall|i: int| 0 <= i < 128 ==> self@.tags[i] == 0
    }

    /// An empty cache.
    pub fn new() -> (r: Self)
        ensures
            r.is_empty(),
    {
        Cache { blocks: [0u8; 1024], tags: [0u32; 128] }
    }

    /// The tag word of entry `index` (modulo 128).
    pub fn tag(&self, index: u32) -> (r: u32)
        ensures
            r == self@.tags[(index % 128) as int],
    {
        self.tags[(index % ENTRIES) as usize]
    }

    /// The block of entry `index` (modulo 128).
    pub fn block(&self, index: u32) -> (r: [u8; 8])
        ensures
            r@ == self@.blocks.subrange(8 * (index % 128) as int, 8 * (index % 128) + 8),
    {
        let base = (index % ENTRIES) as usize * 8;
        let mut out = [0u8; 8];
        let mut i: usize = 0;
        while i < 8
            invariant
                i <= 8,
                base == 8 * (index % 128),
                forall|j: int| 0 <= j < i ==> out@[j] == self.blocks@[base + j],
            decreases 8 - i,
        {
            out[i] = self.blocks[base + i];
            i = i + 1;
        }
        assert(out@ =~= self@.blocks.subrange(base as int, base + 8));
        out
    }

    // a restored tag may carry nec reserved bits, so compare the two fields separately
    /// Whether the cache holds a valid copy of the block that contains `addr`.
    pub fn contains(&self, addr: u32) -> (r: bool)
        ensures
            r == self@.contains(addr),
    {
        let entry = self.tags[index_of(addr)];
        entry & TAG_VALID != 0 && entry & TAG_MASK == tag_of(addr)
    }

    // blocks are modelled so a dump produces real data, but memory stays the authority
    // for what executes: a stale entry must never feed the cpu
    /// Loads the block that contains `addr` from memory, unless it is cached already or the
    /// address is a device.
    pub fn fill(&mut self, bus: &Bus, addr: u32)
        requires
            bus.wf(),
        ensures
            if !region_spec(addr).is_memory_spec() || old(self)@.contains(addr) {
                final(self)@ == old(self)@
            } else {
                let index = index_spec(addr);
                let base = (addr - addr % 8) as u32;
                &&& final(self)@.tags == old(self)@.tags.update(index, TAG_VALID | tag_spec(addr))
                &&& final(self)@.blocks.len() == 1024
                &&& forall|i: int| #![trigger final(self)@.blocks[i]] 0 <= i < 1024 ==> final(self)@.blocks[i] == if 8 * index
                    <= i < 8 * index + 8 {
                    bus@.read_u8((base + (i - 8 * index)) as u32)
                } else {
                    old(self)@.blocks[i]
                }
            },
    {
        if !Region::of(addr).is_memory() || self.contains(addr) {
            return;
        }

        let index = index_of(addr);
        let base = addr - addr % BLOCK_LEN;
        let ghost before = self.blocks@;
        let mut offset: u32 = 0;
        while offset < BLOCK_LEN
            invariant
                offset <= 8,
                index < 128,
                base == addr - addr % 8,
                bus.wf(),
                self.blocks@.len() == 1024,
                self.tags@ == old(self).tags@,
                forall|i: int| #![trigger self.blocks@[i]] 0 <= i < 1024 ==> self.blocks@[i] == if 8 * index <= i < 8 * index + offset {
                    bus@.read_u8((base + (i - 8 * index)) as u32)
                } else {
                    before[i]
                },
            decreases 8 - offset,
        {
            self.blocks[index * 8 + offset as usize] = bus.read_u8(base + offset);
            offset = offset + 1;
        }
        self.tags[index] = TAG_VALID | tag_of(addr);
    }

    // clear only resets the valid bit, block and tag memory keep their contents
    /// Invalidates `count` entries from `first`; blocks and tag fields keep their contents.
    pub fn clear(&mut self, first: u32, count: u32)
        ensures
            final(self)@ == old(self)@.cleared(first, count),
            final(self)@.blocks == old(self)@.blocks,
            final(self)@.tags.len() == 128,
            forall|i: int| #![trigger final(self)@.tags[i]] 0 <= i < 128 ==> final(self)@.tags[i] == if first <= i < clear_end(first, count) {
                old(self)@.tags[i] & !TAG_VALID
            } else {
                old(self)@.tags[i]
            },
    {
        let n = if count < ENTRIES { count } else { ENTRIES };
        let last = first.saturating_add(n);
        let last = if last < ENTRIES { last } else { ENTRIES };
        let ghost before = self.tags@;
        let mut index = first;
        while index < last
            invariant
                first <= index,
                index <= last || index == first,
                before == old(self).tags@,
                last <= 128,
                last == clear_end(first, count) || (last <= first && clear_end(first, count) <= first),
                self.tags@.len() == 128,
                self.blocks@ == old(self).blocks@,
                forall|i: int| #![trigger self.tags@[i]] 0 <= i < 128 ==> self.tags@[i] == if first <= i < index {
                    before[i] & !TAG_VALID
                } else {
                    before[i]
                },
            decreases last - index,
        {
            let cleared = self.tags[index as usize] & !TAG_VALID;
            self.tags[index as usize] = cleared;
            index = index + 1;
        }
        assert(self@.tags =~= old(self)@.cleared(first, count).tags);
    }

    /// Writes the cache to memory at `spill`: the 1024 block bytes, then the 128 tag words.
    pub fn dump(&self, bus: &mut Bus, spill: u32)
        requires
            old(bus).wf(),
        ensures
            final(bus).wf(),
            final(bus)@ == self@.dump_spec(old(bus)@, spill),
    {
        let mut index: u32 = 0;
        while index < ENTRIES
            invariant
                index <= 128,
                bus.wf(),
                bus@ == dump_blocks(old(bus)@, self@.blocks, spill, (index * 8) as nat),
            decreases 128 - index,
        {
            let base = spill.wrapping_add(index * BLOCK_LEN);
            let mut offset: u32 = 0;
            while offset < BLOCK_LEN
                invariant
                    index < 128,
                    offset <= 8,
                    base == spill.wrapping_add((index * 8) as u32),
                    bus.wf(),
                    bus@ == dump_blocks(old(bus)@, self@.blocks, spill, (index * 8 + offset) as nat),
                decreases 8 - offset,
            {
                let byte = self.blocks[(index * BLOCK_LEN + offset) as usize];
                assert(base.wrapping_add(offset) == spill.wrapping_add((index * 8 + offset) as u32));
                bus.write_u8(base.wrapping_add(offset), byte);
                offset = offset + 1;
            }
            index = index + 1;
        }

        let tags = spill.wrapping_add(ENTRIES * BLOCK_LEN);
        let mut index: u32 = 0;
        while index < ENTRIES
            invariant
                index <= 128,
                tags == spill.wrapping_add(1024),
                bus.wf(),
                bus@ == dump_tags(dump_blocks(old(bus)@, self@.blocks, spill, 1024), self@.tags, tags, index as nat),
            decreases 128 - index,
        {
            bus.write_u32(tags.wrapping_add(index * TAG_LEN), self.tags[index as usize]);
            index = index + 1;
        }
    }

    /// Reads the cache back from memory at `spill`, laid out as `dump` writes it.
    pub fn restore(&mut self, bus: &Bus, spill: u32)
        requires
            bus.wf(),
        ensures
            final(self)@ == restored(bus@, spill),
    {
        let mut index: u32 = 0;
        while index < ENTRIES
            invariant
                index <= 128,
                bus.wf(),
                self@.tags.len() == 128,
                self@.blocks.len() == 1024,
                forall|i: int| 0 <= i < index * 8 ==> #[trigger] self@.blocks[i] == bus@.read_u8(spill.wrapping_add(i as u32)),
            decreases 128 - index,
        {
            let base = spill.wrapping_add(index * BLOCK_LEN);
            let mut offset: u32 = 0;
            while offset < BLOCK_LEN
                invariant
                    index < 128,
                    offset <= 8,
                    base == spill.wrapping_add((index * 8) as u32),
                    bus.wf(),
                    self@.tags.len() == 128,
                    self@.blocks.len() == 1024,
                    forall|i: int| 0 <= i < index * 8 + offset ==> #[trigger] self@.blocks[i] == bus@.read_u8(spill.wrapping_add(i as u32)),
                decreases 8 - offset,
            {
                assert(base.wrapping_add(offset) == spill.wrapping_add((index * 8 + offset) as u32));
                self.blocks[(index * BLOCK_LEN + offset) as usize] = bus.read_u8(base.wrapping_add(offset));
                offset = offset + 1;
            }
            index = index + 1;
        }

        let tags = spill.wrapping_add(ENTRIES * BLOCK_LEN);
        let mut index: u32 = 0;
        while index < ENTRIES
            invariant
                index <= 128,
                tags == spill.wrapping_add(1024),
                bus.wf(),
                self@.tags.len() == 128,
                self@.blocks.len() == 1024,
                forall|i: int| 0 <= i < 1024 ==> #[trigger] self@.blocks[i] == bus@.read_u8(spill.wrapping_add(i as u32)),
                forall|j: int| 0 <= j < index ==> #[trigger] self@.tags[j] == bus@.read_u32(tags.wrapping_add((4 * j) as u32)),
            decreases 128 - index,
        {
            self.tags[index as usize] = bus.read_u32(tags.wrapping_add(index * TAG_LEN));
            index = index + 1;
        }
        assert(self@.blocks =~= restored(bus@, spill).blocks);
        assert(self@.tags =~= restored(bus@, spill).tags);
    }
}

/// The memory address a dump or restore request in a chcw write names.
pub open spec fn spill_address(value: u32) -> u32 {
    value & !0xFFu32
}

/// The cache after a chcw write: a clear request (which wins over the others) invalidates the
/// entries it names; otherwise a restore request reloads the cache from memory, provided the
/// address fits the bus.
pub open spec fn cache_after_control(c: CacheView, b: BusView, value: u32) -> CacheView {
    if value & CHCW_ICC != 0 {
        c.cleared((value >> 20u32) & 0xFFFu32, (value >> 8u32) & 0xFFFu32)
    } else if spill_address(value) >= SPILL_LIMIT || value & CHCW_ICD != 0 {
        c
    } else if value & CHCW_ICR != 0 {
        restored(b, spill_address(value))
    } else {
        c
    }
}

/// Memory after a chcw write: only a dump request, with no clear and an address that fits the
/// bus, writes the cache out.
pub open spec fn memory_after_control(c: CacheView, b: BusView, value: u32) -> BusView {
    if value & CHCW_ICC == 0 && spill_address(value) < SPILL_LIMIT && value & CHCW_ICD != 0 {
        c.dump_spec(b, spill_address(value))
    } else {
        b
    }
}

impl Cpu {
    // dump and restore run to completion inside the ldsr, which is how the hardware
    // postpones interrupts until they finish. requesting more than one operation at
    // once is undefined, so clear wins, then dump, then restore
    /// A write to chcw: keeps the enable bit, then carries out the clear, dump or restore it
    /// requests.
    pub fn cache_control(&mut self, bus: &mut Bus, value: u32)
        requires
            old(bus).wf(),
        ensures
            final(bus).wf(),
            *final(self) == (Cpu { cache: final(self).cache, ..old(self).write_system_register_spec(SR_CHCW, value) }),
            final(self).cache@ == cache_after_control(old(self).cache@, old(bus)@, value),
            final(bus)@ == memory_after_control(old(self).cache@, old(bus)@, value),
    {
        self.write_system_register(SR_CHCW, value);

        if value & CHCW_ICC != 0 {
            let first = (value >> CEN_SHIFT) & CLEAR_FIELD;
            let count = (value >> CEC_SHIFT) & CLEAR_FIELD;
            self.cache.clear(first, count);
            return;
        }

        let spill = value & !0xFFu32;
        if spill >= SPILL_LIMIT {
            return;
        }

        if value & CHCW_ICD != 0 {
            self.cache.dump(bus, spill);
        } else if value & CHCW_ICR != 0 {
            self.cache.restore(bus, spill);
        }
    }

    /// Whether the instruction cache is enabled.
    pub fn cache_enabled(&self) -> (r: bool)
        ensures
            r == (self.chcw & CHCW_ICE != 0),
    {
        self.chcw & CHCW_ICE != 0
    }
}

/// Byte `j` of a word, low byte first.
spec fn word_byte(w: u32, j: int) -> u8 {
    if j == 0 {
        (w % 256) as u8
    } else if j == 1 {
        ((w / 256) % 256) as u8
    } else if j == 2 {
        ((w / 65536) % 256) as u8
    } else {
        (w / 16777216) as u8
    }
}

/// Where work ram index `k` lies relative to the work ram index of address `base`.
spec fn rel(base: u32, k: int) -> int {
    (k - base as int % 0x10000 + 0x10000) % 0x10000
}

/// A spill area that lies inside work ram, word-aligned, and within one region (the upper
/// address bits, which the bus ignores, may be anything).
pub open spec fn spill_in_wram(spill: u32) -> bool {
    &&& region_spec(spill) == Region::Wram
    &&& spill % 4 == 0
    &&& spill % 0x0100_0000 + SPILL_LEN <= 0x0100_0000
}

/// A spill area in work ram given by its bus address, the upper bits dropped.
spec fn spill_in_bus_wram(spill: u32) -> bool {
    &&& spill_in_wram(spill)
    &&& bus_addr(spill) == spill
}

/// An address `i` bytes into a spill area is work ram, at work ram index `rel == i`.
proof fn lemma_spill_address(spill: u32, i: int)
    requires
        spill_in_bus_wram(spill),
        0 <= i < SPILL_LEN,
    ensures
        spill.wrapping_add(i as u32) == spill + i,
        region_spec((spill + i) as u32) == Region::Wram,
        bus_addr((spill + i) as u32) == spill + i,
        rel(spill, (spill + i) % 0x10000) == i,
        (spill + i) % 0x10000 == (spill % 0x10000 + i) % 0x10000,
{
}

/// The first `n` block bytes of a dump land at work ram indices `rel == 0 .. n`.
#[verifier::spinoff_prover]
proof fn lemma_dump_blocks_wram(b: BusView, blocks: Seq<u8>, spill: u32, n: nat)
    requires
        spill_in_bus_wram(spill),
        b.wram.len() == 0x10000,
        n <= 1024,
    ensures
        dump_blocks(b, blocks, spill, n) == (BusView {
            wram: Seq::new(
                0x10000,
                |k: int|
                    if rel(spill, k) < n {
                        blocks[rel(spill, k)]
                    } else {
                        b.wram[k]
                    },
            ),
            ..b
        }),
    decreases n,
{
    if n == 0 {
        assert(b.wram =~= Seq::new(0x10000, |k: int| if rel(spill, k) < 0 { blocks[rel(spill, k)] } else { b.wram[k] }));
    } else {
        lemma_dump_blocks_wram(b, blocks, spill, (n - 1) as nat);
        let prev = dump_blocks(b, blocks, spill, (n - 1) as nat);
        lemma_spill_address(spill, n - 1);
        let x = (spill + (n - 1)) as u32;
        lemma_wram_access(prev, x, blocks[n - 1]);
        let k0 = x as int % 0x10000;
        assert forall|k: int| 0 <= k < 0x10000 && k != k0 implies rel(spill, k) != n - 1 by {
        }
        assert(prev.wram.update(k0, blocks[n - 1]) =~= Seq::new(
            0x10000,
            |k: int| if rel(spill, k) < n { blocks[rel(spill, k)] } else { b.wram[k] },
        ));
    }
}

/// The first `n` tag words of a dump land, low byte first, at work ram indices `rel == 0 .. 4n`
/// counted from the tag area.
#[verifier::spinoff_prover]
proof fn lemma_dump_tags_wram(b: BusView, tags: Seq<u32>, spill: u32, n: nat)
    requires
        spill_in_bus_wram(spill),
        b.wram.len() == 0x10000,
        n <= 128,
    ensures
        dump_tags(b, tags, spill.wrapping_add(1024), n) == (BusView {
            wram: Seq::new(
                0x10000,
                |k: int|
                    if 1024 <= rel(spill, k) < 1024 + 4 * n {
                        word_byte(tags[(rel(spill, k) - 1024) / 4], (rel(spill, k) - 1024) % 4)
                    } else {
                        b.wram[k]
                    },
            ),
            ..b
        }),
    decreases n,
{
    lemma_spill_address(spill, 1024);
    if n == 0 {
        assert(b.wram =~= Seq::new(
            0x10000,
            |k: int|
                if 1024 <= rel(spill, k) < 1024 + 4 * 0 {
                    word_byte(tags[(rel(spill, k) - 1024) / 4], (rel(spill, k) - 1024) % 4)
                } else {
                    b.wram[k]
                },
        ));
    } else {
        lemma_dump_tags_wram(b, tags, spill, (n - 1) as nat);
        let prev = dump_tags(b, tags, spill.wrapping_add(1024), (n - 1) as nat);
        let off = 1024 + 4 * (n - 1);
        lemma_spill_address(spill, off);
        let a = (spill + off) as u32;
        assert(spill.wrapping_add(1024).wrapping_add((4 * (n - 1)) as u32) == a);
        lemma_wram_word_write(prev, a, tags[n - 1]);
        let k0 = a as int % 0x10000;
        assert(k0 + 3 < 0x10000);
        assert forall|k: int| 0 <= k < 0x10000 implies (rel(spill, k) - off == k - k0 && k0 <= k < k0 + 4) || !(off
            <= rel(spill, k) < off + 4) by {
        }
        let w = tags[n - 1];
        assert(prev.wram.update(k0, (w % 256) as u8).update(k0 + 1, ((w / 256) % 256) as u8).update(
            k0 + 2,
            ((w / 65536) % 256) as u8,
        ).update(k0 + 3, (w / 16777216) as u8) =~= Seq::new(
            0x10000,
            |k: int|
                if 1024 <= rel(spill, k) < 1024 + 4 * n {
                    word_byte(tags[(rel(spill, k) - 1024) / 4], (rel(spill, k) - 1024) % 4)
                } else {
                    b.wram[k]
                },
        ));
    }
}

/// What a dump leaves at work ram index `k`: the blocks, then the tag words, from the spill
/// area on; everything else as it was.
spec fn spill_image(c: CacheView, old_wram: Seq<u8>, spill: u32, k: int) -> u8 {
    if rel(spill, k) < 1024 {
        c.blocks[rel(spill, k)]
    } else if rel(spill, k) < 1536 {
        word_byte(c.tags[(rel(spill, k) - 1024) / 4], (rel(spill, k) - 1024) % 4)
    } else {
        old_wram[k]
    }
}

proof fn lemma_dump_image(c: CacheView, b: BusView, spill: u32)
    requires
        b.valid(),
        spill_in_bus_wram(spill),
    ensures
        c.dump_spec(b, spill).wram == Seq::new(0x10000, |k: int| spill_image(c, b.wram, spill, k)),
{
    lemma_dump_blocks_wram(b, c.blocks, spill, 1024);
    let mid = dump_blocks(b, c.blocks, spill, 1024);
    lemma_dump_tags_wram(mid, c.tags, spill, 128);
    assert(c.dump_spec(b, spill).wram =~= Seq::new(0x10000, |k: int| spill_image(c, b.wram, spill, k)));
}

proof fn lemma_restored_blocks(c: CacheView, b: BusView, fin: BusView, spill: u32)
    requires
        spill_in_bus_wram(spill),
        fin.wram == Seq::new(0x10000, |k: int| spill_image(c, b.wram, spill, k)),
    ensures
        forall|i: int| 0 <= i < 1024 ==> #[trigger] fin.read_u8(spill.wrapping_add(i as u32)) == c.blocks[i],
{
    assert forall|i: int| 0 <= i < 1024 implies #[trigger] fin.read_u8(spill.wrapping_add(i as u32)) == c.blocks[i] by {
        lemma_spill_address(spill, i);
        lemma_wram_access(fin, (spill + i) as u32, 0);
    }
}

proof fn lemma_restored_tag(c: CacheView, b: BusView, fin: BusView, spill: u32, j: int)
    requires
        spill_in_bus_wram(spill),
        fin.wram == Seq::new(0x10000, |k: int| spill_image(c, b.wram, spill, k)),
        0 <= j < 128,
    ensures
        fin.read_u32(spill.wrapping_add(1024).wrapping_add((4 * j) as u32)) == c.tags[j],
{
    lemma_spill_address(spill, 1024);
    lemma_spill_address(spill, 1024 + 4 * j);
    let a = (spill + 1024 + 4 * j) as u32;
    assert(spill.wrapping_add(1024).wrapping_add((4 * j) as u32) == a);
    lemma_wram_word_read(fin, a);
    lemma_spill_address(spill, 1024 + 4 * j + 1);
    lemma_spill_address(spill, 1024 + 4 * j + 2);
    lemma_spill_address(spill, 1024 + 4 * j + 3);
    let k0 = a as int % 0x10000;
    assert(k0 + 3 < 0x10000);
    assert(rel(spill, k0) == 1024 + 4 * j);
    assert(rel(spill, k0 + 1) == 1024 + 4 * j + 1);
    assert(rel(spill, k0 + 2) == 1024 + 4 * j + 2);
    assert(rel(spill, k0 + 3) == 1024 + 4 * j + 3);
    assert(fin.wram[k0] == word_byte(c.tags[j], 0));
    assert(fin.wram[k0 + 1] == word_byte(c.tags[j], 1));
    assert(fin.wram[k0 + 2] == word_byte(c.tags[j], 2));
    assert(fin.wram[k0 + 3] == word_byte(c.tags[j], 3));
    lemma_word_bytes(c.tags[j]);
}

proof fn lemma_round_trip_at_bus_address(c: CacheView, b: BusView, spill: u32)
    requires
        b.valid(),
        c.blocks.len() == 1024,
        c.tags.len() == 128,
        spill_in_bus_wram(spill),
    ensures
        restored(c.dump_spec(b, spill), spill) == c,
{
    let fin = c.dump_spec(b, spill);
    lemma_dump_image(c, b, spill);
    lemma_restored_blocks(c, b, fin, spill);
    assert forall|j: int| 0 <= j < 128 implies #[trigger] fin.read_u32(
        spill.wrapping_add(1024).wrapping_add((4 * j) as u32),
    ) == c.tags[j] by {
        lemma_restored_tag(c, b, fin, spill, j);
    }
    assert(restored(fin, spill).blocks =~= c.blocks);
    assert(restored(fin, spill).tags =~= c.tags);
}

/// Bytes of a spill area do not wrap around the address space, and dropping the upper address
/// bits moves the whole area down together.
proof fn lemma_spill_offset(spill: u32, k: int)
    requires
        spill_in_wram(spill),
        0 <= k < SPILL_LEN,
    ensures
        spill.wrapping_add(k as u32) == spill + k,
        bus_addr(spill).wrapping_add(k as u32) == bus_addr(spill) + k,
        bus_addr((spill + k) as u32) == bus_addr(spill) + k,
        spill_in_bus_wram(bus_addr(spill)),
{
    assert(spill % 0x0100_0000 + k < 0x0100_0000);
    assert(spill + k < 0x1_0000_0000);
    assert(bus_addr(spill) + k < 0x0800_0000);
}

proof fn lemma_dump_blocks_drop_upper_bits(b: BusView, blocks: Seq<u8>, spill: u32, n: nat)
    requires
        spill_in_wram(spill),
        n <= 1024,
    ensures
        dump_blocks(b, blocks, spill, n) == dump_blocks(b, blocks, bus_addr(spill), n),
    decreases n,
{
    if n > 0 {
        lemma_dump_blocks_drop_upper_bits(b, blocks, spill, (n - 1) as nat);
        lemma_spill_offset(spill, n - 1);
        let prev = dump_blocks(b, blocks, spill, (n - 1) as nat);
        let v = blocks[n - 1];
        lemma_addresses_wrap(prev, spill.wrapping_add((n - 1) as u32), v as u32);
        assert((v as u32) as u8 == v);
    }
}

proof fn lemma_dump_tags_drop_upper_bits(b: BusView, tags: Seq<u32>, spill: u32, n: nat)
    requires
        spill_in_wram(spill),
        n <= 128,
    ensures
        dump_tags(b, tags, spill.wrapping_add(1024), n) == dump_tags(
            b,
            tags,
            bus_addr(spill).wrapping_add(1024),
            n,
        ),
    decreases n,
{
    lemma_spill_offset(spill, 1024);
    if n > 0 {
        lemma_dump_tags_drop_upper_bits(b, tags, spill, (n - 1) as nat);
        let k = 1024 + 4 * (n - 1);
        lemma_spill_offset(spill, k);
        let prev = dump_tags(b, tags, spill.wrapping_add(1024), (n - 1) as nat);
        assert(spill.wrapping_add(1024).wrapping_add((4 * (n - 1)) as u32) == spill + k);
        assert(bus_addr(spill).wrapping_add(1024).wrapping_add((4 * (n - 1)) as u32) == bus_addr(spill) + k);
        lemma_addresses_wrap(prev, (spill + k) as u32, tags[n - 1]);
    }
}

proof fn lemma_restored_drop_upper_bits(b: BusView, spill: u32)
    requires
        spill_in_wram(spill),
    ensures
        restored(b, spill) == restored(b, bus_addr(spill)),
{
    assert forall|i: int| 0 <= i < 1024 implies #[trigger] b.read_u8(spill.wrapping_add(i as u32)) == b.read_u8(
        bus_addr(spill).wrapping_add(i as u32),
    ) by {
        lemma_spill_offset(spill, i);
        lemma_addresses_wrap(b, (spill + i) as u32, 0);
    }
    assert forall|j: int| 0 <= j < 128 implies #[trigger] b.read_u32(
        spill.wrapping_add(1024).wrapping_add((4 * j) as u32),
    ) == b.read_u32(bus_addr(spill).wrapping_add(1024).wrapping_add((4 * j) as u32)) by {
        lemma_spill_offset(spill, 1024);
        lemma_spill_offset(spill, 1024 + 4 * j);
        assert(spill.wrapping_add(1024).wrapping_add((4 * j) as u32) == spill + 1024 + 4 * j);
        assert(bus_addr(spill).wrapping_add(1024).wrapping_add((4 * j) as u32) == bus_addr(spill) + 1024 + 4 * j);
        lemma_addresses_wrap(b, (spill + 1024 + 4 * j) as u32, 0);
    }
    assert(restored(b, spill).blocks =~= restored(b, bus_addr(spill)).blocks);
    assert(restored(b, spill).tags =~= restored(b, bus_addr(spill)).tags);
}

/// Dumping the cache to a spill area in work ram and restoring it from there gives back the
/// same cache; the bus ignores the upper address bits, so they may be anything.
pub proof fn lemma_dump_restore_round_trip(c: CacheView, b: BusView, spill: u32)
    requires
        b.valid(),
        c.blocks.len() == 1024,
        c.tags.len() == 128,
        spill_in_wram(spill),
    ensures
        restored(c.dump_spec(b, spill), spill) == c,
{
    lemma_spill_offset(spill, 0);
    let low = bus_addr(spill);
    lemma_dump_blocks_drop_upper_bits(b, c.blocks, spill, 1024);
    let mid = dump_blocks(b, c.blocks, spill, 1024);
    lemma_dump_tags_drop_upper_bits(mid, c.tags, spill, 128);
    assert(c.dump_spec(b, spill) == c.dump_spec(b, low));
    lemma_restored_drop_upper_bits(c.dump_spec(b, spill), spill);
    lemma_round_trip_at_bus_address(c, b, low);
}

impl Default for Cache {
    fn default() -> (r: Self)
        ensures
            r.is_empty(),
    {
        Self::new()
    }
}

} // verus!
