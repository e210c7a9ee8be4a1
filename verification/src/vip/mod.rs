pub mod registers;
pub mod structures;

use vstd::prelude::*;
pub use registers::Registers;

verus! {

// the whole map repeats above this, so every access folds into one 512k window
pub const VIP_MASK: u32 = 0x0007_FFFF;

pub const VRAM_LEN: usize = 0x0004_0000;

pub const LEFT_FRAME_0: u32 = 0x0000_0000;
pub const LEFT_FRAME_1: u32 = 0x0000_8000;
pub const RIGHT_FRAME_0: u32 = 0x0001_0000;
pub const RIGHT_FRAME_1: u32 = 0x0001_8000;
pub const FRAME_LEN: u32 = 0x6000;

pub const CHARACTER_TABLE_0: u32 = 0x0000_6000;
pub const CHARACTER_TABLE_STRIDE: u32 = 0x8000;
pub const CHARACTER_TABLE_LEN: u32 = 0x2000;

pub const CHARACTER_MIRROR: u32 = 0x0007_8000;
pub const CHARACTER_MIRROR_END: u32 = 0x0007_FFFF;

pub const BG_MAPS: u32 = 0x0002_0000;
pub const WORLD_ATTRIBUTES: u32 = 0x0003_D800;
pub const LEFT_COLUMN_TABLE: u32 = 0x0003_DC00;
pub const RIGHT_COLUMN_TABLE: u32 = 0x0003_DE00;
pub const OBJECT_ATTRIBUTES: u32 = 0x0003_E000;

pub const REGISTERS_START: u32 = 0x0005_E000;
pub const REGISTERS_END: u32 = 0x0005_FFFF;

/// Where a vip address lands.
#[derive(Debug, Clone, Copy, PartialEq, Eq, Structural)]
pub enum Target {
    Vram(u32),
    Register(u32),
    Unmapped,
}

/// The vram offset, register address or hole that a vip address names. The map repeats every
/// 512k; the character mirror presents the four character tables as one linear block.
pub open spec fn resolve_spec(addr: u32) -> Target {
    let a = addr % 0x80000;
    if a < 0x40000 {
        Target::Vram(a)
    } else if REGISTERS_START <= a <= REGISTERS_END {
        Target::Register(a)
    } else if CHARACTER_MIRROR <= a {
        let offset = a - CHARACTER_MIRROR;
        Target::Vram((CHARACTER_TABLE_0 + (offset / 0x2000) * 0x8000 + offset % 0x2000) as u32)
    } else {
        Target::Unmapped
    }
}

// the mirrors exist so character memory can be walked as one linear block
/// Resolves a vip address.
pub fn resolve(addr: u32) -> (r: Target)
    ensures
        r == resolve_spec(addr),
        r matches Target::Vram(o) ==> o < VRAM_LEN,
{
    proof {
        crate::bits::lemma_mask_u32(addr);
    }
    let addr = addr & VIP_MASK;

    if addr < 0x40000 {
        return Target::Vram(addr);
    }

    if REGISTERS_START <= addr && addr <= REGISTERS_END {
        return Target::Register(addr);
    }

    if CHARACTER_MIRROR <= addr && addr <= CHARACTER_MIRROR_END {
        let offset = addr - CHARACTER_MIRROR;
        let table = offset / CHARACTER_TABLE_LEN;
        let within = offset % CHARACTER_TABLE_LEN;
        return Target::Vram(CHARACTER_TABLE_0 + table * CHARACTER_TABLE_STRIDE + within);
    }

    Target::Unmapped
}

/// The video processor: video memory and the register file.
pub struct Vip {
    vram: Vec<u8>,
    pub regs: Registers,
}

/// What the vip holds.
pub ghost struct VipView {
    pub vram: Seq<u8>,
    pub regs: Registers,
}

impl View for Vip {
    type V = VipView;

    closed spec fn view(&self) -> VipView {
        VipView { vram: self.vram@, regs: self.regs }
    }
}

/// A halfword assembled from two bytes, low byte first.
pub open spec fn le16(low: u8, high: u8) -> u16 {
    (low + 256 * high) as u16
}

impl VipView {
    pub open spec fn wf(self) -> bool {
        self.vram.len() == VRAM_LEN
    }

    /// A byte read: vram directly, a register as one byte of its halfword, holes as zero.
    pub open spec fn read_u8(self, addr: u32) -> u8 {
        match resolve_spec(addr) {
            Target::Vram(o) => self.vram[o as int],
            Target::Register(reg) => {
                let half = self.regs.read_spec((reg - reg % 2) as u32);
                if reg % 2 == 0 { (half % 256) as u8 } else { (half / 256) as u8 }
            },
            Target::Unmapped => 0,
        }
    }

    /// A halfword read at the even address at or below `addr`.
    pub open spec fn read_u16(self, addr: u32) -> u16 {
        match resolve_spec((addr - addr % 2) as u32) {
            Target::Vram(o) => le16(self.vram[o as int], self.vram[o + 1]),
            Target::Register(reg) => self.regs.read_spec(reg),
            Target::Unmapped => 0,
        }
    }

    /// A word read: two halfword reads at the word-aligned address, low half first.
    pub open spec fn read_u32(self, addr: u32) -> u32 {
        let a = (addr - addr % 4) as u32;
        (self.read_u16(a) + 65536 * self.read_u16((a + 2) as u32)) as u32
    }

    /// A halfword write at the even address at or below `addr`.
    pub open spec fn write_u16(self, addr: u32, value: u16) -> VipView {
        match resolve_spec((addr - addr % 2) as u32) {
            Target::Vram(o) => VipView {
                vram: self.vram.update(o as int, (value % 256) as u8).update(o + 1, (value / 256) as u8),
                ..self
            },
            Target::Register(reg) => VipView { regs: self.regs.write_spec(reg, value), ..self },
            Target::Unmapped => self,
        }
    }

    /// A word write: two halfword writes, low half first.
    pub open spec fn write_u32(self, addr: u32, value: u32) -> VipView {
        let a = (addr - addr % 4) as u32;
        self.write_u16(a, (value % 65536) as u16).write_u16((a + 2) as u32, (value / 65536) as u16)
    }

    /// A byte store carrying the whole source register. Vram takes the low byte; a register takes
    /// a halfword: the low half of the source on an even address, the low byte shifted up on an
    /// odd one.
    pub open spec fn write_u8(self, addr: u32, source: u32) -> VipView {
        match resolve_spec(addr) {
            Target::Vram(o) => VipView { vram: self.vram.update(o as int, (source % 256) as u8), ..self },
            Target::Register(reg) => {
                let low = (source % 65536) as u16;
                let value = if reg % 2 == 0 { low } else { ((low % 256) * 256) as u16 };
                VipView { regs: self.regs.write_spec((reg - reg % 2) as u32, value), ..self }
            },
            Target::Unmapped => self,
        }
    }
}

/// A vram offset from an even vip address leaves room for the odd byte after it.
proof fn lemma_resolve_even(addr: u32)
    requires
        addr % 2 == 0,
    ensures
        resolve_spec(addr) matches Target::Vram(o) ==> o % 2 == 0 && o + 1 < VRAM_LEN,
{
}

impl Vip {
    pub open spec fn wf(&self) -> bool {
        self@.wf()
    }

    /// A vip with zeroed vram and a reset register file.
    pub fn new() -> (r: Self)
        ensures
            r.wf(),
            r@.vram == Seq::new(VRAM_LEN as nat, |i: int| 0u8),
            r@.regs.is_reset(),
    {
        let vram: Vec<u8> = vec![0u8; VRAM_LEN];
        proof {
            assert forall|i: int| 0 <= i < VRAM_LEN implies vram@[i] == 0u8 by {
                assert(vstd::pervasive::cloned(0u8, vram@[i]));
            }
            assert(vram@ =~= Seq::new(VRAM_LEN as nat, |i: int| 0u8));
        }
        Vip { vram, regs: Registers::new() }
    }

    /// Video memory.
    pub fn vram(&self) -> (r: &[u8])
        ensures
            r@ == self@.vram,
    {
        self.vram.as_slice()
    }

    /// Video memory, for changes; it keeps its length, so the vip stays well formed.
    pub fn vram_mut(&mut self) -> (r: &mut [u8])
        ensures
            r@ == old(self)@.vram,
            final(self)@ == (VipView { vram: final(r)@, ..old(self)@ }),
            old(self).wf() && final(r)@.len() == r@.len() ==> final(self).wf(),
    {
        self.vram.as_mut_slice()
    }

    /// Reads a byte.
    pub fn read_u8(&self, addr: u32) -> (r: u8)
        requires
            self.wf(),
        ensures
            r == self@.read_u8(addr),
    {
        match resolve(addr) {
            Target::Vram(offset) => self.vram[offset as usize],
            Target::Register(reg) => {
                let half = self.regs.read(reg - reg % 2);
                if reg % 2 == 0 {
                    (half % 256) as u8
                } else {
                    (half / 256) as u8
                }
            },
            Target::Unmapped => 0,
        }
    }

    /// Reads a halfword; the address is rounded down to even.
    pub fn read_u16(&self, addr: u32) -> (r: u16)
        requires
            self.wf(),
        ensures
            r == self@.read_u16(addr),
    {
        let even = addr - addr % 2;
        proof {
            lemma_resolve_even(even);
        }
        match resolve(even) {
            Target::Vram(offset) => {
                let at = offset as usize;
                self.vram[at] as u16 + 256 * (self.vram[at + 1] as u16)
            },
            Target::Register(reg) => self.regs.read(reg),
            Target::Unmapped => 0,
        }
    }

    /// Reads a word as two halfwords; the address is rounded down to a multiple of four.
    pub fn read_u32(&self, addr: u32) -> (r: u32)
        requires
            self.wf(),
        ensures
            r == self@.read_u32(addr),
    {
        let addr = addr - addr % 4;
        self.read_u16(addr) as u32 + 65536 * (self.read_u16(addr + 2) as u32)
    }

    /// Writes a halfword; the address is rounded down to even.
    pub fn write_u16(&mut self, addr: u32, value: u16)
        requires
            old(self).wf(),
        ensures
            final(self).wf(),
            final(self)@ == old(self)@.write_u16(addr, value),
    {
        let even = addr - addr % 2;
        proof {
            lemma_resolve_even(even);
        }
        match resolve(even) {
            Target::Vram(offset) => {
                let at = offset as usize;
                self.vram.set(at, (value % 256) as u8);
                self.vram.set(at + 1, (value / 256) as u8);
            },
            Target::Register(reg) => self.regs.write(reg, value),
            Target::Unmapped => {},
        }
    }

    /// Writes a word as two halfwords, low half first.
    pub fn write_u32(&mut self, addr: u32, value: u32)
        requires
            old(self).wf(),
        ensures
            final(self).wf(),
            final(self)@ == old(self)@.write_u32(addr, value),
    {
        let addr = addr - addr % 4;
        self.write_u16(addr, (value % 65536) as u16);
        self.write_u16(addr + 2, (value / 65536) as u16);
    }

    // a byte store into the register file is really a halfword store, and it takes the
    // whole source register rather than the byte the cpu would normally hand over
    /// Stores a byte, or for a register the halfword the store really performs.
    pub fn write_u8(&mut self, addr: u32, source: u32)
        requires
            old(self).wf(),
        ensures
            final(self).wf(),
            final(self)@ == old(self)@.write_u8(addr, source),
    {
        match resolve(addr) {
            Target::Vram(offset) => self.vram.set(offset as usize, (source % 256) as u8),
            Target::Register(reg) => {
                let low = (source % 65536) as u16;
                let value = if reg % 2 == 0 {
                    low
                } else {
                    (low % 256) * 256
                };
                self.regs.write(reg - reg % 2, value);
            },
            Target::Unmapped => {},
        }
    }
}

/// The whole map repeats every 512k.
pub proof fn lemma_vip_mirrors(addr: u32)
    requires
        addr as int + 0x80000 <= u32::MAX,
    ensures
        resolve_spec(addr) == resolve_spec((addr + 0x80000) as u32),
{
}

/// The character mirror is linear: consecutive mirror addresses walk the four tables in order.
pub proof fn lemma_character_mirror(table: u32, within: u32)
    requires
        table < 4,
        within < CHARACTER_TABLE_LEN,
    ensures
        resolve_spec((CHARACTER_MIRROR + table * CHARACTER_TABLE_LEN + within) as u32)
            == Target::Vram((CHARACTER_TABLE_0 + table * CHARACTER_TABLE_STRIDE + within) as u32),
{
}

/// A halfword written to video memory reads back, at every address that mirrors it.
pub proof fn lemma_vram_round_trip(v: VipView, addr: u32, other: u32, value: u16)
    requires
        v.wf(),
        resolve_spec((addr - addr % 2) as u32) is Vram,
        resolve_spec((other - other % 2) as u32) == resolve_spec((addr - addr % 2) as u32),
    ensures
        v.write_u16(addr, value).read_u16(other) == value,
{
    lemma_resolve_even((addr - addr % 2) as u32);
}

/// A halfword written to video memory leaves every other halfword of video memory alone.
pub proof fn lemma_vram_write_other(v: VipView, addr: u32, other: u32, value: u16)
    requires
        v.wf(),
        resolve_spec((addr - addr % 2) as u32) is Vram,
        resolve_spec((other - other % 2) as u32) is Vram,
        resolve_spec((other - other % 2) as u32) != resolve_spec((addr - addr % 2) as u32),
    ensures
        v.write_u16(addr, value).read_u16(other) == v.read_u16(other),
{
    lemma_resolve_even((addr - addr % 2) as u32);
    lemma_resolve_even((other - other % 2) as u32);
}

/// A word written to video memory reads back as a word.
pub proof fn lemma_vram_word_round_trip(v: VipView, addr: u32, value: u32)
    requires
        v.wf(),
        (addr - addr % 4) as int + 3 < 0x40000,
    ensures
        v.write_u32(addr, value).read_u32(addr) == value,
{
    let a = (addr - addr % 4) as u32;
    lemma_resolve_even(a);
    lemma_resolve_even((a + 2) as u32);
}

impl Default for Vip {
    fn default() -> (r: Self)
        ensures
            r.wf(),
            r@.vram == Seq::new(VRAM_LEN as nat, |i: int| 0u8),
            r@.regs.is_reset(),
    {
        Self::new()
    }
}

} // verus!
