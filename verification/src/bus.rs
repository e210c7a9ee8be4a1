use vstd::prelude::*;
use crate::cart::{Cart, CartView};
use crate::interrupt::{Source, sources, sources_spec};
use crate::pad::{GamePad, PadView};
use crate::timer::{Timer, TimerView};
use crate::vip::{Vip, VipView, le16};
use crate::wait::{WaitController, WaitView};

verus! {

pub const ADDRESS_MASK: u32 = 0x07FF_FFFF;
pub const REGION_LEN: u32 = 0x0100_0000;
pub const WRAM_LEN: usize = 0x1_0000;
pub const WRAM_MASK: u32 = 0x0000_FFFF;

/// The eight 16 MiB regions of the 27-bit address space.
#[derive(Debug, Clone, Copy, PartialEq, Eq, Hash, Structural)]
pub enum Region {
    Vip,
    Vsu,
    Misc,
    Unmapped,
    Expansion,
    Wram,
    CartRam,
    CartRom,
}

/// The region that bits 26 through 24 of an address select.
pub open spec fn region_spec(addr: u32) -> Region {
    let r = (addr / 0x0100_0000) % 8;
    if r == 0 { Region::Vip }
    else if r == 1 { Region::Vsu }
    else if r == 2 { Region::Misc }
    else if r == 3 { Region::Unmapped }
    else if r == 4 { Region::Expansion }
    else if r == 5 { Region::Wram }
    else if r == 6 { Region::CartRam }
    else { Region::CartRom }
}

impl Region {
    pub open spec fn is_memory_spec(self) -> bool {
        self == Region::Wram || self == Region::CartRam || self == Region::CartRom
    }

    pub open spec fn base_spec(self) -> u32 {
        match self {
            Region::Vip => 0x0000_0000,
            Region::Vsu => 0x0100_0000,
            Region::Misc => 0x0200_0000,
            Region::Unmapped => 0x0300_0000,
            Region::Expansion => 0x0400_0000,
            Region::Wram => 0x0500_0000,
            Region::CartRam => 0x0600_0000,
            Region::CartRom => 0x0700_0000,
        }
    }

    /// The region an address falls in; bits above 26 are ignored.
    pub fn of(addr: u32) -> (r: Region)
        ensures
            r == region_spec(addr),
    {
        let r = (addr / 0x0100_0000) % 8;
        match r {
            0 => Region::Vip,
            1 => Region::Vsu,
            2 => Region::Misc,
            3 => Region::Unmapped,
            4 => Region::Expansion,
            5 => Region::Wram,
            6 => Region::CartRam,
            _ => Region::CartRom,
        }
    }

    /// Whether the region is plain memory, accessed byte by byte at every width.
    pub fn is_memory(self) -> (r: bool)
        ensures
            r == self.is_memory_spec(),
    {
        match self {
            Region::Wram | Region::CartRam | Region::CartRom => true,
            _ => false,
        }
    }

    /// The first address of the region.
    pub fn base(self) -> (r: u32)
        ensures
            r == self.base_spec(),
    {
        match self {
            Region::Vip => 0x0000_0000,
            Region::Vsu => 0x0100_0000,
            Region::Misc => 0x0200_0000,
            Region::Unmapped => 0x0300_0000,
            Region::Expansion => 0x0400_0000,
            Region::Wram => 0x0500_0000,
            Region::CartRam => 0x0600_0000,
            Region::CartRom => 0x0700_0000,
        }
    }
}

/// Every address of a region, from its base to its last byte, lies in that region.
pub proof fn lemma_region_base(region: Region, offset: u32)
    requires
        offset < REGION_LEN,
    ensures
        region_spec((region.base_spec() + offset) as u32) == region,
{
}

/// The system bus: the game pak, work ram, the misc devices and the vip.
pub struct Bus {
    cart: Cart,
    wram: Vec<u8>,
    timer: Timer,
    wait: WaitController,
    pad: GamePad,
    vip: Vip,
}

/// Everything the bus reaches.
pub ghost struct BusView {
    pub cart: CartView,
    pub wram: Seq<u8>,
    pub timer: TimerView,
    pub wait: WaitView,
    pub pad: PadView,
    pub vip: VipView,
}

impl View for Bus {
    type V = BusView;

    closed spec fn view(&self) -> BusView {
        BusView {
            cart: self.cart@,
            wram: self.wram@,
            timer: self.timer@,
            wait: self.wait@,
            pad: self.pad@,
            vip: self.vip@,
        }
    }
}

/// An address reduced to the 27 bits the bus decodes.
pub open spec fn bus_addr(addr: u32) -> u32 {
    addr % 0x0800_0000
}

impl BusView {
    /// The lengths and device states the bus keeps.
    pub open spec fn valid(self) -> bool {
        &&& self.cart.valid()
        &&& self.wram.len() == WRAM_LEN
        &&& self.vip.wf()
        &&& self.timer.inv()
        &&& self.pad.inv()
    }

    /// A byte read in the misc region: timer, wait controller, pad, or zero.
    pub open spec fn read_misc(self, addr: u32) -> u8 {
        let o = addr % 64;
        if o == 0x18 || o == 0x1C || o == 0x20 {
            self.timer.read(addr)
        } else if o == 0x24 {
            self.wait.read_spec()
        } else if o == 0x10 || o == 0x14 || o == 0x28 {
            self.pad.read(addr)
        } else {
            0
        }
    }

    /// A byte write in the misc region.
    pub open spec fn write_misc(self, addr: u32, value: u8) -> BusView {
        let o = addr % 64;
        if o == 0x18 || o == 0x1C || o == 0x20 {
            BusView { timer: self.timer.write(addr, value), ..self }
        } else if o == 0x24 {
            BusView {
                wait: WaitView { rom_fast: value % 2 == 1, expansion_fast: (value / 2) % 2 == 1 },
                ..self
            }
        } else if o == 0x10 || o == 0x14 || o == 0x28 {
            BusView { pad: self.pad.write(addr, value), ..self }
        } else {
            self
        }
    }

    /// A byte read. Work ram mirrors every 64k, the game pak memories mirror their own lengths,
    /// unimplemented regions read zero.
    #[verifier::opaque]
    pub open spec fn read_u8(self, addr: u32) -> u8 {
        let a = bus_addr(addr);
        match region_spec(a) {
            Region::Wram => self.wram[a as int % 0x10000],
            Region::CartRam => self.cart.read_sram(a),
            Region::CartRom => self.cart.read_rom(a),
            Region::Misc => self.read_misc(a),
            Region::Vip => self.vip.read_u8(a),
            _ => 0,
        }
    }

    /// A halfword read at the even address at or below `addr`. The vip answers whole
    /// halfwords, memory is read byte by byte little-endian, devices read zero.
    #[verifier::opaque]
    pub open spec fn read_u16(self, addr: u32) -> u16 {
        let a = (bus_addr(addr) - bus_addr(addr) % 2) as u32;
        if region_spec(a) == Region::Vip {
            self.vip.read_u16(a)
        } else if !region_spec(a).is_memory_spec() {
            0
        } else {
            le16(self.read_u8(a), self.read_u8((a + 1) as u32))
        }
    }

    /// A word read at the address rounded down to a multiple of four.
    #[verifier::opaque]
    pub open spec fn read_u32(self, addr: u32) -> u32 {
        let a = (bus_addr(addr) - bus_addr(addr) % 4) as u32;
        if region_spec(a) == Region::Vip {
            self.vip.read_u32(a)
        } else if !region_spec(a).is_memory_spec() {
            0
        } else {
            (self.read_u8(a) + 256 * self.read_u8((a + 1) as u32) + 65536 * self.read_u8((a + 2) as u32)
                + 16777216 * self.read_u8((a + 3) as u32)) as u32
        }
    }

    /// A byte write; the rom and the unimplemented regions drop it.
    #[verifier::opaque]
    pub open spec fn write_u8(self, addr: u32, value: u8) -> BusView {
        let a = bus_addr(addr);
        match region_spec(a) {
            Region::Wram => BusView { wram: self.wram.update(a as int % 0x10000, value), ..self },
            Region::CartRam => BusView { cart: self.cart.write_sram(a, value), ..self },
            Region::Misc => self.write_misc(a, value),
            Region::Vip => BusView { vip: self.vip.write_u8(a, value as u32), ..self },
            _ => self,
        }
    }

    /// A byte store from a whole source register: the vip sees the whole register, everything
    /// else its low byte.
    pub open spec fn store_u8(self, addr: u32, source: u32) -> BusView {
        let a = bus_addr(addr);
        if region_spec(a) == Region::Vip {
            BusView { vip: self.vip.write_u8(a, source), ..self }
        } else {
            self.write_u8(a, (source % 256) as u8)
        }
    }

    /// A halfword write at the even address at or below `addr`.
    #[verifier::opaque]
    pub open spec fn write_u16(self, addr: u32, value: u16) -> BusView {
        let a = (bus_addr(addr) - bus_addr(addr) % 2) as u32;
        if region_spec(a) == Region::Vip {
            BusView { vip: self.vip.write_u16(a, value), ..self }
        } else if !region_spec(a).is_memory_spec() {
            self
        } else {
            self.write_u8(a, (value % 256) as u8).write_u8((a + 1) as u32, (value / 256) as u8)
        }
    }

    /// A word write at the address rounded down to a multiple of four.
    #[verifier::opaque]
    pub open spec fn write_u32(self, addr: u32, value: u32) -> BusView {
        let a = (bus_addr(addr) - bus_addr(addr) % 4) as u32;
        if region_spec(a) == Region::Vip {
            BusView { vip: self.vip.write_u32(a, value), ..self }
        } else if !region_spec(a).is_memory_spec() {
            self
        } else {
            self.write_u8(a, (value % 256) as u8).write_u8((a + 1) as u32, ((value / 256) % 256) as u8).write_u8(
                (a + 2) as u32,
                ((value / 65536) % 256) as u8,
            ).write_u8((a + 3) as u32, (value / 16777216) as u8)
        }
    }

    /// Whether a source's interrupt is raised; the vip, game pak and link port never raise yet.
    pub open spec fn raised(self, source: Source) -> bool {
        match source {
            Source::TimerZero => self.timer.pending,
            Source::GamePad => self.pad.pending,
            _ => false,
        }
    }

    /// Whether a source has an interrupt pending or could raise one by running.
    pub open spec fn may_raise_spec(self, source: Source) -> bool {
        match source {
            Source::TimerZero => self.timer.pending || (self.timer.enabled && self.timer.interrupt_enabled),
            Source::GamePad => self.pad.pending || (self.pad.reading && !self.pad.interrupt_inhibited),
            _ => false,
        }
    }

    /// The state after `cycles` more cycles.
    pub open spec fn after_cycles(self, cycles: u64) -> BusView {
        BusView { timer: self.timer.after_cycles(cycles), pad: self.pad.after_cycles(cycles), ..self }
    }
}

impl Bus {
    /// The bus keeps its memories at their lengths and its devices in range.
    pub closed spec fn wf(&self) -> bool {
        &&& self.cart.wf()
        &&& self.vip.wf()
        &&& self@.valid()
    }

    /// A well-formed bus is valid.
    pub proof fn lemma_wf(&self)
        requires
            self.wf(),
        ensures
            self@.valid(),
    {
    }

    /// A bus around a cartridge, with zeroed work ram and every device at reset.
    pub fn new(cart: Cart) -> (r: Self)
        requires
            cart.wf(),
        ensures
            r.wf(),
            r@.cart == cart@,
            r@.wram == Seq::new(WRAM_LEN as nat, |i: int| 0u8),
            r@.vip.vram == Seq::new(crate::vip::VRAM_LEN as nat, |i: int| 0u8),
            r@.vip.regs.is_reset(),
            r@.timer == TimerView::reset(),
            r@.pad == PadView::reset(),
            r@.wait == (WaitView { rom_fast: false, expansion_fast: false }),
    {
        let wram: Vec<u8> = vec![0u8; WRAM_LEN];
        proof {
            assert forall|i: int| 0 <= i < WRAM_LEN implies wram@[i] == 0u8 by {
                assert(vstd::pervasive::cloned(0u8, wram@[i]));
            }
            assert(wram@ =~= Seq::new(WRAM_LEN as nat, |i: int| 0u8));
            cart.lemma_wf();
        }
        Bus {
            cart,
            wram,
            timer: Timer::new(),
            wait: WaitController::new(),
            pad: GamePad::new(),
            vip: Vip::new(),
        }
    }

    /// The video unit.
    pub fn vip(&self) -> (r: &Vip)
        ensures
            r@ == self@.vip,
    {
        &self.vip
    }

    /// The video unit, for changes; the bus stays well formed while its vram keeps its length.
    pub fn vip_mut(&mut self) -> (r: &mut Vip)
        ensures
            (*r)@ == old(self)@.vip,
            final(self)@ == (BusView { vip: (*final(r))@, ..old(self)@ }),
            old(self).wf() && final(r).wf() ==> final(self).wf(),
    {
        &mut self.vip
    }

    /// The game pad.
    pub fn pad(&self) -> (r: &GamePad)
        ensures
            r@ == self@.pad,
    {
        &self.pad
    }

    /// The game pad, for changes; the bus stays well formed while the pad's state stays valid.
    pub fn pad_mut(&mut self) -> (r: &mut GamePad)
        ensures
            (*r)@ == old(self)@.pad,
            final(self)@ == (BusView { pad: (*final(r))@, ..old(self)@ }),
            old(self).wf() && (*final(r))@.inv() ==> final(self).wf(),
    {
        &mut self.pad
    }

    /// The timer.
    pub fn timer(&self) -> (r: &Timer)
        ensures
            r@ == self@.timer,
    {
        &self.timer
    }

    /// The timer, for changes; the bus stays well formed while the timer's state stays valid.
    pub fn timer_mut(&mut self) -> (r: &mut Timer)
        ensures
            (*r)@ == old(self)@.timer,
            final(self)@ == (BusView { timer: (*final(r))@, ..old(self)@ }),
            old(self).wf() && (*final(r))@.inv() ==> final(self).wf(),
    {
        &mut self.timer
    }

    /// The wait controller.
    pub fn wait(&self) -> (r: &WaitController)
        ensures
            r@ == self@.wait,
    {
        &self.wait
    }

    /// The wait controller, for changes.
    pub fn wait_mut(&mut self) -> (r: &mut WaitController)
        ensures
            (*r)@ == old(self)@.wait,
            final(self)@ == (BusView { wait: (*final(r))@, ..old(self)@ }),
            old(self).wf() ==> final(self).wf(),
    {
        &mut self.wait
    }

    /// The game pak.
    pub fn cart(&self) -> (r: &Cart)
        ensures
            r@ == self@.cart,
            self.wf() ==> r.wf(),
    {
        &self.cart
    }

    /// The game pak, for changes; the bus stays well formed while the game pak does.
    pub fn cart_mut(&mut self) -> (r: &mut Cart)
        ensures
            (*r)@ == old(self)@.cart,
            old(self).wf() ==> (*r).wf(),
            final(self)@ == (BusView { cart: (*final(r))@, ..old(self)@ }),
            old(self).wf() && final(r).wf() ==> final(self).wf(),
    {
        proof {
            Cart::lemma_all_wf_valid();
        }
        &mut self.cart
    }

    /// The work ram.
    pub fn wram(&self) -> (r: &[u8])
        ensures
            r@ == self@.wram,
    {
        self.wram.as_slice()
    }

    /// The work ram, for changes; a slice keeps its length, so the bus stays well formed.
    pub fn wram_mut(&mut self) -> (r: &mut [u8])
        ensures
            r@ == old(self)@.wram,
            final(self)@ == (BusView { wram: final(r)@, ..old(self)@ }),
            old(self).wf() && final(r)@.len() == r@.len() ==> final(self).wf(),
    {
        self.wram.as_mut_slice()
    }

    /// Runs the timer and the pad for `cycles` cycles.
    pub fn tick(&mut self, cycles: u64)
        requires
            old(self).wf(),
            old(self)@.timer.elapsed + cycles <= u64::MAX,
        ensures
            final(self).wf(),
            final(self)@ == old(self)@.after_cycles(cycles),
    {
        self.timer.tick(cycles);
        self.pad.tick(cycles);
    }

    /// The highest-priority source whose interrupt is raised, if any.
    pub fn pending_interrupt(&self) -> (r: Option<Source>)
        ensures
            match r {
                Some(s) => self@.raised(s) && exists|i: int| 0 <= i < 5 && sources_spec()[i] == s && forall|j: int|
                    0 <= j < i ==> !self@.raised(#[trigger] sources_spec()[j]),
                None => forall|j: int| 0 <= j < 5 ==> !self@.raised(#[trigger] sources_spec()[j]),
            },
    {
        let all = sources();
        let mut i: usize = 0;
        while i < 5
            invariant
                i <= 5,
                all@ == sources_spec(),
                forall|j: int| 0 <= j < i ==> !self@.raised(#[trigger] sources_spec()[j]),
            decreases 5 - i,
        {
            let source = all[i];
            if self.raised(source) {
                assert(sources_spec()[i as int] == source);
                return Some(source);
            }
            i = i + 1;
        }
        None
    }

    fn raised(&self, source: Source) -> (r: bool)
        ensures
            r == self@.raised(source),
    {
        match source {
            Source::TimerZero => self.timer.interrupt_pending(),
            Source::GamePad => self.pad.interrupt_pending(),
            // the vip, game pak and communication port do not exist yet
            _ => false,
        }
    }

    /// Whether the source has an interrupt pending or could raise one by running.
    pub fn may_raise(&self, source: Source) -> (r: bool)
        ensures
            r == self@.may_raise_spec(source),
    {
        match source {
            Source::TimerZero => self.timer.may_raise(),
            Source::GamePad => self.pad.may_raise(),
            _ => false,
        }
    }

    /// Reads a byte.
    pub fn read_u8(&self, addr: u32) -> (r: u8)
        requires
            self.wf(),
        ensures
            r == self@.read_u8(addr),
    {
        proof {
            reveal(BusView::read_u8);
            crate::bits::lemma_mask_u32(addr);
        }
        let addr = addr & ADDRESS_MASK;
        match Region::of(addr) {
            Region::Wram => {
                proof {
                    crate::bits::lemma_mask_u32(addr);
                }
                self.wram[(addr & WRAM_MASK) as usize]
            },
            Region::CartRam => self.cart.read_sram(addr),
            Region::CartRom => self.cart.read_rom(addr),
            Region::Misc => self.read_misc(addr),
            Region::Vip => self.vip.read_u8(addr),
            _ => 0,
        }
    }

    fn read_misc(&self, addr: u32) -> (r: u8)
        ensures
            r == self@.read_misc(addr),
    {
        if Timer::handles(addr) {
            self.timer.read(addr)
        } else if WaitController::handles(addr) {
            self.wait.read()
        } else if GamePad::handles(addr) {
            self.pad.read(addr)
        } else {
            0
        }
    }

    fn write_misc(&mut self, addr: u32, value: u8)
        requires
            old(self).wf(),
        ensures
            final(self).wf(),
            final(self)@ == old(self)@.write_misc(addr, value),
    {
        if Timer::handles(addr) {
            self.timer.write(addr, value);
        } else if WaitController::handles(addr) {
            self.wait.write(value);
        } else if GamePad::handles(addr) {
            self.pad.write(addr, value);
        }
    }

    // devices need whole-width access, vip byte writes are anomalous
    /// Reads a halfword; the address is rounded down to even.
    pub fn read_u16(&self, addr: u32) -> (r: u16)
        requires
            self.wf(),
        ensures
            r == self@.read_u16(addr),
    {
        proof {
            reveal(BusView::read_u16);
            crate::bits::lemma_mask_u32(addr);
        }
        let addr = addr & ADDRESS_MASK;
        let addr = addr - addr % 2;
        if Region::of(addr) == Region::Vip {
            return self.vip.read_u16(addr);
        }
        if !Region::of(addr).is_memory() {
            return 0;
        }
        self.read_u8(addr) as u16 + 256 * (self.read_u8(addr + 1) as u16)
    }

    /// Reads a word; the address is rounded down to a multiple of four.
    pub fn read_u32(&self, addr: u32) -> (r: u32)
        requires
            self.wf(),
        ensures
            r == self@.read_u32(addr),
    {
        proof {
            reveal(BusView::read_u32);
            crate::bits::lemma_mask_u32(addr);
        }
        let addr = addr & ADDRESS_MASK;
        let addr = addr - addr % 4;
        if Region::of(addr) == Region::Vip {
            return self.vip.read_u32(addr);
        }
        if !Region::of(addr).is_memory() {
            return 0;
        }
        self.read_u8(addr) as u32 + 256 * (self.read_u8(addr + 1) as u32) + 65536 * (self.read_u8(addr + 2) as u32)
            + 16777216 * (self.read_u8(addr + 3) as u32)
    }

    /// Writes a byte.
    pub fn write_u8(&mut self, addr: u32, value: u8)
        requires
            old(self).wf(),
        ensures
            final(self).wf(),
            final(self)@ == old(self)@.write_u8(addr, value),
    {
        proof {
            reveal(BusView::write_u8);
            crate::bits::lemma_mask_u32(addr);
        }
        let addr = addr & ADDRESS_MASK;
        match Region::of(addr) {
            Region::Wram => {
                proof {
                    crate::bits::lemma_mask_u32(addr);
                }
                self.wram.set((addr & WRAM_MASK) as usize, value);
            },
            Region::CartRam => self.cart.write_sram(addr, value),
            Region::Misc => self.write_misc(addr, value),
            Region::Vip => self.vip.write_u8(addr, value as u32),
            _ => {},
        }
        proof {
            self.cart.lemma_wf();
        }
    }

    /// Stores the low byte of a source register; the vip takes the whole register.
    pub fn store_u8(&mut self, addr: u32, source: u32)
        requires
            old(self).wf(),
        ensures
            final(self).wf(),
            final(self)@ == old(self)@.store_u8(addr, source),
    {
        proof {
            reveal(BusView::write_u8);
            crate::bits::lemma_mask_u32(addr);
        }
        let addr = addr & ADDRESS_MASK;
        if Region::of(addr) == Region::Vip {
            self.vip.write_u8(addr, source);
        } else {
            self.write_u8(addr, (source % 256) as u8);
        }
    }

    /// Writes a halfword; the address is rounded down to even.
    pub fn write_u16(&mut self, addr: u32, value: u16)
        requires
            old(self).wf(),
        ensures
            final(self).wf(),
            final(self)@ == old(self)@.write_u16(addr, value),
    {
        proof {
            reveal(BusView::write_u16);
            crate::bits::lemma_mask_u32(addr);
        }
        let addr = addr & ADDRESS_MASK;
        let addr = addr - addr % 2;
        if Region::of(addr) == Region::Vip {
            self.vip.write_u16(addr, value);
            return;
        }
        if !Region::of(addr).is_memory() {
            return;
        }
        self.write_u8(addr, (value % 256) as u8);
        self.write_u8(addr + 1, (value / 256) as u8);
    }

    /// Writes a word; the address is rounded down to a multiple of four.
    pub fn write_u32(&mut self, addr: u32, value: u32)
        requires
            old(self).wf(),
        ensures
            final(self).wf(),
            final(self)@ == old(self)@.write_u32(addr, value),
    {
        proof {
            reveal(BusView::write_u32);
            crate::bits::lemma_mask_u32(addr);
        }
        let addr = addr & ADDRESS_MASK;
        let addr = addr - addr % 4;
        if Region::of(addr) == Region::Vip {
            self.vip.write_u32(addr, value);
            return;
        }
        if !Region::of(addr).is_memory() {
            return;
        }
        self.write_u8(addr, (value % 256) as u8);
        self.write_u8(addr + 1, ((value / 256) % 256) as u8);
        self.write_u8(addr + 2, ((value / 65536) % 256) as u8);
        self.write_u8(addr + 3, (value / 16777216) as u8);
    }
}

/// Addresses wrap above bit 26: an access and the same access with the upper bits dropped agree.
pub proof fn lemma_addresses_wrap(b: BusView, addr: u32, value: u32)
    ensures
        b.read_u8(addr) == b.read_u8(bus_addr(addr)),
        b.read_u16(addr) == b.read_u16(bus_addr(addr)),
        b.read_u32(addr) == b.read_u32(bus_addr(addr)),
        b.write_u8(addr, value as u8) == b.write_u8(bus_addr(addr), value as u8),
        b.write_u32(addr, value) == b.write_u32(bus_addr(addr), value),
{
    reveal(BusView::read_u8);
    reveal(BusView::write_u8);
    reveal(BusView::read_u16);
    reveal(BusView::write_u16);
    reveal(BusView::read_u32);
    reveal(BusView::write_u32);
}

/// Rounding down to a multiple of `k` commutes with reducing modulo a multiple `m` of `k`.
proof fn lemma_round_down(x: int, m: int, k: int)
    requires
        x >= 0,
        k > 0,
        m >= k,
        m % k == 0,
    ensures
        (x - x % k) % m == x % m - (x % m) % k,
        (x % m - (x % m) % k) % k == 0,
{
    lemma_mod_divisor(x, m, k);
    vstd::arithmetic::div_mod::lemma_sub_mod_noop(x, x % k, m);
    vstd::arithmetic::div_mod::lemma_mod_bound(x, m);
    vstd::arithmetic::div_mod::lemma_small_mod((x % k) as nat, m as nat);
    vstd::arithmetic::div_mod::lemma_mod_decreases((x % m) as nat, k as nat);
    vstd::arithmetic::div_mod::lemma_small_mod((x % m - (x % m) % k) as nat, m as nat);
    let a = x % m;
    vstd::arithmetic::div_mod::lemma_fundamental_div_mod(a, k);
    vstd::arithmetic::div_mod::lemma_mod_multiples_basic(a / k, k);
    vstd::arithmetic::mul::lemma_mul_is_commutative(k, a / k);
}

/// Unaligned reads round down to the access width.
pub proof fn lemma_unaligned_reads_round_down(b: BusView, addr: u32)
    ensures
        b.read_u16(addr) == b.read_u16((addr - addr % 2) as u32),
        b.read_u32(addr) == b.read_u32((addr - addr % 4) as u32),
{
    reveal(BusView::read_u16);
    reveal(BusView::write_u16);
    reveal(BusView::read_u32);
    reveal(BusView::write_u32);
    lemma_round_down(addr as int, 0x0800_0000, 2);
    lemma_round_down(addr as int, 0x0800_0000, 4);
    let a2 = (addr - addr % 2) as u32;
    let a4 = (addr - addr % 4) as u32;
    assert((bus_addr(a2) - bus_addr(a2) % 2) as u32 == (bus_addr(addr) - bus_addr(addr) % 2) as u32);
    assert((bus_addr(a4) - bus_addr(a4) % 4) as u32 == (bus_addr(addr) - bus_addr(addr) % 4) as u32);
}

/// A work ram byte access touches `addr % 64k` of work ram and nothing else.
pub(crate) proof fn lemma_wram_access(b: BusView, x: u32, value: u8)
    requires
        region_spec(x) == Region::Wram,
        bus_addr(x) == x,
    ensures
        b.read_u8(x) == b.wram[x as int % 0x10000],
        b.write_u8(x, value) == (BusView { wram: b.wram.update(x as int % 0x10000, value), ..b }),
{
    reveal(BusView::read_u8);
    reveal(BusView::write_u8);
    reveal(BusView::read_u16);
    reveal(BusView::write_u16);
    reveal(BusView::read_u32);
    reveal(BusView::write_u32);
}

/// A byte written to work ram is read back at every address that mirrors it (every 64k).
pub proof fn lemma_wram_byte_round_trip(b: BusView, addr: u32, other: u32, value: u8)
    requires
        b.valid(),
        region_spec(bus_addr(addr)) == Region::Wram,
        region_spec(bus_addr(other)) == Region::Wram,
        bus_addr(addr) % 0x10000 == bus_addr(other) % 0x10000,
    ensures
        b.write_u8(addr, value).read_u8(other) == value,
{
    reveal(BusView::read_u8);
    reveal(BusView::write_u8);
    reveal(BusView::read_u16);
    reveal(BusView::write_u16);
    reveal(BusView::read_u32);
    reveal(BusView::write_u32);
}

/// A byte written to work ram leaves every other work ram byte alone.
pub proof fn lemma_wram_byte_other(b: BusView, addr: u32, other: u32, value: u8)
    requires
        b.valid(),
        region_spec(bus_addr(addr)) == Region::Wram,
        region_spec(bus_addr(other)) == Region::Wram,
        bus_addr(addr) % 0x10000 != bus_addr(other) % 0x10000,
    ensures
        b.write_u8(addr, value).read_u8(other) == b.read_u8(other),
{
    reveal(BusView::read_u8);
    reveal(BusView::write_u8);
    reveal(BusView::read_u16);
    reveal(BusView::write_u16);
    reveal(BusView::read_u32);
    reveal(BusView::write_u32);
}

/// A halfword written to work ram reads back as that halfword, low byte first in memory.
pub proof fn lemma_wram_halfword_round_trip(b: BusView, addr: u32, value: u16)
    requires
        b.valid(),
        region_spec(bus_addr(addr)) == Region::Wram,
    ensures
        b.write_u16(addr, value).read_u16(addr) == value,
        b.write_u16(addr, value).read_u8((bus_addr(addr) - bus_addr(addr) % 2) as u32) == value % 256,
{
    reveal(BusView::read_u8);
    reveal(BusView::write_u8);
    reveal(BusView::read_u16);
    reveal(BusView::write_u16);
    reveal(BusView::read_u32);
    reveal(BusView::write_u32);
    let a = (bus_addr(addr) - bus_addr(addr) % 2) as u32;
    assert(region_spec(a) == Region::Wram);
    assert(region_spec((a + 1) as u32) == Region::Wram);
    assert(bus_addr(a) == a);
    assert(bus_addr((a + 1) as u32) == a + 1);
}

/// The four bytes of a word, little-endian, make the word again.
pub(crate) proof fn lemma_word_bytes(value: u32)
    ensures
        ((value % 256) as u8 + 256 * ((value / 256) % 256) as u8 + 65536 * ((value / 65536) % 256) as u8
            + 16777216 * (value / 16777216) as u8) as u32 == value,
{
}

/// The three bytes after an aligned work ram address are work ram too, in the same 64k mirror.
proof fn lemma_wram_neighbours(a: u32)
    requires
        region_spec(a) == Region::Wram,
        bus_addr(a) == a,
        a % 4 == 0,
    ensures
        forall|k: int|
            0 <= k < 4 ==> #[trigger] region_spec((a + k) as u32) == Region::Wram && bus_addr((a + k) as u32) == a + k
                && (a + k) as u32 as int % 0x10000 == a as int % 0x10000 + k,
        a as int % 0x10000 + 3 < 0x10000,
{
}

/// A word write at an aligned work ram address stores its four bytes there, low byte first.
#[verifier::spinoff_prover]
pub(crate) proof fn lemma_wram_word_write(b: BusView, a: u32, value: u32)
    requires
        region_spec(a) == Region::Wram,
        bus_addr(a) == a,
        a % 4 == 0,
    ensures
        b.write_u32(a, value) == (BusView {
            wram: b.wram.update(a as int % 0x10000, (value % 256) as u8).update(
                a as int % 0x10000 + 1,
                ((value / 256) % 256) as u8,
            ).update(a as int % 0x10000 + 2, ((value / 65536) % 256) as u8).update(
                a as int % 0x10000 + 3,
                (value / 16777216) as u8,
            ),
            ..b
        }),
{
    reveal(BusView::write_u32);
    let a1 = (a + 1) as u32;
    let a2 = (a + 2) as u32;
    let a3 = (a + 3) as u32;
    lemma_wram_neighbours(a);
    assert(region_spec((a + 1) as u32) == Region::Wram);
    assert(region_spec((a + 2) as u32) == Region::Wram);
    assert(region_spec((a + 3) as u32) == Region::Wram);
    let b1 = b.write_u8(a, (value % 256) as u8);
    let b2 = b1.write_u8(a1, ((value / 256) % 256) as u8);
    let b3 = b2.write_u8(a2, ((value / 65536) % 256) as u8);
    lemma_wram_access(b, a, (value % 256) as u8);
    lemma_wram_access(b1, a1, ((value / 256) % 256) as u8);
    lemma_wram_access(b2, a2, ((value / 65536) % 256) as u8);
    lemma_wram_access(b3, a3, (value / 16777216) as u8);
}

/// A word read at an aligned work ram address combines its four bytes, low byte first.
#[verifier::spinoff_prover]
pub(crate) proof fn lemma_wram_word_read(b: BusView, a: u32)
    requires
        region_spec(a) == Region::Wram,
        bus_addr(a) == a,
        a % 4 == 0,
    ensures
        b.read_u32(a) == (b.wram[a as int % 0x10000] + 256 * b.wram[a as int % 0x10000 + 1] + 65536
            * b.wram[a as int % 0x10000 + 2] + 16777216 * b.wram[a as int % 0x10000 + 3]) as u32,
{
    reveal(BusView::read_u32);
    let a1 = (a + 1) as u32;
    let a2 = (a + 2) as u32;
    let a3 = (a + 3) as u32;
    lemma_wram_neighbours(a);
    assert(region_spec((a + 1) as u32) == Region::Wram);
    assert(region_spec((a + 2) as u32) == Region::Wram);
    assert(region_spec((a + 3) as u32) == Region::Wram);
    lemma_wram_access(b, a, 0);
    lemma_wram_access(b, a1, 0);
    lemma_wram_access(b, a2, 0);
    lemma_wram_access(b, a3, 0);
}

/// A word written to work ram reads back as that word, little-endian in memory.
pub proof fn lemma_wram_word_round_trip(b: BusView, addr: u32, value: u32)
    requires
        b.valid(),
        region_spec(bus_addr(addr)) == Region::Wram,
    ensures
        b.write_u32(addr, value).read_u32(addr) == value,
        b.write_u32(addr, value).read_u8((bus_addr(addr) - bus_addr(addr) % 4) as u32) == value % 256,
{
    let a = (bus_addr(addr) - bus_addr(addr) % 4) as u32;
    assert(region_spec(a) == Region::Wram && bus_addr(a) == a && a % 4 == 0);
    assert(b.write_u32(addr, value) == b.write_u32(a, value)) by {
        reveal(BusView::write_u32);
    }
    let w = b.write_u32(a, value);
    assert(w.read_u32(addr) == w.read_u32(a)) by {
        reveal(BusView::read_u32);
    }
    lemma_wram_word_write(b, a, value);
    lemma_wram_word_read(w, a);
    lemma_wram_access(w, a, 0);
    lemma_wram_neighbours(a);
    lemma_word_bytes(value);
}

/// The rom cannot be written at any width.
pub proof fn lemma_rom_write_protected(b: BusView, addr: u32, value: u32)
    requires
        region_spec(bus_addr(addr)) == Region::CartRom,
    ensures
        b.write_u8(addr, value as u8) == b,
        b.write_u16(addr, value as u16) == b,
        b.write_u32(addr, value) == b,
{
    reveal(BusView::read_u8);
    reveal(BusView::write_u8);
    reveal(BusView::read_u16);
    reveal(BusView::write_u16);
    reveal(BusView::read_u32);
    reveal(BusView::write_u32);
    let a2 = (bus_addr(addr) - bus_addr(addr) % 2) as u32;
    let a4 = (bus_addr(addr) - bus_addr(addr) % 4) as u32;
    assert(region_spec(a2) == Region::CartRom && region_spec((a2 + 1) as u32) == Region::CartRom);
    assert(bus_addr(a2) == a2 && bus_addr((a2 + 1) as u32) == a2 + 1);
    assert(b.write_u8(a2, (value as u16 % 256) as u8) == b);
    assert(b.write_u8((a2 + 1) as u32, (value as u16 / 256) as u8) == b);
    assert(region_spec(a4) == Region::CartRom && region_spec((a4 + 1) as u32) == Region::CartRom);
    assert(region_spec((a4 + 2) as u32) == Region::CartRom && region_spec((a4 + 3) as u32) == Region::CartRom);
    assert(bus_addr(a4) == a4 && bus_addr((a4 + 1) as u32) == a4 + 1);
    assert(bus_addr((a4 + 2) as u32) == a4 + 2 && bus_addr((a4 + 3) as u32) == a4 + 3);
    assert(b.write_u8(a4, (value % 256) as u8) == b);
    assert(b.write_u8((a4 + 1) as u32, ((value / 256) % 256) as u8) == b);
    assert(b.write_u8((a4 + 2) as u32, ((value / 65536) % 256) as u8) == b);
    assert(b.write_u8((a4 + 3) as u32, (value / 16777216) as u8) == b);
}

/// The sound unit, the unmapped region and the expansion area read zero at every width and
/// ignore writes at every width.
pub proof fn lemma_unimplemented_regions(b: BusView, addr: u32, value: u32)
    requires
        region_spec(bus_addr(addr)) == Region::Vsu || region_spec(bus_addr(addr)) == Region::Unmapped
            || region_spec(bus_addr(addr)) == Region::Expansion,
    ensures
        b.read_u8(addr) == 0,
        b.read_u16(addr) == 0,
        b.read_u32(addr) == 0,
        b.write_u8(addr, value as u8) == b,
        b.write_u16(addr, value as u16) == b,
        b.write_u32(addr, value) == b,
{
    reveal(BusView::read_u8);
    reveal(BusView::write_u8);
    reveal(BusView::read_u16);
    reveal(BusView::write_u16);
    reveal(BusView::read_u32);
    reveal(BusView::write_u32);
}

/// The misc region's devices are never accessed as byte pairs: halfword and word accesses
/// there read zero and change nothing.
pub proof fn lemma_misc_needs_byte_access(b: BusView, addr: u32, value: u32)
    requires
        region_spec(bus_addr(addr)) == Region::Misc,
    ensures
        b.read_u16(addr) == 0,
        b.read_u32(addr) == 0,
        b.write_u16(addr, value as u16) == b,
        b.write_u32(addr, value) == b,
{
    reveal(BusView::read_u16);
    reveal(BusView::write_u16);
    reveal(BusView::read_u32);
    reveal(BusView::write_u32);
}

/// A halfword written to cartridge ram reads back, at the address and at every mirror of it.
pub proof fn lemma_sram_halfword_round_trip(b: BusView, addr: u32, other: u32, value: u16)
    requires
        b.valid(),
        b.cart.sram.len() >= 2,
        region_spec(bus_addr(addr)) == Region::CartRam,
        region_spec(bus_addr(other)) == Region::CartRam,
        bus_addr(addr) as int % b.cart.sram.len() as int == bus_addr(other) as int % b.cart.sram.len() as int,
    ensures
        b.write_u16(addr, value).read_u16(other) == value,
{
    reveal(BusView::read_u8);
    reveal(BusView::write_u8);
    reveal(BusView::read_u16);
    reveal(BusView::write_u16);
    reveal(BusView::read_u32);
    reveal(BusView::write_u32);
    let len = b.cart.sram.len() as int;
    let a = (bus_addr(addr) - bus_addr(addr) % 2) as u32;
    let o = (bus_addr(other) - bus_addr(other) % 2) as u32;
    assert(bus_addr(a) == a && bus_addr((a + 1) as u32) == a + 1);
    assert(bus_addr(o) == o && bus_addr((o + 1) as u32) == o + 1);
    assert(region_spec(a) == Region::CartRam && region_spec((a + 1) as u32) == Region::CartRam);
    assert(region_spec(o) == Region::CartRam && region_spec((o + 1) as u32) == Region::CartRam);
    lemma_even_mod(bus_addr(addr) as int, bus_addr(other) as int, len);
}

/// Reducing modulo a multiple of `k` keeps the remainder modulo `k`.
proof fn lemma_mod_divisor(x: int, len: int, k: int)
    requires
        x >= 0,
        k > 0,
        len >= k,
        len % k == 0,
    ensures
        (x % len) % k == x % k,
{
    let q = len / k;
    vstd::arithmetic::div_mod::lemma_fundamental_div_mod(len, k);
    assert(len == k * q);
    vstd::arithmetic::div_mod::lemma_fundamental_div_mod(x, len);
    vstd::arithmetic::mul::lemma_mul_is_associative(k, q, x / len);
    vstd::arithmetic::div_mod::lemma_mod_multiples_vanish(q * (x / len), x % len, k);
}

/// In a memory whose length is an even power of two, addresses that agree modulo the length
/// keep agreeing once rounded down to even, and the odd byte after follows the even one.
proof fn lemma_even_mod(x: int, y: int, len: int)
    requires
        vstd::arithmetic::power2::is_pow2(len),
        len >= 2,
        x >= 0,
        y >= 0,
        x % len == y % len,
    ensures
        (x - x % 2) % len == (y - y % 2) % len,
        (x - x % 2 + 1) % len == (y - y % 2 + 1) % len,
        (x - x % 2 + 1) % len != (x - x % 2) % len,
{
    reveal(vstd::arithmetic::power2::is_pow2);
    assert(len % 2 == 0);
    lemma_mod_divisor(x, len, 2);
    lemma_mod_divisor(y, len, 2);
    lemma_mod_divisor(x - x % 2, len, 2);
    vstd::arithmetic::div_mod::lemma_sub_mod_noop(x, x % 2, len);
    vstd::arithmetic::div_mod::lemma_sub_mod_noop(y, y % 2, len);
    vstd::arithmetic::div_mod::lemma_small_mod((x % 2) as nat, len as nat);
    vstd::arithmetic::div_mod::lemma_small_mod((y % 2) as nat, len as nat);
    vstd::arithmetic::div_mod::lemma_add_mod_noop(x - x % 2, 1, len);
    vstd::arithmetic::div_mod::lemma_add_mod_noop(y - y % 2, 1, len);
    vstd::arithmetic::div_mod::lemma_mod_bound(x - x % 2, len);
    vstd::arithmetic::div_mod::lemma_small_mod(1, len as nat);
    let r = (x - x % 2) % len;
    assert(r % 2 == 0);
    assert(r + 1 < len);
    vstd::arithmetic::div_mod::lemma_small_mod((r + 1) as nat, len as nat);
}

/// A power of two no larger than a region divides the bus's address range.
proof fn lemma_pow2_divides_bus(len: int)
    requires
        vstd::arithmetic::power2::is_pow2(len),
        len <= 0x0100_0000,
    ensures
        len > 0,
        0x0800_0000int % len == 0,
{
    vstd::arithmetic::power2::is_pow2_equiv(len);
    let k = choose|k: nat| vstd::arithmetic::power::pow(2, k) == len;
    vstd::arithmetic::power2::lemma_pow2(k);
    assert(vstd::arithmetic::power2::pow2(k) == len);
    vstd::arithmetic::power2::lemma2_to64();
    if k >= 25 {
        vstd::arithmetic::power2::lemma_pow2_strictly_increases(24, k);
        assert(false);
    }
    vstd::arithmetic::power2::lemma_pow2_pos(k);
    vstd::arithmetic::power2::lemma_pow2_adds(k, (27 - k) as nat);
    let m = vstd::arithmetic::power2::pow2((27 - k) as nat) as int;
    vstd::arithmetic::mul::lemma_mul_is_commutative(len, m);
    vstd::arithmetic::div_mod::lemma_mod_multiples_basic(m, len);
}

/// Reads by region: the upper address bits are ignored; the sound unit, the unmapped region
/// and the expansion area read zero; work ram reads the byte at the low sixteen bits; the game
/// pak's memories read through their own mirroring.
pub proof fn lemma_read_u8_by_region(b: BusView, addr: u32)
    requires
        b.valid(),
    ensures
        b.read_u8(addr) == b.read_u8(bus_addr(addr)),
        region_spec(addr) == Region::Vsu || region_spec(addr) == Region::Unmapped || region_spec(addr)
            == Region::Expansion ==> b.read_u8(addr) == 0,
        region_spec(addr) == Region::Wram ==> b.read_u8(addr) == b.wram[addr as int % 0x10000],
        region_spec(addr) == Region::CartRom ==> b.read_u8(addr) == b.cart.read_rom(addr),
        region_spec(addr) == Region::CartRam ==> b.read_u8(addr) == b.cart.read_sram(addr),
{
    reveal(BusView::read_u8);
    let a = bus_addr(addr);
    assert(region_spec(a) == region_spec(addr));
    lemma_mod_divisor(addr as int, 0x0800_0000, 0x10000);
    lemma_pow2_divides_bus(b.cart.rom.len() as int);
    lemma_mod_divisor(addr as int, 0x0800_0000, b.cart.rom.len() as int);
    if b.cart.sram.len() > 0 {
        lemma_pow2_divides_bus(b.cart.sram.len() as int);
        lemma_mod_divisor(addr as int, 0x0800_0000, b.cart.sram.len() as int);
    }
}

/// Writes by region: the rom, the sound unit, the unmapped region and the expansion area drop
/// them; in work ram the byte at the low sixteen bits takes the value and nothing else changes,
/// so every mirror of the address reads it back.
pub proof fn lemma_write_u8_by_region(b: BusView, addr: u32, value: u8)
    requires
        b.valid(),
    ensures
        region_spec(addr) == Region::CartRom || region_spec(addr) == Region::Vsu || region_spec(addr)
            == Region::Unmapped || region_spec(addr) == Region::Expansion ==> b.write_u8(addr, value) == b,
        region_spec(addr) == Region::Wram ==> b.write_u8(addr, value) == (BusView {
            wram: b.wram.update(addr as int % 0x10000, value),
            ..b
        }),
        region_spec(addr) == Region::Wram ==> forall|other: u32|
            region_spec(other) == Region::Wram && other as int % 0x10000 == addr as int % 0x10000 ==> #[trigger] b.write_u8(
                addr,
                value,
            ).read_u8(other) == value,
{
    reveal(BusView::read_u8);
    reveal(BusView::write_u8);
    let a = bus_addr(addr);
    assert(region_spec(a) == region_spec(addr));
    lemma_mod_divisor(addr as int, 0x0800_0000, 0x10000);
    assert forall|other: u32|
        region_spec(other) == Region::Wram && other as int % 0x10000 == addr as int % 0x10000
            && region_spec(addr) == Region::Wram implies #[trigger] b.write_u8(addr, value).read_u8(other) == value by {
        lemma_mod_divisor(other as int, 0x0800_0000, 0x10000);
        assert(region_spec(bus_addr(other)) == region_spec(other));
    }
}

/// An address with its upper bits dropped and rounded down to a multiple of `k` stays in the
/// region, and so do the `k` bytes from there.
proof fn lemma_round_down_region(addr: u32, k: int)
    requires
        k == 2 || k == 4,
    ensures
        ({
            let a = bus_addr(addr) as int - (bus_addr(addr) as int) % k;
            &&& a % k == 0
            &&& forall|j: int| 0 <= j < k ==> #[trigger] region_spec((a + j) as u32) == region_spec(addr) && bus_addr(
                (a + j) as u32,
            ) == a + j
        }),
{
}

/// Word reads: the address drops its upper bits and rounds down to a multiple of four; memory
/// reads the four bytes there, lowest first; the devices and the unimplemented regions read
/// zero.
pub proof fn lemma_read_u32_by_region(b: BusView, addr: u32)
    ensures
        ({
            let a = (bus_addr(addr) - bus_addr(addr) % 4) as u32;
            &&& b.read_u32(addr) == b.read_u32(a)
            &&& region_spec(addr).is_memory_spec() ==> b.read_u32(addr) == (b.read_u8(a) + 256 * b.read_u8(
                (a + 1) as u32,
            ) + 65536 * b.read_u8((a + 2) as u32) + 16777216 * b.read_u8((a + 3) as u32)) as u32
            &&& region_spec(addr) == Region::Vsu || region_spec(addr) == Region::Misc || region_spec(addr)
                == Region::Unmapped || region_spec(addr) == Region::Expansion ==> b.read_u32(addr) == 0
        }),
{
    let a = (bus_addr(addr) - bus_addr(addr) % 4) as u32;
    lemma_round_down_region(addr, 4);
    assert(region_spec((a + 0) as u32) == region_spec(addr));
    assert(b.read_u32(addr) == b.read_u32(a)) by {
        reveal(BusView::read_u32);
    }
    assert(region_spec(addr).is_memory_spec() ==> b.read_u32(a) == (b.read_u8(a) + 256 * b.read_u8(
        (a + 1) as u32,
    ) + 65536 * b.read_u8((a + 2) as u32) + 16777216 * b.read_u8((a + 3) as u32)) as u32) by {
        reveal(BusView::read_u32);
    }
    assert(region_spec(addr) == Region::Vsu || region_spec(addr) == Region::Misc || region_spec(addr)
        == Region::Unmapped || region_spec(addr) == Region::Expansion ==> b.read_u32(a) == 0) by {
        reveal(BusView::read_u32);
    }
}

/// Halfword writes: the address drops its upper bits and rounds down to even; the rom, the
/// devices and the unimplemented regions drop them; in work ram the two bytes there take the
/// value, low byte first, the halfword reads back, and every other byte stays.
pub proof fn lemma_write_u16_by_region(b: BusView, addr: u32, value: u16)
    requires
        b.valid(),
    ensures
        ({
            let a = (bus_addr(addr) - bus_addr(addr) % 2) as u32;
            let w = b.write_u16(addr, value);
            &&& region_spec(addr) == Region::CartRom || region_spec(addr) == Region::Vsu || region_spec(addr)
                == Region::Misc || region_spec(addr) == Region::Unmapped || region_spec(addr) == Region::Expansion
                ==> w == b
            &&& region_spec(addr) == Region::Wram ==> {
                &&& w.read_u16(addr) == value
                &&& w.read_u8(a) == value % 256
                &&& w.read_u8((a + 1) as u32) == value / 256
                &&& w == (BusView {
                    wram: b.wram.update(a as int % 0x10000, (value % 256) as u8).update(
                        (a + 1) as int % 0x10000,
                        (value / 256) as u8,
                    ),
                    ..b
                })
            }
        }),
{
    let a = (bus_addr(addr) - bus_addr(addr) % 2) as u32;
    assert(region_spec(a) == region_spec(addr));
    assert(region_spec((a + 1) as u32) == region_spec(addr));
    assert(bus_addr(a) == a && bus_addr((a + 1) as u32) == a + 1);
    if region_spec(addr) == Region::Misc || region_spec(addr) == Region::Vsu || region_spec(addr)
        == Region::Unmapped || region_spec(addr) == Region::Expansion {
        reveal(BusView::write_u16);
    }
    if region_spec(addr) == Region::CartRom {
        lemma_rom_write_protected(b, addr, value as u32);
        assert((value as u32) as u16 == value);
    }
    if region_spec(addr) == Region::Wram {
        lemma_wram_halfword_round_trip(b, addr, value);
        reveal(BusView::write_u16);
        let b1 = b.write_u8(a, (value % 256) as u8);
        lemma_wram_access(b, a, (value % 256) as u8);
        lemma_wram_access(b1, (a + 1) as u32, (value / 256) as u8);
        let w = b.write_u16(addr, value);
        lemma_wram_access(w, (a + 1) as u32, 0);
    }
}

} // verus!
