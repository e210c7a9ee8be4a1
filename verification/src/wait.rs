use vstd::prelude::*;

verus! {

pub const WCR: u32 = 0x0200_0024;

pub const WCR_ROM1W: u8 = 0x01;
pub const WCR_EXP1W: u8 = 0x02;

const REGISTER_MASK: u32 = 0x3F;
const WCR_OFFSET: u32 = 0x24;
pub const WCR_UNUSED: u8 = 0xFC;

/// The wait control register: one wait state or two for the rom and the expansion area.
#[derive(Debug, Clone, Copy, PartialEq, Eq)]
pub struct WaitController {
    rom_fast: bool,
    expansion_fast: bool,
}

/// What the wait controller holds: whether each area runs with a single wait state.
pub ghost struct WaitView {
    pub rom_fast: bool,
    pub expansion_fast: bool,
}

impl View for WaitController {
    type V = WaitView;

    closed spec fn view(&self) -> WaitView {
        WaitView { rom_fast: self.rom_fast, expansion_fast: self.expansion_fast }
    }
}

impl WaitView {
    /// The byte the register reads as: unused bits set, then the two speed bits.
    pub open spec fn read_spec(self) -> u8 {
        (WCR_UNUSED as int + (if self.rom_fast { 1int } else { 0 }) + (if self.expansion_fast { 2int } else { 0 })) as u8
    }
}

impl WaitController {
    /// A controller at reset: both areas use the slower timing.
    pub fn new() -> (r: Self)
        ensures
            r@ == (WaitView { rom_fast: false, expansion_fast: false }),
    {
        WaitController { rom_fast: false, expansion_fast: false }
    }

    /// Whether the register at this address (within the misc region) is the wait control register.
    pub fn handles(addr: u32) -> (r: bool)
        ensures
            r == (addr % 64 == 0x24),
    {
        proof {
            crate::bits::lemma_mask_u32(addr);
        }
        addr & REGISTER_MASK == WCR_OFFSET
    }

    /// Wait states for rom accesses: one when the bit is set, two when it is clear.
    pub fn rom_waits(&self) -> (r: u32)
        ensures
            r == if self@.rom_fast { 1u32 } else { 2u32 },
    {
        if self.rom_fast { 1 } else { 2 }
    }

    /// Wait states for expansion accesses: one when the bit is set, two when it is clear.
    pub fn expansion_waits(&self) -> (r: u32)
        ensures
            r == if self@.expansion_fast { 1u32 } else { 2u32 },
    {
        if self.expansion_fast { 1 } else { 2 }
    }

    /// Reads the register; the unused bits always read as set.
    pub fn read(&self) -> (r: u8)
        ensures
            r == self@.read_spec(),
    {
        let mut value: u8 = WCR_UNUSED;
        if self.rom_fast {
            value = value + WCR_ROM1W;
        }
        if self.expansion_fast {
            value = value + WCR_EXP1W;
        }
        value
    }

    /// Writes the register: each speed bit takes the corresponding bit of the value.
    pub fn write(&mut self, value: u8)
        ensures
            final(self)@ == (WaitView { rom_fast: value % 2 == 1, expansion_fast: (value / 2) % 2 == 1 }),
    {
        proof {
            crate::bits::lemma_u8_bits(value);
        }
        self.rom_fast = value & WCR_ROM1W != 0;
        self.expansion_fast = value & WCR_EXP1W != 0;
    }
}

impl Default for WaitController {
    fn default() -> (r: Self)
        ensures
            r@ == (WaitView { rom_fast: false, expansion_fast: false }),
    {
        Self::new()
    }
}

/// Whatever is written, the register reads back the written speed bits with the unused bits set.
pub proof fn lemma_write_read(w: WaitView, value: u8)
    ensures
        (WaitView { rom_fast: value % 2 == 1, expansion_fast: (value / 2) % 2 == 1 }).read_spec()
            == 0xFC + value % 4,
{
}

} // verus!
