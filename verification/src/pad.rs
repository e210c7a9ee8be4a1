use vstd::prelude::*;
use crate::timer::bit;

verus! {

pub const SDLR: u32 = 0x0200_0010;
pub const SDHR: u32 = 0x0200_0014;
pub const SCR: u32 = 0x0200_0028;

pub const SCR_S_ABT_DIS: u8 = 0x01;
pub const SCR_SI_STAT: u8 = 0x02;
pub const SCR_HW_SI: u8 = 0x04;
pub const SCR_SOFT_CK: u8 = 0x10;
pub const SCR_PARA_SI: u8 = 0x20;
pub const SCR_K_INT_INH: u8 = 0x80;

pub const PWR: u16 = 0x0001;
pub const SGN: u16 = 0x0002;
pub const A: u16 = 0x0004;
pub const B: u16 = 0x0008;
pub const RT: u16 = 0x0010;
pub const LT: u16 = 0x0020;
pub const RU: u16 = 0x0040;
pub const RR: u16 = 0x0080;
pub const LR: u16 = 0x0100;
pub const LL: u16 = 0x0200;
pub const LD: u16 = 0x0400;
pub const LU: u16 = 0x0800;
pub const STA: u16 = 0x1000;
pub const SEL: u16 = 0x2000;
pub const RL: u16 = 0x4000;
pub const RD: u16 = 0x8000;

// 512 us at 20 mhz
pub const HARDWARE_READ_CYCLES: u64 = 10_240;

pub const BUTTON_COUNT: u32 = 16;
const REGISTER_MASK: u32 = 0x3F;
pub const SCR_UNUSED: u8 = 0x48;

/// The game pad interface: a 16-bit shift register read by hardware or clocked by software.
#[derive(Debug, Clone, Copy, PartialEq, Eq)]
pub struct GamePad {
    buttons: u16,
    data: u16,
    shift: u16,
    shifted: u32,
    clock: bool,
    latched: bool,
    abort: bool,
    reading: bool,
    elapsed: u64,
    interrupt_inhibited: bool,
    pending: bool,
}

/// The pad's state: the buttons held, the data registers, and the serial interface.
pub ghost struct PadView {
    pub buttons: u16,
    pub data: u16,
    pub shift: u16,
    pub shifted: u32,
    pub clock: bool,
    pub latched: bool,
    pub abort: bool,
    pub reading: bool,
    pub elapsed: u64,
    pub interrupt_inhibited: bool,
    pub pending: bool,
}

impl View for GamePad {
    type V = PadView;

    closed spec fn view(&self) -> PadView {
        PadView {
            buttons: self.buttons,
            data: self.data,
            shift: self.shift,
            shifted: self.shifted,
            clock: self.clock,
            latched: self.latched,
            abort: self.abort,
            reading: self.reading,
            elapsed: self.elapsed,
            interrupt_inhibited: self.interrupt_inhibited,
            pending: self.pending,
        }
    }
}

/// The key interrupt fires for a press in bits 15 through 4 when bits 3 through 1 are clear.
pub open spec fn raises_key_interrupt(data: u16) -> bool {
    data >= 16 && (data / 2) % 8 == 0
}

impl PadView {
    /// A pad with only the signature bit held and no read in progress.
    pub open spec fn reset() -> PadView {
        PadView {
            buttons: SGN,
            data: 0,
            shift: 0,
            shifted: 0,
            clock: false,
            latched: false,
            abort: false,
            reading: false,
            elapsed: 0,
            interrupt_inhibited: false,
            pending: false,
        }
    }

    /// A hardware read in progress never has a full 512 us behind it.
    pub open spec fn inv(self) -> bool {
        self.elapsed < HARDWARE_READ_CYCLES && self.shifted <= BUTTON_COUNT
    }

    pub open spec fn raise_key_interrupt(self) -> PadView {
        if !self.interrupt_inhibited && raises_key_interrupt(self.data) {
            PadView { pending: true, ..self }
        } else {
            self
        }
    }

    /// A hardware read that has run its course: the whole word lands at once.
    pub open spec fn complete_read(self) -> PadView {
        PadView {
            reading: false,
            elapsed: 0,
            shift: self.buttons,
            shifted: BUTTON_COUNT,
            data: self.buttons,
            ..self
        }.raise_key_interrupt()
    }

    /// The state after `cycles` more cycles.
    pub open spec fn after_cycles(self, cycles: u64) -> PadView {
        if !self.reading {
            self
        } else if self.elapsed + cycles < HARDWARE_READ_CYCLES {
            PadView { elapsed: (self.elapsed + cycles) as u64, ..self }
        } else {
            self.complete_read()
        }
    }

    /// One software clock: the next button bit joins the shift register; the sixteenth
    /// completes the word.
    pub open spec fn clock_bit(self) -> PadView {
        if self.shifted >= BUTTON_COUNT {
            self
        } else {
            let shift = self.shift | (self.buttons & (1u16 << self.shifted));
            let shifted = (self.shifted + 1) as u32;
            PadView {
                shift,
                shifted,
                data: if shifted == BUTTON_COUNT { shift } else { self.data },
                ..self
            }
        }
    }

    /// The control register as read.
    pub open spec fn control(self) -> u8 {
        (0x4C + bit(self.interrupt_inhibited, 0x80) + bit(self.latched, 0x20) + bit(self.clock, 0x10)
            + bit(self.reading, 0x02) + bit(self.abort, 0x01)) as u8
    }

    /// A write to the control register.
    pub open spec fn write_control(self, value: u8) -> PadView {
        let inhibited = (value / 128) % 2 == 1;
        let latched = (value / 32) % 2 == 1;
        let clock = (value / 16) % 2 == 1;
        let hw_si = (value / 4) % 2 == 1;
        let abort = value % 2 == 1;
        let s1 = PadView {
            interrupt_inhibited: inhibited,
            pending: self.pending && !inhibited,
            ..self
        };
        let s2 = if latched { PadView { shift: 0, shifted: 0, latched, ..s1 } } else { PadView { latched, ..s1 } };
        // the pad sees the inverse of what is written, so clearing soft-ck clocks a bit
        let s3 = if !latched && self.clock && !clock { s2.clock_bit() } else { s2 };
        let s4 = PadView { clock, ..s3 };
        let s5 = if hw_si && !s4.reading { PadView { reading: true, elapsed: 0, ..s4 } } else { s4 };
        if abort {
            PadView { abort, reading: false, elapsed: 0, ..s5 }
        } else {
            PadView { abort, ..s5 }
        }
    }

    /// A byte read of a pad register; anything but the three registers reads zero.
    pub open spec fn read(self, addr: u32) -> u8 {
        let offset = addr % 64;
        if offset == 0x10 {
            (self.data % 256) as u8
        } else if offset == 0x14 {
            (self.data / 256) as u8
        } else if offset == 0x28 {
            self.control()
        } else {
            0
        }
    }

    /// A byte write: only the control register takes writes.
    pub open spec fn write(self, addr: u32, value: u8) -> PadView {
        if addr % 64 == 0x28 {
            self.write_control(value)
        } else {
            self
        }
    }
}

impl GamePad {
    /// A pad with only the signature bit held and no read in progress.
    pub fn new() -> (r: Self)
        ensures
            r@ == PadView::reset(),
    {
        GamePad {
            buttons: SGN,
            data: 0,
            shift: 0,
            shifted: 0,
            clock: false,
            latched: false,
            abort: false,
            reading: false,
            elapsed: 0,
            interrupt_inhibited: false,
            pending: false,
        }
    }

    /// Whether the register at this address (within the misc region) belongs to the pad.
    pub fn handles(addr: u32) -> (r: bool)
        ensures
            r == (addr % 64 == 0x10 || addr % 64 == 0x14 || addr % 64 == 0x28),
    {
        proof {
            crate::bits::lemma_mask_u32(addr);
        }
        let offset = addr & REGISTER_MASK;
        offset == 0x10 || offset == 0x14 || offset == 0x28
    }

    // a standard pad always reports sgn, which is why the key interrupt can never fire with one
    /// Sets which buttons are held.
    pub fn set_buttons(&mut self, buttons: u16)
        ensures
            final(self)@ == (PadView { buttons, ..old(self)@ }),
    {
        self.buttons = buttons;
    }

    /// The buttons held.
    pub fn buttons(&self) -> (r: u16)
        ensures
            r == self@.buttons,
    {
        self.buttons
    }

    /// The data registers as one word.
    pub fn data(&self) -> (r: u16)
        ensures
            r == self@.data,
    {
        self.data
    }

    /// Whether a hardware read is in progress.
    pub fn reading(&self) -> (r: bool)
        ensures
            r == self@.reading,
    {
        self.reading
    }

    /// Whether the key interrupt is waiting to be taken.
    pub fn interrupt_pending(&self) -> (r: bool)
        ensures
            r == self@.pending,
    {
        self.pending
    }

    /// Whether the pad has an interrupt pending or could raise one when its read completes.
    pub fn may_raise(&self) -> (r: bool)
        ensures
            r == (self@.pending || (self@.reading && !self@.interrupt_inhibited)),
    {
        self.pending || (self.reading && !self.interrupt_inhibited)
    }

    /// Runs the pad for `cycles` cycles; a hardware read lands after 512 us.
    pub fn tick(&mut self, cycles: u64)
        requires
            old(self)@.inv(),
        ensures
            final(self)@.inv(),
            final(self)@ == old(self)@.after_cycles(cycles),
    {
        if !self.reading {
            return;
        }

        if cycles >= HARDWARE_READ_CYCLES - self.elapsed {
            self.reading = false;
            self.elapsed = 0;
            self.shift = self.buttons;
            self.shifted = BUTTON_COUNT;
            self.data = self.buttons;
            self.raise_key_interrupt();
            return;
        }

        self.elapsed = self.elapsed + cycles;
    }

    /// Reads one of the pad's registers.
    pub fn read(&self, addr: u32) -> (r: u8)
        ensures
            r == self@.read(addr),
    {
        proof {
            crate::bits::lemma_mask_u32(addr);
        }
        let offset = addr & REGISTER_MASK;
        if offset == 0x10 {
            (self.data % 256) as u8
        } else if offset == 0x14 {
            (self.data / 256) as u8
        } else if offset == 0x28 {
            self.control()
        } else {
            0
        }
    }

    /// Writes one of the pad's registers; the data registers ignore writes.
    pub fn write(&mut self, addr: u32, value: u8)
        requires
            old(self)@.inv(),
        ensures
            final(self)@.inv(),
            final(self)@ == old(self)@.write(addr, value),
    {
        proof {
            crate::bits::lemma_mask_u32(addr);
        }
        if addr & REGISTER_MASK == 0x28 {
            self.write_control(value);
        }
    }

    fn control(&self) -> (r: u8)
        ensures
            r == self@.control(),
    {
        let mut value: u8 = SCR_UNUSED + SCR_HW_SI;
        if self.interrupt_inhibited {
            value = value + SCR_K_INT_INH;
        }
        if self.latched {
            value = value + SCR_PARA_SI;
        }
        if self.clock {
            value = value + SCR_SOFT_CK;
        }
        if self.reading {
            value = value + SCR_SI_STAT;
        }
        if self.abort {
            value = value + SCR_S_ABT_DIS;
        }
        value
    }

    fn write_control(&mut self, value: u8)
        requires
            old(self)@.inv(),
        ensures
            final(self)@.inv(),
            final(self)@ == old(self)@.write_control(value),
    {
        proof {
            crate::bits::lemma_u8_bits(value);
        }
        let was_clock = self.clock;
        self.interrupt_inhibited = value & SCR_K_INT_INH != 0;
        if self.interrupt_inhibited {
            self.pending = false;
        }

        let latched = value & SCR_PARA_SI != 0;
        if latched {
            self.shift = 0;
            self.shifted = 0;
        }
        self.latched = latched;

        let clock = value & SCR_SOFT_CK != 0;
        if !latched && was_clock && !clock {
            self.clock_bit();
        }
        self.clock = clock;

        if value & SCR_HW_SI != 0 && !self.reading {
            self.reading = true;
            self.elapsed = 0;
        }

        self.abort = value & SCR_S_ABT_DIS != 0;
        if self.abort {
            self.reading = false;
            self.elapsed = 0;
        }
    }

    fn clock_bit(&mut self)
        requires
            old(self)@.shifted <= BUTTON_COUNT,
        ensures
            final(self)@ == old(self)@.clock_bit(),
    {
        if self.shifted >= BUTTON_COUNT {
            return;
        }

        self.shift = self.shift | (self.buttons & (1u16 << self.shifted));
        self.shifted = self.shifted + 1;

        if self.shifted == BUTTON_COUNT {
            self.data = self.shift;
        }
    }

    fn raise_key_interrupt(&mut self)
        ensures
            final(self)@ == old(self)@.raise_key_interrupt(),
    {
        if self.interrupt_inhibited {
            return;
        }
        if self.data >= 16 && (self.data / 2) % 8 == 0 {
            self.pending = true;
        }
    }
}

impl Default for GamePad {
    fn default() -> (r: Self)
        ensures
            r@ == PadView::reset(),
    {
        Self::new()
    }
}

/// A software clock pulse: soft-ck written set, then clear.
pub open spec fn software_clock(p: PadView) -> PadView {
    p.write(SCR, SCR_SOFT_CK).write(SCR, 0)
}

/// `n` software clock pulses in a row.
pub open spec fn software_clocks(p: PadView, n: nat) -> PadView
    decreases n,
{
    if n == 0 {
        p
    } else {
        software_clocks(software_clock(p), (n - 1) as nat)
    }
}

/// Latching the pad for a software read: para/si written set, then clear.
pub open spec fn latch(p: PadView) -> PadView {
    p.write(SCR, SCR_PARA_SI).write(SCR, 0)
}

/// The low `k` bits of a halfword.
pub open spec fn low_bits(k: u32) -> u16 {
    ((1u16 << k) - 1) as u16
}

proof fn lemma_shift_in_bit(b: u16, k: u32)
    by (bit_vector)
    requires
        k < 16,
    ensures
        (b & ((1u16 << k) - 1) as u16) | (b & (1u16 << k)) == b & ((1u16 << ((k + 1) as u32)) - 1) as u16,
        b & ((1u16 << 16u32) - 1) as u16 == b,
        b & ((1u16 << 0u32) - 1) as u16 == 0,
{
}

proof fn lemma_clocks(q: PadView, n: nat)
    requires
        q.inv(),
        !q.latched,
        !q.clock,
        q.shifted + n <= 16,
        q.shift == q.buttons & low_bits(q.shifted),
    ensures
        software_clocks(q, n).shifted == q.shifted + n,
        software_clocks(q, n).shift == q.buttons & low_bits((q.shifted + n) as u32),
        software_clocks(q, n).buttons == q.buttons,
        software_clocks(q, n).data == if q.shifted + n == 16 && n > 0 { q.buttons } else { q.data },
        software_clocks(q, n).inv(),
    decreases n,
{
    if n > 0 {
        let next = software_clock(q);
        lemma_shift_in_bit(q.buttons, q.shifted);
        assert(next.shifted == q.shifted + 1);
        assert(next.shift == q.buttons & low_bits((q.shifted + 1) as u32));
        lemma_clocks(next, (n - 1) as nat);
    }
}

/// A software read, latch then sixteen clock pulses, shifts the whole button word into the data
/// registers; before the sixteenth pulse the data registers still hold their old value.
pub proof fn lemma_software_read(p: PadView, n: nat)
    requires
        p.inv(),
        n <= 16,
    ensures
        software_clocks(latch(p), n).data == if n == 16 { p.buttons } else { p.data },
{
    lemma_shift_in_bit(p.buttons, 0);
    lemma_shift_in_bit(p.buttons, 15);
    lemma_clocks(latch(p), n);
}

/// A hardware read lands the whole button word after 512 us and ends the read.
pub proof fn lemma_hardware_read(p: PadView)
    requires
        p.inv(),
        !p.reading,
    ensures
        p.write(SCR, SCR_HW_SI).after_cycles(HARDWARE_READ_CYCLES).data == p.buttons,
        !p.write(SCR, SCR_HW_SI).after_cycles(HARDWARE_READ_CYCLES).reading,
        p.write(SCR, SCR_HW_SI).after_cycles((HARDWARE_READ_CYCLES - 1) as u64).reading,
{
}

/// A pad that reports the signature bit never raises the key interrupt when a read lands.
pub proof fn lemma_signature_blocks_key_interrupt(p: PadView)
    requires
        (p.buttons / 2) % 2 == 1,
    ensures
        p.complete_read().pending == p.pending,
{
}

} // verus!
