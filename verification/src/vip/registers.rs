use vstd::prelude::*;
use vstd::array::spec_array_update;

verus! {

pub const INTPND: u32 = 0x0005_F800;
pub const INTENB: u32 = 0x0005_F802;
pub const INTCLR: u32 = 0x0005_F804;
pub const DPSTTS: u32 = 0x0005_F820;
pub const DPCTRL: u32 = 0x0005_F822;
pub const BRTA: u32 = 0x0005_F824;
pub const BRTB: u32 = 0x0005_F826;
pub const BRTC: u32 = 0x0005_F828;
pub const REST: u32 = 0x0005_F82A;
pub const FRMCYC: u32 = 0x0005_F82E;
pub const CTA: u32 = 0x0005_F830;
pub const XPSTTS: u32 = 0x0005_F840;
pub const XPCTRL: u32 = 0x0005_F842;
pub const VER: u32 = 0x0005_F844;
pub const SPT0: u32 = 0x0005_F848;
pub const GPLT0: u32 = 0x0005_F860;
pub const JPLT0: u32 = 0x0005_F868;
pub const BKCOL: u32 = 0x0005_F870;

pub const INT_TIMEERR: u16 = 0x8000;
pub const INT_XPEND: u16 = 0x4000;
pub const INT_SBHIT: u16 = 0x2000;
pub const INT_FRAMESTART: u16 = 0x0010;
pub const INT_GAMESTART: u16 = 0x0008;
pub const INT_RFBEND: u16 = 0x0004;
pub const INT_LFBEND: u16 = 0x0002;
pub const INT_SCANERR: u16 = 0x0001;

pub const INT_MASK: u16 = 0xE01F;

pub const DP_LOCK: u16 = 0x0400;
pub const DP_SYNCE: u16 = 0x0200;
pub const DP_RE: u16 = 0x0100;
pub const DP_FCLK: u16 = 0x0080;
pub const DP_SCANRDY: u16 = 0x0040;
pub const DP_R1BSY: u16 = 0x0020;
pub const DP_L1BSY: u16 = 0x0010;
pub const DP_R0BSY: u16 = 0x0008;
pub const DP_L0BSY: u16 = 0x0004;
pub const DP_DISP: u16 = 0x0002;
pub const DP_DPRST: u16 = 0x0001;

pub const XP_SBOUT: u16 = 0x8000;
pub const XP_OVERTIME: u16 = 0x0010;
pub const XP_F1BSY: u16 = 0x0008;
pub const XP_F0BSY: u16 = 0x0004;
pub const XP_XPEN: u16 = 0x0002;
pub const XP_XPRST: u16 = 0x0001;

pub const SB_SHIFT: u32 = 8;
pub const SB_MASK: u16 = 0x1F;

/// Interrupts a display reset clears.
pub const DPRST_CLEARS: u16 = 0x801F;
/// Interrupts a drawing reset clears.
pub const XPRST_CLEARS: u16 = 0xE000;

pub const VER_VALUE: u16 = 2;

/// The vip's register file.
#[derive(Debug, Clone, Copy, PartialEq, Eq)]
pub struct Registers {
    pub pending: u16,
    pub enabled: u16,

    pub lock: bool,
    pub sync_enabled: bool,
    pub refresh: bool,
    pub display_enabled: bool,
    pub frame_clock: bool,
    pub scan_ready: bool,
    pub displaying: u16,

    pub draw_enabled: bool,
    pub overtime: bool,
    pub row_group_out: bool,
    pub row_group: u16,
    pub row_group_compare: u16,
    pub drawing: u16,

    pub brightness: [u16; 3],
    pub rest: u16,
    pub frame_cycle: u16,
    pub column_start: u16,
    pub object_end: [u16; 4],
    pub bg_palette: [u16; 4],
    pub obj_palette: [u16; 4],
    pub background: u16,
}

/// `value` when `b` holds, else zero.
pub open spec fn when(b: bool, value: u16) -> u16 {
    if b { value } else { 0 }
}

fn when_exec(b: bool, value: u16) -> (r: u16)
    ensures
        r == when(b, value),
{
    if b { value } else { 0 }
}

/// Which of four consecutive halfword registers an address names.
pub open spec fn index_spec(addr: u32, base: u32) -> int {
    ((addr - base) / 2) as int
}

/// Whether `addr` is one of the four halfword registers starting at `base`.
pub open spec fn in_group(addr: u32, base: u32) -> bool {
    base <= addr <= base + 6 && addr % 2 == 0
}

impl Registers {
    /// Whether an enabled interrupt is pending.
    pub open spec fn interrupt_pending_spec(&self) -> bool {
        self.pending & self.enabled != 0
    }

    /// The display status register.
    pub open spec fn display_status_spec(&self) -> u16 {
        (self.displaying & 0x003C) | when(self.lock, DP_LOCK) | when(self.sync_enabled, DP_SYNCE)
            | when(self.refresh, DP_RE) | when(self.frame_clock, DP_FCLK) | when(
            self.scan_ready,
            DP_SCANRDY,
        ) | when(self.display_enabled, DP_DISP)
    }

    /// The drawing status register.
    pub open spec fn draw_status_spec(&self) -> u16 {
        (self.drawing & 0x000C) | ((self.row_group & SB_MASK) << 8u32) | when(self.row_group_out, XP_SBOUT)
            | when(self.overtime, XP_OVERTIME) | when(self.draw_enabled, XP_XPEN)
    }

    /// A halfword read; write-only and unmapped registers read zero.
    pub open spec fn read_spec(&self, addr: u32) -> u16 {
        if addr == INTPND { self.pending }
        else if addr == INTENB { self.enabled }
        else if addr == DPSTTS { self.display_status_spec() }
        else if addr == BRTA { self.brightness[0] }
        else if addr == BRTB { self.brightness[1] }
        else if addr == BRTC { self.brightness[2] }
        else if addr == REST { self.rest }
        else if addr == FRMCYC { self.frame_cycle }
        else if addr == CTA { self.column_start }
        else if addr == XPSTTS { self.draw_status_spec() }
        else if addr == VER { VER_VALUE }
        else if in_group(addr, SPT0) { self.object_end[index_spec(addr, SPT0)] }
        else if in_group(addr, GPLT0) { self.bg_palette[index_spec(addr, GPLT0)] }
        else if in_group(addr, JPLT0) { self.obj_palette[index_spec(addr, JPLT0)] }
        else if addr == BKCOL { self.background }
        else { 0 }
    }

    pub open spec fn write_display_spec(self, value: u16) -> Registers {
        let set = Registers {
            lock: value & DP_LOCK != 0,
            sync_enabled: value & DP_SYNCE != 0,
            refresh: value & DP_RE != 0,
            display_enabled: value & DP_DISP != 0,
            ..self
        };
        if value & DP_DPRST != 0 {
            Registers { pending: set.pending & !DPRST_CLEARS, enabled: set.enabled & !DPRST_CLEARS, ..set }
        } else {
            set
        }
    }

    pub open spec fn write_draw_spec(self, value: u16) -> Registers {
        let set = Registers {
            row_group_compare: (value >> 8u32) & SB_MASK,
            draw_enabled: value & XP_XPEN != 0,
            ..self
        };
        if value & XP_XPRST != 0 {
            Registers {
                draw_enabled: false,
                pending: set.pending & !XPRST_CLEARS,
                enabled: set.enabled & !XPRST_CLEARS,
                ..set
            }
        } else {
            set
        }
    }

    /// A halfword write; narrow registers keep only their implemented bits, read-only and
    /// unmapped registers ignore the write.
    pub open spec fn write_spec(self, addr: u32, value: u16) -> Registers {
        if addr == INTENB { Registers { enabled: value & INT_MASK, ..self } }
        else if addr == INTCLR { Registers { pending: self.pending & !(value & INT_MASK), ..self } }
        else if addr == DPCTRL { self.write_display_spec(value) }
        else if addr == BRTA { Registers { brightness: spec_array_update(self.brightness, 0, value & 0xFF), ..self } }
        else if addr == BRTB { Registers { brightness: spec_array_update(self.brightness, 1, value & 0xFF), ..self } }
        else if addr == BRTC { Registers { brightness: spec_array_update(self.brightness, 2, value & 0xFF), ..self } }
        else if addr == REST { Registers { rest: value & 0xFF, ..self } }
        else if addr == FRMCYC { Registers { frame_cycle: value & 0xF, ..self } }
        else if addr == XPCTRL { self.write_draw_spec(value) }
        else if in_group(addr, SPT0) {
            Registers { object_end: spec_array_update(self.object_end, index_spec(addr, SPT0), value & 0x3FF), ..self }
        } else if in_group(addr, GPLT0) {
            Registers { bg_palette: spec_array_update(self.bg_palette, index_spec(addr, GPLT0), value & 0xFC), ..self }
        } else if in_group(addr, JPLT0) {
            Registers { obj_palette: spec_array_update(self.obj_palette, index_spec(addr, JPLT0), value & 0xFC), ..self }
        } else if addr == BKCOL { Registers { background: value & 0x3, ..self } }
        else { self }
    }

    /// The register file at reset: every register and flag clear.
    pub open spec fn is_reset(&self) -> bool {
        &&& self.pending == 0 && self.enabled == 0
        &&& !self.lock && !self.sync_enabled && !self.refresh && !self.display_enabled
        &&& !self.frame_clock && !self.scan_ready && self.displaying == 0
        &&& !self.draw_enabled && !self.overtime && !self.row_group_out
        &&& self.row_group == 0 && self.row_group_compare == 0 && self.drawing == 0
        &&& self.brightness@ == seq![0u16, 0u16, 0u16]
        &&& self.rest == 0 && self.frame_cycle == 0 && self.column_start == 0
        &&& self.object_end@ == seq![0u16, 0u16, 0u16, 0u16]
        &&& self.bg_palette@ == seq![0u16, 0u16, 0u16, 0u16]
        &&& self.obj_palette@ == seq![0u16, 0u16, 0u16, 0u16]
        &&& self.background == 0
    }

    /// A register file with everything cleared.
    pub fn new() -> (r: Self)
        ensures
            r.is_reset(),
    {
        Registers {
            pending: 0,
            enabled: 0,
            lock: false,
            sync_enabled: false,
            refresh: false,
            display_enabled: false,
            frame_clock: false,
            scan_ready: false,
            displaying: 0,
            draw_enabled: false,
            overtime: false,
            row_group_out: false,
            row_group: 0,
            row_group_compare: 0,
            drawing: 0,
            brightness: [0u16, 0, 0],
            rest: 0,
            frame_cycle: 0,
            column_start: 0,
            object_end: [0u16, 0, 0, 0],
            bg_palette: [0u16, 0, 0, 0],
            obj_palette: [0u16, 0, 0, 0],
            background: 0,
        }
    }

    /// Whether an enabled interrupt is pending.
    pub fn interrupt_pending(&self) -> (r: bool)
        ensures
            r == self.interrupt_pending_spec(),
    {
        self.pending & self.enabled != 0
    }

    /// Marks interrupts pending; bits that name no interrupt are dropped.
    pub fn raise(&mut self, flag: u16)
        ensures
            *final(self) == (Registers { pending: old(self).pending | (flag & INT_MASK), ..*old(self) }),
    {
        self.pending = self.pending | (flag & INT_MASK);
    }

    fn display_status(&self) -> (r: u16)
        ensures
            r == self.display_status_spec(),
    {
        (self.displaying & 0x003C) | when_exec(self.lock, DP_LOCK) | when_exec(self.sync_enabled, DP_SYNCE)
            | when_exec(self.refresh, DP_RE) | when_exec(self.frame_clock, DP_FCLK) | when_exec(
            self.scan_ready,
            DP_SCANRDY,
        ) | when_exec(self.display_enabled, DP_DISP)
    }

    fn draw_status(&self) -> (r: u16)
        ensures
            r == self.draw_status_spec(),
    {
        (self.drawing & 0x000C) | ((self.row_group & SB_MASK) << 8u32) | when_exec(self.row_group_out, XP_SBOUT)
            | when_exec(self.overtime, XP_OVERTIME) | when_exec(self.draw_enabled, XP_XPEN)
    }

    // write-only registers read as zero rather than mirroring their read-side twin
    /// Reads a register by its halfword address.
    pub fn read(&self, addr: u32) -> (r: u16)
        ensures
            r == self.read_spec(addr),
    {
        if addr == INTPND { self.pending }
        else if addr == INTENB { self.enabled }
        else if addr == DPSTTS { self.display_status() }
        else if addr == BRTA { self.brightness[0] }
        else if addr == BRTB { self.brightness[1] }
        else if addr == BRTC { self.brightness[2] }
        else if addr == REST { self.rest }
        else if addr == FRMCYC { self.frame_cycle }
        else if addr == CTA { self.column_start }
        else if addr == XPSTTS { self.draw_status() }
        else if addr == VER { VER_VALUE }
        else if SPT0 <= addr && addr <= SPT0 + 6 && addr % 2 == 0 { self.object_end[index_of(addr, SPT0)] }
        else if GPLT0 <= addr && addr <= GPLT0 + 6 && addr % 2 == 0 { self.bg_palette[index_of(addr, GPLT0)] }
        else if JPLT0 <= addr && addr <= JPLT0 + 6 && addr % 2 == 0 { self.obj_palette[index_of(addr, JPLT0)] }
        else if addr == BKCOL { self.background }
        else { 0 }
    }

    /// Writes a register by its halfword address.
    pub fn write(&mut self, addr: u32, value: u16)
        ensures
            *final(self) == old(self).write_spec(addr, value),
    {
        if addr == INTENB {
            self.enabled = value & INT_MASK;
        } else if addr == INTCLR {
            self.pending = self.pending & !(value & INT_MASK);
        } else if addr == DPCTRL {
            self.write_display(value);
        } else if addr == BRTA {
            self.brightness[0] = value & 0xFF;
        } else if addr == BRTB {
            self.brightness[1] = value & 0xFF;
        } else if addr == BRTC {
            self.brightness[2] = value & 0xFF;
        } else if addr == REST {
            self.rest = value & 0xFF;
        } else if addr == FRMCYC {
            self.frame_cycle = value & 0xF;
        } else if addr == XPCTRL {
            self.write_draw(value);
        } else if SPT0 <= addr && addr <= SPT0 + 6 && addr % 2 == 0 {
            self.object_end[index_of(addr, SPT0)] = value & 0x3FF;
        } else if GPLT0 <= addr && addr <= GPLT0 + 6 && addr % 2 == 0 {
            self.bg_palette[index_of(addr, GPLT0)] = value & 0xFC;
        } else if JPLT0 <= addr && addr <= JPLT0 + 6 && addr % 2 == 0 {
            self.obj_palette[index_of(addr, JPLT0)] = value & 0xFC;
        } else if addr == BKCOL {
            self.background = value & 0x3;
        }
    }

    fn write_display(&mut self, value: u16)
        ensures
            *final(self) == old(self).write_display_spec(value),
    {
        self.lock = value & DP_LOCK != 0;
        self.sync_enabled = value & DP_SYNCE != 0;
        self.refresh = value & DP_RE != 0;
        self.display_enabled = value & DP_DISP != 0;

        if value & DP_DPRST != 0 {
            self.pending = self.pending & !DPRST_CLEARS;
            self.enabled = self.enabled & !DPRST_CLEARS;
        }
    }

    fn write_draw(&mut self, value: u16)
        ensures
            *final(self) == old(self).write_draw_spec(value),
    {
        self.row_group_compare = (value >> 8u32) & SB_MASK;
        self.draw_enabled = value & XP_XPEN != 0;

        if value & XP_XPRST != 0 {
            self.draw_enabled = false;
            self.pending = self.pending & !XPRST_CLEARS;
            self.enabled = self.enabled & !XPRST_CLEARS;
        }
    }
}

fn index_of(addr: u32, base: u32) -> (r: usize)
    requires
        base <= addr <= base + 6,
    ensures
        r == index_spec(addr, base),
        r < 4,
{
    ((addr - base) / 2) as usize
}

/// The shade a palette gives a character pixel; pixel 0 is transparent and never reaches one.
pub open spec fn shade_spec(palette: u16, pixel: u8) -> u8 {
    let p = pixel % 4;
    if p == 0 {
        0
    } else {
        ((palette as int / pow4(p as nat)) % 4) as u8
    }
}

/// Four to the power `n`.
pub open spec fn pow4(n: nat) -> int
    decreases n,
{
    if n == 0 { 1 } else { 4 * pow4((n - 1) as nat) }
}

// character pixel 0 is transparent, so a palette only describes values 1 through 3
/// Looks a character pixel up in a palette.
pub fn shade(palette: u16, pixel: u8) -> (r: u8)
    ensures
        r == shade_spec(palette, pixel),
        r < 4,
{
    proof {
        reveal_with_fuel(pow4, 4);
    }
    let p = pixel % 4;
    if p == 1 {
        ((palette / 4) % 4) as u8
    } else if p == 2 {
        ((palette / 16) % 4) as u8
    } else if p == 3 {
        ((palette / 64) % 4) as u8
    } else {
        0
    }
}

impl Default for Registers {
    fn default() -> (r: Self)
        ensures
            r.is_reset(),
    {
        Self::new()
    }
}

/// Interrupts fire only where pending and enabled agree: raising a flag that is not enabled
/// leaves an idle register file idle.
pub proof fn lemma_raise_needs_enable(r: Registers, flag: u16)
    requires
        r.pending == 0,
        flag & r.enabled == 0,
    ensures
        !(Registers { pending: r.pending | (flag & INT_MASK), ..r }).interrupt_pending_spec(),
{
    let e = r.enabled;
    assert((0u16 | (flag & 0xE01Fu16)) & e == 0) by (bit_vector)
        requires
            flag & e == 0;
}

/// Narrow registers read back only their implemented bits.
pub proof fn lemma_narrow_registers(r: Registers, value: u16)
    ensures
        r.write_spec(BRTA, value).read_spec(BRTA) == value & 0xFF,
        r.write_spec(FRMCYC, value).read_spec(FRMCYC) == value & 0xF,
        r.write_spec(BKCOL, value).read_spec(BKCOL) == value & 0x3,
        r.write_spec(SPT0, value).read_spec(SPT0) == value & 0x3FF,
        r.write_spec(GPLT0, value).read_spec(GPLT0) == value & 0xFC,
{
}

/// Writes to the interrupt pending register change nothing.
pub proof fn lemma_intpnd_read_only(r: Registers, value: u16)
    ensures
        r.write_spec(INTPND, value) == r,
{
}

} // verus!
