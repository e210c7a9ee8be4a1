use vstd::prelude::*;

verus! {

pub const TLR: u32 = 0x0200_0018;
pub const THR: u32 = 0x0200_001C;
pub const TCR: u32 = 0x0200_0020;

pub const TCR_T_ENB: u8 = 0x01;
pub const TCR_Z_STAT: u8 = 0x02;
pub const TCR_Z_STAT_CLR: u8 = 0x04;
pub const TCR_TIM_Z_INT: u8 = 0x08;
pub const TCR_T_CLK_SEL: u8 = 0x10;

pub const INT_TIMER_ZERO: u16 = 0xFE10;

// 20 mhz, so the 20 us tick is 400 cycles
pub const TICK_CYCLES: u64 = 400;

const TICK_MODULO: u8 = 5;
const REGISTER_MASK: u32 = 0x3F;
pub const TCR_UNUSED: u8 = 0xE0;

/// The hardware timer: a 16-bit down counter clocked every tick (fast) or every fifth tick.
#[derive(Debug, Clone, Copy, PartialEq, Eq)]
pub struct Timer {
    counter: u16,
    reload: u16,
    tick: u8,
    elapsed: u64,
    enabled: bool,
    fast: bool,
    interrupt_enabled: bool,
    zero_status: bool,
    pending: bool,
}

/// The timer's state. `tick` counts 20 us ticks modulo five, `elapsed` the cycles since the
/// last tick.
pub ghost struct TimerView {
    pub counter: u16,
    pub reload: u16,
    pub tick: u8,
    pub elapsed: u64,
    pub enabled: bool,
    pub fast: bool,
    pub interrupt_enabled: bool,
    pub zero_status: bool,
    pub pending: bool,
}

impl View for Timer {
    type V = TimerView;

    closed spec fn view(&self) -> TimerView {
        TimerView {
            counter: self.counter,
            reload: self.reload,
            tick: self.tick,
            elapsed: self.elapsed,
            enabled: self.enabled,
            fast: self.fast,
            interrupt_enabled: self.interrupt_enabled,
            zero_status: self.zero_status,
            pending: self.pending,
        }
    }
}

pub open spec fn bit(b: bool, value: int) -> int {
    if b { value } else { 0 }
}

impl TimerView {
    /// A stopped timer with everything cleared.
    pub open spec fn reset() -> TimerView {
        TimerView {
            counter: 0,
            reload: 0,
            tick: 0,
            elapsed: 0,
            enabled: false,
            fast: false,
            interrupt_enabled: false,
            zero_status: false,
            pending: false,
        }
    }

    /// What the timer keeps between calls: the tick phase and the partial interval are in range.
    pub open spec fn inv(self) -> bool {
        self.tick < 5 && self.elapsed < 400
    }

    /// Zero was reached: status when running, the interrupt when enabled.
    pub open spec fn reach_zero(self) -> TimerView {
        TimerView {
            zero_status: self.zero_status || self.enabled,
            pending: self.pending || self.interrupt_enabled,
            ..self
        }
    }

    /// A running timer that sits at zero shows the zero status.
    pub open spec fn refresh_zero_status(self) -> TimerView {
        TimerView { zero_status: self.zero_status || (self.enabled && self.counter == 0), ..self }
    }

    /// One count: from zero the counter reloads, otherwise it decrements and may reach zero.
    pub open spec fn count_down(self) -> TimerView {
        if self.counter == 0 {
            TimerView { counter: self.reload, ..self }
        } else {
            let next = TimerView { counter: (self.counter - 1) as u16, ..self };
            if next.counter == 0 {
                next.reach_zero()
            } else {
                next
            }
        }
    }

    /// One 20 us tick: the phase advances, and a running timer counts on every tick (fast) or
    /// when the phase wraps (slow).
    pub open spec fn interval(self) -> TimerView {
        let advanced = TimerView { tick: ((self.tick + 1) % 5) as u8, ..self };
        if advanced.enabled && (advanced.fast || advanced.tick == 0) {
            advanced.count_down()
        } else {
            advanced
        }
    }

    /// `n` ticks in a row.
    pub open spec fn intervals(self, n: nat) -> TimerView
        decreases n,
    {
        if n == 0 {
            self
        } else {
            self.interval().intervals((n - 1) as nat)
        }
    }

    /// The same state with a different partial interval.
    pub open spec fn with_elapsed(self, elapsed: u64) -> TimerView {
        TimerView { elapsed, ..self }
    }

    /// The state after `cycles` more cycles: every whole tick that elapses is applied.
    pub open spec fn after_cycles(self, cycles: u64) -> TimerView {
        let total = self.elapsed + cycles;
        self.with_elapsed((total % 400) as u64).intervals((total / 400) as nat)
    }

    /// Loading a reload value: the counter restarts from it and the tick interval restarts.
    pub open spec fn load(self, reload: u16) -> TimerView {
        let loaded = TimerView { reload, counter: reload, tick: 0, elapsed: 0, ..self };
        let reached = if self.counter != 0 && reload == 0 { loaded.reach_zero() } else { loaded };
        reached.refresh_zero_status()
    }

    /// The control register as read: unused bits and the clear bit set, then the four flags.
    pub open spec fn control(self) -> u8 {
        (0xE4 + bit(self.enabled, 1) + bit(self.zero_status, 2) + bit(self.interrupt_enabled, 8)
            + bit(self.fast, 16)) as u8
    }

    /// A write to the control register.
    pub open spec fn write_control(self, value: u8) -> TimerView {
        let enabled = value % 2 == 1;
        let interrupt_enabled = (value / 8) % 2 == 1;
        let fast = (value / 16) % 2 == 1;
        let set = TimerView {
            enabled,
            interrupt_enabled,
            fast,
            pending: self.pending && interrupt_enabled,
            ..self
        };
        let disabling = self.enabled && !enabled;
        let cleared = if (value / 4) % 2 == 1 && !disabling && (set.counter != 0 || !enabled) {
            TimerView { zero_status: false, pending: false, ..set }
        } else {
            set
        };
        let spent = if !self.fast && fast && cleared.tick != 0 && enabled {
            cleared.count_down()
        } else {
            cleared
        };
        spent.refresh_zero_status()
    }

    /// A byte read of a timer register; anything but the three registers reads zero.
    pub open spec fn read(self, addr: u32) -> u8 {
        let offset = addr % 64;
        if offset == 0x18 {
            (self.counter % 256) as u8
        } else if offset == 0x1C {
            (self.counter / 256) as u8
        } else if offset == 0x20 {
            self.control()
        } else {
            0
        }
    }

    /// A byte write: either half of the reload loads the whole counter, the control register
    /// reconfigures, anything else is ignored.
    pub open spec fn write(self, addr: u32, value: u8) -> TimerView {
        let offset = addr % 64;
        if offset == 0x18 {
            self.load((value + (self.reload / 256) * 256) as u16)
        } else if offset == 0x1C {
            self.load(((self.reload % 256) + value * 256) as u16)
        } else if offset == 0x20 {
            self.write_control(value)
        } else {
            self
        }
    }
}

impl Timer {
    /// A stopped timer with everything cleared.
    pub fn new() -> (r: Self)
        ensures
            r@ == TimerView::reset(),
    {
        Timer {
            counter: 0,
            reload: 0,
            tick: 0,
            elapsed: 0,
            enabled: false,
            fast: false,
            interrupt_enabled: false,
            zero_status: false,
            pending: false,
        }
    }

    /// Whether the register at this address (within the misc region) belongs to the timer.
    pub fn handles(addr: u32) -> (r: bool)
        ensures
            r == (addr % 64 == 0x18 || addr % 64 == 0x1C || addr % 64 == 0x20),
    {
        proof {
            crate::bits::lemma_mask_u32(addr);
        }
        let offset = addr & REGISTER_MASK;
        offset == 0x18 || offset == 0x1C || offset == 0x20
    }

    /// The current count.
    pub fn counter(&self) -> (r: u16)
        ensures
            r == self@.counter,
    {
        self.counter
    }

    /// The value the counter reloads from.
    pub fn reload(&self) -> (r: u16)
        ensures
            r == self@.reload,
    {
        self.reload
    }

    /// Whether the timer's interrupt is waiting to be taken.
    pub fn interrupt_pending(&self) -> (r: bool)
        ensures
            r == self@.pending,
    {
        self.pending
    }

    /// Whether the timer has an interrupt pending or could raise one by counting.
    pub fn may_raise(&self) -> (r: bool)
        ensures
            r == (self@.pending || (self@.enabled && self@.interrupt_enabled)),
    {
        self.pending || (self.enabled && self.interrupt_enabled)
    }

    /// Runs the timer for `cycles` cycles; the tick phase advances even while it is disabled.
    pub fn tick(&mut self, cycles: u64)
        requires
            old(self)@.inv(),
            old(self)@.elapsed + cycles <= u64::MAX,
        ensures
            final(self)@.inv(),
            final(self)@ == old(self)@.after_cycles(cycles),
    {
        let ghost start = self@;
        let ghost total = (start.elapsed + cycles) as int;
        self.elapsed = self.elapsed + cycles;
        let ghost mut done: nat = 0;
        proof {
            assert(start.with_elapsed(self.elapsed).intervals(0) == start.with_elapsed(self.elapsed));
        }
        while self.elapsed >= TICK_CYCLES
            invariant
                self.tick < 5,
                self.elapsed as int + 400 * done == total,
                self@ == start.with_elapsed(self.elapsed).intervals(done),
            decreases self.elapsed,
        {
            let ghost before = self@;
            self.elapsed = self.elapsed - TICK_CYCLES;
            self.tick = (self.tick + 1) % TICK_MODULO;
            if self.enabled && (self.fast || self.tick == 0) {
                self.count_down();
            }
            proof {
                lemma_intervals_elapsed_free(start, (self.elapsed + 400) as u64, self.elapsed, done);
                lemma_intervals_split(start.with_elapsed(self.elapsed), done);
                done = done + 1;
            }
        }
        proof {
            assert(self.elapsed as int == total % 400);
            assert(done == total / 400);
        }
    }

    /// Reads one of the timer's registers.
    pub fn read(&self, addr: u32) -> (r: u8)
        ensures
            r == self@.read(addr),
    {
        proof {
            crate::bits::lemma_mask_u32(addr);
        }
        let offset = addr & REGISTER_MASK;
        if offset == 0x18 {
            (self.counter % 256) as u8
        } else if offset == 0x1C {
            (self.counter / 256) as u8
        } else if offset == 0x20 {
            self.control()
        } else {
            0
        }
    }

    /// Writes one of the timer's registers.
    pub fn write(&mut self, addr: u32, value: u8)
        requires
            old(self)@.inv(),
        ensures
            final(self)@.inv(),
            final(self)@ == old(self)@.write(addr, value),
    {
        proof {
            crate::bits::lemma_mask_u32(addr);
        }
        let low = (self.reload % 256) as u8;
        let high = (self.reload / 256) as u8;
        let offset = addr & REGISTER_MASK;
        if offset == 0x18 {
            self.load(value as u16 + (high as u16) * 256);
        } else if offset == 0x1C {
            self.load(low as u16 + (value as u16) * 256);
        } else if offset == 0x20 {
            self.write_control(value);
        }
    }

    fn control(&self) -> (r: u8)
        ensures
            r == self@.control(),
    {
        let mut value: u8 = TCR_UNUSED + TCR_Z_STAT_CLR;
        if self.enabled {
            value = value + TCR_T_ENB;
        }
        if self.zero_status {
            value = value + TCR_Z_STAT;
        }
        if self.interrupt_enabled {
            value = value + TCR_TIM_Z_INT;
        }
        if self.fast {
            value = value + TCR_T_CLK_SEL;
        }
        value
    }

    fn load(&mut self, reload: u16)
        ensures
            final(self)@ == old(self)@.load(reload),
    {
        let was_running = self.counter != 0;
        self.reload = reload;
        self.counter = reload;
        self.tick = 0;
        self.elapsed = 0;

        if was_running && self.counter == 0 {
            self.reach_zero();
        }
        self.refresh_zero_status();
    }

    fn write_control(&mut self, value: u8)
        requires
            old(self)@.inv(),
        ensures
            final(self)@ == old(self)@.write_control(value),
    {
        proof {
            crate::bits::lemma_u8_bits(value);
        }
        let was_enabled = self.enabled;
        let was_fast = self.fast;

        self.enabled = value & TCR_T_ENB != 0;
        self.interrupt_enabled = value & TCR_TIM_Z_INT != 0;
        self.fast = value & TCR_T_CLK_SEL != 0;

        if !self.interrupt_enabled {
            self.pending = false;
        }

        if value & TCR_Z_STAT_CLR != 0 {
            // disabling and clearing in the same write disables without clearing
            let disabling = was_enabled && !self.enabled;
            if !disabling && (self.counter != 0 || !self.enabled) {
                self.zero_status = false;
                self.pending = false;
            }
        }

        // switching to the fast clock mid interval spends the pending tick straight away
        if !was_fast && self.fast && self.tick != 0 && self.enabled {
            self.count_down();
        }

        self.refresh_zero_status();
    }

    // at zero the next interval reloads instead of decrementing, so a reload of zero never raises
    fn count_down(&mut self)
        ensures
            final(self)@ == old(self)@.count_down(),
    {
        if self.counter == 0 {
            self.counter = self.reload;
            return;
        }

        self.counter = self.counter - 1;
        if self.counter == 0 {
            self.reach_zero();
        }
    }

    fn reach_zero(&mut self)
        ensures
            final(self)@ == old(self)@.reach_zero(),
    {
        if self.enabled {
            self.zero_status = true;
        }
        if self.interrupt_enabled {
            self.pending = true;
        }
    }

    fn refresh_zero_status(&mut self)
        ensures
            final(self)@ == old(self)@.refresh_zero_status(),
    {
        if self.enabled && self.counter == 0 {
            self.zero_status = true;
        }
    }
}

impl Default for Timer {
    fn default() -> (r: Self)
        ensures
            r@ == TimerView::reset(),
    {
        Self::new()
    }
}

/// Ticks never look at or change the partial interval.
proof fn lemma_intervals_elapsed_free(start: TimerView, a: u64, b: u64, n: nat)
    ensures
        start.with_elapsed(a).intervals(n).with_elapsed(b) == start.with_elapsed(b).intervals(n),
        start.with_elapsed(a).intervals(n).elapsed == a,
    decreases n,
{
    if n > 0 {
        let sa = TimerView { elapsed: a, ..start };
        let sb = TimerView { elapsed: b, ..start };
        assert(TimerView { elapsed: b, ..sa.interval() } == sb.interval());
        lemma_intervals_elapsed_free(sa.interval(), a, b, (n - 1) as nat);
        assert(TimerView { elapsed: a, ..sa.interval() } == sa.interval());
        assert(TimerView { elapsed: b, ..sa.interval() } == sb.interval());
    }
}

/// `n + 1` ticks are `n` ticks followed by one more.
proof fn lemma_intervals_split(t: TimerView, n: nat)
    ensures
        t.intervals(n + 1) == t.intervals(n).interval(),
    decreases n,
{
    if n > 0 {
        lemma_intervals_split(t.interval(), (n - 1) as nat);
    } else {
        assert(t.interval().intervals(0) == t.interval());
    }
}

/// Ticks compose: `a` ticks then `b` ticks is `a + b` ticks.
pub proof fn lemma_intervals_add(t: TimerView, a: nat, b: nat)
    ensures
        t.intervals(a).intervals(b) == t.intervals(a + b),
    decreases a,
{
    if a > 0 {
        lemma_intervals_add(t.interval(), (a - 1) as nat, b);
    }
}

/// A partial interval carries over between calls: running for `a` cycles and then `b` cycles is
/// the same as running for `a + b` cycles at once.
pub proof fn lemma_tick_carries_over(t: TimerView, a: u64, b: u64)
    requires
        t.inv(),
        t.elapsed + a + b <= u64::MAX,
    ensures
        t.after_cycles(a).after_cycles(b) == t.after_cycles((a + b) as u64),
{
    let total = t.elapsed + a;
    let n1 = (total / 400) as nat;
    let first = TimerView { elapsed: (total % 400) as u64, ..t };
    lemma_intervals_elapsed_free(t, (total % 400) as u64, (total % 400) as u64, n1);
    let mid = t.after_cycles(a);
    assert(mid.elapsed == total % 400);
    let total2 = mid.elapsed + b;
    let n2 = (total2 / 400) as nat;
    let e2 = (total2 % 400) as u64;
    lemma_intervals_elapsed_free(t, (total % 400) as u64, e2, n1);
    assert(TimerView { elapsed: e2, ..mid } == TimerView { elapsed: e2, ..t }.intervals(n1));
    lemma_intervals_add(TimerView { elapsed: e2, ..t }, n1, n2);
    assert((t.elapsed + a + b) / 400 == n1 + n2);
    assert((t.elapsed + a + b) % 400 == e2);
}

/// A disabled timer holds its count and never raises, however long it runs.
pub proof fn lemma_disabled_holds(t: TimerView, n: nat)
    requires
        !t.enabled,
    ensures
        t.intervals(n).counter == t.counter,
        t.intervals(n).pending == t.pending,
        t.intervals(n).zero_status == t.zero_status,
        !t.intervals(n).enabled,
    decreases n,
{
    if n > 0 {
        lemma_disabled_holds(t.interval(), (n - 1) as nat);
    }
}

/// With a reload of zero the counter stays at zero and the interrupt is never raised.
pub proof fn lemma_zero_reload_never_raises(t: TimerView, n: nat)
    requires
        t.reload == 0,
        t.counter == 0,
    ensures
        t.intervals(n).counter == 0,
        t.intervals(n).pending == t.pending,
        t.intervals(n).reload == 0,
    decreases n,
{
    if n > 0 {
        lemma_zero_reload_never_raises(t.interval(), (n - 1) as nat);
    }
}

/// On the fast clock a running timer counts down once per tick while it stays above zero.
pub proof fn lemma_fast_counts_every_tick(t: TimerView, n: nat)
    requires
        t.enabled,
        t.fast,
        n <= t.counter,
    ensures
        t.intervals(n).counter == t.counter - n,
        t.intervals(n).enabled && t.intervals(n).fast,
        t.intervals(n).reload == t.reload,
    decreases n,
{
    if n > 0 {
        lemma_fast_counts_every_tick(t.interval(), (n - 1) as nat);
    }
}

/// Writing the low byte of the reload and reading the counter low byte gives the byte back.
pub proof fn lemma_load_low_read(t: TimerView, value: u8)
    ensures
        t.write(TLR, value).read(TLR) == value,
        t.write(TLR, value).reload == value + (t.reload / 256) * 256,
{
}

proof fn lemma_control_masks(x: u8, y: u8)
    by (bit_vector)
    ensures
        (x & 0x19u8 == y & 0x19u8) == (x % 2 == y % 2 && (x / 8) % 2 == (y / 8) % 2 && (x / 16) % 2 == (y / 16)
            % 2),
        (x & 0xE4u8 == 0xE4u8) == (x / 32 == 7 && (x / 4) % 2 == 1),
        (x & 0x01u8 != 0) == (x % 2 == 1),
        (x & 0x02u8 != 0) == ((x / 2) % 2 == 1),
        (x & 0x08u8 != 0) == ((x / 8) % 2 == 1),
        (x & 0x10u8 != 0) == ((x / 16) % 2 == 1),
{
}

/// Reading the control register shows the timer's state: T-Enb is whether it runs, Z-Stat
/// whether it has reached zero, Tim-Z-Int whether that raises an interrupt and T-Clk-Sel
/// whether it counts every tick; the other bits read as one.
pub proof fn lemma_control_shows_state(t: TimerView)
    ensures
        (t.read(TCR) & TCR_T_ENB != 0) == t.enabled,
        (t.read(TCR) & TCR_Z_STAT != 0) == t.zero_status,
        (t.read(TCR) & TCR_TIM_Z_INT != 0) == t.interrupt_enabled,
        (t.read(TCR) & TCR_T_CLK_SEL != 0) == t.fast,
        t.read(TCR) & 0xE4u8 == 0xE4u8,
{
    let r = t.read(TCR);
    lemma_control_masks(r, r);
}

/// The control register reads back its configuration: enable, zero interrupt enable and clock
/// select read as last written, and the unused bits and the status-clear bit always read as
/// one, whatever the timer was doing.
pub proof fn lemma_control_reads_back(t: TimerView, value: u8)
    ensures
        t.write(TCR, value).read(TCR) & 0x19u8 == value & 0x19u8,
        t.write(TCR, value).read(TCR) & 0xE4u8 == 0xE4u8,
{
    let r = t.write(TCR, value).read(TCR);
    lemma_control_masks(r, value);
}

} // verus!
