//! Programmable countdown timer.
use vstd::prelude::*;
use crate::error::VosError;
use crate::traits::Device;
use crate::types::{Address, Byte, Word};

verus! {

/// Base address of the timer in the memory map.
pub const TIMER_BASE: Address = 0x8000_3000;
/// Timer device size.
pub const TIMER_SIZE: usize = 16;
/// Counter register (read-only, counts down).
pub const REG_COUNTER: u32 = 0;
/// Reload register.
pub const REG_RELOAD: u32 = 4;
/// Control register.
pub const REG_CONTROL: u32 = 8;
/// Status register.
pub const REG_STATUS: u32 = 12;
/// Control bit: timer enabled.
pub const CTRL_ENABLE: u8 = 0x01;
/// Control bit: interrupt on expiry.
pub const CTRL_INTERRUPT: u8 = 0x02;
/// Status bit: the timer has expired.
pub const STATUS_EXPIRED: u8 = 0x01;

/// Abstract timer state.
pub struct TimerModel {
    /// Current counter value
    pub counter: u32,
    /// Reload value
    pub reload: u32,
    /// Control register
    pub control: u8,
    /// Status register
    pub status: u8,
    /// Total cycles elapsed while enabled
    pub total: u64,
}

/// A timer with every register zero.
pub open spec fn initial_timer() -> TimerModel {
    TimerModel { counter: 0, reload: 0, control: 0, status: 0, total: 0 }
}

/// Whether the enable bit is set.
pub open spec fn timer_enabled(m: TimerModel) -> bool {
    m.control & 1 != 0
}

/// One cycle of counting: a running counter steps down; reaching zero sets expired and reloads.
pub open spec fn tick1(m: TimerModel) -> TimerModel {
    if m.counter > 0 {
        if m.counter == 1 {
            TimerModel { counter: m.reload, status: m.status | 1, ..m }
        } else {
            TimerModel { counter: (m.counter - 1) as u32, ..m }
        }
    } else {
        m
    }
}

/// `n` cycles of counting.
pub open spec fn tick_n(m: TimerModel, n: nat) -> TimerModel
    decreases n,
{
    if n == 0 { m } else { tick1(tick_n(m, (n - 1) as nat)) }
}

/// State after `cycles` clock cycles; nothing happens while disabled.
pub open spec fn timer_tick(m: TimerModel, cycles: u64) -> TimerModel {
    if !timer_enabled(m) {
        m
    } else {
        let t = tick_n(m, cycles as nat);
        TimerModel { total: (if m.total + cycles > u64::MAX { m.total + cycles - 0x1_0000_0000_0000_0000 } else { m.total + cycles }) as u64, ..t }
    }
}

/// Byte returned by reading a register byte.
pub open spec fn timer_read(m: TimerModel, offset: u32) -> u8 {
    if offset <= 3 {
        ((m.counter >> (offset * 8) as u32) & 0xFF) as u8
    } else if 4 <= offset <= 7 {
        ((m.reload >> ((offset - 4) * 8) as u32) & 0xFF) as u8
    } else if offset == 8 {
        m.control
    } else if offset == 12 {
        m.status
    } else {
        0
    }
}

/// State after writing a register byte.
pub open spec fn timer_write(m: TimerModel, offset: u32, value: u8) -> TimerModel {
    if 4 <= offset <= 7 {
        let shift = ((offset - 4) * 8) as u32;
        TimerModel { reload: (m.reload & !(0xFFu32 << shift)) | ((value as u32) << shift), ..m }
    } else if offset == 8 {
        let m2 = TimerModel { control: value, ..m };
        if !timer_enabled(m) && timer_enabled(m2) { TimerModel { counter: m.reload, ..m2 } } else { m2 }
    } else if offset == 12 {
        if value & 1 != 0 { TimerModel { status: m.status & !1u8, ..m } } else { m }
    } else {
        m
    }
}

/// Timer device.
#[derive(Debug, Clone)]
pub struct Timer {
    /// Current counter value
    counter: u32,
    /// Reload value
    reload: u32,
    /// Control register
    control: u8,
    /// Status register
    status: u8,
    /// Total cycles elapsed
    total_cycles: u64,
}

impl Timer {
    /// Abstract state.
    pub closed spec fn model(&self) -> TimerModel {
        TimerModel { counter: self.counter, reload: self.reload, control: self.control, status: self.status, total: self.total_cycles }
    }

    /// A stopped timer with all registers zero.
    pub fn new() -> (t: Self)
        ensures
            t.model() == initial_timer(),
    {
        Self { counter: 0, reload: 0, control: 0, status: 0, total_cycles: 0 }
    }

    /// Whether the timer is enabled.
    pub fn is_enabled(&self) -> (b: bool)
        ensures
            b == timer_enabled(self.model()),
    {
        (self.control & CTRL_ENABLE) != 0
    }

    /// Whether expiry raises an interrupt.
    pub fn interrupt_enabled(&self) -> (b: bool)
        ensures
            b == (self.model().control & 2 != 0),
    {
        (self.control & CTRL_INTERRUPT) != 0
    }

    /// Whether the timer has expired.
    pub fn has_expired(&self) -> (b: bool)
        ensures
            b == (self.model().status & 1 != 0),
    {
        (self.status & STATUS_EXPIRED) != 0
    }

    /// Clears the expired flag.
    pub fn clear_expired(&mut self)
        ensures
            final(self).model() == (TimerModel { status: old(self).model().status & !1u8, ..old(self).model() }),
    {
        self.status = self.status & !STATUS_EXPIRED;
    }

    /// The counter.
    pub fn counter(&self) -> (c: u32)
        ensures
            c == self.model().counter,
    {
        self.counter
    }

    /// The reload value.
    pub fn reload(&self) -> (r: u32)
        ensures
            r == self.model().reload,
    {
        self.reload
    }

    /// Total cycles counted while enabled.
    pub fn total_cycles(&self) -> (n: u64)
        ensures
            n == self.model().total,
    {
        self.total_cycles
    }

    fn tick_internal(&mut self, cycles: u64)
        ensures
            final(self).model() == timer_tick(old(self).model(), cycles),
    {
        if !self.is_enabled() {
            return;
        }
        self.total_cycles = self.total_cycles.wrapping_add(cycles);
        let mut i: u64 = 0;
        while i < cycles
            invariant
                i <= cycles,
                timer_enabled(old(self).model()),
                self.total_cycles == timer_tick(old(self).model(), cycles).total,
                ({
                    let t = tick_n(old(self).model(), i as nat);
                    self.counter == t.counter && self.reload == t.reload && self.control == t.control
                        && self.status == t.status
                }),
            decreases cycles - i,
        {
            if self.counter > 0 {
                self.counter = self.counter - 1;
                if self.counter == 0 {
                    self.status = self.status | STATUS_EXPIRED;
                    self.counter = self.reload;
                }
            }
            i += 1;
        }
    }
}

impl Device for Timer {
    type DeviceState = TimerModel;

    open spec fn device_state(&self) -> TimerModel {
        self.model()
    }

    open spec fn byte_read(s: TimerModel, offset: u32) -> (TimerModel, Result<Byte, VosError>) {
        (s, Ok::<u8, VosError>(timer_read(s, offset)))
    }

    open spec fn byte_written(s: TimerModel, offset: u32, value: Byte) -> (TimerModel, Result<(), VosError>) {
        (timer_write(s, offset, value), Ok::<(), VosError>(()))
    }

    fn read_byte(&mut self, offset: u32) -> (r: Result<Byte, VosError>)
        ensures
            final(self).model() == old(self).model(),
            r == Ok::<u8, VosError>(timer_read(old(self).model(), offset)),
    {
        if offset <= REG_COUNTER + 3 {
            let shift = (offset - REG_COUNTER) * 8;
            Ok(((self.counter >> shift) & 0xFF) as Byte)
        } else if REG_RELOAD <= offset && offset <= REG_RELOAD + 3 {
            let shift = (offset - REG_RELOAD) * 8;
            Ok(((self.reload >> shift) & 0xFF) as Byte)
        } else if offset == REG_CONTROL {
            Ok(self.control)
        } else if offset == REG_STATUS {
            Ok(self.status)
        } else {
            Ok(0)
        }
    }

    fn write_byte(&mut self, offset: u32, value: Byte) -> (r: Result<(), VosError>)
        ensures
            r == Ok::<(), VosError>(()),
            final(self).model() == timer_write(old(self).model(), offset, value),
    {
        if REG_RELOAD <= offset && offset <= REG_RELOAD + 3 {
            let shift = (offset - REG_RELOAD) * 8;
            let mask = !(0xFFu32 << shift);
            self.reload = (self.reload & mask) | ((value as u32) << shift);
        } else if offset == REG_CONTROL {
            let was_enabled = self.is_enabled();
            self.control = value;
            if !was_enabled && self.is_enabled() {
                self.counter = self.reload;
            }
        } else if offset == REG_STATUS {
            if value & STATUS_EXPIRED != 0 {
                self.clear_expired();
            }
        }
        Ok(())
    }

    fn read_word(&mut self, offset: u32) -> (r: Result<Word, VosError>)
        ensures
            final(self).model() == old(self).model(),
            offset == 0 ==> r == Ok::<u32, VosError>(old(self).model().counter),
            offset == 4 ==> r == Ok::<u32, VosError>(old(self).model().reload),
            offset != 0 && offset != 4 ==> r == Ok::<u32, VosError>(
                (timer_read(old(self).model(), offset) as nat + timer_read(old(self).model(), (offset + 1) as u32) as nat * 0x100
                    + timer_read(old(self).model(), (offset + 2) as u32) as nat * 0x1_0000
                    + timer_read(old(self).model(), (offset + 3) as u32) as nat * 0x100_0000) as u32),
    {
        if offset == REG_COUNTER {
            Ok(self.counter)
        } else if offset == REG_RELOAD {
            Ok(self.reload)
        } else {
            let b0 = match self.read_byte(offset) { Ok(b) => b as Word, Err(e) => return Err(e) };
            let b1 = match self.read_byte(offset + 1) { Ok(b) => b as Word, Err(e) => return Err(e) };
            let b2 = match self.read_byte(offset + 2) { Ok(b) => b as Word, Err(e) => return Err(e) };
            let b3 = match self.read_byte(offset + 3) { Ok(b) => b as Word, Err(e) => return Err(e) };
            assert(b0 < 256 && b1 < 256 && b2 < 256 && b3 < 256 ==>
                b0 | (b1 << 8u32) | (b2 << 16u32) | (b3 << 24u32) == (b0 + b1 * 0x100 + b2 * 0x1_0000 + b3 * 0x100_0000) as u32)
                by (bit_vector);
            Ok(b0 | (b1 << 8) | (b2 << 16) | (b3 << 24))
        }
    }

    fn write_word(&mut self, offset: u32, value: Word) -> (r: Result<(), VosError>)
        ensures
            r == Ok::<(), VosError>(()),
            offset == 4 ==> final(self).model() == (TimerModel { reload: value, ..old(self).model() }),
            offset != 4 ==> final(self).model() == timer_write(timer_write(timer_write(timer_write(old(self).model(),
                offset, (value & 0xFF) as u8), (offset + 1) as u32, ((value >> 8u32) & 0xFF) as u8),
                (offset + 2) as u32, ((value >> 16u32) & 0xFF) as u8), (offset + 3) as u32, ((value >> 24u32) & 0xFF) as u8),
    {
        if offset == REG_RELOAD {
            self.reload = value;
            Ok(())
        } else {
            let _ = self.write_byte(offset, (value & 0xFF) as Byte);
            let _ = self.write_byte(offset + 1, ((value >> 8) & 0xFF) as Byte);
            let _ = self.write_byte(offset + 2, ((value >> 16) & 0xFF) as Byte);
            let _ = self.write_byte(offset + 3, ((value >> 24) & 0xFF) as Byte);
            Ok(())
        }
    }

    fn base_address(&self) -> (a: Address)
        ensures
            a == 0x8000_3000,
    {
        TIMER_BASE
    }

    fn size(&self) -> (n: usize)
        ensures
            n == 16,
    {
        TIMER_SIZE
    }

    fn name(&self) -> (s: &str)
        ensures
            s@ == "Timer"@,
    {
        "Timer"
    }

    fn tick(&mut self, cycles: u64)
        ensures
            final(self).model() == timer_tick(old(self).model(), cycles),
    {
        self.tick_internal(cycles);
    }

    fn reset(&mut self)
        ensures
            final(self).model() == initial_timer(),
    {
        self.counter = 0;
        self.reload = 0;
        self.control = 0;
        self.status = 0;
        self.total_cycles = 0;
    }
}

proof fn lemma_countdown(m: TimerModel, k: nat)
    requires
        k < m.counter,
    ensures
        tick_n(m, k) == (TimerModel { counter: (m.counter - k) as u32, ..m }),
    decreases k,
{
    if k > 0 {
        lemma_countdown(m, (k - 1) as nat);
    }
}

/// Starting from a loaded counter `n > 0`, the timer counts down for `n - 1` cycles and on the
/// `n`-th cycle expires and reloads.
pub proof fn lemma_expires_after_counter_cycles(m: TimerModel)
    requires
        m.counter > 0,
    ensures
        forall|k: nat| k < m.counter ==> #[trigger] tick_n(m, k).counter == m.counter - k && tick_n(m, k).status == m.status,
        tick_n(m, m.counter as nat).counter == m.reload,
        tick_n(m, m.counter as nat).status == m.status | 1,
{
    assert forall|k: nat| k < m.counter implies #[trigger] tick_n(m, k).counter == m.counter - k && tick_n(m, k).status == m.status by {
        lemma_countdown(m, k);
    }
    lemma_countdown(m, (m.counter - 1) as nat);
    assert(tick_n(m, m.counter as nat) == tick1(tick_n(m, (m.counter - 1) as nat)));
}

} // verus!
