//! The virtual machine: processor, memory and devices joined by a memory bus.
use vstd::prelude::*;
use crate::cpu::cpu::{Cpu, CpuState, Memory as CpuMemory, execute_spec, initial_cpu_state, reg, step_spec, to_word, wadd};
use crate::cpu::instruction::{Instruction, decode_spec};
use crate::error::{CpuError, VosError};
use crate::io::display::{Display, DisplayModel, blank_display, display_ok, display_read, display_write, rows_text};
use crate::io::keyboard::{Keyboard, KeyboardModel, initial_keyboard, keyboard_read, keyboard_write};
use crate::io::timer::{Timer, TimerModel, initial_timer, timer_read, timer_tick, timer_write};
use crate::memory::memory::{MemModel, Memory, mem_read_byte, mem_read_word, mem_write_byte, mem_write_word};
use crate::memory::mmu::identity_entries;
use crate::traits::{Device, Executable, Inspectable};
use crate::cpu::cpu::{cpu_inspect_text, pair_texts};
use crate::error::bool_text;
use crate::io::display::{DISPLAY_HEIGHT, DISPLAY_WIDTH};
use crate::io::timer::timer_enabled;
use crate::text::{chars_to_string, dec, dec_string, push_dec, push_str};
use crate::types::{Address, Byte, Word};

verus! {

/// Abstract state of everything behind the memory bus.
pub struct BusModel {
    /// Main memory
    pub mem: MemModel,
    /// Display device
    pub display: DisplayModel,
    /// Keyboard device
    pub keyboard: KeyboardModel,
    /// Timer device
    pub timer: TimerModel,
}

/// Whether an address falls in the display's window.
pub open spec fn in_display(a: u32) -> bool {
    0x8000_0000 <= a < 0x8000_0000 + 4000
}

/// Whether an address falls in the keyboard's window.
pub open spec fn in_keyboard(a: u32) -> bool {
    0x8000_2000 <= a < 0x8000_2000 + 16
}

/// Whether an address falls in the timer's window.
pub open spec fn in_timer(a: u32) -> bool {
    0x8000_3000 <= a < 0x8000_3000 + 16
}

/// A little-endian word from four bytes.
pub open spec fn le_word(b0: u8, b1: u8, b2: u8, b3: u8) -> u32 {
    (b0 as nat + b1 as nat * 0x100 + b2 as nat * 0x1_0000 + b3 as nat * 0x100_0000) as u32
}

/// Byte `k` (0 = least significant) of a word.
pub open spec fn word_byte(v: u32, k: u32) -> u8 {
    if k == 0 {
        (v & 0xFF) as u8
    } else if k == 1 {
        ((v >> 8u32) & 0xFF) as u8
    } else if k == 2 {
        ((v >> 16u32) & 0xFF) as u8
    } else {
        ((v >> 24u32) & 0xFF) as u8
    }
}

/// Display word at an offset: four byte reads.
pub open spec fn display_word(d: DisplayModel, off: u32) -> u32 {
    le_word(display_read(d, off), display_read(d, (off + 1) as u32), display_read(d, (off + 2) as u32),
        display_read(d, (off + 3) as u32))
}

/// Display after a word write at an offset: four byte writes, low byte first.
pub open spec fn display_write_word(d: DisplayModel, off: u32, v: u32) -> DisplayModel {
    display_write(display_write(display_write(display_write(d, off, word_byte(v, 0)), (off + 1) as u32, word_byte(v, 1)),
        (off + 2) as u32, word_byte(v, 2)), (off + 3) as u32, word_byte(v, 3))
}

/// Keyboard after, and word from, four byte reads at an offset.
pub open spec fn keyboard_word(k: KeyboardModel, off: u32) -> (KeyboardModel, u32) {
    let (k0, b0) = keyboard_read(k, off);
    let (k1, b1) = keyboard_read(k0, (off + 1) as u32);
    let (k2, b2) = keyboard_read(k1, (off + 2) as u32);
    let (k3, b3) = keyboard_read(k2, (off + 3) as u32);
    (k3, le_word(b0, b1, b2, b3))
}

/// Keyboard after a word write at an offset: four byte writes, low byte first.
pub open spec fn keyboard_write_word(k: KeyboardModel, off: u32, v: u32) -> KeyboardModel {
    keyboard_write(keyboard_write(keyboard_write(keyboard_write(k, off, word_byte(v, 0)), (off + 1) as u32, word_byte(v, 1)),
        (off + 2) as u32, word_byte(v, 2)), (off + 3) as u32, word_byte(v, 3))
}

/// Timer word at an offset: the counter and reload registers whole, anything else byte by byte.
pub open spec fn timer_word(t: TimerModel, off: u32) -> u32 {
    if off == 0 {
        t.counter
    } else if off == 4 {
        t.reload
    } else {
        le_word(timer_read(t, off), timer_read(t, (off + 1) as u32), timer_read(t, (off + 2) as u32),
            timer_read(t, (off + 3) as u32))
    }
}

/// Timer after a word write at an offset: the reload register whole, anything else byte by byte.
pub open spec fn timer_write_word(t: TimerModel, off: u32, v: u32) -> TimerModel {
    if off == 4 {
        TimerModel { reload: v, ..t }
    } else {
        timer_write(timer_write(timer_write(timer_write(t, off, word_byte(v, 0)), (off + 1) as u32, word_byte(v, 1)),
            (off + 2) as u32, word_byte(v, 2)), (off + 3) as u32, word_byte(v, 3))
    }
}

/// Bus state after, and result of, reading a word.
pub open spec fn bus_read_word(m: BusModel, a: u32) -> (BusModel, Result<u32, VosError>) {
    if in_display(a) {
        (m, Ok(display_word(m.display, (a - 0x8000_0000) as u32)))
    } else if in_keyboard(a) {
        let (k, w) = keyboard_word(m.keyboard, (a - 0x8000_2000) as u32);
        (BusModel { keyboard: k, ..m }, Ok(w))
    } else if in_timer(a) {
        (m, Ok(timer_word(m.timer, (a - 0x8000_3000) as u32)))
    } else {
        let (mm, r) = mem_read_word(m.mem, a);
        (BusModel { mem: mm, ..m }, r)
    }
}

/// Bus state after, and result of, writing a word.
pub open spec fn bus_write_word(m: BusModel, a: u32, v: u32) -> (BusModel, Result<(), VosError>) {
    if in_display(a) {
        (BusModel { display: display_write_word(m.display, (a - 0x8000_0000) as u32, v), ..m }, Ok(()))
    } else if in_keyboard(a) {
        (BusModel { keyboard: keyboard_write_word(m.keyboard, (a - 0x8000_2000) as u32, v), ..m }, Ok(()))
    } else if in_timer(a) {
        (BusModel { timer: timer_write_word(m.timer, (a - 0x8000_3000) as u32, v), ..m }, Ok(()))
    } else {
        let (mm, r) = mem_write_word(m.mem, a, v);
        (BusModel { mem: mm, ..m }, r)
    }
}

/// Bus state after, and result of, reading a byte.
pub open spec fn bus_read_byte(m: BusModel, a: u32) -> (BusModel, Result<u8, VosError>) {
    if in_display(a) {
        (m, Ok(display_read(m.display, (a - 0x8000_0000) as u32)))
    } else if in_keyboard(a) {
        let (k, b) = keyboard_read(m.keyboard, (a - 0x8000_2000) as u32);
        (BusModel { keyboard: k, ..m }, Ok(b))
    } else if in_timer(a) {
        (m, Ok(timer_read(m.timer, (a - 0x8000_3000) as u32)))
    } else {
        let (mm, r) = mem_read_byte(m.mem, a);
        (BusModel { mem: mm, ..m }, r)
    }
}

/// Bus state after, and result of, writing a byte.
pub open spec fn bus_write_byte(m: BusModel, a: u32, v: u8) -> (BusModel, Result<(), VosError>) {
    if in_display(a) {
        (BusModel { display: display_write(m.display, (a - 0x8000_0000) as u32, v), ..m }, Ok(()))
    } else if in_keyboard(a) {
        (BusModel { keyboard: keyboard_write(m.keyboard, (a - 0x8000_2000) as u32, v), ..m }, Ok(()))
    } else if in_timer(a) {
        (BusModel { timer: timer_write(m.timer, (a - 0x8000_3000) as u32, v), ..m }, Ok(()))
    } else {
        let (mm, r) = mem_write_byte(m.mem, a, v);
        (BusModel { mem: mm, ..m }, r)
    }
}

fn le_word_exec(b0: u8, b1: u8, b2: u8, b3: u8) -> (w: u32)
    ensures
        w == le_word(b0, b1, b2, b3),
{
    let (w0, w1, w2, w3) = (b0 as u32, b1 as u32, b2 as u32, b3 as u32);
    assert(w0 < 256 && w1 < 256 && w2 < 256 && w3 < 256 ==>
        w0 | (w1 << 8u32) | (w2 << 16u32) | (w3 << 24u32) == (w0 + w1 * 0x100 + w2 * 0x1_0000 + w3 * 0x100_0000) as u32)
        by (bit_vector);
    w0 | (w1 << 8) | (w2 << 16) | (w3 << 24)
}

fn word_byte_exec(v: u32, k: u32) -> (b: u8)
    requires
        k < 4,
    ensures
        b == word_byte(v, k),
{
    if k == 0 {
        (v & 0xFF) as u8
    } else if k == 1 {
        ((v >> 8) & 0xFF) as u8
    } else if k == 2 {
        ((v >> 16) & 0xFF) as u8
    } else {
        ((v >> 24) & 0xFF) as u8
    }
}

/// Memory bus: routes each access to main memory or to the device whose window holds the address.
#[derive(Debug)]
pub struct MemoryBus {
    /// Main memory
    pub memory: Memory,
    /// Display device
    pub display: Display,
    /// Keyboard device
    pub keyboard: Keyboard,
    /// Timer device
    pub timer: Timer,
}

impl MemoryBus {
    /// Abstract state.
    pub open spec fn bus_model(&self) -> BusModel {
        BusModel {
            mem: self.memory.model(),
            display: self.display.model(),
            keyboard: self.keyboard.model(),
            timer: self.timer.model(),
        }
    }
}

impl CpuMemory for MemoryBus {
    type Model = BusModel;

    open spec fn model(&self) -> BusModel {
        self.bus_model()
    }

    open spec fn read_word_spec(m: BusModel, address: Address) -> (BusModel, Result<Word, VosError>) {
        bus_read_word(m, address)
    }

    open spec fn write_word_spec(m: BusModel, address: Address, value: Word) -> (BusModel, Result<(), VosError>) {
        bus_write_word(m, address, value)
    }

    open spec fn read_byte_spec(m: BusModel, address: Address) -> (BusModel, Result<u8, VosError>) {
        bus_read_byte(m, address)
    }

    open spec fn write_byte_spec(m: BusModel, address: Address, value: u8) -> (BusModel, Result<(), VosError>) {
        bus_write_byte(m, address, value)
    }

    fn read_word(&mut self, address: Address) -> (r: Result<Word, VosError>) {
        if 0x8000_0000 <= address && address < 0x8000_0000 + 4000 {
            let off = address - 0x8000_0000;
            let b0 = match self.display.read_byte(off) { Ok(b) => b, Err(e) => return Err(e) };
            let b1 = match self.display.read_byte(off + 1) { Ok(b) => b, Err(e) => return Err(e) };
            let b2 = match self.display.read_byte(off + 2) { Ok(b) => b, Err(e) => return Err(e) };
            let b3 = match self.display.read_byte(off + 3) { Ok(b) => b, Err(e) => return Err(e) };
            Ok(le_word_exec(b0, b1, b2, b3))
        } else if 0x8000_2000 <= address && address < 0x8000_2000 + 16 {
            let off = address - 0x8000_2000;
            let b0 = match self.keyboard.read_byte(off) { Ok(b) => b, Err(e) => return Err(e) };
            let b1 = match self.keyboard.read_byte(off + 1) { Ok(b) => b, Err(e) => return Err(e) };
            let b2 = match self.keyboard.read_byte(off + 2) { Ok(b) => b, Err(e) => return Err(e) };
            let b3 = match self.keyboard.read_byte(off + 3) { Ok(b) => b, Err(e) => return Err(e) };
            Ok(le_word_exec(b0, b1, b2, b3))
        } else if 0x8000_3000 <= address && address < 0x8000_3000 + 16 {
            self.timer.read_word(address - 0x8000_3000)
        } else {
            self.memory.read_word(address)
        }
    }

    fn write_word(&mut self, address: Address, value: Word) -> (r: Result<(), VosError>) {
        if 0x8000_0000 <= address && address < 0x8000_0000 + 4000 {
            let off = address - 0x8000_0000;
            let _ = self.display.write_byte(off, word_byte_exec(value, 0));
            let _ = self.display.write_byte(off + 1, word_byte_exec(value, 1));
            let _ = self.display.write_byte(off + 2, word_byte_exec(value, 2));
            let _ = self.display.write_byte(off + 3, word_byte_exec(value, 3));
            Ok(())
        } else if 0x8000_2000 <= address && address < 0x8000_2000 + 16 {
            let off = address - 0x8000_2000;
            let _ = self.keyboard.write_byte(off, word_byte_exec(value, 0));
            let _ = self.keyboard.write_byte(off + 1, word_byte_exec(value, 1));
            let _ = self.keyboard.write_byte(off + 2, word_byte_exec(value, 2));
            let _ = self.keyboard.write_byte(off + 3, word_byte_exec(value, 3));
            Ok(())
        } else if 0x8000_3000 <= address && address < 0x8000_3000 + 16 {
            self.timer.write_word(address - 0x8000_3000, value)
        } else {
            self.memory.write_word(address, value)
        }
    }

    fn read_byte(&mut self, address: Address) -> (r: Result<u8, VosError>) {
        if 0x8000_0000 <= address && address < 0x8000_0000 + 4000 {
            self.display.read_byte(address - 0x8000_0000)
        } else if 0x8000_2000 <= address && address < 0x8000_2000 + 16 {
            self.keyboard.read_byte(address - 0x8000_2000)
        } else if 0x8000_3000 <= address && address < 0x8000_3000 + 16 {
            self.timer.read_byte(address - 0x8000_3000)
        } else {
            self.memory.read_byte(address)
        }
    }

    fn write_byte(&mut self, address: Address, value: u8) -> (r: Result<(), VosError>) {
        if 0x8000_0000 <= address && address < 0x8000_0000 + 4000 {
            self.display.write_byte(address - 0x8000_0000, value)
        } else if 0x8000_2000 <= address && address < 0x8000_2000 + 16 {
            self.keyboard.write_byte(address - 0x8000_2000, value)
        } else if 0x8000_3000 <= address && address < 0x8000_3000 + 16 {
            self.timer.write_byte(address - 0x8000_3000, value)
        } else {
            self.memory.write_byte(address, value)
        }
    }
}

/// Abstract state of the whole machine.
pub struct VmModel {
    /// Processor
    pub cpu: CpuState,
    /// Memory and devices
    pub bus: BusModel,
    /// Cycles executed
    pub cycles: u64,
}

/// One machine step: a processor step over the bus; on success the timer ticks once and the
/// cycle count grows by one.
#[verifier::opaque]
pub open spec fn vm_step(v: VmModel) -> (VmModel, Result<bool, VosError>) {
    let (c, b, r) = step_spec::<MemoryBus>(v.cpu, v.bus);
    match r {
        Ok(k) => (VmModel { cpu: c, bus: BusModel { timer: timer_tick(b.timer, 1), ..b }, cycles: (v.cycles + 1) as u64 }, Ok(k)),
        Err(e) => (VmModel { cpu: c, bus: b, cycles: v.cycles }, Err(e)),
    }
}

/// Up to `n` machine steps, stopping at the first step that halts or fails.
pub open spec fn run_n(v: VmModel, n: nat) -> (VmModel, Result<bool, VosError>)
    decreases n,
{
    if n == 0 {
        (v, Ok(true))
    } else {
        let (w, r) = run_n(v, (n - 1) as nat);
        match r {
            Ok(true) => vm_step(w),
            _ => (w, r),
        }
    }
}

/// Once a run has stopped, running longer changes nothing.
pub proof fn lemma_run_n_stopped(v: VmModel, k: nat, n: nat)
    requires
        k <= n,
        run_n(v, k).1 != Ok::<bool, VosError>(true),
    ensures
        run_n(v, n) == run_n(v, k),
    decreases n,
{
    if n > k {
        lemma_run_n_stopped(v, k, (n - 1) as nat);
    }
}

/// Bus accesses leave a well-formed display well formed.
proof fn lemma_bus_display(m: BusModel, a: u32, v: u32)
    requires
        display_ok(m.display),
    ensures
        display_ok(bus_read_word(m, a).0.display),
        display_ok(bus_write_word(m, a, v).0.display),
        display_ok(bus_read_byte(m, a).0.display),
        display_ok(bus_write_byte(m, a, (v & 0xFF) as u8).0.display),
{
}

/// An instruction leaves the instruction count alone and a well-formed display well formed.
proof fn lemma_execute_bounds(s: CpuState, m: BusModel, i: Instruction)
    ensures
        execute_spec::<MemoryBus>(s, m, i).0.count == s.count,
        display_ok(m.display) ==> display_ok(execute_spec::<MemoryBus>(s, m, i).1.display),
{
    match i {
        Instruction::IType { opcode, rt, rs, immediate } => {
            if display_ok(m.display) {
                let a = wadd(reg(s, rs), to_word(immediate));
                lemma_bus_display(m, a, reg(s, rt));
            }
        },
        _ => {},
    }
}

/// A processor step executes at most one instruction, and leaves a well-formed display well formed.
proof fn lemma_step_bounds(s: CpuState, m: BusModel)
    ensures
        step_spec::<MemoryBus>(s, m).0.count <= s.count + 1,
        display_ok(m.display) ==> display_ok(step_spec::<MemoryBus>(s, m).1.display),
{
    if !s.halted {
        let (m1, fetched) = bus_read_word(m, s.pc);
        if display_ok(m.display) {
            lemma_bus_display(m, s.pc, 0);
        }
        if let Ok(w) = fetched {
            let s1 = CpuState { ir: w, ..s };
            if let Ok(i) = decode_spec(w) {
                lemma_execute_bounds(s1, m1, i);
            }
        }
    }
}

/// What a machine step keeps: the cycle count grows by one exactly on success, the instruction
/// count by at most one, and the display stays well formed.
proof fn lemma_vm_step(v: VmModel)
    ensures
        vm_step(v).1 is Ok ==> vm_step(v).0.cycles == (v.cycles + 1) as u64,
        vm_step(v).1 is Err ==> vm_step(v).0.cycles == v.cycles,
        vm_step(v).0.cpu.count <= v.cpu.count + 1,
        display_ok(v.bus.display) ==> display_ok(vm_step(v).0.bus.display),
{
    reveal(vm_step);
    lemma_step_bounds(v.cpu, v.bus);
}

/// The machine state of a fresh or reset machine with `size` bytes of memory.
pub open spec fn initial_bus(size: nat) -> BusModel {
    BusModel {
        mem: MemModel { bytes: Seq::new(size, |i: int| 0u8), table: identity_entries(0, size / 4096, true, true), paging: false },
        display: blank_display(),
        keyboard: initial_keyboard(),
        timer: initial_timer(),
    }
}

/// A complete computer: processor, memory, display, keyboard and timer.
#[derive(Debug)]
pub struct VirtualMachine {
    /// Processor
    cpu: Cpu,
    /// Memory and devices behind the bus
    bus: MemoryBus,
    /// Total cycles executed
    cycles: u64,
}

impl VirtualMachine {
    /// Abstract state.
    pub closed spec fn model(&self) -> VmModel {
        VmModel { cpu: self.cpu.model(), bus: self.bus.bus_model(), cycles: self.cycles }
    }

    /// The display is well formed.
    pub closed spec fn wf(&self) -> bool {
        self.bus.display.wf()
    }

    /// A machine with `memory_size` bytes of zeroed memory, every whole page identity mapped.
    pub fn new(memory_size: usize) -> (vm: Self)
        requires
            memory_size / 4096 <= 0x1_0000_0000,
        ensures
            vm.wf(),
            vm.model() == (VmModel { cpu: initial_cpu_state(), bus: initial_bus(memory_size as nat), cycles: 0 }),
    {
        let bus = MemoryBus { memory: Memory::new(memory_size), display: Display::new(), keyboard: Keyboard::new(), timer: Timer::new() };
        Self { cpu: Cpu::new(), bus, cycles: 0 }
    }

    /// The processor.
    pub fn cpu(&self) -> (c: &Cpu)
        ensures
            c.model() == self.model().cpu,
    {
        &self.cpu
    }

    /// The processor, for changes.
    pub fn cpu_mut(&mut self) -> (c: &mut Cpu)
        ensures
            c.model() == old(self).model().cpu,
            final(self).model() == (VmModel { cpu: final(c).model(), ..old(self).model() }),
            final(self).wf() == old(self).wf(),
    {
        &mut self.cpu
    }

    /// Main memory.
    pub fn memory(&self) -> (m: &Memory)
        ensures
            m.model() == self.model().bus.mem,
    {
        &self.bus.memory
    }

    /// Main memory, for changes.
    pub fn memory_mut(&mut self) -> (m: &mut Memory)
        ensures
            m.model() == old(self).model().bus.mem,
            final(self).model() == (VmModel { bus: BusModel { mem: final(m).model(), ..old(self).model().bus }, ..old(self).model() }),
            final(self).wf() == old(self).wf(),
    {
        &mut self.bus.memory
    }

    /// The display.
    pub fn display(&self) -> (d: &Display)
        ensures
            d.model() == self.model().bus.display,
            self.wf() == d.wf(),
    {
        &self.bus.display
    }

    /// The display, for changes.
    pub fn display_mut(&mut self) -> (d: &mut Display)
        ensures
            d.model() == old(self).model().bus.display,
            old(self).wf() == d.wf(),
            final(self).model() == (VmModel { bus: BusModel { display: final(d).model(), ..old(self).model().bus }, ..old(self).model() }),
            final(self).wf() == final(d).wf(),
    {
        &mut self.bus.display
    }

    /// The keyboard.
    pub fn keyboard(&self) -> (k: &Keyboard)
        ensures
            k.model() == self.model().bus.keyboard,
    {
        &self.bus.keyboard
    }

    /// The keyboard, for changes.
    pub fn keyboard_mut(&mut self) -> (k: &mut Keyboard)
        ensures
            k.model() == old(self).model().bus.keyboard,
            final(self).model() == (VmModel { bus: BusModel { keyboard: final(k).model(), ..old(self).model().bus }, ..old(self).model() }),
            final(self).wf() == old(self).wf(),
    {
        &mut self.bus.keyboard
    }

    /// The timer.
    pub fn timer(&self) -> (t: &Timer)
        ensures
            t.model() == self.model().bus.timer,
    {
        &self.bus.timer
    }

    /// The timer, for changes.
    pub fn timer_mut(&mut self) -> (t: &mut Timer)
        ensures
            t.model() == old(self).model().bus.timer,
            final(self).model() == (VmModel { bus: BusModel { timer: final(t).model(), ..old(self).model().bus }, ..old(self).model() }),
            final(self).wf() == old(self).wf(),
    {
        &mut self.bus.timer
    }

    /// Total cycles executed.
    pub fn cycles(&self) -> (n: u64)
        ensures
            n == self.model().cycles,
    {
        self.cycles
    }

    /// Loads a program into physical memory at `address`, bypassing the MMU.
    pub fn load_program(&mut self, address: Address, program: &[u8]) -> (r: Result<(), VosError>)
        ensures
            final(self).wf() == old(self).wf(),
            ({
                let m = old(self).model().bus.mem;
                if address as int + program@.len() <= m.bytes.len() {
                    r == Ok::<(), VosError>(())
                        && final(self).model() == (VmModel { bus: BusModel { mem: MemModel {
                            bytes: m.bytes.subrange(0, address as int) + program@
                                + m.bytes.subrange(address as int + program@.len(), m.bytes.len() as int),
                            ..m }, ..old(self).model().bus }, ..old(self).model() })
                } else {
                    final(self).model() == old(self).model()
                        && r == Err::<(), VosError>(crate::memory::ram::out_of_bounds(
                            crate::memory::ram::wrap32(address as int + program@.len()), m.bytes.len() as usize))
                }
            }),
    {
        self.bus.memory.load(address, program)
    }

    /// Executes one instruction and ticks the timer; `Ok(false)` once halted.
    pub fn step(&mut self) -> (r: Result<bool, VosError>)
        requires
            old(self).model().cycles < u64::MAX,
            old(self).model().cpu.count < u64::MAX,
        ensures
            (final(self).model(), r) == vm_step(old(self).model()),
            r is Ok ==> final(self).model().cycles == old(self).model().cycles + 1,
            final(self).model().cpu.count <= old(self).model().cpu.count + 1,
            old(self).wf() ==> final(self).wf(),
    {
        proof {
            lemma_vm_step(self.model());
            reveal(vm_step);
        }
        let should_continue = match self.cpu.step(&mut self.bus) {
            Ok(b) => b,
            Err(e) => return Err(e),
        };
        self.bus.timer.tick(1);
        self.cycles = self.cycles + 1;
        Ok(should_continue)
    }

    /// Runs until the processor halts or a step fails. Should a cycle or instruction counter
    /// reach its maximum first, the run stops with an overflow error.
    pub fn run(&mut self) -> (r: Result<(), VosError>)
        ensures
            old(self).wf() ==> final(self).wf(),
            r == Ok::<(), VosError>(()) ==> exists|n: nat| run_n(old(self).model(), n) == (final(self).model(), Ok::<bool, VosError>(false)),
            forall|e: VosError| r == Err::<(), VosError>(e) ==>
                (exists|n: nat| run_n(old(self).model(), n) == (final(self).model(), Err::<bool, VosError>(e)))
                || (e == VosError::Cpu(CpuError::Overflow)
                    && (final(self).model().cycles == u64::MAX || final(self).model().cpu.count == u64::MAX)
                    && exists|n: nat| run_n(old(self).model(), n) == (final(self).model(), Ok::<bool, VosError>(true))),
    {
        let ghost start = self.model();
        let ghost mut n: nat = 0;
        assert(run_n(start, 0) == (self.model(), Ok::<bool, VosError>(true)));
        loop
            invariant
                run_n(start, n) == (self.model(), Ok::<bool, VosError>(true)),
                start == old(self).model(),
                old(self).wf() ==> self.wf(),
            decreases u64::MAX - self.cycles,
        {
            if self.cycles == u64::MAX || self.cpu.instruction_count() == u64::MAX {
                return Err(VosError::Cpu(CpuError::Overflow));
            }
            let ghost before = self.cycles;
            let r = self.step();
            proof {
                n = n + 1;
            }
            match r {
                Ok(true) => {
                    assert(self.cycles == before + 1);
                },
                Ok(false) => {
                    assert(run_n(start, n) == (self.model(), Ok::<bool, VosError>(false)));
                    return Ok(());
                },
                Err(e) => {
                    assert(run_n(start, n) == (self.model(), Err::<bool, VosError>(e)));
                    return Err(e);
                },
            }
        }
    }

    /// Runs at most `max_cycles` steps; `Ok(true)` if still running afterwards, `Ok(false)` once halted.
    pub fn run_cycles(&mut self, max_cycles: u64) -> (r: Result<bool, VosError>)
        requires
            old(self).model().cycles + max_cycles <= u64::MAX,
            old(self).model().cpu.count + max_cycles <= u64::MAX,
        ensures
            (final(self).model(), r) == run_n(old(self).model(), max_cycles as nat),
            old(self).wf() ==> final(self).wf(),
    {
        let ghost start = self.model();
        let mut i: u64 = 0;
        while i < max_cycles
            invariant
                i <= max_cycles,
                start == old(self).model(),
                run_n(start, i as nat) == (self.model(), Ok::<bool, VosError>(true)),
                self.model().cycles <= start.cycles + i,
                self.model().cpu.count <= start.cpu.count + i,
                start.cycles + max_cycles <= u64::MAX,
                start.cpu.count + max_cycles <= u64::MAX,
                old(self).wf() ==> self.wf(),
            decreases max_cycles - i,
        {
            let r = self.step();
            match r {
                Ok(true) => {},
                _ => {
                    proof {
                        lemma_run_n_stopped(start, (i + 1) as nat, max_cycles as nat);
                    }
                    return match r {
                        Ok(_) => Ok(false),
                        Err(e) => Err(e),
                    };
                },
            }
            i += 1;
        }
        Ok(true)
    }

    /// Returns everything to its initial state: processor reset, memory zeroed (mappings kept),
    /// display blank, keyboard empty, timer stopped, cycle count zero.
    pub fn reset(&mut self)
        ensures
            old(self).wf() ==> final(self).wf(),
            final(self).model() == (VmModel {
                cpu: initial_cpu_state(),
                bus: BusModel {
                    mem: MemModel { bytes: Seq::new(old(self).model().bus.mem.bytes.len(), |i: int| 0u8), ..old(self).model().bus.mem },
                    display: if old(self).wf() { blank_display() } else { final(self).model().bus.display },
                    keyboard: initial_keyboard(),
                    timer: initial_timer(),
                },
                cycles: 0,
            }),
    {
        self.cpu.reset();
        self.bus.memory.clear();
        self.bus.display.reset();
        self.bus.keyboard.reset();
        self.bus.timer.reset();
        self.cycles = 0;
    }

    /// The screen contents as text, one line per row.
    pub fn display_output(&self) -> (s: String)
        requires
            self.wf(),
        ensures
            s@ == rows_text(self.model().bus.display.cells, 25),
    {
        self.bus.display.display_to_string()
    }
}

impl Default for VirtualMachine {
    /// A machine with 16 MiB of memory.
    fn default() -> (vm: Self)
        ensures
            vm.wf(),
            vm.model() == (VmModel { cpu: initial_cpu_state(), bus: initial_bus(16 * 1024 * 1024), cycles: 0 }),
    {
        Self::new(16 * 1024 * 1024)
    }
}

impl Executable for VirtualMachine {
    /// One step; fails with an overflow error instead of stepping once a counter is exhausted.
    fn step(&mut self) -> (r: Result<bool, VosError>)
        ensures
            old(self).model().cycles < u64::MAX && old(self).model().cpu.count < u64::MAX ==>
                (final(self).model(), r) == vm_step(old(self).model()),
            !(old(self).model().cycles < u64::MAX && old(self).model().cpu.count < u64::MAX) ==>
                final(self).model() == old(self).model() && r == Err::<bool, VosError>(VosError::Cpu(CpuError::Overflow)),
    {
        if self.cycles == u64::MAX || self.cpu.instruction_count() == u64::MAX {
            return Err(VosError::Cpu(CpuError::Overflow));
        }
        VirtualMachine::step(self)
    }

    fn run(&mut self) -> (r: Result<(), VosError>) {
        VirtualMachine::run(self)
    }

    fn reset(&mut self) {
        VirtualMachine::reset(self)
    }
}

/// Text of `inspect` on a machine.
pub open spec fn vm_inspect_text(v: VmModel) -> Seq<char> {
    "=== Virtual Machine State ===\n\n"@ + "Cycles: "@ + dec(v.cycles as nat) + "\n\n"@ + cpu_inspect_text(v.cpu) + "\n"@
        + "Memory: "@ + dec(v.bus.mem.bytes.len()) + " bytes\n"@ + "Display: "@ + dec(80) + "x"@ + dec(25) + "\n"@
        + "Keyboard: "@ + (if v.bus.keyboard.keys.len() > 0 { "data available"@ } else { "empty"@ }) + " keys buffered\n"@
        + "Timer: "@ + dec(v.bus.timer.counter as nat) + " (enabled: "@ + bool_text(timer_enabled(v.bus.timer)) + ")\n"@
}

/// Key-value pairs `state` gives for a machine.
pub open spec fn vm_state_pairs(v: VmModel) -> Seq<(Seq<char>, Seq<char>)> {
    seq![
        ("Cycles"@, dec(v.cycles as nat)),
        ("Memory Size"@, dec(v.bus.mem.bytes.len())),
        ("CPU Halted"@, bool_text(v.cpu.halted)),
        ("Timer Enabled"@, bool_text(timer_enabled(v.bus.timer))),
    ]
}

fn bool_string(b: bool) -> (s: String)
    ensures
        s@ == bool_text(b),
{
    if b { "true".to_owned() } else { "false".to_owned() }
}

impl Inspectable for VirtualMachine {
    fn inspect(&self) -> (s: String)
        ensures
            s@ == vm_inspect_text(VirtualMachine::model(self)),
    {
        let mut out: Vec<char> = Vec::new();
        push_str(&mut out, "=== Virtual Machine State ===\n\n");
        push_str(&mut out, "Cycles: ");
        push_dec(&mut out, self.cycles);
        push_str(&mut out, "\n\n");
        let c = self.cpu.inspect();
        push_str(&mut out, c.as_str());
        push_str(&mut out, "\n");
        push_str(&mut out, "Memory: ");
        push_dec(&mut out, self.bus.memory.size() as u64);
        push_str(&mut out, " bytes\n");
        push_str(&mut out, "Display: ");
        push_dec(&mut out, DISPLAY_WIDTH as u64);
        push_str(&mut out, "x");
        push_dec(&mut out, DISPLAY_HEIGHT as u64);
        push_str(&mut out, "\n");
        push_str(&mut out, "Keyboard: ");
        if self.bus.keyboard.has_data() {
            push_str(&mut out, "data available");
        } else {
            push_str(&mut out, "empty");
        }
        push_str(&mut out, " keys buffered\n");
        push_str(&mut out, "Timer: ");
        push_dec(&mut out, self.bus.timer.counter() as u64);
        push_str(&mut out, " (enabled: ");
        let e = bool_string(self.bus.timer.is_enabled());
        push_str(&mut out, e.as_str());
        push_str(&mut out, ")\n");
        assert(out@ =~= vm_inspect_text(VirtualMachine::model(self)));
        chars_to_string(&out)
    }

    fn state(&self) -> (pairs: Vec<(String, String)>)
        ensures
            pair_texts(pairs@) == vm_state_pairs(VirtualMachine::model(self)),
    {
        let mut v: Vec<(String, String)> = Vec::new();
        v.push(("Cycles".to_owned(), dec_string(self.cycles)));
        v.push(("Memory Size".to_owned(), dec_string(self.bus.memory.size() as u64)));
        v.push(("CPU Halted".to_owned(), bool_string(self.cpu.is_halted())));
        v.push(("Timer Enabled".to_owned(), bool_string(self.bus.timer.is_enabled())));
        assert(pair_texts(v@) =~= vm_state_pairs(VirtualMachine::model(self)));
        v
    }
}

} // verus!
