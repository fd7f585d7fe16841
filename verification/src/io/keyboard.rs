//! Keyboard device: a FIFO of key codes behind memory-mapped registers.
use vstd::prelude::*;
use std::collections::VecDeque;
use crate::error::VosError;
use crate::traits::Device;
use crate::types::{Address, Byte};

verus! {

/// Base address of the keyboard in the memory map.
pub const KEYBOARD_BASE: Address = 0x8000_2000;
/// Keyboard device size.
pub const KEYBOARD_SIZE: usize = 16;
/// Capacity of the key buffer.
pub const BUFFER_SIZE: usize = 16;
/// Data register: reading takes the next key (0 when empty).
pub const REG_DATA: u32 = 0;
/// Status register.
pub const REG_STATUS: u32 = 4;
/// Control register.
pub const REG_CONTROL: u32 = 8;
/// Status bit: data available.
pub const STATUS_DATA_READY: u8 = 0x01;
/// Status bit: buffer full.
pub const STATUS_BUFFER_FULL: u8 = 0x02;

/// Abstract keyboard state.
pub struct KeyboardModel {
    /// Buffered keys, oldest first
    pub keys: Seq<u8>,
    /// Control register
    pub control: u8,
    /// Interrupts enabled
    pub interrupts: bool,
}

/// Value of the status register.
pub open spec fn keyboard_status(keys: Seq<u8>) -> u8 {
    ((if keys.len() > 0 { 1u8 } else { 0u8 }) + (if keys.len() >= 16 { 2u8 } else { 0u8 })) as u8
}

/// State after, and byte returned by, reading a register.
pub open spec fn keyboard_read(m: KeyboardModel, offset: u32) -> (KeyboardModel, u8) {
    if offset == 0 {
        if m.keys.len() > 0 { (KeyboardModel { keys: m.keys.drop_first(), ..m }, m.keys[0]) } else { (m, 0) }
    } else if offset == 4 {
        (m, keyboard_status(m.keys))
    } else if offset == 8 {
        (m, m.control)
    } else {
        (m, 0)
    }
}

/// State after writing a register; only the control register is writable.
pub open spec fn keyboard_write(m: KeyboardModel, offset: u32, value: u8) -> KeyboardModel {
    if offset == 8 { KeyboardModel { control: value, interrupts: value & 1 != 0, ..m } } else { m }
}

/// An empty keyboard with interrupts off.
pub open spec fn initial_keyboard() -> KeyboardModel {
    KeyboardModel { keys: Seq::empty(), control: 0, interrupts: false }
}

/// Keyboard input device.
#[derive(Debug, Clone)]
pub struct Keyboard {
    /// Input buffer (FIFO queue)
    buffer: VecDeque<u8>,
    /// Control register
    control: u8,
    /// Generate interrupts on key press?
    interrupt_enabled: bool,
}

impl Keyboard {
    /// Abstract state.
    pub closed spec fn model(&self) -> KeyboardModel {
        KeyboardModel { keys: self.buffer@, control: self.control, interrupts: self.interrupt_enabled }
    }

    /// An empty keyboard.
    pub fn new() -> (k: Self)
        ensures
            k.model() == initial_keyboard(),
    {
        Self { buffer: VecDeque::with_capacity(BUFFER_SIZE), control: 0, interrupt_enabled: false }
    }

    /// Queues a key; returns false (and drops it) when the buffer already holds 16 keys.
    pub fn push_key(&mut self, key: u8) -> (added: bool)
        ensures
            added == (old(self).model().keys.len() < 16),
            final(self).model() == (if added {
                KeyboardModel { keys: old(self).model().keys.push(key), ..old(self).model() }
            } else {
                old(self).model()
            }),
    {
        if self.buffer.len() < BUFFER_SIZE {
            self.buffer.push_back(key);
            true
        } else {
            false
        }
    }

    /// Takes the oldest key, if any.
    pub fn pop_key(&mut self) -> (k: Option<u8>)
        ensures
            old(self).model().keys.len() > 0 ==> k == Some(old(self).model().keys[0])
                && final(self).model() == (KeyboardModel { keys: old(self).model().keys.drop_first(), ..old(self).model() }),
            old(self).model().keys.len() == 0 ==> k is None && final(self).model() == old(self).model(),
    {
        self.buffer.pop_front()
    }

    /// Whether a key is buffered.
    pub fn has_data(&self) -> (b: bool)
        ensures
            b == (self.model().keys.len() > 0),
    {
        self.buffer.len() > 0
    }

    /// Whether the buffer is full.
    pub fn is_full(&self) -> (b: bool)
        ensures
            b == (self.model().keys.len() >= 16),
    {
        self.buffer.len() >= BUFFER_SIZE
    }

    fn status(&self) -> (s: u8)
        ensures
            s == keyboard_status(self.model().keys),
    {
        let mut status: u8 = 0;
        if self.has_data() {
            status = status + STATUS_DATA_READY;
        }
        if self.is_full() {
            status = status + STATUS_BUFFER_FULL;
        }
        status
    }

    /// Whether interrupts are enabled.
    pub fn interrupt_enabled(&self) -> (b: bool)
        ensures
            b == self.model().interrupts,
    {
        self.interrupt_enabled
    }

    /// Enables or disables interrupts.
    pub fn set_interrupt_enabled(&mut self, enabled: bool)
        ensures
            final(self).model() == (KeyboardModel { interrupts: enabled, ..old(self).model() }),
    {
        self.interrupt_enabled = enabled;
    }

    /// Empties the buffer.
    pub fn clear(&mut self)
        ensures
            final(self).model() == (KeyboardModel { keys: Seq::empty(), ..old(self).model() }),
    {
        self.buffer.clear();
    }
}

impl Device for Keyboard {
    type DeviceState = KeyboardModel;

    open spec fn device_state(&self) -> KeyboardModel {
        self.model()
    }

    open spec fn byte_read(s: KeyboardModel, offset: u32) -> (KeyboardModel, Result<Byte, VosError>) {
        { let (m, b) = keyboard_read(s, offset); (m, Ok::<u8, VosError>(b)) }
    }

    open spec fn byte_written(s: KeyboardModel, offset: u32, value: Byte) -> (KeyboardModel, Result<(), VosError>) {
        (keyboard_write(s, offset, value), Ok::<(), VosError>(()))
    }

    fn read_byte(&mut self, offset: u32) -> (r: Result<Byte, VosError>)
        ensures
            (final(self).model(), r) == ({
                let (m, b) = keyboard_read(old(self).model(), offset);
                (m, Ok::<u8, VosError>(b))
            }),
    {
        if offset == REG_DATA {
            match self.pop_key() {
                Some(k) => Ok(k),
                None => Ok(0),
            }
        } else if offset == REG_STATUS {
            Ok(self.status())
        } else if offset == REG_CONTROL {
            Ok(self.control)
        } else {
            Ok(0)
        }
    }

    fn write_byte(&mut self, offset: u32, value: Byte) -> (r: Result<(), VosError>)
        ensures
            r == Ok::<(), VosError>(()),
            final(self).model() == keyboard_write(old(self).model(), offset, value),
    {
        if offset == REG_CONTROL {
            self.control = value;
            self.interrupt_enabled = (value & 0x01) != 0;
        }
        Ok(())
    }

    fn base_address(&self) -> (a: Address)
        ensures
            a == 0x8000_2000,
    {
        KEYBOARD_BASE
    }

    fn size(&self) -> (n: usize)
        ensures
            n == 16,
    {
        KEYBOARD_SIZE
    }

    fn name(&self) -> (s: &str)
        ensures
            s@ == "Keyboard"@,
    {
        "Keyboard"
    }

    fn reset(&mut self)
        ensures
            final(self).model() == initial_keyboard(),
    {
        self.clear();
        self.control = 0;
        self.interrupt_enabled = false;
    }
}

/// Keys come out of the keyboard in the order they went in.
pub proof fn lemma_fifo(m: KeyboardModel, k: u8)
    requires
        m.keys.len() < 16,
    ensures
        ({
            let pushed = KeyboardModel { keys: m.keys.push(k), ..m };
            &&& m.keys.len() == 0 ==> keyboard_read(pushed, 0).1 == k
            &&& m.keys.len() > 0 ==> keyboard_read(pushed, 0).1 == m.keys[0]
        }),
{
}

} // verus!
