//! Common interfaces of devices, executable components, clocked and inspectable components.
use vstd::prelude::*;
use crate::error::VosError;
use crate::types::{Address, Byte, Word};

verus! {

/// The little-endian word of four bytes, least significant first.
pub open spec fn word_of_bytes(b0: u8, b1: u8, b2: u8, b3: u8) -> u32 {
    (b0 as u32) | ((b1 as u32) << 8u32) | ((b2 as u32) << 16u32) | ((b3 as u32) << 24u32)
}

/// A memory-mapped I/O device, accessed by byte offset from its base address.
pub trait Device {
    /// Abstract state of the device, as its byte accesses see it.
    type DeviceState;

    /// The device's current abstract state.
    spec fn device_state(&self) -> Self::DeviceState;

    /// State after, and result of, reading the byte at `offset`.
    spec fn byte_read(s: Self::DeviceState, offset: u32) -> (Self::DeviceState, Result<Byte, VosError>);

    /// State after, and result of, writing `value` at `offset`.
    spec fn byte_written(s: Self::DeviceState, offset: u32, value: Byte) -> (Self::DeviceState, Result<(), VosError>);

    /// Reads a byte at `offset`.
    fn read_byte(&mut self, offset: u32) -> (r: Result<Byte, VosError>)
        ensures
            (final(self).device_state(), r) == Self::byte_read(old(self).device_state(), offset);

    /// Writes a byte at `offset`.
    fn write_byte(&mut self, offset: u32, value: Byte) -> (r: Result<(), VosError>)
        ensures
            (final(self).device_state(), r) == Self::byte_written(old(self).device_state(), offset, value);

    /// Reads a little-endian word as four byte reads.
    fn read_word(&mut self, offset: u32) -> (r: Result<Word, VosError>)
        requires
            offset <= 0xFFFF_FFFC,
        default_ensures
            ({
                let (s1, r0) = Self::byte_read(old(self).device_state(), offset);
                match r0 {
                    Err(e) => (final(self).device_state(), r) == (s1, Err::<Word, VosError>(e)),
                    Ok(b0) => {
                        let (s2, r1) = Self::byte_read(s1, (offset + 1) as u32);
                        match r1 {
                            Err(e) => (final(self).device_state(), r) == (s2, Err::<Word, VosError>(e)),
                            Ok(b1) => {
                                let (s3, r2) = Self::byte_read(s2, (offset + 2) as u32);
                                match r2 {
                                    Err(e) => (final(self).device_state(), r) == (s3, Err::<Word, VosError>(e)),
                                    Ok(b2) => {
                                        let (s4, r3) = Self::byte_read(s3, (offset + 3) as u32);
                                        match r3 {
                                            Err(e) => (final(self).device_state(), r) == (s4, Err::<Word, VosError>(e)),
                                            Ok(b3) => (final(self).device_state(), r) == (s4, Ok::<Word, VosError>(word_of_bytes(b0, b1, b2, b3))),
                                        }
                                    },
                                }
                            },
                        }
                    },
                }
            }),
    {
        let b0 = self.read_byte(offset)? as Word;
        let b1 = self.read_byte(offset + 1)? as Word;
        let b2 = self.read_byte(offset + 2)? as Word;
        let b3 = self.read_byte(offset + 3)? as Word;
        Ok(b0 | (b1 << 8) | (b2 << 16) | (b3 << 24))
    }

    /// Writes a little-endian word as four byte writes.
    fn write_word(&mut self, offset: u32, value: Word) -> (r: Result<(), VosError>)
        requires
            offset <= 0xFFFF_FFFC,
        default_ensures
            ({
                let (s1, r0) = Self::byte_written(old(self).device_state(), offset, (value & 0xFF) as u8);
                match r0 {
                    Err(e) => (final(self).device_state(), r) == (s1, Err::<(), VosError>(e)),
                    Ok(_) => {
                        let (s2, r1) = Self::byte_written(s1, (offset + 1) as u32, ((value >> 8u32) & 0xFF) as u8);
                        match r1 {
                            Err(e) => (final(self).device_state(), r) == (s2, Err::<(), VosError>(e)),
                            Ok(_) => {
                                let (s3, r2) = Self::byte_written(s2, (offset + 2) as u32, ((value >> 16u32) & 0xFF) as u8);
                                match r2 {
                                    Err(e) => (final(self).device_state(), r) == (s3, Err::<(), VosError>(e)),
                                    Ok(_) => (final(self).device_state(), r) == Self::byte_written(s3, (offset + 3) as u32, ((value >> 24u32) & 0xFF) as u8),
                                }
                            },
                        }
                    },
                }
            }),
    {
        self.write_byte(offset, (value & 0xFF) as Byte)?;
        self.write_byte(offset + 1, ((value >> 8) & 0xFF) as Byte)?;
        self.write_byte(offset + 2, ((value >> 16) & 0xFF) as Byte)?;
        self.write_byte(offset + 3, ((value >> 24) & 0xFF) as Byte)?;
        Ok(())
    }

    /// Base address of the device in the memory map.
    fn base_address(&self) -> Address;

    /// Size of the device's address space in bytes.
    fn size(&self) -> usize;

    /// Name of the device.
    fn name(&self) -> &str {
        "Unknown Device"
    }

    /// Advances the device by `cycles` clock cycles.
    fn tick(&mut self, cycles: u64) {
    }

    /// Returns the device to its initial state.
    fn reset(&mut self) {
    }
}

/// A component that executes step by step.
pub trait Executable {
    /// Executes one step; `Ok(true)` when execution should continue.
    fn step(&mut self) -> Result<bool, VosError>;

    /// Runs until the component stops or fails.
    fn run(&mut self) -> Result<(), VosError>;

    /// Returns to the initial state.
    fn reset(&mut self);
}

/// A component advanced by clock cycles.
pub trait Clockable {
    /// Advances by `cycles` cycles.
    fn tick(&mut self, cycles: u64);

    /// Cycles counted so far.
    fn cycle_count(&self) -> u64;
}

/// A component whose state can be shown for debugging.
pub trait Inspectable {
    /// Human-readable description of the state.
    fn inspect(&self) -> String;

    /// State as key-value pairs.
    fn state(&self) -> Vec<(String, String)> {
        Vec::new()
    }
}

} // verus!
