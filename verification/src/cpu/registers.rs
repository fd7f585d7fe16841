//! The register file and the status flags.
use vstd::prelude::*;
use crate::error::{CpuError, VosError};
use crate::types::{Address, RegisterIndex, Word};
use crate::text::{chars_to_string, push_dec, push_dec_signed, push_hex8, push_str, dec, dec_signed, hex8};

verus! {

/// CPU status flags.
#[derive(Debug, Clone, Copy, PartialEq, Eq)]
pub struct Flags {
    /// Set when the result is zero
    pub zero: bool,
    /// Set when the result is negative
    pub negative: bool,
    /// Set when unsigned overflow occurs
    pub carry: bool,
    /// Set when signed overflow occurs
    pub overflow: bool,
}

/// Flags with every bit clear.
pub open spec fn cleared_flags() -> Flags {
    Flags { zero: false, negative: false, carry: false, overflow: false }
}

/// A word read as a signed 32-bit value.
pub open spec fn signed(w: u32) -> int {
    if w < 0x8000_0000 { w as int } else { w - 0x1_0000_0000 }
}

/// Byte layout of the flags: bit 0 zero, bit 1 negative, bit 2 carry, bit 3 overflow.
pub open spec fn flags_byte(f: Flags) -> u8 {
    ((if f.zero { 1u8 } else { 0u8 }) + (if f.negative { 2u8 } else { 0u8 })
        + (if f.carry { 4u8 } else { 0u8 }) + (if f.overflow { 8u8 } else { 0u8 })) as u8
}

impl Flags {
    /// Flags with all bits cleared.
    pub fn new() -> (f: Self)
        ensures
            f == cleared_flags(),
    {
        Flags { zero: false, negative: false, carry: false, overflow: false }
    }

    /// Sets zero and negative from a result; carry and overflow are kept.
    pub fn update_zn(&mut self, result: Word)
        ensures
            final(self).zero == (result == 0),
            final(self).negative == (signed(result) < 0),
            final(self).carry == old(self).carry,
            final(self).overflow == old(self).overflow,
    {
        self.zero = result == 0;
        self.negative = result >= 0x8000_0000;
    }

    /// Packs the flags into a byte: `[0:4][overflow][carry][negative][zero]`.
    pub fn to_byte(&self) -> (b: u8)
        ensures
            b == flags_byte(*self),
    {
        let mut byte: u8 = 0;
        if self.zero { byte = byte + 1; }
        if self.negative { byte = byte + 2; }
        if self.carry { byte = byte + 4; }
        if self.overflow { byte = byte + 8; }
        byte
    }

    /// Unpacks flags from the low four bits of a byte.
    pub fn from_byte(byte: u8) -> (f: Self)
        ensures
            f.zero == (byte & 0x01 != 0),
            f.negative == (byte & 0x02 != 0),
            f.carry == (byte & 0x04 != 0),
            f.overflow == (byte & 0x08 != 0),
    {
        Flags {
            zero: (byte & 0x01) != 0,
            negative: (byte & 0x02) != 0,
            carry: (byte & 0x04) != 0,
            overflow: (byte & 0x08) != 0,
        }
    }
}

/// Unpacking the packed byte gives back the same flags.
pub proof fn lemma_flags_byte_roundtrip(f: Flags)
    ensures
        ({
            let b = flags_byte(f);
            (b & 0x01 != 0) == f.zero && (b & 0x02 != 0) == f.negative && (b & 0x04 != 0) == f.carry
                && (b & 0x08 != 0) == f.overflow
        }),
{
    let z: u8 = if f.zero { 1u8 } else { 0u8 };
    let n: u8 = if f.negative { 2u8 } else { 0u8 };
    let c: u8 = if f.carry { 4u8 } else { 0u8 };
    let o: u8 = if f.overflow { 8u8 } else { 0u8 };
    assert(flags_byte(f) == z + n + c + o);
    assert((z == 0 || z == 1) && (n == 0 || n == 2) && (c == 0 || c == 4) && (o == 0 || o == 8) ==> {
        let b = (z + n + c + o) as u8;
        &&& (b & 0x01 != 0) == (z == 1)
        &&& (b & 0x02 != 0) == (n == 2)
        &&& (b & 0x04 != 0) == (c == 4)
        &&& (b & 0x08 != 0) == (o == 8)
    }) by (bit_vector);
}

/// The sixteen general-purpose register slots, reached only through `Registers::read` and
/// `Registers::write`, so that R0 always reads as zero.
#[derive(Debug, Clone, PartialEq, Eq)]
pub struct GeneralRegisters {
    slots: [Word; 16],
}

impl GeneralRegisters {
    /// What the slots hold (slot 0 is never read).
    pub closed spec fn stored(&self) -> [Word; 16] {
        self.slots
    }
}

/// The register file: sixteen general-purpose registers plus PC, IR and flags.
#[derive(Debug, Clone, PartialEq, Eq)]
pub struct Registers {
    /// General-purpose registers (R0-R15); R0 reads as zero whatever it holds
    pub gpr: GeneralRegisters,
    /// Program counter
    pub pc: Address,
    /// Instruction register
    pub ir: Word,
    /// Status flags
    pub flags: Flags,
}

impl Registers {
    /// Value of register `index` as `read` returns it: R0 and indices above 15 read as zero.
    pub open spec fn value(&self, index: int) -> u32 {
        if 0 < index < 16 { self.gpr.stored()@[index] } else { 0 }
    }

    /// The values of R0..R15.
    pub open spec fn values(&self) -> Seq<u32> {
        register_values(self.gpr.stored())
    }

    /// A register file with every register, PC, IR and flags zero.
    pub open spec fn is_zeroed(&self) -> bool {
        &&& self.values() == zero_registers()
        &&& self.pc == 0
        &&& self.ir == 0
        &&& self.flags == cleared_flags()
    }

    /// A register file with all registers zero.
    pub fn new() -> (r: Self)
        ensures
            r.is_zeroed(),
    {
        let r = Self { gpr: GeneralRegisters { slots: [0; 16] }, pc: 0, ir: 0, flags: Flags::new() };
        assert(r.values() =~= zero_registers());
        r
    }

    /// Reads a register; R0 always reads zero and so does an index above 15.
    pub fn read(&self, index: RegisterIndex) -> (v: Word)
        ensures
            v == self.value(index as int),
    {
        if index == 0 {
            0
        } else if index < 16 {
            self.gpr.slots[index as usize]
        } else {
            0
        }
    }

    /// Writes a register; writes to R0 or to an index above 15 are ignored.
    pub fn write(&mut self, index: RegisterIndex, value: Word)
        ensures
            forall|i: int| #![trigger final(self).value(i)]
                final(self).value(i) == (if i == index as int && 0 < i < 16 { value } else { old(self).value(i) }),
            final(self).pc == old(self).pc,
            final(self).ir == old(self).ir,
            final(self).flags == old(self).flags,
    {
        if index > 0 && index < 16 {
            self.gpr.slots[index as usize] = value;
        }
    }

    /// Reads a register, failing for an index above 15.
    pub fn try_read(&self, index: RegisterIndex) -> (r: Result<Word, VosError>)
        ensures
            index < 16 ==> r == Ok::<Word, VosError>(self.value(index as int)),
            index >= 16 ==> r == Err::<Word, VosError>(VosError::Cpu(CpuError::InvalidRegister(index))),
    {
        if index < 16 {
            Ok(self.read(index))
        } else {
            Err(VosError::Cpu(CpuError::InvalidRegister(index)))
        }
    }

    /// Writes a register, failing (and changing nothing) for an index above 15.
    pub fn try_write(&mut self, index: RegisterIndex, value: Word) -> (r: Result<(), VosError>)
        ensures
            index < 16 ==> r == Ok::<(), VosError>(()) && forall|i: int| #![trigger final(self).value(i)]
                final(self).value(i) == (if i == index as int && 0 < i < 16 { value } else { old(self).value(i) }),
            index >= 16 ==> r == Err::<(), VosError>(VosError::Cpu(CpuError::InvalidRegister(index)))
                && *final(self) == *old(self),
            final(self).pc == old(self).pc,
            final(self).ir == old(self).ir,
            final(self).flags == old(self).flags,
    {
        if index < 16 {
            self.write(index, value);
            Ok(())
        } else {
            Err(VosError::Cpu(CpuError::InvalidRegister(index)))
        }
    }

    /// Resets every register, PC, IR and the flags to zero.
    pub fn reset(&mut self)
        ensures
            final(self).is_zeroed(),
    {
        self.gpr = GeneralRegisters { slots: [0; 16] };
        self.pc = 0;
        self.ir = 0;
        self.flags = Flags::new();
        assert(self.values() =~= zero_registers());
    }

    /// Formatted listing of all registers, PC, IR and flags.
    #[verifier::rlimit(30)]
    pub fn dump(&self) -> (s: String)
        ensures
            s@ == registers_dump_text(self.values(), self.pc, self.ir, self.flags),
    {
        let mut out: Vec<char> = Vec::new();
        push_str(&mut out, "Registers:\n");
        let mut i: u8 = 0;
        while i < 16
            invariant
                0 <= i <= 16,
                out@ == "Registers:\n"@ + register_lines(self.values(), i as nat),
            decreases 16 - i,
        {
            let v = self.read(i);
            let ghost before = out@;
            push_str(&mut out, "  R");
            if i < 10 {
                push_str(&mut out, " ");
            }
            push_dec(&mut out, i as u64);
            push_str(&mut out, ": 0x");
            push_hex8(&mut out, v as u64);
            push_str(&mut out, " (");
            let sv: i64 = if v >= 0x8000_0000 { v as i64 - 0x1_0000_0000 } else { v as i64 };
            push_dec_signed(&mut out, sv);
            push_str(&mut out, ")\n");
            assert(self.values()[i as int] == v);
            assert(out@ =~= before + register_line(i as nat, v));
            i += 1;
            assert("Registers:\n"@ + register_lines(self.values(), i as nat) =~= before + register_line((i - 1) as nat, v));
        }
        push_str(&mut out, "\nPC:    0x");
        push_hex8(&mut out, self.pc as u64);
        push_str(&mut out, "\nIR:    0x");
        push_hex8(&mut out, self.ir as u64);
        push_str(&mut out, "\nFLAGS: Z=");
        push_dec(&mut out, if self.flags.zero { 1 } else { 0 });
        push_str(&mut out, " N=");
        push_dec(&mut out, if self.flags.negative { 1 } else { 0 });
        push_str(&mut out, " C=");
        push_dec(&mut out, if self.flags.carry { 1 } else { 0 });
        push_str(&mut out, " V=");
        push_dec(&mut out, if self.flags.overflow { 1 } else { 0 });
        push_str(&mut out, "\n");
        assert(out@ =~= registers_dump_text(self.values(), self.pc, self.ir, self.flags));
        chars_to_string(&out)
    }
}

/// The values the registers read as, R0 being zero.
pub open spec fn register_values(gpr: [u32; 16]) -> Seq<u32> {
    Seq::new(16, |i: int| if 0 < i < 16 { gpr@[i] } else { 0 })
}

/// Sixteen zero registers.
pub open spec fn zero_registers() -> Seq<u32> {
    Seq::new(16, |i: int| 0u32)
}

/// One register line of the dump: `  R{:2}: 0x{:08X} ({signed})`.
pub open spec fn register_line(i: nat, v: u32) -> Seq<char> {
    "  R"@ + (if i < 10 { " "@ } else { Seq::empty() }) + dec(i) + ": 0x"@ + hex8(v as nat) + " ("@
        + dec_signed(signed(v)) + ")\n"@
}

/// The first `n` register lines of the dump.
pub open spec fn register_lines(values: Seq<u32>, n: nat) -> Seq<char>
    decreases n,
{
    if n == 0 { Seq::empty() } else { register_lines(values, (n - 1) as nat) + register_line((n - 1) as nat, values[n - 1]) }
}

/// Text of `Registers::dump`.
pub open spec fn registers_dump_text(values: Seq<u32>, pc: u32, ir: u32, f: Flags) -> Seq<char> {
    "Registers:\n"@ + register_lines(values, 16) + "\nPC:    0x"@ + hex8(pc as nat) + "\nIR:    0x"@
        + hex8(ir as nat) + "\nFLAGS: Z="@ + dec(if f.zero { 1 } else { 0 }) + " N="@
        + dec(if f.negative { 1 } else { 0 }) + " C="@ + dec(if f.carry { 1 } else { 0 }) + " V="@
        + dec(if f.overflow { 1 } else { 0 }) + "\n"@
}

/// A read after a write gives the written value, unless the register is R0 or out of range.
pub proof fn lemma_read_after_write(before: Registers, after: Registers, index: u8, value: u32, probe: u8)
    requires
        forall|i: int| #![trigger after.value(i)]
            after.value(i) == (if i == index as int && 0 < i < 16 { value } else { before.value(i) }),
    ensures
        after.value(probe as int) == (if probe == index && 0 < index < 16 { value } else { before.value(probe as int) }),
        after.value(0) == 0,
{
}

} // verus!
