//! Arithmetic logic unit.
use vstd::prelude::*;
use crate::cpu::registers::{Flags, signed};
use crate::error::{CpuError, VosError};
use crate::types::Word;

verus! {

/// Result of an ALU operation: the value and the updated flags.
#[derive(Debug, Clone, Copy, PartialEq, Eq)]
pub struct AluResult {
    /// The result of the operation
    pub value: Word,
    /// Updated CPU flags
    pub flags: Flags,
}

/// Flags after an operation that sets only zero and negative.
pub open spec fn zn_flags(v: u32) -> Flags {
    Flags { zero: v == 0, negative: signed(v) < 0, carry: false, overflow: false }
}

/// A result whose flags carry only zero and negative.
pub open spec fn zn_result(v: u32) -> AluResult {
    AluResult { value: v, flags: zn_flags(v) }
}

/// Whether a signed value fits in 32 bits.
pub open spec fn fits_i32(x: int) -> bool {
    -0x8000_0000 <= x <= 0x7FFF_FFFF
}

/// Result of `add`: wrapped sum, carry on unsigned overflow, overflow on signed overflow.
pub open spec fn add_spec(a: u32, b: u32) -> AluResult {
    let v = if a + b > u32::MAX { (a + b - 0x1_0000_0000) as u32 } else { (a + b) as u32 };
    AluResult {
        value: v,
        flags: Flags { zero: v == 0, negative: signed(v) < 0, carry: a + b > u32::MAX, overflow: !fits_i32(signed(a) + signed(b)) },
    }
}

/// Result of `sub`: wrapped difference, carry on borrow, overflow on signed overflow.
pub open spec fn sub_spec(a: u32, b: u32) -> AluResult {
    let v = if a >= b { (a - b) as u32 } else { (a - b + 0x1_0000_0000) as u32 };
    AluResult {
        value: v,
        flags: Flags { zero: v == 0, negative: signed(v) < 0, carry: a < b, overflow: !fits_i32(signed(a) - signed(b)) },
    }
}

/// Arithmetic logic unit; it holds no state.
#[derive(Debug, Clone, Copy)]
pub struct Alu;

fn zn(result: Word) -> (f: Flags)
    ensures
        f == zn_flags(result),
{
    let mut flags = Flags::new();
    flags.update_zn(result);
    flags
}

impl Alu {
    /// Creates a new ALU.
    pub fn new() -> Self {
        Alu
    }

    /// Adds two values.
    pub fn add(&self, a: Word, b: Word) -> (r: Result<AluResult, VosError>)
        ensures
            r == Ok::<AluResult, VosError>(add_spec(a, b)),
    {
        let result = a.wrapping_add(b);
        let mut flags = zn(result);
        flags.carry = result < a;
        let a_sign = a >= 0x8000_0000;
        let b_sign = b >= 0x8000_0000;
        let result_sign = result >= 0x8000_0000;
        flags.overflow = (a_sign == b_sign) && (a_sign != result_sign);
        Ok(AluResult { value: result, flags })
    }

    /// Subtracts `b` from `a`.
    pub fn sub(&self, a: Word, b: Word) -> (r: Result<AluResult, VosError>)
        ensures
            r == Ok::<AluResult, VosError>(sub_spec(a, b)),
    {
        let result = a.wrapping_sub(b);
        let mut flags = zn(result);
        flags.carry = a < b;
        let a_sign = a >= 0x8000_0000;
        let b_sign = b >= 0x8000_0000;
        let result_sign = result >= 0x8000_0000;
        flags.overflow = (a_sign != b_sign) && (a_sign != result_sign);
        Ok(AluResult { value: result, flags })
    }

    /// Multiplies, keeping the low 32 bits.
    pub fn mul(&self, a: Word, b: Word) -> (r: Result<AluResult, VosError>)
        ensures
            r == Ok::<AluResult, VosError>(zn_result(((a as nat * b as nat) % 0x1_0000_0000) as u32)),
    {
        let result = a.wrapping_mul(b);
        Ok(AluResult { value: result, flags: zn(result) })
    }

    /// Unsigned division; fails when `b` is zero.
    pub fn div(&self, a: Word, b: Word) -> (r: Result<AluResult, VosError>)
        ensures
            b == 0 ==> r == Err::<AluResult, VosError>(VosError::Cpu(CpuError::DivisionByZero)),
            b != 0 ==> r == Ok::<AluResult, VosError>(zn_result(a / b)),
    {
        if b == 0 {
            return Err(VosError::Cpu(CpuError::DivisionByZero));
        }
        let result = a / b;
        Ok(AluResult { value: result, flags: zn(result) })
    }

    /// Bitwise AND.
    pub fn and(&self, a: Word, b: Word) -> (r: Result<AluResult, VosError>)
        ensures
            r == Ok::<AluResult, VosError>(zn_result(a & b)),
    {
        let result = a & b;
        Ok(AluResult { value: result, flags: zn(result) })
    }

    /// Bitwise OR.
    pub fn or(&self, a: Word, b: Word) -> (r: Result<AluResult, VosError>)
        ensures
            r == Ok::<AluResult, VosError>(zn_result(a | b)),
    {
        let result = a | b;
        Ok(AluResult { value: result, flags: zn(result) })
    }

    /// Bitwise XOR.
    pub fn xor(&self, a: Word, b: Word) -> (r: Result<AluResult, VosError>)
        ensures
            r == Ok::<AluResult, VosError>(zn_result(a ^ b)),
    {
        let result = a ^ b;
        Ok(AluResult { value: result, flags: zn(result) })
    }

    /// Bitwise NOT.
    pub fn not(&self, a: Word) -> (r: Result<AluResult, VosError>)
        ensures
            r == Ok::<AluResult, VosError>(zn_result(!a)),
    {
        let result = !a;
        Ok(AluResult { value: result, flags: zn(result) })
    }

    /// Logical shift left by the low five bits of `shift`.
    pub fn sll(&self, value: Word, shift: u8) -> (r: Result<AluResult, VosError>)
        ensures
            r == Ok::<AluResult, VosError>(zn_result(value << ((shift & 0x1F) as u32))),
    {
        let s = (shift & 0x1F) as u32;
        assert(shift & 0x1F < 32) by (bit_vector);
        let result = value << s;
        Ok(AluResult { value: result, flags: zn(result) })
    }

    /// Logical shift right by the low five bits of `shift`, filling with zeros.
    pub fn srl(&self, value: Word, shift: u8) -> (r: Result<AluResult, VosError>)
        ensures
            r == Ok::<AluResult, VosError>(zn_result(value >> ((shift & 0x1F) as u32))),
    {
        let s = (shift & 0x1F) as u32;
        assert(shift & 0x1F < 32) by (bit_vector);
        let result = value >> s;
        Ok(AluResult { value: result, flags: zn(result) })
    }

    /// Arithmetic shift right by the low five bits of `shift`, copying the sign bit.
    pub fn sra(&self, value: Word, shift: u8) -> (r: Result<AluResult, VosError>)
        ensures
            r == Ok::<AluResult, VosError>(zn_result(((value as i32) >> ((shift & 0x1F) as u32)) as u32)),
    {
        let s = (shift & 0x1F) as u32;
        assert(shift & 0x1F < 32) by (bit_vector);
        let result = ((value as i32) >> s) as u32;
        Ok(AluResult { value: result, flags: zn(result) })
    }

    /// 1 when `a < b` as signed values, else 0.
    pub fn slt(&self, a: Word, b: Word) -> (r: Result<AluResult, VosError>)
        ensures
            r == Ok::<AluResult, VosError>(zn_result(if signed(a) < signed(b) { 1 } else { 0 })),
    {
        let result: u32 = if signed_less(a, b) { 1 } else { 0 };
        Ok(AluResult { value: result, flags: zn(result) })
    }

    /// 1 when `a > b` as signed values, else 0.
    pub fn sgt(&self, a: Word, b: Word) -> (r: Result<AluResult, VosError>)
        ensures
            r == Ok::<AluResult, VosError>(zn_result(if signed(a) > signed(b) { 1 } else { 0 })),
    {
        let result: u32 = if signed_less(b, a) { 1 } else { 0 };
        Ok(AluResult { value: result, flags: zn(result) })
    }
}

/// Signed comparison of two words.
pub fn signed_less(a: Word, b: Word) -> (r: bool)
    ensures
        r == (signed(a) < signed(b)),
{
    let a_neg = a >= 0x8000_0000;
    let b_neg = b >= 0x8000_0000;
    if a_neg != b_neg { a_neg } else { a < b }
}

/// Adding then subtracting the same value gives back the first operand.
pub proof fn lemma_add_sub_inverse(a: u32, b: u32)
    ensures
        sub_spec(add_spec(a, b).value, b).value == a,
{
}

} // verus!
