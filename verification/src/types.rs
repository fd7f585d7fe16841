//! Core value types: words, addresses, bytes and address ranges.
use vstd::prelude::*;
use crate::text::{chars_to_string, hex_digits, push_hex, push_str};

verus! {

/// A 32-bit word, the native data type of the CPU.
pub type Word = u32;

/// A memory address (32-bit, byte addressable).
pub type Address = u32;

/// A single byte of data.
pub type Byte = u8;

/// Register index (0-15).
pub type RegisterIndex = u8;

/// A half-open range of memory addresses `[start, end)`.
#[derive(Debug, Clone, Copy, PartialEq, Eq, Hash)]
pub struct AddressRange {
    /// Start address (inclusive)
    pub start: Address,
    /// End address (exclusive)
    pub end: Address,
}

impl AddressRange {
    /// Whether `address` lies in the range.
    pub open spec fn has(self, address: int) -> bool {
        self.start <= address < self.end
    }

    /// Creates a new address range; `start` must lie below `end`.
    pub fn new(start: Address, end: Address) -> (r: Self)
        requires
            start < end,
        ensures
            r.start == start,
            r.end == end,
    {
        Self { start, end }
    }

    /// Size of the range in bytes.
    pub fn size(&self) -> (n: usize)
        requires
            self.start <= self.end,
        ensures
            n == self.end - self.start,
    {
        (self.end - self.start) as usize
    }

    /// Whether `address` lies in the range (the end is exclusive).
    pub fn contains(&self, address: Address) -> (b: bool)
        ensures
            b == self.has(address as int),
    {
        address >= self.start && address < self.end
    }

    /// The range as text: `0x{start:08X}..0x{end:08X}`.
    pub fn text(&self) -> (s: String)
        ensures
            s@ == "0x"@ + hex_digits(self.start as nat, 8) + "..0x"@ + hex_digits(self.end as nat, 8),
    {
        let mut v: Vec<char> = Vec::new();
        push_str(&mut v, "0x");
        push_hex(&mut v, self.start as u64, 8);
        push_str(&mut v, "..0x");
        push_hex(&mut v, self.end as u64, 8);
        chars_to_string(&v)
    }

    /// Whether the two ranges share at least one address.
    pub fn overlaps(&self, other: &AddressRange) -> (b: bool)
        ensures
            b == (self.start < other.end && other.start < self.end),
    {
        self.start < other.end && other.start < self.end
    }
}

/// Two non-empty ranges overlap exactly when some address lies in both.
pub proof fn lemma_overlaps_iff_common_address(a: AddressRange, b: AddressRange)
    requires
        a.start < a.end,
        b.start < b.end,
    ensures
        (a.start < b.end && b.start < a.end) <==> exists|x: int| a.has(x) && b.has(x),
{
    if a.start < b.end && b.start < a.end {
        let x: int = if a.start < b.start { b.start as int } else { a.start as int };
        assert(a.has(x) && b.has(x));
    }
}

/// Overlap is symmetric.
pub proof fn lemma_overlaps_symmetric(a: AddressRange, b: AddressRange)
    ensures
        (a.start < b.end && b.start < a.end) == (b.start < a.end && a.start < b.end),
{
}

} // verus!
