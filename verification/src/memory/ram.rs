//! Physical RAM: byte-addressable storage with little-endian words.
use vstd::prelude::*;
use crate::error::{MemoryError, VosError};
use crate::types::{Address, Byte, Word};
use crate::text::{chars_to_string, push_hex8, push_hex, push_str, hex8, hex_digits};

verus! {

/// Little-endian word stored at `a` (the caller keeps `a + 3` in bounds).
pub open spec fn word_at(bytes: Seq<u8>, a: int) -> u32 {
    (bytes[a] as nat + bytes[a + 1] as nat * 0x100 + bytes[a + 2] as nat * 0x1_0000 + bytes[a + 3] as nat * 0x100_0000) as u32
}

/// Byte `k` (0 = least significant) of a word.
pub open spec fn byte_of(v: u32, k: nat) -> u8 {
    ((v as nat / pow256(k)) % 256) as u8
}

/// 256 to the power `k`, for `k` up to 3.
pub open spec fn pow256(k: nat) -> nat {
    if k == 0 { 1 } else if k == 1 { 0x100 } else if k == 2 { 0x1_0000 } else { 0x100_0000 }
}

/// The bytes with the little-endian encoding of `v` stored at `a`.
pub open spec fn put_word(bytes: Seq<u8>, a: int, v: u32) -> Seq<u8> {
    bytes.update(a, byte_of(v, 0)).update(a + 1, byte_of(v, 1)).update(a + 2, byte_of(v, 2)).update(a + 3, byte_of(v, 3))
}

/// The out-of-bounds error for an address and a memory size.
pub open spec fn out_of_bounds(address: u32, size: usize) -> VosError {
    VosError::Memory(MemoryError::OutOfBounds { address, size })
}

/// An integer taken modulo 2^32.
pub open spec fn wrap32(x: int) -> u32 {
    (x % 0x1_0000_0000) as u32
}

/// What `read_word` returns.
pub open spec fn ram_read_word(bytes: Seq<u8>, address: u32) -> Result<u32, VosError> {
    if address >= bytes.len() {
        Err(out_of_bounds(address, bytes.len() as usize))
    } else if address + 3 >= bytes.len() {
        Err(out_of_bounds(wrap32(address + 3), bytes.len() as usize))
    } else {
        Ok(word_at(bytes, address as int))
    }
}

/// Contents after, and result of, `write_word`.
pub open spec fn ram_write_word(bytes: Seq<u8>, address: u32, v: u32) -> (Seq<u8>, Result<(), VosError>) {
    if address >= bytes.len() {
        (bytes, Err(out_of_bounds(address, bytes.len() as usize)))
    } else if address + 3 >= bytes.len() {
        (bytes, Err(out_of_bounds(wrap32(address + 3), bytes.len() as usize)))
    } else {
        (put_word(bytes, address as int, v), Ok(()))
    }
}

/// What `read_byte` returns.
pub open spec fn ram_read_byte(bytes: Seq<u8>, address: u32) -> Result<u8, VosError> {
    if address < bytes.len() { Ok(bytes[address as int]) } else { Err(out_of_bounds(address, bytes.len() as usize)) }
}

/// Contents after, and result of, `write_byte`.
pub open spec fn ram_write_byte(bytes: Seq<u8>, address: u32, v: u8) -> (Seq<u8>, Result<(), VosError>) {
    if address < bytes.len() {
        (bytes.update(address as int, v), Ok(()))
    } else {
        (bytes, Err(out_of_bounds(address, bytes.len() as usize)))
    }
}

proof fn lemma_word_bytes(v: u32)
    ensures
        v & 0xFF == byte_of(v, 0),
        (v >> 8u32) & 0xFF == byte_of(v, 1),
        (v >> 16u32) & 0xFF == byte_of(v, 2),
        (v >> 24u32) & 0xFF == byte_of(v, 3),
        byte_of(v, 0) as nat + byte_of(v, 1) as nat * 0x100 + byte_of(v, 2) as nat * 0x1_0000
            + byte_of(v, 3) as nat * 0x100_0000 == v,
{
    assert(v & 0xFF == v % 256) by (bit_vector);
    assert((v >> 8u32) & 0xFF == (v / 0x100) % 256) by (bit_vector);
    assert((v >> 16u32) & 0xFF == (v / 0x1_0000) % 256) by (bit_vector);
    assert((v >> 24u32) & 0xFF == (v / 0x100_0000) % 256) by (bit_vector);
    assert(v % 256 + ((v / 0x100) % 256) * 0x100 + ((v / 0x1_0000) % 256) * 0x1_0000 + ((v / 0x100_0000) % 256) * 0x100_0000 == v)
        by (bit_vector);
}

proof fn lemma_combine(b0: u32, b1: u32, b2: u32, b3: u32)
    requires
        b0 < 256, b1 < 256, b2 < 256, b3 < 256,
    ensures
        b0 | (b1 << 8u32) | (b2 << 16u32) | (b3 << 24u32) == (b0 + b1 * 0x100 + b2 * 0x1_0000 + b3 * 0x100_0000) as u32,
{
    assert(b0 < 256 && b1 < 256 && b2 < 256 && b3 < 256 ==>
        b0 | (b1 << 8u32) | (b2 << 16u32) | (b3 << 24u32) == (b0 + b1 * 0x100 + b2 * 0x1_0000 + b3 * 0x100_0000) as u32)
        by (bit_vector);
}

/// Reading a word just written at the same in-bounds address gives the written value.
pub proof fn lemma_word_roundtrip(bytes: Seq<u8>, a: int, v: u32)
    requires
        0 <= a,
        a + 3 < bytes.len(),
    ensures
        word_at(put_word(bytes, a, v), a) == v,
{
    lemma_word_bytes(v);
}

fn end_address(address: Address, len: usize) -> (r: Address)
    ensures
        r == wrap32(address as int + len as int),
{
    let low = (len as u64) % 0x1_0000_0000;
    let sum = address as u64 + low;
    let r = if sum >= 0x1_0000_0000 { (sum - 0x1_0000_0000) as u32 } else { sum as u32 };
    assert((address as int + len as int) % 0x1_0000_0000 == (address as int + low as int) % 0x1_0000_0000) by (nonlinear_arith)
        requires low as int == (len as int) % 0x1_0000_0000int;
    r
}

/// The character a byte shows as in a dump: itself when printable ASCII, `.` otherwise.
pub open spec fn dump_char(b: u8) -> char {
    if 32 <= b <= 126 { b as char } else { '.' }
}

/// Hex cells `i..16` of the dump line at `addr` (bytes at `end` and beyond are blank).
pub open spec fn hex_cells(data: Seq<u8>, addr: int, end: int, i: int) -> Seq<char>
    decreases 16 - i,
{
    if i >= 16 {
        Seq::empty()
    } else {
        (if addr + i < end { hex_digits(data[addr + i] as nat, 2) + " "@ } else { "   "@ })
            + (if i == 7 { " "@ } else { Seq::empty() })
            + hex_cells(data, addr, end, i + 1)
    }
}

/// Character cells `i..16` of the dump line at `addr`.
pub open spec fn ascii_cells(data: Seq<u8>, addr: int, end: int, i: int) -> Seq<char>
    decreases 16 - i,
{
    if i >= 16 {
        Seq::empty()
    } else {
        (if addr + i < end { seq![dump_char(data[addr + i])] } else { Seq::empty() })
            + ascii_cells(data, addr, end, i + 1)
    }
}

/// One dump line: address, sixteen hex cells, and the printable characters between bars.
pub open spec fn dump_line(data: Seq<u8>, addr: int, end: int) -> Seq<char> {
    hex8(addr as nat) + "  "@ + hex_cells(data, addr, end, 0) + " |"@ + ascii_cells(data, addr, end, 0) + "|\n"@
}

/// Dump lines for the addresses `addr, addr + 16, ...` below `end`.
pub open spec fn dump_lines(data: Seq<u8>, addr: int, end: int) -> Seq<char>
    decreases (if addr < end { end - addr } else { 0 }),
{
    if addr >= end {
        Seq::empty()
    } else {
        dump_line(data, addr, end) + dump_lines(data, addr + 16, end)
    }
}

/// Where a dump of `length` bytes from `start` stops in memory of `size` bytes.
pub open spec fn dump_end(start: u32, length: usize, size: nat) -> u32 {
    (if start + length < size { start + length } else { size as int }) as u32
}


/// Random access memory of a fixed size.
#[derive(Debug, Clone)]
pub struct Ram {
    /// Memory storage; its length is the size of the RAM
    data: Vec<Byte>,
}

impl Ram {
    /// The stored bytes.
    pub closed spec fn bytes(&self) -> Seq<u8> {
        self.data@
    }

    /// RAM of `size` bytes, all zero.
    pub fn new(size: usize) -> (r: Self)
        ensures
            r.bytes() == Seq::new(size as nat, |i: int| 0u8),
    {
        let mut data: Vec<u8> = Vec::new();
        let mut i: usize = 0;
        while i < size
            invariant
                i <= size,
                data@ == Seq::new(i as nat, |j: int| 0u8),
            decreases size - i,
        {
            data.push(0);
            i += 1;
            assert(data@ =~= Seq::new(i as nat, |j: int| 0u8));
        }
        Self { data }
    }

    /// Size in bytes.
    pub fn size(&self) -> (n: usize)
        ensures
            n == self.bytes().len(),
    {
        self.data.len()
    }

    fn check_address(&self, address: Address) -> (r: Result<(), VosError>)
        ensures
            r is Ok <==> (address as int) < self.bytes().len(),
            r is Err ==> r == Err::<(), VosError>(out_of_bounds(address, self.bytes().len() as usize)),
    {
        if (address as usize) >= self.data.len() {
            Err(VosError::Memory(MemoryError::OutOfBounds { address, size: self.data.len() }))
        } else {
            Ok(())
        }
    }

    /// Reads a byte; fails when the address is out of bounds.
    pub fn read_byte(&self, address: Address) -> (r: Result<Byte, VosError>)
        ensures
            r == ram_read_byte(self.bytes(), address),
    {
        match self.check_address(address) {
            Ok(()) => Ok(self.data[address as usize]),
            Err(e) => Err(e),
        }
    }

    /// Writes a byte; fails (changing nothing) when the address is out of bounds.
    pub fn write_byte(&mut self, address: Address, value: Byte) -> (r: Result<(), VosError>)
        ensures
            (final(self).bytes(), r) == ram_write_byte(old(self).bytes(), address, value),
    {
        match self.check_address(address) {
            Ok(()) => {
                self.data.set(address as usize, value);
                Ok(())
            },
            Err(e) => Err(e),
        }
    }

    /// Reads a little-endian word; fails when any of its four bytes is out of bounds.
    pub fn read_word(&self, address: Address) -> (r: Result<Word, VosError>)
        ensures
            r == ram_read_word(self.bytes(), address),
    {
        match self.check_address(address) {
            Ok(()) => {},
            Err(e) => return Err(e),
        }
        if self.data.len() - (address as usize) <= 3 {
            return Err(VosError::Memory(MemoryError::OutOfBounds { address: end_address(address, 3), size: self.data.len() }));
        }
        let a = address as usize;
        let b0 = self.data[a] as Word;
        let b1 = self.data[a + 1] as Word;
        let b2 = self.data[a + 2] as Word;
        let b3 = self.data[a + 3] as Word;
        proof { lemma_combine(b0, b1, b2, b3); }
        Ok(b0 | (b1 << 8) | (b2 << 16) | (b3 << 24))
    }

    /// Writes a little-endian word; fails (changing nothing) when any byte is out of bounds.
    pub fn write_word(&mut self, address: Address, value: Word) -> (r: Result<(), VosError>)
        ensures
            (final(self).bytes(), r) == ram_write_word(old(self).bytes(), address, value),
    {
        match self.check_address(address) {
            Ok(()) => {},
            Err(e) => return Err(e),
        }
        if self.data.len() - (address as usize) <= 3 {
            return Err(VosError::Memory(MemoryError::OutOfBounds { address: end_address(address, 3), size: self.data.len() }));
        }
        let a = address as usize;
        proof { lemma_word_bytes(value); }
        self.data.set(a, (value & 0xFF) as Byte);
        self.data.set(a + 1, ((value >> 8) & 0xFF) as Byte);
        self.data.set(a + 2, ((value >> 16) & 0xFF) as Byte);
        self.data.set(a + 3, ((value >> 24) & 0xFF) as Byte);
        Ok(())
    }

    /// Copies `buffer.len()` bytes starting at `address` into `buffer`.
    pub fn read_bytes(&self, address: Address, buffer: &mut [Byte]) -> (r: Result<(), VosError>)
        ensures
            address as int + old(buffer)@.len() <= self.bytes().len() ==> r == Ok::<(), VosError>(())
                && final(buffer)@ == self.bytes().subrange(address as int, address as int + old(buffer)@.len()),
            address as int + old(buffer)@.len() > self.bytes().len() ==> r is Err && final(buffer)@ == old(buffer)@
                && r == Err::<(), VosError>(out_of_bounds(wrap32(address as int + old(buffer)@.len()), self.bytes().len() as usize)),
    {
        let start = address as usize;
        let len = buffer.len();
        if len > self.data.len() || start > self.data.len() - len {
            return Err(VosError::Memory(MemoryError::OutOfBounds { address: end_address(address, len), size: self.data.len() }));
        }
        let mut i: usize = 0;
        while i < len
            invariant
                len == buffer@.len(),
                buffer@.len() == old(buffer)@.len(),
                start + len <= self.data.len(),
                i <= len,
                forall|j: int| 0 <= j < i ==> buffer@[j] == self.data@[start + j],
            decreases len - i,
        {
            buffer[i] = self.data[start + i];
            i += 1;
        }
        assert(buffer@ =~= self.bytes().subrange(address as int, address as int + len));
        Ok(())
    }

    /// Copies `buffer` into memory starting at `address`.
    pub fn write_bytes(&mut self, address: Address, buffer: &[Byte]) -> (r: Result<(), VosError>)
        ensures
            address as int + buffer@.len() <= old(self).bytes().len() ==> r == Ok::<(), VosError>(())
                && final(self).bytes() == old(self).bytes().subrange(0, address as int) + buffer@
                    + old(self).bytes().subrange(address as int + buffer@.len(), old(self).bytes().len() as int),
            address as int + buffer@.len() > old(self).bytes().len() ==> final(self).bytes() == old(self).bytes()
                && r == Err::<(), VosError>(out_of_bounds(wrap32(address as int + buffer@.len()), old(self).bytes().len() as usize)),
    {
        let start = address as usize;
        let len = buffer.len();
        if len > self.data.len() || start > self.data.len() - len {
            return Err(VosError::Memory(MemoryError::OutOfBounds { address: end_address(address, len), size: self.data.len() }));
        }
        let mut i: usize = 0;
        while i < len
            invariant
                len == buffer@.len(),
                start + len <= self.data.len(),
                self.data@.len() == old(self).data@.len(),
                i <= len,
                forall|j: int| 0 <= j < start ==> self.data@[j] == old(self).data@[j],
                forall|j: int| start + len <= j < self.data@.len() ==> self.data@[j] == old(self).data@[j],
                forall|j: int| start <= j < start + i ==> self.data@[j] == buffer@[j - start],
                forall|j: int| start + i <= j < start + len ==> self.data@[j] == old(self).data@[j],
            decreases len - i,
        {
            self.data.set(start + i, buffer[i]);
            i += 1;
        }
        assert(self.bytes() =~= old(self).bytes().subrange(0, address as int) + buffer@
            + old(self).bytes().subrange(address as int + buffer@.len(), old(self).bytes().len() as int));
        Ok(())
    }

    /// Sets every byte to zero.
    pub fn clear(&mut self)
        ensures
            final(self).bytes() == Seq::new(old(self).bytes().len(), |i: int| 0u8),
    {
        let mut i: usize = 0;
        let n = self.data.len();
        while i < n
            invariant
                n == self.data@.len(),
                n == old(self).data@.len(),
                i <= n,
                forall|j: int| 0 <= j < i ==> self.data@[j] == 0,
            decreases n - i,
        {
            self.data.set(i, 0);
            i += 1;
        }
        assert(self.bytes() =~= Seq::new(old(self).bytes().len(), |i: int| 0u8));
    }

    /// The stored bytes as a slice.
    pub fn as_slice(&self) -> (s: &[Byte])
        ensures
            s@ == self.bytes(),
    {
        self.data.as_slice()
    }

    /// The stored bytes as a slice that can be changed in place; what is written through it
    /// is what the memory holds afterwards.
    pub fn as_mut_slice(&mut self) -> (s: &mut [Byte])
        ensures
            s@ == old(self).bytes(),
            final(self).bytes() == final(s)@,
    {
        self.data.as_mut_slice()
    }

    /// Copies `data` into memory at `address` (as `write_bytes`).
    pub fn load(&mut self, address: Address, data: &[Byte]) -> (r: Result<(), VosError>)
        ensures
            address as int + data@.len() <= old(self).bytes().len() ==> r == Ok::<(), VosError>(())
                && final(self).bytes() == old(self).bytes().subrange(0, address as int) + data@
                    + old(self).bytes().subrange(address as int + data@.len(), old(self).bytes().len() as int),
            address as int + data@.len() > old(self).bytes().len() ==> final(self).bytes() == old(self).bytes()
                && r == Err::<(), VosError>(out_of_bounds(wrap32(address as int + data@.len()), old(self).bytes().len() as usize)),
    {
        self.write_bytes(address, data)
    }
    /// A dump of memory from `start`, `length` bytes or up to the end: a line per sixteen
    /// bytes with the address, the bytes in hexadecimal and the printable characters.
    pub fn hexdump(&self, start: Address, length: usize) -> (out: String)
        requires
            start + length <= usize::MAX,
            dump_end(start, length, self.bytes().len()) + 15 <= u32::MAX,
        ensures
            out@ == dump_lines(self.bytes(), start as int, dump_end(start, length, self.bytes().len()) as int),
    {
        let total: usize = start as usize + length;
        let lim: usize = if total < self.data.len() { total } else { self.data.len() };
        let end: Address = #[verifier::truncate] (lim as Address);
        let ghost data = self.bytes();
        let mut out: Vec<char> = Vec::new();
        let mut addr: u64 = start as u64;
        while addr < end as u64
            invariant
                data == self.bytes(),
                end == dump_end(start, length, data.len()),
                end + 15 <= u32::MAX,
                end <= data.len(),
                start <= addr,
                addr <= end + 16 || addr == start,
                dump_lines(data, start as int, end as int) == out@ + dump_lines(data, addr as int, end as int),
            decreases end + 16 - addr,
        {
            let ghost before = out@;
            push_hex8(&mut out, addr);
            push_str(&mut out, "  ");
            let ghost mark = out@;
            let mut i: u64 = 0;
            while i < 16
                invariant
                    data == self.bytes(),
                    end <= data.len(),
                    addr < end,
                    i <= 16,
                    out@ + hex_cells(data, addr as int, end as int, i as int)
                        == mark + hex_cells(data, addr as int, end as int, 0),
                decreases 16 - i,
            {
                let ghost o = out@;
                if addr + i < end as u64 {
                    let byte = self.data[(addr + i) as usize];
                    push_hex(&mut out, byte as u64, 2);
                    push_str(&mut out, " ");
                } else {
                    push_str(&mut out, "   ");
                }
                if i == 7 {
                    push_str(&mut out, " ");
                }
                assert(out@ + hex_cells(data, addr as int, end as int, i + 1)
                    =~= o + hex_cells(data, addr as int, end as int, i as int));
                i += 1;
            }
            push_str(&mut out, " |");
            let ghost mark2 = out@;
            let mut i: u64 = 0;
            while i < 16
                invariant
                    data == self.bytes(),
                    end <= data.len(),
                    addr < end,
                    i <= 16,
                    out@ + ascii_cells(data, addr as int, end as int, i as int)
                        == mark2 + ascii_cells(data, addr as int, end as int, 0),
                decreases 16 - i,
            {
                let ghost o = out@;
                if addr + i < end as u64 {
                    let byte = self.data[(addr + i) as usize];
                    if 32 <= byte && byte <= 126 {
                        out.push(byte as char);
                    } else {
                        out.push('.');
                    }
                }
                assert(out@ + ascii_cells(data, addr as int, end as int, i + 1)
                    =~= o + ascii_cells(data, addr as int, end as int, i as int));
                i += 1;
            }
            push_str(&mut out, "|\n");
            proof {
                reveal_strlit("  ");
                reveal_strlit(" |");
                assert(out@ =~= before + dump_line(data, addr as int, end as int));
            }
            addr = addr + 16;
        }
        chars_to_string(&out)
    }
}

} // verus!
