//! Main memory: RAM behind the MMU.
use vstd::prelude::*;
use crate::error::VosError;
use crate::memory::mmu::{Mmu, PageTableEntry, identity_entries, translate_spec};
use crate::memory::ram::{Ram, dump_end, dump_lines, out_of_bounds, wrap32, ram_read_byte, ram_read_word, ram_write_byte, ram_write_word};
use crate::types::{Address, Byte, Word};

verus! {

/// Abstract state of the memory subsystem.
pub struct MemModel {
    /// RAM contents
    pub bytes: Seq<u8>,
    /// Page table mappings
    pub table: Map<u32, PageTableEntry>,
    /// Whether paging is enabled
    pub paging: bool,
}

/// State after, and result of, a word read at a virtual address.
pub open spec fn mem_read_word(m: MemModel, a: u32) -> (MemModel, Result<u32, VosError>) {
    let (t, tr) = translate_spec(m.table, m.paging, a, false);
    let m1 = MemModel { table: t, ..m };
    match tr {
        Ok(pa) => (m1, ram_read_word(m.bytes, pa)),
        Err(e) => (m1, Err(e)),
    }
}

/// State after, and result of, a word write at a virtual address.
pub open spec fn mem_write_word(m: MemModel, a: u32, v: u32) -> (MemModel, Result<(), VosError>) {
    let (t, tr) = translate_spec(m.table, m.paging, a, true);
    match tr {
        Ok(pa) => {
            let (b, r) = ram_write_word(m.bytes, pa, v);
            (MemModel { table: t, bytes: b, ..m }, r)
        },
        Err(e) => (MemModel { table: t, ..m }, Err(e)),
    }
}

/// State after, and result of, a byte read at a virtual address.
pub open spec fn mem_read_byte(m: MemModel, a: u32) -> (MemModel, Result<u8, VosError>) {
    let (t, tr) = translate_spec(m.table, m.paging, a, false);
    let m1 = MemModel { table: t, ..m };
    match tr {
        Ok(pa) => (m1, ram_read_byte(m.bytes, pa)),
        Err(e) => (m1, Err(e)),
    }
}

/// State after, and result of, a byte write at a virtual address.
pub open spec fn mem_write_byte(m: MemModel, a: u32, v: u8) -> (MemModel, Result<(), VosError>) {
    let (t, tr) = translate_spec(m.table, m.paging, a, true);
    match tr {
        Ok(pa) => {
            let (b, r) = ram_write_byte(m.bytes, pa, v);
            (MemModel { table: t, bytes: b, ..m }, r)
        },
        Err(e) => (MemModel { table: t, ..m }, Err(e)),
    }
}

/// The memory subsystem: physical RAM and the MMU that translates into it.
#[derive(Debug, Clone)]
pub struct Memory {
    /// Physical RAM
    ram: Ram,
    /// Memory management unit
    mmu: Mmu,
}

impl Memory {
    /// Abstract state.
    pub closed spec fn model(&self) -> MemModel {
        MemModel { bytes: self.ram.bytes(), table: self.mmu.table(), paging: self.mmu.paging() }
    }

    /// `size` zero bytes of RAM, every whole page identity mapped, paging disabled.
    pub fn new(size: usize) -> (m: Self)
        requires
            size / 4096 <= 0x1_0000_0000,
        ensures
            m.model().bytes == Seq::new(size as nat, |i: int| 0u8),
            m.model().table == identity_entries(0, (size / 4096) as nat, true, true),
            !m.model().paging,
    {
        let mut mmu = Mmu::new();
        let pages = size / 4096;
        mmu.identity_map(0, pages);
        assert(mmu.table() =~= identity_entries(0, pages as nat, true, true));
        Self { ram: Ram::new(size), mmu }
    }

    /// Size of physical memory in bytes.
    pub fn size(&self) -> (n: usize)
        ensures
            n == self.model().bytes.len(),
    {
        self.ram.size()
    }

    /// The MMU.
    pub fn mmu(&self) -> (m: &Mmu)
        ensures
            m.table() == self.model().table,
            m.paging() == self.model().paging,
    {
        &self.mmu
    }

    /// The MMU, for changing mappings and paging.
    pub fn mmu_mut(&mut self) -> (m: &mut Mmu)
        ensures
            m.table() == old(self).model().table,
            m.paging() == old(self).model().paging,
            final(self).model() == (MemModel { table: final(m).table(), paging: final(m).paging(), ..old(self).model() }),
    {
        &mut self.mmu
    }

    /// The RAM, for direct physical access.
    pub fn ram_mut(&mut self) -> (r: &mut Ram)
        ensures
            r.bytes() == old(self).model().bytes,
            final(self).model() == (MemModel { bytes: final(r).bytes(), ..old(self).model() }),
    {
        &mut self.ram
    }

    /// The RAM.
    pub fn ram(&self) -> (r: &Ram)
        ensures
            r.bytes() == self.model().bytes,
    {
        &self.ram
    }

    /// Enables paging in the MMU.
    pub fn enable_paging(&mut self)
        ensures
            final(self).model() == (MemModel { paging: true, ..old(self).model() }),
    {
        self.mmu.enable_paging();
    }

    /// Maps a page in the MMU.
    pub fn map_page(&mut self, page: u32, entry: PageTableEntry)
        ensures
            final(self).model() == (MemModel { table: old(self).model().table.insert(page, entry), ..old(self).model() }),
    {
        self.mmu.map_page(page, entry);
    }

    /// Reads a byte at a virtual address.
    pub fn read_byte(&mut self, address: Address) -> (r: Result<Byte, VosError>)
        ensures
            (final(self).model(), r) == mem_read_byte(old(self).model(), address),
    {
        let physical = match self.mmu.translate(address, false) {
            Ok(p) => p,
            Err(e) => return Err(e),
        };
        self.ram.read_byte(physical)
    }

    /// Writes a byte at a virtual address.
    pub fn write_byte(&mut self, address: Address, value: Byte) -> (r: Result<(), VosError>)
        ensures
            (final(self).model(), r) == mem_write_byte(old(self).model(), address, value),
    {
        let physical = match self.mmu.translate(address, true) {
            Ok(p) => p,
            Err(e) => return Err(e),
        };
        self.ram.write_byte(physical, value)
    }

    /// Reads a word at a virtual address.
    pub fn read_word(&mut self, address: Address) -> (r: Result<Word, VosError>)
        ensures
            (final(self).model(), r) == mem_read_word(old(self).model(), address),
    {
        let physical = match self.mmu.translate(address, false) {
            Ok(p) => p,
            Err(e) => return Err(e),
        };
        self.ram.read_word(physical)
    }

    /// Writes a word at a virtual address.
    pub fn write_word(&mut self, address: Address, value: Word) -> (r: Result<(), VosError>)
        ensures
            (final(self).model(), r) == mem_write_word(old(self).model(), address, value),
    {
        let physical = match self.mmu.translate(address, true) {
            Ok(p) => p,
            Err(e) => return Err(e),
        };
        self.ram.write_word(physical, value)
    }

    /// Reads consecutive bytes at virtual addresses starting at `address`, stopping at the first error.
    pub fn read_bytes(&mut self, address: Address, buffer: &mut [Byte]) -> (r: Result<(), VosError>)
        requires
            address + old(buffer)@.len() <= 0x1_0000_0000,
        ensures
            final(buffer)@.len() == old(buffer)@.len(),
            r is Ok ==> forall|i: int| 0 <= i < final(buffer)@.len() ==>
                final(buffer)@[i] == old(self).model().bytes[i + address]
                    || old(self).model().paging,
            !old(self).model().paging ==> (r is Ok <==> (old(buffer)@.len() == 0 || address + old(buffer)@.len() <= old(self).model().bytes.len())),
            final(self).model().bytes == old(self).model().bytes,
    {
        let n = buffer.len();
        let mut i: usize = 0;
        while i < n
            invariant
                n == buffer@.len(),
                n == old(buffer)@.len(),
                address + n <= 0x1_0000_0000,
                i <= n,
                self.model().bytes == old(self).model().bytes,
                self.model().paging == old(self).model().paging,
                !self.model().paging ==> self.model().table == old(self).model().table,
                !self.model().paging ==> (i == 0 || address + i <= self.model().bytes.len()),
                forall|j: int| 0 <= j < i ==> buffer@[j] == self.model().bytes[j + address] || self.model().paging,
            decreases n - i,
        {
            match self.read_byte(address + i as Address) {
                Ok(b) => buffer[i] = b,
                Err(e) => return Err(e),
            }
            i += 1;
        }
        Ok(())
    }

    /// Writes consecutive bytes at virtual addresses starting at `address`, stopping at the first error.
    pub fn write_bytes(&mut self, address: Address, data: &[Byte]) -> (r: Result<(), VosError>)
        requires
            address + data@.len() <= 0x1_0000_0000,
        ensures
            !old(self).model().paging && r is Ok && address <= old(self).model().bytes.len() ==> final(self).model().bytes
                == old(self).model().bytes.subrange(0, address as int) + data@
                    + old(self).model().bytes.subrange(address + data@.len(), old(self).model().bytes.len() as int),
            !old(self).model().paging ==> (r is Ok <==> (data@.len() == 0 || address + data@.len() <= old(self).model().bytes.len())),
            final(self).model().paging == old(self).model().paging,
    {
        let n = data.len();
        let mut i: usize = 0;
        while i < n
            invariant
                n == data@.len(),
                address + n <= 0x1_0000_0000,
                i <= n,
                self.model().paging == old(self).model().paging,
                self.model().bytes.len() == old(self).model().bytes.len(),
                !self.model().paging ==> self.model().table == old(self).model().table,
                !self.model().paging ==> (i == 0 || address + i <= self.model().bytes.len()),
                !self.model().paging && address <= old(self).model().bytes.len() ==> self.model().bytes == old(self).model().bytes.subrange(0, address as int)
                    + data@.subrange(0, i as int)
                    + old(self).model().bytes.subrange(address + i, old(self).model().bytes.len() as int),
            decreases n - i,
        {
            let ghost before = self.model().bytes;
            match self.write_byte(address + i as Address, data[i]) {
                Ok(()) => {},
                Err(e) => return Err(e),
            }
            i += 1;
            assert(!self.model().paging && address <= old(self).model().bytes.len() ==> self.model().bytes =~= old(self).model().bytes.subrange(0, address as int)
                + data@.subrange(0, i as int) + old(self).model().bytes.subrange(address + i, old(self).model().bytes.len() as int));
        }
        assert(data@.subrange(0, n as int) =~= data@);
        Ok(())
    }

    /// Loads data into physical memory directly, bypassing the MMU.
    pub fn load(&mut self, address: Address, data: &[Byte]) -> (r: Result<(), VosError>)
        ensures
            address as int + data@.len() <= old(self).model().bytes.len() ==> r == Ok::<(), VosError>(())
                && final(self).model() == (MemModel {
                    bytes: old(self).model().bytes.subrange(0, address as int) + data@
                        + old(self).model().bytes.subrange(address as int + data@.len(), old(self).model().bytes.len() as int),
                    ..old(self).model()
                }),
            address as int + data@.len() > old(self).model().bytes.len() ==> final(self).model() == old(self).model()
                && r == Err::<(), VosError>(out_of_bounds(wrap32(address as int + data@.len()), old(self).model().bytes.len() as usize)),
    {
        self.ram.load(address, data)
    }

    /// Sets all RAM to zero; the page table is kept.
    pub fn clear(&mut self)
        ensures
            final(self).model() == (MemModel { bytes: Seq::new(old(self).model().bytes.len(), |i: int| 0u8), ..old(self).model() }),
    {
        self.ram.clear();
    }

    /// A dump of physical memory from `start` (see `Ram::hexdump`); no translation applies.
    pub fn hexdump(&self, start: Address, length: usize) -> (out: String)
        requires
            start + length <= usize::MAX,
            dump_end(start, length, self.model().bytes.len()) + 15 <= u32::MAX,
        ensures
            out@ == dump_lines(self.model().bytes, start as int, dump_end(start, length, self.model().bytes.len()) as int),
    {
        self.ram.hexdump(start, length)
    }
}

impl crate::cpu::cpu::Memory for Memory {
    type Model = MemModel;

    open spec fn model(&self) -> MemModel {
        Memory::model(self)
    }

    open spec fn read_word_spec(m: MemModel, address: Address) -> (MemModel, Result<Word, VosError>) {
        mem_read_word(m, address)
    }

    open spec fn write_word_spec(m: MemModel, address: Address, value: Word) -> (MemModel, Result<(), VosError>) {
        mem_write_word(m, address, value)
    }

    open spec fn read_byte_spec(m: MemModel, address: Address) -> (MemModel, Result<u8, VosError>) {
        mem_read_byte(m, address)
    }

    open spec fn write_byte_spec(m: MemModel, address: Address, value: u8) -> (MemModel, Result<(), VosError>) {
        mem_write_byte(m, address, value)
    }

    fn read_word(&mut self, address: Address) -> (r: Result<Word, VosError>) {
        Memory::read_word(self, address)
    }

    fn write_word(&mut self, address: Address, value: Word) -> (r: Result<(), VosError>) {
        Memory::write_word(self, address, value)
    }

    fn read_byte(&mut self, address: Address) -> (r: Result<u8, VosError>) {
        Memory::read_byte(self, address)
    }

    fn write_byte(&mut self, address: Address, value: u8) -> (r: Result<(), VosError>) {
        Memory::write_byte(self, address, value)
    }
}

/// With paging off, a word read back at the address of an in-bounds word write gives the written value.
pub proof fn lemma_memory_write_read_word(m: MemModel, a: u32, v: u32)
    requires
        !m.paging,
        a + 3 < m.bytes.len(),
    ensures
        mem_write_word(m, a, v).1 is Ok,
        mem_read_word(mem_write_word(m, a, v).0, a).1 == Ok::<u32, VosError>(v),
{
    crate::memory::ram::lemma_word_roundtrip(m.bytes, a as int, v);
}

} // verus!
