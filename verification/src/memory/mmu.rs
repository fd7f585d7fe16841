//! Memory management unit: paging with 4KB pages.
use vstd::prelude::*;
use std::collections::HashMap;
use crate::error::{MemoryError, VosError};
use crate::types::Address;

verus! {

broadcast use vstd::std_specs::hash::group_hash_axioms;

/// Page size in bytes (4KB).
pub const PAGE_SIZE: usize = 4096;

/// Page number type.
pub type PageNumber = u32;

/// Page frame number type.
pub type FrameNumber = u32;

/// The page an address lies in.
pub fn page_number(address: Address) -> (p: PageNumber)
    ensures
        p == address / 4096,
{
    address / 4096
}

/// The offset of an address within its page.
pub fn page_offset(address: Address) -> (o: u32)
    ensures
        o == address % 4096,
{
    address % 4096
}

/// Page number and offset together give back the address.
pub proof fn lemma_page_split(address: u32)
    ensures
        (address / 4096) * 4096 + address % 4096 == address,
{
}

/// Mapping from a virtual page to a physical frame, with permissions and status bits.
#[derive(Debug, Clone, Copy, PartialEq, Eq)]
pub struct PageTableEntry {
    /// Physical frame number
    pub frame: FrameNumber,
    /// Is the page present in memory?
    pub present: bool,
    /// Can the page be written to?
    pub writable: bool,
    /// Can the page be executed?
    pub executable: bool,
    /// Has the page been accessed?
    pub accessed: bool,
    /// Has the page been modified?
    pub dirty: bool,
}

/// A present entry with the given permissions, not yet accessed.
pub open spec fn fresh_entry(frame: u32, writable: bool, executable: bool) -> PageTableEntry {
    PageTableEntry { frame, present: true, writable, executable, accessed: false, dirty: false }
}

impl PageTableEntry {
    /// A present, writable, executable entry.
    pub fn new(frame: FrameNumber) -> (e: Self)
        ensures
            e == fresh_entry(frame, true, true),
    {
        Self { frame, present: true, writable: true, executable: true, accessed: false, dirty: false }
    }

    /// A present, read-only, non-executable entry.
    pub fn read_only(frame: FrameNumber) -> (e: Self)
        ensures
            e == fresh_entry(frame, false, false),
    {
        Self { frame, present: true, writable: false, executable: false, accessed: false, dirty: false }
    }

    /// A present, read-only, executable entry.
    pub fn executable(frame: FrameNumber) -> (e: Self)
        ensures
            e == fresh_entry(frame, false, true),
    {
        Self { frame, present: true, writable: false, executable: true, accessed: false, dirty: false }
    }
}

/// Page table mapping virtual page numbers to entries.
#[derive(Debug, Clone)]
pub struct PageTable {
    /// Page table entries
    entries: HashMap<PageNumber, PageTableEntry>,
}

impl PageTable {
    /// The mapping held by the table.
    pub closed spec fn view(&self) -> Map<u32, PageTableEntry> {
        self.entries@
    }

    /// An empty table.
    pub fn new() -> (t: Self)
        ensures
            t.view() == Map::<u32, PageTableEntry>::empty(),
    {
        Self { entries: HashMap::new() }
    }

    /// Maps a page (replacing any previous mapping).
    pub fn map(&mut self, page: PageNumber, entry: PageTableEntry)
        ensures
            final(self).view() == old(self).view().insert(page, entry),
    {
        self.entries.insert(page, entry);
    }

    /// Removes the mapping of a page.
    pub fn unmap(&mut self, page: PageNumber)
        ensures
            final(self).view() == old(self).view().remove(page),
    {
        self.entries.remove(&page);
    }

    /// The entry of a page, if mapped.
    pub fn lookup(&self, page: PageNumber) -> (r: Option<&PageTableEntry>)
        ensures
            match r {
                Some(e) => self.view().contains_key(page) && *e == self.view()[page],
                None => !self.view().contains_key(page),
            },
    {
        self.entries.get(&page)
    }

    /// The entry of a page, for changes: what is written through it is the page's new entry.
    pub fn lookup_mut(&mut self, page: PageNumber) -> (r: Option<&mut PageTableEntry>)
        ensures
            old(self).view().contains_key(page) ==> r is Some && *r->0 == old(self).view()[page]
                && final(self).view() == old(self).view().insert(page, *final(r->0)),
            !old(self).view().contains_key(page) ==> r is None && final(self).view() == old(self).view(),
    {
        crate::maps::value_mut(&mut self.entries, page)
    }

    /// Removes every mapping.
    pub fn clear(&mut self)
        ensures
            final(self).view() == Map::<u32, PageTableEntry>::empty(),
    {
        self.entries.clear();
    }

    /// Number of mapped pages.
    pub fn mapped_pages(&self) -> (n: usize)
        ensures
            n == self.view().len(),
    {
        self.entries.len()
    }
}

/// Physical address of an offset within a frame (frames beyond the 32-bit space wrap).
pub open spec fn frame_address(frame: u32, offset: u32) -> u32 {
    ((frame % 0x10_0000) * 4096 + offset) as u32
}

/// The page fault reported for an address.
pub open spec fn page_fault(address: u32, present: bool, write: bool) -> VosError {
    VosError::Memory(MemoryError::PageFault { address, present, write })
}

/// Table after, and result of, translating an address.
pub open spec fn translate_spec(table: Map<u32, PageTableEntry>, paging: bool, va: u32, write: bool)
    -> (Map<u32, PageTableEntry>, Result<u32, VosError>)
{
    if !paging {
        (table, Ok(va))
    } else {
        let page = va / 4096;
        if !table.contains_key(page) {
            (table, Err(page_fault(va, false, write)))
        } else {
            let e = table[page];
            if !e.present {
                (table, Err(page_fault(va, false, write)))
            } else if write && !e.writable {
                (table, Err(page_fault(va, true, true)))
            } else {
                (table.insert(page, PageTableEntry { accessed: true, dirty: e.dirty || write, ..e }),
                 Ok(frame_address(e.frame, va % 4096)))
            }
        }
    }
}

/// The entries an identity mapping of `count` pages from `start` adds.
pub open spec fn identity_entries(start: u32, count: nat, writable: bool, executable: bool) -> Map<u32, PageTableEntry> {
    Map::new(|p: u32| start <= p < start + count, |p: u32| fresh_entry(p, writable, executable))
}

/// Memory management unit translating virtual to physical addresses.
#[derive(Debug, Clone)]
pub struct Mmu {
    /// Page table
    page_table: PageTable,
    /// Is paging enabled?
    paging_enabled: bool,
}

impl Mmu {
    /// The mappings of the page table.
    pub closed spec fn table(&self) -> Map<u32, PageTableEntry> {
        self.page_table.view()
    }

    /// Whether paging is enabled.
    pub closed spec fn paging(&self) -> bool {
        self.paging_enabled
    }

    /// An MMU with an empty table and paging disabled.
    pub fn new() -> (m: Self)
        ensures
            m.table() == Map::<u32, PageTableEntry>::empty(),
            !m.paging(),
    {
        Self { page_table: PageTable::new(), paging_enabled: false }
    }

    /// Enables paging.
    pub fn enable_paging(&mut self)
        ensures
            final(self).paging(),
            final(self).table() == old(self).table(),
    {
        self.paging_enabled = true;
    }

    /// Disables paging (addresses translate to themselves).
    pub fn disable_paging(&mut self)
        ensures
            !final(self).paging(),
            final(self).table() == old(self).table(),
    {
        self.paging_enabled = false;
    }

    /// Whether paging is enabled.
    pub fn is_paging_enabled(&self) -> (b: bool)
        ensures
            b == self.paging(),
    {
        self.paging_enabled
    }

    /// Translates a virtual address, marking the page accessed (and dirty on a write).
    ///
    /// Fails with a page fault when the page is unmapped or not present, or on a write to a
    /// read-only page.
    pub fn translate(&mut self, virtual_address: Address, write: bool) -> (r: Result<Address, VosError>)
        ensures
            (final(self).table(), r) == translate_spec(old(self).table(), old(self).paging(), virtual_address, write),
            final(self).paging() == old(self).paging(),
    {
        if !self.paging_enabled {
            return Ok(virtual_address);
        }
        let page = page_number(virtual_address);
        let offset = page_offset(virtual_address);
        let entry = match self.page_table.lookup(page) {
            Some(e) => *e,
            None => {
                return Err(VosError::Memory(MemoryError::PageFault { address: virtual_address, present: false, write }));
            },
        };
        if !entry.present {
            return Err(VosError::Memory(MemoryError::PageFault { address: virtual_address, present: false, write }));
        }
        if write && !entry.writable {
            return Err(VosError::Memory(MemoryError::PageFault { address: virtual_address, present: true, write: true }));
        }
        let mut updated = entry;
        updated.accessed = true;
        if write {
            updated.dirty = true;
        }
        self.page_table.map(page, updated);
        let frame_low = entry.frame % 0x10_0000;
        Ok(frame_low * 4096 + offset)
    }

    /// Maps a virtual page to a physical frame.
    pub fn map_page(&mut self, page: PageNumber, entry: PageTableEntry)
        ensures
            final(self).table() == old(self).table().insert(page, entry),
            final(self).paging() == old(self).paging(),
    {
        self.page_table.map(page, entry);
    }

    /// Removes the mapping of a page.
    pub fn unmap_page(&mut self, page: PageNumber)
        ensures
            final(self).table() == old(self).table().remove(page),
            final(self).paging() == old(self).paging(),
    {
        self.page_table.unmap(page);
    }

    fn identity_map_with(&mut self, start_page: PageNumber, count: usize, writable: bool, executable: bool)
        requires
            start_page + count <= 0x1_0000_0000,
        ensures
            final(self).table() == old(self).table().union_prefer_right(identity_entries(start_page, count as nat, writable, executable)),
            final(self).paging() == old(self).paging(),
    {
        let mut i: usize = 0;
        while i < count
            invariant
                start_page + count <= 0x1_0000_0000,
                i <= count,
                self.table() == old(self).table().union_prefer_right(identity_entries(start_page, i as nat, writable, executable)),
                self.paging() == old(self).paging(),
            decreases count - i,
        {
            let page = start_page + i as PageNumber;
            let entry = PageTableEntry { frame: page, present: true, writable, executable, accessed: false, dirty: false };
            self.map_page(page, entry);
            i += 1;
            assert(self.table() =~= old(self).table().union_prefer_right(identity_entries(start_page, i as nat, writable, executable)));
        }
    }

    /// Maps `count` pages from `start_page` onto the same frames, writable and executable.
    pub fn identity_map(&mut self, start_page: PageNumber, count: usize)
        requires
            start_page + count <= 0x1_0000_0000,
        ensures
            final(self).table() == old(self).table().union_prefer_right(identity_entries(start_page, count as nat, true, true)),
            final(self).paging() == old(self).paging(),
    {
        self.identity_map_with(start_page, count, true, true);
    }

    /// Identity maps pages read-only and non-executable.
    pub fn identity_map_readonly(&mut self, start_page: PageNumber, count: usize)
        requires
            start_page + count <= 0x1_0000_0000,
        ensures
            final(self).table() == old(self).table().union_prefer_right(identity_entries(start_page, count as nat, false, false)),
            final(self).paging() == old(self).paging(),
    {
        self.identity_map_with(start_page, count, false, false);
    }

    /// Identity maps pages read-only and executable.
    pub fn identity_map_executable(&mut self, start_page: PageNumber, count: usize)
        requires
            start_page + count <= 0x1_0000_0000,
        ensures
            final(self).table() == old(self).table().union_prefer_right(identity_entries(start_page, count as nat, false, true)),
            final(self).paging() == old(self).paging(),
    {
        self.identity_map_with(start_page, count, false, true);
    }

    /// Removes every mapping.
    pub fn clear(&mut self)
        ensures
            final(self).table() == Map::<u32, PageTableEntry>::empty(),
            final(self).paging() == old(self).paging(),
    {
        self.page_table.clear();
    }

    /// Number of mapped pages.
    pub fn mapped_pages(&self) -> (n: usize)
        ensures
            n == self.table().len(),
    {
        self.page_table.mapped_pages()
    }

    /// The page table.
    pub fn page_table(&self) -> (t: &PageTable)
        ensures
            t.view() == self.table(),
    {
        &self.page_table
    }

    /// The page table, for changes; paging stays as it was.
    pub fn page_table_mut(&mut self) -> (t: &mut PageTable)
        ensures
            t.view() == old(self).table(),
            final(self).table() == final(t).view(),
            final(self).paging() == old(self).paging(),
    {
        &mut self.page_table
    }
}

/// With paging disabled, every address translates to itself and the table is unchanged.
pub proof fn lemma_translate_identity_when_disabled(table: Map<u32, PageTableEntry>, va: u32, write: bool)
    ensures
        translate_spec(table, false, va, write) == (table, Ok::<u32, VosError>(va)),
{
}

/// An identity-mapped page translates each of its addresses to itself.
pub proof fn lemma_identity_translation(start: u32, count: nat, va: u32, write: bool)
    requires
        start <= va / 4096 < start + count,
        start + count <= 0x10_0000,
    ensures
        translate_spec(identity_entries(start, count, true, true), true, va, write).1 == Ok::<u32, VosError>(va),
{
}

/// A write through a read-only page always faults.
pub proof fn lemma_readonly_write_faults(table: Map<u32, PageTableEntry>, va: u32)
    requires
        table.contains_key(va / 4096),
        !table[va / 4096].writable,
    ensures
        translate_spec(table, true, va, true).1 is Err,
{
}

} // verus!
