//! The regions of the 32-bit address space.
use vstd::prelude::*;
use crate::types::{Address, AddressRange};

verus! {

/// Interrupt vector table, 4KB.
pub fn ivt() -> (r: AddressRange)
    ensures r == (AddressRange { start: 0x0000_0000, end: 0x0000_1000 }),
{
    AddressRange { start: 0x0000_0000, end: 0x0000_1000 }
}

/// Kernel code and data, about 1MB.
pub fn kernel_code() -> (r: AddressRange)
    ensures r == (AddressRange { start: 0x0000_1000, end: 0x0010_0000 }),
{
    AddressRange { start: 0x0000_1000, end: 0x0010_0000 }
}

/// Kernel stack, 1MB.
pub fn kernel_stack() -> (r: AddressRange)
    ensures r == (AddressRange { start: 0x0010_0000, end: 0x0020_0000 }),
{
    AddressRange { start: 0x0010_0000, end: 0x0020_0000 }
}

/// User space, about 1GB.
pub fn user_space() -> (r: AddressRange)
    ensures r == (AddressRange { start: 0x0020_0000, end: 0x4000_0000 }),
{
    AddressRange { start: 0x0020_0000, end: 0x4000_0000 }
}

/// Heap, 1GB.
pub fn heap() -> (r: AddressRange)
    ensures r == (AddressRange { start: 0x4000_0000, end: 0x8000_0000 }),
{
    AddressRange { start: 0x4000_0000, end: 0x8000_0000 }
}

/// Memory-mapped I/O, 1GB.
pub fn mmio() -> (r: AddressRange)
    ensures r == (AddressRange { start: 0x8000_0000, end: 0xC000_0000 }),
{
    AddressRange { start: 0x8000_0000, end: 0xC000_0000 }
}

/// Reserved space (the last address is not part of it).
pub fn reserved() -> (r: AddressRange)
    ensures r == (AddressRange { start: 0xC000_0000, end: 0xFFFF_FFFF }),
{
    AddressRange { start: 0xC000_0000, end: 0xFFFF_FFFF }
}

/// The regions in address order.
pub open spec fn regions() -> Seq<AddressRange> {
    seq![
        AddressRange { start: 0x0000_0000, end: 0x0000_1000 },
        AddressRange { start: 0x0000_1000, end: 0x0010_0000 },
        AddressRange { start: 0x0010_0000, end: 0x0020_0000 },
        AddressRange { start: 0x0020_0000, end: 0x4000_0000 },
        AddressRange { start: 0x4000_0000, end: 0x8000_0000 },
        AddressRange { start: 0x8000_0000, end: 0xC000_0000 },
        AddressRange { start: 0xC000_0000, end: 0xFFFF_FFFF },
    ]
}

/// The region holding `address`: every address but the very last one lies in exactly one region.
pub fn get_region(address: Address) -> (r: Option<AddressRange>)
    ensures
        match r {
            Some(range) => regions().contains(range) && range.has(address as int),
            None => address == 0xFFFF_FFFF,
        },
        forall|i: int| 0 <= i < 7 && #[trigger] regions()[i].has(address as int) ==> r == Some(regions()[i]),
{
    let all = [ivt(), kernel_code(), kernel_stack(), user_space(), heap(), mmio(), reserved()];
    let mut i: usize = 0;
    while i < 7
        invariant
            0 <= i <= 7,
            all@ == regions(),
            forall|j: int| 0 <= j < i ==> !(#[trigger] regions()[j]).has(address as int),
        decreases 7 - i,
    {
        if all[i].contains(address) {
            assert(regions()[i as int] == all@[i as int]);
            return Some(all[i]);
        }
        i += 1;
    }
    None
}

} // verus!
