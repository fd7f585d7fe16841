//! Memory subsystem: RAM, paging MMU, and the combined memory.
pub mod ram;
pub mod mmu;
pub mod memory;
