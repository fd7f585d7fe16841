//! Kernel boot: the boot parameters and the creation of the first process.
use vstd::prelude::*;
use crate::kernel::process::is_new_process;
use crate::kernel::scheduler::Scheduler;
use crate::types::Address;

verus! {

/// Size of the memory given to the first process (64 KiB).
pub const INIT_PROCESS_SIZE: usize = 0x10000;

/// Boot parameters.
#[derive(Debug, Clone)]
pub struct BootInfo {
    /// Kernel base address
    pub kernel_base: Address,
    /// Kernel size in bytes
    pub kernel_size: usize,
    /// Total memory available
    pub total_memory: usize,
    /// Entry point of the first process
    pub init_entry: Address,
}

impl BootInfo {
    /// Boot parameters from their four values.
    pub fn new(kernel_base: Address, kernel_size: usize, total_memory: usize, init_entry: Address) -> (b: Self)
        ensures
            b == (BootInfo { kernel_base, kernel_size, total_memory, init_entry }),
    {
        Self { kernel_base, kernel_size, total_memory, init_entry }
    }
}

/// Boots the kernel: a new scheduler holding one ready process, ID 1, entered at `init_entry`,
/// whose 64 KiB of memory start right after the kernel.
pub fn boot_kernel(boot_info: &BootInfo) -> (s: Scheduler)
    requires
        boot_info.kernel_base + (boot_info.kernel_size as u32) + 0x10000 <= u32::MAX,
    ensures
        s.state().procs.len() == 1,
        is_new_process(s.state().procs[0], 1, boot_info.init_entry,
            (boot_info.kernel_base + (boot_info.kernel_size as u32)) as u32, 0x10000),
        s.state().queue == seq![1u32],
        s.state().current is None,
        s.state().next_pid == 2,
        s.state().switches == 0,
        s.wf(),
{
    let mut scheduler = Scheduler::new();
    let init_base = boot_info.kernel_base + boot_info.kernel_size as u32;
    scheduler.create_process(boot_info.init_entry, init_base, INIT_PROCESS_SIZE);
    proof {
        assert(scheduler.state().procs[0] == scheduler.state().procs.last());
    }
    scheduler
}

} // verus!
