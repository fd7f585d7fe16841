//! The kernel: processes, scheduling, system calls, boot and the file system.
pub mod process;
pub mod scheduler;
pub mod syscall;
pub mod fs;
pub mod boot;
