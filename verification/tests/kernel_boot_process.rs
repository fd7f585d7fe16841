use vos::kernel::boot::{boot_kernel, BootInfo};
use vos::kernel::process::{Process, ProcessState};

#[test]
fn test_boot_info_creation() {
    let boot_info = BootInfo::new(0x1000, 0x10000, 16 * 1024 * 1024, 0x20000);

    assert_eq!(boot_info.kernel_base, 0x1000);
    assert_eq!(boot_info.kernel_size, 0x10000);
    assert_eq!(boot_info.total_memory, 16 * 1024 * 1024);
    assert_eq!(boot_info.init_entry, 0x20000);
}

#[test]
fn test_boot_kernel() {
    let boot_info = BootInfo::new(0x1000, 0x10000, 16 * 1024 * 1024, 0x20000);

    let scheduler = boot_kernel(&boot_info);

    assert_eq!(scheduler.process_count(), 1);
    assert_eq!(scheduler.ready_count(), 1);

    // Init process should be ready
    let processes = scheduler.list_processes();
    assert_eq!(processes.len(), 1);
    assert_eq!(processes[0].pid, 1);
}

#[test]
fn test_process_creation() {
    let process = Process::new(1, 0x1000, 0x10000, 0x1000);

    assert_eq!(process.pid, 1);
    assert_eq!(process.state, ProcessState::Ready);
    assert_eq!(process.pc, 0x1000);
    assert_eq!(process.base_address, 0x10000);
    assert_eq!(process.memory_size, 0x1000);
}

#[test]
fn test_state_transitions() {
    let mut process = Process::new(1, 0, 0, 0x1000);

    assert_eq!(process.state, ProcessState::Ready);
    assert!(process.is_runnable());

    process.start_running();
    assert_eq!(process.state, ProcessState::Running);
    assert!(!process.is_runnable());

    process.stop_running();
    assert_eq!(process.state, ProcessState::Ready);
    assert!(process.is_runnable());

    process.terminate();
    assert_eq!(process.state, ProcessState::Terminated);
    assert!(!process.is_runnable());
}

#[test]
fn test_context_save_restore() {
    let mut process = Process::new(1, 0x1000, 0x10000, 0x1000);

    let registers = [1, 2, 3, 4, 5, 6, 7, 8, 9, 10, 11, 12, 13, 14, 15, 16];
    process.save_context(0x2000, &registers);

    assert_eq!(process.pc, 0x2000);
    assert_eq!(process.registers, registers);

    let (pc, regs) = process.restore_context();
    assert_eq!(pc, 0x2000);
    assert_eq!(regs, registers);
}

#[test]
fn test_time_quantum() {
    let mut process = Process::new(1, 0, 0, 0x1000);
    process.time_quantum = 3;

    assert!(process.use_quantum());
    assert_eq!(process.time_quantum, 2);
    assert_eq!(process.cpu_time, 1);

    assert!(process.use_quantum());
    assert_eq!(process.time_quantum, 1);

    assert!(process.use_quantum());
    assert_eq!(process.time_quantum, 0);

    assert!(!process.use_quantum());
    assert_eq!(process.cpu_time, 3);
}

#[test]
fn boot_creates_init_at_the_entry_point() {
    let boot_info = BootInfo::new(0, 0x100, 1 << 20, 0x4000);
    let scheduler = boot_kernel(&boot_info);
    let init = scheduler.get_process(1).unwrap();
    assert_eq!(init.pc, 0x4000);
    assert_eq!(init.state, ProcessState::Ready);
}

#[test]
fn reset_quantum_restores_the_default() {
    let mut p = Process::new(2, 0, 0, 16);
    let full = p.time_quantum;
    assert!(p.use_quantum());
    p.reset_quantum();
    assert_eq!(p.time_quantum, full);
}
