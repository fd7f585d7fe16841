use vos::kernel::process::ProcessState;
use vos::kernel::scheduler::Scheduler;
use vos::kernel::syscall::{Syscall, SyscallHandler};

#[test]
fn test_scheduler_creation() {
    let scheduler = Scheduler::new();
    assert_eq!(scheduler.process_count(), 0);
    assert_eq!(scheduler.ready_count(), 0);
    assert!(scheduler.current_process().is_none());
}

#[test]
fn test_create_process() {
    let mut scheduler = Scheduler::new();

    let pid1 = scheduler.create_process(0x1000, 0x10000, 0x1000);
    assert_eq!(pid1, 1);
    assert_eq!(scheduler.process_count(), 1);
    assert_eq!(scheduler.ready_count(), 1);

    let pid2 = scheduler.create_process(0x2000, 0x20000, 0x2000);
    assert_eq!(pid2, 2);
    assert_eq!(scheduler.process_count(), 2);
    assert_eq!(scheduler.ready_count(), 2);
}

#[test]
fn test_schedule_single_process() {
    let mut scheduler = Scheduler::new();
    let pid = scheduler.create_process(0x1000, 0x10000, 0x1000);

    let scheduled = scheduler.schedule();
    assert_eq!(scheduled, Some(pid));

    let current = scheduler.current_process().unwrap();
    assert_eq!(current.pid, pid);
    assert_eq!(current.state, ProcessState::Running);
}

#[test]
fn test_round_robin() {
    let mut scheduler = Scheduler::new();

    let pid1 = scheduler.create_process(0x1000, 0x10000, 0x1000);
    let pid2 = scheduler.create_process(0x2000, 0x20000, 0x1000);
    let pid3 = scheduler.create_process(0x3000, 0x30000, 0x1000);

    // First schedule
    assert_eq!(scheduler.schedule(), Some(pid1));

    // Exhaust time quantum
    let process = scheduler.current_process_mut().unwrap();
    process.time_quantum = 0;

    // Should switch to pid2
    assert_eq!(scheduler.schedule(), Some(pid2));

    // Exhaust time quantum
    let process = scheduler.current_process_mut().unwrap();
    process.time_quantum = 0;

    // Should switch to pid3
    assert_eq!(scheduler.schedule(), Some(pid3));

    // Exhaust time quantum
    let process = scheduler.current_process_mut().unwrap();
    process.time_quantum = 0;

    // Should wrap back to pid1
    assert_eq!(scheduler.schedule(), Some(pid1));
}

#[test]
fn test_terminate_current() {
    let mut scheduler = Scheduler::new();

    let _pid1 = scheduler.create_process(0x1000, 0x10000, 0x1000);
    let pid2 = scheduler.create_process(0x2000, 0x20000, 0x1000);

    scheduler.schedule(); // Start pid1
    scheduler.terminate_current();

    assert!(scheduler.current_process().is_none());
    assert_eq!(scheduler.process_count(), 1); // Only pid2 active

    // Next schedule should be pid2
    assert_eq!(scheduler.schedule(), Some(pid2));
}

#[test]
fn test_yield_current() {
    let mut scheduler = Scheduler::new();

    let _pid1 = scheduler.create_process(0x1000, 0x10000, 0x1000);
    let pid2 = scheduler.create_process(0x2000, 0x20000, 0x1000);

    scheduler.schedule(); // Start pid1
    scheduler.yield_current();

    assert!(scheduler.current_process().is_none());
    assert_eq!(scheduler.ready_count(), 2); // Both back in queue

    // Should schedule pid2 next (round-robin)
    assert_eq!(scheduler.schedule(), Some(pid2));
}

#[test]
fn test_context_switches() {
    let mut scheduler = Scheduler::new();

    scheduler.create_process(0x1000, 0x10000, 0x1000);
    scheduler.create_process(0x2000, 0x20000, 0x1000);

    assert_eq!(scheduler.context_switches(), 0);

    scheduler.schedule();
    assert_eq!(scheduler.context_switches(), 1);

    scheduler.yield_current();
    scheduler.schedule();
    assert_eq!(scheduler.context_switches(), 2);
}

#[test]
fn test_syscall_from_number() {
    assert_eq!(Syscall::from_number(1), Some(Syscall::Exit));
    assert_eq!(Syscall::from_number(2), Some(Syscall::GetPid));
    assert_eq!(Syscall::from_number(3), Some(Syscall::Write));
    assert_eq!(Syscall::from_number(99), None);
}

#[test]
fn test_syscall_number() {
    assert_eq!(Syscall::Exit.number(), 1);
    assert_eq!(Syscall::GetPid.number(), 2);
    assert_eq!(Syscall::Write.number(), 3);
}

#[test]
fn test_syscall_name() {
    assert_eq!(Syscall::Exit.name(), "exit");
    assert_eq!(Syscall::GetPid.name(), "getpid");
    assert_eq!(Syscall::Write.name(), "write");
}

#[test]
fn test_handler_creation() {
    let handler = SyscallHandler::new();
    assert_eq!(handler.total_syscalls(), 0);
}

#[test]
fn test_sys_exit() {
    let mut handler = SyscallHandler::new();

    let result = handler.handle(Syscall::Exit, 42, 0, 0).unwrap();
    assert_eq!(result, 42);
    assert_eq!(handler.total_syscalls(), 1);
    assert_eq!(handler.syscall_stat(Syscall::Exit), 1);
}

#[test]
fn test_sys_getpid() {
    let mut handler = SyscallHandler::new();

    let result = handler.handle(Syscall::GetPid, 0, 0, 0).unwrap();
    assert_eq!(result, 1);
    assert_eq!(handler.total_syscalls(), 1);
}

#[test]
fn test_sys_write() {
    let mut handler = SyscallHandler::new();

    // Write 10 bytes to stdout (fd=1)
    let result = handler.handle(Syscall::Write, 1, 0x1000, 10).unwrap();
    assert_eq!(result, 10); // Returns bytes written
    assert_eq!(handler.syscall_stat(Syscall::Write), 1);
}

#[test]
fn test_syscall_stats() {
    let mut handler = SyscallHandler::new();

    handler.handle(Syscall::Exit, 0, 0, 0).unwrap();
    handler.handle(Syscall::GetPid, 0, 0, 0).unwrap();
    handler.handle(Syscall::GetPid, 0, 0, 0).unwrap();
    handler.handle(Syscall::Write, 1, 0, 10).unwrap();

    assert_eq!(handler.total_syscalls(), 4);
    assert_eq!(handler.syscall_stat(Syscall::Exit), 1);
    assert_eq!(handler.syscall_stat(Syscall::GetPid), 2);
    assert_eq!(handler.syscall_stat(Syscall::Write), 1);
}

#[test]
fn syscall_numbers_round_trip() {
    for s in [Syscall::Exit, Syscall::GetPid, Syscall::Write] {
        assert_eq!(Syscall::from_number(s.number()), Some(s));
    }
}

#[test]
fn round_robin_with_yield_cycles_through_all() {
    let mut scheduler = Scheduler::new();
    let a = scheduler.create_process(0, 0, 16);
    let b = scheduler.create_process(0, 0, 16);
    assert_eq!(scheduler.schedule(), Some(a));
    scheduler.yield_current();
    assert_eq!(scheduler.schedule(), Some(b));
    scheduler.yield_current();
    assert_eq!(scheduler.schedule(), Some(a));
    assert_eq!(scheduler.context_switches(), 3);
}

#[test]
fn schedule_with_no_processes_is_none() {
    let mut scheduler = Scheduler::new();
    assert_eq!(scheduler.schedule(), None);
}

#[test]
fn only_one_process_runs_at_a_time() {
    let mut scheduler = Scheduler::new();
    for _ in 0..3 {
        scheduler.create_process(0, 0, 16);
    }
    scheduler.schedule();
    let running = scheduler
        .list_processes()
        .iter()
        .filter(|p| p.state == ProcessState::Running)
        .count();
    assert_eq!(running, 1);
    assert_eq!(scheduler.ready_count(), 2);
}

#[test]
fn scheduled_process_is_current_and_counts_one_switch() {
    let mut scheduler = Scheduler::new();
    scheduler.create_process(0x1000, 0x10000, 4096);
    scheduler.create_process(0x2000, 0x20000, 4096);
    let picked = scheduler.schedule();
    assert_eq!(picked, Some(1));
    assert_eq!(scheduler.current_process().map(|p| p.pid), picked);
    assert_eq!(scheduler.current_process().unwrap().state, ProcessState::Running);
    assert_eq!(scheduler.context_switches(), 1);
    // The running process keeps the processor while it has quantum left.
    assert_eq!(scheduler.schedule(), Some(1));
    assert_eq!(scheduler.context_switches(), 1);
}

#[test]
fn handler_counts_each_call_kind_separately() {
    let mut handler = SyscallHandler::new();
    handler.handle(Syscall::Write, 1, 0, 5).unwrap();
    handler.handle(Syscall::Write, 1, 0, 5).unwrap();
    handler.handle(Syscall::Fork, 0, 0, 0).unwrap();
    assert_eq!(handler.syscall_stat(Syscall::Write), 2);
    assert_eq!(handler.syscall_stat(Syscall::Fork), 1);
    assert_eq!(handler.syscall_stat(Syscall::Read), 0);
    assert_eq!(handler.total_syscalls(), 3);
}
