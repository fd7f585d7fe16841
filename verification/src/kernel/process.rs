//! Processes: their control blocks, states and saved contexts.
use vstd::prelude::*;
use crate::types::{Address, Word};

verus! {

/// Process identifier.
pub type ProcessId = u32;

/// Default time quantum, in cycles.
pub const DEFAULT_QUANTUM: u64 = 100;

/// Life-cycle state of a process.
#[derive(Debug, Clone, Copy, PartialEq, Eq, Structural)]
pub enum ProcessState {
    /// Ready to run
    Ready,
    /// Currently running
    Running,
    /// Waiting (for I/O and the like)
    Blocked,
    /// Finished
    Terminated,
}

/// Process control block.
#[derive(Debug, Clone, Copy)]
pub struct Process {
    /// Unique process ID
    pub pid: ProcessId,
    /// Current state
    pub state: ProcessState,
    /// Program counter (saved while not running)
    pub pc: Address,
    /// Saved register values (R0-R15)
    pub registers: [Word; 16],
    /// Stack pointer
    pub stack_pointer: Address,
    /// Base address of the process memory
    pub base_address: Address,
    /// Size of the process memory
    pub memory_size: usize,
    /// Priority (0 = highest)
    pub priority: u8,
    /// CPU time used, in cycles
    pub cpu_time: u64,
    /// Time quantum remaining
    pub time_quantum: u64,
}

/// A freshly created process: ready, registers zero, stack at the top of its memory,
/// full quantum.
pub open spec fn is_new_process(p: Process, pid: ProcessId, pc: Address, base_address: Address, memory_size: usize) -> bool {
    &&& p.pid == pid
    &&& p.state == ProcessState::Ready
    &&& p.pc == pc
    &&& p.registers@ == Seq::new(16, |i: int| 0u32)
    &&& p.stack_pointer == base_address + (memory_size as u32)
    &&& p.base_address == base_address
    &&& p.memory_size == memory_size
    &&& p.priority == 0
    &&& p.cpu_time == 0
    &&& p.time_quantum == 100
}

impl Process {
    /// Creates a process whose stack starts at the top of its memory.
    pub fn new(pid: ProcessId, pc: Address, base_address: Address, memory_size: usize) -> (p: Self)
        requires
            base_address + (memory_size as u32) <= u32::MAX,
        ensures
            is_new_process(p, pid, pc, base_address, memory_size),
    {
        let p = Self {
            pid,
            state: ProcessState::Ready,
            pc,
            registers: [0; 16],
            stack_pointer: base_address + memory_size as u32,
            base_address,
            memory_size,
            priority: 0,
            cpu_time: 0,
            time_quantum: DEFAULT_QUANTUM,
        };
        assert(p.registers@ =~= Seq::new(16, |i: int| 0u32));
        p
    }

    /// Saves the program counter and registers.
    pub fn save_context(&mut self, pc: Address, registers: &[Word; 16])
        ensures
            *final(self) == (Process { pc, registers: *registers, ..*old(self) }),
    {
        self.pc = pc;
        self.registers = *registers;
    }

    /// The saved program counter and registers.
    pub fn restore_context(&self) -> (c: (Address, [Word; 16]))
        ensures
            c == (self.pc, self.registers),
    {
        (self.pc, self.registers)
    }

    /// Whether the process is ready to run.
    pub fn is_runnable(&self) -> (b: bool)
        ensures
            b == (self.state == ProcessState::Ready),
    {
        self.state == ProcessState::Ready
    }

    /// Moves to the running state.
    pub fn start_running(&mut self)
        ensures
            *final(self) == (Process { state: ProcessState::Running, ..*old(self) }),
    {
        self.state = ProcessState::Running;
    }

    /// A running process becomes ready; any other state is kept.
    pub fn stop_running(&mut self)
        ensures
            *final(self) == (if old(self).state == ProcessState::Running {
                Process { state: ProcessState::Ready, ..*old(self) }
            } else {
                *old(self)
            }),
    {
        if self.state == ProcessState::Running {
            self.state = ProcessState::Ready;
        }
    }

    /// Marks the process terminated.
    pub fn terminate(&mut self)
        ensures
            *final(self) == (Process { state: ProcessState::Terminated, ..*old(self) }),
    {
        self.state = ProcessState::Terminated;
    }

    /// Restores the full time quantum.
    pub fn reset_quantum(&mut self)
        ensures
            *final(self) == (Process { time_quantum: 100, ..*old(self) }),
    {
        self.time_quantum = DEFAULT_QUANTUM;
    }

    /// Uses one cycle of the quantum, counting it as CPU time; `false` (and no change) when
    /// the quantum is spent.
    pub fn use_quantum(&mut self) -> (used: bool)
        requires
            old(self).time_quantum > 0 ==> old(self).cpu_time < u64::MAX,
        ensures
            used == (old(self).time_quantum > 0),
            *final(self) == (if used {
                Process { time_quantum: (old(self).time_quantum - 1) as u64, cpu_time: (old(self).cpu_time + 1) as u64, ..*old(self) }
            } else {
                *old(self)
            }),
    {
        if self.time_quantum > 0 {
            self.time_quantum -= 1;
            self.cpu_time += 1;
            true
        } else {
            false
        }
    }
}

} // verus!
