//! Error types of the system and the text each one displays.
use vstd::prelude::*;
use crate::text::{chars_to_string, push_dec, push_hex8, push_str, dec, hex8};

verus! {

/// Whether an error is the generic error with the given text.
pub open spec fn is_generic(e: VosError, msg: Seq<char>) -> bool {
    e matches VosError::Generic(s) && s@ == msg
}

/// Whether a result is a failure with the generic error of the given text.
pub open spec fn fails_with<T>(r: Result<T, VosError>, msg: Seq<char>) -> bool {
    r matches Err(e) && is_generic(e, msg)
}

/// Top-level error type.
#[derive(Debug, Clone, PartialEq, Eq)]
pub enum VosError {
    /// CPU-related errors
    Cpu(CpuError),
    /// Memory-related errors
    Memory(MemoryError),
    /// I/O device errors
    Io(IoError),
    /// Kernel errors
    Kernel(KernelError),
    /// Assembler errors
    Assembler(String),
    /// File system errors
    Filesystem(String),
    /// Generic error with message
    Generic(String),
}

/// CPU-specific errors.
#[derive(Debug, Clone, PartialEq, Eq)]
pub enum CpuError {
    /// Invalid register index (must be 0-15)
    InvalidRegister(u8),
    /// Invalid or unrecognized instruction
    InvalidInstruction(u32),
    /// Division by zero
    DivisionByZero,
    /// Arithmetic overflow
    Overflow,
    /// Invalid CPU state
    InvalidState(String),
    /// Attempted to execute from non-executable memory
    ExecutionProtection(u32),
    /// Halted
    Halted,
}

/// Memory-related errors.
#[derive(Debug, Clone, PartialEq, Eq)]
pub enum MemoryError {
    /// Address out of bounds
    OutOfBounds { address: u32, size: usize },
    /// Unaligned memory access
    Unaligned { address: u32, alignment: usize },
    /// Access violation
    AccessViolation(u32),
    /// Write to read-only memory
    ReadOnly(u32),
    /// Page fault
    PageFault { address: u32, present: bool, write: bool },
    /// Memory not mapped
    NotMapped(u32),
}

/// I/O device errors.
#[derive(Debug, Clone, PartialEq, Eq)]
pub enum IoError {
    /// Device not found
    DeviceNotFound(u32),
    /// Invalid device operation
    InvalidOperation(String),
    /// Device not ready
    NotReady(String),
    /// Device timeout
    Timeout(String),
    /// Device-specific error
    DeviceError(String),
}

/// Kernel-level errors.
#[derive(Debug, Clone, PartialEq, Eq)]
pub enum KernelError {
    /// Process not found
    ProcessNotFound(u32),
    /// Invalid system call number
    InvalidSyscall(u32),
    /// System call failed
    SyscallFailed(String),
    /// File not found
    FileNotFound(String),
    /// Permission denied
    PermissionDenied(String),
    /// Resource exhausted
    ResourceExhausted(String),
    /// Invalid argument
    InvalidArgument(String),
    /// Not a directory
    NotADirectory(String),
    /// Is a directory
    IsADirectory(String),
}

/// Text of a boolean as Rust prints it.
pub open spec fn bool_text(b: bool) -> Seq<char> {
    if b { "true"@ } else { "false"@ }
}

/// Text shown for a CPU error.
pub open spec fn cpu_error_text(e: CpuError) -> Seq<char> {
    match e {
        CpuError::InvalidRegister(r) => "Invalid register index: "@ + dec(r as nat) + " (must be 0-15)"@,
        CpuError::InvalidInstruction(w) => "Invalid instruction: 0x"@ + hex8(w as nat),
        CpuError::DivisionByZero => "Division by zero"@,
        CpuError::Overflow => "Arithmetic overflow"@,
        CpuError::InvalidState(s) => "Invalid CPU state: "@ + s@,
        CpuError::ExecutionProtection(a) => "Execution protection violation at address 0x"@ + hex8(a as nat),
        CpuError::Halted => "CPU halted"@,
    }
}

/// Text shown for a memory error.
pub open spec fn memory_error_text(e: MemoryError) -> Seq<char> {
    match e {
        MemoryError::OutOfBounds { address, size } =>
            "Address out of bounds: 0x"@ + hex8(address as nat) + " (size: 0x"@ + hex8(size as nat) + ")"@,
        MemoryError::Unaligned { address, alignment } =>
            "Unaligned memory access: 0x"@ + hex8(address as nat) + " (alignment: "@ + dec(alignment as nat) + ")"@,
        MemoryError::AccessViolation(a) => "Access violation at address 0x"@ + hex8(a as nat),
        MemoryError::ReadOnly(a) => "Write to read-only memory at address 0x"@ + hex8(a as nat),
        MemoryError::PageFault { address, present, write } =>
            "Page fault at address 0x"@ + hex8(address as nat) + " (present: "@ + bool_text(present)
                + ", write: "@ + bool_text(write) + ")"@,
        MemoryError::NotMapped(a) => "Memory not mapped at address 0x"@ + hex8(a as nat),
    }
}

/// Text shown for an I/O error.
pub open spec fn io_error_text(e: IoError) -> Seq<char> {
    match e {
        IoError::DeviceNotFound(a) => "Device not found at address 0x"@ + hex8(a as nat),
        IoError::InvalidOperation(s) => "Invalid device operation: "@ + s@,
        IoError::NotReady(s) => "Device not ready: "@ + s@,
        IoError::Timeout(s) => "Device timeout: "@ + s@,
        IoError::DeviceError(s) => "Device error: "@ + s@,
    }
}

/// Text shown for a kernel error.
pub open spec fn kernel_error_text(e: KernelError) -> Seq<char> {
    match e {
        KernelError::ProcessNotFound(p) => "Process not found: "@ + dec(p as nat),
        KernelError::InvalidSyscall(n) => "Invalid syscall: "@ + dec(n as nat),
        KernelError::SyscallFailed(s) => "Syscall failed: "@ + s@,
        KernelError::FileNotFound(s) => "File not found: "@ + s@,
        KernelError::PermissionDenied(s) => "Permission denied: "@ + s@,
        KernelError::ResourceExhausted(s) => "Resource exhausted: "@ + s@,
        KernelError::InvalidArgument(s) => "Invalid argument: "@ + s@,
        KernelError::NotADirectory(s) => "Not a directory: "@ + s@,
        KernelError::IsADirectory(s) => "Is a directory: "@ + s@,
    }
}

/// Text shown for a top-level error.
pub open spec fn vos_error_text(e: VosError) -> Seq<char> {
    match e {
        VosError::Cpu(c) => "CPU error: "@ + cpu_error_text(c),
        VosError::Memory(m) => "Memory error: "@ + memory_error_text(m),
        VosError::Io(i) => "I/O error: "@ + io_error_text(i),
        VosError::Kernel(k) => "Kernel error: "@ + kernel_error_text(k),
        VosError::Assembler(s) => "Assembler error: "@ + s@,
        VosError::Filesystem(s) => "Filesystem error: "@ + s@,
        VosError::Generic(s) => s@,
    }
}

fn push_bool(out: &mut Vec<char>, b: bool)
    ensures
        final(out)@ == old(out)@ + bool_text(b),
{
    if b { push_str(out, "true") } else { push_str(out, "false") }
}

fn push_string(out: &mut Vec<char>, s: &String)
    ensures
        final(out)@ == old(out)@ + s@,
{
    push_str(out, s.as_str());
}

impl CpuError {
    fn push_text(&self, out: &mut Vec<char>)
        ensures
            final(out)@ == old(out)@ + cpu_error_text(*self),
    {
        match self {
            CpuError::InvalidRegister(r) => {
                push_str(out, "Invalid register index: ");
                push_dec(out, *r as u64);
                push_str(out, " (must be 0-15)");
            },
            CpuError::InvalidInstruction(w) => {
                push_str(out, "Invalid instruction: 0x");
                push_hex8(out, *w as u64);
            },
            CpuError::DivisionByZero => push_str(out, "Division by zero"),
            CpuError::Overflow => push_str(out, "Arithmetic overflow"),
            CpuError::InvalidState(s) => {
                push_str(out, "Invalid CPU state: ");
                push_string(out, s);
            },
            CpuError::ExecutionProtection(a) => {
                push_str(out, "Execution protection violation at address 0x");
                push_hex8(out, *a as u64);
            },
            CpuError::Halted => push_str(out, "CPU halted"),
        }
        assert(final(out)@ =~= old(out)@ + cpu_error_text(*self));
    }

    /// The message this error displays.
    pub fn message(&self) -> (s: String)
        ensures
            s@ == cpu_error_text(*self),
    {
        let mut v: Vec<char> = Vec::new();
        self.push_text(&mut v);
        assert(v@ =~= cpu_error_text(*self));
        chars_to_string(&v)
    }
}

impl MemoryError {
    fn push_text(&self, out: &mut Vec<char>)
        ensures
            final(out)@ == old(out)@ + memory_error_text(*self),
    {
        match self {
            MemoryError::OutOfBounds { address, size } => {
                push_str(out, "Address out of bounds: 0x");
                push_hex8(out, *address as u64);
                push_str(out, " (size: 0x");
                push_hex8(out, *size as u64);
                push_str(out, ")");
            },
            MemoryError::Unaligned { address, alignment } => {
                push_str(out, "Unaligned memory access: 0x");
                push_hex8(out, *address as u64);
                push_str(out, " (alignment: ");
                push_dec(out, *alignment as u64);
                push_str(out, ")");
            },
            MemoryError::AccessViolation(a) => {
                push_str(out, "Access violation at address 0x");
                push_hex8(out, *a as u64);
            },
            MemoryError::ReadOnly(a) => {
                push_str(out, "Write to read-only memory at address 0x");
                push_hex8(out, *a as u64);
            },
            MemoryError::PageFault { address, present, write } => {
                push_str(out, "Page fault at address 0x");
                push_hex8(out, *address as u64);
                push_str(out, " (present: ");
                push_bool(out, *present);
                push_str(out, ", write: ");
                push_bool(out, *write);
                push_str(out, ")");
            },
            MemoryError::NotMapped(a) => {
                push_str(out, "Memory not mapped at address 0x");
                push_hex8(out, *a as u64);
            },
        }
        assert(final(out)@ =~= old(out)@ + memory_error_text(*self));
    }

    /// The message this error displays.
    pub fn message(&self) -> (s: String)
        ensures
            s@ == memory_error_text(*self),
    {
        let mut v: Vec<char> = Vec::new();
        self.push_text(&mut v);
        assert(v@ =~= memory_error_text(*self));
        chars_to_string(&v)
    }
}

impl IoError {
    fn push_text(&self, out: &mut Vec<char>)
        ensures
            final(out)@ == old(out)@ + io_error_text(*self),
    {
        match self {
            IoError::DeviceNotFound(a) => {
                push_str(out, "Device not found at address 0x");
                push_hex8(out, *a as u64);
            },
            IoError::InvalidOperation(s) => {
                push_str(out, "Invalid device operation: ");
                push_string(out, s);
            },
            IoError::NotReady(s) => {
                push_str(out, "Device not ready: ");
                push_string(out, s);
            },
            IoError::Timeout(s) => {
                push_str(out, "Device timeout: ");
                push_string(out, s);
            },
            IoError::DeviceError(s) => {
                push_str(out, "Device error: ");
                push_string(out, s);
            },
        }
        assert(final(out)@ =~= old(out)@ + io_error_text(*self));
    }

    /// The message this error displays.
    pub fn message(&self) -> (s: String)
        ensures
            s@ == io_error_text(*self),
    {
        let mut v: Vec<char> = Vec::new();
        self.push_text(&mut v);
        assert(v@ =~= io_error_text(*self));
        chars_to_string(&v)
    }
}

impl KernelError {
    fn push_text(&self, out: &mut Vec<char>)
        ensures
            final(out)@ == old(out)@ + kernel_error_text(*self),
    {
        match self {
            KernelError::ProcessNotFound(p) => {
                push_str(out, "Process not found: ");
                push_dec(out, *p as u64);
            },
            KernelError::InvalidSyscall(n) => {
                push_str(out, "Invalid syscall: ");
                push_dec(out, *n as u64);
            },
            KernelError::SyscallFailed(s) => {
                push_str(out, "Syscall failed: ");
                push_string(out, s);
            },
            KernelError::FileNotFound(s) => {
                push_str(out, "File not found: ");
                push_string(out, s);
            },
            KernelError::PermissionDenied(s) => {
                push_str(out, "Permission denied: ");
                push_string(out, s);
            },
            KernelError::ResourceExhausted(s) => {
                push_str(out, "Resource exhausted: ");
                push_string(out, s);
            },
            KernelError::InvalidArgument(s) => {
                push_str(out, "Invalid argument: ");
                push_string(out, s);
            },
            KernelError::NotADirectory(s) => {
                push_str(out, "Not a directory: ");
                push_string(out, s);
            },
            KernelError::IsADirectory(s) => {
                push_str(out, "Is a directory: ");
                push_string(out, s);
            },
        }
        assert(final(out)@ =~= old(out)@ + kernel_error_text(*self));
    }

    /// The message this error displays.
    pub fn message(&self) -> (s: String)
        ensures
            s@ == kernel_error_text(*self),
    {
        let mut v: Vec<char> = Vec::new();
        self.push_text(&mut v);
        assert(v@ =~= kernel_error_text(*self));
        chars_to_string(&v)
    }
}

impl VosError {
    /// The message this error displays.
    pub fn message(&self) -> (s: String)
        ensures
            s@ == vos_error_text(*self),
    {
        let mut v: Vec<char> = Vec::new();
        match self {
            VosError::Cpu(c) => {
                push_str(&mut v, "CPU error: ");
                c.push_text(&mut v);
            },
            VosError::Memory(m) => {
                push_str(&mut v, "Memory error: ");
                m.push_text(&mut v);
            },
            VosError::Io(i) => {
                push_str(&mut v, "I/O error: ");
                i.push_text(&mut v);
            },
            VosError::Kernel(k) => {
                push_str(&mut v, "Kernel error: ");
                k.push_text(&mut v);
            },
            VosError::Assembler(s) => {
                push_str(&mut v, "Assembler error: ");
                push_string(&mut v, s);
            },
            VosError::Filesystem(s) => {
                push_str(&mut v, "Filesystem error: ");
                push_string(&mut v, s);
            },
            VosError::Generic(s) => push_string(&mut v, s),
        }
        assert(v@ =~= vos_error_text(*self));
        chars_to_string(&v)
    }

    /// A generic error carrying the given text.
    pub fn generic(msg: &str) -> (e: VosError)
        ensures
            is_generic(e, msg@),
    {
        VosError::Generic(msg.to_string())
    }
}

impl From<CpuError> for VosError {
    fn from(e: CpuError) -> (r: VosError) {
        VosError::Cpu(e)
    }
}

impl vstd::std_specs::convert::FromSpecImpl<CpuError> for VosError {
    open spec fn obeys_from_spec() -> bool {
        true
    }

    open spec fn from_spec(v: CpuError) -> VosError {
        VosError::Cpu(v)
    }
}

impl From<MemoryError> for VosError {
    fn from(e: MemoryError) -> (r: VosError) {
        VosError::Memory(e)
    }
}

impl vstd::std_specs::convert::FromSpecImpl<MemoryError> for VosError {
    open spec fn obeys_from_spec() -> bool {
        true
    }

    open spec fn from_spec(v: MemoryError) -> VosError {
        VosError::Memory(v)
    }
}

impl From<IoError> for VosError {
    fn from(e: IoError) -> (r: VosError) {
        VosError::Io(e)
    }
}

impl vstd::std_specs::convert::FromSpecImpl<IoError> for VosError {
    open spec fn obeys_from_spec() -> bool {
        true
    }

    open spec fn from_spec(v: IoError) -> VosError {
        VosError::Io(v)
    }
}

impl From<KernelError> for VosError {
    fn from(e: KernelError) -> (r: VosError) {
        VosError::Kernel(e)
    }
}

impl vstd::std_specs::convert::FromSpecImpl<KernelError> for VosError {
    open spec fn obeys_from_spec() -> bool {
        true
    }

    open spec fn from_spec(v: KernelError) -> VosError {
        VosError::Kernel(v)
    }
}

} // verus!
