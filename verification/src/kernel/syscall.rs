//! System calls: their numbers and names, and the handler that counts and answers them.
use vstd::prelude::*;
use crate::error::VosError;
use crate::types::Word;

verus! {

/// System calls.
#[derive(Debug, Clone, Copy, PartialEq, Eq, Structural)]
pub enum Syscall {
    /// Exit the process (number 1)
    Exit,
    /// Process ID (number 2)
    GetPid,
    /// Write to a file or device (number 3)
    Write,
    /// Read from a file or device (number 4)
    Read,
    /// Allocate memory (number 5)
    Malloc,
    /// Free memory (number 6)
    Free,
    /// Sleep for a number of cycles (number 7)
    Sleep,
    /// Give up the processor (number 8)
    Yield,
    /// Current time in cycles (number 9)
    GetTime,
    /// Create a child process (number 10)
    Fork,
}

/// Number of a system call.
pub open spec fn syscall_number(s: Syscall) -> u32 {
    match s {
        Syscall::Exit => 1,
        Syscall::GetPid => 2,
        Syscall::Write => 3,
        Syscall::Read => 4,
        Syscall::Malloc => 5,
        Syscall::Free => 6,
        Syscall::Sleep => 7,
        Syscall::Yield => 8,
        Syscall::GetTime => 9,
        Syscall::Fork => 10,
    }
}

/// The system call with a number, if any.
pub open spec fn syscall_of_number(n: u32) -> Option<Syscall> {
    if n == 1 { Some(Syscall::Exit) }
    else if n == 2 { Some(Syscall::GetPid) }
    else if n == 3 { Some(Syscall::Write) }
    else if n == 4 { Some(Syscall::Read) }
    else if n == 5 { Some(Syscall::Malloc) }
    else if n == 6 { Some(Syscall::Free) }
    else if n == 7 { Some(Syscall::Sleep) }
    else if n == 8 { Some(Syscall::Yield) }
    else if n == 9 { Some(Syscall::GetTime) }
    else if n == 10 { Some(Syscall::Fork) }
    else { None }
}

/// Name of a system call.
pub open spec fn syscall_name(s: Syscall) -> Seq<char> {
    match s {
        Syscall::Exit => "exit"@,
        Syscall::GetPid => "getpid"@,
        Syscall::Write => "write"@,
        Syscall::Read => "read"@,
        Syscall::Malloc => "malloc"@,
        Syscall::Free => "free"@,
        Syscall::Sleep => "sleep"@,
        Syscall::Yield => "yield"@,
        Syscall::GetTime => "gettime"@,
        Syscall::Fork => "fork"@,
    }
}

/// Numbering is one to one: decoding a call's number gives the call back, and a number that
/// decodes is the number of what it decodes to.
pub proof fn lemma_syscall_number_roundtrip(s: Syscall, n: u32)
    ensures
        syscall_of_number(syscall_number(s)) == Some(s),
        syscall_of_number(n) matches Some(t) ==> syscall_number(t) == n,
{
}

impl Syscall {
    /// The system call with the given number, if any.
    pub fn from_number(num: u32) -> (r: Option<Self>)
        ensures
            r == syscall_of_number(num),
    {
        match num {
            1 => Some(Syscall::Exit),
            2 => Some(Syscall::GetPid),
            3 => Some(Syscall::Write),
            4 => Some(Syscall::Read),
            5 => Some(Syscall::Malloc),
            6 => Some(Syscall::Free),
            7 => Some(Syscall::Sleep),
            8 => Some(Syscall::Yield),
            9 => Some(Syscall::GetTime),
            10 => Some(Syscall::Fork),
            _ => None,
        }
    }

    /// The call's number.
    pub fn number(&self) -> (n: u32)
        ensures
            n == syscall_number(*self),
    {
        match self {
            Syscall::Exit => 1,
            Syscall::GetPid => 2,
            Syscall::Write => 3,
            Syscall::Read => 4,
            Syscall::Malloc => 5,
            Syscall::Free => 6,
            Syscall::Sleep => 7,
            Syscall::Yield => 8,
            Syscall::GetTime => 9,
            Syscall::Fork => 10,
        }
    }

    /// The call's name.
    pub fn name(&self) -> (s: &str)
        ensures
            s@ == syscall_name(*self),
    {
        match self {
            Syscall::Exit => "exit",
            Syscall::GetPid => "getpid",
            Syscall::Write => "write",
            Syscall::Read => "read",
            Syscall::Malloc => "malloc",
            Syscall::Free => "free",
            Syscall::Sleep => "sleep",
            Syscall::Yield => "yield",
            Syscall::GetTime => "gettime",
            Syscall::Fork => "fork",
        }
    }
}

/// Value a system call returns for its arguments: exit returns its status, getpid 1, write the
/// length written, every other call 0.
pub open spec fn syscall_result(s: Syscall, arg1: u32, arg3: u32) -> u32 {
    match s {
        Syscall::Exit => arg1,
        Syscall::GetPid => 1,
        Syscall::Write => arg3,
        _ => 0,
    }
}

/// The system call handler: answers calls and counts them, in total and by number.
pub struct SyscallHandler {
    /// Total system calls executed
    syscall_count: u64,
    /// Counts by call number
    syscall_stats: [u64; 11],
}

impl SyscallHandler {
    /// Total calls handled.
    pub closed spec fn total(&self) -> u64 {
        self.syscall_count
    }

    /// Calls handled, by call number (index 0 unused).
    pub closed spec fn stats(&self) -> Seq<u64> {
        self.syscall_stats@
    }

    /// The count table always has one entry per call number, 0 to 10.
    pub proof fn lemma_stats_len(&self)
        ensures
            self.stats().len() == 11,
    {
    }

    /// A handler with every count zero.
    pub fn new() -> (h: Self)
        ensures
            h.total() == 0,
            h.stats() == Seq::new(11, |i: int| 0u64),
    {
        let h = Self { syscall_count: 0, syscall_stats: [0; 11] };
        assert(h.stats() =~= Seq::new(11, |i: int| 0u64));
        h
    }

    /// Handles a system call: counts it and returns its result.
    pub fn handle(&mut self, syscall: Syscall, arg1: Word, arg2: Word, arg3: Word) -> (r: Result<Word, VosError>)
        requires
            old(self).total() < u64::MAX,
            old(self).stats()[syscall_number(syscall) as int] < u64::MAX,
        ensures
            r == Ok::<Word, VosError>(syscall_result(syscall, arg1, arg3)),
            final(self).total() == old(self).total() + 1,
            final(self).stats()[syscall_number(syscall) as int] == old(self).stats()[syscall_number(syscall) as int] + 1,
            final(self).stats().len() == 11,
            final(self).stats() == old(self).stats().update(syscall_number(syscall) as int,
                (old(self).stats()[syscall_number(syscall) as int] + 1) as u64),
    {
        self.syscall_count += 1;
        let n = syscall.number() as usize;
        self.syscall_stats[n] = self.syscall_stats[n] + 1;
        match syscall {
            Syscall::Exit => self.sys_exit(arg1),
            Syscall::GetPid => self.sys_getpid(),
            Syscall::Write => self.sys_write(arg1, arg2, arg3),
            Syscall::Read => self.sys_read(arg1, arg2, arg3),
            Syscall::Malloc => self.sys_malloc(arg1),
            Syscall::Free => self.sys_free(arg1),
            Syscall::Sleep => self.sys_sleep(arg1),
            Syscall::Yield => self.sys_yield(),
            Syscall::GetTime => self.sys_gettime(),
            Syscall::Fork => self.sys_fork(),
        }
    }

    fn sys_exit(&mut self, status: Word) -> (r: Result<Word, VosError>)
        ensures
            r == Ok::<Word, VosError>(status),
            *final(self) == *old(self),
    {
        Ok(status)
    }

    fn sys_getpid(&mut self) -> (r: Result<Word, VosError>)
        ensures
            r == Ok::<Word, VosError>(1),
            *final(self) == *old(self),
    {
        Ok(1)
    }

    fn sys_write(&mut self, fd: Word, buffer: Word, length: Word) -> (r: Result<Word, VosError>)
        ensures
            r == Ok::<Word, VosError>(length),
            *final(self) == *old(self),
    {
        Ok(length)
    }

    fn sys_read(&mut self, fd: Word, buffer: Word, length: Word) -> (r: Result<Word, VosError>)
        ensures
            r == Ok::<Word, VosError>(0),
            *final(self) == *old(self),
    {
        Ok(0)
    }

    fn sys_malloc(&mut self, size: Word) -> (r: Result<Word, VosError>)
        ensures
            r == Ok::<Word, VosError>(0),
            *final(self) == *old(self),
    {
        Ok(0)
    }

    fn sys_free(&mut self, address: Word) -> (r: Result<Word, VosError>)
        ensures
            r == Ok::<Word, VosError>(0),
            *final(self) == *old(self),
    {
        Ok(0)
    }

    fn sys_sleep(&mut self, cycles: Word) -> (r: Result<Word, VosError>)
        ensures
            r == Ok::<Word, VosError>(0),
            *final(self) == *old(self),
    {
        Ok(0)
    }

    fn sys_yield(&mut self) -> (r: Result<Word, VosError>)
        ensures
            r == Ok::<Word, VosError>(0),
            *final(self) == *old(self),
    {
        Ok(0)
    }

    fn sys_gettime(&mut self) -> (r: Result<Word, VosError>)
        ensures
            r == Ok::<Word, VosError>(0),
            *final(self) == *old(self),
    {
        Ok(0)
    }

    fn sys_fork(&mut self) -> (r: Result<Word, VosError>)
        ensures
            r == Ok::<Word, VosError>(0),
            *final(self) == *old(self),
    {
        Ok(0)
    }

    /// Total calls handled.
    pub fn total_syscalls(&self) -> (n: u64)
        ensures
            n == self.total(),
    {
        self.syscall_count
    }

    /// Calls of one kind handled.
    pub fn syscall_stat(&self, syscall: Syscall) -> (n: u64)
        ensures
            n == self.stats()[syscall_number(syscall) as int],
    {
        self.syscall_stats[syscall.number() as usize]
    }
}

impl Default for SyscallHandler {
    /// A handler with every count zero.
    fn default() -> (h: Self)
        ensures
            h.total() == 0,
            h.stats() == Seq::new(11, |i: int| 0u64),
    {
        Self::new()
    }
}

} // verus!
