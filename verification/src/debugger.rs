//! The debugger: stepping, breakpoints and running to a breakpoint or halt.
use vstd::prelude::*;
use crate::cpu::instruction::{Instruction, decode_spec, disassembly};
use crate::error::{CpuError, VosError, vos_error_text};
use crate::machine::{VirtualMachine, VmModel, vm_step};
use crate::memory::memory::mem_read_word;
use crate::cpu::cpu::CpuState;
use crate::text::{chars_to_string, dec, hex8, hex_digits, pad_left, pad_right, push_dec, push_dec_left, push_dec_right, push_hex, push_hex8, push_str};
use crate::types::Address;

verus! {

/// A breakpoint.
#[derive(Clone, Copy, Debug, PartialEq, Eq, Structural)]
pub struct Breakpoint {
    /// Breakpoint number
    pub number: usize,
    /// Address of the breakpoint
    pub address: Address,
    /// Whether the breakpoint is enabled
    pub enabled: bool,
}

/// Why running stopped.
#[derive(Clone, Copy, Debug, PartialEq, Eq, Structural)]
pub enum Stop {
    /// The program counter reached an enabled breakpoint at this address.
    Breakpoint(Address),
    /// The processor halted.
    Halted,
}

/// Addresses of the enabled breakpoints.
pub open spec fn enabled_addresses(bps: Seq<Breakpoint>) -> Set<u32> {
    Set::new(|a: u32| exists|i: int| 0 <= i < bps.len() && #[trigger] bps[i].enabled && bps[i].address == a)
}

/// Index of the first breakpoint numbered `n`, if any.
pub open spec fn breakpoint_pos(bps: Seq<Breakpoint>, n: usize) -> Option<int>
    decreases bps.len(),
{
    if bps.len() == 0 {
        None
    } else if bps[0].number == n {
        Some(0)
    } else {
        match breakpoint_pos(bps.drop_first(), n) {
            Some(i) => Some(i + 1),
            None => None,
        }
    }
}

/// Up to `n` rounds of running to a breakpoint: each round stops at an enabled breakpoint
/// under the program counter, or steps the machine and stops if it halted or failed. `None`
/// while still running.
pub open spec fn continue_n(v: VmModel, bps: Set<u32>, n: nat) -> (VmModel, Option<Result<Stop, VosError>>)
    decreases n,
{
    if n == 0 {
        (v, None)
    } else {
        let (w, o) = continue_n(v, bps, (n - 1) as nat);
        match o {
            None => if bps.contains(w.cpu.pc) {
                (w, Some(Ok(Stop::Breakpoint(w.cpu.pc))))
            } else {
                let (x, r) = vm_step(w);
                match r {
                    Ok(true) => (x, None),
                    Ok(false) => (x, Some(Ok(Stop::Halted))),
                    Err(e) => (x, Some(Err(e))),
                }
            },
            Some(_) => (w, o),
        }
    }
}

/// Text `disassemble` gives for the instruction word `word` at `pc`.
pub open spec fn disassembly_line(pc: u32, word: u32) -> Seq<char> {
    match decode_spec(word) {
        Ok(i) => "0x"@ + hex_digits(pc as nat, 8) + ": "@ + disassembly(i) + " (0x"@ + hex_digits(word as nat, 8) + ")"@,
        Err(e) => "0x"@ + hex_digits(pc as nat, 8) + ": Invalid instruction - "@ + vos_error_text(e) + " (0x"@
            + hex_digits(word as nat, 8) + ")"@,
    }
}

/// Breakpoint numbers are distinct and below the next number to give out.
pub open spec fn numbers_ok(bps: Seq<Breakpoint>, next: usize) -> bool {
    &&& forall|i: int| 0 <= i < bps.len() ==> #[trigger] bps[i].number < next
    &&& forall|i: int, j: int| #![trigger bps[i], bps[j]] 0 <= i < j < bps.len() ==> bps[i].number != bps[j].number
}

/// A breakpoint whose number is new is found at the end, and deleting it gives back the
/// breakpoints there were before: setting a breakpoint and deleting it by its number undo each
/// other.
pub proof fn lemma_set_then_delete(bps: Seq<Breakpoint>, next: usize, address: Address)
    requires
        numbers_ok(bps, next),
    ensures
        breakpoint_pos(bps.push(Breakpoint { number: next, address, enabled: true }), next) == Some(bps.len() as int),
        bps.push(Breakpoint { number: next, address, enabled: true }).remove(bps.len() as int) == bps,
{
    let b = Breakpoint { number: next, address, enabled: true };
    let all = bps.push(b);
    assert forall|k: int| 0 <= k < bps.len() as int implies #[trigger] all[k].number != next by {
        assert(bps[k].number < next);
    }
    lemma_breakpoint_pos(all, next, bps.len() as int);
    assert(all.remove(bps.len() as int) =~= bps);
}

/// Deleting keeps the numbers distinct and below the next one.
proof fn lemma_remove_keeps_numbers(bps: Seq<Breakpoint>, next: usize, i: int)
    requires
        numbers_ok(bps, next),
        0 <= i < bps.len(),
    ensures
        numbers_ok(bps.remove(i), next),
{
    let r = bps.remove(i);
    assert forall|a: int| 0 <= a < r.len() implies #[trigger] r[a].number < next by {
        if a < i { assert(r[a] == bps[a]); } else { assert(r[a] == bps[a + 1]); }
    }
    assert forall|a: int, b: int| #![trigger r[a], r[b]] 0 <= a < b < r.len() implies r[a].number != r[b].number by {
        let a2 = if a < i { a } else { a + 1 };
        let b2 = if b < i { b } else { b + 1 };
        assert(r[a] == bps[a2]);
        assert(r[b] == bps[b2]);
        assert(bps[a2].number != bps[b2].number);
    }
}

/// One line of the breakpoint listing: number, address and whether enabled.
pub open spec fn breakpoint_line(bp: Breakpoint) -> Seq<char> {
    pad_right(dec(bp.number as nat), 3) + "  0x"@ + hex8(bp.address as nat) + "   "@
        + (if bp.enabled { "yes"@ } else { "no"@ }) + "\n"@
}

/// The lines of the first `n` breakpoints.
pub open spec fn breakpoint_lines(bps: Seq<Breakpoint>, n: nat) -> Seq<char>
    decreases n,
{
    if n == 0 || n > bps.len() {
        Seq::empty()
    } else {
        breakpoint_lines(bps, (n - 1) as nat) + breakpoint_line(bps[n - 1])
    }
}

/// The breakpoint listing: a table with a header, or a note that there are none.
pub open spec fn breakpoint_listing_text(bps: Seq<Breakpoint>) -> Seq<char> {
    if bps.len() == 0 {
        "No breakpoints set\n"@
    } else {
        "Num  Address      Enabled\n---  ----------   -------\n"@ + breakpoint_lines(bps, bps.len())
    }
}

/// `true` or `false`, as `{}` prints a flag.
pub open spec fn bool_text(b: bool) -> Seq<char> {
    if b { "true"@ } else { "false"@ }
}

/// One register line: name, value in hexadecimal and in decimal.
pub open spec fn register_info_line(i: nat, v: u32) -> Seq<char> {
    "R"@ + pad_right(dec(i), 2) + " = 0x"@ + hex8(v as nat) + " ("@ + dec(v as nat) + ")\n"@
}

/// The lines of the first `n` registers.
pub open spec fn register_info_lines(regs: Seq<u32>, n: nat) -> Seq<char>
    decreases n,
{
    if n == 0 {
        Seq::empty()
    } else {
        register_info_lines(regs, (n - 1) as nat) + register_info_line((n - 1) as nat, regs[n - 1])
    }
}

/// The register report: R0..R15, the program counter and the four flags.
pub open spec fn register_info_text(c: CpuState) -> Seq<char> {
    "\n=== Registers ===\n"@ + register_info_lines(c.regs, 16)
        + "\nPC  = 0x"@ + hex8(c.pc as nat) + "\n"@
        + "\n=== Flags ===\n"@
        + "Zero     (Z): "@ + bool_text(c.flags.zero) + "\n"@
        + "Negative (N): "@ + bool_text(c.flags.negative) + "\n"@
        + "Carry    (C): "@ + bool_text(c.flags.carry) + "\n"@
        + "Overflow (V): "@ + bool_text(c.flags.overflow) + "\n"@
}

/// One line of a memory listing: the address, the word there and its four bytes, least
/// significant first, each right-aligned in three columns.
pub open spec fn memory_line_text(address: u32, word: u32) -> Seq<char> {
    "0x"@ + hex8(address as nat) + ": 0x"@ + hex8(word as nat) + "  "@
        + pad_left(dec((word & 0xFF) as nat), 3) + " "@
        + pad_left(dec(((word >> 8u32) & 0xFF) as nat), 3) + " "@
        + pad_left(dec(((word >> 16u32) & 0xFF) as nat), 3) + " "@
        + pad_left(dec(((word >> 24u32) & 0xFF) as nat), 3)
}

/// The memory-listing line for `word` read at `address` (without a line break).
pub fn memory_line(address: Address, word: u32) -> (s: String)
    ensures
        s@ == memory_line_text(address, word),
{
    let mut out: Vec<char> = Vec::new();
    push_str(&mut out, "0x");
    push_hex8(&mut out, address as u64);
    push_str(&mut out, ": 0x");
    push_hex8(&mut out, word as u64);
    push_str(&mut out, "  ");
    push_dec_right(&mut out, (word & 0xFF) as u64, 3);
    push_str(&mut out, " ");
    push_dec_right(&mut out, ((word >> 8) & 0xFF) as u64, 3);
    push_str(&mut out, " ");
    push_dec_right(&mut out, ((word >> 16) & 0xFF) as u64, 3);
    push_str(&mut out, " ");
    push_dec_right(&mut out, ((word >> 24) & 0xFF) as u64, 3);
    assert(out@ =~= memory_line_text(address, word));
    chars_to_string(&out)
}

/// Debugger over a virtual machine.
pub struct Debugger {
    /// Virtual machine being debugged
    vm: VirtualMachine,
    /// Breakpoints
    breakpoints: Vec<Breakpoint>,
    /// Next breakpoint number
    next_breakpoint_num: usize,
    /// Whether the debugger is running
    running: bool,
}

impl Debugger {
    /// The machine under the debugger.
    pub closed spec fn machine(&self) -> VirtualMachine {
        self.vm
    }

    /// The breakpoints, in the order they were set.
    pub closed spec fn points(&self) -> Seq<Breakpoint> {
        self.breakpoints@
    }

    /// Number the next breakpoint gets.
    pub closed spec fn next_number(&self) -> usize {
        self.next_breakpoint_num
    }

    /// Whether the debugger runs.
    pub closed spec fn active(&self) -> bool {
        self.running
    }

    /// Breakpoint numbers are distinct and below the next one.
    pub open spec fn wf(&self) -> bool {
        numbers_ok(self.points(), self.next_number())
    }

    /// A running debugger over `vm`, without breakpoints; the first breakpoint gets number 1.
    pub fn new(vm: VirtualMachine) -> (d: Self)
        ensures
            d.wf(),
            d.machine() == vm,
            d.points() == Seq::<Breakpoint>::empty(),
            d.next_number() == 1,
            d.active(),
    {
        Self { vm, breakpoints: Vec::new(), next_breakpoint_num: 1, running: true }
    }

    /// The machine.
    pub fn vm(&self) -> (v: &VirtualMachine)
        ensures
            *v == self.machine(),
    {
        &self.vm
    }

    /// The machine, for changes.
    pub fn vm_mut(&mut self) -> (v: &mut VirtualMachine)
        ensures
            *v == old(self).machine(),
            final(self).machine() == *final(v),
            final(self).points() == old(self).points(),
            final(self).next_number() == old(self).next_number(),
            final(self).active() == old(self).active(),
    {
        &mut self.vm
    }

    /// The breakpoints, in the order they were set.
    pub fn breakpoints(&self) -> (b: &[Breakpoint])
        ensures
            b@ == self.points(),
    {
        self.breakpoints.as_slice()
    }

    /// Number the next breakpoint gets.
    pub fn next_breakpoint_number(&self) -> (n: usize)
        ensures
            n == self.next_number(),
    {
        self.next_breakpoint_num
    }

    /// Executes one instruction; `Ok(false)` once the processor halted.
    pub fn step(&mut self) -> (r: Result<bool, VosError>)
        requires
            old(self).machine().model().cycles < u64::MAX,
            old(self).machine().model().cpu.count < u64::MAX,
        ensures
            (final(self).machine().model(), r) == vm_step(old(self).machine().model()),
            old(self).machine().wf() ==> final(self).machine().wf(),
            final(self).points() == old(self).points(),
            final(self).next_number() == old(self).next_number(),
            final(self).active() == old(self).active(),
    {
        self.vm.step()
    }

    /// Runs until the program counter reaches an enabled breakpoint (checked before each step)
    /// or the processor halts; a failing step ends the run with its error. Should a cycle or
    /// instruction counter reach its maximum first, the run stops with an overflow error.
    pub fn continue_exec(&mut self) -> (r: Result<Stop, VosError>)
        ensures
            final(self).points() == old(self).points(),
            final(self).next_number() == old(self).next_number(),
            final(self).active() == old(self).active(),
            old(self).machine().wf() ==> final(self).machine().wf(),
            ({
                let bps = enabled_addresses(old(self).points());
                &&& forall|s: Stop| r == Ok::<Stop, VosError>(s) ==> exists|n: nat|
                    continue_n(old(self).machine().model(), bps, n) == (final(self).machine().model(), Some(Ok::<Stop, VosError>(s)))
                &&& forall|e: VosError| r == Err::<Stop, VosError>(e) ==>
                    (exists|n: nat| continue_n(old(self).machine().model(), bps, n)
                        == (final(self).machine().model(), Some(Err::<Stop, VosError>(e))))
                    || (e == VosError::Cpu(CpuError::Overflow)
                        && (final(self).machine().model().cycles == u64::MAX || final(self).machine().model().cpu.count == u64::MAX)
                        && exists|n: nat| continue_n(old(self).machine().model(), bps, n)
                            == (final(self).machine().model(), None::<Result<Stop, VosError>>))
            }),
    {
        let ghost bps = enabled_addresses(self.breakpoints@);
        let ghost start = self.vm.model();
        let ghost mut n: nat = 0;
        loop
            invariant
                bps == enabled_addresses(old(self).points()),
                start == old(self).machine().model(),
                continue_n(start, bps, n) == (self.vm.model(), None::<Result<Stop, VosError>>),
                self.breakpoints@ == old(self).points(),
                self.next_breakpoint_num == old(self).next_number(),
                self.running == old(self).active(),
                old(self).machine().wf() ==> self.vm.wf(),
            decreases u64::MAX - self.vm.model().cycles,
        {
            let pc = self.vm.cpu().pc();
            let mut hit = false;
            let mut j: usize = 0;
            while j < self.breakpoints.len()
                invariant
                    j <= self.breakpoints@.len(),
                    hit <==> exists|i: int| 0 <= i < j && #[trigger] self.breakpoints@[i].enabled
                        && self.breakpoints@[i].address == pc,
                decreases self.breakpoints@.len() - j,
            {
                if self.breakpoints[j].enabled && self.breakpoints[j].address == pc {
                    hit = true;
                }
                j += 1;
            }
            if hit {
                proof {
                    assert(bps.contains(pc));
                    n = n + 1;
                    assert(continue_n(start, bps, n) == (self.vm.model(), Some(Ok::<Stop, VosError>(Stop::Breakpoint(pc)))));
                }
                return Ok(Stop::Breakpoint(pc));
            }
            if self.vm.cycles() == u64::MAX || self.vm.cpu().instruction_count() == u64::MAX {
                return Err(VosError::Cpu(CpuError::Overflow));
            }
            let ghost before = self.vm.model().cycles;
            proof {
                assert(!bps.contains(pc)) by {
                    if bps.contains(pc) {
                        let i = choose|i: int| 0 <= i < self.breakpoints@.len() && #[trigger] self.breakpoints@[i].enabled
                            && self.breakpoints@[i].address == pc;
                        assert(exists|i: int| 0 <= i < j && #[trigger] self.breakpoints@[i].enabled
                            && self.breakpoints@[i].address == pc);
                    }
                }
                n = n + 1;
            }
            let r = self.vm.step();
            match r {
                Ok(true) => {
                    assert(continue_n(start, bps, n) == (self.vm.model(), None::<Result<Stop, VosError>>));
                },
                Ok(false) => {
                    assert(continue_n(start, bps, n) == (self.vm.model(), Some(Ok::<Stop, VosError>(Stop::Halted))));
                    return Ok(Stop::Halted);
                },
                Err(e) => {
                    assert(continue_n(start, bps, n) == (self.vm.model(), Some(Err::<Stop, VosError>(e))));
                    return Err(e);
                },
            }
        }
    }

    /// Sets an enabled breakpoint at `address`, numbered with the next number.
    pub fn set_breakpoint(&mut self, address: Address)
        requires
            old(self).next_number() < usize::MAX,
        ensures
            final(self).points() == old(self).points().push(
                Breakpoint { number: old(self).next_number(), address, enabled: true }),
            final(self).next_number() == old(self).next_number() + 1,
            final(self).machine() == old(self).machine(),
            final(self).active() == old(self).active(),
            old(self).wf() ==> final(self).wf(),
    {
        let breakpoint = Breakpoint { number: self.next_breakpoint_num, address, enabled: true };
        self.breakpoints.push(breakpoint);
        self.next_breakpoint_num = self.next_breakpoint_num + 1;
        proof {
            if old(self).wf() {
                let bps = self.breakpoints@;
                assert forall|i: int| 0 <= i < bps.len() implies #[trigger] bps[i].number < self.next_breakpoint_num by {
                    if i < bps.len() - 1 {
                        assert(bps[i] == old(self).points()[i]);
                    }
                }
                assert forall|i: int, j: int| #![trigger bps[i], bps[j]] 0 <= i < j < bps.len()
                    implies bps[i].number != bps[j].number by {
                    assert(bps[i] == old(self).points()[i]);
                    if j < bps.len() - 1 {
                        assert(bps[j] == old(self).points()[j]);
                    }
                }
            }
        }
    }

    /// Deletes the first breakpoint numbered `number`; false if there is none.
    pub fn delete_breakpoint(&mut self, number: usize) -> (deleted: bool)
        ensures
            deleted == breakpoint_pos(old(self).points(), number) is Some,
            match breakpoint_pos(old(self).points(), number) {
                Some(i) => final(self).points() == old(self).points().remove(i),
                None => final(self).points() == old(self).points(),
            },
            final(self).next_number() == old(self).next_number(),
            final(self).machine() == old(self).machine(),
            final(self).active() == old(self).active(),
            old(self).wf() ==> final(self).wf(),
    {
        let mut i: usize = 0;
        while i < self.breakpoints.len()
            invariant
                i <= self.breakpoints@.len(),
                self.breakpoints@ == old(self).points(),
                self.vm == old(self).vm,
                self.next_breakpoint_num == old(self).next_breakpoint_num,
                self.running == old(self).running,
                forall|k: int| 0 <= k < i ==> #[trigger] self.breakpoints@[k].number != number,
            decreases self.breakpoints@.len() - i,
        {
            if self.breakpoints[i].number == number {
                proof {
                    lemma_breakpoint_pos(self.breakpoints@, number, i as int);
                    if old(self).wf() {
                        lemma_remove_keeps_numbers(self.breakpoints@, self.next_breakpoint_num, i as int);
                    }
                }
                self.breakpoints.remove(i);
                return true;
            }
            i += 1;
        }
        proof {
            lemma_breakpoint_pos_none(self.breakpoints@, number);
        }
        false
    }

    /// Text of the instruction under the program counter: its address, disassembly and word,
    /// or why it does not decode; fails if the word cannot be read from memory.
    pub fn disassemble(&mut self) -> (r: Result<String, VosError>)
        ensures
            ({
                let v = old(self).machine().model();
                let (m, w) = mem_read_word(v.bus.mem, v.cpu.pc);
                &&& final(self).machine().model() == (VmModel { bus: crate::machine::BusModel { mem: m, ..v.bus }, ..v })
                &&& match w {
                    Ok(word) => r is Ok && r->Ok_0@ == disassembly_line(v.cpu.pc, word),
                    Err(e) => r == Err::<String, VosError>(e),
                }
            }),
            final(self).points() == old(self).points(),
            final(self).next_number() == old(self).next_number(),
            final(self).active() == old(self).active(),
            final(self).machine().wf() == old(self).machine().wf(),
    {
        let pc = self.vm.cpu().pc();
        let word = match self.vm.memory_mut().read_word(pc) {
            Ok(w) => w,
            Err(e) => return Err(e),
        };
        let mut out: Vec<char> = Vec::new();
        push_str(&mut out, "0x");
        push_hex(&mut out, pc as u64, 8);
        match Instruction::decode(word) {
            Ok(instr) => {
                push_str(&mut out, ": ");
                let d = instr.disassemble();
                push_str(&mut out, d.as_str());
            },
            Err(e) => {
                push_str(&mut out, ": Invalid instruction - ");
                let m = e.message();
                push_str(&mut out, m.as_str());
            },
        }
        push_str(&mut out, " (0x");
        push_hex(&mut out, word as u64, 8);
        push_str(&mut out, ")");
        proof {
            match decode_spec(word) {
                Ok(i) => assert(out@ =~= disassembly_line(pc, word)),
                Err(e) => assert(out@ =~= disassembly_line(pc, word)),
            }
        }
        Ok(chars_to_string(&out))
    }

    /// The breakpoint listing, one line per breakpoint in the order they were set.
    pub fn breakpoint_listing(&self) -> (s: String)
        ensures
            s@ == breakpoint_listing_text(self.points()),
    {
        let mut out: Vec<char> = Vec::new();
        if self.breakpoints.len() == 0 {
            push_str(&mut out, "No breakpoints set\n");
            return chars_to_string(&out);
        }
        push_str(&mut out, "Num  Address      Enabled\n---  ----------   -------\n");
        let ghost head = out@;
        let mut i: usize = 0;
        while i < self.breakpoints.len()
            invariant
                i <= self.breakpoints@.len(),
                out@ == head + breakpoint_lines(self.points(), i as nat),
            decreases self.breakpoints@.len() - i,
        {
            let bp = self.breakpoints[i];
            let ghost before = out@;
            push_dec_left(&mut out, bp.number as u64, 3);
            push_str(&mut out, "  0x");
            push_hex8(&mut out, bp.address as u64);
            push_str(&mut out, "   ");
            if bp.enabled {
                push_str(&mut out, "yes");
            } else {
                push_str(&mut out, "no");
            }
            push_str(&mut out, "\n");
            assert(out@ =~= before + breakpoint_line(bp));
            i += 1;
            assert(out@ =~= head + breakpoint_lines(self.points(), i as nat));
        }
        chars_to_string(&out)
    }

    /// The register report: each register in hexadecimal and decimal, the program counter
    /// and the flags.
    #[verifier::rlimit(30)]
    pub fn register_info(&self) -> (s: String)
        ensures
            s@ == register_info_text(self.machine().model().cpu),
    {
        let cpu = self.vm.cpu();
        let regs = cpu.register_file();
        let ghost c = self.machine().model().cpu;
        proof {
            cpu.lemma_state_regs();
        }
        let mut out: Vec<char> = Vec::new();
        push_str(&mut out, "\n=== Registers ===\n");
        let ghost head = out@;
        let mut i: u8 = 0;
        while i < 16
            invariant
                i <= 16,
                c == cpu.model(),
                c.regs == regs.values(),
                out@ == head + register_info_lines(c.regs, i as nat),
            decreases 16 - i,
        {
            let v = regs.read(i);
            assert(v == c.regs[i as int]);
            let ghost before = out@;
            push_str(&mut out, "R");
            push_dec_left(&mut out, i as u64, 2);
            push_str(&mut out, " = 0x");
            push_hex8(&mut out, v as u64);
            push_str(&mut out, " (");
            push_dec(&mut out, v as u64);
            push_str(&mut out, ")\n");
            assert(out@ =~= before + register_info_line(i as nat, v));
            i += 1;
            assert(out@ =~= head + register_info_lines(c.regs, i as nat));
        }
        push_str(&mut out, "\nPC  = 0x");
        push_hex8(&mut out, cpu.pc() as u64);
        push_str(&mut out, "\n");
        let flags = regs.flags;
        push_str(&mut out, "\n=== Flags ===\n");
        push_str(&mut out, "Zero     (Z): ");
        push_str(&mut out, if flags.zero { "true" } else { "false" });
        push_str(&mut out, "\n");
        push_str(&mut out, "Negative (N): ");
        push_str(&mut out, if flags.negative { "true" } else { "false" });
        push_str(&mut out, "\n");
        push_str(&mut out, "Carry    (C): ");
        push_str(&mut out, if flags.carry { "true" } else { "false" });
        push_str(&mut out, "\n");
        push_str(&mut out, "Overflow (V): ");
        push_str(&mut out, if flags.overflow { "true" } else { "false" });
        push_str(&mut out, "\n");
        assert(out@ =~= register_info_text(c));
        chars_to_string(&out)
    }

    /// Whether the debugger is running.
    pub fn is_running(&self) -> (b: bool)
        ensures
            b == self.active(),
    {
        self.running
    }

    /// Stops the debugger.
    pub fn quit(&mut self)
        ensures
            !final(self).active(),
            final(self).machine() == old(self).machine(),
            final(self).points() == old(self).points(),
            final(self).next_number() == old(self).next_number(),
    {
        self.running = false;
    }
}

/// The first breakpoint numbered `n` is the first whose number is `n`.
proof fn lemma_breakpoint_pos(bps: Seq<Breakpoint>, n: usize, i: int)
    requires
        0 <= i < bps.len(),
        bps[i].number == n,
        forall|k: int| 0 <= k < i ==> #[trigger] bps[k].number != n,
    ensures
        breakpoint_pos(bps, n) == Some(i),
    decreases i,
{
    if i > 0 {
        lemma_breakpoint_pos(bps.drop_first(), n, i - 1);
    }
}

/// Without a breakpoint numbered `n` there is no position.
proof fn lemma_breakpoint_pos_none(bps: Seq<Breakpoint>, n: usize)
    requires
        forall|k: int| 0 <= k < bps.len() ==> #[trigger] bps[k].number != n,
    ensures
        breakpoint_pos(bps, n) is None,
    decreases bps.len(),
{
    if bps.len() > 0 {
        assert forall|k: int| 0 <= k < bps.drop_first().len() implies #[trigger] bps.drop_first()[k].number != n by {
            assert(bps.drop_first()[k] == bps[k + 1]);
        }
        lemma_breakpoint_pos_none(bps.drop_first(), n);
    }
}

} // verus!
