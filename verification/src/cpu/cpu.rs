//! The processor and its fetch-decode-execute cycle.
use vstd::prelude::*;
use crate::cpu::alu::{Alu, AluResult, add_spec, sub_spec, zn_result};
use crate::cpu::instruction::{Funct, Instruction, Opcode, decode_spec};
use crate::cpu::registers::{Flags, Registers, signed, zero_registers};
use crate::error::{CpuError, VosError};
use crate::types::{Address, Word};
use crate::error::bool_text;
use crate::traits::Inspectable;
use crate::cpu::registers::registers_dump_text;
use crate::text::{chars_to_string, dec, dec_string, hex8, push_dec, push_hex8, push_str};

verus! {

/// Memory as the processor sees it.
///
/// An implementation describes its state by a model value and says, as spec functions of
/// that model, what each access returns and what state it leaves.
pub trait Memory {
    /// Abstract state of the memory.
    type Model;

    /// The current abstract state.
    spec fn model(&self) -> Self::Model;

    /// State after, and result of, reading a word.
    spec fn read_word_spec(m: Self::Model, address: Address) -> (Self::Model, Result<Word, VosError>);

    /// State after, and result of, writing a word.
    spec fn write_word_spec(m: Self::Model, address: Address, value: Word) -> (Self::Model, Result<(), VosError>);

    /// State after, and result of, reading a byte.
    spec fn read_byte_spec(m: Self::Model, address: Address) -> (Self::Model, Result<u8, VosError>);

    /// State after, and result of, writing a byte.
    spec fn write_byte_spec(m: Self::Model, address: Address, value: u8) -> (Self::Model, Result<(), VosError>);

    /// Reads a word.
    fn read_word(&mut self, address: Address) -> (r: Result<Word, VosError>)
        ensures
            (final(self).model(), r) == Self::read_word_spec(old(self).model(), address);

    /// Writes a word.
    fn write_word(&mut self, address: Address, value: Word) -> (r: Result<(), VosError>)
        ensures
            (final(self).model(), r) == Self::write_word_spec(old(self).model(), address, value);

    /// Reads a byte.
    fn read_byte(&mut self, address: Address) -> (r: Result<u8, VosError>)
        ensures
            (final(self).model(), r) == Self::read_byte_spec(old(self).model(), address);

    /// Writes a byte.
    fn write_byte(&mut self, address: Address, value: u8) -> (r: Result<(), VosError>)
        ensures
            (final(self).model(), r) == Self::write_byte_spec(old(self).model(), address, value);
}

/// Abstract processor state.
pub struct CpuState {
    /// Values of R0..R15 (R0 is always zero)
    pub regs: Seq<u32>,
    /// Program counter
    pub pc: u32,
    /// Instruction register
    pub ir: u32,
    /// Status flags
    pub flags: Flags,
    /// Whether the processor is halted
    pub halted: bool,
    /// Instructions executed
    pub count: u64,
}

/// Sum of two words modulo 2^32.
pub open spec fn wadd(a: u32, b: u32) -> u32 {
    if a + b > u32::MAX { (a + b - 0x1_0000_0000) as u32 } else { (a + b) as u32 }
}

/// A signed value taken modulo 2^32.
pub open spec fn to_word(x: i32) -> u32 {
    if x >= 0 { x as u32 } else { (x + 0x1_0000_0000) as u32 }
}

/// Value of register `i` in a state (R0 and indices above 15 read as zero).
pub open spec fn reg(s: CpuState, i: u8) -> u32 {
    if 0 < i < 16 { s.regs[i as int] } else { 0 }
}

/// The state with register `i` set to `v` (writes to R0 or above R15 are ignored).
pub open spec fn with_reg(s: CpuState, i: u8, v: u32) -> CpuState {
    if 0 < i < 16 { CpuState { regs: s.regs.update(i as int, v), ..s } } else { s }
}

/// The state with the program counter moved to the next instruction.
pub open spec fn advance(s: CpuState) -> CpuState {
    CpuState { pc: wadd(s.pc, 4), ..s }
}

/// The state after an ALU result is written to `rd`, flags set and PC advanced.
pub open spec fn apply_alu(s: CpuState, rd: u8, r: AluResult) -> CpuState {
    advance(CpuState { flags: r.flags, ..with_reg(s, rd, r.value) })
}

/// Result of the ALU for an R-Type function (MOV and JR do not use the ALU).
pub open spec fn alu_spec(funct: Funct, a: u32, b: u32, shamt: u8) -> Result<AluResult, VosError> {
    match funct {
        Funct::ADD => Ok(add_spec(a, b)),
        Funct::SUB => Ok(sub_spec(a, b)),
        Funct::MUL => Ok(zn_result(((a as nat * b as nat) % 0x1_0000_0000) as u32)),
        Funct::DIV => if b == 0 { Err(VosError::Cpu(CpuError::DivisionByZero)) } else { Ok(zn_result(a / b)) },
        Funct::AND => Ok(zn_result(a & b)),
        Funct::OR => Ok(zn_result(a | b)),
        Funct::XOR => Ok(zn_result(a ^ b)),
        Funct::NOT => Ok(zn_result(!a)),
        Funct::SLL => Ok(zn_result(b << ((shamt & 0x1F) as u32))),
        Funct::SRL => Ok(zn_result(b >> ((shamt & 0x1F) as u32))),
        Funct::SRA => Ok(zn_result(((b as i32) >> ((shamt & 0x1F) as u32)) as u32)),
        Funct::SLT => Ok(zn_result(if signed(a) < signed(b) { 1 } else { 0 })),
        _ => Ok(zn_result(if signed(a) > signed(b) { 1 } else { 0 })),
    }
}

/// Effect of an R-Type instruction.
pub open spec fn rtype_spec(s: CpuState, funct: Funct, rd: u8, rs: u8, rt: u8, shamt: u8) -> Result<CpuState, VosError> {
    let a = reg(s, rs);
    let b = reg(s, rt);
    match funct {
        Funct::MOV => Ok(advance(with_reg(s, rd, a))),
        Funct::JR => Ok(CpuState { pc: a, ..s }),
        _ => match alu_spec(funct, a, b, shamt) {
            Ok(r) => Ok(apply_alu(s, rd, r)),
            Err(e) => Err(e),
        },
    }
}

/// Whether a branch with the given opcode is taken for the two operand values.
pub open spec fn branch_taken(opcode: Opcode, a: u32, b: u32) -> bool {
    match opcode {
        Opcode::BEQ => a == b,
        Opcode::BNE => a != b,
        Opcode::BLT => signed(a) < signed(b),
        Opcode::BGT => signed(a) > signed(b),
        Opcode::BLE => signed(a) <= signed(b),
        _ => signed(a) >= signed(b),
    }
}

/// Whether an opcode is a conditional branch.
pub open spec fn is_branch(opcode: Opcode) -> bool {
    opcode == Opcode::BEQ || opcode == Opcode::BNE || opcode == Opcode::BLT || opcode == Opcode::BGT
        || opcode == Opcode::BLE || opcode == Opcode::BGE
}

/// What each conditional branch tests, its two operands read as signed 32-bit numbers: BEQ
/// equal, BNE different, BLT less, BGT greater, BLE less or equal, BGE greater or equal. So BLE
/// and BGT, BGE and BLT, BEQ and BNE decide opposite ways, BLE is BGE with the operands swapped
/// (and BLT is BGT), and equal operands take BEQ, BLE and BGE but not BNE, BLT or BGT.
pub proof fn lemma_branch_conditions(a: u32, b: u32)
    ensures
        branch_taken(Opcode::BEQ, a, b) == (a == b),
        branch_taken(Opcode::BNE, a, b) == (a != b),
        branch_taken(Opcode::BLT, a, b) == ((a as i32) < (b as i32)),
        branch_taken(Opcode::BGT, a, b) == ((a as i32) > (b as i32)),
        branch_taken(Opcode::BLE, a, b) == ((a as i32) <= (b as i32)),
        branch_taken(Opcode::BGE, a, b) == ((a as i32) >= (b as i32)),
        branch_taken(Opcode::BLE, a, b) == !branch_taken(Opcode::BGT, a, b),
        branch_taken(Opcode::BGE, a, b) == !branch_taken(Opcode::BLT, a, b),
        branch_taken(Opcode::BEQ, a, b) == !branch_taken(Opcode::BNE, a, b),
        branch_taken(Opcode::BLE, a, b) == branch_taken(Opcode::BGE, b, a),
        branch_taken(Opcode::BLT, a, b) == branch_taken(Opcode::BGT, b, a),
        a == b ==> branch_taken(Opcode::BEQ, a, b) && branch_taken(Opcode::BLE, a, b) && branch_taken(Opcode::BGE, a, b),
        a == b ==> !branch_taken(Opcode::BNE, a, b) && !branch_taken(Opcode::BLT, a, b) && !branch_taken(Opcode::BGT, a, b),
{
    assert((a as i32) as int == signed(a)) by (bit_vector);
    assert((b as i32) as int == signed(b)) by (bit_vector);
}

/// Effect of an I-Type instruction on the processor and the memory.
pub open spec fn itype_spec<M: Memory>(s: CpuState, m: M::Model, opcode: Opcode, rt: u8, rs: u8, imm: i32)
    -> (CpuState, M::Model, Result<(), VosError>)
{
    let a = reg(s, rs);
    let b = reg(s, rt);
    let iw = to_word(imm);
    let addr = wadd(a, iw);
    match opcode {
        Opcode::ADDI => (apply_alu(s, rt, add_spec(a, iw)), m, Ok(())),
        Opcode::SUBI => (apply_alu(s, rt, sub_spec(a, iw)), m, Ok(())),
        Opcode::ANDI => (apply_alu(s, rt, zn_result(a & iw)), m, Ok(())),
        Opcode::ORI => (apply_alu(s, rt, zn_result(a | iw)), m, Ok(())),
        Opcode::XORI => (apply_alu(s, rt, zn_result(a ^ iw)), m, Ok(())),
        Opcode::LUI => (advance(with_reg(s, rt, (iw & 0xFFFF) << 16u32)), m, Ok(())),
        Opcode::LW => {
            let (m2, r) = M::read_word_spec(m, addr);
            match r {
                Ok(v) => (advance(with_reg(s, rt, v)), m2, Ok(())),
                Err(e) => (s, m2, Err(e)),
            }
        },
        Opcode::SW => {
            let (m2, r) = M::write_word_spec(m, addr, b);
            match r {
                Ok(_) => (advance(s), m2, Ok(())),
                Err(e) => (s, m2, Err(e)),
            }
        },
        Opcode::LB => {
            let (m2, r) = M::read_byte_spec(m, addr);
            match r {
                Ok(v) => (advance(with_reg(s, rt, v as u32)), m2, Ok(())),
                Err(e) => (s, m2, Err(e)),
            }
        },
        Opcode::SB => {
            let (m2, r) = M::write_byte_spec(m, addr, (b & 0xFF) as u8);
            match r {
                Ok(_) => (advance(s), m2, Ok(())),
                Err(e) => (s, m2, Err(e)),
            }
        },
        Opcode::HALT => (CpuState { halted: true, ..s }, m, Ok(())),
        Opcode::SYSCALL | Opcode::BREAK | Opcode::NOP => (advance(s), m, Ok(())),
        _ => if is_branch(opcode) {
            if branch_taken(opcode, a, b) {
                (CpuState { pc: wadd(s.pc, (iw as nat * 4 % 0x1_0000_0000) as u32), ..s }, m, Ok(()))
            } else {
                (advance(s), m, Ok(()))
            }
        } else {
            (s, m, Err(VosError::Cpu(CpuError::InvalidInstruction(s.ir))))
        },
    }
}

/// Executing a conditional branch changes only the program counter: when the branch is taken it
/// moves by four times the offset, else to the next instruction. In particular a BLE (or BGE or
/// BEQ) whose two registers hold the same value is taken, and a BLT, BGT or BNE is not.
pub proof fn lemma_branch_execution<M: Memory>(s: CpuState, m: M::Model, opcode: Opcode, rt: u8, rs: u8, imm: i32)
    requires
        is_branch(opcode),
    ensures
        ({
            let (s2, m2, r) = itype_spec::<M>(s, m, opcode, rt, rs, imm);
            let taken_pc = wadd(s.pc, (to_word(imm) as nat * 4 % 0x1_0000_0000) as u32);
            &&& r is Ok
            &&& m2 == m
            &&& s2 == CpuState { pc: s2.pc, ..s }
            &&& s2.pc == (if branch_taken(opcode, reg(s, rs), reg(s, rt)) { taken_pc } else { wadd(s.pc, 4) })
            &&& reg(s, rs) == reg(s, rt) && (opcode == Opcode::BLE || opcode == Opcode::BGE || opcode == Opcode::BEQ)
                ==> s2.pc == taken_pc
            &&& reg(s, rs) == reg(s, rt) && (opcode == Opcode::BLT || opcode == Opcode::BGT || opcode == Opcode::BNE)
                ==> s2.pc == wadd(s.pc, 4)
        }),
{
    lemma_branch_conditions(reg(s, rs), reg(s, rt));
}

/// Effect of a J-Type instruction.
pub open spec fn jtype_spec(s: CpuState, opcode: Opcode, address: u32) -> Result<CpuState, VosError> {
    match opcode {
        Opcode::J => Ok(CpuState { pc: address, ..s }),
        Opcode::JAL => Ok(CpuState { pc: address, ..with_reg(s, 14, wadd(s.pc, 4)) }),
        _ => Err(VosError::Cpu(CpuError::InvalidInstruction(s.ir))),
    }
}

/// Effect of executing a decoded instruction.
pub open spec fn execute_spec<M: Memory>(s: CpuState, m: M::Model, i: Instruction) -> (CpuState, M::Model, Result<(), VosError>) {
    match i {
        Instruction::RType { funct, rd, rs, rt, shamt } => match rtype_spec(s, funct, rd, rs, rt, shamt) {
            Ok(s2) => (s2, m, Ok(())),
            Err(e) => (s, m, Err(e)),
        },
        Instruction::IType { opcode, rt, rs, immediate } => itype_spec::<M>(s, m, opcode, rt, rs, immediate),
        Instruction::JType { opcode, address } => match jtype_spec(s, opcode, address) {
            Ok(s2) => (s2, m, Ok(())),
            Err(e) => (s, m, Err(e)),
        },
    }
}

/// One fetch-decode-execute cycle: the new processor state, the new memory state and the result.
pub open spec fn step_spec<M: Memory>(s: CpuState, m: M::Model) -> (CpuState, M::Model, Result<bool, VosError>) {
    if s.halted {
        (s, m, Ok(false))
    } else {
        let (m1, fetched) = M::read_word_spec(m, s.pc);
        match fetched {
            Err(e) => (s, m1, Err(e)),
            Ok(w) => {
                let s1 = CpuState { ir: w, ..s };
                match decode_spec(w) {
                    Err(e) => (s1, m1, Err(e)),
                    Ok(i) => {
                        let (s2, m2, r) = execute_spec::<M>(s1, m1, i);
                        match r {
                            Err(e) => (s2, m2, Err(e)),
                            Ok(_) => (CpuState { count: (s2.count + 1) as u64, ..s2 }, m2, Ok(!s2.halted)),
                        }
                    },
                }
            },
        }
    }
}

/// State of a freshly created or reset processor: all zero, running.
pub open spec fn initial_cpu_state() -> CpuState {
    CpuState {
        regs: zero_registers(),
        pc: 0,
        ir: 0,
        flags: Flags { zero: false, negative: false, carry: false, overflow: false },
        halted: false,
        count: 0,
    }
}

/// The processor: registers, ALU, halt flag and instruction counter.
#[derive(Debug)]
pub struct Cpu {
    /// Register file
    pub registers: Registers,
    /// Arithmetic logic unit
    alu: Alu,
    /// Is the CPU halted?
    halted: bool,
    /// Total number of instructions executed
    instruction_count: u64,
}

impl Cpu {
    /// Abstract state of the processor.
    pub closed spec fn model(&self) -> CpuState {
        CpuState {
            regs: self.registers.values(),
            pc: self.registers.pc,
            ir: self.registers.ir,
            flags: self.registers.flags,
            halted: self.halted,
            count: self.instruction_count,
        }
    }

    /// The register values of the abstract state are sixteen, R0 being zero.
    pub proof fn lemma_state_regs(&self)
        ensures
            self.model().regs.len() == 16,
            self.model().regs[0] == 0,
    {
    }

    /// A processor with every register zero, running, with no instruction executed.
    pub fn new() -> (c: Self)
        ensures
            c.model() == initial_cpu_state(),
    {
        Self { registers: Registers::new(), alu: Alu::new(), halted: false, instruction_count: 0 }
    }

    /// The program counter.
    pub fn pc(&self) -> (a: Address)
        ensures
            a == self.model().pc,
    {
        self.registers.pc
    }

    /// The register file.
    pub fn register_file(&self) -> (r: &Registers)
        ensures
            r.values() == self.model().regs,
            r.pc == self.model().pc,
            r.ir == self.model().ir,
            r.flags == self.model().flags,
    {
        &self.registers
    }

    /// Sets the program counter.
    pub fn set_pc(&mut self, address: Address)
        ensures
            final(self).model() == (CpuState { pc: address, ..old(self).model() }),
    {
        self.registers.pc = address;
    }

    /// Whether the processor is halted.
    pub fn is_halted(&self) -> (b: bool)
        ensures
            b == self.model().halted,
    {
        self.halted
    }

    /// Instructions executed so far.
    pub fn instruction_count(&self) -> (n: u64)
        ensures
            n == self.model().count,
    {
        self.instruction_count
    }

    /// Executes one instruction; returns whether execution should continue.
    pub fn step<M: Memory>(&mut self, memory: &mut M) -> (r: Result<bool, VosError>)
        requires
            old(self).model().count < u64::MAX,
        ensures
            (final(self).model(), final(memory).model(), r) == step_spec::<M>(old(self).model(), old(memory).model()),
    {
        if self.halted {
            return Ok(false);
        }
        let instruction_word = match memory.read_word(self.registers.pc) {
            Ok(w) => w,
            Err(e) => return Err(e),
        };
        self.registers.ir = instruction_word;
        let instruction = match Instruction::decode(instruction_word) {
            Ok(i) => i,
            Err(e) => return Err(e),
        };
        match self.execute(instruction, memory) {
            Ok(()) => {},
            Err(e) => return Err(e),
        }
        self.instruction_count = self.instruction_count + 1;
        Ok(!self.halted)
    }

    fn execute<M: Memory>(&mut self, instruction: Instruction, memory: &mut M) -> (r: Result<(), VosError>)
        ensures
            (final(self).model(), final(memory).model(), r)
                == execute_spec::<M>(old(self).model(), old(memory).model(), instruction),
    {
        match instruction {
            Instruction::RType { funct, rd, rs, rt, shamt } => {
                let r = self.execute_rtype(funct, rd, rs, rt, shamt);
                assert(*memory == *old(memory));
                r
            },
            Instruction::IType { opcode, rt, rs, immediate } => self.execute_itype(opcode, rt, rs, immediate, memory),
            Instruction::JType { opcode, address } => {
                let r = self.execute_jtype(opcode, address);
                assert(*memory == *old(memory));
                r
            },
        }
    }

    proof fn lemma_write(old_regs: Registers, new_regs: Registers, s: CpuState, i: u8, v: u32)
        requires
            s.regs == old_regs.values(),
            forall|j: int| #![trigger new_regs.value(j)]
                new_regs.value(j) == (if j == i as int && 0 < j < 16 { v } else { old_regs.value(j) }),
        ensures
            new_regs.values() == with_reg(s, i, v).regs,
    {
        assert forall|j: int| 0 <= j < 16 implies new_regs.values()[j] == with_reg(s, i, v).regs[j] by {
            assert(new_regs.value(j) == (if j == i as int && 0 < j < 16 { v } else { old_regs.value(j) }));
        }
        assert(new_regs.values() =~= with_reg(s, i, v).regs);
    }

    fn write_reg(&mut self, i: u8, v: u32)
        ensures
            final(self).model() == with_reg(old(self).model(), i, v),
    {
        let ghost before = self.registers;
        self.registers.write(i, v);
        proof {
            Self::lemma_write(before, self.registers, old(self).model(), i, v);
        }
    }

    fn apply(&mut self, rd: u8, result: AluResult)
        ensures
            final(self).model() == apply_alu(old(self).model(), rd, result),
    {
        self.write_reg(rd, result.value);
        self.registers.flags = result.flags;
        self.registers.pc = self.registers.pc.wrapping_add(4);
    }

    fn execute_rtype(&mut self, funct: Funct, rd: u8, rs: u8, rt: u8, shamt: u8) -> (r: Result<(), VosError>)
        ensures
            match rtype_spec(old(self).model(), funct, rd, rs, rt, shamt) {
                Ok(s2) => r == Ok::<(), VosError>(()) && final(self).model() == s2,
                Err(e) => r == Err::<(), VosError>(e) && final(self).model() == old(self).model(),
            },
    {
        let rs_val = self.registers.read(rs);
        let rt_val = self.registers.read(rt);
        let result = match funct {
            Funct::ADD => self.alu.add(rs_val, rt_val),
            Funct::SUB => self.alu.sub(rs_val, rt_val),
            Funct::MUL => self.alu.mul(rs_val, rt_val),
            Funct::DIV => self.alu.div(rs_val, rt_val),
            Funct::AND => self.alu.and(rs_val, rt_val),
            Funct::OR => self.alu.or(rs_val, rt_val),
            Funct::XOR => self.alu.xor(rs_val, rt_val),
            Funct::NOT => self.alu.not(rs_val),
            Funct::SLL => self.alu.sll(rt_val, shamt),
            Funct::SRL => self.alu.srl(rt_val, shamt),
            Funct::SRA => self.alu.sra(rt_val, shamt),
            Funct::SLT => self.alu.slt(rs_val, rt_val),
            Funct::SGT => self.alu.sgt(rs_val, rt_val),
            Funct::MOV => {
                self.write_reg(rd, rs_val);
                self.registers.pc = self.registers.pc.wrapping_add(4);
                return Ok(());
            },
            Funct::JR => {
                self.registers.pc = rs_val;
                return Ok(());
            },
        };
        match result {
            Ok(res) => {
                self.apply(rd, res);
                Ok(())
            },
            Err(e) => Err(e),
        }
    }

    fn execute_itype<M: Memory>(&mut self, opcode: Opcode, rt: u8, rs: u8, immediate: i32, memory: &mut M)
        -> (r: Result<(), VosError>)
        ensures
            (final(self).model(), final(memory).model(), r)
                == itype_spec::<M>(old(self).model(), old(memory).model(), opcode, rt, rs, immediate),
    {
        let rs_val = self.registers.read(rs);
        let rt_val = self.registers.read(rt);
        let iw = immediate as u32;
        assert(iw == to_word(immediate)) by (bit_vector)
            requires iw == immediate as u32;
        match opcode {
            Opcode::ADDI => {
                let result = self.alu.add(rs_val, iw);
                match result { Ok(res) => self.apply(rt, res), Err(e) => return Err(e) }
            },
            Opcode::SUBI => {
                let result = self.alu.sub(rs_val, iw);
                match result { Ok(res) => self.apply(rt, res), Err(e) => return Err(e) }
            },
            Opcode::ANDI => {
                let result = self.alu.and(rs_val, iw);
                match result { Ok(res) => self.apply(rt, res), Err(e) => return Err(e) }
            },
            Opcode::ORI => {
                let result = self.alu.or(rs_val, iw);
                match result { Ok(res) => self.apply(rt, res), Err(e) => return Err(e) }
            },
            Opcode::XORI => {
                let result = self.alu.xor(rs_val, iw);
                match result { Ok(res) => self.apply(rt, res), Err(e) => return Err(e) }
            },
            Opcode::LUI => {
                let value = (iw & 0xFFFF) << 16;
                self.write_reg(rt, value);
                self.registers.pc = self.registers.pc.wrapping_add(4);
            },
            Opcode::LW => {
                let address = rs_val.wrapping_add(iw);
                match memory.read_word(address) {
                    Ok(value) => {
                        self.write_reg(rt, value);
                        self.registers.pc = self.registers.pc.wrapping_add(4);
                    },
                    Err(e) => return Err(e),
                }
            },
            Opcode::SW => {
                let address = rs_val.wrapping_add(iw);
                match memory.write_word(address, rt_val) {
                    Ok(()) => self.registers.pc = self.registers.pc.wrapping_add(4),
                    Err(e) => return Err(e),
                }
            },
            Opcode::LB => {
                let address = rs_val.wrapping_add(iw);
                match memory.read_byte(address) {
                    Ok(byte) => {
                        self.write_reg(rt, byte as u32);
                        self.registers.pc = self.registers.pc.wrapping_add(4);
                    },
                    Err(e) => return Err(e),
                }
            },
            Opcode::SB => {
                let address = rs_val.wrapping_add(iw);
                match memory.write_byte(address, (rt_val & 0xFF) as u8) {
                    Ok(()) => self.registers.pc = self.registers.pc.wrapping_add(4),
                    Err(e) => return Err(e),
                }
            },
            Opcode::BEQ | Opcode::BNE | Opcode::BLT | Opcode::BGT | Opcode::BLE | Opcode::BGE => {
                let taken = match opcode {
                    Opcode::BEQ => rs_val == rt_val,
                    Opcode::BNE => rs_val != rt_val,
                    Opcode::BLT => crate::cpu::alu::signed_less(rs_val, rt_val),
                    Opcode::BGT => crate::cpu::alu::signed_less(rt_val, rs_val),
                    Opcode::BLE => !crate::cpu::alu::signed_less(rt_val, rs_val),
                    _ => !crate::cpu::alu::signed_less(rs_val, rt_val),
                };
                if taken {
                    let offset = iw.wrapping_mul(4);
                    self.registers.pc = self.registers.pc.wrapping_add(offset);
                } else {
                    self.registers.pc = self.registers.pc.wrapping_add(4);
                }
            },
            Opcode::HALT => {
                self.halted = true;
            },
            Opcode::SYSCALL | Opcode::BREAK | Opcode::NOP => {
                self.registers.pc = self.registers.pc.wrapping_add(4);
            },
            _ => {
                return Err(VosError::Cpu(CpuError::InvalidInstruction(self.registers.ir)));
            },
        }
        Ok(())
    }

    fn execute_jtype(&mut self, opcode: Opcode, address: u32) -> (r: Result<(), VosError>)
        ensures
            match jtype_spec(old(self).model(), opcode, address) {
                Ok(s2) => r == Ok::<(), VosError>(()) && final(self).model() == s2,
                Err(e) => r == Err::<(), VosError>(e) && final(self).model() == old(self).model(),
            },
    {
        match opcode {
            Opcode::J => {
                self.registers.pc = address;
            },
            Opcode::JAL => {
                let link = self.registers.pc.wrapping_add(4);
                self.write_reg(14, link);
                self.registers.pc = address;
            },
            _ => {
                return Err(VosError::Cpu(CpuError::InvalidInstruction(self.registers.ir)));
            },
        }
        Ok(())
    }

    /// Resets registers, halt flag and instruction counter.
    pub fn reset(&mut self)
        ensures
            final(self).model() == initial_cpu_state(),
    {
        self.registers.reset();
        self.halted = false;
        self.instruction_count = 0;
    }
}

/// Text of `inspect` on a processor.
pub open spec fn cpu_inspect_text(c: CpuState) -> Seq<char> {
    "CPU State (Instructions: "@ + dec(c.count as nat) + ")\n"@ + "Halted: "@ + bool_text(c.halted) + "\n"@ + "\n"@
        + registers_dump_text(c.regs, c.pc, c.ir, c.flags)
}

/// Key-value pairs `state` gives for a processor: PC, halted, instruction count, then the
/// sixteen registers.
pub open spec fn cpu_state_pairs(c: CpuState) -> Seq<(Seq<char>, Seq<char>)> {
    seq![("PC"@, "0x"@ + hex8(c.pc as nat)), ("Halted"@, bool_text(c.halted)), ("Instructions"@, dec(c.count as nat))]
        + Seq::new(16, |i: int| ("R"@ + dec(i as nat), "0x"@ + hex8(c.regs[i] as nat)))
}

/// Text pairs of string pairs.
pub open spec fn pair_texts(v: Seq<(String, String)>) -> Seq<(Seq<char>, Seq<char>)> {
    Seq::new(v.len(), |i: int| (v[i].0@, v[i].1@))
}

fn push_bool_text(out: &mut Vec<char>, b: bool)
    ensures
        final(out)@ == old(out)@ + bool_text(b),
{
    if b {
        push_str(out, "true");
    } else {
        push_str(out, "false");
    }
}

impl Inspectable for Cpu {
    fn inspect(&self) -> (s: String)
        ensures
            s@ == cpu_inspect_text(Cpu::model(self)),
    {
        let mut out: Vec<char> = Vec::new();
        push_str(&mut out, "CPU State (Instructions: ");
        push_dec(&mut out, self.instruction_count);
        push_str(&mut out, ")\n");
        push_str(&mut out, "Halted: ");
        push_bool_text(&mut out, self.halted);
        push_str(&mut out, "\n");
        push_str(&mut out, "\n");
        let d = self.registers.dump();
        push_str(&mut out, d.as_str());
        assert(out@ =~= cpu_inspect_text(Cpu::model(self)));
        chars_to_string(&out)
    }

    fn state(&self) -> (pairs: Vec<(String, String)>)
        ensures
            pair_texts(pairs@) == cpu_state_pairs(Cpu::model(self)),
    {
        let mut v: Vec<(String, String)> = Vec::new();
        let mut pc: Vec<char> = Vec::new();
        push_str(&mut pc, "0x");
        push_hex8(&mut pc, self.registers.pc as u64);
        v.push(("PC".to_owned(), chars_to_string(&pc)));
        let mut h: Vec<char> = Vec::new();
        push_bool_text(&mut h, self.halted);
        v.push(("Halted".to_owned(), chars_to_string(&h)));
        v.push(("Instructions".to_owned(), dec_string(self.instruction_count)));
        let ghost c = Cpu::model(self);
        assert(pair_texts(v@) =~= cpu_state_pairs(c).subrange(0, 3));
        let mut i: u8 = 0;
        while i < 16
            invariant
                i <= 16,
                c == Cpu::model(self),
                c.regs.len() == 16,
                pair_texts(v@) == cpu_state_pairs(c).subrange(0, 3 + i),
            decreases 16 - i,
        {
            let mut name: Vec<char> = Vec::new();
            push_str(&mut name, "R");
            push_dec(&mut name, i as u64);
            let mut value: Vec<char> = Vec::new();
            push_str(&mut value, "0x");
            push_hex8(&mut value, self.registers.read(i) as u64);
            let ghost before = v@;
            v.push((chars_to_string(&name), chars_to_string(&value)));
            assert(pair_texts(v@) =~= pair_texts(before).push((name@, value@)));
            assert(cpu_state_pairs(c).subrange(0, 3 + i + 1) =~= cpu_state_pairs(c).subrange(0, 3 + i).push(
                cpu_state_pairs(c)[3 + i]));
            i += 1;
        }
        assert(cpu_state_pairs(c).subrange(0, 19) =~= cpu_state_pairs(c));
        v
    }
}

} // verus!
