//! Instruction set: opcodes, function codes, and the 32-bit encoding.
//!
//! Formats (most significant bits first):
//! - R-Type: `[opcode:6][rs:4][rt:4][rd:4][shamt:5][funct:9]`
//! - I-Type: `[opcode:6][rs:4][rt:4][immediate:18]`
//! - J-Type: `[opcode:6][address:26]`
use vstd::prelude::*;
use crate::error::{CpuError, VosError};
use crate::types::{RegisterIndex, Word};
use crate::text::{chars_to_string, push_dec, push_dec_signed, push_hex8, push_str, dec, dec_signed, hex8};

verus! {

/// Opcode values (the top six bits of every instruction).
#[allow(non_camel_case_types, clippy::upper_case_acronyms)]
#[derive(Debug, Clone, Copy, PartialEq, Eq, Hash)]
pub enum Opcode {
    RType,
    ADDI,
    SUBI,
    ANDI,
    ORI,
    XORI,
    LUI,
    LW,
    SW,
    LB,
    SB,
    BEQ,
    BNE,
    BLT,
    BGT,
    BLE,
    BGE,
    J,
    JAL,
    SYSCALL,
    BREAK,
    HALT,
    NOP,
}

/// Function codes of R-Type instructions.
#[allow(non_camel_case_types, clippy::upper_case_acronyms)]
#[derive(Debug, Clone, Copy, PartialEq, Eq, Hash)]
pub enum Funct {
    ADD,
    SUB,
    MUL,
    DIV,
    AND,
    OR,
    XOR,
    NOT,
    SLL,
    SRL,
    SRA,
    SLT,
    SGT,
    MOV,
    JR,
}

/// Numeric code of an opcode.
pub open spec fn opcode_code(op: Opcode) -> u32 {
    match op {
        Opcode::RType => 0, Opcode::ADDI => 1, Opcode::SUBI => 2, Opcode::ANDI => 3, Opcode::ORI => 4,
        Opcode::XORI => 5, Opcode::LUI => 6, Opcode::LW => 7, Opcode::SW => 8, Opcode::LB => 9,
        Opcode::SB => 10, Opcode::BEQ => 11, Opcode::BNE => 12, Opcode::BLT => 13, Opcode::BGT => 14,
        Opcode::BLE => 15, Opcode::BGE => 16, Opcode::J => 17, Opcode::JAL => 18, Opcode::SYSCALL => 30,
        Opcode::BREAK => 31, Opcode::HALT => 32, Opcode::NOP => 33,
    }
}

/// The opcode with a given code, if any.
pub open spec fn opcode_of_code(c: u32) -> Option<Opcode> {
    if c == 0 { Some(Opcode::RType) } else if c == 1 { Some(Opcode::ADDI) } else if c == 2 { Some(Opcode::SUBI) }
    else if c == 3 { Some(Opcode::ANDI) } else if c == 4 { Some(Opcode::ORI) } else if c == 5 { Some(Opcode::XORI) }
    else if c == 6 { Some(Opcode::LUI) } else if c == 7 { Some(Opcode::LW) } else if c == 8 { Some(Opcode::SW) }
    else if c == 9 { Some(Opcode::LB) } else if c == 10 { Some(Opcode::SB) } else if c == 11 { Some(Opcode::BEQ) }
    else if c == 12 { Some(Opcode::BNE) } else if c == 13 { Some(Opcode::BLT) } else if c == 14 { Some(Opcode::BGT) }
    else if c == 15 { Some(Opcode::BLE) } else if c == 16 { Some(Opcode::BGE) } else if c == 17 { Some(Opcode::J) }
    else if c == 18 { Some(Opcode::JAL) } else if c == 30 { Some(Opcode::SYSCALL) } else if c == 31 { Some(Opcode::BREAK) }
    else if c == 32 { Some(Opcode::HALT) } else if c == 33 { Some(Opcode::NOP) } else { None }
}

/// Numeric code of a function.
pub open spec fn funct_code(f: Funct) -> u32 {
    match f {
        Funct::ADD => 0, Funct::SUB => 1, Funct::MUL => 2, Funct::DIV => 3, Funct::AND => 4, Funct::OR => 5,
        Funct::XOR => 6, Funct::NOT => 7, Funct::SLL => 8, Funct::SRL => 9, Funct::SRA => 10, Funct::SLT => 11,
        Funct::SGT => 12, Funct::MOV => 13, Funct::JR => 14,
    }
}

/// The function with a given code, if any.
pub open spec fn funct_of_code(c: u32) -> Option<Funct> {
    if c == 0 { Some(Funct::ADD) } else if c == 1 { Some(Funct::SUB) } else if c == 2 { Some(Funct::MUL) }
    else if c == 3 { Some(Funct::DIV) } else if c == 4 { Some(Funct::AND) } else if c == 5 { Some(Funct::OR) }
    else if c == 6 { Some(Funct::XOR) } else if c == 7 { Some(Funct::NOT) } else if c == 8 { Some(Funct::SLL) }
    else if c == 9 { Some(Funct::SRL) } else if c == 10 { Some(Funct::SRA) } else if c == 11 { Some(Funct::SLT) }
    else if c == 12 { Some(Funct::SGT) } else if c == 13 { Some(Funct::MOV) } else if c == 14 { Some(Funct::JR) }
    else { None }
}

/// Name of an opcode, as its mnemonic and its debug text.
pub open spec fn opcode_name(op: Opcode) -> Seq<char> {
    match op {
        Opcode::RType => "RType"@, Opcode::ADDI => "ADDI"@, Opcode::SUBI => "SUBI"@, Opcode::ANDI => "ANDI"@,
        Opcode::ORI => "ORI"@, Opcode::XORI => "XORI"@, Opcode::LUI => "LUI"@, Opcode::LW => "LW"@,
        Opcode::SW => "SW"@, Opcode::LB => "LB"@, Opcode::SB => "SB"@, Opcode::BEQ => "BEQ"@,
        Opcode::BNE => "BNE"@, Opcode::BLT => "BLT"@, Opcode::BGT => "BGT"@, Opcode::BLE => "BLE"@,
        Opcode::BGE => "BGE"@, Opcode::J => "J"@, Opcode::JAL => "JAL"@, Opcode::SYSCALL => "SYSCALL"@,
        Opcode::BREAK => "BREAK"@, Opcode::HALT => "HALT"@, Opcode::NOP => "NOP"@,
    }
}

/// Mnemonic of a function.
pub open spec fn funct_name(f: Funct) -> Seq<char> {
    match f {
        Funct::ADD => "ADD"@, Funct::SUB => "SUB"@, Funct::MUL => "MUL"@, Funct::DIV => "DIV"@,
        Funct::AND => "AND"@, Funct::OR => "OR"@, Funct::XOR => "XOR"@, Funct::NOT => "NOT"@,
        Funct::SLL => "SLL"@, Funct::SRL => "SRL"@, Funct::SRA => "SRA"@, Funct::SLT => "SLT"@,
        Funct::SGT => "SGT"@, Funct::MOV => "MOV"@, Funct::JR => "JR"@,
    }
}

impl Opcode {
    /// The numeric code of this opcode.
    pub fn code(&self) -> (c: u8)
        ensures
            c as u32 == opcode_code(*self),
    {
        match self {
            Opcode::RType => 0, Opcode::ADDI => 1, Opcode::SUBI => 2, Opcode::ANDI => 3, Opcode::ORI => 4,
            Opcode::XORI => 5, Opcode::LUI => 6, Opcode::LW => 7, Opcode::SW => 8, Opcode::LB => 9,
            Opcode::SB => 10, Opcode::BEQ => 11, Opcode::BNE => 12, Opcode::BLT => 13, Opcode::BGT => 14,
            Opcode::BLE => 15, Opcode::BGE => 16, Opcode::J => 17, Opcode::JAL => 18, Opcode::SYSCALL => 30,
            Opcode::BREAK => 31, Opcode::HALT => 32, Opcode::NOP => 33,
        }
    }

    /// The opcode with the given code, if there is one.
    pub fn from_code(c: u32) -> (r: Option<Opcode>)
        ensures
            r == opcode_of_code(c),
    {
        if c == 0 { Some(Opcode::RType) } else if c == 1 { Some(Opcode::ADDI) } else if c == 2 { Some(Opcode::SUBI) }
        else if c == 3 { Some(Opcode::ANDI) } else if c == 4 { Some(Opcode::ORI) } else if c == 5 { Some(Opcode::XORI) }
        else if c == 6 { Some(Opcode::LUI) } else if c == 7 { Some(Opcode::LW) } else if c == 8 { Some(Opcode::SW) }
        else if c == 9 { Some(Opcode::LB) } else if c == 10 { Some(Opcode::SB) } else if c == 11 { Some(Opcode::BEQ) }
        else if c == 12 { Some(Opcode::BNE) } else if c == 13 { Some(Opcode::BLT) } else if c == 14 { Some(Opcode::BGT) }
        else if c == 15 { Some(Opcode::BLE) } else if c == 16 { Some(Opcode::BGE) } else if c == 17 { Some(Opcode::J) }
        else if c == 18 { Some(Opcode::JAL) } else if c == 30 { Some(Opcode::SYSCALL) } else if c == 31 { Some(Opcode::BREAK) }
        else if c == 32 { Some(Opcode::HALT) } else if c == 33 { Some(Opcode::NOP) } else { None }
    }

    /// The mnemonic of this opcode.
    pub fn name(&self) -> (s: &'static str)
        ensures
            s@ == opcode_name(*self),
    {
        match self {
            Opcode::RType => "RType", Opcode::ADDI => "ADDI", Opcode::SUBI => "SUBI", Opcode::ANDI => "ANDI",
            Opcode::ORI => "ORI", Opcode::XORI => "XORI", Opcode::LUI => "LUI", Opcode::LW => "LW",
            Opcode::SW => "SW", Opcode::LB => "LB", Opcode::SB => "SB", Opcode::BEQ => "BEQ",
            Opcode::BNE => "BNE", Opcode::BLT => "BLT", Opcode::BGT => "BGT", Opcode::BLE => "BLE",
            Opcode::BGE => "BGE", Opcode::J => "J", Opcode::JAL => "JAL", Opcode::SYSCALL => "SYSCALL",
            Opcode::BREAK => "BREAK", Opcode::HALT => "HALT", Opcode::NOP => "NOP",
        }
    }
}

impl Funct {
    /// The numeric code of this function.
    pub fn code(&self) -> (c: u16)
        ensures
            c as u32 == funct_code(*self),
    {
        match self {
            Funct::ADD => 0, Funct::SUB => 1, Funct::MUL => 2, Funct::DIV => 3, Funct::AND => 4, Funct::OR => 5,
            Funct::XOR => 6, Funct::NOT => 7, Funct::SLL => 8, Funct::SRL => 9, Funct::SRA => 10, Funct::SLT => 11,
            Funct::SGT => 12, Funct::MOV => 13, Funct::JR => 14,
        }
    }

    /// The function with the given code, if there is one.
    pub fn from_code(c: u32) -> (r: Option<Funct>)
        ensures
            r == funct_of_code(c),
    {
        if c == 0 { Some(Funct::ADD) } else if c == 1 { Some(Funct::SUB) } else if c == 2 { Some(Funct::MUL) }
        else if c == 3 { Some(Funct::DIV) } else if c == 4 { Some(Funct::AND) } else if c == 5 { Some(Funct::OR) }
        else if c == 6 { Some(Funct::XOR) } else if c == 7 { Some(Funct::NOT) } else if c == 8 { Some(Funct::SLL) }
        else if c == 9 { Some(Funct::SRL) } else if c == 10 { Some(Funct::SRA) } else if c == 11 { Some(Funct::SLT) }
        else if c == 12 { Some(Funct::SGT) } else if c == 13 { Some(Funct::MOV) } else if c == 14 { Some(Funct::JR) }
        else { None }
    }

    /// The mnemonic of this function.
    pub fn name(&self) -> (s: &'static str)
        ensures
            s@ == funct_name(*self),
    {
        match self {
            Funct::ADD => "ADD", Funct::SUB => "SUB", Funct::MUL => "MUL", Funct::DIV => "DIV",
            Funct::AND => "AND", Funct::OR => "OR", Funct::XOR => "XOR", Funct::NOT => "NOT",
            Funct::SLL => "SLL", Funct::SRL => "SRL", Funct::SRA => "SRA", Funct::SLT => "SLT",
            Funct::SGT => "SGT", Funct::MOV => "MOV", Funct::JR => "JR",
        }
    }
}

/// A decoded instruction in one of the three formats.
#[derive(Debug, Clone, PartialEq, Eq)]
pub enum Instruction {
    /// Register operations: `rd = rs op rt`
    RType { funct: Funct, rd: RegisterIndex, rs: RegisterIndex, rt: RegisterIndex, shamt: u8 },
    /// Immediate operations (18-bit sign-extended immediate)
    IType { opcode: Opcode, rt: RegisterIndex, rs: RegisterIndex, immediate: i32 },
    /// Jumps (26-bit address)
    JType { opcode: Opcode, address: u32 },
}

/// The 32-bit word an instruction encodes to (fields are truncated to their widths).
pub open spec fn encode_spec(i: Instruction) -> u32 {
    match i {
        Instruction::RType { funct, rd, rs, rt, shamt } =>
            ((rs as u32 & 0xF) << 22u32) | ((rt as u32 & 0xF) << 18u32) | ((rd as u32 & 0xF) << 14u32)
                | ((shamt as u32 & 0x1F) << 9u32) | (funct_code(funct) & 0x1FF),
        Instruction::IType { opcode, rt, rs, immediate } =>
            ((opcode_code(opcode) & 0x3F) << 26u32) | ((rs as u32 & 0xF) << 22u32) | ((rt as u32 & 0xF) << 18u32)
                | (immediate as u32 & 0x3FFFF),
        Instruction::JType { opcode, address } =>
            ((opcode_code(opcode) & 0x3F) << 26u32) | (address & 0x3FFFFFF),
    }
}

/// The 18-bit field read as a signed value.
pub open spec fn sign_extend18(u: u32) -> i32 {
    if u & 0x20000 != 0 { (u as int - 0x40000) as i32 } else { u as i32 }
}

/// The error for a word that is no instruction.
pub open spec fn invalid_instruction(w: u32) -> VosError {
    VosError::Cpu(CpuError::InvalidInstruction(w))
}

/// What `decode` returns for a word.
pub open spec fn decode_spec(w: u32) -> Result<Instruction, VosError> {
    let op = (w >> 26u32) & 0x3F;
    let rs = ((w >> 22u32) & 0xF) as u8;
    let rt = ((w >> 18u32) & 0xF) as u8;
    if op == 0 {
        match funct_of_code(w & 0x1FF) {
            Some(funct) => Ok(Instruction::RType {
                funct,
                rd: ((w >> 14u32) & 0xF) as u8,
                rs,
                rt,
                shamt: ((w >> 9u32) & 0x1F) as u8,
            }),
            None => Err(invalid_instruction(w)),
        }
    } else {
        match opcode_of_code(op) {
            Some(opcode) => if opcode == Opcode::J || opcode == Opcode::JAL {
                Ok(Instruction::JType { opcode, address: w & 0x3FFFFFF })
            } else {
                Ok(Instruction::IType { opcode, rt, rs, immediate: sign_extend18(w & 0x3FFFF) })
            },
            None => Err(invalid_instruction(w)),
        }
    }
}

/// An instruction whose fields fit their encoding, in the format its opcode belongs to.
pub open spec fn well_formed(i: Instruction) -> bool {
    match i {
        Instruction::RType { funct, rd, rs, rt, shamt } => rd < 16 && rs < 16 && rt < 16 && shamt < 32,
        Instruction::IType { opcode, rt, rs, immediate } =>
            opcode != Opcode::RType && opcode != Opcode::J && opcode != Opcode::JAL && rt < 16 && rs < 16
                && -0x20000 <= immediate < 0x20000,
        Instruction::JType { opcode, address } => (opcode == Opcode::J || opcode == Opcode::JAL) && address < 0x400_0000,
    }
}

impl Instruction {
    /// Encodes the instruction into a word.
    pub fn encode(&self) -> (w: Word)
        ensures
            w == encode_spec(*self),
    {
        match self {
            Instruction::RType { funct, rd, rs, rt, shamt } => {
                let funct_bits = (funct.code() as u32) & 0x1FF;
                let shamt_bits = (*shamt as u32) & 0x1F;
                let rd_bits = (*rd as u32) & 0xF;
                let rt_bits = (*rt as u32) & 0xF;
                let rs_bits = (*rs as u32) & 0xF;
                (rs_bits << 22) | (rt_bits << 18) | (rd_bits << 14) | (shamt_bits << 9) | funct_bits
            },
            Instruction::IType { opcode, rt, rs, immediate } => {
                let opcode_bits = (opcode.code() as u32) & 0x3F;
                let rs_bits = (*rs as u32) & 0xF;
                let rt_bits = (*rt as u32) & 0xF;
                let imm_bits = (*immediate as u32) & 0x3FFFF;
                (opcode_bits << 26) | (rs_bits << 22) | (rt_bits << 18) | imm_bits
            },
            Instruction::JType { opcode, address } => {
                let opcode_bits = (opcode.code() as u32) & 0x3F;
                let addr_bits = *address & 0x3FFFFFF;
                (opcode_bits << 26) | addr_bits
            },
        }
    }

    /// Decodes a word into an instruction; fails on unknown opcodes and function codes.
    pub fn decode(word: Word) -> (r: Result<Self, VosError>)
        ensures
            r == decode_spec(word),
    {
        let opcode_bits = (word >> 26) & 0x3F;
        let rs = ((word >> 22) & 0xF) as u8;
        let rt = ((word >> 18) & 0xF) as u8;
        if opcode_bits == 0 {
            let rd = ((word >> 14) & 0xF) as u8;
            let shamt = ((word >> 9) & 0x1F) as u8;
            match Funct::from_code(word & 0x1FF) {
                Some(funct) => Ok(Instruction::RType { funct, rd, rs, rt, shamt }),
                None => Err(VosError::Cpu(CpuError::InvalidInstruction(word))),
            }
        } else {
            match Opcode::from_code(opcode_bits) {
                Some(opcode) => {
                    if matches!(opcode, Opcode::J | Opcode::JAL) {
                        let address = word & 0x3FFFFFF;
                        return Ok(Instruction::JType { opcode, address });
                    }
                    let imm_unsigned = word & 0x3FFFF;
                    let immediate = if imm_unsigned & 0x20000 != 0 {
                        assert(imm_unsigned < 0x40000 && imm_unsigned & 0x20000 != 0 ==>
                            (imm_unsigned | 0xFFFC0000) as i32 == (imm_unsigned as int - 0x40000) as i32) by (bit_vector);
                        assert(word & 0x3FFFF < 0x40000) by (bit_vector);
                        (imm_unsigned | 0xFFFC0000) as i32
                    } else {
                        imm_unsigned as i32
                    };
                    Ok(Instruction::IType { opcode, rt, rs, immediate })
                },
                None => Err(VosError::Cpu(CpuError::InvalidInstruction(word))),
            }
        }
    }
}

proof fn lemma_rtype_fields(rs: u32, rt: u32, rd: u32, sh: u32, f: u32)
    requires
        rs < 16, rt < 16, rd < 16, sh < 32, f < 15,
    ensures
        ({
            let w = ((rs & 0xF) << 22u32) | ((rt & 0xF) << 18u32) | ((rd & 0xF) << 14u32) | ((sh & 0x1F) << 9u32) | (f & 0x1FF);
            &&& (w >> 26u32) & 0x3F == 0
            &&& (w >> 22u32) & 0xF == rs
            &&& (w >> 18u32) & 0xF == rt
            &&& (w >> 14u32) & 0xF == rd
            &&& (w >> 9u32) & 0x1F == sh
            &&& w & 0x1FF == f
        }),
{
    assert(rs < 16 && rt < 16 && rd < 16 && sh < 32 && f < 15 ==> ({
        let w = ((rs & 0xF) << 22u32) | ((rt & 0xF) << 18u32) | ((rd & 0xF) << 14u32) | ((sh & 0x1F) << 9u32) | (f & 0x1FF);
        &&& (w >> 26u32) & 0x3F == 0
        &&& (w >> 22u32) & 0xF == rs
        &&& (w >> 18u32) & 0xF == rt
        &&& (w >> 14u32) & 0xF == rd
        &&& (w >> 9u32) & 0x1F == sh
        &&& w & 0x1FF == f
    })) by (bit_vector);
}

proof fn lemma_itype_fields(op: u32, rs: u32, rt: u32, imm: i32)
    requires
        0 < op < 64, rs < 16, rt < 16, -0x20000 <= imm < 0x20000,
    ensures
        ({
            let w = ((op & 0x3F) << 26u32) | ((rs & 0xF) << 22u32) | ((rt & 0xF) << 18u32) | (imm as u32 & 0x3FFFF);
            &&& (w >> 26u32) & 0x3F == op
            &&& (w >> 22u32) & 0xF == rs
            &&& (w >> 18u32) & 0xF == rt
            &&& sign_extend18(w & 0x3FFFF) == imm
        }),
{
    assert(0 < op < 64 && rs < 16 && rt < 16 ==> ({
        let w = ((op & 0x3F) << 26u32) | ((rs & 0xF) << 22u32) | ((rt & 0xF) << 18u32) | (imm as u32 & 0x3FFFF);
        &&& (w >> 26u32) & 0x3F == op
        &&& (w >> 22u32) & 0xF == rs
        &&& (w >> 18u32) & 0xF == rt
        &&& w & 0x3FFFF == imm as u32 & 0x3FFFF
    })) by (bit_vector);
    let u = imm as u32 & 0x3FFFF;
    assert(-0x20000 <= imm < 0x20000 ==> (
        if u & 0x20000 != 0 { (u as int - 0x40000) as i32 == imm } else { u as i32 == imm })) by (bit_vector)
        requires u == imm as u32 & 0x3FFFF;
}

proof fn lemma_jtype_fields(op: u32, addr: u32)
    requires
        0 < op < 64, addr < 0x400_0000,
    ensures
        ({
            let w = ((op & 0x3F) << 26u32) | (addr & 0x3FFFFFF);
            &&& (w >> 26u32) & 0x3F == op
            &&& w & 0x3FFFFFF == addr
        }),
{
    assert(0 < op < 64 && addr < 0x400_0000 ==> ({
        let w = ((op & 0x3F) << 26u32) | (addr & 0x3FFFFFF);
        &&& (w >> 26u32) & 0x3F == op
        &&& w & 0x3FFFFFF == addr
    })) by (bit_vector);
}

/// Decoding an encoded well-formed instruction gives it back.
pub proof fn lemma_decode_encode(i: Instruction)
    requires
        well_formed(i),
    ensures
        decode_spec(encode_spec(i)) == Ok::<Instruction, VosError>(i),
{
    match i {
        Instruction::RType { funct, rd, rs, rt, shamt } => {
            lemma_rtype_fields(rs as u32, rt as u32, rd as u32, shamt as u32, funct_code(funct));
        },
        Instruction::IType { opcode, rt, rs, immediate } => {
            lemma_itype_fields(opcode_code(opcode), rs as u32, rt as u32, immediate);
        },
        Instruction::JType { opcode, address } => {
            lemma_jtype_fields(opcode_code(opcode), address);
        },
    }
}

/// Every word that decodes gives a well-formed instruction that encodes back to the same word.
pub proof fn lemma_encode_decode(w: u32)
    requires
        decode_spec(w) is Ok,
    ensures
        well_formed(decode_spec(w)->Ok_0),
        encode_spec(decode_spec(w)->Ok_0) == w,
{
    let op = (w >> 26u32) & 0x3F;
    let i = decode_spec(w)->Ok_0;
    assert((w >> 22u32) & 0xF < 16 && (w >> 18u32) & 0xF < 16 && (w >> 14u32) & 0xF < 16 && (w >> 9u32) & 0x1F < 32
        && (w >> 26u32) & 0x3F < 64 && w & 0x3FFFFFF < 0x400_0000 && w & 0x3FFFF < 0x40000) by (bit_vector);
    if op == 0 {
        let f = w & 0x1FF;
        assert(op == 0 ==> ((((w >> 22u32) & 0xF) & 0xF) << 22u32) | ((((w >> 18u32) & 0xF) & 0xF) << 18u32)
            | ((((w >> 14u32) & 0xF) & 0xF) << 14u32) | ((((w >> 9u32) & 0x1F) & 0x1F) << 9u32) | ((w & 0x1FF) & 0x1FF) == w)
            by (bit_vector) requires op == (w >> 26u32) & 0x3F;
    } else {
        let opcode = opcode_of_code(op).unwrap();
        assert(opcode_code(opcode) == op);
        if opcode == Opcode::J || opcode == Opcode::JAL {
            assert(((op & 0x3F) << 26u32) | ((w & 0x3FFFFFF) & 0x3FFFFFF) == w) by (bit_vector)
                requires op == (w >> 26u32) & 0x3F;
        } else {
            let u = w & 0x3FFFF;
            assert(sign_extend18(u) as u32 & 0x3FFFF == u && -0x20000 <= sign_extend18(u) < 0x20000) by (bit_vector)
                requires u == w & 0x3FFFF;
            assert(((op & 0x3F) << 26u32) | ((((w >> 22u32) & 0xF) & 0xF) << 22u32) | ((((w >> 18u32) & 0xF) & 0xF) << 18u32) | u == w)
                by (bit_vector) requires op == (w >> 26u32) & 0x3F, u == w & 0x3FFFF;
        }
    }
}

/// `M Ra, Rb, Rc`
pub open spec fn fmt_rrr(m: Seq<char>, a: u8, b: u8, c: u8) -> Seq<char> {
    m + " R"@ + dec(a as nat) + ", R"@ + dec(b as nat) + ", R"@ + dec(c as nat)
}

/// `M Ra, Rb`
pub open spec fn fmt_rr(m: Seq<char>, a: u8, b: u8) -> Seq<char> {
    m + " R"@ + dec(a as nat) + ", R"@ + dec(b as nat)
}

/// `M Ra, Rb, n` (shift amount)
pub open spec fn fmt_rrn(m: Seq<char>, a: u8, b: u8, n: u8) -> Seq<char> {
    m + " R"@ + dec(a as nat) + ", R"@ + dec(b as nat) + ", "@ + dec(n as nat)
}

/// `M Ra, Rb, imm`
pub open spec fn fmt_rri(m: Seq<char>, a: u8, b: u8, imm: i32) -> Seq<char> {
    m + " R"@ + dec(a as nat) + ", R"@ + dec(b as nat) + ", "@ + dec_signed(imm as int)
}

/// `M Rt, imm(Rs)`
pub open spec fn fmt_mem(m: Seq<char>, rt: u8, imm: i32, rs: u8) -> Seq<char> {
    m + " R"@ + dec(rt as nat) + ", "@ + dec_signed(imm as int) + "(R"@ + dec(rs as nat) + ")"@
}

/// Text that `disassemble` produces.
pub open spec fn disassembly(i: Instruction) -> Seq<char> {
    match i {
        Instruction::RType { funct, rd, rs, rt, shamt } => match funct {
            Funct::NOT | Funct::MOV => fmt_rr(funct_name(funct), rd, rs),
            Funct::SLL | Funct::SRL | Funct::SRA => fmt_rrn(funct_name(funct), rd, rt, shamt),
            Funct::JR => funct_name(funct) + " R"@ + dec(rs as nat),
            _ => fmt_rrr(funct_name(funct), rd, rs, rt),
        },
        Instruction::IType { opcode, rt, rs, immediate } => match opcode {
            Opcode::ADDI | Opcode::SUBI | Opcode::ANDI | Opcode::ORI | Opcode::XORI =>
                fmt_rri(opcode_name(opcode), rt, rs, immediate),
            Opcode::LUI => opcode_name(opcode) + " R"@ + dec(rt as nat) + ", "@ + dec_signed(immediate as int),
            Opcode::LW | Opcode::SW | Opcode::LB | Opcode::SB => fmt_mem(opcode_name(opcode), rt, immediate, rs),
            Opcode::BEQ | Opcode::BNE | Opcode::BLT | Opcode::BGT | Opcode::BLE | Opcode::BGE =>
                fmt_rri(opcode_name(opcode), rs, rt, immediate),
            Opcode::SYSCALL | Opcode::BREAK | Opcode::HALT | Opcode::NOP => opcode_name(opcode),
            _ => "UNKNOWN "@ + opcode_name(opcode),
        },
        Instruction::JType { opcode, address } => match opcode {
            Opcode::J | Opcode::JAL => opcode_name(opcode) + " 0x"@ + hex8(address as nat),
            _ => "UNKNOWN "@ + opcode_name(opcode) + " 0x"@ + hex8(address as nat),
        },
    }
}

fn push_reg(out: &mut Vec<char>, prefix: &str, r: u8)
    ensures
        final(out)@ == old(out)@ + prefix@ + dec(r as nat),
{
    push_str(out, prefix);
    push_dec(out, r as u64);
    assert(final(out)@ =~= old(out)@ + prefix@ + dec(r as nat));
}

fn push_imm(out: &mut Vec<char>, prefix: &str, imm: i32)
    ensures
        final(out)@ == old(out)@ + prefix@ + dec_signed(imm as int),
{
    push_str(out, prefix);
    push_dec_signed(out, imm as i64);
    assert(final(out)@ =~= old(out)@ + prefix@ + dec_signed(imm as int));
}

impl Instruction {
    /// Human-readable assembly text of the instruction.
    pub fn disassemble(&self) -> (s: String)
        ensures
            s@ == disassembly(*self),
    {
        let mut out: Vec<char> = Vec::new();
        match self {
            Instruction::RType { funct, rd, rs, rt, shamt } => {
                push_str(&mut out, funct.name());
                match funct {
                    Funct::NOT | Funct::MOV => {
                        push_reg(&mut out, " R", *rd);
                        push_reg(&mut out, ", R", *rs);
                        assert(out@ =~= disassembly(*self));
                    },
                    Funct::SLL | Funct::SRL | Funct::SRA => {
                        push_reg(&mut out, " R", *rd);
                        push_reg(&mut out, ", R", *rt);
                        push_reg(&mut out, ", ", *shamt);
                        assert(out@ =~= disassembly(*self));
                    },
                    Funct::JR => {
                        push_reg(&mut out, " R", *rs);
                        assert(out@ =~= disassembly(*self));
                    },
                    _ => {
                        push_reg(&mut out, " R", *rd);
                        push_reg(&mut out, ", R", *rs);
                        push_reg(&mut out, ", R", *rt);
                        assert(out@ =~= disassembly(*self));
                    },
                }
            },
            Instruction::IType { opcode, rt, rs, immediate } => {
                match opcode {
                    Opcode::ADDI | Opcode::SUBI | Opcode::ANDI | Opcode::ORI | Opcode::XORI => {
                        push_str(&mut out, opcode.name());
                        push_reg(&mut out, " R", *rt);
                        push_reg(&mut out, ", R", *rs);
                        push_imm(&mut out, ", ", *immediate);
                        assert(out@ =~= disassembly(*self));
                    },
                    Opcode::LUI => {
                        push_str(&mut out, opcode.name());
                        push_reg(&mut out, " R", *rt);
                        push_imm(&mut out, ", ", *immediate);
                        assert(out@ =~= disassembly(*self));
                    },
                    Opcode::LW | Opcode::SW | Opcode::LB | Opcode::SB => {
                        push_str(&mut out, opcode.name());
                        push_reg(&mut out, " R", *rt);
                        push_imm(&mut out, ", ", *immediate);
                        push_reg(&mut out, "(R", *rs);
                        push_str(&mut out, ")");
                        assert(out@ =~= disassembly(*self));
                    },
                    Opcode::BEQ | Opcode::BNE | Opcode::BLT | Opcode::BGT | Opcode::BLE | Opcode::BGE => {
                        push_str(&mut out, opcode.name());
                        push_reg(&mut out, " R", *rs);
                        push_reg(&mut out, ", R", *rt);
                        push_imm(&mut out, ", ", *immediate);
                        assert(out@ =~= disassembly(*self));
                    },
                    Opcode::SYSCALL | Opcode::BREAK | Opcode::HALT | Opcode::NOP => {
                        push_str(&mut out, opcode.name());
                        assert(out@ =~= disassembly(*self));
                    },
                    _ => {
                        push_str(&mut out, "UNKNOWN ");
                        push_str(&mut out, opcode.name());
                        assert(out@ =~= disassembly(*self));
                    },
                }
            },
            Instruction::JType { opcode, address } => {
                match opcode {
                    Opcode::J | Opcode::JAL => {},
                    _ => push_str(&mut out, "UNKNOWN "),
                }
                push_str(&mut out, opcode.name());
                push_str(&mut out, " 0x");
                push_hex8(&mut out, *address as u64);
                assert(out@ =~= disassembly(*self));
            },
        }
        assert(out@ =~= disassembly(*self));
        chars_to_string(&out)
    }
}

} // verus!
