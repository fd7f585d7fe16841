//! Assembling parsed instructions into little-endian machine code.
use vstd::prelude::*;
use crate::assembly::lexer::{Tok, tokenize_spec};
use crate::assembly::parser::{Asm, AsmInstruction, ParseOutcome, Parser, Program, is_branch, is_itype, is_rtype, is_zero_op, label_lookup, parse_from, parse_instruction, skip_nl};
use crate::chars::{all_digits, is_digit, read_digits, read_number};
use crate::cpu::instruction::{Funct, Instruction, Opcode, decode_spec, disassembly, encode_spec, funct_name, lemma_decode_encode, opcode_name, well_formed};
use crate::memory::ram::word_at;
use crate::error::VosError;
use crate::text::{chars_to_string, dec, dec_signed, push_str, str_eq, str_to_chars};

verus! {

/// Assembler errors.
#[derive(Debug)]
pub enum AssemblerError {
    /// A jump names a label that is not defined
    UndefinedLabel(String),
    /// A mnemonic the assembler does not know
    UnknownMnemonic(String),
    /// The source could not be parsed
    ParseError(String),
}

/// Text of an assembler error.
pub open spec fn assembler_error_text(e: AssemblerError) -> Seq<char> {
    match e {
        AssemblerError::UndefinedLabel(s) => "Undefined label: "@ + s@,
        AssemblerError::UnknownMnemonic(s) => "Unknown mnemonic: "@ + s@,
        AssemblerError::ParseError(s) => "Parse error: "@ + s@,
    }
}

impl AssemblerError {
    /// The error's text.
    pub fn message(&self) -> (s: String)
        ensures
            s@ == assembler_error_text(*self),
    {
        let mut v: Vec<char> = Vec::new();
        match self {
            AssemblerError::UndefinedLabel(s) => {
                push_str(&mut v, "Undefined label: ");
                push_str(&mut v, s.as_str());
            },
            AssemblerError::UnknownMnemonic(s) => {
                push_str(&mut v, "Unknown mnemonic: ");
                push_str(&mut v, s.as_str());
            },
            AssemblerError::ParseError(s) => {
                push_str(&mut v, "Parse error: ");
                push_str(&mut v, s.as_str());
            },
        }
        chars_to_string(&v)
    }

    /// The error as a system error: an `Assembler` error carrying its text.
    pub fn into_error(self) -> (r: VosError)
        ensures
            r matches VosError::Assembler(s) && s@ == assembler_error_text(self),
    {
        VosError::Assembler(self.message())
    }
}

/// Whether a result is a failure with the assembler error of the given text.
pub open spec fn fails_asm<T>(r: Result<T, VosError>, text: Seq<char>) -> bool {
    r matches Err(e) && e matches VosError::Assembler(s) && s@ == text
}

/// R-Type function for a mnemonic.
pub open spec fn funct_of(m: Seq<char>) -> Option<Funct> {
    if m == "ADD"@ { Some(Funct::ADD) }
    else if m == "SUB"@ { Some(Funct::SUB) }
    else if m == "MUL"@ { Some(Funct::MUL) }
    else if m == "DIV"@ { Some(Funct::DIV) }
    else if m == "AND"@ { Some(Funct::AND) }
    else if m == "OR"@ { Some(Funct::OR) }
    else if m == "XOR"@ { Some(Funct::XOR) }
    else if m == "NOT"@ { Some(Funct::NOT) }
    else if m == "SLL"@ { Some(Funct::SLL) }
    else if m == "SRL"@ { Some(Funct::SRL) }
    else if m == "SRA"@ { Some(Funct::SRA) }
    else if m == "SLT"@ { Some(Funct::SLT) }
    else if m == "SGT"@ { Some(Funct::SGT) }
    else { None }
}

/// Opcode for a mnemonic.
pub open spec fn opcode_of(m: Seq<char>) -> Option<Opcode> {
    if m == "ADDI"@ { Some(Opcode::ADDI) }
    else if m == "SUBI"@ { Some(Opcode::SUBI) }
    else if m == "ANDI"@ { Some(Opcode::ANDI) }
    else if m == "ORI"@ { Some(Opcode::ORI) }
    else if m == "XORI"@ { Some(Opcode::XORI) }
    else if m == "LUI"@ { Some(Opcode::LUI) }
    else if m == "LW"@ { Some(Opcode::LW) }
    else if m == "SW"@ { Some(Opcode::SW) }
    else if m == "LB"@ { Some(Opcode::LB) }
    else if m == "SB"@ { Some(Opcode::SB) }
    else if m == "BEQ"@ { Some(Opcode::BEQ) }
    else if m == "BNE"@ { Some(Opcode::BNE) }
    else if m == "BLT"@ { Some(Opcode::BLT) }
    else if m == "BGT"@ { Some(Opcode::BGT) }
    else if m == "BLE"@ { Some(Opcode::BLE) }
    else if m == "BGE"@ { Some(Opcode::BGE) }
    else if m == "J"@ { Some(Opcode::J) }
    else if m == "JAL"@ { Some(Opcode::JAL) }
    else if m == "SYSCALL"@ { Some(Opcode::SYSCALL) }
    else if m == "BREAK"@ { Some(Opcode::BREAK) }
    else if m == "HALT"@ { Some(Opcode::HALT) }
    else if m == "NOP"@ { Some(Opcode::NOP) }
    else { None }
}

/// A mnemonic assembles to the function or opcode of that name: what `funct_of` and `opcode_of`
/// find for a mnemonic has the mnemonic as its name, so the assembled instruction disassembles
/// under the name it was written with.
pub proof fn lemma_mnemonic_names(m: Seq<char>)
    ensures
        funct_of(m) matches Some(f) ==> funct_name(f) == m,
        opcode_of(m) matches Some(op) ==> opcode_name(op) == m,
{
}

/// An unsigned decimal number written as a jump target (an optional `+`, then digits).
pub open spec fn target_number(s: Seq<char>) -> Option<u32> {
    let d = if s.len() > 0 && s[0] == '+' { s.drop_first() } else { s };
    if all_digits(d) {
        match read_digits(d, 10, 0xFFFF_FFFF) { Some(v) => Some(v as u32), None => None }
    } else {
        None
    }
}

/// Machine instruction for a parsed one, or the error text. A jump to a label goes to the
/// label's instruction: the base address plus four bytes per instruction before it.
pub open spec fn assemble_one(base: u32, a: Asm, labels: Seq<(Seq<char>, usize)>) -> Result<Instruction, Seq<char>> {
    match a {
        Asm::RType { mnemonic, rd, rs, rt } => match funct_of(mnemonic) {
            Some(funct) => Ok(Instruction::RType { funct, rd, rs, rt, shamt: 0 }),
            None => Err("Unknown mnemonic: "@ + mnemonic),
        },
        Asm::IType { mnemonic, rt, rs, immediate } => match opcode_of(mnemonic) {
            Some(opcode) => Ok(Instruction::IType { opcode, rt, rs, immediate }),
            None => Err("Unknown mnemonic: "@ + mnemonic),
        },
        Asm::JType { mnemonic, target } => match opcode_of(mnemonic) {
            Some(opcode) => match label_lookup(labels, target) {
                Some(idx) => Ok(Instruction::JType { opcode, address: (base + idx * 4) as u32 }),
                None => match target_number(target) {
                    Some(v) => Ok(Instruction::JType { opcode, address: v }),
                    None => Err("Undefined label: "@ + target),
                },
            },
            None => Err("Unknown mnemonic: "@ + mnemonic),
        },
        Asm::ZeroOp { mnemonic } => match opcode_of(mnemonic) {
            Some(opcode) => Ok(Instruction::IType { opcode, rt: 0, rs: 0, immediate: 0 }),
            None => Err("Unknown mnemonic: "@ + mnemonic),
        },
    }
}

/// The four bytes of a word, least significant first.
pub open spec fn le_bytes(w: u32) -> Seq<u8> {
    seq![(w & 0xFF) as u8, ((w >> 8u32) & 0xFF) as u8, ((w >> 16u32) & 0xFF) as u8, ((w >> 24u32) & 0xFF) as u8]
}

/// Machine code of a sequence of parsed instructions, or the text of the first error.
pub open spec fn assemble_all(base: u32, instrs: Seq<Asm>, labels: Seq<(Seq<char>, usize)>) -> Result<Seq<u8>, Seq<char>>
    decreases instrs.len(),
{
    if instrs.len() == 0 {
        Ok(Seq::empty())
    } else {
        match assemble_all(base, instrs.drop_last(), labels) {
            Err(e) => Err(e),
            Ok(code) => match assemble_one(base, instrs.last(), labels) {
                Err(e) => Err(e),
                Ok(i) => Ok(code + le_bytes(encode_spec(i))),
            },
        }
    }
}

/// Every jump to a label lands within the 32-bit address space.
pub open spec fn jumps_fit(base: u32, instrs: Seq<Asm>, labels: Seq<(Seq<char>, usize)>) -> bool {
    forall|i: int| 0 <= i < instrs.len() ==> (#[trigger] instrs[i] matches Asm::JType { target, .. }
        ==> (label_lookup(labels, target) matches Some(idx) ==> base + idx * 4 <= u32::MAX))
}

/// The little-endian bytes of a word, read back, give the word.
pub proof fn lemma_le_bytes_word(w: u32)
    ensures
        word_at(le_bytes(w), 0) == w,
{
    let b0 = (w & 0xFF) as u8;
    let b1 = ((w >> 8u32) & 0xFF) as u8;
    let b2 = ((w >> 16u32) & 0xFF) as u8;
    let b3 = ((w >> 24u32) & 0xFF) as u8;
    assert(b0 as u32 + b1 as u32 * 0x100 + b2 as u32 * 0x1_0000 + b3 as u32 * 0x100_0000 == w) by (bit_vector)
        requires
            b0 == (w & 0xFF) as u8,
            b1 == ((w >> 8u32) & 0xFF) as u8,
            b2 == ((w >> 16u32) & 0xFF) as u8,
            b3 == ((w >> 24u32) & 0xFF) as u8;
}

/// Assembled code holds four bytes per instruction: those of the `k`-th instruction's word
/// start at byte `4 * k`.
pub proof fn lemma_assembled_layout(base: u32, instrs: Seq<Asm>, labels: Seq<(Seq<char>, usize)>, k: int)
    requires
        assemble_all(base, instrs, labels) is Ok,
        0 <= k < instrs.len(),
    ensures
        assemble_all(base, instrs, labels)->Ok_0.len() == 4 * instrs.len(),
        assemble_one(base, instrs[k], labels) is Ok,
        assemble_all(base, instrs, labels)->Ok_0.subrange(4 * k, 4 * k + 4)
            == le_bytes(encode_spec(assemble_one(base, instrs[k], labels)->Ok_0)),
    decreases instrs.len(),
{
    let code = assemble_all(base, instrs, labels)->Ok_0;
    let front = assemble_all(base, instrs.drop_last(), labels)->Ok_0;
    if k < instrs.len() - 1 {
        assert(instrs.drop_last()[k] == instrs[k]);
        lemma_assembled_layout(base, instrs.drop_last(), labels, k);
        assert(code.subrange(4 * k, 4 * k + 4) =~= front.subrange(4 * k, 4 * k + 4));
    } else {
        if instrs.len() > 1 {
            lemma_assembled_layout(base, instrs.drop_last(), labels, 0);
        }
        assert(code.subrange(4 * k, 4 * k + 4) =~= le_bytes(encode_spec(assemble_one(base, instrs[k], labels)->Ok_0)));
    }
}

/// Assembling then decoding gives back the instructions: the word at byte `4 * k` of the
/// assembled code decodes to the `k`-th assembled instruction, when that one is well formed.
pub proof fn lemma_assemble_then_decode(base: u32, instrs: Seq<Asm>, labels: Seq<(Seq<char>, usize)>, k: int)
    requires
        assemble_all(base, instrs, labels) is Ok,
        0 <= k < instrs.len(),
        assemble_one(base, instrs[k], labels) matches Ok(i) && well_formed(i),
    ensures
        decode_spec(word_at(assemble_all(base, instrs, labels)->Ok_0, 4 * k))
            == Ok::<Instruction, VosError>(assemble_one(base, instrs[k], labels)->Ok_0),
{
    let code = assemble_all(base, instrs, labels)->Ok_0;
    let i = assemble_one(base, instrs[k], labels)->Ok_0;
    lemma_assembled_layout(base, instrs, labels, k);
    let b = le_bytes(encode_spec(i));
    lemma_le_bytes_word(encode_spec(i));
    assert(code[4 * k] == b[0] && code[4 * k + 1] == b[1] && code[4 * k + 2] == b[2] && code[4 * k + 3] == b[3]) by {
        assert(code.subrange(4 * k, 4 * k + 4)[0] == code[4 * k]);
        assert(code.subrange(4 * k, 4 * k + 4)[1] == code[4 * k + 1]);
        assert(code.subrange(4 * k, 4 * k + 4)[2] == code[4 * k + 2]);
        assert(code.subrange(4 * k, 4 * k + 4)[3] == code[4 * k + 3]);
    }
    assert(word_at(code, 4 * k) == word_at(b, 0));
    lemma_decode_encode(i);
}

/// The tokens of a source line `M Ra, Rb, X`, where X is the register `Rc` or the number `n`.
pub open spec fn line_tokens(m: Seq<char>, a: u8, b: u8, last: Tok) -> Seq<Tok> {
    seq![Tok::Mnemonic(m), Tok::Register(a), Tok::Comma, Tok::Register(b), Tok::Comma, last, Tok::Eof]
}

/// A line whose instruction parses on its own is a program of that one instruction and no label.
proof fn lemma_single_line(t: Seq<Tok>, parsed: Asm)
    requires
        t.len() == 7,
        t[0] is Mnemonic,
        t[6] is Eof,
        parse_instruction(t, 0) == Ok::<(Option<Asm>, nat), Seq<char>>((Some(parsed), 6nat)),
    ensures
        parse_from(t, 0, Seq::empty(), Seq::empty()) == ParseOutcome::Done(seq![parsed], Seq::<(Seq<char>, usize)>::empty()),
{
    assert(skip_nl(t, 0) == 0);
    assert(skip_nl(t, 6) == 6);
    let one = Seq::<Asm>::empty().push(parsed);
    assert(one =~= seq![parsed]);
    assert(parse_from(t, 6, one, Seq::empty()) == ParseOutcome::Done(one, Seq::<(Seq<char>, usize)>::empty()));
    assert(parse_from(t, 0, Seq::empty(), Seq::empty()) == parse_from(t, 6, one, Seq::empty()));
}

/// One assembled instruction is the four bytes of its word, and that word decodes back to it.
proof fn lemma_single_code(base: u32, parsed: Asm, i: Instruction)
    requires
        assemble_one(base, parsed, Seq::empty()) == Ok::<Instruction, Seq<char>>(i),
        well_formed(i),
    ensures
        assemble_all(base, seq![parsed], Seq::empty()) == Ok::<Seq<u8>, Seq<char>>(le_bytes(encode_spec(i))),
        decode_spec(word_at(le_bytes(encode_spec(i)), 0)) == Ok::<Instruction, VosError>(i),
{
    assert(seq![parsed].drop_last() =~= Seq::<Asm>::empty());
    assert(seq![parsed].last() == parsed);
    assert(assemble_all(base, Seq::<Asm>::empty(), Seq::empty()) == Ok::<Seq<u8>, Seq<char>>(Seq::empty()));
    assert(Seq::<u8>::empty() + le_bytes(encode_spec(i)) =~= le_bytes(encode_spec(i)));
    lemma_le_bytes_word(encode_spec(i));
    lemma_decode_encode(i);
}

/// The mnemonics are distinct texts.
proof fn lemma_reveal_mnemonics()
    ensures
        "HALT"@ == seq!['H', 'A', 'L', 'T'], "NOP"@ == seq!['N', 'O', 'P'],
        "SYSCALL"@ == seq!['S', 'Y', 'S', 'C', 'A', 'L', 'L'], "BREAK"@ == seq!['B', 'R', 'E', 'A', 'K'],
        "ADD"@ == seq!['A', 'D', 'D'], "SUB"@ == seq!['S', 'U', 'B'], "MUL"@ == seq!['M', 'U', 'L'],
        "DIV"@ == seq!['D', 'I', 'V'], "AND"@ == seq!['A', 'N', 'D'], "OR"@ == seq!['O', 'R'],
        "XOR"@ == seq!['X', 'O', 'R'], "NOT"@ == seq!['N', 'O', 'T'], "SLL"@ == seq!['S', 'L', 'L'],
        "SRL"@ == seq!['S', 'R', 'L'], "SRA"@ == seq!['S', 'R', 'A'], "SLT"@ == seq!['S', 'L', 'T'],
        "SGT"@ == seq!['S', 'G', 'T'],
        "ADDI"@ == seq!['A', 'D', 'D', 'I'], "SUBI"@ == seq!['S', 'U', 'B', 'I'], "ANDI"@ == seq!['A', 'N', 'D', 'I'],
        "ORI"@ == seq!['O', 'R', 'I'], "XORI"@ == seq!['X', 'O', 'R', 'I'], "LUI"@ == seq!['L', 'U', 'I'],
        "LW"@ == seq!['L', 'W'], "SW"@ == seq!['S', 'W'], "LB"@ == seq!['L', 'B'], "SB"@ == seq!['S', 'B'],
        "BEQ"@ == seq!['B', 'E', 'Q'], "BNE"@ == seq!['B', 'N', 'E'], "BLT"@ == seq!['B', 'L', 'T'],
        "BGT"@ == seq!['B', 'G', 'T'], "BLE"@ == seq!['B', 'L', 'E'], "BGE"@ == seq!['B', 'G', 'E'],
{
    reveal_strlit("HALT"); reveal_strlit("NOP"); reveal_strlit("SYSCALL"); reveal_strlit("BREAK");
    reveal_strlit("ADD"); reveal_strlit("SUB"); reveal_strlit("MUL"); reveal_strlit("DIV");
    reveal_strlit("AND"); reveal_strlit("OR"); reveal_strlit("XOR"); reveal_strlit("NOT");
    reveal_strlit("SLL"); reveal_strlit("SRL"); reveal_strlit("SRA"); reveal_strlit("SLT");
    reveal_strlit("SGT"); reveal_strlit("ADDI"); reveal_strlit("SUBI"); reveal_strlit("ANDI");
    reveal_strlit("ORI"); reveal_strlit("XORI"); reveal_strlit("LUI"); reveal_strlit("LW");
    reveal_strlit("SW"); reveal_strlit("LB"); reveal_strlit("SB"); reveal_strlit("BEQ");
    reveal_strlit("BNE"); reveal_strlit("BLT"); reveal_strlit("BGT"); reveal_strlit("BLE");
    reveal_strlit("BGE");
}

/// How the parser and the assembler classify the branch mnemonics.
#[verifier::rlimit(100)]
proof fn lemma_branch_mnemonic(m: Seq<char>)
    requires
        m == "BEQ"@ || m == "BNE"@ || m == "BLT"@ || m == "BGT"@ || m == "BLE"@ || m == "BGE"@,
    ensures
        !is_zero_op(m) && !is_rtype(m) && !is_itype(m) && is_branch(m)
            && (opcode_of(m) matches Some(op) && (op == Opcode::BEQ || op == Opcode::BNE || op == Opcode::BLT || op == Opcode::BGT || op == Opcode::BLE || op == Opcode::BGE)),
{
    lemma_reveal_mnemonics();
    if m == "BEQ"@ {
        assert(m.len() == 3 && m[0] == 'B' && m[1] == 'E' && m[2] == 'Q');
    }     else if m == "BNE"@ {
        assert(m.len() == 3 && m[0] == 'B' && m[1] == 'N' && m[2] == 'E');
    }     else if m == "BLT"@ {
        assert(m.len() == 3 && m[0] == 'B' && m[1] == 'L' && m[2] == 'T');
    }     else if m == "BGT"@ {
        assert(m.len() == 3 && m[0] == 'B' && m[1] == 'G' && m[2] == 'T');
    }     else if m == "BLE"@ {
        assert(m.len() == 3 && m[0] == 'B' && m[1] == 'L' && m[2] == 'E');
    }     else if m == "BGE"@ {
        assert(m.len() == 3 && m[0] == 'B' && m[1] == 'G' && m[2] == 'E');
    }
}

/// How the parser and the assembler classify the mnemonics of arithmetic and logic operations with an immediate.
#[verifier::rlimit(100)]
proof fn lemma_immediate_mnemonic(m: Seq<char>)
    requires
        m == "ADDI"@ || m == "SUBI"@ || m == "ANDI"@ || m == "ORI"@ || m == "XORI"@,
    ensures
        !is_zero_op(m) && !is_rtype(m) && is_itype(m)
            && (opcode_of(m) matches Some(op) && (op == Opcode::ADDI || op == Opcode::SUBI || op == Opcode::ANDI || op == Opcode::ORI || op == Opcode::XORI)),
{
    lemma_reveal_mnemonics();
    if m == "ADDI"@ {
        assert(m.len() == 4 && m[0] == 'A' && m[1] == 'D' && m[2] == 'D' && m[3] == 'I');
    }     else if m == "SUBI"@ {
        assert(m.len() == 4 && m[0] == 'S' && m[1] == 'U' && m[2] == 'B' && m[3] == 'I');
    }     else if m == "ANDI"@ {
        assert(m.len() == 4 && m[0] == 'A' && m[1] == 'N' && m[2] == 'D' && m[3] == 'I');
    }     else if m == "ORI"@ {
        assert(m.len() == 3 && m[0] == 'O' && m[1] == 'R' && m[2] == 'I');
    }     else if m == "XORI"@ {
        assert(m.len() == 4 && m[0] == 'X' && m[1] == 'O' && m[2] == 'R' && m[3] == 'I');
    }
}

/// How the parser and the assembler classify the load and store mnemonics.
#[verifier::rlimit(100)]
proof fn lemma_memory_mnemonic(m: Seq<char>)
    requires
        m == "LW"@ || m == "SW"@ || m == "LB"@ || m == "SB"@,
    ensures
        !is_zero_op(m) && !is_rtype(m) && is_itype(m)
            && (opcode_of(m) matches Some(op) && (op == Opcode::LW || op == Opcode::SW || op == Opcode::LB || op == Opcode::SB)),
{
    lemma_reveal_mnemonics();
    if m == "LW"@ {
        assert(m.len() == 2 && m[0] == 'L' && m[1] == 'W');
    }     else if m == "SW"@ {
        assert(m.len() == 2 && m[0] == 'S' && m[1] == 'W');
    }     else if m == "LB"@ {
        assert(m.len() == 2 && m[0] == 'L' && m[1] == 'B');
    }     else if m == "SB"@ {
        assert(m.len() == 2 && m[0] == 'S' && m[1] == 'B');
    }
}

/// How the parser and the assembler classify the three-register function mnemonics.
#[verifier::rlimit(100)]
proof fn lemma_register_mnemonic(m: Seq<char>)
    requires
        m == "ADD"@ || m == "SUB"@ || m == "MUL"@ || m == "DIV"@ || m == "AND"@ || m == "OR"@ || m == "XOR"@ || m == "SLT"@ || m == "SGT"@,
    ensures
        !is_zero_op(m) && is_rtype(m)
            && (funct_of(m) matches Some(f) && (f == Funct::ADD || f == Funct::SUB || f == Funct::MUL || f == Funct::DIV || f == Funct::AND || f == Funct::OR || f == Funct::XOR || f == Funct::SLT || f == Funct::SGT)),
{
    lemma_reveal_mnemonics();
    if m == "ADD"@ {
        assert(m.len() == 3 && m[0] == 'A' && m[1] == 'D' && m[2] == 'D');
    }     else if m == "SUB"@ {
        assert(m.len() == 3 && m[0] == 'S' && m[1] == 'U' && m[2] == 'B');
    }     else if m == "MUL"@ {
        assert(m.len() == 3 && m[0] == 'M' && m[1] == 'U' && m[2] == 'L');
    }     else if m == "DIV"@ {
        assert(m.len() == 3 && m[0] == 'D' && m[1] == 'I' && m[2] == 'V');
    }     else if m == "AND"@ {
        assert(m.len() == 3 && m[0] == 'A' && m[1] == 'N' && m[2] == 'D');
    }     else if m == "OR"@ {
        assert(m.len() == 2 && m[0] == 'O' && m[1] == 'R');
    }     else if m == "XOR"@ {
        assert(m.len() == 3 && m[0] == 'X' && m[1] == 'O' && m[2] == 'R');
    }     else if m == "SLT"@ {
        assert(m.len() == 3 && m[0] == 'S' && m[1] == 'L' && m[2] == 'T');
    }     else if m == "SGT"@ {
        assert(m.len() == 3 && m[0] == 'S' && m[1] == 'G' && m[2] == 'T');
    }
}

/// A branch line `M Ra, Rb, n` assembles to one word that decodes to the branch M comparing Ra
/// (first) with Rb (second) by the offset n, and disassembles back to the same line.
pub proof fn lemma_branch_line_roundtrip(base: u32, m: Seq<char>, a: u8, b: u8, n: i32)
    requires
        m == "BEQ"@ || m == "BNE"@ || m == "BLT"@ || m == "BGT"@ || m == "BLE"@ || m == "BGE"@,
        a < 16,
        b < 16,
        -0x20000 <= n < 0x20000,
    ensures
        ({
            &&& parse_from(line_tokens(m, a, b, Tok::Number(n)), 0, Seq::empty(), Seq::empty()) matches ParseOutcome::Done(is, ls)
            &&& assemble_all(base, is, ls) matches Ok(code)
            &&& code.len() == 4
            &&& decode_spec(word_at(code, 0)) matches Ok(i)
            &&& i matches Instruction::IType { opcode, rt, rs, immediate }
            &&& opcode_name(opcode) == m && rs == a && rt == b && immediate == n
            &&& disassembly(i) == m + " R"@ + dec(a as nat) + ", R"@ + dec(b as nat) + ", "@ + dec_signed(n as int)
        }),
{
    lemma_branch_mnemonic(m);
    let t = line_tokens(m, a, b, Tok::Number(n));
    let parsed = Asm::IType { mnemonic: m, rt: b, rs: a, immediate: n };
    assert(parse_instruction(t, 0) == Ok::<(Option<Asm>, nat), Seq<char>>((Some(parsed), 6nat)));
    lemma_single_line(t, parsed);
    lemma_mnemonic_names(m);
    let op = opcode_of(m)->0;
    let i = Instruction::IType { opcode: op, rt: b, rs: a, immediate: n };
    assert(assemble_one(base, parsed, Seq::empty()) == Ok::<Instruction, Seq<char>>(i));
    lemma_single_code(base, parsed, i);
}

/// A load or store line `M Ra, Rb, n` (register, base register, offset) assembles to one word
/// that decodes to M with Ra as the register loaded or stored and Rb as the base, and
/// disassembles as `M Ra, n(Rb)`.
#[verifier::rlimit(40)]
pub proof fn lemma_memory_line_roundtrip(base: u32, m: Seq<char>, a: u8, b: u8, n: i32)
    requires
        m == "LW"@ || m == "SW"@ || m == "LB"@ || m == "SB"@,
        a < 16,
        b < 16,
        -0x20000 <= n < 0x20000,
    ensures
        ({
            &&& parse_from(line_tokens(m, a, b, Tok::Number(n)), 0, Seq::empty(), Seq::empty()) matches ParseOutcome::Done(is, ls)
            &&& assemble_all(base, is, ls) matches Ok(code)
            &&& code.len() == 4
            &&& decode_spec(word_at(code, 0)) matches Ok(i)
            &&& i matches Instruction::IType { opcode, rt, rs, immediate }
            &&& opcode_name(opcode) == m && rt == a && rs == b && immediate == n
            &&& disassembly(i) == m + " R"@ + dec(a as nat) + ", "@ + dec_signed(n as int) + "(R"@ + dec(b as nat) + ")"@
        }),
{
    lemma_memory_mnemonic(m);
    let t = line_tokens(m, a, b, Tok::Number(n));
    let parsed = Asm::IType { mnemonic: m, rt: a, rs: b, immediate: n };
    assert(parse_instruction(t, 0) == Ok::<(Option<Asm>, nat), Seq<char>>((Some(parsed), 6nat)));
    lemma_single_line(t, parsed);
    lemma_mnemonic_names(m);
    let op = opcode_of(m)->0;
    let i = Instruction::IType { opcode: op, rt: a, rs: b, immediate: n };
    assert(assemble_one(base, parsed, Seq::empty()) == Ok::<Instruction, Seq<char>>(i));
    lemma_single_code(base, parsed, i);
}

/// An immediate line `M Ra, Rb, n` of an arithmetic or logic operation assembles to one word
/// that decodes to M computing Ra from Rb and n, and disassembles back to the same line.
#[verifier::rlimit(40)]
pub proof fn lemma_immediate_line_roundtrip(base: u32, m: Seq<char>, a: u8, b: u8, n: i32)
    requires
        m == "ADDI"@ || m == "SUBI"@ || m == "ANDI"@ || m == "ORI"@ || m == "XORI"@,
        a < 16,
        b < 16,
        -0x20000 <= n < 0x20000,
    ensures
        ({
            &&& parse_from(line_tokens(m, a, b, Tok::Number(n)), 0, Seq::empty(), Seq::empty()) matches ParseOutcome::Done(is, ls)
            &&& assemble_all(base, is, ls) matches Ok(code)
            &&& code.len() == 4
            &&& decode_spec(word_at(code, 0)) matches Ok(i)
            &&& i matches Instruction::IType { opcode, rt, rs, immediate }
            &&& opcode_name(opcode) == m && rt == a && rs == b && immediate == n
            &&& disassembly(i) == m + " R"@ + dec(a as nat) + ", R"@ + dec(b as nat) + ", "@ + dec_signed(n as int)
        }),
{
    lemma_immediate_mnemonic(m);
    let t = line_tokens(m, a, b, Tok::Number(n));
    let parsed = Asm::IType { mnemonic: m, rt: a, rs: b, immediate: n };
    assert(parse_instruction(t, 0) == Ok::<(Option<Asm>, nat), Seq<char>>((Some(parsed), 6nat)));
    lemma_single_line(t, parsed);
    lemma_mnemonic_names(m);
    let op = opcode_of(m)->0;
    let i = Instruction::IType { opcode: op, rt: a, rs: b, immediate: n };
    assert(assemble_one(base, parsed, Seq::empty()) == Ok::<Instruction, Seq<char>>(i));
    lemma_single_code(base, parsed, i);
}

/// A three-register line `M Ra, Rb, Rc` of an arithmetic, logic or comparison function
/// assembles to one word that decodes to the function named M computing Ra from Rb and Rc, and
/// disassembles back to the same line.
pub proof fn lemma_register_line_roundtrip(base: u32, m: Seq<char>, a: u8, b: u8, c: u8)
    requires
        m == "ADD"@ || m == "SUB"@ || m == "MUL"@ || m == "DIV"@ || m == "AND"@ || m == "OR"@
            || m == "XOR"@ || m == "SLT"@ || m == "SGT"@,
        a < 16,
        b < 16,
        c < 16,
    ensures
        ({
            &&& parse_from(line_tokens(m, a, b, Tok::Register(c)), 0, Seq::empty(), Seq::empty()) matches ParseOutcome::Done(is, ls)
            &&& assemble_all(base, is, ls) matches Ok(code)
            &&& code.len() == 4
            &&& decode_spec(word_at(code, 0)) matches Ok(i)
            &&& i matches Instruction::RType { funct, rd, rs, rt, shamt }
            &&& funct_name(funct) == m && rd == a && rs == b && rt == c && shamt == 0
            &&& disassembly(i) == m + " R"@ + dec(a as nat) + ", R"@ + dec(b as nat) + ", R"@ + dec(c as nat)
        }),
{
    lemma_register_mnemonic(m);
    let t = line_tokens(m, a, b, Tok::Register(c));
    let parsed = Asm::RType { mnemonic: m, rd: a, rs: b, rt: c };
    assert(parse_instruction(t, 0) == Ok::<(Option<Asm>, nat), Seq<char>>((Some(parsed), 6nat)));
    lemma_single_line(t, parsed);
    lemma_mnemonic_names(m);
    let f = funct_of(m)->0;
    let i = Instruction::RType { funct: f, rd: a, rs: b, rt: c, shamt: 0 };
    assert(assemble_one(base, parsed, Seq::empty()) == Ok::<Instruction, Seq<char>>(i));
    lemma_single_code(base, parsed, i);
}

/// What assembling a source text gives: machine code, or the failure's text (a parse error or an
/// assembler error).
pub enum AssembleOutcome {
    /// Machine code
    Code(Seq<u8>),
    /// A parse error's text
    ParseFailed(Seq<char>),
    /// An assembler error's text
    AssemblyFailed(Seq<char>),
}

/// Outcome of assembling a source text at a base address.
pub open spec fn assemble_spec(base: u32, source: Seq<char>) -> AssembleOutcome {
    match parse_from(tokenize_spec(source), 0, Seq::empty(), Seq::empty()) {
        ParseOutcome::Done(is, ls) => match assemble_all(base, is, ls) {
            Ok(code) => AssembleOutcome::Code(code),
            Err(e) => AssembleOutcome::AssemblyFailed(e),
        },
        ParseOutcome::Failed(e) => AssembleOutcome::ParseFailed(e),
        ParseOutcome::Stuck => AssembleOutcome::ParseFailed(Seq::empty()),
    }
}

/// Whether a source can be assembled at a base address without the parse running forever
/// (a token that starts no instruction) or a jump address leaving the address space.
pub open spec fn assemblable(base: u32, source: Seq<char>) -> bool {
    match parse_from(tokenize_spec(source), 0, Seq::empty(), Seq::empty()) {
        ParseOutcome::Done(is, ls) => jumps_fit(base, is, ls),
        ParseOutcome::Failed(_) => true,
        ParseOutcome::Stuck => false,
    }
}

fn funct_for(m: &str) -> (r: Option<Funct>)
    ensures
        r == funct_of(m@),
{
    if str_eq(m, "ADD") { Some(Funct::ADD) }
    else if str_eq(m, "SUB") { Some(Funct::SUB) }
    else if str_eq(m, "MUL") { Some(Funct::MUL) }
    else if str_eq(m, "DIV") { Some(Funct::DIV) }
    else if str_eq(m, "AND") { Some(Funct::AND) }
    else if str_eq(m, "OR") { Some(Funct::OR) }
    else if str_eq(m, "XOR") { Some(Funct::XOR) }
    else if str_eq(m, "NOT") { Some(Funct::NOT) }
    else if str_eq(m, "SLL") { Some(Funct::SLL) }
    else if str_eq(m, "SRL") { Some(Funct::SRL) }
    else if str_eq(m, "SRA") { Some(Funct::SRA) }
    else if str_eq(m, "SLT") { Some(Funct::SLT) }
    else if str_eq(m, "SGT") { Some(Funct::SGT) }
    else { None }
}

fn opcode_for(m: &str) -> (r: Option<Opcode>)
    ensures
        r == opcode_of(m@),
{
    if str_eq(m, "ADDI") { Some(Opcode::ADDI) }
    else if str_eq(m, "SUBI") { Some(Opcode::SUBI) }
    else if str_eq(m, "ANDI") { Some(Opcode::ANDI) }
    else if str_eq(m, "ORI") { Some(Opcode::ORI) }
    else if str_eq(m, "XORI") { Some(Opcode::XORI) }
    else if str_eq(m, "LUI") { Some(Opcode::LUI) }
    else if str_eq(m, "LW") { Some(Opcode::LW) }
    else if str_eq(m, "SW") { Some(Opcode::SW) }
    else if str_eq(m, "LB") { Some(Opcode::LB) }
    else if str_eq(m, "SB") { Some(Opcode::SB) }
    else if str_eq(m, "BEQ") { Some(Opcode::BEQ) }
    else if str_eq(m, "BNE") { Some(Opcode::BNE) }
    else if str_eq(m, "BLT") { Some(Opcode::BLT) }
    else if str_eq(m, "BGT") { Some(Opcode::BGT) }
    else if str_eq(m, "BLE") { Some(Opcode::BLE) }
    else if str_eq(m, "BGE") { Some(Opcode::BGE) }
    else if str_eq(m, "J") { Some(Opcode::J) }
    else if str_eq(m, "JAL") { Some(Opcode::JAL) }
    else if str_eq(m, "SYSCALL") { Some(Opcode::SYSCALL) }
    else if str_eq(m, "BREAK") { Some(Opcode::BREAK) }
    else if str_eq(m, "HALT") { Some(Opcode::HALT) }
    else if str_eq(m, "NOP") { Some(Opcode::NOP) }
    else { None }
}

fn target_number_exec(s: &str) -> (r: Option<u32>)
    ensures
        r == target_number(s@),
{
    let chars = str_to_chars(s);
    let plus = chars.len() > 0 && chars[0] == '+';
    let start: usize = if plus { 1 } else { 0 };
    let mut digits: Vec<char> = Vec::new();
    let mut i: usize = start;
    while i < chars.len()
        invariant
            start <= i <= chars@.len(),
            start == (if plus { 1usize } else { 0usize }),
            plus ==> chars@.len() > 0,
            digits@ == chars@.subrange(start as int, i as int),
        decreases chars@.len() - i,
    {
        digits.push(chars[i]);
        i += 1;
        assert(digits@ =~= chars@.subrange(start as int, i as int));
    }
    assert(plus ==> digits@ =~= s@.drop_first());
    assert(!plus ==> digits@ =~= s@);
    let mut j: usize = 0;
    while j < digits.len()
        invariant
            j <= digits@.len(),
            digits@ == (if s@.len() > 0 && s@[0] == '+' { s@.drop_first() } else { s@ }),
            forall|k: int| 0 <= k < j ==> is_digit(#[trigger] digits@[k]),
        decreases digits@.len() - j,
    {
        if !('0' <= digits[j] && digits[j] <= '9') {
            proof {
                let d = if s@.len() > 0 && s@[0] == '+' { s@.drop_first() } else { s@ };
                assert(!is_digit(d[j as int]));
                assert(!all_digits(d));
            }
            return None;
        }
        j += 1;
    }
    match read_number(&digits, 10, 0xFFFF_FFFF) {
        Some(v) => Some(v as u32),
        None => None,
    }
}

fn le_bytes_exec(w: u32) -> (b: [u8; 4])
    ensures
        b@ == le_bytes(w),
{
    let b = [(w & 0xFF) as u8, ((w >> 8) & 0xFF) as u8, ((w >> 16) & 0xFF) as u8, ((w >> 24) & 0xFF) as u8];
    assert(b@ =~= le_bytes(w));
    b
}

fn assembler_error(prefix: &str, s: &str) -> (r: VosError)
    ensures
        r matches VosError::Assembler(t) && t@ == prefix@ + s@,
{
    let mut v: Vec<char> = Vec::new();
    push_str(&mut v, prefix);
    push_str(&mut v, s);
    VosError::Assembler(chars_to_string(&v))
}

/// The assembler, placing code at a base address.
pub struct Assembler {
    /// Base address of the code (0 by default)
    base_address: u32,
}

impl Assembler {
    /// The base address.
    pub closed spec fn base(&self) -> u32 {
        self.base_address
    }

    /// An assembler placing code at address 0.
    pub fn new() -> (a: Self)
        ensures
            a.base() == 0,
    {
        Self { base_address: 0 }
    }

    /// The same assembler placing code at `address`.
    pub fn with_base_address(self, address: u32) -> (a: Self)
        ensures
            a.base() == address,
    {
        let mut s = self;
        s.base_address = address;
        s
    }

    /// Assembles source text into little-endian machine code, four bytes per instruction.
    pub fn assemble(&self, source: &str) -> (r: Result<Vec<u8>, VosError>)
        requires
            assemblable(self.base(), source@),
        ensures
            match assemble_spec(self.base(), source@) {
                AssembleOutcome::Code(code) => r is Ok && r->Ok_0@ == code,
                AssembleOutcome::ParseFailed(e) => crate::error::fails_with(r, e),
                AssembleOutcome::AssemblyFailed(e) => fails_asm(r, e),
            },
    {
        let mut parser = Parser::new(source);
        let program = match parser.parse() {
            Ok(p) => p,
            Err(e) => return Err(e),
        };
        proof {
            if let ParseOutcome::Done(is, ls) = parse_from(tokenize_spec(source@), 0, Seq::empty(), Seq::empty()) {
                assert(Seq::new(program.instructions@.len(), |i: int| program.instructions@[i]@) =~= is);
            }
        }
        self.assemble_program(&program)
    }

    /// Whether `assemble` may be called on `source`: its parse comes to an end and every jump
    /// to a label lands within the address space.
    pub fn can_assemble(&self, source: &str) -> (b: bool)
        ensures
            b == assemblable(self.base(), source@),
    {
        let mut parser = Parser::new(source);
        if !parser.parse_ends() {
            return false;
        }
        match parser.parse() {
            Ok(program) => {
                proof {
                    if let ParseOutcome::Done(is, ls) = parse_from(tokenize_spec(source@), 0, Seq::empty(), Seq::empty()) {
                        assert(Seq::new(program.instructions@.len(), |i: int| program.instructions@[i]@) =~= is);
                    }
                }
                self.jumps_fit_in(&program)
            },
            Err(_) => true,
        }
    }

    fn jumps_fit_in(&self, program: &Program) -> (b: bool)
        ensures
            b == jumps_fit(self.base(), Seq::new(program.instructions@.len(), |i: int| program.instructions@[i]@), program.label_list()),
    {
        let ghost all = Seq::new(program.instructions@.len(), |i: int| program.instructions@[i]@);
        let ghost base = self.base();
        let room: usize = ((u32::MAX - self.base_address) / 4) as usize;
        let mut i: usize = 0;
        while i < program.instructions.len()
            invariant
                i <= program.instructions@.len(),
                all == Seq::new(program.instructions@.len(), |i: int| program.instructions@[i]@),
                base == self.base(),
                room == (u32::MAX - base) / 4,
                forall|k: int| 0 <= k < i ==> (#[trigger] all[k] matches Asm::JType { target, .. }
                    ==> (label_lookup(program.label_list(), target) matches Some(idx) ==> base + idx * 4 <= u32::MAX)),
            decreases program.instructions@.len() - i,
        {
            match &program.instructions[i] {
                AsmInstruction::JType { target, .. } => {
                    if let Some(idx) = program.label(target.as_str()) {
                        if idx > room {
                            assert(base + idx * 4 > u32::MAX) by (nonlinear_arith)
                                requires
                                    idx > room,
                                    room == (u32::MAX - base) / 4,
                                    base <= u32::MAX;
                            assert(all[i as int] matches Asm::JType { .. });
                            return false;
                        }
                        assert(base + idx * 4 <= u32::MAX) by (nonlinear_arith)
                            requires
                                idx <= room,
                                room == (u32::MAX - base) / 4,
                                base <= u32::MAX;
                    }
                },
                _ => {},
            }
            i += 1;
        }
        true
    }

    fn assemble_program(&self, program: &Program) -> (r: Result<Vec<u8>, VosError>)
        requires
            jumps_fit(self.base(), Seq::new(program.instructions@.len(), |i: int| program.instructions@[i]@), program.label_list()),
        ensures
            match assemble_all(self.base(), Seq::new(program.instructions@.len(), |i: int| program.instructions@[i]@), program.label_list()) {
                Ok(code) => r is Ok && r->Ok_0@ == code,
                Err(e) => fails_asm(r, e),
            },
    {
        let ghost all = Seq::new(program.instructions@.len(), |i: int| program.instructions@[i]@);
        let mut code: Vec<u8> = Vec::new();
        let mut index: usize = 0;
        while index < program.instructions.len()
            invariant
                index <= program.instructions@.len(),
                all == Seq::new(program.instructions@.len(), |i: int| program.instructions@[i]@),
                jumps_fit(self.base(), all, program.label_list()),
                assemble_all(self.base(), all.subrange(0, index as int), program.label_list()) == Ok::<Seq<u8>, Seq<char>>(code@),
            decreases program.instructions@.len() - index,
        {
            proof {
                assert(all.subrange(0, index + 1).drop_last() =~= all.subrange(0, index as int));
                assert(all.subrange(0, index + 1).last() == all[index as int]);
            }
            let instruction = match self.assemble_instruction(&program.instructions[index], program) {
                Ok(i) => i,
                Err(e) => {
                    proof {
                        lemma_first_error_stays(self.base(), all, program.label_list(), (index + 1) as nat);
                    }
                    return Err(e);
                },
            };
            let word = instruction.encode();
            let bytes = le_bytes_exec(word);
            code.push(bytes[0]);
            code.push(bytes[1]);
            code.push(bytes[2]);
            code.push(bytes[3]);
            index += 1;
            assert(code@ =~= assemble_all(self.base(), all.subrange(0, index as int), program.label_list())->Ok_0);
        }
        assert(all.subrange(0, index as int) =~= all);
        Ok(code)
    }

    fn assemble_instruction(&self, instr: &AsmInstruction, program: &Program) -> (r: Result<Instruction, VosError>)
        requires
            instr@ matches Asm::JType { target, .. } ==> (label_lookup(program.label_list(), target) matches Some(idx)
                ==> self.base() + idx * 4 <= u32::MAX),
        ensures
            match assemble_one(self.base(), instr@, program.label_list()) {
                Ok(i) => r == Ok::<Instruction, VosError>(i),
                Err(e) => fails_asm(r, e),
            },
    {
        match instr {
            AsmInstruction::RType { mnemonic, rd, rs, rt } => match funct_for(mnemonic.as_str()) {
                Some(funct) => Ok(Instruction::RType { funct, rd: *rd, rs: *rs, rt: *rt, shamt: 0 }),
                None => Err(assembler_error("Unknown mnemonic: ", mnemonic.as_str())),
            },
            AsmInstruction::IType { mnemonic, rt, rs, immediate } => match opcode_for(mnemonic.as_str()) {
                Some(opcode) => Ok(Instruction::IType { opcode, rt: *rt, rs: *rs, immediate: *immediate }),
                None => Err(assembler_error("Unknown mnemonic: ", mnemonic.as_str())),
            },
            AsmInstruction::JType { mnemonic, target } => match opcode_for(mnemonic.as_str()) {
                Some(opcode) => {
                    let address = match program.label(target.as_str()) {
                        Some(label_pc) => self.base_address + (label_pc as u32 * 4),
                        None => match target_number_exec(target.as_str()) {
                            Some(v) => v,
                            None => return Err(assembler_error("Undefined label: ", target.as_str())),
                        },
                    };
                    Ok(Instruction::JType { opcode, address })
                },
                None => Err(assembler_error("Unknown mnemonic: ", mnemonic.as_str())),
            },
            AsmInstruction::ZeroOp { mnemonic } => match opcode_for(mnemonic.as_str()) {
                Some(opcode) => Ok(Instruction::IType { opcode, rt: 0, rs: 0, immediate: 0 }),
                None => Err(assembler_error("Unknown mnemonic: ", mnemonic.as_str())),
            },
        }
    }
}

/// Once an instruction fails, assembling any longer prefix fails with the first error.
proof fn lemma_first_error_stays(base: u32, all: Seq<Asm>, labels: Seq<(Seq<char>, usize)>, k: nat)
    requires
        k <= all.len(),
        assemble_all(base, all.subrange(0, k as int), labels) is Err,
    ensures
        assemble_all(base, all, labels) == assemble_all(base, all.subrange(0, k as int), labels),
    decreases all.len() - k,
{
    if k < all.len() {
        assert(all.subrange(0, (k + 1) as int).drop_last() =~= all.subrange(0, k as int));
        lemma_first_error_stays(base, all, labels, k + 1);
    } else {
        assert(all.subrange(0, k as int) =~= all);
    }
}

impl Default for Assembler {
    /// An assembler placing code at address 0.
    fn default() -> (a: Self)
        ensures
            a.base() == 0,
    {
        Self::new()
    }
}

/// Assembles source text at base address 0.
pub fn assemble(source: &str) -> (r: Result<Vec<u8>, VosError>)
    requires
        assemblable(0, source@),
    ensures
        match assemble_spec(0, source@) {
            AssembleOutcome::Code(code) => r is Ok && r->Ok_0@ == code,
            AssembleOutcome::ParseFailed(e) => crate::error::fails_with(r, e),
            AssembleOutcome::AssemblyFailed(e) => fails_asm(r, e),
        },
{
    Assembler::new().assemble(source)
}

} // verus!
