//! Parsing assembly tokens into instructions and label definitions.
use vstd::prelude::*;
use crate::assembly::lexer::{Lexer, Tok, Token, all_upper, next_tok, tokenize_spec, tokens_from};
use crate::chars::{is_digit, read_digits, read_number};
use crate::error::{VosError, fails_with};
use crate::text::{chars_to_string, dec, dec_signed, push_dec, push_dec_signed, push_str, str_eq, str_to_chars};

verus! {

/// A parsed instruction, still naming its mnemonic and labels by text.
#[derive(Debug, Clone, PartialEq, Eq)]
pub enum AsmInstruction {
    /// Register-register instruction
    RType { mnemonic: String, rd: u8, rs: u8, rt: u8 },
    /// Instruction with an immediate
    IType { mnemonic: String, rt: u8, rs: u8, immediate: i32 },
    /// Jump to a label
    JType { mnemonic: String, target: String },
    /// Instruction without operands (HALT, NOP, ...)
    ZeroOp { mnemonic: String },
}

/// A parsed instruction as a value.
pub enum Asm {
    /// Register-register instruction
    RType { mnemonic: Seq<char>, rd: u8, rs: u8, rt: u8 },
    /// Instruction with an immediate
    IType { mnemonic: Seq<char>, rt: u8, rs: u8, immediate: i32 },
    /// Jump to a label
    JType { mnemonic: Seq<char>, target: Seq<char> },
    /// Instruction without operands
    ZeroOp { mnemonic: Seq<char> },
}

impl View for AsmInstruction {
    type V = Asm;

    open spec fn view(&self) -> Asm {
        match self {
            AsmInstruction::RType { mnemonic, rd, rs, rt } => Asm::RType { mnemonic: mnemonic@, rd: *rd, rs: *rs, rt: *rt },
            AsmInstruction::IType { mnemonic, rt, rs, immediate } => Asm::IType { mnemonic: mnemonic@, rt: *rt, rs: *rs, immediate: *immediate },
            AsmInstruction::JType { mnemonic, target } => Asm::JType { mnemonic: mnemonic@, target: target@ },
            AsmInstruction::ZeroOp { mnemonic } => Asm::ZeroOp { mnemonic: mnemonic@ },
        }
    }
}

/// A parsed program: instructions in order and where each label points.
#[derive(Debug)]
pub struct Program {
    /// Instructions in order
    pub instructions: Vec<AsmInstruction>,
    /// Labels and the index of the instruction each one names; each name once
    pub labels: Vec<(String, usize)>,
}

/// Index of the label entry with the given name.
pub open spec fn label_pos(labels: Seq<(Seq<char>, usize)>, name: Seq<char>, from: nat) -> Option<nat>
    decreases labels.len() - from,
{
    if from >= labels.len() {
        None
    } else if labels[from as int].0 == name {
        Some(from)
    } else {
        label_pos(labels, name, from + 1)
    }
}

/// Label lookup.
pub open spec fn label_lookup(labels: Seq<(Seq<char>, usize)>, name: Seq<char>) -> Option<usize> {
    match label_pos(labels, name, 0) {
        Some(i) => Some(labels[i as int].1),
        None => None,
    }
}

/// Labels after defining `name` at `index`: an existing definition is replaced in place,
/// a new one is added at the end.
pub open spec fn label_define(labels: Seq<(Seq<char>, usize)>, name: Seq<char>, index: usize) -> Seq<(Seq<char>, usize)> {
    match label_pos(labels, name, 0) {
        Some(i) => labels.update(i as int, (name, index)),
        None => labels.push((name, index)),
    }
}

proof fn lemma_label_pos(labels: Seq<(Seq<char>, usize)>, name: Seq<char>, from: nat)
    ensures
        label_pos(labels, name, from) matches Some(i) ==> from <= i < labels.len() && labels[i as int].0 == name
            && forall|j: int| from <= j < i ==> labels[j].0 != name,
        label_pos(labels, name, from) is None ==> forall|j: int| from <= j < labels.len() ==> labels[j].0 != name,
    decreases labels.len() - from,
{
    if from < labels.len() {
        lemma_label_pos(labels, name, from + 1);
    }
}

/// The first entry at or after `from` with the name is found.
proof fn lemma_label_pos_first(labels: Seq<(Seq<char>, usize)>, name: Seq<char>, from: nat, k: int)
    requires
        from <= k < labels.len(),
        labels[k].0 == name,
        forall|j: int| from <= j < k ==> labels[j].0 != name,
    ensures
        label_pos(labels, name, from) == Some(k as nat),
    decreases k - from,
{
    if from < k {
        lemma_label_pos_first(labels, name, from + 1, k);
    }
}

/// No two label entries have the same name.
pub open spec fn labels_distinct(labels: Seq<(Seq<char>, usize)>) -> bool {
    forall|i: int, j: int| 0 <= i < j < labels.len() ==> #[trigger] labels[i].0 != #[trigger] labels[j].0
}

/// Defining a label keeps the names distinct, and looking the name up afterwards gives the
/// index it was defined at.
pub proof fn lemma_label_define(labels: Seq<(Seq<char>, usize)>, name: Seq<char>, index: usize)
    requires
        labels_distinct(labels),
    ensures
        labels_distinct(label_define(labels, name, index)),
        label_lookup(label_define(labels, name, index), name) == Some(index),
{
    lemma_label_pos(labels, name, 0);
    let d = label_define(labels, name, index);
    match label_pos(labels, name, 0) {
        Some(i) => {
            assert forall|a: int, b: int| 0 <= a < b < d.len() implies #[trigger] d[a].0 != #[trigger] d[b].0 by {
                assert(labels[a].0 != labels[b].0);
            }
            lemma_label_pos_first(d, name, 0, i as int);
        },
        None => {
            assert forall|a: int, b: int| 0 <= a < b < d.len() implies #[trigger] d[a].0 != #[trigger] d[b].0 by {
                if b < labels.len() {
                    assert(labels[a].0 != labels[b].0);
                }
            }
            lemma_label_pos_first(d, name, 0, labels.len() as int);
        },
    }
}

impl Program {
    /// The label entries as values.
    pub open spec fn label_list(&self) -> Seq<(Seq<char>, usize)> {
        Seq::new(self.labels@.len(), |i: int| (self.labels@[i].0@, self.labels@[i].1))
    }

    /// Index of the instruction a label names.
    pub fn label(&self, name: &str) -> (r: Option<usize>)
        ensures
            r == label_lookup(self.label_list(), name@),
    {
        let mut i: usize = 0;
        while i < self.labels.len()
            invariant
                i <= self.labels@.len(),
                label_lookup(self.label_list(), name@) == match label_pos(self.label_list(), name@, i as nat) {
                    Some(k) => Some(self.label_list()[k as int].1),
                    None => None,
                },
            decreases self.labels@.len() - i,
        {
            if str_eq(self.labels[i].0.as_str(), name) {
                return Some(self.labels[i].1);
            }
            i += 1;
        }
        None
    }
}

/// Debug text of a string (quoted and escaped).
pub uninterp spec fn string_debug(s: Seq<char>) -> Seq<char>;

/// `format!("{:?}", ..)` on a string: the quoted, escaped text; a string of ASCII letters, digits
/// and `_` is just quoted.
#[verifier::external_body]
fn debug_text(s: &str) -> (r: String)
    ensures
        r@ == string_debug(s@),
        (forall|i: int| 0 <= i < s@.len() ==> ('a' <= #[trigger] s@[i] <= 'z') || ('A' <= s@[i] <= 'Z') || ('0' <= s@[i] <= '9') || s@[i] == '_')
            ==> r@ == seq!['"'] + s@ + seq!['"'],
{
    format!("{:?}", s)
}

/// Debug text of a token.
pub open spec fn tok_debug(t: Tok) -> Seq<char> {
    match t {
        Tok::Mnemonic(s) => "Mnemonic("@ + string_debug(s) + ")"@,
        Tok::Register(r) => "Register("@ + dec(r as nat) + ")"@,
        Tok::Number(n) => "Number("@ + dec_signed(n as int) + ")"@,
        Tok::Label(s) => "Label("@ + string_debug(s) + ")"@,
        Tok::LabelDef(s) => "LabelDef("@ + string_debug(s) + ")"@,
        Tok::Comma => "Comma"@,
        Tok::Newline => "Newline"@,
        Tok::Eof => "Eof"@,
    }
}

/// Token at a position; `Eof` past the end.
pub open spec fn cur(t: Seq<Tok>, p: nat) -> Tok {
    if p < t.len() { t[p as int] } else { Tok::Eof }
}

/// First position at or after `p` that is not a newline.
pub open spec fn skip_nl(t: Seq<Tok>, p: nat) -> nat
    decreases t.len() - p,
{
    if p < t.len() && t[p as int] is Newline { skip_nl(t, p + 1) } else { p }
}

proof fn lemma_skip_nl(t: Seq<Tok>, p: nat)
    ensures
        p <= skip_nl(t, p),
        p <= t.len() ==> skip_nl(t, p) <= t.len(),
        !(cur(t, skip_nl(t, p)) is Newline),
    decreases t.len() - p,
{
    if p < t.len() && t[p as int] is Newline {
        lemma_skip_nl(t, p + 1);
    }
}

/// A register operand, or the error naming what stood there.
pub open spec fn expect_register(t: Seq<Tok>, p: nat) -> Result<(u8, nat), Seq<char>> {
    match cur(t, p) {
        Tok::Register(r) => Ok((r, p + 1)),
        other => Err("Expected register, got "@ + tok_debug(other)),
    }
}

/// A comma, or the error naming what stood there.
pub open spec fn expect_comma(t: Seq<Tok>, p: nat) -> Result<nat, Seq<char>> {
    match cur(t, p) {
        Tok::Comma => Ok(p + 1),
        other => Err("Expected comma, got "@ + tok_debug(other)),
    }
}

/// A number operand, or the error naming what stood there.
pub open spec fn expect_number(t: Seq<Tok>, p: nat) -> Result<(i32, nat), Seq<char>> {
    match cur(t, p) {
        Tok::Number(n) => Ok((n, p + 1)),
        other => Err("Expected number, got "@ + tok_debug(other)),
    }
}

/// Mnemonics without operands.
pub open spec fn is_zero_op(m: Seq<char>) -> bool {
    m == "HALT"@ || m == "NOP"@ || m == "SYSCALL"@ || m == "BREAK"@
}

/// Mnemonics taking three registers.
pub open spec fn is_rtype(m: Seq<char>) -> bool {
    m == "ADD"@ || m == "SUB"@ || m == "MUL"@ || m == "DIV"@ || m == "AND"@ || m == "OR"@ || m == "XOR"@
        || m == "SLL"@ || m == "SRL"@ || m == "SRA"@ || m == "SLT"@ || m == "SGT"@
}

/// Mnemonics taking two registers and a number.
pub open spec fn is_itype(m: Seq<char>) -> bool {
    m == "ADDI"@ || m == "SUBI"@ || m == "ANDI"@ || m == "ORI"@ || m == "XORI"@ || m == "LUI"@ || m == "LW"@
        || m == "SW"@ || m == "LB"@ || m == "SB"@
}

/// Branch mnemonics: two registers and a label or offset.
pub open spec fn is_branch(m: Seq<char>) -> bool {
    m == "BEQ"@ || m == "BNE"@ || m == "BLT"@ || m == "BGT"@ || m == "BLE"@ || m == "BGE"@
}

/// Jump mnemonics: a label.
pub open spec fn is_jump(m: Seq<char>) -> bool {
    m == "J"@ || m == "JAL"@
}

/// Value of a label text read as a signed decimal number: 0 unless it is digits (with an
/// optional sign) in `i32` range.
pub open spec fn label_number(s: Seq<char>) -> i32 {
    if s.len() > 0 && (s[0] == '-' || s[0] == '+') {
        let d = s.drop_first();
        if forall|i: int| 0 <= i < d.len() ==> is_digit(#[trigger] d[i]) {
            if s[0] == '-' {
                match read_digits(d, 10, 0x8000_0000) { Some(v) => (-(v as int)) as i32, None => 0 }
            } else {
                match read_digits(d, 10, 0x7FFF_FFFF) { Some(v) => v as i32, None => 0 }
            }
        } else {
            0
        }
    } else if forall|i: int| 0 <= i < s.len() ==> is_digit(#[trigger] s[i]) {
        match read_digits(s, 10, 0x7FFF_FFFF) { Some(v) => v as i32, None => 0 }
    } else {
        0
    }
}

/// The operands of a three-register instruction.
pub open spec fn parse_r(t: Seq<Tok>, p: nat, m: Seq<char>) -> Result<(Asm, nat), Seq<char>> {
    match expect_register(t, p) {
        Err(e) => Err(e),
        Ok((rd, p1)) => match expect_comma(t, p1) {
            Err(e) => Err(e),
            Ok(p2) => match expect_register(t, p2) {
                Err(e) => Err(e),
                Ok((rs, p3)) => match expect_comma(t, p3) {
                    Err(e) => Err(e),
                    Ok(p4) => match expect_register(t, p4) {
                        Err(e) => Err(e),
                        Ok((rt, p5)) => Ok((Asm::RType { mnemonic: m, rd, rs, rt }, p5)),
                    },
                },
            },
        },
    }
}

/// The operands of a register-register-number instruction.
pub open spec fn parse_i(t: Seq<Tok>, p: nat, m: Seq<char>) -> Result<(Asm, nat), Seq<char>> {
    match expect_register(t, p) {
        Err(e) => Err(e),
        Ok((rt, p1)) => match expect_comma(t, p1) {
            Err(e) => Err(e),
            Ok(p2) => match expect_register(t, p2) {
                Err(e) => Err(e),
                Ok((rs, p3)) => match expect_comma(t, p3) {
                    Err(e) => Err(e),
                    Ok(p4) => match expect_number(t, p4) {
                        Err(e) => Err(e),
                        Ok((imm, p5)) => Ok((Asm::IType { mnemonic: m, rt, rs, immediate: imm }, p5)),
                    },
                },
            },
        },
    }
}

/// The operands of a branch: two registers, then a label (read as a number, so usually 0) or an
/// offset.
pub open spec fn parse_b(t: Seq<Tok>, p: nat, m: Seq<char>) -> Result<(Asm, nat), Seq<char>> {
    match expect_register(t, p) {
        Err(e) => Err(e),
        Ok((rs, p1)) => match expect_comma(t, p1) {
            Err(e) => Err(e),
            Ok(p2) => match expect_register(t, p2) {
                Err(e) => Err(e),
                Ok((rt, p3)) => match expect_comma(t, p3) {
                    Err(e) => Err(e),
                    Ok(p4) => match cur(t, p4) {
                        Tok::Label(l) => Ok((Asm::IType { mnemonic: m, rt, rs, immediate: label_number(l) }, p4 + 1)),
                        Tok::Number(n) => Ok((Asm::IType { mnemonic: m, rt, rs, immediate: n }, p4 + 1)),
                        _ => Err("Expected label or offset for branch"@),
                    },
                },
            },
        },
    }
}

/// The operand of a jump.
pub open spec fn parse_j(t: Seq<Tok>, p: nat, m: Seq<char>) -> Result<(Asm, nat), Seq<char>> {
    match cur(t, p) {
        Tok::Label(l) => Ok((Asm::JType { mnemonic: m, target: l }, p + 1)),
        _ => Err("Expected label for jump"@),
    }
}

/// One instruction at `p`: `None` (nothing consumed) unless a mnemonic stands there.
pub open spec fn parse_instruction(t: Seq<Tok>, p: nat) -> Result<(Option<Asm>, nat), Seq<char>> {
    match cur(t, p) {
        Tok::Mnemonic(m) => {
            let p1 = p + 1;
            let r = if is_zero_op(m) {
                Ok((Asm::ZeroOp { mnemonic: m }, p1))
            } else if is_rtype(m) {
                parse_r(t, p1, m)
            } else if is_itype(m) {
                parse_i(t, p1, m)
            } else if is_branch(m) {
                parse_b(t, p1, m)
            } else if is_jump(m) {
                parse_j(t, p1, m)
            } else {
                Err("Unknown mnemonic: "@ + m)
            };
            match r {
                Ok((i, q)) => Ok((Some(i), q)),
                Err(e) => Err(e),
            }
        },
        _ => Ok((None, p)),
    }
}

/// Outcome of parsing a token sequence.
pub enum ParseOutcome {
    /// Instructions and labels
    Done(Seq<Asm>, Seq<(Seq<char>, usize)>),
    /// The error message
    Failed(Seq<char>),
    /// A token that can start no instruction stands where one should: the parse would not end
    Stuck,
}

/// Parses from `p`, with the instructions and labels collected so far.
pub open spec fn parse_from(t: Seq<Tok>, p: nat, instrs: Seq<Asm>, labels: Seq<(Seq<char>, usize)>) -> ParseOutcome
    decreases t.len() - p,
{
    if cur(t, p) is Eof || p > t.len() {
        ParseOutcome::Done(instrs, labels)
    } else {
        let q = skip_nl(t, p);
        if cur(t, q) is Eof || q > t.len() {
            ParseOutcome::Done(instrs, labels)
        } else {
            match cur(t, q) {
                Tok::LabelDef(name) => {
                    let q2 = skip_nl(t, q + 1);
                    if q2 > p && q2 <= t.len() {
                        parse_from(t, q2, instrs, label_define(labels, name, instrs.len() as usize))
                    } else {
                        ParseOutcome::Stuck
                    }
                },
                _ => match parse_instruction(t, q) {
                    Err(e) => ParseOutcome::Failed(e),
                    Ok((oi, q2)) => {
                        let q3 = skip_nl(t, q2);
                        let instrs2 = match oi { Some(i) => instrs.push(i), None => instrs };
                        if q3 > p && q3 <= t.len() {
                            parse_from(t, q3, instrs2, labels)
                        } else {
                            ParseOutcome::Stuck
                        }
                    },
                },
            }
        }
    }
}

/// A finished parse defines each label name once.
pub proof fn lemma_parse_labels_distinct(t: Seq<Tok>, p: nat, instrs: Seq<Asm>, labels: Seq<(Seq<char>, usize)>)
    requires
        labels_distinct(labels),
    ensures
        parse_from(t, p, instrs, labels) matches ParseOutcome::Done(is, ls) ==> labels_distinct(ls),
    decreases t.len() - p,
{
    if !(cur(t, p) is Eof || p > t.len()) {
        let q = skip_nl(t, p);
        if !(cur(t, q) is Eof || q > t.len()) {
            match cur(t, q) {
                Tok::LabelDef(name) => {
                    let q2 = skip_nl(t, q + 1);
                    if q2 > p && q2 <= t.len() {
                        lemma_label_define(labels, name, instrs.len() as usize);
                        lemma_parse_labels_distinct(t, q2, instrs, label_define(labels, name, instrs.len() as usize));
                    }
                },
                _ => match parse_instruction(t, q) {
                    Err(e) => {},
                    Ok((oi, q2)) => {
                        let q3 = skip_nl(t, q2);
                        if q3 > p && q3 <= t.len() {
                            let a = match oi { Some(i) => instrs.push(i), None => instrs };
                            lemma_parse_labels_distinct(t, q3, a, labels);
                        }
                    },
                },
            }
        }
    }
}

/// Whether a parse gets stuck does not depend on what was collected before.
proof fn lemma_stuck_whatever_collected(t: Seq<Tok>, p: nat, i1: Seq<Asm>, l1: Seq<(Seq<char>, usize)>,
    i2: Seq<Asm>, l2: Seq<(Seq<char>, usize)>)
    ensures
        (parse_from(t, p, i1, l1) is Stuck) == (parse_from(t, p, i2, l2) is Stuck),
    decreases t.len() - p,
{
    if !(cur(t, p) is Eof || p > t.len()) {
        let q = skip_nl(t, p);
        if !(cur(t, q) is Eof || q > t.len()) {
            match cur(t, q) {
                Tok::LabelDef(name) => {
                    let q2 = skip_nl(t, q + 1);
                    if q2 > p && q2 <= t.len() {
                        lemma_stuck_whatever_collected(t, q2, i1, label_define(l1, name, i1.len() as usize),
                            i2, label_define(l2, name, i2.len() as usize));
                    }
                },
                _ => match parse_instruction(t, q) {
                    Err(e) => {},
                    Ok((oi, q2)) => {
                        let q3 = skip_nl(t, q2);
                        if q3 > p && q3 <= t.len() {
                            let a = match oi { Some(i) => i1.push(i), None => i1 };
                            let b = match oi { Some(i) => i2.push(i), None => i2 };
                            lemma_stuck_whatever_collected(t, q3, a, l1, b, l2);
                        }
                    },
                },
            }
        }
    }
}

/// Parser over the tokens of one source text.
pub struct Parser {
    /// Tokens of the source
    tokens: Vec<Token>,
    /// Current position
    position: usize,
}

/// Tokens of the parser as values.
pub open spec fn tok_seq(v: Seq<Token>) -> Seq<Tok> {
    Seq::new(v.len(), |i: int| v[i]@)
}

/// Every mnemonic token the lexer produces is upper case.
pub proof fn lemma_next_tok_upper(s: Seq<char>, p: nat)
    ensures
        next_tok(s, p).0 matches Tok::Mnemonic(m) ==> all_upper(m),
    decreases s.len() - p,
{
    let q = crate::assembly::lexer::skip_blank(s, p);
    if p <= s.len() && q < s.len() {
        let c = s[q as int];
        let r = crate::assembly::lexer::skip_comment(s, q);
        if c == ';' && r > p && r <= s.len() {
            lemma_next_tok_upper(s, r);
        } else if c != '\n' && c != ',' && c != ';' && !((c == 'R' || c == 'r') && q + 1 < s.len() && is_digit(s[(q + 1) as int]))
            && !(crate::chars::is_alpha(c) || c == '_') && !(is_digit(c) || c == '-') && q + 1 > p {
            lemma_next_tok_upper(s, q + 1);
        }
    }
}

/// Every mnemonic among the tokens of a text is upper case.
pub proof fn lemma_tokens_upper(s: Seq<char>, p: nat, n: nat)
    ensures
        forall|i: int| 0 <= i < tokens_from(s, p, n).len() ==> (#[trigger] tokens_from(s, p, n)[i] matches Tok::Mnemonic(m) ==> all_upper(m)),
    decreases n,
{
    if n > 0 {
        lemma_next_tok_upper(s, p);
        let (t, q) = next_tok(s, p);
        if !(t is Eof) {
            lemma_tokens_upper(s, q, (n - 1) as nat);
            assert forall|i: int| 0 <= i < tokens_from(s, p, n).len() implies (#[trigger] tokens_from(s, p, n)[i] matches Tok::Mnemonic(m) ==> all_upper(m)) by {
                if i > 0 {
                    assert(tokens_from(s, p, n)[i] == tokens_from(s, q, (n - 1) as nat)[i - 1]);
                }
            }
        }
    }
}

fn text(s: &str) -> (r: String)
    ensures
        r@ == s@,
{
    s.to_owned()
}

fn message(parts: &[&str]) -> (r: String)
    ensures
        parts@.len() == 2 ==> r@ == parts@[0]@ + parts@[1]@,
{
    let mut v: Vec<char> = Vec::new();
    let mut i: usize = 0;
    while i < parts.len()
        invariant
            i <= parts@.len(),
            parts@.len() == 2 && i >= 1 ==> v@ == parts@[0]@ + (if i == 2 { parts@[1]@ } else { Seq::<char>::empty() }),
            i == 0 ==> v@ == Seq::<char>::empty(),
        decreases parts@.len() - i,
    {
        push_str(&mut v, parts[i]);
        i += 1;
        assert(parts@.len() == 2 && i >= 1 ==> v@ =~= parts@[0]@ + (if i == 2 { parts@[1]@ } else { Seq::<char>::empty() }));
    }
    chars_to_string(&v)
}

/// Debug text of an optional token (`Eof` for none).
fn token_debug(t: Option<&Token>) -> (r: String)
    ensures
        r@ == tok_debug(match t { Some(tok) => tok@, None => Tok::Eof }),
{
    let mut v: Vec<char> = Vec::new();
    match t {
        Some(Token::Mnemonic(s)) => {
            push_str(&mut v, "Mnemonic(");
            push_str(&mut v, debug_text(s.as_str()).as_str());
            push_str(&mut v, ")");
        },
        Some(Token::Register(r)) => {
            push_str(&mut v, "Register(");
            push_dec(&mut v, *r as u64);
            push_str(&mut v, ")");
        },
        Some(Token::Number(n)) => {
            push_str(&mut v, "Number(");
            push_dec_signed(&mut v, *n as i64);
            push_str(&mut v, ")");
        },
        Some(Token::Label(s)) => {
            push_str(&mut v, "Label(");
            push_str(&mut v, debug_text(s.as_str()).as_str());
            push_str(&mut v, ")");
        },
        Some(Token::LabelDef(s)) => {
            push_str(&mut v, "LabelDef(");
            push_str(&mut v, debug_text(s.as_str()).as_str());
            push_str(&mut v, ")");
        },
        Some(Token::Comma) => push_str(&mut v, "Comma"),
        Some(Token::Newline) => push_str(&mut v, "Newline"),
        Some(Token::Eof) | None => push_str(&mut v, "Eof"),
    }
    chars_to_string(&v)
}

/// Reads a label text as a signed decimal number, 0 when it is not one.
fn label_number_exec(s: &str) -> (n: i32)
    ensures
        n == label_number(s@),
{
    let chars = str_to_chars(s);
    let signed = chars.len() > 0 && (chars[0] == '-' || chars[0] == '+');
    let mut digits: Vec<char> = Vec::new();
    let mut i: usize = if signed { 1 } else { 0 };
    let start = i;
    let mut all = true;
    while i < chars.len()
        invariant
            start <= i <= chars@.len(),
            start == (if signed { 1usize } else { 0usize }),
            signed ==> chars@.len() > 0,
            digits@ == chars@.subrange(start as int, i as int),
            all == forall|j: int| 0 <= j < digits@.len() ==> is_digit(#[trigger] digits@[j]),
        decreases chars@.len() - i,
    {
        let c = chars[i];
        if !('0' <= c && c <= '9') {
            all = false;
        }
        let ghost before = digits@;
        digits.push(c);
        i += 1;
        assert(digits@ =~= chars@.subrange(start as int, i as int));
        assert(digits@ == before.push(c));
        assert(all == forall|j: int| 0 <= j < digits@.len() ==> is_digit(#[trigger] digits@[j])) by {
            if all {
                assert forall|j: int| 0 <= j < digits@.len() implies is_digit(#[trigger] digits@[j]) by {
                    if j < before.len() { assert(digits@[j] == before[j]); }
                }
            } else if is_digit(c) {
                let j = choose|j: int| 0 <= j < before.len() && !is_digit(#[trigger] before[j]);
                assert(digits@[j] == before[j]);
            } else {
                assert(!is_digit(digits@[before.len() as int]));
            }
        }
    }
    assert(signed ==> digits@ =~= s@.drop_first());
    assert(!signed ==> digits@ =~= s@);
    if !all {
        return 0;
    }
    if signed && chars[0] == '-' {
        match read_number(&digits, 10, 0x8000_0000) {
            Some(v) => (0 - v as i64) as i32,
            None => 0,
        }
    } else {
        match read_number(&digits, 10, 0x7FFF_FFFF) {
            Some(v) => v as i32,
            None => 0,
        }
    }
}

impl Parser {
    /// The tokens as values.
    pub closed spec fn tokens(&self) -> Seq<Tok> {
        tok_seq(self.tokens@)
    }

    /// The current position.
    pub closed spec fn position(&self) -> nat {
        self.position as nat
    }

    /// Every mnemonic token is upper case, as the lexer makes them.
    pub open spec fn wf(&self) -> bool {
        forall|i: int| 0 <= i < self.tokens().len() ==> (#[trigger] self.tokens()[i] matches Tok::Mnemonic(m) ==> all_upper(m))
    }

    /// A parser over the tokens of `source`.
    pub fn new(source: &str) -> (p: Self)
        ensures
            p.wf(),
            p.tokens() == tokenize_spec(source@),
            p.position() == 0,
    {
        let mut lexer = Lexer::new(source);
        let tokens = lexer.tokenize();
        let p = Self { tokens, position: 0 };
        proof {
            lemma_tokens_upper(source@, 0, (source@.len() + 1) as nat);
            assert(p.tokens() =~= tokenize_spec(source@));
        }
        p
    }

    fn at(&self) -> (r: Option<&Token>)
        ensures
            self.position < self.tokens@.len() ==> r == Some(&self.tokens@[self.position as int]),
            self.position >= self.tokens@.len() ==> r is None,
            r is Some ==> self.position < self.tokens.len(),
            (match r { Some(tok) => tok@, None => Tok::Eof }) == cur(self.tokens(), self.position as nat),
    {
        if self.position < self.tokens.len() { Some(&self.tokens[self.position]) } else { None }
    }

    fn skip_newlines(&mut self)
        ensures
            final(self).tokens == old(self).tokens,
            final(self).position == skip_nl(old(self).tokens(), old(self).position as nat),
    {
        while self.position < self.tokens.len() && matches!(self.tokens[self.position], Token::Newline)
            invariant
                self.tokens == old(self).tokens,
                old(self).position <= self.position,
                skip_nl(self.tokens(), old(self).position as nat) == skip_nl(self.tokens(), self.position as nat),
            decreases self.tokens@.len() - self.position,
        {
            self.position += 1;
        }
    }

    fn expect_register(&mut self) -> (r: Result<u8, VosError>)
        ensures
            final(self).tokens == old(self).tokens,
            match expect_register(old(self).tokens(), old(self).position as nat) {
                Ok((v, q)) => r == Ok::<u8, VosError>(v) && final(self).position == q,
                Err(e) => fails_with(r, e),
            },
    {
        match self.at() {
            Some(Token::Register(v)) => {
                let v = *v;
                self.position += 1;
                Ok(v)
            },
            t => Err(VosError::Generic(message(&["Expected register, got ", token_debug(t).as_str()]))),
        }
    }

    fn expect_comma(&mut self) -> (r: Result<(), VosError>)
        ensures
            final(self).tokens == old(self).tokens,
            match expect_comma(old(self).tokens(), old(self).position as nat) {
                Ok(q) => r == Ok::<(), VosError>(()) && final(self).position == q,
                Err(e) => fails_with(r, e),
            },
    {
        match self.at() {
            Some(Token::Comma) => {
                self.position += 1;
                Ok(())
            },
            t => Err(VosError::Generic(message(&["Expected comma, got ", token_debug(t).as_str()]))),
        }
    }

    fn expect_number(&mut self) -> (r: Result<i32, VosError>)
        ensures
            final(self).tokens == old(self).tokens,
            match expect_number(old(self).tokens(), old(self).position as nat) {
                Ok((v, q)) => r == Ok::<i32, VosError>(v) && final(self).position == q,
                Err(e) => fails_with(r, e),
            },
    {
        match self.at() {
            Some(Token::Number(v)) => {
                let v = *v;
                self.position += 1;
                Ok(v)
            },
            t => Err(VosError::Generic(message(&["Expected number, got ", token_debug(t).as_str()]))),
        }
    }

    fn at_end(&self) -> (b: bool)
        ensures
            b == (cur(self.tokens(), self.position as nat) is Eof),
    {
        match self.at() {
            Some(Token::Eof) | None => true,
            _ => false,
        }
    }

    fn parse_rtype(&mut self, mnemonic: String) -> (r: Result<AsmInstruction, VosError>)
        ensures
            final(self).tokens == old(self).tokens,
            match parse_r(old(self).tokens(), old(self).position as nat, mnemonic@) {
                Ok((a, q)) => r is Ok && r->Ok_0@ == a && final(self).position == q,
                Err(e) => fails_with(r, e),
            },
    {
        let rd = match self.expect_register() { Ok(v) => v, Err(e) => return Err(e) };
        match self.expect_comma() { Ok(()) => {}, Err(e) => return Err(e) }
        let rs = match self.expect_register() { Ok(v) => v, Err(e) => return Err(e) };
        match self.expect_comma() { Ok(()) => {}, Err(e) => return Err(e) }
        let rt = match self.expect_register() { Ok(v) => v, Err(e) => return Err(e) };
        Ok(AsmInstruction::RType { mnemonic, rd, rs, rt })
    }

    fn parse_itype(&mut self, mnemonic: String) -> (r: Result<AsmInstruction, VosError>)
        ensures
            final(self).tokens == old(self).tokens,
            match parse_i(old(self).tokens(), old(self).position as nat, mnemonic@) {
                Ok((a, q)) => r is Ok && r->Ok_0@ == a && final(self).position == q,
                Err(e) => fails_with(r, e),
            },
    {
        let rt = match self.expect_register() { Ok(v) => v, Err(e) => return Err(e) };
        match self.expect_comma() { Ok(()) => {}, Err(e) => return Err(e) }
        let rs = match self.expect_register() { Ok(v) => v, Err(e) => return Err(e) };
        match self.expect_comma() { Ok(()) => {}, Err(e) => return Err(e) }
        let immediate = match self.expect_number() { Ok(v) => v, Err(e) => return Err(e) };
        Ok(AsmInstruction::IType { mnemonic, rt, rs, immediate })
    }

    fn parse_branch(&mut self, mnemonic: String) -> (r: Result<AsmInstruction, VosError>)
        ensures
            final(self).tokens == old(self).tokens,
            match parse_b(old(self).tokens(), old(self).position as nat, mnemonic@) {
                Ok((a, q)) => r is Ok && r->Ok_0@ == a && final(self).position == q,
                Err(e) => fails_with(r, e),
            },
    {
        let rs = match self.expect_register() { Ok(v) => v, Err(e) => return Err(e) };
        match self.expect_comma() { Ok(()) => {}, Err(e) => return Err(e) }
        let rt = match self.expect_register() { Ok(v) => v, Err(e) => return Err(e) };
        match self.expect_comma() { Ok(()) => {}, Err(e) => return Err(e) }
        let immediate = match self.at() {
            Some(Token::Label(label)) => label_number_exec(label.as_str()),
            Some(Token::Number(offset)) => *offset,
            _ => return Err(VosError::generic("Expected label or offset for branch")),
        };
        self.position += 1;
        Ok(AsmInstruction::IType { mnemonic, rt, rs, immediate })
    }

    fn parse_jtype(&mut self, mnemonic: String) -> (r: Result<AsmInstruction, VosError>)
        ensures
            final(self).tokens == old(self).tokens,
            match parse_j(old(self).tokens(), old(self).position as nat, mnemonic@) {
                Ok((a, q)) => r is Ok && r->Ok_0@ == a && final(self).position == q,
                Err(e) => fails_with(r, e),
            },
    {
        let target = match self.at() {
            Some(Token::Label(label)) => label.clone(),
            _ => return Err(VosError::generic("Expected label for jump")),
        };
        self.position += 1;
        Ok(AsmInstruction::JType { mnemonic, target })
    }

    fn parse_instruction(&mut self) -> (r: Result<Option<AsmInstruction>, VosError>)
        ensures
            final(self).tokens == old(self).tokens,
            match parse_instruction(old(self).tokens(), old(self).position as nat) {
                Ok((oi, q)) => r is Ok && final(self).position == q && match r->Ok_0 {
                    Some(i) => oi == Some(i@),
                    None => oi is None,
                },
                Err(e) => fails_with(r, e),
            },
    {
        let mnemonic = match self.at() {
            Some(Token::Mnemonic(m)) => m.clone(),
            _ => return Ok(None),
        };
        self.position += 1;
        let m = mnemonic.as_str();
        let zero = str_eq(m, "HALT") || str_eq(m, "NOP") || str_eq(m, "SYSCALL") || str_eq(m, "BREAK");
        let rtype = str_eq(m, "ADD") || str_eq(m, "SUB") || str_eq(m, "MUL") || str_eq(m, "DIV") || str_eq(m, "AND")
            || str_eq(m, "OR") || str_eq(m, "XOR") || str_eq(m, "SLL") || str_eq(m, "SRL") || str_eq(m, "SRA")
            || str_eq(m, "SLT") || str_eq(m, "SGT");
        let itype = str_eq(m, "ADDI") || str_eq(m, "SUBI") || str_eq(m, "ANDI") || str_eq(m, "ORI") || str_eq(m, "XORI")
            || str_eq(m, "LUI") || str_eq(m, "LW") || str_eq(m, "SW") || str_eq(m, "LB") || str_eq(m, "SB");
        let branch = str_eq(m, "BEQ") || str_eq(m, "BNE") || str_eq(m, "BLT") || str_eq(m, "BGT") || str_eq(m, "BLE")
            || str_eq(m, "BGE");
        let jump = str_eq(m, "J") || str_eq(m, "JAL");
        let instr = if zero {
            AsmInstruction::ZeroOp { mnemonic }
        } else if rtype {
            match self.parse_rtype(mnemonic) { Ok(i) => i, Err(e) => return Err(e) }
        } else if itype {
            match self.parse_itype(mnemonic) { Ok(i) => i, Err(e) => return Err(e) }
        } else if branch {
            match self.parse_branch(mnemonic) { Ok(i) => i, Err(e) => return Err(e) }
        } else if jump {
            match self.parse_jtype(mnemonic) { Ok(i) => i, Err(e) => return Err(e) }
        } else {
            return Err(VosError::Generic(message(&["Unknown mnemonic: ", mnemonic.as_str()])));
        };
        Ok(Some(instr))
    }

    fn define_label(labels: &mut Vec<(String, usize)>, name: String, index: usize)
        ensures
            Seq::new(final(labels)@.len(), |i: int| (final(labels)@[i].0@, final(labels)@[i].1))
                == label_define(Seq::new(old(labels)@.len(), |i: int| (old(labels)@[i].0@, old(labels)@[i].1)), name@, index),
    {
        let ghost lv = Seq::new(labels@.len(), |i: int| (labels@[i].0@, labels@[i].1));
        proof {
            lemma_label_pos(lv, name@, 0);
        }
        let mut i: usize = 0;
        while i < labels.len()
            invariant
                labels@ == old(labels)@,
                lv == Seq::new(labels@.len(), |k: int| (labels@[k].0@, labels@[k].1)),
                i <= labels@.len(),
                label_pos(lv, name@, 0) == label_pos(lv, name@, i as nat),
            decreases labels@.len() - i,
        {
            if str_eq(labels[i].0.as_str(), name.as_str()) {
                labels.set(i, (name, index));
                assert(Seq::new(labels@.len(), |k: int| (labels@[k].0@, labels@[k].1)) =~= lv.update(i as int, (name@, index)));
                return;
            }
            i += 1;
        }
        labels.push((name, index));
        assert(Seq::new(labels@.len(), |k: int| (labels@[k].0@, labels@[k].1)) =~= lv.push((name@, index)));
    }

    /// Whether `parse` comes to an end on these tokens: false where a token that can start no
    /// instruction stands where one should, on which `parse` would run forever. The parser is
    /// left as it was.
    pub fn parse_ends(&mut self) -> (b: bool)
        requires
            old(self).wf(),
        ensures
            b == !(parse_from(old(self).tokens(), old(self).position(), Seq::empty(), Seq::empty()) is Stuck),
            final(self).tokens() == old(self).tokens(),
            final(self).position() == old(self).position(),
            final(self).wf(),
    {
        let start = self.position;
        let ghost t = self.tokens();
        let ghost p0 = start as nat;
        let ghost ei = Seq::<Asm>::empty();
        let ghost el = Seq::<(Seq<char>, usize)>::empty();
        let mut ends = true;
        loop
            invariant_except_break
                (parse_from(t, p0, ei, el) is Stuck) == (parse_from(t, self.position as nat, ei, el) is Stuck),
                self.position <= self.tokens@.len() || p0 == self.position,
            invariant
                self.tokens == old(self).tokens,
                self.tokens() == t,
                p0 == old(self).position(),
                ei == Seq::<Asm>::empty(),
                el == Seq::<(Seq<char>, usize)>::empty(),
            ensures
                ends == !(parse_from(t, p0, ei, el) is Stuck),
            decreases self.tokens@.len() - self.position,
        {
            let here = self.position;
            let ghost p = here as nat;
            proof {
                lemma_skip_nl(t, p);
            }
            if self.at_end() {
                ends = true;
                break;
            }
            self.skip_newlines();
            if self.at_end() {
                ends = true;
                break;
            }
            let ghost q = self.position as nat;
            let label = match self.at() {
                Some(Token::LabelDef(_)) => true,
                _ => false,
            };
            if label {
                proof {
                    lemma_skip_nl(t, q + 1);
                }
                self.position += 1;
                self.skip_newlines();
                if !(self.position > here && self.position <= self.tokens.len()) {
                    ends = false;
                    break;
                }
                proof {
                    let name = cur(t, q)->LabelDef_0;
                    assert(parse_from(t, p, ei, el) == parse_from(t, self.position as nat, ei, label_define(el, name, 0)));
                    lemma_stuck_whatever_collected(t, self.position as nat, ei, label_define(el, name, 0), ei, el);
                }
                continue;
            }
            let pi = self.parse_instruction();
            match pi {
                Err(_) => {
                    ends = true;
                    break;
                },
                Ok(oi) => {
                    proof {
                        lemma_skip_nl(t, self.position as nat);
                    }
                    self.skip_newlines();
                    if !(self.position > here && self.position <= self.tokens.len()) {
                        ends = false;
                        break;
                    }
                    proof {
                        let got = parse_instruction(t, q)->Ok_0.0;
                        let a = match got { Some(i) => ei.push(i), None => ei };
                        lemma_stuck_whatever_collected(t, self.position as nat, a, el, ei, el);
                    }
                },
            }
        }
        self.position = start;
        ends
    }

    /// Parses the whole program: label definitions and instructions, skipping blank lines.
    /// Mnemonics are upper case as the lexer makes them, so no case folding is needed.
    pub fn parse(&mut self) -> (r: Result<Program, VosError>)
        requires
            old(self).wf(),
            !(parse_from(old(self).tokens(), old(self).position(), Seq::empty(), Seq::empty()) is Stuck),
        ensures
            match parse_from(old(self).tokens(), old(self).position(), Seq::empty(), Seq::empty()) {
                ParseOutcome::Done(is, ls) => r is Ok && r->Ok_0.label_list() == ls
                    && r->Ok_0.instructions@.len() == is.len()
                    && forall|i: int| 0 <= i < is.len() ==> #[trigger] r->Ok_0.instructions@[i]@ == is[i],
                ParseOutcome::Failed(e) => fails_with(r, e),
                ParseOutcome::Stuck => true,
            },
            r is Ok ==> labels_distinct(r->Ok_0.label_list()),
    {
        proof {
            lemma_parse_labels_distinct(old(self).tokens(), old(self).position(), Seq::empty(), Seq::empty());
        }
        let ghost t = self.tokens();
        let ghost p0 = self.position as nat;
        let mut instructions: Vec<AsmInstruction> = Vec::new();
        let mut labels: Vec<(String, usize)> = Vec::new();
        assert(Seq::new(instructions@.len(), |i: int| instructions@[i]@) =~= Seq::<Asm>::empty());
        assert(Seq::new(labels@.len(), |i: int| (labels@[i].0@, labels@[i].1)) =~= Seq::<(Seq<char>, usize)>::empty());
        loop
            invariant
                self.tokens() == t,
                t == old(self).tokens(),
                p0 == old(self).position(),
                parse_from(t, p0, Seq::empty(), Seq::empty()) == parse_from(t, self.position as nat,
                    Seq::new(instructions@.len(), |i: int| instructions@[i]@),
                    Seq::new(labels@.len(), |i: int| (labels@[i].0@, labels@[i].1))),
                !(parse_from(t, p0, Seq::empty(), Seq::empty()) is Stuck),
                self.position <= self.tokens@.len() || p0 == self.position,
            ensures
                parse_from(t, p0, Seq::empty(), Seq::empty()) == ParseOutcome::Done(
                    Seq::new(instructions@.len(), |i: int| instructions@[i]@),
                    Seq::new(labels@.len(), |i: int| (labels@[i].0@, labels@[i].1))),
            decreases self.tokens@.len() - self.position,
        {
            let ghost p = self.position as nat;
            let ghost iv = Seq::new(instructions@.len(), |i: int| instructions@[i]@);
            let ghost lv = Seq::new(labels@.len(), |i: int| (labels@[i].0@, labels@[i].1));
            proof {
                lemma_skip_nl(t, p);
            }
            if self.at_end() {
                assert(parse_from(t, p0, Seq::empty(), Seq::empty()) == ParseOutcome::Done(iv, lv));
                break;
            }
            self.skip_newlines();
            if self.at_end() {
                assert(parse_from(t, p0, Seq::empty(), Seq::empty()) == ParseOutcome::Done(iv, lv));
                break;
            }
            let ghost q = self.position as nat;
            let label = match self.at() {
                Some(Token::LabelDef(name)) => Some(name.clone()),
                _ => None,
            };
            if let Some(name) = label {
                Self::define_label(&mut labels, name, instructions.len());
                proof {
                    lemma_skip_nl(t, q + 1);
                }
                self.position += 1;
                self.skip_newlines();
                assert(Seq::new(instructions@.len(), |i: int| instructions@[i]@) == iv);
                continue;
            }
            let pi = self.parse_instruction();
            match pi {
                Err(e) => return Err(e),
                Ok(Some(i)) => {
                    instructions.push(i);
                    assert(Seq::new(instructions@.len(), |k: int| instructions@[k]@) =~= iv.push(i@));
                },
                Ok(None) => {
                    assert(Seq::new(instructions@.len(), |k: int| instructions@[k]@) =~= iv);
                },
            }
            proof {
                lemma_skip_nl(t, self.position as nat);
            }
            self.skip_newlines();
        }
        let prog = Program { instructions, labels };
        proof {
            assert(prog.label_list() =~= Seq::new(prog.labels@.len(), |i: int| (prog.labels@[i].0@, prog.labels@[i].1)));
        }
        Ok(prog)
    }
}

} // verus!
