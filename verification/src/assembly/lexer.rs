//! Lexical analysis of assembly source.
use vstd::prelude::*;
use crate::chars::{
    char_is_alphanumeric, is_alpha, is_ascii_alpha, is_ascii_digit, is_ascii_hex, is_ascii_upper,
    is_digit, is_hex_digit, is_upper, read_digits, read_number, unicode_alphanumeric,
};
use crate::text::{chars_to_string, dec, dec_signed, push_dec, push_dec_signed, push_str, str_to_chars};

verus! {

/// Assembly tokens.
#[derive(Debug, Clone, PartialEq, Eq)]
pub enum Token {
    /// Instruction mnemonic (ADD, SUB, ...)
    Mnemonic(String),
    /// Register (R0-R15)
    Register(u8),
    /// Integer literal
    Number(i32),
    /// Label reference
    Label(String),
    /// Label definition (followed by `:`)
    LabelDef(String),
    /// Comma
    Comma,
    /// End of line
    Newline,
    /// End of input
    Eof,
}

/// A token as a value: names as character sequences.
pub enum Tok {
    /// Instruction mnemonic
    Mnemonic(Seq<char>),
    /// Register
    Register(u8),
    /// Integer literal
    Number(i32),
    /// Label reference
    Label(Seq<char>),
    /// Label definition
    LabelDef(Seq<char>),
    /// Comma
    Comma,
    /// End of line
    Newline,
    /// End of input
    Eof,
}

impl View for Token {
    type V = Tok;

    open spec fn view(&self) -> Tok {
        match self {
            Token::Mnemonic(s) => Tok::Mnemonic(s@),
            Token::Register(r) => Tok::Register(*r),
            Token::Number(n) => Tok::Number(*n),
            Token::Label(s) => Tok::Label(s@),
            Token::LabelDef(s) => Tok::LabelDef(s@),
            Token::Comma => Tok::Comma,
            Token::Newline => Tok::Newline,
            Token::Eof => Tok::Eof,
        }
    }
}

/// Printed form of a token.
pub open spec fn token_text(t: Tok) -> Seq<char> {
    match t {
        Tok::Mnemonic(s) => "MNEMONIC("@ + s + ")"@,
        Tok::Register(r) => "R"@ + dec(r as nat),
        Tok::Number(n) => dec_signed(n as int),
        Tok::Label(s) => "LABEL("@ + s + ")"@,
        Tok::LabelDef(s) => s + ":"@,
        Tok::Comma => ","@,
        Tok::Newline => "\\n"@,
        Tok::Eof => "EOF"@,
    }
}

impl Token {
    /// The printed form of the token.
    pub fn text(&self) -> (s: String)
        ensures
            s@ == token_text(self@),
    {
        let mut v: Vec<char> = Vec::new();
        match self {
            Token::Mnemonic(s) => {
                push_str(&mut v, "MNEMONIC(");
                push_str(&mut v, s.as_str());
                push_str(&mut v, ")");
            },
            Token::Register(r) => {
                push_str(&mut v, "R");
                push_dec(&mut v, *r as u64);
            },
            Token::Number(n) => push_dec_signed(&mut v, *n as i64),
            Token::Label(s) => {
                push_str(&mut v, "LABEL(");
                push_str(&mut v, s.as_str());
                push_str(&mut v, ")");
            },
            Token::LabelDef(s) => {
                push_str(&mut v, s.as_str());
                push_str(&mut v, ":");
            },
            Token::Comma => push_str(&mut v, ","),
            Token::Newline => push_str(&mut v, "\\n"),
            Token::Eof => push_str(&mut v, "EOF"),
        }
        chars_to_string(&v)
    }
}

/// First position at or after `p` that is not a space, tab or carriage return.
pub open spec fn skip_blank(s: Seq<char>, p: nat) -> nat
    decreases s.len() - p,
{
    if p < s.len() && (s[p as int] == ' ' || s[p as int] == '\t' || s[p as int] == '\r') { skip_blank(s, p + 1) } else { p }
}

/// First position at or after `p` holding a newline, or the end.
pub open spec fn skip_comment(s: Seq<char>, p: nat) -> nat
    decreases s.len() - p,
{
    if p < s.len() && s[p as int] != '\n' { skip_comment(s, p + 1) } else { p }
}

/// End of the run of decimal digits starting at `p`.
pub open spec fn digits_end(s: Seq<char>, p: nat) -> nat
    decreases s.len() - p,
{
    if p < s.len() && is_digit(s[p as int]) { digits_end(s, p + 1) } else { p }
}

/// End of the run of hexadecimal digits starting at `p`.
pub open spec fn hex_end(s: Seq<char>, p: nat) -> nat
    decreases s.len() - p,
{
    if p < s.len() && is_hex_digit(s[p as int]) { hex_end(s, p + 1) } else { p }
}

/// End of the run of identifier characters (alphanumerics and `_`) starting at `p`.
pub open spec fn ident_end(s: Seq<char>, p: nat) -> nat
    decreases s.len() - p,
{
    if p < s.len() && (unicode_alphanumeric(s[p as int]) || s[p as int] == '_') { ident_end(s, p + 1) } else { p }
}

/// The scans stay within the text and never move back.
pub proof fn lemma_scans(s: Seq<char>, p: nat)
    requires
        p <= s.len(),
    ensures
        p <= skip_blank(s, p) <= s.len(),
        p <= skip_comment(s, p) <= s.len(),
        p <= digits_end(s, p) <= s.len(),
        p <= hex_end(s, p) <= s.len(),
        p <= ident_end(s, p) <= s.len(),
        forall|i: int| p <= i < digits_end(s, p) ==> is_digit(#[trigger] s[i]),
        forall|i: int| p <= i < hex_end(s, p) ==> is_hex_digit(#[trigger] s[i]),
    decreases s.len() - p,
{
    if p < s.len() {
        lemma_scans(s, p + 1);
    }
}

/// Register number read from digit text: its value up to 255, else 0.
pub open spec fn register_value(d: Seq<char>) -> u8 {
    match read_digits(d, 10, 255) { Some(v) => v as u8, None => 0 }
}

/// Decimal literal value, negated when `neg`: 0 when empty or out of `i32` range.
pub open spec fn decimal_value(neg: bool, d: Seq<char>) -> i32 {
    if neg {
        match read_digits(d, 10, 0x8000_0000) { Some(v) => (-(v as int)) as i32, None => 0 }
    } else {
        match read_digits(d, 10, 0x7FFF_FFFF) { Some(v) => v as i32, None => 0 }
    }
}

/// Hexadecimal literal value: 0 when empty or out of `i32` range.
pub open spec fn hex_value(d: Seq<char>) -> i32 {
    match read_digits(d, 16, 0x7FFF_FFFF) { Some(v) => v as i32, None => 0 }
}

/// Whether every character is an upper-case letter or `_`.
pub open spec fn all_upper(s: Seq<char>) -> bool {
    forall|i: int| 0 <= i < s.len() ==> is_upper(#[trigger] s[i]) || s[i] == '_'
}

/// Identifier token at `q`: a label definition if `:` follows, a mnemonic if all upper case,
/// else a label reference.
pub open spec fn ident_token(s: Seq<char>, q: nat) -> (Tok, nat) {
    let e = ident_end(s, q);
    let id = s.subrange(q as int, e as int);
    if e < s.len() && s[e as int] == ':' {
        (Tok::LabelDef(id), e + 1)
    } else if all_upper(id) {
        (Tok::Mnemonic(id), e)
    } else {
        (Tok::Label(id), e)
    }
}

/// Number token at `q`: an optional `-`, then `0x` and hexadecimal digits (the sign is then
/// dropped) or decimal digits.
pub open spec fn number_token(s: Seq<char>, q: nat) -> (Tok, nat) {
    let neg = s[q as int] == '-';
    let p1: nat = if neg { q + 1 } else { q };
    if p1 < s.len() && s[p1 as int] == '0' && p1 + 1 < s.len() && s[(p1 + 1) as int] == 'x' {
        let e = hex_end(s, p1 + 2);
        (Tok::Number(hex_value(s.subrange((p1 + 2) as int, e as int))), e)
    } else {
        let e = digits_end(s, p1);
        (Tok::Number(decimal_value(neg, s.subrange(p1 as int, e as int))), e)
    }
}

/// The token starting at or after `p`, and the position after it. Blanks are skipped, a `;`
/// comment runs to the end of the line, and unknown characters are skipped.
pub open spec fn next_tok(s: Seq<char>, p: nat) -> (Tok, nat)
    decreases s.len() - p,
{
    let q = skip_blank(s, p);
    if p > s.len() || q >= s.len() {
        (Tok::Eof, q)
    } else {
        let c = s[q as int];
        if c == '\n' {
            (Tok::Newline, q + 1)
        } else if c == ',' {
            (Tok::Comma, q + 1)
        } else if c == ';' {
            let r = skip_comment(s, q);
            if r > p && r <= s.len() { next_tok(s, r) } else { (Tok::Eof, r) }
        } else if (c == 'R' || c == 'r') && q + 1 < s.len() && is_digit(s[(q + 1) as int]) {
            let e = digits_end(s, q + 1);
            (Tok::Register(register_value(s.subrange((q + 1) as int, e as int))), e)
        } else if is_alpha(c) || c == '_' {
            ident_token(s, q)
        } else if is_digit(c) || c == '-' {
            number_token(s, q)
        } else if q + 1 > p {
            next_tok(s, q + 1)
        } else {
            (Tok::Eof, q)
        }
    }
}

/// At most `n` tokens from `p` on, up to and including the end token.
pub open spec fn tokens_from(s: Seq<char>, p: nat, n: nat) -> Seq<Tok>
    decreases n,
{
    if n == 0 {
        Seq::empty()
    } else {
        let (t, q) = next_tok(s, p);
        if t is Eof { seq![t] } else { seq![t] + tokens_from(s, q, (n - 1) as nat) }
    }
}

/// All tokens of a text, ending with the end token.
pub open spec fn tokenize_spec(s: Seq<char>) -> Seq<Tok> {
    tokens_from(s, 0, s.len() + 1)
}

/// Lexer over assembly source.
pub struct Lexer {
    /// Source characters
    input: Vec<char>,
    /// Current position
    position: usize,
}

impl Lexer {
    /// The source characters.
    pub closed spec fn input(&self) -> Seq<char> {
        self.input@
    }

    /// The current position.
    pub closed spec fn position(&self) -> nat {
        self.position as nat
    }

    /// A lexer at the start of `input`.
    pub fn new(input: &str) -> (l: Self)
        ensures
            l.input() == input@,
            l.position() == 0,
    {
        Self { input: str_to_chars(input), position: 0 }
    }

    fn skip_whitespace_except_newline(&mut self)
        requires
            old(self).position <= old(self).input@.len(),
        ensures
            final(self).input == old(self).input,
            final(self).position == skip_blank(old(self).input@, old(self).position as nat),
    {
        proof {
            lemma_scans(self.input@, self.position as nat);
        }
        while self.position < self.input.len()
            invariant
                self.input == old(self).input,
                old(self).position <= self.position <= self.input@.len(),
                skip_blank(self.input@, old(self).position as nat) == skip_blank(self.input@, self.position as nat),
            ensures
                self.input == old(self).input,
                self.position == skip_blank(old(self).input@, old(self).position as nat),
            decreases self.input@.len() - self.position,
        {
            let ch = self.input[self.position];
            if ch == ' ' || ch == '\t' || ch == '\r' {
                self.position += 1;
            } else {
                break;
            }
        }
    }

    fn skip_comment(&mut self)
        requires
            old(self).position <= old(self).input@.len(),
        ensures
            final(self).input == old(self).input,
            final(self).position == skip_comment(old(self).input@, old(self).position as nat),
    {
        while self.position < self.input.len() && self.input[self.position] != '\n'
            invariant
                self.input == old(self).input,
                old(self).position <= self.position <= self.input@.len(),
                skip_comment(self.input@, old(self).position as nat) == skip_comment(self.input@, self.position as nat),
            decreases self.input@.len() - self.position,
        {
            self.position += 1;
        }
    }

    /// Collects the characters from the current position while `hex` (hexadecimal) or decimal
    /// digits continue.
    fn take_digits(&mut self, hex: bool) -> (d: Vec<char>)
        requires
            old(self).position <= old(self).input@.len(),
        ensures
            final(self).input == old(self).input,
            final(self).position == (if hex { hex_end(old(self).input@, old(self).position as nat) } else {
                digits_end(old(self).input@, old(self).position as nat) }),
            d@ == old(self).input@.subrange(old(self).position as int, final(self).position as int),
            forall|i: int| 0 <= i < d@.len() ==> if hex { is_hex_digit(#[trigger] d@[i]) } else { is_digit(d@[i]) },
    {
        let mut d: Vec<char> = Vec::new();
        while self.position < self.input.len()
            invariant
                self.input == old(self).input,
                old(self).position <= self.position <= self.input@.len(),
                (if hex { hex_end(self.input@, old(self).position as nat) } else { digits_end(self.input@, old(self).position as nat) })
                    == (if hex { hex_end(self.input@, self.position as nat) } else { digits_end(self.input@, self.position as nat) }),
                d@ == self.input@.subrange(old(self).position as int, self.position as int),
                forall|i: int| 0 <= i < d@.len() ==> if hex { is_hex_digit(#[trigger] d@[i]) } else { is_digit(d@[i]) },
            ensures
                self.input == old(self).input,
                self.position == (if hex { hex_end(old(self).input@, old(self).position as nat) } else {
                    digits_end(old(self).input@, old(self).position as nat) }),
                d@ == self.input@.subrange(old(self).position as int, self.position as int),
                forall|i: int| 0 <= i < d@.len() ==> if hex { is_hex_digit(#[trigger] d@[i]) } else { is_digit(d@[i]) },
            decreases self.input@.len() - self.position,
        {
            let ch = self.input[self.position];
            let ok = if hex { is_ascii_hex(ch) } else { is_ascii_digit(ch) };
            if !ok {
                break;
            }
            d.push(ch);
            self.position += 1;
            assert(d@ =~= self.input@.subrange(old(self).position as int, self.position as int));
        }
        d
    }

    fn read_register(&mut self) -> (t: Token)
        requires
            old(self).position + 1 < old(self).input@.len(),
        ensures
            final(self).input == old(self).input,
            ({
                let e = digits_end(old(self).input@, (old(self).position + 1) as nat);
                t@ == Tok::Register(register_value(old(self).input@.subrange(old(self).position + 1, e as int)))
                    && final(self).position == e
            }),
    {
        assert(self.input@.len() == self.input.len());
        self.position += 1;
        let digits = self.take_digits(false);
        let v = match read_number(&digits, 10, 255) {
            Some(v) => v as u8,
            None => 0,
        };
        Token::Register(v)
    }

    fn read_identifier(&mut self) -> (t: Token)
        requires
            old(self).position < old(self).input@.len(),
            is_alpha(old(self).input@[old(self).position as int]) || old(self).input@[old(self).position as int] == '_',
        ensures
            final(self).input == old(self).input,
            (t@, final(self).position as nat) == ident_token(old(self).input@, old(self).position as nat),
            final(self).position > old(self).position,
            final(self).position <= final(self).input@.len(),
    {
        proof {
            lemma_scans(self.input@, self.position as nat);
        }
        let start = self.position;
        let mut ident: Vec<char> = Vec::new();
        while self.position < self.input.len()
            invariant
                self.input == old(self).input,
                start == old(self).position,
                start <= self.position <= self.input@.len(),
                start < self.input@.len(),
                ident_end(self.input@, start as nat) == ident_end(self.input@, self.position as nat),
                ident@ == self.input@.subrange(start as int, self.position as int),
                self.position == start ==> is_alpha(self.input@[start as int]) || self.input@[start as int] == '_',
            ensures
                self.position > start,
                ident_end(self.input@, start as nat) == self.position,
                ident@ == self.input@.subrange(start as int, self.position as int),
                self.input == old(self).input,
            decreases self.input@.len() - self.position,
        {
            let ch = self.input[self.position];
            if char_is_alphanumeric(ch) || ch == '_' {
                ident.push(ch);
                self.position += 1;
                assert(ident@ =~= self.input@.subrange(start as int, self.position as int));
            } else {
                break;
            }
        }
        if self.position < self.input.len() && self.input[self.position] == ':' {
            self.position += 1;
            return Token::LabelDef(chars_to_string(&ident));
        }
        let mut upper = true;
        let mut i: usize = 0;
        while i < ident.len()
            invariant
                i <= ident@.len(),
                upper == forall|j: int| 0 <= j < i ==> is_upper(#[trigger] ident@[j]) || ident@[j] == '_',
            decreases ident@.len() - i,
        {
            if !(is_ascii_upper(ident[i]) || ident[i] == '_') {
                upper = false;
            }
            i += 1;
        }
        if upper { Token::Mnemonic(chars_to_string(&ident)) } else { Token::Label(chars_to_string(&ident)) }
    }

    fn read_number(&mut self) -> (t: Token)
        requires
            old(self).position < old(self).input@.len(),
            is_digit(old(self).input@[old(self).position as int]) || old(self).input@[old(self).position as int] == '-',
        ensures
            final(self).input == old(self).input,
            (t@, final(self).position as nat) == number_token(old(self).input@, old(self).position as nat),
            final(self).position > old(self).position,
            final(self).position <= final(self).input@.len(),
    {
        proof {
            lemma_scans(self.input@, self.position as nat);
            lemma_scans(self.input@, (self.position + 1) as nat);
            if self.position + 2 <= self.input@.len() {
                lemma_scans(self.input@, (self.position + 2) as nat);
            }
            if self.position + 3 <= self.input@.len() {
                lemma_scans(self.input@, (self.position + 3) as nat);
            }
        }
        assert(self.input@.len() == self.input.len());
        let neg = self.input[self.position] == '-';
        if neg {
            self.position += 1;
        }
        if self.position < self.input.len() && self.input[self.position] == '0' && self.position + 1 < self.input.len()
            && self.input[self.position + 1] == 'x' {
            self.position += 2;
            let digits = self.take_digits(true);
            let v: i32 = match read_number(&digits, 16, 0x7FFF_FFFF) {
                Some(v) => v as i32,
                None => 0,
            };
            return Token::Number(v);
        }
        let digits = self.take_digits(false);
        let v: i32 = if neg {
            match read_number(&digits, 10, 0x8000_0000) {
                Some(v) => (0 - v as i64) as i32,
                None => 0,
            }
        } else {
            match read_number(&digits, 10, 0x7FFF_FFFF) {
                Some(v) => v as i32,
                None => 0,
            }
        };
        Token::Number(v)
    }

    /// The next token; `Eof` at the end of the input.
    pub fn next_token(&mut self) -> (t: Token)
        requires
            old(self).position() <= old(self).input().len(),
        ensures
            final(self).input() == old(self).input(),
            (t@, final(self).position()) == next_tok(old(self).input(), old(self).position()),
            final(self).position() <= final(self).input().len(),
            !(t@ is Eof) ==> final(self).position() > old(self).position(),
    {
        loop
            invariant
                self.input == old(self).input,
                old(self).position <= self.position <= self.input@.len(),
                next_tok(self.input@, old(self).position as nat) == next_tok(self.input@, self.position as nat),
            decreases self.input@.len() - self.position,
        {
            proof {
                lemma_scans(self.input@, self.position as nat);
            }
            let p = self.position;
            self.skip_whitespace_except_newline();
            if self.position >= self.input.len() {
                return Token::Eof;
            }
            let ch = self.input[self.position];
            if ch == '\n' {
                self.position += 1;
                return Token::Newline;
            }
            if ch == ',' {
                self.position += 1;
                return Token::Comma;
            }
            if ch == ';' {
                proof {
                    lemma_scans(self.input@, self.position as nat);
                    lemma_scans(self.input@, (self.position + 1) as nat);
                }
                self.skip_comment();
                continue;
            }
            if (ch == 'R' || ch == 'r') && self.position + 1 < self.input.len() && is_ascii_digit(self.input[self.position + 1]) {
                proof {
                    lemma_scans(self.input@, (self.position + 1) as nat);
                }
                return self.read_register();
            }
            if is_ascii_alpha(ch) || ch == '_' {
                return self.read_identifier();
            }
            if is_ascii_digit(ch) || ch == '-' {
                return self.read_number();
            }
            self.position += 1;
        }
    }

    /// The tokens from the current position on, ending with the end token.
    pub open spec fn rest(&self) -> Seq<Tok> {
        tokens_from(self.input(), self.position(), (self.input().len() + 1 - self.position()) as nat)
    }

    /// All tokens from the current position on, ending with the end token.
    pub fn tokenize(&mut self) -> (v: Vec<Token>)
        requires
            old(self).position() <= old(self).input().len(),
        ensures
            v@.len() == Self::rest(old(self)).len(),
            forall|i: int| 0 <= i < v@.len() ==> #[trigger] v@[i]@ == Self::rest(old(self))[i],
    {
        let ghost s = self.input@;
        let mut tokens: Vec<Token> = Vec::new();
        let ghost mut fuel: nat = (s.len() + 1 - self.position) as nat;
        let ghost mut done: Seq<Tok> = Seq::empty();
        loop
            invariant
                self.input@ == s,
                s == old(self).input@,
                self.position <= s.len(),
                fuel >= s.len() - self.position + 1,
                tokens@.len() == done.len(),
                forall|i: int| 0 <= i < done.len() ==> #[trigger] tokens@[i]@ == done[i],
                done + tokens_from(s, self.position as nat, fuel) == Self::rest(old(self)),
            decreases fuel,
        {
            let ghost p = self.position as nat;
            let token = self.next_token();
            let is_eof = matches!(token, Token::Eof);
            proof {
                assert(tokens_from(s, p, fuel) == (if next_tok(s, p).0 is Eof { seq![next_tok(s, p).0] } else {
                    seq![next_tok(s, p).0] + tokens_from(s, next_tok(s, p).1, (fuel - 1) as nat) }));
                done = done.push(token@);
            }
            tokens.push(token);
            assert(forall|i: int| 0 <= i < done.len() ==> #[trigger] tokens@[i]@ == done[i]);
            if is_eof {
                assert(done =~= Self::rest(old(self)));
                return tokens;
            }
            proof {
                assert(done + tokens_from(s, self.position as nat, (fuel - 1) as nat) =~= Self::rest(old(self)));
                fuel = (fuel - 1) as nat;
            }
        }
    }
}

} // verus!
