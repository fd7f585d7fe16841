//! Lexical analysis of the script language, with line and column tracking.
use vstd::prelude::*;
use crate::chars::{char_is_alphabetic, char_is_alphanumeric, is_digit, read_digits, read_number, unicode_alphabetic, unicode_alphanumeric};
use crate::lang::token::{Kind, Token, TokenKind};
use crate::text::{chars_eq, chars_to_string, dec, push_dec, push_str, str_to_chars};

verus! {

/// A position in the source with its line and column (both 1-based).
pub struct LexPos {
    /// Index of the next character
    pub pos: nat,
    /// Line number
    pub line: nat,
    /// Column number
    pub col: nat,
}

/// A token as a value.
pub struct LTok {
    /// Kind of token
    pub kind: Kind,
    /// Source text
    pub lexeme: Seq<char>,
    /// Line number
    pub line: nat,
    /// Column number
    pub col: nat,
}

/// The start of a text.
pub open spec fn start_pos() -> LexPos {
    LexPos { pos: 0, line: 1, col: 1 }
}

/// Position after consuming the character at `st`: a newline starts a new line.
pub open spec fn adv(s: Seq<char>, st: LexPos) -> LexPos {
    if s[st.pos as int] == '\n' {
        LexPos { pos: st.pos + 1, line: st.line + 1, col: 1 }
    } else {
        LexPos { pos: st.pos + 1, line: st.line, col: st.col + 1 }
    }
}

/// Character at the position, if any.
pub open spec fn peek(s: Seq<char>, st: LexPos) -> Option<char> {
    if st.pos < s.len() { Some(s[st.pos as int]) } else { None }
}

/// Character after the one at the position, if any.
pub open spec fn peek_next(s: Seq<char>, st: LexPos) -> Option<char> {
    if st.pos + 1 < s.len() { Some(s[(st.pos + 1) as int]) } else { None }
}

/// Skips spaces, tabs and carriage returns.
pub open spec fn skip_ws(s: Seq<char>, st: LexPos) -> LexPos
    decreases s.len() - st.pos,
{
    if st.pos < s.len() && (s[st.pos as int] == ' ' || s[st.pos as int] == '\t' || s[st.pos as int] == '\r') {
        skip_ws(s, adv(s, st))
    } else {
        st
    }
}

/// Skips to the end of the line (the newline itself stays).
pub open spec fn skip_line(s: Seq<char>, st: LexPos) -> LexPos
    decreases s.len() - st.pos,
{
    if st.pos < s.len() && s[st.pos as int] != '\n' { skip_line(s, adv(s, st)) } else { st }
}

/// Skips decimal digits.
pub open spec fn digit_run(s: Seq<char>, st: LexPos) -> LexPos
    decreases s.len() - st.pos,
{
    if st.pos < s.len() && is_digit(s[st.pos as int]) { digit_run(s, adv(s, st)) } else { st }
}

/// Skips identifier characters (alphanumerics and `_`).
pub open spec fn ident_run(s: Seq<char>, st: LexPos) -> LexPos
    decreases s.len() - st.pos,
{
    if st.pos < s.len() && (unicode_alphanumeric(s[st.pos as int]) || s[st.pos as int] == '_') { ident_run(s, adv(s, st)) } else { st }
}

/// "` at line L, column C`".
pub open spec fn at_text(line: nat, col: nat) -> Seq<char> {
    " at line "@ + dec(line) + ", column "@ + dec(col)
}

/// The error for an unexpected character.
pub open spec fn unexpected(c: char, line: nat, col: nat) -> Seq<char> {
    "Unexpected character '"@ + seq![c] + "'"@ + at_text(line, col)
}

/// The error for a string without its closing quote.
pub open spec fn unterminated(line: nat, col: nat) -> Seq<char> {
    "Unterminated string"@ + at_text(line, col)
}

/// Keyword kind of a word, or an identifier.
pub open spec fn word_kind(w: Seq<char>) -> Kind {
    if w == "let"@ { Kind::Let }
    else if w == "const"@ { Kind::Const }
    else if w == "fn"@ { Kind::Fn }
    else if w == "if"@ { Kind::If }
    else if w == "else"@ { Kind::Else }
    else if w == "while"@ { Kind::While }
    else if w == "for"@ { Kind::For }
    else if w == "in"@ { Kind::In }
    else if w == "return"@ { Kind::Return }
    else if w == "struct"@ { Kind::Struct }
    else if w == "true"@ { Kind::True }
    else if w == "false"@ { Kind::False }
    else if w == "int"@ { Kind::TypeInt }
    else if w == "float"@ { Kind::TypeFloat }
    else if w == "bool"@ { Kind::TypeBool }
    else if w == "string"@ { Kind::TypeString }
    else if w == "char"@ { Kind::TypeChar }
    else { Kind::Identifier(w) }
}

/// A keyword lexes to the kind whose text is that keyword, and any other word to an identifier
/// holding the word.
pub proof fn lemma_word_kind_text(w: Seq<char>)
    ensures
        word_kind(w) is Identifier ==> word_kind(w) == Kind::Identifier(w),
        !(word_kind(w) is Identifier) ==> crate::lang::token::kind_text(word_kind(w)) == w,
{
}

/// A number starting at `p0` (first digit already consumed, `st` after it): digits, then a
/// fraction if a `.` and a digit follow (a float, kept as text), else an `i32` integer.
pub open spec fn lex_number(s: Seq<char>, p0: nat, st: LexPos, line: nat, col: nat) -> (Result<LTok, Seq<char>>, LexPos) {
    let e1 = digit_run(s, st);
    if peek(s, e1) == Some('.') && (peek_next(s, e1) matches Some(d) && is_digit(d)) {
        let e3 = digit_run(s, adv(s, e1));
        let text = s.subrange(p0 as int, e3.pos as int);
        (Ok(LTok { kind: Kind::Float(text), lexeme: text, line, col }), e3)
    } else {
        let text = s.subrange(p0 as int, e1.pos as int);
        match read_digits(text, 10, 0x7FFF_FFFF) {
            Some(v) => (Ok(LTok { kind: Kind::Integer(v as i32), lexeme: text, line, col }), e1),
            None => (Err("Invalid integer '"@ + text + "'"@ + at_text(line, col)), e1),
        }
    }
}

/// A word starting at `p0` (first character consumed): a keyword or an identifier.
pub open spec fn lex_word(s: Seq<char>, p0: nat, st: LexPos, line: nat, col: nat) -> (Result<LTok, Seq<char>>, LexPos) {
    let e = ident_run(s, st);
    let w = s.subrange(p0 as int, e.pos as int);
    (Ok(LTok { kind: word_kind(w), lexeme: w, line, col }), e)
}

/// The character an escape letter stands for.
pub open spec fn escaped(e: char) -> Option<char> {
    if e == 'n' { Some('\n') }
    else if e == 't' { Some('\t') }
    else if e == 'r' { Some('\r') }
    else if e == '\\' { Some('\\') }
    else if e == '"' { Some('"') }
    else { None }
}

/// The rest of a string literal whose value so far is `value`, started at `line`/`col`.
pub open spec fn lex_string(s: Seq<char>, st: LexPos, value: Seq<char>, line: nat, col: nat) -> (Result<LTok, Seq<char>>, LexPos)
    decreases s.len() - st.pos,
{
    match peek(s, st) {
        None => (Err(unterminated(line, col)), st),
        Some(c) => if c == '"' {
            (Ok(LTok { kind: Kind::String(value), lexeme: seq!['"'] + value + seq!['"'], line, col }), adv(s, st))
        } else if c == '\\' {
            let st1 = adv(s, st);
            match peek(s, st1) {
                None => (Err(unterminated(line, col)), st1),
                Some(e) => {
                    let st2 = adv(s, st1);
                    match escaped(e) {
                        Some(v) => lex_string(s, st2, value.push(v), line, col),
                        None => (Err("Invalid escape sequence '\\"@ + seq![e] + "'"@ + at_text(st2.line, st2.col)), st2),
                    }
                },
            }
        } else if c == '\n' {
            (Err(unterminated(line, col)), st)
        } else {
            lex_string(s, adv(s, st), value.push(c), line, col)
        },
    }
}

/// A one- or two-character operator token: with `next` following, the two-character kind;
/// the lexeme is the first character and the position is the one after the token.
pub open spec fn op2(s: Seq<char>, c: char, st: LexPos, next: char, two: Kind, one: Kind) -> (Result<LTok, Seq<char>>, LexPos) {
    if peek(s, st) == Some(next) {
        let st3 = adv(s, st);
        (Ok(LTok { kind: two, lexeme: seq![c], line: st3.line, col: st3.col }), st3)
    } else {
        (Ok(LTok { kind: one, lexeme: seq![c], line: st.line, col: st.col }), st)
    }
}

/// A single-character token, positioned after it.
pub open spec fn op1(c: char, st: LexPos, k: Kind) -> (Result<LTok, Seq<char>>, LexPos) {
    (Ok(LTok { kind: k, lexeme: seq![c], line: st.line, col: st.col }), st)
}

/// An operator or delimiter `c` (consumed; `st` after it), or the error for an unexpected
/// character at `line`/`col`.
pub open spec fn lex_op(s: Seq<char>, c: char, st: LexPos, line: nat, col: nat) -> (Result<LTok, Seq<char>>, LexPos) {
    if c == '+' { op1(c, st, Kind::Plus) }
    else if c == '-' { op2(s, c, st, '>', Kind::Arrow, Kind::Minus) }
    else if c == '*' { op1(c, st, Kind::Star) }
    else if c == '/' { op1(c, st, Kind::Slash) }
    else if c == '%' { op1(c, st, Kind::Percent) }
    else if c == '=' { op2(s, c, st, '=', Kind::EqualEqual, Kind::Equal) }
    else if c == '!' { op2(s, c, st, '=', Kind::BangEqual, Kind::Bang) }
    else if c == '<' { op2(s, c, st, '=', Kind::LessEqual, Kind::Less) }
    else if c == '>' { op2(s, c, st, '=', Kind::GreaterEqual, Kind::Greater) }
    else if c == '&' {
        if peek(s, st) == Some('&') {
            let st3 = adv(s, st);
            (Ok(LTok { kind: Kind::And, lexeme: seq![c], line: st3.line, col: st3.col }), st3)
        } else {
            (Err(unexpected('&', line, col)), st)
        }
    }
    else if c == '|' { op2(s, c, st, '|', Kind::Or, Kind::Pipe) }
    else if c == '(' { op1(c, st, Kind::LeftParen) }
    else if c == ')' { op1(c, st, Kind::RightParen) }
    else if c == '{' { op1(c, st, Kind::LeftBrace) }
    else if c == '}' { op1(c, st, Kind::RightBrace) }
    else if c == '[' { op1(c, st, Kind::LeftBracket) }
    else if c == ']' { op1(c, st, Kind::RightBracket) }
    else if c == ',' { op1(c, st, Kind::Comma) }
    else if c == ':' { op1(c, st, Kind::Colon) }
    else if c == ';' { op1(c, st, Kind::Semicolon) }
    else if c == '.' { op1(c, st, Kind::Dot) }
    else { (Err(unexpected(c, line, col)), st) }
}

/// The next token (or error) from a position, and the position after it.
pub open spec fn lex_next(s: Seq<char>, st: LexPos) -> (Result<LTok, Seq<char>>, LexPos)
    decreases s.len() - st.pos,
{
    let st1 = skip_ws(s, st);
    if st1.pos >= s.len() || st.pos > s.len() {
        (Ok(LTok { kind: Kind::Eof, lexeme: Seq::empty(), line: st1.line, col: st1.col }), st1)
    } else {
        let c = s[st1.pos as int];
        let st2 = adv(s, st1);
        if c == '\n' {
            (Ok(LTok { kind: Kind::Newline, lexeme: seq!['\n'], line: st1.line, col: st1.col }), st2)
        } else if c == '/' && peek(s, st2) == Some('/') {
            let st3 = skip_line(s, st2);
            if st3.pos > st.pos && st3.pos <= s.len() { lex_next(s, st3) } else { (Err(Seq::empty()), st3) }
        } else if is_digit(c) {
            lex_number(s, st1.pos, st2, st1.line, st1.col)
        } else if unicode_alphabetic(c) || c == '_' {
            lex_word(s, st1.pos, st2, st1.line, st1.col)
        } else if c == '"' {
            lex_string(s, st2, Seq::empty(), st1.line, st1.col)
        } else {
            lex_op(s, c, st2, st1.line, st1.col)
        }
    }
}

/// At most `n` tokens from a position, ending with the end token, or the first error.
pub open spec fn lex_all(s: Seq<char>, st: LexPos, n: nat) -> Result<Seq<LTok>, Seq<char>>
    decreases n,
{
    if n == 0 {
        Ok(Seq::empty())
    } else {
        match lex_next(s, st).0 {
            Err(e) => Err(e),
            Ok(t) => if t.kind is Eof {
                Ok(seq![t])
            } else {
                match lex_all(s, lex_next(s, st).1, (n - 1) as nat) {
                    Ok(rest) => Ok(seq![t] + rest),
                    Err(e) => Err(e),
                }
            },
        }
    }
}

/// All tokens of a text, or the first error.
pub open spec fn lex_spec(s: Seq<char>) -> Result<Seq<LTok>, Seq<char>> {
    lex_all(s, start_pos(), s.len() + 1)
}

/// A token's value.
pub open spec fn tok_value(t: Token) -> LTok {
    LTok { kind: t.kind@, lexeme: t.lexeme@, line: t.line as nat, col: t.column as nat }
}

/// Lexer state over a source text.
pub struct Lexer {
    /// Source characters
    source: Vec<char>,
    /// Index of the next character
    current: usize,
    /// Current line
    line: usize,
    /// Current column
    column: usize,
}

/// Appends "` at line L, column C`".
fn push_at(v: &mut Vec<char>, line: usize, col: usize)
    ensures
        final(v)@ == old(v)@ + at_text(line as nat, col as nat),
{
    push_str(v, " at line ");
    push_dec(v, line as u64);
    push_str(v, ", column ");
    push_dec(v, col as u64);
    assert(final(v)@ =~= old(v)@ + at_text(line as nat, col as nat));
}

fn unexpected_error(c: char, line: usize, col: usize) -> (e: String)
    ensures
        e@ == unexpected(c, line as nat, col as nat),
{
    let mut v: Vec<char> = Vec::new();
    push_str(&mut v, "Unexpected character '");
    v.push(c);
    push_str(&mut v, "'");
    push_at(&mut v, line, col);
    assert(v@ =~= unexpected(c, line as nat, col as nat));
    chars_to_string(&v)
}

fn unterminated_error(line: usize, col: usize) -> (e: String)
    ensures
        e@ == unterminated(line as nat, col as nat),
{
    let mut v: Vec<char> = Vec::new();
    push_str(&mut v, "Unterminated string");
    push_at(&mut v, line, col);
    chars_to_string(&v)
}

fn one_char(c: char) -> (s: String)
    ensures
        s@ == seq![c],
{
    let v: Vec<char> = vec![c];
    assert(v@ =~= seq![c]);
    chars_to_string(&v)
}

fn word_kind_exec(w: &Vec<char>) -> (k: TokenKind)
    ensures
        k@ == word_kind(w@),
{
    if chars_eq(w, &str_to_chars("let")) { TokenKind::Let }
    else if chars_eq(w, &str_to_chars("const")) { TokenKind::Const }
    else if chars_eq(w, &str_to_chars("fn")) { TokenKind::Fn }
    else if chars_eq(w, &str_to_chars("if")) { TokenKind::If }
    else if chars_eq(w, &str_to_chars("else")) { TokenKind::Else }
    else if chars_eq(w, &str_to_chars("while")) { TokenKind::While }
    else if chars_eq(w, &str_to_chars("for")) { TokenKind::For }
    else if chars_eq(w, &str_to_chars("in")) { TokenKind::In }
    else if chars_eq(w, &str_to_chars("return")) { TokenKind::Return }
    else if chars_eq(w, &str_to_chars("struct")) { TokenKind::Struct }
    else if chars_eq(w, &str_to_chars("true")) { TokenKind::True }
    else if chars_eq(w, &str_to_chars("false")) { TokenKind::False }
    else if chars_eq(w, &str_to_chars("int")) { TokenKind::TypeInt }
    else if chars_eq(w, &str_to_chars("float")) { TokenKind::TypeFloat }
    else if chars_eq(w, &str_to_chars("bool")) { TokenKind::TypeBool }
    else if chars_eq(w, &str_to_chars("string")) { TokenKind::TypeString }
    else if chars_eq(w, &str_to_chars("char")) { TokenKind::TypeChar }
    else { TokenKind::Identifier(chars_to_string(w)) }
}

impl Lexer {
    /// The source characters.
    pub closed spec fn src(&self) -> Seq<char> {
        self.source@
    }

    /// The current position.
    pub closed spec fn at(&self) -> LexPos {
        LexPos { pos: self.current as nat, line: self.line as nat, col: self.column as nat }
    }

    /// Position, line and column stay in range.
    pub open spec fn wf(&self) -> bool {
        &&& self.src().len() < usize::MAX
        &&& self.at().pos <= self.src().len()
        &&& 1 <= self.at().line <= self.at().pos + 1
        &&& 1 <= self.at().col <= self.at().pos + 1
    }

    /// A lexer at the start of `source`.
    pub fn new(source: &str) -> (l: Self)
        requires
            source@.len() < usize::MAX,
        ensures
            l.wf(),
            l.src() == source@,
            l.at() == start_pos(),
    {
        Self { source: str_to_chars(source), current: 0, line: 1, column: 1 }
    }

    fn advance(&mut self) -> (c: char)
        requires
            old(self).wf(),
            old(self).at().pos < old(self).src().len(),
        ensures
            final(self).wf(),
            final(self).src() == old(self).src(),
            c == old(self).src()[old(self).at().pos as int],
            final(self).at() == adv(old(self).src(), old(self).at()),
    {
        let c = self.source[self.current];
        self.current += 1;
        if c == '\n' {
            self.line += 1;
            self.column = 1;
        } else {
            self.column += 1;
        }
        c
    }

    fn peek(&self) -> (c: Option<char>)
        ensures
            c == peek(self.src(), self.at()),
    {
        if self.current >= self.source.len() { None } else { Some(self.source[self.current]) }
    }

    fn peek_next(&self) -> (c: Option<char>)
        requires
            self.wf(),
        ensures
            c == peek_next(self.src(), self.at()),
    {
        if self.current + 1 >= self.source.len() { None } else { Some(self.source[self.current + 1]) }
    }

    fn skip_whitespace(&mut self)
        requires
            old(self).wf(),
        ensures
            final(self).wf(),
            final(self).src() == old(self).src(),
            final(self).at() == skip_ws(old(self).src(), old(self).at()),
    {
        loop
            invariant
                self.wf(),
                self.src() == old(self).src(),
                skip_ws(self.src(), old(self).at()) == skip_ws(self.src(), self.at()),
            decreases self.src().len() - self.at().pos,
        {
            match self.peek() {
                Some(c) => {
                    if c == ' ' || c == '\t' || c == '\r' {
                        self.advance();
                    } else {
                        return;
                    }
                },
                None => return,
            }
        }
    }

    fn skip_line_comment(&mut self)
        requires
            old(self).wf(),
        ensures
            final(self).wf(),
            final(self).src() == old(self).src(),
            final(self).at() == skip_line(old(self).src(), old(self).at()),
    {
        loop
            invariant
                self.wf(),
                self.src() == old(self).src(),
                skip_line(self.src(), old(self).at()) == skip_line(self.src(), self.at()),
            decreases self.src().len() - self.at().pos,
        {
            match self.peek() {
                Some(c) => {
                    if c == '\n' {
                        return;
                    }
                    self.advance();
                },
                None => return,
            }
        }
    }

    /// Consumes digits, appending them to `text`.
    fn take_digits(&mut self, text: &mut Vec<char>)
        requires
            old(self).wf(),
        ensures
            final(self).wf(),
            final(self).src() == old(self).src(),
            final(self).at() == digit_run(old(self).src(), old(self).at()),
            final(text)@ == old(text)@ + old(self).src().subrange(old(self).at().pos as int, final(self).at().pos as int),
            final(self).at().pos >= old(self).at().pos,
    {
        loop
            invariant
                self.wf(),
                self.src() == old(self).src(),
                old(self).at().pos <= self.at().pos,
                digit_run(self.src(), old(self).at()) == digit_run(self.src(), self.at()),
                text@ == old(text)@ + self.src().subrange(old(self).at().pos as int, self.at().pos as int),
            decreases self.src().len() - self.at().pos,
        {
            match self.peek() {
                Some(c) => {
                    if '0' <= c && c <= '9' {
                        text.push(c);
                        self.advance();
                        assert(text@ =~= old(text)@ + self.src().subrange(old(self).at().pos as int, self.at().pos as int));
                    } else {
                        return;
                    }
                },
                None => return,
            }
        }
    }

    fn number(&mut self, first: char, line: usize, column: usize) -> (r: Result<Token, String>)
        requires
            old(self).wf(),
            old(self).at().pos >= 1,
            first == old(self).src()[old(self).at().pos - 1],
            is_digit(first),
        ensures
            final(self).wf(),
            final(self).src() == old(self).src(),
            ({
                let (res, st) = lex_number(old(self).src(), (old(self).at().pos - 1) as nat, old(self).at(), line as nat, column as nat);
                &&& final(self).at() == st
                &&& match res {
                    Ok(t) => r is Ok && tok_value(r->Ok_0) == t,
                    Err(e) => r is Err && r->Err_0@ == e,
                }
            }),
            final(self).at().pos >= old(self).at().pos,
    {
        let ghost s = self.src();
        let ghost p0 = (self.at().pos - 1) as nat;
        let mut text: Vec<char> = vec![first];
        assert(text@ =~= s.subrange(p0 as int, self.at().pos as int));
        self.take_digits(&mut text);
        assert(text@ =~= s.subrange(p0 as int, self.at().pos as int));
        let ghost e1 = self.at();
        let dot = self.peek();
        let after = self.peek_next();
        let frac = match dot {
            Some(c) => c == '.' && match after {
                Some(d) => '0' <= d && d <= '9',
                None => false,
            },
            None => false,
        };
        if frac {
            text.push('.');
            self.advance();
            assert(text@ =~= s.subrange(p0 as int, self.at().pos as int));
            self.take_digits(&mut text);
            assert(text@ =~= s.subrange(p0 as int, self.at().pos as int));
            let t = chars_to_string(&text);
            let lexeme = chars_to_string(&text);
            return Ok(Token::new(TokenKind::Float(t), lexeme, line, column));
        }
        let mut all_digits = true;
        let mut i: usize = 0;
        while i < text.len()
            invariant
                i <= text@.len(),
                all_digits == forall|j: int| 0 <= j < i ==> is_digit(#[trigger] text@[j]),
            decreases text@.len() - i,
        {
            if !('0' <= text[i] && text[i] <= '9') {
                all_digits = false;
            }
            i += 1;
        }
        proof {
            assert forall|j: int| 0 <= j < text@.len() implies is_digit(#[trigger] text@[j]) by {
                lemma_digit_run_digits(s, old(self).at(), p0 + j);
                assert(text@[j] == s[p0 + j]);
            }
        }
        match read_number(&text, 10, 0x7FFF_FFFF) {
            Some(v) => Ok(Token::new(TokenKind::Integer(v as i32), chars_to_string(&text), line, column)),
            None => {
                let mut m: Vec<char> = Vec::new();
                push_str(&mut m, "Invalid integer '");
                let ghost before = m@;
                let mut k: usize = 0;
                while k < text.len()
                    invariant
                        k <= text@.len(),
                        m@ == before + text@.subrange(0, k as int),
                    decreases text@.len() - k,
                {
                    m.push(text[k]);
                    k += 1;
                    assert(m@ =~= before + text@.subrange(0, k as int));
                }
                push_str(&mut m, "'");
                push_at(&mut m, line, column);
                assert(text@.subrange(0, text@.len() as int) =~= text@);
                assert(m@ =~= "Invalid integer '"@ + text@ + "'"@ + at_text(line as nat, column as nat));
                Err(chars_to_string(&m))
            },
        }
    }

    fn identifier(&mut self, first: char, line: usize, column: usize) -> (r: Result<Token, String>)
        requires
            old(self).wf(),
            old(self).at().pos >= 1,
            first == old(self).src()[old(self).at().pos - 1],
        ensures
            final(self).wf(),
            final(self).src() == old(self).src(),
            ({
                let (res, st) = lex_word(old(self).src(), (old(self).at().pos - 1) as nat, old(self).at(), line as nat, column as nat);
                &&& final(self).at() == st
                &&& match res {
                    Ok(t) => r is Ok && tok_value(r->Ok_0) == t,
                    Err(e) => r is Err && r->Err_0@ == e,
                }
            }),
            final(self).at().pos >= old(self).at().pos,
    {
        let ghost s = self.src();
        let ghost p0 = (self.at().pos - 1) as nat;
        let mut ident: Vec<char> = vec![first];
        assert(ident@ =~= s.subrange(p0 as int, self.at().pos as int));
        loop
            invariant
                self.wf(),
                self.src() == s,
                old(self).at().pos <= self.at().pos,
                ident_run(s, old(self).at()) == ident_run(s, self.at()),
                ident@ == s.subrange(p0 as int, self.at().pos as int),
                p0 + 1 == old(self).at().pos,
                s == old(self).src(),
            ensures
                self.wf(),
                self.src() == s,
                old(self).at().pos <= self.at().pos,
                self.at() == ident_run(s, old(self).at()),
                ident@ == s.subrange(p0 as int, self.at().pos as int),
            decreases s.len() - self.at().pos,
        {
            match self.peek() {
                Some(c) => {
                    if char_is_alphanumeric(c) || c == '_' {
                        ident.push(c);
                        self.advance();
                        assert(ident@ =~= s.subrange(p0 as int, self.at().pos as int));
                    } else {
                        break;
                    }
                },
                None => break,
            }
        }
        let kind = word_kind_exec(&ident);
        Ok(Token::new(kind, chars_to_string(&ident), line, column))
    }

    fn string(&mut self, line: usize, column: usize) -> (r: Result<Token, String>)
        requires
            old(self).wf(),
        ensures
            final(self).wf(),
            final(self).src() == old(self).src(),
            ({
                let (res, st) = lex_string(old(self).src(), old(self).at(), Seq::empty(), line as nat, column as nat);
                &&& final(self).at() == st
                &&& match res {
                    Ok(t) => r is Ok && tok_value(r->Ok_0) == t,
                    Err(e) => r is Err && r->Err_0@ == e,
                }
            }),
            final(self).at().pos >= old(self).at().pos,
    {
        let ghost s = self.src();
        let mut value: Vec<char> = Vec::new();
        loop
            invariant
                self.wf(),
                self.src() == s,
                old(self).at().pos <= self.at().pos,
                lex_string(s, old(self).at(), Seq::empty(), line as nat, column as nat)
                    == lex_string(s, self.at(), value@, line as nat, column as nat),
                s == old(self).src(),
            decreases s.len() - self.at().pos,
        {
            let c = match self.peek() {
                Some(c) => c,
                None => return Err(unterminated_error(line, column)),
            };
            if c == '"' {
                self.advance();
                let mut lex: Vec<char> = Vec::new();
                lex.push('"');
                let ghost before = lex@;
                let mut k: usize = 0;
                while k < value.len()
                    invariant
                        k <= value@.len(),
                        lex@ == before + value@.subrange(0, k as int),
                    decreases value@.len() - k,
                {
                    lex.push(value[k]);
                    k += 1;
                    assert(lex@ =~= before + value@.subrange(0, k as int));
                }
                lex.push('"');
                assert(value@.subrange(0, value@.len() as int) =~= value@);
                assert(lex@ =~= seq!['"'] + value@ + seq!['"']);
                return Ok(Token::new(TokenKind::String(chars_to_string(&value)), chars_to_string(&lex), line, column));
            } else if c == '\\' {
                self.advance();
                let e = match self.peek() {
                    Some(e) => e,
                    None => return Err(unterminated_error(line, column)),
                };
                self.advance();
                let v = if e == 'n' { '\n' } else if e == 't' { '\t' } else if e == 'r' { '\r' } else if e == '\\' { '\\' }
                    else if e == '"' { '"' } else {
                    let mut m: Vec<char> = Vec::new();
                    push_str(&mut m, "Invalid escape sequence '\\");
                    m.push(e);
                    push_str(&mut m, "'");
                    push_at(&mut m, self.line, self.column);
                    assert(m@ =~= "Invalid escape sequence '\\"@ + seq![e] + "'"@ + at_text(self.line as nat, self.column as nat));
                    return Err(chars_to_string(&m));
                };
                value.push(v);
            } else if c == '\n' {
                return Err(unterminated_error(line, column));
            } else {
                value.push(c);
                self.advance();
            }
        }
    }

    fn lex_operator(&mut self, c: char, line: usize, column: usize) -> (r: Result<Token, String>)
        requires
            old(self).wf(),
        ensures
            final(self).wf(),
            final(self).src() == old(self).src(),
            ({
                let (res, st) = lex_op(old(self).src(), c, old(self).at(), line as nat, column as nat);
                &&& final(self).at() == st
                &&& match res {
                    Ok(t) => r is Ok && tok_value(r->Ok_0) == t,
                    Err(e) => r is Err && r->Err_0@ == e,
                }
            }),
            final(self).at().pos >= old(self).at().pos,
    {
        let next = self.peek();
        let kind = if c == '+' {
            TokenKind::Plus
        } else if c == '-' {
            if next == Some('>') { self.advance(); TokenKind::Arrow } else { TokenKind::Minus }
        } else if c == '*' {
            TokenKind::Star
        } else if c == '/' {
            TokenKind::Slash
        } else if c == '%' {
            TokenKind::Percent
        } else if c == '=' {
            if next == Some('=') { self.advance(); TokenKind::EqualEqual } else { TokenKind::Equal }
        } else if c == '!' {
            if next == Some('=') { self.advance(); TokenKind::BangEqual } else { TokenKind::Bang }
        } else if c == '<' {
            if next == Some('=') { self.advance(); TokenKind::LessEqual } else { TokenKind::Less }
        } else if c == '>' {
            if next == Some('=') { self.advance(); TokenKind::GreaterEqual } else { TokenKind::Greater }
        } else if c == '&' {
            if next == Some('&') {
                self.advance();
                TokenKind::And
            } else {
                return Err(unexpected_error('&', line, column));
            }
        } else if c == '|' {
            if next == Some('|') { self.advance(); TokenKind::Or } else { TokenKind::Pipe }
        } else if c == '(' {
            TokenKind::LeftParen
        } else if c == ')' {
            TokenKind::RightParen
        } else if c == '{' {
            TokenKind::LeftBrace
        } else if c == '}' {
            TokenKind::RightBrace
        } else if c == '[' {
            TokenKind::LeftBracket
        } else if c == ']' {
            TokenKind::RightBracket
        } else if c == ',' {
            TokenKind::Comma
        } else if c == ':' {
            TokenKind::Colon
        } else if c == ';' {
            TokenKind::Semicolon
        } else if c == '.' {
            TokenKind::Dot
        } else {
            return Err(unexpected_error(c, line, column));
        };
        Ok(Token::new(kind, one_char(c), self.line, self.column))
    }

    fn next_token(&mut self) -> (r: Result<Token, String>)
        requires
            old(self).wf(),
        ensures
            final(self).wf(),
            final(self).src() == old(self).src(),
            ({
                let (res, st) = lex_next(old(self).src(), old(self).at());
                &&& final(self).at() == st
                &&& match res {
                    Ok(t) => r is Ok && tok_value(r->Ok_0) == t,
                    Err(e) => r is Err && r->Err_0@ == e,
                }
            }),
            r is Ok && !(r->Ok_0.kind@ is Eof) ==> final(self).at().pos > old(self).at().pos,
            final(self).at().pos >= old(self).at().pos,
    {
        let ghost s = self.src();
        loop
            invariant
                self.wf(),
                self.src() == s,
                old(self).at().pos <= self.at().pos,
                lex_next(s, old(self).at()) == lex_next(s, self.at()),
                s == old(self).src(),
            decreases s.len() - self.at().pos,
        {
            proof {
                lemma_runs(s, self.at());
            }
            let ghost st = self.at();
            self.skip_whitespace();
            if self.current >= self.source.len() {
                let empty: Vec<char> = Vec::new();
                return Ok(Token::new(TokenKind::Eof, chars_to_string(&empty), self.line, self.column));
            }
            let start_line = self.line;
            let start_column = self.column;
            let ghost st1 = self.at();
            let c = self.advance();
            if c == '\n' {
                return Ok(Token::new(TokenKind::Newline, one_char('\n'), start_line, start_column));
            }
            if c == '/' && self.peek() == Some('/') {
                proof {
                    lemma_runs(s, self.at());
                }
                self.skip_line_comment();
                continue;
            }
            if '0' <= c && c <= '9' {
                return self.number(c, start_line, start_column);
            }
            if char_is_alphabetic(c) || c == '_' {
                return self.identifier(c, start_line, start_column);
            }
            if c == '"' {
                return self.string(start_line, start_column);
            }
            return self.lex_operator(c, start_line, start_column);
        }
    }

    /// All tokens up to and including the end token, or the first error.
    pub fn tokenize(&mut self) -> (r: Result<Vec<Token>, String>)
        requires
            old(self).wf(),
        ensures
            match lex_all(old(self).src(), old(self).at(), (old(self).src().len() + 1 - old(self).at().pos) as nat) {
                Ok(ts) => r is Ok && r->Ok_0@.len() == ts.len()
                    && forall|i: int| 0 <= i < ts.len() ==> tok_value(#[trigger] r->Ok_0@[i]) == ts[i],
                Err(e) => r is Err && r->Err_0@ == e,
            },
    {
        let ghost s = self.src();
        let ghost total = lex_all(s, self.at(), (s.len() + 1 - self.at().pos) as nat);
        let mut tokens: Vec<Token> = Vec::new();
        let ghost mut fuel: nat = (s.len() + 1 - self.at().pos) as nat;
        let ghost mut done: Seq<LTok> = Seq::empty();
        loop
            invariant
                self.wf(),
                self.src() == s,
                s == old(self).src(),
                total == lex_all(s, old(self).at(), (s.len() + 1 - old(self).at().pos) as nat),
                fuel >= s.len() - self.at().pos + 1,
                tokens@.len() == done.len(),
                forall|i: int| 0 <= i < done.len() ==> tok_value(#[trigger] tokens@[i]) == done[i],
                match lex_all(s, self.at(), fuel) {
                    Ok(rest) => total == Ok::<Seq<LTok>, Seq<char>>(done + rest),
                    Err(e) => total == Err::<Seq<LTok>, Seq<char>>(e),
                },
            decreases fuel,
        {
            let ghost st = self.at();
            let token = match self.next_token() {
                Ok(t) => t,
                Err(e) => return Err(e),
            };
            let is_eof = matches!(token.kind, TokenKind::Eof);
            proof {
                if !is_eof {
                    assert(lex_all(s, st, fuel) == match lex_all(s, self.at(), (fuel - 1) as nat) {
                        Ok(rest) => Ok(seq![tok_value(token)] + rest),
                        Err(e) => Err::<Seq<LTok>, Seq<char>>(e),
                    });
                } else {
                    assert(lex_all(s, st, fuel) == Ok::<Seq<LTok>, Seq<char>>(seq![tok_value(token)]));
                }
                let old_done = done;
                done = done.push(tok_value(token));
                match lex_all(s, self.at(), (fuel - 1) as nat) {
                    Ok(rest) => { assert(old_done + (seq![tok_value(token)] + rest) =~= done + rest); },
                    Err(e) => {},
                }
            }
            tokens.push(token);
            assert(forall|i: int| 0 <= i < done.len() ==> tok_value(#[trigger] tokens@[i]) == done[i]);
            if is_eof {
                return Ok(tokens);
            }
            proof {
                fuel = (fuel - 1) as nat;
            }
        }
    }
}

/// The scans never move back and stay within the text.
proof fn lemma_runs(s: Seq<char>, st: LexPos)
    ensures
        st.pos <= skip_ws(s, st).pos,
        st.pos <= skip_line(s, st).pos,
        st.pos <= s.len() ==> skip_line(s, st).pos <= s.len(),
        st.pos <= s.len() ==> skip_ws(s, st).pos <= s.len(),
    decreases s.len() - st.pos,
{
    if st.pos < s.len() {
        lemma_runs(s, adv(s, st));
    }
}

/// Every character a digit run passes over is a digit.
proof fn lemma_digit_run_digits(s: Seq<char>, st: LexPos, k: int)
    ensures
        st.pos <= k < digit_run(s, st).pos ==> is_digit(s[k]),
        st.pos <= digit_run(s, st).pos,
    decreases s.len() - st.pos,
{
    if st.pos < s.len() && is_digit(s[st.pos as int]) {
        lemma_digit_run_digits(s, adv(s, st), k);
    }
}

} // verus!
