//! Tokens of the script language.
use vstd::prelude::*;
use crate::text::{chars_to_string, dec_signed, push_dec_signed, push_str};

verus! {

/// A token with its text and where it starts.
#[derive(Debug, Clone, PartialEq)]
pub struct Token {
    /// Kind of token
    pub kind: TokenKind,
    /// Source text of the token
    pub lexeme: String,
    /// Line number (1-based)
    pub line: usize,
    /// Column number (1-based)
    pub column: usize,
}

impl Token {
    /// A token from its parts.
    pub fn new(kind: TokenKind, lexeme: String, line: usize, column: usize) -> (t: Self)
        ensures
            t == (Token { kind, lexeme, line, column }),
    {
        Self { kind, lexeme, line, column }
    }
}

/// Kinds of token.
#[derive(Debug, Clone, PartialEq, Eq)]
pub enum TokenKind {
    /// Integer literal
    Integer(i32),
    /// Floating-point literal, kept as its text
    Float(String),
    /// String literal
    String(String),
    /// `true`
    True,
    /// `false`
    False,
    /// Identifier
    Identifier(String),
    /// `let`
    Let,
    /// `const`
    Const,
    /// `fn`
    Fn,
    /// `if`
    If,
    /// `else`
    Else,
    /// `while`
    While,
    /// `for`
    For,
    /// `in`
    In,
    /// `return`
    Return,
    /// `struct`
    Struct,
    /// `int`
    TypeInt,
    /// `float`
    TypeFloat,
    /// `bool`
    TypeBool,
    /// `string`
    TypeString,
    /// `char`
    TypeChar,
    /// `+`
    Plus,
    /// `-`
    Minus,
    /// `*`
    Star,
    /// `/`
    Slash,
    /// `%`
    Percent,
    /// `=`
    Equal,
    /// `==`
    EqualEqual,
    /// `!=`
    BangEqual,
    /// `<`
    Less,
    /// `<=`
    LessEqual,
    /// `>`
    Greater,
    /// `>=`
    GreaterEqual,
    /// `!`
    Bang,
    /// `&&`
    And,
    /// `||`
    Or,
    /// `->`
    Arrow,
    /// `|`
    Pipe,
    /// `(`
    LeftParen,
    /// `)`
    RightParen,
    /// `{`
    LeftBrace,
    /// `}`
    RightBrace,
    /// `[`
    LeftBracket,
    /// `]`
    RightBracket,
    /// `,`
    Comma,
    /// `:`
    Colon,
    /// `;`
    Semicolon,
    /// `.`
    Dot,
    /// End of line
    Newline,
    /// End of input
    Eof,
}

/// A token kind as a value: texts as character sequences.
pub enum Kind {
    /// Integer literal
    Integer(i32),
    /// Floating-point literal, kept as its text
    Float(Seq<char>),
    /// String literal
    String(Seq<char>),
    /// `true`
    True,
    /// `false`
    False,
    /// Identifier
    Identifier(Seq<char>),
    /// `let`
    Let,
    /// `const`
    Const,
    /// `fn`
    Fn,
    /// `if`
    If,
    /// `else`
    Else,
    /// `while`
    While,
    /// `for`
    For,
    /// `in`
    In,
    /// `return`
    Return,
    /// `struct`
    Struct,
    /// `int`
    TypeInt,
    /// `float`
    TypeFloat,
    /// `bool`
    TypeBool,
    /// `string`
    TypeString,
    /// `char`
    TypeChar,
    /// `+`
    Plus,
    /// `-`
    Minus,
    /// `*`
    Star,
    /// `/`
    Slash,
    /// `%`
    Percent,
    /// `=`
    Equal,
    /// `==`
    EqualEqual,
    /// `!=`
    BangEqual,
    /// `<`
    Less,
    /// `<=`
    LessEqual,
    /// `>`
    Greater,
    /// `>=`
    GreaterEqual,
    /// `!`
    Bang,
    /// `&&`
    And,
    /// `||`
    Or,
    /// `->`
    Arrow,
    /// `|`
    Pipe,
    /// `(`
    LeftParen,
    /// `)`
    RightParen,
    /// `{`
    LeftBrace,
    /// `}`
    RightBrace,
    /// `[`
    LeftBracket,
    /// `]`
    RightBracket,
    /// `,`
    Comma,
    /// `:`
    Colon,
    /// `;`
    Semicolon,
    /// `.`
    Dot,
    /// End of line
    Newline,
    /// End of input
    Eof,
}

impl View for TokenKind {
    type V = Kind;

    open spec fn view(&self) -> Kind {
        match self {
            TokenKind::Integer(n) => Kind::Integer(*n),
            TokenKind::Float(s) => Kind::Float(s@),
            TokenKind::String(s) => Kind::String(s@),
            TokenKind::True => Kind::True,
            TokenKind::False => Kind::False,
            TokenKind::Identifier(s) => Kind::Identifier(s@),
            TokenKind::Let => Kind::Let,
            TokenKind::Const => Kind::Const,
            TokenKind::Fn => Kind::Fn,
            TokenKind::If => Kind::If,
            TokenKind::Else => Kind::Else,
            TokenKind::While => Kind::While,
            TokenKind::For => Kind::For,
            TokenKind::In => Kind::In,
            TokenKind::Return => Kind::Return,
            TokenKind::Struct => Kind::Struct,
            TokenKind::TypeInt => Kind::TypeInt,
            TokenKind::TypeFloat => Kind::TypeFloat,
            TokenKind::TypeBool => Kind::TypeBool,
            TokenKind::TypeString => Kind::TypeString,
            TokenKind::TypeChar => Kind::TypeChar,
            TokenKind::Plus => Kind::Plus,
            TokenKind::Minus => Kind::Minus,
            TokenKind::Star => Kind::Star,
            TokenKind::Slash => Kind::Slash,
            TokenKind::Percent => Kind::Percent,
            TokenKind::Equal => Kind::Equal,
            TokenKind::EqualEqual => Kind::EqualEqual,
            TokenKind::BangEqual => Kind::BangEqual,
            TokenKind::Less => Kind::Less,
            TokenKind::LessEqual => Kind::LessEqual,
            TokenKind::Greater => Kind::Greater,
            TokenKind::GreaterEqual => Kind::GreaterEqual,
            TokenKind::Bang => Kind::Bang,
            TokenKind::And => Kind::And,
            TokenKind::Or => Kind::Or,
            TokenKind::Arrow => Kind::Arrow,
            TokenKind::Pipe => Kind::Pipe,
            TokenKind::LeftParen => Kind::LeftParen,
            TokenKind::RightParen => Kind::RightParen,
            TokenKind::LeftBrace => Kind::LeftBrace,
            TokenKind::RightBrace => Kind::RightBrace,
            TokenKind::LeftBracket => Kind::LeftBracket,
            TokenKind::RightBracket => Kind::RightBracket,
            TokenKind::Comma => Kind::Comma,
            TokenKind::Colon => Kind::Colon,
            TokenKind::Semicolon => Kind::Semicolon,
            TokenKind::Dot => Kind::Dot,
            TokenKind::Newline => Kind::Newline,
            TokenKind::Eof => Kind::Eof,
        }
    }
}

/// Printed form of a token kind.
pub open spec fn kind_text(k: Kind) -> Seq<char> {
    match k {
        Kind::Integer(n) => "INTEGER("@ + dec_signed(n as int) + ")"@,
        Kind::Float(s) => "FLOAT("@ + s + ")"@,
        Kind::String(s) => "STRING(\""@ + s + "\")"@,
        Kind::Identifier(s) => "IDENT("@ + s + ")"@,
        Kind::True => "true"@,
        Kind::False => "false"@,
        Kind::Let => "let"@,
        Kind::Const => "const"@,
        Kind::Fn => "fn"@,
        Kind::If => "if"@,
        Kind::Else => "else"@,
        Kind::While => "while"@,
        Kind::For => "for"@,
        Kind::In => "in"@,
        Kind::Return => "return"@,
        Kind::Struct => "struct"@,
        Kind::TypeInt => "int"@,
        Kind::TypeFloat => "float"@,
        Kind::TypeBool => "bool"@,
        Kind::TypeString => "string"@,
        Kind::TypeChar => "char"@,
        Kind::Plus => "+"@,
        Kind::Minus => "-"@,
        Kind::Star => "*"@,
        Kind::Slash => "/"@,
        Kind::Percent => "%"@,
        Kind::Equal => "="@,
        Kind::EqualEqual => "=="@,
        Kind::BangEqual => "!="@,
        Kind::Less => "<"@,
        Kind::LessEqual => "<="@,
        Kind::Greater => ">"@,
        Kind::GreaterEqual => ">="@,
        Kind::Bang => "!"@,
        Kind::And => "&&"@,
        Kind::Or => "||"@,
        Kind::Arrow => "->"@,
        Kind::Pipe => "|"@,
        Kind::LeftParen => "("@,
        Kind::RightParen => ")"@,
        Kind::LeftBrace => "{"@,
        Kind::RightBrace => "}"@,
        Kind::LeftBracket => "["@,
        Kind::RightBracket => "]"@,
        Kind::Comma => ","@,
        Kind::Colon => ":"@,
        Kind::Semicolon => ";"@,
        Kind::Dot => "."@,
        Kind::Newline => "NEWLINE"@,
        Kind::Eof => "EOF"@,
    }
}

impl TokenKind {
    /// The printed form of the kind.
    pub fn text(&self) -> (s: String)
        ensures
            s@ == kind_text(self@),
    {
        let mut v: Vec<char> = Vec::new();
        match self {
            TokenKind::Integer(n) => {
                push_str(&mut v, "INTEGER(");
                push_dec_signed(&mut v, *n as i64);
                push_str(&mut v, ")");
            },
            TokenKind::Float(s) => {
                push_str(&mut v, "FLOAT(");
                push_str(&mut v, s.as_str());
                push_str(&mut v, ")");
            },
            TokenKind::String(s) => {
                push_str(&mut v, "STRING(\"");
                push_str(&mut v, s.as_str());
                push_str(&mut v, "\")");
            },
            TokenKind::Identifier(s) => {
                push_str(&mut v, "IDENT(");
                push_str(&mut v, s.as_str());
                push_str(&mut v, ")");
            },
            TokenKind::True => push_str(&mut v, "true"),
            TokenKind::False => push_str(&mut v, "false"),
            TokenKind::Let => push_str(&mut v, "let"),
            TokenKind::Const => push_str(&mut v, "const"),
            TokenKind::Fn => push_str(&mut v, "fn"),
            TokenKind::If => push_str(&mut v, "if"),
            TokenKind::Else => push_str(&mut v, "else"),
            TokenKind::While => push_str(&mut v, "while"),
            TokenKind::For => push_str(&mut v, "for"),
            TokenKind::In => push_str(&mut v, "in"),
            TokenKind::Return => push_str(&mut v, "return"),
            TokenKind::Struct => push_str(&mut v, "struct"),
            TokenKind::TypeInt => push_str(&mut v, "int"),
            TokenKind::TypeFloat => push_str(&mut v, "float"),
            TokenKind::TypeBool => push_str(&mut v, "bool"),
            TokenKind::TypeString => push_str(&mut v, "string"),
            TokenKind::TypeChar => push_str(&mut v, "char"),
            TokenKind::Plus => push_str(&mut v, "+"),
            TokenKind::Minus => push_str(&mut v, "-"),
            TokenKind::Star => push_str(&mut v, "*"),
            TokenKind::Slash => push_str(&mut v, "/"),
            TokenKind::Percent => push_str(&mut v, "%"),
            TokenKind::Equal => push_str(&mut v, "="),
            TokenKind::EqualEqual => push_str(&mut v, "=="),
            TokenKind::BangEqual => push_str(&mut v, "!="),
            TokenKind::Less => push_str(&mut v, "<"),
            TokenKind::LessEqual => push_str(&mut v, "<="),
            TokenKind::Greater => push_str(&mut v, ">"),
            TokenKind::GreaterEqual => push_str(&mut v, ">="),
            TokenKind::Bang => push_str(&mut v, "!"),
            TokenKind::And => push_str(&mut v, "&&"),
            TokenKind::Or => push_str(&mut v, "||"),
            TokenKind::Arrow => push_str(&mut v, "->"),
            TokenKind::Pipe => push_str(&mut v, "|"),
            TokenKind::LeftParen => push_str(&mut v, "("),
            TokenKind::RightParen => push_str(&mut v, ")"),
            TokenKind::LeftBrace => push_str(&mut v, "{"),
            TokenKind::RightBrace => push_str(&mut v, "}"),
            TokenKind::LeftBracket => push_str(&mut v, "["),
            TokenKind::RightBracket => push_str(&mut v, "]"),
            TokenKind::Comma => push_str(&mut v, ","),
            TokenKind::Colon => push_str(&mut v, ":"),
            TokenKind::Semicolon => push_str(&mut v, ";"),
            TokenKind::Dot => push_str(&mut v, "."),
            TokenKind::Newline => push_str(&mut v, "NEWLINE"),
            TokenKind::Eof => push_str(&mut v, "EOF"),
        }
        chars_to_string(&v)
    }
}

} // verus!
