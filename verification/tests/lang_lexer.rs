use vos::lang::lexer::Lexer;
use vos::lang::token::TokenKind;

#[test]
fn test_integers() {
    let mut lexer = Lexer::new("42 123 0");
    let tokens = lexer.tokenize().unwrap();

    assert_eq!(tokens.len(), 4); // 3 integers + EOF
    assert_eq!(tokens[0].kind, TokenKind::Integer(42));
    assert_eq!(tokens[1].kind, TokenKind::Integer(123));
    assert_eq!(tokens[2].kind, TokenKind::Integer(0));
}

#[test]
fn test_floats() {
    let mut lexer = Lexer::new("3.14 0.5 100.0");
    let tokens = lexer.tokenize().unwrap();

    assert_eq!(tokens.len(), 4);
    assert!(matches!(&tokens[0].kind, TokenKind::Float(s) if s == "3.14"));
    assert!(matches!(&tokens[1].kind, TokenKind::Float(s) if s == "0.5"));
    assert!(matches!(&tokens[2].kind, TokenKind::Float(s) if s == "100.0"));
}

#[test]
fn test_strings() {
    let mut lexer = Lexer::new(r#""hello" "world" "hello\nworld""#);
    let tokens = lexer.tokenize().unwrap();

    assert_eq!(tokens.len(), 4);
    assert!(matches!(&tokens[0].kind, TokenKind::String(s) if s == "hello"));
    assert!(matches!(&tokens[1].kind, TokenKind::String(s) if s == "world"));
    assert!(matches!(&tokens[2].kind, TokenKind::String(s) if s == "hello\nworld"));
}

#[test]
fn test_keywords() {
    let mut lexer = Lexer::new("let const fn if else while for in return");
    let tokens = lexer.tokenize().unwrap();

    assert_eq!(tokens[0].kind, TokenKind::Let);
    assert_eq!(tokens[1].kind, TokenKind::Const);
    assert_eq!(tokens[2].kind, TokenKind::Fn);
    assert_eq!(tokens[3].kind, TokenKind::If);
    assert_eq!(tokens[4].kind, TokenKind::Else);
    assert_eq!(tokens[5].kind, TokenKind::While);
    assert_eq!(tokens[6].kind, TokenKind::For);
    assert_eq!(tokens[7].kind, TokenKind::In);
    assert_eq!(tokens[8].kind, TokenKind::Return);
}

#[test]
fn test_identifiers() {
    let mut lexer = Lexer::new("x foo bar_123 _test");
    let tokens = lexer.tokenize().unwrap();

    assert!(matches!(&tokens[0].kind, TokenKind::Identifier(s) if s == "x"));
    assert!(matches!(&tokens[1].kind, TokenKind::Identifier(s) if s == "foo"));
    assert!(matches!(&tokens[2].kind, TokenKind::Identifier(s) if s == "bar_123"));
    assert!(matches!(&tokens[3].kind, TokenKind::Identifier(s) if s == "_test"));
}

#[test]
fn test_operators() {
    let mut lexer = Lexer::new("+ - * / % = == != < <= > >= ! && || ->");
    let tokens = lexer.tokenize().unwrap();

    assert_eq!(tokens[0].kind, TokenKind::Plus);
    assert_eq!(tokens[1].kind, TokenKind::Minus);
    assert_eq!(tokens[2].kind, TokenKind::Star);
    assert_eq!(tokens[3].kind, TokenKind::Slash);
    assert_eq!(tokens[4].kind, TokenKind::Percent);
    assert_eq!(tokens[5].kind, TokenKind::Equal);
    assert_eq!(tokens[6].kind, TokenKind::EqualEqual);
    assert_eq!(tokens[7].kind, TokenKind::BangEqual);
    assert_eq!(tokens[8].kind, TokenKind::Less);
    assert_eq!(tokens[9].kind, TokenKind::LessEqual);
    assert_eq!(tokens[10].kind, TokenKind::Greater);
    assert_eq!(tokens[11].kind, TokenKind::GreaterEqual);
    assert_eq!(tokens[12].kind, TokenKind::Bang);
    assert_eq!(tokens[13].kind, TokenKind::And);
    assert_eq!(tokens[14].kind, TokenKind::Or);
    assert_eq!(tokens[15].kind, TokenKind::Arrow);
}

#[test]
fn test_delimiters() {
    let mut lexer = Lexer::new("( ) { } [ ] , : ; .");
    let tokens = lexer.tokenize().unwrap();

    assert_eq!(tokens[0].kind, TokenKind::LeftParen);
    assert_eq!(tokens[1].kind, TokenKind::RightParen);
    assert_eq!(tokens[2].kind, TokenKind::LeftBrace);
    assert_eq!(tokens[3].kind, TokenKind::RightBrace);
    assert_eq!(tokens[4].kind, TokenKind::LeftBracket);
    assert_eq!(tokens[5].kind, TokenKind::RightBracket);
    assert_eq!(tokens[6].kind, TokenKind::Comma);
    assert_eq!(tokens[7].kind, TokenKind::Colon);
    assert_eq!(tokens[8].kind, TokenKind::Semicolon);
    assert_eq!(tokens[9].kind, TokenKind::Dot);
}

#[test]
fn test_comments() {
    let mut lexer = Lexer::new("let x = 42 // this is a comment\nlet y = 10");
    let tokens = lexer.tokenize().unwrap();

    // Should have: let, x, =, 42, newline, let, y, =, 10, EOF
    assert_eq!(tokens.len(), 10);
    assert_eq!(tokens[0].kind, TokenKind::Let);
    assert!(matches!(&tokens[1].kind, TokenKind::Identifier(s) if s == "x"));
    assert_eq!(tokens[2].kind, TokenKind::Equal);
    assert_eq!(tokens[3].kind, TokenKind::Integer(42));
    assert_eq!(tokens[4].kind, TokenKind::Newline);
    assert_eq!(tokens[5].kind, TokenKind::Let);
}

#[test]
fn test_simple_program() {
    let source = r#"
fn factorial(n: int) -> int {
    if n <= 1 {
        return 1
    }
    return n * factorial(n - 1)
}
"#;
    let mut lexer = Lexer::new(source);
    let tokens = lexer.tokenize().unwrap();

    // Should successfully tokenize
    assert!(tokens.len() > 20); // Many tokens
    assert_eq!(tokens[1].kind, TokenKind::Fn); // First non-newline token
}

#[test]
fn unterminated_string_is_an_error() {
    let mut lexer = Lexer::new("\"abc");
    assert!(lexer.tokenize().is_err());
}

#[test]
fn token_positions_are_recorded() {
    let mut lexer = Lexer::new("let\n  x");
    let tokens = lexer.tokenize().unwrap();
    assert_eq!(tokens[2].kind, TokenKind::Identifier("x".to_string()));
    assert_eq!(tokens[2].line, 2);
}
