use vos::assembly::lexer::{Lexer, Token};

#[test]
fn test_tokenize_registers() {
    let mut lexer = Lexer::new("R0 R1 R15");
    assert_eq!(lexer.next_token(), Token::Register(0));
    assert_eq!(lexer.next_token(), Token::Register(1));
    assert_eq!(lexer.next_token(), Token::Register(15));
}

#[test]
fn test_tokenize_numbers() {
    let mut lexer = Lexer::new("42 -10 0xFF");
    assert_eq!(lexer.next_token(), Token::Number(42));
    assert_eq!(lexer.next_token(), Token::Number(-10));
    assert_eq!(lexer.next_token(), Token::Number(255));
}

#[test]
fn test_tokenize_mnemonic() {
    let mut lexer = Lexer::new("ADD SUB ADDI");
    assert_eq!(lexer.next_token(), Token::Mnemonic("ADD".to_string()));
    assert_eq!(lexer.next_token(), Token::Mnemonic("SUB".to_string()));
    assert_eq!(lexer.next_token(), Token::Mnemonic("ADDI".to_string()));
}

#[test]
fn test_tokenize_label() {
    let mut lexer = Lexer::new("start: loop");
    assert_eq!(lexer.next_token(), Token::LabelDef("start".to_string()));
    assert_eq!(lexer.next_token(), Token::Label("loop".to_string()));
}

#[test]
fn test_tokenize_instruction() {
    let mut lexer = Lexer::new("ADD R1, R2, R3");
    assert_eq!(lexer.next_token(), Token::Mnemonic("ADD".to_string()));
    assert_eq!(lexer.next_token(), Token::Register(1));
    assert_eq!(lexer.next_token(), Token::Comma);
    assert_eq!(lexer.next_token(), Token::Register(2));
    assert_eq!(lexer.next_token(), Token::Comma);
    assert_eq!(lexer.next_token(), Token::Register(3));
}

#[test]
fn test_skip_comments() {
    let mut lexer = Lexer::new("; This is a comment\nADD R1, R2, R3");
    assert_eq!(lexer.next_token(), Token::Newline);
    assert_eq!(lexer.next_token(), Token::Mnemonic("ADD".to_string()));
}

#[test]
fn test_newlines() {
    let mut lexer = Lexer::new("ADD R1, R2, R3\nSUB R4, R5, R6");
    lexer.next_token(); // ADD
    lexer.next_token(); // R1
    lexer.next_token(); // ,
    lexer.next_token(); // R2
    lexer.next_token(); // ,
    lexer.next_token(); // R3
    assert_eq!(lexer.next_token(), Token::Newline);
    assert_eq!(lexer.next_token(), Token::Mnemonic("SUB".to_string()));
}

#[test]
fn tokenize_ends_with_eof() {
    let mut lexer = Lexer::new("HALT");
    assert_eq!(lexer.tokenize(), vec![Token::Mnemonic("HALT".to_string()), Token::Eof]);
}

#[test]
fn lowercase_words_are_labels() {
    let mut lexer = Lexer::new("addi r2");
    assert_eq!(lexer.next_token(), Token::Label("addi".to_string()));
    assert_eq!(lexer.next_token(), Token::Register(2));
}
