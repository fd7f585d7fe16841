use vos::assembly::parser::{AsmInstruction, Parser};

#[test]
fn test_parse_rtype() {
    let mut parser = Parser::new("ADD R1, R2, R3");
    let program = parser.parse().unwrap();

    assert_eq!(program.instructions.len(), 1);
    match &program.instructions[0] {
        AsmInstruction::RType {
            mnemonic,
            rd,
            rs,
            rt,
        } => {
            assert_eq!(mnemonic, "ADD");
            assert_eq!(*rd, 1);
            assert_eq!(*rs, 2);
            assert_eq!(*rt, 3);
        }
        _ => panic!("Expected RType instruction"),
    }
}

#[test]
fn test_parse_itype() {
    let mut parser = Parser::new("ADDI R1, R2, 42");
    let program = parser.parse().unwrap();

    assert_eq!(program.instructions.len(), 1);
    match &program.instructions[0] {
        AsmInstruction::IType {
            mnemonic,
            rt,
            rs,
            immediate,
        } => {
            assert_eq!(mnemonic, "ADDI");
            assert_eq!(*rt, 1);
            assert_eq!(*rs, 2);
            assert_eq!(*immediate, 42);
        }
        _ => panic!("Expected IType instruction"),
    }
}

#[test]
fn test_parse_zero_op() {
    let mut parser = Parser::new("HALT\nNOP");
    let program = parser.parse().unwrap();

    assert_eq!(program.instructions.len(), 2);
    assert!(matches!(
        &program.instructions[0],
        AsmInstruction::ZeroOp { mnemonic } if mnemonic == "HALT"
    ));
    assert!(matches!(
        &program.instructions[1],
        AsmInstruction::ZeroOp { mnemonic } if mnemonic == "NOP"
    ));
}

#[test]
fn test_parse_labels() {
    let source = r#"
start:
    ADDI R1, R0, 10
loop:
    SUBI R1, R1, 1
    BNE R1, R0, loop
    HALT
"#;
    let mut parser = Parser::new(source);
    let program = parser.parse().unwrap();

    assert_eq!(program.label("start"), Some(0));
    assert_eq!(program.label("loop"), Some(1));
    assert_eq!(program.instructions.len(), 4);
}

#[test]
fn test_parse_jump() {
    let mut parser = Parser::new("J start");
    let program = parser.parse().unwrap();

    assert_eq!(program.instructions.len(), 1);
    match &program.instructions[0] {
        AsmInstruction::JType { mnemonic, target } => {
            assert_eq!(mnemonic, "J");
            assert_eq!(target, "start");
        }
        _ => panic!("Expected JType instruction"),
    }
}

#[test]
fn test_parse_with_comments() {
    let source = r#"
; This is a comment
ADDI R1, R0, 42  ; Load 42 into R1
HALT
"#;
    let mut parser = Parser::new(source);
    let program = parser.parse().unwrap();

    assert_eq!(program.instructions.len(), 2);
}

#[test]
fn missing_comma_is_an_error() {
    let mut parser = Parser::new("ADD R1 R2, R3");
    assert!(parser.parse().is_err());
}

#[test]
fn error_names_the_unexpected_token() {
    let mut parser = Parser::new("ADD R1, x, R3");
    let err = parser.parse().unwrap_err();
    assert_eq!(err.message(), "Expected register, got Label(\"x\")");
}

#[test]
fn parse_ends_reports_sources_the_parse_would_not_finish() {
    let mut parser = Parser::new("start:\nADD R1, R2, R3\nJ start");
    assert!(parser.parse_ends());
    let program = parser.parse().unwrap();
    assert_eq!(program.instructions.len(), 2);
    assert!(!Parser::new("ADD R1, R2, R3\n7").parse_ends());
    assert!(Parser::new("BOGUS R1").parse_ends());
}

#[test]
fn a_label_defined_twice_names_its_last_definition_once() {
    let mut parser = Parser::new("a:\nNOP\na:\nHALT");
    let program = parser.parse().unwrap();
    assert_eq!(program.labels.len(), 1);
    assert_eq!(program.label("a"), Some(1));
}
