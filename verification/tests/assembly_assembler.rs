use vos::assembly::assembler::{assemble, Assembler};
use vos::cpu::instruction::{Instruction, Opcode};

#[test]
fn test_assemble_simple() {
    let source = "ADDI R1, R0, 42";
    let machine_code = assemble(source).unwrap();

    assert_eq!(machine_code.len(), 4); // 1 instruction * 4 bytes

    // Verify it's a valid instruction
    let word = u32::from_le_bytes([
        machine_code[0],
        machine_code[1],
        machine_code[2],
        machine_code[3],
    ]);

    let decoded = Instruction::decode(word).unwrap();
    assert!(matches!(decoded, Instruction::IType { .. }));
}

#[test]
fn test_assemble_multiple() {
    let source = r#"
            ADDI R1, R0, 10
            ADDI R2, R0, 20
            ADD  R3, R1, R2
            HALT
        "#;

    let machine_code = assemble(source).unwrap();
    assert_eq!(machine_code.len(), 16); // 4 instructions * 4 bytes
}

#[test]
fn test_assemble_with_labels() {
    let source = r#"
start:
    ADDI R1, R0, 5
loop:
    SUBI R1, R1, 1
    BNE R1, R0, loop
    HALT
        "#;

    let machine_code = assemble(source).unwrap();
    assert_eq!(machine_code.len(), 16); // 4 instructions
}

#[test]
fn test_assemble_jump() {
    let source = r#"
    J main
    NOP
main:
    HALT
        "#;

    let machine_code = assemble(source).unwrap();
    assert_eq!(machine_code.len(), 12); // 3 instructions
}

#[test]
fn test_assemble_rtype() {
    let source = "ADD R1, R2, R3";
    let machine_code = assemble(source).unwrap();

    assert_eq!(machine_code.len(), 4);

    let word = u32::from_le_bytes([
        machine_code[0],
        machine_code[1],
        machine_code[2],
        machine_code[3],
    ]);

    let decoded = Instruction::decode(word).unwrap();
    match decoded {
        Instruction::RType { rd, rs, rt, .. } => {
            assert_eq!(rd, 1);
            assert_eq!(rs, 2);
            assert_eq!(rt, 3);
        }
        _ => panic!("Expected RType instruction"),
    }
}

#[test]
fn test_assemble_with_comments() {
    let source = r#"
; Initialize counter
ADDI R1, R0, 10  ; R1 = 10

; Main loop
loop:
    SUBI R1, R1, 1  ; Decrement
    BNE R1, R0, loop ; Loop if not zero

HALT ; Done
        "#;

    let machine_code = assemble(source).unwrap();
    assert_eq!(machine_code.len(), 16); // 4 instructions
}

#[test]
fn assembler_test_base_address() {
    let source = r#"
    J target
target:
    HALT
        "#;

    let assembler = Assembler::new().with_base_address(0x1000);
    let machine_code = assembler.assemble(source).unwrap();

    assert_eq!(machine_code.len(), 8); // 2 instructions
}

#[test]
fn jump_target_is_the_label_byte_address() {
    let assembler = Assembler::new().with_base_address(0x1000);
    let code = assembler.assemble("J target\ntarget:\nHALT").unwrap();
    let word = u32::from_le_bytes([code[0], code[1], code[2], code[3]]);
    assert_eq!(
        Instruction::decode(word).unwrap(),
        Instruction::JType { opcode: Opcode::J, address: 0x1004 }
    );
}

#[test]
fn unknown_label_is_an_error() {
    assert!(assemble("J nowhere").is_err());
}

#[test]
fn assembled_words_decode_to_the_program() {
    let code = assemble("ADDI R1, R0, 5\nSUB R2, R1, R1\nHALT").unwrap();
    let words: Vec<u32> = code.chunks(4).map(|c| u32::from_le_bytes([c[0], c[1], c[2], c[3]])).collect();
    assert_eq!(
        Instruction::decode(words[0]).unwrap(),
        Instruction::IType { opcode: Opcode::ADDI, rt: 1, rs: 0, immediate: 5 }
    );
    assert!(matches!(Instruction::decode(words[1]).unwrap(), Instruction::RType { rd: 2, rs: 1, rt: 1, .. }));
    assert_eq!(
        Instruction::decode(words[2]).unwrap(),
        Instruction::IType { opcode: Opcode::HALT, rt: 0, rs: 0, immediate: 0 }
    );
}

#[test]
fn can_assemble_tells_which_sources_assemble_may_take() {
    let assembler = Assembler::new();
    assert!(assembler.can_assemble("ADDI R1, R0, 5\nHALT"));
    assert!(assembler.can_assemble("J nowhere"));
    assert!(assembler.can_assemble("ADD R1, R2"));
    // A number where an instruction should start: the parse would never end.
    assert!(!assembler.can_assemble("42"));
    // A jump to a label whose address leaves the 32-bit space.
    let high = Assembler::new().with_base_address(0xFFFF_FFFC);
    assert!(!high.can_assemble("NOP\nJ end\nend:\nHALT"));
    assert!(high.can_assemble("start:\nJ start"));
}
