use vos::cpu::instruction::{Funct, Instruction, Opcode};

#[test]
fn test_encode_decode_rtype() {
    let instr = Instruction::RType {
        funct: Funct::ADD,
        rd: 1,
        rs: 2,
        rt: 3,
        shamt: 0,
    };

    let encoded = instr.encode();
    let decoded = Instruction::decode(encoded).unwrap();

    assert_eq!(instr, decoded);
}

#[test]
fn test_encode_decode_itype() {
    let instr = Instruction::IType {
        opcode: Opcode::ADDI,
        rt: 1,
        rs: 2,
        immediate: 100,
    };

    let encoded = instr.encode();
    let decoded = Instruction::decode(encoded).unwrap();

    assert_eq!(instr, decoded);
}

#[test]
fn test_encode_decode_jtype() {
    let instr = Instruction::JType {
        opcode: Opcode::J,
        address: 0x1000,
    };

    let encoded = instr.encode();
    let decoded = Instruction::decode(encoded).unwrap();

    assert_eq!(instr, decoded);
}

#[test]
fn test_disassemble_add() {
    let instr = Instruction::RType {
        funct: Funct::ADD,
        rd: 1,
        rs: 2,
        rt: 3,
        shamt: 0,
    };

    assert_eq!(instr.disassemble(), "ADD R1, R2, R3");
}

#[test]
fn test_disassemble_addi() {
    let instr = Instruction::IType {
        opcode: Opcode::ADDI,
        rt: 1,
        rs: 2,
        immediate: 100,
    };

    assert_eq!(instr.disassemble(), "ADDI R1, R2, 100");
}

#[test]
fn test_sign_extension() {
    // Test positive immediate
    let instr = Instruction::IType {
        opcode: Opcode::ADDI,
        rt: 1,
        rs: 2,
        immediate: 100,
    };
    let encoded = instr.encode();
    let decoded = Instruction::decode(encoded).unwrap();
    if let Instruction::IType { immediate, .. } = decoded {
        assert_eq!(immediate, 100);
    } else {
        panic!("Expected IType");
    }

    // Test negative immediate
    let instr = Instruction::IType {
        opcode: Opcode::ADDI,
        rt: 1,
        rs: 2,
        immediate: -100,
    };
    let encoded = instr.encode();
    let decoded = Instruction::decode(encoded).unwrap();
    if let Instruction::IType { immediate, .. } = decoded {
        assert_eq!(immediate, -100);
    } else {
        panic!("Expected IType");
    }
}

#[test]
fn test_invalid_instruction() {
    let invalid_word = 0xFFFFFFFF;
    assert!(Instruction::decode(invalid_word).is_err());
}

#[test]
fn disassemble_jump_and_halt() {
    let j = Instruction::JType { opcode: Opcode::J, address: 0x40 };
    assert_eq!(j.disassemble(), "J 0x00000040");
    let decoded = Instruction::decode(j.encode()).unwrap();
    assert_eq!(decoded, j);
}
