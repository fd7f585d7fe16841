use vos::cpu::cpu::Cpu;
use vos::memory::memory::Memory;
use vos::cpu::instruction::{Funct, Instruction, Opcode};
use vos::types::{Address, Word};

/// Memory for the tests: the library's memory with a program loaded word by word.
fn test_memory(size: usize) -> Memory {
    Memory::new(size)
}

fn load_program(memory: &mut Memory, start_addr: Address, program: &[Word]) {
    for (i, &word) in program.iter().enumerate() {
        memory.write_word(start_addr + 4 * i as Address, word).unwrap();
    }
}

#[test]
fn test_cpu_creation() {
    let cpu = Cpu::new();
    assert_eq!(cpu.pc(), 0);
    assert!(!cpu.is_halted());
    assert_eq!(cpu.instruction_count(), 0);
}

#[test]
fn test_add_instruction() {
    let mut cpu = Cpu::new();
    let mut memory = test_memory(1024);

    // ADDI R1, R0, 10   (R1 = 10)
    let instr = Instruction::IType {
        opcode: Opcode::ADDI,
        rt: 1,
        rs: 0,
        immediate: 10,
    };
    load_program(&mut memory, 0, &[instr.encode()]);

    cpu.step(&mut memory).unwrap();

    assert_eq!(cpu.registers.read(1), 10);
    assert_eq!(cpu.pc(), 4);
}

#[test]
fn test_add_rtype() {
    let mut cpu = Cpu::new();
    let mut memory = test_memory(1024);

    // Setup: R2 = 10, R3 = 20
    cpu.registers.write(2, 10);
    cpu.registers.write(3, 20);

    // ADD R1, R2, R3  (R1 = R2 + R3)
    let instr = Instruction::RType {
        funct: Funct::ADD,
        rd: 1,
        rs: 2,
        rt: 3,
        shamt: 0,
    };
    load_program(&mut memory, 0, &[instr.encode()]);

    cpu.step(&mut memory).unwrap();

    assert_eq!(cpu.registers.read(1), 30);
}

#[test]
fn test_load_store() {
    let mut cpu = Cpu::new();
    let mut memory = test_memory(1024);

    // Setup: R2 = address 0x100
    cpu.registers.write(2, 0x100);

    // SW R1, 0(R2)  - Store R1 (0) to memory[0x100]
    let store = Instruction::IType {
        opcode: Opcode::SW,
        rt: 1,
        rs: 2,
        immediate: 0,
    };

    // Write value to R1 first
    cpu.registers.write(1, 42);

    load_program(&mut memory, 0, &[store.encode()]);
    cpu.step(&mut memory).unwrap();

    // LW R3, 0(R2)  - Load from memory[0x100] to R3
    cpu.set_pc(4);
    let load = Instruction::IType {
        opcode: Opcode::LW,
        rt: 3,
        rs: 2,
        immediate: 0,
    };
    load_program(&mut memory, 4, &[load.encode()]);
    cpu.step(&mut memory).unwrap();

    assert_eq!(cpu.registers.read(3), 42);
}

#[test]
fn test_branch() {
    let mut cpu = Cpu::new();
    let mut memory = test_memory(1024);

    // Setup: R1 = 10, R2 = 10
    cpu.registers.write(1, 10);
    cpu.registers.write(2, 10);

    // BEQ R1, R2, 4  (branch to PC + 16)
    let instr = Instruction::IType {
        opcode: Opcode::BEQ,
        rt: 2,
        rs: 1,
        immediate: 4, // Offset in words
    };
    load_program(&mut memory, 0, &[instr.encode()]);

    cpu.step(&mut memory).unwrap();

    // Branch taken: PC = 0 + (4 * 4) = 16
    assert_eq!(cpu.pc(), 16);
}

#[test]
fn test_halt() {
    let mut cpu = Cpu::new();
    let mut memory = test_memory(1024);

    // HALT instruction
    let instr = Instruction::IType {
        opcode: Opcode::HALT,
        rt: 0,
        rs: 0,
        immediate: 0,
    };
    load_program(&mut memory, 0, &[instr.encode()]);

    let should_continue = cpu.step(&mut memory).unwrap();

    assert!(!should_continue);
    assert!(cpu.is_halted());
}

#[test]
fn test_jump() {
    let mut cpu = Cpu::new();
    let mut memory = test_memory(1024);

    // J 0x1000
    let instr = Instruction::JType {
        opcode: Opcode::J,
        address: 0x1000,
    };
    load_program(&mut memory, 0, &[instr.encode()]);

    cpu.step(&mut memory).unwrap();

    assert_eq!(cpu.pc(), 0x1000);
}
