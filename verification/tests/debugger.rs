use vos::cpu::instruction::{Instruction, Opcode};
use vos::debugger::{memory_line, Debugger, Stop};
use vos::machine::VirtualMachine;


fn create_test_vm() -> VirtualMachine {
    let mut vm = VirtualMachine::new(1024);

    // Load a simple program: ADDI R1, R0, 42; HALT
    let addi = Instruction::IType {
        opcode: Opcode::ADDI,
        rt: 1,
        rs: 0,
        immediate: 42,
    };
    let halt = Instruction::IType {
        opcode: Opcode::HALT,
        rt: 0,
        rs: 0,
        immediate: 0,
    };

    vm.load_program(0, &addi.encode().to_le_bytes()).unwrap();
    vm.load_program(4, &halt.encode().to_le_bytes()).unwrap();
    vm.cpu_mut().set_pc(0);

    vm
}

#[test]
fn test_debugger_creation() {
    let vm = create_test_vm();
    let debugger = Debugger::new(vm);

    assert!(debugger.is_running());
    assert_eq!(debugger.breakpoints().len(), 0);
}

#[test]
fn test_step() {
    let vm = create_test_vm();
    let mut debugger = Debugger::new(vm);

    // Step once (execute ADDI)
    let should_continue = debugger.step().unwrap();
    assert!(should_continue);

    // Check that R1 = 42
    assert_eq!(debugger.vm().cpu().registers.read(1), 42);

    // PC should have advanced
    assert_eq!(debugger.vm().cpu().pc(), 4);
}

#[test]
fn test_breakpoint() {
    let vm = create_test_vm();
    let mut debugger = Debugger::new(vm);

    debugger.set_breakpoint(4);
    assert_eq!(debugger.breakpoints().len(), 1);
    assert_eq!(debugger.breakpoints()[0].address, 4);
}

#[test]
fn test_delete_breakpoint() {
    let vm = create_test_vm();
    let mut debugger = Debugger::new(vm);

    debugger.set_breakpoint(4);
    let bp_num = debugger.breakpoints()[0].number;

    assert!(debugger.delete_breakpoint(bp_num));
    assert_eq!(debugger.breakpoints().len(), 0);
}

#[test]
fn test_continue_to_breakpoint() {
    let vm = create_test_vm();
    let mut debugger = Debugger::new(vm);

    debugger.set_breakpoint(4); // Breakpoint at HALT
    debugger.continue_exec().unwrap();

    // Should have stopped at breakpoint
    assert_eq!(debugger.vm().cpu().pc(), 4);
}

#[test]
fn test_continue_to_halt() {
    let vm = create_test_vm();
    let mut debugger = Debugger::new(vm);

    debugger.continue_exec().unwrap();

    // Should have halted
    assert!(debugger.vm().cpu().is_halted());
}

#[test]
fn continue_reports_why_it_stopped() {
    let mut debugger = Debugger::new(create_test_vm());
    debugger.set_breakpoint(4);
    assert_eq!(debugger.continue_exec().unwrap(), Stop::Breakpoint(4));
    assert!(debugger.delete_breakpoint(1));
    assert!(!debugger.delete_breakpoint(1));
    assert_eq!(debugger.continue_exec().unwrap(), Stop::Halted);
}

#[test]
fn disassemble_shows_the_current_instruction() {
    let mut debugger = Debugger::new(create_test_vm());
    let line = debugger.disassemble().unwrap();
    assert!(line.starts_with("0x00000000: ADDI R1, R0, 42 (0x"));
    debugger.quit();
    assert!(!debugger.is_running());
}

#[test]
fn set_then_delete_restores_the_breakpoints() {
    let mut debugger = Debugger::new(create_test_vm());
    debugger.set_breakpoint(0x10);
    let before: Vec<_> = debugger.breakpoints().to_vec();
    let n = debugger.next_breakpoint_number();
    debugger.set_breakpoint(0x20);
    assert!(debugger.delete_breakpoint(n));
    assert_eq!(debugger.breakpoints(), &before[..]);
}

#[test]
fn breakpoint_listing_shows_a_table_or_says_there_is_none() {
    let mut debugger = Debugger::new(create_test_vm());
    assert_eq!(debugger.breakpoint_listing(), "No breakpoints set\n");
    debugger.set_breakpoint(0x10);
    debugger.set_breakpoint(0xABCD);
    assert_eq!(
        debugger.breakpoint_listing(),
        "Num  Address      Enabled\n---  ----------   -------\n1    0x00000010   yes\n2    0x0000ABCD   yes\n"
    );
}

#[test]
fn register_info_lists_registers_pc_and_flags() {
    let mut debugger = Debugger::new(create_test_vm());
    debugger.step().unwrap();
    let text = debugger.register_info();
    assert!(text.starts_with("\n=== Registers ===\nR0  = 0x00000000 (0)\nR1  = 0x0000002A (42)\n"));
    assert!(text.contains("R15 = 0x00000000 (0)\n"));
    assert!(text.contains("\nPC  = 0x00000004\n"));
    assert!(text.ends_with(
        "\n=== Flags ===\nZero     (Z): false\nNegative (N): false\nCarry    (C): false\nOverflow (V): false\n"
    ));
}

#[test]
fn memory_line_shows_the_word_and_its_bytes() {
    assert_eq!(memory_line(0x100, 0x0102_03FF), "0x00000100: 0x010203FF  255   3   2   1");
}
