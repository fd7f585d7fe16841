use vos::cpu::instruction::{Instruction, Opcode};
use vos::machine::VirtualMachine;
use vos::traits::Device;


#[test]
fn test_vm_creation() {
    let vm = VirtualMachine::new(1024 * 1024);
    assert_eq!(vm.cycles(), 0);
    assert!(!vm.cpu().is_halted());
}

#[test]
fn test_load_program() {
    let mut vm = VirtualMachine::new(1024);
    let program = vec![0x01, 0x02, 0x03, 0x04];

    vm.load_program(0x100, &program).unwrap();

    // Verify program was loaded
    assert_eq!(vm.memory_mut().read_byte(0x100).unwrap(), 0x01);
    assert_eq!(vm.memory_mut().read_byte(0x103).unwrap(), 0x04);
}

#[test]
fn test_execute_halt() {
    let mut vm = VirtualMachine::new(1024);

    // Create HALT instruction
    let halt = Instruction::IType {
        opcode: Opcode::HALT,
        rt: 0,
        rs: 0,
        immediate: 0,
    };

    vm.load_program(0, &[
        (halt.encode() & 0xFF) as u8,
        ((halt.encode() >> 8) & 0xFF) as u8,
        ((halt.encode() >> 16) & 0xFF) as u8,
        ((halt.encode() >> 24) & 0xFF) as u8,
    ])
    .unwrap();

    vm.cpu_mut().set_pc(0);

    // Should halt after one step
    let should_continue = vm.step().unwrap();
    assert!(!should_continue);
    assert!(vm.cpu().is_halted());
}

#[test]
fn test_memory_access() {
    let mut vm = VirtualMachine::new(1024);

    // Write to memory
    vm.memory_mut().write_word(0x100, 0x12345678).unwrap();

    // Read back
    assert_eq!(vm.memory_mut().read_word(0x100).unwrap(), 0x12345678);
}

#[test]
fn test_display_access() {
    let mut vm = VirtualMachine::new(1024);

    // Write to display through display reference
    vm.display_mut().put_char(b'H');
    vm.display_mut().put_char(b'i');

    let output = vm.display_output();
    assert!(output.starts_with("Hi"));
}

#[test]
fn test_keyboard_input() {
    let mut vm = VirtualMachine::new(1024);

    // Simulate key press
    vm.keyboard_mut().push_key(b'A');

    assert!(vm.keyboard().has_data());
}

#[test]
fn test_timer() {
    let mut vm = VirtualMachine::new(1024);

    // Configure timer through device
    vm.timer_mut().write_word(4, 100).unwrap(); // Set reload
    vm.timer_mut().write_byte(8, 0x01).unwrap(); // Enable

    assert!(vm.timer().is_enabled());
    assert_eq!(vm.timer().counter(), 100);
}

#[test]
fn machine_test_reset() {
    let mut vm = VirtualMachine::new(1024);

    // Modify state
    vm.cpu_mut().set_pc(0x1000);
    vm.memory_mut().write_word(0x100, 0x12345678).unwrap();
    vm.display_mut().put_char(b'X');

    // Reset
    vm.reset();

    // Check everything is cleared
    assert_eq!(vm.cpu().pc(), 0);
    assert_eq!(vm.cycles(), 0);
}

#[test]
fn test_run_cycles() {
    let mut vm = VirtualMachine::new(1024);

    // Load NOP instructions
    let nop = Instruction::IType {
        opcode: Opcode::NOP,
        rt: 0,
        rs: 0,
        immediate: 0,
    };

    for i in 0..10 {
        vm.load_program(i * 4, &[
            (nop.encode() & 0xFF) as u8,
            ((nop.encode() >> 8) & 0xFF) as u8,
            ((nop.encode() >> 16) & 0xFF) as u8,
            ((nop.encode() >> 24) & 0xFF) as u8,
        ])
        .unwrap();
    }

    vm.cpu_mut().set_pc(0);

    // Run 5 cycles
    let running = vm.run_cycles(5).unwrap();
    assert!(running);
    assert_eq!(vm.cpu().instruction_count(), 5);
}

#[test]
fn run_stops_at_halt() {
    let mut vm = VirtualMachine::new(1024);
    let addi = Instruction::IType { opcode: Opcode::ADDI, rt: 1, rs: 0, immediate: 42 };
    let halt = Instruction::IType { opcode: Opcode::HALT, rt: 0, rs: 0, immediate: 0 };
    vm.load_program(0, &addi.encode().to_le_bytes()).unwrap();
    vm.load_program(4, &halt.encode().to_le_bytes()).unwrap();
    vm.run().unwrap();
    assert!(vm.cpu().is_halted());
    assert_eq!(vm.cpu().registers.read(1), 42);
    assert_eq!(vm.cycles(), 2);
    assert!(!vm.run_cycles(3).unwrap());
}

#[test]
fn timer_ticks_once_per_cycle() {
    let mut vm = VirtualMachine::new(1024);
    vm.timer_mut().write_word(4, 100).unwrap();
    vm.timer_mut().write_byte(8, 0x01).unwrap();
    assert!(vm.run_cycles(3).unwrap());
    assert_eq!(vm.timer().counter(), 97);
}
