use vos::cpu::registers::{Flags, Registers};

#[test]
fn test_r0_always_zero() {
    let mut regs = Registers::new();

    // Try to write to R0
    regs.write(0, 42);

    // R0 should still be zero
    assert_eq!(regs.read(0), 0);
}

#[test]
fn test_general_register_read_write() {
    let mut regs = Registers::new();

    // Write and read from R1
    regs.write(1, 12345);
    assert_eq!(regs.read(1), 12345);

    // Write and read from R15 (stack pointer)
    regs.write(15, 0xFFFF0000);
    assert_eq!(regs.read(15), 0xFFFF0000);
}

#[test]
fn test_invalid_register_index() {
    let mut regs = Registers::new();

    // Reading invalid index returns 0
    assert_eq!(regs.read(20), 0);

    // Writing to invalid index is ignored (no panic)
    regs.write(20, 42);
}

#[test]
fn test_try_read_error() {
    let regs = Registers::new();

    // Valid index
    assert!(regs.try_read(0).is_ok());

    // Invalid index
    assert!(regs.try_read(16).is_err());
}

#[test]
fn test_try_write_error() {
    let mut regs = Registers::new();

    // Valid index
    assert!(regs.try_write(1, 42).is_ok());

    // Invalid index
    assert!(regs.try_write(16, 42).is_err());
}

#[test]
fn test_flags_update_zn() {
    let mut flags = Flags::new();

    // Zero result
    flags.update_zn(0);
    assert!(flags.zero);
    assert!(!flags.negative);

    // Positive result
    flags.update_zn(42);
    assert!(!flags.zero);
    assert!(!flags.negative);

    // Negative result (when interpreted as signed)
    flags.update_zn(0xFFFFFFFF);
    assert!(!flags.zero);
    assert!(flags.negative);
}

#[test]
fn test_flags_to_from_byte() {
    let flags = Flags {
        zero: true,
        negative: false,
        carry: true,
        overflow: false,
    };

    let byte = flags.to_byte();
    let restored = Flags::from_byte(byte);

    assert_eq!(flags, restored);
}

#[test]
fn registers_test_reset() {
    let mut regs = Registers::new();

    // Modify registers
    regs.write(1, 42);
    regs.write(5, 100);
    regs.pc = 0x1000;
    regs.flags.zero = true;

    // Reset
    regs.reset();

    // Check all reset to zero
    assert_eq!(regs.read(1), 0);
    assert_eq!(regs.read(5), 0);
    assert_eq!(regs.pc, 0);
    assert!(!regs.flags.zero);
}

#[test]
fn test_dump() {
    let mut regs = Registers::new();
    regs.write(1, 42);
    regs.pc = 0x1000;

    let dump = regs.dump();
    assert!(dump.contains("R 1: 0x0000002A"));
    assert!(dump.contains("PC:    0x00001000"));
}

#[test]
fn flags_byte_round_trip_for_every_combination() {
    for b in 0u8..16 {
        assert_eq!(Flags::from_byte(b).to_byte(), b);
    }
}
