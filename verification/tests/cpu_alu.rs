use vos::cpu::alu::Alu;

#[test]
fn test_add() {
    let alu = Alu::new();

    let result = alu.add(10, 20).unwrap();
    assert_eq!(result.value, 30);
    assert!(!result.flags.zero);
    assert!(!result.flags.negative);
}

#[test]
fn test_add_zero() {
    let alu = Alu::new();

    let result = alu.add(0, 0).unwrap();
    assert_eq!(result.value, 0);
    assert!(result.flags.zero);
}

#[test]
fn test_add_carry() {
    let alu = Alu::new();

    // Unsigned overflow
    let result = alu.add(0xFFFFFFFF, 1).unwrap();
    assert_eq!(result.value, 0);
    assert!(result.flags.carry);
}

#[test]
fn test_add_overflow() {
    let alu = Alu::new();

    // Signed overflow: MAX_INT + 1
    let result = alu.add(0x7FFFFFFF, 1).unwrap();
    assert!(result.flags.overflow);
}

#[test]
fn test_sub() {
    let alu = Alu::new();

    let result = alu.sub(50, 20).unwrap();
    assert_eq!(result.value, 30);
}

#[test]
fn test_sub_negative() {
    let alu = Alu::new();

    let result = alu.sub(20, 50).unwrap();
    assert!(result.flags.negative);
    assert!(result.flags.carry); // Borrow occurred
}

#[test]
fn test_mul() {
    let alu = Alu::new();

    let result = alu.mul(6, 7).unwrap();
    assert_eq!(result.value, 42);
}

#[test]
fn test_div() {
    let alu = Alu::new();

    let result = alu.div(100, 5).unwrap();
    assert_eq!(result.value, 20);
}

#[test]
fn test_div_by_zero() {
    let alu = Alu::new();

    let result = alu.div(100, 0);
    assert!(result.is_err());
}

#[test]
fn test_and() {
    let alu = Alu::new();

    let result = alu.and(0xFF00, 0x0FF0).unwrap();
    assert_eq!(result.value, 0x0F00);
}

#[test]
fn test_or() {
    let alu = Alu::new();

    let result = alu.or(0xFF00, 0x00FF).unwrap();
    assert_eq!(result.value, 0xFFFF);
}

#[test]
fn test_xor() {
    let alu = Alu::new();

    let result = alu.xor(0xFFFF, 0xFF00).unwrap();
    assert_eq!(result.value, 0x00FF);
}

#[test]
fn test_not() {
    let alu = Alu::new();

    let result = alu.not(0x0000FFFF).unwrap();
    assert_eq!(result.value, 0xFFFF0000);
}

#[test]
fn test_sll() {
    let alu = Alu::new();

    let result = alu.sll(1, 4).unwrap();
    assert_eq!(result.value, 16);
}

#[test]
fn test_srl() {
    let alu = Alu::new();

    let result = alu.srl(16, 4).unwrap();
    assert_eq!(result.value, 1);
}

#[test]
fn test_sra_positive() {
    let alu = Alu::new();

    let result = alu.sra(16, 2).unwrap();
    assert_eq!(result.value, 4);
}

#[test]
fn test_sra_negative() {
    let alu = Alu::new();

    // Negative number (sign bit preserved)
    let result = alu.sra(0xFFFFFFFC_u32, 1).unwrap();
    assert_eq!(result.value, 0xFFFFFFFE);
}

#[test]
fn test_slt() {
    let alu = Alu::new();

    let result = alu.slt(10, 20).unwrap();
    assert_eq!(result.value, 1);

    let result = alu.slt(20, 10).unwrap();
    assert_eq!(result.value, 0);
}

#[test]
fn test_sgt() {
    let alu = Alu::new();

    let result = alu.sgt(20, 10).unwrap();
    assert_eq!(result.value, 1);

    let result = alu.sgt(10, 20).unwrap();
    assert_eq!(result.value, 0);
}

#[test]
fn sub_undoes_add() {
    let alu = Alu::new();
    let a = 0xDEAD_BEEFu32;
    let b = 0x1234_5678u32;
    let s = alu.add(a, b).unwrap().value;
    assert_eq!(alu.sub(s, b).unwrap().value, a);
}

#[test]
fn division_by_zero_is_an_error() {
    let alu = Alu::new();
    assert_eq!(alu.div(7, 0).unwrap_err().message(), "CPU error: Division by zero");
}
