use vos::io::keyboard::{Keyboard, BUFFER_SIZE, KEYBOARD_BASE, KEYBOARD_SIZE, REG_CONTROL, REG_DATA, REG_STATUS, STATUS_BUFFER_FULL, STATUS_DATA_READY};
use vos::traits::Device;

#[test]
fn test_keyboard_creation() {
    let keyboard = Keyboard::new();
    assert!(!keyboard.has_data());
    assert!(!keyboard.is_full());
}

#[test]
fn test_push_pop() {
    let mut keyboard = Keyboard::new();

    keyboard.push_key(b'A');
    assert!(keyboard.has_data());

    let key = keyboard.pop_key();
    assert_eq!(key, Some(b'A'));
    assert!(!keyboard.has_data());
}

#[test]
fn test_buffer_full() {
    let mut keyboard = Keyboard::new();

    // Fill buffer
    for _ in 0..BUFFER_SIZE {
        assert!(keyboard.push_key(b'X'));
    }

    assert!(keyboard.is_full());

    // Should fail to add more
    assert!(!keyboard.push_key(b'Y'));
}

#[test]
fn test_device_read() {
    let mut keyboard = Keyboard::new();

    keyboard.push_key(b'H');
    keyboard.push_key(b'i');

    // Read first character
    assert_eq!(keyboard.read_byte(REG_DATA).unwrap(), b'H');

    // Read second character
    assert_eq!(keyboard.read_byte(REG_DATA).unwrap(), b'i');

    // Buffer empty, should return 0
    assert_eq!(keyboard.read_byte(REG_DATA).unwrap(), 0);
}

#[test]
fn test_status_register() {
    let mut keyboard = Keyboard::new();

    // Empty: no flags set
    assert_eq!(keyboard.read_byte(REG_STATUS).unwrap(), 0);

    // Add data
    keyboard.push_key(b'A');
    assert_eq!(
        keyboard.read_byte(REG_STATUS).unwrap(),
        STATUS_DATA_READY
    );

    // Fill buffer
    for _ in 1..BUFFER_SIZE {
        keyboard.push_key(b'X');
    }
    assert_eq!(
        keyboard.read_byte(REG_STATUS).unwrap(),
        STATUS_DATA_READY | STATUS_BUFFER_FULL
    );
}

#[test]
fn test_control_register() {
    let mut keyboard = Keyboard::new();

    // Enable interrupts
    keyboard.write_byte(REG_CONTROL, 0x01).unwrap();
    assert!(keyboard.interrupt_enabled());

    // Disable interrupts
    keyboard.write_byte(REG_CONTROL, 0x00).unwrap();
    assert!(!keyboard.interrupt_enabled());
}

#[test]
fn keyboard_test_clear() {
    let mut keyboard = Keyboard::new();

    keyboard.push_key(b'A');
    keyboard.push_key(b'B');

    keyboard.clear();

    assert!(!keyboard.has_data());
}

#[test]
fn keyboard_test_base_address() {
    let keyboard = Keyboard::new();
    assert_eq!(keyboard.base_address(), KEYBOARD_BASE);
    assert_eq!(keyboard.size(), KEYBOARD_SIZE);
}

#[test]
fn keys_come_out_in_the_order_they_went_in() {
    let mut keyboard = Keyboard::new();
    for k in [b'a', b'b', b'c'] {
        assert!(keyboard.push_key(k));
    }
    assert_eq!(keyboard.pop_key(), Some(b'a'));
    assert_eq!(keyboard.pop_key(), Some(b'b'));
    assert_eq!(keyboard.pop_key(), Some(b'c'));
    assert_eq!(keyboard.pop_key(), None);
}
