use vos::io::display::{CharCell, Display, DISPLAY_BASE, DISPLAY_DEVICE_SIZE, DISPLAY_SIZE, DISPLAY_WIDTH};
use vos::traits::Device;

#[test]
fn test_display_creation() {
    let display = Display::new();
    assert_eq!(display.cursor(), 0);
    assert_eq!(display.buffer().len(), DISPLAY_SIZE);
}

#[test]
fn test_char_cell() {
    let cell = CharCell::new(b'A', 0x0F);
    assert_eq!(cell.character, b'A');
    assert_eq!(cell.attribute, 0x0F);
}

#[test]
fn test_put_char() {
    let mut display = Display::new();

    display.put_char(b'H');
    display.put_char(b'i');

    assert_eq!(display.get_cell(0).unwrap().character, b'H');
    assert_eq!(display.get_cell(1).unwrap().character, b'i');
    assert_eq!(display.cursor(), 2);
}

#[test]
fn test_newline() {
    let mut display = Display::new();

    display.put_char(b'A');
    display.put_char(b'\n');

    assert_eq!(display.cursor(), DISPLAY_WIDTH);
}

#[test]
fn display_test_clear() {
    let mut display = Display::new();

    display.put_char(b'A');
    display.put_char(b'B');

    display.clear();

    assert_eq!(display.cursor(), 0);
    assert_eq!(display.get_cell(0).unwrap().character, b' ');
}

#[test]
fn test_device_read_write() {
    let mut display = Display::new();

    // Write character
    display.write_byte(0, b'X').unwrap();
    assert_eq!(display.read_byte(0).unwrap(), b'X');

    // Write attribute
    display.write_byte(1, 0x0F).unwrap();
    assert_eq!(display.read_byte(1).unwrap(), 0x0F);
}

#[test]
fn test_scroll() {
    let mut display = Display::new();

    // Fill entire display
    for _ in 0..DISPLAY_SIZE {
        display.put_char(b'X');
    }

    // Cursor should be at last line after scroll
    assert!(display.cursor() < DISPLAY_SIZE);

    // First line should be clear (scrolled off)
    assert_eq!(display.get_cell(0).unwrap().character, b'X');
}

#[test]
fn test_line_extraction() {
    let mut display = Display::new();

    display.put_char(b'H');
    display.put_char(b'e');
    display.put_char(b'l');
    display.put_char(b'l');
    display.put_char(b'o');

    let line = display.line(0);
    assert!(line.starts_with("Hello"));
}

#[test]
fn display_test_base_address() {
    let display = Display::new();
    assert_eq!(display.base_address(), DISPLAY_BASE);
    assert_eq!(display.size(), DISPLAY_DEVICE_SIZE);
}

#[test]
fn line_is_padded_row_text() {
    let mut display = Display::new();
    display.put_char(b'o');
    display.put_char(b'k');
    let line = display.line(0);
    assert_eq!(line.len(), DISPLAY_WIDTH);
    assert_eq!(line.trim_end(), "ok");
}

#[test]
fn word_written_to_display_reads_back() {
    let mut display = Display::new();
    display.write_word(8, 0x0F41_0F42).unwrap();
    assert_eq!(display.read_word(8).unwrap(), 0x0F41_0F42);
    assert_eq!(display.get_cell(4).unwrap(), CharCell::new(0x42, 0x0F));
}
