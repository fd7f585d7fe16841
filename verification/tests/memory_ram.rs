use vos::memory::ram::Ram;

#[test]
fn test_ram_creation() {
    let ram = Ram::new(1024);
    assert_eq!(ram.size(), 1024);
}

#[test]
fn test_byte_read_write() {
    let mut ram = Ram::new(1024);

    ram.write_byte(100, 42).unwrap();
    assert_eq!(ram.read_byte(100).unwrap(), 42);
}

#[test]
fn test_byte_out_of_bounds() {
    let ram = Ram::new(1024);

    let result = ram.read_byte(1024);
    assert!(result.is_err());
}

#[test]
fn test_word_read_write() {
    let mut ram = Ram::new(1024);

    ram.write_word(0x100, 0x12345678).unwrap();
    assert_eq!(ram.read_word(0x100).unwrap(), 0x12345678);
}

#[test]
fn test_word_little_endian() {
    let mut ram = Ram::new(1024);

    ram.write_word(0x100, 0x12345678).unwrap();

    // Check little-endian byte order
    assert_eq!(ram.read_byte(0x100).unwrap(), 0x78);
    assert_eq!(ram.read_byte(0x101).unwrap(), 0x56);
    assert_eq!(ram.read_byte(0x102).unwrap(), 0x34);
    assert_eq!(ram.read_byte(0x103).unwrap(), 0x12);
}

#[test]
fn test_word_unaligned() {
    let mut ram = Ram::new(1024);

    // Unaligned word access (address not multiple of 4)
    ram.write_word(0x101, 0x12345678).unwrap();
    assert_eq!(ram.read_word(0x101).unwrap(), 0x12345678);
}

#[test]
fn ram_test_read_write_bytes() {
    let mut ram = Ram::new(1024);

    let data = vec![1, 2, 3, 4, 5];
    ram.write_bytes(0x100, &data).unwrap();

    let mut buffer = vec![0; 5];
    ram.read_bytes(0x100, &mut buffer).unwrap();

    assert_eq!(buffer, data);
}

#[test]
fn ram_test_load() {
    let mut ram = Ram::new(1024);

    let program = vec![0xAA, 0xBB, 0xCC, 0xDD];
    ram.load(0x200, &program).unwrap();

    assert_eq!(ram.read_byte(0x200).unwrap(), 0xAA);
    assert_eq!(ram.read_byte(0x203).unwrap(), 0xDD);
}

#[test]
fn ram_test_clear() {
    let mut ram = Ram::new(1024);

    // Write some data
    ram.write_word(0x100, 0x12345678).unwrap();
    ram.write_word(0x200, 0xAABBCCDD).unwrap();

    // Clear
    ram.clear();

    // Check everything is zero
    assert_eq!(ram.read_word(0x100).unwrap(), 0);
    assert_eq!(ram.read_word(0x200).unwrap(), 0);
}

#[test]
fn test_hexdump() {
    let mut ram = Ram::new(1024);

    // Write some recognizable data
    for i in 0..32 {
        ram.write_byte(i, i as u8).unwrap();
    }

    let dump = ram.hexdump(0, 32);
    assert!(dump.contains("00000000"));
    assert!(dump.contains("00 01 02 03"));
}

#[test]
fn test_bounds_checking() {
    let mut ram = Ram::new(1024);

    // Try to write at boundary
    assert!(ram.write_byte(1023, 42).is_ok());

    // Try to write just beyond boundary
    assert!(ram.write_byte(1024, 42).is_err());

    // Try to write word that would overflow
    assert!(ram.write_word(1022, 0x12345678).is_err());
}

#[test]
fn hexdump_exact_line() {
    let mut ram = Ram::new(64);
    ram.write_bytes(0, b"Hi!\x01").unwrap();
    let dump = ram.hexdump(0, 4);
    assert_eq!(
        dump,
        "00000000  48 69 21 01                                       |Hi!.|\n"
    );
}

#[test]
fn hexdump_stops_at_the_end_of_memory() {
    let ram = Ram::new(20);
    let dump = ram.hexdump(0, 100);
    assert_eq!(dump.lines().count(), 2);
    assert!(dump.starts_with("00000000  00 00"));
    assert!(dump.contains("00000010  00 00 00 00"));
}

#[test]
fn read_after_write_word() {
    let mut ram = Ram::new(16);
    ram.write_word(4, 0xCAFEBABE).unwrap();
    assert_eq!(ram.read_word(4).unwrap(), 0xCAFEBABE);
    assert_eq!(ram.read_word(0).unwrap(), 0);
    assert_eq!(ram.read_word(8).unwrap(), 0);
}

#[test]
fn bytes_written_through_the_mutable_slice_are_read_back() {
    let mut ram = Ram::new(16);
    {
        let bytes = ram.as_mut_slice();
        assert_eq!(bytes.len(), 16);
        bytes[4] = 0xAB;
    }
    assert_eq!(ram.read_byte(4).unwrap(), 0xAB);
    assert_eq!(ram.as_slice()[4], 0xAB);
}
