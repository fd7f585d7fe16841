use vos::cpu::cpu::Memory as CpuMemory;
use vos::memory::memory::Memory;

#[test]
fn test_memory_creation() {
    let memory = Memory::new(1024 * 1024);
    assert_eq!(memory.size(), 1024 * 1024);
}

#[test]
fn test_byte_operations() {
    let mut memory = Memory::new(1024);

    memory.write_byte(100, 42).unwrap();
    assert_eq!(memory.read_byte(100).unwrap(), 42);
}

#[test]
fn test_word_operations() {
    let mut memory = Memory::new(1024);

    memory.write_word(0x100, 0x12345678).unwrap();
    assert_eq!(memory.read_word(0x100).unwrap(), 0x12345678);
}

#[test]
fn memory_test_load() {
    let mut memory = Memory::new(1024);

    let program = vec![0xAA, 0xBB, 0xCC, 0xDD];
    memory.load(0x200, &program).unwrap();

    assert_eq!(memory.read_byte(0x200).unwrap(), 0xAA);
    assert_eq!(memory.read_byte(0x203).unwrap(), 0xDD);
}

#[test]
fn test_with_paging() {
    let mut memory = Memory::new(1024 * 1024);

    // Enable paging
    memory.mmu_mut().enable_paging();

    // Should still work with identity mapping
    memory.write_word(0x1000, 0x12345678).unwrap();
    assert_eq!(memory.read_word(0x1000).unwrap(), 0x12345678);
}

#[test]
fn memory_test_read_write_bytes() {
    let mut memory = Memory::new(1024);

    let data = vec![1, 2, 3, 4, 5];
    memory.write_bytes(0x100, &data).unwrap();

    let mut buffer = vec![0; 5];
    memory.read_bytes(0x100, &mut buffer).unwrap();

    assert_eq!(buffer, data);
}

#[test]
fn test_cpu_memory_trait() {
    let mut memory = Memory::new(1024);

    // Use through CPU Memory trait
    CpuMemory::write_word(&mut memory, 0x100, 0x12345678).unwrap();
    assert_eq!(CpuMemory::read_word(&mut memory, 0x100).unwrap(), 0x12345678);
}

#[test]
fn memory_hexdump_shows_physical_bytes() {
    let mut memory = Memory::new(64);
    memory.write_byte(1, 0x41).unwrap();
    let dump = memory.hexdump(0, 2);
    assert_eq!(dump, "00000000  00 41                                             |.A|\n");
}

#[test]
fn unmapped_access_faults_with_paging_on() {
    let mut memory = Memory::new(8192);
    memory.enable_paging();
    assert!(memory.read_word(0x2000).is_err());
    assert!(memory.read_word(0x1000).is_ok());
}
