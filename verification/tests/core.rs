use vos::error::{CpuError, MemoryError, VosError};
use vos::memory_regions;
use vos::traits::Device;
use vos::types::{Address, AddressRange, Byte};

#[test]
fn test_cpu_error_display() {
    let err = CpuError::InvalidRegister(20);
    assert_eq!(err.message(), "Invalid register index: 20 (must be 0-15)");
}

#[test]
fn test_memory_error_display() {
    let err = MemoryError::OutOfBounds { address: 0x12345678, size: 0x1000 };
    assert_eq!(err.message(), "Address out of bounds: 0x12345678 (size: 0x00001000)");
}

#[test]
fn test_vos_error_conversion() {
    let cpu_err = CpuError::DivisionByZero;
    let vos_err: VosError = cpu_err.into();
    assert!(matches!(vos_err, VosError::Cpu(_)));
}

struct MockDevice {
    data: [u8; 16],
}

impl Device for MockDevice {
    type DeviceState = [u8; 16];

    fn device_state(&self) -> [u8; 16] {
        self.data
    }

    fn byte_read(s: [u8; 16], offset: u32) -> ([u8; 16], Result<Byte, VosError>) {
        (s, Ok(s[offset as usize]))
    }

    fn byte_written(mut s: [u8; 16], offset: u32, value: Byte) -> ([u8; 16], Result<(), VosError>) {
        s[offset as usize] = value;
        (s, Ok(()))
    }

    fn read_byte(&mut self, offset: u32) -> Result<Byte, VosError> {
        Ok(self.data[offset as usize])
    }

    fn write_byte(&mut self, offset: u32, value: Byte) -> Result<(), VosError> {
        self.data[offset as usize] = value;
        Ok(())
    }

    fn base_address(&self) -> Address {
        0x8000_0000
    }

    fn size(&self) -> usize {
        16
    }

    fn name(&self) -> &str {
        "MockDevice"
    }
}

#[test]
fn test_device_read_write_byte() {
    let mut device = MockDevice { data: [0; 16] };
    device.write_byte(0, 0x42).unwrap();
    assert_eq!(device.read_byte(0).unwrap(), 0x42);
}

#[test]
fn test_device_read_write_word() {
    let mut device = MockDevice { data: [0; 16] };
    device.write_word(0, 0x12345678).unwrap();
    assert_eq!(device.read_word(0).unwrap(), 0x12345678);
    assert_eq!(device.read_byte(0).unwrap(), 0x78);
    assert_eq!(device.read_byte(1).unwrap(), 0x56);
    assert_eq!(device.read_byte(2).unwrap(), 0x34);
    assert_eq!(device.read_byte(3).unwrap(), 0x12);
}

#[test]
fn test_address_range_new() {
    let range = AddressRange::new(0x1000, 0x2000);
    assert_eq!(range.start, 0x1000);
    assert_eq!(range.end, 0x2000);
}

#[test]
fn test_address_range_size() {
    let range = AddressRange::new(0x1000, 0x2000);
    assert_eq!(range.size(), 0x1000);
}

#[test]
fn test_address_range_contains() {
    let range = AddressRange::new(0x1000, 0x2000);
    assert!(range.contains(0x1000));
    assert!(range.contains(0x1500));
    assert!(range.contains(0x1FFF));
    assert!(!range.contains(0x2000));
    assert!(!range.contains(0x0FFF));
}

#[test]
fn test_address_range_overlaps() {
    let range1 = AddressRange::new(0x1000, 0x2000);
    let range2 = AddressRange::new(0x1500, 0x2500);
    let range3 = AddressRange::new(0x3000, 0x4000);
    assert!(range1.overlaps(&range2));
    assert!(range2.overlaps(&range1));
    assert!(!range1.overlaps(&range3));
    assert!(!range3.overlaps(&range1));
}

#[test]
fn test_memory_regions() {
    assert!(memory_regions::ivt().contains(0x0000_0000));
    assert!(memory_regions::kernel_code().contains(0x0000_1000));
    assert!(memory_regions::user_space().contains(0x0020_0000));
    assert!(memory_regions::mmio().contains(0x8000_0000));
}

#[test]
fn get_region_finds_the_containing_region() {
    assert_eq!(memory_regions::get_region(0x0000_0500), Some(memory_regions::ivt()));
    assert_eq!(memory_regions::get_region(0x4000_0000), Some(memory_regions::heap()));
    assert_eq!(memory_regions::get_region(0xFFFF_FFFF), None);
}

#[test]
fn error_messages_of_each_kind() {
    let e: VosError = MemoryError::NotMapped(0x10).into();
    assert_eq!(e.message(), "Memory error: Memory not mapped at address 0x00000010");
    assert_eq!(VosError::generic("boom").message(), "boom");
}

#[test]
fn address_range_text() {
    assert_eq!(AddressRange::new(0x1000, 0x2000).text(), "0x00001000..0x00002000");
}
