use vos::memory::mmu::{page_number, page_offset, Mmu, PageTableEntry, PAGE_SIZE};
use vos::types::Address;

#[test]
fn test_page_number_and_offset() {
    let address = 0x1234;
    let page = page_number(address);
    let offset = page_offset(address);

    // Page 0, offset 0x1234 (since page size is 4096 = 0x1000)
    assert_eq!(page, 1);
    assert_eq!(offset, 0x234);

    // Reconstruct
    let reconstructed = (page as usize * PAGE_SIZE) as Address + offset;
    assert_eq!(reconstructed, address);
}

#[test]
fn test_mmu_disabled() {
    let mut mmu = Mmu::new();

    // With paging disabled, all addresses are identity mapped
    assert_eq!(mmu.translate(0x1000, false).unwrap(), 0x1000);
    assert_eq!(mmu.translate(0x5000, false).unwrap(), 0x5000);
}

#[test]
fn test_mmu_identity_map() {
    let mut mmu = Mmu::new();
    mmu.identity_map(0, 10);
    mmu.enable_paging();

    // Should work for mapped pages
    assert_eq!(mmu.translate(0x1000, false).unwrap(), 0x1000);
    assert_eq!(mmu.translate(0x5000, false).unwrap(), 0x5000);
}

#[test]
fn test_mmu_page_fault() {
    let mut mmu = Mmu::new();
    mmu.identity_map(0, 10);
    mmu.enable_paging();

    // Try to access unmapped page (page 20)
    let result = mmu.translate(0x14000, false);
    assert!(result.is_err());
}

#[test]
fn test_mmu_write_protection() {
    let mut mmu = Mmu::new();

    // Map page 0 as read-only
    mmu.map_page(0, PageTableEntry::read_only(0));
    mmu.enable_paging();

    // Read should work
    assert!(mmu.translate(0x100, false).is_ok());

    // Write should fail
    assert!(mmu.translate(0x100, true).is_err());
}

#[test]
fn test_mmu_remap() {
    let mut mmu = Mmu::new();
    mmu.enable_paging();

    // Map virtual page 10 to physical frame 20
    mmu.map_page(10, PageTableEntry::new(20));

    let virtual_addr = 10 * PAGE_SIZE as Address + 0x100;
    let physical_addr = mmu.translate(virtual_addr, false).unwrap();

    // Should translate to frame 20
    let expected = 20 * PAGE_SIZE as Address + 0x100;
    assert_eq!(physical_addr, expected);
}

#[test]
fn test_page_table_entry_flags() {
    let mut mmu = Mmu::new();
    mmu.map_page(0, PageTableEntry::new(0));
    mmu.enable_paging();

    // Access the page
    mmu.translate(0x100, false).unwrap();

    let entry = mmu.page_table().lookup(0).unwrap();
    assert!(entry.accessed);
    assert!(!entry.dirty);

    // Write to the page
    mmu.translate(0x100, true).unwrap();

    let entry = mmu.page_table().lookup(0).unwrap();
    assert!(entry.accessed);
    assert!(entry.dirty);
}

#[test]
fn test_unmap() {
    let mut mmu = Mmu::new();
    mmu.identity_map(0, 10);
    mmu.enable_paging();

    // Page 5 is mapped
    assert!(mmu.translate(0x5000, false).is_ok());

    // Unmap page 5
    mmu.unmap_page(5);

    // Should now fail
    assert!(mmu.translate(0x5000, false).is_err());
}

#[test]
fn mmu_test_clear() {
    let mut mmu = Mmu::new();
    mmu.identity_map(0, 10);

    assert_eq!(mmu.mapped_pages(), 10);

    mmu.clear();

    assert_eq!(mmu.mapped_pages(), 0);
}

#[test]
fn test_readonly_mapping() {
    let mut mmu = Mmu::new();
    mmu.identity_map_readonly(0, 5);
    mmu.enable_paging();

    // Read works
    assert!(mmu.translate(0x1000, false).is_ok());

    // Write fails
    assert!(mmu.translate(0x1000, true).is_err());
}

#[test]
fn test_executable_mapping() {
    let mut mmu = Mmu::new();
    mmu.identity_map_executable(0, 5);

    let entry = mmu.page_table().lookup(0).unwrap();
    assert!(entry.executable);
    assert!(!entry.writable);
}

#[test]
fn lookup_mut_changes_the_entry() {
    let mut mmu = Mmu::new();
    mmu.map_page(3, PageTableEntry::new(7));
    mmu.page_table_mut().lookup_mut(3).unwrap().writable = false;
    mmu.enable_paging();
    assert!(mmu.translate(3 * PAGE_SIZE as Address, false).is_ok());
    assert!(mmu.translate(3 * PAGE_SIZE as Address, true).is_err());
    assert!(mmu.page_table_mut().lookup_mut(4).is_none());
}

#[test]
fn translation_with_paging_disabled_is_identity() {
    let mut mmu = Mmu::new();
    mmu.map_page(1, PageTableEntry::new(9));
    assert_eq!(mmu.translate(0x1234, true).unwrap(), 0x1234);
}
