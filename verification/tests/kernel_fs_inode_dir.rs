use vos::kernel::fs::directory::Directory;
use vos::kernel::fs::inode::{Inode, InodeType};

#[test]
fn test_inode_creation() {
    let inode = Inode::new(1, InodeType::File, 1000);

    assert_eq!(inode.number, 1);
    assert_eq!(inode.inode_type, InodeType::File);
    assert_eq!(inode.size, 0);
    assert_eq!(inode.link_count, 1);
    assert_eq!(inode.created, 1000);
}

#[test]
fn test_inode_type_checks() {
    let file = Inode::new(1, InodeType::File, 0);
    assert!(file.is_file());
    assert!(!file.is_directory());

    let dir = Inode::new(2, InodeType::Directory, 0);
    assert!(dir.is_directory());
    assert!(!dir.is_file());
}

#[test]
fn test_add_blocks() {
    let mut inode = Inode::new(1, InodeType::File, 0);

    assert_eq!(inode.block_count(), 0);

    inode.add_block(0x1000);
    inode.add_block(0x2000);

    assert_eq!(inode.block_count(), 2);
    assert_eq!(inode.blocks[0], 0x1000);
    assert_eq!(inode.blocks[1], 0x2000);
}

#[test]
fn test_permissions() {
    let mut inode = Inode::new(1, InodeType::File, 0);
    inode.uid = 100;
    inode.permissions = 0o644; // rw-r--r--

    // Owner can read and write
    assert!(inode.can_read(100));
    assert!(inode.can_write(100));
    assert!(!inode.can_execute(100));

    // Others can only read
    assert!(inode.can_read(200));
    assert!(!inode.can_write(200));
    assert!(!inode.can_execute(200));
}

#[test]
fn test_touch() {
    let mut inode = Inode::new(1, InodeType::File, 1000);
    assert_eq!(inode.modified, 1000);

    inode.touch(2000);
    assert_eq!(inode.modified, 2000);
}

#[test]
fn test_directory_creation() {
    let dir = Directory::new();
    assert_eq!(dir.entry_count(), 0);
}

#[test]
fn test_with_dots() {
    let dir = Directory::with_dots(10, 5);

    assert_eq!(dir.entry_count(), 2);
    assert_eq!(dir.lookup("."), Some(10));
    assert_eq!(dir.lookup(".."), Some(5));
}

#[test]
fn test_add_entry() {
    let mut dir = Directory::new();

    dir.add_entry("file1.txt".to_string(), 100);
    dir.add_entry("file2.txt".to_string(), 101);

    assert_eq!(dir.entry_count(), 2);
    assert_eq!(dir.lookup("file1.txt"), Some(100));
    assert_eq!(dir.lookup("file2.txt"), Some(101));
}

#[test]
fn test_remove_entry() {
    let mut dir = Directory::new();

    dir.add_entry("file1.txt".to_string(), 100);
    dir.add_entry("file2.txt".to_string(), 101);

    let removed = dir.remove_entry("file1.txt");
    assert_eq!(removed, Some(100));
    assert_eq!(dir.entry_count(), 1);
    assert!(dir.lookup("file1.txt").is_none());
}

#[test]
fn directory_test_lookup() {
    let mut dir = Directory::new();

    dir.add_entry("test.txt".to_string(), 42);

    assert_eq!(dir.lookup("test.txt"), Some(42));
    assert_eq!(dir.lookup("notfound.txt"), None);
}

#[test]
fn test_list() {
    let mut dir = Directory::new();

    dir.add_entry("a.txt".to_string(), 1);
    dir.add_entry("b.txt".to_string(), 2);

    let entries = dir.list();
    assert_eq!(entries.len(), 2);
    assert_eq!(entries[0].name, "a.txt");
    assert_eq!(entries[1].name, "b.txt");
}

#[test]
fn test_is_empty() {
    let mut dir = Directory::with_dots(1, 1);
    assert!(dir.is_empty()); // Only . and ..

    dir.add_entry("file.txt".to_string(), 10);
    assert!(!dir.is_empty());
}

#[test]
fn test_contains() {
    let mut dir = Directory::new();
    dir.add_entry("test.txt".to_string(), 1);

    assert!(dir.contains("test.txt"));
    assert!(!dir.contains("other.txt"));
}

#[test]
fn test_replace_entry() {
    let mut dir = Directory::new();

    dir.add_entry("file.txt".to_string(), 100);
    assert_eq!(dir.lookup("file.txt"), Some(100));

    // Adding same name replaces
    dir.add_entry("file.txt".to_string(), 200);
    assert_eq!(dir.lookup("file.txt"), Some(200));
    assert_eq!(dir.entry_count(), 1); // Still only one entry
}

#[test]
fn remove_missing_entry_changes_nothing() {
    let mut dir = Directory::with_dots(3, 1);
    assert_eq!(dir.remove_entry("nothing"), None);
    assert_eq!(dir.entry_count(), 2);
}

#[test]
fn inode_access_stamps_time() {
    let mut inode = Inode::new(4, InodeType::Directory, 10);
    inode.access(99);
    assert_eq!(inode.accessed, 99);
    assert_eq!(inode.modified, 10);
}

#[test]
fn add_then_lookup_gives_the_new_inode_and_keeps_others() {
    let mut dir = Directory::with_dots(5, 1);
    dir.add_entry("x".to_string(), 7);
    dir.add_entry("y".to_string(), 8);
    dir.add_entry("x".to_string(), 9);
    assert_eq!(dir.lookup("x"), Some(9));
    assert_eq!(dir.lookup("y"), Some(8));
    assert_eq!(dir.lookup("."), Some(5));
    assert_eq!(dir.entry_count(), 4);
}
