use vos::kernel::fs::file::{File, FileTable, OpenMode};

#[test]
fn test_file_creation() {
    let file = File::new(3, 100, OpenMode::ReadOnly);

    assert_eq!(file.fd, 3);
    assert_eq!(file.inode, 100);
    assert_eq!(file.mode, OpenMode::ReadOnly);
    assert_eq!(file.position, 0);
    assert!(file.is_open);
}

#[test]
fn test_file_permissions() {
    let ro = File::new(3, 100, OpenMode::ReadOnly);
    assert!(ro.can_read());
    assert!(!ro.can_write());

    let wo = File::new(4, 101, OpenMode::WriteOnly);
    assert!(!wo.can_read());
    assert!(wo.can_write());

    let rw = File::new(5, 102, OpenMode::ReadWrite);
    assert!(rw.can_read());
    assert!(rw.can_write());
}

#[test]
fn test_file_seek() {
    let mut file = File::new(3, 100, OpenMode::ReadOnly);

    file.seek(100);
    assert_eq!(file.position, 100);

    file.advance(50);
    assert_eq!(file.position, 150);
}

#[test]
fn test_file_close() {
    let mut file = File::new(3, 100, OpenMode::ReadOnly);
    assert!(file.is_open);

    file.close();
    assert!(file.is_closed());
}

#[test]
fn test_file_table_creation() {
    let table = FileTable::new();
    assert_eq!(table.open_count(), 0); // stdin/stdout/stderr are None
}

#[test]
fn test_file_table_open() {
    let mut table = FileTable::new();

    let fd1 = table.open(100, OpenMode::ReadOnly);
    assert_eq!(fd1, 3); // First available after std streams

    let fd2 = table.open(101, OpenMode::WriteOnly);
    assert_eq!(fd2, 4);

    assert_eq!(table.open_count(), 2);
}

#[test]
fn test_file_table_get() {
    let mut table = FileTable::new();

    let fd = table.open(100, OpenMode::ReadOnly);

    let file = table.get(fd).unwrap();
    assert_eq!(file.inode, 100);
    assert_eq!(file.mode, OpenMode::ReadOnly);
}

#[test]
fn test_file_table_close() {
    let mut table = FileTable::new();

    let fd = table.open(100, OpenMode::ReadOnly);
    assert!(table.close(fd));

    let file = table.get(fd).unwrap();
    assert!(file.is_closed());
}

#[test]
fn test_file_table_reuse_slot() {
    let mut table = FileTable::new();

    let fd1 = table.open(100, OpenMode::ReadOnly);
    table.close(fd1);

    // Opening new file should reuse slot
    let fd2 = table.open(101, OpenMode::WriteOnly);

    // Both FDs point to different inodes
    assert_eq!(table.get(fd2).unwrap().inode, 101);
}

#[test]
fn closing_an_unknown_descriptor_fails() {
    let mut table = FileTable::new();
    assert!(!table.close(42));
    assert!(table.get(42).is_none());
}

#[test]
fn get_mut_moves_the_position() {
    let mut table = FileTable::new();
    let fd = table.open(7, OpenMode::ReadWrite);
    table.get_mut(fd).unwrap().seek(12);
    assert_eq!(table.get(fd).unwrap().position, 12);
}

#[test]
fn closed_files_are_not_counted_as_open() {
    let mut table = FileTable::new();
    let fd = table.open(100, OpenMode::ReadOnly);
    assert_eq!(table.open_count(), 1);
    assert!(table.close(fd));
    assert_eq!(table.open_count(), 0);
    table.open(101, OpenMode::WriteOnly);
    assert_eq!(table.open_count(), 1);
}
