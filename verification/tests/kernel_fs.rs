use vos::kernel::fs::file::OpenMode;
use vos::kernel::fs::simple_fs::SimpleFs;
use vos::kernel::fs::vfs::Vfs;

#[test]
fn test_fs_creation() {
    let fs = SimpleFs::new();
    assert_eq!(fs.root(), 1);

    let (inodes, dirs, files) = fs.stats();
    assert_eq!(inodes, 1); // Root inode
    assert_eq!(dirs, 1);   // Root directory
    assert_eq!(files, 0);
}

#[test]
fn simple_fs_test_create_file() {
    let mut fs = SimpleFs::new();
    let root = fs.root();

    let inode = fs.create_file(root, "test.txt".to_string()).unwrap();

    assert!(fs.get_inode(inode).is_some());
    assert!(fs.get_inode(inode).unwrap().is_file());
}

#[test]
fn test_create_directory() {
    let mut fs = SimpleFs::new();
    let root = fs.root();

    let inode = fs.create_directory(root, "subdir".to_string()).unwrap();

    assert!(fs.get_inode(inode).is_some());
    assert!(fs.get_inode(inode).unwrap().is_directory());
}

#[test]
fn test_read_write_file() {
    let mut fs = SimpleFs::new();
    let root = fs.root();

    let inode = fs.create_file(root, "test.txt".to_string()).unwrap();

    // Write
    let data = b"Hello, World!".to_vec();
    fs.write_file(inode, data.clone()).unwrap();

    // Read
    let read_data = fs.read_file(inode).unwrap();
    assert_eq!(read_data, data);

    // Check size
    let file_inode = fs.get_inode(inode).unwrap();
    assert_eq!(file_inode.size, data.len());
}

#[test]
fn test_list_directory() {
    let mut fs = SimpleFs::new();
    let root = fs.root();

    fs.create_file(root, "file1.txt".to_string()).unwrap();
    fs.create_file(root, "file2.txt".to_string()).unwrap();
    fs.create_directory(root, "subdir".to_string()).unwrap();

    let entries = fs.list_directory(root).unwrap();

    // Should have ., .., file1.txt, file2.txt, subdir
    assert_eq!(entries.len(), 5);
}

#[test]
fn simple_fs_test_lookup() {
    let mut fs = SimpleFs::new();
    let root = fs.root();

    let file_inode = fs.create_file(root, "test.txt".to_string()).unwrap();

    let found = fs.lookup(root, "test.txt");
    assert_eq!(found, Some(file_inode));

    let not_found = fs.lookup(root, "notfound.txt");
    assert_eq!(not_found, None);
}

#[test]
fn test_resolve_path() {
    let mut fs = SimpleFs::new();
    let root = fs.root();

    let dir_inode = fs.create_directory(root, "subdir".to_string()).unwrap();
    let file_inode = fs.create_file(dir_inode, "file.txt".to_string()).unwrap();

    assert_eq!(fs.resolve_path("/"), Some(root));
    assert_eq!(fs.resolve_path("/subdir"), Some(dir_inode));
    assert_eq!(fs.resolve_path("/subdir/file.txt"), Some(file_inode));
    assert_eq!(fs.resolve_path("/notfound"), None);
}

#[test]
fn test_delete_file() {
    let mut fs = SimpleFs::new();
    let root = fs.root();

    fs.create_file(root, "test.txt".to_string()).unwrap();

    fs.delete(root, "test.txt").unwrap();

    assert!(fs.lookup(root, "test.txt").is_none());
}

#[test]
fn test_delete_empty_directory() {
    let mut fs = SimpleFs::new();
    let root = fs.root();

    fs.create_directory(root, "emptydir".to_string()).unwrap();

    fs.delete(root, "emptydir").unwrap();

    assert!(fs.lookup(root, "emptydir").is_none());
}

#[test]
fn test_delete_nonempty_directory_fails() {
    let mut fs = SimpleFs::new();
    let root = fs.root();

    let dir_inode = fs.create_directory(root, "dir".to_string()).unwrap();
    fs.create_file(dir_inode, "file.txt".to_string()).unwrap();

    let result = fs.delete(root, "dir");
    assert!(result.is_err());
}

#[test]
fn test_vfs_creation() {
    let vfs = Vfs::new();
    assert_eq!(vfs.getcwd(), 1); // Root is inode 1
}

#[test]
fn vfs_test_create_file() {
    let mut vfs = Vfs::new();

    let inode = vfs.create("/test.txt").unwrap();
    assert!(inode > 0);
}

#[test]
fn test_mkdir() {
    let mut vfs = Vfs::new();

    let inode = vfs.mkdir("/testdir").unwrap();
    assert!(inode > 0);
}

#[test]
fn test_open_close() {
    let mut vfs = Vfs::new();

    vfs.create("/test.txt").unwrap();

    let fd = vfs.open("/test.txt", OpenMode::ReadWrite).unwrap();
    assert!(fd >= 3); // After std streams

    vfs.close(fd).unwrap();
}

#[test]
fn test_write_read() {
    let mut vfs = Vfs::new();

    vfs.create("/test.txt").unwrap();

    let fd = vfs.open("/test.txt", OpenMode::ReadWrite).unwrap();

    // Write
    let data = b"Hello, VFS!";
    let written = vfs.write(fd, data).unwrap();
    assert_eq!(written, data.len());

    // Close and reopen
    vfs.close(fd).unwrap();
    let fd = vfs.open("/test.txt", OpenMode::ReadOnly).unwrap();

    // Read
    let mut buffer = vec![0u8; 20];
    let read = vfs.read(fd, &mut buffer).unwrap();
    assert_eq!(read, data.len());
    assert_eq!(&buffer[..read], data);

    vfs.close(fd).unwrap();
}

#[test]
fn test_readdir() {
    let mut vfs = Vfs::new();

    vfs.create("/file1.txt").unwrap();
    vfs.create("/file2.txt").unwrap();
    vfs.mkdir("/subdir").unwrap();

    let entries = vfs.readdir("/").unwrap();
    assert_eq!(entries.len(), 5); // ., .., file1.txt, file2.txt, subdir
}

#[test]
fn test_chdir() {
    let mut vfs = Vfs::new();

    vfs.mkdir("/testdir").unwrap();
    vfs.chdir("/testdir").unwrap();

    assert_ne!(vfs.getcwd(), 1); // Not root anymore
}

#[test]
fn test_unlink() {
    let mut vfs = Vfs::new();

    vfs.create("/test.txt").unwrap();
    vfs.unlink("/test.txt").unwrap();

    // Should not exist anymore
    assert!(vfs.open("/test.txt", OpenMode::ReadOnly).is_err());
}

#[test]
fn test_nested_directories() {
    let mut vfs = Vfs::new();

    vfs.mkdir("/dir1").unwrap();
    vfs.mkdir("/dir1/dir2").unwrap();
    vfs.create("/dir1/dir2/file.txt").unwrap();

    let fd = vfs.open("/dir1/dir2/file.txt", OpenMode::WriteOnly).unwrap();
    vfs.write(fd, b"nested").unwrap();
    vfs.close(fd).unwrap();

    let fd = vfs.open("/dir1/dir2/file.txt", OpenMode::ReadOnly).unwrap();
    let mut buffer = vec![0u8; 10];
    let read = vfs.read(fd, &mut buffer).unwrap();
    assert_eq!(&buffer[..read], b"nested");
}

#[test]
fn read_returns_what_write_wrote_at_the_same_offset() {
    let mut vfs = Vfs::new();
    vfs.create("/f").unwrap();
    let fd = vfs.open("/f", OpenMode::ReadWrite).unwrap();
    assert_eq!(vfs.write(fd, b"abcdef").unwrap(), 6);
    vfs.close(fd).unwrap();
    let fd = vfs.open("/f", OpenMode::ReadOnly).unwrap();
    let mut buf = [0u8; 3];
    assert_eq!(vfs.read(fd, &mut buf).unwrap(), 3);
    assert_eq!(&buf, b"abc");
    assert_eq!(vfs.read(fd, &mut buf).unwrap(), 3);
    assert_eq!(&buf, b"def");
    assert_eq!(vfs.read(fd, &mut buf).unwrap(), 0);
}

#[test]
fn writing_a_read_only_descriptor_fails() {
    let mut vfs = Vfs::new();
    vfs.create("/f").unwrap();
    let fd = vfs.open("/f", OpenMode::ReadOnly).unwrap();
    assert!(vfs.write(fd, b"x").is_err());
    assert!(vfs.close(99).is_err());
}

#[test]
fn creating_an_existing_name_replaces_the_entry() {
    let mut vfs = Vfs::new();
    let first = vfs.create("/a").unwrap();
    let second = vfs.create("/a").unwrap();
    assert_ne!(first, second);
    assert_eq!(vfs.readdir("/").unwrap().len(), 3);
    assert!(vfs.mkdir("/missing/b").is_err());
}

#[test]
fn inode_changed_through_get_inode_mut_reads_back() {
    let mut fs = SimpleFs::new();
    let root = fs.root();
    let ino = fs.create_file(root, "f".to_string()).unwrap();
    fs.get_inode_mut(ino).unwrap().permissions = 0o600;
    assert_eq!(fs.get_inode(ino).unwrap().permissions, 0o600);
    assert!(fs.get_inode_mut(999).is_none());
}

#[test]
fn append_mode_writes_at_the_end_of_the_file() {
    let mut vfs = Vfs::new();
    vfs.create("/f").unwrap();
    let fd = vfs.open("/f", OpenMode::ReadWrite).unwrap();
    vfs.write(fd, b"abc").unwrap();
    vfs.close(fd).unwrap();
    let fd2 = vfs.open("/f", OpenMode::Append).unwrap();
    assert_eq!(vfs.write(fd2, b"d").unwrap(), 1);
    assert_eq!(vfs.write(fd2, b"ef").unwrap(), 2);
    let fd3 = vfs.open("/f", OpenMode::ReadOnly).unwrap();
    let mut buf = [0u8; 16];
    let n = vfs.read(fd3, &mut buf).unwrap();
    assert_eq!(&buf[..n], b"abcdef");
}
