use vos::kernel::fs::file::OpenMode;
use vos::userspace::shell::Shell;

#[test]
fn test_shell_creation() {
    let shell = Shell::new();
    assert_eq!(shell.cwd(), 1); // Root inode
    assert!(!shell.should_exit());
}

#[test]
fn test_echo() {
    let mut shell = Shell::new();
    let output = shell.execute("echo hello world").unwrap();
    assert_eq!(output, "hello world");
}

#[test]
fn test_help() {
    let mut shell = Shell::new();
    let output = shell.execute("help").unwrap();
    assert!(output.contains("VOS Shell"));
    assert!(output.contains("help"));
    assert!(output.contains("exit"));
}

#[test]
fn test_pwd() {
    let shell = Shell::new();
    let output = shell.cmd_pwd(&[]).unwrap();
    assert!(output.contains("inode 1"));
}

#[test]
fn test_mkdir_ls() {
    let mut shell = Shell::new();

    // Create directory
    shell.execute("mkdir /testdir").unwrap();

    // List root
    let output = shell.execute("ls /").unwrap();
    assert!(output.contains("testdir"));
}

#[test]
fn test_touch_cat() {
    let mut shell = Shell::new();

    // Create file
    shell.execute("touch /test.txt").unwrap();

    // Write to file manually (cat can't write yet)
    let fd = shell.vfs_mut().open("/test.txt", OpenMode::WriteOnly).unwrap();
    shell.vfs_mut().write(fd, b"Hello, Shell!").unwrap();
    shell.vfs_mut().close(fd).unwrap();

    // Cat file
    let output = shell.execute("cat /test.txt").unwrap();
    assert_eq!(output, "Hello, Shell!");
}

#[test]
fn test_cd() {
    let mut shell = Shell::new();

    // Create directory
    shell.execute("mkdir /mydir").unwrap();

    // Change to it
    shell.execute("cd /mydir").unwrap();

    // Should be different inode now
    assert_ne!(shell.cwd(), 1);

    // Change back to root
    shell.execute("cd /").unwrap();
    assert_eq!(shell.cwd(), 1);
}

#[test]
fn test_rm() {
    let mut shell = Shell::new();

    // Create and remove file
    shell.execute("touch /deleteme.txt").unwrap();
    shell.execute("rm /deleteme.txt").unwrap();

    // Should not be in listing
    let output = shell.execute("ls /").unwrap();
    assert!(!output.contains("deleteme.txt"));
}

#[test]
fn test_exit() {
    let mut shell = Shell::new();
    assert!(!shell.should_exit());

    shell.execute("exit").unwrap();
    assert!(shell.should_exit());
}

#[test]
fn test_unknown_command() {
    let mut shell = Shell::new();
    let output = shell.execute("notacommand").unwrap();
    assert!(output.contains("command not found"));
}

#[test]
fn test_empty_line() {
    let mut shell = Shell::new();
    let output = shell.execute("").unwrap();
    assert_eq!(output, "");

    let output = shell.execute("   ").unwrap();
    assert_eq!(output, "");
}

#[test]
fn test_history() {
    let mut shell = Shell::new();

    shell.execute("echo test1").unwrap();
    shell.execute("echo test2").unwrap();

    let history = shell.history();
    assert_eq!(history.len(), 2);
    assert_eq!(history[0], "echo test1");
    assert_eq!(history[1], "echo test2");
}

#[test]
fn test_multiple_args() {
    let mut shell = Shell::new();

    // Multiple mkdir
    shell.execute("mkdir /dir1 /dir2 /dir3").unwrap();

    let output = shell.execute("ls /").unwrap();
    assert!(output.contains("dir1"));
    assert!(output.contains("dir2"));
    assert!(output.contains("dir3"));
}

#[test]
fn cat_without_operand_and_missing_file() {
    let mut shell = Shell::new();
    assert_eq!(shell.execute("cat").unwrap(), "cat: missing file operand");
    assert!(shell.execute("cat /nope").is_err());
}

#[test]
fn ls_lists_entries_with_inodes() {
    let mut shell = Shell::new();
    shell.execute("touch /a").unwrap();
    assert_eq!(shell.execute("ls").unwrap(), "a  (inode 2)\n");
}

#[test]
fn pwd_through_execute_and_trimmed_history() {
    let mut shell = Shell::new();
    assert_eq!(shell.execute("  pwd  ").unwrap(), "/ (inode 1)");
    assert_eq!(shell.history(), &["pwd".to_string()]);
    assert_eq!(shell.execute("unknown x").unwrap(), "vos: command not found: unknown");
}

#[test]
fn cd_into_a_file_is_refused() {
    let mut shell = Shell::new();
    shell.execute("touch /f").unwrap();
    let err = shell.execute("cd /f").unwrap_err();
    assert_eq!(err.message(), "Filesystem error: Not a directory: /f");
    assert_eq!(shell.cwd(), 1);
}

#[test]
fn mkdir_stops_at_the_first_failing_path() {
    let mut shell = Shell::new();
    assert!(shell.execute("mkdir /a /missing/b /c").is_err());
    let listing = shell.execute("ls /").unwrap();
    assert!(listing.contains("a  (inode"));
    assert!(!listing.contains("c  (inode"));
}

#[test]
fn shell_session_lists_a_new_file() {
    let mut shell = Shell::new();
    shell.execute("mkdir /mydir").unwrap();
    shell.execute("touch /mydir/file.txt").unwrap();
    let out = shell.execute("ls /mydir").unwrap();
    assert_eq!(out, "file.txt  (inode 3)\n");
    assert_eq!(shell.execute("exit").unwrap(), "Goodbye!");
    assert!(shell.should_exit());
}
