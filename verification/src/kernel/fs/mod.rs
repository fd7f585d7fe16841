//! The file system: inodes, directories, open files, the inode file system and the VFS layer.
pub mod inode;
pub mod directory;
pub mod file;
pub mod simple_fs;
pub mod vfs;
