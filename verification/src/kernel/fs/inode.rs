//! Inodes: the metadata of files, directories and devices.
use vstd::prelude::*;
use crate::types::Address;

verus! {

/// Inode number.
pub type InodeNumber = u32;

/// Kind of object an inode describes.
#[derive(Debug, Clone, Copy, PartialEq, Eq, Structural)]
pub enum InodeType {
    /// Regular file
    File,
    /// Directory
    Directory,
    /// Device
    Device,
}

/// Default permission bits for a kind of inode: rw-r--r-- for files, rwxr-xr-x for
/// directories, rw-rw-rw- for devices.
pub open spec fn default_permissions(t: InodeType) -> u16 {
    match t {
        InodeType::File => 0o644,
        InodeType::Directory => 0o755,
        InodeType::Device => 0o666,
    }
}

/// Whether permission bits allow an access: the owner bit applies to the owner, the other bit
/// to everyone else.
pub open spec fn permits(perm: u16, owner: u32, uid: u32, owner_bit: u16, other_bit: u16) -> bool {
    if uid == owner { perm & owner_bit != 0 } else { perm & other_bit != 0 }
}

/// Inode metadata.
#[derive(Debug, Clone)]
pub struct Inode {
    /// Inode number
    pub number: InodeNumber,
    /// Kind of object
    pub inode_type: InodeType,
    /// Size in bytes
    pub size: usize,
    /// Number of hard links
    pub link_count: u32,
    /// Permission bits (rwxrwxrwx)
    pub permissions: u16,
    /// Owner user ID
    pub uid: u32,
    /// Owner group ID
    pub gid: u32,
    /// Creation time
    pub created: u64,
    /// Last modification time
    pub modified: u64,
    /// Last access time
    pub accessed: u64,
    /// Data block addresses
    pub blocks: Vec<Address>,
    /// Indirect block address
    pub indirect_block: Option<Address>,
}

/// A fresh inode: empty, one link, default permissions, owned by user and group 0, all
/// three times equal to the creation time, no blocks.
pub open spec fn is_fresh_inode(i: Inode, number: InodeNumber, inode_type: InodeType, created: u64) -> bool {
    &&& i.number == number
    &&& i.inode_type == inode_type
    &&& i.size == 0
    &&& i.link_count == 1
    &&& i.permissions == default_permissions(inode_type)
    &&& i.uid == 0
    &&& i.gid == 0
    &&& i.created == created
    &&& i.modified == created
    &&& i.accessed == created
    &&& i.blocks@ == Seq::<Address>::empty()
    &&& i.indirect_block is None
}

impl Inode {
    /// A fresh inode of the given kind.
    pub fn new(number: InodeNumber, inode_type: InodeType, created: u64) -> (i: Self)
        ensures
            is_fresh_inode(i, number, inode_type, created),
    {
        let permissions: u16 = match inode_type {
            InodeType::File => 0o644,
            InodeType::Directory => 0o755,
            InodeType::Device => 0o666,
        };
        Self {
            number,
            inode_type,
            size: 0,
            link_count: 1,
            permissions,
            uid: 0,
            gid: 0,
            created,
            modified: created,
            accessed: created,
            blocks: Vec::new(),
            indirect_block: None,
        }
    }

    /// Whether this is a regular file.
    pub fn is_file(&self) -> (b: bool)
        ensures
            b == (self.inode_type == InodeType::File),
    {
        self.inode_type == InodeType::File
    }

    /// Whether this is a directory.
    pub fn is_directory(&self) -> (b: bool)
        ensures
            b == (self.inode_type == InodeType::Directory),
    {
        self.inode_type == InodeType::Directory
    }

    /// Whether this is a device.
    pub fn is_device(&self) -> (b: bool)
        ensures
            b == (self.inode_type == InodeType::Device),
    {
        self.inode_type == InodeType::Device
    }

    /// Appends a data block address.
    pub fn add_block(&mut self, block_addr: Address)
        ensures
            final(self).blocks@ == old(self).blocks@.push(block_addr),
            final(self).number == old(self).number,
            final(self).inode_type == old(self).inode_type,
            final(self).size == old(self).size,
            final(self).link_count == old(self).link_count,
            final(self).permissions == old(self).permissions,
            final(self).uid == old(self).uid,
            final(self).gid == old(self).gid,
            final(self).created == old(self).created,
            final(self).modified == old(self).modified,
            final(self).accessed == old(self).accessed,
            final(self).indirect_block == old(self).indirect_block,
    {
        self.blocks.push(block_addr);
    }

    /// Number of data blocks.
    pub fn block_count(&self) -> (n: usize)
        ensures
            n == self.blocks@.len(),
    {
        self.blocks.len()
    }

    /// Sets the modification time.
    pub fn touch(&mut self, time: u64)
        ensures
            *final(self) == (Inode { modified: time, ..*old(self) }),
    {
        self.modified = time;
    }

    /// Sets the access time.
    pub fn access(&mut self, time: u64)
        ensures
            *final(self) == (Inode { accessed: time, ..*old(self) }),
    {
        self.accessed = time;
    }

    /// Whether user `uid` may read.
    pub fn can_read(&self, uid: u32) -> (b: bool)
        ensures
            b == permits(self.permissions, self.uid, uid, 0o400, 0o004),
    {
        if uid == self.uid { (self.permissions & 0o400) != 0 } else { (self.permissions & 0o004) != 0 }
    }

    /// Whether user `uid` may write.
    pub fn can_write(&self, uid: u32) -> (b: bool)
        ensures
            b == permits(self.permissions, self.uid, uid, 0o200, 0o002),
    {
        if uid == self.uid { (self.permissions & 0o200) != 0 } else { (self.permissions & 0o002) != 0 }
    }

    /// Whether user `uid` may execute.
    pub fn can_execute(&self, uid: u32) -> (b: bool)
        ensures
            b == permits(self.permissions, self.uid, uid, 0o100, 0o001),
    {
        if uid == self.uid { (self.permissions & 0o100) != 0 } else { (self.permissions & 0o001) != 0 }
    }
}

} // verus!
