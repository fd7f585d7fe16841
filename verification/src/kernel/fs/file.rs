//! Open files and the table of file descriptors.
use vstd::prelude::*;
use crate::kernel::fs::inode::InodeNumber;

verus! {

/// File descriptor.
pub type FileDescriptor = u32;

/// Access mode of an open file.
#[derive(Debug, Clone, Copy, PartialEq, Eq, Structural)]
pub enum OpenMode {
    /// Read only
    ReadOnly,
    /// Write only
    WriteOnly,
    /// Read and write
    ReadWrite,
    /// Append (write at end)
    Append,
}

/// Whether a mode allows reading.
pub open spec fn mode_reads(m: OpenMode) -> bool {
    m == OpenMode::ReadOnly || m == OpenMode::ReadWrite
}

/// Whether a mode allows writing.
pub open spec fn mode_writes(m: OpenMode) -> bool {
    m == OpenMode::WriteOnly || m == OpenMode::ReadWrite || m == OpenMode::Append
}

/// An open file.
#[derive(Debug, Clone)]
pub struct File {
    /// File descriptor
    pub fd: FileDescriptor,
    /// Inode of the file
    pub inode: InodeNumber,
    /// Access mode
    pub mode: OpenMode,
    /// Current position
    pub position: usize,
    /// Whether still open
    pub is_open: bool,
}

/// A freshly opened file: position zero.
pub open spec fn new_file(fd: FileDescriptor, inode: InodeNumber, mode: OpenMode) -> File {
    File { fd, inode, mode, position: 0, is_open: true }
}

impl File {
    /// A file opened at position zero.
    pub fn new(fd: FileDescriptor, inode: InodeNumber, mode: OpenMode) -> (f: Self)
        ensures
            f == new_file(fd, inode, mode),
    {
        Self { fd, inode, mode, position: 0, is_open: true }
    }

    /// Whether the mode allows reading.
    pub fn can_read(&self) -> (b: bool)
        ensures
            b == mode_reads(self.mode),
    {
        match self.mode {
            OpenMode::ReadOnly | OpenMode::ReadWrite => true,
            _ => false,
        }
    }

    /// Whether the mode allows writing.
    pub fn can_write(&self) -> (b: bool)
        ensures
            b == mode_writes(self.mode),
    {
        match self.mode {
            OpenMode::WriteOnly | OpenMode::ReadWrite | OpenMode::Append => true,
            _ => false,
        }
    }

    /// Moves to an absolute position.
    pub fn seek(&mut self, position: usize)
        ensures
            *final(self) == (File { position, ..*old(self) }),
    {
        self.position = position;
    }

    /// Moves forward by `offset`.
    pub fn advance(&mut self, offset: usize)
        requires
            old(self).position + offset <= usize::MAX,
        ensures
            *final(self) == (File { position: (old(self).position + offset) as usize, ..*old(self) }),
    {
        self.position += offset;
    }

    /// Marks the file closed.
    pub fn close(&mut self)
        ensures
            *final(self) == (File { is_open: false, ..*old(self) }),
    {
        self.is_open = false;
    }

    /// Whether the file is closed.
    pub fn is_closed(&self) -> (b: bool)
        ensures
            b == !self.is_open,
    {
        !self.is_open
    }
}

/// First slot at or after `from` holding a closed file.
pub open spec fn closed_pos(files: Seq<Option<File>>, from: nat) -> Option<nat>
    decreases files.len() - from,
{
    if from >= files.len() {
        None
    } else if files[from as int] matches Some(f) && !f.is_open {
        Some(from)
    } else {
        closed_pos(files, from + 1)
    }
}

/// A found slot is in range.
pub proof fn lemma_closed_pos(files: Seq<Option<File>>, from: nat)
    ensures
        closed_pos(files, from) matches Some(i) ==> from <= i < files.len(),
    decreases files.len() - from,
{
    if from < files.len() {
        lemma_closed_pos(files, from + 1);
    }
}

/// Whether a slot holds a file that is still open.
pub open spec fn slot_open(slot: Option<File>) -> bool {
    slot matches Some(f) && f.is_open
}

/// Number of slots holding a file that is still open.
pub open spec fn open_files(files: Seq<Option<File>>) -> nat
    decreases files.len(),
{
    if files.len() == 0 {
        0
    } else {
        open_files(files.drop_last()) + (if slot_open(files.last()) { 1nat } else { 0nat })
    }
}

/// Slots and descriptor after opening: the first closed slot is reused, else a new slot with
/// the next descriptor is added.
pub open spec fn table_open(files: Seq<Option<File>>, next_fd: FileDescriptor, inode: InodeNumber, mode: OpenMode)
    -> (Seq<Option<File>>, FileDescriptor, FileDescriptor)
{
    match closed_pos(files, 0) {
        Some(i) => (files.update(i as int, Some(new_file(i as u32, inode, mode))), next_fd, i as u32),
        None => (files.push(Some(new_file(next_fd, inode, mode))), (next_fd + 1) as u32, next_fd),
    }
}

/// Opening puts the new file in the slot of the descriptor it returns.
pub proof fn lemma_table_open(files: Seq<Option<File>>, next_fd: FileDescriptor, inode: InodeNumber, mode: OpenMode)
    requires
        files.len() == next_fd,
    ensures
        ({
            let (slots, next, fd) = table_open(files, next_fd, inode, mode);
            &&& (fd as int) < slots.len()
            &&& slots[fd as int] == Some(new_file(fd, inode, mode))
        }),
{
    lemma_closed_pos(files, 0);
}

/// The table of open files, indexed by descriptor; 0, 1 and 2 are kept for the standard streams.
#[derive(Debug)]
pub struct FileTable {
    /// Slots, indexed by descriptor
    files: Vec<Option<File>>,
    /// Next descriptor to allocate
    next_fd: FileDescriptor,
}

impl FileTable {
    /// The slots.
    pub closed spec fn slots(&self) -> Seq<Option<File>> {
        self.files@
    }

    /// Next descriptor to allocate.
    pub closed spec fn next(&self) -> FileDescriptor {
        self.next_fd
    }

    /// One slot per allocated descriptor.
    pub open spec fn wf(&self) -> bool {
        self.slots().len() == self.next()
    }

    /// A table whose three standard slots are empty.
    pub fn new() -> (t: Self)
        ensures
            t.wf(),
            t.slots() == seq![None::<File>, None, None],
            t.next() == 3,
    {
        let mut table = Self { files: Vec::new(), next_fd: 3 };
        table.files.push(None);
        table.files.push(None);
        table.files.push(None);
        assert(table.files@ =~= seq![None::<File>, None, None]);
        table
    }

    /// Opens `inode` in `mode`; returns the new descriptor.
    pub fn open(&mut self, inode: InodeNumber, mode: OpenMode) -> (fd: FileDescriptor)
        requires
            old(self).wf(),
            closed_pos(old(self).slots(), 0) is None ==> old(self).next() < u32::MAX,
        ensures
            final(self).wf(),
            (final(self).slots(), final(self).next(), fd) == table_open(old(self).slots(), old(self).next(), inode, mode),
    {
        proof {
            lemma_closed_pos(self.files@, 0);
        }
        let mut index: usize = 0;
        while index < self.files.len()
            invariant
                index <= self.files@.len(),
                self.files@ == old(self).files@,
                self.next_fd == old(self).next_fd,
                self.files@.len() == self.next_fd,
                closed_pos(self.files@, 0) == closed_pos(self.files@, index as nat),
            decreases self.files@.len() - index,
        {
            let closed = match &self.files[index] {
                Some(file) => file.is_closed(),
                None => false,
            };
            if closed {
                let fd = index as FileDescriptor;
                self.files.set(index, Some(File::new(fd, inode, mode)));
                return fd;
            }
            index += 1;
        }
        let fd = self.next_fd;
        self.next_fd += 1;
        let file = File::new(fd, inode, mode);
        while self.files.len() <= fd as usize
            invariant
                self.files@.len() <= fd + 1,
                self.files@ == old(self).files@ || self.files@ == old(self).files@.push(None),
                old(self).files@.len() == fd,
                self.next_fd == fd + 1,
                closed_pos(old(self).files@, 0) is None,
                file == new_file(fd, inode, mode),
            decreases fd + 1 - self.files@.len(),
        {
            self.files.push(None);
        }
        self.files.set(fd as usize, Some(file));
        assert(self.files@ =~= old(self).files@.push(Some(new_file(fd, inode, mode))));
        fd
    }

    /// The file at a descriptor, if its slot is occupied.
    pub fn get(&self, fd: FileDescriptor) -> (r: Option<&File>)
        ensures
            (fd as int) < self.slots().len() && self.slots()[fd as int] is Some ==> r == Some(&self.slots()[fd as int]->0),
            !((fd as int) < self.slots().len() && self.slots()[fd as int] is Some) ==> r is None,
    {
        if (fd as usize) < self.files.len() {
            self.files[fd as usize].as_ref()
        } else {
            None
        }
    }

    /// The file at a descriptor, for changes.
    pub fn get_mut(&mut self, fd: FileDescriptor) -> (r: Option<&mut File>)
        ensures
            (fd as int) < old(self).slots().len() && old(self).slots()[fd as int] is Some ==> r is Some
                && *r->0 == old(self).slots()[fd as int]->0
                && final(self).slots() == old(self).slots().update(fd as int, Some(*final(r->0)))
                && final(self).next() == old(self).next(),
            !((fd as int) < old(self).slots().len() && old(self).slots()[fd as int] is Some) ==> r is None
                && final(self).slots() == old(self).slots() && final(self).next() == old(self).next(),
    {
        if (fd as usize) < self.files.len() {
            self.files[fd as usize].as_mut()
        } else {
            None
        }
    }

    /// Closes the file at a descriptor; `false` if the slot is empty.
    pub fn close(&mut self, fd: FileDescriptor) -> (b: bool)
        ensures
            b == ((fd as int) < old(self).slots().len() && old(self).slots()[fd as int] is Some),
            b ==> final(self).slots() == old(self).slots().update(fd as int,
                Some(File { is_open: false, ..old(self).slots()[fd as int]->0 })),
            !b ==> final(self).slots() == old(self).slots(),
            final(self).next() == old(self).next(),
    {
        if let Some(file) = self.get_mut(fd) {
            file.close();
            true
        } else {
            false
        }
    }

    /// Descriptor a file gets when no slot is free.
    pub fn next_descriptor(&self) -> (n: FileDescriptor)
        ensures
            n == self.next(),
    {
        self.next_fd
    }

    /// Number of files still open.
    pub fn open_count(&self) -> (n: usize)
        ensures
            n == open_files(self.slots()),
    {
        let mut n: usize = 0;
        let mut i: usize = 0;
        while i < self.files.len()
            invariant
                i <= self.files@.len(),
                n <= i,
                n == open_files(self.files@.subrange(0, i as int)),
            decreases self.files@.len() - i,
        {
            assert(self.files@.subrange(0, i + 1).drop_last() =~= self.files@.subrange(0, i as int));
            match &self.files[i] {
                Some(f) => {
                    if f.is_open {
                        n += 1;
                    }
                },
                None => {},
            }
            i += 1;
        }
        assert(self.files@.subrange(0, i as int) =~= self.files@);
        n
    }
}

impl Default for FileTable {
    /// A table whose three standard slots are empty.
    fn default() -> (t: Self)
        ensures
            t.wf(),
            t.slots() == seq![None::<File>, None, None],
            t.next() == 3,
    {
        Self::new()
    }
}

} // verus!
