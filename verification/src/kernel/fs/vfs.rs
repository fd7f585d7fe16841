//! The virtual file system: paths, open files and byte-level reads and writes over the inode
//! file system.
use vstd::prelude::*;
use crate::error::{VosError, fails_with};
use crate::kernel::fs::file::{File, FileDescriptor, FileTable, OpenMode, closed_pos, mode_reads, mode_writes, table_open};
use crate::kernel::fs::inode::{Inode, InodeNumber, InodeType, is_fresh_inode};
use crate::kernel::fs::simple_fs::{FsModel, SimpleFs, dir_created, entry_deleted, file_created, fs_resolve};
use crate::text::{chars_to_string, dec, push_dec, push_str, str_to_chars};

verus! {

broadcast use vstd::std_specs::hash::group_hash_axioms;

/// File system errors.
#[derive(Debug)]
pub enum VfsError {
    /// No file at the path
    FileNotFound(String),
    /// The operation is not allowed
    PermissionDenied(String),
    /// The descriptor names no open file
    InvalidFd(FileDescriptor),
    /// A directory was needed
    NotADirectory(String),
    /// A directory was not expected
    IsADirectory(String),
    /// The file already exists
    FileExists(String),
    /// The directory still has entries
    DirectoryNotEmpty(String),
}

/// The text of a file system error.
pub open spec fn vfs_error_text(e: VfsError) -> Seq<char> {
    match e {
        VfsError::FileNotFound(s) => "File not found: "@ + s@,
        VfsError::PermissionDenied(s) => "Permission denied: "@ + s@,
        VfsError::InvalidFd(fd) => "Invalid file descriptor: "@ + dec(fd as nat),
        VfsError::NotADirectory(s) => "Not a directory: "@ + s@,
        VfsError::IsADirectory(s) => "Is a directory: "@ + s@,
        VfsError::FileExists(s) => "File exists: "@ + s@,
        VfsError::DirectoryNotEmpty(s) => "Directory not empty: "@ + s@,
    }
}

impl VfsError {
    /// The error's text.
    pub fn message(&self) -> (s: String)
        ensures
            s@ == vfs_error_text(*self),
    {
        let mut v: Vec<char> = Vec::new();
        match self {
            VfsError::FileNotFound(s) => {
                push_str(&mut v, "File not found: ");
                push_str(&mut v, s.as_str());
            },
            VfsError::PermissionDenied(s) => {
                push_str(&mut v, "Permission denied: ");
                push_str(&mut v, s.as_str());
            },
            VfsError::InvalidFd(fd) => {
                push_str(&mut v, "Invalid file descriptor: ");
                push_dec(&mut v, *fd as u64);
            },
            VfsError::NotADirectory(s) => {
                push_str(&mut v, "Not a directory: ");
                push_str(&mut v, s.as_str());
            },
            VfsError::IsADirectory(s) => {
                push_str(&mut v, "Is a directory: ");
                push_str(&mut v, s.as_str());
            },
            VfsError::FileExists(s) => {
                push_str(&mut v, "File exists: ");
                push_str(&mut v, s.as_str());
            },
            VfsError::DirectoryNotEmpty(s) => {
                push_str(&mut v, "Directory not empty: ");
                push_str(&mut v, s.as_str());
            },
        }
        chars_to_string(&v)
    }
}


/// Whether a result is a failure with the file system error of the given text.
pub open spec fn fails_fs<T>(r: Result<T, VosError>, text: Seq<char>) -> bool {
    r matches Err(e) && e matches VosError::Filesystem(s) && s@ == text
}

impl VfsError {
    /// The error as a system error: a `Filesystem` error carrying its text.
    pub fn into_error(self) -> (r: VosError)
        ensures
            r matches VosError::Filesystem(s) && s@ == vfs_error_text(self),
    {
        VosError::Filesystem(self.message())
    }
}

fn fs_error(e: VfsError) -> (r: VosError)
    ensures
        r matches VosError::Filesystem(s) && s@ == vfs_error_text(e),
{
    e.into_error()
}

fn text(s: &str) -> (r: String)
    ensures
        r@ == s@,
{
    s.to_owned()
}

/// Abstract state of the virtual file system.
pub struct VfsModel {
    /// The file system
    pub fs: FsModel,
    /// Open file slots, by descriptor
    pub slots: Seq<Option<File>>,
    /// Next descriptor to allocate
    pub next_fd: FileDescriptor,
    /// Current directory inode
    pub cwd: InodeNumber,
}

/// An open file fits the file system: its inode number has been handed out, its position lies
/// within the file's contents, and a file without contents is at position 0.
pub open spec fn file_ok(fs: FsModel, f: File) -> bool {
    &&& f.inode < fs.next_inode
    &&& fs.files.contains_key(f.inode) ==> f.position <= fs.files[f.inode]@.len()
    &&& fs.inodes.contains_key(f.inode) && !fs.files.contains_key(f.inode) ==> f.position == 0
}

/// Well-formed state: one slot per descriptor, inode numbers below the next one, and every
/// open file fitting the file system.
pub open spec fn vfs_ok(m: VfsModel) -> bool {
    &&& m.slots.len() == m.next_fd
    &&& forall|k: InodeNumber| #[trigger] m.fs.inodes.contains_key(k) ==> k < m.fs.next_inode
    &&& forall|i: int| 0 <= i < m.slots.len() && #[trigger] m.slots[i] is Some ==> file_ok(m.fs, m.slots[i]->0)
}

/// The state of a new file system: only the root directory (inode 1, holding "." and ".."
/// for itself), no file contents, clock at 0, three empty descriptor slots, in the root.
pub open spec fn is_initial_vfs(m: VfsModel) -> bool {
    &&& m.fs.inodes.dom() == set![1u32]
    &&& is_fresh_inode(m.fs.inodes[1], 1, InodeType::Directory, 0)
    &&& m.fs.dirs.dom() == set![1u32]
    &&& m.fs.dirs[1].entries().len() == 2
    &&& m.fs.dirs[1].entries()[0].name@ == "."@ && m.fs.dirs[1].entries()[0].inode == 1
    &&& m.fs.dirs[1].entries()[1].name@ == ".."@ && m.fs.dirs[1].entries()[1].inode == 1
    &&& m.fs.files == Map::<InodeNumber, Vec<u8>>::empty()
    &&& m.fs.next_inode == 2
    &&& m.fs.time == 0
    &&& m.fs.root == 1
    &&& m.slots == seq![None::<File>, None, None]
    &&& m.next_fd == 3
    &&& m.cwd == 1
}

/// Contents of the file with inode `inode`; empty where none were written.
pub open spec fn file_contents(fs: FsModel, inode: InodeNumber) -> Seq<u8> {
    if fs.files.contains_key(inode) { fs.files[inode]@ } else { Seq::<u8>::empty() }
}

/// Where a write through `f` lands in `contents`: at the end in append mode, else at the
/// file's position.
pub open spec fn write_position(f: File, contents: Seq<u8>) -> nat {
    if f.mode == OpenMode::Append { contents.len() } else { f.position as nat }
}

/// Contents after writing `data` at `pos`: zero-filled up to `pos + data.len()` if shorter,
/// then overwritten there.
pub open spec fn write_contents(old: Seq<u8>, pos: nat, data: Seq<u8>) -> Seq<u8> {
    let end = pos + data.len();
    let base = if end > old.len() { old + Seq::new((end - old.len()) as nat, |i: int| 0u8) } else { old };
    base.subrange(0, pos as int) + data + base.subrange(end as int, base.len() as int)
}

/// Bytes a read of up to `max` bytes at `pos` returns.
pub open spec fn read_bytes(contents: Seq<u8>, pos: nat, max: nat) -> Seq<u8> {
    let avail: int = if contents.len() > pos { contents.len() - pos } else { 0 };
    let n: int = if max < avail { max as int } else { avail };
    contents.subrange(pos as int, pos + n)
}

/// Reading at the position where `data` was just written gives `data` back: a read of
/// `data.len()` bytes returns exactly it, and a longer read begins with it.
pub proof fn lemma_read_after_write(old: Seq<u8>, pos: nat, data: Seq<u8>, max: nat)
    requires
        max >= data.len(),
    ensures
        read_bytes(write_contents(old, pos, data), pos, data.len()) == data,
        read_bytes(write_contents(old, pos, data), pos, max).subrange(0, data.len() as int) == data,
{
    let w = write_contents(old, pos, data);
    assert(w.len() >= pos + data.len());
    assert(w.subrange(pos as int, (pos + data.len()) as int) =~= data);
    assert(read_bytes(w, pos, max).subrange(0, data.len() as int) =~= data);
}

/// Writing leaves everything outside the written range as it was, and the contents at least
/// as long as they were.
pub proof fn lemma_write_keeps_rest(old: Seq<u8>, pos: nat, data: Seq<u8>)
    ensures
        write_contents(old, pos, data).len() == (if pos + data.len() > old.len() { (pos + data.len()) as int } else { old.len() as int }),
        forall|i: int| 0 <= i < old.len() && !(pos <= i < pos + data.len()) ==> #[trigger] write_contents(old, pos, data)[i] == old[i],
{
}

/// A write in append mode adds `data` after the old contents and keeps them whole.
pub proof fn lemma_append_extends(f: File, old: Seq<u8>, data: Seq<u8>)
    requires
        f.mode == OpenMode::Append,
    ensures
        write_contents(old, write_position(f, old), data) == old + data,
{
    assert(write_contents(old, old.len(), data) =~= old + data);
}

/// Position of the last `/` in a path.
pub open spec fn last_slash(p: Seq<char>) -> Option<int>
    decreases p.len(),
{
    if p.len() == 0 {
        None
    } else if p.last() == '/' {
        Some(p.len() - 1)
    } else {
        last_slash(p.drop_last())
    }
}

/// Parent path and final name of a path: split at the last `/` (a leading one leaves the
/// root `/` as parent); a path without `/` lies in the root.
pub open spec fn split_path_spec(p: Seq<char>) -> (Seq<char>, Seq<char>) {
    match last_slash(p) {
        Some(pos) => (if pos == 0 { "/"@ } else { p.subrange(0, pos) }, p.subrange(pos + 1, p.len() as int)),
        None => ("/"@, p),
    }
}

proof fn lemma_last_slash(p: Seq<char>)
    ensures
        last_slash(p) matches Some(i) ==> 0 <= i < p.len() && p[i] == '/' && forall|j: int| i < j < p.len() ==> p[j] != '/',
        last_slash(p) is None ==> forall|j: int| 0 <= j < p.len() ==> p[j] != '/',
    decreases p.len(),
{
    if p.len() > 0 && p.last() != '/' {
        lemma_last_slash(p.drop_last());
        assert forall|j: int| 0 <= j < p.len() - 1 implies p[j] == p.drop_last()[j] by {}
    }
}

/// The virtual file system.
pub struct Vfs {
    /// The underlying file system
    fs: SimpleFs,
    /// Open files
    file_table: FileTable,
    /// Current directory
    cwd: InodeNumber,
}

impl Vfs {
    /// Abstract state.
    pub closed spec fn state(&self) -> VfsModel {
        VfsModel { fs: self.fs.state(), slots: self.file_table.slots(), next_fd: self.file_table.next(), cwd: self.cwd }
    }

    /// The state is well formed.
    pub open spec fn wf(&self) -> bool {
        vfs_ok(self.state())
    }

    /// A file system holding only the root directory, no open files, in the root.
    pub fn new() -> (v: Self)
        ensures
            v.wf(),
            v.state().slots == seq![None::<File>, None, None],
            v.state().cwd == 1,
            v.state().fs.root == 1,
            v.state().fs.next_inode == 2,
            v.state().fs.files == Map::<InodeNumber, Vec<u8>>::empty(),
            v.state().fs.inodes.dom() == set![1u32],
            is_initial_vfs(v.state()),
    {
        let fs = SimpleFs::new();
        let root = fs.root();
        let v = Self { fs, file_table: FileTable::new(), cwd: root };
        assert forall|i: int| 0 <= i < v.state().slots.len() && #[trigger] v.state().slots[i] is Some implies false by {}
        v
    }

    /// Opens the file at `path`; directories cannot be opened.
    pub fn open(&mut self, path: &str, mode: OpenMode) -> (r: Result<FileDescriptor, VosError>)
        requires
            old(self).wf(),
            closed_pos(old(self).state().slots, 0) is None ==> old(self).state().next_fd < u32::MAX,
        ensures
            final(self).wf(),
            ({
                let o = old(self).state();
                let n = final(self).state();
                match fs_resolve(o.fs, path@) {
                    None => fails_fs(r, "File not found: "@ + path@) && n == o,
                    Some(ino) => if !o.fs.inodes.contains_key(ino) {
                        fails_fs(r, "File not found: "@ + path@) && n == o
                    } else if o.fs.inodes[ino].inode_type == InodeType::Directory {
                        fails_fs(r, "Is a directory: "@ + path@) && n == o
                    } else {
                        let (slots, next, fd) = table_open(o.slots, o.next_fd, ino, mode);
                        r == Ok::<FileDescriptor, VosError>(fd) && n == (VfsModel { slots, next_fd: next, ..o })
                    },
                }
            }),
    {
        let inode = match self.fs.resolve_path(path) {
            Some(i) => i,
            None => return Err(fs_error(VfsError::FileNotFound(text(path)))),
        };
        let is_dir = match self.fs.get_inode(inode) {
            Some(meta) => meta.is_directory(),
            None => return Err(fs_error(VfsError::FileNotFound(text(path)))),
        };
        if is_dir {
            return Err(fs_error(VfsError::IsADirectory(text(path))));
        }
        let ghost o = self.state();
        let fd = self.file_table.open(inode, mode);
        proof {
            let n = self.state();
            crate::kernel::fs::file::lemma_closed_pos(o.slots, 0);
            assert forall|i: int| 0 <= i < n.slots.len() && #[trigger] n.slots[i] is Some implies file_ok(n.fs, n.slots[i]->0) by {
                if i < o.slots.len() && !(closed_pos(o.slots, 0) == Some(i as nat)) {
                    assert(n.slots[i] == o.slots[i]);
                }
            }
        }
        Ok(fd)
    }

    /// Closes a descriptor.
    pub fn close(&mut self, fd: FileDescriptor) -> (r: Result<(), VosError>)
        requires
            old(self).wf(),
        ensures
            final(self).wf(),
            ({
                let o = old(self).state();
                let n = final(self).state();
                if (fd as int) < o.slots.len() && o.slots[fd as int] is Some {
                    r == Ok::<(), VosError>(())
                        && n == (VfsModel { slots: o.slots.update(fd as int, Some(File { is_open: false, ..o.slots[fd as int]->0 })), ..o })
                } else {
                    fails_fs(r, "Invalid file descriptor: "@ + dec(fd as nat)) && n == o
                }
            }),
    {
        let ghost o = self.state();
        if self.file_table.close(fd) {
            proof {
                let n = self.state();
                assert forall|i: int| 0 <= i < n.slots.len() && #[trigger] n.slots[i] is Some implies file_ok(n.fs, n.slots[i]->0) by {
                    if i != fd as int {
                        assert(n.slots[i] == o.slots[i]);
                    }
                }
            }
            Ok(())
        } else {
            Err(fs_error(VfsError::InvalidFd(fd)))
        }
    }

    /// Reads from the current position into `buffer`, as many bytes as fit and remain; returns
    /// how many were read and moves the position past them.
    pub fn read(&mut self, fd: FileDescriptor, buffer: &mut [u8]) -> (r: Result<usize, VosError>)
        requires
            old(self).wf(),
        ensures
            final(self).wf(),
            final(buffer)@.len() == old(buffer)@.len(),
            ({
                let o = old(self).state();
                let n = final(self).state();
                if !((fd as int) < o.slots.len() && o.slots[fd as int] is Some) {
                    fails_fs(r, "Invalid file descriptor: "@ + dec(fd as nat)) && n == o && final(buffer)@ == old(buffer)@
                } else {
                    let f = o.slots[fd as int]->0;
                    let stamped = FsModel {
                        inodes: if o.fs.inodes.contains_key(f.inode) {
                            o.fs.inodes.insert(f.inode, Inode { accessed: o.fs.time, ..o.fs.inodes[f.inode] })
                        } else {
                            o.fs.inodes
                        },
                        ..o.fs
                    };
                    if !mode_reads(f.mode) {
                        fails_fs(r, "Permission denied: "@ + "File not open for reading"@) && n == o && final(buffer)@ == old(buffer)@
                    } else if !o.fs.files.contains_key(f.inode) {
                        fails_with(r, "File not found"@) && n == (VfsModel { fs: stamped, ..o }) && final(buffer)@ == old(buffer)@
                    } else {
                        let got = read_bytes(o.fs.files[f.inode]@, f.position as nat, old(buffer)@.len());
                        &&& r == Ok::<usize, VosError>(got.len() as usize)
                        &&& final(buffer)@ == got + old(buffer)@.subrange(got.len() as int, old(buffer)@.len() as int)
                        &&& n == (VfsModel {
                            fs: stamped,
                            slots: o.slots.update(fd as int, Some(File { position: (f.position + got.len()) as usize, ..f })),
                            ..o
                        })
                    }
                }
            }),
    {
        let ghost o = self.state();
        let (inode, position) = match self.file_table.get(fd) {
            Some(file) => {
                if !file.can_read() {
                    return Err(fs_error(VfsError::PermissionDenied(text("File not open for reading"))));
                }
                (file.inode, file.position)
            },
            None => return Err(fs_error(VfsError::InvalidFd(fd))),
        };
        proof {
            assert(o.slots[fd as int] is Some);
            assert(file_ok(o.fs, o.slots[fd as int]->0));
        }
        let data = match self.fs.read_file(inode) {
            Ok(d) => d,
            Err(e) => return Err(e),
        };
        let avail: usize = if data.len() > position { data.len() - position } else { 0 };
        let to_read: usize = if buffer.len() < avail { buffer.len() } else { avail };
        let mut i: usize = 0;
        while i < to_read
            invariant
                i <= to_read,
                to_read <= buffer@.len(),
                position + to_read <= data@.len(),
                buffer@.len() == old(buffer)@.len(),
                forall|j: int| 0 <= j < i ==> buffer@[j] == data@[position + j],
                forall|j: int| i <= j < buffer@.len() ==> buffer@[j] == old(buffer)@[j],
            decreases to_read - i,
        {
            assert(position + i < data.len());
            buffer[i] = data[position + i];
            i += 1;
        }
        let ghost mid = self.state();
        if let Some(file) = self.file_table.get_mut(fd) {
            file.advance(to_read);
        }
        proof {
            let got = read_bytes(o.fs.files[inode]@, position as nat, old(buffer)@.len());
            assert(buffer@ =~= got + old(buffer)@.subrange(got.len() as int, old(buffer)@.len() as int));
            let n = self.state();
            assert forall|k: InodeNumber| #[trigger] n.fs.inodes.contains_key(k) implies k < n.fs.next_inode by {
                assert(o.fs.inodes.contains_key(k));
            }
            assert forall|j: int| 0 <= j < n.slots.len() && #[trigger] n.slots[j] is Some implies file_ok(n.fs, n.slots[j]->0) by {
                assert(o.slots[j] is Some);
                assert(file_ok(o.fs, o.slots[j]->0));
            }
        }
        Ok(to_read)
    }

    /// Writes `data` at the current position, or at the end of the file in append mode,
    /// extending the file with zeros as needed; returns how many bytes were written and moves
    /// the position past them.
    pub fn write(&mut self, fd: FileDescriptor, data: &[u8]) -> (r: Result<usize, VosError>)
        requires
            old(self).wf(),
            (fd as int) < old(self).state().slots.len() && old(self).state().slots[fd as int] is Some
                ==> write_position(
                    old(self).state().slots[fd as int]->0,
                    file_contents(old(self).state().fs, old(self).state().slots[fd as int]->0.inode),
                ) + data@.len() <= usize::MAX,
        ensures
            final(self).wf(),
            ({
                let o = old(self).state();
                let n = final(self).state();
                if !((fd as int) < o.slots.len() && o.slots[fd as int] is Some) {
                    fails_fs(r, "Invalid file descriptor: "@ + dec(fd as nat)) && n == o
                } else {
                    let f = o.slots[fd as int]->0;
                    let old_contents = file_contents(o.fs, f.inode);
                    let pos = write_position(f, old_contents);
                    let new_contents = write_contents(old_contents, pos, data@);
                    if !mode_writes(f.mode) {
                        fails_fs(r, "Permission denied: "@ + "File not open for writing"@) && n == o
                    } else if !o.fs.inodes.contains_key(f.inode) {
                        fails_with(r, "Inode not found"@) && n == o
                    } else {
                        &&& r == Ok::<usize, VosError>(data@.len() as usize)
                        &&& n.fs.files[f.inode]@ == new_contents
                        &&& n == (VfsModel {
                            fs: FsModel {
                                inodes: o.fs.inodes.insert(f.inode, Inode {
                                    size: new_contents.len() as usize,
                                    modified: o.fs.time,
                                    accessed: o.fs.time,
                                    ..o.fs.inodes[f.inode]
                                }),
                                files: o.fs.files.insert(f.inode, n.fs.files[f.inode]),
                                ..o.fs
                            },
                            slots: o.slots.update(fd as int, Some(File { position: (pos + data@.len()) as usize, ..f })),
                            ..o
                        })
                    }
                }
            }),
    {
        let ghost o = self.state();
        let (inode, current, append) = match self.file_table.get(fd) {
            Some(file) => {
                if !file.can_write() {
                    return Err(fs_error(VfsError::PermissionDenied(text("File not open for writing"))));
                }
                (file.inode, file.position, matches!(file.mode, OpenMode::Append))
            },
            None => return Err(fs_error(VfsError::InvalidFd(fd))),
        };
        proof {
            assert(o.slots[fd as int] is Some);
            assert(file_ok(o.fs, o.slots[fd as int]->0));
        }
        let ghost o_contents = if o.fs.files.contains_key(inode) { o.fs.files[inode]@ } else { Seq::<u8>::empty() };
        let mut contents = match self.fs.read_file(inode) {
            Ok(c) => c,
            Err(_) => Vec::new(),
        };
        assert(contents@ == o_contents);
        let position: usize = if append { contents.len() } else { current };
        assert(position == write_position(o.slots[fd as int]->0, o_contents));
        let end = position + data.len();
        let ghost base = if end > o_contents.len() { o_contents + Seq::new((end - o_contents.len()) as nat, |i: int| 0u8) } else { o_contents };
        if end > contents.len() {
            while contents.len() < end
                invariant
                    contents@.len() <= end,
                    end > o_contents.len(),
                    contents@ == o_contents + Seq::new((contents@.len() - o_contents.len()) as nat, |i: int| 0u8),
                decreases end - contents@.len(),
            {
                contents.push(0);
                assert(contents@ =~= o_contents + Seq::new((contents@.len() - o_contents.len()) as nat, |i: int| 0u8));
            }
        }
        assert(contents@ == base);
        let mut i: usize = 0;
        while i < data.len()
            invariant
                i <= data@.len(),
                end == position + data@.len(),
                contents@.len() == base.len(),
                base.len() >= end,
                forall|j: int| 0 <= j < position ==> contents@[j] == base[j],
                forall|j: int| position <= j < position + i ==> contents@[j] == data@[j - position],
                forall|j: int| position + i <= j < base.len() ==> contents@[j] == base[j],
            decreases data@.len() - i,
        {
            contents.set(position + i, data[i]);
            i += 1;
        }
        assert(contents@ =~= write_contents(o_contents, position as nat, data@));
        let ghost stamped = self.state();
        match self.fs.write_file(inode, contents) {
            Ok(()) => {},
            Err(e) => {
                assert(self.state().fs =~= o.fs);
                return Err(e);
            },
        }
        if let Some(file) = self.file_table.get_mut(fd) {
            file.seek(end);
        }
        proof {
            let n = self.state();
            assert(n.fs.inodes =~= o.fs.inodes.insert(inode, Inode {
                size: n.fs.files[inode]@.len() as usize,
                modified: o.fs.time,
                accessed: o.fs.time,
                ..o.fs.inodes[inode]
            }));
            assert(n.fs.files =~= o.fs.files.insert(inode, n.fs.files[inode]));
            assert forall|k: InodeNumber| #[trigger] n.fs.inodes.contains_key(k) implies k < n.fs.next_inode by {
                assert(o.fs.inodes.contains_key(k));
            }
            assert forall|j: int| 0 <= j < n.slots.len() && #[trigger] n.slots[j] is Some implies file_ok(n.fs, n.slots[j]->0) by {
                assert(o.slots[j] is Some);
                assert(file_ok(o.fs, o.slots[j]->0));
            }
        }
        Ok(data.len())
    }

    /// Number the next inode gets.
    pub fn next_inode(&self) -> (n: InodeNumber)
        ensures
            n == self.state().fs.next_inode,
    {
        self.fs.next_inode()
    }

    /// Descriptor a file gets when no slot is free.
    pub fn next_fd(&self) -> (n: FileDescriptor)
        ensures
            n == self.state().next_fd,
    {
        self.file_table.next_descriptor()
    }

    /// Current directory inode.
    pub fn getcwd(&self) -> (c: InodeNumber)
        ensures
            c == self.state().cwd,
    {
        self.cwd
    }

    fn split_path(&self, path: &str) -> (r: (String, String))
        ensures
            r.0@ == split_path_spec(path@).0,
            r.1@ == split_path_spec(path@).1,
    {
        let chars = str_to_chars(path);
        proof {
            lemma_last_slash(path@);
        }
        let mut k: usize = chars.len();
        while k > 0
            invariant
                k <= chars@.len(),
                chars@ == path@,
                forall|j: int| k <= j < chars@.len() ==> chars@[j] != '/',
            ensures
                k <= chars@.len(),
                forall|j: int| k <= j < chars@.len() ==> chars@[j] != '/',
                k == 0 || chars@[k - 1] == '/',
            decreases k,
        {
            if chars[k - 1] == '/' {
                break;
            }
            k -= 1;
        }
        if k == 0 {
            proof {
                if let Some(i) = last_slash(path@) {
                    assert(chars@[i] == '/');
                }
            }
            return (text("/"), chars_to_string(&chars));
        }
        let pos = k - 1;
        proof {
            assert(chars@[pos as int] == '/');
            match last_slash(path@) {
                Some(i) => {
                    if i < pos { assert(chars@[pos as int] != '/'); }
                    if i > pos { assert(chars@[i] != '/'); }
                },
                None => { assert(chars@[pos as int] != '/'); },
            }
        }
        let mut name: Vec<char> = Vec::new();
        let mut i: usize = pos + 1;
        while i < chars.len()
            invariant
                pos + 1 <= i <= chars@.len(),
                name@ == chars@.subrange(pos + 1, i as int),
            decreases chars@.len() - i,
        {
            name.push(chars[i]);
            i += 1;
            assert(name@ =~= chars@.subrange(pos + 1, i as int));
        }
        let parent = if pos == 0 {
            text("/")
        } else {
            let mut p: Vec<char> = Vec::new();
            let mut j: usize = 0;
            while j < pos
                invariant
                    j <= pos,
                    pos < chars@.len(),
                    p@ == chars@.subrange(0, j as int),
                decreases pos - j,
            {
                p.push(chars[j]);
                j += 1;
                assert(p@ =~= chars@.subrange(0, j as int));
            }
            chars_to_string(&p)
        };
        (parent, chars_to_string(&name))
    }

    proof fn lemma_files_kept(o: FsModel, n: FsModel, slots: Seq<Option<File>>)
        requires
            forall|i: int| 0 <= i < slots.len() && #[trigger] slots[i] is Some ==> file_ok(o, slots[i]->0),
            n.next_inode >= o.next_inode,
            forall|k: InodeNumber| k < o.next_inode ==> (!n.inodes.contains_key(k) && !n.files.contains_key(k))
                || ((n.files.contains_key(k) == o.files.contains_key(k))
                    && (o.files.contains_key(k) ==> n.files[k]@.len() >= o.files[k]@.len())
                    && (n.inodes.contains_key(k) ==> o.inodes.contains_key(k))),
        ensures
            forall|i: int| 0 <= i < slots.len() && #[trigger] slots[i] is Some ==> file_ok(n, slots[i]->0),
    {
        assert forall|i: int| 0 <= i < slots.len() && #[trigger] slots[i] is Some implies file_ok(n, slots[i]->0) by {
            assert(file_ok(o, slots[i]->0));
        }
    }

    /// Creates an empty file at `path`, in the directory its parent path names.
    pub fn create(&mut self, path: &str) -> (r: Result<InodeNumber, VosError>)
        requires
            old(self).wf(),
            fs_resolve(old(self).state().fs, split_path_spec(path@).0) is Some ==> old(self).state().fs.next_inode < u32::MAX,
        ensures
            final(self).wf(),
            ({
                let o = old(self).state();
                let n = final(self).state();
                let (pp, name) = split_path_spec(path@);
                match fs_resolve(o.fs, pp) {
                    None => fails_fs(r, "File not found: "@ + pp) && n == o,
                    Some(parent) => n.slots == o.slots && n.next_fd == o.next_fd && n.cwd == o.cwd
                        && file_created(o.fs, n.fs, parent, name, r),
                }
            }),
    {
        let (parent_path, name) = self.split_path(path);
        let parent = match self.fs.resolve_path(parent_path.as_str()) {
            Some(p) => p,
            None => return Err(fs_error(VfsError::FileNotFound(parent_path))),
        };
        let ghost o = self.state();
        let r = self.fs.create_file(parent, name);
        proof {
            let n = self.state();
            assert(n.fs.inodes.dom() =~= o.fs.inodes.dom().insert(o.fs.next_inode));
            assert forall|k: InodeNumber| #[trigger] n.fs.inodes.contains_key(k) implies k < n.fs.next_inode by {
                if k != o.fs.next_inode { assert(o.fs.inodes.contains_key(k)); }
            }
            Self::lemma_files_kept(o.fs, n.fs, n.slots);
        }
        r
    }

    /// Creates a directory at `path`, in the directory its parent path names.
    pub fn mkdir(&mut self, path: &str) -> (r: Result<InodeNumber, VosError>)
        requires
            old(self).wf(),
            fs_resolve(old(self).state().fs, split_path_spec(path@).0) is Some ==> old(self).state().fs.next_inode < u32::MAX,
        ensures
            final(self).wf(),
            ({
                let o = old(self).state();
                let n = final(self).state();
                let (pp, name) = split_path_spec(path@);
                match fs_resolve(o.fs, pp) {
                    None => fails_fs(r, "File not found: "@ + pp) && n == o,
                    Some(parent) => n.slots == o.slots && n.next_fd == o.next_fd && n.cwd == o.cwd
                        && dir_created(o.fs, n.fs, parent, name, r),
                }
            }),
    {
        let (parent_path, name) = self.split_path(path);
        let parent = match self.fs.resolve_path(parent_path.as_str()) {
            Some(p) => p,
            None => return Err(fs_error(VfsError::FileNotFound(parent_path))),
        };
        let ghost o = self.state();
        let r = self.fs.create_directory(parent, name);
        proof {
            let n = self.state();
            assert(n.fs.inodes.dom() =~= o.fs.inodes.dom().insert(o.fs.next_inode));
            assert forall|k: InodeNumber| #[trigger] n.fs.inodes.contains_key(k) implies k < n.fs.next_inode by {
                if k != o.fs.next_inode { assert(o.fs.inodes.contains_key(k)); }
            }
            Self::lemma_files_kept(o.fs, n.fs, n.slots);
        }
        r
    }

    /// Name and inode of each entry of the directory at `path`.
    pub fn readdir(&self, path: &str) -> (r: Result<Vec<(String, InodeNumber)>, VosError>)
        ensures
            match fs_resolve(self.state().fs, path@) {
                None => fails_fs(r, "File not found: "@ + path@),
                Some(ino) => if self.state().fs.dirs.contains_key(ino) {
                    r is Ok && r->Ok_0@.len() == self.state().fs.dirs[ino].entries().len()
                        && forall|i: int| 0 <= i < r->Ok_0@.len() ==> r->Ok_0@[i].0@ == self.state().fs.dirs[ino].entries()[i].name@
                            && r->Ok_0@[i].1 == self.state().fs.dirs[ino].entries()[i].inode
                } else {
                    fails_with(r, "Not a directory"@)
                },
            },
    {
        let inode = match self.fs.resolve_path(path) {
            Some(i) => i,
            None => return Err(fs_error(VfsError::FileNotFound(text(path)))),
        };
        self.fs.list_directory(inode)
    }

    /// Removes the entry at `path` (see `SimpleFs::delete`).
    pub fn unlink(&mut self, path: &str) -> (r: Result<(), VosError>)
        requires
            old(self).wf(),
        ensures
            final(self).wf(),
            ({
                let o = old(self).state();
                let n = final(self).state();
                let (pp, name) = split_path_spec(path@);
                match fs_resolve(o.fs, pp) {
                    None => fails_fs(r, "File not found: "@ + pp) && n == o,
                    Some(parent) => n.slots == o.slots && n.next_fd == o.next_fd && n.cwd == o.cwd
                        && entry_deleted(o.fs, n.fs, parent, name, r),
                }
            }),
    {
        let (parent_path, name) = self.split_path(path);
        let parent = match self.fs.resolve_path(parent_path.as_str()) {
            Some(p) => p,
            None => return Err(fs_error(VfsError::FileNotFound(parent_path))),
        };
        let ghost o = self.state();
        let r = self.fs.delete(parent, name.as_str());
        proof {
            let n = self.state();
            assert forall|k: InodeNumber| #[trigger] n.fs.inodes.contains_key(k) implies k < n.fs.next_inode by {
                assert(o.fs.inodes.contains_key(k));
            }
            Self::lemma_files_kept(o.fs, n.fs, n.slots);
        }
        r
    }

    /// Makes the directory at `path` the current one.
    pub fn chdir(&mut self, path: &str) -> (r: Result<(), VosError>)
        requires
            old(self).wf(),
        ensures
            final(self).wf(),
            ({
                let o = old(self).state();
                let n = final(self).state();
                match fs_resolve(o.fs, path@) {
                    None => fails_fs(r, "File not found: "@ + path@) && n == o,
                    Some(ino) => if !o.fs.inodes.contains_key(ino) {
                        fails_fs(r, "File not found: "@ + path@) && n == o
                    } else if o.fs.inodes[ino].inode_type != InodeType::Directory {
                        fails_fs(r, "Not a directory: "@ + path@) && n == o
                    } else {
                        r == Ok::<(), VosError>(()) && n == (VfsModel { cwd: ino, ..o })
                    },
                }
            }),
    {
        let inode = match self.fs.resolve_path(path) {
            Some(i) => i,
            None => return Err(fs_error(VfsError::FileNotFound(text(path)))),
        };
        let is_dir = match self.fs.get_inode(inode) {
            Some(meta) => meta.is_directory(),
            None => return Err(fs_error(VfsError::FileNotFound(text(path)))),
        };
        if !is_dir {
            return Err(fs_error(VfsError::NotADirectory(text(path))));
        }
        self.cwd = inode;
        Ok(())
    }
}

impl Default for Vfs {
    /// A file system holding only the root directory.
    fn default() -> (v: Self)
        ensures
            v.wf(),
            v.state().slots == seq![None::<File>, None, None],
            v.state().cwd == 1,
    {
        Self::new()
    }
}

} // verus!
