//! An inode file system kept in memory: inodes, directories and file contents by inode number.
use vstd::prelude::*;
use std::collections::HashMap;
use crate::error::{VosError, fails_with};
use crate::kernel::fs::directory::{Directory, DirectoryEntry, dir_lookup, dir_remove, only_dots};
use crate::kernel::fs::inode::{Inode, InodeNumber, InodeType, is_fresh_inode};
use crate::text::{chars_to_string, str_eq, str_to_chars};

verus! {

broadcast use vstd::std_specs::hash::group_hash_axioms;

/// Abstract state of the file system.
pub struct FsModel {
    /// Inode metadata by number
    pub inodes: Map<InodeNumber, Inode>,
    /// Directory contents by inode number
    pub dirs: Map<InodeNumber, Directory>,
    /// File contents by inode number
    pub files: Map<InodeNumber, Vec<u8>>,
    /// Next inode number to hand out
    pub next_inode: InodeNumber,
    /// Current time, stamped on inodes
    pub time: u64,
    /// Root directory inode
    pub root: InodeNumber,
}

/// Inode found under `name` in directory `parent`.
pub open spec fn fs_lookup(m: FsModel, parent: InodeNumber, name: Seq<char>) -> Option<InodeNumber> {
    if m.dirs.contains_key(parent) { dir_lookup(m.dirs[parent].entries(), name) } else { None }
}

/// One path step: an empty component stays put; otherwise look the component up.
pub open spec fn path_step(m: FsModel, cur: Option<InodeNumber>, name: Seq<char>) -> Option<InodeNumber> {
    if name.len() == 0 {
        cur
    } else {
        match cur {
            Some(d) => fs_lookup(m, d, name),
            None => None,
        }
    }
}

/// Walks the rest of a path from `cur`, `pending` holding the component read so far;
/// components are separated by `/`.
pub open spec fn path_walk(m: FsModel, cur: Option<InodeNumber>, pending: Seq<char>, rest: Seq<char>) -> Option<InodeNumber>
    decreases rest.len(),
{
    if rest.len() == 0 {
        path_step(m, cur, pending)
    } else if rest[0] == '/' {
        path_walk(m, path_step(m, cur, pending), Seq::empty(), rest.drop_first())
    } else {
        path_walk(m, cur, pending.push(rest[0]), rest.drop_first())
    }
}

/// Inode a path names, walking from the root; `/` names the root.
pub open spec fn fs_resolve(m: FsModel, path: Seq<char>) -> Option<InodeNumber> {
    if path == "/"@ { Some(m.root) } else { path_walk(m, Some(m.root), Seq::empty(), path) }
}

/// State after allocating an inode of kind `t`: the new inode is fresh, stamped now.
pub open spec fn allocated(old: FsModel, new: FsModel, t: InodeType) -> bool {
    &&& new.inodes == old.inodes.insert(old.next_inode, new.inodes[old.next_inode])
    &&& is_fresh_inode(new.inodes[old.next_inode], old.next_inode, t, old.time)
    &&& new.next_inode == old.next_inode + 1
}

/// Entries after adding `name` for `ino`: any old entry of that name gone, the new one last.
pub open spec fn entry_added(before: Seq<DirectoryEntry>, after: Seq<DirectoryEntry>, name: Seq<char>, ino: InodeNumber) -> bool {
    &&& after.len() > 0
    &&& after.drop_last() == dir_remove(before, name)
    &&& after.last().name@ == name
    &&& after.last().inode == ino
}

/// How creating file `name` in directory `parent` changes the file system and what it returns:
/// a fresh inode is allocated either way; in a directory it gets an entry and empty contents,
/// otherwise the call fails.
pub open spec fn file_created(o: FsModel, n: FsModel, parent: InodeNumber, name: Seq<char>, r: Result<InodeNumber, VosError>) -> bool {
    let ino = o.next_inode;
    &&& allocated(o, n, InodeType::File)
    &&& n.time == o.time && n.root == o.root
    &&& if o.dirs.contains_key(parent) {
        &&& r == Ok::<InodeNumber, VosError>(ino)
        &&& n.dirs == o.dirs.insert(parent, n.dirs[parent])
        &&& entry_added(o.dirs[parent].entries(), n.dirs[parent].entries(), name, ino)
        &&& n.files.dom() == o.files.dom().insert(ino)
        &&& n.files[ino]@ == Seq::<u8>::empty()
        &&& forall|k: InodeNumber| k != ino && o.files.contains_key(k) ==> n.files[k] == o.files[k]
    } else {
        &&& fails_with(r, "Parent is not a directory"@)
        &&& n.dirs == o.dirs
        &&& n.files == o.files
    }
}

/// How creating directory `name` in directory `parent` changes the file system and what it
/// returns: a fresh inode is allocated either way; in a directory it gets an entry and a
/// directory of its own holding `.` and `..`, otherwise the call fails.
pub open spec fn dir_created(o: FsModel, n: FsModel, parent: InodeNumber, name: Seq<char>, r: Result<InodeNumber, VosError>) -> bool {
    let ino = o.next_inode;
    &&& allocated(o, n, InodeType::Directory)
    &&& n.files == o.files && n.time == o.time && n.root == o.root
    &&& if o.dirs.contains_key(parent) {
        &&& r == Ok::<InodeNumber, VosError>(ino)
        &&& n.dirs.dom() == o.dirs.dom().insert(ino)
        &&& forall|k: InodeNumber| k != ino && k != parent && o.dirs.contains_key(k) ==> n.dirs[k] == o.dirs[k]
        &&& (parent != ino ==> entry_added(o.dirs[parent].entries(), n.dirs[parent].entries(), name, ino))
        &&& n.dirs[ino].entries().len() == 2
        &&& n.dirs[ino].entries()[0].name@ == "."@ && n.dirs[ino].entries()[0].inode == ino
        &&& n.dirs[ino].entries()[1].name@ == ".."@ && n.dirs[ino].entries()[1].inode == parent
    } else {
        &&& fails_with(r, "Parent is not a directory"@)
        &&& n.dirs == o.dirs
    }
}

/// How deleting entry `name` of directory `parent` changes the file system and what it
/// returns: an unknown name fails; a directory that holds more than `.` and `..` is refused
/// (its entry still leaves the parent); otherwise the entry, inode, contents and directory go.
pub open spec fn entry_deleted(o: FsModel, n: FsModel, parent: InodeNumber, name: Seq<char>, r: Result<(), VosError>) -> bool {
    match fs_lookup(o, parent, name) {
        None => fails_with(r, "Entry not found"@) && n == o,
        Some(ino) => {
            let kept = if ino == parent { dir_remove(o.dirs[parent].entries(), name) } else { o.dirs[ino].entries() };
            let refused = o.dirs.contains_key(ino) && !only_dots(kept);
            &&& n.time == o.time && n.root == o.root && n.next_inode == o.next_inode
            &&& forall|k: InodeNumber| k != parent && k != ino && o.dirs.contains_key(k) ==> n.dirs[k] == o.dirs[k]
            &&& if refused {
                &&& fails_with(r, "Directory not empty"@)
                &&& n.dirs.dom() == o.dirs.dom()
                &&& n.dirs[parent].entries() == dir_remove(o.dirs[parent].entries(), name)
                &&& ino != parent ==> n.dirs[ino] == o.dirs[ino]
                &&& n.inodes == o.inodes && n.files == o.files
            } else {
                &&& r == Ok::<(), VosError>(())
                &&& n.dirs.dom() == o.dirs.dom().remove(ino)
                &&& ino != parent ==> n.dirs[parent].entries() == dir_remove(o.dirs[parent].entries(), name)
                &&& n.inodes == o.inodes.remove(ino) && n.files == o.files.remove(ino)
            }
        },
    }
}

/// The in-memory file system.
#[derive(Debug)]
pub struct SimpleFs {
    /// Inode table
    inodes: HashMap<InodeNumber, Inode>,
    /// Directory contents
    directories: HashMap<InodeNumber, Directory>,
    /// File contents
    files: HashMap<InodeNumber, Vec<u8>>,
    /// Next inode number to allocate
    next_inode: InodeNumber,
    /// Current time, for timestamps
    current_time: u64,
    /// Root directory inode
    root_inode: InodeNumber,
}

/// A copy of a byte vector.
pub fn copy_bytes(v: &Vec<u8>) -> (r: Vec<u8>)
    ensures
        r@ == v@,
{
    let mut r: Vec<u8> = Vec::new();
    let mut i: usize = 0;
    while i < v.len()
        invariant
            i <= v@.len(),
            r@ == v@.subrange(0, i as int),
        decreases v@.len() - i,
    {
        r.push(v[i]);
        i += 1;
        assert(r@ =~= v@.subrange(0, i as int));
    }
    assert(v@.subrange(0, i as int) =~= v@);
    r
}

impl SimpleFs {
    /// Abstract state.
    pub closed spec fn state(&self) -> FsModel {
        FsModel {
            inodes: self.inodes@,
            dirs: self.directories@,
            files: self.files@,
            next_inode: self.next_inode,
            time: self.current_time,
            root: self.root_inode,
        }
    }

    /// A file system holding only the root directory, inode 1, with `.` and `..` both naming it.
    pub fn new() -> (fs: Self)
        ensures
            fs.state().inodes.dom() == set![1u32],
            is_fresh_inode(fs.state().inodes[1], 1, InodeType::Directory, 0),
            fs.state().dirs.dom() == set![1u32],
            fs.state().dirs[1].entries().len() == 2,
            fs.state().dirs[1].entries()[0].name@ == "."@ && fs.state().dirs[1].entries()[0].inode == 1,
            fs.state().dirs[1].entries()[1].name@ == ".."@ && fs.state().dirs[1].entries()[1].inode == 1,
            fs.state().files == Map::<InodeNumber, Vec<u8>>::empty(),
            fs.state().next_inode == 2,
            fs.state().time == 0,
            fs.state().root == 1,
    {
        let mut fs = Self {
            inodes: HashMap::new(),
            directories: HashMap::new(),
            files: HashMap::new(),
            next_inode: 1,
            current_time: 0,
            root_inode: 1,
        };
        let root_inode = fs.allocate_inode(InodeType::Directory);
        let root_dir = Directory::with_dots(root_inode, root_inode);
        fs.directories.insert(root_inode, root_dir);
        assert(fs.state().inodes.dom() =~= set![1u32]);
        assert(fs.state().dirs.dom() =~= set![1u32]);
        fs
    }

    fn allocate_inode(&mut self, inode_type: InodeType) -> (number: InodeNumber)
        requires
            old(self).state().next_inode < u32::MAX,
        ensures
            number == old(self).state().next_inode,
            allocated(old(self).state(), final(self).state(), inode_type),
            final(self).state().dirs == old(self).state().dirs,
            final(self).state().files == old(self).state().files,
            final(self).state().time == old(self).state().time,
            final(self).state().root == old(self).state().root,
    {
        let number = self.next_inode;
        self.next_inode += 1;
        let inode = Inode::new(number, inode_type, self.current_time);
        self.inodes.insert(number, inode);
        number
    }

    /// Inode metadata by number.
    pub fn get_inode(&self, inode: InodeNumber) -> (r: Option<&Inode>)
        ensures
            self.state().inodes.contains_key(inode) ==> r == Some(&self.state().inodes[inode]),
            !self.state().inodes.contains_key(inode) ==> r is None,
    {
        self.inodes.get(&inode)
    }

    /// Inode metadata by number, for changes.
    pub fn get_inode_mut(&mut self, inode: InodeNumber) -> (r: Option<&mut Inode>)
        ensures
            old(self).state().inodes.contains_key(inode) ==> r is Some
                && *r->0 == old(self).state().inodes[inode]
                && final(self).state() == (FsModel { inodes: old(self).state().inodes.insert(inode, *final(r->0)), ..old(self).state() }),
            !old(self).state().inodes.contains_key(inode) ==> r is None && final(self).state() == old(self).state(),
    {
        crate::maps::value_mut(&mut self.inodes, inode)
    }

    fn add_to_directory(&mut self, parent: InodeNumber, name: String, inode: InodeNumber) -> (ok: bool)
        ensures
            ok == old(self).state().dirs.contains_key(parent),
            ok ==> final(self).state() == (FsModel { dirs: old(self).state().dirs.insert(parent, final(self).state().dirs[parent]), ..old(self).state() }),
            ok ==> final(self).state().dirs[parent].entries()
                == dir_remove(old(self).state().dirs[parent].entries(), name@).push(DirectoryEntry { name, inode }),
            !ok ==> final(self).state() == old(self).state(),
    {
        match self.directories.remove(&parent) {
            Some(mut dir) => {
                dir.add_entry(name, inode);
                self.directories.insert(parent, dir);
                assert(self.directories@ =~= old(self).directories@.insert(parent, self.directories@[parent]));
                true
            },
            None => {
                assert(self.directories@ =~= old(self).directories@);
                false
            },
        }
    }

    /// Creates an empty file named `name` in directory `parent`. The inode is allocated first,
    /// so a failure for want of the parent directory still uses up an inode.
    pub fn create_file(&mut self, parent: InodeNumber, name: String) -> (r: Result<InodeNumber, VosError>)
        requires
            old(self).state().next_inode < u32::MAX,
        ensures
            file_created(old(self).state(), final(self).state(), parent, name@, r),
    {
        let inode = self.allocate_inode(InodeType::File);
        if !self.add_to_directory(parent, name, inode) {
            return Err(VosError::generic("Parent is not a directory"));
        }
        self.files.insert(inode, Vec::new());
        assert(self.state().files.dom() =~= old(self).state().files.dom().insert(inode));
        assert(self.state().dirs[parent].entries().drop_last() =~= dir_remove(old(self).state().dirs[parent].entries(), name@));
        Ok(inode)
    }

    /// Creates a directory named `name` in directory `parent`, holding `.` and `..`. The inode is
    /// allocated first, so a failure for want of the parent directory still uses up an inode.
    pub fn create_directory(&mut self, parent: InodeNumber, name: String) -> (r: Result<InodeNumber, VosError>)
        requires
            old(self).state().next_inode < u32::MAX,
        ensures
            dir_created(old(self).state(), final(self).state(), parent, name@, r),
    {
        let inode = self.allocate_inode(InodeType::Directory);
        if !self.add_to_directory(parent, name, inode) {
            return Err(VosError::generic("Parent is not a directory"));
        }
        let ghost mid = self.state();
        let dir = Directory::with_dots(inode, parent);
        self.directories.insert(inode, dir);
        proof {
            assert(self.state().dirs.dom() =~= old(self).state().dirs.dom().insert(inode));
            if parent != inode {
                assert(self.state().dirs[parent] == mid.dirs[parent]);
                assert(mid.dirs[parent].entries().drop_last() =~= dir_remove(old(self).state().dirs[parent].entries(), name@));
            }
        }
        Ok(inode)
    }

    /// Contents of a file; stamps the inode (if any) as accessed now.
    pub fn read_file(&mut self, inode: InodeNumber) -> (r: Result<Vec<u8>, VosError>)
        ensures
            ({
                let o = old(self).state();
                let n = final(self).state();
                &&& n == (FsModel { inodes: n.inodes, ..o })
                &&& o.inodes.contains_key(inode) ==> n.inodes == o.inodes.insert(inode, Inode { accessed: o.time, ..o.inodes[inode] })
                &&& !o.inodes.contains_key(inode) ==> n.inodes == o.inodes
                &&& o.files.contains_key(inode) ==> r is Ok && r->Ok_0@ == o.files[inode]@
                &&& !o.files.contains_key(inode) ==> fails_with(r, "File not found"@)
            }),
    {
        let current_time = self.current_time;
        if let Some(inode_meta) = self.get_inode_mut(inode) {
            inode_meta.access(current_time);
        }
        match self.files.get(&inode) {
            Some(data) => Ok(copy_bytes(data)),
            None => Err(VosError::generic("File not found")),
        }
    }

    /// Replaces the contents of a file, recording its size and stamping it as modified now;
    /// fails, changing nothing, for an unknown inode.
    pub fn write_file(&mut self, inode: InodeNumber, data: Vec<u8>) -> (r: Result<(), VosError>)
        ensures
            ({
                let o = old(self).state();
                let n = final(self).state();
                if o.inodes.contains_key(inode) {
                    &&& r == Ok::<(), VosError>(())
                    &&& n == (FsModel {
                        inodes: o.inodes.insert(inode, Inode { size: data@.len() as usize, modified: o.time, ..o.inodes[inode] }),
                        files: o.files.insert(inode, data),
                        ..o
                    })
                } else {
                    fails_with(r, "Inode not found"@) && n == o
                }
            }),
    {
        let current_time = self.current_time;
        if let Some(inode_meta) = self.get_inode_mut(inode) {
            inode_meta.size = data.len();
            inode_meta.touch(current_time);
        } else {
            return Err(VosError::generic("Inode not found"));
        }
        self.files.insert(inode, data);
        Ok(())
    }

    /// Name and inode of each entry of a directory, in order.
    pub fn list_directory(&self, inode: InodeNumber) -> (r: Result<Vec<(String, InodeNumber)>, VosError>)
        ensures
            self.state().dirs.contains_key(inode) ==> r is Ok
                && r->Ok_0@.len() == self.state().dirs[inode].entries().len()
                && forall|i: int| 0 <= i < r->Ok_0@.len() ==> r->Ok_0@[i].0@ == self.state().dirs[inode].entries()[i].name@
                    && r->Ok_0@[i].1 == self.state().dirs[inode].entries()[i].inode,
            !self.state().dirs.contains_key(inode) ==> fails_with(r, "Not a directory"@),
    {
        match self.directories.get(&inode) {
            Some(dir) => {
                let list = dir.list();
                let mut out: Vec<(String, InodeNumber)> = Vec::new();
                let mut i: usize = 0;
                while i < list.len()
                    invariant
                        i <= list@.len(),
                        list@ == dir.entries(),
                        out@.len() == i,
                        forall|j: int| 0 <= j < i ==> out@[j].0@ == list@[j].name@ && out@[j].1 == list@[j].inode,
                    decreases list@.len() - i,
                {
                    out.push((list[i].name.clone(), list[i].inode));
                    i += 1;
                }
                Ok(out)
            },
            None => Err(VosError::generic("Not a directory")),
        }
    }

    /// Inode named `name` in directory `parent`.
    pub fn lookup(&self, parent: InodeNumber, name: &str) -> (r: Option<InodeNumber>)
        ensures
            r == fs_lookup(self.state(), parent, name@),
    {
        match self.directories.get(&parent) {
            Some(dir) => dir.lookup(name),
            None => None,
        }
    }

    /// Inode a path names, walking from the root; empty components are skipped.
    pub fn resolve_path(&self, path: &str) -> (r: Option<InodeNumber>)
        ensures
            r == fs_resolve(self.state(), path@),
    {
        if str_eq(path, "/") {
            return Some(self.root_inode);
        }
        let chars = str_to_chars(path);
        let mut current: Option<InodeNumber> = Some(self.root_inode);
        let mut pending: Vec<char> = Vec::new();
        let mut i: usize = 0;
        assert(chars@.subrange(0, chars@.len() as int) =~= chars@);
        assert(pending@ =~= Seq::<char>::empty());
        while i < chars.len()
            invariant
                i <= chars@.len(),
                chars@ == path@,
                path_walk(self.state(), Some(self.state().root), Seq::empty(), path@)
                    == path_walk(self.state(), current, pending@, chars@.subrange(i as int, chars@.len() as int)),
            decreases chars@.len() - i,
        {
            assert(chars@.subrange(i as int, chars@.len() as int).drop_first() =~= chars@.subrange(i + 1, chars@.len() as int));
            if chars[i] == '/' {
                current = self.step(current, &pending);
                pending = Vec::new();
            } else {
                pending.push(chars[i]);
            }
            i += 1;
        }
        self.step(current, &pending)
    }

    fn step(&self, cur: Option<InodeNumber>, name: &Vec<char>) -> (r: Option<InodeNumber>)
        ensures
            r == path_step(self.state(), cur, name@),
    {
        if name.len() == 0 {
            cur
        } else {
            match cur {
                Some(d) => {
                    let component = chars_to_string(name);
                    self.lookup(d, component.as_str())
                },
                None => None,
            }
        }
    }

    /// Removes the entry `name` from directory `parent` together with its inode, its contents
    /// and, for a directory, its entries. A directory must hold nothing but `.` and `..`; if it
    /// holds more, the call fails after the entry has already left the parent.
    pub fn delete(&mut self, parent: InodeNumber, name: &str) -> (r: Result<(), VosError>)
        ensures
            entry_deleted(old(self).state(), final(self).state(), parent, name@, r),
    {
        let inode = match self.lookup(parent, name) {
            Some(i) => i,
            None => return Err(VosError::generic("Entry not found")),
        };
        if let Some(mut dir) = self.directories.remove(&parent) {
            dir.remove_entry(name);
            self.directories.insert(parent, dir);
        }
        let ghost o2 = self.state();
        assert(o2.dirs.dom() =~= old(self).state().dirs.dom());
        if let Some(dir) = self.directories.get(&inode) {
            if !dir.is_empty() {
                return Err(VosError::generic("Directory not empty"));
            }
            self.directories.remove(&inode);
        }
        assert(self.directories@.dom() =~= o2.dirs.dom().remove(inode));
        self.files.remove(&inode);
        self.inodes.remove(&inode);
        Ok(())
    }

    /// Number the next inode gets.
    pub fn next_inode(&self) -> (n: InodeNumber)
        ensures
            n == self.state().next_inode,
    {
        self.next_inode
    }

    /// The root directory inode.
    pub fn root(&self) -> (r: InodeNumber)
        ensures
            r == self.state().root,
    {
        self.root_inode
    }

    /// Sets the clock used for timestamps.
    pub fn set_time(&mut self, time: u64)
        ensures
            final(self).state() == (FsModel { time, ..old(self).state() }),
    {
        self.current_time = time;
    }

    /// Numbers of inodes, directories and files.
    pub fn stats(&self) -> (s: (usize, usize, usize))
        ensures
            s.0 == self.state().inodes.len(),
            s.1 == self.state().dirs.len(),
            s.2 == self.state().files.len(),
    {
        (self.inodes.len(), self.directories.len(), self.files.len())
    }
}

} // verus!
