//! The command shell: built-in commands over the virtual file system.
use vstd::prelude::*;
use crate::error::{VosError, fails_with};
use crate::kernel::fs::file::{File, OpenMode, closed_pos, new_file, table_open};
use crate::kernel::fs::inode::{Inode, InodeNumber, InodeType};
use crate::kernel::fs::simple_fs::{FsModel, dir_created, entry_deleted, file_created, fs_resolve};
use crate::kernel::fs::vfs::{Vfs, VfsModel, fails_fs, is_initial_vfs, read_bytes, split_path_spec};
use crate::text::{chars_eq, chars_to_string, dec, push_dec, push_str, str_to_chars};
use crate::words::{join, join_words, split_words, trim, trim_chars, words};

verus! {

/// Text of bytes decoded as UTF-8, invalid sequences replaced.
pub uninterp spec fn utf8_lossy(b: Seq<u8>) -> Seq<char>;

/// `String::from_utf8_lossy`: the bytes decoded as UTF-8 with invalid sequences replaced by
/// U+FFFD; ASCII bytes decode to the characters with the same codes.
#[verifier::external_body]
fn bytes_to_text(b: &[u8]) -> (s: String)
    ensures
        s@ == utf8_lossy(b@),
        (forall|i: int| 0 <= i < b@.len() ==> #[trigger] b@[i] < 128)
            ==> s@ == Seq::new(b@.len(), |i: int| b@[i] as char),
{
    String::from_utf8_lossy(b).to_string()
}

/// Text the help command prints.
pub open spec fn help_text() -> Seq<char> {
    HELP@
}

/// The help text.
pub const HELP: &'static str = "VOS Shell - Available Commands:

  help         Display this help message
  exit         Exit the shell
  pwd          Print working directory
  cd [PATH]    Change directory (default: /)
  ls [PATH]    List directory contents (default: /)
  cat FILE     Display file contents
  echo [ARGS]  Echo arguments to output
  mkdir PATH   Create directory
  touch FILE   Create empty file
  rm PATH      Remove file or empty directory

Examples:
  mkdir /mydir         Create a directory
  touch /mydir/file    Create a file
  echo hello > file    Write to file (not implemented yet)
  cat /mydir/file      Display file contents
  ls /mydir            List directory
  cd /mydir            Change to directory
  pwd                  Show current directory
  rm /mydir/file       Remove file
";

/// Listing text of directory entries: one line per entry, `.` and `..` left out.
pub open spec fn ls_text(entries: Seq<(Seq<char>, u32)>) -> Seq<char>
    decreases entries.len(),
{
    if entries.len() == 0 {
        Seq::empty()
    } else {
        let (name, ino) = entries.last();
        ls_text(entries.drop_last()) + (if name == "."@ || name == ".."@ {
            Seq::empty()
        } else {
            name + "  (inode "@ + dec(ino as nat) + ")\n"@
        })
    }
}

/// The texts of character vectors.
pub open spec fn texts(v: Seq<Vec<char>>) -> Seq<Seq<char>> {
    Seq::new(v.len(), |i: int| v[i]@)
}

/// The unit outcome of a creating call: success, or its error.
pub open spec fn same_outcome(ri: Result<InodeNumber, VosError>, r: Result<(), VosError>) -> bool {
    match ri {
        Ok(_) => r == Ok::<(), VosError>(()),
        Err(e) => r == Err::<(), VosError>(e),
    }
}

/// The unit outcome of a command's text result.
pub open spec fn unit_of(r: Result<String, VosError>) -> Result<(), VosError> {
    match r {
        Ok(_) => Ok(()),
        Err(e) => Err(e),
    }
}

/// What `mkdir` (0), `touch` (1) or `rm` (2) on one path does to the file system and returns:
/// the parent directory is resolved first, then the directory or file is created or the entry
/// deleted.
pub open spec fn path_effect(op: u8, path: Seq<char>, o: VfsModel, n: VfsModel, r: Result<(), VosError>) -> bool {
    let (pp, name) = split_path_spec(path);
    match fs_resolve(o.fs, pp) {
        None => fails_fs(r, "File not found: "@ + pp) && n == o,
        Some(parent) => n.slots == o.slots && n.next_fd == o.next_fd && n.cwd == o.cwd && if op == 0 {
            exists|ri: Result<InodeNumber, VosError>| #[trigger] dir_created(o.fs, n.fs, parent, name, ri) && same_outcome(ri, r)
        } else if op == 1 {
            exists|ri: Result<InodeNumber, VosError>| #[trigger] file_created(o.fs, n.fs, parent, name, ri) && same_outcome(ri, r)
        } else {
            entry_deleted(o.fs, n.fs, parent, name, r)
        },
    }
}

/// `states` are the file systems before and after each of `paths` in turn, every step
/// succeeding.
pub open spec fn steps_ok(op: u8, paths: Seq<Seq<char>>, states: Seq<VfsModel>) -> bool {
    &&& states.len() == paths.len() + 1
    &&& forall|j: int| #![trigger paths[j]] 0 <= j < paths.len() ==> path_effect(op, paths[j], states[j], states[j + 1], Ok(()))
}

/// Running `op` on each of `paths` in turn from `o`, stopping at the first error, ends in `n`
/// with outcome `r`, `states` being the file systems passed through.
pub open spec fn paths_run(op: u8, paths: Seq<Seq<char>>, o: VfsModel, n: VfsModel, r: Result<(), VosError>, states: Seq<VfsModel>) -> bool {
    &&& states.len() >= 1
    &&& states[0] == o
    &&& r is Ok ==> steps_ok(op, paths, states) && states.last() == n
    &&& r is Err ==> states.len() <= paths.len()
        && steps_ok(op, paths.take(states.len() - 1), states)
        && path_effect(op, paths[states.len() - 1], states.last(), n, r)
}

/// The file system after `cat` read inode `ino`: the file opened read-only in the first free
/// slot, its inode stamped as accessed now, up to 4096 bytes read and the file closed again
/// (left open when the inode has no contents, as the read then fails).
pub open spec fn cat_state(o: VfsModel, ino: InodeNumber) -> VfsModel {
    let (slots, next, fd) = table_open(o.slots, o.next_fd, ino, OpenMode::ReadOnly);
    let f = new_file(fd, ino, OpenMode::ReadOnly);
    let stamped = FsModel { inodes: o.fs.inodes.insert(ino, Inode { accessed: o.fs.time, ..o.fs.inodes[ino] }), ..o.fs };
    if o.fs.files.contains_key(ino) {
        let got = read_bytes(o.fs.files[ino]@, 0, 4096);
        VfsModel {
            fs: stamped,
            slots: slots.update(fd as int, Some(File { position: got.len() as usize, is_open: false, ..f })),
            next_fd: next,
            ..o
        }
    } else {
        VfsModel { fs: stamped, slots, next_fd: next, ..o }
    }
}

/// The interactive shell.
pub struct Shell {
    /// Virtual file system
    vfs: Vfs,
    /// Command history
    history: Vec<String>,
    /// Exit flag
    should_exit: bool,
}

impl Shell {
    /// The file system.
    pub closed spec fn fs(&self) -> Vfs {
        self.vfs
    }

    /// Lines entered so far (trimmed).
    pub closed spec fn lines(&self) -> Seq<Seq<char>> {
        Seq::new(self.history@.len(), |i: int| self.history@[i]@)
    }

    /// Whether the shell was asked to exit.
    pub closed spec fn exiting(&self) -> bool {
        self.should_exit
    }

    /// A shell over a fresh file system.
    pub fn new() -> (s: Self)
        ensures
            s.fs().wf(),
            is_initial_vfs(s.fs().state()),
            s.fs().state().cwd == 1,
            s.lines() == Seq::<Seq<char>>::empty(),
            !s.exiting(),
    {
        let s = Self { vfs: Vfs::new(), history: Vec::new(), should_exit: false };
        assert(s.lines() =~= Seq::<Seq<char>>::empty());
        s
    }

    /// A shell over an existing file system.
    pub fn with_vfs(vfs: Vfs) -> (s: Self)
        ensures
            s.fs() == vfs,
            s.lines() == Seq::<Seq<char>>::empty(),
            !s.exiting(),
    {
        let s = Self { vfs, history: Vec::new(), should_exit: false };
        assert(s.lines() =~= Seq::<Seq<char>>::empty());
        s
    }

    /// Whether the shell should exit.
    pub fn should_exit(&self) -> (b: bool)
        ensures
            b == self.exiting(),
    {
        self.should_exit
    }

    /// The current directory inode.
    pub fn cwd(&self) -> (c: u32)
        ensures
            c == self.fs().state().cwd,
    {
        self.vfs.getcwd()
    }

    /// The file system.
    pub fn vfs(&self) -> (v: &Vfs)
        ensures
            *v == self.fs(),
    {
        &self.vfs
    }

    /// The file system, for changes.
    pub fn vfs_mut(&mut self) -> (v: &mut Vfs)
        ensures
            *v == old(self).fs(),
            final(self).fs() == *final(v),
            final(self).lines() == old(self).lines(),
            final(self).exiting() == old(self).exiting(),
    {
        &mut self.vfs
    }

    /// The lines entered so far.
    pub fn history(&self) -> (h: &[String])
        ensures
            h@.len() == self.lines().len(),
            forall|i: int| 0 <= i < h@.len() ==> #[trigger] h@[i]@ == self.lines()[i],
    {
        self.history.as_slice()
    }

    fn cmd_exit(&mut self) -> (r: Result<String, VosError>)
        ensures
            r is Ok && r->Ok_0@ == "Goodbye!"@,
            final(self).exiting(),
            final(self).fs() == old(self).fs(),
            final(self).lines() == old(self).lines(),
    {
        self.should_exit = true;
        Ok("Goodbye!".to_owned())
    }

    /// Prints the current directory (as its inode).
    pub fn cmd_pwd(&self, _args: &[&str]) -> (r: Result<String, VosError>)
        ensures
            r is Ok && r->Ok_0@ == "/ (inode "@ + dec(self.fs().state().cwd as nat) + ")"@,
    {
        let mut v: Vec<char> = Vec::new();
        push_str(&mut v, "/ (inode ");
        push_dec(&mut v, self.vfs.getcwd() as u64);
        push_str(&mut v, ")");
        Ok(chars_to_string(&v))
    }

    fn cmd_ls(&self, path: &str) -> (r: Result<String, VosError>)
        ensures
            match fs_resolve(self.fs().state().fs, path@) {
                Some(ino) => if self.fs().state().fs.dirs.contains_key(ino) {
                    r is Ok && r->Ok_0@ == ls_text(Seq::new(self.fs().state().fs.dirs[ino].entries().len(), |i: int|
                        (self.fs().state().fs.dirs[ino].entries()[i].name@, self.fs().state().fs.dirs[ino].entries()[i].inode)))
                } else {
                    fails_with(r, "Not a directory"@)
                },
                None => fails_fs(r, "File not found: "@ + path@),
            },
    {
        let entries = match self.vfs.readdir(path) {
            Ok(e) => e,
            Err(e) => return Err(e),
        };
        let ghost ev = Seq::new(entries@.len(), |i: int| (entries@[i].0@, entries@[i].1));
        let dot = str_to_chars(".");
        let dotdot = str_to_chars("..");
        let mut out: Vec<char> = Vec::new();
        let mut i: usize = 0;
        while i < entries.len()
            invariant
                i <= entries@.len(),
                ev == Seq::new(entries@.len(), |k: int| (entries@[k].0@, entries@[k].1)),
                dot@ == "."@,
                dotdot@ == ".."@,
                out@ == ls_text(ev.subrange(0, i as int)),
            decreases entries@.len() - i,
        {
            let name = str_to_chars(entries[i].0.as_str());
            proof {
                assert(ev.subrange(0, i + 1).drop_last() =~= ev.subrange(0, i as int));
            }
            if !chars_eq(&name, &dot) && !chars_eq(&name, &dotdot) {
                let ghost before = out@;
                push_str(&mut out, entries[i].0.as_str());
                push_str(&mut out, "  (inode ");
                push_dec(&mut out, entries[i].1 as u64);
                push_str(&mut out, ")\n");
                assert(out@ =~= before + (ev[i as int].0 + "  (inode "@ + dec(ev[i as int].1 as nat) + ")\n"@));
            }
            i += 1;
        }
        proof {
            assert(ev.subrange(0, i as int) =~= ev);
            if let Some(ino) = fs_resolve(self.fs().state().fs, path@) {
                if self.fs().state().fs.dirs.contains_key(ino) {
                    assert(ev =~= Seq::new(self.fs().state().fs.dirs[ino].entries().len(), |k: int|
                        (self.fs().state().fs.dirs[ino].entries()[k].name@, self.fs().state().fs.dirs[ino].entries()[k].inode)));
                }
            }
        }
        Ok(chars_to_string(&out))
    }

    fn cmd_cat(&mut self, path: &str) -> (r: Result<String, VosError>)
        requires
            old(self).fs().wf(),
            closed_pos(old(self).fs().state().slots, 0) is None ==> old(self).fs().state().next_fd < u32::MAX,
        ensures
            final(self).fs().wf(),
            final(self).lines() == old(self).lines(),
            final(self).exiting() == old(self).exiting(),
            ({
                let o = old(self).fs().state();
                let n = final(self).fs().state();
                match fs_resolve(o.fs, path@) {
                    None => fails_fs(r, "File not found: "@ + path@) && n == o,
                    Some(ino) => if !o.fs.inodes.contains_key(ino) {
                        fails_fs(r, "File not found: "@ + path@) && n == o
                    } else if o.fs.inodes[ino].inode_type == InodeType::Directory {
                        fails_fs(r, "Is a directory: "@ + path@) && n == o
                    } else if !o.fs.files.contains_key(ino) {
                        fails_with(r, "File not found"@) && n == cat_state(o, ino)
                    } else {
                        r is Ok && r->Ok_0@ == utf8_lossy(read_bytes(o.fs.files[ino]@, 0, 4096)) && n == cat_state(o, ino)
                    },
                }
            }),
    {
        let ghost o = self.vfs.state();
        let fd = match self.vfs.open(path, OpenMode::ReadOnly) {
            Ok(fd) => fd,
            Err(e) => return Err(e),
        };
        proof {
            crate::kernel::fs::file::lemma_table_open(o.slots, o.next_fd, fs_resolve(o.fs, path@)->0, OpenMode::ReadOnly);
        }
        let mut buffer: Vec<u8> = Vec::new();
        let mut k: usize = 0;
        while k < 4096
            invariant
                k <= 4096,
                buffer@.len() == k,
            decreases 4096 - k,
        {
            buffer.push(0);
            k += 1;
        }
        let bytes_read = match self.vfs.read(fd, buffer.as_mut_slice()) {
            Ok(n) => n,
            Err(e) => return Err(e),
        };
        match self.vfs.close(fd) {
            Ok(()) => {},
            Err(e) => return Err(e),
        }
        let mut got: Vec<u8> = Vec::new();
        let mut i: usize = 0;
        while i < bytes_read
            invariant
                i <= bytes_read,
                bytes_read <= buffer@.len(),
                got@ == buffer@.subrange(0, i as int),
            decreases bytes_read - i,
        {
            got.push(buffer[i]);
            i += 1;
            assert(got@ =~= buffer@.subrange(0, i as int));
        }
        let ghost fs = old(self).fs().state().fs;
        proof {
            let ino = fs_resolve(fs, path@)->0;
            assert(got@ =~= read_bytes(fs.files[ino]@, 0, 4096));
            let (slots, next, fdd) = table_open(o.slots, o.next_fd, ino, OpenMode::ReadOnly);
            assert(self.fs().state().slots =~= cat_state(o, ino).slots);
            assert(self.fs().state().fs.inodes =~= cat_state(o, ino).fs.inodes);
        }
        Ok(bytes_to_text(got.as_slice()))
    }

    fn cmd_cd(&mut self, path: &str) -> (r: Result<String, VosError>)
        requires
            old(self).fs().wf(),
        ensures
            final(self).fs().wf(),
            final(self).lines() == old(self).lines(),
            final(self).exiting() == old(self).exiting(),
            ({
                let o = old(self).fs().state();
                match fs_resolve(o.fs, path@) {
                    None => fails_fs(r, "File not found: "@ + path@) && final(self).fs().state() == o,
                    Some(ino) => if !o.fs.inodes.contains_key(ino) {
                        fails_fs(r, "File not found: "@ + path@) && final(self).fs().state() == o
                    } else if o.fs.inodes[ino].inode_type != InodeType::Directory {
                        fails_fs(r, "Not a directory: "@ + path@) && final(self).fs().state() == o
                    } else {
                        r is Ok && r->Ok_0@ == Seq::<char>::empty() && final(self).fs().state() == (VfsModel { cwd: ino, ..o })
                    },
                }
            }),
    {
        match self.vfs.chdir(path) {
            Ok(()) => Ok(String::new()),
            Err(e) => Err(e),
        }
    }

    /// Runs `mkdir` (0), `touch` (1) or `rm` (2) on each path in turn, stopping at the first error.
    fn each_path(&mut self, op: u8, paths: &[Vec<char>]) -> (r: Result<String, VosError>)
        requires
            old(self).fs().wf(),
            old(self).fs().state().fs.next_inode + paths@.len() < u32::MAX,
        ensures
            final(self).fs().wf(),
            final(self).lines() == old(self).lines(),
            final(self).exiting() == old(self).exiting(),
            r is Ok ==> r->Ok_0@ == Seq::<char>::empty(),
            exists|states: Seq<VfsModel>| #[trigger] paths_run(op, texts(paths@), old(self).fs().state(),
                final(self).fs().state(), unit_of(r), states),
    {
        let ghost pv = texts(paths@);
        let ghost mut states: Seq<VfsModel> = seq![self.fs().state()];
        let mut i: usize = 0;
        while i < paths.len()
            invariant
                self.fs().wf(),
                self.lines() == old(self).lines(),
                self.exiting() == old(self).exiting(),
                i <= paths@.len(),
                pv == texts(paths@),
                self.fs().state().fs.next_inode <= old(self).fs().state().fs.next_inode + i,
                old(self).fs().state().fs.next_inode + paths@.len() < u32::MAX,
                states.len() == i + 1,
                states[0] == old(self).fs().state(),
                states.last() == self.fs().state(),
                steps_ok(op, pv.take(i as int), states),
            decreases paths@.len() - i,
        {
            let path = chars_to_string(&paths[i]);
            let ghost before = self.fs().state();
            let res = if op == 0 {
                let rr = self.vfs.mkdir(path.as_str());
                proof {
                    if fs_resolve(before.fs, split_path_spec(pv[i as int]).0) is Some {
                        let parent = fs_resolve(before.fs, split_path_spec(pv[i as int]).0)->0;
                        assert(dir_created(before.fs, self.fs().state().fs, parent, split_path_spec(pv[i as int]).1, rr));
                    }
                }
                match rr { Ok(_) => Ok(()), Err(e) => Err(e) }
            } else if op == 1 {
                let rr = self.vfs.create(path.as_str());
                proof {
                    if fs_resolve(before.fs, split_path_spec(pv[i as int]).0) is Some {
                        let parent = fs_resolve(before.fs, split_path_spec(pv[i as int]).0)->0;
                        assert(file_created(before.fs, self.fs().state().fs, parent, split_path_spec(pv[i as int]).1, rr));
                    }
                }
                match rr { Ok(_) => Ok(()), Err(e) => Err(e) }
            } else {
                self.vfs.unlink(path.as_str())
            };
            proof {
                assert(path_effect(op, pv[i as int], before, self.fs().state(), res));
            }
            match res {
                Ok(()) => {},
                Err(e) => {
                    proof {
                        assert(pv.take(i as int) =~= pv.take(states.len() - 1));
                        assert(paths_run(op, pv, old(self).fs().state(), self.fs().state(), Err::<(), VosError>(e), states));
                    }
                    return Err(e);
                },
            }
            proof {
                let s2 = states.push(self.fs().state());
                assert forall|j: int| #![trigger pv.take(i + 1)[j]] 0 <= j < i + 1
                    implies path_effect(op, pv.take(i + 1)[j], s2[j], s2[j + 1], Ok(())) by {
                    if j < i {
                        assert(pv.take(i + 1)[j] == pv.take(i as int)[j]);
                        assert(path_effect(op, pv.take(i as int)[j], states[j], states[j + 1], Ok(())));
                    }
                }
                states = s2;
            }
            i += 1;
        }
        proof {
            assert(pv.take(i as int) =~= pv);
            assert(paths_run(op, pv, old(self).fs().state(), self.fs().state(), Ok::<(), VosError>(()), states));
        }
        Ok(String::new())
    }

    /// What running built-in command `kind` (named `cmd`, with arguments `args`) returns and
    /// leaves behind, from the file system `o` the shell had before.
    pub open spec fn command_effect(
        kind: Command,
        cmd: Seq<char>,
        args: Seq<Seq<char>>,
        o: crate::kernel::fs::vfs::VfsModel,
        r: Result<String, VosError>,
        before: Shell,
        after: Shell,
    ) -> bool {
        let path = if args.len() > 0 { args[0] } else { "/"@ };
        &&& kind != Command::Exit ==> after.exiting() == before.exiting()
        &&& match kind {
            Command::Exit => r is Ok && r->Ok_0@ == "Goodbye!"@ && after.exiting() && after.fs() == before.fs(),
            Command::Pwd => r is Ok && r->Ok_0@ == "/ (inode "@ + dec(o.cwd as nat) + ")"@ && after.fs() == before.fs(),
            Command::Echo => r is Ok && r->Ok_0@ == join(args, " "@) && after.fs() == before.fs(),
            Command::Help => r is Ok && r->Ok_0@ == help_text() && after.fs() == before.fs(),
            Command::Ls => after.fs() == before.fs() && match fs_resolve(o.fs, path) {
                Some(ino) => if o.fs.dirs.contains_key(ino) {
                    r is Ok && r->Ok_0@ == ls_text(Seq::new(o.fs.dirs[ino].entries().len(), |i: int|
                        (o.fs.dirs[ino].entries()[i].name@, o.fs.dirs[ino].entries()[i].inode)))
                } else {
                    fails_with(r, "Not a directory"@)
                },
                None => fails_fs(r, "File not found: "@ + path),
            },
            Command::Cd => match fs_resolve(o.fs, path) {
                None => fails_fs(r, "File not found: "@ + path) && after.fs().state() == o,
                Some(ino) => if !o.fs.inodes.contains_key(ino) {
                    fails_fs(r, "File not found: "@ + path) && after.fs().state() == o
                } else if o.fs.inodes[ino].inode_type != InodeType::Directory {
                    fails_fs(r, "Not a directory: "@ + path) && after.fs().state() == o
                } else {
                    r is Ok && r->Ok_0@ == Seq::<char>::empty() && after.fs().state() == (VfsModel { cwd: ino, ..o })
                },
            },
            Command::Cat => if args.len() == 0 {
                r is Ok && r->Ok_0@ == "cat: missing file operand"@ && after.fs() == before.fs()
            } else {
                let n = after.fs().state();
                match fs_resolve(o.fs, path) {
                    None => fails_fs(r, "File not found: "@ + path) && n == o,
                    Some(ino) => if !o.fs.inodes.contains_key(ino) {
                        fails_fs(r, "File not found: "@ + path) && n == o
                    } else if o.fs.inodes[ino].inode_type == InodeType::Directory {
                        fails_fs(r, "Is a directory: "@ + path) && n == o
                    } else if !o.fs.files.contains_key(ino) {
                        fails_with(r, "File not found"@) && n == cat_state(o, ino)
                    } else {
                        r is Ok && r->Ok_0@ == utf8_lossy(read_bytes(o.fs.files[ino]@, 0, 4096)) && n == cat_state(o, ino)
                    },
                }
            },
            Command::Mkdir => if args.len() == 0 {
                r is Ok && r->Ok_0@ == "mkdir: missing operand"@
            } else {
                &&& r is Ok ==> r->Ok_0@ == Seq::<char>::empty()
                &&& exists|states: Seq<VfsModel>| #[trigger] paths_run(0u8, args, o, after.fs().state(), unit_of(r), states)
            },
            Command::Touch => if args.len() == 0 {
                r is Ok && r->Ok_0@ == "touch: missing file operand"@
            } else {
                &&& r is Ok ==> r->Ok_0@ == Seq::<char>::empty()
                &&& exists|states: Seq<VfsModel>| #[trigger] paths_run(1u8, args, o, after.fs().state(), unit_of(r), states)
            },
            Command::Rm => if args.len() == 0 {
                r is Ok && r->Ok_0@ == "rm: missing operand"@
            } else {
                &&& r is Ok ==> r->Ok_0@ == Seq::<char>::empty()
                &&& exists|states: Seq<VfsModel>| #[trigger] paths_run(2u8, args, o, after.fs().state(), unit_of(r), states)
            },
            Command::Unknown => r is Ok && r->Ok_0@ == "vos: command not found: "@ + cmd && after.fs() == before.fs(),
        }
    }

    /// Runs the built-in command `kind`, named `c`, on the arguments `args`.
    fn run(&mut self, kind: Command, c: &str, args: &[Vec<char>]) -> (r: Result<String, VosError>)
        requires
            kind == command_of(c@),
            old(self).fs().wf(),
            old(self).fs().state().fs.next_inode + args@.len() < u32::MAX,
            old(self).fs().state().next_fd < u32::MAX,
        ensures
            final(self).fs().wf(),
            final(self).lines() == old(self).lines(),
            Self::command_effect(kind, c@, texts(args@), old(self).fs().state(), r, *old(self), *final(self)),
    {
        let path: String = if args.len() > 0 { chars_to_string(&args[0]) } else { "/".to_owned() };
        proof {
            reveal_strlit("/");
        }
        match kind {
            Command::Exit => self.cmd_exit(),
            Command::Pwd => self.cmd_pwd(&[]),
            Command::Cd => self.cmd_cd(path.as_str()),
            Command::Ls => self.cmd_ls(path.as_str()),
            Command::Cat => if args.len() == 0 {
                Ok("cat: missing file operand".to_owned())
            } else {
                self.cmd_cat(path.as_str())
            },
            Command::Echo => {
                let sep = str_to_chars(" ");
                Ok(chars_to_string(&join_words(args, &sep)))
            },
            Command::Mkdir => if args.len() == 0 {
                Ok("mkdir: missing operand".to_owned())
            } else {
                self.each_path(0, args)
            },
            Command::Touch => if args.len() == 0 {
                Ok("touch: missing file operand".to_owned())
            } else {
                self.each_path(1, args)
            },
            Command::Rm => if args.len() == 0 {
                Ok("rm: missing operand".to_owned())
            } else {
                self.each_path(2, args)
            },
            Command::Help => Ok(HELP.to_owned()),
            Command::Unknown => {
                let mut v: Vec<char> = Vec::new();
                push_str(&mut v, "vos: command not found: ");
                push_str(&mut v, c);
                Ok(chars_to_string(&v))
            },
        }
    }

    /// Whether `execute` can take `line`: the inode and descriptor counters have room for the
    /// files the line could create and a file it could open.
    pub fn can_run(&self, line: &str) -> (b: bool)
        ensures
            b == (self.fs().state().fs.next_inode + line@.len() < u32::MAX && self.fs().state().next_fd < u32::MAX),
    {
        let n = str_to_chars(line).len() as u64;
        n < u32::MAX as u64 && (self.vfs.next_inode() as u64) < u32::MAX as u64 - n && self.vfs.next_fd() < u32::MAX
    }

    /// Runs one command line: blank lines do nothing; any other line is trimmed, recorded in
    /// the history, split into words and run as a built-in command.
    pub fn execute(&mut self, line: &str) -> (r: Result<String, VosError>)
        requires
            old(self).fs().wf(),
            old(self).fs().state().fs.next_inode + line@.len() < u32::MAX,
            old(self).fs().state().next_fd < u32::MAX,
        ensures
            final(self).fs().wf(),
            ({
                let t = trim(line@);
                let w = words(t);
                if t.len() == 0 {
                    r is Ok && r->Ok_0@ == Seq::<char>::empty() && *final(self) == *old(self)
                } else if w.len() == 0 {
                    r is Ok && r->Ok_0@ == Seq::<char>::empty() && final(self).fs() == old(self).fs()
                        && final(self).lines() == old(self).lines().push(t)
                        && final(self).exiting() == old(self).exiting()
                } else {
                    &&& final(self).lines() == old(self).lines().push(t)
                    &&& Self::command_effect(command_of(w[0]), w[0], w.drop_first(), old(self).fs().state(), r,
                        *old(self), *final(self))
                }
            }),
    {
        let chars = str_to_chars(line);
        let trimmed = trim_chars(&chars);
        if trimmed.len() == 0 {
            return Ok(String::new());
        }
        self.history.push(chars_to_string(&trimmed));
        proof {
            assert(self.lines() =~= old(self).lines().push(trim(line@)));
            crate::words::lemma_trim_len(line@);
            crate::words::lemma_words_len(trim(line@), 0, Seq::empty());
        }
        let parts = split_words(&trimmed);
        if parts.len() == 0 {
            return Ok(String::new());
        }
        let command = chars_to_string(&parts[0]);
        let args = parts.as_slice().split_at(1).1;
        let ghost wv = words(trim(line@));
        proof {
            assert(args@ =~= parts@.subrange(1, parts@.len() as int));
            assert(texts(args@) =~= wv.drop_first());
        }
        let c = command.as_str();
        let kind = parse_command(c);
        let ghost mid = *self;
        let r = self.run(kind, c, args);
        proof {
            assert(mid.fs() == old(self).fs());
            assert(mid.exiting() == old(self).exiting());
        }
        r
    }
}

/// The built-in commands of the shell.
#[derive(Clone, Copy, Debug, PartialEq, Eq, Structural)]
pub enum Command {
    Exit,
    Pwd,
    Cd,
    Ls,
    Cat,
    Echo,
    Mkdir,
    Touch,
    Rm,
    Help,
    Unknown,
}

/// The built-in command a command word names.
pub open spec fn command_of(w: Seq<char>) -> Command {
    if w == "exit"@ {
        Command::Exit
    } else if w == "pwd"@ {
        Command::Pwd
    } else if w == "cd"@ {
        Command::Cd
    } else if w == "ls"@ {
        Command::Ls
    } else if w == "cat"@ {
        Command::Cat
    } else if w == "echo"@ {
        Command::Echo
    } else if w == "mkdir"@ {
        Command::Mkdir
    } else if w == "touch"@ {
        Command::Touch
    } else if w == "rm"@ {
        Command::Rm
    } else if w == "help"@ {
        Command::Help
    } else {
        Command::Unknown
    }
}

/// Looks up the built-in command a command word names.
pub fn parse_command(c: &str) -> (k: Command)
    ensures
        k == command_of(c@),
{
    if crate::text::str_eq(c, "exit") {
        Command::Exit
    } else if crate::text::str_eq(c, "pwd") {
        Command::Pwd
    } else if crate::text::str_eq(c, "cd") {
        Command::Cd
    } else if crate::text::str_eq(c, "ls") {
        Command::Ls
    } else if crate::text::str_eq(c, "cat") {
        Command::Cat
    } else if crate::text::str_eq(c, "echo") {
        Command::Echo
    } else if crate::text::str_eq(c, "mkdir") {
        Command::Mkdir
    } else if crate::text::str_eq(c, "touch") {
        Command::Touch
    } else if crate::text::str_eq(c, "rm") {
        Command::Rm
    } else if crate::text::str_eq(c, "help") {
        Command::Help
    } else {
        Command::Unknown
    }
}

impl Default for Shell {
    /// A shell over a fresh file system.
    fn default() -> (s: Self)
        ensures
            s.fs().wf(),
            s.fs().state().cwd == 1,
            s.lines() == Seq::<Seq<char>>::empty(),
            !s.exiting(),
    {
        Self::new()
    }
}

} // verus!
