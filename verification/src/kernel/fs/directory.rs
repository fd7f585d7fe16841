//! Directories: ordered lists of named entries.
use vstd::prelude::*;
use crate::kernel::fs::inode::InodeNumber;
use crate::text::str_eq;

verus! {

/// A named link to an inode.
#[derive(Debug, Clone)]
pub struct DirectoryEntry {
    /// Entry name
    pub name: String,
    /// Inode the entry refers to
    pub inode: InodeNumber,
}

impl DirectoryEntry {
    /// An entry from its name and inode.
    pub fn new(name: String, inode: InodeNumber) -> (e: Self)
        ensures
            e == (DirectoryEntry { name, inode }),
    {
        Self { name, inode }
    }
}

/// Position of the first entry named `name` at or after `from`.
pub open spec fn name_pos(entries: Seq<DirectoryEntry>, name: Seq<char>, from: nat) -> Option<nat>
    decreases entries.len() - from,
{
    if from >= entries.len() {
        None
    } else if entries[from as int].name@ == name {
        Some(from)
    } else {
        name_pos(entries, name, from + 1)
    }
}

/// A found position holds the name, and no earlier one does; not found means absent.
pub proof fn lemma_name_pos(entries: Seq<DirectoryEntry>, name: Seq<char>, from: nat)
    ensures
        name_pos(entries, name, from) matches Some(i) ==> from <= i < entries.len() && entries[i as int].name@ == name
            && forall|j: int| from <= j < i ==> entries[j].name@ != name,
        name_pos(entries, name, from) is None ==> forall|j: int| from <= j < entries.len() ==> entries[j].name@ != name,
    decreases entries.len() - from,
{
    if from < entries.len() {
        lemma_name_pos(entries, name, from + 1);
    }
}

/// Inode of the first entry with the name.
pub open spec fn dir_lookup(entries: Seq<DirectoryEntry>, name: Seq<char>) -> Option<InodeNumber> {
    match name_pos(entries, name, 0) {
        Some(i) => Some(entries[i as int].inode),
        None => None,
    }
}

/// Entries without the first one with the name.
pub open spec fn dir_remove(entries: Seq<DirectoryEntry>, name: Seq<char>) -> Seq<DirectoryEntry> {
    match name_pos(entries, name, 0) {
        Some(i) => entries.remove(i as int),
        None => entries,
    }
}

/// No two entries share a name.
pub open spec fn names_distinct(entries: Seq<DirectoryEntry>) -> bool {
    forall|i: int, j: int| #![trigger entries[i], entries[j]]
        0 <= i < j < entries.len() ==> entries[i].name@ != entries[j].name@
}

/// With distinct names, a lookup finds the entry with that name.
pub proof fn lemma_lookup_unique(entries: Seq<DirectoryEntry>, i: int)
    requires
        names_distinct(entries),
        0 <= i < entries.len(),
    ensures
        dir_lookup(entries, entries[i].name@) == Some(entries[i].inode),
{
    lemma_name_pos(entries, entries[i].name@, 0);
    match name_pos(entries, entries[i].name@, 0) {
        Some(k) => {
            if (k as int) != i {
                if (k as int) < i {
                    assert(entries[k as int].name@ != entries[i].name@);
                }
            }
        },
        None => {},
    }
}

/// Adding an entry to a directory whose names are distinct keeps them distinct; looking the
/// name up then gives the new inode, whether or not the name was there before, and every
/// other name looks up as before.
pub proof fn lemma_add_then_lookup(entries: Seq<DirectoryEntry>, e: DirectoryEntry, other: Seq<char>)
    requires
        names_distinct(entries),
    ensures
        names_distinct(dir_remove(entries, e.name@).push(e)),
        dir_lookup(dir_remove(entries, e.name@).push(e), e.name@) == Some(e.inode),
        other != e.name@ ==> dir_lookup(dir_remove(entries, e.name@).push(e), other) == dir_lookup(entries, other),
{
    let name = e.name@;
    lemma_name_pos(entries, name, 0);
    let r = dir_remove(entries, name);
    let s2 = r.push(e);
    // `r` keeps the order of the entries other than the one named `name`.
    let pos = name_pos(entries, name, 0);
    assert(forall|j: int| 0 <= j < r.len() ==> #[trigger] r[j].name@ != name) by {
        assert forall|j: int| 0 <= j < r.len() implies #[trigger] r[j].name@ != name by {
            match pos {
                Some(p) => {
                    let jj = if j < p { j } else { j + 1 };
                    assert(r[j] == entries[jj]);
                    if jj != p as int && entries[jj].name@ == name {
                        if jj < p as int {
                        } else {
                            assert(entries[p as int].name@ != entries[jj].name@);
                        }
                    }
                },
                None => {},
            }
        }
    }
    assert forall|a: int, b: int| #![trigger s2[a], s2[b]] 0 <= a < b < s2.len() implies s2[a].name@ != s2[b].name@ by {
        if b == r.len() {
            assert(r[a].name@ != name);
        } else {
            match pos {
                Some(p) => {
                    let aa = if a < p { a } else { a + 1 };
                    let bb = if b < p { b } else { b + 1 };
                    assert(s2[a] == entries[aa]);
                    assert(s2[b] == entries[bb]);
                    assert(entries[aa].name@ != entries[bb].name@);
                },
                None => {
                    assert(entries[a].name@ != entries[b].name@);
                },
            }
        }
    }
    assert(s2[r.len() as int] == e);
    lemma_lookup_unique(s2, r.len() as int);
    if other != name {
        lemma_name_pos(entries, other, 0);
        match name_pos(entries, other, 0) {
            Some(q) => {
                let qq: int = match pos {
                    Some(p) => if (q as int) < p { q as int } else { q - 1 },
                    None => q as int,
                };
                match pos {
                    Some(p) => { assert(q != p); },
                    None => {},
                }
                assert(s2[qq] == entries[q as int]);
                lemma_lookup_unique(s2, qq);
            },
            None => {
                assert forall|j: int| 0 <= j < s2.len() implies #[trigger] s2[j].name@ != other by {
                    if j < r.len() {
                        match pos {
                            Some(p) => {
                                let jj = if j < p { j } else { j + 1 };
                                assert(s2[j] == entries[jj]);
                            },
                            None => {
                                assert(s2[j] == entries[j]);
                            },
                        }
                    }
                }
                lemma_name_pos(s2, other, 0);
            },
        }
    }
}

/// Whether every entry is `.` or `..`.
pub open spec fn only_dots(entries: Seq<DirectoryEntry>) -> bool {
    forall|i: int| 0 <= i < entries.len() ==> entries[i].name@ == "."@ || entries[i].name@ == ".."@
}

/// A directory: its entries in the order they were added.
#[derive(Debug, Clone)]
pub struct Directory {
    /// Directory entries
    entries: Vec<DirectoryEntry>,
}

impl Directory {
    /// The entries.
    pub closed spec fn entries(&self) -> Seq<DirectoryEntry> {
        self.entries@
    }

    /// An empty directory.
    pub fn new() -> (d: Self)
        ensures
            d.entries() == Seq::<DirectoryEntry>::empty(),
    {
        Self { entries: Vec::new() }
    }

    /// A directory holding `.` (itself) and `..` (its parent).
    pub fn with_dots(self_inode: InodeNumber, parent_inode: InodeNumber) -> (d: Self)
        ensures
            d.entries().len() == 2,
            d.entries()[0].name@ == "."@ && d.entries()[0].inode == self_inode,
            d.entries()[1].name@ == ".."@ && d.entries()[1].inode == parent_inode,
    {
        proof {
            reveal_strlit(".");
            reveal_strlit("..");
        }
        let mut dir = Self::new();
        let dot = ".".to_owned();
        assert(dot@.len() == 1);
        dir.add_entry(dot, self_inode);
        assert(dir_remove(Seq::<DirectoryEntry>::empty(), "."@) == Seq::<DirectoryEntry>::empty());
        assert(dir.entries()[0].name@.len() == 1);
        assert(name_pos(dir.entries(), ".."@, 1) is None);
        dir.add_entry("..".to_owned(), parent_inode);
        dir
    }

    fn position(&self, name: &str) -> (r: Option<usize>)
        ensures
            r is Some <==> name_pos(self.entries@, name@, 0) is Some,
            r matches Some(i) ==> name_pos(self.entries@, name@, 0) == Some(i as nat),
            name_pos(self.entries@, name@, 0) matches Some(i) ==> i < self.entries@.len(),
    {
        proof {
            lemma_name_pos(self.entries@, name@, 0);
        }
        let mut i: usize = 0;
        while i < self.entries.len()
            invariant
                i <= self.entries@.len(),
                name_pos(self.entries@, name@, 0) == name_pos(self.entries@, name@, i as nat),
            decreases self.entries@.len() - i,
        {
            if str_eq(self.entries[i].name.as_str(), name) {
                return Some(i);
            }
            i += 1;
        }
        None
    }

    /// Adds an entry, replacing an existing one of the same name.
    pub fn add_entry(&mut self, name: String, inode: InodeNumber)
        ensures
            final(self).entries() == dir_remove(old(self).entries(), name@).push(DirectoryEntry { name, inode }),
    {
        self.remove_entry(name.as_str());
        self.entries.push(DirectoryEntry::new(name, inode));
    }

    /// Removes the first entry with the name; returns its inode.
    pub fn remove_entry(&mut self, name: &str) -> (r: Option<InodeNumber>)
        ensures
            r == dir_lookup(old(self).entries(), name@),
            final(self).entries() == dir_remove(old(self).entries(), name@),
    {
        match self.position(name) {
            Some(pos) => {
                let entry = self.entries.remove(pos);
                Some(entry.inode)
            },
            None => None,
        }
    }

    /// Inode of the entry with the name.
    pub fn lookup(&self, name: &str) -> (r: Option<InodeNumber>)
        ensures
            r == dir_lookup(self.entries(), name@),
    {
        match self.position(name) {
            Some(pos) => Some(self.entries[pos].inode),
            None => None,
        }
    }

    /// A copy of the entries.
    pub fn list(&self) -> (v: Vec<DirectoryEntry>)
        ensures
            v@ == self.entries(),
    {
        let mut v: Vec<DirectoryEntry> = Vec::new();
        let mut i: usize = 0;
        while i < self.entries.len()
            invariant
                i <= self.entries@.len(),
                v@ == self.entries@.subrange(0, i as int),
            decreases self.entries@.len() - i,
        {
            let e = &self.entries[i];
            v.push(DirectoryEntry { name: e.name.clone(), inode: e.inode });
            i += 1;
            assert(v@ =~= self.entries@.subrange(0, i as int));
        }
        assert(self.entries@.subrange(0, i as int) =~= self.entries@);
        v
    }

    /// Number of entries.
    pub fn entry_count(&self) -> (n: usize)
        ensures
            n == self.entries().len(),
    {
        self.entries.len()
    }

    /// Whether the directory holds nothing but `.` and `..`.
    pub fn is_empty(&self) -> (b: bool)
        ensures
            b == only_dots(self.entries()),
    {
        let mut i: usize = 0;
        while i < self.entries.len()
            invariant
                i <= self.entries@.len(),
                forall|j: int| 0 <= j < i ==> self.entries@[j].name@ == "."@ || self.entries@[j].name@ == ".."@,
            decreases self.entries@.len() - i,
        {
            let n = self.entries[i].name.as_str();
            if !(str_eq(n, ".") || str_eq(n, "..")) {
                return false;
            }
            i += 1;
        }
        true
    }

    /// Whether an entry has the name.
    pub fn contains(&self, name: &str) -> (b: bool)
        ensures
            b == (name_pos(self.entries(), name@, 0) is Some),
    {
        self.position(name).is_some()
    }
}

impl Default for Directory {
    /// An empty directory.
    fn default() -> (d: Self)
        ensures
            d.entries() == Seq::<DirectoryEntry>::empty(),
    {
        Self::new()
    }
}

} // verus!
