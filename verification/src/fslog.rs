//! What the updater has observed of the file system: a snapshot of the
//! entries below some directories, taken before a decision is made.
use crate::text::str_eq;
use vstd::prelude::*;

verus! {

/// What kind of node a path names, without following a symlink.
#[derive(Clone, Copy, Debug, PartialEq, Eq, Structural)]
pub struct SimpleFSMeta {
    pub is_file: bool,
    pub is_directory: bool,
    pub is_symlink: bool,
}

/// One observed node.
#[derive(Clone, Debug)]
pub struct FsEntry {
    pub path: String,
    /// Whether the node itself is a symlink.
    pub is_symlink: bool,
    /// Whether the node, with symlinks followed, is a directory.
    pub is_dir: bool,
    /// Whether the node, with symlinks followed, is a regular file.
    pub is_file: bool,
    /// Size in bytes of the node itself.
    pub size: u64,
    /// Content hash of a regular file, where it could be read.
    pub hash: Option<u64>,
}

/// The observed nodes. A path that occurs in no entry names nothing; where
/// a path occurs twice the first entry counts.
#[derive(Clone, Debug)]
pub struct FsSnapshot {
    pub entries: Vec<FsEntry>,
}

/// The position at or after `from` of the first entry with path `path`.
pub open spec fn first_entry_from(entries: Seq<FsEntry>, path: Seq<char>, from: int) -> Option<int>
    decreases entries.len() - from,
{
    if from < 0 || from >= entries.len() {
        None
    } else if entries[from].path@ == path {
        Some(from)
    } else {
        first_entry_from(entries, path, from + 1)
    }
}

/// The position of the first entry with path `path`.
pub open spec fn first_entry(entries: Seq<FsEntry>, path: Seq<char>) -> Option<int> {
    first_entry_from(entries, path, 0)
}

/// What `first_entry_from` finds: an entry with that path before which
/// none has it, or nothing where no entry has it.
pub proof fn lemma_first_entry_from(entries: Seq<FsEntry>, path: Seq<char>, from: int)
    requires
        0 <= from,
    ensures
        match first_entry_from(entries, path, from) {
            Some(i) => from <= i < entries.len() && entries[i].path@ == path && forall|k: int|
                from <= k < i ==> (#[trigger] entries[k]).path@ != path,
            None => forall|k: int|
                from <= k < entries.len() ==> (#[trigger] entries[k]).path@ != path,
        },
    decreases entries.len() - from,
{
    if from < entries.len() && entries[from].path@ != path {
        lemma_first_entry_from(entries, path, from + 1);
    }
}

impl FsSnapshot {
    /// The entry that `path` names.
    pub open spec fn entry_spec(&self, path: Seq<char>) -> Option<FsEntry> {
        match first_entry(self.entries@, path) {
            Some(i) => Some(self.entries@[i]),
            None => None,
        }
    }

    /// Whether `path` names a file or directory, symlinks followed.
    pub open spec fn exists_spec(&self, path: Seq<char>) -> bool {
        match self.entry_spec(path) {
            Some(e) => e.is_dir || e.is_file,
            None => false,
        }
    }

    /// Whether `path` names a directory, symlinks followed.
    pub open spec fn is_dir_spec(&self, path: Seq<char>) -> bool {
        match self.entry_spec(path) {
            Some(e) => e.is_dir,
            None => false,
        }
    }

    /// Whether `path` names a regular file, symlinks followed.
    pub open spec fn is_file_spec(&self, path: Seq<char>) -> bool {
        match self.entry_spec(path) {
            Some(e) => e.is_file,
            None => false,
        }
    }

    /// The position of the entry that `path` names.
    pub fn lookup(&self, path: &str) -> (r: Option<usize>)
        ensures
            match r {
                Some(i) => first_entry(self.entries@, path@) == Some(i as int) && i
                    < self.entries@.len(),
                None => first_entry(self.entries@, path@) is None,
            },
    {
        let mut i: usize = 0;
        while i < self.entries.len()
            invariant
                0 <= i <= self.entries.len(),
                first_entry(self.entries@, path@) == first_entry_from(
                    self.entries@,
                    path@,
                    i as int,
                ),
            decreases self.entries.len() - i,
        {
            if str_eq(self.entries[i].path.as_str(), path) {
                return Some(i);
            }
            i += 1;
        }
        None
    }

    /// Whether `path` names a file or directory, symlinks followed.
    pub fn path_exists(&self, path: &str) -> (r: bool)
        ensures
            r == self.exists_spec(path@),
    {
        match self.lookup(path) {
            Some(i) => self.entries[i].is_dir || self.entries[i].is_file,
            None => false,
        }
    }

    /// Whether `path` names a directory, symlinks followed.
    pub fn is_dir(&self, path: &str) -> (r: bool)
        ensures
            r == self.is_dir_spec(path@),
    {
        match self.lookup(path) {
            Some(i) => self.entries[i].is_dir,
            None => false,
        }
    }

    /// Whether `path` names a regular file, symlinks followed.
    pub fn is_file(&self, path: &str) -> (r: bool)
        ensures
            r == self.is_file_spec(path@),
    {
        match self.lookup(path) {
            Some(i) => self.entries[i].is_file,
            None => false,
        }
    }
}

/// Whether `path` names a file or directory in `snapshot`.
pub fn exists_in(snapshot: &FsSnapshot, path: &str) -> (r: bool)
    ensures
        r == snapshot.exists_spec(path@),
{
    snapshot.path_exists(path)
}

/// What kind of node `file` names, without following a symlink: for a
/// symlink neither "file" nor "directory" is reported.
pub open spec fn simple_meta_spec(snapshot: FsSnapshot, file: Seq<char>) -> Option<SimpleFSMeta> {
    match snapshot.entry_spec(file) {
        Some(e) => Some(
            SimpleFSMeta {
                is_file: !e.is_symlink && e.is_file,
                is_directory: !e.is_symlink && e.is_dir,
                is_symlink: e.is_symlink,
            },
        ),
        None => None,
    }
}

/// What kind of node `file` names, without following a symlink.
pub fn get_simple_fs_meta_symlink(snapshot: &FsSnapshot, file: &str) -> (r: Option<SimpleFSMeta>)
    ensures
        r == simple_meta_spec(*snapshot, file@),
{
    match snapshot.lookup(file) {
        Some(i) => {
            let e = &snapshot.entries[i];
            Some(
                SimpleFSMeta {
                    is_file: !e.is_symlink && e.is_file,
                    is_directory: !e.is_symlink && e.is_dir,
                    is_symlink: e.is_symlink,
                },
            )
        },
        None => None,
    }
}

} // verus!
