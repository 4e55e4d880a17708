//! Plain models of what a directory listing yields: an entry name together
//! with a file-or-directory kind, and the raw form in which the kind lookup
//! may itself have failed.

use vstd::prelude::*;

use crate::common::Error;

verus! {

/// The kind of a directory entry. Only these two kinds take part in
/// classification; anything else is reported as a per-entry error by the
/// listing layer.
#[derive(Debug, PartialEq, Eq, Structural, Clone, Copy, Hash)]
pub enum FileType {
    Dir,
    File,
}

/// A directory entry: a name and its kind. Entries are compared by
/// `(name, kind)`; both must match for two entries to be the same.
#[derive(Debug)]
pub struct DirEntry {
    pub name: String,
    pub entry_type: FileType,
}

impl DirEntry {
    /// A file entry with the given name.
    pub fn file(name: &str) -> (r: DirEntry)
        ensures
            r.name@ == name@,
            r.entry_type == FileType::File,
    {
        DirEntry::entry(FileType::File, name)
    }

    /// A directory entry with the given name.
    pub fn dir(name: &str) -> (r: DirEntry)
        ensures
            r.name@ == name@,
            r.entry_type == FileType::Dir,
    {
        DirEntry::entry(FileType::Dir, name)
    }

    /// An entry of the given kind and name.
    pub fn entry(entry_type: FileType, name: &str) -> (r: DirEntry)
        ensures
            r.name@ == name@,
            r.entry_type == entry_type,
    {
        DirEntry { name: String::from_str(name), entry_type }
    }
}

impl Clone for DirEntry {
    fn clone(&self) -> (r: Self)
        ensures
            r.name@ == self.name@,
            r.entry_type == self.entry_type,
    {
        DirEntry { name: self.name.clone(), entry_type: self.entry_type }
    }
}

impl PartialEq for DirEntry {
    fn eq(&self, other: &Self) -> (r: bool) {
        self.name == other.name && self.entry_type == other.entry_type
    }
}

impl vstd::std_specs::cmp::PartialEqSpecImpl for DirEntry {
    open spec fn obeys_eq_spec() -> bool {
        true
    }

    open spec fn eq_spec(&self, other: &Self) -> bool {
        self.name@ == other.name@ && self.entry_type == other.entry_type
    }
}

/// Renders an entry kind as the one-letter marker used in listings.
pub fn render_file_type(file_type: &FileType) -> (r: String)
    ensures
        r@ == match file_type {
            FileType::Dir => "D"@,
            FileType::File => "F"@,
        },
{
    String::from_str(
        match file_type {
            FileType::Dir => "D",
            FileType::File => "F",
        },
    )
}

/// One raw entry of a directory listing, before classification: the entry's
/// name, and its kind as reported by the operating system — a lookup that can
/// fail for this entry alone (for example on a broken symbolic link).
#[derive(Debug)]
pub struct RawEntry {
    pub name: String,
    pub kind: Result<FileType, Error>,
}

} // verus!
