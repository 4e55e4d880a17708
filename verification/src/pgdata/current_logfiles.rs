//! The `current_logfiles` member of the catalog of structurally-known PGDATA entries.

use vstd::prelude::*;

use crate::common::fs::{DirEntry, FileType};

verus! {

/// Marker for this catalog member.
#[allow(dead_code)]
pub trait CurrentLogFiles {}

/// The canonical directory entry of this member.
pub fn dir_entry() -> (r: DirEntry)
    ensures
        r.name@ == "current_logfiles"@,
        r.entry_type == FileType::File,
{
    DirEntry::file("current_logfiles")
}

} // verus!
