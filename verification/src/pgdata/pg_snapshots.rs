//! The `pg_snapshots` member of the catalog of structurally-known PGDATA entries.

use vstd::prelude::*;

use crate::common::fs::{DirEntry, FileType};

verus! {

/// Marker for this catalog member.
#[allow(dead_code)]
pub trait PGSnapshots {}

/// The canonical directory entry of this member.
pub fn dir_entry() -> (r: DirEntry)
    ensures
        r.name@ == "pg_snapshots"@,
        r.entry_type == FileType::Dir,
{
    DirEntry::dir("pg_snapshots")
}

} // verus!
