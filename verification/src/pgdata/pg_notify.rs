//! The `pg_notify` member of the catalog of structurally-known PGDATA entries.

use vstd::prelude::*;

use crate::common::fs::{DirEntry, FileType};

verus! {

/// Marker for this catalog member.
#[allow(dead_code)]
pub trait PGNotify {}

/// The canonical directory entry of this member.
pub fn dir_entry() -> (r: DirEntry)
    ensures
        r.name@ == "pg_notify"@,
        r.entry_type == FileType::Dir,
{
    DirEntry::dir("pg_notify")
}

} // verus!
