//! The `pg_stat_tmp` member of the catalog of structurally-known PGDATA entries.

use vstd::prelude::*;

use crate::common::fs::{DirEntry, FileType};

verus! {

/// Marker for this catalog member.
#[allow(dead_code)]
pub trait PGStatTmp {}

/// The canonical directory entry of this member.
pub fn dir_entry() -> (r: DirEntry)
    ensures
        r.name@ == "pg_stat_tmp"@,
        r.entry_type == FileType::Dir,
{
    DirEntry::dir("pg_stat_tmp")
}

} // verus!
