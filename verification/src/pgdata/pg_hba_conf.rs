//! The `pg_hba.conf` member of the catalog of structurally-known PGDATA entries.

use vstd::prelude::*;

use crate::common::fs::{DirEntry, FileType};

verus! {

/// Marker for this catalog member.
#[allow(dead_code)]
pub trait PgHbaConf {}

/// The canonical directory entry of this member.
pub fn dir_entry() -> (r: DirEntry)
    ensures
        r.name@ == "pg_hba.conf"@,
        r.entry_type == FileType::File,
{
    DirEntry::file("pg_hba.conf")
}

} // verus!
