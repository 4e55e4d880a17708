//! The `base` subdirectory: one directory per database, named by the
//! database's object identifier, classified entry by entry. A failure to
//! read one entry's kind never disturbs the classification of its siblings.

pub mod db_dir;

use vstd::prelude::*;

use crate::common::{spec_dec_digits, spec_parse_oid, Error, PgOid};
use crate::common::fs::{DirEntry, FileType, RawEntry};

verus! {

/// A per-database directory under `base`: the database's object identifier,
/// and the database's name where it has been resolved. The name cannot be
/// read from the directory itself, so classification leaves it unresolved.
#[derive(Debug)]
pub struct DatabaseDir {
    pub oid: PgOid,
    pub db_name: Option<String>,
}

impl DatabaseDir {
    /// The directory's name: the decimal rendering of its identifier.
    pub fn dir_name(&self) -> (r: String)
        ensures
            r@ == spec_dec_digits(self.oid.0 as nat),
    {
        crate::common::u32_to_decimal(self.oid.0)
    }

    /// The database's display name, where one has been resolved.
    pub fn db_name(&self) -> (r: &Option<String>)
        ensures
            r == &self.db_name,
    {
        &self.db_name
    }
}

impl Clone for DatabaseDir {
    fn clone(&self) -> (r: Self)
        ensures
            database_dir_eq(r, *self),
    {
        DatabaseDir {
            oid: self.oid,
            db_name: match &self.db_name {
                Some(name) => Some(name.clone()),
                None => None,
            },
        }
    }
}

/// When two database-directory descriptions carry the same information.
pub open spec fn database_dir_eq(a: DatabaseDir, b: DatabaseDir) -> bool {
    &&& a.oid == b.oid
    &&& match (a.db_name, b.db_name) {
        (Some(n1), Some(n2)) => n1@ == n2@,
        (None, None) => true,
        _ => false,
    }
}

impl PartialEq for DatabaseDir {
    fn eq(&self, other: &Self) -> (r: bool) {
        self.oid.0 == other.oid.0 && match (&self.db_name, &other.db_name) {
            (Some(n1), Some(n2)) => crate::common::str_eq(n1.as_str(), n2.as_str()),
            (None, None) => true,
            _ => false,
        }
    }
}

impl vstd::std_specs::cmp::PartialEqSpecImpl for DatabaseDir {
    open spec fn obeys_eq_spec() -> bool {
        true
    }

    open spec fn eq_spec(&self, other: &Self) -> bool {
        database_dir_eq(*self, *other)
    }
}

/// One classified entry of the `base` directory: a per-database directory,
/// an entry that is no such thing, or a per-entry failure captured as data.
#[derive(Debug)]
pub enum BaseDirItem {
    DatabaseDir(DatabaseDir),
    UnknownEntry(DirEntry),
    Error(Error),
}

/// When two base-directory items carry the same information. Two errors
/// count as the same item whatever their messages.
pub open spec fn base_dir_item_eq(a: BaseDirItem, b: BaseDirItem) -> bool {
    match (a, b) {
        (BaseDirItem::DatabaseDir(d1), BaseDirItem::DatabaseDir(d2)) => database_dir_eq(d1, d2),
        (BaseDirItem::UnknownEntry(e1), BaseDirItem::UnknownEntry(e2)) => e1.name@ == e2.name@
            && e1.entry_type == e2.entry_type,
        (BaseDirItem::Error(_), BaseDirItem::Error(_)) => true,
        _ => false,
    }
}

impl PartialEq for BaseDirItem {
    fn eq(&self, other: &Self) -> (r: bool) {
        match (self, other) {
            (BaseDirItem::DatabaseDir(dir1), BaseDirItem::DatabaseDir(dir2)) => dir1 == dir2,
            (BaseDirItem::UnknownEntry(entry1), BaseDirItem::UnknownEntry(entry2)) => entry1
                == entry2,
            (BaseDirItem::Error(_), BaseDirItem::Error(_)) => true,
            _ => false,
        }
    }
}

impl vstd::std_specs::cmp::PartialEqSpecImpl for BaseDirItem {
    open spec fn obeys_eq_spec() -> bool {
        true
    }

    open spec fn eq_spec(&self, other: &Self) -> bool {
        base_dir_item_eq(*self, *other)
    }
}

impl BaseDirItem {
    /// The name the item lists under: the decimal identifier of a database
    /// directory, or the entry's own name. An error item has no name.
    pub fn name(&self) -> (r: Result<String, Error>)
        ensures
            match self {
                BaseDirItem::DatabaseDir(d) => r matches Ok(s) && s@ == spec_dec_digits(
                    d.oid.0 as nat,
                ),
                BaseDirItem::UnknownEntry(e) => r matches Ok(s) && s@ == e.name@,
                BaseDirItem::Error(_) => r is Err,
            },
    {
        match self {
            BaseDirItem::DatabaseDir(dir) => Ok(dir.dir_name()),
            BaseDirItem::UnknownEntry(entry) => Ok(entry.name.clone()),
            BaseDirItem::Error(_) => Err(Error::new("Error")),
        }
    }

    /// A database directory item, with a resolved display name.
    pub fn database_dir(pg_oid: u32, db_name: &str) -> (r: BaseDirItem)
        ensures
            r matches BaseDirItem::DatabaseDir(d) && d.oid == PgOid(pg_oid) && (d.db_name
                matches Some(n) && n@ == db_name@),
    {
        BaseDirItem::DatabaseDir(
            DatabaseDir { oid: PgOid(pg_oid), db_name: Some(String::from_str(db_name)) },
        )
    }

    /// An unknown file entry.
    pub fn unknown_file(name: &str) -> (r: BaseDirItem)
        ensures
            r matches BaseDirItem::UnknownEntry(e) && e.name@ == name@ && e.entry_type
                == FileType::File,
    {
        BaseDirItem::UnknownEntry(DirEntry::file(name))
    }

    /// An unknown directory entry.
    pub fn unknown_dir(name: &str) -> (r: BaseDirItem)
        ensures
            r matches BaseDirItem::UnknownEntry(e) && e.name@ == name@ && e.entry_type
                == FileType::Dir,
    {
        BaseDirItem::UnknownEntry(DirEntry::dir(name))
    }
}

/// How one raw entry of the `base` directory classifies: a failed kind
/// lookup is an error item; a directory whose name is a decimal object
/// identifier is a database directory, with no resolved database name; any
/// other entry is unknown.
pub open spec fn base_dir_item_for(raw: RawEntry, r: BaseDirItem) -> bool {
    match raw.kind {
        Err(e) => r matches BaseDirItem::Error(err) && err@ == e@,
        Ok(kind) => {
            if kind == FileType::Dir && spec_parse_oid(raw.name@) is Some {
                r matches BaseDirItem::DatabaseDir(d) && Some(d.oid) == spec_parse_oid(raw.name@)
                    && d.db_name is None
            } else {
                r matches BaseDirItem::UnknownEntry(e) && e.name@ == raw.name@ && e.entry_type
                    == kind
            }
        },
    }
}

/// Classifies one raw entry of the `base` directory.
pub fn to_base_dir_item(raw: &RawEntry) -> (r: BaseDirItem)
    ensures
        base_dir_item_for(*raw, r),
{
    match &raw.kind {
        Err(e) => BaseDirItem::Error(e.clone()),
        Ok(kind) => {
            if *kind == FileType::Dir {
                match PgOid::try_parse(raw.name.as_str()) {
                    Some(oid) => BaseDirItem::DatabaseDir(DatabaseDir { oid, db_name: None }),
                    None => BaseDirItem::UnknownEntry(
                        DirEntry { name: raw.name.clone(), entry_type: *kind },
                    ),
                }
            } else {
                BaseDirItem::UnknownEntry(DirEntry { name: raw.name.clone(), entry_type: *kind })
            }
        },
    }
}

/// Classifies a listing of the `base` directory, entry by entry: exactly
/// one item per raw entry, each classified independently, so that one
/// failed entry never disturbs its siblings.
pub fn classify_base(entries: &Vec<RawEntry>) -> (r: Vec<BaseDirItem>)
    ensures
        r@.len() == entries@.len(),
        forall|i: int|
            0 <= i < entries@.len() ==> base_dir_item_for(#[trigger] entries@[i], #[trigger] r@[i]),
{
    let mut items: Vec<BaseDirItem> = Vec::new();
    let mut i: usize = 0;
    while i < entries.len()
        invariant
            0 <= i <= entries@.len(),
            items@.len() == i,
            forall|k: int|
                0 <= k < i ==> base_dir_item_for(#[trigger] entries@[k], #[trigger] items@[k]),
        decreases entries@.len() - i,
    {
        let item = to_base_dir_item(&entries[i]);
        items.push(item);
        i = i + 1;
    }
    items
}

/// The canonical directory entry of the `base` member of the catalog.
pub fn dir_entry() -> (r: DirEntry)
    ensures
        r.name@ == "base"@,
        r.entry_type == FileType::Dir,
{
    DirEntry::dir("base")
}

} // verus!
