use pg_browser::common::fs::{DirEntry, FileType, RawEntry};
use pg_browser::common::{Error, PgOid};
use pg_browser::pgdata::base::{
    classify_base, dir_entry, to_base_dir_item, BaseDirItem, DatabaseDir,
};

fn raw(name: &str, kind: FileType) -> RawEntry {
    RawEntry { name: name.to_owned(), kind: Ok(kind) }
}

// A directory literally named by a decimal identifier is a database
// directory, with the database name left unresolved.
#[test]
fn numeric_directory_is_a_database_dir() {
    let item = to_base_dir_item(&raw("16384", FileType::Dir));
    match item {
        BaseDirItem::DatabaseDir(dir) => {
            assert_eq!(dir.oid, PgOid(16384));
            assert_eq!(dir.db_name(), &None);
        }
        other => panic!("expected a database directory, got {:?}", other),
    }
}

#[test]
fn non_numeric_directory_is_unknown() {
    let item = to_base_dir_item(&raw("abc", FileType::Dir));
    assert_eq!(item, BaseDirItem::UnknownEntry(DirEntry::dir("abc")));
}

// The kind matters: a plain file named like an identifier is never a
// database directory.
#[test]
fn numeric_file_is_unknown() {
    let item = to_base_dir_item(&raw("16384", FileType::File));
    assert_eq!(item, BaseDirItem::UnknownEntry(DirEntry::file("16384")));
}

#[test]
fn failed_kind_lookup_is_an_error_item() {
    let entry = RawEntry { name: "16384".to_owned(), kind: Err(Error::new("broken symlink")) };
    let item = to_base_dir_item(&entry);
    assert!(matches!(item, BaseDirItem::Error(_)));
}

// One malformed entry never aborts the listing: each entry classifies
// independently, one item per raw entry.
#[test]
fn classification_isolates_per_entry_failures() {
    let entries = vec![
        raw("1", FileType::Dir),
        RawEntry { name: "bad".to_owned(), kind: Err(Error::new("unreadable")) },
        raw("4", FileType::Dir),
        raw("README", FileType::File),
    ];
    let items = classify_base(&entries);
    assert_eq!(items.len(), 4);
    assert!(matches!(&items[0], BaseDirItem::DatabaseDir(d) if d.oid == PgOid(1)));
    assert!(matches!(&items[1], BaseDirItem::Error(_)));
    assert!(matches!(&items[2], BaseDirItem::DatabaseDir(d) if d.oid == PgOid(4)));
    assert_eq!(items[3], BaseDirItem::UnknownEntry(DirEntry::file("README")));
}

#[test]
fn base_dir_item_names() {
    let dir = BaseDirItem::database_dir(4294967295, "database_name_2");
    assert_eq!(dir.name().unwrap(), "4294967295");
    let file = BaseDirItem::unknown_file("some_file");
    assert_eq!(file.name().unwrap(), "some_file");
    let unknown_dir = BaseDirItem::unknown_dir("some_dir");
    assert_eq!(unknown_dir.name().unwrap(), "some_dir");
    let error = BaseDirItem::Error(Error::new("unexpected error"));
    assert!(error.name().is_err());
}

#[test]
fn database_dir_display_parts() {
    let dir = DatabaseDir { oid: PgOid(2), db_name: Some("database_name_1".to_owned()) };
    assert_eq!(dir.dir_name(), "2");
    assert_eq!(dir.db_name().as_deref(), Some("database_name_1"));
    let unresolved = DatabaseDir { oid: PgOid(16384), db_name: None };
    assert_eq!(unresolved.dir_name(), "16384");
    assert_eq!(unresolved.db_name(), &None);
}

// Two error items compare equal whatever their messages, as classification
// results are compared structurally.
#[test]
fn error_items_compare_equal() {
    let a = BaseDirItem::Error(Error::new("one message"));
    let b = BaseDirItem::Error(Error::new("another message"));
    assert_eq!(a, b);
    assert_ne!(a, BaseDirItem::unknown_file("one message"));
}

#[test]
fn base_canonical_entry() {
    let entry = dir_entry();
    assert_eq!(entry, DirEntry::dir("base"));
}
