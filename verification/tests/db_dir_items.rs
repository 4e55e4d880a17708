use pg_browser::common::fs::{DirEntry, FileType, RawEntry};
use pg_browser::common::{Error, PgOid};
use pg_browser::pgdata::base::db_dir::{classify_db_dir, DbDirItem, ForkSegmentFile, ForkType};

#[test]
fn parses_file_node_map_file() {
    assert_eq!(
        DbDirItem::file_node_map_file("pg_filenode.map"),
        Some(DbDirItem::FileNodeMapFile)
    );
    assert_eq!(DbDirItem::file_node_map_file("some_other_file"), None);
}

#[test]
fn parses_pg_version_file() {
    assert_eq!(DbDirItem::pg_version_file("PG_VERSION"), Some(DbDirItem::PgVersionFile));
    assert_eq!(DbDirItem::pg_version_file("some_other_file"), None);
}

fn raw_file(name: &str) -> RawEntry {
    RawEntry { name: name.to_owned(), kind: Ok(FileType::File) }
}

#[test]
fn classifies_db_dir_entries() {
    let entries = vec![
        raw_file("16385"),
        raw_file("16385_fsm"),
        raw_file("16385_vm.2"),
        raw_file("pg_filenode.map"),
        raw_file("PG_VERSION"),
        raw_file("notes.txt"),
        RawEntry { name: "broken".to_owned(), kind: Err(Error::new("kind unavailable")) },
    ];
    let items = classify_db_dir(&entries);
    assert_eq!(items.len(), entries.len());
    assert_eq!(
        items[0],
        DbDirItem::ForkSegmentFile(ForkSegmentFile::create(PgOid(16385), ForkType::Main, 0))
    );
    assert_eq!(
        items[1],
        DbDirItem::ForkSegmentFile(ForkSegmentFile::create(
            PgOid(16385),
            ForkType::FreeSpaceMap,
            0
        ))
    );
    assert_eq!(
        items[2],
        DbDirItem::ForkSegmentFile(ForkSegmentFile::create(
            PgOid(16385),
            ForkType::VisibilityMap,
            2
        ))
    );
    assert_eq!(items[3], DbDirItem::FileNodeMapFile);
    assert_eq!(items[4], DbDirItem::PgVersionFile);
    assert_eq!(
        items[5],
        DbDirItem::UnknownEntry(DirEntry::file("notes.txt"))
    );
    // The failed entry is captured as data; its siblings are untouched.
    assert_eq!(items[6], DbDirItem::Error(Error::new("kind unavailable")));
}

// The fixed names are matched before the kind is consulted, so a failed
// kind lookup does not disturb a recognised name.
#[test]
fn recognised_names_do_not_need_a_kind() {
    let entries = vec![RawEntry {
        name: "pg_filenode.map".to_owned(),
        kind: Err(Error::new("kind unavailable")),
    }];
    let items = classify_db_dir(&entries);
    assert_eq!(items, vec![DbDirItem::FileNodeMapFile]);
}
