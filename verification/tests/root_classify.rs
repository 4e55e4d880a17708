use pg_browser::common::fs::{DirEntry, FileType};
use pg_browser::pgdata::{
    classify, known_items, KnownPGDataItem, PGDataItem, PGDataItemState,
};

const ALL_TAGS: [KnownPGDataItem; 25] = [
    KnownPGDataItem::PGVersion,
    KnownPGDataItem::Base,
    KnownPGDataItem::CurrentLogFiles,
    KnownPGDataItem::Global,
    KnownPGDataItem::PGCommitTS,
    KnownPGDataItem::PGDynshmem,
    KnownPGDataItem::PGLogical,
    KnownPGDataItem::PGMultixact,
    KnownPGDataItem::PGNotify,
    KnownPGDataItem::PGReplslot,
    KnownPGDataItem::PGSerial,
    KnownPGDataItem::PGSnapshots,
    KnownPGDataItem::PGStat,
    KnownPGDataItem::PGStatTmp,
    KnownPGDataItem::PGSubtrans,
    KnownPGDataItem::PGTblspc,
    KnownPGDataItem::PGTwophase,
    KnownPGDataItem::PGWal,
    KnownPGDataItem::PGXact,
    KnownPGDataItem::PostgresqlConf,
    KnownPGDataItem::PostgresqlAutoConf,
    KnownPGDataItem::PostmasterOpts,
    KnownPGDataItem::PostmasterPid,
    KnownPGDataItem::PGHbaConf,
    KnownPGDataItem::PGIdentConf,
];

fn item_tag(item: &PGDataItem) -> Option<KnownPGDataItem> {
    match item {
        PGDataItem::Known(_, tag, _) => Some(*tag),
        PGDataItem::Unknown(_) => None,
    }
}

fn item_entry(item: &PGDataItem) -> &DirEntry {
    match item {
        PGDataItem::Known(entry, _, _) => entry,
        PGDataItem::Unknown(entry) => entry,
    }
}

// The catalog lists every tag exactly once, each with its canonical entry.
#[test]
fn catalog_holds_each_tag_once() {
    let catalog = known_items();
    assert_eq!(catalog.len(), 25);
    for tag in ALL_TAGS {
        let hits: Vec<_> = catalog.iter().filter(|item| item.tag == tag).collect();
        assert_eq!(hits.len(), 1, "tag must appear exactly once");
    }
    for item in &catalog {
        assert!(!item.description.is_empty());
        let same_entry: Vec<_> = catalog
            .iter()
            .filter(|other| other.entry == item.entry)
            .collect();
        assert_eq!(same_entry.len(), 1, "canonical entries must be unique");
    }
}

// With an empty directory, every known member is reported, each missing.
#[test]
fn empty_directory_reports_all_members_missing() {
    let catalog = known_items();
    let actual: Vec<DirEntry> = vec![];
    let items = classify(&catalog, &actual);
    assert_eq!(items.len(), 25);
    for tag in ALL_TAGS {
        assert!(items.iter().any(|item| {
            item_tag(item) == Some(tag)
                && matches!(item, PGDataItem::Known(_, _, PGDataItemState::Missing))
        }));
    }
}

#[test]
fn classify_reconciles_catalog_and_listing() {
    let catalog = known_items();
    let actual = vec![
        DirEntry::dir("base"),
        DirEntry::file("PG_VERSION"),
        DirEntry::file("mystery.bin"),
    ];
    let items = classify(&catalog, &actual);
    // |result| = |catalog| + |actual \ catalog|
    assert_eq!(items.len(), 25 + 1);
    assert!(items.contains(&PGDataItem::Known(
        DirEntry::dir("base"),
        KnownPGDataItem::Base,
        PGDataItemState::Present
    )));
    assert!(items.contains(&PGDataItem::Known(
        DirEntry::file("PG_VERSION"),
        KnownPGDataItem::PGVersion,
        PGDataItemState::Present
    )));
    assert!(items.contains(&PGDataItem::Known(
        DirEntry::dir("pg_wal"),
        KnownPGDataItem::PGWal,
        PGDataItemState::Missing
    )));
    assert!(items.contains(&PGDataItem::Unknown(DirEntry::file("mystery.bin"))));
}

// A file named like a known directory does not satisfy it: both the missing
// member and the unexpected file are reported.
#[test]
fn entry_kind_must_match_the_canonical_kind() {
    let catalog = known_items();
    let actual = vec![DirEntry::file("base")];
    let items = classify(&catalog, &actual);
    assert_eq!(items.len(), 25 + 1);
    assert!(items.contains(&PGDataItem::Known(
        DirEntry::dir("base"),
        KnownPGDataItem::Base,
        PGDataItemState::Missing
    )));
    assert!(items.contains(&PGDataItem::Unknown(DirEntry::file("base"))));
}

// Permuting the listing changes nothing: the output is a deterministic,
// diff-stable sequence however the directory was read.
#[test]
fn classification_is_order_independent() {
    let catalog = known_items();
    let forward = vec![
        DirEntry::dir("base"),
        DirEntry::dir("pg_wal"),
        DirEntry::file("zz_extra"),
        DirEntry::file("aa_extra"),
    ];
    let backward: Vec<DirEntry> = forward.iter().rev().cloned().collect();
    let first = classify(&catalog, &forward);
    let second = classify(&catalog, &backward);
    let again = classify(&catalog, &forward);
    assert_eq!(first, second);
    assert_eq!(first, again);
}

// Known members come first, then unknown entries, each group ordered by
// name and kind.
#[test]
fn classification_output_is_sorted() {
    let catalog = known_items();
    let actual = vec![
        DirEntry::file("zz_extra"),
        DirEntry::dir("aa_extra"),
        DirEntry::dir("base"),
    ];
    let items = classify(&catalog, &actual);
    assert_eq!(items.len(), 25 + 2);
    assert_eq!(item_entry(&items[0]).name, "PG_VERSION");
    assert_eq!(item_entry(&items[1]).name, "base");
    assert_eq!(item_entry(&items[24]).name, "postmaster.pid");
    assert_eq!(item_entry(&items[25]).name, "aa_extra");
    assert_eq!(item_entry(&items[26]).name, "zz_extra");
    assert!(matches!(items[25], PGDataItem::Unknown(_)));
    let rank = |item: &PGDataItem| match item {
        PGDataItem::Known(_, _, _) => 0,
        PGDataItem::Unknown(_) => 1,
    };
    let kind_rank = |kind: FileType| match kind {
        FileType::Dir => 0,
        FileType::File => 1,
    };
    for window in items.windows(2) {
        let (a, b) = (item_entry(&window[0]), item_entry(&window[1]));
        assert!(
            (rank(&window[0]), &a.name, kind_rank(a.entry_type))
                < (rank(&window[1]), &b.name, kind_rank(b.entry_type))
        );
    }
}

#[test]
fn known_present_constructors() {
    let dir = PGDataItem::known_present_dir("base", KnownPGDataItem::Base);
    assert_eq!(
        dir,
        PGDataItem::Known(
            DirEntry::dir("base"),
            KnownPGDataItem::Base,
            PGDataItemState::Present
        )
    );
    let file = PGDataItem::known_present_file("PG_VERSION", KnownPGDataItem::PGVersion);
    assert_eq!(
        file,
        PGDataItem::Known(
            DirEntry::file("PG_VERSION"),
            KnownPGDataItem::PGVersion,
            PGDataItemState::Present
        )
    );
}

#[test]
fn classify_root_uses_the_builtin_catalog() {
    let actual = vec![DirEntry::dir("base"), DirEntry::file("mystery.bin")];
    let (catalog, items) = pg_browser::pgdata::classify_root(&actual);
    assert_eq!(catalog.len(), 25);
    assert_eq!(items.len(), 25 + 1);
    assert_eq!(items, classify(&catalog, &actual));
}
