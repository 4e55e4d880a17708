use pg_browser::common::PgOid;
use pg_browser::pgdata::base::db_dir::{ForkSegmentFile, ForkType};

fn parsed(file_name: &str) -> ForkSegmentFile {
    ForkSegmentFile::try_parse(file_name).expect("fork segment file")
}

#[test]
fn parses_fork_segment_file() {
    let cases: [(&str, (u32, ForkType, u16)); 6] = [
        ("12345", (12345, ForkType::Main, 0)),
        ("12345.1", (12345, ForkType::Main, 1)),
        ("12345_fsm", (12345, ForkType::FreeSpaceMap, 0)),
        ("12345_fsm.2", (12345, ForkType::FreeSpaceMap, 2)),
        ("12345_vm", (12345, ForkType::VisibilityMap, 0)),
        ("12345_vm.3", (12345, ForkType::VisibilityMap, 3)),
    ];
    for (file_name, (oid, fork_type, segment_id)) in cases {
        let expected = ForkSegmentFile::create(PgOid(oid), fork_type, segment_id);
        assert_eq!(ForkSegmentFile::try_parse(file_name), Some(expected));
    }
}

#[test]
fn does_not_parse_as_fork_segment_file() {
    for file_name in [
        "pg_filenode.map",
        "PG_VERSION",
        "12340_qqq",
        "12341_qqq.1",
        "12342_fsm.q",
        "12343_vm.q",
    ] {
        assert_eq!(ForkSegmentFile::try_parse(file_name), None);
    }
}

#[test]
fn parses_fork_type() {
    assert_eq!(ForkType::try_parse(None), Some(ForkType::Main));
    assert_eq!(ForkType::try_parse(Some("fsm")), Some(ForkType::FreeSpaceMap));
    assert_eq!(ForkType::try_parse(Some("vm")), Some(ForkType::VisibilityMap));
    assert_eq!(ForkType::try_parse(Some("arb_string")), None);
}

// The grammar deliberately accepts an empty segment suffix as segment 0.
#[test]
fn accepts_empty_segment_suffix() {
    let expected = ForkSegmentFile::create(PgOid(12345), ForkType::Main, 0);
    assert_eq!(ForkSegmentFile::try_parse("12345."), Some(expected));
    let expected = ForkSegmentFile::create(PgOid(7), ForkType::VisibilityMap, 0);
    assert_eq!(ForkSegmentFile::try_parse("7_vm."), Some(expected));
}

#[test]
fn oid_bounds_in_file_names() {
    assert_eq!(
        ForkSegmentFile::try_parse("4294967295"),
        Some(ForkSegmentFile::create(PgOid(4294967295), ForkType::Main, 0))
    );
    // One past the unsigned 32-bit range, and an 11-digit run.
    assert_eq!(ForkSegmentFile::try_parse("4294967296"), None);
    assert_eq!(ForkSegmentFile::try_parse("00000000001"), None);
    // Leading zeros within ten digits are digits like any other.
    assert_eq!(
        ForkSegmentFile::try_parse("0000000001"),
        Some(ForkSegmentFile::create(PgOid(1), ForkType::Main, 0))
    );
    assert_eq!(ForkSegmentFile::try_parse(""), None);
    assert_eq!(ForkSegmentFile::try_parse("_fsm"), None);
}

#[test]
fn segment_bounds_in_file_names() {
    assert_eq!(
        ForkSegmentFile::try_parse("1.65535"),
        Some(ForkSegmentFile::create(PgOid(1), ForkType::Main, 65535))
    );
    assert_eq!(ForkSegmentFile::try_parse("1.65536"), None);
    assert_eq!(
        ForkSegmentFile::try_parse("1.000000000000007"),
        Some(ForkSegmentFile::create(PgOid(1), ForkType::Main, 7))
    );
}

#[test]
fn file_name_round_trip() {
    let cases: [(u32, ForkType, u16); 6] = [
        (12345, ForkType::Main, 0),
        (12345, ForkType::Main, 7),
        (1, ForkType::FreeSpaceMap, 0),
        (4294967295, ForkType::FreeSpaceMap, 65535),
        (0, ForkType::VisibilityMap, 0),
        (16384, ForkType::VisibilityMap, 2),
    ];
    for (oid, fork_type, segment_id) in cases {
        let file = ForkSegmentFile::create(PgOid(oid), fork_type, segment_id);
        let name = file.file_name();
        assert_eq!(ForkSegmentFile::try_parse(name.as_str()), Some(file));
    }
}

#[test]
fn file_name_is_canonical() {
    let file = ForkSegmentFile::create(PgOid(12345), ForkType::FreeSpaceMap, 0);
    assert_eq!(file.file_name(), "12345_fsm");
    let file = ForkSegmentFile::create(PgOid(9), ForkType::Main, 3);
    assert_eq!(file.file_name(), "9.3");
    let file = ForkSegmentFile::create(PgOid(7), ForkType::VisibilityMap, 21);
    assert_eq!(file.file_name(), "7_vm.21");
}

#[test]
fn fork_segment_accessors() {
    let file = ForkSegmentFile::create(PgOid(42), ForkType::FreeSpaceMap, 5);
    assert_eq!(file.oid(), PgOid(42));
    assert_eq!(file.fork_type(), ForkType::FreeSpaceMap);
    assert_eq!(file.segment_id(), 5);
}
