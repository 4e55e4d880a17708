use pg_browser::common::fs::{render_file_type, DirEntry, FileType};
use pg_browser::common::{str_eq, str_lt, Error, PgOid, ResultOption};

#[test]
fn parses_decimal_oids() {
    assert_eq!(PgOid::try_parse("0"), Some(PgOid(0)));
    assert_eq!(PgOid::try_parse("16384"), Some(PgOid(16384)));
    assert_eq!(PgOid::try_parse("4294967295"), Some(PgOid(4294967295)));
    assert_eq!(PgOid::try_parse("0016384"), Some(PgOid(16384)));
}

#[test]
fn rejects_non_numeric_or_out_of_range_oids() {
    assert_eq!(PgOid::try_parse(""), None);
    assert_eq!(PgOid::try_parse("abc"), None);
    assert_eq!(PgOid::try_parse("12a"), None);
    assert_eq!(PgOid::try_parse("+5"), None);
    assert_eq!(PgOid::try_parse("-5"), None);
    assert_eq!(PgOid::try_parse(" 5"), None);
    assert_eq!(PgOid::try_parse("4294967296"), None);
    assert_eq!(PgOid::try_parse("99999999999"), None);
}

#[test]
fn renders_file_types() {
    assert_eq!(render_file_type(&FileType::Dir), "D");
    assert_eq!(render_file_type(&FileType::File), "F");
}

#[test]
fn dir_entries_compare_by_name_and_kind() {
    assert_eq!(DirEntry::file("a"), DirEntry::file("a"));
    assert_ne!(DirEntry::file("a"), DirEntry::dir("a"));
    assert_ne!(DirEntry::file("a"), DirEntry::file("b"));
    assert_eq!(DirEntry::entry(FileType::Dir, "x"), DirEntry::dir("x"));
    let copy = DirEntry::dir("base").clone();
    assert_eq!(copy, DirEntry::dir("base"));
}

#[test]
fn stringify_returns_the_message() {
    let err = Error::new("something failed");
    assert_eq!(err.message(), "something failed");
    assert_eq!(pg_browser::common::stringify(err), "something failed");
}

#[test]
fn errors_compare_by_message() {
    assert_eq!(Error::new("a"), Error::new("a"));
    assert_ne!(Error::new("a"), Error::new("b"));
    assert_eq!(Error::new("a").clone(), Error::new("a"));
}

#[test]
fn text_comparison_helpers() {
    assert!(str_eq("abc", "abc"));
    assert!(!str_eq("abc", "abd"));
    assert!(!str_eq("abc", "abcd"));
    assert!(str_lt("abc", "abd"));
    assert!(str_lt("abc", "abcd"));
    assert!(!str_lt("abc", "abc"));
    assert!(str_lt("PG_VERSION", "base"));
}

#[test]
fn or_if_empty_test_cases() {
    let v1: Result<Option<i32>, Error> = Ok(Some(1));
    assert_eq!(v1.or_if_empty(|| Ok(Some(2))), Ok(Some(1)));
    let v1: Result<Option<i32>, Error> = Ok(None);
    assert_eq!(v1.or_if_empty(|| Ok(Some(2))), Ok(Some(2)));
    let v1: Result<Option<i32>, Error> = Ok(None);
    assert_eq!(v1.or_if_empty(|| Ok(None)), Ok(None));
    let v1: Result<Option<i32>, Error> = Ok(None);
    assert_eq!(v1.or_if_empty(|| Err(Error::new("error"))), Err(Error::new("error")));
    let v1: Result<Option<i32>, Error> = Err(Error::new("error"));
    assert_eq!(v1.or_if_empty(|| Ok(Some(2))), Err(Error::new("error")));
}

#[test]
fn otherwise_test_cases() {
    let v1: Result<Option<i32>, Error> = Ok(Some(1));
    assert_eq!(v1.otherwise(|| Ok(2)), Ok(1));
    let v1: Result<Option<i32>, Error> = Ok(None);
    assert_eq!(v1.otherwise(|| Ok(2)), Ok(2));
    let v1: Result<Option<i32>, Error> = Ok(None);
    assert_eq!(v1.otherwise(|| Err(Error::new("error"))), Err(Error::new("error")));
    let v1: Result<Option<i32>, Error> = Err(Error::new("error"));
    assert_eq!(v1.otherwise(|| Ok(2)), Err(Error::new("error")));
}
