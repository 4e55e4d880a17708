use pg_browser::common::PgOid;
use pg_browser::viewers::{find_viewer, TermSize, Viewer};

fn args(tokens: &[&str]) -> Vec<String> {
    tokens.iter().map(|token| token.to_string()).collect()
}

#[test]
fn traverses_args_and_returns_viewer() {
    let found = find_viewer(Viewer::Root, &args(&["base", "16384"])).expect("viewer is found");
    assert_eq!(found, Viewer::DbDir(PgOid(16384)));
}

#[test]
fn returns_error_when_viewer_does_not_support_parameter() {
    let result = find_viewer(Viewer::Root, &args(&["aaa"]));
    assert!(result.is_err());
    assert_eq!(result.err().unwrap().message(), "aaa is not supported");
}

// Resolving no tokens returns the starting view unchanged.
#[test]
fn empty_token_list_is_identity() {
    assert_eq!(find_viewer(Viewer::Root, &args(&[])).unwrap(), Viewer::Root);
    assert_eq!(find_viewer(Viewer::Base, &args(&[])).unwrap(), Viewer::Base);
    let leaf = Viewer::DbDir(PgOid(5));
    assert_eq!(find_viewer(leaf, &args(&[])).unwrap(), leaf);
}

#[test]
fn base_token_reaches_the_base_view() {
    assert_eq!(find_viewer(Viewer::Root, &args(&["base"])).unwrap(), Viewer::Base);
}

// An identifier overflowing the unsigned 32-bit range is a navigation
// error, never a panic.
#[test]
fn overflowing_oid_fails_with_navigation_error() {
    let result = find_viewer(Viewer::Root, &args(&["base", "99999999999"]));
    assert_eq!(result.err().unwrap().message(), "Expected database oid");
}

#[test]
fn malformed_oid_fails_with_navigation_error() {
    let result = find_viewer(Viewer::Root, &args(&["base", "not_an_oid"]));
    assert_eq!(result.err().unwrap().message(), "Expected database oid");
}

// Resolution is fail-fast: the first failing token decides, and no later
// token is consulted.
#[test]
fn first_error_wins() {
    let result = find_viewer(Viewer::Root, &args(&["base", "xyz", "base"]));
    assert_eq!(result.err().unwrap().message(), "Expected database oid");
    let result = find_viewer(Viewer::Root, &args(&["nowhere", "base"]));
    assert_eq!(result.err().unwrap().message(), "nowhere is not supported");
}

#[test]
fn database_view_is_a_leaf() {
    let result = find_viewer(Viewer::Root, &args(&["base", "5", "deeper"]));
    assert_eq!(result.err().unwrap().message(), "deeper is not supported");
}

#[test]
fn term_size_carries_plain_dimensions() {
    let size = TermSize { rows: 20, cols: 80 };
    assert_eq!(size.rows, 20);
    assert_eq!(size.cols, 80);
}
