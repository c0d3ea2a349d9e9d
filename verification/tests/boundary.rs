use csv_preview::{bridge_outcome, greet, make_directory_listing};

#[test]
fn listing_reports_every_entry_and_no_directories() {
    let entries = vec![
        "/data/a.csv".to_string(),
        "/data/b.tsv".to_string(),
        "/data/sub".to_string(),
    ];
    let l = make_directory_listing(entries.clone());
    assert_eq!(l.files.len(), 3);
    assert_eq!(l.files, entries);
    assert_eq!(l.directories.len(), 0);
}

#[test]
fn empty_directory_lists_nothing() {
    let l = make_directory_listing(Vec::new());
    assert_eq!(l.files.len(), 0);
    assert_eq!(l.directories.len(), 0);
}

#[test]
fn zero_exit_returns_captured_stdout() {
    let r = bridge_outcome(true, "ok\n".to_string(), String::new());
    assert_eq!(r, Ok("ok\n".to_string()));
}

#[test]
fn nonzero_exit_returns_captured_stderr() {
    let r = bridge_outcome(false, String::new(), "boom: line 1".to_string());
    assert_eq!(r, Err("boom: line 1".to_string()));
}

#[test]
fn greeting_wraps_the_name() {
    assert_eq!(
        greet("World"),
        "Hello, World! You've been greeted from Rust!"
    );
}
