use cargo_recent::scan::{join, relevant, relevant_changes, select_latest, FileStat};
use cargo_recent::text::split_lines;
use cargo_recent::RecentError;

fn stat(path: &str, modified: Option<i128>) -> FileStat {
    FileStat { path: path.to_string(), modified }
}

#[test]
fn blank_diff_is_no_change() {
    assert!(relevant_changes("/r", "").is_none());
    assert!(relevant_changes("/r", "  \n\t\r\n").is_none());
}

#[test]
fn relevant_lines_become_absolute_paths() {
    let diff = "src/lib.rs\nREADME.md\nCargo.toml\nsub/Cargo.lock\r\nnotes.txt\n";
    let paths = relevant_changes("/r", diff).unwrap();
    assert_eq!(
        paths,
        vec![
            "/r/src/lib.rs".to_string(),
            "/r/Cargo.toml".to_string(),
            "/r/sub/Cargo.lock".to_string()
        ]
    );
}

#[test]
fn only_irrelevant_suffixes_fail_with_no_valid_change() {
    let paths = relevant_changes("/r", "README.md\ndocs/guide.txt\n").unwrap();
    assert!(paths.is_empty());
    let stats: Vec<FileStat> = Vec::new();
    assert_eq!(select_latest(&stats), Err(RecentError::NoValidChange));
}

#[test]
fn missing_files_fail_with_no_valid_change() {
    let stats = vec![stat("/r/a.rs", None), stat("/r/b.rs", None)];
    assert_eq!(select_latest(&stats), Err(RecentError::NoValidChange));
}

#[test]
fn newest_file_wins() {
    let stats = vec![
        stat("/r/a.rs", Some(100)),
        stat("/r/b.rs", Some(300)),
        stat("/r/c.rs", None),
        stat("/r/d.rs", Some(200)),
    ];
    assert_eq!(select_latest(&stats), Ok(1));
}

#[test]
fn tie_goes_to_smaller_path() {
    let stats = vec![
        stat("/r/b/lib.rs", Some(500)),
        stat("/r/a/lib.rs", Some(500)),
        stat("/r/c/lib.rs", Some(500)),
        stat("/r/z.rs", Some(499)),
    ];
    assert_eq!(select_latest(&stats), Ok(1));
}

#[test]
fn tie_compares_whole_path_text() {
    let stats = vec![stat("/r/a/x.rs", Some(7)), stat("/r/a-b.rs", Some(7))];
    assert_eq!(select_latest(&stats), Ok(1));
}

#[test]
fn times_before_the_epoch_still_count() {
    let stats = vec![stat("/r/old.rs", Some(-5))];
    assert_eq!(select_latest(&stats), Ok(0));
}

#[test]
fn relevance_by_suffix() {
    assert!(relevant("src/main.rs"));
    assert!(relevant("Cargo.toml"));
    assert!(relevant("a/Cargo.lock"));
    assert!(!relevant("README.md"));
    assert!(!relevant("rs"));
    assert!(!relevant(""));
}

#[test]
fn join_cases() {
    assert_eq!(join("/r", "a.rs"), "/r/a.rs");
    assert_eq!(join("/r/", "a.rs"), "/r/a.rs");
    assert_eq!(join("", "a.rs"), "a.rs");
    assert_eq!(join("/r", "/abs.rs"), "/abs.rs");
}

#[test]
fn line_splitting() {
    assert_eq!(split_lines("a\r\nb\n\nc"), vec!["a", "b", "", "c"]);
    assert_eq!(split_lines("x\r"), vec!["x\r"]);
    assert!(split_lines("").is_empty());
    assert_eq!(split_lines("\n"), vec![""]);
}
