use cargo_recent::command::{announce, forwarded_args};
use cargo_recent::manifest::crate_name;
use cargo_recent::resolve::{
    ascend, pick_member, repo_root_index, working_dir_fallback, Ascent, DirProbe, ManifestProbe,
};
use cargo_recent::scan::{relevant_changes, select_latest, FileStat};
use cargo_recent::RecentError;

const TEST_MANIFEST: &str = "[package]\nname = \"test-crate\"\nversion = \"0.1.0\"\nedition = \"2021\"\n\n";

fn probe(dir: &str, manifest: ManifestProbe, vcs: bool) -> DirProbe {
    DirProbe { dir: dir.to_string(), manifest, has_vcs_marker: vcs }
}

fn text(t: &str) -> ManifestProbe {
    ManifestProbe::Text(t.to_string())
}

#[test]
fn test_find_crate_directory() {
    let probes = vec![
        probe("/tmp/t1/test-crate/src", ManifestProbe::Absent, false),
        probe("/tmp/t1/test-crate", text(TEST_MANIFEST), false),
        probe("/tmp/t1", ManifestProbe::Absent, false),
        probe("/tmp", ManifestProbe::Absent, false),
    ];
    let found = ascend(&probes).unwrap();
    assert_eq!(found, Ascent::Project(1));
    assert_eq!(probes[1].dir, "/tmp/t1/test-crate");
}

#[test]
fn aggregator_is_remembered_topmost() {
    let probes = vec![
        probe("/r/a/b", ManifestProbe::Absent, false),
        probe("/r/a", text("[workspace]\nmembers = [\"b\"]\n"), false),
        probe("/r", text("[workspace]\n"), true),
    ];
    assert_eq!(ascend(&probes), Ok(Ascent::Aggregator(2)));
}

#[test]
fn repository_root_without_manifest_finds_no_project() {
    let probes = vec![
        probe("/r/src", ManifestProbe::Absent, false),
        probe("/r", ManifestProbe::Absent, true),
        probe("/home", text(TEST_MANIFEST), false),
    ];
    assert_eq!(ascend(&probes), Err(RecentError::NoProjectFound));
}

#[test]
fn ascent_stops_at_repository_root() {
    let probes = vec![
        probe("/r/src", ManifestProbe::Absent, true),
        probe("/r", text("[workspace]\n"), false),
    ];
    assert_eq!(ascend(&probes), Err(RecentError::NoProjectFound));
}

#[test]
fn manifest_above_repository_root_is_not_reached() {
    let probes = vec![
        probe("/home/u/r/src", ManifestProbe::Absent, false),
        probe("/home/u/r", text("[workspace]\n"), true),
        probe("/home/u", text(TEST_MANIFEST), false),
    ];
    assert_eq!(ascend(&probes), Ok(Ascent::Aggregator(1)));
    let unreadable_above = vec![
        probe("/home/u/r", text(TEST_MANIFEST), true),
        probe("/home/u", ManifestProbe::Unreadable, false),
    ];
    assert_eq!(ascend(&unreadable_above), Ok(Ascent::Project(0)));
    let aggregator_above = vec![
        probe("/home/u/r", text("[workspace]\n"), true),
        probe("/home", text("[workspace]\n"), false),
    ];
    assert_eq!(ascend(&aggregator_above), Ok(Ascent::Aggregator(0)));
}

#[test]
fn plain_manifest_above_aggregator_only_passes() {
    let probes = vec![
        probe("/r/w/src", ManifestProbe::Absent, false),
        probe("/r/w", text("[workspace]\n"), false),
        probe("/r", text(TEST_MANIFEST), true),
    ];
    assert_eq!(ascend(&probes), Ok(Ascent::Aggregator(1)));
}

#[test]
fn project_at_repository_root() {
    let probes = vec![
        probe("/r/src", ManifestProbe::Absent, false),
        probe("/r", text(TEST_MANIFEST), true),
    ];
    assert_eq!(ascend(&probes), Ok(Ascent::Project(1)));
}

#[test]
fn nothing_found() {
    let probes = vec![probe("/x/y", ManifestProbe::Absent, false)];
    assert_eq!(ascend(&probes), Ok(Ascent::NotFound));
    assert_eq!(ascend(&Vec::new()), Ok(Ascent::NotFound));
}

#[test]
fn unreadable_manifest_fails() {
    let probes = vec![
        probe("/r/a", ManifestProbe::Unreadable, false),
        probe("/r", text(TEST_MANIFEST), true),
    ];
    assert_eq!(ascend(&probes), Err(RecentError::ManifestUnreadable));
}

#[test]
fn unreadable_manifest_beyond_project_is_not_reached() {
    let probes = vec![
        probe("/r/a", text(TEST_MANIFEST), false),
        probe("/r", ManifestProbe::Unreadable, true),
    ];
    assert_eq!(ascend(&probes), Ok(Ascent::Project(0)));
}

#[test]
fn nested_member_two_levels_down_is_chosen() {
    let candidates = vec![
        "/w".to_string(),
        "/w/group".to_string(),
        "/w/group/inner".to_string(),
        "/w/other".to_string(),
    ];
    let dir = pick_member("/w/group/inner/src/lib.rs", "/w", &candidates);
    assert_eq!(dir, "/w/group/inner");
}

#[test]
fn no_owning_member_falls_back_to_root() {
    let candidates = vec!["/w".to_string(), "/w/other".to_string(), "/w/src2".to_string()];
    assert_eq!(pick_member("/w/src/main.rs", "/w", &candidates), "/w");
    assert_eq!(pick_member("/w/src/main.rs", "/w", &Vec::new()), "/w");
}

#[test]
fn prefix_must_end_at_a_separator() {
    let candidates = vec!["/w/app".to_string()];
    assert_eq!(pick_member("/w/application/src/main.rs", "/w", &candidates), "/w");
}

#[test]
fn working_directory_fallback() {
    assert_eq!(working_dir_fallback("/cwd".to_string(), true), Ok("/cwd".to_string()));
    assert_eq!(working_dir_fallback("/cwd".to_string(), false), Err(RecentError::NoProjectFound));
}

#[test]
fn repository_root_is_nearest_marked() {
    assert_eq!(repo_root_index(&vec![false, true, true]), Some(1));
    assert_eq!(repo_root_index(&vec![false, false]), None);
}

#[test]
fn forwarded_command() {
    let args = vec!["test".to_string(), "--release".to_string()];
    assert_eq!(
        forwarded_args(&args, "demo"),
        vec!["test", "--release", "--package", "demo"]
    );
    assert_eq!(announce(&args, "demo"), "run: cargo test --release --package demo");
    assert_eq!(announce(&Vec::new(), "demo"), "run: cargo --package demo");
}

#[test]
fn end_to_end_workspace_scenario() {
    let diff = "a/src/lib.rs\nREADME.md\n";
    let paths = relevant_changes("/r", diff).unwrap();
    assert_eq!(paths, vec!["/r/a/src/lib.rs".to_string()]);
    // README.md, though newer, never reaches the selection.
    let stats = vec![FileStat { path: paths[0].clone(), modified: Some(100) }];
    let latest = select_latest(&stats).unwrap();
    let file = &stats[latest].path;
    assert_eq!(file, "/r/a/src/lib.rs");
    let probes = vec![
        probe("/r/a/src", ManifestProbe::Absent, false),
        probe("/r/a", text("[package]\nname = \"a\"\n"), false),
        probe("/r", text("[workspace]\nmembers = [\"a\"]\n"), true),
    ];
    let dir = match ascend(&probes).unwrap() {
        Ascent::Project(i) => probes[i].dir.clone(),
        other => panic!("unexpected ascent {:?}", other),
    };
    assert_eq!(dir, "/r/a");
    assert_eq!(crate_name(&dir, "[package]\nname = \"a\"\n"), "a");
}

#[test]
fn end_to_end_member_search_scenario() {
    let probes = vec![
        probe("/r/a/src", ManifestProbe::Absent, false),
        probe("/r/a", ManifestProbe::Absent, false),
        probe("/r", text("[workspace]\n"), true),
    ];
    let root = match ascend(&probes).unwrap() {
        Ascent::Aggregator(i) => probes[i].dir.clone(),
        other => panic!("unexpected ascent {:?}", other),
    };
    assert_eq!(root, "/r");
    let dir = pick_member("/r/a/src/lib.rs", &root, &vec!["/r".to_string(), "/r/b".to_string()]);
    assert_eq!(dir, "/r");
}

#[test]
fn members_beyond_search_depth_are_not_seen() {
    let candidates = vec!["/w/a/b".to_string(), "/w/a/b/c".to_string()];
    assert_eq!(pick_member("/w/a/b/c/src/lib.rs", "/w", &candidates), "/w/a/b");
    let deep_only = vec!["/w/a/b/c".to_string()];
    assert_eq!(pick_member("/w/a/b/c/src/lib.rs", "/w", &deep_only), "/w");
}

#[test]
fn candidates_outside_root_are_ignored() {
    let candidates = vec!["/elsewhere".to_string()];
    assert_eq!(pick_member("/elsewhere/src/lib.rs", "/w", &candidates), "/w");
}
