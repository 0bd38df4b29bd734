use cargo_recent::manifest::{crate_name, declared_name, final_component_of};

const TEST_MANIFEST: &str = "[package]\nname = \"test-crate\"\nversion = \"0.1.0\"\nedition = \"2021\"\n\n";

#[test]
fn test_get_crate_name_from_cargo_toml() {
    let name = crate_name("/tmp/work", TEST_MANIFEST);
    assert_eq!(name, "test-crate");
}

#[test]
fn test_get_crate_name_fallback() {
    let name = crate_name("/tmp/work/fallback-crate", "");
    assert_eq!(name, "fallback-crate");
}

#[test]
fn name_missing_falls_back_to_directory() {
    let manifest = "[package]\nversion = \"0.1.0\"\n";
    assert_eq!(crate_name("/r/crates/widget", manifest), "widget");
}

#[test]
fn first_declared_name_wins() {
    let manifest = "[package]\nname = \"first\"\n\n[[bin]]\nname = \"second\"\n";
    assert_eq!(crate_name("/r/x", manifest), "first");
}

#[test]
fn name_with_surrounding_white_space() {
    let manifest = "[package]\n   name\t=   \"spaced\"  \n";
    assert_eq!(declared_name(manifest), Some("spaced".to_string()));
}

#[test]
fn name_not_at_line_start_is_ignored() {
    let manifest = "[package]\npackage.name = \"inner\"\n";
    assert_eq!(declared_name(manifest), None);
    assert_eq!(crate_name("/r/outer", manifest), "outer");
}

#[test]
fn empty_name_value_is_no_declaration() {
    assert_eq!(declared_name("name = \"\"\n"), None);
}

#[test]
fn name_round_trip_concrete() {
    let value = "my_lib-2";
    let manifest = format!("[package]\nname = \"{}\"\nedition = \"2021\"\n", value);
    assert_eq!(crate_name("/r/elsewhere", &manifest), value);
}

#[test]
fn final_component_cases() {
    assert_eq!(final_component_of("/tmp/a/fallback-crate"), "fallback-crate");
    assert_eq!(final_component_of("/tmp/a/b/"), "b");
    assert_eq!(final_component_of("/tmp/a/b/."), "b");
    assert_eq!(final_component_of("/tmp/a/.."), "");
    assert_eq!(final_component_of("/"), "");
    assert_eq!(final_component_of(""), "");
    assert_eq!(final_component_of("plain"), "plain");
    assert_eq!(final_component_of("."), "");
}

#[test]
fn name_round_trip_after_comment_mentioning_name() {
    let manifest = "# crate name below\n[package]\n\tname  =\t\"tidy\"\n";
    assert_eq!(crate_name("/r/other", manifest), "tidy");
}
