use cargo_playground::error::ErrorKind;
use cargo_playground::new::{find_dep_dir, playground_name, rust_example_names, Dep};

#[test]
fn dep_name_alone_gets_wildcard_version() {
    let d = Dep::try_parse("serde").expect("plain name parses");
    assert_eq!(d.dep_name, "serde");
    assert_eq!(d.dep_ver, "*");
}

#[test]
fn dep_name_and_version_are_split_and_trimmed() {
    let d = Dep::try_parse(" serde = 1.0.0 ").expect("name=version parses");
    assert_eq!(d.dep_name, "serde");
    assert_eq!(d.dep_ver, "1.0.0");
}

#[test]
fn dep_with_two_equals_is_rejected() {
    let e = Dep::try_parse("serde=1=2").expect_err("two equals are malformed");
    assert_eq!(e.get_kind(), ErrorKind::InvalidInput);
    assert_eq!(
        e.get_message().as_str(),
        "dependency 'serde=1=2' is in an incorrect format"
    );
    assert_eq!(
        e.get_help().as_ref().expect("a help line").as_str(),
        "dependencies must either be '<dep-name>' or '<dep-name>=<dep-version>'"
    );
}

#[test]
fn dep_empty_version_trims_to_empty() {
    let d = Dep::try_parse("serde=").expect("trailing equals parses");
    assert_eq!(d.dep_name, "serde");
    assert_eq!(d.dep_ver, "");
}

#[test]
fn toml_line_quotes_the_version() {
    let d = Dep::try_parse("serde=1.0").expect("parses");
    assert_eq!(d.toml_line(), "serde = \"1.0\"");
}

#[test]
fn playground_name_appends_the_timestamp() {
    assert_eq!(playground_name(0), "playground-0");
    assert_eq!(playground_name(1_600_000_000), "playground-1600000000");
    assert_eq!(playground_name(42), "playground-42");
}

#[test]
fn lock_scan_finds_the_versioned_directory() {
    let lines: Vec<String> = [
        "[[package]]",
        "name = \"other\"",
        "version = \"0.1.0\"",
        "",
        "[[package]]",
        "name = \"rand\"",
        "version = \"0.8.5\"",
    ]
    .iter()
    .map(|s| s.to_string())
    .collect();
    let dir = find_dep_dir(&lines, "rand").expect("entry is found");
    assert_eq!(dir, "rand-0.8.5");
}

#[test]
fn lock_scan_takes_the_first_matching_entry() {
    let lines: Vec<String> = [
        "name = \"rand\"",
        "version = \"0.7.0\"",
        "name = \"rand\"",
        "version = \"0.8.5\"",
    ]
    .iter()
    .map(|s| s.to_string())
    .collect();
    assert_eq!(find_dep_dir(&lines, "rand").expect("found"), "rand-0.7.0");
}

#[test]
fn lock_scan_without_entry_finds_nothing() {
    let lines: Vec<String> = ["name = \"other\"", "version = \"0.1.0\""]
        .iter()
        .map(|s| s.to_string())
        .collect();
    assert!(find_dep_dir(&lines, "rand").is_none());
}

#[test]
fn lock_scan_rejects_a_name_line_without_version_line() {
    let lines: Vec<String> = ["name = \"rand\"", "author = \"someone\""]
        .iter()
        .map(|s| s.to_string())
        .collect();
    assert!(find_dep_dir(&lines, "rand").is_none());
    let only_name: Vec<String> = ["name = \"rand\""].iter().map(|s| s.to_string()).collect();
    assert!(find_dep_dir(&only_name, "rand").is_none());
}

#[test]
fn lock_scan_rejects_a_version_line_without_quotes() {
    let lines: Vec<String> = ["name = \"rand\"", "version = 0.8.5"]
        .iter()
        .map(|s| s.to_string())
        .collect();
    assert!(find_dep_dir(&lines, "rand").is_none());
}

#[test]
fn example_names_keep_only_rust_files() {
    let names: Vec<String> = ["simple.rs", "README.md", "full.rs", "data.json"]
        .iter()
        .map(|s| s.to_string())
        .collect();
    let rs = rust_example_names(&names);
    assert_eq!(rs, vec!["simple.rs".to_string(), "full.rs".to_string()]);
}
