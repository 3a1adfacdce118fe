use cargo_playground::ignore::IgnoreMatcher;
use cargo_playground::error::ErrorKind;

fn default_matcher() -> IgnoreMatcher {
    IgnoreMatcher::new(&Vec::new()).expect("default patterns compile")
}

#[test]
fn build_output_paths_are_ignored() {
    let m = default_matcher();
    assert!(m.matches("/proj/target/out"));
    assert!(m.matches("/proj/target/debug/deps/foo.d"));
}

#[test]
fn vcs_metadata_is_ignored() {
    let m = default_matcher();
    assert!(m.matches("/proj/.git/HEAD"));
    assert!(m.matches("/proj/sub/.hg/store/data"));
    assert!(m.matches("/proj/.svn/entries"));
}

#[test]
fn editor_swap_files_are_ignored() {
    let m = default_matcher();
    assert!(m.matches("/proj/src/.main.rs.swp"));
    assert!(m.matches("/proj/#scratch#"));
    assert!(m.matches("/proj/.#lockfile"));
    assert!(m.matches("/proj/.notes.kate-swp"));
    assert!(m.matches("/proj/.DS_Store"));
}

#[test]
fn database_journals_are_ignored() {
    let m = default_matcher();
    assert!(m.matches("/proj/data.db"));
    assert!(m.matches("/proj/data.db-wal"));
    assert!(m.matches("/proj/cache/things.db-journal/0"));
}

#[test]
fn source_files_are_not_ignored() {
    let m = default_matcher();
    assert!(!m.matches("/proj/src/a.rs"));
    assert!(!m.matches("/proj/src/main.rs"));
    assert!(!m.matches("/proj/Cargo.toml"));
    assert!(!m.matches("/proj/targets/a.rs"));
}

#[test]
fn user_patterns_extend_the_defaults() {
    let user = vec!["*.log".to_string()];
    let m = IgnoreMatcher::new(&user).expect("pattern compiles");
    assert!(m.matches("/proj/build.log"));
    assert!(m.matches("/proj/target/out"));
    assert!(!m.matches("/proj/src/a.rs"));
}

#[test]
fn backslash_separators_are_normalized() {
    let m = default_matcher();
    assert!(m.matches("C:\\proj\\target\\out"));
    assert!(m.matches("C:\\proj\\.git\\HEAD"));
}

#[test]
fn user_pattern_with_backslashes_is_normalized() {
    let user = vec!["*\\generated\\*".to_string()];
    let m = IgnoreMatcher::new(&user).expect("pattern compiles");
    assert!(m.matches("/proj/generated/code.rs"));
}

#[test]
fn unsupported_glob_syntax_is_rejected() {
    let user = vec!["src/[ab].rs".to_string()];
    let e = match IgnoreMatcher::new(&user) {
        Err(e) => e,
        Ok(_) => panic!("bracket syntax should be rejected"),
    };
    assert_eq!(e.get_kind(), ErrorKind::InvalidInput);
    assert!(e.get_help().is_some());
}

#[test]
fn double_star_user_pattern_suppresses_everything() {
    let user = vec!["**".to_string()];
    let m = IgnoreMatcher::new(&user).expect("pattern compiles");
    assert!(m.matches("/proj/src/a.rs"));
    assert!(m.matches(""));
}

#[test]
fn question_mark_matches_one_character() {
    let m = default_matcher();
    assert!(m.matches("/proj/src/.x.swp"));
    assert!(!m.matches("/proj/src/x.swamp"));
}
