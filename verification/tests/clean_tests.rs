use cargo_playground::clean::{should_clean, validate_filter, CleanOpts};
use cargo_playground::error::ErrorKind;

#[test]
fn without_a_filter_everything_is_cleaned() {
    assert_eq!(should_clean(&None, "playground-1").expect("no filter"), true);
    assert!(validate_filter(&None).is_ok());
}

#[test]
fn filter_matches_case_insensitively() {
    let filter = Some("^play".to_string());
    assert_eq!(should_clean(&filter, "PLAYGROUND-1").expect("valid"), true);
    assert_eq!(should_clean(&filter, "scratch-1").expect("valid"), false);
}

#[test]
fn filter_matches_anywhere_in_the_name() {
    let filter = Some("ground".to_string());
    assert_eq!(should_clean(&filter, "playground-1").expect("valid"), true);
    assert_eq!(should_clean(&filter, "playpen-1").expect("valid"), false);
}

#[test]
fn invalid_filter_is_rejected_up_front() {
    let filter = Some("(unclosed".to_string());
    let e = validate_filter(&filter).expect_err("invalid expression");
    assert_eq!(e.get_kind(), ErrorKind::InvalidInput);
    let e = should_clean(&filter, "playground-1").expect_err("invalid expression");
    assert_eq!(e.get_kind(), ErrorKind::InvalidInput);
}

#[test]
fn clean_opts_carries_the_filter() {
    let opts = CleanOpts { matches: Some("^play".to_string()) };
    assert_eq!(opts.matches.as_deref(), Some("^play"));
}
