use cargo_playground::helpers::{
    pick_step, scroll_layout, status_line, str_eq, trim_range, u64_to_dec, PickKey, PickMove,
};
use cargo_playground::watch::{compose_command, project_banner, Platform, WatchConfig};
use cargo_playground::controller::BusyPolicy;

#[test]
fn status_line_right_aligns_to_twelve_columns() {
    assert_eq!(status_line("Creating", "playground-1"), "    Creating playground-1");
    assert_eq!(status_line("NameLongerThan12", "x"), "NameLongerThan12 x");
}

#[test]
fn decimal_rendering_is_exact() {
    assert_eq!(u64_to_dec(0), "0");
    assert_eq!(u64_to_dec(7), "7");
    assert_eq!(u64_to_dec(10), "10");
    assert_eq!(u64_to_dec(90210), "90210");
    assert_eq!(u64_to_dec(u64::MAX), "18446744073709551615");
}

#[test]
fn trim_range_strips_surrounding_whitespace() {
    assert_eq!(trim_range("  hello  ", 0, 9), "hello");
    assert_eq!(trim_range("a b", 0, 3), "a b");
    assert_eq!(trim_range("   ", 0, 3), "");
    assert_eq!(trim_range("xx  y  xx", 2, 7), "y");
}

#[test]
fn str_eq_compares_by_characters() {
    assert!(str_eq("abc", "abc"));
    assert!(!str_eq("abc", "abd"));
    assert!(!str_eq("abc", "ab"));
    assert!(str_eq("", ""));
}

#[test]
fn picker_moves_stop_at_the_edges() {
    assert_eq!(pick_step(0, 3, PickKey::Up), PickMove::Stay);
    assert_eq!(pick_step(1, 3, PickKey::Up), PickMove::Moved(0));
    assert_eq!(pick_step(2, 3, PickKey::Down), PickMove::Stay);
    assert_eq!(pick_step(1, 3, PickKey::Down), PickMove::Moved(2));
    assert_eq!(pick_step(2, 3, PickKey::Home), PickMove::Moved(0));
    assert_eq!(pick_step(0, 3, PickKey::Home), PickMove::Stay);
    assert_eq!(pick_step(0, 3, PickKey::End), PickMove::Moved(2));
    assert_eq!(pick_step(2, 3, PickKey::End), PickMove::Stay);
    assert_eq!(pick_step(1, 3, PickKey::Accept), PickMove::Chosen(1));
    assert_eq!(pick_step(1, 3, PickKey::Cancel), PickMove::Cancelled);
    assert_eq!(pick_step(1, 3, PickKey::Other), PickMove::Stay);
}

#[test]
fn picker_layout_scrolls_when_the_list_does_not_fit() {
    // Plenty of room below the cursor: the list starts on the next row.
    assert_eq!(scroll_layout(5, 40, 10), (6, 0));
    // Cursor near the bottom: scroll so the list fits.
    assert_eq!(scroll_layout(35, 40, 10), (30, 6));
    // Exactly at the limit: no scroll needed.
    assert_eq!(scroll_layout(29, 40, 10), (30, 0));
}

#[test]
fn composed_command_echoes_the_exit_status() {
    let cmds = vec!["cargo run -q".to_string()];
    assert_eq!(
        compose_command(&cmds, Platform::Unix),
        "cargo run -q; echo [Finished running. Exit status: $?]"
    );
    assert_eq!(
        compose_command(&cmds, Platform::Windows),
        "cargo run -q & echo [Finished running. Exit status: %ERRORLEVEL%]"
    );
    assert_eq!(
        compose_command(&cmds, Platform::OtherOs),
        "cargo run -q ; echo [Finished running]"
    );
}

#[test]
fn composed_command_joins_with_and() {
    let cmds = vec!["cargo build".to_string(), "cargo run -q".to_string()];
    assert_eq!(
        compose_command(&cmds, Platform::Unix),
        "cargo build && cargo run -q; echo [Finished running. Exit status: $?]"
    );
}

#[test]
fn composing_no_commands_leaves_only_the_echo() {
    let cmds: Vec<String> = Vec::new();
    assert_eq!(
        compose_command(&cmds, Platform::Unix),
        "; echo [Finished running. Exit status: $?]"
    );
}

#[test]
fn trim_range_of_an_empty_slice_is_empty() {
    assert_eq!(trim_range("abc", 1, 1), "");
}

#[test]
fn project_banner_names_the_project() {
    assert_eq!(project_banner("playground-42"), "project: playground-42");
}

#[test]
fn standard_watch_config_has_the_documented_defaults() {
    let c = WatchConfig::standard();
    assert_eq!(c.roots, vec![".".to_string()]);
    assert!(c.user_ignores.is_empty());
    assert_eq!(c.debounce_ms, 500);
    assert_eq!(c.poll_ms, 500);
    assert!(c.run_initially);
    assert_eq!(c.policy, BusyPolicy::Restart);
    assert_eq!(c.cmd, vec!["cargo run -q".to_string()]);
    assert!(c.strip_env);
    assert_eq!(c.grace_ms, 2000);
}
