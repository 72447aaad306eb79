use qtest::command::build_test_command;
use qtest::command::cargo_bin;
use qtest::command::list_invocation_args;
use qtest::command::normalize_args;
use qtest::command::split_at_separator;

fn strings(items: &[&str]) -> Vec<String> {
    items.iter().map(|s| s.to_string()).collect()
}

#[test]
fn test_cargo_bin_when_cargo_env_variable_set() {
    let configured = Some("cargo_from_the_toolchain_path".to_string());
    assert_eq!(cargo_bin(configured), "cargo_from_the_toolchain_path");
}

#[test]
fn test_cargo_bin_with_no_cargo_env_variable() {
    assert_eq!(cargo_bin(None), "cargo");
}

#[test]
fn normalize_strips_toolchain_self_name_and_watch() {
    let args = strings(&["+nightly", "cargo-qtest", "--watch", "-p", "demo"]);
    let (rest, watch) = normalize_args(args);
    assert_eq!(rest, vec!["-p", "demo"]);
    assert!(watch);
}

#[test]
fn normalize_leaves_plain_arguments_alone() {
    let args = strings(&["-p", "demo", "--", "--nocapture"]);
    let (rest, watch) = normalize_args(args.clone());
    assert_eq!(rest, args);
    assert!(!watch);
}

#[test]
fn normalize_strips_each_prefix_only_at_the_front() {
    let args = strings(&["qtest", "+nightly"]);
    let (rest, watch) = normalize_args(args);
    assert_eq!(rest, vec!["+nightly"]);
    assert!(!watch);
}

#[test]
fn splits_around_the_first_separator() {
    let args = strings(&["-p", "demo", "--", "--nocapture", "--"]);
    let (first, second) = split_at_separator(&args);
    assert_eq!(first, vec!["-p", "demo"]);
    assert_eq!(second, vec!["--nocapture", "--"]);
}

#[test]
fn split_without_separator_keeps_everything_first() {
    let args = strings(&["-p", "demo"]);
    let (first, second) = split_at_separator(&args);
    assert_eq!(first, args);
    assert!(second.is_empty());
}

#[test]
fn listing_invocation_requests_a_terse_enumeration() {
    let first = strings(&["-p", "demo"]);
    let second = strings(&["--ignored"]);
    assert_eq!(
        list_invocation_args(&first, &second),
        vec!["test", "-p", "demo", "--", "--list", "--format", "terse", "--ignored"]
    );
}

#[test]
fn builds_the_exact_skip_command() {
    let cargo = "cargo".to_string();
    let first = strings(&["-p", "demo"]);
    let second = strings(&["--nocapture"]);
    let excluded = strings(&["a::one", "b::two"]);
    let cmd = build_test_command(&cargo, &first, &second, &excluded, false);
    assert_eq!(
        cmd,
        "cargo test  -p demo --  --nocapture --skip a::one --skip b::two --exact"
    );
}

#[test]
fn builds_the_bare_command_without_arguments() {
    let cargo = "cargo".to_string();
    let none: Vec<String> = Vec::new();
    let cmd = build_test_command(&cargo, &none, &none, &none, false);
    assert_eq!(cmd, "cargo test  --  --exact");
}

#[test]
fn watch_mode_wraps_the_whole_command() {
    let cargo = "cargo".to_string();
    let none: Vec<String> = Vec::new();
    let excluded = strings(&["slow::case"]);
    let cmd = build_test_command(&cargo, &none, &none, &excluded, true);
    assert_eq!(
        cmd,
        "cargo watch -- cargo test  --  --skip slow::case --exact"
    );
}
