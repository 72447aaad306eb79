use qtest::filter::filter_test_options;
use qtest::filter::strip_test_marker;

fn strings(items: &[&str]) -> Vec<String> {
    items.iter().map(|s| s.to_string()).collect()
}

#[test]
fn test_filter_test_options() {
    let input = [
        "apple_function: test",
        "apple_function2: test",
        "apple_function3 test",
        "apple_function4: ",
        "apple_function5:test",
        "module_t::demo_module::apple_function: test",
        "module_t::demo_module::apple_function2: test",
        "module_t::demo_module::apple_function3 test",
        "module_t::demo_module::apple_function4: ",
        "module_t::demo_module::apple_functiont:test",
    ]
    .iter()
    .map(|s| s.to_string())
    .collect();
    let result = filter_test_options(input);
    assert_eq!(
        result,
        vec![
            "apple_function",
            "apple_function2",
            "module_t::demo_module::apple_function",
            "module_t::demo_module::apple_function2"
        ]
    );
}

#[test]
fn filters_example_lines() {
    let input = strings(&["foo: test", "foo bar", "x::y: test"]);
    assert_eq!(filter_test_options(input), vec!["foo", "x::y"]);
}

#[test]
fn filter_keeps_input_order_and_duplicates() {
    let input = strings(&["b: test", "a: test", "b: test"]);
    assert_eq!(filter_test_options(input), vec!["b", "a", "b"]);
}

#[test]
fn filter_of_empty_input_is_empty() {
    let input: Vec<String> = Vec::new();
    assert!(filter_test_options(input).is_empty());
}

#[test]
fn marker_alone_names_the_empty_identifier() {
    let input = strings(&[": test"]);
    assert_eq!(filter_test_options(input), vec![""]);
}

#[test]
fn strip_keeps_marked_remainder_verbatim() {
    assert_eq!(
        strip_test_marker("module_t::case: test"),
        Some("module_t::case".to_string())
    );
}

#[test]
fn strip_drops_lines_without_the_marker() {
    assert_eq!(strip_test_marker("module_t::case: bench"), None);
    assert_eq!(strip_test_marker("module_t::case:test"), None);
    assert_eq!(strip_test_marker("test"), None);
    assert_eq!(strip_test_marker(""), None);
}
