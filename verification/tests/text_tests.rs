use qtest::text::has_suffix;
use qtest::text::str_eq;

#[test]
fn suffix_checks_compare_characters() {
    assert!(has_suffix("module_t::case: test", ": test"));
    assert!(has_suffix(": test", ": test"));
    assert!(!has_suffix("case:test", ": test"));
    assert!(!has_suffix("test", ": test"));
    assert!(has_suffix("anything", ""));
}

#[test]
fn slice_equality_compares_characters() {
    assert!(str_eq("--watch", "--watch"));
    assert!(!str_eq("--watch", "--watc"));
    assert!(!str_eq("--watc", "--watch"));
    assert!(!str_eq("--watch", "--hctaw"));
    assert!(str_eq("", ""));
}
