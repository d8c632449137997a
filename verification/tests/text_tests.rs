use health_monitor::text::{decimal_string, join};

#[test]
fn decimal_string_matches_to_string() {
    for n in [0u64, 1, 9, 10, 99, 100, 200, 404, 65535, 1234567890, u64::MAX] {
        assert_eq!(decimal_string(n), n.to_string());
    }
}

#[test]
fn decimal_string_zero() {
    assert_eq!(decimal_string(0), "0");
}

#[test]
fn join_empty_list() {
    let parts: Vec<String> = Vec::new();
    assert_eq!(join(&parts, ", "), "");
}

#[test]
fn join_single_item() {
    let parts = vec!["a".to_string()];
    assert_eq!(join(&parts, ", "), "a");
}

#[test]
fn join_matches_std_join() {
    let parts = vec!["a".to_string(), "bc".to_string(), "".to_string(), "d".to_string()];
    assert_eq!(join(&parts, "\n"), parts.join("\n"));
    assert_eq!(join(&parts, ", "), "a, bc, , d");
}
