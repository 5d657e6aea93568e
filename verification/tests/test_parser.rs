fn truncate_str(s: &str, max_width: usize) -> String {
    let char_count = s.chars().count();
    if char_count <= max_width {
        s.to_string()
    } else {
        let keep = max_width.saturating_sub(3);
        let prefix: String = s.chars().take(keep).collect();
        format!("{}...", prefix)
    }
}

#[test]
fn test_parser_test_truncate_str() {
    assert_eq!(truncate_str("short", 10), "short");
    assert_eq!(truncate_str("exactly ten", 11), "exactly ten");
    assert_eq!(truncate_str("this is longer than 10", 10), "this is...");
}
