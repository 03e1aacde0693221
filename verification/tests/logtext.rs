use threshold::logtext::{normalise_export_destination, truncate_to_limit};

#[test]
fn truncate_to_limit_returns_full_string_when_under_limit() {
    let (value, truncated) = truncate_to_limit("threshold", 20);
    assert_eq!(value, "threshold");
    assert!(!truncated);
}

#[test]
fn truncate_to_limit_handles_empty_limit() {
    let (value, truncated) = truncate_to_limit("threshold", 0);
    assert_eq!(value, "");
    assert!(truncated);
}

#[test]
fn truncate_to_limit_respects_utf8_boundaries() {
    let original = "log\u{1F680}file";
    let (value, truncated) = truncate_to_limit(original, 5);
    assert_eq!(value, "log");
    assert!(truncated);
}

#[test]
fn truncate_to_limit_keeps_exact_fit() {
    let (value, truncated) = truncate_to_limit("abc", 3);
    assert_eq!(value, "abc");
    assert!(!truncated);
}

#[test]
fn export_destination_rules() {
    assert!(normalise_export_destination("content://downloads/7").is_err());
    assert_eq!(
        normalise_export_destination("file:///tmp/logs.txt").unwrap(),
        "/tmp/logs.txt".to_string()
    );
    assert_eq!(
        normalise_export_destination("/var/tmp/logs.txt").unwrap(),
        "/var/tmp/logs.txt".to_string()
    );
}
