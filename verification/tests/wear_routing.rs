use threshold::wear::{parse_watch_revision, route_watch_path, WatchRoute};

#[test]
fn routes_protocol_paths() {
    assert_eq!(route_watch_path("/threshold/sync_request"), WatchRoute::SyncRequest);
    assert_eq!(route_watch_path("/threshold/save_alarm"), WatchRoute::SaveAlarm);
    assert_eq!(route_watch_path("/threshold/delete_alarm"), WatchRoute::DeleteAlarm);
    assert_eq!(route_watch_path("/threshold/other"), WatchRoute::Unknown);
    assert_eq!(route_watch_path(""), WatchRoute::Unknown);
}

#[test]
fn parses_plain_revisions() {
    assert_eq!(parse_watch_revision("42"), 42);
    assert_eq!(parse_watch_revision("0"), 0);
    assert_eq!(parse_watch_revision("  17\n"), 17);
    assert_eq!(parse_watch_revision("-3"), -3);
    assert_eq!(parse_watch_revision("+9"), 9);
    assert_eq!(parse_watch_revision("007"), 7);
}

#[test]
fn malformed_revision_counts_as_zero() {
    assert_eq!(parse_watch_revision(""), 0);
    assert_eq!(parse_watch_revision("  "), 0);
    assert_eq!(parse_watch_revision("abc"), 0);
    assert_eq!(parse_watch_revision("1 2"), 0);
    assert_eq!(parse_watch_revision("12a"), 0);
    assert_eq!(parse_watch_revision("-"), 0);
}

#[test]
fn revision_bounds_match_the_machine_integer() {
    assert_eq!(parse_watch_revision("9223372036854775807"), i64::MAX);
    assert_eq!(parse_watch_revision("-9223372036854775808"), i64::MIN);
    assert_eq!(parse_watch_revision("9223372036854775808"), 0);
    assert_eq!(parse_watch_revision("-9223372036854775809"), 0);
    assert_eq!(parse_watch_revision("99999999999999999999999"), 0);
}

#[test]
fn revision_parse_agrees_with_the_standard_parser() {
    for s in ["42", " -7 ", "0010", "junk", "", "9223372036854775808", "+0"] {
        let expected = s.trim().parse::<i64>().unwrap_or(0);
        assert_eq!(parse_watch_revision(s), expected, "input {s:?}");
    }
}
