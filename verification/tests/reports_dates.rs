use claude_view_server::dates::{days_from_civil, parse_date_to_ts};

#[test]
fn reports_test_parse_date_to_ts() {
    // 2026-02-21 is a known date
    let ts = parse_date_to_ts("2026-02-21", false).unwrap();
    assert!(ts > 0);

    let ts_end = parse_date_to_ts("2026-02-21", true).unwrap();
    assert_eq!(ts_end - ts, 86399);
}

#[test]
fn reports_test_parse_date_to_ts_invalid() {
    assert!(parse_date_to_ts("not-a-date", false).is_err());
    assert!(parse_date_to_ts("2026-13-01", false).is_ok()); // month validation is lax (ok for our purposes)
}

#[test]
fn reports_test_days_from_civil() {
    // 1970-01-01 should be day 0
    assert_eq!(days_from_civil(1970, 1, 1), 0);
    // 1970-01-02 should be day 1
    assert_eq!(days_from_civil(1970, 1, 2), 1);
}

#[test]
fn tests_test_parse_date_to_ts() {
    // 2026-02-21 is a known date
    let ts = parse_date_to_ts("2026-02-21", false).unwrap();
    assert!(ts > 0);

    let ts_end = parse_date_to_ts("2026-02-21", true).unwrap();
    assert_eq!(ts_end - ts, 86399);
}

#[test]
fn tests_test_parse_date_to_ts_invalid() {
    assert!(parse_date_to_ts("not-a-date", false).is_err());
    assert!(parse_date_to_ts("2026-13-01", false).is_ok()); // month validation is lax (ok for our purposes)
}

#[test]
fn tests_test_days_from_civil() {
    // 1970-01-01 should be day 0
    assert_eq!(days_from_civil(1970, 1, 1), 0);
    // 1970-01-02 should be day 1
    assert_eq!(days_from_civil(1970, 1, 2), 1);
}
