use claude_view_server::archive::{archive_refused, unarchived_location};
use claude_view_server::cost::{
    cost_basis, no_pricing_explanation, signed_decimal_string, SessionCostFacts, CACHE_TTL_SECS,
};
use claude_view_server::error::{session_missing, ApiError};
use claude_view_server::sessions::subagent_missing;
use claude_view_server::storage::{directory_total, is_jsonl_file};

fn facts() -> SessionCostFacts {
    SessionCostFacts {
        primary_model: Some("opus-4".to_string()),
        total_input_tokens: Some(120_000),
        modified_at: 1_000_000,
        display_name: "my-app".to_string(),
        longest_task_preview: Some("Fix the login flow".to_string()),
        turn_count_api: Some(42),
        files_edited_count: 7,
    }
}

#[test]
fn cost_basis_prefers_requested_model_and_reports_warm_cache() {
    let b = cost_basis(1_000_100, Some("haiku-3".to_string()), "fallback-model", &facts());
    assert_eq!(b.model, "haiku-3");
    assert_eq!(b.history_tokens, 120_000);
    assert!(b.cache_warm);
    assert_eq!(b.secs_ago, 100);
    assert_eq!(b.session_title.as_deref(), Some("Fix the login flow"));
    assert_eq!(b.project_name.as_deref(), Some("my-app"));
    assert_eq!(b.turn_count, 42);
    assert_eq!(b.files_edited, 7);
}

#[test]
fn cost_basis_falls_back_and_goes_cold_at_the_ttl() {
    let mut f = facts();
    f.primary_model = None;
    f.total_input_tokens = None;
    f.display_name = String::new();
    f.turn_count_api = Some(u64::MAX);
    let b = cost_basis(1_000_000 + CACHE_TTL_SECS, None, "fallback-model", &f);
    assert_eq!(b.model, "fallback-model");
    assert_eq!(b.history_tokens, 0);
    assert!(!b.cache_warm);
    assert_eq!(b.secs_ago, 300);
    assert_eq!(b.project_name, None);
    assert_eq!(b.turn_count, u32::MAX);

    let b = cost_basis(1_000_299, None, "fallback-model", &facts());
    assert_eq!(b.model, "opus-4");
    assert!(b.cache_warm);

    f.modified_at = 0;
    let b = cost_basis(10, None, "m", &f);
    assert!(!b.cache_warm);
    assert_eq!(b.turn_count, u32::MAX);
}

#[test]
fn signed_decimals_and_no_pricing_text() {
    assert_eq!(signed_decimal_string(0), "0");
    assert_eq!(signed_decimal_string(1234), "1234");
    assert_eq!(signed_decimal_string(-56), "-56");
    assert_eq!(signed_decimal_string(i64::MIN), i64::MIN.to_string());
    assert_eq!(
        no_pricing_explanation("mystery-model", 75),
        "Model pricing not found for mystery-model (last active 75s ago). Cost estimate unavailable without real pricing data."
    );
}

#[test]
fn jsonl_files_by_extension() {
    assert!(is_jsonl_file("abc.jsonl"));
    assert!(is_jsonl_file("a..jsonl"));
    assert!(!is_jsonl_file(".jsonl"));
    assert!(!is_jsonl_file("abc.json"));
    assert!(!is_jsonl_file("abc.jsonl.bak"));
    assert!(!is_jsonl_file("jsonl"));
}

#[test]
fn directory_totals() {
    let files = vec![
        ("a.jsonl".to_string(), 100u64),
        ("notes.txt".to_string(), 7),
        ("b.jsonl".to_string(), 50),
        (".jsonl".to_string(), 9),
    ];
    assert_eq!(directory_total(&files, true), 150);
    assert_eq!(directory_total(&files, false), 166);
    assert_eq!(directory_total(&vec![], true), 0);
}

#[test]
fn unarchive_locations_and_errors() {
    assert_eq!(
        unarchived_location("/data/archives/proj/s.jsonl", "/data/archives", "/home/u/projects").unwrap(),
        "/home/u/projects/proj/s.jsonl"
    );
    assert_eq!(
        unarchived_location("/elsewhere/s.jsonl", "/data/archives", "/home/u/projects").unwrap(),
        "/elsewhere/s.jsonl"
    );
    match unarchived_location("/data/archives/../s.jsonl", "/data/archives", "/p") {
        Err(ApiError::BadRequest(m)) => assert_eq!(m, "Invalid archive path"),
        other => panic!("unexpected {:?}", other),
    }
    match archive_refused("abc") {
        ApiError::NotFound(m) => assert_eq!(m, "Session abc not found or already archived"),
        other => panic!("unexpected {:?}", other),
    }
}

#[test]
fn missing_session_and_subagent_errors() {
    match session_missing("s-1") {
        ApiError::NotFound(m) => assert_eq!(m, "Session s-1 not found"),
        other => panic!("unexpected {:?}", other),
    }
    let e = subagent_missing("a1b2", "s-1");
    assert_eq!(e.status_code(), 404);
    match e {
        ApiError::NotFound(m) => assert_eq!(m, "Sub-agent 'a1b2' JSONL not found for session 's-1'"),
        other => panic!("unexpected {:?}", other),
    }
}
