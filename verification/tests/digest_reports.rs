use claude_view_server::digest::{build_digest, distinct_texts, group_projects, DigestRow};
use claude_view_server::error::ApiError;
use claude_view_server::reports::{
    report_step, ReportEvent, ReportStep,
    append_line, no_sessions_error, report_missing, report_date_range, start_generation, validate_report_type,
};

fn row(id: &str, project: &str, branch: Option<&str>, duration: i64) -> DigestRow {
    DigestRow {
        id: id.to_string(),
        project: project.to_string(),
        preview: format!("prompt {id}"),
        category: if duration > 100 { Some("feature".to_string()) } else { None },
        duration_secs: duration,
        branch: branch.map(|b| b.to_string()),
    }
}

#[test]
fn distinct_texts_keep_first_appearance() {
    let v: Vec<String> = ["b", "a", "b", "c", "a"].iter().map(|s| s.to_string()).collect();
    assert_eq!(distinct_texts(&v), vec!["b".to_string(), "a".to_string(), "c".to_string()]);
    assert!(distinct_texts(&vec![]).is_empty());
}

#[test]
fn projects_grouped_by_branch_and_ranked() {
    let rows = vec![
        row("1", "web", Some("main"), 60),
        row("2", "api", None, 300),
        row("3", "api", Some("fix"), 30),
        row("4", "api", None, 10),
        row("5", "web", Some("main"), 40),
        row("6", "cli", None, 5),
    ];
    let commits = vec![("api".to_string(), 3), ("web".to_string(), 1), ("api".to_string(), 4)];
    let ps = group_projects(&rows, &commits);
    let names: Vec<&str> = ps.iter().map(|p| p.name.as_str()).collect();
    assert_eq!(names, vec!["api", "web", "cli"]);
    let api = &ps[0];
    assert_eq!(api.session_count, 3);
    assert_eq!(api.commit_count, 4);
    assert_eq!(api.total_duration_secs, 340);
    let branches: Vec<&str> = api.branches.iter().map(|b| b.name.as_str()).collect();
    assert_eq!(branches, vec!["(no branch)", "fix"]);
    assert_eq!(api.branches[0].sessions.len(), 2);
    assert_eq!(api.branches[0].sessions[0].first_prompt, "prompt 2");
    assert_eq!(api.branches[0].sessions[0].category.as_deref(), Some("feature"));
    assert_eq!(api.branches[0].sessions[1].duration_secs, 10);
    let web = &ps[1];
    assert_eq!((web.session_count, web.commit_count, web.total_duration_secs), (2, 1, 100));
    assert_eq!(web.branches.len(), 1);
    assert_eq!(ps[2].commit_count, 0);
    // every session is counted under one project
    let total: usize = ps.iter().map(|p| p.session_count).sum();
    assert_eq!(total, rows.len());
}

#[test]
fn digest_summary_and_range() {
    let rows = vec![row("1", "web", None, 1), row("2", "api", None, 1), row("3", "web", None, 1)];
    let d = build_digest(
        "weekly",
        "2024-03-01",
        "2024-03-07",
        &rows,
        &vec![],
        vec!["Edit".to_string()],
        vec![],
        1200,
        -1,
    );
    assert_eq!(d.report_type, "weekly");
    assert_eq!(d.date_range, "2024-03-01 to 2024-03-07");
    assert_eq!(d.summary_line, "3 sessions across 2 projects");
    assert_eq!(d.projects.len(), 2);
    assert_eq!(d.top_tools, vec!["Edit".to_string()]);
    assert_eq!(d.total_input_tokens, 1200);
    assert_eq!(d.total_output_tokens, u64::MAX);
    let one_day = build_digest("daily", "2024-03-01", "2024-03-01", &rows, &vec![], vec![], vec![], 0, 0);
    assert_eq!(one_day.date_range, "2024-03-01");
}

#[test]
fn digest_of_empty_range_is_empty() {
    let d = build_digest("daily", "2024-03-01", "2024-03-01", &vec![], &vec![], vec!["x".to_string()], vec![], 5, 5);
    assert_eq!(d.report_type, "");
    assert_eq!(d.date_range, "");
    assert!(d.projects.is_empty());
    assert!(d.top_tools.is_empty());
    assert_eq!(d.summary_line, "");
    assert_eq!((d.total_input_tokens, d.total_output_tokens), (0, 0));
}

#[test]
fn report_generation_gate() {
    let (busy, r) = start_generation(true, "daily");
    assert!(busy);
    assert!(matches!(r, Err(ApiError::Conflict(ref m)) if m == "A report is already being generated"));
    let (busy, r) = start_generation(false, "monthly");
    assert!(!busy);
    assert!(matches!(r, Err(ApiError::BadRequest(ref m)) if m == "Invalid report_type: monthly"));
    let (busy, r) = start_generation(false, "custom");
    assert!(busy);
    assert!(r.is_ok());
    assert!(validate_report_type("weekly").is_ok());
    assert!(validate_report_type("Weekly").is_err());
    assert!(matches!(no_sessions_error(), ApiError::BadRequest(ref m) if m == "No sessions found in the specified date range"));
    assert_eq!(report_date_range("a", "b"), "a to b");
}

#[test]
fn streamed_lines_joined() {
    let mut full = String::new();
    append_line(&mut full, "first");
    append_line(&mut full, "");
    append_line(&mut full, "third");
    assert_eq!(full, "first\n\nthird");
}

#[test]
fn missing_report_error() {
    match report_missing(42) {
        ApiError::NotFound(m) => assert_eq!(m, "Report 42 not found"),
        other => panic!("unexpected {:?}", other),
    }
    match report_missing(-3) {
        ApiError::NotFound(m) => assert_eq!(m, "Report -3 not found"),
        other => panic!("unexpected {:?}", other),
    }
}

#[test]
fn report_flag_cleared_on_every_failure() {
    let (busy, step) = report_step(true, ReportEvent::DigestBuilt(0));
    assert!(!busy);
    match step {
        ReportStep::Fail(ApiError::BadRequest(m)) => assert_eq!(m, "No sessions found in the specified date range"),
        _ => panic!("expected the empty-digest refusal"),
    }
    let (busy, step) = report_step(true, ReportEvent::DigestBuilt(2));
    assert!(busy);
    assert!(matches!(step, ReportStep::Continue));
    let (busy, step) = report_step(true, ReportEvent::PreviewFailed("db locked".to_string()));
    assert!(!busy);
    match step {
        ReportStep::Fail(ApiError::Internal(m)) => assert_eq!(m, "Failed to get preview: db locked"),
        _ => panic!("expected an internal error"),
    }
    let (busy, step) = report_step(true, ReportEvent::DigestFailed(ApiError::Internal("x".to_string())));
    assert!(!busy && matches!(step, ReportStep::Fail(ApiError::Internal(_))));
    let (busy, step) = report_step(true, ReportEvent::ProviderFailed(ApiError::BadRequest("p".to_string())));
    assert!(!busy && matches!(step, ReportStep::Fail(ApiError::BadRequest(_))));
    let (busy, step) = report_step(true, ReportEvent::StreamFailed(ApiError::Internal("s".to_string())));
    assert!(!busy && matches!(step, ReportStep::Fail(ApiError::Internal(_))));
    let (busy, step) = report_step(true, ReportEvent::StreamStarted);
    assert!(busy && matches!(step, ReportStep::Stream));
    let (busy, step) = report_step(true, ReportEvent::StreamDropped);
    assert!(!busy && matches!(step, ReportStep::Done));
}
