use claude_view_server::dates::{day_of, timestamp_of};
use claude_view_server::projects::{
    default_limit, default_list_limit, default_sort, display_name_from_project,
    project_page_bounds, project_path_from_id, project_sort_oldest_first, project_summaries,
    ProjectActivity,
};
use claude_view_server::session_info::{build_session_info, session_record, CatalogRow, SessionStats};

#[test]
fn test_project_path_returns_encoded_name() {
    // Encoding is lossy — return encoded name verbatim
    assert_eq!(project_path_from_id("-Users-dev-proj-demo-app"), "-Users-dev-proj-demo-app");
    assert_eq!(project_path_from_id(""), "");
}

fn row() -> CatalogRow {
    CatalogRow {
        id: "test-session".to_string(),
        file_path: "/tmp/test.jsonl".to_string(),
        is_compressed: false,
        bytes: 1024,
        mtime: 1712000000,
        project_id: "-Users-dev-myproject".to_string(),
        first_ts: None,
        last_ts: None,
    }
}

fn stats() -> SessionStats {
    SessionStats {
        total_input_tokens: 5000,
        total_output_tokens: 2000,
        cache_read_tokens: 1000,
        cache_creation_tokens: 500,
        turn_count: 5,
        user_prompt_count: 3,
        tool_call_count: 7,
        thinking_block_count: 2,
        files_read_count: 3,
        files_edited_count: 2,
        bash_count: 2,
        agent_spawn_count: 0,
        api_error_count: 0,
        duration_seconds: 120,
        primary_model: Some("opus-4-6".to_string()),
        git_branch: None,
        preview: "Fix the bug".to_string(),
        last_message: "Done".to_string(),
        first_message_at: Some("2026-04-01T10:00:00Z".to_string()),
    }
}

#[test]
fn test_build_session_info_from_stats() {
    let info = build_session_info(&row(), &stats());

    assert_eq!(info.id, "test-session");
    assert_eq!(info.project, "-Users-dev-myproject");
    assert_eq!(info.total_input_tokens, Some(5000));
    assert_eq!(info.total_output_tokens, Some(2000));
    assert_eq!(info.turn_count, 5);
    assert_eq!(info.tool_call_count, 7);
    assert_eq!(info.duration_seconds, 120);
    assert_eq!(info.primary_model.as_deref(), Some("opus-4-6"));
    assert_eq!(info.preview, "Fix the bug");
    // 2026-04-01T10:00:00Z epoch
    assert_eq!(info.first_message_at, Some(1775037600));
}

#[test]
fn session_record_fields() {
    let r = session_record(&row(), &stats(), Some(42));
    assert_eq!(r.first_message_at, Some(42));
    assert_eq!(r.message_count, 8);
    assert_eq!(r.turn_count_api, Some(5));
    assert_eq!(r.api_call_count, 5);
    assert_eq!(r.project_path, "-Users-dev-myproject");
    assert_eq!(r.display_name, "-Users-dev-myproject");
    assert_eq!(r.size_bytes, 1024);
    assert_eq!(r.modified_at, 1712000000);
    assert_eq!(r.total_cache_read_tokens, Some(1000));
    assert_eq!(r.total_cache_creation_tokens, Some(500));
    assert_eq!((r.tool_counts.read, r.tool_counts.edit, r.tool_counts.bash, r.tool_counts.write), (3, 2, 2, 0));
    let mut s = stats();
    s.first_message_at = Some("yesterday".to_string());
    assert_eq!(build_session_info(&row(), &s).first_message_at, None);
    s.first_message_at = None;
    assert_eq!(build_session_info(&row(), &s).first_message_at, None);
}

#[test]
fn timestamps_read_and_written() {
    assert_eq!(timestamp_of(Some("1970-01-01T00:00:00Z")), Some(0));
    assert_eq!(timestamp_of(Some("2026-04-01T12:00:00+02:00")), Some(1775037600));
    assert_eq!(timestamp_of(Some("2026-04-01")), None);
    assert_eq!(timestamp_of(None), None);
    assert_eq!(day_of(Some(0)).as_deref(), Some("1970-01-01"));
    assert_eq!(day_of(Some(1775037600)).as_deref(), Some("2026-04-01"));
    assert_eq!(day_of(Some(i64::MAX)), None);
    assert_eq!(day_of(None), None);
}

#[test]
fn project_defaults_and_paging() {
    assert_eq!(default_limit(), 50);
    assert_eq!(default_sort(), "recent");
    assert_eq!(default_list_limit(), 50);
    assert_eq!(display_name_from_project("-Users-dev-app"), "-Users-dev-app");
    assert_eq!(project_page_bounds(-3, 0), (0, 1));
    assert_eq!(project_page_bounds(20, 10), (20, 10));
    assert!(project_sort_oldest_first("oldest"));
    assert!(!project_sort_oldest_first("recent"));
}

#[test]
fn project_summaries_most_recent_first() {
    let projects = vec![
        ProjectActivity { project_id: "-a".to_string(), session_count: 2, last_activity_at: Some(100) },
        ProjectActivity { project_id: "-b".to_string(), session_count: 5, last_activity_at: None },
        ProjectActivity { project_id: "-c".to_string(), session_count: 1, last_activity_at: Some(300) },
        ProjectActivity { project_id: "-d".to_string(), session_count: 3, last_activity_at: Some(100) },
    ];
    let out = project_summaries(&projects);
    let names: Vec<&str> = out.iter().map(|p| p.name.as_str()).collect();
    assert_eq!(names, vec!["-c", "-a", "-d", "-b"]);
    assert_eq!(out[0].session_count, 1);
    assert_eq!(out[0].display_name, "-c");
    assert_eq!(out[0].path, "-c");
    assert_eq!(out[0].active_count, 0);
    assert!(!out[0].is_archived);
    assert_eq!(out[3].last_activity_at, None);
}
