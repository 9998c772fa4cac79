use claude_view_server::error::ApiError;
use claude_view_server::sessions::{
    activity_total, branch_list, list_search_filters, list_session_page, page_of, paginate_blocks, parse_providers_param,
    plan_session_list, search_filters_with_days, search_term, select_turns, validate_agent_id,
    CommitWithTier, GitCommit, SessionFacts, SessionListPlan, SessionSort, SessionsListQuery,
    TranscriptLine, TurnMessage,
};

fn query() -> SessionsListQuery {
    SessionsListQuery {
        filter: None,
        sort: None,
        limit: None,
        offset: None,
        q: None,
        branches: None,
        models: None,
        has_commits: None,
        has_skills: None,
        min_duration: None,
        min_files: None,
        min_tokens: None,
        high_reedit: None,
        time_after: None,
        time_before: None,
        project: None,
        show_archived: None,
    }
}

fn facts(id: &str, modified_at: i64, tokens: u64) -> SessionFacts {
    SessionFacts {
        id: id.to_string(),
        modified_at,
        first_message_at: Some(modified_at - 100),
        duration_seconds: 600,
        files_read_count: 2,
        files_edited_count: 1,
        user_prompt_count: 3,
        total_input_tokens: Some(tokens),
        total_output_tokens: None,
        primary_model: Some("opus".to_string()),
        git_branch: None,
        archived: false,
        commit_count: 0,
        has_skills: false,
        high_reedit: false,
    }
}

fn plan(q: SessionsListQuery) -> SessionListPlan {
    match plan_session_list(&q) {
        Ok(p) => p,
        Err(e) => panic!("rejected: {e:?}"),
    }
}

#[test]
fn list_plan_defaults() {
    let p = plan(query());
    assert_eq!(p.filter, "all");
    assert_eq!(p.sort, "recent");
    assert!(p.sort_mode == SessionSort::Recent);
    assert_eq!(p.limit, 30);
    assert_eq!(p.offset, 0);
    assert_eq!(p.has_commits, None);
    assert!(!p.show_archived);
    assert!(!p.branches_active);
}

#[test]
fn list_plan_legacy_filters() {
    let mut q = query();
    q.filter = Some("has_commits".to_string());
    assert_eq!(plan(q).has_commits, Some(true));
    let mut q = query();
    q.filter = Some("high_reedit".to_string());
    assert_eq!(plan(q).high_reedit, Some(true));
    let mut q = query();
    q.filter = Some("long_session".to_string());
    assert_eq!(plan(q).min_duration, Some(1801));
    let mut q = query();
    q.filter = Some("long_session".to_string());
    q.min_duration = Some(60);
    assert_eq!(plan(q).min_duration, Some(60));
    let mut q = query();
    q.limit = Some(0);
    q.offset = Some(-5);
    let p = plan(q);
    assert_eq!(p.limit, 1);
    assert_eq!(p.offset, 0);
}

#[test]
fn list_plan_rejects_unknown_filter_and_sort() {
    let mut q = query();
    q.filter = Some("bogus".to_string());
    match plan_session_list(&q) {
        Err(ApiError::BadRequest(m)) => assert_eq!(
            m,
            "Invalid filter 'bogus'. Valid options: all, has_commits, high_reedit, long_session"
        ),
        _ => panic!("expected a bad request"),
    }
    let mut q = query();
    q.sort = Some("alpha".to_string());
    match plan_session_list(&q) {
        Err(ApiError::BadRequest(m)) => assert_eq!(
            m,
            "Invalid sort 'alpha'. Valid options: recent, tokens, prompts, files_edited, duration"
        ),
        _ => panic!("expected a bad request"),
    }
}

#[test]
fn list_plan_branch_and_model_lists() {
    let mut q = query();
    q.branches = Some(" main, ~ ,,feature ".to_string());
    q.models = Some("opus, ,sonnet".to_string());
    let p = plan(q);
    assert_eq!(p.branches_named, vec!["main".to_string(), "feature".to_string()]);
    assert!(p.branches_include_none);
    assert!(p.branches_active);
    assert_eq!(p.models, vec!["opus".to_string(), "sonnet".to_string()]);
}

#[test]
fn session_page_filters_sorts_and_pages() {
    let mut q = query();
    q.sort = Some("tokens".to_string());
    q.limit = Some(2);
    q.min_tokens = Some(100);
    let p = plan(q);
    let mut archived = facts("arch", 5, 900);
    archived.archived = true;
    let sessions = vec![
        facts("a", 1, 300),
        facts("b", 2, 50),
        facts("c", 3, 700),
        archived,
        facts("d", 4, 300),
    ];
    let page = list_session_page(&p, sessions);
    assert_eq!(page.total, 3);
    let ids: Vec<&str> = page.sessions.iter().map(|s| s.id.as_str()).collect();
    assert_eq!(ids, vec!["c", "a"]);
    assert!(page.has_more);
}

#[test]
fn session_page_branch_filter_matches_none_sentinel() {
    let mut q = query();
    q.branches = Some("~,main".to_string());
    let p = plan(q);
    let mut on_main = facts("m", 1, 0);
    on_main.git_branch = Some("main".to_string());
    let mut on_dev = facts("d", 2, 0);
    on_dev.git_branch = Some("dev".to_string());
    let none = facts("n", 3, 0);
    let page = list_session_page(&p, vec![on_main, on_dev, none]);
    let ids: Vec<&str> = page.sessions.iter().map(|s| s.id.as_str()).collect();
    assert_eq!(ids, vec!["n", "m"]);
    assert!(!page.has_more);
}

#[test]
fn paging_windows() {
    assert_eq!(page_of(vec![1, 2, 3, 4, 5], 1, 2), vec![2, 3]);
    assert_eq!(page_of(vec![1, 2, 3], 2, 10), vec![3]);
    assert!(page_of(vec![1, 2, 3], 3, 1).is_empty());
    // consecutive pages tile the list
    let mut both = page_of(vec![1, 2, 3, 4, 5], 1, 2);
    both.extend(page_of(vec![1, 2, 3, 4, 5], 3, 2));
    assert_eq!(both, page_of(vec![1, 2, 3, 4, 5], 1, 4));
    let p = paginate_blocks(vec!['a', 'b', 'c'], None, None);
    assert_eq!(p.blocks, vec!['a', 'b', 'c']);
    assert_eq!((p.total, p.offset, p.limit, p.has_more), (3, 0, 50, false));
    let p = paginate_blocks(vec![1, 2, 3, 4], Some(1), Some(2));
    assert_eq!(p.blocks, vec![2, 3]);
    assert!(p.has_more);
}

#[test]
fn providers_param_parsing() {
    assert_eq!(parse_providers_param(None), None);
    assert_eq!(parse_providers_param(Some(" , ")), None);
    assert_eq!(
        parse_providers_param(Some(" Codex ,,cursor")),
        Some(vec!["codex".to_string(), "cursor".to_string()])
    );
}

#[test]
fn agent_ids() {
    assert!(validate_agent_id("a1b2").is_ok());
    assert!(validate_agent_id("").is_err());
    assert!(validate_agent_id("../x").is_err());
    assert!(validate_agent_id(&"a".repeat(65)).is_err());
    assert!(validate_agent_id(&"a".repeat(64)).is_ok());
    match validate_agent_id("bad-id") {
        Err(ApiError::BadRequest(m)) => assert_eq!(m, "Invalid agent ID: 'bad-id'"),
        _ => panic!("expected a bad request"),
    }
}

fn line(kind: &str, id: Option<&str>, model: &str, input: u64) -> TranscriptLine {
    TranscriptLine {
        line_type: Some(kind.to_string()),
        message: Some(TurnMessage {
            id: id.map(|s| s.to_string()),
            model: Some(model.to_string()),
            input_tokens: Some(input),
            output_tokens: None,
        }),
    }
}

#[test]
fn turns_keep_last_copy_of_each_message() {
    let lines = vec![
        line("assistant", Some("m1"), "opus", 1),
        line("user", Some("u1"), "-", 0),
        line("assistant", Some("m1"), "opus", 2),
        line("assistant", None, "haiku", 3),
        TranscriptLine { line_type: Some("assistant".to_string()), message: None },
        line("assistant", Some("m2"), "sonnet", 4),
    ];
    let turns = select_turns(&lines);
    let got: Vec<(u32, Option<u64>)> = turns.iter().map(|t| (t.seq, t.input_tokens)).collect();
    assert_eq!(got, vec![(0, Some(2)), (1, Some(3)), (2, Some(4))]);
    assert_eq!(turns[2].model.as_deref(), Some("sonnet"));
}

#[test]
fn search_term_and_filters() {
    let mut q = query();
    q.q = Some("  fix bug ".to_string());
    assert_eq!(search_term(&q).as_deref(), Some("fix bug"));
    q.q = Some("   ".to_string());
    assert_eq!(search_term(&q), None);
    let mut q = query();
    q.branches = Some(" main ,dev".to_string());
    q.models = Some(",opus".to_string());
    q.project = Some("proj".to_string());
    q.time_after = Some(1_712_000_000);
    let f = list_search_filters(&q);
    assert_eq!(f.branch.as_deref(), Some("main"));
    assert_eq!(f.model.as_deref(), Some(""));
    assert_eq!(f.project.as_deref(), Some("proj"));
    assert_eq!(f.after.as_deref(), Some("2024-04-01"));
    assert_eq!(f.before, None);
    let g = search_filters_with_days(&q, Some("x".to_string()), None);
    assert_eq!(g.after.as_deref(), Some("x"));
    assert_eq!(g.branch.as_deref(), Some("main"));
}

#[test]
fn commit_with_tier_drops_evidence() {
    let c = GitCommit {
        hash: "abc".to_string(),
        message: "fix".to_string(),
        author: None,
        timestamp: 7,
        branch: Some("main".to_string()),
    };
    let t = CommitWithTier::from_correlation(c, 1, "skill".to_string());
    assert_eq!((t.hash.as_str(), t.message.as_str(), t.timestamp, t.tier), ("abc", "fix", 7, 1));
    assert_eq!(t.branch.as_deref(), Some("main"));
}

#[test]
fn branch_list_is_sorted_distinct_and_skips_missing() {
    let branches = vec![
        Some("main".to_string()),
        None,
        Some("feature/x".to_string()),
        Some("main".to_string()),
        Some("dev".to_string()),
    ];
    assert_eq!(branch_list(&branches), vec!["dev", "feature/x", "main"]);
    assert!(branch_list(&vec![None, None]).is_empty());
}

#[test]
fn activity_total_sums_counts_only_when_filtered() {
    let counts = vec![3i64, 0, 5, 2];
    assert_eq!(activity_total(true, &counts, 99), 10);
    assert_eq!(activity_total(false, &counts, 99), 99);
    assert_eq!(activity_total(true, &vec![], 7), 0);
}

#[test]
fn long_session_filter_is_strictly_over_half_an_hour() {
    let mut q = query();
    q.filter = Some("long_session".to_string());
    let p = plan(q);
    let mut exact = facts("exact", 1, 0);
    exact.duration_seconds = 1800;
    let mut longer = facts("longer", 2, 0);
    longer.duration_seconds = 1801;
    let page = list_session_page(&p, vec![exact, longer]);
    let ids: Vec<&str> = page.sessions.iter().map(|s| s.id.as_str()).collect();
    assert_eq!(ids, vec!["longer"]);
}

#[test]
fn recent_sort_uses_first_message_time() {
    let p = plan(query());
    let mut a = facts("a", 10, 0);
    a.first_message_at = Some(5);
    let mut b = facts("b", 1, 0);
    b.first_message_at = Some(50);
    let mut c = facts("c", 100, 0);
    c.first_message_at = None;
    let page = list_session_page(&p, vec![a, b, c]);
    let ids: Vec<&str> = page.sessions.iter().map(|s| s.id.as_str()).collect();
    assert_eq!(ids, vec!["b", "a", "c"]);
}

#[test]
fn provider_list_round_trip() {
    let v = parse_providers_param(Some(" Codex ,,CURSOR, open-code ")).unwrap();
    assert_eq!(v, vec!["codex", "cursor", "open-code"]);
    let joined = v.join(",");
    assert_eq!(parse_providers_param(Some(&joined)), Some(v));
}
