use claude_view_server::error::ApiError;
use claude_view_server::search::{plan_search, plan_search_dated, SearchPlan, SearchQuery};
use claude_view_server::settings::{cli_timeout_secs, validate_settings_update};
use claude_view_server::stats::{
    ai_session_window, check_ai_generation_range, dashboard_period, dashboard_range_meta, heatmap_window,
    range_source_label, RangeSource,
    shorten_home_path, token_coverage, ModelTokenUsage,
};

fn sq(q: Option<&str>) -> SearchQuery {
    SearchQuery {
        q: q.map(|s| s.to_string()),
        scope: None,
        limit: None,
        offset: None,
        project: None,
        branch: None,
        model: None,
        after: None,
        before: None,
    }
}

fn planned(q: &SearchQuery) -> SearchPlan {
    match plan_search(q) {
        Ok(p) => p,
        Err(e) => panic!("rejected: {e:?}"),
    }
}

#[test]
fn search_requires_text() {
    match plan_search(&sq(Some("   "))) {
        Err(ApiError::BadRequest(m)) => assert_eq!(m, "query parameter 'q' is required"),
        _ => panic!("expected a bad request"),
    }
    assert!(plan_search(&sq(None)).is_err());
}

#[test]
fn search_defaults_and_caps() {
    let p = planned(&sq(Some(" fix ")));
    assert_eq!(p.q, "fix");
    assert_eq!((p.limit, p.offset), (20, 0));
    assert!(!p.needs_prefilter());
    let mut q = sq(Some("x"));
    q.limit = Some(500);
    q.offset = Some(7);
    let p = planned(&q);
    assert_eq!((p.limit, p.offset), (100, 7));
}

#[test]
fn search_project_from_scope_and_dates() {
    let mut q = sq(Some("x"));
    q.scope = Some("project:demo".to_string());
    q.after = Some("2024-04-01".to_string());
    q.before = Some("April 2".to_string());
    let p = planned(&q);
    assert_eq!(p.project.as_deref(), Some("demo"));
    assert_eq!(p.scope.as_deref(), Some("project:demo"));
    assert_eq!(p.after, Some(1711929600));
    assert_eq!(p.before, None);
    assert!(p.needs_prefilter());
    q.project = Some("explicit".to_string());
    assert_eq!(planned(&q).project.as_deref(), Some("explicit"));
    let d = plan_search_dated(&q, Some(5), Some(6));
    assert!(matches!(d, Ok(SearchPlan { after: Some(5), before: Some(6), .. })));
}

#[test]
fn dashboard_ranges() {
    assert!(matches!(dashboard_period(None, None), Ok(None)));
    match dashboard_period(Some(1000), Some(1999)) {
        Ok(Some(b)) => {
            assert_eq!((b.period_start, b.period_end), (1000, 1999));
            assert_eq!((b.comparison_start, b.comparison_end), (0, 999));
        },
        _ => panic!("expected bounds"),
    }
    match dashboard_period(Some(5), None) {
        Err(ApiError::BadRequest(m)) => assert_eq!(m, "Both 'from' and 'to' must be provided together"),
        _ => panic!("expected a bad request"),
    }
    match dashboard_period(Some(9), Some(5)) {
        Err(ApiError::BadRequest(m)) => assert_eq!(m, "'from' must be <= 'to'"),
        _ => panic!("expected a bad request"),
    }
    assert_eq!(heatmap_window(10_000_000), (10_000_000 - 7_776_000, 10_000_000));
}

#[test]
fn ai_generation_ranges() {
    assert!(check_ai_generation_range(None, None).is_ok());
    assert!(check_ai_generation_range(Some(1), Some(2)).is_ok());
    match check_ai_generation_range(Some(2), Some(2)) {
        Err(ApiError::BadRequest(m)) => assert_eq!(m, "'from' must be less than 'to'"),
        _ => panic!("expected a bad request"),
    }
    match check_ai_generation_range(None, Some(2)) {
        Err(ApiError::BadRequest(m)) => assert_eq!(m, "Both 'from' and 'to' must be provided together"),
        _ => panic!("expected a bad request"),
    }
    assert_eq!(ai_session_window(None, None), (1, i64::MAX));
    assert_eq!(ai_session_window(Some(10), Some(20)), (10, 20));
}

fn usage(model: &str, input: i64, output: i64, cr: i64, cc: i64, priced: bool) -> ModelTokenUsage {
    ModelTokenUsage {
        model_id: model.to_string(),
        input,
        output,
        cache_read: cr,
        cache_create: cc,
        priced,
    }
}

#[test]
fn token_coverage_tallies() {
    let models = vec![usage("a", 10, 20, 30, 40, true), usage("b", 1, 2, 3, 4, false), usage("c", 5, 0, 0, 0, true)];
    let c = token_coverage(&models);
    assert_eq!((c.priced_model_count, c.unpriced_model_count), (2, 1));
    assert_eq!(
        (c.unpriced_input_tokens, c.unpriced_output_tokens, c.unpriced_cache_read_tokens, c.unpriced_cache_creation_tokens),
        (1, 2, 3, 4)
    );
    assert_eq!(c.priced_tokens_total, 105);
    assert_eq!(c.all_tokens_total, 115);
    assert!(c.has_unpriced_usage);
    assert_eq!(c.total_cost_source, "computed_priced_tokens_partial");
    // priced and unpriced tokens make up all tokens
    assert_eq!(
        c.priced_tokens_total + c.unpriced_input_tokens + c.unpriced_output_tokens + c.unpriced_cache_read_tokens
            + c.unpriced_cache_creation_tokens,
        c.all_tokens_total
    );
    let full = token_coverage(&vec![usage("a", 1, 1, 1, 1, true)]);
    assert!(!full.has_unpriced_usage);
    assert_eq!(full.total_cost_source, "computed_priced_tokens_full");
    let none = token_coverage(&vec![]);
    assert_eq!(none.all_tokens_total, 0);
    assert_eq!(none.total_cost_source, "computed_priced_tokens_full");
}

#[test]
fn home_paths_shortened() {
    assert_eq!(shorten_home_path("/home/u/data/db.sqlite", Some("/home/u")), "~/data/db.sqlite");
    assert_eq!(shorten_home_path("/opt/data", Some("/home/u")), "/opt/data");
    assert_eq!(shorten_home_path("/home/u", None), "/home/u");
}

#[test]
fn settings_validation() {
    assert!(validate_settings_update(&Some("sonnet".to_string()), Some(60)).is_ok());
    assert!(validate_settings_update(&None, None).is_ok());
    match validate_settings_update(&Some("gpt".to_string()), Some(5)) {
        Err(ApiError::BadRequest(m)) => assert_eq!(m, "Invalid model 'gpt'. Valid options: haiku, sonnet, opus"),
        _ => panic!("expected a bad request"),
    }
    match validate_settings_update(&None, Some(301)) {
        Err(ApiError::BadRequest(m)) => assert_eq!(m, "Timeout must be between 10 and 300 seconds"),
        _ => panic!("expected a bad request"),
    }
    assert_eq!(cli_timeout_secs(5), 10);
    assert_eq!(cli_timeout_secs(120), 120);
    assert_eq!(cli_timeout_secs(1000), 300);
}

#[test]
fn dashboard_range_metadata() {
    let now = 1_700_000_000i64;
    let all_time = dashboard_period(None, None).unwrap();
    let m = dashboard_range_meta(&all_time, now);
    assert_eq!(range_source_label(&m.current_source), "default_all_time");
    assert_eq!(range_source_label(&m.heatmap_source), "explicit_range_param");
    assert_eq!(m.current_bounds, None);
    assert!(!m.has_trends);
    assert_eq!((m.heatmap_from, m.heatmap_to), (now - 90 * 86400, now));
    let ranged = dashboard_period(Some(100), Some(100)).unwrap();
    let m = dashboard_range_meta(&ranged, now);
    assert_eq!(range_source_label(&m.current_source), "explicit_from_to");
    assert!(m.current_source == RangeSource::ExplicitFromTo);
    assert_eq!(m.current_bounds, Some((100, 100)));
    assert!(m.has_trends);
}
