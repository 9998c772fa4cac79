use claude_view_server::archive::{archive_destination, components_of, restore_location, RestorePlan};
use claude_view_server::error::ApiError;
use claude_view_server::foreign::{
    check_foreign_format, foreign_filter, foreign_row_kept, foreign_text_kept, ForeignRow,
    ForeignText,
};
use claude_view_server::profiles::{profile_list, ProfileSummary};
use claude_view_server::providers::{order_providers, provider_list, ProviderSummary};
use claude_view_server::sessions::{SessionMessagesQuery, SessionsListQuery};

fn provider(id: &str, count: usize) -> ProviderSummary {
    ProviderSummary { id: id.to_string(), display_name: id.to_uppercase(), count }
}

#[test]
fn providers_ordered_native_first() {
    let native = provider("native", 0);
    let res = provider_list(native, vec![provider("zed", 3), provider("codex", 5), provider("aider", 3)]);
    let ids: Vec<(&str, usize)> = res.providers.iter().map(|p| (p.id.as_str(), p.count)).collect();
    assert_eq!(ids, vec![("native", 0), ("codex", 5), ("aider", 3), ("zed", 3)]);
    let alone = provider_list(provider("native", 2), vec![]);
    assert_eq!(alone.providers.len(), 1);
    assert!(order_providers(vec![]).is_empty());
}

#[test]
fn profiles_without_directory_dropped() {
    let rows = vec![
        ProfileSummary { id: "default".to_string(), config_dir: "/home/u/.cfg".to_string(), count: 4 },
        ProfileSummary { id: String::new(), config_dir: String::new(), count: 9 },
        ProfileSummary { id: "work".to_string(), config_dir: "/home/u/.cfg-work".to_string(), count: 1 },
    ];
    let res = profile_list(rows);
    let ids: Vec<&str> = res.profiles.iter().map(|p| p.id.as_str()).collect();
    assert_eq!(ids, vec!["default", "work"]);
}

fn list_query(q: Option<&str>, project: Option<&str>) -> SessionsListQuery {
    SessionsListQuery {
        filter: None,
        sort: None,
        limit: None,
        offset: None,
        q: q.map(|s| s.to_string()),
        branches: None,
        models: None,
        has_commits: None,
        has_skills: None,
        min_duration: None,
        min_files: None,
        min_tokens: None,
        high_reedit: None,
        time_after: Some(100),
        time_before: Some(200),
        project: project.map(|s| s.to_string()),
        show_archived: None,
    }
}

#[test]
fn foreign_sessions_excluded_by_project_filter() {
    assert!(foreign_filter(&list_query(None, Some("proj")), None).is_none());
}

#[test]
fn foreign_rows_and_texts_filtered() {
    let f = foreign_filter(&list_query(Some("  Fix LOGIN "), None), Some(vec!["codex".to_string()])).unwrap();
    assert_eq!(f.needle, Some("fix login".chars().collect::<Vec<char>>()));
    let row = |p: &str, t: i64| ForeignRow { provider_id: p.to_string(), mtime: t };
    assert!(foreign_row_kept(&f, &row("codex", 150)));
    assert!(foreign_row_kept(&f, &row("codex", 100)));
    assert!(foreign_row_kept(&f, &row("codex", 200)));
    assert!(!foreign_row_kept(&f, &row("codex", 99)));
    assert!(!foreign_row_kept(&f, &row("codex", 201)));
    assert!(!foreign_row_kept(&f, &row("cursor", 150)));
    let text = ForeignText {
        title: Some("Auth".to_string()),
        first_message: "please FIX login flow".to_string(),
        project: "web".to_string(),
    };
    assert!(foreign_text_kept(&f, &text));
    let other = ForeignText { title: None, first_message: "fix".to_string(), project: "logout".to_string() };
    assert!(!foreign_text_kept(&f, &other));
    let open = foreign_filter(&list_query(Some("   "), None), None).unwrap();
    assert_eq!(open.needle, None);
    assert!(foreign_row_kept(&open, &row("anything", 150)));
    assert!(foreign_text_kept(&open, &other));
}

#[test]
fn foreign_messages_need_block_format() {
    let q = |f: Option<&str>| SessionMessagesQuery { limit: None, offset: None, raw: false, format: f.map(|s| s.to_string()) };
    assert!(check_foreign_format(&q(Some("block"))).is_ok());
    for bad in [None, Some("legacy")] {
        match check_foreign_format(&q(bad)) {
            Err(ApiError::BadRequest(m)) => assert_eq!(m, "foreign sessions support format=block only"),
            _ => panic!("expected a bad request"),
        }
    }
}

fn comps(p: &str) -> Vec<String> {
    components_of(p).into_iter().map(|c| c.into_iter().collect()).collect()
}

#[test]
fn path_components() {
    assert_eq!(comps("/a//b/./c/"), vec!["/", "a", "b", "c"]);
    assert_eq!(comps("./x/y"), vec![".", "x", "y"]);
    assert_eq!(comps("x/../y"), vec!["x", "..", "y"]);
    assert!(comps("").is_empty());
}

#[test]
fn archive_destinations() {
    assert_eq!(
        archive_destination("/home/u/projects/-Users-app/abc.jsonl", "/home/u/archives").as_deref(),
        Some("/home/u/archives/-Users-app/abc.jsonl")
    );
    assert_eq!(archive_destination("/p/abc.jsonl", "/arch/").as_deref(), Some("/arch/p/abc.jsonl"));
    assert_eq!(archive_destination("/abc.jsonl", "/arch"), None);
    assert_eq!(archive_destination("abc.jsonl", "/arch"), None);
    assert_eq!(archive_destination("/p/..", "/arch"), None);
}

#[test]
fn archive_round_trip() {
    let src = "/home/u/projects/-Users-app/abc.jsonl";
    let dest = archive_destination(src, "/home/u/archives").unwrap();
    match restore_location(&dest, "/home/u/archives", "/home/u/projects") {
        RestorePlan::Restore(p) => assert_eq!(p, src),
        _ => panic!("expected a restore"),
    }
}

#[test]
fn restore_outside_archive_or_traversal() {
    assert!(matches!(restore_location("/elsewhere/x.jsonl", "/home/u/archives", "/p"), RestorePlan::KeepCurrent));
    assert!(matches!(restore_location("/home/u/archivesX/x.jsonl", "/home/u/archives", "/p"), RestorePlan::KeepCurrent));
    assert!(matches!(
        restore_location("/home/u/archives/../secret/x.jsonl", "/home/u/archives", "/p"),
        RestorePlan::Traversal
    ));
    match restore_location("/home/u/archives", "/home/u/archives", "/p") {
        RestorePlan::Restore(p) => assert_eq!(p, "/p/"),
        _ => panic!("expected a restore"),
    }
}

#[test]
fn unarchive_returns_archived_file_to_its_project() {
    let src = "/home/u/projects/-Users-app/abc.jsonl";
    let dest = archive_destination(src, "/data/archives").unwrap();
    assert_eq!(dest, "/data/archives/-Users-app/abc.jsonl");
    match restore_location(&dest, "/data/archives", "/home/u/projects") {
        RestorePlan::Restore(p) => assert_eq!(p, src),
        _ => panic!("expected a restore"),
    }
    let dest = archive_destination(src, "/data/archives/").unwrap();
    match restore_location(&dest, "/data/archives/", "/home/u/projects/") {
        RestorePlan::Restore(p) => assert_eq!(p, src),
        _ => panic!("expected a restore"),
    }
}
