use claude_view_server::actions::{
    marketplace_action_response, mutation_in_progress, plan_marketplace_action, MarketplaceCommand,
};
use claude_view_server::error::ApiError;
use claude_view_server::plugins::MarketplaceActionRequest;

fn req(action: &str, source: Option<&str>, name: Option<&str>, scope: Option<&str>) -> MarketplaceActionRequest {
    MarketplaceActionRequest {
        action: action.to_string(),
        source: source.map(|s| s.to_string()),
        name: name.map(|s| s.to_string()),
        scope: scope.map(|s| s.to_string()),
    }
}

fn bad_request(r: Result<MarketplaceCommand, ApiError>) -> String {
    match r {
        Err(ApiError::BadRequest(m)) => m,
        Err(e) => panic!("unexpected error {e:?}"),
        Ok(c) => panic!("unexpected plan {:?}", c.args),
    }
}

#[test]
fn marketplace_action_rejects_invalid_action() {
    let m = bad_request(plan_marketplace_action(&req("destroy", None, None, None)));
    assert_eq!(m, "Invalid marketplace action: destroy. Must be one of: add, remove, update");
}

#[test]
fn marketplace_action_rejects_add_without_source() {
    let m = bad_request(plan_marketplace_action(&req("add", None, None, None)));
    assert_eq!(m, "'source' is required for add action.");
}

#[test]
fn marketplace_add_uses_short_source_and_scope() {
    let c = plan_marketplace_action(&req("add", Some("https://github.com/owner/repo.git"), None, Some("project")))
        .unwrap();
    assert_eq!(c.action, "add");
    assert_eq!(c.name, "owner/repo");
    assert_eq!(c.args, vec!["marketplace", "add", "owner/repo", "--scope", "project"]);
    let c = plan_marketplace_action(&req("add", Some("owner/repo"), None, None)).unwrap();
    assert_eq!(c.args, vec!["marketplace", "add", "owner/repo"]);
}

#[test]
fn marketplace_add_rejects_bad_source_then_scope() {
    let m = bad_request(plan_marketplace_action(&req("add", Some("not-a-repo"), None, Some("global"))));
    assert_eq!(m, "Invalid marketplace source: not-a-repo. Use 'owner/repo' format.");
    let m = bad_request(plan_marketplace_action(&req("add", Some("owner/repo"), None, Some("global"))));
    assert_eq!(m, "Invalid scope: global. Must be 'user' or 'project'.");
}

#[test]
fn marketplace_remove_and_update_need_valid_name() {
    let m = bad_request(plan_marketplace_action(&req("remove", None, None, None)));
    assert_eq!(m, "'name' is required for remove action.");
    let m = bad_request(plan_marketplace_action(&req("update", None, None, None)));
    assert_eq!(m, "Use POST /api/plugins/marketplaces/refresh-all for bulk updates");
    let m = bad_request(plan_marketplace_action(&req("remove", None, Some("--all"), None)));
    assert!(m.starts_with("Invalid plugin name: --all."));
    let c = plan_marketplace_action(&req("update", None, Some("official"), None)).unwrap();
    assert_eq!(c.args, vec!["marketplace", "update", "official"]);
    assert_eq!(c.name, "official");
    let c = plan_marketplace_action(&req("remove", Some("ignored/source"), Some("mine"), None)).unwrap();
    assert_eq!(c.args, vec!["marketplace", "remove", "mine"]);
}

#[test]
fn marketplace_responses_from_outcomes() {
    let add = plan_marketplace_action(&req("add", Some("owner/repo"), None, None)).unwrap();
    let r = marketplace_action_response(&add, Ok("  added owner/repo \n".to_string()));
    assert!(r.success);
    assert_eq!(r.action, "add");
    assert_eq!(r.name, "owner/repo");
    assert_eq!(r.message.as_deref(), Some("added owner/repo"));
    let r = marketplace_action_response(&add, Ok(" \n\t".to_string()));
    assert_eq!(r.message, None);
    let remove = plan_marketplace_action(&req("remove", None, Some("mine"), None)).unwrap();
    let r = marketplace_action_response(&remove, Ok("removed".to_string()));
    assert!(r.success);
    assert_eq!(r.message, None);
    let r = marketplace_action_response(&remove, Err("CLI failed".to_string()));
    assert!(!r.success);
    assert_eq!(r.message.as_deref(), Some("CLI failed"));
}

#[test]
fn mutation_conflict_message() {
    match mutation_in_progress() {
        ApiError::Conflict(m) => assert_eq!(m, "A mutation is already in progress."),
        e => panic!("unexpected {e:?}"),
    }
    assert_eq!(mutation_in_progress().status_code(), 409);
}
