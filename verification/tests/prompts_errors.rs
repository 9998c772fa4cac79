use claude_view_server::error::ApiError;
use claude_view_server::prompts::{
    non_empty, project_display_name, prompt_list_response, prompt_paging, prompt_search_string,
    prompts_have_more, PromptInfo,
};

#[test]
fn prompt_paging_defaults_and_cap() {
    assert_eq!(prompt_paging(None, None), (50, 0));
    assert_eq!(prompt_paging(Some(500), Some(20)), (200, 20));
    assert_eq!(prompt_paging(Some(10), None), (10, 0));
}

#[test]
fn prompt_search_strings() {
    let s = |x: &str| Some(x.to_string());
    assert_eq!(prompt_search_string(&s("refactor"), &s("fix"), &s("high")), "refactor intent:fix complexity:high");
    assert_eq!(prompt_search_string(&None, &s("fix"), &None), "intent:fix");
    assert_eq!(prompt_search_string(&None, &None, &None), "");
}

#[test]
fn prompt_project_names() {
    assert_eq!(project_display_name("/Users/dev/my-app"), "my-app");
    assert_eq!(project_display_name("plain"), "plain");
    assert_eq!(project_display_name("trailing/"), "");
}

#[test]
fn prompt_optional_texts_and_more() {
    assert_eq!(non_empty(String::new()), None);
    assert_eq!(non_empty("x".to_string()).as_deref(), Some("x"));
    assert!(prompts_have_more(0, 50, 51));
    assert!(!prompts_have_more(0, 50, 50));
}

#[test]
fn error_status_codes() {
    assert_eq!(ApiError::BadRequest(String::new()).status_code(), 400);
    assert_eq!(ApiError::Unauthorized(String::new()).status_code(), 401);
    assert_eq!(ApiError::NotFound(String::new()).status_code(), 404);
    assert_eq!(ApiError::SessionNotFound(String::new()).status_code(), 404);
    assert_eq!(ApiError::Conflict(String::new()).status_code(), 409);
    assert_eq!(ApiError::Internal(String::new()).status_code(), 500);
}

fn prompt(id: &str) -> PromptInfo {
    PromptInfo {
        id: id.to_string(),
        display: "fix the bug".to_string(),
        project: "/u/app".to_string(),
        project_display_name: "app".to_string(),
        session_id: None,
        timestamp: 1,
        branch: None,
        model: None,
        intent: "fix".to_string(),
        complexity: "low".to_string(),
        has_paste: false,
        paste_preview: None,
        template_id: None,
    }
}

#[test]
fn prompt_list_falls_back_to_empty_page() {
    let r = prompt_list_response(0, None);
    assert!(r.prompts.is_empty() && r.total == 0 && !r.has_more);
    let r = prompt_list_response(10, Some(Err("index corrupt".to_string())));
    assert!(r.prompts.is_empty() && r.total == 0 && !r.has_more);
    let r = prompt_list_response(1, Some(Ok((vec![prompt("a"), prompt("b")], 5))));
    assert_eq!(r.prompts.len(), 2);
    assert_eq!(r.total, 5);
    assert!(r.has_more);
    let r = prompt_list_response(3, Some(Ok((vec![prompt("a"), prompt("b")], 5))));
    assert!(!r.has_more);
}
