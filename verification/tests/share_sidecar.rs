use claude_view_server::share::{share_access, ShareAccess};
use claude_view_server::error::ApiError;
use claude_view_server::share::{
    bearer_token, blob_upload_result, revoke_result, revoke_succeeded, share_blob_endpoint,
    share_create_endpoint, share_list_endpoint, share_revoke_endpoint, share_title,
    share_token_from_reply, share_url, tools_used, worker_share_token,
};
use claude_view_server::sidecar::{
    forward_request_header, forward_response_header, proxy_failure, proxy_status, proxy_target,
    replace_chars, sidecar_method, sidecar_ws_target, tap_step, HttpMethod, ProxyFailure, TapAction,
    TapEvent,
};

fn internal(r: Result<String, ApiError>) -> String {
    match r {
        Err(ApiError::Internal(m)) => m,
        Err(e) => panic!("unexpected {e:?}"),
        Ok(t) => panic!("unexpected token {t}"),
    }
}

#[test]
fn bearer_tokens() {
    assert_eq!(bearer_token(Some("Bearer abc.def")).as_deref(), Some("abc.def"));
    assert_eq!(bearer_token(Some("Bearer ")).as_deref(), Some(""));
    assert_eq!(bearer_token(Some("bearer abc")), None);
    assert_eq!(bearer_token(None), None);
}

#[test]
fn share_titles() {
    assert_eq!(share_title(&Some("Summary".to_string()), "preview", 80), "Summary");
    assert_eq!(share_title(&None, "héllo world", 5), "héllo");
    assert_eq!(share_title(&None, "short", 80), "short");
}

#[test]
fn share_tool_summary_lists_used_tools() {
    let t = tools_used(3, 0, 1, 0);
    let got: Vec<(&str, usize)> = t.iter().map(|x| (x.name.as_str(), x.count)).collect();
    assert_eq!(got, vec![("Read", 3), ("Bash", 1)]);
    assert!(tools_used(0, 0, 0, 0).is_empty());
    assert_eq!(tools_used(1, 2, 3, 4).len(), 4);
}

#[test]
fn share_urls_and_endpoints() {
    assert_eq!(share_url("https://view.example", "tok", "k3y"), "https://view.example/s/tok#k=k3y");
    assert_eq!(share_create_endpoint("https://w"), "https://w/api/share");
    assert_eq!(share_blob_endpoint("https://w", "tok"), "https://w/api/share/tok/blob");
    assert_eq!(share_revoke_endpoint("https://w", "s1"), "https://w/api/shares/by-session/s1");
    assert_eq!(share_list_endpoint("https://w"), "https://w/api/shares");
}

#[test]
fn worker_replies() {
    assert_eq!(worker_share_token(201, "201 Created", r#"{"token":"t-1"}"#).unwrap(), "t-1");
    assert_eq!(
        internal(worker_share_token(500, "500 Internal Server Error", "boom")),
        "Worker returned 500 Internal Server Error: boom"
    );
    assert_eq!(
        internal(worker_share_token(200, "200 OK", r#"{"id":5}"#)),
        r#"Missing token in Worker response: {"id":5}"#
    );
    assert_eq!(
        internal(worker_share_token(200, "200 OK", r#"{"token":5}"#)),
        r#"Missing token in Worker response: {"token":5}"#
    );
    assert!(internal(worker_share_token(200, "200 OK", "not json")).starts_with("Worker JSON parse: "));
    assert_eq!(
        internal(share_token_from_reply(200, "200 OK", "{}", Err("bad".to_string()))),
        "Worker JSON parse: bad"
    );
    assert_eq!(share_token_from_reply(204, "204", "", Ok(Some("z".to_string()))).unwrap(), "z");
}

#[test]
fn upload_and_revoke_outcomes() {
    assert!(blob_upload_result(200, "200 OK").is_ok());
    match blob_upload_result(413, "413 Payload Too Large") {
        Err(ApiError::Internal(m)) => assert_eq!(m, "Blob upload returned 413 Payload Too Large"),
        _ => panic!("expected an internal error"),
    }
    assert!(revoke_result(404, "404 Not Found").is_ok());
    assert!(revoke_result(204, "204 No Content").is_ok());
    match revoke_result(500, "500 Internal Server Error") {
        Err(ApiError::Internal(m)) => assert_eq!(m, "Worker returned 500 Internal Server Error"),
        _ => panic!("expected an internal error"),
    }
    assert!(revoke_succeeded(299));
    assert!(!revoke_succeeded(300));
}

#[test]
fn proxied_headers() {
    assert!(!forward_request_header("host"));
    assert!(!forward_request_header("connection"));
    assert!(!forward_request_header("transfer-encoding"));
    assert!(forward_request_header("content-type"));
    assert!(!forward_response_header("transfer-encoding"));
    assert!(forward_response_header("host"));
}

#[test]
fn proxied_methods_and_targets() {
    assert!(sidecar_method(&HttpMethod::Other) == HttpMethod::Get);
    assert!(sidecar_method(&HttpMethod::Patch) == HttpMethod::Patch);
    assert_eq!(proxy_target("http://localhost:3001", "/api/sidecar/x?y=1"), "http://localhost:3001/api/sidecar/x?y=1");
    assert_eq!(sidecar_ws_target("http://localhost:3001", "abc"), "ws://localhost:3001/ws/chat/abc");
    assert_eq!(sidecar_ws_target("https://host", "s"), "wss://host/ws/chat/s");
    let r = replace_chars(&"aXbXXc".chars().collect(), &vec!['X', 'X'], &vec!['-']);
    assert_eq!(r.into_iter().collect::<String>(), "aXb-c");
}

#[test]
fn proxy_statuses_and_failures() {
    assert_eq!(proxy_status(200), 200);
    assert_eq!(proxy_status(999), 999);
    assert_eq!(proxy_status(99), 502);
    assert_eq!(proxy_status(1000), 502);
    assert_eq!(proxy_failure(ProxyFailure::Unavailable, "down"), (503, "Sidecar not available: down".to_string()));
    assert_eq!(proxy_failure(ProxyFailure::Unreachable, "refused"), (502, "Sidecar unreachable: refused".to_string()));
    assert_eq!(proxy_failure(ProxyFailure::BadRequestBody, "x"), (400, "Failed to read request body".to_string()));
    assert_eq!(proxy_failure(ProxyFailure::BadResponseBody, "x"), (502, "Failed to read sidecar response".to_string()));
}

#[test]
fn interaction_tap_steps() {
    let (pending, action) = tap_step(None, TapEvent::Interaction("req-1".to_string()));
    assert_eq!(pending.as_deref(), Some("req-1"));
    assert!(matches!(action, TapAction::SetInteraction));
    let (pending, action) = tap_step(pending, TapEvent::Other);
    assert_eq!(pending.as_deref(), Some("req-1"));
    assert!(matches!(action, TapAction::Nothing));
    let (pending, action) = tap_step(pending, TapEvent::TurnEnd);
    assert_eq!(pending, None);
    assert!(matches!(action, TapAction::Clear(ref r) if r == "req-1"));
    let (pending, action) = tap_step(pending, TapEvent::TurnEnd);
    assert_eq!(pending, None);
    assert!(matches!(action, TapAction::Nothing));
}

fn refused_with(a: ShareAccess) -> (u16, String) {
    match a {
        ShareAccess::Refuse(e) => {
            let code = e.status_code();
            match e {
                ApiError::Unauthorized(m) | ApiError::BadRequest(m) => (code, m),
                other => panic!("unexpected {:?}", other),
            }
        }
        _ => panic!("expected a refusal"),
    }
}

#[test]
fn share_access_refuses_before_the_worker() {
    assert_eq!(refused_with(share_access(false, Some("Bearer t"), None, true)), (401, "Auth not configured".to_string()));
    assert_eq!(refused_with(share_access(true, None, None, true)), (401, "Missing Authorization header".to_string()));
    assert_eq!(refused_with(share_access(true, Some("Basic abc"), None, true)), (401, "Expected Bearer token".to_string()));
    assert_eq!(
        refused_with(share_access(true, Some("Bearer t"), Some(Err("expired".to_string())), true)),
        (401, "Invalid token: expired".to_string())
    );
    assert_eq!(
        refused_with(share_access(true, Some("Bearer t"), Some(Ok(())), false)),
        (400, "Sharing not configured".to_string())
    );
    match share_access(true, Some("Bearer abc.def"), None, true) {
        ShareAccess::Verify(t) => assert_eq!(t, "abc.def"),
        _ => panic!("expected verification"),
    }
    match share_access(true, Some("Bearer abc.def"), Some(Ok(())), true) {
        ShareAccess::Proceed(t) => assert_eq!(t, "abc.def"),
        _ => panic!("expected to proceed"),
    }
}
