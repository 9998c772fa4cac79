//! Session sharing: bearer tokens, titles, tool summaries and worker URLs.
use vstd::prelude::*;

use crate::error::ApiError;
use crate::text::{
    chars_of, concat3, copy_str, push_str, slice_chars, starts_with, starts_with_chars, string_of,
};

verus! {

broadcast use vstd::seq_lib::group_seq_properties;

/// Response of share creation.
pub struct ShareResponse {
    pub token: String,
    pub url: String,
}

/// One tool and how often the session used it.
pub struct ToolUsageSummary {
    pub name: String,
    pub count: usize,
}

/// The token of an `Authorization: Bearer <token>` header value.
pub fn bearer_token(header: Option<&str>) -> (res: Option<String>)
    ensures
        match res {
            Some(t) => header matches Some(h) && starts_with(h@, "Bearer "@) && t@ == h@.skip(7),
            None => header matches Some(h) ==> !starts_with(h@, "Bearer "@),
        },
{
    match header {
        Some(h) => {
            let cs = chars_of(h);
            let p = chars_of("Bearer ");
            proof {
                reveal_strlit("Bearer ");
            }
            if starts_with_chars(&cs, &p) {
                Some(string_of(&slice_chars(&cs, p.len(), cs.len())))
            } else {
                None
            }
        },
        None => None,
    }
}

/// The title of a share: the session summary, or else the first `n`
/// characters of its preview.
pub fn share_title(summary: &Option<String>, preview: &str, n: usize) -> (res: String)
    ensures
        res@ == (match summary {
            Some(s) => s@,
            None => preview@.take(if n < preview@.len() {
                n as int
            } else {
                preview@.len() as int
            }),
        }),
{
    match summary {
        Some(s) => copy_str(s.as_str()),
        None => {
            let cs = chars_of(preview);
            let end = if n < cs.len() {
                n
            } else {
                cs.len()
            };
            string_of(&slice_chars(&cs, 0, end))
        },
    }
}

/// The tools a shared session lists: Read, Edit, Bash, Write, in that order,
/// each only when used.
pub open spec fn tools_listed(read: usize, edit: usize, bash: usize, write: usize) -> Seq<(Seq<char>, usize)> {
    let all = seq![("Read"@, read), ("Edit"@, edit), ("Bash"@, bash), ("Write"@, write)];
    all.filter(|t: (Seq<char>, usize)| t.1 > 0)
}

/// The tool usage summary of a shared session.
pub fn tools_used(read: usize, edit: usize, bash: usize, write: usize) -> (res: Vec<ToolUsageSummary>)
    ensures
        res@.map_values(|t: ToolUsageSummary| (t.name@, t.count)) == tools_listed(read, edit, bash, write),
{
    let ghost all = seq![("Read"@, read), ("Edit"@, edit), ("Bash"@, bash), ("Write"@, write)];
    let ghost keep = |t: (Seq<char>, usize)| t.1 > 0;
    let mut out: Vec<ToolUsageSummary> = Vec::new();
    proof {
        reveal_with_fuel(Seq::<_>::filter, 5);
        assert(all.take(0) == Seq::<(Seq<char>, usize)>::empty());
    }
    let names = ["Read", "Edit", "Bash", "Write"];
    let counts = [read, edit, bash, write];
    let mut i: usize = 0;
    while i < 4
        invariant
            i <= 4,
            names@.len() == 4,
            counts@.len() == 4,
            forall|k: int| 0 <= k < 4 ==> all[k] == (#[trigger] names@[k]@, counts@[k]),
            all.len() == 4,
            keep == |t: (Seq<char>, usize)| t.1 > 0,
            out@.map_values(|t: ToolUsageSummary| (t.name@, t.count)) == all.take(i as int).filter(keep),
        decreases 4 - i,
    {
        proof {
            assert(all.take(i + 1) == all.take(i as int).push(all[i as int]));
            all.take(i as int).lemma_filter_push(all[i as int], keep);
        }
        if counts[i] > 0 {
            let ghost before = out@;
            out.push(ToolUsageSummary { name: copy_str(names[i]), count: counts[i] });
            assert(out@.map_values(|t: ToolUsageSummary| (t.name@, t.count)) =~= before.map_values(
                |t: ToolUsageSummary| (t.name@, t.count),
            ).push(all[i as int]));
            assert(keep(all[i as int]));
            assert(all.take(i + 1).filter(keep) == all.take(i as int).filter(keep).push(all[i as int]));
        } else {
            assert(all[i as int] == (names@[i as int]@, counts@[i as int]));
            assert(!keep(all[i as int]));
            assert(all.take(i + 1).filter(keep) == all.take(i as int).filter(keep));
        }
        i = i + 1;
    }
    assert(all.take(4) == all);
    out
}

/// The public link of a share: `<viewer>/s/<token>#k=<key>`.
pub fn share_url(viewer_url: &str, token: &str, key_b64: &str) -> (res: String)
    ensures
        res@ == viewer_url@ + "/s/"@ + token@ + "#k="@ + key_b64@,
{
    let mut res = concat3(viewer_url, "/s/", token);
    push_str(&mut res, "#k=");
    push_str(&mut res, key_b64);
    res
}

/// The worker endpoint that registers a share.
pub fn share_create_endpoint(worker_url: &str) -> (res: String)
    ensures
        res@ == worker_url@ + "/api/share"@,
{
    let mut res = copy_str(worker_url);
    push_str(&mut res, "/api/share");
    res
}

/// The worker endpoint that receives a share's encrypted blob.
pub fn share_blob_endpoint(worker_url: &str, token: &str) -> (res: String)
    ensures
        res@ == worker_url@ + "/api/share/"@ + token@ + "/blob"@,
{
    let mut res = concat3(worker_url, "/api/share/", token);
    push_str(&mut res, "/blob");
    res
}

/// The worker endpoint that revokes the shares of a session.
pub fn share_revoke_endpoint(worker_url: &str, session_id: &str) -> (res: String)
    ensures
        res@ == worker_url@ + "/api/shares/by-session/"@ + session_id@,
{
    concat3(worker_url, "/api/shares/by-session/", session_id)
}

/// The worker endpoint that lists shares.
pub fn share_list_endpoint(worker_url: &str) -> (res: String)
    ensures
        res@ == worker_url@ + "/api/shares"@,
{
    let mut res = copy_str(worker_url);
    push_str(&mut res, "/api/shares");
    res
}

/// A revocation succeeded when the worker answered with a 2xx status, or with
/// 404 (nothing left to revoke).
pub fn revoke_succeeded(status: u16) -> (res: bool)
    ensures
        res == ((200 <= status && status <= 299) || status == 404),
{
    (200 <= status && status <= 299) || status == 404
}

/// What serde_json makes of a reply body: the message of its parse error, or
/// else the text at field `key` when the body is an object holding a string
/// there (none otherwise).
pub uninterp spec fn json_text_field(body: Seq<char>, key: Seq<char>) -> Result<Option<Seq<char>>, Seq<char>>;

/// `serde_json::from_str::<serde_json::Value>(body)`, then `value[key].as_str()`;
/// a parse error is turned into its message. The outcome depends on `body`
/// and `key` alone.
#[verifier::external_body]
fn read_json_text_field(body: &str, key: &str) -> (res: Result<Option<String>, String>)
    ensures
        match res {
            Ok(Some(t)) => json_text_field(body@, key@) == Ok::<Option<Seq<char>>, Seq<char>>(Some(t@)),
            Ok(None) => json_text_field(body@, key@) == Ok::<Option<Seq<char>>, Seq<char>>(None),
            Err(e) => json_text_field(body@, key@) == Err::<Option<Seq<char>>, Seq<char>>(e@),
        },
{
    match serde_json::from_str::<serde_json::Value>(body) {
        Ok(v) => match v[key].as_str() {
            Some(t) => Ok(Some(t.to_string())),
            None => Ok(None),
        },
        Err(e) => Err(e.to_string()),
    }
}

/// A 2xx status.
pub open spec fn success_status(status: u16) -> bool {
    200 <= status <= 299
}

/// The share token from the worker's reply to share registration, whose status
/// is `status` (shown as `status_text`), whose body is `body`, and where
/// `field` is what reading `token` from the body gave: an internal error for a
/// non-2xx status, an unparsable body, or a body without a string `token`.
pub fn share_token_from_reply(
    status: u16,
    status_text: &str,
    body: &str,
    field: Result<Option<String>, String>,
) -> (res: Result<String, ApiError>)
    ensures
        !success_status(status) ==> (res matches Err(e) && e matches ApiError::Internal(m) && m@
            == "Worker returned "@ + status_text@ + ": "@ + body@),
        success_status(status) ==> match field {
            Err(pe) => res matches Err(e) && e matches ApiError::Internal(m) && m@ == "Worker JSON parse: "@
                + pe@,
            Ok(None) => res matches Err(e) && e matches ApiError::Internal(m) && m@
                == "Missing token in Worker response: "@ + body@,
            Ok(Some(t)) => res matches Ok(r) && r@ == t@,
        },
{
    proof {
        reveal_strlit("");
    }
    if !(200 <= status && status <= 299) {
        let head = concat3("Worker returned ", status_text, ": ");
        return Err(ApiError::Internal(concat3(head.as_str(), body, "")));
    }
    match field {
        Err(e) => Err(ApiError::Internal(concat3("Worker JSON parse: ", e.as_str(), ""))),
        Ok(None) => Err(ApiError::Internal(concat3("Missing token in Worker response: ", body, ""))),
        Ok(Some(t)) => Ok(t),
    }
}

/// The share token from the worker's reply to share registration: an internal
/// error for a non-2xx status, a body serde_json cannot parse, or a body
/// without a string `token`.
pub fn worker_share_token(status: u16, status_text: &str, body: &str) -> (res: Result<String, ApiError>)
    ensures
        !success_status(status) ==> (res matches Err(e) && e matches ApiError::Internal(m) && m@
            == "Worker returned "@ + status_text@ + ": "@ + body@),
        success_status(status) ==> match json_text_field(body@, "token"@) {
            Err(pe) => res matches Err(e) && e matches ApiError::Internal(m) && m@ == "Worker JSON parse: "@
                + pe,
            Ok(None) => res matches Err(e) && e matches ApiError::Internal(m) && m@
                == "Missing token in Worker response: "@ + body@,
            Ok(Some(t)) => res matches Ok(r) && r@ == t,
        },
{
    proof {
        reveal_strlit("token");
    }
    let field = read_json_text_field(body, "token");
    share_token_from_reply(status, status_text, body, field)
}

/// The outcome of the blob upload: an internal error unless its status is 2xx.
pub fn blob_upload_result(status: u16, status_text: &str) -> (res: Result<(), ApiError>)
    ensures
        success_status(status) <==> res is Ok,
        res matches Err(e) ==> e matches ApiError::Internal(m) && m@ == "Blob upload returned "@
            + status_text@,
{
    proof {
        reveal_strlit("");
    }
    if 200 <= status && status <= 299 {
        Ok(())
    } else {
        Err(ApiError::Internal(concat3("Blob upload returned ", status_text, "")))
    }
}

/// The outcome of a revocation: an internal error unless the status is 2xx or 404.
pub fn revoke_result(status: u16, status_text: &str) -> (res: Result<(), ApiError>)
    ensures
        (success_status(status) || status == 404) <==> res is Ok,
        res matches Err(e) ==> e matches ApiError::Internal(m) && m@ == "Worker returned "@
            + status_text@,
{
    proof {
        reveal_strlit("");
    }
    if revoke_succeeded(status) {
        Ok(())
    } else {
        Err(ApiError::Internal(concat3("Worker returned ", status_text, "")))
    }
}

/// What a share request does next, given what is known of its credentials.
pub enum ShareAccess {
    /// Check the signature of this JWT, then decide again with the verdict.
    Verify(String),
    /// Go on to the worker, forwarding this JWT as the bearer.
    Proceed(String),
    /// Answer with this error; nothing is sent to the worker.
    Refuse(ApiError),
}

/// `e` is `Unauthorized` with message `m`.
pub open spec fn unauthorized(e: ApiError, m: Seq<char>) -> bool {
    e matches ApiError::Unauthorized(t) && t@ == m
}

/// The access decision of the share routes (create, revoke, list).
/// `auth_configured`: whether token verification is set up; `header`: the
/// `Authorization` header, when present and readable as text; `verdict`: the
/// result of checking the JWT's signature, once it has been checked (the
/// error's text when it failed); `sharing_configured`: whether a share
/// worker is set up. A request goes to the worker only with verification set
/// up, a `Bearer ` token that passed the check, and a worker configured.
pub fn share_access(
    auth_configured: bool,
    header: Option<&str>,
    verdict: Option<Result<(), String>>,
    sharing_configured: bool,
) -> (res: ShareAccess)
    ensures
        !auth_configured ==> (res matches ShareAccess::Refuse(e) && unauthorized(e, "Auth not configured"@)),
        auth_configured && header is None ==> (res matches ShareAccess::Refuse(e) && unauthorized(
            e,
            "Missing Authorization header"@,
        )),
        auth_configured && header is Some && !starts_with(header.unwrap()@, "Bearer "@) ==> (
        res matches ShareAccess::Refuse(e) && unauthorized(e, "Expected Bearer token"@)),
        auth_configured && header is Some && starts_with(header.unwrap()@, "Bearer "@) && verdict is None
            ==> (res matches ShareAccess::Verify(t) && t@ == header.unwrap()@.skip(7)),
        verdict matches Some(Err(msg)) ==> (auth_configured && header is Some && starts_with(
            header.unwrap()@,
            "Bearer "@,
        ) ==> (res matches ShareAccess::Refuse(e) && unauthorized(e, "Invalid token: "@ + msg@))),
        auth_configured && header is Some && starts_with(header.unwrap()@, "Bearer "@) && verdict == Some(
            Ok::<(), String>(()),
        ) && sharing_configured ==> (res matches ShareAccess::Proceed(t) && t@ == header.unwrap()@.skip(7)),
        auth_configured && header is Some && starts_with(header.unwrap()@, "Bearer "@) && verdict == Some(
            Ok::<(), String>(()),
        ) && !sharing_configured ==> (res matches ShareAccess::Refuse(e) && e matches ApiError::BadRequest(m)
            && m@ == "Sharing not configured"@),
        res is Proceed ==> auth_configured && sharing_configured && verdict == Some(Ok::<(), String>(())),
{
    if !auth_configured {
        return ShareAccess::Refuse(ApiError::Unauthorized(copy_str("Auth not configured")));
    }
    let h = match header {
        Some(h) => h,
        None => {
            return ShareAccess::Refuse(ApiError::Unauthorized(copy_str("Missing Authorization header")));
        },
    };
    let token = match bearer_token(Some(h)) {
        Some(t) => t,
        None => {
            return ShareAccess::Refuse(ApiError::Unauthorized(copy_str("Expected Bearer token")));
        },
    };
    proof {
        reveal_strlit("");
    }
    match verdict {
        None => ShareAccess::Verify(token),
        Some(Err(msg)) => ShareAccess::Refuse(ApiError::Unauthorized(concat3("Invalid token: ", msg.as_str(), ""))),
        Some(Ok(u)) => {
            assert(u == ());
            if sharing_configured {
                ShareAccess::Proceed(token)
            } else {
                ShareAccess::Refuse(ApiError::BadRequest(copy_str("Sharing not configured")))
            }
        },
    }
}

} // verus!
