//! Proxying to the sidecar process: headers, methods and URLs.
use vstd::prelude::*;

use crate::text::{append_chars, chars_of, concat3, copy_str, infix_at, push_str, str_is, string_of};

verus! {

broadcast use vstd::seq_lib::group_seq_properties;

/// Request headers are forwarded except the hop-by-hop `host`, `connection`
/// and `transfer-encoding`.
pub fn forward_request_header(name: &str) -> (res: bool)
    ensures
        res == !(name@ == "host"@ || name@ == "connection"@ || name@ == "transfer-encoding"@),
{
    !(str_is(name, "host") || str_is(name, "connection") || str_is(name, "transfer-encoding"))
}

/// Response headers are copied back except `transfer-encoding` and `connection`.
pub fn forward_response_header(name: &str) -> (res: bool)
    ensures
        res == !(name@ == "transfer-encoding"@ || name@ == "connection"@),
{
    !(str_is(name, "transfer-encoding") || str_is(name, "connection"))
}

/// HTTP methods the proxy distinguishes.
#[derive(PartialEq, Eq, Structural)]
pub enum HttpMethod {
    Get,
    Post,
    Put,
    Delete,
    Patch,
    Head,
    Options,
    /// Any other method.
    Other,
}

/// The method used towards the sidecar: the same one, with any other method
/// sent as GET.
pub fn sidecar_method(m: &HttpMethod) -> (res: HttpMethod)
    ensures
        *m == HttpMethod::Other ==> res == HttpMethod::Get,
        *m != HttpMethod::Other ==> res == *m,
{
    match m {
        HttpMethod::Get => HttpMethod::Get,
        HttpMethod::Post => HttpMethod::Post,
        HttpMethod::Put => HttpMethod::Put,
        HttpMethod::Delete => HttpMethod::Delete,
        HttpMethod::Patch => HttpMethod::Patch,
        HttpMethod::Head => HttpMethod::Head,
        HttpMethod::Options => HttpMethod::Options,
        HttpMethod::Other => HttpMethod::Get,
    }
}

/// The URL an HTTP request is proxied to: the sidecar base followed by the
/// request's path and query.
pub fn proxy_target(base: &str, path_and_query: &str) -> (res: String)
    ensures
        res@ == base@ + path_and_query@,
{
    let mut res = copy_str(base);
    push_str(&mut res, path_and_query);
    res
}

/// `s` with every occurrence of `from` (scanning left to right, without
/// overlap) replaced by `to` (`str::replace`).
pub open spec fn replace_all(s: Seq<char>, from: Seq<char>, to: Seq<char>) -> Seq<char>
    recommends
        from.len() > 0,
    decreases s.len(),
{
    if from.len() == 0 || s.len() < from.len() {
        s
    } else if s.take(from.len() as int) == from {
        to + replace_all(s.skip(from.len() as int), from, to)
    } else {
        seq![s[0]] + replace_all(s.skip(1), from, to)
    }
}

/// Replace every occurrence of a non-empty `from` in `s` by `to`.
pub fn replace_chars(s: &Vec<char>, from: &Vec<char>, to: &Vec<char>) -> (res: Vec<char>)
    requires
        from@.len() > 0,
    ensures
        res@ == replace_all(s@, from@, to@),
{
    let mut out: Vec<char> = Vec::new();
    let mut i: usize = 0;
    while i < s.len()
        invariant
            i <= s@.len(),
            from@.len() > 0,
            replace_all(s@, from@, to@) == out@ + replace_all(s@.skip(i as int), from@, to@),
        decreases s@.len() - i,
    {
        let ghost rest = s@.skip(i as int);
        let matched = from.len() <= s.len() - i && infix_at(s, from, i);
        if matched {
            assert(rest.take(from@.len() as int) =~= s@.subrange(i as int, i + from@.len()));
            assert(rest.skip(from@.len() as int) =~= s@.skip(i + from@.len()));
            append_chars(&mut out, to);
            i = i + from.len();
        } else {
            proof {
                if rest.len() >= from@.len() {
                    assert(rest.take(from@.len() as int) =~= s@.subrange(i as int, i + from@.len()));
                }
            }
            assert(rest.skip(1) =~= s@.skip(i + 1));
            assert(rest[0] == s@[i as int]);
            out.push(s[i]);
            i = i + 1;
        }
    }
    assert(s@.skip(s@.len() as int) =~= Seq::<char>::empty());
    out
}

/// The sidecar's WebSocket URL for a chat session: the base with `http://`
/// turned into `ws://` and then `https://` into `wss://`, followed by
/// `/ws/chat/<session_id>`.
pub fn sidecar_ws_target(base: &str, session_id: &str) -> (res: String)
    ensures
        res@ == replace_all(replace_all(base@, "http://"@, "ws://"@), "https://"@, "wss://"@)
            + "/ws/chat/"@ + session_id@,
{
    let http = chars_of("http://");
    let https = chars_of("https://");
    proof {
        reveal_strlit("http://");
        reveal_strlit("https://");
    }
    let a = replace_chars(&chars_of(base), &http, &chars_of("ws://"));
    let b = replace_chars(&a, &https, &chars_of("wss://"));
    let bs = string_of(&b);
    concat3(bs.as_str(), "/ws/chat/", session_id)
}

/// The status sent back for the sidecar's status code: the same code when it
/// is a valid HTTP status (100 to 999), else 502 Bad Gateway.
pub fn proxy_status(code: u16) -> (res: u16)
    ensures
        res == (if 100 <= code && code <= 999 {
            code
        } else {
            502
        }),
{
    if 100 <= code && code <= 999 {
        code
    } else {
        502
    }
}

/// Why a proxied request failed.
pub enum ProxyFailure {
    /// The sidecar could not be started.
    Unavailable,
    /// The client's request body could not be read.
    BadRequestBody,
    /// The sidecar could not be reached.
    Unreachable,
    /// The sidecar's response body could not be read.
    BadResponseBody,
}

/// The status and error message sent for a failed proxy request; `detail`
/// is the underlying error where the message shows it.
pub fn proxy_failure(f: ProxyFailure, detail: &str) -> (res: (u16, String))
    ensures
        match f {
            ProxyFailure::Unavailable => res.0 == 503 && res.1@ == "Sidecar not available: "@ + detail@,
            ProxyFailure::BadRequestBody => res.0 == 400 && res.1@ == "Failed to read request body"@,
            ProxyFailure::Unreachable => res.0 == 502 && res.1@ == "Sidecar unreachable: "@ + detail@,
            ProxyFailure::BadResponseBody => res.0 == 502 && res.1@ == "Failed to read sidecar response"@,
        },
{
    proof {
        reveal_strlit("");
    }
    match f {
        ProxyFailure::Unavailable => (503, concat3("Sidecar not available: ", detail, "")),
        ProxyFailure::BadRequestBody => (400, copy_str("Failed to read request body")),
        ProxyFailure::Unreachable => (502, concat3("Sidecar unreachable: ", detail, "")),
        ProxyFailure::BadResponseBody => (502, copy_str("Failed to read sidecar response")),
    }
}

/// What a message from the sidecar to the browser is, for the interaction tap.
pub enum TapEvent {
    /// An interaction (permission, question, plan approval, elicitation)
    /// awaiting an answer, with its request id.
    Interaction(String),
    /// The end of a turn (completed or failed).
    TurnEnd,
    /// Anything else.
    Other,
}

/// What the tap asks the session coordinator to do.
pub enum TapAction {
    /// Record the interaction as pending.
    SetInteraction,
    /// Clear the pending interaction with this request id.
    Clear(String),
    /// Nothing.
    Nothing,
}

/// One step of the interaction tap: from the last pending request id and the
/// next message, the new pending id and the action. An interaction becomes
/// pending; a turn end clears the pending one, if any; other messages change
/// nothing.
pub open spec fn tap_step_spec(last: Option<String>, event: TapEvent) -> (Option<String>, TapAction) {
    match event {
        TapEvent::Interaction(id) => (Some(id), TapAction::SetInteraction),
        TapEvent::TurnEnd => match last {
            Some(r) => (None, TapAction::Clear(r)),
            None => (None, TapAction::Nothing),
        },
        TapEvent::Other => (last, TapAction::Nothing),
    }
}

/// One step of the interaction tap (see `tap_step_spec`).
pub fn tap_step(last: Option<String>, event: TapEvent) -> (res: (Option<String>, TapAction))
    ensures
        res == tap_step_spec(last, event),
{
    match event {
        TapEvent::Interaction(id) => (Some(id), TapAction::SetInteraction),
        TapEvent::TurnEnd => match last {
            Some(r) => (None, TapAction::Clear(r)),
            None => (None, TapAction::Nothing),
        },
        TapEvent::Other => (last, TapAction::Nothing),
    }
}

/// A turn end after an interaction clears exactly that interaction and
/// leaves nothing pending, whatever was pending before.
pub proof fn law_turn_end_clears_last_interaction(last: Option<String>, id: String)
    ensures
        tap_step_spec(tap_step_spec(last, TapEvent::Interaction(id)).0, TapEvent::TurnEnd) == (
            None::<String>,
            TapAction::Clear(id),
        ),
{
}

/// A second turn end clears nothing.
pub proof fn law_turn_end_twice_clears_once(last: Option<String>)
    ensures
        tap_step_spec(tap_step_spec(last, TapEvent::TurnEnd).0, TapEvent::TurnEnd).1 is Nothing,
{
}

} // verus!
