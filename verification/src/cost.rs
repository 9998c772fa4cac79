//! What a resume cost estimate rests on: the model that prices it, the token
//! history, whether the prompt cache is still warm, and the session's summary
//! figures. The prices themselves are fractional and applied by the caller.
use vstd::prelude::*;
use crate::dates::{decimal, decimal_string};
use crate::text::{copy_str, push_str};

verus! {

/// How long, in seconds, the prompt cache stays warm after the last activity.
pub const CACHE_TTL_SECS: i64 = 300;

/// The stored facts of a session that a cost estimate reads.
pub struct SessionCostFacts {
    pub primary_model: Option<String>,
    pub total_input_tokens: Option<u64>,
    /// Last activity, in epoch seconds.
    pub modified_at: i64,
    pub display_name: String,
    pub longest_task_preview: Option<String>,
    pub turn_count_api: Option<u64>,
    pub files_edited_count: u32,
}

/// Everything of an estimate but the prices.
pub struct CostBasis {
    pub model: String,
    pub history_tokens: u64,
    pub cache_warm: bool,
    pub secs_ago: i64,
    pub session_title: Option<String>,
    pub project_name: Option<String>,
    pub turn_count: u32,
    pub files_edited: u32,
}

/// The model that prices the estimate: the one asked for, else the session's
/// primary model, else `fallback`.
pub open spec fn chosen_model(requested: Option<String>, primary: Option<String>, fallback: Seq<char>) -> Seq<char> {
    match requested {
        Some(m) => m@,
        None => match primary {
            Some(p) => p@,
            None => fallback,
        },
    }
}

/// The cache is warm when the session was active, less than the cache's
/// lifetime ago.
pub open spec fn cache_is_warm(now: int, last_activity: int) -> bool {
    last_activity > 0 && now - last_activity < CACHE_TTL_SECS
}

/// A count of API turns as reported: capped at the largest `u32`.
pub open spec fn capped_turns(turns: Option<u64>) -> int {
    match turns {
        Some(t) => if t <= u32::MAX { t as int } else { u32::MAX as int },
        None => 0,
    }
}

/// The basis of the estimate for `session` at time `now` (epoch seconds), with
/// `requested` the model the caller asked for and `fallback` the model used
/// when neither it nor the session names one.
pub fn cost_basis(now: i64, requested: Option<String>, fallback: &str, session: &SessionCostFacts) -> (b: CostBasis)
    requires
        i64::MIN <= now - session.modified_at <= i64::MAX,
    ensures
        b.model@ == chosen_model(requested, session.primary_model, fallback@),
        b.history_tokens == (match session.total_input_tokens {
            Some(t) => t,
            None => 0u64,
        }),
        b.cache_warm == cache_is_warm(now as int, session.modified_at as int),
        b.secs_ago == now - session.modified_at,
        b.session_title == session.longest_task_preview,
        b.project_name == (if session.display_name@.len() == 0 {
            None::<String>
        } else {
            Some(session.display_name)
        }),
        b.turn_count == capped_turns(session.turn_count_api),
        b.files_edited == session.files_edited_count,
{
    let model = match requested {
        Some(m) => m,
        None => match &session.primary_model {
            Some(p) => p.clone(),
            None => copy_str(fallback),
        },
    };
    let history_tokens = match session.total_input_tokens {
        Some(t) => t,
        None => 0,
    };
    let secs_ago = now - session.modified_at;
    let cache_warm = session.modified_at > 0 && secs_ago < CACHE_TTL_SECS;
    let project_name = if session.display_name.as_str().is_empty() {
        None
    } else {
        Some(session.display_name.clone())
    };
    let session_title = match &session.longest_task_preview {
        Some(t) => Some(t.clone()),
        None => None,
    };
    let turn_count: u32 = match session.turn_count_api {
        Some(t) => if t <= 4294967295u64 { t as u32 } else { 4294967295u32 },
        None => 0,
    };
    CostBasis {
        model,
        history_tokens,
        cache_warm,
        secs_ago,
        session_title,
        project_name,
        turn_count,
        files_edited: session.files_edited_count,
    }
}

/// The decimal text of a signed integer, with a leading minus when negative.
pub open spec fn signed_decimal(n: int) -> Seq<char> {
    if n < 0 {
        seq!['-'] + decimal((-n) as nat)
    } else {
        decimal(n as nat)
    }
}

/// The decimal text of `n`.
pub fn signed_decimal_string(n: i64) -> (res: String)
    ensures
        res@ == signed_decimal(n as int),
{
    if n < 0 {
        let magnitude: u64 = (-(n as i128)) as u64;
        let mut res = String::new();
        push_str(&mut res, "-");
        let digits = decimal_string(magnitude);
        push_str(&mut res, digits.as_str());
        proof {
            reveal_strlit("-");
            assert(res@ =~= seq!['-'] + decimal((-n) as nat));
        }
        res
    } else {
        decimal_string(n as u64)
    }
}

/// The explanation given when no price is known for `model`.
pub open spec fn no_pricing_text(model: Seq<char>, secs_ago: int) -> Seq<char> {
    "Model pricing not found for "@ + model + " (last active "@ + signed_decimal(secs_ago)
        + "s ago). Cost estimate unavailable without real pricing data."@
}

/// The explanation of an estimate for which `model` has no known price.
pub fn no_pricing_explanation(model: &str, secs_ago: i64) -> (res: String)
    ensures
        res@ == no_pricing_text(model@, secs_ago as int),
{
    let mut res = String::new();
    push_str(&mut res, "Model pricing not found for ");
    push_str(&mut res, model);
    push_str(&mut res, " (last active ");
    let secs = signed_decimal_string(secs_ago);
    push_str(&mut res, secs.as_str());
    push_str(&mut res, "s ago). Cost estimate unavailable without real pricing data.");
    assert(res@ =~= no_pricing_text(model@, secs_ago as int));
    res
}

} // verus!
