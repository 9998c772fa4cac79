//! Application settings: validation of updates and the CLI timeout.
use vstd::prelude::*;

use crate::error::ApiError;
use crate::text::{concat3, str_is};

verus! {

/// The models a report provider may be configured with.
pub open spec fn valid_model(m: Seq<char>) -> bool {
    m == "haiku"@ || m == "sonnet"@ || m == "opus"@
}

/// Validate a settings update: the model, when given, is one of haiku, sonnet,
/// opus; the timeout, when given, lies in 10..=300 seconds.
pub fn validate_settings_update(llm_model: &Option<String>, llm_timeout_secs: Option<i64>) -> (res: Result<(), ApiError>)
    ensures
        match res {
            Ok(()) => (llm_model matches Some(m) ==> valid_model(m@)) && (llm_timeout_secs matches Some(
                t,
            ) ==> 10 <= t <= 300),
            Err(e) => e matches ApiError::BadRequest(msg) && if llm_model matches Some(m) && !valid_model(
                m@,
            ) {
                msg@ == "Invalid model '"@ + llm_model.unwrap()@ + "'. Valid options: haiku, sonnet, opus"@
            } else {
                llm_timeout_secs matches Some(t) && (t < 10 || t > 300) && msg@
                    == "Timeout must be between 10 and 300 seconds"@
            },
        },
{
    match llm_model {
        Some(m) => {
            let ms = m.as_str();
            if !(str_is(ms, "haiku") || str_is(ms, "sonnet") || str_is(ms, "opus")) {
                return Err(
                    ApiError::BadRequest(
                        concat3("Invalid model '", ms, "'. Valid options: haiku, sonnet, opus"),
                    ),
                );
            }
        },
        None => {},
    }
    match llm_timeout_secs {
        Some(t) => {
            if t < 10 || t > 300 {
                return Err(
                    ApiError::BadRequest(
                        crate::text::copy_str("Timeout must be between 10 and 300 seconds"),
                    ),
                );
            }
        },
        None => {},
    }
    Ok(())
}

/// The timeout handed to the report CLI: the stored value clamped to 10..=300.
pub fn cli_timeout_secs(stored: i64) -> (res: u64)
    ensures
        res == (if stored < 10 {
            10
        } else if stored > 300 {
            300
        } else {
            stored
        }),
{
    if stored < 10 {
        10
    } else if stored > 300 {
        300
    } else {
        stored as u64
    }
}

} // verus!
