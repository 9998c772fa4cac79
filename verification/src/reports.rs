//! Report generation requests.
use vstd::prelude::*;

use crate::cost::{signed_decimal, signed_decimal_string};
use crate::error::ApiError;
use crate::text::{concat3, copy_str, push_char, push_str, str_is};

verus! {

/// Request body for report generation.
pub struct GenerateRequest {
    pub report_type: String,
    pub date_start: String,
    pub date_end: String,
    /// Unix timestamp for range start (local midnight).
    pub start_ts: i64,
    /// Unix timestamp for range end (local midnight + 86399).
    pub end_ts: i64,
}

/// Query params of the report preview.
pub struct PreviewQuery {
    pub start_ts: i64,
    pub end_ts: i64,
}

pub open spec fn valid_report_type(t: Seq<char>) -> bool {
    t == "daily"@ || t == "weekly"@ || t == "custom"@
}

/// Accept the report types daily, weekly and custom.
pub fn validate_report_type(report_type: &str) -> (res: Result<(), ApiError>)
    ensures
        res is Ok <==> valid_report_type(report_type@),
        res matches Err(e) ==> e matches ApiError::BadRequest(m) && m@ == "Invalid report_type: "@
            + report_type@,
{
    if str_is(report_type, "daily") || str_is(report_type, "weekly") || str_is(
        report_type,
        "custom",
    ) {
        Ok(())
    } else {
        proof {
            reveal_strlit("");
        }
        Err(ApiError::BadRequest(concat3("Invalid report_type: ", report_type, "")))
    }
}

/// The date range shown in a report: one date when both ends agree, else
/// "start to end".
pub fn report_date_range(date_start: &str, date_end: &str) -> (res: String)
    ensures
        res@ == (if date_start@ == date_end@ {
            date_start@
        } else {
            date_start@ + " to "@ + date_end@
        }),
{
    if str_is(date_start, date_end) {
        copy_str(date_start)
    } else {
        concat3(date_start, " to ", date_end)
    }
}

/// Whether a report may start generating: `generating` tells whether one is
/// under way. Returns whether one is under way afterwards and the answer: a
/// conflict while another runs, a bad request for an invalid report type
/// (nothing then runs), else go ahead.
pub fn start_generation(generating: bool, report_type: &str) -> (res: (bool, Result<(), ApiError>))
    ensures
        generating ==> res.0 && (res.1 matches Err(e) && e matches ApiError::Conflict(m) && m@
            == "A report is already being generated"@),
        !generating && !valid_report_type(report_type@) ==> !res.0 && (res.1 matches Err(e)
            && e matches ApiError::BadRequest(m) && m@ == "Invalid report_type: "@ + report_type@),
        !generating && valid_report_type(report_type@) ==> res.0 && res.1 is Ok,
{
    if generating {
        return (true, Err(ApiError::Conflict(copy_str("A report is already being generated"))));
    }
    match validate_report_type(report_type) {
        Ok(()) => (true, Ok(())),
        Err(e) => (false, Err(e)),
    }
}

/// What happened to a report generation that was allowed to start.
pub enum ReportEvent {
    /// The context digest was built with this many projects.
    DigestBuilt(usize),
    /// Building the digest failed with this error.
    DigestFailed(ApiError),
    /// Reading the preview statistics failed with this message.
    PreviewFailed(String),
    /// No language-model provider could be set up (this error).
    ProviderFailed(ApiError),
    /// The provider could not start streaming (this error).
    StreamFailed(ApiError),
    /// The provider started streaming the report.
    StreamStarted,
    /// The stream ended, or its client went away.
    StreamDropped,
}

/// What the generation does next.
pub enum ReportStep {
    /// Go on to the next stage.
    Continue,
    /// Answer with the event stream.
    Stream,
    /// Answer with this error.
    Fail(ApiError),
    /// The generation is over.
    Done,
}

/// The next step of a report generation after `event`, with `generating`
/// telling whether one is under way; returns whether one is under way
/// afterwards. Every failure, an empty digest among them, and the end of the
/// stream clear the flag; it stays set only while the generation goes on or
/// streams.
pub fn report_step(generating: bool, event: ReportEvent) -> (res: (bool, ReportStep))
    ensures
        match event {
            ReportEvent::DigestBuilt(n) => if n == 0 {
                !res.0 && (res.1 matches ReportStep::Fail(e) && e matches ApiError::BadRequest(m) && m@
                    == "No sessions found in the specified date range"@)
            } else {
                res.0 == generating && res.1 is Continue
            },
            ReportEvent::DigestFailed(e) => !res.0 && res.1 == ReportStep::Fail(e),
            ReportEvent::PreviewFailed(msg) => !res.0 && (res.1 matches ReportStep::Fail(e)
                && e matches ApiError::Internal(m) && m@ == "Failed to get preview: "@ + msg@),
            ReportEvent::ProviderFailed(e) => !res.0 && res.1 == ReportStep::Fail(e),
            ReportEvent::StreamFailed(e) => !res.0 && res.1 == ReportStep::Fail(e),
            ReportEvent::StreamStarted => res.0 && res.1 is Stream,
            ReportEvent::StreamDropped => !res.0 && res.1 is Done,
        },
        res.1 is Fail ==> !res.0,
{
    match event {
        ReportEvent::DigestBuilt(n) => {
            if n == 0 {
                (false, ReportStep::Fail(no_sessions_error()))
            } else {
                (generating, ReportStep::Continue)
            }
        },
        ReportEvent::DigestFailed(e) => (false, ReportStep::Fail(e)),
        ReportEvent::PreviewFailed(msg) => {
            proof {
                reveal_strlit("");
            }
            (false, ReportStep::Fail(ApiError::Internal(concat3("Failed to get preview: ", msg.as_str(), ""))))
        },
        ReportEvent::ProviderFailed(e) => (false, ReportStep::Fail(e)),
        ReportEvent::StreamFailed(e) => (false, ReportStep::Fail(e)),
        ReportEvent::StreamStarted => (true, ReportStep::Stream),
        ReportEvent::StreamDropped => (false, ReportStep::Done),
    }
}

/// The refusal of a report over a range without sessions.
pub fn no_sessions_error() -> (e: ApiError)
    ensures
        e matches ApiError::BadRequest(m) && m@ == "No sessions found in the specified date range"@,
{
    ApiError::BadRequest(copy_str("No sessions found in the specified date range"))
}

/// The error for a report id that does not exist.
pub fn report_missing(id: i64) -> (e: ApiError)
    ensures
        e matches ApiError::NotFound(m) && m@ == "Report "@ + signed_decimal(id as int) + " not found"@,
{
    let digits = signed_decimal_string(id);
    ApiError::NotFound(concat3("Report ", digits.as_str(), " not found"))
}

/// Adds one streamed line to the report text, lines joined by newlines.
pub fn append_line(full: &mut String, line: &str)
    ensures
        final(full)@ == (if old(full)@.len() == 0 {
            line@
        } else {
            old(full)@ + seq!['\n'] + line@
        }),
{
    if !full.as_str().is_empty() {
        push_char(full, '\n');
    }
    push_str(full, line);
}

} // verus!
