//! Full-text search request resolution.
use vstd::prelude::*;

use crate::error::ApiError;
use crate::text::{
    chars_of, copy_str, slice_chars, starts_with, starts_with_chars, string_of, trim_chars,
    trim_seq,
};

verus! {

/// Query parameters of the search endpoint.
pub struct SearchQuery {
    /// The search query string. Required.
    pub q: Option<String>,
    /// Optional scope filter, e.g. `"project:<name>"`.
    pub scope: Option<String>,
    /// Maximum number of session groups to return (default 20, at most 100).
    pub limit: Option<usize>,
    /// Number of session groups to skip (default 0).
    pub offset: Option<usize>,
    /// Filter by project path or project id.
    pub project: Option<String>,
    /// Filter by git branch name.
    pub branch: Option<String>,
    /// Filter by model name.
    pub model: Option<String>,
    /// Sessions after this date ("YYYY-MM-DD").
    pub after: Option<String>,
    /// Sessions before this date ("YYYY-MM-DD").
    pub before: Option<String>,
}

/// The midnight-UTC timestamp of a "YYYY-MM-DD" date as chrono parses it, or
/// none when chrono rejects the text.
pub uninterp spec fn iso_date_midnight(s: Seq<char>) -> Option<i64>;

/// `chrono::NaiveDate::parse_from_str(s, "%Y-%m-%d")`, at midnight UTC, as a
/// unix timestamp; `None` where chrono rejects the text. The outcome depends on
/// `s` alone.
#[verifier::external_body]
fn parse_iso_date(s: &str) -> (res: Option<i64>)
    ensures
        res == iso_date_midnight(s@),
{
    match chrono::NaiveDate::parse_from_str(s, "%Y-%m-%d") {
        Ok(d) => Some(d.and_hms_opt(0, 0, 0).unwrap().and_utc().timestamp()),
        Err(_) => None,
    }
}

/// A resolved search request: the trimmed query, paging, and the structured
/// pre-filter.
pub struct SearchPlan {
    pub q: String,
    pub limit: usize,
    pub offset: usize,
    pub scope: Option<String>,
    pub project: Option<String>,
    pub branch: Option<String>,
    pub model: Option<String>,
    pub after: Option<i64>,
    pub before: Option<i64>,
}

impl SearchPlan {
    /// Whether any structured filter is set, so that the database narrows the
    /// session set first.
    pub fn needs_prefilter(&self) -> (res: bool)
        ensures
            res == (self.project is Some || self.branch is Some || self.model is Some
                || self.after is Some || self.before is Some),
    {
        self.project.is_some() || self.branch.is_some() || self.model.is_some()
            || self.after.is_some() || self.before.is_some()
    }
}

pub open spec fn opt_view(s: Option<String>) -> Option<Seq<char>> {
    match s {
        Some(v) => Some(v@),
        None => None,
    }
}

/// The project named by a `project:<name>` scope.
pub open spec fn scope_project(scope: Option<String>) -> Option<Seq<char>> {
    match scope {
        Some(s) => if starts_with(s@, "project:"@) {
            Some(s@.skip(8))
        } else {
            None
        },
        None => None,
    }
}

fn copy_opt(s: &Option<String>) -> (res: Option<String>)
    ensures
        opt_view(res) == opt_view(*s),
{
    match s {
        Some(v) => Some(copy_str(v.as_str())),
        None => None,
    }
}

fn parse_opt_date(s: &Option<String>) -> (res: Option<i64>)
    ensures
        res == (match s {
            Some(v) => iso_date_midnight(v@),
            None => None,
        }),
{
    match s {
        Some(v) => parse_iso_date(v.as_str()),
        None => None,
    }
}

/// Resolve a search request whose date bounds have been read as `after` and
/// `before`: `q` is required (after trimming); limit defaults to 20 and is
/// capped at 100; the project comes from `project` or else from a `project:`
/// scope.
pub fn plan_search_dated(query: &SearchQuery, after: Option<i64>, before: Option<i64>) -> (res: Result<SearchPlan, ApiError>)
    ensures
        ({
            let q = trim_seq(
                match query.q {
                    Some(q) => q@,
                    None => Seq::<char>::empty(),
                },
            );
            match res {
                Err(e) => e matches ApiError::BadRequest(m) && q.len() == 0 && m@
                    == "query parameter 'q' is required"@,
                Ok(p) => {
                    &&& q.len() > 0
                    &&& p.q@ == q
                    &&& p.limit == (match query.limit {
                        Some(l) => if l < 100 {
                            l
                        } else {
                            100
                        },
                        None => 20,
                    })
                    &&& p.offset == (match query.offset {
                        Some(o) => o,
                        None => 0,
                    })
                    &&& opt_view(p.scope) == opt_view(query.scope)
                    &&& opt_view(p.project) == (if query.project is Some {
                        opt_view(query.project)
                    } else {
                        scope_project(query.scope)
                    })
                    &&& opt_view(p.branch) == opt_view(query.branch)
                    &&& opt_view(p.model) == opt_view(query.model)
                    &&& p.after == after
                    &&& p.before == before
                },
            }
        }),
{
    let raw = match &query.q {
        Some(q) => chars_of(q.as_str()),
        None => Vec::new(),
    };
    let q = trim_chars(&raw);
    if q.len() == 0 {
        return Err(ApiError::BadRequest(copy_str("query parameter 'q' is required")));
    }
    let limit = match query.limit {
        Some(l) => if l < 100 {
            l
        } else {
            100
        },
        None => 20,
    };
    let offset = match query.offset {
        Some(o) => o,
        None => 0,
    };
    let scope_proj: Option<String> = match &query.scope {
        Some(s) => {
            let cs = chars_of(s.as_str());
            let prefix = chars_of("project:");
            proof {
                reveal_strlit("project:");
            }
            if starts_with_chars(&cs, &prefix) {
                Some(string_of(&slice_chars(&cs, prefix.len(), cs.len())))
            } else {
                None
            }
        },
        None => None,
    };
    let project = match &query.project {
        Some(p) => Some(copy_str(p.as_str())),
        None => scope_proj,
    };
    Ok(
        SearchPlan {
            q: string_of(&q),
            limit,
            offset,
            scope: copy_opt(&query.scope),
            project,
            branch: copy_opt(&query.branch),
            model: copy_opt(&query.model),
            after,
            before,
        },
    )
}

/// Resolve a search request: `q` is required (after trimming); limit defaults
/// to 20 and is capped at 100; the project comes from `project` or else from a
/// `project:` scope; dates are parsed as midnight UTC.
pub fn plan_search(query: &SearchQuery) -> (res: Result<SearchPlan, ApiError>)
    ensures
        ({
            let q = trim_seq(
                match query.q {
                    Some(q) => q@,
                    None => Seq::<char>::empty(),
                },
            );
            match res {
                Err(e) => e matches ApiError::BadRequest(m) && q.len() == 0 && m@
                    == "query parameter 'q' is required"@,
                Ok(p) => {
                    &&& q.len() > 0
                    &&& p.q@ == q
                    &&& p.limit == (match query.limit {
                        Some(l) => if l < 100 {
                            l
                        } else {
                            100
                        },
                        None => 20,
                    })
                    &&& p.offset == (match query.offset {
                        Some(o) => o,
                        None => 0,
                    })
                    &&& opt_view(p.scope) == opt_view(query.scope)
                    &&& opt_view(p.project) == (if query.project is Some {
                        opt_view(query.project)
                    } else {
                        scope_project(query.scope)
                    })
                    &&& opt_view(p.branch) == opt_view(query.branch)
                    &&& opt_view(p.model) == opt_view(query.model)
                    &&& p.after == (match query.after {
                        Some(a) => iso_date_midnight(a@),
                        None => None,
                    })
                    &&& p.before == (match query.before {
                        Some(b) => iso_date_midnight(b@),
                        None => None,
                    })
                },
            }
        }),
{
    let after = parse_opt_date(&query.after);
    let before = parse_opt_date(&query.before);
    plan_search_dated(query, after, before)
}

} // verus!
