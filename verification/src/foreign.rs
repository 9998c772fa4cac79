//! Sessions of other agents in the session list: which ones a list request
//! keeps, and which message format they serve.
use vstd::prelude::*;

use crate::error::ApiError;
use crate::sessions::{SessionMessagesQuery, SessionsListQuery};
use crate::text::{
    chars_of, concat3, contains_chars, copy_str, has_infix, lower_chars, lowercase, str_is,
    string_of, trim_chars, trim_seq, views_of,
};

verus! {

/// What the list filter reads of another agent's session file.
pub struct ForeignRow {
    /// Id of the agent that wrote it.
    pub provider_id: String,
    /// Modification time, unix seconds.
    pub mtime: i64,
}

/// The texts the list search reads of another agent's session.
pub struct ForeignText {
    pub title: Option<String>,
    pub first_message: String,
    pub project: String,
}

/// The filters a list request applies to other agents' sessions.
pub struct ForeignFilter {
    /// Provider ids to keep, when the request names any.
    pub providers: Option<Vec<String>>,
    pub time_after: Option<i64>,
    pub time_before: Option<i64>,
    /// The lowercased search text, when the request has one.
    pub needle: Option<Vec<char>>,
}

/// The search text of a request: `q` trimmed, then lowercased, when trimming
/// leaves any text.
pub open spec fn foreign_needle(q: Option<String>) -> Option<Seq<char>> {
    match q {
        Some(t) => if trim_seq(t@).len() > 0 {
            Some(lowercase(trim_seq(t@)))
        } else {
            None
        },
        None => None,
    }
}

/// The filters for other agents' sessions, or `None` when a project filter is
/// set (project ids of the native pipeline do not address other agents'
/// projects, so none of their sessions is listed).
pub fn foreign_filter(query: &SessionsListQuery, providers: Option<Vec<String>>) -> (res: Option<ForeignFilter>)
    ensures
        query.project is Some <==> res is None,
        res matches Some(f) ==> {
            &&& f.providers == providers
            &&& f.time_after == query.time_after
            &&& f.time_before == query.time_before
            &&& match (f.needle, foreign_needle(query.q)) {
                (Some(n), Some(t)) => n@ == t,
                (None, None) => true,
                _ => false,
            }
        },
{
    if query.project.is_some() {
        return None;
    }
    let needle = match &query.q {
        Some(t) => {
            let tr = trim_chars(&chars_of(t.as_str()));
            if tr.len() > 0 {
                let s = string_of(&tr);
                Some(lower_chars(s.as_str()))
            } else {
                None
            }
        },
        None => None,
    };
    Some(
        ForeignFilter {
            providers,
            time_after: query.time_after,
            time_before: query.time_before,
            needle,
        },
    )
}

/// The file passes the provider and time filters (checked before its
/// metadata is read).
pub open spec fn row_kept(f: ForeignFilter, row: ForeignRow) -> bool {
    &&& (f.providers matches Some(ps) ==> views_of(ps@).contains(row.provider_id@))
    &&& (f.time_after matches Some(a) ==> row.mtime >= a)
    &&& (f.time_before matches Some(b) ==> row.mtime <= b)
}

/// Whether the file passes the provider and time filters.
pub fn foreign_row_kept(f: &ForeignFilter, row: &ForeignRow) -> (res: bool)
    ensures
        res == row_kept(*f, *row),
{
    match &f.providers {
        Some(ps) => {
            let mut found = false;
            let mut i: usize = 0;
            while i < ps.len()
                invariant
                    i <= ps@.len(),
                    found <==> exists|j: int| 0 <= j < i && #[trigger] ps@[j]@ == row.provider_id@,
                decreases ps@.len() - i,
            {
                if str_is(ps[i].as_str(), row.provider_id.as_str()) {
                    found = true;
                }
                i = i + 1;
            }
            proof {
                if found {
                    let j = choose|j: int| 0 <= j < ps@.len() && #[trigger] ps@[j]@ == row.provider_id@;
                    assert(views_of(ps@)[j] == row.provider_id@);
                }
                if views_of(ps@).contains(row.provider_id@) {
                    let j = choose|j: int| 0 <= j < views_of(ps@).len() && views_of(ps@)[j] == row.provider_id@;
                    assert(ps@[j]@ == row.provider_id@);
                }
            }
            if !found {
                return false;
            }
        },
        None => {},
    }
    match f.time_after {
        Some(a) => {
            if row.mtime < a {
                return false;
            }
        },
        None => {},
    }
    match f.time_before {
        Some(b) => {
            if row.mtime > b {
                return false;
            }
        },
        None => {},
    }
    true
}

/// The text the search looks in: title (or nothing), first message and
/// project, separated by spaces.
pub open spec fn haystack(t: ForeignText) -> Seq<char> {
    (match t.title {
        Some(x) => x@,
        None => Seq::empty(),
    }) + " "@ + t.first_message@ + " "@ + t.project@
}

/// The session matches the search text: its lowercased haystack contains it.
pub open spec fn text_kept(f: ForeignFilter, t: ForeignText) -> bool {
    f.needle matches Some(n) ==> has_infix(lowercase(haystack(t)), n@)
}

/// Whether the session's texts match the request's search text.
pub fn foreign_text_kept(f: &ForeignFilter, t: &ForeignText) -> (res: bool)
    ensures
        res == text_kept(*f, *t),
{
    match &f.needle {
        Some(n) => {
            let title = match &t.title {
                Some(x) => copy_str(x.as_str()),
                None => String::new(),
            };
            let head = concat3(title.as_str(), " ", t.first_message.as_str());
            let hay = concat3(head.as_str(), " ", t.project.as_str());
            contains_chars(&lower_chars(hay.as_str()), n)
        },
        None => true,
    }
}

/// Messages of other agents' sessions come only in block format.
pub fn check_foreign_format(query: &SessionMessagesQuery) -> (res: Result<(), ApiError>)
    ensures
        res is Ok <==> (query.format matches Some(f) && f@ == "block"@),
        res matches Err(e) ==> e matches ApiError::BadRequest(m) && m@
            == "foreign sessions support format=block only"@,
{
    match &query.format {
        Some(f) => {
            if str_is(f.as_str(), "block") {
                return Ok(());
            }
        },
        None => {},
    }
    Err(ApiError::BadRequest(copy_str("foreign sessions support format=block only")))
}

} // verus!
