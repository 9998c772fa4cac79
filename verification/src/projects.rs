//! Project listings: ids, display names and per-project paging.
use vstd::prelude::*;

use crate::order::{sort_desc_stable, stable_sorted_desc};
use crate::text::copy_str;

verus! {

/// Query parameters of a project's session page.
pub struct SessionsQuery {
    pub limit: i64,
    pub offset: i64,
    pub sort: String,
    /// Accepted for compatibility; not applied.
    pub branch: Option<String>,
    /// Accepted for compatibility; not applied.
    pub include_sidechains: bool,
}

/// Default page size of a project's sessions.
pub fn default_limit() -> (res: i64)
    ensures
        res == 50,
{
    50
}

/// Default order of a project's sessions.
pub fn default_sort() -> (res: String)
    ensures
        res@ == "recent"@,
{
    copy_str("recent")
}

/// Default page size of the session list.
pub fn default_list_limit() -> (res: usize)
    ensures
        res == 50,
{
    50
}

/// Project ids are filesystem-encoded (`/`, `@`, `.` all become `-`), so the
/// decoding is lossy: the encoded id serves as the path.
pub fn project_path_from_id(project_id: &str) -> (res: String)
    ensures
        res@ == project_id@,
{
    copy_str(project_id)
}

/// Display name for an encoded project id: the id itself.
pub fn display_name_from_project(project_id: &str) -> (res: String)
    ensures
        res@ == project_id@,
{
    copy_str(project_id)
}

/// Paging of a project's sessions: negative offsets count as 0 and limits
/// below 1 as 1.
pub fn project_page_bounds(offset: i64, limit: i64) -> (res: (usize, usize))
    ensures
        res.0 == (if offset < 0 {
            0
        } else {
            offset
        }) as usize,
        res.1 == (if limit < 1 {
            1
        } else {
            limit
        }) as usize,
{
    let o = if offset < 0 {
        0
    } else {
        offset
    };
    let l = if limit < 1 {
        1
    } else {
        limit
    };
    (o as usize, l as usize)
}

/// The sort of a project's sessions is oldest-first only when asked for.
pub fn project_sort_oldest_first(sort: &str) -> (res: bool)
    ensures
        res == (sort@ == "oldest"@),
{
    crate::text::str_is(sort, "oldest")
}

/// A project as the project list shows it.
pub struct ProjectSummary {
    pub name: String,
    pub display_name: String,
    pub path: String,
    pub session_count: usize,
    pub active_count: usize,
    pub last_activity_at: Option<i64>,
    pub is_archived: bool,
}

/// A project of the session catalogue: its id, number of sessions, and the
/// modification time of its most recent session, if it has one.
pub struct ProjectActivity {
    pub project_id: String,
    pub session_count: usize,
    pub last_activity_at: Option<i64>,
}

/// The summary of one project: named by its id, which also serves as its
/// display name and path; no session counts as active or archived.
pub open spec fn summary_of(a: ProjectActivity, s: ProjectSummary) -> bool {
    &&& s.name@ == a.project_id@
    &&& s.display_name@ == a.project_id@
    &&& s.path@ == a.project_id@
    &&& s.session_count == a.session_count
    &&& s.active_count == 0
    &&& s.last_activity_at == a.last_activity_at
    &&& !s.is_archived
}

/// Order key of a summary: its last activity, 0 when it has none.
pub open spec fn activity_key(s: ProjectSummary) -> int {
    match s.last_activity_at {
        Some(t) => t as int,
        None => 0,
    }
}

/// The order of the project list.
pub open spec fn activity_order() -> spec_fn(ProjectSummary) -> int {
    |s: ProjectSummary| activity_key(s)
}

/// `u` holds the summaries of `ps`, one for each, in the same order.
pub open spec fn summaries_of(ps: Seq<ProjectActivity>, u: Seq<ProjectSummary>) -> bool {
    u.len() == ps.len() && forall|i: int| 0 <= i < u.len() ==> summary_of(#[trigger] ps[i], u[i])
}

/// The project list: one summary per project, most recently active first.
pub fn project_summaries(projects: &Vec<ProjectActivity>) -> (res: Vec<ProjectSummary>)
    ensures
        exists|u: Seq<ProjectSummary>| #[trigger] summaries_of(projects@, u) && stable_sorted_desc(u, res@, activity_order()),
{
    let mut unsorted: Vec<ProjectSummary> = Vec::new();
    let mut i: usize = 0;
    while i < projects.len()
        invariant
            i <= projects@.len(),
            unsorted@.len() == i,
            forall|k: int| 0 <= k < i ==> summary_of(#[trigger] projects@[k], unsorted@[k]),
        decreases projects@.len() - i,
    {
        let a = &projects[i];
        unsorted.push(
            ProjectSummary {
                name: copy_str(a.project_id.as_str()),
                display_name: display_name_from_project(a.project_id.as_str()),
                path: project_path_from_id(a.project_id.as_str()),
                session_count: a.session_count,
                active_count: 0,
                last_activity_at: a.last_activity_at,
                is_archived: false,
            },
        );
        i = i + 1;
    }
    let ghost u = unsorted@;
    let key = |s: &ProjectSummary| -> (k: i128)
        ensures
            k == activity_key(*s),
    {
        match s.last_activity_at {
            Some(t) => t as i128,
            None => 0,
        }
    };
    let res = sort_desc_stable(unsorted, key, Ghost(activity_order()));
    assert(summaries_of(projects@, u));
    res
}

} // verus!
