//! The context digest a report is written from: the range's sessions grouped
//! by project and branch, with per-project totals.
use vstd::prelude::*;

use crate::catalog::{find_entry, lookup_entry};
use crate::dates::{decimal, decimal_string};
use crate::order::{
    key_is, lemma_counts_add_up, lemma_sorted_sum, no_repeats, sort_desc_stable, stable_sorted_desc,
    sum_by_names, sum_of,
};
use crate::reports::report_date_range;
use crate::text::{concat3, copy_str, str_is, views_of};

verus! {

broadcast use vstd::seq_lib::group_seq_properties;

/// A session of the report's range as the database lists it.
pub struct DigestRow {
    pub id: String,
    pub project: String,
    pub preview: String,
    pub category: Option<String>,
    pub duration_secs: i64,
    pub branch: Option<String>,
}

/// One session in the digest.
pub struct SessionDigest {
    pub first_prompt: String,
    pub category: Option<String>,
    pub duration_secs: i64,
}

/// The sessions of one branch of a project.
pub struct BranchDigest {
    pub name: String,
    pub sessions: Vec<SessionDigest>,
}

/// One project with its totals and branches.
pub struct ProjectDigest {
    pub name: String,
    pub session_count: usize,
    pub commit_count: usize,
    pub total_duration_secs: i64,
    pub branches: Vec<BranchDigest>,
}

/// What a report is written from.
pub struct ContextDigest {
    pub report_type: String,
    pub date_range: String,
    pub projects: Vec<ProjectDigest>,
    pub top_tools: Vec<String>,
    pub top_skills: Vec<String>,
    pub summary_line: String,
    pub total_input_tokens: u64,
    pub total_output_tokens: u64,
}

/// The items of `s` in order of first appearance, each once.
pub open spec fn firsts(s: Seq<Seq<char>>) -> Seq<Seq<char>>
    decreases s.len(),
{
    if s.len() == 0 {
        s
    } else {
        let f = firsts(s.drop_last());
        if f.contains(s.last()) {
            f
        } else {
            f.push(s.last())
        }
    }
}

/// Whether `x` is among the texts of `v`.
fn contains_text(v: &Vec<String>, x: &str) -> (res: bool)
    ensures
        res == views_of(v@).contains(x@),
{
    let mut i: usize = 0;
    while i < v.len()
        invariant
            i <= v@.len(),
            forall|j: int| 0 <= j < i ==> #[trigger] v@[j]@ != x@,
        decreases v@.len() - i,
    {
        if str_is(v[i].as_str(), x) {
            assert(views_of(v@)[i as int] == x@);
            return true;
        }
        i = i + 1;
    }
    proof {
        assert forall|j: int| 0 <= j < views_of(v@).len() implies views_of(v@)[j] != x@ by {
            assert(views_of(v@)[j] == v@[j]@);
        }
    }
    false
}

/// The texts of `v` in order of first appearance, each once.
pub fn distinct_texts(v: &Vec<String>) -> (res: Vec<String>)
    ensures
        views_of(res@) == firsts(views_of(v@)),
{
    let mut res: Vec<String> = Vec::new();
    let mut i: usize = 0;
    while i < v.len()
        invariant
            i <= v@.len(),
            views_of(res@) == firsts(views_of(v@).take(i as int)),
        decreases v@.len() - i,
    {
        proof {
            let t = views_of(v@).take(i + 1);
            assert(t.drop_last() =~= views_of(v@).take(i as int));
            assert(t.last() == v@[i as int]@);
        }
        if !contains_text(&res, v[i].as_str()) {
            let ghost old_res = res@;
            res.push(v[i].clone());
            assert(views_of(res@) =~= views_of(old_res).push(v@[i as int]@));
        }
        i = i + 1;
    }
    assert(views_of(v@).take(v@.len() as int) =~= views_of(v@));
    res
}

/// Branch label of a session: its branch, or "(no branch)".
pub open spec fn row_branch(r: DigestRow) -> Seq<char> {
    match r.branch {
        Some(b) => b@,
        None => "(no branch)"@,
    }
}

/// The project of each session.
pub open spec fn row_project() -> spec_fn(DigestRow) -> Seq<char> {
    |r: DigestRow| r.project@
}

/// Sessions of project `p`.
pub open spec fn in_project(p: Seq<char>) -> spec_fn(DigestRow) -> bool {
    key_is(row_project(), p)
}

/// Sessions on branch `b`.
pub open spec fn on_branch(b: Seq<char>) -> spec_fn(DigestRow) -> bool {
    |r: DigestRow| row_branch(r) == b
}

/// Total duration of `rows`.
pub open spec fn duration_sum(rows: Seq<DigestRow>) -> int
    decreases rows.len(),
{
    if rows.len() == 0 {
        0
    } else {
        duration_sum(rows.drop_last()) + rows.last().duration_secs
    }
}

/// `d` is the digest of session `r`.
pub open spec fn session_from(d: SessionDigest, r: DigestRow) -> bool {
    d.first_prompt == r.preview && d.category == r.category && d.duration_secs == r.duration_secs
}

/// `bd` is branch `b` of a project whose sessions are `prow`.
pub open spec fn branch_from(bd: BranchDigest, b: Seq<char>, prow: Seq<DigestRow>) -> bool {
    let on = prow.filter(on_branch(b));
    &&& bd.name@ == b
    &&& bd.sessions@.len() == on.len()
    &&& forall|j: int| 0 <= j < on.len() ==> session_from(#[trigger] bd.sessions@[j], on[j])
}

/// Commit count of project `p`: that of the last commit row for it, as an
/// unsigned count, or 0.
pub open spec fn commits_of(commits: Seq<(String, i64)>, p: Seq<char>) -> usize {
    match lookup_entry(commits, p) {
        Some(c) => c as usize,
        None => 0,
    }
}

/// `pd` is the digest of project `p`: its sessions, commits, total duration,
/// and branches in order of first appearance.
pub open spec fn project_from(
    pd: ProjectDigest,
    p: Seq<char>,
    rows: Seq<DigestRow>,
    commits: Seq<(String, i64)>,
) -> bool {
    let prow = rows.filter(in_project(p));
    let bnames = firsts(prow.map_values(|r: DigestRow| row_branch(r)));
    &&& pd.name@ == p
    &&& pd.session_count == prow.len()
    &&& pd.commit_count == commits_of(commits, p)
    &&& pd.total_duration_secs == duration_sum(prow)
    &&& pd.branches@.len() == bnames.len()
    &&& forall|j: int| 0 <= j < bnames.len() ==> branch_from(#[trigger] pd.branches@[j], bnames[j], prow)
}

/// Every project's running duration total, taken in row order, fits in an `i64`.
pub open spec fn durations_fit(rows: Seq<DigestRow>) -> bool {
    forall|p: Seq<char>, i: int|
        0 <= i <= rows.len() ==> i64::MIN <= #[trigger] duration_sum(rows.take(i).filter(in_project(p)))
            <= i64::MAX
}

fn copy_opt(o: &Option<String>) -> (res: Option<String>)
    ensures
        res == *o,
{
    match o {
        Some(s) => Some(s.clone()),
        None => None,
    }
}

fn branch_label(r: &DigestRow) -> (res: String)
    ensures
        res@ == row_branch(*r),
{
    proof {
        reveal_strlit("(no branch)");
    }
    match &r.branch {
        Some(b) => b.clone(),
        None => copy_str("(no branch)"),
    }
}

/// The sessions of project `p` on branch `b`.
fn branch_digest(b: &String, p: &str, rows: &Vec<DigestRow>) -> (bd: BranchDigest)
    ensures
        branch_from(bd, b@, rows@.filter(in_project(p@))),
{
    let ghost fp = in_project(p@);
    let ghost fb = on_branch(b@);
    let mut sessions: Vec<SessionDigest> = Vec::new();
    let mut i: usize = 0;
    while i < rows.len()
        invariant
            i <= rows@.len(),
            fp == in_project(p@),
            fb == on_branch(b@),
            sessions@.len() == rows@.take(i as int).filter(fp).filter(fb).len(),
            forall|j: int|
                0 <= j < sessions@.len() ==> session_from(
                    #[trigger] sessions@[j],
                    rows@.take(i as int).filter(fp).filter(fb)[j],
                ),
        decreases rows@.len() - i,
    {
        let r = &rows[i];
        proof {
            assert(rows@.take(i + 1) =~= rows@.take(i as int).push(*r));
            rows@.take(i as int).lemma_filter_push(*r, fp);
            rows@.take(i as int).filter(fp).lemma_filter_push(*r, fb);
        }
        if str_is(r.project.as_str(), p) {
            let label = branch_label(r);
            if str_is(label.as_str(), b.as_str()) {
                let ghost old_s = sessions@;
                sessions.push(
                    SessionDigest {
                        first_prompt: r.preview.clone(),
                        category: copy_opt(&r.category),
                        duration_secs: r.duration_secs,
                    },
                );
                proof {
                    assert forall|j: int| 0 <= j < sessions@.len() implies session_from(
                        #[trigger] sessions@[j],
                        rows@.take(i + 1).filter(fp).filter(fb)[j],
                    ) by {
                        if j < old_s.len() {
                            assert(sessions@[j] == old_s[j]);
                        }
                    }
                }
            }
        }
        i = i + 1;
    }
    assert(rows@.take(rows@.len() as int) =~= rows@);
    BranchDigest { name: b.clone(), sessions }
}

/// The digest of project `p`.
fn project_digest(p: &String, rows: &Vec<DigestRow>, commits: &Vec<(String, i64)>) -> (pd: ProjectDigest)
    requires
        durations_fit(rows@),
    ensures
        project_from(pd, p@, rows@, commits@),
{
    let ghost fp = in_project(p@);
    let ghost lab = |r: DigestRow| row_branch(r);
    let mut count: usize = 0;
    let mut total: i64 = 0;
    let mut labels: Vec<String> = Vec::new();
    let mut i: usize = 0;
    while i < rows.len()
        invariant
            i <= rows@.len(),
            durations_fit(rows@),
            fp == in_project(p@),
            lab == (|r: DigestRow| row_branch(r)),
            count == rows@.take(i as int).filter(fp).len(),
            count <= i,
            total == duration_sum(rows@.take(i as int).filter(fp)),
            views_of(labels@) == rows@.take(i as int).filter(fp).map_values(lab),
        decreases rows@.len() - i,
    {
        let r = &rows[i];
        let ghost before = rows@.take(i as int).filter(fp);
        proof {
            assert(rows@.take(i + 1) =~= rows@.take(i as int).push(*r));
            rows@.take(i as int).lemma_filter_push(*r, fp);
        }
        if str_is(r.project.as_str(), p.as_str()) {
            proof {
                let after = before.push(*r);
                assert(after.drop_last() =~= before);
                assert(duration_sum(after) == total + r.duration_secs);
                assert(i64::MIN <= duration_sum(rows@.take(i + 1).filter(in_project(p@))) <= i64::MAX);
            }
            count = count + 1;
            total = total + r.duration_secs;
            let ghost old_l = labels@;
            labels.push(branch_label(r));
            proof {
                assert(views_of(labels@) =~= views_of(old_l).push(lab(*r)));
                assert(before.push(*r).map_values(lab) =~= before.map_values(lab).push(lab(*r)));
            }
        }
        i = i + 1;
    }
    assert(rows@.take(rows@.len() as int) =~= rows@);
    let names = distinct_texts(&labels);
    let mut branches: Vec<BranchDigest> = Vec::new();
    let mut k: usize = 0;
    while k < names.len()
        invariant
            k <= names@.len(),
            branches@.len() == k,
            forall|j: int|
                0 <= j < k ==> branch_from(#[trigger] branches@[j], names@[j]@, rows@.filter(in_project(p@))),
        decreases names@.len() - k,
    {
        branches.push(branch_digest(&names[k], p.as_str(), rows));
        k = k + 1;
    }
    let commit_count: usize = match find_entry(commits, p.as_str()) {
        Some(j) => commits[j].1 as usize,
        None => 0,
    };
    let pd = ProjectDigest {
        name: p.clone(),
        session_count: count,
        commit_count,
        total_duration_secs: total,
        branches,
    };
    proof {
        let bnames = firsts(rows@.filter(in_project(p@)).map_values(|r: DigestRow| row_branch(r)));
        assert(views_of(names@) == bnames);
        assert forall|j: int| 0 <= j < bnames.len() implies branch_from(
            #[trigger] pd.branches@[j],
            bnames[j],
            rows@.filter(in_project(p@)),
        ) by {
            assert(views_of(names@)[j] == names@[j]@);
        }
    }
    pd
}

/// Sort key of a project: its number of sessions.
pub open spec fn project_key(d: ProjectDigest) -> int {
    d.session_count as int
}

/// The projects of `rows` in order of first appearance.
pub open spec fn project_names(rows: Seq<DigestRow>) -> Seq<Seq<char>> {
    firsts(rows.map_values(|r: DigestRow| r.project@))
}

/// `res` holds the digests of the projects of `rows`, most sessions first
/// (ties in order of first appearance).
pub open spec fn projects_grouped(res: Seq<ProjectDigest>, rows: Seq<DigestRow>, commits: Seq<(String, i64)>) -> bool {
    exists|u: Seq<ProjectDigest>|
        #[trigger] project_list_from(u, rows, commits) && stable_sorted_desc(
            u,
            res,
            |d: ProjectDigest| project_key(d),
        )
}

/// `u` holds the digests of the projects of `rows` in order of first appearance.
pub open spec fn project_list_from(u: Seq<ProjectDigest>, rows: Seq<DigestRow>, commits: Seq<(String, i64)>) -> bool {
    &&& u.len() == project_names(rows).len()
    &&& forall|k: int| 0 <= k < u.len() ==> project_from(#[trigger] u[k], project_names(rows)[k], rows, commits)
}

/// Groups the range's sessions into project digests.
pub fn group_projects(rows: &Vec<DigestRow>, commits: &Vec<(String, i64)>) -> (res: Vec<ProjectDigest>)
    requires
        durations_fit(rows@),
    ensures
        projects_grouped(res@, rows@, commits@),
        res@.len() == project_names(rows@).len(),
{
    let mut projects: Vec<String> = Vec::new();
    let mut i: usize = 0;
    while i < rows.len()
        invariant
            i <= rows@.len(),
            views_of(projects@) == rows@.take(i as int).map_values(|r: DigestRow| r.project@),
        decreases rows@.len() - i,
    {
        let ghost old_p = projects@;
        projects.push(rows[i].project.clone());
        proof {
            assert(views_of(projects@) =~= views_of(old_p).push(rows@[i as int].project@));
            assert(rows@.take(i + 1).map_values(|r: DigestRow| r.project@) =~= rows@.take(
                i as int,
            ).map_values(|r: DigestRow| r.project@).push(rows@[i as int].project@));
        }
        i = i + 1;
    }
    assert(rows@.take(rows@.len() as int) =~= rows@);
    let names = distinct_texts(&projects);
    let mut digests: Vec<ProjectDigest> = Vec::new();
    let mut k: usize = 0;
    while k < names.len()
        invariant
            durations_fit(rows@),
            views_of(names@) == project_names(rows@),
            k <= names@.len(),
            digests@.len() == k,
            forall|j: int| 0 <= j < k ==> project_from(#[trigger] digests@[j], names@[j]@, rows@, commits@),
        decreases names@.len() - k,
    {
        digests.push(project_digest(&names[k], rows, commits));
        k = k + 1;
    }
    let ghost u = digests@;
    proof {
        assert forall|j: int| 0 <= j < u.len() implies project_from(
            #[trigger] u[j],
            project_names(rows@)[j],
            rows@,
            commits@,
        ) by {
            assert(views_of(names@)[j] == names@[j]@);
        }
    }
    let key = |d: &ProjectDigest| -> (n: i128)
        ensures
            n == project_key(*d),
    { d.session_count as i128 };
    let res = sort_desc_stable(digests, key, Ghost(|d: ProjectDigest| project_key(d)));
    assert(project_list_from(u, rows@, commits@) && stable_sorted_desc(u, res@, |d: ProjectDigest| project_key(d)));
    res
}

/// The empty digest (no sessions in range).
pub open spec fn empty_digest(d: ContextDigest) -> bool {
    &&& d.report_type@.len() == 0
    &&& d.date_range@.len() == 0
    &&& d.projects@.len() == 0
    &&& d.top_tools@.len() == 0
    &&& d.top_skills@.len() == 0
    &&& d.summary_line@.len() == 0
    &&& d.total_input_tokens == 0
    &&& d.total_output_tokens == 0
}

/// The digest a report of type `report_type` over `date_start`..`date_end` is
/// written from: empty when the range has no sessions; else the sessions
/// grouped by project and branch, the top tools and skills, a summary line
/// "<sessions> sessions across <projects> projects", and the token totals.
pub fn build_digest(
    report_type: &str,
    date_start: &str,
    date_end: &str,
    rows: &Vec<DigestRow>,
    commits: &Vec<(String, i64)>,
    top_tools: Vec<String>,
    top_skills: Vec<String>,
    input_tokens: i64,
    output_tokens: i64,
) -> (res: ContextDigest)
    requires
        durations_fit(rows@),
    ensures
        rows@.len() == 0 ==> empty_digest(res),
        rows@.len() > 0 ==> {
            &&& res.report_type@ == report_type@
            &&& res.date_range@ == (if date_start@ == date_end@ {
                date_start@
            } else {
                date_start@ + " to "@ + date_end@
            })
            &&& projects_grouped(res.projects@, rows@, commits@)
            &&& res.top_tools == top_tools
            &&& res.top_skills == top_skills
            &&& res.summary_line@ == decimal(rows@.len()) + " sessions across "@ + decimal(
                project_names(rows@).len(),
            ) + " projects"@
            &&& res.total_input_tokens == input_tokens as u64
            &&& res.total_output_tokens == output_tokens as u64
        },
{
    if rows.len() == 0 {
        return ContextDigest {
            report_type: String::new(),
            date_range: String::new(),
            projects: Vec::new(),
            top_tools: Vec::new(),
            top_skills: Vec::new(),
            summary_line: String::new(),
            total_input_tokens: 0,
            total_output_tokens: 0,
        };
    }
    let projects = group_projects(rows, commits);
    let n_sessions = decimal_string(rows.len() as u64);
    let n_projects = decimal_string(projects.len() as u64);
    let head = concat3(n_sessions.as_str(), " sessions across ", n_projects.as_str());
    let summary = concat3(head.as_str(), " projects", "");
    proof {
        reveal_strlit("");
    }
    ContextDigest {
        report_type: copy_str(report_type),
        date_range: report_date_range(date_start, date_end),
        projects,
        top_tools,
        top_skills,
        summary_line: summary,
        total_input_tokens: input_tokens as u64,
        total_output_tokens: output_tokens as u64,
    }
}

// ---------------------------------------------------------------------------
// Laws
// ---------------------------------------------------------------------------

/// `firsts` lists each item once, and exactly the items of `s`.
pub proof fn lemma_firsts(s: Seq<Seq<char>>)
    ensures
        no_repeats(firsts(s)),
        forall|x: Seq<char>| #[trigger] firsts(s).contains(x) <==> s.contains(x),
    decreases s.len(),
{
    if s.len() > 0 {
        let d = s.drop_last();
        lemma_firsts(d);
        let f = firsts(d);
        assert forall|x: Seq<char>| #[trigger] firsts(s).contains(x) <==> s.contains(x) by {
            if s.contains(x) {
                let i = choose|i: int| 0 <= i < s.len() && s[i] == x;
                if i < d.len() {
                    assert(d[i] == x);
                    assert(d.contains(x));
                    assert(f.contains(x));
                    if !f.contains(s.last()) {
                        let k = choose|k: int| 0 <= k < f.len() && f[k] == x;
                        assert(f.push(s.last())[k] == x);
                    }
                } else if f.contains(s.last()) {
                    assert(f.contains(x));
                } else {
                    assert(f.push(s.last())[f.len() as int] == x);
                }
            }
            if firsts(s).contains(x) {
                if f.contains(s.last()) {
                    assert(f.contains(x));
                    assert(d.contains(x));
                    let i = choose|i: int| 0 <= i < d.len() && d[i] == x;
                    assert(s[i] == x);
                } else {
                    let k = choose|k: int| 0 <= k < f.push(s.last()).len() && f.push(s.last())[k] == x;
                    if k < f.len() {
                        assert(f[k] == x);
                        assert(d.contains(x));
                        let i = choose|i: int| 0 <= i < d.len() && d[i] == x;
                        assert(s[i] == x);
                    } else {
                        assert(s[s.len() - 1] == x);
                    }
                }
            }
        }
        if !f.contains(s.last()) {
            assert forall|i: int, j: int| 0 <= i < j < f.push(s.last()).len() implies f.push(s.last())[i]
                != f.push(s.last())[j] by {
                if j == f.len() {
                    assert(f[i] != s.last());
                }
            }
        }
    }
}

/// Sessions counted over a list of project digests.
pub open spec fn session_total(ps: Seq<ProjectDigest>) -> int {
    sum_of(ps, |d: ProjectDigest| d.session_count as int)
}

proof fn lemma_session_total_sum(u: Seq<ProjectDigest>, names: Seq<Seq<char>>, rows: Seq<DigestRow>)
    requires
        u.len() == names.len(),
        forall|k: int| 0 <= k < u.len() ==> #[trigger] u[k].session_count == rows.filter(in_project(names[k])).len(),
    ensures
        session_total(u) == sum_by_names(rows, row_project(), names),
    decreases u.len(),
{
    if u.len() > 0 {
        let d = u.drop_last();
        let dn = names.drop_last();
        assert forall|k: int| 0 <= k < d.len() implies #[trigger] d[k].session_count == rows.filter(in_project(dn[k])).len() by {
            assert(d[k] == u[k] && dn[k] == names[k]);
        }
        lemma_session_total_sum(d, dn, rows);
        assert(u[u.len() - 1].session_count == rows.filter(in_project(names[u.len() - 1])).len());
    }
}

/// The projects of a digest account for every session once: their session
/// counts add up to the number of sessions in the range.
pub proof fn law_project_sessions_add_up(res: Seq<ProjectDigest>, rows: Seq<DigestRow>, commits: Seq<(String, i64)>)
    requires
        projects_grouped(res, rows, commits),
    ensures
        session_total(res) == rows.len(),
{
    let u = choose|u: Seq<ProjectDigest>|
        #[trigger] project_list_from(u, rows, commits) && stable_sorted_desc(
            u,
            res,
            |d: ProjectDigest| project_key(d),
        );
    lemma_sorted_sum(u, res, |d: ProjectDigest| project_key(d), |d: ProjectDigest| d.session_count as int);
    let names = project_names(rows);
    let projs = rows.map_values(|r: DigestRow| r.project@);
    lemma_firsts(projs);
    assert forall|k: int| 0 <= k < u.len() implies #[trigger] u[k].session_count == rows.filter(in_project(names[k])).len() by {
        assert(project_from(u[k], names[k], rows, commits));
    }
    lemma_session_total_sum(u, names, rows);
    assert forall|i: int| 0 <= i < rows.len() implies names.contains(row_project()(#[trigger] rows[i])) by {
        assert(projs[i] == rows[i].project@);
        assert(projs.contains(rows[i].project@));
    }
    lemma_counts_add_up(rows, row_project(), names);
}

} // verus!
