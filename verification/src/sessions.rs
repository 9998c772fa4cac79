//! Session list, detail and message request logic.
use vstd::prelude::*;

use crate::error::ApiError;
use crate::order::{keep_where, sort_desc_stable, stable_sorted_desc};
use crate::dates::{day_of, utc_day_text};
use crate::text::{
    chars_of, concat3, copy_str, push_str, lemma_split_nonempty, lower_chars, lowercase, split_chars,
    lex_lt, sorted_distinct, split_on, str_is, string_of, trim_chars, trim_seq, views_of,
};

verus! {

broadcast use vstd::seq_lib::group_seq_properties;

// ---------------------------------------------------------------------------
// Archive request/response types
// ---------------------------------------------------------------------------

/// Request body for bulk archive and unarchive.
pub struct BulkArchiveRequest {
    pub ids: Vec<String>,
}

/// Response of a single archive or unarchive.
pub struct ArchiveResponse {
    pub archived: bool,
}

/// Response of a bulk archive or unarchive.
pub struct BulkArchiveResponse {
    pub archived_count: usize,
}

// ---------------------------------------------------------------------------
// Query types
// ---------------------------------------------------------------------------

/// Query parameters for the session list.
pub struct SessionsListQuery {
    /// Filter: all (default), has_commits, high_reedit, long_session.
    pub filter: Option<String>,
    /// Sort: recent (default), tokens, prompts, files_edited, duration.
    pub sort: Option<String>,
    /// Pagination limit (default 30).
    pub limit: Option<i64>,
    /// Pagination offset (default 0).
    pub offset: Option<i64>,
    /// Text search across preview, last message, project name.
    pub q: Option<String>,
    /// Comma-separated list of branches to filter by.
    pub branches: Option<String>,
    /// Comma-separated list of models to filter by.
    pub models: Option<String>,
    /// Sessions with commits (true) or without (false).
    pub has_commits: Option<bool>,
    /// Sessions with skills (true) or without (false).
    pub has_skills: Option<bool>,
    /// Minimum duration in seconds.
    pub min_duration: Option<i64>,
    /// Minimum number of files read or edited.
    pub min_files: Option<i64>,
    /// Minimum total tokens (input + output).
    pub min_tokens: Option<i64>,
    /// Sessions with a high re-edit rate.
    pub high_reedit: Option<bool>,
    /// Sessions after this timestamp (unix seconds).
    pub time_after: Option<i64>,
    /// Sessions before this timestamp (unix seconds).
    pub time_before: Option<i64>,
    /// Project filter.
    pub project: Option<String>,
    /// Show archived sessions instead of live ones.
    pub show_archived: Option<bool>,
}

/// Query parameters for paginated session messages.
pub struct SessionMessagesQuery {
    pub limit: Option<usize>,
    pub offset: Option<usize>,
    pub raw: bool,
    /// "block" selects conversation blocks, otherwise legacy messages.
    pub format: Option<String>,
}

/// Request body for cost estimation.
pub struct EstimateRequest {
    pub session_id: String,
    pub model: Option<String>,
}

/// Query parameters for the sparkline activity histogram.
pub struct SparklineActivityParams {
    pub time_after: Option<i64>,
    pub time_before: Option<i64>,
}

/// Query parameters for the rich activity endpoint.
pub struct RichActivityParams {
    pub time_after: Option<i64>,
    pub time_before: Option<i64>,
    pub project: Option<String>,
    pub branch: Option<String>,
}

// ---------------------------------------------------------------------------
// Commits
// ---------------------------------------------------------------------------

/// A git commit correlated with a session.
pub struct GitCommit {
    pub hash: String,
    pub message: String,
    pub author: Option<String>,
    pub timestamp: i64,
    pub branch: Option<String>,
}

/// A commit linked to a session with its confidence tier.
pub struct CommitWithTier {
    pub hash: String,
    pub message: String,
    pub author: Option<String>,
    pub timestamp: i64,
    pub branch: Option<String>,
    /// Tier 1 = high confidence (commit skill), Tier 2 = medium (during session).
    pub tier: i32,
}

impl CommitWithTier {
    /// The commit with its tier; the correlation evidence is dropped.
    pub fn from_correlation(commit: GitCommit, tier: i32, evidence: String) -> (res: CommitWithTier)
        ensures
            res.hash == commit.hash,
            res.message == commit.message,
            res.author == commit.author,
            res.timestamp == commit.timestamp,
            res.branch == commit.branch,
            res.tier == tier,
    {
        CommitWithTier {
            hash: commit.hash,
            message: commit.message,
            author: commit.author,
            timestamp: commit.timestamp,
            branch: commit.branch,
            tier,
        }
    }
}

// ---------------------------------------------------------------------------
// Provider filter
// ---------------------------------------------------------------------------

/// The provider ids a comma-separated `providers` parameter names: each piece
/// trimmed and lowercased, empty pieces dropped.
pub open spec fn provider_ids(raw: Seq<char>) -> Seq<Seq<char>> {
    split_on(raw, ',').map_values(|p: Seq<char>| lowercase(trim_seq(p))).filter(
        |p: Seq<char>| p.len() > 0,
    )
}

/// An entry made from an ASCII piece without commas is ASCII, holds no
/// comma, and is its own trim and its own lowercase.
proof fn lemma_provider_entry(p: Seq<char>)
    requires
        crate::text::all_ascii(p),
        forall|j: int| 0 <= j < p.len() ==> p[j] != ',',
    ensures
        ({
            let e = lowercase(trim_seq(p));
            &&& crate::text::all_ascii(e)
            &&& forall|j: int| 0 <= j < e.len() ==> e[j] != ','
            &&& trim_seq(e) == e
            &&& lowercase(e) == e
        }),
{
    crate::text::lemma_trim_exists(p);
    let t = trim_seq(p);
    let (lo, hi) = choose|lo: int, hi: int|
        #![trigger p.subrange(lo, hi)]
        0 <= lo <= hi <= p.len() && t == p.subrange(lo, hi) && (forall|i: int|
            0 <= i < lo ==> crate::text::whitespace(#[trigger] p[i])) && (forall|i: int|
            hi <= i < p.len() ==> crate::text::whitespace(#[trigger] p[i])) && (lo < hi
            ==> !crate::text::whitespace(p[lo]) && !crate::text::whitespace(p[hi - 1])) && (lo == hi
            ==> forall|i: int| 0 <= i < p.len() ==> crate::text::whitespace(#[trigger] p[i]));
    assert forall|i: int| 0 <= i < t.len() implies crate::text::is_ascii_char(#[trigger] t[i]) && t[i]
        != ',' by {
        assert(t[i] == p[lo + i]);
    }
    let e = lowercase(t);
    assert(e == t.map_values(|c: char| crate::text::ascii_lower(c)));
    assert forall|i: int| 0 <= i < e.len() implies crate::text::is_ascii_char(#[trigger] e[i]) && e[i]
        != ',' && (crate::text::whitespace(e[i]) == crate::text::whitespace(t[i]))
        && crate::text::ascii_lower(e[i]) == e[i] by {
        assert(e[i] == crate::text::ascii_lower(t[i]));
    }
    assert(crate::text::all_ascii(e));
    assert(lowercase(e) =~= e);
    if e.len() > 0 {
        assert(t[0] == p[lo]);
        assert(t[t.len() - 1] == p[hi - 1]);
        assert(!crate::text::whitespace(e[0]));
        assert(!crate::text::whitespace(e[e.len() - 1]));
    }
    assert(crate::text::trim_bounds(e, 0, e.len() as int));
    crate::text::lemma_trim_of_bounds(e, 0, e.len() as int);
    assert(e.subrange(0, e.len() as int) =~= e);
    crate::text::lemma_trim_exists(e);
    crate::text::lemma_trim_unique(e, e, trim_seq(e));
}

/// Splitting pieces joined with a separator they do not hold gives them back.
proof fn lemma_split_joined(v: Seq<Seq<char>>, sep: char)
    requires
        v.len() >= 1,
        forall|k: int, j: int| 0 <= k < v.len() && 0 <= j < v[k].len() ==> #[trigger] v[k][j] != sep,
    ensures
        split_on(crate::text::joined_with(v, sep), sep) == v,
    decreases v.len(),
{
    if v.len() == 1 {
        assert forall|j: int| 0 <= j < v[0].len() implies v[0][j] != sep by {
            assert(v[0][j] != sep);
        }
        crate::archive::lemma_split_word(v[0], sep);
        assert(seq![v[0]] =~= v);
    } else {
        let d = v.drop_last();
        assert forall|k: int, j: int| 0 <= k < d.len() && 0 <= j < d[k].len() implies #[trigger] d[k][j] != sep by {
            assert(d[k] == v[k]);
        }
        lemma_split_joined(d, sep);
        assert forall|j: int| 0 <= j < v.last().len() implies v.last()[j] != sep by {
            assert(v[v.len() - 1][j] != sep);
        }
        crate::archive::lemma_split_word(v.last(), sep);
        crate::archive::lemma_split_at_separator(crate::text::joined_with(d, sep), v.last(), sep);
        assert(d + seq![v.last()] =~= v);
    }
}

/// Filtering a sequence whose items all pass keeps it whole.
proof fn lemma_filter_keeps_all<A>(s: Seq<A>, p: spec_fn(A) -> bool)
    requires
        forall|i: int| 0 <= i < s.len() ==> p(#[trigger] s[i]),
    ensures
        s.filter(p) == s,
    decreases s.len(),
{
    if s.len() > 0 {
        lemma_filter_keeps_all(s.drop_last(), p);
        s.drop_last().lemma_filter_push(s.last(), p);
        assert(s.drop_last().push(s.last()) =~= s);
    } else {
        assert(s.filter(p) =~= s) by {
            reveal(Seq::filter);
        }
    }
}

/// Joining the provider ids of a parameter with commas gives a parameter
/// that names the same ids, when each id is its own trim and its own
/// lowercase and holds no comma (an id with a comma would split in two).
pub proof fn law_provider_ids_rejoin(raw: Seq<char>)
    requires
        forall|k: int|
            0 <= k < provider_ids(raw).len() ==> {
                let e = #[trigger] provider_ids(raw)[k];
                &&& trim_seq(e) == e
                &&& lowercase(e) == e
                &&& forall|j: int| 0 <= j < e.len() ==> e[j] != ','
            },
    ensures
        forall|k: int| 0 <= k < provider_ids(raw).len() ==> (#[trigger] provider_ids(raw)[k]).len() > 0,
        provider_ids(crate::text::joined_with(provider_ids(raw), ',')) == provider_ids(raw),
{
    let parts = split_on(raw, ',');
    let f = |p: Seq<char>| lowercase(trim_seq(p));
    let keep = |p: Seq<char>| p.len() > 0;
    let mapped = parts.map_values(f);
    let v = mapped.filter(keep);
    assert(v == provider_ids(raw));
    assert forall|k: int| 0 <= k < v.len() implies (#[trigger] v[k]).len() > 0 by {
        mapped.lemma_filter_pred(keep, k);
    }
    let w = crate::text::joined_with(v, ',');
    if v.len() == 0 {
        assert(w =~= Seq::<char>::empty());
        let empty = Seq::<char>::empty();
        crate::text::lemma_trim_exists(empty);
        assert(trim_seq(empty) =~= empty);
        assert(lowercase(empty) =~= empty);
        assert(split_on(w, ',') =~= seq![empty]);
        assert(split_on(w, ',').map_values(f) =~= Seq::<Seq<char>>::empty().push(empty));
        Seq::<Seq<char>>::empty().lemma_filter_push(empty, keep);
        assert(Seq::<Seq<char>>::empty().filter(keep) =~= Seq::<Seq<char>>::empty()) by {
            reveal(Seq::filter);
        }
        assert(provider_ids(w) =~= v);
    } else {
        assert forall|k: int, j: int| 0 <= k < v.len() && 0 <= j < v[k].len() implies #[trigger] v[k][j] != ',' by {
            assert(v[k][j] != ',');
        }
        lemma_split_joined(v, ',');
        assert(v.map_values(f) =~= v);
        lemma_filter_keeps_all(v, keep);
        assert(provider_ids(w) == v);
    }
}

/// The provider ids of an ASCII parameter are non-empty, trimmed, lowercase
/// and free of commas, and joining them with commas gives a parameter that
/// names the same ids.
pub proof fn law_provider_ids_round_trip(raw: Seq<char>)
    requires
        crate::text::all_ascii(raw),
    ensures
        forall|k: int|
            0 <= k < provider_ids(raw).len() ==> {
                let e = #[trigger] provider_ids(raw)[k];
                &&& e.len() > 0
                &&& trim_seq(e) == e
                &&& lowercase(e) == e
                &&& forall|j: int| 0 <= j < e.len() ==> e[j] != ','
            },
        provider_ids(crate::text::joined_with(provider_ids(raw), ',')) == provider_ids(raw),
{
    let parts = split_on(raw, ',');
    let f = |p: Seq<char>| lowercase(trim_seq(p));
    let keep = |p: Seq<char>| p.len() > 0;
    let mapped = parts.map_values(f);
    let v = mapped.filter(keep);
    assert(v == provider_ids(raw));
    crate::text::lemma_split_join(raw, ',');
    crate::text::lemma_split_chars_from(raw, ',');
    assert forall|k: int| 0 <= k < v.len() implies {
        let e = #[trigger] v[k];
        &&& e.len() > 0
        &&& trim_seq(e) == e
        &&& lowercase(e) == e
        &&& forall|j: int| 0 <= j < e.len() ==> e[j] != ','
    } by {
        mapped.lemma_filter_pred(keep, k);
        assert(v.contains(v[k]));
        mapped.lemma_filter_contains_rev(keep, v[k]);
        let jj = choose|jj: int| 0 <= jj < mapped.len() && mapped[jj] == v[k];
        let p = parts[jj];
        assert forall|i: int| 0 <= i < p.len() implies crate::text::is_ascii_char(#[trigger] p[i]) by {
            assert(raw.contains(parts[jj][i]));
            let m = choose|m: int| 0 <= m < raw.len() && raw[m] == parts[jj][i];
            assert(crate::text::is_ascii_char(raw[m]));
        }
        assert forall|i: int| 0 <= i < p.len() implies p[i] != ',' by {
            assert(parts[jj][i] != ',');
        }
        lemma_provider_entry(p);
    }
    law_provider_ids_rejoin(raw);
}

/// Parse the comma-separated `providers` query param. `None` = no filter.
pub fn parse_providers_param(raw: Option<&str>) -> (res: Option<Vec<String>>)
    ensures
        match res {
            None => raw matches Some(r) ==> provider_ids(r@).len() == 0,
            Some(v) => raw matches Some(r) && provider_ids(r@).len() > 0 && views_of(v@)
                == provider_ids(r@),
        },
{
    let r = match raw {
        Some(r) => r,
        None => return None,
    };
    let pieces = split_chars(&chars_of(r), ',');
    let ghost parts = split_on(r@, ',');
    let ghost mapped = parts.map_values(|p: Seq<char>| lowercase(trim_seq(p)));
    let ghost keep = |p: Seq<char>| p.len() > 0;
    let mut out: Vec<String> = Vec::new();
    let mut i: usize = 0;
    while i < pieces.len()
        invariant
            i <= pieces@.len(),
            pieces@.len() == parts.len(),
            forall|k: int| 0 <= k < pieces@.len() ==> #[trigger] pieces@[k]@ == parts[k],
            mapped == parts.map_values(|p: Seq<char>| lowercase(trim_seq(p))),
            keep == |p: Seq<char>| p.len() > 0,
            out@.len() == mapped.take(i as int).filter(keep).len(),
            forall|k: int| 0 <= k < out@.len() ==> #[trigger] out@[k]@ == mapped.take(i as int).filter(keep)[k],
        decreases pieces@.len() - i,
    {
        let t = trim_chars(&pieces[i]);
        let ts = string_of(&t);
        let low = lower_chars(ts.as_str());
        proof {
            assert(mapped.take(i + 1) == mapped.take(i as int).push(mapped[i as int]));
            mapped.take(i as int).lemma_filter_push(mapped[i as int], keep);
        }
        if low.len() > 0 {
            out.push(string_of(&low));
        }
        i = i + 1;
    }
    assert(mapped.take(pieces@.len() as int) == mapped);
    assert(views_of(out@) =~= provider_ids(r@));
    if out.len() == 0 {
        None
    } else {
        Some(out)
    }
}

// ---------------------------------------------------------------------------
// Session list: parameters
// ---------------------------------------------------------------------------

/// Sort orders of the session list, each largest first.
#[derive(PartialEq, Eq, Structural)]
pub enum SessionSort {
    /// Latest first message first; sessions without one last.
    Recent,
    /// Most input + output tokens first.
    Tokens,
    /// Most user prompts first.
    Prompts,
    /// Most files edited first.
    FilesEdited,
    /// Longest first.
    Duration,
}

/// The resolved parameters of a session list request.
pub struct SessionListPlan {
    pub filter: String,
    pub sort: String,
    pub sort_mode: SessionSort,
    pub limit: i64,
    pub offset: i64,
    pub has_commits: Option<bool>,
    pub has_skills: Option<bool>,
    pub high_reedit: Option<bool>,
    /// Minimum duration in whole seconds; the `long_session` filter sets
    /// 1801, keeping sessions longer than 30 minutes.
    pub min_duration: Option<i64>,
    pub min_files: Option<i64>,
    pub min_tokens: Option<i64>,
    pub show_archived: bool,
    /// Model names to keep; empty = no model filter.
    pub models: Vec<String>,
    /// Branch names to keep.
    pub branches_named: Vec<String>,
    /// Whether sessions without a branch are kept (the `~` entry).
    pub branches_include_none: bool,
    /// Whether a branch filter was given.
    pub branches_active: bool,
}

/// The entries of a comma-separated list: each piece trimmed, empty pieces dropped.
pub open spec fn list_entries(raw: Seq<char>) -> Seq<Seq<char>> {
    split_on(raw, ',').map_values(|p: Seq<char>| trim_seq(p)).filter(|p: Seq<char>| p.len() > 0)
}

/// Entries of an optional comma-separated list; none when absent.
pub open spec fn opt_list_entries(raw: Option<String>) -> Seq<Seq<char>> {
    match raw {
        Some(r) => list_entries(r@),
        None => Seq::empty(),
    }
}

/// Entries of a comma-separated list.
fn list_entries_exec(raw: &Option<String>) -> (res: Vec<String>)
    ensures
        views_of(res@) == opt_list_entries(*raw),
{
    let r = match raw {
        Some(r) => r,
        None => {
            let v: Vec<String> = Vec::new();
            assert(views_of(v@) =~= Seq::<Seq<char>>::empty());
            return v;
        },
    };
    let pieces = split_chars(&chars_of(r.as_str()), ',');
    let ghost parts = split_on(r@, ',');
    let ghost mapped = parts.map_values(|p: Seq<char>| trim_seq(p));
    let ghost keep = |p: Seq<char>| p.len() > 0;
    let mut out: Vec<String> = Vec::new();
    let mut i: usize = 0;
    while i < pieces.len()
        invariant
            i <= pieces@.len(),
            pieces@.len() == parts.len(),
            forall|k: int| 0 <= k < pieces@.len() ==> #[trigger] pieces@[k]@ == parts[k],
            mapped == parts.map_values(|p: Seq<char>| trim_seq(p)),
            keep == |p: Seq<char>| p.len() > 0,
            views_of(out@) == mapped.take(i as int).filter(keep),
        decreases pieces@.len() - i,
    {
        let t = trim_chars(&pieces[i]);
        proof {
            assert(mapped.take(i + 1) == mapped.take(i as int).push(mapped[i as int]));
            mapped.take(i as int).lemma_filter_push(mapped[i as int], keep);
        }
        if t.len() > 0 {
            let ghost before = out@;
            out.push(string_of(&t));
            assert(views_of(out@) =~= views_of(before).push(t@));
        }
        i = i + 1;
    }
    assert(mapped.take(pieces@.len() as int) == mapped);
    out
}

pub open spec fn valid_filter(f: Seq<char>) -> bool {
    f == "all"@ || f == "has_commits"@ || f == "high_reedit"@ || f == "long_session"@
}

pub open spec fn sort_mode_of(s: Seq<char>) -> Option<SessionSort> {
    if s == "recent"@ {
        Some(SessionSort::Recent)
    } else if s == "tokens"@ {
        Some(SessionSort::Tokens)
    } else if s == "prompts"@ {
        Some(SessionSort::Prompts)
    } else if s == "files_edited"@ {
        Some(SessionSort::FilesEdited)
    } else if s == "duration"@ {
        Some(SessionSort::Duration)
    } else {
        None
    }
}

/// The filter name of a query: "all" when absent.
pub open spec fn query_filter(q: SessionsListQuery) -> Seq<char> {
    match q.filter {
        Some(f) => f@,
        None => "all"@,
    }
}

/// The sort name of a query: "recent" when absent.
pub open spec fn query_sort(q: SessionsListQuery) -> Seq<char> {
    match q.sort {
        Some(s) => s@,
        None => "recent"@,
    }
}

/// `plan` is the resolution of a valid query `q`.
pub open spec fn plans(q: SessionsListQuery, plan: SessionListPlan) -> bool {
    let f = query_filter(q);
    &&& plan.filter@ == f
    &&& plan.sort@ == query_sort(q)
    &&& Some(plan.sort_mode) == sort_mode_of(query_sort(q))
    &&& plan.limit == (match q.limit {
        Some(l) => if l < 1 {
            1
        } else {
            l
        },
        None => 30,
    })
    &&& plan.offset == (match q.offset {
        Some(o) => if o < 0 {
            0
        } else {
            o
        },
        None => 0,
    })
    &&& plan.has_commits == (match q.has_commits {
        Some(v) => Some(v),
        None => if f == "has_commits"@ {
            Some(true)
        } else {
            None
        },
    })
    &&& plan.high_reedit == (match q.high_reedit {
        Some(v) => Some(v),
        None => if f == "high_reedit"@ {
            Some(true)
        } else {
            None
        },
    })
    &&& plan.min_duration == (match q.min_duration {
        Some(v) => Some(v),
        None => if f == "long_session"@ {
            Some(1801i64)
        } else {
            None
        },
    })
    &&& plan.has_skills == q.has_skills
    &&& plan.min_files == q.min_files
    &&& plan.min_tokens == q.min_tokens
    &&& plan.show_archived == (q.show_archived == Some(true))
    &&& views_of(plan.models@) == opt_list_entries(q.models)
    &&& views_of(plan.branches_named@) == opt_list_entries(q.branches).filter(
        |b: Seq<char>| b != "~"@,
    )
    &&& plan.branches_include_none == opt_list_entries(q.branches).contains("~"@)
    &&& plan.branches_active == (opt_list_entries(q.branches).len() > 0)
}

fn copy_opt_or(s: &Option<String>, dflt: &str) -> (res: String)
    ensures
        res@ == (match s {
            Some(v) => v@,
            None => dflt@,
        }),
{
    match s {
        Some(v) => copy_str(v.as_str()),
        None => copy_str(dflt),
    }
}

/// Resolve and validate the parameters of a session list request.
pub fn plan_session_list(query: &SessionsListQuery) -> (res: Result<SessionListPlan, ApiError>)
    ensures
        match res {
            Ok(plan) => valid_filter(query_filter(*query)) && sort_mode_of(query_sort(*query)) is Some
                && plans(*query, plan),
            Err(e) => e matches ApiError::BadRequest(m) && if !valid_filter(query_filter(*query)) {
                m@ == "Invalid filter '"@ + query_filter(*query)
                    + "'. Valid options: all, has_commits, high_reedit, long_session"@
            } else {
                sort_mode_of(query_sort(*query)) is None && m@ == "Invalid sort '"@ + query_sort(
                    *query,
                ) + "'. Valid options: recent, tokens, prompts, files_edited, duration"@
            },
        },
{
    let filter = copy_opt_or(&query.filter, "all");
    let sort = copy_opt_or(&query.sort, "recent");
    let limit = match query.limit {
        Some(l) => if l < 1 {
            1
        } else {
            l
        },
        None => 30,
    };
    let offset = match query.offset {
        Some(o) => if o < 0 {
            0
        } else {
            o
        },
        None => 0,
    };
    let f = filter.as_str();
    if !(str_is(f, "all") || str_is(f, "has_commits") || str_is(f, "high_reedit") || str_is(
        f,
        "long_session",
    )) {
        return Err(
            ApiError::BadRequest(
                concat3(
                    "Invalid filter '",
                    f,
                    "'. Valid options: all, has_commits, high_reedit, long_session",
                ),
            ),
        );
    }
    let so = sort.as_str();
    let sort_mode = if str_is(so, "recent") {
        SessionSort::Recent
    } else if str_is(so, "tokens") {
        SessionSort::Tokens
    } else if str_is(so, "prompts") {
        SessionSort::Prompts
    } else if str_is(so, "files_edited") {
        SessionSort::FilesEdited
    } else if str_is(so, "duration") {
        SessionSort::Duration
    } else {
        return Err(
            ApiError::BadRequest(
                concat3(
                    "Invalid sort '",
                    so,
                    "'. Valid options: recent, tokens, prompts, files_edited, duration",
                ),
            ),
        );
    };
    let has_commits = match query.has_commits {
        Some(v) => Some(v),
        None => if str_is(f, "has_commits") {
            Some(true)
        } else {
            None
        },
    };
    let high_reedit = match query.high_reedit {
        Some(v) => Some(v),
        None => if str_is(f, "high_reedit") {
            Some(true)
        } else {
            None
        },
    };
    let min_duration = match query.min_duration {
        Some(v) => Some(v),
        None => if str_is(f, "long_session") {
            Some(1801i64)
        } else {
            None
        },
    };
    let models = list_entries_exec(&query.models);
    let branches = list_entries_exec(&query.branches);
    let ghost bs = opt_list_entries(query.branches);
    let ghost not_none = |b: Seq<char>| b != "~"@;
    let mut named: Vec<String> = Vec::new();
    let mut include_none = false;
    let mut i: usize = 0;
    while i < branches.len()
        invariant
            i <= branches@.len(),
            views_of(branches@) == bs,
            not_none == |b: Seq<char>| b != "~"@,
            views_of(named@) == bs.take(i as int).filter(not_none),
            include_none == bs.take(i as int).contains("~"@),
        decreases branches@.len() - i,
    {
        proof {
            assert(bs.take(i + 1) == bs.take(i as int).push(bs[i as int]));
            bs.take(i as int).lemma_filter_push(bs[i as int], not_none);
            assert(bs[i as int] == branches@[i as int]@);
        }
        if str_is(branches[i].as_str(), "~") {
            include_none = true;
            assert(bs.take(i + 1)[i as int] == "~"@);
        } else {
            let ghost before = named@;
            named.push(copy_str(branches[i].as_str()));
            assert(views_of(named@) =~= views_of(before).push(branches@[i as int]@));
            assert(bs.take(i + 1).contains("~"@) == bs.take(i as int).contains("~"@)) by {
                if bs.take(i + 1).contains("~"@) {
                    let k = choose|k: int| 0 <= k < bs.take(i + 1).len() && #[trigger] bs.take(i + 1)[k] == "~"@;
                    assert(k < i);
                    assert(bs.take(i as int)[k] == "~"@);
                }
            }
        }
        i = i + 1;
    }
    assert(bs.take(branches@.len() as int) == bs);
    let active = branches.len() > 0;
    Ok(
        SessionListPlan {
            filter,
            sort,
            sort_mode,
            limit,
            offset,
            has_commits,
            has_skills: query.has_skills,
            high_reedit,
            min_duration,
            min_files: query.min_files,
            min_tokens: query.min_tokens,
            show_archived: match query.show_archived {
                Some(true) => true,
                _ => false,
            },
            models,
            branches_named: named,
            branches_include_none: include_none,
            branches_active: active,
        },
    )
}

// ---------------------------------------------------------------------------
// Session list: full-text search
// ---------------------------------------------------------------------------

/// The search text of a list request: `q` trimmed, when that leaves any text.
pub open spec fn list_search_term(q: Option<String>) -> Option<Seq<char>> {
    match q {
        Some(t) => if trim_seq(t@).len() > 0 {
            Some(trim_seq(t@))
        } else {
            None
        },
        None => None,
    }
}

/// The trimmed search text of a list request, if there is any.
pub fn search_term(query: &SessionsListQuery) -> (res: Option<String>)
    ensures
        match (res, list_search_term(query.q)) {
            (Some(r), Some(t)) => r@ == t,
            (None, None) => true,
            _ => false,
        },
{
    match &query.q {
        Some(t) => {
            let tr = trim_chars(&chars_of(t.as_str()));
            if tr.len() > 0 {
                Some(string_of(&tr))
            } else {
                None
            }
        },
        None => None,
    }
}

/// The first comma-separated piece of a list parameter, trimmed.
pub open spec fn first_piece(raw: Seq<char>) -> Seq<char> {
    trim_seq(split_on(raw, ',')[0])
}

fn first_piece_of(raw: &Option<String>) -> (res: Option<String>)
    ensures
        match raw {
            Some(r) => res matches Some(p) && p@ == first_piece(r@),
            None => res is None,
        },
{
    match raw {
        Some(r) => {
            proof {
                lemma_split_nonempty(r@, ',');
            }
            let parts = split_chars(&chars_of(r.as_str()), ',');
            let t = trim_chars(&parts[0]);
            Some(string_of(&t))
        },
        None => None,
    }
}

/// The structured filters a list request hands to full-text search.
pub struct SessionSearchFilters {
    pub project: Option<String>,
    /// The first requested branch.
    pub branch: Option<String>,
    /// The first requested model.
    pub model: Option<String>,
    /// UTC day of `time_after`.
    pub after: Option<String>,
    /// UTC day of `time_before`.
    pub before: Option<String>,
}

/// The day text of an optional time, in spec form.
pub open spec fn day_text_of(ts: Option<i64>) -> Option<Seq<char>> {
    match ts {
        Some(t) => utc_day_text(t),
        None => None,
    }
}

/// The search filters of a list request whose time bounds have been written
/// as the days `after` and `before`: its project and the first of its
/// branches and of its models.
pub fn search_filters_with_days(
    query: &SessionsListQuery,
    after: Option<String>,
    before: Option<String>,
) -> (res: SessionSearchFilters)
    ensures
        res.project == query.project,
        match query.branches {
            Some(b) => res.branch matches Some(x) && x@ == first_piece(b@),
            None => res.branch is None,
        },
        match query.models {
            Some(m) => res.model matches Some(x) && x@ == first_piece(m@),
            None => res.model is None,
        },
        res.after == after,
        res.before == before,
{
    let project = match &query.project {
        Some(p) => Some(p.clone()),
        None => None,
    };
    SessionSearchFilters {
        project,
        branch: first_piece_of(&query.branches),
        model: first_piece_of(&query.models),
        after,
        before,
    }
}

/// The search filters of a list request: its project, the first of its
/// branches and of its models, and the UTC days of its time bounds.
pub fn list_search_filters(query: &SessionsListQuery) -> (res: SessionSearchFilters)
    ensures
        res.project == query.project,
        match query.branches {
            Some(b) => res.branch matches Some(x) && x@ == first_piece(b@),
            None => res.branch is None,
        },
        match query.models {
            Some(m) => res.model matches Some(x) && x@ == first_piece(m@),
            None => res.model is None,
        },
        match res.after {
            Some(d) => day_text_of(query.time_after) == Some(d@),
            None => day_text_of(query.time_after) is None,
        },
        match res.before {
            Some(d) => day_text_of(query.time_before) == Some(d@),
            None => day_text_of(query.time_before) is None,
        },
{
    let after = day_of(query.time_after);
    let before = day_of(query.time_before);
    search_filters_with_days(query, after, before)
}

// ---------------------------------------------------------------------------
// Session list: filter, sort, page
// ---------------------------------------------------------------------------

/// What the list logic reads of one session: its JSONL-derived stats and the
/// database enrichment.
pub struct SessionFacts {
    pub id: String,
    pub modified_at: i64,
    /// Time of the first message, when the session has one.
    pub first_message_at: Option<i64>,
    pub duration_seconds: u32,
    pub files_read_count: u32,
    pub files_edited_count: u32,
    pub user_prompt_count: u32,
    pub total_input_tokens: Option<u64>,
    pub total_output_tokens: Option<u64>,
    pub primary_model: Option<String>,
    pub git_branch: Option<String>,
    /// The session is archived.
    pub archived: bool,
    pub commit_count: usize,
    /// At least one skill was used.
    pub has_skills: bool,
    /// The re-edit rate is above 0.2.
    pub high_reedit: bool,
}

pub open spec fn opt_u64(v: Option<u64>) -> int {
    match v {
        Some(n) => n as int,
        None => 0,
    }
}

/// Input plus output tokens of a session.
pub open spec fn session_tokens(s: SessionFacts) -> int {
    opt_u64(s.total_input_tokens) + opt_u64(s.total_output_tokens)
}

/// The sums the filters of `plan` form of a session fit their integer types:
/// files read plus edited when a file minimum is set, input plus output
/// tokens when a token minimum is set.
pub open spec fn session_sums_fit(plan: SessionListPlan, s: SessionFacts) -> bool {
    &&& (plan.min_tokens is Some ==> session_tokens(s) <= u64::MAX)
    &&& (plan.min_files is Some ==> s.files_read_count + s.files_edited_count <= u32::MAX)
}

/// `session_sums_fit` through references.
pub open spec fn sums_fit_for(plan: &SessionListPlan, s: &SessionFacts) -> bool {
    session_sums_fit(*plan, *s)
}

/// The session survives the filters of `plan`.
pub open spec fn session_kept(plan: SessionListPlan, s: SessionFacts) -> bool {
    &&& s.archived == plan.show_archived
    &&& (plan.has_commits == Some(true) ==> s.commit_count != 0)
    &&& (plan.has_commits == Some(false) ==> s.commit_count == 0)
    &&& (plan.has_skills == Some(true) ==> s.has_skills)
    &&& (plan.has_skills == Some(false) ==> !s.has_skills)
    &&& (plan.high_reedit == Some(true) ==> s.high_reedit)
    &&& (plan.min_duration matches Some(m) ==> s.duration_seconds >= m)
    &&& (plan.min_files matches Some(m) ==> ((s.files_read_count + s.files_edited_count) as i64)
        >= m)
    &&& (plan.min_tokens matches Some(m) ==> (session_tokens(s) as u64 as i64) >= m)
    &&& (plan.models@.len() > 0 ==> views_of(plan.models@).contains(
        match s.primary_model {
            Some(m) => m@,
            None => Seq::<char>::empty(),
        },
    ))
    &&& (plan.branches_active ==> match s.git_branch {
        None => plan.branches_include_none,
        Some(b) => views_of(plan.branches_named@).contains(b@),
    })
}

/// The sort key of a session under `mode`.
pub open spec fn session_key(mode: SessionSort, s: SessionFacts) -> int {
    match mode {
        SessionSort::Recent => match s.first_message_at {
            Some(t) => t as int,
            None => i64::MIN - 1,
        },
        SessionSort::Tokens => session_tokens(s),
        SessionSort::Prompts => s.user_prompt_count as int,
        SessionSort::FilesEdited => s.files_edited_count as int,
        SessionSort::Duration => s.duration_seconds as int,
    }
}

/// The window `[offset, offset + limit)` of `s`, cut at its end.
pub open spec fn page_window<T>(s: Seq<T>, offset: int, limit: int) -> Seq<T> {
    if offset >= s.len() {
        Seq::empty()
    } else if offset + limit >= s.len() {
        s.subrange(offset, s.len() as int)
    } else {
        s.subrange(offset, offset + limit)
    }
}

/// `v[offset..][..limit]` (an iterator's `skip` then `take`).
pub fn page_of<T>(v: Vec<T>, offset: usize, limit: usize) -> (res: Vec<T>)
    ensures
        res@ == page_window(v@, offset as int, limit as int),
{
    let ghost orig = v@;
    let mut rest = v;
    let mut out: Vec<T> = Vec::new();
    if offset >= rest.len() {
        return out;
    }
    let end: usize = if limit >= rest.len() - offset {
        rest.len()
    } else {
        offset + limit
    };
    let mut i: usize = 0;
    while i < end
        invariant
            offset < orig.len(),
            end <= orig.len(),
            offset <= end,
            end == (if offset + limit >= orig.len() {
                orig.len() as int
            } else {
                offset + limit
            }),
            i <= end,
            rest@ == orig.skip(i as int),
            i <= offset ==> out@.len() == 0,
            i > offset ==> out@ == orig.subrange(offset as int, i as int),
        decreases end - i,
    {
        let x = rest.remove(0);
        assert(x == orig[i as int]);
        if i >= offset {
            out.push(x);
        }
        i = i + 1;
    }
    out
}

fn session_passes(plan: &SessionListPlan, s: &SessionFacts) -> (res: bool)
    requires
        session_sums_fit(*plan, *s),
    ensures
        res == session_kept(*plan, *s),
{
    if s.archived != plan.show_archived {
        return false;
    }
    match plan.has_commits {
        Some(true) => if s.commit_count == 0 {
            return false;
        },
        Some(false) => if s.commit_count > 0 {
            return false;
        },
        None => {},
    }
    match plan.has_skills {
        Some(true) => if !s.has_skills {
            return false;
        },
        Some(false) => if s.has_skills {
            return false;
        },
        None => {},
    }
    match plan.high_reedit {
        Some(true) => if !s.high_reedit {
            return false;
        },
        _ => {},
    }
    match plan.min_duration {
        Some(m) => if (s.duration_seconds as i64) < m {
            return false;
        },
        None => {},
    }
    match plan.min_files {
        Some(m) => if ((s.files_read_count + s.files_edited_count) as i64) < m {
            return false;
        },
        None => {},
    }
    match plan.min_tokens {
        Some(m) => {
            let total = (match s.total_input_tokens {
                Some(n) => n,
                None => 0,
            }) + (match s.total_output_tokens {
                Some(n) => n,
                None => 0,
            });
            if (total as i64) < m {
                return false;
            }
        },
        None => {},
    }
    if plan.models.len() > 0 {
        let primary = match &s.primary_model {
            Some(m) => copy_str(m.as_str()),
            None => String::new(),
        };
        let mut found = false;
        let mut i: usize = 0;
        while i < plan.models.len()
            invariant
                i <= plan.models@.len(),
                found == views_of(plan.models@).take(i as int).contains(primary@),
            decreases plan.models@.len() - i,
        {
            proof {
                let vs = views_of(plan.models@);
                assert(vs.take(i + 1) == vs.take(i as int).push(vs[i as int]));
            }
            if str_is(plan.models[i].as_str(), primary.as_str()) {
                found = true;
            }
            i = i + 1;
        }
        assert(views_of(plan.models@).take(plan.models@.len() as int) == views_of(plan.models@));
        if !found {
            return false;
        }
    }
    if plan.branches_active {
        let matched = match &s.git_branch {
            None => plan.branches_include_none,
            Some(b) => {
                let mut found = false;
                let mut i: usize = 0;
                while i < plan.branches_named.len()
                    invariant
                        i <= plan.branches_named@.len(),
                        found == views_of(plan.branches_named@).take(i as int).contains(b@),
                    decreases plan.branches_named@.len() - i,
                {
                    proof {
                        let vs = views_of(plan.branches_named@);
                        assert(vs.take(i + 1) == vs.take(i as int).push(vs[i as int]));
                    }
                    if str_is(plan.branches_named[i].as_str(), b.as_str()) {
                        found = true;
                    }
                    i = i + 1;
                }
                assert(views_of(plan.branches_named@).take(plan.branches_named@.len() as int)
                    == views_of(plan.branches_named@));
                found
            },
        };
        if !matched {
            return false;
        }
    }
    true
}

fn session_sort_key(mode: &SessionSort, s: &SessionFacts) -> (k: i128)
    ensures
        k == session_key(*mode, *s),
{
    match mode {
        SessionSort::Recent => match s.first_message_at {
            Some(t) => t as i128,
            None => -9223372036854775809i128,
        },
        SessionSort::Tokens => (match s.total_input_tokens {
            Some(n) => n as i128,
            None => 0,
        }) + (match s.total_output_tokens {
            Some(n) => n as i128,
            None => 0,
        }),
        SessionSort::Prompts => s.user_prompt_count as i128,
        SessionSort::FilesEdited => s.files_edited_count as i128,
        SessionSort::Duration => s.duration_seconds as i128,
    }
}

/// One page of the session list.
pub struct SessionPage {
    pub sessions: Vec<SessionFacts>,
    /// Sessions that passed the filters, before paging.
    pub total: usize,
    pub has_more: bool,
}

/// Filter, order (largest key first, ties in input order) and page the
/// sessions of a list request.
pub fn list_session_page(plan: &SessionListPlan, sessions: Vec<SessionFacts>) -> (res: SessionPage)
    requires
        forall|i: int| 0 <= i < sessions@.len() ==> session_sums_fit(*plan, #[trigger] sessions@[i]),
        plan.offset >= 0,
        plan.limit >= 1,
        plan.offset + plan.limit <= usize::MAX,
    ensures
        exists|sorted: Seq<SessionFacts>|
            {
                &&& stable_sorted_desc(
                    sessions@.filter(|s: SessionFacts| session_kept(*plan, s)),
                    sorted,
                    |s: SessionFacts| session_key(plan.sort_mode, s),
                )
                &&& res.total == sorted.len()
                &&& res.sessions@ == page_window(sorted, plan.offset as int, plan.limit as int)
                &&& res.has_more == (plan.offset + plan.limit < sorted.len())
            },
{
    let keep = |s: &SessionFacts| -> (b: bool)
        requires
            sums_fit_for(plan, s),
        ensures
            b == session_kept(*plan, *s),
    { session_passes(plan, s) };
    let key = |s: &SessionFacts| -> (k: i128)
        ensures
            k == session_key(plan.sort_mode, *s),
    { session_sort_key(&plan.sort_mode, s) };
    let kept = keep_where(sessions, keep, Ghost(|s: SessionFacts| session_kept(*plan, s)));
    let sorted = sort_desc_stable(kept, key, Ghost(|s: SessionFacts| session_key(plan.sort_mode, s)));
    let total = sorted.len();
    let has_more = (plan.offset as usize + plan.limit as usize) < total;
    let page = page_of(sorted, plan.offset as usize, plan.limit as usize);
    SessionPage { sessions: page, total, has_more }
}

// ---------------------------------------------------------------------------
// Paginated blocks
// ---------------------------------------------------------------------------

/// One page of conversation blocks.
pub struct BlockPage<T> {
    pub blocks: Vec<T>,
    pub total: usize,
    pub offset: usize,
    pub limit: usize,
    pub has_more: bool,
}

pub open spec fn opt_or(v: Option<usize>, d: usize) -> usize {
    match v {
        Some(x) => x,
        None => d,
    }
}

/// Page `blocks` by the query's offset (default 0) and limit (default 50).
pub fn paginate_blocks<T>(blocks: Vec<T>, offset: Option<usize>, limit: Option<usize>) -> (res: BlockPage<T>)
    requires
        opt_or(offset, 0) + opt_or(limit, 50) <= usize::MAX,
    ensures
        res.total == blocks@.len(),
        res.offset == opt_or(offset, 0),
        res.limit == opt_or(limit, 50),
        res.blocks@ == page_window(blocks@, res.offset as int, res.limit as int),
        res.has_more == (res.offset + res.limit < blocks@.len()),
{
    let total = blocks.len();
    let offset = match offset {
        Some(o) => o,
        None => 0,
    };
    let limit = match limit {
        Some(l) => l,
        None => 50,
    };
    let end = if offset + limit < total {
        offset + limit
    } else {
        total
    };
    let page = page_of(blocks, offset, limit);
    BlockPage { blocks: page, total, offset, limit, has_more: end < total }
}

// ---------------------------------------------------------------------------
// Sub-agent ids
// ---------------------------------------------------------------------------

pub open spec fn ascii_alphanumeric(c: char) -> bool {
    ('a' <= c && c <= 'z') || ('A' <= c && c <= 'Z') || ('0' <= c && c <= '9')
}

/// A sub-agent id: 1 to 64 ASCII alphanumerics.
pub open spec fn valid_agent_id(id: Seq<char>) -> bool {
    &&& id.len() > 0
    &&& id.len() <= 64
    &&& forall|i: int| 0 <= i < id.len() ==> ascii_alphanumeric(#[trigger] id[i])
}

/// Validate a sub-agent id before it is used to build a file path.
pub fn validate_agent_id(agent_id: &str) -> (res: Result<(), ApiError>)
    ensures
        res is Ok <==> valid_agent_id(agent_id@),
        res matches Err(e) ==> e matches ApiError::BadRequest(m) && m@ == "Invalid agent ID: '"@
            + agent_id@ + "'"@,
{
    let cs = chars_of(agent_id);
    let mut ok = cs.len() > 0;
    let mut i: usize = 0;
    while i < cs.len()
        invariant
            i <= cs@.len(),
            ok ==> forall|j: int| 0 <= j < i ==> ascii_alphanumeric(#[trigger] cs@[j]),
            !ok ==> !valid_agent_id(cs@),
            ok ==> cs@.len() > 0,
        decreases cs@.len() - i,
    {
        let c = cs[i];
        if !(('a' <= c && c <= 'z') || ('A' <= c && c <= 'Z') || ('0' <= c && c <= '9')) {
            ok = false;
        }
        i = i + 1;
    }
    if ok {
        // All ASCII: the byte length is the character count.
        assert(vstd::utf8::is_ascii_chars(cs@));
        proof {
            vstd::utf8::is_ascii_chars_encode_utf8(cs@);
        }
    }
    if ok && agent_id.as_bytes().len() <= 64 {
        Ok(())
    } else {
        Err(ApiError::BadRequest(concat3("Invalid agent ID: '", agent_id, "'")))
    }
}

/// The error for a sub-agent whose transcript does not exist.
pub fn subagent_missing(agent_id: &str, session_id: &str) -> (e: ApiError)
    ensures
        e matches ApiError::NotFound(m) && m@ == "Sub-agent '"@ + agent_id@ + "' JSONL not found for session '"@
            + session_id@ + "'"@,
{
    let mut m = concat3("Sub-agent '", agent_id, "' JSONL not found for session '");
    push_str(&mut m, session_id);
    push_str(&mut m, "'");
    ApiError::NotFound(m)
}

// ---------------------------------------------------------------------------
// Turns of a transcript
// ---------------------------------------------------------------------------

/// The API message an assistant transcript line carries.
pub struct TurnMessage {
    pub id: Option<String>,
    pub model: Option<String>,
    pub input_tokens: Option<u64>,
    pub output_tokens: Option<u64>,
}

/// One line of a session transcript, as far as the turn list reads it.
pub struct TranscriptLine {
    pub line_type: Option<String>,
    pub message: Option<TurnMessage>,
}

/// One assistant turn.
pub struct TurnItem {
    pub seq: u32,
    pub model: Option<String>,
    pub input_tokens: Option<u64>,
    pub output_tokens: Option<u64>,
}

pub open spec fn opt_view(s: Option<String>) -> Option<Seq<char>> {
    match s {
        Some(v) => Some(v@),
        None => None,
    }
}

/// The line is an assistant line with a message.
pub open spec fn is_turn_line(l: TranscriptLine) -> bool {
    l.line_type matches Some(t) && t@ == "assistant"@ && l.message is Some
}

/// The message id of a turn line.
pub open spec fn turn_id(l: TranscriptLine) -> Option<Seq<char>> {
    opt_view(l.message.unwrap().id)
}

/// Line `i` makes a turn: it is an assistant line with a message, and no later
/// such line repeats its message id (streamed messages repeat their id; only
/// the last copy counts).
pub open spec fn turn_selected(lines: Seq<TranscriptLine>, i: int) -> bool {
    &&& is_turn_line(lines[i])
    &&& (turn_id(lines[i]) is Some ==> forall|j: int|
        i < j < lines.len() ==> !(is_turn_line(#[trigger] lines[j]) && turn_id(lines[j]) == turn_id(
            lines[i],
        )))
}

/// Positions of the lines that make turns, in order.
pub open spec fn turn_positions(lines: Seq<TranscriptLine>) -> Seq<int> {
    Seq::new(lines.len(), |i: int| i).filter(|i: int| turn_selected(lines, i))
}

fn copy_opt(s: &Option<String>) -> (res: Option<String>)
    ensures
        opt_view(res) == opt_view(*s),
{
    match s {
        Some(v) => Some(copy_str(v.as_str())),
        None => None,
    }
}

fn opt_str_eq(a: &Option<String>, b: &Option<String>) -> (res: bool)
    ensures
        res == (opt_view(*a) == opt_view(*b)),
{
    match (a, b) {
        (Some(x), Some(y)) => str_is(x.as_str(), y.as_str()),
        (None, None) => true,
        _ => false,
    }
}

fn line_is_turn(l: &TranscriptLine) -> (res: bool)
    ensures
        res == is_turn_line(*l),
{
    match (&l.line_type, &l.message) {
        (Some(t), Some(_)) => str_is(t.as_str(), "assistant"),
        _ => false,
    }
}

/// The assistant turns of a transcript, numbered from 0.
pub fn select_turns(lines: &Vec<TranscriptLine>) -> (res: Vec<TurnItem>)
    requires
        lines@.len() <= u32::MAX,
    ensures
        res@.len() == turn_positions(lines@).len(),
        forall|k: int|
            0 <= k < res@.len() ==> {
                let m = lines@[turn_positions(lines@)[k]].message.unwrap();
                &&& (#[trigger] res@[k]).seq == k
                &&& opt_view(res@[k].model) == opt_view(m.model)
                &&& res@[k].input_tokens == m.input_tokens
                &&& res@[k].output_tokens == m.output_tokens
            },
{
    let ghost idx = Seq::new(lines@.len(), |i: int| i);
    let ghost sel = |i: int| turn_selected(lines@, i);
    let mut out: Vec<TurnItem> = Vec::new();
    let mut i: usize = 0;
    while i < lines.len()
        invariant
            i <= lines@.len(),
            lines@.len() <= u32::MAX,
            idx == Seq::new(lines@.len(), |i: int| i),
            sel == |i: int| turn_selected(lines@, i),
            out@.len() == idx.take(i as int).filter(sel).len(),
            out@.len() <= i,
            forall|k: int|
                0 <= k < out@.len() ==> {
                    let m = lines@[idx.take(i as int).filter(sel)[k]].message.unwrap();
                    &&& (#[trigger] out@[k]).seq == k
                    &&& opt_view(out@[k].model) == opt_view(m.model)
                    &&& out@[k].input_tokens == m.input_tokens
                    &&& out@[k].output_tokens == m.output_tokens
                },
        decreases lines@.len() - i,
    {
        proof {
            assert(idx.take(i + 1) == idx.take(i as int).push(i as int));
            idx.take(i as int).lemma_filter_push(i as int, sel);
            idx.take(i as int).lemma_filter_len(sel);
        }
        let line = &lines[i];
        if line_is_turn(line) {
            let msg = match &line.message {
                Some(m) => m,
                None => {
                    assert(false);
                    return out;
                },
            };
            // Only the last copy of a repeated message id counts.
            let mut last = true;
            match &msg.id {
                Some(_) => {
                    let mut j: usize = i + 1;
                    while j < lines.len()
                        invariant
                            i < j <= lines@.len(),
                            line == lines@[i as int],
                            is_turn_line(*line),
                            msg == line.message.unwrap(),
                            last == forall|jj: int|
                                i < jj < j ==> !(is_turn_line(#[trigger] lines@[jj]) && turn_id(
                                    lines@[jj],
                                ) == turn_id(lines@[i as int])),
                        decreases lines@.len() - j,
                    {
                        let other = &lines[j];
                        if line_is_turn(other) {
                            let oid = match &other.message {
                                Some(om) => &om.id,
                                None => &msg.id,
                            };
                            if opt_str_eq(oid, &msg.id) {
                                last = false;
                            }
                        }
                        j = j + 1;
                    }
                },
                None => {},
            }
            if last {
                let seq = out.len() as u32;
                out.push(
                    TurnItem {
                        seq,
                        model: copy_opt(&msg.model),
                        input_tokens: msg.input_tokens,
                        output_tokens: msg.output_tokens,
                    },
                );
            }
        }
        i = i + 1;
    }
    assert(idx.take(lines@.len() as int) == idx);
    out
}

// ---------------------------------------------------------------------------
// Branches and activity
// ---------------------------------------------------------------------------

/// The branch names among `bs`, in order, sessions without one left out.
pub open spec fn named_branches(bs: Seq<Option<String>>) -> Seq<Seq<char>> {
    bs.filter(|b: Option<String>| b is Some).map_values(|b: Option<String>| b.unwrap()@)
}

/// The distinct branch names of the sessions, in lexicographic order.
pub fn branch_list(branches: &Vec<Option<String>>) -> (res: Vec<String>)
    ensures
        forall|p: int, q: int| 0 <= p < q < res@.len() ==> lex_lt(#[trigger] res@[p]@, #[trigger] res@[q]@),
        forall|x: Seq<char>| #[trigger] views_of(res@).contains(x) <==> named_branches(branches@).contains(x),
{
    let ghost some = |b: Option<String>| b is Some;
    let ghost name = |b: Option<String>| b.unwrap()@;
    let mut names: Vec<String> = Vec::new();
    let mut i: usize = 0;
    while i < branches.len()
        invariant
            i <= branches@.len(),
            some == (|b: Option<String>| b is Some),
            name == (|b: Option<String>| b.unwrap()@),
            views_of(names@) == branches@.take(i as int).filter(some).map_values(name),
        decreases branches@.len() - i,
    {
        proof {
            assert(branches@.take(i + 1) =~= branches@.take(i as int).push(branches@[i as int]));
            branches@.take(i as int).lemma_filter_push(branches@[i as int], some);
        }
        match &branches[i] {
            Some(b) => {
                let ghost before = names@;
                names.push(b.clone());
                proof {
                    assert(views_of(names@) =~= views_of(before).push(b@));
                    let f = branches@.take(i as int).filter(some);
                    assert(f.push(branches@[i as int]).map_values(name) =~= f.map_values(name).push(b@));
                }
            },
            None => {},
        }
        i = i + 1;
    }
    assert(branches@.take(branches@.len() as int) =~= branches@);
    sorted_distinct(&names)
}

/// The counts of a histogram, each as an unsigned size, added up.
pub open spec fn counts_sum(cs: Seq<i64>) -> int
    decreases cs.len(),
{
    if cs.len() == 0 {
        0
    } else {
        counts_sum(cs.drop_last()) + (cs.last() as usize) as int
    }
}

/// The session total shown beside the activity chart: with a time filter, the
/// sum of the histogram's counts (matching the chart); without one, the
/// database's session count.
pub fn activity_total(filtered: bool, counts: &Vec<i64>, db_count: i64) -> (res: usize)
    requires
        filtered ==> forall|k: int| 0 <= k <= counts@.len() ==> #[trigger] counts_sum(counts@.take(k)) <= usize::MAX,
    ensures
        res == (if filtered {
            counts_sum(counts@)
        } else {
            (db_count as usize) as int
        }),
{
    if !filtered {
        return db_count as usize;
    }
    let mut total: usize = 0;
    let mut i: usize = 0;
    while i < counts.len()
        invariant
            i <= counts@.len(),
            forall|k: int| 0 <= k <= counts@.len() ==> #[trigger] counts_sum(counts@.take(k)) <= usize::MAX,
            total == counts_sum(counts@.take(i as int)),
        decreases counts@.len() - i,
    {
        proof {
            assert(counts@.take(i + 1).drop_last() =~= counts@.take(i as int));
            assert(counts_sum(counts@.take(i + 1)) <= usize::MAX);
        }
        total = total + counts[i] as usize;
        i = i + 1;
    }
    assert(counts@.take(counts@.len() as int) =~= counts@);
    total
}

// ---------------------------------------------------------------------------
// Laws
// ---------------------------------------------------------------------------

/// What the list filters keep, stated over the sessions' fields: a session
/// is kept only when its archive state is the one asked for, it has commits
/// (or none) and skills (or none) as asked, it is marked for re-edits when
/// asked, and it lasts, touches files and uses tokens at least as much as
/// asked; with no model or branch list, a session with all that is kept.
pub proof fn law_session_filters(plan: SessionListPlan, s: SessionFacts)
    ensures
        session_kept(plan, s) ==> {
            &&& s.archived == plan.show_archived
            &&& plan.has_commits == Some(true) ==> s.commit_count > 0
            &&& plan.has_commits == Some(false) ==> s.commit_count == 0
            &&& plan.has_skills == Some(true) ==> s.has_skills
            &&& plan.has_skills == Some(false) ==> !s.has_skills
            &&& plan.high_reedit == Some(true) ==> s.high_reedit
            &&& plan.min_duration is Some ==> s.duration_seconds >= plan.min_duration.unwrap()
        },
        plan.models@.len() == 0 && !plan.branches_active && plan.min_files is None && plan.min_tokens is None ==> (
        session_kept(plan, s) <== {
            &&& s.archived == plan.show_archived
            &&& plan.has_commits == Some(true) ==> s.commit_count > 0
            &&& plan.has_commits == Some(false) ==> s.commit_count == 0
            &&& plan.has_skills == Some(true) ==> s.has_skills
            &&& plan.has_skills == Some(false) ==> !s.has_skills
            &&& plan.high_reedit == Some(true) ==> s.high_reedit
            &&& plan.min_duration is Some ==> s.duration_seconds >= plan.min_duration.unwrap()
        }),
{
}

/// What each sort order of the session list puts first, stated over the
/// sessions' fields: most input plus output tokens, most prompts, most files
/// edited, longest, or latest first message (sessions without one last).
pub proof fn law_session_order(plan: SessionListPlan, inp: Seq<SessionFacts>, sorted: Seq<SessionFacts>)
    requires
        stable_sorted_desc(inp, sorted, |s: SessionFacts| session_key(plan.sort_mode, s)),
    ensures
        forall|i: int, j: int|
            0 <= i < j < sorted.len() ==> {
                let a = #[trigger] sorted[i];
                let b = #[trigger] sorted[j];
                match plan.sort_mode {
                    SessionSort::Tokens => (match a.total_input_tokens {
                        Some(n) => n as int,
                        None => 0,
                    }) + (match a.total_output_tokens {
                        Some(n) => n as int,
                        None => 0,
                    }) >= (match b.total_input_tokens {
                        Some(n) => n as int,
                        None => 0,
                    }) + (match b.total_output_tokens {
                        Some(n) => n as int,
                        None => 0,
                    }),
                    SessionSort::Prompts => a.user_prompt_count >= b.user_prompt_count,
                    SessionSort::FilesEdited => a.files_edited_count >= b.files_edited_count,
                    SessionSort::Duration => a.duration_seconds >= b.duration_seconds,
                    SessionSort::Recent => match (a.first_message_at, b.first_message_at) {
                        (Some(x), Some(y)) => x >= y,
                        (None, Some(_)) => false,
                        _ => true,
                    },
                }
            },
{
    let key = |s: SessionFacts| session_key(plan.sort_mode, s);
    assert forall|i: int, j: int| 0 <= i < j < sorted.len() implies {
        let a = #[trigger] sorted[i];
        let b = #[trigger] sorted[j];
        match plan.sort_mode {
            SessionSort::Tokens => (match a.total_input_tokens {
                Some(n) => n as int,
                None => 0,
            }) + (match a.total_output_tokens {
                Some(n) => n as int,
                None => 0,
            }) >= (match b.total_input_tokens {
                Some(n) => n as int,
                None => 0,
            }) + (match b.total_output_tokens {
                Some(n) => n as int,
                None => 0,
            }),
            SessionSort::Prompts => a.user_prompt_count >= b.user_prompt_count,
            SessionSort::FilesEdited => a.files_edited_count >= b.files_edited_count,
            SessionSort::Duration => a.duration_seconds >= b.duration_seconds,
            SessionSort::Recent => match (a.first_message_at, b.first_message_at) {
                (Some(x), Some(y)) => x >= y,
                (None, Some(_)) => false,
                _ => true,
            },
        }
    } by {
        crate::order::lemma_sorted_keys_descend(inp, sorted, key, i, j);
    }
}

/// Consecutive pages tile the list: a page followed by the next one is the
/// window covering both.
pub proof fn law_pages_tile<T>(s: Seq<T>, offset: int, first: int, second: int)
    requires
        offset >= 0,
        first >= 0,
        second >= 0,
    ensures
        page_window(s, offset, first) + page_window(s, offset + first, second) == page_window(
            s,
            offset,
            first + second,
        ),
{
    let a = page_window(s, offset, first);
    let b = page_window(s, offset + first, second);
    if offset >= s.len() {
        assert(a + b =~= Seq::<T>::empty());
    } else if offset + first >= s.len() {
        assert(a + b =~= s.subrange(offset, s.len() as int));
    } else if offset + first + second >= s.len() {
        assert(a + b =~= s.subrange(offset, s.len() as int));
    } else {
        assert(a + b =~= s.subrange(offset, offset + first + second));
    }
}

/// "More" is reported exactly when the next page of the same size holds
/// something.
pub proof fn law_has_more_means_next_page<T>(s: Seq<T>, offset: int, limit: int)
    requires
        offset >= 0,
        limit >= 1,
    ensures
        (offset + limit < s.len()) <==> page_window(s, offset + limit, limit).len() > 0,
{
}

} // verus!
