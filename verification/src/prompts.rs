//! Prompt history listing.
use vstd::prelude::*;

use crate::text::{chars_of, concat3, copy_str, push_str, slice_chars, string_of};

verus! {

broadcast use vstd::seq_lib::group_seq_properties;

/// Query parameters of the prompt list.
pub struct PromptsListQuery {
    pub q: Option<String>,
    pub project: Option<String>,
    pub intent: Option<String>,
    pub complexity: Option<String>,
    pub has_paste: Option<String>,
    pub sort: Option<String>,
    pub limit: Option<usize>,
    pub offset: Option<usize>,
}

/// One prompt of the history.
pub struct PromptInfo {
    pub id: String,
    pub display: String,
    pub project: String,
    pub project_display_name: String,
    pub session_id: Option<String>,
    pub timestamp: i64,
    pub branch: Option<String>,
    pub model: Option<String>,
    pub intent: String,
    pub complexity: String,
    pub has_paste: bool,
    pub paste_preview: Option<String>,
    pub template_id: Option<String>,
}

/// One page of the prompt history.
pub struct PromptListResponse {
    pub prompts: Vec<PromptInfo>,
    pub total: usize,
    pub has_more: bool,
}

/// A recurring prompt pattern.
pub struct PromptTemplateInfo {
    pub pattern: String,
    pub frequency: usize,
    pub examples: Vec<String>,
    pub slots: Vec<String>,
}

/// Paging of a prompt list request: limit defaults to 50 and is capped at 200;
/// offset defaults to 0.
pub fn prompt_paging(limit: Option<usize>, offset: Option<usize>) -> (res: (usize, usize))
    ensures
        res.0 == (match limit {
            Some(l) => if l < 200 {
                l
            } else {
                200
            },
            None => 50,
        }),
        res.1 == (match offset {
            Some(o) => o,
            None => 0,
        }),
{
    (
        match limit {
            Some(l) => if l < 200 {
                l
            } else {
                200
            },
            None => 50,
        },
        match offset {
            Some(o) => o,
            None => 0,
        },
    )
}

/// `parts` joined with single spaces.
pub open spec fn join_spaces(parts: Seq<Seq<char>>) -> Seq<char>
    decreases parts.len(),
{
    if parts.len() == 0 {
        Seq::empty()
    } else if parts.len() == 1 {
        parts[0]
    } else {
        join_spaces(parts.drop_last()) + seq![' '] + parts.last()
    }
}

/// The search terms of a prompt query: the free text, then `intent:<x>`, then
/// `complexity:<x>`, each where given.
pub open spec fn prompt_terms(q: Option<String>, intent: Option<String>, complexity: Option<String>) -> Seq<Seq<char>> {
    let a = match q {
        Some(v) => seq![v@],
        None => Seq::empty(),
    };
    let b = match intent {
        Some(v) => a.push("intent:"@ + v@),
        None => a,
    };
    match complexity {
        Some(v) => b.push("complexity:"@ + v@),
        None => b,
    }
}

/// The index query string of a prompt list request.
pub fn prompt_search_string(q: &Option<String>, intent: &Option<String>, complexity: &Option<String>) -> (res: String)
    ensures
        res@ == join_spaces(prompt_terms(*q, *intent, *complexity)),
{
    let mut parts: Vec<String> = Vec::new();
    match q {
        Some(v) => parts.push(copy_str(v.as_str())),
        None => {},
    }
    match intent {
        Some(v) => {
            let mut t = copy_str("intent:");
            push_str(&mut t, v.as_str());
            parts.push(t);
        },
        None => {},
    }
    match complexity {
        Some(v) => {
            let mut t = copy_str("complexity:");
            push_str(&mut t, v.as_str());
            parts.push(t);
        },
        None => {},
    }
    let ghost terms = prompt_terms(*q, *intent, *complexity);
    assert(parts@.map_values(|s: String| s@) =~= terms);
    let mut out = String::new();
    let mut i: usize = 0;
    while i < parts.len()
        invariant
            i <= parts@.len(),
            parts@.map_values(|s: String| s@) == terms,
            out@ == join_spaces(terms.take(i as int)),
        decreases parts@.len() - i,
    {
        proof {
            assert(terms.take(i + 1).drop_last() == terms.take(i as int));
            assert(terms.take(i + 1).last() == parts@[i as int]@);
            if i == 0 {
                assert(terms.take(1) == seq![terms[0]]);
            }
        }
        if i > 0 {
            push_str(&mut out, " ");
            proof {
                reveal_strlit(" ");
            }
        }
        push_str(&mut out, parts[i].as_str());
        i = i + 1;
    }
    assert(terms.take(parts@.len() as int) == terms);
    out
}

/// The last `/`-separated segment of a project path (the whole path when it
/// has no '/').
pub open spec fn last_segment(p: Seq<char>) -> Seq<char> {
    if exists|i: int| 0 <= i < p.len() && p[i] == '/' {
        let i = choose|i: int|
            0 <= i < p.len() && p[i] == '/' && forall|j: int| i < j < p.len() ==> p[j] != '/';
        p.skip(i + 1)
    } else {
        p
    }
}

/// Display name of a prompt's project: its last path segment.
pub fn project_display_name(project: &str) -> (res: String)
    ensures
        res@ == last_segment(project@),
{
    let cs = chars_of(project);
    let mut i: usize = cs.len();
    while i > 0 && cs[i - 1] != '/'
        invariant
            i <= cs.len(),
            forall|j: int| i <= j < cs.len() ==> cs@[j] != '/',
        decreases i,
    {
        i = i - 1;
    }
    if i == 0 {
        string_of(&cs)
    } else {
        let pos = i - 1;
        proof {
            let p = cs@;
            assert(p[pos as int] == '/');
            let k = choose|k: int|
                0 <= k < p.len() && p[k] == '/' && forall|j: int| k < j < p.len() ==> p[j] != '/';
            if k < pos {
                assert(p[pos as int] != '/');
            }
            if k > pos {
                assert(p[k] != '/');
            }
        }
        string_of(&slice_chars(&cs, pos + 1, cs.len()))
    }
}

/// An empty string means absent.
pub fn non_empty(s: String) -> (res: Option<String>)
    ensures
        s@.len() == 0 ==> res is None,
        s@.len() > 0 ==> res == Some(s),
{
    if s.as_str().is_empty() {
        None
    } else {
        Some(s)
    }
}

/// Whether results remain after the page that starts at `offset` and holds `shown`.
pub fn prompts_have_more(offset: usize, shown: usize, total: usize) -> (res: bool)
    requires
        offset + shown <= usize::MAX,
    ensures
        res == (offset + shown < total),
{
    offset + shown < total
}

/// The page answered for a prompt list request starting at `offset`, given
/// the outcome of the search: `None` when there is no prompt index, the
/// search's error, or the prompts found and the number of all matches. Without
/// an index, or when the search fails, the page is empty with a total of 0.
pub fn prompt_list_response(offset: usize, outcome: Option<Result<(Vec<PromptInfo>, usize), String>>) -> (res: PromptListResponse)
    requires
        outcome matches Some(Ok((ps, _))) ==> offset + ps@.len() <= usize::MAX,
    ensures
        match outcome {
            Some(Ok((ps, total))) => res.prompts == ps && res.total == total && res.has_more == (offset
                + ps@.len() < total),
            _ => res.prompts@.len() == 0 && res.total == 0 && !res.has_more,
        },
{
    match outcome {
        Some(Ok((ps, total))) => {
            let has_more = prompts_have_more(offset, ps.len(), total);
            PromptListResponse { prompts: ps, total, has_more }
        },
        _ => PromptListResponse { prompts: Vec::new(), total: 0, has_more: false },
    }
}

} // verus!
