//! Session counts per source agent, for the provider filter.
use vstd::prelude::*;

use crate::text::{lemma_lex_total, lemma_lex_transitive, lex_lt, str_lt};

verus! {

broadcast use vstd::seq_lib::group_seq_properties;

/// One provider with at least one discovered session.
pub struct ProviderSummary {
    /// Id used in the `providers` filter parameter.
    pub id: String,
    pub display_name: String,
    pub count: usize,
}

/// The provider list.
pub struct ProvidersResponse {
    pub providers: Vec<ProviderSummary>,
}

/// `a` is listed before `b`: more sessions first, then by id.
pub open spec fn listed_before(a: ProviderSummary, b: ProviderSummary) -> bool {
    a.count > b.count || (a.count == b.count && lex_lt(a.id@, b.id@))
}

/// `out` lists the items of `inp`, each once (`p` maps positions of `out` to
/// those of `inp`), ordered by `listed_before` with items that tie kept in
/// their order.
pub open spec fn provider_order_witness(inp: Seq<ProviderSummary>, out: Seq<ProviderSummary>, p: Seq<int>) -> bool {
    &&& out.len() == inp.len()
    &&& p.len() == out.len()
    &&& forall|i: int| 0 <= i < p.len() ==> 0 <= #[trigger] p[i] < inp.len()
    &&& forall|i: int, j: int| 0 <= i < j < p.len() ==> #[trigger] p[i] != #[trigger] p[j]
    &&& forall|i: int| 0 <= i < out.len() ==> #[trigger] out[i] == inp[p[i]]
    &&& forall|i: int, j: int|
        0 <= i < j < out.len() ==> listed_before(#[trigger] out[i], #[trigger] out[j]) || (out[i].count
            == out[j].count && out[i].id@ == out[j].id@ && p[i] < p[j])
}

/// `out` is `inp` in listing order.
pub open spec fn in_listing_order(inp: Seq<ProviderSummary>, out: Seq<ProviderSummary>) -> bool {
    exists|p: Seq<int>| provider_order_witness(inp, out, p)
}

fn before_exec(a: &ProviderSummary, b: &ProviderSummary) -> (res: bool)
    ensures
        res == listed_before(*a, *b),
{
    a.count > b.count || (a.count == b.count && str_lt(a.id.as_str(), b.id.as_str()))
}

proof fn lemma_before_total(a: ProviderSummary, b: ProviderSummary)
    ensures
        !listed_before(a, b) ==> listed_before(b, a) || (a.count == b.count && a.id@ == b.id@),
        !(listed_before(a, b) && listed_before(b, a)),
{
    lemma_lex_total(a.id@, b.id@);
}

proof fn lemma_before_transitive(a: ProviderSummary, b: ProviderSummary, c: ProviderSummary)
    requires
        listed_before(a, b),
        listed_before(b, c),
    ensures
        listed_before(a, c),
{
    if a.count == b.count && b.count == c.count {
        lemma_lex_transitive(a.id@, b.id@, c.id@);
    }
}

/// Orders providers by session count, largest first, then by id.
#[verifier::rlimit(50)]
pub fn order_providers(v: Vec<ProviderSummary>) -> (out: Vec<ProviderSummary>)
    ensures
        in_listing_order(v@, out@),
{
    let ghost orig = v@;
    let mut rest = v;
    let mut out: Vec<ProviderSummary> = Vec::new();
    let ghost mut p: Seq<int> = Seq::empty();
    let ghost mut k: int = 0;
    while rest.len() > 0
        invariant
            0 <= k <= orig.len(),
            rest@ == orig.skip(k),
            out.len() == k,
            p.len() == k,
            forall|i: int| 0 <= i < p.len() ==> 0 <= #[trigger] p[i] < k,
            forall|i: int, j: int| 0 <= i < j < p.len() ==> #[trigger] p[i] != #[trigger] p[j],
            forall|i: int| 0 <= i < out.len() ==> #[trigger] out@[i] == orig[p[i]],
            forall|i: int, j: int|
                0 <= i < j < out.len() ==> listed_before(#[trigger] out@[i], #[trigger] out@[j]) || (
                out@[i].count == out@[j].count && out@[i].id@ == out@[j].id@ && p[i] < p[j]),
        decreases rest.len(),
    {
        let x = rest.remove(0);
        assert(x == orig[k]);
        let mut pos: usize = 0;
        while pos < out.len() && !before_exec(&x, &out[pos])
            invariant
                pos <= out@.len(),
                forall|i: int| 0 <= i < pos ==> !listed_before(x, #[trigger] out@[i]),
            decreases out@.len() - pos,
        {
            pos = pos + 1;
        }
        proof {
            assert forall|i: int| pos <= i < out@.len() implies listed_before(x, #[trigger] out@[i]) by {
                if pos < i {
                    if listed_before(out@[pos as int], out@[i]) {
                        lemma_before_transitive(x, out@[pos as int], out@[i]);
                    }
                }
            }
        }
        let ghost old_out = out@;
        let ghost old_p = p;
        out.insert(pos, x);
        proof {
            p = old_p.insert(pos as int, k);
            k = k + 1;
            assert forall|i: int, j: int| 0 <= i < j < out.len() implies listed_before(
                #[trigger] out@[i],
                #[trigger] out@[j],
            ) || (out@[i].count == out@[j].count && out@[i].id@ == out@[j].id@ && p[i] < p[j]) by {
                if i < pos && j < pos {
                    assert(out@[i] == old_out[i] && out@[j] == old_out[j]);
                } else if i < pos && j == pos {
                    assert(out@[i] == old_out[i]);
                    lemma_before_total(x, old_out[i]);
                } else if i < pos && j > pos {
                    assert(out@[i] == old_out[i] && out@[j] == old_out[j - 1]);
                    lemma_before_total(x, old_out[i]);
                    if listed_before(old_out[i], x) {
                        lemma_before_transitive(old_out[i], x, old_out[j - 1]);
                    }
                } else if i == pos {
                    assert(out@[j] == old_out[j - 1]);
                } else {
                    assert(out@[i] == old_out[i - 1] && out@[j] == old_out[j - 1]);
                }
            }
        }
    }
    assert(provider_order_witness(orig, out@, p));
    out
}

/// The provider list: the native pipeline first, then the other providers by
/// session count, largest first, ties by id.
pub fn provider_list(native: ProviderSummary, foreign: Vec<ProviderSummary>) -> (res: ProvidersResponse)
    ensures
        res.providers@.len() == foreign@.len() + 1,
        res.providers@[0] == native,
        in_listing_order(foreign@, res.providers@.skip(1)),
{
    let ordered = order_providers(foreign);
    let ghost ov = ordered@;
    let mut providers: Vec<ProviderSummary> = Vec::new();
    providers.push(native);
    let mut rest = ordered;
    let ghost mut k: int = 0;
    while rest.len() > 0
        invariant
            0 <= k <= ov.len(),
            rest@ == ov.skip(k),
            providers@.len() == k + 1,
            providers@[0] == native,
            providers@.skip(1) == ov.take(k),
        decreases rest.len(),
    {
        let x = rest.remove(0);
        let ghost before = providers@;
        providers.push(x);
        proof {
            assert(providers@.skip(1) =~= before.skip(1).push(x));
            assert(ov.take(k + 1) =~= ov.take(k).push(ov[k]));
            k = k + 1;
        }
    }
    assert(ov.take(k) =~= ov);
    ProvidersResponse { providers }
}

} // verus!
