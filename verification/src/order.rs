//! Order-preserving filtering and stable descending sorts of vectors.
use vstd::prelude::*;

verus! {

broadcast use vstd::seq_lib::group_seq_properties;

/// `out` lists the items of `inp` ordered by `key`, largest first, with items of
/// equal key kept in their order in `inp`; `p` maps each position of `out` to
/// the position in `inp` that the item came from.
pub open spec fn stable_desc_witness<T>(
    inp: Seq<T>,
    out: Seq<T>,
    p: Seq<int>,
    key: spec_fn(T) -> int,
) -> bool {
    &&& out.len() == inp.len()
    &&& p.len() == out.len()
    &&& forall|i: int| 0 <= i < p.len() ==> 0 <= #[trigger] p[i] < inp.len()
    &&& forall|i: int, j: int| 0 <= i < j < p.len() ==> #[trigger] p[i] != #[trigger] p[j]
    &&& forall|i: int| 0 <= i < out.len() ==> #[trigger] out[i] == inp[p[i]]
    &&& forall|i: int, j: int|
        0 <= i < j < out.len() ==> key(#[trigger] out[i]) > key(#[trigger] out[j]) || (key(out[i])
            == key(out[j]) && p[i] < p[j])
}

/// `out` is the stable sort of `inp` by `key`, largest key first.
pub open spec fn stable_sorted_desc<T>(inp: Seq<T>, out: Seq<T>, key: spec_fn(T) -> int) -> bool {
    exists|p: Seq<int>| stable_desc_witness(inp, out, p, key)
}

/// Sorts `v` by `key`, largest first, keeping items of equal key in their
/// original order (the behaviour of `sort_by` with a reversed comparison).
pub fn sort_desc_stable<T, F: Fn(&T) -> i128>(v: Vec<T>, key: F, Ghost(ks): Ghost<spec_fn(T) -> int>) -> (out: Vec<T>)
    requires
        forall|x: &T| #[trigger] key.requires((x,)),
        forall|x: &T, r: i128| key.ensures((x,), r) ==> r == ks(*x),
    ensures
        stable_sorted_desc(v@, out@, ks),
{
    let ghost orig = v@;
    let mut rest = v;
    let mut out: Vec<T> = Vec::new();
    let mut okeys: Vec<i128> = Vec::new();
    let ghost mut p: Seq<int> = Seq::empty();
    let ghost mut k: int = 0;
    while rest.len() > 0
        invariant
            forall|x: &T| #[trigger] key.requires((x,)),
            forall|x: &T, r: i128| key.ensures((x,), r) ==> r == ks(*x),
            0 <= k <= orig.len(),
            rest@ == orig.skip(k),
            out.len() == k,
            okeys.len() == k,
            forall|i: int| 0 <= i < k ==> okeys@[i] == ks(#[trigger] out@[i]),
            p.len() == k,
            forall|i: int| 0 <= i < p.len() ==> 0 <= #[trigger] p[i] < k,
            forall|i: int, j: int| 0 <= i < j < p.len() ==> #[trigger] p[i] != #[trigger] p[j],
            forall|i: int| 0 <= i < out.len() ==> #[trigger] out@[i] == orig[p[i]],
            forall|i: int, j: int|
                0 <= i < j < out.len() ==> ks(#[trigger] out@[i]) > ks(#[trigger] out@[j]) || (ks(
                    out@[i],
                ) == ks(out@[j]) && p[i] < p[j]),
        decreases rest.len(),
    {
        let x = rest.remove(0);
        assert(x == orig[k]);
        let kx = key(&x);
        let mut pos: usize = 0;
        while pos < okeys.len() && okeys[pos] >= kx
            invariant
                pos <= okeys.len(),
                okeys.len() == out.len(),
                forall|i: int| 0 <= i < pos ==> okeys@[i] >= kx,
            decreases okeys.len() - pos,
        {
            pos = pos + 1;
        }
        proof {
            // every item after `pos` has a key below `kx`
            assert forall|i: int| pos <= i < out.len() implies ks(#[trigger] out@[i]) < kx by {
                assert(okeys@[pos as int] < kx);
                assert(ks(out@[pos as int]) == okeys@[pos as int]);
                if pos < i {
                    assert(ks(out@[pos as int]) >= ks(out@[i]));
                }
            }
        }
        let ghost old_out = out@;
        let ghost old_p = p;
        out.insert(pos, x);
        okeys.insert(pos, kx);
        proof {
            p = old_p.insert(pos as int, k);
            k = k + 1;
            assert forall|i: int, j: int| 0 <= i < j < out.len() implies ks(#[trigger] out@[i]) > ks(
                #[trigger] out@[j],
            ) || (ks(out@[i]) == ks(out@[j]) && p[i] < p[j]) by {
                if i < pos && j < pos {
                    assert(out@[i] == old_out[i] && out@[j] == old_out[j]);
                } else if i < pos && j == pos {
                    assert(out@[i] == old_out[i]);
                } else if i < pos && j > pos {
                    assert(out@[i] == old_out[i] && out@[j] == old_out[j - 1]);
                } else if i == pos {
                    assert(out@[j] == old_out[j - 1]);
                } else {
                    assert(out@[i] == old_out[i - 1] && out@[j] == old_out[j - 1]);
                }
            }
        }
    }
    assert(stable_desc_witness(orig, out@, p, ks));
    out
}

/// The items of `v` that `keep` accepts, in their original order
/// (the behaviour of `Vec::retain`).
pub fn keep_where<T, F: Fn(&T) -> bool>(v: Vec<T>, keep: F, Ghost(pred): Ghost<spec_fn(T) -> bool>) -> (out: Vec<T>)
    requires
        forall|i: int| 0 <= i < v@.len() ==> keep.requires((&#[trigger] v@[i],)),
        forall|x: &T, r: bool| keep.ensures((x,), r) ==> r == pred(*x),
    ensures
        out@ == v@.filter(pred),
{
    let ghost orig = v@;
    let mut rest = v;
    let mut out: Vec<T> = Vec::new();
    let ghost mut k: int = 0;
    while rest.len() > 0
        invariant
            forall|i: int| 0 <= i < orig.len() ==> keep.requires((&#[trigger] orig[i],)),
            forall|x: &T, r: bool| keep.ensures((x,), r) ==> r == pred(*x),
            0 <= k <= orig.len(),
            rest@ == orig.skip(k),
            out@ == orig.take(k).filter(pred),
        decreases rest.len(),
    {
        let x = rest.remove(0);
        assert(x == orig[k]);
        proof {
            assert(orig.take(k + 1) == orig.take(k).push(x));
            orig.take(k).lemma_filter_push(x, pred);
        }
        if keep(&x) {
            out.push(x);
        }
        proof {
            k = k + 1;
        }
    }
    assert(orig.take(k) == orig);
    out
}

/// Number of items of `v` that `test` accepts.
pub fn count_where<T, F: Fn(&T) -> bool>(v: &Vec<T>, test: F, Ghost(pred): Ghost<spec_fn(T) -> bool>) -> (n: usize)
    requires
        forall|x: &T| #[trigger] test.requires((x,)),
        forall|x: &T, b: bool| test.ensures((x,), b) ==> b == pred(*x),
    ensures
        n == v@.filter(pred).len(),
{
    let mut n: usize = 0;
    let mut i: usize = 0;
    while i < v.len()
        invariant
            i <= v@.len(),
            forall|x: &T| #[trigger] test.requires((x,)),
            forall|x: &T, b: bool| test.ensures((x,), b) ==> b == pred(*x),
            n == v@.take(i as int).filter(pred).len(),
            n <= i,
        decreases v@.len() - i,
    {
        proof {
            assert(v@.take(i + 1) =~= v@.take(i as int).push(v@[i as int]));
            v@.take(i as int).lemma_filter_push(v@[i as int], pred);
        }
        if test(&v[i]) {
            n = n + 1;
        }
        i = i + 1;
    }
    assert(v@.take(v@.len() as int) =~= v@);
    n
}

// ---------------------------------------------------------------------------
// Counting by key
// ---------------------------------------------------------------------------

/// Items whose key is `n`.
pub open spec fn key_is<T>(key: spec_fn(T) -> Seq<char>, n: Seq<char>) -> spec_fn(T) -> bool {
    |x: T| key(x) == n
}

/// Number of items of `xs` whose key is `n`.
pub open spec fn count_key<T>(xs: Seq<T>, key: spec_fn(T) -> Seq<char>, n: Seq<char>) -> nat {
    xs.filter(key_is(key, n)).len()
}

/// The counts of all `names`, added up.
pub open spec fn sum_by_names<T>(xs: Seq<T>, key: spec_fn(T) -> Seq<char>, names: Seq<Seq<char>>) -> nat
    decreases names.len(),
{
    if names.len() == 0 {
        0
    } else {
        sum_by_names(xs, key, names.drop_last()) + count_key(xs, key, names.last())
    }
}

/// No name occurs twice.
pub open spec fn no_repeats(names: Seq<Seq<char>>) -> bool {
    forall|i: int, j: int| 0 <= i < j < names.len() ==> names[i] != names[j]
}

/// Adding an item adds one to the sum when its key is among the names.
proof fn lemma_sum_push<T>(xs: Seq<T>, x: T, key: spec_fn(T) -> Seq<char>, names: Seq<Seq<char>>)
    requires
        no_repeats(names),
    ensures
        sum_by_names(xs.push(x), key, names) == sum_by_names(xs, key, names) + (if names.contains(key(x)) {
            1int
        } else {
            0int
        }),
    decreases names.len(),
{
    if names.len() > 0 {
        let d = names.drop_last();
        let m = names.last();
        assert(no_repeats(d));
        lemma_sum_push(xs, x, key, d);
        let f = key_is(key, m);
        xs.lemma_filter_push(x, f);
        assert(count_key(xs.push(x), key, m) == xs.push(x).filter(f).len());
        assert(count_key(xs, key, m) == xs.filter(f).len());
        assert(count_key(xs.push(x), key, m) == count_key(xs, key, m) + (if key(x) == m {
            1int
        } else {
            0int
        }));
        assert(sum_by_names(xs.push(x), key, names) == sum_by_names(xs.push(x), key, d) + count_key(
            xs.push(x),
            key,
            m,
        ));
        assert(sum_by_names(xs, key, names) == sum_by_names(xs, key, d) + count_key(xs, key, m));
        if d.contains(key(x)) {
            let i = choose|i: int| 0 <= i < d.len() && d[i] == key(x);
            assert(names[i] == key(x));
            assert(names[names.len() - 1] == m);
            assert(key(x) != m);
            assert(names.contains(key(x)));
        } else if m == key(x) {
            assert(names[names.len() - 1] == key(x));
        } else {
            assert forall|i: int| 0 <= i < names.len() implies names[i] != key(x) by {
                if i < d.len() {
                    assert(names[i] == d[i]);
                }
            }
        }
    }
}

/// When every item's key is among `names`, each name once, the counts of the
/// names add up to the number of items.
pub proof fn lemma_counts_add_up<T>(xs: Seq<T>, key: spec_fn(T) -> Seq<char>, names: Seq<Seq<char>>)
    requires
        no_repeats(names),
        forall|i: int| 0 <= i < xs.len() ==> names.contains(key(#[trigger] xs[i])),
    ensures
        sum_by_names(xs, key, names) == xs.len(),
    decreases xs.len(),
{
    if xs.len() == 0 {
        lemma_sum_empty(xs, key, names);
    } else {
        let d = xs.drop_last();
        assert forall|i: int| 0 <= i < d.len() implies names.contains(key(#[trigger] d[i])) by {
            assert(d[i] == xs[i]);
        }
        lemma_counts_add_up(d, key, names);
        lemma_sum_push(d, xs.last(), key, names);
        assert(d.push(xs.last()) =~= xs);
        assert(names.contains(key(xs[xs.len() - 1])));
    }
}

proof fn lemma_sum_empty<T>(xs: Seq<T>, key: spec_fn(T) -> Seq<char>, names: Seq<Seq<char>>)
    requires
        xs.len() == 0,
    ensures
        sum_by_names(xs, key, names) == 0,
    decreases names.len(),
{
    if names.len() > 0 {
        lemma_sum_empty(xs, key, names.drop_last());
        assert(xs.filter(key_is(key, names.last())).len() == 0) by {
            xs.lemma_filter_len(key_is(key, names.last()));
        }
    }
}

// ---------------------------------------------------------------------------
// Sums are kept by reordering
// ---------------------------------------------------------------------------

/// The values of the items of `s`, added up.
pub open spec fn sum_of<T>(s: Seq<T>, v: spec_fn(T) -> int) -> int
    decreases s.len(),
{
    if s.len() == 0 {
        0
    } else {
        sum_of(s.drop_last(), v) + v(s.last())
    }
}

proof fn lemma_sum_remove<T>(s: Seq<T>, j: int, v: spec_fn(T) -> int)
    requires
        0 <= j < s.len(),
    ensures
        sum_of(s, v) == sum_of(s.remove(j), v) + v(s[j]),
    decreases s.len(),
{
    if j == s.len() - 1 {
        assert(s.remove(j) =~= s.drop_last());
    } else {
        let d = s.drop_last();
        lemma_sum_remove(d, j, v);
        assert(s.remove(j) =~= d.remove(j).push(s.last()));
        assert(s.remove(j).drop_last() =~= d.remove(j));
        assert(d[j] == s[j]);
    }
}

proof fn lemma_sum_permuted<T>(inp: Seq<T>, out: Seq<T>, p: Seq<int>, v: spec_fn(T) -> int)
    requires
        out.len() == inp.len(),
        p.len() == out.len(),
        forall|i: int| 0 <= i < p.len() ==> 0 <= #[trigger] p[i] < inp.len(),
        forall|i: int, k: int| 0 <= i < k < p.len() ==> #[trigger] p[i] != #[trigger] p[k],
        forall|i: int| 0 <= i < out.len() ==> #[trigger] out[i] == inp[p[i]],
    ensures
        sum_of(out, v) == sum_of(inp, v),
    decreases out.len(),
{
    if out.len() > 0 {
        let n = out.len() - 1;
        let j = p[n];
        let inp2 = inp.remove(j);
        let out2 = out.drop_last();
        let q = Seq::new(n as nat, |i: int| if p[i] < j { p[i] } else { p[i] - 1 });
        assert forall|i: int| 0 <= i < q.len() implies 0 <= #[trigger] q[i] < inp2.len() by {
            assert(p[i] != p[n]);
        }
        assert forall|i: int, k: int| 0 <= i < k < q.len() implies #[trigger] q[i] != #[trigger] q[k] by {
            assert(p[i] != p[n] && p[k] != p[n] && p[i] != p[k]);
        }
        assert forall|i: int| 0 <= i < out2.len() implies #[trigger] out2[i] == inp2[q[i]] by {
            assert(out2[i] == out[i]);
            assert(p[i] != p[n]);
        }
        lemma_sum_permuted(inp2, out2, q, v);
        lemma_sum_remove(inp, j, v);
    }
}

/// Sorting keeps the sum of any value over the items.
pub proof fn lemma_sorted_sum<T>(inp: Seq<T>, out: Seq<T>, key: spec_fn(T) -> int, v: spec_fn(T) -> int)
    requires
        stable_sorted_desc(inp, out, key),
    ensures
        sum_of(out, v) == sum_of(inp, v),
{
    let p = choose|p: Seq<int>| stable_desc_witness(inp, out, p, key);
    lemma_sum_permuted(inp, out, p, v);
}

/// A stable descending sort puts larger keys first.
pub proof fn lemma_sorted_keys_descend<T>(inp: Seq<T>, out: Seq<T>, key: spec_fn(T) -> int, i: int, j: int)
    requires
        stable_sorted_desc(inp, out, key),
        0 <= i < j < out.len(),
    ensures
        key(out[i]) >= key(out[j]),
{
    let p = choose|p: Seq<int>| stable_desc_witness(inp, out, p, key);
    assert(key(out[i]) > key(out[j]) || key(out[i]) == key(out[j]));
}

} // verus!
