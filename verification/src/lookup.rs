//! Keyed lookups over lists where, as with a map filled entry by entry, the
//! last entry for a key is the one that counts.
use vstd::prelude::*;

verus! {

broadcast use vstd::seq_lib::group_seq_properties;

/// Index of the last item of `s` that satisfies `f`, or -1 when none does.
pub open spec fn last_match<T>(s: Seq<T>, f: spec_fn(T) -> bool) -> int
    decreases s.len(),
{
    if s.len() == 0 {
        -1
    } else if f(s.last()) {
        s.len() - 1
    } else {
        last_match(s.drop_last(), f)
    }
}

/// When no item from position `i` on satisfies `f`, the last match lies in
/// the first `i` items.
pub proof fn lemma_last_match_take<T>(s: Seq<T>, f: spec_fn(T) -> bool, i: int)
    requires
        0 <= i <= s.len(),
        forall|j: int| i <= j < s.len() ==> !f(#[trigger] s[j]),
    ensures
        last_match(s, f) == last_match(s.take(i), f),
    decreases s.len() - i,
{
    if i == s.len() {
        assert(s.take(i) =~= s);
    } else {
        let d = s.drop_last();
        assert(!f(s[s.len() - 1]));
        assert(d.take(i) =~= s.take(i));
        lemma_last_match_take(d, f, i);
    }
}

/// What `last_match` finds: -1 when nothing matches, else a matching index
/// with no match after it.
pub proof fn lemma_last_match_spec<T>(s: Seq<T>, f: spec_fn(T) -> bool)
    ensures
        -1 <= last_match(s, f) < s.len(),
        last_match(s, f) == -1 ==> forall|j: int| 0 <= j < s.len() ==> !f(#[trigger] s[j]),
        last_match(s, f) >= 0 ==> f(s[last_match(s, f)]) && forall|j: int|
            last_match(s, f) < j < s.len() ==> !f(#[trigger] s[j]),
    decreases s.len(),
{
    if s.len() > 0 && !f(s.last()) {
        let d = s.drop_last();
        lemma_last_match_spec(d, f);
        assert forall|j: int| last_match(s, f) < j < s.len() implies !f(#[trigger] s[j]) by {
            if j < d.len() {
                assert(d[j] == s[j]);
            }
        }
    }
}

/// Finds the last position of `s` whose item satisfies `pred` (checked by `test`).
pub fn find_last<T, F: Fn(&T) -> bool>(s: &Vec<T>, test: F, Ghost(pred): Ghost<spec_fn(T) -> bool>) -> (r: Option<usize>)
    requires
        forall|x: &T| #[trigger] test.requires((x,)),
        forall|x: &T, b: bool| test.ensures((x,), b) ==> b == pred(*x),
    ensures
        match r {
            Some(i) => i < s@.len() && i as int == last_match(s@, pred),
            None => last_match(s@, pred) == -1,
        },
{
    let mut i: usize = s.len();
    while i > 0
        invariant
            i <= s@.len(),
            forall|x: &T| #[trigger] test.requires((x,)),
            forall|x: &T, b: bool| test.ensures((x,), b) ==> b == pred(*x),
            forall|j: int| i <= j < s@.len() ==> !pred(#[trigger] s@[j]),
        decreases i,
    {
        if test(&s[i - 1]) {
            proof {
                lemma_last_match_take(s@, pred, i as int);
                assert(s@.take(i as int).last() == s@[i - 1]);
            }
            return Some(i - 1);
        }
        i = i - 1;
    }
    proof {
        lemma_last_match_take(s@, pred, 0);
    }
    None
}

} // verus!
