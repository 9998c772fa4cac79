//! Merging hook events into a conversation's blocks by time.
use vstd::prelude::*;

use crate::order::{sort_desc_stable, stable_sorted_desc};

verus! {

/// A conversation block and the time that places it, when the block carries
/// one; times are integers that order the blocks as their timestamps do.
pub struct TimedBlock<T> {
    pub ts: Option<i64>,
    pub block: T,
}

/// The place of a block: earlier times first, a block without a time at 0.
/// Written as a descending key (the negated time).
pub open spec fn block_order<T>() -> spec_fn(TimedBlock<T>) -> int {
    |b: TimedBlock<T>| match b.ts {
        Some(t) => -(t as int),
        None => 0,
    }
}

/// The blocks of `s`, without their times.
pub open spec fn untimed<T>(s: Seq<TimedBlock<T>>) -> Seq<T> {
    s.map_values(|b: TimedBlock<T>| b.block)
}

/// The blocks of `s` without their times, in order.
fn strip_times<T>(v: Vec<TimedBlock<T>>) -> (res: Vec<T>)
    ensures
        res@ == untimed(v@),
{
    let ghost orig = v@;
    let mut rest = v;
    let mut out: Vec<T> = Vec::new();
    let ghost mut k: int = 0;
    while rest.len() > 0
        invariant
            0 <= k <= orig.len(),
            rest@ == orig.skip(k),
            out@ == untimed(orig.take(k)),
        decreases rest@.len(),
    {
        let b = rest.remove(0);
        proof {
            assert(orig.take(k + 1) =~= orig.take(k).push(orig[k]));
            assert(untimed(orig.take(k + 1)) =~= untimed(orig.take(k)).push(orig[k].block));
            assert(orig.skip(k).remove(0) =~= orig.skip(k + 1));
            k = k + 1;
        }
        out.push(b.block);
    }
    proof {
        assert(orig.take(k) =~= orig);
    }
    out
}

/// Hook blocks merged into a conversation's blocks: with no hook blocks the
/// conversation is unchanged; otherwise all blocks ordered by time, earliest
/// first, where blocks of equal time (a block without a time counting as 0)
/// keep their order, the conversation's before the hooks'.
pub fn merge_hook_blocks_by_timestamp<T>(blocks: Vec<TimedBlock<T>>, hook_blocks: Vec<TimedBlock<T>>) -> (res: Vec<T>)
    ensures
        hook_blocks@.len() == 0 ==> res@ == untimed(blocks@),
        hook_blocks@.len() > 0 ==> exists|s: Seq<TimedBlock<T>>|
            #[trigger] stable_sorted_desc(blocks@ + hook_blocks@, s, block_order()) && res@ == untimed(s),
{
    if hook_blocks.len() == 0 {
        return strip_times(blocks);
    }
    let mut merged = blocks;
    let mut hooks = hook_blocks;
    merged.append(&mut hooks);
    let key = |b: &TimedBlock<T>| -> (k: i128)
        ensures
            k == block_order()(*b),
    {
        match b.ts {
            Some(t) => -(t as i128),
            None => 0,
        }
    };
    let sorted = sort_desc_stable(merged, key, Ghost(block_order()));
    let ghost s = sorted@;
    let res = strip_times(sorted);
    assert(stable_sorted_desc(blocks@ + hook_blocks@, s, block_order()));
    res
}

} // verus!
