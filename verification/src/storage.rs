//! Storage accounting: which files count toward the transcript total, and
//! the totals of the sizes that a directory walk found.
use vstd::prelude::*;
use crate::text::{chars_of, ends_with, ends_with_chars};

verus! {

/// A file name whose extension is `jsonl`: it ends in `.jsonl` and that dot
/// is not the name's first character (a name such as `.jsonl` has no
/// extension).
pub open spec fn is_jsonl_name(name: Seq<char>) -> bool {
    name.len() > 6 && ends_with(name, seq!['.', 'j', 's', 'o', 'n', 'l'])
}

/// Whether the file called `name` is a session transcript.
pub fn is_jsonl_file(name: &str) -> (res: bool)
    ensures
        res == is_jsonl_name(name@),
{
    let cs = chars_of(name);
    let mut suffix: Vec<char> = Vec::new();
    suffix.push('.');
    suffix.push('j');
    suffix.push('s');
    suffix.push('o');
    suffix.push('n');
    suffix.push('l');
    assert(suffix@ =~= seq!['.', 'j', 's', 'o', 'n', 'l']);
    cs.len() > 6 && ends_with_chars(&cs, &suffix)
}

/// Whether a file of that name is counted: every file, or only transcripts.
pub open spec fn counted(name: Seq<char>, jsonl_only: bool) -> bool {
    !jsonl_only || is_jsonl_name(name)
}

/// The summed size of the counted files among `files` (name and size).
pub open spec fn counted_total(files: Seq<(String, u64)>, jsonl_only: bool) -> int
    decreases files.len(),
{
    if files.len() == 0 {
        0
    } else {
        counted_total(files.drop_last(), jsonl_only) + (if counted(files.last().0@, jsonl_only) {
            files.last().1 as int
        } else {
            0
        })
    }
}

/// Each prefix of `files` totals at most what the whole does.
pub proof fn lemma_counted_total_prefix(files: Seq<(String, u64)>, jsonl_only: bool, k: int)
    requires
        0 <= k <= files.len(),
    ensures
        0 <= counted_total(files.take(k), jsonl_only) <= counted_total(files, jsonl_only),
    decreases files.len() - k,
{
    if k == files.len() {
        assert(files.take(k) =~= files);
        lemma_counted_total_nonneg(files, jsonl_only);
    } else {
        lemma_counted_total_prefix(files, jsonl_only, k + 1);
        lemma_counted_total_nonneg(files.take(k), jsonl_only);
        assert(files.take(k + 1).drop_last() =~= files.take(k));
        assert(counted_total(files.take(k), jsonl_only) <= counted_total(files.take(k + 1), jsonl_only));
    }
}

/// A total of sizes is never negative.
pub proof fn lemma_counted_total_nonneg(files: Seq<(String, u64)>, jsonl_only: bool)
    ensures
        counted_total(files, jsonl_only) >= 0,
    decreases files.len(),
{
    if files.len() > 0 {
        lemma_counted_total_nonneg(files.drop_last(), jsonl_only);
    }
}

/// The total size of the files a directory walk found (name and size of
/// each), counting only transcripts when `jsonl_only` holds.
pub fn directory_total(files: &Vec<(String, u64)>, jsonl_only: bool) -> (total: u64)
    requires
        counted_total(files@, jsonl_only) <= u64::MAX,
    ensures
        total == counted_total(files@, jsonl_only),
{
    let mut total: u64 = 0;
    let mut i: usize = 0;
    while i < files.len()
        invariant
            i <= files@.len(),
            counted_total(files@, jsonl_only) <= u64::MAX,
            total == counted_total(files@.take(i as int), jsonl_only),
        decreases files@.len() - i,
    {
        proof {
            assert(files@.take(i + 1).drop_last() =~= files@.take(i as int));
            lemma_counted_total_prefix(files@, jsonl_only, i + 1);
        }
        let (name, size) = &files[i];
        let counts = !jsonl_only || is_jsonl_file(name.as_str());
        if counts {
            total = total + *size;
        }
        i = i + 1;
    }
    assert(files@.take(files@.len() as int) =~= files@);
    total
}

/// Totals add up over lists: the files of two walks together total the sum
/// of their totals.
pub proof fn law_counted_total_adds_up(a: Seq<(String, u64)>, b: Seq<(String, u64)>, jsonl_only: bool)
    ensures
        counted_total(a + b, jsonl_only) == counted_total(a, jsonl_only) + counted_total(b, jsonl_only),
    decreases b.len(),
{
    if b.len() == 0 {
        assert(a + b =~= a);
    } else {
        assert((a + b).drop_last() =~= a + b.drop_last());
        assert((a + b).last() == b.last());
        law_counted_total_adds_up(a, b.drop_last(), jsonl_only);
    }
}

/// One more file adds its size to the total of all files; to the transcript
/// total it adds its size when its name ends in `.jsonl` after at least one
/// other character, and nothing otherwise.
pub proof fn law_one_more_file(files: Seq<(String, u64)>, f: (String, u64))
    ensures
        counted_total(files.push(f), false) == counted_total(files, false) + f.1,
        counted_total(files.push(f), true) == counted_total(files, true) + (if f.0@.len() > 6 && f.0@.subrange(
            f.0@.len() - 6,
            f.0@.len() as int,
        ) == seq!['.', 'j', 's', 'o', 'n', 'l'] {
            f.1 as int
        } else {
            0
        }),
{
    assert(files.push(f).drop_last() =~= files);
    assert(files.push(f).last() == f);
}

} // verus!
