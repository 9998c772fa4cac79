//! Character-level string helpers shared by the route logic.
use vstd::prelude::*;

verus! {

broadcast use vstd::seq_lib::group_seq_properties;

// ---------------------------------------------------------------------------
// Names for what std computes from Unicode tables
// ---------------------------------------------------------------------------

/// What `str::to_lowercase` returns for a string with a non-ASCII character.
pub uninterp spec fn unicode_lowercase(s: Seq<char>) -> Seq<char>;

/// Whether `char::is_alphanumeric` holds of a non-ASCII `c`.
pub uninterp spec fn unicode_alphanumeric(c: char) -> bool;

/// Whether `char::is_whitespace` holds of a non-ASCII `c`.
pub uninterp spec fn unicode_whitespace(c: char) -> bool;

/// An ASCII character.
pub open spec fn is_ascii_char(c: char) -> bool {
    (c as int) < 128
}

/// Every character of `s` is ASCII.
pub open spec fn all_ascii(s: Seq<char>) -> bool {
    forall|i: int| 0 <= i < s.len() ==> is_ascii_char(#[trigger] s[i])
}

/// `c` with `A`-`Z` mapped to `a`-`z`.
pub open spec fn ascii_lower(c: char) -> char {
    if 'A' <= c && c <= 'Z' {
        ((c as int) + 32) as char
    } else {
        c
    }
}

/// What `str::to_lowercase` returns: on ASCII text, each of `A`-`Z` becomes
/// its lowercase letter and everything else stays.
pub open spec fn lowercase(s: Seq<char>) -> Seq<char> {
    if all_ascii(s) {
        s.map_values(|c: char| ascii_lower(c))
    } else {
        unicode_lowercase(s)
    }
}

/// Whether `char::is_alphanumeric` holds: among ASCII characters exactly the
/// letters and digits.
pub open spec fn alphanumeric(c: char) -> bool {
    if is_ascii_char(c) {
        ('a' <= c && c <= 'z') || ('A' <= c && c <= 'Z') || ('0' <= c && c <= '9')
    } else {
        unicode_alphanumeric(c)
    }
}

/// Whether `char::is_whitespace` holds: among ASCII characters exactly the
/// space and tab, line feed, vertical tab, form feed and carriage return.
pub open spec fn whitespace(c: char) -> bool {
    if is_ascii_char(c) {
        c == ' ' || ('\t' <= c && c <= '\r')
    } else {
        unicode_whitespace(c)
    }
}

/// `str::to_lowercase`: the lowercase mapping of the whole string, which
/// depends on the characters of `s` alone and maps ASCII text letter by letter.
#[verifier::external_body]
fn to_lowercase_string(s: &str) -> (res: String)
    ensures
        res@ == lowercase(s@),
        !all_ascii(s@) ==> res@ == unicode_lowercase(s@),
{
    s.to_lowercase()
}

/// `char::is_alphanumeric`, a Unicode property of `c` alone; the ASCII
/// characters that have it are the letters and digits.
#[verifier::external_body]
pub(crate) fn is_alphanumeric(c: char) -> (b: bool)
    ensures
        b == alphanumeric(c),
        !is_ascii_char(c) ==> b == unicode_alphanumeric(c),
{
    c.is_alphanumeric()
}

/// `char::is_whitespace`, the Unicode `White_Space` property of `c`; the
/// ASCII characters that have it are U+0009 to U+000D and the space.
#[verifier::external_body]
pub(crate) fn is_whitespace(c: char) -> (b: bool)
    ensures
        b == whitespace(c),
        !is_ascii_char(c) ==> b == unicode_whitespace(c),
{
    c.is_whitespace()
}

/// `String::push`: appends one character.
#[verifier::external_body]
pub(crate) fn push_char(s: &mut String, c: char)
    ensures
        final(s)@ == old(s)@.push(c),
{
    s.push(c);
}

/// `String::push_str`: appends the characters of `t`.
#[verifier::external_body]
pub(crate) fn push_str(s: &mut String, t: &str)
    ensures
        final(s)@ == old(s)@ + t@,
{
    s.push_str(t);
}

// ---------------------------------------------------------------------------
// Specifications
// ---------------------------------------------------------------------------

/// The character sequences of a list of strings.
pub open spec fn views_of(v: Seq<String>) -> Seq<Seq<char>> {
    v.map_values(|x: String| x@)
}

/// `needle` occurs as a contiguous run inside `hay`.
pub open spec fn has_infix(hay: Seq<char>, needle: Seq<char>) -> bool {
    exists|i: int| 0 <= i <= hay.len() - needle.len() && #[trigger] hay.subrange(i, i + needle.len()) == needle
}

/// `s` begins with `p`.
pub open spec fn starts_with(s: Seq<char>, p: Seq<char>) -> bool {
    p.len() <= s.len() && s.subrange(0, p.len() as int) == p
}

/// `s` ends with `p`.
pub open spec fn ends_with(s: Seq<char>, p: Seq<char>) -> bool {
    p.len() <= s.len() && s.subrange(s.len() - p.len(), s.len() as int) == p
}

/// `s` after removing `p` from its front as many times as it occurs there
/// (`str::trim_start_matches` with a string pattern).
pub open spec fn strip_prefixes(s: Seq<char>, p: Seq<char>) -> Seq<char>
    decreases s.len(),
{
    if p.len() > 0 && starts_with(s, p) {
        strip_prefixes(s.skip(p.len() as int), p)
    } else {
        s
    }
}

/// `s` after removing `p` from its end as many times as it occurs there
/// (`str::trim_end_matches` with a string or character pattern).
pub open spec fn strip_suffixes(s: Seq<char>, p: Seq<char>) -> Seq<char>
    decreases s.len(),
{
    if p.len() > 0 && ends_with(s, p) {
        strip_suffixes(s.take(s.len() - p.len()), p)
    } else {
        s
    }
}

/// `t` is `s` without its leading and trailing whitespace (`str::trim`).
pub open spec fn is_trim_of(s: Seq<char>, t: Seq<char>) -> bool {
    exists|lo: int, hi: int|
        #![trigger s.subrange(lo, hi)]
        0 <= lo <= hi <= s.len() && t == s.subrange(lo, hi) && (forall|i: int|
            0 <= i < lo ==> whitespace(#[trigger] s[i])) && (forall|i: int|
            hi <= i < s.len() ==> whitespace(#[trigger] s[i])) && (lo < hi ==> !whitespace(s[lo])
            && !whitespace(s[hi - 1])) && (lo == hi ==> forall|i: int|
            0 <= i < s.len() ==> whitespace(#[trigger] s[i]))
}

/// `s` without its leading and trailing whitespace.
pub open spec fn trim_seq(s: Seq<char>) -> Seq<char> {
    choose|t: Seq<char>| is_trim_of(s, t)
}

pub proof fn lemma_trim_unique(s: Seq<char>, t1: Seq<char>, t2: Seq<char>)
    requires
        is_trim_of(s, t1),
        is_trim_of(s, t2),
    ensures
        t1 == t2,
{
    let (lo1, hi1) = choose|lo: int, hi: int|
        #![trigger s.subrange(lo, hi)]
        0 <= lo <= hi <= s.len() && t1 == s.subrange(lo, hi) && (forall|i: int|
            0 <= i < lo ==> whitespace(#[trigger] s[i])) && (forall|i: int|
            hi <= i < s.len() ==> whitespace(#[trigger] s[i])) && (lo < hi ==> !whitespace(s[lo])
            && !whitespace(s[hi - 1])) && (lo == hi ==> forall|i: int|
            0 <= i < s.len() ==> whitespace(#[trigger] s[i]));
    let (lo2, hi2) = choose|lo: int, hi: int|
        #![trigger s.subrange(lo, hi)]
        0 <= lo <= hi <= s.len() && t2 == s.subrange(lo, hi) && (forall|i: int|
            0 <= i < lo ==> whitespace(#[trigger] s[i])) && (forall|i: int|
            hi <= i < s.len() ==> whitespace(#[trigger] s[i])) && (lo < hi ==> !whitespace(s[lo])
            && !whitespace(s[hi - 1])) && (lo == hi ==> forall|i: int|
            0 <= i < s.len() ==> whitespace(#[trigger] s[i]));
    if lo1 == hi1 {
        if lo2 < hi2 {
            assert(whitespace(s[lo2]));
        }
        assert(t1 =~= t2);
    } else if lo2 == hi2 {
        assert(whitespace(s[lo1]));
    } else {
        if lo1 < lo2 {
            assert(whitespace(s[lo1]));
        }
        if lo2 < lo1 {
            assert(whitespace(s[lo2]));
        }
        if hi1 < hi2 {
            assert(whitespace(s[hi2 - 1]));
        }
        if hi2 < hi1 {
            assert(whitespace(s[hi1 - 1]));
        }
    }
}

/// The pieces of `s` between occurrences of `sep` (`str::split` with a
/// character pattern): always at least one piece.
pub open spec fn split_on(s: Seq<char>, sep: char) -> Seq<Seq<char>>
    decreases s.len(),
{
    if s.len() == 0 {
        seq![Seq::<char>::empty()]
    } else {
        let pre = split_on(s.drop_last(), sep);
        if s.last() == sep {
            pre.push(Seq::<char>::empty())
        } else {
            pre.update(pre.len() - 1, pre.last().push(s.last()))
        }
    }
}

pub proof fn lemma_split_nonempty(s: Seq<char>, sep: char)
    ensures
        split_on(s, sep).len() >= 1,
    decreases s.len(),
{
    if s.len() > 0 {
        lemma_split_nonempty(s.drop_last(), sep);
    }
}

/// `s[lo..hi]` is `s` without its leading and trailing whitespace.
pub open spec fn trim_bounds(s: Seq<char>, lo: int, hi: int) -> bool {
    &&& 0 <= lo <= hi <= s.len()
    &&& forall|i: int| 0 <= i < lo ==> whitespace(#[trigger] s[i])
    &&& forall|i: int| hi <= i < s.len() ==> whitespace(#[trigger] s[i])
    &&& lo < hi ==> !whitespace(s[lo]) && !whitespace(s[hi - 1])
    &&& lo == hi ==> forall|i: int| 0 <= i < s.len() ==> whitespace(#[trigger] s[i])
}

proof fn lemma_trim_bounds_front(s: Seq<char>, lo: int, hi: int)
    requires
        s.len() > 0,
        whitespace(s[0]),
        trim_bounds(s.skip(1), lo, hi),
    ensures
        trim_bounds(s, lo + 1, hi + 1),
{
    let r = s.skip(1);
    assert forall|i: int| 0 <= i < lo + 1 implies whitespace(#[trigger] s[i]) by {
        if i > 0 {
            assert(s[i] == r[i - 1]);
        }
    }
    assert forall|i: int| hi + 1 <= i < s.len() implies whitespace(#[trigger] s[i]) by {
        assert(s[i] == r[i - 1]);
    }
    if lo == hi {
        assert forall|i: int| 0 <= i < s.len() implies whitespace(#[trigger] s[i]) by {
            if i > 0 {
                assert(s[i] == r[i - 1]);
            }
        }
    } else {
        assert(s[lo + 1] == r[lo]);
        assert(s[hi] == r[hi - 1]);
    }
}

proof fn lemma_trim_bounds_back(s: Seq<char>, lo: int, hi: int)
    requires
        s.len() > 0,
        whitespace(s.last()),
        trim_bounds(s.drop_last(), lo, hi),
    ensures
        trim_bounds(s, lo, hi),
{
    let r = s.drop_last();
    assert forall|i: int| 0 <= i < lo implies whitespace(#[trigger] s[i]) by {
        assert(s[i] == r[i]);
    }
    assert forall|i: int| hi <= i < s.len() implies whitespace(#[trigger] s[i]) by {
        if i < r.len() {
            assert(s[i] == r[i]);
        }
    }
    if lo == hi {
        assert forall|i: int| 0 <= i < s.len() implies whitespace(#[trigger] s[i]) by {
            if i < r.len() {
                assert(s[i] == r[i]);
            }
        }
    } else {
        assert(s[lo] == r[lo]);
        assert(s[hi - 1] == r[hi - 1]);
    }
}

/// Bounds of the trim of `s`.
proof fn trim_witness(s: Seq<char>) -> (b: (int, int))
    ensures
        trim_bounds(s, b.0, b.1),
    decreases s.len(),
{
    if s.len() == 0 {
        (0, 0)
    } else if whitespace(s[0]) {
        let (lo, hi) = trim_witness(s.skip(1));
        lemma_trim_bounds_front(s, lo, hi);
        (lo + 1, hi + 1)
    } else if whitespace(s.last()) {
        let (lo, hi) = trim_witness(s.drop_last());
        lemma_trim_bounds_back(s, lo, hi);
        (lo, hi)
    } else {
        (0, s.len() as int)
    }
}

/// Trim bounds give a trim.
pub proof fn lemma_trim_of_bounds(s: Seq<char>, lo: int, hi: int)
    requires
        trim_bounds(s, lo, hi),
    ensures
        is_trim_of(s, s.subrange(lo, hi)),
{
}

/// Every text has a trim: `trim_seq` is one.
pub proof fn lemma_trim_exists(s: Seq<char>)
    ensures
        is_trim_of(s, trim_seq(s)),
{
    let (lo, hi) = trim_witness(s);
    lemma_trim_of_bounds(s, lo, hi);
}

/// Each character of a piece of `s` is a character of `s`.
pub proof fn lemma_split_chars_from(s: Seq<char>, sep: char)
    ensures
        forall|k: int, j: int|
            0 <= k < split_on(s, sep).len() && 0 <= j < split_on(s, sep)[k].len() ==> s.contains(
                #[trigger] split_on(s, sep)[k][j],
            ),
    decreases s.len(),
{
    lemma_split_nonempty(s, sep);
    if s.len() > 0 {
        let d = s.drop_last();
        lemma_split_chars_from(d, sep);
        lemma_split_nonempty(d, sep);
        let pre = split_on(d, sep);
        let parts = split_on(s, sep);
        assert forall|k: int, j: int| 0 <= k < parts.len() && 0 <= j < parts[k].len() implies s.contains(
            #[trigger] parts[k][j],
        ) by {
            if s.last() == sep {
                assert(parts[k] == pre[k]);
                assert(d.contains(pre[k][j]));
                let m = choose|m: int| 0 <= m < d.len() && d[m] == pre[k][j];
                assert(s[m] == d[m]);
            } else if k < pre.len() - 1 {
                assert(parts[k] == pre[k]);
                assert(d.contains(pre[k][j]));
                let m = choose|m: int| 0 <= m < d.len() && d[m] == pre[k][j];
                assert(s[m] == d[m]);
            } else {
                assert(parts[k] == pre.last().push(s.last()));
                if j < pre.last().len() {
                    assert(parts[k][j] == pre[pre.len() - 1][j]);
                    assert(d.contains(pre[pre.len() - 1][j]));
                    let m = choose|m: int| 0 <= m < d.len() && d[m] == pre[pre.len() - 1][j];
                    assert(s[m] == d[m]);
                } else {
                    assert(parts[k][j] == s[s.len() - 1]);
                }
            }
        }
    }
}

/// Pieces written back with `sep` between them.
pub open spec fn joined_with(ps: Seq<Seq<char>>, sep: char) -> Seq<char>
    decreases ps.len(),
{
    if ps.len() <= 1 {
        if ps.len() == 1 {
            ps[0]
        } else {
            Seq::empty()
        }
    } else {
        joined_with(ps.drop_last(), sep) + seq![sep] + ps.last()
    }
}

/// Splitting and joining back gives the text, and no piece holds the separator.
pub proof fn lemma_split_join(s: Seq<char>, sep: char)
    ensures
        joined_with(split_on(s, sep), sep) == s,
        forall|k: int, j: int|
            0 <= k < split_on(s, sep).len() && 0 <= j < split_on(s, sep)[k].len() ==> #[trigger] split_on(
                s,
                sep,
            )[k][j] != sep,
    decreases s.len(),
{
    lemma_split_nonempty(s, sep);
    if s.len() > 0 {
        let d = s.drop_last();
        let pre = split_on(d, sep);
        lemma_split_join(d, sep);
        lemma_split_nonempty(d, sep);
        let parts = split_on(s, sep);
        if s.last() == sep {
            assert(parts == pre.push(Seq::<char>::empty()));
            assert(parts.drop_last() =~= pre);
            assert(joined_with(parts, sep) =~= d + seq![sep]);
            assert(s =~= d.push(sep));
            assert forall|k: int, j: int| 0 <= k < parts.len() && 0 <= j < parts[k].len() implies #[trigger] parts[k][j]
                != sep by {
                assert(k < pre.len());
                assert(parts[k] == pre[k]);
            }
        } else {
            let last = pre.last().push(s.last());
            assert(parts == pre.update(pre.len() - 1, last));
            if pre.len() >= 2 {
                assert(parts.drop_last() =~= pre.drop_last());
                assert(joined_with(pre, sep) == joined_with(pre.drop_last(), sep) + seq![sep] + pre.last());
                assert(joined_with(parts, sep) =~= joined_with(pre, sep).push(s.last()));
            } else {
                assert(joined_with(parts, sep) =~= joined_with(pre, sep).push(s.last()));
            }
            assert(s =~= d.push(s.last()));
            assert forall|k: int, j: int| 0 <= k < parts.len() && 0 <= j < parts[k].len() implies #[trigger] parts[k][j]
                != sep by {
                if k < pre.len() - 1 {
                    assert(parts[k] == pre[k]);
                } else if j < pre.last().len() {
                    assert(parts[k][j] == pre[pre.len() - 1][j]);
                }
            }
        }
    }
}

// ---------------------------------------------------------------------------
// Executable helpers
// ---------------------------------------------------------------------------

/// The characters of `s`, in order.
pub fn chars_of(s: &str) -> (res: Vec<char>)
    ensures
        res@ == s@,
{
    let mut res: Vec<char> = Vec::new();
    for c in it: s.chars()
        invariant
            res@ == it.seq().take(it.index() as int),
            it.seq() == s@,
    {
        res.push(c);
    }
    res
}

/// The string whose characters are `cs`.
pub fn string_of(cs: &Vec<char>) -> (res: String)
    ensures
        res@ == cs@,
{
    let mut res = String::new();
    let mut i: usize = 0;
    while i < cs.len()
        invariant
            i <= cs.len(),
            res@ == cs@.take(i as int),
        decreases cs.len() - i,
    {
        push_char(&mut res, cs[i]);
        assert(cs@.take(i as int).push(cs@[i as int]) == cs@.take(i + 1));
        i = i + 1;
    }
    assert(cs@.take(cs.len() as int) == cs@);
    res
}

/// A copy of `s`.
pub fn copy_str(s: &str) -> (res: String)
    ensures
        res@ == s@,
{
    let cs = chars_of(s);
    string_of(&cs)
}

/// The characters of `s` mapped to lower case.
pub fn lower_chars(s: &str) -> (res: Vec<char>)
    ensures
        res@ == lowercase(s@),
{
    let l = to_lowercase_string(s);
    chars_of(l.as_str())
}

/// Whether two character sequences are equal.
pub fn chars_eq(a: &Vec<char>, b: &Vec<char>) -> (res: bool)
    ensures
        res == (a@ == b@),
{
    if a.len() != b.len() {
        return false;
    }
    let mut i: usize = 0;
    while i < a.len()
        invariant
            a.len() == b.len(),
            i <= a.len(),
            forall|j: int| 0 <= j < i ==> a@[j] == b@[j],
        decreases a.len() - i,
    {
        if a[i] != b[i] {
            return false;
        }
        i = i + 1;
    }
    assert(a@ =~= b@);
    true
}

/// Whether `hay` has `needle` at position `at`.
pub(crate) fn infix_at(hay: &Vec<char>, needle: &Vec<char>, at: usize) -> (res: bool)
    requires
        at + needle.len() <= hay.len(),
    ensures
        res == (hay@.subrange(at as int, at + needle.len()) == needle@),
{
    let mut j: usize = 0;
    while j < needle.len()
        invariant
            at + needle.len() <= hay.len(),
            j <= needle.len(),
            forall|k: int| 0 <= k < j ==> hay@[at + k] == needle@[k],
        decreases needle.len() - j,
    {
        if hay[at + j] != needle[j] {
            assert(hay@.subrange(at as int, at + needle.len())[j as int] != needle@[j as int]);
            return false;
        }
        j = j + 1;
    }
    assert(hay@.subrange(at as int, at + needle.len()) =~= needle@);
    true
}

/// Append all of `t` to `out`.
pub(crate) fn append_chars(out: &mut Vec<char>, t: &Vec<char>)
    ensures
        final(out)@ == old(out)@ + t@,
{
    let mut k: usize = 0;
    while k < t.len()
        invariant
            k <= t@.len(),
            out@ == old(out)@ + t@.take(k as int),
        decreases t@.len() - k,
    {
        out.push(t[k]);
        assert(t@.take(k + 1) == t@.take(k as int).push(t@[k as int]));
        k = k + 1;
    }
    assert(t@.take(t@.len() as int) == t@);
}

/// Whether `needle` occurs in `hay` (`str::contains` with a string pattern).
pub fn contains_chars(hay: &Vec<char>, needle: &Vec<char>) -> (res: bool)
    ensures
        res == has_infix(hay@, needle@),
{
    if needle.len() > hay.len() {
        return false;
    }
    let last = hay.len() - needle.len();
    let mut i: usize = 0;
    loop
        invariant
            last == hay.len() - needle.len(),
            needle.len() <= hay.len(),
            i <= last,
            forall|k: int| 0 <= k < i ==> #[trigger] hay@.subrange(k, k + needle.len()) != needle@,
        decreases last - i,
    {
        if infix_at(hay, needle, i) {
            return true;
        }
        if i == last {
            return false;
        }
        i = i + 1;
    }
}

/// Whether `s` begins with `p`.
pub fn starts_with_chars(s: &Vec<char>, p: &Vec<char>) -> (res: bool)
    ensures
        res == starts_with(s@, p@),
{
    if p.len() > s.len() {
        return false;
    }
    infix_at(s, p, 0)
}

/// Whether `s` ends with `p`.
pub fn ends_with_chars(s: &Vec<char>, p: &Vec<char>) -> (res: bool)
    ensures
        res == ends_with(s@, p@),
{
    if p.len() > s.len() {
        return false;
    }
    infix_at(s, p, s.len() - p.len())
}

/// `s[from..to]` as a new vector.
pub fn slice_chars(s: &Vec<char>, from: usize, to: usize) -> (res: Vec<char>)
    requires
        from <= to <= s.len(),
    ensures
        res@ == s@.subrange(from as int, to as int),
{
    let mut res: Vec<char> = Vec::new();
    let mut i: usize = from;
    while i < to
        invariant
            from <= i <= to <= s.len(),
            res@ == s@.subrange(from as int, i as int),
        decreases to - i,
    {
        res.push(s[i]);
        i = i + 1;
    }
    res
}

/// `s` with every leading copy of `p` removed.
pub fn strip_prefixes_chars(s: &Vec<char>, p: &Vec<char>) -> (res: Vec<char>)
    ensures
        res@ == strip_prefixes(s@, p@),
{
    if p.len() == 0 {
        return slice_chars(s, 0, s.len());
    }
    let mut start: usize = 0;
    while p.len() <= s.len() - start && infix_at(s, p, start)
        invariant
            p.len() > 0,
            start <= s.len(),
            strip_prefixes(s@, p@) == strip_prefixes(s@.skip(start as int), p@),
        decreases s.len() - start,
    {
        assert(s@.skip(start as int).subrange(0, p.len() as int) == s@.subrange(
            start as int,
            start + p.len(),
        ));
        assert(s@.skip(start as int).skip(p.len() as int) == s@.skip(start + p.len()));
        start = start + p.len();
    }
    proof {
        let rest = s@.skip(start as int);
        if starts_with(rest, p@) {
            assert(rest.subrange(0, p.len() as int) == s@.subrange(start as int, start + p.len()));
        }
    }
    slice_chars(s, start, s.len())
}

/// `s` with every trailing copy of `p` removed.
pub fn strip_suffixes_chars(s: &Vec<char>, p: &Vec<char>) -> (res: Vec<char>)
    ensures
        res@ == strip_suffixes(s@, p@),
{
    if p.len() == 0 {
        return slice_chars(s, 0, s.len());
    }
    let mut end: usize = s.len();
    while p.len() <= end && infix_at(s, p, end - p.len())
        invariant
            p.len() > 0,
            end <= s.len(),
            strip_suffixes(s@, p@) == strip_suffixes(s@.take(end as int), p@),
        decreases end,
    {
        assert(s@.take(end as int).subrange(end - p.len(), end as int) == s@.subrange(
            end - p.len(),
            end as int,
        ));
        assert(s@.take(end as int).take(end - p.len()) == s@.take(end - p.len()));
        end = end - p.len();
    }
    proof {
        let rest = s@.take(end as int);
        if ends_with(rest, p@) {
            assert(rest.subrange(end - p.len(), end as int) == s@.subrange(
                end - p.len(),
                end as int,
            ));
        }
    }
    slice_chars(s, 0, end)
}

/// `s` without leading and trailing whitespace.
pub fn trim_chars(s: &Vec<char>) -> (res: Vec<char>)
    ensures
        is_trim_of(s@, res@),
        res@ == trim_seq(s@),
{
    let mut lo: usize = 0;
    while lo < s.len() && is_whitespace(s[lo])
        invariant
            lo <= s.len(),
            forall|i: int| 0 <= i < lo ==> whitespace(#[trigger] s@[i]),
        decreases s.len() - lo,
    {
        lo = lo + 1;
    }
    let mut hi: usize = s.len();
    while hi > lo && is_whitespace(s[hi - 1])
        invariant
            lo <= hi <= s.len(),
            forall|i: int| hi <= i < s.len() ==> whitespace(#[trigger] s@[i]),
        decreases hi,
    {
        hi = hi - 1;
    }
    let res = slice_chars(s, lo, hi);
    assert(lo == hi ==> forall|i: int| 0 <= i < s.len() ==> whitespace(#[trigger] s@[i]));
    assert(is_trim_of(s@, res@)) by {
        assert(res@ == s@.subrange(lo as int, hi as int));
    }
    proof {
        lemma_trim_unique(s@, res@, trim_seq(s@));
    }
    res
}

/// The pieces of `s` between the occurrences of `sep`.
pub fn split_chars(s: &Vec<char>, sep: char) -> (res: Vec<Vec<char>>)
    ensures
        res@.len() == split_on(s@, sep).len(),
        forall|i: int| 0 <= i < res@.len() ==> #[trigger] res@[i]@ == split_on(s@, sep)[i],
{
    let mut res: Vec<Vec<char>> = Vec::new();
    let mut cur: Vec<char> = Vec::new();
    let mut i: usize = 0;
    while i < s.len()
        invariant
            i <= s.len(),
            split_on(s@.take(i as int), sep).len() == res@.len() + 1,
            forall|k: int| 0 <= k < res@.len() ==> #[trigger] res@[k]@ == split_on(s@.take(i as int), sep)[k],
            cur@ == split_on(s@.take(i as int), sep).last(),
        decreases s.len() - i,
    {
        proof {
            assert(s@.take(i + 1).drop_last() == s@.take(i as int));
            lemma_split_nonempty(s@.take(i as int), sep);
        }
        if s[i] == sep {
            let done = cur;
            res.push(done);
            cur = Vec::new();
        } else {
            cur.push(s[i]);
        }
        i = i + 1;
    }
    assert(s@.take(s.len() as int) == s@);
    res.push(cur);
    res
}

/// The concatenation `a + b + c`.
pub fn concat3(a: &str, b: &str, c: &str) -> (res: String)
    ensures
        res@ == a@ + b@ + c@,
{
    let mut res = copy_str(a);
    push_str(&mut res, b);
    push_str(&mut res, c);
    res
}

/// Whether `s` reads exactly `lit`.
pub fn str_is(s: &str, lit: &str) -> (res: bool)
    ensures
        res == (s@ == lit@),
{
    chars_eq(&chars_of(s), &chars_of(lit))
}

/// `a` comes strictly before `b` in lexicographic order of characters (the
/// order of `str` comparison).
pub open spec fn lex_lt(a: Seq<char>, b: Seq<char>) -> bool
    decreases a.len(),
{
    if b.len() == 0 {
        false
    } else if a.len() == 0 {
        true
    } else if a[0] != b[0] {
        (a[0] as int) < (b[0] as int)
    } else {
        lex_lt(a.skip(1), b.skip(1))
    }
}

/// No text comes before itself.
pub proof fn lemma_lex_irreflexive(a: Seq<char>)
    ensures
        !lex_lt(a, a),
    decreases a.len(),
{
    if a.len() > 0 {
        lemma_lex_irreflexive(a.skip(1));
    }
}

/// Of two different texts one comes before the other, and never both.
pub proof fn lemma_lex_total(a: Seq<char>, b: Seq<char>)
    ensures
        a != b ==> lex_lt(a, b) || lex_lt(b, a),
        !(lex_lt(a, b) && lex_lt(b, a)),
    decreases a.len(),
{
    if a.len() > 0 && b.len() > 0 && a[0] == b[0] {
        lemma_lex_total(a.skip(1), b.skip(1));
        if a.skip(1) == b.skip(1) {
            assert(a =~= seq![a[0]] + a.skip(1));
            assert(b =~= seq![b[0]] + b.skip(1));
        }
    } else if a.len() == 0 && b.len() == 0 {
        assert(a =~= b);
    }
}

/// Lexicographic order is transitive.
pub proof fn lemma_lex_transitive(a: Seq<char>, b: Seq<char>, c: Seq<char>)
    requires
        lex_lt(a, b),
        lex_lt(b, c),
    ensures
        lex_lt(a, c),
    decreases a.len(),
{
    if a.len() > 0 && a[0] == b[0] && b[0] == c[0] {
        lemma_lex_transitive(a.skip(1), b.skip(1), c.skip(1));
    }
}

/// Whether `a` comes strictly before `b` (`a < b` on strings).
pub fn str_lt(a: &str, b: &str) -> (res: bool)
    ensures
        res == lex_lt(a@, b@),
{
    let x = chars_of(a);
    let y = chars_of(b);
    let mut i: usize = 0;
    loop
        invariant
            i <= x@.len(),
            i <= y@.len(),
            x@ == a@,
            y@ == b@,
            lex_lt(x@, y@) == lex_lt(x@.skip(i as int), y@.skip(i as int)),
        decreases x@.len() - i,
    {
        assert(x@.skip(i as int).len() == x@.len() - i);
        assert(y@.skip(i as int).len() == y@.len() - i);
        if i == y.len() {
            return false;
        }
        if i == x.len() {
            return true;
        }
        assert(x@.skip(i as int)[0] == x@[i as int]);
        assert(y@.skip(i as int)[0] == y@[i as int]);
        if x[i] != y[i] {
            return x[i] < y[i];
        }
        proof {
            assert(x@.skip(i as int).skip(1) =~= x@.skip(i + 1));
            assert(y@.skip(i as int).skip(1) =~= y@.skip(i + 1));
        }
        i = i + 1;
    }
}

/// The texts of `v`, each once, in lexicographic order (a sort then `dedup`).
pub fn sorted_distinct(v: &Vec<String>) -> (names: Vec<String>)
    ensures
        forall|p: int, q: int| 0 <= p < q < names@.len() ==> lex_lt(#[trigger] names@[p]@, #[trigger] names@[q]@),
        forall|x: Seq<char>| #[trigger] views_of(names@).contains(x) <==> views_of(v@).contains(x),
{
    let mut names: Vec<String> = Vec::new();
    let mut i: usize = 0;
    while i < v.len()
        invariant
            i <= v@.len(),
            forall|p: int, q: int| 0 <= p < q < names@.len() ==> lex_lt(#[trigger] names@[p]@, #[trigger] names@[q]@),
            forall|x: Seq<char>| views_of(names@).contains(x) <==> views_of(v@).take(i as int).contains(x),
        decreases v@.len() - i,
    {
        let m = v[i].clone();
        let ghost seen = views_of(v@).take(i as int);
        proof {
            assert(views_of(v@).take(i + 1) =~= seen.push(m@));
        }
        let mut pos: usize = 0;
        while pos < names.len() && str_lt(names[pos].as_str(), m.as_str())
            invariant
                pos <= names@.len(),
                forall|p: int| 0 <= p < pos ==> lex_lt(#[trigger] names@[p]@, m@),
            decreases names@.len() - pos,
        {
            pos = pos + 1;
        }
        let ghost old_v = views_of(names@);
        if pos < names.len() && str_is(names[pos].as_str(), m.as_str()) {
            proof {
                assert(old_v[pos as int] == m@);
                assert forall|x: Seq<char>| old_v.contains(x) <==> seen.push(m@).contains(x) by {
                    if seen.push(m@).contains(x) && x != m@ {
                        let k = choose|k: int| 0 <= k < seen.push(m@).len() && seen.push(m@)[k] == x;
                        assert(seen[k] == x);
                    }
                    if seen.contains(x) {
                        let k = choose|k: int| 0 <= k < seen.len() && seen[k] == x;
                        assert(seen.push(m@)[k] == x);
                    }
                }
            }
        } else {
            proof {
                if pos < names@.len() {
                    lemma_lex_total(names@[pos as int]@, m@);
                    assert forall|q: int| pos < q < names@.len() implies lex_lt(m@, #[trigger] names@[q]@) by {
                        lemma_lex_transitive(m@, names@[pos as int]@, names@[q]@);
                    }
                }
            }
            let ghost old_names = names@;
            names.insert(pos, m);
            proof {
                let nv = views_of(names@);
                assert(nv =~= old_v.insert(pos as int, m@));
                assert forall|p: int, q: int| 0 <= p < q < names@.len() implies lex_lt(
                    #[trigger] names@[p]@,
                    #[trigger] names@[q]@,
                ) by {
                    if q < pos {
                        assert(names@[p] == old_names[p] && names@[q] == old_names[q]);
                    } else if q == pos {
                        assert(names@[p] == old_names[p]);
                    } else if p < pos {
                        assert(names@[p] == old_names[p] && names@[q] == old_names[q - 1]);
                        lemma_lex_transitive(names@[p]@, m@, names@[q]@);
                    } else if p == pos {
                        assert(names@[q] == old_names[q - 1]);
                    } else {
                        assert(names@[p] == old_names[p - 1] && names@[q] == old_names[q - 1]);
                    }
                }
                assert forall|x: Seq<char>| nv.contains(x) <==> seen.push(m@).contains(x) by {
                    if nv.contains(x) {
                        let k = choose|k: int| 0 <= k < nv.len() && nv[k] == x;
                        if k < pos {
                            assert(old_v[k] == x);
                        } else if k > pos {
                            assert(old_v[k - 1] == x);
                        }
                        if x != m@ {
                            assert(old_v.contains(x));
                            let j = choose|j: int| 0 <= j < seen.len() && seen[j] == x;
                            assert(seen.push(m@)[j] == x);
                        } else {
                            assert(seen.push(m@)[seen.len() as int] == x);
                        }
                    }
                    if seen.push(m@).contains(x) {
                        let k = choose|k: int| 0 <= k < seen.push(m@).len() && seen.push(m@)[k] == x;
                        if k < seen.len() {
                            assert(seen[k] == x);
                            assert(old_v.contains(x));
                            let j = choose|j: int| 0 <= j < old_v.len() && old_v[j] == x;
                            if j < pos {
                                assert(nv[j] == x);
                            } else {
                                assert(nv[j + 1] == x);
                            }
                        } else {
                            assert(nv[pos as int] == x);
                        }
                    }
                }
            }
        }
        i = i + 1;
    }
    assert(views_of(v@).take(v@.len() as int) =~= views_of(v@));
    names
}

} // verus!
