//! Where archived session files go, and where they return to.
//!
//! Paths are read as `/`-separated components the way `std::path` reads them
//! on Unix: a leading `/` is the root, a leading `.` the current directory,
//! empty and other `.` components are dropped.
use vstd::prelude::*;

use crate::error::ApiError;
use crate::text::{
    append_chars, concat3, copy_str, chars_eq, chars_of, lemma_split_join, lemma_split_nonempty, split_chars, split_on, string_of,
};

verus! {

broadcast use vstd::seq_lib::group_seq_properties;

/// Components of a path: the root or a leading `.`, then the non-empty,
/// non-`.` pieces between separators.
pub open spec fn path_components(p: Seq<char>) -> Seq<Seq<char>> {
    let pieces = split_on(p, '/').filter(|c: Seq<char>| c.len() > 0 && c != "."@);
    if p.len() > 0 && p[0] == '/' {
        seq!["/"@] + pieces
    } else if split_on(p, '/')[0] == "."@ {
        seq!["."@] + pieces
    } else {
        pieces
    }
}

/// A name component (neither the root, `.`, nor `..`).
pub open spec fn normal_component(c: Seq<char>) -> bool {
    c != "/"@ && c != "."@ && c != ".."@
}

/// `a` extended by `b` with one separator between them (none when `a` is
/// empty or already ends in one), as `PathBuf::push` does for a relative `b`.
pub open spec fn path_join(a: Seq<char>, b: Seq<char>) -> Seq<char> {
    if a.len() == 0 || a.last() == '/' {
        a + b
    } else {
        a + "/"@ + b
    }
}

/// Components written out with `/` between them.
pub open spec fn joined(cs: Seq<Seq<char>>) -> Seq<char>
    decreases cs.len(),
{
    if cs.len() == 0 {
        Seq::empty()
    } else if cs.len() == 1 {
        cs[0]
    } else {
        joined(cs.drop_last()) + "/"@ + cs.last()
    }
}

fn is_dot(c: &Vec<char>) -> (res: bool)
    ensures
        res == (c@ == "."@),
{
    proof {
        reveal_strlit(".");
    }
    chars_eq(c, &chars_of("."))
}

fn is_dot_dot(c: &Vec<char>) -> (res: bool)
    ensures
        res == (c@ == ".."@),
{
    proof {
        reveal_strlit("..");
    }
    chars_eq(c, &chars_of(".."))
}

/// The views of a list of character vectors.
pub open spec fn char_views(v: Seq<Vec<char>>) -> Seq<Seq<char>> {
    v.map_values(|c: Vec<char>| c@)
}

/// The components of `p`.
pub fn components_of(p: &str) -> (res: Vec<Vec<char>>)
    ensures
        char_views(res@) == path_components(p@),
{
    proof {
        reveal_strlit("/");
        reveal_strlit(".");
        lemma_split_nonempty(p@, '/');
    }
    let cs = chars_of(p);
    let parts = split_chars(&cs, '/');
    let ghost keep = |c: Seq<char>| c.len() > 0 && c != "."@;
    let ghost sp = split_on(p@, '/');
    let mut res: Vec<Vec<char>> = Vec::new();
    let rooted = cs.len() > 0 && cs[0] == '/';
    let dotted = !rooted && is_dot(&parts[0]);
    if rooted {
        let mut r: Vec<char> = Vec::new();
        r.push('/');
        assert(r@ =~= "/"@);
        res.push(r);
    } else if dotted {
        let mut d: Vec<char> = Vec::new();
        d.push('.');
        assert(d@ =~= "."@);
        res.push(d);
    }
    let ghost head = char_views(res@);
    proof {
        assert(rooted ==> head =~= seq!["/"@]);
        assert(!rooted && dotted ==> head =~= seq!["."@]);
        assert(!rooted && !dotted ==> head =~= Seq::<Seq<char>>::empty());
    }
    let mut i: usize = 0;
    while i < parts.len()
        invariant
            i <= parts@.len(),
            parts@.len() == sp.len(),
            sp == split_on(p@, '/'),
            forall|k: int| 0 <= k < parts@.len() ==> #[trigger] parts@[k]@ == sp[k],
            keep == (|c: Seq<char>| c.len() > 0 && c != "."@),
            char_views(res@) == head + sp.take(i as int).filter(keep),
        decreases parts@.len() - i,
    {
        proof {
            assert(sp.take(i + 1) =~= sp.take(i as int).push(sp[i as int]));
            sp.take(i as int).lemma_filter_push(sp[i as int], keep);
        }
        let piece = &parts[i];
        if piece.len() > 0 && !is_dot(piece) {
            let ghost before = char_views(res@);
            let mut copy: Vec<char> = Vec::new();
            let mut j: usize = 0;
            while j < piece.len()
                invariant
                    j <= piece@.len(),
                    copy@ == piece@.take(j as int),
                decreases piece@.len() - j,
            {
                copy.push(piece[j]);
                proof {
                    assert(piece@.take(j + 1) =~= piece@.take(j as int).push(piece@[j as int]));
                }
                j = j + 1;
            }
            assert(piece@.take(piece@.len() as int) =~= piece@);
            res.push(copy);
            proof {
                assert(char_views(res@) =~= before.push(sp[i as int]));
            }
        }
        i = i + 1;
    }
    assert(sp.take(sp.len() as int) =~= sp);
    res
}

/// Where an archived session file is moved: `<archive_dir>/<project
/// dir>/<file name>`, when the file has a name and a parent directory with a
/// name.
pub open spec fn archive_destination_spec(src: Seq<char>, archive_dir: Seq<char>) -> Option<Seq<char>> {
    let cs = path_components(src);
    if cs.len() >= 2 && normal_component(cs[cs.len() - 2]) && normal_component(cs.last()) {
        Some(path_join(path_join(archive_dir, cs[cs.len() - 2]), cs.last()))
    } else {
        None
    }
}

fn join_text(a: &Vec<char>, b: &Vec<char>) -> (res: Vec<char>)
    ensures
        res@ == path_join(a@, b@),
{
    let mut res: Vec<char> = Vec::new();
    let mut i: usize = 0;
    while i < a.len()
        invariant
            i <= a@.len(),
            res@ == a@.take(i as int),
        decreases a@.len() - i,
    {
        res.push(a[i]);
        proof {
            assert(a@.take(i + 1) =~= a@.take(i as int).push(a@[i as int]));
        }
        i = i + 1;
    }
    assert(a@.take(a@.len() as int) =~= a@);
    if !(a.len() == 0 || a[a.len() - 1] == '/') {
        res.push('/');
        proof {
            reveal_strlit("/");
            assert(res@ =~= a@ + "/"@);
        }
    }
    let ghost base = res@;
    let mut j: usize = 0;
    while j < b.len()
        invariant
            j <= b@.len(),
            res@ == base + b@.take(j as int),
        decreases b@.len() - j,
    {
        res.push(b[j]);
        proof {
            assert(b@.take(j + 1) =~= b@.take(j as int).push(b@[j as int]));
        }
        j = j + 1;
    }
    assert(b@.take(b@.len() as int) =~= b@);
    res
}

fn is_normal(c: &Vec<char>) -> (res: bool)
    ensures
        res == normal_component(c@),
{
    proof {
        reveal_strlit("/");
    }
    let root = c.len() == 1 && c[0] == '/';
    proof {
        if c@ == "/"@ {
            assert(c@.len() == 1 && c@[0] == '/');
        }
        if root {
            assert(c@ =~= "/"@);
        }
    }
    !root && !is_dot(c) && !is_dot_dot(c)
}

/// Where the archived session file `src` is moved, inside `archive_dir`.
pub fn archive_destination(src: &str, archive_dir: &str) -> (res: Option<String>)
    ensures
        match (res, archive_destination_spec(src@, archive_dir@)) {
            (Some(d), Some(t)) => d@ == t,
            (None, None) => true,
            _ => false,
        },
{
    let cs = components_of(src);
    let n = cs.len();
    if n < 2 {
        return None;
    }
    proof {
        assert(char_views(cs@)[n - 2] == cs@[n - 2]@);
        assert(char_views(cs@)[n - 1] == cs@[n - 1]@);
    }
    if !is_normal(&cs[n - 2]) || !is_normal(&cs[n - 1]) {
        return None;
    }
    let dir = join_text(&chars_of(archive_dir), &cs[n - 2]);
    let dest = join_text(&dir, &cs[n - 1]);
    Some(string_of(&dest))
}

/// What happens to a session file's location when it is unarchived.
pub enum RestorePlan {
    /// The file is not in the archive: its location stays.
    KeepCurrent,
    /// The file goes back to this location.
    Restore(String),
    /// The archived location leaves the archive through `..` or the root: refused.
    Traversal,
}

/// Where an archived file returns to: its location relative to the archive,
/// under the projects directory. Files outside the archive keep their
/// location; a relative location with a component other than a name is
/// refused.
pub open spec fn restore_spec(current: Seq<char>, archive_base: Seq<char>, projects_dir: Seq<char>) -> Option<
    Option<Seq<char>>,
> {
    let cc = path_components(current);
    let bc = path_components(archive_base);
    if cc.len() >= bc.len() && cc.take(bc.len() as int) == bc {
        let rel = cc.skip(bc.len() as int);
        if forall|k: int| 0 <= k < rel.len() ==> normal_component(#[trigger] rel[k]) {
            Some(Some(path_join(projects_dir, joined(rel))))
        } else {
            None
        }
    } else {
        Some(None)
    }
}

/// Where the session file at `current` goes when unarchived.
pub fn restore_location(current: &str, archive_base: &str, projects_dir: &str) -> (res: RestorePlan)
    ensures
        match (res, restore_spec(current@, archive_base@, projects_dir@)) {
            (RestorePlan::KeepCurrent, Some(None)) => true,
            (RestorePlan::Restore(p), Some(Some(t))) => p@ == t,
            (RestorePlan::Traversal, None) => true,
            _ => false,
        },
{
    let cc = components_of(current);
    let bc = components_of(archive_base);
    let ghost ccv = char_views(cc@);
    let ghost bcv = char_views(bc@);
    if cc.len() < bc.len() {
        return RestorePlan::KeepCurrent;
    }
    let mut i: usize = 0;
    while i < bc.len()
        invariant
            i <= bc@.len(),
            bc@.len() <= cc@.len(),
            ccv == char_views(cc@),
            bcv == char_views(bc@),
            ccv == path_components(current@),
            bcv == path_components(archive_base@),
            forall|k: int| 0 <= k < i ==> #[trigger] ccv[k] == bcv[k],
        decreases bc@.len() - i,
    {
        if !chars_eq(&cc[i], &bc[i]) {
            proof {
                assert(ccv[i as int] != bcv[i as int]);
                assert(ccv.take(bcv.len() as int)[i as int] != bcv[i as int]);
            }
            return RestorePlan::KeepCurrent;
        }
        i = i + 1;
    }
    assert(ccv.take(bcv.len() as int) =~= bcv);
    let ghost rel = ccv.skip(bcv.len() as int);
    let mut text: Vec<char> = Vec::new();
    let mut k: usize = bc.len();
    while k < cc.len()
        invariant
            bc@.len() <= k <= cc@.len(),
            ccv == char_views(cc@),
            bcv == char_views(bc@),
            rel == ccv.skip(bcv.len() as int),
            ccv == path_components(current@),
            bcv == path_components(archive_base@),
            ccv.len() >= bcv.len(),
            ccv.take(bcv.len() as int) == bcv,
            forall|j: int| 0 <= j < k - bc@.len() ==> normal_component(#[trigger] rel[j]),
            text@ == joined(rel.take(k - bc@.len())),
        decreases cc@.len() - k,
    {
        let ghost m = k - bc@.len();
        proof {
            assert(rel[m] == ccv[k as int]);
            assert(ccv[k as int] == cc@[k as int]@);
        }
        if !is_normal(&cc[k]) {
            return RestorePlan::Traversal;
        }
        proof {
            assert(rel.take(m + 1).drop_last() =~= rel.take(m));
            assert(rel.take(m + 1).last() == rel[m]);
        }
        let ghost before = text@;
        if k > bc.len() {
            text.push('/');
            append_chars(&mut text, &cc[k]);
            proof {
                reveal_strlit("/");
                assert(text@ =~= joined(rel.take(m)) + "/"@ + rel[m]);
            }
        } else {
            append_chars(&mut text, &cc[k]);
            proof {
                assert(rel.take(1) =~= seq![rel[0]]);
                assert(text@ =~= rel[0]);
            }
        }
        k = k + 1;
    }
    proof {
        assert(rel.take(rel.len() as int) =~= rel);
    }
    let dest = join_text(&chars_of(projects_dir), &text);
    RestorePlan::Restore(string_of(&dest))
}

/// The location recorded for a session once it is unarchived: where its file
/// returns to, or the current location for a file outside the archive; an
/// archived location that leaves the archive is refused.
pub fn unarchived_location(current: &str, archive_base: &str, projects_dir: &str) -> (res: Result<String, ApiError>)
    ensures
        match restore_spec(current@, archive_base@, projects_dir@) {
            Some(None) => res matches Ok(p) && p@ == current@,
            Some(Some(t)) => res matches Ok(p) && p@ == t,
            None => res matches Err(e) && e matches ApiError::BadRequest(m) && m@ == "Invalid archive path"@,
        },
{
    match restore_location(current, archive_base, projects_dir) {
        RestorePlan::KeepCurrent => Ok(copy_str(current)),
        RestorePlan::Restore(p) => Ok(p),
        RestorePlan::Traversal => Err(ApiError::BadRequest(copy_str("Invalid archive path"))),
    }
}

/// The error for a session that cannot be archived: unknown, or archived
/// already.
pub fn archive_refused(id: &str) -> (e: ApiError)
    ensures
        e matches ApiError::NotFound(m) && m@ == "Session "@ + id@ + " not found or already archived"@,
{
    ApiError::NotFound(concat3("Session ", id, " not found or already archived"))
}

/// Splitting at a separator splits each side apart.
pub proof fn lemma_split_at_separator(x: Seq<char>, y: Seq<char>, sep: char)
    ensures
        split_on(x + seq![sep] + y, sep) == split_on(x, sep) + split_on(y, sep),
    decreases y.len(),
{
    let s = x + seq![sep] + y;
    if y.len() == 0 {
        assert(s.drop_last() =~= x);
        assert(split_on(x, sep).push(Seq::<char>::empty()) =~= split_on(x, sep) + split_on(y, sep));
    } else {
        assert(s.drop_last() =~= x + seq![sep] + y.drop_last());
        lemma_split_at_separator(x, y.drop_last(), sep);
        lemma_split_nonempty(y.drop_last(), sep);
        lemma_split_nonempty(x, sep);
        let a = split_on(x, sep);
        let b = split_on(y.drop_last(), sep);
        assert(split_on(s.drop_last(), sep) == a + b);
        if y.last() == sep {
            assert((a + b).push(Seq::<char>::empty()) =~= a + b.push(Seq::<char>::empty()));
        } else {
            assert((a + b).update((a + b).len() - 1, (a + b).last().push(y.last())) =~= a + b.update(
                b.len() - 1,
                b.last().push(y.last()),
            ));
        }
    }
}

/// A word without the separator is one piece.
pub proof fn lemma_split_word(w: Seq<char>, sep: char)
    requires
        forall|i: int| 0 <= i < w.len() ==> w[i] != sep,
    ensures
        split_on(w, sep) == seq![w],
    decreases w.len(),
{
    if w.len() > 0 {
        lemma_split_word(w.drop_last(), sep);
        assert(w.drop_last().push(w.last()) =~= w);
        assert(seq![w.drop_last()].update(0, w.drop_last().push(w.last())) =~= seq![w]);
    }
}

/// A name component of a path is a non-empty piece other than `.` with no
/// separator in it.
pub proof fn lemma_normal_component_is_word(p: Seq<char>, k: int)
    requires
        0 <= k < path_components(p).len(),
        normal_component(path_components(p)[k]),
    ensures
        path_components(p)[k].len() > 0,
        path_components(p)[k] != "."@,
        forall|i: int| 0 <= i < path_components(p)[k].len() ==> path_components(p)[k][i] != '/',
{
    let keep = |c: Seq<char>| c.len() > 0 && c != "."@;
    let sp = split_on(p, '/');
    let pieces = sp.filter(keep);
    let cs = path_components(p);
    let c = cs[k];
    lemma_split_join(p, '/');
    let j: int = if (p.len() > 0 && p[0] == '/') || sp[0] == "."@ {
        k - 1
    } else {
        k
    };
    assert(j >= 0) by {
        if k == 0 && ((p.len() > 0 && p[0] == '/') || sp[0] == "."@) {
            assert(c == "/"@ || c == "."@);
        }
    }
    assert(pieces[j] == c);
    sp.lemma_filter_pred(keep, j);
    assert(pieces.contains(c));
    sp.lemma_filter_contains_rev(keep, c);
    let m = choose|m: int| 0 <= m < sp.len() && sp[m] == c;
    assert forall|i: int| 0 <= i < c.len() implies c[i] != '/' by {
        assert(sp[m][i] != '/');
    }
}

/// Joining a name onto a path adds exactly that name to its components.
pub proof fn lemma_components_join(z: Seq<char>, w: Seq<char>)
    requires
        w.len() > 0,
        w != "."@,
        forall|i: int| 0 <= i < w.len() ==> w[i] != '/',
    ensures
        path_components(path_join(z, w)) == path_components(z) + seq![w],
{
    reveal_strlit("/");
    reveal_strlit(".");
    let keep = |c: Seq<char>| c.len() > 0 && c != "."@;
    lemma_split_word(w, '/');
    let j = path_join(z, w);
    if z.len() == 0 {
        assert(j =~= w);
        assert(split_on(z, '/') =~= seq![Seq::<char>::empty()]);
        assert(seq![Seq::<char>::empty()].filter(keep) =~= Seq::<Seq<char>>::empty()) by {
            Seq::<Seq<char>>::empty().lemma_filter_push(Seq::<char>::empty(), keep);
            assert(Seq::<Seq<char>>::empty().push(Seq::<char>::empty()) =~= seq![Seq::<char>::empty()]);
        }
        assert(seq![w].filter(keep) =~= seq![w]) by {
            Seq::<Seq<char>>::empty().lemma_filter_push(w, keep);
            assert(Seq::<Seq<char>>::empty().push(w) =~= seq![w]);
        }
        assert(w[0] != '/');
        assert(path_components(j) =~= path_components(z) + seq![w]);
    } else {
        let x = if z.last() == '/' {
            z.drop_last()
        } else {
            z
        };
        assert(j =~= x + seq!['/'] + w);
        lemma_split_at_separator(x, w, '/');
        lemma_split_nonempty(x, '/');
        let sx = split_on(x, '/');
        Seq::filter_distributes_over_add(sx, seq![w], keep);
        Seq::<Seq<char>>::empty().lemma_filter_push(w, keep);
        assert(Seq::<Seq<char>>::empty().push(w) =~= seq![w]);
        if z.last() == '/' {
            assert(z =~= x + seq!['/'] + Seq::<char>::empty());
            lemma_split_at_separator(x, Seq::<char>::empty(), '/');
            Seq::filter_distributes_over_add(sx, seq![Seq::<char>::empty()], keep);
            Seq::<Seq<char>>::empty().lemma_filter_push(Seq::<char>::empty(), keep);
            assert(Seq::<Seq<char>>::empty().push(Seq::<char>::empty()) =~= seq![Seq::<char>::empty()]);
            assert(split_on(z, '/') == sx + seq![Seq::<char>::empty()]);
            assert((sx + seq![Seq::<char>::empty()])[0] == sx[0]);
        }
        assert(split_on(j, '/') == sx + seq![w]);
        assert((sx + seq![w])[0] == sx[0]);
        assert(j[0] == z[0]);
        assert(path_components(j) =~= path_components(z) + seq![w]);
    }
}

/// Unarchiving undoes archiving: a file archived into `archive_dir` returns
/// to `<projects_dir>/<project dir>/<file name>`, the project directory and
/// file name it was archived with; so a file archived from a project
/// directory under `projects_dir` returns to a path with the same components
/// as the one it left.
pub proof fn law_unarchive_restores_archived(src: Seq<char>, archive_dir: Seq<char>, projects_dir: Seq<char>)
    requires
        archive_destination_spec(src, archive_dir) is Some,
    ensures
        ({
            let cs = path_components(src);
            let dir = cs[cs.len() - 2];
            let file = cs.last();
            let dest = archive_destination_spec(src, archive_dir).unwrap();
            &&& restore_spec(dest, archive_dir, projects_dir) == Some(Some(path_join(projects_dir, dir + "/"@ + file)))
            &&& path_components(path_join(projects_dir, dir + "/"@ + file)) == path_components(projects_dir) + seq![dir, file]
            &&& path_components(src) == path_components(projects_dir) + seq![dir, file]
                ==> path_components(path_join(projects_dir, dir + "/"@ + file)) == path_components(src)
        }),
{
    reveal_strlit("/");
    let cs = path_components(src);
    let n = cs.len();
    let dir = cs[n - 2];
    let file = cs.last();
    lemma_normal_component_is_word(src, n - 2);
    lemma_normal_component_is_word(src, n - 1);
    let mid = path_join(archive_dir, dir);
    let dest = path_join(mid, file);
    lemma_components_join(archive_dir, dir);
    lemma_components_join(mid, file);
    let bc = path_components(archive_dir);
    let dc = path_components(dest);
    assert(dc =~= bc + seq![dir, file]);
    assert(dc.take(bc.len() as int) =~= bc);
    let rel = dc.skip(bc.len() as int);
    assert(rel =~= seq![dir, file]);
    assert(joined(rel) =~= dir + "/"@ + file) by {
        assert(rel.drop_last() =~= seq![dir]);
        assert(joined(seq![dir]) == dir);
        assert(rel.last() == file);
    }
    let pm = path_join(projects_dir, dir);
    lemma_components_join(projects_dir, dir);
    lemma_components_join(pm, file);
    assert(path_join(projects_dir, dir + "/"@ + file) =~= path_join(pm, file));
    assert(path_components(projects_dir) + seq![dir] + seq![file] =~= path_components(projects_dir) + seq![dir, file]);
}

} // verus!
