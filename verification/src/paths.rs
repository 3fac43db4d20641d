//! Filesystem paths as text.
//!
//! A path is the `Seq<char>` of its `/`-separated form. `Path::starts_with`,
//! `Path::strip_prefix` and `Path::parent` are given for paths without a
//! trailing `/` except for the root `/` itself; `Path::join`, `Path`
//! equality and `Path::file_name` for any form.
use vstd::prelude::*;

use crate::text::{chars_of, string_of, string_of_range};

verus! {

/// `base.join(rel)`: an absolute `rel` replaces `base`; otherwise a `/` is put
/// between them unless `base` is empty or already ends with one.
pub open spec fn join(base: Seq<char>, rel: Seq<char>) -> Seq<char> {
    if rel.len() > 0 && rel[0] == '/' {
        rel
    } else if base.len() == 0 {
        rel
    } else if base.last() == '/' {
        base + rel
    } else {
        base + seq!['/'] + rel
    }
}

/// `p.starts_with(base)`, compared component by component.
pub open spec fn starts_with(p: Seq<char>, base: Seq<char>) -> bool {
    ||| base.len() == 0
    ||| p == base
    ||| (base.len() < p.len() && p.take(base.len() as int) == base && (base.last() == '/' || p[base.len() as int] == '/'))
}

/// `p.strip_prefix(base)`: what is left of `p` after the components of `base`.
pub open spec fn strip_prefix(p: Seq<char>, base: Seq<char>) -> Option<Seq<char>> {
    if !starts_with(p, base) {
        None
    } else if base.len() == 0 {
        Some(p)
    } else if p == base {
        Some(Seq::empty())
    } else if base.last() == '/' {
        Some(p.skip(base.len() as int))
    } else {
        Some(p.skip(base.len() as int + 1))
    }
}

/// Position of the last `/` in `p`, if any.
pub open spec fn last_slash(p: Seq<char>) -> Option<int>
    decreases p.len(),
{
    if p.len() == 0 {
        None
    } else if p.last() == '/' {
        Some(p.len() - 1)
    } else {
        last_slash(p.drop_last())
    }
}

/// `p.parent()`: `None` for the root and the empty path.
pub open spec fn parent(p: Seq<char>) -> Option<Seq<char>> {
    if p.len() == 0 || p == seq!['/'] {
        None
    } else {
        match last_slash(p) {
            None => Some(Seq::empty()),
            Some(k) => if k == 0 { Some(seq!['/']) } else { Some(p.take(k)) },
        }
    }
}

/// `p.split('/')`: the texts between the `/`s of `p`.
pub open spec fn segments(p: Seq<char>) -> Seq<Seq<char>>
    decreases p.len(),
{
    if p.len() == 0 {
        seq![Seq::empty()]
    } else {
        let s = segments(p.drop_last());
        if p.last() == '/' {
            s.push(Seq::empty())
        } else {
            s.update(s.len() - 1, s.last().push(p.last()))
        }
    }
}

/// The segments that `Path::components` yields as components: those that
/// are not empty and not `.`, but for a `.` that starts a relative path.
pub open spec fn kept(segs: Seq<Seq<char>>, rooted: bool) -> Seq<Seq<char>>
    decreases segs.len(),
{
    if segs.len() == 0 {
        Seq::empty()
    } else {
        let k = kept(segs.drop_last(), rooted);
        if keeps(segs.last(), segs.len() - 1, rooted) {
            k.push(segs.last())
        } else {
            k
        }
    }
}

/// Whether the segment `s` at position `i` is a component.
pub open spec fn keeps(s: Seq<char>, i: int, rooted: bool) -> bool {
    s.len() > 0 && (s != seq!['.'] || (i == 0 && !rooted))
}

/// `p` starts at the root.
pub open spec fn is_rooted(p: Seq<char>) -> bool {
    p.len() > 0 && p[0] == '/'
}

/// The components of `p` after the root, as `Path::components` gives them.
pub open spec fn components(p: Seq<char>) -> Seq<Seq<char>> {
    kept(segments(p), is_rooted(p))
}

/// `Path` equality: `a` and `b` have the same components, so `a//b`, `a/./b`
/// and `a/b/` all equal `a/b`.
pub open spec fn same_path(a: Seq<char>, b: Seq<char>) -> bool {
    is_rooted(a) == is_rooted(b) && components(a) == components(b)
}

/// `p.file_name()`: the last component, unless it is `..` or the `.` of the
/// current directory, or there is none.
pub open spec fn file_name(p: Seq<char>) -> Option<Seq<char>> {
    let cs = components(p);
    if cs.len() == 0 || cs.last() == seq!['.', '.'] || cs.last() == seq!['.'] {
        None
    } else {
        Some(cs.last())
    }
}

pub proof fn lemma_segments_nonempty(p: Seq<char>)
    ensures
        segments(p).len() >= 1,
    decreases p.len(),
{
    if p.len() > 0 {
        lemma_segments_nonempty(p.drop_last());
    }
}

/// The components of `p`.
pub fn path_components(p: &Vec<char>) -> (r: Vec<Vec<char>>)
    ensures
        r@.map_values(|v: Vec<char>| v@) == components(p@),
{
    let rooted = p.len() > 0 && p[0] == '/';
    let mut out: Vec<Vec<char>> = Vec::new();
    let mut cur: Vec<char> = Vec::new();
    let mut nseg: usize = 0;
    let mut k: usize = 0;
    proof {
        assert(p@.take(0) =~= Seq::<char>::empty());
    }
    while k < p.len()
        invariant
            k <= p@.len(),
            rooted == is_rooted(p@),
            segments(p@.take(k as int)).len() == nseg + 1,
            cur@ == segments(p@.take(k as int)).last(),
            out@.map_values(|v: Vec<char>| v@) == kept(segments(p@.take(k as int)).drop_last(), rooted),
            nseg <= k,
        decreases p@.len() - k,
    {
        let ghost s = segments(p@.take(k as int));
        assert(p@.take(k + 1).drop_last() =~= p@.take(k as int));
        assert(p@.take(k + 1).last() == p@[k as int]);
        if p[k] == '/' {
            let keep = cur.len() > 0 && !(cur.len() == 1 && cur[0] == '.' && !(nseg == 0 && !rooted));
            proof {
                assert(keep == keeps(cur@, nseg as int, rooted)) by {
                    if cur@.len() == 1 && cur@[0] == '.' {
                        assert(cur@ =~= seq!['.']);
                    }
                }
                assert(s.push(Seq::<char>::empty()).drop_last() =~= s);
                assert(s.drop_last().push(s.last()) =~= s);
            }
            let ghost before = out@.map_values(|v: Vec<char>| v@);
            if keep {
                out.push(cur);
                assert(out@.map_values(|v: Vec<char>| v@) =~= before.push(s.last()));
            }
            cur = Vec::new();
            nseg = nseg + 1;
        } else {
            cur.push(p[k]);
            proof {
                let s2 = s.update(s.len() - 1, s.last().push(p@[k as int]));
                assert(s2.drop_last() =~= s.drop_last());
            }
        }
        k = k + 1;
    }
    assert(p@.take(k as int) =~= p@);
    let ghost s = segments(p@);
    let keep = cur.len() > 0 && !(cur.len() == 1 && cur[0] == '.' && !(nseg == 0 && !rooted));
    proof {
        lemma_segments_nonempty(p@);
        assert(keep == keeps(cur@, nseg as int, rooted)) by {
            if cur@.len() == 1 && cur@[0] == '.' {
                assert(cur@ =~= seq!['.']);
            }
        }
        assert(s.drop_last().push(s.last()) =~= s);
    }
    let ghost before = out@.map_values(|v: Vec<char>| v@);
    if keep {
        out.push(cur);
        assert(out@.map_values(|v: Vec<char>| v@) =~= before.push(s.last()));
    }
    out
}

/// Whether `a` and `b` are the same path (`Path` equality).
pub fn path_eq(a: &Vec<char>, b: &Vec<char>) -> (r: bool)
    ensures
        r == same_path(a@, b@),
{
    let ra = a.len() > 0 && a[0] == '/';
    let rb = b.len() > 0 && b[0] == '/';
    if ra != rb {
        return false;
    }
    let ca = path_components(a);
    let cb = path_components(b);
    let ghost va = ca@.map_values(|v: Vec<char>| v@);
    let ghost vb = cb@.map_values(|v: Vec<char>| v@);
    if ca.len() != cb.len() {
        assert(va.len() != vb.len());
        return false;
    }
    let mut i: usize = 0;
    while i < ca.len()
        invariant
            i <= ca@.len(),
            ca@.len() == cb@.len(),
            va == ca@.map_values(|v: Vec<char>| v@),
            vb == cb@.map_values(|v: Vec<char>| v@),
            va == components(a@),
            vb == components(b@),
            is_rooted(a@) == is_rooted(b@),
            forall|j: int| 0 <= j < i ==> va[j] == vb[j],
        decreases ca@.len() - i,
    {
        if crate::text::compare_chars(&ca[i], &cb[i]) != 0 {
            assert(va[i as int] != vb[i as int]);
            assert(va != vb);
            assert(!same_path(a@, b@));
            return false;
        }
        i = i + 1;
    }
    assert(va =~= vb);
    true
}

pub proof fn lemma_last_slash(p: Seq<char>)
    ensures
        match last_slash(p) {
            None => forall|i: int| 0 <= i < p.len() ==> #[trigger] p[i] != '/',
            Some(k) => 0 <= k < p.len() && p[k] == '/' && forall|i: int|
                k < i < p.len() ==> #[trigger] p[i] != '/',
        },
    decreases p.len(),
{
    if p.len() > 0 && p.last() != '/' {
        lemma_last_slash(p.drop_last());
        assert forall|i: int| 0 <= i < p.len() - 1 implies #[trigger] p[i] == p.drop_last()[i] by {}
    }
}

/// Position of the last `/` in `v`.
pub fn find_last_slash(v: &Vec<char>) -> (r: Option<usize>)
    ensures
        match r {
            None => last_slash(v@) is None,
            Some(k) => last_slash(v@) == Some(k as int),
        },
{
    let mut i = v.len();
    assert(v@.take(i as int) =~= v@);
    while i > 0
        invariant
            i <= v@.len(),
            last_slash(v@) == last_slash(v@.take(i as int)),
        decreases i,
    {
        if v[i - 1] == '/' {
            return Some(i - 1);
        }
        assert(v@.take(i as int).drop_last() =~= v@.take(i - 1));
        i = i - 1;
    }
    None
}

/// Whether `path` lies at or under `base`.
pub fn path_starts_with(path: &Vec<char>, base: &Vec<char>) -> (r: bool)
    ensures
        r == starts_with(path@, base@),
{
    if base.len() == 0 {
        return true;
    }
    if base.len() > path.len() {
        return false;
    }
    let mut i: usize = 0;
    while i < base.len()
        invariant
            0 < base@.len() <= path@.len(),
            i <= base@.len(),
            path@.take(i as int) == base@.take(i as int),
        decreases base@.len() - i,
    {
        if path[i] != base[i] {
            proof {
                assert(path@.take(base@.len() as int)[i as int] != base@[i as int]);
                assert(path@.take(base@.len() as int) != base@);
                assert(path@ != base@);
            }
            return false;
        }
        i = i + 1;
        assert(path@.take(i as int) =~= path@.take(i - 1).push(path@[i - 1]));
        assert(base@.take(i as int) =~= base@.take(i - 1).push(base@[i - 1]));
    }
    assert(base@.take(i as int) =~= base@);
    if base.len() == path.len() {
        assert(path@ =~= path@.take(i as int));
        return true;
    }
    base[base.len() - 1] == '/' || path[base.len()] == '/'
}

/// `path.strip_prefix(base)`.
pub fn path_strip_prefix(path: &Vec<char>, base: &Vec<char>) -> (r: Option<Vec<char>>)
    ensures
        match r {
            None => strip_prefix(path@, base@) is None,
            Some(v) => strip_prefix(path@, base@) == Some(v@),
        },
{
    if !path_starts_with(path, base) {
        return None;
    }
    let from = if base.len() == 0 {
        0
    } else if base.len() == path.len() {
        path.len()
    } else if base[base.len() - 1] == '/' {
        base.len()
    } else {
        base.len() + 1
    };
    proof {
        if base@.len() == path@.len() && base@.len() > 0 {
            assert(path@ == base@ || path@.take(base@.len() as int) == base@);
            assert(path@.take(base@.len() as int) =~= path@);
        }
    }
    let mut out: Vec<char> = Vec::new();
    let mut i = from;
    while i < path.len()
        invariant
            from <= i <= path@.len(),
            out@ == path@.subrange(from as int, i as int),
        decreases path@.len() - i,
    {
        out.push(path[i]);
        i = i + 1;
        assert(out@ =~= path@.subrange(from as int, i as int));
    }
    assert(path@.skip(from as int) =~= path@.subrange(from as int, path@.len() as int));
    assert(Seq::<char>::empty() =~= path@.subrange(from as int, path@.len() as int) || from
        < path@.len());
    Some(out)
}

/// `base.join(rel)`.
pub fn path_join(base: &Vec<char>, rel: &Vec<char>) -> (r: Vec<char>)
    ensures
        r@ == join(base@, rel@),
{
    if (rel.len() > 0 && rel[0] == '/') || base.len() == 0 {
        return rel.clone();
    }
    let mut out = base.clone();
    if base[base.len() - 1] != '/' {
        out.push('/');
    }
    let ghost start = out@;
    let mut i: usize = 0;
    while i < rel.len()
        invariant
            i <= rel@.len(),
            out@ == start + rel@.take(i as int),
        decreases rel@.len() - i,
    {
        out.push(rel[i]);
        i = i + 1;
        assert(out@ =~= start + rel@.take(i as int));
    }
    assert(rel@.take(i as int) =~= rel@);
    proof {
        if base@.last() != '/' {
            assert(start =~= base@ + seq!['/']);
        }
    }
    out
}

/// `base.join(rel)` on strings.
pub fn join_str(base: &str, rel: &str) -> (r: String)
    ensures
        r@ == join(base@, rel@),
{
    let b = chars_of(base);
    let r = chars_of(rel);
    string_of(&path_join(&b, &r))
}

/// `p.parent()`.
pub fn path_parent(p: &Vec<char>) -> (r: Option<Vec<char>>)
    ensures
        match r {
            None => parent(p@) is None,
            Some(v) => parent(p@) == Some(v@),
        },
{
    if p.len() == 0 || (p.len() == 1 && p[0] == '/') {
        proof {
            if p@.len() == 1 {
                assert(p@ =~= seq!['/']);
            }
        }
        return None;
    }
    proof {
        if p@.len() == 1 {
            assert(p@ != seq!['/']);
        }
    }
    let found = find_last_slash(p);
    proof {
        lemma_last_slash(p@);
    }
    match found {
        None => Some(Vec::new()),
        Some(0) => {
            let mut v = Vec::new();
            v.push('/');
            Some(v)
        },
        Some(k) => {
            let mut v: Vec<char> = Vec::new();
            let mut i: usize = 0;
            while i < k
                invariant
                    k < p@.len(),
                    i <= k,
                    v@ == p@.take(i as int),
                decreases k - i,
            {
                v.push(p[i]);
                i = i + 1;
                assert(v@ =~= p@.take(i as int));
            }
            Some(v)
        },
    }
}

/// `p.file_name()`, as text.
pub fn path_file_name(p: &Vec<char>) -> (r: Option<String>)
    ensures
        match r {
            None => file_name(p@) is None,
            Some(s) => file_name(p@) == Some(s@),
        },
{
    let cs = path_components(p);
    let ghost vs = cs@.map_values(|v: Vec<char>| v@);
    if cs.len() == 0 {
        return None;
    }
    let last = &cs[cs.len() - 1];
    assert(last@ == vs.last());
    let dotdot = last.len() == 2 && last[0] == '.' && last[1] == '.';
    let dot = last.len() == 1 && last[0] == '.';
    proof {
        if last@.len() == 2 && last@[0] == '.' && last@[1] == '.' {
            assert(last@ =~= seq!['.', '.']);
        }
        if last@.len() == 1 && last@[0] == '.' {
            assert(last@ =~= seq!['.']);
        }
    }
    if dotdot || dot {
        None
    } else {
        Some(string_of(last))
    }
}

/// A relative path joined onto a base strips back to itself.
pub proof fn law_join_strip(base: Seq<char>, rel: Seq<char>)
    requires
        base.len() > 0,
        rel.len() == 0 || rel[0] != '/',
    ensures
        strip_prefix(join(base, rel), base) == Some(rel),
        starts_with(join(base, rel), base),
{
    let j = join(base, rel);
    if base.last() == '/' {
        assert(j.take(base.len() as int) =~= base);
        assert(j.skip(base.len() as int) =~= rel);
        if rel.len() == 0 {
            assert(j =~= base);
        }
    } else {
        assert(j.take(base.len() as int) =~= base);
        assert(j[base.len() as int] == '/');
        assert(j.skip(base.len() as int + 1) =~= rel);
        assert(j != base);
    }
}

} // verus!
