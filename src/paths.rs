//! Paths as text: which directory a relative path names, and joining a path
//! onto the workspace root.

use vstd::prelude::*;
use crate::text::{append_range, chars_of, str_eq};

verus! {

/// A segment between separators counts as a component unless it is empty or
/// `.`, which name no further directory.
pub open spec fn kept_segment(seg: Seq<char>) -> Seq<Seq<char>> {
    if seg.len() == 0 || seg == seq!['.'] {
        Seq::empty()
    } else {
        seq![seg]
    }
}

/// The components of `p`, where `cur` is the segment read so far.
pub open spec fn components_from(p: Seq<char>, cur: Seq<char>) -> Seq<Seq<char>>
    decreases p.len(),
{
    if p.len() == 0 {
        kept_segment(cur)
    } else if p[0] == '/' {
        kept_segment(cur) + components_from(p.drop_first(), Seq::empty())
    } else {
        components_from(p.drop_first(), cur.push(p[0]))
    }
}

/// The directory components of `p`: its `/`-separated segments without the
/// empty ones and `.`.
pub open spec fn path_components(p: Seq<char>) -> Seq<Seq<char>> {
    components_from(p, Seq::empty())
}

/// `p` starts at the filesystem root rather than at the workspace root.
pub open spec fn is_absolute(p: Seq<char>) -> bool {
    p.len() > 0 && p[0] == '/'
}

/// The components with each `..` resolved against the one before it. A
/// `..` at the filesystem root stays there; one that climbs above a relative
/// path's start is kept. Links are not followed: this is the path's text.
pub open spec fn resolve_dots(comps: Seq<Seq<char>>, absolute: bool) -> Seq<Seq<char>>
    decreases comps.len(),
{
    if comps.len() == 0 {
        comps
    } else {
        let prev = resolve_dots(comps.drop_last(), absolute);
        let c = comps.last();
        if c == ".."@ {
            if prev.len() > 0 && prev.last() != ".."@ {
                prev.drop_last()
            } else if absolute {
                prev
            } else {
                prev.push(c)
            }
        } else {
            prev.push(c)
        }
    }
}

/// The directory `p` names, as components from its start.
pub open spec fn resolved_components(p: Seq<char>) -> Seq<Seq<char>> {
    resolve_dots(path_components(p), is_absolute(p))
}

/// `a` and `b`, resolved against the same workspace root, name the same
/// directory: both are absolute or both relative, with equal components
/// once `.`, empty segments and `..` are resolved.
pub open spec fn same_directory(a: Seq<char>, b: Seq<char>) -> bool {
    is_absolute(a) == is_absolute(b) && resolved_components(a) == resolved_components(b)
}

/// The views of a sequence of strings.
pub open spec fn views(v: Seq<String>) -> Seq<Seq<char>> {
    v.map_values(|s: String| s@)
}

fn push_segment(out: &mut Vec<String>, p: &str, from: usize, to: usize)
    requires
        from <= to <= p@.len(),
    ensures
        views(final(out)@) == views(old(out)@) + kept_segment(p@.subrange(from as int, to as int)),
{
    let ghost seg = p@.subrange(from as int, to as int);
    let mut s = String::new();
    append_range(&mut s, p, from, to);
    assert(s@ =~= seg);
    let is_dot = to - from == 1 && p.get_char(from) == '.';
    proof {
        if seg == seq!['.'] {
            assert(seg[0] == p@[from as int]);
        }
        if is_dot {
            assert(seg =~= seq!['.']);
        }
    }
    if to > from && !is_dot {
        out.push(s);
        assert(views(out@) =~= views(old(out)@) + kept_segment(seg));
    } else {
        assert(views(out@) =~= views(old(out)@) + kept_segment(seg));
    }
}

/// The directory components of `p`.
pub fn components(p: &str) -> (r: Vec<String>)
    ensures
        views(r@) == path_components(p@),
{
    let c = chars_of(p);
    let n = c.len();
    let mut out: Vec<String> = Vec::new();
    let mut start: usize = 0;
    let mut i: usize = 0;
    assert(p@.subrange(0, n as int) =~= p@);
    assert(p@.subrange(0, 0) =~= Seq::<char>::empty());
    assert(views(out@) =~= Seq::<Seq<char>>::empty());
    assert(views(out@) + path_components(p@) =~= path_components(p@));
    while i < n
        invariant
            c@ == p@,
            n == p@.len(),
            start <= i <= n,
            path_components(p@) == views(out@) + components_from(
                p@.subrange(i as int, n as int),
                p@.subrange(start as int, i as int),
            ),
        decreases n - i,
    {
        let ghost rest = p@.subrange(i as int, n as int);
        let ghost cur = p@.subrange(start as int, i as int);
        assert(rest.drop_first() =~= p@.subrange(i + 1, n as int));
        if c[i] == '/' {
            let ghost before = views(out@);
            push_segment(&mut out, p, start, i);
            assert(p@.subrange(i + 1, i + 1) =~= Seq::<char>::empty());
            i += 1;
            start = i;
            assert(views(out@) + components_from(
                p@.subrange(i as int, n as int),
                p@.subrange(start as int, i as int),
            ) =~= before + (kept_segment(cur) + components_from(rest.drop_first(), Seq::empty())));
        } else {
            assert(cur.push(rest[0]) =~= p@.subrange(start as int, i + 1));
            i += 1;
        }
    }
    push_segment(&mut out, p, start, n);
    assert(p@.subrange(n as int, n as int) =~= Seq::<char>::empty());
    out
}

/// The components of `p` with `..` resolved.
pub fn resolved(p: &str) -> (r: Vec<String>)
    ensures
        views(r@) == resolved_components(p@),
{
    let absolute = p.unicode_len() > 0 && p.get_char(0) == '/';
    let comps = components(p);
    let ghost all = views(comps@);
    let mut out: Vec<String> = Vec::new();
    let mut i: usize = 0;
    proof {
        reveal_strlit("..");
        assert(all.subrange(0, 0) =~= Seq::<Seq<char>>::empty());
        assert(views(out@) =~= Seq::<Seq<char>>::empty());
    }
    while i < comps.len()
        invariant
            all == views(comps@),
            all == path_components(p@),
            absolute == is_absolute(p@),
            i <= comps@.len(),
            views(out@) == resolve_dots(all.subrange(0, i as int), absolute),
        decreases comps.len() - i,
    {
        let ghost prefix = all.subrange(0, i + 1);
        let ghost prev = views(out@);
        assert(prefix.drop_last() =~= all.subrange(0, i as int));
        assert(prefix.last() == comps@[i as int]@);
        let c = comps[i].as_str();
        if str_eq(c, "..") {
            let n = out.len();
            if n > 0 && !str_eq(out[n - 1].as_str(), "..") {
                assert(prev.last() == out@[n - 1]@);
                out.pop();
                assert(views(out@) =~= prev.drop_last());
            } else if absolute {
                if n > 0 {
                    assert(prev.last() == out@[n - 1]@);
                }
            } else {
                if n > 0 {
                    assert(prev.last() == out@[n - 1]@);
                }
                out.push(String::from_str(c));
                assert(views(out@) =~= prev.push(c@));
            }
        } else {
            out.push(String::from_str(c));
            assert(views(out@) =~= prev.push(c@));
        }
        i += 1;
    }
    assert(all.subrange(0, i as int) =~= all);
    out
}

/// The two sequences of strings hold the same texts.
pub fn same_texts(a: &Vec<String>, b: &Vec<String>) -> (r: bool)
    ensures
        r == (views(a@) == views(b@)),
{
    if a.len() != b.len() {
        proof {
            assert(views(a@).len() != views(b@).len());
        }
        return false;
    }
    let mut i: usize = 0;
    while i < a.len()
        invariant
            a@.len() == b@.len(),
            i <= a@.len(),
            forall|j: int| 0 <= j < i ==> a@[j]@ == b@[j]@,
        decreases a.len() - i,
    {
        if !str_eq(a[i].as_str(), b[i].as_str()) {
            proof {
                assert(views(a@)[i as int] != views(b@)[i as int]);
            }
            return false;
        }
        i += 1;
    }
    proof {
        assert(views(a@) =~= views(b@));
    }
    true
}

/// Whether `a` and `b` name the same directory under one workspace root.
pub fn is_same_directory(a: &str, b: &str) -> (r: bool)
    ensures
        r == same_directory(a@, b@),
{
    let abs_a = a.unicode_len() > 0 && a.get_char(0) == '/';
    let abs_b = b.unicode_len() > 0 && b.get_char(0) == '/';
    if abs_a != abs_b {
        return false;
    }
    same_texts(&resolved(a), &resolved(b))
}

/// `rel` joined onto `root`: `rel` itself when it is absolute or `root` is
/// empty, else the two with one separator between them.
pub open spec fn joined_path(root: Seq<char>, rel: Seq<char>) -> Seq<char> {
    if is_absolute(rel) || root.len() == 0 {
        rel
    } else if root.last() == '/' {
        root + rel
    } else {
        root + seq!['/'] + rel
    }
}

/// `rel` joined onto `root`.
pub fn join_path(root: &str, rel: &str) -> (r: String)
    ensures
        r@ == joined_path(root@, rel@),
{
    let rn = root.unicode_len();
    if (rel.unicode_len() > 0 && rel.get_char(0) == '/') || rn == 0 {
        return String::from_str(rel);
    }
    let mut s = String::from_str(root);
    if root.get_char(rn - 1) != '/' {
        s.append("/");
        proof {
            reveal_strlit("/");
        }
    }
    s.append(rel);
    s
}

} // verus!
