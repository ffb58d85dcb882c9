//! Paths as `std::path` reads them on Unix: split into components, with
//! `.` and `..` resolved lexically, and joined back into text.
use crate::text::{push_char, sub_chars};
use vstd::prelude::*;

verus! {

/// A path component, as `Path::components` yields it.
pub enum PathPart {
    Root,
    Cur,
    Parent,
    Normal(Seq<char>),
}

/// A path component held by the program.
#[derive(Debug)]
pub enum Comp {
    Root,
    Cur,
    Parent,
    Normal(Vec<char>),
}

impl View for Comp {
    type V = PathPart;

    open spec fn view(&self) -> PathPart {
        match self {
            Comp::Root => PathPart::Root,
            Comp::Cur => PathPart::Cur,
            Comp::Parent => PathPart::Parent,
            Comp::Normal(v) => PathPart::Normal(v@),
        }
    }
}

pub open spec fn parts_view(cs: Seq<Comp>) -> Seq<PathPart> {
    cs.map_values(|c: Comp| c@)
}

/// The first index at or after `i` holding a `/` (or the length).
pub open spec fn next_slash(s: Seq<char>, i: int) -> int
    decreases s.len() - i,
{
    if 0 <= i < s.len() && s[i] != '/' {
        next_slash(s, i + 1)
    } else {
        i
    }
}

/// The component a segment between slashes stands for, if any: empty
/// segments vanish, and `.` is kept only as the first segment of a
/// relative path.
pub open spec fn segment_part(seg: Seq<char>, first: bool) -> Option<PathPart> {
    if seg.len() == 0 {
        None
    } else if seg == seq!['.'] {
        if first {
            Some(PathPart::Cur)
        } else {
            None
        }
    } else if seg == seq!['.', '.'] {
        Some(PathPart::Parent)
    } else {
        Some(PathPart::Normal(seg))
    }
}

/// The components of the segments that start at position `i`.
pub open spec fn parts_from(s: Seq<char>, i: int, first: bool) -> Seq<PathPart>
    decreases s.len() - i,
{
    if i < 0 || i > s.len() {
        Seq::empty()
    } else {
        let j = next_slash(s, i);
        if j < i || j > s.len() {
            Seq::empty()
        } else {
            let here = match segment_part(s.subrange(i, j), first) {
                Some(p) => seq![p],
                None => Seq::empty(),
            };
            if j == s.len() {
                here
            } else {
                here + parts_from(s, j + 1, false)
            }
        }
    }
}

/// `Path::components` of a path text.
pub open spec fn parts(s: Seq<char>) -> Seq<PathPart> {
    if s.len() > 0 && s[0] == '/' {
        seq![PathPart::Root] + parts_from(s, 1, false)
    } else {
        parts_from(s, 0, true)
    }
}

/// `.` dropped and each `..` removing the component before it, over the
/// first `n` components; a `..` at the root stays at the root, and one with
/// nothing before it in a relative path is dropped.
pub open spec fn normalize_parts(cs: Seq<PathPart>, n: int) -> Seq<PathPart>
    decreases n,
{
    if n <= 0 || n > cs.len() {
        Seq::empty()
    } else {
        let prev = normalize_parts(cs, n - 1);
        match cs[n - 1] {
            PathPart::Parent => if prev.len() > 0 && prev.last() != PathPart::Root {
                prev.drop_last()
            } else {
                prev
            },
            PathPart::Cur => prev,
            p => prev.push(p),
        }
    }
}

pub open spec fn normalized(cs: Seq<PathPart>) -> Seq<PathPart> {
    normalize_parts(cs, cs.len() as int)
}

/// The text of one component.
pub open spec fn part_text(p: PathPart) -> Seq<char> {
    match p {
        PathPart::Root => seq!['/'],
        PathPart::Cur => seq!['.'],
        PathPart::Parent => seq!['.', '.'],
        PathPart::Normal(s) => s,
    }
}

/// `PathBuf::push` of one component onto a path text.
pub open spec fn push_part(buf: Seq<char>, p: PathPart) -> Seq<char> {
    match p {
        PathPart::Root => seq!['/'],
        _ => if buf.len() == 0 {
            part_text(p)
        } else if buf.last() == '/' {
            buf + part_text(p)
        } else {
            buf + seq!['/'] + part_text(p)
        },
    }
}

/// The text of the first `n` components, collected into a path.
pub open spec fn render_parts(cs: Seq<PathPart>, n: int) -> Seq<char>
    decreases n,
{
    if n <= 0 || n > cs.len() {
        Seq::empty()
    } else {
        push_part(render_parts(cs, n - 1), cs[n - 1])
    }
}

pub open spec fn render(cs: Seq<PathPart>) -> Seq<char> {
    render_parts(cs, cs.len() as int)
}

/// The path a path text denotes after `.` and `..` are resolved.
pub open spec fn normalize_path_spec(s: Seq<char>) -> Seq<char> {
    render(normalized(parts(s)))
}

proof fn lemma_normalize_from_root(cs: Seq<PathPart>, n: int)
    requires
        cs.len() > 0,
        cs[0] == PathPart::Root,
        1 <= n <= cs.len(),
    ensures
        normalize_parts(cs, n).len() > 0,
        normalize_parts(cs, n)[0] == PathPart::Root,
    decreases n,
{
    if n == 1 {
        assert(normalize_parts(cs, 1) == Seq::<PathPart>::empty().push(cs[0]));
    } else {
        lemma_normalize_from_root(cs, n - 1);
        let prev = normalize_parts(cs, n - 1);
        match cs[n - 1] {
            PathPart::Parent => {
                if prev.len() > 0 && prev.last() != PathPart::Root {
                    assert(prev.len() > 1);
                    assert(prev.drop_last()[0] == prev[0]);
                }
            },
            PathPart::Cur => {},
            p => {
                assert(prev.push(p)[0] == prev[0]);
            },
        }
    }
}

proof fn lemma_render_from_root(cs: Seq<PathPart>, n: int)
    requires
        cs.len() > 0,
        cs[0] == PathPart::Root,
        1 <= n <= cs.len(),
    ensures
        render_parts(cs, n).len() > 0,
        render_parts(cs, n)[0] == '/',
    decreases n,
{
    if n > 1 {
        lemma_render_from_root(cs, n - 1);
    }
}

/// The normal form of a path that starts at the root starts at the root:
/// a `..` never climbs above it, so the canonical form of an absolute path
/// is absolute.
pub proof fn lemma_normalized_keeps_root(s: Seq<char>)
    requires
        s.len() > 0,
        s[0] == '/',
    ensures
        normalize_path_spec(s).len() > 0,
        normalize_path_spec(s)[0] == '/',
{
    let cs = parts(s);
    assert(cs[0] == PathPart::Root);
    lemma_normalize_from_root(cs, cs.len() as int);
    let n = normalized(cs);
    lemma_render_from_root(n, n.len() as int);
}

/// The components of `Path::parent`: none when the path ends in its root or
/// has no components.
pub open spec fn parent_parts(cs: Seq<PathPart>) -> Option<Seq<PathPart>> {
    if cs.len() == 0 || cs.last() == PathPart::Root {
        None
    } else {
        Some(cs.drop_last())
    }
}

/// The components of `base.join(relative)`: the relative path's own when it
/// is absolute, else the base's followed by the relative path's.
pub open spec fn join_parts(base: Seq<PathPart>, rel: Seq<PathPart>) -> Seq<PathPart> {
    if rel.len() > 0 && rel[0] == PathPart::Root {
        rel
    } else {
        base + rel
    }
}

proof fn lemma_next_slash(s: Seq<char>, i: int)
    requires
        0 <= i <= s.len(),
    ensures
        i <= next_slash(s, i) <= s.len(),
        next_slash(s, i) < s.len() ==> s[next_slash(s, i)] == '/',
        forall|k: int| i <= k < next_slash(s, i) ==> s[k] != '/',
    decreases s.len() - i,
{
    if i < s.len() && s[i] != '/' {
        lemma_next_slash(s, i + 1);
    }
}

fn segment(seg: Vec<char>, first: bool) -> (r: Option<Comp>)
    ensures
        match r {
            Some(c) => segment_part(seg@, first) == Some(c@),
            None => segment_part(seg@, first) is None,
        },
{
    if seg.len() == 0 {
        None
    } else if seg.len() == 1 && seg[0] == '.' {
        assert(seg@ =~= seq!['.']);
        if first {
            Some(Comp::Cur)
        } else {
            None
        }
    } else if seg.len() == 2 && seg[0] == '.' && seg[1] == '.' {
        assert(seg@ =~= seq!['.', '.']);
        Some(Comp::Parent)
    } else {
        proof {
            if seg@ == seq!['.'] {
                assert(seg@[0] == '.');
            }
            if seg@ == seq!['.', '.'] {
                assert(seg@[0] == '.' && seg@[1] == '.');
            }
        }
        Some(Comp::Normal(seg))
    }
}

/// `Path::components` of a path text.
pub fn components(v: &[char]) -> (r: Vec<Comp>)
    ensures
        parts_view(r@) == parts(v@),
{
    let mut r: Vec<Comp> = Vec::new();
    let mut i: usize;
    let mut first: bool;
    let ghost target = parts(v@);
    if v.len() > 0 && v[0] == '/' {
        r.push(Comp::Root);
        i = 1;
        first = false;
    } else {
        i = 0;
        first = true;
    }
    proof {
        assert(parts_view(r@) + parts_from(v@, i as int, first) =~= target);
    }
    loop
        invariant
            i <= v@.len(),
            target == parts(v@),
            parts_view(r@) + parts_from(v@, i as int, first) == target,
        decreases v@.len() - i,
    {
        let mut j: usize = i;
        proof {
            lemma_next_slash(v@, i as int);
        }
        while j < v.len() && v[j] != '/'
            invariant
                i <= j <= v@.len(),
                next_slash(v@, j as int) == next_slash(v@, i as int),
            decreases v@.len() - j,
        {
            j = j + 1;
        }
        let seg = sub_chars(v, i, j);
        let here = segment(seg, first);
        let ghost before = parts_view(r@);
        let ghost here_v = match segment_part(v@.subrange(i as int, j as int), first) {
            Some(p) => seq![p],
            None => Seq::<PathPart>::empty(),
        };
        match here {
            Some(c) => {
                r.push(c);
                assert(parts_view(r@) =~= before + here_v);
            },
            None => {
                assert(parts_view(r@) =~= before + here_v);
            },
        }
        if j == v.len() {
            assert(parts_from(v@, i as int, first) == here_v);
            assert(parts_view(r@) =~= target);
            return r;
        }
        assert(parts_from(v@, i as int, first) == here_v + parts_from(v@, j + 1, false));
        assert(before + (here_v + parts_from(v@, j + 1, false)) =~= (before + here_v)
            + parts_from(v@, j + 1, false));
        i = j + 1;
        first = false;
    }
}

pub fn copy_comp(c: &Comp) -> (r: Comp)
    ensures
        r@ == c@,
{
    match c {
        Comp::Root => Comp::Root,
        Comp::Cur => Comp::Cur,
        Comp::Parent => Comp::Parent,
        Comp::Normal(v) => Comp::Normal(v.clone()),
    }
}

/// Resolves `.` and `..` lexically.
pub fn normalize_comps(cs: &Vec<Comp>) -> (r: Vec<Comp>)
    ensures
        parts_view(r@) == normalized(parts_view(cs@)),
{
    let ghost cv = parts_view(cs@);
    let mut r: Vec<Comp> = Vec::new();
    let mut i: usize = 0;
    proof {
        assert(parts_view(r@) =~= normalize_parts(cv, 0));
    }
    while i < cs.len()
        invariant
            i <= cs@.len(),
            cv == parts_view(cs@),
            parts_view(r@) == normalize_parts(cv, i as int),
        decreases cs@.len() - i,
    {
        let ghost before = parts_view(r@);
        assert(cv[i as int] == cs@[i as int]@);
        match &cs[i] {
            Comp::Parent => {
                if r.len() > 0 && !matches!(r[r.len() - 1], Comp::Root) {
                    r.pop();
                    assert(parts_view(r@) =~= before.drop_last());
                } else {
                    assert(r@.len() > 0 ==> before.last() == PathPart::Root);
                }
            },
            Comp::Cur => {},
            c => {
                r.push(copy_comp(c));
                assert(parts_view(r@) =~= before.push(cv[i as int]));
            },
        }
        i = i + 1;
    }
    r
}

fn push_chars(s: &mut String, v: &Vec<char>)
    ensures
        final(s)@ == old(s)@ + v@,
{
    let mut i: usize = 0;
    let ghost s0 = s@;
    while i < v.len()
        invariant
            i <= v@.len(),
            s@ == s0 + v@.take(i as int),
        decreases v@.len() - i,
    {
        push_char(s, v[i]);
        assert(v@.take(i + 1) =~= v@.take(i as int).push(v@[i as int]));
        i = i + 1;
    }
    assert(v@.take(v@.len() as int) =~= v@);
}

fn ends_with_slash(s: &String) -> (r: bool)
    ensures
        r == (s@.len() > 0 && s@.last() == '/'),
{
    let v = crate::text::chars_of(s.as_str());
    v.len() > 0 && v[v.len() - 1] == '/'
}

/// Collects components into a path text, as `PathBuf` pushes them.
pub fn render_comps(cs: &Vec<Comp>) -> (r: String)
    ensures
        r@ == render(parts_view(cs@)),
{
    let ghost cv = parts_view(cs@);
    let mut r = String::new();
    let mut i: usize = 0;
    while i < cs.len()
        invariant
            i <= cs@.len(),
            cv == parts_view(cs@),
            r@ == render_parts(cv, i as int),
        decreases cs@.len() - i,
    {
        assert(cv[i as int] == cs@[i as int]@);
        match &cs[i] {
            Comp::Root => {
                r = String::new();
                push_char(&mut r, '/');
                assert(r@ =~= seq!['/']);
            },
            c => {
                let t: Vec<char> = match c {
                    Comp::Cur => vec!['.'],
                    Comp::Parent => vec!['.', '.'],
                    Comp::Normal(v) => v.clone(),
                    Comp::Root => vec!['/'],
                };
                assert(t@ =~= part_text(cv[i as int]));
                let empty = r.as_str().is_empty();
                if empty {
                    proof {
                        assert(r@.len() == 0);
                    }
                    r = String::new();
                    push_chars(&mut r, &t);
                    assert(r@ =~= part_text(cv[i as int]));
                } else if ends_with_slash(&r) {
                    push_chars(&mut r, &t);
                } else {
                    push_char(&mut r, '/');
                    push_chars(&mut r, &t);
                }
            },
        }
        i = i + 1;
    }
    r
}

/// Normalizes a path by resolving `.` and `..` components without
/// consulting the system.
pub fn normalize_path(path: &str) -> (r: String)
    ensures
        r@ == normalize_path_spec(path@),
{
    let v = crate::text::chars_of(path);
    let cs = components(v.as_slice());
    let n = normalize_comps(&cs);
    render_comps(&n)
}

/// The text of `base.join(child)`: `child` itself when it is absolute,
/// else `child` after `base`, with a `/` between them unless `base` is
/// empty or already ends with one.
pub open spec fn join_text(base: Seq<char>, child: Seq<char>) -> Seq<char> {
    if child.len() > 0 && child[0] == '/' {
        child
    } else if base.len() == 0 {
        child
    } else if base.last() == '/' {
        base + child
    } else {
        base + "/"@ + child
    }
}

/// Joins `child` onto the path `base`, as `Path::join` does.
pub fn join_path(base: &str, child: &str) -> (r: String)
    ensures
        r@ == join_text(base@, child@),
{
    let b = crate::text::chars_of(base);
    let c = crate::text::chars_of(child);
    if c.len() > 0 && c[0] == '/' {
        return crate::text::owned(child);
    }
    if b.len() == 0 {
        return crate::text::owned(child);
    }
    let mut r = crate::text::owned(base);
    if b[b.len() - 1] != '/' {
        crate::text::push_char(&mut r, '/');
    }
    crate::text::push_str(&mut r, child);
    proof {
        if base@.last() != '/' {
            assert(base@.push('/') + child@ =~= base@ + "/"@ + child@) by {
                reveal_strlit("/");
            }
        }
    }
    r
}

/// A copy of a list of components.
pub fn copy_comps(cs: &Vec<Comp>) -> (r: Vec<Comp>)
    ensures
        parts_view(r@) == parts_view(cs@),
{
    let mut r: Vec<Comp> = Vec::new();
    let mut i: usize = 0;
    while i < cs.len()
        invariant
            i <= cs@.len(),
            parts_view(r@) == parts_view(cs@).take(i as int),
        decreases cs@.len() - i,
    {
        let c = copy_comp(&cs[i]);
        let ghost before = r@;
        r.push(c);
        assert(r@ == before.push(c));
        assert(parts_view(r@) =~= parts_view(before).push(c@));
        assert(parts_view(cs@).take(i + 1) =~= parts_view(cs@).take(i as int).push(cs@[i as int]@));
        i = i + 1;
    }
    assert(parts_view(cs@).take(cs@.len() as int) =~= parts_view(cs@));
    r
}

/// Whether two components are equal.
pub fn comp_eq(a: &Comp, b: &Comp) -> (r: bool)
    ensures
        r == (a@ == b@),
{
    match (a, b) {
        (Comp::Root, Comp::Root) => true,
        (Comp::Cur, Comp::Cur) => true,
        (Comp::Parent, Comp::Parent) => true,
        (Comp::Normal(x), Comp::Normal(y)) => crate::text::chars_eq(x.as_slice(), y.as_slice()),
        _ => false,
    }
}

} // verus!
