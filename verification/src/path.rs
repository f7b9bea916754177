//! Paths as strings, with the meaning that Unix gives them.

use vstd::prelude::*;
use crate::text::chars_of;

verus! {

/// `rel` appended to `base` (std's `Path::join`): an absolute `rel` replaces
/// `base`; otherwise a `/` is put between them unless `base` is empty or
/// already ends with one.
pub open spec fn join_path(base: Seq<char>, rel: Seq<char>) -> Seq<char> {
    if rel.len() > 0 && rel[0] == '/' {
        rel
    } else if base.len() > 0 && base.last() != '/' {
        base + seq!['/'] + rel
    } else {
        base + rel
    }
}

/// The index of the last `/` in `p`, or -1.
pub open spec fn last_slash(p: Seq<char>) -> int
    decreases p.len(),
{
    if p.len() == 0 {
        -1
    } else if p.last() == '/' {
        p.len() - 1
    } else {
        last_slash(p.drop_last())
    }
}

/// `last_slash` lies in `-1 .. p.len()`.
pub proof fn lemma_last_slash_bounds(p: Seq<char>)
    ensures
        -1 <= last_slash(p) < p.len(),
    decreases p.len(),
{
    if p.len() > 0 && p.last() != '/' {
        lemma_last_slash_bounds(p.drop_last());
    }
}

/// How many characters of `p` come before its body: its root `/`, or the
/// leading `.` component of a relative path (`.` alone or before a `/`).
pub open spec fn body_start(p: Seq<char>) -> int {
    if p.len() > 0 && p[0] == '/' {
        1
    } else if p.len() > 0 && p[0] == '.' && (p.len() == 1 || p[1] == '/') {
        1
    } else {
        0
    }
}

/// Where the rest of `p` ends once its last piece of the body (from
/// `l` on) and the `/` before that piece are taken off.
pub open spec fn piece_rest(p: Seq<char>, l: int) -> int {
    if last_slash(p) < l {
        l
    } else {
        last_slash(p)
    }
}

/// The last piece of the body of `p` (from `l` on): what follows its last
/// `/`, or the whole body.
pub open spec fn last_piece(p: Seq<char>, l: int) -> Seq<char> {
    if last_slash(p) < l {
        p.subrange(l, p.len() as int)
    } else {
        p.subrange(last_slash(p) + 1, p.len() as int)
    }
}

/// A piece that names no component: empty (from a repeated or trailing
/// `/`), or `.`.
pub open spec fn names_nothing(c: Seq<char>) -> bool {
    c.len() == 0 || c =~= seq!['.']
}

/// `p` without the pieces at the end of its body (from `l` on) that name no
/// component, and the `/` before each.
pub open spec fn trim_unnamed(p: Seq<char>, l: int) -> Seq<char>
    recommends
        0 <= l,
    decreases p.len(),
{
    if p.len() <= l || l < 0 {
        p
    } else if names_nothing(last_piece(p, l)) {
        proof {
            lemma_last_slash_bounds(p);
        }
        trim_unnamed(p.take(piece_rest(p, l)), l)
    } else {
        p
    }
}

/// The parent of `p`, as std's `Path::parent` gives it on Unix: repeated
/// `/`, `.` pieces and a trailing `/` name no component; the parent is `p`
/// without its last component, and without the unnamed pieces before that.
/// The root and the empty path have no parent; a path whose only component
/// is a leading `.` has the empty path as parent.
pub open spec fn parent_path(p: Seq<char>) -> Option<Seq<char>> {
    let l = body_start(p);
    let q = trim_unnamed(p, l);
    if q.len() <= l {
        if l == 1 && p[0] == '.' {
            Some(Seq::empty())
        } else {
            None
        }
    } else {
        Some(trim_unnamed(q.take(piece_rest(q, l)), l))
    }
}

/// `rel` appended to `base`, as `Path::join` does it.
pub fn join(base: &str, rel: &str) -> (r: String)
    ensures
        r@ == join_path(base@, rel@),
{
    let b = chars_of(base);
    let q = chars_of(rel);
    if q.len() > 0 && q[0] == '/' {
        String::from_str(rel)
    } else if b.len() > 0 && b[b.len() - 1] != '/' {
        let mut r = String::from_str(base);
        r.append("/");
        r.append(rel);
        proof {
            reveal_strlit("/");
            assert(r@ =~= base@ + seq!['/'] + rel@);
        }
        r
    } else {
        let mut r = String::from_str(base);
        r.append(rel);
        r
    }
}

/// The index of the last `/` among the first `end` characters of `cs`.
fn last_slash_before(cs: &Vec<char>, end: usize) -> (r: Option<usize>)
    requires
        end <= cs@.len(),
    ensures
        match r {
            Some(i) => last_slash(cs@.take(end as int)) == i && i < end,
            None => last_slash(cs@.take(end as int)) == -1,
        },
{
    let mut i: usize = end;
    while i > 0 && cs[i - 1] != '/'
        invariant
            i <= end <= cs@.len(),
            last_slash(cs@.take(end as int)) == last_slash(cs@.take(i as int)),
        decreases i,
    {
        assert(cs@.take(i as int).drop_last() =~= cs@.take(i - 1));
        i = i - 1;
    }
    if i == 0 {
        assert(cs@.take(0) =~= Seq::<char>::empty());
        None
    } else {
        assert(cs@.take(i as int).last() == '/');
        Some(i - 1)
    }
}

/// Where the rest of the first `end` characters of `cs` ends once their last
/// piece of the body (from `l` on) is taken off.
fn piece_rest_of(cs: &Vec<char>, end: usize, l: usize) -> (r: usize)
    requires
        l <= end <= cs@.len(),
    ensures
        r == piece_rest(cs@.take(end as int), l as int),
        r <= end,
        r < end || end == l,
{
    proof {
        lemma_last_slash_bounds(cs@.take(end as int));
    }
    match last_slash_before(cs, end) {
        Some(i) => if i >= l {
            i
        } else {
            l
        },
        None => l,
    }
}

/// The first `end` characters of `cs` without the unnamed pieces at the end
/// of their body (see [`trim_unnamed`]).
fn trim_unnamed_end(cs: &Vec<char>, end: usize, l: usize) -> (e: usize)
    requires
        l <= end <= cs@.len(),
    ensures
        cs@.take(e as int) == trim_unnamed(cs@.take(end as int), l as int),
        l <= e <= end,
    decreases end,
{
    if end <= l {
        return end;
    }
    let p = Ghost(cs@.take(end as int));
    let rest = piece_rest_of(cs, end, l);
    let start = match last_slash_before(cs, end) {
        Some(i) => if i >= l {
            i + 1
        } else {
            l
        },
        None => l,
    };
    proof {
        lemma_last_slash_bounds(p@);
        assert(last_piece(p@, l as int) =~= cs@.subrange(start as int, end as int));
    }
    let unnamed = start == end || (end - start == 1 && cs[start] == '.');
    proof {
        if end - start == 1 {
            if cs[start as int] == '.' {
                assert(cs@.subrange(start as int, end as int) =~= seq!['.']);
            } else {
                assert(cs@.subrange(start as int, end as int)[0] != seq!['.'][0]);
            }
        }
    }
    if unnamed {
        assert(p@.take(rest as int) =~= cs@.take(rest as int));
        trim_unnamed_end(cs, rest, l)
    } else {
        end
    }
}

/// The parent of a path, as std's `Path::parent` gives it (see
/// [`parent_path`]).
pub fn parent(p: &str) -> (r: Option<String>)
    ensures
        match r {
            Some(s) => parent_path(p@) == Some(s@),
            None => parent_path(p@) is None,
        },
{
    let cs = chars_of(p);
    let n = cs.len();
    let l: usize = if n > 0 && cs[0] == '/' {
        1
    } else if n > 0 && cs[0] == '.' && (n == 1 || cs[1] == '/') {
        1
    } else {
        0
    };
    assert(l == body_start(p@));
    assert(cs@.take(n as int) =~= p@);
    if n < l {
        return None;
    }
    let q = trim_unnamed_end(&cs, n, l);
    if q <= l {
        if l == 1 && cs[0] == '.' {
            Some(String::new())
        } else {
            None
        }
    } else {
        let rest = piece_rest_of(&cs, q, l);
        let e = trim_unnamed_end(&cs, rest, l);
        proof {
            assert(cs@.take(q as int).take(rest as int) =~= cs@.take(rest as int));
            assert(p@.subrange(0, e as int) =~= cs@.take(e as int));
        }
        Some(String::from_str(p.substring_char(0, e)))
    }
}

} // verus!

verus! {

/// The pieces of `s` between `sep` characters.
pub open spec fn split_on(s: Seq<char>, sep: char) -> Seq<Seq<char>>
    decreases s.len(),
{
    if s.len() == 0 {
        seq![Seq::<char>::empty()]
    } else {
        let r = split_on(s.drop_last(), sep);
        if s.last() == sep {
            r.push(Seq::<char>::empty())
        } else {
            r.update(r.len() - 1, r.last().push(s.last()))
        }
    }
}

/// A component of a path.
#[derive(Debug)]
pub enum Comp {
    Root,
    Cur,
    Parent,
    Normal(String),
}

pub enum CompV {
    Root,
    Cur,
    Parent,
    Normal(Seq<char>),
}

impl View for Comp {
    type V = CompV;

    open spec fn view(&self) -> CompV {
        match self {
            Comp::Root => CompV::Root,
            Comp::Cur => CompV::Cur,
            Comp::Parent => CompV::Parent,
            Comp::Normal(s) => CompV::Normal(s@),
        }
    }
}

pub open spec fn comp_views(v: Seq<Comp>) -> Seq<CompV> {
    v.map_values(|c: Comp| c@)
}

/// The component that a piece between separators stands for, if any:
/// empty pieces and `.` stand for none.
pub open spec fn piece_comp(piece: Seq<char>) -> Option<CompV> {
    if piece.len() == 0 || piece =~= seq!['.'] {
        None
    } else if piece =~= seq!['.', '.'] {
        Some(CompV::Parent)
    } else {
        Some(CompV::Normal(piece))
    }
}

/// The components that the pieces stand for, in order.
pub open spec fn piece_comps(pieces: Seq<Seq<char>>) -> Seq<CompV>
    decreases pieces.len(),
{
    if pieces.len() == 0 {
        Seq::empty()
    } else {
        let r = piece_comps(pieces.drop_last());
        match piece_comp(pieces.last()) {
            Some(c) => r.push(c),
            None => r,
        }
    }
}

/// The components of a Unix path (std's `Path::components`): the root if it
/// starts with `/`, `.` if it is relative and its first piece is `.`, then
/// the pieces between separators other than empty ones and `.`.
pub open spec fn components(p: Seq<char>) -> Seq<CompV> {
    let pieces = split_on(p, '/');
    let rooted = p.len() > 0 && p[0] == '/';
    let head: Seq<CompV> = if rooted {
        seq![CompV::Root]
    } else if pieces[0] =~= seq!['.'] {
        seq![CompV::Cur]
    } else {
        Seq::empty()
    };
    head + piece_comps(pieces)
}

/// How many components a path has.
pub open spec fn depth(p: Seq<char>) -> int {
    components(p).len() as int
}

proof fn lemma_split_on_len(s: Seq<char>, sep: char)
    ensures
        split_on(s, sep).len() >= 1,
    decreases s.len(),
{
    if s.len() > 0 {
        lemma_split_on_len(s.drop_last(), sep);
    }
}

fn piece_component(piece: &Vec<char>) -> (c: Option<Comp>)
    ensures
        match c {
            Some(x) => piece_comp(piece@) == Some(x@),
            None => piece_comp(piece@) is None,
        },
{
    let n = piece.len();
    if n == 0 || (n == 1 && piece[0] == '.') {
        return None;
    }
    proof {
        assert(!(piece@ =~= seq!['.']));
    }
    if n == 2 && piece[0] == '.' && piece[1] == '.' {
        assert(piece@ =~= seq!['.', '.']);
        return Some(Comp::Parent);
    }
    assert(!(piece@ =~= seq!['.', '.']));
    Some(Comp::Normal(crate::text::string_of(piece.as_slice())))
}

/// The components of a path.
pub fn components_of(p: &str) -> (v: Vec<Comp>)
    ensures
        comp_views(v@) == components(p@),
{
    let cs = chars_of(p);
    let mut comps: Vec<Comp> = Vec::new();
    let mut cur: Vec<char> = Vec::new();
    let mut first: Option<Vec<char>> = None;
    let mut i: usize = 0;
    proof {
        assert(cs@.subrange(0, 0) =~= Seq::<char>::empty());
        assert(comp_views(comps@) =~= Seq::<CompV>::empty());
    }
    while i < cs.len()
        invariant
            i <= cs@.len(),
            cs@ == p@,
            split_on(cs@.subrange(0, i as int), '/').len() >= 1,
            comp_views(comps@) == piece_comps(split_on(cs@.subrange(0, i as int), '/').drop_last()),
            cur@ == split_on(cs@.subrange(0, i as int), '/').last(),
            match first {
                Some(f) => split_on(cs@.subrange(0, i as int), '/').len() > 1 && f@ == split_on(
                    cs@.subrange(0, i as int),
                    '/',
                )[0],
                None => split_on(cs@.subrange(0, i as int), '/').len() == 1,
            },
        decreases cs.len() - i,
    {
        let ghost pre = cs@.subrange(0, i as int);
        let ghost post = cs@.subrange(0, i + 1);
        proof {
            assert(post.drop_last() =~= pre);
            assert(post.last() == cs@[i as int]);
            lemma_split_on_len(pre, '/');
        }
        let c = cs[i];
        if c == '/' {
            let ghost before = comp_views(comps@);
            match piece_component(&cur) {
                Some(x) => {
                    comps.push(x);
                    assert(comp_views(comps@) =~= before.push(x@));
                },
                None => {},
            }
            if first.is_none() {
                first = Some(cur);
            }
            cur = Vec::new();
            proof {
                let pp = split_on(post, '/');
                assert(pp == split_on(pre, '/').push(Seq::<char>::empty()));
                assert(pp.drop_last() =~= split_on(pre, '/'));
                assert(cur@ =~= pp.last());
                assert(pp[0] == split_on(pre, '/')[0]);
            }
        } else {
            cur.push(c);
            proof {
                let sp = split_on(pre, '/');
                let pp = split_on(post, '/');
                assert(pp == sp.update(sp.len() - 1, sp.last().push(c)));
                assert(pp.drop_last() =~= sp.drop_last());
                assert(cur@ =~= pp.last());
                if sp.len() > 1 {
                    assert(pp[0] == sp[0]);
                }
            }
        }
        i = i + 1;
    }
    proof {
        assert(cs@.subrange(0, cs@.len() as int) =~= p@);
    }
    let ghost pieces = split_on(p@, '/');
    let ghost before = comp_views(comps@);
    match piece_component(&cur) {
        Some(x) => {
            comps.push(x);
            assert(comp_views(comps@) =~= before.push(x@));
        },
        None => {},
    }
    assert(comp_views(comps@) == piece_comps(pieces));
    let rooted = cs.len() > 0 && cs[0] == '/';
    let dot_first = match &first {
        Some(f) => f.len() == 1 && f[0] == '.',
        None => cur.len() == 1 && cur[0] == '.',
    };
    proof {
        if dot_first {
            assert(pieces[0] =~= seq!['.']);
        } else {
            assert(!(pieces[0] =~= seq!['.']));
        }
    }
    let mut out: Vec<Comp> = Vec::new();
    if rooted {
        out.push(Comp::Root);
    } else if dot_first {
        out.push(Comp::Cur);
    }
    let ghost head = comp_views(out@);
    let mut rest = comps;
    out.append(&mut rest);
    assert(comp_views(out@) =~= head + comp_views(comps@));
    out
}

/// How many components a path has.
pub fn depth_of(p: &str) -> (d: usize)
    ensures
        d == depth(p@),
{
    components_of(p).len()
}

} // verus!

verus! {

/// The order of strings of characters: by code point, a proper prefix first.
pub open spec fn str_lt(a: Seq<char>, b: Seq<char>) -> bool
    decreases a.len(),
{
    if a.len() == 0 {
        b.len() > 0
    } else if b.len() == 0 {
        false
    } else if a[0] != b[0] {
        a[0] < b[0]
    } else {
        str_lt(a.drop_first(), b.drop_first())
    }
}

pub open spec fn comp_rank(c: CompV) -> int {
    match c {
        CompV::Root => 0,
        CompV::Cur => 1,
        CompV::Parent => 2,
        CompV::Normal(_) => 3,
    }
}

/// The order of components: the root, `.`, `..`, then names by their
/// characters.
pub open spec fn comp_lt(a: CompV, b: CompV) -> bool {
    match (a, b) {
        (CompV::Normal(x), CompV::Normal(y)) => str_lt(x, y),
        _ => comp_rank(a) < comp_rank(b),
    }
}

/// The order of component sequences: the first differing component
/// decides, a proper prefix first.
pub open spec fn comps_lt(a: Seq<CompV>, b: Seq<CompV>) -> bool
    decreases a.len(),
{
    if a.len() == 0 {
        b.len() > 0
    } else if b.len() == 0 {
        false
    } else if a[0] != b[0] {
        comp_lt(a[0], b[0])
    } else {
        comps_lt(a.drop_first(), b.drop_first())
    }
}

/// The order of paths (std's `Ord` for `Path`): by their components.
pub open spec fn path_lt(a: Seq<char>, b: Seq<char>) -> bool {
    comps_lt(components(a), components(b))
}

/// Whether two paths are equal (std's `PartialEq` for `Path`): the same
/// components.
pub open spec fn path_eq(a: Seq<char>, b: Seq<char>) -> bool {
    components(a) == components(b)
}

fn str_less(a: &Vec<char>, b: &Vec<char>) -> (r: bool)
    ensures
        r == str_lt(a@, b@),
{
    let mut i: usize = 0;
    assert(a@.subrange(0, a@.len() as int) =~= a@);
    assert(b@.subrange(0, b@.len() as int) =~= b@);
    while i < a.len() && i < b.len() && a[i] == b[i]
        invariant
            i <= a@.len(),
            i <= b@.len(),
            str_lt(a@, b@) == str_lt(a@.subrange(i as int, a@.len() as int), b@.subrange(i as int, b@.len() as int)),
        decreases a.len() - i,
    {
        proof {
            let x = a@.subrange(i as int, a@.len() as int);
            let y = b@.subrange(i as int, b@.len() as int);
            assert(x.drop_first() =~= a@.subrange(i + 1, a@.len() as int));
            assert(y.drop_first() =~= b@.subrange(i + 1, b@.len() as int));
        }
        i = i + 1;
    }
    proof {
        let x = a@.subrange(i as int, a@.len() as int);
        let y = b@.subrange(i as int, b@.len() as int);
        if i < a.len() && i < b.len() {
            assert(x[0] == a@[i as int]);
            assert(y[0] == b@[i as int]);
        }
    }
    if i == a.len() {
        i < b.len()
    } else if i == b.len() {
        false
    } else {
        a[i] < b[i]
    }
}

fn comp_less(a: &Comp, b: &Comp) -> (r: bool)
    ensures
        r == comp_lt(a@, b@),
{
    match (a, b) {
        (Comp::Normal(x), Comp::Normal(y)) => str_less(&chars_of(x.as_str()), &chars_of(y.as_str())),
        _ => {
            let ra: u8 = match a {
                Comp::Root => 0,
                Comp::Cur => 1,
                Comp::Parent => 2,
                Comp::Normal(_) => 3,
            };
            let rb: u8 = match b {
                Comp::Root => 0,
                Comp::Cur => 1,
                Comp::Parent => 2,
                Comp::Normal(_) => 3,
            };
            ra < rb
        },
    }
}

fn comp_same(a: &Comp, b: &Comp) -> (r: bool)
    ensures
        r == (a@ == b@),
{
    match (a, b) {
        (Comp::Root, Comp::Root) => true,
        (Comp::Cur, Comp::Cur) => true,
        (Comp::Parent, Comp::Parent) => true,
        (Comp::Normal(x), Comp::Normal(y)) => *x == *y,
        _ => false,
    }
}

/// Whether `a` comes before `b` in the order of paths.
pub fn comps_less(a: &Vec<Comp>, b: &Vec<Comp>) -> (r: bool)
    ensures
        r == comps_lt(comp_views(a@), comp_views(b@)),
{
    let ghost av = comp_views(a@);
    let ghost bv = comp_views(b@);
    let mut i: usize = 0;
    assert(av.subrange(0, av.len() as int) =~= av);
    assert(bv.subrange(0, bv.len() as int) =~= bv);
    while i < a.len() && i < b.len() && comp_same(&a[i], &b[i])
        invariant
            i <= a@.len(),
            i <= b@.len(),
            av == comp_views(a@),
            bv == comp_views(b@),
            comps_lt(av, bv) == comps_lt(av.subrange(i as int, av.len() as int), bv.subrange(i as int, bv.len() as int)),
        decreases a.len() - i,
    {
        proof {
            let x = av.subrange(i as int, av.len() as int);
            let y = bv.subrange(i as int, bv.len() as int);
            assert(x.drop_first() =~= av.subrange(i + 1, av.len() as int));
            assert(y.drop_first() =~= bv.subrange(i + 1, bv.len() as int));
            assert(x[0] == av[i as int]);
            assert(y[0] == bv[i as int]);
        }
        i = i + 1;
    }
    proof {
        let x = av.subrange(i as int, av.len() as int);
        let y = bv.subrange(i as int, bv.len() as int);
        if i < a.len() && i < b.len() {
            assert(x[0] == av[i as int]);
            assert(y[0] == bv[i as int]);
        }
    }
    if i == a.len() {
        i < b.len()
    } else if i == b.len() {
        false
    } else {
        comp_less(&a[i], &b[i])
    }
}

/// Whether two component lists are the same.
pub fn comps_same(a: &Vec<Comp>, b: &Vec<Comp>) -> (r: bool)
    ensures
        r == (comp_views(a@) == comp_views(b@)),
{
    if a.len() != b.len() {
        assert(comp_views(a@).len() != comp_views(b@).len());
        return false;
    }
    let mut i: usize = 0;
    while i < a.len()
        invariant
            i <= a@.len() == b@.len(),
            forall|k: int| 0 <= k < i ==> a@[k]@ == b@[k]@,
        decreases a.len() - i,
    {
        if !comp_same(&a[i], &b[i]) {
            assert(comp_views(a@)[i as int] != comp_views(b@)[i as int]);
            return false;
        }
        i = i + 1;
    }
    assert(comp_views(a@) =~= comp_views(b@));
    true
}

} // verus!

verus! {

/// `x` put into the path-ordered list `out`, unless a path equal to it is
/// already there.
pub open spec fn insert_sorted(out: Seq<Seq<char>>, x: Seq<char>) -> Seq<Seq<char>>
    decreases out.len(),
{
    if out.len() == 0 {
        seq![x]
    } else if path_eq(out[0], x) {
        out
    } else if path_lt(out[0], x) {
        seq![out[0]] + insert_sorted(out.drop_first(), x)
    } else {
        seq![x] + out
    }
}

/// The paths of `s` in path order, each path once (for paths equal as
/// paths, the first in `s`): what a stable sort followed by removing
/// consecutive duplicates gives.
pub open spec fn sorted_unique(s: Seq<Seq<char>>) -> Seq<Seq<char>>
    decreases s.len(),
{
    if s.len() == 0 {
        Seq::empty()
    } else {
        insert_sorted(sorted_unique(s.drop_last()), s.last())
    }
}

proof fn lemma_insert_at(out: Seq<Seq<char>>, x: Seq<char>, p: int)
    requires
        0 <= p <= out.len(),
        forall|j: int| 0 <= j < p ==> !path_eq(#[trigger] out[j], x) && path_lt(out[j], x),
        p < out.len() ==> path_eq(out[p], x) || !path_lt(out[p], x),
    ensures
        insert_sorted(out, x) == if p < out.len() && path_eq(out[p], x) {
            out
        } else {
            out.insert(p, x)
        },
    decreases p,
{
    if p > 0 {
        let t = out.drop_first();
        assert forall|j: int| 0 <= j < p - 1 implies !path_eq(#[trigger] t[j], x) && path_lt(t[j], x) by {
            assert(t[j] == out[j + 1]);
        }
        lemma_insert_at(t, x, p - 1);
        assert(!path_eq(out[0], x) && path_lt(out[0], x));
        if p < out.len() && path_eq(out[p], x) {
            assert(seq![out[0]] + t =~= out);
        } else {
            assert(seq![out[0]] + t.insert(p - 1, x) =~= out.insert(p, x));
        }
    } else {
        if out.len() > 0 && !path_eq(out[0], x) {
            assert(seq![x] + out =~= out.insert(0, x));
        } else if out.len() == 0 {
            assert(seq![x] =~= out.insert(0, x));
        }
    }
}

/// The paths of `v` in path order, each once (see [`sorted_unique`]).
pub fn sorted_unique_paths(v: &Vec<String>) -> (r: Vec<String>)
    ensures
        crate::text::views(r@) == sorted_unique(crate::text::views(v@)),
{
    let ghost sv = crate::text::views(v@);
    let mut out: Vec<String> = Vec::new();
    let mut oc: Vec<Vec<Comp>> = Vec::new();
    let mut i: usize = 0;
    proof {
        assert(sv.subrange(0, 0) =~= Seq::<Seq<char>>::empty());
        assert(crate::text::views(out@) =~= Seq::<Seq<char>>::empty());
    }
    while i < v.len()
        invariant
            i <= v@.len(),
            sv == crate::text::views(v@),
            crate::text::views(out@) == sorted_unique(sv.subrange(0, i as int)),
            oc@.len() == out@.len(),
            forall|k: int| 0 <= k < out@.len() ==> comp_views(#[trigger] oc@[k]@) == components(out@[k]@),
        decreases v.len() - i,
    {
        let ghost ov = crate::text::views(out@);
        proof {
            let post = sv.subrange(0, i + 1);
            assert(post.drop_last() =~= sv.subrange(0, i as int));
            assert(post.last() == v@[i as int]@);
        }
        let x = v[i].clone();
        let xc = components_of(x.as_str());
        let mut p: usize = 0;
        while p < out.len() && !comps_same(&oc[p], &xc) && comps_less(&oc[p], &xc)
            invariant
                p <= out@.len(),
                oc@.len() == out@.len(),
                ov == crate::text::views(out@),
                comp_views(xc@) == components(x@),
                forall|k: int| 0 <= k < out@.len() ==> comp_views(#[trigger] oc@[k]@) == components(out@[k]@),
                forall|j: int| 0 <= j < p ==> !path_eq(#[trigger] ov[j], x@) && path_lt(ov[j], x@),
            decreases out.len() - p,
        {
            assert(comp_views(oc@[p as int]@) == components(ov[p as int]));
            p = p + 1;
        }
        proof {
            if p < out.len() {
                assert(comp_views(oc@[p as int]@) == components(ov[p as int]));
            }
        }
        let dup = p < out.len() && comps_same(&oc[p], &xc);
        proof {
            lemma_insert_at(ov, x@, p as int);
        }
        if !dup {
            let ghost oc0 = oc@;
            let ghost out0 = out@;
            out.insert(p, x);
            oc.insert(p, xc);
            proof {
                assert(crate::text::views(out@) =~= ov.insert(p as int, v@[i as int]@));
                assert forall|k: int| 0 <= k < out@.len() implies comp_views(#[trigger] oc@[k]@)
                    == components(out@[k]@) by {
                    if k < p {
                        assert(oc@[k] == oc0[k] && out@[k] == out0[k]);
                    } else if k > p {
                        assert(oc@[k] == oc0[k - 1] && out@[k] == out0[k - 1]);
                    }
                }
            }
        }
        i = i + 1;
    }
    proof {
        assert(sv.subrange(0, sv.len() as int) =~= sv);
    }
    out
}

} // verus!

verus! {

proof fn lemma_str_lt_irrefl(a: Seq<char>)
    ensures
        !str_lt(a, a),
    decreases a.len(),
{
    if a.len() > 0 {
        lemma_str_lt_irrefl(a.drop_first());
    }
}

proof fn lemma_str_lt_trans(a: Seq<char>, b: Seq<char>, c: Seq<char>)
    requires
        str_lt(a, b),
        str_lt(b, c),
    ensures
        str_lt(a, c),
    decreases a.len(),
{
    if a.len() > 0 && b.len() > 0 && c.len() > 0 {
        if a[0] == b[0] && b[0] == c[0] {
            lemma_str_lt_trans(a.drop_first(), b.drop_first(), c.drop_first());
        }
    }
}

proof fn lemma_str_lt_total(a: Seq<char>, b: Seq<char>)
    ensures
        a == b || str_lt(a, b) || str_lt(b, a),
    decreases a.len(),
{
    if a.len() > 0 && b.len() > 0 {
        if a[0] == b[0] {
            lemma_str_lt_total(a.drop_first(), b.drop_first());
            if a.drop_first() == b.drop_first() {
                assert(a =~= seq![a[0]] + a.drop_first());
                assert(b =~= seq![b[0]] + b.drop_first());
            }
        }
    } else if a.len() == 0 && b.len() == 0 {
        assert(a =~= b);
    }
}

proof fn lemma_comp_lt_order(a: CompV, b: CompV, c: CompV)
    ensures
        !comp_lt(a, a),
        comp_lt(a, b) && comp_lt(b, c) ==> comp_lt(a, c),
        a == b || comp_lt(a, b) || comp_lt(b, a),
{
    match a {
        CompV::Normal(x) => {
            lemma_str_lt_irrefl(x);
        },
        _ => {},
    }
    if comp_lt(a, b) && comp_lt(b, c) {
        if let (CompV::Normal(x), CompV::Normal(y), CompV::Normal(z)) = (a, b, c) {
            lemma_str_lt_trans(x, y, z);
        }
    }
    if let (CompV::Normal(x), CompV::Normal(y)) = (a, b) {
        lemma_str_lt_total(x, y);
    }
}

proof fn lemma_comps_lt_irrefl(a: Seq<CompV>)
    ensures
        !comps_lt(a, a),
    decreases a.len(),
{
    if a.len() > 0 {
        lemma_comps_lt_irrefl(a.drop_first());
    }
}

proof fn lemma_comps_lt_trans(a: Seq<CompV>, b: Seq<CompV>, c: Seq<CompV>)
    requires
        comps_lt(a, b),
        comps_lt(b, c),
    ensures
        comps_lt(a, c),
    decreases a.len(),
{
    if a.len() > 0 && b.len() > 0 && c.len() > 0 {
        lemma_comp_lt_order(a[0], b[0], c[0]);
        lemma_comp_lt_order(a[0], c[0], b[0]);
        lemma_comp_lt_order(b[0], a[0], c[0]);
        lemma_comp_lt_order(c[0], a[0], b[0]);
        if a[0] == b[0] && b[0] == c[0] {
            lemma_comps_lt_trans(a.drop_first(), b.drop_first(), c.drop_first());
        }
    }
}

proof fn lemma_comps_lt_total(a: Seq<CompV>, b: Seq<CompV>)
    ensures
        a == b || comps_lt(a, b) || comps_lt(b, a),
    decreases a.len(),
{
    if a.len() > 0 && b.len() > 0 {
        lemma_comp_lt_order(a[0], b[0], b[0]);
        if a[0] == b[0] {
            lemma_comps_lt_total(a.drop_first(), b.drop_first());
            if a.drop_first() == b.drop_first() {
                assert(a =~= seq![a[0]] + a.drop_first());
                assert(b =~= seq![b[0]] + b.drop_first());
            }
        }
    } else if a.len() == 0 && b.len() == 0 {
        assert(a =~= b);
    }
}

/// The order of paths is a strict total order on their components: never
/// reflexive, transitive, and any two paths that are not equal as paths are
/// ordered one way or the other.
pub proof fn lemma_path_order(a: Seq<char>, b: Seq<char>, c: Seq<char>)
    ensures
        !path_lt(a, a),
        path_lt(a, b) && path_lt(b, c) ==> path_lt(a, c),
        path_eq(a, b) || path_lt(a, b) || path_lt(b, a),
        path_eq(a, b) ==> !path_lt(a, b),
{
    lemma_comps_lt_irrefl(components(a));
    if path_lt(a, b) && path_lt(b, c) {
        lemma_comps_lt_trans(components(a), components(b), components(c));
    }
    lemma_comps_lt_total(components(a), components(b));
}

/// Whether `s` is strictly increasing in the order of paths.
pub open spec fn strictly_sorted(s: Seq<Seq<char>>) -> bool {
    forall|i: int, j: int| 0 <= i < j < s.len() ==> path_lt(#[trigger] s[i], #[trigger] s[j])
}

proof fn lemma_insert_sorted(out: Seq<Seq<char>>, x: Seq<char>)
    requires
        strictly_sorted(out),
    ensures
        strictly_sorted(insert_sorted(out, x)),
        forall|k: int| 0 <= k < insert_sorted(out, x).len() ==> (#[trigger] insert_sorted(out, x)[k] == x
            || out.contains(insert_sorted(out, x)[k])),
        forall|k: int| 0 <= k < out.len() ==> insert_sorted(out, x).contains(#[trigger] out[k]),
        exists|k: int| 0 <= k < insert_sorted(out, x).len() && path_eq(#[trigger] insert_sorted(out, x)[k], x),
    decreases out.len(),
{
    let r = insert_sorted(out, x);
    if out.len() == 0 {
        assert(path_eq(r[0], x));
    } else if path_eq(out[0], x) {
        assert(path_eq(r[0], x));
    } else if path_lt(out[0], x) {
        let t = out.drop_first();
        assert forall|i: int, j: int| 0 <= i < j < t.len() implies path_lt(#[trigger] t[i], #[trigger] t[j]) by {
            assert(t[i] == out[i + 1] && t[j] == out[j + 1]);
        }
        lemma_insert_sorted(t, x);
        let rest = insert_sorted(t, x);
        assert(r == seq![out[0]] + rest);
        assert forall|k: int| 0 <= k < rest.len() implies path_lt(out[0], #[trigger] rest[k]) by {
            if rest[k] != x {
                assert(t.contains(rest[k]));
                let q = choose|q: int| 0 <= q < t.len() && t[q] == rest[k];
                assert(t[q] == out[q + 1]);
            }
        }
        assert forall|i: int, j: int| 0 <= i < j < r.len() implies path_lt(#[trigger] r[i], #[trigger] r[j]) by {
            if i == 0 {
                assert(r[j] == rest[j - 1]);
            } else {
                assert(r[i] == rest[i - 1] && r[j] == rest[j - 1]);
            }
        }
        assert forall|k: int| 0 <= k < r.len() implies (#[trigger] r[k] == x || out.contains(r[k])) by {
            if k == 0 {
                assert(out[0] == r[0]);
            } else {
                assert(r[k] == rest[k - 1]);
                if rest[k - 1] != x {
                    let q = choose|q: int| 0 <= q < t.len() && t[q] == rest[k - 1];
                    assert(out[q + 1] == r[k]);
                }
            }
        }
        assert forall|k: int| 0 <= k < out.len() implies r.contains(#[trigger] out[k]) by {
            if k == 0 {
                assert(r[0] == out[0]);
            } else {
                assert(t[k - 1] == out[k]);
                assert(rest.contains(t[k - 1]));
                let q = choose|q: int| 0 <= q < rest.len() && rest[q] == t[k - 1];
                assert(r[q + 1] == out[k]);
            }
        }
        let q = choose|q: int| 0 <= q < rest.len() && path_eq(rest[q], x);
        assert(r[q + 1] == rest[q]);
    } else {
        lemma_path_order(out[0], x, x);
        assert(path_lt(x, out[0]));
        assert(r == seq![x] + out);
        assert forall|i: int, j: int| 0 <= i < j < r.len() implies path_lt(#[trigger] r[i], #[trigger] r[j]) by {
            if i == 0 {
                assert(r[j] == out[j - 1]);
                if j > 1 {
                    lemma_path_order(x, out[0], out[j - 1]);
                }
            } else {
                assert(r[i] == out[i - 1] && r[j] == out[j - 1]);
            }
        }
        assert forall|k: int| 0 <= k < r.len() implies (#[trigger] r[k] == x || out.contains(r[k])) by {
            if k > 0 {
                assert(r[k] == out[k - 1]);
            }
        }
        assert forall|k: int| 0 <= k < out.len() implies r.contains(#[trigger] out[k]) by {
            assert(r[k + 1] == out[k]);
        }
        assert(path_eq(r[0], x));
    }
}

/// The git directories pruned after a removal are in path order, each path
/// once: the result of [`sorted_unique`] is strictly increasing in the order
/// of paths, holds only paths of its input, and holds a path equal to each
/// of them.
#[verifier::spinoff_prover]
#[verifier::rlimit(30)]
pub proof fn lemma_sorted_unique(s: Seq<Seq<char>>)
    ensures
        strictly_sorted(sorted_unique(s)),
        forall|k: int| 0 <= k < sorted_unique(s).len() ==> s.contains(#[trigger] sorted_unique(s)[k]),
        forall|i: int| 0 <= i < s.len() ==> exists|k: int| 0 <= k < sorted_unique(s).len() && path_eq(#[trigger] sorted_unique(s)[k], #[trigger] s[i]),
    decreases s.len(),
{
    if s.len() > 0 {
        let p = s.drop_last();
        let x = s.last();
        lemma_sorted_unique(p);
        let o = sorted_unique(p);
        lemma_insert_sorted(o, x);
        let r = sorted_unique(s);
        assert(r == insert_sorted(o, x));
        assert forall|k: int| 0 <= k < r.len() implies s.contains(#[trigger] r[k]) by {
            if r[k] == x {
                assert(s[s.len() - 1] == x);
            } else {
                let q = choose|q: int| 0 <= q < o.len() && o[q] == r[k];
                assert(p.contains(o[q]));
                let z = choose|z: int| 0 <= z < p.len() && p[z] == o[q];
                assert(s[z] == p[z]);
            }
        }
        assert forall|i: int| 0 <= i < s.len() implies exists|k: int| 0 <= k < r.len() && path_eq(#[trigger] r[k], #[trigger] s[i]) by {
            if i < s.len() - 1 {
                assert(s[i] == p[i]);
                let q = choose|q: int| 0 <= q < o.len() && path_eq(#[trigger] o[q], #[trigger] p[i]);
                assert(r.contains(o[q]));
                let z = choose|z: int| 0 <= z < r.len() && r[z] == o[q];
                assert(path_eq(r[z], s[i]));
            } else {
                let z = choose|z: int| 0 <= z < r.len() && path_eq(#[trigger] r[z], x);
                assert(path_eq(r[z], s[i]));
            }
        }
    }
}

} // verus!
