//! Discovery of the git repositories nested inside a directory tree.
//!
//! The walk visits the tree depth-first, in the order in which the system
//! lists each directory. Hidden entries (whose name starts with `.`) and
//! entries named in the skip list are passed over without being looked at.
//! Symlinks are followed, and every directory is identified by its canonical
//! path, so that no directory is entered twice. A directory that holds a
//! `.git` entry (a directory or a file) is a nested repository; the walk
//! still goes on inside it.

use vstd::prelude::*;
use crate::effect::{
    flag_of, names_of, path_of, take_flag, take_names, take_path, ReplyV, Reply, Request,
    RequestV, Step, StepV,
};
use crate::info::{
    dot_git, info_resume, info_start, InfoLookup, InfoLookupV, InfoPhaseV, WorktreeInfo, WorktreeInfoV,
};
use crate::error::ErrorV;
use crate::path::{join, join_path};
use crate::text::{list_contains, starts_with_char, views};

verus! {

/// A nested git repository found inside a tree.
#[derive(Debug)]
pub struct NestedGitRepo {
    /// Path of the nested repository (the scanned root joined with
    /// `relative_path`).
    pub path: String,
    /// Path relative to the root that was scanned.
    pub relative_path: String,
}

pub struct NestedGitRepoV {
    pub path: Seq<char>,
    pub relative_path: Seq<char>,
}

impl View for NestedGitRepo {
    type V = NestedGitRepoV;

    open spec fn view(&self) -> NestedGitRepoV {
        NestedGitRepoV { path: self.path@, relative_path: self.relative_path@ }
    }
}

pub open spec fn repo_views(v: Seq<NestedGitRepo>) -> Seq<NestedGitRepoV> {
    v.map_values(|r: NestedGitRepo| r@)
}

/// Whether an entry name is hidden.
pub open spec fn is_hidden(name: Seq<char>) -> bool {
    name.len() > 0 && name[0] == '.'
}

/// Whether the walk looks at an entry of this name.
pub open spec fn is_candidate(name: Seq<char>, skip_dirs: Seq<Seq<char>>) -> bool {
    !is_hidden(name) && !skip_dirs.contains(name)
}

/// The names that the walk looks at, in their order.
pub open spec fn candidates(names: Seq<Seq<char>>, skip_dirs: Seq<Seq<char>>) -> Seq<Seq<char>>
    decreases names.len(),
{
    if names.len() == 0 {
        Seq::empty()
    } else {
        let r = candidates(names.drop_last(), skip_dirs);
        if is_candidate(names.last(), skip_dirs) {
            r.push(names.last())
        } else {
            r
        }
    }
}

/// A directory being walked: its entries to look at, and how many of them
/// have been taken.
struct Frame {
    dir: String,
    rel: String,
    names: Vec<String>,
    next: usize,
}

pub struct FrameV {
    pub dir: Seq<char>,
    pub rel: Seq<char>,
    pub names: Seq<Seq<char>>,
    pub next: int,
}

impl View for Frame {
    type V = FrameV;

    closed spec fn view(&self) -> FrameV {
        FrameV { dir: self.dir@, rel: self.rel@, names: views(self.names@), next: self.next as int }
    }
}

enum WalkPhase {
    Begin,
    Rooting,
    Listing { dir: String, rel: String },
    Probing { path: String, rel: String },
    Resolving { path: String, rel: String },
    Checking { path: String, rel: String },
    Done,
}

/// What the walk awaits.
pub enum WalkPhaseV {
    /// Nothing yet.
    Begin,
    /// The canonical path of the root.
    Rooting,
    /// The entries of `dir`.
    Listing { dir: Seq<char>, rel: Seq<char> },
    /// Whether `path` is a directory.
    Probing { path: Seq<char>, rel: Seq<char> },
    /// The canonical path of the directory `path`.
    Resolving { path: Seq<char>, rel: Seq<char> },
    /// Whether `path/.git` exists.
    Checking { path: Seq<char>, rel: Seq<char> },
    /// Nothing more: the walk is over.
    Done,
}

impl View for WalkPhase {
    type V = WalkPhaseV;

    closed spec fn view(&self) -> WalkPhaseV {
        match self {
            WalkPhase::Begin => WalkPhaseV::Begin,
            WalkPhase::Rooting => WalkPhaseV::Rooting,
            WalkPhase::Listing { dir, rel } => WalkPhaseV::Listing { dir: dir@, rel: rel@ },
            WalkPhase::Probing { path, rel } => WalkPhaseV::Probing { path: path@, rel: rel@ },
            WalkPhase::Resolving { path, rel } => WalkPhaseV::Resolving { path: path@, rel: rel@ },
            WalkPhase::Checking { path, rel } => WalkPhaseV::Checking { path: path@, rel: rel@ },
            WalkPhase::Done => WalkPhaseV::Done,
        }
    }
}

/// The walk of a tree in search of nested git repositories.
pub struct NestedWalk {
    root: String,
    skip_dirs: Vec<String>,
    visited: Vec<String>,
    stack: Vec<Frame>,
    phase: WalkPhase,
    found: Vec<NestedGitRepo>,
}

pub struct NestedWalkV {
    pub root: Seq<char>,
    pub skip_dirs: Seq<Seq<char>>,
    /// Canonical paths of the directories entered so far.
    pub visited: Seq<Seq<char>>,
    /// The directories being walked, innermost last.
    pub stack: Seq<FrameV>,
    pub phase: WalkPhaseV,
    /// The repositories found so far, in the order found.
    pub found: Seq<NestedGitRepoV>,
}

impl View for NestedWalk {
    type V = NestedWalkV;

    closed spec fn view(&self) -> NestedWalkV {
        NestedWalkV {
            root: self.root@,
            skip_dirs: views(self.skip_dirs@),
            visited: views(self.visited@),
            stack: self.stack@.map_values(|f: Frame| f@),
            phase: self.phase@,
            found: repo_views(self.found@),
        }
    }
}

/// Take the next entry to look at, leaving the directories that have none.
pub open spec fn walk_advance(w: NestedWalkV) -> (NestedWalkV, StepV)
    decreases w.stack.len(),
{
    if w.stack.len() == 0 {
        (NestedWalkV { phase: WalkPhaseV::Done, ..w }, StepV::Finished)
    } else {
        let top = w.stack.last();
        if top.next < 0 || top.next >= top.names.len() {
            walk_advance(NestedWalkV { stack: w.stack.drop_last(), ..w })
        } else {
            let name = top.names[top.next];
            let path = join_path(top.dir, name);
            let rel = join_path(top.rel, name);
            (
                NestedWalkV {
                    stack: w.stack.update(w.stack.len() - 1, FrameV { next: top.next + 1, ..top }),
                    phase: WalkPhaseV::Probing { path, rel },
                    ..w
                },
                StepV::Do(RequestV::IsDir(path)),
            )
        }
    }
}

/// One step of the walk: the state and request that follow the reply `r`.
pub open spec fn walk_resume(w: NestedWalkV, r: ReplyV) -> (NestedWalkV, StepV) {
    match w.phase {
        WalkPhaseV::Begin => (
            NestedWalkV { phase: WalkPhaseV::Rooting, ..w },
            StepV::Do(RequestV::Canonicalize(w.root)),
        ),
        WalkPhaseV::Rooting => {
            let visited = match path_of(r) {
                Ok(c) => w.visited.push(c),
                Err(_) => w.visited,
            };
            (
                NestedWalkV {
                    visited,
                    phase: WalkPhaseV::Listing { dir: w.root, rel: Seq::empty() },
                    ..w
                },
                StepV::Do(RequestV::ListDir(w.root)),
            )
        },
        WalkPhaseV::Listing { dir, rel } => {
            let names = match names_of(r) {
                Some(ns) => candidates(ns, w.skip_dirs),
                None => Seq::empty(),
            };
            walk_advance(
                NestedWalkV { stack: w.stack.push(FrameV { dir, rel, names, next: 0 }), ..w },
            )
        },
        WalkPhaseV::Probing { path, rel } => {
            if flag_of(r) {
                (
                    NestedWalkV { phase: WalkPhaseV::Resolving { path, rel }, ..w },
                    StepV::Do(RequestV::Canonicalize(path)),
                )
            } else {
                walk_advance(w)
            }
        },
        WalkPhaseV::Resolving { path, rel } => {
            match path_of(r) {
                Ok(c) => {
                    if w.visited.contains(c) {
                        walk_advance(w)
                    } else {
                        (
                            NestedWalkV {
                                visited: w.visited.push(c),
                                phase: WalkPhaseV::Checking { path, rel },
                                ..w
                            },
                            StepV::Do(RequestV::Exists(join_path(path, ".git"@))),
                        )
                    }
                },
                Err(_) => walk_advance(w),
            }
        },
        WalkPhaseV::Checking { path, rel } => {
            let found = if flag_of(r) {
                w.found.push(NestedGitRepoV { path, relative_path: rel })
            } else {
                w.found
            };
            (
                NestedWalkV { found, phase: WalkPhaseV::Listing { dir: path, rel }, ..w },
                StepV::Do(RequestV::ListDir(path)),
            )
        },
        WalkPhaseV::Done => (w, StepV::Finished),
    }
}

/// The walk of `root` before its first step.
pub open spec fn walk_start(root: Seq<char>, skip_dirs: Seq<Seq<char>>) -> NestedWalkV {
    NestedWalkV {
        root,
        skip_dirs,
        visited: Seq::empty(),
        stack: Seq::empty(),
        phase: WalkPhaseV::Begin,
        found: Seq::empty(),
    }
}

/// The names of `names` that the walk looks at.
fn candidates_of(names: Vec<String>, skip_dirs: &Vec<String>) -> (r: Vec<String>)
    ensures
        views(r@) == candidates(views(names@), views(skip_dirs@)),
{
    let mut r: Vec<String> = Vec::new();
    let mut i: usize = 0;
    while i < names.len()
        invariant
            i <= names@.len(),
            views(r@) == candidates(views(names@).subrange(0, i as int), views(skip_dirs@)),
        decreases names.len() - i,
    {
        let n = &names[i];
        let keep = !starts_with_char(n.as_str(), '.') && !list_contains(skip_dirs, n);
        let ghost pre = views(names@).subrange(0, i as int);
        proof {
            let post = views(names@).subrange(0, i + 1);
            assert(post.drop_last() =~= pre);
            assert(post.last() == n@);
        }
        if keep {
            r.push(n.clone());
            assert(views(r@) =~= candidates(views(names@).subrange(0, i + 1), views(skip_dirs@)));
        }
        i = i + 1;
    }
    assert(views(names@).subrange(0, names@.len() as int) =~= views(names@));
    r
}

impl NestedWalk {
    /// A walk of `root` that passes over the names in `skip_dirs` (and over
    /// hidden entries).
    pub fn new(root: String, skip_dirs: Vec<String>) -> (w: NestedWalk)
        ensures
            w@ == walk_start(root@, views(skip_dirs@)),
    {
        let w = NestedWalk {
            root,
            skip_dirs,
            visited: Vec::new(),
            stack: Vec::new(),
            phase: WalkPhase::Begin,
            found: Vec::new(),
        };
        assert(w@.stack =~= Seq::<FrameV>::empty());
        assert(w@.visited =~= Seq::<Seq<char>>::empty());
        assert(w@.found =~= Seq::<NestedGitRepoV>::empty());
        w
    }

    /// The repositories found so far, in the order found.
    pub fn found(&self) -> (f: &Vec<NestedGitRepo>)
        ensures
            repo_views(f@) == self@.found,
    {
        &self.found
    }

    /// The repositories found, in the order found.
    pub fn into_found(self) -> (f: Vec<NestedGitRepo>)
        ensures
            repo_views(f@) == self@.found,
    {
        self.found
    }

    fn advance(&mut self) -> (st: Step)
        ensures
            (final(self)@, st@) == walk_advance(old(self)@),
    {
        let ghost goal = walk_advance(old(self)@);
        loop
            invariant
                walk_advance(self@) == goal,
                goal == walk_advance(old(self)@),
            decreases self.stack.len(),
        {
            let ghost prev = self@;
            if self.stack.len() == 0 {
                self.phase = WalkPhase::Done;
                assert(self@ == NestedWalkV { phase: WalkPhaseV::Done, ..prev });
                assert(goal == (self@, StepV::Finished));
                return Step::Finished;
            }
            let mut f = self.stack.pop().unwrap();
            proof {
                assert(self@.stack =~= prev.stack.drop_last());
                assert(prev.stack.last() == f@);
            }
            if f.next >= f.names.len() {
                assert(self@ == NestedWalkV { stack: prev.stack.drop_last(), ..prev });
                continue;
            }
            let name = f.names[f.next].clone();
            f.next = f.next + 1;
            let path = join(f.dir.as_str(), name.as_str());
            let rel = join(f.rel.as_str(), name.as_str());
            self.stack.push(f);
            self.phase = WalkPhase::Probing { path: path.clone(), rel };
            proof {
                let top = prev.stack.last();
                assert(self@.stack =~= prev.stack.update(
                    prev.stack.len() - 1,
                    FrameV { next: top.next + 1, ..top },
                ));
                assert(name@ == top.names[top.next]);
                assert(self@ == NestedWalkV {
                    stack: prev.stack.update(prev.stack.len() - 1, FrameV { next: top.next + 1, ..top }),
                    phase: WalkPhaseV::Probing { path: path@, rel: join_path(top.rel, name@) },
                    ..prev
                });
            }
            return Step::Do(Request::IsDir(path));
        }
    }

    /// One step of the walk: takes the reply to the previous request and
    /// gives the next request, or `Finished` once the whole tree is walked.
    pub fn resume(&mut self, reply: Reply) -> (st: Step)
        ensures
            (final(self)@, st@) == walk_resume(old(self)@, reply@),
    {
        let ghost w = self@;
        match &self.phase {
            WalkPhase::Begin => {
                self.phase = WalkPhase::Rooting;
                assert(self@ == NestedWalkV { phase: WalkPhaseV::Rooting, ..w });
                Step::Do(Request::Canonicalize(self.root.clone()))
            },
            WalkPhase::Rooting => {
                match take_path(reply) {
                    Ok(c) => {
                        self.visited.push(c);
                        assert(self@.visited =~= w.visited.push(c@));
                    },
                    Err(_) => {},
                }
                let root = self.root.clone();
                self.phase = WalkPhase::Listing { dir: root.clone(), rel: String::new() };
                Step::Do(Request::ListDir(root))
            },
            WalkPhase::Listing { dir, rel } => {
                let dir = dir.clone();
                let rel = rel.clone();
                let names = match take_names(reply) {
                    Some(ns) => candidates_of(ns, &self.skip_dirs),
                    None => Vec::new(),
                };
                assert(names_of(reply@) is None ==> views(names@) =~= Seq::<Seq<char>>::empty());
                self.stack.push(Frame { dir, rel, names, next: 0 });
                assert(self@.stack =~= w.stack.push(
                    FrameV { dir: dir@, rel: rel@, names: views(names@), next: 0 },
                ));
                self.advance()
            },
            WalkPhase::Probing { path, rel } => {
                let path = path.clone();
                let rel = rel.clone();
                if take_flag(reply) {
                    self.phase = WalkPhase::Resolving { path: path.clone(), rel };
                    Step::Do(Request::Canonicalize(path))
                } else {
                    self.advance()
                }
            },
            WalkPhase::Resolving { path, rel } => {
                let path = path.clone();
                let rel = rel.clone();
                match take_path(reply) {
                    Ok(c) => {
                        if list_contains(&self.visited, &c) {
                            self.advance()
                        } else {
                            self.visited.push(c);
                            assert(self@.visited =~= w.visited.push(c@));
                            let git = join(path.as_str(), ".git");
                            self.phase = WalkPhase::Checking { path, rel };
                            Step::Do(Request::Exists(git))
                        }
                    },
                    Err(_) => self.advance(),
                }
            },
            WalkPhase::Checking { path, rel } => {
                let path = path.clone();
                let rel = rel.clone();
                if take_flag(reply) {
                    self.found.push(NestedGitRepo { path: path.clone(), relative_path: rel.clone() });
                    assert(self@.found =~= w.found.push(
                        NestedGitRepoV { path: path@, relative_path: rel@ },
                    ));
                }
                self.phase = WalkPhase::Listing { dir: path.clone(), rel };
                Step::Do(Request::ListDir(path))
            },
            WalkPhase::Done => Step::Finished,
        }
    }
}

} // verus!

verus! {

/// Whether no string occurs twice in `s`.
pub open spec fn no_dups(s: Seq<Seq<char>>) -> bool {
    forall|i: int, j: int| 0 <= i < j < s.len() ==> s[i] != s[j]
}

/// Every entry that the walk still has to look at is a candidate.
pub open spec fn frames_hold_candidates(w: NestedWalkV) -> bool {
    forall|i: int, k: int|
        0 <= i < w.stack.len() && 0 <= k < w.stack[i].names.len() ==> is_candidate(
            #[trigger] w.stack[i].names[k],
            w.skip_dirs,
        )
}

proof fn lemma_candidates_are_candidates(names: Seq<Seq<char>>, skip_dirs: Seq<Seq<char>>)
    ensures
        forall|k: int|
            0 <= k < candidates(names, skip_dirs).len() ==> is_candidate(
                #[trigger] candidates(names, skip_dirs)[k],
                skip_dirs,
            ),
    decreases names.len(),
{
    if names.len() > 0 {
        let r = candidates(names.drop_last(), skip_dirs);
        lemma_candidates_are_candidates(names.drop_last(), skip_dirs);
        assert forall|k: int| 0 <= k < candidates(names, skip_dirs).len() implies is_candidate(
            #[trigger] candidates(names, skip_dirs)[k],
            skip_dirs,
        ) by {
            if k < r.len() {
                assert(candidates(names, skip_dirs)[k] == r[k]);
            }
        }
    }
}

proof fn lemma_advance(w: NestedWalkV)
    requires
        frames_hold_candidates(w),
    ensures
        ({
            let (w2, st) = walk_advance(w);
            &&& frames_hold_candidates(w2)
            &&& w2.visited == w.visited
            &&& w2.found == w.found
            &&& w2.skip_dirs == w.skip_dirs
            &&& w2.root == w.root
            &&& (st is Finished <==> w2.phase is Done)
            &&& (w2.phase is Done || w2.phase is Probing)
            &&& (st is Do ==> exists|dir: Seq<char>, name: Seq<char>|
                is_candidate(name, w.skip_dirs) && st == StepV::Do(
                    RequestV::IsDir(join_path(dir, name)),
                ))
        }),
    decreases w.stack.len(),
{
    if w.stack.len() > 0 {
        let top = w.stack.last();
        if top.next < 0 || top.next >= top.names.len() {
            let w1 = NestedWalkV { stack: w.stack.drop_last(), ..w };
            assert forall|i: int, k: int|
                0 <= i < w1.stack.len() && 0 <= k < w1.stack[i].names.len() implies is_candidate(
                #[trigger] w1.stack[i].names[k],
                w1.skip_dirs,
            ) by {
                assert(w1.stack[i] == w.stack[i]);
            }
            lemma_advance(w1);
        } else {
            let name = top.names[top.next];
            assert(is_candidate(w.stack[w.stack.len() - 1].names[top.next], w.skip_dirs));
            let (w2, st) = walk_advance(w);
            assert forall|i: int, k: int|
                0 <= i < w2.stack.len() && 0 <= k < w2.stack[i].names.len() implies is_candidate(
                #[trigger] w2.stack[i].names[k],
                w2.skip_dirs,
            ) by {
                if i < w.stack.len() - 1 {
                    assert(w2.stack[i] == w.stack[i]);
                } else {
                    assert(w2.stack[i].names == w.stack[i].names);
                }
            }
        }
    }
}

/// What holds of every state that a walk reaches from its start.
pub open spec fn walk_inv(w: NestedWalkV) -> bool {
    &&& no_dups(w.visited)
    &&& frames_hold_candidates(w)
    &&& (w.phase is Begin || w.phase is Rooting ==> w.visited.len() == 0)
}

proof fn lemma_walk_step(w: NestedWalkV, r: ReplyV)
    requires
        walk_inv(w),
    ensures
        ({
            let (w2, st) = walk_resume(w, r);
            &&& walk_inv(w2)
            &&& w2.skip_dirs == w.skip_dirs
            &&& w.visited.len() <= w2.visited.len()
            &&& w2.visited.subrange(0, w.visited.len() as int) == w.visited
            &&& (st matches StepV::Do(RequestV::IsDir(p)) ==> exists|dir: Seq<char>, name: Seq<char>|
                is_candidate(name, w.skip_dirs) && p == join_path(dir, name))
        }),
{
    let (w2, st) = walk_resume(w, r);
    match w.phase {
        WalkPhaseV::Begin => {
            assert(w2.stack == w.stack);
            assert(w2.visited.subrange(0, w.visited.len() as int) =~= w.visited);
        },
        WalkPhaseV::Rooting => {
            assert(w2.stack == w.stack);
            assert(w2.visited.subrange(0, w.visited.len() as int) =~= w.visited);
        },
        WalkPhaseV::Listing { dir, rel } => {
            let names = match names_of(r) {
                Some(ns) => candidates(ns, w.skip_dirs),
                None => Seq::empty(),
            };
            if let Some(ns) = names_of(r) {
                lemma_candidates_are_candidates(ns, w.skip_dirs);
            }
            let w1 = NestedWalkV {
                stack: w.stack.push(FrameV { dir, rel, names, next: 0 }),
                ..w
            };
            assert forall|i: int, k: int|
                0 <= i < w1.stack.len() && 0 <= k < w1.stack[i].names.len() implies is_candidate(
                #[trigger] w1.stack[i].names[k],
                w1.skip_dirs,
            ) by {
                if i < w.stack.len() {
                    assert(w1.stack[i] == w.stack[i]);
                }
            }
            lemma_advance(w1);
            assert(w2.visited.subrange(0, w.visited.len() as int) =~= w.visited);
        },
        WalkPhaseV::Probing { .. } => {
            lemma_advance(w);
            assert(w2.visited.subrange(0, w.visited.len() as int) =~= w.visited);
        },
        WalkPhaseV::Resolving { .. } => {
            lemma_advance(w);
            if let Ok(c) = path_of(r) {
                if !w.visited.contains(c) {
                    assert forall|i: int, j: int| 0 <= i < j < w2.visited.len() implies w2.visited[i]
                        != w2.visited[j] by {
                        if j == w.visited.len() {
                            assert(w.visited[i] == w2.visited[i]);
                        }
                    }
                }
            }
            assert(w2.visited.subrange(0, w.visited.len() as int) =~= w.visited);
        },
        WalkPhaseV::Checking { .. } => {
            assert(w2.stack == w.stack);
            assert(w2.visited.subrange(0, w.visited.len() as int) =~= w.visited);
        },
        WalkPhaseV::Done => {
            assert(w2.visited.subrange(0, w.visited.len() as int) =~= w.visited);
        },
    }
}

/// A walk starts in a state where the walk's invariant holds.
pub proof fn lemma_walk_start(root: Seq<char>, skip_dirs: Seq<Seq<char>>)
    ensures
        walk_inv(walk_start(root, skip_dirs)),
{
}

/// The walk never looks at an entry whose name is hidden (starts with `.`)
/// or is in the skip list: every path whose kind it asks for is a directory
/// joined with a name that is neither; and every step keeps the walk's
/// invariant.
pub proof fn lemma_walk_looks_only_at_candidates(w: NestedWalkV, r: ReplyV)
    requires
        walk_inv(w),
    ensures
        ({
            let (w2, st) = walk_resume(w, r);
            &&& walk_inv(w2)
            &&& (st matches StepV::Do(RequestV::IsDir(p)) ==> exists|dir: Seq<char>, name: Seq<char>|
                !is_hidden(name) && !w.skip_dirs.contains(name) && p == join_path(dir, name))
        }),
{
    lemma_walk_step(w, r);
}

/// The walk enters each directory at most once, whatever the symlinks: it
/// keeps the canonical paths of the directories it has entered, never holds
/// one twice, and only adds to them; after resolving a directory it goes on
/// into it (asking whether it holds `.git`, then listing it) exactly when the
/// directory's canonical path is new, and records that path.
pub proof fn lemma_walk_enters_each_directory_once(w: NestedWalkV, r: ReplyV)
    requires
        walk_inv(w),
    ensures
        ({
            let (w2, st) = walk_resume(w, r);
            &&& no_dups(w2.visited)
            &&& w.visited.len() <= w2.visited.len()
            &&& w2.visited.subrange(0, w.visited.len() as int) == w.visited
            &&& (w.phase matches WalkPhaseV::Resolving { path, rel } ==> (path_of(r) matches Ok(c)
                ==> ((w2.phase == WalkPhaseV::Checking { path, rel }) == !w.visited.contains(c)
                && (!w.visited.contains(c) ==> w2.visited == w.visited.push(c)))))
        }),
{
    lemma_walk_step(w, r);
    if let WalkPhaseV::Resolving { path, rel } = w.phase {
        if let Ok(c) = path_of(r) {
            if w.visited.contains(c) {
                lemma_advance(w);
            }
        }
    }
}

} // verus!

verus! {

/// The walk of `root` for nested repositories, passing over the default
/// skip list.
pub fn find_nested_git_repos(root: String) -> (w: NestedWalk)
    ensures
        w@ == walk_start(root@, crate::default_skips()),
{
    NestedWalk::new(root, crate::default_skip_dirs())
}

/// The walk of `root` for nested repositories, passing over `skip_dirs`
/// (and hidden entries, always).
pub fn find_nested_git_repos_with(root: String, skip_dirs: Vec<String>) -> (w: NestedWalk)
    ensures
        w@ == walk_start(root@, views(skip_dirs@)),
{
    NestedWalk::new(root, skip_dirs)
}

enum SearchPhase {
    Walking,
    Checking { i: usize },
    Looking { i: usize },
    Done,
}

pub enum SearchPhaseV {
    /// The walk for nested repositories is under way.
    Walking,
    /// Whether `.git` of the `i`-th repository found is a file.
    Checking { i: int },
    /// The lookup of the `i`-th repository's worktree information is under way.
    Looking { i: int },
    Done,
}

impl View for SearchPhase {
    type V = SearchPhaseV;

    closed spec fn view(&self) -> SearchPhaseV {
        match self {
            SearchPhase::Walking => SearchPhaseV::Walking,
            SearchPhase::Checking { i } => SearchPhaseV::Checking { i: *i as int },
            SearchPhase::Looking { i } => SearchPhaseV::Looking { i: *i as int },
            SearchPhase::Done => SearchPhaseV::Done,
        }
    }
}

/// The search for the worktrees nested inside a worktree: the nested
/// repositories whose `.git` is a file and whose worktree information can
/// be looked up.
pub struct NestedWorktreeSearch {
    walk: NestedWalk,
    lookup: InfoLookup,
    phase: SearchPhase,
    found: Vec<WorktreeInfo>,
}

pub struct NestedWorktreeSearchV {
    pub walk: NestedWalkV,
    pub lookup: InfoLookupV,
    pub phase: SearchPhaseV,
    /// The worktrees found so far, in the order found.
    pub found: Seq<WorktreeInfoV>,
}

pub open spec fn info_views(v: Seq<WorktreeInfo>) -> Seq<WorktreeInfoV> {
    v.map_values(|i: WorktreeInfo| i@)
}

impl View for NestedWorktreeSearch {
    type V = NestedWorktreeSearchV;

    closed spec fn view(&self) -> NestedWorktreeSearchV {
        NestedWorktreeSearchV {
            walk: self.walk@,
            lookup: self.lookup@,
            phase: self.phase@,
            found: info_views(self.found@),
        }
    }
}

/// Go on with the `i`-th repository found by the walk, or finish.
pub open spec fn search_next(m: NestedWorktreeSearchV, i: int) -> (NestedWorktreeSearchV, StepV) {
    if 0 <= i < m.walk.found.len() {
        (
            NestedWorktreeSearchV { phase: SearchPhaseV::Checking { i }, ..m },
            StepV::Do(RequestV::IsFile(dot_git(m.walk.found[i].path))),
        )
    } else {
        (NestedWorktreeSearchV { phase: SearchPhaseV::Done, ..m }, StepV::Finished)
    }
}

/// One step of the search.
pub open spec fn search_resume(m: NestedWorktreeSearchV, r: ReplyV) -> (NestedWorktreeSearchV, StepV) {
    match m.phase {
        SearchPhaseV::Walking => {
            let (w2, st) = walk_resume(m.walk, r);
            match st {
                StepV::Do(q) => (NestedWorktreeSearchV { walk: w2, ..m }, StepV::Do(q)),
                StepV::Finished => search_next(NestedWorktreeSearchV { walk: w2, ..m }, 0),
            }
        },
        SearchPhaseV::Checking { i } => {
            if 0 <= i < m.walk.found.len() && flag_of(r) {
                let (l2, st) = info_resume(info_start(m.walk.found[i].path), ReplyV::Start);
                (NestedWorktreeSearchV { lookup: l2, phase: SearchPhaseV::Looking { i }, ..m }, st)
            } else {
                search_next(m, i + 1)
            }
        },
        SearchPhaseV::Looking { i } => {
            let (l2, st) = info_resume(m.lookup, r);
            match st {
                StepV::Do(q) => (NestedWorktreeSearchV { lookup: l2, ..m }, StepV::Do(q)),
                StepV::Finished => {
                    let found = match l2.outcome {
                        Some(Ok(info)) => m.found.push(info),
                        _ => m.found,
                    };
                    search_next(NestedWorktreeSearchV { lookup: l2, found, ..m }, i + 1)
                },
            }
        },
        SearchPhaseV::Done => (m, StepV::Finished),
    }
}

/// The search inside `worktree_path`, before its first step.
pub open spec fn search_start(worktree_path: Seq<char>) -> NestedWorktreeSearchV {
    NestedWorktreeSearchV {
        walk: walk_start(worktree_path, crate::default_skips()),
        lookup: info_start(worktree_path),
        phase: SearchPhaseV::Walking,
        found: Seq::empty(),
    }
}

/// The search for the worktrees nested inside `worktree_path` (those whose
/// `.git` is a file), passing over the default skip list.
pub fn find_nested_worktrees(worktree_path: String) -> (m: NestedWorktreeSearch)
    ensures
        m@ == search_start(worktree_path@),
{
    let lookup = InfoLookup::new(worktree_path.clone());
    let m = NestedWorktreeSearch {
        walk: NestedWalk::new(worktree_path, crate::default_skip_dirs()),
        lookup,
        phase: SearchPhase::Walking,
        found: Vec::new(),
    };
    assert(m@.found =~= Seq::<WorktreeInfoV>::empty());
    m
}

impl NestedWorktreeSearch {
    /// The worktrees found so far, in the order found.
    pub fn found_list(&self) -> (f: &Vec<WorktreeInfo>)
        ensures
            info_views(f@) == self@.found,
    {
        &self.found
    }

    /// The worktrees found, in the order found.
    pub fn into_found(self) -> (f: Vec<WorktreeInfo>)
        ensures
            info_views(f@) == self@.found,
    {
        self.found
    }

    fn next(&mut self, i: usize) -> (st: Step)
        ensures
            (final(self)@, st@) == search_next(old(self)@, i as int),
    {
        let f = self.walk.found();
        assert(f@.len() == self@.walk.found.len());
        if i < f.len() {
            assert(f@[i as int]@ == self@.walk.found[i as int]);
            let g = join(f[i].path.as_str(), ".git");
            self.phase = SearchPhase::Checking { i };
            Step::Do(Request::IsFile(g))
        } else {
            self.phase = SearchPhase::Done;
            Step::Finished
        }
    }

    /// One step of the search.
    pub fn resume(&mut self, reply: Reply) -> (st: Step)
        ensures
            (final(self)@, st@) == search_resume(old(self)@, reply@),
    {
        match self.phase {
            SearchPhase::Walking => {
                let st = self.walk.resume(reply);
                match st {
                    Step::Do(q) => Step::Do(q),
                    Step::Finished => self.next(0),
                }
            },
            SearchPhase::Checking { i } => {
                let f = self.walk.found();
                assert(f@.len() == self@.walk.found.len());
                if i >= f.len() {
                    self.phase = SearchPhase::Done;
                    return Step::Finished;
                }
                assert(f@[i as int]@ == self@.walk.found[i as int]);
                if take_flag(reply) {
                    let p = f[i].path.clone();
                    self.lookup = InfoLookup::new(p);
                    let st = self.lookup.resume(Reply::Start);
                    self.phase = SearchPhase::Looking { i };
                    st
                } else {
                    self.next(i + 1)
                }
            },
            SearchPhase::Looking { i } => {
                let st = self.lookup.resume(reply);
                match st {
                    Step::Do(q) => Step::Do(q),
                    Step::Finished => {
                        let ghost before = self@.found;
                        match self.lookup.outcome() {
                            Some(Ok(info)) => {
                                let info = info.clone();
                                self.found.push(info);
                                assert(self@.found =~= before.push(info@));
                            },
                            _ => {},
                        }
                        let f = self.walk.found();
                        assert(f@.len() == self@.walk.found.len());
                        if i >= f.len() {
                            self.phase = SearchPhase::Done;
                            return Step::Finished;
                        }
                        self.next(i + 1)
                    },
                }
            },
            SearchPhase::Done => Step::Finished,
        }
    }
}

} // verus!

verus! {

/// The walk goes on inside every directory it enters, nested repositories
/// included, and records a directory as a nested repository exactly when it
/// holds a `.git` entry (a directory or a file).
pub proof fn lemma_walk_recurses_into_repositories(w: NestedWalkV, r: ReplyV)
    requires
        w.phase is Checking,
    ensures
        ({
            let (w2, st) = walk_resume(w, r);
            let path = w.phase->Checking_path;
            let rel = w.phase->Checking_rel;
            &&& st == StepV::Do(RequestV::ListDir(path))
            &&& w2.found == if flag_of(r) {
                w.found.push(NestedGitRepoV { path, relative_path: rel })
            } else {
                w.found
            }
        }),
{
}

} // verus!

verus! {

/// The walk from `m`, given `r`, asking `env` for every later answer, for
/// at most `n` steps: its last state if it finished within them.
pub open spec fn walk_drive(m: NestedWalkV, r: ReplyV, env: spec_fn(RequestV) -> ReplyV, n: nat) -> Option<
    NestedWalkV,
>
    decreases n,
{
    if n == 0 {
        None
    } else {
        let (m2, st) = walk_resume(m, r);
        match st {
            StepV::Finished => Some(m2),
            StepV::Do(q) => walk_drive(m2, env(q), env, (n - 1) as nat),
        }
    }
}

/// The lookup from `m`, given `r`, asking `env` for every later answer,
/// for at most `n` steps: its last state if it finished within them.
pub open spec fn info_drive(m: InfoLookupV, r: ReplyV, env: spec_fn(RequestV) -> ReplyV, n: nat) -> Option<
    InfoLookupV,
>
    decreases n,
{
    if n == 0 {
        None
    } else {
        let (m2, st) = info_resume(m, r);
        match st {
            StepV::Finished => Some(m2),
            StepV::Do(q) => info_drive(m2, env(q), env, (n - 1) as nat),
        }
    }
}

/// The search from `m`, given `r`, asking `env` for every later answer,
/// for at most `n` steps: its last state if it finished within them.
pub open spec fn search_drive(
    m: NestedWorktreeSearchV,
    r: ReplyV,
    env: spec_fn(RequestV) -> ReplyV,
    n: nat,
) -> Option<NestedWorktreeSearchV>
    decreases n, 0nat,
{
    if n == 0 {
        None
    } else {
        search_after(search_resume(m, r), env, (n - 1) as nat)
    }
}

/// The search after a step `p`, driven on by `env` for at most `n` steps.
pub open spec fn search_after(
    p: (NestedWorktreeSearchV, StepV),
    env: spec_fn(RequestV) -> ReplyV,
    n: nat,
) -> Option<NestedWorktreeSearchV>
    decreases n, 1nat,
{
    match p.1 {
        StepV::Finished => Some(p.0),
        StepV::Do(q) => search_drive(p.0, env(q), env, n),
    }
}

/// What `WorktreeInfo::from_path(path)` gives when every request is
/// answered by `env`, if the lookup finishes.
pub open spec fn lookup_result(path: Seq<char>, env: spec_fn(RequestV) -> ReplyV) -> Option<
    Result<WorktreeInfoV, ErrorV>,
> {
    if exists|n: nat| #[trigger] info_drive(info_start(path), ReplyV::Start, env, n) is Some {
        let n = choose|n: nat| #[trigger] info_drive(info_start(path), ReplyV::Start, env, n) is Some;
        info_drive(info_start(path), ReplyV::Start, env, n).unwrap().outcome
    } else {
        None
    }
}

/// The worktrees among the repositories `repos` when every request is
/// answered by `env`: in their order, those whose `.git` is a file and
/// whose lookup succeeds, as looked up.
pub open spec fn nested_worktrees_of(repos: Seq<NestedGitRepoV>, env: spec_fn(RequestV) -> ReplyV) -> Seq<
    WorktreeInfoV,
>
    decreases repos.len(),
{
    if repos.len() == 0 {
        Seq::empty()
    } else {
        let prev = nested_worktrees_of(repos.drop_last(), env);
        let path = repos.last().path;
        if flag_of(env(RequestV::IsFile(dot_git(path)))) {
            match lookup_result(path, env) {
                Some(Ok(info)) => prev.push(info),
                _ => prev,
            }
        } else {
            prev
        }
    }
}

/// A lookup that has finished stays finished, with the same state, given
/// more steps.
proof fn lemma_info_drive_more(m: InfoLookupV, r: ReplyV, env: spec_fn(RequestV) -> ReplyV, n: nat, k: nat)
    requires
        info_drive(m, r, env, n) is Some,
    ensures
        info_drive(m, r, env, n + k) == info_drive(m, r, env, n),
    decreases n,
{
    let (m2, st) = info_resume(m, r);
    match st {
        StepV::Finished => {},
        StepV::Do(q) => {
            lemma_info_drive_more(m2, env(q), env, (n - 1) as nat, k);
            assert((n + k - 1) as nat == ((n - 1) as nat + k) as nat);
        },
    }
}

/// A lookup that finishes gives the lookup result of its path.
proof fn lemma_lookup_result(path: Seq<char>, env: spec_fn(RequestV) -> ReplyV, n: nat)
    requires
        info_drive(info_start(path), ReplyV::Start, env, n) is Some,
    ensures
        lookup_result(path, env) == info_drive(info_start(path), ReplyV::Start, env, n).unwrap().outcome,
{
    let c = choose|c: nat| #[trigger] info_drive(info_start(path), ReplyV::Start, env, c) is Some;
    if c <= n {
        lemma_info_drive_more(info_start(path), ReplyV::Start, env, c, (n - c) as nat);
        assert((c + (n - c) as nat) as nat == n);
    } else {
        lemma_info_drive_more(info_start(path), ReplyV::Start, env, n, (c - n) as nat);
        assert((n + (c - n) as nat) as nat == c);
    }
}

/// A search that finishes while walking finishes its walk first, and goes
/// on from the first repository the walk found.
proof fn lemma_search_walking(m: NestedWorktreeSearchV, r: ReplyV, env: spec_fn(RequestV) -> ReplyV, k: nat)
    requires
        m.phase is Walking,
        search_drive(m, r, env, k) is Some,
    ensures
        exists|n: nat|
            n <= k && #[trigger] walk_drive(m.walk, r, env, n) is Some && search_drive(m, r, env, k)
                == search_after(
                search_next(NestedWorktreeSearchV { walk: walk_drive(m.walk, r, env, n).unwrap(), ..m }, 0),
                env,
                (k - n) as nat,
            ),
    decreases k,
{
    let (w2, st) = walk_resume(m.walk, r);
    match st {
        StepV::Finished => {
            assert(walk_drive(m.walk, r, env, 1) == Some(w2));
        },
        StepV::Do(q) => {
            let m2 = NestedWorktreeSearchV { walk: w2, ..m };
            lemma_search_walking(m2, env(q), env, (k - 1) as nat);
            let n = choose|n: nat|
                n <= (k - 1) as nat && #[trigger] walk_drive(m2.walk, env(q), env, n) is Some && search_drive(
                    m2,
                    env(q),
                    env,
                    (k - 1) as nat,
                ) == search_after(
                    search_next(NestedWorktreeSearchV { walk: walk_drive(m2.walk, env(q), env, n).unwrap(), ..m2 }, 0),
                    env,
                    ((k - 1) as nat - n) as nat,
                );
            assert(walk_drive(m.walk, r, env, n + 1) == walk_drive(w2, env(q), env, n));
            assert(((k - 1) as nat - n) as nat == (k - (n + 1) as nat) as nat);
            assert(NestedWorktreeSearchV { walk: walk_drive(m2.walk, env(q), env, n).unwrap(), ..m2 }
                == NestedWorktreeSearchV { walk: walk_drive(m.walk, r, env, (n + 1) as nat).unwrap(), ..m });
        },
    }
}


/// The search after a finished lookup of the `i`-th repository: its result
/// kept if it is a worktree, then on with the next repository.
pub open spec fn search_looked(m: NestedWorktreeSearchV, lf: InfoLookupV, i: int) -> NestedWorktreeSearchV {
    NestedWorktreeSearchV {
        lookup: lf,
        found: match lf.outcome {
            Some(Ok(info)) => m.found.push(info),
            _ => m.found,
        },
        ..m
    }
}

/// A search that finishes while looking up a repository finishes that
/// lookup first, and goes on with the next repository.
proof fn lemma_search_looking(
    m: NestedWorktreeSearchV,
    i: int,
    r: ReplyV,
    env: spec_fn(RequestV) -> ReplyV,
    k: nat,
)
    requires
        m.phase == (SearchPhaseV::Looking { i }),
        search_drive(m, r, env, k) is Some,
    ensures
        exists|n: nat|
            n <= k && #[trigger] info_drive(m.lookup, r, env, n) is Some && search_drive(m, r, env, k)
                == search_after(
                search_next(search_looked(m, info_drive(m.lookup, r, env, n).unwrap(), i), i + 1),
                env,
                (k - n) as nat,
            ),
    decreases k,
{
    let (l2, st) = info_resume(m.lookup, r);
    match st {
        StepV::Finished => {
            assert(info_drive(m.lookup, r, env, 1) == Some(l2));
        },
        StepV::Do(q) => {
            let m2 = NestedWorktreeSearchV { lookup: l2, ..m };
            lemma_search_looking(m2, i, env(q), env, (k - 1) as nat);
            let n = choose|n: nat|
                n <= (k - 1) as nat && #[trigger] info_drive(m2.lookup, env(q), env, n) is Some
                    && search_drive(m2, env(q), env, (k - 1) as nat) == search_after(
                    search_next(search_looked(m2, info_drive(m2.lookup, env(q), env, n).unwrap(), i), i + 1),
                    env,
                    ((k - 1) as nat - n) as nat,
                );
            assert(info_drive(m.lookup, r, env, n + 1) == info_drive(l2, env(q), env, n));
            assert(((k - 1) as nat - n) as nat == (k - (n + 1) as nat) as nat);
            assert(search_looked(m2, info_drive(m2.lookup, env(q), env, n).unwrap(), i) == search_looked(
                m,
                info_drive(m.lookup, r, env, (n + 1) as nat).unwrap(),
                i,
            ));
        },
    }
}

/// From the `i`-th repository on, a search that finishes adds the
/// worktrees among the remaining repositories.
proof fn lemma_search_from(m: NestedWorktreeSearchV, i: int, env: spec_fn(RequestV) -> ReplyV, k: nat)
    requires
        0 <= i <= m.walk.found.len(),
        m.found == nested_worktrees_of(m.walk.found.take(i), env),
        search_after(search_next(m, i), env, k) is Some,
    ensures
        search_after(search_next(m, i), env, k).unwrap().found == nested_worktrees_of(m.walk.found, env),
    decreases m.walk.found.len() - i,
{
    let f = m.walk.found;
    if i == f.len() {
        assert(f.take(i) =~= f);
    } else {
        let path = f[i].path;
        let m1 = NestedWorktreeSearchV { phase: SearchPhaseV::Checking { i }, ..m };
        let r1 = env(RequestV::IsFile(dot_git(path)));
        assert(search_after(search_next(m, i), env, k) == search_drive(m1, r1, env, k));
        assert(f.take(i + 1).drop_last() =~= f.take(i));
        assert(f.take(i + 1).last() == f[i]);
        if flag_of(r1) {
            let (l2, st) = info_resume(info_start(path), ReplyV::Start);
            let q = RequestV::Canonicalize(path);
            assert(st == StepV::Do(q));
            let m2 = NestedWorktreeSearchV { lookup: l2, phase: SearchPhaseV::Looking { i }, ..m1 };
            assert(search_drive(m1, r1, env, k) == search_drive(m2, env(q), env, (k - 1) as nat));
            lemma_search_looking(m2, i, env(q), env, (k - 1) as nat);
            let n = choose|n: nat|
                n <= (k - 1) as nat && #[trigger] info_drive(m2.lookup, env(q), env, n) is Some
                    && search_drive(m2, env(q), env, (k - 1) as nat) == search_after(
                    search_next(search_looked(m2, info_drive(m2.lookup, env(q), env, n).unwrap(), i), i + 1),
                    env,
                    ((k - 1) as nat - n) as nat,
                );
            let lf = info_drive(m2.lookup, env(q), env, n).unwrap();
            assert(info_drive(info_start(path), ReplyV::Start, env, n + 1) == Some(lf));
            lemma_lookup_result(path, env, (n + 1) as nat);
            let m3 = search_looked(m2, lf, i);
            assert(m3.walk == m.walk);
            lemma_search_from(m3, i + 1, env, ((k - 1) as nat - n) as nat);
        } else {
            assert(search_drive(m1, r1, env, k) == search_after(search_next(m1, i + 1), env, (k - 1) as nat));
            lemma_search_from(m1, i + 1, env, (k - 1) as nat);
        }
    }
}

/// A search of `root` that finishes under the answers of `env` goes with a
/// walk of `find_nested_git_repos(root)` that finishes under the same
/// answers, and its worktrees are those of [`nested_worktrees_of`] the
/// walk's repositories.
proof fn lemma_finished_search_is_filtered_walk(root: Seq<char>, env: spec_fn(RequestV) -> ReplyV, k: nat)
    requires
        search_drive(search_start(root), ReplyV::Start, env, k) is Some,
    ensures
        exists|n: nat|
            #[trigger] walk_drive(walk_start(root, crate::default_skips()), ReplyV::Start, env, n) is Some
                && search_drive(search_start(root), ReplyV::Start, env, k).unwrap().found
                == nested_worktrees_of(
                walk_drive(walk_start(root, crate::default_skips()), ReplyV::Start, env, n).unwrap().found,
                env,
            ),
{
    let m = search_start(root);
    lemma_search_walking(m, ReplyV::Start, env, k);
    let n = choose|n: nat|
        n <= k && #[trigger] walk_drive(m.walk, ReplyV::Start, env, n) is Some && search_drive(
            m,
            ReplyV::Start,
            env,
            k,
        ) == search_after(
            search_next(NestedWorktreeSearchV { walk: walk_drive(m.walk, ReplyV::Start, env, n).unwrap(), ..m }, 0),
            env,
            (k - n) as nat,
        );
    let m1 = NestedWorktreeSearchV { walk: walk_drive(m.walk, ReplyV::Start, env, n).unwrap(), ..m };
    assert(m1.walk.found.take(0) =~= Seq::<NestedGitRepoV>::empty());
    lemma_search_from(m1, 0, env, (k - n) as nat);
}

} // verus!

verus! {

/// Whether the reply `r` gives a canonical path, if any, out of `dirs`.
pub open spec fn reply_in(r: ReplyV, dirs: Set<Seq<char>>) -> bool {
    match path_of(r) {
        Ok(c) => dirs.contains(c),
        Err(_) => true,
    }
}

/// Whether `env` gives every canonical path out of `dirs`.
pub open spec fn canonical_paths_in(env: spec_fn(RequestV) -> ReplyV, dirs: Set<Seq<char>>) -> bool {
    forall|p: Seq<char>| #[trigger] reply_in(env(RequestV::Canonicalize(p)), dirs)
}

/// How many entries the frames of `s` still have to look at.
spec fn stack_work(s: Seq<FrameV>) -> int
    decreases s.len(),
{
    if s.len() == 0 {
        0
    } else {
        stack_work(s.drop_last()) + (s.last().names.len() - s.last().next)
    }
}

spec fn frames_in_range(s: Seq<FrameV>) -> bool {
    forall|k: int| 0 <= k < s.len() ==> 0 <= #[trigger] s[k].next <= s[k].names.len()
}

/// What a walk keeps while it runs, toward its end.
spec fn walk_bounded(w: NestedWalkV, dirs: Set<Seq<char>>) -> bool {
    &&& no_dups(w.visited)
    &&& forall|i: int| 0 <= i < w.visited.len() ==> dirs.contains(#[trigger] w.visited[i])
    &&& frames_in_range(w.stack)
    &&& (w.phase is Probing || w.phase is Resolving || w.phase is Checking ==> w.stack.len() > 0)
    &&& (w.phase is Begin || w.phase is Rooting ==> w.visited.len() == 0)
}

/// 1 before the root is listed, then 0.
spec fn walk_stage(w: NestedWalkV) -> int {
    if w.phase is Begin || w.phase is Rooting || (w.phase is Listing && w.stack.len() == 0) {
        1
    } else {
        0
    }
}

/// 1 while an entered directory waits to be listed.
spec fn walk_pending(w: NestedWalkV) -> int {
    if w.phase is Checking || (w.phase is Listing && w.stack.len() > 0) {
        1
    } else {
        0
    }
}

spec fn walk_rank(w: NestedWalkV) -> int {
    match w.phase {
        WalkPhaseV::Begin => 2,
        WalkPhaseV::Rooting => 1,
        WalkPhaseV::Probing { .. } => 3,
        WalkPhaseV::Resolving { .. } => 2,
        WalkPhaseV::Checking { .. } => 1,
        _ => 0,
    }
}

proof fn lemma_stack_work_nonneg(s: Seq<FrameV>)
    requires
        frames_in_range(s),
    ensures
        stack_work(s) >= 0,
    decreases s.len(),
{
    if s.len() > 0 {
        assert(frames_in_range(s.drop_last())) by {
            assert forall|k: int| 0 <= k < s.drop_last().len() implies 0 <= #[trigger] s.drop_last()[k].next
                <= s.drop_last()[k].names.len() by {
                assert(s.drop_last()[k] == s[k]);
            }
        }
        lemma_stack_work_nonneg(s.drop_last());
        assert(s[s.len() - 1] == s.last());
    }
}

proof fn lemma_visited_bound(w: NestedWalkV, dirs: Set<Seq<char>>)
    requires
        dirs.finite(),
        walk_bounded(w, dirs),
    ensures
        w.visited.len() <= dirs.len(),
{
    assert(w.visited.no_duplicates());
    w.visited.unique_seq_to_set();
    assert(w.visited.to_set().subset_of(dirs));
    vstd::set_lib::lemma_len_subset(w.visited.to_set(), dirs);
}

/// Taking the next entry either ends the walk or looks at one entry fewer.
proof fn lemma_advance_work(w: NestedWalkV)
    requires
        frames_in_range(w.stack),
    ensures
        ({
            let (w2, st) = walk_advance(w);
            &&& w2.visited == w.visited
            &&& w2.found == w.found
            &&& frames_in_range(w2.stack)
            &&& (st is Finished ==> w2.phase is Done)
            &&& (st is Do ==> w2.phase is Probing && w2.stack.len() > 0 && stack_work(w2.stack) < stack_work(
                w.stack,
            ))
        }),
    decreases w.stack.len(),
{
    if w.stack.len() > 0 {
        let top = w.stack.last();
        assert(w.stack[w.stack.len() - 1] == top);
        let popped = NestedWalkV { stack: w.stack.drop_last(), ..w };
        assert(frames_in_range(popped.stack)) by {
            assert forall|k: int| 0 <= k < popped.stack.len() implies 0 <= #[trigger] popped.stack[k].next
                <= popped.stack[k].names.len() by {
                assert(popped.stack[k] == w.stack[k]);
            }
        }
        if top.next < 0 || top.next >= top.names.len() {
            lemma_advance_work(popped);
        } else {
            let s2 = w.stack.update(w.stack.len() - 1, FrameV { next: top.next + 1, ..top });
            assert(s2.drop_last() =~= w.stack.drop_last());
            assert(s2.last() == FrameV { next: top.next + 1, ..top });
            assert(frames_in_range(s2)) by {
                assert forall|k: int| 0 <= k < s2.len() implies 0 <= #[trigger] s2[k].next <= s2[k].names.len() by {
                    if k < s2.len() - 1 {
                        assert(s2[k] == w.stack[k]);
                    }
                }
            }
        }
    }
}

/// A walk from a state that keeps [`walk_bounded`], with a reply whose
/// canonical path (while the walk waits for one) is out of `dirs`, finishes
/// when every later answer comes from `env` and `env` gives every canonical
/// path out of the finite set `dirs`.
proof fn lemma_walk_drive_finishes(
    w: NestedWalkV,
    r: ReplyV,
    env: spec_fn(RequestV) -> ReplyV,
    dirs: Set<Seq<char>>,
)
    requires
        dirs.finite(),
        canonical_paths_in(env, dirs),
        walk_bounded(w, dirs),
        w.phase is Rooting || w.phase is Resolving ==> reply_in(r, dirs),
    ensures
        exists|n: nat| #[trigger] walk_drive(w, r, env, n) is Some,
    decreases walk_stage(w), dirs.len() - w.visited.len() + walk_pending(w), stack_work(w.stack), walk_rank(w),
{
    lemma_visited_bound(w, dirs);
    lemma_stack_work_nonneg(w.stack);
    let (w2, st) = walk_resume(w, r);
    match st {
        StepV::Finished => {
            assert(walk_drive(w, r, env, 1) == Some(w2));
        },
        StepV::Do(q) => {
            match w.phase {
                WalkPhaseV::Listing { dir, rel } => {
                    let names = match names_of(r) {
                        Some(ns) => candidates(ns, w.skip_dirs),
                        None => Seq::empty(),
                    };
                    let pushed = NestedWalkV { stack: w.stack.push(FrameV { dir, rel, names, next: 0 }), ..w };
                    assert(frames_in_range(pushed.stack)) by {
                        assert forall|k: int| 0 <= k < pushed.stack.len() implies 0 <= #[trigger] pushed.stack[k].next
                            <= pushed.stack[k].names.len() by {
                            if k < w.stack.len() {
                                assert(pushed.stack[k] == w.stack[k]);
                            }
                        }
                    }
                    lemma_advance_work(pushed);
                },
                WalkPhaseV::Probing { path, rel } => {
                    lemma_advance_work(w);
                    assert(reply_in(env(RequestV::Canonicalize(path)), dirs));
                },
                WalkPhaseV::Resolving { path, rel } => {
                    lemma_advance_work(w);
                    if let Ok(c) = path_of(r) {
                        if !w.visited.contains(c) {
                            assert forall|i: int, j: int| 0 <= i < j < w2.visited.len() implies w2.visited[i]
                                != w2.visited[j] by {
                                if j == w.visited.len() {
                                    assert(w.visited[i] == w2.visited[i]);
                                }
                            }
                        }
                    }
                },
                WalkPhaseV::Begin => {
                    assert(reply_in(env(RequestV::Canonicalize(w.root)), dirs));
                },
                WalkPhaseV::Rooting => {
                    if let Ok(c) = path_of(r) {
                        assert(w2.visited =~= seq![c]);
                    }
                },
                _ => {},
            }
            lemma_visited_bound(w2, dirs);
            lemma_stack_work_nonneg(w2.stack);
            lemma_walk_drive_finishes(w2, env(q), env, dirs);
            let n = choose|n: nat| #[trigger] walk_drive(w2, env(q), env, n) is Some;
            assert(walk_drive(w, r, env, n + 1) == walk_drive(w2, env(q), env, n));
        },
    }
}

/// The walk for nested repositories ends: when every request gets the
/// answer `env` gives it (the filesystem does not change), and the
/// canonical paths it gives lie in a finite set (there are finitely many
/// directories), the walk of `root` finishes, whatever its skip names.
pub proof fn lemma_walk_finishes(
    root: Seq<char>,
    skip_dirs: Seq<Seq<char>>,
    env: spec_fn(RequestV) -> ReplyV,
    dirs: Set<Seq<char>>,
)
    requires
        dirs.finite(),
        canonical_paths_in(env, dirs),
    ensures
        exists|n: nat| #[trigger] walk_drive(walk_start(root, skip_dirs), ReplyV::Start, env, n) is Some,
{
    let w = walk_start(root, skip_dirs);
    assert(frames_in_range(w.stack));
    lemma_walk_drive_finishes(w, ReplyV::Start, env, dirs);
}


spec fn info_rank(p: InfoPhaseV) -> int {
    match p {
        InfoPhaseV::Begin => 9,
        InfoPhaseV::Canon => 8,
        InfoPhaseV::GitExists { .. } => 7,
        InfoPhaseV::GitIsDir { .. } => 6,
        InfoPhaseV::ReadGit { .. } => 5,
        InfoPhaseV::CanonGitDir { .. } => 4,
        InfoPhaseV::CommonExists { .. } => 3,
        InfoPhaseV::ReadCommon { .. } => 2,
        InfoPhaseV::CanonCommon { .. } => 1,
        InfoPhaseV::Done => 0,
    }
}

/// A lookup always finishes: each step goes on to a later phase.
proof fn lemma_info_finishes(m: InfoLookupV, r: ReplyV, env: spec_fn(RequestV) -> ReplyV)
    ensures
        exists|n: nat| #[trigger] info_drive(m, r, env, n) is Some,
    decreases info_rank(m.phase),
{
    let (m2, st) = info_resume(m, r);
    match st {
        StepV::Finished => {
            assert(info_drive(m, r, env, 1) == Some(m2));
        },
        StepV::Do(q) => {
            assert(info_rank(m2.phase) < info_rank(m.phase));
            lemma_info_finishes(m2, env(q), env);
            let n = choose|n: nat| #[trigger] info_drive(m2, env(q), env, n) is Some;
            assert(info_drive(m, r, env, n + 1) == info_drive(m2, env(q), env, n));
        },
    }
}

/// A search that has finished stays finished, with the same state, given
/// more steps.
proof fn lemma_search_after_more(p: (NestedWorktreeSearchV, StepV), env: spec_fn(RequestV) -> ReplyV, k: nat, j: nat)
    requires
        search_after(p, env, k) is Some,
    ensures
        search_after(p, env, k + j) == search_after(p, env, k),
    decreases k,
{
    match p.1 {
        StepV::Finished => {},
        StepV::Do(q) => {
            lemma_search_after_more(search_resume(p.0, env(q)), env, (k - 1) as nat, j);
            assert((k + j - 1) as nat == ((k - 1) as nat + j) as nat);
        },
    }
}

/// Once the walk of a walking search finishes, the search goes on from the
/// first repository found.
proof fn lemma_search_walks_on(
    m: NestedWorktreeSearchV,
    r: ReplyV,
    env: spec_fn(RequestV) -> ReplyV,
    n: nat,
    k: nat,
)
    requires
        m.phase is Walking,
        walk_drive(m.walk, r, env, n) is Some,
        search_after(
            search_next(NestedWorktreeSearchV { walk: walk_drive(m.walk, r, env, n).unwrap(), ..m }, 0),
            env,
            k,
        ) is Some,
    ensures
        search_drive(m, r, env, n + k) == search_after(
            search_next(NestedWorktreeSearchV { walk: walk_drive(m.walk, r, env, n).unwrap(), ..m }, 0),
            env,
            k,
        ),
    decreases n,
{
    let (w2, st) = walk_resume(m.walk, r);
    match st {
        StepV::Finished => {
            let x = search_next(NestedWorktreeSearchV { walk: w2, ..m }, 0);
            lemma_search_after_more(x, env, k, (n - 1) as nat);
            assert((k + (n - 1) as nat) as nat == (n + k - 1) as nat);
        },
        StepV::Do(q) => {
            let m2 = NestedWorktreeSearchV { walk: w2, ..m };
            lemma_search_walks_on(m2, env(q), env, (n - 1) as nat, k);
            assert((n + k - 1) as nat == ((n - 1) as nat + k) as nat);
        },
    }
}

/// Once the lookup of a looking search finishes, the search goes on with
/// the next repository.
proof fn lemma_search_looks_on(
    m: NestedWorktreeSearchV,
    i: int,
    r: ReplyV,
    env: spec_fn(RequestV) -> ReplyV,
    n: nat,
    k: nat,
)
    requires
        m.phase == (SearchPhaseV::Looking { i }),
        info_drive(m.lookup, r, env, n) is Some,
        search_after(
            search_next(search_looked(m, info_drive(m.lookup, r, env, n).unwrap(), i), i + 1),
            env,
            k,
        ) is Some,
    ensures
        search_drive(m, r, env, n + k) == search_after(
            search_next(search_looked(m, info_drive(m.lookup, r, env, n).unwrap(), i), i + 1),
            env,
            k,
        ),
    decreases n,
{
    let (l2, st) = info_resume(m.lookup, r);
    match st {
        StepV::Finished => {
            let x = search_next(search_looked(m, l2, i), i + 1);
            lemma_search_after_more(x, env, k, (n - 1) as nat);
            assert((k + (n - 1) as nat) as nat == (n + k - 1) as nat);
        },
        StepV::Do(q) => {
            let m2 = NestedWorktreeSearchV { lookup: l2, ..m };
            assert(search_looked(m2, info_drive(m2.lookup, env(q), env, (n - 1) as nat).unwrap(), i)
                == search_looked(m, info_drive(m.lookup, r, env, n).unwrap(), i));
            lemma_search_looks_on(m2, i, env(q), env, (n - 1) as nat, k);
            assert((n + k - 1) as nat == ((n - 1) as nat + k) as nat);
            assert(search_looked(m2, info_drive(m2.lookup, env(q), env, (n - 1) as nat).unwrap(), i)
                == search_looked(m, info_drive(m.lookup, r, env, n).unwrap(), i));
        },
    }
}

/// From the `i`-th repository on, the search finishes.
proof fn lemma_search_from_finishes(m: NestedWorktreeSearchV, i: int, env: spec_fn(RequestV) -> ReplyV)
    requires
        0 <= i,
    ensures
        exists|k: nat| #[trigger] search_after(search_next(m, i), env, k) is Some,
    decreases m.walk.found.len() - i,
{
    if i >= m.walk.found.len() {
        assert(search_after(search_next(m, i), env, 0) is Some);
    } else {
        let path = m.walk.found[i].path;
        let m1 = NestedWorktreeSearchV { phase: SearchPhaseV::Checking { i }, ..m };
        let r1 = env(RequestV::IsFile(dot_git(path)));
        if flag_of(r1) {
            let (l2, st) = info_resume(info_start(path), ReplyV::Start);
            let q = RequestV::Canonicalize(path);
            let m2 = NestedWorktreeSearchV { lookup: l2, phase: SearchPhaseV::Looking { i }, ..m1 };
            lemma_info_finishes(l2, env(q), env);
            let n = choose|n: nat| #[trigger] info_drive(l2, env(q), env, n) is Some;
            let m3 = search_looked(m2, info_drive(l2, env(q), env, n).unwrap(), i);
            lemma_search_from_finishes(m3, i + 1, env);
            let k3 = choose|k: nat| #[trigger] search_after(search_next(m3, i + 1), env, k) is Some;
            lemma_search_looks_on(m2, i, env(q), env, n, k3);
            assert(search_next(m, i) == (m1, StepV::Do(RequestV::IsFile(dot_git(path)))));
            assert(info_resume(info_start(path), ReplyV::Start) == (l2, StepV::Do(q)));
            assert(search_resume(m1, r1) == (m2, StepV::Do(q)));
            assert(search_drive(m1, r1, env, 1 + n + k3) == search_after((m2, StepV::Do(q)), env, n + k3));
            assert(search_after(search_next(m, i), env, 1 + n + k3) == search_drive(m2, env(q), env, n + k3));
        } else {
            lemma_search_from_finishes(m1, i + 1, env);
            let k1 = choose|k: nat| #[trigger] search_after(search_next(m1, i + 1), env, k) is Some;
            assert(search_next(m, i) == (m1, StepV::Do(RequestV::IsFile(dot_git(path)))));
            assert(search_resume(m1, r1) == search_next(m1, i + 1));
            assert(search_after(search_next(m, i), env, 1 + k1) == search_after(search_next(m1, i + 1), env, k1));
        }
    }
}

/// The search for nested worktrees gives what the default walk gives,
/// filtered: when the filesystem and git do not change (every request gets
/// the answer `env` gives it) and there are finitely many directories (the
/// canonical paths that `env` gives lie in a finite set), the search of
/// `root` finishes, the walk of `find_nested_git_repos(root)` finishes
/// under the same answers, and the search's worktrees are, in the walk's
/// order, those of its repositories whose `.git` is a file and whose lookup
/// (`WorktreeInfo::from_path`) succeeds, as looked up.
pub proof fn lemma_search_is_filtered_walk(
    root: Seq<char>,
    env: spec_fn(RequestV) -> ReplyV,
    dirs: Set<Seq<char>>,
)
    requires
        dirs.finite(),
        canonical_paths_in(env, dirs),
    ensures
        exists|k: nat, n: nat|
            #[trigger] search_drive(search_start(root), ReplyV::Start, env, k) is Some
                && #[trigger] walk_drive(walk_start(root, crate::default_skips()), ReplyV::Start, env, n) is Some
                && search_drive(search_start(root), ReplyV::Start, env, k).unwrap().found == nested_worktrees_of(
                walk_drive(walk_start(root, crate::default_skips()), ReplyV::Start, env, n).unwrap().found,
                env,
            ),
{
    let m = search_start(root);
    lemma_walk_finishes(root, crate::default_skips(), env, dirs);
    let n = choose|n: nat| #[trigger] walk_drive(walk_start(root, crate::default_skips()), ReplyV::Start, env, n) is Some;
    let m1 = NestedWorktreeSearchV { walk: walk_drive(m.walk, ReplyV::Start, env, n).unwrap(), ..m };
    lemma_search_from_finishes(m1, 0, env);
    let k1 = choose|k: nat| #[trigger] search_after(search_next(m1, 0), env, k) is Some;
    lemma_search_walks_on(m, ReplyV::Start, env, n, k1);
    let k = n + k1;
    assert(search_drive(m, ReplyV::Start, env, k) is Some);
    lemma_finished_search_is_filtered_walk(root, env, k);
    let n2 = choose|n2: nat|
        #[trigger] walk_drive(walk_start(root, crate::default_skips()), ReplyV::Start, env, n2) is Some
            && search_drive(search_start(root), ReplyV::Start, env, k).unwrap().found == nested_worktrees_of(
            walk_drive(walk_start(root, crate::default_skips()), ReplyV::Start, env, n2).unwrap().found,
            env,
        );
    assert(search_drive(search_start(root), ReplyV::Start, env, k) is Some && walk_drive(
        walk_start(root, crate::default_skips()),
        ReplyV::Start,
        env,
        n2,
    ) is Some);
}

} // verus!
