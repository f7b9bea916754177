//! Recursive removal of a worktree: its nested worktrees first, deepest
//! first, then the worktree itself, then pruning of every git directory
//! involved.

use vstd::prelude::*;
use crate::effect::{
    args2, done_of, flag_of, git, path_of, ran_of, s, take_done, take_flag, take_path, take_ran,
    GitCommand,
    GitCommandV, Output, Place, PlaceV, Reply, ReplyV, Request, RequestV, Step, StepV,
};
use crate::error::{Error, ErrorV};
use crate::info::{
    info_outcome_view, info_resume, info_start, InfoLookup, InfoLookupV, WorktreeInfo,
    WorktreeInfoV,
};
use crate::nested::{
    find_nested_worktrees, info_views, search_resume, search_start, NestedWorktreeSearch,
    NestedWorktreeSearchV,
};
use crate::ops::cmd;
use crate::path::{depth, depth_of, join, join_path, sorted_unique, sorted_unique_paths};
use crate::text::{cat, trim, trim_str, views};

verus! {

/// The worktrees of `s` whose path has `k` components, in their order.
pub open spec fn at_depth(s: Seq<WorktreeInfoV>, k: int) -> Seq<WorktreeInfoV>
    decreases s.len(),
{
    if s.len() == 0 {
        Seq::empty()
    } else {
        let r = at_depth(s.drop_last(), k);
        if depth(s.last().worktree_path) == k {
            r.push(s.last())
        } else {
            r
        }
    }
}

/// The greatest number of components of a path in `s` (0 for none).
pub open spec fn max_depth(s: Seq<WorktreeInfoV>) -> int
    decreases s.len(),
{
    if s.len() == 0 {
        0
    } else {
        let m = max_depth(s.drop_last());
        let d = depth(s.last().worktree_path);
        if d > m {
            d
        } else {
            m
        }
    }
}

/// The worktrees of `s` with `hi` down to `k` components: the deepest
/// first, and those of one depth in their order in `s`.
pub open spec fn levels_down(s: Seq<WorktreeInfoV>, hi: int, k: int) -> Seq<WorktreeInfoV>
    decreases hi + 1 - k,
{
    if k > hi {
        Seq::empty()
    } else {
        levels_down(s, hi, k + 1) + at_depth(s, k)
    }
}

/// `s` sorted by the number of components of the worktree path, most first,
/// keeping the order of worktrees of equal depth (a stable sort).
pub open spec fn deepest_first(s: Seq<WorktreeInfoV>) -> Seq<WorktreeInfoV> {
    levels_down(s, max_depth(s), 0)
}

/// `v` sorted deepest first (see [`deepest_first`]).
pub fn deepest_first_of(v: &Vec<WorktreeInfo>) -> (r: Vec<WorktreeInfo>)
    ensures
        info_views(r@) == deepest_first(info_views(v@)),
{
    let ghost sv = info_views(v@);
    let mut depths: Vec<usize> = Vec::new();
    let mut hi: usize = 0;
    let mut i: usize = 0;
    assert(sv.subrange(0, 0) =~= Seq::<WorktreeInfoV>::empty());
    while i < v.len()
        invariant
            i <= v@.len(),
            sv == info_views(v@),
            depths@.len() == i,
            forall|j: int| 0 <= j < i ==> depths@[j] == depth(#[trigger] sv[j].worktree_path),
            hi == max_depth(sv.subrange(0, i as int)),
        decreases v.len() - i,
    {
        proof {
            let post = sv.subrange(0, i + 1);
            assert(post.drop_last() =~= sv.subrange(0, i as int));
        }
        let d = depth_of(v[i].worktree_path.as_str());
        depths.push(d);
        if d > hi {
            hi = d;
        }
        i = i + 1;
    }
    assert(sv.subrange(0, sv.len() as int) =~= sv);
    let mut out: Vec<WorktreeInfo> = Vec::new();
    let mut k: usize = hi;
    assert(info_views(out@) =~= levels_down(sv, hi as int, hi + 1));
    loop
        invariant
            k <= hi,
            sv == info_views(v@),
            depths@.len() == v@.len(),
            forall|j: int| 0 <= j < v@.len() ==> depths@[j] == depth(#[trigger] sv[j].worktree_path),
            hi == max_depth(sv),
            info_views(out@) == levels_down(sv, hi as int, k + 1),
        decreases k,
    {
        let ghost base = info_views(out@);
        let mut j: usize = 0;
        assert(sv.subrange(0, 0) =~= Seq::<WorktreeInfoV>::empty());
        assert(base + at_depth(Seq::<WorktreeInfoV>::empty(), k as int) =~= base);
        while j < v.len()
            invariant
                j <= v@.len(),
                sv == info_views(v@),
                depths@.len() == v@.len(),
                forall|q: int| 0 <= q < v@.len() ==> depths@[q] == depth(#[trigger] sv[q].worktree_path),
                info_views(out@) == base + at_depth(sv.subrange(0, j as int), k as int),
            decreases v.len() - j,
        {
            proof {
                let post = sv.subrange(0, j + 1);
                assert(post.drop_last() =~= sv.subrange(0, j as int));
                assert(post.last() == sv[j as int]);
            }
            if depths[j] == k {
                let ghost before = info_views(out@);
                out.push(v[j].clone());
                assert(info_views(out@) =~= before.push(sv[j as int]));
                assert(base + at_depth(sv.subrange(0, j + 1), k as int) =~= (base + at_depth(
                    sv.subrange(0, j as int),
                    k as int,
                )).push(sv[j as int]));
            }
            j = j + 1;
        }
        assert(sv.subrange(0, sv.len() as int) =~= sv);
        if k == 0 {
            return out;
        }
        k = k - 1;
    }
}

} // verus!

verus! {

/// `git submodule deinit --all --force`, run in `dir`, output shown.
pub open spec fn deinit_cmd(dir: Seq<char>) -> GitCommandV {
    cmd(PlaceV::Cwd(dir), seq!["submodule"@, "deinit"@, "--all"@, "--force"@], Output::Inherit)
}

/// `git --git-dir GITDIR worktree remove [--force] PATH`, output captured.
pub open spec fn remove_cmd(git_dir: Seq<char>, force: bool, path: Seq<char>) -> GitCommandV {
    cmd(
        PlaceV::GitDir(git_dir),
        if force {
            seq!["worktree"@, "remove"@, "--force"@, path]
        } else {
            seq!["worktree"@, "remove"@, path]
        },
        Output::Capture,
    )
}

/// `git --git-dir GITDIR worktree prune`, output shown.
pub open spec fn prune_cmd(git_dir: Seq<char>) -> GitCommandV {
    cmd(PlaceV::GitDir(git_dir), seq!["worktree"@, "prune"@], Output::Inherit)
}

/// The git directories to prune: those of the nested worktrees and the main
/// one, in path order, each once.
pub open spec fn prune_dirs(nested: Seq<WorktreeInfoV>, main_git_dir: Seq<char>) -> Seq<Seq<char>> {
    sorted_unique(nested.map_values(|w: WorktreeInfoV| w.main_git_dir).push(main_git_dir))
}

enum RemovalPhase {
    Begin,
    Canon,
    Info,
    Search,
    NestedModules { i: usize },
    NestedDeinit { i: usize },
    NestedRemove { i: usize },
    MainModules,
    MainDeinit,
    ModulesDir,
    ModulesRemove,
    MainRemove,
    Prune { i: usize },
    Done,
}

pub enum RemovalPhaseV {
    Begin,
    /// The canonical path of the worktree.
    Canon,
    /// The lookup of the worktree's information is under way.
    Info,
    /// The search for nested worktrees is under way.
    Search,
    /// Whether the `i`-th nested worktree holds `.gitmodules`.
    NestedModules { i: int },
    /// Its submodules being deinitialized.
    NestedDeinit { i: int },
    /// Its removal.
    NestedRemove { i: int },
    /// Whether the worktree holds `.gitmodules`.
    MainModules,
    /// Its submodules being deinitialized.
    MainDeinit,
    /// Whether its admin dir holds `modules`.
    ModulesDir,
    /// The removal of that submodule metadata.
    ModulesRemove,
    /// The removal of the worktree.
    MainRemove,
    /// The pruning of the `i`-th git directory.
    Prune { i: int },
    Done,
}

impl View for RemovalPhase {
    type V = RemovalPhaseV;

    closed spec fn view(&self) -> RemovalPhaseV {
        match self {
            RemovalPhase::Begin => RemovalPhaseV::Begin,
            RemovalPhase::Canon => RemovalPhaseV::Canon,
            RemovalPhase::Info => RemovalPhaseV::Info,
            RemovalPhase::Search => RemovalPhaseV::Search,
            RemovalPhase::NestedModules { i } => RemovalPhaseV::NestedModules { i: *i as int },
            RemovalPhase::NestedDeinit { i } => RemovalPhaseV::NestedDeinit { i: *i as int },
            RemovalPhase::NestedRemove { i } => RemovalPhaseV::NestedRemove { i: *i as int },
            RemovalPhase::MainModules => RemovalPhaseV::MainModules,
            RemovalPhase::MainDeinit => RemovalPhaseV::MainDeinit,
            RemovalPhase::ModulesDir => RemovalPhaseV::ModulesDir,
            RemovalPhase::ModulesRemove => RemovalPhaseV::ModulesRemove,
            RemovalPhase::MainRemove => RemovalPhaseV::MainRemove,
            RemovalPhase::Prune { i } => RemovalPhaseV::Prune { i: *i as int },
            RemovalPhase::Done => RemovalPhaseV::Done,
        }
    }
}

/// The removal of a worktree and all its nested worktrees.
pub struct WorktreeRemoval {
    input: String,
    force: bool,
    wt: String,
    main: WorktreeInfo,
    lookup: InfoLookup,
    search: NestedWorktreeSearch,
    nested: Vec<WorktreeInfo>,
    prune: Vec<String>,
    phase: RemovalPhase,
    warnings: Vec<String>,
    outcome: Option<Result<(), Error>>,
}

pub struct WorktreeRemovalV {
    pub input: Seq<char>,
    pub force: bool,
    /// The canonical path of the worktree.
    pub wt: Seq<char>,
    /// The worktree's information.
    pub main: WorktreeInfoV,
    pub lookup: InfoLookupV,
    pub search: NestedWorktreeSearchV,
    /// The nested worktrees, in the order of their removal.
    pub nested: Seq<WorktreeInfoV>,
    /// The git directories to prune, in order.
    pub prune: Seq<Seq<char>>,
    pub phase: RemovalPhaseV,
    /// The warnings given so far, in order.
    pub warnings: Seq<Seq<char>>,
    pub outcome: Option<Result<(), ErrorV>>,
}

impl View for WorktreeRemoval {
    type V = WorktreeRemovalV;

    closed spec fn view(&self) -> WorktreeRemovalV {
        WorktreeRemovalV {
            input: self.input@,
            force: self.force,
            wt: self.wt@,
            main: self.main@,
            lookup: self.lookup@,
            search: self.search@,
            nested: info_views(self.nested@),
            prune: views(self.prune@),
            phase: self.phase@,
            warnings: views(self.warnings@),
            outcome: crate::ops::unit_outcome_view(self.outcome),
        }
    }
}

pub open spec fn removal_done(m: WorktreeRemovalV, o: Result<(), ErrorV>) -> (WorktreeRemovalV, StepV) {
    (WorktreeRemovalV { phase: RemovalPhaseV::Done, outcome: Some(o), ..m }, StepV::Finished)
}

pub open spec fn removal_ask(m: WorktreeRemovalV, phase: RemovalPhaseV, q: RequestV) -> (
    WorktreeRemovalV,
    StepV,
) {
    (WorktreeRemovalV { phase, ..m }, StepV::Do(q))
}

/// Go on with the `i`-th nested worktree, or with the worktree itself.
pub open spec fn removal_next_nested(m: WorktreeRemovalV, i: int) -> (WorktreeRemovalV, StepV) {
    if 0 <= i < m.nested.len() {
        removal_ask(
            m,
            RemovalPhaseV::NestedModules { i },
            RequestV::Exists(join_path(m.nested[i].worktree_path, ".gitmodules"@)),
        )
    } else {
        removal_ask(m, RemovalPhaseV::MainModules, RequestV::Exists(join_path(m.wt, ".gitmodules"@)))
    }
}

/// Remove the `i`-th nested worktree through its main git directory.
pub open spec fn removal_remove_nested(m: WorktreeRemovalV, i: int) -> (WorktreeRemovalV, StepV) {
    removal_ask(
        m,
        RemovalPhaseV::NestedRemove { i },
        RequestV::Git(remove_cmd(m.nested[i].main_git_dir, m.force, m.nested[i].worktree_path)),
    )
}

/// Remove the worktree itself through the main git directory.
pub open spec fn removal_remove_main(m: WorktreeRemovalV) -> (WorktreeRemovalV, StepV) {
    removal_ask(
        m,
        RemovalPhaseV::MainRemove,
        RequestV::Git(remove_cmd(m.main.main_git_dir, m.force, m.wt)),
    )
}

/// Prune the `i`-th git directory, or finish.
pub open spec fn removal_next_prune(m: WorktreeRemovalV, i: int) -> (WorktreeRemovalV, StepV) {
    if 0 <= i < m.prune.len() {
        removal_ask(m, RemovalPhaseV::Prune { i }, RequestV::Git(prune_cmd(m.prune[i])))
    } else {
        removal_done(m, Ok(()))
    }
}

/// The warnings `ws` after a nested `git worktree remove` gave `ran`: one
/// more with git's trimmed error output if it failed, or with the reason if
/// git could not be run.
pub open spec fn nested_removal_warnings(
    ws: Seq<Seq<char>>,
    ran: Result<crate::effect::RanV, Seq<char>>,
) -> Seq<Seq<char>> {
    match ran {
        Ok(x) => if x.success {
            ws
        } else {
            ws.push("Warning: "@ + trim(x.stderr))
        },
        Err(e) => ws.push("Warning: Failed to run git: "@ + e),
    }
}

/// The warnings `ws` after the removal of the submodule metadata gave
/// `done`: one more with the reason if it failed.
pub open spec fn metadata_warnings(ws: Seq<Seq<char>>, done: Result<(), Seq<char>>) -> Seq<Seq<char>> {
    match done {
        Ok(()) => ws,
        Err(e) => ws.push("Warning: Failed to remove submodule metadata: "@ + e),
    }
}

/// One step of the removal.
///
/// The worktree path is made canonical and its information looked up (a
/// failure of either ends the removal with its error). Its nested worktrees
/// are found and removed deepest first: for each, submodules are
/// deinitialized if it holds `.gitmodules`, then `git worktree remove` runs
/// through its own main git directory; a failure there is passed over with a
/// warning (see [`nested_removal_warnings`]). Then, if the worktree holds
/// `.gitmodules`, its submodules are deinitialized and the `modules`
/// directory of its admin dir is removed if present, a failure of that
/// removal giving a warning (see [`metadata_warnings`]). Then the worktree itself is removed, whose failure ends the
/// removal with an error. Last, every git directory involved is pruned, and
/// the removal succeeds.
pub open spec fn removal_resume(m: WorktreeRemovalV, r: ReplyV) -> (WorktreeRemovalV, StepV) {
    match m.phase {
        RemovalPhaseV::Begin => removal_ask(m, RemovalPhaseV::Canon, RequestV::Canonicalize(m.input)),
        RemovalPhaseV::Canon => match path_of(r) {
            Err(e) => removal_done(m, Err(ErrorV::GitFileRead { path: m.input, source: e })),
            Ok(wt) => {
                let (l2, st) = info_resume(info_start(wt), ReplyV::Start);
                (WorktreeRemovalV { wt, lookup: l2, phase: RemovalPhaseV::Info, ..m }, st)
            },
        },
        RemovalPhaseV::Info => {
            let (l2, st) = info_resume(m.lookup, r);
            match st {
                StepV::Do(q) => (WorktreeRemovalV { lookup: l2, ..m }, StepV::Do(q)),
                StepV::Finished => match l2.outcome {
                    Some(Ok(info)) => {
                        let (s2, st2) = search_resume(search_start(m.wt), ReplyV::Start);
                        (
                            WorktreeRemovalV {
                                lookup: l2,
                                main: info,
                                search: s2,
                                phase: RemovalPhaseV::Search,
                                ..m
                            },
                            st2,
                        )
                    },
                    Some(Err(e)) => removal_done(WorktreeRemovalV { lookup: l2, ..m }, Err(e)),
                    None => removal_done(
                        WorktreeRemovalV { lookup: l2, ..m },
                        Err(ErrorV::InvalidPath(m.wt)),
                    ),
                },
            }
        },
        RemovalPhaseV::Search => {
            let (s2, st) = search_resume(m.search, r);
            match st {
                StepV::Do(q) => (WorktreeRemovalV { search: s2, ..m }, StepV::Do(q)),
                StepV::Finished => removal_next_nested(
                    WorktreeRemovalV {
                        search: s2,
                        nested: deepest_first(s2.found),
                        prune: prune_dirs(s2.found, m.main.main_git_dir),
                        ..m
                    },
                    0,
                ),
            }
        },
        RemovalPhaseV::NestedModules { i } => if !(0 <= i < m.nested.len()) {
            removal_next_nested(m, i)
        } else if flag_of(r) {
            removal_ask(
                m,
                RemovalPhaseV::NestedDeinit { i },
                RequestV::Git(deinit_cmd(m.nested[i].worktree_path)),
            )
        } else {
            removal_remove_nested(m, i)
        },
        RemovalPhaseV::NestedDeinit { i } => if !(0 <= i < m.nested.len()) {
            removal_next_nested(m, i)
        } else {
            removal_remove_nested(m, i)
        },
        RemovalPhaseV::NestedRemove { i } => removal_next_nested(
            WorktreeRemovalV { warnings: nested_removal_warnings(m.warnings, ran_of(r)), ..m },
            i + 1,
        ),
        RemovalPhaseV::MainModules => if flag_of(r) {
            removal_ask(m, RemovalPhaseV::MainDeinit, RequestV::Git(deinit_cmd(m.wt)))
        } else {
            removal_remove_main(m)
        },
        RemovalPhaseV::MainDeinit => removal_ask(
            m,
            RemovalPhaseV::ModulesDir,
            RequestV::Exists(join_path(m.main.worktree_git_dir, "modules"@)),
        ),
        RemovalPhaseV::ModulesDir => if flag_of(r) {
            removal_ask(
                m,
                RemovalPhaseV::ModulesRemove,
                RequestV::RemoveDirAll(join_path(m.main.worktree_git_dir, "modules"@)),
            )
        } else {
            removal_remove_main(m)
        },
        RemovalPhaseV::ModulesRemove => removal_remove_main(
            WorktreeRemovalV { warnings: metadata_warnings(m.warnings, done_of(r)), ..m },
        ),
        RemovalPhaseV::MainRemove => match ran_of(r) {
            Err(e) => removal_done(m, Err(ErrorV::Io(e))),
            Ok(x) => if x.success {
                removal_next_prune(m, 0)
            } else {
                removal_done(
                    m,
                    Err(ErrorV::GitCommand("Failed to remove worktree: "@ + trim(x.stderr))),
                )
            },
        },
        RemovalPhaseV::Prune { i } => removal_next_prune(m, i + 1),
        RemovalPhaseV::Done => (m, StepV::Finished),
    }
}

pub open spec fn empty_info_view() -> WorktreeInfoV {
    WorktreeInfoV {
        worktree_path: Seq::empty(),
        worktree_git_dir: Seq::empty(),
        main_git_dir: Seq::empty(),
        main_repo_path: Seq::empty(),
        is_main_worktree: false,
    }
}

fn empty_info() -> (i: WorktreeInfo)
    ensures
        i@ == empty_info_view(),
{
    WorktreeInfo {
        worktree_path: String::new(),
        worktree_git_dir: String::new(),
        main_git_dir: String::new(),
        main_repo_path: String::new(),
        is_main_worktree: false,
    }
}

/// The removal before its first step.
pub open spec fn removal_start(input: Seq<char>, force: bool) -> WorktreeRemovalV {
    WorktreeRemovalV {
        input,
        force,
        wt: Seq::empty(),
        main: empty_info_view(),
        lookup: info_start(Seq::empty()),
        search: search_start(Seq::empty()),
        nested: Seq::empty(),
        prune: Seq::empty(),
        phase: RemovalPhaseV::Begin,
        warnings: Seq::empty(),
        outcome: None,
    }
}

/// The removal of the worktree at `worktree_path` and of all the worktrees
/// nested in it, deepest first; `force` removes them even with uncommitted
/// changes.
pub fn remove_worktree(worktree_path: String, force: bool) -> (m: WorktreeRemoval)
    ensures
        m@ == removal_start(worktree_path@, force),
{
    let search = find_nested_worktrees(String::new());
    let m = WorktreeRemoval {
        input: worktree_path,
        force,
        wt: String::new(),
        main: empty_info(),
        lookup: InfoLookup::new(String::new()),
        search,
        nested: Vec::new(),
        prune: Vec::new(),
        phase: RemovalPhase::Begin,
        warnings: Vec::new(),
        outcome: None,
    };
    assert(m@.warnings =~= Seq::<Seq<char>>::empty());
    assert(m@.nested =~= Seq::<WorktreeInfoV>::empty());
    assert(m@.prune =~= Seq::<Seq<char>>::empty());
    m
}

fn deinit_request(dir: &String) -> (q: Request)
    ensures
        q@ == RequestV::Git(deinit_cmd(dir@)),
{
    let a = crate::effect::args4(s("submodule"), s("deinit"), s("--all"), s("--force"));
    Request::Git(git(Place::Cwd(dir.clone()), a, Output::Inherit))
}

fn remove_request(git_dir: &String, force: bool, path: &String) -> (q: Request)
    ensures
        q@ == RequestV::Git(remove_cmd(git_dir@, force, path@)),
{
    let a = if force {
        crate::effect::args4(s("worktree"), s("remove"), s("--force"), path.clone())
    } else {
        crate::effect::args3(s("worktree"), s("remove"), path.clone())
    };
    Request::Git(git(Place::GitDir(git_dir.clone()), a, Output::Capture))
}

fn prune_request(git_dir: &String) -> (q: Request)
    ensures
        q@ == RequestV::Git(prune_cmd(git_dir@)),
{
    Request::Git(git(Place::GitDir(git_dir.clone()), args2(s("worktree"), s("prune")), Output::Inherit))
}

fn prune_list(found: &Vec<WorktreeInfo>, main_git_dir: &String) -> (r: Vec<String>)
    ensures
        views(r@) == prune_dirs(info_views(found@), main_git_dir@),
{
    let mut dirs: Vec<String> = Vec::new();
    let mut i: usize = 0;
    let ghost fv = info_views(found@);
    while i < found.len()
        invariant
            i <= found@.len(),
            fv == info_views(found@),
            views(dirs@) == fv.subrange(0, i as int).map_values(|w: WorktreeInfoV| w.main_git_dir),
        decreases found.len() - i,
    {
        let ghost before = views(dirs@);
        let d = found[i].main_git_dir.clone();
        dirs.push(d);
        assert(views(dirs@) =~= before.push(d@));
        assert(fv[i as int].main_git_dir == d@);
        assert(fv.subrange(0, i + 1).map_values(|w: WorktreeInfoV| w.main_git_dir) =~= fv.subrange(
            0,
            i as int,
        ).map_values(|w: WorktreeInfoV| w.main_git_dir).push(d@));
        i = i + 1;
    }
    let ghost before = views(dirs@);
    dirs.push(main_git_dir.clone());
    assert(fv.subrange(0, fv.len() as int) =~= fv);
    assert(views(dirs@) =~= fv.map_values(|w: WorktreeInfoV| w.main_git_dir).push(main_git_dir@));
    sorted_unique_paths(&dirs)
}

impl WorktreeRemoval {
    /// The result, once the removal has finished.
    pub fn outcome(&self) -> (o: &Option<Result<(), Error>>)
        ensures
            crate::ops::unit_outcome_view(*o) == self@.outcome,
    {
        &self.outcome
    }

    /// The warnings given so far, in order.
    pub fn warnings(&self) -> (w: &Vec<String>)
        ensures
            views(w@) == self@.warnings,
    {
        &self.warnings
    }

    fn note_nested_removal(&mut self, ran: Result<crate::effect::Ran, String>)
        ensures
            final(self)@ == (WorktreeRemovalV {
                warnings: nested_removal_warnings(old(self)@.warnings, match ran {
                    Ok(x) => Ok(x@),
                    Err(e) => Err(e@),
                }),
                ..old(self)@
            }),
    {
        let ghost before = self.warnings@;
        match ran {
            Ok(x) => if !x.success {
                let t = trim_str(x.stderr.as_str());
                self.warnings.push(cat("Warning: ", t.as_str()));
            },
            Err(e) => {
                self.warnings.push(cat("Warning: Failed to run git: ", e.as_str()));
            },
        }
        proof {
            assert(views(self.warnings@) =~= nested_removal_warnings(views(before), match ran {
                Ok(x) => Ok(x@),
                Err(e) => Err(e@),
            }));
        }
    }

    /// The result, once the removal has finished.
    pub fn into_outcome(self) -> (o: Option<Result<(), Error>>)
        ensures
            crate::ops::unit_outcome_view(o) == self@.outcome,
    {
        self.outcome
    }

    fn done(&mut self, o: Result<(), Error>) -> (st: Step)
        ensures
            (final(self)@, st@) == removal_done(old(self)@, match o {
                Ok(()) => Ok(()),
                Err(e) => Err(e@),
            }),
    {
        self.phase = RemovalPhase::Done;
        self.outcome = Some(o);
        Step::Finished
    }

    fn next_nested(&mut self, i: usize) -> (st: Step)
        ensures
            (final(self)@, st@) == removal_next_nested(old(self)@, i as int),
    {
        if i < self.nested.len() {
            let q = Request::Exists(join(self.nested[i].worktree_path.as_str(), ".gitmodules"));
            self.phase = RemovalPhase::NestedModules { i };
            Step::Do(q)
        } else {
            let q = Request::Exists(join(self.wt.as_str(), ".gitmodules"));
            self.phase = RemovalPhase::MainModules;
            Step::Do(q)
        }
    }

    fn remove_nested(&mut self, i: usize) -> (st: Step)
        requires
            i < old(self)@.nested.len(),
        ensures
            (final(self)@, st@) == removal_remove_nested(old(self)@, i as int),
    {
        let q = remove_request(&self.nested[i].main_git_dir, self.force, &self.nested[i].worktree_path);
        self.phase = RemovalPhase::NestedRemove { i };
        Step::Do(q)
    }

    fn remove_main(&mut self) -> (st: Step)
        ensures
            (final(self)@, st@) == removal_remove_main(old(self)@),
    {
        let q = remove_request(&self.main.main_git_dir, self.force, &self.wt);
        self.phase = RemovalPhase::MainRemove;
        Step::Do(q)
    }

    fn next_prune(&mut self, i: usize) -> (st: Step)
        ensures
            (final(self)@, st@) == removal_next_prune(old(self)@, i as int),
    {
        if i < self.prune.len() {
            let q = prune_request(&self.prune[i]);
            self.phase = RemovalPhase::Prune { i };
            Step::Do(q)
        } else {
            self.done(Ok(()))
        }
    }

    /// One step of the removal.
    pub fn resume(&mut self, reply: Reply) -> (st: Step)
        ensures
            (final(self)@, st@) == removal_resume(old(self)@, reply@),
    {
        match self.phase {
            RemovalPhase::Begin => {
                self.phase = RemovalPhase::Canon;
                Step::Do(Request::Canonicalize(self.input.clone()))
            },
            RemovalPhase::Canon => match take_path(reply) {
                Err(e) => {
                    let p = self.input.clone();
                    self.done(Err(Error::GitFileRead { path: p, source: e }))
                },
                Ok(wt) => {
                    self.lookup = InfoLookup::new(wt.clone());
                    self.wt = wt;
                    let st = self.lookup.resume(Reply::Start);
                    self.phase = RemovalPhase::Info;
                    st
                },
            },
            RemovalPhase::Info => {
                let st = self.lookup.resume(reply);
                match st {
                    Step::Do(q) => Step::Do(q),
                    Step::Finished => {
                        let o = match self.lookup.outcome() {
                            Some(Ok(info)) => Ok(info.clone()),
                            Some(Err(e)) => Err(clone_error(e)),
                            None => Err(Error::InvalidPath(self.wt.clone())),
                        };
                        match o {
                            Ok(info) => {
                                self.main = info;
                                self.search = find_nested_worktrees(self.wt.clone());
                                let st2 = self.search.resume(Reply::Start);
                                self.phase = RemovalPhase::Search;
                                st2
                            },
                            Err(e) => self.done(Err(e)),
                        }
                    },
                }
            },
            RemovalPhase::Search => {
                let st = self.search.resume(reply);
                match st {
                    Step::Do(q) => Step::Do(q),
                    Step::Finished => {
                        let found = self.search.found_list();
                        self.nested = deepest_first_of(found);
                        self.prune = prune_list(found, &self.main.main_git_dir);
                        self.next_nested(0)
                    },
                }
            },
            RemovalPhase::NestedModules { i } => {
                if i >= self.nested.len() {
                    self.next_nested(i)
                } else if take_flag(reply) {
                    let q = deinit_request(&self.nested[i].worktree_path);
                    self.phase = RemovalPhase::NestedDeinit { i };
                    Step::Do(q)
                } else {
                    self.remove_nested(i)
                }
            },
            RemovalPhase::NestedDeinit { i } => {
                if i >= self.nested.len() {
                    self.next_nested(i)
                } else {
                    self.remove_nested(i)
                }
            },
            RemovalPhase::NestedRemove { i } => {
                self.note_nested_removal(take_ran(reply));
                if i >= self.nested.len() {
                    // past the last nested worktree: the next index is past it too
                    let q = Request::Exists(join(self.wt.as_str(), ".gitmodules"));
                    self.phase = RemovalPhase::MainModules;
                    Step::Do(q)
                } else {
                    self.next_nested(i + 1)
                }
            },
            RemovalPhase::MainModules => {
                if take_flag(reply) {
                    let q = deinit_request(&self.wt);
                    self.phase = RemovalPhase::MainDeinit;
                    Step::Do(q)
                } else {
                    self.remove_main()
                }
            },
            RemovalPhase::MainDeinit => {
                let q = Request::Exists(join(self.main.worktree_git_dir.as_str(), "modules"));
                self.phase = RemovalPhase::ModulesDir;
                Step::Do(q)
            },
            RemovalPhase::ModulesDir => {
                if take_flag(reply) {
                    let q = Request::RemoveDirAll(join(self.main.worktree_git_dir.as_str(), "modules"));
                    self.phase = RemovalPhase::ModulesRemove;
                    Step::Do(q)
                } else {
                    self.remove_main()
                }
            },
            RemovalPhase::ModulesRemove => {
                let d = take_done(reply);
                let ghost before = self.warnings@;
                match d {
                    Ok(()) => {},
                    Err(e) => {
                        self.warnings.push(cat("Warning: Failed to remove submodule metadata: ", e.as_str()));
                    },
                }
                proof {
                    assert(views(self.warnings@) =~= metadata_warnings(views(before), done_of(reply@)));
                }
                self.remove_main()
            },
            RemovalPhase::MainRemove => match take_ran(reply) {
                Err(e) => self.done(Err(Error::Io(e))),
                Ok(x) => if x.success {
                    self.next_prune(0)
                } else {
                    let t = trim_str(x.stderr.as_str());
                    let msg = cat("Failed to remove worktree: ", t.as_str());
                    self.done(Err(Error::GitCommand(msg)))
                },
            },
            RemovalPhase::Prune { i } => {
                if i >= self.prune.len() {
                    self.done(Ok(()))
                } else {
                    self.next_prune(i + 1)
                }
            },
            RemovalPhase::Done => Step::Finished,
        }
    }
}

/// A copy of an error.
pub fn clone_error(e: &Error) -> (c: Error)
    ensures
        c@ == e@,
{
    match e {
        Error::NotWorktree(p) => Error::NotWorktree(p.clone()),
        Error::IsMainRepo(p) => Error::IsMainRepo(p.clone()),
        Error::GitFileRead { path, source } => Error::GitFileRead {
            path: path.clone(),
            source: source.clone(),
        },
        Error::InvalidGitFile(p) => Error::InvalidGitFile(p.clone()),
        Error::GitCommand(m) => Error::GitCommand(m.clone()),
        Error::InvalidPath(m) => Error::InvalidPath(m.clone()),
        Error::Io(m) => Error::Io(m.clone()),
    }
}

} // verus!

verus! {

/// How many times `x` occurs in `s`.
pub open spec fn count_of(s: Seq<WorktreeInfoV>, x: WorktreeInfoV) -> int
    decreases s.len(),
{
    if s.len() == 0 {
        0
    } else {
        count_of(s.drop_last(), x) + if s.last() == x {
            1int
        } else {
            0int
        }
    }
}

proof fn lemma_count_concat(a: Seq<WorktreeInfoV>, b: Seq<WorktreeInfoV>, x: WorktreeInfoV)
    ensures
        count_of(a + b, x) == count_of(a, x) + count_of(b, x),
    decreases b.len(),
{
    if b.len() > 0 {
        lemma_count_concat(a, b.drop_last(), x);
        assert((a + b).drop_last() =~= a + b.drop_last());
    } else {
        assert(a + b =~= a);
    }
}

proof fn lemma_at_depth(s: Seq<WorktreeInfoV>, k: int, x: WorktreeInfoV)
    ensures
        count_of(at_depth(s, k), x) == if depth(x.worktree_path) == k {
            count_of(s, x)
        } else {
            0
        },
        forall|i: int| 0 <= i < at_depth(s, k).len() ==> depth(#[trigger] at_depth(s, k)[i].worktree_path) == k,
    decreases s.len(),
{
    if s.len() > 0 {
        lemma_at_depth(s.drop_last(), k, x);
        let r = at_depth(s.drop_last(), k);
        assert(r.push(s.last()).drop_last() =~= r);
        assert forall|i: int| 0 <= i < at_depth(s, k).len() implies depth(#[trigger] at_depth(s, k)[i].worktree_path) == k by {
            if i < r.len() {
                assert(at_depth(s, k)[i] == r[i]);
            }
        }
    }
}

proof fn lemma_max_depth(s: Seq<WorktreeInfoV>)
    ensures
        max_depth(s) >= 0,
        forall|i: int| 0 <= i < s.len() ==> depth(#[trigger] s[i].worktree_path) <= max_depth(s),
    decreases s.len(),
{
    if s.len() > 0 {
        lemma_max_depth(s.drop_last());
        assert forall|i: int| 0 <= i < s.len() implies depth(#[trigger] s[i].worktree_path) <= max_depth(s) by {
            if i < s.len() - 1 {
                assert(s[i] == s.drop_last()[i]);
            }
        }
    }
}

proof fn lemma_levels(s: Seq<WorktreeInfoV>, hi: int, k: int, x: WorktreeInfoV)
    ensures
        count_of(levels_down(s, hi, k), x) == if k <= depth(x.worktree_path) <= hi {
            count_of(s, x)
        } else {
            0
        },
        forall|i: int| 0 <= i < levels_down(s, hi, k).len() ==> k <= depth(#[trigger] levels_down(s, hi, k)[i].worktree_path) <= hi,
        forall|i: int, j: int| 0 <= i < j < levels_down(s, hi, k).len() ==> depth(#[trigger] levels_down(s, hi, k)[i].worktree_path) >= depth(#[trigger] levels_down(s, hi, k)[j].worktree_path),
    decreases hi + 1 - k,
{
    if k <= hi {
        lemma_levels(s, hi, k + 1, x);
        lemma_at_depth(s, k, x);
        let a = levels_down(s, hi, k + 1);
        let b = at_depth(s, k);
        lemma_count_concat(a, b, x);
        let l = levels_down(s, hi, k);
        assert(l == a + b);
        assert forall|i: int| 0 <= i < l.len() implies k <= depth(#[trigger] l[i].worktree_path) <= hi by {
            if i < a.len() {
                assert(l[i] == a[i]);
            } else {
                assert(l[i] == b[i - a.len()]);
            }
        }
        assert forall|i: int, j: int| 0 <= i < j < l.len() implies depth(#[trigger] l[i].worktree_path) >= depth(#[trigger] l[j].worktree_path) by {
            if j < a.len() {
                assert(l[i] == a[i]);
                assert(l[j] == a[j]);
            } else if i >= a.len() {
                assert(l[i] == b[i - a.len()]);
                assert(l[j] == b[j - a.len()]);
            } else {
                assert(l[i] == a[i]);
                assert(l[j] == b[j - a.len()]);
            }
        }
    }
}

proof fn lemma_count_positive(s: Seq<WorktreeInfoV>, x: WorktreeInfoV)
    ensures
        count_of(s, x) >= 0,
        count_of(s, x) > 0 ==> exists|i: int| 0 <= i < s.len() && s[i] == x,
    decreases s.len(),
{
    if s.len() > 0 {
        lemma_count_positive(s.drop_last(), x);
        if count_of(s.drop_last(), x) > 0 {
            let i = choose|i: int| 0 <= i < s.drop_last().len() && s.drop_last()[i] == x;
            assert(s[i] == x);
        }
    }
}

/// Nested worktrees are removed deepest first: the removal order holds
/// every nested worktree as often as the search found it, and a worktree
/// with more path components never comes after one with fewer.
pub proof fn lemma_removal_deepest_first(s: Seq<WorktreeInfoV>)
    ensures
        forall|x: WorktreeInfoV| count_of(#[trigger] deepest_first(s), x) == count_of(s, x),
        forall|i: int, j: int|
            0 <= i < j < deepest_first(s).len() ==> depth(#[trigger] deepest_first(s)[i].worktree_path)
                >= depth(#[trigger] deepest_first(s)[j].worktree_path),
{
    lemma_max_depth(s);
    assert forall|x: WorktreeInfoV| count_of(#[trigger] deepest_first(s), x) == count_of(s, x) by {
        lemma_levels(s, max_depth(s), 0, x);
        lemma_count_positive(s, x);
        if count_of(s, x) > 0 {
            let i = choose|i: int| 0 <= i < s.len() && s[i] == x;
            assert(depth(s[i].worktree_path) <= max_depth(s));
        }
    }
    lemma_levels(s, max_depth(s), 0, empty_info_view());
}

} // verus!

verus! {

/// The worktree itself is taken on (the check for its `.gitmodules`) only
/// after the last of its nested worktrees: the removal reaches that step
/// from the removal of the last nested worktree, or from the search when
/// there is no nested worktree.
pub proof fn lemma_main_after_nested(m: WorktreeRemovalV, r: ReplyV)
    ensures
        ({
            let (m2, st) = removal_resume(m, r);
            m2.phase is MainModules && !(m.phase is MainModules) ==> {
                ||| m.phase is Search && m2.nested.len() == 0
                ||| (m.phase matches RemovalPhaseV::NestedRemove { i } && !(0 <= i + 1 < m.nested.len()))
                ||| (m.phase matches RemovalPhaseV::NestedModules { i } && !(0 <= i < m.nested.len()))
                ||| (m.phase matches RemovalPhaseV::NestedDeinit { i } && !(0 <= i < m.nested.len()))
            }
        }),
{
}

/// Every git directory involved is pruned once the worktree is removed:
/// after the search, the directories to prune are those of the nested
/// worktrees and the main one, in path order, each once.
pub proof fn lemma_prune_list(m: WorktreeRemovalV, r: ReplyV)
    requires
        m.phase is Search,
    ensures
        ({
            let (m2, st) = removal_resume(m, r);
            st is Finished || m2.phase is Search || m2.prune == prune_dirs(m2.search.found, m.main.main_git_dir)
        }),
{
}


/// Nested worktrees are removed deepest first: once the search for them has
/// finished, the removal's list of nested worktrees (removed in its order)
/// holds each worktree the search found, as often as found, and never puts
/// a worktree with fewer path components before one with more.
pub proof fn lemma_removal_order_after_search(m: WorktreeRemovalV, r: ReplyV)
    requires
        m.phase is Search,
        search_resume(m.search, r).1 is Finished,
    ensures
        ({
            let m2 = removal_resume(m, r).0;
            let found = search_resume(m.search, r).0.found;
            &&& forall|x: WorktreeInfoV| count_of(#[trigger] m2.nested, x) == count_of(found, x)
            &&& forall|i: int, j: int|
                0 <= i < j < m2.nested.len() ==> depth(#[trigger] m2.nested[i].worktree_path) >= depth(
                    #[trigger] m2.nested[j].worktree_path,
                )
        }),
{
    lemma_removal_deepest_first(search_resume(m.search, r).0.found);
}

} // verus!
