//! Creation of a worktree and of a detached-HEAD sibling worktree for every
//! nested repository, at the same relative path inside the new worktree.

use vstd::prelude::*;
use crate::builder::{WorktreeBuilder, WorktreeBuilderV};
use crate::config::pair_views;
use crate::effect::{
    args2, args4, done_of, flag_of, git, path_of, ran_of, s, take_done, take_flag, take_path,
    take_ran, Output, Place, PlaceV, Reply, ReplyV, Request, RequestV, Step, StepV,
};
use crate::error::{Error, ErrorV};
use crate::nested::{walk_resume, walk_start, NestedWalk, NestedWalkV};
use crate::ops::{
    cmd, create_branch_if_needed, creation_resume, creation_start, fetch_cmd, fetch_result,
    is_worktree_listed, listed, local_list_cmd, unit_outcome_view, worktree_list_cmd, worktree_listed,
    BranchCreation, BranchCreationV,
};
use crate::path::{join, join_path, parent, parent_path};
use crate::submodules::{setup_submodules, sub_resume, sub_start, SubmoduleSetup, SubmoduleSetupV};
use crate::text::{cat, cat3, extend_strings, trim, trim_str, views};

verus! {

/// How a copy is made.
#[derive(Debug, PartialEq, Eq, Structural, Clone, Copy)]
pub enum CopyKind {
    /// A file, copied if the source exists.
    File,
    /// A directory, copied recursively if the source is a directory.
    Dir,
    /// A directory if the source is one, else a file if it exists.
    Auto,
}

/// A copy into the new worktree.
#[derive(Debug)]
pub struct CopyJob {
    pub kind: CopyKind,
    pub src: String,
    pub dst: String,
    /// How a warning names the copy.
    pub label: String,
}

pub struct CopyJobV {
    pub kind: CopyKind,
    pub src: Seq<char>,
    pub dst: Seq<char>,
    pub label: Seq<char>,
}

impl View for CopyJob {
    type V = CopyJobV;

    open spec fn view(&self) -> CopyJobV {
        CopyJobV { kind: self.kind, src: self.src@, dst: self.dst@, label: self.label@ }
    }
}

pub open spec fn job_views(v: Seq<CopyJob>) -> Seq<CopyJobV> {
    v.map_values(|j: CopyJob| j@)
}

/// The copies of relative paths `rels` of kind `kind` from `repo` into
/// `wt`, each at the same relative path.
pub open spec fn rel_jobs(rels: Seq<Seq<char>>, kind: CopyKind, repo: Seq<char>, wt: Seq<char>) -> Seq<CopyJobV> {
    rels.map_values(
        |rel: Seq<char>|
            CopyJobV { kind, src: join_path(repo, rel), dst: join_path(wt, rel), label: rel_label(rel, kind) },
    )
}

/// How a warning names the copy of the relative path `rel`: a directory
/// with a trailing `/`.
pub open spec fn rel_label(rel: Seq<char>, kind: CopyKind) -> Seq<char> {
    if kind == CopyKind::Dir {
        rel + "/"@
    } else {
        rel
    }
}

/// The copies of external files into `wt`.
pub open spec fn external_jobs(ext: Seq<(Seq<char>, Seq<char>)>, wt: Seq<char>) -> Seq<CopyJobV> {
    ext.map_values(
        |p: (Seq<char>, Seq<char>)| CopyJobV { kind: CopyKind::File, src: p.0, dst: join_path(wt, p.1), label: p.0 },
    )
}

/// The copies that a creation makes into the canonical worktree `wt`: the
/// files, the directories, the paths of either kind, then the external
/// files.
pub open spec fn copy_jobs(b: WorktreeBuilderV, wt: Seq<char>) -> Seq<CopyJobV> {
    rel_jobs(b.copy_files, CopyKind::File, b.repo_path, wt) + rel_jobs(
        b.copy_dirs,
        CopyKind::Dir,
        b.repo_path,
        wt,
    ) + rel_jobs(b.copy_paths, CopyKind::Auto, b.repo_path, wt) + external_jobs(b.external_files, wt)
}

fn push_rel_jobs(jobs: &mut Vec<CopyJob>, rels: &Vec<String>, kind: CopyKind, repo: &String, wt: &String)
    ensures
        job_views(final(jobs)@) == job_views(old(jobs)@) + rel_jobs(views(rels@), kind, repo@, wt@),
{
    let ghost start = job_views(jobs@);
    let mut i: usize = 0;
    while i < rels.len()
        invariant
            i <= rels@.len(),
            job_views(jobs@) == start + rel_jobs(views(rels@).subrange(0, i as int), kind, repo@, wt@),
        decreases rels.len() - i,
    {
        let label = if kind == CopyKind::Dir {
            cat(rels[i].as_str(), "/")
        } else {
            rels[i].clone()
        };
        let j = CopyJob {
            kind,
            src: join(repo.as_str(), rels[i].as_str()),
            dst: join(wt.as_str(), rels[i].as_str()),
            label,
        };
        let ghost before = job_views(jobs@);
        jobs.push(j);
        assert(job_views(jobs@) =~= before.push(j@));
        assert(rel_jobs(views(rels@).subrange(0, i + 1), kind, repo@, wt@) =~= rel_jobs(
            views(rels@).subrange(0, i as int),
            kind,
            repo@,
            wt@,
        ).push(j@));
        i = i + 1;
    }
    assert(views(rels@).subrange(0, rels@.len() as int) =~= views(rels@));
}

/// The copies that a creation makes into `wt` (see [`copy_jobs`]).
pub fn copy_jobs_of(b: &WorktreeBuilder, wt: &String) -> (jobs: Vec<CopyJob>)
    ensures
        job_views(jobs@) == copy_jobs(b@, wt@),
{
    let mut jobs: Vec<CopyJob> = Vec::new();
    assert(job_views(jobs@) =~= Seq::<CopyJobV>::empty());
    push_rel_jobs(&mut jobs, b._copy_files(), CopyKind::File, b._repo_path(), wt);
    push_rel_jobs(&mut jobs, b._copy_dirs(), CopyKind::Dir, b._repo_path(), wt);
    push_rel_jobs(&mut jobs, b._copy_paths(), CopyKind::Auto, b._repo_path(), wt);
    let ext = b._external_files();
    let ghost start = job_views(jobs@);
    let mut i: usize = 0;
    while i < ext.len()
        invariant
            i <= ext@.len(),
            job_views(jobs@) == start + external_jobs(pair_views(ext@).subrange(0, i as int), wt@),
        decreases ext.len() - i,
    {
        let j = CopyJob {
            kind: CopyKind::File,
            src: ext[i].0.clone(),
            dst: join(wt.as_str(), ext[i].1.as_str()),
            label: ext[i].0.clone(),
        };
        let ghost before = job_views(jobs@);
        jobs.push(j);
        assert(job_views(jobs@) =~= before.push(j@));
        assert(external_jobs(pair_views(ext@).subrange(0, i + 1), wt@) =~= external_jobs(
            pair_views(ext@).subrange(0, i as int),
            wt@,
        ).push(j@));
        i = i + 1;
    }
    assert(pair_views(ext@).subrange(0, ext@.len() as int) =~= pair_views(ext@));
    assert(job_views(jobs@) =~= copy_jobs(b@, wt@));
    jobs
}

} // verus!

verus! {

/// `git worktree add PATH BRANCH`, run in `repo`, output shown.
pub open spec fn add_cmd(repo: Seq<char>, path: Seq<char>, branch: Seq<char>) -> crate::effect::GitCommandV {
    cmd(PlaceV::Cwd(repo), seq!["worktree"@, "add"@, path, branch], Output::Inherit)
}

/// `git worktree add --detach PATH`, run in the nested repository `repo`,
/// output captured.
pub open spec fn add_detached_cmd(repo: Seq<char>, path: Seq<char>) -> crate::effect::GitCommandV {
    cmd(PlaceV::Cwd(repo), seq!["worktree"@, "add"@, "--detach"@, path], Output::Capture)
}

enum CreatePhase {
    Begin,
    Fetch,
    Branch,
    Listed,
    MkParent,
    Add,
    Canon,
    Walk,
    NListed { i: usize },
    NExists { i: usize },
    NHasGit { i: usize },
    NRemove { i: usize },
    NMkParent { i: usize },
    NAdd { i: usize },
    Submodules,
    JobProbe { j: usize },
    JobAutoExists { j: usize },
    JobMkdir { j: usize },
    JobCopy { j: usize },
    Done,
}

pub enum CreatePhaseV {
    Begin,
    /// The fetch from origin.
    Fetch,
    /// The branch creation is under way.
    Branch,
    /// The main repository's worktree list.
    Listed,
    /// The creation of the worktree's parent directory.
    MkParent,
    /// `git worktree add`.
    Add,
    /// The canonical path of the new worktree.
    Canon,
    /// The walk for nested repositories is under way.
    Walk,
    /// The `i`-th nested repository's worktree list.
    NListed { i: int },
    /// Whether its target path exists.
    NExists { i: int },
    /// Whether the target holds `.git`.
    NHasGit { i: int },
    /// The removal of the leftover target directory.
    NRemove { i: int },
    /// The creation of the target's parent directory.
    NMkParent { i: int },
    /// `git worktree add --detach` in the nested repository.
    NAdd { i: int },
    /// The submodule setup is under way.
    Submodules,
    /// The first check of the `j`-th copy's source.
    JobProbe { j: int },
    /// Whether the source of an `Auto` copy exists.
    JobAutoExists { j: int },
    /// The creation of the copy's parent directory.
    JobMkdir { j: int },
    /// The copy itself.
    JobCopy { j: int },
    Done,
}

impl View for CreatePhase {
    type V = CreatePhaseV;

    closed spec fn view(&self) -> CreatePhaseV {
        match self {
            CreatePhase::Begin => CreatePhaseV::Begin,
            CreatePhase::Fetch => CreatePhaseV::Fetch,
            CreatePhase::Branch => CreatePhaseV::Branch,
            CreatePhase::Listed => CreatePhaseV::Listed,
            CreatePhase::MkParent => CreatePhaseV::MkParent,
            CreatePhase::Add => CreatePhaseV::Add,
            CreatePhase::Canon => CreatePhaseV::Canon,
            CreatePhase::Walk => CreatePhaseV::Walk,
            CreatePhase::NListed { i } => CreatePhaseV::NListed { i: *i as int },
            CreatePhase::NExists { i } => CreatePhaseV::NExists { i: *i as int },
            CreatePhase::NHasGit { i } => CreatePhaseV::NHasGit { i: *i as int },
            CreatePhase::NRemove { i } => CreatePhaseV::NRemove { i: *i as int },
            CreatePhase::NMkParent { i } => CreatePhaseV::NMkParent { i: *i as int },
            CreatePhase::NAdd { i } => CreatePhaseV::NAdd { i: *i as int },
            CreatePhase::Submodules => CreatePhaseV::Submodules,
            CreatePhase::JobProbe { j } => CreatePhaseV::JobProbe { j: *j as int },
            CreatePhase::JobAutoExists { j } => CreatePhaseV::JobAutoExists { j: *j as int },
            CreatePhase::JobMkdir { j } => CreatePhaseV::JobMkdir { j: *j as int },
            CreatePhase::JobCopy { j } => CreatePhaseV::JobCopy { j: *j as int },
            CreatePhase::Done => CreatePhaseV::Done,
        }
    }
}

/// The creation of a worktree and its nested worktrees.
pub struct WorktreeCreation {
    b: WorktreeBuilder,
    wt: String,
    branching: BranchCreation,
    walk: NestedWalk,
    subs: SubmoduleSetup,
    jobs: Vec<CopyJob>,
    phase: CreatePhase,
    warnings: Vec<String>,
    outcome: Option<Result<(), Error>>,
}

pub struct WorktreeCreationV {
    pub b: WorktreeBuilderV,
    /// The canonical path of the new worktree.
    pub wt: Seq<char>,
    pub branching: BranchCreationV,
    pub walk: NestedWalkV,
    pub subs: SubmoduleSetupV,
    pub jobs: Seq<CopyJobV>,
    pub phase: CreatePhaseV,
    /// The warnings given so far, in order.
    pub warnings: Seq<Seq<char>>,
    pub outcome: Option<Result<(), ErrorV>>,
}

impl View for WorktreeCreation {
    type V = WorktreeCreationV;

    closed spec fn view(&self) -> WorktreeCreationV {
        WorktreeCreationV {
            b: self.b@,
            wt: self.wt@,
            branching: self.branching@,
            walk: self.walk@,
            subs: self.subs@,
            jobs: job_views(self.jobs@),
            phase: self.phase@,
            warnings: views(self.warnings@),
            outcome: unit_outcome_view(self.outcome),
        }
    }
}

pub open spec fn create_done(m: WorktreeCreationV, o: Result<(), ErrorV>) -> (WorktreeCreationV, StepV) {
    (WorktreeCreationV { phase: CreatePhaseV::Done, outcome: Some(o), ..m }, StepV::Finished)
}

pub open spec fn create_ask(m: WorktreeCreationV, phase: CreatePhaseV, q: RequestV) -> (
    WorktreeCreationV,
    StepV,
) {
    (WorktreeCreationV { phase, ..m }, StepV::Do(q))
}

/// Where the worktree of the `i`-th nested repository goes: the same
/// relative path inside the new worktree.
pub open spec fn nested_target(m: WorktreeCreationV, i: int) -> Seq<char> {
    join_path(m.wt, m.walk.found[i].relative_path)
}

/// The creation with one more warning.
pub open spec fn create_warn(m: WorktreeCreationV, w: Seq<char>) -> WorktreeCreationV {
    WorktreeCreationV { warnings: m.warnings.push(w), ..m }
}

/// The warning given when the leftover directory at the target of the
/// nested repository at `rel` cannot be removed.
pub open spec fn leftover_warning(rel: Seq<char>, e: Seq<char>) -> Seq<char> {
    "Warning: Failed to remove "@ + rel + ": "@ + e
}

/// The warnings `ws` after `git worktree add --detach` for the nested
/// repository at `rel` gave `ran`: one more with git's trimmed error output
/// if it failed, or with the reason if git could not be run.
pub open spec fn nested_add_warnings(
    ws: Seq<Seq<char>>,
    rel: Seq<char>,
    ran: Result<crate::effect::RanV, Seq<char>>,
) -> Seq<Seq<char>> {
    match ran {
        Ok(x) => if x.success {
            ws
        } else {
            ws.push("Warning: Failed to create worktree for "@ + rel + ": "@ + trim(x.stderr))
        },
        Err(e) => ws.push("Warning: Failed to run git for "@ + rel + ": "@ + e),
    }
}

/// The warnings `ws` after the copy named `label` gave `done`: one more
/// with the reason if it failed.
pub open spec fn copy_warnings(ws: Seq<Seq<char>>, label: Seq<char>, done: Result<(), Seq<char>>) -> Seq<
    Seq<char>,
> {
    match done {
        Ok(()) => ws,
        Err(e) => ws.push("Warning: Failed to copy "@ + label + ": "@ + e),
    }
}

/// Run `git worktree add` for the new worktree.
pub open spec fn create_add(m: WorktreeCreationV) -> (WorktreeCreationV, StepV) {
    create_ask(
        m,
        CreatePhaseV::Add,
        RequestV::Git(add_cmd(m.b.repo_path, m.b.worktree_path, m.b.branch_name)),
    )
}

/// Go on with the `j`-th copy, or finish successfully.
pub open spec fn create_next_job(m: WorktreeCreationV, j: int) -> (WorktreeCreationV, StepV) {
    if 0 <= j < m.jobs.len() {
        let job = m.jobs[j];
        create_ask(
            m,
            CreatePhaseV::JobProbe { j },
            if job.kind == CopyKind::File {
                RequestV::Exists(job.src)
            } else {
                RequestV::IsDir(job.src)
            },
        )
    } else {
        create_done(m, Ok(()))
    }
}

/// Make the `j`-th copy as a file: its parent directory first.
pub open spec fn create_job_file(m: WorktreeCreationV, j: int) -> (WorktreeCreationV, StepV) {
    let job = m.jobs[j];
    match parent_path(job.dst) {
        Some(p) => create_ask(m, CreatePhaseV::JobMkdir { j }, RequestV::CreateDirAll(p)),
        None => create_ask(m, CreatePhaseV::JobCopy { j }, RequestV::CopyFile(job.src, job.dst)),
    }
}

/// Start the copies.
pub open spec fn create_start_jobs(m: WorktreeCreationV) -> (WorktreeCreationV, StepV) {
    create_next_job(WorktreeCreationV { jobs: copy_jobs(m.b, m.wt), ..m }, 0)
}

/// After the nested worktrees: the submodules if asked for, then the copies.
pub open spec fn create_after_nested(m: WorktreeCreationV) -> (WorktreeCreationV, StepV) {
    if m.b.init_submodules {
        let (s2, st) = sub_resume(
            sub_start(m.b.repo_path, m.wt, m.b.branch_name, m.b.share_lfs),
            ReplyV::Start,
        );
        (WorktreeCreationV { subs: s2, phase: CreatePhaseV::Submodules, ..m }, st)
    } else {
        create_start_jobs(m)
    }
}

/// Go on with the `i`-th nested repository, or with what follows them.
pub open spec fn create_next_nested(m: WorktreeCreationV, i: int) -> (WorktreeCreationV, StepV) {
    if 0 <= i < m.walk.found.len() {
        create_ask(
            m,
            CreatePhaseV::NListed { i },
            RequestV::Git(worktree_list_cmd(m.walk.found[i].path)),
        )
    } else {
        create_after_nested(m)
    }
}

/// Create the `i`-th nested worktree: its parent directory first.
pub open spec fn create_mk_nested(m: WorktreeCreationV, i: int) -> (WorktreeCreationV, StepV) {
    match parent_path(nested_target(m, i)) {
        Some(p) => create_ask(m, CreatePhaseV::NMkParent { i }, RequestV::CreateDirAll(p)),
        None => create_nested_add(m, i),
    }
}

/// Run `git worktree add --detach` in the `i`-th nested repository.
pub open spec fn create_nested_add(m: WorktreeCreationV, i: int) -> (WorktreeCreationV, StepV) {
    create_ask(
        m,
        CreatePhaseV::NAdd { i },
        RequestV::Git(add_detached_cmd(m.walk.found[i].path, nested_target(m, i))),
    )
}

/// One step of the creation.
///
/// Origin is fetched and the branch created if needed (failures end the
/// creation). If the worktree is already registered, the creation ends
/// successfully without more. Otherwise its parent directory is created and
/// `git worktree add` runs; its failure ends the creation. Every nested
/// repository of the main repository (found with the builder's skip list)
/// that has no registered worktree at its target path (the same relative
/// path inside the new worktree) gets one with `git worktree add --detach`;
/// a leftover directory without `.git` at the target is removed first, and
/// if that fails the repository is passed over with a warning
/// ([`leftover_warning`]); a failure of the add is passed over with a
/// warning ([`nested_add_warnings`]). Then the submodules are set up if
/// asked for, their warnings joining the creation's, and the copies are
/// made, those whose source is missing being passed over and a failed copy
/// giving a warning ([`copy_warnings`]). A failure to
/// create a needed parent directory of a worktree ends the creation with an
/// I/O error.
pub open spec fn create_resume(m: WorktreeCreationV, r: ReplyV) -> (WorktreeCreationV, StepV) {
    match m.phase {
        CreatePhaseV::Begin => create_ask(m, CreatePhaseV::Fetch, RequestV::Git(fetch_cmd(m.b.repo_path))),
        CreatePhaseV::Fetch => match fetch_result(ran_of(r)) {
            Err(e) => create_done(m, Err(e)),
            Ok(()) => {
                let (b2, st) = creation_resume(
                    creation_start(m.b.repo_path, m.b.branch_name, m.b.base_branch),
                    ReplyV::Start,
                );
                (WorktreeCreationV { branching: b2, phase: CreatePhaseV::Branch, ..m }, st)
            },
        },
        CreatePhaseV::Branch => {
            let (b2, st) = creation_resume(m.branching, r);
            match st {
                StepV::Do(q) => (WorktreeCreationV { branching: b2, ..m }, StepV::Do(q)),
                StepV::Finished => match b2.outcome {
                    Some(Err(e)) => create_done(WorktreeCreationV { branching: b2, ..m }, Err(e)),
                    _ => create_ask(
                        WorktreeCreationV { branching: b2, ..m },
                        CreatePhaseV::Listed,
                        RequestV::Git(worktree_list_cmd(m.b.repo_path)),
                    ),
                },
            }
        },
        CreatePhaseV::Listed => match ran_of(r) {
            Err(e) => create_done(m, Err(ErrorV::Io(e))),
            Ok(x) => if worktree_listed(x.stdout, m.b.worktree_path) {
                create_done(m, Ok(()))
            } else {
                match parent_path(m.b.worktree_path) {
                    Some(p) => create_ask(m, CreatePhaseV::MkParent, RequestV::CreateDirAll(p)),
                    None => create_add(m),
                }
            },
        },
        CreatePhaseV::MkParent => match done_of(r) {
            Err(e) => create_done(m, Err(ErrorV::Io(e))),
            Ok(()) => create_add(m),
        },
        CreatePhaseV::Add => match ran_of(r) {
            Err(e) => create_done(m, Err(ErrorV::Io(e))),
            Ok(x) => if x.success {
                create_ask(m, CreatePhaseV::Canon, RequestV::Canonicalize(m.b.worktree_path))
            } else {
                create_done(
                    m,
                    Err(ErrorV::GitCommand("Failed to create worktree at "@ + m.b.worktree_path)),
                )
            },
        },
        CreatePhaseV::Canon => match path_of(r) {
            Err(e) => create_done(m, Err(ErrorV::GitFileRead { path: m.b.worktree_path, source: e })),
            Ok(wt) => {
                let (w2, st) = walk_resume(walk_start(m.b.repo_path, m.b.skip_dirs), ReplyV::Start);
                (WorktreeCreationV { wt, walk: w2, phase: CreatePhaseV::Walk, ..m }, st)
            },
        },
        CreatePhaseV::Walk => {
            let (w2, st) = walk_resume(m.walk, r);
            match st {
                StepV::Do(q) => (WorktreeCreationV { walk: w2, ..m }, StepV::Do(q)),
                StepV::Finished => create_next_nested(WorktreeCreationV { walk: w2, ..m }, 0),
            }
        },
        CreatePhaseV::NListed { i } => if !(0 <= i < m.walk.found.len()) {
            create_next_nested(m, i)
        } else {
            let listed = match ran_of(r) {
                Ok(x) => worktree_listed(x.stdout, nested_target(m, i)),
                Err(_) => false,
            };
            if listed {
                create_next_nested(m, i + 1)
            } else {
                create_ask(m, CreatePhaseV::NExists { i }, RequestV::Exists(nested_target(m, i)))
            }
        },
        CreatePhaseV::NExists { i } => if !(0 <= i < m.walk.found.len()) {
            create_next_nested(m, i)
        } else if flag_of(r) {
            create_ask(
                m,
                CreatePhaseV::NHasGit { i },
                RequestV::Exists(join_path(nested_target(m, i), ".git"@)),
            )
        } else {
            create_mk_nested(m, i)
        },
        CreatePhaseV::NHasGit { i } => if !(0 <= i < m.walk.found.len()) {
            create_next_nested(m, i)
        } else if flag_of(r) {
            create_mk_nested(m, i)
        } else {
            create_ask(m, CreatePhaseV::NRemove { i }, RequestV::RemoveDirAll(nested_target(m, i)))
        },
        CreatePhaseV::NRemove { i } => if !(0 <= i < m.walk.found.len()) {
            create_next_nested(m, i)
        } else {
            match done_of(r) {
                Err(e) => create_next_nested(
                    create_warn(m, leftover_warning(m.walk.found[i].relative_path, e)),
                    i + 1,
                ),
                Ok(()) => create_mk_nested(m, i),
            }
        },
        CreatePhaseV::NMkParent { i } => if !(0 <= i < m.walk.found.len()) {
            create_next_nested(m, i)
        } else {
            match done_of(r) {
                Err(e) => create_done(m, Err(ErrorV::Io(e))),
                Ok(()) => create_nested_add(m, i),
            }
        },
        CreatePhaseV::NAdd { i } => if !(0 <= i < m.walk.found.len()) {
            create_next_nested(m, i)
        } else {
            create_next_nested(
                WorktreeCreationV {
                    warnings: nested_add_warnings(m.warnings, m.walk.found[i].relative_path, ran_of(r)),
                    ..m
                },
                i + 1,
            )
        },
        CreatePhaseV::Submodules => {
            let (s2, st) = sub_resume(m.subs, r);
            match st {
                StepV::Do(q) => (WorktreeCreationV { subs: s2, ..m }, StepV::Do(q)),
                StepV::Finished => match s2.outcome {
                    Some(Err(e)) => create_done(
                        WorktreeCreationV { subs: s2, warnings: m.warnings + s2.warnings, ..m },
                        Err(e),
                    ),
                    _ => create_start_jobs(
                        WorktreeCreationV { subs: s2, warnings: m.warnings + s2.warnings, ..m },
                    ),
                },
            }
        },
        CreatePhaseV::JobProbe { j } => if !(0 <= j < m.jobs.len()) {
            create_next_job(m, j)
        } else {
            let job = m.jobs[j];
            if job.kind == CopyKind::File {
                if flag_of(r) {
                    create_job_file(m, j)
                } else {
                    create_next_job(m, j + 1)
                }
            } else if flag_of(r) {
                create_ask(m, CreatePhaseV::JobCopy { j }, RequestV::CopyDir(job.src, job.dst))
            } else if job.kind == CopyKind::Auto {
                create_ask(m, CreatePhaseV::JobAutoExists { j }, RequestV::Exists(job.src))
            } else {
                create_next_job(m, j + 1)
            }
        },
        CreatePhaseV::JobAutoExists { j } => if !(0 <= j < m.jobs.len()) {
            create_next_job(m, j)
        } else if flag_of(r) {
            create_job_file(m, j)
        } else {
            create_next_job(m, j + 1)
        },
        CreatePhaseV::JobMkdir { j } => if !(0 <= j < m.jobs.len()) {
            create_next_job(m, j)
        } else {
            create_ask(
                m,
                CreatePhaseV::JobCopy { j },
                RequestV::CopyFile(m.jobs[j].src, m.jobs[j].dst),
            )
        },
        CreatePhaseV::JobCopy { j } => if !(0 <= j < m.jobs.len()) {
            create_next_job(m, j)
        } else {
            create_next_job(
                WorktreeCreationV { warnings: copy_warnings(m.warnings, m.jobs[j].label, done_of(r)), ..m },
                j + 1,
            )
        },
        CreatePhaseV::Done => (m, StepV::Finished),
    }
}

} // verus!

verus! {

/// The creation before its first step.
pub open spec fn create_start(b: WorktreeBuilderV) -> WorktreeCreationV {
    WorktreeCreationV {
        b,
        wt: Seq::empty(),
        branching: creation_start(Seq::empty(), Seq::empty(), Seq::empty()),
        walk: walk_start(Seq::empty(), Seq::empty()),
        subs: sub_start(Seq::empty(), Seq::empty(), Seq::empty(), false),
        jobs: Seq::empty(),
        phase: CreatePhaseV::Begin,
        warnings: Seq::empty(),
        outcome: None,
    }
}

impl WorktreeBuilder {
    /// The creation that this builder describes.
    pub fn create(self) -> (m: WorktreeCreation)
        ensures
            m@ == create_start(self@),
    {
        let none: Vec<String> = Vec::new();
        assert(views(none@) =~= Seq::<Seq<char>>::empty());
        let m = WorktreeCreation {
            b: self,
            wt: String::new(),
            branching: create_branch_if_needed(String::new(), String::new(), String::new()),
            walk: NestedWalk::new(String::new(), none),
            subs: setup_submodules(String::new(), String::new(), String::new(), false),
            jobs: Vec::new(),
            phase: CreatePhase::Begin,
            warnings: Vec::new(),
            outcome: None,
        };
        assert(m@.jobs =~= Seq::<CopyJobV>::empty());
        assert(m@.warnings =~= Seq::<Seq<char>>::empty());
        m
    }
}

fn detached_request(repo: &String, target: String) -> (q: Request)
    ensures
        q@ == RequestV::Git(add_detached_cmd(repo@, target@)),
{
    let a = args4(s("worktree"), s("add"), s("--detach"), target);
    Request::Git(git(Place::Cwd(repo.clone()), a, Output::Capture))
}

fn list_request(repo: &String) -> (q: Request)
    ensures
        q@ == RequestV::Git(worktree_list_cmd(repo@)),
{
    let a = crate::effect::args3(s("worktree"), s("list"), s("--porcelain"));
    Request::Git(git(Place::Cwd(repo.clone()), a, Output::Capture))
}

impl WorktreeCreation {
    /// The result, once the creation has finished.
    pub fn outcome(&self) -> (o: &Option<Result<(), Error>>)
        ensures
            unit_outcome_view(*o) == self@.outcome,
    {
        &self.outcome
    }

    /// The result, once the creation has finished.
    pub fn into_outcome(self) -> (o: Option<Result<(), Error>>)
        ensures
            unit_outcome_view(o) == self@.outcome,
    {
        self.outcome
    }

    fn done(&mut self, o: Result<(), Error>) -> (st: Step)
        ensures
            (final(self)@, st@) == create_done(old(self)@, match o {
                Ok(()) => Ok(()),
                Err(e) => Err(e@),
            }),
    {
        self.phase = CreatePhase::Done;
        self.outcome = Some(o);
        Step::Finished
    }

    fn add(&mut self) -> (st: Step)
        ensures
            (final(self)@, st@) == create_add(old(self)@),
    {
        let a = args4(s("worktree"), s("add"), self.b._worktree_path().clone(), self.b._branch_name().clone());
        let q = Request::Git(git(Place::Cwd(self.b._repo_path().clone()), a, Output::Inherit));
        self.phase = CreatePhase::Add;
        Step::Do(q)
    }

    fn target(&self, i: usize) -> (t: String)
        requires
            i < self@.walk.found.len(),
        ensures
            t@ == nested_target(self@, i as int),
    {
        let f = self.walk.found();
        assert(f@[i as int]@ == self@.walk.found[i as int]);
        join(self.wt.as_str(), f[i].relative_path.as_str())
    }

    fn nested_path(&self, i: usize) -> (p: String)
        requires
            i < self@.walk.found.len(),
        ensures
            p@ == self@.walk.found[i as int].path,
    {
        let f = self.walk.found();
        assert(f@[i as int]@ == self@.walk.found[i as int]);
        f[i].path.clone()
    }

    fn nested_rel(&self, i: usize) -> (p: String)
        requires
            i < self@.walk.found.len(),
        ensures
            p@ == self@.walk.found[i as int].relative_path,
    {
        let f = self.walk.found();
        assert(f@[i as int]@ == self@.walk.found[i as int]);
        f[i].relative_path.clone()
    }

    fn warn(&mut self, w: String)
        ensures
            final(self)@ == create_warn(old(self)@, w@),
    {
        let ghost before = self.warnings@;
        self.warnings.push(w);
        assert(views(self.warnings@) =~= views(before).push(w@));
    }

    /// The warnings given so far, in order.
    pub fn warnings(&self) -> (w: &Vec<String>)
        ensures
            views(w@) == self@.warnings,
    {
        &self.warnings
    }

    fn found_len(&self) -> (n: usize)
        ensures
            n == self@.walk.found.len(),
    {
        self.walk.found().len()
    }

    fn next_job(&mut self, j: usize) -> (st: Step)
        ensures
            (final(self)@, st@) == create_next_job(old(self)@, j as int),
    {
        if j < self.jobs.len() {
            let q = if self.jobs[j].kind == CopyKind::File {
                Request::Exists(self.jobs[j].src.clone())
            } else {
                Request::IsDir(self.jobs[j].src.clone())
            };
            self.phase = CreatePhase::JobProbe { j };
            Step::Do(q)
        } else {
            self.done(Ok(()))
        }
    }

    fn job_file(&mut self, j: usize) -> (st: Step)
        requires
            j < old(self)@.jobs.len(),
        ensures
            (final(self)@, st@) == create_job_file(old(self)@, j as int),
    {
        match parent(self.jobs[j].dst.as_str()) {
            Some(p) => {
                self.phase = CreatePhase::JobMkdir { j };
                Step::Do(Request::CreateDirAll(p))
            },
            None => {
                let q = Request::CopyFile(self.jobs[j].src.clone(), self.jobs[j].dst.clone());
                self.phase = CreatePhase::JobCopy { j };
                Step::Do(q)
            },
        }
    }

    fn start_jobs(&mut self) -> (st: Step)
        ensures
            (final(self)@, st@) == create_start_jobs(old(self)@),
    {
        self.jobs = copy_jobs_of(&self.b, &self.wt);
        self.next_job(0)
    }

    fn after_nested(&mut self) -> (st: Step)
        ensures
            (final(self)@, st@) == create_after_nested(old(self)@),
    {
        if self.b._init_submodules() {
            self.subs = setup_submodules(
                self.b._repo_path().clone(),
                self.wt.clone(),
                self.b._branch_name().clone(),
                self.b._share_lfs(),
            );
            let st = self.subs.resume(Reply::Start);
            self.phase = CreatePhase::Submodules;
            st
        } else {
            self.start_jobs()
        }
    }

    fn next_nested(&mut self, i: usize) -> (st: Step)
        ensures
            (final(self)@, st@) == create_next_nested(old(self)@, i as int),
    {
        if i < self.found_len() {
            let q = list_request(&self.nested_path(i));
            self.phase = CreatePhase::NListed { i };
            Step::Do(q)
        } else {
            self.after_nested()
        }
    }

    fn nested_add(&mut self, i: usize) -> (st: Step)
        requires
            i < old(self)@.walk.found.len(),
        ensures
            (final(self)@, st@) == create_nested_add(old(self)@, i as int),
    {
        let q = detached_request(&self.nested_path(i), self.target(i));
        self.phase = CreatePhase::NAdd { i };
        Step::Do(q)
    }

    fn mk_nested(&mut self, i: usize) -> (st: Step)
        requires
            i < old(self)@.walk.found.len(),
        ensures
            (final(self)@, st@) == create_mk_nested(old(self)@, i as int),
    {
        match parent(self.target(i).as_str()) {
            Some(p) => {
                self.phase = CreatePhase::NMkParent { i };
                Step::Do(Request::CreateDirAll(p))
            },
            None => self.nested_add(i),
        }
    }

    /// One step of the creation.
    pub fn resume(&mut self, reply: Reply) -> (st: Step)
        ensures
            (final(self)@, st@) == create_resume(old(self)@, reply@),
    {
        match self.phase {
            CreatePhase::Begin => {
                let a = args2(s("fetch"), s("origin"));
                let q = Request::Git(git(Place::Cwd(self.b._repo_path().clone()), a, Output::Inherit));
                self.phase = CreatePhase::Fetch;
                Step::Do(q)
            },
            CreatePhase::Fetch => match take_ran(reply) {
                Err(e) => self.done(Err(Error::Io(e))),
                Ok(x) => if !x.success {
                    self.done(Err(Error::GitCommand(s("git fetch origin failed"))))
                } else {
                    self.branching = create_branch_if_needed(
                        self.b._repo_path().clone(),
                        self.b._branch_name().clone(),
                        self.b._base_branch().clone(),
                    );
                    let st = self.branching.resume(Reply::Start);
                    self.phase = CreatePhase::Branch;
                    st
                },
            },
            CreatePhase::Branch => {
                let st = self.branching.resume(reply);
                match st {
                    Step::Do(q) => Step::Do(q),
                    Step::Finished => {
                        let failed = match self.branching.outcome() {
                            Some(Err(e)) => Some(crate::remove::clone_error(e)),
                            _ => None,
                        };
                        match failed {
                            Some(e) => self.done(Err(e)),
                            None => {
                                let q = list_request(self.b._repo_path());
                                self.phase = CreatePhase::Listed;
                                Step::Do(q)
                            },
                        }
                    },
                }
            },
            CreatePhase::Listed => match take_ran(reply) {
                Err(e) => self.done(Err(Error::Io(e))),
                Ok(x) => if is_worktree_listed(x.stdout.as_str(), self.b._worktree_path().as_str()) {
                    self.done(Ok(()))
                } else {
                    match parent(self.b._worktree_path().as_str()) {
                        Some(p) => {
                            self.phase = CreatePhase::MkParent;
                            Step::Do(Request::CreateDirAll(p))
                        },
                        None => self.add(),
                    }
                },
            },
            CreatePhase::MkParent => match take_done(reply) {
                Err(e) => self.done(Err(Error::Io(e))),
                Ok(()) => self.add(),
            },
            CreatePhase::Add => match take_ran(reply) {
                Err(e) => self.done(Err(Error::Io(e))),
                Ok(x) => if x.success {
                    let q = Request::Canonicalize(self.b._worktree_path().clone());
                    self.phase = CreatePhase::Canon;
                    Step::Do(q)
                } else {
                    let m = cat("Failed to create worktree at ", self.b._worktree_path().as_str());
                    self.done(Err(Error::GitCommand(m)))
                },
            },
            CreatePhase::Canon => match take_path(reply) {
                Err(e) => {
                    let p = self.b._worktree_path().clone();
                    self.done(Err(Error::GitFileRead { path: p, source: e }))
                },
                Ok(wt) => {
                    self.wt = wt;
                    self.walk = NestedWalk::new(
                        self.b._repo_path().clone(),
                        crate::text::clone_strings(self.b._skip_dirs()),
                    );
                    let st = self.walk.resume(Reply::Start);
                    self.phase = CreatePhase::Walk;
                    st
                },
            },
            CreatePhase::Walk => {
                let st = self.walk.resume(reply);
                match st {
                    Step::Do(q) => Step::Do(q),
                    Step::Finished => self.next_nested(0),
                }
            },
            CreatePhase::NListed { i } => {
                if i >= self.found_len() {
                    self.next_nested(i)
                } else {
                    let t = self.target(i);
                    let listed = match take_ran(reply) {
                        Ok(x) => is_worktree_listed(x.stdout.as_str(), t.as_str()),
                        Err(_) => false,
                    };
                    if listed {
                        self.next_nested(i + 1)
                    } else {
                        self.phase = CreatePhase::NExists { i };
                        Step::Do(Request::Exists(t))
                    }
                }
            },
            CreatePhase::NExists { i } => {
                if i >= self.found_len() {
                    self.next_nested(i)
                } else if take_flag(reply) {
                    let g = join(self.target(i).as_str(), ".git");
                    self.phase = CreatePhase::NHasGit { i };
                    Step::Do(Request::Exists(g))
                } else {
                    self.mk_nested(i)
                }
            },
            CreatePhase::NHasGit { i } => {
                if i >= self.found_len() {
                    self.next_nested(i)
                } else if take_flag(reply) {
                    self.mk_nested(i)
                } else {
                    let t = self.target(i);
                    self.phase = CreatePhase::NRemove { i };
                    Step::Do(Request::RemoveDirAll(t))
                }
            },
            CreatePhase::NRemove { i } => {
                if i >= self.found_len() {
                    self.next_nested(i)
                } else {
                    match take_done(reply) {
                        Err(e) => {
                            let mut w = cat3("Warning: Failed to remove ", self.nested_rel(i).as_str(), ": ");
                            w.append(e.as_str());
                            self.warn(w);
                            self.next_nested(i + 1)
                        },
                        Ok(()) => self.mk_nested(i),
                    }
                }
            },
            CreatePhase::NMkParent { i } => {
                if i >= self.found_len() {
                    self.next_nested(i)
                } else {
                    match take_done(reply) {
                        Err(e) => self.done(Err(Error::Io(e))),
                        Ok(()) => self.nested_add(i),
                    }
                }
            },
            CreatePhase::NAdd { i } => {
                if i >= self.found_len() {
                    self.next_nested(i)
                } else {
                    let rel = self.nested_rel(i);
                    let ran = take_ran(reply);
                    let ghost before = self@;
                    match ran {
                        Ok(x) => if !x.success {
                            let t = trim_str(x.stderr.as_str());
                            let mut w = cat3("Warning: Failed to create worktree for ", rel.as_str(), ": ");
                            w.append(t.as_str());
                            self.warn(w);
                        },
                        Err(e) => {
                            let mut w = cat3("Warning: Failed to run git for ", rel.as_str(), ": ");
                            w.append(e.as_str());
                            self.warn(w);
                        },
                    }
                    assert(self@ == (WorktreeCreationV {
                        warnings: nested_add_warnings(before.warnings, rel@, ran_of(reply@)),
                        ..before
                    }));
                    self.next_nested(i + 1)
                }
            },
            CreatePhase::Submodules => {
                let st = self.subs.resume(reply);
                match st {
                    Step::Do(q) => Step::Do(q),
                    Step::Finished => {
                        let failed = match self.subs.outcome() {
                            Some(Err(e)) => Some(crate::remove::clone_error(e)),
                            _ => None,
                        };
                        extend_strings(&mut self.warnings, self.subs.warnings());
                        match failed {
                            Some(e) => self.done(Err(e)),
                            None => self.start_jobs(),
                        }
                    },
                }
            },
            CreatePhase::JobProbe { j } => {
                if j >= self.jobs.len() {
                    self.next_job(j)
                } else {
                    let flag = take_flag(reply);
                    let kind = self.jobs[j].kind;
                    if kind == CopyKind::File {
                        if flag {
                            self.job_file(j)
                        } else {
                            self.next_job(j + 1)
                        }
                    } else if flag {
                        let q = Request::CopyDir(self.jobs[j].src.clone(), self.jobs[j].dst.clone());
                        self.phase = CreatePhase::JobCopy { j };
                        Step::Do(q)
                    } else if kind == CopyKind::Auto {
                        let q = Request::Exists(self.jobs[j].src.clone());
                        self.phase = CreatePhase::JobAutoExists { j };
                        Step::Do(q)
                    } else {
                        self.next_job(j + 1)
                    }
                }
            },
            CreatePhase::JobAutoExists { j } => {
                if j >= self.jobs.len() {
                    self.next_job(j)
                } else if take_flag(reply) {
                    self.job_file(j)
                } else {
                    self.next_job(j + 1)
                }
            },
            CreatePhase::JobMkdir { j } => {
                if j >= self.jobs.len() {
                    self.next_job(j)
                } else {
                    let q = Request::CopyFile(self.jobs[j].src.clone(), self.jobs[j].dst.clone());
                    self.phase = CreatePhase::JobCopy { j };
                    Step::Do(q)
                }
            },
            CreatePhase::JobCopy { j } => {
                if j >= self.jobs.len() {
                    self.next_job(j)
                } else {
                    let d = take_done(reply);
                    let ghost before = self@;
                    match d {
                        Ok(()) => {},
                        Err(e) => {
                            let mut w = cat3("Warning: Failed to copy ", self.jobs[j].label.as_str(), ": ");
                            w.append(e.as_str());
                            self.warn(w);
                        },
                    }
                    assert(self@ == (WorktreeCreationV {
                        warnings: copy_warnings(before.warnings, before.jobs[j as int].label, done_of(reply@)),
                        ..before
                    }));
                    self.next_job(j + 1)
                }
            },
            CreatePhase::Done => Step::Finished,
        }
    }
}

} // verus!

verus! {

/// Each nested worktree goes to the same relative path inside the new
/// worktree: whenever the creation goes on to add a nested worktree, the
/// command is `git worktree add --detach` run in that nested repository,
/// with the new worktree joined with the repository's relative path as
/// target.
pub proof fn lemma_nested_worktree_at_same_relative_path(m: WorktreeCreationV, r: ReplyV)
    ensures
        ({
            let (m2, st) = create_resume(m, r);
            m2.phase matches CreatePhaseV::NAdd { i } ==> 0 <= i < m2.walk.found.len() && st
                == StepV::Do(
                RequestV::Git(
                    add_detached_cmd(
                        m2.walk.found[i].path,
                        join_path(m2.wt, m2.walk.found[i].relative_path),
                    ),
                ),
            )
        }),
{
}

/// A worktree that is already registered is left as it is: once the main
/// repository's worktree list names its path, the creation finishes
/// successfully without creating anything.
pub proof fn lemma_existing_worktree_untouched(m: WorktreeCreationV, r: ReplyV)
    requires
        m.phase is Listed,
        ran_of(r) matches Ok(x) && worktree_listed(x.stdout, m.b.worktree_path),
    ensures
        create_resume(m, r) == (
            WorktreeCreationV { phase: CreatePhaseV::Done, outcome: Some(Ok(())), ..m },
            StepV::Finished,
        ),
{
}

/// Missing sources are passed over silently: a copy whose source is
/// missing (a file copy whose source does not exist, a directory copy whose
/// source is not a directory, a copy of either kind whose source is
/// neither) makes no copy and goes on with the next one.
pub proof fn lemma_missing_sources_skipped(m: WorktreeCreationV, r: ReplyV, j: int)
    requires
        0 <= j < m.jobs.len(),
        !flag_of(r),
        m.phase == (CreatePhaseV::JobProbe { j }) && m.jobs[j].kind != CopyKind::Auto
            || m.phase == (CreatePhaseV::JobAutoExists { j }),
    ensures
        create_resume(m, r) == create_next_job(m, j + 1),
{
}

/// Every copy lands at its relative path inside the new worktree: file,
/// directory and auto-detected copies come from the same relative path in
/// the main repository; external files come from their absolute source. A
/// warning names a copy by its relative path (a directory's with a trailing
/// `/`), an external file by its source.
pub proof fn lemma_copies_keep_relative_paths(b: WorktreeBuilderV, wt: Seq<char>)
    ensures
        copy_jobs(b, wt).len() == b.copy_files.len() + b.copy_dirs.len() + b.copy_paths.len()
            + b.external_files.len(),
        forall|k: int| 0 <= k < b.copy_files.len() ==> #[trigger] copy_jobs(b, wt)[k] == (CopyJobV {
            kind: CopyKind::File,
            src: join_path(b.repo_path, b.copy_files[k]),
            dst: join_path(wt, b.copy_files[k]),
            label: b.copy_files[k],
        }),
        forall|k: int| 0 <= k < b.copy_dirs.len() ==> #[trigger] copy_jobs(b, wt)[b.copy_files.len() + k]
            == (CopyJobV {
            kind: CopyKind::Dir,
            src: join_path(b.repo_path, b.copy_dirs[k]),
            dst: join_path(wt, b.copy_dirs[k]),
            label: b.copy_dirs[k] + "/"@,
        }),
        forall|k: int| 0 <= k < b.copy_paths.len() ==> #[trigger] copy_jobs(b, wt)[b.copy_files.len()
            + b.copy_dirs.len() + k] == (CopyJobV {
            kind: CopyKind::Auto,
            src: join_path(b.repo_path, b.copy_paths[k]),
            dst: join_path(wt, b.copy_paths[k]),
            label: b.copy_paths[k],
        }),
        forall|k: int| 0 <= k < b.external_files.len() ==> #[trigger] copy_jobs(b, wt)[b.copy_files.len()
            + b.copy_dirs.len() + b.copy_paths.len() + k] == (CopyJobV {
            kind: CopyKind::File,
            src: b.external_files[k].0,
            dst: join_path(wt, b.external_files[k].1),
            label: b.external_files[k].0,
        }),
{
    let a = rel_jobs(b.copy_files, CopyKind::File, b.repo_path, wt);
    let d = rel_jobs(b.copy_dirs, CopyKind::Dir, b.repo_path, wt);
    let p = rel_jobs(b.copy_paths, CopyKind::Auto, b.repo_path, wt);
    let e = external_jobs(b.external_files, wt);
    assert forall|k: int| 0 <= k < b.copy_files.len() implies #[trigger] copy_jobs(b, wt)[k] == a[k] by {}
    assert forall|k: int| 0 <= k < b.copy_dirs.len() implies #[trigger] copy_jobs(b, wt)[b.copy_files.len() + k] == d[k] by {}
    assert forall|k: int| 0 <= k < b.copy_paths.len() implies #[trigger] copy_jobs(b, wt)[b.copy_files.len() + b.copy_dirs.len() + k] == p[k] by {}
    assert forall|k: int| 0 <= k < b.external_files.len() implies #[trigger] copy_jobs(b, wt)[b.copy_files.len() + b.copy_dirs.len() + b.copy_paths.len() + k] == e[k] by {}
}


/// Whether the reply `r` is a worktree list that registers `path`.
pub open spec fn listing_registers(r: ReplyV, path: Seq<char>) -> bool {
    match ran_of(r) {
        Ok(x) => worktree_listed(x.stdout, path),
        Err(_) => false,
    }
}

/// Whether the reply `r` says that git ran and succeeded.
pub open spec fn git_succeeded(r: ReplyV) -> bool {
    match ran_of(r) {
        Ok(x) => x.success,
        Err(_) => false,
    }
}

/// The creation after the replies `rs`, one step each, from `m`.
pub open spec fn create_run(m: WorktreeCreationV, rs: Seq<ReplyV>) -> WorktreeCreationV
    decreases rs.len(),
{
    if rs.len() == 0 {
        m
    } else {
        create_resume(create_run(m, rs.drop_last()), rs.last()).0
    }
}

/// What the creation asked for after the `k`-th reply of `rs`.
pub open spec fn create_request_at(m: WorktreeCreationV, rs: Seq<ReplyV>, k: int) -> StepV {
    create_resume(create_run(m, rs.take(k)), rs[k]).1
}

/// Whether the `k`-th request of the run of `rs` from `m` registered the
/// worktree of `b`: it listed the main repository's worktrees and the next
/// reply registers the worktree path, or it was `git worktree add PATH
/// BRANCH` and the next reply says that git succeeded.
pub open spec fn registration_at(b: WorktreeBuilderV, m: WorktreeCreationV, rs: Seq<ReplyV>, k: int) -> bool {
    &&& 0 <= k && k + 1 < rs.len()
    &&& {
        ||| (create_request_at(m, rs, k) == StepV::Do(RequestV::Git(worktree_list_cmd(b.repo_path)))
            && listing_registers(rs[k + 1], b.worktree_path))
        ||| (create_request_at(m, rs, k) == StepV::Do(
            RequestV::Git(add_cmd(b.repo_path, b.worktree_path, b.branch_name)),
        ) && git_succeeded(rs[k + 1]))
    }
}

/// The phases that come only after the worktree is registered, and a
/// successful end.
pub open spec fn past_registration(m: WorktreeCreationV) -> bool {
    ||| m.phase is Canon
    ||| m.phase is Walk
    ||| m.phase is NListed
    ||| m.phase is NExists
    ||| m.phase is NHasGit
    ||| m.phase is NRemove
    ||| m.phase is NMkParent
    ||| m.phase is NAdd
    ||| m.phase is Submodules
    ||| m.phase is JobProbe
    ||| m.phase is JobAutoExists
    ||| m.phase is JobMkdir
    ||| m.phase is JobCopy
    ||| (m.phase is Done && m.outcome == Some(Ok::<(), ErrorV>(())))
}

/// One step never changes the builder, keeps "finished" and "has an
/// outcome" together, asks for the main worktree list or `git worktree
/// add` exactly on entering the phases that wait for them, and passes a
/// registration only by a listing that registers the worktree or a
/// successful add.
proof fn lemma_create_step(m: WorktreeCreationV, r: ReplyV)
    ensures
        ({
            let (m2, st) = create_resume(m, r);
            &&& m2.b == m.b
            &&& ((m.outcome is Some <==> m.phase is Done) ==> (m2.outcome is Some <==> m2.phase is Done))
            &&& (m2.phase is Listed ==> st == StepV::Do(RequestV::Git(worktree_list_cmd(m.b.repo_path))))
            &&& (m2.phase is Add ==> st == StepV::Do(
                RequestV::Git(add_cmd(m.b.repo_path, m.b.worktree_path, m.b.branch_name)),
            ))
            &&& (past_registration(m2) ==> {
                ||| past_registration(m)
                ||| (m.phase is Listed && listing_registers(r, m.b.worktree_path))
                ||| (m.phase is Add && git_succeeded(r))
            })
        }),
{
}


/// What holds after any run of replies from the start: the builder is
/// unchanged, the creation has an outcome exactly when it is finished, it
/// waits for the main worktree list or for `git worktree add` only right
/// after asking for it, and once past the registration of the worktree, that
/// registration happened in the run.
proof fn lemma_create_run_inv(b: WorktreeBuilderV, rs: Seq<ReplyV>)
    ensures
        ({
            let m0 = create_start(b);
            let m = create_run(m0, rs);
            &&& m.b == b
            &&& (m.outcome is Some <==> m.phase is Done)
            &&& (m.phase is Listed ==> rs.len() >= 1 && create_request_at(m0, rs, rs.len() - 1) == StepV::Do(
                RequestV::Git(worktree_list_cmd(b.repo_path)),
            ))
            &&& (m.phase is Add ==> rs.len() >= 1 && create_request_at(m0, rs, rs.len() - 1) == StepV::Do(
                RequestV::Git(add_cmd(b.repo_path, b.worktree_path, b.branch_name)),
            ))
            &&& (past_registration(m) ==> exists|k: int| #[trigger] registration_at(b, m0, rs, k))
        }),
    decreases rs.len(),
{
    let m0 = create_start(b);
    if rs.len() > 0 {
        let pre = rs.drop_last();
        let r = rs.last();
        lemma_create_run_inv(b, pre);
        let m = create_run(m0, pre);
        lemma_create_step(m, r);
        assert(rs.take(rs.len() - 1) =~= pre);
        assert(rs[rs.len() - 1] == r);
        if past_registration(create_run(m0, rs)) {
            if past_registration(m) {
                let k = choose|k: int| #[trigger] registration_at(b, m0, pre, k);
                assert(rs.take(k) =~= pre.take(k));
                assert(rs[k] == pre[k] && rs[k + 1] == pre[k + 1]);
                assert(registration_at(b, m0, rs, k));
            } else {
                let k = pre.len() - 1;
                assert(rs.take(k) =~= pre.take(k));
                assert(rs[k] == pre[k] && rs[k + 1] == r);
                assert(registration_at(b, m0, rs, k));
            }
        }
    }
}

/// A creation that finishes successfully has its worktree registered: in
/// the run that led there, either the main repository's worktree list
/// registered the worktree path, or `git worktree add PATH BRANCH` ran in
/// the main repository and git reported success.
pub proof fn lemma_success_means_registered(b: WorktreeBuilderV, rs: Seq<ReplyV>)
    requires
        create_run(create_start(b), rs).outcome == Some(Ok::<(), ErrorV>(())),
    ensures
        exists|k: int| #[trigger] registration_at(b, create_start(b), rs, k),
{
    lemma_create_run_inv(b, rs);
}

/// Running the creation again after it succeeded changes nothing: when
/// origin can be fetched, the branch is listed locally and the worktree list
/// registers the worktree path (as git reports them after a successful
/// creation), the creation asks for the fetch, the local branch listing and
/// the worktree list, and then finishes successfully, with no other request
/// and no warning.
pub proof fn lemma_second_creation_only_checks(
    b: WorktreeBuilderV,
    fetched: crate::effect::RanV,
    local: crate::effect::RanV,
    worktrees: crate::effect::RanV,
)
    requires
        fetched.success,
        listed(local.stdout),
        worktree_listed(worktrees.stdout, b.worktree_path),
    ensures
        ({
            let (m1, s1) = create_resume(create_start(b), ReplyV::Start);
            let (m2, s2) = create_resume(m1, ReplyV::Ran(Ok(fetched)));
            let (m3, s3) = create_resume(m2, ReplyV::Ran(Ok(local)));
            let (m4, s4) = create_resume(m3, ReplyV::Ran(Ok(worktrees)));
            &&& s1 == StepV::Do(RequestV::Git(fetch_cmd(b.repo_path)))
            &&& s2 == StepV::Do(RequestV::Git(local_list_cmd(b.repo_path, b.branch_name)))
            &&& s3 == StepV::Do(RequestV::Git(worktree_list_cmd(b.repo_path)))
            &&& s4 == StepV::Finished
            &&& m4.outcome == Some(Ok::<(), ErrorV>(()))
            &&& m4.warnings == Seq::<Seq<char>>::empty()
        }),
{
}

} // verus!
