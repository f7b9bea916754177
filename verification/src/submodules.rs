//! Submodule setup in a new worktree: `git submodule update --init` without
//! LFS smudging, LFS storage shared with the main repository's submodules,
//! and each submodule put on the worktree's branch.

use vstd::prelude::*;
use crate::effect::{
    args2, args3, args4, flag_of, git, path_of, ran_of, s, take_flag, take_path, take_ran,
    GitCommand, GitCommandV, Output, Place, PlaceV, Reply, ReplyV, Request, RequestV, Step, StepV,
};
use crate::error::{Error, ErrorV};
use crate::ops::{
    branch_exists, bool_outcome_view, cmd, probe_resume, probe_start, BranchProbe, BranchProbeV,
    unit_outcome_view,
};
use crate::path::{join, join_path};
use crate::text::{nonempty_lines, nonempty_lines_of, starts_with_char, trim, trim_str, views};

verus! {

/// `git submodule update --init` with `GIT_LFS_SKIP_SMUDGE=1`, run in `wt`,
/// output shown.
pub open spec fn update_cmd(wt: Seq<char>) -> GitCommandV {
    GitCommandV {
        place: PlaceV::Cwd(wt),
        args: seq!["submodule"@, "update"@, "--init"@],
        env: seq![("GIT_LFS_SKIP_SMUDGE"@, "1"@)],
        output: Output::Inherit,
    }
}

/// `git submodule foreach --quiet 'echo $sm_path'`, run in `wt`, output
/// captured: the submodule paths, one per line.
pub open spec fn foreach_cmd(wt: Seq<char>) -> GitCommandV {
    cmd(PlaceV::Cwd(wt), seq!["submodule"@, "foreach"@, "--quiet"@, "echo $sm_path"@], Output::Capture)
}

/// `git config lfs.storage`, run in `dir`, output captured.
pub open spec fn lfs_get_cmd(dir: Seq<char>) -> GitCommandV {
    cmd(PlaceV::Cwd(dir), seq!["config"@, "lfs.storage"@], Output::Capture)
}

/// `git rev-parse --git-dir`, run in `dir`, output captured.
pub open spec fn git_dir_cmd(dir: Seq<char>) -> GitCommandV {
    cmd(PlaceV::Cwd(dir), seq!["rev-parse"@, "--git-dir"@], Output::Capture)
}

/// `git config lfs.storage STORAGE`, run in `dir`, output shown.
pub open spec fn lfs_set_cmd(dir: Seq<char>, storage: Seq<char>) -> GitCommandV {
    cmd(PlaceV::Cwd(dir), seq!["config"@, "lfs.storage"@, storage], Output::Inherit)
}

/// `git lfs checkout`, run in `dir`, output shown.
pub open spec fn lfs_checkout_cmd(dir: Seq<char>) -> GitCommandV {
    cmd(PlaceV::Cwd(dir), seq!["lfs"@, "checkout"@], Output::Inherit)
}

/// `git checkout BRANCH` (or `git checkout -b BRANCH` for a new branch), run
/// in `dir`, output shown.
pub open spec fn checkout_cmd(dir: Seq<char>, branch: Seq<char>, new: bool) -> GitCommandV {
    cmd(
        PlaceV::Cwd(dir),
        if new {
            seq!["checkout"@, "-b"@, branch]
        } else {
            seq!["checkout"@, branch]
        },
        Output::Inherit,
    )
}

enum SubPhase {
    Begin,
    Gitmodules,
    Update,
    Foreach,
    SmExists { i: usize },
    LfsMainExists { i: usize },
    LfsConfig { i: usize },
    LfsRevParse { i: usize },
    LfsCanon { i: usize },
    LfsExists { i: usize, shared: String },
    LfsSetConfig { i: usize },
    LfsCheckout { i: usize },
    Probing { i: usize },
    Checkout { i: usize },
    Done,
}

pub enum SubPhaseV {
    Begin,
    /// Whether the worktree holds `.gitmodules`.
    Gitmodules,
    /// The submodule update.
    Update,
    /// The listing of submodule paths.
    Foreach,
    /// Whether the `i`-th submodule exists in the worktree.
    SmExists { i: int },
    /// Whether it exists in the main repository.
    LfsMainExists { i: int },
    /// Its main copy's configured `lfs.storage`.
    LfsConfig { i: int },
    /// Its main copy's git directory.
    LfsRevParse { i: int },
    /// The canonical form of that git directory.
    LfsCanon { i: int },
    /// Whether the shared storage `shared` exists.
    LfsExists { i: int, shared: Seq<char> },
    /// The worktree copy being pointed at the shared storage.
    LfsSetConfig { i: int },
    /// Its LFS checkout.
    LfsCheckout { i: int },
    /// Whether the branch exists in the worktree copy.
    Probing { i: int },
    /// Its checkout of the branch.
    Checkout { i: int },
    Done,
}

impl View for SubPhase {
    type V = SubPhaseV;

    closed spec fn view(&self) -> SubPhaseV {
        match self {
            SubPhase::Begin => SubPhaseV::Begin,
            SubPhase::Gitmodules => SubPhaseV::Gitmodules,
            SubPhase::Update => SubPhaseV::Update,
            SubPhase::Foreach => SubPhaseV::Foreach,
            SubPhase::SmExists { i } => SubPhaseV::SmExists { i: *i as int },
            SubPhase::LfsMainExists { i } => SubPhaseV::LfsMainExists { i: *i as int },
            SubPhase::LfsConfig { i } => SubPhaseV::LfsConfig { i: *i as int },
            SubPhase::LfsRevParse { i } => SubPhaseV::LfsRevParse { i: *i as int },
            SubPhase::LfsCanon { i } => SubPhaseV::LfsCanon { i: *i as int },
            SubPhase::LfsExists { i, shared } => SubPhaseV::LfsExists { i: *i as int, shared: shared@ },
            SubPhase::LfsSetConfig { i } => SubPhaseV::LfsSetConfig { i: *i as int },
            SubPhase::LfsCheckout { i } => SubPhaseV::LfsCheckout { i: *i as int },
            SubPhase::Probing { i } => SubPhaseV::Probing { i: *i as int },
            SubPhase::Checkout { i } => SubPhaseV::Checkout { i: *i as int },
            SubPhase::Done => SubPhaseV::Done,
        }
    }
}

/// The setup of the submodules of a new worktree.
pub struct SubmoduleSetup {
    repo: String,
    wt: String,
    branch: String,
    share_lfs: bool,
    paths: Vec<String>,
    probe: BranchProbe,
    phase: SubPhase,
    warnings: Vec<String>,
    outcome: Option<Result<(), Error>>,
}

pub struct SubmoduleSetupV {
    /// The main repository.
    pub repo: Seq<char>,
    /// The new worktree.
    pub wt: Seq<char>,
    pub branch: Seq<char>,
    pub share_lfs: bool,
    /// The submodule paths, relative to the worktree.
    pub paths: Seq<Seq<char>>,
    pub probe: BranchProbeV,
    pub phase: SubPhaseV,
    /// The warnings given so far, in order.
    pub warnings: Seq<Seq<char>>,
    pub outcome: Option<Result<(), ErrorV>>,
}

impl View for SubmoduleSetup {
    type V = SubmoduleSetupV;

    closed spec fn view(&self) -> SubmoduleSetupV {
        SubmoduleSetupV {
            repo: self.repo@,
            wt: self.wt@,
            branch: self.branch@,
            share_lfs: self.share_lfs,
            paths: views(self.paths@),
            probe: self.probe@,
            phase: self.phase@,
            warnings: views(self.warnings@),
            outcome: unit_outcome_view(self.outcome),
        }
    }
}

/// The `i`-th submodule in the worktree.
pub open spec fn sm_wt(m: SubmoduleSetupV, i: int) -> Seq<char> {
    join_path(m.wt, m.paths[i])
}

/// The `i`-th submodule in the main repository.
pub open spec fn sm_main(m: SubmoduleSetupV, i: int) -> Seq<char> {
    join_path(m.repo, m.paths[i])
}

/// The warning given when `git submodule update --init` fails.
pub open spec fn init_failed_warning() -> Seq<char> {
    "Warning: Failed to initialize submodules"@
}

fn init_failed_warning_text() -> (w: String)
    ensures
        w@ == init_failed_warning(),
{
    s("Warning: Failed to initialize submodules")
}

pub open spec fn sub_done(m: SubmoduleSetupV, o: Result<(), ErrorV>) -> (SubmoduleSetupV, StepV) {
    (SubmoduleSetupV { phase: SubPhaseV::Done, outcome: Some(o), ..m }, StepV::Finished)
}

pub open spec fn sub_ask(m: SubmoduleSetupV, phase: SubPhaseV, q: RequestV) -> (SubmoduleSetupV, StepV) {
    (SubmoduleSetupV { phase, ..m }, StepV::Do(q))
}

/// Go on with the `i`-th submodule, or finish.
pub open spec fn sub_next(m: SubmoduleSetupV, i: int) -> (SubmoduleSetupV, StepV) {
    if 0 <= i < m.paths.len() {
        sub_ask(m, SubPhaseV::SmExists { i }, RequestV::Exists(sm_wt(m, i)))
    } else {
        sub_done(m, Ok(()))
    }
}

/// Check whether the branch exists in the `i`-th submodule's worktree copy.
pub open spec fn sub_probe(m: SubmoduleSetupV, i: int) -> (SubmoduleSetupV, StepV) {
    let (p2, st) = probe_resume(probe_start(sm_wt(m, i), m.branch), ReplyV::Start);
    (SubmoduleSetupV { probe: p2, phase: SubPhaseV::Probing { i }, ..m }, st)
}

/// The shared LFS storage `shared` was found: check that it exists.
pub open spec fn sub_shared(m: SubmoduleSetupV, i: int, shared: Seq<char>) -> (SubmoduleSetupV, StepV) {
    sub_ask(m, SubPhaseV::LfsExists { i, shared }, RequestV::Exists(shared))
}

/// The git directory that `git rev-parse --git-dir` printed, taken relative
/// to `dir` unless absolute.
pub open spec fn git_dir_in(dir: Seq<char>, printed: Seq<char>) -> Seq<char> {
    let g = trim(printed);
    if g.len() > 0 && g[0] == '/' {
        g
    } else {
        join_path(dir, g)
    }
}

/// One step of the setup.
///
/// Nothing is done without `.gitmodules` in the worktree. Submodules are
/// initialized with LFS smudging off; if that fails, the setup ends
/// successfully without more. For each submodule path that exists in the
/// worktree: when LFS is shared, the storage of the main repository's copy
/// is its configured `lfs.storage` or else `lfs` in its git directory, and
/// if that storage exists the worktree copy is pointed at it and an LFS
/// checkout is run; then the branch is checked out in the worktree copy,
/// created with `-b` unless it exists there locally or on origin. Failures
/// of these per-submodule commands are passed over. A failed update ends the
/// setup successfully with the warning [`init_failed_warning`]. Commands that cannot be
/// run end the setup with an I/O error during the update and listing only.
pub open spec fn sub_resume(m: SubmoduleSetupV, r: ReplyV) -> (SubmoduleSetupV, StepV) {
    match m.phase {
        SubPhaseV::Begin => sub_ask(
            m,
            SubPhaseV::Gitmodules,
            RequestV::Exists(join_path(m.wt, ".gitmodules"@)),
        ),
        SubPhaseV::Gitmodules => if flag_of(r) {
            sub_ask(m, SubPhaseV::Update, RequestV::Git(update_cmd(m.wt)))
        } else {
            sub_done(m, Ok(()))
        },
        SubPhaseV::Update => match ran_of(r) {
            Err(e) => sub_done(m, Err(ErrorV::Io(e))),
            Ok(x) => if x.success {
                sub_ask(m, SubPhaseV::Foreach, RequestV::Git(foreach_cmd(m.wt)))
            } else {
                sub_done(
                    SubmoduleSetupV { warnings: m.warnings.push(init_failed_warning()), ..m },
                    Ok(()),
                )
            },
        },
        SubPhaseV::Foreach => match ran_of(r) {
            Err(e) => sub_done(m, Err(ErrorV::Io(e))),
            Ok(x) => sub_next(SubmoduleSetupV { paths: nonempty_lines(x.stdout), ..m }, 0),
        },
        SubPhaseV::SmExists { i } => if !(0 <= i < m.paths.len()) {
            sub_next(m, i)
        } else if !flag_of(r) {
            sub_next(m, i + 1)
        } else if m.share_lfs {
            sub_ask(m, SubPhaseV::LfsMainExists { i }, RequestV::Exists(sm_main(m, i)))
        } else {
            sub_probe(m, i)
        },
        SubPhaseV::LfsMainExists { i } => if !(0 <= i < m.paths.len()) {
            sub_next(m, i)
        } else if flag_of(r) {
            sub_ask(m, SubPhaseV::LfsConfig { i }, RequestV::Git(lfs_get_cmd(sm_main(m, i))))
        } else {
            sub_probe(m, i)
        },
        SubPhaseV::LfsConfig { i } => if !(0 <= i < m.paths.len()) {
            sub_next(m, i)
        } else {
            match ran_of(r) {
                Err(_) => sub_probe(m, i),
                Ok(x) => if x.success && trim(x.stdout).len() > 0 {
                    sub_shared(m, i, trim(x.stdout))
                } else {
                    sub_ask(m, SubPhaseV::LfsRevParse { i }, RequestV::Git(git_dir_cmd(sm_main(m, i))))
                },
            }
        },
        SubPhaseV::LfsRevParse { i } => if !(0 <= i < m.paths.len()) {
            sub_next(m, i)
        } else {
            match ran_of(r) {
                Ok(x) => if x.success {
                    sub_ask(
                        m,
                        SubPhaseV::LfsCanon { i },
                        RequestV::Canonicalize(git_dir_in(sm_main(m, i), x.stdout)),
                    )
                } else {
                    sub_probe(m, i)
                },
                Err(_) => sub_probe(m, i),
            }
        },
        SubPhaseV::LfsCanon { i } => if !(0 <= i < m.paths.len()) {
            sub_next(m, i)
        } else {
            match path_of(r) {
                Ok(c) => sub_shared(m, i, join_path(c, "lfs"@)),
                Err(_) => sub_probe(m, i),
            }
        },
        SubPhaseV::LfsExists { i, shared } => if !(0 <= i < m.paths.len()) {
            sub_next(m, i)
        } else if flag_of(r) {
            sub_ask(m, SubPhaseV::LfsSetConfig { i }, RequestV::Git(lfs_set_cmd(sm_wt(m, i), shared)))
        } else {
            sub_probe(m, i)
        },
        SubPhaseV::LfsSetConfig { i } => if !(0 <= i < m.paths.len()) {
            sub_next(m, i)
        } else {
            sub_ask(m, SubPhaseV::LfsCheckout { i }, RequestV::Git(lfs_checkout_cmd(sm_wt(m, i))))
        },
        SubPhaseV::LfsCheckout { i } => if !(0 <= i < m.paths.len()) {
            sub_next(m, i)
        } else {
            sub_probe(m, i)
        },
        SubPhaseV::Probing { i } => if !(0 <= i < m.paths.len()) {
            sub_next(m, i)
        } else {
            let (p2, st) = probe_resume(m.probe, r);
            match st {
                StepV::Do(q) => (SubmoduleSetupV { probe: p2, ..m }, StepV::Do(q)),
                StepV::Finished => {
                    let exists = match p2.outcome {
                        Some(Ok(b)) => b,
                        _ => false,
                    };
                    sub_ask(
                        SubmoduleSetupV { probe: p2, ..m },
                        SubPhaseV::Checkout { i },
                        RequestV::Git(checkout_cmd(sm_wt(m, i), m.branch, !exists)),
                    )
                },
            }
        },
        SubPhaseV::Checkout { i } => if !(0 <= i < m.paths.len()) {
            sub_next(m, i)
        } else {
            sub_next(m, i + 1)
        },
        SubPhaseV::Done => (m, StepV::Finished),
    }
}

/// The setup before its first step.
pub open spec fn sub_start(repo: Seq<char>, wt: Seq<char>, branch: Seq<char>, share_lfs: bool) -> SubmoduleSetupV {
    SubmoduleSetupV {
        repo,
        wt,
        branch,
        share_lfs,
        paths: Seq::empty(),
        probe: probe_start(Seq::empty(), Seq::empty()),
        phase: SubPhaseV::Begin,
        warnings: Seq::empty(),
        outcome: None,
    }
}

/// The submodule setup of the worktree `worktree_path` of the repository
/// `repo_path`, putting submodules on `branch_name`.
pub fn setup_submodules(repo_path: String, worktree_path: String, branch_name: String, share_lfs: bool) -> (m:
    SubmoduleSetup)
    ensures
        m@ == sub_start(repo_path@, worktree_path@, branch_name@, share_lfs),
{
    let m = SubmoduleSetup {
        repo: repo_path,
        wt: worktree_path,
        branch: branch_name,
        share_lfs,
        paths: Vec::new(),
        probe: branch_exists(String::new(), String::new()),
        phase: SubPhase::Begin,
        warnings: Vec::new(),
        outcome: None,
    };
    assert(m@.paths =~= Seq::<Seq<char>>::empty());
    assert(m@.warnings =~= Seq::<Seq<char>>::empty());
    m
}

fn cwd_git(dir: String, args: Vec<String>, output: Output) -> (q: Request)
    ensures
        q@ == RequestV::Git(cmd(PlaceV::Cwd(dir@), views(args@), output)),
{
    Request::Git(git(Place::Cwd(dir), args, output))
}

impl SubmoduleSetup {
    /// The result, once the setup has finished.
    pub fn into_outcome(self) -> (o: Option<Result<(), Error>>)
        ensures
            unit_outcome_view(o) == self@.outcome,
    {
        self.outcome
    }

    /// The result, once the setup has finished.
    pub fn outcome(&self) -> (o: &Option<Result<(), Error>>)
        ensures
            unit_outcome_view(*o) == self@.outcome,
    {
        &self.outcome
    }

    /// The warnings given so far, in order.
    pub fn warnings(&self) -> (w: &Vec<String>)
        ensures
            views(w@) == self@.warnings,
    {
        &self.warnings
    }

    fn done(&mut self, o: Result<(), Error>) -> (st: Step)
        ensures
            (final(self)@, st@) == sub_done(old(self)@, match o {
                Ok(()) => Ok(()),
                Err(e) => Err(e@),
            }),
    {
        self.phase = SubPhase::Done;
        self.outcome = Some(o);
        Step::Finished
    }

    fn sm_wt_path(&self, i: usize) -> (p: String)
        requires
            i < self@.paths.len(),
        ensures
            p@ == sm_wt(self@, i as int),
    {
        join(self.wt.as_str(), self.paths[i].as_str())
    }

    fn sm_main_path(&self, i: usize) -> (p: String)
        requires
            i < self@.paths.len(),
        ensures
            p@ == sm_main(self@, i as int),
    {
        join(self.repo.as_str(), self.paths[i].as_str())
    }

    fn next(&mut self, i: usize) -> (st: Step)
        ensures
            (final(self)@, st@) == sub_next(old(self)@, i as int),
    {
        if i < self.paths.len() {
            let q = Request::Exists(self.sm_wt_path(i));
            self.phase = SubPhase::SmExists { i };
            Step::Do(q)
        } else {
            self.done(Ok(()))
        }
    }

    fn probe(&mut self, i: usize) -> (st: Step)
        requires
            i < old(self)@.paths.len(),
        ensures
            (final(self)@, st@) == sub_probe(old(self)@, i as int),
    {
        let p = self.sm_wt_path(i);
        self.probe = branch_exists(p, self.branch.clone());
        let st = self.probe.resume(Reply::Start);
        self.phase = SubPhase::Probing { i };
        st
    }

    fn shared(&mut self, i: usize, shared: String) -> (st: Step)
        ensures
            (final(self)@, st@) == sub_shared(old(self)@, i as int, shared@),
    {
        let q = Request::Exists(shared.clone());
        self.phase = SubPhase::LfsExists { i, shared };
        Step::Do(q)
    }

    /// One step of the setup.
    pub fn resume(&mut self, reply: Reply) -> (st: Step)
        ensures
            (final(self)@, st@) == sub_resume(old(self)@, reply@),
    {
        match &self.phase {
            SubPhase::Begin => {
                let q = Request::Exists(join(self.wt.as_str(), ".gitmodules"));
                self.phase = SubPhase::Gitmodules;
                Step::Do(q)
            },
            SubPhase::Gitmodules => {
                if take_flag(reply) {
                    let mut env: Vec<(String, String)> = Vec::new();
                    env.push((s("GIT_LFS_SKIP_SMUDGE"), s("1")));
                    let c = GitCommand {
                        place: Place::Cwd(self.wt.clone()),
                        args: args3(s("submodule"), s("update"), s("--init")),
                        env,
                        output: Output::Inherit,
                    };
                    assert(c@.env =~= seq![("GIT_LFS_SKIP_SMUDGE"@, "1"@)]);
                    self.phase = SubPhase::Update;
                    Step::Do(Request::Git(c))
                } else {
                    self.done(Ok(()))
                }
            },
            SubPhase::Update => match take_ran(reply) {
                Err(e) => self.done(Err(Error::Io(e))),
                Ok(x) => if x.success {
                    let a = args4(s("submodule"), s("foreach"), s("--quiet"), s("echo $sm_path"));
                    let q = cwd_git(self.wt.clone(), a, Output::Capture);
                    self.phase = SubPhase::Foreach;
                    Step::Do(q)
                } else {
                    let ghost before = self.warnings@;
                    self.warnings.push(init_failed_warning_text());
                    proof {
                        assert(views(self.warnings@) =~= views(before).push(init_failed_warning()));
                    }
                    self.done(Ok(()))
                },
            },
            SubPhase::Foreach => match take_ran(reply) {
                Err(e) => self.done(Err(Error::Io(e))),
                Ok(x) => {
                    self.paths = nonempty_lines_of(x.stdout.as_str());
                    self.next(0)
                },
            },
            SubPhase::SmExists { i } => {
                let i = *i;
                if i >= self.paths.len() {
                    self.next(i)
                } else if !take_flag(reply) {
                    self.next(i + 1)
                } else if self.share_lfs {
                    let q = Request::Exists(self.sm_main_path(i));
                    self.phase = SubPhase::LfsMainExists { i };
                    Step::Do(q)
                } else {
                    self.probe(i)
                }
            },
            SubPhase::LfsMainExists { i } => {
                let i = *i;
                if i >= self.paths.len() {
                    self.next(i)
                } else if take_flag(reply) {
                    let q = cwd_git(self.sm_main_path(i), args2(s("config"), s("lfs.storage")), Output::Capture);
                    self.phase = SubPhase::LfsConfig { i };
                    Step::Do(q)
                } else {
                    self.probe(i)
                }
            },
            SubPhase::LfsConfig { i } => {
                let i = *i;
                if i >= self.paths.len() {
                    self.next(i)
                } else {
                    match take_ran(reply) {
                        Err(_) => self.probe(i),
                        Ok(x) => {
                            let t = trim_str(x.stdout.as_str());
                            if x.success && t.as_str().unicode_len() > 0 {
                                self.shared(i, t)
                            } else {
                                let q = cwd_git(self.sm_main_path(i), args2(s("rev-parse"), s("--git-dir")), Output::Capture);
                                self.phase = SubPhase::LfsRevParse { i };
                                Step::Do(q)
                            }
                        },
                    }
                }
            },
            SubPhase::LfsRevParse { i } => {
                let i = *i;
                if i >= self.paths.len() {
                    self.next(i)
                } else {
                    match take_ran(reply) {
                        Ok(x) => if x.success {
                            let g = trim_str(x.stdout.as_str());
                            let gd = if starts_with_char(g.as_str(), '/') {
                                g
                            } else {
                                join(self.sm_main_path(i).as_str(), g.as_str())
                            };
                            self.phase = SubPhase::LfsCanon { i };
                            Step::Do(Request::Canonicalize(gd))
                        } else {
                            self.probe(i)
                        },
                        Err(_) => self.probe(i),
                    }
                }
            },
            SubPhase::LfsCanon { i } => {
                let i = *i;
                if i >= self.paths.len() {
                    self.next(i)
                } else {
                    match take_path(reply) {
                        Ok(c) => {
                            let sh = join(c.as_str(), "lfs");
                            self.shared(i, sh)
                        },
                        Err(_) => self.probe(i),
                    }
                }
            },
            SubPhase::LfsExists { i, shared } => {
                let i = *i;
                let shared = shared.clone();
                if i >= self.paths.len() {
                    self.next(i)
                } else if take_flag(reply) {
                    let q = cwd_git(self.sm_wt_path(i), args3(s("config"), s("lfs.storage"), shared), Output::Inherit);
                    self.phase = SubPhase::LfsSetConfig { i };
                    Step::Do(q)
                } else {
                    self.probe(i)
                }
            },
            SubPhase::LfsSetConfig { i } => {
                let i = *i;
                if i >= self.paths.len() {
                    self.next(i)
                } else {
                    let q = cwd_git(self.sm_wt_path(i), args2(s("lfs"), s("checkout")), Output::Inherit);
                    self.phase = SubPhase::LfsCheckout { i };
                    Step::Do(q)
                }
            },
            SubPhase::LfsCheckout { i } => {
                let i = *i;
                if i >= self.paths.len() {
                    self.next(i)
                } else {
                    self.probe(i)
                }
            },
            SubPhase::Probing { i } => {
                let i = *i;
                if i >= self.paths.len() {
                    self.next(i)
                } else {
                    let st = self.probe.resume(reply);
                    match st {
                        Step::Do(q) => Step::Do(q),
                        Step::Finished => {
                            let exists = match self.probe.outcome() {
                                Some(Ok(b)) => *b,
                                _ => false,
                            };
                            let a = if exists {
                                args2(s("checkout"), self.branch.clone())
                            } else {
                                args3(s("checkout"), s("-b"), self.branch.clone())
                            };
                            let q = cwd_git(self.sm_wt_path(i), a, Output::Inherit);
                            self.phase = SubPhase::Checkout { i };
                            Step::Do(q)
                        },
                    }
                }
            },
            SubPhase::Checkout { i } => {
                let i = *i;
                if i >= self.paths.len() {
                    self.next(i)
                } else {
                    self.next(i + 1)
                }
            },
            SubPhase::Done => Step::Finished,
        }
    }
}


/// Each submodule is put on the worktree's branch: once the probe for the
/// branch in the `i`-th submodule's worktree copy has finished, the next
/// request is `git checkout BRANCH` in that copy when the probe found the
/// branch (locally or on origin), and `git checkout -b BRANCH` there
/// otherwise, so that the branch is created.
pub proof fn lemma_submodule_put_on_branch(m: SubmoduleSetupV, i: int, r: ReplyV)
    requires
        m.phase == (SubPhaseV::Probing { i }),
        0 <= i < m.paths.len(),
        probe_resume(m.probe, r).1 is Finished,
    ensures
        ({
            let found = probe_resume(m.probe, r).0.outcome == Some(Ok::<bool, ErrorV>(true));
            let dir = join_path(m.wt, m.paths[i]);
            &&& found ==> sub_resume(m, r).1 == StepV::Do(
                RequestV::Git(cmd(PlaceV::Cwd(dir), seq!["checkout"@, m.branch], Output::Inherit)),
            )
            &&& !found ==> sub_resume(m, r).1 == StepV::Do(
                RequestV::Git(cmd(PlaceV::Cwd(dir), seq!["checkout"@, "-b"@, m.branch], Output::Inherit)),
            )
        }),
{
}


/// The branch is looked for in the submodule's worktree copy: whenever the
/// setup starts probing the `i`-th submodule, its request is `git branch
/// --list BRANCH` run in that submodule's directory inside the worktree.
pub proof fn lemma_submodule_probe_in_worktree_copy(m: SubmoduleSetupV, r: ReplyV, i: int)
    ensures
        ({
            let (m2, st) = sub_resume(m, r);
            (m2.phase == (SubPhaseV::Probing { i }) && !(m.phase is Probing)) ==> st == StepV::Do(
                RequestV::Git(
                    cmd(PlaceV::Cwd(join_path(m.wt, m.paths[i])), seq!["branch"@, "--list"@, m.branch], Output::Capture),
                ),
            )
        }),
{
}

} // verus!
