//! The decisions of the `git-recworktree` command: `add` and `remove`.

use vstd::prelude::*;
use crate::builder::{builder_start, with_config, WorktreeBuilder, WorktreeBuilderV};
use crate::config::{config_resume, config_start, ConfigLoad, ConfigLoadV, RepoConfig};
use crate::create::{create_resume, create_start, WorktreeCreation, WorktreeCreationV};
use crate::effect::{
    args3, flag_of, git, path_of, ran_of, s, take_flag, take_path, take_ran, Output, Place, PlaceV,
    Reply, ReplyV, Request, RequestV, Step, StepV,
};
use crate::error::{error_message, Error, ErrorV};
use crate::info::{info_resume, info_start, InfoLookup, InfoLookupV, WorktreeInfoV};
use crate::ops::{cmd, delete_branch, single_resume, single_start, SingleCommand, SingleCommandV, SingleKindV};
use crate::path::{join, join_path, parent, parent_path};
use crate::remove::{remove_worktree, removal_resume, removal_start, WorktreeRemoval, WorktreeRemovalV};
use crate::text::{cat, trim, trim_str, views};

verus! {

/// What `git recworktree add` was asked.
pub struct AddOptions {
    /// Branch name for the new worktree.
    pub branch: String,
    /// Path to the main repository.
    pub repo: String,
    /// Base ref to branch from if the branch does not exist.
    pub base: String,
    /// Directory where the worktree will be created (default: beside the
    /// repository).
    pub directory: Option<String>,
    pub copy_files: Vec<String>,
    pub copy_dirs: Vec<String>,
    pub skip_dirs: Vec<String>,
    pub no_lfs_share: bool,
    pub no_submodules: bool,
    /// Do not read `recworktree.*` values from git config.
    pub no_config: bool,
}

pub struct AddOptionsV {
    pub branch: Seq<char>,
    pub repo: Seq<char>,
    pub base: Seq<char>,
    pub directory: Option<Seq<char>>,
    pub copy_files: Seq<Seq<char>>,
    pub copy_dirs: Seq<Seq<char>>,
    pub skip_dirs: Seq<Seq<char>>,
    pub no_lfs_share: bool,
    pub no_submodules: bool,
    pub no_config: bool,
}

impl View for AddOptions {
    type V = AddOptionsV;

    open spec fn view(&self) -> AddOptionsV {
        AddOptionsV {
            branch: self.branch@,
            repo: self.repo@,
            base: self.base@,
            directory: match self.directory {
                Some(d) => Some(d@),
                None => None,
            },
            copy_files: views(self.copy_files@),
            copy_dirs: views(self.copy_dirs@),
            skip_dirs: views(self.skip_dirs@),
            no_lfs_share: self.no_lfs_share,
            no_submodules: self.no_submodules,
            no_config: self.no_config,
        }
    }
}

/// The directory that holds the new worktree: the one given, else the
/// parent of the (canonical) repository, else `.`.
pub open spec fn worktree_dir(repo: Seq<char>, directory: Option<Seq<char>>) -> Seq<char> {
    match directory {
        Some(d) => d,
        None => match parent_path(repo) {
            Some(p) => p,
            None => "."@,
        },
    }
}

/// The path of the new worktree: the branch name inside the worktree
/// directory.
pub open spec fn worktree_path_for(repo: Seq<char>, directory: Option<Seq<char>>, branch: Seq<char>) -> Seq<char> {
    join_path(worktree_dir(repo, directory), branch)
}

/// The path of the new worktree (see [`worktree_path_for`]).
pub fn default_worktree_path(repo: &str, directory: &Option<String>, branch: &str) -> (p: String)
    ensures
        p@ == worktree_path_for(repo@, match directory {
            Some(d) => Some(d@),
            None => None,
        }, branch@),
{
    let dir = match directory {
        Some(d) => d.clone(),
        None => match parent(repo) {
            Some(p) => p,
            None => s("."),
        },
    };
    join(dir.as_str(), branch)
}

/// The builder that the options describe: the options given on the command
/// line over the defaults (skip names added to the default list).
pub open spec fn cli_builder(o: AddOptionsV, repo: Seq<char>, wt_path: Seq<char>) -> WorktreeBuilderV {
    WorktreeBuilderV {
        base_branch: o.base,
        copy_files: o.copy_files,
        copy_dirs: o.copy_dirs,
        skip_dirs: crate::default_skips() + o.skip_dirs,
        share_lfs: !o.no_lfs_share,
        init_submodules: !o.no_submodules,
        ..builder_start(repo, wt_path, o.branch)
    }
}

/// The builder that the options describe (see [`cli_builder`]).
pub fn builder_for(o: &AddOptions, repo: String, wt_path: String) -> (b: WorktreeBuilder)
    ensures
        b@ == cli_builder(o@, repo@, wt_path@),
{
    let mut b = WorktreeBuilder::new(repo, wt_path, o.branch.clone()).base_branch(o.base.clone());
    let ghost b0 = b@;
    let mut i: usize = 0;
    assert(views(o.copy_files@).subrange(0, 0) =~= b0.copy_files);
    while i < o.copy_files.len()
        invariant
            i <= o.copy_files@.len(),
            b@ == (WorktreeBuilderV { copy_files: views(o.copy_files@).subrange(0, i as int), ..b0 }),
        decreases o.copy_files.len() - i,
    {
        b = b.copy_file(o.copy_files[i].clone());
        assert(views(o.copy_files@).subrange(0, i + 1) =~= views(o.copy_files@).subrange(0, i as int).push(o.copy_files@[i as int]@));
        i = i + 1;
    }
    assert(views(o.copy_files@).subrange(0, o.copy_files@.len() as int) =~= views(o.copy_files@));
    let ghost b1 = b@;
    let mut i: usize = 0;
    assert(views(o.copy_dirs@).subrange(0, 0) =~= b1.copy_dirs);
    while i < o.copy_dirs.len()
        invariant
            i <= o.copy_dirs@.len(),
            b@ == (WorktreeBuilderV { copy_dirs: views(o.copy_dirs@).subrange(0, i as int), ..b1 }),
        decreases o.copy_dirs.len() - i,
    {
        b = b.copy_dir(o.copy_dirs[i].clone());
        assert(views(o.copy_dirs@).subrange(0, i + 1) =~= views(o.copy_dirs@).subrange(0, i as int).push(o.copy_dirs@[i as int]@));
        i = i + 1;
    }
    assert(views(o.copy_dirs@).subrange(0, o.copy_dirs@.len() as int) =~= views(o.copy_dirs@));
    let ghost b2 = b@;
    let mut i: usize = 0;
    assert(b2.skip_dirs + views(o.skip_dirs@).subrange(0, 0) =~= b2.skip_dirs);
    while i < o.skip_dirs.len()
        invariant
            i <= o.skip_dirs@.len(),
            b@ == (WorktreeBuilderV { skip_dirs: b2.skip_dirs + views(o.skip_dirs@).subrange(0, i as int), ..b2 }),
        decreases o.skip_dirs.len() - i,
    {
        b = b.skip_dir(o.skip_dirs[i].clone());
        assert(b2.skip_dirs + views(o.skip_dirs@).subrange(0, i + 1) =~= (b2.skip_dirs + views(o.skip_dirs@).subrange(0, i as int)).push(o.skip_dirs@[i as int]@));
        i = i + 1;
    }
    assert(views(o.skip_dirs@).subrange(0, o.skip_dirs@.len() as int) =~= views(o.skip_dirs@));
    if o.no_lfs_share {
        b = b.share_lfs(false);
    }
    if o.no_submodules {
        b = b.init_submodules(false);
    }
    b
}

/// Whether a branch named by `git rev-parse --abbrev-ref HEAD` is deleted
/// after removal: not a detached `HEAD`, not empty.
pub open spec fn deletable(branch: Seq<char>) -> bool {
    branch != "HEAD"@ && branch.len() > 0
}

/// Whether a branch named by `git rev-parse --abbrev-ref HEAD` is deleted
/// after removal.
pub fn should_delete_branch(branch: &String) -> (b: bool)
    ensures
        b == deletable(branch@),
{
    let head = s("HEAD");
    *branch != head && branch.as_str().unicode_len() > 0
}

} // verus!

verus! {

enum AddPhase {
    Begin,
    RepoExists,
    Canon,
    Config,
    Create,
    Done,
}

pub enum AddPhaseV {
    Begin,
    /// Whether the repository path exists.
    RepoExists,
    /// Its canonical form.
    Canon,
    /// The loading of the repository's configuration is under way.
    Config,
    /// The creation is under way.
    Create,
    Done,
}

impl View for AddPhase {
    type V = AddPhaseV;

    closed spec fn view(&self) -> AddPhaseV {
        match self {
            AddPhase::Begin => AddPhaseV::Begin,
            AddPhase::RepoExists => AddPhaseV::RepoExists,
            AddPhase::Canon => AddPhaseV::Canon,
            AddPhase::Config => AddPhaseV::Config,
            AddPhase::Create => AddPhaseV::Create,
            AddPhase::Done => AddPhaseV::Done,
        }
    }
}

/// `git recworktree add`.
pub struct AddCommand {
    opts: AddOptions,
    repo: String,
    wt_path: String,
    config: ConfigLoad,
    creation: WorktreeCreation,
    phase: AddPhase,
    outcome: Option<Result<String, String>>,
}

pub struct AddCommandV {
    pub opts: AddOptionsV,
    /// The canonical repository path.
    pub repo: Seq<char>,
    /// The path of the new worktree.
    pub wt_path: Seq<char>,
    pub config: ConfigLoadV,
    pub creation: WorktreeCreationV,
    pub phase: AddPhaseV,
    /// The worktree path on success, or the message of the failure.
    pub outcome: Option<Result<Seq<char>, Seq<char>>>,
}

impl View for AddCommand {
    type V = AddCommandV;

    closed spec fn view(&self) -> AddCommandV {
        AddCommandV {
            opts: self.opts@,
            repo: self.repo@,
            wt_path: self.wt_path@,
            config: self.config@,
            creation: self.creation@,
            phase: self.phase@,
            outcome: match self.outcome {
                Some(r) => Some(crate::effect::str_result_view(r)),
                None => None,
            },
        }
    }
}

pub open spec fn add_done(m: AddCommandV, o: Result<Seq<char>, Seq<char>>) -> (AddCommandV, StepV) {
    (AddCommandV { phase: AddPhaseV::Done, outcome: Some(o), ..m }, StepV::Finished)
}

/// Start the creation that `b` describes.
pub open spec fn add_start_create(m: AddCommandV, b: WorktreeBuilderV) -> (AddCommandV, StepV) {
    let (c2, st) = create_resume(create_start(b), ReplyV::Start);
    (AddCommandV { creation: c2, phase: AddPhaseV::Create, ..m }, st)
}

/// One step of `add`: the repository must exist (else the failure is "repo
/// not found: REPO"); its canonical path gives the worktree path; unless
/// told not to, the repository's configuration is loaded and layered over
/// the command line's options; then the worktree is created. Failures are
/// reported by their message.
pub open spec fn add_resume(m: AddCommandV, r: ReplyV) -> (AddCommandV, StepV) {
    match m.phase {
        AddPhaseV::Begin => (
            AddCommandV { phase: AddPhaseV::RepoExists, ..m },
            StepV::Do(RequestV::Exists(m.opts.repo)),
        ),
        AddPhaseV::RepoExists => if flag_of(r) {
            (AddCommandV { phase: AddPhaseV::Canon, ..m }, StepV::Do(RequestV::Canonicalize(m.opts.repo)))
        } else {
            add_done(m, Err("repo not found: "@ + m.opts.repo))
        },
        AddPhaseV::Canon => match path_of(r) {
            Err(e) => add_done(m, Err(e)),
            Ok(repo) => {
                let wt_path = worktree_path_for(repo, m.opts.directory, m.opts.branch);
                let m1 = AddCommandV { repo, wt_path, ..m };
                if m.opts.no_config {
                    add_start_create(m1, cli_builder(m.opts, repo, wt_path))
                } else {
                    let (c2, st) = config_resume(config_start(repo), ReplyV::Start);
                    (AddCommandV { config: c2, phase: AddPhaseV::Config, ..m1 }, st)
                }
            },
        },
        AddPhaseV::Config => {
            let (c2, st) = config_resume(m.config, r);
            match st {
                StepV::Do(q) => (AddCommandV { config: c2, ..m }, StepV::Do(q)),
                StepV::Finished => match c2.outcome {
                    Some(Ok(cfg)) => add_start_create(
                        AddCommandV { config: c2, ..m },
                        with_config(cli_builder(m.opts, m.repo, m.wt_path), cfg),
                    ),
                    Some(Err(e)) => add_done(AddCommandV { config: c2, ..m }, Err(error_message(e))),
                    None => add_done(AddCommandV { config: c2, ..m }, Err(Seq::empty())),
                },
            }
        },
        AddPhaseV::Create => {
            let (c2, st) = create_resume(m.creation, r);
            match st {
                StepV::Do(q) => (AddCommandV { creation: c2, ..m }, StepV::Do(q)),
                StepV::Finished => match c2.outcome {
                    Some(Err(e)) => add_done(AddCommandV { creation: c2, ..m }, Err(error_message(e))),
                    _ => add_done(AddCommandV { creation: c2, ..m }, Ok(m.wt_path)),
                },
            }
        },
        AddPhaseV::Done => (m, StepV::Finished),
    }
}

/// The options with every text and list empty, no directory and every switch off.
pub open spec fn empty_options_view() -> AddOptionsV {
    AddOptionsV {
        branch: Seq::empty(),
        repo: Seq::empty(),
        base: Seq::empty(),
        directory: None,
        copy_files: Seq::empty(),
        copy_dirs: Seq::empty(),
        skip_dirs: Seq::empty(),
        no_lfs_share: false,
        no_submodules: false,
        no_config: false,
    }
}

fn empty_options() -> (o: AddOptions)
    ensures
        o@ == empty_options_view(),
{
    let o = AddOptions {
        branch: String::new(),
        repo: String::new(),
        base: String::new(),
        directory: None,
        copy_files: Vec::new(),
        copy_dirs: Vec::new(),
        skip_dirs: Vec::new(),
        no_lfs_share: false,
        no_submodules: false,
        no_config: false,
    };
    assert(views(o.copy_files@) =~= Seq::<Seq<char>>::empty());
    assert(views(o.copy_dirs@) =~= Seq::<Seq<char>>::empty());
    assert(views(o.skip_dirs@) =~= Seq::<Seq<char>>::empty());
    assert(o@ =~= empty_options_view());
    o
}

/// `add` before its first step.
pub open spec fn add_start(opts: AddOptionsV) -> AddCommandV {
    AddCommandV {
        opts,
        repo: Seq::empty(),
        wt_path: Seq::empty(),
        config: config_start(Seq::empty()),
        creation: create_start(builder_start(Seq::empty(), Seq::empty(), Seq::empty())),
        phase: AddPhaseV::Begin,
        outcome: None,
    }
}

impl AddCommand {
    /// `git recworktree add` with these options.
    pub fn new(opts: AddOptions) -> (m: AddCommand)
        ensures
            m@ == add_start(opts@),
    {
        AddCommand {
            opts,
            repo: String::new(),
            wt_path: String::new(),
            config: RepoConfig::load(String::new()),
            creation: WorktreeBuilder::new(String::new(), String::new(), String::new()).create(),
            phase: AddPhase::Begin,
            outcome: None,
        }
    }

    /// The warnings of the creation so far, in order.
    pub fn warnings(&self) -> (w: &Vec<String>)
        ensures
            views(w@) == self@.creation.warnings,
    {
        self.creation.warnings()
    }

    /// The result, once finished: the worktree path, or the failure's
    /// message.
    pub fn into_outcome(self) -> (o: Option<Result<String, String>>)
        ensures
            match o {
                Some(r) => self@.outcome == Some(crate::effect::str_result_view(r)),
                None => self@.outcome is None,
            },
    {
        self.outcome
    }

    fn done(&mut self, o: Result<String, String>) -> (st: Step)
        ensures
            (final(self)@, st@) == add_done(old(self)@, crate::effect::str_result_view(o)),
    {
        self.phase = AddPhase::Done;
        self.outcome = Some(o);
        Step::Finished
    }

    fn start_create(&mut self, b: WorktreeBuilder) -> (st: Step)
        ensures
            (final(self)@, st@) == add_start_create(old(self)@, b@),
    {
        self.creation = b.create();
        let st = self.creation.resume(Reply::Start);
        self.phase = AddPhase::Create;
        st
    }

    /// One step of `add`.
    pub fn resume(&mut self, reply: Reply) -> (st: Step)
        ensures
            (final(self)@, st@) == add_resume(old(self)@, reply@),
    {
        match self.phase {
            AddPhase::Begin => {
                self.phase = AddPhase::RepoExists;
                Step::Do(Request::Exists(self.opts.repo.clone()))
            },
            AddPhase::RepoExists => {
                if take_flag(reply) {
                    self.phase = AddPhase::Canon;
                    Step::Do(Request::Canonicalize(self.opts.repo.clone()))
                } else {
                    let msg = cat("repo not found: ", self.opts.repo.as_str());
                    self.done(Err(msg))
                }
            },
            AddPhase::Canon => match take_path(reply) {
                Err(e) => self.done(Err(e)),
                Ok(repo) => {
                    let wt_path = default_worktree_path(repo.as_str(), &self.opts.directory, self.opts.branch.as_str());
                    self.repo = repo.clone();
                    self.wt_path = wt_path.clone();
                    if self.opts.no_config {
                        let b = builder_for(&self.opts, repo, wt_path);
                        self.start_create(b)
                    } else {
                        self.config = RepoConfig::load(repo);
                        let st = self.config.resume(Reply::Start);
                        self.phase = AddPhase::Config;
                        st
                    }
                },
            },
            AddPhase::Config => {
                let st = self.config.resume(reply);
                match st {
                    Step::Do(q) => Step::Do(q),
                    Step::Finished => {
                        let o: Result<WorktreeBuilder, String> = match self.config.outcome() {
                            Some(Ok(cfg)) => {
                                let b = builder_for(&self.opts, self.repo.clone(), self.wt_path.clone());
                                Ok(b.repo_config(cfg))
                            },
                            Some(Err(e)) => Err(e.message()),
                            None => Err(String::new()),
                        };
                        match o {
                            Ok(b) => self.start_create(b),
                            Err(msg) => self.done(Err(msg)),
                        }
                    },
                }
            },
            AddPhase::Create => {
                let st = self.creation.resume(reply);
                match st {
                    Step::Do(q) => Step::Do(q),
                    Step::Finished => {
                        let failed = match self.creation.outcome() {
                            Some(Err(e)) => Some(e.message()),
                            _ => None,
                        };
                        match failed {
                            Some(msg) => self.done(Err(msg)),
                            None => {
                                let p = self.wt_path.clone();
                                self.done(Ok(p))
                            },
                        }
                    },
                }
            },
            AddPhase::Done => Step::Finished,
        }
    }
}

} // verus!

verus! {

/// What became of the branch after a removal.
#[derive(Debug)]
pub enum BranchReport {
    /// No deletion was asked for, or there is no branch to delete.
    Kept,
    /// The branch was deleted.
    Deleted(String),
    /// The branch was not found.
    Missing(String),
    /// The deletion failed, for the reason given.
    Failed(String, String),
}

pub enum BranchReportV {
    Kept,
    Deleted(Seq<char>),
    Missing(Seq<char>),
    Failed(Seq<char>, Seq<char>),
}

impl View for BranchReport {
    type V = BranchReportV;

    open spec fn view(&self) -> BranchReportV {
        match self {
            BranchReport::Kept => BranchReportV::Kept,
            BranchReport::Deleted(b) => BranchReportV::Deleted(b@),
            BranchReport::Missing(b) => BranchReportV::Missing(b@),
            BranchReport::Failed(b, m) => BranchReportV::Failed(b@, m@),
        }
    }
}

/// `git rev-parse --abbrev-ref HEAD`, run in `dir`, output captured.
pub open spec fn head_cmd(dir: Seq<char>) -> crate::effect::GitCommandV {
    cmd(PlaceV::Cwd(dir), seq!["rev-parse"@, "--abbrev-ref"@, "HEAD"@], Output::Capture)
}

enum RemovePhase {
    Begin,
    Head,
    Info,
    Removal,
    Delete,
    Done,
}

pub enum RemovePhaseV {
    Begin,
    /// The branch checked out in the worktree.
    Head,
    /// The lookup of the worktree's information is under way.
    Info,
    /// The removal is under way.
    Removal,
    /// The deletion of the branch is under way.
    Delete,
    Done,
}

impl View for RemovePhase {
    type V = RemovePhaseV;

    closed spec fn view(&self) -> RemovePhaseV {
        match self {
            RemovePhase::Begin => RemovePhaseV::Begin,
            RemovePhase::Head => RemovePhaseV::Head,
            RemovePhase::Info => RemovePhaseV::Info,
            RemovePhase::Removal => RemovePhaseV::Removal,
            RemovePhase::Delete => RemovePhaseV::Delete,
            RemovePhase::Done => RemovePhaseV::Done,
        }
    }
}

/// `git recworktree remove`.
pub struct RemoveCommand {
    path: String,
    force: bool,
    delete: bool,
    branch: Option<String>,
    lookup: InfoLookup,
    removal: WorktreeRemoval,
    deletion: SingleCommand,
    phase: RemovePhase,
    outcome: Option<Result<BranchReport, String>>,
}

pub struct RemoveCommandV {
    pub path: Seq<char>,
    pub force: bool,
    pub delete: bool,
    /// The branch checked out in the worktree, when asked for and known.
    pub branch: Option<Seq<char>>,
    pub lookup: InfoLookupV,
    pub removal: WorktreeRemovalV,
    pub deletion: SingleCommandV,
    pub phase: RemovePhaseV,
    pub outcome: Option<Result<BranchReportV, Seq<char>>>,
}

impl View for RemoveCommand {
    type V = RemoveCommandV;

    closed spec fn view(&self) -> RemoveCommandV {
        RemoveCommandV {
            path: self.path@,
            force: self.force,
            delete: self.delete,
            branch: match self.branch {
                Some(b) => Some(b@),
                None => None,
            },
            lookup: self.lookup@,
            removal: self.removal@,
            deletion: self.deletion@,
            phase: self.phase@,
            outcome: match self.outcome {
                Some(Ok(r)) => Some(Ok(r@)),
                Some(Err(e)) => Some(Err(e@)),
                None => None,
            },
        }
    }
}

pub open spec fn rm_done(m: RemoveCommandV, o: Result<BranchReportV, Seq<char>>) -> (RemoveCommandV, StepV) {
    (RemoveCommandV { phase: RemovePhaseV::Done, outcome: Some(o), ..m }, StepV::Finished)
}

/// Look up the worktree's information (kept to find the main repository).
pub open spec fn rm_start_info(m: RemoveCommandV) -> (RemoveCommandV, StepV) {
    let (l2, st) = info_resume(info_start(m.path), ReplyV::Start);
    (RemoveCommandV { lookup: l2, phase: RemovePhaseV::Info, ..m }, st)
}

/// Start the removal.
pub open spec fn rm_start_removal(m: RemoveCommandV) -> (RemoveCommandV, StepV) {
    let (r2, st) = removal_resume(removal_start(m.path, m.force), ReplyV::Start);
    (RemoveCommandV { removal: r2, phase: RemovePhaseV::Removal, ..m }, st)
}

/// After the removal: delete the branch if there is one to delete and the
/// main repository is known.
pub open spec fn rm_after(m: RemoveCommandV) -> (RemoveCommandV, StepV) {
    match (m.branch, m.lookup.outcome) {
        (Some(b), Some(Ok(info))) => if deletable(b) {
            let (d2, st) = single_resume(
                single_start(info.main_repo_path, SingleKindV::DeleteBranch { name: b }),
                ReplyV::Start,
            );
            (RemoveCommandV { deletion: d2, phase: RemovePhaseV::Delete, ..m }, st)
        } else {
            rm_done(m, Ok(BranchReportV::Kept))
        },
        _ => rm_done(m, Ok(BranchReportV::Kept)),
    }
}

/// One step of `remove`. When the branch is to be deleted too, the branch
/// checked out in the worktree is read first (`HEAD` when detached). The
/// worktree's information is looked up before the removal, to know the
/// main repository afterwards. The removal's failure is reported by its
/// message. After it, a named branch is deleted in the main repository; how
/// that went is reported, a failure included, without failing the command.
pub open spec fn rm_resume(m: RemoveCommandV, r: ReplyV) -> (RemoveCommandV, StepV) {
    match m.phase {
        RemovePhaseV::Begin => if m.delete {
            (RemoveCommandV { phase: RemovePhaseV::Head, ..m }, StepV::Do(RequestV::Git(head_cmd(m.path))))
        } else {
            rm_start_info(m)
        },
        RemovePhaseV::Head => {
            let branch = match ran_of(r) {
                Ok(x) => if x.success {
                    Some(trim(x.stdout))
                } else {
                    None
                },
                Err(_) => None,
            };
            rm_start_info(RemoveCommandV { branch, ..m })
        },
        RemovePhaseV::Info => {
            let (l2, st) = info_resume(m.lookup, r);
            match st {
                StepV::Do(q) => (RemoveCommandV { lookup: l2, ..m }, StepV::Do(q)),
                StepV::Finished => rm_start_removal(RemoveCommandV { lookup: l2, ..m }),
            }
        },
        RemovePhaseV::Removal => {
            let (r2, st) = removal_resume(m.removal, r);
            match st {
                StepV::Do(q) => (RemoveCommandV { removal: r2, ..m }, StepV::Do(q)),
                StepV::Finished => match r2.outcome {
                    Some(Err(e)) => rm_done(RemoveCommandV { removal: r2, ..m }, Err(error_message(e))),
                    _ => rm_after(RemoveCommandV { removal: r2, ..m }),
                },
            }
        },
        RemovePhaseV::Delete => {
            let (d2, st) = single_resume(m.deletion, r);
            match st {
                StepV::Do(q) => (RemoveCommandV { deletion: d2, ..m }, StepV::Do(q)),
                StepV::Finished => {
                    let b = match m.branch {
                        Some(b) => b,
                        None => Seq::empty(),
                    };
                    let report = match d2.outcome {
                        Some(Ok(true)) => BranchReportV::Deleted(b),
                        Some(Ok(false)) => BranchReportV::Missing(b),
                        Some(Err(e)) => BranchReportV::Failed(b, error_message(e)),
                        None => BranchReportV::Failed(b, Seq::empty()),
                    };
                    rm_done(RemoveCommandV { deletion: d2, ..m }, Ok(report))
                },
            }
        },
        RemovePhaseV::Done => (m, StepV::Finished),
    }
}

/// `remove` before its first step.
pub open spec fn rm_start(path: Seq<char>, force: bool, delete: bool) -> RemoveCommandV {
    RemoveCommandV {
        path,
        force,
        delete,
        branch: None,
        lookup: info_start(Seq::empty()),
        removal: removal_start(Seq::empty(), false),
        deletion: single_start(Seq::empty(), SingleKindV::DeleteBranch { name: Seq::empty() }),
        phase: RemovePhaseV::Begin,
        outcome: None,
    }
}

impl RemoveCommand {
    /// `git recworktree remove PATH` (`force`: even with uncommitted
    /// changes; `delete`: delete the branch afterwards).
    pub fn new(path: String, force: bool, delete: bool) -> (m: RemoveCommand)
        ensures
            m@ == rm_start(path@, force, delete),
    {
        RemoveCommand {
            path,
            force,
            delete,
            branch: None,
            lookup: InfoLookup::new(String::new()),
            removal: remove_worktree(String::new(), false),
            deletion: delete_branch(String::new(), String::new()),
            phase: RemovePhase::Begin,
            outcome: None,
        }
    }

    /// The warnings of the removal so far, in order.
    pub fn warnings(&self) -> (w: &Vec<String>)
        ensures
            views(w@) == self@.removal.warnings,
    {
        self.removal.warnings()
    }

    /// The result, once finished.
    pub fn into_outcome(self) -> (o: Option<Result<BranchReport, String>>)
        ensures
            match o {
                Some(Ok(r)) => self@.outcome == Some(Ok::<BranchReportV, Seq<char>>(r@)),
                Some(Err(e)) => self@.outcome == Some(Err::<BranchReportV, Seq<char>>(e@)),
                None => self@.outcome is None,
            },
    {
        self.outcome
    }

    fn done(&mut self, o: Result<BranchReport, String>) -> (st: Step)
        ensures
            (final(self)@, st@) == rm_done(old(self)@, match o {
                Ok(r) => Ok(r@),
                Err(e) => Err(e@),
            }),
    {
        self.phase = RemovePhase::Done;
        self.outcome = Some(o);
        Step::Finished
    }

    fn start_info(&mut self) -> (st: Step)
        ensures
            (final(self)@, st@) == rm_start_info(old(self)@),
    {
        self.lookup = InfoLookup::new(self.path.clone());
        let st = self.lookup.resume(Reply::Start);
        self.phase = RemovePhase::Info;
        st
    }

    fn after(&mut self) -> (st: Step)
        ensures
            (final(self)@, st@) == rm_after(old(self)@),
    {
        let target: Option<(String, String)> = match (&self.branch, self.lookup.outcome()) {
            (Some(b), Some(Ok(info))) => if should_delete_branch(b) {
                Some((info.main_repo_path.clone(), b.clone()))
            } else {
                None
            },
            _ => None,
        };
        match target {
            Some((repo, b)) => {
                self.deletion = delete_branch(repo, b);
                let st = self.deletion.resume(Reply::Start);
                self.phase = RemovePhase::Delete;
                st
            },
            None => self.done(Ok(BranchReport::Kept)),
        }
    }

    /// One step of `remove`.
    pub fn resume(&mut self, reply: Reply) -> (st: Step)
        ensures
            (final(self)@, st@) == rm_resume(old(self)@, reply@),
    {
        match self.phase {
            RemovePhase::Begin => {
                if self.delete {
                    let a = args3(s("rev-parse"), s("--abbrev-ref"), s("HEAD"));
                    self.phase = RemovePhase::Head;
                    Step::Do(Request::Git(git(Place::Cwd(self.path.clone()), a, Output::Capture)))
                } else {
                    self.start_info()
                }
            },
            RemovePhase::Head => {
                self.branch = match take_ran(reply) {
                    Ok(x) => if x.success {
                        Some(trim_str(x.stdout.as_str()))
                    } else {
                        None
                    },
                    Err(_) => None,
                };
                self.start_info()
            },
            RemovePhase::Info => {
                let st = self.lookup.resume(reply);
                match st {
                    Step::Do(q) => Step::Do(q),
                    Step::Finished => {
                        self.removal = remove_worktree(self.path.clone(), self.force);
                        let st2 = self.removal.resume(Reply::Start);
                        self.phase = RemovePhase::Removal;
                        st2
                    },
                }
            },
            RemovePhase::Removal => {
                let st = self.removal.resume(reply);
                match st {
                    Step::Do(q) => Step::Do(q),
                    Step::Finished => {
                        let failed = match self.removal.outcome() {
                            Some(Err(e)) => Some(e.message()),
                            _ => None,
                        };
                        match failed {
                            Some(msg) => self.done(Err(msg)),
                            None => self.after(),
                        }
                    },
                }
            },
            RemovePhase::Delete => {
                let st = self.deletion.resume(reply);
                match st {
                    Step::Do(q) => Step::Do(q),
                    Step::Finished => {
                        let b = match &self.branch {
                            Some(b) => b.clone(),
                            None => String::new(),
                        };
                        let report = match self.deletion.outcome() {
                            Some(Ok(true)) => BranchReport::Deleted(b),
                            Some(Ok(false)) => BranchReport::Missing(b),
                            Some(Err(e)) => BranchReport::Failed(b, e.message()),
                            None => BranchReport::Failed(b, String::new()),
                        };
                        self.done(Ok(report))
                    },
                }
            },
            RemovePhase::Done => Step::Finished,
        }
    }
}


/// Deleting the branch does not depend on `--force`: after a successful
/// removal, when the branch checked out in the worktree was read as a name
/// other than `HEAD` and the worktree's main repository is known, the next
/// request is `git branch -d BRANCH` run in the main repository.
pub proof fn lemma_branch_deleted_after_removal(m: RemoveCommandV, r: ReplyV, b: Seq<char>, info: WorktreeInfoV)
    requires
        m.phase is Removal,
        removal_resume(m.removal, r).1 is Finished,
        removal_resume(m.removal, r).0.outcome == Some(Ok::<(), ErrorV>(())),
        m.branch == Some(b),
        b != "HEAD"@,
        b.len() > 0,
        m.lookup.outcome == Some(Ok::<WorktreeInfoV, ErrorV>(info)),
    ensures
        rm_resume(m, r).1 == StepV::Do(
            RequestV::Git(cmd(PlaceV::Cwd(info.main_repo_path), seq!["branch"@, "-d"@, b], Output::Capture)),
        ),
{
}

/// The options decide the creation's submodule and LFS settings: when
/// `add` starts the creation, the builder sets up submodules exactly when
/// `--no-submodules` was not given and shares LFS storage exactly when
/// `--no-lfs-share` was not given; it creates the branch given, from the
/// base given, in the canonical repository, at the worktree path.
pub proof fn lemma_add_builder_follows_options(m: AddCommandV, r: ReplyV)
    requires
        !(m.phase is Create),
        add_resume(m, r).0.phase is Create,
    ensures
        ({
            let m2 = add_resume(m, r).0;
            &&& m2.creation.b.init_submodules == !m.opts.no_submodules
            &&& m2.creation.b.share_lfs == !m.opts.no_lfs_share
            &&& m2.creation.b.branch_name == m.opts.branch
            &&& m2.creation.b.base_branch == m.opts.base
            &&& m2.creation.b.repo_path == m2.repo
            &&& m2.creation.b.worktree_path == m2.wt_path
        }),
{
}

} // verus!
