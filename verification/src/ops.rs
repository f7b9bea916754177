//! Branch and worktree queries and changes made with single `git` commands.

use vstd::prelude::*;
use crate::effect::{
    args2, args3, args4, git, ran_of, s, take_ran, GitCommandV, Output, Place, PlaceV, Reply,
    ReplyV, Request, RequestV, Step, StepV,
};
use crate::error::{Error, ErrorV};
use crate::text::{
    cat, cat3, contains_str, list_contains, nonempty_lines, nonempty_lines_of, occurs_in, trim, trim_str,
};

verus! {

/// Whether a `git branch --list` output names a branch.
pub open spec fn listed(out: Seq<char>) -> bool {
    trim(out).len() > 0
}

/// Whether a `git branch --list` output names a branch.
pub fn is_listed(out: &str) -> (b: bool)
    ensures
        b == listed(out@),
{
    let t = trim_str(out);
    t.as_str().unicode_len() > 0
}

pub open spec fn cmd(place: PlaceV, args: Seq<Seq<char>>, output: Output) -> GitCommandV {
    GitCommandV { place, args, env: Seq::empty(), output }
}

/// `git branch --list NAME`, run in `repo`, output captured.
pub open spec fn local_list_cmd(repo: Seq<char>, name: Seq<char>) -> GitCommandV {
    cmd(PlaceV::Cwd(repo), seq!["branch"@, "--list"@, name], Output::Capture)
}

/// `git branch -r --list origin/NAME`, run in `repo`, output captured.
pub open spec fn remote_list_cmd(repo: Seq<char>, name: Seq<char>) -> GitCommandV {
    cmd(PlaceV::Cwd(repo), seq!["branch"@, "-r"@, "--list"@, "origin/"@ + name], Output::Capture)
}

fn local_list(repo: &String, name: &String) -> (q: Request)
    ensures
        q@ == RequestV::Git(local_list_cmd(repo@, name@)),
{
    Request::Git(git(Place::Cwd(repo.clone()), args3(s("branch"), s("--list"), name.clone()), Output::Capture))
}

fn remote_list(repo: &String, name: &String) -> (q: Request)
    ensures
        q@ == RequestV::Git(remote_list_cmd(repo@, name@)),
{
    let a = args4(s("branch"), s("-r"), s("--list"), cat("origin/", name.as_str()));
    Request::Git(git(Place::Cwd(repo.clone()), a, Output::Capture))
}

// ---------------------------------------------------------------------------
// branch_exists

/// Whether a branch exists locally or on origin.
pub struct BranchProbe {
    repo: String,
    branch: String,
    stage: u8,
    outcome: Option<Result<bool, Error>>,
}

pub struct BranchProbeV {
    pub repo: Seq<char>,
    pub branch: Seq<char>,
    /// 0: not started; 1: awaiting the local listing; 2: awaiting the
    /// remote listing; 3: over.
    pub stage: int,
    pub outcome: Option<Result<bool, ErrorV>>,
}

pub open spec fn bool_outcome_view(o: Option<Result<bool, Error>>) -> Option<Result<bool, ErrorV>> {
    match o {
        Some(Ok(b)) => Some(Ok(b)),
        Some(Err(e)) => Some(Err(e@)),
        None => None,
    }
}

impl View for BranchProbe {
    type V = BranchProbeV;

    closed spec fn view(&self) -> BranchProbeV {
        BranchProbeV {
            repo: self.repo@,
            branch: self.branch@,
            stage: self.stage as int,
            outcome: bool_outcome_view(self.outcome),
        }
    }
}

pub open spec fn probe_done(m: BranchProbeV, o: Result<bool, ErrorV>) -> (BranchProbeV, StepV) {
    (BranchProbeV { stage: 3, outcome: Some(o), ..m }, StepV::Finished)
}

/// One step of the probe: the local branch list first; the remote one only
/// when the branch is not listed locally. A command that cannot be run is
/// an I/O error.
pub open spec fn probe_resume(m: BranchProbeV, r: ReplyV) -> (BranchProbeV, StepV) {
    if m.stage == 0 {
        (BranchProbeV { stage: 1, ..m }, StepV::Do(RequestV::Git(local_list_cmd(m.repo, m.branch))))
    } else if m.stage == 1 {
        match ran_of(r) {
            Err(e) => probe_done(m, Err(ErrorV::Io(e))),
            Ok(x) => if listed(x.stdout) {
                probe_done(m, Ok(true))
            } else {
                (
                    BranchProbeV { stage: 2, ..m },
                    StepV::Do(RequestV::Git(remote_list_cmd(m.repo, m.branch))),
                )
            },
        }
    } else if m.stage == 2 {
        match ran_of(r) {
            Err(e) => probe_done(m, Err(ErrorV::Io(e))),
            Ok(x) => probe_done(m, Ok(listed(x.stdout))),
        }
    } else {
        (m, StepV::Finished)
    }
}

pub open spec fn probe_start(repo: Seq<char>, branch: Seq<char>) -> BranchProbeV {
    BranchProbeV { repo, branch, stage: 0, outcome: None }
}

/// The check whether `branch_name` exists locally or on origin in the
/// repository at `repo_path`.
pub fn branch_exists(repo_path: String, branch_name: String) -> (m: BranchProbe)
    ensures
        m@ == probe_start(repo_path@, branch_name@),
{
    BranchProbe { repo: repo_path, branch: branch_name, stage: 0, outcome: None }
}

impl BranchProbe {
    /// The result, once the probe has finished.
    pub fn outcome(&self) -> (o: &Option<Result<bool, Error>>)
        ensures
            bool_outcome_view(*o) == self@.outcome,
    {
        &self.outcome
    }

    /// The result, once the probe has finished.
    pub fn into_outcome(self) -> (o: Option<Result<bool, Error>>)
        ensures
            bool_outcome_view(o) == self@.outcome,
    {
        self.outcome
    }

    fn done(&mut self, o: Result<bool, Error>) -> (st: Step)
        ensures
            (final(self)@, st@) == probe_done(old(self)@, match o {
                Ok(b) => Ok(b),
                Err(e) => Err(e@),
            }),
    {
        self.stage = 3;
        self.outcome = Some(o);
        Step::Finished
    }

    /// One step of the probe.
    pub fn resume(&mut self, reply: Reply) -> (st: Step)
        ensures
            (final(self)@, st@) == probe_resume(old(self)@, reply@),
    {
        if self.stage == 0 {
            self.stage = 1;
            Step::Do(local_list(&self.repo, &self.branch))
        } else if self.stage == 1 {
            match take_ran(reply) {
                Err(e) => self.done(Err(Error::Io(e))),
                Ok(x) => if is_listed(x.stdout.as_str()) {
                    self.done(Ok(true))
                } else {
                    self.stage = 2;
                    Step::Do(remote_list(&self.repo, &self.branch))
                },
            }
        } else if self.stage == 2 {
            match take_ran(reply) {
                Err(e) => self.done(Err(Error::Io(e))),
                Ok(x) => {
                    let b = is_listed(x.stdout.as_str());
                    self.done(Ok(b))
                },
            }
        } else {
            Step::Finished
        }
    }
}

} // verus!

verus! {

// ---------------------------------------------------------------------------
// create_branch_if_needed

/// The `k`-th ref from which a new branch may be made: the requested base,
/// then `origin/main`, `origin/master` and `HEAD`.
pub open spec fn base_ref(base: Seq<char>, k: int) -> Seq<char> {
    if k == 0 {
        base
    } else if k == 1 {
        "origin/main"@
    } else if k == 2 {
        "origin/master"@
    } else {
        "HEAD"@
    }
}

/// How many refs are tried as a base.
pub open spec fn base_count() -> int {
    4
}

/// `git rev-parse --verify --quiet REF`, run in `repo`, output thrown away.
pub open spec fn ref_check_cmd(repo: Seq<char>, r: Seq<char>) -> GitCommandV {
    cmd(PlaceV::Cwd(repo), seq!["rev-parse"@, "--verify"@, "--quiet"@, r], Output::Silence)
}

/// `git branch NAME FROM`, run in `repo`, output shown.
pub open spec fn branch_cmd(repo: Seq<char>, name: Seq<char>, from: Seq<char>) -> GitCommandV {
    cmd(PlaceV::Cwd(repo), seq!["branch"@, name, from], Output::Inherit)
}

enum CreationPhase {
    Begin,
    Local,
    Remote,
    Tracking,
    RefCheck { k: usize },
    Creating { k: usize },
    Done,
}

pub enum CreationPhaseV {
    Begin,
    /// The local branch listing.
    Local,
    /// The remote branch listing.
    Remote,
    /// The creation of the tracking branch.
    Tracking,
    /// Whether the `k`-th base ref exists.
    RefCheck { k: int },
    /// The creation of the branch from the `k`-th base ref.
    Creating { k: int },
    Done,
}

impl View for CreationPhase {
    type V = CreationPhaseV;

    closed spec fn view(&self) -> CreationPhaseV {
        match self {
            CreationPhase::Begin => CreationPhaseV::Begin,
            CreationPhase::Local => CreationPhaseV::Local,
            CreationPhase::Remote => CreationPhaseV::Remote,
            CreationPhase::Tracking => CreationPhaseV::Tracking,
            CreationPhase::RefCheck { k } => CreationPhaseV::RefCheck { k: *k as int },
            CreationPhase::Creating { k } => CreationPhaseV::Creating { k: *k as int },
            CreationPhase::Done => CreationPhaseV::Done,
        }
    }
}

/// The creation of a local branch where none exists.
pub struct BranchCreation {
    repo: String,
    branch: String,
    base: String,
    phase: CreationPhase,
    outcome: Option<Result<(), Error>>,
}

pub struct BranchCreationV {
    pub repo: Seq<char>,
    pub branch: Seq<char>,
    pub base: Seq<char>,
    pub phase: CreationPhaseV,
    pub outcome: Option<Result<(), ErrorV>>,
}

pub open spec fn unit_outcome_view(o: Option<Result<(), Error>>) -> Option<Result<(), ErrorV>> {
    match o {
        Some(Ok(())) => Some(Ok(())),
        Some(Err(e)) => Some(Err(e@)),
        None => None,
    }
}

impl View for BranchCreation {
    type V = BranchCreationV;

    closed spec fn view(&self) -> BranchCreationV {
        BranchCreationV {
            repo: self.repo@,
            branch: self.branch@,
            base: self.base@,
            phase: self.phase@,
            outcome: unit_outcome_view(self.outcome),
        }
    }
}

pub open spec fn creation_done(m: BranchCreationV, o: Result<(), ErrorV>) -> (
    BranchCreationV,
    StepV,
) {
    (BranchCreationV { phase: CreationPhaseV::Done, outcome: Some(o), ..m }, StepV::Finished)
}

/// Try the `k`-th base ref, or fail when all have been tried.
pub open spec fn creation_try_base(m: BranchCreationV, k: int) -> (BranchCreationV, StepV) {
    if 0 <= k < base_count() {
        (
            BranchCreationV { phase: CreationPhaseV::RefCheck { k }, ..m },
            StepV::Do(RequestV::Git(ref_check_cmd(m.repo, base_ref(m.base, k)))),
        )
    } else {
        creation_done(
            m,
            Err(
                ErrorV::GitCommand(
                    "Failed to create branch "@ + m.branch + " — no valid base ref found"@,
                ),
            ),
        )
    }
}

/// One step of the creation. A branch listed locally is left as it is; one
/// listed on origin gets a local tracking branch; otherwise the branch is
/// made from the first base ref that exists and from which `git branch`
/// succeeds. A command that cannot be run is an I/O error, except the
/// checks of the base refs, where it counts as a missing ref.
pub open spec fn creation_resume(m: BranchCreationV, r: ReplyV) -> (BranchCreationV, StepV) {
    match m.phase {
        CreationPhaseV::Begin => (
            BranchCreationV { phase: CreationPhaseV::Local, ..m },
            StepV::Do(RequestV::Git(local_list_cmd(m.repo, m.branch))),
        ),
        CreationPhaseV::Local => match ran_of(r) {
            Err(e) => creation_done(m, Err(ErrorV::Io(e))),
            Ok(x) => if listed(x.stdout) {
                creation_done(m, Ok(()))
            } else {
                (
                    BranchCreationV { phase: CreationPhaseV::Remote, ..m },
                    StepV::Do(RequestV::Git(remote_list_cmd(m.repo, m.branch))),
                )
            },
        },
        CreationPhaseV::Remote => match ran_of(r) {
            Err(e) => creation_done(m, Err(ErrorV::Io(e))),
            Ok(x) => if listed(x.stdout) {
                (
                    BranchCreationV { phase: CreationPhaseV::Tracking, ..m },
                    StepV::Do(
                        RequestV::Git(branch_cmd(m.repo, m.branch, "origin/"@ + m.branch)),
                    ),
                )
            } else {
                creation_try_base(m, 0)
            },
        },
        CreationPhaseV::Tracking => match ran_of(r) {
            Err(e) => creation_done(m, Err(ErrorV::Io(e))),
            Ok(x) => if x.success {
                creation_done(m, Ok(()))
            } else {
                creation_done(
                    m,
                    Err(
                        ErrorV::GitCommand(
                            "Failed to create tracking branch "@ + m.branch + " from origin/"@
                                + m.branch,
                        ),
                    ),
                )
            },
        },
        CreationPhaseV::RefCheck { k } => {
            let exists = match ran_of(r) {
                Ok(x) => x.success,
                Err(_) => false,
            };
            if exists {
                (
                    BranchCreationV { phase: CreationPhaseV::Creating { k }, ..m },
                    StepV::Do(RequestV::Git(branch_cmd(m.repo, m.branch, base_ref(m.base, k)))),
                )
            } else {
                creation_try_base(m, k + 1)
            }
        },
        CreationPhaseV::Creating { k } => match ran_of(r) {
            Err(e) => creation_done(m, Err(ErrorV::Io(e))),
            Ok(x) => if x.success {
                creation_done(m, Ok(()))
            } else {
                creation_try_base(m, k + 1)
            },
        },
        CreationPhaseV::Done => (m, StepV::Finished),
    }
}

pub open spec fn creation_start(repo: Seq<char>, branch: Seq<char>, base: Seq<char>) -> BranchCreationV {
    BranchCreationV { repo, branch, base, phase: CreationPhaseV::Begin, outcome: None }
}

/// The creation of the local branch `branch_name` in `repo_path` if it does
/// not exist yet: tracking `origin/branch_name` if that exists, otherwise
/// from `base_branch`, falling back through `origin/main`, `origin/master`,
/// `HEAD`.
pub fn create_branch_if_needed(repo_path: String, branch_name: String, base_branch: String) -> (m:
    BranchCreation)
    ensures
        m@ == creation_start(repo_path@, branch_name@, base_branch@),
{
    BranchCreation {
        repo: repo_path,
        branch: branch_name,
        base: base_branch,
        phase: CreationPhase::Begin,
        outcome: None,
    }
}

fn base_ref_string(base: &String, k: usize) -> (r: String)
    ensures
        r@ == base_ref(base@, k as int),
{
    if k == 0 {
        base.clone()
    } else if k == 1 {
        s("origin/main")
    } else if k == 2 {
        s("origin/master")
    } else {
        s("HEAD")
    }
}

impl BranchCreation {
    /// The result, once the creation has finished.
    pub fn into_outcome(self) -> (o: Option<Result<(), Error>>)
        ensures
            unit_outcome_view(o) == self@.outcome,
    {
        self.outcome
    }

    /// The result, once the creation has finished.
    pub fn outcome(&self) -> (o: &Option<Result<(), Error>>)
        ensures
            unit_outcome_view(*o) == self@.outcome,
    {
        &self.outcome
    }

    fn done(&mut self, o: Result<(), Error>) -> (st: Step)
        ensures
            (final(self)@, st@) == creation_done(old(self)@, match o {
                Ok(()) => Ok(()),
                Err(e) => Err(e@),
            }),
    {
        self.phase = CreationPhase::Done;
        self.outcome = Some(o);
        Step::Finished
    }

    fn try_base(&mut self, k: usize) -> (st: Step)
        ensures
            (final(self)@, st@) == creation_try_base(old(self)@, k as int),
    {
        if k < 4 {
            let b = base_ref_string(&self.base, k);
            let a = args4(s("rev-parse"), s("--verify"), s("--quiet"), b);
            self.phase = CreationPhase::RefCheck { k };
            Step::Do(Request::Git(git(Place::Cwd(self.repo.clone()), a, Output::Silence)))
        } else {
            let m = cat3("Failed to create branch ", self.branch.as_str(), " — no valid base ref found");
            self.done(Err(Error::GitCommand(m)))
        }
    }

    fn branch_from(&self, from: String) -> (q: Request)
        ensures
            q@ == RequestV::Git(branch_cmd(self@.repo, self@.branch, from@)),
    {
        let a = args3(s("branch"), self.branch.clone(), from);
        Request::Git(git(Place::Cwd(self.repo.clone()), a, Output::Inherit))
    }

    /// One step of the creation.
    pub fn resume(&mut self, reply: Reply) -> (st: Step)
        ensures
            (final(self)@, st@) == creation_resume(old(self)@, reply@),
    {
        match self.phase {
            CreationPhase::Begin => {
                self.phase = CreationPhase::Local;
                Step::Do(local_list(&self.repo, &self.branch))
            },
            CreationPhase::Local => match take_ran(reply) {
                Err(e) => self.done(Err(Error::Io(e))),
                Ok(x) => if is_listed(x.stdout.as_str()) {
                    self.done(Ok(()))
                } else {
                    self.phase = CreationPhase::Remote;
                    Step::Do(remote_list(&self.repo, &self.branch))
                },
            },
            CreationPhase::Remote => match take_ran(reply) {
                Err(e) => self.done(Err(Error::Io(e))),
                Ok(x) => if is_listed(x.stdout.as_str()) {
                    let q = self.branch_from(cat("origin/", self.branch.as_str()));
                    self.phase = CreationPhase::Tracking;
                    Step::Do(q)
                } else {
                    self.try_base(0)
                },
            },
            CreationPhase::Tracking => match take_ran(reply) {
                Err(e) => self.done(Err(Error::Io(e))),
                Ok(x) => if x.success {
                    self.done(Ok(()))
                } else {
                    let mut m = cat3(
                        "Failed to create tracking branch ",
                        self.branch.as_str(),
                        " from origin/",
                    );
                    m.append(self.branch.as_str());
                    self.done(Err(Error::GitCommand(m)))
                },
            },
            CreationPhase::RefCheck { k } => {
                let exists = match take_ran(reply) {
                    Ok(x) => x.success,
                    Err(_) => false,
                };
                if exists {
                    let q = self.branch_from(base_ref_string(&self.base, k));
                    self.phase = CreationPhase::Creating { k };
                    Step::Do(q)
                } else if k >= 4 {
                    self.try_base(4)
                } else {
                    self.try_base(k + 1)
                }
            },
            CreationPhase::Creating { k } => match take_ran(reply) {
                Err(e) => self.done(Err(Error::Io(e))),
                Ok(x) => if x.success {
                    self.done(Ok(()))
                } else if k >= 4 {
                    self.try_base(4)
                } else {
                    self.try_base(k + 1)
                },
            },
            CreationPhase::Done => Step::Finished,
        }
    }
}

/// A branch that exists locally is left as it is: once the local listing
/// names it, the creation finishes successfully without another command.
pub proof fn lemma_existing_branch_left_alone(m: BranchCreationV, r: ReplyV)
    requires
        m.phase is Local,
        ran_of(r) matches Ok(x) && listed(x.stdout),
    ensures
        creation_resume(m, r) == (
            BranchCreationV { phase: CreationPhaseV::Done, outcome: Some(Ok(())), ..m },
            StepV::Finished,
        ),
{
}

/// A branch that exists only on origin gets a local branch made from
/// `origin/NAME`.
pub proof fn lemma_remote_branch_tracked(m: BranchCreationV, r: ReplyV)
    requires
        m.phase is Remote,
        ran_of(r) matches Ok(x) && listed(x.stdout),
    ensures
        creation_resume(m, r).1 == StepV::Do(
            RequestV::Git(branch_cmd(m.repo, m.branch, "origin/"@ + m.branch)),
        ),
{
}

/// Whether the reply says that git ran and succeeded.
pub open spec fn ran_ok(r: ReplyV) -> bool {
    match ran_of(r) {
        Ok(x) => x.success,
        Err(_) => false,
    }
}

/// Whether the reply is a listing that names no branch.
pub open spec fn listing_empty(r: ReplyV) -> bool {
    match ran_of(r) {
        Ok(x) => !listed(x.stdout),
        Err(_) => false,
    }
}

/// The refs tried as a base, in order: the requested base exactly as given,
/// then `origin/main`, `origin/master` and `HEAD`. Once the branch is found
/// neither locally nor on origin, the first ref checked (with `git
/// rev-parse --verify --quiet`) is the requested base; after the `k`-th ref
/// is missing the next is checked; and the branch is made (`git branch NAME
/// REF`) from the first ref that exists.
pub proof fn lemma_base_refs_in_order(m: BranchCreationV, r: ReplyV, k: int)
    requires
        0 <= k < 4,
    ensures
        ({
            let refs = seq![m.base, "origin/main"@, "origin/master"@, "HEAD"@];
            &&& (m.phase is Remote && listing_empty(r)) ==> creation_resume(m, r).1 == StepV::Do(
                RequestV::Git(
                    cmd(PlaceV::Cwd(m.repo), seq!["rev-parse"@, "--verify"@, "--quiet"@, m.base], Output::Silence),
                ),
            )
            &&& (m.phase == (CreationPhaseV::RefCheck { k }) && !ran_ok(r) && k < 3) ==> creation_resume(m, r).1
                == StepV::Do(
                RequestV::Git(
                    cmd(
                        PlaceV::Cwd(m.repo),
                        seq!["rev-parse"@, "--verify"@, "--quiet"@, refs[k + 1]],
                        Output::Silence,
                    ),
                ),
            )
            &&& (m.phase == (CreationPhaseV::RefCheck { k }) && ran_ok(r)) ==> creation_resume(m, r).1 == StepV::Do(
                RequestV::Git(cmd(PlaceV::Cwd(m.repo), seq!["branch"@, m.branch, refs[k]], Output::Inherit)),
            )
        }),
{
    reveal_strlit("origin/main");
    reveal_strlit("origin/master");
    reveal_strlit("HEAD");
}

/// The base refs are tried in order: after the `k`-th base ref turned out
/// missing, or the branch could not be made from it, the next one is
/// checked; after `HEAD` the creation fails.
pub proof fn lemma_bases_tried_in_order(m: BranchCreationV, r: ReplyV, k: int)
    requires
        0 <= k < base_count(),
        m.phase == (CreationPhaseV::RefCheck { k }) && !(ran_of(r) matches Ok(x) && x.success)
            || m.phase == (CreationPhaseV::Creating { k }) && (ran_of(r) matches Ok(x)
            && !x.success),
    ensures
        k + 1 < base_count() ==> creation_resume(m, r).1 == StepV::Do(
            RequestV::Git(ref_check_cmd(m.repo, base_ref(m.base, k + 1))),
        ),
        k + 1 == base_count() ==> creation_resume(m, r).0.outcome matches Some(Err(_)),
{
}

} // verus!

verus! {

// ---------------------------------------------------------------------------
// Single-command operations.

/// `git worktree list --porcelain`, run in `repo`, output captured.
pub open spec fn worktree_list_cmd(repo: Seq<char>) -> GitCommandV {
    cmd(PlaceV::Cwd(repo), seq!["worktree"@, "list"@, "--porcelain"@], Output::Capture)
}

/// `git branch -d NAME`, run in `repo`, output captured.
pub open spec fn delete_branch_cmd(repo: Seq<char>, name: Seq<char>) -> GitCommandV {
    cmd(PlaceV::Cwd(repo), seq!["branch"@, "-d"@, name], Output::Capture)
}

/// `git fetch origin`, run in `repo`, output shown.
pub open spec fn fetch_cmd(repo: Seq<char>) -> GitCommandV {
    cmd(PlaceV::Cwd(repo), seq!["fetch"@, "origin"@], Output::Inherit)
}

/// Whether the porcelain worktree list of a repository registers a worktree
/// at a path: one of its lines is `worktree ` followed by exactly that path.
pub open spec fn worktree_listed(listing: Seq<char>, path: Seq<char>) -> bool {
    nonempty_lines(listing).contains("worktree "@ + path)
}

/// Whether the porcelain listing `listing` registers a worktree at `path`.
pub fn is_worktree_listed(listing: &str, path: &str) -> (b: bool)
    ensures
        b == worktree_listed(listing@, path@),
{
    let lines = nonempty_lines_of(listing);
    let target = cat("worktree ", path);
    proof {
        reveal_strlit("worktree ");
    }
    list_contains(&lines, &target)
}

/// What `git branch -d NAME` gave: deleted, not there, or an error.
pub open spec fn deletion_result(name: Seq<char>, ran: Result<crate::effect::RanV, Seq<char>>) -> Result<
    bool,
    ErrorV,
> {
    match ran {
        Err(e) => Err(ErrorV::Io(e)),
        Ok(x) => if x.success {
            Ok(true)
        } else if occurs_in(x.stderr, "not found"@) {
            Ok(false)
        } else {
            Err(
                ErrorV::GitCommand(
                    "Failed to delete branch '"@ + name + "': "@ + trim(x.stderr),
                ),
            )
        },
    }
}

/// What `git fetch origin` gave.
pub open spec fn fetch_result(ran: Result<crate::effect::RanV, Seq<char>>) -> Result<(), ErrorV> {
    match ran {
        Err(e) => Err(ErrorV::Io(e)),
        Ok(x) => if x.success {
            Ok(())
        } else {
            Err(ErrorV::GitCommand("git fetch origin failed"@))
        },
    }
}

/// What a single-command operation is.
pub enum SingleKind {
    /// Whether a worktree at `path` is registered for the repository.
    WorktreeExists { path: String },
    /// Delete the local branch `name`.
    DeleteBranch { name: String },
    /// Fetch from origin.
    Fetch,
}

pub enum SingleKindV {
    WorktreeExists { path: Seq<char> },
    DeleteBranch { name: Seq<char> },
    Fetch,
}

impl View for SingleKind {
    type V = SingleKindV;

    open spec fn view(&self) -> SingleKindV {
        match self {
            SingleKind::WorktreeExists { path } => SingleKindV::WorktreeExists { path: path@ },
            SingleKind::DeleteBranch { name } => SingleKindV::DeleteBranch { name: name@ },
            SingleKind::Fetch => SingleKindV::Fetch,
        }
    }
}

/// An operation made of one `git` command in a repository; its outcome is
/// a flag (`true` for a fetch that succeeded).
pub struct SingleCommand {
    repo: String,
    kind: SingleKind,
    started: bool,
    outcome: Option<Result<bool, Error>>,
}

pub struct SingleCommandV {
    pub repo: Seq<char>,
    pub kind: SingleKindV,
    pub started: bool,
    pub outcome: Option<Result<bool, ErrorV>>,
}

impl View for SingleCommand {
    type V = SingleCommandV;

    closed spec fn view(&self) -> SingleCommandV {
        SingleCommandV {
            repo: self.repo@,
            kind: self.kind@,
            started: self.started,
            outcome: bool_outcome_view(self.outcome),
        }
    }
}

/// The command of the operation.
pub open spec fn single_cmd(repo: Seq<char>, kind: SingleKindV) -> GitCommandV {
    match kind {
        SingleKindV::WorktreeExists { .. } => worktree_list_cmd(repo),
        SingleKindV::DeleteBranch { name } => delete_branch_cmd(repo, name),
        SingleKindV::Fetch => fetch_cmd(repo),
    }
}

/// The outcome of the operation, given what its command gave. A command
/// that cannot be run is an I/O error.
pub open spec fn single_result(kind: SingleKindV, ran: Result<crate::effect::RanV, Seq<char>>) -> Result<
    bool,
    ErrorV,
> {
    match kind {
        SingleKindV::WorktreeExists { path } => match ran {
            Err(e) => Err(ErrorV::Io(e)),
            Ok(x) => Ok(worktree_listed(x.stdout, path)),
        },
        SingleKindV::DeleteBranch { name } => deletion_result(name, ran),
        SingleKindV::Fetch => match fetch_result(ran) {
            Ok(()) => Ok(true),
            Err(e) => Err(e),
        },
    }
}

/// One step of a single-command operation: the command, then the outcome.
pub open spec fn single_resume(m: SingleCommandV, r: ReplyV) -> (SingleCommandV, StepV) {
    if m.outcome is Some {
        (m, StepV::Finished)
    } else if !m.started {
        (
            SingleCommandV { started: true, ..m },
            StepV::Do(RequestV::Git(single_cmd(m.repo, m.kind))),
        )
    } else {
        (SingleCommandV { outcome: Some(single_result(m.kind, ran_of(r))), ..m }, StepV::Finished)
    }
}

pub open spec fn single_start(repo: Seq<char>, kind: SingleKindV) -> SingleCommandV {
    SingleCommandV { repo, kind, started: false, outcome: None }
}

/// Whether a worktree at `worktree_path` is registered for the repository at
/// `repo_path` (its path occurs in `git worktree list --porcelain`).
pub fn worktree_exists(repo_path: String, worktree_path: String) -> (m: SingleCommand)
    ensures
        m@ == single_start(repo_path@, SingleKindV::WorktreeExists { path: worktree_path@ }),
{
    SingleCommand {
        repo: repo_path,
        kind: SingleKind::WorktreeExists { path: worktree_path },
        started: false,
        outcome: None,
    }
}

/// Delete a local branch: `true` if deleted, `false` if it was not found.
pub fn delete_branch(repo_path: String, branch_name: String) -> (m: SingleCommand)
    ensures
        m@ == single_start(repo_path@, SingleKindV::DeleteBranch { name: branch_name@ }),
{
    SingleCommand {
        repo: repo_path,
        kind: SingleKind::DeleteBranch { name: branch_name },
        started: false,
        outcome: None,
    }
}

/// Fetch from origin.
pub fn fetch_origin(repo_path: String) -> (m: SingleCommand)
    ensures
        m@ == single_start(repo_path@, SingleKindV::Fetch),
{
    SingleCommand { repo: repo_path, kind: SingleKind::Fetch, started: false, outcome: None }
}

fn single_request(repo: &String, kind: &SingleKind) -> (q: Request)
    ensures
        q@ == RequestV::Git(single_cmd(repo@, kind@)),
{
    let place = Place::Cwd(repo.clone());
    match kind {
        SingleKind::WorktreeExists { .. } => Request::Git(
            git(place, args3(s("worktree"), s("list"), s("--porcelain")), Output::Capture),
        ),
        SingleKind::DeleteBranch { name } => Request::Git(
            git(place, args3(s("branch"), s("-d"), name.clone()), Output::Capture),
        ),
        SingleKind::Fetch => Request::Git(git(place, args2(s("fetch"), s("origin")), Output::Inherit)),
    }
}

fn single_outcome(kind: &SingleKind, ran: Result<crate::effect::Ran, String>) -> (o: Result<bool, Error>)
    ensures
        single_result(kind@, match ran {
            Ok(x) => Ok(x@),
            Err(e) => Err(e@),
        }) == match o {
            Ok(b) => Ok(b),
            Err(e) => Err::<bool, ErrorV>(e@),
        },
{
    match ran {
        Err(e) => Err(Error::Io(e)),
        Ok(x) => match kind {
            SingleKind::WorktreeExists { path } => Ok(is_worktree_listed(x.stdout.as_str(), path.as_str())),
            SingleKind::DeleteBranch { name } => {
                if x.success {
                    Ok(true)
                } else if contains_str(x.stderr.as_str(), "not found") {
                    Ok(false)
                } else {
                    let t = trim_str(x.stderr.as_str());
                    let mut m = cat3("Failed to delete branch '", name.as_str(), "': ");
                    m.append(t.as_str());
                    Err(Error::GitCommand(m))
                }
            },
            SingleKind::Fetch => if x.success {
                Ok(true)
            } else {
                Err(Error::GitCommand(s("git fetch origin failed")))
            },
        },
    }
}

impl SingleCommand {
    /// The result, once the operation has finished.
    pub fn into_outcome(self) -> (o: Option<Result<bool, Error>>)
        ensures
            bool_outcome_view(o) == self@.outcome,
    {
        self.outcome
    }

    /// The result, once the operation has finished.
    pub fn outcome(&self) -> (o: &Option<Result<bool, Error>>)
        ensures
            bool_outcome_view(*o) == self@.outcome,
    {
        &self.outcome
    }

    /// One step of the operation.
    pub fn resume(&mut self, reply: Reply) -> (st: Step)
        ensures
            (final(self)@, st@) == single_resume(old(self)@, reply@),
    {
        if self.outcome.is_some() {
            Step::Finished
        } else if !self.started {
            self.started = true;
            Step::Do(single_request(&self.repo, &self.kind))
        } else {
            let o = single_outcome(&self.kind, take_ran(reply));
            self.outcome = Some(o);
            Step::Finished
        }
    }
}

} // verus!
