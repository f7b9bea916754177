//! What a worktree is: where its files, its administrative directory, and
//! the main repository's git directory are.

use vstd::prelude::*;
use crate::effect::{
    flag_of, path_of, take_flag, take_path, take_text, text_of, Reply, ReplyV, Request, RequestV,
    Step, StepV,
};
use crate::error::{Error, ErrorV};
use crate::path::{join, join_path, parent, parent_path};
use crate::text::{chars_of, has_prefix, string_from, trim, trim_chars, trim_str};

verus! {

/// Information about a git worktree.
#[derive(Debug)]
pub struct WorktreeInfo {
    /// Path to the worktree working directory.
    pub worktree_path: String,
    /// Path to the worktree admin dir (`main_repo/.git/worktrees/{name}/`).
    pub worktree_git_dir: String,
    /// Path to the main `.git` directory.
    pub main_git_dir: String,
    /// Path to the main repository working directory (the parent of
    /// `main_git_dir`; for a separated git dir such as `repo.git/` beside
    /// `repo/` this is not the working tree).
    pub main_repo_path: String,
    /// Whether this is the main worktree (not a linked worktree).
    pub is_main_worktree: bool,
}

pub struct WorktreeInfoV {
    pub worktree_path: Seq<char>,
    pub worktree_git_dir: Seq<char>,
    pub main_git_dir: Seq<char>,
    pub main_repo_path: Seq<char>,
    pub is_main_worktree: bool,
}

impl View for WorktreeInfo {
    type V = WorktreeInfoV;

    open spec fn view(&self) -> WorktreeInfoV {
        WorktreeInfoV {
            worktree_path: self.worktree_path@,
            worktree_git_dir: self.worktree_git_dir@,
            main_git_dir: self.main_git_dir@,
            main_repo_path: self.main_repo_path@,
            is_main_worktree: self.is_main_worktree,
        }
    }
}

impl Clone for WorktreeInfo {
    fn clone(&self) -> (c: Self)
        ensures
            c@ == self@,
    {
        WorktreeInfo {
            worktree_path: self.worktree_path.clone(),
            worktree_git_dir: self.worktree_git_dir.clone(),
            main_git_dir: self.main_git_dir.clone(),
            main_repo_path: self.main_repo_path.clone(),
            is_main_worktree: self.is_main_worktree,
        }
    }
}

/// The prefix of a `.git` file that points to a git directory.
pub open spec fn gitdir_prefix() -> Seq<char> {
    "gitdir: "@
}

/// The git directory that a `.git` file names: its trimmed text must begin
/// with `gitdir: `, and the rest is the directory.
pub open spec fn parse_gitdir_spec(content: Seq<char>, git_path: Seq<char>) -> Result<
    Seq<char>,
    ErrorV,
> {
    let t = trim(content);
    if has_prefix(t, gitdir_prefix()) {
        Ok(t.subrange(8, t.len() as int))
    } else {
        Err(ErrorV::InvalidGitFile(git_path))
    }
}

/// Reads the git directory out of the text of the `.git` file at
/// `git_path`.
pub fn parse_gitdir(content: &str, git_path: &str) -> (r: Result<String, Error>)
    ensures
        match r {
            Ok(d) => parse_gitdir_spec(content@, git_path@) == Ok::<Seq<char>, ErrorV>(d@),
            Err(e) => parse_gitdir_spec(content@, git_path@) == Err::<Seq<char>, ErrorV>(e@),
        },
{
    let cs = chars_of(content);
    let t = trim_chars(cs.as_slice());
    proof {
        reveal_strlit("gitdir: ");
    }
    let ok = t.len() >= 8 && t[0] == 'g' && t[1] == 'i' && t[2] == 't' && t[3] == 'd' && t[4]
        == 'i' && t[5] == 'r' && t[6] == ':' && t[7] == ' ';
    proof {
        if ok {
            assert(t@.subrange(0, 8) =~= gitdir_prefix());
        } else if t@.len() >= 8 {
            assert(t@.subrange(0, 8) != gitdir_prefix()) by {
                if t@.subrange(0, 8) == gitdir_prefix() {
                    assert(t@[0] == t@.subrange(0, 8)[0]);
                    assert(t@[1] == t@.subrange(0, 8)[1]);
                    assert(t@[2] == t@.subrange(0, 8)[2]);
                    assert(t@[3] == t@.subrange(0, 8)[3]);
                    assert(t@[4] == t@.subrange(0, 8)[4]);
                    assert(t@[5] == t@.subrange(0, 8)[5]);
                    assert(t@[6] == t@.subrange(0, 8)[6]);
                    assert(t@[7] == t@.subrange(0, 8)[7]);
                }
            }
        }
    }
    if ok {
        Ok(string_from(&t, 8))
    } else {
        Err(Error::InvalidGitFile(String::from_str(git_path)))
    }
}

enum InfoPhase {
    Begin,
    Canon,
    GitExists { path: String },
    GitIsDir { path: String },
    ReadGit { path: String },
    CanonGitDir { path: String, gitdir: String },
    CommonExists { path: String, wgd: String },
    ReadCommon { path: String, wgd: String },
    CanonCommon { path: String, wgd: String, target: String },
    Done,
}

/// What the lookup awaits. `path` is the canonical worktree path, `wgd`
/// the canonical worktree git directory.
pub enum InfoPhaseV {
    Begin,
    /// The canonical form of the given path.
    Canon,
    /// Whether `path/.git` exists.
    GitExists { path: Seq<char> },
    /// Whether `path/.git` is a directory.
    GitIsDir { path: Seq<char> },
    /// The text of the `.git` file.
    ReadGit { path: Seq<char> },
    /// The canonical form of the git directory that the `.git` file names.
    CanonGitDir { path: Seq<char>, gitdir: Seq<char> },
    /// Whether `wgd/commondir` exists.
    CommonExists { path: Seq<char>, wgd: Seq<char> },
    /// The text of `wgd/commondir`.
    ReadCommon { path: Seq<char>, wgd: Seq<char> },
    /// The canonical form of the main git directory `target`.
    CanonCommon { path: Seq<char>, wgd: Seq<char>, target: Seq<char> },
    Done,
}

impl View for InfoPhase {
    type V = InfoPhaseV;

    closed spec fn view(&self) -> InfoPhaseV {
        match self {
            InfoPhase::Begin => InfoPhaseV::Begin,
            InfoPhase::Canon => InfoPhaseV::Canon,
            InfoPhase::GitExists { path } => InfoPhaseV::GitExists { path: path@ },
            InfoPhase::GitIsDir { path } => InfoPhaseV::GitIsDir { path: path@ },
            InfoPhase::ReadGit { path } => InfoPhaseV::ReadGit { path: path@ },
            InfoPhase::CanonGitDir { path, gitdir } => InfoPhaseV::CanonGitDir {
                path: path@,
                gitdir: gitdir@,
            },
            InfoPhase::CommonExists { path, wgd } => InfoPhaseV::CommonExists {
                path: path@,
                wgd: wgd@,
            },
            InfoPhase::ReadCommon { path, wgd } => InfoPhaseV::ReadCommon {
                path: path@,
                wgd: wgd@,
            },
            InfoPhase::CanonCommon { path, wgd, target } => InfoPhaseV::CanonCommon {
                path: path@,
                wgd: wgd@,
                target: target@,
            },
            InfoPhase::Done => InfoPhaseV::Done,
        }
    }
}

/// The lookup of a worktree's information from a path inside the
/// filesystem.
pub struct InfoLookup {
    input: String,
    phase: InfoPhase,
    outcome: Option<Result<WorktreeInfo, Error>>,
}

pub struct InfoLookupV {
    pub input: Seq<char>,
    pub phase: InfoPhaseV,
    /// The result, once the lookup is over.
    pub outcome: Option<Result<WorktreeInfoV, ErrorV>>,
}

pub open spec fn info_outcome_view(o: Option<Result<WorktreeInfo, Error>>) -> Option<
    Result<WorktreeInfoV, ErrorV>,
> {
    match o {
        Some(Ok(i)) => Some(Ok(i@)),
        Some(Err(e)) => Some(Err(e@)),
        None => None,
    }
}

impl View for InfoLookup {
    type V = InfoLookupV;

    closed spec fn view(&self) -> InfoLookupV {
        InfoLookupV {
            input: self.input@,
            phase: self.phase@,
            outcome: info_outcome_view(self.outcome),
        }
    }
}

pub open spec fn dot_git(p: Seq<char>) -> Seq<char> {
    join_path(p, ".git"@)
}

pub open spec fn commondir_of(wgd: Seq<char>) -> Seq<char> {
    join_path(wgd, "commondir"@)
}

/// The information of the worktree at `path`, whose administrative
/// directory is `wgd` and main git directory `main`.
pub open spec fn info_result(path: Seq<char>, wgd: Seq<char>, main: Seq<char>, is_main: bool) -> Result<
    WorktreeInfoV,
    ErrorV,
> {
    match parent_path(main) {
        None => Err(ErrorV::InvalidPath("Main .git has no parent"@)),
        Some(repo) => Ok(
            WorktreeInfoV {
                worktree_path: path,
                worktree_git_dir: wgd,
                main_git_dir: main,
                main_repo_path: repo,
                is_main_worktree: is_main,
            },
        ),
    }
}

pub open spec fn info_done(m: InfoLookupV, o: Result<WorktreeInfoV, ErrorV>) -> (
    InfoLookupV,
    StepV,
) {
    (InfoLookupV { phase: InfoPhaseV::Done, outcome: Some(o), ..m }, StepV::Finished)
}

pub open spec fn info_ask(m: InfoLookupV, phase: InfoPhaseV, req: RequestV) -> (
    InfoLookupV,
    StepV,
) {
    (InfoLookupV { phase, ..m }, StepV::Do(req))
}

/// One step of the lookup.
pub open spec fn info_resume(m: InfoLookupV, r: ReplyV) -> (InfoLookupV, StepV) {
    match m.phase {
        InfoPhaseV::Begin => info_ask(m, InfoPhaseV::Canon, RequestV::Canonicalize(m.input)),
        InfoPhaseV::Canon => match path_of(r) {
            Err(e) => info_done(m, Err(ErrorV::GitFileRead { path: m.input, source: e })),
            Ok(p) => info_ask(m, InfoPhaseV::GitExists { path: p }, RequestV::Exists(dot_git(p))),
        },
        InfoPhaseV::GitExists { path } => if flag_of(r) {
            info_ask(m, InfoPhaseV::GitIsDir { path }, RequestV::IsDir(dot_git(path)))
        } else {
            info_done(m, Err(ErrorV::NotWorktree(path)))
        },
        InfoPhaseV::GitIsDir { path } => if flag_of(r) {
            info_done(m, Err(ErrorV::IsMainRepo(path)))
        } else {
            info_ask(m, InfoPhaseV::ReadGit { path }, RequestV::ReadFile(dot_git(path)))
        },
        InfoPhaseV::ReadGit { path } => match text_of(r) {
            Err(e) => info_done(m, Err(ErrorV::GitFileRead { path: dot_git(path), source: e })),
            Ok(c) => match parse_gitdir_spec(c, dot_git(path)) {
                Err(e) => info_done(m, Err(e)),
                Ok(gitdir) => info_ask(
                    m,
                    InfoPhaseV::CanonGitDir { path, gitdir },
                    RequestV::Canonicalize(gitdir),
                ),
            },
        },
        InfoPhaseV::CanonGitDir { path, gitdir } => match path_of(r) {
            Err(e) => info_done(m, Err(ErrorV::GitFileRead { path: gitdir, source: e })),
            Ok(wgd) => info_ask(
                m,
                InfoPhaseV::CommonExists { path, wgd },
                RequestV::Exists(commondir_of(wgd)),
            ),
        },
        InfoPhaseV::CommonExists { path, wgd } => if flag_of(r) {
            info_ask(m, InfoPhaseV::ReadCommon { path, wgd }, RequestV::ReadFile(commondir_of(wgd)))
        } else {
            info_done(m, info_result(path, wgd, wgd, true))
        },
        InfoPhaseV::ReadCommon { path, wgd } => match text_of(r) {
            Err(e) => info_done(m, Err(ErrorV::GitFileRead { path: commondir_of(wgd), source: e })),
            Ok(c) => {
                let target = join_path(wgd, trim(c));
                info_ask(
                    m,
                    InfoPhaseV::CanonCommon { path, wgd, target },
                    RequestV::Canonicalize(target),
                )
            },
        },
        InfoPhaseV::CanonCommon { path, wgd, target } => match path_of(r) {
            Err(e) => info_done(m, Err(ErrorV::GitFileRead { path: target, source: e })),
            Ok(main) => info_done(m, info_result(path, wgd, main, false)),
        },
        InfoPhaseV::Done => (m, StepV::Finished),
    }
}

/// The lookup before its first step.
pub open spec fn info_start(input: Seq<char>) -> InfoLookupV {
    InfoLookupV { input, phase: InfoPhaseV::Begin, outcome: None }
}

fn make_info(path: String, wgd: String, main: String, is_main: bool) -> (r: Result<WorktreeInfo, Error>)
    ensures
        match r {
            Ok(i) => info_result(path@, wgd@, main@, is_main) == Ok::<WorktreeInfoV, ErrorV>(i@),
            Err(e) => info_result(path@, wgd@, main@, is_main) == Err::<WorktreeInfoV, ErrorV>(e@),
        },
{
    match parent(main.as_str()) {
        None => Err(Error::InvalidPath(String::from_str("Main .git has no parent"))),
        Some(repo) => Ok(
            WorktreeInfo {
                worktree_path: path,
                worktree_git_dir: wgd,
                main_git_dir: main,
                main_repo_path: repo,
                is_main_worktree: is_main,
            },
        ),
    }
}

impl WorktreeInfo {
    /// The lookup of the information of the worktree at `path`: `path` made
    /// canonical must hold a `.git` file that names the worktree's admin
    /// directory, whose `commondir` (if any) names the main git directory.
    pub fn from_path(path: String) -> (m: InfoLookup)
        ensures
            m@ == info_start(path@),
    {
        InfoLookup::new(path)
    }
}

impl InfoLookup {
    /// The lookup of the information of the worktree at `path`.
    pub fn new(path: String) -> (m: InfoLookup)
        ensures
            m@ == info_start(path@),
    {
        InfoLookup { input: path, phase: InfoPhase::Begin, outcome: None }
    }

    /// The result, once the lookup has finished.
    pub fn outcome(&self) -> (o: &Option<Result<WorktreeInfo, Error>>)
        ensures
            info_outcome_view(*o) == self@.outcome,
    {
        &self.outcome
    }

    /// The result, once the lookup has finished.
    pub fn into_outcome(self) -> (o: Option<Result<WorktreeInfo, Error>>)
        ensures
            info_outcome_view(o) == self@.outcome,
    {
        self.outcome
    }

    fn finish(&mut self, o: Result<WorktreeInfo, Error>) -> (st: Step)
        ensures
            final(self)@ == (InfoLookupV {
                phase: InfoPhaseV::Done,
                outcome: info_outcome_view(Some(o)),
                ..old(self)@
            }),
            st@ == StepV::Finished,
    {
        self.phase = InfoPhase::Done;
        self.outcome = Some(o);
        Step::Finished
    }

    /// One step of the lookup.
    pub fn resume(&mut self, reply: Reply) -> (st: Step)
        ensures
            (final(self)@, st@) == info_resume(old(self)@, reply@),
    {
        let ghost m = self@;
        match &self.phase {
            InfoPhase::Begin => {
                self.phase = InfoPhase::Canon;
                Step::Do(Request::Canonicalize(self.input.clone()))
            },
            InfoPhase::Canon => match take_path(reply) {
                Err(e) => {
                    let input = self.input.clone();
                    self.finish(Err(Error::GitFileRead { path: input, source: e }))
                },
                Ok(p) => {
                    let g = join(p.as_str(), ".git");
                    self.phase = InfoPhase::GitExists { path: p };
                    Step::Do(Request::Exists(g))
                },
            },
            InfoPhase::GitExists { path } => {
                let path = path.clone();
                if take_flag(reply) {
                    let g = join(path.as_str(), ".git");
                    self.phase = InfoPhase::GitIsDir { path };
                    Step::Do(Request::IsDir(g))
                } else {
                    self.finish(Err(Error::NotWorktree(path)))
                }
            },
            InfoPhase::GitIsDir { path } => {
                let path = path.clone();
                if take_flag(reply) {
                    self.finish(Err(Error::IsMainRepo(path)))
                } else {
                    let g = join(path.as_str(), ".git");
                    self.phase = InfoPhase::ReadGit { path };
                    Step::Do(Request::ReadFile(g))
                }
            },
            InfoPhase::ReadGit { path } => {
                let path = path.clone();
                let g = join(path.as_str(), ".git");
                match take_text(reply) {
                    Err(e) => self.finish(Err(Error::GitFileRead { path: g, source: e })),
                    Ok(c) => match parse_gitdir(c.as_str(), g.as_str()) {
                        Err(e) => self.finish(Err(e)),
                        Ok(gitdir) => {
                            let req = Request::Canonicalize(gitdir.clone());
                            self.phase = InfoPhase::CanonGitDir { path, gitdir };
                            Step::Do(req)
                        },
                    },
                }
            },
            InfoPhase::CanonGitDir { path, gitdir } => {
                let path = path.clone();
                let gitdir = gitdir.clone();
                match take_path(reply) {
                    Err(e) => self.finish(Err(Error::GitFileRead { path: gitdir, source: e })),
                    Ok(wgd) => {
                        let cd = join(wgd.as_str(), "commondir");
                        self.phase = InfoPhase::CommonExists { path, wgd };
                        Step::Do(Request::Exists(cd))
                    },
                }
            },
            InfoPhase::CommonExists { path, wgd } => {
                let path = path.clone();
                let wgd = wgd.clone();
                if take_flag(reply) {
                    let cd = join(wgd.as_str(), "commondir");
                    self.phase = InfoPhase::ReadCommon { path, wgd };
                    Step::Do(Request::ReadFile(cd))
                } else {
                    let main = wgd.clone();
                    let o = make_info(path, wgd, main, true);
                    self.finish(o)
                }
            },
            InfoPhase::ReadCommon { path, wgd } => {
                let path = path.clone();
                let wgd = wgd.clone();
                match take_text(reply) {
                    Err(e) => {
                        let cd = join(wgd.as_str(), "commondir");
                        self.finish(Err(Error::GitFileRead { path: cd, source: e }))
                    },
                    Ok(c) => {
                        let t = trim_str(c.as_str());
                        let target = join(wgd.as_str(), t.as_str());
                        let req = Request::Canonicalize(target.clone());
                        self.phase = InfoPhase::CanonCommon { path, wgd, target };
                        Step::Do(req)
                    },
                }
            },
            InfoPhase::CanonCommon { path, wgd, target } => {
                let path = path.clone();
                let wgd = wgd.clone();
                let target = target.clone();
                match take_path(reply) {
                    Err(e) => self.finish(Err(Error::GitFileRead { path: target, source: e })),
                    Ok(main) => {
                        let o = make_info(path, wgd, main, false);
                        self.finish(o)
                    },
                }
            },
            InfoPhase::Done => Step::Finished,
        }
    }
}

} // verus!
