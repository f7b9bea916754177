//! The requests that an operation hands to its driver, and the replies that
//! the driver hands back.
//!
//! An operation of this library never touches the filesystem or runs `git`
//! itself. It is a machine: each call of its `resume` takes the reply to the
//! previous request and returns the next request, or says that it has
//! finished. Strings that name files are paths in the Unix sense.

use vstd::prelude::*;
use crate::text::views;

verus! {

/// Where a `git` command runs.
#[derive(Debug)]
pub enum Place {
    /// In this working directory.
    Cwd(String),
    /// Against this git directory (`git --git-dir DIR ...`).
    GitDir(String),
    /// As if started in this directory (`git -C DIR ...`).
    Within(String),
}

/// What happens to the output of a `git` command.
#[derive(Debug, PartialEq, Eq, Structural, Clone, Copy)]
pub enum Output {
    /// Shown to the user; only the exit status comes back.
    Inherit,
    /// Captured and handed back.
    Capture,
    /// Thrown away; only the exit status comes back.
    Silence,
}

/// A `git` invocation.
#[derive(Debug)]
pub struct GitCommand {
    pub place: Place,
    pub args: Vec<String>,
    /// Extra environment variables.
    pub env: Vec<(String, String)>,
    pub output: Output,
}

/// One piece of outside work.
#[derive(Debug)]
pub enum Request {
    /// Resolve a path to its canonical absolute form. Reply: `Path`.
    Canonicalize(String),
    /// Whether a path exists (following symlinks). Reply: `Flag`.
    Exists(String),
    /// Whether a path is a directory (following symlinks). Reply: `Flag`.
    IsDir(String),
    /// Whether a path is a regular file (following symlinks). Reply: `Flag`.
    IsFile(String),
    /// The contents of a file. Reply: `Text`.
    ReadFile(String),
    /// The names of the entries of a directory, in the order the system lists
    /// them, entries that could not be read left out. Reply: `Names`.
    ListDir(String),
    /// Create a directory and its missing parents. Reply: `Done`.
    CreateDirAll(String),
    /// Remove a directory and everything under it. Reply: `Done`.
    RemoveDirAll(String),
    /// Copy a file. Reply: `Done`.
    CopyFile(String, String),
    /// Copy a directory recursively. Reply: `Done`.
    CopyDir(String, String),
    /// Run git. Reply: `Ran`.
    Git(GitCommand),
}

/// What a finished `git` command gave back.
#[derive(Debug)]
pub struct Ran {
    /// Whether it exited with status 0.
    pub success: bool,
    /// Its exit code, if it exited normally.
    pub code: Option<i32>,
    /// Its standard output, when captured.
    pub stdout: String,
    /// Its standard error, when captured.
    pub stderr: String,
}

/// The answer to a request.
#[derive(Debug)]
pub enum Reply {
    /// The first resume of a machine, which answers nothing.
    Start,
    Flag(bool),
    /// A canonical path, or why it could not be had.
    Path(Result<String, String>),
    /// A file's text, or why it could not be read.
    Text(Result<String, String>),
    /// A directory's entries, or `None` if it could not be listed.
    Names(Option<Vec<String>>),
    /// Whether the action succeeded, or why not.
    Done(Result<(), String>),
    /// The command's result, or why it could not be run.
    Ran(Result<Ran, String>),
}

/// What a machine asks for next.
#[derive(Debug)]
pub enum Step {
    Do(Request),
    Finished,
}

// ---------------------------------------------------------------------------
// Mathematical views.

pub enum PlaceV {
    Cwd(Seq<char>),
    GitDir(Seq<char>),
    Within(Seq<char>),
}

pub struct GitCommandV {
    pub place: PlaceV,
    pub args: Seq<Seq<char>>,
    pub env: Seq<(Seq<char>, Seq<char>)>,
    pub output: Output,
}

pub enum RequestV {
    Canonicalize(Seq<char>),
    Exists(Seq<char>),
    IsDir(Seq<char>),
    IsFile(Seq<char>),
    ReadFile(Seq<char>),
    ListDir(Seq<char>),
    CreateDirAll(Seq<char>),
    RemoveDirAll(Seq<char>),
    CopyFile(Seq<char>, Seq<char>),
    CopyDir(Seq<char>, Seq<char>),
    Git(GitCommandV),
}

pub struct RanV {
    pub success: bool,
    pub code: Option<i32>,
    pub stdout: Seq<char>,
    pub stderr: Seq<char>,
}

pub enum ReplyV {
    Start,
    Flag(bool),
    Path(Result<Seq<char>, Seq<char>>),
    Text(Result<Seq<char>, Seq<char>>),
    Names(Option<Seq<Seq<char>>>),
    Done(Result<(), Seq<char>>),
    Ran(Result<RanV, Seq<char>>),
}

pub enum StepV {
    Do(RequestV),
    Finished,
}

pub open spec fn str_result_view(r: Result<String, String>) -> Result<Seq<char>, Seq<char>> {
    match r {
        Ok(s) => Ok(s@),
        Err(e) => Err(e@),
    }
}

pub open spec fn env_view(env: Seq<(String, String)>) -> Seq<(Seq<char>, Seq<char>)> {
    env.map_values(|p: (String, String)| (p.0@, p.1@))
}

impl View for Place {
    type V = PlaceV;

    open spec fn view(&self) -> PlaceV {
        match self {
            Place::Cwd(p) => PlaceV::Cwd(p@),
            Place::GitDir(p) => PlaceV::GitDir(p@),
            Place::Within(p) => PlaceV::Within(p@),
        }
    }
}

impl View for GitCommand {
    type V = GitCommandV;

    open spec fn view(&self) -> GitCommandV {
        GitCommandV {
            place: self.place@,
            args: views(self.args@),
            env: env_view(self.env@),
            output: self.output,
        }
    }
}

impl View for Request {
    type V = RequestV;

    open spec fn view(&self) -> RequestV {
        match self {
            Request::Canonicalize(p) => RequestV::Canonicalize(p@),
            Request::Exists(p) => RequestV::Exists(p@),
            Request::IsDir(p) => RequestV::IsDir(p@),
            Request::IsFile(p) => RequestV::IsFile(p@),
            Request::ReadFile(p) => RequestV::ReadFile(p@),
            Request::ListDir(p) => RequestV::ListDir(p@),
            Request::CreateDirAll(p) => RequestV::CreateDirAll(p@),
            Request::RemoveDirAll(p) => RequestV::RemoveDirAll(p@),
            Request::CopyFile(a, b) => RequestV::CopyFile(a@, b@),
            Request::CopyDir(a, b) => RequestV::CopyDir(a@, b@),
            Request::Git(c) => RequestV::Git(c@),
        }
    }
}

impl View for Ran {
    type V = RanV;

    open spec fn view(&self) -> RanV {
        RanV { success: self.success, code: self.code, stdout: self.stdout@, stderr: self.stderr@ }
    }
}

impl View for Reply {
    type V = ReplyV;

    open spec fn view(&self) -> ReplyV {
        match self {
            Reply::Start => ReplyV::Start,
            Reply::Flag(b) => ReplyV::Flag(*b),
            Reply::Path(r) => ReplyV::Path(str_result_view(*r)),
            Reply::Text(r) => ReplyV::Text(str_result_view(*r)),
            Reply::Names(n) => ReplyV::Names(
                match n {
                    Some(v) => Some(views(v@)),
                    None => None,
                },
            ),
            Reply::Done(r) => ReplyV::Done(
                match r {
                    Ok(()) => Ok(()),
                    Err(e) => Err(e@),
                },
            ),
            Reply::Ran(r) => ReplyV::Ran(
                match r {
                    Ok(x) => Ok(x@),
                    Err(e) => Err(e@),
                },
            ),
        }
    }
}

impl View for Step {
    type V = StepV;

    open spec fn view(&self) -> StepV {
        match self {
            Step::Do(r) => StepV::Do(r@),
            Step::Finished => StepV::Finished,
        }
    }
}

// ---------------------------------------------------------------------------
// Reading a reply as the answer that a request expects. A reply of another
// kind than the request asked for is read as the negative answer.

/// The text given for a reply of the wrong kind.
pub open spec fn mismatch_text() -> Seq<char> {
    "reply does not answer the request"@
}

pub open spec fn flag_of(r: ReplyV) -> bool {
    match r {
        ReplyV::Flag(b) => b,
        _ => false,
    }
}

pub open spec fn path_of(r: ReplyV) -> Result<Seq<char>, Seq<char>> {
    match r {
        ReplyV::Path(p) => p,
        _ => Err(mismatch_text()),
    }
}

pub open spec fn text_of(r: ReplyV) -> Result<Seq<char>, Seq<char>> {
    match r {
        ReplyV::Text(t) => t,
        _ => Err(mismatch_text()),
    }
}

pub open spec fn names_of(r: ReplyV) -> Option<Seq<Seq<char>>> {
    match r {
        ReplyV::Names(n) => n,
        _ => None,
    }
}

pub open spec fn done_of(r: ReplyV) -> Result<(), Seq<char>> {
    match r {
        ReplyV::Done(d) => d,
        _ => Err(mismatch_text()),
    }
}

pub open spec fn ran_of(r: ReplyV) -> Result<RanV, Seq<char>> {
    match r {
        ReplyV::Ran(x) => x,
        _ => Err(mismatch_text()),
    }
}

fn mismatch() -> (s: String)
    ensures
        s@ == mismatch_text(),
{
    String::from_str("reply does not answer the request")
}

/// The flag that a reply carries.
pub fn take_flag(r: Reply) -> (b: bool)
    ensures
        b == flag_of(r@),
{
    match r {
        Reply::Flag(b) => b,
        _ => false,
    }
}

/// The canonical path that a reply carries.
pub fn take_path(r: Reply) -> (p: Result<String, String>)
    ensures
        str_result_view(p) == path_of(r@),
{
    match r {
        Reply::Path(p) => p,
        _ => Err(mismatch()),
    }
}

/// The file text that a reply carries.
pub fn take_text(r: Reply) -> (t: Result<String, String>)
    ensures
        str_result_view(t) == text_of(r@),
{
    match r {
        Reply::Text(t) => t,
        _ => Err(mismatch()),
    }
}

/// The directory listing that a reply carries.
pub fn take_names(r: Reply) -> (n: Option<Vec<String>>)
    ensures
        match n {
            Some(v) => names_of(r@) == Some(views(v@)),
            None => names_of(r@) is None,
        },
{
    match r {
        Reply::Names(n) => n,
        _ => None,
    }
}

/// Whether the action that a reply answers succeeded.
pub fn take_done(r: Reply) -> (d: Result<(), String>)
    ensures
        match d {
            Ok(()) => done_of(r@) is Ok,
            Err(e) => done_of(r@) == Err::<(), Seq<char>>(e@),
        },
{
    match r {
        Reply::Done(d) => d,
        _ => Err(mismatch()),
    }
}

/// The command result that a reply carries.
pub fn take_ran(r: Reply) -> (x: Result<Ran, String>)
    ensures
        match x {
            Ok(o) => ran_of(r@) == Ok::<RanV, Seq<char>>(o@),
            Err(e) => ran_of(r@) == Err::<RanV, Seq<char>>(e@),
        },
{
    match r {
        Reply::Ran(x) => x,
        _ => Err(mismatch()),
    }
}

/// A string from a literal.
pub fn s(lit: &str) -> (r: String)
    ensures
        r@ == lit@,
{
    String::from_str(lit)
}

/// A `git` command whose arguments are given as literals.
pub fn git(place: Place, args: Vec<String>, output: Output) -> (c: GitCommand)
    ensures
        c@ == (GitCommandV { place: place@, args: views(args@), env: Seq::empty(), output }),
{
    let c = GitCommand { place, args, env: Vec::new(), output };
    assert(c@.env =~= Seq::<(Seq<char>, Seq<char>)>::empty());
    c
}

/// The arguments `a`, `b`.
pub fn args2(a: String, b: String) -> (v: Vec<String>)
    ensures
        views(v@) == seq![a@, b@],
{
    let mut v = Vec::new();
    v.push(a);
    v.push(b);
    assert(views(v@) =~= seq![a@, b@]);
    v
}

/// The arguments `a`, `b`, `c`.
pub fn args3(a: String, b: String, c: String) -> (v: Vec<String>)
    ensures
        views(v@) == seq![a@, b@, c@],
{
    let mut v = Vec::new();
    v.push(a);
    v.push(b);
    v.push(c);
    assert(views(v@) =~= seq![a@, b@, c@]);
    v
}

/// The arguments `a`, `b`, `c`, `d`.
pub fn args4(a: String, b: String, c: String, d: String) -> (v: Vec<String>)
    ensures
        views(v@) == seq![a@, b@, c@, d@],
{
    let mut v = Vec::new();
    v.push(a);
    v.push(b);
    v.push(c);
    v.push(d);
    assert(views(v@) =~= seq![a@, b@, c@, d@]);
    v
}

} // verus!
