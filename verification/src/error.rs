//! The errors of the library.

use vstd::prelude::*;
use crate::text::cat;

verus! {

/// Why an operation failed. Paths are given as strings, and the reason of a
/// failed filesystem access as the text that the system gave.
#[derive(Debug)]
pub enum Error {
    NotWorktree(String),
    IsMainRepo(String),
    GitFileRead { path: String, source: String },
    InvalidGitFile(String),
    GitCommand(String),
    InvalidPath(String),
    Io(String),
}

pub enum ErrorV {
    NotWorktree(Seq<char>),
    IsMainRepo(Seq<char>),
    GitFileRead { path: Seq<char>, source: Seq<char> },
    InvalidGitFile(Seq<char>),
    GitCommand(Seq<char>),
    InvalidPath(Seq<char>),
    Io(Seq<char>),
}

impl View for Error {
    type V = ErrorV;

    open spec fn view(&self) -> ErrorV {
        match self {
            Error::NotWorktree(p) => ErrorV::NotWorktree(p@),
            Error::IsMainRepo(p) => ErrorV::IsMainRepo(p@),
            Error::GitFileRead { path, source } => ErrorV::GitFileRead {
                path: path@,
                source: source@,
            },
            Error::InvalidGitFile(p) => ErrorV::InvalidGitFile(p@),
            Error::GitCommand(m) => ErrorV::GitCommand(m@),
            Error::InvalidPath(m) => ErrorV::InvalidPath(m@),
            Error::Io(m) => ErrorV::Io(m@),
        }
    }
}

/// The text by which an error is shown to the user.
pub open spec fn error_message(e: ErrorV) -> Seq<char> {
    match e {
        ErrorV::NotWorktree(p) => "Not a git worktree: "@ + p,
        ErrorV::IsMainRepo(p) => "Path is a main repository, not a worktree: "@ + p,
        ErrorV::GitFileRead { path, source } => "Failed to read git file "@ + path + ": "@
            + source,
        ErrorV::InvalidGitFile(p) => "Invalid .git file format in "@ + p,
        ErrorV::GitCommand(m) => "Git command failed: "@ + m,
        ErrorV::InvalidPath(m) => "Invalid path: "@ + m,
        ErrorV::Io(m) => "IO error: "@ + m,
    }
}

impl Error {
    /// The text by which this error is shown to the user.
    pub fn message(&self) -> (m: String)
        ensures
            m@ == error_message(self@),
    {
        match self {
            Error::NotWorktree(p) => cat("Not a git worktree: ", p.as_str()),
            Error::IsMainRepo(p) => cat("Path is a main repository, not a worktree: ", p.as_str()),
            Error::GitFileRead { path, source } => {
                let mut m = cat("Failed to read git file ", path.as_str());
                m.append(": ");
                m.append(source.as_str());
                m
            },
            Error::InvalidGitFile(p) => cat("Invalid .git file format in ", p.as_str()),
            Error::GitCommand(m) => cat("Git command failed: ", m.as_str()),
            Error::InvalidPath(m) => cat("Invalid path: ", m.as_str()),
            Error::Io(m) => cat("IO error: ", m.as_str()),
        }
    }
}

} // verus!
