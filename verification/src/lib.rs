//! Recursive git worktrees.
//!
//! A worktree is created for a repository and, for every nested git
//! repository found under the source tree, a detached-HEAD sibling worktree
//! is created at the matching relative path inside the new worktree.
//!
//! The library holds every decision of that process. The work that touches
//! the filesystem or runs `git` is described by requests (see [`effect`])
//! that a driver performs and answers; each operation is a resumable
//! machine whose steps are verified.

pub mod builder;
pub mod cli;
pub mod config;
pub mod create;
pub mod effect;
pub mod error;
pub mod info;
pub mod nested;
pub mod ops;
pub mod path;
pub mod remove;
pub mod submodules;
pub mod text;

pub use builder::WorktreeBuilder;
pub use config::RepoConfig;
pub use error::Error;
pub use info::{InfoLookup, WorktreeInfo};
pub use nested::{find_nested_git_repos, find_nested_git_repos_with, find_nested_worktrees, NestedGitRepo};
pub use ops::{branch_exists, create_branch_if_needed, delete_branch, fetch_origin, worktree_exists};
pub use remove::remove_worktree;

use vstd::prelude::*;

verus! {

/// Directory names skipped by default during nested-repo discovery.
pub open spec fn default_skips() -> Seq<Seq<char>> {
    seq!["node_modules"@, "target"@, "_build"@, "build"@, "dist"@]
}

/// The directory names skipped by default during nested-repo discovery.
pub fn default_skip_dirs() -> (v: Vec<String>)
    ensures
        text::views(v@) == default_skips(),
{
    let mut v: Vec<String> = Vec::new();
    v.push(String::from_str("node_modules"));
    v.push(String::from_str("target"));
    v.push(String::from_str("_build"));
    v.push(String::from_str("build"));
    v.push(String::from_str("dist"));
    assert(text::views(v@) =~= default_skips());
    v
}

} // verus!
