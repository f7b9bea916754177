# git-recworktree

Recursive `git worktree` for repositories that contain nested independent git
repositories (meson subprojects and the like): a worktree is created for the
main repository and a detached-HEAD sibling worktree for every nested
repository, at the same relative path inside the new worktree; removal takes
them down deepest first and prunes every git directory involved.

## Layout

- `src/` is the library, verified with Verus. Every operation (nested-repo
  discovery, worktree information lookup, configuration loading, branch
  creation, worktree creation with submodule setup and copies, removal, and
  the `add` / `remove` commands) is a machine: `resume` takes the reply to
  the previous request and returns the next request (`effect::Request`: a
  filesystem query or action, or a `git` command) or `Finished`. Each step's
  contract states the next state and request exactly; the laws of the tool
  (hidden and skipped directories never looked at, no directory entered
  twice, nested worktrees at the same relative path, deepest-first removal,
  pruning in path order, configuration that extends and never replaces, ...)
  are proof functions beside the machines. Failures that an operation passes
  over (a nested worktree that could not be added or removed, a copy that
  failed, a submodule update that failed, ...) are kept as warnings, in
  order, for the program to print.
- `app/` is the `git-recworktree` program: argument parsing with clap, the
  driver that performs requests with `std::fs` and `std::process`, and the
  error type with `thiserror`.
- `tests/` drive the machines against a filesystem and a `git` held in
  memory.
