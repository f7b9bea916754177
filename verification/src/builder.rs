//! The builder that collects what a worktree creation needs.

use vstd::prelude::*;
use crate::config::{pair_views, RepoConfig};
use crate::text::{clone_strings, views};

verus! {

/// Builder for creating a worktree and its nested worktrees.
///
/// The builder collects the configuration; [`WorktreeBuilder::create`] gives
/// the creation, which performs the whole operation.
pub struct WorktreeBuilder {
    repo_path: String,
    worktree_path: String,
    branch_name: String,
    base_branch: String,
    copy_files: Vec<String>,
    copy_dirs: Vec<String>,
    copy_paths: Vec<String>,
    external_files: Vec<(String, String)>,
    skip_dirs: Vec<String>,
    share_lfs: bool,
    init_submodules: bool,
}

pub struct WorktreeBuilderV {
    /// The existing main repository (any worktree of it also works).
    pub repo_path: Seq<char>,
    /// Where the new worktree is created.
    pub worktree_path: Seq<char>,
    /// The branch checked out in the new worktree.
    pub branch_name: Seq<char>,
    /// The ref to branch from if the branch does not exist yet.
    pub base_branch: Seq<char>,
    /// Files to copy from the main repository (relative paths).
    pub copy_files: Seq<Seq<char>>,
    /// Directories to copy recursively from the main repository.
    pub copy_dirs: Seq<Seq<char>>,
    /// Paths to copy from the main repository, directories recursively,
    /// decided when the copy is made.
    pub copy_paths: Seq<Seq<char>>,
    /// Files from anywhere (absolute source) to copy to a relative
    /// destination.
    pub external_files: Seq<(Seq<char>, Seq<char>)>,
    /// Directory names passed over during nested-repo discovery.
    pub skip_dirs: Seq<Seq<char>>,
    /// Whether submodules share LFS storage with the main repository's.
    pub share_lfs: bool,
    /// Whether submodules are initialized in the new worktree.
    pub init_submodules: bool,
}

impl View for WorktreeBuilder {
    type V = WorktreeBuilderV;

    closed spec fn view(&self) -> WorktreeBuilderV {
        WorktreeBuilderV {
            repo_path: self.repo_path@,
            worktree_path: self.worktree_path@,
            branch_name: self.branch_name@,
            base_branch: self.base_branch@,
            copy_files: views(self.copy_files@),
            copy_dirs: views(self.copy_dirs@),
            copy_paths: views(self.copy_paths@),
            external_files: pair_views(self.external_files@),
            skip_dirs: views(self.skip_dirs@),
            share_lfs: self.share_lfs,
            init_submodules: self.init_submodules,
        }
    }
}

/// The builder as `new` makes it.
pub open spec fn builder_start(repo: Seq<char>, worktree: Seq<char>, branch: Seq<char>) -> WorktreeBuilderV {
    WorktreeBuilderV {
        repo_path: repo,
        worktree_path: worktree,
        branch_name: branch,
        base_branch: "origin/main"@,
        copy_files: Seq::empty(),
        copy_dirs: Seq::empty(),
        copy_paths: Seq::empty(),
        external_files: Seq::empty(),
        skip_dirs: crate::default_skips(),
        share_lfs: true,
        init_submodules: true,
    }
}

/// The builder with a repository configuration applied: its copies, its
/// external files and its skip names are added after those already there;
/// nothing is replaced.
pub open spec fn with_config(b: WorktreeBuilderV, cfg: crate::config::RepoConfigV) -> WorktreeBuilderV {
    WorktreeBuilderV {
        copy_paths: b.copy_paths + cfg.copies,
        external_files: b.external_files + cfg.externals,
        skip_dirs: b.skip_dirs + cfg.skip_dirs,
        ..b
    }
}

fn append_strings(v: &mut Vec<String>, more: &Vec<String>)
    ensures
        views(final(v)@) == views(old(v)@) + views(more@),
{
    let mut extra = clone_strings(more);
    let ghost a = views(v@);
    v.append(&mut extra);
    assert(views(v@) =~= a + views(more@));
}

impl WorktreeBuilder {
    /// Start a new builder.
    ///
    /// * `repo_path`: the existing main repo (any worktree of it also works)
    /// * `worktree_path`: where the new worktree should be created
    /// * `branch_name`: branch checked out in the new worktree
    ///
    /// The base branch is `origin/main`, nothing is copied, the default
    /// skip list is used, LFS is shared and submodules are initialized.
    pub fn new(repo_path: String, worktree_path: String, branch_name: String) -> (b: Self)
        ensures
            b@ == builder_start(repo_path@, worktree_path@, branch_name@),
    {
        let b = WorktreeBuilder {
            repo_path,
            worktree_path,
            branch_name,
            base_branch: String::from_str("origin/main"),
            copy_files: Vec::new(),
            copy_dirs: Vec::new(),
            copy_paths: Vec::new(),
            external_files: Vec::new(),
            skip_dirs: crate::default_skip_dirs(),
            share_lfs: true,
            init_submodules: true,
        };
        assert(b@.copy_files =~= Seq::<Seq<char>>::empty());
        assert(b@.copy_dirs =~= Seq::<Seq<char>>::empty());
        assert(b@.copy_paths =~= Seq::<Seq<char>>::empty());
        assert(b@.external_files =~= Seq::<(Seq<char>, Seq<char>)>::empty());
        b
    }

    /// Base ref to branch from if the target branch does not yet exist
    /// (`origin/main`, `origin/master`, `HEAD` are tried after it).
    pub fn base_branch(self, base: String) -> (b: Self)
        ensures
            b@ == (WorktreeBuilderV { base_branch: base@, ..self@ }),
    {
        let mut b = self;
        b.base_branch = base;
        b
    }

    /// Copy a file from the main repo into the new worktree (relative path).
    pub fn copy_file(self, path: String) -> (b: Self)
        ensures
            b@ == (WorktreeBuilderV { copy_files: self@.copy_files.push(path@), ..self@ }),
    {
        let mut b = self;
        b.copy_files.push(path);
        assert(b@.copy_files =~= self@.copy_files.push(path@));
        b
    }

    /// Copy a directory recursively from the main repo into the new worktree.
    pub fn copy_dir(self, path: String) -> (b: Self)
        ensures
            b@ == (WorktreeBuilderV { copy_dirs: self@.copy_dirs.push(path@), ..self@ }),
    {
        let mut b = self;
        b.copy_dirs.push(path);
        assert(b@.copy_dirs =~= self@.copy_dirs.push(path@));
        b
    }

    /// Copy an external file (absolute path) into the worktree at a relative
    /// destination.
    pub fn external_file(self, source: String, dest_in_worktree: String) -> (b: Self)
        ensures
            b@ == (WorktreeBuilderV {
                external_files: self@.external_files.push((source@, dest_in_worktree@)),
                ..self@
            }),
    {
        let mut b = self;
        b.external_files.push((source, dest_in_worktree));
        assert(b@.external_files =~= self@.external_files.push((source@, dest_in_worktree@)));
        b
    }

    /// Replace the skip list for nested-repo discovery (hidden directories
    /// are always skipped regardless).
    pub fn skip_dirs(self, names: Vec<String>) -> (b: Self)
        ensures
            b@ == (WorktreeBuilderV { skip_dirs: views(names@), ..self@ }),
    {
        let mut b = self;
        b.skip_dirs = names;
        b
    }

    /// Add one more directory name to the skip list (does not replace).
    pub fn skip_dir(self, name: String) -> (b: Self)
        ensures
            b@ == (WorktreeBuilderV { skip_dirs: self@.skip_dirs.push(name@), ..self@ }),
    {
        let mut b = self;
        b.skip_dirs.push(name);
        assert(b@.skip_dirs =~= self@.skip_dirs.push(name@));
        b
    }

    /// Whether to share LFS storage with the source repo's submodules.
    pub fn share_lfs(self, yes: bool) -> (b: Self)
        ensures
            b@ == (WorktreeBuilderV { share_lfs: yes, ..self@ }),
    {
        let mut b = self;
        b.share_lfs = yes;
        b
    }

    /// Whether to run `git submodule update --init` in the new worktree.
    pub fn init_submodules(self, yes: bool) -> (b: Self)
        ensures
            b@ == (WorktreeBuilderV { init_submodules: yes, ..self@ }),
    {
        let mut b = self;
        b.init_submodules = yes;
        b
    }

    /// Layer a repository configuration on top: its values extend the
    /// builder's, nothing is replaced.
    pub fn repo_config(self, cfg: &RepoConfig) -> (b: Self)
        ensures
            b@ == with_config(self@, cfg@),
    {
        let mut b = self;
        append_strings(&mut b.copy_paths, &cfg.copies);
        append_strings(&mut b.skip_dirs, &cfg.skip_dirs);
        let mut i: usize = 0;
        let ghost start = pair_views(b.external_files@);
        let ghost b1 = b@;
        assert(b1.copy_paths == self@.copy_paths + cfg@.copies);
        assert(b1.skip_dirs == self@.skip_dirs + cfg@.skip_dirs);
        while i < cfg.externals.len()
            invariant
                i <= cfg@.externals.len(),
                b@ == (WorktreeBuilderV { external_files: pair_views(b.external_files@), ..b1 }),
                pair_views(b.external_files@) == start + cfg@.externals.subrange(0, i as int),
            decreases cfg.externals.len() - i,
        {
            let p = (cfg.externals[i].0.clone(), cfg.externals[i].1.clone());
            let ghost before = pair_views(b.external_files@);
            b.external_files.push(p);
            assert(pair_views(b.external_files@) =~= before.push((p.0@, p.1@)));
            assert(cfg@.externals.subrange(0, i + 1) =~= cfg@.externals.subrange(0, i as int).push(
                cfg@.externals[i as int],
            ));
            i = i + 1;
        }
        assert(cfg@.externals.subrange(0, cfg@.externals.len() as int) =~= cfg@.externals);
        b
    }

    pub(crate) fn _repo_path(&self) -> (p: &String)
        ensures
            p@ == self@.repo_path,
    {
        &self.repo_path
    }

    pub(crate) fn _worktree_path(&self) -> (p: &String)
        ensures
            p@ == self@.worktree_path,
    {
        &self.worktree_path
    }

    pub(crate) fn _branch_name(&self) -> (p: &String)
        ensures
            p@ == self@.branch_name,
    {
        &self.branch_name
    }

    pub(crate) fn _base_branch(&self) -> (p: &String)
        ensures
            p@ == self@.base_branch,
    {
        &self.base_branch
    }

    pub(crate) fn _copy_files(&self) -> (v: &Vec<String>)
        ensures
            views(v@) == self@.copy_files,
    {
        &self.copy_files
    }

    pub(crate) fn _copy_dirs(&self) -> (v: &Vec<String>)
        ensures
            views(v@) == self@.copy_dirs,
    {
        &self.copy_dirs
    }

    pub(crate) fn _copy_paths(&self) -> (v: &Vec<String>)
        ensures
            views(v@) == self@.copy_paths,
    {
        &self.copy_paths
    }

    pub(crate) fn _external_files(&self) -> (v: &Vec<(String, String)>)
        ensures
            pair_views(v@) == self@.external_files,
    {
        &self.external_files
    }

    pub(crate) fn _skip_dirs(&self) -> (v: &Vec<String>)
        ensures
            views(v@) == self@.skip_dirs,
    {
        &self.skip_dirs
    }

    pub(crate) fn _share_lfs(&self) -> (b: bool)
        ensures
            b == self@.share_lfs,
    {
        self.share_lfs
    }

    pub(crate) fn _init_submodules(&self) -> (b: bool)
        ensures
            b == self@.init_submodules,
    {
        self.init_submodules
    }
}

} // verus!

verus! {

/// Configuration values extend the builder's; nothing is replaced: the
/// earlier copies, external files and skip names stay first, the
/// configuration's follow in their order, and every other setting is kept.
pub proof fn lemma_config_extends(b: WorktreeBuilderV, cfg: crate::config::RepoConfigV)
    ensures
        with_config(b, cfg).copy_paths.subrange(0, b.copy_paths.len() as int) == b.copy_paths,
        with_config(b, cfg).copy_paths.subrange(b.copy_paths.len() as int, with_config(b, cfg).copy_paths.len() as int) == cfg.copies,
        with_config(b, cfg).external_files.subrange(0, b.external_files.len() as int) == b.external_files,
        with_config(b, cfg).external_files.subrange(b.external_files.len() as int, with_config(b, cfg).external_files.len() as int) == cfg.externals,
        with_config(b, cfg).skip_dirs.subrange(0, b.skip_dirs.len() as int) == b.skip_dirs,
        with_config(b, cfg).skip_dirs.subrange(b.skip_dirs.len() as int, with_config(b, cfg).skip_dirs.len() as int) == cfg.skip_dirs,
        with_config(b, cfg).copy_files == b.copy_files,
        with_config(b, cfg).copy_dirs == b.copy_dirs,
        with_config(b, cfg).base_branch == b.base_branch,
        with_config(b, cfg).share_lfs == b.share_lfs,
        with_config(b, cfg).init_submodules == b.init_submodules,
{
    let c = with_config(b, cfg);
    assert(c.copy_paths.subrange(0, b.copy_paths.len() as int) =~= b.copy_paths);
    assert(c.copy_paths.subrange(b.copy_paths.len() as int, c.copy_paths.len() as int) =~= cfg.copies);
    assert(c.external_files.subrange(0, b.external_files.len() as int) =~= b.external_files);
    assert(c.external_files.subrange(b.external_files.len() as int, c.external_files.len() as int) =~= cfg.externals);
    assert(c.skip_dirs.subrange(0, b.skip_dirs.len() as int) =~= b.skip_dirs);
    assert(c.skip_dirs.subrange(b.skip_dirs.len() as int, c.skip_dirs.len() as int) =~= cfg.skip_dirs);
}

} // verus!
