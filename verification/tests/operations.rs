use git_recworktree::cli::{AddCommand, AddOptions, BranchReport, RemoveCommand};
use git_recworktree::effect::{GitCommand, Place, Ran, Reply, Request, Step};
use git_recworktree::info::parse_gitdir;
use git_recworktree::nested::NestedWalk;
use git_recworktree::{
    branch_exists, create_branch_if_needed, delete_branch, fetch_origin, find_nested_git_repos,
    find_nested_git_repos_with, find_nested_worktrees, remove_worktree, worktree_exists,
    InfoLookup, WorktreeBuilder,
};
use std::collections::{BTreeMap, BTreeSet};

// ---------------------------------------------------------------------------
// A filesystem held in memory, with symlinks.

#[derive(Default)]
struct World {
    dirs: BTreeSet<String>,
    files: BTreeMap<String, String>,
    links: BTreeMap<String, String>,
}

fn normalize(p: &str) -> String {
    let mut out: Vec<&str> = Vec::new();
    for c in p.split('/') {
        match c {
            "" | "." => {},
            ".." => {
                out.pop();
            },
            x => out.push(x),
        }
    }
    format!("/{}", out.join("/"))
}

fn parent_of(p: &str) -> String {
    match p.rfind('/') {
        Some(0) => "/".to_string(),
        Some(i) => p[..i].to_string(),
        None => String::new(),
    }
}

impl World {
    fn dir(&mut self, p: &str) {
        let n = normalize(p);
        let mut cur = String::new();
        self.dirs.insert("/".to_string());
        for c in n.split('/').filter(|c| !c.is_empty()) {
            cur.push('/');
            cur.push_str(c);
            self.dirs.insert(cur.clone());
        }
    }

    fn file(&mut self, p: &str, content: &str) {
        let n = normalize(p);
        self.dir(&parent_of(&n));
        self.files.insert(n, content.to_string());
    }

    fn link(&mut self, p: &str, target: &str) {
        let n = normalize(p);
        self.dir(&parent_of(&n));
        self.links.insert(n, normalize(target));
    }

    fn resolve(&self, p: &str) -> String {
        let mut path = normalize(p);
        for _ in 0..40 {
            let comps: Vec<&str> = path.split('/').filter(|c| !c.is_empty()).collect();
            let mut prefix = String::new();
            let mut changed = false;
            for (i, c) in comps.iter().enumerate() {
                prefix.push('/');
                prefix.push_str(c);
                if let Some(t) = self.links.get(&prefix) {
                    let rest = comps[i + 1..].join("/");
                    path = normalize(&format!("{}/{}", t, rest));
                    changed = true;
                    break;
                }
            }
            if !changed {
                return path;
            }
        }
        path
    }

    fn is_dir(&self, p: &str) -> bool {
        self.dirs.contains(&self.resolve(p))
    }

    fn is_file(&self, p: &str) -> bool {
        self.files.contains_key(&self.resolve(p))
    }

    fn present(&self, p: &str) -> bool {
        self.is_dir(p) || self.is_file(p)
    }

    fn canonicalize(&self, p: &str) -> Result<String, String> {
        if self.present(p) {
            Ok(self.resolve(p))
        } else {
            Err("No such file or directory (os error 2)".to_string())
        }
    }

    fn list(&self, p: &str) -> Option<Vec<String>> {
        let r = self.resolve(p);
        if !self.dirs.contains(&r) {
            return None;
        }
        let mut names = BTreeSet::new();
        for k in self.dirs.iter().chain(self.files.keys()).chain(self.links.keys()) {
            if k != &r && parent_of(k) == r {
                names.insert(k[k.rfind('/').unwrap() + 1..].to_string());
            }
        }
        Some(names.into_iter().collect())
    }

    fn remove_all(&mut self, p: &str) -> Result<(), String> {
        let r = self.resolve(p);
        if !self.dirs.contains(&r) {
            return Err("not a directory".to_string());
        }
        let under = |k: &String| k == &r || k.starts_with(&format!("{}/", r));
        self.dirs.retain(|k| !under(k));
        self.files.retain(|k, _| !under(k));
        self.links.retain(|k, _| !under(k));
        Ok(())
    }

    fn copy_file(&mut self, a: &str, b: &str) -> Result<(), String> {
        let c = self.files.get(&self.resolve(a)).cloned().ok_or("no source")?;
        let d = normalize(b);
        if !self.dirs.contains(&parent_of(&d)) {
            return Err("no parent".to_string());
        }
        self.files.insert(d, c);
        Ok(())
    }

    fn copy_dir(&mut self, a: &str, b: &str) -> Result<(), String> {
        let r = self.resolve(a);
        let d = normalize(b);
        let files: Vec<(String, String)> = self
            .files
            .iter()
            .filter(|(k, _)| k.starts_with(&format!("{}/", r)))
            .map(|(k, v)| (format!("{}{}", d, &k[r.len()..]), v.clone()))
            .collect();
        self.dir(&d);
        for (k, v) in files {
            self.file(&k, &v);
        }
        Ok(())
    }
}

fn ok_ran(stdout: &str) -> Ran {
    Ran { success: true, code: Some(0), stdout: stdout.to_string(), stderr: String::new() }
}

fn failed_ran(stderr: &str) -> Ran {
    Ran { success: false, code: Some(1), stdout: String::new(), stderr: stderr.to_string() }
}

fn place_dir(p: &Place) -> String {
    match p {
        Place::Cwd(d) => format!("cwd:{}", d),
        Place::GitDir(d) => format!("git-dir:{}", d),
        Place::Within(d) => format!("-C:{}", d),
    }
}

fn describe(q: &Request) -> String {
    match q {
        Request::Canonicalize(p) => format!("canonicalize {}", p),
        Request::Exists(p) => format!("exists {}", p),
        Request::IsDir(p) => format!("is_dir {}", p),
        Request::IsFile(p) => format!("is_file {}", p),
        Request::ReadFile(p) => format!("read {}", p),
        Request::ListDir(p) => format!("list {}", p),
        Request::CreateDirAll(p) => format!("mkdir {}", p),
        Request::RemoveDirAll(p) => format!("rmdir {}", p),
        Request::CopyFile(a, b) => format!("copy {} {}", a, b),
        Request::CopyDir(a, b) => format!("copydir {} {}", a, b),
        Request::Git(c) => format!("git[{}] {}", place_dir(&c.place), c.args.join(" ")),
    }
}

type Git<'a> = &'a mut dyn FnMut(&mut World, &GitCommand) -> Ran;

fn perform(w: &mut World, q: &Request, git: Git) -> Reply {
    match q {
        Request::Canonicalize(p) => Reply::Path(w.canonicalize(p)),
        Request::Exists(p) => Reply::Flag(w.present(p)),
        Request::IsDir(p) => Reply::Flag(w.is_dir(p)),
        Request::IsFile(p) => Reply::Flag(w.is_file(p)),
        Request::ReadFile(p) => Reply::Text(w.files.get(&w.resolve(p)).cloned().ok_or("unreadable".to_string())),
        Request::ListDir(p) => Reply::Names(w.list(p)),
        Request::CreateDirAll(p) => {
            w.dir(p);
            Reply::Done(Ok(()))
        },
        Request::RemoveDirAll(p) => Reply::Done(w.remove_all(p)),
        Request::CopyFile(a, b) => Reply::Done(w.copy_file(a, b)),
        Request::CopyDir(a, b) => Reply::Done(w.copy_dir(a, b)),
        Request::Git(c) => Reply::Ran(Ok(git(w, c))),
    }
}

fn drive(w: &mut World, mut step: impl FnMut(Reply) -> Step, git: Git) -> Vec<String> {
    let mut reply = Reply::Start;
    let mut log = Vec::new();
    for _ in 0..100000 {
        match step(reply) {
            Step::Finished => return log,
            Step::Do(q) => {
                log.push(describe(&q));
                reply = perform(w, &q, &mut *git);
            },
        }
    }
    panic!("the machine did not finish");
}

fn no_git(_: &mut World, c: &GitCommand) -> Ran {
    panic!("unexpected git {:?}", c.args)
}

// ---------------------------------------------------------------------------
// A separated git dir layout: /t/main.git beside /t/main, with a linked
// worktree.

fn separated_repo(w: &mut World) {
    w.dir("/t/main.git/worktrees");
    w.file("/t/main/.git", "gitdir: /t/main.git");
    w.file("/t/main/README", "hello");
    w.dir("/t/main/subprojects/sub-a/.git");
    w.dir("/t/main/subprojects/sub-b/.git");
}

fn linked_worktree(w: &mut World, git_dir: &str, path: &str, name: &str) {
    let admin = format!("{}/worktrees/{}", git_dir, name);
    w.dir(&admin);
    w.file(&format!("{}/commondir", admin), "../..\n");
    w.file(&format!("{}/.git", path), &format!("gitdir: {}\n", admin));
}

#[test]
fn test_worktree_info_separated_git_dir() {
    let mut w = World::default();
    separated_repo(&mut w);
    linked_worktree(&mut w, "/t/main.git", "/t/worktrees/test-branch", "test-branch");
    let mut m = InfoLookup::new("/t/worktrees/test-branch".to_string());
    drive(&mut w, |r| m.resume(r), &mut no_git);
    let info = m.into_outcome().unwrap().unwrap();
    assert_eq!(info.worktree_path, w.canonicalize("/t/worktrees/test-branch").unwrap());
    assert_eq!(info.main_git_dir, w.canonicalize("/t/main.git").unwrap());
    assert!(!info.is_main_worktree);
    assert_eq!(info.worktree_git_dir, "/t/main.git/worktrees/test-branch");
    assert_eq!(info.main_repo_path, "/t");
}

#[test]
fn info_of_main_repository_is_refused() {
    let mut w = World::default();
    w.dir("/r/.git");
    let mut m = InfoLookup::new("/r".to_string());
    drive(&mut w, |r| m.resume(r), &mut no_git);
    assert_eq!(
        m.into_outcome().unwrap().unwrap_err().message(),
        "Path is a main repository, not a worktree: /r"
    );
}

#[test]
fn info_of_plain_directory_is_not_worktree() {
    let mut w = World::default();
    w.dir("/plain");
    let mut m = InfoLookup::new("/plain".to_string());
    drive(&mut w, |r| m.resume(r), &mut no_git);
    assert_eq!(m.into_outcome().unwrap().unwrap_err().message(), "Not a git worktree: /plain");
}

#[test]
fn info_of_missing_path_is_read_error() {
    let mut w = World::default();
    let mut m = InfoLookup::new("/nope".to_string());
    drive(&mut w, |r| m.resume(r), &mut no_git);
    assert_eq!(
        m.into_outcome().unwrap().unwrap_err().message(),
        "Failed to read git file /nope: No such file or directory (os error 2)"
    );
}

#[test]
fn info_of_bad_git_file() {
    let mut w = World::default();
    w.file("/w/.git", "nonsense");
    let mut m = InfoLookup::new("/w".to_string());
    drive(&mut w, |r| m.resume(r), &mut no_git);
    assert_eq!(m.into_outcome().unwrap().unwrap_err().message(), "Invalid .git file format in /w/.git");
}

#[test]
fn info_without_commondir_is_main_worktree() {
    let mut w = World::default();
    w.dir("/store/repo.git");
    w.file("/src/repo/.git", "  gitdir: /store/repo.git \n");
    let mut m = InfoLookup::new("/src/repo".to_string());
    drive(&mut w, |r| m.resume(r), &mut no_git);
    let info = m.into_outcome().unwrap().unwrap();
    assert!(info.is_main_worktree);
    assert_eq!(info.main_git_dir, "/store/repo.git");
    assert_eq!(info.main_repo_path, "/store");
}

#[test]
fn gitdir_parsing() {
    assert_eq!(parse_gitdir("gitdir: /a/b\n", "/x/.git").unwrap(), "/a/b");
    assert_eq!(parse_gitdir("\t gitdir: rel/dir  ", "/x/.git").unwrap(), "rel/dir");
    assert_eq!(parse_gitdir("gitdir:/a", "/x/.git").unwrap_err().message(), "Invalid .git file format in /x/.git");
}

// ---------------------------------------------------------------------------
// Nested repository discovery.

fn walk(w: &mut World, mut m: NestedWalk) -> (Vec<(String, String)>, Vec<String>) {
    let log = drive(w, |r| m.resume(r), &mut no_git);
    let found = m.into_found().into_iter().map(|r| (r.path, r.relative_path)).collect();
    (found, log)
}

#[test]
fn walk_finds_nested_repositories() {
    let mut w = World::default();
    w.dir("/r/.git");
    w.dir("/r/subprojects/a/.git");
    w.file("/r/subprojects/b/.git", "gitdir: /elsewhere");
    w.dir("/r/subprojects/a/deeper/c/.git");
    w.dir("/r/plain/dir");
    let (found, _) = walk(&mut w, find_nested_git_repos("/r".to_string()));
    assert_eq!(
        found,
        vec![
            ("/r/subprojects/a".to_string(), "subprojects/a".to_string()),
            ("/r/subprojects/a/deeper/c".to_string(), "subprojects/a/deeper/c".to_string()),
            ("/r/subprojects/b".to_string(), "subprojects/b".to_string()),
        ]
    );
}

#[test]
fn walk_skips_hidden_and_listed_names() {
    let mut w = World::default();
    w.dir("/r/.hidden/x/.git");
    w.dir("/r/node_modules/y/.git");
    w.dir("/r/target/z/.git");
    w.dir("/r/mine/q/.git");
    w.dir("/r/keep/k/.git");
    let (found, log) = walk(&mut w, find_nested_git_repos("/r".to_string()));
    assert_eq!(found, vec![("/r/keep/k".to_string(), "keep/k".to_string()), ("/r/mine/q".to_string(), "mine/q".to_string())]);
    assert!(!log.iter().any(|l| l.contains(".hidden") || l.contains("node_modules") || l.contains("target")));
    let (found, log) = walk(
        &mut w,
        find_nested_git_repos_with("/r".to_string(), vec!["mine".to_string()]),
    );
    // the list given replaces the default one
    assert_eq!(found.len(), 3);
    assert!(!log.iter().any(|l| l.contains("/r/mine")));
    assert!(!log.iter().any(|l| l.contains(".hidden")));
}

#[test]
fn walk_enters_symlink_loops_once() {
    let mut w = World::default();
    w.dir("/r/a/.git");
    w.link("/r/a/back", "/r");
    w.link("/r/alias", "/r/a");
    let (found, log) = walk(&mut w, find_nested_git_repos("/r".to_string()));
    // `/r/a` is found once; the link to it and the link back up lead to
    // directories already entered.
    assert_eq!(found, vec![("/r/a".to_string(), "a".to_string())]);
    let lists = log.iter().filter(|l| l.starts_with("list ")).count();
    assert_eq!(lists, 2);
}

#[test]
fn walk_of_unreadable_root_finds_nothing() {
    let mut w = World::default();
    let (found, _) = walk(&mut w, find_nested_git_repos("/missing".to_string()));
    assert!(found.is_empty());
}

#[test]
fn nested_worktrees_are_those_with_git_files() {
    let mut w = World::default();
    w.dir("/t/main.git");
    linked_worktree(&mut w, "/t/main.git", "/wt", "wt");
    w.dir("/sub/.git/worktrees");
    linked_worktree(&mut w, "/sub/.git", "/wt/subprojects/sub", "sub");
    w.dir("/wt/subprojects/clone/.git");
    w.file("/wt/subprojects/broken/.git", "garbage");
    let mut m = find_nested_worktrees("/wt".to_string());
    drive(&mut w, |r| m.resume(r), &mut no_git);
    let found = m.into_found();
    assert_eq!(found.len(), 1);
    assert_eq!(found[0].worktree_path, "/wt/subprojects/sub");
    assert_eq!(found[0].main_git_dir, "/sub/.git");
}

// ---------------------------------------------------------------------------
// Branches and single commands.

struct Repo {
    local: BTreeSet<String>,
    remote: BTreeSet<String>,
    refs: BTreeSet<String>,
    broken_bases: BTreeSet<String>,
    worktrees: BTreeSet<String>,
    dirty: BTreeSet<String>,
    created: Vec<(String, String)>,
}

impl Repo {
    fn new() -> Repo {
        Repo {
            local: BTreeSet::new(),
            remote: BTreeSet::new(),
            refs: BTreeSet::new(),
            broken_bases: BTreeSet::new(),
            worktrees: BTreeSet::new(),
            dirty: BTreeSet::new(),
            created: Vec::new(),
        }
    }

    fn run(&mut self, w: &mut World, c: &GitCommand) -> Ran {
        let a: Vec<&str> = c.args.iter().map(|s| s.as_str()).collect();
        match a.as_slice() {
            ["fetch", "origin"] => ok_ran(""),
            ["branch", "--list", n] => ok_ran(if self.local.contains(*n) { "  x\n" } else { "" }),
            ["branch", "-r", "--list", n] => {
                let n = n.strip_prefix("origin/").unwrap();
                ok_ran(if self.remote.contains(n) { "  origin/x\n" } else { "\n" })
            },
            ["rev-parse", "--verify", "--quiet", r] => {
                if self.refs.contains(*r) {
                    ok_ran("")
                } else {
                    failed_ran("")
                }
            },
            ["branch", "-d", n] => {
                if self.local.remove(*n) {
                    ok_ran("")
                } else {
                    failed_ran(&format!("error: branch '{}' not found.", n))
                }
            },
            ["branch", n, from] => {
                if self.broken_bases.contains(*from) {
                    return failed_ran("fatal");
                }
                self.local.insert(n.to_string());
                self.created.push((n.to_string(), from.to_string()));
                ok_ran("")
            },
            ["worktree", "list", "--porcelain"] => {
                let mut s = String::new();
                for p in &self.worktrees {
                    s.push_str(&format!("worktree {}\nHEAD 0000\n\n", p));
                }
                ok_ran(&s)
            },
            ["worktree", "add", p, b] if *p != "--detach" => {
                w.file(&format!("{}/.git", p), "gitdir: /t/main.git/worktrees/x");
                self.worktrees.insert(p.to_string());
                self.local.insert(b.to_string());
                ok_ran("")
            },
            ["worktree", "add", "--detach", p] => {
                w.file(&format!("{}/.git", p), "gitdir: somewhere");
                self.worktrees.insert(p.to_string());
                ok_ran("")
            },
            ["worktree", "remove", rest @ ..] => {
                let p = rest.last().unwrap().to_string();
                let force = rest.len() == 2;
                if self.dirty.contains(&p) && !force {
                    return failed_ran("fatal: contains modified or untracked files, use --force to delete it\n");
                }
                let _ = w.remove_all(&p);
                self.worktrees.remove(&p);
                ok_ran("")
            },
            ["worktree", "prune"] => ok_ran(""),
            ["submodule", "deinit", "--all", "--force"] => ok_ran(""),
            _ => panic!("unexpected git {:?}", a),
        }
    }
}

#[test]
fn branch_probe_local_then_remote() {
    let mut w = World::default();
    let mut repo = Repo::new();
    repo.local.insert("here".to_string());
    repo.remote.insert("there".to_string());
    for (name, expected, commands) in [("here", true, 1), ("there", true, 2), ("nowhere", false, 2)] {
        let mut m = branch_exists("/r".to_string(), name.to_string());
        let log = drive(&mut w, |r| m.resume(r), &mut |w, c| repo.run(w, c));
        assert_eq!(m.into_outcome().unwrap().unwrap(), expected);
        assert_eq!(log.len(), commands);
    }
}

#[test]
fn existing_local_branch_is_left_alone() {
    let mut w = World::default();
    let mut repo = Repo::new();
    repo.local.insert("feat".to_string());
    let mut m = create_branch_if_needed("/r".to_string(), "feat".to_string(), "origin/dev".to_string());
    drive(&mut w, |r| m.resume(r), &mut |w, c| repo.run(w, c));
    assert!(m.into_outcome().unwrap().is_ok());
    assert!(repo.created.is_empty());
}

#[test]
fn remote_branch_gets_tracking_branch() {
    let mut w = World::default();
    let mut repo = Repo::new();
    repo.remote.insert("feat".to_string());
    let mut m = create_branch_if_needed("/r".to_string(), "feat".to_string(), "origin/dev".to_string());
    drive(&mut w, |r| m.resume(r), &mut |w, c| repo.run(w, c));
    assert!(m.into_outcome().unwrap().is_ok());
    assert_eq!(repo.created, vec![("feat".to_string(), "origin/feat".to_string())]);
}

#[test]
fn base_refs_are_tried_in_order() {
    let mut w = World::default();
    let mut repo = Repo::new();
    repo.refs.insert("origin/master".to_string());
    repo.refs.insert("HEAD".to_string());
    repo.refs.insert("origin/main".to_string());
    repo.broken_bases.insert("origin/main".to_string());
    let mut m = create_branch_if_needed("/r".to_string(), "feat".to_string(), "origin/dev".to_string());
    let log = drive(&mut w, |r| m.resume(r), &mut |w, c| repo.run(w, c));
    assert!(m.into_outcome().unwrap().is_ok());
    assert_eq!(repo.created, vec![("feat".to_string(), "origin/master".to_string())]);
    let checks: Vec<&String> = log.iter().filter(|l| l.contains("rev-parse")).collect();
    assert_eq!(checks.len(), 3);
    assert!(checks[0].ends_with("origin/dev"));
}

#[test]
fn no_base_ref_is_an_error() {
    let mut w = World::default();
    let mut repo = Repo::new();
    let mut m = create_branch_if_needed("/r".to_string(), "feat".to_string(), "origin/dev".to_string());
    drive(&mut w, |r| m.resume(r), &mut |w, c| repo.run(w, c));
    assert_eq!(
        m.into_outcome().unwrap().unwrap_err().message(),
        "Git command failed: Failed to create branch feat — no valid base ref found"
    );
}

#[test]
fn failed_tracking_branch_is_an_error() {
    let mut w = World::default();
    let mut repo = Repo::new();
    repo.remote.insert("feat".to_string());
    repo.broken_bases.insert("origin/feat".to_string());
    let mut m = create_branch_if_needed("/r".to_string(), "feat".to_string(), "main".to_string());
    drive(&mut w, |r| m.resume(r), &mut |w, c| repo.run(w, c));
    assert_eq!(
        m.into_outcome().unwrap().unwrap_err().message(),
        "Git command failed: Failed to create tracking branch feat from origin/feat"
    );
}

#[test]
fn single_commands() {
    let mut w = World::default();
    let mut repo = Repo::new();
    repo.worktrees.insert("/t/wt/feature-x".to_string());
    repo.local.insert("old".to_string());
    let mut m = worktree_exists("/t/main".to_string(), "/t/wt/feature-x".to_string());
    drive(&mut w, |r| m.resume(r), &mut |w, c| repo.run(w, c));
    assert!(m.into_outcome().unwrap().unwrap());
    let mut m = worktree_exists("/t/main".to_string(), "/t/wt/other".to_string());
    drive(&mut w, |r| m.resume(r), &mut |w, c| repo.run(w, c));
    assert!(!m.into_outcome().unwrap().unwrap());
    let mut m = delete_branch("/t/main".to_string(), "old".to_string());
    drive(&mut w, |r| m.resume(r), &mut |w, c| repo.run(w, c));
    assert!(m.into_outcome().unwrap().unwrap());
    let mut m = delete_branch("/t/main".to_string(), "old".to_string());
    drive(&mut w, |r| m.resume(r), &mut |w, c| repo.run(w, c));
    assert!(!m.into_outcome().unwrap().unwrap());
    let mut m = delete_branch("/t/main".to_string(), "x".to_string());
    drive(&mut w, |r| m.resume(r), &mut |_, _| failed_ran("error: the branch 'x' is not fully merged.\n"));
    assert_eq!(
        m.into_outcome().unwrap().unwrap_err().message(),
        "Git command failed: Failed to delete branch 'x': error: the branch 'x' is not fully merged."
    );
    let mut m = fetch_origin("/t/main".to_string());
    drive(&mut w, |r| m.resume(r), &mut |_, _| failed_ran(""));
    assert_eq!(m.into_outcome().unwrap().unwrap_err().message(), "Git command failed: git fetch origin failed");
}

// ---------------------------------------------------------------------------
// Removal.

fn remove(w: &mut World, repo: &mut Repo, path: &str, force: bool) -> (Result<(), git_recworktree::Error>, Vec<String>) {
    let mut m = remove_worktree(path.to_string(), force);
    let log = drive(w, |r| m.resume(r), &mut |w, c| repo.run(w, c));
    (m.into_outcome().unwrap(), log)
}

fn separated_with_nested_worktrees(w: &mut World, repo: &mut Repo, name: &str) -> String {
    separated_repo(w);
    let wt = format!("/t/worktrees/{}", name);
    linked_worktree(w, "/t/main.git", &wt, name);
    repo.worktrees.insert(wt.clone());
    for sub in ["sub-a", "sub-b"] {
        let git_dir = format!("/t/main/subprojects/{}/.git", sub);
        let nested = format!("{}/subprojects/{}", wt, sub);
        linked_worktree(w, &git_dir, &nested, sub);
        repo.worktrees.insert(nested);
    }
    wt
}

#[test]
fn test_create_and_remove_worktree_with_nested() {
    let mut w = World::default();
    let mut repo = Repo::new();
    let wt = separated_with_nested_worktrees(&mut w, &mut repo, "feature-x");
    assert!(w.present(&format!("{}/.git", wt)));
    assert!(w.present(&format!("{}/subprojects/sub-a/.git", wt)), "sub-a worktree not created");
    assert!(w.present(&format!("{}/subprojects/sub-b/.git", wt)), "sub-b worktree not created");
    let mut m = find_nested_worktrees(wt.clone());
    drive(&mut w, |r| m.resume(r), &mut no_git);
    let nested = m.into_found();
    assert!(nested.len() >= 2, "Expected at least 2 nested worktrees, found {}", nested.len());

    let (r, log) = remove(&mut w, &mut repo, &wt, true);
    r.unwrap();
    assert!(!w.present(&wt), "Worktree directory should be removed");
    assert!(!repo.worktrees.iter().any(|p| p.contains("feature-x")), "Stale worktree reference found in main repo");
    // nested worktrees first, each through its own git dir; then the main one
    let removes: Vec<&String> = log.iter().filter(|l| l.contains("worktree remove")).collect();
    assert_eq!(removes.len(), 3);
    assert!(removes[2].starts_with("git[git-dir:/t/main.git]"));
    // every involved git dir pruned once, in path order
    let prunes: Vec<&String> = log.iter().filter(|l| l.contains("worktree prune")).collect();
    assert_eq!(
        prunes,
        vec![
            // components order: `main` comes before `main.git`
            "git[git-dir:/t/main/subprojects/sub-a/.git] worktree prune",
            "git[git-dir:/t/main/subprojects/sub-b/.git] worktree prune",
            "git[git-dir:/t/main.git] worktree prune",
        ]
    );
}

#[test]
fn test_remove_worktree_force_with_changes() {
    let mut w = World::default();
    let mut repo = Repo::new();
    let wt = separated_with_nested_worktrees(&mut w, &mut repo, "dirty");
    w.file(&format!("{}/dirty-file.txt", wt), "uncommitted");
    repo.dirty.insert(wt.clone());
    let (r, _) = remove(&mut w, &mut repo, &wt, false);
    assert!(r.is_err(), "Should fail without --force on dirty worktree");
    assert!(w.present(&wt), "Worktree should still exist after failed remove");
    assert!(r.unwrap_err().message().starts_with("Git command failed: Failed to remove worktree: fatal:"));
    let (r, _) = remove(&mut w, &mut repo, &wt, true);
    r.unwrap();
    assert!(!w.present(&wt), "Worktree should be removed with --force");
}

#[test]
fn test_remove_worktree_with_submodules() {
    let mut w = World::default();
    let mut repo = Repo::new();
    w.dir("/t/main/.git/worktrees");
    let wt = "/t/worktrees/with-sub";
    linked_worktree(&mut w, "/t/main/.git", wt, "with-sub");
    w.file(&format!("{}/.gitmodules", wt), "[submodule \"my-submodule\"]");
    w.file(&format!("{}/my-submodule/.git", wt), "gitdir: ../.git/modules/my-submodule");
    w.dir("/t/main/.git/worktrees/with-sub/modules/my-submodule");
    assert!(w.present(&format!("{}/my-submodule/.git", wt)));
    let (r, log) = remove(&mut w, &mut repo, wt, false);
    r.unwrap();
    assert!(!w.present(wt), "Worktree with submodule should be removed");
    assert!(log.contains(&format!("git[cwd:{}] submodule deinit --all --force", wt)));
    assert!(log.contains(&"rmdir /t/main/.git/worktrees/with-sub/modules".to_string()));
    assert!(!w.present("/t/main/.git/worktrees/with-sub/modules"));
}

#[test]
fn test_delete_branch_after_remove() {
    let mut w = World::default();
    let mut repo = Repo::new();
    repo.local.insert("main".to_string());
    w.dir("/t/main/.git/worktrees");
    let wt = "/t/worktrees/to-delete";
    linked_worktree(&mut w, "/t/main/.git", wt, "to-delete");
    repo.local.insert("to-delete".to_string());
    let (r, _) = remove(&mut w, &mut repo, wt, false);
    r.unwrap();
    let mut m = branch_exists("/t/main".to_string(), "to-delete".to_string());
    drive(&mut w, |r| m.resume(r), &mut |w, c| repo.run(w, c));
    assert!(m.into_outcome().unwrap().unwrap());
    let mut m = delete_branch("/t/main".to_string(), "to-delete".to_string());
    drive(&mut w, |r| m.resume(r), &mut |w, c| repo.run(w, c));
    assert!(m.into_outcome().unwrap().unwrap());
    let mut m = branch_exists("/t/main".to_string(), "to-delete".to_string());
    drive(&mut w, |r| m.resume(r), &mut |w, c| repo.run(w, c));
    assert!(!m.into_outcome().unwrap().unwrap());
}

#[test]
fn removal_of_missing_path_fails_early() {
    let mut w = World::default();
    let mut repo = Repo::new();
    let (r, log) = remove(&mut w, &mut repo, "/nowhere", false);
    assert_eq!(r.unwrap_err().message(), "Failed to read git file /nowhere: No such file or directory (os error 2)");
    assert_eq!(log, vec!["canonicalize /nowhere"]);
}

// ---------------------------------------------------------------------------
// Creation.

fn creation_world(w: &mut World) {
    w.dir("/t/main/.git/worktrees");
    w.file("/t/main/NOTES.md", "notes");
    w.file("/t/main/.vscode/settings.json", "{}");
    w.file("/ext/gst.native", "native");
    w.dir("/t/main/subprojects/sub-a/.git");
    w.dir("/t/main/subprojects/sub-b/.git");
    w.dir("/t/main/node_modules/dep/.git");
}

#[test]
fn creation_makes_nested_worktrees_and_copies() {
    let mut w = World::default();
    let mut repo = Repo::new();
    repo.refs.insert("origin/main".to_string());
    creation_world(&mut w);
    // a leftover directory of the parent checkout at one target
    w.file("/t/wt/feature/subprojects/sub-b/stale.txt", "old");
    let mut m = WorktreeBuilder::new("/t/main".to_string(), "/t/wt/feature".to_string(), "feature".to_string())
        .copy_file("NOTES.md".to_string())
        .copy_file("MISSING.md".to_string())
        .copy_dir(".vscode".to_string())
        .external_file("/ext/gst.native".to_string(), "gst.native".to_string())
        .external_file("/ext/absent".to_string(), "absent".to_string())
        .init_submodules(false)
        .create();
    let log = drive(&mut w, |r| m.resume(r), &mut |w, c| repo.run(w, c));
    m.into_outcome().unwrap().unwrap();
    assert_eq!(repo.created, vec![("feature".to_string(), "origin/main".to_string())]);
    assert!(log.contains(&"git[cwd:/t/main/subprojects/sub-a] worktree add --detach /t/wt/feature/subprojects/sub-a".to_string()));
    assert!(log.contains(&"git[cwd:/t/main/subprojects/sub-b] worktree add --detach /t/wt/feature/subprojects/sub-b".to_string()));
    assert!(log.contains(&"rmdir /t/wt/feature/subprojects/sub-b".to_string()));
    assert!(!log.iter().any(|l| l.contains("node_modules/dep")));
    assert_eq!(w.files.get("/t/wt/feature/NOTES.md").map(|s| s.as_str()), Some("notes"));
    assert_eq!(w.files.get("/t/wt/feature/.vscode/settings.json").map(|s| s.as_str()), Some("{}"));
    assert_eq!(w.files.get("/t/wt/feature/gst.native").map(|s| s.as_str()), Some("native"));
    assert!(!log.iter().any(|l| l.starts_with("copy /t/main/MISSING.md") || l.starts_with("copy /ext/absent")));
}

#[test]
fn creation_leaves_registered_worktree_alone() {
    let mut w = World::default();
    let mut repo = Repo::new();
    repo.local.insert("feature".to_string());
    repo.worktrees.insert("/t/wt/feature".to_string());
    creation_world(&mut w);
    let mut m = WorktreeBuilder::new("/t/main".to_string(), "/t/wt/feature".to_string(), "feature".to_string()).create();
    let log = drive(&mut w, |r| m.resume(r), &mut |w, c| repo.run(w, c));
    m.into_outcome().unwrap().unwrap();
    assert!(!log.iter().any(|l| l.contains("worktree add")));
}

#[test]
fn creation_is_not_fooled_by_a_longer_registered_path() {
    let mut w = World::default();
    let mut repo = Repo::new();
    repo.local.insert("feature".to_string());
    repo.worktrees.insert("/t/wt/feature2".to_string());
    creation_world(&mut w);
    let mut m = WorktreeBuilder::new("/t/main".to_string(), "/t/wt/feature".to_string(), "feature".to_string())
        .init_submodules(false)
        .create();
    let log = drive(&mut w, |r| m.resume(r), &mut |w, c| repo.run(w, c));
    m.into_outcome().unwrap().unwrap();
    assert!(log.iter().any(|l| l.contains("worktree add /t/wt/feature feature")));
}

#[test]
fn worktree_exists_matches_whole_paths_only() {
    let mut w = World::default();
    let mut repo = Repo::new();
    repo.worktrees.insert("/wt/feature-x2".to_string());
    let mut m = worktree_exists("/repo".to_string(), "/wt/feature-x".to_string());
    drive(&mut w, |r| m.resume(r), &mut |w, c| repo.run(w, c));
    assert!(!m.into_outcome().unwrap().unwrap());
    let mut m = worktree_exists("/repo".to_string(), "/wt/feature-x2".to_string());
    drive(&mut w, |r| m.resume(r), &mut |w, c| repo.run(w, c));
    assert!(m.into_outcome().unwrap().unwrap());
}

#[test]
fn creation_fails_when_worktree_add_fails() {
    let mut w = World::default();
    let mut repo = Repo::new();
    repo.local.insert("feature".to_string());
    creation_world(&mut w);
    let mut m = WorktreeBuilder::new("/t/main".to_string(), "/t/wt/feature".to_string(), "feature".to_string()).create();
    drive(&mut w, |r| m.resume(r), &mut |w, c| {
        if c.args[0] == "worktree" && c.args[1] == "add" {
            failed_ran("fatal")
        } else {
            repo.run(w, c)
        }
    });
    assert_eq!(m.into_outcome().unwrap().unwrap_err().message(), "Git command failed: Failed to create worktree at /t/wt/feature");
}

#[test]
fn creation_sets_up_submodules_with_shared_lfs() {
    let mut w = World::default();
    let mut repo = Repo::new();
    repo.local.insert("feature".to_string());
    creation_world(&mut w);
    w.dir("/t/main/.git/modules/sm/lfs");
    w.dir("/t/main/sm");
    let mut calls: Vec<String> = Vec::new();
    let mut m = WorktreeBuilder::new("/t/main".to_string(), "/t/wt/feature".to_string(), "feature".to_string())
        .skip_dirs(vec!["subprojects".to_string(), "node_modules".to_string()])
        .create();
    drive(&mut w, |r| m.resume(r), &mut |w, c| {
        let a: Vec<&str> = c.args.iter().map(|s| s.as_str()).collect();
        calls.push(format!("{} {}", place_dir(&c.place), a.join(" ")));
        match a.as_slice() {
            ["submodule", "update", "--init"] => {
                assert_eq!(c.env, vec![("GIT_LFS_SKIP_SMUDGE".to_string(), "1".to_string())]);
                w.dir("/t/wt/feature/sm");
                ok_ran("")
            },
            ["submodule", "foreach", "--quiet", "echo $sm_path"] => ok_ran("sm\n"),
            ["config", "lfs.storage"] => failed_ran(""),
            ["rev-parse", "--git-dir"] => ok_ran("../.git/modules/sm\n"),
            ["config", "lfs.storage", _] | ["lfs", "checkout"] | ["checkout", ..] => ok_ran(""),
            ["worktree", "add", p, _] => {
                w.file(&format!("{}/.git", p), "gitdir: x");
                w.file(&format!("{}/.gitmodules", p), "[submodule]");
                ok_ran("")
            },
            _ => repo.run(w, c),
        }
    });
    m.into_outcome().unwrap().unwrap();
    assert!(calls.contains(&"cwd:/t/wt/feature/sm config lfs.storage /t/main/.git/modules/sm/lfs".to_string()));
    assert!(calls.contains(&"cwd:/t/wt/feature/sm lfs checkout".to_string()));
    // the fake repository lists `feature` everywhere, so it is checked out as it is
    assert!(calls.contains(&"cwd:/t/wt/feature/sm checkout feature".to_string()));
    assert!(!calls.iter().any(|c| c.contains("--detach")));
}

// ---------------------------------------------------------------------------
// The command's decisions.

fn add_options(repo: &str, branch: &str) -> AddOptions {
    AddOptions {
        branch: branch.to_string(),
        repo: repo.to_string(),
        base: "origin/main".to_string(),
        directory: None,
        copy_files: vec![],
        copy_dirs: vec![],
        skip_dirs: vec![],
        no_lfs_share: false,
        no_submodules: true,
        no_config: false,
    }
}

#[test]
fn add_refuses_missing_repository() {
    let mut w = World::default();
    let mut m = AddCommand::new(add_options("/nope", "x"));
    drive(&mut w, |r| m.resume(r), &mut no_git);
    assert_eq!(m.into_outcome().unwrap().unwrap_err(), "repo not found: /nope");
}

#[test]
fn add_layers_config_over_options() {
    let mut w = World::default();
    let mut repo = Repo::new();
    repo.local.insert("feat".to_string());
    creation_world(&mut w);
    let mut opts = add_options("/t/main", "feat");
    opts.copy_files.push("NOTES.md".to_string());
    let mut m = AddCommand::new(opts);
    let log = drive(&mut w, |r| m.resume(r), &mut |w, c| {
        if c.args[0] == "config" {
            match c.args[2].as_str() {
                "recworktree.copy" => ok_ran(".vscode\n"),
                "recworktree.skipdir" => ok_ran("sub-b\n"),
                _ => failed_ran(""),
            }
        } else {
            repo.run(w, c)
        }
    });
    assert_eq!(m.into_outcome().unwrap().unwrap(), "/t/feat");
    assert!(log.iter().any(|l| l.contains("worktree add --detach /t/feat/subprojects/sub-a")));
    assert!(!log.iter().any(|l| l.contains("sub-b")));
    assert_eq!(w.files.get("/t/feat/NOTES.md").map(|s| s.as_str()), Some("notes"));
    assert_eq!(w.files.get("/t/feat/.vscode/settings.json").map(|s| s.as_str()), Some("{}"));
}

#[test]
fn remove_command_deletes_branch() {
    let mut w = World::default();
    let mut repo = Repo::new();
    w.dir("/t/main/.git/worktrees");
    let wt = "/t/worktrees/topic";
    linked_worktree(&mut w, "/t/main/.git", wt, "topic");
    repo.local.insert("topic".to_string());
    let mut m = RemoveCommand::new(wt.to_string(), false, true);
    drive(&mut w, |r| m.resume(r), &mut |w, c| {
        if c.args[0] == "rev-parse" {
            ok_ran("topic\n")
        } else {
            repo.run(w, c)
        }
    });
    match m.into_outcome().unwrap().unwrap() {
        BranchReport::Deleted(b) => assert_eq!(b, "topic"),
        other => panic!("{:?}", other),
    }
    assert!(!repo.local.contains("topic"));
}

#[test]
fn remove_command_keeps_detached_head() {
    let mut w = World::default();
    let mut repo = Repo::new();
    w.dir("/t/main/.git/worktrees");
    let wt = "/t/worktrees/det";
    linked_worktree(&mut w, "/t/main/.git", wt, "det");
    let mut m = RemoveCommand::new(wt.to_string(), false, true);
    drive(&mut w, |r| m.resume(r), &mut |w, c| {
        if c.args[0] == "rev-parse" {
            ok_ran("HEAD\n")
        } else {
            repo.run(w, c)
        }
    });
    assert!(matches!(m.into_outcome().unwrap().unwrap(), BranchReport::Kept));
}


// ---------------------------------------------------------------------------
// Failures that are passed over with a warning.

#[test]
fn creation_reports_passed_over_failures_as_warnings() {
    let mut w = World::default();
    let mut repo = Repo::new();
    repo.local.insert("feature".to_string());
    creation_world(&mut w);
    w.dir("/t/main/adir");
    // a leftover at a nested target that cannot be removed as a directory
    w.file("/t/wt/feature/subprojects/sub-b", "not a directory");
    let mut m = WorktreeBuilder::new("/t/main".to_string(), "/t/wt/feature".to_string(), "feature".to_string())
        .copy_file("adir".to_string())
        .create();
    drive(&mut w, |r| m.resume(r), &mut |w, c| {
        let a: Vec<&str> = c.args.iter().map(|s| s.as_str()).collect();
        match a.as_slice() {
            ["worktree", "add", "--detach", p] if p.ends_with("sub-a") => failed_ran("fatal: sub-a is broken\n"),
            ["worktree", "add", p, _] if *p != "--detach" => {
                w.file(&format!("{}/.git", p), "gitdir: x");
                w.file(&format!("{}/.gitmodules", p), "[submodule]");
                ok_ran("")
            },
            ["submodule", "update", "--init"] => failed_ran(""),
            _ => repo.run(w, c),
        }
    });
    let warnings = m.warnings().clone();
    m.into_outcome().unwrap().unwrap();
    assert_eq!(
        warnings,
        vec![
            "Warning: Failed to create worktree for subprojects/sub-a: fatal: sub-a is broken",
            "Warning: Failed to remove subprojects/sub-b: not a directory",
            "Warning: Failed to initialize submodules",
            "Warning: Failed to copy adir: no source",
        ]
    );
}

#[test]
fn creation_without_failures_gives_no_warning() {
    let mut w = World::default();
    let mut repo = Repo::new();
    repo.local.insert("feature".to_string());
    creation_world(&mut w);
    let mut m = WorktreeBuilder::new("/t/main".to_string(), "/t/wt/feature".to_string(), "feature".to_string())
        .copy_file("NOTES.md".to_string())
        .copy_dir(".vscode".to_string())
        .create();
    drive(&mut w, |r| m.resume(r), &mut |w, c| repo.run(w, c));
    assert!(m.warnings().is_empty());
    m.into_outcome().unwrap().unwrap();
}

#[test]
fn removal_reports_passed_over_failures_as_warnings() {
    let mut w = World::default();
    let mut repo = Repo::new();
    let wt = separated_with_nested_worktrees(&mut w, &mut repo, "warned");
    repo.dirty.insert(format!("{}/subprojects/sub-a", wt));
    w.file(&format!("{}/.gitmodules", wt), "[submodule]");
    // the admin dir holds `modules`, but not as a directory
    w.file("/t/main.git/worktrees/warned/modules", "not a directory");
    let mut m = remove_worktree(wt.clone(), false);
    drive(&mut w, |r| m.resume(r), &mut |w, c| repo.run(w, c));
    let warnings = m.warnings().clone();
    m.into_outcome().unwrap().unwrap();
    assert_eq!(
        warnings,
        vec![
            "Warning: fatal: contains modified or untracked files, use --force to delete it",
            "Warning: Failed to remove submodule metadata: not a directory",
        ]
    );
}

#[test]
fn remove_command_passes_on_removal_warnings() {
    let mut w = World::default();
    let mut repo = Repo::new();
    let wt = separated_with_nested_worktrees(&mut w, &mut repo, "cmdwarn");
    repo.dirty.insert(format!("{}/subprojects/sub-b", wt));
    let mut m = RemoveCommand::new(wt.clone(), false, false);
    drive(&mut w, |r| m.resume(r), &mut |w, c| repo.run(w, c));
    assert_eq!(m.warnings(), &vec!["Warning: fatal: contains modified or untracked files, use --force to delete it".to_string()]);
    m.into_outcome().unwrap().unwrap();
}

// ---------------------------------------------------------------------------
// Laws on concrete values.

#[test]
fn nested_worktree_search_is_the_filtered_default_walk() {
    let mut w = World::default();
    w.dir("/t/main.git");
    linked_worktree(&mut w, "/t/main.git", "/wt", "wt");
    for (i, name) in ["one", "two"].iter().enumerate() {
        let git_dir = format!("/sub{}/.git", i);
        w.dir(&format!("{}/worktrees", git_dir));
        linked_worktree(&mut w, &git_dir, &format!("/wt/subprojects/{}", name), name);
    }
    w.dir("/wt/subprojects/clone/.git");
    w.file("/wt/subprojects/broken/.git", "garbage");
    linked_worktree(&mut w, "/t/main.git", "/wt/node_modules/skipped", "skipped");
    let mut search = find_nested_worktrees("/wt".to_string());
    drive(&mut w, |r| search.resume(r), &mut no_git);
    let got: Vec<String> = search.into_found().into_iter().map(|i| i.worktree_path).collect();
    // the walk of find_nested_git_repos, then the `.git` file check and the lookup of each
    let mut repos = find_nested_git_repos("/wt".to_string());
    drive(&mut w, |r| repos.resume(r), &mut no_git);
    let mut expected = Vec::new();
    for repo in repos.into_found() {
        if !w.is_file(&format!("{}/.git", repo.path)) {
            continue;
        }
        let mut lookup = InfoLookup::new(repo.path.clone());
        drive(&mut w, |r| lookup.resume(r), &mut no_git);
        if let Some(Ok(info)) = lookup.into_outcome() {
            expected.push(info.worktree_path);
        }
    }
    assert_eq!(got, expected);
    assert_eq!(got, vec!["/wt/subprojects/one".to_string(), "/wt/subprojects/two".to_string()]);
}

#[test]
fn second_creation_only_checks() {
    let mut w = World::default();
    let mut repo = Repo::new();
    repo.refs.insert("origin/main".to_string());
    creation_world(&mut w);
    let builder = || {
        WorktreeBuilder::new("/t/main".to_string(), "/t/wt/feature".to_string(), "feature".to_string())
            .copy_file("NOTES.md".to_string())
    };
    let mut m = builder().create();
    let log = drive(&mut w, |r| m.resume(r), &mut |w, c| repo.run(w, c));
    m.into_outcome().unwrap().unwrap();
    assert!(log.contains(&"git[cwd:/t/main] worktree add /t/wt/feature feature".to_string()));
    let mut m = builder().create();
    let log = drive(&mut w, |r| m.resume(r), &mut |w, c| repo.run(w, c));
    assert!(m.warnings().is_empty());
    m.into_outcome().unwrap().unwrap();
    assert_eq!(
        log,
        vec![
            "git[cwd:/t/main] fetch origin",
            "git[cwd:/t/main] branch --list feature",
            "git[cwd:/t/main] worktree list --porcelain",
        ]
    );
}

#[test]
fn creation_makes_the_parent_of_a_path_with_a_trailing_slash() {
    let mut w = World::default();
    let mut repo = Repo::new();
    repo.local.insert("feature".to_string());
    creation_world(&mut w);
    let mut m = WorktreeBuilder::new("/t/main".to_string(), "/t/wt/feature/".to_string(), "feature".to_string())
        .init_submodules(false)
        .create();
    let log = drive(&mut w, |r| m.resume(r), &mut |w, c| repo.run(w, c));
    m.into_outcome().unwrap().unwrap();
    assert!(log.contains(&"mkdir /t/wt".to_string()));
    assert!(!log.contains(&"mkdir /t/wt/feature".to_string()));
}
