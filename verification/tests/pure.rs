use git_recworktree::cli::{default_worktree_path, should_delete_branch};
use git_recworktree::config::RepoConfig;
use git_recworktree::ops::is_worktree_listed;
use git_recworktree::path::{components_of, depth_of, join, parent, sorted_unique_paths, Comp};
use git_recworktree::remove::deepest_first_of;
use git_recworktree::text::{chars_of, contains_str, nonempty_lines_of, string_of, trim_str};
use git_recworktree::{default_skip_dirs, Error, WorktreeBuilder, WorktreeInfo};

#[test]
fn joining_paths() {
    assert_eq!(join("/a/b", "c"), "/a/b/c");
    assert_eq!(join("/a/b/", "c"), "/a/b/c");
    assert_eq!(join("/a", "/abs"), "/abs");
    assert_eq!(join("", "rel"), "rel");
    assert_eq!(join("a", ""), "a/");
}

#[test]
fn parents_of_normalized_paths() {
    assert_eq!(parent("/a/b/c"), Some("/a/b".to_string()));
    assert_eq!(parent("/a"), Some("/".to_string()));
    assert_eq!(parent("/"), None);
    assert_eq!(parent(""), None);
    assert_eq!(parent("name"), Some(String::new()));
}

fn comp_names(p: &str) -> Vec<String> {
    components_of(p)
        .into_iter()
        .map(|c| match c {
            Comp::Root => "/".to_string(),
            Comp::Cur => ".".to_string(),
            Comp::Parent => "..".to_string(),
            Comp::Normal(s) => s,
        })
        .collect()
}

#[test]
fn path_components() {
    assert_eq!(comp_names("/a//b/./c/"), vec!["/", "a", "b", "c"]);
    assert_eq!(comp_names("./a/../b"), vec![".", "a", "..", "b"]);
    assert_eq!(comp_names("."), vec!["."]);
    assert_eq!(comp_names(""), Vec::<String>::new());
    assert_eq!(depth_of("/t/wt/sub/deep"), 5);
    assert_eq!(depth_of("/"), 1);
}

#[test]
fn path_order_sort_and_dedup() {
    let v: Vec<String> = ["/t/main.git", "/t/main/b/.git", "/t/main/a/.git", "/t/main.git", "/t//main.git/"]
        .iter()
        .map(|s| s.to_string())
        .collect();
    assert_eq!(
        sorted_unique_paths(&v),
        vec!["/t/main/a/.git", "/t/main/b/.git", "/t/main.git"]
    );
    assert!(sorted_unique_paths(&Vec::new()).is_empty());
}

fn info(path: &str) -> WorktreeInfo {
    WorktreeInfo {
        worktree_path: path.to_string(),
        worktree_git_dir: String::new(),
        main_git_dir: String::new(),
        main_repo_path: String::new(),
        is_main_worktree: false,
    }
}

#[test]
fn deepest_first_is_stable() {
    let v = vec![info("/w/a"), info("/w/a/b/c"), info("/w/x"), info("/w/a/b"), info("/w/y/z/q")];
    let order: Vec<String> = deepest_first_of(&v).into_iter().map(|i| i.worktree_path).collect();
    assert_eq!(order, vec!["/w/a/b/c", "/w/y/z/q", "/w/a/b", "/w/a", "/w/x"]);
    assert!(deepest_first_of(&Vec::new()).is_empty());
}

#[test]
fn trimming_and_lines() {
    assert_eq!(trim_str(" \t\u{3000}x y\n\u{a0}"), "x y");
    assert_eq!(trim_str("   "), "");
    assert_eq!(nonempty_lines_of("a\r\n\nb\n\r\nc\r"), vec!["a", "b", "c\r"]);
    assert!(nonempty_lines_of("").is_empty());
    assert!(contains_str("worktree /t/wt/x\n", "/t/wt/x"));
    assert!(!contains_str("/t/wt", "/t/wt/x"));
    assert!(contains_str("abc", ""));
    let cs = chars_of("héllo");
    assert_eq!(cs.len(), 5);
    assert_eq!(string_of(&cs), "héllo");
}

#[test]
fn worktree_path_defaults() {
    assert_eq!(default_worktree_path("/home/me/repo", &None, "feat"), "/home/me/feat");
    assert_eq!(default_worktree_path("/repo", &Some("/wts".to_string()), "feat"), "/wts/feat");
    assert_eq!(default_worktree_path("/", &None, "feat"), "./feat");
    assert!(should_delete_branch(&"topic".to_string()));
    assert!(!should_delete_branch(&"HEAD".to_string()));
    assert!(!should_delete_branch(&String::new()));
}

#[test]
fn error_messages() {
    let cases = vec![
        (Error::NotWorktree("/p".to_string()), "Not a git worktree: /p"),
        (Error::IsMainRepo("/p".to_string()), "Path is a main repository, not a worktree: /p"),
        (
            Error::GitFileRead { path: "/p/.git".to_string(), source: "denied".to_string() },
            "Failed to read git file /p/.git: denied",
        ),
        (Error::InvalidGitFile("/p/.git".to_string()), "Invalid .git file format in /p/.git"),
        (Error::GitCommand("boom".to_string()), "Git command failed: boom"),
        (Error::InvalidPath("bad".to_string()), "Invalid path: bad"),
        (Error::Io("gone".to_string()), "IO error: gone"),
    ];
    for (e, m) in cases {
        assert_eq!(e.message(), m);
    }
}

#[test]
fn default_skip_list() {
    assert_eq!(default_skip_dirs(), vec!["node_modules", "target", "_build", "build", "dist"]);
}

#[test]
fn config_extends_builder() {
    let cfg = RepoConfig {
        copies: vec![".envrc".to_string()],
        externals: vec![("/abs/a".to_string(), "a".to_string())],
        skip_dirs: vec!["yolotarget".to_string()],
    };
    // The configuration's copies come after the builder's own.
    let jobs = git_recworktree::create::copy_jobs_of(
        &WorktreeBuilder::new("/r".to_string(), "/w".to_string(), "b".to_string())
            .copy_file("NOTES.md".to_string())
            .external_file("/abs/first".to_string(), "first".to_string())
            .repo_config(&cfg),
        &"/w".to_string(),
    );
    let got: Vec<(String, String)> = jobs.into_iter().map(|j| (j.src, j.dst)).collect();
    assert_eq!(
        got,
        vec![
            ("/r/NOTES.md".to_string(), "/w/NOTES.md".to_string()),
            ("/r/.envrc".to_string(), "/w/.envrc".to_string()),
            ("/abs/first".to_string(), "/w/first".to_string()),
            ("/abs/a".to_string(), "/w/a".to_string()),
        ]
    );
}

#[test]
fn worktree_listing_is_matched_by_whole_lines() {
    let listing = "worktree /repo\nHEAD 0000\nbranch refs/heads/main\n\nworktree /wt/feature-x2\nHEAD 1111\n\n";
    assert!(is_worktree_listed(listing, "/repo"));
    assert!(is_worktree_listed(listing, "/wt/feature-x2"));
    assert!(!is_worktree_listed(listing, "/wt/feature-x"));
    assert!(!is_worktree_listed(listing, "/wt"));
    assert!(!is_worktree_listed("", "/repo"));
}

#[test]
fn parents_follow_std_path_parent() {
    let cases = [
        "/a/b/c", "/a", "/", "", "name", "wt/feature/", "/a/b/", "a//b", "a/./b", "a/.", "./a", ".", "./",
        "..", "../x", "/a/../b", "//a", "a/b//", "/a/./", "x/y/.//",
    ];
    for p in cases {
        let expected = std::path::Path::new(p).parent().map(|q| q.to_str().unwrap().to_string());
        assert_eq!(parent(p), expected, "parent of {:?}", p);
    }
}
