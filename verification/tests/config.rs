use git_recworktree::config::{config_from_raw, config_values, parse_external};
use git_recworktree::effect::{Place, Ran, Reply, Request, Step};
use git_recworktree::RepoConfig;

/// What `git config --get-all KEY` gives for each key: the values, or
/// `None` for a key that is not set.
fn load_with(values: &[(&str, Option<&str>)]) -> (Result<RepoConfig, git_recworktree::Error>, Vec<Vec<String>>) {
    let mut m = RepoConfig::load("/repo".to_string());
    let mut reply = Reply::Start;
    let mut asked = Vec::new();
    loop {
        match m.resume(reply) {
            Step::Finished => break,
            Step::Do(Request::Git(c)) => {
                match &c.place {
                    Place::Within(d) => assert_eq!(d, "/repo"),
                    _ => panic!("config must be read with -C"),
                }
                let key = c.args[2].clone();
                asked.push(c.args.clone());
                let found = values.iter().find(|(k, _)| *k == key).and_then(|(_, v)| *v);
                reply = Reply::Ran(Ok(match found {
                    Some(v) => Ran { success: true, code: Some(0), stdout: v.to_string(), stderr: String::new() },
                    None => Ran { success: false, code: Some(1), stdout: String::new(), stderr: String::new() },
                }));
            },
            Step::Do(_) => panic!("unexpected request"),
        }
    }
    (m.into_outcome().expect("finished"), asked)
}

#[test]
fn empty_repo_gives_empty_config() {
    let (cfg, _) = load_with(&[]);
    assert_eq!(cfg.unwrap(), RepoConfig::default());
}

#[test]
fn reads_copy_and_skipdir() {
    let (cfg, _) = load_with(&[
        ("recworktree.copy", Some("NOTES.md\n.envrc\n.vscode\n")),
        ("recworktree.skipdir", Some("yolotarget\n")),
    ]);
    let cfg = cfg.unwrap();
    assert_eq!(cfg.copies, vec!["NOTES.md".to_string(), ".envrc".to_string(), ".vscode".to_string()]);
    assert_eq!(cfg.skip_dirs, vec!["yolotarget".to_string()]);
}

#[test]
fn reads_external_pairs() {
    let (cfg, _) = load_with(&[("recworktree.external", Some("/abs/src.ini:dest/out.ini\n"))]);
    assert_eq!(
        cfg.unwrap().externals,
        vec![("/abs/src.ini".to_string(), "dest/out.ini".to_string())]
    );
}

#[test]
fn external_without_colon_errors() {
    let (cfg, _) = load_with(&[("recworktree.external", Some("/no-colon\n"))]);
    let err = cfg.unwrap_err();
    assert!(err.message().contains("must be 'SRC:DST'"));
}

#[test]
fn casing_is_ignored_for_keys() {
    // git matches variable names without regard to case; the key is asked
    // for as `recworktree.skipdir`, whatever casing the value was set with.
    let (cfg, asked) = load_with(&[("recworktree.skipdir", Some("foo\n"))]);
    assert_eq!(cfg.unwrap().skip_dirs, vec!["foo"]);
    assert_eq!(asked[2], vec!["config", "--get-all", "recworktree.skipdir"]);
}

#[test]
fn keys_are_read_in_order() {
    let (_, asked) = load_with(&[]);
    let keys: Vec<String> = asked.iter().map(|a| a[2].clone()).collect();
    assert_eq!(keys, vec!["recworktree.copy", "recworktree.external", "recworktree.skipdir"]);
}

#[test]
fn external_with_empty_side_errors() {
    let e = parse_external(":dst").unwrap_err();
    assert_eq!(e.message(), "Invalid path: recworktree.external value ':dst' has empty SRC or DST");
    let e = parse_external("src:").unwrap_err();
    assert!(e.message().contains("has empty SRC or DST"));
}

#[test]
fn external_splits_at_first_colon() {
    assert_eq!(parse_external("a:b:c").unwrap(), ("a".to_string(), "b:c".to_string()));
    let e = parse_external("/no-colon").unwrap_err();
    assert_eq!(e.message(), "Invalid path: recworktree.external value '/no-colon' must be 'SRC:DST'");
}

#[test]
fn first_bad_external_gives_the_error() {
    let r = config_from_raw(
        vec![],
        vec!["a:b".to_string(), "bad1".to_string(), "bad2".to_string()],
        vec![],
    );
    assert!(r.unwrap_err().message().contains("'bad1'"));
}

#[test]
fn config_values_read_lines_and_errors() {
    let ok = Ran { success: true, code: Some(0), stdout: "a\n\nb\r\nc".to_string(), stderr: String::new() };
    assert_eq!(config_values("k", &ok).unwrap(), vec!["a", "b", "c"]);
    let unset = Ran { success: false, code: Some(1), stdout: String::new(), stderr: String::new() };
    assert!(config_values("k", &unset).unwrap().is_empty());
    let bad = Ran { success: false, code: Some(1), stdout: String::new(), stderr: "  fatal: bad config \n".to_string() };
    assert_eq!(
        config_values("k", &bad).unwrap_err().message(),
        "Git command failed: git config --get-all k failed: fatal: bad config"
    );
    let killed = Ran { success: false, code: None, stdout: String::new(), stderr: String::new() };
    assert!(config_values("k", &killed).is_err());
}

#[test]
fn git_that_cannot_run_is_io_error() {
    let mut m = RepoConfig::load("/repo".to_string());
    assert!(matches!(m.resume(Reply::Start), Step::Do(_)));
    assert!(matches!(m.resume(Reply::Ran(Err("no git".to_string()))), Step::Finished));
    let e = m.into_outcome().unwrap().unwrap_err();
    assert_eq!(e.message(), "IO error: no git");
}
