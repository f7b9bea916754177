//! Per-repo / per-user configuration read from `git config`.
//!
//! | Key | Cardinality | Format | Meaning |
//! |-----|-------------|--------|---------|
//! | `recworktree.copy` | multi | relative path | File or directory under the repo root to copy into each new worktree. |
//! | `recworktree.external` | multi | `SRC:DST` | Absolute-path source file to copy to the relative destination inside the worktree. |
//! | `recworktree.skipDir` | multi | name | Extra directory name to exclude during nested-repo discovery. |
//!
//! Values are read with `git config --get-all`, so they come from every
//! level git reads (system, global, local, includes), and key names are
//! matched without regard to case.

use vstd::prelude::*;
use crate::effect::{
    ran_of, take_ran, GitCommand, GitCommandV, Output, Place, PlaceV, Ran, RanV, Reply, ReplyV,
    Request, RequestV, Step, StepV,
};
use crate::error::{Error, ErrorV};
use crate::text::{
    cat, cat3, chars_of, nonempty_lines, nonempty_lines_of, clone_strings, string_from, trim, trim_str, views,
};

verus! {

/// Config values read from git.
#[derive(Debug, PartialEq, Eq)]
pub struct RepoConfig {
    /// Values of `recworktree.copy`: paths relative to the repo root.
    pub copies: Vec<String>,
    /// Values of `recworktree.external`, parsed as `(SRC, DST)`.
    pub externals: Vec<(String, String)>,
    /// Values of `recworktree.skipDir`.
    pub skip_dirs: Vec<String>,
}

pub struct RepoConfigV {
    pub copies: Seq<Seq<char>>,
    pub externals: Seq<(Seq<char>, Seq<char>)>,
    pub skip_dirs: Seq<Seq<char>>,
}

pub open spec fn pair_views(v: Seq<(String, String)>) -> Seq<(Seq<char>, Seq<char>)> {
    v.map_values(|p: (String, String)| (p.0@, p.1@))
}

impl View for RepoConfig {
    type V = RepoConfigV;

    open spec fn view(&self) -> RepoConfigV {
        RepoConfigV {
            copies: views(self.copies@),
            externals: pair_views(self.externals@),
            skip_dirs: views(self.skip_dirs@),
        }
    }
}

impl Default for RepoConfig {
    /// The empty configuration.
    fn default() -> (c: Self)
        ensures
            c@.copies.len() == 0,
            c@.externals.len() == 0,
            c@.skip_dirs.len() == 0,
    {
        RepoConfig { copies: Vec::new(), externals: Vec::new(), skip_dirs: Vec::new() }
    }
}

/// The index of the first `c` in `s`, or -1.
pub open spec fn first_index(s: Seq<char>, c: char) -> int
    decreases s.len(),
{
    if s.len() == 0 {
        -1
    } else if s[0] == c {
        0
    } else {
        let k = first_index(s.drop_first(), c);
        if k < 0 {
            -1
        } else {
            k + 1
        }
    }
}

/// A `recworktree.external` value split at its first `:` into source and
/// destination, neither of which may be empty.
pub open spec fn parse_external_spec(v: Seq<char>) -> Result<(Seq<char>, Seq<char>), ErrorV> {
    let i = first_index(v, ':');
    if i < 0 {
        Err(
            ErrorV::InvalidPath(
                "recworktree.external value '"@ + v + "' must be 'SRC:DST'"@,
            ),
        )
    } else if i == 0 || i + 1 == v.len() {
        Err(
            ErrorV::InvalidPath(
                "recworktree.external value '"@ + v + "' has empty SRC or DST"@,
            ),
        )
    } else {
        Ok((v.subrange(0, i), v.subrange(i + 1, v.len() as int)))
    }
}

/// All the values parsed, or the error of the first that does not parse.
pub open spec fn parse_externals(raw: Seq<Seq<char>>) -> Result<Seq<(Seq<char>, Seq<char>)>, ErrorV>
    decreases raw.len(),
{
    if raw.len() == 0 {
        Ok(Seq::empty())
    } else {
        match parse_externals(raw.drop_last()) {
            Err(e) => Err(e),
            Ok(ps) => match parse_external_spec(raw.last()) {
                Ok(p) => Ok(ps.push(p)),
                Err(e) => Err(e),
            },
        }
    }
}

/// The configuration made of the values of the three keys.
pub open spec fn config_from_values(
    copies: Seq<Seq<char>>,
    externals: Seq<Seq<char>>,
    skip_dirs: Seq<Seq<char>>,
) -> Result<RepoConfigV, ErrorV> {
    match parse_externals(externals) {
        Err(e) => Err(e),
        Ok(ps) => Ok(RepoConfigV { copies, externals: ps, skip_dirs }),
    }
}

/// The values of `key` that `git config --get-all key` reported: its
/// non-empty output lines when it succeeded, none when it exited with 1 and
/// printed nothing on standard error (the key is not set), an error
/// otherwise.
pub open spec fn config_values_spec(key: Seq<char>, ran: RanV) -> Result<Seq<Seq<char>>, ErrorV> {
    if ran.code == Some(0i32) {
        Ok(nonempty_lines(ran.stdout))
    } else if ran.code == Some(1i32) && ran.stderr.len() == 0 {
        Ok(Seq::empty())
    } else {
        Err(
            ErrorV::GitCommand(
                "git config --get-all "@ + key + " failed: "@ + trim(ran.stderr),
            ),
        )
    }
}

proof fn lemma_first_index(s: Seq<char>, c: char)
    ensures
        -1 <= first_index(s, c) < s.len(),
        first_index(s, c) >= 0 ==> s[first_index(s, c)] == c,
        forall|k: int| 0 <= k < s.len() && (first_index(s, c) < 0 || k < first_index(s, c)) ==> s[k]
            != c,
    decreases s.len(),
{
    if s.len() > 0 && s[0] != c {
        lemma_first_index(s.drop_first(), c);
        assert forall|k: int|
            0 <= k < s.len() && (first_index(s, c) < 0 || k < first_index(s, c)) implies s[k]
            != c by {
            if k > 0 {
                assert(s[k] == s.drop_first()[k - 1]);
            }
        }
    }
}

proof fn lemma_first_index_at(s: Seq<char>, c: char, i: int)
    requires
        0 <= i <= s.len(),
        forall|k: int| 0 <= k < i ==> s[k] != c,
        i == s.len() || s[i] == c,
    ensures
        first_index(s, c) == if i == s.len() {
            -1
        } else {
            i
        },
    decreases i,
{
    lemma_first_index(s, c);
    if i > 0 {
        assert forall|k: int| 0 <= k < i - 1 implies s.drop_first()[k] != c by {
            assert(s.drop_first()[k] == s[k + 1]);
        }
        lemma_first_index_at(s.drop_first(), c, i - 1);
    }
}

/// A `recworktree.external` value split into source and destination.
pub fn parse_external(value: &str) -> (r: Result<(String, String), Error>)
    ensures
        match r {
            Ok((a, b)) => parse_external_spec(value@) == Ok::<(Seq<char>, Seq<char>), ErrorV>(
                (a@, b@),
            ),
            Err(e) => parse_external_spec(value@) == Err::<(Seq<char>, Seq<char>), ErrorV>(e@),
        },
{
    let cs = chars_of(value);
    let mut i: usize = 0;
    while i < cs.len() && cs[i] != ':'
        invariant
            i <= cs@.len(),
            cs@ == value@,
            forall|k: int| 0 <= k < i ==> cs@[k] != ':',
        decreases cs.len() - i,
    {
        i = i + 1;
    }
    proof {
        lemma_first_index_at(value@, ':', i as int);
    }
    if i == cs.len() {
        let m = cat3("recworktree.external value '", value, "' must be 'SRC:DST'");
        return Err(Error::InvalidPath(m));
    }
    if i == 0 || i + 1 == cs.len() {
        let m = cat3("recworktree.external value '", value, "' has empty SRC or DST");
        return Err(Error::InvalidPath(m));
    }
    let src = value.substring_char(0, i);
    let dst = string_from(&cs, i + 1);
    Ok((String::from_str(src), dst))
}

proof fn lemma_parse_externals_err(raw: Seq<Seq<char>>, n: int)
    requires
        0 <= n <= raw.len(),
        parse_externals(raw.subrange(0, n)) is Err,
    ensures
        parse_externals(raw) == parse_externals(raw.subrange(0, n)),
    decreases raw.len() - n,
{
    if n < raw.len() {
        let a = raw.subrange(0, n);
        let b = raw.subrange(0, n + 1);
        assert(b.drop_last() =~= a);
        lemma_parse_externals_err(raw, n + 1);
    } else {
        assert(raw.subrange(0, n) =~= raw);
    }
}

/// The configuration made of the values read for the three keys: the
/// copies and skip names as they are, the externals parsed (the first value
/// that does not parse gives the error).
pub fn config_from_raw(copies: Vec<String>, externals_raw: Vec<String>, skip_dirs: Vec<String>) -> (r:
    Result<RepoConfig, Error>)
    ensures
        match r {
            Ok(c) => config_from_values(views(copies@), views(externals_raw@), views(skip_dirs@))
                == Ok::<RepoConfigV, ErrorV>(c@),
            Err(e) => config_from_values(views(copies@), views(externals_raw@), views(skip_dirs@))
                == Err::<RepoConfigV, ErrorV>(e@),
        },
{
    let ghost raw = views(externals_raw@);
    let mut externals: Vec<(String, String)> = Vec::new();
    let mut i: usize = 0;
    proof {
        assert(raw.subrange(0, 0) =~= Seq::<Seq<char>>::empty());
        assert(pair_views(externals@) =~= Seq::<(Seq<char>, Seq<char>)>::empty());
    }
    while i < externals_raw.len()
        invariant
            i <= externals_raw@.len(),
            raw == views(externals_raw@),
            parse_externals(raw.subrange(0, i as int)) == Ok::<
                Seq<(Seq<char>, Seq<char>)>,
                ErrorV,
            >(pair_views(externals@)),
        decreases externals_raw.len() - i,
    {
        let ghost post = raw.subrange(0, i + 1);
        proof {
            assert(post.drop_last() =~= raw.subrange(0, i as int));
            assert(post.last() == externals_raw@[i as int]@);
        }
        match parse_external(externals_raw[i].as_str()) {
            Ok(p) => {
                let ghost before = pair_views(externals@);
                externals.push(p);
                assert(pair_views(externals@) =~= before.push((p.0@, p.1@)));
            },
            Err(e) => {
                proof {
                    lemma_parse_externals_err(raw, i + 1);
                }
                return Err(e);
            },
        }
        i = i + 1;
    }
    proof {
        assert(raw.subrange(0, raw.len() as int) =~= raw);
    }
    Ok(RepoConfig { copies, externals, skip_dirs })
}

/// The values of `key` that a finished `git config --get-all key` gave.
pub fn config_values(key: &str, ran: &Ran) -> (r: Result<Vec<String>, Error>)
    ensures
        match r {
            Ok(v) => config_values_spec(key@, ran@) == Ok::<Seq<Seq<char>>, ErrorV>(views(v@)),
            Err(e) => config_values_spec(key@, ran@) == Err::<Seq<Seq<char>>, ErrorV>(e@),
        },
{
    let ok = match ran.code {
        Some(c) => c == 0,
        None => false,
    };
    let unset = match ran.code {
        Some(c) => c == 1,
        None => false,
    };
    if ok {
        Ok(nonempty_lines_of(ran.stdout.as_str()))
    } else if unset && ran.stderr.as_str().unicode_len() == 0 {
        let v: Vec<String> = Vec::new();
        assert(views(v@) =~= Seq::<Seq<char>>::empty());
        Ok(v)
    } else {
        let t = trim_str(ran.stderr.as_str());
        let mut m = cat3("git config --get-all ", key, " failed: ");
        m.append(t.as_str());
        Err(Error::GitCommand(m))
    }
}

/// The config keys, in the order they are read.
pub open spec fn config_key(k: int) -> Seq<char> {
    if k == 0 {
        "recworktree.copy"@
    } else if k == 1 {
        "recworktree.external"@
    } else {
        "recworktree.skipdir"@
    }
}

/// The command that reads the values of `key` in `repo`.
pub open spec fn get_all_command(repo: Seq<char>, key: Seq<char>) -> GitCommandV {
    GitCommandV {
        place: PlaceV::Within(repo),
        args: seq!["config"@, "--get-all"@, key],
        env: Seq::empty(),
        output: Output::Capture,
    }
}

fn key_string(k: usize) -> (s: String)
    ensures
        s@ == config_key(k as int),
{
    if k == 0 {
        String::from_str("recworktree.copy")
    } else if k == 1 {
        String::from_str("recworktree.external")
    } else {
        String::from_str("recworktree.skipdir")
    }
}

fn get_all_request(repo: &String, k: usize) -> (q: Request)
    ensures
        q@ == RequestV::Git(get_all_command(repo@, config_key(k as int))),
{
    let mut args: Vec<String> = Vec::new();
    args.push(String::from_str("config"));
    args.push(String::from_str("--get-all"));
    args.push(key_string(k));
    let c = GitCommand { place: Place::Within(repo.clone()), args, env: Vec::new(), output: Output::Capture };
    assert(c@.args =~= seq!["config"@, "--get-all"@, config_key(k as int)]);
    assert(c@.env =~= Seq::<(Seq<char>, Seq<char>)>::empty());
    Request::Git(c)
}

/// The loading of the configuration of the repository at a path.
pub struct ConfigLoad {
    repo: String,
    /// How many keys have been asked for.
    asked: usize,
    values: Vec<Vec<String>>,
    outcome: Option<Result<RepoConfig, Error>>,
}

pub struct ConfigLoadV {
    pub repo: Seq<char>,
    pub asked: int,
    /// The values read for the keys answered so far.
    pub values: Seq<Seq<Seq<char>>>,
    pub outcome: Option<Result<RepoConfigV, ErrorV>>,
}

impl View for ConfigLoad {
    type V = ConfigLoadV;

    closed spec fn view(&self) -> ConfigLoadV {
        ConfigLoadV {
            repo: self.repo@,
            asked: self.asked as int,
            values: self.values@.map_values(|v: Vec<String>| views(v@)),
            outcome: match self.outcome {
                Some(Ok(c)) => Some(Ok(c@)),
                Some(Err(e)) => Some(Err(e@)),
                None => None,
            },
        }
    }
}

/// One step of the loading: the first three steps ask for the values of the
/// three keys in turn; the answers are read as `config_values_spec` says;
/// the first failure (a command that could not run is an I/O error) ends
/// the loading with that error, and otherwise the configuration is made of
/// the three lists of values.
pub open spec fn config_resume(m: ConfigLoadV, r: ReplyV) -> (ConfigLoadV, StepV) {
    if m.outcome is Some || m.asked > 3 || (m.asked > 0 && m.values.len() != m.asked - 1) {
        (m, StepV::Finished)
    } else if m.asked == 0 {
        (
            ConfigLoadV { asked: 1, ..m },
            StepV::Do(RequestV::Git(get_all_command(m.repo, config_key(0)))),
        )
    } else {
        let k = m.asked - 1;
        match ran_of(r) {
            Err(e) => (ConfigLoadV { outcome: Some(Err(ErrorV::Io(e))), ..m }, StepV::Finished),
            Ok(ran) => match config_values_spec(config_key(k), ran) {
                Err(e) => (ConfigLoadV { outcome: Some(Err(e)), ..m }, StepV::Finished),
                Ok(vals) => {
                    let values = m.values.push(vals);
                    if m.asked < 3 {
                        (
                            ConfigLoadV { asked: m.asked + 1, values, ..m },
                            StepV::Do(RequestV::Git(get_all_command(m.repo, config_key(m.asked)))),
                        )
                    } else {
                        (
                            ConfigLoadV {
                                values,
                                outcome: Some(config_from_values(values[0], values[1], values[2])),
                                ..m
                            },
                            StepV::Finished,
                        )
                    }
                },
            },
        }
    }
}

/// The loading before its first step.
pub open spec fn config_start(repo: Seq<char>) -> ConfigLoadV {
    ConfigLoadV { repo, asked: 0, values: Seq::empty(), outcome: None }
}

impl RepoConfig {
    /// The loading of the configuration that git gives for the repository
    /// at `repo_path`, by `git -C repo_path config --get-all` on each key.
    /// No values set gives the empty configuration.
    pub fn load(repo_path: String) -> (m: ConfigLoad)
        ensures
            m@ == config_start(repo_path@),
    {
        let m = ConfigLoad { repo: repo_path, asked: 0, values: Vec::new(), outcome: None };
        assert(m@.values =~= Seq::<Seq<Seq<char>>>::empty());
        m
    }
}

impl ConfigLoad {
    /// The result, once the loading has finished.
    pub fn outcome(&self) -> (o: &Option<Result<RepoConfig, Error>>)
        ensures
            match *o {
                Some(Ok(c)) => self@.outcome == Some(Ok::<RepoConfigV, ErrorV>(c@)),
                Some(Err(e)) => self@.outcome == Some(Err::<RepoConfigV, ErrorV>(e@)),
                None => self@.outcome is None,
            },
    {
        &self.outcome
    }

    /// The result, once the loading has finished.
    pub fn into_outcome(self) -> (o: Option<Result<RepoConfig, Error>>)
        ensures
            match o {
                Some(Ok(c)) => self@.outcome == Some(Ok::<RepoConfigV, ErrorV>(c@)),
                Some(Err(e)) => self@.outcome == Some(Err::<RepoConfigV, ErrorV>(e@)),
                None => self@.outcome is None,
            },
    {
        self.outcome
    }

    /// One step of the loading.
    pub fn resume(&mut self, reply: Reply) -> (st: Step)
        ensures
            (final(self)@, st@) == config_resume(old(self)@, reply@),
    {
        let ghost m = self@;
        if self.outcome.is_some() || self.asked > 3 || (self.asked > 0
            && self.values.len() != self.asked - 1) {
            return Step::Finished;
        }
        if self.asked == 0 {
            self.asked = 1;
            return Step::Do(get_all_request(&self.repo, 0));
        }
        let k = self.asked - 1;
        match take_ran(reply) {
            Err(e) => {
                self.outcome = Some(Err(Error::Io(e)));
                Step::Finished
            },
            Ok(ran) => {
                let key = key_string(k);
                match config_values(key.as_str(), &ran) {
                    Err(e) => {
                        self.outcome = Some(Err(e));
                        Step::Finished
                    },
                    Ok(vals) => {
                        self.values.push(vals);
                        assert(self@.values =~= m.values.push(views(vals@)));
                        if self.asked < 3 {
                            let q = get_all_request(&self.repo, self.asked);
                            self.asked = self.asked + 1;
                            Step::Do(q)
                        } else {
                            let copies = clone_strings(&self.values[0]);
                            let externals = clone_strings(&self.values[1]);
                            let skips = clone_strings(&self.values[2]);
                            let o = config_from_raw(copies, externals, skips);
                            self.outcome = Some(o);
                            Step::Finished
                        }
                    },
                }
            },
        }
    }
}

} // verus!

verus! {

/// The reply of a `git config --get-all` for a key that is not set.
pub open spec fn unset_reply() -> ReplyV {
    ReplyV::Ran(Ok(RanV { success: false, code: Some(1i32), stdout: Seq::empty(), stderr: Seq::empty() }))
}

/// A repository with no values set gives the empty configuration: whatever
/// the repository, when git reports each of the three keys as not set, the
/// loading asks for nothing more and gives a configuration with no copies,
/// no externals and no skip names.
pub proof fn lemma_unset_keys_give_empty_config(repo: Seq<char>)
    ensures
        ({
            let (m1, _) = config_resume(config_start(repo), ReplyV::Start);
            let (m2, _) = config_resume(m1, unset_reply());
            let (m3, _) = config_resume(m2, unset_reply());
            let (m4, st) = config_resume(m3, unset_reply());
            &&& st is Finished
            &&& m4.outcome matches Some(Ok(c)) && c.copies.len() == 0 && c.externals.len() == 0
                && c.skip_dirs.len() == 0
        }),
{
    let (m1, _) = config_resume(config_start(repo), ReplyV::Start);
    let (m2, _) = config_resume(m1, unset_reply());
    let (m3, _) = config_resume(m2, unset_reply());
    let (m4, st) = config_resume(m3, unset_reply());
    assert(m4.values[1] =~= Seq::<Seq<char>>::empty());
}

} // verus!
