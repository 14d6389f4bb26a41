//! Configuration model: the daemon settings and the ordered list of tracked
//! repositories. A repository is identified by its path; reloads replace the
//! whole configuration atomically, and only repositories whose path is new
//! are initialized.

use vstd::prelude::*;
use crate::strutil::str_eq;

verus! {

/// One tracked repository: where it lives, whether automatic commits are
/// enabled for it, and the commit-message template
/// (placeholders: `{timestamp}`, `{date}`, `{time}`).
#[derive(Debug)]
pub struct Repository {
    pub path: String,
    pub auto_commit: bool,
    pub commit_message_template: String,
}

/// Daemon-wide settings.
#[derive(Debug)]
pub struct DaemonConfig {
    /// Seconds between automatic check cycles.
    pub check_interval_seconds: u64,
    /// Whether the status-tray icon is shown.
    pub enable_tray: bool,
}

/// The whole configuration: daemon settings plus the repository list.
#[derive(Debug)]
pub struct Config {
    pub daemon: DaemonConfig,
    pub repositories: Vec<Repository>,
}

/// Default seconds between automatic check cycles (five minutes).
pub fn default_check_interval() -> (r: u64)
    ensures
        r == 300u64,
{
    300
}

/// By default the status-tray icon is enabled.
pub fn default_enable_tray() -> (r: bool)
    ensures
        r,
{
    true
}

/// Default for a repository's `auto_commit` flag.
pub fn default_true() -> (r: bool)
    ensures
        r,
{
    true
}

/// Default commit-message template.
pub fn default_commit_message() -> (r: String)
    ensures
        r@ == "Auto-commit: {timestamp}"@,
{
    String::from_str("Auto-commit: {timestamp}")
}

impl Clone for Repository {
    fn clone(&self) -> (r: Self)
        ensures
            r == *self,
    {
        Repository {
            path: self.path.clone(),
            auto_commit: self.auto_commit,
            commit_message_template: self.commit_message_template.clone(),
        }
    }
}

impl Clone for DaemonConfig {
    fn clone(&self) -> (r: Self)
        ensures
            r == *self,
    {
        DaemonConfig {
            check_interval_seconds: self.check_interval_seconds,
            enable_tray: self.enable_tray,
        }
    }
}

impl Clone for Config {
    fn clone(&self) -> (r: Self)
        ensures
            r.daemon == self.daemon,
            r.repositories@ == self.repositories@,
    {
        let daemon = self.daemon.clone();
        let mut repositories: Vec<Repository> = Vec::new();
        let mut i: usize = 0;
        while i < self.repositories.len()
            invariant
                i <= self.repositories.len(),
                repositories@ =~= self.repositories@.subrange(0, i as int),
            decreases self.repositories.len() - i,
        {
            repositories.push(self.repositories[i].clone());
            i = i + 1;
        }
        proof {
            assert(repositories@ =~= self.repositories@);
        }
        Config { daemon, repositories }
    }
}

/// Whether some repository in `repos` has this path. The path is the
/// identity of a repository: reloads compare by it.
pub open spec fn spec_has_path(repos: Seq<Repository>, path: Seq<char>) -> bool {
    exists|k: int| 0 <= k < repos.len() && repos[k].path@ == path
}

/// The enabled repositories, in order.
pub open spec fn spec_enabled(repos: Seq<Repository>) -> Seq<Repository> {
    repos.filter(|r: Repository| r.auto_commit)
}

/// The repositories of a new configuration that are both enabled and new by
/// path against the old one: exactly those a reload initializes.
pub open spec fn spec_repos_to_initialize(
    old_repos: Seq<Repository>,
    new_repos: Seq<Repository>,
) -> Seq<Repository> {
    new_repos.filter(|r: Repository| r.auto_commit && !spec_has_path(old_repos, r.path@))
}

proof fn lemma_spec_enabled_push(s: Seq<Repository>, x: Repository)
    ensures
        spec_enabled(s.push(x)) == if x.auto_commit {
            spec_enabled(s).push(x)
        } else {
            spec_enabled(s)
        },
{
    s.lemma_filter_push(x, |r: Repository| r.auto_commit);
}

proof fn lemma_spec_inits_push(old_repos: Seq<Repository>, s: Seq<Repository>, x: Repository)
    ensures
        spec_repos_to_initialize(old_repos, s.push(x)) == if x.auto_commit && !spec_has_path(
            old_repos,
            x.path@,
        ) {
            spec_repos_to_initialize(old_repos, s).push(x)
        } else {
            spec_repos_to_initialize(old_repos, s)
        },
{
    s.lemma_filter_push(x, |r: Repository| r.auto_commit && !spec_has_path(old_repos, r.path@));
}

/// Whether some repository in `repos` has this path.
pub fn has_repository(repos: &Vec<Repository>, path: &str) -> (r: bool)
    ensures
        r == spec_has_path(repos@, path@),
{
    let mut i: usize = 0;
    while i < repos.len()
        invariant
            i <= repos@.len(),
            forall|k: int| 0 <= k < i ==> repos@[k].path@ != path@,
        decreases repos@.len() - i,
    {
        if str_eq(repos[i].path.as_str(), path) {
            return true;
        }
        i = i + 1;
    }
    false
}

/// The enabled repositories of a configuration, in configuration order:
/// the only repositories a cycle ever synchronizes.
pub fn enabled_repositories(config: &Config) -> (r: Vec<Repository>)
    ensures
        r@ == spec_enabled(config.repositories@),
{
    broadcast use Seq::lemma_filter_push;

    let mut r: Vec<Repository> = Vec::new();
    let mut i: usize = 0;
    proof {
        assert(config.repositories@.take(0) =~= Seq::<Repository>::empty());
        assert(spec_enabled(Seq::<Repository>::empty()) =~= Seq::<Repository>::empty()) by {
            reveal(Seq::filter);
        }
    }
    while i < config.repositories.len()
        invariant
            i <= config.repositories@.len(),
            r@ == spec_enabled(config.repositories@.take(i as int)),
        decreases config.repositories@.len() - i,
    {
        proof {
            assert(config.repositories@.take(i as int).push(config.repositories@[i as int])
                =~= config.repositories@.take(i as int + 1));
            lemma_spec_enabled_push(
                config.repositories@.take(i as int),
                config.repositories@[i as int],
            );
        }
        if config.repositories[i].auto_commit {
            r.push(config.repositories[i].clone());
        }
        i = i + 1;
    }
    proof {
        assert(config.repositories@.take(config.repositories@.len() as int)
            =~= config.repositories@);
    }
    r
}

/// The repositories a reload initializes: enabled, and new by path.
pub fn repos_to_initialize(old_config: &Config, new_config: &Config) -> (r: Vec<Repository>)
    ensures
        r@ == spec_repos_to_initialize(old_config.repositories@, new_config.repositories@),
{
    broadcast use Seq::lemma_filter_push;

    let mut r: Vec<Repository> = Vec::new();
    let mut i: usize = 0;
    proof {
        assert(new_config.repositories@.take(0) =~= Seq::<Repository>::empty());
        assert(spec_repos_to_initialize(old_config.repositories@, Seq::<Repository>::empty())
            =~= Seq::<Repository>::empty()) by {
            reveal(Seq::filter);
        }
    }
    while i < new_config.repositories.len()
        invariant
            i <= new_config.repositories@.len(),
            r@ == spec_repos_to_initialize(
                old_config.repositories@,
                new_config.repositories@.take(i as int),
            ),
        decreases new_config.repositories@.len() - i,
    {
        proof {
            assert(new_config.repositories@.take(i as int).push(new_config.repositories@[i as int])
                =~= new_config.repositories@.take(i as int + 1));
            lemma_spec_inits_push(
                old_config.repositories@,
                new_config.repositories@.take(i as int),
                new_config.repositories@[i as int],
            );
        }
        let candidate = &new_config.repositories[i];
        if candidate.auto_commit && !has_repository(&old_config.repositories, candidate.path.as_str()) {
            r.push(candidate.clone());
        }
        i = i + 1;
    }
    proof {
        assert(new_config.repositories@.take(new_config.repositories@.len() as int)
            =~= new_config.repositories@);
    }
    r
}

impl Default for DaemonConfig {
    /// The daemon defaults: a five-minute interval, tray enabled.
    fn default() -> (r: Self)
        ensures
            r.check_interval_seconds == 300u64,
            r.enable_tray,
    {
        DaemonConfig { check_interval_seconds: default_check_interval(), enable_tray: default_enable_tray() }
    }
}

impl Default for Config {
    /// The default configuration: default daemon settings, no repositories.
    fn default() -> (r: Self)
        ensures
            r.daemon.check_interval_seconds == 300u64,
            r.daemon.enable_tray,
            r.repositories@.len() == 0,
    {
        Config { daemon: DaemonConfig::default(), repositories: Vec::new() }
    }
}

} // verus!
