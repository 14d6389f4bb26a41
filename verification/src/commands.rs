//! The configuration edits behind the command-line tool: adding, removing,
//! enabling and disabling repositories, and changing the check interval.
//! Each function transforms a configuration value; reading and writing the
//! configuration file stays with the caller.

use vstd::prelude::*;
use crate::config::{Config, Repository, spec_has_path, has_repository};
use crate::protocol::RepoDetail;
use crate::strutil::{spec_dec, str_eq, to_chars, from_chars, u64_to_chars, append_chars};

verus! {

/// `repos` with the first repository at this path switched to `enabled`;
/// without one, unchanged.
pub open spec fn spec_set_enabled_first(
    repos: Seq<Repository>,
    path: Seq<char>,
    enabled: bool,
) -> Seq<Repository>
    decreases repos.len(),
{
    if repos.len() == 0 {
        repos
    } else if repos[0].path@ == path {
        seq![Repository { auto_commit: enabled, ..repos[0] }] + repos.skip(1)
    } else {
        seq![repos[0]] + spec_set_enabled_first(repos.skip(1), path, enabled)
    }
}

/// Switches the `auto_commit` flag of the first repository with this path;
/// reports whether one was found. Nothing else changes.
pub fn update_repository_status(config: &mut Config, path: &str, enabled: bool) -> (found: bool)
    ensures
        found == spec_has_path(old(config).repositories@, path@),
        final(config).daemon == old(config).daemon,
        final(config).repositories@ == spec_set_enabled_first(
            old(config).repositories@,
            path@,
            enabled,
        ),
{
    let ghost orig = config.repositories@;
    let mut out: Vec<Repository> = Vec::new();
    let mut found = false;
    let mut i: usize = 0;
    proof {
        assert(out@ =~= orig.take(0));
        assert(orig.skip(0) =~= orig);
        assert(out@ + spec_set_enabled_first(orig, path@, enabled) =~= spec_set_enabled_first(
            orig,
            path@,
            enabled,
        ));
    }
    while i < config.repositories.len()
        invariant
            i <= orig.len(),
            orig == config.repositories@,
            !found ==> {
                &&& out@ =~= orig.take(i as int)
                &&& forall|k: int| 0 <= k < i ==> orig[k].path@ != path@
                &&& spec_set_enabled_first(orig, path@, enabled) == out@ + spec_set_enabled_first(
                    orig.skip(i as int),
                    path@,
                    enabled,
                )
            },
            found ==> {
                &&& spec_has_path(orig, path@)
                &&& spec_set_enabled_first(orig, path@, enabled) == out@ + orig.skip(i as int)
            },
        decreases orig.len() - i,
    {
        let r = &config.repositories[i];
        proof {
            let rest = orig.skip(i as int);
            assert(rest[0] == orig[i as int]);
            assert(rest.skip(1) =~= orig.skip(i as int + 1));
        }
        if !found && str_eq(r.path.as_str(), path) {
            out.push(Repository {
                path: r.path.clone(),
                auto_commit: enabled,
                commit_message_template: r.commit_message_template.clone(),
            });
            found = true;
            proof {
                let rest = orig.skip(i as int);
                assert(seq![Repository { auto_commit: enabled, ..rest[0] }] + rest.skip(1)
                    == spec_set_enabled_first(rest, path@, enabled));
                assert(out@ + orig.skip(i as int + 1) =~= (out@.drop_last() + (seq![
                    Repository { auto_commit: enabled, ..rest[0] },
                ] + rest.skip(1))));
            }
        } else {
            let was_found = found;
            out.push(r.clone());
            proof {
                let rest = orig.skip(i as int);
                if was_found {
                    assert(out@ + orig.skip(i as int + 1) =~= out@.drop_last() + rest);
                } else {
                    assert(out@ + spec_set_enabled_first(orig.skip(i as int + 1), path@, enabled)
                        =~= out@.drop_last() + (seq![rest[0]] + spec_set_enabled_first(
                        rest.skip(1),
                        path@,
                        enabled,
                    )));
                    assert(out@ =~= orig.take(i as int + 1));
                }
            }
        }
        i = i + 1;
    }
    proof {
        if !found {
            assert(orig.skip(orig.len() as int) =~= Seq::<Repository>::empty());
            assert(out@ + spec_set_enabled_first(
                Seq::<Repository>::empty(),
                path@,
                enabled,
            ) =~= out@);
            assert(out@ =~= orig.take(orig.len() as int));
            assert(out@ =~= orig);
        } else {
            assert(orig.skip(orig.len() as int) =~= Seq::<Repository>::empty());
            assert(out@ + Seq::<Repository>::empty() =~= out@);
        }
    }
    config.repositories = out;
    found
}

/// Enables automatic commits for the repository at this path.
pub fn enable_repository(config: &mut Config, path: &str) -> (found: bool)
    ensures
        found == spec_has_path(old(config).repositories@, path@),
        final(config).daemon == old(config).daemon,
        final(config).repositories@ == spec_set_enabled_first(
            old(config).repositories@,
            path@,
            true,
        ),
{
    update_repository_status(config, path, true)
}

/// Disables automatic commits for the repository at this path.
pub fn disable_repository(config: &mut Config, path: &str) -> (found: bool)
    ensures
        found == spec_has_path(old(config).repositories@, path@),
        final(config).daemon == old(config).daemon,
        final(config).repositories@ == spec_set_enabled_first(
            old(config).repositories@,
            path@,
            false,
        ),
{
    update_repository_status(config, path, false)
}

/// Adds a repository, enabled, with the given template (or the default one)
/// and, when given, a new check interval; refuses a path that is already
/// configured, leaving everything unchanged.
pub fn add_repository(
    config: &mut Config,
    path: String,
    message: Option<String>,
    interval: Option<u64>,
) -> (added: bool)
    ensures
        added == !spec_has_path(old(config).repositories@, path@),
        !added ==> final(config).daemon == old(config).daemon && final(config).repositories@
            == old(config).repositories@,
        added ==> {
            &&& final(config).repositories@.len() == old(config).repositories@.len() + 1
            &&& final(config).repositories@.take(old(config).repositories@.len() as int) == old(
                config,
            ).repositories@
            &&& ({
                let r = final(config).repositories@.last();
                &&& r.path == path
                &&& r.auto_commit
                &&& match message {
                    Some(m) => r.commit_message_template == m,
                    None => r.commit_message_template@ == "Auto-commit: {timestamp}"@,
                }
            })
            &&& final(config).daemon.check_interval_seconds == match interval {
                Some(s) => s,
                None => old(config).daemon.check_interval_seconds,
            }
            &&& final(config).daemon.enable_tray == old(config).daemon.enable_tray
        },
{
    if has_repository(&config.repositories, path.as_str()) {
        return false;
    }
    let template = match message {
        Some(m) => m,
        None => String::from_str("Auto-commit: {timestamp}"),
    };
    let ghost before = config.repositories@;
    config.repositories.push(Repository {
        path,
        auto_commit: true,
        commit_message_template: template,
    });
    proof {
        assert(config.repositories@.take(before.len() as int) =~= before);
    }
    match interval {
        Some(s) => {
            config.daemon.check_interval_seconds = s;
        },
        None => {},
    }
    true
}

/// Removes every repository at this path; reports whether any was there.
pub fn remove_repository(config: &mut Config, path: &str) -> (removed: bool)
    ensures
        removed == spec_has_path(old(config).repositories@, path@),
        final(config).daemon == old(config).daemon,
        final(config).repositories@ == old(config).repositories@.filter(
            |r: Repository| r.path@ != path@,
        ),
{
    let ghost orig = config.repositories@;
    let mut out: Vec<Repository> = Vec::new();
    let mut removed = false;
    let mut i: usize = 0;
    proof {
        assert(orig.take(0) =~= Seq::<Repository>::empty());
        assert(Seq::<Repository>::empty().filter(|r: Repository| r.path@ != path@)
            =~= Seq::<Repository>::empty()) by {
            reveal(Seq::filter);
        }
    }
    while i < config.repositories.len()
        invariant
            i <= orig.len(),
            orig == config.repositories@,
            out@ == orig.take(i as int).filter(|r: Repository| r.path@ != path@),
            removed == exists|k: int| 0 <= k < i && orig[k].path@ == path@,
        decreases orig.len() - i,
    {
        proof {
            assert(orig.take(i as int).push(orig[i as int]) =~= orig.take(i as int + 1));
            orig.take(i as int).lemma_filter_push(
                orig[i as int],
                |r: Repository| r.path@ != path@,
            );
        }
        let r = &config.repositories[i];
        if str_eq(r.path.as_str(), path) {
            removed = true;
        } else {
            out.push(r.clone());
        }
        i = i + 1;
    }
    proof {
        assert(orig.take(orig.len() as int) =~= orig);
    }
    config.repositories = out;
    removed
}

/// A leading `~/` replaced by the home directory; any other path is kept
/// as it is. The caller resolves the result against the filesystem.
pub fn expand_path(path: &str, home: &str) -> (r: String)
    ensures
        (path@.len() >= 2 && path@[0] == '~' && path@[1] == '/') ==> r@ == home@ + path@.skip(1),
        !(path@.len() >= 2 && path@[0] == '~' && path@[1] == '/') ==> r@ == path@,
{
    let n = path.unicode_len();
    if n >= 2 && path.get_char(0) == '~' && path.get_char(1) == '/' {
        let mut out = String::new();
        out.append(home);
        let chars = to_chars(path);
        let mut i: usize = 1;
        while i < n
            invariant
                n == path@.len(),
                chars@ == path@,
                1 <= i <= n,
                out@ =~= home@ + path@.subrange(1, i as int),
            decreases n - i,
        {
            crate::strutil::push_char(&mut out, chars[i]);
            i = i + 1;
        }
        proof {
            assert(out@ =~= home@ + path@.skip(1));
        }
        out
    } else {
        String::from_str(path)
    }
}

/// The human-readable form of an interval of at least one minute:
/// `N minute(s)`, with a `M second(s)` part when it is not whole.
pub open spec fn spec_interval_description(seconds: u64) -> Option<Seq<char>> {
    if seconds < 60 {
        None
    } else {
        let minutes = seconds as nat / 60;
        let rest = seconds as nat % 60;
        let minute_part = spec_dec(minutes) + " minute"@ + (if minutes != 1 {
            "s"@
        } else {
            Seq::<char>::empty()
        });
        if rest == 0 {
            Some(minute_part)
        } else {
            Some(
                minute_part + " "@ + spec_dec(rest) + " second"@ + (if rest != 1 {
                    "s"@
                } else {
                    Seq::<char>::empty()
                }),
            )
        }
    }
}

/// Describes an interval in minutes and seconds; under a minute there is
/// nothing to add.
pub fn interval_description(seconds: u64) -> (r: Option<String>)
    ensures
        match r {
            Some(s) => spec_interval_description(seconds) == Some(s@),
            None => seconds < 60,
        },
{
    if seconds < 60 {
        return None;
    }
    let minutes = seconds / 60;
    let rest = seconds % 60;
    let mut out = String::new();
    let digits = u64_to_chars(minutes);
    append_chars(&mut out, &digits);
    out.append(" minute");
    if minutes != 1 {
        out.append("s");
    }
    if rest != 0 {
        out.append(" ");
        let rest_digits = u64_to_chars(rest);
        append_chars(&mut out, &rest_digits);
        out.append(" second");
        if rest != 1 {
            out.append("s");
        }
    }
    proof {
        if minutes == 1 {
            assert(spec_dec(minutes as nat) + " minute"@ + Seq::<char>::empty() =~= spec_dec(
                minutes as nat,
            ) + " minute"@);
        }
        if rest != 0 && rest == 1 {
            assert(out@ =~= spec_interval_description(seconds)->Some_0);
        }
        assert(spec_interval_description(seconds) == Some(out@));
    }
    Some(out)
}

/// One row of the repository listing: status label, path and template.
pub struct RepoRow {
    pub status: String,
    pub path: String,
    pub message: String,
}

/// The rows of the repository listing, in configuration order.
pub fn repository_rows(config: &Config) -> (rows: Vec<RepoRow>)
    ensures
        rows@.len() == config.repositories@.len(),
        forall|i: int|
            0 <= i < rows@.len() ==> {
                let repo = #[trigger] config.repositories@[i];
                &&& rows@[i].status@ == (if repo.auto_commit {
                    "\u{2713} Enabled"@
                } else {
                    "\u{2717} Disabled"@
                })
                &&& rows@[i].path == repo.path
                &&& rows@[i].message == repo.commit_message_template
            },
{
    let mut rows: Vec<RepoRow> = Vec::new();
    let mut i: usize = 0;
    while i < config.repositories.len()
        invariant
            i <= config.repositories@.len(),
            rows@.len() == i,
            forall|k: int|
                0 <= k < i ==> {
                    let repo = #[trigger] config.repositories@[k];
                    &&& rows@[k].status@ == (if repo.auto_commit {
                        "\u{2713} Enabled"@
                    } else {
                        "\u{2717} Disabled"@
                    })
                    &&& rows@[k].path == repo.path
                    &&& rows@[k].message == repo.commit_message_template
                },
        decreases config.repositories@.len() - i,
    {
        let repo = &config.repositories[i];
        let status = if repo.auto_commit {
            String::from_str("\u{2713} Enabled")
        } else {
            String::from_str("\u{2717} Disabled")
        };
        rows.push(RepoRow {
            status,
            path: repo.path.clone(),
            message: repo.commit_message_template.clone(),
        });
        i = i + 1;
    }
    rows
}

/// The marker shown before one repository in a trigger report: a check
/// mark after a commit, a cross after an error, a dash otherwise.
pub fn detail_icon(detail: &RepoDetail) -> (r: String)
    ensures
        detail.committed ==> r@ == "\u{2713}"@,
        !detail.committed && detail.error is Some ==> r@ == "\u{2717}"@,
        !detail.committed && detail.error is None ==> r@ == "\u{2212}"@,
{
    if detail.committed {
        String::from_str("\u{2713}")
    } else if detail.error.is_some() {
        String::from_str("\u{2717}")
    } else {
        String::from_str("\u{2212}")
    }
}

} // verus!
