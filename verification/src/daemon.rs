//! The daemon's decision core: one arbitration function consumes the
//! events of every source — termination, timer tick, configuration reload,
//! tray action — and says what to do, while the driver owns the sockets,
//! timers and watchers. Suspension gates only the automatic and manual
//! sync paths; a failed reload leaves the active configuration untouched;
//! a successful reload initializes exactly the repositories that are new
//! by path and enabled.

use vstd::prelude::*;
use crate::config::{
    Config, Repository, spec_enabled, spec_repos_to_initialize, enabled_repositories,
    repos_to_initialize,
};
use crate::protocol::{Command, Response, ResponseData, RepoDetail, spec_command_body};
use crate::strutil::{spec_dec, spec_trim, u64_to_chars, append_chars};
use crate::sync::SyncOutcome;
use crate::tray::TrayAction;

verus! {

/// The daemon's own state: the active configuration and two flags.
#[derive(Debug)]
pub struct DaemonCore {
    pub config: Config,
    pub suspended: bool,
    pub shutting_down: bool,
}

/// One event of the arbitration loop. A reload event carries the freshly
/// parsed configuration, or nothing when the file did not parse.
#[derive(Debug)]
pub enum DaemonEvent {
    /// A termination signal.
    Termination,
    /// The interval timer fired.
    Tick,
    /// The configuration file changed and was re-read.
    Reload(Option<Config>),
    /// The user acted on the tray.
    Tray(TrayAction),
}

/// Whether the tray collaborator should be started or stopped.
#[derive(Debug, Clone, Copy, PartialEq, Eq, Structural)]
pub enum TrayChange {
    Keep,
    Start,
    Stop,
}

/// What the driver must do after one event.
#[derive(Debug)]
pub struct Directive {
    /// Run one sync cycle over these repositories, in this order.
    pub sync_repos: Vec<Repository>,
    /// Initialize these newly added repositories, in this order.
    pub init_repos: Vec<Repository>,
    /// Re-arm the interval timer with this many seconds.
    pub rearm_interval: Option<u64>,
    /// Start or stop the tray collaborator.
    pub tray_change: TrayChange,
    /// Tell the tray how many repositories are configured.
    pub tray_repo_count: Option<usize>,
    /// Show the syncing status before running the cycle.
    pub announce_syncing: bool,
    /// Leave the arbitration loop.
    pub quit: bool,
}

/// A directive that asks for nothing.
pub open spec fn directive_inert(d: Directive) -> bool {
    &&& d.sync_repos@.len() == 0
    &&& d.init_repos@.len() == 0
    &&& d.rearm_interval is None
    &&& d.tray_change == TrayChange::Keep
    &&& d.tray_repo_count is None
    &&& !d.announce_syncing
    &&& !d.quit
}

/// The repositories a tick synchronizes: none while suspended, otherwise
/// the enabled ones in configuration order.
pub open spec fn spec_tick_syncs(c: DaemonCore) -> Seq<Repository> {
    if c.suspended {
        Seq::<Repository>::empty()
    } else {
        spec_enabled(c.config.repositories@)
    }
}

/// The core after the suspension flag is toggled.
pub open spec fn spec_toggle_suspend(c: DaemonCore) -> DaemonCore {
    DaemonCore { suspended: !c.suspended, ..c }
}

fn empty_directive() -> (d: Directive)
    ensures
        directive_inert(d),
{
    Directive {
        sync_repos: Vec::new(),
        init_repos: Vec::new(),
        rearm_interval: None,
        tray_change: TrayChange::Keep,
        tray_repo_count: None,
        announce_syncing: false,
        quit: false,
    }
}

impl DaemonCore {
    /// A core around the initial configuration, running and not shutting
    /// down; the returned list is the startup reconciliation: every
    /// enabled repository, synchronized once before the loop begins.
    pub fn new(config: Config) -> (r: (DaemonCore, Vec<Repository>))
        ensures
            r.0.config == config,
            !r.0.suspended,
            !r.0.shutting_down,
            r.1@ == spec_enabled(config.repositories@),
    {
        let init = enabled_repositories(&config);
        (DaemonCore { config, suspended: false, shutting_down: false }, init)
    }

    /// Consumes one event and says what the driver must do.
    ///
    /// - A termination signal or a quit action only marks the core as
    ///   shutting down.
    /// - A tick or a sync action is gated by suspension; otherwise it
    ///   announces the syncing status and names the enabled repositories.
    /// - A reload that failed to parse changes nothing at all; one that
    ///   parsed replaces the whole configuration, names the new enabled
    ///   repositories for initialization, re-arms the timer when the
    ///   interval changed, and starts or stops the tray when its flag
    ///   changed.
    /// - Toggling suspension only flips the flag.
    pub fn handle_event(&mut self, event: DaemonEvent) -> (d: Directive)
        ensures
            event is Termination ==> *final(self) == (DaemonCore {
                shutting_down: true,
                ..*old(self)
            }) && directive_inert(d),
            event is Tick ==> *final(self) == *old(self) && d.sync_repos@ == spec_tick_syncs(
                *old(self),
            ) && d.announce_syncing == !old(self).suspended && d.init_repos@.len() == 0
                && d.rearm_interval is None && d.tray_change == TrayChange::Keep
                && d.tray_repo_count is None && !d.quit,
            event matches DaemonEvent::Reload(None) ==> *final(self) == *old(self)
                && directive_inert(d),
            event matches DaemonEvent::Reload(Some(new_config)) ==> ({
                let old_core = *old(self);
                &&& final(self).config == new_config
                &&& final(self).suspended == old_core.suspended
                &&& final(self).shutting_down == old_core.shutting_down
                &&& d.init_repos@ == spec_repos_to_initialize(
                    old_core.config.repositories@,
                    new_config.repositories@,
                )
                &&& d.rearm_interval == (if new_config.daemon.check_interval_seconds
                    != old_core.config.daemon.check_interval_seconds {
                    Some(new_config.daemon.check_interval_seconds)
                } else {
                    None::<u64>
                })
                &&& d.tray_change == (if old_core.config.daemon.enable_tray
                    == new_config.daemon.enable_tray {
                    TrayChange::Keep
                } else if new_config.daemon.enable_tray {
                    TrayChange::Start
                } else {
                    TrayChange::Stop
                })
                &&& d.tray_repo_count == Some(new_config.repositories@.len() as usize)
                &&& d.sync_repos@.len() == 0
                &&& !d.announce_syncing
                &&& !d.quit
            }),
            event matches DaemonEvent::Tray(a) && a == TrayAction::TriggerSync ==> *final(self)
                == *old(self) && d.sync_repos@ == spec_tick_syncs(*old(self))
                && d.announce_syncing == !old(self).suspended && d.init_repos@.len() == 0
                && d.rearm_interval is None && d.tray_change == TrayChange::Keep
                && d.tray_repo_count is None && !d.quit,
            event matches DaemonEvent::Tray(a) && a == TrayAction::ToggleSuspend ==> *final(self)
                == spec_toggle_suspend(*old(self)) && directive_inert(d),
            event matches DaemonEvent::Tray(a) && a == TrayAction::Quit ==> *final(self)
                == (DaemonCore { shutting_down: true, ..*old(self) }) && directive_inert(d),
    {
        match event {
            DaemonEvent::Termination => {
                self.shutting_down = true;
                empty_directive()
            },
            DaemonEvent::Tick => {
                let mut d = empty_directive();
                if !self.suspended {
                    d.sync_repos = enabled_repositories(&self.config);
                    d.announce_syncing = true;
                }
                d
            },
            DaemonEvent::Reload(None) => empty_directive(),
            DaemonEvent::Reload(Some(new_config)) => {
                let mut d = empty_directive();
                d.init_repos = repos_to_initialize(&self.config, &new_config);
                if new_config.daemon.check_interval_seconds
                    != self.config.daemon.check_interval_seconds {
                    d.rearm_interval = Some(new_config.daemon.check_interval_seconds);
                }
                if self.config.daemon.enable_tray != new_config.daemon.enable_tray {
                    d.tray_change = if new_config.daemon.enable_tray {
                        TrayChange::Start
                    } else {
                        TrayChange::Stop
                    };
                }
                d.tray_repo_count = Some(new_config.repositories.len());
                self.config = new_config;
                d
            },
            DaemonEvent::Tray(TrayAction::TriggerSync) => {
                let mut d = empty_directive();
                if !self.suspended {
                    d.sync_repos = enabled_repositories(&self.config);
                    d.announce_syncing = true;
                }
                d
            },
            DaemonEvent::Tray(TrayAction::ToggleSuspend) => {
                self.suspended = !self.suspended;
                empty_directive()
            },
            DaemonEvent::Tray(TrayAction::Quit) => {
                self.shutting_down = true;
                empty_directive()
            },
        }
    }
}

/// The response to a `status` request: always successful, carrying the
/// uptime, the configured interval and the repository count.
pub fn handle_status_command(config: &Config, uptime_seconds: u64) -> (r: Response)
    ensures
        r.status == crate::protocol::ResponseStatus::Okay,
        r.message@ == "Daemon status"@,
        (r.data matches Some(ResponseData::Status {
            uptime_seconds: u,
            check_interval_seconds: ci,
            repositories_count: n,
        }) && u == uptime_seconds && ci == config.daemon.check_interval_seconds && n
            == config.repositories@.len()),
{
    Response::ok_with_data(
        "Daemon status",
        ResponseData::Status {
            uptime_seconds,
            check_interval_seconds: config.daemon.check_interval_seconds,
            repositories_count: config.repositories.len(),
        },
    )
}

/// The repositories a `trigger` request synchronizes: none while the
/// daemon is suspended (the request is then a well-formed no-op),
/// otherwise the enabled ones in configuration order.
pub fn trigger_plan(config: &Config, suspended: bool) -> (r: Vec<Repository>)
    ensures
        suspended ==> r@.len() == 0,
        !suspended ==> r@ == spec_enabled(config.repositories@),
{
    if suspended {
        Vec::new()
    } else {
        enabled_repositories(config)
    }
}

/// How many of the outcomes committed.
pub open spec fn spec_committed_count(outcomes: Seq<SyncOutcome>) -> nat
    decreases outcomes.len(),
{
    if outcomes.len() == 0 {
        0
    } else {
        spec_committed_count(outcomes.drop_last()) + (if outcomes.last().committed {
            1nat
        } else {
            0nat
        })
    }
}

/// The detail reported for one outcome. A committed cycle reports zero
/// changed files: the count of files is not tracked.
pub open spec fn spec_outcome_detail(o: SyncOutcome) -> RepoDetail {
    RepoDetail {
        path: o.path,
        committed: o.committed,
        files_changed: if o.committed {
            Some(0usize)
        } else {
            None
        },
        error: o.error,
    }
}

/// The response to a `trigger` request, built from the per-repository
/// outcomes of the cycle that ran: the counts, one detail per outcome in
/// order, and the summary message.
pub fn handle_trigger_command(outcomes: &Vec<SyncOutcome>) -> (r: Response)
    ensures
        r.status == crate::protocol::ResponseStatus::Okay,
        r.message@ == "Checked "@ + spec_dec(outcomes@.len()) + " repositories, committed changes in "@
            + spec_dec(spec_committed_count(outcomes@)),
        (r.data matches Some(ResponseData::Trigger { repos_checked, repos_committed, details })
            && repos_checked == outcomes@.len() && repos_committed == spec_committed_count(
            outcomes@,
        ) && details@.len() == outcomes@.len() && (forall|i: int|
            0 <= i < outcomes@.len() ==> details@[i] == spec_outcome_detail(#[trigger] outcomes@[i]))),
{
    let mut details: Vec<RepoDetail> = Vec::new();
    let mut committed_count: usize = 0;
    let mut i: usize = 0;
    while i < outcomes.len()
        invariant
            i <= outcomes@.len(),
            details@.len() == i,
            committed_count as nat == spec_committed_count(outcomes@.take(i as int)),
            committed_count <= i,
            forall|k: int|
                0 <= k < i ==> details@[k] == spec_outcome_detail(#[trigger] outcomes@[k]),
        decreases outcomes@.len() - i,
    {
        let o = &outcomes[i];
        proof {
            let taken = outcomes@.take(i as int + 1);
            assert(taken.drop_last() =~= outcomes@.take(i as int));
            assert(taken.last() == outcomes@[i as int]);
        }
        let error = match &o.error {
            Some(e) => Some(e.clone()),
            None => None,
        };
        details.push(RepoDetail {
            path: o.path.clone(),
            committed: o.committed,
            files_changed: if o.committed {
                Some(0)
            } else {
                None
            },
            error,
        });
        if o.committed {
            committed_count = committed_count + 1;
        }
        i = i + 1;
    }
    proof {
        assert(outcomes@.take(outcomes@.len() as int) =~= outcomes@);
    }
    let mut message = String::from_str("Checked ");
    let checked_digits = u64_to_chars(outcomes.len() as u64);
    append_chars(&mut message, &checked_digits);
    message.append(" repositories, committed changes in ");
    let committed_digits = u64_to_chars(committed_count as u64);
    append_chars(&mut message, &committed_digits);
    Response::ok_with_data(
        message.as_str(),
        ResponseData::Trigger {
            repos_checked: outcomes.len(),
            repos_committed: committed_count,
            details,
        },
    )
}

/// What one request line asks for.
#[derive(Debug)]
pub enum IpcStep {
    /// The line was empty: the peer closed without a request; answer
    /// nothing.
    Ignore,
    /// Send this response and close.
    Reply(Response),
    /// Run a sync cycle over the trigger plan, then answer with
    /// `handle_trigger_command` over the outcomes.
    RunTrigger,
}

/// Decodes one request line and dispatches it: an empty line is a no-op,
/// an unreadable one earns an error response, `ping` and `status` are
/// answered at once, and `trigger` asks the driver to run the cycle.
pub fn ipc_step(line: &str, config: &Config, uptime_seconds: u64) -> (r: IpcStep)
    ensures
        line@.len() == 0 ==> r is Ignore,
        line@.len() != 0 ==> match r {
            IpcStep::Ignore => false,
            IpcStep::RunTrigger => spec_trim(line@) == spec_command_body(Command::Trigger),
            IpcStep::Reply(resp) => {
                if spec_trim(line@) == spec_command_body(Command::Ping) {
                    resp.status == crate::protocol::ResponseStatus::Okay && resp.message@
                        == "pong"@ && resp.data is None
                } else if spec_trim(line@) == spec_command_body(Command::Status) {
                    resp.status == crate::protocol::ResponseStatus::Okay && resp.message@
                        == "Daemon status"@ && (resp.data matches Some(ResponseData::Status {
                        uptime_seconds: u,
                        check_interval_seconds: ci,
                        repositories_count: n,
                    }) && u == uptime_seconds && ci == config.daemon.check_interval_seconds && n
                        == config.repositories@.len())
                } else {
                    spec_trim(line@) != spec_command_body(Command::Trigger) && resp.status
                        == crate::protocol::ResponseStatus::Error
                }
            },
        },
{
    if line.unicode_len() == 0 {
        return IpcStep::Ignore;
    }
    proof {
        reveal_strlit("{\"command\":\"trigger\"}");
        reveal_strlit("{\"command\":\"status\"}");
        reveal_strlit("{\"command\":\"ping\"}");
        assert(("{\"command\":\"trigger\"}"@).len() != ("{\"command\":\"ping\"}"@).len());
        assert(("{\"command\":\"trigger\"}"@).len() != ("{\"command\":\"status\"}"@).len());
        assert(("{\"command\":\"status\"}"@).len() != ("{\"command\":\"ping\"}"@).len());
        assert(spec_command_body(Command::Trigger) != spec_command_body(Command::Ping));
        assert(spec_command_body(Command::Trigger) != spec_command_body(Command::Status));
        assert(spec_command_body(Command::Status) != spec_command_body(Command::Ping));
    }
    match Command::from_json(line) {
        Ok(Command::Ping) => IpcStep::Reply(Response::ok("pong")),
        Ok(Command::Status) => IpcStep::Reply(handle_status_command(config, uptime_seconds)),
        Ok(Command::Trigger) => IpcStep::RunTrigger,
        Err(_) => IpcStep::Reply(Response::error("Failed to parse command")),
    }
}

/// Only repositories with automatic commits enabled are ever handed to a
/// sync cycle — at startup, on a timer tick, on a manual trigger, and
/// among the repositories a reload initializes.
pub proof fn lemma_disabled_repository_never_synced(
    c: DaemonCore,
    old_repos: Seq<Repository>,
    new_repos: Seq<Repository>,
    r: Repository,
)
    requires
        !r.auto_commit,
    ensures
        !spec_tick_syncs(c).contains(r),
        !spec_enabled(c.config.repositories@).contains(r),
        !spec_repos_to_initialize(old_repos, new_repos).contains(r),
{
    broadcast use Seq::lemma_filter_pred;

    if spec_tick_syncs(c).contains(r) {
        let i = choose|i: int| 0 <= i < spec_tick_syncs(c).len() && spec_tick_syncs(c)[i] == r;
        assert(r.auto_commit);
    }
    if spec_enabled(c.config.repositories@).contains(r) {
        let i = choose|i: int|
            0 <= i < spec_enabled(c.config.repositories@).len() && spec_enabled(
                c.config.repositories@,
            )[i] == r;
        assert(r.auto_commit);
    }
    if spec_repos_to_initialize(old_repos, new_repos).contains(r) {
        let s = spec_repos_to_initialize(old_repos, new_repos);
        let i = choose|i: int| 0 <= i < s.len() && s[i] == r;
        assert(r.auto_commit);
    }
}

/// Toggling suspension while a tick is pending stops that tick's
/// automatic sync: after the toggle of a running core, a tick
/// synchronizes nothing.
pub proof fn lemma_toggle_suspend_blocks_pending_tick(c: DaemonCore)
    requires
        !c.suspended,
    ensures
        spec_tick_syncs(spec_toggle_suspend(c)) =~= Seq::<Repository>::empty(),
{
}

/// A reload that failed to parse keeps the whole previous configuration:
/// the interval and the repository list stay exactly as they were. This
/// restates, as a law over the transition itself, what `handle_event`
/// ensures for a reload without a configuration.
pub proof fn lemma_failed_reload_keeps_configuration(c: DaemonCore, c_after: DaemonCore)
    requires
        c_after == c,
    ensures
        c_after.config.daemon.check_interval_seconds == c.config.daemon.check_interval_seconds,
        c_after.config.repositories@ == c.config.repositories@,
{
}

/// A reload initializes a repository only if its path was absent from the
/// old configuration and it is enabled; every such repository of the new
/// configuration is initialized, in order.
pub proof fn lemma_reload_initializes_only_new(
    old_repos: Seq<Repository>,
    new_repos: Seq<Repository>,
    r: Repository,
)
    ensures
        spec_repos_to_initialize(old_repos, new_repos).contains(r) ==> r.auto_commit
            && !crate::config::spec_has_path(old_repos, r.path@) && new_repos.contains(r),
        (new_repos.contains(r) && r.auto_commit && !crate::config::spec_has_path(
            old_repos,
            r.path@,
        )) ==> spec_repos_to_initialize(old_repos, new_repos).contains(r),
{
    broadcast use Seq::lemma_filter_pred;
    broadcast use Seq::lemma_filter_contains;
    broadcast use Seq::lemma_filter_contains_rev;

    let s = spec_repos_to_initialize(old_repos, new_repos);
    if s.contains(r) {
        let i = choose|i: int| 0 <= i < s.len() && s[i] == r;
        assert(r.auto_commit && !crate::config::spec_has_path(old_repos, r.path@));
        assert(new_repos.contains(r));
    }
    if new_repos.contains(r) && r.auto_commit && !crate::config::spec_has_path(
        old_repos,
        r.path@,
    ) {
        let i = choose|i: int| 0 <= i < new_repos.len() && new_repos[i] == r;
        assert(s.contains(new_repos[i]));
    }
}

} // verus!
